//! Probes, and what they are written against.
pub mod api;
pub mod probe_3path;
pub mod probe_4path;
pub mod probe_all8_trivial;
pub mod probe_bughunt;
pub mod probe_fork_only;
pub mod probe_fstat_only;
pub mod probe_lstat_only;
pub mod probe_noop;
pub mod probe_open;
pub mod probe_open_fstat;
pub mod probe_open_only;
pub mod probe_recv_only;
pub mod probe_send_only;
pub mod probe_stat_only;
