use mtdi::bench::cold::{fill_returns, handler_ctx, thrash_data, XorShift, PAGE, THRASH_CODE_BYTES, THRASH_CODE_FNS};
use mtdi::bench::warm::handler_uprobe;
use mtdi::hook::trampoline::thunk::RegisterContext;
use mtdi::probes::api::{text_of_read, Handler, MemoryRead, MtdiRegistry, MtdiSafeContext};
use mtdi::probes::probe_bughunt::{self, Bughunt, EVENT_CAP};
use mtdi::probes::{
    probe_3path, probe_4path, probe_all8_trivial, probe_fork_only, probe_fstat_only,
    probe_lstat_only, probe_noop, probe_open, probe_open_fstat, probe_open_only, probe_recv_only,
    probe_send_only, probe_stat_only,
};

fn call(args: &[u64]) -> MtdiSafeContext {
    let mut x = [0u64; 29];
    x[..args.len()].copy_from_slice(args);
    x[8] = 88;
    let raw = RegisterContext { x, fp: 1, lr: 2, sp: 3, cpsr: 4, hook_id: 5, q: [6; 32] };
    MtdiSafeContext { raw, reads: Vec::new() }
}

fn path_call(path: &str, args: &[u64], len: usize) -> MtdiSafeContext {
    let mut all = vec![0x1000];
    all.extend_from_slice(args);
    let mut ctx = call(&all);
    let mut bytes = path.as_bytes().to_vec();
    bytes.push(0);
    bytes.push(0xFF);
    ctx.reads.push(MemoryRead { address: 0x1000, len, bytes: Some(bytes) });
    ctx
}

#[test]
fn arguments_are_registers() {
    let mut ctx = call(&[10, 11, 12, 13, 14, 15, 16, 17]);
    assert_eq!((ctx.arg(0), ctx.arg(7), ctx.arg(8), ctx.arg(usize::MAX)), (10, 17, 0, 0));
    ctx.set_arg(3, 99);
    ctx.set_arg(8, 99);
    assert_eq!((ctx.arg(2), ctx.arg(3), ctx.raw.x[8]), (12, 99, 88));
    assert_eq!(ctx.return_val(), 10);
    ctx.set_return_val(7);
    assert_eq!((ctx.return_val(), ctx.arg(0), ctx.arg(1)), (7, 7, 11));
}

#[test]
fn strings_are_read_safely() {
    let ctx = path_call("/etc/hosts", &[], 256);
    assert_eq!(ctx.read_arg_str(0, 256).as_deref(), Some("/etc/hosts"));
    assert_eq!(ctx.read_arg_str(0, 255), None); // never read
    assert_eq!(ctx.read_arg_str(1, 256), None); // a null pointer
    assert_eq!(ctx.read_arg_str(9, 256), None);
    let mut refused = call(&[0x2000]);
    refused.reads.push(MemoryRead { address: 0x2000, len: 4, bytes: None });
    refused.reads.push(MemoryRead { address: 0x2000, len: 4, bytes: Some(b"late".to_vec()) });
    assert_eq!(refused.read_arg_str(0, 4), None);
    assert_eq!(text_of_read(None), None);
    assert_eq!(text_of_read(Some(b"")), None);
    assert_eq!(text_of_read(Some(b"\0abc")).as_deref(), Some(""));
    assert_eq!(text_of_read(Some(b"abc")).as_deref(), Some("abc"));
    assert_eq!(text_of_read(Some(&[0xFF, 0])), None);
}

fn registered(register: impl Fn(&mut MtdiRegistry)) -> Vec<String> {
    let mut reg = MtdiRegistry::new();
    reg.hook_symbol("first", Handler::OnExit);
    register(&mut reg);
    assert_eq!(reg.hooks.remove(0), ("first".to_string(), Handler::OnExit));
    reg.hooks.iter().map(|(s, h)| format!("{}:{:?}", s, h)).collect()
}

#[test]
fn probes_ask_for_their_hooks() {
    assert_eq!(registered(probe_3path::register), ["open:OnOpen", "stat:OnStat", "lstat:OnLstat"]);
    assert_eq!(
        registered(probe_4path::register),
        ["open:OnOpen", "stat:OnStat", "lstat:OnLstat", "fstat:OnFstat"]
    );
    let all = [
        "open:OnOpen", "stat:OnStat", "lstat:OnLstat", "fstat:OnFstat", "send:OnSend",
        "recv:OnRecv", "fork:OnFork", "exit:OnExit",
    ];
    assert_eq!(registered(probe_all8_trivial::register), all);
    assert_eq!(registered(probe_bughunt::register), all);
    assert_eq!(registered(probe_fork_only::register), ["fork:OnFork"]);
    assert_eq!(registered(probe_fstat_only::register), ["fstat:OnFstat"]);
    assert_eq!(registered(probe_lstat_only::register), ["lstat:OnLstat"]);
    assert!(registered(probe_noop::register).is_empty());
    assert_eq!(registered(probe_open_fstat::register), ["open:OnOpen", "fstat:OnFstat"]);
    assert_eq!(registered(probe_open_only::register), ["open:OnOpen"]);
    assert_eq!(registered(probe_recv_only::register), ["recv:OnRecv"]);
    assert_eq!(registered(probe_send_only::register), ["send:OnSend"]);
    assert_eq!(registered(probe_stat_only::register), ["stat:OnStat"]);
    let mut reg = MtdiRegistry::new();
    assert_eq!(
        probe_open::register(&mut reg),
        "[mtdis probe] Registering safe hooks from probe_open.rs..."
    );
    assert_eq!(reg.hooks, vec![("open".to_string(), Handler::OnOpen)]);
}

#[test]
fn trivial_handlers_change_nothing() {
    let mut ctx = path_call("/x", &[1, 2, 3], 256);
    let before = format!("{:?}", ctx);
    probe_3path::on_open(&mut ctx);
    probe_3path::on_stat(&mut ctx);
    probe_3path::on_lstat(&mut ctx);
    probe_4path::on_fstat(&mut ctx);
    probe_all8_trivial::on_send(&mut ctx);
    probe_all8_trivial::on_recv(&mut ctx);
    probe_all8_trivial::on_fork(&mut ctx);
    probe_all8_trivial::on_exit(&mut ctx);
    probe_open_only::on_open(&mut ctx);
    probe_stat_only::on_stat(&mut ctx);
    probe_lstat_only::on_lstat(&mut ctx);
    handler_uprobe(&mut ctx.raw);
    handler_ctx(&mut ctx.raw);
    assert_eq!(format!("{:?}", ctx), before);
}

#[test]
fn opens_are_reported() {
    let mut ctx = path_call("/tmp/a", &[0x601], 256);
    assert_eq!(
        probe_open::on_open(&mut ctx).unwrap(),
        "[mtdis probe] Intercepted open() -> path: \"/tmp/a\", flags: 0x601"
    );
    assert_eq!(probe_open::on_open(&mut call(&[0])), None);
}

fn hunt(state: &mut Bughunt, line: Option<String>) -> Option<String> {
    state.line_written();
    line
}

#[test]
fn suspicious_opens_are_flagged() {
    let mut s = Bughunt::new();
    let mut ctx = path_call("/Applications//x", &[0x601, 0], 512);
    let line = probe_bughunt::on_open(&mut s, &mut ctx);
    assert_eq!(
        hunt(&mut s, line).unwrap(),
        "[open] flags=0x601 mode=0o0 \"/Applications//x\" WRITE-TO-BUNDLE O_TRUNC CREATE-MODE-0 DOUBLE-SLASH"
    );
    let line = probe_bughunt::on_open(&mut s, &mut ctx);
    assert!(hunt(&mut s, line).unwrap().ends_with(" DOUBLE-SLASH  <-- REPEAT-OPEN (2nd time)"));
    let line = probe_bughunt::on_open(&mut s, &mut ctx);
    assert!(hunt(&mut s, line).unwrap().ends_with(" DOUBLE-SLASH"));
    let mut ctx = path_call("/Applications/x", &[0x200, 0o644], 512);
    let line = probe_bughunt::on_open(&mut s, &mut ctx);
    assert_eq!(hunt(&mut s, line).unwrap(), "[open] flags=0x200 mode=0o644 \"/Applications/x\"");
    assert_eq!(probe_bughunt::on_open(&mut s, &mut call(&[0])), None);
    assert_eq!(s.events, 4);
}

#[test]
fn lookups_are_logged_ever_more_rarely() {
    let mut s = Bughunt::new();
    let mut logged = Vec::new();
    for i in 1..=120 {
        let mut ctx = path_call("/p", &[], 512);
        let line = if i % 2 == 0 {
            probe_bughunt::on_stat(&mut s, &mut ctx)
        } else {
            probe_bughunt::on_lstat(&mut s, &mut ctx)
        };
        logged.extend(hunt(&mut s, line));
    }
    assert_eq!(
        logged,
        vec![
            "[lstat] \"/p\" (seen 1 times)",
            "[stat] \"/p\" (seen 10 times)",
            "[stat] \"/p\" (seen 100 times)",
        ]
    );
}

#[test]
fn traffic_and_exits_are_logged() {
    let mut s = Bughunt::new();
    let line = probe_bughunt::on_send(&mut s, &mut call(&[2, 7, 0, 0x20]));
    assert_eq!(hunt(&mut s, line).unwrap(), "[send] fd=2 len=0 flags=0x20 STDIO-FD ZERO-LEN");
    let line = probe_bughunt::on_recv(&mut s, &mut call(&[3, 7, 9, 0]));
    assert_eq!(hunt(&mut s, line).unwrap(), "[recv] fd=3 len=9 flags=0x0");
    let line = probe_bughunt::on_fstat(&mut s, &mut call(&[1]));
    assert_eq!(hunt(&mut s, line).unwrap(), "[fstat] fd=1 (stdio fd)");
    assert_eq!(probe_bughunt::on_fstat(&mut s, &mut call(&[3])), None);
    let line = probe_bughunt::on_fork(&mut s, &mut call(&[]));
    assert_eq!(hunt(&mut s, line).unwrap(), "[fork]");
    let line = probe_bughunt::on_exit(&mut s, &mut call(&[3]));
    assert_eq!(hunt(&mut s, line).unwrap(), "[exit] status=3");
}

#[test]
fn logging_does_not_log_itself() {
    let mut s = Bughunt::new();
    assert!(s.log_line("a".to_string()).is_some());
    // the line is being written: the calls that this makes are not logged
    assert_eq!(s.log_line("b".to_string()), None);
    assert_eq!(s.log_line("c".to_string()), None);
    s.line_written();
    assert_eq!(s.log_line("d".to_string()).as_deref(), Some("d"));
    s.line_written();
    s.events = EVENT_CAP - 1;
    assert!(s.log_line("last".to_string()).is_some());
    s.line_written();
    assert_eq!(s.log_line("too many".to_string()), None);
}

#[test]
fn counts_are_kept_by_path() {
    let mut s = Bughunt::new();
    assert_eq!(probe_bughunt::bump_count(&mut s.open_counts, "a"), 1);
    assert_eq!(probe_bughunt::bump_count(&mut s.open_counts, "b"), 1);
    assert_eq!(probe_bughunt::bump_count(&mut s.open_counts, "a"), 2);
    assert_eq!(probe_bughunt::bump_count(&mut s.stat_counts, "a"), 1);
}

#[test]
fn numbers_are_pseudo_random() {
    let mut r = XorShift(1);
    assert_eq!(r.next(), 0x4082_2041);
    assert_eq!(r.0, 0x4082_2041);
    let mut r = XorShift(0x9E37_79B9_7F4A_7C15);
    for _ in 0..1000 {
        assert!(r.below(THRASH_CODE_FNS) * 4 < THRASH_CODE_BYTES);
        assert_ne!(r.0, 0);
    }
    assert_eq!(XorShift(0).next(), 0);
}

#[test]
fn caches_are_thrashed() {
    let mut data = vec![9u8; 2 * PAGE + 1];
    data[0] = 1;
    data[PAGE] = 2;
    data[2 * PAGE] = 4;
    assert_eq!(thrash_data(&mut data), 7);
    assert_eq!((data[0], data[PAGE], data[2 * PAGE], data[1], data[PAGE - 1]), (1, 3, 7, 9, 9));
    let mut code = vec![0u8; 8];
    fill_returns(&mut code);
    assert_eq!(code, [0xC0, 0x03, 0x5F, 0xD6, 0xC0, 0x03, 0x5F, 0xD6]);
}
