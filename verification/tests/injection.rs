use mtdi::injector::bootstrap::{
    bootstrap_stub, diag_bytes, mov_addr, path_payload, stub_bytes, thread_state, Symbols,
};
use mtdi::injector::mach::{
    attach_line, consent_line, error_text, error_text_read, inject_into_pid, warning_line, Ack,
    Diagnosis, Injection, Outcome, Request, Stage,
};

const SYMBOLS: Symbols =
    Symbols { create: 0x1111, dlopen: 0x2222, dlerror: 0x3333, pthread_exit: 0x4444 };
const REMOTE: u64 = 0x1_0200_0000;

#[test]
fn addresses_are_moved_in_four_parts() {
    assert_eq!(
        mov_addr(3, 0x1234_5678_9ABC_DEF0),
        [
            0xD2800000 | (0xDEF0 << 5) | 3,
            0xF2A00000 | (0x9ABC << 5) | 3,
            0xF2C00000 | (0x5678 << 5) | 3,
            0xF2E00000 | (0x1234 << 5) | 3,
        ]
    );
    assert_eq!(mov_addr(0, 0), [0xD2800000, 0xF2A00000, 0xF2C00000, 0xF2E00000]);
}

/// What the moves leave in the registers up to the first other instruction.
fn moved(words: &[u32]) -> [u64; 32] {
    let mut x = [0xFFu64; 32];
    for w in words {
        let r = (w & 31) as usize;
        let imm = ((w >> 5) & 0xFFFF) as u64;
        let shift = 16 * ((w >> 21) & 3);
        if w & 0xFF80_0000 == 0xD280_0000 {
            x[r] = imm << shift;
        } else if w & 0xFF80_0000 == 0xF280_0000 {
            x[r] = (x[r] & !(0xFFFFu64 << shift)) | (imm << shift);
        } else {
            break;
        }
    }
    x
}

#[test]
fn the_stub_passes_its_arguments() {
    let stub = bootstrap_stub(REMOTE, &SYMBOLS);
    let x = moved(&stub);
    assert_eq!(x[0], REMOTE + 0x8000);
    assert_eq!(x[1], 0);
    assert_eq!(x[2], REMOTE + 0x4000 + 104);
    assert_eq!(x[3], REMOTE);
    assert_eq!(x[16], 0x1111);
    assert_eq!(stub[17], 0xD63F0200);
}

#[test]
fn the_stub_is_laid_out_as_told() {
    let stub = bootstrap_stub(REMOTE, &SYMBOLS);
    assert_eq!(stub.len(), 26 + 35 + 8);
    // park, and the way back to its start
    assert_eq!(moved(&stub[18..])[0], REMOTE + 0x110);
    assert_eq!(&stub[22..26], &[0xD2800001, 0xD2800450, 0xD4000001, 0x17FFFFF9]);
    // the routine of the loading thread
    assert_eq!(stub[26], 0xAA0003F3);
    assert_eq!(moved(&stub[27..])[1], REMOTE + 0x100);
    assert_eq!(&stub[31..35], &[0xD2800A40, 0x39000020, 0xAA1303E0, 0xD2800041]);
    assert_eq!(moved(&stub[35..])[16], 0x2222);
    assert_eq!(moved(&stub[40..])[1], REMOTE + 0x160);
    assert_eq!(moved(&stub[45..])[16], 0x3333);
    assert_eq!(moved(&stub[50..])[1], REMOTE + 0x170);
    assert_eq!(moved(&stub[55..])[1], REMOTE + 0x101);
    assert_eq!(&stub[59..62], &[0xD2800880, 0x39000020, stub[18]]);
}

#[test]
fn the_stub_is_written_in_little_endian() {
    assert_eq!(stub_bytes(&vec![0x11223344, 0xAABBCCDD]), vec![0x44, 0x33, 0x22, 0x11, 0xDD, 0xCC, 0xBB, 0xAA]);
    assert_eq!(path_payload("/a"), vec![b'/', b'a', 0]);
    let diag = diag_bytes();
    assert_eq!(diag[16], 1);
    assert_eq!(diag.iter().map(|b| *b as u32).sum::<u32>(), 1);
}

#[test]
fn threads_start_in_the_stub_or_in_dlopen() {
    let s = thread_state(REMOTE, &SYMBOLS);
    assert_eq!((s.x0, s.x1, s.pc, s.lr), (0, 0, REMOTE + 0x4000, 0x4444));
    assert_eq!(s.sp, REMOTE + 0x100000 - 16);
    let s = thread_state(REMOTE + 5, &Symbols { create: 0, ..SYMBOLS });
    assert_eq!((s.x0, s.x1, s.pc, s.lr), (REMOTE + 5, 2, 0x2222, 0x4444));
    assert_eq!(s.sp % 16, 0);
}

fn line(outcome: Outcome) -> Option<String> {
    match outcome {
        Outcome::Continue(line) => line,
        Outcome::Failed(lines) => panic!("{:?}", lines),
    }
}

fn started() -> Injection {
    let mut i = inject_into_pid(42, SYMBOLS);
    assert!(matches!(i.request("/d"), Request::Task(42)));
    assert_eq!(line(i.answered(0, 515)).unwrap(), "Success! Acquired task port: 515");
    assert!(matches!(i.request("/d"), Request::Allocate(0x100000)));
    assert_eq!(
        line(i.answered(0, REMOTE)).unwrap(),
        "Successfully allocated remote memory at: 0x102000000"
    );
    match i.request("/d") {
        Request::Write(at, bytes) => assert_eq!((at, bytes), (REMOTE, b"/d\0".to_vec())),
        other => panic!("{:?}", other),
    }
    assert_eq!(
        line(i.answered(0, 0)).unwrap(),
        "Successfully wrote dylib path to remote memory."
    );
    match i.request("/d") {
        Request::Write(at, bytes) => {
            assert_eq!(at, REMOTE + 0x4000);
            assert_eq!(bytes, stub_bytes(&bootstrap_stub(REMOTE, &SYMBOLS)));
        }
        other => panic!("{:?}", other),
    }
    assert_eq!(line(i.answered(0, 0)), None);
    match i.request("/d") {
        Request::Write(at, bytes) => assert_eq!((at, bytes), (REMOTE + 0x100, diag_bytes().to_vec())),
        other => panic!("{:?}", other),
    }
    assert_eq!(line(i.answered(0, 0)), None);
    assert!(matches!(i.request("/d"), Request::MakeExecutable(at, 0x4000) if at == REMOTE + 0x4000));
    assert_eq!(line(i.answered(0, 0)), None);
    match i.request("/d") {
        Request::CreateThread(state) => assert_eq!(state, thread_state(REMOTE, &SYMBOLS)),
        other => panic!("{:?}", other),
    }
    assert_eq!(line(i.answered(0, 0)), None);
    assert!(matches!(i.request("/d"), Request::ReadDouble(at) if at == REMOTE + 0x160));
    i
}

#[test]
fn injections_end_with_an_acknowledgement() {
    let mut i = started();
    assert!(matches!(i.ack_read(0), Ack::Again));
    match i.ack_read(0xBEEF) {
        Ack::Loaded(text) => assert_eq!(text, "[mtdi] Dylib loaded into PID 42 (handle 0xbeef)"),
        other => panic!("{:?}", other),
    }
    assert_eq!(i.stage, Stage::Done);
    assert!(matches!(i.request("/d"), Request::Nothing));
}

#[test]
fn injections_give_up_after_a_while() {
    let mut i = started();
    for _ in 0..49 {
        assert!(matches!(i.ack_read(0), Ack::Again));
    }
    assert!(matches!(i.ack_read(0), Ack::GaveUp));
    assert!(matches!(
        i.request("/d"),
        Request::ReadBack(a, b, c) if (a, b, c) == (REMOTE + 0x100, REMOTE + 0x160, REMOTE + 0x170)
    ));
}

#[test]
fn without_a_pthread_there_is_no_stub() {
    let mut i = inject_into_pid(1, Symbols { create: 0, ..SYMBOLS });
    i.answered(0, 1);
    i.answered(0, REMOTE);
    i.answered(0, 0);
    assert_eq!(i.stage, Stage::Spawn);
    i.answered(0, 0);
    assert_eq!(i.stage, Stage::Done);
}

#[test]
fn every_refusal_is_reported() {
    let reports = [
        vec!["Failed to get task port! Kernel return code: 5", "Are you running with sudo? (Or is SIP blocking it?)"],
        vec!["Failed to allocate remote memory! Kernel return code: 5"],
        vec!["Failed to write dylib path into remote memory! KR: 5"],
        vec!["Failed to write bootstrap stub into remote memory! KR: 5"],
        vec!["Failed to write diag bytes! KR: 5"],
        vec!["Failed to make stub page executable! KR: 5"],
        vec!["Failed to spawn remote thread! KR: 5"],
    ];
    for (n, expected) in reports.iter().enumerate() {
        let mut i = inject_into_pid(1, SYMBOLS);
        for _ in 0..n {
            i.answered(0, REMOTE);
        }
        match i.answered(5, 0) {
            Outcome::Failed(lines) => assert_eq!(&lines, expected),
            other => panic!("{:?}", other),
        }
        assert_eq!(i.stage, Stage::Done);
    }
}

#[test]
fn attaching_is_announced() {
    assert_eq!(attach_line(-3), "[mtdi] Attaching to live PID: -3");
    assert_eq!(
        consent_line("mtdi"),
        "[mtdi] Note: macOS may pop a consent prompt (\"mtdi wants to control this process\") \u{2014} it blocks until a human clicks Allow. This is not a hang."
    );
}

#[test]
fn failed_loads_are_explained() {
    assert_eq!(error_text_read(0), None);
    assert_eq!(error_text_read(9), Some((9, 256)));
    assert_eq!(error_text(b"no such file\0\0garbage"), "no such file");
    assert_eq!(error_text(b"\0"), "");
    assert_eq!(error_text(&[b'a', 0xC3]), "a\u{FFFD}");
    let d = Diagnosis { marks: *b"RX", ack_bytes: [0, 0, 0, 0, 0, 0, 0, 0xAB], ack_kr: 0, error: Some("why".to_string()) };
    assert_eq!(
        warning_line(42, &d),
        "[mtdi] WARNING: dylib did NOT load into PID 42 (markers R=true, D=false; ack bytes [00, 00, 00, 00, 00, 00, 00, ab] kr=0: why)"
    );
    let d = Diagnosis { marks: [0; 2], ack_bytes: [1; 8], ack_kr: -1, error: None };
    assert_eq!(
        warning_line(1, &d),
        "[mtdi] WARNING: dylib did NOT load into PID 1 (markers R=false, D=false; ack bytes [01, 01, 01, 01, 01, 01, 01, 01] kr=-1)"
    );
}

/// Runs the stub from word `at` to the next call or the first system call: the registers, and
/// what was stored.
fn run_stub(stub: &[u32], mut at: usize, x: &mut [u64; 32]) -> (usize, Vec<(u64, Vec<u8>)>) {
    let mut stores = Vec::new();
    loop {
        let w = stub[at];
        let (d, n) = ((w & 31) as usize, ((w >> 5) & 31) as usize);
        let imm = ((w >> 5) & 0xFFFF) as u64;
        let shift = 16 * ((w >> 21) & 3);
        if w == 0xD63F0200 || w == 0xD4000001 {
            return (at, stores);
        } else if w & 0xFF80_0000 == 0xD280_0000 {
            x[d] = imm << shift;
        } else if w & 0xFF80_0000 == 0xF280_0000 {
            x[d] = (x[d] & !(0xFFFFu64 << shift)) | (imm << shift);
        } else if w & 0xFFE0_FFE0 == 0xAA00_03E0 {
            x[d] = x[((w >> 16) & 31) as usize];
        } else if w & 0xFFFF_FC00 == 0x3900_0000 {
            stores.push((x[n], vec![x[d] as u8]));
        } else if w & 0xFFFF_FC00 == 0xF900_0000 {
            stores.push((x[n], x[d].to_le_bytes().to_vec()));
        } else {
            panic!("unknown instruction {:#x}", w);
        }
        at += 1;
    }
}

#[test]
fn the_loading_thread_reports_what_it_does() {
    let stub = bootstrap_stub(REMOTE, &SYMBOLS);
    let mut x = [0u64; 32];
    x[0] = REMOTE; // the path
    let (at, stores) = run_stub(&stub, 26, &mut x);
    assert_eq!(at, 26 + 13);
    assert_eq!((x[0], x[1], x[16]), (REMOTE, 2, 0x2222));
    assert_eq!(stores, vec![(REMOTE + 0x100, vec![b'R'])]);
    x[0] = 0xABCD; // what dlopen returned
    let (at, stores) = run_stub(&stub, at + 1, &mut x);
    assert_eq!(at, 26 + 23);
    assert_eq!(x[16], 0x3333);
    assert_eq!(stores, vec![(REMOTE + 0x160, 0xABCDu64.to_le_bytes().to_vec())]);
    x[0] = 0x7777; // what dlerror returned
    let (at, stores) = run_stub(&stub, at + 1, &mut x);
    assert_eq!(stub[at], 0xD4000001);
    assert_eq!(
        stores,
        vec![(REMOTE + 0x170, 0x7777u64.to_le_bytes().to_vec()), (REMOTE + 0x101, vec![b'D'])]
    );
    assert_eq!((x[0], x[16]), (REMOTE + 0x110, 34));
}
