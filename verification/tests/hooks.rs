use mtdi::hook::manager::{
    get_hooks, hook_stub, install_hook, HookInfo, HookTable, HookType, Install, Layout, Stage,
};
use mtdi::hook::pages::{
    page_start, probe_exit_code, probe_verdict, protect_page, unprotect_page, Access, ProbedPages,
    ProtectRequest, PROBED_MAX,
};
use mtdi::hook::trampoline::allocator::{TrampolinePage, PAGE_SIZE};
use mtdi::hook::trampoline::thunk::{finish_dispatch, hook_dispatcher, RegisterContext};

const TARGET: usize = 0x1_8000_4010;
const THUNK: u64 = 0x1_0000_0800;

fn nops() -> [u8; 16] {
    let mut b = [0u8; 16];
    for i in 0..4 {
        b[i * 4..i * 4 + 4].copy_from_slice(&0xD503201Fu32.to_le_bytes());
    }
    b
}

fn mapped_page() -> TrampolinePage {
    let mut page = TrampolinePage::new();
    assert!(page.needs_page());
    page.adopt_page(0x7_0000_0000);
    page
}

fn install(hooks: &mut HookTable, page: &mut TrampolinePage, target: usize, kind: HookType) -> usize {
    let mut i: Install = install_hook(hooks, "f", target, kind, THUNK).unwrap();
    i.probed(true).unwrap();
    assert_eq!(i.stolen(nops()), vec![None; 4]);
    match i.resolved(hooks, page, [0; 4]) {
        Layout::Write(writes) => assert!(!writes.is_empty()),
        Layout::OutOfTrampolineMemory => panic!("no room"),
    }
    i.reprobed(true).unwrap();
    i.overwrite_with_jump(0).unwrap();
    i.patched(hooks, page)
}

#[test]
fn fast_path_hooks_jump_to_their_handler() {
    let mut hooks = get_hooks();
    let mut page = mapped_page();
    let mut i = install_hook(&hooks, "open", TARGET, HookType::FastPath(0x5000), THUNK).unwrap();
    assert!(matches!(i.stage, Stage::Probe));
    i.probed(true).unwrap();
    i.stolen(nops());
    let writes = match i.resolved(&hooks, &mut page, [0; 4]) {
        Layout::Write(writes) => writes,
        Layout::OutOfTrampolineMemory => panic!("no room"),
    };
    assert_eq!(writes.len(), 1);
    assert_eq!(writes[0].addr, 0x7_0000_0000);
    assert_eq!(writes[0].bytes.len(), 32);
    assert_eq!(&writes[0].bytes[..16], &nops());
    assert_eq!(&writes[0].bytes[24..], &(TARGET as u64 + 16).to_le_bytes());
    let request = i.reprobed(true).unwrap();
    assert_eq!(
        request,
        ProtectRequest { start: 0x1_8000_4000, size: 16384, access: Access::ReadWriteCopy }
    );
    let jump = i.overwrite_with_jump(0).unwrap();
    assert_eq!(jump.addr, TARGET);
    assert_eq!(&jump.bytes[..8], &[0x50, 0, 0, 0x58, 0, 0x02, 0x1F, 0xD6]);
    assert_eq!(&jump.bytes[8..], &0x5000u64.to_le_bytes());
    let at = i.patched(&mut hooks, &page);
    assert_eq!(at, 0x7_0000_0000);
    assert!(matches!(i.stage, Stage::Done));
    let info: HookInfo = hooks.find(at).unwrap();
    assert_eq!((info.original_addr, info.trampoline_addr, info.handler), (TARGET, at, None));
    assert!(hooks.is_hooked(TARGET));
    assert!(!hooks.is_hooked(TARGET + 4));
}

#[test]
fn full_context_hooks_go_through_a_stub() {
    let mut hooks = get_hooks();
    let mut page = mapped_page();
    let mut i = install_hook(&hooks, "f", TARGET, HookType::FullContext(0x6000), THUNK).unwrap();
    i.probed(true).unwrap();
    i.stolen(nops());
    let writes = match i.resolved(&hooks, &mut page, [0; 4]) {
        Layout::Write(writes) => writes,
        Layout::OutOfTrampolineMemory => panic!("no room"),
    };
    assert_eq!(writes.len(), 2);
    assert_eq!(writes[1].addr, 0x7_0000_0020);
    assert_eq!(writes[1].bytes, hook_stub(0x7_0000_0000, THUNK));
    assert_eq!(page.offset, 64);
    i.reprobed(true).unwrap();
    let jump = i.overwrite_with_jump(0).unwrap();
    assert_eq!(&jump.bytes[8..], &0x7_0000_0020u64.to_le_bytes());
    let at = i.patched(&mut hooks, &page);
    assert_eq!(hooks.find(at).unwrap().handler, Some(0x6000));
}

#[test]
fn stubs_load_the_id_and_the_thunk() {
    let stub = hook_stub(0x1111, 0x2222);
    assert_eq!(stub.len(), 32);
    assert_eq!(&stub[..4], &0x58000070u32.to_le_bytes());
    assert_eq!(&stub[4..8], &0x58000091u32.to_le_bytes());
    assert_eq!(&stub[8..12], &0xD61F0220u32.to_le_bytes());
    assert_eq!(&stub[12..20], &0x1111u64.to_le_bytes());
    assert_eq!(&stub[20..28], &0x2222u64.to_le_bytes());
    assert_eq!(&stub[28..], &[0; 4]);
}

#[test]
fn a_target_takes_one_hook() {
    let mut hooks = get_hooks();
    let mut page = mapped_page();
    install(&mut hooks, &mut page, TARGET, HookType::FastPath(1));
    let e = install_hook(&hooks, "open", TARGET, HookType::FastPath(2), THUNK).unwrap_err();
    assert_eq!(e, "Hook 'open' already installed at 0x180004010");
    assert!(install_hook(&hooks, "open", TARGET + 64, HookType::FastPath(2), THUNK).is_ok());
}

#[test]
fn hooks_are_never_replaced() {
    let mut hooks = get_hooks();
    let mut page = mapped_page();
    let mut at = Vec::new();
    for n in 0..20 {
        let kind = if n % 2 == 0 { HookType::FastPath(1) } else { HookType::FullContext(n) };
        at.push(install(&mut hooks, &mut page, TARGET + 64 * n, kind));
        let mut i = install_hook(&hooks, "f", 0x9000 + n, HookType::FastPath(1), THUNK).unwrap();
        i.probed(true).unwrap();
        i.stolen(nops());
        i.resolved(&hooks, &mut page, [0; 4]);
        i.reprobed(false).unwrap_err();
    }
    for (n, trampoline) in at.iter().enumerate() {
        let info = hooks.find(*trampoline).unwrap();
        assert_eq!((info.original_addr, info.trampoline_addr), (TARGET + 64 * n, *trampoline));
        assert!(!hooks.is_hooked(0x9000 + n));
    }
}

#[test]
fn sealed_pages_are_refused() {
    let hooks = get_hooks();
    let mut page = mapped_page();
    let mut i = install_hook(&hooks, "f", TARGET, HookType::FastPath(1), THUNK).unwrap();
    let text = "page at 0x180004010 is PPL-protected (write probe faulted)";
    assert_eq!(i.probed(false).unwrap_err(), text);
    assert!(matches!(i.stage, Stage::Failed));
    let mut i = install_hook(&hooks, "f", TARGET, HookType::FastPath(1), THUNK).unwrap();
    i.probed(true).unwrap();
    i.stolen(nops());
    i.resolved(&hooks, &mut page, [0; 4]);
    assert_eq!(i.reprobed(false).unwrap_err(), text);
}

#[test]
fn locked_pages_are_refused() {
    let hooks = get_hooks();
    let mut page = mapped_page();
    let mut i = install_hook(&hooks, "f", TARGET, HookType::FastPath(1), THUNK).unwrap();
    i.probed(true).unwrap();
    i.stolen(nops());
    i.resolved(&hooks, &mut page, [0; 4]);
    i.reprobed(true).unwrap();
    assert_eq!(
        i.overwrite_with_jump(-2).unwrap_err(),
        "cannot unprotect page at 0x180004010 (kr=-2)"
    );
}

#[test]
fn trampoline_memory_runs_out() {
    let hooks = get_hooks();
    let mut page = mapped_page();
    page.allocate_trampoline(PAGE_SIZE - 40);
    assert!(page.fits(40));
    assert!(!page.fits(41));
    let mut i = install_hook(&hooks, "f", TARGET, HookType::FullContext(1), THUNK).unwrap();
    i.probed(true).unwrap();
    i.stolen(nops());
    assert!(matches!(i.resolved(&hooks, &mut page, [0; 4]), Layout::OutOfTrampolineMemory));
    assert_eq!(page.offset, PAGE_SIZE - 40);
    let mut i = install_hook(&hooks, "f", TARGET, HookType::FastPath(1), THUNK).unwrap();
    i.probed(true).unwrap();
    i.stolen(nops());
    assert!(matches!(i.resolved(&hooks, &mut page, [0; 4]), Layout::Write(_)));
}

#[test]
fn trampolines_do_not_overlap() {
    let mut page = mapped_page();
    let a = page.allocate_trampoline(48);
    let b = page.allocate_trampoline(32);
    let c = page.allocate_trampoline(16);
    assert_eq!((a, b, c), (0x7_0000_0000, 0x7_0000_0030, 0x7_0000_0050));
    page.adopt_page(0x9_0000_0000);
    assert_eq!(page.base, 0x7_0000_0000);
}

#[test]
fn pages_are_sixteen_kilobytes() {
    assert_eq!(page_start(0x1_8000_7FFF), 0x1_8000_4000);
    assert_eq!(page_start(0x1_8000_4000), 0x1_8000_4000);
    assert_eq!(unprotect_page(0x7FFF).start, 0x4000);
    assert_eq!(
        protect_page(0x7FFF),
        ProtectRequest { start: 0x4000, size: 16384, access: Access::ReadExecute }
    );
}

#[test]
fn probes_answer_through_wait_statuses() {
    assert_eq!(probe_exit_code(0), 0);
    assert_eq!(probe_exit_code(5), 2);
    assert!(probe_verdict(0));
    assert!(!probe_verdict(2 << 8)); // exited with 2
    assert!(!probe_verdict(10)); // killed by a bus error
    assert!(!probe_verdict(0x100));
}

#[test]
fn pages_are_probed_once() {
    let mut pages = ProbedPages::new();
    assert_eq!(pages.known(TARGET), None);
    assert!(pages.page_accepts_writes(TARGET, true));
    assert_eq!(pages.known(TARGET + 100), Some(true));
    assert!(pages.page_accepts_writes(TARGET + 8, false));
    assert!(!pages.page_accepts_writes(TARGET + PAGE_SIZE, false));
    assert!(!pages.page_accepts_writes(TARGET + PAGE_SIZE, true));
    assert_eq!(pages.known(TARGET), Some(true));
    // the page at address zero is a page like any other
    assert!(!pages.page_accepts_writes(0, false));
    assert_eq!(pages.known(0), Some(false));
    assert!(!pages.page_accepts_writes(0, true));
}

#[test]
fn only_so_many_pages_are_remembered() {
    let mut pages = ProbedPages::new();
    for i in 1..=PROBED_MAX {
        pages.page_accepts_writes(i * PAGE_SIZE, true);
    }
    assert!(!pages.page_accepts_writes(1000 * PAGE_SIZE, false));
    assert_eq!(pages.known(1000 * PAGE_SIZE), None);
    assert_eq!(pages.known(7 * PAGE_SIZE), Some(true));
}

fn context(hook_id: u64) -> RegisterContext {
    let mut x = [0u64; 29];
    for (i, r) in x.iter_mut().enumerate() {
        *r = i as u64;
    }
    RegisterContext { x, fp: 29, lr: 30, sp: 31, cpsr: 1, hook_id, q: [5; 32] }
}

#[test]
fn the_dispatcher_finds_the_hook() {
    let mut hooks = get_hooks();
    let mut page = mapped_page();
    let at = install(&mut hooks, &mut page, TARGET, HookType::FullContext(0x6000));
    let mut ctx = context(at as u64);
    let info = hook_dispatcher(&hooks, &ctx).unwrap();
    assert_eq!(info.handler, Some(0x6000));
    finish_dispatch(&info, &mut ctx);
    assert_eq!(ctx.x[16], at as u64);
    assert_eq!((ctx.x[15], ctx.x[17], ctx.fp, ctx.lr, ctx.q[3]), (15, 17, 29, 30, 5));
    assert!(hook_dispatcher(&hooks, &context(12345)).is_none());
}
