//! The hook table, and the steps that install a hook.
use super::pages::{
    locked_message, locked_text, sealed_message, sealed_text, unprotect_page, Access,
    ProtectRequest, KERN_SUCCESS,
};
use super::trampoline::allocator::{TrampolinePage, PAGE_SIZE};
use super::trampoline::builder::{build_trampoline, literal_addresses, stolen_word, trampoline};
use super::trampoline::relocator::{absolute_jump, push_absolute_jump};
use crate::arm64;
use crate::encoding::{le32, le64, push_le32, push_le64, wrap64};
use crate::text::{hex, push_digits, reading, signed_numbers_are_read_back};
use std::collections::HashMap;
use vstd::prelude::*;
use vstd::std_specs::iter::IteratorSpec;

verus! {

broadcast use vstd::std_specs::hash::group_hash_axioms;

/// An installed hook. `handler` is the address of the handler of a full-context hook.
#[derive(Debug, Clone, Copy)]
pub struct HookInfo {
    pub original_addr: usize,
    pub trampoline_addr: usize,
    pub handler: Option<usize>,
}

/// How a hook is reached: by a jump straight to the handler at an address, or through the thunk
/// that saves every register round the handler at an address.
#[derive(Debug, Clone, Copy)]
pub enum HookType {
    FastPath(usize),
    FullContext(usize),
}

/// The installed hooks, by the address of their trampoline.
pub struct HookTable {
    hooks: HashMap<usize, HookInfo>,
}

impl View for HookTable {
    type V = Map<usize, HookInfo>;

    closed spec fn view(&self) -> Map<usize, HookInfo> {
        self.hooks@
    }
}

/// Whether some hook of the table stands at `target`.
pub open spec fn hooked(hooks: Map<usize, HookInfo>, target: usize) -> bool {
    exists|k: usize| #[trigger] hooks.contains_key(k) && hooks[k].original_addr == target
}

impl HookTable {
    /// The hook with the given trampoline.
    pub fn find(&self, trampoline_addr: usize) -> (r: Option<HookInfo>)
        ensures
            r == if self@.contains_key(trampoline_addr) {
                Some(self@[trampoline_addr])
            } else {
                None
            },
    {
        match self.hooks.get(&trampoline_addr) {
            Some(h) => Some(*h),
            None => None,
        }
    }

    /// Whether some hook stands at `target_addr`.
    pub fn is_hooked(&self, target_addr: usize) -> (r: bool)
        ensures
            r == hooked(self@, target_addr),
    {
        let ghost listed = self.hooks.values().remaining();
        proof {
            assert forall|k: usize| #[trigger] self.hooks@.contains_key(k) implies exists|j: int|
                0 <= j < listed.len() && *(#[trigger] listed[j]) == self.hooks@[k] by {
                assert(self.hooks@.values().contains(self.hooks@[k]));
                assert(listed.unref().to_set().contains(self.hooks@[k]));
                let j = choose|j: int|
                    0 <= j < listed.unref().len() && listed.unref()[j] == self.hooks@[k];
                assert(*listed[j] == self.hooks@[k]);
            }
        }
        for h in it: self.hooks.values()
            invariant
                it.seq() == listed,
                listed.unref().to_set() == self.hooks@.values(),
                forall|k: usize| #[trigger]
                    self.hooks@.contains_key(k) ==> exists|j: int|
                        0 <= j < listed.len() && *(#[trigger] listed[j]) == self.hooks@[k],
                forall|j: int|
                    0 <= j < it.index() ==> (#[trigger] it.seq()[j]).original_addr != target_addr,
        {
            if h.original_addr == target_addr {
                proof {
                    assert(it.seq().unref()[it.index() as int] == *h);
                    assert(it.seq().unref().to_set().contains(*h));
                }
                return true;
            }
        }
        false
    }
}

/// Every hook stands under its own trampoline, and no two stand at the same function.
pub open spec fn table_wf(hooks: Map<usize, HookInfo>) -> bool {
    &&& forall|k: usize| #[trigger] hooks.contains_key(k) ==> hooks[k].trampoline_addr == k
    &&& forall|j: usize, k: usize| #[trigger]
        hooks.contains_key(j) && #[trigger] hooks.contains_key(k) && j != k
            ==> hooks[j].original_addr != hooks[k].original_addr
}

/// Whether the trampoline of every hook was handed out from `page`.
pub open spec fn placed(hooks: Map<usize, HookInfo>, page: TrampolinePage) -> bool {
    forall|k: usize| #[trigger] hooks.contains_key(k) ==> page.handed_out(k)
}

/// The hook table at the start: no hook is installed.
pub fn get_hooks() -> (r: HookTable)
    ensures
        r@ == Map::<usize, HookInfo>::empty(),
        table_wf(r@),
        forall|page: TrampolinePage| placed(r@, page),
{
    HookTable { hooks: HashMap::new() }
}

/// The stub of a full-context hook: it loads the hook's id into x16 and goes to the thunk.
pub open spec fn stub(hook_id: u64, thunk: u64) -> Seq<u8> {
    le32(0x58000070) + le32(0x58000091) + le32(0xD61F0220) + le64(hook_id) + le64(thunk) + seq![
        0u8,
        0,
        0,
        0,
    ]
}

/// The size of a stub.
pub const STUB_LEN: usize = 32;

/// The stub of a full-context hook.
pub fn hook_stub(hook_id: u64, thunk_addr: u64) -> (r: Vec<u8>)
    ensures
        r@ == stub(hook_id, thunk_addr),
        r@.len() == STUB_LEN,
{
    let mut code: Vec<u8> = Vec::new();
    push_le32(&mut code, 0x58000070);  // ldr x16, #12
    push_le32(&mut code, 0x58000091);  // ldr x17, #16
    push_le32(&mut code, 0xD61F0220);  // br x17
    push_le64(&mut code, hook_id);
    push_le64(&mut code, thunk_addr);
    push_le32(&mut code, 0);
    assert(0u32 & 0xff == 0 && (0u32 >> 8) & 0xff == 0 && (0u32 >> 16) & 0xff == 0 && (0u32 >> 24)
        & 0xff == 0) by (bit_vector);
    assert(le32(0) =~= seq![0u8, 0, 0, 0]);
    code
}

/// Code that has to be written: the page opened, the bytes copied, the instruction cache
/// dropped for them, and the page closed again.
#[derive(Debug)]
pub struct CodeWrite {
    pub addr: usize,
    pub bytes: Vec<u8>,
}

/// Whether `w` writes `bytes` to `addr`.
pub open spec fn writes_to(w: CodeWrite, addr: int, bytes: Seq<u8>) -> bool {
    w.addr == addr && w.bytes@ == bytes
}

/// What is known of a hook once its code is laid out.
#[derive(Debug, Clone, Copy)]
pub struct Prepared {
    pub trampoline_addr: usize,
    pub jump_target: usize,
    pub handler: Option<usize>,
}

/// Whether a hook was laid out at the start of what `before` had left, and `after` handed it out.
pub open spec fn allotted(p: Prepared, before: TrampolinePage, after: TrampolinePage) -> bool {
    &&& p.trampoline_addr == before.base + before.offset
    &&& after.base == before.base
    &&& before.offset < after.offset
}

/// What the table holds of the hook `p` on `target`.
pub open spec fn entry(target: usize, p: Prepared) -> HookInfo {
    HookInfo {
        original_addr: target,
        trampoline_addr: p.trampoline_addr,
        handler: p.handler,
    }
}

/// How far an installation has come.
#[derive(Debug, Clone, Copy)]
pub enum Stage {
    /// The page of the target has to be probed.
    Probe,
    /// The first bytes of the target have to be read.
    Read,
    /// The literals that the stolen bytes load have to be read.
    Resolve([u8; 16]),
    /// The trampoline has to be written, and the page probed again.
    Reprobe(Prepared),
    /// The page of the target has to be opened.
    Unprotect(Prepared),
    /// The jump has to be written over the target, and the page closed again.
    Patch(Prepared),
    /// The hook is installed.
    Done,
    /// The installation was given up.
    Failed,
}

/// An installation under way.
#[derive(Debug, Clone, Copy)]
pub struct Install {
    pub target_addr: usize,
    pub hook_type: HookType,
    pub thunk_addr: u64,
    pub stage: Stage,
}

/// What laying out the code of a hook came to.
#[derive(Debug)]
pub enum Layout {
    /// The code to write, in order.
    Write(Vec<CodeWrite>),
    /// The trampoline page is used up.
    OutOfTrampolineMemory,
}

/// The refusal of a target that is hooked already.
pub open spec fn duplicate_text(name: Seq<char>, target: usize) -> Seq<char> {
    "Hook '"@ + name + "' already installed at 0x"@ + hex(target as nat)
}

/// How much of the trampoline page a hook with a trampoline of `code` bytes takes.
pub open spec fn room_needed(hook_type: HookType, code: nat) -> nat {
    match hook_type {
        HookType::FastPath(_) => code,
        HookType::FullContext(_) => code + STUB_LEN as nat,
    }
}

impl Install {
    /// The same installation at another stage.
    pub open spec fn moved_to(self, stage: Stage) -> Install {
        Install { stage, ..self }
    }
}

/// Begins to install a hook at `target_addr`. A target takes one hook.
pub fn install_hook(
    hooks: &HookTable,
    name: &str,
    target_addr: usize,
    hook_type: HookType,
    thunk_addr: u64,
) -> (r: Result<Install, String>)
    ensures
        match r {
            Ok(i) => !hooked(hooks@, target_addr) && i == (Install {
                target_addr,
                hook_type,
                thunk_addr,
                stage: Stage::Probe,
            }),
            Err(m) => hooked(hooks@, target_addr) && m@ == duplicate_text(name@, target_addr),
        },
{
    if hooks.is_hooked(target_addr) {
        let mut m = "Hook '".to_owned();
        m.append(name);
        m.append("' already installed at 0x");
        push_digits(&mut m, target_addr as u64, 16);
        return Err(m);
    }
    Ok(Install { target_addr, hook_type, thunk_addr, stage: Stage::Probe })
}

impl Install {
    /// The page was probed. If it takes writes, the first sixteen bytes of the target are needed.
    pub fn probed(&mut self, accepts: bool) -> (r: Result<(), String>)
        requires
            old(self).stage is Probe,
        ensures
            match r {
                Ok(()) => accepts && *final(self) == old(self).moved_to(Stage::Read),
                Err(m) => !accepts && *final(self) == old(self).moved_to(Stage::Failed) && m@
                    == sealed_text(old(self).target_addr),
            },
    {
        if !accepts {
            self.stage = Stage::Failed;
            return Err(sealed_message(self.target_addr));
        }
        self.stage = Stage::Read;
        Ok(())
    }

    /// The first bytes of the target were read. The double words at the addresses returned are
    /// needed next, and the trampoline page where it is not mapped yet.
    pub fn stolen(&mut self, stolen_bytes: [u8; 16]) -> (r: Vec<Option<u64>>)
        requires
            old(self).stage is Read,
            old(self).target_addr + 16 <= usize::MAX,
        ensures
            *final(self) == old(self).moved_to(Stage::Resolve(stolen_bytes)),
            r@.len() == 4,
            forall|i: int|
                0 <= i < 4 ==> #[trigger] r@[i] == if arm64::is_load_literal(
                    stolen_word(stolen_bytes@, i),
                ) {
                    Some(
                        arm64::pc_target(
                            stolen_word(stolen_bytes@, i),
                            wrap64(old(self).target_addr + 4 * i),
                        ),
                    )
                } else {
                    None
                },
    {
        self.stage = Stage::Resolve(stolen_bytes);
        literal_addresses(self.target_addr, &stolen_bytes)
    }

    /// The literals were read: the code of the hook is laid out in `page`, at an address that no
    /// hook of the table has. It has to be written, in order, and the page of the target probed
    /// once more.
    pub fn resolved(
        &mut self,
        hooks: &HookTable,
        page: &mut TrampolinePage,
        literals: [u64; 4],
    ) -> (r: Layout)
        requires
            old(self).stage is Resolve,
            old(self).target_addr + 16 <= usize::MAX,
            old(page).wf(),
            placed(hooks@, *old(page)),
        ensures
            final(page).wf(),
            final(page).base == old(page).base,
            placed(hooks@, *final(page)),
            r is Write ==> (final(self).stage matches Stage::Reprobe(p) && allotted(
                p,
                *old(page),
                *final(page),
            ) && final(page).handed_out(p.trampoline_addr) && !hooks@.contains_key(
                p.trampoline_addr,
            )),
            ({
                let code = trampoline(
                    old(self).target_addr as u64,
                    old(self).stage->Resolve_0@,
                    literals@,
                );
                let at = old(page).base + old(page).offset;
                match r {
                    Layout::Write(writes) => {
                        &&& old(page).offset + room_needed(old(self).hook_type, code.len())
                            <= PAGE_SIZE
                        &&& final(page).offset == old(page).offset + room_needed(
                            old(self).hook_type,
                            code.len(),
                        )
                        &&& match old(self).hook_type {
                            HookType::FastPath(handler) => {
                                &&& writes@.len() == 1
                                &&& *final(self) == old(self).moved_to(
                                    Stage::Reprobe(
                                        Prepared {
                                            trampoline_addr: at as usize,
                                            jump_target: handler,
                                            handler: None,
                                        },
                                    ),
                                )
                            },
                            HookType::FullContext(handler) => {
                                &&& writes@.len() == 2
                                &&& writes_to(
                                    writes@[1],
                                    at + code.len(),
                                    stub(at as u64, old(self).thunk_addr),
                                )
                                &&& *final(self) == old(self).moved_to(
                                    Stage::Reprobe(
                                        Prepared {
                                            trampoline_addr: at as usize,
                                            jump_target: (at + code.len()) as usize,
                                            handler: Some(handler),
                                        },
                                    ),
                                )
                            },
                        }
                        &&& writes_to(writes@[0], at, code)
                    },
                    Layout::OutOfTrampolineMemory => {
                        &&& old(page).offset + room_needed(old(self).hook_type, code.len())
                            > PAGE_SIZE
                        &&& *final(page) == *old(page)
                        &&& *final(self) == old(self).moved_to(Stage::Failed)
                    },
                }
            }),
    {
        if let Stage::Resolve(stolen_bytes) = self.stage {
            let code = build_trampoline(self.target_addr, &stolen_bytes, &literals);
            let mut room: usize = code.len();
            if let HookType::FullContext(_) = self.hook_type {
                room += STUB_LEN;
            }
            if !page.fits(room) {
                self.stage = Stage::Failed;
                return Layout::OutOfTrampolineMemory;
            }
            let trampoline_addr: usize = page.allocate_trampoline(code.len());
            let mut writes: Vec<CodeWrite> = Vec::new();
            writes.push(CodeWrite { addr: trampoline_addr, bytes: code });
            match self.hook_type {
                HookType::FastPath(handler_addr) => {
                    self.stage = Stage::Reprobe(
                        Prepared { trampoline_addr, jump_target: handler_addr, handler: None },
                    );
                },
                HookType::FullContext(func) => {
                    let stub_addr: usize = page.allocate_trampoline(STUB_LEN);
                    writes.push(
                        CodeWrite {
                            addr: stub_addr,
                            bytes: hook_stub(trampoline_addr as u64, self.thunk_addr),
                        },
                    );
                    self.stage = Stage::Reprobe(
                        Prepared { trampoline_addr, jump_target: stub_addr, handler: Some(func) },
                    );
                },
            }
            Layout::Write(writes)
        } else {
            Layout::OutOfTrampolineMemory
        }
    }

    /// The hook's code was written and the page of the target probed once more. If it still takes
    /// writes, its protection has to be changed as returned.
    pub fn reprobed(&mut self, accepts: bool) -> (r: Result<ProtectRequest, String>)
        requires
            old(self).stage is Reprobe,
        ensures
            match r {
                Ok(q) => accepts && *final(self) == old(self).moved_to(
                    Stage::Unprotect(old(self).stage->Reprobe_0),
                ) && q == (ProtectRequest {
                    start: super::pages::page_of(old(self).target_addr) as u64,
                    size: PAGE_SIZE as u64,
                    access: Access::ReadWriteCopy,
                }),
                Err(m) => !accepts && *final(self) == old(self).moved_to(Stage::Failed) && m@
                    == sealed_text(old(self).target_addr),
            },
    {
        if let Stage::Reprobe(prepared) = self.stage {
            if accepts {
                self.stage = Stage::Unprotect(prepared);
                return Ok(unprotect_page(self.target_addr));
            }
        }
        self.stage = Stage::Failed;
        Err(sealed_message(self.target_addr))
    }

    /// The protection was changed, with the kernel's answer `kr`. On success the jump has to be
    /// written over the target, and the page closed again.
    pub fn overwrite_with_jump(&mut self, kr: i32) -> (r: Result<CodeWrite, String>)
        requires
            old(self).stage is Unprotect,
        ensures
            match r {
                Ok(w) => kr == KERN_SUCCESS && *final(self) == old(self).moved_to(
                    Stage::Patch(old(self).stage->Unprotect_0),
                ) && writes_to(
                    w,
                    old(self).target_addr as int,
                    absolute_jump(old(self).stage->Unprotect_0.jump_target as u64),
                ),
                Err(m) => kr != KERN_SUCCESS && *final(self) == old(self).moved_to(Stage::Failed)
                    && m@ == locked_text(old(self).target_addr, kr),
            },
    {
        if let Stage::Unprotect(prepared) = self.stage {
            if kr == KERN_SUCCESS {
                self.stage = Stage::Patch(prepared);
                let mut payload: Vec<u8> = Vec::new();
                push_absolute_jump(&mut payload, prepared.jump_target as u64);
                return Ok(CodeWrite { addr: self.target_addr, bytes: payload });
            }
        }
        self.stage = Stage::Failed;
        Err(locked_message(self.target_addr, kr))
    }

    /// The jump was written: the hook enters the table, in which no other is changed. Returns the
    /// address of its trampoline.
    pub fn patched(&mut self, hooks: &mut HookTable, page: &TrampolinePage) -> (r: usize)
        requires
            old(self).stage is Patch,
            table_wf(old(hooks)@),
            placed(old(hooks)@, *page),
            !hooked(old(hooks)@, old(self).target_addr),
            page.handed_out(old(self).stage->Patch_0.trampoline_addr),
            !old(hooks)@.contains_key(old(self).stage->Patch_0.trampoline_addr),
        ensures
            *final(self) == old(self).moved_to(Stage::Done),
            r == old(self).stage->Patch_0.trampoline_addr,
            final(hooks)@ == old(hooks)@.insert(
                r,
                entry(old(self).target_addr, old(self).stage->Patch_0),
            ),
            forall|k: usize| #[trigger]
                old(hooks)@.contains_key(k) ==> final(hooks)@.contains_key(k) && final(hooks)@[k]
                    == old(hooks)@[k],
            table_wf(final(hooks)@),
            placed(final(hooks)@, *page),
            hooked(final(hooks)@, old(self).target_addr),
    {
        if let Stage::Patch(prepared) = self.stage {
            self.stage = Stage::Done;
            hooks.hooks.insert(
                prepared.trampoline_addr,
                HookInfo {
                    original_addr: self.target_addr,
                    trampoline_addr: prepared.trampoline_addr,
                    handler: prepared.handler,
                },
            );
            proof {
                let at = prepared.trampoline_addr;
                assert(hooks@.contains_key(at) && hooks@[at].original_addr == self.target_addr);
                assert forall|k: usize| hooks@.contains_key(k) && k != at implies hooks@[k].original_addr
                    != self.target_addr by {
                    assert(old(hooks)@.contains_key(k));
                }
            }
            return prepared.trampoline_addr;
        }
        0
    }
}

/// The table, and the page that its trampolines stand in.
pub struct Registry {
    pub hooks: Map<usize, HookInfo>,
    pub page: TrampolinePage,
}

/// An installation that has ended: its target, and what was laid out where it succeeded.
pub struct Attempt {
    pub target: usize,
    pub outcome: Option<Prepared>,
}

/// Whether an installation leaves `after` of `before`. The page is mapped where it was not yet, and
/// what an installation that was given up has laid out stays there.
pub open spec fn attempted(before: Registry, after: Registry, a: Attempt) -> bool {
    &&& after.page.base == before.page.base || (before.page.base == 0 && before.page.offset == 0)
    &&& before.page.offset <= after.page.offset
    &&& match a.outcome {
        Some(p) => {
            &&& !hooked(before.hooks, a.target)
            &&& allotted(
                p,
                (TrampolinePage { base: after.page.base, offset: before.page.offset }),
                after.page,
            )
            &&& after.hooks == before.hooks.insert(p.trampoline_addr, entry(a.target, p))
        },
        None => after.hooks == before.hooks,
    }
}

/// Whether the table holds what attempt `i` has installed.
pub open spec fn listed(hooks: Map<usize, HookInfo>, attempts: Seq<Attempt>, i: int) -> bool {
    attempts[i].outcome matches Some(p) ==> hooks.contains_key(p.trampoline_addr)
        && hooks[p.trampoline_addr] == entry(attempts[i].target, p)
}

/// Whether attempt `i` has installed the hook with the trampoline at `k`.
pub open spec fn installed(attempts: Seq<Attempt>, i: int, k: usize) -> bool {
    attempts[i].outcome matches Some(p) && p.trampoline_addr == k
}

/// From an empty table on, whatever is tried, the table holds exactly the hooks whose installation
/// succeeded, one each, as they were installed: none is ever removed, changed or replaced. Each
/// stands under its own trampoline, and no two stand at the same function.
pub proof fn table_holds_what_was_installed(states: Seq<Registry>, attempts: Seq<Attempt>)
    requires
        states.len() == attempts.len() + 1,
        states[0].hooks == Map::<usize, HookInfo>::empty(),
        forall|i: int|
            0 <= i < attempts.len() ==> attempted(
                #[trigger] states[i],
                states[i + 1],
                attempts[i],
            ),
    ensures
        table_wf(states.last().hooks),
        placed(states.last().hooks, states.last().page),
        forall|i: int|
            0 <= i < attempts.len() ==> #[trigger] listed(states.last().hooks, attempts, i),
        forall|k: usize| #[trigger]
            states.last().hooks.contains_key(k) ==> exists|i: int|
                0 <= i < attempts.len() && #[trigger] installed(attempts, i, k),
        forall|i: int, j: int, k: usize|
            0 <= i < attempts.len() && 0 <= j < attempts.len() && #[trigger] installed(
                attempts,
                i,
                k,
            ) && #[trigger] installed(attempts, j, k) ==> i == j,
    decreases attempts.len(),
{
    if attempts.len() > 0 {
        let n = attempts.len() - 1;
        let fewer = attempts.drop_last();
        let (before, after, a) = (states[n], states[n + 1], attempts[n]);
        assert forall|i: int| 0 <= i < fewer.len() implies attempted(
            #[trigger] states.drop_last()[i],
            states.drop_last()[i + 1],
            fewer[i],
        ) by {
            assert(attempted(states[i], states[i + 1], attempts[i]));
        }
        table_holds_what_was_installed(states.drop_last(), fewer);
        assert(states.drop_last().last() == before);
        assert(attempted(before, after, a));
        lemma_attempt(before, after, a);
        assert forall|i: int| 0 <= i < attempts.len() implies #[trigger] listed(
            after.hooks,
            attempts,
            i,
        ) by {
            if i < n {
                assert(listed(before.hooks, fewer, i));
            }
        }
        assert forall|k: usize| #[trigger] after.hooks.contains_key(k) implies exists|i: int|
            0 <= i < attempts.len() && #[trigger] installed(attempts, i, k) by {
            if before.hooks.contains_key(k) {
                let i = choose|i: int| 0 <= i < fewer.len() && #[trigger] installed(fewer, i, k);
                assert(installed(attempts, i, k));
            } else {
                assert(installed(attempts, n, k));
            }
        }
        assert forall|i: int, j: int, k: usize|
            0 <= i < attempts.len() && 0 <= j < attempts.len() && #[trigger] installed(
                attempts,
                i,
                k,
            ) && #[trigger] installed(attempts, j, k) implies i == j by {
            if i < n {
                assert(installed(fewer, i, k));
                assert(listed(before.hooks, fewer, i));
            }
            if j < n {
                assert(installed(fewer, j, k));
                assert(listed(before.hooks, fewer, j));
            }
        }
    }
}

/// One installation keeps what holds of the table, and changes no hook that is in it.
proof fn lemma_attempt(before: Registry, after: Registry, a: Attempt)
    requires
        table_wf(before.hooks),
        placed(before.hooks, before.page),
        attempted(before, after, a),
    ensures
        table_wf(after.hooks),
        placed(after.hooks, after.page),
        a.outcome matches Some(p) ==> !before.hooks.contains_key(p.trampoline_addr),
        forall|k: usize| #[trigger]
            before.hooks.contains_key(k) ==> after.hooks.contains_key(k) && after.hooks[k]
                == before.hooks[k],
{
    if let Some(p) = a.outcome {
        assert forall|k: usize| before.hooks.contains_key(k) implies k != p.trampoline_addr by {
            assert(before.page.handed_out(k));
        }
        assert forall|k: usize| #[trigger] after.hooks.contains_key(k) implies after.page.handed_out(
            k,
        ) by {
            if k != p.trampoline_addr {
                assert(before.page.handed_out(k));
            }
        }
    } else {
        assert forall|k: usize| #[trigger] after.hooks.contains_key(k) implies after.page.handed_out(
            k,
        ) by {
            assert(before.page.handed_out(k));
        }
    }
}

/// A hook takes the room that its code needs: that of its trampoline, and 32 bytes more for a stub
/// where there is one. The table holds of it the function that it stands at, its trampoline and its
/// handler.
pub proof fn hooks_are_entered_as_laid_out(
    hook_type: HookType,
    code: nat,
    target: usize,
    p: Prepared,
    name: Seq<char>,
)
    ensures
        hook_type is FastPath ==> room_needed(hook_type, code) == code,
        hook_type is FullContext ==> room_needed(hook_type, code) == code + 32,
        entry(target, p).original_addr == target,
        entry(target, p).trampoline_addr == p.trampoline_addr,
        entry(target, p).handler == p.handler,
        exists|a: Seq<char>|
            reading(a, 16) == target && duplicate_text(name, target) == #[trigger] ("Hook '"@ + name
                + "' already installed at 0x"@ + a),
{
    signed_numbers_are_read_back(0, target as nat);
    let a = hex(target as nat);
    assert(duplicate_text(name, target) == "Hook '"@ + name + "' already installed at 0x"@ + a);
}

/// An installation that goes on is the same installation: its target, its handler and the thunk
/// stay.
pub proof fn installations_keep_their_target(i: Install, stage: Stage)
    ensures
        i.moved_to(stage).target_addr == i.target_addr,
        i.moved_to(stage).hook_type == i.hook_type,
        i.moved_to(stage).thunk_addr == i.thunk_addr,
        i.moved_to(stage).stage == stage,
{
}

/// A write is at its address and of its bytes, all of them.
pub proof fn writes_are_whole(w: CodeWrite, addr: int, bytes: Seq<u8>)
    ensures
        writes_to(w, addr, bytes) <==> w.addr == addr && w.bytes@.len() == bytes.len() && forall|
            i: int,
        |
            0 <= i < bytes.len() ==> #[trigger] w.bytes@[i] == bytes[i],
{
    if w.bytes@.len() == bytes.len() && (forall|i: int|
        0 <= i < bytes.len() ==> #[trigger] w.bytes@[i] == bytes[i]) {
        assert(w.bytes@ =~= bytes);
    }
}

} // verus!
