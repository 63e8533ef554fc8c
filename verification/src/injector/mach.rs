//! The steps of an injection: what is asked of the kernel, and what its answers lead to.
use super::bootstrap::{
    bootstrap_stub, diag_bytes, path_payload, stub_bytes, stub_words, thread_state, Symbols,
    ThreadState, ACK_OFF, ALLOCATION_SIZE, ERR_OFF, MARKER_OFF, RTLD_NOW, STUB_OFF, STUB_PAGE, TIMESPEC_OFF,
};
use crate::encoding::{le_words, wrap64};
use crate::hook::pages::KERN_SUCCESS;
use crate::text::{
    bytes_are_read_back, decimal, digits, hex, lossy_text, padded, push_decimal, push_digits,
    push_padded, push_signed, reading, signed_numbers_are_read_back, text_len, until_nul,
    utf8_lossy, views,
};
use vstd::prelude::*;
use vstd::utf8::{decode_utf8, valid_utf8};

verus! {

/// How often the load acknowledgement is read before the injection is given up.
pub const ACK_ATTEMPTS: u32 = 50;

/// How long to wait between two reads of the load acknowledgement.
pub const ACK_PAUSE_MS: u64 = 100;

/// What an injection asks for next.
#[derive(Debug, Clone, Copy, PartialEq, Eq, Structural)]
pub enum Stage {
    AcquireTask,
    Allocate,
    WritePath,
    WriteStub,
    WriteDiag,
    ProtectStub,
    Spawn,
    ReadAck,
    Diagnose,
    Done,
}

/// An injection under way. `remote_address` is the allocation in the target, once there is one.
#[derive(Debug, Clone, Copy)]
pub struct Injection {
    pub pid: i32,
    pub symbols: Symbols,
    pub remote_address: u64,
    pub attempts: u32,
    pub stage: Stage,
}

/// A request to the kernel.
#[derive(Debug)]
pub enum Request {
    /// The task port of a process.
    Task(i32),
    /// Memory in the target.
    Allocate(u64),
    /// Bytes to be written in the target.
    Write(u64, Vec<u8>),
    /// An address and a size to be made readable and executable.
    MakeExecutable(u64, u64),
    /// A thread to be started.
    CreateThread(ThreadState),
    /// A double word to be read in the target.
    ReadDouble(u64),
    /// What is left in the target to tell what went wrong: where the two marker bytes, the eight
    /// bytes of the acknowledgement and the eight bytes of the error text's address stand.
    ReadBack(u64, u64, u64),
    /// Nothing.
    Nothing,
}

/// What follows an answer of the kernel.
#[derive(Debug)]
pub enum Outcome {
    /// Go on, with a line to report where there is one.
    Continue(Option<String>),
    /// Give up, with the lines to report.
    Failed(Vec<String>),
}

/// What follows a read of the load acknowledgement.
#[derive(Debug)]
pub enum Ack {
    /// The dylib is loaded, with the line to report.
    Loaded(String),
    /// Pause, then read again.
    Again,
    /// Pause, then find out what went wrong.
    GaveUp,
}

/// The stage that follows `stage` once the kernel did what was asked. Without a way to make a
/// pthread of a raw thread there is no stub, and nothing to wait for.
pub open spec fn stage_after(stage: Stage, bootstrap: bool) -> Stage {
    match stage {
        Stage::AcquireTask => Stage::Allocate,
        Stage::Allocate => Stage::WritePath,
        Stage::WritePath => if bootstrap {
            Stage::WriteStub
        } else {
            Stage::Spawn
        },
        Stage::WriteStub => Stage::WriteDiag,
        Stage::WriteDiag => Stage::ProtectStub,
        Stage::ProtectStub => Stage::Spawn,
        Stage::Spawn => if bootstrap {
            Stage::ReadAck
        } else {
            Stage::Done
        },
        _ => Stage::Done,
    }
}

/// The lines that report that the kernel refused what `stage` asked for.
pub open spec fn failure_lines(stage: Stage, kr: i32) -> Seq<Seq<char>> {
    let code = decimal(kr as int);
    match stage {
        Stage::AcquireTask => seq![
            "Failed to get task port! Kernel return code: "@ + code,
            "Are you running with sudo? (Or is SIP blocking it?)"@,
        ],
        Stage::Allocate => seq![
            "Failed to allocate remote memory! Kernel return code: "@ + code,
        ],
        Stage::WritePath => seq![
            "Failed to write dylib path into remote memory! KR: "@ + code,
        ],
        Stage::WriteStub => seq![
            "Failed to write bootstrap stub into remote memory! KR: "@ + code,
        ],
        Stage::WriteDiag => seq!["Failed to write diag bytes! KR: "@ + code],
        Stage::ProtectStub => seq!["Failed to make stub page executable! KR: "@ + code],
        _ => seq!["Failed to spawn remote thread! KR: "@ + code],
    }
}

/// The line that reports that the kernel did what `stage` asked for, where there is one.
pub open spec fn success_line(stage: Stage, value: u64) -> Option<Seq<char>> {
    match stage {
        Stage::AcquireTask => Some("Success! Acquired task port: "@ + decimal(value as int)),
        Stage::Allocate => Some(
            "Successfully allocated remote memory at: 0x"@ + hex(value as nat),
        ),
        Stage::WritePath => Some("Successfully wrote dylib path to remote memory."@),
        _ => None,
    }
}

/// Whether the kernel is asked for something that it grants or refuses at `stage`.
pub open spec fn asks_kernel(stage: Stage) -> bool {
    !(stage is ReadAck || stage is Diagnose || stage is Done)
}

/// The line that reports a load.
pub open spec fn loaded_text(pid: i32, ack: u64) -> Seq<char> {
    "[mtdi] Dylib loaded into PID "@ + decimal(pid as int) + " (handle 0x"@ + hex(ack as nat) + ")"@
}

/// The line that announces an injection.
pub fn attach_line(pid: i32) -> (r: String)
    ensures
        r@ == "[mtdi] Attaching to live PID: "@ + decimal(pid as int),
{
    let mut s = "[mtdi] Attaching to live PID: ".to_owned();
    push_signed(&mut s, pid);
    s
}

/// The line that tells of the consent prompt. `exe` is the name of the running program.
pub fn consent_line(exe: &str) -> (r: String)
    ensures
        r@ == "[mtdi] Note: macOS may pop a consent prompt (\""@ + exe@
            + " wants to control this process\") \u{2014} it blocks until a human clicks Allow. This is not a hang."@,
{
    let mut s = "[mtdi] Note: macOS may pop a consent prompt (\"".to_owned();
    s.append(exe);
    s.append(
        " wants to control this process\") \u{2014} it blocks until a human clicks Allow. This is not a hang.",
    );
    s
}

fn numbered(text: &str, kr: i32) -> (r: String)
    ensures
        r@ == text@ + decimal(kr as int),
{
    let mut s = text.to_owned();
    push_signed(&mut s, kr);
    s
}

/// Begins an injection into process `pid`.
pub fn inject_into_pid(pid: i32, symbols: Symbols) -> (r: Injection)
    ensures
        r == (Injection {
            pid,
            symbols,
            remote_address: 0,
            attempts: 0,
            stage: Stage::AcquireTask,
        }),
{
    Injection { pid, symbols, remote_address: 0, attempts: 0, stage: Stage::AcquireTask }
}

impl Injection {
    /// What is asked for at the present stage. `path` is the dylib to load.
    pub fn request(&self, path: &str) -> (r: Request)
        ensures
            match self.stage {
                Stage::AcquireTask => r matches Request::Task(pid) && pid == self.pid,
                Stage::Allocate => r matches Request::Allocate(size) && size == ALLOCATION_SIZE,
                Stage::WritePath => r matches Request::Write(at, bytes) && at
                    == self.remote_address && bytes@ == vstd::utf8::encode_utf8(path@).push(0),
                Stage::WriteStub => r matches Request::Write(at, bytes) && at == wrap64(
                    self.remote_address + STUB_OFF,
                ) && bytes@ == le_words(stub_words(self.remote_address, self.symbols)),
                Stage::WriteDiag => r matches Request::Write(at, bytes) && at == wrap64(
                    self.remote_address + MARKER_OFF,
                ) && bytes@ == Seq::new(
                    24,
                    |i: int|
                        if i == TIMESPEC_OFF - MARKER_OFF {
                            1u8
                        } else {
                            0
                        },
                ),
                Stage::ProtectStub => r matches Request::MakeExecutable(at, size) && at == wrap64(
                    self.remote_address + STUB_OFF,
                ) && size == STUB_PAGE,
                Stage::Spawn => r matches Request::CreateThread(state) && state.lr
                    == self.symbols.pthread_exit && state.sp == wrap64(
                    self.remote_address + ALLOCATION_SIZE - 16,
                ) - wrap64(self.remote_address + ALLOCATION_SIZE - 16) % 16 && (if self.symbols.create
                    != 0 {
                    state.x0 == 0 && state.x1 == 0 && state.pc == wrap64(
                        self.remote_address + STUB_OFF,
                    )
                } else {
                    state.x0 == self.remote_address && state.x1 == RTLD_NOW && state.pc
                        == self.symbols.dlopen
                }),
                Stage::ReadAck => r matches Request::ReadDouble(at) && at == wrap64(
                    self.remote_address + ACK_OFF,
                ),
                Stage::Diagnose => r matches Request::ReadBack(marks, ack, err) && marks == wrap64(
                    self.remote_address + MARKER_OFF,
                ) && ack == wrap64(self.remote_address + ACK_OFF) && err == wrap64(
                    self.remote_address + ERR_OFF,
                ),
                Stage::Done => r is Nothing,
            },
    {
        match self.stage {
            Stage::AcquireTask => Request::Task(self.pid),
            Stage::Allocate => Request::Allocate(ALLOCATION_SIZE),
            Stage::WritePath => Request::Write(self.remote_address, path_payload(path)),
            Stage::WriteStub => {
                let words = bootstrap_stub(self.remote_address, &self.symbols);
                Request::Write(self.remote_address.wrapping_add(STUB_OFF), stub_bytes(&words))
            },
            Stage::WriteDiag => {
                let diag: [u8; 24] = diag_bytes();
                let mut bytes: Vec<u8> = Vec::new();
                bytes.extend_from_slice(&diag);
                assert(bytes@ =~= diag@);
                Request::Write(self.remote_address.wrapping_add(MARKER_OFF), bytes)
            },
            Stage::ProtectStub => Request::MakeExecutable(
                self.remote_address.wrapping_add(STUB_OFF),
                STUB_PAGE,
            ),
            Stage::Spawn => Request::CreateThread(
                thread_state(self.remote_address, &self.symbols),
            ),
            Stage::ReadAck => Request::ReadDouble(self.remote_address.wrapping_add(ACK_OFF)),
            Stage::Diagnose => Request::ReadBack(
                self.remote_address.wrapping_add(MARKER_OFF),
                self.remote_address.wrapping_add(ACK_OFF),
                self.remote_address.wrapping_add(ERR_OFF),
            ),
            Stage::Done => Request::Nothing,
        }
    }

    /// The kernel answered `kr` to the request of the present stage, with the task port or the
    /// address of the allocation in `value` where that was asked for.
    pub fn answered(&mut self, kr: i32, value: u64) -> (r: Outcome)
        requires
            asks_kernel(old(self).stage),
        ensures
            kr != KERN_SUCCESS ==> (r matches Outcome::Failed(lines) && views(lines@)
                == failure_lines(old(self).stage, kr)) && *final(self) == (Injection {
                stage: Stage::Done,
                ..*old(self)
            }),
            kr == KERN_SUCCESS ==> (r matches Outcome::Continue(line) && (match line {
                Some(l) => Some(l@),
                None => None,
            }) == success_line(old(self).stage, value)) && *final(self) == (Injection {
                stage: stage_after(old(self).stage, old(self).symbols.create != 0),
                remote_address: if old(self).stage is Allocate {
                    value
                } else {
                    old(self).remote_address
                },
                ..*old(self)
            }),
    {
        let stage: Stage = self.stage;
        if kr != KERN_SUCCESS {
            let mut lines: Vec<String> = Vec::new();
            match stage {
                Stage::AcquireTask => {
                    lines.push(numbered("Failed to get task port! Kernel return code: ", kr));
                    lines.push("Are you running with sudo? (Or is SIP blocking it?)".to_owned());
                },
                Stage::Allocate => {
                    lines.push(
                        numbered("Failed to allocate remote memory! Kernel return code: ", kr),
                    );
                },
                Stage::WritePath => {
                    lines.push(
                        numbered("Failed to write dylib path into remote memory! KR: ", kr),
                    );
                },
                Stage::WriteStub => {
                    lines.push(
                        numbered("Failed to write bootstrap stub into remote memory! KR: ", kr),
                    );
                },
                Stage::WriteDiag => {
                    lines.push(numbered("Failed to write diag bytes! KR: ", kr));
                },
                Stage::ProtectStub => {
                    lines.push(numbered("Failed to make stub page executable! KR: ", kr));
                },
                _ => {
                    lines.push(numbered("Failed to spawn remote thread! KR: ", kr));
                },
            }
            assert(views(lines@) =~= failure_lines(stage, kr));
            self.stage = Stage::Done;
            return Outcome::Failed(lines);
        }
        let bootstrap = self.symbols.create != 0;
        match stage {
            Stage::AcquireTask => {
                self.stage = Stage::Allocate;
                let mut s = "Success! Acquired task port: ".to_owned();
                push_decimal(&mut s, value);
                Outcome::Continue(Some(s))
            },
            Stage::Allocate => {
                self.stage = Stage::WritePath;
                self.remote_address = value;
                let mut s = "Successfully allocated remote memory at: 0x".to_owned();
                push_digits(&mut s, value, 16);
                Outcome::Continue(Some(s))
            },
            Stage::WritePath => {
                self.stage = if bootstrap {
                    Stage::WriteStub
                } else {
                    Stage::Spawn
                };
                Outcome::Continue(
                    Some("Successfully wrote dylib path to remote memory.".to_owned()),
                )
            },
            Stage::WriteStub => {
                self.stage = Stage::WriteDiag;
                Outcome::Continue(None)
            },
            Stage::WriteDiag => {
                self.stage = Stage::ProtectStub;
                Outcome::Continue(None)
            },
            Stage::ProtectStub => {
                self.stage = Stage::Spawn;
                Outcome::Continue(None)
            },
            _ => {
                self.stage = if bootstrap {
                    Stage::ReadAck
                } else {
                    Stage::Done
                };
                Outcome::Continue(None)
            },
        }
    }

    /// The load acknowledgement was read. What `dlopen` returned is not zero once it is loaded.
    pub fn ack_read(&mut self, ack: u64) -> (r: Ack)
        requires
            old(self).stage is ReadAck,
            old(self).attempts < ACK_ATTEMPTS,
        ensures
            ack != 0 ==> (r matches Ack::Loaded(line) && line@ == loaded_text(old(self).pid, ack))
                && *final(self) == (Injection { stage: Stage::Done, ..*old(self) }),
            ack == 0 && old(self).attempts + 1 < ACK_ATTEMPTS ==> r is Again && *final(self) == (
            Injection { attempts: (old(self).attempts + 1) as u32, ..*old(self) }),
            ack == 0 && old(self).attempts + 1 == ACK_ATTEMPTS ==> r is GaveUp && *final(self) == (
            Injection {
                attempts: ACK_ATTEMPTS,
                stage: Stage::Diagnose,
                ..*old(self)
            }),
    {
        if ack != 0 {
            self.stage = Stage::Done;
            let mut s = "[mtdi] Dylib loaded into PID ".to_owned();
            push_signed(&mut s, self.pid);
            s.append(" (handle 0x");
            push_digits(&mut s, ack, 16);
            s.append(")");
            return Ack::Loaded(s);
        }
        self.attempts = self.attempts + 1;
        if self.attempts == ACK_ATTEMPTS {
            self.stage = Stage::Diagnose;
            return Ack::GaveUp;
        }
        Ack::Again
    }
}

/// How many stages are left, at most, from `stage` on.
pub open spec fn stages_left(stage: Stage) -> nat {
    match stage {
        Stage::AcquireTask => 8,
        Stage::Allocate => 7,
        Stage::WritePath => 6,
        Stage::WriteStub => 5,
        Stage::WriteDiag => 4,
        Stage::ProtectStub => 3,
        Stage::Spawn => 2,
        Stage::ReadAck => 1,
        _ => 0,
    }
}

/// An injection comes to an end: every granted request brings it a stage further, and every
/// refused one is reported. Where there is a stub, the thread is started only once the stub is in
/// place and executable, and the injection does not end before its acknowledgement was waited
/// for; where there is none, none is waited for.
pub proof fn injection_makes_progress(stage: Stage, bootstrap: bool)
    requires
        asks_kernel(stage),
    ensures
        stages_left(stage_after(stage, bootstrap)) < stages_left(stage),
        bootstrap && stage_after(stage, bootstrap) is Spawn ==> stage is ProtectStub,
        bootstrap ==> !(stage_after(stage, bootstrap) is Done),
        forall|kr: i32| #[trigger] failure_lines(stage, kr).len() > 0,
        !bootstrap ==> !(stage_after(stage, bootstrap) is WriteStub) && !(stage_after(
            stage,
            bootstrap,
        ) is ReadAck),
{
}

/// `[b0, b1, ...]`, each byte as two hexadecimal digits.
pub open spec fn byte_list(bytes: Seq<u8>) -> Seq<char> {
    "["@ + byte_items(bytes) + "]"@
}

/// Each byte as two hexadecimal digits, with commas between.
pub open spec fn byte_items(bytes: Seq<u8>) -> Seq<char>
    decreases bytes.len(),
{
    if bytes.len() == 0 {
        Seq::empty()
    } else if bytes.len() == 1 {
        padded(digits(bytes[0] as nat, 16), 2)
    } else {
        byte_items(bytes.drop_last()) + ", "@ + padded(digits(bytes.last() as nat, 16), 2)
    }
}

fn push_byte_items(out: &mut String, bytes: &[u8])
    ensures
        final(out)@ == old(out)@ + byte_items(bytes@),
{
    let mut i: usize = 0;
    assert(bytes@.take(0) =~= Seq::<u8>::empty());
    while i < bytes.len()
        invariant
            i <= bytes@.len(),
            out@ == old(out)@ + byte_items(bytes@.take(i as int)),
        decreases bytes@.len() - i,
    {
        if i > 0 {
            out.append(", ");
        }
        push_padded(out, bytes[i] as u64, 16, 2);
        assert(bytes@.take(i + 1).drop_last() =~= bytes@.take(i as int));
        i += 1;
        assert(out@ =~= old(out)@ + byte_items(bytes@.take(i as int)));
    }
    assert(bytes@.take(bytes@.len() as int) =~= bytes@);
}

/// How much is read at the address that `dlerror` returned.
pub const ERROR_TEXT_MAX: u64 = 256;

/// The read that fetches the error text, given the address that `dlerror` returned: none where
/// that is null.
pub fn error_text_read(error_address: u64) -> (r: Option<(u64, u64)>)
    ensures
        r == (if error_address != 0 {
            Some((error_address, ERROR_TEXT_MAX))
        } else {
            None
        }),
{
    if error_address != 0 {
        Some((error_address, ERROR_TEXT_MAX))
    } else {
        None
    }
}

/// The error text in the bytes that were read at its address.
pub fn error_text(bytes: &[u8]) -> (r: String)
    ensures
        r@ == utf8_lossy(bytes@.take(text_len(bytes@) as int)),
        valid_utf8(bytes@.take(text_len(bytes@) as int)) ==> r@ == decode_utf8(
            bytes@.take(text_len(bytes@) as int),
        ),
{
    let end: usize = until_nul(bytes);
    assert(bytes@.subrange(0, end as int) =~= bytes@.take(end as int));
    lossy_text(vstd::slice::slice_subrange(bytes, 0, end))
}

/// What was read back from a target that did not acknowledge the load.
#[derive(Debug)]
pub struct Diagnosis {
    /// The two marker bytes.
    pub marks: [u8; 2],
    /// The eight bytes of the acknowledgement, and the kernel's answer to the read of them.
    pub ack_bytes: [u8; 8],
    pub ack_kr: i32,
    /// The error text, where it could be read.
    pub error: Option<String>,
}

pub open spec fn bool_text(b: bool) -> Seq<char> {
    if b {
        "true"@
    } else {
        "false"@
    }
}

fn bool_str(b: bool) -> (r: &'static str)
    ensures
        r@ == bool_text(b),
{
    if b {
        "true"
    } else {
        "false"
    }
}

/// The line that warns of a dylib that did not load.
pub open spec fn warning_text(pid: i32, d: Diagnosis) -> Seq<char> {
    "[mtdi] WARNING: dylib did NOT load into PID "@ + decimal(pid as int) + " (markers R="@
        + bool_text(d.marks@[0] == 0x52) + ", D="@ + bool_text(d.marks@[1] == 0x44)
        + "; ack bytes "@ + byte_list(d.ack_bytes@) + " kr="@ + decimal(d.ack_kr as int) + (
    match d.error {
        Some(e) => ": "@ + e@,
        None => Seq::empty(),
    }) + ")"@
}

/// The line that warns of a dylib that did not load.
pub fn warning_line(pid: i32, d: &Diagnosis) -> (r: String)
    ensures
        r@ == warning_text(pid, *d),
{
    let mut s = "[mtdi] WARNING: dylib did NOT load into PID ".to_owned();
    push_signed(&mut s, pid);
    s.append(" (markers R=");
    s.append(bool_str(d.marks[0] == 0x52));
    s.append(", D=");
    s.append(bool_str(d.marks[1] == 0x44));
    s.append("; ack bytes ");
    s.append("[");
    push_byte_items(&mut s, &d.ack_bytes);
    s.append("]");
    s.append(" kr=");
    push_signed(&mut s, d.ack_kr);
    match &d.error {
        Some(e) => {
            s.append(": ");
            s.append(e.as_str());
        },
        None => {},
    }
    s.append(")");
    assert(s@ =~= warning_text(pid, *d));
    s
}

/// The steps of an injection, in their order. The path is written before anything that needs it; the
/// stub, its data and its protection come only where there is one; and only then is it waited for.
pub proof fn injections_go_step_by_step()
    ensures
        forall|b: bool| #[trigger] stage_after(Stage::AcquireTask, b) == Stage::Allocate,
        forall|b: bool| #[trigger] stage_after(Stage::Allocate, b) == Stage::WritePath,
        stage_after(Stage::WritePath, true) == Stage::WriteStub,
        stage_after(Stage::WritePath, false) == Stage::Spawn,
        stage_after(Stage::WriteStub, true) == Stage::WriteDiag,
        stage_after(Stage::WriteDiag, true) == Stage::ProtectStub,
        stage_after(Stage::ProtectStub, true) == Stage::Spawn,
        stage_after(Stage::Spawn, true) == Stage::ReadAck,
        stage_after(Stage::Spawn, false) == Stage::Done,
        asks_kernel(Stage::AcquireTask) && asks_kernel(Stage::Allocate) && asks_kernel(
            Stage::WritePath,
        ) && asks_kernel(Stage::WriteStub) && asks_kernel(Stage::WriteDiag) && asks_kernel(
            Stage::ProtectStub,
        ) && asks_kernel(Stage::Spawn),
        !asks_kernel(Stage::ReadAck) && !asks_kernel(Stage::Diagnose) && !asks_kernel(Stage::Done),
{
}

/// What the kernel refused is told with its code, and what it granted with the port or the address.
pub proof fn reports_tell_the_numbers(stage: Stage, kr: i32, value: u64, pid: i32)
    requires
        asks_kernel(stage),
    ensures
        failure_lines(stage, kr).len() >= 1,
        exists|text: Seq<char>|
            failure_lines(stage, kr)[0] == #[trigger] (text + decimal(kr as int)),
        stage is AcquireTask ==> failure_lines(stage, kr).len() == 2,
        !(stage is AcquireTask) ==> failure_lines(stage, kr).len() == 1,
        success_line(Stage::AcquireTask, value) == Some(
            "Success! Acquired task port: "@ + decimal(value as int),
        ),
        exists|a: Seq<char>|
            reading(a, 16) == value && success_line(Stage::Allocate, value) == Some(
                #[trigger] ("Successfully allocated remote memory at: 0x"@ + a),
            ),
        success_line(Stage::WritePath, value) is Some,
        !(stage is AcquireTask || stage is Allocate || stage is WritePath) ==> success_line(
            stage,
            value,
        ) is None,
        exists|a: Seq<char>|
            reading(a, 16) == value && loaded_text(pid, value) == #[trigger] (
            "[mtdi] Dylib loaded into PID "@ + decimal(pid as int) + " (handle 0x"@ + a + ")"@),
{
    signed_numbers_are_read_back(0, value as nat);
    let a = hex(value as nat);
    assert(success_line(Stage::Allocate, value) == Some(
        "Successfully allocated remote memory at: 0x"@ + a,
    ));
    assert(loaded_text(pid, value) == "[mtdi] Dylib loaded into PID "@ + decimal(pid as int)
        + " (handle 0x"@ + a + ")"@);
    let code = decimal(kr as int);
    match stage {
        Stage::AcquireTask => {
            let text = "Failed to get task port! Kernel return code: "@;
            assert(failure_lines(stage, kr)[0] == text + code);
        },
        Stage::Allocate => {
            let text = "Failed to allocate remote memory! Kernel return code: "@;
            assert(failure_lines(stage, kr)[0] == text + code);
        },
        Stage::WritePath => {
            let text = "Failed to write dylib path into remote memory! KR: "@;
            assert(failure_lines(stage, kr)[0] == text + code);
        },
        Stage::WriteStub => {
            let text = "Failed to write bootstrap stub into remote memory! KR: "@;
            assert(failure_lines(stage, kr)[0] == text + code);
        },
        Stage::WriteDiag => {
            let text = "Failed to write diag bytes! KR: "@;
            assert(failure_lines(stage, kr)[0] == text + code);
        },
        Stage::ProtectStub => {
            let text = "Failed to make stub page executable! KR: "@;
            assert(failure_lines(stage, kr)[0] == text + code);
        },
        _ => {
            let text = "Failed to spawn remote thread! KR: "@;
            assert(failure_lines(stage, kr)[0] == text + code);
        },
    }
}

/// A list of bytes is read back byte by byte: two hexadecimal digits each, in their order, four
/// characters apart.
pub proof fn byte_lists_are_read_back(bytes: Seq<u8>)
    requires
        bytes.len() > 0,
    ensures
        byte_items(bytes).len() == 4 * bytes.len() - 2,
        forall|i: int|
            0 <= i < bytes.len() ==> reading(
                byte_items(bytes).subrange(4 * i, 4 * i + 2),
                16,
            ) == #[trigger] bytes[i],
        byte_list(bytes).len() == 4 * bytes.len(),
        byte_list(bytes).subrange(1, byte_list(bytes).len() - 1) == byte_items(bytes),
        byte_list(bytes)[0] == '[',
        byte_list(bytes).last() == ']',
    decreases bytes.len(),
{
    reveal_strlit("[");
    reveal_strlit("]");
    reveal_strlit(", ");
    let s = byte_items(bytes);
    let last = padded(digits(bytes.last() as nat, 16), 2);
    bytes_are_read_back(bytes.last());
    if bytes.len() == 1 {
        assert(s.subrange(0, 2) =~= last);
    } else {
        let front = bytes.drop_last();
        let f = byte_items(front);
        byte_lists_are_read_back(front);
        assert forall|i: int| 0 <= i < bytes.len() implies reading(
            s.subrange(4 * i, 4 * i + 2),
            16,
        ) == #[trigger] bytes[i] by {
            if i < front.len() {
                assert(s.subrange(4 * i, 4 * i + 2) =~= f.subrange(4 * i, 4 * i + 2));
                assert(front[i] == bytes[i]);
            } else {
                assert(s.subrange(4 * i, 4 * i + 2) =~= last);
            }
        }
    }
    assert(byte_list(bytes).subrange(1, byte_list(bytes).len() - 1) =~= s);
}

/// The warning tells which of the two markers were set, the bytes that were read back, what the
/// kernel answered, and the error's text where there is one.
pub proof fn warnings_tell_what_was_found(pid: i32, d: Diagnosis)
    ensures
        ({
            let mark = |set: bool|
                if set {
                    "true"@
                } else {
                    "false"@
                };
            let told = "[mtdi] WARNING: dylib did NOT load into PID "@ + decimal(pid as int)
                + " (markers R="@ + mark(d.marks@[0] == 'R' as u8) + ", D="@ + mark(
                d.marks@[1] == 'D' as u8,
            ) + "; ack bytes "@ + byte_list(d.ack_bytes@) + " kr="@ + decimal(d.ack_kr as int);
            match d.error {
                Some(e) => warning_text(pid, d) == told + ": "@ + e@ + ")"@,
                None => warning_text(pid, d) == told + ")"@,
            }
        }),
{
    let w = warning_text(pid, d);
    let told = "[mtdi] WARNING: dylib did NOT load into PID "@ + decimal(pid as int)
        + " (markers R="@ + bool_text(d.marks@[0] == 0x52) + ", D="@ + bool_text(
        d.marks@[1] == 0x44,
    ) + "; ack bytes "@ + byte_list(d.ack_bytes@) + " kr="@ + decimal(d.ack_kr as int);
    match d.error {
        Some(e) => {
            assert(w =~= told + ": "@ + e@ + ")"@);
        },
        None => {
            assert(w =~= told + ")"@);
        },
    }
}

/// An acknowledgement is waited for for five seconds.
pub proof fn loads_are_waited_for()
    ensures
        ACK_ATTEMPTS * ACK_PAUSE_MS == 5000,
        ACK_ATTEMPTS == 50,
        ERROR_TEXT_MAX == 256,
{
}

} // verus!
