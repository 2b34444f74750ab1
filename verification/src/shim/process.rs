//! Signals to the workload, and how it ended.

use vstd::prelude::*;

verus! {

/// A process number as the system calls take it: the same 32 bits, read as signed.
pub open spec fn raw(pid: u32) -> int {
    if pid < 0x8000_0000 {
        pid as int
    } else {
        pid - 0x1_0000_0000
    }
}

/// A process number as the system calls take it.
pub fn raw_pid(pid: u32) -> (res: i32)
    ensures
        res == raw(pid),
{
    if pid < 0x8000_0000 {
        pid as i32
    } else {
        (pid as i64 - 0x1_0000_0000) as i32
    }
}

/// Whether a number can be that of a signal that has a name.
pub open spec fn in_range(signal: int) -> bool {
    1 <= signal <= 31
}

/// Whether a number is that of a signal with a name on every machine that runs Linux.
pub open spec fn named(signal: int) -> bool {
    in_range(signal) && signal != 7
}

/// `nix::sys::signal::Signal::try_from`, on Linux: a signal keeps its number, and a
/// number that is no signal with a name is refused as invalid. Those from 1 to 31
/// have one; only of 7 it depends on the machine, for MIPS and SPARC give that
/// number to a signal that `nix` does not know there.
#[verifier::external_body]
fn known_signal(signal: i32) -> (res: Result<i32, String>)
    ensures
        res matches Ok(s) ==> s == signal && in_range(signal as int),
        res matches Err(e) ==> e@ == "EINVAL: Invalid argument"@,
        named(signal as int) ==> res is Ok,
{
    match nix::sys::signal::Signal::try_from(signal) {
        Ok(s) => Ok(s as i32),
        Err(e) => Err(e.to_string()),
    }
}

/// What is handed to `kill`.
#[derive(Clone, Copy, Debug, PartialEq, Eq, Structural)]
pub struct SignalOrder {
    pub pid: i32,
    pub signal: i32,
}

/// What is handed to `kill` to send a signal to a process, once it is known whether
/// the number is a signal.
pub fn order_signal(pid: u32, known: Result<i32, String>) -> (res: Result<SignalOrder, String>)
    ensures
        match known {
            Ok(signal) => res matches Ok(order) && order == (SignalOrder {
                pid: raw(pid) as i32,
                signal,
            }),
            Err(reason) => res matches Err(e) && e@ == reason@,
        },
{
    match known {
        Ok(signal) => Ok(SignalOrder { pid: raw_pid(pid), signal }),
        Err(reason) => Err(reason),
    }
}

/// What is handed to `kill` to send a signal to a process. Only Linux can.
pub fn send_signal(on_linux: bool, pid: u32, signal: i32) -> (res: Result<SignalOrder, String>)
    ensures
        match res {
            Ok(order) => on_linux && in_range(signal as int) && order == (SignalOrder {
                pid: raw(pid) as i32,
                signal,
            }),
            Err(e) => if on_linux {
                !named(signal as int) && e@ == "EINVAL: Invalid argument"@
            } else {
                e@ == "signal not supported on this platform"@
            },
        },
{
    if !on_linux {
        return Err("signal not supported on this platform".to_owned());
    }
    order_signal(pid, known_signal(signal))
}

/// What the system says of a child that is waited for.
#[derive(Clone, Copy, Debug, PartialEq, Eq, Structural)]
pub enum WaitOutcome {
    /// It exited with this code.
    Exited(i32),
    /// A signal of this number ended it.
    Signaled(u8),
    /// It has not ended, or nothing is known of it.
    Other,
}

/// The code that a workload ended with, if it has ended: its own, or 128 and the
/// signal that ended it.
pub open spec fn code_of(outcome: WaitOutcome) -> Option<int> {
    match outcome {
        WaitOutcome::Exited(code) => Some(code as int),
        WaitOutcome::Signaled(signal) => Some(128 + signal),
        WaitOutcome::Other => None,
    }
}

/// The code that a workload ended with, if it has ended.
pub fn try_wait(outcome: WaitOutcome) -> (res: Option<i32>)
    ensures
        match res {
            Some(code) => code_of(outcome) == Some(code as int),
            None => code_of(outcome) is None,
        },
{
    match outcome {
        WaitOutcome::Exited(code) => Some(code),
        WaitOutcome::Signaled(signal) => Some(128 + signal as i32),
        WaitOutcome::Other => None,
    }
}

/// The number that the system calls take is the only one of 32 signed bits that differs from the
/// process number by whole turns of 32 bits; so no two processes are taken for one.
pub proof fn law_process_numbers_are_kept_apart(pid: u32, other: u32)
    ensures
        i32::MIN <= raw(pid) <= i32::MAX,
        raw(pid) == pid || raw(pid) + 0x1_0000_0000 == pid,
        pid <= i32::MAX ==> raw(pid) == pid,
        raw(pid) == raw(other) ==> pid == other,
{
}

/// A workload that exited has its own code; one that a signal ended has a code above 128 that
/// tells the signal, and one that has not ended has none.
pub proof fn law_code_tells_how_it_ended(outcome: WaitOutcome)
    ensures
        outcome matches WaitOutcome::Exited(code) ==> code_of(outcome) == Some(code as int),
        outcome matches WaitOutcome::Signaled(signal) ==> (code_of(outcome) matches Some(code)
            && code - 128 == signal),
        code_of(outcome) is None <==> outcome is Other,
{
}

/// The signals with names are those from 1 to 31; only one of them is not on every machine.
pub proof fn law_signals_have_names(signal: int)
    ensures
        named(signal) <==> 1 <= signal <= 31 && signal != 7,
        in_range(signal) <==> 1 <= signal <= 31,
{
}

} // verus!
