//! Process terminator: sends a termination signal to a PID and
//! reports an identifiable failure when the process is absent or the
//! signal is refused.

use vstd::prelude::*;

verus! {

/// Why a termination request failed, with the PID it concerned.
#[derive(Clone, Copy, Debug, PartialEq, Eq, Structural)]
pub enum TerminatorError {
    ProcessNotFound(u32),
    TerminationFailed(u32),
}

/// Maps the OS's answer to a termination request onto the result owed
/// to the caller: `None` (no such process) to `ProcessNotFound`, a
/// refused signal to `TerminationFailed`, an accepted one to success.
pub fn classify_kill(pid: u32, outcome: Option<bool>) -> (r: Result<(), TerminatorError>)
    ensures
        outcome is None ==> r == Err::<(), TerminatorError>(TerminatorError::ProcessNotFound(pid)),
        outcome == Some(false) ==> r == Err::<(), TerminatorError>(
            TerminatorError::TerminationFailed(pid),
        ),
        outcome == Some(true) ==> r == Ok::<(), TerminatorError>(()),
{
    match outcome {
        None => Err(TerminatorError::ProcessNotFound(pid)),
        Some(false) => Err(TerminatorError::TerminationFailed(pid)),
        Some(true) => Ok(()),
    }
}

/// Relies on `sysinfo::System::process` to look the PID up in a fresh
/// snapshot of the process table and on `sysinfo::Process::kill` to
/// send the kill signal: `None` when the table holds no such PID,
/// else whether the OS accepted the signal.  The answer depends on
/// the live system, so nothing is promised of it.
#[verifier::external_body]
fn send_kill_signal(pid: u32) -> (r: Option<bool>) {
    let mut system = sysinfo::System::new_all();
    system.refresh_all();
    match system.process(sysinfo::Pid::from(pid as usize)) {
        Some(process) => Some(process.kill()),
        None => None,
    }
}

/// Requests termination of the process with the given PID.  The
/// request is bounded by signal delivery: it does not wait for the
/// process to exit.  Whatever the OS answered, the result is either
/// success or one of the two identifiable failures for this PID.
pub fn kill_process(pid: u32) -> (r: Result<(), TerminatorError>)
    ensures
        r == Ok::<(), TerminatorError>(()) || r == Err::<(), TerminatorError>(
            TerminatorError::ProcessNotFound(pid),
        ) || r == Err::<(), TerminatorError>(TerminatorError::TerminationFailed(pid)),
{
    let outcome = send_kill_signal(pid);
    proof {
        assert(outcome is None || outcome == Some(true) || outcome == Some(false));
    }
    classify_kill(pid, outcome)
}

} // verus!
