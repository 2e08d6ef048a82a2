//! The shutdown coordinator: terminate every child, wait for the registry to
//! drain for a bounded time, then kill what is left.

use crate::registry::Registry;
use nix::errno::Errno;
use nix::sys::signal::{kill, Signal};
use nix::unistd::Pid;
use vstd::prelude::*;

verus! {

/// Seconds that children get to stop after the terminate signal, unless the operator says otherwise.
pub const DEFAULT_TIMEOUT_SECS: u64 = 5;

/// Milliseconds between two looks at the registry while it drains.
pub const POLL_INTERVAL_MS: u64 = 100;

#[verifier::external_type_specification]
#[verifier::external_body]
pub struct ExErrno(Errno);

/// The signals the coordinator sends.
#[derive(PartialEq, Eq, Structural, Clone, Copy, Debug)]
pub enum StopSignal {
    /// SIGTERM: asks a child to stop.
    Terminate,
    /// SIGKILL: stops a child unconditionally.
    Kill,
}

/// A signal that could not be sent: the supervisor must exit with `code` at once.
pub struct KillFailure {
    /// Position in the registry of the process that could not be signalled.
    pub index: usize,
    pub pid: i32,
    pub errno: Errno,
    /// The exit code of the shutdown that was under way.
    pub code: i32,
}

/// Relies on nix::sys::signal::kill: sends SIGTERM or SIGKILL to the single
/// process `pid` (positive, so never a process group); whether it succeeds
/// depends on the system, and a failure comes back as its errno.
#[verifier::external_body]
fn send_signal(pid: i32, signal: StopSignal) -> (r: Result<(), Errno>)
    requires
        pid > 0,
{
    let sig = match signal {
        StopSignal::Terminate => Signal::SIGTERM,
        StopSignal::Kill => Signal::SIGKILL,
    };
    kill(Pid::from_raw(pid), sig)
}

/// Sends `signal` to every registered process, in order, stopping at the first
/// that cannot be signalled. `Ok` holds the number of processes signalled.
pub fn kill_children(procs: &Registry, signal: StopSignal, code: i32) -> (r: Result<usize, KillFailure>)
    requires
        procs.wf(),
    ensures
        r matches Ok(n) ==> n == procs@.len(),
        r matches Err(f) ==> f.index < procs@.len() && f.pid == procs@[f.index as int].pid && f.code
            == code,
        procs@.len() == 0 ==> (r matches Ok(n) && n == 0),
{
    let n = procs.len();
    let mut i: usize = 0;
    while i < n
        invariant
            n == procs@.len(),
            i <= n,
            procs.wf(),
        decreases n - i,
    {
        let entry = procs.get(i);
        assert(procs@[i as int].pid > 0);
        match send_signal(entry.pid, signal) {
            Ok(()) => {},
            Err(errno) => {
                return Err(KillFailure { index: i, pid: entry.pid, errno, code });
            },
        }
        i = i + 1;
    }
    Ok(n)
}

/// What the coordinator does at one look at the draining registry.
#[derive(PartialEq, Eq, Structural, Clone, Copy, Debug)]
pub enum DrainStep {
    /// Every child is gone: shutdown is complete.
    Drained,
    /// Children remain and time is left: look again after the poll interval.
    Wait,
    /// Time is up and children remain: kill them.
    Escalate,
}

pub open spec fn drain_decision(remaining: nat, elapsed_ms: nat, timeout_secs: nat) -> DrainStep {
    if remaining == 0 {
        DrainStep::Drained
    } else if elapsed_ms >= timeout_secs * 1000 {
        DrainStep::Escalate
    } else {
        DrainStep::Wait
    }
}

/// Decides the next step of the drain, `elapsed_ms` after the terminate signal.
pub fn drain_step(remaining: usize, elapsed_ms: u64, timeout_secs: u64) -> (r: DrainStep)
    ensures
        r == drain_decision(remaining as nat, elapsed_ms as nat, timeout_secs as nat),
{
    if remaining == 0 {
        DrainStep::Drained
    } else if elapsed_ms as u128 >= timeout_secs as u128 * 1000 {
        DrainStep::Escalate
    } else {
        DrainStep::Wait
    }
}

/// Why the group is shut down.
#[derive(PartialEq, Eq, Structural, Clone, Copy, Debug)]
pub enum ShutdownCause {
    /// The operator interrupted the supervisor.
    Interrupt,
    /// A child exited on its own with this code.
    ChildExited(i32),
}

pub open spec fn exit_code_of(cause: ShutdownCause) -> i32 {
    match cause {
        ShutdownCause::Interrupt => 0,
        ShutdownCause::ChildExited(code) => code,
    }
}

/// The code the supervisor exits with once the shutdown has completed.
pub fn exit_code(cause: ShutdownCause) -> (r: i32)
    ensures
        r == exit_code_of(cause),
{
    match cause {
        ShutdownCause::Interrupt => 0,
        ShutdownCause::ChildExited(code) => code,
    }
}

/// The signals the supervisor traps.
#[derive(PartialEq, Eq, Structural, Clone, Copy, Debug)]
pub enum TrappedSignal {
    Alarm,
    Hangup,
    Interrupt,
    Terminate,
}

/// True when a trapped signal starts the shutdown: only an interrupt does;
/// the others are accepted and otherwise ignored.
pub fn starts_shutdown(signal: TrappedSignal) -> (r: bool)
    ensures
        r == (signal == TrappedSignal::Interrupt),
{
    match signal {
        TrappedSignal::Interrupt => true,
        _ => false,
    }
}

/// Number of parties of the launch barrier: every replica's launch task and
/// the main task.
pub fn launch_barrier_size(replicas: usize) -> (r: usize)
    requires
        replicas < usize::MAX,
    ensures
        r == replicas + 1,
{
    replicas + 1
}

} // verus!
