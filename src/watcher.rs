//! The termination watcher: reacts to children that change state.

use crate::registry::{has_pid, without_pid, EntryView, ProcessEntry, Registry};
use nix::errno::Errno;
use nix::sys::wait::{waitpid, WaitPidFlag, WaitStatus};
use nix::unistd::Pid;
use vstd::prelude::*;

verus! {

/// What one non-blocking wait for any child reported.
#[derive(PartialEq, Eq, Structural, Clone, Copy, Debug)]
pub enum WaitOutcome {
    /// The child `pid` exited with `code`.
    Exited { pid: i32, code: i32 },
    /// The child `pid` was ended by the signal numbered `signal`.
    Signaled { pid: i32, signal: i32 },
    /// No child has ended since the last wait.
    NoExit,
    /// The supervisor has no children left.
    NoChildren,
    /// The wait itself failed.
    Failed,
}

/// What the watcher does next.
#[derive(PartialEq, Eq, Structural, Clone, Copy, Debug)]
pub enum WatchStep {
    /// A child exited on its own: shut the group down, then exit with `code`.
    Shutdown { code: i32 },
    /// Keep watching.
    Continue,
    /// Nothing is left to watch: the supervisor exits with code 0.
    Terminal,
}

/// The step that a wait outcome calls for. Only a child's own exit starts a
/// shutdown; a child ended by a signal was stopped by whoever sent it.
pub open spec fn watch_step(o: WaitOutcome) -> WatchStep {
    match o {
        WaitOutcome::Exited { code, .. } => WatchStep::Shutdown { code },
        WaitOutcome::NoChildren => WatchStep::Terminal,
        _ => WatchStep::Continue,
    }
}

/// The pid that a wait outcome reports gone, if any.
pub open spec fn ended_pid(o: WaitOutcome) -> Option<int> {
    match o {
        WaitOutcome::Exited { pid, .. } => Some(pid as int),
        WaitOutcome::Signaled { pid, .. } => Some(pid as int),
        _ => None,
    }
}

/// The registry after a wait outcome: an ended child leaves it.
pub open spec fn registry_after(s: Seq<EntryView>, o: WaitOutcome) -> Seq<EntryView> {
    match ended_pid(o) {
        Some(pid) => without_pid(s, pid),
        None => s,
    }
}

/// What the watcher learned from one wait.
pub struct ChildEvent {
    pub outcome: WaitOutcome,
    pub step: WatchStep,
    /// The registry entry of the child that ended, when it was registered.
    pub entry: Option<ProcessEntry>,
}

/// Relies on nix::sys::wait::waitpid for any child (pid -1) with WNOHANG: it
/// reports a child that exited or was signalled, that no child changed state,
/// or an error, ECHILD when the process has no children. What it reports
/// depends on the system, so nothing is promised of it.
#[verifier::external_body]
fn wait_any_child() -> (r: WaitOutcome) {
    match waitpid(Pid::from_raw(-1), Some(WaitPidFlag::WNOHANG)) {
        Ok(WaitStatus::Exited(pid, code)) => WaitOutcome::Exited { pid: pid.as_raw(), code },
        Ok(WaitStatus::Signaled(pid, signal, _)) => WaitOutcome::Signaled {
            pid: pid.as_raw(),
            signal: signal as i32,
        },
        Ok(_) => WaitOutcome::NoExit,
        Err(Errno::ECHILD) => WaitOutcome::NoChildren,
        Err(_) => WaitOutcome::Failed,
    }
}

/// Applies a wait outcome to the registry and decides the next step.
pub fn on_wait_outcome(procs: &mut Registry, outcome: WaitOutcome) -> (r: ChildEvent)
    requires
        old(procs).wf(),
    ensures
        final(procs).wf(),
        final(procs)@ == registry_after(old(procs)@, outcome),
        r.outcome == outcome,
        r.step == watch_step(outcome),
        r.entry is Some == (ended_pid(outcome) matches Some(pid) && has_pid(old(procs)@, pid)),
        r.entry matches Some(e) ==> ended_pid(outcome) == Some(e.pid as int) && old(procs)@.contains(
            e.model(),
        ),
{
    let entry = match outcome {
        WaitOutcome::Exited { pid, .. } => procs.remove(pid),
        WaitOutcome::Signaled { pid, .. } => procs.remove(pid),
        _ => None,
    };
    let step = match outcome {
        WaitOutcome::Exited { code, .. } => WatchStep::Shutdown { code },
        WaitOutcome::NoChildren => WatchStep::Terminal,
        _ => WatchStep::Continue,
    };
    ChildEvent { outcome, step, entry }
}

/// Waits, without blocking, for any child to end, and applies what was
/// reported to the registry.
pub fn check_for_child_termination(procs: &mut Registry) -> (r: ChildEvent)
    requires
        old(procs).wf(),
    ensures
        final(procs).wf(),
        final(procs)@ == registry_after(old(procs)@, r.outcome),
        r.step == watch_step(r.outcome),
        r.entry is Some == (ended_pid(r.outcome) matches Some(pid) && has_pid(old(procs)@, pid)),
        r.entry matches Some(e) ==> ended_pid(r.outcome) == Some(e.pid as int) && old(
            procs,
        )@.contains(e.model()),
{
    let outcome = wait_any_child();
    on_wait_outcome(procs, outcome)
}

/// With no child left to wait for, the watcher reaches its end state at once,
/// whatever the registry holds.
pub proof fn lemma_no_children_is_terminal(s: Seq<EntryView>)
    ensures
        watch_step(WaitOutcome::NoChildren) == WatchStep::Terminal,
        registry_after(s, WaitOutcome::NoChildren) == s,
{
}

} // verus!
