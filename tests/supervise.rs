use ultraman::registry::{ProcessEntry, Registry};
use ultraman::shutdown::{
    drain_step, exit_code, kill_children, launch_barrier_size, starts_shutdown, DrainStep,
    ShutdownCause, StopSignal, TrappedSignal,
};
use ultraman::watcher::{check_for_child_termination, on_wait_outcome, WaitOutcome, WatchStep};

fn entry(pid: i32, name: &str) -> ProcessEntry {
    ProcessEntry { pid, name: String::from(name), index: 0 }
}

#[test]
fn registry_refuses_duplicate_and_invalid_pids() {
    let mut procs = Registry::new();
    assert!(procs.insert(entry(100, "web.1")));
    assert!(!procs.insert(entry(100, "web.2")));
    assert!(!procs.insert(entry(0, "web.3")));
    assert_eq!(procs.len(), 1);
    assert!(procs.contains(100));
    assert!(procs.remove(100).is_some());
    assert!(procs.remove(100).is_none());
    assert!(procs.is_empty());
}

#[test]
fn kill_children_twice_on_empty_registry_is_a_no_op() {
    let procs = Registry::new();
    assert!(matches!(kill_children(&procs, StopSignal::Terminate, 0), Ok(0)));
    assert!(matches!(kill_children(&procs, StopSignal::Terminate, 0), Ok(0)));
    assert!(procs.is_empty());
}

#[test]
fn kill_children_stops_at_a_process_that_is_gone() {
    let mut procs = Registry::new();
    procs.insert(entry(i32::MAX, "ghost.1"));
    match kill_children(&procs.snapshot(), StopSignal::Terminate, 3) {
        Err(failure) => {
            assert_eq!(failure.index, 0);
            assert_eq!(failure.pid, i32::MAX);
            assert_eq!(failure.code, 3);
        }
        Ok(_) => panic!("signal to a missing process was reported sent"),
    }
}

#[test]
fn exited_child_is_removed_and_starts_shutdown_with_its_code() {
    let mut procs = Registry::new();
    procs.insert(entry(101, "web.1"));
    procs.insert(entry(102, "web.2"));
    let event = on_wait_outcome(&mut procs, WaitOutcome::Exited { pid: 101, code: 3 });
    assert_eq!(event.step, WatchStep::Shutdown { code: 3 });
    assert_eq!(event.entry.unwrap().name, "web.1");
    let left = procs.snapshot();
    assert_eq!(left.len(), 1);
    assert_eq!(left.get(0).pid, 102);
    assert_eq!(exit_code(ShutdownCause::ChildExited(3)), 3);
}

#[test]
fn signalled_child_is_removed_without_shutdown() {
    let mut procs = Registry::new();
    procs.insert(entry(101, "web.1"));
    let event = on_wait_outcome(&mut procs, WaitOutcome::Signaled { pid: 101, signal: 15 });
    assert_eq!(event.step, WatchStep::Continue);
    assert!(procs.is_empty());
    let unknown = on_wait_outcome(&mut procs, WaitOutcome::Exited { pid: 7, code: 1 });
    assert!(unknown.entry.is_none());
    assert_eq!(unknown.step, WatchStep::Shutdown { code: 1 });
}

#[test]
fn no_children_is_terminal() {
    let mut procs = Registry::new();
    let event = on_wait_outcome(&mut procs, WaitOutcome::NoChildren);
    assert_eq!(event.step, WatchStep::Terminal);
    let polled = check_for_child_termination(&mut procs);
    assert_eq!(polled.outcome, WaitOutcome::NoChildren);
    assert_eq!(polled.step, WatchStep::Terminal);
}

#[test]
fn interrupt_with_stubborn_children_escalates_after_timeout() {
    assert!(starts_shutdown(TrappedSignal::Interrupt));
    assert!(!starts_shutdown(TrappedSignal::Hangup));
    assert!(!starts_shutdown(TrappedSignal::Alarm));
    assert!(!starts_shutdown(TrappedSignal::Terminate));
    assert_eq!(drain_step(3, 0, 1), DrainStep::Wait);
    assert_eq!(drain_step(3, 900, 1), DrainStep::Wait);
    assert_eq!(drain_step(3, 1000, 1), DrainStep::Escalate);
    assert_eq!(drain_step(0, 400, 1), DrainStep::Drained);
    assert_eq!(drain_step(0, 5000, 1), DrainStep::Drained);
    assert_eq!(exit_code(ShutdownCause::Interrupt), 0);
}

#[test]
fn barrier_counts_every_replica_and_the_main_task() {
    assert_eq!(launch_barrier_size(0), 1);
    assert_eq!(launch_barrier_size(3), 4);
}
