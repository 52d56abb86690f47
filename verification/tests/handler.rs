use std::cell::RefCell;
use std::future::{pending, poll_fn, ready};
use std::rc::Rc;
use std::task::Poll;

use task_handler::{Execution, Task, TaskHandler, TaskMeta, TICK_MILLIS};
use tokio::runtime::{Builder, Runtime};
use tokio::task::LocalSet;

/// What the body of a test task does once the runtime polls it.
enum Body {
    /// Finishes at the first poll.
    Immediate,
    /// Never finishes.
    Forever,
    /// Writes its name to the log at the first poll, then finishes.
    Record(Rc<RefCell<Vec<String>>>),
}

struct Job {
    meta: TaskMeta,
    body: Body,
}

impl Task for Job {
    fn meta(&self) -> TaskMeta {
        self.meta.clone()
    }

    fn data(&self) -> &TaskMeta {
        &self.meta
    }

    fn execute(self: Box<Self>) -> Execution {
        let name = self.meta.name.clone();
        match self.body {
            Body::Immediate => Execution { future: Box::pin(ready(())) },
            Body::Forever => Execution { future: Box::pin(pending::<()>()) },
            Body::Record(log) => Execution {
                future: Box::pin(poll_fn(move |_| {
                    log.borrow_mut().push(name.clone());
                    Poll::Ready(())
                })),
            },
        }
    }
}

fn job(name: &str, body: Body) -> Box<dyn Task> {
    Box::new(Job { meta: TaskMeta { name: String::from(name) }, body })
}

fn runtime() -> Runtime {
    Builder::new_current_thread().enable_time().build().unwrap()
}

/// Lets the local set poll every task that is ready to run.
fn drive(rt: &Runtime, local: &LocalSet) {
    local.block_on(rt, tokio::task::yield_now());
}

fn names(list: &[&str]) -> Vec<String> {
    list.iter().map(|s| String::from(*s)).collect()
}

#[test]
fn new_handler_holds_nothing() {
    let handler = TaskHandler::new();
    assert_eq!(handler.pending_len(), 0);
    assert_eq!(handler.active_len(), 0);
    assert_eq!(handler.pending_names(), Vec::<String>::new());
    assert_eq!(handler.active_names(), Vec::<String>::new());
}

#[test]
fn tick_interval_is_fifty_milliseconds() {
    assert_eq!(TICK_MILLIS, 50);
}

#[test]
fn meta_clone_keeps_the_name() {
    let meta = TaskMeta { name: String::from("poller") };
    let copy = meta.clone();
    assert_eq!(copy.name, "poller");
    assert_eq!(meta.name, "poller");
}

#[test]
fn add_task_appends_to_the_back() {
    let mut handler = TaskHandler::new();
    handler.add_task(job("A", Body::Immediate));
    assert_eq!(handler.pending_names(), names(&["A"]));
    handler.add_task(job("B", Body::Forever));
    handler.add_task(job("C", Body::Immediate));
    assert_eq!(handler.pending_names(), names(&["A", "B", "C"]));
    assert_eq!(handler.pending_len(), 3);
    assert_eq!(handler.active_len(), 0);
}

#[test]
fn duplicate_names_are_accepted() {
    let local = LocalSet::new();
    let mut handler = TaskHandler::new();
    handler.add_task(job("same", Body::Forever));
    handler.add_task(job("same", Body::Forever));
    assert_eq!(handler.pending_names(), names(&["same", "same"]));
    handler.run_tasks(&local);
    assert_eq!(handler.active_names(), names(&["same", "same"]));
}

#[test]
fn launch_cycle_gives_every_task_a_handle() {
    let local = LocalSet::new();
    let mut handler = TaskHandler::new();
    handler.add_task(job("A", Body::Forever));
    handler.add_task(job("B", Body::Immediate));
    handler.add_task(job("C", Body::Forever));
    handler.run_tasks(&local);
    assert_eq!(handler.pending_len(), 0);
    assert_eq!(handler.active_len(), 3);
    assert_eq!(handler.active_names(), names(&["A", "B", "C"]));
}

#[test]
fn launch_cycle_on_an_empty_queue_does_nothing() {
    let local = LocalSet::new();
    let mut handler = TaskHandler::new();
    handler.run_tasks(&local);
    assert_eq!(handler.pending_len(), 0);
    assert_eq!(handler.active_len(), 0);
}

#[test]
fn tasks_start_in_the_order_they_were_enqueued() {
    let rt = runtime();
    let local = LocalSet::new();
    let log = Rc::new(RefCell::new(Vec::new()));
    let mut handler = TaskHandler::new();
    for name in ["first", "second", "third", "fourth"] {
        handler.add_task(job(name, Body::Record(log.clone())));
    }
    handler.run_tasks(&local);
    assert_eq!(*log.borrow(), Vec::<String>::new());
    drive(&rt, &local);
    assert_eq!(*log.borrow(), names(&["first", "second", "third", "fourth"]));
}

#[test]
fn launched_task_is_really_spawned() {
    let rt = runtime();
    let local = LocalSet::new();
    let log = Rc::new(RefCell::new(Vec::new()));
    let mut handler = TaskHandler::new();
    handler.add_task(job("only", Body::Record(log.clone())));
    drive(&rt, &local);
    assert_eq!(log.borrow().len(), 0);
    handler.run_tasks(&local);
    drive(&rt, &local);
    assert_eq!(*log.borrow(), names(&["only"]));
}

#[test]
fn sweep_keeps_handles_of_unfinished_tasks() {
    let local = LocalSet::new();
    let mut handler = TaskHandler::new();
    handler.add_task(job("A", Body::Immediate));
    handler.add_task(job("B", Body::Immediate));
    handler.run_tasks(&local);
    // Nothing has been polled yet, so nothing has finished.
    handler.clean_handles();
    assert_eq!(handler.active_names(), names(&["A", "B"]));
}

#[test]
fn finished_task_leaves_the_active_set_alone() {
    let rt = runtime();
    let local = LocalSet::new();
    let mut handler = TaskHandler::new();
    handler.add_task(job("X", Body::Forever));
    handler.add_task(job("done", Body::Immediate));
    handler.add_task(job("Y", Body::Forever));
    handler.run_tasks(&local);
    drive(&rt, &local);
    assert_eq!(handler.active_len(), 3);
    handler.clean_handles();
    assert_eq!(handler.active_len(), 2);
    assert_eq!(handler.active_names(), names(&["X", "Y"]));
}

#[test]
fn sweeping_twice_changes_nothing_the_second_time() {
    let rt = runtime();
    let local = LocalSet::new();
    let mut handler = TaskHandler::new();
    handler.add_task(job("A", Body::Immediate));
    handler.add_task(job("B", Body::Forever));
    handler.add_task(job("C", Body::Immediate));
    handler.add_task(job("D", Body::Forever));
    handler.run_tasks(&local);
    drive(&rt, &local);
    handler.clean_handles();
    let once = handler.active_names();
    assert_eq!(once, names(&["B", "D"]));
    handler.clean_handles();
    assert_eq!(handler.active_names(), once);
    assert_eq!(handler.pending_len(), 0);
}

#[test]
fn two_finish_and_one_runs_on() {
    let rt = runtime();
    let local = LocalSet::new();
    let mut handler = TaskHandler::new();
    handler.add_task(job("A", Body::Immediate));
    handler.add_task(job("B", Body::Immediate));
    handler.add_task(job("C", Body::Forever));
    handler.tick(&local);
    drive(&rt, &local);
    handler.tick(&local);
    assert_eq!(handler.active_names(), names(&["C"]));
    assert_eq!(handler.active_len(), 1);
    assert_eq!(handler.pending_len(), 0);
}

#[test]
fn idle_handler_stays_empty() {
    let rt = runtime();
    let local = LocalSet::new();
    let mut handler = TaskHandler::new();
    for _ in 0..25 {
        handler.tick(&local);
        drive(&rt, &local);
        assert_eq!(handler.active_len(), 0);
        assert_eq!(handler.pending_len(), 0);
    }
    assert_eq!(handler.active_names(), Vec::<String>::new());
}

#[test]
fn task_enqueued_between_cycles_runs_once_in_the_next() {
    let rt = runtime();
    let local = LocalSet::new();
    let log = Rc::new(RefCell::new(Vec::new()));
    let mut handler = TaskHandler::new();
    handler.add_task(job("early", Body::Record(log.clone())));
    handler.tick(&local);
    handler.add_task(job("late", Body::Record(log.clone())));
    assert_eq!(handler.pending_names(), names(&["late"]));
    drive(&rt, &local);
    assert_eq!(*log.borrow(), names(&["early"]));
    handler.tick(&local);
    assert_eq!(handler.pending_len(), 0);
    drive(&rt, &local);
    handler.tick(&local);
    drive(&rt, &local);
    handler.tick(&local);
    assert_eq!(*log.borrow(), names(&["early", "late"]));
    assert_eq!(handler.active_len(), 0);
}

#[test]
fn handles_are_not_duplicated_across_cycles() {
    let local = LocalSet::new();
    let mut handler = TaskHandler::new();
    handler.add_task(job("A", Body::Forever));
    handler.tick(&local);
    assert_eq!(handler.active_names(), names(&["A"]));
    handler.tick(&local);
    handler.add_task(job("B", Body::Forever));
    handler.tick(&local);
    handler.tick(&local);
    assert_eq!(handler.active_names(), names(&["A", "B"]));
}

#[test]
fn prune_removes_exactly_the_marked_positions() {
    let local = LocalSet::new();
    let mut handler = TaskHandler::new();
    for name in ["A", "B", "C", "D", "E"] {
        handler.add_task(job(name, Body::Forever));
    }
    handler.run_tasks(&local);
    handler.prune(&vec![true, false, true, false, true]);
    assert_eq!(handler.active_names(), names(&["B", "D"]));
    handler.prune(&vec![false, true]);
    assert_eq!(handler.active_names(), names(&["B"]));
    handler.prune(&vec![true]);
    assert_eq!(handler.active_len(), 0);
}

#[test]
fn prune_with_no_mark_keeps_everything() {
    let local = LocalSet::new();
    let mut handler = TaskHandler::new();
    handler.add_task(job("A", Body::Forever));
    handler.add_task(job("B", Body::Forever));
    handler.run_tasks(&local);
    handler.prune(&vec![false, false]);
    assert_eq!(handler.active_names(), names(&["A", "B"]));
    handler.prune(&Vec::new());
    assert_eq!(handler.active_names(), names(&["A", "B"]));
}

#[test]
fn prune_treats_missing_marks_as_unfinished_and_ignores_extra_ones() {
    let local = LocalSet::new();
    let mut handler = TaskHandler::new();
    for name in ["A", "B", "C"] {
        handler.add_task(job(name, Body::Forever));
    }
    handler.run_tasks(&local);
    handler.prune(&vec![true]);
    assert_eq!(handler.active_names(), names(&["B", "C"]));
    handler.prune(&vec![false, true, true, true]);
    assert_eq!(handler.active_names(), names(&["B"]));
}

#[test]
fn prune_leaves_the_queue_alone() {
    let local = LocalSet::new();
    let mut handler = TaskHandler::new();
    handler.add_task(job("A", Body::Forever));
    handler.run_tasks(&local);
    handler.add_task(job("waiting", Body::Forever));
    handler.prune(&vec![true]);
    assert_eq!(handler.active_len(), 0);
    assert_eq!(handler.pending_names(), names(&["waiting"]));
}

#[test]
fn new_handles_go_behind_the_old_ones() {
    let rt = runtime();
    let local = LocalSet::new();
    let mut handler = TaskHandler::new();
    handler.add_task(job("old", Body::Forever));
    handler.add_task(job("gone", Body::Immediate));
    handler.tick(&local);
    drive(&rt, &local);
    handler.add_task(job("new", Body::Forever));
    handler.tick(&local);
    assert_eq!(handler.active_names(), names(&["old", "new"]));
}

#[test]
fn burst_of_tasks_starts_within_one_cycle() {
    let rt = runtime();
    let local = LocalSet::new();
    let log = Rc::new(RefCell::new(Vec::new()));
    let mut handler = TaskHandler::new();
    let mut expected = Vec::new();
    for i in 0..40 {
        let name = format!("task-{}", i);
        expected.push(name.clone());
        handler.add_task(job(&name, Body::Record(log.clone())));
    }
    handler.run_tasks(&local);
    assert_eq!(handler.active_len(), 40);
    assert_eq!(handler.pending_len(), 0);
    drive(&rt, &local);
    assert_eq!(*log.borrow(), expected);
    handler.clean_handles();
    assert_eq!(handler.active_len(), 0);
}
