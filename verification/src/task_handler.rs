//! The task handler: a queue of pending tasks and the handles of running ones.

use crate::runtime::spawn_on;
use crate::task::{Task, TaskMeta, TaskMetaView};
use std::collections::VecDeque;
use tokio::task::{JoinHandle, LocalSet};
use vstd::prelude::*;

verus! {

/// The pause between two cycles of a handler, in milliseconds.
pub const TICK_MILLIS: u64 = 50;

/// Whether a sweep found the handle at position `i` finished. A position that
/// `finished` does not reach counts as not finished.
pub open spec fn marked(finished: Seq<bool>, i: int) -> bool {
    0 <= i < finished.len() && finished[i]
}

/// The handles that stay after a sweep: those of `active`, in their order,
/// whose position is not marked in `finished`.
pub open spec fn unfinished(active: Seq<nat>, finished: Seq<bool>) -> Seq<nat>
    decreases active.len(),
{
    if active.len() == 0 {
        Seq::empty()
    } else {
        let last = active.len() - 1;
        let before = unfinished(active.drop_last(), finished);
        if marked(finished, last) {
            before
        } else {
            before.push(active[last])
        }
    }
}

/// The mathematical model of a [`TaskHandler`].
#[verifier::ext_equal]
pub struct HandlerView {
    /// Descriptors of the tasks waiting to be launched, oldest first.
    pub pending: Seq<TaskMetaView>,
    /// Descriptors of every task launched so far, in launch order.
    pub started: Seq<TaskMetaView>,
    /// For each tracked handle, in order, the position in `started` of the
    /// launch that created it.
    pub active: Seq<nat>,
}

impl HandlerView {
    /// Every tracked handle comes from a launch that happened, and no launch
    /// is tracked twice: the positions are in range and strictly increasing.
    pub open spec fn wf(self) -> bool {
        &&& forall|i: int| 0 <= i < self.active.len() ==> self.active[i] < self.started.len()
        &&& forall|i: int, j: int|
            0 <= i < j < self.active.len() ==> self.active[i] < self.active[j]
    }

    /// A handler that has seen no task.
    pub open spec fn empty() -> HandlerView {
        HandlerView { pending: Seq::empty(), started: Seq::empty(), active: Seq::empty() }
    }

    /// The handler after one more task was put at the back of the queue.
    pub open spec fn enqueue(self, meta: TaskMetaView) -> HandlerView {
        HandlerView { pending: self.pending.push(meta), ..self }
    }

    /// The handler after a launch cycle: every pending task was started, in
    /// queue order, and its handle was put behind the handles already tracked.
    pub open spec fn launch_all(self) -> HandlerView {
        HandlerView {
            pending: Seq::empty(),
            started: self.started + self.pending,
            active: self.active + Seq::new(
                self.pending.len(),
                |i: int| (self.started.len() + i) as nat,
            ),
        }
    }

    /// The handler after a sweep that found `finished[i]` for the handle at
    /// position `i`.
    pub open spec fn prune(self, finished: Seq<bool>) -> HandlerView {
        HandlerView { active: unfinished(self.active, finished), ..self }
    }

    /// The descriptors of the tracked handles, in order.
    pub open spec fn active_metas(self) -> Seq<TaskMetaView> {
        Seq::new(self.active.len(), |i: int| self.started[self.active[i] as int])
    }
}

/// The record the handler keeps of one running task: the descriptor of the
/// task and the runtime's handle to its computation.
struct TaskHandle {
    task_meta: TaskMeta,
    handle: JoinHandle<()>,
    ticket: Ghost<nat>,
}

impl TaskHandle {
    /// The descriptor captured when the task was launched.
    spec fn meta(&self) -> TaskMetaView {
        self.task_meta@
    }

    /// The position of the launch among all launches of the handler.
    spec fn ticket(&self) -> nat {
        self.ticket@
    }

    /// Captures the descriptor of `t`, then schedules its computation on
    /// `local` without waiting for it. The task may be a trait object: the
    /// function is generic so that the box is handed on as it is.
    fn create<T: Task + ?Sized>(t: Box<T>, local: &LocalSet, ticket: Ghost<nat>) -> (created:
        TaskHandle)
        ensures
            created.meta() == t.meta()@,
            created.ticket() == ticket@,
    {
        let meta = t.data().clone();
        let task_handle = spawn_on(local, t.execute());
        TaskHandle { task_meta: meta, handle: task_handle, ticket }
    }

    /// Whether the computation has run to its end. Never blocks.
    fn is_finished(&self) -> (finished: bool) {
        self.handle.is_finished()
    }
}

/// Owns the pending queue and the active set.
pub struct TaskHandler {
    task_queue: VecDeque<Box<dyn Task>>,
    handles: Vec<TaskHandle>,
    started: Ghost<Seq<TaskMetaView>>,
}

impl View for TaskHandler {
    type V = HandlerView;

    closed spec fn view(&self) -> HandlerView {
        HandlerView {
            pending: Seq::new(self.task_queue@.len(), |i: int| self.task_queue@[i].meta()@),
            started: self.started@,
            active: Seq::new(self.handles@.len(), |i: int| self.handles@[i].ticket()),
        }
    }
}

impl TaskHandler {
    #[verifier::type_invariant]
    spec fn inv(&self) -> bool {
        tracked_by(self.handles@, self.started@)
    }

    /// A handler with nothing queued and nothing running.
    pub fn new() -> (handler: TaskHandler)
        ensures
            handler@ == HandlerView::empty(),
    {
        let handler = TaskHandler {
            task_queue: VecDeque::new(),
            handles: Vec::new(),
            started: Ghost(Seq::empty()),
        };
        assert(handler@.pending =~= Seq::empty());
        assert(handler@.active =~= Seq::empty());
        handler
    }

    /// Puts a task at the back of the pending queue. Never fails.
    pub fn add_task(&mut self, task: Box<dyn Task>)
        ensures
            final(self)@ == old(self)@.enqueue(task.meta()@),
            final(self)@.wf(),
    {
        proof {
            use_type_invariant(&*self);
        }
        let mut queue = VecDeque::new();
        std::mem::swap(&mut queue, &mut self.task_queue);
        // The task goes in through a queue of its own. Handed to `push_back`
        // of the typed queue it would be coerced to a trait object anew, and
        // the verifier does not identify the coerced task with `task`.
        let mut latest = VecDeque::new();
        latest.push_back(task);
        queue.append(&mut latest);
        self.task_queue = queue;
        assert(self@.pending =~= old(self)@.pending.push(task.meta()@));
    }

    /// Launches every pending task on `local`, front of the queue first, and
    /// tracks the new handles behind the ones already there. The queue is
    /// empty afterwards.
    pub fn run_tasks(&mut self, local: &LocalSet)
        ensures
            final(self)@ == old(self)@.launch_all(),
            final(self)@.wf(),
    {
        proof {
            use_type_invariant(&*self);
        }
        let mut queue = VecDeque::new();
        std::mem::swap(&mut queue, &mut self.task_queue);
        let mut handles = Vec::new();
        std::mem::swap(&mut handles, &mut self.handles);
        let ghost before = old(self)@;
        let ghost mut started = self.started@;
        let ghost mut launched: int = 0;
        loop
            invariant
                0 <= launched <= before.pending.len(),
                queue@.len() == before.pending.len() - launched,
                forall|i: int|
                    0 <= i < queue@.len() ==> (#[trigger] queue@[i]).meta()@
                        == before.pending[launched + i],
                started == before.started + before.pending.take(launched),
                handles@.len() == before.active.len() + launched,
                forall|k: int|
                    0 <= k < before.active.len() ==> (#[trigger] handles@[k]).ticket()
                        == before.active[k],
                forall|k: int|
                    before.active.len() <= k < handles@.len() ==> (#[trigger] handles@[k]).ticket()
                        == before.started.len() + (k - before.active.len()),
                tracked_by(handles@, started),
            ensures
                launched == before.pending.len(),
                queue@.len() == 0,
            decreases queue@.len(),
        {
            match queue.pop_front() {
                Some(t) => {
                    let t_handle = TaskHandle::create(t, local, Ghost(started.len()));
                    proof {
                        assert(before.pending.take(launched + 1) =~= before.pending.take(
                            launched,
                        ).push(before.pending[launched]));
                        started = started.push(t_handle.meta());
                        launched = launched + 1;
                    }
                    handles.push(t_handle);
                },
                None => {
                    break ;
                },
            }
        }
        self.started = Ghost(started);
        self.handles = handles;
        self.task_queue = queue;
        proof {
            assert(before.pending.take(before.pending.len() as int) =~= before.pending);
            assert(self@.pending =~= before.launch_all().pending);
            assert(self@.started =~= before.launch_all().started);
            assert(self@.active =~= before.launch_all().active);
        }
    }

    /// Forgets the handles that a sweep found finished: the handle at position
    /// `i` goes if `finished[i]` is set, every other handle stays, in order.
    pub fn prune(&mut self, finished: &Vec<bool>)
        ensures
            final(self)@ == old(self)@.prune(finished@),
            final(self)@.wf(),
    {
        proof {
            use_type_invariant(&*self);
        }
        let mut swept = Vec::new();
        std::mem::swap(&mut swept, &mut self.handles);
        let ghost before = old(self)@;
        let ghost all = swept@;
        assert(all.len() <= usize::MAX) by {
            assert(swept.len() == all.len());
        }
        let ghost started = self.started@;
        let mut kept: Vec<TaskHandle> = Vec::new();
        let mut i: usize = 0;
        for h in it: swept
            invariant
                it.seq() == all,
                i == it.index(),
                all.len() <= usize::MAX,
                all.len() == before.active.len(),
                forall|k: int| 0 <= k < all.len() ==> (#[trigger] all[k]).ticket() == before.active[k],
                tracked_by(all, started),
                tracked_by(kept@, started),
                Seq::new(kept@.len(), |k: int| kept@[k].ticket()) == unfinished(
                    before.active.take(i as int),
                    finished@,
                ),
                forall|k: int, j: int|
                    0 <= k < kept@.len() && i <= j < all.len() ==> (#[trigger] kept@[k]).ticket() < (
                    #[trigger] all[j]).ticket(),
        {
            proof {
                assert(before.active.take(i + 1).drop_last() =~= before.active.take(i as int));
            }
            let gone = i < finished.len() && finished[i];
            if !gone {
                kept.push(h);
            }
            proof {
                assert(Seq::new(kept@.len(), |k: int| kept@[k].ticket()) =~= unfinished(
                    before.active.take(i + 1),
                    finished@,
                ));
            }
            i = i + 1;
        }
        self.handles = kept;
        proof {
            assert(before.active.take(all.len() as int) =~= before.active);
            assert(self@.active =~= before.prune(finished@).active);
            assert(self@.pending =~= before.pending);
        }
    }

    /// Asks every tracked handle, in order, whether its computation has
    /// finished. Nothing is known of the answers but their number.
    fn poll_handles(&self) -> (finished: Vec<bool>)
        ensures
            finished@.len() == self@.active.len(),
    {
        let mut finished: Vec<bool> = Vec::new();
        let mut i: usize = 0;
        while i < self.handles.len()
            invariant
                i <= self.handles@.len(),
                finished@.len() == i,
            decreases self.handles@.len() - i,
        {
            finished.push(self.handles[i].is_finished());
            i = i + 1;
        }
        finished
    }

    /// Sweeps the active set: asks each handle whether its computation has
    /// finished and forgets those that have. Which ones go depends on the
    /// runtime; whatever it answers, the others stay, in order.
    pub fn clean_handles(&mut self)
        ensures
            exists|finished: Seq<bool>|
                finished.len() == old(self)@.active.len() && final(self)@ == #[trigger] old(
                    self,
                )@.prune(finished),
            final(self)@.wf(),
    {
        let finished = self.poll_handles();
        self.prune(&finished);
    }

    /// One cycle of the handler: launches what is pending, then sweeps the
    /// active set. The caller waits [`TICK_MILLIS`] before the next cycle.
    pub fn tick(&mut self, local: &LocalSet)
        ensures
            exists|finished: Seq<bool>|
                finished.len() == old(self)@.launch_all().active.len() && final(self)@
                    == #[trigger] old(self)@.launch_all().prune(finished),
            final(self)@.wf(),
    {
        self.run_tasks(local);
        self.clean_handles();
    }

    /// How many tasks wait in the queue.
    pub fn pending_len(&self) -> (n: usize)
        ensures
            n == self@.pending.len(),
    {
        self.task_queue.len()
    }

    /// How many handles are tracked.
    pub fn active_len(&self) -> (n: usize)
        ensures
            n == self@.active.len(),
    {
        self.handles.len()
    }

    /// The names of the pending tasks, front of the queue first.
    pub fn pending_names(&self) -> (names: Vec<String>)
        ensures
            names@.len() == self@.pending.len(),
            forall|i: int| 0 <= i < names@.len() ==> (#[trigger] names@[i])@ == self@.pending[i].name,
    {
        let mut names: Vec<String> = Vec::new();
        let mut i: usize = 0;
        while i < self.task_queue.len()
            invariant
                i <= self.task_queue@.len(),
                names@.len() == i,
                forall|k: int|
                    0 <= k < i ==> (#[trigger] names@[k])@ == self.task_queue@[k].meta().name@,
            decreases self.task_queue@.len() - i,
        {
            names.push(self.task_queue[i].data().name.clone());
            i = i + 1;
        }
        names
    }

    /// The names of the tasks whose handles are tracked, in launch order.
    pub fn active_names(&self) -> (names: Vec<String>)
        ensures
            names@.len() == self@.active.len(),
            forall|i: int|
                0 <= i < names@.len() ==> (#[trigger] names@[i])@ == self@.active_metas()[i].name,
    {
        proof {
            use_type_invariant(self);
        }
        let mut names: Vec<String> = Vec::new();
        let mut i: usize = 0;
        while i < self.handles.len()
            invariant
                i <= self.handles@.len(),
                names@.len() == i,
                forall|k: int| 0 <= k < i ==> (#[trigger] names@[k])@ == self.handles@[k].meta().name,
            decreases self.handles@.len() - i,
        {
            names.push(self.handles[i].task_meta.name.clone());
            i = i + 1;
        }
        names
    }
}

/// Each handle records a launch that happened, under the descriptor of that
/// launch, and the handles are in launch order.
spec fn tracked_by(handles: Seq<TaskHandle>, started: Seq<TaskMetaView>) -> bool {
    &&& forall|k: int|
        0 <= k < handles.len() ==> {
            &&& (#[trigger] handles[k]).ticket() < started.len()
            &&& handles[k].meta() == started[handles[k].ticket() as int]
        }
    &&& forall|i: int, j: int|
        0 <= i < j < handles.len() ==> (#[trigger] handles[i]).ticket() < (
        #[trigger] handles[j]).ticket()
}

} // verus!
