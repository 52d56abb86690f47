//! What holds of a handler across several operations, proved over
//! [`HandlerView`].

use crate::task::TaskMetaView;
use crate::task_handler::{marked, unfinished, HandlerView};
use vstd::prelude::*;

verus! {

/// The handler after the tasks `metas` were enqueued one after another.
pub open spec fn enqueue_all(v: HandlerView, metas: Seq<TaskMetaView>) -> HandlerView
    decreases metas.len(),
{
    if metas.len() == 0 {
        v
    } else {
        enqueue_all(v, metas.drop_last()).enqueue(metas.last())
    }
}

/// What a sweep observes when exactly the launches in `done` have run to
/// their end: for each tracked handle, whether its launch is among them.
pub open spec fn observed(active: Seq<nat>, done: Set<nat>) -> Seq<bool> {
    Seq::new(active.len(), |i: int| done.contains(active[i]))
}

/// Enqueueing a run of tasks only lengthens the queue, in the order given.
pub proof fn lemma_enqueue_all(v: HandlerView, metas: Seq<TaskMetaView>)
    ensures
        enqueue_all(v, metas).pending == v.pending + metas,
        enqueue_all(v, metas).started == v.started,
        enqueue_all(v, metas).active == v.active,
    decreases metas.len(),
{
    if metas.len() == 0 {
        assert(v.pending + metas =~= v.pending);
    } else {
        lemma_enqueue_all(v, metas.drop_last());
        assert((v.pending + metas.drop_last()).push(metas.last()) =~= v.pending + metas);
    }
}

/// A sweep keeps a handle exactly if its position is not marked: what stays
/// was tracked and unmarked, and what was tracked and unmarked stays.
pub proof fn lemma_unfinished_members(active: Seq<nat>, finished: Seq<bool>)
    ensures
        unfinished(active, finished).len() <= active.len(),
        forall|k: int|
            0 <= k < unfinished(active, finished).len() ==> exists|i: int|
                0 <= i < active.len() && active[i] == #[trigger] unfinished(active, finished)[k]
                    && !marked(finished, i),
        forall|i: int|
            0 <= i < active.len() && !marked(finished, i) ==> unfinished(
                active,
                finished,
            ).contains(#[trigger] active[i]),
    decreases active.len(),
{
    if active.len() > 0 {
        let last = active.len() - 1;
        let front = active.drop_last();
        let before = unfinished(front, finished);
        let after = unfinished(active, finished);
        lemma_unfinished_members(front, finished);
        assert forall|k: int| 0 <= k < after.len() implies exists|i: int|
            0 <= i < active.len() && active[i] == #[trigger] after[k] && !marked(finished, i) by {
            if k < before.len() {
                let i = choose|i: int|
                    0 <= i < front.len() && front[i] == before[k] && !marked(finished, i);
                assert(active[i] == after[k]);
            } else {
                assert(active[last] == after[k]);
            }
        }
        assert forall|i: int| 0 <= i < active.len() && !marked(finished, i) implies after.contains(
            #[trigger] active[i],
        ) by {
            if i < last {
                assert(before.contains(front[i]));
                let k = choose|k: int| 0 <= k < before.len() && before[k] == front[i];
                assert(after[k] == active[i]);
            } else {
                assert(after[after.len() - 1] == active[i]);
            }
        }
    }
}

/// A sweep keeps the order of the handles: if the launches tracked were in
/// increasing order before, they are so afterwards.
pub proof fn lemma_unfinished_increasing(active: Seq<nat>, finished: Seq<bool>)
    requires
        forall|i: int, j: int| 0 <= i < j < active.len() ==> active[i] < active[j],
    ensures
        forall|i: int, j: int|
            0 <= i < j < unfinished(active, finished).len() ==> unfinished(active, finished)[i]
                < unfinished(active, finished)[j],
    decreases active.len(),
{
    if active.len() > 0 {
        let last = active.len() - 1;
        let front = active.drop_last();
        let before = unfinished(front, finished);
        let after = unfinished(active, finished);
        lemma_unfinished_increasing(front, finished);
        lemma_unfinished_members(front, finished);
        assert forall|i: int, j: int| 0 <= i < j < after.len() implies after[i] < after[j] by {
            if j >= before.len() {
                let at = choose|at: int|
                    0 <= at < front.len() && front[at] == before[i] && !marked(finished, at);
                assert(active[at] < active[last]);
            }
        }
    }
}

/// A sweep that marks nothing changes nothing.
pub proof fn lemma_unfinished_none(active: Seq<nat>, finished: Seq<bool>)
    requires
        forall|i: int| 0 <= i < active.len() ==> !marked(finished, i),
    ensures
        unfinished(active, finished) == active,
    decreases active.len(),
{
    if active.len() > 0 {
        lemma_unfinished_none(active.drop_last(), finished);
        assert(active.drop_last().push(active.last()) =~= active);
    } else {
        assert(active =~= Seq::empty());
    }
}

/// No operation makes a handler track a launch that never happened or track
/// one launch twice: a new handler is well formed, and enqueueing, launching
/// and sweeping keep it so.
pub proof fn lemma_operations_keep_wf(v: HandlerView, meta: TaskMetaView, finished: Seq<bool>)
    requires
        v.wf(),
    ensures
        HandlerView::empty().wf(),
        v.enqueue(meta).wf(),
        v.launch_all().wf(),
        v.prune(finished).wf(),
{
    lemma_unfinished_members(v.active, finished);
    lemma_unfinished_increasing(v.active, finished);
    let swept = v.prune(finished);
    assert forall|k: int| 0 <= k < swept.active.len() implies swept.active[k]
        < swept.started.len() by {
        let i = choose|i: int|
            0 <= i < v.active.len() && v.active[i] == swept.active[k] && !marked(finished, i);
    }
}

/// In a well-formed handler the tracked handles stand for distinct launches,
/// each of a task that was enqueued and then started.
pub proof fn lemma_active_distinct(v: HandlerView, i: int, j: int)
    requires
        v.wf(),
        0 <= i < v.active.len(),
        0 <= j < v.active.len(),
        i != j,
    ensures
        v.active[i] != v.active[j],
        v.active[i] < v.started.len(),
{
    if i < j {
        assert(v.active[i] < v.active[j]);
    } else {
        assert(v.active[j] < v.active[i]);
    }
}

/// After any run of `add_task` calls and one launch cycle the queue is empty
/// and every task that was waiting, the new ones included, has a handle under
/// its own descriptor. The handles come in the order in which the tasks were
/// enqueued, behind the handles tracked before, and that is also the order in
/// which the tasks were started.
pub proof fn lemma_launch_covers_enqueued(v: HandlerView, metas: Seq<TaskMetaView>)
    requires
        v.wf(),
    ensures
        enqueue_all(v, metas).launch_all().pending.len() == 0,
        enqueue_all(v, metas).launch_all().started == v.started + v.pending + metas,
        enqueue_all(v, metas).launch_all().active_metas() == v.active_metas() + v.pending + metas,
        enqueue_all(v, metas).launch_all().wf(),
{
    lemma_enqueue_all(v, metas);
    let queued = enqueue_all(v, metas);
    let after = queued.launch_all();
    assert(after.started =~= v.started + v.pending + metas);
    assert(after.active_metas() =~= v.active_metas() + v.pending + metas);
}

/// A task that is enqueued after a launch cycle is started by the next one,
/// once, behind everything that was started before: no task is lost and none
/// is started twice.
pub proof fn lemma_late_task_starts_once(v: HandlerView, meta: TaskMetaView)
    requires
        v.wf(),
    ensures
        v.launch_all().enqueue(meta).launch_all().started == (v.started + v.pending).push(meta),
        v.launch_all().enqueue(meta).launch_all().active == v.launch_all().active.push(
            (v.started.len() + v.pending.len()) as nat,
        ),
        v.launch_all().enqueue(meta).launch_all().pending.len() == 0,
{
    let first = v.launch_all();
    let second = first.enqueue(meta).launch_all();
    assert(first.enqueue(meta).pending =~= seq![meta]);
    assert(second.started =~= (v.started + v.pending).push(meta));
    assert(second.active =~= first.active.push((v.started.len() + v.pending.len()) as nat));
}

/// When exactly one tracked handle is found finished, the sweep removes that
/// handle and no other: the active set is one shorter and the rest keeps its
/// order.
pub proof fn lemma_sweep_removes_one(v: HandlerView, finished: Seq<bool>, k: int)
    requires
        0 <= k < v.active.len(),
        marked(finished, k),
        forall|i: int| 0 <= i < v.active.len() && i != k ==> !marked(finished, i),
    ensures
        v.prune(finished).active == v.active.remove(k),
        v.prune(finished).active.len() == v.active.len() - 1,
        v.prune(finished).pending == v.pending,
        v.prune(finished).started == v.started,
    decreases v.active.len(),
{
    let last = v.active.len() - 1;
    let front = HandlerView { active: v.active.drop_last(), ..v };
    if k == last {
        lemma_unfinished_none(front.active, finished);
        assert(v.active.remove(k) =~= front.active);
    } else {
        lemma_sweep_removes_one(front, finished, k);
        assert(front.active.remove(k).push(v.active[last]) =~= v.active.remove(k));
    }
}

/// Sweeping twice with nothing finishing in between changes nothing the
/// second time.
pub proof fn lemma_sweep_twice(v: HandlerView, done: Set<nat>)
    ensures
        v.prune(observed(v.active, done)).prune(
            observed(v.prune(observed(v.active, done)).active, done),
        ) == v.prune(observed(v.active, done)),
{
    let first = observed(v.active, done);
    let once = v.prune(first);
    let second = observed(once.active, done);
    lemma_unfinished_members(v.active, first);
    assert forall|k: int| 0 <= k < once.active.len() implies !marked(second, k) by {
        let i = choose|i: int|
            0 <= i < v.active.len() && v.active[i] == once.active[k] && !marked(first, i);
        assert(!done.contains(v.active[i]));
    }
    lemma_unfinished_none(once.active, second);
}

/// A cycle of a handler that holds nothing changes nothing, whatever the
/// sweep reports.
pub proof fn lemma_idle_cycle(v: HandlerView, finished: Seq<bool>)
    requires
        v.pending.len() == 0,
        v.active.len() == 0,
    ensures
        v.launch_all().prune(finished) == v,
{
    assert(v.launch_all().started =~= v.started);
    assert(v.launch_all().active =~= v.active);
    assert(v.launch_all().pending =~= v.pending);
}

} // verus!
