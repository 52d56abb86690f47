//! Tasks and their descriptors.

use crate::runtime::Execution;
use vstd::prelude::*;

verus! {

/// Identity and metadata of a task.
///
/// The name is meant for people reading logs: it need not be unique, and the
/// handler never compares descriptors.
pub struct TaskMeta {
    pub name: String,
}

/// What a [`TaskMeta`] is in specifications.
pub struct TaskMetaView {
    pub name: Seq<char>,
}

impl View for TaskMeta {
    type V = TaskMetaView;

    open spec fn view(&self) -> TaskMetaView {
        TaskMetaView { name: self.name@ }
    }
}

impl Clone for TaskMeta {
    fn clone(&self) -> (copy: Self)
        ensures
            copy == *self,
    {
        TaskMeta { name: self.name.clone() }
    }
}

/// A unit of asynchronous work together with its descriptor.
///
/// The handler only ever reads the descriptor and turns the task into its
/// computation; it never looks at what an implementor holds.
///
/// The contract of `data` is taken on trust for implementors that are not
/// verified; they define `meta` as an ordinary method that returns a copy of
/// the descriptor, which nothing calls when the program runs.
pub trait Task {
    /// The descriptor of the task, fixed for as long as the task lives.
    spec fn meta(&self) -> TaskMeta;

    /// Reads the descriptor. The call has no effect and always gives `meta()`.
    fn data(&self) -> (meta: &TaskMeta)
        ensures
            *meta == self.meta(),
    ;

    /// Consumes the task and yields the computation that is its body.
    fn execute(self: Box<Self>) -> Execution;
}

} // verus!
