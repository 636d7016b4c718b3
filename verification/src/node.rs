//! The lifecycle of the node: its status and the registry of its background
//! tasks, which a shutdown hands out to be waited for.

use crate::status::Status;
use crate::sync::{guarded, guarded_mut, lock_read, lock_write, new_lock};
use parking_lot::lock_api::RwLock;
use parking_lot::RawRwLock;
use vstd::prelude::*;

verus! {

/// The handles that a request for `state` returns from a registry.
pub open spec fn drained_by<T>(state: Status, tasks: Seq<T>) -> Seq<T> {
    if state == Status::ShuttingDown {
        tasks
    } else {
        Seq::empty()
    }
}

/// The handles that a request for `state` leaves in a registry.
pub open spec fn left_by<T>(state: Status, tasks: Seq<T>) -> Seq<T> {
    if state == Status::ShuttingDown {
        Seq::empty()
    } else {
        tasks
    }
}

/// The status of a node and the handles of its background tasks, in the
/// order in which they were registered. `T` is the type of a handle.
pub struct Lifecycle<T> {
    status: Status,
    tasks: Vec<T>,
}

impl<T> Lifecycle<T> {
    /// The status.
    pub closed spec fn status_of(&self) -> Status {
        self.status
    }

    /// The handles in the registry, oldest first.
    pub closed spec fn tasks(&self) -> Seq<T> {
        self.tasks@
    }

    /// An idle node without tasks.
    pub fn new() -> (lifecycle: Self)
        ensures
            lifecycle.status_of() == Status::Idle,
            lifecycle.tasks() == Seq::<T>::empty(),
    {
        Lifecycle { status: Status::Idle, tasks: Vec::new() }
    }

    /// The current status.
    pub fn status(&self) -> (status: Status)
        ensures
            status == self.status_of(),
    {
        self.status
    }

    /// The number of handles in the registry.
    pub fn task_count(&self) -> (count: usize)
        ensures
            count == self.tasks().len(),
    {
        self.tasks.len()
    }

    /// Puts `handle` at the end of the registry.
    pub fn add_task(&mut self, handle: T)
        ensures
            final(self).status_of() == old(self).status_of(),
            final(self).tasks() == old(self).tasks().push(handle),
    {
        self.tasks.push(handle);
    }

    /// Asks for the status `state`. The node takes it unless it is shutting
    /// down already. A request to shut down empties the registry and returns
    /// its handles in their order: the caller waits for each of them before
    /// it goes on. Any other request returns no handle and leaves the
    /// registry as it is.
    pub fn set_status(&mut self, state: Status) -> (drained: Vec<T>)
        ensures
            final(self).status_of() == old(self).status_of().after(state),
            drained@ == drained_by(state, old(self).tasks()),
            final(self).tasks() == left_by(state, old(self).tasks()),
    {
        self.status = self.status.next(state);
        let mut drained: Vec<T> = Vec::new();
        if state.is_terminal() {
            std::mem::swap(&mut drained, &mut self.tasks);
        }
        drained
    }

    /// Asks the node to shut down: it is shutting down afterwards, the
    /// registry is empty, and its handles are returned to be waited for.
    pub fn shut_down(&mut self) -> (drained: Vec<T>)
        ensures
            final(self).status_of() == Status::ShuttingDown,
            final(self).tasks() == Seq::<T>::empty(),
            drained@ == old(self).tasks(),
    {
        self.set_status(Status::ShuttingDown)
    }
}

/// A handle is waited for exactly once: one that was registered before a
/// shutdown is returned by it, and none is returned again by a later one.
pub proof fn lemma_drained_once<T>(tasks: Seq<T>, handle: T)
    ensures
        ({
            let registered = tasks.push(handle);
            let first = drained_by(Status::ShuttingDown, registered);
            let left = left_by(Status::ShuttingDown, registered);
            let second = drained_by(Status::ShuttingDown, left);
            &&& first == registered
            &&& first.last() == handle
            &&& second == Seq::<T>::empty()
        }),
{
}

/// The lifecycle controller of a node, shared by its tasks: the status that
/// all of them read, and the registry of those that run in the background.
///
/// Every method takes `&self` and may run beside any other; status and
/// registry are behind one reader-writer lock. What a method finds there
/// depends on the other tasks, so its contract states what holds of its
/// answer whatever it found; what it does with what it found is the contract
/// of the method of [`Lifecycle`] with the same name.
#[verifier::reject_recursive_types(T)]
pub struct Node<T> {
    lifecycle: RwLock<RawRwLock, Lifecycle<T>>,
}

impl<T> Node<T> {
    /// An idle node without tasks.
    pub fn new() -> (node: Self) {
        Node { lifecycle: new_lock(Lifecycle::new()) }
    }

    /// The current status of the node.
    pub fn status(&self) -> (status: Status) {
        let guard = lock_read(&self.lifecycle);
        guarded(&guard).status()
    }

    /// Registers the handle of a background task.
    pub fn add_task(&self, handle: T) {
        let mut guard = lock_write(&self.lifecycle);
        guarded_mut(&mut guard).add_task(handle);
    }

    /// Asks for the status `state`; see [`Lifecycle::set_status`]. Only a
    /// request to shut down returns handles: the caller waits for each of
    /// them before it goes on.
    pub fn set_status(&self, state: Status) -> (drained: Vec<T>)
        ensures
            state != Status::ShuttingDown ==> drained@ == Seq::<T>::empty(),
    {
        let mut guard = lock_write(&self.lifecycle);
        guarded_mut(&mut guard).set_status(state)
    }

    /// Asks the node to shut down and returns the handles of the background
    /// tasks that the caller has to wait for.
    pub fn shut_down(&self) -> (drained: Vec<T>) {
        self.set_status(Status::ShuttingDown)
    }
}

} // verus!
