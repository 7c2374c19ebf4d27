//! A registry that maps task ids to cancellation flags.
//!
//! - `register(task_id)` creates a cleared flag for a task and hands it to the
//!   worker, which polls it with `is_set`.
//! - `cancel(task_id)` sets the task's current flag so the worker stops at its
//!   next check point.
//! - `remove(task_id)` cleans up after the task finishes; the worker's flag
//!   keeps its value.
//! - `is_cancelled(task_id)` reads the task's current flag.
//!
//! Every flag handed out stays readable by its worker: the registry keeps the
//! flags in an arena indexed by the handles it gives out, and maps each
//! registered task to its current flag.

use std::collections::HashMap;
use vstd::prelude::*;

verus! {

broadcast use vstd::std_specs::hash::group_hash_axioms;

/// A worker's handle on the cancellation flag it was given at registration.
#[derive(Clone, Copy, Debug, PartialEq, Eq, Structural)]
pub struct CancelFlag {
    /// The flag's place in the registry's arena.
    pub index: usize,
}

/// Task ids mapped to their current flags, and every flag handed out.
pub struct CancellationRegistry {
    tasks: HashMap<i32, usize>,
    flags: Vec<bool>,
}

/// The registry as data: each registered task's flag index, and the values of
/// all flags handed out so far.
pub type RegistryView = (Map<i32, usize>, Seq<bool>);

impl View for CancellationRegistry {
    type V = RegistryView;

    closed spec fn view(&self) -> RegistryView {
        (self.tasks@, self.flags@)
    }
}

/// Every registered task points at a flag that was handed out.
pub open spec fn well_formed(v: RegistryView) -> bool {
    forall|id: i32| #[trigger] v.0.contains_key(id) ==> v.0[id] < v.1.len()
}

/// The registry after registering `task_id`: a fresh, cleared flag is added and
/// becomes the task's flag; an earlier flag of the task stays as it is.
pub open spec fn after_register(v: RegistryView, task_id: i32) -> RegistryView {
    (v.0.insert(task_id, v.1.len() as usize), v.1.push(false))
}

/// Whether a cancellation request for `task_id` finds the task.
pub open spec fn cancel_finds(v: RegistryView, task_id: i32) -> bool {
    v.0.contains_key(task_id)
}

/// The registry after a cancellation request for `task_id`: the task's current
/// flag is set if the task is registered.
pub open spec fn after_cancel(v: RegistryView, task_id: i32) -> RegistryView {
    if v.0.contains_key(task_id) {
        (v.0, v.1.update(v.0[task_id] as int, true))
    } else {
        v
    }
}

/// The registry after removing `task_id`: the task is forgotten, no flag changes.
pub open spec fn after_remove(v: RegistryView, task_id: i32) -> RegistryView {
    (v.0.remove(task_id), v.1)
}

/// Whether the flag behind `flag` is set; a handle the registry never gave out
/// reads as not set.
pub open spec fn flag_set(v: RegistryView, flag: CancelFlag) -> bool {
    flag.index < v.1.len() && v.1[flag.index as int]
}

/// Whether cancellation was requested for `task_id`'s current flag; tasks that
/// are not registered are not cancelled.
pub open spec fn cancelled(v: RegistryView, task_id: i32) -> bool {
    v.0.contains_key(task_id) && flag_set(v, CancelFlag { index: v.0[task_id] })
}

impl CancellationRegistry {
    #[verifier::type_invariant]
    spec fn inv(self) -> bool {
        forall|id: i32| #[trigger] self.tasks@.contains_key(id) ==> self.tasks@[id] < self.flags@.len()
    }

    pub fn new() -> (r: Self)
        ensures
            r@.0 == Map::<i32, usize>::empty(),
            r@.1 == Seq::<bool>::empty(),
            well_formed(r@),
    {
        CancellationRegistry { tasks: HashMap::new(), flags: Vec::new() }
    }

    /// Registers a new, cleared cancellation flag for the given task and returns
    /// it for the worker. The task's earlier flag, if any, is detached: later
    /// cancellations of the task no longer reach it.
    pub fn register(&mut self, task_id: i32) -> (flag: CancelFlag)
        ensures
            flag.index == old(self)@.1.len(),
            final(self)@ == after_register(old(self)@, task_id),
            well_formed(old(self)@),
            well_formed(final(self)@),
    {
        proof {
            use_type_invariant(&*self);
        }
        let index = self.flags.len();
        let mut tasks: HashMap<i32, usize> = HashMap::new();
        let mut flags: Vec<bool> = Vec::new();
        std::mem::swap(&mut tasks, &mut self.tasks);
        std::mem::swap(&mut flags, &mut self.flags);
        flags.push(false);
        tasks.insert(task_id, index);
        *self = CancellationRegistry { tasks, flags };
        proof {
            use_type_invariant(&*self);
        }
        CancelFlag { index }
    }

    /// Signals cancellation for the given task. Returns `true` if the task was found.
    pub fn cancel(&mut self, task_id: i32) -> (found: bool)
        ensures
            found == cancel_finds(old(self)@, task_id),
            final(self)@ == after_cancel(old(self)@, task_id),
            well_formed(old(self)@),
            well_formed(final(self)@),
            found ==> cancelled(final(self)@, task_id),
            forall|other: CancelFlag|
                !(found && other.index == old(self)@.0[task_id]) ==> flag_set(final(self)@, other)
                    == #[trigger] flag_set(old(self)@, other),
    {
        proof {
            use_type_invariant(&*self);
        }
        match self.tasks.get(&task_id) {
            Some(index) => {
                let index = *index;
                let mut tasks: HashMap<i32, usize> = HashMap::new();
                let mut flags: Vec<bool> = Vec::new();
                std::mem::swap(&mut tasks, &mut self.tasks);
                std::mem::swap(&mut flags, &mut self.flags);
                flags.set(index, true);
                *self = CancellationRegistry { tasks, flags };
                proof {
                    use_type_invariant(&*self);
                }
                true
            },
            None => false,
        }
    }

    /// Removes the task's entry once the task is done (completed, failed, or
    /// cancelled). The worker's flag keeps its value.
    pub fn remove(&mut self, task_id: i32)
        ensures
            final(self)@ == after_remove(old(self)@, task_id),
            well_formed(old(self)@),
            well_formed(final(self)@),
    {
        proof {
            use_type_invariant(&*self);
        }
        let mut tasks: HashMap<i32, usize> = HashMap::new();
        let mut flags: Vec<bool> = Vec::new();
        std::mem::swap(&mut tasks, &mut self.tasks);
        std::mem::swap(&mut flags, &mut self.flags);
        tasks.remove(&task_id);
        *self = CancellationRegistry { tasks, flags };
        proof {
            use_type_invariant(&*self);
        }
    }

    /// Checks whether cancellation was requested for the given task.
    pub fn is_cancelled(&self, task_id: i32) -> (res: bool)
        ensures
            res == cancelled(self@, task_id),
            well_formed(self@),
    {
        proof {
            use_type_invariant(self);
        }
        match self.tasks.get(&task_id) {
            Some(index) => self.flags[*index],
            None => false,
        }
    }

    /// What a worker polls: whether its flag has been set.
    pub fn is_set(&self, flag: CancelFlag) -> (res: bool)
        ensures
            res == flag_set(self@, flag),
            well_formed(self@),
    {
        proof {
            use_type_invariant(self);
        }
        if flag.index < self.flags.len() {
            self.flags[flag.index]
        } else {
            false
        }
    }
}

/// Law: registering hands out a fresh flag that is not set and is the task's
/// flag from then on; every flag handed out before, including an earlier flag
/// of the same task, keeps its value, and every other task keeps its flag.
pub proof fn law_register_gives_a_fresh_flag(v: RegistryView, task_id: i32, other: i32, earlier: CancelFlag)
    requires
        well_formed(v),
        v.1.len() < usize::MAX,
        earlier.index < v.1.len(),
    ensures
        well_formed(after_register(v, task_id)),
        !flag_set(after_register(v, task_id), CancelFlag { index: v.1.len() as usize }),
        !cancelled(after_register(v, task_id), task_id),
        flag_set(after_register(v, task_id), earlier) == flag_set(v, earlier),
        other != task_id ==> cancelled(after_register(v, task_id), other) == cancelled(v, other),
{
    let w = after_register(v, task_id);
    assert forall|id: i32| #[trigger] w.0.contains_key(id) implies w.0[id] < w.1.len() by {
        if id != task_id {
            assert(v.0.contains_key(id));
        }
    }
}

/// Law: cancelling a registered task sets the flag its current worker polls,
/// and changes no other flag, so neither a detached earlier flag of the task
/// nor another task is touched.
pub proof fn law_cancel_is_observed(v: RegistryView, task_id: i32, other: CancelFlag)
    requires
        well_formed(v),
    ensures
        well_formed(after_cancel(v, task_id)),
        cancel_finds(v, task_id) ==> cancelled(after_cancel(v, task_id), task_id)
            && flag_set(after_cancel(v, task_id), CancelFlag { index: v.0[task_id] }),
        !(cancel_finds(v, task_id) && other.index == v.0[task_id]) ==> flag_set(
            after_cancel(v, task_id),
            other,
        ) == flag_set(v, other),
{
}

/// Law: a cancellation request for a task that is not registered (never was,
/// or was removed) reports `false` and changes nothing.
pub proof fn law_cancel_unknown_is_noop(v: RegistryView, task_id: i32)
    ensures
        !cancel_finds(after_remove(v, task_id), task_id),
        !v.0.contains_key(task_id) ==> after_cancel(v, task_id) == v && !cancel_finds(v, task_id),
{
}

/// Law: after removal the task reads as not cancelled and can no longer be
/// cancelled, while every flag, the removed task's worker's among them, keeps
/// its value.
pub proof fn law_remove_keeps_the_flags(v: RegistryView, task_id: i32, flag: CancelFlag)
    requires
        well_formed(v),
    ensures
        well_formed(after_remove(v, task_id)),
        !cancelled(after_remove(v, task_id), task_id),
        !cancel_finds(after_remove(v, task_id), task_id),
        flag_set(after_remove(v, task_id), flag) == flag_set(v, flag),
{
}

/// Law: cancelling is idempotent.
pub proof fn law_cancel_idempotent(v: RegistryView, task_id: i32)
    requires
        well_formed(v),
    ensures
        after_cancel(after_cancel(v, task_id), task_id) == after_cancel(v, task_id),
{
    if v.0.contains_key(task_id) {
        assert(after_cancel(v, task_id).1.update(v.0[task_id] as int, true) =~= after_cancel(v, task_id).1);
    }
}

} // verus!
