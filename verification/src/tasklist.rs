//! The lists of tasks, kept in `heapless::Vec`, which holds a fixed number of items in place.
use vstd::prelude::*;

use crate::trace::{TaskProfile, TaskState, MAX_TASKS};

verus! {

/// `heapless::Vec`, of which nothing is known but what the functions of this module state.
#[verifier::external_type_specification]
#[verifier::external_body]
#[verifier::reject_recursive_types(T)]
pub struct ExHeaplessVec<T, const N: usize>(heapless::Vec<T, N>);

/// The items of a list of task states, in order.
pub uninterp spec fn states_of(list: heapless::Vec<TaskState, MAX_TASKS>) -> Seq<TaskState>;

/// The items of a list of task profiles, in order.
pub uninterp spec fn profiles_of(list: heapless::Vec<TaskProfile, MAX_TASKS>) -> Seq<TaskProfile>;

/// Calls `heapless::Vec::new`: the list is empty.
#[verifier::external_body]
pub(crate) fn no_states() -> (list: heapless::Vec<TaskState, MAX_TASKS>)
    ensures
        states_of(list) == Seq::<TaskState>::empty(),
{
    heapless::Vec::new()
}

/// Calls `heapless::Vec::push`: the item goes to the end of the list where there is room for it,
/// and is handed back where there is none.
#[verifier::external_body]
pub(crate) fn push_state(
    list: &mut heapless::Vec<TaskState, MAX_TASKS>,
    item: TaskState,
) -> (pushed: Result<(), TaskState>)
    ensures
        pushed is Ok <==> states_of(*old(list)).len() < MAX_TASKS,
        pushed matches Err(back) ==> back == item,
        states_of(*final(list)) == if pushed is Ok {
            states_of(*old(list)).push(item)
        } else {
            states_of(*old(list))
        },
{
    list.push(item)
}

/// Calls `heapless::Vec::as_slice`: a view of the items, of which there are no more than the list
/// has room for.
#[verifier::external_body]
pub(crate) fn states(list: &heapless::Vec<TaskState, MAX_TASKS>) -> (items: &[TaskState])
    ensures
        items@ == states_of(*list),
        items@.len() <= MAX_TASKS,
{
    list.as_slice()
}

/// Calls `heapless::Vec::as_mut_slice`: access to the items in place. Their number stays.
#[verifier::external_body]
pub(crate) fn states_mut(
    list: &mut heapless::Vec<TaskState, MAX_TASKS>,
) -> (items: &mut [TaskState])
    ensures
        items@ == states_of(*old(list)),
        items@.len() <= MAX_TASKS,
        states_of(*final(list)) == final(items)@,
{
    list.as_mut_slice()
}

/// Calls `heapless::Vec::new`: the list is empty.
#[verifier::external_body]
pub(crate) fn no_profiles() -> (list: heapless::Vec<TaskProfile, MAX_TASKS>)
    ensures
        profiles_of(list) == Seq::<TaskProfile>::empty(),
{
    heapless::Vec::new()
}

/// Calls `heapless::Vec::push`: the item goes to the end of the list where there is room for it,
/// and is handed back where there is none.
#[verifier::external_body]
pub(crate) fn push_profile(
    list: &mut heapless::Vec<TaskProfile, MAX_TASKS>,
    item: TaskProfile,
) -> (pushed: Result<(), TaskProfile>)
    ensures
        pushed is Ok <==> profiles_of(*old(list)).len() < MAX_TASKS,
        pushed matches Err(back) ==> back == item,
        profiles_of(*final(list)) == if pushed is Ok {
            profiles_of(*old(list)).push(item)
        } else {
            profiles_of(*old(list))
        },
{
    list.push(item)
}

/// Calls `heapless::Vec::as_slice`: a view of the items, of which there are no more than the list
/// has room for.
#[verifier::external_body]
pub(crate) fn profiles(list: &heapless::Vec<TaskProfile, MAX_TASKS>) -> (items: &[TaskProfile])
    ensures
        items@ == profiles_of(*list),
        items@.len() <= MAX_TASKS,
{
    list.as_slice()
}

/// Calls `heapless::Vec::as_mut_slice`: access to the items in place. Their number stays.
#[verifier::external_body]
pub(crate) fn profiles_mut(
    list: &mut heapless::Vec<TaskProfile, MAX_TASKS>,
) -> (items: &mut [TaskProfile])
    ensures
        items@ == profiles_of(*old(list)),
        items@.len() <= MAX_TASKS,
        profiles_of(*final(list)) == final(items)@,
{
    list.as_mut_slice()
}

/// Calls `sort_unstable_by_key` of slices: the same items, the shorter run times first. In which
/// order items with the same run time come out is left open.
#[verifier::external_body]
pub(crate) fn sort_by_run_ticks(items: &mut [TaskProfile])
    ensures
        final(items)@.len() == old(items)@.len(),
        final(items)@.to_multiset() == old(items)@.to_multiset(),
        forall|i: int, j: int|
            0 <= i < j < final(items)@.len() ==> (#[trigger] final(items)@[i]).run_ticks <= (
            #[trigger] final(items)@[j]).run_ticks,
{
    items.sort_unstable_by_key(|t| t.run_ticks)
}

} // verus!
