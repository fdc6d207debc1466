use vstd::prelude::*;
use crate::array_manager::{ArrayData, ArrayManager};

verus! {

/// Runs `sort_fn` on the selected array and tells whether it ran: it does exactly when an
/// array is selected, and then what `sort_fn` leaves in the array stays there. Where it
/// did not, the caller shows the no-array warning.
pub fn run_sort<F: FnMut(&mut ArrayData)>(array_manager: &mut ArrayManager, mut sort_fn: F) -> (ran: bool)
    requires
        forall|a: &mut ArrayData| call_requires(sort_fn, (a,)),
    ensures
        ran == (old(array_manager)@.selected_index matches Some(i) && i < old(array_manager)@.arrays.len()),
        !ran ==> final(array_manager)@ == old(array_manager)@,
        final(array_manager)@.selected_index == old(array_manager)@.selected_index,
        final(array_manager)@.arrays.len() == old(array_manager)@.arrays.len(),
        forall|j: int|
            0 <= j < old(array_manager)@.arrays.len() && Some(j as usize) != old(array_manager)@.selected_index
                ==> #[trigger] final(array_manager)@.arrays[j] == old(array_manager)@.arrays[j],
        ran ==> exists|a: &mut ArrayData|
            {
                &&& #[trigger] call_ensures(sort_fn, (a,), ())
                &&& *a == old(array_manager)@.arrays[old(array_manager)@.selected_index->0 as int]
                &&& *final(a) == final(array_manager)@.arrays[old(array_manager)@.selected_index->0 as int]
            },
{
    match array_manager.get_selected_array_mut() {
        Some(array) => {
            sort_fn(array);
            true
        },
        None => false,
    }
}

} // verus!
