//! Lists of plain values.

use vstd::prelude::*;

verus! {

/// A copy of a list of plain values.
pub fn copy_of<T: Copy>(list: &[T]) -> (copy: Vec<T>)
    ensures
        copy@ == list@,
{
    let mut copy: Vec<T> = Vec::new();
    let mut i: usize = 0;
    while i < list.len()
        invariant
            i <= list@.len(),
            copy@ == list@.take(i as int),
        decreases list.len() - i,
    {
        copy.push(list[i]);
        i += 1;
        assert(copy@ =~= list@.take(i as int));
    }
    assert(list@.take(i as int) =~= list@);
    copy
}

/// A copy has the same values in the same order.
pub proof fn copies_are_the_same<T: Copy>(list: &[T], copy: Vec<T>)
    requires
        call_ensures(copy_of::<T>, (list,), copy),
    ensures
        copy@ == list@,
{
}

} // verus!
