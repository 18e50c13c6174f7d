use vstd::prelude::*;
use vstd::pervasive::cloned;

verus! {

/// Appends clones of the first `n` items of the vector to it, in order. Where `n`
/// exceeds the length, the walk goes on through the clones already appended, so
/// that the vector repeats itself.
pub fn cycle_extend<T: Clone>(arr: &mut Vec<T>, n: usize)
    requires
        n == 0 || old(arr)@.len() >= 1,
    ensures
        final(arr)@.len() == old(arr)@.len() + n,
        forall|i: int| 0 <= i < old(arr)@.len() ==> final(arr)@[i] == old(arr)@[i],
        forall|i: int|
            0 <= i < n ==> cloned(#[trigger] final(arr)@[i], final(arr)@[old(arr)@.len() + i]),
{
    let mut i: usize = 0;
    while i < n
        invariant
            i <= n,
            n == 0 || old(arr)@.len() >= 1,
            arr@.len() == old(arr)@.len() + i,
            forall|k: int| 0 <= k < old(arr)@.len() ==> arr@[k] == old(arr)@[k],
            forall|k: int| 0 <= k < i ==> cloned(#[trigger] arr@[k], arr@[old(arr)@.len() + k]),
        decreases n - i,
    {
        let item = arr[i].clone();
        arr.push(item);
        i += 1;
    }
}

} // verus!
