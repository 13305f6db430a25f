//! The selection of some of the elements of a list.
use vstd::prelude::*;

verus! {

/// The indexes, among the `n` first ones, of the elements which are kept, in
/// order.
pub open spec fn selected(keep: spec_fn(int) -> bool, n: int) -> Seq<usize>
    decreases n,
{
    if n <= 0 {
        Seq::empty()
    } else if keep(n - 1) {
        selected(keep, n - 1).push((n - 1) as usize)
    } else {
        selected(keep, n - 1)
    }
}

/// What's selected is kept, what's kept is selected, and the order is the one
/// of the list.
pub proof fn selection_is_exact(keep: spec_fn(int) -> bool, n: int)
    requires
        0 <= n <= usize::MAX,
    ensures
        selected(keep, n).len() <= n,
        forall|j: int|
            0 <= j < selected(keep, n).len() ==> (#[trigger] selected(keep, n)[j]) < n && keep(
                selected(keep, n)[j] as int,
            ),
        forall|i: int|
            0 <= i < n && #[trigger] keep(i) ==> selected(keep, n).contains(i as usize),
        forall|j: int, k: int|
            0 <= j < k < selected(keep, n).len() ==> selected(keep, n)[j] < selected(keep, n)[k],
    decreases n,
{
    if n > 0 {
        selection_is_exact(keep, n - 1);
        let before = selected(keep, n - 1);
        let all = selected(keep, n);
        assert forall|i: int| 0 <= i < n && #[trigger] keep(i) implies all.contains(
            i as usize,
        ) by {
            if i == n - 1 {
                assert(all[before.len() as int] == i as usize);
            } else {
                assert(before.contains(i as usize));
                let j = choose|j: int| 0 <= j < before.len() && before[j] == i as usize;
                assert(all[j] == i as usize);
            }
        }
    }
}

/// When all the elements are kept, they're all selected.
pub proof fn all_selected(keep: spec_fn(int) -> bool, n: int)
    requires
        0 <= n <= usize::MAX,
        forall|i: int| 0 <= i < n ==> #[trigger] keep(i),
    ensures
        selected(keep, n) == Seq::new(n as nat, |i: int| i as usize),
    decreases n,
{
    if n > 0 {
        all_selected(keep, n - 1);
        assert(keep(n - 1));
    }
    assert(selected(keep, n) =~= Seq::new(n as nat, |i: int| i as usize));
}

} // verus!
