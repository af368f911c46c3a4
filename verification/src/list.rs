use vstd::prelude::*;

verus! {

/// Whether the item is one of the first `upto` entries of the list.
pub open spec fn among<T>(list: Seq<T>, upto: int, item: T) -> bool {
    exists|m: int| 0 <= m < upto && #[trigger] list[m] == item
}

/// The first `upto + 1` entries are the first `upto` and the one after them.
pub proof fn lemma_among_next<T>(list: Seq<T>, upto: int)
    requires
        0 <= upto < list.len(),
    ensures
        forall|item: T| #[trigger]
            among(list, upto + 1, item) <==> among(list, upto, item) || list[upto] == item,
{
    assert forall|item: T| #[trigger]
        among(list, upto + 1, item) <==> among(list, upto, item) || list[upto] == item by {
        if among(list, upto + 1, item) {
            let m = choose|m: int| 0 <= m < upto + 1 && #[trigger] list[m] == item;
            if m < upto {
                assert(among(list, upto, item));
            }
        }
        if among(list, upto, item) {
            let m = choose|m: int| 0 <= m < upto && #[trigger] list[m] == item;
            assert(0 <= m < upto + 1 && list[m] == item);
        }
        if list[upto] == item {
            assert(0 <= upto < upto + 1 && list[upto] == item);
        }
    }
}

/// The entries of a list are what it contains.
pub proof fn lemma_among_all<T>(list: Seq<T>)
    ensures
        forall|item: T| #[trigger] among(list, list.len() as int, item) <==> list.contains(item),
        forall|item: T| !#[trigger] among(list, 0, item),
{
}

/// Appends an item to a list, and says what the longer list contains.
pub(crate) fn push_item<T>(out: &mut Vec<T>, item: T)
    ensures
        final(out)@ == old(out)@.push(item),
        forall|other: T| final(out)@.contains(other) <==> old(out)@.contains(other) || other == item,
        old(out)@.no_duplicates() && !old(out)@.contains(item) ==> final(out)@.no_duplicates(),
{
    out.push(item);
    assert forall|other: T| out@.contains(other) <==> old(out)@.contains(other) || other
        == item by {
        if old(out)@.contains(other) {
            let i = choose|i: int| 0 <= i < old(out)@.len() && old(out)@[i] == other;
            assert(out@[i] == other);
        }
        if other == item {
            assert(out@[out@.len() - 1] == other);
        }
    }
    proof {
        if old(out)@.no_duplicates() && !old(out)@.contains(item) {
            assert forall|i: int, j: int|
                0 <= i < out@.len() && 0 <= j < out@.len() && i != j implies out@[i] != out@[j] by {
                if i < old(out)@.len() {
                    assert(old(out)@.contains(out@[i]));
                }
                if j < old(out)@.len() {
                    assert(old(out)@.contains(out@[j]));
                }
            }
        }
    }
}

} // verus!
