//! Lookup of keys in a sequence: the position of the first equal key, and
//! sequences whose keys are all different.

use vstd::prelude::*;

verus! {

/// Position of the first key equal to `id`, or `ids.len()` when there is none.
pub open spec fn first_pos<K>(ids: Seq<K>, id: K) -> nat
    decreases ids.len(),
{
    if ids.len() == 0 {
        0
    } else if ids[0] == id {
        0
    } else {
        1 + first_pos(ids.drop_first(), id)
    }
}

/// What `first_pos` finds: no equal key before it, and an equal key at it unless it is
/// the end.
pub proof fn lemma_first_pos<K>(ids: Seq<K>, id: K)
    ensures
        first_pos(ids, id) <= ids.len(),
        first_pos(ids, id) < ids.len() ==> ids[first_pos(ids, id) as int] == id,
        forall|j: int| 0 <= j < first_pos(ids, id) ==> ids[j] != id,
    decreases ids.len(),
{
    if ids.len() > 0 && ids[0] != id {
        lemma_first_pos(ids.drop_first(), id);
        assert forall|j: int| 0 <= j < first_pos(ids, id) implies ids[j] != id by {
            if j > 0 {
                assert(ids[j] == ids.drop_first()[j - 1]);
            }
        }
    }
}

/// A position with no equal key before it, and an equal key at it unless it is the end,
/// is `first_pos`.
pub proof fn lemma_first_pos_at<K>(ids: Seq<K>, id: K, i: int)
    requires
        0 <= i <= ids.len(),
        forall|j: int| 0 <= j < i ==> ids[j] != id,
        i < ids.len() ==> ids[i] == id,
    ensures
        first_pos(ids, id) == i,
    decreases ids.len(),
{
    if i > 0 {
        assert forall|j: int| 0 <= j < i - 1 implies ids.drop_first()[j] != id by {
            assert(ids.drop_first()[j] == ids[j + 1]);
        }
        lemma_first_pos_at(ids.drop_first(), id, i - 1);
    }
}

/// No two keys are equal.
pub open spec fn distinct<K>(ids: Seq<K>) -> bool {
    forall|i: int, j: int| 0 <= i < j < ids.len() ==> ids[i] != ids[j]
}

/// Whether `id` is among the keys.
pub open spec fn has_key<K>(ids: Seq<K>, id: K) -> bool {
    first_pos(ids, id) < ids.len()
}

} // verus!
