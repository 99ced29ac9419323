//! Lists of optional items.

use vstd::prelude::*;

verus! {

/// The first `Some` of a list.
pub open spec fn first_some<T>(list: Seq<Option<T>>) -> Option<T>
    decreases list.len(),
{
    if list.len() == 0 {
        None
    } else {
        match first_some(list.drop_last()) {
            Some(x) => Some(x),
            None => list.last(),
        }
    }
}

/// An item before which all are `None` is the first.
pub proof fn lemma_first_some_at<T>(list: Seq<Option<T>>, i: int)
    requires
        0 <= i < list.len(),
        list[i] is Some,
        forall|j: int| 0 <= j < i ==> (#[trigger] list[j]) is None,
    ensures
        first_some(list) == list[i],
    decreases list.len(),
{
    if i < list.len() - 1 {
        lemma_first_some_at(list.drop_last(), i);
    } else {
        lemma_first_some_none(list.drop_last());
    }
}

/// A list of `None` has no first item.
pub proof fn lemma_first_some_none<T>(list: Seq<Option<T>>)
    requires
        forall|j: int| 0 <= j < list.len() ==> (#[trigger] list[j]) is None,
    ensures
        first_some(list) is None,
    decreases list.len(),
{
    if list.len() > 0 {
        lemma_first_some_none(list.drop_last());
    }
}

}
