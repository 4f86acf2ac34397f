//! Sequence helpers shared by the keyed lists of the library.

use vstd::prelude::*;

verus! {

/// The index of the first element of `s` satisfying `pred`, or -1.
pub open spec fn first_index<T>(s: Seq<T>, pred: spec_fn(T) -> bool) -> int
    decreases s.len(),
{
    if s.len() == 0 {
        -1
    } else if first_index(s.drop_last(), pred) >= 0 {
        first_index(s.drop_last(), pred)
    } else if pred(s.last()) {
        s.len() - 1
    } else {
        -1
    }
}

pub proof fn lemma_first_index<T>(s: Seq<T>, pred: spec_fn(T) -> bool)
    ensures
        -1 <= first_index(s, pred) < s.len(),
        first_index(s, pred) >= 0 ==> pred(s[first_index(s, pred)]),
        first_index(s, pred) < 0 ==> forall|j: int| 0 <= j < s.len() ==> !pred(#[trigger] s[j]),
        forall|j: int| 0 <= j < first_index(s, pred) ==> !pred(#[trigger] s[j]),
    decreases s.len(),
{
    if s.len() > 0 {
        let d = s.drop_last();
        lemma_first_index(d, pred);
        assert(forall|j: int| 0 <= j < d.len() ==> d[j] == s[j]);
    }
}

/// `first_index` is the one index that satisfies `pred` with none before it.
pub proof fn lemma_first_index_unique<T>(s: Seq<T>, pred: spec_fn(T) -> bool, i: int)
    requires
        0 <= i < s.len(),
        pred(s[i]),
        forall|j: int| 0 <= j < i ==> !pred(#[trigger] s[j]),
    ensures
        first_index(s, pred) == i,
{
    lemma_first_index(s, pred);
    let k = first_index(s, pred);
    if k < 0 {
        assert(!pred(s[i]));
    } else if k < i {
        assert(!pred(s[k]));
    } else if k > i {
        assert(!pred(s[i]));
    }
}

/// The index of the first element satisfying `pred` is unchanged by updating
/// an element at or after it with another that satisfies `pred` too, or by
/// changing elements that do not satisfy it into others that do not.
pub proof fn lemma_first_index_preserved<T>(s: Seq<T>, t: Seq<T>, pred: spec_fn(T) -> bool)
    requires
        s.len() == t.len(),
        forall|j: int| 0 <= j < s.len() ==> pred(#[trigger] s[j]) == pred(t[j]),
    ensures
        first_index(s, pred) == first_index(t, pred),
    decreases s.len(),
{
    if s.len() > 0 {
        let ds = s.drop_last();
        let dt = t.drop_last();
        assert(forall|j: int| 0 <= j < ds.len() ==> ds[j] == s[j]);
        assert(forall|j: int| 0 <= j < dt.len() ==> dt[j] == t[j]);
        lemma_first_index_preserved(ds, dt, pred);
        assert(pred(s.last()) == pred(t.last()));
    }
}

/// Appending an element after a sequence with no match makes it the first match.
pub proof fn lemma_first_index_push<T>(s: Seq<T>, x: T, pred: spec_fn(T) -> bool)
    ensures
        first_index(s, pred) >= 0 ==> first_index(s.push(x), pred) == first_index(s, pred),
        first_index(s, pred) < 0 ==> first_index(s.push(x), pred) == (if pred(x) { s.len() as int } else { -1 }),
{
    assert(s.push(x).drop_last() =~= s);
}

} // verus!
