//! First-match lookup over a sequence, with the lemmas that keep it stable
//! under the store mutations this crate performs (append, in-place update).
//!
//! Every store in the crate is a vector whose entries are keyed (wallets by
//! principal, logs by owner).  `first_where` is the index of the first entry
//! that satisfies a predicate, or -1 when none does.

use vstd::prelude::*;

verus! {

/// Index of the first element of `s` satisfying `pred`, or -1.
pub open spec fn first_where<T>(s: Seq<T>, pred: spec_fn(T) -> bool) -> int
    decreases s.len(),
{
    if s.len() == 0 {
        -1
    } else if pred(s[0]) {
        0
    } else {
        let r = first_where(s.drop_first(), pred);
        if r == -1 {
            -1
        } else {
            r + 1
        }
    }
}

/// What the result of `first_where` means.
pub proof fn lemma_first_where_props<T>(s: Seq<T>, pred: spec_fn(T) -> bool)
    ensures
        first_where(s, pred) == -1 ==> forall|i: int| 0 <= i < s.len() ==> !pred(s[i]),
        first_where(s, pred) != -1 ==> 0 <= first_where(s, pred) < s.len() && pred(
            s[first_where(s, pred)],
        ) && forall|i: int| 0 <= i < first_where(s, pred) ==> !pred(s[i]),
    decreases s.len(),
{
    if s.len() > 0 && !pred(s[0]) {
        let d = s.drop_first();
        let r = first_where(d, pred);
        lemma_first_where_props(d, pred);
        assert(forall|i: int| 0 <= i < d.len() ==> d[i] == s[i + 1]);
        if r != -1 {
            assert(pred(s[r + 1]));
            assert forall|i: int| 0 <= i < r + 1 implies !pred(s[i]) by {
                if i >= 1 {
                    assert(!pred(d[i - 1]));
                }
            }
        } else {
            assert forall|i: int| 0 <= i < s.len() implies !pred(s[i]) by {
                if i >= 1 {
                    assert(!pred(d[i - 1]));
                }
            }
        }
    }
}

/// `first_where` is determined by any index that matches first.
pub proof fn lemma_first_where_is<T>(s: Seq<T>, pred: spec_fn(T) -> bool, i: int)
    requires
        0 <= i < s.len(),
        pred(s[i]),
        forall|j: int| 0 <= j < i ==> !pred(s[j]),
    ensures
        first_where(s, pred) == i,
{
    lemma_first_where_props(s, pred);
}

/// `first_where` returns -1 exactly when nothing matches.
pub proof fn lemma_first_where_none<T>(s: Seq<T>, pred: spec_fn(T) -> bool)
    requires
        forall|j: int| 0 <= j < s.len() ==> !pred(s[j]),
    ensures
        first_where(s, pred) == -1,
{
    lemma_first_where_props(s, pred);
}

/// Appending an element keeps every earlier first match.
pub proof fn lemma_first_where_push<T>(s: Seq<T>, pred: spec_fn(T) -> bool, x: T)
    ensures
        first_where(s.push(x), pred) == if first_where(s, pred) != -1 {
            first_where(s, pred)
        } else if pred(x) {
            s.len() as int
        } else {
            -1
        },
{
    lemma_first_where_props(s, pred);
    let fw = first_where(s, pred);
    if fw != -1 {
        assert(forall|j: int| 0 <= j < fw ==> s.push(x)[j] == s[j]);
        assert(s.push(x)[fw] == s[fw]);
        lemma_first_where_is(s.push(x), pred, fw);
    } else {
        assert(forall|j: int| 0 <= j < s.len() ==> s.push(x)[j] == s[j]);
        if pred(x) {
            assert(s.push(x)[s.len() as int] == x);
            lemma_first_where_is(s.push(x), pred, s.len() as int);
        } else {
            lemma_first_where_none(s.push(x), pred);
        }
    }
}

/// Updating an entry without changing whether it matches keeps the first
/// match where it was.
pub proof fn lemma_first_where_update<T>(s: Seq<T>, pred: spec_fn(T) -> bool, i: int, x: T)
    requires
        0 <= i < s.len(),
        pred(x) == pred(s[i]),
    ensures
        first_where(s.update(i, x), pred) == first_where(s, pred),
{
    lemma_first_where_props(s, pred);
    let fw = first_where(s, pred);
    let t = s.update(i, x);
    assert(forall|j: int| 0 <= j < s.len() && j != i ==> t[j] == s[j]);
    if fw != -1 {
        assert(pred(t[fw]));
        assert(forall|j: int| 0 <= j < fw ==> !pred(t[j]));
        lemma_first_where_is(t, pred, fw);
    } else {
        assert(forall|j: int| 0 <= j < t.len() ==> !pred(t[j]));
        lemma_first_where_none(t, pred);
    }
}

} // verus!
