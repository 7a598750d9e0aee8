//! Counting the items of a sequence that have a property.
use vstd::prelude::*;

verus! {

/// The number of items of `s` for which `f` holds.
pub open spec fn count_where<T>(s: Seq<T>, f: spec_fn(T) -> bool) -> nat
    decreases s.len(),
{
    if s.len() == 0 {
        0
    } else {
        count_where(s.drop_last(), f) + if f(s.last()) {
            1nat
        } else {
            0nat
        }
    }
}

/// One if `f` holds of `x`, else zero.
pub open spec fn indicator<T>(x: T, f: spec_fn(T) -> bool) -> nat {
    if f(x) {
        1
    } else {
        0
    }
}

/// No more items have a property than there are items.
pub proof fn lemma_count_bound<T>(s: Seq<T>, f: spec_fn(T) -> bool)
    ensures
        count_where(s, f) <= s.len(),
    decreases s.len(),
{
    if s.len() > 0 {
        lemma_count_bound(s.drop_last(), f);
    }
}

/// Appending an item adds it to the count if it has the property.
pub proof fn lemma_count_push<T>(s: Seq<T>, x: T, f: spec_fn(T) -> bool)
    ensures
        count_where(s.push(x), f) == count_where(s, f) + indicator(x, f),
{
    assert(s.push(x).drop_last() =~= s);
}

/// The count over the first `i + 1` items is the count over the first `i`
/// plus the item at `i`.
pub proof fn lemma_count_take_next<T>(s: Seq<T>, i: int, f: spec_fn(T) -> bool)
    requires
        0 <= i < s.len(),
    ensures
        count_where(s.take(i + 1), f) == count_where(s.take(i), f) + indicator(s[i], f),
{
    assert(s.take(i + 1).drop_last() =~= s.take(i));
}

/// The count over a concatenation is the sum of the counts.
pub proof fn lemma_count_concat<T>(a: Seq<T>, b: Seq<T>, f: spec_fn(T) -> bool)
    ensures
        count_where(a + b, f) == count_where(a, f) + count_where(b, f),
    decreases b.len(),
{
    if b.len() == 0 {
        assert(a + b =~= a);
    } else {
        lemma_count_concat(a, b.drop_last(), f);
        assert((a + b).drop_last() =~= a + b.drop_last());
    }
}

/// Replacing the item at `i` changes the count by the difference that the
/// replacement makes.
pub proof fn lemma_count_update<T>(s: Seq<T>, i: int, x: T, f: spec_fn(T) -> bool)
    requires
        0 <= i < s.len(),
    ensures
        count_where(s.update(i, x), f) + indicator(s[i], f) == count_where(s, f) + indicator(
            x,
            f,
        ),
{
    let head = s.take(i);
    let tail = s.skip(i + 1);
    assert(s =~= head + seq![s[i]] + tail);
    assert(s.update(i, x) =~= head + seq![x] + tail);
    lemma_count_concat(head + seq![s[i]], tail, f);
    lemma_count_concat(head + seq![x], tail, f);
    lemma_count_concat(head, seq![s[i]], f);
    lemma_count_concat(head, seq![x], f);
    lemma_count_push(Seq::<T>::empty(), s[i], f);
    lemma_count_push(Seq::<T>::empty(), x, f);
    assert(Seq::<T>::empty().push(s[i]) =~= seq![s[i]]);
    assert(Seq::<T>::empty().push(x) =~= seq![x]);
}

/// Where no item has the property the count is zero, and the other way
/// round.
pub proof fn lemma_count_zero<T>(s: Seq<T>, f: spec_fn(T) -> bool)
    ensures
        count_where(s, f) == 0 <==> forall|i: int| 0 <= i < s.len() ==> !f(#[trigger] s[i]),
    decreases s.len(),
{
    if s.len() > 0 {
        lemma_count_zero(s.drop_last(), f);
        let t = s.drop_last();
        if count_where(s, f) == 0 {
            assert forall|i: int| 0 <= i < s.len() implies !f(#[trigger] s[i]) by {
                if i < t.len() {
                    assert(t[i] == s[i]);
                }
            }
        } else {
            if forall|i: int| 0 <= i < s.len() ==> !f(#[trigger] s[i]) {
                assert forall|i: int| 0 <= i < t.len() implies !f(#[trigger] t[i]) by {
                    assert(t[i] == s[i]);
                }
                assert(!f(s[s.len() - 1]));
                assert(false);
            }
        }
    }
}

} // verus!
