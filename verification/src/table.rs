//! Tables: rows kept in ascending order of a key that no two rows share.
use vstd::prelude::*;
use crate::count::{count_where, indicator, lemma_count_concat, lemma_count_push};
use crate::count::{lemma_count_update, lemma_count_zero};

verus! {

/// A row that a table can hold: it has a key, its timestamp.
pub trait Keyed: Copy {
    /// The key of the row.
    spec fn key(&self) -> int;

    /// The key of the row.
    fn key_of(&self) -> (k: i64)
        ensures
            k == self.key(),
    ;
}

/// The keys ascend strictly: the rows are in order and no key occurs twice.
pub open spec fn sorted<T: Keyed>(s: Seq<T>) -> bool {
    forall|i: int, j: int| 0 <= i < j < s.len() ==> (#[trigger] s[i]).key() < (#[trigger] s[j]).key()
}

/// The property of having a key below `k`.
pub open spec fn below<T: Keyed>(k: int) -> spec_fn(T) -> bool {
    |row: T| row.key() < k
}

/// The number of rows with a key below `k`: in a sorted table, the place of
/// the row with key `k`.
pub open spec fn rank<T: Keyed>(s: Seq<T>, k: int) -> int {
    count_where(s, below::<T>(k)) as int
}

/// Whether some row has the key `k`.
pub open spec fn has_key<T: Keyed>(s: Seq<T>, k: int) -> bool {
    exists|i: int| 0 <= i < s.len() && (#[trigger] s[i]).key() == k
}

/// The table after `row` has been written: it takes the place of the row
/// with its key if there is one, and else stands where the order puts it.
pub open spec fn upsert_spec<T: Keyed>(s: Seq<T>, row: T) -> Seq<T> {
    let at = rank(s, row.key());
    if at < s.len() && s[at].key() == row.key() {
        s.update(at, row)
    } else {
        s.insert(at, row)
    }
}

/// In a sorted table the rank of `k` is the index of the first row whose
/// key is not below `k`.
pub proof fn lemma_rank_is_boundary<T: Keyed>(s: Seq<T>, k: int, at: int)
    requires
        0 <= at <= s.len(),
        forall|j: int| 0 <= j < at ==> (#[trigger] s[j]).key() < k,
        forall|j: int| at <= j < s.len() ==> (#[trigger] s[j]).key() >= k,
    ensures
        rank(s, k) == at,
{
    let f = below::<T>(k);
    let head = s.take(at);
    let tail = s.skip(at);
    assert(s =~= head + tail);
    lemma_count_concat(head, tail, f);
    lemma_count_zero(tail, f);
    assert forall|i: int| 0 <= i < tail.len() implies !f(#[trigger] tail[i]) by {
        assert(tail[i] == s[at + i]);
    }
    lemma_count_all(head, f);
    assert forall|i: int| 0 <= i < head.len() implies f(#[trigger] head[i]) by {
        assert(head[i] == s[i]);
    }
}

/// Where every row has a property, the count is the number of rows.
pub proof fn lemma_count_all<T>(s: Seq<T>, f: spec_fn(T) -> bool)
    ensures
        (forall|i: int| 0 <= i < s.len() ==> f(#[trigger] s[i])) ==> count_where(s, f) == s.len(),
    decreases s.len(),
{
    if s.len() > 0 {
        lemma_count_all(s.drop_last(), f);
        if forall|i: int| 0 <= i < s.len() ==> f(#[trigger] s[i]) {
            let t = s.drop_last();
            assert forall|i: int| 0 <= i < t.len() implies f(#[trigger] t[i]) by {
                assert(t[i] == s[i]);
            }
            assert(f(s[s.len() - 1]));
        }
    }
}

/// In a sorted table the rows before the rank of `k` have keys below `k`,
/// and the rows from it on do not.
pub proof fn lemma_rank_splits<T: Keyed>(s: Seq<T>, k: int)
    requires
        sorted(s),
    ensures
        0 <= rank(s, k) <= s.len(),
        forall|j: int| 0 <= j < rank(s, k) ==> (#[trigger] s[j]).key() < k,
        forall|j: int| rank(s, k) <= j < s.len() ==> (#[trigger] s[j]).key() >= k,
    decreases s.len(),
{
    if s.len() > 0 {
        let t = s.drop_last();
        assert(sorted(t)) by {
            assert forall|i: int, j: int| 0 <= i < j < t.len() implies (#[trigger] t[i]).key() < (
            #[trigger] t[j]).key() by {
                assert(t[i] == s[i] && t[j] == s[j]);
            }
        }
        lemma_rank_splits(t, k);
        let r = rank(t, k);
        assert forall|j: int| 0 <= j < rank(s, k) implies (#[trigger] s[j]).key() < k by {
            if j < t.len() {
                assert(t[j] == s[j]);
                if j >= r {
                    assert(s[j].key() < s[s.len() - 1].key());
                }
            }
        }
        assert forall|j: int| rank(s, k) <= j < s.len() implies (#[trigger] s[j]).key() >= k by {
            if j < t.len() {
                assert(t[j] == s[j]);
            }
        }
    }
}

/// Writing a row keeps the table sorted, puts the row at the rank of its
/// key, keeps every other row, and adds no key but the row's own.
pub proof fn lemma_upsert_sorted<T: Keyed>(s: Seq<T>, row: T)
    requires
        sorted(s),
    ensures
        sorted(upsert_spec(s, row)),
        0 <= rank(s, row.key()) < upsert_spec(s, row).len(),
        upsert_spec(s, row)[rank(s, row.key())] == row,
        rank(upsert_spec(s, row), row.key()) == rank(s, row.key()),
        has_key(upsert_spec(s, row), row.key()),
        upsert_spec(s, row).len() == s.len() + if has_key(s, row.key()) {
            0int
        } else {
            1int
        },
        forall|k: int| k != row.key() ==> (has_key(s, k) <==> has_key(upsert_spec(s, row), k)),
{
    let k = row.key();
    let at = rank(s, k);
    let u = upsert_spec(s, row);
    lemma_rank_splits(s, k);
    if at < s.len() && s[at].key() == k {
        assert(has_key(s, k));
        assert forall|x: int| x != k implies (has_key(s, x) <==> has_key(u, x)) by {
            if has_key(s, x) {
                let i = choose|i: int| 0 <= i < s.len() && (#[trigger] s[i]).key() == x;
                assert(u[i].key() == x);
            }
            if has_key(u, x) {
                let i = choose|i: int| 0 <= i < u.len() && (#[trigger] u[i]).key() == x;
                assert(s[i].key() == x);
            }
        }
    } else {
        assert(!has_key(s, k)) by {
            if has_key(s, k) {
                let i = choose|i: int| 0 <= i < s.len() && (#[trigger] s[i]).key() == k;
                if i > at {
                    assert(s[at].key() < s[i].key());
                }
            }
        }
        assert forall|i: int, j: int| 0 <= i < j < u.len() implies (#[trigger] u[i]).key() < (
        #[trigger] u[j]).key() by {
            let si = if i < at {
                i
            } else {
                i - 1
            };
            let sj = if j < at {
                j
            } else {
                j - 1
            };
            if i != at && j != at {
                assert(u[i] == s[si] && u[j] == s[sj]);
            } else if i == at {
                assert(u[j] == s[sj]);
            } else {
                assert(u[i] == s[si]);
            }
        }
        assert forall|x: int| x != k implies (has_key(s, x) <==> has_key(u, x)) by {
            if has_key(s, x) {
                let i = choose|i: int| 0 <= i < s.len() && (#[trigger] s[i]).key() == x;
                let ui = if i < at {
                    i
                } else {
                    i + 1
                };
                assert(u[ui] == s[i]);
            }
            if has_key(u, x) {
                let i = choose|i: int| 0 <= i < u.len() && (#[trigger] u[i]).key() == x;
                let si = if i < at {
                    i
                } else {
                    i - 1
                };
                assert(u[i] == s[si]);
            }
        }
    }
    assert(u[at].key() == k);
    assert forall|j: int| 0 <= j < at implies (#[trigger] u[j]).key() < k by {
        assert(u[j] == s[j]);
    }
    assert forall|j: int| at <= j < u.len() implies (#[trigger] u[j]).key() >= k by {
        if j > at {
            assert(u[at].key() < u[j].key());
        }
    }
    lemma_rank_is_boundary(u, k, at);
}

/// Writing the same row twice is writing it once.
pub proof fn lemma_upsert_idempotent<T: Keyed>(s: Seq<T>, row: T)
    requires
        sorted(s),
    ensures
        upsert_spec(upsert_spec(s, row), row) == upsert_spec(s, row),
{
    lemma_upsert_sorted(s, row);
    let u = upsert_spec(s, row);
    let at = rank(s, row.key());
    assert(u.update(at, row) =~= u);
}

/// How writing a row changes the number of rows with a property: the row
/// counts if it has the property, and the row it replaces no longer does.
pub proof fn lemma_upsert_count<T: Keyed>(s: Seq<T>, row: T, f: spec_fn(T) -> bool)
    requires
        sorted(s),
    ensures
        has_key(s, row.key()) ==> count_where(upsert_spec(s, row), f) + indicator(
            s[rank(s, row.key())],
            f,
        ) == count_where(s, f) + indicator(row, f),
        !has_key(s, row.key()) ==> count_where(upsert_spec(s, row), f) == count_where(s, f)
            + indicator(row, f),
{
    let k = row.key();
    let at = rank(s, k);
    lemma_rank_splits(s, k);
    lemma_upsert_sorted(s, row);
    if at < s.len() && s[at].key() == k {
        assert(has_key(s, k));
        lemma_count_update(s, at, row, f);
    } else {
        let head = s.take(at);
        let tail = s.skip(at);
        assert(s =~= head + tail);
        assert(s.insert(at, row) =~= head.push(row) + tail);
        lemma_count_concat(head, tail, f);
        lemma_count_concat(head.push(row), tail, f);
        lemma_count_push(head, row, f);
    }
}

/// A row whose key is not below the key of the last row is the last row
/// after it has been written.
pub proof fn lemma_upsert_last<T: Keyed>(s: Seq<T>, row: T)
    requires
        sorted(s),
        s.len() > 0 ==> s.last().key() <= row.key(),
    ensures
        upsert_spec(s, row).len() > 0,
        upsert_spec(s, row).last() == row,
{
    let k = row.key();
    let at = rank(s, k);
    lemma_rank_splits(s, k);
    lemma_upsert_sorted(s, row);
    if s.len() > 0 && at < s.len() - 1 {
        assert(s[at].key() < s[s.len() - 1].key());
    }
}

/// Every row of the table after a write is the written row or a row of the
/// table before.
pub proof fn lemma_upsert_members<T: Keyed>(s: Seq<T>, row: T)
    requires
        sorted(s),
    ensures
        forall|i: int|
            0 <= i < upsert_spec(s, row).len() ==> (#[trigger] upsert_spec(s, row)[i]) == row
                || s.contains(upsert_spec(s, row)[i]),
{
    let k = row.key();
    let at = rank(s, k);
    let u = upsert_spec(s, row);
    lemma_rank_splits(s, k);
    assert forall|i: int| 0 <= i < u.len() implies (#[trigger] u[i]) == row || s.contains(
        u[i],
    ) by {
        if i != at {
            if at < s.len() && s[at].key() == k {
                assert(u[i] == s[i]);
            } else if i < at {
                assert(u[i] == s[i]);
            } else {
                assert(u[i] == s[i - 1]);
            }
        }
    }
}

/// Keeping only the rows with a property keeps the table sorted, and keeps
/// no row that was not there.
pub proof fn lemma_filter_sorted<T: Keyed>(s: Seq<T>, f: spec_fn(T) -> bool)
    requires
        sorted(s),
    ensures
        sorted(s.filter(f)),
        s.filter(f).len() <= s.len(),
        forall|i: int| 0 <= i < s.filter(f).len() ==> s.contains(#[trigger] s.filter(f)[i]),
    decreases s.len(),
{
    reveal(Seq::filter);
    if s.len() > 0 {
        let t = s.drop_last();
        assert(sorted(t)) by {
            assert forall|i: int, j: int| 0 <= i < j < t.len() implies (#[trigger] t[i]).key() < (
            #[trigger] t[j]).key() by {
                assert(t[i] == s[i] && t[j] == s[j]);
            }
        }
        lemma_filter_sorted(t, f);
        let kept = t.filter(f);
        let all = s.filter(f);
        assert forall|i: int| 0 <= i < all.len() implies s.contains(#[trigger] all[i]) by {
            if i < kept.len() {
                assert(t.contains(kept[i]));
                let j = choose|j: int| 0 <= j < t.len() && t[j] == kept[i];
                assert(s[j] == kept[i]);
            } else {
                assert(s[s.len() - 1] == all[i]);
            }
        }
        assert forall|i: int, j: int| 0 <= i < j < all.len() implies (#[trigger] all[i]).key() < (
        #[trigger] all[j]).key() by {
            if j == kept.len() {
                assert(t.contains(kept[i]));
                let k = choose|k: int| 0 <= k < t.len() && t[k] == kept[i];
                assert(s[k].key() < s[s.len() - 1].key());
            } else {
                assert(kept[i].key() < kept[j].key());
            }
        }
    }
}

/// The index at which a row with key `k` stands or would stand.
pub fn position<T: Keyed>(rows: &Vec<T>, k: i64) -> (at: usize)
    requires
        sorted(rows@),
    ensures
        at == rank(rows@, k as int),
        at <= rows.len(),
{
    let mut at: usize = 0;
    while at < rows.len() && rows[at].key_of() < k
        invariant
            at <= rows.len(),
            sorted(rows@),
            forall|j: int| 0 <= j < at ==> (#[trigger] rows@[j]).key() < k,
        decreases rows.len() - at,
    {
        at = at + 1;
    }
    proof {
        assert forall|j: int| at <= j < rows.len() implies (#[trigger] rows@[j]).key() >= k by {
            if j > at {
                assert(rows@[at as int].key() < rows@[j].key());
            }
        }
        lemma_rank_is_boundary(rows@, k as int, at as int);
    }
    at
}

/// Whether some row has the key `k`.
pub fn contains_key<T: Keyed>(rows: &Vec<T>, k: i64) -> (r: bool)
    requires
        sorted(rows@),
    ensures
        r == has_key(rows@, k as int),
{
    let at = position(rows, k);
    proof {
        lemma_rank_splits(rows@, k as int);
    }
    if at < rows.len() && rows[at].key_of() == k {
        true
    } else {
        proof {
            if has_key(rows@, k as int) {
                let i = choose|i: int| 0 <= i < rows.len() && (#[trigger] rows@[i]).key() == k;
                if i > at {
                    assert(rows@[at as int].key() < rows@[i].key());
                }
            }
        }
        false
    }
}

/// Writes `row`: replaces the row with its key, or inserts it in order.
pub fn upsert<T: Keyed>(rows: &mut Vec<T>, row: T)
    requires
        sorted(old(rows)@),
    ensures
        final(rows)@ == upsert_spec(old(rows)@, row),
        sorted(final(rows)@),
{
    let k = row.key_of();
    let at = position(rows, k);
    proof {
        lemma_upsert_sorted(rows@, row);
    }
    if at < rows.len() && rows[at].key_of() == k {
        rows.set(at, row);
    } else {
        rows.insert(at, row);
    }
}

} // verus!
