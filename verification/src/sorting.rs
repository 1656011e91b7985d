//! Stable sorting by a composite key.
//!
//! Listings order their rows by numbers first and by names second, and rows
//! with equal keys keep the order in which they came.

use vstd::prelude::*;

use crate::text;

verus! {

/// A sort key: two numbers, then two names, each ascending.
pub struct SortKey {
    pub first: int,
    pub second: int,
    pub name: Seq<char>,
    pub detail: Seq<char>,
}

/// Whether key `a` comes strictly before key `b`.
pub open spec fn key_lt(a: SortKey, b: SortKey) -> bool {
    ||| a.first < b.first
    ||| a.first == b.first && a.second < b.second
    ||| a.first == b.first && a.second == b.second && text::text_lt(a.name, b.name)
    ||| a.first == b.first && a.second == b.second && a.name == b.name && text::text_lt(
        a.detail,
        b.detail,
    )
}

/// A row that is ordered by a key of its model.
pub trait Ranked: Sized {
    /// What contracts say of the row.
    type Model;

    spec fn model(&self) -> Self::Model;

    spec fn key_of(model: Self::Model) -> SortKey;

    /// Whether this row sorts strictly before `other`.
    fn before(&self, other: &Self) -> (r: bool)
        ensures
            r == key_lt(Self::key_of(self.model()), Self::key_of(other.model())),
    ;
}

/// The models of a list of rows.
pub open spec fn models<T: Ranked>(rows: Seq<T>) -> Seq<T::Model> {
    rows.map_values(|t: T| t.model())
}

/// `rows` with `row` put behind every row that it does not sort before.
pub open spec fn inserted<T: Ranked>(rows: Seq<T::Model>, row: T::Model) -> Seq<T::Model>
    decreases rows.len(),
{
    if rows.len() == 0 || !key_lt(T::key_of(row), T::key_of(rows.last())) {
        rows.push(row)
    } else {
        inserted::<T>(rows.drop_last(), row).push(rows.last())
    }
}

/// `rows` in key order, rows of equal keys in the order in which they came.
pub open spec fn stable_sorted<T: Ranked>(rows: Seq<T::Model>) -> Seq<T::Model>
    decreases rows.len(),
{
    if rows.len() == 0 {
        rows
    } else {
        inserted::<T>(stable_sorted::<T>(rows.drop_last()), rows.last())
    }
}

/// No row sorts before one that stands ahead of it.
pub open spec fn in_order<T: Ranked>(rows: Seq<T::Model>) -> bool {
    forall|i: int, j: int|
        0 <= i < j < rows.len() ==> !key_lt(T::key_of(#[trigger] rows[j]), T::key_of(#[trigger] rows[i]))
}

/// No key comes before itself.
pub proof fn key_lt_irreflexive(a: SortKey)
    ensures
        !key_lt(a, a),
{
    text::text_lt_irreflexive(a.name);
    text::text_lt_irreflexive(a.detail);
}

/// The order of keys is transitive.
pub proof fn key_lt_transitive(a: SortKey, b: SortKey, c: SortKey)
    requires
        key_lt(a, b),
        key_lt(b, c),
    ensures
        key_lt(a, c),
{
    if a.first == b.first && b.first == c.first && a.second == b.second && b.second == c.second {
        if text::text_lt(a.name, b.name) && text::text_lt(b.name, c.name) {
            text::text_lt_transitive(a.name, b.name, c.name);
        }
        if a.name == b.name && b.name == c.name {
            text::text_lt_irreflexive(a.name);
            text::text_lt_transitive(a.detail, b.detail, c.detail);
        }
    }
}

/// Of two different keys, one comes first.
pub proof fn key_lt_total(a: SortKey, b: SortKey)
    ensures
        key_lt(a, b) || key_lt(b, a) || a == b,
{
    text::text_lt_total(a.name, b.name);
    text::text_lt_total(a.detail, b.detail);
}

proof fn inserted_at<T: Ranked>(rows: Seq<T::Model>, row: T::Model, at: int)
    requires
        0 <= at <= rows.len(),
        forall|j: int| at <= j < rows.len() ==> key_lt(T::key_of(row), T::key_of(#[trigger] rows[j])),
        at > 0 ==> !key_lt(T::key_of(row), T::key_of(rows[at - 1])),
    ensures
        inserted::<T>(rows, row) == rows.insert(at, row),
    decreases rows.len(),
{
    if at < rows.len() {
        assert(key_lt(T::key_of(row), T::key_of(rows[rows.len() - 1])));
        inserted_at::<T>(rows.drop_last(), row, at);
        assert(rows.drop_last().insert(at, row).push(rows.last()) =~= rows.insert(at, row));
    } else {
        assert(rows.push(row) =~= rows.insert(at, row));
    }
}

proof fn inserted_multiset<T: Ranked>(rows: Seq<T::Model>, row: T::Model)
    ensures
        inserted::<T>(rows, row).to_multiset() == rows.to_multiset().insert(row),
        inserted::<T>(rows, row).len() == rows.len() + 1,
    decreases rows.len(),
{
    broadcast use vstd::seq_lib::group_to_multiset_ensures;

    if rows.len() == 0 || !key_lt(T::key_of(row), T::key_of(rows.last())) {
    } else {
        inserted_multiset::<T>(rows.drop_last(), row);
        assert(rows.drop_last().push(rows.last()) =~= rows);
        assert(rows.to_multiset() =~= rows.drop_last().to_multiset().insert(rows.last()));
        assert(inserted::<T>(rows, row).to_multiset() =~= rows.to_multiset().insert(row));
    }
}

proof fn inserted_in_order<T: Ranked>(rows: Seq<T::Model>, row: T::Model)
    requires
        in_order::<T>(rows),
    ensures
        in_order::<T>(inserted::<T>(rows, row)),
    decreases rows.len(),
{
    let out = inserted::<T>(rows, row);
    if rows.len() == 0 || !key_lt(T::key_of(row), T::key_of(rows.last())) {
        assert forall|i: int, j: int| 0 <= i < j < out.len() implies !key_lt(
            T::key_of(#[trigger] out[j]),
            T::key_of(#[trigger] out[i]),
        ) by {
            if j == rows.len() {
                let a = T::key_of(row);
                let b = T::key_of(rows[i]);
                let c = T::key_of(rows.last());
                if key_lt(a, b) {
                    if i < rows.len() - 1 {
                        assert(!key_lt(T::key_of(rows[rows.len() - 1]), b));
                        key_lt_total(b, c);
                        if key_lt(b, c) {
                            key_lt_transitive(a, b, c);
                        }
                    }
                    assert(false);
                }
            } else {
                assert(out[i] == rows[i] && out[j] == rows[j]);
            }
        }
    } else {
        let head = rows.drop_last();
        assert(in_order::<T>(head)) by {
            assert forall|i: int, j: int| 0 <= i < j < head.len() implies !key_lt(
                T::key_of(#[trigger] head[j]),
                T::key_of(#[trigger] head[i]),
            ) by {
                assert(head[i] == rows[i] && head[j] == rows[j]);
            }
        }
        inserted_in_order::<T>(head, row);
        inserted_multiset::<T>(head, row);
        let mid = inserted::<T>(head, row);
        assert forall|i: int, j: int| 0 <= i < j < out.len() implies !key_lt(
            T::key_of(#[trigger] out[j]),
            T::key_of(#[trigger] out[i]),
        ) by {
            if j == mid.len() {
                broadcast use vstd::seq_lib::group_to_multiset_ensures;

                assert(mid.contains(mid[i]));
                assert(mid.to_multiset().contains(mid[i]));
                assert(head.to_multiset().insert(row).contains(mid[i]));
                let c = T::key_of(rows.last());
                if mid[i] == row {
                    if key_lt(c, T::key_of(row)) {
                        key_lt_transitive(c, T::key_of(row), c);
                        key_lt_irreflexive(c);
                    }
                } else {
                    assert(head.to_multiset().contains(mid[i]));
                    assert(head.contains(mid[i]));
                    let k = choose|k: int| 0 <= k < head.len() && head[k] == mid[i];
                    assert(!key_lt(T::key_of(rows[rows.len() - 1]), T::key_of(rows[k])));
                }
            } else {
                assert(out[i] == mid[i] && out[j] == mid[j]);
            }
        }
    }
}

/// Sorting keeps every row and adds none.
pub proof fn sorting_keeps_rows<T: Ranked>(rows: Seq<T::Model>)
    ensures
        stable_sorted::<T>(rows).to_multiset() == rows.to_multiset(),
        stable_sorted::<T>(rows).len() == rows.len(),
    decreases rows.len(),
{
    broadcast use vstd::seq_lib::group_to_multiset_ensures;

    if rows.len() > 0 {
        sorting_keeps_rows::<T>(rows.drop_last());
        inserted_multiset::<T>(stable_sorted::<T>(rows.drop_last()), rows.last());
        assert(rows.drop_last().push(rows.last()) =~= rows);
    }
}

/// Sorting puts the rows in key order.
pub proof fn sorting_orders_rows<T: Ranked>(rows: Seq<T::Model>)
    ensures
        in_order::<T>(stable_sorted::<T>(rows)),
    decreases rows.len(),
{
    if rows.len() > 0 {
        sorting_orders_rows::<T>(rows.drop_last());
        inserted_in_order::<T>(stable_sorted::<T>(rows.drop_last()), rows.last());
    }
}

/// The rows whose key is `key`.
pub open spec fn with_key<T: Ranked>(key: SortKey) -> spec_fn(T::Model) -> bool {
    |m: T::Model| T::key_of(m) == key
}

proof fn filter_of_push<T: Ranked>(rows: Seq<T::Model>, row: T::Model, key: SortKey)
    ensures
        rows.push(row).filter(with_key::<T>(key)) == if T::key_of(row) == key {
            rows.filter(with_key::<T>(key)).push(row)
        } else {
            rows.filter(with_key::<T>(key))
        },
{
    reveal(Seq::filter);
    assert(rows.push(row).drop_last() =~= rows);
}

proof fn inserted_filter<T: Ranked>(rows: Seq<T::Model>, row: T::Model, key: SortKey)
    ensures
        inserted::<T>(rows, row).filter(with_key::<T>(key)) == rows.push(row).filter(
            with_key::<T>(key),
        ),
    decreases rows.len(),
{
    if rows.len() == 0 || !key_lt(T::key_of(row), T::key_of(rows.last())) {
    } else {
        let head = rows.drop_last();
        inserted_filter::<T>(head, row, key);
        // The two rows have different keys, so at most one of them passes.
        key_lt_irreflexive(key);
        filter_of_push::<T>(inserted::<T>(head, row), rows.last(), key);
        filter_of_push::<T>(head, row, key);
        filter_of_push::<T>(head, rows.last(), key);
        filter_of_push::<T>(rows, row, key);
        assert(head.push(rows.last()) =~= rows);
    }
}

/// Sorting keeps the order of rows with equal keys.
pub proof fn sorting_is_stable<T: Ranked>(rows: Seq<T::Model>, key: SortKey)
    ensures
        stable_sorted::<T>(rows).filter(with_key::<T>(key)) == rows.filter(with_key::<T>(key)),
    decreases rows.len(),
{
    if rows.len() > 0 {
        let head = rows.drop_last();
        let sorted = stable_sorted::<T>(head);
        sorting_is_stable::<T>(head, key);
        inserted_filter::<T>(sorted, rows.last(), key);
        filter_of_push::<T>(sorted, rows.last(), key);
        filter_of_push::<T>(head, rows.last(), key);
        assert(head.push(rows.last()) =~= rows);
    }
}

/// Rows with equal keys are equal.
pub open spec fn told_apart<T: Ranked>(rows: Seq<T::Model>) -> bool {
    forall|a: T::Model, b: T::Model|
        rows.contains(a) && rows.contains(b) && #[trigger] T::key_of(a) == #[trigger] T::key_of(b)
            ==> a == b
}

proof fn ordered_rows_are_unique<T: Ranked>(s: Seq<T::Model>, t: Seq<T::Model>)
    requires
        in_order::<T>(s),
        in_order::<T>(t),
        told_apart::<T>(s),
        s.to_multiset() == t.to_multiset(),
    ensures
        s == t,
    decreases s.len(),
{
    broadcast use vstd::seq_lib::group_to_multiset_ensures;

    assert(s.len() == s.to_multiset().len() && t.len() == t.to_multiset().len());
    if s.len() > 0 {
        let a = s.last();
        let b = t.last();
        assert(s.contains(a));
        assert(t.contains(b));
        assert(s.to_multiset().count(a) > 0 && t.to_multiset().count(b) > 0);
        assert(t.contains(a) && s.contains(b));
        let i = choose|i: int| 0 <= i < t.len() && t[i] == a;
        let j = choose|j: int| 0 <= j < s.len() && s[j] == b;
        let ka = T::key_of(a);
        let kb = T::key_of(b);
        key_lt_irreflexive(ka);
        if i < t.len() - 1 {
            assert(!key_lt(T::key_of(t[t.len() - 1]), T::key_of(t[i])));
        }
        if j < s.len() - 1 {
            assert(!key_lt(T::key_of(s[s.len() - 1]), T::key_of(s[j])));
        }
        key_lt_total(ka, kb);
        assert(ka == kb);
        assert(a == b);
        let s0 = s.drop_last();
        let t0 = t.drop_last();
        assert(s.remove(s.len() - 1) =~= s0);
        assert(t.remove(t.len() - 1) =~= t0);
        assert(s0.to_multiset() == s.to_multiset().remove(a));
        assert(t0.to_multiset() == t.to_multiset().remove(b));
        assert forall|x: T::Model| s0.contains(x) implies s.contains(x) by {
            let k = choose|k: int| 0 <= k < s0.len() && s0[k] == x;
            assert(s[k] == x);
        }
        ordered_rows_are_unique::<T>(s0, t0);
        assert(s0.push(a) =~= s);
        assert(t0.push(b) =~= t);
    }
}

/// Where the keys tell the rows apart, the order in which the rows came does
/// not show.
pub proof fn sorting_ignores_arrival<T: Ranked>(a: Seq<T::Model>, b: Seq<T::Model>)
    requires
        told_apart::<T>(a),
        a.to_multiset() == b.to_multiset(),
    ensures
        stable_sorted::<T>(a) == stable_sorted::<T>(b),
{
    broadcast use vstd::seq_lib::group_to_multiset_ensures;

    let s = stable_sorted::<T>(a);
    sorting_keeps_rows::<T>(a);
    sorting_keeps_rows::<T>(b);
    sorting_orders_rows::<T>(a);
    sorting_orders_rows::<T>(b);
    assert forall|x: T::Model| s.contains(x) implies a.contains(x) by {
        assert(s.to_multiset().count(x) > 0);
        assert(a.to_multiset().count(x) > 0);
    }
    ordered_rows_are_unique::<T>(s, stable_sorted::<T>(b));
}

/// Sort rows by their keys.
pub fn stable_sort<T: Ranked>(rows: Vec<T>) -> (r: Vec<T>)
    ensures
        models(r@) == stable_sorted::<T>(models(rows@)),
{
    let mut out: Vec<T> = Vec::new();
    let ghost all = rows@;
    assert(models(out@) =~= stable_sorted::<T>(models(all).take(0)));
    for row in it: rows
        invariant
            it.seq() == all,
            models(out@) == stable_sorted::<T>(models(all).take(it.index())),
    {
        let ghost done = models(all).take(it.index());
        let ghost before = models(out@);
        let mut at: usize = out.len();
        while at > 0 && row.before(&out[at - 1])
            invariant
                at <= out.len(),
                before == models(out@),
                forall|j: int|
                    at <= j < out.len() ==> key_lt(
                        T::key_of(row.model()),
                        T::key_of(#[trigger] before[j]),
                    ),
            decreases at,
        {
            at -= 1;
        }
        proof {
            inserted_at::<T>(before, row.model(), at as int);
            let next = models(all).take(it.index() + 1);
            assert(next.drop_last() =~= done);
            assert(next.last() == row.model());
        }
        let ghost model = row.model();
        out.insert(at, row);
        assert(models(out@) =~= before.insert(at as int, model));
    }
    assert(models(all).take(all.len() as int) =~= models(all));
    out
}

/// What contracts say of rows is what they say of each, in order.
pub proof fn row_models_are_faithful<T: Ranked>(rows: Seq<T>, i: int)
    ensures
        models(rows).len() == rows.len(),
        0 <= i < rows.len() ==> models(rows)[i] == rows[i].model(),
{
}

} // verus!
