//! Rows without their order: when two lists have the same rows, each as often.

use crate::pushdown;
use crate::value::ValueV;
use vstd::multiset::Multiset;
use vstd::prelude::*;

verus! {

/// Whether two lists have the same rows, each as often.
pub open spec fn same(a: Seq<Seq<ValueV>>, b: Seq<Seq<ValueV>>) -> bool {
    a.to_multiset() == b.to_multiset()
}

/// Same rows are rows of both.
pub proof fn same_contains(a: Seq<Seq<ValueV>>, b: Seq<Seq<ValueV>>, row: Seq<ValueV>)
    requires
        same(a, b),
    ensures
        a.contains(row) == b.contains(row),
        a.len() == b.len(),
{
    a.to_multiset_ensures();
    b.to_multiset_ensures();
    assert(a.contains(row) == (a.to_multiset().count(row) > 0));
    assert(b.contains(row) == (b.to_multiset().count(row) > 0));
}

/// How often a row passes a test.
pub proof fn passing_counts(rows: Seq<Seq<ValueV>>, test: spec_fn(Seq<ValueV>) -> bool, x: Seq<ValueV>)
    ensures
        pushdown::passing(rows, test).to_multiset().count(x) == if test(x) {
            rows.to_multiset().count(x)
        } else {
            0
        },
    decreases rows.len(),
{
    broadcast use vstd::multiset::group_multiset_axioms;

    if rows.len() == 0 {
        let none = Seq::<Seq<ValueV>>::empty();
        none.to_multiset_ensures();
        assert(rows =~= none);
    } else {
        let rest = rows.drop_first();
        passing_counts(rest, test, x);
        assert(rows =~= rest.insert(0, rows[0]));
        vstd::seq_lib::to_multiset_insert(rest, 0, rows[0]);
        let p = pushdown::passing(rest, test);
        if test(rows[0]) {
            assert(pushdown::passing(rows, test) =~= p.insert(0, rows[0]));
            vstd::seq_lib::to_multiset_insert(p, 0, rows[0]);
        } else {
            assert(pushdown::passing(rows, test) =~= p);
        }
    }
}

/// A row passes where it is there and the test is true of it.
pub proof fn passing_contains(rows: Seq<Seq<ValueV>>, test: spec_fn(Seq<ValueV>) -> bool, x: Seq<ValueV>)
    ensures
        pushdown::passing(rows, test).contains(x) == (rows.contains(x) && test(x)),
{
    passing_counts(rows, test, x);
    rows.to_multiset_ensures();
    pushdown::passing(rows, test).to_multiset_ensures();
}

/// The same rows pass of the same rows, where the tests agree on them.
pub proof fn passing_same(
    a: Seq<Seq<ValueV>>,
    b: Seq<Seq<ValueV>>,
    f: spec_fn(Seq<ValueV>) -> bool,
    g: spec_fn(Seq<ValueV>) -> bool,
)
    requires
        same(a, b),
        forall|x: Seq<ValueV>| #[trigger] a.contains(x) ==> f(x) == g(x),
    ensures
        same(pushdown::passing(a, f), pushdown::passing(b, g)),
{
    broadcast use vstd::multiset::group_multiset_axioms;

    let p = pushdown::passing(a, f).to_multiset();
    let q = pushdown::passing(b, g).to_multiset();
    assert forall|x: Seq<ValueV>| p.count(x) == q.count(x) by {
        passing_counts(a, f, x);
        passing_counts(b, g, x);
        a.to_multiset_ensures();
        if a.to_multiset().count(x) > 0 {
            assert(a.contains(x));
        }
    }
    assert(p =~= q);
}

/// Two tests one after the other are one that asks for both.
pub proof fn passing_twice(
    rows: Seq<Seq<ValueV>>,
    f: spec_fn(Seq<ValueV>) -> bool,
    g: spec_fn(Seq<ValueV>) -> bool,
    h: spec_fn(Seq<ValueV>) -> bool,
)
    requires
        forall|x: Seq<ValueV>| #[trigger] rows.contains(x) ==> h(x) == (f(x) && g(x)),
    ensures
        same(pushdown::passing(pushdown::passing(rows, f), g), pushdown::passing(rows, h)),
{
    broadcast use vstd::multiset::group_multiset_axioms;

    let p = pushdown::passing(pushdown::passing(rows, f), g).to_multiset();
    let q = pushdown::passing(rows, h).to_multiset();
    assert forall|x: Seq<ValueV>| p.count(x) == q.count(x) by {
        passing_counts(pushdown::passing(rows, f), g, x);
        passing_counts(rows, f, x);
        passing_counts(rows, h, x);
        rows.to_multiset_ensures();
        if rows.to_multiset().count(x) > 0 {
            assert(rows.contains(x));
        }
    }
    assert(p =~= q);
}

// ---------------------------------------------------------------- lists of lists

/// The lists that a function makes of rows, one after the other.
pub open spec fn flat(rows: Seq<Seq<ValueV>>, g: spec_fn(Seq<ValueV>) -> Seq<Seq<ValueV>>) -> Seq<Seq<ValueV>>
    decreases rows.len(),
{
    if rows.len() == 0 {
        Seq::empty()
    } else {
        g(rows[0]) + flat(rows.drop_first(), g)
    }
}

/// One row more or less makes its list more or less.
proof fn flat_without(rows: Seq<Seq<ValueV>>, j: int, g: spec_fn(Seq<ValueV>) -> Seq<Seq<ValueV>>)
    requires
        0 <= j < rows.len(),
    ensures
        flat(rows, g).to_multiset() == g(rows[j]).to_multiset().add(flat(rows.remove(j), g).to_multiset()),
    decreases rows.len(),
{
    broadcast use vstd::multiset::group_multiset_axioms;

    let rest = rows.drop_first();
    vstd::seq_lib::lemma_multiset_commutative(g(rows[0]), flat(rest, g));
    if j == 0 {
        assert(rows.remove(0) =~= rest);
    } else {
        flat_without(rest, j - 1, g);
        let other = rows.remove(j);
        assert(other.drop_first() =~= rest.remove(j - 1));
        assert(other[0] == rows[0]);
        vstd::seq_lib::lemma_multiset_commutative(g(rows[0]), flat(rest.remove(j - 1), g));
        assert(flat(other, g) =~= g(rows[0]) + flat(rest.remove(j - 1), g));
        assert(flat(rows, g).to_multiset() =~= g(rows[j]).to_multiset().add(flat(other, g).to_multiset()));
    }
}

/// The same rows make the same lists.
pub proof fn flat_same(a: Seq<Seq<ValueV>>, b: Seq<Seq<ValueV>>, g: spec_fn(Seq<ValueV>) -> Seq<Seq<ValueV>>)
    requires
        same(a, b),
    ensures
        same(flat(a, g), flat(b, g)),
    decreases a.len(),
{
    a.to_multiset_ensures();
    b.to_multiset_ensures();
    if a.len() > 0 {
        let x = a[0];
        assert(a.contains(x));
        same_contains(a, b, x);
        let j = choose|j: int| 0 <= j < b.len() && b[j] == x;
        vstd::seq_lib::to_multiset_remove(a, 0);
        vstd::seq_lib::to_multiset_remove(b, j);
        flat_without(a, 0, g);
        flat_without(b, j, g);
        flat_same(a.remove(0), b.remove(j), g);
    } else {
        assert(a =~= b);
    }
}

/// Lists with the same rows, row by row, have the same rows together.
pub proof fn flat_pointwise(
    a: Seq<Seq<ValueV>>,
    g: spec_fn(Seq<ValueV>) -> Seq<Seq<ValueV>>,
    h: spec_fn(Seq<ValueV>) -> Seq<Seq<ValueV>>,
)
    requires
        forall|i: int| 0 <= i < a.len() ==> same(g(#[trigger] a[i]), h(a[i])),
    ensures
        same(flat(a, g), flat(a, h)),
    decreases a.len(),
{
    if a.len() > 0 {
        let rest = a.drop_first();
        assert forall|i: int| 0 <= i < rest.len() implies same(g(#[trigger] rest[i]), h(rest[i])) by {
            assert(rest[i] == a[i + 1]);
        }
        flat_pointwise(rest, g, h);
        assert(same(g(a[0]), h(a[0])));
        vstd::seq_lib::lemma_multiset_commutative(g(a[0]), flat(rest, g));
        vstd::seq_lib::lemma_multiset_commutative(h(a[0]), flat(rest, h));
    }
}

// ---------------------------------------------------------------- joins

/// A pair of rows, where they belong together.
pub open spec fn pair(l: Seq<ValueV>, on: spec_fn(Seq<ValueV>, Seq<ValueV>) -> bool) -> spec_fn(Seq<ValueV>) -> Seq<Seq<ValueV>> {
    |r: Seq<ValueV>|
        if on(l, r) {
            seq![l + r]
        } else {
            Seq::empty()
        }
}

/// The rows of a join that a row of its left side is in: one for each row of the right side that
/// belongs to it, or one with nulls where none does and the join keeps such rows.
pub open spec fn beside(
    right: Seq<Seq<ValueV>>,
    on: spec_fn(Seq<ValueV>, Seq<ValueV>) -> bool,
    nulls: Option<Seq<ValueV>>,
) -> spec_fn(Seq<ValueV>) -> Seq<Seq<ValueV>> {
    |l: Seq<ValueV>|
        {
            let found = flat(right, pair(l, on));
            if nulls is Some && found.len() == 0 {
                seq![l + nulls->0]
            } else {
                found
            }
        }
}

/// The rows of a join.
pub open spec fn joined(
    left: Seq<Seq<ValueV>>,
    right: Seq<Seq<ValueV>>,
    on: spec_fn(Seq<ValueV>, Seq<ValueV>) -> bool,
    nulls: Option<Seq<ValueV>>,
) -> Seq<Seq<ValueV>> {
    flat(left, beside(right, on, nulls))
}

/// The same rows on both sides make the same joined rows.
pub proof fn joined_same(
    a: Seq<Seq<ValueV>>,
    b: Seq<Seq<ValueV>>,
    c: Seq<Seq<ValueV>>,
    d: Seq<Seq<ValueV>>,
    on: spec_fn(Seq<ValueV>, Seq<ValueV>) -> bool,
    nulls: Option<Seq<ValueV>>,
)
    requires
        same(a, b),
        same(c, d),
    ensures
        same(joined(a, c, on, nulls), joined(b, d, on, nulls)),
{
    let g = beside(c, on, nulls);
    let h = beside(d, on, nulls);
    assert forall|i: int| 0 <= i < b.len() implies same(g(#[trigger] b[i]), h(b[i])) by {
        let x = flat(c, pair(b[i], on));
        let y = flat(d, pair(b[i], on));
        flat_same(c, d, pair(b[i], on));
        same_contains(x, y, b[i]);
    }
    flat_same(a, b, g);
    flat_pointwise(b, g, h);
}

/// The rows of a join as a list by one test of the whole row.
pub proof fn joined_is_join_rows(
    left: Seq<Seq<ValueV>>,
    right: Seq<Seq<ValueV>>,
    on: spec_fn(Seq<ValueV>, Seq<ValueV>) -> bool,
    test: spec_fn(Seq<ValueV>) -> bool,
    nulls: Option<Seq<ValueV>>,
)
    requires
        forall|i: int, j: int|
            0 <= i < left.len() && 0 <= j < right.len() ==> on(#[trigger] left[i], #[trigger] right[j]) == test(
                left[i] + right[j],
            ),
    ensures
        joined(left, right, on, nulls) == pushdown::join_rows(left, right, test, nulls),
    decreases left.len(),
{
    if left.len() > 0 {
        let rest = left.drop_first();
        assert forall|i: int, j: int| 0 <= i < rest.len() && 0 <= j < right.len() implies on(
            #[trigger] rest[i],
            #[trigger] right[j],
        ) == test(rest[i] + right[j]) by {
            assert(rest[i] == left[i + 1]);
        }
        joined_is_join_rows(rest, right, on, test, nulls);
        assert forall|j: int| 0 <= j < right.len() implies on(left[0], #[trigger] right[j]) == test(left[0] + right[j]) by {
            assert(left[0] == left[0]);
        }
        pairs_are_flat(left[0], right, on, test);
    }
}

proof fn pairs_are_flat(
    l: Seq<ValueV>,
    right: Seq<Seq<ValueV>>,
    on: spec_fn(Seq<ValueV>, Seq<ValueV>) -> bool,
    test: spec_fn(Seq<ValueV>) -> bool,
)
    requires
        forall|j: int| 0 <= j < right.len() ==> on(l, #[trigger] right[j]) == test(l + right[j]),
    ensures
        flat(right, pair(l, on)) == pushdown::pairs(l, right, test),
    decreases right.len(),
{
    if right.len() > 0 {
        let rest = right.drop_first();
        assert forall|j: int| 0 <= j < rest.len() implies on(l, #[trigger] rest[j]) == test(l + rest[j]) by {
            assert(rest[j] == right[j + 1]);
        }
        pairs_are_flat(l, rest, on, test);
        assert(on(l, right[0]) == test(l + right[0]));
    }
}

/// Where a row of lists comes from.
pub proof fn flat_contains(rows: Seq<Seq<ValueV>>, g: spec_fn(Seq<ValueV>) -> Seq<Seq<ValueV>>, x: Seq<ValueV>) -> (i: int)
    requires
        flat(rows, g).contains(x),
    ensures
        0 <= i < rows.len(),
        g(rows[i]).contains(x),
    decreases rows.len(),
{
    let all = flat(rows, g);
    let k = choose|k: int| 0 <= k < all.len() && all[k] == x;
    let first = g(rows[0]);
    if k < first.len() {
        assert(first[k] == x);
        0
    } else {
        let rest = flat(rows.drop_first(), g);
        assert(rest[k - first.len()] == x);
        let i = flat_contains(rows.drop_first(), g, x);
        assert(rows.drop_first()[i] == rows[i + 1]);
        i + 1
    }
}

/// Every row of a join begins with a row of the left side, with which it goes on with one of the
/// right side or with nulls.
pub proof fn joined_rows_have_both_sides(
    left: Seq<Seq<ValueV>>,
    right: Seq<Seq<ValueV>>,
    on: spec_fn(Seq<ValueV>, Seq<ValueV>) -> bool,
    nulls: Option<Seq<ValueV>>,
    x: Seq<ValueV>,
) -> (out: (Seq<ValueV>, Seq<ValueV>))
    requires
        joined(left, right, on, nulls).contains(x),
    ensures
        left.contains(out.0),
        right.contains(out.1) && on(out.0, out.1) || nulls == Some(out.1),
        x == out.0 + out.1,
{
    let i = flat_contains(left, beside(right, on, nulls), x);
    let l = left[i];
    let found = flat(right, pair(l, on));
    if nulls is Some && found.len() == 0 {
        assert(seq![l + nulls->0].contains(x));
        assert(x == l + nulls->0);
        (l, nulls->0)
    } else {
        let j = flat_contains(right, pair(l, on), x);
        let r = right[j];
        assert(on(l, r));
        assert(x == seq![l + r][0]);
        (l, r)
    }
}

} // verus!
