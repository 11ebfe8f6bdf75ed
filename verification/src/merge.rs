//! Merging sorted runs: what a merge gives as a whole, and the merge of runs in memory.

use crate::order;
use crate::spill;
use crate::spill::{HeapEntry, KWayMerge};
use crate::value;
use crate::value::{DbValue, Order};
use std::collections::VecDeque;
use vstd::multiset::Multiset;
use vstd::prelude::*;

verus! {

/// Runs in the middle of a merge: the entries that wait, and those that are still in their runs.
#[verifier::reject_recursive_types(P)]
pub struct Merging<P> {
    pub waiting: Seq<HeapEntry<P>>,
    pub unread: Seq<Seq<HeapEntry<P>>>,
}

/// Whether an entry may come before another one.
pub open spec fn precedes<P>(a: HeapEntry<P>, b: HeapEntry<P>, directions: Seq<bool>) -> bool {
    order::keys_order(spill::entry_key(a), spill::entry_key(b), directions) != Order::Greater
}

/// Whether entries come in order.
pub open spec fn in_order<P>(s: Seq<HeapEntry<P>>, directions: Seq<bool>) -> bool {
    forall|i: int, j: int| 0 <= i < j < s.len() ==> precedes(#[trigger] s[i], #[trigger] s[j], directions)
}

/// Whether an entry of run `r` waits that may come before all that is left of the run.
pub open spec fn is_led<P>(m: Merging<P>, directions: Seq<bool>, r: int) -> bool {
    exists|k: int|
        0 <= k < m.waiting.len() && (#[trigger] m.waiting[k]).run_index == r && precedes(
            m.waiting[k],
            m.unread[r][0],
            directions,
        )
}

/// Whether runs are in the middle of a merge: each run is in order, its entries know it, and where
/// it is not at its end the entry before the next one waits.
pub open spec fn is_merging<P>(m: Merging<P>, directions: Seq<bool>) -> bool {
    &&& forall|k: int| 0 <= k < m.waiting.len() ==> (#[trigger] m.waiting[k]).run_index < m.unread.len()
    &&& forall|r: int| 0 <= r < m.unread.len() ==> in_order(#[trigger] m.unread[r], directions)
    &&& forall|r: int, j: int|
        0 <= r < m.unread.len() && 0 <= j < m.unread[r].len() ==> (#[trigger] m.unread[r][j]).run_index == r
    &&& forall|r: int| 0 <= r < m.unread.len() && m.unread[r].len() > 0 ==> #[trigger] is_led(m, directions, r)
}

/// The merge after the entry at `i` was taken, and the next one of its run waits in its place.
pub open spec fn after_taking<P>(m: Merging<P>, i: int) -> Merging<P> {
    let r = m.waiting[i].run_index as int;
    if m.unread[r].len() > 0 {
        Merging {
            waiting: m.waiting.remove(i).push(m.unread[r][0]),
            unread: m.unread.update(r, m.unread[r].skip(1)),
        }
    } else {
        Merging { waiting: m.waiting.remove(i), unread: m.unread }
    }
}

/// The first `n` entries that a merge gives, each the least of those that wait.
pub open spec fn merged<P>(m: Merging<P>, directions: Seq<bool>, n: nat) -> Seq<HeapEntry<P>>
    decreases n,
{
    if n == 0 || m.waiting.len() == 0 {
        Seq::empty()
    } else {
        let i = choose|i: int| spill::is_least(m.waiting, directions, i);
        seq![m.waiting[i]] + merged(after_taking(m, i), directions, (n - 1) as nat)
    }
}

/// The entries in the runs from `r` on.
pub open spec fn unread_from<P>(unread: Seq<Seq<HeapEntry<P>>>, r: int) -> Multiset<HeapEntry<P>>
    decreases unread.len() - r,
{
    if r >= unread.len() {
        Multiset::empty()
    } else {
        unread[r].to_multiset().add(unread_from(unread, r + 1))
    }
}

/// All entries that are left.
pub open spec fn left<P>(m: Merging<P>) -> Multiset<HeapEntry<P>> {
    m.waiting.to_multiset().add(unread_from(m.unread, 0))
}

/// What may come before what may come before a third entry may come before that one.
proof fn precedes_composes<P>(a: HeapEntry<P>, b: HeapEntry<P>, c: HeapEntry<P>, directions: Seq<bool>)
    requires
        precedes(a, b, directions),
        precedes(b, c, directions),
    ensures
        precedes(a, c, directions),
{
    order::keys_order_composes(spill::entry_key(a), spill::entry_key(b), spill::entry_key(c), directions, 0);
}

/// Of the first `n` entries one is the least, and the first of the least.
proof fn least_of_first<P>(s: Seq<HeapEntry<P>>, directions: Seq<bool>, n: int) -> (i: int)
    requires
        0 < n <= s.len(),
    ensures
        spill::is_least(s.take(n), directions, i),
    decreases n,
{
    let key = |k: int| spill::entry_key(s[k]);
    if n == 1 {
        order::keys_order_reverses(key(0), key(0), directions, 0);
        0
    } else {
        let best = least_of_first(s, directions, n - 1);
        let t = s.take(n - 1);
        let u = s.take(n);
        let last = n - 1;
        order::keys_order_reverses(key(last), key(best), directions, 0);
        order::keys_order_reverses(key(last), key(last), directions, 0);
        assert(forall|j: int| 0 <= j < n - 1 ==> t[j] == u[j]);
        assert forall|j: int| 0 <= j < n - 1 implies order::composes(
            order::keys_order(key(last), key(best), directions),
            order::keys_order(key(best), spill::entry_key(#[trigger] u[j]), directions),
            order::keys_order(key(last), spill::entry_key(u[j]), directions),
        ) by {
            order::keys_order_composes(key(last), key(best), key(j), directions, 0);
        }
        assert(forall|j: int|
            0 <= j < n - 1 ==> order::keys_order(key(best), spill::entry_key(#[trigger] t[j]), directions)
                != Order::Greater);
        if order::keys_order(key(last), key(best), directions) == Order::Less {
            last
        } else {
            best
        }
    }
}

/// Where entries wait, one of them is the least.
proof fn least_exists<P>(s: Seq<HeapEntry<P>>, directions: Seq<bool>)
    requires
        s.len() > 0,
    ensures
        exists|i: int| spill::is_least(s, directions, i),
{
    let i = least_of_first(s, directions, s.len() as int);
    assert(s.take(s.len() as int) =~= s);
    assert(spill::is_least(s, directions, i));
}

/// Only one entry is the least and the first of the least: which entry a merge gives next is
/// determined.
pub proof fn next_entry_is_determined<P>(s: Seq<HeapEntry<P>>, directions: Seq<bool>, i: int, j: int)
    requires
        spill::is_least(s, directions, i),
        spill::is_least(s, directions, j),
    ensures
        i == j,
{
    order::keys_order_reverses(spill::entry_key(s[i]), spill::entry_key(s[j]), directions, 0);
    if i < j {
        assert(order::keys_order(spill::entry_key(s[j]), spill::entry_key(s[i]), directions) == Order::Less);
    } else if j < i {
        assert(order::keys_order(spill::entry_key(s[i]), spill::entry_key(s[j]), directions) == Order::Less);
    }
}

/// The least of the entries that wait may come before all that is left in the runs.
proof fn least_precedes_unread<P>(m: Merging<P>, directions: Seq<bool>, i: int, r: int, j: int)
    requires
        is_merging(m, directions),
        spill::is_least(m.waiting, directions, i),
        0 <= r < m.unread.len(),
        0 <= j < m.unread[r].len(),
    ensures
        precedes(m.waiting[i], m.unread[r][j], directions),
{
    assert(is_led(m, directions, r));
    let k = choose|k: int|
        0 <= k < m.waiting.len() && (#[trigger] m.waiting[k]).run_index == r && precedes(
            m.waiting[k],
            m.unread[r][0],
            directions,
        );
    assert(precedes(m.waiting[i], m.waiting[k], directions));
    precedes_composes(m.waiting[i], m.waiting[k], m.unread[r][0], directions);
    if j > 0 {
        assert(in_order(m.unread[r], directions));
        precedes_composes(m.waiting[i], m.unread[r][0], m.unread[r][j], directions);
    }
}

/// Taking an entry leaves runs in the middle of a merge.
proof fn merging_goes_on<P>(m: Merging<P>, directions: Seq<bool>, i: int)
    requires
        is_merging(m, directions),
        0 <= i < m.waiting.len(),
    ensures
        is_merging(after_taking(m, i), directions),
{
    let n = after_taking(m, i);
    let r0 = m.waiting[i].run_index as int;
    assert forall|k: int| 0 <= k < n.waiting.len() implies (#[trigger] n.waiting[k]).run_index < n.unread.len() by {
        if k < i {
            assert(n.waiting[k] == m.waiting[k]);
        } else if k < m.waiting.len() - 1 {
            assert(n.waiting[k] == m.waiting[k + 1]);
        }
    }
    assert forall|r: int| 0 <= r < n.unread.len() implies in_order(#[trigger] n.unread[r], directions) by {
        assert(in_order(m.unread[r], directions));
        if r == r0 && m.unread[r0].len() > 0 {
            assert(n.unread[r] == m.unread[r].skip(1));
            assert forall|a: int, b: int| 0 <= a < b < n.unread[r].len() implies precedes(
                #[trigger] n.unread[r][a],
                #[trigger] n.unread[r][b],
                directions,
            ) by {
                assert(n.unread[r][a] == m.unread[r][a + 1]);
                assert(n.unread[r][b] == m.unread[r][b + 1]);
            }
        } else {
            assert(n.unread[r] == m.unread[r]);
        }
    }
    assert forall|r: int, j: int| 0 <= r < n.unread.len() && 0 <= j < n.unread[r].len() implies (
    #[trigger] n.unread[r][j]).run_index == r by {
        if r == r0 && m.unread[r0].len() > 0 {
            assert(n.unread[r][j] == m.unread[r][j + 1]);
        } else {
            assert(n.unread[r][j] == m.unread[r][j]);
        }
    }
    assert forall|r: int| 0 <= r < n.unread.len() && n.unread[r].len() > 0 implies #[trigger] is_led(
        n,
        directions,
        r,
    ) by {
        if r == r0 {
            let k = n.waiting.len() - 1;
            assert(m.unread[r0].len() > 0);
            assert(n.waiting[k] == m.unread[r0][0]);
            assert(n.unread[r][0] == m.unread[r0][1]);
            assert(in_order(m.unread[r0], directions));
            assert(precedes(m.unread[r0][0], m.unread[r0][1], directions));
            assert(n.waiting[k].run_index == r);
        } else {
            assert(n.unread[r] == m.unread[r]);
            assert(is_led(m, directions, r));
            let k = choose|k: int|
                0 <= k < m.waiting.len() && (#[trigger] m.waiting[k]).run_index == r && precedes(
                    m.waiting[k],
                    m.unread[r][0],
                    directions,
                );
            if k < i {
                assert(n.waiting[k] == m.waiting[k]);
            } else {
                assert(n.waiting[k - 1] == m.waiting[k]);
            }
        }
    }
}

/// The entries of runs one of which lost its first entry.
proof fn unread_without_first<P>(unread: Seq<Seq<HeapEntry<P>>>, r0: int, r: int)
    requires
        0 <= r0 < unread.len(),
        unread[r0].len() > 0,
        0 <= r <= unread.len(),
    ensures
        r <= r0 ==> unread_from(unread, r) == unread_from(unread.update(r0, unread[r0].skip(1)), r).insert(
            unread[r0][0],
        ),
        r > r0 ==> unread_from(unread, r) == unread_from(unread.update(r0, unread[r0].skip(1)), r),
    decreases unread.len() - r,
{
    broadcast use vstd::multiset::group_multiset_axioms;

    let changed = unread.update(r0, unread[r0].skip(1));
    if r < unread.len() {
        unread_without_first(unread, r0, r + 1);
        if r == r0 {
            let s = unread[r0];
            assert(s.skip(1) =~= s.remove(0));
            s.to_multiset_ensures();
            assert(s.contains(s[0]));
            assert(s.to_multiset() =~= s.skip(1).to_multiset().insert(s[0]));
            assert(unread_from(unread, r) =~= unread_from(changed, r).insert(s[0]));
        } else if r < r0 {
            assert(unread_from(unread, r) =~= unread_from(changed, r).insert(unread[r0][0]));
        }
    }
}

/// Taking an entry takes that entry alone away.
proof fn taking_takes_one<P>(m: Merging<P>, i: int)
    requires
        0 <= i < m.waiting.len(),
        m.waiting[i].run_index < m.unread.len(),
    ensures
        left(m) == left(after_taking(m, i)).insert(m.waiting[i]),
{
    broadcast use vstd::multiset::group_multiset_axioms;

    let r = m.waiting[i].run_index as int;
    let s = m.waiting;
    s.to_multiset_ensures();
    assert(s.contains(s[i]));
    assert(s.to_multiset() =~= s.remove(i).to_multiset().insert(s[i]));
    if m.unread[r].len() > 0 {
        unread_without_first(m.unread, r, 0);
        s.remove(i).to_multiset_ensures();
    }
    assert(left(m) =~= left(after_taking(m, i)).insert(s[i]));
}

/// Runs that no entry waits for are at their ends.
proof fn nothing_waits_at_the_end<P>(m: Merging<P>, directions: Seq<bool>, r: int)
    requires
        is_merging(m, directions),
        m.waiting.len() == 0,
        0 <= r <= m.unread.len(),
    ensures
        unread_from(m.unread, r) == Multiset::<HeapEntry<P>>::empty(),
    decreases m.unread.len() - r,
{
    broadcast use vstd::multiset::group_multiset_axioms;

    if r < m.unread.len() {
        nothing_waits_at_the_end(m, directions, r + 1);
        if m.unread[r].len() > 0 {
            assert(is_led(m, directions, r));
        }
        m.unread[r].to_multiset_ensures();
        assert(m.unread[r] =~= Seq::empty());
        assert(m.unread[r].to_multiset() =~= Multiset::empty());
        assert(unread_from(m.unread, r) =~= Multiset::empty());
    }
}

/// A merge gives entries in order: each may come before all that come after it, and before all
/// that are left.
pub proof fn merges_come_in_order<P>(m: Merging<P>, directions: Seq<bool>, n: nat, e: HeapEntry<P>)
    requires
        is_merging(m, directions),
    ensures
        in_order(merged(m, directions, n), directions),
        (forall|k: int| 0 <= k < m.waiting.len() ==> precedes(e, #[trigger] m.waiting[k], directions)) && (forall|
            r: int,
            j: int,
        |
            0 <= r < m.unread.len() && 0 <= j < m.unread[r].len() ==> precedes(e, #[trigger] m.unread[r][j], directions))
            ==> forall|k: int|
            0 <= k < merged(m, directions, n).len() ==> precedes(e, #[trigger] merged(m, directions, n)[k], directions),
    decreases n,
{
    if n > 0 && m.waiting.len() > 0 {
        least_exists(m.waiting, directions);
        let i = choose|i: int| spill::is_least(m.waiting, directions, i);
        let first = m.waiting[i];
        let next = after_taking(m, i);
        let rest = merged(next, directions, (n - 1) as nat);
        let all = merged(m, directions, n);
        let r0 = first.run_index as int;
        assert(all =~= seq![first] + rest);
        merging_goes_on(m, directions, i);
        // The entry that was taken may come before all that are left.
        merges_come_in_order(next, directions, (n - 1) as nat, first);
        assert forall|k: int| 0 <= k < next.waiting.len() implies precedes(
            first,
            #[trigger] next.waiting[k],
            directions,
        ) by {
            if k < i {
                assert(next.waiting[k] == m.waiting[k]);
            } else if k < m.waiting.len() - 1 {
                assert(next.waiting[k] == m.waiting[k + 1]);
            } else {
                least_precedes_unread(m, directions, i, r0, 0);
            }
        }
        assert forall|r: int, j: int| 0 <= r < next.unread.len() && 0 <= j < next.unread[r].len() implies precedes(
            first,
            #[trigger] next.unread[r][j],
            directions,
        ) by {
            if r == r0 && m.unread[r0].len() > 0 {
                assert(next.unread[r][j] == m.unread[r][j + 1]);
                least_precedes_unread(m, directions, i, r, j + 1);
            } else {
                least_precedes_unread(m, directions, i, r, j);
            }
        }
        assert forall|a: int, b: int| 0 <= a < b < all.len() implies precedes(
            #[trigger] all[a],
            #[trigger] all[b],
            directions,
        ) by {
            if a == 0 {
                assert(all[b] == rest[b - 1]);
            } else {
                assert(all[a] == rest[a - 1] && all[b] == rest[b - 1]);
            }
        }
        // What may come before all that is there may come before what the merge gives.
        merges_come_in_order(next, directions, (n - 1) as nat, e);
        if (forall|k: int| 0 <= k < m.waiting.len() ==> precedes(e, #[trigger] m.waiting[k], directions)) && (forall|
            r: int,
            j: int,
        |
            0 <= r < m.unread.len() && 0 <= j < m.unread[r].len() ==> precedes(e, #[trigger] m.unread[r][j], directions)) {
            assert forall|k: int| 0 <= k < next.waiting.len() implies precedes(
                e,
                #[trigger] next.waiting[k],
                directions,
            ) by {
                if k < i {
                    assert(next.waiting[k] == m.waiting[k]);
                } else if k < m.waiting.len() - 1 {
                    assert(next.waiting[k] == m.waiting[k + 1]);
                } else {
                    assert(next.waiting[k] == m.unread[r0][0]);
                }
            }
            assert forall|r: int, j: int| 0 <= r < next.unread.len() && 0 <= j < next.unread[r].len() implies precedes(
                e,
                #[trigger] next.unread[r][j],
                directions,
            ) by {
                if r == r0 && m.unread[r0].len() > 0 {
                    assert(next.unread[r][j] == m.unread[r][j + 1]);
                } else {
                    assert(next.unread[r][j] == m.unread[r][j]);
                }
            }
            assert forall|k: int| 0 <= k < all.len() implies precedes(e, #[trigger] all[k], directions) by {
                if k > 0 {
                    assert(all[k] == rest[k - 1]);
                }
            }
        }
    }
}

/// A merge gives every entry of the runs, and none twice or from elsewhere.
pub proof fn merges_keep_all_entries<P>(m: Merging<P>, directions: Seq<bool>)
    requires
        is_merging(m, directions),
    ensures
        merged(m, directions, left(m).len()).to_multiset() == left(m),
    decreases left(m).len(),
{
    broadcast use vstd::multiset::group_multiset_axioms;

    if m.waiting.len() == 0 {
        nothing_waits_at_the_end(m, directions, 0);
        m.waiting.to_multiset_ensures();
        assert(m.waiting =~= Seq::empty());
        assert(m.waiting.to_multiset() =~= Multiset::empty());
        assert(left(m) =~= Multiset::empty());
        merged(m, directions, left(m).len()).to_multiset_ensures();
        assert(merged(m, directions, left(m).len()) =~= Seq::empty());
        assert(merged(m, directions, left(m).len()).to_multiset() =~= left(m));
    } else {
        least_exists(m.waiting, directions);
        let i = choose|i: int| spill::is_least(m.waiting, directions, i);
        let first = m.waiting[i];
        let next = after_taking(m, i);
        merging_goes_on(m, directions, i);
        taking_takes_one(m, i);
        assert(left(m).len() == left(next).len() + 1);
        merges_keep_all_entries(next, directions);
        let rest = merged(next, directions, left(next).len());
        assert(merged(m, directions, left(m).len()) =~= seq![first] + rest);
        assert(seq![first] + rest =~= rest.insert(0, first));
        vstd::seq_lib::to_multiset_insert(rest, 0, first);
        assert(merged(m, directions, left(m).len()).to_multiset() =~= left(m));
    }
}

// ---------------------------------------------------------------- the calls of a merge

/// Whether a merge goes from one state to another by a call of `KWayMerge::next` that gives `e` and
/// a call of `KWayMerge::push` with the next entry of the same run, where it has one.
pub open spec fn goes_on<P>(m: Merging<P>, directions: Seq<bool>, e: HeapEntry<P>, n: Merging<P>) -> bool {
    exists|i: int|
        #![trigger m.waiting[i]]
        spill::is_least(m.waiting, directions, i) && e == m.waiting[i] && n == after_taking(m, i)
}

/// A call of `KWayMerge::next`, which takes the least entry out, and a call of `KWayMerge::push`
/// with the next entry of its run, where it has one, carry a merge on.
pub proof fn next_and_push_go_on<P>(m: Merging<P>, directions: Seq<bool>, e: HeapEntry<P>, rest: Seq<HeapEntry<P>>)
    requires
        spill::takes_least(m.waiting, directions, e, rest),
    ensures
        ({
            let r = e.run_index as int;
            goes_on(
                m,
                directions,
                e,
                if m.unread[r].len() > 0 {
                    Merging { waiting: rest.push(m.unread[r][0]), unread: m.unread.update(r, m.unread[r].skip(1)) }
                } else {
                    Merging { waiting: rest, unread: m.unread }
                },
            )
        }),
{
    let i = choose|i: int|
        #![trigger m.waiting[i]]
        spill::is_least(m.waiting, directions, i) && e == m.waiting[i] && rest == m.waiting.remove(i);
    assert(spill::is_least(m.waiting, directions, i) && e == m.waiting[i]);
}

/// What the calls of a merge give is what the merge gives: the calls leave no choice. Where no
/// entry waits any more, that is all there is.
pub proof fn calls_give_the_merge<P>(ms: Seq<Merging<P>>, es: Seq<HeapEntry<P>>, directions: Seq<bool>)
    requires
        ms.len() == es.len() + 1,
        is_merging(ms[0], directions),
        forall|k: int| 0 <= k < es.len() ==> goes_on(ms[k], directions, #[trigger] es[k], ms[k + 1]),
    ensures
        es == merged(ms[0], directions, es.len()),
        is_merging(ms.last(), directions),
        ms.last().waiting.len() == 0 ==> es.to_multiset() == left(ms[0]),
        in_order(es, directions),
    decreases es.len(),
{
    broadcast use vstd::multiset::group_multiset_axioms;

    let m = ms[0];
    if es.len() == 0 {
        assert(es =~= merged(m, directions, 0));
        if m.waiting.len() == 0 {
            nothing_waits_at_the_end(m, directions, 0);
            m.waiting.to_multiset_ensures();
            es.to_multiset_ensures();
            assert(m.waiting =~= Seq::empty());
            assert(es.to_multiset() =~= left(m));
        }
    } else {
        assert(goes_on(m, directions, es[0], ms[1]));
        let i = choose|i: int|
            #![trigger m.waiting[i]]
            spill::is_least(m.waiting, directions, i) && es[0] == m.waiting[i] && ms[1] == after_taking(m, i);
        let j = choose|j: int| spill::is_least(m.waiting, directions, j);
        next_entry_is_determined(m.waiting, directions, i, j);
        merging_goes_on(m, directions, i);
        taking_takes_one(m, i);
        let rest = es.drop_first();
        let after = ms.drop_first();
        assert forall|k: int| 0 <= k < rest.len() implies goes_on(
            after[k],
            directions,
            #[trigger] rest[k],
            after[k + 1],
        ) by {
            assert(rest[k] == es[k + 1]);
        }
        calls_give_the_merge(after, rest, directions);
        assert(es =~= seq![es[0]] + rest);
        assert(after.last() == ms.last());
        assert(es =~= rest.insert(0, es[0]));
        vstd::seq_lib::to_multiset_insert(rest, 0, es[0]);
        if ms.last().waiting.len() == 0 {
            assert(es.to_multiset() =~= left(m));
        }
    }
    merges_come_in_order(m, directions, es.len(), m.waiting[0]);
}

// ---------------------------------------------------------------- runs

/// The entries of a run, each with the position of the run.
pub open spec fn tagged<P>(run: Seq<(Vec<DbValue>, P)>, r: usize) -> Seq<HeapEntry<P>> {
    run.map_values(|x: (Vec<DbValue>, P)| HeapEntry { sort_keys: x.0, payload: x.1, run_index: r })
}

/// Entries without the positions of their runs.
pub open spec fn untagged<P>(s: Seq<HeapEntry<P>>) -> Seq<(Vec<DbValue>, P)> {
    s.map_values(|e: HeapEntry<P>| (e.sort_keys, e.payload))
}

/// Whether a run is sorted.
#[verifier::opaque]
pub open spec fn is_sorted<P>(run: Seq<(Vec<DbValue>, P)>, directions: Seq<bool>) -> bool {
    forall|i: int, j: int|
        0 <= i < j < run.len() ==> order::keys_order(
            value::values_view((#[trigger] run[i]).0@),
            value::values_view((#[trigger] run[j]).0@),
            directions,
        ) != Order::Greater
}

/// Whether all runs are sorted.
pub open spec fn are_sorted<P>(runs: Seq<Seq<(Vec<DbValue>, P)>>, directions: Seq<bool>) -> bool {
    forall|r: int| 0 <= r < runs.len() ==> is_sorted(#[trigger] runs[r], directions)
}

/// The first entries of the runs from `r` on that have one.
pub open spec fn first_entries<P>(runs: Seq<Seq<(Vec<DbValue>, P)>>, r: int) -> Seq<HeapEntry<P>>
    decreases runs.len() - r,
{
    if r < 0 || r >= runs.len() {
        Seq::empty()
    } else if runs[r].len() == 0 {
        first_entries(runs, r + 1)
    } else {
        seq![tagged(runs[r], r as usize)[0]] + first_entries(runs, r + 1)
    }
}

/// The entries of a run but for the first.
pub open spec fn after_first<P>(run: Seq<(Vec<DbValue>, P)>, r: usize) -> Seq<HeapEntry<P>> {
    if run.len() == 0 {
        Seq::empty()
    } else {
        tagged(run, r).skip(1)
    }
}

/// Runs at the start of a merge: the first entry of each waits.
pub open spec fn primed<P>(runs: Seq<Seq<(Vec<DbValue>, P)>>) -> Merging<P> {
    Merging {
        waiting: first_entries(runs, 0),
        unread: Seq::new(runs.len(), |r: int| after_first(runs[r], r as usize)),
    }
}

/// What a merge of runs gives.
pub open spec fn merge_of<P>(runs: Seq<Seq<(Vec<DbValue>, P)>>, directions: Seq<bool>) -> Seq<(Vec<DbValue>, P)> {
    untagged(merged(primed(runs), directions, left(primed(runs)).len()))
}

/// The entries of all runs, run by run.
pub open spec fn entries_of<P>(runs: Seq<Seq<(Vec<DbValue>, P)>>) -> Seq<(Vec<DbValue>, P)>
    decreases runs.len(),
{
    if runs.len() == 0 {
        Seq::empty()
    } else {
        runs[0] + entries_of(runs.drop_first())
    }
}

/// The same entries have the same values.
pub proof fn mapped_multisets<A, B>(s: Seq<A>, t: Seq<A>, f: spec_fn(A) -> B)
    requires
        s.to_multiset() == t.to_multiset(),
    ensures
        s.map_values(f).to_multiset() == t.map_values(f).to_multiset(),
    decreases s.len(),
{
    broadcast use vstd::multiset::group_multiset_axioms;

    s.to_multiset_ensures();
    t.to_multiset_ensures();
    if s.len() == 0 {
        assert(s.map_values(f) =~= t.map_values(f));
    } else {
        let a = s.last();
        let shorter = s.drop_last();
        assert(s.contains(a));
        assert(s.to_multiset().count(a) > 0);
        assert(t.to_multiset().count(a) > 0);
        assert(t.contains(a));
        let j = choose|j: int| 0 <= j < t.len() && t[j] == a;
        let other = t.remove(j);
        vstd::seq_lib::to_multiset_build(shorter, a);
        assert(s =~= shorter.push(a));
        vstd::seq_lib::to_multiset_remove(t, j);
        assert(shorter.to_multiset() =~= other.to_multiset());
        mapped_multisets(shorter, other, f);
        assert(s.map_values(f) =~= shorter.map_values(f).push(f(a)));
        vstd::seq_lib::to_multiset_build(shorter.map_values(f), f(a));
        let u = t.map_values(f);
        assert(u.remove(j) =~= other.map_values(f));
        u.to_multiset_ensures();
        assert(u.contains(u[j]));
        assert(u.to_multiset() =~= u.remove(j).to_multiset().insert(f(a)));
    }
}

/// The entries of the runs from `r` on, each with the position of its run.
spec fn tagged_from<P>(runs: Seq<Seq<(Vec<DbValue>, P)>>, r: int) -> Seq<HeapEntry<P>>
    decreases runs.len() - r,
{
    if r < 0 || r >= runs.len() {
        Seq::empty()
    } else {
        tagged(runs[r], r as usize) + tagged_from(runs, r + 1)
    }
}

/// The entries with and without the positions of their runs.
proof fn untagged_entries<P>(runs: Seq<Seq<(Vec<DbValue>, P)>>, r: int)
    requires
        0 <= r <= runs.len(),
    ensures
        untagged(tagged_from(runs, r)) == entries_of(runs.skip(r)),
    decreases runs.len() - r,
{
    if r < runs.len() {
        untagged_entries(runs, r + 1);
        assert(runs.skip(r).drop_first() =~= runs.skip(r + 1));
        assert(untagged(tagged(runs[r], r as usize)) =~= runs[r]);
        assert(untagged(tagged_from(runs, r)) =~= runs[r] + untagged(tagged_from(runs, r + 1)));
    } else {
        assert(runs.skip(r).len() == 0);
        assert(untagged(tagged_from(runs, r)) =~= Seq::empty());
    }
}

/// What waits at the start and what is left in the runs are all entries.
proof fn primed_holds_all<P>(runs: Seq<Seq<(Vec<DbValue>, P)>>, r: int)
    requires
        0 <= r <= runs.len(),
    ensures
        first_entries(runs, r).to_multiset().add(unread_from(primed(runs).unread, r)) == tagged_from(
            runs,
            r,
        ).to_multiset(),
    decreases runs.len() - r,
{
    broadcast use vstd::multiset::group_multiset_axioms;

    let unread = primed(runs).unread;
    if r < runs.len() {
        primed_holds_all(runs, r + 1);
        let all = tagged(runs[r], r as usize);
        vstd::seq_lib::lemma_multiset_commutative(all, tagged_from(runs, r + 1));
        if runs[r].len() == 0 {
            assert(unread[r] =~= Seq::empty());
            assert(all =~= Seq::empty());
            all.to_multiset_ensures();
        } else {
            vstd::seq_lib::lemma_multiset_commutative(seq![all[0]], first_entries(runs, r + 1));
            vstd::seq_lib::lemma_multiset_commutative(seq![all[0]], all.skip(1));
            assert(all =~= seq![all[0]] + all.skip(1));
        }
        assert(first_entries(runs, r).to_multiset().add(unread_from(unread, r)) =~= tagged_from(
            runs,
            r,
        ).to_multiset());
    } else {
        let none = Seq::<HeapEntry<P>>::empty();
        none.to_multiset_ensures();
        assert(first_entries(runs, r).to_multiset().add(unread_from(unread, r)) =~= none.to_multiset());
    }
}

/// The first entry of a run waits at the start.
proof fn first_waits<P>(runs: Seq<Seq<(Vec<DbValue>, P)>>, from: int, r: int) -> (k: int)
    requires
        0 <= from <= r < runs.len(),
        runs[r].len() > 0,
    ensures
        0 <= k < first_entries(runs, from).len(),
        first_entries(runs, from)[k] == tagged(runs[r], r as usize)[0],
    decreases r - from,
{
    if from == r {
        0
    } else {
        let k = first_waits(runs, from + 1, r);
        if runs[from].len() == 0 {
            k
        } else {
            k + 1
        }
    }
}

/// The entries that wait at the start know their runs.
proof fn first_entries_know_their_runs<P>(runs: Seq<Seq<(Vec<DbValue>, P)>>, from: int)
    requires
        0 <= from <= runs.len(),
        runs.len() <= usize::MAX,
    ensures
        forall|k: int|
            0 <= k < first_entries(runs, from).len() ==> (#[trigger] first_entries(runs, from)[k]).run_index < runs.len(),
    decreases runs.len() - from,
{
    if from < runs.len() {
        first_entries_know_their_runs(runs, from + 1);
        let rest = first_entries(runs, from + 1);
        let all = first_entries(runs, from);
        if runs[from].len() > 0 {
            assert forall|k: int| 0 <= k < all.len() implies (#[trigger] all[k]).run_index < runs.len() by {
                if k > 0 {
                    assert(all[k] == rest[k - 1]);
                }
            }
        }
    }
}

/// Sorted runs at the start are in the middle of a merge.
proof fn primed_is_merging<P>(runs: Seq<Seq<(Vec<DbValue>, P)>>, directions: Seq<bool>)
    requires
        are_sorted(runs, directions),
        runs.len() <= usize::MAX,
    ensures
        is_merging(primed(runs), directions),
{
    reveal(is_sorted);
    let m = primed(runs);
    first_entries_know_their_runs(runs, 0);
    assert forall|r: int| 0 <= r < m.unread.len() implies in_order(#[trigger] m.unread[r], directions) by {
        assert(is_sorted(runs[r], directions));
        let s = m.unread[r];
        assert forall|a: int, b: int| 0 <= a < b < s.len() implies precedes(
            #[trigger] s[a],
            #[trigger] s[b],
            directions,
        ) by {
            assert(s[a] == tagged(runs[r], r as usize)[a + 1]);
            assert(s[b] == tagged(runs[r], r as usize)[b + 1]);
            assert(s[a].sort_keys == runs[r][a + 1].0 && s[b].sort_keys == runs[r][b + 1].0);
        }
    }
    assert forall|r: int, j: int| 0 <= r < m.unread.len() && 0 <= j < m.unread[r].len() implies (
    #[trigger] m.unread[r][j]).run_index == r by {
        assert(m.unread[r][j] == tagged(runs[r], r as usize)[j + 1]);
    }
    assert forall|r: int| 0 <= r < m.unread.len() && m.unread[r].len() > 0 implies #[trigger] is_led(
        m,
        directions,
        r,
    ) by {
        let k = first_waits(runs, 0, r);
        assert(is_sorted(runs[r], directions));
        assert(m.unread[r][0] == tagged(runs[r], r as usize)[1]);
        assert(m.waiting[k].sort_keys == runs[r][0].0 && m.unread[r][0].sort_keys == runs[r][1].0);
        assert(m.waiting[k].run_index == r);
        assert(precedes(m.waiting[k], m.unread[r][0], directions));
    }
}

/// A merge of sorted runs gives all entries of the runs, each as often as it is there, in order.
pub proof fn merging_sorts_all_entries<P>(runs: Seq<Seq<(Vec<DbValue>, P)>>, directions: Seq<bool>)
    requires
        are_sorted(runs, directions),
        runs.len() <= usize::MAX,
    ensures
        is_sorted(merge_of(runs, directions), directions),
        merge_of(runs, directions).to_multiset() == entries_of(runs).to_multiset(),
{
    reveal(is_sorted);
    let m = primed(runs);
    let all = merged(m, directions, left(m).len());
    primed_is_merging(runs, directions);
    primed_holds_all(runs, 0);
    merges_keep_all_entries(m, directions);
    mapped_multisets(all, tagged_from(runs, 0), |e: HeapEntry<P>| (e.sort_keys, e.payload));
    untagged_entries(runs, 0);
    assert(runs.skip(0) =~= runs);
    merges_come_in_order(m, directions, left(m).len(), m.waiting[0]);
    let given = merge_of(runs, directions);
    assert forall|i: int, j: int| 0 <= i < j < given.len() implies order::keys_order(
        value::values_view((#[trigger] given[i]).0@),
        value::values_view((#[trigger] given[j]).0@),
        directions,
    ) != Order::Greater by {
        assert(precedes(all[i], all[j], directions));
    }
}

/// The calls of a merge on sorted runs give all their entries in order: `ms` are the states that
/// the calls go through, from the runs at their starts until no entry waits, and `es` is what
/// `KWayMerge::next` gives.
pub proof fn calls_sort_all_entries<P>(
    runs: Seq<Seq<(Vec<DbValue>, P)>>,
    ms: Seq<Merging<P>>,
    es: Seq<HeapEntry<P>>,
    directions: Seq<bool>,
)
    requires
        are_sorted(runs, directions),
        runs.len() <= usize::MAX,
        ms.len() == es.len() + 1,
        ms[0] == primed(runs),
        forall|k: int| 0 <= k < es.len() ==> goes_on(ms[k], directions, #[trigger] es[k], ms[k + 1]),
        ms.last().waiting.len() == 0,
    ensures
        is_sorted(untagged(es), directions),
        untagged(es).to_multiset() == entries_of(runs).to_multiset(),
        untagged(es) == merge_of(runs, directions),
{
    broadcast use vstd::multiset::group_multiset_axioms;

    primed_is_merging(runs, directions);
    calls_give_the_merge(ms, es, directions);
    es.to_multiset_ensures();
    assert(es.len() == left(primed(runs)).len());
    merging_sorts_all_entries(runs, directions);
}

// ---------------------------------------------------------------- passes

/// What one pass makes of a group of runs: a lone run stays as it is.
pub open spec fn group_of<P>(runs: Seq<Seq<(Vec<DbValue>, P)>>, directions: Seq<bool>) -> Seq<(Vec<DbValue>, P)> {
    if runs.len() == 1 {
        runs[0]
    } else {
        merge_of(runs, directions)
    }
}

/// The runs that one pass leaves: full groups in turn, and what remains.
pub open spec fn one_pass<P>(runs: Seq<Seq<(Vec<DbValue>, P)>>, directions: Seq<bool>) -> Seq<Seq<(Vec<DbValue>, P)>>
    decreases runs.len(),
{
    if runs.len() == 0 {
        Seq::empty()
    } else if runs.len() <= spill::MAX_FANIN {
        seq![group_of(runs, directions)]
    } else {
        seq![group_of(runs.take(spill::MAX_FANIN as int), directions)] + one_pass(
            runs.skip(spill::MAX_FANIN as int),
            directions,
        )
    }
}

/// A pass leaves fewer runs.
pub proof fn pass_shortens<P>(runs: Seq<Seq<(Vec<DbValue>, P)>>, directions: Seq<bool>)
    ensures
        runs.len() > 1 ==> one_pass(runs, directions).len() < runs.len(),
        one_pass(runs, directions).len() <= runs.len(),
    decreases runs.len(),
{
    if runs.len() > spill::MAX_FANIN {
        pass_shortens(runs.skip(spill::MAX_FANIN as int), directions);
    }
}

/// What a merge of any number of runs gives: passes until few enough are left for one merge.
pub open spec fn merged_in_passes<P>(runs: Seq<Seq<(Vec<DbValue>, P)>>, directions: Seq<bool>) -> Seq<
    (Vec<DbValue>, P),
>
    decreases runs.len(),
{
    if runs.len() <= spill::MAX_FANIN {
        merge_of(runs, directions)
    } else {
        proof {
            pass_shortens(runs, directions);
        }
        merged_in_passes(one_pass(runs, directions), directions)
    }
}

proof fn entries_of_both<P>(a: Seq<Seq<(Vec<DbValue>, P)>>, b: Seq<Seq<(Vec<DbValue>, P)>>)
    ensures
        entries_of(a + b) == entries_of(a) + entries_of(b),
    decreases a.len(),
{
    if a.len() == 0 {
        assert(a + b =~= b);
        assert(entries_of(a) + entries_of(b) =~= entries_of(b));
    } else {
        assert((a + b).drop_first() =~= a.drop_first() + b);
        entries_of_both(a.drop_first(), b);
        assert(entries_of(a + b) =~= entries_of(a) + entries_of(b));
    }
}

/// The entries of one run are all there are.
proof fn entries_of_one<P>(run: Seq<(Vec<DbValue>, P)>)
    ensures
        entries_of(seq![run]) == run,
{
    let runs = seq![run];
    assert(runs.drop_first() =~= Seq::empty());
    assert(entries_of(runs.drop_first()) =~= Seq::empty());
    assert(entries_of(runs) =~= run);
}

/// The entries of a run and of others after it.
proof fn entries_of_first<P>(run: Seq<(Vec<DbValue>, P)>, others: Seq<Seq<(Vec<DbValue>, P)>>)
    ensures
        entries_of(seq![run] + others) == run + entries_of(others),
{
    entries_of_both(seq![run], others);
    entries_of_one(run);
}

proof fn group_sorts<P>(runs: Seq<Seq<(Vec<DbValue>, P)>>, directions: Seq<bool>)
    requires
        are_sorted(runs, directions),
        0 < runs.len() <= usize::MAX,
    ensures
        is_sorted(group_of(runs, directions), directions),
        group_of(runs, directions).to_multiset() == entries_of(runs).to_multiset(),
{
    if runs.len() == 1 {
        assert(runs =~= seq![runs[0]]);
        entries_of_one(runs[0]);
    } else {
        merging_sorts_all_entries(runs, directions);
    }
}

/// The first group of a pass, and the others, are sorted.
proof fn parts_are_sorted<P>(runs: Seq<Seq<(Vec<DbValue>, P)>>, n: int, directions: Seq<bool>)
    requires
        are_sorted(runs, directions),
        0 <= n <= runs.len(),
    ensures
        are_sorted(runs.take(n), directions),
        are_sorted(runs.skip(n), directions),
{
    assert forall|r: int| 0 <= r < n implies is_sorted(#[trigger] runs.take(n)[r], directions) by {
        assert(runs.take(n)[r] == runs[r]);
    }
    assert forall|r: int| 0 <= r < runs.len() - n implies is_sorted(#[trigger] runs.skip(n)[r], directions) by {
        assert(runs.skip(n)[r] == runs[r + n]);
    }
}

/// A pass leaves sorted runs with the same entries.
proof fn pass_keeps_entries<P>(runs: Seq<Seq<(Vec<DbValue>, P)>>, directions: Seq<bool>)
    requires
        are_sorted(runs, directions),
        runs.len() <= usize::MAX,
    ensures
        are_sorted(one_pass(runs, directions), directions),
        entries_of(one_pass(runs, directions)).to_multiset() == entries_of(runs).to_multiset(),
    decreases runs.len(),
{
    let n = spill::MAX_FANIN as int;
    if runs.len() == 0 {
    } else if runs.len() <= n {
        group_sorts(runs, directions);
        entries_of_one(group_of(runs, directions));
    } else {
        let first = runs.take(n);
        let rest = runs.skip(n);
        let g = group_of(first, directions);
        let after = one_pass(rest, directions);
        let all = one_pass(runs, directions);
        parts_are_sorted(runs, n, directions);
        group_sorts(first, directions);
        pass_keeps_entries(rest, directions);
        assert(all == seq![g] + after);
        assert(entries_of(all).to_multiset() == entries_of(runs).to_multiset()) by {
            assert(runs =~= first + rest);
            entries_of_both(first, rest);
            entries_of_first(g, after);
            vstd::seq_lib::lemma_multiset_commutative(g, entries_of(after));
            vstd::seq_lib::lemma_multiset_commutative(entries_of(first), entries_of(rest));
        }
        assert forall|r: int| 0 <= r < all.len() implies is_sorted(#[trigger] all[r], directions) by {
            if r > 0 {
                assert(all[r] == after[r - 1]);
            }
        }
    }
}

/// The groups of a pass are those of `spill::merge_groups`.
pub proof fn passes_merge_the_groups<P>(
    runs: Seq<Seq<(Vec<DbValue>, P)>>,
    directions: Seq<bool>,
    groups: Seq<spill::MergeGroup>,
    i: int,
)
    requires
        spill::groups_of(groups, runs.len() as int),
        0 <= i < groups.len(),
    ensures
        one_pass(runs, directions).len() == groups.len(),
        one_pass(runs, directions)[i] == group_of(
            runs.subrange(groups[i].from as int, groups[i].to as int),
            directions,
        ),
    decreases runs.len(),
{
    let n = spill::MAX_FANIN as int;
    if runs.len() <= n {
        assert(runs.subrange(0, runs.len() as int) =~= runs);
    } else {
        let rest = runs.skip(n);
        let others = Seq::new(
            (groups.len() - 1) as nat,
            |k: int| spill::MergeGroup {
                from: (groups[k + 1].from - n) as usize,
                to: (groups[k + 1].to - n) as usize,
            },
        );
        assert(spill::groups_of(others, rest.len() as int)) by {
            assert forall|k: int| 0 <= k < others.len() implies (#[trigger] others[k]).from == k * n && others[k].to == (
            if (k + 1) * n <= rest.len() {
                (k + 1) * n
            } else {
                rest.len() as int
            }) by {
                let g = groups[k + 1];
                assert(g.from == (k + 1) * n);
            }
        }
        if i > 0 {
            passes_merge_the_groups(rest, directions, others, i - 1);
            assert(runs.subrange(groups[i].from as int, groups[i].to as int) =~= rest.subrange(
                others[i - 1].from as int,
                others[i - 1].to as int,
            ));
        } else {
            passes_merge_the_groups(rest, directions, others, 0);
            assert(runs.subrange(groups[0].from as int, groups[0].to as int) =~= runs.take(n));
        }
    }
}

/// A merge of any number of sorted runs, in as many passes as it takes, gives all their entries,
/// each as often as it is there, in order.
pub proof fn passes_sort_all_entries<P>(runs: Seq<Seq<(Vec<DbValue>, P)>>, directions: Seq<bool>)
    requires
        are_sorted(runs, directions),
        runs.len() <= usize::MAX,
    ensures
        is_sorted(merged_in_passes(runs, directions), directions),
        merged_in_passes(runs, directions).to_multiset() == entries_of(runs).to_multiset(),
    decreases runs.len(),
{
    if runs.len() <= spill::MAX_FANIN {
        merging_sorts_all_entries(runs, directions);
    } else {
        pass_shortens(runs, directions);
        pass_keeps_entries(runs, directions);
        passes_sort_all_entries(one_pass(runs, directions), directions);
    }
}

// ---------------------------------------------------------------- written runs

/// The entries of runs of records, by what a record stands for.
pub open spec fn runs_of<P>(
    written: Seq<Seq<(Seq<u8>, Seq<u8>)>>,
    decode: spec_fn((Seq<u8>, Seq<u8>)) -> (Vec<DbValue>, P),
) -> Seq<Seq<(Vec<DbValue>, P)>> {
    written.map_values(|records: Seq<(Seq<u8>, Seq<u8>)>| records.map_values(decode))
}

/// The entries of a run that is read from its bytes, where they are whole.
pub open spec fn read_run<P>(
    bytes: Seq<u8>,
    decode: spec_fn((Seq<u8>, Seq<u8>)) -> (Vec<DbValue>, P),
) -> Option<Seq<(Vec<DbValue>, P)>> {
    if bytes.len() < 8 {
        None
    } else {
        match spill::records_of(bytes.skip(8), spill::le_value(bytes.take(8)) as nat) {
            None => None,
            Some(records) => Some(records.map_values(decode)),
        }
    }
}

/// Runs that were written sorted are read back and merged into all their entries, each as often
/// as it was written, in order, whatever decodes the records.
pub proof fn written_runs_are_sorted<P>(
    written: Seq<Seq<(Seq<u8>, Seq<u8>)>>,
    decode: spec_fn((Seq<u8>, Seq<u8>)) -> (Vec<DbValue>, P),
    directions: Seq<bool>,
)
    requires
        written.len() <= usize::MAX,
        forall|r: int|
            0 <= r < written.len() ==> spill::fit_frames(#[trigger] written[r]) && written[r].len() <= u64::MAX,
        are_sorted(runs_of(written, decode), directions),
    ensures
        forall|r: int|
            0 <= r < written.len() ==> read_run(spill::run_bytes(#[trigger] written[r]), decode) == Some(
                runs_of(written, decode)[r],
            ),
        is_sorted(merged_in_passes(runs_of(written, decode), directions), directions),
        merged_in_passes(runs_of(written, decode), directions).to_multiset() == entries_of(
            runs_of(written, decode),
        ).to_multiset(),
{
    assert forall|r: int| 0 <= r < written.len() implies read_run(spill::run_bytes(#[trigger] written[r]), decode)
        == Some(runs_of(written, decode)[r]) by {
        let records = written[r];
        spill::count_is_read_back(records.len() as u64, spill::frames(records));
        spill::records_are_read_back(records);
        reveal_with_fuel(spill::pow256, 9);
        spill::bytes_stand_for_number(records.len() as int, 8);
    }
    passes_sort_all_entries(runs_of(written, decode), directions);
}

// ---------------------------------------------------------------- runs in memory

/// The entries of runs in memory.
pub open spec fn queues<P>(runs: Seq<VecDeque<(Vec<DbValue>, P)>>) -> Seq<Seq<(Vec<DbValue>, P)>> {
    runs.map_values(|q: VecDeque<(Vec<DbValue>, P)>| q@)
}

/// Whether the keys of a run have `n` columns at least.
pub open spec fn is_wide<P>(run: Seq<(Vec<DbValue>, P)>, n: nat) -> bool {
    forall|i: int| 0 <= i < run.len() ==> n <= (#[trigger] run[i]).0@.len()
}

/// Whether the keys of all runs have `n` columns at least.
pub open spec fn are_wide<P>(runs: Seq<Seq<(Vec<DbValue>, P)>>, n: nat) -> bool {
    forall|r: int| 0 <= r < runs.len() ==> is_wide(#[trigger] runs[r], n)
}

/// The directions of a merge, once more.
fn same_directions(directions: &Vec<bool>) -> (out: Vec<bool>)
    ensures
        out@ == directions@,
{
    let mut out: Vec<bool> = Vec::new();
    for i in 0..directions.len()
        invariant
            out@ == directions@.take(i as int),
    {
        out.push(directions[i]);
        assert(out@ =~= directions@.take(i + 1));
    }
    assert(directions@.take(directions@.len() as int) =~= directions@);
    out
}

/// Starts a merge: takes the first entry of each run out, and lets it wait.
fn prime<P>(runs: &mut Vec<VecDeque<(Vec<DbValue>, P)>>, directions: &Vec<bool>) -> (out: KWayMerge<P>)
    requires
        are_wide(queues(old(runs)@), directions@.len()),
    ensures
        out.well_formed(),
        out.order() == directions@,
        out@ == primed(queues(old(runs)@)).waiting,
        final(runs)@.len() == old(runs)@.len(),
        forall|r: int| 0 <= r < final(runs)@.len() ==> is_wide((#[trigger] final(runs)@[r])@, directions@.len()),
        forall|r: int|
            0 <= r < final(runs)@.len() ==> tagged((#[trigger] final(runs)@[r])@, r as usize) == primed(
                queues(old(runs)@),
            ).unread[r],
{
    let ghost start = queues(runs@);
    let mut out: KWayMerge<P> = KWayMerge::new(same_directions(directions));
    let mut r: usize = 0;
    assert(out@ + first_entries(start, 0) =~= first_entries(start, 0));
    assert forall|k: int| 0 <= k < runs@.len() implies is_wide((#[trigger] runs@[k])@, directions@.len()) by {
        assert(is_wide(start[k], directions@.len()));
    }
    while r < runs.len()
        invariant
            r <= runs@.len(),
            start.len() == runs@.len(),
            out.well_formed(),
            out.order() == directions@,
            out@ + first_entries(start, r as int) == first_entries(start, 0),
            are_wide(start, directions@.len()),
            forall|k: int| 0 <= k < r ==> tagged((#[trigger] runs@[k])@, k as usize) == after_first(start[k], k as usize),
            forall|k: int| 0 <= k < runs@.len() ==> is_wide((#[trigger] runs@[k])@, directions@.len()),
            forall|k: int| r <= k < runs@.len() ==> (#[trigger] runs@[k])@ == start[k],
        decreases runs@.len() - r,
    {
        let ghost before = runs@;
        let ghost waiting = out@;
        assert(before[r as int]@ == start[r as int]);
        assert(is_wide(start[r as int], directions@.len()));
        match runs[r].pop_front() {
            Some((keys, payload)) => {
                proof {
                    let run = start[r as int];
                    assert(keys == run[0].0 && payload == run[0].1);
                    assert(runs@[r as int]@ == run.subrange(1, run.len() as int));
                    assert(tagged(runs@[r as int]@, r) =~= after_first(run, r));
                    assert(tagged(run, r)[0] == (HeapEntry { sort_keys: keys, payload, run_index: r }));
                }
                out.push(keys, payload, r);
                assert(out@ + first_entries(start, r + 1) =~= waiting + first_entries(start, r as int));
            },
            None => {
                assert(tagged(runs@[r as int]@, r) =~= after_first(start[r as int], r));
            },
        }
        assert forall|k: int| 0 <= k < runs@.len() && k != r implies (#[trigger] runs@[k]) == before[k] by {}
        r += 1;
    }
    assert(out@ =~= first_entries(start, 0));
    out
}

/// Merges sorted runs in memory at once: takes the least of the waiting entries out, and lets the
/// next one of its run wait, until none is left.
fn merge_at_once<P>(runs: Vec<VecDeque<(Vec<DbValue>, P)>>, directions: &Vec<bool>) -> (out: VecDeque<
    (Vec<DbValue>, P),
>)
    requires
        are_sorted(queues(runs@), directions@),
        are_wide(queues(runs@), directions@.len()),
    ensures
        out@ == merge_of(queues(runs@), directions@),
{
    let ghost start = queues(runs@);
    let mut runs = runs;
    let mut out: VecDeque<(Vec<DbValue>, P)> = VecDeque::new();
    let count: usize = runs.len();
    let mut waiting = prime(&mut runs, directions);
    let ghost mut ms: Seq<Merging<P>> = seq![primed(start)];
    let ghost mut es: Seq<HeapEntry<P>> = Seq::empty();
    proof {
        primed_is_merging(start, directions@);
        assert(out@ =~= untagged(es));
    }
    loop
        invariant
            are_sorted(start, directions@),
            start.len() == runs@.len(),
            start.len() == count,
            waiting.well_formed(),
            waiting.order() == directions@,
            forall|k: int| 0 <= k < runs@.len() ==> is_wide((#[trigger] runs@[k])@, directions@.len()),
            ms.len() == es.len() + 1,
            ms[0] == primed(start),
            forall|k: int| 0 <= k < es.len() ==> goes_on(ms[k], directions@, #[trigger] es[k], ms[k + 1]),
            is_merging(ms.last(), directions@),
            ms.last().waiting == waiting@,
            ms.last().unread.len() == runs@.len(),
            forall|k: int| 0 <= k < runs@.len() ==> tagged((#[trigger] runs@[k])@, k as usize) == ms.last().unread[k],
            out@ == untagged(es),
        ensures
            waiting@.len() == 0,
        decreases left(ms.last()).len(),
    {
        let ghost m = ms.last();
        let ghost before = runs@;
        match waiting.next() {
            None => {
                break;
            },
            Some(e) => {
                let ghost given = e;
                let ghost rest = waiting@;
                let ghost i = choose|i: int|
                    #![trigger m.waiting[i]]
                    spill::is_least(m.waiting, directions@, i) && e == m.waiting[i] && rest == m.waiting.remove(i);
                let at: usize = e.run_index;
                proof {
                    next_and_push_go_on(m, directions@, e, rest);
                    merging_goes_on(m, directions@, i);
                    taking_takes_one(m, i);
                    assert(tagged(before[at as int]@, at) == m.unread[at as int]);
                }
                out.push_back((e.sort_keys, e.payload));
                match runs[at].pop_front() {
                    Some((keys, payload)) => {
                        proof {
                            let run = before[at as int]@;
                            assert(is_wide(run, directions@.len()));
                            assert(keys == run[0].0 && payload == run[0].1);
                            assert(m.unread[at as int][0] == (HeapEntry { sort_keys: keys, payload, run_index: at }));
                            assert(tagged(runs@[at as int]@, at) =~= m.unread[at as int].skip(1));
                        }
                        waiting.push(keys, payload, at);
                    },
                    None => {
                        assert(tagged(runs@[at as int]@, at) =~= m.unread[at as int]);
                    },
                }
                proof {
                    assert(forall|k: int| 0 <= k < runs@.len() && k != at ==> (#[trigger] runs@[k]) == before[k]);
                    let n = after_taking(m, i);
                    assert(n.waiting =~= waiting@);
                    assert(goes_on(m, directions@, given, n));
                    let ms0 = ms;
                    let es0 = es;
                    ms = ms.push(n);
                    es = es.push(given);
                    assert forall|k: int| 0 <= k < es.len() implies goes_on(
                        ms[k],
                        directions@,
                        #[trigger] es[k],
                        ms[k + 1],
                    ) by {
                        if k < es0.len() {
                            assert(es[k] == es0[k] && ms[k] == ms0[k] && ms[k + 1] == ms0[k + 1]);
                        }
                    }
                    assert(out@ =~= untagged(es));
                    assert(left(m).len() == left(n).len() + 1);
                }
            },
        }
    }
    proof {
        calls_sort_all_entries(start, ms, es, directions@);
    }
    out
}

/// The entries that one pass makes of sorted runs in memory.
fn pass<P>(runs: Vec<VecDeque<(Vec<DbValue>, P)>>, directions: &Vec<bool>, groups: &Vec<spill::MergeGroup>) -> (out: Vec<
    VecDeque<(Vec<DbValue>, P)>,
>)
    requires
        spill::groups_of(groups@, runs@.len() as int),
        runs@.len() > 1,
        are_sorted(queues(runs@), directions@),
        are_wide(queues(runs@), directions@.len()),
    ensures
        queues(out@) == one_pass(queues(runs@), directions@),
{
    let ghost start = runs@;
    let ghost all = queues(start);
    let mut rest = runs;
    let mut out: Vec<VecDeque<(Vec<DbValue>, P)>> = Vec::new();
    assert(start.skip(0) =~= start);
    for i in 0..groups.len()
        invariant
            all == queues(start),
            start.len() > 1,
            spill::groups_of(groups@, start.len() as int),
            are_sorted(all, directions@),
            are_wide(all, directions@.len()),
            i < groups@.len() ==> rest@ == start.skip(groups@[i as int].from as int),
            out@.len() == i,
            forall|k: int| 0 <= k < i ==> (#[trigger] out@[k])@ == one_pass(all, directions@)[k],
    {
        let g = groups[i];
        let ghost chunk_of = start.subrange(g.from as int, g.to as int);
        proof {
            passes_merge_the_groups(all, directions@, groups@, i as int);
            spill::passes_end(groups@, start.len() as int);
        }
        let tail = rest.split_off(g.to - g.from);
        let mut chunk = rest;
        rest = tail;
        proof {
            assert(chunk@ =~= chunk_of);
            assert(queues(chunk@) =~= all.subrange(g.from as int, g.to as int));
            assert forall|r: int| 0 <= r < queues(chunk@).len() implies is_sorted(
                #[trigger] queues(chunk@)[r],
                directions@,
            ) && is_wide(queues(chunk@)[r], directions@.len()) by {
                assert(queues(chunk@)[r] == all[g.from + r]);
            }
            if i + 1 < groups@.len() {
                assert(rest@ =~= start.skip(groups@[i + 1].from as int));
            }
        }
        let ghost before = out@;
        if g.is_lone() {
            if let Some(run) = chunk.pop() {
                out.push(run);
            }
        } else {
            out.push(merge_at_once(chunk, directions));
        }
        assert(forall|k: int| 0 <= k < i ==> (#[trigger] out@[k]) == before[k]);
    }
    proof {
        passes_merge_the_groups(all, directions@, groups@, 0);
        assert(queues(out@) =~= one_pass(all, directions@));
    }
    out
}

/// The keys of all runs are as wide as those of all entries.
proof fn widths_of_entries<P>(runs: Seq<Seq<(Vec<DbValue>, P)>>, n: nat)
    ensures
        are_wide(runs, n) == is_wide(entries_of(runs), n),
    decreases runs.len(),
{
    if runs.len() > 0 {
        let first = runs[0];
        let rest = runs.drop_first();
        let all = entries_of(runs);
        widths_of_entries(rest, n);
        assert(all == first + entries_of(rest));
        if are_wide(runs, n) {
            assert forall|r: int| 0 <= r < rest.len() implies is_wide(#[trigger] rest[r], n) by {
                assert(rest[r] == runs[r + 1]);
            }
            assert(is_wide(first, n));
        }
        if is_wide(all, n) {
            assert forall|i: int| 0 <= i < first.len() implies n <= (#[trigger] first[i]).0@.len() by {
                assert(all[i] == first[i]);
            }
            assert forall|i: int| 0 <= i < entries_of(rest).len() implies n <= (#[trigger] entries_of(rest)[i]).0@.len() by {
                assert(all[first.len() + i] == entries_of(rest)[i]);
            }
            assert forall|r: int| 0 <= r < runs.len() implies is_wide(#[trigger] runs[r], n) by {
                if r > 0 {
                    assert(runs[r] == rest[r - 1]);
                }
            }
        }
    }
}

/// A pass leaves keys as wide as they were.
proof fn pass_keeps_widths<P>(runs: Seq<Seq<(Vec<DbValue>, P)>>, directions: Seq<bool>, n: nat)
    requires
        are_sorted(runs, directions),
        runs.len() <= usize::MAX,
        are_wide(runs, n),
    ensures
        are_wide(one_pass(runs, directions), n),
{
    let s = entries_of(runs);
    let t = entries_of(one_pass(runs, directions));
    pass_keeps_entries(runs, directions);
    widths_of_entries(runs, n);
    widths_of_entries(one_pass(runs, directions), n);
    s.to_multiset_ensures();
    t.to_multiset_ensures();
    assert forall|i: int| 0 <= i < t.len() implies n <= (#[trigger] t[i]).0@.len() by {
        assert(t.contains(t[i]));
        assert(t.to_multiset().count(t[i]) > 0);
        assert(s.contains(t[i]));
    }
}

/// Merges sorted runs in memory, in passes where they are too many for one merge. All their entries
/// come out, each as often as it is there, in order.
pub fn merge_runs<P>(runs: Vec<VecDeque<(Vec<DbValue>, P)>>, directions: &Vec<bool>) -> (out: VecDeque<
    (Vec<DbValue>, P),
>)
    requires
        are_sorted(queues(runs@), directions@),
        are_wide(queues(runs@), directions@.len()),
    ensures
        out@ == merged_in_passes(queues(runs@), directions@),
        is_sorted(out@, directions@),
        out@.to_multiset() == entries_of(queues(runs@)).to_multiset(),
{
    let ghost start = queues(runs@);
    let count: usize = runs.len();
    proof {
        passes_sort_all_entries(start, directions@);
    }
    let mut left = runs;
    loop
        invariant
            start == queues(runs@),
            are_sorted(queues(left@), directions@),
            are_wide(queues(left@), directions@.len()),
            merged_in_passes(queues(left@), directions@) == merged_in_passes(start, directions@),
            is_sorted(merged_in_passes(start, directions@), directions@),
            merged_in_passes(start, directions@).to_multiset() == entries_of(start).to_multiset(),
        decreases left@.len(),
    {
        match spill::next_pass(left.len()) {
            None => {
                return merge_at_once(left, directions);
            },
            Some(groups) => {
                let n: usize = left.len();
                proof {
                    pass_shortens(queues(left@), directions@);
                    pass_keeps_entries(queues(left@), directions@);
                    pass_keeps_widths(queues(left@), directions@, directions@.len());
                }
                left = pass(left, directions, &groups);
                assert(left@.len() == queues(left@).len() && left@.len() < n);
            },
        }
    }
}

} // verus!
