//! Sorting more rows than memory holds: sizes, sorted runs, and their merge.

use crate::facts;
use crate::facts::{ErrorKind, SqlError};
use crate::order;
use crate::value;
use crate::value::{DbValue, Order, ValueV};
use vstd::prelude::*;
use vstd::string::*;

verus! {

// ---------------------------------------------------------------- sizes

/// The bytes that a value holds outside itself.
pub open spec fn held_bytes(v: ValueV) -> int {
    match v {
        ValueV::String(s) => vstd::utf8::encode_utf8(s).len() as int,
        ValueV::Bytes(b) => b.len() as int,
        _ => 0,
    }
}

/// A size, or the largest number where it is larger.
pub open spec fn bounded_size(n: int) -> int {
    if n > usize::MAX {
        usize::MAX as int
    } else {
        n
    }
}

/// The size of a value in memory, with what it holds outside itself.
pub open spec fn value_size(v: ValueV) -> int {
    bounded_size(vstd::layout::size_of::<DbValue>() + held_bytes(v))
}

/// The sizes of values, added up.
pub open spec fn values_size(s: Seq<ValueV>) -> int
    decreases s.len(),
{
    if s.len() == 0 {
        0
    } else {
        values_size(s.drop_last()) + value_size(s.last())
    }
}

/// The size of a value in memory, with what it holds outside itself.
pub fn estimate_value_size(v: &DbValue) -> (out: usize)
    ensures
        out == value_size(v@),
{
    let held: usize = match v {
        DbValue::String(s) => s.as_str().as_bytes().len(),
        DbValue::Bytes(b) => b.len(),
        _ => 0,
    };
    core::mem::size_of::<DbValue>().saturating_add(held)
}

/// Adds the sizes of values to a size.
fn add_sizes(size: usize, s: &Vec<DbValue>) -> (out: usize)
    ensures
        out == bounded_size(size + values_size(value::values_view(s@))),
{
    let ghost all = value::values_view(s@);
    let mut out: usize = size;
    let mut i: usize = 0;
    assert(all.take(0) =~= Seq::empty());
    while i < s.len()
        invariant
            i <= s@.len(),
            all == value::values_view(s@),
            out == bounded_size(size + values_size(all.take(i as int))),
        decreases s.len() - i,
    {
        assert(all.take(i + 1).drop_last() =~= all.take(i as int));
        assert(all.take(i + 1).last() == s@[i as int]@);
        out = out.saturating_add(estimate_value_size(&s[i]));
        i = i + 1;
    }
    assert(all.take(i as int) =~= all);
    out
}

/// The size of a row with its key in memory.
pub open spec fn row_size(keys: Seq<ValueV>, values: Seq<ValueV>) -> int {
    bounded_size(vstd::layout::size_of::<Vec<DbValue>>() * 2 + values_size(values) + values_size(keys))
}

/// The size of a row with its key in memory.
pub fn estimate_row_size(keys: &Vec<DbValue>, values: &Vec<DbValue>) -> (out: usize)
    ensures
        out == row_size(value::values_view(keys@), value::values_view(values@)),
{
    let lists = core::mem::size_of::<Vec<DbValue>>();
    proof {
        sizes_are_positive(value::values_view(keys@));
        sizes_are_positive(value::values_view(values@));
    }
    add_sizes(add_sizes(lists.saturating_add(lists), values), keys)
}

proof fn sizes_are_positive(s: Seq<ValueV>)
    ensures
        values_size(s) >= 0,
    decreases s.len(),
{
    if s.len() > 0 {
        sizes_are_positive(s.drop_last());
    }
}

// ---------------------------------------------------------------- sorting

/// The keys of entries.
pub open spec fn keys_of<P>(s: Seq<(Vec<DbValue>, P)>) -> Seq<Seq<ValueV>> {
    s.map_values(|e: (Vec<DbValue>, P)| value::values_view(e.0@))
}

/// Whether the entry at `i` comes before that at `j`: its key is less, or the keys tie and it
/// stands first.
pub open spec fn comes_before(keys: Seq<Seq<ValueV>>, directions: Seq<bool>, i: int, j: int) -> bool {
    match order::keys_order(keys[i], keys[j], directions) {
        Order::Less => true,
        Order::Equal => i < j,
        Order::Greater => false,
    }
}

/// Whether positions are those of a list, each once, in the order of their keys; ties stay in
/// the order of the list.
pub open spec fn sorts(positions: Seq<int>, keys: Seq<Seq<ValueV>>, directions: Seq<bool>) -> bool {
    &&& positions.len() == keys.len()
    &&& forall|i: int| 0 <= i < positions.len() ==> 0 <= #[trigger] positions[i] < keys.len()
    &&& forall|i: int, j: int|
        0 <= i < j < positions.len() ==> comes_before(keys, directions, #[trigger] positions[i], #[trigger] positions[j])
}

/// Whether one list is another in the order of its keys, ties in the order of that list.
pub open spec fn is_sorted_from<P>(
    after: Seq<(Vec<DbValue>, P)>,
    before: Seq<(Vec<DbValue>, P)>,
    positions: Seq<int>,
    directions: Seq<bool>,
) -> bool {
    &&& sorts(positions, keys_of(before), directions)
    &&& after.len() == before.len()
    &&& forall|i: int| 0 <= i < after.len() ==> #[trigger] after[i] == before[positions[i]]
}

/// Whether the keys of entries have a column for each direction.
pub open spec fn keys_reach<P>(s: Seq<(Vec<DbValue>, P)>, n: nat) -> bool {
    forall|i: int| 0 <= i < s.len() ==> n <= (#[trigger] s[i]).0@.len()
}

/// What comes before another comes before whatever that comes before.
proof fn before_is_transitive(keys: Seq<Seq<ValueV>>, directions: Seq<bool>, i: int, j: int, k: int)
    requires
        comes_before(keys, directions, i, j),
        comes_before(keys, directions, j, k),
    ensures
        comes_before(keys, directions, i, k),
{
    order::keys_order_composes(keys[i], keys[j], keys[k], directions, 0);
}

/// Of two entries one comes before the other.
proof fn before_is_total(keys: Seq<Seq<ValueV>>, directions: Seq<bool>, i: int, j: int)
    ensures
        i != j ==> comes_before(keys, directions, i, j) || comes_before(keys, directions, j, i),
        !(comes_before(keys, directions, i, j) && comes_before(keys, directions, j, i)),
{
    order::keys_order_reverses(keys[i], keys[j], directions, 0);
}

/// The entries of a list in reverse.
fn turned<P>(s: Vec<(Vec<DbValue>, P)>) -> (out: Vec<(Vec<DbValue>, P)>)
    ensures
        out@ == s@.reverse(),
{
    let ghost all = s@;
    let mut rest = s;
    let mut out: Vec<(Vec<DbValue>, P)> = Vec::new();
    while rest.len() > 0
        invariant
            rest@.len() <= all.len(),
            rest@ == all.take(rest@.len() as int),
            out@ == all.skip(rest@.len() as int).reverse(),
        decreases rest.len(),
    {
        let n: usize = rest.len();
        let e = rest.pop();
        if let Some(x) = e {
            out.push(x);
        }
        assert(rest@ =~= all.take(n - 1));
        assert(out@ =~= all.skip(n - 1).reverse());
    }
    assert(all.skip(0) =~= all);
    out
}

/// The merge of the lists of two halves, from the last entry to the first: `taken` are the
/// positions of what is merged so far.
spec fn merging<P>(
    all: Seq<(Vec<DbValue>, P)>,
    directions: Seq<bool>,
    left: Seq<(Vec<DbValue>, P)>,
    lp: Seq<int>,
    right: Seq<(Vec<DbValue>, P)>,
    rp: Seq<int>,
    out: Seq<(Vec<DbValue>, P)>,
    taken: Seq<int>,
) -> bool {
    let keys = keys_of(all);
    &&& left.len() == lp.len()
    &&& right.len() == rp.len()
    &&& out.len() == taken.len()
    &&& left.len() + right.len() + out.len() == all.len()
    &&& forall|i: int| 0 <= i < lp.len() ==> 0 <= #[trigger] lp[i] < all.len() && left[i] == all[lp[i]]
    &&& forall|i: int| 0 <= i < rp.len() ==> 0 <= #[trigger] rp[i] < all.len() && right[i] == all[rp[i]]
    &&& forall|i: int| 0 <= i < taken.len() ==> 0 <= #[trigger] taken[i] < all.len() && out[i] == all[taken[i]]
    &&& forall|i: int, j: int| 0 <= i < j < lp.len() ==> comes_before(keys, directions, #[trigger] lp[i], #[trigger] lp[j])
    &&& forall|i: int, j: int| 0 <= i < j < rp.len() ==> comes_before(keys, directions, #[trigger] rp[i], #[trigger] rp[j])
    &&& forall|i: int, j: int|
        0 <= i < j < taken.len() ==> comes_before(keys, directions, #[trigger] taken[j], #[trigger] taken[i])
    &&& forall|i: int, j: int|
        0 <= i < lp.len() && 0 <= j < taken.len() ==> comes_before(keys, directions, #[trigger] lp[i], #[trigger] taken[j])
    &&& forall|i: int, j: int|
        0 <= i < rp.len() && 0 <= j < taken.len() ==> comes_before(keys, directions, #[trigger] rp[i], #[trigger] taken[j])
    &&& forall|i: int, j: int| 0 <= i < lp.len() && 0 <= j < rp.len() ==> #[trigger] lp[i] < #[trigger] rp[j]
}

/// Taking the last entry of the left half keeps the merge going.
proof fn takes_left<P>(
    all: Seq<(Vec<DbValue>, P)>,
    directions: Seq<bool>,
    left: Seq<(Vec<DbValue>, P)>,
    lp: Seq<int>,
    right: Seq<(Vec<DbValue>, P)>,
    rp: Seq<int>,
    out: Seq<(Vec<DbValue>, P)>,
    taken: Seq<int>,
)
    requires
        merging(all, directions, left, lp, right, rp, out, taken),
        left.len() > 0,
        right.len() > 0 ==> comes_before(keys_of(all), directions, rp.last(), lp.last()),
    ensures
        merging(
            all,
            directions,
            left.drop_last(),
            lp.drop_last(),
            right,
            rp,
            out.push(left.last()),
            taken.push(lp.last()),
        ),
{
    let keys = keys_of(all);
    let t = taken.push(lp.last());
    let l = lp.drop_last();
    assert forall|i: int, j: int| 0 <= i < j < t.len() implies comes_before(keys, directions, #[trigger] t[j], #[trigger] t[i]) by {
        if j == taken.len() {
            assert(comes_before(keys, directions, lp[lp.len() - 1], taken[i]));
        }
    }
    assert forall|i: int, j: int| 0 <= i < l.len() && 0 <= j < t.len() implies comes_before(
        keys,
        directions,
        #[trigger] l[i],
        #[trigger] t[j],
    ) by {
        if j == taken.len() {
            assert(comes_before(keys, directions, lp[i], lp[lp.len() - 1]));
        } else {
            assert(comes_before(keys, directions, lp[i], taken[j]));
        }
    }
    assert forall|i: int, j: int| 0 <= i < rp.len() && 0 <= j < t.len() implies comes_before(
        keys,
        directions,
        #[trigger] rp[i],
        #[trigger] t[j],
    ) by {
        if j == taken.len() {
            if i < rp.len() - 1 {
                assert(comes_before(keys, directions, rp[i], rp[rp.len() - 1]));
                before_is_transitive(keys, directions, rp[i], rp[rp.len() - 1], lp[lp.len() - 1]);
            }
        } else {
            assert(comes_before(keys, directions, rp[i], taken[j]));
        }
    }
}

/// Taking the last entry of the right half keeps the merge going.
proof fn takes_right<P>(
    all: Seq<(Vec<DbValue>, P)>,
    directions: Seq<bool>,
    left: Seq<(Vec<DbValue>, P)>,
    lp: Seq<int>,
    right: Seq<(Vec<DbValue>, P)>,
    rp: Seq<int>,
    out: Seq<(Vec<DbValue>, P)>,
    taken: Seq<int>,
)
    requires
        merging(all, directions, left, lp, right, rp, out, taken),
        right.len() > 0,
        left.len() > 0 ==> comes_before(keys_of(all), directions, lp.last(), rp.last()),
    ensures
        merging(
            all,
            directions,
            left,
            lp,
            right.drop_last(),
            rp.drop_last(),
            out.push(right.last()),
            taken.push(rp.last()),
        ),
{
    let keys = keys_of(all);
    let t = taken.push(rp.last());
    let r = rp.drop_last();
    assert forall|i: int, j: int| 0 <= i < j < t.len() implies comes_before(keys, directions, #[trigger] t[j], #[trigger] t[i]) by {
        if j == taken.len() {
            assert(comes_before(keys, directions, rp[rp.len() - 1], taken[i]));
        }
    }
    assert forall|i: int, j: int| 0 <= i < r.len() && 0 <= j < t.len() implies comes_before(
        keys,
        directions,
        #[trigger] r[i],
        #[trigger] t[j],
    ) by {
        if j == taken.len() {
            assert(comes_before(keys, directions, rp[i], rp[rp.len() - 1]));
        } else {
            assert(comes_before(keys, directions, rp[i], taken[j]));
        }
    }
    assert forall|i: int, j: int| 0 <= i < lp.len() && 0 <= j < t.len() implies comes_before(
        keys,
        directions,
        #[trigger] lp[i],
        #[trigger] t[j],
    ) by {
        if j == taken.len() {
            if i < lp.len() - 1 {
                assert(comes_before(keys, directions, lp[i], lp[lp.len() - 1]));
                before_is_transitive(keys, directions, lp[i], lp[lp.len() - 1], rp[rp.len() - 1]);
            }
        } else {
            assert(comes_before(keys, directions, lp[i], taken[j]));
        }
    }
}

/// Merges the sorted halves of a list.
fn merge_halves<P>(
    left: Vec<(Vec<DbValue>, P)>,
    right: Vec<(Vec<DbValue>, P)>,
    directions: &Vec<bool>,
    Ghost(all): Ghost<Seq<(Vec<DbValue>, P)>>,
    Ghost(left_positions): Ghost<Seq<int>>,
    Ghost(right_positions): Ghost<Seq<int>>,
) -> (out: (Vec<(Vec<DbValue>, P)>, Ghost<Seq<int>>))
    requires
        merging(all, directions@, left@, left_positions, right@, right_positions, Seq::empty(), Seq::empty()),
        keys_reach(all, directions@.len()),
    ensures
        is_sorted_from(out.0@, all, out.1@, directions@),
{
    let mut left = left;
    let mut right = right;
    let mut back: Vec<(Vec<DbValue>, P)> = Vec::new();
    let ghost mut lp = left_positions;
    let ghost mut rp = right_positions;
    let ghost mut taken: Seq<int> = Seq::empty();
    while left.len() > 0 || right.len() > 0
        invariant
            merging(all, directions@, left@, lp, right@, rp, back@, taken),
            keys_reach(all, directions@.len()),
        decreases left.len() + right.len(),
    {
        let n: usize = left.len();
        let m: usize = right.len();
        let from_left: bool = if n == 0 {
            false
        } else if m == 0 {
            true
        } else {
            proof {
                let keys = keys_of(all);
                assert(left@[n - 1] == all[lp[n - 1]]);
                assert(right@[m - 1] == all[rp[m - 1]]);
                assert(keys[lp[n - 1]] == value::values_view(left@[n - 1].0@));
                assert(keys[rp[m - 1]] == value::values_view(right@[m - 1].0@));
                assert(lp[n - 1] < rp[m - 1]);
                before_is_total(keys, directions@, lp[n - 1], rp[m - 1]);
            }
            match order::compare_keys(&left[n - 1].0, &right[m - 1].0, directions) {
                Order::Greater => true,
                _ => false,
            }
        };
        let ghost l0 = left@;
        let ghost r0 = right@;
        let ghost b0 = back@;
        if from_left {
            proof {
                takes_left(all, directions@, l0, lp, r0, rp, b0, taken);
            }
            if let Some(e) = left.pop() {
                back.push(e);
            }
            proof {
                taken = taken.push(lp.last());
                lp = lp.drop_last();
            }
            assert(left@ =~= l0.drop_last());
            assert(back@ =~= b0.push(l0.last()));
        } else {
            proof {
                takes_right(all, directions@, l0, lp, r0, rp, b0, taken);
            }
            if let Some(e) = right.pop() {
                back.push(e);
            }
            proof {
                taken = taken.push(rp.last());
                rp = rp.drop_last();
            }
            assert(right@ =~= r0.drop_last());
            assert(back@ =~= b0.push(r0.last()));
        }
    }
    let ghost merged = back@;
    let out = turned(back);
    let ghost positions = taken.reverse();
    proof {
        let keys = keys_of(all);
        assert forall|i: int, j: int| 0 <= i < j < positions.len() implies comes_before(
            keys,
            directions@,
            #[trigger] positions[i],
            #[trigger] positions[j],
        ) by {
            assert(comes_before(keys, directions@, taken[taken.len() - 1 - i], taken[taken.len() - 1 - j]));
        }
        assert forall|i: int| 0 <= i < out@.len() implies #[trigger] out@[i] == all[positions[i]] by {
            assert(merged[merged.len() - 1 - i] == all[taken[taken.len() - 1 - i]]);
        }
        assert forall|i: int| 0 <= i < positions.len() implies 0 <= #[trigger] positions[i] < keys.len() by {
            assert(0 <= taken[taken.len() - 1 - i] < all.len());
        }
    }
    (out, Ghost(positions))
}

/// Sorts entries. Entries whose keys tie stay in their order.
fn sorted<P>(buffer: Vec<(Vec<DbValue>, P)>, directions: &Vec<bool>) -> (out: (
    Vec<(Vec<DbValue>, P)>,
    Ghost<Seq<int>>,
))
    requires
        keys_reach(buffer@, directions@.len()),
    ensures
        is_sorted_from(out.0@, buffer@, out.1@, directions@),
    decreases buffer.len(),
{
    let ghost all = buffer@;
    let n: usize = buffer.len();
    if n <= 1 {
        let ghost positions: Seq<int> = Seq::new(n as nat, |i: int| i);
        return (buffer, Ghost(positions));
    }
    let mid: usize = n / 2;
    let mut left = buffer;
    let right = left.split_off(mid);
    let ghost l0 = left@;
    let ghost r0 = right@;
    assert(l0 =~= all.take(mid as int));
    assert(r0 =~= all.skip(mid as int));
    assert forall|i: int| 0 <= i < l0.len() implies directions@.len() <= (#[trigger] l0[i]).0@.len() by {
        assert(l0[i] == all[i]);
    }
    assert forall|i: int| 0 <= i < r0.len() implies directions@.len() <= (#[trigger] r0[i]).0@.len() by {
        assert(r0[i] == all[mid + i]);
    }
    let (sorted_left, Ghost(lp)) = sorted(left, directions);
    let (sorted_right, Ghost(rp)) = sorted(right, directions);
    let ghost shifted: Seq<int> = Seq::new(rp.len(), |i: int| rp[i] + mid);
    proof {
        let keys = keys_of(all);
        let lk = keys_of(l0);
        let rk = keys_of(r0);
        assert forall|i: int, j: int| 0 <= i < j < lp.len() implies comes_before(
            keys,
            directions@,
            #[trigger] lp[i],
            #[trigger] lp[j],
        ) by {
            assert(comes_before(lk, directions@, lp[i], lp[j]));
            assert(lk[lp[i]] == keys[lp[i]] && lk[lp[j]] == keys[lp[j]]);
        }
        assert forall|i: int, j: int| 0 <= i < j < shifted.len() implies comes_before(
            keys,
            directions@,
            #[trigger] shifted[i],
            #[trigger] shifted[j],
        ) by {
            assert(comes_before(rk, directions@, rp[i], rp[j]));
            assert(rk[rp[i]] == keys[shifted[i]] && rk[rp[j]] == keys[shifted[j]]);
        }
        assert forall|i: int| 0 <= i < lp.len() implies 0 <= #[trigger] lp[i] < all.len() && sorted_left@[i]
            == all[lp[i]] by {
            assert(sorted_left@[i] == l0[lp[i]]);
        }
        assert forall|i: int| 0 <= i < shifted.len() implies 0 <= #[trigger] shifted[i] < all.len() && sorted_right@[i]
            == all[shifted[i]] by {
            assert(0 <= rp[i] < rk.len());
            assert(sorted_right@[i] == r0[rp[i]]);
        }
        assert forall|i: int, j: int| 0 <= i < lp.len() && 0 <= j < shifted.len() implies #[trigger] lp[i]
            < #[trigger] shifted[j] by {
            assert(0 <= rp[j] < rk.len());
            assert(0 <= lp[i] < lk.len());
        }
    }
    merge_halves(sorted_left, sorted_right, directions, Ghost(all), Ghost(lp), Ghost(shifted))
}

/// Sorts entries by their keys; `true` is ascending. Entries whose keys tie stay in their
/// order.
pub fn sort_entries<P>(buffer: &mut Vec<(Vec<DbValue>, P)>, directions: &Vec<bool>)
    requires
        keys_reach(old(buffer)@, directions@.len()),
    ensures
        exists|positions: Seq<int>| is_sorted_from(final(buffer)@, old(buffer)@, positions, directions@),
{
    let mut whole: Vec<(Vec<DbValue>, P)> = Vec::new();
    std::mem::swap(&mut whole, buffer);
    let (out, Ghost(positions)) = sorted(whole, directions);
    *buffer = out;
    assert(is_sorted_from(buffer@, old(buffer)@, positions, directions@));
}

// ---------------------------------------------------------------- numbers as bytes

/// The `k` lowest bytes of a number, the lowest first.
pub open spec fn le_bytes(n: int, k: nat) -> Seq<u8>
    decreases k,
{
    if k == 0 {
        Seq::empty()
    } else {
        seq![(n % 256) as u8] + le_bytes(n / 256, (k - 1) as nat)
    }
}

/// The number that bytes stand for, the lowest first.
pub open spec fn le_value(s: Seq<u8>) -> int
    decreases s.len(),
{
    if s.len() == 0 {
        0
    } else {
        s[0] + 256 * le_value(s.skip(1))
    }
}

/// 256 to the power `k`.
pub open spec fn pow256(k: nat) -> int
    decreases k,
{
    if k == 0 {
        1
    } else {
        256 * pow256((k - 1) as nat)
    }
}

/// The bytes of a number stand for it, where they are enough.
pub proof fn bytes_stand_for_number(n: int, k: nat)
    requires
        0 <= n < pow256(k),
    ensures
        le_value(le_bytes(n, k)) == n,
        le_bytes(n, k).len() == k,
    decreases k,
{
    if k > 0 {
        assert(n / 256 < pow256((k - 1) as nat));
        bytes_stand_for_number(n / 256, (k - 1) as nat);
        assert(le_bytes(n, k).skip(1) =~= le_bytes(n / 256, (k - 1) as nat));
    }
}

/// Bytes stand for a number below 256 to the power of their count.
proof fn value_is_bounded(s: Seq<u8>)
    ensures
        0 <= le_value(s) < pow256(s.len()),
    decreases s.len(),
{
    if s.len() > 0 {
        value_is_bounded(s.skip(1));
    }
}

proof fn powers_of_256()
    ensures
        pow256(4) == 0x1_0000_0000,
        pow256(8) == 0x1_0000_0000_0000_0000,
{
    reveal_with_fuel(pow256, 9);
}

proof fn le_bytes_len(n: int, k: nat)
    ensures
        le_bytes(n, k).len() == k,
    decreases k,
{
    if k > 0 {
        le_bytes_len(n / 256, (k - 1) as nat);
    }
}

/// Adds the `k` lowest bytes of a number, the lowest first.
fn push_bytes(writer: &mut Vec<u8>, n: u64, k: usize)
    ensures
        final(writer)@ == old(writer)@ + le_bytes(n as int, k as nat),
{
    let ghost start = writer@;
    let mut rest: u64 = n;
    let mut i: usize = 0;
    while i < k
        invariant
            i <= k,
            start + le_bytes(n as int, k as nat) == writer@ + le_bytes(rest as int, (k - i) as nat),
        decreases k - i,
    {
        let ghost before = writer@;
        let ghost tail = le_bytes(rest as int / 256, (k - i - 1) as nat);
        writer.push((rest % 256) as u8);
        assert(before + (seq![(rest as int % 256) as u8] + tail) =~= writer@ + tail);
        rest = rest / 256;
        i = i + 1;
    }
    assert(writer@ + le_bytes(rest as int, 0) =~= writer@);
}

// ---------------------------------------------------------------- runs as bytes

/// The bytes of a run, and how far they are read.
#[derive(Debug)]
pub struct RunReader {
    bytes: Vec<u8>,
    position: usize,
}

impl RunReader {
    #[verifier::type_invariant]
    spec fn within(self) -> bool {
        self.position <= self.bytes@.len()
    }

    /// The bytes that are still to be read.
    pub closed spec fn view(&self) -> Seq<u8> {
        self.bytes@.skip(self.position as int)
    }

    /// A reader of these bytes.
    pub fn new(bytes: Vec<u8>) -> (out: RunReader)
        ensures
            out@ == bytes@,
    {
        let out = RunReader { bytes, position: 0 };
        assert(out@ =~= bytes@);
        out
    }

    /// How many bytes are still to be read.
    pub fn remaining(&self) -> (out: usize)
        ensures
            out == self@.len(),
    {
        proof {
            use_type_invariant(self);
        }
        self.bytes.len() - self.position
    }

    /// Reads a number of `k` bytes.
    fn read_number(&mut self, k: usize) -> (out: u64)
        requires
            k <= 8,
            k <= old(self)@.len(),
        ensures
            out == le_value(old(self)@.take(k as int)),
            final(self)@ == old(self)@.skip(k as int),
    {
        proof {
            use_type_invariant(&*self);
            powers_of_256();
        }
        let ghost head = self@.take(k as int);
        let len: usize = self.bytes.len();
        let from: usize = self.position;
        let mut out: u64 = 0;
        let mut i: usize = k;
        assert(head.skip(k as int) =~= Seq::empty());
        while i > 0
            invariant
                i <= k <= 8,
                from + k <= len,
                len == self.bytes@.len(),
                self.position == from,
                head == self.bytes@.skip(from as int).take(k as int),
                out == le_value(head.skip(i as int)),
            decreases i,
        {
            i = i - 1;
            let b: u8 = self.bytes[from + i];
            proof {
                let tail = head.skip(i + 1);
                assert(head.skip(i as int)[0] == b);
                assert(head.skip(i as int).skip(1) =~= tail);
                value_is_bounded(tail);
                value_is_bounded(head.skip(i as int));
                reveal_with_fuel(pow256, 9);
            }
            out = out * 256 + b as u64;
        }
        assert(head.skip(0) =~= head);
        self.position = from + k;
        assert(self@ =~= old(self)@.skip(k as int));
        out
    }

    /// Reads `n` bytes.
    fn read_bytes(&mut self, n: usize) -> (out: Vec<u8>)
        requires
            n <= old(self)@.len(),
        ensures
            out@ == old(self)@.take(n as int),
            final(self)@ == old(self)@.skip(n as int),
    {
        proof {
            use_type_invariant(&*self);
        }
        let len: usize = self.bytes.len();
        let from: usize = self.position;
        let ghost whole = self@;
        let mut out: Vec<u8> = Vec::new();
        let mut i: usize = 0;
        while i < n
            invariant
                i <= n,
                from + n <= len,
                len == self.bytes@.len(),
                self.position == from,
                whole == self.bytes@.skip(from as int),
                out@ == whole.take(i as int),
            decreases n - i,
        {
            out.push(self.bytes[from + i]);
            assert(out@ =~= whole.take(i + 1));
            i = i + 1;
        }
        self.position = from + n;
        assert(self@ =~= old(self)@.skip(n as int));
        out
    }
}

/// Adds the number of records of a run, in eight bytes.
pub fn write_count(writer: &mut Vec<u8>, count: u64)
    ensures
        final(writer)@ == old(writer)@ + le_bytes(count as int, 8),
{
    push_bytes(writer, count, 8);
}

/// Reads the number of records of a run. On an error nothing is read.
pub fn read_count(reader: &mut RunReader) -> (out: Result<u64, SqlError>)
    ensures
        match out {
            Ok(n) => old(reader)@.len() >= 8 && n == le_value(old(reader)@.take(8)) && final(reader)@ == old(
                reader,
            )@.skip(8),
            Err(e) => old(reader)@.len() < 8 && e@ == facts::plain_error(ErrorKind::RunTruncated) && final(reader)@
                == old(reader)@,
        },
{
    if reader.remaining() < 8 {
        return Err(SqlError::plain(ErrorKind::RunTruncated));
    }
    Ok(reader.read_number(8))
}

/// Writes another number of records over that at the start of a run.
pub fn patch_count(run: &mut Vec<u8>, count: u64)
    requires
        old(run)@.len() >= 8,
    ensures
        final(run)@ == le_bytes(count as int, 8) + old(run)@.skip(8),
{
    let mut number: Vec<u8> = Vec::new();
    push_bytes(&mut number, count, 8);
    proof {
        le_bytes_len(count as int, 8);
        assert(number@ =~= le_bytes(count as int, 8));
    }
    let ghost start = run@;
    let mut i: usize = 0;
    while i < 8
        invariant
            i <= 8,
            number@.len() == 8,
            run@.len() == start.len(),
            start.len() >= 8,
            run@ == number@.take(i as int) + start.skip(i as int),
        decreases 8 - i,
    {
        let b: u8 = number[i];
        let ghost before = run@;
        run.set(i, b);
        assert(run@ =~= number@.take(i + 1) + start.skip(i + 1)) by {
            assert forall|j: int| 0 <= j < run@.len() implies run@[j] == (number@.take(i + 1) + start.skip(i + 1))[j] by {
                if j != i {
                    assert(run@[j] == before[j]);
                }
            }
        }
        i = i + 1;
    }
    assert(number@.take(8) =~= number@);
}

/// A record in its frame: its length in four bytes, then the record.
pub open spec fn frame(record: Seq<u8>) -> Seq<u8> {
    le_bytes(record.len() as int, 4) + record
}

/// Adds a record in its frame. A record that is too long is an error, and nothing is added.
pub fn write_framed(writer: &mut Vec<u8>, record: &Vec<u8>) -> (out: Result<(), SqlError>)
    ensures
        match out {
            Ok(_) => record@.len() <= u32::MAX && final(writer)@ == old(writer)@ + frame(record@),
            Err(e) => record@.len() > u32::MAX && e@ == facts::plain_error(ErrorKind::FrameTooLong) && final(writer)@
                == old(writer)@,
        },
{
    if record.len() as u64 > 0xffff_ffff {
        return Err(SqlError::plain(ErrorKind::FrameTooLong));
    }
    push_bytes(writer, record.len() as u64, 4);
    let ghost start = writer@;
    let mut i: usize = 0;
    while i < record.len()
        invariant
            i <= record@.len(),
            writer@ == start + record@.take(i as int),
        decreases record.len() - i,
    {
        writer.push(record[i]);
        assert(writer@ =~= start + record@.take(i + 1));
        i = i + 1;
    }
    assert(record@.take(i as int) =~= record@);
    assert(writer@ =~= old(writer)@ + frame(record@));
    Ok(())
}

/// The first record of some bytes and what follows it, where there is a whole one.
pub open spec fn first_record(bytes: Seq<u8>) -> Option<(Seq<u8>, Seq<u8>)> {
    if bytes.len() < 4 {
        None
    } else {
        let n = le_value(bytes.take(4));
        if bytes.len() - 4 < n {
            None
        } else {
            Some((bytes.skip(4).take(n), bytes.skip(4).skip(n)))
        }
    }
}

/// Reads a record out of its frame. Where there is no whole record, that is an error.
pub fn read_framed(reader: &mut RunReader) -> (out: Result<Vec<u8>, SqlError>)
    ensures
        match out {
            Ok(r) => first_record(old(reader)@) == Some((r@, final(reader)@)),
            Err(e) => first_record(old(reader)@) is None && e@ == facts::plain_error(ErrorKind::RunTruncated),
        },
{
    if reader.remaining() < 4 {
        return Err(SqlError::plain(ErrorKind::RunTruncated));
    }
    let n: u64 = reader.read_number(4);
    if (reader.remaining() as u64) < n {
        return Err(SqlError::plain(ErrorKind::RunTruncated));
    }
    Ok(reader.read_bytes(n as usize))
}

/// Records of a run, each a key and what belongs to it, in their frames.
pub open spec fn frames(s: Seq<(Seq<u8>, Seq<u8>)>) -> Seq<u8>
    decreases s.len(),
{
    if s.len() == 0 {
        Seq::empty()
    } else {
        frame(s[0].0) + frame(s[0].1) + frames(s.skip(1))
    }
}

/// The bytes of a run: the number of its records, then the records.
pub open spec fn run_bytes(s: Seq<(Seq<u8>, Seq<u8>)>) -> Seq<u8> {
    le_bytes(s.len() as int, 8) + frames(s)
}

/// The records that bytes hold, `n` of them, where they are whole.
pub open spec fn records_of(bytes: Seq<u8>, n: nat) -> Option<Seq<(Seq<u8>, Seq<u8>)>>
    decreases n,
{
    if n == 0 {
        Some(Seq::empty())
    } else {
        match first_record(bytes) {
            None => None,
            Some(k) => match first_record(k.1) {
                None => None,
                Some(p) => match records_of(p.1, (n - 1) as nat) {
                    None => None,
                    Some(rest) => Some(seq![(k.0, p.0)] + rest),
                },
            },
        }
    }
}

/// Whether every record of a run fits its frame.
pub open spec fn fit_frames(s: Seq<(Seq<u8>, Seq<u8>)>) -> bool {
    forall|i: int| 0 <= i < s.len() ==> (#[trigger] s[i]).0.len() <= u32::MAX && s[i].1.len() <= u32::MAX
}

/// Reading a frame gives back the record that was written, whatever follows it.
pub proof fn frame_is_read_back(record: Seq<u8>, rest: Seq<u8>)
    requires
        record.len() <= u32::MAX,
    ensures
        first_record(frame(record) + rest) == Some((record, rest)),
{
    powers_of_256();
    bytes_stand_for_number(record.len() as int, 4);
    let all = frame(record) + rest;
    assert(all.take(4) =~= le_bytes(record.len() as int, 4));
    assert(all.skip(4).take(record.len() as int) =~= record);
    assert(all.skip(4).skip(record.len() as int) =~= rest);
}

/// Reading a number of records gives back the number that was written.
pub proof fn count_is_read_back(count: u64, rest: Seq<u8>)
    ensures
        le_value((le_bytes(count as int, 8) + rest).take(8)) == count,
        (le_bytes(count as int, 8) + rest).skip(8) == rest,
{
    powers_of_256();
    bytes_stand_for_number(count as int, 8);
    assert((le_bytes(count as int, 8) + rest).take(8) =~= le_bytes(count as int, 8));
    assert((le_bytes(count as int, 8) + rest).skip(8) =~= rest);
}

/// Reading the records of a run gives back those that were written.
pub proof fn records_are_read_back(s: Seq<(Seq<u8>, Seq<u8>)>)
    requires
        fit_frames(s),
    ensures
        records_of(frames(s), s.len()) == Some(s),
    decreases s.len(),
{
    if s.len() > 0 {
        let rest = frames(s.skip(1));
        assert(frames(s) =~= frame(s[0].0) + (frame(s[0].1) + rest));
        frame_is_read_back(s[0].0, frame(s[0].1) + rest);
        frame_is_read_back(s[0].1, rest);
        assert forall|i: int| 0 <= i < s.skip(1).len() implies (#[trigger] s.skip(1)[i]).0.len() <= u32::MAX && s.skip(
            1,
        )[i].1.len() <= u32::MAX by {
            assert(s.skip(1)[i] == s[i + 1]);
        }
        records_are_read_back(s.skip(1));
        assert(seq![(s[0].0, s[0].1)] + s.skip(1) =~= s);
    } else {
        assert(s =~= Seq::empty());
    }
}

/// The models of records.
pub open spec fn records_view(s: Seq<(Vec<u8>, Vec<u8>)>) -> Seq<(Seq<u8>, Seq<u8>)> {
    s.map_values(|r: (Vec<u8>, Vec<u8>)| (r.0@, r.1@))
}

/// The frames of records one after the other are those of all of them.
proof fn frames_extend(s: Seq<(Seq<u8>, Seq<u8>)>, r: (Seq<u8>, Seq<u8>))
    ensures
        frames(s.push(r)) == frames(s) + (frame(r.0) + frame(r.1)),
    decreases s.len(),
{
    let t = s.push(r);
    if s.len() == 0 {
        assert(t.skip(1) =~= Seq::empty());
        assert(frames(t.skip(1)) =~= Seq::empty());
        assert(frames(t) =~= frame(r.0) + frame(r.1));
        assert(frames(s) + (frame(r.0) + frame(r.1)) =~= frame(r.0) + frame(r.1));
    } else {
        assert(t.skip(1) =~= s.skip(1).push(r));
        frames_extend(s.skip(1), r);
        assert(frame(s[0].0) + frame(s[0].1) + (frames(s.skip(1)) + (frame(r.0) + frame(r.1))) =~= frames(s) + (frame(r.0)
            + frame(r.1)));
    }
}

/// The bytes of a run of records. A record that is too long for its frame is an error.
pub fn encode_run(records: &Vec<(Vec<u8>, Vec<u8>)>) -> (out: Result<Vec<u8>, SqlError>)
    ensures
        match out {
            Ok(b) => fit_frames(records_view(records@)) && b@ == run_bytes(records_view(records@)),
            Err(e) => !fit_frames(records_view(records@)) && e@ == facts::plain_error(ErrorKind::FrameTooLong),
        },
{
    let ghost all = records_view(records@);
    let mut out: Vec<u8> = Vec::new();
    write_count(&mut out, records.len() as u64);
    let ghost head = out@;
    assert(head =~= le_bytes(all.len() as int, 8));
    let mut i: usize = 0;
    assert(all.take(0) =~= Seq::empty());
    assert(head + frames(all.take(0)) =~= head);
    while i < records.len()
        invariant
            i <= records@.len(),
            all == records_view(records@),
            out@ == head + frames(all.take(i as int)),
            fit_frames(all.take(i as int)),
        decreases records.len() - i,
    {
        let ghost r = all[i as int];
        let ghost before = out@;
        assert(r == (records@[i as int].0@, records@[i as int].1@));
        write_framed(&mut out, &records[i].0)?;
        write_framed(&mut out, &records[i].1)?;
        proof {
            assert(all.take(i + 1) =~= all.take(i as int).push(r));
            frames_extend(all.take(i as int), r);
            assert(out@ =~= head + frames(all.take(i + 1)));
            assert forall|j: int| 0 <= j < all.take(i + 1).len() implies (#[trigger] all.take(i + 1)[j]).0.len()
                <= u32::MAX && all.take(i + 1)[j].1.len() <= u32::MAX by {
                if j < i {
                    assert(all.take(i + 1)[j] == all.take(i as int)[j]);
                }
            }
        }
        i = i + 1;
    }
    assert(all.take(i as int) =~= all);
    Ok(out)
}

// ---------------------------------------------------------------- merging runs

/// How many runs are merged at once at most.
pub const MAX_FANIN: usize = 64;

/// A group of runs that are merged into one: from the first to before the last.
#[derive(Clone, Copy, Debug, PartialEq, Eq, Structural)]
pub struct MergeGroup {
    pub from: usize,
    pub to: usize,
}

/// Whether groups are the runs from `0` to `n` in turn, full ones but for the last.
pub open spec fn groups_of(s: Seq<MergeGroup>, n: int) -> bool {
    &&& s.len() == (n + MAX_FANIN - 1) / (MAX_FANIN as int)
    &&& forall|i: int|
        0 <= i < s.len() ==> (#[trigger] s[i]).from == i * MAX_FANIN && s[i].to == (if (i + 1) * MAX_FANIN <= n {
            (i + 1) * MAX_FANIN
        } else {
            n
        })
}

/// The groups in which one pass merges `n` runs.
pub fn merge_groups(n: usize) -> (out: Vec<MergeGroup>)
    ensures
        groups_of(out@, n as int),
{
    let mut out: Vec<MergeGroup> = Vec::new();
    let mut from: usize = 0;
    while from < n
        invariant
            from <= n,
            from == n || from == out@.len() * MAX_FANIN,
            from == n ==> out@.len() == (n + MAX_FANIN - 1) / (MAX_FANIN as int),
            from < n ==> out@.len() < (n + MAX_FANIN - 1) / (MAX_FANIN as int),
            forall|i: int|
                0 <= i < out@.len() ==> (#[trigger] out@[i]).from == i * MAX_FANIN && out@[i].to == (if (i + 1)
                    * MAX_FANIN <= n {
                    (i + 1) * MAX_FANIN
                } else {
                    n as int
                }),
        decreases n - from,
    {
        let to: usize = if n - from <= MAX_FANIN {
            n
        } else {
            from + MAX_FANIN
        };
        out.push(MergeGroup { from, to });
        from = to;
    }
    out
}

/// The groups of the next pass, where `n` runs are too many for one merge; none where they are not.
pub fn next_pass(n: usize) -> (out: Option<Vec<MergeGroup>>)
    ensures
        match out {
            None => n <= MAX_FANIN,
            Some(g) => n > MAX_FANIN && groups_of(g@, n as int),
        },
{
    if n <= MAX_FANIN {
        None
    } else {
        Some(merge_groups(n))
    }
}

impl MergeGroup {
    /// Whether the group is a lone run, which a pass carries over as it is.
    pub fn is_lone(&self) -> (out: bool)
        ensures
            out == (self.to == self.from + 1),
    {
        self.from < self.to && self.to - self.from == 1
    }
}

/// A pass leaves fewer runs than there were, and no group is larger than may be merged at once.
pub proof fn passes_end(s: Seq<MergeGroup>, n: int)
    requires
        groups_of(s, n),
        n > 1,
    ensures
        s.len() < n,
        forall|i: int| 0 <= i < s.len() ==> 0 < (#[trigger] s[i]).to - s[i].from <= MAX_FANIN,
{
}

/// An entry that is waiting to be merged: its key, what belongs to it, and its run.
#[derive(Debug)]
pub struct HeapEntry<P> {
    pub sort_keys: Vec<DbValue>,
    pub payload: P,
    pub run_index: usize,
}

/// The merge of sorted runs: the first entry of each run that is not at its end.
#[derive(Debug)]
pub struct KWayMerge<P> {
    entries: Vec<HeapEntry<P>>,
    directions: Vec<bool>,
}

/// The key of an entry.
pub open spec fn entry_key<P>(e: HeapEntry<P>) -> Seq<ValueV> {
    value::values_view(e.sort_keys@)
}

/// Whether the entry at `i` is the least, and the first of the least.
pub open spec fn is_least<P>(s: Seq<HeapEntry<P>>, directions: Seq<bool>, i: int) -> bool {
    &&& 0 <= i < s.len()
    &&& forall|j: int|
        0 <= j < s.len() ==> order::keys_order(entry_key(s[i]), entry_key(#[trigger] s[j]), directions) != Order::Greater
    &&& forall|j: int|
        0 <= j < i ==> order::keys_order(entry_key(s[i]), entry_key(#[trigger] s[j]), directions) == Order::Less
}

/// Whether an entry is the least, and the first of the least, and others are those without it.
pub open spec fn takes_least<P>(
    before: Seq<HeapEntry<P>>,
    directions: Seq<bool>,
    e: HeapEntry<P>,
    after: Seq<HeapEntry<P>>,
) -> bool {
    exists|i: int|
        #![trigger before[i]]
        is_least(before, directions, i) && e == before[i] && after == before.remove(i)
}

impl<P> KWayMerge<P> {
    /// The entries that are waiting.
    pub closed spec fn view(&self) -> Seq<HeapEntry<P>> {
        self.entries@
    }

    /// The directions of the key columns; `true` is ascending.
    pub closed spec fn order(&self) -> Seq<bool> {
        self.directions@
    }

    /// Whether the keys of the entries have a column for each direction.
    pub open spec fn well_formed(&self) -> bool {
        forall|i: int| 0 <= i < self@.len() ==> self.order().len() <= (#[trigger] self@[i]).sort_keys@.len()
    }

    /// A merge in which no entry is waiting.
    pub fn new(directions: Vec<bool>) -> (out: KWayMerge<P>)
        ensures
            out@.len() == 0,
            out.order() == directions@,
            out.well_formed(),
    {
        KWayMerge { entries: Vec::new(), directions }
    }

    /// Adds the next entry of a run.
    pub fn push(&mut self, sort_keys: Vec<DbValue>, payload: P, run_index: usize)
        requires
            old(self).well_formed(),
            old(self).order().len() <= sort_keys@.len(),
        ensures
            final(self).well_formed(),
            final(self).order() == old(self).order(),
            final(self)@ == old(self)@.push(HeapEntry { sort_keys, payload, run_index }),
    {
        let ghost before = self@;
        self.entries.push(HeapEntry { sort_keys, payload, run_index });
        assert forall|i: int| 0 <= i < self@.len() implies self.order().len() <= (#[trigger] self@[i]).sort_keys@.len() by {
            if i < before.len() {
                assert(self@[i] == before[i]);
            }
        }
    }

    /// The position of the least entry.
    fn least(&self) -> (out: usize)
        requires
            self.well_formed(),
            self@.len() > 0,
        ensures
            is_least(self@, self.order(), out as int),
    {
        let mut best: usize = 0;
        let mut i: usize = 1;
        proof {
            order::keys_order_reverses(entry_key(self@[0]), entry_key(self@[0]), self.order(), 0);
        }
        while i < self.entries.len()
            invariant
                1 <= i <= self.entries@.len(),
                best < i,
                self.well_formed(),
                forall|j: int|
                    0 <= j < i ==> order::keys_order(entry_key(self@[best as int]), entry_key(#[trigger] self@[j]), self.order())
                        != Order::Greater,
                forall|j: int|
                    0 <= j < best ==> order::keys_order(
                        entry_key(self@[best as int]),
                        entry_key(#[trigger] self@[j]),
                        self.order(),
                    ) == Order::Less,
            decreases self.entries.len() - i,
        {
            assert(self@[best as int] == self.entries@[best as int] && self@[i as int] == self.entries@[i as int]);
            let o = order::compare_keys(&self.entries[i].sort_keys, &self.entries[best].sort_keys, &self.directions);
            proof {
                let d = self.order();
                let x = entry_key(self@[i as int]);
                let y = entry_key(self@[best as int]);
                order::keys_order_reverses(x, y, d, 0);
                order::keys_order_reverses(x, x, d, 0);
                assert forall|j: int| 0 <= j < i implies order::composes(
                    order::keys_order(x, y, d),
                    order::keys_order(y, entry_key(#[trigger] self@[j]), d),
                    order::keys_order(x, entry_key(self@[j]), d),
                ) by {
                    order::keys_order_composes(x, y, entry_key(self@[j]), d, 0);
                }
            }
            match o {
                Order::Less => {
                    best = i;
                },
                _ => {},
            }
            i = i + 1;
        }
        best
    }

    /// Takes the least entry out, the first of those that tie. The next entry of its run is to
    /// be added before the next one is taken.
    pub fn next(&mut self) -> (out: Option<HeapEntry<P>>)
        requires
            old(self).well_formed(),
        ensures
            final(self).well_formed(),
            final(self).order() == old(self).order(),
            match out {
                None => old(self)@.len() == 0 && final(self)@ == old(self)@,
                Some(e) => takes_least(old(self)@, old(self).order(), e, final(self)@),
            },
    {
        if self.entries.len() == 0 {
            return None;
        }
        let at = self.least();
        let ghost before = self@;
        let e = self.entries.remove(at);
        assert(e == before[at as int]);
        assert forall|i: int| 0 <= i < self@.len() implies self.order().len() <= (#[trigger] self@[i]).sort_keys@.len() by {
            if i < at {
                assert(self@[i] == before[i]);
            } else {
                assert(self@[i] == before[i + 1]);
            }
        }
        Some(e)
    }
}

/// Whether no waiting entry is less than a key.
pub open spec fn none_below<P>(s: Seq<HeapEntry<P>>, directions: Seq<bool>, key: Seq<ValueV>) -> bool {
    forall|j: int|
        0 <= j < s.len() ==> order::keys_order(key, entry_key(#[trigger] s[j]), directions) != Order::Greater
}

/// The entries of a merge come out in order: after one was taken out and the next one of its
/// run, which is not less, was added, no waiting entry is less than the one taken out.
pub proof fn entries_come_in_order<P>(
    before: Seq<HeapEntry<P>>,
    directions: Seq<bool>,
    i: int,
    following: Option<HeapEntry<P>>,
)
    requires
        is_least(before, directions, i),
        following matches Some(f) ==> order::keys_order(entry_key(before[i]), entry_key(f), directions)
            != Order::Greater,
    ensures
        none_below(
            match following {
                Some(f) => before.remove(i).push(f),
                None => before.remove(i),
            },
            directions,
            entry_key(before[i]),
        ),
{
    let rest = before.remove(i);
    assert forall|j: int| 0 <= j < rest.len() implies order::keys_order(
        entry_key(before[i]),
        entry_key(#[trigger] rest[j]),
        directions,
    ) != Order::Greater by {
        if j < i {
            assert(rest[j] == before[j]);
        } else {
            assert(rest[j] == before[j + 1]);
        }
    }
}

} // verus!
