//! What the keys of rows are: the values of the key columns, by which a row is found again.

use crate::binding;
use crate::facts;
use crate::facts::ErrorV;
use crate::modify;
use crate::modify::SequenceStep;
use crate::schema;
use crate::schema::{ColumnV, SchemaV};
use crate::value::{KeyV, ValueV};
use vstd::prelude::*;

verus! {

proof fn key_columns_from_are(cols: Seq<ColumnV>, i: int, acc: Seq<usize>, k: usize)
    requires
        0 <= i <= cols.len(),
        cols.len() <= usize::MAX,
        forall|j: int| 0 <= j < acc.len() ==> (#[trigger] acc[j]) < i,
        forall|j: int, h: int| 0 <= j < h < acc.len() ==> #[trigger] acc[j] < #[trigger] acc[h],
    ensures
        ({
            let out = schema::key_columns_from(cols, i, acc);
            &&& k < i ==> out.contains(k) == acc.contains(k)
            &&& i <= k < cols.len() ==> out.contains(k) == cols[k as int].is_primary_key
            &&& k >= cols.len() ==> !out.contains(k)
            &&& forall|j: int, h: int| 0 <= j < h < out.len() ==> #[trigger] out[j] < #[trigger] out[h]
        }),
    decreases cols.len() - i,
{
    if i < cols.len() {
        if cols[i].is_primary_key {
            let next = acc.push(i as usize);
            key_columns_from_are(cols, i + 1, next, k);
            assert(next[acc.len() as int] == i as usize);
            if k < i {
                if acc.contains(k) {
                    let j = choose|j: int| 0 <= j < acc.len() && acc[j] == k;
                    assert(next[j] == k);
                }
                if next.contains(k) {
                    let j = choose|j: int| 0 <= j < next.len() && next[j] == k;
                    assert(acc[j] == k);
                }
            }
            if k == i {
                assert(next.contains(k));
            }
        } else {
            key_columns_from_are(cols, i + 1, acc, k);
            if k == i && acc.contains(k) {
                let j = choose|j: int| 0 <= j < acc.len() && acc[j] == k;
                assert(acc[j] < i);
            }
        }
    } else if acc.contains(k) {
        let j = choose|j: int| 0 <= j < acc.len() && acc[j] == k;
        assert(acc[j] < i);
    }
}

/// The key columns of a table are those that are marked as such, each once and in their order.
pub proof fn key_columns_are_the_marked_ones(cols: Seq<ColumnV>, k: usize)
    requires
        cols.len() <= usize::MAX,
    ensures
        schema::key_columns(cols).contains(k) == (k < cols.len() && cols[k as int].is_primary_key),
        forall|j: int, h: int|
            0 <= j < h < schema::key_columns(cols).len() ==> #[trigger] schema::key_columns(cols)[j]
                < #[trigger] schema::key_columns(cols)[h],
{
    key_columns_from_are(cols, 0, Seq::empty(), k);
}

/// Rows with one key have the same values in their key columns, and rows with the same values in
/// them have one key.
pub proof fn keys_are_the_values_of_the_key_columns(s: SchemaV, a: Seq<ValueV>, b: Seq<ValueV>)
    requires
        s.columns.len() <= usize::MAX,
        a.len() == s.columns.len(),
        b.len() == s.columns.len(),
        modify::primary_key(s, a) is Ok,
        modify::primary_key(s, b) is Ok,
    ensures
        (modify::primary_key(s, a) == modify::primary_key(s, b)) == (forall|k: int|
            0 <= k < s.columns.len() && (#[trigger] s.columns[k]).is_primary_key ==> a[k] == b[k]),
{
    let positions = schema::key_columns(s.columns);
    let x = modify::key_parts(a, positions);
    let y = modify::key_parts(b, positions);
    let p = facts::collected(x, 0, Seq::empty())->Ok_0;
    let q = facts::collected(y, 0, Seq::empty())->Ok_0;
    binding::collected_values(x, 0, Seq::empty(), p);
    binding::collected_values(y, 0, Seq::empty(), q);
    if modify::primary_key(s, a) == modify::primary_key(s, b) {
        assert(p =~= q);
        assert forall|k: int| 0 <= k < s.columns.len() && (#[trigger] s.columns[k]).is_primary_key implies a[k] == b[k] by {
            key_columns_are_the_marked_ones(s.columns, k as usize);
            let j = choose|j: int| 0 <= j < positions.len() && positions[j] == k as usize;
            assert(x[j] == Ok::<KeyV, ErrorV>(p[j]));
            assert(y[j] == Ok::<KeyV, ErrorV>(q[j]));
            assert(modify::key_part(a[k]) == modify::key_part(b[k]));
        }
    }
    if forall|k: int| 0 <= k < s.columns.len() && (#[trigger] s.columns[k]).is_primary_key ==> a[k] == b[k] {
        assert forall|j: int| 0 <= j < positions.len() implies #[trigger] x[j] == y[j] by {
            let k = positions[j];
            key_columns_are_the_marked_ones(s.columns, k);
            assert(positions.contains(k));
            assert(s.columns[k as int].is_primary_key);
            assert(a[k as int] == b[k as int]);
        }
        assert(x =~= y);
    }
}

/// Of the columns that increase automatically, the first one, from a position on, without a value
/// gets the next one, unless one before it has an integer, which the sequence then has to pass; the
/// other columns are left alone.
pub proof fn sequences_serve_the_first_open_column(cols: Seq<ColumnV>, row: Seq<ValueV>, i: int)
    requires
        0 <= i,
        cols.len() <= usize::MAX,
        row.len() == cols.len(),
    ensures
        match modify::sequence_step(cols, row, i) {
            SequenceStep::Next(k) => {
                &&& i <= k < cols.len() && cols[k as int].is_auto_increment && row[k as int] is Null
                &&& forall|j: int| i <= j < k ==> !((#[trigger] cols[j]).is_auto_increment && (row[j] is Null || row[j] is Int))
            },
            SequenceStep::Report(k, v) => {
                &&& i <= k < cols.len() && cols[k as int].is_auto_increment && row[k as int] == ValueV::Int(v)
                &&& forall|j: int| i <= j < k ==> !((#[trigger] cols[j]).is_auto_increment && (row[j] is Null || row[j] is Int))
            },
            SequenceStep::Done => forall|j: int|
                i <= j < cols.len() ==> !((#[trigger] cols[j]).is_auto_increment && (row[j] is Null || row[j] is Int)),
        },
    decreases cols.len() - i,
{
    if i < cols.len() {
        sequences_serve_the_first_open_column(cols, row, i + 1);
    }
}

} // verus!
