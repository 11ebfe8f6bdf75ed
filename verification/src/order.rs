//! A total order of values, and of keys made of values.

use crate::eval;
use crate::facts::{AnswerV, QuestionV};
use crate::value;
use crate::value::{DbValue, Decimal, Order, ValueV};
use vstd::prelude::*;

verus! {

/// The place of the kind of a value in the order: a null comes first.
pub open spec fn kind_rank(v: ValueV) -> int {
    match v {
        ValueV::Null => 0,
        ValueV::Bool(_) => 1,
        ValueV::Int(_) => 2,
        ValueV::Float(_) => 3,
        ValueV::String(_) => 4,
        ValueV::Bytes(_) => 5,
        ValueV::Date(_) => 6,
        ValueV::Time(_) => 7,
        ValueV::Timestamp(_) => 8,
        ValueV::Decimal(_) => 9,
    }
}

/// The order of two floats: every NaN is equal to every other and comes after all numbers.
pub open spec fn total_float_order(a: u64, b: u64) -> Order {
    match value::float_order(a, b) {
        Some(o) => o,
        None => value::int_order(
            value::bool_int(value::float_is_nan(a)),
            value::bool_int(value::float_is_nan(b)),
        ),
    }
}

/// The order of two values: by kind, and among values of one kind by value.
pub open spec fn total_order(l: ValueV, r: ValueV) -> Order {
    match (l, r) {
        (ValueV::Bool(a), ValueV::Bool(b)) => value::int_order(value::bool_int(a), value::bool_int(b)),
        (ValueV::Int(a), ValueV::Int(b)) => value::int_order(a as int, b as int),
        (ValueV::Float(a), ValueV::Float(b)) => total_float_order(a, b),
        (ValueV::String(a), ValueV::String(b)) => value::text_order(a, b),
        (ValueV::Bytes(a), ValueV::Bytes(b)) => value::bytes_order(a, b),
        (ValueV::Date(a), ValueV::Date(b)) => value::date_order(a, b),
        (ValueV::Time(a), ValueV::Time(b)) => value::time_order(a, b),
        (ValueV::Timestamp(a), ValueV::Timestamp(b)) => value::timestamp_order(a, b),
        (ValueV::Decimal(a), ValueV::Decimal(b)) => value::decimal_order(a, b),
        _ => value::int_order(kind_rank(l), kind_rank(r)),
    }
}

/// The place of the kind of a value in the order.
pub fn type_rank(v: &DbValue) -> (out: i64)
    ensures
        out == kind_rank(v@),
{
    match v {
        DbValue::Null => 0,
        DbValue::Bool(_) => 1,
        DbValue::Int(_) => 2,
        DbValue::Float(_) => 3,
        DbValue::String(_) => 4,
        DbValue::Bytes(_) => 5,
        DbValue::Date(_) => 6,
        DbValue::Time(_) => 7,
        DbValue::Timestamp(_) => 8,
        DbValue::Decimal(_) => 9,
    }
}

/// The number of a flag.
fn flag_number(b: bool) -> (out: i64)
    ensures
        out == value::bool_int(b),
{
    if b {
        1
    } else {
        0
    }
}

/// Compares two values.
pub fn total_compare(l: &DbValue, r: &DbValue) -> (out: Order)
    ensures
        out == total_order(l@, r@),
{
    match (l, r) {
        (DbValue::Bool(a), DbValue::Bool(b)) => value::compare_ints(flag_number(*a), flag_number(*b)),
        (DbValue::Int(a), DbValue::Int(b)) => value::compare_ints(*a, *b),
        (DbValue::Float(a), DbValue::Float(b)) => match value::compare_floats(*a, *b) {
            Some(o) => o,
            None => value::compare_ints(flag_number(value::is_nan(*a)), flag_number(value::is_nan(*b))),
        },
        (DbValue::String(a), DbValue::String(b)) => value::compare_texts(a.as_str(), b.as_str()),
        (DbValue::Bytes(a), DbValue::Bytes(b)) => value::compare_bytes(a, b),
        (DbValue::Date(a), DbValue::Date(b)) => value::compare_dates(a, b),
        (DbValue::Time(a), DbValue::Time(b)) => value::compare_times(a, b),
        (DbValue::Timestamp(a), DbValue::Timestamp(b)) => value::compare_timestamps(a, b),
        (DbValue::Decimal(a), DbValue::Decimal(b)) => a.compare(b),
        _ => value::compare_ints(type_rank(l), type_rank(r)),
    }
}

/// The order of two keys from column `i` on: the first column in which they differ decides, in
/// its direction.
pub open spec fn keys_order_from(a: Seq<ValueV>, b: Seq<ValueV>, directions: Seq<bool>, i: int) -> Order
    decreases directions.len() - i,
{
    if i >= directions.len() {
        Order::Equal
    } else {
        let o = total_order(a[i], b[i]);
        if o == Order::Equal {
            keys_order_from(a, b, directions, i + 1)
        } else if directions[i] {
            o
        } else {
            value::reversed(o)
        }
    }
}

/// The order of two keys; `true` is ascending.
pub open spec fn keys_order(a: Seq<ValueV>, b: Seq<ValueV>, directions: Seq<bool>) -> Order {
    keys_order_from(a, b, directions, 0)
}

/// Compares two keys; `true` is ascending.
pub fn compare_keys(a: &Vec<DbValue>, b: &Vec<DbValue>, directions: &Vec<bool>) -> (out: Order)
    requires
        directions@.len() <= a@.len(),
        directions@.len() <= b@.len(),
    ensures
        out == keys_order(value::values_view(a@), value::values_view(b@), directions@),
{
    let ghost x = value::values_view(a@);
    let ghost y = value::values_view(b@);
    let mut i: usize = 0;
    while i < directions.len()
        invariant
            i <= directions@.len(),
            directions@.len() <= a@.len(),
            directions@.len() <= b@.len(),
            x == value::values_view(a@),
            y == value::values_view(b@),
            keys_order(x, y, directions@) == keys_order_from(x, y, directions@, i as int),
        decreases directions.len() - i,
    {
        assert(x[i as int] == a@[i as int]@ && y[i as int] == b@[i as int]@);
        match total_compare(&a[i], &b[i]) {
            Order::Equal => {},
            o => {
                return if directions[i] {
                    o
                } else {
                    o.reverse()
                };
            },
        }
        i = i + 1;
    }
    Order::Equal
}

// ---------------------------------------------------------------- laws

/// Whether the order of `a` and `c` is what those of `a` and `b`, and of `b` and `c`, imply.
pub open spec fn composes(ab: Order, bc: Order, ac: Order) -> bool {
    &&& ab == Order::Equal ==> ac == bc
    &&& bc == Order::Equal ==> ac == ab
    &&& ab == bc ==> ac == ab
}

/// Ten to any power is positive.
proof fn pow10_is_positive(n: nat)
    ensures
        value::pow10(n) > 0,
    decreases n,
{
    if n > 0 {
        pow10_is_positive((n - 1) as nat);
    }
}

proof fn fractions_compose(am: int, pa: int, bm: int, pb: int, cm: int, pc: int)
    requires
        pa > 0,
        pb > 0,
        pc > 0,
    ensures
        composes(
            value::int_order(am * pb, bm * pa),
            value::int_order(bm * pc, cm * pb),
            value::int_order(am * pc, cm * pa),
        ),
{
    let x = am * pb;
    let y = bm * pa;
    let u = bm * pc;
    let v = cm * pb;
    let l = am * pc;
    let r = cm * pa;
    // All three comparisons are those of l * pb, y * pc and r * pb.
    assert(l * pb == x * pc) by (nonlinear_arith)
        requires
            l == am * pc,
            x == am * pb,
    ;
    assert(y * pc == u * pa) by (nonlinear_arith)
        requires
            y == bm * pa,
            u == bm * pc,
    ;
    assert(r * pb == v * pa) by (nonlinear_arith)
        requires
            r == cm * pa,
            v == cm * pb,
    ;
    scaled_order(x, y, pc);
    scaled_order(u, v, pa);
    scaled_order(l, r, pb);
}

/// Scaling both sides of a comparison by a positive number keeps it.
proof fn scaled_order(x: int, y: int, p: int)
    requires
        p > 0,
    ensures
        value::int_order(x * p, y * p) == value::int_order(x, y),
{
    assert(x < y ==> x * p < y * p) by (nonlinear_arith)
        requires
            p > 0,
    ;
    assert(x > y ==> x * p > y * p) by (nonlinear_arith)
        requires
            p > 0,
    ;
}

proof fn decimals_compose(a: Decimal, b: Decimal, c: Decimal)
    ensures
        composes(value::decimal_order(a, b), value::decimal_order(b, c), value::decimal_order(a, c)),
{
    pow10_is_positive(a.digits() as nat);
    pow10_is_positive(b.digits() as nat);
    pow10_is_positive(c.digits() as nat);
    fractions_compose(
        a.numerator() as int,
        value::pow10(a.digits() as nat),
        b.numerator() as int,
        value::pow10(b.digits() as nat),
        c.numerator() as int,
        value::pow10(c.digits() as nat),
    );
}

proof fn texts_compose(a: Seq<char>, b: Seq<char>, c: Seq<char>, i: int)
    ensures
        composes(
            value::text_order_from(a, b, i),
            value::text_order_from(b, c, i),
            value::text_order_from(a, c, i),
        ),
    decreases a.len() - i,
{
    if i < a.len() && i < b.len() && i < c.len() {
        texts_compose(a, b, c, i + 1);
    }
}

proof fn texts_reverse(a: Seq<char>, b: Seq<char>, i: int)
    ensures
        value::text_order_from(b, a, i) == value::reversed(value::text_order_from(a, b, i)),
    decreases a.len() - i,
{
    if i < a.len() && i < b.len() {
        texts_reverse(a, b, i + 1);
    }
}

proof fn bytes_compose(a: Seq<u8>, b: Seq<u8>, c: Seq<u8>, i: int)
    ensures
        composes(
            value::bytes_order_from(a, b, i),
            value::bytes_order_from(b, c, i),
            value::bytes_order_from(a, c, i),
        ),
    decreases a.len() - i,
{
    if i < a.len() && i < b.len() && i < c.len() {
        bytes_compose(a, b, c, i + 1);
    }
}

proof fn bytes_reverse(a: Seq<u8>, b: Seq<u8>, i: int)
    ensures
        value::bytes_order_from(b, a, i) == value::reversed(value::bytes_order_from(a, b, i)),
    decreases a.len() - i,
{
    if i < a.len() && i < b.len() {
        bytes_reverse(a, b, i + 1);
    }
}

/// Comparing two values the other way round gives the opposite outcome.
pub proof fn total_order_reverses(a: ValueV, b: ValueV)
    ensures
        total_order(b, a) == value::reversed(total_order(a, b)),
{
    match (a, b) {
        (ValueV::String(x), ValueV::String(y)) => texts_reverse(x, y, 0),
        (ValueV::Bytes(x), ValueV::Bytes(y)) => bytes_reverse(x, y, 0),
        _ => {},
    }
}

/// The order of values is transitive, and values that tie compare alike with all others.
pub proof fn total_order_composes(a: ValueV, b: ValueV, c: ValueV)
    ensures
        composes(total_order(a, b), total_order(b, c), total_order(a, c)),
{
    match (a, b, c) {
        (ValueV::String(x), ValueV::String(y), ValueV::String(z)) => texts_compose(x, y, z, 0),
        (ValueV::Bytes(x), ValueV::Bytes(y), ValueV::Bytes(z)) => bytes_compose(x, y, z, 0),
        (ValueV::Decimal(x), ValueV::Decimal(y), ValueV::Decimal(z)) => decimals_compose(x, y, z),
        _ => {},
    }
}

/// Comparing two keys the other way round gives the opposite outcome.
pub proof fn keys_order_reverses(a: Seq<ValueV>, b: Seq<ValueV>, directions: Seq<bool>, i: int)
    ensures
        keys_order_from(b, a, directions, i) == value::reversed(keys_order_from(a, b, directions, i)),
    decreases directions.len() - i,
{
    if i < directions.len() {
        total_order_reverses(a[i], b[i]);
        keys_order_reverses(a, b, directions, i + 1);
    }
}

/// The order of keys is transitive, and keys that tie compare alike with all others.
pub proof fn keys_order_composes(a: Seq<ValueV>, b: Seq<ValueV>, c: Seq<ValueV>, directions: Seq<bool>, i: int)
    ensures
        composes(
            keys_order_from(a, b, directions, i),
            keys_order_from(b, c, directions, i),
            keys_order_from(a, c, directions, i),
        ),
    decreases directions.len() - i,
{
    if i < directions.len() {
        total_order_composes(a[i], b[i], c[i]);
        total_order_reverses(a[i], b[i]);
        total_order_reverses(b[i], c[i]);
        keys_order_composes(a, b, c, directions, i + 1);
    }
}

/// Whether two values are equal: of one kind and alike in value. All NaNs are equal, and so
/// are the two zeros and decimals of one value.
pub open spec fn alike(a: ValueV, b: ValueV) -> bool {
    match (a, b) {
        (ValueV::Float(x), ValueV::Float(y)) => value::float_order(x, y) == Some(Order::Equal) || (value::float_is_nan(x)
            && value::float_is_nan(y)),
        (ValueV::Decimal(x), ValueV::Decimal(y)) => x.numerator() * value::pow10(y.digits() as nat) == y.numerator()
            * value::pow10(x.digits() as nat),
        (ValueV::Date(x), ValueV::Date(y)) => x.day() == y.day(),
        (ValueV::Time(x), ValueV::Time(y)) => x.second() == y.second() && x.nano() == y.nano(),
        (ValueV::Timestamp(x), ValueV::Timestamp(y)) => x.date.day() == y.date.day() && x.time.second()
            == y.time.second() && x.time.nano() == y.time.nano(),
        _ => a == b,
    }
}

proof fn equal_texts(a: Seq<char>, b: Seq<char>, i: int)
    requires
        0 <= i,
    ensures
        value::text_order_from(a, b, i) == Order::Equal <==> (a.len() == b.len() || (i >= a.len() && i >= b.len())) && (
        forall|j: int| i <= j < a.len() ==> a[j] == b[j]),
    decreases a.len() - i,
{
    if i < a.len() && i < b.len() {
        equal_texts(a, b, i + 1);
        if a[i] == b[i] && value::text_order_from(a, b, i) == Order::Equal {
            assert forall|j: int| i <= j < a.len() implies a[j] == b[j] by {
                if j > i {
                    assert(i + 1 <= j);
                }
            }
        }
    }
}

proof fn equal_bytes(a: Seq<u8>, b: Seq<u8>, i: int)
    requires
        0 <= i,
    ensures
        value::bytes_order_from(a, b, i) == Order::Equal <==> (a.len() == b.len() || (i >= a.len() && i >= b.len()))
            && (forall|j: int| i <= j < a.len() ==> a[j] == b[j]),
    decreases a.len() - i,
{
    if i < a.len() && i < b.len() {
        equal_bytes(a, b, i + 1);
        if a[i] == b[i] && value::bytes_order_from(a, b, i) == Order::Equal {
            assert forall|j: int| i <= j < a.len() implies a[j] == b[j] by {
                if j > i {
                    assert(i + 1 <= j);
                }
            }
        }
    }
}

/// Two values tie in the order exactly when they are equal.
pub proof fn ties_are_equal(a: ValueV, b: ValueV)
    ensures
        total_order(a, b) == Order::Equal <==> alike(a, b),
{
    match (a, b) {
        (ValueV::String(x), ValueV::String(y)) => {
            equal_texts(x, y, 0);
            if total_order(a, b) == Order::Equal {
                assert(x =~= y);
            }
        },
        (ValueV::Bytes(x), ValueV::Bytes(y)) => {
            equal_bytes(x, y, 0);
            if total_order(a, b) == Order::Equal {
                assert(x =~= y);
            }
        },
        _ => {},
    }
}

/// Keys sort by the first column in which they differ: the lesser value first where the column is
/// ascending, and the greater one first where it is descending.
pub proof fn the_first_difference_decides(a: Seq<ValueV>, b: Seq<ValueV>, directions: Seq<bool>, k: int)
    requires
        0 <= k < directions.len(),
        forall|j: int| 0 <= j < k ==> total_order(#[trigger] a[j], b[j]) == Order::Equal,
        total_order(a[k], b[k]) != Order::Equal,
    ensures
        directions[k] ==> (keys_order(a, b, directions) == Order::Less) == (total_order(a[k], b[k]) == Order::Less),
        !directions[k] ==> (keys_order(a, b, directions) == Order::Less) == (total_order(a[k], b[k]) == Order::Greater),
{
    equal_columns_are_skipped(a, b, directions, 0, k);
}

proof fn equal_columns_are_skipped(a: Seq<ValueV>, b: Seq<ValueV>, directions: Seq<bool>, i: int, k: int)
    requires
        0 <= i <= k < directions.len(),
        forall|j: int| 0 <= j < k ==> total_order(#[trigger] a[j], b[j]) == Order::Equal,
    ensures
        keys_order_from(a, b, directions, i) == keys_order_from(a, b, directions, k),
    decreases k - i,
{
    if i < k {
        assert(total_order(a[i], b[i]) == Order::Equal);
        equal_columns_are_skipped(a, b, directions, i + 1, k);
    }
}

/// Values of one kind sort as they compare; a null sorts before every other value.
pub proof fn values_sort_as_they_compare(l: ValueV, r: ValueV, known: Seq<(QuestionV, AnswerV)>)
    ensures
        kind_rank(l) == kind_rank(r) ==> (eval::comparison(l, r, known) matches Ok(o) ==> total_order(l, r) == o),
        l is Null && r !is Null ==> total_order(l, r) == Order::Less,
{
}

} // verus!
