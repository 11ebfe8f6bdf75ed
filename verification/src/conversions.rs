//! How values of different types stand to one another: what survives a conversion, and how mixed
//! values compare.

use crate::eval;
use crate::facts::{AnswerV, ErrorV, QuestionV};
use crate::text;
use crate::value;
use crate::value::{DataType, Date, Decimal, Order, Time, Timestamp, ValueV};
use vstd::prelude::*;

verus! {

// ---------------------------------------------------------------- texts of integers

/// The digits of a number stand for it.
pub proof fn digits_stand_for_their_number(n: nat)
    ensures
        text::digits(n).len() > 0,
        text::all_digits(text::digits(n)),
        text::digits_value(text::digits(n)) == n,
    decreases n,
{
    let d = text::digits(n);
    if n < 10 {
        assert(d.drop_last() =~= Seq::empty());
        assert(text::digits_value(d.drop_last()) == 0);
    } else {
        digits_stand_for_their_number(n / 10);
        assert(d.drop_last() =~= text::digits(n / 10));
        assert forall|i: int| 0 <= i < d.len() implies text::is_digit(#[trigger] d[i]) by {
            if i < d.len() - 1 {
                assert(d[i] == text::digits(n / 10)[i]);
            }
        }
    }
}

/// The text of an integer stands for it, and has no white space around it.
pub proof fn texts_of_integers_stand_for_them(i: int)
    ensures
        text::int_value(text::int_text(i)) == Some(i),
        text::trimmed(text::int_text(i)) == text::int_text(i),
{
    let t = text::int_text(i);
    if i < 0 {
        let d = text::digits((-i) as nat);
        digits_stand_for_their_number((-i) as nat);
        assert(t.skip(1) =~= d);
        assert(t[t.len() - 1] == d[d.len() - 1]);
        assert(text::is_digit(d[d.len() - 1]));
    } else {
        digits_stand_for_their_number(i as nat);
        assert(text::is_digit(t[0]));
        assert(text::is_digit(t[t.len() - 1]));
    }
    assert(text::start_trimmed(t) == t);
    assert(text::end_trimmed(t) == t);
}

/// An integer that is converted to a text and back is the same integer.
pub proof fn integers_survive_their_texts(i: i64, known: Seq<(QuestionV, AnswerV)>)
    ensures
        match eval::cast(ValueV::Int(i), DataType::String, known) {
            Ok(t) => eval::cast(t, DataType::Int, known) == Ok::<ValueV, ErrorV>(ValueV::Int(i)),
            Err(_) => false,
        },
{
    texts_of_integers_stand_for_them(i as int);
}

/// A truth value that is converted to an integer and back is the same; true is one and false zero.
pub proof fn truth_values_survive_integers(b: bool, known: Seq<(QuestionV, AnswerV)>)
    ensures
        match eval::cast(ValueV::Bool(b), DataType::Int, known) {
            Ok(v) => {
                &&& v matches ValueV::Int(i) && (i == 1) == b && (i == 0) == !b
                &&& eval::cast(v, DataType::Bool, known) == Ok::<ValueV, ErrorV>(ValueV::Bool(b))
                &&& eval::comparison(v, ValueV::Bool(b), known) == Ok::<Order, ErrorV>(Order::Equal)
            },
            Err(_) => false,
        },
{
}

/// A date that is converted to a timestamp and back is the same; its timestamp comes before no
/// other one of the date, and the order of two timestamps of different dates is that of the dates.
pub proof fn dates_survive_timestamps(d: Date, other: Timestamp, known: Seq<(QuestionV, AnswerV)>)
    ensures
        match eval::cast(ValueV::Date(d), DataType::Timestamp, known) {
            Ok(t) => {
                &&& eval::cast(t, DataType::Date, known) == Ok::<ValueV, ErrorV>(ValueV::Date(d))
                &&& t matches ValueV::Timestamp(m) && {
                    &&& other.date.day() == d.day() ==> value::timestamp_order(m, other) != Order::Greater
                    &&& other.date.day() > d.day() ==> value::timestamp_order(m, other) == Order::Less
                    &&& other.date.day() < d.day() ==> value::timestamp_order(m, other) == Order::Greater
                }
            },
            Err(_) => false,
        },
{
    midnight_is_first(other.time);
}

proof fn midnight_is_first(t: Time)
    ensures
        value::time_order(Time::of(0, 0), t) != Order::Greater,
{
    Time::lemma_of(0, 0);
}

// ---------------------------------------------------------------- mixed values

/// The order of a decimal and an integer is that of the numbers, on either side, and integers
/// compare with decimals as they compare among themselves.
pub proof fn decimals_compare_with_integers_by_value(
    d: Decimal,
    a: i64,
    b: i64,
    known: Seq<(QuestionV, AnswerV)>,
)
    ensures
        eval::comparison(ValueV::Decimal(d), ValueV::Int(a), known) == Ok::<Order, ErrorV>(
            value::int_order(d.numerator() as int, a * value::pow10(d.digits() as nat)),
        ),
        eval::comparison(ValueV::Int(a), ValueV::Decimal(d), known) == Ok::<Order, ErrorV>(
            value::int_order(a * value::pow10(d.digits() as nat), d.numerator() as int),
        ),
{
    broadcast use Decimal::lemma_made;

    let x = Decimal::of(a as i128, 0);
    assert(x.numerator() == a as i128);
    assert(value::pow10(0) == 1);
}

/// Truth values compare with integers as one and zero.
pub proof fn truth_values_compare_as_numbers(b: bool, i: i64, known: Seq<(QuestionV, AnswerV)>)
    ensures
        eval::comparison(ValueV::Bool(b), ValueV::Int(i), known) == Ok::<Order, ErrorV>(
            if b && i == 1 || !b && i == 0 {
                Order::Equal
            } else if i > 1 || !b && i > 0 {
                Order::Less
            } else {
                Order::Greater
            },
        ),
        eval::comparison(ValueV::Bool(false), ValueV::Bool(true), known) == Ok::<Order, ErrorV>(Order::Less),
{
}

/// Dates compare by their days, and times of day by their seconds and then by what is left of them.
pub proof fn dates_and_times_compare_in_time(
    a: Date,
    b: Date,
    s: Time,
    t: Time,
    known: Seq<(QuestionV, AnswerV)>,
)
    ensures
        (eval::comparison(ValueV::Date(a), ValueV::Date(b), known) == Ok::<Order, ErrorV>(Order::Less)) == (a.day()
            < b.day()),
        (eval::comparison(ValueV::Date(a), ValueV::Date(b), known) == Ok::<Order, ErrorV>(Order::Equal)) == (a.day()
            == b.day()),
        (eval::comparison(ValueV::Time(s), ValueV::Time(t), known) == Ok::<Order, ErrorV>(Order::Less)) == (s.second()
            < t.second() || s.second() == t.second() && s.nano() < t.nano()),
        (eval::comparison(ValueV::Time(s), ValueV::Time(t), known) == Ok::<Order, ErrorV>(Order::Equal)) == (s.second()
            == t.second() && s.nano() == t.nano()),
{
}

/// NULL comes before everything.
pub proof fn null_comes_before_everything(v: ValueV, known: Seq<(QuestionV, AnswerV)>)
    requires
        v !is Null,
    ensures
        eval::comparison(ValueV::Null, v, known) == Ok::<Order, ErrorV>(Order::Less),
        eval::comparison(v, ValueV::Null, known) == Ok::<Order, ErrorV>(Order::Greater),
{
}

/// A text and an integer do not compare.
pub proof fn texts_do_not_compare_with_numbers(t: Seq<char>, i: i64, known: Seq<(QuestionV, AnswerV)>)
    ensures
        eval::comparison(ValueV::String(t), ValueV::Int(i), known) is Err,
        eval::comparison(ValueV::Int(i), ValueV::String(t), known) is Err,
{
}

/// Bytes compare by the first byte in which they differ, and a beginning comes before what it
/// begins.
pub proof fn bytes_compare_by_the_first_difference(
    a: Seq<u8>,
    b: Seq<u8>,
    k: int,
    known: Seq<(QuestionV, AnswerV)>,
)
    requires
        0 <= k <= a.len(),
        k <= b.len(),
        a.take(k) == b.take(k),
    ensures
        k < a.len() && k < b.len() && a[k] != b[k] ==> eval::comparison(ValueV::Bytes(a), ValueV::Bytes(b), known) == Ok::<
            Order,
            ErrorV,
        >(if a[k] < b[k] {
            Order::Less
        } else {
            Order::Greater
        }),
        k == a.len() && k < b.len() ==> eval::comparison(ValueV::Bytes(a), ValueV::Bytes(b), known) == Ok::<Order, ErrorV>(
            Order::Less,
        ),
        k == a.len() && k == b.len() ==> eval::comparison(ValueV::Bytes(a), ValueV::Bytes(b), known) == Ok::<Order, ErrorV>(
            Order::Equal,
        ),
{
    bytes_from(a, b, 0, k);
}

proof fn bytes_from(a: Seq<u8>, b: Seq<u8>, i: int, k: int)
    requires
        0 <= i <= k <= a.len(),
        k <= b.len(),
        a.take(k) == b.take(k),
    ensures
        value::bytes_order_from(a, b, i) == value::bytes_order_from(a, b, k),
    decreases k - i,
{
    if i < k {
        assert(a.take(k)[i] == a[i]);
        assert(b.take(k)[i] == b[i]);
        bytes_from(a, b, i + 1, k);
    }
}

/// White space around the text of a date, a time of day or a timestamp does not count.
pub proof fn white_space_around_dates_does_not_count(
    t: Seq<char>,
    u: Seq<char>,
    ty: DataType,
    known: Seq<(QuestionV, AnswerV)>,
)
    requires
        text::trimmed(t) == text::trimmed(u),
        ty == DataType::Date || ty == DataType::Time || ty == DataType::Timestamp,
    ensures
        eval::cast(ValueV::String(t), ty, known) is Ok <==> eval::cast(ValueV::String(u), ty, known) is Ok,
        eval::cast(ValueV::String(t), ty, known) matches Ok(v) ==> eval::cast(ValueV::String(u), ty, known) == Ok::<
            ValueV,
            ErrorV,
        >(v),
{
}

/// A text is converted to the date, the time of day or the decimal that it reads as, and only where
/// it reads as one.
pub proof fn texts_are_converted_as_they_read(t: Seq<char>, known: Seq<(QuestionV, AnswerV)>)
    ensures
        match eval::cast(ValueV::String(t), DataType::Date, known) {
            Ok(v) => v matches ValueV::Date(d) && value::parsed_date(text::trimmed(t)) == Ok::<i32, Seq<char>>(d.day()),
            Err(_) => value::parsed_date(text::trimmed(t)) is Err,
        },
        match eval::cast(ValueV::String(t), DataType::Time, known) {
            Ok(v) => v matches ValueV::Time(m) && value::parsed_time(text::trimmed(t)) == Ok::<(u32, u32), Seq<char>>(
                (m.second(), m.nano()),
            ),
            Err(_) => value::parsed_time(text::trimmed(t)) is Err,
        },
        match eval::cast(ValueV::String(t), DataType::Decimal, known) {
            Ok(v) => v matches ValueV::Decimal(d) && value::parsed_decimal(t) == Ok::<(i128, bool, u32), Seq<char>>(
                d.parts(),
            ),
            Err(_) => value::parsed_decimal(t) is Err,
        },
{
    broadcast use value::Decimal::lemma_made;

    if let Ok(p) = value::parsed_time(text::trimmed(t)) {
        value::Time::lemma_of(p.0, p.1);
    }
    if let Ok(d) = value::parsed_date(text::trimmed(t)) {
        value::Date::lemma_day(d);
    }
}

} // verus!
