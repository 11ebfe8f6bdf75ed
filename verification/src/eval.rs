//! Evaluation of scalar expressions against a row.

use crate::expr;
use crate::expr::{Expr, ExprV, Operator};
use crate::facts;
use crate::facts::{AnswerV, ErrorKind, ErrorV, Facts, FloatOp, Question, QuestionV, SqlError};
use crate::schema;
use crate::schema::{IndexType, IndexV, Row, Schema, SchemaV};
use crate::text;
use crate::value;
use crate::value::{DataType, Date, DbValue, Decimal, Order, Time, Timestamp, ValueV};
use vstd::prelude::*;
use vstd::string::*;

verus! {

/// The model of an outcome that is a value.
pub open spec fn value_result(r: Result<DbValue, SqlError>) -> Result<ValueV, ErrorV> {
    match r {
        Ok(v) => Ok(v@),
        Err(e) => Err(e@),
    }
}

/// The model of an outcome that is a text.
pub open spec fn text_result(r: Result<String, SqlError>) -> Result<Seq<char>, ErrorV> {
    match r {
        Ok(v) => Ok(v@),
        Err(e) => Err(e@),
    }
}

/// The model of an outcome that needs no view but that of its error.
pub open spec fn plain_result<T>(r: Result<T, SqlError>) -> Result<T, ErrorV> {
    match r {
        Ok(v) => Ok(v),
        Err(e) => Err(e@),
    }
}

// ---------------------------------------------------------------- conversions

/// The text of a value.
pub open spec fn value_text(v: ValueV, known: Seq<(QuestionV, AnswerV)>) -> Result<Seq<char>, ErrorV> {
    match v {
        ValueV::String(s) => Ok(s),
        ValueV::Int(i) => Ok(text::int_text(i as int)),
        ValueV::Float(f) => facts::text_fact(known, QuestionV::FloatText(f)),
        ValueV::Bytes(b) => Ok(text::lossy_utf8(b)),
        ValueV::Bool(b) => Ok(
            if b {
                "true"@
            } else {
                "false"@
            },
        ),
        ValueV::Null => Ok("NULL"@),
        ValueV::Date(d) => Ok(value::date_text(d.day())),
        ValueV::Time(t) => Ok(value::time_text(t.second(), t.nano())),
        ValueV::Timestamp(t) => Ok(value::timestamp_text(t.date.day(), t.time.second(), t.time.nano())),
        ValueV::Decimal(d) => Ok(value::decimal_text(d.parts())),
    }
}

/// The text of a value.
pub fn coerce_to_string(v: &DbValue, facts: &Facts) -> (out: Result<String, SqlError>)
    ensures
        text_result(out) == value_text(v@, facts@),
{
    match v {
        DbValue::String(s) => Ok(s.clone()),
        DbValue::Int(i) => Ok(text::int_to_text(*i)),
        DbValue::Float(f) => facts.text(Question::FloatText(*f)),
        DbValue::Bytes(b) => Ok(text::from_utf8_lossy(b)),
        DbValue::Bool(b) => if *b {
            Ok("true".to_owned())
        } else {
            Ok("false".to_owned())
        },
        DbValue::Null => Ok("NULL".to_owned()),
        DbValue::Date(d) => Ok(d.to_text()),
        DbValue::Time(t) => Ok(t.to_text()),
        DbValue::Timestamp(t) => Ok(t.to_text()),
        DbValue::Decimal(d) => Ok(d.to_text()),
    }
}

/// The truth value of a value: an integer is true unless it is zero, and NULL is false.
pub open spec fn truth(v: ValueV) -> Result<bool, ErrorV> {
    match v {
        ValueV::Bool(b) => Ok(b),
        ValueV::Int(i) => Ok(i != 0),
        ValueV::Null => Ok(false),
        _ => Err(facts::value_error(ErrorKind::NotBoolean, v)),
    }
}

/// The truth value of a value.
pub fn to_bool(v: &DbValue) -> (out: Result<bool, SqlError>)
    ensures
        plain_result(out) == truth(v@),
{
    match v {
        DbValue::Bool(b) => Ok(*b),
        DbValue::Int(i) => Ok(*i != 0),
        DbValue::Null => Ok(false),
        other => Err(SqlError::about(ErrorKind::NotBoolean, other)),
    }
}

/// The text of a value that must be a text.
pub open spec fn string_value(v: ValueV) -> Result<Seq<char>, ErrorV> {
    match v {
        ValueV::String(s) => Ok(s),
        _ => Err(facts::value_error(ErrorKind::NotString, v)),
    }
}

/// The text of a value that must be a text.
pub fn to_string_val(v: &DbValue) -> (out: Result<String, SqlError>)
    ensures
        text_result(out) == string_value(v@),
{
    match v {
        DbValue::String(s) => Ok(s.clone()),
        other => Err(SqlError::about(ErrorKind::NotString, other)),
    }
}

/// The error that a value has no conversion to the type with a name.
pub open spec fn cast_error(v: ValueV, target: Seq<char>) -> ErrorV {
    ErrorV { kind: ErrorKind::CannotCast, names: seq![target], values: seq![v], expr: None, question: None }
}

/// The error that a value has no conversion to the type with a name.
fn cannot_cast(v: &DbValue, target: &str) -> (out: SqlError)
    ensures
        out@ == cast_error(v@, target@),
{
    let mut names: Vec<String> = Vec::new();
    names.push(target.to_owned());
    let mut values: Vec<DbValue> = Vec::new();
    values.push(v.clone());
    let out = SqlError { kind: ErrorKind::CannotCast, names, values, expr: None, question: None };
    assert(out@ =~= cast_error(v@, target@));
    out
}

/// An error about two names.
pub open spec fn two_names_error(kind: ErrorKind, a: Seq<char>, b: Seq<char>) -> ErrorV {
    facts::names_error(kind, seq![a, b])
}

/// An error about two names.
pub fn about_two_names(kind: ErrorKind, a: &str, b: &str) -> (out: SqlError)
    ensures
        out@ == two_names_error(kind, a@, b@),
{
    let mut names: Vec<String> = Vec::new();
    names.push(a.to_owned());
    names.push(b.to_owned());
    assert(text::views(names@) =~= seq![a@, b@]);
    SqlError::about_names(kind, names)
}

/// A value converted to an integer.
pub open spec fn cast_int(v: ValueV, known: Seq<(QuestionV, AnswerV)>) -> Result<ValueV, ErrorV> {
    match v {
        ValueV::Int(_) => Ok(v),
        ValueV::Float(f) => match facts::int_fact(known, QuestionV::IntOfFloat(f)) {
            Ok(i) => Ok(ValueV::Int(i)),
            Err(x) => Err(x),
        },
        ValueV::Decimal(d) => {
            let i = value::decimal_trunc(d.numerator() as int, d.digits() as nat);
            if i64::MIN <= i <= i64::MAX {
                Ok(ValueV::Int(i as i64))
            } else {
                Err(facts::value_error(ErrorKind::DecimalToIntCast, v))
            }
        },
        ValueV::Bool(b) => Ok(
            ValueV::Int(
                if b {
                    1
                } else {
                    0
                },
            ),
        ),
        ValueV::String(s) => match text::int_value(text::trimmed(s)) {
            Some(i) if i64::MIN <= i <= i64::MAX => Ok(ValueV::Int(i as i64)),
            _ => Err(facts::named_error(ErrorKind::CastInt, text::int_parse_error(text::trimmed(s)))),
        },
        _ => Err(cast_error(v, "INT"@)),
    }
}

/// A value converted to a float.
pub open spec fn cast_float(v: ValueV, known: Seq<(QuestionV, AnswerV)>) -> Result<ValueV, ErrorV> {
    match v {
        ValueV::Int(i) => match facts::float_fact(known, QuestionV::FloatOfInt(i)) {
            Ok(f) => Ok(ValueV::Float(f)),
            Err(x) => Err(x),
        },
        ValueV::Float(_) => Ok(v),
        ValueV::Decimal(d) => match facts::optional_float_fact(known, QuestionV::FloatOfDecimal(d)) {
            Ok(Some(f)) => Ok(ValueV::Float(f)),
            Ok(None) => Err(facts::value_error(ErrorKind::DecimalToFloatCast, v)),
            Err(x) => Err(x),
        },
        ValueV::Bool(b) => Ok(
            ValueV::Float(
                if b {
                    ONE_BITS
                } else {
                    0
                },
            ),
        ),
        ValueV::String(s) => match facts::parsed_float_fact(known, QuestionV::FloatParsed(text::trimmed(s))) {
            Ok(Ok(f)) => Ok(ValueV::Float(f)),
            Ok(Err(m)) => Err(facts::named_error(ErrorKind::CastFloat, m)),
            Err(x) => Err(x),
        },
        _ => Err(cast_error(v, "FLOAT"@)),
    }
}

/// The bits of the float one.
pub const ONE_BITS: u64 = 0x3FF0_0000_0000_0000;

/// A value converted to a decimal.
pub open spec fn cast_decimal(v: ValueV, known: Seq<(QuestionV, AnswerV)>) -> Result<ValueV, ErrorV> {
    match v {
        ValueV::Int(i) => Ok(ValueV::Decimal(Decimal::of(i as i128, 0))),
        ValueV::Float(f) => match facts::decimal_fact(known, QuestionV::DecimalOfFloat(f)) {
            Ok(Some(d)) => Ok(ValueV::Decimal(d)),
            Ok(None) => Err(facts::value_error(ErrorKind::FloatToDecimalCast, v)),
            Err(x) => Err(x),
        },
        ValueV::Decimal(_) => Ok(v),
        ValueV::String(s) => match value::parsed_decimal(s) {
            Ok(p) => Ok(ValueV::Decimal(Decimal::made(p))),
            Err(m) => Err(facts::named_error(ErrorKind::CastDecimal, m)),
        },
        _ => Err(cast_error(v, "DECIMAL"@)),
    }
}

/// A value converted to a date.
pub open spec fn cast_date(v: ValueV) -> Result<ValueV, ErrorV> {
    match v {
        ValueV::Date(_) => Ok(v),
        ValueV::Timestamp(t) => Ok(ValueV::Date(t.date)),
        ValueV::String(s) => match value::parsed_date(text::trimmed(s)) {
            Ok(d) => Ok(ValueV::Date(Date::of(d))),
            Err(m) => Err(two_names_error(ErrorKind::CastDate, s, m)),
        },
        _ => Err(cast_error(v, "DATE"@)),
    }
}

/// A value converted to a time of day.
pub open spec fn cast_time(v: ValueV) -> Result<ValueV, ErrorV> {
    match v {
        ValueV::Time(_) => Ok(v),
        ValueV::String(s) => match value::parsed_time(text::trimmed(s)) {
            Ok(t) => Ok(ValueV::Time(Time::of(t.0, t.1))),
            Err(m) => Err(two_names_error(ErrorKind::CastTime, s, m)),
        },
        _ => Err(cast_error(v, "TIME"@)),
    }
}

/// A value converted to a timestamp; a date means its midnight.
pub open spec fn cast_timestamp(v: ValueV) -> Result<ValueV, ErrorV> {
    match v {
        ValueV::Timestamp(_) => Ok(v),
        ValueV::Date(d) => Ok(ValueV::Timestamp(Timestamp { date: d, time: Time::of(0, 0) })),
        ValueV::String(s) => match value::timestamp_parts(text::trimmed(s)) {
            Some(p) => Ok(ValueV::Timestamp(value::timestamp_of(p))),
            None => Err(facts::named_error(ErrorKind::CastTimestamp, s)),
        },
        _ => Err(cast_error(v, "TIMESTAMP"@)),
    }
}

/// A value converted to a type. NULL stays NULL.
pub open spec fn cast(v: ValueV, target: DataType, known: Seq<(QuestionV, AnswerV)>) -> Result<ValueV, ErrorV> {
    if v is Null {
        Ok(v)
    } else {
        match target {
            DataType::Int => cast_int(v, known),
            DataType::Float => cast_float(v, known),
            DataType::Decimal => cast_decimal(v, known),
            DataType::String => match value_text(v, known) {
                Ok(s) => Ok(ValueV::String(s)),
                Err(x) => Err(x),
            },
            DataType::Bytes => match v {
                ValueV::Bytes(_) => Ok(v),
                ValueV::String(s) => Ok(ValueV::Bytes(vstd::utf8::encode_utf8(s))),
                _ => Err(cast_error(v, "BYTES"@)),
            },
            DataType::Bool => match truth(v) {
                Ok(b) => Ok(ValueV::Bool(b)),
                Err(x) => Err(x),
            },
            DataType::Null => Ok(ValueV::Null),
            DataType::Date => cast_date(v),
            DataType::Time => cast_time(v),
            DataType::Timestamp => cast_timestamp(v),
        }
    }
}

/// The bytes of a text.
fn text_bytes(s: &str) -> (out: Vec<u8>)
    ensures
        out@ == vstd::utf8::encode_utf8(s@),
{
    let b = s.as_bytes();
    let mut out: Vec<u8> = Vec::new();
    for i in 0..b.len()
        invariant
            out@ == b@.take(i as int),
    {
        out.push(b[i]);
        assert(out@ =~= b@.take(i + 1));
    }
    assert(out@ =~= b@);
    out
}

/// A value converted to an integer.
fn value_to_int(v: &DbValue, facts: &Facts) -> (out: Result<DbValue, SqlError>)
    ensures
        value_result(out) == cast_int(v@, facts@),
{
    match v {
        DbValue::Int(i) => Ok(DbValue::Int(*i)),
        DbValue::Float(f) => {
            let i: i64 = facts.integer(Question::IntOfFloat(*f))?;
            Ok(DbValue::Int(i))
        },
        DbValue::Decimal(d) => match d.to_int() {
            Some(i) => Ok(DbValue::Int(i)),
            None => Err(SqlError::about(ErrorKind::DecimalToIntCast, v)),
        },
        DbValue::Bool(b) => Ok(
            DbValue::Int(
                if *b {
                    1
                } else {
                    0
                },
            ),
        ),
        DbValue::String(s) => {
            let t = text::trim(s.as_str());
            match text::parse_int(t.as_str()) {
                Ok(i) => Ok(DbValue::Int(i)),
                Err(m) => Err(SqlError::named(ErrorKind::CastInt, m.as_str())),
            }
        },
        _ => Err(cannot_cast(v, "INT")),
    }
}

/// A value converted to a float.
fn value_to_float(v: &DbValue, facts: &Facts) -> (out: Result<DbValue, SqlError>)
    ensures
        value_result(out) == cast_float(v@, facts@),
{
    match v {
        DbValue::Int(i) => {
            let f: u64 = facts.float(Question::FloatOfInt(*i))?;
            Ok(DbValue::Float(f))
        },
        DbValue::Float(f) => Ok(DbValue::Float(*f)),
        DbValue::Decimal(d) => match facts.optional_float(Question::FloatOfDecimal(*d)) {
            Ok(Some(f)) => Ok(DbValue::Float(f)),
            Ok(None) => Err(SqlError::about(ErrorKind::DecimalToFloatCast, v)),
            Err(x) => Err(x),
        },
        DbValue::Bool(b) => Ok(
            DbValue::Float(
                if *b {
                    ONE_BITS
                } else {
                    0
                },
            ),
        ),
        DbValue::String(s) => {
            let t = text::trim(s.as_str());
            match facts.parsed_float(Question::FloatParsed(t)) {
                Ok(Ok(f)) => Ok(DbValue::Float(f)),
                Ok(Err(m)) => Err(SqlError::named(ErrorKind::CastFloat, m.as_str())),
                Err(x) => Err(x),
            }
        },
        _ => Err(cannot_cast(v, "FLOAT")),
    }
}

/// A value converted to a decimal.
fn value_to_decimal(v: &DbValue, facts: &Facts) -> (out: Result<DbValue, SqlError>)
    ensures
        value_result(out) == cast_decimal(v@, facts@),
{
    match v {
        DbValue::Int(i) => Ok(DbValue::Decimal(Decimal::from_int(*i))),
        DbValue::Float(f) => match facts.decimal(Question::DecimalOfFloat(*f)) {
            Ok(Some(d)) => Ok(DbValue::Decimal(d)),
            Ok(None) => Err(SqlError::about(ErrorKind::FloatToDecimalCast, v)),
            Err(x) => Err(x),
        },
        DbValue::Decimal(d) => Ok(DbValue::Decimal(*d)),
        DbValue::String(s) => match Decimal::parse(s.as_str()) {
            Ok(d) => Ok(DbValue::Decimal(d)),
            Err(m) => Err(SqlError::named(ErrorKind::CastDecimal, m.as_str())),
        },
        _ => Err(cannot_cast(v, "DECIMAL")),
    }
}

/// A value converted to a type. NULL stays NULL.
pub fn cast_value(v: DbValue, target: DataType, facts: &Facts) -> (out: Result<DbValue, SqlError>)
    ensures
        value_result(out) == cast(v@, target, facts@),
{
    if v.is_null() {
        return Ok(v);
    }
    match target {
        DataType::Int => value_to_int(&v, facts),
        DataType::Float => value_to_float(&v, facts),
        DataType::Decimal => value_to_decimal(&v, facts),
        DataType::String => {
            let s = coerce_to_string(&v, facts)?;
            Ok(DbValue::String(s))
        },
        DataType::Bytes => match v {
            DbValue::Bytes(b) => Ok(DbValue::Bytes(b)),
            DbValue::String(s) => Ok(DbValue::Bytes(text_bytes(s.as_str()))),
            other => Err(cannot_cast(&other, "BYTES")),
        },
        DataType::Bool => {
            let b = to_bool(&v)?;
            Ok(DbValue::Bool(b))
        },
        DataType::Null => Ok(DbValue::Null),
        DataType::Date => match v {
            DbValue::Date(d) => Ok(DbValue::Date(d)),
            DbValue::Timestamp(t) => Ok(DbValue::Date(t.date)),
            DbValue::String(s) => {
                let t = text::trim(s.as_str());
                match Date::parse(t.as_str()) {
                    Ok(d) => Ok(DbValue::Date(d)),
                    Err(m) => Err(about_two_names(ErrorKind::CastDate, s.as_str(), m.as_str())),
                }
            },
            other => Err(cannot_cast(&other, "DATE")),
        },
        DataType::Time => match v {
            DbValue::Time(t) => Ok(DbValue::Time(t)),
            DbValue::String(s) => {
                let t = text::trim(s.as_str());
                match Time::parse(t.as_str()) {
                    Ok(d) => Ok(DbValue::Time(d)),
                    Err(m) => Err(about_two_names(ErrorKind::CastTime, s.as_str(), m.as_str())),
                }
            },
            other => Err(cannot_cast(&other, "TIME")),
        },
        DataType::Timestamp => match v {
            DbValue::Timestamp(t) => Ok(DbValue::Timestamp(t)),
            DbValue::Date(d) => Ok(DbValue::Timestamp(Timestamp { date: d, time: Time::midnight() })),
            DbValue::String(s) => {
                let t = text::trim(s.as_str());
                match Timestamp::parse(t.as_str()) {
                    Some(d) => Ok(DbValue::Timestamp(d)),
                    None => Err(SqlError::named(ErrorKind::CastTimestamp, s.as_str())),
                }
            },
            other => Err(cannot_cast(&other, "TIMESTAMP")),
        },
    }
}

// ---------------------------------------------------------------- comparison

/// The order of two floats; a NaN is an error.
pub open spec fn ordered_floats(a: u64, b: u64) -> Result<Order, ErrorV> {
    match value::float_order(a, b) {
        Some(o) => Ok(o),
        None => Err(facts::plain_error(ErrorKind::NanComparison)),
    }
}

/// The order of two values. NULL comes before everything; numbers of different types
/// are compared by value, and truth values compare with integers as zero and one.
pub open spec fn comparison(l: ValueV, r: ValueV, known: Seq<(QuestionV, AnswerV)>) -> Result<Order, ErrorV> {
    match (l, r) {
        (ValueV::Null, ValueV::Null) => Ok(Order::Equal),
        (ValueV::Null, _) => Ok(Order::Less),
        (_, ValueV::Null) => Ok(Order::Greater),
        (ValueV::Int(a), ValueV::Int(b)) => Ok(value::int_order(a as int, b as int)),
        (ValueV::Float(a), ValueV::Float(b)) => ordered_floats(a, b),
        (ValueV::Int(a), ValueV::Float(b)) => match facts::float_fact(known, QuestionV::FloatOfInt(a)) {
            Ok(f) => ordered_floats(f, b),
            Err(x) => Err(x),
        },
        (ValueV::Float(a), ValueV::Int(b)) => match facts::float_fact(known, QuestionV::FloatOfInt(b)) {
            Ok(f) => ordered_floats(a, f),
            Err(x) => Err(x),
        },
        (ValueV::Bool(a), ValueV::Bool(b)) => Ok(value::int_order(value::bool_int(a), value::bool_int(b))),
        (ValueV::Bool(a), ValueV::Int(b)) => Ok(value::int_order(value::bool_int(a), b as int)),
        (ValueV::Int(a), ValueV::Bool(b)) => Ok(value::int_order(a as int, value::bool_int(b))),
        (ValueV::String(a), ValueV::String(b)) => Ok(value::text_order(a, b)),
        (ValueV::Bytes(a), ValueV::Bytes(b)) => Ok(value::bytes_order(a, b)),
        (ValueV::Decimal(a), ValueV::Decimal(b)) => Ok(value::decimal_order(a, b)),
        (ValueV::Decimal(a), ValueV::Int(b)) => Ok(value::decimal_order(a, Decimal::of(b as i128, 0))),
        (ValueV::Int(a), ValueV::Decimal(b)) => Ok(value::decimal_order(Decimal::of(a as i128, 0), b)),
        (ValueV::Decimal(a), ValueV::Float(b)) => match facts::optional_float_fact(known, QuestionV::FloatOfDecimal(a)) {
            Ok(Some(f)) => ordered_floats(f, b),
            Ok(None) => Err(facts::plain_error(ErrorKind::DecimalToFloat)),
            Err(x) => Err(x),
        },
        (ValueV::Float(a), ValueV::Decimal(b)) => match facts::optional_float_fact(known, QuestionV::FloatOfDecimal(b)) {
            Ok(Some(f)) => ordered_floats(a, f),
            Ok(None) => Err(facts::plain_error(ErrorKind::DecimalToFloat)),
            Err(x) => Err(x),
        },
        (ValueV::Date(a), ValueV::Date(b)) => Ok(value::date_order(a, b)),
        (ValueV::Time(a), ValueV::Time(b)) => Ok(value::time_order(a, b)),
        (ValueV::Timestamp(a), ValueV::Timestamp(b)) => Ok(value::timestamp_order(a, b)),
        _ => Err(facts::values_error(ErrorKind::TypeMismatch, l, r)),
    }
}

/// Compares two floats; a NaN is an error.
fn compare_float_values(a: u64, b: u64) -> (out: Result<Order, SqlError>)
    ensures
        plain_result(out) == ordered_floats(a, b),
{
    match value::compare_floats(a, b) {
        Some(o) => Ok(o),
        None => Err(SqlError::plain(ErrorKind::NanComparison)),
    }
}

/// The integer of a truth value.
fn bool_to_int(b: bool) -> (out: i64)
    ensures
        out == value::bool_int(b),
{
    if b {
        1
    } else {
        0
    }
}

/// Compares two values.
pub fn compare_values(l: &DbValue, r: &DbValue, facts: &Facts) -> (out: Result<Order, SqlError>)
    ensures
        plain_result(out) == comparison(l@, r@, facts@),
{
    match (l, r) {
        (DbValue::Null, DbValue::Null) => Ok(Order::Equal),
        (DbValue::Null, _) => Ok(Order::Less),
        (_, DbValue::Null) => Ok(Order::Greater),
        (DbValue::Int(a), DbValue::Int(b)) => Ok(value::compare_ints(*a, *b)),
        (DbValue::Float(a), DbValue::Float(b)) => compare_float_values(*a, *b),
        (DbValue::Int(a), DbValue::Float(b)) => {
            let f: u64 = facts.float(Question::FloatOfInt(*a))?;
            compare_float_values(f, *b)
        },
        (DbValue::Float(a), DbValue::Int(b)) => {
            let f: u64 = facts.float(Question::FloatOfInt(*b))?;
            compare_float_values(*a, f)
        },
        (DbValue::Bool(a), DbValue::Bool(b)) => Ok(value::compare_ints(bool_to_int(*a), bool_to_int(*b))),
        (DbValue::Bool(a), DbValue::Int(b)) => Ok(value::compare_ints(bool_to_int(*a), *b)),
        (DbValue::Int(a), DbValue::Bool(b)) => Ok(value::compare_ints(*a, bool_to_int(*b))),
        (DbValue::String(a), DbValue::String(b)) => Ok(value::compare_texts(a.as_str(), b.as_str())),
        (DbValue::Bytes(a), DbValue::Bytes(b)) => Ok(value::compare_bytes(a, b)),
        (DbValue::Decimal(a), DbValue::Decimal(b)) => Ok(a.compare(b)),
        (DbValue::Decimal(a), DbValue::Int(b)) => Ok(a.compare(&Decimal::from_int(*b))),
        (DbValue::Int(a), DbValue::Decimal(b)) => Ok(Decimal::from_int(*a).compare(b)),
        (DbValue::Decimal(a), DbValue::Float(b)) => match facts.optional_float(Question::FloatOfDecimal(*a)) {
            Ok(Some(f)) => compare_float_values(f, *b),
            Ok(None) => Err(SqlError::plain(ErrorKind::DecimalToFloat)),
            Err(x) => Err(x),
        },
        (DbValue::Float(a), DbValue::Decimal(b)) => match facts.optional_float(Question::FloatOfDecimal(*b)) {
            Ok(Some(f)) => compare_float_values(*a, f),
            Ok(None) => Err(SqlError::plain(ErrorKind::DecimalToFloat)),
            Err(x) => Err(x),
        },
        (DbValue::Date(a), DbValue::Date(b)) => Ok(value::compare_dates(a, b)),
        (DbValue::Time(a), DbValue::Time(b)) => Ok(value::compare_times(a, b)),
        (DbValue::Timestamp(a), DbValue::Timestamp(b)) => Ok(value::compare_timestamps(a, b)),
        _ => Err(SqlError::about_two(ErrorKind::TypeMismatch, l, r)),
    }
}

/// Whether two values compare as equal; values that cannot be compared do not. Only an
/// open question is an error.
pub open spec fn equality(l: ValueV, r: ValueV, known: Seq<(QuestionV, AnswerV)>) -> Result<bool, ErrorV> {
    match comparison(l, r, known) {
        Ok(o) => Ok(o == Order::Equal),
        Err(x) => if x.kind == ErrorKind::Pending {
            Err(x)
        } else {
            Ok(false)
        },
    }
}

/// Whether two values compare as equal.
fn values_equal(l: &DbValue, r: &DbValue, facts: &Facts) -> (out: Result<bool, SqlError>)
    ensures
        plain_result(out) == equality(l@, r@, facts@),
{
    match compare_values(l, r, facts) {
        Ok(Order::Equal) => Ok(true),
        Ok(_) => Ok(false),
        Err(x) => if x.kind == ErrorKind::Pending {
            Err(x)
        } else {
            Ok(false)
        },
    }
}

// ---------------------------------------------------------------- LIKE

/// Whether `c` has a meaning of its own in a regular expression.
pub open spec fn is_meta(c: char) -> bool {
    c == '\\' || c == '.' || c == '+' || c == '*' || c == '?' || c == '(' || c == ')' || c == '|' || c == '['
        || c == ']' || c == '{' || c == '}' || c == '^' || c == '$'
}

/// The regular expression for one character of a LIKE pattern.
pub open spec fn like_piece(c: char) -> Seq<char> {
    if c == '%' {
        seq!['.', '*']
    } else if c == '_' {
        seq!['.']
    } else if is_meta(c) {
        seq!['\\', c]
    } else {
        seq![c]
    }
}

/// The regular expression for the characters of a LIKE pattern.
pub open spec fn like_body(pattern: Seq<char>) -> Seq<char>
    decreases pattern.len(),
{
    if pattern.len() == 0 {
        Seq::empty()
    } else {
        like_body(pattern.drop_last()) + like_piece(pattern.last())
    }
}

/// The anchored regular expression for a LIKE pattern.
pub open spec fn like_regex(pattern: Seq<char>) -> Seq<char> {
    "(?s)^"@ + like_body(pattern) + seq!['$']
}

/// Whether a text matches a LIKE pattern: `%` stands for any run of characters, `_` for
/// one character, and every other character for itself.
pub open spec fn like(s: Seq<char>, pattern: Seq<char>) -> bool
    decreases pattern.len(), s.len(),
{
    if pattern.len() == 0 {
        s.len() == 0
    } else if pattern[0] == '%' {
        like(s, pattern.skip(1)) || (s.len() > 0 && like(s.skip(1), pattern))
    } else {
        s.len() > 0 && (pattern[0] == '_' || pattern[0] == s[0]) && like(s.skip(1), pattern.skip(1))
    }
}

/// What `regex::Regex` says of a text under a regular expression: none where the
/// expression does not compile.
pub uninterp spec fn regex_match(source: Seq<char>, s: Seq<char>) -> Option<bool>;

/// `regex::Regex::new` and `is_match`. The outcome is a function of expression and text
/// alone. On the anchored expression of a LIKE pattern, where it compiles, the answer is
/// whether the text matches the pattern: `.` stands for any character under the flag
/// `s`, `*` repeats it, an escaped metacharacter and any other character stand for
/// themselves, and `^` and `$` stand for the two ends of the text.
#[verifier::external_body]
fn regex_is_match(source: &str, s: &str) -> (out: Option<bool>)
    ensures
        out == regex_match(source@, s@),
        forall|p: Seq<char>|
            (source@ == #[trigger] like_regex(p) && out is Some) ==> out == Some(like(s@, p)),
{
    match regex::Regex::new(source) {
        Ok(re) => Some(re.is_match(s)),
        Err(_) => None,
    }
}

/// Translates a LIKE pattern into an anchored regular expression. `%` becomes `.*`, `_`
/// becomes `.`, and every metacharacter is escaped.
pub fn like_pattern_to_regex(pattern: &str) -> (out: String)
    ensures
        out@ == like_regex(pattern@),
{
    let chars = text::chars_of(pattern);
    let mut out = "(?s)^".to_owned();
    let ghost prefix = "(?s)^"@;
    assert(prefix + like_body(chars@.take(0)) =~= prefix);
    for i in 0..chars.len()
        invariant
            out@ == prefix + like_body(chars@.take(i as int)),
    {
        let c = chars[i];
        let ghost before = out@;
        if c == '%' {
            out.push('.');
            out.push('*');
        } else if c == '_' {
            out.push('.');
        } else {
            if c == '\\' || c == '.' || c == '+' || c == '*' || c == '?' || c == '(' || c == ')' || c == '|' || c
                == '[' || c == ']' || c == '{' || c == '}' || c == '^' || c == '$' {
                out.push('\\');
            }
            out.push(c);
        }
        proof {
            assert(out@ =~= before + like_piece(c));
            assert(chars@.take(i + 1).drop_last() =~= chars@.take(i as int));
            assert(out@ =~= prefix + like_body(chars@.take(i + 1)));
        }
    }
    assert(chars@.take(chars@.len() as int) =~= chars@);
    out.push('$');
    assert(out@ =~= like_regex(pattern@));
    out
}

/// The outcome of LIKE: false where the expression does not compile.
pub open spec fn like_outcome(s: Seq<char>, pattern: Seq<char>) -> bool {
    regex_match(like_regex(pattern), s) == Some(true)
}

/// Whether a text matches a LIKE pattern.
pub fn like_match(s: &str, pattern: &str) -> (out: bool)
    ensures
        out == like_outcome(s@, pattern@),
        regex_match(like_regex(pattern@), s@) is Some ==> out == like(s@, pattern@),
{
    let source = like_pattern_to_regex(pattern);
    match regex_is_match(source.as_str(), s) {
        Some(b) => b,
        None => false,
    }
}

// ---------------------------------------------------------------- arithmetic

/// The quotient of two integers, rounded toward zero.
pub open spec fn int_quotient(a: int, b: int) -> int {
    if a < 0 {
        if b < 0 {
            (-a) / (-b)
        } else {
            -((-a) / b)
        }
    } else if b < 0 {
        -(a / (-b))
    } else {
        a / b
    }
}

/// The exact result of an integer operation.
pub open spec fn int_result(op: FloatOp, a: int, b: int) -> Option<int> {
    match op {
        FloatOp::Add => Some(a + b),
        FloatOp::Sub => Some(a - b),
        FloatOp::Mul => Some(a * b),
        FloatOp::Div => if b == 0 {
            None
        } else {
            Some(int_quotient(a, b))
        },
    }
}

/// The outcome of an integer operation: an error where the result is out of range.
pub open spec fn int_outcome(op: FloatOp, a: i64, b: i64) -> Result<ValueV, ErrorV> {
    match int_result(op, a as int, b as int) {
        Some(r) if i64::MIN <= r <= i64::MAX => Ok(ValueV::Int(r as i64)),
        _ => Err(facts::plain_error(ErrorKind::IntegerOverflow)),
    }
}

/// The outcome of a float operation.
pub open spec fn float_outcome(op: FloatOp, a: u64, b: u64, known: Seq<(QuestionV, AnswerV)>) -> Result<
    ValueV,
    ErrorV,
> {
    match facts::float_fact(known, QuestionV::FloatArithmetic { op, left: a, right: b }) {
        Ok(f) => Ok(ValueV::Float(f)),
        Err(x) => Err(x),
    }
}

/// The error of a decimal operation whose result is out of range.
pub open spec fn decimal_failure(op: FloatOp) -> ErrorKind {
    match op {
        FloatOp::Add => ErrorKind::DecimalAddition,
        FloatOp::Sub => ErrorKind::DecimalSubtraction,
        FloatOp::Mul => ErrorKind::DecimalMultiplication,
        FloatOp::Div => ErrorKind::DecimalDivision,
    }
}

/// The outcome of a decimal operation.
pub open spec fn decimal_outcome(op: FloatOp, a: Decimal, b: Decimal) -> Result<ValueV, ErrorV> {
    let r = match op {
        FloatOp::Add => value::decimal_sum(a.parts(), b.parts()),
        FloatOp::Sub => value::decimal_difference(a.parts(), b.parts()),
        FloatOp::Mul => value::decimal_product(a.parts(), b.parts()),
        FloatOp::Div => value::decimal_quotient(a.parts(), b.parts()),
    };
    match value::opt_decimal(r) {
        Some(d) => Ok(ValueV::Decimal(d)),
        None => Err(facts::plain_error(decimal_failure(op))),
    }
}

/// The outcome of an arithmetic operation: integers stay integers, an integer beside a
/// float becomes a float, beside a decimal a decimal, and a decimal beside a float
/// becomes a float.
pub open spec fn arithmetic(op: FloatOp, l: ValueV, r: ValueV, known: Seq<(QuestionV, AnswerV)>) -> Result<
    ValueV,
    ErrorV,
> {
    match (l, r) {
        (ValueV::Int(a), ValueV::Int(b)) => int_outcome(op, a, b),
        (ValueV::Float(a), ValueV::Float(b)) => float_outcome(op, a, b, known),
        (ValueV::Int(a), ValueV::Float(b)) => match facts::float_fact(known, QuestionV::FloatOfInt(a)) {
            Ok(f) => float_outcome(op, f, b, known),
            Err(x) => Err(x),
        },
        (ValueV::Float(a), ValueV::Int(b)) => match facts::float_fact(known, QuestionV::FloatOfInt(b)) {
            Ok(f) => float_outcome(op, a, f, known),
            Err(x) => Err(x),
        },
        (ValueV::Decimal(a), ValueV::Decimal(b)) => decimal_outcome(op, a, b),
        (ValueV::Decimal(a), ValueV::Int(b)) => decimal_outcome(op, a, Decimal::of(b as i128, 0)),
        (ValueV::Int(a), ValueV::Decimal(b)) => decimal_outcome(op, Decimal::of(a as i128, 0), b),
        (ValueV::Decimal(a), ValueV::Float(b)) => match facts::optional_float_fact(known, QuestionV::FloatOfDecimal(a)) {
            Ok(Some(f)) => float_outcome(op, f, b, known),
            Ok(None) => Err(facts::plain_error(ErrorKind::DecimalToFloatArithmetic)),
            Err(x) => Err(x),
        },
        (ValueV::Float(a), ValueV::Decimal(b)) => match facts::optional_float_fact(known, QuestionV::FloatOfDecimal(b)) {
            Ok(Some(f)) => float_outcome(op, a, f, known),
            Ok(None) => Err(facts::plain_error(ErrorKind::DecimalToFloatArithmetic)),
            Err(x) => Err(x),
        },
        _ => Err(facts::values_error(ErrorKind::NotNumeric, l, r)),
    }
}

/// Whether a value is a zero of a numeric type.
pub open spec fn zero_divisor(v: ValueV) -> bool {
    match v {
        ValueV::Int(i) => i == 0,
        ValueV::Float(f) => value::float_is_zero(f),
        ValueV::Decimal(d) => d.numerator() == 0,
        _ => false,
    }
}

/// The magnitude of an integer.
fn magnitude(a: i64) -> (out: u64)
    ensures
        out as int == if a < 0 {
            -(a as int)
        } else {
            a as int
        },
{
    if a < 0 {
        (-(a as i128)) as u64
    } else {
        a as u64
    }
}

/// The quotient of two integers, rounded toward zero, where it fits.
fn divide_ints(a: i64, b: i64) -> (out: Option<i64>)
    ensures
        match out {
            Some(r) => b != 0 && r == int_quotient(a as int, b as int),
            None => b == 0 || !(i64::MIN <= int_quotient(a as int, b as int) <= i64::MAX),
        },
{
    if b == 0 {
        return None;
    }
    let q: u64 = magnitude(a) / magnitude(b);
    assert(q <= magnitude_spec(a)) by (nonlinear_arith)
        requires
            magnitude_spec(b) >= 1,
            q == magnitude_spec(a) / magnitude_spec(b),
            magnitude_spec(a) >= 0,
    ;
    if (a < 0) == (b < 0) {
        if q > 9_223_372_036_854_775_807u64 {
            None
        } else {
            Some(q as i64)
        }
    } else {
        Some((-(q as i128)) as i64)
    }
}

/// The magnitude of an integer.
spec fn magnitude_spec(a: i64) -> int {
    if a < 0 {
        -(a as int)
    } else {
        a as int
    }
}

/// The outcome of an integer operation.
fn int_arithmetic(op: FloatOp, a: i64, b: i64) -> (out: Result<DbValue, SqlError>)
    ensures
        value_result(out) == int_outcome(op, a, b),
{
    let r: Option<i64> = match op {
        FloatOp::Add => a.checked_add(b),
        FloatOp::Sub => a.checked_sub(b),
        FloatOp::Mul => a.checked_mul(b),
        FloatOp::Div => divide_ints(a, b),
    };
    match r {
        Some(v) => Ok(DbValue::Int(v)),
        None => Err(SqlError::plain(ErrorKind::IntegerOverflow)),
    }
}

/// The outcome of a float operation.
fn float_arithmetic(op: FloatOp, a: u64, b: u64, facts: &Facts) -> (out: Result<DbValue, SqlError>)
    ensures
        value_result(out) == float_outcome(op, a, b, facts@),
{
    let f: u64 = facts.float(Question::FloatArithmetic { op, left: a, right: b })?;
    Ok(DbValue::Float(f))
}

/// The outcome of a decimal operation.
fn decimal_arithmetic(op: FloatOp, a: &Decimal, b: &Decimal) -> (out: Result<DbValue, SqlError>)
    ensures
        value_result(out) == decimal_outcome(op, *a, *b),
{
    let (r, kind) = match op {
        FloatOp::Add => (a.checked_add(b), ErrorKind::DecimalAddition),
        FloatOp::Sub => (a.checked_sub(b), ErrorKind::DecimalSubtraction),
        FloatOp::Mul => (a.checked_mul(b), ErrorKind::DecimalMultiplication),
        FloatOp::Div => (a.checked_div(b), ErrorKind::DecimalDivision),
    };
    match r {
        Some(d) => Ok(DbValue::Decimal(d)),
        None => Err(SqlError::plain(kind)),
    }
}

/// The outcome of an arithmetic operation on two values.
pub fn eval_arithmetic(op: FloatOp, l: &DbValue, r: &DbValue, facts: &Facts) -> (out: Result<DbValue, SqlError>)
    ensures
        value_result(out) == arithmetic(op, l@, r@, facts@),
{
    match (l, r) {
        (DbValue::Int(a), DbValue::Int(b)) => int_arithmetic(op, *a, *b),
        (DbValue::Float(a), DbValue::Float(b)) => float_arithmetic(op, *a, *b, facts),
        (DbValue::Int(a), DbValue::Float(b)) => {
            let f: u64 = facts.float(Question::FloatOfInt(*a))?;
            float_arithmetic(op, f, *b, facts)
        },
        (DbValue::Float(a), DbValue::Int(b)) => {
            let f: u64 = facts.float(Question::FloatOfInt(*b))?;
            float_arithmetic(op, *a, f, facts)
        },
        (DbValue::Decimal(a), DbValue::Decimal(b)) => decimal_arithmetic(op, a, b),
        (DbValue::Decimal(a), DbValue::Int(b)) => decimal_arithmetic(op, a, &Decimal::from_int(*b)),
        (DbValue::Int(a), DbValue::Decimal(b)) => decimal_arithmetic(op, &Decimal::from_int(*a), b),
        (DbValue::Decimal(a), DbValue::Float(b)) => match facts.optional_float(Question::FloatOfDecimal(*a)) {
            Ok(Some(f)) => float_arithmetic(op, f, *b, facts),
            Ok(None) => Err(SqlError::plain(ErrorKind::DecimalToFloatArithmetic)),
            Err(x) => Err(x),
        },
        (DbValue::Float(a), DbValue::Decimal(b)) => match facts.optional_float(Question::FloatOfDecimal(*b)) {
            Ok(Some(f)) => float_arithmetic(op, *a, f, facts),
            Ok(None) => Err(SqlError::plain(ErrorKind::DecimalToFloatArithmetic)),
            Err(x) => Err(x),
        },
        _ => Err(SqlError::about_two(ErrorKind::NotNumeric, l, r)),
    }
}

/// Whether a value is a zero of a numeric type.
fn is_zero_divisor(v: &DbValue) -> (out: bool)
    ensures
        out == zero_divisor(v@),
{
    match v {
        DbValue::Int(i) => *i == 0,
        DbValue::Float(f) => value::is_zero(*f),
        DbValue::Decimal(d) => d.is_zero(),
        _ => false,
    }
}

// ---------------------------------------------------------------- operators

/// Whether a comparison operator holds of an order.
pub open spec fn holds(op: Operator, o: Order) -> bool {
    match op {
        Operator::Eq => o == Order::Equal,
        Operator::NotEq => o != Order::Equal,
        Operator::Gt => o == Order::Greater,
        Operator::Lt => o == Order::Less,
        Operator::GtEq => o != Order::Less,
        Operator::LtEq => o != Order::Greater,
        _ => false,
    }
}

/// Whether a comparison operator holds of an order.
fn order_holds(op: Operator, o: Order) -> (out: bool)
    ensures
        out == holds(op, o),
{
    match op {
        Operator::Eq => o == Order::Equal,
        Operator::NotEq => o != Order::Equal,
        Operator::Gt => o == Order::Greater,
        Operator::Lt => o == Order::Less,
        Operator::GtEq => o != Order::Less,
        Operator::LtEq => o != Order::Greater,
        _ => false,
    }
}

/// The outcome of AND, in three-valued logic. The right side is not looked at where the
/// left side is false.
pub open spec fn conjunction(l: Result<ValueV, ErrorV>, r: Result<ValueV, ErrorV>) -> Result<ValueV, ErrorV> {
    match l {
        Err(x) => Err(x),
        Ok(ValueV::Null) => match r {
            Err(x) => Err(x),
            Ok(ValueV::Null) => Ok(ValueV::Null),
            Ok(v) => match truth(v) {
                Err(x) => Err(x),
                Ok(b) => if b {
                    Ok(ValueV::Null)
                } else {
                    Ok(ValueV::Bool(false))
                },
            },
        },
        Ok(u) => match truth(u) {
            Err(x) => Err(x),
            Ok(false) => Ok(ValueV::Bool(false)),
            Ok(true) => match r {
                Err(x) => Err(x),
                Ok(ValueV::Null) => Ok(ValueV::Null),
                Ok(v) => match truth(v) {
                    Err(x) => Err(x),
                    Ok(b) => Ok(ValueV::Bool(b)),
                },
            },
        },
    }
}

/// The outcome of OR, in three-valued logic. The right side is not looked at where the
/// left side is true.
pub open spec fn disjunction(l: Result<ValueV, ErrorV>, r: Result<ValueV, ErrorV>) -> Result<ValueV, ErrorV> {
    match l {
        Err(x) => Err(x),
        Ok(ValueV::Null) => match r {
            Err(x) => Err(x),
            Ok(ValueV::Null) => Ok(ValueV::Null),
            Ok(v) => match truth(v) {
                Err(x) => Err(x),
                Ok(b) => if b {
                    Ok(ValueV::Bool(true))
                } else {
                    Ok(ValueV::Null)
                },
            },
        },
        Ok(u) => match truth(u) {
            Err(x) => Err(x),
            Ok(true) => Ok(ValueV::Bool(true)),
            Ok(false) => match r {
                Err(x) => Err(x),
                Ok(ValueV::Null) => Ok(ValueV::Null),
                Ok(v) => match truth(v) {
                    Err(x) => Err(x),
                    Ok(b) => Ok(ValueV::Bool(b)),
                },
            },
        },
    }
}

/// The outcome of an operator other than AND and OR on two values; NULL on either side
/// gives NULL.
pub open spec fn operation(op: Operator, l: ValueV, r: ValueV, known: Seq<(QuestionV, AnswerV)>) -> Result<
    ValueV,
    ErrorV,
> {
    if l is Null || r is Null {
        Ok(ValueV::Null)
    } else {
        match op {
            Operator::Like => match string_value(l) {
                Err(x) => Err(x),
                Ok(s) => match string_value(r) {
                    Err(x) => Err(x),
                    Ok(p) => Ok(ValueV::Bool(like_outcome(s, p))),
                },
            },
            Operator::Add => arithmetic(FloatOp::Add, l, r, known),
            Operator::Sub => arithmetic(FloatOp::Sub, l, r, known),
            Operator::Mul => arithmetic(FloatOp::Mul, l, r, known),
            Operator::Div => if zero_divisor(r) {
                Err(facts::plain_error(ErrorKind::DivisionByZero))
            } else {
                arithmetic(FloatOp::Div, l, r, known)
            },
            _ => match comparison(l, r, known) {
                Err(x) => Err(x),
                Ok(o) => Ok(ValueV::Bool(holds(op, o))),
            },
        }
    }
}

/// The outcome of an operator other than AND and OR on two values.
fn apply_operator(op: Operator, l: &DbValue, r: &DbValue, facts: &Facts) -> (out: Result<DbValue, SqlError>)
    ensures
        value_result(out) == operation(op, l@, r@, facts@),
{
    if l.is_null() || r.is_null() {
        return Ok(DbValue::Null);
    }
    match op {
        Operator::Like => {
            let s = to_string_val(l)?;
            let p = to_string_val(r)?;
            Ok(DbValue::Bool(like_match(s.as_str(), p.as_str())))
        },
        Operator::Add => eval_arithmetic(FloatOp::Add, l, r, facts),
        Operator::Sub => eval_arithmetic(FloatOp::Sub, l, r, facts),
        Operator::Mul => eval_arithmetic(FloatOp::Mul, l, r, facts),
        Operator::Div => if is_zero_divisor(r) {
            Err(SqlError::plain(ErrorKind::DivisionByZero))
        } else {
            eval_arithmetic(FloatOp::Div, l, r, facts)
        },
        _ => {
            let o = compare_values(l, r, facts)?;
            Ok(DbValue::Bool(order_holds(op, o)))
        },
    }
}

// ---------------------------------------------------------------- functions

/// The error that a function has a wrong number of arguments.
pub open spec fn argument_error(name: Seq<char>, count: nat) -> ErrorV {
    two_names_error(ErrorKind::ArgumentCount, name, text::int_text(count as int))
}

/// A number of characters as an integer.
pub open spec fn length_int(n: nat) -> i64 {
    if n > i64::MAX {
        i64::MAX
    } else {
        n as i64
    }
}

/// The position, from zero, at which SUBSTR starts: positions count from one, and
/// negative ones from the end.
pub open spec fn substr_start(n: nat, start: i64) -> int {
    if start > 0 {
        start - 1
    } else if start == 0 {
        -1
    } else {
        n + start
    }
}

/// The part of a text from a position on.
pub open spec fn substr_from(s: Seq<char>, start: i64) -> Seq<char> {
    let at = substr_start(s.len(), start);
    let from = if at < 0 {
        0
    } else {
        at
    };
    if from >= s.len() {
        Seq::empty()
    } else {
        s.skip(from)
    }
}

/// The part of a text of at most `len` characters from a position on.
pub open spec fn substr_of(s: Seq<char>, start: i64, len: i64) -> Seq<char> {
    let at = substr_start(s.len(), start);
    let from = if at < 0 {
        0
    } else {
        at
    };
    let end = at + len;
    let to = if end < 0 {
        0
    } else if end > s.len() {
        s.len() as int
    } else {
        end
    };
    if from < to {
        s.subrange(from, to)
    } else {
        Seq::empty()
    }
}

/// The outcome of SUBSTR.
pub open spec fn substr_value(rs: Seq<Result<ValueV, ErrorV>>, known: Seq<(QuestionV, AnswerV)>) -> Result<
    ValueV,
    ErrorV,
> {
    if rs.len() != 2 && rs.len() != 3 {
        Err(argument_error("SUBSTR"@, rs.len()))
    } else {
        match rs[0] {
            Err(x) => Err(x),
            Ok(ValueV::Null) => Ok(ValueV::Null),
            Ok(v) => match value_text(v, known) {
                Err(x) => Err(x),
                Ok(s) => match rs[1] {
                    Err(x) => Err(x),
                    Ok(ValueV::Int(start)) => if rs.len() == 2 {
                        Ok(ValueV::String(substr_from(s, start)))
                    } else {
                        match rs[2] {
                            Err(x) => Err(x),
                            Ok(ValueV::Int(len)) => if len < 0 {
                                Err(facts::value_error(ErrorKind::SubstrNegative, ValueV::Int(len)))
                            } else {
                                Ok(ValueV::String(substr_of(s, start, len)))
                            },
                            Ok(other) => Err(facts::value_error(ErrorKind::SubstrLength, other)),
                        }
                    },
                    Ok(other) => Err(facts::value_error(ErrorKind::SubstrStart, other)),
                },
            },
        }
    }
}

/// The first value from position `i` on that is not NULL.
pub open spec fn coalesced(rs: Seq<Result<ValueV, ErrorV>>, i: int) -> Result<ValueV, ErrorV>
    decreases rs.len() - i,
{
    if i >= rs.len() {
        Ok(ValueV::Null)
    } else {
        match rs[i] {
            Err(x) => Err(x),
            Ok(ValueV::Null) => coalesced(rs, i + 1),
            Ok(v) => Ok(v),
        }
    }
}

/// The texts of the values from position `i` on, after `acc`; NULL where one is NULL.
pub open spec fn concatenated(
    rs: Seq<Result<ValueV, ErrorV>>,
    i: int,
    acc: Seq<char>,
    known: Seq<(QuestionV, AnswerV)>,
) -> Result<ValueV, ErrorV>
    decreases rs.len() - i,
{
    if i >= rs.len() {
        Ok(ValueV::String(acc))
    } else {
        match rs[i] {
            Err(x) => Err(x),
            Ok(ValueV::Null) => Ok(ValueV::Null),
            Ok(v) => match value_text(v, known) {
                Err(x) => Err(x),
                Ok(s) => concatenated(rs, i + 1, acc + s, known),
            },
        }
    }
}

/// The outcome of a function of one value, by name, where the value is not NULL.
pub open spec fn unary_value(name: Seq<char>, v: ValueV, known: Seq<(QuestionV, AnswerV)>) -> Result<
    ValueV,
    ErrorV,
> {
    if name == "ABS"@ {
        match v {
            ValueV::Int(i) => if i == i64::MIN {
                Err(facts::plain_error(ErrorKind::IntegerOverflow))
            } else if i < 0 {
                Ok(ValueV::Int((-i) as i64))
            } else {
                Ok(ValueV::Int(i))
            },
            ValueV::Float(f) => Ok(ValueV::Float(value::float_magnitude(f) as u64)),
            _ => Err(facts::value_error(ErrorKind::AbsArgument, v)),
        }
    } else if name == "ROUND"@ {
        match v {
            ValueV::Int(i) => Ok(ValueV::Int(i)),
            ValueV::Float(f) => match facts::float_fact(known, QuestionV::FloatRounded(f)) {
                Ok(g) => Ok(ValueV::Float(g)),
                Err(x) => Err(x),
            },
            _ => Err(facts::value_error(ErrorKind::RoundArgument, v)),
        }
    } else {
        match value_text(v, known) {
            Err(x) => Err(x),
            Ok(s) => if name == "LENGTH"@ {
                Ok(ValueV::Int(length_int(s.len())))
            } else if name == "UPPER"@ {
                Ok(ValueV::String(text::uppercased(s)))
            } else {
                Ok(ValueV::String(text::lowercased(s)))
            },
        }
    }
}

/// Whether a name is that of a function of one value.
pub open spec fn is_unary(name: Seq<char>) -> bool {
    name == "LENGTH"@ || name == "UPPER"@ || name == "LOWER"@ || name == "ABS"@ || name == "ROUND"@
}

/// The outcome of a function, by its name in upper case, on the outcomes of its
/// arguments. An argument is not looked at before it is needed.
pub open spec fn function_value(
    name: Seq<char>,
    rs: Seq<Result<ValueV, ErrorV>>,
    known: Seq<(QuestionV, AnswerV)>,
) -> Result<ValueV, ErrorV> {
    if is_unary(name) {
        if rs.len() != 1 {
            Err(argument_error(name, rs.len()))
        } else {
            match rs[0] {
                Err(x) => Err(x),
                Ok(ValueV::Null) => Ok(ValueV::Null),
                Ok(v) => unary_value(name, v, known),
            }
        }
    } else if name == "SUBSTR"@ || name == "SUBSTRING"@ {
        substr_value(rs, known)
    } else if name == "COALESCE"@ {
        if rs.len() == 0 {
            Err(argument_error(name, 0))
        } else {
            coalesced(rs, 0)
        }
    } else if name == "CONCAT"@ {
        if rs.len() == 0 {
            Err(argument_error(name, 0))
        } else {
            concatenated(rs, 0, Seq::empty(), known)
        }
    } else {
        Err(facts::named_error(ErrorKind::UnknownFunction, name))
    }
}

/// The error that a function has a wrong number of arguments.
fn wrong_arguments(name: &str, count: usize) -> (out: SqlError)
    ensures
        out@ == argument_error(name@, count as nat),
{
    let n = text::usize_to_text(count);
    about_two_names(ErrorKind::ArgumentCount, name, n.as_str())
}

/// The outcome of a function of one value that is not NULL.
fn apply_unary(name: &str, v: &DbValue, facts: &Facts) -> (out: Result<DbValue, SqlError>)
    requires
        is_unary(name@),
    ensures
        value_result(out) == unary_value(name@, v@, facts@),
{
    if text::same_text(name, "ABS") {
        return match v {
            DbValue::Int(i) => if *i == i64::MIN {
                Err(SqlError::plain(ErrorKind::IntegerOverflow))
            } else if *i < 0 {
                Ok(DbValue::Int(-*i))
            } else {
                Ok(DbValue::Int(*i))
            },
            DbValue::Float(f) => Ok(DbValue::Float(value::float_abs(*f))),
            _ => Err(SqlError::about(ErrorKind::AbsArgument, v)),
        };
    }
    if text::same_text(name, "ROUND") {
        return match v {
            DbValue::Int(i) => Ok(DbValue::Int(*i)),
            DbValue::Float(f) => {
                let g: u64 = facts.float(Question::FloatRounded(*f))?;
                Ok(DbValue::Float(g))
            },
            _ => Err(SqlError::about(ErrorKind::RoundArgument, v)),
        };
    }
    let s = coerce_to_string(v, facts)?;
    if text::same_text(name, "LENGTH") {
        let chars = text::chars_of(s.as_str());
        let n: usize = chars.len();
        let len: i64 = if n as u64 > 9_223_372_036_854_775_807u64 {
            i64::MAX
        } else {
            n as i64
        };
        Ok(DbValue::Int(len))
    } else if text::same_text(name, "UPPER") {
        Ok(DbValue::String(text::to_uppercase(s.as_str())))
    } else {
        Ok(DbValue::String(text::to_lowercase(s.as_str())))
    }
}

/// The part of a text from a position on.
pub fn substring_from(s: &str, start: i64) -> (out: String)
    ensures
        out@ == substr_from(s@, start),
{
    let chars = text::chars_of(s);
    let n: i128 = chars.len() as i128;
    let at: i128 = if start > 0 {
        start as i128 - 1
    } else if start == 0 {
        -1
    } else {
        n + start as i128
    };
    let from: i128 = if at < 0 {
        0
    } else {
        at
    };
    if from >= n {
        let out = String::new();
        assert(out@ =~= substr_from(s@, start));
        out
    } else {
        let out = text::text_of_range(&chars, from as usize, chars.len());
        assert(out@ =~= substr_from(s@, start));
        out
    }
}

/// The part of a text of at most `len` characters from a position on.
pub fn substring_of(s: &str, start: i64, len: i64) -> (out: String)
    requires
        len >= 0,
    ensures
        out@ == substr_of(s@, start, len),
{
    let chars = text::chars_of(s);
    let n: i128 = chars.len() as i128;
    let at: i128 = if start > 0 {
        start as i128 - 1
    } else if start == 0 {
        -1
    } else {
        n + start as i128
    };
    let from: i128 = if at < 0 {
        0
    } else {
        at
    };
    let end: i128 = at + len as i128;
    let to: i128 = if end < 0 {
        0
    } else if end > n {
        n
    } else {
        end
    };
    if from < to {
        text::text_of_range(&chars, from as usize, to as usize)
    } else {
        let out = String::new();
        assert(out@ =~= substr_of(s@, start, len));
        out
    }
}

// ---------------------------------------------------------------- full-text match

/// Whether an index is a full-text index on a column.
pub open spec fn indexes_text(i: IndexV, column: Seq<char>) -> bool {
    i.index_type == IndexType::FullText && i.columns.contains(column)
}

/// The tokenizer of the first full-text index on a column from position `i` on.
pub open spec fn tokenizer_from(indexes: Seq<IndexV>, column: Seq<char>, i: int) -> Seq<char>
    decreases indexes.len() - i,
{
    if i >= indexes.len() {
        "simple"@
    } else if indexes_text(indexes[i], column) {
        match indexes[i].tokenizer {
            Some(t) => t,
            None => "simple"@,
        }
    } else {
        tokenizer_from(indexes, column, i + 1)
    }
}

/// The outcome of matching a text against a full-text query under a tokenizer.
pub open spec fn match_value(
    s: Seq<char>,
    tokenizer: Seq<char>,
    query: Seq<char>,
    known: Seq<(QuestionV, AnswerV)>,
) -> Result<ValueV, ErrorV> {
    match facts::tokens_fact(known, QuestionV::Tokens { tokenizer, text: s }) {
        Err(x) => Err(x),
        Ok(None) => Err(facts::named_error(ErrorKind::TokenizerNotFound, tokenizer)),
        Ok(Some(tokens)) => match facts::full_text_fact(known, QuestionV::FullText { tokenizer, query }) {
            Err(x) => Err(x),
            Ok(Err(m)) => Err(facts::named_error(ErrorKind::FullTextSyntax, m)),
            Ok(Ok(q)) => Ok(ValueV::Bool(schema::full_text_match(q, tokens))),
        },
    }
}

/// The position a full-text match reads.
pub open spec fn match_index(s: SchemaV, column: Seq<char>, index: Option<usize>) -> Result<int, ErrorV> {
    match index {
        Some(i) => Ok(i as int),
        None => match schema::exact_column_from(s.columns, column, 0) {
            Some(i) => Ok(i),
            None => Err(facts::named_error(ErrorKind::ColumnNotFound, column)),
        },
    }
}

/// The value of a row at a position.
pub open spec fn row_value(row: Seq<ValueV>, i: int) -> Result<ValueV, ErrorV> {
    if i < row.len() {
        Ok(row[i])
    } else {
        Err(facts::named_error(ErrorKind::IndexOutOfBounds, text::int_text(i)))
    }
}

/// The value of a row at a position.
fn row_value_at(row: &Row, i: usize) -> (out: Result<DbValue, SqlError>)
    ensures
        value_result(out) == row_value(row@, i as int),
{
    match row.get_by_index(i) {
        Some(v) => Ok(v.clone()),
        None => {
            let n = text::usize_to_text(i);
            Err(SqlError::named(ErrorKind::IndexOutOfBounds, n.as_str()))
        },
    }
}

/// The tokenizer of the first full-text index on a column.
pub fn tokenizer_name(s: &Schema, column: &str) -> (out: String)
    ensures
        out@ == tokenizer_from(s@.indexes, column@, 0),
{
    for i in 0..s.indexes.len()
        invariant
            tokenizer_from(s@.indexes, column@, 0) == tokenizer_from(s@.indexes, column@, i as int),
    {
        let index = &s.indexes[i];
        if index.index_type == IndexType::FullText && text::contains_text(&index.columns, column) {
            return match &index.tokenizer {
                Some(t) => t.clone(),
                None => "simple".to_owned(),
            };
        }
    }
    "simple".to_owned()
}

/// The outcome of matching a text against a full-text query.
fn match_text(s: &str, tokenizer: &str, query: &str, facts: &Facts) -> (out: Result<DbValue, SqlError>)
    ensures
        value_result(out) == match_value(s@, tokenizer@, query@, facts@),
{
    match facts.tokens(Question::Tokens { tokenizer: tokenizer.to_owned(), text: s.to_owned() }) {
        Err(x) => Err(x),
        Ok(None) => Err(SqlError::named(ErrorKind::TokenizerNotFound, tokenizer)),
        Ok(Some(tokens)) => match facts.full_text(
            Question::FullText { tokenizer: tokenizer.to_owned(), query: query.to_owned() },
        ) {
            Err(x) => Err(x),
            Ok(Err(m)) => Err(SqlError::named(ErrorKind::FullTextSyntax, m.as_str())),
            Ok(Ok(q)) => Ok(DbValue::Bool(q.matches_tokens(&tokens))),
        },
    }
}

// ---------------------------------------------------------------- evaluation

/// The outcome of IN over the outcomes of the list from position `i` on: true where one
/// is equal, otherwise NULL where one is NULL, otherwise false.
pub open spec fn in_list(
    v: ValueV,
    rs: Seq<Result<ValueV, ErrorV>>,
    i: int,
    has_null: bool,
    known: Seq<(QuestionV, AnswerV)>,
) -> Result<ValueV, ErrorV>
    decreases rs.len() - i,
{
    if i >= rs.len() {
        if has_null {
            Ok(ValueV::Null)
        } else {
            Ok(ValueV::Bool(false))
        }
    } else {
        match rs[i] {
            Err(x) => Err(x),
            Ok(ValueV::Null) => in_list(v, rs, i + 1, true, known),
            Ok(w) => match equality(v, w, known) {
                Err(x) => Err(x),
                Ok(true) => Ok(ValueV::Bool(true)),
                Ok(false) => in_list(v, rs, i + 1, has_null, known),
            },
        }
    }
}

/// The first condition, from position `i` on, that is equal to the operand of a CASE.
pub open spec fn case_equal(
    v: ValueV,
    rs: Seq<Result<ValueV, ErrorV>>,
    i: int,
    known: Seq<(QuestionV, AnswerV)>,
) -> Result<Option<int>, ErrorV>
    decreases rs.len() - i,
{
    if i >= rs.len() {
        Ok(None)
    } else {
        match rs[i] {
            Err(x) => Err(x),
            Ok(w) => match equality(v, w, known) {
                Err(x) => Err(x),
                Ok(true) => Ok(Some(i)),
                Ok(false) => case_equal(v, rs, i + 1, known),
            },
        }
    }
}

/// The first condition of a CASE, from position `i` on, that is true.
pub open spec fn case_true(rs: Seq<Result<ValueV, ErrorV>>, i: int) -> Result<Option<int>, ErrorV>
    decreases rs.len() - i,
{
    if i >= rs.len() {
        Ok(None)
    } else {
        match rs[i] {
            Err(x) => Err(x),
            Ok(w) => match truth(w) {
                Err(x) => Err(x),
                Ok(true) => Ok(Some(i)),
                Ok(false) => case_true(rs, i + 1),
            },
        }
    }
}

/// The condition a CASE chooses: the first equal to its operand, or the first that is
/// true where it has none.
pub open spec fn case_choice(
    operand: Option<Result<ValueV, ErrorV>>,
    cs: Seq<Result<ValueV, ErrorV>>,
    known: Seq<(QuestionV, AnswerV)>,
) -> Result<Option<int>, ErrorV> {
    match operand {
        Some(Err(x)) => Err(x),
        Some(Ok(v)) => case_equal(v, cs, 0, known),
        None => case_true(cs, 0),
    }
}

/// The value of a CASE: the result of the chosen condition, or else that of ELSE, or
/// else NULL.
pub open spec fn case_outcome(
    found: Result<Option<int>, ErrorV>,
    rs: Seq<Result<ValueV, ErrorV>>,
    otherwise: Option<Result<ValueV, ErrorV>>,
) -> Result<ValueV, ErrorV> {
    match found {
        Err(x) => Err(x),
        Ok(Some(i)) => rs[i],
        Ok(None) => match otherwise {
            Some(r) => r,
            None => Ok(ValueV::Null),
        },
    }
}

/// The value of an expression on a row.
pub open spec fn evaluated(e: ExprV, row: Seq<ValueV>, s: SchemaV, known: Seq<(QuestionV, AnswerV)>) -> Result<
    ValueV,
    ErrorV,
>
    decreases e,
{
    match e {
        ExprV::Literal(v) => Ok(v),
        ExprV::Parameter(name) => Err(facts::named_error(ErrorKind::ParameterAtExecution, name)),
        ExprV::Column(name, index) => match expr::bound_index(s, name, index) {
            Err(x) => Err(x),
            Ok(i) => row_value(row, i as int),
        },
        ExprV::Not(inner) => match evaluated(*inner, row, s, known) {
            Err(x) => Err(x),
            Ok(ValueV::Null) => Ok(ValueV::Null),
            Ok(v) => match truth(v) {
                Err(x) => Err(x),
                Ok(b) => Ok(ValueV::Bool(!b)),
            },
        },
        ExprV::IsNull(inner) => match evaluated(*inner, row, s, known) {
            Err(x) => Err(x),
            Ok(v) => Ok(ValueV::Bool(v is Null)),
        },
        ExprV::InList { expr, list } => match evaluated(*expr, row, s, known) {
            Err(x) => Err(x),
            Ok(ValueV::Null) => Ok(ValueV::Null),
            Ok(v) => in_list(v, evaluated_each(list, row, s, known), 0, false, known),
        },
        ExprV::BinaryOp { left, op, right } => {
            let l = evaluated(*left, row, s, known);
            let r = evaluated(*right, row, s, known);
            if op == Operator::And {
                conjunction(l, r)
            } else if op == Operator::Or {
                disjunction(l, r)
            } else {
                match l {
                    Err(x) => Err(x),
                    Ok(a) => match r {
                        Err(x) => Err(x),
                        Ok(b) => operation(op, a, b, known),
                    },
                }
            }
        },
        ExprV::Case { operand, conditions, results, else_result } => {
            let cs = evaluated_each(conditions, row, s, known);
            let rs = evaluated_each(results, row, s, known);
            if conditions.len() != results.len() {
                Err(facts::plain_error(ErrorKind::CaseLength))
            } else {
                let found = case_choice(evaluated_opt(operand, row, s, known), cs, known);
                case_outcome(found, rs, evaluated_opt(else_result, row, s, known))
            }
        },
        ExprV::Function { name, args } => function_value(
            text::uppercased(name),
            evaluated_each(args, row, s, known),
            known,
        ),
        ExprV::Match { column, index, query_str } => match match_index(s, column, index) {
            Err(x) => Err(x),
            Ok(i) => match row_value(row, i) {
                Err(x) => Err(x),
                Ok(ValueV::String(t)) => match_value(t, tokenizer_from(s.indexes, column, 0), query_str, known),
                Ok(_) => Ok(ValueV::Bool(false)),
            },
        },
        ExprV::Cast { expr, target_type } => match evaluated(*expr, row, s, known) {
            Err(x) => Err(x),
            Ok(v) => cast(v, target_type, known),
        },
        ExprV::ScalarSubquery(_) => Err(facts::plain_error(ErrorKind::SubqueryAtExecution)),
        ExprV::InSubquery { .. } => Err(facts::plain_error(ErrorKind::SubqueryAtExecution)),
        ExprV::Exists { .. } => Err(facts::plain_error(ErrorKind::SubqueryAtExecution)),
    }
}

/// The value of an optional expression on a row.
pub open spec fn evaluated_opt(
    o: Option<Box<ExprV>>,
    row: Seq<ValueV>,
    s: SchemaV,
    known: Seq<(QuestionV, AnswerV)>,
) -> Option<Result<ValueV, ErrorV>>
    decreases o,
{
    match o {
        Some(e) => Some(evaluated(*e, row, s, known)),
        None => None,
    }
}

/// The values of some expressions on a row.
pub open spec fn evaluated_each(
    es: Seq<ExprV>,
    row: Seq<ValueV>,
    s: SchemaV,
    known: Seq<(QuestionV, AnswerV)>,
) -> Seq<Result<ValueV, ErrorV>>
    decreases es,
{
    Seq::new(
        es.len(),
        |i: int|
            if 0 <= i < es.len() {
                evaluated(es[i], row, s, known)
            } else {
                arbitrary()
            },
    )
}

impl Expr {
    /// The value of the expression on a row.
    pub fn eval(&self, row: &Row, s: &Schema, facts: &Facts) -> (out: Result<DbValue, SqlError>)
        ensures
            value_result(out) == evaluated(self@, row@, s@, facts@),
        decreases self, 2nat,
    {
        match self {
            Expr::Literal(v) => Ok(v.clone()),
            Expr::Parameter(name) => Err(SqlError::named(ErrorKind::ParameterAtExecution, name.as_str())),
            Expr::Column(name, index) => {
                let i: usize = match index {
                    Some(i) => *i,
                    None => expr::resolve_column(s, name.as_str())?,
                };
                row_value_at(row, i)
            },
            Expr::Not(inner) => {
                let v = inner.eval(row, s, facts)?;
                if v.is_null() {
                    Ok(DbValue::Null)
                } else {
                    let b = to_bool(&v)?;
                    Ok(DbValue::Bool(!b))
                }
            },
            Expr::IsNull(inner) => {
                let v = inner.eval(row, s, facts)?;
                Ok(DbValue::Bool(v.is_null()))
            },
            Expr::InList { expr, list } => {
                let v = expr.eval(row, s, facts)?;
                if v.is_null() {
                    return Ok(DbValue::Null);
                }
                eval_in_list(&v, list, row, s, facts)
            },
            Expr::BinaryOp { .. } => self.eval_binary(row, s, facts),
            Expr::Case { .. } => self.eval_case(row, s, facts),
            Expr::Function { name, args } => {
                let upper = text::to_uppercase(name.as_str());
                eval_function(upper.as_str(), args, row, s, facts)
            },
            Expr::Match { .. } => self.eval_match(row, s, facts),
            Expr::Cast { expr, target_type } => {
                let v = expr.eval(row, s, facts)?;
                cast_value(v, *target_type, facts)
            },
            Expr::ScalarSubquery(_) => Err(SqlError::plain(ErrorKind::SubqueryAtExecution)),
            Expr::InSubquery { .. } => Err(SqlError::plain(ErrorKind::SubqueryAtExecution)),
            Expr::Exists { .. } => Err(SqlError::plain(ErrorKind::SubqueryAtExecution)),
        }
    }

    /// The value of a binary operation on a row.
    fn eval_binary(&self, row: &Row, s: &Schema, facts: &Facts) -> (out: Result<DbValue, SqlError>)
        requires
            self is BinaryOp,
        ensures
            value_result(out) == evaluated(self@, row@, s@, facts@),
        decreases self, 1nat,
    {
        match self {
            Expr::BinaryOp { left, op, right } => match op {
                Operator::And => {
                    let l = left.eval(row, s, facts)?;
                    if false_decides(&l)? {
                        return Ok(DbValue::Bool(false));
                    }
                    let r = right.eval(row, s, facts)?;
                    and_values(&l, &r)
                },
                Operator::Or => {
                    let l = left.eval(row, s, facts)?;
                    if true_decides(&l)? {
                        return Ok(DbValue::Bool(true));
                    }
                    let r = right.eval(row, s, facts)?;
                    or_values(&l, &r)
                },
                _ => {
                    let l = left.eval(row, s, facts)?;
                    let r = right.eval(row, s, facts)?;
                    apply_operator(*op, &l, &r, facts)
                },
            },
            _ => Ok(DbValue::Null),
        }
    }

    /// The value of a CASE on a row.
    fn eval_case(&self, row: &Row, s: &Schema, facts: &Facts) -> (out: Result<DbValue, SqlError>)
        requires
            self is Case,
        ensures
            value_result(out) == evaluated(self@, row@, s@, facts@),
        decreases self, 1nat,
    {
        match self {
            Expr::Case { operand, conditions, results, else_result } => {
                if conditions.len() != results.len() {
                    return Err(SqlError::plain(ErrorKind::CaseLength));
                }
                let ghost ov = evaluated_opt(expr::opt_expr_view(*operand), row@, s@, facts@);
                let ghost lv = evaluated_opt(expr::opt_expr_view(*else_result), row@, s@, facts@);
                let ghost cs = evaluated_each(expr::exprs_view(conditions@), row@, s@, facts@);
                let ghost rs = evaluated_each(expr::exprs_view(results@), row@, s@, facts@);
                assert(expr::exprs_view(conditions@).len() == expr::exprs_view(results@).len());
                assert(evaluated(self@, row@, s@, facts@) == case_outcome(case_choice(ov, cs, facts@), rs, lv));
                let found: Option<usize> = match eval_opt(operand, row, s, facts)? {
                    Some(v) => find_case_equal(&v, conditions, row, s, facts)?,
                    None => find_case_true(conditions, row, s, facts)?,
                };
                match found {
                    Some(i) => {
                        assert(decreases_to!(results@ => results@[i as int]));
                        results[i].eval(row, s, facts)
                    },
                    None => match eval_opt(else_result, row, s, facts)? {
                        Some(v) => Ok(v),
                        None => Ok(DbValue::Null),
                    },
                }
            },
            _ => Ok(DbValue::Null),
        }
    }

    /// The value of a full-text match on a row.
    fn eval_match(&self, row: &Row, s: &Schema, facts: &Facts) -> (out: Result<DbValue, SqlError>)
        requires
            self is Match,
        ensures
            value_result(out) == evaluated(self@, row@, s@, facts@),
        decreases self, 1nat,
    {
        match self {
            Expr::Match { column, index, query_str } => {
                let i: usize = match index {
                    Some(i) => *i,
                    None => match s.exact_column_index(column.as_str()) {
                        Some(i) => i,
                        None => return Err(SqlError::named(ErrorKind::ColumnNotFound, column.as_str())),
                    },
                };
                match row_value_at(row, i)? {
                    DbValue::String(t) => {
                        let tokenizer = tokenizer_name(s, column.as_str());
                        match_text(t.as_str(), tokenizer.as_str(), query_str.as_str(), facts)
                    },
                    _ => Ok(DbValue::Bool(false)),
                }
            },
            _ => Ok(DbValue::Null),
        }
    }
}

/// The value of an optional expression on a row.
fn eval_opt(o: &Option<Box<Expr>>, row: &Row, s: &Schema, facts: &Facts) -> (out: Result<
    Option<DbValue>,
    SqlError,
>)
    ensures
        match out {
            Ok(Some(v)) => evaluated_opt(expr::opt_expr_view(*o), row@, s@, facts@) == Some(
                Ok::<ValueV, ErrorV>(v@),
            ),
            Ok(None) => evaluated_opt(expr::opt_expr_view(*o), row@, s@, facts@) is None,
            Err(e) => evaluated_opt(expr::opt_expr_view(*o), row@, s@, facts@) == Some(
                Err::<ValueV, ErrorV>(e@),
            ),
        },
    decreases o, 0nat,
{
    match o {
        Some(e) => {
            let v = e.eval(row, s, facts)?;
            Ok(Some(v))
        },
        None => Ok(None),
    }
}

/// Whether the left side alone makes AND false.
fn false_decides(l: &DbValue) -> (out: Result<bool, SqlError>)
    ensures
        plain_result(out) == (if l@ is Null {
            Ok(false)
        } else {
            match truth(l@) {
                Ok(b) => Ok(!b),
                Err(x) => Err(x),
            }
        }),
{
    if l.is_null() {
        return Ok(false);
    }
    let b = to_bool(l)?;
    Ok(!b)
}

/// Whether the left side alone makes OR true.
fn true_decides(l: &DbValue) -> (out: Result<bool, SqlError>)
    ensures
        plain_result(out) == (if l@ is Null {
            Ok(false)
        } else {
            truth(l@)
        }),
{
    if l.is_null() {
        return Ok(false);
    }
    to_bool(l)
}

/// The outcome of AND on two values.
fn and_values(l: &DbValue, r: &DbValue) -> (out: Result<DbValue, SqlError>)
    ensures
        value_result(out) == conjunction(Ok(l@), Ok(r@)),
{
    if l.is_null() {
        if r.is_null() {
            return Ok(DbValue::Null);
        }
        let b = to_bool(r)?;
        if b {
            return Ok(DbValue::Null);
        }
        return Ok(DbValue::Bool(false));
    }
    let a = to_bool(l)?;
    if !a {
        return Ok(DbValue::Bool(false));
    }
    if r.is_null() {
        return Ok(DbValue::Null);
    }
    let b = to_bool(r)?;
    Ok(DbValue::Bool(b))
}

/// The outcome of OR on two values.
fn or_values(l: &DbValue, r: &DbValue) -> (out: Result<DbValue, SqlError>)
    ensures
        value_result(out) == disjunction(Ok(l@), Ok(r@)),
{
    if l.is_null() {
        if r.is_null() {
            return Ok(DbValue::Null);
        }
        let b = to_bool(r)?;
        if b {
            return Ok(DbValue::Bool(true));
        }
        return Ok(DbValue::Null);
    }
    let a = to_bool(l)?;
    if a {
        return Ok(DbValue::Bool(true));
    }
    if r.is_null() {
        return Ok(DbValue::Null);
    }
    let b = to_bool(r)?;
    Ok(DbValue::Bool(b))
}

/// The outcome of IN for a value that is not NULL.
fn eval_in_list(v: &DbValue, list: &Vec<Expr>, row: &Row, s: &Schema, facts: &Facts) -> (out: Result<
    DbValue,
    SqlError,
>)
    ensures
        value_result(out) == in_list(
            v@,
            evaluated_each(expr::exprs_view(list@), row@, s@, facts@),
            0,
            false,
            facts@,
        ),
    decreases list, 0nat,
{
    let ghost rs = evaluated_each(expr::exprs_view(list@), row@, s@, facts@);
    let mut has_null = false;
    for i in 0..list.len()
        invariant
            rs == evaluated_each(expr::exprs_view(list@), row@, s@, facts@),
            in_list(v@, rs, 0, false, facts@) == in_list(v@, rs, i as int, has_null, facts@),
            decreases_to!(list => list@),
    {
        let w = list[i].eval(row, s, facts)?;
        if w.is_null() {
            has_null = true;
        } else if values_equal(v, &w, facts)? {
            return Ok(DbValue::Bool(true));
        }
    }
    if has_null {
        Ok(DbValue::Null)
    } else {
        Ok(DbValue::Bool(false))
    }
}

/// The first condition that is equal to the operand of a CASE.
fn find_case_equal(v: &DbValue, conditions: &Vec<Expr>, row: &Row, s: &Schema, facts: &Facts) -> (out: Result<
    Option<usize>,
    SqlError,
>)
    ensures
        case_found(
            out,
            case_equal(v@, evaluated_each(expr::exprs_view(conditions@), row@, s@, facts@), 0, facts@),
            conditions@.len(),
        ),
    decreases conditions, 0nat,
{
    let ghost rs = evaluated_each(expr::exprs_view(conditions@), row@, s@, facts@);
    for i in 0..conditions.len()
        invariant
            rs == evaluated_each(expr::exprs_view(conditions@), row@, s@, facts@),
            case_equal(v@, rs, 0, facts@) == case_equal(v@, rs, i as int, facts@),
            decreases_to!(conditions => conditions@),
    {
        let w = conditions[i].eval(row, s, facts)?;
        if values_equal(v, &w, facts)? {
            return Ok(Some(i));
        }
    }
    Ok(None)
}

/// The first condition of a CASE that is true.
fn find_case_true(conditions: &Vec<Expr>, row: &Row, s: &Schema, facts: &Facts) -> (out: Result<
    Option<usize>,
    SqlError,
>)
    ensures
        case_found(
            out,
            case_true(evaluated_each(expr::exprs_view(conditions@), row@, s@, facts@), 0),
            conditions@.len(),
        ),
    decreases conditions, 0nat,
{
    let ghost rs = evaluated_each(expr::exprs_view(conditions@), row@, s@, facts@);
    for i in 0..conditions.len()
        invariant
            rs == evaluated_each(expr::exprs_view(conditions@), row@, s@, facts@),
            case_true(rs, 0) == case_true(rs, i as int),
            decreases_to!(conditions => conditions@),
    {
        let w = conditions[i].eval(row, s, facts)?;
        if to_bool(&w)? {
            return Ok(Some(i));
        }
    }
    Ok(None)
}

/// Whether a position found among `n` conditions is the expected one.
pub open spec fn case_found(out: Result<Option<usize>, SqlError>, expected: Result<Option<int>, ErrorV>, n: nat) -> bool {
    match out {
        Ok(Some(i)) => i < n && expected == Ok::<Option<int>, ErrorV>(Some(i as int)),
        Ok(None) => expected == Ok::<Option<int>, ErrorV>(None),
        Err(e) => expected == Err::<Option<int>, ErrorV>(e@),
    }
}

/// The outcome of SUBSTR.
fn eval_substr(args: &Vec<Expr>, row: &Row, s: &Schema, facts: &Facts) -> (out: Result<DbValue, SqlError>)
    ensures
        value_result(out) == substr_value(evaluated_each(expr::exprs_view(args@), row@, s@, facts@), facts@),
    decreases args, 0nat,
{
    if args.len() != 2 && args.len() != 3 {
        return Err(wrong_arguments("SUBSTR", args.len()));
    }
    assert(decreases_to!(args@ => args@[0]));
    assert(decreases_to!(args@ => args@[1]));
    let v = args[0].eval(row, s, facts)?;
    if v.is_null() {
        return Ok(DbValue::Null);
    }
    let t = coerce_to_string(&v, facts)?;
    let start: i64 = match args[1].eval(row, s, facts)? {
        DbValue::Int(i) => i,
        other => return Err(SqlError::about(ErrorKind::SubstrStart, &other)),
    };
    if args.len() == 2 {
        return Ok(DbValue::String(substring_from(t.as_str(), start)));
    }
    assert(decreases_to!(args@ => args@[2]));
    let len: i64 = match args[2].eval(row, s, facts)? {
        DbValue::Int(i) => i,
        other => return Err(SqlError::about(ErrorKind::SubstrLength, &other)),
    };
    if len < 0 {
        return Err(SqlError::about(ErrorKind::SubstrNegative, &DbValue::Int(len)));
    }
    Ok(DbValue::String(substring_of(t.as_str(), start, len)))
}

/// The outcome of COALESCE.
fn eval_coalesce(args: &Vec<Expr>, row: &Row, s: &Schema, facts: &Facts) -> (out: Result<DbValue, SqlError>)
    ensures
        value_result(out) == coalesced(evaluated_each(expr::exprs_view(args@), row@, s@, facts@), 0),
    decreases args, 0nat,
{
    let ghost rs = evaluated_each(expr::exprs_view(args@), row@, s@, facts@);
    for i in 0..args.len()
        invariant
            rs == evaluated_each(expr::exprs_view(args@), row@, s@, facts@),
            coalesced(rs, 0) == coalesced(rs, i as int),
            decreases_to!(args => args@),
    {
        let v = args[i].eval(row, s, facts)?;
        if !v.is_null() {
            return Ok(v);
        }
    }
    Ok(DbValue::Null)
}

/// The outcome of CONCAT.
fn eval_concat(args: &Vec<Expr>, row: &Row, s: &Schema, facts: &Facts) -> (out: Result<DbValue, SqlError>)
    ensures
        value_result(out) == concatenated(
            evaluated_each(expr::exprs_view(args@), row@, s@, facts@),
            0,
            Seq::empty(),
            facts@,
        ),
    decreases args, 0nat,
{
    let ghost rs = evaluated_each(expr::exprs_view(args@), row@, s@, facts@);
    let mut acc = String::new();
    assert(acc@ =~= Seq::empty());
    for i in 0..args.len()
        invariant
            rs == evaluated_each(expr::exprs_view(args@), row@, s@, facts@),
            concatenated(rs, 0, Seq::empty(), facts@) == concatenated(rs, i as int, acc@, facts@),
            decreases_to!(args => args@),
    {
        let v = args[i].eval(row, s, facts)?;
        if v.is_null() {
            return Ok(DbValue::Null);
        }
        let t = coerce_to_string(&v, facts)?;
        acc.append(t.as_str());
    }
    Ok(DbValue::String(acc))
}

/// The outcome of a function, by its name in upper case.
fn eval_function(name: &str, args: &Vec<Expr>, row: &Row, s: &Schema, facts: &Facts) -> (out: Result<
    DbValue,
    SqlError,
>)
    ensures
        value_result(out) == function_value(
            name@,
            evaluated_each(expr::exprs_view(args@), row@, s@, facts@),
            facts@,
        ),
    decreases args, 1nat,
{
    let n = args.len();
    if text::same_text(name, "LENGTH") || text::same_text(name, "UPPER") || text::same_text(name, "LOWER")
        || text::same_text(name, "ABS") || text::same_text(name, "ROUND") {
        if n != 1 {
            return Err(wrong_arguments(name, n));
        }
        assert(decreases_to!(args@ => args@[0]));
        let v = args[0].eval(row, s, facts)?;
        if v.is_null() {
            return Ok(DbValue::Null);
        }
        return apply_unary(name, &v, facts);
    }
    if text::same_text(name, "SUBSTR") || text::same_text(name, "SUBSTRING") {
        return eval_substr(args, row, s, facts);
    }
    if text::same_text(name, "COALESCE") {
        if n == 0 {
            return Err(wrong_arguments(name, 0));
        }
        return eval_coalesce(args, row, s, facts);
    }
    if text::same_text(name, "CONCAT") {
        if n == 0 {
            return Err(wrong_arguments(name, 0));
        }
        return eval_concat(args, row, s, facts);
    }
    Err(SqlError::named(ErrorKind::UnknownFunction, name))
}

} // verus!
