//! Key ranges implied by predicates.

use crate::expr::{Expr, ExprV, Operator};
use crate::logical::{PlanKey, PlanKeyV};
use crate::optimizer;
use crate::schema;
use crate::schema::{Schema, SchemaV};
use crate::text;
use crate::value;
use crate::value::{
    DataType, Date, DbKey, DbValue, Decimal, KeyV, Order, Time, Timestamp, ValueV, DATE_MAX_DAYS, DATE_MIN_DAYS,
    MANTISSA_LIMIT,
};
use vstd::prelude::*;
use vstd::string::*;

verus! {

// ---------------------------------------------------------------- prefixes

/// The code point after `c`; U+10FFFF has none, and the surrogates are stepped over.
pub open spec fn scalar_after(c: char) -> Option<char> {
    if c == '\u{10ffff}' {
        None
    } else if c == '\u{d7ff}' {
        Some('\u{e000}')
    } else {
        Some((c as u32 + 1) as char)
    }
}

/// `char::from_u32`: the character of a code point, where it is a scalar value.
#[verifier::external_body]
fn char_from_u32(n: u32) -> (out: Option<char>)
    ensures
        out == (if n <= 0xD7FF || 0xE000 <= n <= 0x10FFFF {
            Some(n as char)
        } else {
            None
        }),
{
    char::from_u32(n)
}

/// The next Unicode scalar value, stepping over the surrogates. U+10FFFF has none.
pub fn next_scalar(c: char) -> (out: Option<char>)
    ensures
        out == scalar_after(c),
{
    if c == '\u{d7ff}' {
        Some('\u{e000}')
    } else if c == '\u{10ffff}' {
        None
    } else {
        let n: u32 = c as u32;
        assert(n < 0x10FFFF);
        assert(n < 0xD7FF || n >= 0xE000);
        char_from_u32(n + 1)
    }
}

/// The text that follows every text with the prefix: the last character that has a
/// successor is replaced by it, and what comes after it is dropped.
pub open spec fn successor(prefix: Seq<char>) -> Option<Seq<char>>
    decreases prefix.len(),
{
    if prefix.len() == 0 {
        None
    } else {
        match scalar_after(prefix.last()) {
            Some(n) => Some(prefix.drop_last().push(n)),
            None => successor(prefix.drop_last()),
        }
    }
}

/// The smallest text that is greater than every text with the prefix. There is none where
/// the prefix consists of U+10FFFF alone.
pub fn prefix_successor(prefix: &str) -> (out: Option<String>)
    ensures
        match out {
            Some(s) => successor(prefix@) == Some(s@),
            None => successor(prefix@) is None,
        },
{
    let chars = text::chars_of(prefix);
    let mut i: usize = chars.len();
    assert(chars@.take(i as int) =~= chars@);
    while i > 0
        invariant
            i <= chars@.len(),
            chars@ == prefix@,
            successor(prefix@) == successor(chars@.take(i as int)),
        decreases i,
    {
        i = i - 1;
        assert(chars@.take(i + 1).drop_last() =~= chars@.take(i as int));
        if let Some(next) = next_scalar(chars[i]) {
            let mut s = text::text_of_range(&chars, 0, i);
            s.push(next);
            assert(s@ =~= chars@.take(i as int).push(next));
            return Some(s);
        }
    }
    None
}

/// The number of characters of a LIKE pattern, from position `i` on, before the first
/// wildcard.
pub open spec fn literal_len(pattern: Seq<char>, i: int) -> int
    decreases pattern.len() - i,
{
    if i >= pattern.len() || pattern[i] == '%' || pattern[i] == '_' {
        i
    } else {
        literal_len(pattern, i + 1)
    }
}

/// The characters of a LIKE pattern before the first wildcard.
pub open spec fn literal_prefix(pattern: Seq<char>) -> Seq<char> {
    pattern.take(literal_len(pattern, 0))
}

/// The characters of a LIKE pattern before the first wildcard; none where the pattern
/// begins with one.
pub fn like_literal_prefix(pattern: &str) -> (out: Option<String>)
    ensures
        match out {
            Some(s) => s@ == literal_prefix(pattern@) && s@.len() > 0,
            None => literal_prefix(pattern@).len() == 0,
        },
{
    let chars = text::chars_of(pattern);
    let mut i: usize = 0;
    while i < chars.len() && chars[i] != '%' && chars[i] != '_'
        invariant
            i <= chars@.len(),
            chars@ == pattern@,
            literal_len(pattern@, 0) == literal_len(pattern@, i as int),
        decreases chars@.len() - i,
    {
        i = i + 1;
    }
    let s = text::text_of_range(&chars, 0, i);
    assert(s@ =~= literal_prefix(pattern@));
    if i == 0 {
        None
    } else {
        Some(s)
    }
}

// ---------------------------------------------------------------- keys

/// The key of a value, where values of its type can be keys.
pub open spec fn key_of(v: ValueV) -> Option<KeyV> {
    match v {
        ValueV::Int(i) => Some(KeyV::Int(i)),
        ValueV::String(s) => Some(KeyV::String(s)),
        ValueV::Date(d) => Some(KeyV::Date(d)),
        ValueV::Time(t) => Some(KeyV::Time(t)),
        ValueV::Timestamp(t) => Some(KeyV::Timestamp(t)),
        ValueV::Decimal(d) => Some(KeyV::Decimal(d)),
        _ => None,
    }
}

/// The view of an optional key.
pub open spec fn opt_key(o: Option<DbKey>) -> Option<KeyV> {
    match o {
        Some(k) => Some(k@),
        None => None,
    }
}

/// The view of an optional bound.
pub open spec fn opt_plan_key(o: Option<PlanKey>) -> Option<PlanKeyV> {
    match o {
        Some(k) => Some(k@),
        None => None,
    }
}

/// The key of a value.
pub fn val_to_key(v: &DbValue) -> (out: Option<DbKey>)
    ensures
        opt_key(out) == key_of(v@),
{
    match v {
        DbValue::Int(i) => Some(DbKey::Int(*i)),
        DbValue::String(s) => Some(DbKey::String(s.clone())),
        DbValue::Date(d) => Some(DbKey::Date(*d)),
        DbValue::Time(t) => Some(DbKey::Time(*t)),
        DbValue::Timestamp(t) => Some(DbKey::Timestamp(*t)),
        DbValue::Decimal(d) => Some(DbKey::Decimal(*d)),
        _ => None,
    }
}

/// The smallest timestamp.
pub open spec fn timestamp_min() -> Timestamp {
    value::timestamp_of((DATE_MIN_DAYS, 0, 0))
}

/// The largest timestamp outside a leap second.
pub open spec fn timestamp_max() -> Timestamp {
    value::timestamp_of((DATE_MAX_DAYS, 86399, 999_999_999))
}

/// The key that stands for no lower bound on keys of a column type.
pub open spec fn type_min(ty: DataType) -> KeyV {
    match ty {
        DataType::Int => KeyV::Int(i64::MIN),
        DataType::Date => KeyV::Date(Date::of(DATE_MIN_DAYS)),
        DataType::Time => KeyV::Time(Time::of(0, 0)),
        DataType::Timestamp => KeyV::Timestamp(timestamp_min()),
        DataType::Decimal => KeyV::Decimal(Decimal::of((1 - MANTISSA_LIMIT) as i128, 0)),
        _ => KeyV::String(Seq::empty()),
    }
}

/// The key that stands for no upper bound on keys of a column type.
pub open spec fn type_max(ty: DataType) -> KeyV {
    match ty {
        DataType::Int => KeyV::Int(i64::MAX),
        DataType::Date => KeyV::Date(Date::of(DATE_MAX_DAYS)),
        DataType::Time => KeyV::Time(Time::of(86399, 999_999_999)),
        DataType::Timestamp => KeyV::Timestamp(timestamp_max()),
        DataType::Decimal => KeyV::Decimal(Decimal::of((MANTISSA_LIMIT - 1) as i128, 0)),
        _ => KeyV::String(seq!['\u{10ffff}']),
    }
}

/// The text of U+10FFFF alone.
fn last_text() -> (out: String)
    ensures
        out@ == seq!['\u{10ffff}'],
{
    let mut out = String::new();
    out.push('\u{10ffff}');
    assert(out@ =~= seq!['\u{10ffff}']);
    out
}

/// The smallest timestamp.
fn first_timestamp() -> (out: Timestamp)
    ensures
        out == timestamp_min(),
{
    Timestamp { date: Date::min(), time: Time::midnight() }
}

/// The largest timestamp.
fn last_timestamp() -> (out: Timestamp)
    ensures
        out == timestamp_max(),
{
    Timestamp { date: Date::max(), time: Time::last_of_day() }
}

/// The key that stands for no lower bound on keys of a column type.
pub fn min_key(ty: &DataType) -> (out: DbKey)
    ensures
        out@ == type_min(*ty),
{
    match ty {
        DataType::Int => DbKey::Int(i64::MIN),
        DataType::Date => DbKey::Date(Date::min()),
        DataType::Time => DbKey::Time(Time::midnight()),
        DataType::Timestamp => DbKey::Timestamp(first_timestamp()),
        DataType::Decimal => DbKey::Decimal(Decimal::min()),
        _ => {
            let s = String::new();
            assert(s@ =~= Seq::empty());
            DbKey::String(s)
        },
    }
}

/// The key that stands for no upper bound on keys of a column type.
pub fn max_key(ty: &DataType) -> (out: DbKey)
    ensures
        out@ == type_max(*ty),
{
    match ty {
        DataType::Int => DbKey::Int(i64::MAX),
        DataType::Date => DbKey::Date(Date::max()),
        DataType::Time => DbKey::Time(Time::last_of_day()),
        DataType::Timestamp => DbKey::Timestamp(last_timestamp()),
        DataType::Decimal => DbKey::Decimal(Decimal::max()),
        _ => DbKey::String(last_text()),
    }
}

/// Whether a key bounds nothing from below. A composite key goes by its first part.
pub open spec fn unbounded_min(k: KeyV) -> bool
    decreases k,
{
    match k {
        KeyV::Int(i) => i == i64::MIN,
        KeyV::String(s) => s.len() == 0,
        KeyV::Bool(b) => !b,
        KeyV::Date(d) => d == Date::of(DATE_MIN_DAYS),
        KeyV::Time(t) => t == Time::of(0, 0),
        KeyV::Timestamp(t) => t == timestamp_min(),
        KeyV::Decimal(d) => value::decimal_order(d, Decimal::of((1 - MANTISSA_LIMIT) as i128, 0)) == Order::Equal,
        KeyV::Composite(parts) => parts.len() == 0 || unbounded_min(parts[0]),
    }
}

/// Whether a key bounds nothing from above. A composite key goes by its first part.
pub open spec fn unbounded_max(k: KeyV) -> bool
    decreases k,
{
    match k {
        KeyV::Int(i) => i == i64::MAX,
        KeyV::String(s) => s == seq!['\u{10ffff}'],
        KeyV::Bool(b) => b,
        KeyV::Date(d) => d == Date::of(DATE_MAX_DAYS),
        KeyV::Time(t) => t == Time::of(86399, 999_999_999),
        KeyV::Timestamp(t) => t == timestamp_max(),
        KeyV::Decimal(d) => value::decimal_order(d, Decimal::of((MANTISSA_LIMIT - 1) as i128, 0)) == Order::Equal,
        KeyV::Composite(parts) => parts.len() == 0 || unbounded_max(parts[0]),
    }
}

/// Whether a key bounds nothing from below.
pub fn is_key_unbounded_min(k: &DbKey) -> (out: bool)
    ensures
        out == unbounded_min(k@),
    decreases k,
{
    match k {
        DbKey::Int(i) => *i == i64::MIN,
        DbKey::String(s) => text::chars_of(s.as_str()).len() == 0,
        DbKey::Bool(b) => !*b,
        DbKey::Date(d) => *d == Date::min(),
        DbKey::Time(t) => *t == Time::midnight(),
        DbKey::Timestamp(t) => *t == first_timestamp(),
        DbKey::Decimal(d) => d.compare(&Decimal::min()) == Order::Equal,
        DbKey::Composite(parts) => {
            assert(value::keys_view(parts@).len() == parts@.len());
            if parts.len() == 0 {
                return true;
            }
            assert(value::keys_view(parts@)[0] == parts@[0]@);
            assert(decreases_to!(parts@ => parts@[0]));
            is_key_unbounded_min(&parts[0])
        },
    }
}

/// Whether a key bounds nothing from above.
pub fn is_key_unbounded_max(k: &DbKey) -> (out: bool)
    ensures
        out == unbounded_max(k@),
    decreases k,
{
    match k {
        DbKey::Int(i) => *i == i64::MAX,
        DbKey::String(s) => text::same_text(s.as_str(), last_text().as_str()),
        DbKey::Bool(b) => *b,
        DbKey::Date(d) => *d == Date::max(),
        DbKey::Time(t) => *t == Time::last_of_day(),
        DbKey::Timestamp(t) => *t == last_timestamp(),
        DbKey::Decimal(d) => d.compare(&Decimal::max()) == Order::Equal,
        DbKey::Composite(parts) => {
            assert(value::keys_view(parts@).len() == parts@.len());
            if parts.len() == 0 {
                return true;
            }
            assert(value::keys_view(parts@)[0] == parts@[0]@);
            assert(decreases_to!(parts@ => parts@[0]));
            is_key_unbounded_max(&parts[0])
        },
    }
}

/// Whether a bound bounds nothing from below. A parameter always bounds.
pub open spec fn plan_key_unbounded_min(k: PlanKeyV) -> bool {
    match k {
        PlanKeyV::Value(v) => unbounded_min(v),
        PlanKeyV::Parameter(_) => false,
    }
}

/// Whether a bound bounds nothing from above. A parameter always bounds.
pub open spec fn plan_key_unbounded_max(k: PlanKeyV) -> bool {
    match k {
        PlanKeyV::Value(v) => unbounded_max(v),
        PlanKeyV::Parameter(_) => false,
    }
}

/// Whether a bound bounds nothing from below.
pub fn is_plan_key_unbounded_min(k: &PlanKey) -> (out: bool)
    ensures
        out == plan_key_unbounded_min(k@),
{
    match k {
        PlanKey::Value(v) => is_key_unbounded_min(v),
        PlanKey::Parameter(_) => false,
    }
}

/// Whether a bound bounds nothing from above.
pub fn is_plan_key_unbounded_max(k: &PlanKey) -> (out: bool)
    ensures
        out == plan_key_unbounded_max(k@),
{
    match k {
        PlanKey::Value(v) => is_key_unbounded_max(v),
        PlanKey::Parameter(_) => false,
    }
}

/// Whether two bounds are the same: keys that compare as equal, or one parameter.
pub open spec fn same_plan_key(a: PlanKeyV, b: PlanKeyV) -> bool {
    match (a, b) {
        (PlanKeyV::Value(x), PlanKeyV::Value(y)) => value::key_order(x, y) == Order::Equal,
        (PlanKeyV::Parameter(x), PlanKeyV::Parameter(y)) => x == y,
        _ => false,
    }
}

impl PlanKey {
    /// Whether two bounds are the same.
    pub fn same(&self, other: &PlanKey) -> (out: bool)
        ensures
            out == same_plan_key(self@, other@),
    {
        match (self, other) {
            (PlanKey::Value(x), PlanKey::Value(y)) => x.same(y),
            (PlanKey::Parameter(x), PlanKey::Parameter(y)) => text::same_text(x.as_str(), y.as_str()),
            _ => false,
        }
    }
}

// ---------------------------------------------------------------- bounds

/// The bound that a comparison of a column with a literal or a parameter gives, whichever
/// side the column is on.
pub open spec fn column_comparison(left: ExprV, right: ExprV, col: Seq<char>) -> Option<PlanKeyV> {
    match (left, right) {
        (ExprV::Column(name, _), ExprV::Literal(v)) => literal_bound(name, v, col),
        (ExprV::Literal(v), ExprV::Column(name, _)) => literal_bound(name, v, col),
        (ExprV::Column(name, _), ExprV::Parameter(p)) => parameter_bound(name, p, col),
        (ExprV::Parameter(p), ExprV::Column(name, _)) => parameter_bound(name, p, col),
        _ => None,
    }
}

/// The bound that a literal gives for a column.
pub open spec fn literal_bound(name: Seq<char>, v: ValueV, col: Seq<char>) -> Option<PlanKeyV> {
    if text::names_match(name, col) {
        match key_of(v) {
            Some(k) => Some(PlanKeyV::Value(k)),
            None => None,
        }
    } else {
        None
    }
}

/// The bound that a parameter gives for a column.
pub open spec fn parameter_bound(name: Seq<char>, p: Seq<char>, col: Seq<char>) -> Option<PlanKeyV> {
    if text::names_match(name, col) {
        Some(PlanKeyV::Parameter(p))
    } else {
        None
    }
}

/// The bound that a literal gives for a column.
fn bound_of_literal(name: &str, v: &DbValue, col: &str) -> (out: Option<PlanKey>)
    ensures
        opt_plan_key(out) == literal_bound(name@, v@, col@),
{
    if !text::column_names_match(name, col) {
        return None;
    }
    match val_to_key(v) {
        Some(k) => Some(PlanKey::Value(k)),
        None => None,
    }
}

/// The bound that a parameter gives for a column.
fn bound_of_parameter(name: &str, p: &String, col: &str) -> (out: Option<PlanKey>)
    ensures
        opt_plan_key(out) == parameter_bound(name@, p@, col@),
{
    if text::column_names_match(name, col) {
        Some(PlanKey::Parameter(p.clone()))
    } else {
        None
    }
}

/// The bound that a comparison of a column with a literal or a parameter gives.
pub fn get_column_comparison(left: &Expr, right: &Expr, col: &str) -> (out: Option<PlanKey>)
    ensures
        opt_plan_key(out) == column_comparison(left@, right@, col@),
{
    match (left, right) {
        (Expr::Column(name, _), Expr::Literal(v)) => bound_of_literal(name.as_str(), v, col),
        (Expr::Literal(v), Expr::Column(name, _)) => bound_of_literal(name.as_str(), v, col),
        (Expr::Column(name, _), Expr::Parameter(p)) => bound_of_parameter(name.as_str(), p, col),
        (Expr::Parameter(p), Expr::Column(name, _)) => bound_of_parameter(name.as_str(), p, col),
        _ => None,
    }
}

/// Whether keys of a column type can be bounded by a key. Integers and decimals compare by their
/// number but not as keys.
pub open spec fn key_fits(k: KeyV, ty: DataType) -> bool {
    match k {
        KeyV::Int(_) => !(ty is Decimal),
        KeyV::Decimal(_) => !(ty is Int),
        _ => true,
    }
}

/// Whether keys of a column type can be bounded by a key.
pub fn fits_type(k: &DbKey, ty: &DataType) -> (out: bool)
    ensures
        out == key_fits(k@, *ty),
{
    match k {
        DbKey::Int(_) => match ty {
            DataType::Decimal => false,
            _ => true,
        },
        DbKey::Decimal(_) => match ty {
            DataType::Int => false,
            _ => true,
        },
        _ => true,
    }
}

/// The bound that a comparison gives for a column of a type. A parameter is bounded by whatever
/// value it gets.
pub open spec fn usable_bound(left: ExprV, right: ExprV, col: Seq<char>, ty: DataType) -> Option<PlanKeyV> {
    match column_comparison(left, right, col) {
        Some(PlanKeyV::Value(k)) => if key_fits(k, ty) {
            Some(PlanKeyV::Value(k))
        } else {
            None
        },
        other => other,
    }
}

/// The bound that a comparison gives for a column of a type.
fn comparison_bound(left: &Expr, right: &Expr, col: &str, ty: &DataType) -> (out: Option<PlanKey>)
    ensures
        opt_plan_key(out) == usable_bound(left@, right@, col@, *ty),
{
    match get_column_comparison(left, right, col) {
        Some(PlanKey::Value(k)) => if fits_type(&k, ty) {
            Some(PlanKey::Value(k))
        } else {
            None
        },
        other => other,
    }
}

/// The comparison as it reads with the column on the left.
pub open spec fn column_first(left: ExprV, op: Operator) -> Operator {
    if left is Column {
        op
    } else {
        optimizer::mirrored(op)
    }
}

/// The comparison as it reads with the column on the left.
fn operator_of_column(left: &Expr, op: Operator) -> (out: Operator)
    ensures
        out == column_first(left@, op),
{
    match left {
        Expr::Column(_, _) => op,
        _ => optimizer::mirror(op),
    }
}

/// The range that a comparison of a column with a bound gives.
pub open spec fn compared_range(op: Operator, b: PlanKeyV, ty: DataType) -> Option<(PlanKeyV, PlanKeyV)> {
    match op {
        Operator::Eq => Some((b, b)),
        Operator::GtEq => range_from(Some(b), ty),
        Operator::Gt => range_from(after_bound(b), ty),
        Operator::LtEq => range_to(Some(b), ty),
        Operator::Lt => range_to(before_bound(b), ty),
        _ => None,
    }
}

/// The range that a comparison of a column with a bound gives.
fn compare_range(op: Operator, b: PlanKey, ty: &DataType) -> (out: Option<(PlanKey, PlanKey)>)
    ensures
        opt_range(out) == compared_range(op, b@, *ty),
{
    match op {
        Operator::Eq => Some((b.clone(), b)),
        Operator::GtEq => bounds_from(Some(b), ty),
        Operator::Gt => bounds_from(bound_after(b), ty),
        Operator::LtEq => bounds_to(Some(b), ty),
        Operator::Lt => bounds_to(bound_before(b), ty),
        _ => None,
    }
}

/// The first key after a bound: integers step by one and texts by a NUL character; other
/// keys stay. None where there is no integer after it.
pub open spec fn after_bound(k: PlanKeyV) -> Option<PlanKeyV> {
    match k {
        PlanKeyV::Value(KeyV::Int(i)) => if i == i64::MAX {
            None
        } else {
            Some(PlanKeyV::Value(KeyV::Int((i + 1) as i64)))
        },
        PlanKeyV::Value(KeyV::String(s)) => Some(PlanKeyV::Value(KeyV::String(s.push('\0')))),
        _ => Some(k),
    }
}

/// The last integer before a bound; other keys stay. None where there is no integer
/// before it.
pub open spec fn before_bound(k: PlanKeyV) -> Option<PlanKeyV> {
    match k {
        PlanKeyV::Value(KeyV::Int(i)) => if i == i64::MIN {
            None
        } else {
            Some(PlanKeyV::Value(KeyV::Int((i - 1) as i64)))
        },
        _ => Some(k),
    }
}

/// The range from a bound to the largest key of the column type.
pub open spec fn range_from(start: Option<PlanKeyV>, ty: DataType) -> Option<(PlanKeyV, PlanKeyV)> {
    match start {
        Some(k) => Some((k, PlanKeyV::Value(type_max(ty)))),
        None => None,
    }
}

/// The range from the smallest key of the column type to a bound.
pub open spec fn range_to(end: Option<PlanKeyV>, ty: DataType) -> Option<(PlanKeyV, PlanKeyV)> {
    match end {
        Some(k) => Some((PlanKeyV::Value(type_min(ty)), k)),
        None => None,
    }
}

/// The larger of two lower bounds; a parameter is preferred.
pub open spec fn later_start(l: PlanKeyV, r: PlanKeyV) -> PlanKeyV {
    match (l, r) {
        (PlanKeyV::Value(x), PlanKeyV::Value(y)) => if value::key_order(x, y) == Order::Greater {
            l
        } else {
            r
        },
        (PlanKeyV::Parameter(_), _) => l,
        _ => r,
    }
}

/// The smaller of two upper bounds; a parameter is preferred.
pub open spec fn earlier_end(l: PlanKeyV, r: PlanKeyV) -> PlanKeyV {
    match (l, r) {
        (PlanKeyV::Value(x), PlanKeyV::Value(y)) => if value::key_order(x, y) == Order::Greater {
            r
        } else {
            l
        },
        (PlanKeyV::Parameter(_), _) => l,
        _ => r,
    }
}

/// The range that brackets the literal prefix of a LIKE pattern on a text column: every text
/// with the prefix lies in it. There is none where no text follows all of those.
pub open spec fn like_range(left: ExprV, right: ExprV, col: Seq<char>, ty: DataType) -> Option<
    (PlanKeyV, PlanKeyV),
> {
    match (left, right) {
        (ExprV::Column(name, _), ExprV::Literal(ValueV::String(pattern))) => if ty == DataType::String
            && text::names_match(name, col) && literal_prefix(pattern).len() > 0 {
            let prefix = literal_prefix(pattern);
            match successor(prefix) {
                Some(end) => Some((PlanKeyV::Value(KeyV::String(prefix)), PlanKeyV::Value(KeyV::String(end)))),
                None => None,
            }
        } else {
            None
        },
        _ => None,
    }
}

/// The key range that a predicate implies for a column. Only conjunctions, comparisons
/// and LIKE imply one. It leaves out no key of a row that the predicate accepts: a start or
/// an end that bounds nothing stands for none.
pub open spec fn key_bounds(e: ExprV, col: Seq<char>, ty: DataType) -> Option<(PlanKeyV, PlanKeyV)>
    decreases e,
{
    match e {
        ExprV::BinaryOp { left, op, right } => match op {
            Operator::And => match (key_bounds(*left, col, ty), key_bounds(*right, col, ty)) {
                (Some(l), Some(r)) => Some((later_start(l.0, r.0), earlier_end(l.1, r.1))),
                (Some(l), None) => Some(l),
                (None, r) => r,
            },
            Operator::Like => like_range(*left, *right, col, ty),
            _ => match usable_bound(*left, *right, col, ty) {
                Some(b) => compared_range(column_first(*left, op), b, ty),
                None => None,
            },
        },
        _ => None,
    }
}

/// The view of an optional range.
pub open spec fn opt_range(o: Option<(PlanKey, PlanKey)>) -> Option<(PlanKeyV, PlanKeyV)> {
    match o {
        Some(r) => Some((r.0@, r.1@)),
        None => None,
    }
}

/// The first key after a bound.
fn bound_after(k: PlanKey) -> (out: Option<PlanKey>)
    ensures
        opt_plan_key(out) == after_bound(k@),
{
    match k {
        PlanKey::Value(DbKey::Int(i)) => if i == i64::MAX {
            None
        } else {
            Some(PlanKey::Value(DbKey::Int(i + 1)))
        },
        PlanKey::Value(DbKey::String(s)) => {
            let mut t = s;
            t.push('\0');
            Some(PlanKey::Value(DbKey::String(t)))
        },
        other => Some(other),
    }
}

/// The last integer before a bound.
fn bound_before(k: PlanKey) -> (out: Option<PlanKey>)
    ensures
        opt_plan_key(out) == before_bound(k@),
{
    match k {
        PlanKey::Value(DbKey::Int(i)) => if i == i64::MIN {
            None
        } else {
            Some(PlanKey::Value(DbKey::Int(i - 1)))
        },
        other => Some(other),
    }
}

/// The range from a bound to the largest key of the column type.
fn bounds_from(start: Option<PlanKey>, ty: &DataType) -> (out: Option<(PlanKey, PlanKey)>)
    ensures
        opt_range(out) == range_from(opt_plan_key(start), *ty),
{
    match start {
        Some(k) => Some((k, PlanKey::Value(max_key(ty)))),
        None => None,
    }
}

/// The range from the smallest key of the column type to a bound.
fn bounds_to(end: Option<PlanKey>, ty: &DataType) -> (out: Option<(PlanKey, PlanKey)>)
    ensures
        opt_range(out) == range_to(opt_plan_key(end), *ty),
{
    match end {
        Some(k) => Some((PlanKey::Value(min_key(ty)), k)),
        None => None,
    }
}

/// The larger of two lower bounds.
fn choose_start(l: PlanKey, r: PlanKey) -> (out: PlanKey)
    ensures
        out@ == later_start(l@, r@),
{
    let left_wins = match (&l, &r) {
        (PlanKey::Value(x), PlanKey::Value(y)) => x.compare(y) == Order::Greater,
        (PlanKey::Parameter(_), _) => true,
        _ => false,
    };
    if left_wins {
        l
    } else {
        r
    }
}

/// The smaller of two upper bounds.
fn choose_end(l: PlanKey, r: PlanKey) -> (out: PlanKey)
    ensures
        out@ == earlier_end(l@, r@),
{
    let left_wins = match (&l, &r) {
        (PlanKey::Value(x), PlanKey::Value(y)) => x.compare(y) != Order::Greater,
        (PlanKey::Parameter(_), _) => true,
        _ => false,
    };
    if left_wins {
        l
    } else {
        r
    }
}

/// The range that brackets the literal prefix of a LIKE pattern. It may hold more than
/// what matches: the pattern itself still has to be checked.
pub fn extract_like_prefix_bounds(left: &Expr, right: &Expr, col: &str, ty: &DataType) -> (out: Option<
    (PlanKey, PlanKey),
>)
    ensures
        opt_range(out) == like_range(left@, right@, col@, *ty),
{
    match (left, right) {
        (Expr::Column(name, _), Expr::Literal(DbValue::String(pattern))) => {
            if *ty != DataType::String || !text::column_names_match(name.as_str(), col) {
                return None;
            }
            match like_literal_prefix(pattern.as_str()) {
                None => None,
                Some(prefix) => {
                    match prefix_successor(prefix.as_str()) {
                        Some(end) => Some(
                            (PlanKey::Value(DbKey::String(prefix)), PlanKey::Value(DbKey::String(end))),
                        ),
                        None => None,
                    }
                },
            }
        },
        _ => None,
    }
}

/// The key range that a predicate implies for a column.
pub fn extract_bounds_for_column(e: &Expr, col: &str, ty: &DataType) -> (out: Option<(PlanKey, PlanKey)>)
    ensures
        opt_range(out) == key_bounds(e@, col@, *ty),
    decreases e,
{
    match e {
        Expr::BinaryOp { left, op, right } => match op {
            Operator::And => {
                let l = extract_bounds_for_column(left, col, ty);
                let r = extract_bounds_for_column(right, col, ty);
                match (l, r) {
                    (Some((ls, le)), Some((rs, re))) => Some((choose_start(ls, rs), choose_end(le, re))),
                    (Some(b), None) => Some(b),
                    (None, other) => other,
                }
            },
            Operator::Like => extract_like_prefix_bounds(left, right, col, ty),
            _ => match comparison_bound(left, right, col, ty) {
                Some(b) => compare_range(operator_of_column(left, *op), b, ty),
                None => None,
            },
        },
        _ => None,
    }
}

/// The key range that a predicate implies for a primary key of one column.
pub open spec fn primary_key_range(e: ExprV, s: SchemaV) -> Option<(PlanKeyV, PlanKeyV)> {
    match schema::primary_key_position(s) {
        Some(i) => key_bounds(e, s.columns[i as int].name, s.columns[i as int].data_type),
        None => None,
    }
}

/// The key range that a predicate implies for a primary key of one column.
pub fn extract_key_range(e: &Expr, s: &Schema) -> (out: Option<(PlanKey, PlanKey)>)
    ensures
        opt_range(out) == primary_key_range(e@, s@),
{
    match s.primary_key_index() {
        Some(i) => {
            let col = &s.columns[i];
            extract_bounds_for_column(e, col.name.as_str(), &col.data_type)
        },
        None => None,
    }
}

} // verus!
