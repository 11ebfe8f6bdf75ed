//! What the key ranges of predicates cover: no row that a predicate accepts is outside of the
//! range that it implies.

use crate::bounds;
use crate::eval;
use crate::expr;
use crate::expr::{ExprV, Operator};
use crate::facts::{AnswerV, ErrorV, QuestionV};
use crate::logical::PlanKeyV;
use crate::order;
use crate::physical;
use crate::schema;
use crate::schema::SchemaV;
use crate::value;
use crate::value::{DataType, KeyV, Order, ValueV};
use vstd::prelude::*;

verus! {

// ---------------------------------------------------------------- prefixes

/// Two texts that agree up to a position compare by what comes after it.
proof fn order_after(a: Seq<char>, b: Seq<char>, i: int, k: int)
    requires
        0 <= i <= k <= a.len(),
        k <= b.len(),
        forall|j: int| i <= j < k ==> a[j] == b[j],
    ensures
        value::text_order_from(a, b, i) == value::text_order_from(a, b, k),
    decreases k - i,
{
    if i < k {
        order_after(a, b, i + 1, k);
    }
}

/// A text whose characters are, from a position on, none larger than those of a text at least
/// as long does not come after it.
proof fn smaller_after(a: Seq<char>, b: Seq<char>, i: int)
    requires
        0 <= i,
        a.len() <= b.len(),
        forall|j: int| i <= j < a.len() ==> a[j] as int <= b[j] as int,
    ensures
        value::text_order_from(a, b, i) != Order::Greater,
    decreases a.len() - i,
{
    if i < a.len() {
        smaller_after(a, b, i + 1);
    }
}

/// Nothing lies between a character and the one after it, and none is larger than U+10FFFF.
proof fn scalars_step(c: char, n: char, d: char)
    requires
        bounds::scalar_after(c) == Some(n),
    ensures
        (c as int) < n as int,
        (d as int) < n as int ==> d as int <= c as int,
        0 <= d as int <= 0x10FFFF,
{
    assert(c as int <= 0xD7FF || 0xE000 <= c as int <= 0x10FFFF);
    assert(d as int <= 0xD7FF || 0xE000 <= d as int <= 0x10FFFF);
}

/// Where the text that follows a prefix differs from the prefix.
spec fn stepped_at(prefix: Seq<char>) -> int
    decreases prefix.len(),
{
    if prefix.len() == 0 {
        0
    } else if bounds::scalar_after(prefix.last()) is Some {
        prefix.len() - 1
    } else {
        stepped_at(prefix.drop_last())
    }
}

/// The text that follows a prefix agrees with it up to its last character, which is the one
/// after that of the prefix; what is dropped is U+10FFFF throughout.
proof fn successor_shape(prefix: Seq<char>)
    requires
        bounds::successor(prefix) is Some,
    ensures
        ({
            let n = bounds::successor(prefix)->0;
            let i = stepped_at(prefix);
            &&& 0 <= i < prefix.len()
            &&& n.len() == i + 1
            &&& bounds::scalar_after(prefix[i]) == Some(n[i])
            &&& forall|j: int| 0 <= j < i ==> n[j] == prefix[j]
            &&& forall|j: int| i < j < prefix.len() ==> prefix[j] == '\u{10ffff}'
        }),
    decreases prefix.len(),
{
    if bounds::scalar_after(prefix.last()) is None {
        let shorter = prefix.drop_last();
        successor_shape(shorter);
        let i = stepped_at(shorter);
        assert(stepped_at(prefix) == i);
        assert forall|j: int| i < j < prefix.len() implies prefix[j] == '\u{10ffff}' by {
            if j < shorter.len() {
                assert(shorter[j] == '\u{10ffff}');
            }
        }
        assert(prefix[i] == shorter[i]);
        let n = bounds::successor(prefix)->0;
        assert forall|j: int| 0 <= j < i implies n[j] == prefix[j] by {
            assert(n[j] == shorter[j]);
        }
    }
}

/// A text with a prefix comes neither before the prefix nor after the text that follows it.
pub proof fn prefixed_lies_between(prefix: Seq<char>, s: Seq<char>)
    requires
        prefix.is_prefix_of(s),
    ensures
        value::text_order(prefix, s) != Order::Greater,
        bounds::successor(prefix) matches Some(n) ==> value::text_order(s, n) == Order::Less,
{
    smaller_after(prefix, s, 0);
    if bounds::successor(prefix) is Some {
        successor_shape(prefix);
        let n = bounds::successor(prefix)->0;
        let i = stepped_at(prefix);
        assert forall|j: int| 0 <= j < i implies s[j] == n[j] by {
            assert(s[j] == prefix[j]);
        }
        order_after(s, n, 0, i);
        assert(s[i] == prefix[i]);
        scalars_step(prefix[i], n[i], s[i]);
    }
}

/// The text that follows a prefix is the least one: a text before it does not come after all
/// texts with the prefix.
pub proof fn successor_is_least(prefix: Seq<char>, t: Seq<char>) -> (s: Seq<char>)
    requires
        bounds::successor(prefix) matches Some(n) && value::text_order(t, n) == Order::Less,
    ensures
        prefix.is_prefix_of(s),
        value::text_order(t, s) != Order::Greater,
{
    successor_shape(prefix);
    let n = bounds::successor(prefix)->0;
    let i = stepped_at(prefix);
    let s = prefix + Seq::new(t.len(), |j: int| '\u{10ffff}');
    assert(s.take(prefix.len() as int) =~= prefix);
    below_padded(t, s, n, i, 0);
    s
}

/// A text before the one that follows a prefix does not come after the prefix with enough
/// characters U+10FFFF behind it.
proof fn below_padded(t: Seq<char>, s: Seq<char>, n: Seq<char>, i: int, k: int)
    requires
        0 <= k <= i < n.len(),
        n.len() == i + 1,
        s.len() > i,
        s.len() >= t.len(),
        forall|j: int| 0 <= j < i ==> n[j] == s[j],
        bounds::scalar_after(s[i]) == Some(n[i]),
        forall|j: int| i < j < s.len() ==> s[j] == '\u{10ffff}',
        value::text_order_from(t, n, k) == Order::Less,
    ensures
        value::text_order_from(t, s, k) != Order::Greater,
    decreases i - k,
{
    if k < t.len() {
        if k < i {
            if t[k] == n[k] {
                below_padded(t, s, n, i, k + 1);
            }
        } else if t[i] == n[i] {
            assert(value::text_order_from(t, n, i + 1) != Order::Less);
        } else {
            assert forall|j: int| i <= j < t.len() implies t[j] as int <= s[j] as int by {
                scalars_step(s[i], n[i], t[j]);
            }
            smaller_after(t, s, i);
        }
    }
}

/// A text that a LIKE pattern accepts begins with what comes before its first wildcard.
pub proof fn liked_begins_with_prefix(s: Seq<char>, pattern: Seq<char>)
    requires
        eval::like(s, pattern),
    ensures
        bounds::literal_prefix(pattern).is_prefix_of(s),
{
    assert(pattern.skip(0) =~= pattern);
    assert(s.skip(0) =~= s);
    literal_part(s, pattern, 0);
    literal_len_bounds(pattern, 0);
    let n = bounds::literal_len(pattern, 0);
    assert(s.take(n) =~= pattern.take(n));
}

proof fn literal_len_bounds(pattern: Seq<char>, i: int)
    requires
        0 <= i <= pattern.len(),
    ensures
        i <= bounds::literal_len(pattern, i) <= pattern.len(),
    decreases pattern.len() - i,
{
    if i < pattern.len() && pattern[i] != '%' && pattern[i] != '_' {
        literal_len_bounds(pattern, i + 1);
    }
}

proof fn literal_part(s: Seq<char>, pattern: Seq<char>, i: int)
    requires
        0 <= i <= pattern.len(),
        i <= s.len(),
        eval::like(s.skip(i), pattern.skip(i)),
    ensures
        bounds::literal_len(pattern, i) <= s.len(),
        forall|j: int| i <= j < bounds::literal_len(pattern, i) ==> s[j] == pattern[j],
    decreases pattern.len() - i,
{
    if i < pattern.len() && pattern[i] != '%' && pattern[i] != '_' {
        assert(pattern.skip(i)[0] == pattern[i]);
        assert(s.skip(i)[0] == s[i]);
        assert(s.skip(i).skip(1) =~= s.skip(i + 1));
        assert(pattern.skip(i).skip(1) =~= pattern.skip(i + 1));
        literal_part(s, pattern, i + 1);
    }
}

// ---------------------------------------------------------------- predicates

/// Whether an expression accepts a row: its value is a true one.
#[verifier::opaque]
pub open spec fn accepts(e: ExprV, row: Seq<ValueV>, s: SchemaV, known: Seq<(QuestionV, AnswerV)>) -> bool {
    eval::evaluated(e, row, s, known) matches Ok(x) && eval::truth(x) == Ok::<bool, ErrorV>(true)
}

/// Whether a value is one of a column type whose values can be keys.
pub open spec fn is_of_type(v: ValueV, ty: DataType) -> bool {
    match v {
        ValueV::Int(_) => ty is Int,
        ValueV::String(_) => ty is String,
        ValueV::Date(_) => ty is Date,
        ValueV::Time(_) => ty is Time,
        ValueV::Timestamp(_) => ty is Timestamp,
        ValueV::Decimal(_) => ty is Decimal,
        _ => false,
    }
}

/// Whether the column of a comparison has the value `v` on the row.
pub open spec fn sides_fit(
    left: ExprV,
    right: ExprV,
    col: Seq<char>,
    v: ValueV,
    row: Seq<ValueV>,
    s: SchemaV,
    known: Seq<(QuestionV, AnswerV)>,
) -> bool {
    bounds::column_comparison(left, right, col) is Some ==> eval::evaluated(
        if left is Column {
            left
        } else {
            right
        },
        row,
        s,
        known,
    ) == Ok::<ValueV, ErrorV>(v)
}

/// Whether the sides of a LIKE fit a column with the value `v`: the column has this value on the
/// row, and the pattern is matched as LIKE patterns are.
pub open spec fn pattern_fits(
    left: ExprV,
    right: ExprV,
    col: Seq<char>,
    ty: DataType,
    v: ValueV,
    row: Seq<ValueV>,
    s: SchemaV,
    known: Seq<(QuestionV, AnswerV)>,
) -> bool {
    match bounds::like_range(left, right, col, ty) {
        None => true,
        Some(_) => {
            &&& eval::evaluated(left, row, s, known) == Ok::<ValueV, ErrorV>(v)
            &&& (v matches ValueV::String(t) ==> right matches ExprV::Literal(ValueV::String(p)) ==> eval::like_outcome(
                t,
                p,
            ) ==> eval::like(t, p))
        },
    }
}

/// Whether the column of the comparisons of a predicate that imply a range has the value `v` on
/// the row, and its patterns are matched as LIKE patterns are.
pub open spec fn fits(
    e: ExprV,
    col: Seq<char>,
    ty: DataType,
    v: ValueV,
    row: Seq<ValueV>,
    s: SchemaV,
    known: Seq<(QuestionV, AnswerV)>,
) -> bool
    decreases e,
{
    match e {
        ExprV::BinaryOp { left, op, right } => match op {
            Operator::And => fits(*left, col, ty, v, row, s, known) && fits(*right, col, ty, v, row, s, known),
            Operator::Like => pattern_fits(*left, *right, col, ty, v, row, s, known),
            Operator::Eq | Operator::Gt | Operator::GtEq | Operator::Lt | Operator::LtEq => sides_fit(
                *left,
                *right,
                col,
                v,
                row,
                s,
                known,
            ),
            _ => true,
        },
        _ => true,
    }
}

/// Keys of one kind compare as their values do.
proof fn keys_compare_as_values(a: ValueV, b: ValueV, known: Seq<(QuestionV, AnswerV)>)
    requires
        bounds::key_of(a) matches Some(x) && bounds::key_of(b) matches Some(y) && value::key_rank(x)
            == value::key_rank(y),
    ensures
        eval::comparison(a, b, known) == Ok::<Order, ErrorV>(value::key_order(bounds::key_of(a)->0, bounds::key_of(b)->0)),
        value::key_order(bounds::key_of(b)->0, bounds::key_of(a)->0) == value::reversed(
            value::key_order(bounds::key_of(a)->0, bounds::key_of(b)->0),
        ),
{
    order::total_order_reverses(a, b);
}

/// A value of a column type that compares with a value whose key can bound that type is of the
/// same kind.
proof fn comparable_keys_are_of_one_kind(a: ValueV, b: ValueV, ty: DataType, known: Seq<(QuestionV, AnswerV)>)
    requires
        is_of_type(a, ty),
        bounds::key_of(b) matches Some(y) && bounds::key_fits(y, ty),
        eval::comparison(a, b, known) is Ok || eval::comparison(b, a, known) is Ok,
    ensures
        value::key_rank(bounds::key_of(a)->0) == value::key_rank(bounds::key_of(b)->0),
{
}

/// The key of a bound, once the parameters are bound, stands to the key of a row that the
/// comparison accepts as the comparison says.
proof fn bound_holds(
    left: ExprV,
    op: Operator,
    right: ExprV,
    col: Seq<char>,
    ty: DataType,
    v: ValueV,
    row: Seq<ValueV>,
    s: SchemaV,
    ps: Map<Seq<char>, ValueV>,
    known: Seq<(QuestionV, AnswerV)>,
    q: ExprV,
)
    requires
        bounds::column_comparison(left, right, col) is Some,
        op == Operator::Eq || op == Operator::Gt || op == Operator::GtEq || op == Operator::Lt || op == Operator::LtEq,
        sides_fit(left, right, col, v, row, s, known),
        expr::substituted(
            (ExprV::BinaryOp { left: Box::new(left), op, right: Box::new(right) }),
            ps,
        ) == Ok::<ExprV, ErrorV>(q),
        accepts(q, row, s, known),
        is_of_type(v, ty),
    ensures
        ({
            let b = bounds::column_comparison(left, right, col)->0;
            physical::resolved_key(b, ps) matches Ok(k) ==> bounds::key_fits(k, ty) ==> {
                &&& value::key_rank(k) == value::key_rank(bounds::key_of(v)->0)
                &&& eval::holds(bounds::column_first(left, op), value::key_order(bounds::key_of(v)->0, k))
                &&& value::key_order(k, bounds::key_of(v)->0) == value::reversed(
                    value::key_order(bounds::key_of(v)->0, k),
                )
            }
        }),
{
    let b = bounds::column_comparison(left, right, col)->0;
    let other = if left is Column {
        right
    } else {
        left
    };
    let w = match other {
        ExprV::Literal(x) => x,
        ExprV::Parameter(p) => ps[p],
        _ => v,
    };
    if physical::resolved_key(b, ps) matches Ok(k) && bounds::key_fits(k, ty) {
        let l = expr::substituted(left, ps)->Ok_0;
        let r = expr::substituted(right, ps)->Ok_0;
        assert(expr::substituted(left, ps) is Ok && expr::substituted(right, ps) is Ok);
        assert(q == (ExprV::BinaryOp { left: Box::new(l), op, right: Box::new(r) }));
        assert(bounds::key_of(w) == Some(physical::resolved_key(b, ps)->Ok_0));
        if left is Column {
            assert(l == left);
            assert(r == ExprV::Literal(w));
            operation_holds(l, op, r, v, w, row, s, known);
            comparable_keys_are_of_one_kind(v, w, ty, known);
            keys_compare_as_values(v, w, known);
        } else {
            assert(r == right);
            assert(l == ExprV::Literal(w));
            operation_holds(l, op, r, w, v, row, s, known);
            comparable_keys_are_of_one_kind(v, w, ty, known);
            keys_compare_as_values(w, v, known);
        }
    }
}

/// A comparison that accepts a row holds of its two values.
proof fn operation_holds(
    left: ExprV,
    op: Operator,
    right: ExprV,
    a: ValueV,
    b: ValueV,
    row: Seq<ValueV>,
    s: SchemaV,
    known: Seq<(QuestionV, AnswerV)>,
)
    requires
        op == Operator::Eq || op == Operator::Gt || op == Operator::GtEq || op == Operator::Lt || op == Operator::LtEq,
        accepts((ExprV::BinaryOp { left: Box::new(left), op, right: Box::new(right) }), row, s, known),
        eval::evaluated(left, row, s, known) == Ok::<ValueV, ErrorV>(a),
        eval::evaluated(right, row, s, known) == Ok::<ValueV, ErrorV>(b),
    ensures
        eval::comparison(a, b, known) matches Ok(o) && eval::holds(op, o),
{
    reveal(accepts);
}

/// A text after another does not come before that one with a NUL character behind it.
proof fn nul_is_next(a: Seq<char>, b: Seq<char>, i: int)
    requires
        0 <= i <= a.len(),
        value::text_order_from(b, a, i) == Order::Greater,
    ensures
        value::text_order_from(a.push('\0'), b, i) != Order::Greater,
    decreases a.len() - i,
{
    let t = a.push('\0');
    if i < a.len() {
        assert(t[i] == a[i]);
        if i < b.len() && a[i] == b[i] {
            nul_is_next(a, b, i + 1);
        }
    } else if i < b.len() {
        assert(t[i] == '\0');
        assert(t.len() == i + 1);
        assert(value::text_order_from(t, b, i + 1) != Order::Greater);
        nul_is_least(b[i]);
    }
}

/// No character comes before NUL.
proof fn nul_is_least(c: char)
    ensures
        '\0' as int <= c as int,
{
}

/// Whether the start of a range, once the parameters are bound, leaves no key out that is not
/// before `k`.
spec fn starts_before(b: PlanKeyV, ps: Map<Seq<char>, ValueV>, ty: DataType, k: KeyV) -> bool {
    physical::resolved_key(b, ps) matches Ok(start) ==> {
        ||| !bounds::key_fits(start, ty)
        ||| bounds::unbounded_min(start)
        ||| value::key_order(start, k) != Order::Greater
    }
}

/// Whether the end of a range, once the parameters are bound, leaves no key out that is not
/// after `k`.
spec fn ends_after(b: PlanKeyV, ps: Map<Seq<char>, ValueV>, ty: DataType, k: KeyV) -> bool {
    physical::resolved_key(b, ps) matches Ok(end) ==> {
        ||| !bounds::key_fits(end, ty)
        ||| bounds::unbounded_max(end)
        ||| value::key_order(k, end) != Order::Greater
    }
}

/// The keys that stand for no bound bound nothing.
proof fn types_are_unbounded(ty: DataType)
    ensures
        bounds::unbounded_min(bounds::type_min(ty)),
        bounds::unbounded_max(bounds::type_max(ty)),
{
}

/// The range that a comparison implies covers the key of a row that it accepts.
proof fn comparison_covers(
    left: ExprV,
    op: Operator,
    right: ExprV,
    col: Seq<char>,
    ty: DataType,
    v: ValueV,
    row: Seq<ValueV>,
    s: SchemaV,
    ps: Map<Seq<char>, ValueV>,
    known: Seq<(QuestionV, AnswerV)>,
    q: ExprV,
)
    requires
        op == Operator::Eq || op == Operator::Gt || op == Operator::GtEq || op == Operator::Lt || op == Operator::LtEq,
        sides_fit(left, right, col, v, row, s, known),
        expr::substituted(
            (ExprV::BinaryOp { left: Box::new(left), op, right: Box::new(right) }),
            ps,
        ) == Ok::<ExprV, ErrorV>(q),
        accepts(q, row, s, known),
        is_of_type(v, ty),
    ensures
        bounds::key_bounds((ExprV::BinaryOp { left: Box::new(left), op, right: Box::new(right) }), col, ty) matches Some(
            r,
        ) ==> starts_before(r.0, ps, ty, bounds::key_of(v)->0) && ends_after(r.1, ps, ty, bounds::key_of(v)->0),
{
    reveal_with_fuel(bounds::key_bounds, 2);
    types_are_unbounded(ty);
    if bounds::usable_bound(left, right, col, ty) is Some {
        let b = bounds::column_comparison(left, right, col)->0;
        bound_holds(left, op, right, col, ty, v, row, s, ps, known, q);
        let k = bounds::key_of(v)->0;
        if bounds::column_first(left, op) == Operator::Gt {
            if let PlanKeyV::Value(KeyV::String(a)) = b {
                if let KeyV::String(t) = k {
                    nul_is_next(a, t, 0);
                }
            }
        }
    }
}

/// The range that a LIKE implies covers the key of a row that it accepts.
proof fn pattern_covers(
    left: ExprV,
    right: ExprV,
    col: Seq<char>,
    ty: DataType,
    v: ValueV,
    row: Seq<ValueV>,
    s: SchemaV,
    ps: Map<Seq<char>, ValueV>,
    known: Seq<(QuestionV, AnswerV)>,
    q: ExprV,
)
    requires
        pattern_fits(left, right, col, ty, v, row, s, known),
        expr::substituted(
            (ExprV::BinaryOp { left: Box::new(left), op: Operator::Like, right: Box::new(right) }),
            ps,
        ) == Ok::<ExprV, ErrorV>(q),
        accepts(q, row, s, known),
        is_of_type(v, ty),
    ensures
        bounds::like_range(left, right, col, ty) matches Some(r) ==> starts_before(r.0, ps, ty, bounds::key_of(v)->0)
            && ends_after(r.1, ps, ty, bounds::key_of(v)->0),
{
    reveal(accepts);
    reveal_with_fuel(expr::substituted, 2);
    reveal_with_fuel(eval::evaluated, 2);
    if bounds::like_range(left, right, col, ty) is Some {
        let p = right->Literal_0->String_0;
        let t = v->String_0;
        liked_begins_with_prefix(t, p);
        prefixed_lies_between(bounds::literal_prefix(p), t);
    }
}

/// The ends of the range that a predicate implies leave out no key of a row that it accepts.
proof fn ends_cover(
    e: ExprV,
    col: Seq<char>,
    ty: DataType,
    v: ValueV,
    row: Seq<ValueV>,
    s: SchemaV,
    ps: Map<Seq<char>, ValueV>,
    known: Seq<(QuestionV, AnswerV)>,
    q: ExprV,
)
    requires
        is_of_type(v, ty),
        fits(e, col, ty, v, row, s, known),
        expr::substituted(e, ps) == Ok::<ExprV, ErrorV>(q),
        accepts(q, row, s, known),
    ensures
        bounds::key_bounds(e, col, ty) matches Some(r) ==> starts_before(r.0, ps, ty, bounds::key_of(v)->0)
            && ends_after(r.1, ps, ty, bounds::key_of(v)->0),
    decreases e,
{
    if let ExprV::BinaryOp { left, op, right } = e {
        match op {
            Operator::And => {
                let l = expr::substituted(*left, ps)->Ok_0;
                let r = expr::substituted(*right, ps)->Ok_0;
                assert(q == (ExprV::BinaryOp { left: Box::new(l), op, right: Box::new(r) }));
                reveal(accepts);
                ends_cover(*left, col, ty, v, row, s, ps, known, l);
                ends_cover(*right, col, ty, v, row, s, ps, known, r);
            },
            Operator::Like => {
                pattern_covers(*left, *right, col, ty, v, row, s, ps, known, q);
            },
            Operator::Eq | Operator::Gt | Operator::GtEq | Operator::Lt | Operator::LtEq => {
                comparison_covers(*left, op, *right, col, ty, v, row, s, ps, known, q);
            },
            _ => {},
        }
    }
}

/// The range that a predicate implies for a column covers the key of every row that the
/// predicate accepts, whichever side the column stands on, so that a scan of the range misses
/// none of them.
pub proof fn range_covers_accepted_rows(
    e: ExprV,
    col: Seq<char>,
    ty: DataType,
    v: ValueV,
    row: Seq<ValueV>,
    s: SchemaV,
    ps: Map<Seq<char>, ValueV>,
    known: Seq<(QuestionV, AnswerV)>,
    q: ExprV,
)
    requires
        is_of_type(v, ty),
        fits(e, col, ty, v, row, s, known),
        expr::substituted(e, ps) == Ok::<ExprV, ErrorV>(q),
        accepts(q, row, s, known),
    ensures
        bounds::key_bounds(e, col, ty) matches Some(r) ==> physical::scan_range(r, ps, Some(ty)) matches Ok(k)
            ==> physical::reads(physical::lower(k.0), physical::upper(k.1), bounds::key_of(v)->0),
{
    types_are_unbounded(ty);
    ends_cover(e, col, ty, v, row, s, ps, known, q);
}

/// A scan of a table or an index without a range reads every key.
pub proof fn whole_scans_read_every_key(s: SchemaV, index_name: Seq<char>, k: KeyV)
    ensures
        physical::primary_range(s) matches Ok(r) ==> physical::reads(physical::lower(r.0), physical::upper(r.1), k),
        physical::index_range(s, index_name) matches Ok(r) ==> physical::reads(
            physical::lower(r.0),
            physical::upper(r.1),
            k,
        ),
{
    let positions = schema::key_columns(s.columns);
    if positions.len() > 0 {
        types_are_unbounded(s.columns[positions[0] as int].data_type);
        let least = physical::least_keys(s, positions);
        let greatest = physical::greatest_keys(s, positions);
        assert(bounds::unbounded_min(least[0]) && bounds::unbounded_max(greatest[0]));
        assert(bounds::unbounded_min(KeyV::Composite(least)));
        assert(bounds::unbounded_max(KeyV::Composite(greatest)));
    }
    if let Some(index) = physical::index_from(s.indexes, index_name, 0) {
        if index.columns.len() > 0 {
            if let Some(i) = schema::column_position(s.columns, index.columns[0]) {
                types_are_unbounded(s.columns[i].data_type);
            }
        }
    }
}

} // verus!
