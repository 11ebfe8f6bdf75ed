//! What the expressions of a statement are worth, as they are written: each node by what the nodes
//! are worth that it is made of.

use crate::binding;
use crate::expr::{ExprV, Operator};
use crate::expr_laws;
use crate::facts::{AnswerV, ErrorV, QuestionV};
use crate::scalar;
use crate::schema::SchemaV;
use crate::syntax::{SqlBinaryOperatorV, SqlNodeV, SqlUnaryOperatorV, SqlValueV};
use crate::text;
use crate::value::ValueV;
use vstd::prelude::*;

verus! {

/// Whether the node at a position is planned, and its plan is worth a value on a row.
pub open spec fn means(
    nodes: Seq<SqlNodeV>,
    at: int,
    v: ValueV,
    row: Seq<ValueV>,
    s: SchemaV,
    known: Seq<(QuestionV, AnswerV)>,
) -> bool {
    scalar::planned(nodes, at, known) matches Ok(e) && expr_laws::is_worth(e, v, row, s, known)
}

/// What the node at a position is worth on a row.
pub open spec fn worth(
    nodes: Seq<SqlNodeV>,
    at: int,
    row: Seq<ValueV>,
    s: SchemaV,
    known: Seq<(QuestionV, AnswerV)>,
) -> Result<ValueV, ErrorV> {
    match scalar::planned(nodes, at, known) {
        Ok(e) => expr_laws::valued(e, row, s, known),
        Err(x) => Err(x),
    }
}

/// The comparisons of two integers are those of the numbers: `=`, `<>`, `<`, `<=`, `>` and `>=`.
pub proof fn written_comparisons_compare(
    nodes: Seq<SqlNodeV>,
    at: int,
    a: i64,
    b: i64,
    row: Seq<ValueV>,
    s: SchemaV,
    known: Seq<(QuestionV, AnswerV)>,
)
    requires
        0 <= at < nodes.len(),
        nodes[at] is BinaryOp,
        nodes[at]->BinaryOp_left < at,
        nodes[at]->BinaryOp_right < at,
        means(nodes, nodes[at]->BinaryOp_left as int, ValueV::Int(a), row, s, known),
        means(nodes, nodes[at]->BinaryOp_right as int, ValueV::Int(b), row, s, known),
    ensures
        match nodes[at]->BinaryOp_op {
            SqlBinaryOperatorV::Eq => means(nodes, at, ValueV::Bool(a == b), row, s, known),
            SqlBinaryOperatorV::NotEq => means(nodes, at, ValueV::Bool(a != b), row, s, known),
            SqlBinaryOperatorV::Lt => means(nodes, at, ValueV::Bool(a < b), row, s, known),
            SqlBinaryOperatorV::LtEq => means(nodes, at, ValueV::Bool(a <= b), row, s, known),
            SqlBinaryOperatorV::Gt => means(nodes, at, ValueV::Bool(a > b), row, s, known),
            SqlBinaryOperatorV::GtEq => means(nodes, at, ValueV::Bool(a >= b), row, s, known),
            _ => true,
        },
{
    let l = scalar::planned(nodes, nodes[at]->BinaryOp_left as int, known)->Ok_0;
    let r = scalar::planned(nodes, nodes[at]->BinaryOp_right as int, known)->Ok_0;
    expr_laws::integers_compare_as_numbers(l, r, a, b, row, s, known);
}

/// `+`, `-` and `*` of two integers are the sum, the difference and the product, where these are in
/// range; `/` leaves a rest that is smaller than the divisor.
pub proof fn written_arithmetic_is_exact(
    nodes: Seq<SqlNodeV>,
    at: int,
    a: i64,
    b: i64,
    row: Seq<ValueV>,
    s: SchemaV,
    known: Seq<(QuestionV, AnswerV)>,
)
    requires
        0 <= at < nodes.len(),
        nodes[at] is BinaryOp,
        nodes[at]->BinaryOp_left < at,
        nodes[at]->BinaryOp_right < at,
        means(nodes, nodes[at]->BinaryOp_left as int, ValueV::Int(a), row, s, known),
        means(nodes, nodes[at]->BinaryOp_right as int, ValueV::Int(b), row, s, known),
    ensures
        match nodes[at]->BinaryOp_op {
            SqlBinaryOperatorV::Plus => i64::MIN <= a + b <= i64::MAX ==> means(
                nodes,
                at,
                ValueV::Int((a + b) as i64),
                row,
                s,
                known,
            ),
            SqlBinaryOperatorV::Minus => i64::MIN <= a - b <= i64::MAX ==> means(
                nodes,
                at,
                ValueV::Int((a - b) as i64),
                row,
                s,
                known,
            ),
            SqlBinaryOperatorV::Multiply => i64::MIN <= a * b <= i64::MAX ==> means(
                nodes,
                at,
                ValueV::Int((a * b) as i64),
                row,
                s,
                known,
            ),
            SqlBinaryOperatorV::Divide => b != 0 && !(a == i64::MIN && b == -1) ==> (match worth(
                nodes,
                at,
                row,
                s,
                known,
            ) {
                Ok(ValueV::Int(q)) => -expr_laws::magnitude(b as int) < a - q * b < expr_laws::magnitude(b as int) && (a - q
                    * b == 0 || (a - q * b < 0) == (a < 0)),
                _ => false,
            }),
            _ => true,
        },
{
    let l = scalar::planned(nodes, nodes[at]->BinaryOp_left as int, known)->Ok_0;
    let r = scalar::planned(nodes, nodes[at]->BinaryOp_right as int, known)->Ok_0;
    expr_laws::integer_arithmetic_is_exact(l, r, a, b, row, s, known);
    expr_laws::integer_quotient_leaves_a_small_rest(l, r, a, b, row, s, known);
}

/// AND of two truth values is true where both are, and OR where one is.
pub proof fn written_connectives_connect(
    nodes: Seq<SqlNodeV>,
    at: int,
    a: bool,
    b: bool,
    row: Seq<ValueV>,
    s: SchemaV,
    known: Seq<(QuestionV, AnswerV)>,
)
    requires
        0 <= at < nodes.len(),
        nodes[at] is BinaryOp,
        nodes[at]->BinaryOp_left < at,
        nodes[at]->BinaryOp_right < at,
        means(nodes, nodes[at]->BinaryOp_left as int, ValueV::Bool(a), row, s, known),
        means(nodes, nodes[at]->BinaryOp_right as int, ValueV::Bool(b), row, s, known),
    ensures
        match nodes[at]->BinaryOp_op {
            SqlBinaryOperatorV::And => means(nodes, at, ValueV::Bool(a && b), row, s, known),
            SqlBinaryOperatorV::Or => means(nodes, at, ValueV::Bool(a || b), row, s, known),
            _ => true,
        },
{
    let l = scalar::planned(nodes, nodes[at]->BinaryOp_left as int, known)->Ok_0;
    let r = scalar::planned(nodes, nodes[at]->BinaryOp_right as int, known)->Ok_0;
    expr_laws::connectives_go_by_rank(l, r, ValueV::Bool(a), ValueV::Bool(b), row, s, known);
}

/// BETWEEN takes in both of its bounds, and NOT BETWEEN is its contrary.
pub proof fn between_takes_in_its_bounds(
    nodes: Seq<SqlNodeV>,
    at: int,
    a: i64,
    low: i64,
    high: i64,
    row: Seq<ValueV>,
    s: SchemaV,
    known: Seq<(QuestionV, AnswerV)>,
)
    requires
        0 <= at < nodes.len(),
        nodes[at] is Between,
        nodes[at]->Between_expr < at,
        nodes[at]->Between_low < at,
        nodes[at]->Between_high < at,
        means(nodes, nodes[at]->Between_expr as int, ValueV::Int(a), row, s, known),
        means(nodes, nodes[at]->Between_low as int, ValueV::Int(low), row, s, known),
        means(nodes, nodes[at]->Between_high as int, ValueV::Int(high), row, s, known),
    ensures
        means(nodes, at, ValueV::Bool((low <= a && a <= high) != nodes[at]->Between_negated), row, s, known),
{
    let x = scalar::planned(nodes, nodes[at]->Between_expr as int, known)->Ok_0;
    let l = scalar::planned(nodes, nodes[at]->Between_low as int, known)->Ok_0;
    let h = scalar::planned(nodes, nodes[at]->Between_high as int, known)->Ok_0;
    let from = ExprV::BinaryOp { left: Box::new(x), op: Operator::GtEq, right: Box::new(l) };
    let to = ExprV::BinaryOp { left: Box::new(x), op: Operator::LtEq, right: Box::new(h) };
    let both = ExprV::BinaryOp { left: Box::new(from), op: Operator::And, right: Box::new(to) };
    expr_laws::integers_compare_as_numbers(x, l, a, low, row, s, known);
    expr_laws::integers_compare_as_numbers(x, h, a, high, row, s, known);
    expr_laws::connectives_go_by_rank(from, to, ValueV::Bool(a >= low), ValueV::Bool(a <= high), row, s, known);
    expr_laws::connectives_go_by_rank(
        both,
        both,
        ValueV::Bool(low <= a && a <= high),
        ValueV::Bool(low <= a && a <= high),
        row,
        s,
        known,
    );
}

/// Whether a node is a LIKE, a BETWEEN or an IN, and another one is the same with a NOT.
pub open spec fn is_contrary(node: SqlNodeV, other: SqlNodeV) -> bool {
    match (node, other) {
        (SqlNodeV::Like { negated, expr, pattern }, SqlNodeV::Like { negated: n, expr: e, pattern: p }) => !negated && n
            && e == expr && p == pattern,
        (
            SqlNodeV::Between { expr, negated, low, high },
            SqlNodeV::Between { expr: e, negated: n, low: l, high: h },
        ) => !negated && n && e == expr && l == low && h == high,
        (SqlNodeV::InList { expr, list, negated }, SqlNodeV::InList { expr: e, list: l, negated: n }) => !negated && n
            && e == expr && l == list,
        _ => false,
    }
}

/// Whether the operands of a test stand before a position.
pub open spec fn stands_after_operands(node: SqlNodeV, at: int) -> bool {
    match node {
        SqlNodeV::Like { expr, pattern, .. } => expr < at && pattern < at,
        SqlNodeV::Between { expr, low, high, .. } => expr < at && low < at && high < at,
        SqlNodeV::InList { expr, list, .. } => expr < at && forall|k: int| 0 <= k < list.len() ==> (#[trigger] list[k]) < at,
        _ => false,
    }
}

proof fn operands_are_planned(nodes: Seq<SqlNodeV>, ids: Seq<usize>, at: int, known: Seq<(QuestionV, AnswerV)>)
    requires
        forall|k: int| 0 <= k < ids.len() ==> (#[trigger] ids[k]) < at,
    ensures
        scalar::operands(nodes, ids, at, known).len() == ids.len(),
        forall|k: int|
            0 <= k < ids.len() ==> (#[trigger] scalar::operands(nodes, ids, at, known)[k]) == scalar::planned(
                nodes,
                ids[k] as int,
                known,
            ),
{
    assert forall|k: int| 0 <= k < ids.len() implies (#[trigger] scalar::operands(nodes, ids, at, known)[k])
        == scalar::planned(nodes, ids[k] as int, known) by {
        assert(ids[k] < at);
        assert(scalar::operands(nodes, ids, at, known)[k] == scalar::operand(nodes, ids[k] as int, at, known));
    }
}

/// NOT LIKE, NOT BETWEEN and NOT IN are the contrary of LIKE, BETWEEN and IN: true where these are
/// false, false where these are true, and NULL where these are NULL.
pub proof fn negated_tests_are_contrary(
    nodes: Seq<SqlNodeV>,
    at: int,
    to: int,
    v: ValueV,
    row: Seq<ValueV>,
    s: SchemaV,
    known: Seq<(QuestionV, AnswerV)>,
)
    requires
        0 <= at < nodes.len(),
        0 <= to < nodes.len(),
        is_contrary(nodes[at], nodes[to]),
        stands_after_operands(nodes[at], at),
        stands_after_operands(nodes[to], to),
        expr_laws::is_truth(v),
        means(nodes, at, v, row, s, known),
    ensures
        match worth(nodes, to, row, s, known) {
            Ok(w) => expr_laws::is_truth(w) && expr_laws::rank(w) == 2 - expr_laws::rank(v),
            Err(_) => false,
        },
{
    let e = scalar::planned(nodes, at, known)->Ok_0;
    expr_laws::connectives_go_by_rank(e, e, v, v, row, s, known);
    match nodes[at] {
        SqlNodeV::InList { expr, list, .. } => {
            operands_are_planned(nodes, list, at, known);
            operands_are_planned(nodes, list, to, known);
            assert(scalar::operands(nodes, list, at, known) =~= scalar::operands(nodes, list, to, known));
            assert(scalar::operand(nodes, expr as int, at, known) == scalar::operand(nodes, expr as int, to, known));
        },
        SqlNodeV::Like { expr, pattern, .. } => {
            assert(scalar::operand(nodes, expr as int, at, known) == scalar::operand(nodes, expr as int, to, known));
            assert(scalar::operand(nodes, pattern as int, at, known) == scalar::operand(nodes, pattern as int, to, known));
        },
        SqlNodeV::Between { expr, low, high, .. } => {
            assert(scalar::operand(nodes, expr as int, at, known) == scalar::operand(nodes, expr as int, to, known));
            assert(scalar::operand(nodes, low as int, at, known) == scalar::operand(nodes, low as int, to, known));
            assert(scalar::operand(nodes, high as int, at, known) == scalar::operand(nodes, high as int, to, known));
        },
        _ => {},
    }
    assert(scalar::planned(nodes, to, known) == Ok::<ExprV, ErrorV>(ExprV::Not(Box::new(e))));
}

/// A minus before an integer changes its sign, a plus leaves it, and NOT is the contrary of a truth
/// value.
pub proof fn written_signs_change_the_sign(
    nodes: Seq<SqlNodeV>,
    at: int,
    v: ValueV,
    row: Seq<ValueV>,
    s: SchemaV,
    known: Seq<(QuestionV, AnswerV)>,
)
    requires
        0 <= at < nodes.len(),
        nodes[at] is UnaryOp,
        nodes[at]->UnaryOp_expr < at,
        means(nodes, nodes[at]->UnaryOp_expr as int, v, row, s, known),
    ensures
        match (nodes[at]->UnaryOp_op, v) {
            (SqlUnaryOperatorV::Minus, ValueV::Int(i)) => i != i64::MIN ==> means(
                nodes,
                at,
                ValueV::Int((-i) as i64),
                row,
                s,
                known,
            ),
            (SqlUnaryOperatorV::Plus, _) => means(nodes, at, v, row, s, known),
            (SqlUnaryOperatorV::Not, ValueV::Bool(b)) => means(nodes, at, ValueV::Bool(!b), row, s, known),
            _ => true,
        },
{
    let x = scalar::planned(nodes, nodes[at]->UnaryOp_expr as int, known)->Ok_0;
    let zero = ExprV::Literal(ValueV::Int(0));
    reveal(expr_laws::valued);
    assert(expr_laws::is_worth(zero, ValueV::Int(0), row, s, known));
    match (nodes[at]->UnaryOp_op, v) {
        (SqlUnaryOperatorV::Minus, ValueV::Int(i)) => {
            expr_laws::integer_arithmetic_is_exact(zero, x, 0, i, row, s, known);
        },
        (SqlUnaryOperatorV::Not, ValueV::Bool(b)) => {
            expr_laws::connectives_go_by_rank(x, x, v, v, row, s, known);
        },
        _ => {},
    }
}

/// IS NULL tells NULL from the other values, and IS NOT NULL is its contrary; brackets change
/// nothing.
pub proof fn written_null_tests_tell_null(
    nodes: Seq<SqlNodeV>,
    at: int,
    v: ValueV,
    row: Seq<ValueV>,
    s: SchemaV,
    known: Seq<(QuestionV, AnswerV)>,
)
    requires
        0 <= at < nodes.len(),
        match nodes[at] {
            SqlNodeV::IsNull(i) => i < at && means(nodes, i as int, v, row, s, known),
            SqlNodeV::IsNotNull(i) => i < at && means(nodes, i as int, v, row, s, known),
            SqlNodeV::Nested(i) => i < at && means(nodes, i as int, v, row, s, known),
            _ => false,
        },
    ensures
        match nodes[at] {
            SqlNodeV::IsNull(_) => means(nodes, at, ValueV::Bool(v is Null), row, s, known),
            SqlNodeV::IsNotNull(_) => means(nodes, at, ValueV::Bool(v !is Null), row, s, known),
            _ => means(nodes, at, v, row, s, known),
        },
{
    let i = match nodes[at] {
        SqlNodeV::IsNull(i) => i,
        SqlNodeV::IsNotNull(i) => i,
        SqlNodeV::Nested(i) => i,
        _ => 0,
    };
    let x = scalar::planned(nodes, i as int, known)->Ok_0;
    expr_laws::is_null_tells_null(x, v, row, s, known);
    let t = ExprV::IsNull(Box::new(x));
    expr_laws::connectives_go_by_rank(t, t, ValueV::Bool(v is Null), ValueV::Bool(v is Null), row, s, known);
}

/// Literals are worth what they say: a text in single quotes that text, TRUE and FALSE the truth
/// values, NULL nothing, and digits the number that they stand for.
pub proof fn written_literals_are_worth_what_they_say(
    nodes: Seq<SqlNodeV>,
    at: int,
    row: Seq<ValueV>,
    s: SchemaV,
    known: Seq<(QuestionV, AnswerV)>,
)
    requires
        0 <= at < nodes.len(),
    ensures
        match nodes[at] {
            SqlNodeV::Value(SqlValueV::SingleQuotedString(t)) => means(nodes, at, ValueV::String(t), row, s, known),
            SqlNodeV::Value(SqlValueV::Boolean(b)) => means(nodes, at, ValueV::Bool(b), row, s, known),
            SqlNodeV::Value(SqlValueV::Null) => means(nodes, at, ValueV::Null, row, s, known),
            SqlNodeV::Value(SqlValueV::Number(t)) => text::int_value(t) matches Some(i) ==> i64::MIN <= i <= i64::MAX
                ==> means(nodes, at, ValueV::Int(i as i64), row, s, known),
            SqlNodeV::Identifier { value, quote } => quote == Some('"') ==> means(
                nodes,
                at,
                ValueV::String(value),
                row,
                s,
                known,
            ),
            _ => true,
        },
{
    reveal(expr_laws::valued);
}

/// IN is true where one of the values of its list is equal, here of integers, and NOT IN where none
/// is.
pub proof fn written_lists_are_searched(
    nodes: Seq<SqlNodeV>,
    at: int,
    a: i64,
    vs: Seq<i64>,
    row: Seq<ValueV>,
    s: SchemaV,
    known: Seq<(QuestionV, AnswerV)>,
)
    requires
        0 <= at < nodes.len(),
        nodes[at] is InList,
        nodes[at]->InList_expr < at,
        means(nodes, nodes[at]->InList_expr as int, ValueV::Int(a), row, s, known),
        vs.len() == nodes[at]->InList_list.len(),
        forall|k: int|
            0 <= k < vs.len() ==> (#[trigger] nodes[at]->InList_list[k]) < at && means(
                nodes,
                nodes[at]->InList_list[k] as int,
                ValueV::Int(vs[k]),
                row,
                s,
                known,
            ),
    ensures
        means(nodes, at, ValueV::Bool(vs.contains(a) != nodes[at]->InList_negated), row, s, known),
{
    let ids = nodes[at]->InList_list;
    let x = scalar::planned(nodes, nodes[at]->InList_expr as int, known)->Ok_0;
    let outs = scalar::operands(nodes, ids, at, known);
    let list = Seq::new(ids.len(), |k: int| scalar::planned(nodes, ids[k] as int, known)->Ok_0);
    operands_are_planned(nodes, ids, at, known);
    assert forall|k: int| 0 <= k < outs.len() implies #[trigger] outs[k] == Ok::<ExprV, ErrorV>(list[k]) by {
        assert(ids[k] < at);
    }
    assert(list.take(0) =~= Seq::empty());
    binding::values_collected(outs, 0, Seq::empty(), list);
    let ws = Seq::new(vs.len(), |k: int| ValueV::Int(vs[k]));
    assert forall|k: int| 0 <= k < list.len() implies expr_laws::is_worth(#[trigger] list[k], ws[k], row, s, known) && (
    ws[k] is Null || expr_laws::operated(x, Operator::Eq, list[k], row, s, known) is Ok) by {
        assert(ids[k] < at);
        expr_laws::integers_compare_as_numbers(x, list[k], a, vs[k], row, s, known);
    }
    expr_laws::in_is_equality_with_some_value(x, list, ValueV::Int(a), ws, row, s, known);
    let t = ExprV::InList { expr: Box::new(x), list };
    let equal = |i: int|
        expr_laws::operated(x, Operator::Eq, list[i], row, s, known) == Ok::<ValueV, ErrorV>(ValueV::Bool(true));
    assert forall|k: int| 0 <= k < list.len() implies #[trigger] equal(k) == (vs[k] == a) by {
        assert(ids[k] < at);
        assert(expr_laws::is_worth(list[k], ws[k], row, s, known));
        expr_laws::integers_compare_as_numbers(x, list[k], a, vs[k], row, s, known);
    }
    if vs.contains(a) {
        let k = choose|k: int| 0 <= k < vs.len() && vs[k] == a;
        assert(equal(k));
    } else {
        assert forall|k: int| 0 <= k < list.len() implies !#[trigger] equal(k) by {
            assert(vs[k] != a);
        }
    }
    assert forall|k: int| 0 <= k < ws.len() implies !(#[trigger] ws[k] is Null) by {}
    assert(expr_laws::is_worth(t, ValueV::Bool(vs.contains(a)), row, s, known));
    expr_laws::connectives_go_by_rank(t, t, ValueV::Bool(vs.contains(a)), ValueV::Bool(vs.contains(a)), row, s, known);
}

/// SUBSTRING(x FROM start FOR count) gives the characters of the text from the start on, as many as
/// it asks for and there are.
pub proof fn written_substrings_take_characters_in_place(
    nodes: Seq<SqlNodeV>,
    at: int,
    t: Seq<char>,
    start: i64,
    count: i64,
    row: Seq<ValueV>,
    s: SchemaV,
    known: Seq<(QuestionV, AnswerV)>,
)
    requires
        0 <= at < nodes.len(),
        nodes[at] matches SqlNodeV::Substring { expr, from, count: c } && from is Some && c is Some && expr < at
            && from->0 < at && c->0 < at && means(nodes, expr as int, ValueV::String(t), row, s, known) && means(
            nodes,
            from->0 as int,
            ValueV::Int(start),
            row,
            s,
            known,
        ) && means(nodes, c->0 as int, ValueV::Int(count), row, s, known),
        1 <= start <= t.len(),
        0 <= count,
    ensures
        match worth(nodes, at, row, s, known) {
            Ok(ValueV::String(u)) => {
                &&& u.len() == if count <= t.len() - start + 1 {
                    count as int
                } else {
                    t.len() - start + 1
                }
                &&& forall|i: int| 0 <= i < u.len() ==> u[i] == t[start - 1 + i]
            },
            _ => false,
        },
{
    if let SqlNodeV::Substring { expr, from, count: c } = nodes[at] {
        let ids = scalar::substring_operands(expr, from, c);
        let outs = scalar::operands(nodes, ids, at, known);
        let list = Seq::new(ids.len(), |k: int| scalar::planned(nodes, ids[k] as int, known)->Ok_0);
        assert(ids =~= seq![expr, from->0, c->0]);
        operands_are_planned(nodes, ids, at, known);
        assert forall|k: int| 0 <= k < outs.len() implies #[trigger] outs[k] == Ok::<ExprV, ErrorV>(list[k]) by {
            assert(k == 0 || k == 1 || k == 2);
        }
        assert(list.take(0) =~= Seq::empty());
    binding::values_collected(outs, 0, Seq::empty(), list);
        uppercased_substring();
        expr_laws::substr_takes_characters_in_place("SUBSTRING"@, list, t, start, count, row, s, known);
    }
}

proof fn uppercased_substring()
    ensures
        text::uppercased("SUBSTRING"@) == "SUBSTRING"@,
{
    reveal_strlit("SUBSTRING");
    assert(text::uppercased("SUBSTRING"@) =~= "SUBSTRING"@);
}

} // verus!
