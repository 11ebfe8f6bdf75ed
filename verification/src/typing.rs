//! The type that an expression is taken to have, against the values that it gives.

use crate::eval;
use crate::expr;
use crate::expr::{ExprV, Operator};
use crate::expr_laws;
use crate::facts::{AnswerV, ErrorV, QuestionV};
use crate::logical;
use crate::pushdown;
use crate::schema;
use crate::schema::{ColumnV, SchemaV};
use crate::text;
use crate::value::{DataType, ValueV};
use vstd::prelude::*;
use vstd::string::*;

verus! {

/// Whether a value is of a type. NULL is of every type.
pub open spec fn is_of(v: ValueV, t: DataType) -> bool {
    v is Null || match t {
        DataType::Int => v is Int,
        DataType::Float => v is Float,
        DataType::String => v is String,
        DataType::Bytes => v is Bytes,
        DataType::Bool => v is Bool,
        DataType::Null => v is Null,
        DataType::Date => v is Date,
        DataType::Time => v is Time,
        DataType::Timestamp => v is Timestamp,
        DataType::Decimal => v is Decimal,
    }
}

/// Whether the values of a row are of the types of its columns.
pub open spec fn is_row_of(row: Seq<ValueV>, s: SchemaV) -> bool {
    &&& row.len() == s.columns.len()
    &&& forall|i: int| 0 <= i < row.len() ==> is_of(#[trigger] row[i], s.columns[i].data_type)
}

/// Whether an expression is made of values of one type wherever it passes them on: literals,
/// columns that are looked up by name, arithmetic, CASE, COALESCE, LENGTH, SUBSTR and casts.
pub open spec fn is_uniform(e: ExprV, s: SchemaV) -> bool
    decreases e,
{
    match e {
        ExprV::Literal(_) => true,
        ExprV::Column(_, index) => index is None,
        ExprV::BinaryOp { left, op, right } => {
            &&& op == Operator::Add || op == Operator::Sub || op == Operator::Mul || op == Operator::Div
            &&& is_uniform(*left, s)
            &&& is_uniform(*right, s)
            &&& logical::expr_type(*left, s) == logical::expr_type(*right, s)
        },
        ExprV::Case { results, else_result, .. } => {
            &&& results.len() > 0
            &&& are_uniform(results, logical::expr_type(results[0], s), s)
            &&& match else_result {
                Some(x) => is_uniform(*x, s) && logical::expr_type(*x, s) == logical::expr_type(results[0], s),
                None => true,
            }
        },
        ExprV::Function { name, args } => {
            ||| text::uppercased(name) == "LENGTH"@
            ||| text::uppercased(name) == "SUBSTR"@
            ||| text::uppercased(name) == "SUBSTRING"@
            ||| text::uppercased(name) == "COALESCE"@ && args.len() > 0 && are_uniform(
                args,
                logical::expr_type(args[0], s),
                s,
            )
        },
        ExprV::Match { .. } => true,
        ExprV::Cast { .. } => true,
        _ => false,
    }
}

/// Whether expressions are all uniform and taken to have one type.
pub open spec fn are_uniform(es: Seq<ExprV>, t: DataType, s: SchemaV) -> bool
    decreases es,
{
    forall|i: int| 0 <= i < es.len() ==> is_uniform(#[trigger] es[i], s) && logical::expr_type(es[i], s) == t
}

/// Whether a result is an error or a value of a type.
pub open spec fn gives(r: Result<ValueV, ErrorV>, t: DataType) -> bool {
    match r {
        Ok(v) => is_of(v, t),
        Err(_) => true,
    }
}

proof fn each_uniform(es: Seq<ExprV>, t: DataType, s: SchemaV, i: int)
    requires
        are_uniform(es, t, s),
        0 <= i < es.len(),
    ensures
        is_uniform(es[i], s),
        logical::expr_type(es[i], s) == t,
{
}

proof fn literal_type(v: ValueV)
    ensures
        is_of(v, logical::value_type(v)),
{
}

proof fn first_position(cols: Seq<ColumnV>, name: Seq<char>, i: int, k: int)
    requires
        pushdown::denotes_one(cols, name, k),
        0 <= i <= k,
    ensures
        schema::column_position_from(cols, name, i) == Some(k),
    decreases k - i,
{
    if i < k {
        assert(!text::names_match(cols[i].name, name));
        first_position(cols, name, i + 1, k);
    }
}

proof fn column_type(name: Seq<char>, row: Seq<ValueV>, s: SchemaV, known: Seq<(QuestionV, AnswerV)>)
    requires
        is_row_of(row, s),
        s.columns.len() <= usize::MAX,
    ensures
        gives(
            expr_laws::valued(ExprV::Column(name, None), row, s, known),
            logical::expr_type(ExprV::Column(name, None), s),
        ),
{
    reveal(expr_laws::valued);
    if let Ok(i) = expr::resolved(s, name) {
        pushdown::resolved_is_one(s, name, i as int);
        first_position(s.columns, name, 0, i as int);
    }
}

proof fn arithmetic_type(op: Operator, l: ValueV, r: ValueV, t: DataType, known: Seq<(QuestionV, AnswerV)>)
    requires
        op == Operator::Add || op == Operator::Sub || op == Operator::Mul || op == Operator::Div,
        is_of(l, t),
        is_of(r, t),
    ensures
        gives(eval::operation(op, l, r, known), t),
{
}

proof fn cast_type(v: ValueV, t: DataType, known: Seq<(QuestionV, AnswerV)>)
    ensures
        gives(eval::cast(v, t, known), t),
{
}

proof fn coalesced_type(rs: Seq<Result<ValueV, ErrorV>>, i: int, t: DataType)
    requires
        0 <= i,
        forall|j: int| 0 <= j < rs.len() ==> gives(#[trigger] rs[j], t),
    ensures
        gives(eval::coalesced(rs, i), t),
    decreases rs.len() - i,
{
    if i < rs.len() {
        assert(gives(rs[i], t));
        coalesced_type(rs, i + 1, t);
    }
}

proof fn chosen_true(rs: Seq<Result<ValueV, ErrorV>>, i: int)
    requires
        0 <= i,
    ensures
        eval::case_true(rs, i) matches Ok(Some(k)) ==> 0 <= k < rs.len(),
    decreases rs.len() - i,
{
    if i < rs.len() {
        chosen_true(rs, i + 1);
    }
}

proof fn chosen_equal(v: ValueV, rs: Seq<Result<ValueV, ErrorV>>, i: int, known: Seq<(QuestionV, AnswerV)>)
    requires
        0 <= i,
    ensures
        eval::case_equal(v, rs, i, known) matches Ok(Some(k)) ==> 0 <= k < rs.len(),
    decreases rs.len() - i,
{
    if i < rs.len() {
        chosen_equal(v, rs, i + 1, known);
    }
}

proof fn case_type(
    operand: Option<Result<ValueV, ErrorV>>,
    cs: Seq<Result<ValueV, ErrorV>>,
    rs: Seq<Result<ValueV, ErrorV>>,
    otherwise: Option<Result<ValueV, ErrorV>>,
    t: DataType,
    known: Seq<(QuestionV, AnswerV)>,
)
    requires
        cs.len() == rs.len(),
        forall|j: int| 0 <= j < rs.len() ==> gives(#[trigger] rs[j], t),
        otherwise matches Some(r) ==> gives(r, t),
    ensures
        gives(eval::case_outcome(eval::case_choice(operand, cs, known), rs, otherwise), t),
{
    match operand {
        Some(Ok(v)) => chosen_equal(v, cs, 0, known),
        Some(Err(_)) => {},
        None => chosen_true(cs, 0),
    }
    if let Ok(Some(k)) = eval::case_choice(operand, cs, known) {
        assert(gives(rs[k], t));
    }
}

proof fn function_type(name: Seq<char>, rs: Seq<Result<ValueV, ErrorV>>, known: Seq<(QuestionV, AnswerV)>)
    ensures
        name == "LENGTH"@ ==> gives(eval::function_value(name, rs, known), DataType::Int),
        name == "SUBSTR"@ || name == "SUBSTRING"@ ==> gives(eval::function_value(name, rs, known), DataType::String),
        name == "COALESCE"@ && rs.len() > 0 ==> eval::function_value(name, rs, known) == eval::coalesced(rs, 0),
        "LENGTH"@ != "COALESCE"@,
        "SUBSTR"@ != "LENGTH"@,
        "SUBSTR"@ != "COALESCE"@,
        "SUBSTRING"@ != "LENGTH"@,
        "SUBSTRING"@ != "COALESCE"@,
{
    expr_laws::names_differ();
}

/// The value of a uniform expression, on a row whose values are of the types of its columns, is of
/// the type that the expression is taken to have.
#[verifier::rlimit(60)]
pub proof fn values_are_of_the_inferred_type(
    e: ExprV,
    row: Seq<ValueV>,
    s: SchemaV,
    known: Seq<(QuestionV, AnswerV)>,
)
    requires
        is_uniform(e, s),
        is_row_of(row, s),
        s.columns.len() <= usize::MAX,
    ensures
        expr_laws::valued(e, row, s, known) matches Ok(v) ==> is_of(v, logical::expr_type(e, s)),
    decreases e,
{
    match e {
        ExprV::Literal(v) => {
            reveal(expr_laws::valued);
            literal_type(v);
        },
        ExprV::Column(name, _) => column_type(name, row, s, known),
        ExprV::BinaryOp { left, op, right } => {
            values_are_of_the_inferred_type(*left, row, s, known);
            values_are_of_the_inferred_type(*right, row, s, known);
            let l = expr_laws::valued(*left, row, s, known);
            let r = expr_laws::valued(*right, row, s, known);
            if l is Ok && r is Ok {
                expr_laws::operator_node(*left, op, *right, row, s, known);
                arithmetic_type(op, l->Ok_0, r->Ok_0, logical::expr_type(*left, s), known);
            } else {
                reveal(expr_laws::valued);
            }
        },
        ExprV::Case { operand, conditions, results, else_result } => {
            let t = logical::expr_type(results[0], s);
            if conditions.len() == results.len() {
                expr_laws::case_node(operand, conditions, results, else_result, row, s, known);
                let rs = expr_laws::valued_each(results, row, s, known);
                assert forall|j: int| 0 <= j < rs.len() implies gives(#[trigger] rs[j], t) by {
                    each_uniform(results, t, s, j);
                    values_are_of_the_inferred_type(results[j], row, s, known);
                }
                match else_result {
                    Some(x) => values_are_of_the_inferred_type(*x, row, s, known),
                    None => {},
                }
                case_type(
                    match operand {
                        Some(x) => Some(expr_laws::valued(*x, row, s, known)),
                        None => None,
                    },
                    expr_laws::valued_each(conditions, row, s, known),
                    rs,
                    match else_result {
                        Some(x) => Some(expr_laws::valued(*x, row, s, known)),
                        None => None,
                    },
                    t,
                    known,
                );
            } else {
                reveal(expr_laws::valued);
            }
        },
        ExprV::Function { name, args } => {
            let rs = expr_laws::valued_each(args, row, s, known);
            expr_laws::call_node(name, args, row, s, known);
            function_type(text::uppercased(name), rs, known);
            if text::uppercased(name) == "COALESCE"@ {
                let t = logical::expr_type(args[0], s);
                assert forall|j: int| 0 <= j < rs.len() implies gives(#[trigger] rs[j], t) by {
                    each_uniform(args, t, s, j);
                    values_are_of_the_inferred_type(args[j], row, s, known);
                }
                coalesced_type(rs, 0, t);
            }
        },
        ExprV::Match { .. } => {
            reveal(expr_laws::valued);
        },
        ExprV::Cast { expr, target_type } => {
            reveal(expr_laws::valued);
            if let Ok(v) = eval::evaluated(*expr, row, s, known) {
                cast_type(v, target_type, known);
            }
        },
        _ => {},
    }
}

/// A projection has a column for each of its expressions, with its name, and where the expression is
/// uniform the values of the column are of its type.
pub proof fn projected_columns_are_of_their_values(
    es: Seq<ExprV>,
    names: Seq<Seq<char>>,
    source: SchemaV,
    row: Seq<ValueV>,
    i: int,
    known: Seq<(QuestionV, AnswerV)>,
)
    requires
        es.len() == names.len(),
        0 <= i < es.len(),
        is_uniform(es[i], source),
        is_row_of(row, source),
        source.columns.len() <= usize::MAX,
    ensures
        logical::projected_columns(es, names, source).len() == es.len(),
        logical::projected_columns(es, names, source)[i].name == names[i],
        expr_laws::valued(es[i], row, source, known) matches Ok(v) ==> is_of(
            v,
            logical::projected_columns(es, names, source)[i].data_type,
        ),
{
    values_are_of_the_inferred_type(es[i], row, source, known);
}

} // verus!
