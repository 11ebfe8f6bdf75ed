//! What scalar expressions give, by what they are for: relations between an operand and a
//! result, and between two expressions.

use crate::eval;
use crate::expr::{ExprV, Operator};
use crate::facts;
use crate::facts::{AnswerV, ErrorKind, ErrorV, FloatOp, QuestionV};
use crate::schema::SchemaV;
use crate::text;
use crate::value;
use crate::value::{DataType, Order, ValueV};
use vstd::prelude::*;
use vstd::string::*;

verus! {

/// The value of an expression on a row.
#[verifier::opaque]
pub open spec fn valued(e: ExprV, row: Seq<ValueV>, s: SchemaV, known: Seq<(QuestionV, AnswerV)>) -> Result<
    ValueV,
    ErrorV,
> {
    eval::evaluated(e, row, s, known)
}

/// The values of some expressions on a row.
pub open spec fn valued_each(es: Seq<ExprV>, row: Seq<ValueV>, s: SchemaV, known: Seq<(QuestionV, AnswerV)>) -> Seq<
    Result<ValueV, ErrorV>,
> {
    es.map_values(|e: ExprV| valued(e, row, s, known))
}

/// The value of a call of a function on a row.
pub open spec fn called(
    name: Seq<char>,
    args: Seq<ExprV>,
    row: Seq<ValueV>,
    s: SchemaV,
    known: Seq<(QuestionV, AnswerV)>,
) -> Result<ValueV, ErrorV> {
    valued(ExprV::Function { name, args }, row, s, known)
}

/// The value of an operation on a row.
pub open spec fn operated(
    l: ExprV,
    op: Operator,
    r: ExprV,
    row: Seq<ValueV>,
    s: SchemaV,
    known: Seq<(QuestionV, AnswerV)>,
) -> Result<ValueV, ErrorV> {
    valued(ExprV::BinaryOp { left: Box::new(l), op, right: Box::new(r) }, row, s, known)
}

/// Whether an expression has a value on a row.
pub open spec fn is_worth(
    e: ExprV,
    v: ValueV,
    row: Seq<ValueV>,
    s: SchemaV,
    known: Seq<(QuestionV, AnswerV)>,
) -> bool {
    valued(e, row, s, known) == Ok::<ValueV, ErrorV>(v)
}

proof fn each_node(es: Seq<ExprV>, row: Seq<ValueV>, s: SchemaV, known: Seq<(QuestionV, AnswerV)>)
    ensures
        eval::evaluated_each(es, row, s, known) == valued_each(es, row, s, known),
{
    reveal(valued);
    assert(eval::evaluated_each(es, row, s, known) =~= valued_each(es, row, s, known));
}

pub proof fn call_node(name: Seq<char>, args: Seq<ExprV>, row: Seq<ValueV>, s: SchemaV, known: Seq<(QuestionV, AnswerV)>)
    ensures
        called(name, args, row, s, known) == eval::function_value(
            text::uppercased(name),
            valued_each(args, row, s, known),
            known,
        ),
{
    each_node(args, row, s, known);
    reveal(valued);
}

pub proof fn operator_node(l: ExprV, op: Operator, r: ExprV, row: Seq<ValueV>, s: SchemaV, known: Seq<(QuestionV, AnswerV)>)
    ensures
        op == Operator::And ==> operated(l, op, r, row, s, known) == eval::conjunction(
            valued(l, row, s, known),
            valued(r, row, s, known),
        ),
        op == Operator::Or ==> operated(l, op, r, row, s, known) == eval::disjunction(
            valued(l, row, s, known),
            valued(r, row, s, known),
        ),
        op != Operator::And && op != Operator::Or && valued(l, row, s, known) is Ok && valued(r, row, s, known) is Ok
            ==> operated(l, op, r, row, s, known) == eval::operation(
            op,
            valued(l, row, s, known)->Ok_0,
            valued(r, row, s, known)->Ok_0,
            known,
        ),
{
    reveal(valued);
}

pub proof fn case_node(
    operand: Option<Box<ExprV>>,
    conditions: Seq<ExprV>,
    results: Seq<ExprV>,
    else_result: Option<Box<ExprV>>,
    row: Seq<ValueV>,
    s: SchemaV,
    known: Seq<(QuestionV, AnswerV)>,
)
    requires
        conditions.len() == results.len(),
    ensures
        valued(ExprV::Case { operand, conditions, results, else_result }, row, s, known) == eval::case_outcome(
            eval::case_choice(
                match operand {
                    Some(x) => Some(valued(*x, row, s, known)),
                    None => None,
                },
                valued_each(conditions, row, s, known),
                known,
            ),
            valued_each(results, row, s, known),
            match else_result {
                Some(x) => Some(valued(*x, row, s, known)),
                None => None,
            },
        ),
{
    each_node(conditions, row, s, known);
    each_node(results, row, s, known);
    reveal(valued);
    assert(eval::evaluated_opt(operand, row, s, known) == match operand {
        Some(x) => Some(valued(*x, row, s, known)),
        None => None,
    });
    assert(eval::evaluated_opt(else_result, row, s, known) == match else_result {
        Some(x) => Some(valued(*x, row, s, known)),
        None => None,
    });
}

proof fn one_node(e: ExprV, list: Seq<ExprV>, ty: DataType, row: Seq<ValueV>, s: SchemaV, known: Seq<(QuestionV, AnswerV)>)
    requires
        valued(e, row, s, known) is Ok,
    ensures
        ({
            let v = valued(e, row, s, known)->Ok_0;
            &&& valued(ExprV::IsNull(Box::new(e)), row, s, known) == Ok::<ValueV, ErrorV>(ValueV::Bool(v is Null))
            &&& valued(ExprV::Cast { expr: Box::new(e), target_type: ty }, row, s, known) == eval::cast(v, ty, known)
            &&& is_truth(v) ==> valued(ExprV::Not(Box::new(e)), row, s, known) == Ok::<ValueV, ErrorV>(
                match v {
                    ValueV::Bool(b) => ValueV::Bool(!b),
                    _ => ValueV::Null,
                },
            )
            &&& v !is Null ==> valued(ExprV::InList { expr: Box::new(e), list }, row, s, known) == eval::in_list(
                v,
                valued_each(list, row, s, known),
                0,
                false,
                known,
            )
        }),
{
    each_node(list, row, s, known);
    reveal(valued);
}

/// The names of the functions differ.
pub proof fn names_differ()
    ensures
        "ABS"@ != "ROUND"@,
        "ABS"@ != "LENGTH"@,
        "ABS"@ != "UPPER"@,
        "ABS"@ != "LOWER"@,
        "ROUND"@ != "LENGTH"@,
        "ROUND"@ != "UPPER"@,
        "ROUND"@ != "LOWER"@,
        "LENGTH"@ != "UPPER"@,
        "LENGTH"@ != "LOWER"@,
        "UPPER"@ != "LOWER"@,
        !eval::is_unary("SUBSTR"@),
        !eval::is_unary("SUBSTRING"@),
        !eval::is_unary("COALESCE"@),
        !eval::is_unary("CONCAT"@),
        "COALESCE"@ != "SUBSTR"@,
        "COALESCE"@ != "SUBSTRING"@,
        "CONCAT"@ != "SUBSTR"@,
        "CONCAT"@ != "SUBSTRING"@,
        "CONCAT"@ != "COALESCE"@,
{
    reveal_strlit("ABS");
    reveal_strlit("ROUND");
    reveal_strlit("LENGTH");
    reveal_strlit("UPPER");
    reveal_strlit("LOWER");
    reveal_strlit("SUBSTR");
    reveal_strlit("SUBSTRING");
    reveal_strlit("COALESCE");
    reveal_strlit("CONCAT");
    assert("ABS"@.len() == 3 && "ROUND"@.len() == 5 && "UPPER"@.len() == 5 && "LOWER"@.len() == 5);
    assert("LENGTH"@.len() == 6 && "SUBSTR"@.len() == 6 && "CONCAT"@.len() == 6);
    assert("SUBSTRING"@.len() == 9 && "COALESCE"@.len() == 8);
    assert("LENGTH"@[0] == 'L' && "SUBSTR"@[0] == 'S' && "CONCAT"@[0] == 'C');
    assert("UPPER"@[0] == 'U' && "LOWER"@[0] == 'L' && "ROUND"@[0] == 'R');
}

// ---------------------------------------------------------------- texts

/// SUBSTR from a position of a text on, counted from one, has what is left of the text but no
/// more than it is asked for, and its characters are those of the text from that position on.
/// Positions below zero count from the end.
pub proof fn substr_takes_characters_in_place(
    name: Seq<char>,
    args: Seq<ExprV>,
    t: Seq<char>,
    start: i64,
    len: i64,
    row: Seq<ValueV>,
    s: SchemaV,
    known: Seq<(QuestionV, AnswerV)>,
)
    requires
        text::uppercased(name) == "SUBSTR"@ || text::uppercased(name) == "SUBSTRING"@,
        args.len() == 3,
        is_worth(args[0], ValueV::String(t), row, s, known),
        is_worth(args[1], ValueV::Int(start), row, s, known),
        is_worth(args[2], ValueV::Int(len), row, s, known),
        0 <= len,
        1 <= start <= t.len() || -t.len() <= start <= -1,
    ensures
        called(name, args, row, s, known) matches Ok(ValueV::String(u)) && {
            let first = if start > 0 {
                start - 1
            } else {
                t.len() + start
            };
            &&& u.len() == if len <= t.len() - first {
                len as int
            } else {
                t.len() - first
            }
            &&& forall|i: int| 0 <= i < u.len() ==> u[i] == t[first + i]
        },
{
    names_differ();
    call_node(name, args, row, s, known);
    let rs = valued_each(args, row, s, known);
    assert(rs[0] == Ok::<ValueV, ErrorV>(ValueV::String(t)));
    assert(rs[1] == Ok::<ValueV, ErrorV>(ValueV::Int(start)));
    assert(rs[2] == Ok::<ValueV, ErrorV>(ValueV::Int(len)));
}

/// SUBSTR without a length has all characters of the text from the position on.
pub proof fn substr_without_length_takes_the_rest(
    name: Seq<char>,
    args: Seq<ExprV>,
    t: Seq<char>,
    start: i64,
    row: Seq<ValueV>,
    s: SchemaV,
    known: Seq<(QuestionV, AnswerV)>,
)
    requires
        text::uppercased(name) == "SUBSTR"@ || text::uppercased(name) == "SUBSTRING"@,
        args.len() == 2,
        is_worth(args[0], ValueV::String(t), row, s, known),
        is_worth(args[1], ValueV::Int(start), row, s, known),
        1 <= start <= t.len() || -t.len() <= start <= -1,
    ensures
        called(name, args, row, s, known) matches Ok(ValueV::String(u)) && {
            let first = if start > 0 {
                start - 1
            } else {
                t.len() + start
            };
            &&& u.len() == t.len() - first
            &&& forall|i: int| 0 <= i < u.len() ==> u[i] == t[first + i]
        },
{
    names_differ();
    call_node(name, args, row, s, known);
    let rs = valued_each(args, row, s, known);
    assert(rs[0] == Ok::<ValueV, ErrorV>(ValueV::String(t)));
    assert(rs[1] == Ok::<ValueV, ErrorV>(ValueV::Int(start)));
}

/// SUBSTR with a length is a beginning, no longer than that, of SUBSTR without it, wherever it
/// starts. A negative length is an error.
pub proof fn substr_with_length_begins_the_rest(
    name: Seq<char>,
    args: Seq<ExprV>,
    t: Seq<char>,
    start: i64,
    len: i64,
    row: Seq<ValueV>,
    s: SchemaV,
    known: Seq<(QuestionV, AnswerV)>,
)
    requires
        text::uppercased(name) == "SUBSTR"@ || text::uppercased(name) == "SUBSTRING"@,
        args.len() == 3,
        is_worth(args[0], ValueV::String(t), row, s, known),
        is_worth(args[1], ValueV::Int(start), row, s, known),
        is_worth(args[2], ValueV::Int(len), row, s, known),
    ensures
        match (called(name, args, row, s, known), called(name, args.take(2), row, s, known)) {
            (Ok(ValueV::String(u)), Ok(ValueV::String(all))) => len >= 0 && u.is_prefix_of(all) && u.len() <= len,
            (Err(x), _) => len < 0 && x.kind == ErrorKind::SubstrNegative,
            _ => false,
        },
        start > t.len() ==> called(name, args.take(2), row, s, known) == Ok::<ValueV, ErrorV>(
            ValueV::String(Seq::empty()),
        ),
        start <= -t.len() || start == 0 ==> called(name, args.take(2), row, s, known) == Ok::<ValueV, ErrorV>(
            ValueV::String(t),
        ),
{
    names_differ();
    call_node(name, args, row, s, known);
    call_node(name, args.take(2), row, s, known);
    let rs = valued_each(args, row, s, known);
    let two = valued_each(args.take(2), row, s, known);
    assert(rs[0] == Ok::<ValueV, ErrorV>(ValueV::String(t)));
    assert(rs[1] == Ok::<ValueV, ErrorV>(ValueV::Int(start)));
    assert(rs[2] == Ok::<ValueV, ErrorV>(ValueV::Int(len)));
    assert(two[0] == rs[0] && two[1] == rs[1]);
    if len >= 0 {
        let u = eval::substr_of(t, start, len);
        let all = eval::substr_from(t, start);
        assert(u =~= all.take(u.len() as int));
    }
    assert(t.skip(0) =~= t);
}

/// LENGTH counts the characters of a text.
pub proof fn length_counts_characters(
    name: Seq<char>,
    arg: ExprV,
    t: Seq<char>,
    row: Seq<ValueV>,
    s: SchemaV,
    known: Seq<(QuestionV, AnswerV)>,
)
    requires
        text::uppercased(name) == "LENGTH"@,
        is_worth(arg, ValueV::String(t), row, s, known),
        t.len() <= i64::MAX,
    ensures
        called(name, seq![arg], row, s, known) matches Ok(ValueV::Int(n)) && n == t.len(),
{
    names_differ();
    call_node(name, seq![arg], row, s, known);
    assert(valued_each(seq![arg], row, s, known)[0] == Ok::<ValueV, ErrorV>(ValueV::String(t)));
}

/// UPPER makes every small letter of an ASCII text a capital one and leaves the rest; LOWER does
/// the reverse.
pub proof fn case_changes_letters_alone(
    name: Seq<char>,
    arg: ExprV,
    t: Seq<char>,
    row: Seq<ValueV>,
    s: SchemaV,
    known: Seq<(QuestionV, AnswerV)>,
)
    requires
        text::uppercased(name) == "UPPER"@ || text::uppercased(name) == "LOWER"@,
        is_worth(arg, ValueV::String(t), row, s, known),
        text::all_ascii(t),
    ensures
        called(name, seq![arg], row, s, known) matches Ok(ValueV::String(u)) && {
            &&& u.len() == t.len()
            &&& text::uppercased(name) == "UPPER"@ ==> forall|i: int|
                0 <= i < t.len() ==> (#[trigger] u[i]) as int == t[i] as int - if 'a' <= t[i] && t[i] <= 'z' {
                    32int
                } else {
                    0
                }
            &&& text::uppercased(name) == "LOWER"@ ==> forall|i: int|
                0 <= i < t.len() ==> (#[trigger] u[i]) as int == t[i] as int + if 'A' <= t[i] && t[i] <= 'Z' {
                    32int
                } else {
                    0
                }
        },
{
    names_differ();
    call_node(name, seq![arg], row, s, known);
    assert(valued_each(seq![arg], row, s, known)[0] == Ok::<ValueV, ErrorV>(ValueV::String(t)));
}

/// CONCAT of one text is the text, and one more argument adds its text at the end.
pub proof fn concat_adds_at_the_end(
    name: Seq<char>,
    args: Seq<ExprV>,
    last: ExprV,
    t: Seq<char>,
    u: Seq<char>,
    row: Seq<ValueV>,
    s: SchemaV,
    known: Seq<(QuestionV, AnswerV)>,
)
    requires
        text::uppercased(name) == "CONCAT"@,
        is_worth(last, ValueV::String(u), row, s, known),
    ensures
        called(name, seq![last], row, s, known) == Ok::<ValueV, ErrorV>(ValueV::String(u)),
        called(name, args, row, s, known) == Ok::<ValueV, ErrorV>(ValueV::String(t)) ==> called(
            name,
            args.push(last),
            row,
            s,
            known,
        ) == Ok::<ValueV, ErrorV>(ValueV::String(t + u)),
        called(name, args, row, s, known) == Ok::<ValueV, ErrorV>(ValueV::Null) ==> called(
            name,
            args.push(last),
            row,
            s,
            known,
        ) == Ok::<ValueV, ErrorV>(ValueV::Null),
{
    names_differ();
    call_node(name, seq![last], row, s, known);
    call_node(name, args, row, s, known);
    call_node(name, args.push(last), row, s, known);
    let one = valued_each(seq![last], row, s, known);
    assert(one[0] == Ok::<ValueV, ErrorV>(ValueV::String(u)));
    reveal_with_fuel(eval::concatenated, 3);
    assert(Seq::<char>::empty() + u =~= u);
    let rs = valued_each(args, row, s, known);
    let more = valued_each(args.push(last), row, s, known);
    assert(more =~= rs.push(one[0]));
    if args.len() > 0 {
        concat_grows(rs, one[0], u, 0, Seq::empty(), known);
    }
}

proof fn concat_grows(
    rs: Seq<Result<ValueV, ErrorV>>,
    r: Result<ValueV, ErrorV>,
    u: Seq<char>,
    i: int,
    acc: Seq<char>,
    known: Seq<(QuestionV, AnswerV)>,
)
    requires
        0 <= i <= rs.len(),
        r == Ok::<ValueV, ErrorV>(ValueV::String(u)),
    ensures
        match eval::concatenated(rs, i, acc, known) {
            Ok(ValueV::String(t)) => eval::concatenated(rs.push(r), i, acc, known) == Ok::<ValueV, ErrorV>(
                ValueV::String(t + u),
            ),
            other => eval::concatenated(rs.push(r), i, acc, known) == other,
        },
    decreases rs.len() - i,
{
    let more = rs.push(r);
    if i < rs.len() {
        assert(more[i] == rs[i]);
        if let Ok(v) = rs[i] {
            if v !is Null {
                if let Ok(t) = eval::value_text(v, known) {
                    concat_grows(rs, r, u, i + 1, acc + t, known);
                }
            }
        }
    } else {
        assert(more[i] == r);
        assert(eval::concatenated(more, i + 1, acc + u, known) == Ok::<ValueV, ErrorV>(ValueV::String(acc + u)));
    }
}

/// A function of a text gives NULL on NULL, and so does a SUBSTR of NULL.
pub proof fn functions_of_null_are_null(
    name: Seq<char>,
    args: Seq<ExprV>,
    row: Seq<ValueV>,
    s: SchemaV,
    known: Seq<(QuestionV, AnswerV)>,
)
    requires
        args.len() > 0,
        is_worth(args[0], ValueV::Null, row, s, known),
        ({
            let n = text::uppercased(name);
            ||| args.len() == 1 && (n == "LENGTH"@ || n == "UPPER"@ || n == "LOWER"@ || n == "ABS"@ || n == "ROUND"@)
            ||| (n == "SUBSTR"@ || n == "SUBSTRING"@) && (args.len() == 2 || args.len() == 3)
            ||| n == "CONCAT"@
        }),
    ensures
        called(name, args, row, s, known) == Ok::<ValueV, ErrorV>(ValueV::Null),
{
    names_differ();
    call_node(name, args, row, s, known);
    assert(valued_each(args, row, s, known)[0] == Ok::<ValueV, ErrorV>(ValueV::Null));
}

// ---------------------------------------------------------------- choices

/// COALESCE gives the first of its values that is not NULL, and NULL where there is none.
pub proof fn coalesce_gives_the_first_value(
    name: Seq<char>,
    args: Seq<ExprV>,
    vs: Seq<ValueV>,
    row: Seq<ValueV>,
    s: SchemaV,
    known: Seq<(QuestionV, AnswerV)>,
)
    requires
        text::uppercased(name) == "COALESCE"@,
        args.len() == vs.len(),
        args.len() > 0,
        forall|i: int| 0 <= i < args.len() ==> is_worth(#[trigger] args[i], vs[i], row, s, known),
    ensures
        forall|i: int|
            0 <= i < vs.len() && vs[i] !is Null && (forall|j: int| 0 <= j < i ==> vs[j] is Null) ==> called(
                name,
                args,
                row,
                s,
                known,
            ) == Ok::<ValueV, ErrorV>(#[trigger] vs[i]),
        (forall|j: int| 0 <= j < vs.len() ==> vs[j] is Null) ==> called(name, args, row, s, known) == Ok::<ValueV, ErrorV>(
            ValueV::Null,
        ),
{
    names_differ();
    call_node(name, args, row, s, known);
    let rs = valued_each(args, row, s, known);
    assert forall|i: int| 0 <= i < vs.len() implies #[trigger] rs[i] == Ok::<ValueV, ErrorV>(vs[i]) by {
        assert(is_worth(args[i], vs[i], row, s, known));
    }
    assert forall|i: int|
        0 <= i < vs.len() && vs[i] !is Null && (forall|j: int| 0 <= j < i ==> vs[j] is Null) implies called(
        name,
        args,
        row,
        s,
        known,
    ) == Ok::<ValueV, ErrorV>(#[trigger] vs[i]) by {
        coalesced_at(rs, vs, 0, i);
    }
    if forall|j: int| 0 <= j < vs.len() ==> vs[j] is Null {
        coalesced_at(rs, vs, 0, vs.len() as int);
    }
}

proof fn coalesced_at(rs: Seq<Result<ValueV, ErrorV>>, vs: Seq<ValueV>, k: int, i: int)
    requires
        rs.len() == vs.len(),
        0 <= k <= i <= vs.len(),
        forall|j: int| 0 <= j < vs.len() ==> #[trigger] rs[j] == Ok::<ValueV, ErrorV>(vs[j]),
        forall|j: int| k <= j < i ==> vs[j] is Null,
        i < vs.len() ==> vs[i] !is Null,
    ensures
        eval::coalesced(rs, k) == Ok::<ValueV, ErrorV>(
            if i < vs.len() {
                vs[i]
            } else {
                ValueV::Null
            },
        ),
    decreases i - k,
{
    if k < i {
        assert(rs[k] == Ok::<ValueV, ErrorV>(vs[k]));
        coalesced_at(rs, vs, k + 1, i);
    } else if k < vs.len() {
        assert(rs[k] == Ok::<ValueV, ErrorV>(vs[k]));
    }
}

/// A CASE without an operand gives the result of its first true condition, at `i`, or that of ELSE
/// where none is true, or NULL where there is no ELSE.
pub proof fn case_gives_the_first_true_result(
    conditions: Seq<ExprV>,
    results: Seq<ExprV>,
    else_result: Option<Box<ExprV>>,
    bs: Seq<bool>,
    i: int,
    row: Seq<ValueV>,
    s: SchemaV,
    known: Seq<(QuestionV, AnswerV)>,
)
    requires
        conditions.len() == results.len(),
        conditions.len() == bs.len(),
        forall|j: int| 0 <= j < bs.len() ==> is_worth(#[trigger] conditions[j], ValueV::Bool(bs[j]), row, s, known),
        0 <= i <= bs.len(),
        forall|j: int| 0 <= j < i ==> !bs[j],
        i < bs.len() ==> bs[i],
    ensures
        valued(ExprV::Case { operand: None, conditions, results, else_result }, row, s, known) == if i
            < bs.len() {
            valued(results[i], row, s, known)
        } else {
            match else_result {
                Some(x) => valued(*x, row, s, known),
                None => Ok(ValueV::Null),
            }
        },
{
    case_node(None, conditions, results, else_result, row, s, known);
    let cs = valued_each(conditions, row, s, known);
    let rs = valued_each(results, row, s, known);
    assert forall|j: int| 0 <= j < bs.len() implies #[trigger] cs[j] == Ok::<ValueV, ErrorV>(ValueV::Bool(bs[j])) by {
        assert(is_worth(conditions[j], ValueV::Bool(bs[j]), row, s, known));
    }
    case_true_at(cs, bs, 0, i);
    if i < bs.len() {
        assert(rs[i] == valued(results[i], row, s, known));
    }
}

proof fn case_true_at(cs: Seq<Result<ValueV, ErrorV>>, bs: Seq<bool>, k: int, i: int)
    requires
        cs.len() == bs.len(),
        0 <= k <= i <= bs.len(),
        forall|j: int| 0 <= j < bs.len() ==> #[trigger] cs[j] == Ok::<ValueV, ErrorV>(ValueV::Bool(bs[j])),
        forall|j: int| k <= j < i ==> !bs[j],
        i < bs.len() ==> bs[i],
    ensures
        eval::case_true(cs, k) == Ok::<Option<int>, ErrorV>(
            if i < bs.len() {
                Some(i)
            } else {
                None
            },
        ),
    decreases i - k,
{
    if k < bs.len() {
        assert(cs[k] == Ok::<ValueV, ErrorV>(ValueV::Bool(bs[k])));
        if k < i {
            case_true_at(cs, bs, k + 1, i);
        }
    }
}

/// A CASE with an operand gives the result of the first condition that equals it, at `i`, or that of
/// ELSE where none does, or NULL where there is no ELSE.
pub proof fn case_gives_the_first_equal_result(
    operand: ExprV,
    conditions: Seq<ExprV>,
    results: Seq<ExprV>,
    else_result: Option<Box<ExprV>>,
    a: i64,
    vs: Seq<i64>,
    i: int,
    row: Seq<ValueV>,
    s: SchemaV,
    known: Seq<(QuestionV, AnswerV)>,
)
    requires
        conditions.len() == results.len(),
        conditions.len() == vs.len(),
        is_worth(operand, ValueV::Int(a), row, s, known),
        forall|j: int| 0 <= j < vs.len() ==> is_worth(#[trigger] conditions[j], ValueV::Int(vs[j]), row, s, known),
        0 <= i <= vs.len(),
        forall|j: int| 0 <= j < i ==> vs[j] != a,
        i < vs.len() ==> vs[i] == a,
    ensures
        valued(
            ExprV::Case { operand: Some(Box::new(operand)), conditions, results, else_result },
            row,
            s,
            known,
        ) == if i < vs.len() {
            valued(results[i], row, s, known)
        } else {
            match else_result {
                Some(x) => valued(*x, row, s, known),
                None => Ok(ValueV::Null),
            }
        },
{
    case_node(Some(Box::new(operand)), conditions, results, else_result, row, s, known);
    let cs = valued_each(conditions, row, s, known);
    let rs = valued_each(results, row, s, known);
    assert forall|j: int| 0 <= j < vs.len() implies #[trigger] cs[j] == Ok::<ValueV, ErrorV>(ValueV::Int(vs[j])) by {
        assert(is_worth(conditions[j], ValueV::Int(vs[j]), row, s, known));
    }
    case_equal_at(a, cs, vs, 0, i, known);
    if i < vs.len() {
        assert(rs[i] == valued(results[i], row, s, known));
    }
}

proof fn case_equal_at(
    a: i64,
    cs: Seq<Result<ValueV, ErrorV>>,
    vs: Seq<i64>,
    k: int,
    i: int,
    known: Seq<(QuestionV, AnswerV)>,
)
    requires
        cs.len() == vs.len(),
        0 <= k <= i <= vs.len(),
        forall|j: int| 0 <= j < vs.len() ==> #[trigger] cs[j] == Ok::<ValueV, ErrorV>(ValueV::Int(vs[j])),
        forall|j: int| k <= j < i ==> vs[j] != a,
        i < vs.len() ==> vs[i] == a,
    ensures
        eval::case_equal(ValueV::Int(a), cs, k, known) == Ok::<Option<int>, ErrorV>(
            if i < vs.len() {
                Some(i)
            } else {
                None
            },
        ),
    decreases i - k,
{
    if k < vs.len() {
        assert(cs[k] == Ok::<ValueV, ErrorV>(ValueV::Int(vs[k])));
        if k < i {
            case_equal_at(a, cs, vs, k + 1, i, known);
        }
    }
}

/// IN is true where `=` is true of some value of the list, otherwise NULL where one is NULL, and
/// otherwise false.
pub proof fn in_is_equality_with_some_value(
    e: ExprV,
    list: Seq<ExprV>,
    v: ValueV,
    vs: Seq<ValueV>,
    row: Seq<ValueV>,
    s: SchemaV,
    known: Seq<(QuestionV, AnswerV)>,
)
    requires
        list.len() == vs.len(),
        v !is Null,
        is_worth(e, v, row, s, known),
        forall|i: int|
            0 <= i < list.len() ==> is_worth(#[trigger] list[i], vs[i], row, s, known) && (vs[i] is Null || operated(
                e,
                Operator::Eq,
                list[i],
                row,
                s,
                known,
            ) is Ok),
    ensures
        ({
            let x = valued(ExprV::InList { expr: Box::new(e), list }, row, s, known);
            let equal = |i: int| operated(e, Operator::Eq, list[i], row, s, known) == Ok::<ValueV, ErrorV>(ValueV::Bool(true));
            &&& (x == Ok::<ValueV, ErrorV>(ValueV::Bool(true))) == (exists|i: int| 0 <= i < list.len() && #[trigger] equal(i))
            &&& x != Ok::<ValueV, ErrorV>(ValueV::Bool(true)) ==> x == Ok::<ValueV, ErrorV>(
                if exists|i: int| 0 <= i < vs.len() && #[trigger] vs[i] is Null {
                    ValueV::Null
                } else {
                    ValueV::Bool(false)
                },
            )
        }),
{
    one_node(e, list, DataType::Int, row, s, known);
    let rs = valued_each(list, row, s, known);
    let equal = |i: int| operated(e, Operator::Eq, list[i], row, s, known) == Ok::<ValueV, ErrorV>(ValueV::Bool(true));
    assert forall|i: int| 0 <= i < vs.len() implies #[trigger] rs[i] == Ok::<ValueV, ErrorV>(vs[i]) && (vs[i] !is Null ==> (
    eval::comparison(v, vs[i], known) is Ok && equal(i) == (eval::comparison(v, vs[i], known)->Ok_0 == Order::Equal)))
        && (vs[i] is Null ==> !equal(i)) by {
        assert(is_worth(list[i], vs[i], row, s, known));
        operator_node(e, Operator::Eq, list[i], row, s, known);
    }
    in_list_at(v, rs, vs, 0, false, equal, known);
}

proof fn in_list_at(
    v: ValueV,
    rs: Seq<Result<ValueV, ErrorV>>,
    vs: Seq<ValueV>,
    k: int,
    seen: bool,
    equal: spec_fn(int) -> bool,
    known: Seq<(QuestionV, AnswerV)>,
)
    requires
        rs.len() == vs.len(),
        0 <= k <= vs.len(),
        forall|i: int|
            0 <= i < vs.len() ==> #[trigger] rs[i] == Ok::<ValueV, ErrorV>(vs[i]) && (vs[i] !is Null ==> (
            eval::comparison(v, vs[i], known) is Ok && equal(i) == (eval::comparison(v, vs[i], known)->Ok_0 == Order::Equal)))
                && (vs[i] is Null ==> !equal(i)),
    ensures
        ({
            let x = eval::in_list(v, rs, k, seen, known);
            &&& (x == Ok::<ValueV, ErrorV>(ValueV::Bool(true))) == (exists|i: int| k <= i < vs.len() && #[trigger] equal(i))
            &&& x != Ok::<ValueV, ErrorV>(ValueV::Bool(true)) ==> x == Ok::<ValueV, ErrorV>(
                if seen || exists|i: int| k <= i < vs.len() && #[trigger] vs[i] is Null {
                    ValueV::Null
                } else {
                    ValueV::Bool(false)
                },
            )
        }),
    decreases vs.len() - k,
{
    if k < vs.len() {
        assert(rs[k] == Ok::<ValueV, ErrorV>(vs[k]));
        if vs[k] is Null {
            in_list_at(v, rs, vs, k + 1, true, equal, known);
            assert(!equal(k));
        } else if equal(k) {
            assert(exists|i: int| k <= i < vs.len() && #[trigger] equal(i));
        } else {
            in_list_at(v, rs, vs, k + 1, seen, equal, known);
            assert forall|i: int| k <= i < vs.len() && #[trigger] vs[i] is Null implies k + 1 <= i by {}
            assert forall|i: int| k <= i < vs.len() && #[trigger] equal(i) implies k + 1 <= i by {}
        }
    }
}

// ---------------------------------------------------------------- truth

/// A truth value by its rank: false, unknown, true.
pub open spec fn rank(v: ValueV) -> int {
    match v {
        ValueV::Bool(true) => 2,
        ValueV::Bool(false) => 0,
        _ => 1,
    }
}

/// Whether a value is true, false or unknown.
pub open spec fn is_truth(v: ValueV) -> bool {
    v is Bool || v is Null
}

/// AND gives the lesser of two truth values, OR the greater one, and NOT turns the order round;
/// NULL is between false and true.
pub proof fn connectives_go_by_rank(
    l: ExprV,
    r: ExprV,
    a: ValueV,
    b: ValueV,
    row: Seq<ValueV>,
    s: SchemaV,
    known: Seq<(QuestionV, AnswerV)>,
)
    requires
        is_truth(a),
        is_truth(b),
        is_worth(l, a, row, s, known),
        is_worth(r, b, row, s, known),
    ensures
        operated(l, Operator::And, r, row, s, known) matches Ok(v) && is_truth(v) && rank(v) == if rank(a) <= rank(b) {
            rank(a)
        } else {
            rank(b)
        },
        operated(l, Operator::Or, r, row, s, known) matches Ok(v) && is_truth(v) && rank(v) == if rank(a) <= rank(b) {
            rank(b)
        } else {
            rank(a)
        },
        valued(ExprV::Not(Box::new(l)), row, s, known) matches Ok(v) && is_truth(v) && rank(v) == 2 - rank(a),
{
    operator_node(l, Operator::And, r, row, s, known);
    operator_node(l, Operator::Or, r, row, s, known);
    one_node(l, Seq::empty(), DataType::Int, row, s, known);
}

/// IS NULL is true of NULL and false of every other value.
pub proof fn is_null_tells_null(
    e: ExprV,
    v: ValueV,
    row: Seq<ValueV>,
    s: SchemaV,
    known: Seq<(QuestionV, AnswerV)>,
)
    requires
        is_worth(e, v, row, s, known),
    ensures
        valued(ExprV::IsNull(Box::new(e)), row, s, known) == Ok::<ValueV, ErrorV>(
            ValueV::Bool(v == ValueV::Null),
        ),
{
    one_node(e, Seq::empty(), DataType::Int, row, s, known);
}

/// An operator other than AND and OR gives NULL where a side is NULL.
pub proof fn operators_on_null_give_null(
    l: ExprV,
    op: Operator,
    r: ExprV,
    a: ValueV,
    b: ValueV,
    row: Seq<ValueV>,
    s: SchemaV,
    known: Seq<(QuestionV, AnswerV)>,
)
    requires
        is_worth(l, a, row, s, known),
        is_worth(r, b, row, s, known),
        a is Null || b is Null,
        op != Operator::And && op != Operator::Or,
    ensures
        operated(l, op, r, row, s, known) == Ok::<ValueV, ErrorV>(ValueV::Null),
{
    operator_node(l, op, r, row, s, known);
}

// ---------------------------------------------------------------- comparisons

/// Comparisons of integers are those of the numbers.
pub proof fn integers_compare_as_numbers(
    l: ExprV,
    r: ExprV,
    a: i64,
    b: i64,
    row: Seq<ValueV>,
    s: SchemaV,
    known: Seq<(QuestionV, AnswerV)>,
)
    requires
        is_worth(l, ValueV::Int(a), row, s, known),
        is_worth(r, ValueV::Int(b), row, s, known),
    ensures
        operated(l, Operator::Eq, r, row, s, known) == Ok::<ValueV, ErrorV>(ValueV::Bool(a == b)),
        operated(l, Operator::NotEq, r, row, s, known) == Ok::<ValueV, ErrorV>(ValueV::Bool(a != b)),
        operated(l, Operator::Lt, r, row, s, known) == Ok::<ValueV, ErrorV>(ValueV::Bool(a < b)),
        operated(l, Operator::LtEq, r, row, s, known) == Ok::<ValueV, ErrorV>(ValueV::Bool(a <= b)),
        operated(l, Operator::Gt, r, row, s, known) == Ok::<ValueV, ErrorV>(ValueV::Bool(a > b)),
        operated(l, Operator::GtEq, r, row, s, known) == Ok::<ValueV, ErrorV>(ValueV::Bool(a >= b)),
{
    operator_node(l, Operator::Eq, r, row, s, known);
    operator_node(l, Operator::NotEq, r, row, s, known);
    operator_node(l, Operator::Lt, r, row, s, known);
    operator_node(l, Operator::LtEq, r, row, s, known);
    operator_node(l, Operator::Gt, r, row, s, known);
    operator_node(l, Operator::GtEq, r, row, s, known);
}

/// Exactly one of `<`, `=` and `>` is true of two values that compare, the others follow from
/// these, and the sides can be exchanged.
pub proof fn comparisons_exclude_one_another(
    l: ExprV,
    r: ExprV,
    a: ValueV,
    b: ValueV,
    row: Seq<ValueV>,
    s: SchemaV,
    known: Seq<(QuestionV, AnswerV)>,
)
    requires
        is_worth(l, a, row, s, known),
        is_worth(r, b, row, s, known),
        a !is Null,
        b !is Null,
        operated(l, Operator::Eq, r, row, s, known) is Ok,
    ensures
        ({
            let is = |op: Operator| operated(l, op, r, row, s, known) == Ok::<ValueV, ErrorV>(ValueV::Bool(true));
            let is_not = |op: Operator| operated(l, op, r, row, s, known) == Ok::<ValueV, ErrorV>(ValueV::Bool(false));
            &&& is(Operator::Lt) && is_not(Operator::Eq) && is_not(Operator::Gt) || is_not(Operator::Lt) && is(
                Operator::Eq,
            ) && is_not(Operator::Gt) || is_not(Operator::Lt) && is_not(Operator::Eq) && is(Operator::Gt)
            &&& is(Operator::NotEq) == is_not(Operator::Eq)
            &&& is_not(Operator::NotEq) == is(Operator::Eq)
            &&& is(Operator::LtEq) == is_not(Operator::Gt)
            &&& is_not(Operator::LtEq) == is(Operator::Gt)
            &&& is(Operator::GtEq) == is_not(Operator::Lt)
            &&& is_not(Operator::GtEq) == is(Operator::Lt)
            &&& operated(r, Operator::Gt, l, row, s, known) == operated(l, Operator::Lt, r, row, s, known)
            &&& operated(r, Operator::Eq, l, row, s, known) == operated(l, Operator::Eq, r, row, s, known)
        }),
{
    operator_node(l, Operator::Eq, r, row, s, known);
    operator_node(l, Operator::NotEq, r, row, s, known);
    operator_node(l, Operator::Lt, r, row, s, known);
    operator_node(l, Operator::LtEq, r, row, s, known);
    operator_node(l, Operator::Gt, r, row, s, known);
    operator_node(l, Operator::GtEq, r, row, s, known);
    operator_node(r, Operator::Gt, l, row, s, known);
    operator_node(r, Operator::Eq, l, row, s, known);
    crate::kept::comparison_reverses(a, b, known);
    let o = eval::comparison(a, b, known);
    assert(o is Ok);
}

/// Two texts are equal where they have the same characters; otherwise the first difference
/// decides, and a text comes after its beginnings.
pub proof fn texts_compare_by_the_first_difference(
    l: ExprV,
    r: ExprV,
    a: Seq<char>,
    b: Seq<char>,
    k: int,
    row: Seq<ValueV>,
    s: SchemaV,
    known: Seq<(QuestionV, AnswerV)>,
)
    requires
        is_worth(l, ValueV::String(a), row, s, known),
        is_worth(r, ValueV::String(b), row, s, known),
        0 <= k <= a.len(),
        k <= b.len(),
        a.take(k) == b.take(k),
    ensures
        operated(l, Operator::Eq, r, row, s, known) == Ok::<ValueV, ErrorV>(ValueV::Bool(a == b)),
        k < a.len() && k < b.len() && a[k] != b[k] ==> operated(l, Operator::Lt, r, row, s, known) == Ok::<ValueV, ErrorV>(
            ValueV::Bool((a[k] as int) < b[k] as int),
        ),
        k == a.len() ==> operated(l, Operator::Lt, r, row, s, known) == Ok::<ValueV, ErrorV>(
            ValueV::Bool(a.len() < b.len()),
        ),
{
    operator_node(l, Operator::Eq, r, row, s, known);
    operator_node(l, Operator::Lt, r, row, s, known);
    texts_order(a, b, k);
}

proof fn texts_order(a: Seq<char>, b: Seq<char>, k: int)
    requires
        0 <= k <= a.len(),
        k <= b.len(),
        a.take(k) == b.take(k),
    ensures
        (value::text_order(a, b) == Order::Equal) == (a == b),
        k < a.len() && k < b.len() && a[k] != b[k] ==> (value::text_order(a, b) == Order::Less) == ((a[k] as int) < b[k] as int),
        k == a.len() ==> (value::text_order(a, b) == Order::Less) == (a.len() < b.len()),
{
    let x = a.take(k);
    let y = b.take(k);
    assert forall|j: int| 0 <= j < k implies a[j] == b[j] by {
        assert(x[j] == a[j] && y[j] == b[j]);
    }
    texts_after(a, b, 0, k);
    texts_equal(a, b, 0);
    if value::text_order(a, b) == Order::Equal {
        assert(a =~= b);
    }
}

proof fn texts_after(a: Seq<char>, b: Seq<char>, i: int, k: int)
    requires
        0 <= i <= k <= a.len(),
        k <= b.len(),
        forall|j: int| i <= j < k ==> a[j] == b[j],
    ensures
        value::text_order_from(a, b, i) == value::text_order_from(a, b, k),
    decreases k - i,
{
    if i < k {
        texts_after(a, b, i + 1, k);
    }
}

proof fn texts_equal(a: Seq<char>, b: Seq<char>, i: int)
    requires
        0 <= i <= a.len(),
        i <= b.len(),
    ensures
        value::text_order_from(a, b, i) == Order::Equal ==> a.len() == b.len() && forall|j: int|
            i <= j < a.len() ==> a[j] == b[j],
        (a.len() == b.len() && forall|j: int| i <= j < a.len() ==> a[j] == b[j]) ==> value::text_order_from(a, b, i)
            == Order::Equal,
    decreases a.len() + b.len() - i,
{
    if i < a.len() && i < b.len() && a[i] == b[i] {
        texts_equal(a, b, i + 1);
    }
}

/// Decimals compare by value: `a / 10^m` and `b / 10^n` as `a * 10^n` and `b * 10^m`.
pub proof fn decimals_compare_by_value(
    l: ExprV,
    r: ExprV,
    a: value::Decimal,
    b: value::Decimal,
    row: Seq<ValueV>,
    s: SchemaV,
    known: Seq<(QuestionV, AnswerV)>,
)
    requires
        is_worth(l, ValueV::Decimal(a), row, s, known),
        is_worth(r, ValueV::Decimal(b), row, s, known),
    ensures
        operated(l, Operator::Lt, r, row, s, known) == Ok::<ValueV, ErrorV>(
            ValueV::Bool(
                a.numerator() * value::pow10(b.digits() as nat) < b.numerator() * value::pow10(a.digits() as nat),
            ),
        ),
        operated(l, Operator::Eq, r, row, s, known) == Ok::<ValueV, ErrorV>(
            ValueV::Bool(
                a.numerator() * value::pow10(b.digits() as nat) == b.numerator() * value::pow10(a.digits() as nat),
            ),
        ),
{
    operator_node(l, Operator::Eq, r, row, s, known);
    operator_node(l, Operator::Lt, r, row, s, known);
}

// ---------------------------------------------------------------- arithmetic

/// Sums, differences and products of integers are those of the numbers, and an error where they
/// are out of range.
pub proof fn integer_arithmetic_is_exact(
    l: ExprV,
    r: ExprV,
    a: i64,
    b: i64,
    row: Seq<ValueV>,
    s: SchemaV,
    known: Seq<(QuestionV, AnswerV)>,
)
    requires
        is_worth(l, ValueV::Int(a), row, s, known),
        is_worth(r, ValueV::Int(b), row, s, known),
    ensures
        match operated(l, Operator::Add, r, row, s, known) {
            Ok(v) => v matches ValueV::Int(n) && n == a + b,
            Err(x) => x.kind == ErrorKind::IntegerOverflow && !(i64::MIN <= a + b <= i64::MAX),
        },
        match operated(l, Operator::Sub, r, row, s, known) {
            Ok(v) => v matches ValueV::Int(n) && n == a - b,
            Err(x) => x.kind == ErrorKind::IntegerOverflow && !(i64::MIN <= a - b <= i64::MAX),
        },
        match operated(l, Operator::Mul, r, row, s, known) {
            Ok(v) => v matches ValueV::Int(n) && n == a * b,
            Err(x) => x.kind == ErrorKind::IntegerOverflow && !(i64::MIN <= a * b <= i64::MAX),
        },
{
    operator_node(l, Operator::Add, r, row, s, known);
    operator_node(l, Operator::Sub, r, row, s, known);
    operator_node(l, Operator::Mul, r, row, s, known);
}

/// The quotient of two integers leaves a rest smaller than the divisor, with the sign of the
/// dividend. A division by zero is an error.
pub proof fn integer_quotient_leaves_a_small_rest(
    l: ExprV,
    r: ExprV,
    a: i64,
    b: i64,
    row: Seq<ValueV>,
    s: SchemaV,
    known: Seq<(QuestionV, AnswerV)>,
)
    requires
        is_worth(l, ValueV::Int(a), row, s, known),
        is_worth(r, ValueV::Int(b), row, s, known),
    ensures
        match operated(l, Operator::Div, r, row, s, known) {
            Ok(v) => v matches ValueV::Int(q) && b != 0 && {
                let rest = a - q * b;
                &&& -magnitude(b as int) < rest < magnitude(b as int)
                &&& rest == 0 || (rest < 0) == (a < 0)
            },
            Err(x) => x.kind == (if b == 0 {
                ErrorKind::DivisionByZero
            } else {
                ErrorKind::IntegerOverflow
            }) && (b == 0 || a == i64::MIN && b == -1),
        },
{
    operator_node(l, Operator::Div, r, row, s, known);
    if b != 0 {
        let x = magnitude(a as int);
        let y = magnitude(b as int);
        let q = eval::int_quotient(a as int, b as int);
        vstd::arithmetic::div_mod::lemma_fundamental_div_mod(x, y);
        vstd::arithmetic::div_mod::lemma_mod_bound(x, y);
        let m = x / y;
        assert(x - m * y == x % y) by (nonlinear_arith)
            requires
                x == y * m + x % y,
        ;
        assert(0 <= m <= x) by (nonlinear_arith)
            requires
                m == x / y,
                y >= 1,
                x >= 0,
        ;
        if (a < 0) == (b < 0) {
            assert(q == m);
            if a < 0 {
                assert(q * b == -(m * y)) by (nonlinear_arith)
                    requires
                        q == m,
                        b == -y,
                ;
            } else {
                assert(q * b == m * y);
            }
            if m > i64::MAX {
                assert(a == i64::MIN);
                assert(y == 1) by (nonlinear_arith)
                    requires
                        m * y <= x,
                        m == x,
                        x > 0,
                        y >= 1,
                ;
            }
        } else {
            assert(q == -m);
            if a < 0 {
                assert(q * b == -(m * y)) by (nonlinear_arith)
                    requires
                        q == -m,
                        b == y,
                ;
            } else {
                assert(q * b == m * y) by (nonlinear_arith)
                    requires
                        q == -m,
                        b == -y,
                ;
            }
        }
    }
}

/// The magnitude of a number.
pub open spec fn magnitude(n: int) -> int {
    if n < 0 {
        -n
    } else {
        n
    }
}

/// ABS of an integer is the number or its opposite, and not negative; of a float it is the float
/// without its sign.
pub proof fn abs_drops_the_sign(
    name: Seq<char>,
    arg: ExprV,
    v: ValueV,
    row: Seq<ValueV>,
    s: SchemaV,
    known: Seq<(QuestionV, AnswerV)>,
)
    requires
        text::uppercased(name) == "ABS"@,
        is_worth(arg, v, row, s, known),
    ensures
        match (v, called(name, seq![arg], row, s, known)) {
            (ValueV::Int(i), Ok(w)) => w matches ValueV::Int(n) && n >= 0 && (n == i || n == -i),
            (ValueV::Int(i), Err(x)) => i == i64::MIN && x.kind == ErrorKind::IntegerOverflow,
            (ValueV::Float(f), w) => w matches Ok(ValueV::Float(g)) && g < value::SIGN_BIT && (g == f || g == f
                - value::SIGN_BIT),
            _ => true,
        },
{
    names_differ();
    call_node(name, seq![arg], row, s, known);
    assert(valued_each(seq![arg], row, s, known)[0] == Ok::<ValueV, ErrorV>(v));
}

// ---------------------------------------------------------------- casts

/// A cast to the type that a value has gives the value, and a cast of NULL gives NULL.
pub proof fn casting_to_the_same_type_keeps_the_value(
    e: ExprV,
    v: ValueV,
    ty: DataType,
    row: Seq<ValueV>,
    s: SchemaV,
    known: Seq<(QuestionV, AnswerV)>,
)
    requires
        is_worth(e, v, row, s, known),
        crate::logical::value_type(v) == ty || v is Null,
    ensures
        valued(ExprV::Cast { expr: Box::new(e), target_type: ty }, row, s, known) == Ok::<ValueV, ErrorV>(v),
{
    one_node(e, Seq::empty(), ty, row, s, known);
}

/// An integer that is cast to a decimal or to a text and back is the same integer.
pub proof fn integers_survive_casts(
    e: ExprV,
    i: i64,
    row: Seq<ValueV>,
    s: SchemaV,
    known: Seq<(QuestionV, AnswerV)>,
)
    requires
        is_worth(e, ValueV::Int(i), row, s, known),
    ensures
        ({
            let there = ExprV::Cast { expr: Box::new(e), target_type: DataType::Decimal };
            valued(ExprV::Cast { expr: Box::new(there), target_type: DataType::Int }, row, s, known) == Ok::<
                ValueV,
                ErrorV,
            >(ValueV::Int(i))
        }),
{
    one_node(e, Seq::empty(), DataType::Decimal, row, s, known);
    one_node(
        ExprV::Cast { expr: Box::new(e), target_type: DataType::Decimal },
        Seq::empty(),
        DataType::Int,
        row,
        s,
        known,
    );
    value::Decimal::lemma_made((i as i128, i < 0, 0));
    let d = value::Decimal::of(i as i128, 0);
    assert(value::pow10(0) == 1);
    assert(d.numerator() == i && d.digits() == 0);
    assert(value::decimal_trunc(i as int, 0) == i);
}

/// A decimal that is cast to an integer is cut at the decimal point: what is lost is less than one,
/// and lies toward zero.
pub proof fn decimals_are_cut_toward_zero(
    e: ExprV,
    d: value::Decimal,
    row: Seq<ValueV>,
    s: SchemaV,
    known: Seq<(QuestionV, AnswerV)>,
)
    requires
        is_worth(e, ValueV::Decimal(d), row, s, known),
    ensures
        valued(ExprV::Cast { expr: Box::new(e), target_type: DataType::Int }, row, s, known) matches Ok(v) ==> {
            let one = value::pow10(d.digits() as nat);
            &&& v is Int
            &&& -one < d.numerator() - v->Int_0 * one < one
            &&& magnitude(v->Int_0 * one) <= magnitude(d.numerator() as int)
        },
{
    one_node(e, Seq::empty(), DataType::Int, row, s, known);
    let one = value::pow10(d.digits() as nat);
    tens_are_positive(d.digits() as nat);
    let n = d.numerator() as int;
    let x = magnitude(n);
    vstd::arithmetic::div_mod::lemma_fundamental_div_mod(x, one);
    vstd::arithmetic::div_mod::lemma_mod_bound(x, one);
    let q = x / one;
    assert(q * one == x - x % one) by (nonlinear_arith)
        requires
            x == one * q + x % one,
    ;
    assert((-q) * one == -(q * one)) by (nonlinear_arith);
    assert(q * one >= 0) by (nonlinear_arith)
        requires
            q == x / one,
            x >= 0,
            one >= 1,
    ;
}

proof fn tens_are_positive(n: nat)
    ensures
        value::pow10(n) >= 1,
    decreases n,
{
    if n > 0 {
        tens_are_positive((n - 1) as nat);
    }
}

// ---------------------------------------------------------------- patterns

/// A pattern without wildcards matches the text with the same characters and no other; `%` alone
/// matches every text, and `_` alone every text of one character.
pub proof fn patterns_match_by_their_characters(t: Seq<char>, pattern: Seq<char>)
    ensures
        (forall|i: int| 0 <= i < pattern.len() ==> pattern[i] != '%' && pattern[i] != '_') ==> eval::like(t, pattern) == (
        t == pattern),
        eval::like(t, seq!['%']),
        eval::like(t, seq!['_']) == (t.len() == 1),
    decreases pattern.len(), t.len(),
{
    reveal_with_fuel(eval::like, 2);
    assert(seq!['_'].skip(1) =~= Seq::<char>::empty());
    assert(seq!['%'].skip(1) =~= Seq::<char>::empty());
    any_run_matches(t);
    if forall|i: int| 0 <= i < pattern.len() ==> pattern[i] != '%' && pattern[i] != '_' {
        if pattern.len() > 0 {
            if t.len() > 0 {
                let rest = pattern.skip(1);
                assert forall|i: int| 0 <= i < rest.len() implies rest[i] != '%' && rest[i] != '_' by {
                    assert(rest[i] == pattern[i + 1]);
                }
                patterns_match_by_their_characters(t.skip(1), rest);
                if t[0] == pattern[0] && t.skip(1) == rest {
                    assert(t =~= seq![t[0]] + t.skip(1));
                    assert(pattern =~= seq![pattern[0]] + rest);
                }
            }
        } else {
            assert((t.len() == 0) == (t =~= pattern));
        }
    }
}

proof fn any_run_matches(t: Seq<char>)
    ensures
        eval::like(t, seq!['%']),
    decreases t.len(),
{
    reveal_with_fuel(eval::like, 2);
    assert(seq!['%'].skip(1) =~= Seq::<char>::empty());
    if t.len() > 0 {
        any_run_matches(t.skip(1));
    }
}

/// A pattern that begins with `%` matches every text that ends in one that the rest matches.
pub proof fn percent_skips_any_beginning(t: Seq<char>, pattern: Seq<char>, k: int)
    requires
        0 <= k <= t.len(),
        eval::like(t.skip(k), pattern),
    ensures
        eval::like(t, seq!['%'] + pattern),
    decreases k,
{
    let p = seq!['%'] + pattern;
    assert(p.skip(1) =~= pattern);
    assert(t.skip(0) =~= t);
    if k > 0 {
        assert(t.skip(1).skip(k - 1) =~= t.skip(k));
        percent_skips_any_beginning(t.skip(1), pattern, k - 1);
    }
}

/// A pattern that begins with `%` matches a text where the rest matches an end of it, and no other.
pub proof fn percent_leaves_an_end_to_match(t: Seq<char>, pattern: Seq<char>) -> (k: int)
    requires
        eval::like(t, seq!['%'] + pattern),
    ensures
        0 <= k <= t.len(),
        eval::like(t.skip(k), pattern),
    decreases t.len(),
{
    let p = seq!['%'] + pattern;
    assert(p.skip(1) =~= pattern);
    assert(t.skip(0) =~= t);
    if eval::like(t, pattern) {
        0
    } else {
        let k = percent_leaves_an_end_to_match(t.skip(1), pattern);
        assert(t.skip(1).skip(k) =~= t.skip(k + 1));
        k + 1
    }
}

/// A pattern that begins with `_` takes one character, whichever it is, and one that begins with any
/// other character takes that one; the rest of the pattern matches the rest of the text.
pub proof fn patterns_take_one_character_at_a_time(t: Seq<char>, c: char, pattern: Seq<char>)
    requires
        c != '%',
    ensures
        eval::like(t, seq![c] + pattern) == (t.len() > 0 && (c == '_' || t[0] == c) && eval::like(t.skip(1), pattern)),
{
    let p = seq![c] + pattern;
    assert(p.skip(1) =~= pattern);
    assert(p[0] == c);
}

/// The operator of arithmetic for which floats are asked.
pub open spec fn float_operator(op: FloatOp) -> Operator {
    match op {
        FloatOp::Add => Operator::Add,
        FloatOp::Sub => Operator::Sub,
        FloatOp::Mul => Operator::Mul,
        FloatOp::Div => Operator::Div,
    }
}

/// The sum, the difference, the product and the quotient of two floats are the floats that are
/// answered for just these two, the left one first.
pub proof fn floats_are_reckoned_as_they_stand(
    l: ExprV,
    op: FloatOp,
    r: ExprV,
    a: u64,
    b: u64,
    f: u64,
    row: Seq<ValueV>,
    s: SchemaV,
    known: Seq<(QuestionV, AnswerV)>,
)
    requires
        is_worth(l, ValueV::Float(a), row, s, known),
        is_worth(r, ValueV::Float(b), row, s, known),
        facts::answer_to(known, QuestionV::FloatArithmetic { op, left: a, right: b }) == Some(AnswerV::Float(f)),
        op == FloatOp::Div ==> !eval::zero_divisor(ValueV::Float(b)),
    ensures
        operated(l, float_operator(op), r, row, s, known) == Ok::<ValueV, ErrorV>(ValueV::Float(f)),
{
    operator_node(l, float_operator(op), r, row, s, known);
}

/// An integer beside a float is first made the float that is answered for it.
pub proof fn integers_become_floats_beside_floats(
    l: ExprV,
    op: FloatOp,
    r: ExprV,
    a: i64,
    g: u64,
    b: u64,
    f: u64,
    row: Seq<ValueV>,
    s: SchemaV,
    known: Seq<(QuestionV, AnswerV)>,
)
    requires
        is_worth(l, ValueV::Int(a), row, s, known),
        is_worth(r, ValueV::Float(b), row, s, known),
        facts::answer_to(known, QuestionV::FloatOfInt(a)) == Some(AnswerV::Float(g)),
        facts::answer_to(known, QuestionV::FloatArithmetic { op, left: g, right: b }) == Some(AnswerV::Float(f)),
        op == FloatOp::Div ==> !eval::zero_divisor(ValueV::Float(b)),
    ensures
        operated(l, float_operator(op), r, row, s, known) == Ok::<ValueV, ErrorV>(ValueV::Float(f)),
{
    operator_node(l, float_operator(op), r, row, s, known);
}

/// What the parts of a decimal number are worth: an error, or the decimal with these parts.
pub open spec fn is_decimal(r: Result<ValueV, ErrorV>, parts: Option<(i128, bool, u32)>) -> bool {
    match (r, parts) {
        (Ok(ValueV::Decimal(d)), Some(p)) => d.parts() == p,
        (Err(_), None) => true,
        _ => false,
    }
}

/// The sum, the difference, the product and the quotient of two decimals are those of their parts,
/// the left one first, and an error where there is none. Nothing is divided by zero.
pub proof fn decimals_are_reckoned_exactly(
    l: ExprV,
    r: ExprV,
    a: value::Decimal,
    b: value::Decimal,
    row: Seq<ValueV>,
    s: SchemaV,
    known: Seq<(QuestionV, AnswerV)>,
)
    requires
        is_worth(l, ValueV::Decimal(a), row, s, known),
        is_worth(r, ValueV::Decimal(b), row, s, known),
    ensures
        is_decimal(operated(l, Operator::Add, r, row, s, known), value::decimal_sum(a.parts(), b.parts())),
        is_decimal(operated(l, Operator::Sub, r, row, s, known), value::decimal_difference(a.parts(), b.parts())),
        is_decimal(operated(l, Operator::Mul, r, row, s, known), value::decimal_product(a.parts(), b.parts())),
        b.numerator() != 0 ==> is_decimal(
            operated(l, Operator::Div, r, row, s, known),
            value::decimal_quotient(a.parts(), b.parts()),
        ),
        b.numerator() == 0 ==> operated(l, Operator::Div, r, row, s, known) is Err,
{
    broadcast use value::Decimal::lemma_made;

    operator_node(l, Operator::Add, r, row, s, known);
    operator_node(l, Operator::Sub, r, row, s, known);
    operator_node(l, Operator::Mul, r, row, s, known);
    operator_node(l, Operator::Div, r, row, s, known);
}

/// An integer beside a decimal counts as the decimal without digits after the point that it is when
/// it is converted, on either side.
pub proof fn integers_become_decimals_beside_decimals(
    l: ExprV,
    op: FloatOp,
    r: ExprV,
    a: i64,
    b: value::Decimal,
    row: Seq<ValueV>,
    s: SchemaV,
    known: Seq<(QuestionV, AnswerV)>,
)
    requires
        is_worth(l, ValueV::Int(a), row, s, known),
        is_worth(r, ValueV::Decimal(b), row, s, known),
    ensures
        match eval::cast(ValueV::Int(a), DataType::Decimal, known) {
            Ok(d) => {
                let c = ExprV::Literal(d);
                &&& d matches ValueV::Decimal(x) && x.numerator() == a && x.digits() == 0
                &&& operated(l, float_operator(op), r, row, s, known) == operated(c, float_operator(op), r, row, s, known)
                &&& operated(r, float_operator(op), l, row, s, known) == operated(r, float_operator(op), c, row, s, known)
            },
            Err(_) => false,
        },
{
    broadcast use value::Decimal::lemma_made;

    let d = eval::cast(ValueV::Int(a), DataType::Decimal, known)->Ok_0;
    let c = ExprV::Literal(d);
    assert(valued(c, row, s, known) == Ok::<ValueV, ErrorV>(d)) by {
        reveal(valued);
    }
    operator_node(l, float_operator(op), r, row, s, known);
    operator_node(r, float_operator(op), l, row, s, known);
    operator_node(c, float_operator(op), r, row, s, known);
    operator_node(r, float_operator(op), c, row, s, known);
}

/// A decimal beside a float is first made the float that is answered for it.
pub proof fn decimals_become_floats_beside_floats(
    l: ExprV,
    op: FloatOp,
    r: ExprV,
    a: value::Decimal,
    b: u64,
    g: u64,
    row: Seq<ValueV>,
    s: SchemaV,
    known: Seq<(QuestionV, AnswerV)>,
)
    requires
        is_worth(l, ValueV::Decimal(a), row, s, known),
        is_worth(r, ValueV::Float(b), row, s, known),
        facts::optional_float_fact(known, QuestionV::FloatOfDecimal(a)) == Ok::<Option<u64>, ErrorV>(Some(g)),
    ensures
        operated(l, float_operator(op), r, row, s, known) == operated(
            ExprV::Literal(ValueV::Float(g)),
            float_operator(op),
            r,
            row,
            s,
            known,
        ),
{
    let c = ExprV::Literal(ValueV::Float(g));
    assert(valued(c, row, s, known) == Ok::<ValueV, ErrorV>(ValueV::Float(g))) by {
        reveal(valued);
    }
    operator_node(l, float_operator(op), r, row, s, known);
    operator_node(c, float_operator(op), r, row, s, known);
}

} // verus!
