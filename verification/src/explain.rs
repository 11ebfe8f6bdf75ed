//! Plans as text.
//!
//! A plan is written as a list of parts. A part is a text, or a float whose text has to be
//! asked for; marks enclose what is quoted as a whole.

use crate::expr;
use crate::expr::{Expr, ExprV, Operator};
use crate::facts;
use crate::facts::{AnswerV, ErrorV, Facts, Question, QuestionV, SqlError};
use crate::logical;
use crate::logical::{
    AggregateExpr, AggregateV, FtsQuery, FtsQueryV, JoinType, LogicalPlan, PlanKey, PlanKeyV, PlanV, SetOpType,
};
use crate::point_get::{PointGetPlan, PointGetV};
use crate::statement;
use crate::text;
use crate::value;
use crate::value::{DataType, DbKey, DbValue, KeyV, Timestamp, ValueV};
use vstd::prelude::*;
use vstd::string::*;

verus! {

/// A part of a text that is being written.
#[derive(Debug, PartialEq)]
pub enum Part {
    Text(String),
    Float(u64),
    /// A float that is written as an integer where it is one.
    FloatText(u64),
    /// What follows, up to the end mark, is quoted as a whole.
    Open,
    Close,
}

/// The model of a part.
pub enum PartV {
    Text(Seq<char>),
    Float(u64),
    FloatText(u64),
    Open,
    Close,
}

impl View for Part {
    type V = PartV;

    open spec fn view(&self) -> PartV {
        match self {
            Part::Text(t) => PartV::Text(t@),
            Part::Float(f) => PartV::Float(*f),
            Part::FloatText(f) => PartV::FloatText(*f),
            Part::Open => PartV::Open,
            Part::Close => PartV::Close,
        }
    }
}

/// The models of parts.
pub open spec fn parts_view(s: Seq<Part>) -> Seq<PartV> {
    s.map_values(|p: Part| p@)
}

/// The parts with a text after them.
pub open spec fn said(acc: Seq<PartV>, t: Seq<char>) -> Seq<PartV> {
    acc.push(PartV::Text(t))
}

/// Adds a part.
pub(crate) fn add_part(out: &mut Vec<Part>, p: Part)
    ensures
        parts_view(final(out)@) == parts_view(old(out)@).push(p@),
{
    out.push(p);
    assert(parts_view(out@) =~= parts_view(old(out)@).push(p@));
}

/// Adds a text.
pub(crate) fn say(out: &mut Vec<Part>, t: &str)
    ensures
        parts_view(final(out)@) == said(parts_view(old(out)@), t@),
{
    add_part(out, Part::Text(t.to_owned()));
}

// ---------------------------------------------------------------- reading the parts

/// The text of parts from `i` on, after `acc` and, where a quoted text is open, what is in it
/// so far. A float is looked up.
pub open spec fn rendered_from(
    parts: Seq<PartV>,
    i: int,
    acc: Seq<char>,
    open: Option<Seq<char>>,
    known: Seq<(QuestionV, AnswerV)>,
) -> Result<Seq<char>, ErrorV>
    decreases parts.len() - i,
{
    if i >= parts.len() {
        Ok(acc)
    } else {
        match parts[i] {
            PartV::Text(t) => match open {
                Some(q) => rendered_from(parts, i + 1, acc, Some(q + t), known),
                None => rendered_from(parts, i + 1, acc + t, None, known),
            },
            PartV::Float(f) => match facts::text_fact(known, QuestionV::FloatShown(f)) {
                Err(e) => Err(e),
                Ok(t) => match open {
                    Some(q) => rendered_from(parts, i + 1, acc, Some(q + t), known),
                    None => rendered_from(parts, i + 1, acc + t, None, known),
                },
            },
            PartV::FloatText(f) => match facts::text_fact(known, QuestionV::FloatText(f)) {
                Err(e) => Err(e),
                Ok(t) => match open {
                    Some(q) => rendered_from(parts, i + 1, acc, Some(q + t), known),
                    None => rendered_from(parts, i + 1, acc + t, None, known),
                },
            },
            PartV::Open => rendered_from(parts, i + 1, acc, Some(Seq::empty()), known),
            PartV::Close => match open {
                Some(q) => rendered_from(parts, i + 1, acc + text::quoted(q), None, known),
                None => rendered_from(parts, i + 1, acc, None, known),
            },
        }
    }
}

/// The text of parts.
pub open spec fn rendered(parts: Seq<PartV>, known: Seq<(QuestionV, AnswerV)>) -> Result<Seq<char>, ErrorV> {
    rendered_from(parts, 0, Seq::empty(), None, known)
}

/// The model of a text that may be open.
pub open spec fn open_view(o: Option<String>) -> Option<Seq<char>> {
    match o {
        Some(t) => Some(t@),
        None => None,
    }
}

/// Adds a text to the quoted text that is open, or else to the whole.
fn put(acc: &mut String, open: &mut Option<String>, t: &str)
    ensures
        open_view(*old(open)) matches Some(q) ==> final(acc)@ == old(acc)@ && open_view(*final(open)) == Some(q + t@),
        open_view(*old(open)) is None ==> final(acc)@ == old(acc)@ + t@ && open_view(*final(open)) is None,
{
    match open.take() {
        Some(q) => {
            let mut longer = q;
            text::append(&mut longer, t);
            *open = Some(longer);
        },
        None => {
            text::append(acc, t);
        },
    }
}

/// The text of parts.
pub fn render(parts: &Vec<Part>, facts: &Facts) -> (out: Result<String, SqlError>)
    ensures
        statement::text_result(out) == rendered(parts_view(parts@), facts@),
{
    let ghost all = parts_view(parts@);
    let mut acc: String = String::new();
    let mut open: Option<String> = None;
    assert(acc@ =~= Seq::<char>::empty());
    let mut i: usize = 0;
    while i < parts.len()
        invariant
            i <= parts@.len(),
            all == parts_view(parts@),
            rendered(all, facts@) == rendered_from(all, i as int, acc@, open_view(open), facts@),
        decreases parts.len() - i,
    {
        assert(all[i as int] == parts@[i as int]@);
        match &parts[i] {
            Part::Text(t) => put(&mut acc, &mut open, t.as_str()),
            Part::Float(f) => {
                let t = facts.text(Question::FloatShown(*f))?;
                put(&mut acc, &mut open, t.as_str());
            },
            Part::FloatText(f) => {
                let t = facts.text(Question::FloatText(*f))?;
                put(&mut acc, &mut open, t.as_str());
            },
            Part::Open => {
                let empty: String = String::new();
                assert(empty@ =~= Seq::<char>::empty());
                open = Some(empty);
            },
            Part::Close => {
                if let Some(q) = open {
                    let t = text::quote(q.as_str());
                    text::append(&mut acc, t.as_str());
                }
                open = None;
            },
        }
        i = i + 1;
    }
    Ok(acc)
}

// ---------------------------------------------------------------- values and keys

/// A timestamp as it is shown: the date, a `T`, the time.
pub open spec fn shown_timestamp(acc: Seq<PartV>, t: Timestamp) -> Seq<PartV> {
    said(
        said(said(acc, value::date_text(t.date.day())), "T"@),
        value::time_text(t.time.second(), t.time.nano()),
    )
}

/// Writes a timestamp.
fn show_timestamp(out: &mut Vec<Part>, t: &Timestamp)
    ensures
        parts_view(final(out)@) == shown_timestamp(parts_view(old(out)@), *t),
{
    say(out, t.date.to_text().as_str());
    say(out, "T");
    say(out, t.time.to_text().as_str());
}

/// Bytes from `i` on, as they are shown: separated by commas.
pub open spec fn shown_bytes(acc: Seq<PartV>, b: Seq<u8>, i: int) -> Seq<PartV>
    decreases b.len() - i,
{
    if i >= b.len() {
        acc
    } else {
        let before = if i > 0 {
            said(acc, ", "@)
        } else {
            acc
        };
        shown_bytes(said(before, text::int_text(b[i] as int)), b, i + 1)
    }
}

/// Writes bytes.
fn show_bytes(out: &mut Vec<Part>, b: &Vec<u8>)
    ensures
        parts_view(final(out)@) == shown_bytes(parts_view(old(out)@), b@, 0),
{
    let mut i: usize = 0;
    while i < b.len()
        invariant
            i <= b@.len(),
            shown_bytes(parts_view(old(out)@), b@, 0) == shown_bytes(parts_view(out@), b@, i as int),
        decreases b.len() - i,
    {
        if i > 0 {
            say(out, ", ");
        }
        say(out, text::int_to_text(b[i] as i64).as_str());
        i = i + 1;
    }
}

/// A flag as it is shown.
pub open spec fn bool_text(b: bool) -> Seq<char> {
    if b {
        "true"@
    } else {
        "false"@
    }
}

/// Writes a flag.
fn show_bool(out: &mut Vec<Part>, b: bool)
    ensures
        parts_view(final(out)@) == said(parts_view(old(out)@), bool_text(b)),
{
    if b {
        say(out, "true")
    } else {
        say(out, "false")
    }
}

/// A value as it is shown: its kind, and in brackets what it holds.
pub open spec fn shown_value(acc: Seq<PartV>, v: ValueV) -> Seq<PartV> {
    match v {
        ValueV::Int(i) => said(said(said(acc, "Int("@), text::int_text(i as int)), ")"@),
        ValueV::Float(f) => said(said(acc, "Float("@).push(PartV::Float(f)), ")"@),
        ValueV::String(s) => said(said(said(acc, "String("@), text::quoted(s)), ")"@),
        ValueV::Bytes(b) => said(shown_bytes(said(acc, "Bytes(["@), b, 0), "])"@),
        ValueV::Bool(b) => said(said(said(acc, "Bool("@), bool_text(b)), ")"@),
        ValueV::Null => said(acc, "Null"@),
        ValueV::Date(d) => said(said(said(acc, "Date("@), value::date_text(d.day())), ")"@),
        ValueV::Time(t) => said(said(said(acc, "Time("@), value::time_text(t.second(), t.nano())), ")"@),
        ValueV::Timestamp(t) => said(shown_timestamp(said(acc, "Timestamp("@), t), ")"@),
        ValueV::Decimal(d) => said(
            said(said(acc, "Decimal("@), value::decimal_text(d.parts())),
            ")"@,
        ),
    }
}

/// Writes a value.
pub(crate) fn show_value(out: &mut Vec<Part>, v: &DbValue)
    ensures
        parts_view(final(out)@) == shown_value(parts_view(old(out)@), v@),
{
    match v {
        DbValue::Int(i) => {
            say(out, "Int(");
            say(out, text::int_to_text(*i).as_str());
            say(out, ")");
        },
        DbValue::Float(f) => {
            say(out, "Float(");
            add_part(out, Part::Float(*f));
            say(out, ")");
        },
        DbValue::String(s) => {
            say(out, "String(");
            say(out, text::quote(s.as_str()).as_str());
            say(out, ")");
        },
        DbValue::Bytes(b) => {
            say(out, "Bytes([");
            show_bytes(out, b);
            say(out, "])");
        },
        DbValue::Bool(b) => {
            say(out, "Bool(");
            show_bool(out, *b);
            say(out, ")");
        },
        DbValue::Null => say(out, "Null"),
        DbValue::Date(d) => {
            say(out, "Date(");
            say(out, d.to_text().as_str());
            say(out, ")");
        },
        DbValue::Time(t) => {
            say(out, "Time(");
            say(out, t.to_text().as_str());
            say(out, ")");
        },
        DbValue::Timestamp(t) => {
            say(out, "Timestamp(");
            show_timestamp(out, t);
            say(out, ")");
        },
        DbValue::Decimal(d) => {
            say(out, "Decimal(");
            say(out, d.to_text().as_str());
            say(out, ")");
        },
    }
}

/// A key as it is shown.
pub open spec fn shown_key(acc: Seq<PartV>, k: KeyV) -> Seq<PartV>
    decreases k, 0int,
{
    match k {
        KeyV::Int(i) => said(said(said(acc, "Int("@), text::int_text(i as int)), ")"@),
        KeyV::String(s) => said(said(said(acc, "String("@), text::quoted(s)), ")"@),
        KeyV::Bool(b) => said(said(said(acc, "Bool("@), bool_text(b)), ")"@),
        KeyV::Date(d) => said(said(said(acc, "Date("@), value::date_text(d.day())), ")"@),
        KeyV::Time(t) => said(said(said(acc, "Time("@), value::time_text(t.second(), t.nano())), ")"@),
        KeyV::Timestamp(t) => said(shown_timestamp(said(acc, "Timestamp("@), t), ")"@),
        KeyV::Decimal(d) => said(
            said(said(acc, "Decimal("@), value::decimal_text(d.parts())),
            ")"@,
        ),
        KeyV::Composite(parts) => said(shown_keys(said(acc, "Composite(["@), parts, 0), "])"@),
    }
}

/// Keys from `i` on, as they are shown: separated by commas.
pub open spec fn shown_keys(acc: Seq<PartV>, ks: Seq<KeyV>, i: int) -> Seq<PartV>
    decreases ks, ks.len() - i,
{
    if i >= ks.len() || i < 0 {
        acc
    } else {
        let before = if i > 0 {
            said(acc, ", "@)
        } else {
            acc
        };
        shown_keys(shown_key(before, ks[i]), ks, i + 1)
    }
}

/// Writes a key.
fn show_key(out: &mut Vec<Part>, k: &DbKey)
    ensures
        parts_view(final(out)@) == shown_key(parts_view(old(out)@), k@),
    decreases k, 1int,
{
    match k {
        DbKey::Int(i) => {
            say(out, "Int(");
            say(out, text::int_to_text(*i).as_str());
            say(out, ")");
        },
        DbKey::String(s) => {
            say(out, "String(");
            say(out, text::quote(s.as_str()).as_str());
            say(out, ")");
        },
        DbKey::Bool(b) => {
            say(out, "Bool(");
            show_bool(out, *b);
            say(out, ")");
        },
        DbKey::Date(d) => {
            say(out, "Date(");
            say(out, d.to_text().as_str());
            say(out, ")");
        },
        DbKey::Time(t) => {
            say(out, "Time(");
            say(out, t.to_text().as_str());
            say(out, ")");
        },
        DbKey::Timestamp(t) => {
            say(out, "Timestamp(");
            show_timestamp(out, t);
            say(out, ")");
        },
        DbKey::Decimal(d) => {
            say(out, "Decimal(");
            say(out, d.to_text().as_str());
            say(out, ")");
        },
        DbKey::Composite(parts) => {
            say(out, "Composite([");
            show_keys(out, parts, 0);
            say(out, "])");
        },
    }
}

/// Writes keys from `i` on.
fn show_keys(out: &mut Vec<Part>, ks: &Vec<DbKey>, i: usize)
    requires
        i <= ks@.len(),
    ensures
        parts_view(final(out)@) == shown_keys(parts_view(old(out)@), value::keys_view(ks@), i as int),
    decreases ks, ks.len() - i,
{
    if i < ks.len() {
        assert(value::keys_view(ks@)[i as int] == ks@[i as int]@);
        if i > 0 {
            say(out, ", ");
        }
        show_key(out, &ks[i]);
        show_keys(out, ks, i + 1);
    }
}

// ---------------------------------------------------------------- expressions

/// Texts from `i` on, as they are shown: quoted and separated by commas.
pub open spec fn shown_names(acc: Seq<PartV>, names: Seq<Seq<char>>, i: int) -> Seq<PartV>
    decreases names.len() - i,
{
    if i >= names.len() {
        acc
    } else {
        let before = if i > 0 {
            said(acc, ", "@)
        } else {
            acc
        };
        shown_names(said(before, text::quoted(names[i])), names, i + 1)
    }
}

/// Writes texts.
pub(crate) fn show_names(out: &mut Vec<Part>, names: &Vec<String>)
    ensures
        parts_view(final(out)@) == shown_names(parts_view(old(out)@), text::views(names@), 0),
{
    let ghost all = text::views(names@);
    let mut i: usize = 0;
    while i < names.len()
        invariant
            i <= names@.len(),
            all == text::views(names@),
            shown_names(parts_view(old(out)@), all, 0) == shown_names(parts_view(out@), all, i as int),
        decreases names.len() - i,
    {
        assert(all[i as int] == names@[i as int]@);
        if i > 0 {
            say(out, ", ");
        }
        say(out, text::quote(names[i].as_str()).as_str());
        i = i + 1;
    }
}

/// The name of an operator.
pub open spec fn operator_name(op: Operator) -> Seq<char> {
    match op {
        Operator::Eq => "Eq"@,
        Operator::Gt => "Gt"@,
        Operator::Lt => "Lt"@,
        Operator::GtEq => "GtEq"@,
        Operator::LtEq => "LtEq"@,
        Operator::NotEq => "NotEq"@,
        Operator::And => "And"@,
        Operator::Or => "Or"@,
        Operator::Like => "Like"@,
        Operator::Add => "Add"@,
        Operator::Sub => "Sub"@,
        Operator::Mul => "Mul"@,
        Operator::Div => "Div"@,
    }
}

/// Writes an operator.
fn show_operator(out: &mut Vec<Part>, op: Operator)
    ensures
        parts_view(final(out)@) == said(parts_view(old(out)@), operator_name(op)),
{
    match op {
        Operator::Eq => say(out, "Eq"),
        Operator::Gt => say(out, "Gt"),
        Operator::Lt => say(out, "Lt"),
        Operator::GtEq => say(out, "GtEq"),
        Operator::LtEq => say(out, "LtEq"),
        Operator::NotEq => say(out, "NotEq"),
        Operator::And => say(out, "And"),
        Operator::Or => say(out, "Or"),
        Operator::Like => say(out, "Like"),
        Operator::Add => say(out, "Add"),
        Operator::Sub => say(out, "Sub"),
        Operator::Mul => say(out, "Mul"),
        Operator::Div => say(out, "Div"),
    }
}

/// The name of a type.
pub open spec fn data_type_name(t: DataType) -> Seq<char> {
    match t {
        DataType::Int => "Int"@,
        DataType::Float => "Float"@,
        DataType::String => "String"@,
        DataType::Bytes => "Bytes"@,
        DataType::Bool => "Bool"@,
        DataType::Null => "Null"@,
        DataType::Date => "Date"@,
        DataType::Time => "Time"@,
        DataType::Timestamp => "Timestamp"@,
        DataType::Decimal => "Decimal"@,
    }
}

/// The name of a type.
pub fn data_type_text(t: DataType) -> (out: String)
    ensures
        out@ == data_type_name(t),
{
    let name = match t {
        DataType::Int => "Int",
        DataType::Float => "Float",
        DataType::String => "String",
        DataType::Bytes => "Bytes",
        DataType::Bool => "Bool",
        DataType::Null => "Null",
        DataType::Date => "Date",
        DataType::Time => "Time",
        DataType::Timestamp => "Timestamp",
        DataType::Decimal => "Decimal",
    };
    name.to_owned()
}

/// Writes a type.
fn show_data_type(out: &mut Vec<Part>, t: DataType)
    ensures
        parts_view(final(out)@) == said(parts_view(old(out)@), data_type_name(t)),
{
    say(out, data_type_text(t).as_str());
}

/// A position that may be absent, as it is shown.
pub open spec fn shown_index(acc: Seq<PartV>, i: Option<usize>) -> Seq<PartV> {
    match i {
        Some(n) => said(said(said(acc, "Some("@), text::int_text(n as int)), ")"@),
        None => said(acc, "None"@),
    }
}

/// Writes a position that may be absent.
fn show_index(out: &mut Vec<Part>, i: &Option<usize>)
    ensures
        parts_view(final(out)@) == shown_index(parts_view(old(out)@), *i),
{
    match i {
        Some(n) => {
            say(out, "Some(");
            say(out, text::usize_to_text(*n).as_str());
            say(out, ")");
        },
        None => say(out, "None"),
    }
}

/// An expression as it is shown. Of a subquery only the kind is shown.
pub open spec fn shown_expr(acc: Seq<PartV>, e: ExprV) -> Seq<PartV>
    decreases e, 0int,
{
    match e {
        ExprV::Column(name, index) => said(
            shown_index(said(said(said(acc, "Column("@), text::quoted(name)), ", "@), index),
            ")"@,
        ),
        ExprV::Literal(v) => said(shown_value(said(acc, "Literal("@), v), ")"@),
        ExprV::Parameter(name) => said(said(said(acc, "Parameter("@), text::quoted(name)), ")"@),
        ExprV::BinaryOp { left, op, right } => said(
            shown_expr(
                said(
                    said(
                        said(shown_expr(said(acc, "BinaryOp { left: "@), *left), ", op: "@),
                        operator_name(op),
                    ),
                    ", right: "@,
                ),
                *right,
            ),
            " }"@,
        ),
        ExprV::Case { operand, conditions, results, else_result } => {
            let a = shown_maybe(said(acc, "Case { operand: "@), operand);
            let b = shown_exprs(said(a, ", conditions: ["@), conditions, 0);
            let c = shown_exprs(said(b, "], results: ["@), results, 0);
            said(shown_maybe(said(c, "], else_result: "@), else_result), " }"@)
        },
        ExprV::Function { name, args } => said(
            shown_exprs(said(said(said(acc, "Function { name: "@), text::quoted(name)), ", args: ["@), args, 0),
            "] }"@,
        ),
        ExprV::Not(x) => said(shown_expr(said(acc, "Not("@), *x), ")"@),
        ExprV::IsNull(x) => said(shown_expr(said(acc, "IsNull("@), *x), ")"@),
        ExprV::InList { expr, list } => said(
            shown_exprs(said(shown_expr(said(acc, "InList { expr: "@), *expr), ", list: ["@), list, 0),
            "] }"@,
        ),
        ExprV::Match { column, index, query_str } => said(
            said(
                said(
                    shown_index(
                        said(said(said(acc, "Match { column: "@), text::quoted(column)), ", index: "@),
                        index,
                    ),
                    ", query_str: "@,
                ),
                text::quoted(query_str),
            ),
            " }"@,
        ),
        ExprV::ScalarSubquery(_) => said(acc, "ScalarSubquery(..)"@),
        ExprV::InSubquery { expr, subquery, negated } => said(
            said(
                said(shown_expr(said(acc, "InSubquery { expr: "@), *expr), ", subquery: .., negated: "@),
                bool_text(negated),
            ),
            " }"@,
        ),
        ExprV::Exists { subquery, negated } => said(
            said(said(acc, "Exists { subquery: .., negated: "@), bool_text(negated)),
            " }"@,
        ),
        ExprV::Cast { expr, target_type } => said(
            said(
                said(shown_expr(said(acc, "Cast { expr: "@), *expr), ", target_type: "@),
                data_type_name(target_type),
            ),
            " }"@,
        ),
    }
}

/// An expression that may be absent, as it is shown.
pub open spec fn shown_maybe(acc: Seq<PartV>, o: Option<Box<ExprV>>) -> Seq<PartV>
    decreases o, 0int,
{
    match o {
        Some(e) => said(shown_expr(said(acc, "Some("@), *e), ")"@),
        None => said(acc, "None"@),
    }
}

/// Expressions from `i` on, as they are shown: separated by commas.
pub open spec fn shown_exprs(acc: Seq<PartV>, es: Seq<ExprV>, i: int) -> Seq<PartV>
    decreases es, es.len() - i,
{
    if i >= es.len() || i < 0 {
        acc
    } else {
        let before = if i > 0 {
            said(acc, ", "@)
        } else {
            acc
        };
        shown_exprs(shown_expr(before, es[i]), es, i + 1)
    }
}

/// Writes an expression.
pub fn show_expr(out: &mut Vec<Part>, e: &Expr)
    ensures
        parts_view(final(out)@) == shown_expr(parts_view(old(out)@), e@),
    decreases e, 1int,
{
    match e {
        Expr::Column(name, index) => {
            say(out, "Column(");
            say(out, text::quote(name.as_str()).as_str());
            say(out, ", ");
            show_index(out, index);
            say(out, ")");
        },
        Expr::Literal(v) => {
            say(out, "Literal(");
            show_value(out, v);
            say(out, ")");
        },
        Expr::Parameter(name) => {
            say(out, "Parameter(");
            say(out, text::quote(name.as_str()).as_str());
            say(out, ")");
        },
        Expr::BinaryOp { left, op, right } => {
            say(out, "BinaryOp { left: ");
            show_expr(out, left);
            say(out, ", op: ");
            show_operator(out, *op);
            say(out, ", right: ");
            show_expr(out, right);
            say(out, " }");
        },
        Expr::Case { operand, conditions, results, else_result } => {
            say(out, "Case { operand: ");
            show_maybe(out, operand);
            say(out, ", conditions: [");
            show_exprs(out, conditions, 0);
            say(out, "], results: [");
            show_exprs(out, results, 0);
            say(out, "], else_result: ");
            show_maybe(out, else_result);
            say(out, " }");
        },
        Expr::Function { name, args } => {
            say(out, "Function { name: ");
            say(out, text::quote(name.as_str()).as_str());
            say(out, ", args: [");
            show_exprs(out, args, 0);
            say(out, "] }");
        },
        Expr::Not(x) => {
            say(out, "Not(");
            show_expr(out, x);
            say(out, ")");
        },
        Expr::IsNull(x) => {
            say(out, "IsNull(");
            show_expr(out, x);
            say(out, ")");
        },
        Expr::InList { expr, list } => {
            say(out, "InList { expr: ");
            show_expr(out, expr);
            say(out, ", list: [");
            show_exprs(out, list, 0);
            say(out, "] }");
        },
        Expr::Match { column, index, query_str } => {
            say(out, "Match { column: ");
            say(out, text::quote(column.as_str()).as_str());
            say(out, ", index: ");
            show_index(out, index);
            say(out, ", query_str: ");
            say(out, text::quote(query_str.as_str()).as_str());
            say(out, " }");
        },
        Expr::ScalarSubquery(_) => say(out, "ScalarSubquery(..)"),
        Expr::InSubquery { expr, subquery: _, negated } => {
            say(out, "InSubquery { expr: ");
            show_expr(out, expr);
            say(out, ", subquery: .., negated: ");
            show_bool(out, *negated);
            say(out, " }");
        },
        Expr::Exists { subquery: _, negated } => {
            say(out, "Exists { subquery: .., negated: ");
            show_bool(out, *negated);
            say(out, " }");
        },
        Expr::Cast { expr, target_type } => {
            say(out, "Cast { expr: ");
            show_expr(out, expr);
            say(out, ", target_type: ");
            show_data_type(out, *target_type);
            say(out, " }");
        },
    }
}

/// Writes an expression that may be absent.
fn show_maybe(out: &mut Vec<Part>, o: &Option<Box<Expr>>)
    ensures
        parts_view(final(out)@) == shown_maybe(parts_view(old(out)@), expr::opt_expr_view(*o)),
    decreases o, 0int,
{
    match o {
        Some(e) => {
            say(out, "Some(");
            show_expr(out, e);
            say(out, ")");
        },
        None => say(out, "None"),
    }
}

/// Writes expressions from `i` on.
fn show_exprs(out: &mut Vec<Part>, es: &Vec<Expr>, i: usize)
    requires
        i <= es@.len(),
    ensures
        parts_view(final(out)@) == shown_exprs(parts_view(old(out)@), expr::exprs_view(es@), i as int),
    decreases es, es.len() - i,
{
    if i < es.len() {
        assert(expr::exprs_view(es@)[i as int] == es@[i as int]@);
        if i > 0 {
            say(out, ", ");
        }
        show_expr(out, &es[i]);
        show_exprs(out, es, i + 1);
    }
}

// ---------------------------------------------------------------- plans

/// An aggregate function as it is shown.
pub open spec fn shown_aggr(acc: Seq<PartV>, a: AggregateV) -> Seq<PartV> {
    let (name, e, distinct) = match a {
        AggregateV::Count { expr, distinct } => ("Count { expr: "@, expr, distinct),
        AggregateV::Sum { expr, distinct } => ("Sum { expr: "@, expr, distinct),
        AggregateV::Min { expr, distinct } => ("Min { expr: "@, expr, distinct),
        AggregateV::Max { expr, distinct } => ("Max { expr: "@, expr, distinct),
        AggregateV::Avg { expr, distinct } => ("Avg { expr: "@, expr, distinct),
    };
    said(said(said(shown_expr(said(acc, name), e), ", distinct: "@), bool_text(distinct)), " }"@)
}

/// Writes an aggregate function.
fn show_aggr(out: &mut Vec<Part>, a: &AggregateExpr)
    ensures
        parts_view(final(out)@) == shown_aggr(parts_view(old(out)@), a@),
{
    let (name, e, distinct) = match a {
        AggregateExpr::Count { expr, distinct } => ("Count { expr: ", expr, *distinct),
        AggregateExpr::Sum { expr, distinct } => ("Sum { expr: ", expr, *distinct),
        AggregateExpr::Min { expr, distinct } => ("Min { expr: ", expr, *distinct),
        AggregateExpr::Max { expr, distinct } => ("Max { expr: ", expr, *distinct),
        AggregateExpr::Avg { expr, distinct } => ("Avg { expr: ", expr, *distinct),
    };
    say(out, name);
    show_expr(out, e);
    say(out, ", distinct: ");
    show_bool(out, distinct);
    say(out, " }");
}

/// Aggregate functions from `i` on, as they are shown: separated by commas.
pub open spec fn shown_aggrs(acc: Seq<PartV>, s: Seq<AggregateV>, i: int) -> Seq<PartV>
    decreases s.len() - i,
{
    if i >= s.len() {
        acc
    } else {
        let before = if i > 0 {
            said(acc, ", "@)
        } else {
            acc
        };
        shown_aggrs(shown_aggr(before, s[i]), s, i + 1)
    }
}

/// Writes aggregate functions.
fn show_aggrs(out: &mut Vec<Part>, s: &Vec<AggregateExpr>)
    ensures
        parts_view(final(out)@) == shown_aggrs(parts_view(old(out)@), logical::aggrs_view(s@), 0),
{
    let ghost all = logical::aggrs_view(s@);
    let mut i: usize = 0;
    while i < s.len()
        invariant
            i <= s@.len(),
            all == logical::aggrs_view(s@),
            shown_aggrs(parts_view(old(out)@), all, 0) == shown_aggrs(parts_view(out@), all, i as int),
        decreases s.len() - i,
    {
        assert(all[i as int] == s@[i as int]@);
        if i > 0 {
            say(out, ", ");
        }
        show_aggr(out, &s[i]);
        i = i + 1;
    }
}

/// A direction as it is shown.
pub open spec fn direction_text(ascending: bool) -> Seq<char> {
    if ascending {
        " ASC"@
    } else {
        " DESC"@
    }
}

/// Sort keys from `i` on, as they are shown: each quoted as a whole, separated by commas.
pub open spec fn shown_sort_keys(acc: Seq<PartV>, s: Seq<(ExprV, bool)>, i: int) -> Seq<PartV>
    decreases s.len() - i,
{
    if i >= s.len() {
        acc
    } else {
        let before = if i > 0 {
            said(acc, ", "@)
        } else {
            acc
        };
        let key = said(shown_expr(before.push(PartV::Open), s[i].0), direction_text(s[i].1));
        shown_sort_keys(key.push(PartV::Close), s, i + 1)
    }
}

/// Writes sort keys.
fn show_sort_keys(out: &mut Vec<Part>, s: &Vec<(Expr, bool)>)
    ensures
        parts_view(final(out)@) == shown_sort_keys(parts_view(old(out)@), logical::sort_keys_view(s@), 0),
{
    let ghost all = logical::sort_keys_view(s@);
    let mut i: usize = 0;
    while i < s.len()
        invariant
            i <= s@.len(),
            all == logical::sort_keys_view(s@),
            shown_sort_keys(parts_view(old(out)@), all, 0) == shown_sort_keys(parts_view(out@), all, i as int),
        decreases s.len() - i,
    {
        assert(all[i as int] == (s@[i as int].0@, s@[i as int].1));
        if i > 0 {
            say(out, ", ");
        }
        add_part(out, Part::Open);
        show_expr(out, &s[i].0);
        if s[i].1 {
            say(out, " ASC");
        } else {
            say(out, " DESC");
        }
        add_part(out, Part::Close);
        i = i + 1;
    }
}

/// A bound of a key range as it is shown.
pub open spec fn shown_plan_key(acc: Seq<PartV>, k: PlanKeyV) -> Seq<PartV> {
    match k {
        PlanKeyV::Value(v) => said(shown_key(said(acc, "Value("@), v), ")"@),
        PlanKeyV::Parameter(name) => said(said(said(acc, "Parameter("@), text::quoted(name)), ")"@),
    }
}

/// Writes a bound of a key range.
fn show_plan_key(out: &mut Vec<Part>, k: &PlanKey)
    ensures
        parts_view(final(out)@) == shown_plan_key(parts_view(old(out)@), k@),
{
    match k {
        PlanKey::Value(v) => {
            say(out, "Value(");
            show_key(out, v);
            say(out, ")");
        },
        PlanKey::Parameter(name) => {
            say(out, "Parameter(");
            say(out, text::quote(name.as_str()).as_str());
            say(out, ")");
        },
    }
}

/// A key range as it is shown.
pub open spec fn shown_range(acc: Seq<PartV>, r: Option<(PlanKeyV, PlanKeyV)>) -> Seq<PartV> {
    match r {
        Some(b) => said(
            shown_plan_key(said(shown_plan_key(said(acc, "range=["@), b.0), ", "@), b.1),
            "]"@,
        ),
        None => said(acc, "range=all"@),
    }
}

/// Writes a key range.
fn show_range(out: &mut Vec<Part>, r: &Option<(PlanKey, PlanKey)>)
    ensures
        parts_view(final(out)@) == shown_range(parts_view(old(out)@), logical::range_view(*r)),
{
    match r {
        Some(b) => {
            say(out, "range=[");
            show_plan_key(out, &b.0);
            say(out, ", ");
            show_plan_key(out, &b.1);
            say(out, "]");
        },
        None => say(out, "range=all"),
    }
}

/// What a full-text scan looks for, as it is shown.
pub open spec fn shown_query(acc: Seq<PartV>, q: FtsQueryV) -> Seq<PartV> {
    match q {
        FtsQueryV::Match(s) => said(acc, text::quoted(s)),
        FtsQueryV::AllTokens(ts) => said(shown_names(said(acc, "["@), ts, 0), "]"@),
    }
}

/// Writes what a full-text scan looks for.
fn show_query(out: &mut Vec<Part>, q: &FtsQuery)
    ensures
        parts_view(final(out)@) == shown_query(parts_view(old(out)@), q@),
{
    match q {
        FtsQuery::Match(s) => say(out, text::quote(s.as_str()).as_str()),
        FtsQuery::AllTokens(ts) => {
            say(out, "[");
            show_names(out, ts);
            say(out, "]");
        },
    }
}

/// A text with another after it.
fn longer(s: &str, t: &str) -> (out: String)
    ensures
        out@ == s@ + t@,
{
    let mut out: String = s.to_owned();
    text::append(&mut out, t);
    out
}

/// The name of a kind of join.
pub open spec fn join_name(t: JoinType) -> Seq<char> {
    match t {
        JoinType::Inner => "Inner"@,
        JoinType::Left => "Left"@,
        JoinType::Cross => "Cross"@,
    }
}

/// The name of a set operation.
pub open spec fn set_name(op: SetOpType) -> Seq<char> {
    match op {
        SetOpType::Union => "Union"@,
        SetOpType::Intersect => "Intersect"@,
        SetOpType::Except => "Except"@,
    }
}

/// A number of rows that may be absent, as it is shown.
pub open spec fn limit_text(limit: Option<usize>) -> Seq<char> {
    match limit {
        Some(n) => text::int_text(n as int),
        None => "none"@,
    }
}

/// A plan as it is shown: a line for each node after some space, its sources below it and
/// further in.
pub open spec fn shown_plan(acc: Seq<PartV>, p: PlanV, space: Seq<char>) -> Seq<PartV>
    decreases p,
{
    let start = said(acc, space);
    match p {
        PlanV::Scan { table_name, range, .. } => said(
            shown_range(said(said(said(start, "- Scan: table="@), table_name), ", "@), range),
            "\n"@,
        ),
        PlanV::Filter { source, predicate } => shown_plan(
            said(shown_expr(said(start, "- Filter: condition="@), predicate), "\n"@),
            *source,
            space + "  "@,
        ),
        PlanV::Projection { source, field_names, .. } => shown_plan(
            said(shown_names(said(start, "- Projection: fields=["@), field_names, 0), "]\n"@),
            *source,
            space + "  "@,
        ),
        PlanV::Join { left, right, condition, join_type, .. } => {
            let head = said(
                shown_expr(
                    said(said(said(start, "- HashJoin: type="@), join_name(join_type)), ", condition="@),
                    condition,
                ),
                "\n"@,
            );
            let first = shown_plan(said(said(head, space), "  left:\n"@), *left, space + "    "@);
            shown_plan(said(said(first, space), "  right:\n"@), *right, space + "    "@)
        },
        PlanV::Aggregate { source, group_by, aggrs, field_names, .. } => {
            let a = shown_exprs(said(start, "- HashAggregate: group_by=["@), group_by, 0);
            let b = shown_aggrs(said(a, "], aggregates=["@), aggrs, 0);
            let c = shown_names(said(b, "], output_names=["@), field_names, 0);
            shown_plan(said(c, "]\n"@), *source, space + "  "@)
        },
        PlanV::Sort { source, keys } => shown_plan(
            said(shown_sort_keys(said(start, "- Sort: keys=["@), keys, 0), "]\n"@),
            *source,
            space + "  "@,
        ),
        PlanV::Limit { source, limit, offset } => shown_plan(
            said(
                said(
                    said(said(said(start, "- Limit: count="@), limit_text(limit)), ", offset="@),
                    text::int_text(offset as int),
                ),
                "\n"@,
            ),
            *source,
            space + "  "@,
        ),
        PlanV::IndexScan { table_name, index_name, range, .. } => said(
            shown_range(
                said(
                    said(said(said(said(start, "- IndexScan: table="@), table_name), ", index="@), index_name),
                    ", "@,
                ),
                range,
            ),
            "\n"@,
        ),
        PlanV::FullTextScan { table_name, index_name, query, .. } => said(
            shown_query(
                said(
                    said(said(said(said(start, "- FullTextScan: table="@), table_name), ", index="@), index_name),
                    ", query="@,
                ),
                query,
            ),
            "\n"@,
        ),
        PlanV::SetOp { left, right, op, all } => {
            let head = said(
                said(said(said(said(start, "- SetOp: op="@), set_name(op)), ", all="@), bool_text(all)),
                "\n"@,
            );
            let first = shown_plan(said(said(head, space), "  left:\n"@), *left, space + "    "@);
            shown_plan(said(said(first, space), "  right:\n"@), *right, space + "    "@)
        },
        PlanV::Distinct { source } => shown_plan(said(start, "- Distinct\n"@), *source, space + "  "@),
    }
}

/// Writes a plan.
fn show_plan(out: &mut Vec<Part>, p: &LogicalPlan, space: &str)
    ensures
        parts_view(final(out)@) == shown_plan(parts_view(old(out)@), p@, space@),
    decreases p,
{
    say(out, space);
    match p {
        LogicalPlan::Scan { table_name, range, .. } => {
            say(out, "- Scan: table=");
            say(out, table_name.as_str());
            say(out, ", ");
            show_range(out, range);
            say(out, "\n");
        },
        LogicalPlan::Filter { source, predicate } => {
            say(out, "- Filter: condition=");
            show_expr(out, predicate);
            say(out, "\n");
            show_plan(out, source, longer(space, "  ").as_str());
        },
        LogicalPlan::Projection { source, field_names, .. } => {
            say(out, "- Projection: fields=[");
            show_names(out, field_names);
            say(out, "]\n");
            show_plan(out, source, longer(space, "  ").as_str());
        },
        LogicalPlan::Join { left, right, condition, join_type, .. } => {
            say(out, "- HashJoin: type=");
            match join_type {
                JoinType::Inner => say(out, "Inner"),
                JoinType::Left => say(out, "Left"),
                JoinType::Cross => say(out, "Cross"),
            }
            say(out, ", condition=");
            show_expr(out, condition);
            say(out, "\n");
            say(out, space);
            say(out, "  left:\n");
            show_plan(out, left, longer(space, "    ").as_str());
            say(out, space);
            say(out, "  right:\n");
            show_plan(out, right, longer(space, "    ").as_str());
        },
        LogicalPlan::Aggregate { source, group_by, aggrs, field_names, .. } => {
            say(out, "- HashAggregate: group_by=[");
            show_exprs(out, group_by, 0);
            say(out, "], aggregates=[");
            show_aggrs(out, aggrs);
            say(out, "], output_names=[");
            show_names(out, field_names);
            say(out, "]\n");
            show_plan(out, source, longer(space, "  ").as_str());
        },
        LogicalPlan::Sort { source, keys } => {
            say(out, "- Sort: keys=[");
            show_sort_keys(out, keys);
            say(out, "]\n");
            show_plan(out, source, longer(space, "  ").as_str());
        },
        LogicalPlan::Limit { source, limit, offset } => {
            say(out, "- Limit: count=");
            match limit {
                Some(n) => say(out, text::usize_to_text(*n).as_str()),
                None => say(out, "none"),
            }
            say(out, ", offset=");
            say(out, text::usize_to_text(*offset).as_str());
            say(out, "\n");
            show_plan(out, source, longer(space, "  ").as_str());
        },
        LogicalPlan::IndexScan { table_name, index_name, range, .. } => {
            say(out, "- IndexScan: table=");
            say(out, table_name.as_str());
            say(out, ", index=");
            say(out, index_name.as_str());
            say(out, ", ");
            show_range(out, range);
            say(out, "\n");
        },
        LogicalPlan::FullTextScan { table_name, index_name, query, .. } => {
            say(out, "- FullTextScan: table=");
            say(out, table_name.as_str());
            say(out, ", index=");
            say(out, index_name.as_str());
            say(out, ", query=");
            show_query(out, query);
            say(out, "\n");
        },
        LogicalPlan::SetOp { left, right, op, all } => {
            say(out, "- SetOp: op=");
            match op {
                SetOpType::Union => say(out, "Union"),
                SetOpType::Intersect => say(out, "Intersect"),
                SetOpType::Except => say(out, "Except"),
            }
            say(out, ", all=");
            show_bool(out, *all);
            say(out, "\n");
            say(out, space);
            say(out, "  left:\n");
            show_plan(out, left, longer(space, "    ").as_str());
            say(out, space);
            say(out, "  right:\n");
            show_plan(out, right, longer(space, "    ").as_str());
        },
        LogicalPlan::Distinct { source } => {
            say(out, "- Distinct\n");
            show_plan(out, source, longer(space, "  ").as_str());
        },
    }
}

/// A plan as text.
pub fn format_logical_plan(p: &LogicalPlan, facts: &Facts) -> (out: Result<String, SqlError>)
    ensures
        statement::text_result(out) == rendered(shown_plan(Seq::empty(), p@, ""@), facts@),
{
    let mut parts: Vec<Part> = Vec::new();
    assert(parts_view(parts@) =~= Seq::empty());
    show_plan(&mut parts, p, "");
    render(&parts, facts)
}

// ---------------------------------------------------------------- EXPLAIN

/// A lookup by primary key as it is shown.
pub open spec fn shown_lookup(g: PointGetV) -> Seq<PartV> {
    let key = shown_key(
        said(said(said(Seq::empty(), "- PhysicalPointGet: table="@), g.table_name), ", key="@),
        g.key,
    );
    said(
        if g.filter is Some {
            said(key, " (residual filter)"@)
        } else {
            key
        },
        "\n"@,
    )
}

/// A lookup by primary key as text.
pub fn format_point_get(g: &PointGetPlan, facts: &Facts) -> (out: Result<String, SqlError>)
    ensures
        statement::text_result(out) == rendered(shown_lookup(g@), facts@),
{
    let mut parts: Vec<Part> = Vec::new();
    assert(parts_view(parts@) =~= Seq::empty());
    say(&mut parts, "- PhysicalPointGet: table=");
    say(&mut parts, g.table_name.as_str());
    say(&mut parts, ", key=");
    show_key(&mut parts, &g.key);
    if g.filter.is_some() {
        say(&mut parts, " (residual filter)");
    }
    say(&mut parts, "\n");
    render(&parts, facts)
}

/// The text of an EXPLAIN: the plan, the optimized plan and the physical plan, each under its
/// heading and without white space at its end.
pub open spec fn explanation(logical: Seq<char>, optimized: Seq<char>, physical: Seq<char>) -> Seq<char> {
    "--- Logical Plan ---\n"@ + text::end_trimmed(logical) + "\n--- Optimized Plan ---\n"@ + text::end_trimmed(
        optimized,
    ) + "\n--- Physical Plan ---\n"@ + text::end_trimmed(physical)
}

/// The text of an EXPLAIN.
pub fn explain_text(logical: &str, optimized: &str, physical: &str) -> (out: String)
    ensures
        out@ == explanation(logical@, optimized@, physical@),
{
    let mut out: String = "--- Logical Plan ---\n".to_owned();
    text::append(&mut out, text::trim_end(logical).as_str());
    text::append(&mut out, "\n--- Optimized Plan ---\n");
    text::append(&mut out, text::trim_end(optimized).as_str());
    text::append(&mut out, "\n--- Physical Plan ---\n");
    text::append(&mut out, text::trim_end(physical).as_str());
    out
}

} // verus!
