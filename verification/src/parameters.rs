//! Binding the parameters of a statement before it is planned.

use crate::syntax;
use crate::syntax::{SqlNode, SqlNodeV, SqlValue, SqlValueV, Statement, StatementBodyV, StatementV, StatementBody};
use crate::facts;
use crate::facts::{AnswerV, ErrorKind, ErrorV, Facts, Question, QuestionV, SqlError};
use crate::params::Params;
use crate::text;
use crate::value::{DbValue, ValueV};
use vstd::prelude::*;
use vstd::string::*;

verus! {

/// The model of an outcome that is a node.
pub open spec fn node_outcome(r: Result<SqlNode, SqlError>) -> Result<SqlNodeV, ErrorV> {
    match r {
        Ok(x) => Ok(x@),
        Err(e) => Err(e@),
    }
}

/// The hexadecimal digit of a number below sixteen.
pub open spec fn hex_digit(n: int) -> char {
    if n < 10 {
        ('0' as int + n) as char
    } else {
        ('a' as int + n - 10) as char
    }
}

/// The hexadecimal text of some bytes, two digits each.
pub open spec fn hex_text(b: Seq<u8>) -> Seq<char>
    decreases b.len(),
{
    if b.len() == 0 {
        Seq::empty()
    } else {
        hex_text(b.drop_last()) + seq![hex_digit(b.last() as int / 16), hex_digit(b.last() as int % 16)]
    }
}

/// The literal that stands for a value. Decimals are written as numbers, dates and times as
/// quoted text.
pub open spec fn literal_of(v: ValueV, known: Seq<(QuestionV, AnswerV)>) -> Result<SqlNodeV, ErrorV> {
    match v {
        ValueV::Int(i) => Ok(SqlNodeV::Value(SqlValueV::Number(text::int_text(i as int)))),
        ValueV::Float(f) => match facts::text_fact(known, QuestionV::FloatText(f)) {
            Ok(t) => Ok(SqlNodeV::Value(SqlValueV::Number(t))),
            Err(e) => Err(e),
        },
        ValueV::Bool(b) => Ok(SqlNodeV::Value(SqlValueV::Boolean(b))),
        ValueV::String(s) => Ok(SqlNodeV::Value(SqlValueV::SingleQuotedString(s))),
        ValueV::Null => Ok(SqlNodeV::Value(SqlValueV::Null)),
        ValueV::Bytes(b) => Ok(SqlNodeV::Value(SqlValueV::HexStringLiteral(hex_text(b)))),
        ValueV::Decimal(d) => Ok(
            SqlNodeV::Value(SqlValueV::Number(crate::value::decimal_text(d.parts()))),
        ),
        ValueV::Date(d) => Ok(SqlNodeV::Value(SqlValueV::SingleQuotedString(crate::value::date_text(d.day())))),
        ValueV::Time(t) => Ok(
            SqlNodeV::Value(SqlValueV::SingleQuotedString(crate::value::time_text(t.second(), t.nano()))),
        ),
        ValueV::Timestamp(t) => Ok(
            SqlNodeV::Value(
                SqlValueV::SingleQuotedString(
                    crate::value::timestamp_text(t.date.day(), t.time.second(), t.time.nano()),
                ),
            ),
        ),
    }
}

/// The hexadecimal digit of a number below sixteen.
fn to_hex_digit(n: u8) -> (out: char)
    requires
        n < 16,
    ensures
        out == hex_digit(n as int),
{
    if n < 10 {
        (48u8 + n) as char
    } else {
        (87u8 + n) as char
    }
}

/// The hexadecimal text of some bytes.
fn to_hex(b: &Vec<u8>) -> (out: String)
    ensures
        out@ == hex_text(b@),
{
    let mut out = String::new();
    assert(out@ =~= hex_text(b@.take(0)));
    for i in 0..b.len()
        invariant
            out@ == hex_text(b@.take(i as int)),
    {
        let ghost before = out@;
        out.push(to_hex_digit(b[i] / 16));
        out.push(to_hex_digit(b[i] % 16));
        assert(b@.take(i + 1).drop_last() =~= b@.take(i as int));
        assert(out@ =~= hex_text(b@.take(i + 1)));
    }
    assert(b@.take(b@.len() as int) =~= b@);
    out
}

/// The literal that stands for a value.
pub fn db_value_to_sql_expr(v: &DbValue, facts: &Facts) -> (out: Result<SqlNode, SqlError>)
    ensures
        node_outcome(out) == literal_of(v@, facts@),
{
    let literal = match v {
        DbValue::Int(i) => SqlValue::Number(text::int_to_text(*i)),
        DbValue::Float(f) => {
            let t = facts.text(Question::FloatText(*f))?;
            SqlValue::Number(t)
        },
        DbValue::Bool(b) => SqlValue::Boolean(*b),
        DbValue::String(s) => SqlValue::SingleQuotedString(s.clone()),
        DbValue::Null => SqlValue::Null,
        DbValue::Bytes(b) => SqlValue::HexStringLiteral(to_hex(b)),
        DbValue::Decimal(d) => SqlValue::Number(d.to_text()),
        DbValue::Date(d) => SqlValue::SingleQuotedString(d.to_text()),
        DbValue::Time(t) => SqlValue::SingleQuotedString(t.to_text()),
        DbValue::Timestamp(t) => SqlValue::SingleQuotedString(t.to_text()),
    };
    Ok(SqlNode::Value(literal))
}

/// The outcome of binding a parameter by the first of two names that is bound; the error
/// gives the parameter as it was written.
pub open spec fn bound_parameter(
    name: Seq<char>,
    other: Seq<char>,
    written: Seq<char>,
    ps: Map<Seq<char>, ValueV>,
    known: Seq<(QuestionV, AnswerV)>,
) -> Result<SqlNodeV, ErrorV> {
    if ps.contains_key(name) {
        literal_of(ps[name], known)
    } else if ps.contains_key(other) {
        literal_of(ps[other], known)
    } else {
        Err(facts::named_error(ErrorKind::UnboundParameter, written))
    }
}

/// Whether a text begins with a character.
pub open spec fn begins_with(s: Seq<char>, c: char) -> bool {
    s.len() > 0 && s[0] == c
}

/// The outcome of binding an identifier: `@name` is the parameter `name`.
pub open spec fn bound_identifier(
    x: SqlNodeV,
    name: Seq<char>,
    ps: Map<Seq<char>, ValueV>,
    known: Seq<(QuestionV, AnswerV)>,
) -> Result<SqlNodeV, ErrorV> {
    if begins_with(name, '@') {
        bound_parameter(name.skip(1), name.skip(1), name, ps, known)
    } else {
        Ok(x)
    }
}

/// The outcome of binding a literal: a placeholder is bound by its name without a leading
/// colon, or else as it was written.
pub open spec fn bound_value(v: SqlValueV, ps: Map<Seq<char>, ValueV>, known: Seq<(QuestionV, AnswerV)>) -> Result<
    SqlNodeV,
    ErrorV,
> {
    match v {
        SqlValueV::Placeholder(p) => bound_parameter(
            if begins_with(p, ':') {
                p.skip(1)
            } else {
                p
            },
            p,
            p,
            ps,
            known,
        ),
        _ => Ok(SqlNodeV::Value(v)),
    }
}

/// The rest of a text after a leading character; none where it begins with another.
pub fn strip_first(s: &str, c: char) -> (out: Option<String>)
    ensures
        match out {
            Some(t) => begins_with(s@, c) && t@ == s@.skip(1),
            None => !begins_with(s@, c),
        },
{
    let chars = text::chars_of(s);
    if chars.len() > 0 && chars[0] == c {
        let t = text::text_of_range(&chars, 1, chars.len());
        assert(t@ =~= s@.skip(1));
        Some(t)
    } else {
        None
    }
}

/// Binds a parameter by the first of two names that is bound.
fn bind_parameter(name: &str, other: &str, written: &str, ps: &Params, facts: &Facts) -> (out: Result<
    SqlNode,
    SqlError,
>)
    ensures
        node_outcome(out) == bound_parameter(name@, other@, written@, ps@, facts@),
{
    match ps.get(name) {
        Some(v) => db_value_to_sql_expr(v, facts),
        None => match ps.get(other) {
            Some(v) => db_value_to_sql_expr(v, facts),
            None => Err(SqlError::named(ErrorKind::UnboundParameter, written)),
        },
    }
}

/// Binds an identifier.
fn bind_identifier(x: &SqlNode, name: &String, ps: &Params, facts: &Facts) -> (out: Result<SqlNode, SqlError>)
    ensures
        node_outcome(out) == bound_identifier(x@, name@, ps@, facts@),
{
    match strip_first(name.as_str(), '@') {
        Some(rest) => bind_parameter(rest.as_str(), rest.as_str(), name.as_str(), ps, facts),
        None => Ok(x.copy()),
    }
}

/// Binds a literal.
fn bind_value(v: &SqlValue, ps: &Params, facts: &Facts) -> (out: Result<SqlNode, SqlError>)
    ensures
        node_outcome(out) == bound_value(v@, ps@, facts@),
{
    match v {
        SqlValue::Placeholder(p) => match strip_first(p.as_str(), ':') {
            Some(rest) => bind_parameter(rest.as_str(), p.as_str(), p.as_str(), ps, facts),
            None => bind_parameter(p.as_str(), p.as_str(), p.as_str(), ps, facts),
        },
        other => Ok(SqlNode::Value(other.copy())),
    }
}

/// The outcome of binding a node. A node other than an identifier, a literal or a search with a
/// literal is kept: its operands are nodes of their own.
pub open spec fn bound_node(x: SqlNodeV, ps: Map<Seq<char>, ValueV>, known: Seq<(QuestionV, AnswerV)>) -> Result<
    SqlNodeV,
    ErrorV,
> {
    match x {
        SqlNodeV::Identifier { value, .. } => bound_identifier(x, value, ps, known),
        SqlNodeV::Value(v) => bound_value(v, ps, known),
        SqlNodeV::MatchAgainst { columns, value } => match bound_value(value, ps, known) {
            Ok(SqlNodeV::Value(v)) => Ok(SqlNodeV::MatchAgainst { columns, value: v }),
            Ok(_) => Ok(x),
            Err(e) => Err(e),
        },
        _ => Ok(x),
    }
}

/// The outcomes of binding some nodes.
pub open spec fn bound_nodes(
    xs: Seq<SqlNodeV>,
    ps: Map<Seq<char>, ValueV>,
    known: Seq<(QuestionV, AnswerV)>,
) -> Seq<Result<SqlNodeV, ErrorV>> {
    xs.map_values(|x: SqlNodeV| bound_node(x, ps, known))
}

/// The nodes with every parameter replaced by the literal of its value, or the error of the
/// first that has none.
pub open spec fn bound_all(
    xs: Seq<SqlNodeV>,
    ps: Map<Seq<char>, ValueV>,
    known: Seq<(QuestionV, AnswerV)>,
) -> Result<Seq<SqlNodeV>, ErrorV> {
    facts::collected(bound_nodes(xs, ps, known), 0, Seq::empty())
}

/// Whether a statement can have parameters: those that define the schema have none.
pub open spec fn has_parameters(b: StatementBodyV) -> bool {
    b is Insert || b is Delete || b is Update || b is Query
}

/// The statement with every parameter replaced by the literal of its value.
pub open spec fn bound_statement(
    s: StatementV,
    ps: Map<Seq<char>, ValueV>,
    known: Seq<(QuestionV, AnswerV)>,
) -> Result<StatementV, ErrorV> {
    if has_parameters(s.body) {
        match bound_all(s.exprs, ps, known) {
            Ok(xs) => Ok(StatementV { exprs: xs, ..s }),
            Err(e) => Err(e),
        }
    } else {
        Ok(s)
    }
}

/// Binds a node.
fn bind_node(x: &SqlNode, ps: &Params, facts: &Facts) -> (out: Result<SqlNode, SqlError>)
    ensures
        node_outcome(out) == bound_node(x@, ps@, facts@),
{
    match x {
        SqlNode::Identifier { value, .. } => bind_identifier(x, value, ps, facts),
        SqlNode::Value(v) => bind_value(v, ps, facts),
        SqlNode::MatchAgainst { columns, value } => match bind_value(value, ps, facts) {
            Ok(SqlNode::Value(v)) => Ok(SqlNode::MatchAgainst { columns: text::copy_strings(columns), value: v }),
            Ok(_) => Ok(x.copy()),
            Err(e) => Err(e),
        },
        _ => Ok(x.copy()),
    }
}

/// Binds the parameters of some nodes.
fn bind_nodes(xs: &Vec<SqlNode>, ps: &Params, facts: &Facts) -> (out: Result<Vec<SqlNode>, SqlError>)
    ensures
        match out {
            Ok(ys) => bound_all(syntax::sql_nodes_view(xs@), ps@, facts@) == Ok::<Seq<SqlNodeV>, ErrorV>(
                syntax::sql_nodes_view(ys@),
            ),
            Err(e) => bound_all(syntax::sql_nodes_view(xs@), ps@, facts@) == Err::<Seq<SqlNodeV>, ErrorV>(e@),
        },
{
    let mut out: Vec<SqlNode> = Vec::new();
    let ghost rs = bound_nodes(syntax::sql_nodes_view(xs@), ps@, facts@);
    assert(syntax::sql_nodes_view(out@) =~= Seq::empty());
    for i in 0..xs.len()
        invariant
            rs == bound_nodes(syntax::sql_nodes_view(xs@), ps@, facts@),
            facts::collected(rs, 0, Seq::empty()) == facts::collected(rs, i as int, syntax::sql_nodes_view(out@)),
    {
        let ghost before = syntax::sql_nodes_view(out@);
        assert(rs[i as int] == bound_node(xs@[i as int]@, ps@, facts@));
        let y = bind_node(&xs[i], ps, facts)?;
        out.push(y);
        assert(syntax::sql_nodes_view(out@) =~= before.push(y@));
    }
    Ok(out)
}

/// Replaces every parameter of an expression, given by its nodes, by the literal of its value.
/// On an error the nodes stay as they were.
pub fn bind_expr(nodes: &mut Vec<SqlNode>, params: &Params, facts: &Facts) -> (out: Result<(), SqlError>)
    ensures
        match out {
            Ok(_) => bound_all(syntax::sql_nodes_view(old(nodes)@), params@, facts@) == Ok::<Seq<SqlNodeV>, ErrorV>(
                syntax::sql_nodes_view(final(nodes)@),
            ),
            Err(e) => bound_all(syntax::sql_nodes_view(old(nodes)@), params@, facts@) == Err::<Seq<SqlNodeV>, ErrorV>(e@)
                && *final(nodes) == *old(nodes),
        },
{
    let bound = bind_nodes(nodes, params, facts)?;
    *nodes = bound;
    Ok(())
}

/// Replaces every parameter of a statement by the literal of its value. On an error the
/// statement stays as it was.
pub fn bind_statement(statement: &mut Statement, params: &Params, facts: &Facts) -> (out: Result<(), SqlError>)
    ensures
        match out {
            Ok(_) => bound_statement(old(statement)@, params@, facts@) == Ok::<StatementV, ErrorV>(
                final(statement)@,
            ),
            Err(e) => bound_statement(old(statement)@, params@, facts@) == Err::<StatementV, ErrorV>(e@)
                && *final(statement) == *old(statement),
        },
{
    let bindable = match &statement.body {
        StatementBody::Insert { .. } => true,
        StatementBody::Delete { .. } => true,
        StatementBody::Update { .. } => true,
        StatementBody::Query(_) => true,
        _ => false,
    };
    if bindable {
        let bound = bind_nodes(&statement.exprs, params, facts)?;
        statement.exprs = bound;
    }
    Ok(())
}

/// Whether a node is a parameter.
pub open spec fn is_parameter(x: SqlNodeV) -> bool {
    match x {
        SqlNodeV::Identifier { value, .. } => begins_with(value, '@'),
        SqlNodeV::Value(SqlValueV::Placeholder(_)) => true,
        SqlNodeV::MatchAgainst { value: SqlValueV::Placeholder(_), .. } => true,
        _ => false,
    }
}

/// Binding nodes one after another gives a list of the bound nodes.
proof fn collected_nodes(xs: Seq<SqlNodeV>, i: int, acc: Seq<SqlNodeV>, ps: Map<Seq<char>, ValueV>, known: Seq<(QuestionV, AnswerV)>)
    requires
        0 <= i <= xs.len(),
        acc.len() == i,
        forall|j: int| 0 <= j < i ==> bound_node(xs[j], ps, known) == Ok::<SqlNodeV, ErrorV>(#[trigger] acc[j]),
    ensures
        match facts::collected(bound_nodes(xs, ps, known), i, acc) {
            Ok(ys) => ys.len() == xs.len() && forall|j: int|
                0 <= j < xs.len() ==> bound_node(xs[j], ps, known) == Ok::<SqlNodeV, ErrorV>(#[trigger] ys[j]),
            Err(_) => true,
        },
    decreases xs.len() - i,
{
    let rs = bound_nodes(xs, ps, known);
    if i < xs.len() {
        assert(rs[i] == bound_node(xs[i], ps, known));
        if rs[i] is Ok {
            collected_nodes(xs, i + 1, acc.push(rs[i]->Ok_0), ps, known);
        }
    }
}

/// A bound statement has no parameter left: a literal stands in the place of each, and every
/// node that was no parameter is as it was.
pub proof fn binding_leaves_no_parameter(s: StatementV, ps: Map<Seq<char>, ValueV>, known: Seq<(QuestionV, AnswerV)>)
    requires
        has_parameters(s.body),
    ensures
        match bound_statement(s, ps, known) {
            Ok(b) => {
                &&& b.body == s.body
                &&& b.sets == s.sets
                &&& b.exprs.len() == s.exprs.len()
                &&& forall|j: int|
                    0 <= j < b.exprs.len() ==> !is_parameter(#[trigger] b.exprs[j]) && (if is_parameter(s.exprs[j]) {
                        match s.exprs[j] {
                            SqlNodeV::MatchAgainst { columns, .. } => b.exprs[j] matches SqlNodeV::MatchAgainst {
                                columns: same,
                                ..
                            } && same == columns,
                            _ => b.exprs[j] is Value,
                        }
                    } else {
                        b.exprs[j] == s.exprs[j]
                    })
            },
            Err(_) => true,
        },
{
    collected_nodes(s.exprs, 0, Seq::empty(), ps, known);
}

/// Whether a node is a parameter that no value is given for.
pub open spec fn is_unbound(x: SqlNodeV, ps: Map<Seq<char>, ValueV>) -> bool {
    match x {
        SqlNodeV::Identifier { value, .. } => begins_with(value, '@') && !ps.contains_key(value.skip(1)),
        SqlNodeV::Value(v) => is_unbound_value(v, ps),
        SqlNodeV::MatchAgainst { value, .. } => is_unbound_value(value, ps),
        _ => false,
    }
}

/// Whether a literal is a placeholder that no value is given for.
pub open spec fn is_unbound_value(v: SqlValueV, ps: Map<Seq<char>, ValueV>) -> bool {
    match v {
        SqlValueV::Placeholder(p) => !ps.contains_key(p) && !(begins_with(p, ':') && ps.contains_key(p.skip(1))),
        _ => false,
    }
}

/// The first outcome that is an error is the one of the list.
proof fn collected_error(xs: Seq<SqlNodeV>, i: int, acc: Seq<SqlNodeV>, ps: Map<Seq<char>, ValueV>, known: Seq<(QuestionV, AnswerV)>)
    requires
        0 <= i <= xs.len(),
    ensures
        facts::collected(bound_nodes(xs, ps, known), i, acc) matches Err(e) ==> exists|j: int|
            i <= j < xs.len() && bound_node(#[trigger] xs[j], ps, known) == Err::<SqlNodeV, ErrorV>(e),
    decreases xs.len() - i,
{
    let rs = bound_nodes(xs, ps, known);
    if i < xs.len() {
        assert(rs[i] == bound_node(xs[i], ps, known));
        if rs[i] is Ok {
            collected_error(xs, i + 1, acc.push(rs[i]->Ok_0), ps, known);
        }
    }
}

/// Binding fails where a parameter, at any depth, has no value, and for no other reason, but that
/// the text of a float is asked for. Where it succeeds, each node is bound.
pub proof fn binding_needs_every_parameter(
    xs: Seq<SqlNodeV>,
    ps: Map<Seq<char>, ValueV>,
    known: Seq<(QuestionV, AnswerV)>,
)
    ensures
        (exists|j: int| 0 <= j < xs.len() && is_unbound(#[trigger] xs[j], ps)) ==> bound_all(xs, ps, known) is Err,
        bound_all(xs, ps, known) matches Err(e) ==> e.kind == ErrorKind::Pending || (e.kind
            == ErrorKind::UnboundParameter && exists|j: int| 0 <= j < xs.len() && is_unbound(#[trigger] xs[j], ps)),
        bound_all(xs, ps, known) matches Ok(ys) ==> ys.len() == xs.len() && forall|j: int|
            0 <= j < xs.len() ==> bound_node(xs[j], ps, known) == Ok::<SqlNodeV, ErrorV>(#[trigger] ys[j]),
{
    collected_nodes(xs, 0, Seq::empty(), ps, known);
    collected_error(xs, 0, Seq::empty(), ps, known);
    match bound_all(xs, ps, known) {
        Ok(ys) => {
            assert forall|j: int| 0 <= j < xs.len() implies !is_unbound(#[trigger] xs[j], ps) by {
                assert(bound_node(xs[j], ps, known) == Ok::<SqlNodeV, ErrorV>(ys[j]));
            }
        },
        Err(e) => {
            let j = choose|j: int|
                0 <= j < xs.len() && bound_node(#[trigger] xs[j], ps, known) == Err::<SqlNodeV, ErrorV>(e);
            assert(e.kind == ErrorKind::Pending || is_unbound(xs[j], ps));
        },
    }
}

/// Collecting outcomes that all succeeded gives the list of them.
proof fn collected_whole(rs: Seq<Result<SqlNodeV, ErrorV>>, i: int, acc: Seq<SqlNodeV>, ys: Seq<SqlNodeV>)
    requires
        0 <= i <= rs.len(),
        ys.len() == rs.len(),
        acc == ys.take(i),
        forall|j: int| 0 <= j < rs.len() ==> #[trigger] rs[j] == Ok::<SqlNodeV, ErrorV>(ys[j]),
    ensures
        facts::collected(rs, i, acc) == Ok::<Seq<SqlNodeV>, ErrorV>(ys),
    decreases rs.len() - i,
{
    if i < rs.len() {
        assert(rs[i] == Ok::<SqlNodeV, ErrorV>(ys[i]));
        assert(ys.take(i + 1) =~= ys.take(i).push(ys[i]));
        collected_whole(rs, i + 1, acc.push(ys[i]), ys);
    } else {
        assert(ys.take(i) =~= ys);
    }
}

/// A statement without parameters is its own binding, whatever the values are.
pub proof fn binding_keeps_statements_without_parameters(
    s: StatementV,
    ps: Map<Seq<char>, ValueV>,
    known: Seq<(QuestionV, AnswerV)>,
)
    requires
        forall|j: int| 0 <= j < s.exprs.len() ==> !is_parameter(#[trigger] s.exprs[j]),
    ensures
        bound_statement(s, ps, known) == Ok::<StatementV, ErrorV>(s),
{
    let rs = bound_nodes(s.exprs, ps, known);
    assert forall|j: int| 0 <= j < rs.len() implies #[trigger] rs[j] == Ok::<SqlNodeV, ErrorV>(s.exprs[j]) by {
        assert(!is_parameter(s.exprs[j]));
    }
    assert(s.exprs.take(0) =~= Seq::empty());
    collected_whole(rs, 0, Seq::empty(), s.exprs);
}

/// The literal that is put in the place of a parameter is worth the value that is bound to it: of
/// integers, texts, truth values and NULL.
pub proof fn literals_stand_for_their_values(
    v: ValueV,
    nodes: Seq<SqlNodeV>,
    at: int,
    known: Seq<(QuestionV, AnswerV)>,
)
    requires
        0 <= at < nodes.len(),
        literal_of(v, known) == Ok::<SqlNodeV, ErrorV>(nodes[at]),
        v is Int || v is String || v is Bool || v is Null,
    ensures
        crate::scalar::planned(nodes, at, known) == Ok::<crate::expr::ExprV, ErrorV>(crate::expr::ExprV::Literal(v)),
{
    if let ValueV::Int(i) = v {
        crate::conversions::texts_of_integers_stand_for_them(i as int);
    }
}

/// A parameter is worth the same whether it is bound before the statement is planned or after.
pub proof fn binding_early_and_late_agree(
    name: Seq<char>,
    quote: Option<char>,
    nodes: Seq<SqlNodeV>,
    at: int,
    ps: Map<Seq<char>, ValueV>,
    known: Seq<(QuestionV, AnswerV)>,
)
    requires
        0 <= at < nodes.len(),
        begins_with(name, '@'),
        quote != Some('"'),
        ps.contains_key(name.skip(1)),
        ps[name.skip(1)] is Int || ps[name.skip(1)] is String || ps[name.skip(1)] is Bool || ps[name.skip(1)] is Null,
        bound_identifier((SqlNodeV::Identifier { value: name, quote }), name, ps, known) == Ok::<SqlNodeV, ErrorV>(
            nodes[at],
        ),
    ensures
        crate::scalar::planned(nodes, at, known) == crate::expr::substituted(
            crate::scalar::planned_identifier(name, quote),
            ps,
        ),
{
    literals_stand_for_their_values(ps[name.skip(1)], nodes, at, known);
}

} // verus!
