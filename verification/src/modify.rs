//! Rows that statements insert, update and delete.

use crate::bounds;
use crate::eval;
use crate::expr::{Expr, ExprV};
use crate::facts;
use crate::facts::{AnswerV, ErrorKind, ErrorV, Facts, QuestionV, SqlError};
use crate::logical::{LogicalPlan, PlanV};
use crate::planner;
use crate::schema;
use crate::schema::{ColumnV, Row, Schema, SchemaV};
use crate::statement;
use crate::text;
use crate::value;
use crate::value::{DbKey, DbValue, KeyV, Order, ValueV};
use vstd::prelude::*;
use vstd::string::*;

verus! {

// ---------------------------------------------------------------- keys

/// The part of a key that a value gives.
pub open spec fn key_part(v: ValueV) -> Result<KeyV, ErrorV> {
    match v {
        ValueV::Bool(b) => Ok(KeyV::Bool(b)),
        _ => match bounds::key_of(v) {
            Some(k) => Ok(k),
            None => Err(facts::value_error(ErrorKind::KeyType, v)),
        },
    }
}

/// The parts of a key that the values at some positions give.
pub open spec fn key_parts(row: Seq<ValueV>, positions: Seq<usize>) -> Seq<Result<KeyV, ErrorV>> {
    positions.map_values(
        |i: usize|
            if i < row.len() {
                key_part(row[i as int])
            } else {
                Err(facts::plain_error(ErrorKind::IndexOutOfBounds))
            },
    )
}

/// The primary key of a row: the value of the key column, or those of the key columns
/// together.
pub open spec fn primary_key(s: SchemaV, row: Seq<ValueV>) -> Result<KeyV, ErrorV> {
    let positions = schema::key_columns(s.columns);
    if positions.len() == 0 {
        Err(facts::plain_error(ErrorKind::NoPrimaryKey))
    } else {
        match facts::collected(key_parts(row, positions), 0, Seq::empty()) {
            Err(e) => Err(e),
            Ok(parts) => Ok(
                if parts.len() == 1 {
                    parts[0]
                } else {
                    KeyV::Composite(parts)
                },
            ),
        }
    }
}

/// The part of a key that a value gives.
fn part_of_key(v: &DbValue) -> (out: Result<DbKey, SqlError>)
    ensures
        match out {
            Ok(k) => key_part(v@) == Ok::<KeyV, ErrorV>(k@),
            Err(e) => key_part(v@) == Err::<KeyV, ErrorV>(e@),
        },
{
    match v {
        DbValue::Bool(b) => Ok(DbKey::Bool(*b)),
        other => match bounds::val_to_key(other) {
            Some(k) => Ok(k),
            None => Err(SqlError::about(ErrorKind::KeyType, other)),
        },
    }
}

/// The parts of a key.
fn parts_of_key(row: &Row, positions: &Vec<usize>) -> (out: Result<Vec<DbKey>, SqlError>)
    ensures
        match out {
            Ok(ks) => facts::collected(key_parts(row@, positions@), 0, Seq::empty()) == Ok::<Seq<KeyV>, ErrorV>(
                value::keys_view(ks@),
            ) && ks@.len() == positions@.len(),
            Err(e) => facts::collected(key_parts(row@, positions@), 0, Seq::empty()) == Err::<Seq<KeyV>, ErrorV>(
                e@,
            ),
        },
{
    let mut out: Vec<DbKey> = Vec::new();
    let ghost rs = key_parts(row@, positions@);
    assert(value::keys_view(out@) =~= Seq::empty());
    for i in 0..positions.len()
        invariant
            rs == key_parts(row@, positions@),
            out@.len() == i,
            facts::collected(rs, 0, Seq::empty()) == facts::collected(rs, i as int, value::keys_view(out@)),
    {
        let ghost before = value::keys_view(out@);
        let at = positions[i];
        match row.get_by_index(at) {
            None => {
                return Err(SqlError::plain(ErrorKind::IndexOutOfBounds));
            },
            Some(v) => {
                assert(rs[i as int] == key_part(v@));
                let k = part_of_key(v)?;
                let ghost added = k@;
                out.push(k);
                assert(value::keys_view(out@) =~= before.push(added));
            },
        }
    }
    Ok(out)
}

/// The primary key of a row.
pub fn extract_primary_key(s: &Schema, row: &Row) -> (out: Result<DbKey, SqlError>)
    ensures
        match out {
            Ok(k) => primary_key(s@, row@) == Ok::<KeyV, ErrorV>(k@),
            Err(e) => primary_key(s@, row@) == Err::<KeyV, ErrorV>(e@),
        },
{
    let positions = s.primary_key_indexes();
    if positions.len() == 0 {
        return Err(SqlError::plain(ErrorKind::NoPrimaryKey));
    }
    let parts = parts_of_key(row, &positions)?;
    assert(value::keys_view(parts@).len() == parts@.len());
    if parts.len() == 1 {
        assert(value::keys_view(parts@)[0] == parts@[0]@);
        Ok(parts[0].clone())
    } else {
        Ok(DbKey::composite(parts))
    }
}

// ---------------------------------------------------------------- insertion

/// The defaults of columns; null where a column has none.
pub open spec fn default_row(cols: Seq<ColumnV>) -> Seq<ValueV> {
    cols.map_values(
        |c: ColumnV|
            match c.default_value {
                Some(v) => v,
                None => ValueV::Null,
            },
    )
}

/// A row with the values of some named columns set, from position `i` on.
pub open spec fn values_set(
    s: SchemaV,
    columns: Seq<Seq<char>>,
    values: Seq<ValueV>,
    i: int,
    row: Seq<ValueV>,
) -> Result<Seq<ValueV>, ErrorV>
    decreases columns.len() - i,
{
    if i >= columns.len() {
        Ok(row)
    } else {
        match schema::column_position(s.columns, columns[i]) {
            None => Err(facts::named_error(ErrorKind::UnknownColumn, columns[i])),
            Some(at) => values_set(s, columns, values, i + 1, row.update(at, values[i])),
        }
    }
}

/// The row that an INSERT of some values into some columns makes: the defaults, with the
/// values of the columns set.
pub open spec fn aligned_row(s: SchemaV, columns: Seq<Seq<char>>, values: Seq<ValueV>) -> Result<Seq<ValueV>, ErrorV> {
    values_set(s, columns, values, 0, default_row(s.columns))
}

/// The row that an INSERT of some values into some columns makes.
pub fn align_row(s: &Schema, columns: &Vec<String>, values: &Vec<DbValue>) -> (out: Result<Row, SqlError>)
    requires
        columns@.len() <= values@.len(),
    ensures
        match out {
            Ok(r) => aligned_row(s@, text::views(columns@), value::values_view(values@)) == Ok::<
                Seq<ValueV>,
                ErrorV,
            >(r@) && r@.len() == s@.columns.len(),
            Err(e) => aligned_row(s@, text::views(columns@), value::values_view(values@)) == Err::<
                Seq<ValueV>,
                ErrorV,
            >(e@),
        },
{
    let mut row: Vec<DbValue> = Vec::new();
    for i in 0..s.columns.len()
        invariant
            row@.len() == i,
            forall|j: int|
                0 <= j < i ==> (#[trigger] row@[j])@ == (match s.columns@[j]@.default_value {
                    Some(v) => v,
                    None => ValueV::Null,
                }),
    {
        match &s.columns[i].default_value {
            Some(v) => row.push(v.clone()),
            None => row.push(DbValue::Null),
        }
    }
    assert(value::values_view(row@) =~= default_row(s@.columns));
    let ghost names = text::views(columns@);
    let ghost given = value::values_view(values@);
    for i in 0..columns.len()
        invariant
            columns@.len() <= values@.len(),
            names == text::views(columns@),
            given == value::values_view(values@),
            row@.len() == s@.columns.len(),
            aligned_row(s@, names, given) == values_set(s@, names, given, i as int, value::values_view(row@)),
    {
        assert(names[i as int] == columns@[i as int]@);
        assert(given[i as int] == values@[i as int]@);
        match s.column_index(columns[i].as_str()) {
            None => {
                return Err(SqlError::named(ErrorKind::UnknownColumn, columns[i].as_str()));
            },
            Some(at) => {
                let ghost before = value::values_view(row@);
                row.set(at, values[i].clone());
                assert(value::values_view(row@) =~= before.update(at as int, given[i as int]));
            },
        }
    }
    Ok(Row::new(row))
}

/// What an automatically increasing column asks of the sequence of its table.
#[derive(Clone, Copy, Debug, PartialEq, Eq, Structural)]
pub enum SequenceStep {
    /// Nothing more.
    Done,
    /// The next value, for the column at a position.
    Next(usize),
    /// The sequence has to pass a value that the column at a position was given.
    Report(usize, i64),
}

/// What the automatically increasing columns from position `i` on ask first: a column without
/// a value asks for the next one, and one with an integer reports it.
pub open spec fn sequence_step(cols: Seq<ColumnV>, row: Seq<ValueV>, i: int) -> SequenceStep
    decreases cols.len() - i,
{
    if i < 0 || i >= cols.len() || i >= row.len() {
        SequenceStep::Done
    } else if cols[i].is_auto_increment && row[i] is Null {
        SequenceStep::Next(i as usize)
    } else if cols[i].is_auto_increment && row[i] is Int {
        SequenceStep::Report(i as usize, row[i]->Int_0)
    } else {
        sequence_step(cols, row, i + 1)
    }
}

/// What the automatically increasing columns of a row from a position on ask first.
pub fn next_sequence_step(s: &Schema, row: &Row, from: usize) -> (out: SequenceStep)
    ensures
        out == sequence_step(s@.columns, row@, from as int),
{
    let mut i = from;
    let n = s.columns.len();
    let m = row.values.len();
    while i < n && i < m
        invariant
            n == s.columns@.len(),
            m == row.values@.len(),
            sequence_step(s@.columns, row@, from as int) == sequence_step(s@.columns, row@, i as int),
        decreases n - i,
    {
        assert(s@.columns[i as int] == s.columns@[i as int]@);
        assert(row@[i as int] == row.values@[i as int]@);
        if s.columns[i].is_auto_increment {
            match &row.values[i] {
                DbValue::Null => {
                    return SequenceStep::Next(i);
                },
                DbValue::Int(v) => {
                    return SequenceStep::Report(i, *v);
                },
                _ => {},
            }
        }
        i = i + 1;
    }
    SequenceStep::Done
}

/// Sets the value of a column of a row.
pub fn set_value(row: &mut Row, at: usize, v: DbValue)
    requires
        at < old(row)@.len(),
    ensures
        final(row)@ == old(row)@.update(at as int, v@),
{
    let ghost before = row@;
    let ghost added = v@;
    row.values.set(at, v);
    assert(row@ =~= before.update(at as int, added));
}

/// The outcome of inserting a row, by whether its key is taken.
pub open spec fn insertion(taken: bool) -> Result<(), ErrorV> {
    if taken {
        Err(facts::plain_error(ErrorKind::DuplicateKey))
    } else {
        Ok(())
    }
}

/// Tests that the key of a row to be inserted is not taken.
pub fn check_insert(taken: bool) -> (out: Result<(), SqlError>)
    ensures
        match out {
            Ok(_) => insertion(taken) is Ok,
            Err(e) => insertion(taken) == Err::<(), ErrorV>(e@),
        },
{
    if taken {
        Err(SqlError::plain(ErrorKind::DuplicateKey))
    } else {
        Ok(())
    }
}

/// Whether a query has as many columns as the INSERT it is for.
pub open spec fn columns_agree(target: nat, source: nat) -> Result<(), ErrorV> {
    if target == source {
        Ok(())
    } else {
        Err(
            facts::names_error(
                ErrorKind::SelectColumnCount,
                seq![text::int_text(target as int), text::int_text(source as int)],
            ),
        )
    }
}

/// Tests that a query has as many columns as the INSERT it is for.
pub fn check_select_columns(target: usize, source: usize) -> (out: Result<(), SqlError>)
    ensures
        match out {
            Ok(_) => columns_agree(target as nat, source as nat) is Ok,
            Err(e) => columns_agree(target as nat, source as nat) == Err::<(), ErrorV>(e@),
        },
{
    if target == source {
        Ok(())
    } else {
        let t = text::usize_to_text(target);
        let s = text::usize_to_text(source);
        Err(SqlError::about_names(ErrorKind::SelectColumnCount, planner::two_names(t.as_str(), s.as_str())))
    }
}

// ---------------------------------------------------------------- update

/// The rows that a DELETE or an UPDATE changes: those of the table that pass its condition.
pub open spec fn affected_rows(table_name: Seq<char>, s: SchemaV, filter: Option<ExprV>) -> PlanV {
    let scan = PlanV::Scan { table_name, schema: s, range: None };
    match filter {
        Some(predicate) => PlanV::Filter { source: Box::new(scan), predicate },
        None => scan,
    }
}

/// A row with the assignments from position `i` on applied. Each is evaluated on the row as
/// it was.
pub open spec fn assigned(
    s: SchemaV,
    row: Seq<ValueV>,
    assignments: Seq<(Seq<char>, ExprV)>,
    i: int,
    acc: Seq<ValueV>,
    known: Seq<(QuestionV, AnswerV)>,
) -> Result<Seq<ValueV>, ErrorV>
    decreases assignments.len() - i,
{
    if i >= assignments.len() {
        Ok(acc)
    } else {
        match schema::column_position(s.columns, assignments[i].0) {
            None => Err(facts::named_error(ErrorKind::UnknownColumn, assignments[i].0)),
            Some(at) => match eval::evaluated(assignments[i].1, row, s, known) {
                Err(e) => Err(e),
                Ok(v) => assigned(s, row, assignments, i + 1, acc.update(at, v), known),
            },
        }
    }
}

/// The change of a row by an UPDATE: its key before, its key after, and the row after.
pub struct UpdateV {
    pub old_key: KeyV,
    pub new_key: KeyV,
    pub row: Seq<ValueV>,
}

/// The change of a row by assignments.
pub open spec fn updated(
    s: SchemaV,
    row: Seq<ValueV>,
    assignments: Seq<(Seq<char>, ExprV)>,
    known: Seq<(QuestionV, AnswerV)>,
) -> Result<UpdateV, ErrorV> {
    match assigned(s, row, assignments, 0, row, known) {
        Err(e) => Err(e),
        Ok(after) => match primary_key(s, row) {
            Err(e) => Err(e),
            Ok(old_key) => match primary_key(s, after) {
                Err(e) => Err(e),
                Ok(new_key) => Ok(UpdateV { old_key, new_key, row: after }),
            },
        },
    }
}

/// The rows that a DELETE or an UPDATE changes.
pub fn plan_affected_rows(table_name: &str, s: &Schema, filter: Option<Expr>) -> (out: LogicalPlan)
    ensures
        out@ == affected_rows(table_name@, s@, statement::filter_view(filter)),
{
    let scan = LogicalPlan::Scan { table_name: table_name.to_owned(), schema: s.clone(), range: None };
    assert(scan@ == (PlanV::Scan { table_name: table_name@, schema: s@, range: None }));
    match filter {
        Some(predicate) => LogicalPlan::Filter { source: Box::new(scan), predicate },
        None => scan,
    }
}

/// The change of a row by an UPDATE.
#[derive(Debug)]
pub struct RowUpdate {
    pub old_key: DbKey,
    pub new_key: DbKey,
    pub row: Row,
    /// Whether the key changed, so that the row under the old key has to be deleted.
    pub moved: bool,
}

/// A row with assignments applied.
fn assign(s: &Schema, row: &Row, assignments: &Vec<(String, Expr)>, facts: &Facts) -> (out: Result<Row, SqlError>)
    requires
        row@.len() >= s@.columns.len(),
    ensures
        match out {
            Ok(r) => assigned(s@, row@, statement::assignments_model(assignments@), 0, row@, facts@) == Ok::<
                Seq<ValueV>,
                ErrorV,
            >(r@),
            Err(e) => assigned(s@, row@, statement::assignments_model(assignments@), 0, row@, facts@) == Err::<
                Seq<ValueV>,
                ErrorV,
            >(e@),
        },
{
    let mut vals = value::copy_values(&row.values);
    let ghost view = statement::assignments_model(assignments@);
    for i in 0..assignments.len()
        invariant
            view == statement::assignments_model(assignments@),
            row@.len() >= s@.columns.len(),
            vals@.len() == row@.len(),
            assigned(s@, row@, view, 0, row@, facts@) == assigned(
                s@,
                row@,
                view,
                i as int,
                value::values_view(vals@),
                facts@,
            ),
    {
        assert(view[i as int] == (assignments@[i as int].0@, assignments@[i as int].1@));
        match s.column_index(assignments[i].0.as_str()) {
            None => {
                return Err(SqlError::named(ErrorKind::UnknownColumn, assignments[i].0.as_str()));
            },
            Some(at) => {
                let v = assignments[i].1.eval(row, s, facts)?;
                let ghost before = value::values_view(vals@);
                let ghost added = v@;
                vals.set(at, v);
                assert(value::values_view(vals@) =~= before.update(at as int, added));
            },
        }
    }
    Ok(Row::new(vals))
}

/// The change of a row by assignments.
pub fn update_row(s: &Schema, row: &Row, assignments: &Vec<(String, Expr)>, facts: &Facts) -> (out: Result<
    RowUpdate,
    SqlError,
>)
    requires
        row@.len() >= s@.columns.len(),
    ensures
        match out {
            Ok(u) => {
                &&& updated(s@, row@, statement::assignments_model(assignments@), facts@) == Ok::<UpdateV, ErrorV>(
                    UpdateV { old_key: u.old_key@, new_key: u.new_key@, row: u.row@ },
                )
                &&& u.moved == (value::key_order(u.old_key@, u.new_key@) != Order::Equal)
            },
            Err(e) => updated(s@, row@, statement::assignments_model(assignments@), facts@) == Err::<
                UpdateV,
                ErrorV,
            >(e@),
        },
{
    let after = assign(s, row, assignments, facts)?;
    let old_key = extract_primary_key(s, row)?;
    let new_key = extract_primary_key(s, &after)?;
    let moved = !old_key.same(&new_key);
    Ok(RowUpdate { old_key, new_key, row: after, moved })
}

} // verus!
