//! What statements that define tables and write values say, as they are written: the columns of a
//! table, the values of an INSERT, the assignments of an UPDATE, and the columns of an index.

use crate::binding;
use crate::ddl;
use crate::engine::Snapshot;
use crate::expr::ExprV;
use crate::facts;
use crate::facts::{AnswerV, ErrorV, QuestionV};
use crate::run;
use crate::run::{ActionV, EventV, ExecutionV, StageV};
use crate::scalar;
use crate::schema::{ColumnV, IndexType, SchemaV};
use crate::statement;
use crate::statement::{AlterOpV, SqlStatementV};
use crate::syntax::{AlterOperationV, AssignmentTargetV, AssignmentV, ColumnDefV, ColumnOptionV, NamePartV, ObjectNameV, SqlDataTypeV, SqlNodeV, StatementBodyV, StatementV, TableConstraintV, TableOptionV, ValuesRowV};
use crate::text;
use crate::value::{DataType, ValueV};
use vstd::prelude::*;

verus! {

// ---------------------------------------------------------------- defaults

/// The default of a column is worth what the expression behind DEFAULT is worth anywhere else.
pub proof fn defaults_are_worth_their_expressions(nodes: Seq<SqlNodeV>, at: int, known: Seq<(QuestionV, AnswerV)>)
    ensures
        ddl::default_value(nodes, at, known) matches Ok(v) ==> scalar::planned(nodes, at, known) == Ok::<ExprV, ErrorV>(
            ExprV::Literal(v),
        ),
    decreases at,
{
    if 0 <= at < nodes.len() {
        if let SqlNodeV::UnaryOp { op, expr } = nodes[at] {
            if expr < at {
                defaults_are_worth_their_expressions(nodes, expr as int, known);
                assert(scalar::operand(nodes, expr as int, at, known) == scalar::planned(nodes, expr as int, known));
            }
        }
    }
}

proof fn last_default(
    nodes: Seq<SqlNodeV>,
    options: Seq<ColumnOptionV>,
    i: int,
    found: Option<ValueV>,
    known: Seq<(QuestionV, AnswerV)>,
)
    requires
        0 <= i,
    ensures
        ddl::default_from(nodes, options, i, found, known) matches Ok(d) ==> {
            &&& (forall|j: int| i <= j < options.len() ==> !(#[trigger] options[j] is Default)) ==> d == found
            &&& forall|j: int|
                i <= j < options.len() && #[trigger] options[j] is Default && (forall|h: int|
                    j < h < options.len() ==> !(#[trigger] options[h] is Default)) ==> (d matches Some(v)
                    && ddl::default_value(nodes, options[j]->Default_0 as int, known) == Ok::<ValueV, ErrorV>(v))
        },
    decreases options.len() - i,
{
    if i < options.len() {
        match options[i] {
            ColumnOptionV::Default(id) => {
                if let Ok(v) = ddl::default_value(nodes, id as int, known) {
                    last_default(nodes, options, i + 1, Some(v), known);
                    if let Ok(d) = ddl::default_from(nodes, options, i, found, known) {
                        assert forall|j: int|
                            i <= j < options.len() && #[trigger] options[j] is Default && (forall|h: int|
                                j < h < options.len() ==> !(#[trigger] options[h] is Default)) implies (d matches Some(v)
                            && ddl::default_value(nodes, options[j]->Default_0 as int, known) == Ok::<ValueV, ErrorV>(v)) by {
                            if j == i {
                                assert(forall|h: int| i + 1 <= h < options.len() ==> !(#[trigger] options[h] is Default));
                            }
                        }
                    }
                }
            },
            _ => {
                last_default(nodes, options, i + 1, found, known);
            },
        }
    }
}

// ---------------------------------------------------------------- tables

/// Whether a definition, or a constraint of its table, makes a column a part of the primary key.
pub open spec fn is_written_as_key(nodes: Seq<SqlNodeV>, c: ColumnDefV, constraints: Seq<TableConstraintV>) -> bool {
    ||| exists|i: int| 0 <= i < c.options.len() && #[trigger] c.options[i] == ColumnOptionV::PrimaryKey
    ||| exists|i: int, j: int|
        0 <= i < constraints.len() && is_named_in(nodes, #[trigger] constraints[i], #[trigger] at_place(j), c.name)
}

/// A place in a list.
pub open spec fn at_place(j: int) -> int {
    j
}

/// Whether a constraint makes the column with a name a part of the primary key, at a place of it.
pub open spec fn is_named_in(nodes: Seq<SqlNodeV>, c: TableConstraintV, j: int, name: Seq<char>) -> bool {
    c matches TableConstraintV::PrimaryKey(ids) && 0 <= j < ids.len() && ids[j] < nodes.len() && (
    nodes[ids[j] as int] matches SqlNodeV::Identifier { value, .. } && value == name)
}

/// A table that is created has the columns of its definition, in their order and under their names.
/// A column is a key where its definition or a constraint says so; it may be null where it is no
/// key and is not declared NOT NULL; and its default is the value behind its last DEFAULT.
pub proof fn created_tables_have_their_columns(
    nodes: Seq<SqlNodeV>,
    columns: Seq<ColumnDefV>,
    constraints: Seq<TableConstraintV>,
    options: Seq<TableOptionV>,
    known: Seq<(QuestionV, AnswerV)>,
    k: int,
)
    requires
        0 <= k < columns.len(),
    ensures
        ddl::created_schema(nodes, columns, constraints, options, known) matches Ok(s) ==> {
            let c = s.columns[k];
            let d = columns[k];
            &&& s.columns.len() == columns.len()
            &&& s.indexes.len() == 0
            &&& c.name == d.name
            &&& k <= u32::MAX ==> c.id == k
            &&& c.is_primary_key == is_written_as_key(nodes, d, constraints)
            &&& c.is_nullable == (!c.is_primary_key && !d.options.contains(ColumnOptionV::NotNull))
            &&& (forall|j: int| 0 <= j < d.options.len() ==> !(#[trigger] d.options[j] is Default))
                ==> c.default_value is None
            &&& forall|j: int|
                0 <= j < d.options.len() && #[trigger] d.options[j] is Default && (forall|h: int|
                    j < h < d.options.len() ==> !(#[trigger] d.options[h] is Default)) ==> (c.default_value matches Some(v)
                    && scalar::planned(nodes, d.options[j]->Default_0 as int, known) == Ok::<ExprV, ErrorV>(
                    ExprV::Literal(v),
                ))
            &&& match d.data_type {
                SqlDataTypeV::Integer | SqlDataTypeV::Int | SqlDataTypeV::BigInt => c.data_type == DataType::Int,
                SqlDataTypeV::Float | SqlDataTypeV::Double | SqlDataTypeV::Real => c.data_type == DataType::Float,
                SqlDataTypeV::Boolean | SqlDataTypeV::Bool => c.data_type == DataType::Bool,
                SqlDataTypeV::Text | SqlDataTypeV::Varchar | SqlDataTypeV::Char | SqlDataTypeV::Str => c.data_type
                    == DataType::String,
                SqlDataTypeV::Bytea | SqlDataTypeV::Blob => c.data_type == DataType::Bytes,
                _ => true,
            }
        },
{
    if let Ok(s) = ddl::created_schema(nodes, columns, constraints, options, known) {
        let g = ddl::options_added(nodes, ddl::GroupsV { columns: Seq::empty(), options: Seq::empty() }, options, 0)->Ok_0;
        let outs = ddl::created_columns(nodes, columns, constraints, g, known);
        let cols = facts::collected(outs, 0, Seq::empty())->Ok_0;
        binding::collected_values(outs, 0, Seq::empty(), cols);
        assert(outs[k] == Ok::<ColumnV, ErrorV>(cols[k]));
        let d = columns[k];
        assert(ddl::created_column(nodes, d, constraints, g, known) == Ok::<ColumnV, ErrorV>(cols[k]));
        last_default(nodes, d.options, 0, None, known);
        assert forall|j: int| 0 <= j < d.options.len() && #[trigger] d.options[j] is Default implies (
        ddl::default_value(nodes, d.options[j]->Default_0 as int, known) matches Ok(v) ==> scalar::planned(
            nodes,
            d.options[j]->Default_0 as int,
            known,
        ) == Ok::<ExprV, ErrorV>(ExprV::Literal(v))) by {
            defaults_are_worth_their_expressions(nodes, d.options[j]->Default_0 as int, known);
        }
        key_as_written(nodes, d, constraints);
        assert(ddl::excludes_null(d.options) == d.options.contains(ColumnOptionV::NotNull));
    }
}

proof fn key_as_written(nodes: Seq<SqlNodeV>, c: ColumnDefV, constraints: Seq<TableConstraintV>)
    ensures
        (ddl::declares_key(c.options) || ddl::in_key(nodes, constraints, c.name)) == is_written_as_key(
            nodes,
            c,
            constraints,
        ),
{
    if ddl::in_key(nodes, constraints, c.name) {
        let i = choose|i: int|
            0 <= i < constraints.len() && ddl::constrains(nodes, #[trigger] constraints[i], c.name);
        if let TableConstraintV::PrimaryKey(ids) = constraints[i] {
            let j = choose|j: int| 0 <= j < ids.len() && #[trigger] ddl::is_identifier(nodes, ids[j], c.name);
            assert(is_named_in(nodes, constraints[i], at_place(j), c.name));
        }
    }
    if exists|i: int, j: int|
        0 <= i < constraints.len() && is_named_in(nodes, #[trigger] constraints[i], #[trigger] at_place(j), c.name) {
        let (i, j) = choose|i: int, j: int|
            0 <= i < constraints.len() && is_named_in(nodes, #[trigger] constraints[i], #[trigger] at_place(j), c.name);
        if let TableConstraintV::PrimaryKey(ids) = constraints[i] {
            assert(ddl::is_identifier(nodes, ids[j], c.name));
        }
        assert(ddl::constrains(nodes, constraints[i], c.name));
    }
}

// ---------------------------------------------------------------- values

/// An INSERT with values has a row for each row that is written, with what each expression is worth
/// in the place of the column that is named in that place.
pub proof fn inserted_values_are_worth_their_expressions(
    nodes: Seq<SqlNodeV>,
    rows: Seq<ValuesRowV>,
    n: nat,
    known: Seq<(QuestionV, AnswerV)>,
    out: Seq<Seq<ValueV>>,
    r: int,
    c: int,
)
    requires
        facts::collected(statement::inserted_rows(nodes, rows, n, known), 0, Seq::empty()) == Ok::<
            Seq<Seq<ValueV>>,
            ErrorV,
        >(out),
        0 <= r < rows.len(),
        0 <= c < n,
    ensures
        out.len() == rows.len(),
        out[r].len() == n,
        rows[r].exprs.len() == n,
        scalar::planned(nodes, rows[r].exprs[c] as int, known) == Ok::<ExprV, ErrorV>(ExprV::Literal(out[r][c])),
{
    let outs = statement::inserted_rows(nodes, rows, n, known);
    binding::collected_values(outs, 0, Seq::empty(), out);
    assert(outs[r] == Ok::<Seq<ValueV>, ErrorV>(out[r]));
    assert(statement::inserted_row(nodes, rows[r], n, known) == Ok::<Seq<ValueV>, ErrorV>(out[r]));
    let values = statement::inserted_values(nodes, rows[r].exprs, known);
    binding::collected_values(values, 0, Seq::empty(), out[r]);
    assert(values[c] == Ok::<ValueV, ErrorV>(out[r][c]));
    assert(statement::inserted_value(nodes, rows[r].exprs[c] as int, known) == Ok::<ValueV, ErrorV>(out[r][c]));
}

/// An INSERT that names no columns is into all columns of its table, in their order; one that names
/// some is into those, in the order in which it names them.
pub proof fn inserts_are_into_the_named_columns(columns: Seq<ObjectNameV>, s: SchemaV, k: int)
    ensures
        statement::insert_columns(columns, s) matches Ok(names) ==> {
            &&& columns.len() == 0 ==> names.len() == s.columns.len() && (0 <= k < names.len() ==> names[k]
                == s.columns[k].name)
            &&& columns.len() > 0 ==> names.len() == columns.len() && (0 <= k < names.len() ==> columns[k].parts.len() == 1
                && columns[k].parts[0] == NamePartV::Ident(names[k]))
        },
{
    if columns.len() > 0 {
        if let Ok(names) = statement::insert_columns(columns, s) {
            let outs = statement::insert_names(columns);
            binding::collected_values(outs, 0, Seq::empty(), names);
            if 0 <= k < names.len() {
                assert(outs[k] == Ok::<Seq<char>, ErrorV>(names[k]));
            }
        }
    }
}

/// The assignments of an UPDATE are those that are written, in their order: to the column that is
/// named, what the expression behind it is.
pub proof fn assignments_are_as_written(
    nodes: Seq<SqlNodeV>,
    assignments: Seq<AssignmentV>,
    known: Seq<(QuestionV, AnswerV)>,
    out: Seq<(Seq<char>, ExprV)>,
    k: int,
)
    requires
        facts::collected(statement::planned_assignments(nodes, assignments, known), 0, Seq::empty()) == Ok::<
            Seq<(Seq<char>, ExprV)>,
            ErrorV,
        >(out),
        0 <= k < assignments.len(),
    ensures
        out.len() == assignments.len(),
        scalar::planned(nodes, assignments[k].value as int, known) == Ok::<ExprV, ErrorV>(out[k].1),
        assignments[k].target matches AssignmentTargetV::Column(n) ==> n.parts.len() == 1 ==> n.parts[0]
            == NamePartV::Ident(out[k].0),
{
    let outs = statement::planned_assignments(nodes, assignments, known);
    binding::collected_values(outs, 0, Seq::empty(), out);
    assert(outs[k] == Ok::<(Seq<char>, ExprV), ErrorV>(out[k]));
    assert(statement::planned_assignment(nodes, assignments[k], known) == Ok::<(Seq<char>, ExprV), ErrorV>(out[k]));
    if let AssignmentTargetV::Column(n) = assignments[k].target {
        if n.parts.len() == 1 {
            reveal_with_fuel(statement::identifiers, 2);
            if let NamePartV::Ident(name) = n.parts[0] {
                let parts = seq![name];
                assert(Seq::<Seq<char>>::empty().push(name) =~= parts);
                one_part(name);
            }
        }
    }
}

proof fn one_part(name: Seq<char>)
    ensures
        text::joined(seq![name], '.') == name,
{
    reveal_with_fuel(text::joined, 2);
    assert(text::joined(seq![name], '.') =~= name);
}

// ---------------------------------------------------------------- indexes and other changes

/// An index is on the columns that are named, in their order; it searches for words where a method
/// is named, with that method, and only there. A DROP drops what is named first; a RENAME gives the
/// old name and the new one in their places.
pub proof fn schema_changes_are_as_written(
    tables: Seq<(Seq<char>, SchemaV)>,
    s: StatementV,
    known: Seq<(QuestionV, AnswerV)>,
    k: int,
)
    ensures
        statement::planned_statement(tables, s, known) matches Ok(t) ==> match s.body {
            StatementBodyV::CreateIndex { name, table_name, columns, using } => match t {
                SqlStatementV::CreateIndex { table_name: on, index_name, columns: names, index_type, tokenizer } => {
                    &&& on == table_name
                    &&& name == Some(index_name)
                    &&& names.len() == columns.len()
                    &&& 0 <= k < names.len() ==> columns[k] < s.exprs.len() && (
                    s.exprs[columns[k] as int] matches SqlNodeV::Identifier { value, .. } && value == names[k])
                    &&& (index_type == IndexType::FullText) == (using is Some)
                    &&& (index_type == IndexType::BTree) == (using is None)
                    &&& tokenizer == using
                },
                _ => false,
            },
            StatementBodyV::Drop { kind, names } => match t {
                SqlStatementV::DropTable { name } => kind is Table && names.len() > 0 && name == names[0],
                SqlStatementV::DropIndex { table_name, index_name } => {
                    &&& kind is Index && names.len() > 0 && index_name == names[0]
                    &&& exists|i: int|
                        0 <= i < tables.len() && (#[trigger] tables[i]).0 == table_name && statement::has_index(
                            tables[i].1,
                            index_name,
                        )
                },
                _ => false,
            },
            StatementBodyV::AlterTable { name, operations } => operations.len() == 1 && match (t, operations[0]) {
                (
                    SqlStatementV::AlterTable { table_name, op: AlterOpV::RenameColumn { old_name, new_name } },
                    AlterOperationV::RenameColumn { old_name: from, new_name: to },
                ) => table_name == name && old_name == from && new_name == to,
                (
                    SqlStatementV::AlterTable { table_name, op: AlterOpV::AddColumn(c) },
                    AlterOperationV::AddColumn(d),
                ) => table_name == name && c.name == d.name && !c.is_primary_key && c.is_nullable
                    == !d.options.contains(ColumnOptionV::NotNull),
                _ => false,
            },
            _ => true,
        },
{
    if let Ok(t) = statement::planned_statement(tables, s, known) {
        match s.body {
            StatementBodyV::CreateIndex { name, table_name, columns, using } => {
                let outs = statement::index_columns(s.exprs, columns);
                let names = facts::collected(outs, 0, Seq::empty())->Ok_0;
                if name is Some {
                    binding::collected_values(outs, 0, Seq::empty(), names);
                    if 0 <= k < names.len() {
                        assert(outs[k] == Ok::<Seq<char>, ErrorV>(names[k]));
                    }
                }
            },
            StatementBodyV::Drop { kind, names } => {
                if kind is Index && names.len() > 0 {
                    found_table(tables, names[0], 0);
                }
            },
            StatementBodyV::AlterTable { operations, .. } => {
                if let AlterOperationV::AddColumn(d) = operations[0] {
                    assert(ddl::excludes_null(d.options) == d.options.contains(ColumnOptionV::NotNull));
                }
            },
            _ => {},
        }
    }
}

proof fn found_table(tables: Seq<(Seq<char>, SchemaV)>, name: Seq<char>, i: int)
    requires
        0 <= i,
    ensures
        statement::index_table(tables, name, i) matches Ok(t) ==> exists|k: int|
            i <= k < tables.len() && (#[trigger] tables[k]).0 == t && statement::has_index(tables[k].1, name),
    decreases tables.len() - i,
{
    if i < tables.len() {
        if !statement::has_index(tables[i].1, name) {
            found_table(tables, name, i + 1);
        }
    }
}

/// A statement on tables or indexes asks for the one operation that it names, on what it names and
/// with what it says, and ends when that is done.
pub proof fn schema_changes_are_carried_out(
    x: ExecutionV,
    db: Snapshot,
    ps: Map<Seq<char>, ValueV>,
    known: Seq<(QuestionV, AnswerV)>,
)
    requires
        x.stage == StageV::Starting,
    ensures
        ({
            let first = run::stepped(x, EventV::Started, db, ps, known);
            let wanted = match x.statement {
                SqlStatementV::CreateTable { name, schema } => Some(ActionV::CreateTable { name, schema }),
                SqlStatementV::DropTable { name } => Some(ActionV::DropTable { name }),
                SqlStatementV::CreateIndex { table_name, index_name, columns, index_type, tokenizer } => Some(
                    ActionV::CreateIndex { table_name, index_name, columns, index_type, tokenizer },
                ),
                SqlStatementV::DropIndex { table_name, index_name } => Some(
                    ActionV::DropIndex { table_name, index_name },
                ),
                SqlStatementV::AlterTable { table_name, op } => Some(ActionV::AlterTable { table_name, op }),
                SqlStatementV::Analyze { table_name } => Some(ActionV::Analyze { table_name }),
                _ => None,
            };
            wanted matches Some(a) ==> {
                &&& first matches Ok(y) && y.1 == a && (run::stepped(y.0, EventV::Done, db, ps, known) matches Ok(z)
                    && z.1 matches ActionV::Finish(r) && r is Changed)
            }
        }),
{
    reveal(run::advanced);
}

} // verus!
