//! Physical plans: how the rows of a logical plan are computed.

use crate::bounds;
use crate::expr;
use crate::expr::{ColumnSet, Expr, ExprV, Operator};
use crate::facts;
use crate::facts::{ErrorKind, ErrorV, SqlError};
use crate::logical;
use crate::logical::{AggregateExpr, AggregateV, FtsQuery, FtsQueryV, JoinType, LogicalPlan, PlanKey, PlanKeyV, PlanV, SetOpType};
use crate::optimizer;
use crate::optimizer::Optimizer;
use crate::params::Params;
use crate::schema;
use crate::schema::{Schema, SchemaV};
use crate::text;
use crate::value;
use crate::value::{DataType, DbKey, KeyV, Order, ValueV};
use vstd::prelude::*;
use vstd::string::*;

verus! {

/// A physical plan. The columns of a scan are those that have to be read; none stands for
/// all of them. A scan without a start or an end is not bounded there.
#[derive(Debug)]
pub enum PhysicalPlan {
    IndexScan {
        table_name: String,
        index_name: String,
        schema: Schema,
        start: Option<DbKey>,
        end: Option<DbKey>,
        columns: Option<Vec<String>>,
    },
    FullTextScan {
        table_name: String,
        index_name: String,
        schema: Schema,
        query: FtsQuery,
        columns: Option<Vec<String>>,
    },
    SeqScan {
        table_name: String,
        schema: Schema,
        start: Option<DbKey>,
        end: Option<DbKey>,
        columns: Option<Vec<String>>,
    },
    Filter { source: Box<PhysicalPlan>, predicate: Expr },
    Projection { source: Box<PhysicalPlan>, expressions: Vec<Expr>, schema: Schema },
    Limit { source: Box<PhysicalPlan>, limit: Option<usize>, offset: usize },
    Sort { source: Box<PhysicalPlan>, keys: Vec<(Expr, bool)> },
    CrossJoin { left: Box<PhysicalPlan>, right: Box<PhysicalPlan>, schema: Schema },
    SortMergeJoin {
        left: Box<PhysicalPlan>,
        right: Box<PhysicalPlan>,
        left_on: Expr,
        right_on: Expr,
        join_type: JoinType,
        schema: Schema,
    },
    /// An aggregation of rows that come sorted by the grouping expression.
    SortedAggregate { source: Box<PhysicalPlan>, group_by: Vec<Expr>, aggrs: Vec<AggregateExpr>, schema: Schema },
    HashAggregate { source: Box<PhysicalPlan>, group_by: Vec<Expr>, aggrs: Vec<AggregateExpr>, schema: Schema },
    SetOp { left: Box<PhysicalPlan>, right: Box<PhysicalPlan>, op: SetOpType, all: bool, schema: Schema },
    Distinct { source: Box<PhysicalPlan> },
}

/// The model of a physical plan.
pub enum PhysicalV {
    IndexScan {
        table_name: Seq<char>,
        index_name: Seq<char>,
        schema: SchemaV,
        start: Option<KeyV>,
        end: Option<KeyV>,
        columns: Option<Set<Seq<char>>>,
    },
    FullTextScan {
        table_name: Seq<char>,
        index_name: Seq<char>,
        schema: SchemaV,
        query: FtsQueryV,
        columns: Option<Set<Seq<char>>>,
    },
    SeqScan {
        table_name: Seq<char>,
        schema: SchemaV,
        start: Option<KeyV>,
        end: Option<KeyV>,
        columns: Option<Set<Seq<char>>>,
    },
    Filter { source: Box<PhysicalV>, predicate: ExprV },
    Projection { source: Box<PhysicalV>, expressions: Seq<ExprV>, schema: SchemaV },
    Limit { source: Box<PhysicalV>, limit: Option<usize>, offset: usize },
    Sort { source: Box<PhysicalV>, keys: Seq<(ExprV, bool)> },
    CrossJoin { left: Box<PhysicalV>, right: Box<PhysicalV>, schema: SchemaV },
    SortMergeJoin {
        left: Box<PhysicalV>,
        right: Box<PhysicalV>,
        left_on: ExprV,
        right_on: ExprV,
        join_type: JoinType,
        schema: SchemaV,
    },
    SortedAggregate { source: Box<PhysicalV>, group_by: Seq<ExprV>, aggrs: Seq<AggregateV>, schema: SchemaV },
    HashAggregate { source: Box<PhysicalV>, group_by: Seq<ExprV>, aggrs: Seq<AggregateV>, schema: SchemaV },
    SetOp { left: Box<PhysicalV>, right: Box<PhysicalV>, op: SetOpType, all: bool, schema: SchemaV },
    Distinct { source: Box<PhysicalV> },
}

/// The set of optional column names.
pub open spec fn name_set(o: Option<Vec<String>>) -> Option<Set<Seq<char>>> {
    match o {
        Some(v) => Some(text::views(v@).to_set()),
        None => None,
    }
}

impl PhysicalPlan {
    /// The model of the plan.
    pub open spec fn view(&self) -> PhysicalV
        decreases self,
    {
        match self {
            PhysicalPlan::IndexScan { table_name, index_name, schema, start, end, columns } => PhysicalV::IndexScan {
                table_name: table_name@,
                index_name: index_name@,
                schema: schema@,
                start: bounds::opt_key(*start),
                end: bounds::opt_key(*end),
                columns: name_set(*columns),
            },
            PhysicalPlan::FullTextScan { table_name, index_name, schema, query, columns } => PhysicalV::FullTextScan {
                table_name: table_name@,
                index_name: index_name@,
                schema: schema@,
                query: query@,
                columns: name_set(*columns),
            },
            PhysicalPlan::SeqScan { table_name, schema, start, end, columns } => PhysicalV::SeqScan {
                table_name: table_name@,
                schema: schema@,
                start: bounds::opt_key(*start),
                end: bounds::opt_key(*end),
                columns: name_set(*columns),
            },
            PhysicalPlan::Filter { source, predicate } => PhysicalV::Filter {
                source: Box::new(source.view()),
                predicate: predicate@,
            },
            PhysicalPlan::Projection { source, expressions, schema } => PhysicalV::Projection {
                source: Box::new(source.view()),
                expressions: expr::exprs_view(expressions@),
                schema: schema@,
            },
            PhysicalPlan::Limit { source, limit, offset } => PhysicalV::Limit {
                source: Box::new(source.view()),
                limit: *limit,
                offset: *offset,
            },
            PhysicalPlan::Sort { source, keys } => PhysicalV::Sort {
                source: Box::new(source.view()),
                keys: logical::sort_keys_view(keys@),
            },
            PhysicalPlan::CrossJoin { left, right, schema } => PhysicalV::CrossJoin {
                left: Box::new(left.view()),
                right: Box::new(right.view()),
                schema: schema@,
            },
            PhysicalPlan::SortMergeJoin { left, right, left_on, right_on, join_type, schema } =>
                PhysicalV::SortMergeJoin {
                left: Box::new(left.view()),
                right: Box::new(right.view()),
                left_on: left_on@,
                right_on: right_on@,
                join_type: *join_type,
                schema: schema@,
            },
            PhysicalPlan::SortedAggregate { source, group_by, aggrs, schema } => PhysicalV::SortedAggregate {
                source: Box::new(source.view()),
                group_by: expr::exprs_view(group_by@),
                aggrs: logical::aggrs_view(aggrs@),
                schema: schema@,
            },
            PhysicalPlan::HashAggregate { source, group_by, aggrs, schema } => PhysicalV::HashAggregate {
                source: Box::new(source.view()),
                group_by: expr::exprs_view(group_by@),
                aggrs: logical::aggrs_view(aggrs@),
                schema: schema@,
            },
            PhysicalPlan::SetOp { left, right, op, all, schema } => PhysicalV::SetOp {
                left: Box::new(left.view()),
                right: Box::new(right.view()),
                op: *op,
                all: *all,
                schema: schema@,
            },
            PhysicalPlan::Distinct { source } => PhysicalV::Distinct { source: Box::new(source.view()) },
        }
    }
}

/// The schema of the rows of a physical plan.
pub open spec fn physical_schema(p: PhysicalV) -> SchemaV
    decreases p,
{
    match p {
        PhysicalV::IndexScan { schema, .. } => schema,
        PhysicalV::FullTextScan { schema, .. } => schema,
        PhysicalV::SeqScan { schema, .. } => schema,
        PhysicalV::Filter { source, .. } => physical_schema(*source),
        PhysicalV::Projection { schema, .. } => schema,
        PhysicalV::Limit { source, .. } => physical_schema(*source),
        PhysicalV::Sort { source, .. } => physical_schema(*source),
        PhysicalV::CrossJoin { schema, .. } => schema,
        PhysicalV::SortMergeJoin { schema, .. } => schema,
        PhysicalV::SortedAggregate { schema, .. } => schema,
        PhysicalV::HashAggregate { schema, .. } => schema,
        PhysicalV::SetOp { schema, .. } => schema,
        PhysicalV::Distinct { source } => physical_schema(*source),
    }
}

impl PhysicalPlan {
    /// The schema of the rows of the plan.
    pub fn schema(&self) -> (out: Schema)
        ensures
            out@ == physical_schema(self@),
        decreases self,
    {
        match self {
            PhysicalPlan::IndexScan { schema, .. } => schema.clone(),
            PhysicalPlan::FullTextScan { schema, .. } => schema.clone(),
            PhysicalPlan::SeqScan { schema, .. } => schema.clone(),
            PhysicalPlan::Filter { source, .. } => source.schema(),
            PhysicalPlan::Projection { schema, .. } => schema.clone(),
            PhysicalPlan::Limit { source, .. } => source.schema(),
            PhysicalPlan::Sort { source, .. } => source.schema(),
            PhysicalPlan::CrossJoin { schema, .. } => schema.clone(),
            PhysicalPlan::SortMergeJoin { schema, .. } => schema.clone(),
            PhysicalPlan::SortedAggregate { schema, .. } => schema.clone(),
            PhysicalPlan::HashAggregate { schema, .. } => schema.clone(),
            PhysicalPlan::SetOp { schema, .. } => schema.clone(),
            PhysicalPlan::Distinct { source } => source.schema(),
        }
    }
}

/// The model of an outcome that is a physical plan.
pub open spec fn physical_result(r: Result<PhysicalPlan, SqlError>) -> Result<PhysicalV, ErrorV> {
    match r {
        Ok(p) => Ok(p@),
        Err(e) => Err(e@),
    }
}

// ---------------------------------------------------------------- key ranges

/// The key that a bound stands for.
pub open spec fn resolved_key(k: PlanKeyV, ps: Map<Seq<char>, ValueV>) -> Result<KeyV, ErrorV> {
    match k {
        PlanKeyV::Value(v) => Ok(v),
        PlanKeyV::Parameter(name) => if !ps.contains_key(name) {
            Err(facts::named_error(ErrorKind::UnboundParameter, name))
        } else {
            match bounds::key_of(ps[name]) {
                Some(v) => Ok(v),
                None => Err(facts::named_error(ErrorKind::KeyParameterType, name)),
            }
        },
    }
}

/// The keys that the bounds of a range stand for.
pub open spec fn resolved_range(r: (PlanKeyV, PlanKeyV), ps: Map<Seq<char>, ValueV>) -> Result<(KeyV, KeyV), ErrorV> {
    match resolved_key(r.0, ps) {
        Err(e) => Err(e),
        Ok(a) => match resolved_key(r.1, ps) {
            Err(e) => Err(e),
            Ok(b) => Ok((a, b)),
        },
    }
}

/// The keys that bound a scan of a column. A key that cannot bound the column's keys, which a
/// parameter can be, bounds nothing.
pub open spec fn scan_range(r: (PlanKeyV, PlanKeyV), ps: Map<Seq<char>, ValueV>, ty: Option<DataType>) -> Result<
    (KeyV, KeyV),
    ErrorV,
> {
    match resolved_range(r, ps) {
        Err(e) => Err(e),
        Ok(k) => match ty {
            None => Ok(k),
            Some(t) => Ok(
                (
                    if bounds::key_fits(k.0, t) {
                        k.0
                    } else {
                        bounds::type_min(t)
                    },
                    if bounds::key_fits(k.1, t) {
                        k.1
                    } else {
                        bounds::type_max(t)
                    },
                ),
            ),
        },
    }
}

/// The key that a scan starts at; none where it bounds nothing.
pub open spec fn lower(k: KeyV) -> Option<KeyV> {
    if bounds::unbounded_min(k) {
        None
    } else {
        Some(k)
    }
}

/// The key that a scan ends at; none where it bounds nothing.
pub open spec fn upper(k: KeyV) -> Option<KeyV> {
    if bounds::unbounded_max(k) {
        None
    } else {
        Some(k)
    }
}

/// Whether a scan reads a key.
pub open spec fn reads(start: Option<KeyV>, end: Option<KeyV>, k: KeyV) -> bool {
    &&& start matches Some(a) ==> value::key_order(a, k) != Order::Greater
    &&& end matches Some(b) ==> value::key_order(k, b) != Order::Greater
}

/// The type of a primary key of one column.
pub open spec fn key_type(s: SchemaV) -> Option<DataType> {
    match schema::primary_key_position(s) {
        Some(i) => Some(s.columns[i as int].data_type),
        None => None,
    }
}

/// The type of the first column of an index.
pub open spec fn index_type(s: SchemaV, index_name: Seq<char>) -> Option<DataType> {
    match index_from(s.indexes, index_name, 0) {
        None => None,
        Some(index) => if index.columns.len() == 0 {
            None
        } else {
            match schema::column_position(s.columns, index.columns[0]) {
                None => None,
                Some(i) => Some(s.columns[i].data_type),
            }
        },
    }
}

/// The smallest and the largest key of an index on a column of a type.
pub open spec fn type_range(ty: DataType) -> (KeyV, KeyV) {
    if ty is Bool {
        (KeyV::Bool(false), KeyV::Bool(true))
    } else {
        (bounds::type_min(ty), bounds::type_max(ty))
    }
}

/// The first index with a name, from position `i` on.
pub open spec fn index_from(s: Seq<schema::IndexV>, name: Seq<char>, i: int) -> Option<schema::IndexV>
    decreases s.len() - i,
{
    if i >= s.len() {
        None
    } else if s[i].name == name {
        Some(s[i])
    } else {
        index_from(s, name, i + 1)
    }
}

/// The keys between which all of an index lies, by the type of its first column.
pub open spec fn index_range(s: SchemaV, index_name: Seq<char>) -> Result<(KeyV, KeyV), ErrorV> {
    match index_from(s.indexes, index_name, 0) {
        None => Err(facts::named_error(ErrorKind::IndexMissing, index_name)),
        Some(index) => if index.columns.len() == 0 {
            Err(facts::named_error(ErrorKind::IndexEmpty, index_name))
        } else {
            match schema::column_position(s.columns, index.columns[0]) {
                None => Err(facts::named_error(ErrorKind::IndexColumnMissing, index.columns[0])),
                Some(i) => Ok(type_range(s.columns[i].data_type)),
            }
        },
    }
}

/// The smallest key of each of some columns.
pub open spec fn least_keys(s: SchemaV, positions: Seq<usize>) -> Seq<KeyV> {
    positions.map_values(|i: usize| type_range(s.columns[i as int].data_type).0)
}

/// The largest key of each of some columns.
pub open spec fn greatest_keys(s: SchemaV, positions: Seq<usize>) -> Seq<KeyV> {
    positions.map_values(|i: usize| type_range(s.columns[i as int].data_type).1)
}

/// The keys between which all rows of a table lie, by the types of its primary key.
pub open spec fn primary_range(s: SchemaV) -> Result<(KeyV, KeyV), ErrorV> {
    let positions = schema::key_columns(s.columns);
    if positions.len() == 0 {
        Err(facts::plain_error(ErrorKind::NoPrimaryKey))
    } else if positions.len() == 1 {
        Ok(type_range(s.columns[positions[0] as int].data_type))
    } else {
        Ok((KeyV::Composite(least_keys(s, positions)), KeyV::Composite(greatest_keys(s, positions))))
    }
}

/// The model of an outcome that is a range of keys.
pub open spec fn range_result(r: Result<(DbKey, DbKey), SqlError>) -> Result<(KeyV, KeyV), ErrorV> {
    match r {
        Ok(k) => Ok((k.0@, k.1@)),
        Err(e) => Err(e@),
    }
}

/// The key that a bound stands for.
pub fn resolve_key(k: &PlanKey, ps: &Params) -> (out: Result<DbKey, SqlError>)
    ensures
        match out {
            Ok(v) => resolved_key(k@, ps@) == Ok::<KeyV, ErrorV>(v@),
            Err(e) => resolved_key(k@, ps@) == Err::<KeyV, ErrorV>(e@),
        },
{
    match k {
        PlanKey::Value(v) => Ok(v.clone()),
        PlanKey::Parameter(name) => match ps.get(name.as_str()) {
            None => Err(SqlError::named(ErrorKind::UnboundParameter, name.as_str())),
            Some(v) => match bounds::val_to_key(v) {
                Some(key) => Ok(key),
                None => Err(SqlError::named(ErrorKind::KeyParameterType, name.as_str())),
            },
        },
    }
}

/// The keys that the bounds of a range stand for.
fn resolve_range(start: &PlanKey, end: &PlanKey, ps: &Params) -> (out: Result<(DbKey, DbKey), SqlError>)
    ensures
        range_result(out) == resolved_range((start@, end@), ps@),
{
    let a = resolve_key(start, ps)?;
    let b = resolve_key(end, ps)?;
    Ok((a, b))
}

/// The keys that bound a scan of a column.
pub fn bound_scan(start: &PlanKey, end: &PlanKey, ps: &Params, ty: Option<DataType>) -> (out: Result<
    (DbKey, DbKey),
    SqlError,
>)
    ensures
        range_result(out) == scan_range((start@, end@), ps@, ty),
{
    let k = resolve_range(start, end, ps)?;
    match ty {
        None => Ok(k),
        Some(t) => {
            let first = if bounds::fits_type(&k.0, &t) {
                k.0
            } else {
                bounds::min_key(&t)
            };
            let last = if bounds::fits_type(&k.1, &t) {
                k.1
            } else {
                bounds::max_key(&t)
            };
            Ok((first, last))
        },
    }
}

/// The key that a scan starts at.
fn lower_bound(k: DbKey) -> (out: Option<DbKey>)
    ensures
        bounds::opt_key(out) == lower(k@),
{
    if bounds::is_key_unbounded_min(&k) {
        None
    } else {
        Some(k)
    }
}

/// The key that a scan ends at.
fn upper_bound(k: DbKey) -> (out: Option<DbKey>)
    ensures
        bounds::opt_key(out) == upper(k@),
{
    if bounds::is_key_unbounded_max(&k) {
        None
    } else {
        Some(k)
    }
}

/// The type of a primary key of one column.
pub fn type_of_key(s: &Schema) -> (out: Option<DataType>)
    ensures
        out == key_type(s@),
{
    match s.primary_key_index() {
        Some(i) => Some(s.columns[i].data_type),
        None => None,
    }
}

/// The type of the first column of an index.
fn type_of_index(s: &Schema, index_name: &str) -> (out: Option<DataType>)
    ensures
        out == index_type(s@, index_name@),
{
    for i in 0..s.indexes.len()
        invariant
            index_from(s@.indexes, index_name@, 0) == index_from(s@.indexes, index_name@, i as int),
    {
        assert(s@.indexes[i as int] == s.indexes@[i as int]@);
        if text::same_text(s.indexes[i].name.as_str(), index_name) {
            if s.indexes[i].columns.len() == 0 {
                return None;
            }
            let name = &s.indexes[i].columns[0];
            assert(s@.indexes[i as int].columns[0] == name@);
            return match s.column_index(name.as_str()) {
                None => None,
                Some(c) => Some(s.columns[c].data_type),
            };
        }
    }
    None
}

/// The smallest and the largest key of an index on a column of a type.
fn range_of_type(ty: &DataType) -> (out: (DbKey, DbKey))
    ensures
        (out.0@, out.1@) == type_range(*ty),
{
    match ty {
        DataType::Bool => (DbKey::Bool(false), DbKey::Bool(true)),
        other => (bounds::min_key(other), bounds::max_key(other)),
    }
}

/// The keys between which all of an index lies.
fn full_index_range(s: &Schema, index_name: &str) -> (out: Result<(DbKey, DbKey), SqlError>)
    ensures
        range_result(out) == index_range(s@, index_name@),
{
    for i in 0..s.indexes.len()
        invariant
            index_from(s@.indexes, index_name@, 0) == index_from(s@.indexes, index_name@, i as int),
    {
        assert(s@.indexes[i as int] == s.indexes@[i as int]@);
        if text::same_text(s.indexes[i].name.as_str(), index_name) {
            if s.indexes[i].columns.len() == 0 {
                return Err(SqlError::named(ErrorKind::IndexEmpty, index_name));
            }
            let name = &s.indexes[i].columns[0];
            assert(s@.indexes[i as int].columns[0] == name@);
            return match s.column_index(name.as_str()) {
                None => Err(SqlError::named(ErrorKind::IndexColumnMissing, name.as_str())),
                Some(c) => Ok(range_of_type(&s.columns[c].data_type)),
            };
        }
    }
    Err(SqlError::named(ErrorKind::IndexMissing, index_name))
}

/// The keys between which all rows of a table lie.
fn primary_key_bounds(s: &Schema) -> (out: Result<(DbKey, DbKey), SqlError>)
    ensures
        range_result(out) == primary_range(s@),
{
    let positions = s.primary_key_indexes();
    if positions.len() == 0 {
        return Err(SqlError::plain(ErrorKind::NoPrimaryKey));
    }
    if positions.len() == 1 {
        return Ok(range_of_type(&s.columns[positions[0]].data_type));
    }
    let mut least: Vec<DbKey> = Vec::new();
    let mut greatest: Vec<DbKey> = Vec::new();
    for i in 0..positions.len()
        invariant
            forall|j: int| 0 <= j < positions@.len() ==> (#[trigger] positions@[j]) < s@.columns.len(),
            least@.len() == i,
            greatest@.len() == i,
            forall|j: int|
                0 <= j < i ==> (#[trigger] least@[j])@ == type_range(s@.columns[positions@[j] as int].data_type).0,
            forall|j: int|
                0 <= j < i ==> (#[trigger] greatest@[j])@ == type_range(
                    s@.columns[positions@[j] as int].data_type,
                ).1,
    {
        let at = positions[i];
        assert(s@.columns[at as int] == s.columns@[at as int]@);
        let range = range_of_type(&s.columns[at].data_type);
        least.push(range.0);
        greatest.push(range.1);
    }
    assert(value::keys_view(least@) =~= least_keys(s@, positions@));
    assert(value::keys_view(greatest@) =~= greatest_keys(s@, positions@));
    Ok((DbKey::composite(least), DbKey::composite(greatest)))
}

// ---------------------------------------------------------------- columns

/// The columns that a parent needs, with some more; all where it needs all.
pub open spec fn united(parent: Option<Set<Seq<char>>>, extra: Set<Seq<char>>) -> Option<Set<Seq<char>>> {
    match parent {
        Some(cols) => Some(cols + extra),
        None => None,
    }
}

/// The columns that a parent needs, with some more; all where it needs all. No column is
/// listed twice.
pub fn parent_cols_union(parent_cols: &Option<Vec<String>>, extra_cols: &ColumnSet) -> (out: Option<Vec<String>>)
    ensures
        name_set(out) == united(name_set(*parent_cols), extra_cols@),
        out matches Some(v) ==> text::views(v@).no_duplicates(),
{
    match parent_cols {
        None => None,
        Some(cols) => {
            let mut set = ColumnSet::new();
            insert_all(&mut set, cols);
            insert_all(&mut set, &extra_cols.names);
            assert(set@ =~= text::views(cols@).to_set() + extra_cols@);
            Some(set.names)
        },
    }
}

/// Adds names to a set.
fn insert_all(set: &mut ColumnSet, names: &Vec<String>)
    ensures
        final(set)@ =~= old(set)@ + text::views(names@).to_set(),
        old(set).distinct() ==> final(set).distinct(),
{
    let ghost before = set@;
    let ghost view = text::views(names@);
    assert(before =~= before + view.take(0).to_set());
    for i in 0..names.len()
        invariant
            before == old(set)@,
            view == text::views(names@),
            set@ =~= before + view.take(i as int).to_set(),
            old(set).distinct() ==> set.distinct(),
    {
        set.insert(names[i].as_str());
        proof {
            let shorter = view.take(i as int);
            let longer = view.take(i + 1);
            assert(longer =~= shorter.push(view[i as int]));
            assert(longer.to_set() =~= shorter.to_set().insert(view[i as int])) by {
                assert forall|x: Seq<char>| longer.contains(x) == (shorter.contains(x) || x == view[i as int]) by {
                    if shorter.contains(x) {
                        let j = choose|j: int| 0 <= j < shorter.len() && shorter[j] == x;
                        assert(longer[j] == x);
                    }
                    assert(longer[i as int] == view[i as int]);
                }
            }
        }
    }
    assert(view.take(view.len() as int) =~= view);
}

/// Whether a schema has a column that a name denotes.
pub open spec fn has_column(s: SchemaV, name: Seq<char>) -> bool {
    schema::column_position(s.columns, name) is Some
}

/// The columns that one side of a join has to read.
pub open spec fn side_columns(cols: Option<Set<Seq<char>>>, condition: ExprV, s: SchemaV) -> Option<Set<Seq<char>>> {
    match cols {
        None => None,
        Some(set) => Some(
            Set::new(
                |c: Seq<char>| (set.contains(c) || expr::expr_columns(condition).contains(c)) && has_column(s, c),
            ),
        ),
    }
}

/// Whether a schema has all columns of an expression.
pub open spec fn has_all(s: SchemaV, e: ExprV) -> bool {
    forall|c: Seq<char>| #[trigger] expr::expr_columns(e).contains(c) ==> has_column(s, c)
}

/// Whether a schema has a column that a name denotes.
pub fn schema_contains_col(s: &Schema, name: &str) -> (out: bool)
    ensures
        out == has_column(s@, name@),
{
    s.column_index(name).is_some()
}

/// The columns that one side of a join has to read.
fn columns_of_side(cols: &Option<Vec<String>>, condition: &Expr, s: &Schema) -> (out: Option<Vec<String>>)
    ensures
        name_set(out) == side_columns(name_set(*cols), condition@, s@),
{
    let mut needed = ColumnSet::new();
    condition.collect_columns(&mut needed);
    match parent_cols_union(cols, &needed) {
        None => None,
        Some(all) => {
            let ghost view = text::views(all@);
            assert(needed@ =~= expr::expr_columns(condition@));
            let mut out: Vec<String> = Vec::new();
            for i in 0..all.len()
                invariant
                    view == text::views(all@),
                    forall|c: Seq<char>| #[trigger] text::views(out@).contains(c) ==> has_column(s@, c) && view.contains(c),
                    forall|j: int|
                        0 <= j < i && has_column(s@, view[j]) ==> text::views(out@).contains(#[trigger] view[j]),
            {
                assert(view[i as int] == all@[i as int]@);
                if schema_contains_col(s, all[i].as_str()) {
                    let ghost before = text::views(out@);
                    out.push(all[i].clone());
                    proof {
                        let after = text::views(out@);
                        assert(after =~= before.push(view[i as int]));
                        assert(after[before.len() as int] == view[i as int]);
                        assert forall|c: Seq<char>| #[trigger] after.contains(c) implies has_column(s@, c)
                            && view.contains(c) by {
                            let k = choose|k: int| 0 <= k < after.len() && after[k] == c;
                            if k < before.len() {
                                assert(before[k] == c);
                                assert(before.contains(c));
                            }
                        }
                        assert forall|j: int| 0 <= j < i + 1 && has_column(s@, view[j]) implies after.contains(
                            #[trigger] view[j],
                        ) by {
                            if j < i {
                                assert(before.contains(view[j]));
                                let k = choose|k: int| 0 <= k < before.len() && before[k] == view[j];
                                assert(after[k] == view[j]);
                            }
                        }
                    }
                }
            }
            proof {
                let wanted = side_columns(name_set(*cols), condition@, s@)->Some_0;
                let found = text::views(out@).to_set();
                assert(view.to_set() =~= name_set(*cols)->Some_0 + expr::expr_columns(condition@));
                assert forall|c: Seq<char>| found.contains(c) == wanted.contains(c) by {
                    if wanted.contains(c) {
                        assert(view.to_set().contains(c));
                        let j = choose|j: int| 0 <= j < view.len() && view[j] == c;
                        assert(has_column(s@, view[j]));
                    }
                    if found.contains(c) {
                        assert(view.to_set().contains(c));
                    }
                }
                assert(found =~= wanted);
            }
            Some(out)
        },
    }
}

/// Whether a schema has all columns of an expression.
fn schema_has_all(s: &Schema, e: &Expr) -> (out: bool)
    ensures
        out == has_all(s@, e@),
{
    let mut cols = ColumnSet::new();
    e.collect_columns(&mut cols);
    assert(cols@ =~= expr::expr_columns(e@));
    let ghost view = text::views(cols.names@);
    for i in 0..cols.names.len()
        invariant
            view == text::views(cols.names@),
            view.to_set() == expr::expr_columns(e@),
            forall|j: int| 0 <= j < i ==> has_column(s@, #[trigger] view[j]),
    {
        assert(view[i as int] == cols.names@[i as int]@);
        if !schema_contains_col(s, cols.names[i].as_str()) {
            assert(view.contains(view[i as int]));
            assert(expr::expr_columns(e@).contains(view[i as int]));
            return false;
        }
    }
    assert forall|c: Seq<char>| #[trigger] expr::expr_columns(e@).contains(c) implies has_column(s@, c) by {
        assert(view.to_set().contains(c));
        let j = choose|j: int| 0 <= j < view.len() && view[j] == c;
        assert(has_column(s@, view[j]));
    }
    true
}

// ---------------------------------------------------------------- compilation

/// A filter of a plan.
#[verifier::opaque]
pub open spec fn filter_of(predicate: ExprV, src: PhysicalV) -> Result<PhysicalV, ErrorV> {
    match expr::bound(predicate, physical_schema(src)) {
        Err(e) => Err(e),
        Ok(predicate) => Ok(PhysicalV::Filter { source: Box::new(src), predicate }),
    }
}

/// Rows of a schema.
pub open spec fn rows_of(s: SchemaV) -> PlanV {
    PlanV::Scan { table_name: Seq::empty(), schema: s, range: None }
}

/// A projection of a plan.
#[verifier::opaque]
pub open spec fn projection_of(es: Seq<ExprV>, names: Seq<Seq<char>>, src: PhysicalV) -> Result<PhysicalV, ErrorV> {
    match facts::collected(expr::bound_each(es, physical_schema(src)), 0, Seq::empty()) {
        Err(e) => Err(e),
        Ok(expressions) => Ok(
            PhysicalV::Projection {
                source: Box::new(src),
                expressions,
                schema: logical::plan_schema(
                    logical::projection_of(rows_of(physical_schema(src)), expressions, names),
                ),
            },
        ),
    }
}

/// The outcomes of binding the columns of sort keys.
pub open spec fn bound_keys(keys: Seq<(ExprV, bool)>, s: SchemaV) -> Seq<Result<(ExprV, bool), ErrorV>> {
    keys.map_values(
        |k: (ExprV, bool)|
            match expr::bound(k.0, s) {
                Ok(x) => Ok((x, k.1)),
                Err(e) => Err(e),
            },
    )
}

/// A sort of a plan.
#[verifier::opaque]
pub open spec fn sort_of(keys: Seq<(ExprV, bool)>, src: PhysicalV) -> Result<PhysicalV, ErrorV> {
    match facts::collected(bound_keys(keys, physical_schema(src)), 0, Seq::empty()) {
        Err(e) => Err(e),
        Ok(keys) => Ok(PhysicalV::Sort { source: Box::new(src), keys }),
    }
}

/// The two sides of an equality that is the condition of a join, that of the left rows
/// first.
pub open spec fn join_sides(l: ExprV, r: ExprV, left: SchemaV, right: SchemaV) -> (ExprV, ExprV) {
    if has_all(left, l) && has_all(right, r) {
        (l, r)
    } else if has_all(left, r) && has_all(right, l) {
        (r, l)
    } else {
        (l, r)
    }
}

/// A join by an equality.
pub open spec fn merge_join_of(
    l: ExprV,
    r: ExprV,
    join_type: JoinType,
    left: PhysicalV,
    right: PhysicalV,
    schema: SchemaV,
) -> Result<PhysicalV, ErrorV> {
    let sides = join_sides(l, r, physical_schema(left), physical_schema(right));
    match expr::bound(sides.0, physical_schema(left)) {
        Err(e) => Err(e),
        Ok(left_on) => match expr::bound(sides.1, physical_schema(right)) {
            Err(e) => Err(e),
            Ok(right_on) => Ok(
                PhysicalV::SortMergeJoin {
                    left: Box::new(left),
                    right: Box::new(right),
                    left_on,
                    right_on,
                    join_type,
                    schema,
                },
            ),
        },
    }
}

/// A join of two plans.
#[verifier::opaque]
pub open spec fn join_of(condition: ExprV, join_type: JoinType, l: PhysicalV, r: PhysicalV) -> Result<PhysicalV, ErrorV> {
    let schema = logical::plan_schema(
        logical::join_of(rows_of(physical_schema(l)), rows_of(physical_schema(r)), condition, join_type),
    );
    if join_type is Cross {
        Ok(PhysicalV::CrossJoin { left: Box::new(l), right: Box::new(r), schema })
    } else {
        match condition {
            ExprV::BinaryOp { left: a, op, right: b } => if op is Eq {
                merge_join_of(*a, *b, join_type, l, r, schema)
            } else {
                Err(facts::expr_error(ErrorKind::JoinCondition, condition))
            },
            _ => Err(facts::expr_error(ErrorKind::JoinCondition, condition)),
        }
    }
}

/// Whether the rows of a plan come sorted by the only grouping expression.
pub open spec fn sorted_by(p: PlanV, group_by: Seq<ExprV>) -> bool {
    group_by.len() == 1 && (group_by[0] matches ExprV::Column(name, _) && (optimizer::sort_key(p) matches Some(key)
        && text::names_match(name, key)))
}

/// The outcomes of binding the columns of aggregate functions.
pub open spec fn bound_aggrs(aggrs: Seq<AggregateV>, s: SchemaV) -> Seq<Result<AggregateV, ErrorV>> {
    aggrs.map_values(
        |a: AggregateV|
            match expr::bound(logical::aggr_arg(a), s) {
                Ok(x) => Ok(logical::with_arg(a, x)),
                Err(e) => Err(e),
            },
    )
}

/// An aggregation of a plan.
#[verifier::opaque]
pub open spec fn aggregate_of(
    group_by: Seq<ExprV>,
    aggrs: Seq<AggregateV>,
    names: Seq<Seq<char>>,
    in_order: bool,
    src: PhysicalV,
) -> Result<PhysicalV, ErrorV> {
    match facts::collected(expr::bound_each(group_by, physical_schema(src)), 0, Seq::empty()) {
        Err(e) => Err(e),
        Ok(group_by) => match facts::collected(bound_aggrs(aggrs, physical_schema(src)), 0, Seq::empty()) {
            Err(e) => Err(e),
            Ok(aggrs) => {
                let schema = logical::plan_schema(
                    logical::aggregate_of(rows_of(physical_schema(src)), group_by, aggrs, names),
                );
                Ok(
                    if in_order {
                        PhysicalV::SortedAggregate { source: Box::new(src), group_by, aggrs, schema }
                    } else {
                        PhysicalV::HashAggregate { source: Box::new(src), group_by, aggrs, schema }
                    },
                )
            },
        },
    }
}

/// A scan of a table, of a range of its keys or of all.
#[verifier::opaque]
pub open spec fn table_scan(
    table_name: Seq<char>,
    schema: SchemaV,
    range: Option<(PlanKeyV, PlanKeyV)>,
    cols: Option<Set<Seq<char>>>,
    ps: Map<Seq<char>, ValueV>,
) -> Result<PhysicalV, ErrorV> {
    match (match range {
        Some(r) => scan_range(r, ps, key_type(schema)),
        None => primary_range(schema),
    }) {
        Err(e) => Err(e),
        Ok(k) => Ok(PhysicalV::SeqScan { table_name, schema, start: lower(k.0), end: upper(k.1), columns: cols }),
    }
}

/// A scan of an index, of a range of its keys or of all.
#[verifier::opaque]
pub open spec fn index_scan(
    table_name: Seq<char>,
    index_name: Seq<char>,
    schema: SchemaV,
    range: Option<(PlanKeyV, PlanKeyV)>,
    cols: Option<Set<Seq<char>>>,
    ps: Map<Seq<char>, ValueV>,
) -> Result<PhysicalV, ErrorV> {
    match (match range {
        Some(r) => scan_range(r, ps, index_type(schema, index_name)),
        None => index_range(schema, index_name),
    }) {
        Err(e) => Err(e),
        Ok(k) => Ok(
            PhysicalV::IndexScan {
                table_name,
                index_name,
                schema,
                start: lower(k.0),
                end: upper(k.1),
                columns: cols,
            },
        ),
    }
}

/// The physical plan of a logical plan. Only some columns have to be read, or all of them.
pub open spec fn compiled(p: PlanV, cols: Option<Set<Seq<char>>>, ps: Map<Seq<char>, ValueV>) -> Result<
    PhysicalV,
    ErrorV,
>
    decreases p,
{
    match p {
        PlanV::Scan { table_name, schema, range } => table_scan(table_name, schema, range, cols, ps),
        PlanV::IndexScan { table_name, index_name, schema, range } => index_scan(
            table_name,
            index_name,
            schema,
            range,
            cols,
            ps,
        ),
        PlanV::FullTextScan { table_name, index_name, schema, query } => Ok(
            PhysicalV::FullTextScan { table_name, index_name, schema, query, columns: cols },
        ),
        PlanV::Filter { source, predicate } => match expr::substituted(predicate, ps) {
            Err(e) => Err(e),
            Ok(x) => match compiled(*source, united(cols, expr::expr_columns(x)), ps) {
                Err(e) => Err(e),
                Ok(src) => filter_of(x, src),
            },
        },
        PlanV::Projection { source, expressions, field_names, .. } => match facts::collected(
            expr::substituted_each(expressions, ps),
            0,
            Seq::empty(),
        ) {
            Err(e) => Err(e),
            Ok(es) => match compiled(*source, Some(expr::exprs_columns(es)), ps) {
                Err(e) => Err(e),
                Ok(src) => projection_of(es, field_names, src),
            },
        },
        PlanV::Limit { source, limit, offset } => match compiled(*source, cols, ps) {
            Err(e) => Err(e),
            Ok(src) => Ok(PhysicalV::Limit { source: Box::new(src), limit, offset }),
        },
        PlanV::Sort { source, keys } => match facts::collected(
            logical::substituted_keys(keys, ps),
            0,
            Seq::empty(),
        ) {
            Err(e) => Err(e),
            Ok(ks) => match compiled(*source, united(cols, logical::sort_keys_columns(ks)), ps) {
                Err(e) => Err(e),
                Ok(src) => sort_of(ks, src),
            },
        },
        PlanV::Join { left, right, condition, join_type, .. } => match expr::substituted(condition, ps) {
            Err(e) => Err(e),
            Ok(c) => match compiled(*left, side_columns(cols, c, logical::plan_schema(*left)), ps) {
                Err(e) => Err(e),
                Ok(l) => match compiled(*right, side_columns(cols, c, logical::plan_schema(*right)), ps) {
                    Err(e) => Err(e),
                    Ok(r) => join_of(c, join_type, l, r),
                },
            },
        },
        PlanV::Aggregate { source, group_by, aggrs, field_names, .. } => match facts::collected(
            expr::substituted_each(group_by, ps),
            0,
            Seq::empty(),
        ) {
            Err(e) => Err(e),
            Ok(g) => match facts::collected(logical::substituted_aggrs(aggrs, ps), 0, Seq::empty()) {
                Err(e) => Err(e),
                Ok(a) => match compiled(*source, Some(expr::exprs_columns(g) + logical::aggrs_columns(a)), ps) {
                    Err(e) => Err(e),
                    Ok(src) => aggregate_of(g, a, field_names, sorted_by(*source, g), src),
                },
            },
        },
        PlanV::SetOp { left, right, op, all } => match compiled(*left, cols, ps) {
            Err(e) => Err(e),
            Ok(l) => match compiled(*right, cols, ps) {
                Err(e) => Err(e),
                Ok(r) => Ok(
                    PhysicalV::SetOp {
                        left: Box::new(l),
                        right: Box::new(r),
                        op,
                        all,
                        schema: physical_schema(l),
                    },
                ),
            },
        },
        PlanV::Distinct { source } => match compiled(*source, cols, ps) {
            Err(e) => Err(e),
            Ok(src) => Ok(PhysicalV::Distinct { source: Box::new(src) }),
        },
    }
}

/// A copy of optional column names.
fn copy_columns(o: &Option<Vec<String>>) -> (out: Option<Vec<String>>)
    ensures
        name_set(out) == name_set(*o),
{
    match o {
        Some(v) => Some(text::copy_strings(v)),
        None => None,
    }
}

/// Rows of a schema.
fn rows_with(s: Schema) -> (out: LogicalPlan)
    ensures
        out@ == rows_of(s@),
{
    let name = String::new();
    assert(name@ =~= Seq::empty());
    LogicalPlan::Scan { table_name: name, schema: s, range: None }
}

/// A filter of a plan.
fn make_filter(predicate: &Expr, source: PhysicalPlan) -> (out: Result<PhysicalPlan, SqlError>)
    ensures
        physical_result(out) == filter_of(predicate@, source@),
{
    reveal(filter_of);
    let schema = source.schema();
    let predicate = predicate.bound_to(&schema)?;
    Ok(PhysicalPlan::Filter { source: Box::new(source), predicate })
}

/// A projection of a plan.
fn make_projection(es: &Vec<Expr>, names: &Vec<String>, source: PhysicalPlan) -> (out: Result<PhysicalPlan, SqlError>)
    ensures
        physical_result(out) == projection_of(expr::exprs_view(es@), text::views(names@), source@),
{
    reveal(projection_of);
    let schema = source.schema();
    let expressions = expr::bound_list_to(es, &schema)?;
    let rows = rows_with(schema);
    let plan = LogicalPlan::new_projection(rows, expr::copy_exprs(&expressions), text::copy_strings(names));
    let schema = plan.schema();
    Ok(PhysicalPlan::Projection { source: Box::new(source), expressions, schema })
}

/// The sort keys with their columns bound.
fn bind_keys(keys: &Vec<(Expr, bool)>, schema: &Schema) -> (out: Result<Vec<(Expr, bool)>, SqlError>)
    ensures
        match out {
            Ok(k) => facts::collected(bound_keys(logical::sort_keys_view(keys@), schema@), 0, Seq::empty()) == Ok::<
                Seq<(ExprV, bool)>,
                ErrorV,
            >(logical::sort_keys_view(k@)),
            Err(e) => facts::collected(bound_keys(logical::sort_keys_view(keys@), schema@), 0, Seq::empty()) == Err::<
                Seq<(ExprV, bool)>,
                ErrorV,
            >(e@),
        },
{
    let mut bound: Vec<(Expr, bool)> = Vec::new();
    let ghost view = logical::sort_keys_view(keys@);
    let ghost rs = bound_keys(view, schema@);
    assert(logical::sort_keys_view(bound@) =~= Seq::empty());
    for i in 0..keys.len()
        invariant
            view == logical::sort_keys_view(keys@),
            view.len() == keys@.len(),
            rs == bound_keys(view, schema@),
            facts::collected(rs, 0, Seq::empty()) == facts::collected(
                rs,
                i as int,
                logical::sort_keys_view(bound@),
            ),
    {
        let ghost before = logical::sort_keys_view(bound@);
        assert(view[i as int] == (keys@[i as int].0@, keys@[i as int].1));
        let x = keys[i].0.bound_to(schema)?;
        let ghost added = (x@, keys@[i as int].1);
        bound.push((x, keys[i].1));
        assert(logical::sort_keys_view(bound@) =~= before.push(added));
    }
    Ok(bound)
}

/// A sort of a plan.
fn make_sort(keys: &Vec<(Expr, bool)>, source: PhysicalPlan) -> (out: Result<PhysicalPlan, SqlError>)
    ensures
        physical_result(out) == sort_of(logical::sort_keys_view(keys@), source@),
{
    reveal(sort_of);
    let schema = source.schema();
    let bound = bind_keys(keys, &schema)?;
    Ok(PhysicalPlan::Sort { source: Box::new(source), keys: bound })
}

/// A join by an equality.
fn make_merge_join(l: &Expr, r: &Expr, join_type: JoinType, left: PhysicalPlan, right: PhysicalPlan, schema: Schema) -> (out:
    Result<PhysicalPlan, SqlError>)
    ensures
        physical_result(out) == merge_join_of(l@, r@, join_type, left@, right@, schema@),
{
    let ls = left.schema();
    let rs = right.schema();
    let swap = !(schema_has_all(&ls, l) && schema_has_all(&rs, r)) && schema_has_all(&ls, r) && schema_has_all(&rs, l);
    let (first, second) = if swap {
        (r, l)
    } else {
        (l, r)
    };
    let left_on = first.bound_to(&ls)?;
    let right_on = second.bound_to(&rs)?;
    Ok(
        PhysicalPlan::SortMergeJoin {
            left: Box::new(left),
            right: Box::new(right),
            left_on,
            right_on,
            join_type,
            schema,
        },
    )
}

/// A join of two plans.
fn make_join(condition: Expr, join_type: JoinType, left: PhysicalPlan, right: PhysicalPlan) -> (out: Result<
    PhysicalPlan,
    SqlError,
>)
    ensures
        physical_result(out) == join_of(condition@, join_type, left@, right@),
{
    reveal(join_of);
    let joined = LogicalPlan::new_join(
        rows_with(left.schema()),
        rows_with(right.schema()),
        condition.copy(),
        join_type,
    );
    let schema = joined.schema();
    match join_type {
        JoinType::Cross => Ok(PhysicalPlan::CrossJoin { left: Box::new(left), right: Box::new(right), schema }),
        _ => match &condition {
            Expr::BinaryOp { left: a, op, right: b } => match op {
                Operator::Eq => make_merge_join(a, b, join_type, left, right, schema),
                _ => Err(SqlError::about_expr(ErrorKind::JoinCondition, condition.copy())),
            },
            _ => Err(SqlError::about_expr(ErrorKind::JoinCondition, condition.copy())),
        },
    }
}

/// Whether the rows of a plan come sorted by the only grouping expression.
pub fn is_plan_sorted_by(p: &LogicalPlan, group_by: &Vec<Expr>) -> (out: bool)
    requires
        logical::well_formed(p@),
    ensures
        out == sorted_by(p@, expr::exprs_view(group_by@)),
{
    assert(expr::exprs_view(group_by@).len() == group_by@.len());
    if group_by.len() != 1 {
        return false;
    }
    assert(expr::exprs_view(group_by@)[0] == group_by@[0]@);
    match &group_by[0] {
        Expr::Column(name, _) => match Optimizer::get_plan_sort_key(p) {
            Some(key) => text::column_names_match(name.as_str(), key.as_str()),
            None => false,
        },
        _ => false,
    }
}

/// The aggregate functions with their columns bound.
fn bind_aggrs(aggrs: &Vec<AggregateExpr>, s: &Schema) -> (out: Result<Vec<AggregateExpr>, SqlError>)
    ensures
        match out {
            Ok(a) => facts::collected(bound_aggrs(logical::aggrs_view(aggrs@), s@), 0, Seq::empty()) == Ok::<
                Seq<AggregateV>,
                ErrorV,
            >(logical::aggrs_view(a@)),
            Err(e) => facts::collected(bound_aggrs(logical::aggrs_view(aggrs@), s@), 0, Seq::empty()) == Err::<
                Seq<AggregateV>,
                ErrorV,
            >(e@),
        },
{
    let mut out: Vec<AggregateExpr> = Vec::new();
    let ghost view = logical::aggrs_view(aggrs@);
    let ghost rs = bound_aggrs(view, s@);
    assert(logical::aggrs_view(out@) =~= Seq::empty());
    for i in 0..aggrs.len()
        invariant
            view == logical::aggrs_view(aggrs@),
            view.len() == aggrs@.len(),
            rs == bound_aggrs(view, s@),
            facts::collected(rs, 0, Seq::empty()) == facts::collected(rs, i as int, logical::aggrs_view(out@)),
    {
        let ghost before = logical::aggrs_view(out@);
        assert(view[i as int] == aggrs@[i as int]@);
        let x = aggrs[i].arg().bound_to(s)?;
        let a = aggrs[i].replace_arg(x);
        let ghost added = a@;
        out.push(a);
        assert(logical::aggrs_view(out@) =~= before.push(added));
    }
    Ok(out)
}

/// An aggregation of a plan.
fn make_aggregate(
    group_by: &Vec<Expr>,
    aggrs: &Vec<AggregateExpr>,
    names: &Vec<String>,
    in_order: bool,
    source: PhysicalPlan,
) -> (out: Result<PhysicalPlan, SqlError>)
    requires
        group_by@.len() + aggrs@.len() <= names@.len(),
    ensures
        physical_result(out) == aggregate_of(
            expr::exprs_view(group_by@),
            logical::aggrs_view(aggrs@),
            text::views(names@),
            in_order,
            source@,
        ),
{
    reveal(aggregate_of);
    let schema = source.schema();
    proof {
        facts::collected_len(expr::bound_each(expr::exprs_view(group_by@), schema@), 0, Seq::empty());
        facts::collected_len(bound_aggrs(logical::aggrs_view(aggrs@), schema@), 0, Seq::empty());
    }
    let group_by = expr::bound_list_to(group_by, &schema)?;
    let aggrs = bind_aggrs(aggrs, &schema)?;
    assert(expr::exprs_view(group_by@).len() == group_by@.len());
    assert(logical::aggrs_view(aggrs@).len() == aggrs@.len());
    let plan = LogicalPlan::new_aggregate(
        rows_with(schema),
        expr::copy_exprs(&group_by),
        logical::copy_aggrs(&aggrs),
        text::copy_strings(names),
    );
    let schema = plan.schema();
    if in_order {
        Ok(PhysicalPlan::SortedAggregate { source: Box::new(source), group_by, aggrs, schema })
    } else {
        Ok(PhysicalPlan::HashAggregate { source: Box::new(source), group_by, aggrs, schema })
    }
}

/// The names of a set, as columns to be read.
fn read_columns(set: ColumnSet) -> (out: Option<Vec<String>>)
    ensures
        name_set(out) == Some(set@),
{
    Some(set.names)
}

/// Compiles an aggregation of a logical plan.
fn compile_aggregate(
    source: &LogicalPlan,
    group_by: &Vec<Expr>,
    aggrs: &Vec<AggregateExpr>,
    names: &Vec<String>,
    ps: &Params,
) -> (out: Result<(Vec<Expr>, Vec<AggregateExpr>, bool, Option<Vec<String>>), SqlError>)
    requires
        logical::well_formed(source@),
        group_by@.len() + aggrs@.len() <= names@.len(),
    ensures
        match out {
            Ok(x) => {
                &&& facts::collected(expr::substituted_each(expr::exprs_view(group_by@), ps@), 0, Seq::empty()) == Ok::<
                    Seq<ExprV>,
                    ErrorV,
                >(expr::exprs_view(x.0@))
                &&& facts::collected(
                    logical::substituted_aggrs(logical::aggrs_view(aggrs@), ps@),
                    0,
                    Seq::empty(),
                ) == Ok::<Seq<AggregateV>, ErrorV>(logical::aggrs_view(x.1@))
                &&& x.0@.len() + x.1@.len() <= names@.len()
                &&& x.2 == sorted_by(source@, expr::exprs_view(x.0@))
                &&& name_set(x.3) == Some(
                    expr::exprs_columns(expr::exprs_view(x.0@)) + logical::aggrs_columns(logical::aggrs_view(x.1@)),
                )
            },
            Err(e) => match facts::collected(
                expr::substituted_each(expr::exprs_view(group_by@), ps@),
                0,
                Seq::empty(),
            ) {
                Err(x) => x == e@,
                Ok(_) => facts::collected(
                    logical::substituted_aggrs(logical::aggrs_view(aggrs@), ps@),
                    0,
                    Seq::empty(),
                ) == Err::<Seq<AggregateV>, ErrorV>(e@),
            },
        },
{
    proof {
        facts::collected_len(expr::substituted_each(expr::exprs_view(group_by@), ps@), 0, Seq::empty());
        facts::collected_len(logical::substituted_aggrs(logical::aggrs_view(aggrs@), ps@), 0, Seq::empty());
    }
    let g = expr::list_with_params(group_by, ps)?;
    let a = logical::aggrs_with_params(aggrs, ps)?;
    let in_order = is_plan_sorted_by(source, &g);
    let mut needed = ColumnSet::new();
    expr::collect_list_columns(&g, &mut needed);
    logical::collect_aggrs_columns(&a, &mut needed);
    assert(needed@ =~= expr::exprs_columns(expr::exprs_view(g@)) + logical::aggrs_columns(logical::aggrs_view(a@)));
    assert(expr::exprs_view(g@).len() == g@.len() && logical::aggrs_view(a@).len() == a@.len());
    Ok((g, a, in_order, read_columns(needed)))
}

/// Compiles a scan of a table.
fn compile_scan(p: &LogicalPlan, columns: &Option<Vec<String>>, ps: &Params) -> (out: Result<PhysicalPlan, SqlError>)
    requires
        p@ is Scan,
        logical::well_formed(p@),
    ensures
        physical_result(out) == compiled(p@, name_set(*columns), ps@),
    decreases p, 0int,
{
    reveal(table_scan);
    match p {
        LogicalPlan::Scan { table_name, schema, range } => {
            let k = match range {
                Some((start, end)) => bound_scan(start, end, ps, type_of_key(schema))?,
                None => primary_key_bounds(schema)?,
            };
            Ok(
                PhysicalPlan::SeqScan {
                    table_name: table_name.clone(),
                    schema: schema.clone(),
                    start: lower_bound(k.0),
                    end: upper_bound(k.1),
                    columns: copy_columns(columns),
                },
            )
        },
        _ => Err(SqlError::plain(ErrorKind::Malformed)),
    }
}

/// Compiles a scan of an index.
fn compile_index_scan(p: &LogicalPlan, columns: &Option<Vec<String>>, ps: &Params) -> (out: Result<PhysicalPlan, SqlError>)
    requires
        p@ is IndexScan,
        logical::well_formed(p@),
    ensures
        physical_result(out) == compiled(p@, name_set(*columns), ps@),
    decreases p, 0int,
{
    reveal(index_scan);
    match p {
        LogicalPlan::IndexScan { table_name, index_name, schema, range } => {
            let k = match range {
                Some((start, end)) => bound_scan(start, end, ps, type_of_index(schema, index_name.as_str()))?,
                None => full_index_range(schema, index_name.as_str())?,
            };
            Ok(
                PhysicalPlan::IndexScan {
                    table_name: table_name.clone(),
                    index_name: index_name.clone(),
                    schema: schema.clone(),
                    start: lower_bound(k.0),
                    end: upper_bound(k.1),
                    columns: copy_columns(columns),
                },
            )
        },
        _ => Err(SqlError::plain(ErrorKind::Malformed)),
    }
}

/// Compiles a filter.
fn compile_filter(p: &LogicalPlan, columns: &Option<Vec<String>>, ps: &Params) -> (out: Result<PhysicalPlan, SqlError>)
    requires
        p@ is Filter,
        logical::well_formed(p@),
    ensures
        physical_result(out) == compiled(p@, name_set(*columns), ps@),
    decreases p, 0int,
{
    match p {
        LogicalPlan::Filter { source, predicate } => {
            let x = predicate.with_params(ps)?;
            let mut needed = ColumnSet::new();
            x.collect_columns(&mut needed);
            assert(needed@ =~= expr::expr_columns(x@));
            let cols = parent_cols_union(columns, &needed);
            let src = compile_physical(source, &cols, ps)?;
            make_filter(&x, src)
        },
        _ => Err(SqlError::plain(ErrorKind::Malformed)),
    }
}

/// Compiles a projection.
fn compile_projection(p: &LogicalPlan, columns: &Option<Vec<String>>, ps: &Params) -> (out: Result<PhysicalPlan, SqlError>)
    requires
        p@ is Projection,
        logical::well_formed(p@),
    ensures
        physical_result(out) == compiled(p@, name_set(*columns), ps@),
    decreases p, 0int,
{
    match p {
        LogicalPlan::Projection { source, expressions, field_names, .. } => {
            let es = expr::list_with_params(expressions, ps)?;
            let mut needed = ColumnSet::new();
            expr::collect_list_columns(&es, &mut needed);
            assert(needed@ =~= expr::exprs_columns(expr::exprs_view(es@)));
            let cols = read_columns(needed);
            let src = compile_physical(source, &cols, ps)?;
            make_projection(&es, field_names, src)
        },
        _ => Err(SqlError::plain(ErrorKind::Malformed)),
    }
}

/// Compiles a sort.
fn compile_sort(p: &LogicalPlan, columns: &Option<Vec<String>>, ps: &Params) -> (out: Result<PhysicalPlan, SqlError>)
    requires
        p@ is Sort,
        logical::well_formed(p@),
    ensures
        physical_result(out) == compiled(p@, name_set(*columns), ps@),
    decreases p, 0int,
{
    match p {
        LogicalPlan::Sort { source, keys } => {
            let ks = logical::sort_keys_with_params(keys, ps)?;
            let mut needed = ColumnSet::new();
            logical::collect_sort_keys_columns(&ks, &mut needed);
            assert(needed@ =~= logical::sort_keys_columns(logical::sort_keys_view(ks@)));
            let cols = parent_cols_union(columns, &needed);
            let src = compile_physical(source, &cols, ps)?;
            make_sort(&ks, src)
        },
        _ => Err(SqlError::plain(ErrorKind::Malformed)),
    }
}

/// Compiles a join.
fn compile_join(p: &LogicalPlan, columns: &Option<Vec<String>>, ps: &Params) -> (out: Result<PhysicalPlan, SqlError>)
    requires
        p@ is Join,
        logical::well_formed(p@),
    ensures
        physical_result(out) == compiled(p@, name_set(*columns), ps@),
    decreases p, 0int,
{
    match p {
        LogicalPlan::Join { left, right, condition, join_type, .. } => {
            let c = condition.with_params(ps)?;
            let left_cols = columns_of_side(columns, &c, &left.schema());
            let right_cols = columns_of_side(columns, &c, &right.schema());
            let l = compile_physical(left, &left_cols, ps)?;
            let r = compile_physical(right, &right_cols, ps)?;
            make_join(c, *join_type, l, r)
        },
        _ => Err(SqlError::plain(ErrorKind::Malformed)),
    }
}

/// Compiles a aggregation.
fn compile_aggregation(p: &LogicalPlan, columns: &Option<Vec<String>>, ps: &Params) -> (out: Result<PhysicalPlan, SqlError>)
    requires
        p@ is Aggregate,
        logical::well_formed(p@),
    ensures
        physical_result(out) == compiled(p@, name_set(*columns), ps@),
    decreases p, 0int,
{
    match p {
        LogicalPlan::Aggregate { source, group_by, aggrs, field_names, .. } => {
            assert(expr::exprs_view(group_by@).len() == group_by@.len());
            assert(logical::aggrs_view(aggrs@).len() == aggrs@.len());
            let x = compile_aggregate(source, group_by, aggrs, field_names, ps)?;
            let src = compile_physical(source, &x.3, ps)?;
            make_aggregate(&x.0, &x.1, field_names, x.2, src)
        },
        _ => Err(SqlError::plain(ErrorKind::Malformed)),
    }
}

/// Compiles a full-text scan.
fn compile_full_text_scan(p: &LogicalPlan, columns: &Option<Vec<String>>, ps: &Params) -> (out: Result<PhysicalPlan, SqlError>)
    requires
        p@ is FullTextScan,
        logical::well_formed(p@),
    ensures
        physical_result(out) == compiled(p@, name_set(*columns), ps@),
    decreases p, 0int,
{
    match p {
        LogicalPlan::FullTextScan { table_name, index_name, schema, query } => Ok(
            PhysicalPlan::FullTextScan {
                table_name: table_name.clone(),
                index_name: index_name.clone(),
                schema: schema.clone(),
                query: query.clone(),
                columns: copy_columns(columns),
            },
        ),
        _ => Err(SqlError::plain(ErrorKind::Malformed)),
    }
}

/// Compiles a limit.
fn compile_limit(p: &LogicalPlan, columns: &Option<Vec<String>>, ps: &Params) -> (out: Result<PhysicalPlan, SqlError>)
    requires
        p@ is Limit,
        logical::well_formed(p@),
    ensures
        physical_result(out) == compiled(p@, name_set(*columns), ps@),
    decreases p, 0int,
{
    match p {
        LogicalPlan::Limit { source, limit, offset } => {
            let src = compile_physical(source, columns, ps)?;
            Ok(PhysicalPlan::Limit { source: Box::new(src), limit: *limit, offset: *offset })
        },
        _ => Err(SqlError::plain(ErrorKind::Malformed)),
    }
}

/// Compiles a set operation.
fn compile_set_op(p: &LogicalPlan, columns: &Option<Vec<String>>, ps: &Params) -> (out: Result<PhysicalPlan, SqlError>)
    requires
        p@ is SetOp,
        logical::well_formed(p@),
    ensures
        physical_result(out) == compiled(p@, name_set(*columns), ps@),
    decreases p, 0int,
{
    match p {
        LogicalPlan::SetOp { left, right, op, all } => {
            let l = compile_physical(left, columns, ps)?;
            let r = compile_physical(right, columns, ps)?;
            let schema = l.schema();
            Ok(PhysicalPlan::SetOp { left: Box::new(l), right: Box::new(r), op: *op, all: *all, schema })
        },
        _ => Err(SqlError::plain(ErrorKind::Malformed)),
    }
}

/// Compiles a removal of duplicates.
fn compile_distinct(p: &LogicalPlan, columns: &Option<Vec<String>>, ps: &Params) -> (out: Result<PhysicalPlan, SqlError>)
    requires
        p@ is Distinct,
        logical::well_formed(p@),
    ensures
        physical_result(out) == compiled(p@, name_set(*columns), ps@),
    decreases p, 0int,
{
    match p {
        LogicalPlan::Distinct { source } => {
            let src = compile_physical(source, columns, ps)?;
            Ok(PhysicalPlan::Distinct { source: Box::new(src) })
        },
        _ => Err(SqlError::plain(ErrorKind::Malformed)),
    }
}

/// Compiles a logical plan. Only some columns have to be read, or all of them.
pub fn compile_physical(p: &LogicalPlan, columns: &Option<Vec<String>>, ps: &Params) -> (out: Result<
    PhysicalPlan,
    SqlError,
>)
    requires
        logical::well_formed(p@),
    ensures
        physical_result(out) == compiled(p@, name_set(*columns), ps@),
    decreases p, 1int,
{
    match p {
        LogicalPlan::Scan { .. } => compile_scan(p, columns, ps),
        LogicalPlan::IndexScan { .. } => compile_index_scan(p, columns, ps),
        LogicalPlan::FullTextScan { .. } => compile_full_text_scan(p, columns, ps),
        LogicalPlan::Filter { .. } => compile_filter(p, columns, ps),
        LogicalPlan::Projection { .. } => compile_projection(p, columns, ps),
        LogicalPlan::Limit { .. } => compile_limit(p, columns, ps),
        LogicalPlan::Sort { .. } => compile_sort(p, columns, ps),
        LogicalPlan::Join { .. } => compile_join(p, columns, ps),
        LogicalPlan::Aggregate { .. } => compile_aggregation(p, columns, ps),
        LogicalPlan::SetOp { .. } => compile_set_op(p, columns, ps),
        LogicalPlan::Distinct { .. } => compile_distinct(p, columns, ps),
    }
}

} // verus!
