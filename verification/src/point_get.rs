//! Lookups of a single row by its primary key.
//!
//! A query for one row by its key needs no operators: the row is fetched, and the filter and
//! the projection are evaluated on it.

use crate::eval;
use crate::expr;
use crate::expr::{ColumnSet, Expr, ExprV};
use crate::facts;
use crate::facts::{AnswerV, ErrorV, Facts, QuestionV, SqlError};
use crate::logical::{LogicalPlan, PlanV};
use crate::params::Params;
use crate::physical;
use crate::schema::{Row, Schema, SchemaV};
use crate::value;
use crate::value::{DbKey, DbValue, KeyV, Order, ValueV};
use vstd::prelude::*;
use vstd::string::*;

verus! {

/// A lookup: the key to fetch, and what is evaluated on the row.
#[derive(Debug)]
pub struct PointGetPlan {
    /// The expressions of the projection and its schema.
    pub projection: Option<(Vec<Expr>, Schema)>,
    pub filter: Option<Expr>,
    pub table_name: String,
    pub scan_schema: Schema,
    pub key: DbKey,
}

/// The model of a lookup.
pub struct PointGetV {
    pub projection: Option<(Seq<ExprV>, SchemaV)>,
    pub filter: Option<ExprV>,
    pub table_name: Seq<char>,
    pub scan_schema: SchemaV,
    pub key: KeyV,
}

impl PointGetPlan {
    /// The model.
    pub open spec fn view(&self) -> PointGetV {
        PointGetV {
            projection: match self.projection {
                Some(p) => Some((expr::exprs_view(p.0@), p.1@)),
                None => None,
            },
            filter: match self.filter {
                Some(f) => Some(f@),
                None => None,
            },
            table_name: self.table_name@,
            scan_schema: self.scan_schema@,
            key: self.key@,
        }
    }
}

/// The lookup of a scan of a single key.
pub open spec fn scan_lookup(
    p: PlanV,
    projection: Option<(Seq<ExprV>, SchemaV)>,
    filter: Option<ExprV>,
    ps: Map<Seq<char>, ValueV>,
) -> Option<PointGetV> {
    match p {
        PlanV::Scan { table_name, schema, range } => match range {
            Some(r) => match physical::scan_range(r, ps, physical::key_type(schema)) {
                Ok(k) => if value::key_order(k.0, k.1) == Order::Equal {
                    Some(PointGetV { projection, filter, table_name, scan_schema: schema, key: k.0 })
                } else {
                    None
                },
                Err(_) => None,
            },
            None => None,
        },
        _ => None,
    }
}

/// The lookup of an optional filter on a scan.
pub open spec fn filter_lookup(p: PlanV, projection: Option<(Seq<ExprV>, SchemaV)>, ps: Map<Seq<char>, ValueV>) -> Option<
    PointGetV,
> {
    match p {
        PlanV::Filter { source, predicate } => scan_lookup(*source, projection, Some(predicate), ps),
        _ => scan_lookup(p, projection, None, ps),
    }
}

/// The lookup of a plan: an optional projection of an optional filter of a scan whose range
/// is a single key.
pub open spec fn lookup(p: PlanV, ps: Map<Seq<char>, ValueV>) -> Option<PointGetV> {
    match p {
        PlanV::Projection { source, expressions, schema, .. } => filter_lookup(
            *source,
            Some((expressions, schema)),
            ps,
        ),
        _ => filter_lookup(p, None, ps),
    }
}

/// The columns that a lookup reads.
pub open spec fn lookup_columns(g: PointGetV) -> Set<Seq<char>> {
    (match g.projection {
        Some(p) => expr::exprs_columns(p.0),
        None => Set::empty(),
    }) + (match g.filter {
        Some(f) => expr::expr_columns(f),
        None => Set::empty(),
    })
}

/// The schema of the rows of a lookup.
pub open spec fn lookup_schema(g: PointGetV) -> SchemaV {
    match g.projection {
        Some(p) => p.1,
        None => g.scan_schema,
    }
}

/// The value of an expression on a row, after its parameters were replaced.
pub open spec fn row_value(
    e: ExprV,
    row: Seq<ValueV>,
    s: SchemaV,
    ps: Map<Seq<char>, ValueV>,
    known: Seq<(QuestionV, AnswerV)>,
) -> Result<ValueV, ErrorV> {
    match expr::substituted(e, ps) {
        Err(x) => Err(x),
        Ok(a) => match expr::bound(a, s) {
            Err(x) => Err(x),
            Ok(b) => eval::evaluated(b, row, s, known),
        },
    }
}

/// Whether a value lets a row through a filter.
pub open spec fn passes(v: ValueV) -> bool {
    match v {
        ValueV::Bool(b) => b,
        ValueV::Int(i) => i != 0,
        _ => false,
    }
}

/// Whether a row passes an optional filter.
pub open spec fn row_passes(
    filter: Option<ExprV>,
    row: Seq<ValueV>,
    s: SchemaV,
    ps: Map<Seq<char>, ValueV>,
    known: Seq<(QuestionV, AnswerV)>,
) -> Result<bool, ErrorV> {
    match filter {
        None => Ok(true),
        Some(f) => match row_value(f, row, s, ps, known) {
            Err(x) => Err(x),
            Ok(v) => Ok(passes(v)),
        },
    }
}

/// The values of some expressions on a row.
pub open spec fn row_values(
    es: Seq<ExprV>,
    row: Seq<ValueV>,
    s: SchemaV,
    ps: Map<Seq<char>, ValueV>,
    known: Seq<(QuestionV, AnswerV)>,
) -> Seq<Result<ValueV, ErrorV>> {
    es.map_values(|e: ExprV| row_value(e, row, s, ps, known))
}

/// A row after an optional projection.
pub open spec fn projected_row(
    g: PointGetV,
    row: Seq<ValueV>,
    ps: Map<Seq<char>, ValueV>,
    known: Seq<(QuestionV, AnswerV)>,
) -> Result<Seq<ValueV>, ErrorV> {
    match g.projection {
        None => Ok(row),
        Some(p) => facts::collected(row_values(p.0, row, g.scan_schema, ps, known), 0, Seq::empty()),
    }
}

/// The row that a lookup returns, where there is one: the row with the key, if there is one
/// and it passes the filter.
pub open spec fn found_row(
    g: PointGetV,
    row: Option<Seq<ValueV>>,
    ps: Map<Seq<char>, ValueV>,
    known: Seq<(QuestionV, AnswerV)>,
) -> Result<Option<Seq<ValueV>>, ErrorV> {
    match row {
        None => Ok(None),
        Some(r) => match row_passes(g.filter, r, g.scan_schema, ps, known) {
            Err(x) => Err(x),
            Ok(pass) => if pass {
                match projected_row(g, r, ps, known) {
                    Err(x) => Err(x),
                    Ok(out) => Ok(Some(out)),
                }
            } else {
                Ok(None)
            },
        },
    }
}

/// The model of an optional lookup.
pub open spec fn opt_lookup(o: Option<PointGetPlan>) -> Option<PointGetV> {
    match o {
        Some(g) => Some(g@),
        None => None,
    }
}

/// The lookup of a scan of a single key.
fn match_scan(p: &LogicalPlan, projection: Option<(Vec<Expr>, Schema)>, filter: Option<Expr>, ps: &Params) -> (out:
    Option<PointGetPlan>)
    ensures
        opt_lookup(out) == scan_lookup(
            p@,
            match projection {
                Some(q) => Some((expr::exprs_view(q.0@), q.1@)),
                None => None,
            },
            match filter {
                Some(f) => Some(f@),
                None => None,
            },
            ps@,
        ),
{
    match p {
        LogicalPlan::Scan { table_name, schema, range } => match range {
            Some((start, end)) => match physical::bound_scan(start, end, ps, physical::type_of_key(schema)) {
                Ok((a, b)) => if a.same(&b) {
                    Some(
                        PointGetPlan {
                            projection,
                            filter,
                            table_name: table_name.clone(),
                            scan_schema: schema.clone(),
                            key: a,
                        },
                    )
                } else {
                    None
                },
                Err(_) => None,
            },
            None => None,
        },
        _ => None,
    }
}

/// The lookup of an optional filter on a scan.
fn match_filter(p: &LogicalPlan, projection: Option<(Vec<Expr>, Schema)>, ps: &Params) -> (out: Option<PointGetPlan>)
    ensures
        opt_lookup(out) == filter_lookup(
            p@,
            match projection {
                Some(q) => Some((expr::exprs_view(q.0@), q.1@)),
                None => None,
            },
            ps@,
        ),
{
    match p {
        LogicalPlan::Filter { source, predicate } => match_scan(source, projection, Some(predicate.copy()), ps),
        _ => match_scan(p, projection, None, ps),
    }
}

/// The lookup that a plan is, if it is one.
pub fn match_point_get(p: &LogicalPlan, ps: &Params) -> (out: Option<PointGetPlan>)
    ensures
        opt_lookup(out) == lookup(p@, ps@),
{
    match p {
        LogicalPlan::Projection { source, expressions, schema, .. } => match_filter(
            source,
            Some((expr::copy_exprs(expressions), schema.clone())),
            ps,
        ),
        _ => match_filter(p, None, ps),
    }
}

/// The value of an expression on a row, after its parameters were replaced.
fn value_on_row(e: &Expr, row: &Row, s: &Schema, ps: &Params, facts: &Facts) -> (out: Result<DbValue, SqlError>)
    ensures
        eval::value_result(out) == row_value(e@, row@, s@, ps@, facts@),
{
    let a = e.with_params(ps)?;
    let b = a.bound_to(s)?;
    b.eval(row, s, facts)
}

impl PointGetPlan {
    /// The columns that the lookup reads.
    pub fn needed_columns(&self) -> (out: ColumnSet)
        ensures
            out@ == lookup_columns(self@),
            out.distinct(),
    {
        let mut out = ColumnSet::new();
        match &self.projection {
            Some(p) => expr::collect_list_columns(&p.0, &mut out),
            None => {},
        }
        match &self.filter {
            Some(f) => f.collect_columns(&mut out),
            None => {},
        }
        assert(out@ =~= lookup_columns(self@));
        out
    }

    /// The schema of the rows of the lookup.
    pub fn schema(&self) -> (out: Schema)
        ensures
            out@ == lookup_schema(self@),
    {
        match &self.projection {
            Some(p) => p.1.clone(),
            None => self.scan_schema.clone(),
        }
    }

    /// Whether a row passes the filter.
    fn row_passes(&self, row: &Row, ps: &Params, facts: &Facts) -> (out: Result<bool, SqlError>)
        ensures
            match out {
                Ok(b) => row_passes(self@.filter, row@, self@.scan_schema, ps@, facts@) == Ok::<bool, ErrorV>(b),
                Err(e) => row_passes(self@.filter, row@, self@.scan_schema, ps@, facts@) == Err::<bool, ErrorV>(e@),
            },
    {
        match &self.filter {
            None => Ok(true),
            Some(f) => {
                let v = value_on_row(f, row, &self.scan_schema, ps, facts)?;
                match v {
                    DbValue::Bool(b) => Ok(b),
                    DbValue::Int(i) => Ok(i != 0),
                    _ => Ok(false),
                }
            },
        }
    }

    /// A row after the projection.
    fn project(&self, row: Row, ps: &Params, facts: &Facts) -> (out: Result<Row, SqlError>)
        ensures
            match out {
                Ok(r) => projected_row(self@, row@, ps@, facts@) == Ok::<Seq<ValueV>, ErrorV>(r@),
                Err(e) => projected_row(self@, row@, ps@, facts@) == Err::<Seq<ValueV>, ErrorV>(e@),
            },
    {
        match &self.projection {
            None => Ok(row),
            Some(p) => {
                let vals = values_on_row(&p.0, &row, &self.scan_schema, ps, facts)?;
                Ok(Row::new(vals))
            },
        }
    }

    /// The row that the lookup returns, given the row with the key.
    pub fn finish(&self, row: Option<Row>, ps: &Params, facts: &Facts) -> (out: Result<Option<Row>, SqlError>)
        ensures
            match out {
                Ok(Some(r)) => found_row(self@, opt_row(row), ps@, facts@) == Ok::<Option<Seq<ValueV>>, ErrorV>(
                    Some(r@),
                ),
                Ok(None) => found_row(self@, opt_row(row), ps@, facts@) == Ok::<Option<Seq<ValueV>>, ErrorV>(None),
                Err(e) => found_row(self@, opt_row(row), ps@, facts@) == Err::<Option<Seq<ValueV>>, ErrorV>(e@),
            },
    {
        match row {
            None => Ok(None),
            Some(r) => {
                let pass = self.row_passes(&r, ps, facts)?;
                if pass {
                    let out = self.project(r, ps, facts)?;
                    Ok(Some(out))
                } else {
                    Ok(None)
                }
            },
        }
    }
}

/// The model of an optional row.
pub open spec fn opt_row(o: Option<Row>) -> Option<Seq<ValueV>> {
    match o {
        Some(r) => Some(r@),
        None => None,
    }
}

/// The values of some expressions on a row.
fn values_on_row(es: &Vec<Expr>, row: &Row, s: &Schema, ps: &Params, facts: &Facts) -> (out: Result<
    Vec<DbValue>,
    SqlError,
>)
    ensures
        match out {
            Ok(vs) => facts::collected(
                row_values(expr::exprs_view(es@), row@, s@, ps@, facts@),
                0,
                Seq::empty(),
            ) == Ok::<Seq<ValueV>, ErrorV>(value::values_view(vs@)),
            Err(e) => facts::collected(
                row_values(expr::exprs_view(es@), row@, s@, ps@, facts@),
                0,
                Seq::empty(),
            ) == Err::<Seq<ValueV>, ErrorV>(e@),
        },
{
    let mut out: Vec<DbValue> = Vec::new();
    let ghost view = expr::exprs_view(es@);
    let ghost rs = row_values(view, row@, s@, ps@, facts@);
    assert(value::values_view(out@) =~= Seq::empty());
    for i in 0..es.len()
        invariant
            view == expr::exprs_view(es@),
            view.len() == es@.len(),
            rs == row_values(view, row@, s@, ps@, facts@),
            facts::collected(rs, 0, Seq::empty()) == facts::collected(rs, i as int, value::values_view(out@)),
    {
        let ghost before = value::values_view(out@);
        assert(view[i as int] == es@[i as int]@);
        assert(rs[i as int] == row_value(es@[i as int]@, row@, s@, ps@, facts@));
        let v = value_on_row(&es[i], row, s, ps, facts)?;
        let ghost added = v@;
        out.push(v);
        assert(value::values_view(out@) =~= before.push(added));
    }
    Ok(out)
}

} // verus!
