//! Why predicates may be moved below a join: the rows stay the same.

use crate::eval;
use crate::expr;
use crate::expr::ExprV;
use crate::facts::{AnswerV, ErrorV, QuestionV};
use crate::kept;
use crate::logical::JoinType;
use crate::optimizer;
use crate::optimizer::Side;
use crate::ranges;
use crate::schema;
use crate::schema::{ColumnV, SchemaV};
use crate::text;
use crate::value::ValueV;
use vstd::prelude::*;

verus! {

// ---------------------------------------------------------------- columns by name

/// Whether a name denotes the column at `k` and no other.
pub open spec fn denotes_one(cols: Seq<ColumnV>, name: Seq<char>, k: int) -> bool {
    &&& 0 <= k < cols.len()
    &&& text::names_match(cols[k].name, name)
    &&& forall|j: int| 0 <= j < cols.len() && j != k ==> !text::names_match(#[trigger] cols[j].name, name)
}

proof fn none_matches(cols: Seq<ColumnV>, name: Seq<char>, i: int, acc: Seq<usize>)
    requires
        0 <= i,
        forall|j: int| i <= j < cols.len() ==> !text::names_match(#[trigger] cols[j].name, name),
    ensures
        schema::matching_columns_from(cols, name, i, acc) == acc,
    decreases cols.len() - i,
{
    if i < cols.len() {
        none_matches(cols, name, i + 1, acc);
    }
}

proof fn one_matches(cols: Seq<ColumnV>, name: Seq<char>, i: int, acc: Seq<usize>, k: int)
    requires
        0 <= i <= k,
        denotes_one(cols, name, k),
    ensures
        schema::matching_columns_from(cols, name, i, acc) == acc.push(k as usize),
    decreases cols.len() - i,
{
    if i == k {
        none_matches(cols, name, i + 1, acc.push(k as usize));
    } else {
        one_matches(cols, name, i + 1, acc, k);
    }
}

/// What is found comes after what was found before; each match adds one.
proof fn matches_grow(cols: Seq<ColumnV>, name: Seq<char>, i: int, acc: Seq<usize>)
    requires
        0 <= i,
    ensures
        schema::matching_columns_from(cols, name, i, acc).len() >= acc.len(),
        forall|j: int| 0 <= j < acc.len() ==> schema::matching_columns_from(cols, name, i, acc)[j] == acc[j],
        schema::matching_columns_from(cols, name, i, acc).len() == acc.len() ==> forall|j: int|
            i <= j < cols.len() ==> !text::names_match(#[trigger] cols[j].name, name),
    decreases cols.len() - i,
{
    if i < cols.len() {
        if text::names_match(cols[i].name, name) {
            matches_grow(cols, name, i + 1, acc.push(i as usize));
            let out = schema::matching_columns_from(cols, name, i, acc);
            assert forall|j: int| 0 <= j < acc.len() implies out[j] == acc[j] by {
                assert(acc.push(i as usize)[j] == acc[j]);
            }
        } else {
            matches_grow(cols, name, i + 1, acc);
        }
    }
}

/// Where one column is found from `i` on, and none before, the name denotes it alone.
proof fn found_is_one(cols: Seq<ColumnV>, name: Seq<char>, i: int) -> (k: int)
    requires
        0 <= i,
        cols.len() <= usize::MAX,
        forall|j: int| 0 <= j < i && j < cols.len() ==> !text::names_match(#[trigger] cols[j].name, name),
        schema::matching_columns_from(cols, name, i, Seq::empty()).len() == 1,
    ensures
        denotes_one(cols, name, k),
        schema::matching_columns_from(cols, name, i, Seq::empty())[0] == k,
    decreases cols.len() - i,
{
    if i < cols.len() {
        if text::names_match(cols[i].name, name) {
            matches_grow(cols, name, i + 1, Seq::empty().push(i as usize));
            assert(Seq::<usize>::empty().push(i as usize)[0] == i);
            i
        } else {
            found_is_one(cols, name, i + 1)
        }
    } else {
        0
    }
}

/// A name is resolved to a column where it denotes that column and no other.
pub proof fn resolved_is_one(s: SchemaV, name: Seq<char>, k: int)
    requires
        s.columns.len() <= usize::MAX,
    ensures
        denotes_one(s.columns, name, k) ==> expr::resolved(s, name) == Ok::<usize, ErrorV>(k as usize),
        expr::resolved(s, name) matches Ok(i) && i == k ==> denotes_one(s.columns, name, k),
{
    if denotes_one(s.columns, name, k) {
        one_matches(s.columns, name, 0, Seq::empty(), k);
    }
    if let Ok(i) = expr::resolved(s, name) {
        let found = found_is_one(s.columns, name, 0);
        assert(found == i);
    }
}

/// The schema of the rows of a join.
pub open spec fn joined(ls: SchemaV, rs: SchemaV) -> SchemaV {
    schema::schema_of(ls.columns + rs.columns)
}

/// A name that denotes one column of a join and one of a side denotes that one.
proof fn side_has_the_column(ls: SchemaV, rs: SchemaV, name: Seq<char>, k: int)
    requires
        denotes_one(joined(ls, rs).columns, name, k),
    ensures
        optimizer::has_column(ls, name) ==> k < ls.columns.len() && denotes_one(ls.columns, name, k),
        optimizer::has_column(rs, name) ==> k >= ls.columns.len() && denotes_one(
            rs.columns,
            name,
            k - ls.columns.len(),
        ),
{
    let all = joined(ls, rs).columns;
    let n = ls.columns.len() as int;
    assert forall|j: int| 0 <= j < ls.columns.len() && j != k implies !text::names_match(
        #[trigger] ls.columns[j].name,
        name,
    ) by {
        assert(all[j].name == ls.columns[j].name);
    }
    assert forall|j: int| 0 <= j < rs.columns.len() && j != k - n implies !text::names_match(
        #[trigger] rs.columns[j].name,
        name,
    ) by {
        assert(all[n + j].name == rs.columns[j].name);
    }
}

// ---------------------------------------------------------------- values by name

/// Whether an expression reads its columns by their names: none is bound to a position, and none
/// is searched for words.
pub open spec fn reads_by_name(e: ExprV) -> bool
    decreases e,
{
    match e {
        ExprV::Column(_, index) => index is None,
        ExprV::Match { .. } => false,
        ExprV::BinaryOp { left, right, .. } => reads_by_name(*left) && reads_by_name(*right),
        ExprV::Case { operand, conditions, results, else_result } => maybe_reads_by_name(operand)
            && list_reads_by_name(conditions) && list_reads_by_name(results) && maybe_reads_by_name(else_result),
        ExprV::Function { args, .. } => list_reads_by_name(args),
        ExprV::Not(inner) => reads_by_name(*inner),
        ExprV::IsNull(inner) => reads_by_name(*inner),
        ExprV::InList { expr, list } => reads_by_name(*expr) && list_reads_by_name(list),
        ExprV::Cast { expr, .. } => reads_by_name(*expr),
        _ => true,
    }
}

/// Whether this holds of an optional expression.
pub open spec fn maybe_reads_by_name(o: Option<Box<ExprV>>) -> bool
    decreases o,
{
    match o {
        Some(e) => reads_by_name(*e),
        None => true,
    }
}

/// Whether this holds of every one of some expressions.
pub open spec fn list_reads_by_name(es: Seq<ExprV>) -> bool
    decreases es,
{
    forall|i: int| 0 <= i < es.len() ==> reads_by_name(#[trigger] es[i])
}

/// Whether each of some names denotes a column in both schemas, with the same value on both rows.
spec fn same_values(
    names: Set<Seq<char>>,
    row: Seq<ValueV>,
    s: SchemaV,
    other: Seq<ValueV>,
    t: SchemaV,
) -> bool {
    forall|n: Seq<char>| #[trigger]
        names.contains(n) ==> {
            &&& expr::resolved(s, n) is Ok
            &&& expr::resolved(t, n) is Ok
            &&& eval::row_value(row, expr::resolved(s, n)->Ok_0 as int) == eval::row_value(
                other,
                expr::resolved(t, n)->Ok_0 as int,
            )
        }
}

/// The columns of one of some expressions are among those of all.
proof fn columns_are_among(es: Seq<ExprV>, i: int)
    requires
        0 <= i < es.len(),
    ensures
        expr::expr_columns(es[i]).subset_of(expr::exprs_columns(es)),
    decreases es.len(),
{
    if i < es.len() - 1 {
        columns_are_among(es.drop_last(), i);
        assert(es.drop_last()[i] == es[i]);
    }
}

/// An expression has the same value on two rows whose columns have the same values by name.
proof fn value_follows_names(
    e: ExprV,
    row: Seq<ValueV>,
    s: SchemaV,
    other: Seq<ValueV>,
    t: SchemaV,
    known: Seq<(QuestionV, AnswerV)>,
)
    requires
        reads_by_name(e),
        same_values(expr::expr_columns(e), row, s, other, t),
    ensures
        eval::evaluated(e, row, s, known) == eval::evaluated(e, other, t, known),
    decreases e,
{
    match e {
        ExprV::Column(name, _) => {
            assert(expr::expr_columns(e).contains(name));
        },
        ExprV::BinaryOp { left, right, .. } => {
            assert(expr::expr_columns(*left).subset_of(expr::expr_columns(e)));
            assert(expr::expr_columns(*right).subset_of(expr::expr_columns(e)));
            value_follows_names(*left, row, s, other, t, known);
            value_follows_names(*right, row, s, other, t, known);
        },
        ExprV::Case { operand, conditions, results, else_result } => {
            assert(expr::opt_expr_columns(operand).subset_of(expr::expr_columns(e)));
            assert(expr::exprs_columns(conditions).subset_of(expr::expr_columns(e)));
            assert(expr::exprs_columns(results).subset_of(expr::expr_columns(e)));
            assert(expr::opt_expr_columns(else_result).subset_of(expr::expr_columns(e)));
            maybe_follows_names(operand, row, s, other, t, known);
            list_follows_names(conditions, row, s, other, t, known);
            list_follows_names(results, row, s, other, t, known);
            maybe_follows_names(else_result, row, s, other, t, known);
        },
        ExprV::Function { args, .. } => list_follows_names(args, row, s, other, t, known),
        ExprV::Not(inner) => value_follows_names(*inner, row, s, other, t, known),
        ExprV::IsNull(inner) => value_follows_names(*inner, row, s, other, t, known),
        ExprV::InList { expr, list } => {
            assert(expr::expr_columns(*expr).subset_of(expr::expr_columns(e)));
            assert(expr::exprs_columns(list).subset_of(expr::expr_columns(e)));
            value_follows_names(*expr, row, s, other, t, known);
            list_follows_names(list, row, s, other, t, known);
        },
        ExprV::Cast { expr, .. } => value_follows_names(*expr, row, s, other, t, known),
        _ => {},
    }
}

proof fn maybe_follows_names(
    o: Option<Box<ExprV>>,
    row: Seq<ValueV>,
    s: SchemaV,
    other: Seq<ValueV>,
    t: SchemaV,
    known: Seq<(QuestionV, AnswerV)>,
)
    requires
        maybe_reads_by_name(o),
        same_values(expr::opt_expr_columns(o), row, s, other, t),
    ensures
        eval::evaluated_opt(o, row, s, known) == eval::evaluated_opt(o, other, t, known),
    decreases o,
{
    if let Some(e) = o {
        value_follows_names(*e, row, s, other, t, known);
    }
}

proof fn list_follows_names(
    es: Seq<ExprV>,
    row: Seq<ValueV>,
    s: SchemaV,
    other: Seq<ValueV>,
    t: SchemaV,
    known: Seq<(QuestionV, AnswerV)>,
)
    requires
        list_reads_by_name(es),
        same_values(expr::exprs_columns(es), row, s, other, t),
    ensures
        eval::evaluated_each(es, row, s, known) == eval::evaluated_each(es, other, t, known),
    decreases es,
{
    assert forall|i: int| 0 <= i < es.len() implies eval::evaluated(#[trigger] es[i], row, s, known)
        == eval::evaluated(es[i], other, t, known) by {
        columns_are_among(es, i);
        assert(reads_by_name(es[i]));
        assert(same_values(expr::expr_columns(es[i]), row, s, other, t));
        value_follows_names(es[i], row, s, other, t, known);
    }
    assert(eval::evaluated_each(es, row, s, known) =~= eval::evaluated_each(es, other, t, known));
}

/// Whether a predicate reads its columns by names each of which denotes one column of a schema.
pub open spec fn is_unambiguous(e: ExprV, s: SchemaV) -> bool {
    &&& reads_by_name(e)
    &&& forall|n: Seq<char>| #[trigger] expr::expr_columns(e).contains(n) ==> expr::resolved(s, n) is Ok
}

/// A predicate above a join that is moved to a side accepts a row of that side where it accepts
/// the joined row. It holds of predicates whose columns are unambiguous in the join.
pub proof fn moved_predicate_accepts_same_rows(
    e: ExprV,
    ls: SchemaV,
    rs: SchemaV,
    join_type: JoinType,
    l: Seq<ValueV>,
    r: Seq<ValueV>,
    known: Seq<(QuestionV, AnswerV)>,
)
    requires
        is_unambiguous(e, joined(ls, rs)),
        l.len() == ls.columns.len(),
        r.len() == rs.columns.len(),
        ls.columns.len() + rs.columns.len() <= usize::MAX,
    ensures
        optimizer::side_of(e, ls, rs, join_type) == Side::Left ==> ranges::accepts(e, l + r, joined(ls, rs), known)
            == ranges::accepts(e, l, ls, known),
        optimizer::side_of(e, ls, rs, join_type) == Side::Right ==> ranges::accepts(e, l + r, joined(ls, rs), known)
            == ranges::accepts(e, r, rs, known),
{
    reveal(ranges::accepts);
    let names = expr::expr_columns(e);
    let all = joined(ls, rs);
    let n = ls.columns.len() as int;
    if optimizer::side_of(e, ls, rs, join_type) == Side::Left {
        assert forall|m: Seq<char>| #[trigger] names.contains(m) implies {
            &&& expr::resolved(all, m) is Ok
            &&& expr::resolved(ls, m) is Ok
            &&& eval::row_value(l + r, expr::resolved(all, m)->Ok_0 as int) == eval::row_value(
                l,
                expr::resolved(ls, m)->Ok_0 as int,
            )
        } by {
            let k = expr::resolved(all, m)->Ok_0 as int;
            resolved_is_one(all, m, k);
            assert(optimizer::has_column(ls, m));
            side_has_the_column(ls, rs, m, k);
            resolved_is_one(ls, m, k);
        }
        value_follows_names(e, l + r, all, l, ls, known);
    } else if optimizer::side_of(e, ls, rs, join_type) == Side::Right {
        assert forall|m: Seq<char>| #[trigger] names.contains(m) implies {
            &&& expr::resolved(all, m) is Ok
            &&& expr::resolved(rs, m) is Ok
            &&& eval::row_value(l + r, expr::resolved(all, m)->Ok_0 as int) == eval::row_value(
                r,
                expr::resolved(rs, m)->Ok_0 as int,
            )
        } by {
            let k = expr::resolved(all, m)->Ok_0 as int;
            resolved_is_one(all, m, k);
            assert(optimizer::has_column(rs, m));
            side_has_the_column(ls, rs, m, k);
            resolved_is_one(rs, m, k - n);
        }
        value_follows_names(e, l + r, all, r, rs, known);
    }
}

/// An expression whose columns are unambiguous in a join and all belong to one side has on the row
/// of that side the value that it has on the joined row.
pub proof fn value_on_a_side_is_the_joined_one(
    e: ExprV,
    ls: SchemaV,
    rs: SchemaV,
    l: Seq<ValueV>,
    r: Seq<ValueV>,
    known: Seq<(QuestionV, AnswerV)>,
)
    requires
        is_unambiguous(e, joined(ls, rs)),
        l.len() == ls.columns.len(),
        r.len() == rs.columns.len(),
        ls.columns.len() + rs.columns.len() <= usize::MAX,
    ensures
        optimizer::covers(ls, expr::expr_columns(e)) ==> eval::evaluated(e, l + r, joined(ls, rs), known)
            == eval::evaluated(e, l, ls, known),
        optimizer::covers(rs, expr::expr_columns(e)) ==> eval::evaluated(e, l + r, joined(ls, rs), known)
            == eval::evaluated(e, r, rs, known),
{
    let names = expr::expr_columns(e);
    let all = joined(ls, rs);
    let n = ls.columns.len() as int;
    if optimizer::covers(ls, names) {
        assert forall|m: Seq<char>| #[trigger] names.contains(m) implies {
            &&& expr::resolved(all, m) is Ok
            &&& expr::resolved(ls, m) is Ok
            &&& eval::row_value(l + r, expr::resolved(all, m)->Ok_0 as int) == eval::row_value(
                l,
                expr::resolved(ls, m)->Ok_0 as int,
            )
        } by {
            let k = expr::resolved(all, m)->Ok_0 as int;
            resolved_is_one(all, m, k);
            assert(optimizer::has_column(ls, m));
            side_has_the_column(ls, rs, m, k);
            resolved_is_one(ls, m, k);
        }
        value_follows_names(e, l + r, all, l, ls, known);
    }
    if optimizer::covers(rs, names) {
        assert forall|m: Seq<char>| #[trigger] names.contains(m) implies {
            &&& expr::resolved(all, m) is Ok
            &&& expr::resolved(rs, m) is Ok
            &&& eval::row_value(l + r, expr::resolved(all, m)->Ok_0 as int) == eval::row_value(
                r,
                expr::resolved(rs, m)->Ok_0 as int,
            )
        } by {
            let k = expr::resolved(all, m)->Ok_0 as int;
            resolved_is_one(all, m, k);
            assert(optimizer::has_column(rs, m));
            side_has_the_column(ls, rs, m, k);
            resolved_is_one(rs, m, k - n);
        }
        value_follows_names(e, l + r, all, r, rs, known);
    }
}

// ---------------------------------------------------------------- rows of a join

/// The rows that pass a test, in order.
pub open spec fn passing(rows: Seq<Seq<ValueV>>, test: spec_fn(Seq<ValueV>) -> bool) -> Seq<Seq<ValueV>>
    decreases rows.len(),
{
    if rows.len() == 0 {
        Seq::empty()
    } else {
        (if test(rows[0]) {
            seq![rows[0]]
        } else {
            Seq::empty()
        }) + passing(rows.drop_first(), test)
    }
}

/// A row of the left side together with each row of the right side that the condition accepts.
pub open spec fn pairs(l: Seq<ValueV>, right: Seq<Seq<ValueV>>, on: spec_fn(Seq<ValueV>) -> bool) -> Seq<Seq<ValueV>>
    decreases right.len(),
{
    if right.len() == 0 {
        Seq::empty()
    } else {
        (if on(l + right[0]) {
            seq![l + right[0]]
        } else {
            Seq::empty()
        }) + pairs(l, right.drop_first(), on)
    }
}

/// The rows of a join that a row of the left side is in. An outer join pairs a row that no other
/// fits with nulls.
pub open spec fn joins_of(
    l: Seq<ValueV>,
    right: Seq<Seq<ValueV>>,
    on: spec_fn(Seq<ValueV>) -> bool,
    nulls: Option<Seq<ValueV>>,
) -> Seq<Seq<ValueV>> {
    let found = pairs(l, right, on);
    match nulls {
        Some(n) => if found.len() == 0 {
            seq![l + n]
        } else {
            found
        },
        None => found,
    }
}

/// The rows of a join.
pub open spec fn join_rows(
    left: Seq<Seq<ValueV>>,
    right: Seq<Seq<ValueV>>,
    on: spec_fn(Seq<ValueV>) -> bool,
    nulls: Option<Seq<ValueV>>,
) -> Seq<Seq<ValueV>>
    decreases left.len(),
{
    if left.len() == 0 {
        Seq::empty()
    } else {
        joins_of(left[0], right, on, nulls) + join_rows(left.drop_first(), right, on, nulls)
    }
}

proof fn passing_of_both(a: Seq<Seq<ValueV>>, b: Seq<Seq<ValueV>>, test: spec_fn(Seq<ValueV>) -> bool)
    ensures
        passing(a + b, test) == passing(a, test) + passing(b, test),
    decreases a.len(),
{
    if a.len() == 0 {
        assert(a + b =~= b);
        assert(passing(a, test) + passing(b, test) =~= passing(b, test));
    } else {
        assert((a + b).drop_first() =~= a.drop_first() + b);
        passing_of_both(a.drop_first(), b, test);
        assert(passing(a + b, test) =~= passing(a, test) + passing(b, test));
    }
}

/// Whether a test of joined rows is one of the left row, one of the right row and one of both.
spec fn is_shared(
    all: spec_fn(Seq<ValueV>) -> bool,
    a: spec_fn(Seq<ValueV>) -> bool,
    b: spec_fn(Seq<ValueV>) -> bool,
    c: spec_fn(Seq<ValueV>) -> bool,
    left: Seq<Seq<ValueV>>,
    right: Seq<Seq<ValueV>>,
) -> bool {
    forall|i: int, j: int|
        0 <= i < left.len() && 0 <= j < right.len() ==> #[trigger] all(left[i] + right[j]) == (a(left[i]) && b(right[j])
            && c(left[i] + right[j]))
}

/// Testing the pairs of a row is testing the row, the rows it is paired with, and what is left.
proof fn pairs_pass(
    l: Seq<ValueV>,
    right: Seq<Seq<ValueV>>,
    on: spec_fn(Seq<ValueV>) -> bool,
    all: spec_fn(Seq<ValueV>) -> bool,
    a: spec_fn(Seq<ValueV>) -> bool,
    b: spec_fn(Seq<ValueV>) -> bool,
    c: spec_fn(Seq<ValueV>) -> bool,
)
    requires
        forall|j: int|
            0 <= j < right.len() ==> #[trigger] all(l + right[j]) == (a(l) && b(right[j]) && c(l + right[j])),
    ensures
        passing(pairs(l, right, on), all) == (if a(l) {
            passing(pairs(l, passing(right, b), on), c)
        } else {
            Seq::empty()
        }),
    decreases right.len(),
{
    if right.len() > 0 {
        let rest = right.drop_first();
        assert forall|j: int| 0 <= j < rest.len() implies #[trigger] all(l + rest[j]) == (a(l) && b(rest[j]) && c(
            l + rest[j],
        )) by {
            assert(rest[j] == right[j + 1]);
            assert(all(l + right[j + 1]) == (a(l) && b(right[j + 1]) && c(l + right[j + 1])));
        }
        pairs_pass(l, rest, on, all, a, b, c);
        let x = l + right[0];
        assert(all(l + right[0]) == (a(l) && b(right[0]) && c(l + right[0])));
        let first = if on(x) {
            seq![x]
        } else {
            Seq::empty()
        };
        passing_of_both(first, pairs(l, rest, on), all);
        one_row_passes(first, all);
        let kept_first = if b(right[0]) {
            seq![right[0]]
        } else {
            Seq::empty()
        };
        assert(passing(right, b) =~= kept_first + passing(rest, b));
        if b(right[0]) {
            assert((kept_first + passing(rest, b)).drop_first() =~= passing(rest, b));
            assert(pairs(l, passing(right, b), on) =~= first + pairs(l, passing(rest, b), on));
            passing_of_both(first, pairs(l, passing(rest, b), on), c);
            one_row_passes(first, c);
        } else {
            assert(passing(right, b) =~= passing(rest, b));
        }
        assert(passing(pairs(l, right, on), all) =~= (if a(l) {
            passing(pairs(l, passing(right, b), on), c)
        } else {
            Seq::empty()
        }));
    }
}

/// One row at most either passes or does not.
proof fn one_row_passes(rows: Seq<Seq<ValueV>>, test: spec_fn(Seq<ValueV>) -> bool)
    requires
        rows.len() <= 1,
    ensures
        passing(rows, test) == (if rows.len() == 1 && test(rows[0]) {
            rows
        } else {
            Seq::empty()
        }),
{
    if rows.len() == 1 {
        assert(passing(rows.drop_first(), test) =~= Seq::empty());
        assert(seq![rows[0]] =~= rows);
        assert(rows + Seq::empty() =~= rows);
    }
}

/// Testing the rows of a join is testing each side, and then what is left of the test.
proof fn join_passes(
    left: Seq<Seq<ValueV>>,
    right: Seq<Seq<ValueV>>,
    on: spec_fn(Seq<ValueV>) -> bool,
    nulls: Option<Seq<ValueV>>,
    all: spec_fn(Seq<ValueV>) -> bool,
    a: spec_fn(Seq<ValueV>) -> bool,
    b: spec_fn(Seq<ValueV>) -> bool,
    c: spec_fn(Seq<ValueV>) -> bool,
)
    requires
        is_shared(all, a, b, c, left, right),
        nulls matches Some(n) ==> {
            &&& forall|j: int| 0 <= j < right.len() ==> b(#[trigger] right[j])
            &&& forall|i: int| 0 <= i < left.len() ==> #[trigger] all(left[i] + n) == (a(left[i]) && c(left[i] + n))
        },
    ensures
        passing(join_rows(left, right, on, nulls), all) == passing(
            join_rows(passing(left, a), passing(right, b), on, nulls),
            c,
        ),
    decreases left.len(),
{
    if left.len() > 0 {
        let l = left[0];
        let rest = left.drop_first();
        assert forall|i: int, j: int| 0 <= i < rest.len() && 0 <= j < right.len() implies #[trigger] all(
            rest[i] + right[j],
        ) == (a(rest[i]) && b(right[j]) && c(rest[i] + right[j])) by {
            assert(rest[i] == left[i + 1]);
            assert(all(left[i + 1] + right[j]) == (a(left[i + 1]) && b(right[j]) && c(left[i + 1] + right[j])));
        }
        if let Some(n) = nulls {
            assert forall|i: int| 0 <= i < rest.len() implies #[trigger] all(rest[i] + n) == (a(rest[i]) && c(
                rest[i] + n,
            )) by {
                assert(rest[i] == left[i + 1]);
                assert(all(left[i + 1] + n) == (a(left[i + 1]) && c(left[i + 1] + n)));
            }
        }
        join_passes(rest, right, on, nulls, all, a, b, c);
        assert forall|j: int| 0 <= j < right.len() implies #[trigger] all(l + right[j]) == (a(l) && b(right[j]) && c(
            l + right[j],
        )) by {
            assert(all(left[0] + right[j]) == (a(left[0]) && b(right[j]) && c(left[0] + right[j])));
        }
        pairs_pass(l, right, on, all, a, b, c);
        let kept_right = passing(right, b);
        let first = joins_of(l, right, on, nulls);
        let others = join_rows(rest, right, on, nulls);
        passing_of_both(first, others, all);
        if let Some(n) = nulls {
            all_pass(right, b);
            assert(all(left[0] + n) == (a(left[0]) && c(left[0] + n)));
            one_row_passes(seq![l + n], all);
            one_row_passes(seq![l + n], c);
        }
        let kept_left = passing(left, a);
        let kept_rest = passing(rest, a);
        if a(l) {
            assert(kept_left =~= seq![l] + kept_rest);
            assert(kept_left.drop_first() =~= kept_rest);
            let kept_first = joins_of(l, kept_right, on, nulls);
            let kept_others = join_rows(kept_rest, kept_right, on, nulls);
            assert(join_rows(kept_left, kept_right, on, nulls) =~= kept_first + kept_others);
            passing_of_both(kept_first, kept_others, c);
            assert(passing(first, all) == passing(kept_first, c));
        } else {
            assert(kept_left =~= kept_rest);
            assert(passing(first, all) =~= Seq::empty());
            assert(passing(first, all) + passing(others, all) =~= passing(others, all));
        }
    }
}

/// Rows that all pass are all there.
proof fn all_pass(rows: Seq<Seq<ValueV>>, test: spec_fn(Seq<ValueV>) -> bool)
    requires
        forall|j: int| 0 <= j < rows.len() ==> test(#[trigger] rows[j]),
    ensures
        passing(rows, test) == rows,
    decreases rows.len(),
{
    if rows.len() > 0 {
        let rest = rows.drop_first();
        assert forall|j: int| 0 <= j < rest.len() implies test(#[trigger] rest[j]) by {
            assert(rest[j] == rows[j + 1]);
        }
        all_pass(rest, test);
        assert(seq![rows[0]] + rest =~= rows);
    }
}

// ---------------------------------------------------------------- predicates below a join

/// The test of some predicates on rows of a schema.
pub open spec fn test_of(es: Seq<ExprV>, s: SchemaV, known: Seq<(QuestionV, AnswerV)>) -> spec_fn(Seq<ValueV>) -> bool {
    |row: Seq<ValueV>| kept::all_accept(es, row, s, known)
}

/// Predicates accept a joined row where those that go to each side accept its row, and those that
/// stay above accept the joined row.
proof fn predicates_are_shared(
    es: Seq<ExprV>,
    ls: SchemaV,
    rs: SchemaV,
    join_type: JoinType,
    l: Seq<ValueV>,
    r: Seq<ValueV>,
    known: Seq<(QuestionV, AnswerV)>,
    i: int,
    a: Seq<ExprV>,
    b: Seq<ExprV>,
    c: Seq<ExprV>,
)
    requires
        0 <= i <= es.len(),
        forall|j: int| 0 <= j < es.len() ==> is_unambiguous(#[trigger] es[j], joined(ls, rs)),
        l.len() == ls.columns.len(),
        r.len() == rs.columns.len(),
        ls.columns.len() + rs.columns.len() <= usize::MAX,
    ensures
        ({
            let to_left = optimizer::going_to(es, ls, rs, join_type, Side::Left, i, a);
            let to_right = optimizer::going_to(es, ls, rs, join_type, Side::Right, i, b);
            let above = optimizer::going_to(es, ls, rs, join_type, Side::Above, i, c);
            (kept::all_accept(to_left, l, ls, known) && kept::all_accept(to_right, r, rs, known) && kept::all_accept(
                above,
                l + r,
                joined(ls, rs),
                known,
            )) == (kept::all_accept(a, l, ls, known) && kept::all_accept(b, r, rs, known) && kept::all_accept(
                c,
                l + r,
                joined(ls, rs),
                known,
            ) && kept::all_accept(es.skip(i), l + r, joined(ls, rs), known))
        }),
    decreases es.len() - i,
{
    if i >= es.len() {
        assert(es.skip(i) =~= Seq::empty());
    } else {
        let e = es[i];
        let all = joined(ls, rs);
        assert(is_unambiguous(es[i], all));
        moved_predicate_accepts_same_rows(e, ls, rs, join_type, l, r, known);
        one_more_accepts(es.skip(i + 1), e, l + r, all, known);
        assert(es.skip(i) =~= seq![e] + es.skip(i + 1));
        match optimizer::side_of(e, ls, rs, join_type) {
            Side::Left => {
                predicates_are_shared(es, ls, rs, join_type, l, r, known, i + 1, a.push(e), b, c);
                last_accepts(a, e, l, ls, known);
            },
            Side::Right => {
                predicates_are_shared(es, ls, rs, join_type, l, r, known, i + 1, a, b.push(e), c);
                last_accepts(b, e, r, rs, known);
            },
            Side::Above => {
                predicates_are_shared(es, ls, rs, join_type, l, r, known, i + 1, a, b, c.push(e));
                last_accepts(c, e, l + r, all, known);
            },
        }
    }
}

proof fn one_more_accepts(
    es: Seq<ExprV>,
    e: ExprV,
    row: Seq<ValueV>,
    s: SchemaV,
    known: Seq<(QuestionV, AnswerV)>,
)
    ensures
        kept::all_accept(seq![e] + es, row, s, known) == (ranges::accepts(e, row, s, known) && kept::all_accept(
            es,
            row,
            s,
            known,
        )),
{
    let all = seq![e] + es;
    assert(all[0] == e);
    assert(forall|i: int| 0 <= i < es.len() ==> es[i] == #[trigger] all[i + 1]);
    if kept::all_accept(all, row, s, known) {
        assert(ranges::accepts(all[0], row, s, known));
        assert forall|i: int| 0 <= i < es.len() implies ranges::accepts(#[trigger] es[i], row, s, known) by {
            assert(ranges::accepts(all[i + 1], row, s, known));
        }
    }
    if ranges::accepts(e, row, s, known) && kept::all_accept(es, row, s, known) {
        assert forall|i: int| 0 <= i < all.len() implies ranges::accepts(#[trigger] all[i], row, s, known) by {
            if i > 0 {
                assert(all[i] == es[i - 1]);
            }
        }
    }
}

proof fn last_accepts(es: Seq<ExprV>, e: ExprV, row: Seq<ValueV>, s: SchemaV, known: Seq<(QuestionV, AnswerV)>)
    ensures
        kept::all_accept(es.push(e), row, s, known) == (kept::all_accept(es, row, s, known) && ranges::accepts(
            e,
            row,
            s,
            known,
        )),
{
    let all = es.push(e);
    if kept::all_accept(all, row, s, known) {
        assert(ranges::accepts(all[es.len() as int], row, s, known));
        assert forall|i: int| 0 <= i < es.len() implies ranges::accepts(#[trigger] es[i], row, s, known) by {
            assert(all[i] == es[i]);
        }
    }
    if kept::all_accept(es, row, s, known) && ranges::accepts(e, row, s, known) {
        assert forall|i: int| 0 <= i < all.len() implies ranges::accepts(#[trigger] all[i], row, s, known) by {
            if i < es.len() {
                assert(all[i] == es[i]);
            }
        }
    }
}

/// Whether rows have a value for each column of a schema.
pub open spec fn rows_of_schema(rows: Seq<Seq<ValueV>>, s: SchemaV) -> bool {
    forall|i: int| 0 <= i < rows.len() ==> (#[trigger] rows[i]).len() == s.columns.len()
}

/// Moving predicates below a join keeps its rows, and their order: the rows of the join that the
/// predicates accept are those that come of joining only the rows that the moved ones accept, and
/// of testing these with what stays above. For an outer join, `nulls` are the values in place of
/// a missing row of the right side. It holds of predicates whose columns are unambiguous in the
/// join.
pub proof fn pushing_below_a_join_keeps_rows(
    es: Seq<ExprV>,
    condition: ExprV,
    join_type: JoinType,
    ls: SchemaV,
    rs: SchemaV,
    left: Seq<Seq<ValueV>>,
    right: Seq<Seq<ValueV>>,
    nulls: Option<Seq<ValueV>>,
    known: Seq<(QuestionV, AnswerV)>,
)
    requires
        forall|j: int| 0 <= j < es.len() ==> is_unambiguous(#[trigger] es[j], joined(ls, rs)),
        rows_of_schema(left, ls),
        rows_of_schema(right, rs),
        nulls is Some <==> join_type == JoinType::Left,
        nulls matches Some(n) ==> n.len() == rs.columns.len(),
        ls.columns.len() + rs.columns.len() <= usize::MAX,
    ensures
        ({
            let to_left = optimizer::going_to(es, ls, rs, join_type, Side::Left, 0, Seq::empty());
            let to_right = optimizer::going_to(es, ls, rs, join_type, Side::Right, 0, Seq::empty());
            let above = optimizer::going_to(es, ls, rs, join_type, Side::Above, 0, Seq::empty());
            let on = test_of(seq![condition], joined(ls, rs), known);
            passing(join_rows(left, right, on, nulls), test_of(es, joined(ls, rs), known)) == passing(
                join_rows(
                    passing(left, test_of(to_left, ls, known)),
                    passing(right, test_of(to_right, rs, known)),
                    on,
                    nulls,
                ),
                test_of(above, joined(ls, rs), known),
            )
        }),
{
    let none = Seq::<ExprV>::empty();
    let to_left = optimizer::going_to(es, ls, rs, join_type, Side::Left, 0, none);
    let to_right = optimizer::going_to(es, ls, rs, join_type, Side::Right, 0, none);
    let above = optimizer::going_to(es, ls, rs, join_type, Side::Above, 0, none);
    let on = test_of(seq![condition], joined(ls, rs), known);
    let all = test_of(es, joined(ls, rs), known);
    let a = test_of(to_left, ls, known);
    let b = test_of(to_right, rs, known);
    let c = test_of(above, joined(ls, rs), known);
    assert(es.skip(0) =~= es);
    assert forall|i: int, j: int| 0 <= i < left.len() && 0 <= j < right.len() implies #[trigger] all(
        left[i] + right[j],
    ) == (a(left[i]) && b(right[j]) && c(left[i] + right[j])) by {
        predicates_are_shared(es, ls, rs, join_type, left[i], right[j], known, 0, none, none, none);
    }
    if let Some(n) = nulls {
        kept::outer_join_keeps_its_right_side(es, ls, rs, 0);
        assert(to_right == none);
        assert forall|i: int| 0 <= i < left.len() implies #[trigger] all(left[i] + n) == (a(left[i]) && c(
            left[i] + n,
        )) by {
            predicates_are_shared(es, ls, rs, join_type, left[i], n, known, 0, none, none, none);
        }
    }
    join_passes(left, right, on, nulls, all, a, b, c);
}

// ---------------------------------------------------------------- exchanged sides

/// Whether each column of a schema has a name that denotes no other.
pub open spec fn names_are_unique(s: SchemaV) -> bool {
    forall|k: int| 0 <= k < s.columns.len() ==> denotes_one(s.columns, (#[trigger] s.columns[k]).name, k)
}

/// A name that denotes one column of a join denotes it with the sides exchanged too.
proof fn exchanged_denotes(ls: SchemaV, rs: SchemaV, name: Seq<char>, k: int)
    requires
        denotes_one(joined(ls, rs).columns, name, k),
    ensures
        ({
            let n = ls.columns.len();
            let m = rs.columns.len();
            denotes_one(
                joined(rs, ls).columns,
                name,
                if k < n {
                    k + m
                } else {
                    k - n
                },
            )
        }),
{
    let a = joined(ls, rs).columns;
    let b = joined(rs, ls).columns;
    let n = ls.columns.len() as int;
    let m = rs.columns.len() as int;
    let at = if k < n {
        k + m
    } else {
        k - n
    };
    assert(b[at].name == a[k].name);
    assert forall|j: int| 0 <= j < b.len() && j != at implies !text::names_match(#[trigger] b[j].name, name) by {
        if j < m {
            assert(b[j].name == a[j + n].name);
        } else {
            assert(b[j].name == a[j - m].name);
        }
    }
}

/// Where the column at `k` of a join is with the sides exchanged.
spec fn exchanged_at(ls: SchemaV, rs: SchemaV, k: int) -> int {
    if k < ls.columns.len() {
        k + rs.columns.len()
    } else {
        k - ls.columns.len()
    }
}

/// A column of a join has the same value with the sides exchanged.
proof fn exchanged_value(ls: SchemaV, rs: SchemaV, l: Seq<ValueV>, r: Seq<ValueV>, name: Seq<char>, k: int)
    requires
        denotes_one(joined(ls, rs).columns, name, k),
        l.len() == ls.columns.len(),
        r.len() == rs.columns.len(),
        ls.columns.len() + rs.columns.len() <= usize::MAX,
    ensures
        expr::resolved(joined(ls, rs), name) == Ok::<usize, ErrorV>(k as usize),
        expr::resolved(joined(rs, ls), name) == Ok::<usize, ErrorV>(exchanged_at(ls, rs, k) as usize),
        eval::row_value(l + r, k) == Ok::<ValueV, ErrorV>((l + r)[k]),
        eval::row_value(r + l, exchanged_at(ls, rs, k)) == Ok::<ValueV, ErrorV>((l + r)[k]),
{
    exchanged_denotes(ls, rs, name, k);
    resolved_is_one(joined(ls, rs), name, k);
    resolved_is_one(joined(rs, ls), name, exchanged_at(ls, rs, k));
}

/// A join condition accepts two rows with the sides exchanged where it accepts them. It holds of
/// conditions whose sides can be exchanged and whose columns are unambiguous in the join.
pub proof fn exchanging_sides_keeps_matches(
    condition: ExprV,
    ls: SchemaV,
    rs: SchemaV,
    l: Seq<ValueV>,
    r: Seq<ValueV>,
    known: Seq<(QuestionV, AnswerV)>,
)
    requires
        kept::is_exchangeable(condition, l + r, joined(ls, rs), known),
        is_unambiguous(condition, joined(ls, rs)),
        l.len() == ls.columns.len(),
        r.len() == rs.columns.len(),
        ls.columns.len() + rs.columns.len() <= usize::MAX,
    ensures
        ranges::accepts(optimizer::swapped(condition), r + l, joined(rs, ls), known) == ranges::accepts(
            condition,
            l + r,
            joined(ls, rs),
            known,
        ),
{
    let a = joined(ls, rs);
    let b = joined(rs, ls);
    let names = expr::expr_columns(condition);
    assert(same_values(names, r + l, b, l + r, a)) by {
        assert forall|x: Seq<char>| #[trigger] names.contains(x) implies {
            &&& expr::resolved(b, x) is Ok
            &&& expr::resolved(a, x) is Ok
            &&& eval::row_value(r + l, expr::resolved(b, x)->Ok_0 as int) == eval::row_value(
                l + r,
                expr::resolved(a, x)->Ok_0 as int,
            )
        } by {
            let k = expr::resolved(a, x)->Ok_0 as int;
            resolved_is_one(a, x, k);
            exchanged_value(ls, rs, l, r, x, k);
        }
    }
    let swapped = optimizer::swapped(condition);
    assert forall|x: Seq<char>| #[trigger] expr::expr_columns(swapped).contains(x) implies names.contains(x) by {}
    assert(same_values(expr::expr_columns(swapped), r + l, b, l + r, a));
    value_follows_names(swapped, r + l, b, l + r, a, known);
    same_value_accepts(swapped, r + l, b, l + r, a, known);
    kept::swapped_condition_accepts_same_rows(condition, l + r, a, known);
}

/// An expression that has the same value on two rows accepts one where it accepts the other.
proof fn same_value_accepts(
    e: ExprV,
    row: Seq<ValueV>,
    s: SchemaV,
    other: Seq<ValueV>,
    t: SchemaV,
    known: Seq<(QuestionV, AnswerV)>,
)
    requires
        eval::evaluated(e, row, s, known) == eval::evaluated(e, other, t, known),
    ensures
        ranges::accepts(e, row, s, known) == ranges::accepts(e, other, t, known),
{
    reveal(ranges::accepts);
}

/// The projection above a join whose sides were exchanged gives its rows back, where the columns
/// of the join have unique names.
pub proof fn exchanging_sides_keeps_rows(
    ls: SchemaV,
    rs: SchemaV,
    l: Seq<ValueV>,
    r: Seq<ValueV>,
    known: Seq<(QuestionV, AnswerV)>,
)
    requires
        names_are_unique(joined(ls, rs)),
        l.len() == ls.columns.len(),
        r.len() == rs.columns.len(),
        ls.columns.len() + rs.columns.len() <= usize::MAX,
    ensures
        eval::evaluated_each(optimizer::column_refs(joined(ls, rs).columns), r + l, joined(rs, ls), known) == Seq::new(
            (l + r).len(),
            |i: int| Ok::<ValueV, ErrorV>((l + r)[i]),
        ),
{
    let a = joined(ls, rs);
    let b = joined(rs, ls);
    let refs = optimizer::column_refs(a.columns);
    let given = eval::evaluated_each(refs, r + l, b, known);
    assert forall|i: int| 0 <= i < refs.len() implies #[trigger] given[i] == Ok::<ValueV, ErrorV>((l + r)[i]) by {
        assert(denotes_one(a.columns, a.columns[i].name, i));
        exchanged_value(ls, rs, l, r, a.columns[i].name, i);
        assert(refs[i] == ExprV::Column(a.columns[i].name, None));
        assert(given[i] == eval::evaluated(refs[i], r + l, b, known));
    }
    assert(given =~= Seq::new((l + r).len(), |i: int| Ok::<ValueV, ErrorV>((l + r)[i])));
}

// ---------------------------------------------------------------- a join with its sides exchanged

/// Rows with each value as the outcome of an expression.
pub open spec fn given(rows: Seq<Seq<ValueV>>) -> Seq<Seq<Result<ValueV, ErrorV>>> {
    rows.map_values(|row: Seq<ValueV>| Seq::new(row.len(), |i: int| Ok::<ValueV, ErrorV>(row[i])))
}

/// What a projection makes of rows.
pub open spec fn projected(rows: Seq<Seq<ValueV>>, es: Seq<ExprV>, s: SchemaV, known: Seq<(QuestionV, AnswerV)>) -> Seq<
    Seq<Result<ValueV, ErrorV>>,
> {
    rows.map_values(|row: Seq<ValueV>| eval::evaluated_each(es, row, s, known))
}

/// A pair of rows, where it is accepted.
spec fn pair(l: Seq<ValueV>, r: Seq<ValueV>, on: spec_fn(Seq<ValueV>) -> bool) -> Seq<Seq<ValueV>> {
    if on(l + r) {
        seq![l + r]
    } else {
        Seq::empty()
    }
}

/// Whether two rows are accepted either way round, and the projection gives the same of them.
spec fn turns(
    l: Seq<ValueV>,
    r: Seq<ValueV>,
    on: spec_fn(Seq<ValueV>) -> bool,
    back: spec_fn(Seq<ValueV>) -> bool,
    es: Seq<ExprV>,
    s: SchemaV,
    known: Seq<(QuestionV, AnswerV)>,
) -> bool {
    &&& on(l + r) == back(r + l)
    &&& projected(seq![r + l], es, s, known) == given(seq![l + r])
}

proof fn given_of_both(a: Seq<Seq<ValueV>>, b: Seq<Seq<ValueV>>)
    ensures
        given(a + b).to_multiset() == given(a).to_multiset().add(given(b).to_multiset()),
{
    assert(given(a + b) =~= given(a) + given(b));
    vstd::seq_lib::lemma_multiset_commutative(given(a), given(b));
}

proof fn projected_of_both(
    a: Seq<Seq<ValueV>>,
    b: Seq<Seq<ValueV>>,
    es: Seq<ExprV>,
    s: SchemaV,
    known: Seq<(QuestionV, AnswerV)>,
)
    ensures
        projected(a + b, es, s, known).to_multiset() == projected(a, es, s, known).to_multiset().add(
            projected(b, es, s, known).to_multiset(),
        ),
{
    assert(projected(a + b, es, s, known) =~= projected(a, es, s, known) + projected(b, es, s, known));
    vstd::seq_lib::lemma_multiset_commutative(projected(a, es, s, known), projected(b, es, s, known));
}

/// Joining with no rows gives none.
proof fn join_with_none(right: Seq<Seq<ValueV>>, left: Seq<Seq<ValueV>>, on: spec_fn(Seq<ValueV>) -> bool)
    requires
        left.len() == 0,
    ensures
        join_rows(right, left, on, None) == Seq::<Seq<ValueV>>::empty(),
    decreases right.len(),
{
    if right.len() > 0 {
        join_with_none(right.drop_first(), left, on);
        assert(joins_of(right[0], left, on, None) =~= Seq::empty());
    }
}

/// The rows of a join that the first row of its right side is in, apart from the others.
proof fn first_comes_apart(
    left: Seq<Seq<ValueV>>,
    right: Seq<Seq<ValueV>>,
    on: spec_fn(Seq<ValueV>) -> bool,
    back: spec_fn(Seq<ValueV>) -> bool,
    es: Seq<ExprV>,
    s: SchemaV,
    known: Seq<(QuestionV, AnswerV)>,
)
    requires
        left.len() > 0,
        forall|j: int| 0 <= j < right.len() ==> turns(left[0], #[trigger] right[j], on, back, es, s, known),
    ensures
        projected(join_rows(right, left, back, None), es, s, known).to_multiset() == given(
            pairs(left[0], right, on),
        ).to_multiset().add(
            projected(join_rows(right, left.drop_first(), back, None), es, s, known).to_multiset(),
        ),
    decreases right.len(),
{
    let l = left[0];
    let rest = left.drop_first();
    if right.len() == 0 {
        let none = Seq::<Seq<ValueV>>::empty();
        given_of_both(none, none);
        assert(none + none =~= none);
        assert(given(none) =~= Seq::empty());
        assert(projected(none, es, s, known) =~= Seq::empty());
    } else {
        let r = right[0];
        let tail = right.drop_first();
        assert(turns(l, r, on, back, es, s, known));
        assert forall|j: int| 0 <= j < tail.len() implies turns(l, #[trigger] tail[j], on, back, es, s, known) by {
            assert(tail[j] == right[j + 1]);
        }
        first_comes_apart(left, tail, on, back, es, s, known);
        let one = pair(r, l, back);
        assert(pairs(r, left, back) =~= one + pairs(r, rest, back));
        assert(join_rows(right, left, back, None) =~= (one + pairs(r, rest, back)) + join_rows(tail, left, back, None));
        assert(join_rows(right, rest, back, None) =~= pairs(r, rest, back) + join_rows(tail, rest, back, None));
        assert(pairs(l, right, on) =~= pair(l, r, on) + pairs(l, tail, on));
        projected_of_both(one + pairs(r, rest, back), join_rows(tail, left, back, None), es, s, known);
        projected_of_both(one, pairs(r, rest, back), es, s, known);
        projected_of_both(pairs(r, rest, back), join_rows(tail, rest, back, None), es, s, known);
        given_of_both(pair(l, r, on), pairs(l, tail, on));
        assert(projected(one, es, s, known) =~= given(pair(l, r, on)));
        assert(projected(join_rows(right, left, back, None), es, s, known).to_multiset() =~= given(
            pairs(l, right, on),
        ).to_multiset().add(projected(join_rows(right, rest, back, None), es, s, known).to_multiset()));
    }
}

/// A join with its sides exchanged has the same rows, once a projection has brought the columns
/// back.
proof fn turned_join_has_same_rows(
    left: Seq<Seq<ValueV>>,
    right: Seq<Seq<ValueV>>,
    on: spec_fn(Seq<ValueV>) -> bool,
    back: spec_fn(Seq<ValueV>) -> bool,
    es: Seq<ExprV>,
    s: SchemaV,
    known: Seq<(QuestionV, AnswerV)>,
)
    requires
        forall|i: int, j: int|
            0 <= i < left.len() && 0 <= j < right.len() ==> turns(
                #[trigger] left[i],
                #[trigger] right[j],
                on,
                back,
                es,
                s,
                known,
            ),
    ensures
        projected(join_rows(right, left, back, None), es, s, known).to_multiset() == given(
            join_rows(left, right, on, None),
        ).to_multiset(),
    decreases left.len(),
{
    if left.len() == 0 {
        join_with_none(right, left, back);
        assert(projected(join_rows(right, left, back, None), es, s, known) =~= given(
            join_rows(left, right, on, None),
        ));
    } else {
        let rest = left.drop_first();
        assert forall|i: int, j: int| 0 <= i < rest.len() && 0 <= j < right.len() implies turns(
            #[trigger] rest[i],
            #[trigger] right[j],
            on,
            back,
            es,
            s,
            known,
        ) by {
            assert(rest[i] == left[i + 1]);
        }
        turned_join_has_same_rows(rest, right, on, back, es, s, known);
        assert forall|j: int| 0 <= j < right.len() implies turns(left[0], #[trigger] right[j], on, back, es, s, known) by {
            assert(left[0] == left[0]);
        }
        first_comes_apart(left, right, on, back, es, s, known);
        assert(join_rows(left, right, on, None) =~= pairs(left[0], right, on) + join_rows(rest, right, on, None));
        given_of_both(pairs(left[0], right, on), join_rows(rest, right, on, None));
    }
}

/// Exchanging the sides of an inner join keeps its rows, each as often as it was there: the
/// projection above the join with the sides exchanged gives the rows of the join, in another
/// order. It holds of conditions whose sides can be exchanged, and of sides whose columns have
/// unique names.
pub proof fn exchanging_a_join_keeps_rows(
    condition: ExprV,
    ls: SchemaV,
    rs: SchemaV,
    left: Seq<Seq<ValueV>>,
    right: Seq<Seq<ValueV>>,
    known: Seq<(QuestionV, AnswerV)>,
)
    requires
        forall|i: int, j: int|
            0 <= i < left.len() && 0 <= j < right.len() ==> kept::is_exchangeable(
                condition,
                #[trigger] left[i] + #[trigger] right[j],
                joined(ls, rs),
                known,
            ),
        is_unambiguous(condition, joined(ls, rs)),
        names_are_unique(joined(ls, rs)),
        rows_of_schema(left, ls),
        rows_of_schema(right, rs),
        ls.columns.len() + rs.columns.len() <= usize::MAX,
    ensures
        projected(
            join_rows(right, left, test_of(seq![optimizer::swapped(condition)], joined(rs, ls), known), None),
            optimizer::column_refs(joined(ls, rs).columns),
            joined(rs, ls),
            known,
        ).to_multiset() == given(
            join_rows(left, right, test_of(seq![condition], joined(ls, rs), known), None),
        ).to_multiset(),
{
    let on = test_of(seq![condition], joined(ls, rs), known);
    let back = test_of(seq![optimizer::swapped(condition)], joined(rs, ls), known);
    let es = optimizer::column_refs(joined(ls, rs).columns);
    assert forall|i: int, j: int| 0 <= i < left.len() && 0 <= j < right.len() implies turns(
        #[trigger] left[i],
        #[trigger] right[j],
        on,
        back,
        es,
        joined(rs, ls),
        known,
    ) by {
        let l = left[i];
        let r = right[j];
        exchanging_sides_keeps_matches(condition, ls, rs, l, r, known);
        exchanging_sides_keeps_rows(ls, rs, l, r, known);
        one_accepts(condition, l + r, joined(ls, rs), known);
        one_accepts(optimizer::swapped(condition), r + l, joined(rs, ls), known);
        assert(projected(seq![r + l], es, joined(rs, ls), known) =~= given(seq![l + r]));
    }
    turned_join_has_same_rows(left, right, on, back, es, joined(rs, ls), known);
}

/// A list of one predicate accepts what the predicate accepts.
proof fn one_accepts(e: ExprV, row: Seq<ValueV>, s: SchemaV, known: Seq<(QuestionV, AnswerV)>)
    ensures
        kept::all_accept(seq![e], row, s, known) == ranges::accepts(e, row, s, known),
{
    let es = seq![e];
    assert(es[0] == e);
    if kept::all_accept(es, row, s, known) {
        assert(ranges::accepts(es[0], row, s, known));
    }
}

} // verus!
