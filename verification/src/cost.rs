//! Statistics, and the estimated cost of reading a table.
//!
//! Costs are floats, given by their bits. Each step of a cost formula is answered from
//! outside (see the `facts` module); the formulas themselves, and the comparison of
//! costs, are here.

use crate::bounds;
use crate::expr::ColumnSet;
use crate::facts;
use crate::facts::{AnswerV, ErrorV, Facts, FloatOp, Question, QuestionV, SqlError};
use crate::logical::{PlanKey, PlanKeyV};
use crate::schema::{Schema, SchemaV};
use crate::text;
use crate::value;
use crate::value::Order;
use vstd::prelude::*;
use vstd::string::*;

verus! {

/// The statistics of an index.
#[derive(Debug)]
pub struct IndexStatistics {
    pub entry_count: u64,
    /// The average number of rows with one key, as the bits of a float.
    pub avg_rows_per_value: u64,
    /// The lengths of the posting lists of the most common tokens.
    pub posting_lens: Vec<(String, u64)>,
    /// A bound on the length of any other posting list.
    pub other_posting_len: u64,
}

/// The statistics of a table.
#[derive(Debug)]
pub struct TableStatistics {
    pub row_count: u64,
    /// The size in bytes of each locality group.
    pub group_sizes: Vec<(String, u64)>,
    pub index_stats: Vec<(String, IndexStatistics)>,
}

/// The first entry with a name, from position `i` on.
pub open spec fn named_from<T>(s: Seq<(String, T)>, name: Seq<char>, i: int) -> Option<T>
    decreases s.len() - i,
{
    if i >= s.len() {
        None
    } else if s[i].0@ == name {
        Some(s[i].1)
    } else {
        named_from(s, name, i + 1)
    }
}

/// The first entry with a name.
pub fn find_named<'a, T>(s: &'a Vec<(String, T)>, name: &str) -> (out: Option<&'a T>)
    ensures
        match out {
            Some(t) => named_from(s@, name@, 0) == Some(*t),
            None => named_from(s@, name@, 0) is None,
        },
{
    for i in 0..s.len()
        invariant
            named_from(s@, name@, 0) == named_from(s@, name@, i as int),
    {
        if text::same_text(s[i].0.as_str(), name) {
            return Some(&s[i].1);
        }
    }
    None
}

impl IndexStatistics {
    /// A bound on the number of rows with a token.
    pub open spec fn posting_bound(&self, token: Seq<char>) -> u64 {
        match named_from(self.posting_lens@, token, 0) {
            Some(n) => n,
            None => self.other_posting_len,
        }
    }

    /// A bound on the number of rows with a token.
    pub fn posting_len_upper_bound(&self, token: &str) -> (out: u64)
        ensures
            out == self.posting_bound(token@),
    {
        match find_named(&self.posting_lens, token) {
            Some(n) => *n,
            None => self.other_posting_len,
        }
    }
}

/// The number of rows assumed for a table without statistics. It only has to be large
/// enough for an exact match to look far cheaper than a full scan.
pub const DEFAULT_ROW_COUNT_ESTIMATE: u64 = 1_000_000;

/// The number of rows, or the assumed number where it is not known.
pub fn effective_row_count(row_count: u64) -> (out: u64)
    ensures
        out == rows_or_default(row_count),
{
    if row_count > 0 {
        row_count
    } else {
        DEFAULT_ROW_COUNT_ESTIMATE
    }
}

/// The number of rows, or the assumed number where it is not known.
pub open spec fn rows_or_default(row_count: u64) -> u64 {
    if row_count > 0 {
        row_count
    } else {
        DEFAULT_ROW_COUNT_ESTIMATE
    }
}

// ---------------------------------------------------------------- float steps

/// 0.1
pub const TENTH: u64 = 0x3FB9_9999_9999_999A;

/// 0.05
pub const TWENTIETH: u64 = 0x3FA9_9999_9999_999A;

/// 0.2
pub const FIFTH: u64 = 0x3FC9_9999_9999_999A;

/// 0.8
pub const FOUR_FIFTHS: u64 = 0x3FE9_9999_9999_999A;

/// 0.33
pub const THIRD: u64 = 0x3FD5_1EB8_51EB_851F;

/// 1.0
pub const ONE: u64 = 0x3FF0_0000_0000_0000;

/// 5.0
pub const FIVE: u64 = 0x4014_0000_0000_0000;

/// 10.0
pub const TEN: u64 = 0x4024_0000_0000_0000;

/// 16.0
pub const SIXTEEN: u64 = 0x4030_0000_0000_0000;

/// 50.0
pub const FIFTY: u64 = 0x4049_0000_0000_0000;

/// 100.0
pub const HUNDRED: u64 = 0x4059_0000_0000_0000;

/// 1000.0
pub const THOUSAND: u64 = 0x408F_4000_0000_0000;

/// The result of a float operation on two results.
pub open spec fn float_step(
    op: FloatOp,
    a: Result<u64, ErrorV>,
    b: Result<u64, ErrorV>,
    known: Seq<(QuestionV, AnswerV)>,
) -> Result<u64, ErrorV> {
    match a {
        Err(x) => Err(x),
        Ok(l) => match b {
            Err(x) => Err(x),
            Ok(r) => facts::float_fact(known, QuestionV::FloatArithmetic { op, left: l, right: r }),
        },
    }
}

/// The sum of two floats.
pub open spec fn plus(a: Result<u64, ErrorV>, b: Result<u64, ErrorV>, known: Seq<(QuestionV, AnswerV)>) -> Result<
    u64,
    ErrorV,
> {
    float_step(FloatOp::Add, a, b, known)
}

/// The product of two floats.
pub open spec fn times(a: Result<u64, ErrorV>, b: Result<u64, ErrorV>, known: Seq<(QuestionV, AnswerV)>) -> Result<
    u64,
    ErrorV,
> {
    float_step(FloatOp::Mul, a, b, known)
}

/// The quotient of two floats.
pub open spec fn over(a: Result<u64, ErrorV>, b: Result<u64, ErrorV>, known: Seq<(QuestionV, AnswerV)>) -> Result<
    u64,
    ErrorV,
> {
    float_step(FloatOp::Div, a, b, known)
}

/// The float of a natural number.
pub open spec fn float_of(n: u64, known: Seq<(QuestionV, AnswerV)>) -> Result<u64, ErrorV> {
    facts::float_fact(known, QuestionV::FloatOfNat(n))
}

/// The larger of a result and a float that is not NaN.
pub open spec fn at_least(a: Result<u64, ErrorV>, least: u64) -> Result<u64, ErrorV> {
    match a {
        Err(x) => Err(x),
        Ok(v) => if value::float_order(v, least) == Some(Order::Greater) {
            Ok(v)
        } else {
            Ok(least)
        },
    }
}

/// The sum of two floats.
fn add_floats(a: u64, b: u64, facts: &Facts) -> (out: Result<u64, SqlError>)
    ensures
        crate::eval::plain_result(out) == plus(Ok(a), Ok(b), facts@),
{
    facts.float(Question::FloatArithmetic { op: FloatOp::Add, left: a, right: b })
}

/// The product of two floats.
fn mul_floats(a: u64, b: u64, facts: &Facts) -> (out: Result<u64, SqlError>)
    ensures
        crate::eval::plain_result(out) == times(Ok(a), Ok(b), facts@),
{
    facts.float(Question::FloatArithmetic { op: FloatOp::Mul, left: a, right: b })
}

/// The quotient of two floats.
fn div_floats(a: u64, b: u64, facts: &Facts) -> (out: Result<u64, SqlError>)
    ensures
        crate::eval::plain_result(out) == over(Ok(a), Ok(b), facts@),
{
    facts.float(Question::FloatArithmetic { op: FloatOp::Div, left: a, right: b })
}

/// The float of a natural number.
fn nat_float(n: u64, facts: &Facts) -> (out: Result<u64, SqlError>)
    ensures
        crate::eval::plain_result(out) == float_of(n, facts@),
{
    facts.float(Question::FloatOfNat(n))
}

/// The larger of two floats.
fn max_float(v: u64, least: u64) -> (out: u64)
    ensures
        Ok::<u64, ErrorV>(out) == at_least(Ok(v), least),
{
    match value::compare_floats(v, least) {
        Some(Order::Greater) => v,
        _ => least,
    }
}

/// A number of rows times a float factor, rounded down.
pub open spec fn scaled(n: u64, factor: u64, known: Seq<(QuestionV, AnswerV)>) -> Result<u64, ErrorV> {
    match times(float_of(n, known), Ok(factor), known) {
        Err(x) => Err(x),
        Ok(f) => facts::count_fact(known, QuestionV::NatOfFloat(f)),
    }
}

/// A number of rows times a float factor, rounded down.
pub fn scale_rows(n: u64, factor: u64, facts: &Facts) -> (out: Result<u64, SqlError>)
    ensures
        crate::eval::plain_result(out) == scaled(n, factor, facts@),
{
    let f: u64 = nat_float(n, facts)?;
    let g: u64 = mul_floats(f, factor, facts)?;
    facts.count(Question::NatOfFloat(g))
}

/// Whether one cost is less than another.
pub open spec fn cheaper(a: u64, b: u64) -> bool {
    value::float_order(a, b) == Some(Order::Less)
}

/// Whether one cost is less than another.
pub fn is_cheaper(a: u64, b: u64) -> (out: bool)
    ensures
        out == cheaper(a, b),
{
    match value::compare_floats(a, b) {
        Some(Order::Less) => true,
        _ => false,
    }
}

// ---------------------------------------------------------------- locality groups

/// The name of the locality group of a column; the default group has an empty name.
pub open spec fn group_name(g: Option<Seq<char>>) -> Seq<char> {
    match g {
        Some(s) => s,
        None => Seq::empty(),
    }
}

/// Whether some name of a set denotes a column.
pub open spec fn any_matches(cols: Set<Seq<char>>, name: Seq<char>) -> bool {
    exists|q: Seq<char>| #[trigger] cols.contains(q) && text::names_match(name, q)
}

/// The locality groups, after those in `acc`, of the columns from position `i` on that a
/// query refers to, each once.
pub open spec fn groups_from(s: SchemaV, cols: Set<Seq<char>>, i: int, acc: Seq<Seq<char>>) -> Seq<Seq<char>>
    decreases s.columns.len() - i,
{
    if i >= s.columns.len() {
        acc
    } else {
        let g = group_name(s.columns[i].locality_group);
        if any_matches(cols, s.columns[i].name) && !acc.contains(g) {
            groups_from(s, cols, i + 1, acc.push(g))
        } else {
            groups_from(s, cols, i + 1, acc)
        }
    }
}

/// The locality groups a query has to read; the default group where it refers to no
/// column.
pub open spec fn needed_groups(s: SchemaV, cols: Set<Seq<char>>) -> Seq<Seq<char>> {
    let groups = groups_from(s, cols, 0, Seq::empty());
    if groups.len() == 0 {
        seq![Seq::empty()]
    } else {
        groups
    }
}

/// Whether some name of a set denotes a column.
fn any_name_matches(cols: &ColumnSet, name: &str) -> (out: bool)
    ensures
        out == any_matches(cols@, name@),
{
    let ghost v = text::views(cols.names@);
    for i in 0..cols.names.len()
        invariant
            v == text::views(cols.names@),
            forall|j: int| 0 <= j < i ==> !text::names_match(name@, #[trigger] v[j]),
    {
        if text::column_names_match(name, cols.names[i].as_str()) {
            assert(v[i as int] == cols.names@[i as int]@);
            assert(cols@.contains(v[i as int]));
            return true;
        }
    }
    assert forall|q: Seq<char>| #[trigger] cols@.contains(q) implies !text::names_match(name@, q) by {
        let j = choose|j: int| 0 <= j < v.len() && v[j] == q;
        assert(v[j] == q);
    }
    false
}

/// The locality groups a query has to read.
pub fn get_needed_locality_groups(s: &Schema, cols: &ColumnSet) -> (out: Vec<String>)
    ensures
        text::views(out@) == needed_groups(s@, cols@),
{
    let mut out: Vec<String> = Vec::new();
    assert(text::views(out@) =~= Seq::empty());
    for i in 0..s.columns.len()
        invariant
            groups_from(s@, cols@, 0, Seq::empty()) == groups_from(s@, cols@, i as int, text::views(out@)),
    {
        let g = match &s.columns[i].locality_group {
            Some(g) => g.clone(),
            None => String::new(),
        };
        assert(g@ =~= group_name(s@.columns[i as int].locality_group));
        if any_name_matches(cols, s.columns[i].name.as_str()) && !text::contains_text(&out, g.as_str()) {
            let ghost before = text::views(out@);
            out.push(g);
            assert(text::views(out@) =~= before.push(g@));
        }
    }
    if out.len() == 0 {
        out.push(String::new());
        assert(text::views(out@) =~= seq![Seq::<char>::empty()]);
    }
    out
}

// ---------------------------------------------------------------- costs

/// The bytes to read sequentially from the groups from position `i` on, added to `acc`.
pub open spec fn sequential_from(
    groups: Seq<Seq<char>>,
    t: TableStatistics,
    i: int,
    acc: Result<u64, ErrorV>,
    known: Seq<(QuestionV, AnswerV)>,
) -> Result<u64, ErrorV>
    decreases groups.len() - i,
{
    if i >= groups.len() {
        acc
    } else {
        let part = match named_from(t.group_sizes@, groups[i], 0) {
            Some(size) => times(float_of(size, known), Ok(ONE), known),
            None => Ok(THOUSAND),
        };
        sequential_from(groups, t, i + 1, plus(acc, part, known), known)
    }
}

/// The cost of fetching `n` rows at random from the groups from position `i` on, added to
/// `acc`.
pub open spec fn random_from(
    groups: Seq<Seq<char>>,
    t: TableStatistics,
    n: u64,
    i: int,
    acc: Result<u64, ErrorV>,
    known: Seq<(QuestionV, AnswerV)>,
) -> Result<u64, ErrorV>
    decreases groups.len() - i,
{
    if i >= groups.len() {
        acc
    } else {
        let factor = match named_from(t.group_sizes@, groups[i], 0) {
            Some(size) => times(
                Ok(TEN),
                at_least(over(float_of(size, known), float_of(at_least_one(t.row_count), known), known), TEN),
                known,
            ),
            None => Ok(HUNDRED),
        };
        random_from(groups, t, n, i + 1, plus(acc, times(Ok(n), factor, known), known), known)
    }
}

/// A count that is not zero.
pub open spec fn at_least_one(n: u64) -> u64 {
    if n == 0 {
        1
    } else {
        n
    }
}

/// The share of the keys that a range is taken to hold: all of them where it is unbounded
/// on both sides, a third on one side, and a twentieth otherwise; `point` where it is a
/// single key.
pub open spec fn selectivity(start: PlanKeyV, end: PlanKeyV, point: Result<u64, ErrorV>) -> Result<u64, ErrorV> {
    if bounds::same_plan_key(start, end) {
        point
    } else if bounds::plan_key_unbounded_min(start) && bounds::plan_key_unbounded_max(end) {
        Ok(ONE)
    } else if bounds::plan_key_unbounded_min(start) || bounds::plan_key_unbounded_max(end) {
        Ok(THIRD)
    } else {
        Ok(TWENTIETH)
    }
}

/// The number of rows the statistics give; zero without statistics.
pub open spec fn known_rows(t: Option<TableStatistics>) -> u64 {
    match t {
        Some(s) => s.row_count,
        None => 0,
    }
}

/// The share of the rows that one key of a primary key is taken to hold.
pub open spec fn point_share(rows: u64, known: Seq<(QuestionV, AnswerV)>) -> Result<u64, ErrorV> {
    over(Ok(ONE), float_of(rows_or_default(rows), known), known)
}

/// The cost of a full scan: the bytes of the groups it reads, and a tenth for each row it
/// looks at; a fixed cost without statistics.
pub open spec fn full_scan_cost(
    s: SchemaV,
    t: Option<TableStatistics>,
    cols: Set<Seq<char>>,
    known: Seq<(QuestionV, AnswerV)>,
) -> Result<u64, ErrorV> {
    match t {
        Some(st) => plus(
            sequential_from(needed_groups(s, cols), st, 0, Ok(0), known),
            times(float_of(st.row_count, known), Ok(TENTH), known),
            known,
        ),
        None => Ok(THOUSAND),
    }
}

/// The cost of a scan: that of a full scan, times the share of its range.
pub open spec fn scan_cost(
    s: SchemaV,
    t: Option<TableStatistics>,
    range: Option<(PlanKeyV, PlanKeyV)>,
    cols: Set<Seq<char>>,
    known: Seq<(QuestionV, AnswerV)>,
) -> Result<u64, ErrorV> {
    let base = full_scan_cost(s, t, cols, known);
    match range {
        None => base,
        Some((start, end)) => times(base, selectivity(start, end, point_share(known_rows(t), known)), known),
    }
}

/// The share of the rows that one key of an index is taken to hold.
pub open spec fn index_point_share(
    index: Option<IndexStatistics>,
    rows: u64,
    known: Seq<(QuestionV, AnswerV)>,
) -> Result<u64, ErrorV> {
    match index {
        Some(i) => over(Ok(i.avg_rows_per_value), float_of(rows_or_default(rows), known), known),
        None => point_share(rows, known),
    }
}

/// The statistics of an index.
pub open spec fn index_statistics(t: Option<TableStatistics>, index: Seq<char>) -> Option<IndexStatistics> {
    match t {
        Some(st) => named_from(st.index_stats@, index, 0),
        None => None,
    }
}

/// The cost of an index scan that reads `share` of the entries and fetches `n` rows: the
/// entries, the rows at random, and a tenth for each row it looks at.
pub open spec fn fetch_cost(
    groups: Seq<Seq<char>>,
    t: Option<TableStatistics>,
    entries: u64,
    share: u64,
    n: u64,
    known: Seq<(QuestionV, AnswerV)>,
) -> Result<u64, ErrorV> {
    let index_io = at_least(
        times(
            times(times(float_of(entries, known), Ok(SIXTEEN), known), Ok(share), known),
            Ok(ONE),
            known,
        ),
        TEN,
    );
    let table_io = match t {
        Some(st) => random_from(groups, st, n, 0, Ok(0), known),
        None => plus(Ok(0), times(Ok(n), Ok(FIFTY), known), known),
    };
    plus(plus(index_io, table_io, known), times(Ok(n), Ok(TENTH), known), known)
}

/// The cost of an index scan over a range.
pub open spec fn index_scan_cost(
    index: Seq<char>,
    s: SchemaV,
    t: Option<TableStatistics>,
    start: PlanKeyV,
    end: PlanKeyV,
    cols: Set<Seq<char>>,
    known: Seq<(QuestionV, AnswerV)>,
) -> Result<u64, ErrorV> {
    let rows = known_rows(t);
    let stats = index_statistics(t, index);
    let entries = match stats {
        Some(i) => i.entry_count,
        None => rows,
    };
    match selectivity(start, end, index_point_share(stats, rows, known)) {
        Err(x) => Err(x),
        Ok(share) => match times(Ok(share), float_of(rows, known), known) {
            Err(x) => Err(x),
            Ok(n) => fetch_cost(needed_groups(s, cols), t, entries, share, n, known),
        },
    }
}

/// The smallest posting list of the tokens from position `i` on, or `least`.
pub open spec fn rarest_from(tokens: Seq<Seq<char>>, index: IndexStatistics, i: int, least: u64) -> u64
    decreases tokens.len() - i,
{
    if i >= tokens.len() {
        least
    } else {
        let n = index.posting_bound(tokens[i]);
        rarest_from(
            tokens,
            index,
            i + 1,
            if n < least {
                n
            } else {
                least
            },
        )
    }
}

/// The posting lists of the tokens from position `i` on, added to `acc` up to the largest
/// number there is.
pub open spec fn postings_from(tokens: Seq<Seq<char>>, index: IndexStatistics, i: int, acc: u64) -> u64
    decreases tokens.len() - i,
{
    if i >= tokens.len() {
        acc
    } else {
        let n = index.posting_bound(tokens[i]);
        postings_from(
            tokens,
            index,
            i + 1,
            if acc + n > u64::MAX {
                u64::MAX
            } else {
                (acc + n) as u64
            },
        )
    }
}

/// The cost of intersecting the posting lists of some tokens: the postings, the rows of
/// the rarest token at random, and a tenth for each of those rows.
pub open spec fn token_cost(
    tokens: Seq<Seq<char>>,
    s: SchemaV,
    t: TableStatistics,
    index: IndexStatistics,
    cols: Set<Seq<char>>,
    known: Seq<(QuestionV, AnswerV)>,
) -> Result<u64, ErrorV> {
    let postings = postings_from(tokens, index, 0, 0);
    let index_io = at_least(times(float_of(postings, known), Ok(SIXTEEN), known), TEN);
    match float_of(rarest_from(tokens, index, 0, u64::MAX), known) {
        Err(x) => Err(x),
        Ok(n) => plus(
            plus(index_io, random_from(needed_groups(s, cols), t, n, 0, Ok(0), known), known),
            times(Ok(n), Ok(TENTH), known),
            known,
        ),
    }
}

/// The bytes to read sequentially from some groups.
fn sequential_io(groups: &Vec<String>, t: &TableStatistics, facts: &Facts) -> (out: Result<u64, SqlError>)
    ensures
        crate::eval::plain_result(out) == sequential_from(text::views(groups@), *t, 0, Ok(0), facts@),
{
    let mut acc: u64 = 0;
    let ghost gs = text::views(groups@);
    for i in 0..groups.len()
        invariant
            gs == text::views(groups@),
            sequential_from(gs, *t, 0, Ok(0), facts@) == sequential_from(gs, *t, i as int, Ok(acc), facts@),
    {
        let part: Result<u64, SqlError> = match find_named(&t.group_sizes, groups[i].as_str()) {
            Some(size) => match nat_float(*size, facts) {
                Ok(f) => mul_floats(f, ONE, facts),
                Err(x) => Err(x),
            },
            None => Ok(THOUSAND),
        };
        match part {
            Err(x) => {
                proof {
                    lemma_sequential_error(gs, *t, i + 1, x@, facts@);
                }
                return Err(x);
            },
            Ok(p) => match add_floats(acc, p, facts) {
                Err(x) => {
                    proof {
                        lemma_sequential_error(gs, *t, i + 1, x@, facts@);
                    }
                    return Err(x);
                },
                Ok(a) => {
                    acc = a;
                },
            },
        }
    }
    Ok(acc)
}

/// An open question stays open to the end of the sum.
proof fn lemma_sequential_error(
    groups: Seq<Seq<char>>,
    t: TableStatistics,
    i: int,
    x: ErrorV,
    known: Seq<(QuestionV, AnswerV)>,
)
    ensures
        sequential_from(groups, t, i, Err(x), known) == Err::<u64, ErrorV>(x),
    decreases groups.len() - i,
{
    if i < groups.len() {
        lemma_sequential_error(groups, t, i + 1, x, known);
    }
}

/// The cost of fetching rows at random from some groups.
fn random_io(groups: &Vec<String>, t: &TableStatistics, n: u64, facts: &Facts) -> (out: Result<u64, SqlError>)
    ensures
        crate::eval::plain_result(out) == random_from(text::views(groups@), *t, n, 0, Ok(0), facts@),
{
    let mut acc: u64 = 0;
    let ghost gs = text::views(groups@);
    for i in 0..groups.len()
        invariant
            gs == text::views(groups@),
            random_from(gs, *t, n, 0, Ok(0), facts@) == random_from(gs, *t, n, i as int, Ok(acc), facts@),
    {
        let part: Result<u64, SqlError> = match random_factor(groups[i].as_str(), t, facts) {
            Ok(f) => mul_floats(n, f, facts),
            Err(x) => Err(x),
        };
        match part {
            Err(x) => {
                proof {
                    lemma_random_error(gs, *t, n, i + 1, x@, facts@);
                }
                return Err(x);
            },
            Ok(p) => match add_floats(acc, p, facts) {
                Err(x) => {
                    proof {
                        lemma_random_error(gs, *t, n, i + 1, x@, facts@);
                    }
                    return Err(x);
                },
                Ok(a) => {
                    acc = a;
                },
            },
        }
    }
    Ok(acc)
}

/// The cost of fetching one row at random from a group.
fn random_factor(group: &str, t: &TableStatistics, facts: &Facts) -> (out: Result<u64, SqlError>)
    ensures
        crate::eval::plain_result(out) == (match named_from(t.group_sizes@, group@, 0) {
            Some(size) => times(
                Ok(TEN),
                at_least(
                    over(float_of(size, facts@), float_of(at_least_one(t.row_count), facts@), facts@),
                    TEN,
                ),
                facts@,
            ),
            None => Ok(HUNDRED),
        }),
{
    match find_named(&t.group_sizes, group) {
        Some(size) => {
            let bytes: u64 = nat_float(*size, facts)?;
            let rows: u64 = if t.row_count == 0 {
                1
            } else {
                t.row_count
            };
            let r: u64 = nat_float(rows, facts)?;
            let q: u64 = div_floats(bytes, r, facts)?;
            mul_floats(TEN, max_float(q, TEN), facts)
        },
        None => Ok(HUNDRED),
    }
}

/// An open question stays open to the end of the sum.
proof fn lemma_random_error(
    groups: Seq<Seq<char>>,
    t: TableStatistics,
    n: u64,
    i: int,
    x: ErrorV,
    known: Seq<(QuestionV, AnswerV)>,
)
    ensures
        random_from(groups, t, n, i, Err(x), known) == Err::<u64, ErrorV>(x),
    decreases groups.len() - i,
{
    if i < groups.len() {
        lemma_random_error(groups, t, n, i + 1, x, known);
    }
}

/// The view of optional statistics.
pub open spec fn deref_stats(t: Option<&TableStatistics>) -> Option<TableStatistics> {
    match t {
        Some(s) => Some(*s),
        None => None,
    }
}

/// The number of rows the statistics give.
fn rows_of(t: Option<&TableStatistics>) -> (out: u64)
    ensures
        out == known_rows(deref_stats(t)),
{
    match t {
        Some(s) => s.row_count,
        None => 0,
    }
}

/// The share of the keys that a range that is not a single key is taken to hold.
fn range_share(start: &PlanKey, end: &PlanKey) -> (out: u64)
    requires
        !bounds::same_plan_key(start@, end@),
    ensures
        forall|p: Result<u64, ErrorV>| #[trigger] selectivity(start@, end@, p) == Ok::<u64, ErrorV>(out),
{
    let from_start = bounds::is_plan_key_unbounded_min(start);
    let to_end = bounds::is_plan_key_unbounded_max(end);
    if from_start && to_end {
        ONE
    } else if from_start || to_end {
        THIRD
    } else {
        TWENTIETH
    }
}

/// The share of the rows that one key of a primary key is taken to hold.
fn key_share(rows: u64, facts: &Facts) -> (out: Result<u64, SqlError>)
    ensures
        crate::eval::plain_result(out) == point_share(rows, facts@),
{
    let r: u64 = nat_float(effective_row_count(rows), facts)?;
    div_floats(ONE, r, facts)
}

/// The cost of a scan.
pub fn estimate_scan_cost(
    s: &Schema,
    t: Option<&TableStatistics>,
    range: &Option<(PlanKey, PlanKey)>,
    cols: &ColumnSet,
    facts: &Facts,
) -> (out: Result<u64, SqlError>)
    ensures
        crate::eval::plain_result(out) == scan_cost(
            s@,
            deref_stats(t),
            crate::logical::range_view(*range),
            cols@,
            facts@,
        ),
{
    let base: u64 = match t {
        Some(st) => {
            let groups = get_needed_locality_groups(s, cols);
            let bytes: u64 = sequential_io(&groups, st, facts)?;
            let rows: u64 = nat_float(st.row_count, facts)?;
            let cpu: u64 = mul_floats(rows, TENTH, facts)?;
            add_floats(bytes, cpu, facts)?
        },
        None => THOUSAND,
    };
    match range {
        None => Ok(base),
        Some((start, end)) => {
            let share: u64 = if start.same(end) {
                key_share(rows_of(t), facts)?
            } else {
                let share: u64 = range_share(start, end);
                assert(selectivity(start@, end@, point_share(known_rows(deref_stats(t)), facts@)) == Ok::<
                    u64,
                    ErrorV,
                >(share));
                share
            };
            mul_floats(base, share, facts)
        },
    }
}

/// The cost of an index scan over a range.
pub fn estimate_index_scan_cost(
    index: &str,
    s: &Schema,
    t: Option<&TableStatistics>,
    start: &PlanKey,
    end: &PlanKey,
    cols: &ColumnSet,
    facts: &Facts,
) -> (out: Result<u64, SqlError>)
    ensures
        crate::eval::plain_result(out) == index_scan_cost(
            index@,
            s@,
            deref_stats(t),
            start@,
            end@,
            cols@,
            facts@,
        ),
{
    let rows: u64 = rows_of(t);
    let stats: Option<&IndexStatistics> = match t {
        Some(st) => find_named(&st.index_stats, index),
        None => None,
    };
    let entries: u64 = match stats {
        Some(i) => i.entry_count,
        None => rows,
    };
    let ghost gi = index_statistics(deref_stats(t), index@);
    let share: u64 = if start.same(end) {
        match stats {
            Some(i) => {
                let r: u64 = nat_float(effective_row_count(rows), facts)?;
                div_floats(i.avg_rows_per_value, r, facts)?
            },
            None => key_share(rows, facts)?,
        }
    } else {
        let share: u64 = range_share(start, end);
        assert(selectivity(start@, end@, index_point_share(gi, rows, facts@)) == Ok::<u64, ErrorV>(share));
        share
    };
    let r: u64 = nat_float(rows, facts)?;
    let n: u64 = mul_floats(share, r, facts)?;
    let groups = get_needed_locality_groups(s, cols);
    fetch_io(&groups, t, entries, share, n, facts)
}

/// The cost of an index scan that reads `share` of the entries and fetches `n` rows.
fn fetch_io(
    groups: &Vec<String>,
    t: Option<&TableStatistics>,
    entries: u64,
    share: u64,
    n: u64,
    facts: &Facts,
) -> (out: Result<u64, SqlError>)
    ensures
        crate::eval::plain_result(out) == fetch_cost(
            text::views(groups@),
            deref_stats(t),
            entries,
            share,
            n,
            facts@,
        ),
{
    let e: u64 = nat_float(entries, facts)?;
    let a: u64 = mul_floats(e, SIXTEEN, facts)?;
    let b: u64 = mul_floats(a, share, facts)?;
    let c: u64 = mul_floats(b, ONE, facts)?;
    let index_io: u64 = max_float(c, TEN);
    let table_io: u64 = match t {
        Some(st) => random_io(groups, st, n, facts)?,
        None => {
            let m: u64 = mul_floats(n, FIFTY, facts)?;
            add_floats(0, m, facts)?
        },
    };
    let io: u64 = add_floats(index_io, table_io, facts)?;
    let cpu: u64 = mul_floats(n, TENTH, facts)?;
    add_floats(io, cpu, facts)
}

/// The cost of intersecting the posting lists of some tokens.
pub fn estimate_token_cost(
    tokens: &Vec<String>,
    s: &Schema,
    t: &TableStatistics,
    index: &IndexStatistics,
    cols: &ColumnSet,
    facts: &Facts,
) -> (out: Result<u64, SqlError>)
    ensures
        crate::eval::plain_result(out) == token_cost(text::views(tokens@), s@, *t, *index, cols@, facts@),
{
    let ghost ts = text::views(tokens@);
    let mut least: u64 = u64::MAX;
    let mut sum: u64 = 0;
    for i in 0..tokens.len()
        invariant
            ts == text::views(tokens@),
            rarest_from(ts, *index, 0, u64::MAX) == rarest_from(ts, *index, i as int, least),
            postings_from(ts, *index, 0, 0) == postings_from(ts, *index, i as int, sum),
    {
        let n: u64 = index.posting_len_upper_bound(tokens[i].as_str());
        if n < least {
            least = n;
        }
        sum = if n > u64::MAX - sum {
            u64::MAX
        } else {
            sum + n
        };
    }
    let n: u64 = nat_float(least, facts)?;
    let p: u64 = nat_float(sum, facts)?;
    let a: u64 = mul_floats(p, SIXTEEN, facts)?;
    let index_io: u64 = max_float(a, TEN);
    let groups = get_needed_locality_groups(s, cols);
    let table_io: u64 = random_io(&groups, t, n, facts)?;
    let io: u64 = add_floats(index_io, table_io, facts)?;
    let cpu: u64 = mul_floats(n, TENTH, facts)?;
    add_floats(io, cpu, facts)
}

} // verus!
