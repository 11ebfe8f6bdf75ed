//! What aggregate functions give of the rows of a group, and that a planned call computes what its
//! name says.

use crate::eval;
use crate::expr::ExprV;
use crate::facts::{AnswerV, ErrorV, FloatOp, QuestionV};
use crate::grouping;
use crate::grouping::RewritingV;
use crate::logical::AggregateV;
use crate::relation;
use crate::relation::{Kind, Measure};
use crate::scalar;
use crate::schema::SchemaV;
use crate::syntax::{FunctionArgumentsV, SqlNodeV};
use crate::text;
use crate::value::{Order, ValueV};
use vstd::prelude::*;
use vstd::string::*;

verus! {

/// The values that an aggregate function takes of rows: the inputs that are no errors and not null.
pub open spec fn taken(f: spec_fn(Seq<ValueV>) -> Result<ValueV, ErrorV>, rows: Seq<Seq<ValueV>>) -> Seq<ValueV>
    decreases rows.len(),
{
    if rows.len() == 0 {
        Seq::empty()
    } else {
        match f(rows.last()) {
            Ok(v) => if v is Null {
                taken(f, rows.drop_last())
            } else {
                taken(f, rows.drop_last()).push(v)
            },
            Err(_) => taken(f, rows.drop_last()),
        }
    }
}

/// The first of each value.
pub open spec fn once(vs: Seq<ValueV>) -> Seq<ValueV>
    decreases vs.len(),
{
    if vs.len() == 0 {
        Seq::empty()
    } else if vs.drop_last().contains(vs.last()) {
        once(vs.drop_last())
    } else {
        once(vs.drop_last()).push(vs.last())
    }
}

/// Values, equal ones once where that is asked for.
pub open spec fn counted(vs: Seq<ValueV>, distinct: bool) -> Seq<ValueV> {
    if distinct {
        once(vs)
    } else {
        vs
    }
}

/// The values that an aggregate function is of.
pub open spec fn values_of(m: Measure, rows: Seq<Seq<ValueV>>) -> Seq<ValueV> {
    counted(taken(m.input, rows), m.distinct)
}

/// The sum of values, from the first on.
pub open spec fn total(vs: Seq<ValueV>, known: Seq<(QuestionV, AnswerV)>) -> Result<ValueV, ErrorV>
    decreases vs.len(),
{
    if vs.len() <= 1 {
        Ok(vs[0])
    } else {
        match total(vs.drop_last(), known) {
            Ok(v) => eval::arithmetic(FloatOp::Add, v, vs.last(), known),
            Err(x) => Err(x),
        }
    }
}

/// Whether a value is what an aggregate function gives of rows. Without a value, all but a count
/// are null.
pub open spec fn is_result(m: Measure, rows: Seq<Seq<ValueV>>, known: Seq<(QuestionV, AnswerV)>, v: ValueV) -> bool {
    let vs = values_of(m, rows);
    match m.kind {
        Kind::Count => v matches ValueV::Int(n) && n == vs.len(),
        _ => if vs.len() == 0 {
            v is Null
        } else {
            match m.kind {
                Kind::Sum => total(vs, known) == Ok::<ValueV, ErrorV>(v),
                Kind::Min => vs.contains(v) && forall|i: int|
                    0 <= i < vs.len() ==> eval::comparison(#[trigger] vs[i], v, known) != Ok::<Order, ErrorV>(Order::Less),
                Kind::Max => vs.contains(v) && forall|i: int|
                    0 <= i < vs.len() ==> eval::comparison(#[trigger] vs[i], v, known) != Ok::<Order, ErrorV>(
                        Order::Greater,
                    ),
                _ => match total(vs, known) {
                    Ok(t) => match (eval::cast_float(t, known), eval::cast_float(ValueV::Int(vs.len() as i64), known)) {
                        (Ok(a), Ok(b)) => eval::arithmetic(FloatOp::Div, a, b, known) == Ok::<ValueV, ErrorV>(v),
                        _ => false,
                    },
                    Err(_) => false,
                },
            }
        },
    }
}

/// The measure of rows that an aggregate function is.
pub open spec fn measure(a: AggregateV, s: SchemaV, ps: Map<Seq<char>, ValueV>, known: Seq<(QuestionV, AnswerV)>) -> Measure {
    relation::measures(seq![a], s, ps, known)[0]
}

/// The values of an expression on the rows of a group, without nulls and errors.
pub open spec fn group_values(
    e: ExprV,
    rows: Seq<Seq<ValueV>>,
    s: SchemaV,
    ps: Map<Seq<char>, ValueV>,
    known: Seq<(QuestionV, AnswerV)>,
) -> Seq<ValueV> {
    taken(relation::input(e, s, ps, known), rows)
}

/// The exact sum of integers.
pub open spec fn int_sum(vs: Seq<ValueV>) -> int
    decreases vs.len(),
{
    if vs.len() == 0 {
        0
    } else {
        int_sum(vs.drop_last()) + vs.last()->Int_0
    }
}

proof fn aggregate_names_differ()
    ensures
        "COUNT"@ != "SUM"@,
        "COUNT"@ != "MIN"@,
        "COUNT"@ != "MAX"@,
        "COUNT"@ != "AVG"@,
        "SUM"@ != "MIN"@,
        "SUM"@ != "MAX"@,
        "SUM"@ != "AVG"@,
        "MIN"@ != "MAX"@,
        "MIN"@ != "AVG"@,
        "MAX"@ != "AVG"@,
{
    reveal_strlit("COUNT");
    reveal_strlit("SUM");
    reveal_strlit("MIN");
    reveal_strlit("MAX");
    reveal_strlit("AVG");
    assert("COUNT"@.len() == 5 && "SUM"@.len() == 3 && "MIN"@.len() == 3 && "MAX"@.len() == 3 && "AVG"@.len() == 3);
    assert("SUM"@[0] == 'S' && "MIN"@[0] == 'M' && "MAX"@[0] == 'M' && "AVG"@[0] == 'A');
    assert("MIN"@[1] == 'I' && "MAX"@[1] == 'A');
}

/// Values without repetition are values, and each is there.
proof fn once_keeps_each(vs: Seq<ValueV>, v: ValueV)
    ensures
        once(vs).contains(v) == vs.contains(v),
        (once(vs).len() == 0) == (vs.len() == 0),
        once(vs).no_duplicates(),
    decreases vs.len(),
{
    if vs.len() > 0 {
        let shorter = vs.drop_last();
        let last = vs.last();
        once_keeps_each(shorter, v);
        once_keeps_each(shorter, last);
        assert(vs =~= shorter.push(last));
        assert(vs.contains(v) == (shorter.contains(v) || v == last)) by {
            if shorter.contains(v) {
                let k = choose|k: int| 0 <= k < shorter.len() && shorter[k] == v;
                assert(vs[k] == v);
            }
            assert(vs[vs.len() - 1] == last);
            if vs.contains(v) {
                let k = choose|k: int| 0 <= k < vs.len() && vs[k] == v;
                if k < shorter.len() {
                    assert(shorter[k] == v);
                }
            }
        }
        if shorter.contains(last) {
            let k = choose|k: int| 0 <= k < shorter.len() && shorter[k] == last;
            assert(shorter.len() > 0);
        } else {
            let s = once(shorter);
            let t = s.push(last);
            assert(t.contains(v) == (s.contains(v) || v == last)) by {
                if s.contains(v) {
                    let k = choose|k: int| 0 <= k < s.len() && s[k] == v;
                    assert(t[k] == v);
                }
                assert(t[s.len() as int] == last);
                if t.contains(v) {
                    let k = choose|k: int| 0 <= k < t.len() && t[k] == v;
                    if k < s.len() {
                        assert(s[k] == v);
                    }
                }
            }
            assert forall|i: int, j: int| 0 <= i < t.len() && 0 <= j < t.len() && i != j implies t[i] != t[j] by {
                if i == s.len() {
                    assert(s.contains(s[j]));
                } else if j == s.len() {
                    assert(s.contains(s[i]));
                }
            }
        }
    }
}

proof fn ints_add_up(vs: Seq<ValueV>, known: Seq<(QuestionV, AnswerV)>)
    requires
        vs.len() > 0,
        forall|i: int| 0 <= i < vs.len() ==> (#[trigger] vs[i]) is Int,
    ensures
        total(vs, known) matches Ok(v) ==> v is Int && v->Int_0 == int_sum(vs),
    decreases vs.len(),
{
    let shorter = vs.drop_last();
    if vs.len() > 1 {
        assert forall|i: int| 0 <= i < shorter.len() implies (#[trigger] shorter[i]) is Int by {
            assert(shorter[i] == vs[i]);
        }
        ints_add_up(shorter, known);
    } else {
        assert(shorter.len() == 0);
        assert(int_sum(shorter) == 0);
    }
    assert(vs.last() is Int);
}

/// The aggregate function of a call computes what its name says of the rows of a group. MAX gives
/// one of the values, and none is greater; MIN one of them, and none is less; COUNT their number;
/// SUM of integers their sum; AVG that sum divided by their number. With DISTINCT, equal values
/// count once. Without a value all but COUNT give NULL.
pub proof fn aggregates_compute_what_they_are_named(
    name: Seq<char>,
    e: ExprV,
    distinct: bool,
    rows: Seq<Seq<ValueV>>,
    s: SchemaV,
    ps: Map<Seq<char>, ValueV>,
    known: Seq<(QuestionV, AnswerV)>,
    v: ValueV,
)
    requires
        scalar::is_aggregate(name),
        is_result(measure(grouping::aggregate_named(name, e, distinct), s, ps, known), rows, known, v),
    ensures
        ({
            let vs = group_values(e, rows, s, ps, known);
            let each = counted(vs, distinct);
            &&& name == "COUNT"@ ==> v is Int && v->Int_0 == each.len()
            &&& name != "COUNT"@ && vs.len() == 0 ==> v is Null
            &&& name == "MAX"@ && vs.len() > 0 ==> vs.contains(v) && forall|i: int|
                0 <= i < vs.len() ==> eval::comparison(#[trigger] vs[i], v, known) != Ok::<Order, ErrorV>(Order::Greater)
            &&& name == "MIN"@ && vs.len() > 0 ==> vs.contains(v) && forall|i: int|
                0 <= i < vs.len() ==> eval::comparison(#[trigger] vs[i], v, known) != Ok::<Order, ErrorV>(Order::Less)
            &&& name == "SUM"@ && vs.len() > 0 ==> total(each, known) == Ok::<ValueV, ErrorV>(v)
            &&& name == "SUM"@ && vs.len() > 0 && (forall|i: int| 0 <= i < each.len() ==> (#[trigger] each[i]) is Int)
                ==> v is Int && v->Int_0 == int_sum(each)
            &&& name == "AVG"@ && vs.len() > 0 ==> total(each, known) is Ok && eval::cast_float(
                ValueV::Int(each.len() as i64),
                known,
            ) is Ok && eval::cast_float(total(each, known)->Ok_0, known) is Ok && eval::arithmetic(
                FloatOp::Div,
                eval::cast_float(total(each, known)->Ok_0, known)->Ok_0,
                eval::cast_float(ValueV::Int(each.len() as i64), known)->Ok_0,
                known,
            ) == Ok::<ValueV, ErrorV>(v)
        }),
{
    aggregate_names_differ();
    let vs = group_values(e, rows, s, ps, known);
    let each = counted(vs, distinct);
    let m = measure(grouping::aggregate_named(name, e, distinct), s, ps, known);
    assert(m.distinct == distinct);
    assert(m.input == relation::input(e, s, ps, known));
    assert(values_of(m, rows) == each);
    once_keeps_each(vs, v);
    if (name == "MAX"@ || name == "MIN"@) && vs.len() > 0 {
        let bad = if name == "MAX"@ {
            Order::Greater
        } else {
            Order::Less
        };
        assert forall|i: int| 0 <= i < vs.len() implies eval::comparison(#[trigger] vs[i], v, known) != Ok::<Order, ErrorV>(
            bad,
        ) by {
            once_keeps_each(vs, vs[i]);
            assert(vs.contains(vs[i]));
            let j = choose|j: int| 0 <= j < each.len() && each[j] == vs[i];
            assert(eval::comparison(each[j], v, known) != Ok::<Order, ErrorV>(bad));
        }
    }
    if name == "SUM"@ && vs.len() > 0 && (forall|i: int| 0 <= i < each.len() ==> (#[trigger] each[i]) is Int) {
        ints_add_up(each, known);
    }
}

/// A call of an aggregate function in a SELECT list or a HAVING clause adds the function of its
/// name and argument to the aggregation, unless an equal one is there, and leaves a reference to
/// its column in its place.
pub proof fn calls_add_the_aggregate_of_their_name(
    st: RewritingV,
    at: int,
    name: Seq<char>,
    call: Seq<char>,
    args: FunctionArgumentsV,
    known: Seq<(QuestionV, AnswerV)>,
)
    requires
        0 <= at < st.nodes.len(),
        st.nodes[at] == (SqlNodeV::Function { name, text: call, args }),
        scalar::is_aggregate(text::uppercased(name)),
    ensures
        grouping::rewritten(st, at, known) matches Ok(next) ==> {
            &&& grouping::aggregate_argument(st.nodes, args, text::uppercased(name), at, known) is Ok
            &&& ({
                let x = grouping::aggregate_argument(st.nodes, args, text::uppercased(name), at, known)->Ok_0;
                let a = grouping::aggregate_named(text::uppercased(name), x.0, x.1);
                &&& next.aggrs == st.aggrs.push(a) && next.names == st.names.push(call) || next.aggrs == st.aggrs
                    && next.names == st.names && exists|i: int|
                    0 <= i < st.aggrs.len() && relation::kind(#[trigger] st.aggrs[i]) == relation::kind(a)
                        && relation::counts_once(st.aggrs[i]) == relation::counts_once(a) && grouping::same_expr(
                        relation::argument(st.aggrs[i]),
                        relation::argument(a),
                    )
                &&& next.nodes == st.nodes.update(at, SqlNodeV::Identifier { value: call, quote: None })
            })
        },
{
    if grouping::rewritten(st, at, known) is Ok {
        let x = grouping::aggregate_argument(st.nodes, args, text::uppercased(name), at, known)->Ok_0;
        let a = grouping::aggregate_named(text::uppercased(name), x.0, x.1);
        if grouping::has_equal(st.aggrs, a) {
            let i = choose|i: int| 0 <= i < st.aggrs.len() && grouping::same_aggregate(#[trigger] st.aggrs[i], a);
            assert(relation::kind(st.aggrs[i]) == relation::kind(a));
        }
    }
}

proof fn every_row_has_a_value(
    e: ExprV,
    rows: Seq<Seq<ValueV>>,
    s: SchemaV,
    ps: Map<Seq<char>, ValueV>,
    known: Seq<(QuestionV, AnswerV)>,
)
    requires
        e matches ExprV::Literal(v) && v !is Null,
    ensures
        group_values(e, rows, s, ps, known).len() == rows.len(),
    decreases rows.len(),
{
    if rows.len() > 0 {
        reveal(relation::input);
        assert(relation::input(e, s, ps, known)(rows.last()) == Ok::<ValueV, ErrorV>(e->Literal_0));
        every_row_has_a_value(e, rows.drop_last(), s, ps, known);
    }
}

/// COUNT(*) counts all rows of a group, whatever they hold.
pub proof fn count_of_everything_counts_rows(
    nodes: Seq<SqlNodeV>,
    args: FunctionArgumentsV,
    at: int,
    rows: Seq<Seq<ValueV>>,
    s: SchemaV,
    ps: Map<Seq<char>, ValueV>,
    known: Seq<(QuestionV, AnswerV)>,
    v: ValueV,
)
    requires
        args matches FunctionArgumentsV::List { args, .. } && args.len() == 1 && args[0] is Wildcard,
        grouping::aggregate_argument(nodes, args, "COUNT"@, at, known) is Ok,
        ({
            let x = grouping::aggregate_argument(nodes, args, "COUNT"@, at, known)->Ok_0;
            is_result(measure(grouping::aggregate_named("COUNT"@, x.0, x.1), s, ps, known), rows, known, v)
        }),
    ensures
        v is Int && v->Int_0 == rows.len(),
{
    let x = grouping::aggregate_argument(nodes, args, "COUNT"@, at, known)->Ok_0;
    aggregates_compute_what_they_are_named("COUNT"@, x.0, x.1, rows, s, ps, known, v);
    every_row_has_a_value(x.0, rows, s, ps, known);
}

} // verus!
