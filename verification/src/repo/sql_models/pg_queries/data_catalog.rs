//! The query that asks the catalog for candidate chunks.
//!
//! A group of expressions on one ontology tag becomes one relational
//! query over the chunks. Each expression becomes a condition on the
//! statistics of its column: the chunk is kept where the bounds of the
//! column do not refute the test. The operands are not written into the
//! text of the query: they are bound to numbered parameters.

use vstd::prelude::*;
use vstd::string::StringExecFns;
use crate::query::builder::{CompiledClause};
use crate::query::error::{Error, OpError};
use crate::query::filter::{
    field_of, tag_of, views_of, Expr, ExprGroup, OntologyField, Op, OpView, Value,
    ValueView,
};
use crate::repo::sql_models::topic_record::TopicRecord;
use crate::text::owned;
use crate::types::float::Float;

verus! {

/// A value as it is bound to a parameter of a query.
#[derive(Debug)]
pub enum Bind {
    Integer(i64),
    Float(Float),
    Text(String),
}

/// What a [`Bind`] holds.
pub enum BindView {
    Integer(i64),
    Float(Float),
    Text(Seq<char>),
}

impl View for Bind {
    type V = BindView;

    open spec fn view(&self) -> BindView {
        match self {
            Bind::Integer(i) => BindView::Integer(*i),
            Bind::Float(f) => BindView::Float(*f),
            Bind::Text(t) => BindView::Text(t@),
        }
    }
}

/// How a value is bound: a boolean as the number one or zero, since the
/// statistics of boolean columns are numeric; every other value as it is.
pub open spec fn bound(v: ValueView) -> BindView {
    match v {
        ValueView::Integer(i) => BindView::Integer(i),
        ValueView::Float(f) => BindView::Float(f),
        ValueView::Text(t) => BindView::Text(t),
        ValueView::Boolean(b) => BindView::Float(
            Float {
                bits: if b {
                    crate::types::float::ONE_BITS
                } else {
                    0
                },
            },
        ),
    }
}

/// How one value is bound.
pub fn bind_value(v: Value) -> (r: Bind)
    ensures
        r@ == bound(v@),
{
    match v {
        Value::Integer(i) => Bind::Integer(i),
        Value::Float(f) => Bind::Float(f),
        Value::Text(t) => Bind::Text(t),
        Value::Boolean(b) => Bind::Float(Float::from_bool(b)),
    }
}

/// How the values of a query are bound, in order.
pub fn bind_values(values: Vec<Value>) -> (r: Vec<Bind>)
    ensures
        r@.len() == values@.len(),
        forall|i: int| 0 <= i < r@.len() ==> (#[trigger] r@[i])@ == bound(values@[i]@),
{
    let mut out: Vec<Bind> = Vec::new();
    let ghost all = values@;
    for v in it: values.into_iter()
        invariant
            it.seq() == all,
            out@.len() == it.index(),
            forall|i: int| 0 <= i < out@.len() ==> (#[trigger] out@[i])@ == bound(all[i]@),
    {
        out.push(bind_value(v));
    }
    out
}

/// The numbers of the topics, as the catalog's queries take them.
pub open spec fn ids_of(topics: Seq<TopicRecord>) -> Seq<i64> {
    topics.map_values(|t: TopicRecord| t.topic_id as i64)
}

/// The numbers of the topics that a search is restricted to; none where it
/// is not restricted.
pub fn topic_ids(on_topics: Option<&Vec<TopicRecord>>) -> (r: Vec<i64>)
    ensures
        match on_topics {
            Some(topics) => r@ == ids_of(topics@),
            None => r@.len() == 0,
        },
{
    let mut ids: Vec<i64> = Vec::new();
    match on_topics {
        None => ids,
        Some(topics) => {
            let mut k: usize = 0;
            while k < topics.len()
                invariant
                    0 <= k <= topics@.len(),
                    ids@ == ids_of(topics@.take(k as int)),
                decreases topics@.len() - k,
            {
                let id: i64 = topics[k].topic_id as i64;
                ids.push(id);
                proof {
                    assert(topics@.take(k + 1) =~= topics@.take(k as int).push(topics@[k as int]));
                    assert(ids_of(topics@.take(k + 1)) =~= ids_of(topics@.take(k as int)).push(id));
                }
                k = k + 1;
            }
            proof {
                assert(topics@.take(topics@.len() as int) =~= topics@);
            }
            ids
        },
    }
}

/// The digits of a number in base ten.
pub open spec fn decimal(n: nat) -> Seq<char>
    decreases n,
{
    if n < 10 {
        seq![(48 + n) as char]
    } else {
        decimal(n / 10).push((48 + n % 10) as char)
    }
}

/// One digit.
fn digit_text(d: u128) -> (r: &'static str)
    requires
        d < 10,
    ensures
        r@ == seq![(48 + d) as char],
{
    proof {
        reveal_strlit("0");
        reveal_strlit("1");
        reveal_strlit("2");
        reveal_strlit("3");
        reveal_strlit("4");
        reveal_strlit("5");
        reveal_strlit("6");
        reveal_strlit("7");
        reveal_strlit("8");
        reveal_strlit("9");
    }
    let r = if d == 0 {
        "0"
    } else if d == 1 {
        "1"
    } else if d == 2 {
        "2"
    } else if d == 3 {
        "3"
    } else if d == 4 {
        "4"
    } else if d == 5 {
        "5"
    } else if d == 6 {
        "6"
    } else if d == 7 {
        "7"
    } else if d == 8 {
        "8"
    } else {
        "9"
    };
    assert(r@ =~= seq![(48 + d) as char]);
    r
}

/// The digits of a number in base ten.
fn decimal_text(n: u128) -> (r: String)
    ensures
        r@ == decimal(n as nat),
    decreases n,
{
    if n < 10 {
        owned(digit_text(n))
    } else {
        let r = decimal_text(n / 10).concat(digit_text(n % 10));
        assert(r@ =~= decimal((n / 10) as nat).push((48 + n % 10) as char));
        r
    }
}

/// The text of the parameter numbered `n`.
pub open spec fn parameter(n: nat) -> Seq<char> {
    "$"@ + decimal(n)
}

/// The condition that the bounds of a column span the parameter.
pub open spec fn spans_text(n: nat) -> Seq<char> {
    "(s.min_value <= "@ + parameter(n) + " AND s.max_value >= "@ + parameter(n) + ")"@
}

/// The condition that the bounds span one of `count` parameters from the
/// one numbered `first` on; with no parameter, a condition that is false.
pub open spec fn spans_any_text(first: nat, count: nat) -> Seq<char>
    decreases count,
{
    if count == 0 {
        "FALSE"@
    } else {
        spans_any_text(first, (count - 1) as nat) + " OR "@ + spans_text(
            (first + count - 1) as nat,
        )
    }
}

/// The condition on the bounds of a column that a test becomes, with its
/// operands bound from the parameter numbered `first` on.
pub open spec fn test_text(op: OpView, first: nat) -> Seq<char> {
    match op {
        OpView::Eq(_) => spans_text(first),
        OpView::Neq(_) => "NOT (s.min_value = "@ + parameter(first) + " AND s.max_value = "@
            + parameter(first) + ")"@,
        OpView::Leq(_) => "s.min_value <= "@ + parameter(first),
        OpView::Geq(_) => "s.max_value >= "@ + parameter(first),
        OpView::Lt(_) => "s.min_value < "@ + parameter(first),
        OpView::Gt(_) => "s.max_value > "@ + parameter(first),
        OpView::Between(_, _) => "s.max_value >= "@ + parameter(first) + " AND s.min_value <= "@
            + parameter(first + 1),
        OpView::In(items) => spans_any_text(first, items.len()),
        _ => "TRUE"@,
    }
}

/// The operands of a test, in the order in which they are bound.
pub open spec fn operands(op: OpView) -> Seq<ValueView> {
    match op {
        OpView::Eq(x) => seq![x],
        OpView::Neq(x) => seq![x],
        OpView::Leq(x) => seq![x],
        OpView::Geq(x) => seq![x],
        OpView::Lt(x) => seq![x],
        OpView::Gt(x) => seq![x],
        OpView::Between(a, b) => seq![a, b],
        OpView::In(items) => items,
        _ => Seq::empty(),
    }
}

/// Whether a test is checked against the statistics at all: the presence
/// tests and the patterns are not.
pub open spec fn is_checked(op: OpView) -> bool {
    !(op is Ex || op is Nex || op is Match)
}

/// Whether the statistics of a test are those of text columns: they are
/// where the first operand is a text.
pub open spec fn on_literal(op: OpView) -> bool {
    operands(op).len() > 0 && operands(op)[0] is Text
}

/// The head of the condition on the statistics of a column, up to the test.
pub open spec fn clause_head(literal: bool, first: nat) -> Seq<char> {
    "EXISTS (SELECT 1 FROM "@ + (if literal {
        "column_chunk_literal_t"@
    } else {
        "column_chunk_numeric_t"@
    }) + " s JOIN column_t c ON c.column_id = s.column_id WHERE s.chunk_id = chunk_t.chunk_id AND c.column_name = "@
        + parameter(first) + " AND c.ontology_tag = "@ + parameter(first + 1) + " AND ("@
}

/// The clause that a test becomes. A test that is checked asks for a row
/// of statistics of the column, named by the first two parameters, on
/// which the condition of the test holds. Any other test is true.
pub open spec fn clause_text(op: OpView, first: nat) -> Seq<char> {
    if is_checked(op) {
        clause_head(on_literal(op), first) + test_text(op, first + 2) + "))"@
    } else {
        "TRUE"@
    }
}

/// The values that the clause of a test binds: for a test that is checked
/// the name of the column, the ontology tag, and the operands.
pub open spec fn clause_values(column: Seq<char>, tag: Seq<char>, op: OpView) -> Seq<ValueView> {
    if is_checked(op) {
        seq![ValueView::Text(column), ValueView::Text(tag)] + operands(op)
    } else {
        Seq::empty()
    }
}

/// The text of the parameter numbered `n`.
fn parameter_text(n: u128) -> (r: String)
    ensures
        r@ == parameter(n as nat),
{
    owned("$").concat(decimal_text(n).as_str())
}

/// The condition that the bounds of a column span the parameter.
fn spans_sql(n: u128) -> (r: String)
    ensures
        r@ == spans_text(n as nat),
{
    let p = parameter_text(n);
    owned("(s.min_value <= ").concat(p.as_str()).concat(" AND s.max_value >= ").concat(
        p.as_str(),
    ).concat(")")
}

/// One bound against one parameter.
fn bound_sql(head: &str, n: u128) -> (r: String)
    ensures
        r@ == head@ + parameter(n as nat),
{
    owned(head).concat(parameter_text(n).as_str())
}

/// The most parameters that a query can number: one more than the values
/// that a machine can hold.
pub const PARAMETER_LIMIT: u128 = 0x1_0000_0000_0000_0000;

/// The condition on the bounds of a column that a test becomes.
fn test_sql(op: &Op<Value>, first: u128) -> (r: String)
    requires
        first <= PARAMETER_LIMIT + 2,
    ensures
        r@ == test_text(op@, first as nat),
{
    match op {
        Op::Eq(_) => spans_sql(first),
        Op::Neq(_) => {
            let p = parameter_text(first);
            owned("NOT (s.min_value = ").concat(p.as_str()).concat(" AND s.max_value = ").concat(
                p.as_str(),
            ).concat(")")
        },
        Op::Leq(_) => bound_sql("s.min_value <= ", first),
        Op::Geq(_) => bound_sql("s.max_value >= ", first),
        Op::Lt(_) => bound_sql("s.min_value < ", first),
        Op::Gt(_) => bound_sql("s.max_value > ", first),
        Op::Between(_) => bound_sql("s.max_value >= ", first).concat(
            " AND s.min_value <= ",
        ).concat(parameter_text(first + 1).as_str()),
        Op::In(items) => {
            let mut text = owned("FALSE");
            let mut k: usize = 0;
            while k < items.len()
                invariant
                    0 <= k <= items@.len(),
                    first <= PARAMETER_LIMIT + 2,
                    text@ == spans_any_text(first as nat, k as nat),
                decreases items@.len() - k,
            {
                let k128: u128 = k as u128;
                text = text.concat(" OR ").concat(spans_sql(first + k128).as_str());
                k = k + 1;
            }
            assert(views_of(items@).len() == items@.len());
            text
        },
        _ => owned("TRUE"),
    }
}

/// The operands of a test, in the order in which they are bound.
fn operands_of(op: Op<Value>) -> (r: Vec<Value>)
    ensures
        views_of(r@) == operands(op@),
{
    let mut out: Vec<Value> = Vec::new();
    match op {
        Op::Eq(x) | Op::Neq(x) | Op::Leq(x) | Op::Geq(x) | Op::Lt(x) | Op::Gt(x) => {
            out.push(x);
            assert(views_of(out@) =~= seq![x@]);
        },
        Op::Between(range) => {
            out.push(range.min);
            out.push(range.max);
            assert(views_of(out@) =~= seq![range.min@, range.max@]);
        },
        Op::In(items) => {
            return items;
        },
        _ => {
            assert(views_of(out@) =~= Seq::<ValueView>::empty());
        },
    }
    out
}

/// Whether the statistics of a test are those of text columns.
fn is_on_literal(op: &Op<Value>) -> (r: bool)
    ensures
        r == on_literal(op@),
{
    let first = match op {
        Op::Eq(x) | Op::Neq(x) | Op::Leq(x) | Op::Geq(x) | Op::Lt(x) | Op::Gt(x) => Some(x),
        Op::Between(range) => Some(&range.min),
        Op::In(items) => {
            assert(views_of(items@).len() == items@.len());
            if items.len() > 0 {
                assert(views_of(items@)[0] == items@[0]@);
                Some(&items[0])
            } else {
                None
            }
        },
        _ => None,
    };
    match first {
        Some(Value::Text(_)) => true,
        _ => false,
    }
}

/// The clause that a test on a field becomes, with the values that it
/// binds to the parameters numbered from `first` on. A test that its
/// operand does not support is an error.
pub fn compile_expr(first: u128, field: &OntologyField, op: Op<Value>) -> (r: Result<
    CompiledClause,
    Error,
>)
    requires
        first <= PARAMETER_LIMIT,
    ensures
        match r {
            Ok(c) => op.supported() && c.clause@ == clause_text(op@, first as nat) && views_of(
                c.values@,
            ) == clause_values(field_of(field@), tag_of(field@), op@),
            Err(Error::OpError(k)) => !op.supported() && k == OpError::UnsupportedOperation,
            Err(_) => false,
        },
{
    if !op.is_supported_op() {
        return Err(Error::OpError(OpError::UnsupportedOperation));
    }
    match &op {
        Op::Ex | Op::Nex | Op::Match(_) => {
            let values: Vec<Value> = Vec::new();
            assert(views_of(values@) =~= Seq::<ValueView>::empty());
            return Ok(CompiledClause::new(owned("TRUE"), values));
        },
        _ => {},
    }
    let table = if is_on_literal(&op) {
        "column_chunk_literal_t"
    } else {
        "column_chunk_numeric_t"
    };
    let clause = owned("EXISTS (SELECT 1 FROM ").concat(table).concat(
        " s JOIN column_t c ON c.column_id = s.column_id WHERE s.chunk_id = chunk_t.chunk_id AND c.column_name = ",
    ).concat(parameter_text(first).as_str()).concat(" AND c.ontology_tag = ").concat(
        parameter_text(first + 1).as_str(),
    ).concat(" AND (").concat(test_sql(&op, first + 2).as_str()).concat("))");
    let mut values: Vec<Value> = Vec::new();
    values.push(Value::text(field.field()));
    values.push(Value::text(field.ontology_tag()));
    let ghost head = values@;
    let mut rest = operands_of(op);
    let ghost tail = rest@;
    values.append(&mut rest);
    proof {
        assert(values@ =~= head + tail);
        assert(views_of(values@) =~= views_of(head) + views_of(tail));
        assert(views_of(head) =~= seq![
            ValueView::Text(field_of(field@)),
            ValueView::Text(tag_of(field@)),
        ]);
    }
    Ok(CompiledClause::new(clause, values))
}

/// The values that the conditions of the expressions bind, in order.
pub open spec fn where_values(exprs: Seq<Expr<Value>>) -> Seq<ValueView>
    decreases exprs.len(),
{
    if exprs.len() == 0 {
        Seq::empty()
    } else {
        where_values(exprs.drop_last()) + clause_values(
            field_of(exprs.last().0@),
            tag_of(exprs.last().0@),
            exprs.last().1@,
        )
    }
}

/// The conjunction of the clauses of the expressions. The parameters are
/// numbered from one, in the order of the values.
pub open spec fn where_text(exprs: Seq<Expr<Value>>) -> Seq<char>
    decreases exprs.len(),
{
    if exprs.len() == 0 {
        "TRUE"@
    } else {
        where_text(exprs.drop_last()) + " AND "@ + clause_text(
            exprs.last().1@,
            where_values(exprs.drop_last()).len() + 1,
        )
    }
}

/// `count` parameters from the one numbered `first` on, with commas.
pub open spec fn parameter_list(first: nat, count: nat) -> Seq<char>
    decreases count,
{
    if count == 0 {
        Seq::empty()
    } else if count == 1 {
        parameter(first)
    } else {
        parameter_list(first, (count - 1) as nat) + ", "@ + parameter((first + count - 1) as nat)
    }
}

/// The condition that restricts the chunks to the topics numbered `ids`,
/// bound from the parameter numbered `first` on; nothing where no topic
/// is named.
pub open spec fn topics_text(first: nat, count: nat) -> Seq<char> {
    if count == 0 {
        Seq::empty()
    } else {
        " AND chunk_t.topic_id IN ("@ + parameter_list(first, count) + ")"@
    }
}

/// The query for the candidate chunks of a group of expressions, among
/// the topics numbered `ids` where there are any.
pub open spec fn query_text(exprs: Seq<Expr<Value>>, ids: Seq<i64>) -> Seq<char> {
    "SELECT chunk_t.* FROM chunk_t WHERE "@ + where_text(exprs) + topics_text(
        where_values(exprs).len() + 1,
        ids.len(),
    )
}

/// The integers as values.
pub open spec fn integers(ids: Seq<i64>) -> Seq<ValueView> {
    ids.map_values(|i: i64| ValueView::Integer(i))
}

/// The values that the query binds, in the order of its parameters.
pub open spec fn query_values(exprs: Seq<Expr<Value>>, ids: Seq<i64>) -> Seq<ValueView> {
    where_values(exprs) + integers(ids)
}

/// Builds the query that asks the catalog for candidate chunks.
#[derive(Debug)]
pub struct ChunkQueryBuilder;

impl ChunkQueryBuilder {
    /// The query for the candidate chunks of a group of expressions, with
    /// the values to bind to its parameters. With topic numbers the chunks
    /// are restricted to those topics. A test that its operand does not
    /// support is an error.
    pub fn build(filter: ExprGroup<Value>, ids: Vec<i64>) -> (r: Result<(String, Vec<Value>), Error>)
        ensures
            match r {
                Ok((query, values)) => crate::query::catalog::all_supported(filter.group@)
                    && query@ == query_text(filter.group@, ids@) && views_of(values@)
                    == query_values(filter.group@, ids@),
                Err(Error::OpError(k)) => !crate::query::catalog::all_supported(filter.group@)
                    && k == OpError::UnsupportedOperation,
                Err(_) => false,
            },
    {
        let mut text = owned("TRUE");
        let mut values: Vec<Value> = Vec::new();
        let ghost exprs = filter.group@;
        proof {
            assert(exprs.take(0) =~= Seq::<Expr<Value>>::empty());
            assert(views_of(values@) =~= where_values(exprs.take(0)));
        }
        for expr in it: filter.group.into_iter()
            invariant
                it.seq() == exprs,
                text@ == where_text(exprs.take(it.index() as int)),
                views_of(values@) == where_values(exprs.take(it.index() as int)),
                crate::query::catalog::all_supported(exprs.take(it.index() as int)),
        {
            let ghost seen = exprs.take(it.index() as int);
            proof {
                assert(exprs.take(it.index() + 1).drop_last() =~= seen);
                assert(views_of(values@).len() == values@.len());
            }
            let first: u128 = values.len() as u128 + 1;
            let (field, op) = expr.into_parts();
            match compile_expr(first, &field, op) {
                Err(e) => {
                    proof {
                        assert(!exprs[it.index() as int].1.supported());
                    }
                    return Err(e);
                },
                Ok(compiled) => {
                    let (clause, mut more) = compiled.into_parts();
                    let ghost head = values@;
                    let ghost tail = more@;
                    text = text.concat(" AND ").concat(clause.as_str());
                    values.append(&mut more);
                    proof {
                        assert(values@ =~= head + tail);
                        assert(views_of(values@) =~= views_of(head) + views_of(tail));
                        assert forall|i: int| 0 <= i < it.index() + 1 implies (
                        #[trigger] exprs.take(it.index() + 1)[i]).1.supported() by {
                            if i < it.index() {
                                assert(seen[i] == exprs.take(it.index() + 1)[i]);
                            }
                        }
                    }
                },
            }
        }
        proof {
            assert(exprs.take(exprs.len() as int) =~= exprs);
            assert(views_of(values@).len() == values@.len());
        }
        let mut query = owned("SELECT chunk_t.* FROM chunk_t WHERE ").concat(text.as_str());
        let first: u128 = values.len() as u128 + 1;
        if ids.len() > 0 {
            let mut list = parameter_text(first);
            let mut k: usize = 1;
            while k < ids.len()
                invariant
                    1 <= k <= ids@.len(),
                    first <= PARAMETER_LIMIT,
                    list@ == parameter_list(first as nat, k as nat),
                decreases ids@.len() - k,
            {
                let k128: u128 = k as u128;
                list = list.concat(", ").concat(parameter_text(first + k128).as_str());
                k = k + 1;
            }
            query = query.concat(" AND chunk_t.topic_id IN (").concat(list.as_str()).concat(")");
            assert(query@ =~= query_text(exprs, ids@));
        } else {
            assert(query@ =~= query_text(exprs, ids@));
        }
        let ghost before = values@;
        let mut k: usize = 0;
        while k < ids.len()
            invariant
                0 <= k <= ids@.len(),
                views_of(values@) == views_of(before) + integers(ids@.take(k as int)),
            decreases ids@.len() - k,
        {
            let ghost so_far = values@;
            values.push(Value::Integer(ids[k]));
            proof {
                assert(ids@.take(k + 1) =~= ids@.take(k as int).push(ids@[k as int]));
                assert(views_of(values@) =~= views_of(so_far).push(ValueView::Integer(ids@[k as int])));
                assert(integers(ids@.take(k + 1)) =~= integers(ids@.take(k as int)).push(
                    ValueView::Integer(ids@[k as int]),
                ));
            }
            k = k + 1;
        }
        proof {
            assert(ids@.take(ids@.len() as int) =~= ids@);
        }
        Ok((query, values))
    }
}

} // verus!
