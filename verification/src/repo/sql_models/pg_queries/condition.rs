//! What the query for candidate chunks asks.
//!
//! The text of the query is written for the catalog to read. Here the
//! condition of a test is given as a tree, with the text that it is written
//! as and with what it says of the bounds of a column once its parameters
//! are bound. The text of the query is that of the tree, and the tree holds
//! on the bounds of a column exactly where the chunk is retained for the
//! test. A comparison of two values that have no order does not hold.

use vstd::prelude::*;
use crate::query::catalog::{
    at_least, at_most, group_accepts, group_described, group_retains, lemma_refuted_is_unmet,
    range_for, range_of_column, retains, ColumnRangeView, Row,
};
use crate::query::filter::{field_of, tag_of, Expr, Like, OpView, Value, ValueView};
use crate::types::chunk::Stats;
use crate::repo::sql_models::pg_queries::data_catalog::{
    clause_values, is_checked, on_literal, operands, parameter, query_values, spans_any_text,
    spans_text, test_text, where_values,
};

verus! {

/// A bound of a column.
pub enum Bound {
    Min,
    Max,
}

/// How a bound stands to a parameter.
pub enum Comparison {
    Below,
    NotAbove,
    Equal,
    NotBelow,
    Above,
}

/// A condition on the bounds of a column. Parameters are numbered from
/// one.
pub enum Condition {
    False,
    True,
    Test { bound: Bound, how: Comparison, parameter: nat },
    Both(Box<Condition>, Box<Condition>),
    Either(Box<Condition>, Box<Condition>),
    Not(Box<Condition>),
    Group(Box<Condition>),
}

/// A bound and the sign of a comparison, as they are written.
pub open spec fn head_text(bound: Bound, how: Comparison) -> Seq<char> {
    match (bound, how) {
        (Bound::Min, Comparison::Below) => "s.min_value < "@,
        (Bound::Min, Comparison::NotAbove) => "s.min_value <= "@,
        (Bound::Min, Comparison::Equal) => "s.min_value = "@,
        (Bound::Min, Comparison::NotBelow) => "s.min_value >= "@,
        (Bound::Min, Comparison::Above) => "s.min_value > "@,
        (Bound::Max, Comparison::Below) => "s.max_value < "@,
        (Bound::Max, Comparison::NotAbove) => "s.max_value <= "@,
        (Bound::Max, Comparison::Equal) => "s.max_value = "@,
        (Bound::Max, Comparison::NotBelow) => "s.max_value >= "@,
        (Bound::Max, Comparison::Above) => "s.max_value > "@,
    }
}

/// Whether `a` stands to `x` as the comparison says.
pub open spec fn compares(a: ValueView, how: Comparison, x: ValueView) -> bool {
    match how {
        Comparison::Below => a.against(x) == Some(-1int),
        Comparison::NotAbove => at_most(a, x),
        Comparison::Equal => a.against(x) == Some(0int),
        Comparison::NotBelow => at_least(a, x),
        Comparison::Above => a.against(x) == Some(1int),
    }
}

impl Condition {
    /// The condition as it is written into a query.
    pub open spec fn text(self) -> Seq<char>
        decreases self,
    {
        match self {
            Condition::False => "FALSE"@,
            Condition::True => "TRUE"@,
            Condition::Test { bound, how, parameter: n } => head_text(bound, how) + parameter(n),
            Condition::Both(a, b) => a.text() + " AND "@ + b.text(),
            Condition::Either(a, b) => a.text() + " OR "@ + b.text(),
            Condition::Not(c) => "NOT "@ + c.text(),
            Condition::Group(c) => "("@ + c.text() + ")"@,
        }
    }

    /// Whether the condition holds on the bounds `range`, with `values`
    /// bound to the parameters in order.
    pub open spec fn holds(self, range: ColumnRangeView, values: Seq<ValueView>) -> bool
        decreases self,
    {
        match self {
            Condition::False => false,
            Condition::True => true,
            Condition::Test { bound, how, parameter: n } => 1 <= n <= values.len() && compares(
                match bound {
                    Bound::Min => range.lo,
                    Bound::Max => range.hi,
                },
                how,
                values[n - 1],
            ),
            Condition::Both(a, b) => a.holds(range, values) && b.holds(range, values),
            Condition::Either(a, b) => a.holds(range, values) || b.holds(range, values),
            Condition::Not(c) => !c.holds(range, values),
            Condition::Group(c) => c.holds(range, values),
        }
    }
}

/// The condition that the bounds span the parameter numbered `n`.
pub open spec fn spans_condition(n: nat) -> Condition {
    Condition::Group(
        Box::new(
            Condition::Both(
                Box::new(
                    Condition::Test { bound: Bound::Min, how: Comparison::NotAbove, parameter: n },
                ),
                Box::new(
                    Condition::Test { bound: Bound::Max, how: Comparison::NotBelow, parameter: n },
                ),
            ),
        ),
    )
}

/// The condition that the bounds span one of `count` parameters from the
/// one numbered `first` on.
pub open spec fn spans_any_condition(first: nat, count: nat) -> Condition
    decreases count,
{
    if count == 0 {
        Condition::False
    } else {
        Condition::Either(
            Box::new(spans_any_condition(first, (count - 1) as nat)),
            Box::new(spans_condition((first + count - 1) as nat)),
        )
    }
}

/// The condition on the bounds of a column that a test becomes, with its
/// operands bound from the parameter numbered `first` on.
pub open spec fn condition_of(op: OpView, first: nat) -> Condition {
    match op {
        OpView::Eq(_) => spans_condition(first),
        OpView::Neq(_) => Condition::Not(
            Box::new(
                Condition::Group(
                    Box::new(
                        Condition::Both(
                            Box::new(
                                Condition::Test {
                                    bound: Bound::Min,
                                    how: Comparison::Equal,
                                    parameter: first,
                                },
                            ),
                            Box::new(
                                Condition::Test {
                                    bound: Bound::Max,
                                    how: Comparison::Equal,
                                    parameter: first,
                                },
                            ),
                        ),
                    ),
                ),
            ),
        ),
        OpView::Leq(_) => Condition::Test {
            bound: Bound::Min,
            how: Comparison::NotAbove,
            parameter: first,
        },
        OpView::Geq(_) => Condition::Test {
            bound: Bound::Max,
            how: Comparison::NotBelow,
            parameter: first,
        },
        OpView::Lt(_) => Condition::Test {
            bound: Bound::Min,
            how: Comparison::Below,
            parameter: first,
        },
        OpView::Gt(_) => Condition::Test {
            bound: Bound::Max,
            how: Comparison::Above,
            parameter: first,
        },
        OpView::Between(_, _) => Condition::Both(
            Box::new(
                Condition::Test { bound: Bound::Max, how: Comparison::NotBelow, parameter: first },
            ),
            Box::new(
                Condition::Test {
                    bound: Bound::Min,
                    how: Comparison::NotAbove,
                    parameter: first + 1,
                },
            ),
        ),
        OpView::In(items) => spans_any_condition(first, items.len()),
        _ => Condition::True,
    }
}

/// Whether `part` is bound to the parameters from the one numbered `first`
/// on.
pub open spec fn binds(values: Seq<ValueView>, first: nat, part: Seq<ValueView>) -> bool {
    &&& 1 <= first
    &&& first - 1 + part.len() <= values.len()
    &&& forall|i: int| 0 <= i < part.len() ==> values[first - 1 + i] == #[trigger] part[i]
}

proof fn lemma_spans_text(n: nat)
    ensures
        spans_text(n) == spans_condition(n).text(),
{
    reveal_with_fuel(Condition::text, 4);
    reveal_strlit("(s.min_value <= ");
    reveal_strlit("(");
    reveal_strlit("s.min_value <= ");
    reveal_strlit(" AND s.max_value >= ");
    reveal_strlit(" AND ");
    reveal_strlit("s.max_value >= ");
    assert("(s.min_value <= "@ =~= "("@ + "s.min_value <= "@);
    assert(" AND s.max_value >= "@ =~= " AND "@ + "s.max_value >= "@);
    assert(spans_text(n) =~= spans_condition(n).text());
}

proof fn lemma_spans_any_text(first: nat, count: nat)
    ensures
        spans_any_text(first, count) == spans_any_condition(first, count).text(),
    decreases count,
{
    reveal_with_fuel(Condition::text, 2);
    if count > 0 {
        lemma_spans_any_text(first, (count - 1) as nat);
        lemma_spans_text((first + count - 1) as nat);
    }
}

/// The text of the condition of a test is that of its tree.
pub proof fn lemma_text_of_condition(op: OpView, first: nat)
    ensures
        test_text(op, first) == condition_of(op, first).text(),
{
    reveal_with_fuel(Condition::text, 5);
    match op {
        OpView::Eq(_) => {
            lemma_spans_text(first);
        },
        OpView::Neq(_) => {
            reveal_strlit("NOT (s.min_value = ");
            reveal_strlit("NOT ");
            reveal_strlit("(");
            reveal_strlit("s.min_value = ");
            reveal_strlit(" AND s.max_value = ");
            reveal_strlit(" AND ");
            reveal_strlit("s.max_value = ");
            assert("NOT (s.min_value = "@ =~= "NOT "@ + ("("@ + "s.min_value = "@));
            assert(" AND s.max_value = "@ =~= " AND "@ + "s.max_value = "@);
            assert(test_text(op, first) =~= condition_of(op, first).text());
        },
        OpView::Between(_, _) => {
            reveal_strlit(" AND s.min_value <= ");
            reveal_strlit(" AND ");
            reveal_strlit("s.min_value <= ");
            assert(" AND s.min_value <= "@ =~= " AND "@ + "s.min_value <= "@);
            assert(test_text(op, first) =~= condition_of(op, first).text());
        },
        OpView::In(items) => {
            lemma_spans_any_text(first, items.len());
        },
        _ => {},
    }
}

proof fn lemma_spans_any_holds(
    first: nat,
    items: Seq<ValueView>,
    count: nat,
    range: ColumnRangeView,
    values: Seq<ValueView>,
)
    requires
        count <= items.len(),
        binds(values, first, items),
    ensures
        spans_any_condition(first, count).holds(range, values) == range.spans_some(
            items.take(count as int),
        ),
    decreases count,
{
    reveal_with_fuel(Condition::holds, 4);
    let seen = items.take(count as int);
    if count == 0 {
        assert(!range.spans_some(seen));
    } else {
        let before = items.take(count - 1);
        lemma_spans_any_holds(first, items, (count - 1) as nat, range, values);
        let last = items[count - 1];
        assert(values[first - 1 + (count - 1)] == last);
        assert(spans_condition((first + count - 1) as nat).holds(range, values) == range.spans(
            last,
        ));
        if range.spans_some(seen) {
            let i = choose|i: int| 0 <= i < seen.len() && range.spans(#[trigger] seen[i]);
            if i < count - 1 {
                assert(before[i] == seen[i]);
                assert(range.spans_some(before));
            }
        }
        if range.spans_some(before) {
            let i = choose|i: int| 0 <= i < before.len() && range.spans(#[trigger] before[i]);
            assert(seen[i] == before[i]);
        }
        if range.spans(last) {
            assert(seen[count - 1] == last);
        }
    }
}

/// The condition of a test holds on the bounds of a column exactly where
/// the chunk is retained for the test.
pub proof fn lemma_condition_asks_what_is_retained(
    op: OpView,
    first: nat,
    range: ColumnRangeView,
    values: Seq<ValueView>,
)
    requires
        binds(values, first, operands(op)),
    ensures
        condition_of(op, first).holds(range, values) == retains(op, Some(range)),
{
    reveal_with_fuel(Condition::holds, 5);
    let part = operands(op);
    match op {
        OpView::Eq(x) => {
            assert(part[0] == x);
        },
        OpView::Neq(x) => {
            assert(part[0] == x);
        },
        OpView::Leq(x) => {
            assert(part[0] == x);
        },
        OpView::Geq(x) => {
            assert(part[0] == x);
        },
        OpView::Lt(x) => {
            assert(part[0] == x);
        },
        OpView::Gt(x) => {
            assert(part[0] == x);
        },
        OpView::Between(a, b) => {
            assert(part[0] == a);
            assert(part[1] == b);
        },
        OpView::In(items) => {
            lemma_spans_any_holds(first, items, items.len(), range, values);
            assert(items.take(items.len() as int) =~= items);
        },
        _ => {},
    }
}

/// The bounds that the catalog holds for a chunk: by the table, that of
/// the statistics of text columns or that of numeric ones, and by the name
/// and the ontology tag of a column.
pub type Held = spec_fn(bool, Seq<char>, Seq<char>) -> Option<ColumnRangeView>;

/// Whether the clause of a test holds of a chunk. The clause of a test
/// that is checked asks for a row of statistics, in the table of the kind
/// of the first operand, of the column that the first two parameters name,
/// on whose bounds the condition of the test holds.
pub open spec fn clause_holds(op: OpView, first: nat, held: Held, values: Seq<ValueView>) -> bool {
    if is_checked(op) {
        &&& 1 <= first
        &&& first + 1 <= values.len()
        &&& values[first - 1] matches ValueView::Text(column)
        &&& values[first as int] matches ValueView::Text(tag)
        &&& held(on_literal(op), column, tag) matches Some(range)
        &&& condition_of(op, first + 2).holds(range, values)
    } else {
        true
    }
}

/// The clause of a test on a column holds of a chunk exactly where the
/// chunk is retained for the test, on the bounds that the catalog holds
/// for the column in the table of the kind of the first operand.
pub proof fn lemma_clause_asks_what_is_retained(
    column: Seq<char>,
    tag: Seq<char>,
    op: OpView,
    first: nat,
    held: Held,
    values: Seq<ValueView>,
)
    requires
        binds(values, first, clause_values(column, tag, op)),
    ensures
        clause_holds(op, first, held, values) == retains(op, held(on_literal(op), column, tag)),
{
    if is_checked(op) {
        let part = clause_values(column, tag, op);
        assert(part[0] == ValueView::Text(column));
        assert(part[1] == ValueView::Text(tag));
        assert(values[first - 1 + 0] == part[0]);
        assert(values[first - 1 + 1] == part[1]);
        assert forall|i: int| 0 <= i < operands(op).len() implies values[first + 2 - 1 + i]
            == #[trigger] operands(op)[i] by {
            assert(part[i + 2] == operands(op)[i]);
            assert(values[first - 1 + (i + 2)] == part[i + 2]);
        }
        match held(on_literal(op), column, tag) {
            Some(range) => {
                lemma_condition_asks_what_is_retained(op, first + 2, range, values);
            },
            None => {},
        }
    }
}

/// Whether the clauses of all the expressions hold of a chunk, with
/// `values` bound to the parameters of the query.
pub open spec fn where_holds(exprs: Seq<Expr<Value>>, held: Held, values: Seq<ValueView>) -> bool
    decreases exprs.len(),
{
    exprs.len() == 0 || (where_holds(exprs.drop_last(), held, values) && clause_holds(
        exprs.last().1@,
        where_values(exprs.drop_last()).len() + 1,
        held,
        values,
    ))
}

/// Whether a chunk is retained for every expression, on the bounds that
/// the catalog holds for it.
pub open spec fn all_retained(exprs: Seq<Expr<Value>>, held: Held) -> bool {
    forall|i: int|
        0 <= i < exprs.len() ==> retains(
            (#[trigger] exprs[i]).1@,
            held(on_literal(exprs[i].1@), field_of(exprs[i].0@), tag_of(exprs[i].0@)),
        )
}

/// The query asks for the chunks that are retained for every expression:
/// with the values of the query bound to its parameters, the clauses hold
/// of a chunk exactly where the chunk is retained for every expression.
pub proof fn lemma_query_asks_what_is_retained(
    exprs: Seq<Expr<Value>>,
    held: Held,
    values: Seq<ValueView>,
)
    requires
        binds(values, 1, where_values(exprs)),
    ensures
        where_holds(exprs, held, values) == all_retained(exprs, held),
    decreases exprs.len(),
{
    if exprs.len() > 0 {
        let rest = exprs.drop_last();
        let last = exprs.last();
        let part = clause_values(field_of(last.0@), tag_of(last.0@), last.1@);
        let first = where_values(rest).len() + 1;
        assert forall|i: int| 0 <= i < where_values(rest).len() implies values[1 - 1 + i]
            == #[trigger] where_values(rest)[i] by {
            assert(where_values(exprs)[i] == where_values(rest)[i]);
        }
        assert forall|i: int| 0 <= i < part.len() implies values[first - 1 + i]
            == #[trigger] part[i] by {
            assert(where_values(exprs)[where_values(rest).len() + i] == part[i]);
        }
        lemma_query_asks_what_is_retained(rest, held, values);
        lemma_clause_asks_what_is_retained(
            field_of(last.0@),
            tag_of(last.0@),
            last.1@,
            first,
            held,
            values,
        );
        if all_retained(exprs, held) {
            assert forall|i: int| 0 <= i < rest.len() implies retains(
                (#[trigger] rest[i]).1@,
                held(on_literal(rest[i].1@), field_of(rest[i].0@), tag_of(rest[i].0@)),
            ) by {
                assert(rest[i] == exprs[i]);
            }
            assert(exprs[exprs.len() - 1] == last);
        }
        if all_retained(rest, held) && retains(
            last.1@,
            held(on_literal(last.1@), field_of(last.0@), tag_of(last.0@)),
        ) {
            assert forall|i: int| 0 <= i < exprs.len() implies retains(
                (#[trigger] exprs[i]).1@,
                held(on_literal(exprs[i].1@), field_of(exprs[i].0@), tag_of(exprs[i].0@)),
            ) by {
                if i < rest.len() {
                    assert(rest[i] == exprs[i]);
                }
            }
        }
    }
}

/// The query that is built for a group of expressions, with the values
/// that are built with it, asks for the chunks that are retained for every
/// expression, whatever topics it is restricted to.
pub proof fn lemma_built_query_asks_what_is_retained(
    exprs: Seq<Expr<Value>>,
    ids: Seq<i64>,
    held: Held,
)
    ensures
        where_holds(exprs, held, query_values(exprs, ids)) == all_retained(exprs, held),
{
    lemma_query_asks_what_is_retained(exprs, held, query_values(exprs, ids));
}

/// What the catalog holds for a chunk with the statistics `columns`, all
/// under one ontology tag: the bounds of a column stand in the table of
/// their kind and not in the other.
pub open spec fn held_of(columns: Seq<(String, Stats)>) -> Held {
    |literal: bool, column: Seq<char>, tag: Seq<char>|
        match range_of_column(columns, column) {
            Some(range) => if (range.lo is Text) == literal {
                Some(range)
            } else {
                None
            },
            None => None,
        }
}

/// Whether each test that is checked has its first operand of the kind
/// of the bounds of its column, where the column has bounds.
pub open spec fn kinds_agree(exprs: Seq<Expr<Value>>, columns: Seq<(String, Stats)>) -> bool {
    forall|i: int|
        0 <= i < exprs.len() ==> match range_for(#[trigger] exprs[i], columns) {
            Some(range) => !is_checked(exprs[i].1@) || (range.lo is Text) == on_literal(
                exprs[i].1@,
            ),
            None => true,
        }
}

/// A chunk that the query retains is retained by the statistics of the
/// chunk taken alone, and the two retain the same chunks where the kinds
/// agree. Where a test has an operand of the other kind than its column,
/// the query finds no row of statistics and drops the chunk.
pub proof fn lemma_query_retains_within_statistics(
    exprs: Seq<Expr<Value>>,
    columns: Seq<(String, Stats)>,
)
    ensures
        all_retained(exprs, held_of(columns)) ==> group_retains(exprs, columns),
        kinds_agree(exprs, columns) ==> all_retained(exprs, held_of(columns)) == group_retains(
            exprs,
            columns,
        ),
{
    let held = held_of(columns);
    if all_retained(exprs, held) {
        assert forall|i: int| 0 <= i < exprs.len() implies retains(
            (#[trigger] exprs[i]).1@,
            range_for(exprs[i], columns),
        ) by {
            assert(retains(
                exprs[i].1@,
                held(on_literal(exprs[i].1@), field_of(exprs[i].0@), tag_of(exprs[i].0@)),
            ));
        }
    }
    if kinds_agree(exprs, columns) && group_retains(exprs, columns) {
        assert forall|i: int| 0 <= i < exprs.len() implies retains(
            (#[trigger] exprs[i]).1@,
            held(on_literal(exprs[i].1@), field_of(exprs[i].0@), tag_of(exprs[i].0@)),
        ) by {
            assert(retains(exprs[i].1@, range_for(exprs[i], columns)));
        }
    }
}

/// Whether the operands of a test are all texts or all numbers.
pub open spec fn of_one_kind(op: OpView) -> bool {
    forall|i: int|
        0 <= i < operands(op).len() ==> (#[trigger] operands(op)[i] is Text) == on_literal(op)
}

/// No record of a chunk that the query drops meets the expressions, where
/// the operands of each test are of one kind and the statistics account
/// for the record.
pub proof fn lemma_dropped_chunk_holds_no_match(
    exprs: Seq<Expr<Value>>,
    columns: Seq<(String, Stats)>,
    row: Row,
    like: Like,
)
    requires
        group_described(exprs, columns, row),
        forall|i: int| 0 <= i < exprs.len() ==> of_one_kind((#[trigger] exprs[i]).1@),
        !all_retained(exprs, held_of(columns)),
    ensures
        !group_accepts(exprs, row, like),
{
    let held = held_of(columns);
    let i = choose|i: int|
        0 <= i < exprs.len() && !retains(
            (#[trigger] exprs[i]).1@,
            held(on_literal(exprs[i].1@), field_of(exprs[i].0@), tag_of(exprs[i].0@)),
        );
    let op = exprs[i].1@;
    let range = range_for(exprs[i], columns);
    let field = row(field_of(exprs[i].0@));
    if !retains(op, range) {
        lemma_refuted_is_unmet(op, range, field, like);
    } else {
        assert(of_one_kind(op));
        match field {
            Some(v) => {
                assert forall|j: int| 0 <= j < operands(op).len() implies v.against(
                    #[trigger] operands(op)[j],
                ) is None by {
                    assert((operands(op)[j] is Text) == on_literal(op));
                }
                assert(!op.accepts(field, like));
            },
            None => {},
        }
    }
}

} // verus!
