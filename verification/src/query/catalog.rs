//! What the catalog can tell of a chunk before the chunk is read.
//!
//! The catalog holds, for a column of a chunk, the least and the greatest
//! value. A test on that column can be refuted by them: no value between
//! the two meets it. A chunk of which some test is refuted is not read. The
//! bounds are sound and not complete: a chunk that is retained may still
//! hold no matching record.

use vstd::prelude::*;
use crate::query::error::OpError;
use crate::query::filter::{
    field_of, views_of, Expr, ExprGroup, Like, Op, OpView, Value, ValueView,
};
use crate::text::{lemma_lex_total, str_eq, str_lt};
use crate::types::chunk::{column_index, ColumnsStats, Stats};
use crate::types::float::Float;

verus! {

/// The least and the greatest value of a column in a chunk.
#[derive(Debug)]
pub enum ColumnRange {
    Numeric(Float, Float),
    Literal(String, String),
}

/// What a [`ColumnRange`] holds: the two bounds as values.
pub struct ColumnRangeView {
    pub lo: ValueView,
    pub hi: ValueView,
}

impl View for ColumnRange {
    type V = ColumnRangeView;

    open spec fn view(&self) -> ColumnRangeView {
        match self {
            ColumnRange::Numeric(min, max) => ColumnRangeView {
                lo: ValueView::Float(*min),
                hi: ValueView::Float(*max),
            },
            ColumnRange::Literal(min, max) => ColumnRangeView {
                lo: ValueView::Text(min@),
                hi: ValueView::Text(max@),
            },
        }
    }
}

/// Whether `a` is below or equal to `b`.
pub open spec fn at_most(a: ValueView, b: ValueView) -> bool {
    a.against(b) == Some(-1int) || a.against(b) == Some(0int)
}

/// Whether `a` is above or equal to `b`.
pub open spec fn at_least(a: ValueView, b: ValueView) -> bool {
    a.against(b) == Some(1int) || a.against(b) == Some(0int)
}

impl ColumnRangeView {
    /// Whether `x` lies between the bounds.
    pub open spec fn spans(self, x: ValueView) -> bool {
        at_most(self.lo, x) && at_least(self.hi, x)
    }

    /// Whether one of `items` lies between the bounds.
    pub open spec fn spans_some(self, items: Seq<ValueView>) -> bool {
        exists|i: int| 0 <= i < items.len() && self.spans(#[trigger] items[i])
    }

    /// Whether the bounds account for a record that holds `v`: the value
    /// lies between them, or it is a NaN, which no test accepts.
    pub open spec fn covers(self, v: ValueView) -> bool {
        self.spans(v) || (self.lo.numeric() is Some && v.numeric() is Some
            && v.numeric()->Some_0.nan())
    }
}

/// Whether the statistics account for what a record holds in the column:
/// a null needs none, a value needs bounds that cover it.
pub open spec fn describes(range: Option<ColumnRangeView>, field: Option<ValueView>) -> bool {
    match field {
        None => true,
        Some(v) => range is Some && range->Some_0.covers(v),
    }
}

/// Whether a chunk is retained for a test on a column with the bounds
/// `range`; `None` where the catalog holds no bounds for the column.
pub open spec fn retains(op: OpView, range: Option<ColumnRangeView>) -> bool {
    match op {
        OpView::Ex => true,
        OpView::Nex => true,
        OpView::Match(_) => true,
        _ => match range {
            None => false,
            Some(r) => match op {
                OpView::Eq(x) => r.spans(x),
                OpView::Neq(x) => !(r.lo.against(x) == Some(0int) && r.hi.against(x) == Some(0int)),
                OpView::Leq(x) => at_most(r.lo, x),
                OpView::Geq(x) => at_least(r.hi, x),
                OpView::Lt(x) => r.lo.against(x) == Some(-1int),
                OpView::Gt(x) => r.hi.against(x) == Some(1int),
                OpView::Between(a, b) => at_least(r.hi, a) && at_most(r.lo, b),
                OpView::In(items) => r.spans_some(items),
                _ => true,
            },
        },
    }
}

/// The order of values is transitive, and two values stand to each other
/// one way only.
pub proof fn lemma_against_order(a: ValueView, b: ValueView, c: ValueView)
    ensures
        at_most(a, b) && at_most(b, c) ==> at_most(a, c),
        at_least(a, b) && at_least(b, c) ==> at_least(a, c),
        a.against(b) == Some(-1int) && at_most(b, c) ==> a.against(c) == Some(-1int),
        at_most(a, b) && b.against(c) == Some(-1int) ==> a.against(c) == Some(-1int),
        a.against(b) == Some(1int) && at_least(b, c) ==> a.against(c) == Some(1int),
        at_least(a, b) && b.against(c) == Some(1int) ==> a.against(c) == Some(1int),
        a.against(b) == Some(0int) <==> b.against(a) == Some(0int),
        a.against(b) == Some(-1int) <==> b.against(a) == Some(1int),
{
    if a.text() is Some && b.text() is Some && c.text() is Some {
        let x = a.text()->Some_0;
        let y = b.text()->Some_0;
        let z = c.text()->Some_0;
        crate::types::chunk::lemma_text_order3(x, y, z);
    } else if a.text() is Some && b.text() is Some {
        let x = a.text()->Some_0;
        let y = b.text()->Some_0;
        crate::types::chunk::lemma_text_order3(x, y, y);
    }
}

/// A chunk is refuted rightly: where the bounds of the column account for
/// what a record holds in it, and the chunk is not retained for a test, the
/// record does not meet the test.
pub proof fn lemma_refuted_is_unmet(
    op: OpView,
    range: Option<ColumnRangeView>,
    field: Option<ValueView>,
    like: Like,
)
    requires
        describes(range, field),
        !retains(op, range),
    ensures
        !op.accepts(field, like),
{
    if let Some(v) = field {
        let r = range->Some_0;
        match op {
            OpView::Eq(x) => {
                lemma_against_order(r.lo, v, x);
                lemma_against_order(r.hi, v, x);
            },
            OpView::Neq(x) => {
                lemma_against_order(r.lo, v, x);
                lemma_against_order(r.hi, v, x);
                lemma_against_order(v, x, r.lo);
                lemma_against_order(x, r.lo, v);
                lemma_against_order(x, r.hi, v);
                lemma_against_order(v, r.hi, x);
                lemma_against_order(r.lo, x, v);
                lemma_against_order(r.hi, x, v);
            },
            OpView::Leq(x) => {
                lemma_against_order(r.lo, v, x);
            },
            OpView::Geq(x) => {
                lemma_against_order(r.hi, v, x);
            },
            OpView::Lt(x) => {
                lemma_against_order(r.lo, v, x);
            },
            OpView::Gt(x) => {
                lemma_against_order(r.hi, v, x);
            },
            OpView::Between(a, b) => {
                lemma_against_order(r.hi, v, a);
                lemma_against_order(r.lo, v, b);
            },
            OpView::In(items) => {
                if op.accepts(field, like) {
                    let i = choose|i: int|
                        0 <= i < items.len() && v.against(#[trigger] items[i]) == Some(0int);
                    assert(v.among(items));
                    lemma_against_order(r.lo, v, items[i]);
                    lemma_against_order(r.hi, v, items[i]);
                    assert(r.spans(items[i]));
                }
            },
            _ => {},
        }
    }
}

/// The bounds that the statistics of a column give; none for a column that
/// is not profiled.
pub open spec fn stats_range(stats: Stats) -> Option<ColumnRangeView> {
    match stats {
        Stats::Numeric(s) => Some(
            ColumnRangeView { lo: ValueView::Float(s.min), hi: ValueView::Float(s.max) },
        ),
        Stats::Text(s) => Some(
            ColumnRangeView { lo: ValueView::Text(s.min@), hi: ValueView::Text(s.max@) },
        ),
        Stats::Unsupported => None,
    }
}

/// The bounds of the column `name` among the statistics of a chunk.
pub open spec fn range_of_column(columns: Seq<(String, Stats)>, name: Seq<char>) -> Option<
    ColumnRangeView,
> {
    if column_index(columns, name) < columns.len() {
        stats_range(columns[column_index(columns, name) as int].1)
    } else {
        None
    }
}

/// The bounds, in the statistics of a chunk, of the column that the
/// expression tests.
pub open spec fn range_for<T>(expr: Expr<T>, columns: Seq<(String, Stats)>) -> Option<
    ColumnRangeView,
> {
    range_of_column(columns, field_of(expr.0@))
}

/// Whether a chunk with the statistics `columns` is retained for all the
/// expressions.
pub open spec fn group_retains(group: Seq<Expr<Value>>, columns: Seq<(String, Stats)>) -> bool {
    forall|i: int|
        0 <= i < group.len() ==> retains((#[trigger] group[i]).1@, range_for(group[i], columns))
}

/// What a record holds, by column: `None` for a null.
pub type Row = spec_fn(Seq<char>) -> Option<ValueView>;

/// Whether a record meets all the expressions.
pub open spec fn group_accepts(group: Seq<Expr<Value>>, row: Row, like: Like) -> bool {
    forall|i: int|
        0 <= i < group.len() ==> (#[trigger] group[i]).1@.accepts(row(field_of(group[i].0@)), like)
}

/// Whether the statistics of a chunk account for a record in every column
/// that the expressions test.
pub open spec fn group_described(
    group: Seq<Expr<Value>>,
    columns: Seq<(String, Stats)>,
    row: Row,
) -> bool {
    forall|i: int|
        0 <= i < group.len() ==> describes(
            range_for(#[trigger] group[i], columns),
            row(field_of(group[i].0@)),
        )
}

/// No record of a chunk that is refuted meets the expressions: where the
/// statistics account for the record and the chunk is not retained, the
/// record fails one of the tests.
pub proof fn lemma_refuted_chunk_holds_no_match(
    group: Seq<Expr<Value>>,
    columns: Seq<(String, Stats)>,
    row: Row,
    like: Like,
)
    requires
        group_described(group, columns, row),
        !group_retains(group, columns),
    ensures
        !group_accepts(group, row, like),
{
    let i = choose|i: int|
        0 <= i < group.len() && !retains((#[trigger] group[i]).1@, range_for(group[i], columns));
    lemma_refuted_is_unmet(
        group[i].1@,
        range_for(group[i], columns),
        row(field_of(group[i].0@)),
        like,
    );
}

/// The statistics that a writer folds from the numbers of a column account
/// for every record of the column: for `v`, where the number that `v`
/// stands for was one of those taken.
pub proof fn lemma_folded_numbers_describe(vals: Seq<Option<Float>>, i: int, v: ValueView)
    requires
        0 <= i < vals.len(),
        v.numeric() is Some,
        vals[i] == v.numeric(),
    ensures
        describes(
            stats_range(Stats::Numeric(crate::types::chunk::NumericStats::fresh().folded(vals))),
            Some(v),
        ),
{
    let x = v.numeric()->Some_0;
    if !x.nan() {
        crate::types::chunk::lemma_numeric_fold_bounds(
            crate::types::chunk::NumericStats::fresh(),
            vals,
            i,
        );
        crate::types::chunk::lemma_numeric_fold_wf(
            crate::types::chunk::NumericStats::fresh(),
            vals,
        );
    }
}

/// The statistics that a writer folds from the texts of a column account
/// for every record of the column, where no text of the column is empty.
pub proof fn lemma_folded_texts_describe(
    stats: crate::types::chunk::TextStats,
    vals: Seq<Option<Seq<char>>>,
    i: int,
)
    requires
        stats@ == crate::types::chunk::TextStatsView::fresh().folded(vals),
        crate::types::chunk::no_empty_text(vals),
        0 <= i < vals.len(),
        vals[i] is Some,
    ensures
        describes(stats_range(Stats::Text(stats)), Some(ValueView::Text(vals[i]->Some_0))),
{
    crate::types::chunk::lemma_text_fold_bounds(vals, i);
    let f = crate::types::chunk::TextStatsView::fresh().folded(vals);
    crate::types::chunk::lemma_text_order3(f.min, f.max, vals[i]->Some_0);
}

/// Whether one of the expressions asks for membership in the empty set,
/// which nothing meets.
pub open spec fn asks_empty_set(group: Seq<Expr<Value>>) -> bool {
    exists|i: int| 0 <= i < group.len() && (#[trigger] group[i]).1@ == OpView::In(Seq::empty())
}

/// A group that asks for membership in the empty set retains no chunk.
pub proof fn lemma_empty_set_retains_nothing(group: Seq<Expr<Value>>, columns: Seq<(String, Stats)>)
    requires
        asks_empty_set(group),
    ensures
        !group_retains(group, columns),
{
    let i = choose|i: int|
        0 <= i < group.len() && (#[trigger] group[i]).1@ == OpView::In(Seq::empty());
    assert(!retains(group[i].1@, range_for(group[i], columns)));
}

/// The outcome of a comparison as an integer.
pub open spec fn as_int(o: Option<i8>) -> Option<int> {
    match o {
        Some(x) => Some(x as int),
        None => None,
    }
}

fn is_zero(o: Option<i8>) -> (r: bool)
    ensures
        r == (as_int(o) == Some(0int)),
{
    match o {
        Some(x) => x == 0,
        None => false,
    }
}

fn is_below(o: Option<i8>) -> (r: bool)
    ensures
        r == (as_int(o) == Some(-1int)),
{
    match o {
        Some(x) => x == -1,
        None => false,
    }
}

fn is_above(o: Option<i8>) -> (r: bool)
    ensures
        r == (as_int(o) == Some(1int)),
{
    match o {
        Some(x) => x == 1,
        None => false,
    }
}

fn not_above(o: Option<i8>) -> (r: bool)
    ensures
        r == (as_int(o) == Some(-1int) || as_int(o) == Some(0int)),
{
    is_below(o) || is_zero(o)
}

fn not_below(o: Option<i8>) -> (r: bool)
    ensures
        r == (as_int(o) == Some(1int) || as_int(o) == Some(0int)),
{
    is_above(o) || is_zero(o)
}

/// How the number `a` stands to the operand `x`.
fn number_against(a: Float, x: &Value) -> (r: Option<i8>)
    ensures
        as_int(r) == ValueView::Float(a).against(x@),
{
    match x.numeric() {
        Some(b) => {
            if a.is_nan() || b.is_nan() {
                None
            } else {
                let ka: i64 = a.order_key();
                let kb: i64 = b.order_key();
                if ka < kb {
                    Some(-1)
                } else if ka > kb {
                    Some(1)
                } else {
                    Some(0)
                }
            }
        },
        None => None,
    }
}

/// How the text `a` stands to the operand `x`.
fn text_against(a: &str, x: &Value) -> (r: Option<i8>)
    ensures
        as_int(r) == ValueView::Text(a@).against(x@),
{
    match x {
        Value::Text(b) => {
            proof {
                lemma_lex_total(a@, b@);
            }
            if str_lt(a, b.as_str()) {
                Some(-1)
            } else if str_eq(a, b.as_str()) {
                Some(0)
            } else {
                Some(1)
            }
        },
        _ => None,
    }
}

impl ColumnRange {
    /// The bounds that the statistics of a column give; none for a column
    /// that is not profiled.
    pub fn from_stats(stats: &Stats) -> (r: Option<ColumnRange>)
        ensures
            match r {
                Some(range) => stats_range(*stats) == Some(range@),
                None => stats_range(*stats) is None,
            },
    {
        match stats {
            Stats::Numeric(s) => Some(ColumnRange::Numeric(s.min, s.max)),
            Stats::Text(s) => Some(ColumnRange::Literal(s.min.clone(), s.max.clone())),
            Stats::Unsupported => None,
        }
    }

    /// How the lower bound stands to the operand `x`.
    pub fn lo_against(&self, x: &Value) -> (r: Option<i8>)
        ensures
            as_int(r) == self@.lo.against(x@),
    {
        match self {
            ColumnRange::Numeric(min, _) => number_against(*min, x),
            ColumnRange::Literal(min, _) => text_against(min.as_str(), x),
        }
    }

    /// How the upper bound stands to the operand `x`.
    pub fn hi_against(&self, x: &Value) -> (r: Option<i8>)
        ensures
            as_int(r) == self@.hi.against(x@),
    {
        match self {
            ColumnRange::Numeric(_, max) => number_against(*max, x),
            ColumnRange::Literal(_, max) => text_against(max.as_str(), x),
        }
    }

    /// Whether one of `items` lies between the bounds.
    pub fn spans_any(&self, items: &Vec<Value>) -> (r: bool)
        ensures
            r == self@.spans_some(views_of(items@)),
    {
        let ghost views = views_of(items@);
        let mut k: usize = 0;
        while k < items.len()
            invariant
                0 <= k <= items.len(),
                views == views_of(items@),
                forall|i: int| 0 <= i < k ==> !self@.spans(#[trigger] views[i]),
            decreases items.len() - k,
        {
            if self.spans(&items[k]) {
                assert(self@.spans(views[k as int]));
                return true;
            }
            k = k + 1;
        }
        false
    }

    /// Whether `x` lies between the bounds.
    pub fn spans(&self, x: &Value) -> (r: bool)
        ensures
            r == self@.spans(x@),
    {
        not_above(self.lo_against(x)) && not_below(self.hi_against(x))
    }
}

/// The view of optional bounds.
pub open spec fn range_view(range: Option<&ColumnRange>) -> Option<ColumnRangeView> {
    match range {
        Some(r) => Some(r@),
        None => None,
    }
}

/// Whether a chunk is retained for the test `op` on a column with the
/// bounds `range`; `None` where the catalog holds no bounds for the column.
pub fn may_match(op: &Op<Value>, range: Option<&ColumnRange>) -> (r: bool)
    ensures
        r == retains(op@, range_view(range)),
{
    match op {
        Op::Ex => true,
        Op::Nex => true,
        Op::Match(_) => true,
        _ => match range {
            None => false,
            Some(r) => match op {
                Op::Eq(x) => r.spans(x),
                Op::Neq(x) => {
                    let lo = r.lo_against(x);
                    let hi = r.hi_against(x);
                    !(is_zero(lo) && is_zero(hi))
                },
                Op::Leq(x) => not_above(r.lo_against(x)),
                Op::Geq(x) => not_below(r.hi_against(x)),
                Op::Lt(x) => is_below(r.lo_against(x)),
                Op::Gt(x) => is_above(r.hi_against(x)),
                Op::Between(bounds) => {
                    let hi = r.hi_against(&bounds.min);
                    let lo = r.lo_against(&bounds.max);
                    not_below(hi) && not_above(lo)
                },
                Op::In(items) => r.spans_any(items),
                _ => true,
            },
        },
    }
}

/// Whether every test of the group can be applied to its operand.
pub open spec fn all_supported(group: Seq<Expr<Value>>) -> bool {
    forall|i: int| 0 <= i < group.len() ==> (#[trigger] group[i]).1.supported()
}

/// Checks that every test of the group can be applied to its operand.
pub fn validate(group: &ExprGroup<Value>) -> (r: Result<(), OpError>)
    ensures
        r is Ok <==> all_supported(group.group@),
        r matches Err(e) ==> e == OpError::UnsupportedOperation,
{
    let mut k: usize = 0;
    while k < group.group.len()
        invariant
            0 <= k <= group.group@.len(),
            forall|i: int| 0 <= i < k ==> (#[trigger] group.group@[i]).1.supported(),
        decreases group.group@.len() - k,
    {
        if !group.group[k].1.is_supported_op() {
            return Err(OpError::UnsupportedOperation);
        }
        k = k + 1;
    }
    Ok(())
}

/// Whether the group asks for membership in the empty set, so that no
/// chunk can be a candidate and the catalog need not be asked.
pub fn never_matches(group: &ExprGroup<Value>) -> (r: bool)
    ensures
        r == asks_empty_set(group.group@),
{
    let mut k: usize = 0;
    while k < group.group.len()
        invariant
            0 <= k <= group.group@.len(),
            forall|i: int| 0 <= i < k ==> (#[trigger] group.group@[i]).1@ != OpView::In(Seq::empty()),
        decreases group.group@.len() - k,
    {
        match &group.group[k].1 {
            Op::In(items) => {
                if items.len() == 0 {
                    assert(views_of(items@) =~= Seq::empty());
                    return true;
                }
                assert(views_of(items@).len() > 0);
            },
            _ => {},
        }
        k = k + 1;
    }
    false
}

/// Whether a chunk with the statistics `stats` is retained for all the
/// expressions of the group.
pub fn chunk_may_match(group: &ExprGroup<Value>, stats: &ColumnsStats) -> (r: bool)
    ensures
        r == group_retains(group.group@, stats.entries()),
{
    let mut k: usize = 0;
    while k < group.group.len()
        invariant
            0 <= k <= group.group@.len(),
            forall|i: int|
                0 <= i < k ==> retains(
                    (#[trigger] group.group@[i]).1@,
                    range_for(group.group@[i], stats.entries()),
                ),
        decreases group.group@.len() - k,
    {
        let expr = &group.group[k];
        let range = match stats.get(expr.0.field()) {
            Some(s) => ColumnRange::from_stats(s),
            None => None,
        };
        let kept = may_match(&expr.1, range.as_ref());
        if !kept {
            return false;
        }
        k = k + 1;
    }
    true
}

} // verus!
