//! What the time-series gateway asks of the columnar query engine.
//!
//! The gateway reads the files of a topic as one table ordered by time and
//! lets the engine filter the rows. This module holds what the gateway
//! computes for that: the plan of a read and the engine expression that an
//! expression group becomes. The expression is built as a tree of the
//! engine's own constructors, so that handing it over is a plain copy.

use vstd::prelude::*;
use vstd::string::{StrSliceExecFns, StringExecFns};
use crate::params::ARROW_SCHEMA_COLUMN_NAME_TIMESTAMP;
use crate::query::filter::{
    field_of, lemma_tag_len, lemma_tag_len_bounds, tag_len, views_of, Expr, ExprGroup, Like,
    OntologyField, Op, OpView, Value, ValueView,
};
use crate::rw::format::{Format, ListingPolicy};
use crate::text::owned;

verus! {

/// The binary operators of the engine that a filter uses.
#[derive(Debug, Clone, Copy, PartialEq, Eq, Structural)]
pub enum Operator {
    Eq,
    NotEq,
    LtEq,
    GtEq,
    Lt,
    Gt,
    And,
}

/// An expression of the engine.
#[derive(Debug)]
pub enum DfExpr {
    /// A column of the table.
    Column(String),
    /// A field of a struct-valued expression.
    Field(Box<DfExpr>, String),
    /// A literal.
    Literal(Value),
    /// Two expressions under a binary operator.
    Binary(Box<DfExpr>, Operator, Box<DfExpr>),
    /// Membership of an expression in a list of literals, or its negation.
    InList(Box<DfExpr>, Vec<Value>, bool),
    /// A text expression against a pattern.
    Like(Box<DfExpr>, Box<DfExpr>),
}

/// What a [`DfExpr`] holds, its texts by their characters.
pub enum DfExprView {
    Column(Seq<char>),
    Field(Box<DfExprView>, Seq<char>),
    Literal(ValueView),
    Binary(Box<DfExprView>, Operator, Box<DfExprView>),
    InList(Box<DfExprView>, Seq<ValueView>, bool),
    Like(Box<DfExprView>, Box<DfExprView>),
}

impl DfExpr {
    /// What the expression holds, its texts by their characters.
    pub open spec fn shape(&self) -> DfExprView
        decreases self,
    {
        match self {
            DfExpr::Column(name) => DfExprView::Column(name@),
            DfExpr::Field(base, name) => DfExprView::Field(Box::new(base.shape()), name@),
            DfExpr::Literal(v) => DfExprView::Literal(v@),
            DfExpr::Binary(l, op, r) => DfExprView::Binary(
                Box::new(l.shape()),
                *op,
                Box::new(r.shape()),
            ),
            DfExpr::InList(e, list, negated) => DfExprView::InList(
                Box::new(e.shape()),
                views_of(list@),
                *negated,
            ),
            DfExpr::Like(e, pattern) => DfExprView::Like(
                Box::new(e.shape()),
                Box::new(pattern.shape()),
            ),
        }
    }
}

impl View for DfExpr {
    type V = DfExprView;

    open spec fn view(&self) -> DfExprView {
        self.shape()
    }
}

/// What a record holds, by the path of a column: the name of the column and
/// the names of the fields below it. `None` is a null.
pub type PathRow = spec_fn(Seq<Seq<char>>) -> Option<ValueView>;

/// Whether a value stands to an operand as a comparison operator says.
pub open spec fn compares(op: Operator, v: ValueView, x: ValueView) -> bool {
    match op {
        Operator::Eq => v.against(x) == Some(0int),
        Operator::NotEq => v.against(x) is Some && v.against(x) != Some(0int),
        Operator::LtEq => v.against(x) == Some(-1int) || v.against(x) == Some(0int),
        Operator::GtEq => v.against(x) == Some(1int) || v.against(x) == Some(0int),
        Operator::Lt => v.against(x) == Some(-1int),
        Operator::Gt => v.against(x) == Some(1int),
        Operator::And => false,
    }
}

impl DfExprView {
    /// The path of the column that the expression reads, where it is a
    /// column or a field below one.
    pub open spec fn path(self) -> Option<Seq<Seq<char>>>
        decreases self,
    {
        match self {
            DfExprView::Column(name) => Some(seq![name]),
            DfExprView::Field(base, name) => match base.path() {
                Some(p) => Some(p.push(name)),
                None => None,
            },
            _ => None,
        }
    }

    /// The literal that the expression is, where it is one.
    pub open spec fn literal(self) -> Option<ValueView> {
        match self {
            DfExprView::Literal(v) => Some(v),
            _ => None,
        }
    }

    /// Whether the engine keeps a record under the expression as a filter.
    /// A comparison, a membership or a pattern on a column keeps the
    /// records whose value meets it, and no record that holds a null.
    pub open spec fn holds(self, row: PathRow, like: Like) -> bool
        decreases self,
    {
        match self {
            DfExprView::Binary(l, op, r) => if op == Operator::And {
                l.holds(row, like) && r.holds(row, like)
            } else {
                l.path() is Some && r.literal() is Some && row(l.path()->Some_0) is Some
                    && compares(op, row(l.path()->Some_0)->Some_0, r.literal()->Some_0)
            },
            DfExprView::InList(e, list, negated) => e.path() is Some && row(e.path()->Some_0)
                is Some && !negated && row(e.path()->Some_0)->Some_0.among(list),
            DfExprView::Like(e, pattern) => e.path() is Some && pattern.literal() is Some && row(
                e.path()->Some_0,
            ) is Some && row(e.path()->Some_0)->Some_0.text() is Some
                && pattern.literal()->Some_0.text() is Some && like(
                row(e.path()->Some_0)->Some_0.text()->Some_0,
                pattern.literal()->Some_0.text()->Some_0,
            ),
            _ => false,
        }
    }
}

/// The parts of a text between its dots. A text without a dot is one part,
/// the empty text too.
pub open spec fn dots_split(s: Seq<char>) -> Seq<Seq<char>>
    decreases s.len(),
{
    if tag_len(s) < s.len() {
        seq![s.subrange(0, tag_len(s) as int)] + dots_split(
            s.subrange(tag_len(s) as int + 1, s.len() as int),
        )
    } else {
        seq![s]
    }
}

/// The expression that reads the column at a path: the column, then field
/// by field.
pub open spec fn column_at(path: Seq<Seq<char>>) -> DfExprView
    decreases path.len(),
{
    if path.len() <= 1 {
        DfExprView::Column(
            if path.len() == 1 {
                path[0]
            } else {
                Seq::empty()
            },
        )
    } else {
        DfExprView::Field(Box::new(column_at(path.drop_last())), path.last())
    }
}

/// A text has at least one part.
pub proof fn lemma_dots_split_nonempty(s: Seq<char>)
    ensures
        dots_split(s).len() >= 1,
    decreases s.len(),
{
    if tag_len(s) < s.len() {
        lemma_tag_len_bounds(s);
        lemma_dots_split_nonempty(s.subrange(tag_len(s) as int + 1, s.len() as int));
    }
}

/// The expression that reads the column at a path reads that path.
pub proof fn lemma_column_at_path(path: Seq<Seq<char>>)
    requires
        path.len() >= 1,
    ensures
        column_at(path).path() == Some(path),
    decreases path.len(),
{
    if path.len() == 1 {
        assert(path =~= seq![path[0]]);
    } else {
        lemma_column_at_path(path.drop_last());
        assert(path.drop_last().push(path.last()) =~= path);
    }
}

/// The parts of a text between its dots.
pub fn split_dots(s: &str) -> (r: Vec<String>)
    ensures
        r@.len() == dots_split(s@).len(),
        forall|i: int| 0 <= i < r@.len() ==> (#[trigger] r@[i])@ == dots_split(s@)[i],
{
    let len: usize = s.unicode_len();
    let mut parts: Vec<String> = Vec::new();
    let mut start: usize = 0;
    let mut i: usize = 0;
    let ghost mut done: Seq<Seq<char>> = Seq::empty();
    proof {
        assert(s@.subrange(0, len as int) =~= s@);
    }
    for c in it: s.chars()
        invariant
            it.seq() == s@,
            len == s@.len(),
            i == it.index(),
            0 <= start <= i <= len,
            forall|j: int| start <= j < i ==> s@[j] != '.',
            parts@.len() == done.len(),
            forall|k: int| 0 <= k < parts@.len() ==> (#[trigger] parts@[k])@ == done[k],
            done + dots_split(s@.subrange(start as int, len as int)) == dots_split(s@),
    {
        if c == '.' {
            let part = owned(s.substring_char(start, i));
            proof {
                let rest = s@.subrange(start as int, len as int);
                assert forall|j: int| 0 <= j < i - start implies rest[j] != '.' by {
                    assert(rest[j] == s@[start + j]);
                }
                assert(rest[i - start] == '.');
                lemma_tag_len(rest, i - start);
                assert(rest.subrange(0, i - start) =~= s@.subrange(start as int, i as int));
                assert(rest.subrange(i - start + 1, rest.len() as int) =~= s@.subrange(
                    i + 1,
                    len as int,
                ));
                assert(done.push(part@) + dots_split(s@.subrange(i + 1, len as int)) =~= done
                    + dots_split(rest));
                done = done.push(part@);
            }
            parts.push(part);
            start = i + 1;
        }
        i = i + 1;
    }
    let part = owned(s.substring_char(start, len));
    proof {
        let rest = s@.subrange(start as int, len as int);
        assert forall|j: int| 0 <= j < rest.len() implies rest[j] != '.' by {
            assert(rest[j] == s@[start + j]);
        }
        lemma_tag_len(rest, rest.len() as int);
        assert(done.push(part@) =~= done + dots_split(rest));
    }
    parts.push(part);
    parts
}

/// The expression that reads the field of an ontology field: the column
/// named by the first part of the field, then one field access for each
/// further part.
pub fn unfold_field(field: &OntologyField) -> (r: DfExpr)
    ensures
        r@ == column_at(dots_split(field_of(field@))),
{
    let parts = split_dots(field.field());
    let ghost path = dots_split(field_of(field@));
    proof {
        lemma_dots_split_nonempty(field_of(field@));
    }
    let mut column: Option<DfExpr> = None;
    let ghost total = parts@.len();
    for part in it: parts.into_iter()
        invariant
            it.seq().len() == total,
            total == path.len(),
            total >= 1,
            forall|i: int| 0 <= i < total ==> (#[trigger] it.seq()[i])@ == path[i],
            it.index() == 0 ==> column is None,
            it.index() > 0 ==> column is Some && column->Some_0@ == column_at(
                path.take(it.index() as int),
            ),
    {
        let ghost n = it.index() as int;
        proof {
            assert(path.take(n + 1).drop_last() =~= path.take(n));
            assert(path.take(n + 1).last() == path[n]);
        }
        column = match column {
            None => Some(DfExpr::Column(part)),
            Some(base) => Some(DfExpr::Field(Box::new(base), part)),
        };
    }
    proof {
        assert(path.take(total as int) =~= path);
    }
    match column {
        Some(e) => e,
        None => DfExpr::Column(String::new()),
    }
}

/// The literal of the engine for a value.
pub fn value_to_df_expr(v: Value) -> (r: DfExpr)
    ensures
        r@ == DfExprView::Literal(v@),
{
    DfExpr::Literal(v)
}

/// The engine expression of one test on the field `field`; none for a
/// presence test, which the engine is not asked.
pub open spec fn engine_form(field: Seq<char>, op: OpView) -> Option<DfExprView> {
    let column = column_at(dots_split(field));
    match op {
        OpView::Eq(x) => Some(compared(column, Operator::Eq, x)),
        OpView::Neq(x) => Some(compared(column, Operator::NotEq, x)),
        OpView::Leq(x) => Some(compared(column, Operator::LtEq, x)),
        OpView::Geq(x) => Some(compared(column, Operator::GtEq, x)),
        OpView::Lt(x) => Some(compared(column, Operator::Lt, x)),
        OpView::Gt(x) => Some(compared(column, Operator::Gt, x)),
        OpView::Ex => None,
        OpView::Nex => None,
        OpView::Between(a, b) => Some(
            both(compared(column, Operator::LtEq, b), compared(column, Operator::GtEq, a)),
        ),
        OpView::In(items) => Some(DfExprView::InList(Box::new(column), items, false)),
        OpView::Match(p) => Some(
            DfExprView::Like(Box::new(column), Box::new(DfExprView::Literal(p))),
        ),
    }
}

/// A column under a comparison operator with a literal.
pub open spec fn compared(column: DfExprView, op: Operator, x: ValueView) -> DfExprView {
    DfExprView::Binary(Box::new(column), op, Box::new(DfExprView::Literal(x)))
}

/// The conjunction of two expressions.
pub open spec fn both(l: DfExprView, r: DfExprView) -> DfExprView {
    DfExprView::Binary(Box::new(l), Operator::And, Box::new(r))
}

/// The conjunction of an expression, if there is one yet, with one more, if
/// there is one.
pub open spec fn joined(head: Option<DfExprView>, next: Option<DfExprView>) -> Option<DfExprView> {
    match (head, next) {
        (None, _) => next,
        (Some(_), None) => head,
        (Some(h), Some(n)) => Some(both(h, n)),
    }
}

/// The engine expression of a group: the conjunction of the expressions of
/// its tests, in order; none where the group holds presence tests only.
pub open spec fn conjunction(exprs: Seq<Expr<Value>>) -> Option<DfExprView>
    decreases exprs.len(),
{
    if exprs.len() == 0 {
        None
    } else {
        joined(
            conjunction(exprs.drop_last()),
            engine_form(field_of(exprs.last().0@), exprs.last().1@),
        )
    }
}

/// The view of an optional expression.
pub open spec fn expr_view(e: Option<DfExpr>) -> Option<DfExprView> {
    match e {
        Some(x) => Some(x@),
        None => None,
    }
}

/// A column under a comparison operator with a literal.
fn compare(field: &OntologyField, op: Operator, v: Value) -> (r: DfExpr)
    ensures
        r@ == compared(column_at(dots_split(field_of(field@))), op, v@),
{
    DfExpr::Binary(Box::new(unfold_field(field)), op, Box::new(value_to_df_expr(v)))
}

/// The engine expression of one test on a field.
pub fn expr_to_df_expr(field: &OntologyField, op: Op<Value>) -> (r: Option<DfExpr>)
    ensures
        expr_view(r) == engine_form(field_of(field@), op@),
{
    match op {
        Op::Eq(v) => Some(compare(field, Operator::Eq, v)),
        Op::Neq(v) => Some(compare(field, Operator::NotEq, v)),
        Op::Leq(v) => Some(compare(field, Operator::LtEq, v)),
        Op::Geq(v) => Some(compare(field, Operator::GtEq, v)),
        Op::Lt(v) => Some(compare(field, Operator::Lt, v)),
        Op::Gt(v) => Some(compare(field, Operator::Gt, v)),
        Op::Ex => None,
        Op::Nex => None,
        Op::Between(range) => {
            let emin = compare(field, Operator::LtEq, range.max);
            let emax = compare(field, Operator::GtEq, range.min);
            Some(DfExpr::Binary(Box::new(emin), Operator::And, Box::new(emax)))
        },
        Op::In(items) => Some(DfExpr::InList(Box::new(unfold_field(field)), items, false)),
        Op::Match(v) => Some(
            DfExpr::Like(Box::new(unfold_field(field)), Box::new(value_to_df_expr(v))),
        ),
    }
}

/// The engine expression of a group: the conjunction of the expressions of
/// its tests, in order. A presence test adds nothing; a group of presence
/// tests only, or of none, gives no expression.
pub fn expr_group_to_df_expr(filter: ExprGroup<Value>) -> (r: Option<DfExpr>)
    ensures
        expr_view(r) == conjunction(filter.group@),
{
    let mut ret: Option<DfExpr> = None;
    let ghost input = filter.group@;
    for expr in it: filter.group.into_iter()
        invariant
            it.seq() == input,
            expr_view(ret) == conjunction(input.take(it.index() as int)),
    {
        proof {
            assert(input.take(it.index() + 1).drop_last() =~= input.take(it.index() as int));
        }
        let (field, op) = expr.into_parts();
        let next = expr_to_df_expr(&field, op);
        ret = match (ret, next) {
            (None, n) => n,
            (Some(h), None) => Some(h),
            (Some(h), Some(n)) => Some(DfExpr::Binary(Box::new(h), Operator::And, Box::new(n))),
        };
    }
    proof {
        assert(input.take(input.len() as int) =~= input);
    }
    ret
}

/// The engine expression of a test keeps the records that meet the test.
pub proof fn lemma_engine_form_faithful(field: Seq<char>, op: OpView, row: PathRow, like: Like)
    ensures
        match engine_form(field, op) {
            Some(e) => e.holds(row, like) == op.accepts(row(dots_split(field)), like),
            None => op.accepts(row(dots_split(field)), like),
        },
{
    reveal_with_fuel(DfExprView::holds, 3);
    lemma_dots_split_nonempty(field);
    lemma_column_at_path(dots_split(field));
}

/// Whether a record meets every test of a group.
pub open spec fn meets_all(exprs: Seq<Expr<Value>>, row: PathRow, like: Like) -> bool {
    forall|i: int|
        0 <= i < exprs.len() ==> (#[trigger] exprs[i]).1@.accepts(
            row(dots_split(field_of(exprs[i].0@))),
            like,
        )
}

/// The engine expression of a group keeps the records that meet every test
/// of the group; where there is no expression, every record meets them.
pub proof fn lemma_conjunction_faithful(exprs: Seq<Expr<Value>>, row: PathRow, like: Like)
    ensures
        match conjunction(exprs) {
            Some(e) => e.holds(row, like) == meets_all(exprs, row, like),
            None => meets_all(exprs, row, like),
        },
    decreases exprs.len(),
{
    if exprs.len() > 0 {
        let head = exprs.drop_last();
        let last = exprs.last();
        lemma_conjunction_faithful(head, row, like);
        lemma_engine_form_faithful(field_of(last.0@), last.1@, row, like);
        assert(meets_all(exprs, row, like) == (meets_all(head, row, like) && last.1@.accepts(
            row(dots_split(field_of(last.0@))),
            like,
        ))) by {
            if meets_all(exprs, row, like) {
                assert forall|i: int| 0 <= i < head.len() implies (#[trigger] head[i]).1@.accepts(
                    row(dots_split(field_of(head[i].0@))),
                    like,
                ) by {
                    assert(head[i] == exprs[i]);
                }
                assert(exprs[exprs.len() - 1] == last);
            }
            if meets_all(head, row, like) && last.1@.accepts(
                row(dots_split(field_of(last.0@))),
                like,
            ) {
                assert forall|i: int| 0 <= i < exprs.len() implies (#[trigger] exprs[i]).1@.accepts(
                    row(dots_split(field_of(exprs[i].0@))),
                    like,
                ) by {
                    if i < head.len() {
                        assert(head[i] == exprs[i]);
                    }
                }
            }
        }
    }
}

/// The name under which the files of a read are registered as a table.
pub const TABLE: &'static str = "data";

/// What a read asks of the engine.
#[derive(Debug)]
pub struct ReadPlan {
    /// The name of the table that the files are registered as.
    pub table: String,
    /// Which files under the path belong to the table.
    pub listing: ListingPolicy,
    /// The number of rows of a batch; `None` leaves it to the engine.
    pub batch_size: Option<usize>,
    /// The statement that reads the table, ordered by time.
    pub select: String,
}

/// How many rows of a result are skipped and how many are fetched at most.
#[derive(Debug, Clone, Copy, PartialEq, Eq, Structural)]
pub struct RowLimit {
    pub skip: usize,
    pub fetch: Option<usize>,
}

/// The files of a table: those that end in `.parquet`, whatever the format.
pub fn get_listing_options(_format: Format) -> (r: ListingPolicy)
    ensures
        r.file_extension@ == ".parquet"@,
{
    ListingPolicy { file_extension: owned(".parquet") }
}

/// The gateway to the time series.
#[derive(Debug)]
pub struct TimeseriesGw;

impl TimeseriesGw {
    /// The plan of a read: all files of the format under the path as one
    /// table, read whole and ordered by the timestamp column, in batches
    /// of the given size where one is given.
    pub fn read(format: Format, batch_size: Option<usize>) -> (r: ReadPlan)
        ensures
            r.table@ == TABLE@,
            r.listing.file_extension@ == ".parquet"@,
            r.batch_size == batch_size,
            r.select@ == "SELECT * FROM data ORDER BY "@ + ARROW_SCHEMA_COLUMN_NAME_TIMESTAMP@,
    {
        ReadPlan {
            table: owned(TABLE),
            listing: get_listing_options(format),
            batch_size,
            select: owned("SELECT * FROM data ORDER BY ").concat(
                ARROW_SCHEMA_COLUMN_NAME_TIMESTAMP,
            ),
        }
    }
}

/// What is done with the result of a read.
#[derive(Debug)]
pub struct TimeseriesGwResult;

impl TimeseriesGwResult {
    /// The filter that a group of expressions puts on the result; none
    /// where the group constrains no row.
    pub fn filter(filter: ExprGroup<Value>) -> (r: Option<DfExpr>)
        ensures
            expr_view(r) == conjunction(filter.group@),
    {
        expr_group_to_df_expr(filter)
    }

    /// The limit under which rows are counted to learn whether there are
    /// any: one row is enough, so that the files are not read whole.
    pub fn probe_limit() -> (r: RowLimit)
        ensures
            r == (RowLimit { skip: 0, fetch: Some(1usize) }),
    {
        RowLimit { skip: 0, fetch: Some(1) }
    }

    /// Whether there are rows, from the count under the probe limit.
    pub fn has_rows(count: usize) -> (r: bool)
        ensures
            r == (count > 0),
    {
        count > 0
    }
}

} // verus!
