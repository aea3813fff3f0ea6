//! What the chunk writer keeps while a chunk is written.
//!
//! A chunk is written batch by batch. The encoder turns the batches into the
//! bytes of the file; the writer checks that every batch has the schema that
//! the chunk was opened with, counts the rows, and keeps the statistics of
//! every column. The values of a column reach the statistics in one of two
//! ways: as the summary that the encoder has already made of them, or one by
//! one. Both ways give the same statistics.

use vstd::prelude::*;
use crate::rw::error::Error;
use crate::rw::format::Format;
use crate::text::str_eq;
use crate::types::chunk::{
    with_column, ColumnsStats, NumericStats, Stats, TextStats, TextStatsView,
};
use crate::types::float::{Float, ONE_BITS};

verus! {

/// The type of a column, as far as the statistics tell types apart.
#[derive(Debug, Clone, Copy, PartialEq, Eq, Structural)]
pub enum LeafType {
    Integer,
    Float,
    Boolean,
    Text,
    /// A type that is not profiled: binary data, lists, and the like.
    Other,
}

/// One column of a schema. A field of a struct column is a column of its
/// own, named by the path from the column to the field, with dots.
#[derive(Debug)]
pub struct Column {
    pub path: String,
    pub leaf: LeafType,
    pub nullable: bool,
}

/// The columns of a chunk, in order.
#[derive(Debug)]
pub struct ChunkSchema {
    pub columns: Vec<Column>,
}

/// What a [`Column`] holds.
pub struct ColumnView {
    pub path: Seq<char>,
    pub leaf: LeafType,
    pub nullable: bool,
}

impl View for Column {
    type V = ColumnView;

    open spec fn view(&self) -> ColumnView {
        ColumnView { path: self.path@, leaf: self.leaf, nullable: self.nullable }
    }
}

impl View for ChunkSchema {
    type V = Seq<ColumnView>;

    open spec fn view(&self) -> Seq<ColumnView> {
        self.columns@.map_values(|c: Column| c@)
    }
}

impl ChunkSchema {
    /// Whether the two schemas have the same columns in the same order:
    /// the same paths, types and nullability.
    pub fn matches(&self, other: &ChunkSchema) -> (r: bool)
        ensures
            r == (self@ == other@),
    {
        if self.columns.len() != other.columns.len() {
            assert(self@.len() != other@.len());
            return false;
        }
        let mut k: usize = 0;
        while k < self.columns.len()
            invariant
                0 <= k <= self.columns@.len(),
                self.columns@.len() == other.columns@.len(),
                forall|i: int| 0 <= i < k ==> (#[trigger] self@[i]) == other@[i],
            decreases self.columns@.len() - k,
        {
            let a = &self.columns[k];
            let b = &other.columns[k];
            if !(str_eq(a.path.as_str(), b.path.as_str()) && a.leaf == b.leaf && a.nullable
                == b.nullable) {
                assert(self@[k as int] != other@[k as int]);
                return false;
            }
            k = k + 1;
        }
        assert(self@ =~= other@);
        true
    }
}

/// The values of one column in one batch, as they reach the statistics.
#[derive(Debug)]
pub enum ColumnData {
    /// The summary that the encoder has made of numeric values.
    NumericSummary { min: Option<Float>, max: Option<Float>, has_null: bool, has_nan: bool },
    /// The summary that the encoder has made of texts.
    TextSummary { least: Option<String>, greatest: Option<String>, nulls: bool },
    Integers(Vec<Option<i64>>),
    Numbers(Vec<Option<Float>>),
    Booleans(Vec<Option<bool>>),
    Texts(Vec<Option<String>>),
    /// Values that are not profiled.
    Opaque,
}

/// What the statistics of a column hold.
pub enum StatsView {
    Numeric(NumericStats),
    Text(TextStatsView),
    Unsupported,
}

/// What the statistics hold.
pub open spec fn stats_view(s: Stats) -> StatsView {
    match s {
        Stats::Numeric(n) => StatsView::Numeric(n),
        Stats::Text(t) => StatsView::Text(t@),
        Stats::Unsupported => StatsView::Unsupported,
    }
}

/// The statistics that a column of the type starts with.
pub open spec fn fresh_stats(leaf: LeafType) -> StatsView {
    match leaf {
        LeafType::Integer => StatsView::Numeric(NumericStats::fresh()),
        LeafType::Float => StatsView::Numeric(NumericStats::fresh()),
        LeafType::Boolean => StatsView::Numeric(NumericStats::fresh()),
        LeafType::Text => StatsView::Text(TextStatsView::fresh()),
        LeafType::Other => StatsView::Unsupported,
    }
}

/// Whether the data is of a form that a column of the type takes.
pub open spec fn fits(leaf: LeafType, data: ColumnData) -> bool {
    match leaf {
        LeafType::Integer => data is NumericSummary || data is Integers,
        LeafType::Float => data is NumericSummary || data is Numbers,
        LeafType::Boolean => data is NumericSummary || data is Booleans,
        LeafType::Text => data is TextSummary || data is Texts,
        LeafType::Other => data is Opaque,
    }
}

/// The integers as the numbers that the statistics hold them as.
pub open spec fn integers_as_numbers(v: Seq<Option<i64>>) -> Seq<Option<Float>> {
    v.map_values(
        |x: Option<i64>|
            match x {
                Some(i) => Some(Float::of_int(i as int)),
                None => None,
            },
    )
}

/// The booleans as numbers: one for true and zero for false.
pub open spec fn booleans_as_numbers(v: Seq<Option<bool>>) -> Seq<Option<Float>> {
    v.map_values(
        |x: Option<bool>|
            match x {
                Some(b) => Some(
                    Float {
                        bits: if b {
                            ONE_BITS
                        } else {
                            0
                        },
                    },
                ),
                None => None,
            },
    )
}

/// The texts by their characters.
pub open spec fn text_views(v: Seq<Option<String>>) -> Seq<Option<Seq<char>>> {
    v.map_values(
        |x: Option<String>|
            match x {
                Some(t) => Some(t@),
                None => None,
            },
    )
}

/// The characters of an optional text.
pub open spec fn chars_of(t: Option<String>) -> Option<Seq<char>> {
    match t {
        Some(s) => Some(s@),
        None => None,
    }
}

/// The statistics after the data of one more batch.
pub open spec fn taken(stats: StatsView, data: ColumnData) -> StatsView {
    match (stats, data) {
        (StatsView::Numeric(s), ColumnData::NumericSummary { min, max, has_null, has_nan }) =>
            StatsView::Numeric(s.merged(min, max, has_null, has_nan)),
        (StatsView::Numeric(s), ColumnData::Integers(v)) => StatsView::Numeric(
            s.folded(integers_as_numbers(v@)),
        ),
        (StatsView::Numeric(s), ColumnData::Numbers(v)) => StatsView::Numeric(s.folded(v@)),
        (StatsView::Numeric(s), ColumnData::Booleans(v)) => StatsView::Numeric(
            s.folded(booleans_as_numbers(v@)),
        ),
        (StatsView::Text(s), ColumnData::TextSummary { least, greatest, nulls }) => StatsView::Text(
            s.merged(chars_of(least), chars_of(greatest), nulls),
        ),
        (StatsView::Text(s), ColumnData::Texts(v)) => StatsView::Text(s.folded(text_views(v@))),
        _ => stats,
    }
}

/// Folds the numbers into the statistics one by one.
fn fold_numbers(stats: &mut NumericStats, values: &Vec<Option<Float>>)
    ensures
        *final(stats) == old(stats).folded(values@),
{
    let mut k: usize = 0;
    while k < values.len()
        invariant
            0 <= k <= values@.len(),
            *stats == old(stats).folded(values@.take(k as int)),
        decreases values@.len() - k,
    {
        proof {
            assert(values@.take(k + 1).drop_last() =~= values@.take(k as int));
        }
        stats.eval(&values[k]);
        k = k + 1;
    }
    proof {
        assert(values@.take(values@.len() as int) =~= values@);
    }
}

/// Folds the integers into the statistics one by one, as numbers.
fn fold_integers(stats: &mut NumericStats, values: &Vec<Option<i64>>)
    ensures
        *final(stats) == old(stats).folded(integers_as_numbers(values@)),
{
    let ghost numbers = integers_as_numbers(values@);
    let mut k: usize = 0;
    while k < values.len()
        invariant
            0 <= k <= values@.len(),
            numbers == integers_as_numbers(values@),
            *stats == old(stats).folded(numbers.take(k as int)),
        decreases values@.len() - k,
    {
        proof {
            assert(numbers.take(k + 1).drop_last() =~= numbers.take(k as int));
        }
        let number = match values[k] {
            Some(i) => Some(Float::from_i64(i)),
            None => None,
        };
        stats.eval(&number);
        k = k + 1;
    }
    proof {
        assert(numbers.take(numbers.len() as int) =~= numbers);
    }
}

/// Folds the booleans into the statistics one by one, as numbers.
fn fold_booleans(stats: &mut NumericStats, values: &Vec<Option<bool>>)
    ensures
        *final(stats) == old(stats).folded(booleans_as_numbers(values@)),
{
    let ghost numbers = booleans_as_numbers(values@);
    let mut k: usize = 0;
    while k < values.len()
        invariant
            0 <= k <= values@.len(),
            numbers == booleans_as_numbers(values@),
            *stats == old(stats).folded(numbers.take(k as int)),
        decreases values@.len() - k,
    {
        proof {
            assert(numbers.take(k + 1).drop_last() =~= numbers.take(k as int));
        }
        let number = match values[k] {
            Some(b) => Some(Float::from_bool(b)),
            None => None,
        };
        stats.eval(&number);
        k = k + 1;
    }
    proof {
        assert(numbers.take(numbers.len() as int) =~= numbers);
    }
}

/// Folds the texts into the statistics one by one.
fn fold_texts(stats: &mut TextStats, values: &Vec<Option<String>>)
    ensures
        final(stats)@ == old(stats)@.folded(text_views(values@)),
{
    let ghost texts = text_views(values@);
    let mut k: usize = 0;
    while k < values.len()
        invariant
            0 <= k <= values@.len(),
            texts == text_views(values@),
            stats@ == old(stats)@.folded(texts.take(k as int)),
        decreases values@.len() - k,
    {
        proof {
            assert(texts.take(k + 1).drop_last() =~= texts.take(k as int));
        }
        let text: Option<&str> = match &values[k] {
            Some(t) => Some(t.as_str()),
            None => None,
        };
        stats.eval(&text);
        k = k + 1;
    }
    proof {
        assert(texts.take(texts.len() as int) =~= texts);
    }
}

/// Whether the data is of a form that a column of the type takes.
fn data_fits(leaf: LeafType, data: &ColumnData) -> (r: bool)
    ensures
        r == fits(leaf, *data),
{
    match (leaf, data) {
        (LeafType::Integer, ColumnData::NumericSummary { .. }) => true,
        (LeafType::Integer, ColumnData::Integers(_)) => true,
        (LeafType::Float, ColumnData::NumericSummary { .. }) => true,
        (LeafType::Float, ColumnData::Numbers(_)) => true,
        (LeafType::Boolean, ColumnData::NumericSummary { .. }) => true,
        (LeafType::Boolean, ColumnData::Booleans(_)) => true,
        (LeafType::Text, ColumnData::TextSummary { .. }) => true,
        (LeafType::Text, ColumnData::Texts(_)) => true,
        (LeafType::Other, ColumnData::Opaque) => true,
        _ => false,
    }
}

/// Takes the data of one more batch into the statistics of a column.
fn take(stats: &mut Stats, data: &ColumnData)
    ensures
        stats_view(*final(stats)) == taken(stats_view(*old(stats)), *data),
{
    match stats {
        Stats::Numeric(s) => match data {
            ColumnData::NumericSummary { min, max, has_null, has_nan } => {
                s.merge(*min, *max, *has_null, *has_nan);
            },
            ColumnData::Integers(v) => {
                fold_integers(s, v);
            },
            ColumnData::Numbers(v) => {
                fold_numbers(s, v);
            },
            ColumnData::Booleans(v) => {
                fold_booleans(s, v);
            },
            _ => {},
        },
        Stats::Text(s) => match data {
            ColumnData::TextSummary { least, greatest, nulls } => {
                let lo: Option<&str> = match least {
                    Some(t) => Some(t.as_str()),
                    None => None,
                };
                let hi: Option<&str> = match greatest {
                    Some(t) => Some(t.as_str()),
                    None => None,
                };
                s.merge(lo, hi, *nulls);
            },
            ColumnData::Texts(v) => {
                fold_texts(s, v);
            },
            _ => {},
        },
        Stats::Unsupported => {},
    }
}

/// Whether every column gets data of a form that it takes.
pub open spec fn all_fit(schema: Seq<ColumnView>, data: Seq<ColumnData>) -> bool {
    data.len() == schema.len() && forall|i: int|
        0 <= i < schema.len() ==> fits((#[trigger] schema[i]).leaf, data[i])
}

/// The chunk writer: the schema and the format of the chunk, the rows
/// written so far, and the statistics of the columns.
#[derive(Debug)]
pub struct ChunkWriter {
    schema: ChunkSchema,
    format: Format,
    rows: u64,
    stats: Vec<Stats>,
}

impl ChunkWriter {
    #[verifier::type_invariant]
    spec fn well_formed(&self) -> bool {
        self.stats@.len() == self.schema.columns@.len()
    }

    /// The schema of the chunk.
    pub closed spec fn schema(&self) -> Seq<ColumnView> {
        self.schema@
    }

    /// The format of the chunk.
    pub closed spec fn format(&self) -> Format {
        self.format
    }

    /// The number of rows written.
    pub closed spec fn rows(&self) -> nat {
        self.rows as nat
    }

    /// The statistics of the columns, in the order of the schema.
    pub closed spec fn stats(&self) -> Seq<StatsView> {
        self.stats@.map_values(|s: Stats| stats_view(s))
    }

    /// A writer for a chunk of the schema in the format, with no row yet.
    pub fn try_new(schema: ChunkSchema, format: Format) -> (r: ChunkWriter)
        ensures
            r.schema() == schema@,
            r.format() == format,
            r.rows() == 0,
            r.stats().len() == schema@.len(),
            forall|i: int|
                0 <= i < schema@.len() ==> (#[trigger] r.stats()[i]) == fresh_stats(schema@[i].leaf),
    {
        let mut stats: Vec<Stats> = Vec::new();
        let mut k: usize = 0;
        while k < schema.columns.len()
            invariant
                0 <= k <= schema.columns@.len(),
                stats@.len() == k,
                forall|i: int|
                    0 <= i < k ==> stats_view(#[trigger] stats@[i]) == fresh_stats(schema@[i].leaf),
            decreases schema.columns@.len() - k,
        {
            let fresh = match schema.columns[k].leaf {
                LeafType::Integer | LeafType::Float | LeafType::Boolean => Stats::Numeric(
                    NumericStats::new(),
                ),
                LeafType::Text => Stats::Text(TextStats::new()),
                LeafType::Other => Stats::Unsupported,
            };
            stats.push(fresh);
            k = k + 1;
        }
        ChunkWriter { schema, format, rows: 0, stats }
    }

    /// The format of the chunk.
    pub fn chunk_format(&self) -> (r: Format)
        ensures
            r == self.format(),
    {
        self.format
    }

    /// Takes a batch of `rows` rows: its schema must be that of the chunk,
    /// and every column must come with data of a form that it takes. The
    /// rows are counted and the data goes into the statistics. After an
    /// error the writer is gone.
    pub fn write(self, batch: &ChunkSchema, rows: usize, data: &Vec<ColumnData>) -> (r: Result<
        ChunkWriter,
        Error,
    >)
        ensures
            match r {
                Ok(w) => batch@ == self.schema() && all_fit(self.schema(), data@) && w.schema()
                    == self.schema() && w.format() == self.format() && w.rows() == self.rows()
                    + rows && w.stats().len() == self.stats().len() && forall|i: int|
                    0 <= i < w.stats().len() ==> (#[trigger] w.stats()[i]) == taken(
                        self.stats()[i],
                        data@[i],
                    ),
                Err(Error::SchemaMismatch) => !(batch@ == self.schema() && all_fit(
                    self.schema(),
                    data@,
                )),
                Err(Error::TooManyRows) => batch@ == self.schema() && all_fit(
                    self.schema(),
                    data@,
                ) && self.rows() + rows > u64::MAX,
                Err(_) => false,
            },
    {
        proof {
            use_type_invariant(&self);
        }
        if !self.schema.matches(batch) || data.len() != self.schema.columns.len() {
            return Err(Error::SchemaMismatch);
        }
        let mut k: usize = 0;
        while k < data.len()
            invariant
                0 <= k <= data@.len(),
                data@.len() == self.schema.columns@.len(),
                forall|i: int| 0 <= i < k ==> fits((#[trigger] self.schema@[i]).leaf, data@[i]),
            decreases data@.len() - k,
        {
            if !data_fits(self.schema.columns[k].leaf, &data[k]) {
                assert(!fits(self.schema@[k as int].leaf, data@[k as int]));
                return Err(Error::SchemaMismatch);
            }
            k = k + 1;
        }
        let total: u64 = match self.rows.checked_add(rows as u64) {
            Some(total) => total,
            None => {
                return Err(Error::TooManyRows);
            },
        };
        let ChunkWriter { schema, format, rows: _, mut stats } = self;
        let ghost before = stats@;
        let mut k: usize = 0;
        while k < stats.len()
            invariant
                0 <= k <= stats@.len(),
                stats@.len() == before.len(),
                stats@.len() == data@.len(),
                forall|i: int|
                    0 <= i < k ==> stats_view(#[trigger] stats@[i]) == taken(
                        stats_view(before[i]),
                        data@[i],
                    ),
                forall|i: int| k <= i < stats@.len() ==> (#[trigger] stats@[i]) == before[i],
            decreases stats@.len() - k,
        {
            take(&mut stats[k], &data[k]);
            k = k + 1;
        }
        Ok(ChunkWriter { schema, format, rows: total, stats })
    }

    /// The columns of the chunk.
    pub closed spec fn columns(&self) -> Seq<Column> {
        self.schema.columns@
    }

    /// The statistics of the columns as they are kept, in the order of the
    /// schema.
    pub closed spec fn column_stats(&self) -> Seq<Stats> {
        self.stats@
    }

    /// Seals the chunk: the number of rows and the statistics of the
    /// columns, by the paths of the columns. Of two columns with one path
    /// the later one stands.
    pub fn finalize(self) -> (r: (u64, ColumnsStats))
        ensures
            r.0 == self.rows(),
            r.1.entries() == sealed(self.columns(), self.column_stats()),
    {
        proof {
            use_type_invariant(&self);
        }
        let ChunkWriter { schema, format: _, rows, stats } = self;
        let mut out = ColumnsStats::empty();
        let mut columns = schema.columns;
        let mut stats = stats;
        let ghost all_columns = columns@;
        let ghost all_stats = stats@;
        let ghost mut k: int = 0;
        proof {
            assert(all_columns.take(0) =~= Seq::<Column>::empty());
            assert(out.entries() =~= sealed(all_columns.take(0), all_stats.take(0)));
            assert(columns@ =~= all_columns.skip(0));
            assert(stats@ =~= all_stats.skip(0));
        }
        while stats.len() > 0 && columns.len() > 0
            invariant
                all_columns.len() == all_stats.len(),
                0 <= k <= all_columns.len(),
                columns@ == all_columns.skip(k),
                stats@ == all_stats.skip(k),
                out.entries() == sealed(all_columns.take(k), all_stats.take(k)),
            decreases stats@.len(),
        {
            let s = stats.remove(0);
            let c = columns.remove(0);
            proof {
                assert(c == all_columns[k]);
                assert(s == all_stats[k]);
                assert(columns@ =~= all_columns.skip(k + 1));
                assert(stats@ =~= all_stats.skip(k + 1));
                assert(all_columns.take(k + 1).drop_last() =~= all_columns.take(k));
                assert(all_stats.take(k + 1).drop_last() =~= all_stats.take(k));
                assert(all_columns.take(k + 1).last() == c);
                assert(all_stats.take(k + 1).last() == s);
                k = k + 1;
            }
            out = out.insert(c.path, s);
        }
        proof {
            assert(all_columns.take(k) =~= all_columns);
            assert(all_stats.take(k) =~= all_stats);
        }
        (rows, out)
    }
}

/// The statistics of the columns by path, put one after the other.
pub open spec fn sealed(columns: Seq<Column>, stats: Seq<Stats>) -> Seq<(String, Stats)>
    decreases columns.len(),
{
    if columns.len() == 0 || stats.len() == 0 {
        Seq::empty()
    } else {
        with_column(sealed(columns.drop_last(), stats.drop_last()), columns.last().path, stats.last())
    }
}

/// Taking values one by one and taking them in two batches is the same.
pub proof fn lemma_numeric_fold_concat(
    s: NumericStats,
    first: Seq<Option<Float>>,
    second: Seq<Option<Float>>,
)
    ensures
        s.folded(first).folded(second) == s.folded(first + second),
    decreases second.len(),
{
    if second.len() == 0 {
        assert(first + second =~= first);
    } else {
        lemma_numeric_fold_concat(s, first, second.drop_last());
        assert((first + second).drop_last() =~= first + second.drop_last());
    }
}

/// Taking texts one by one and taking them in two batches is the same.
pub proof fn lemma_text_fold_concat(
    s: TextStatsView,
    first: Seq<Option<Seq<char>>>,
    second: Seq<Option<Seq<char>>>,
)
    ensures
        s.folded(first).folded(second) == s.folded(first + second),
    decreases second.len(),
{
    if second.len() == 0 {
        assert(first + second =~= first);
    } else {
        lemma_text_fold_concat(s, first, second.drop_last());
        assert((first + second).drop_last() =~= first + second.drop_last());
    }
}

} // verus!
