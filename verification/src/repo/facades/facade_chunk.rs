//! Recording a sealed chunk in the catalog.
//!
//! When a chunk is sealed, its column statistics are stored in two batches,
//! one of numeric and one of text columns. Each profiled column is first
//! resolved to its catalog identity, which is asked of the catalog; what is
//! asked and what the answers make of the batches is decided here.

use vstd::prelude::*;
use crate::repo::facades::facade_error::FacadeError;
use crate::repo::sql_models::records::{Chunk, Column, ColumnChunkLiteral, ColumnChunkNumeric};
use crate::text::{lex_lt, owned};
use crate::types::chunk::{ColumnsStats, Stats};

verus! {

/// The two batches of statistics rows of a chunk.
#[derive(Debug)]
pub struct StatsBatches {
    pub numeric: Vec<ColumnChunkNumeric>,
    pub literal: Vec<ColumnChunkLiteral>,
}

/// The profiled columns among `columns`, in order: those whose statistics
/// are not `Unsupported`.
pub open spec fn profiled(columns: Seq<(String, Stats)>) -> Seq<(String, Stats)> {
    columns.filter(is_profiled())
}

/// Whether a column is profiled.
pub open spec fn is_profiled() -> spec_fn((String, Stats)) -> bool {
    |c: (String, Stats)| !(c.1 is Unsupported)
}

/// Whether `row` is the row of the text statistics `stats` for the column
/// in the chunk.
pub open spec fn is_row_of(
    row: ColumnChunkLiteral,
    column_id: i32,
    chunk_id: i32,
    stats: crate::types::chunk::TextStats,
) -> bool {
    &&& row.column_id == column_id
    &&& row.chunk_id == chunk_id
    &&& row.min_value@ == stats.min@
    &&& row.max_value@ == stats.max@
    &&& row.has_null == stats.has_null
}

/// The statistics of a chunk on their way into the catalog.
#[derive(Debug)]
pub struct FacadeChunk {
    chunk: Chunk,
    pending: Vec<(String, Stats)>,
    next: usize,
    numeric: Vec<ColumnChunkNumeric>,
    literal: Vec<ColumnChunkLiteral>,
}

impl FacadeChunk {
    #[verifier::type_invariant]
    spec fn well_formed(&self) -> bool {
        self.next <= self.pending@.len()
    }

    /// The chunk.
    pub closed spec fn chunk(&self) -> Chunk {
        self.chunk
    }

    /// The profiled columns that are not resolved yet, in order.
    pub closed spec fn pending(&self) -> Seq<(String, Stats)> {
        self.pending@.skip(self.next as int)
    }

    /// The numeric rows gathered so far.
    pub closed spec fn numeric(&self) -> Seq<ColumnChunkNumeric> {
        self.numeric@
    }

    /// The text rows gathered so far.
    pub closed spec fn literal(&self) -> Seq<ColumnChunkLiteral> {
        self.literal@
    }

    /// Takes the statistics of a chunk that the catalog has stored. The
    /// columns that are not profiled are left out.
    pub fn create(chunk: Chunk, cstats: ColumnsStats) -> (r: FacadeChunk)
        ensures
            r.chunk() == chunk,
            r.pending() == profiled(cstats.entries()),
            r.numeric().len() == 0,
            r.literal().len() == 0,
    {
        let entries = cstats.into_entries();
        let ghost all = entries@;
        let mut pending: Vec<(String, Stats)> = Vec::new();
        proof {
            assert(all.take(0) =~= Seq::<(String, Stats)>::empty());
            assert(profiled(all.take(0)) =~= Seq::<(String, Stats)>::empty());
        }
        for entry in it: entries.into_iter()
            invariant
                it.seq() == all,
                pending@ == profiled(all.take(it.index() as int)),
        {
            proof {
                all.take(it.index() as int).lemma_filter_push(entry, is_profiled());
                assert(all.take(it.index() + 1) =~= all.take(it.index() as int).push(entry));
            }
            if !entry.1.is_unsupported() {
                pending.push(entry);
            }
        }
        proof {
            assert(all.take(all.len() as int) =~= all);
            assert(pending@.skip(0) =~= pending@);
        }
        FacadeChunk { chunk, pending, next: 0, numeric: Vec::new(), literal: Vec::new() }
    }

    /// The name of the next column to resolve; none when all are resolved.
    pub fn next_column(&self) -> (r: Option<&str>)
        ensures
            match r {
                Some(name) => self.pending().len() > 0 && name@ == self.pending()[0].0@,
                None => self.pending().len() == 0,
            },
    {
        proof {
            use_type_invariant(self);
        }
        if self.next < self.pending.len() {
            Some(self.pending[self.next].0.as_str())
        } else {
            None
        }
    }

    /// Takes the catalog identity of the next column and adds the row of its
    /// statistics to the batch of its kind. Text extrema whose minimum lies
    /// above the maximum are an error, and then nothing changes. With no
    /// column left nothing changes either.
    pub fn push_stats(self, column: &Column) -> (r: Result<FacadeChunk, FacadeError>)
        ensures
            match r {
                Ok(next) => next.chunk() == self.chunk() && if self.pending().len() == 0 {
                    next.pending() == self.pending() && next.numeric() == self.numeric()
                        && next.literal() == self.literal()
                } else {
                    next.pending() == self.pending().skip(1) && match self.pending()[0].1 {
                        Stats::Numeric(s) => next.literal() == self.literal() && next.numeric()
                            == self.numeric().push(
                            ColumnChunkNumeric {
                                column_id: column.column_id,
                                chunk_id: self.chunk().chunk_id,
                                min_value: s.min,
                                max_value: s.max,
                                has_null: s.has_null,
                                has_nan: s.has_nan,
                            },
                        ),
                        Stats::Text(s) => !lex_lt(s.max@, s.min@) && next.numeric()
                            == self.numeric() && next.literal().len() == self.literal().len() + 1
                            && next.literal().drop_last() == self.literal() && is_row_of(
                            next.literal().last(),
                            column.column_id,
                            self.chunk().chunk_id,
                            s,
                        ),
                        Stats::Unsupported => next.numeric() == self.numeric() && next.literal()
                            == self.literal(),
                    }
                },
                Err(_) => self.pending().len() > 0 && match self.pending()[0].1 {
                    Stats::Text(s) => lex_lt(s.max@, s.min@),
                    _ => false,
                },
            },
    {
        proof {
            use_type_invariant(&self);
        }
        let mut this = self;
        if this.next >= this.pending.len() {
            return Ok(this);
        }
        let ghost before = this.pending@.skip(this.next as int);
        proof {
            assert(before[0] == this.pending@[this.next as int]);
            assert(this.pending@.skip(this.next + 1) =~= before.skip(1));
        }
        let chunk_id = this.chunk.chunk_id;
        let FacadeChunk { chunk, pending, next, mut numeric, mut literal } = this;
        match &pending[next].1 {
            Stats::Numeric(s) => {
                numeric.push(
                    ColumnChunkNumeric::new(
                        column.column_id,
                        chunk_id,
                        s.min,
                        s.max,
                        s.has_null,
                        s.has_nan,
                    ),
                );
            },
            Stats::Text(s) => {
                let row = ColumnChunkLiteral::try_new(
                    column.column_id,
                    chunk_id,
                    s.min.clone(),
                    s.max.clone(),
                    s.has_null,
                );
                match row {
                    Ok(row) => {
                        let ghost old_literal = literal@;
                        literal.push(row);
                        assert(literal@.drop_last() =~= old_literal);
                    },
                    Err(_) => {
                        return Err(
                            FacadeError::RepositoryError(
                                owned("text statistics with a minimum above the maximum"),
                            ),
                        );
                    },
                }
            },
            Stats::Unsupported => {},
        }
        Ok(FacadeChunk { chunk, pending, next: next + 1, numeric, literal })
    }

    /// The two batches, once every column is resolved.
    pub fn finalize(self) -> (r: StatsBatches)
        ensures
            r.numeric@ == self.numeric(),
            r.literal@ == self.literal(),
    {
        StatsBatches { numeric: self.numeric, literal: self.literal }
    }
}

} // verus!
