//! Compiling expressions into the clauses of a relational query.
//!
//! A [`ClausesCompiler`] walks over expressions and hands each to a mapper,
//! which knows the dialect and the tables and gives back a clause with the
//! values to bind. The compiler gathers clauses and values in order and
//! remembers the first error; after an error it takes nothing more.

use vstd::prelude::*;
use crate::query::error::Error;
use crate::query::filter::{Expr, ExprGroup, IsSupportedOp, OntologyField, Op, Value};
use crate::text::{owned, str_eq};

verus! {

/// The text of a clause that constrains nothing.
pub const EMPTY_CLAUSE: &'static str = "()";

/// One clause of a query with the values that it binds, in order.
#[derive(Debug)]
pub struct CompiledClause {
    pub clause: String,
    pub values: Vec<Value>,
}

impl CompiledClause {
    /// The clause `clause` with the values `values`.
    pub fn new(clause: String, values: Vec<Value>) -> (r: CompiledClause)
        ensures
            r.clause == clause,
            r.values == values,
    {
        CompiledClause { clause, values }
    }

    /// The clause that constrains nothing.
    pub fn empty() -> (r: CompiledClause)
        ensures
            r.clause@ == EMPTY_CLAUSE@,
            r.values@.len() == 0,
    {
        CompiledClause { clause: owned(EMPTY_CLAUSE), values: Vec::new() }
    }

    /// Whether the clause constrains nothing.
    pub fn is_empty(&self) -> (r: bool)
        ensures
            r == (self.clause@ == EMPTY_CLAUSE@),
    {
        str_eq(self.clause.as_str(), EMPTY_CLAUSE)
    }

    /// The text and the values.
    pub fn into_parts(self) -> (r: (String, Vec<Value>))
        ensures
            r.0 == self.clause,
            r.1 == self.values,
    {
        (self.clause, self.values)
    }
}

/// What turns one test on a named column into a clause.
pub trait CompileClause {
    /// Whether the mapper, asked for the test `op` on the column `field`,
    /// may give `outcome` and be `after` from then on. Each mapper says
    /// this of itself; one that says nothing may give anything.
    open spec fn compiles<V: Into<Value> + IsSupportedOp>(
        &self,
        field: Seq<char>,
        op: Op<V>,
        outcome: Result<CompiledClause, Error>,
        after: &Self,
    ) -> bool {
        true
    }

    fn compile_clause<V>(&mut self, field: &str, op: Op<V>) -> (r: Result<
        CompiledClause,
        Error,
    >) where V: Into<Value> + IsSupportedOp
        ensures
            old(self).compiles(field@, op, r, &*final(self)),
    ;
}

/// What writes an ontology field as a column of the query.
pub trait OntologyFieldFmt {
    /// Whether the formatter may write `column` for a field. Each formatter
    /// says this of itself; one that says nothing may write anything.
    open spec fn formats(&self, val: &OntologyField, column: Seq<char>) -> bool {
        true
    }

    fn ontology_column_fmt(&self, val: &OntologyField) -> (r: String)
        ensures
            self.formats(val, r@),
    ;
}

/// The clauses of a query and the values that they bind, in order.
#[derive(Debug)]
pub struct CompilerResult {
    pub clauses: Vec<String>,
    pub values: Vec<Value>,
}

impl CompilerResult {
    fn new() -> (r: CompilerResult)
        ensures
            r.clauses@.len() == 0,
            r.values@.len() == 0,
    {
        CompilerResult { clauses: Vec::new(), values: Vec::new() }
    }

    /// Whether there is no clause, so that the query filters nothing.
    pub fn is_unfiltered(&self) -> (r: bool)
        ensures
            r == (self.clauses@.len() == 0),
    {
        self.clauses.is_empty()
    }
}

/// Gathers the clauses of a query, up to the first error.
#[derive(Debug)]
pub struct ClausesCompiler {
    result: CompilerResult,
    error: Option<Error>,
}

impl ClausesCompiler {
    /// The clauses gathered so far.
    pub closed spec fn clauses(&self) -> Seq<String> {
        self.result.clauses@
    }

    /// The values gathered so far.
    pub closed spec fn values(&self) -> Seq<Value> {
        self.result.values@
    }

    /// The first error, if there was one.
    pub closed spec fn error(&self) -> Option<Error> {
        self.error
    }

    /// The compiler after a mapper's answer: an error is kept, a clause and
    /// its values are added at the end. After an error nothing changes.
    pub open spec fn absorbs(&self, outcome: Result<CompiledClause, Error>, next: &ClausesCompiler)
        -> bool {
        if self.error() is Some {
            next.clauses() == self.clauses() && next.values() == self.values() && next.error()
                == self.error()
        } else {
            match outcome {
                Err(e) => next.clauses() == self.clauses() && next.values() == self.values()
                    && next.error() == Some(e),
                Ok(c) => next.clauses() == self.clauses().push(c.clause) && next.values()
                    == self.values() + c.values@ && next.error() is None,
            }
        }
    }

    /// Whether both compilers have gathered the same and hold the same
    /// error.
    pub open spec fn same_as(&self, other: &ClausesCompiler) -> bool {
        other.clauses() == self.clauses() && other.values() == self.values() && other.error()
            == self.error()
    }

    /// Whether `next` and `after` come out of the compiler and the mapper
    /// `before` by one test: after an error nothing changes and the mapper
    /// is not asked; otherwise the mapper is asked for the test `op` on the
    /// column `field`, and its answer is taken.
    pub open spec fn expr_step<F: CompileClause, V: Into<Value> + IsSupportedOp>(
        &self,
        field: Seq<char>,
        op: Op<V>,
        before: F,
        next: &ClausesCompiler,
        after: F,
    ) -> bool {
        if self.error() is Some {
            self.same_as(next) && after == before
        } else {
            exists|outcome: Result<CompiledClause, Error>|
                before.compiles(field, op, outcome, &after) && #[trigger] self.absorbs(outcome, next)
        }
    }

    /// Whether `next` and `after` come out of the compiler and the formatter
    /// `before` by the expressions in order: for each one the formatter
    /// writes the field as a column, and the test on that column is one
    /// step. After an error midway the formatter still writes the columns
    /// of the expressions that follow, and nothing else happens.
    pub open spec fn filter_steps<
        F: CompileClause + OntologyFieldFmt,
        V: Into<Value> + IsSupportedOp,
    >(&self, exprs: Seq<Expr<V>>, before: F, next: &ClausesCompiler, after: F) -> bool
        decreases exprs.len(),
    {
        if exprs.len() == 0 {
            self.same_as(next) && after == before
        } else {
            exists|mid: ClausesCompiler, between: F, column: Seq<char>|
                self.filter_steps(exprs.drop_last(), before, &mid, between) && between.formats(
                    &exprs.last().0,
                    column,
                ) && #[trigger] mid.expr_step(column, exprs.last().1, between, next, after)
        }
    }

    /// Whether `next` can come out of `self` by taking `n` more expressions:
    /// what was gathered is kept, and without an error there is one clause
    /// more for each expression.
    pub open spec fn extends_to(&self, next: &ClausesCompiler, n: int) -> bool {
        &&& self.clauses().is_prefix_of(next.clauses())
        &&& self.values().is_prefix_of(next.values())
        &&& self.error() is Some ==> next.clauses() == self.clauses() && next.values()
            == self.values() && next.error() == self.error()
        &&& next.error() is None ==> next.clauses().len() == self.clauses().len() + n
    }

    /// A compiler that has gathered nothing.
    pub fn new() -> (r: ClausesCompiler)
        ensures
            r.clauses().len() == 0,
            r.values().len() == 0,
            r.error() is None,
    {
        ClausesCompiler { result: CompilerResult::new(), error: None }
    }

    /// Takes the answer of a mapper.
    pub fn absorb(self, outcome: Result<CompiledClause, Error>) -> (r: ClausesCompiler)
        ensures
            self.absorbs(outcome, &r),
    {
        let mut this = self;
        if this.error.is_some() {
            return this;
        }
        match outcome {
            Err(err) => {
                this.error = Some(err);
                this
            },
            Ok(compiled) => {
                let (clause, mut values) = compiled.into_parts();
                this.result.clauses.push(clause);
                this.result.values.append(&mut values);
                this
            },
        }
    }

    /// Compiles the test `op` on the column `field` with `mapper` and takes
    /// the answer. After an error the mapper is not asked.
    pub fn expr<F, V>(self, field: &str, op: Op<V>, mapper: &mut F) -> (r: ClausesCompiler) where
        V: Into<Value> + IsSupportedOp,
        F: CompileClause,

        ensures
            self.expr_step(field@, op, *old(mapper), &r, *final(mapper)),
            self.extends_to(&r, 1),
            self.error() is Some ==> *final(mapper) == *old(mapper),
            self.error() is None && r.error() is None ==> r.clauses().len() == self.clauses().len()
                + 1,
    {
        if self.error.is_some() {
            return self;
        }
        let outcome = mapper.compile_clause(field, op);
        let r = self.absorb(outcome);
        assert(old(mapper).compiles(field@, op, outcome, &*mapper) && self.absorbs(outcome, &r));
        r
    }

    /// Compiles every expression of `filter` in order: `formatter` writes the
    /// field as a column and compiles the test on it. After an error nothing
    /// more is compiled.
    pub fn filter<F, V>(self, filter: ExprGroup<V>, formatter: &mut F) -> (r: ClausesCompiler) where
        V: Into<Value> + IsSupportedOp,
        F: CompileClause + OntologyFieldFmt,

        ensures
            self.error() is Some ==> self.same_as(&r),
            self.error() is None ==> self.filter_steps(
                filter.group@,
                *old(formatter),
                &r,
                *final(formatter),
            ),
            filter.group@.len() == 0 ==> self.same_as(&r) && *final(formatter) == *old(formatter),
            self.extends_to(&r, filter.group@.len() as int),
            self.error() is Some ==> *final(formatter) == *old(formatter),
    {
        if self.error.is_some() {
            return self;
        }
        let mut this = self;
        let ghost input = filter.group@;
        for expr in it: filter.group.into_iter()
            invariant
                it.seq() == input,
                self.extends_to(&this, it.index() as int),
                self.error() is None,
                self.filter_steps(input.take(it.index() as int), *old(formatter), &this, *formatter),
        {
            let ghost mid = this;
            let ghost between = *formatter;
            let ghost seen = input.take(it.index() as int);
            let (ontology_field, op) = expr.into_parts();
            let field = formatter.ontology_column_fmt(&ontology_field);
            this = this.expr(field.as_str(), op, formatter);
            proof {
                let grown = input.take(it.index() + 1);
                assert(grown.drop_last() =~= seen);
                assert(grown.last() == expr);
                assert(self.filter_steps(grown.drop_last(), *old(formatter), &mid, between));
                assert(between.formats(&grown.last().0, field@));
                assert(mid.expr_step(field@, grown.last().1, between, &this, *formatter));
            }
        }
        proof {
            assert(input.take(input.len() as int) =~= input);
        }
        this
    }

    /// The clauses and values, or the first error.
    pub fn compile(self) -> (r: Result<CompilerResult, Error>)
        ensures
            match r {
                Ok(result) => self.error() is None && result.clauses@ == self.clauses()
                    && result.values@ == self.values(),
                Err(e) => self.error() == Some(e),
            },
    {
        match self.error {
            Some(e) => Err(e),
            None => Ok(self.result),
        }
    }
}

impl Default for ClausesCompiler {
    fn default() -> (r: ClausesCompiler)
        ensures
            r.clauses().len() == 0,
            r.values().len() == 0,
            r.error() is None,
    {
        ClausesCompiler::new()
    }
}

} // verus!
