//! Per-column statistics of a chunk.
//!
//! While a chunk is written, every column of a supported type gets an
//! accumulator: [`NumericStats`] for numbers, [`TextStats`] for text. An
//! accumulator takes single values (`eval`) or the summary of a batch that
//! the encoder has already computed (`merge`), and both ways lead to the
//! same extrema.

use vstd::prelude::*;
use crate::text::{lex_lt, owned, str_eq, str_lt};
use crate::types::float::{Float, MAX_BITS, MIN_BITS};

verus! {

/// The extrema of a numeric column, with the presence of nulls and NaNs.
///
/// A fresh accumulator holds the largest finite value as its minimum and the
/// smallest as its maximum: the sign that nothing was observed.
#[derive(Debug, Clone, Copy)]
pub struct NumericStats {
    pub min: Float,
    pub max: Float,
    pub has_null: bool,
    pub has_nan: bool,
}

impl NumericStats {
    /// The accumulator that has observed nothing.
    pub open spec fn fresh() -> NumericStats {
        NumericStats {
            min: Float { bits: MAX_BITS },
            max: Float { bits: MIN_BITS },
            has_null: false,
            has_nan: false,
        }
    }

    /// Whether the extrema are such as observations leave them: both are
    /// numbers, the minimum not above the largest finite value and the
    /// maximum not below the smallest one.
    pub open spec fn wf(&self) -> bool {
        &&& !self.min.nan()
        &&& !self.max.nan()
        &&& self.min.key() <= MAX_BITS
        &&& self.max.key() >= -MAX_BITS
    }

    /// Whether the extrema are those of a fresh accumulator.
    pub open spec fn unobserved(&self) -> bool {
        self.min.bits == MAX_BITS && self.max.bits == MIN_BITS
    }

    /// Whether the minimum is not above the maximum, or nothing was observed.
    pub open spec fn ordered(&self) -> bool {
        self.wf() && (self.unobserved() || self.min.key() <= self.max.key())
    }

    /// Whether both accumulators stand for the same numbers and flags. The
    /// two zeros are one number.
    pub open spec fn same_numbers(&self, other: &NumericStats) -> bool {
        &&& self.min.key() == other.min.key()
        &&& self.max.key() == other.max.key()
        &&& self.has_null == other.has_null
        &&& self.has_nan == other.has_nan
    }

    /// The accumulator after one more value: a null, a NaN or a number.
    pub open spec fn evaled(self, val: Option<Float>) -> NumericStats {
        match val {
            None => NumericStats { has_null: true, ..self },
            Some(v) => if v.nan() {
                NumericStats { has_nan: true, ..self }
            } else {
                NumericStats {
                    min: if v.num_lt(self.min) {
                        v
                    } else {
                        self.min
                    },
                    max: if self.max.num_lt(v) {
                        v
                    } else {
                        self.max
                    },
                    ..self
                }
            },
        }
    }

    /// The accumulator after the summary of a batch: its least and greatest
    /// number, where it has any, and whether it holds nulls and NaNs.
    pub open spec fn merged(
        self,
        min: Option<Float>,
        max: Option<Float>,
        has_null: bool,
        has_nan: bool,
    ) -> NumericStats {
        NumericStats {
            min: match min {
                Some(m) => if m.num_lt(self.min) {
                    m
                } else {
                    self.min
                },
                None => self.min,
            },
            max: match max {
                Some(m) => if self.max.num_lt(m) {
                    m
                } else {
                    self.max
                },
                None => self.max,
            },
            has_null: self.has_null || has_null,
            has_nan: self.has_nan || has_nan,
        }
    }

    /// The accumulator after the values of `vals`, taken one by one.
    pub open spec fn folded(self, vals: Seq<Option<Float>>) -> NumericStats
        decreases vals.len(),
    {
        if vals.len() == 0 {
            self
        } else {
            self.folded(vals.drop_last()).evaled(vals.last())
        }
    }

    /// A fresh accumulator.
    pub fn new() -> (r: NumericStats)
        ensures
            r == NumericStats::fresh(),
            r.ordered(),
    {
        NumericStats {
            min: Float::max_value(),
            max: Float::min_value(),
            has_null: false,
            has_nan: false,
        }
    }

    /// Takes one value of the column: `None` is a null.
    pub fn eval(&mut self, val: &Option<Float>)
        ensures
            *final(self) == old(self).evaled(*val),
            old(self).wf() ==> final(self).wf(),
            old(self).ordered() ==> final(self).ordered(),
            old(self).wf() ==> match *val {
                Some(v) => !v.nan() ==> final(self).min.key() <= v.key() <= final(self).max.key(),
                None => true,
            },
    {
        match val {
            Some(v) => {
                let v: Float = *v;
                if v.is_nan() {
                    self.has_nan = true;
                } else {
                    if self.min > v {
                        self.min = v;
                    }
                    if self.max < v {
                        self.max = v;
                    }
                }
            },
            None => {
                self.has_null = true;
            },
        }
    }

    /// Takes the summary of a batch of values in place of the values.
    pub fn merge(&mut self, min: Option<Float>, max: Option<Float>, has_null: bool, has_nan: bool)
        ensures
            *final(self) == old(self).merged(min, max, has_null, has_nan),
            old(self).wf() ==> final(self).wf(),
            old(self).ordered() && coherent(min, max) ==> final(self).ordered(),
    {
        if let Some(min_val) = min {
            if self.min > min_val {
                self.min = min_val;
            }
        }
        if let Some(max_val) = max {
            if self.max < max_val {
                self.max = max_val;
            }
        }
        self.has_null = self.has_null || has_null;
        self.has_nan = self.has_nan || has_nan;
    }
}

/// Whether `min` and `max` can be the extrema of one batch: both absent, or
/// both numbers with `min` not above `max`.
pub open spec fn coherent(min: Option<Float>, max: Option<Float>) -> bool {
    match (min, max) {
        (None, None) => true,
        (Some(a), Some(b)) => a.num_le(b),
        _ => false,
    }
}

impl Default for NumericStats {
    fn default() -> (r: NumericStats)
        ensures
            r == NumericStats::fresh(),
    {
        NumericStats::new()
    }
}

impl PartialEq for NumericStats {
    fn eq(&self, other: &NumericStats) -> (r: bool) {
        self.min == other.min && self.max == other.max && self.has_null == other.has_null
            && self.has_nan == other.has_nan
    }
}

impl vstd::std_specs::cmp::PartialEqSpecImpl for NumericStats {
    open spec fn obeys_eq_spec() -> bool {
        true
    }

    open spec fn eq_spec(&self, other: &NumericStats) -> bool {
        self.min.num_eq(other.min) && self.max.num_eq(other.max) && self.has_null
            == other.has_null && self.has_nan == other.has_nan
    }
}

/// Two summaries may be merged in either order.
pub proof fn lemma_numeric_merge_commutes(
    s: NumericStats,
    min1: Option<Float>,
    max1: Option<Float>,
    null1: bool,
    nan1: bool,
    min2: Option<Float>,
    max2: Option<Float>,
    null2: bool,
    nan2: bool,
)
    requires
        s.wf(),
    ensures
        s.merged(min1, max1, null1, nan1).merged(min2, max2, null2, nan2).same_numbers(
            &s.merged(min2, max2, null2, nan2).merged(min1, max1, null1, nan1),
        ),
{
}

impl NumericStats {
    /// The accumulator after all that `other` has taken.
    pub open spec fn joined(self, other: NumericStats) -> NumericStats {
        self.merged(Some(other.min), Some(other.max), other.has_null, other.has_nan)
    }
}

/// Joining accumulators is commutative.
pub proof fn lemma_numeric_join_commutative(a: NumericStats, b: NumericStats)
    requires
        a.wf(),
        b.wf(),
    ensures
        a.joined(b).same_numbers(&b.joined(a)),
{
}

/// Joining accumulators is associative.
pub proof fn lemma_numeric_join_associative(a: NumericStats, b: NumericStats, c: NumericStats)
    requires
        a.wf(),
        b.wf(),
        c.wf(),
    ensures
        a.joined(b).joined(c).same_numbers(&a.joined(b.joined(c))),
{
}

/// Joining with a fresh accumulator changes nothing.
pub proof fn lemma_numeric_join_fresh(a: NumericStats)
    requires
        a.wf(),
    ensures
        a.joined(NumericStats::fresh()).same_numbers(&a),
        NumericStats::fresh().joined(a).same_numbers(&a),
{
}

/// Taking values one by one keeps the extrema numbers.
pub proof fn lemma_numeric_fold_wf(s: NumericStats, vals: Seq<Option<Float>>)
    requires
        s.wf(),
    ensures
        s.folded(vals).wf(),
        s.ordered() ==> s.folded(vals).ordered(),
    decreases vals.len(),
{
    if vals.len() > 0 {
        lemma_numeric_fold_wf(s, vals.drop_last());
    }
}

/// Merging what a second accumulator has folded from a batch is the same as
/// folding the batch into the first one: the encoder's summaries may stand
/// in for the values.
pub proof fn lemma_numeric_merge_is_fold(s: NumericStats, vals: Seq<Option<Float>>)
    requires
        s.wf(),
    ensures
        s.joined(NumericStats::fresh().folded(vals)).same_numbers(&s.folded(vals)),
    decreases vals.len(),
{
    let f = NumericStats::fresh();
    if vals.len() > 0 {
        lemma_numeric_merge_is_fold(s, vals.drop_last());
        lemma_numeric_fold_wf(f, vals.drop_last());
        lemma_numeric_fold_wf(s, vals.drop_last());
    }
}

/// The extrema bound every number that was taken.
pub proof fn lemma_numeric_fold_bounds(s: NumericStats, vals: Seq<Option<Float>>, i: int)
    requires
        s.wf(),
        0 <= i < vals.len(),
        vals[i] is Some,
        !vals[i]->Some_0.nan(),
    ensures
        s.folded(vals).min.key() <= vals[i]->Some_0.key() <= s.folded(vals).max.key(),
    decreases vals.len(),
{
    lemma_numeric_fold_wf(s, vals.drop_last());
    if i < vals.len() - 1 {
        lemma_numeric_fold_bounds(s, vals.drop_last(), i);
    }
}

/// What a [`TextStats`] holds, its texts by their characters.
pub struct TextStatsView {
    pub min: Seq<char>,
    pub max: Seq<char>,
    pub has_null: bool,
}

impl TextStatsView {
    /// The accumulator that has observed nothing: the empty text stands for
    /// an extremum that was never set.
    pub open spec fn fresh() -> TextStatsView {
        TextStatsView { min: Seq::empty(), max: Seq::empty(), has_null: false }
    }

    /// The accumulator after the summary of a batch: its least and greatest
    /// text, where it has any, and whether it holds nulls. An extremum that
    /// was never set gives way to any text.
    pub open spec fn merged(self, min: Option<Seq<char>>, max: Option<Seq<char>>, has_null: bool)
        -> TextStatsView {
        TextStatsView {
            min: match min {
                Some(m) => if self.min.len() == 0 || lex_lt(m, self.min) {
                    m
                } else {
                    self.min
                },
                None => self.min,
            },
            max: match max {
                Some(m) => if self.max.len() == 0 || lex_lt(self.max, m) {
                    m
                } else {
                    self.max
                },
                None => self.max,
            },
            has_null: self.has_null || has_null,
        }
    }

    /// The accumulator after one more value: a null or a text.
    pub open spec fn evaled(self, val: Option<Seq<char>>) -> TextStatsView {
        match val {
            None => TextStatsView { has_null: true, ..self },
            Some(v) => self.merged(Some(v), Some(v), false),
        }
    }

    /// The accumulator after the values of `vals`, taken one by one.
    pub open spec fn folded(self, vals: Seq<Option<Seq<char>>>) -> TextStatsView
        decreases vals.len(),
    {
        if vals.len() == 0 {
            self
        } else {
            self.folded(vals.drop_last()).evaled(vals.last())
        }
    }

    /// The accumulator after all that `other` has taken: an extremum that
    /// `other` never set changes nothing.
    pub open spec fn joined(self, other: TextStatsView) -> TextStatsView {
        self.merged(
            if other.min.len() == 0 {
                None
            } else {
                Some(other.min)
            },
            if other.max.len() == 0 {
                None
            } else {
                Some(other.max)
            },
            other.has_null,
        )
    }

    /// Whether the minimum is not above the maximum in lexicographic order.
    pub open spec fn ordered(self) -> bool {
        self.min == self.max || lex_lt(self.min, self.max)
    }
}

/// The extrema of a text column, with the presence of nulls.
#[derive(Debug, Clone)]
pub struct TextStats {
    pub min: String,
    pub max: String,
    pub has_null: bool,
}

impl View for TextStats {
    type V = TextStatsView;

    open spec fn view(&self) -> TextStatsView {
        TextStatsView { min: self.min@, max: self.max@, has_null: self.has_null }
    }
}

impl TextStats {
    /// A fresh accumulator.
    pub fn new() -> (r: TextStats)
        ensures
            r@ == TextStatsView::fresh(),
    {
        TextStats { min: String::new(), max: String::new(), has_null: false }
    }

    /// Takes one value of the column: `None` is a null.
    pub fn eval(&mut self, val: &Option<&str>)
        ensures
            final(self)@ == old(self)@.evaled(
                match *val {
                    Some(v) => Some(v@),
                    None => None,
                },
            ),
            old(self)@.ordered() ==> final(self)@.ordered(),
    {
        match val {
            Some(v) => {
                let v: &str = *v;
                proof {
                    crate::text::lemma_lex_total(v@, self.min@);
                    crate::text::lemma_lex_total(v@, self.max@);
                    crate::text::lemma_lex_total(self.min@, self.max@);
                    if lex_lt(v@, self.min@) && lex_lt(self.min@, self.max@) {
                        crate::text::lemma_lex_transitive(v@, self.min@, self.max@);
                    }
                    if lex_lt(self.min@, self.max@) && lex_lt(self.max@, v@) {
                        crate::text::lemma_lex_transitive(self.min@, self.max@, v@);
                    }
                }
                if self.min.as_str().is_empty() || str_lt(v, self.min.as_str()) {
                    self.min = owned(v);
                }
                if self.max.as_str().is_empty() || str_lt(self.max.as_str(), v) {
                    self.max = owned(v);
                }
            },
            None => {
                self.has_null = true;
            },
        }
    }

    /// The extrema and the null flag.
    pub fn into_owned(self) -> (r: (String, String, bool))
        ensures
            r.0 == self.min,
            r.1 == self.max,
            r.2 == self.has_null,
    {
        (self.min, self.max, self.has_null)
    }

    /// Takes the summary of a batch of values in place of the values.
    pub fn merge(&mut self, min: Option<&str>, max: Option<&str>, has_null: bool)
        ensures
            final(self)@ == old(self)@.merged(
                match min {
                    Some(m) => Some(m@),
                    None => None,
                },
                match max {
                    Some(m) => Some(m@),
                    None => None,
                },
                has_null,
            ),
            old(self)@.ordered() && text_coherent(min, max) ==> final(self)@.ordered(),
    {
        proof {
            lemma_text_order3(self.min@, self.max@, self.max@);
            if let (Some(a), Some(b)) = (min, max) {
                lemma_text_order3(self.min@, a@, b@);
                lemma_text_order3(self.max@, a@, b@);
            }
        }
        if let Some(min_val) = min {
            if self.min.as_str().is_empty() || str_lt(min_val, self.min.as_str()) {
                self.min = owned(min_val);
            }
        }
        if let Some(max_val) = max {
            if self.max.as_str().is_empty() || str_lt(self.max.as_str(), max_val) {
                self.max = owned(max_val);
            }
        }
        self.has_null = self.has_null || has_null;
    }
}

/// Whether `min` and `max` can be the extrema of one batch of texts: both
/// absent, or both present with `min` not above `max`.
pub open spec fn text_coherent(min: Option<&str>, max: Option<&str>) -> bool {
    match (min, max) {
        (None, None) => true,
        (Some(a), Some(b)) => !lex_lt(b@, a@),
        _ => false,
    }
}

impl Default for TextStats {
    fn default() -> (r: TextStats)
        ensures
            r@ == TextStatsView::fresh(),
    {
        TextStats::new()
    }
}

impl PartialEq for TextStats {
    fn eq(&self, other: &TextStats) -> (r: bool) {
        str_eq(self.min.as_str(), other.min.as_str()) && str_eq(
            self.max.as_str(),
            other.max.as_str(),
        ) && self.has_null == other.has_null
    }
}

impl vstd::std_specs::cmp::PartialEqSpecImpl for TextStats {
    open spec fn obeys_eq_spec() -> bool {
        true
    }

    open spec fn eq_spec(&self, other: &TextStats) -> bool {
        self@ == other@
    }
}

/// Whether none of the values is the empty text.
pub open spec fn no_empty_text(vals: Seq<Option<Seq<char>>>) -> bool {
    forall|i: int| 0 <= i < vals.len() ==> (#[trigger] vals[i]) != Some(Seq::<char>::empty())
}

/// Taking texts one by one keeps the minimum below or at the maximum.
pub proof fn lemma_text_fold_ordered(s: TextStatsView, vals: Seq<Option<Seq<char>>>)
    requires
        s.ordered(),
    ensures
        s.folded(vals).ordered(),
    decreases vals.len(),
{
    if vals.len() > 0 {
        lemma_text_fold_ordered(s, vals.drop_last());
        let f = s.folded(vals.drop_last());
        lemma_text_order3(f.min, f.max, text_or_empty(vals.last()));
    }
}

/// Where no text that was taken is empty, the extrema bound every text
/// that was taken, and they are set as soon as one was.
pub proof fn lemma_text_fold_bounds(vals: Seq<Option<Seq<char>>>, i: int)
    requires
        no_empty_text(vals),
        0 <= i < vals.len(),
        vals[i] is Some,
    ensures
        !lex_lt(vals[i]->Some_0, TextStatsView::fresh().folded(vals).min),
        !lex_lt(TextStatsView::fresh().folded(vals).max, vals[i]->Some_0),
        TextStatsView::fresh().folded(vals).min.len() > 0,
    decreases vals.len(),
{
    let head = vals.drop_last();
    let f = TextStatsView::fresh().folded(head);
    let t = vals[i]->Some_0;
    assert(no_empty_text(head)) by {
        assert forall|j: int| 0 <= j < head.len() implies (#[trigger] head[j]) != Some(
            Seq::<char>::empty(),
        ) by {
            assert(head[j] == vals[j]);
        }
    }
    assert(vals.last() != Some(Seq::<char>::empty()));
    if vals.last() is Some {
        assert(vals.last()->Some_0 != Seq::<char>::empty());
        assert(vals.last()->Some_0.len() > 0) by {
            if vals.last()->Some_0.len() == 0 {
                assert(vals.last()->Some_0 =~= Seq::<char>::empty());
            }
        }
    }
    if i < vals.len() - 1 {
        lemma_text_fold_bounds(head, i);
        lemma_text_order3(f.min, t, text_or_empty(vals.last()));
        lemma_text_order3(f.max, t, text_or_empty(vals.last()));
    } else {
        lemma_text_order3(f.min, t, t);
        lemma_text_order3(f.max, t, t);
    }
}

/// Merging what a second accumulator has folded from a batch is the same as
/// folding the batch into the first one, where no text of the batch is
/// empty.
pub proof fn lemma_text_merge_is_fold(s: TextStatsView, vals: Seq<Option<Seq<char>>>)
    requires
        no_empty_text(vals),
    ensures
        s.joined(TextStatsView::fresh().folded(vals)) == s.folded(vals),
    decreases vals.len(),
{
    if vals.len() > 0 {
        let head = vals.drop_last();
        assert(no_empty_text(head)) by {
            assert forall|j: int| 0 <= j < head.len() implies (#[trigger] head[j]) != Some(
                Seq::<char>::empty(),
            ) by {
                assert(head[j] == vals[j]);
            }
        }
        lemma_text_merge_is_fold(s, head);
        let f = TextStatsView::fresh().folded(head);
        assert(vals.last() != Some(Seq::<char>::empty()));
        if let Some(t) = vals.last() {
            assert(t.len() > 0) by {
                if t.len() == 0 {
                    assert(t =~= Seq::<char>::empty());
                }
            }
            lemma_text_order3(s.min, f.min, t);
            lemma_text_order3(s.max, f.max, t);
        }
    } else {
        assert(TextStatsView::fresh().min.len() == 0);
    }
}

/// Whether a summary names no empty minimum. The empty text is both the
/// least text and the sign of a minimum that was never set, so a summary
/// whose minimum is the empty text does not merge like the others.
pub open spec fn names_minimum(min: Option<Seq<char>>) -> bool {
    match min {
        Some(m) => m.len() > 0,
        None => true,
    }
}

/// Two summaries may be merged in either order, where neither names the
/// empty text as its minimum.
pub proof fn lemma_text_merge_commutes(
    s: TextStatsView,
    min1: Option<Seq<char>>,
    max1: Option<Seq<char>>,
    null1: bool,
    min2: Option<Seq<char>>,
    max2: Option<Seq<char>>,
    null2: bool,
)
    requires
        names_minimum(min1),
        names_minimum(min2),
    ensures
        s.merged(min1, max1, null1).merged(min2, max2, null2) == s.merged(min2, max2, null2).merged(
            min1,
            max1,
            null1,
        ),
{
    lemma_text_order3(s.min, text_or_empty(min1), text_or_empty(min2));
    lemma_text_order3(s.max, text_or_empty(max1), text_or_empty(max2));
}

/// Whether `lex_lt` orders the two texts as a strict total order does.
pub open spec fn ordered_pair(x: Seq<char>, y: Seq<char>) -> bool {
    &&& !lex_lt(x, x)
    &&& !lex_lt(y, y)
    &&& !(lex_lt(x, y) && lex_lt(y, x))
    &&& (x != y ==> lex_lt(x, y) || lex_lt(y, x))
    &&& (x.len() == 0 ==> !lex_lt(y, x))
    &&& (y.len() == 0 ==> !lex_lt(x, y))
}

/// Whether `lex_lt` is transitive from `x` through `y` to `z`.
pub open spec fn chained(x: Seq<char>, y: Seq<char>, z: Seq<char>) -> bool {
    lex_lt(x, y) && lex_lt(y, z) ==> lex_lt(x, z)
}

/// The lexicographic order is a strict total order on any three texts.
pub proof fn lemma_text_order3(a: Seq<char>, b: Seq<char>, c: Seq<char>)
    ensures
        ordered_pair(a, b),
        ordered_pair(a, c),
        ordered_pair(b, c),
        chained(a, b, c),
        chained(a, c, b),
        chained(b, a, c),
        chained(b, c, a),
        chained(c, a, b),
        chained(c, b, a),
{
    crate::text::lemma_lex_irreflexive(a);
    crate::text::lemma_lex_irreflexive(b);
    crate::text::lemma_lex_irreflexive(c);
    crate::text::lemma_lex_total(a, b);
    crate::text::lemma_lex_total(a, c);
    crate::text::lemma_lex_total(b, c);
    if lex_lt(a, b) && lex_lt(b, c) {
        crate::text::lemma_lex_transitive(a, b, c);
    }
    if lex_lt(a, c) && lex_lt(c, b) {
        crate::text::lemma_lex_transitive(a, c, b);
    }
    if lex_lt(b, a) && lex_lt(a, c) {
        crate::text::lemma_lex_transitive(b, a, c);
    }
    if lex_lt(b, c) && lex_lt(c, a) {
        crate::text::lemma_lex_transitive(b, c, a);
    }
    if lex_lt(c, a) && lex_lt(a, b) {
        crate::text::lemma_lex_transitive(c, a, b);
    }
    if lex_lt(c, b) && lex_lt(b, a) {
        crate::text::lemma_lex_transitive(c, b, a);
    }
}

/// The text of an optional one, or the empty text.
pub open spec fn text_or_empty(t: Option<Seq<char>>) -> Seq<char> {
    match t {
        Some(x) => x,
        None => Seq::empty(),
    }
}

/// Joining accumulators is commutative.
pub proof fn lemma_text_join_commutative(a: TextStatsView, b: TextStatsView)
    ensures
        a.joined(b) == b.joined(a),
{
    lemma_text_order3(a.min, b.min, b.min);
    lemma_text_order3(a.max, b.max, b.max);
    assert(a.min.len() == 0 && b.min.len() == 0 ==> a.min =~= b.min);
    assert(a.max.len() == 0 && b.max.len() == 0 ==> a.max =~= b.max);
}

/// Joining accumulators is associative.
pub proof fn lemma_text_join_associative(a: TextStatsView, b: TextStatsView, c: TextStatsView)
    ensures
        a.joined(b).joined(c) == a.joined(b.joined(c)),
{
    lemma_text_order3(a.min, b.min, c.min);
    lemma_text_order3(a.max, b.max, c.max);
}

/// The statistics of one column.
#[derive(Debug)]
pub enum Stats {
    Numeric(NumericStats),
    Text(TextStats),
    /// A column of a type that is not profiled. Such a column is never
    /// indexed.
    Unsupported,
}

impl Stats {
    /// Whether the column is of a type that is not profiled.
    pub fn is_unsupported(&self) -> (r: bool)
        ensures
            r == (self is Unsupported),
    {
        match self {
            Stats::Unsupported => true,
            _ => false,
        }
    }
}

impl PartialEq for Stats {
    fn eq(&self, other: &Stats) -> (r: bool) {
        match (self, other) {
            (Stats::Numeric(a), Stats::Numeric(b)) => *a == *b,
            (Stats::Text(a), Stats::Text(b)) => *a == *b,
            (Stats::Unsupported, Stats::Unsupported) => true,
            _ => false,
        }
    }
}

impl vstd::std_specs::cmp::PartialEqSpecImpl for Stats {
    open spec fn obeys_eq_spec() -> bool {
        true
    }

    open spec fn eq_spec(&self, other: &Stats) -> bool {
        match (self, other) {
            (Stats::Numeric(a), Stats::Numeric(b)) => a.min.num_eq(b.min) && a.max.num_eq(b.max)
                && a.has_null == b.has_null && a.has_nan == b.has_nan,
            (Stats::Text(a), Stats::Text(b)) => a@ == b@,
            (Stats::Unsupported, Stats::Unsupported) => true,
            _ => false,
        }
    }
}

/// The position of the first column called `name`, or the number of columns
/// where none is.
pub open spec fn column_index(columns: Seq<(String, Stats)>, name: Seq<char>) -> nat
    decreases columns.len(),
{
    if columns.len() == 0 || columns[0].0@ == name {
        0
    } else {
        1 + column_index(columns.drop_first(), name)
    }
}

/// Whether no two columns have one name.
pub open spec fn distinct_names(columns: Seq<(String, Stats)>) -> bool {
    forall|i: int, j: int|
        0 <= i < j < columns.len() ==> (#[trigger] columns[i]).0@ != (#[trigger] columns[j]).0@
}

/// `column_index` is the one position that has no column of that name
/// before it and that holds one or is the end.
pub proof fn lemma_column_index(columns: Seq<(String, Stats)>, name: Seq<char>, n: int)
    requires
        0 <= n <= columns.len(),
        forall|j: int| 0 <= j < n ==> (#[trigger] columns[j]).0@ != name,
        n < columns.len() ==> columns[n].0@ == name,
    ensures
        column_index(columns, name) == n,
    decreases columns.len(),
{
    if n > 0 {
        let rest = columns.drop_first();
        assert(columns[0].0@ != name);
        assert forall|j: int| 0 <= j < n - 1 implies (#[trigger] rest[j]).0@ != name by {
            assert(rest[j] == columns[j + 1]);
        }
        lemma_column_index(rest, name, n - 1);
    }
}

/// The columns with the statistics of the column `name` set to `stats`: in
/// place of the first column of that name, or at the end.
pub open spec fn with_column(columns: Seq<(String, Stats)>, name: String, stats: Stats) -> Seq<
    (String, Stats),
> {
    if column_index(columns, name@) < columns.len() {
        columns.update(column_index(columns, name@) as int, (name, stats))
    } else {
        columns.push((name, stats))
    }
}

/// The statistics of the columns of a chunk, by column name.
#[derive(Debug)]
pub struct ColumnsStats {
    stats: Vec<(String, Stats)>,
}

impl ColumnsStats {
    #[verifier::type_invariant]
    spec fn well_formed(&self) -> bool {
        distinct_names(self.stats@)
    }

    /// The columns with their statistics, oldest column first.
    pub closed spec fn entries(&self) -> Seq<(String, Stats)> {
        self.stats@
    }

    /// No statistics.
    pub fn empty() -> (r: ColumnsStats)
        ensures
            r.entries().len() == 0,
    {
        ColumnsStats { stats: Vec::new() }
    }

    /// The number of columns.
    pub fn len(&self) -> (r: usize)
        ensures
            r == self.entries().len(),
    {
        self.stats.len()
    }

    /// The statistics with those of the column `name` set to `stats`, in
    /// place of earlier ones of that column.
    pub fn insert(self, name: String, stats: Stats) -> (r: ColumnsStats)
        ensures
            r.entries() == with_column(self.entries(), name, stats),
    {
        proof {
            use_type_invariant(&self);
        }
        let mut columns = self.stats;
        let ghost before = columns@;
        let mut k: usize = 0;
        while k < columns.len()
            invariant
                columns@ == before,
                before == self.entries(),
                0 <= k <= before.len(),
                distinct_names(before),
                forall|i: int| 0 <= i < k ==> (#[trigger] before[i]).0@ != name@,
            decreases before.len() - k,
        {
            if str_eq(columns[k].0.as_str(), name.as_str()) {
                proof {
                    lemma_column_index(before, name@, k as int);
                }
                columns[k] = (name, stats);
                assert(columns@ =~= before.update(k as int, (name, stats)));
                return ColumnsStats { stats: columns };
            }
            k = k + 1;
        }
        proof {
            lemma_column_index(before, name@, before.len() as int);
        }
        columns.push((name, stats));
        ColumnsStats { stats: columns }
    }

    /// The statistics of the column `name`, if it has any.
    pub fn get(&self, name: &str) -> (r: Option<&Stats>)
        ensures
            match r {
                Some(stats) => column_index(self.entries(), name@) < self.entries().len()
                    && *stats == self.entries()[column_index(self.entries(), name@) as int].1,
                None => column_index(self.entries(), name@) >= self.entries().len(),
            },
    {
        let mut k: usize = 0;
        while k < self.stats.len()
            invariant
                0 <= k <= self.stats@.len(),
                forall|i: int| 0 <= i < k ==> (#[trigger] self.stats@[i]).0@ != name@,
            decreases self.stats@.len() - k,
        {
            if str_eq(self.stats[k].0.as_str(), name) {
                proof {
                    lemma_column_index(self.stats@, name@, k as int);
                }
                return Some(&self.stats[k].1);
            }
            k = k + 1;
        }
        proof {
            lemma_column_index(self.stats@, name@, self.stats@.len() as int);
        }
        None
    }

    /// The columns with their statistics: no two of them have one name.
    pub fn into_entries(self) -> (r: Vec<(String, Stats)>)
        ensures
            r@ == self.entries(),
            distinct_names(r@),
    {
        proof {
            use_type_invariant(&self);
        }
        self.stats
    }
}

} // verus!
