//! Search and filtering primitives.
//!
//! A filter is built from four layers. A [`Value`] is one scalar of any of
//! the supported kinds. An [`Op`] is a predicate over values: equality, an
//! order test, a range, membership in a set, a pattern, or presence. An
//! [`Expr`] binds an [`OntologyField`] to an operator. A [`Filter`] gathers
//! the expressions by domain: sequence, topic and ontology data.

use vstd::prelude::*;
use std::cmp::Ordering;
use vstd::std_specs::cmp::{PartialOrdIs, PartialOrdSpec};
use vstd::seq_lib::lemma_multiset_commutative;
use vstd::string::StrSliceExecFns;
use crate::query::error::{Error, OpError};
use crate::text::{lex_lt, owned, str_eq, str_lt};
use crate::types::float::{Float, ONE_BITS};
use crate::types::timestamp::Timestamp;

verus! {

/// Text values.
pub type Text = String;

/// One scalar of any supported kind.
#[derive(Debug)]
pub enum Value {
    Integer(i64),
    Float(Float),
    Text(Text),
    Boolean(bool),
}

/// What a [`Value`] holds: its kind and its scalar, a text by its characters
/// and a float by its bits.
pub enum ValueView {
    Integer(i64),
    Float(Float),
    Text(Seq<char>),
    Boolean(bool),
}

impl View for Value {
    type V = ValueView;

    open spec fn view(&self) -> ValueView {
        match self {
            Value::Integer(v) => ValueView::Integer(*v),
            Value::Float(v) => ValueView::Float(*v),
            Value::Text(v) => ValueView::Text(v@),
            Value::Boolean(v) => ValueView::Boolean(*v),
        }
    }
}

impl Value {
    /// The position of the variant: values of different kinds are ordered by
    /// it.
    pub open spec fn rank(&self) -> int {
        match self {
            Value::Integer(_) => 0,
            Value::Float(_) => 1,
            Value::Text(_) => 2,
            Value::Boolean(_) => 3,
        }
    }

    /// Whether the two values are of one kind and equal in it. Texts are
    /// equal when their characters are; floats when they are numerically.
    pub open spec fn same(&self, other: &Value) -> bool {
        match (self, other) {
            (Value::Integer(a), Value::Integer(b)) => *a == *b,
            (Value::Float(a), Value::Float(b)) => a.num_eq(*b),
            (Value::Text(a), Value::Text(b)) => a@ == b@,
            (Value::Boolean(a), Value::Boolean(b)) => *a == *b,
            _ => false,
        }
    }

    /// Whether `self` comes strictly before `other`: by kind first, within a
    /// kind by the value. False comes before true.
    pub open spec fn before(&self, other: &Value) -> bool {
        match (self, other) {
            (Value::Integer(a), Value::Integer(b)) => *a < *b,
            (Value::Float(a), Value::Float(b)) => a.num_lt(*b),
            (Value::Text(a), Value::Text(b)) => lex_lt(a@, b@),
            (Value::Boolean(a), Value::Boolean(b)) => !*a && *b,
            _ => self.rank() < other.rank(),
        }
    }

    /// Whether the two values can be compared at all: two floats cannot when
    /// one of them is a NaN.
    pub open spec fn comparable(&self, other: &Value) -> bool {
        match (self, other) {
            (Value::Float(a), Value::Float(b)) => !a.nan() && !b.nan(),
            _ => true,
        }
    }

    /// The text value that holds the characters of `s`.
    pub fn text(s: &str) -> (r: Value)
        ensures
            r@ == ValueView::Text(s@),
    {
        Value::Text(owned(s))
    }

    /// A copy of the value.
    pub fn duplicate(&self) -> (r: Value)
        ensures
            r@ == self@,
    {
        match self {
            Value::Integer(v) => Value::Integer(*v),
            Value::Float(v) => Value::Float(*v),
            Value::Text(v) => Value::Text(v.clone()),
            Value::Boolean(v) => Value::Boolean(*v),
        }
    }
}

impl Clone for Value {
    fn clone(&self) -> (r: Value) {
        self.duplicate()
    }
}

impl PartialEq for Value {
    fn eq(&self, other: &Value) -> (r: bool) {
        match (self, other) {
            (Value::Integer(a), Value::Integer(b)) => *a == *b,
            (Value::Float(a), Value::Float(b)) => *a == *b,
            (Value::Text(a), Value::Text(b)) => str_eq(a.as_str(), b.as_str()),
            (Value::Boolean(a), Value::Boolean(b)) => *a == *b,
            _ => false,
        }
    }
}

impl vstd::std_specs::cmp::PartialEqSpecImpl for Value {
    open spec fn obeys_eq_spec() -> bool {
        true
    }

    open spec fn eq_spec(&self, other: &Value) -> bool {
        self.same(other)
    }
}

impl PartialOrd for Value {
    fn partial_cmp(&self, other: &Value) -> (r: Option<Ordering>) {
        match (self, other) {
            (Value::Integer(a), Value::Integer(b)) => {
                if *a < *b {
                    Some(Ordering::Less)
                } else if *a > *b {
                    Some(Ordering::Greater)
                } else {
                    Some(Ordering::Equal)
                }
            },
            (Value::Float(a), Value::Float(b)) => a.partial_cmp(b),
            (Value::Text(a), Value::Text(b)) => {
                proof {
                    crate::text::lemma_lex_total(a@, b@);
                }
                if str_lt(a.as_str(), b.as_str()) {
                    Some(Ordering::Less)
                } else if str_eq(a.as_str(), b.as_str()) {
                    Some(Ordering::Equal)
                } else {
                    Some(Ordering::Greater)
                }
            },
            (Value::Boolean(a), Value::Boolean(b)) => {
                if !*a && *b {
                    Some(Ordering::Less)
                } else if *a && !*b {
                    Some(Ordering::Greater)
                } else {
                    Some(Ordering::Equal)
                }
            },
            _ => {
                let x: u8 = self.rank_of();
                let y: u8 = other.rank_of();
                if x < y {
                    Some(Ordering::Less)
                } else {
                    Some(Ordering::Greater)
                }
            },
        }
    }
}

impl vstd::std_specs::cmp::PartialOrdSpecImpl for Value {
    open spec fn obeys_partial_cmp_spec() -> bool {
        true
    }

    open spec fn partial_cmp_spec(&self, other: &Value) -> Option<Ordering> {
        if !self.comparable(other) {
            None
        } else if self.before(other) {
            Some(Ordering::Less)
        } else if self.same(other) {
            Some(Ordering::Equal)
        } else {
            Some(Ordering::Greater)
        }
    }
}

impl Value {
    /// The position of the variant as a machine integer.
    pub fn rank_of(&self) -> (r: u8)
        ensures
            r == self.rank(),
    {
        match self {
            Value::Integer(_) => 0,
            Value::Float(_) => 1,
            Value::Text(_) => 2,
            Value::Boolean(_) => 3,
        }
    }
}

/// Which operators a kind of operand supports. The answers are given when
/// a filter is compiled, not when it is built; what a type does not claim, it
/// does not support.
pub trait IsSupportedOp {
    /// Whether equality tests apply.
    open spec fn eq_supported(&self) -> bool {
        false
    }

    /// Whether order tests and ranges apply.
    open spec fn ordering_supported(&self) -> bool {
        false
    }

    /// Whether membership in a set applies.
    open spec fn in_supported(&self) -> bool {
        false
    }

    /// Whether pattern matching applies.
    open spec fn match_supported(&self) -> bool {
        false
    }

    fn support_eq(&self) -> (r: bool)
        ensures
            r == self.eq_supported(),
    ;

    fn support_ordering(&self) -> (r: bool)
        ensures
            r == self.ordering_supported(),
    ;

    fn support_in(&self) -> (r: bool)
        ensures
            r == self.in_supported(),
    ;

    fn support_match(&self) -> (r: bool)
        ensures
            r == self.match_supported(),
    ;
}

impl IsSupportedOp for Value {
    open spec fn eq_supported(&self) -> bool {
        true
    }

    open spec fn ordering_supported(&self) -> bool {
        self is Integer || self is Float
    }

    open spec fn in_supported(&self) -> bool {
        self is Integer || self is Text || self is Boolean
    }

    open spec fn match_supported(&self) -> bool {
        self is Text
    }

    fn support_eq(&self) -> (r: bool) {
        true
    }

    fn support_ordering(&self) -> (r: bool) {
        match self {
            Value::Text(_) => false,
            Value::Boolean(_) => false,
            Value::Integer(_) => true,
            Value::Float(_) => true,
        }
    }

    fn support_in(&self) -> (r: bool) {
        match self {
            Value::Float(_) => false,
            _ => true,
        }
    }

    fn support_match(&self) -> (r: bool) {
        match self {
            Value::Text(_) => true,
            _ => false,
        }
    }
}

impl IsSupportedOp for bool {
    open spec fn eq_supported(&self) -> bool {
        true
    }

    fn support_eq(&self) -> (r: bool) {
        true
    }

    fn support_ordering(&self) -> (r: bool) {
        false
    }

    fn support_in(&self) -> (r: bool) {
        false
    }

    fn support_match(&self) -> (r: bool) {
        false
    }
}

impl IsSupportedOp for i64 {
    open spec fn eq_supported(&self) -> bool {
        true
    }

    open spec fn ordering_supported(&self) -> bool {
        true
    }

    open spec fn in_supported(&self) -> bool {
        true
    }

    fn support_eq(&self) -> (r: bool) {
        true
    }

    fn support_ordering(&self) -> (r: bool) {
        true
    }

    fn support_in(&self) -> (r: bool) {
        true
    }

    fn support_match(&self) -> (r: bool) {
        false
    }
}

impl IsSupportedOp for Text {
    open spec fn eq_supported(&self) -> bool {
        true
    }

    open spec fn in_supported(&self) -> bool {
        true
    }

    open spec fn match_supported(&self) -> bool {
        true
    }

    fn support_eq(&self) -> (r: bool) {
        true
    }

    fn support_ordering(&self) -> (r: bool) {
        false
    }

    fn support_in(&self) -> (r: bool) {
        true
    }

    fn support_match(&self) -> (r: bool) {
        true
    }
}

/// A closed range of values.
#[derive(Debug, Clone)]
pub struct Range<T> {
    pub min: T,
    pub max: T,
}

impl<T: PartialOrd> Range<T> {
    /// The range from `min` to `max`, which must not lie above `max`.
    pub fn try_new(min: T, max: T) -> (r: Result<Range<T>, OpError>)
        ensures
            T::obeys_partial_cmp_spec() ==> (r is Ok <==> min.is_le(&max)),
            r matches Ok(range) ==> range.min == min && range.max == max,
            r matches Err(e) ==> e == OpError::EmptyRange,
    {
        if min <= max {
            Ok(Range { min, max })
        } else {
            Err(OpError::EmptyRange)
        }
    }
}

/// The test that an expression applies to a field.
#[derive(Debug, Clone)]
pub enum Op<T> {
    /// Equal to the value.
    Eq(T),
    /// Different from the value.
    Neq(T),
    /// Less than or equal to the value.
    Leq(T),
    /// Greater than or equal to the value.
    Geq(T),
    /// Less than the value.
    Lt(T),
    /// Greater than the value.
    Gt(T),
    /// The field is present.
    Ex,
    /// The field is absent.
    Nex,
    /// Within the closed range.
    Between(Range<T>),
    /// One of the values.
    In(Vec<T>),
    /// Matches the pattern.
    Match(T),
}

impl<T: IsSupportedOp> Op<T> {
    /// Whether the operand supports the operator. Presence tests apply to
    /// every field. A range goes by its lower bound and a set by its first
    /// member; the empty set names no operand and is supported.
    pub open spec fn supported(&self) -> bool {
        match self {
            Op::Eq(v) => v.eq_supported(),
            Op::Neq(v) => v.eq_supported(),
            Op::Leq(v) => v.ordering_supported(),
            Op::Geq(v) => v.ordering_supported(),
            Op::Lt(v) => v.ordering_supported(),
            Op::Gt(v) => v.ordering_supported(),
            Op::Ex => true,
            Op::Nex => true,
            Op::Between(range) => range.min.ordering_supported(),
            Op::In(items) => items@.len() > 0 ==> items@[0].in_supported(),
            Op::Match(v) => v.match_supported(),
        }
    }

    /// Whether the operand supports the operator.
    pub fn is_supported_op(&self) -> (r: bool)
        ensures
            r == self.supported(),
    {
        match self {
            Op::Eq(v) => v.support_eq(),
            Op::Neq(v) => v.support_eq(),
            Op::Leq(v) => v.support_ordering(),
            Op::Geq(v) => v.support_ordering(),
            Op::Lt(v) => v.support_ordering(),
            Op::Gt(v) => v.support_ordering(),
            Op::Ex => true,
            Op::Nex => true,
            Op::Between(range) => range.min.support_ordering(),
            Op::In(items) => {
                if items.len() == 0 {
                    true
                } else {
                    items[0].support_in()
                }
            },
            Op::Match(v) => v.support_match(),
        }
    }
}

/// The length of the ontology tag of a dotted path: the number of
/// characters before its first dot, or all of them where it has none.
pub open spec fn tag_len(path: Seq<char>) -> nat
    decreases path.len(),
{
    if path.len() == 0 || path[0] == '.' {
        0
    } else {
        1 + tag_len(path.drop_first())
    }
}

/// The ontology tag of a dotted path: what stands before its first dot.
pub open spec fn tag_of(path: Seq<char>) -> Seq<char> {
    path.subrange(0, tag_len(path) as int)
}

/// Whether a path holds a dot, so that it has a tag and a field part.
pub open spec fn has_dot(path: Seq<char>) -> bool {
    tag_len(path) < path.len()
}

/// The field part of a dotted path: what follows its first dot; empty where
/// the path has no dot.
pub open spec fn field_of(path: Seq<char>) -> Seq<char> {
    if tag_len(path) < path.len() {
        path.subrange(tag_len(path) as int + 1, path.len() as int)
    } else {
        Seq::empty()
    }
}

/// `tag_len` is the one position that has no dot before it and that is
/// either a dot or the end of the path.
pub proof fn lemma_tag_len(path: Seq<char>, n: int)
    requires
        0 <= n <= path.len(),
        forall|j: int| 0 <= j < n ==> path[j] != '.',
        n < path.len() ==> path[n] == '.',
    ensures
        tag_len(path) == n,
    decreases path.len(),
{
    if n > 0 {
        let rest = path.drop_first();
        assert forall|j: int| 0 <= j < n - 1 implies rest[j] != '.' by {
            assert(rest[j] == path[j + 1]);
        }
        lemma_tag_len(rest, n - 1);
    }
}

/// The tag of a path ends within the path and holds no dot.
pub proof fn lemma_tag_len_bounds(path: Seq<char>)
    ensures
        tag_len(path) <= path.len(),
        forall|j: int| 0 <= j < tag_len(path) ==> path[j] != '.',
        tag_len(path) < path.len() ==> path[tag_len(path) as int] == '.',
    decreases path.len(),
{
    if path.len() > 0 && path[0] != '.' {
        let rest = path.drop_first();
        lemma_tag_len_bounds(rest);
        assert forall|j: int| 0 <= j < tag_len(path) implies path[j] != '.' by {
            if j > 0 {
                assert(path[j] == rest[j - 1]);
            }
        }
    }
}

/// A dotted path `tag.sub1.sub2`: the ontology tag, then the field within
/// the data of that ontology.
#[derive(Debug)]
pub struct OntologyField {
    value: String,
    tag_offset: usize,
}

impl View for OntologyField {
    type V = Seq<char>;

    closed spec fn view(&self) -> Seq<char> {
        self.value@
    }
}

impl OntologyField {
    #[verifier::type_invariant]
    spec fn well_formed(&self) -> bool {
        self.tag_offset == tag_len(self.value@) && self.tag_offset < self.value@.len()
    }

    /// The field with the given path. A path is a tag, a dot, and the field
    /// within the data of the tag: a path without a dot is malformed.
    pub fn try_new(v: String) -> (r: Result<OntologyField, Error>)
        ensures
            match r {
                Ok(f) => has_dot(v@) && f@ == v@,
                Err(Error::BadField { field }) => !has_dot(v@) && field@ == v@,
                Err(_) => false,
            },
    {
        let len: usize = v.as_str().unicode_len();
        let mut n: usize = 0;
        let mut found: bool = false;
        for c in it: v.as_str().chars()
            invariant
                it.seq() == v@,
                len == v@.len(),
                !found ==> n == it.index(),
                !found ==> forall|j: int| 0 <= j < n ==> v@[j] != '.',
                found ==> n < v@.len() && v@[n as int] == '.' && forall|j: int|
                    0 <= j < n ==> v@[j] != '.',
                n <= v@.len(),
        {
            if !found {
                if c == '.' {
                    found = true;
                } else {
                    n = n + 1;
                }
            }
        }
        proof {
            lemma_tag_len(v@, n as int);
        }
        if found {
            Ok(OntologyField { value: v, tag_offset: n })
        } else {
            Err(Error::BadField { field: v })
        }
    }

    /// The ontology tag: what stands before the first dot.
    pub fn ontology_tag(&self) -> (r: &str)
        ensures
            r@ == tag_of(self@),
            has_dot(self@),
    {
        proof {
            use_type_invariant(self);
            lemma_tag_len_bounds(self.value@);
        }
        self.value.as_str().substring_char(0, self.tag_offset)
    }

    /// The field within the ontology: what follows the first dot.
    pub fn field(&self) -> (r: &str)
        ensures
            r@ == field_of(self@),
            has_dot(self@),
    {
        proof {
            use_type_invariant(self);
            lemma_tag_len_bounds(self.value@);
        }
        let s = self.value.as_str();
        let len: usize = s.unicode_len();
        s.substring_char(self.tag_offset + 1, len)
    }

    /// The whole path: it holds a dot.
    pub fn value(&self) -> (r: &str)
        ensures
            r@ == self@,
            has_dot(self@),
    {
        proof {
            use_type_invariant(self);
        }
        self.value.as_str()
    }
}

impl Clone for OntologyField {
    fn clone(&self) -> (r: OntologyField)
        ensures
            r@ == self@,
    {
        proof {
            use_type_invariant(self);
        }
        OntologyField { value: self.value.clone(), tag_offset: self.tag_offset }
    }
}

impl PartialEq for OntologyField {
    fn eq(&self, other: &OntologyField) -> (r: bool) {
        str_eq(self.value.as_str(), other.value.as_str())
    }
}

impl vstd::std_specs::cmp::PartialEqSpecImpl for OntologyField {
    open spec fn obeys_eq_spec() -> bool {
        true
    }

    open spec fn eq_spec(&self, other: &OntologyField) -> bool {
        self@ == other@
    }
}

impl Eq for OntologyField {
}

impl PartialEq<str> for OntologyField {
    fn eq(&self, other: &str) -> (r: bool) {
        str_eq(self.value.as_str(), other)
    }
}

impl vstd::std_specs::cmp::PartialEqSpecImpl<str> for OntologyField {
    open spec fn obeys_eq_spec() -> bool {
        true
    }

    open spec fn eq_spec(&self, other: &str) -> bool {
        self@ == other@
    }
}

/// One constraint: a field and the test applied to it.
#[derive(Debug, Clone)]
pub struct Expr<T>(pub OntologyField, pub Op<T>);

impl<T> Expr<T> {
    /// The field that the expression constrains.
    pub fn ontology_field(&self) -> (r: &OntologyField)
        ensures
            *r == self.0,
    {
        &self.0
    }

    /// The test that the expression applies.
    pub fn op(&self) -> (r: &Op<T>)
        ensures
            *r == self.1,
    {
        &self.1
    }

    /// The field and the test.
    pub fn into_parts(self) -> (r: (OntologyField, Op<T>))
        ensures
            r.0 == self.0,
            r.1 == self.1,
    {
        (self.0, self.1)
    }

    /// The ontology tag of the expression's field.
    pub open spec fn tag(&self) -> Seq<char> {
        tag_of(self.0@)
    }
}

impl<T> From<(OntologyField, Op<T>)> for Expr<T> {
    fn from(value: (OntologyField, Op<T>)) -> (r: Expr<T>) {
        Expr(value.0, value.1)
    }
}

impl<T> vstd::std_specs::convert::FromSpecImpl<(OntologyField, Op<T>)> for Expr<T> {
    open spec fn obeys_from_spec() -> bool {
        true
    }

    open spec fn from_spec(value: (OntologyField, Op<T>)) -> Expr<T> {
        Expr(value.0, value.1)
    }
}

/// A series of expressions, all of which a record must meet.
#[derive(Debug, Clone)]
pub struct ExprGroup<T> {
    pub group: Vec<Expr<T>>,
}

/// The expressions of all the groups, one group after the other.
pub open spec fn concat_groups<T>(groups: Seq<ExprGroup<T>>) -> Seq<Expr<T>>
    decreases groups.len(),
{
    if groups.len() == 0 {
        Seq::empty()
    } else {
        concat_groups(groups.drop_last()) + groups.last().group@
    }
}

/// Whether the expressions are at least one and all of one ontology tag.
pub open spec fn one_tag<T>(exprs: Seq<Expr<T>>) -> bool {
    exprs.len() > 0 && forall|j: int| 0 <= j < exprs.len() ==> #[trigger] exprs[j].tag() == exprs[0].tag()
}

/// Whether `groups` splits `input` by ontology tag: every group holds one
/// tag, no two groups hold the same, and the groups together hold exactly
/// the expressions of the input, each as often as the input does.
pub open spec fn partitions_by_tag<T>(input: Seq<Expr<T>>, groups: Seq<ExprGroup<T>>) -> bool {
    &&& forall|i: int| 0 <= i < groups.len() ==> one_tag(#[trigger] groups[i].group@)
    &&& forall|i: int, k: int|
        0 <= i < k < groups.len() ==> (#[trigger] groups[i].group@)[0].tag() != (
        #[trigger] groups[k].group@)[0].tag()
    &&& concat_groups(groups).to_multiset() == input.to_multiset()
}

/// The expressions whose ontology tag is `tag`.
pub open spec fn tagged<T>(tag: Seq<char>) -> spec_fn(Expr<T>) -> bool {
    |e: Expr<T>| e.tag() == tag
}

/// Whether every group holds the expressions of its tag in the order of
/// the input, all of them.
pub open spec fn keeps_order<T>(input: Seq<Expr<T>>, groups: Seq<ExprGroup<T>>) -> bool {
    forall|i: int|
        0 <= i < groups.len() ==> (#[trigger] groups[i]).group@.len() > 0 && groups[i].group@
            == input.filter(tagged(groups[i].group@[0].tag()))
}

/// Whether every expression of the input has a group of its tag.
pub open spec fn covers_tags<T>(input: Seq<Expr<T>>, groups: Seq<ExprGroup<T>>) -> bool {
    forall|j: int|
        0 <= j < input.len() ==> exists|i: int|
            0 <= i < groups.len() && (#[trigger] groups[i]).group@.len() > 0
                && groups[i].group@[0].tag() == (#[trigger] input[j]).tag()
}

/// Adding an expression to one group adds it once to what the groups hold.
proof fn lemma_concat_update<T>(groups: Seq<ExprGroup<T>>, k: int, grown: ExprGroup<T>, e: Expr<T>)
    requires
        0 <= k < groups.len(),
        grown.group@ == groups[k].group@.push(e),
    ensures
        concat_groups(groups.update(k, grown)).to_multiset() == concat_groups(
            groups,
        ).to_multiset().insert(e),
    decreases groups.len(),
{
    broadcast use vstd::seq_lib::group_to_multiset_ensures;

    let after = groups.update(k, grown);
    let head = concat_groups(groups.drop_last());
    if k == groups.len() - 1 {
        assert(after.drop_last() =~= groups.drop_last());
        assert(concat_groups(after) =~= concat_groups(groups).push(e));
    } else {
        assert(after.drop_last() =~= groups.drop_last().update(k, grown));
        assert(after.last() == groups.last());
        lemma_concat_update(groups.drop_last(), k, grown, e);
        lemma_multiset_commutative(concat_groups(after.drop_last()), groups.last().group@);
        lemma_multiset_commutative(head, groups.last().group@);
        assert(concat_groups(after).to_multiset() =~= concat_groups(groups).to_multiset().insert(
            e,
        ));
    }
}

/// A new group of one expression adds that expression once to what the
/// groups hold.
proof fn lemma_concat_push<T>(groups: Seq<ExprGroup<T>>, fresh: ExprGroup<T>, e: Expr<T>)
    requires
        fresh.group@ == seq![e],
    ensures
        concat_groups(groups.push(fresh)).to_multiset() == concat_groups(
            groups,
        ).to_multiset().insert(e),
{
    broadcast use vstd::seq_lib::group_to_multiset_ensures;

    assert(groups.push(fresh).drop_last() =~= groups);
    assert(concat_groups(groups.push(fresh)) =~= concat_groups(groups).push(e));
}

impl<T> ExprGroup<T> {
    /// The group of the given expressions.
    pub fn new(group: Vec<Expr<T>>) -> (r: ExprGroup<T>)
        ensures
            r.group == group,
    {
        ExprGroup { group }
    }

    /// The expressions grouped by ontology tag: one group for each tag that
    /// occurs, in the order in which the tags first occur.
    pub fn split_by_ontology_tag(self) -> (r: Vec<ExprGroup<T>>)
        ensures
            partitions_by_tag(self.group@, r@),
            keeps_order(self.group@, r@),
    {
        let mut out: Vec<ExprGroup<T>> = Vec::new();
        let ghost input = self.group@;
        proof {
            assert(input.take(0) =~= concat_groups(out@));
        }
        for expr in it: self.group.into_iter()
            invariant
                it.seq() == input,
                partitions_by_tag(input.take(it.index()), out@),
                keeps_order(input.take(it.index()), out@),
                covers_tags(input.take(it.index()), out@),
        {
            let ghost seen = input.take(it.index());
            let ghost before = out@;
            let mut k: usize = 0;
            let mut hit: Option<usize> = None;
            while k < out.len()
                invariant_except_break
                    hit is None,
                    0 <= k <= out.len(),
                    forall|i: int| 0 <= i < k ==> (#[trigger] out@[i].group@)[0].tag() != expr.tag(),
                invariant
                    out@ == before,
                    partitions_by_tag(seen, out@),
                    keeps_order(seen, out@),
                    covers_tags(seen, out@),
                ensures
                    hit matches Some(h) ==> h < out.len() && out@[h as int].group@[0].tag()
                        == expr.tag(),
                    hit is None ==> forall|i: int|
                        0 <= i < out.len() ==> (#[trigger] out@[i].group@)[0].tag() != expr.tag(),
                decreases out.len() - k,
            {
                assert(one_tag(out@[k as int].group@));
                if str_eq(out[k].group[0].0.ontology_tag(), expr.0.ontology_tag()) {
                    hit = Some(k);
                    break ;
                }
                k = k + 1;
            }
            proof {
                broadcast use vstd::seq_lib::group_to_multiset_ensures;

                assert(input.take(it.index() + 1) =~= seen.push(expr));
            }
            match hit {
                Some(h) => {
                    assert(one_tag(out@[h as int].group@));
                    out[h].group.push(expr);
                    proof {
                        assert forall|i: int| 0 <= i < out.len() implies (#[trigger] out@[i]).group@.len()
                            > 0 && out@[i].group@ == seen.push(expr).filter(
                            tagged(out@[i].group@[0].tag()),
                        ) by {
                            assert(one_tag(before[i].group@));
                            let t = before[i].group@[0].tag();
                            seen.lemma_filter_push(expr, tagged(t));
                            if i != h {
                                assert(one_tag(before[h as int].group@));
                                if i < h {
                                    assert(before[i].group@[0].tag() != before[h as int].group@[0].tag());
                                } else {
                                    assert(before[h as int].group@[0].tag() != before[i].group@[0].tag());
                                }
                            }
                        }
                        assert forall|j: int| 0 <= j < seen.push(expr).len() implies exists|i: int|
                            0 <= i < out.len() && (#[trigger] out@[i]).group@.len() > 0
                                && out@[i].group@[0].tag() == (#[trigger] seen.push(expr)[j]).tag() by {
                            if j < seen.len() {
                                let i = choose|i: int|
                                    0 <= i < before.len() && (#[trigger] before[i]).group@.len() > 0
                                        && before[i].group@[0].tag() == seen[j].tag();
                                assert(one_tag(before[i].group@));
                                assert(out@[i].group@.len() > 0 && out@[i].group@[0].tag()
                                    == seen[j].tag());
                            } else {
                                assert(one_tag(before[h as int].group@));
                                assert(out@[h as int].group@.len() > 0 && out@[h as int].group@[0].tag()
                                    == expr.tag());
                            }
                        }
                        assert(out@ =~= before.update(h as int, out@[h as int]));
                        lemma_concat_update(before, h as int, out@[h as int], expr);
                        assert forall|i: int| 0 <= i < out.len() implies one_tag(
                            #[trigger] out@[i].group@,
                        ) by {
                            assert(one_tag(before[i].group@));
                        }
                        assert forall|i: int, j: int| 0 <= i < j < out.len() implies (
                        #[trigger] out@[i].group@)[0].tag() != (#[trigger] out@[j].group@)[0].tag() by {
                            assert(one_tag(before[i].group@));
                            assert(one_tag(before[j].group@));
                            assert(before[i].group@[0].tag() != before[j].group@[0].tag());
                        }
                    }
                },
                None => {
                    let mut members: Vec<Expr<T>> = Vec::new();
                    members.push(expr);
                    let fresh = ExprGroup::new(members);
                    proof {
                        assert(fresh.group@ =~= seq![expr]);
                        lemma_concat_push(before, fresh, expr);
                    }
                    out.push(fresh);
                    proof {
                        assert forall|i: int| 0 <= i < out.len() implies (#[trigger] out@[i]).group@.len()
                            > 0 && out@[i].group@ == seen.push(expr).filter(
                            tagged(out@[i].group@[0].tag()),
                        ) by {
                            if i < before.len() {
                                let t = before[i].group@[0].tag();
                                seen.lemma_filter_push(expr, tagged(t));
                            } else {
                                let t = expr.tag();
                                seen.lemma_filter_push(expr, tagged(t));
                                assert forall|j: int| 0 <= j < seen.len() implies !tagged::<T>(t)(
                                    #[trigger] seen[j],
                                ) by {
                                    let g = choose|g: int|
                                        0 <= g < before.len() && (#[trigger] before[g]).group@.len() > 0
                                            && before[g].group@[0].tag() == seen[j].tag();
                                }
                                seen.lemma_all_neg_filter_empty(tagged(t));
                                assert(seen.filter(tagged(t)).push(expr) =~= seq![expr]);
                            }
                        }
                        assert forall|j: int| 0 <= j < seen.push(expr).len() implies exists|i: int|
                            0 <= i < out.len() && (#[trigger] out@[i]).group@.len() > 0
                                && out@[i].group@[0].tag() == (#[trigger] seen.push(expr)[j]).tag() by {
                            if j < seen.len() {
                                let i = choose|i: int|
                                    0 <= i < before.len() && (#[trigger] before[i]).group@.len() > 0
                                        && before[i].group@[0].tag() == seen[j].tag();
                                assert(out@[i] == before[i]);
                            } else {
                                assert(out@[before.len() as int].group@[0].tag() == expr.tag());
                            }
                        }
                        assert forall|i: int| 0 <= i < out.len() implies one_tag(
                            #[trigger] out@[i].group@,
                        ) by {
                            if i < before.len() {
                                assert(one_tag(before[i].group@));
                            }
                        }
                        assert forall|i: int, j: int| 0 <= i < j < out.len() implies (
                        #[trigger] out@[i].group@)[0].tag() != (#[trigger] out@[j].group@)[0].tag() by {
                            assert(one_tag(before[i].group@));
                            if j < before.len() {
                                assert(before[i].group@[0].tag() != before[j].group@[0].tag());
                            }
                        }
                    }
                },
            }
        }
        proof {
            assert(input.take(input.len() as int) =~= input);
        }
        out
    }
}

impl<T> IntoIterator for ExprGroup<T> {
    type Item = Expr<T>;

    type IntoIter = std::vec::IntoIter<Expr<T>>;

    fn into_iter(self) -> (r: std::vec::IntoIter<Expr<T>>)
        ensures
            r == vstd::std_specs::vec::spec_into_iter(self.group),
            vstd::std_specs::iter::IteratorSpec::remaining(&r) == self.group@,
            vstd::std_specs::iter::IteratorSpec::decrease(&r) is Some,
            vstd::std_specs::iter::IteratorSpec::initial_value_relation(&r, &r),
    {
        self.group.into_iter()
    }
}

impl<T> Default for ExprGroup<T> {
    fn default() -> (r: ExprGroup<T>)
        ensures
            r.group@.len() == 0,
    {
        ExprGroup { group: Vec::new() }
    }
}

impl IsSupportedOp for Timestamp {
    open spec fn eq_supported(&self) -> bool {
        true
    }

    open spec fn ordering_supported(&self) -> bool {
        true
    }

    fn support_eq(&self) -> (r: bool) {
        true
    }

    fn support_ordering(&self) -> (r: bool) {
        true
    }

    fn support_in(&self) -> (r: bool) {
        false
    }

    fn support_match(&self) -> (r: bool) {
        false
    }
}

impl From<String> for Value {
    fn from(s: String) -> (r: Value) {
        Value::Text(s)
    }
}

impl vstd::std_specs::convert::FromSpecImpl<String> for Value {
    open spec fn obeys_from_spec() -> bool {
        true
    }

    open spec fn from_spec(s: String) -> Value {
        Value::Text(s)
    }
}

impl From<Float> for Value {
    fn from(n: Float) -> (r: Value) {
        Value::Float(n)
    }
}

impl vstd::std_specs::convert::FromSpecImpl<Float> for Value {
    open spec fn obeys_from_spec() -> bool {
        true
    }

    open spec fn from_spec(n: Float) -> Value {
        Value::Float(n)
    }
}

impl From<i64> for Value {
    fn from(n: i64) -> (r: Value) {
        Value::Integer(n)
    }
}

impl vstd::std_specs::convert::FromSpecImpl<i64> for Value {
    open spec fn obeys_from_spec() -> bool {
        true
    }

    open spec fn from_spec(n: i64) -> Value {
        Value::Integer(n)
    }
}

impl From<bool> for Value {
    fn from(b: bool) -> (r: Value) {
        Value::Boolean(b)
    }
}

impl vstd::std_specs::convert::FromSpecImpl<bool> for Value {
    open spec fn obeys_from_spec() -> bool {
        true
    }

    open spec fn from_spec(b: bool) -> Value {
        Value::Boolean(b)
    }
}

impl From<Timestamp> for Value {
    fn from(t: Timestamp) -> (r: Value) {
        Value::Integer(t.millis)
    }
}

impl vstd::std_specs::convert::FromSpecImpl<Timestamp> for Value {
    open spec fn obeys_from_spec() -> bool {
        true
    }

    open spec fn from_spec(t: Timestamp) -> Value {
        Value::Integer(t.millis)
    }
}

/// The test that the last expression on the path `field` applies, if there
/// is one.
pub open spec fn lookup(entries: Seq<Expr<Value>>, field: Seq<char>) -> Option<Op<Value>>
    decreases entries.len(),
{
    if entries.len() == 0 {
        None
    } else if entries.last().0@ == field {
        Some(entries.last().1)
    } else {
        lookup(entries.drop_last(), field)
    }
}

/// Whether no two of the expressions are on one path.
pub open spec fn distinct_fields(entries: Seq<Expr<Value>>) -> bool {
    forall|i: int, j: int|
        0 <= i < j < entries.len() ==> (#[trigger] entries[i]).0@ != (#[trigger] entries[j]).0@
}

/// Where no expression is on `field`, looking it up finds nothing.
pub proof fn lemma_lookup_absent(entries: Seq<Expr<Value>>, field: Seq<char>)
    requires
        forall|i: int| 0 <= i < entries.len() ==> (#[trigger] entries[i]).0@ != field,
    ensures
        lookup(entries, field) is None,
    decreases entries.len(),
{
    if entries.len() > 0 {
        lemma_lookup_absent(entries.drop_last(), field);
    }
}

/// Where the paths are distinct, looking up the path of an expression finds
/// that expression's test.
pub proof fn lemma_lookup_present(entries: Seq<Expr<Value>>, i: int)
    requires
        0 <= i < entries.len(),
        distinct_fields(entries),
    ensures
        lookup(entries, entries[i].0@) == Some(entries[i].1),
    decreases entries.len(),
{
    if i < entries.len() - 1 {
        assert(entries.last().0@ != entries[i].0@);
        lemma_lookup_present(entries.drop_last(), i);
    }
}

/// Replacing the expression at `i` by one on the same path changes what is
/// found on that path, and on no other.
pub proof fn lemma_lookup_update(entries: Seq<Expr<Value>>, i: int, e: Expr<Value>, field: Seq<char>)
    requires
        0 <= i < entries.len(),
        distinct_fields(entries),
        e.0@ == entries[i].0@,
    ensures
        lookup(entries.update(i, e), field) == if field == e.0@ {
            Some(e.1)
        } else {
            lookup(entries, field)
        },
    decreases entries.len(),
{
    let after = entries.update(i, e);
    if i == entries.len() - 1 {
        assert(after.drop_last() =~= entries.drop_last());
    } else {
        assert(after.drop_last() =~= entries.drop_last().update(i, e));
        assert(entries.last().0@ != entries[i].0@);
        lemma_lookup_update(entries.drop_last(), i, e, field);
    }
}

/// Expressions on ontology data, at most one for each field.
#[derive(Debug)]
pub struct OntologyFilter {
    entries: Vec<Expr<Value>>,
}

impl OntologyFilter {
    #[verifier::type_invariant]
    spec fn well_formed(&self) -> bool {
        distinct_fields(self.entries@)
    }

    /// The expressions of the filter, oldest field first.
    pub closed spec fn entries(&self) -> Seq<Expr<Value>> {
        self.entries@
    }

    /// The test that the filter applies to the path `field`, if any.
    pub open spec fn op_of(&self, field: Seq<char>) -> Option<Op<Value>> {
        lookup(self.entries(), field)
    }

    /// The filter of the given expressions. Where several are on one field,
    /// the last one stands.
    pub fn new(v: Vec<Expr<Value>>) -> (r: OntologyFilter)
        ensures
            forall|field: Seq<char>| r.op_of(field) == lookup(v@, field),
    {
        let mut r = OntologyFilter::empty();
        let ghost input = v@;
        for expr in it: v.into_iter()
            invariant
                it.seq() == input,
                forall|field: Seq<char>| r.op_of(field) == lookup(input.take(it.index()), field),
        {
            proof {
                assert(input.take(it.index() + 1).drop_last() =~= input.take(it.index()));
            }
            r = r.with_op(expr.0, expr.1);
        }
        proof {
            assert(input.take(input.len() as int) =~= input);
        }
        r
    }

    /// The filter without expressions.
    pub fn empty() -> (r: OntologyFilter)
        ensures
            r.entries().len() == 0,
    {
        OntologyFilter { entries: Vec::new() }
    }

    /// The filter with the test applied to `field` set to `op`, in place of
    /// an earlier one.
    pub fn with_op(self, field: OntologyField, op: Op<Value>) -> (r: OntologyFilter)
        ensures
            forall|other: Seq<char>|
                r.op_of(other) == if other == field@ {
                    Some(op)
                } else {
                    self.op_of(other)
                },
    {
        proof {
            use_type_invariant(&self);
        }
        let mut entries = self.entries;
        let ghost before = entries@;
        let mut k: usize = 0;
        while k < entries.len()
            invariant
                entries@ == before,
                before == self.entries(),
                0 <= k <= before.len(),
                distinct_fields(before),
                forall|i: int| 0 <= i < k ==> (#[trigger] before[i]).0@ != field@,
            decreases before.len() - k,
        {
            if str_eq(entries[k].0.value(), field.value()) {
                let e = Expr(field, op);
                proof {
                    assert forall|other: Seq<char>| #[trigger]
                        lookup(before.update(k as int, e), other) == (if other == field@ {
                        Some(op)
                    } else {
                        lookup(before, other)
                    }) by {
                        lemma_lookup_update(before, k as int, e, other);
                    }
                }
                entries[k] = e;
                assert(entries@ =~= before.update(k as int, e));
                return OntologyFilter { entries };
            }
            k = k + 1;
        }
        proof {
            lemma_lookup_absent(before, field@);
            assert(before.push(Expr(field, op)).drop_last() =~= before);
        }
        entries.push(Expr(field, op));
        OntologyFilter { entries }
    }

    /// The test applied to the path `field`, if any.
    pub fn get_op(&self, field: &str) -> (r: Option<&Op<Value>>)
        ensures
            match r {
                Some(op) => self.op_of(field@) == Some(*op),
                None => self.op_of(field@) is None,
            },
    {
        proof {
            use_type_invariant(self);
        }
        let mut k: usize = 0;
        while k < self.entries.len()
            invariant
                0 <= k <= self.entries@.len(),
                distinct_fields(self.entries@),
                forall|i: int| 0 <= i < k ==> (#[trigger] self.entries@[i]).0@ != field@,
            decreases self.entries@.len() - k,
        {
            if str_eq(self.entries[k].0.value(), field) {
                proof {
                    lemma_lookup_present(self.entries@, k as int);
                }
                return Some(&self.entries[k].1);
            }
            k = k + 1;
        }
        proof {
            lemma_lookup_absent(self.entries@, field@);
        }
        None
    }

    /// The expressions of the filter as one group: no two of them are on one
    /// field.
    pub fn into_expr_group(self) -> (r: ExprGroup<Value>)
        ensures
            r.group@ == self.entries(),
            distinct_fields(r.group@),
    {
        proof {
            use_type_invariant(&self);
        }
        ExprGroup { group: self.entries }
    }
}

/// Conditions on a sequence.
#[derive(Debug)]
pub struct SequenceFilter {
    pub name: Option<Op<Text>>,
    pub creation: Option<Op<Timestamp>>,
    pub user_metadata: Option<OntologyFilter>,
}

impl SequenceFilter {
    /// Whether the filter holds no condition.
    pub fn is_empty(&self) -> (r: bool)
        ensures
            r == (self.name is None && self.creation is None && self.user_metadata is None),
    {
        self.name.is_none() && self.creation.is_none() && self.user_metadata.is_none()
    }
}

/// Conditions on a topic.
#[derive(Debug)]
pub struct TopicFilter {
    pub name: Option<Op<Text>>,
    pub creation: Option<Op<Timestamp>>,
    pub ontology_tag: Option<Op<Text>>,
    pub serialization_format: Option<Op<Text>>,
    pub user_metadata: Option<OntologyFilter>,
}

impl TopicFilter {
    /// Whether the filter holds no condition.
    pub fn is_empty(&self) -> (r: bool)
        ensures
            r == (self.name is None && self.creation is None && self.user_metadata is None
                && self.ontology_tag is None && self.serialization_format is None),
    {
        self.name.is_none() && self.creation.is_none() && self.user_metadata.is_none()
            && self.ontology_tag.is_none() && self.serialization_format.is_none()
    }
}

impl Default for TopicFilter {
    fn default() -> (r: TopicFilter)
        ensures
            r.name is None,
            r.creation is None,
            r.ontology_tag is None,
            r.serialization_format is None,
            r.user_metadata is None,
    {
        TopicFilter {
            name: None,
            creation: None,
            ontology_tag: None,
            serialization_format: None,
            user_metadata: None,
        }
    }
}

/// A complete search query: conditions on the sequence, on the topic and on
/// the ontology data. A domain that is absent is not constrained.
#[derive(Debug)]
pub struct Filter {
    pub sequence: Option<SequenceFilter>,
    pub topic: Option<TopicFilter>,
    pub ontology: Option<OntologyFilter>,
}

impl Filter {
    /// Whether no domain is constrained.
    pub fn is_empty(&self) -> (r: bool)
        ensures
            r == (self.sequence is None && self.topic is None && self.ontology is None),
    {
        self.sequence.is_none() && self.topic.is_none() && self.ontology.is_none()
    }

    /// The three domains.
    pub fn into_parts(self) -> (r: (
        Option<SequenceFilter>,
        Option<TopicFilter>,
        Option<OntologyFilter>,
    ))
        ensures
            r.0 == self.sequence,
            r.1 == self.topic,
            r.2 == self.ontology,
    {
        (self.sequence, self.topic, self.ontology)
    }
}

impl Default for Filter {
    fn default() -> (r: Filter)
        ensures
            r.sequence is None,
            r.topic is None,
            r.ontology is None,
    {
        Filter { sequence: None, topic: None, ontology: None }
    }
}

impl ValueView {
    /// The value as a number, the way the numeric statistics hold it: an
    /// integer as the nearest double, true as one and false as zero. A text
    /// is no number.
    pub open spec fn numeric(self) -> Option<Float> {
        match self {
            ValueView::Integer(i) => Some(Float::of_int(i as int)),
            ValueView::Float(f) => Some(f),
            ValueView::Boolean(b) => Some(
                Float {
                    bits: if b {
                        ONE_BITS
                    } else {
                        0
                    },
                },
            ),
            ValueView::Text(_) => None,
        }
    }

    /// The characters of a text.
    pub open spec fn text(self) -> Option<Seq<char>> {
        match self {
            ValueView::Text(t) => Some(t),
            _ => None,
        }
    }

    /// How the value of a record stands to an operand: below it (-1), equal
    /// to it (0) or above it (1). Numbers are compared as numbers, texts
    /// lexicographically. A number and a text are not compared, nor is a
    /// NaN with anything.
    pub open spec fn against(self, operand: ValueView) -> Option<int> {
        match (self.numeric(), operand.numeric(), self.text(), operand.text()) {
            (Some(a), Some(b), _, _) => if a.nan() || b.nan() {
                None
            } else if a.key() < b.key() {
                Some(-1)
            } else if a.key() > b.key() {
                Some(1)
            } else {
                Some(0)
            },
            (_, _, Some(a), Some(b)) => if lex_lt(a, b) {
                Some(-1)
            } else if lex_lt(b, a) {
                Some(1)
            } else {
                Some(0)
            },
            _ => None,
        }
    }
}

impl ValueView {
    /// Whether the value equals one of `items`.
    pub open spec fn among(self, items: Seq<ValueView>) -> bool {
        exists|i: int| 0 <= i < items.len() && self.against(#[trigger] items[i]) == Some(0int)
    }
}

impl Value {
    /// The value as a number, the way the numeric statistics hold it.
    pub fn numeric(&self) -> (r: Option<Float>)
        ensures
            r == self@.numeric(),
    {
        match self {
            Value::Integer(i) => Some(Float::from_i64(*i)),
            Value::Float(f) => Some(*f),
            Value::Boolean(b) => Some(Float::from_bool(*b)),
            Value::Text(_) => None,
        }
    }
}

/// What an [`Op`] on values holds: the kind of test and the views of its
/// operands.
pub enum OpView {
    Eq(ValueView),
    Neq(ValueView),
    Leq(ValueView),
    Geq(ValueView),
    Lt(ValueView),
    Gt(ValueView),
    Ex,
    Nex,
    Between(ValueView, ValueView),
    In(Seq<ValueView>),
    Match(ValueView),
}

/// The views of the values.
pub open spec fn views_of(items: Seq<Value>) -> Seq<ValueView> {
    items.map_values(|v: Value| v@)
}

impl View for Op<Value> {
    type V = OpView;

    open spec fn view(&self) -> OpView {
        match self {
            Op::Eq(v) => OpView::Eq(v@),
            Op::Neq(v) => OpView::Neq(v@),
            Op::Leq(v) => OpView::Leq(v@),
            Op::Geq(v) => OpView::Geq(v@),
            Op::Lt(v) => OpView::Lt(v@),
            Op::Gt(v) => OpView::Gt(v@),
            Op::Ex => OpView::Ex,
            Op::Nex => OpView::Nex,
            Op::Between(range) => OpView::Between(range.min@, range.max@),
            Op::In(items) => OpView::In(views_of(items@)),
            Op::Match(v) => OpView::Match(v@),
        }
    }
}

/// A relation between a text and a pattern: what the engine's pattern
/// matching decides.
pub type Like = spec_fn(Seq<char>, Seq<char>) -> bool;

impl OpView {
    /// Whether a record meets the test, where `field` is what the record
    /// holds in the field, `None` for a null, and `like` is the engine's
    /// pattern matching. A comparison is met by a value that is comparable
    /// with the operand and stands to it as the test says; a null meets no
    /// comparison. The presence tests are met by every record: presence is
    /// not tested row by row.
    pub open spec fn accepts(self, field: Option<ValueView>, like: Like) -> bool {
        match self {
            OpView::Ex => true,
            OpView::Nex => true,
            _ => match field {
                None => false,
                Some(v) => match self {
                    OpView::Eq(x) => v.against(x) == Some(0int),
                    OpView::Neq(x) => v.against(x) is Some && v.against(x) != Some(0int),
                    OpView::Leq(x) => v.against(x) == Some(-1int) || v.against(x) == Some(0int),
                    OpView::Geq(x) => v.against(x) == Some(1int) || v.against(x) == Some(0int),
                    OpView::Lt(x) => v.against(x) == Some(-1int),
                    OpView::Gt(x) => v.against(x) == Some(1int),
                    OpView::Between(a, b) => (v.against(a) == Some(1int) || v.against(a) == Some(
                        0int,
                    )) && (v.against(b) == Some(-1int) || v.against(b) == Some(0int)),
                    OpView::In(items) => v.among(items),
                    OpView::Match(p) => v.text() is Some && p.text() is Some && like(
                        v.text()->Some_0,
                        p.text()->Some_0,
                    ),
                    _ => true,
                },
            },
        }
    }
}

} // verus!
