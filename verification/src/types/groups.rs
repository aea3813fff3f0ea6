//! The answer to a query: sequences, each with its topics that match.

use vstd::prelude::*;
use crate::text::str_eq;
use crate::types::resource::{SequenceResourceLocator, TopicResourceLocator};

verus! {

/// A sequence with topics of it.
#[derive(Debug)]
pub struct SequenceTopicGroup {
    pub sequence: SequenceResourceLocator,
    pub topics: Vec<TopicResourceLocator>,
}

impl SequenceTopicGroup {
    /// The group of the sequence with the topics.
    pub fn new(sequence: SequenceResourceLocator, topics: Vec<TopicResourceLocator>) -> (r:
        SequenceTopicGroup)
        ensures
            r.sequence == sequence,
            r.topics == topics,
    {
        SequenceTopicGroup { sequence, topics }
    }
}

/// Whether one of the topics is called `topic`.
pub open spec fn names_contain(topics: Seq<TopicResourceLocator>, topic: Seq<char>) -> bool {
    exists|j: int| 0 <= j < topics.len() && (#[trigger] topics[j]).name@ == topic
}

/// Whether one of the groups is of the sequence `sequence`.
pub open spec fn has_sequence(groups: Seq<SequenceTopicGroup>, sequence: Seq<char>) -> bool {
    exists|i: int| 0 <= i < groups.len() && (#[trigger] groups[i]).sequence.name@ == sequence
}

/// Whether one of the groups is of the sequence `sequence` and holds the
/// topic `topic`.
pub open spec fn has_topic(groups: Seq<SequenceTopicGroup>, sequence: Seq<char>, topic: Seq<char>)
    -> bool {
    exists|i: int|
        0 <= i < groups.len() && (#[trigger] groups[i]).sequence.name@ == sequence
            && names_contain(groups[i].topics@, topic)
}

/// What a set of groups says: which sequences it holds, and which topics
/// of which sequence.
#[verifier::ext_equal]
pub struct GroupsView {
    pub sequences: Set<Seq<char>>,
    pub topics: Set<(Seq<char>, Seq<char>)>,
}

impl GroupsView {
    /// The two sets merged: the sequences that both hold, each with the
    /// topics that either holds of it.
    pub open spec fn merged(self, other: GroupsView) -> GroupsView {
        GroupsView {
            sequences: self.sequences.intersect(other.sequences),
            topics: Set::new(
                |p: (Seq<char>, Seq<char>)|
                    self.sequences.contains(p.0) && other.sequences.contains(p.0) && (
                    self.topics.contains(p) || other.topics.contains(p)),
            ),
        }
    }

    /// Whether every topic is of a sequence of the set.
    pub open spec fn wf(self) -> bool {
        forall|p: (Seq<char>, Seq<char>)| #[trigger]
            self.topics.contains(p) ==> self.sequences.contains(p.0)
    }
}

/// Merging is commutative.
pub proof fn lemma_merge_commutative(a: GroupsView, b: GroupsView)
    ensures
        a.merged(b) == b.merged(a),
{
    assert(a.merged(b).sequences =~= b.merged(a).sequences);
    assert(a.merged(b).topics =~= b.merged(a).topics);
}

/// Merging is associative.
pub proof fn lemma_merge_associative(a: GroupsView, b: GroupsView, c: GroupsView)
    requires
        a.wf(),
        b.wf(),
        c.wf(),
    ensures
        a.merged(b).merged(c) == a.merged(b.merged(c)),
{
    assert(a.merged(b).merged(c).sequences =~= a.merged(b.merged(c)).sequences);
    assert(a.merged(b).merged(c).topics =~= a.merged(b.merged(c)).topics);
}

/// Merging keeps every topic with a sequence of the set.
pub proof fn lemma_merge_wf(a: GroupsView, b: GroupsView)
    ensures
        a.merged(b).wf(),
{
}

/// What the groups say.
pub open spec fn groups_view(groups: Seq<SequenceTopicGroup>) -> GroupsView {
    GroupsView {
        sequences: Set::new(|s: Seq<char>| has_sequence(groups, s)),
        topics: Set::new(|p: (Seq<char>, Seq<char>)| has_topic(groups, p.0, p.1)),
    }
}

/// In what groups say, every topic is of a sequence of the set.
pub proof fn lemma_groups_view_wf(groups: Seq<SequenceTopicGroup>)
    ensures
        groups_view(groups).wf(),
{
}

/// Sequences with their topics that match a query.
#[derive(Debug)]
pub struct SequenceTopicGroups {
    pub groups: Vec<SequenceTopicGroup>,
}

impl View for SequenceTopicGroups {
    type V = GroupsView;

    open spec fn view(&self) -> GroupsView {
        groups_view(self.groups@)
    }
}

proof fn lemma_names_push(topics: Seq<TopicResourceLocator>, t: TopicResourceLocator, name: Seq<char>)
    ensures
        names_contain(topics.push(t), name) <==> names_contain(topics, name) || t.name@ == name,
{
    let grown = topics.push(t);
    if names_contain(topics, name) {
        let j = choose|j: int| 0 <= j < topics.len() && (#[trigger] topics[j]).name@ == name;
        assert(grown[j].name@ == name);
    }
    if t.name@ == name {
        assert(grown[topics.len() as int].name@ == name);
    }
    if names_contain(grown, name) {
        let j = choose|j: int| 0 <= j < grown.len() && (#[trigger] grown[j]).name@ == name;
        if j < topics.len() {
            assert(topics[j].name@ == name);
        }
    }
}

proof fn lemma_groups_push(
    groups: Seq<SequenceTopicGroup>,
    g: SequenceTopicGroup,
    s: Seq<char>,
    t: Seq<char>,
)
    ensures
        has_sequence(groups.push(g), s) <==> has_sequence(groups, s) || g.sequence.name@ == s,
        has_topic(groups.push(g), s, t) <==> has_topic(groups, s, t) || (g.sequence.name@ == s
            && names_contain(g.topics@, t)),
{
    let grown = groups.push(g);
    if has_sequence(groups, s) {
        let i = choose|i: int| 0 <= i < groups.len() && (#[trigger] groups[i]).sequence.name@ == s;
        assert(grown[i].sequence.name@ == s);
    }
    if g.sequence.name@ == s {
        assert(grown[groups.len() as int].sequence.name@ == s);
    }
    if has_sequence(grown, s) {
        let i = choose|i: int| 0 <= i < grown.len() && (#[trigger] grown[i]).sequence.name@ == s;
        if i < groups.len() {
            assert(groups[i].sequence.name@ == s);
        }
    }
    if has_topic(groups, s, t) {
        let i = choose|i: int|
            0 <= i < groups.len() && (#[trigger] groups[i]).sequence.name@ == s && names_contain(
                groups[i].topics@,
                t,
            );
        assert(grown[i].sequence.name@ == s && names_contain(grown[i].topics@, t));
    }
    if g.sequence.name@ == s && names_contain(g.topics@, t) {
        assert(grown[groups.len() as int].sequence.name@ == s && names_contain(
            grown[groups.len() as int].topics@,
            t,
        ));
    }
    if has_topic(grown, s, t) {
        let i = choose|i: int|
            0 <= i < grown.len() && (#[trigger] grown[i]).sequence.name@ == s && names_contain(
                grown[i].topics@,
                t,
            );
        if i < groups.len() {
            assert(groups[i].sequence.name@ == s && names_contain(groups[i].topics@, t));
        }
    }
}

/// Whether one of the topics is called `name`.
fn has_name(topics: &Vec<TopicResourceLocator>, name: &str) -> (r: bool)
    ensures
        r == names_contain(topics@, name@),
{
    let mut k: usize = 0;
    while k < topics.len()
        invariant
            0 <= k <= topics@.len(),
            forall|j: int| 0 <= j < k ==> (#[trigger] topics@[j]).name@ != name@,
        decreases topics@.len() - k,
    {
        if str_eq(topics[k].name.as_str(), name) {
            return true;
        }
        k = k + 1;
    }
    false
}

/// Adds to `topics` those of `more` that it does not hold yet.
fn add_missing(topics: &mut Vec<TopicResourceLocator>, more: &Vec<TopicResourceLocator>)
    ensures
        forall|t: Seq<char>|
                #![all_triggers]
            names_contain(final(topics)@, t) <==> names_contain(old(topics)@, t) || names_contain(
                more@,
                t,
            ),
{
    let mut k: usize = 0;
    while k < more.len()
        invariant
            0 <= k <= more@.len(),
            forall|t: Seq<char>|
                #![all_triggers]
                names_contain(topics@, t) <==> names_contain(old(topics)@, t) || names_contain(
                    more@.take(k as int),
                    t,
                ),
        decreases more@.len() - k,
    {
        let ghost before = topics@;
        let present = has_name(topics, more[k].name.as_str());
        if !present {
            let copy = TopicResourceLocator { name: more[k].name.clone() };
            topics.push(copy);
            proof {
                assert forall|t: Seq<char>| #![all_triggers] names_contain(topics@, t) <==> names_contain(
                    before,
                    t,
                ) || more@[k as int].name@ == t by {
                    lemma_names_push(before, copy, t);
                }
            }
        }
        proof {
            assert(more@.take(k + 1) =~= more@.take(k as int).push(more@[k as int]));
            assert forall|t: Seq<char>| #![all_triggers] names_contain(more@.take(k + 1), t) <==> names_contain(
                more@.take(k as int),
                t,
            ) || more@[k as int].name@ == t by {
                lemma_names_push(more@.take(k as int), more@[k as int], t);
            }
        }
        k = k + 1;
    }
    proof {
        assert(more@.take(more@.len() as int) =~= more@);
    }
}

impl SequenceTopicGroups {
    /// No sequence.
    pub fn empty() -> (r: SequenceTopicGroups)
        ensures
            r.groups@.len() == 0,
    {
        SequenceTopicGroups { groups: Vec::new() }
    }

    /// The sequences that both sets hold, each with the topics that either
    /// set holds of it.
    pub fn merge(self, other: SequenceTopicGroups) -> (r: SequenceTopicGroups)
        ensures
            r@ == self@.merged(other@),
    {
        let mut out: Vec<SequenceTopicGroup> = Vec::new();
        let ghost a = self.groups@;
        let ghost b = other.groups@;
        proof {
            assert(a.take(0) =~= Seq::<SequenceTopicGroup>::empty());
        }
        for g in it: self.groups.into_iter()
            invariant
                it.seq() == a,
                b == other.groups@,
                forall|s: Seq<char>| #[trigger]
                    has_sequence(out@, s) <==> has_sequence(a.take(it.index() as int), s)
                        && has_sequence(b, s),
                forall|s: Seq<char>, t: Seq<char>| #[trigger]
                    has_topic(out@, s, t) <==> has_sequence(a.take(it.index() as int), s)
                        && has_sequence(b, s) && (has_topic(a.take(it.index() as int), s, t)
                        || has_topic(b, s, t)),
        {
            let ghost seen = a.take(it.index() as int);
            let ghost name = g.sequence.name@;
            let mut topics = g.topics;
            let mut found: bool = false;
            let mut k: usize = 0;
            while k < other.groups.len()
                invariant
                    0 <= k <= b.len(),
                    b == other.groups@,
                    name == g.sequence.name@,
                    found <==> has_sequence(b.take(k as int), name),
                    forall|t: Seq<char>|
                #![all_triggers]
                        names_contain(topics@, t) <==> names_contain(g.topics@, t) || has_topic(
                            b.take(k as int),
                            name,
                            t,
                        ),
                decreases b.len() - k,
            {
                let ghost before = topics@;
                proof {
                    assert(b.take(k + 1) =~= b.take(k as int).push(b[k as int]));
                    assert forall|t: Seq<char>|
                #![all_triggers]
                        (has_sequence(b.take(k + 1), name) <==> has_sequence(b.take(k as int), name)
                            || b[k as int].sequence.name@ == name) && (has_topic(
                            b.take(k + 1),
                            name,
                            t,
                        ) <==> has_topic(b.take(k as int), name, t) || (b[k as int].sequence.name@
                            == name && names_contain(b[k as int].topics@, t))) by {
                        lemma_groups_push(b.take(k as int), b[k as int], name, t);
                    }
                    lemma_groups_push(b.take(k as int), b[k as int], name, Seq::empty());
                }
                if str_eq(other.groups[k].sequence.name.as_str(), g.sequence.name.as_str()) {
                    found = true;
                    add_missing(&mut topics, &other.groups[k].topics);
                }
                k = k + 1;
            }
            proof {
                assert(b.take(b.len() as int) =~= b);
                assert(a.take(it.index() + 1) =~= seen.push(g));
            }
            let ghost before = out@;
            if found {
                let merged = SequenceTopicGroup { sequence: g.sequence, topics };
                out.push(merged);
                proof {
                    assert forall|s: Seq<char>| #[trigger]
                        has_sequence(out@, s) <==> has_sequence(seen.push(g), s) && has_sequence(
                            b,
                            s,
                        ) by {
                        lemma_groups_push(before, merged, s, Seq::empty());
                        lemma_groups_push(seen, g, s, Seq::empty());
                    }
                    assert forall|s: Seq<char>, t: Seq<char>| #[trigger]
                        has_topic(out@, s, t) <==> has_sequence(seen.push(g), s) && has_sequence(
                            b,
                            s,
                        ) && (has_topic(seen.push(g), s, t) || has_topic(b, s, t)) by {
                        lemma_groups_push(before, merged, s, t);
                        lemma_groups_push(seen, g, s, t);
                    }
                }
            } else {
                proof {
                    assert forall|s: Seq<char>| #[trigger]
                        has_sequence(out@, s) <==> has_sequence(seen.push(g), s) && has_sequence(
                            b,
                            s,
                        ) by {
                        lemma_groups_push(seen, g, s, Seq::empty());
                    }
                    assert forall|s: Seq<char>, t: Seq<char>| #[trigger]
                        has_topic(out@, s, t) <==> has_sequence(seen.push(g), s) && has_sequence(
                            b,
                            s,
                        ) && (has_topic(seen.push(g), s, t) || has_topic(b, s, t)) by {
                        lemma_groups_push(seen, g, s, t);
                    }
                }
            }
        }
        let r = SequenceTopicGroups { groups: out };
        proof {
            assert(a.take(a.len() as int) =~= a);
            assert(r@.sequences =~= self@.merged(other@).sequences);
            assert(r@.topics =~= self@.merged(other@).topics);
        }
        r
    }
}

impl Default for SequenceTopicGroups {
    fn default() -> (r: SequenceTopicGroups)
        ensures
            r.groups@.len() == 0,
    {
        SequenceTopicGroups::empty()
    }
}

impl From<Vec<SequenceTopicGroup>> for SequenceTopicGroups {
    fn from(groups: Vec<SequenceTopicGroup>) -> (r: SequenceTopicGroups) {
        SequenceTopicGroups { groups }
    }
}

impl vstd::std_specs::convert::FromSpecImpl<Vec<SequenceTopicGroup>> for SequenceTopicGroups {
    open spec fn obeys_from_spec() -> bool {
        true
    }

    open spec fn from_spec(groups: Vec<SequenceTopicGroup>) -> SequenceTopicGroups {
        SequenceTopicGroups { groups }
    }
}

} // verus!
