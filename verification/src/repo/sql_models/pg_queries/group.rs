//! Grouping topics by their sequence.
//!
//! The topics that match a query are handed out by sequence. A topic only
//! names the number of its sequence, so the record of each sequence is asked
//! of the catalog once, when its first topic comes. What is asked, and what
//! the groups are, is decided here. The topics of a group come in the order
//! given; the groups come in the order in which the map hands them out.

use vstd::prelude::*;
use vstd::std_specs::hash::*;
use vstd::std_specs::iter::IteratorSpec;
use std::collections::hash_map::Entry;
use std::collections::HashMap;
use crate::repo::sql_models::records::SequenceRecord;
use crate::repo::sql_models::topic_record::TopicRecord;
use crate::types::groups::SequenceTopicGroup;
use crate::types::resource::{SequenceResourceLocator, TopicResourceLocator};

verus! {

/// What a group holds: the name of the sequence, and the names of the
/// topics.
pub struct GroupShape {
    pub sequence: Seq<char>,
    pub topics: Seq<Seq<char>>,
}

/// The names of the topics.
pub open spec fn topic_names(topics: Seq<TopicResourceLocator>) -> Seq<Seq<char>> {
    topics.map_values(|t: TopicResourceLocator| t.name@)
}

/// What the group holds.
pub open spec fn shape_of(group: SequenceTopicGroup) -> GroupShape {
    GroupShape { sequence: group.sequence.name@, topics: topic_names(group.topics@) }
}

/// Whether `order` names each sequence of the groups once, and `out` holds
/// the groups of the sequences in that order.
pub open spec fn handed_out(
    groups: Map<i32, GroupShape>,
    order: Seq<i32>,
    out: Seq<SequenceTopicGroup>,
) -> bool {
    &&& order.no_duplicates()
    &&& order.to_set() == groups.dom()
    &&& out.len() == order.len()
    &&& forall|i: int|
        0 <= i < out.len() ==> groups.contains_key(order[i]) && shape_of(#[trigger] out[i])
            == groups[order[i]]
}

/// Groups of topics by sequence, under construction.
#[derive(Debug)]
pub struct SequenceGrouping {
    entries: HashMap<i32, SequenceTopicGroup>,
}

impl SequenceGrouping {
    /// The groups so far, each under the number of its sequence.
    pub closed spec fn groups(&self) -> Map<i32, GroupShape> {
        self.entries@.map_values(|g: SequenceTopicGroup| shape_of(g))
    }

    /// No group yet.
    pub fn new() -> (r: SequenceGrouping)
        ensures
            r.groups() == Map::<i32, GroupShape>::empty(),
    {
        let r = SequenceGrouping { entries: HashMap::new() };
        proof {
            assert(r.groups() =~= Map::<i32, GroupShape>::empty());
        }
        r
    }

    /// Offers a topic. Where there is a group of its sequence, the topic
    /// joins it and nothing is asked. Otherwise nothing changes and the
    /// number of the sequence to ask the catalog for is returned.
    pub fn offer(&mut self, topic: &TopicRecord) -> (r: Option<i32>)
        ensures
            ({
                let before = old(self).groups();
                let id = topic.sequence_id;
                if before.contains_key(id) {
                    r is None && final(self).groups() == before.insert(
                        id,
                        GroupShape {
                            topics: before[id].topics.push(topic.locator_name@),
                            ..before[id]
                        },
                    )
                } else {
                    r == Some(id) && final(self).groups() == before
                }
            }),
    {
        broadcast use group_hash_axioms;

        let ghost before = self.groups();
        let ghost held = self.entries@;
        match self.entries.entry(topic.sequence_id) {
            Entry::Occupied(mut entry) => {
                let group = entry.get_mut();
                group.topics.push(TopicResourceLocator { name: topic.locator_name.clone() });
                proof {
                    let id = topic.sequence_id;
                    assert(topic_names(self.entries@[id].topics@) =~= topic_names(
                        held[id].topics@,
                    ).push(topic.locator_name@));
                    assert(self.groups() =~= before.insert(
                        id,
                        GroupShape {
                            topics: before[id].topics.push(topic.locator_name@),
                            ..before[id]
                        },
                    ));
                }
                None
            },
            Entry::Vacant(_) => {
                proof {
                    assert(self.groups() =~= before);
                }
                Some(topic.sequence_id)
            },
        }
    }

    /// Opens the group of a sequence with its first topic. A group of a
    /// sequence with the same number gives way to it.
    pub fn open(&mut self, sequence: &SequenceRecord, topic: &TopicRecord)
        ensures
            final(self).groups() == old(self).groups().insert(
                sequence.sequence_id,
                GroupShape { sequence: sequence.locator_name@, topics: seq![topic.locator_name@] },
            ),
    {
        broadcast use group_hash_axioms;

        let ghost before = self.groups();
        let mut topics: Vec<TopicResourceLocator> = Vec::new();
        topics.push(TopicResourceLocator { name: topic.locator_name.clone() });
        let group = SequenceTopicGroup::new(
            SequenceResourceLocator { name: sequence.locator_name.clone() },
            topics,
        );
        proof {
            assert(topic_names(group.topics@) =~= seq![topic.locator_name@]);
        }
        self.entries.insert(sequence.sequence_id, group);
        proof {
            assert(self.groups() =~= before.insert(
                sequence.sequence_id,
                GroupShape { sequence: sequence.locator_name@, topics: seq![topic.locator_name@] },
            ));
        }
    }

    /// The groups: that of each sequence once, in the order in which the
    /// map hands its sequences out.
    pub fn into_groups(self) -> (r: Vec<SequenceTopicGroup>)
        ensures
            exists|order: Seq<i32>| #[trigger] handed_out(self.groups(), order, r@),
    {
        broadcast use group_hash_axioms;

        let mut entries = self.entries;
        let ghost held = entries@;
        let ghost walk = entries.keys().remaining();
        proof {
            axiom_spec_keys_iter(&entries);
        }
        // The map hands its groups out by reference only: their numbers are
        // gathered, and each group is taken out under its number.
        let mut ids: Vec<i32> = Vec::new();
        for id in it: entries.keys()
            invariant
                it.seq() == walk,
                ids@ == walk.unref().take(it.index()),
        {
            ids.push(*id);
            proof {
                assert(walk.unref().take(it.index() + 1) =~= walk.unref().take(it.index()).push(
                    *id,
                ));
            }
        }
        proof {
            assert(walk.unref().take(walk.len() as int) =~= walk.unref());
            assert(ids@.no_duplicates());
        }
        let mut out: Vec<SequenceTopicGroup> = Vec::new();
        let mut k: usize = 0;
        while k < ids.len()
            invariant
                0 <= k <= ids@.len(),
                ids@.no_duplicates(),
                ids@.to_set() == held.dom(),
                out@.len() == k,
                forall|j: int|
                    k <= j < ids@.len() ==> entries@.contains_key(#[trigger] ids@[j])
                        && entries@[ids@[j]] == held[ids@[j]],
                forall|i: int| 0 <= i < k ==> #[trigger] out@[i] == held[ids@[i]],
            decreases ids@.len() - k,
        {
            if let Some(group) = entries.remove(&ids[k]) {
                out.push(group);
            }
            k = k + 1;
        }
        proof {
            assert forall|i: int| 0 <= i < out@.len() implies self.groups().contains_key(
                ids@[i],
            ) && shape_of(#[trigger] out@[i]) == self.groups()[ids@[i]] by {
                assert(ids@.to_set().contains(ids@[i]));
            }
            assert(self.groups().dom() =~= held.dom());
            assert(handed_out(self.groups(), ids@, out@));
        }
        out
    }
}

} // verus!
