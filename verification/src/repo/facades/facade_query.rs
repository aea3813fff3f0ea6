//! The decisions of a query.
//!
//! A query runs in two stages. The catalog first names the chunks that may
//! hold matching records, from their column statistics; then each of those
//! chunks is read and probed for a record that does match. The ontology
//! filter is split by ontology tag, and each group of expressions is
//! searched on its own; the answers of the groups are merged. Asking the
//! catalog and reading files is done by the caller. What to ask next, and
//! what the answers amount to, is decided here.

use vstd::prelude::*;
use vstd::std_specs::hash::*;
use vstd::std_specs::iter::IteratorSpec;
use std::collections::{HashMap, HashSet};
use crate::query::filter::{
    keeps_order, partitions_by_tag, ExprGroup, Filter, SequenceFilter, TopicFilter, Value,
};
use crate::repo::facades::facade_error::FacadeError;
use crate::repo::sql_models::records::Chunk;
use crate::repo::sql_models::topic_record::TopicRecord;
use crate::rw::format::{format_named, Format};
use crate::types::groups::{SequenceTopicGroups};

verus! {

/// The topics put under their numbers one after the other: of several
/// with one number the last one stands.
pub open spec fn mapped(records: Seq<TopicRecord>) -> Map<i32, TopicRecord>
    decreases records.len(),
{
    if records.len() == 0 {
        Map::empty()
    } else {
        mapped(records.drop_last()).insert(records.last().topic_id, records.last())
    }
}

/// Topics by their number.
#[derive(Debug)]
pub struct TopicMap {
    topics: HashMap<i32, TopicRecord>,
}

impl TopicMap {
    #[verifier::type_invariant]
    spec fn well_formed(&self) -> bool {
        forall|id: i32| #[trigger] self.topics@.contains_key(id) ==> self.topics@[id].topic_id == id
    }

    /// The topics, each under its number.
    pub closed spec fn topics(&self) -> Map<i32, TopicRecord> {
        self.topics@
    }

    /// No topic.
    pub fn new() -> (r: TopicMap)
        ensures
            r.topics() == Map::<i32, TopicRecord>::empty(),
    {
        TopicMap { topics: HashMap::new() }
    }

    /// The map with `topic` under its number, in place of an earlier topic
    /// of that number.
    pub fn insert(self, topic: TopicRecord) -> (r: TopicMap)
        ensures
            r.topics() == self.topics().insert(topic.topic_id, topic),
    {
        broadcast use group_hash_axioms;

        proof {
            use_type_invariant(&self);
        }
        let mut topics = self.topics;
        let id = topic.topic_id;
        topics.insert(id, topic);
        TopicMap { topics }
    }

    /// The map of the given topics. Of several with one number the last one
    /// stands.
    pub fn from_records(records: Vec<TopicRecord>) -> (r: TopicMap)
        ensures
            r.topics() == mapped(records@),
    {
        let mut map = TopicMap::new();
        let ghost all = records@;
        proof {
            assert(all.take(0) =~= Seq::<TopicRecord>::empty());
        }
        for record in it: records.into_iter()
            invariant
                it.seq() == all,
                map.topics() == mapped(all.take(it.index() as int)),
        {
            proof {
                assert(all.take(it.index() + 1).drop_last() =~= all.take(it.index() as int));
            }
            map = map.insert(record);
        }
        proof {
            assert(all.take(all.len() as int) =~= all);
        }
        map
    }

    /// The topic numbered `id`, if there is one.
    pub fn get(&self, id: i32) -> (r: Option<&TopicRecord>)
        ensures
            match r {
                Some(topic) => self.topics().contains_key(id) && *topic == self.topics()[id]
                    && topic.topic_id == id,
                None => !self.topics().contains_key(id),
            },
    {
        broadcast use group_hash_axioms;

        proof {
            use_type_invariant(self);
        }
        self.topics.get(&id)
    }
}

/// The numbers of the topics of the chunks, in order.
pub open spec fn topic_ids_of(chunks: Seq<Chunk>) -> Seq<i32> {
    chunks.map_values(|c: Chunk| c.topic_id)
}

/// The numbers of the topics of the chunks, in order: what to ask the
/// catalog for when the topics are not at hand.
pub fn chunk_topic_ids(chunks: &Vec<Chunk>) -> (r: Vec<i32>)
    ensures
        r@ == topic_ids_of(chunks@),
{
    let mut ids: Vec<i32> = Vec::new();
    let mut k: usize = 0;
    while k < chunks.len()
        invariant
            0 <= k <= chunks@.len(),
            ids@ == topic_ids_of(chunks@.take(k as int)),
        decreases chunks@.len() - k,
    {
        ids.push(chunks[k].topic_id);
        proof {
            assert(chunks@.take(k + 1) =~= chunks@.take(k as int).push(chunks@[k as int]));
            assert(topic_ids_of(chunks@.take(k + 1)) =~= topic_ids_of(chunks@.take(k as int)).push(
                chunks@[k as int].topic_id,
            ));
        }
        k = k + 1;
    }
    proof {
        assert(chunks@.take(chunks@.len() as int) =~= chunks@);
    }
    ids
}

/// How the topics of candidate chunks are come by.
#[derive(Debug)]
pub enum PreFetch {
    /// The topics that the query was restricted to are at hand.
    Ready(TopicMap),
    /// The topics with these numbers are asked of the catalog, in one
    /// request.
    Fetch(Vec<i32>),
}

/// Decides how the topics of the candidate chunks are come by: the topics
/// that the query was restricted to are taken as they are, otherwise the
/// topics of the chunks are asked of the catalog in one request.
pub fn pre_fetch_topics(chunks: &Vec<Chunk>, on_topics: Option<Vec<TopicRecord>>) -> (r: PreFetch)
    ensures
        match on_topics {
            Some(topics) => r matches PreFetch::Ready(map) && map.topics() == mapped(topics@),
            None => r matches PreFetch::Fetch(ids) && ids@ == topic_ids_of(chunks@),
        },
{
    match on_topics {
        Some(topics) => PreFetch::Ready(TopicMap::from_records(topics)),
        None => PreFetch::Fetch(chunk_topic_ids(chunks)),
    }
}

/// What a query asks for, domain by domain.
#[derive(Debug)]
pub struct QueryPlan {
    pub sequence: Option<SequenceFilter>,
    pub topic: Option<TopicFilter>,
    /// Whether neither the sequence nor the topic is constrained, so that
    /// the search goes over all topics.
    pub no_topic_filter: bool,
    /// The ontology filter split by ontology tag; none where the ontology
    /// data is not constrained.
    pub groups: Option<Vec<ExprGroup<Value>>>,
}

/// Whether a sequence filter is absent or empty.
pub open spec fn sequence_unconstrained(f: Option<SequenceFilter>) -> bool {
    match f {
        None => true,
        Some(s) => s.name is None && s.creation is None && s.user_metadata is None,
    }
}

/// Whether a topic filter is absent or empty.
pub open spec fn topic_unconstrained(f: Option<TopicFilter>) -> bool {
    match f {
        None => true,
        Some(t) => t.name is None && t.creation is None && t.user_metadata is None
            && t.ontology_tag is None && t.serialization_format is None,
    }
}

/// The facade of queries.
#[derive(Debug)]
pub struct FacadeQuery {}

impl FacadeQuery {
    /// Lays out a query: whether the topics are constrained, and the groups
    /// of expressions to search, one for each ontology tag.
    pub fn plan(filter: Filter) -> (r: QueryPlan)
        ensures
            r.sequence == filter.sequence,
            r.topic == filter.topic,
            r.no_topic_filter == (sequence_unconstrained(filter.sequence) && topic_unconstrained(
                filter.topic,
            )),
            match filter.ontology {
                None => r.groups is None,
                Some(f) => r.groups matches Some(groups) && partitions_by_tag(f.entries(), groups@)
                    && keeps_order(f.entries(), groups@),
            },
    {
        let (seq_filt, top_filt, on_filt) = filter.into_parts();
        let no_sequence = match &seq_filt {
            None => true,
            Some(s) => s.is_empty(),
        };
        let no_topic = match &top_filt {
            None => true,
            Some(t) => t.is_empty(),
        };
        let groups = match on_filt {
            None => None,
            Some(f) => Some(f.into_expr_group().split_by_ontology_tag()),
        };
        QueryPlan {
            sequence: seq_filt,
            topic: top_filt,
            no_topic_filter: no_sequence && no_topic,
            groups,
        }
    }

    /// Takes the answer of one more group into the answer of the query: the
    /// first answer stands as it is, each further one is merged into it.
    pub fn accumulate(result: Option<SequenceTopicGroups>, groups: SequenceTopicGroups) -> (r:
        SequenceTopicGroups)
        ensures
            match result {
                None => r == groups,
                Some(so_far) => r@ == so_far@.merged(groups@),
            },
    {
        match result {
            Some(so_far) => so_far.merge(groups),
            None => groups,
        }
    }

    /// The answer of the query: what was gathered, or no sequence where no
    /// group was searched.
    pub fn conclude(result: Option<SequenceTopicGroups>) -> (r: SequenceTopicGroups)
        ensures
            match result {
                None => r.groups@.len() == 0,
                Some(groups) => r == groups,
            },
    {
        match result {
            Some(groups) => groups,
            None => SequenceTopicGroups::default(),
        }
    }
}

/// What the search of a group does next.
#[derive(Debug)]
pub enum ScanStep {
    /// Read the data file in the format, apply the expressions of the
    /// group, and probe for one row.
    Probe { data_file: String, format: Format },
    /// A chunk has no topic at hand: the answer of the group is empty.
    Abandon,
    /// Every chunk was probed.
    Done,
}

/// What a [`ScanStep`] holds, the file by its characters.
pub enum ScanStepView {
    Probe { data_file: Seq<char>, format: Format },
    Abandon,
    Done,
}

impl View for ScanStep {
    type V = ScanStepView;

    open spec fn view(&self) -> ScanStepView {
        match self {
            ScanStep::Probe { data_file, format } => ScanStepView::Probe {
                data_file: data_file@,
                format: *format,
            },
            ScanStep::Abandon => ScanStepView::Abandon,
            ScanStep::Done => ScanStepView::Done,
        }
    }
}

/// Why the search of a group fails.
pub enum ScanFault {
    /// The topic of a chunk names no serialization format.
    MissingFormat { topic: Seq<char> },
    /// The topic of a chunk names a serialization format that does not
    /// exist.
    UnknownFormat { name: Seq<char> },
}

/// Whether the error tells the fault.
pub open spec fn tells(e: FacadeError, fault: ScanFault) -> bool {
    match (e, fault) {
        (FacadeError::MissingSerializationFormat(n), ScanFault::MissingFormat { topic }) => n@
            == topic,
        (
            FacadeError::DataSerializationError(crate::rw::error::Error::UnkownFormat(n)),
            ScanFault::UnknownFormat { name },
        ) => n@ == name,
        _ => false,
    }
}

/// What the search of a group does with the chunk at `position`, or at the
/// end of the chunks.
pub open spec fn step_at(chunks: Seq<Chunk>, topics: Map<i32, TopicRecord>, position: int) -> Result<
    ScanStepView,
    ScanFault,
> {
    if position >= chunks.len() {
        Ok(ScanStepView::Done)
    } else if !topics.contains_key(chunks[position].topic_id) {
        Ok(ScanStepView::Abandon)
    } else {
        let topic = topics[chunks[position].topic_id];
        match topic.serialization_format {
            None => Err(ScanFault::MissingFormat { topic: topic.locator_name@ }),
            Some(name) => match format_named(name@) {
                Some(format) => Ok(
                    ScanStepView::Probe { data_file: chunks[position].data_file@, format },
                ),
                None => Err(ScanFault::UnknownFormat { name: name@ }),
            },
        }
    }
}

/// The search of one group of expressions over its candidate chunks.
///
/// The chunks are probed one after the other. A topic has data when one of
/// its chunks holds a matching row.
#[derive(Debug)]
pub struct ChunkScan {
    topics: TopicMap,
    chunks: Vec<Chunk>,
    next: usize,
    with_data: HashSet<i32>,
}

impl ChunkScan {
    #[verifier::type_invariant]
    spec fn well_formed(&self) -> bool {
        self.next <= self.chunks@.len()
    }

    /// The candidate chunks.
    pub closed spec fn chunks(&self) -> Seq<Chunk> {
        self.chunks@
    }

    /// The topics at hand, each under its number.
    pub closed spec fn topics(&self) -> Map<i32, TopicRecord> {
        self.topics.topics()
    }

    /// How many chunks were probed.
    pub closed spec fn position(&self) -> nat {
        self.next as nat
    }

    /// The numbers of the topics that have data.
    pub closed spec fn with_data(&self) -> Set<i32> {
        self.with_data@
    }

    /// Whether the topic is the one at hand under its number, and has data.
    pub open spec fn is_match(&self, topic: &TopicRecord) -> bool {
        self.topics().contains_key(topic.topic_id) && self.topics()[topic.topic_id] == *topic
            && self.with_data().contains(topic.topic_id)
    }

    /// The search over the candidate chunks, with the topics at hand.
    pub fn new(chunks: Vec<Chunk>, topics: TopicMap) -> (r: ChunkScan)
        ensures
            r.chunks() == chunks@,
            r.topics() == topics.topics(),
            r.position() == 0,
            r.with_data() == Set::<i32>::empty(),
    {
        ChunkScan { topics, chunks, next: 0, with_data: HashSet::new() }
    }

    /// What to do next. A topic with data must name its serialization
    /// format, and one that exists: otherwise the search fails.
    pub fn step(&self) -> (r: Result<ScanStep, FacadeError>)
        ensures
            match r {
                Ok(step) => step_at(self.chunks(), self.topics(), self.position() as int) == Ok::<
                    ScanStepView,
                    ScanFault,
                >(step@),
                Err(e) => match step_at(self.chunks(), self.topics(), self.position() as int) {
                    Err(fault) => tells(e, fault),
                    Ok(_) => false,
                },
            },
    {
        proof {
            use_type_invariant(self);
        }
        if self.next >= self.chunks.len() {
            return Ok(ScanStep::Done);
        }
        let chunk = &self.chunks[self.next];
        match self.topics.get(chunk.topic_id) {
            None => Ok(ScanStep::Abandon),
            Some(topic) => match topic.try_serialization_format() {
                Ok(Some(format)) => Ok(
                    ScanStep::Probe { data_file: chunk.data_file.clone(), format },
                ),
                Ok(None) => Err(
                    FacadeError::MissingSerializationFormat(topic.locator_name.clone()),
                ),
                Err(e) => Err(FacadeError::DataSerializationError(e)),
            },
        }
    }

    /// Takes the answer of the probe of the current chunk: with a matching
    /// row the topic of the chunk has data. At the end nothing changes.
    pub fn record(self, has_rows: bool) -> (r: ChunkScan)
        ensures
            r.chunks() == self.chunks(),
            r.topics() == self.topics(),
            self.position() >= self.chunks().len() ==> r.position() == self.position()
                && r.with_data() == self.with_data(),
            self.position() < self.chunks().len() ==> r.position() == self.position() + 1
                && r.with_data() == if has_rows {
                self.with_data().insert(self.chunks()[self.position() as int].topic_id)
            } else {
                self.with_data()
            },
    {
        broadcast use group_hash_axioms;

        proof {
            use_type_invariant(&self);
        }
        let ChunkScan { topics, chunks, next, mut with_data } = self;
        if next >= chunks.len() {
            return ChunkScan { topics, chunks, next, with_data };
        }
        if has_rows {
            with_data.insert(chunks[next].topic_id);
        }
        ChunkScan { topics, chunks, next: next + 1, with_data }
    }

    /// The topics that have data: each of them once, in the order in which
    /// the map hands its topics out.
    pub fn matched(&self) -> (r: Vec<&TopicRecord>)
        ensures
            forall|i: int| 0 <= i < r@.len() ==> self.is_match(#[trigger] r@[i]),
            forall|id: i32|
                self.topics().contains_key(id) && #[trigger] self.with_data().contains(id)
                    ==> exists|i: int| 0 <= i < r@.len() && (#[trigger] r@[i]).topic_id == id,
            forall|i: int, j: int|
                0 <= i < j < r@.len() ==> (#[trigger] r@[i]).topic_id != (
                #[trigger] r@[j]).topic_id,
    {
        broadcast use group_hash_axioms;

        proof {
            use_type_invariant(&self.topics);
        }
        let mut out: Vec<&TopicRecord> = Vec::new();
        let ghost mut picked: Seq<int> = Seq::empty();
        let ghost walk = self.topics.topics.keys().remaining();
        proof {
            axiom_spec_keys_iter(&self.topics.topics);
        }
        for id in it: self.topics.topics.keys()
            invariant
                it.seq() == walk,
                walk.no_duplicates(),
                walk.unref().to_set() == self.topics().dom(),
                forall|id: i32| #[trigger]
                    self.topics().contains_key(id) ==> self.topics()[id].topic_id == id,
                picked.len() == out@.len(),
                forall|i: int| 0 <= i < picked.len() ==> 0 <= #[trigger] picked[i] < it.index(),
                forall|i: int, j: int|
                    0 <= i < j < picked.len() ==> #[trigger] picked[i] < #[trigger] picked[j],
                forall|i: int|
                    0 <= i < out@.len() ==> self.is_match(#[trigger] out@[i]) && out@[i].topic_id
                        == *walk[picked[i]],
                forall|j: int|
                    0 <= j < it.index() && self.with_data().contains(*#[trigger] walk[j])
                        ==> exists|i: int| 0 <= i < picked.len() && #[trigger] picked[i] == j,
        {
            let ghost at = it.index();
            proof {
                assert(walk.unref()[at] == *id);
                assert(walk.unref().to_set().contains(*id));
            }
            if self.with_data.contains(id) {
                if let Some(topic) = self.topics.topics.get(id) {
                    out.push(topic);
                    proof {
                        let before = picked;
                        picked = picked.push(at);
                        assert forall|j: int|
                            0 <= j < at + 1 && self.with_data().contains(
                                *#[trigger] walk[j],
                            ) implies exists|i: int|
                            0 <= i < picked.len() && #[trigger] picked[i] == j by {
                            if j < at {
                                let i = choose|i: int|
                                    0 <= i < before.len() && #[trigger] before[i] == j;
                                assert(picked[i] == j);
                            } else {
                                assert(picked[before.len() as int] == j);
                            }
                        }
                    }
                }
            }
        }
        proof {
            assert forall|id: i32|
                self.topics().contains_key(id) && #[trigger] self.with_data().contains(
                    id,
                ) implies exists|i: int| 0 <= i < out@.len() && (#[trigger] out@[i]).topic_id
                == id by {
                assert(walk.unref().to_set().contains(id));
                let j = choose|j: int| 0 <= j < walk.unref().len() && walk.unref()[j] == id;
                assert(*walk[j] == id);
                let i = choose|i: int| 0 <= i < picked.len() && #[trigger] picked[i] == j;
                assert(out@[i].topic_id == id);
            }
            assert forall|i: int, j: int| 0 <= i < j < out@.len() implies (#[trigger] out@[i]).topic_id
                != (#[trigger] out@[j]).topic_id by {
                assert(picked[i] < picked[j]);
                assert(walk[picked[i]] != walk[picked[j]]);
            }
        }
        out
    }
}

} // verus!
