//! What the query action decides.

use vstd::prelude::*;
use crate::query::filter::{keeps_order, partitions_by_tag, Filter};
use crate::repo::facades::facade_query::{
    sequence_unconstrained, topic_unconstrained, FacadeQuery, QueryPlan,
};

verus! {

/// The query action.
#[derive(Debug)]
pub struct QueryActionHandler;

impl QueryActionHandler {
    /// Lays out the query of a request.
    pub fn execute(filter: Filter) -> (r: QueryPlan)
        ensures
            r.sequence == filter.sequence,
            r.topic == filter.topic,
            r.no_topic_filter == (sequence_unconstrained(filter.sequence) && topic_unconstrained(
                filter.topic,
            )),
            match filter.ontology {
                None => r.groups is None,
                Some(f) => r.groups matches Some(groups) && partitions_by_tag(f.entries(), groups@)
                    && keeps_order(f.entries(), groups@),
            },
    {
        FacadeQuery::plan(filter)
    }
}

} // verus!
