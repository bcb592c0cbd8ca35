//! From snapshot records to a channel graph ready for simulation.

use crate::graph::{draws_before, initial_balance, ChannelGraph};
use crate::indexer::AddressIndexer;
use crate::random::{state_after, RandomSource};
use crate::snapshot::{
    aggregate, aggregated, capacities_at_least, malformed_field, parse_records, record_of,
    Aggregate, ChannelRecord, NumericField, ParseError, RawChannel,
};
use vstd::prelude::*;

verus! {

/// The records that well-formed raw records denote.
pub open spec fn records_of(raws: Seq<RawChannel>) -> Seq<ChannelRecord> {
    Seq::new(raws.len(), |i: int| record_of(raws[i]))
}

/// No numeric field of any record is malformed.
pub open spec fn well_formed(raws: Seq<RawChannel>) -> bool {
    forall|i: int| 0 <= i < raws.len() ==> malformed_field(#[trigger] raws[i]) is None
}

/// `e` reports the first malformed field of the snapshot.
pub open spec fn reports_malformed(raws: Seq<RawChannel>, e: ParseError) -> bool {
    &&& e.record_index < raws.len()
    &&& malformed_field(raws[e.record_index as int]) == Some(e.field)
    &&& forall|i: int| 0 <= i < e.record_index ==> malformed_field(#[trigger] raws[i]) is None
}

/// `e` reports the record at which the capacity summed for an edge leaves
/// the 64-bit range, in a snapshot without malformed fields.
pub open spec fn reports_overflow(raws: Seq<RawChannel>, amount: u64, e: ParseError) -> bool {
    &&& well_formed(raws)
    &&& e.field == NumericField::Capacity
    &&& e.record_index < raws.len()
    &&& aggregated(records_of(raws), amount, e.record_index as int) is Some
    &&& aggregated(records_of(raws), amount, e.record_index + 1) is None
}

/// Builds the channel graph of a snapshot: reads the numeric fields of
/// every record, prunes channels that are disabled or cannot carry
/// `amount`, aggregates the rest by ordered endpoint pair while interning
/// the addresses, and draws the starting balances from `rng`. A malformed
/// record fails the whole load; nothing is drawn then.
pub fn load_graph(raws: &Vec<RawChannel>, amount: u64, rng: &mut RandomSource) -> (loaded: Result<
    (ChannelGraph, AddressIndexer),
    ParseError,
>)
    requires
        2 * raws@.len() < u32::MAX,
    ensures
        match loaded {
            Ok((graph, indexer)) => {
                &&& graph.wf()
                &&& indexer.wf()
                &&& well_formed(raws@)
                &&& aggregated(records_of(raws@), amount, raws@.len() as int) == Some(
                    Aggregate { names: indexer@, edges: graph@.edges },
                )
                &&& graph@.nodes == indexer@.len()
                &&& graph@.amount == amount
                &&& capacities_at_least(graph@.edges, amount)
                &&& forall|i: int|
                    0 <= i < graph@.edges.len() ==> #[trigger] graph@.balances[i] as int
                        == initial_balance(graph@.edges, old(rng)@, i)
                &&& final(rng)@ == state_after(
                    old(rng)@,
                    draws_before(graph@.edges, graph@.edges.len() as int),
                )
            },
            Err(e) => {
                &&& reports_malformed(raws@, e) || reports_overflow(raws@, amount, e)
                &&& final(rng)@ == old(rng)@
            },
        },
{
    let records = match parse_records(raws) {
        Ok(records) => records,
        Err(e) => {
            return Err(e);
        },
    };
    assert(records@ =~= records_of(raws@));
    let (table, indexer) = match aggregate(&records, amount) {
        Ok(built) => built,
        Err(e) => {
            return Err(e);
        },
    };
    let nodes: u32 = indexer.len() as u32;
    let graph = ChannelGraph::new(table, nodes, amount, rng);
    Ok((graph, indexer))
}

} // verus!
