//! Channel records of a snapshot: parsing, pruning and aggregation.

use crate::channel::{edge_position, has_edge, ChannelEdge, EdgeTable};
use crate::indexer::{distinct, AddressIndexer, NodeId};
use crate::text::{decimal, parse_decimal, text_bytes};
use vstd::prelude::*;

verus! {

/// A channel record as the snapshot gives it, numbers still as text.
#[derive(Clone, Debug)]
pub struct RawChannel {
    pub enabled: bool,
    pub src: String,
    pub trg: String,
    pub capacity: String,
    pub fee_base: String,
    pub fee_rate: String,
}

/// A channel record with its numbers read.
#[derive(Clone, Debug)]
pub struct ChannelRecord {
    pub enabled: bool,
    pub src: String,
    pub trg: String,
    pub capacity: u64,
    pub fee_base: u64,
    pub fee_rate: u64,
}

/// The numeric fields of a record.
#[derive(Clone, Copy, Debug, PartialEq, Eq, Structural)]
pub enum NumericField {
    Capacity,
    FeeBase,
    FeeRate,
}

/// A numeric field that denotes no 64-bit number, with the position of its
/// record in the snapshot.
#[derive(Clone, Copy, Debug, PartialEq, Eq, Structural)]
pub struct ParseError {
    pub field: NumericField,
    pub record_index: usize,
}

/// The first numeric field of `raw` that is malformed, in the order
/// capacity, base fee, fee rate.
pub open spec fn malformed_field(raw: RawChannel) -> Option<NumericField> {
    if decimal(text_bytes(raw.capacity@)) is None {
        Some(NumericField::Capacity)
    } else if decimal(text_bytes(raw.fee_base@)) is None {
        Some(NumericField::FeeBase)
    } else if decimal(text_bytes(raw.fee_rate@)) is None {
        Some(NumericField::FeeRate)
    } else {
        None
    }
}

/// The record that `raw` denotes when none of its fields is malformed.
pub open spec fn record_of(raw: RawChannel) -> ChannelRecord {
    ChannelRecord {
        enabled: raw.enabled,
        src: raw.src,
        trg: raw.trg,
        capacity: decimal(text_bytes(raw.capacity@))->0,
        fee_base: decimal(text_bytes(raw.fee_base@))->0,
        fee_rate: decimal(text_bytes(raw.fee_rate@))->0,
    }
}

/// Reads the numeric fields of the record at position `index`.
pub fn parse_record(raw: &RawChannel, index: usize) -> (parsed: Result<ChannelRecord, ParseError>)
    ensures
        match parsed {
            Ok(record) => malformed_field(*raw) is None && record == record_of(*raw),
            Err(e) => malformed_field(*raw) == Some(e.field) && e.record_index == index,
        },
{
    let capacity = match parse_decimal(raw.capacity.as_str()) {
        Some(n) => n,
        None => {
            return Err(ParseError { field: NumericField::Capacity, record_index: index });
        },
    };
    let fee_base = match parse_decimal(raw.fee_base.as_str()) {
        Some(n) => n,
        None => {
            return Err(ParseError { field: NumericField::FeeBase, record_index: index });
        },
    };
    let fee_rate = match parse_decimal(raw.fee_rate.as_str()) {
        Some(n) => n,
        None => {
            return Err(ParseError { field: NumericField::FeeRate, record_index: index });
        },
    };
    Ok(
        ChannelRecord {
            enabled: raw.enabled,
            src: raw.src.clone(),
            trg: raw.trg.clone(),
            capacity,
            fee_base,
            fee_rate,
        },
    )
}

/// Reads every record of a snapshot, stopping at the first malformed field.
pub fn parse_records(raws: &Vec<RawChannel>) -> (parsed: Result<Vec<ChannelRecord>, ParseError>)
    ensures
        match parsed {
            Ok(records) => {
                &&& records@.len() == raws@.len()
                &&& forall|i: int|
                    0 <= i < raws@.len() ==> malformed_field(#[trigger] raws@[i]) is None
                        && records@[i] == record_of(raws@[i])
            },
            Err(e) => {
                &&& e.record_index < raws@.len()
                &&& malformed_field(raws@[e.record_index as int]) == Some(e.field)
                &&& forall|i: int|
                    0 <= i < e.record_index ==> malformed_field(#[trigger] raws@[i]) is None
            },
        },
{
    let mut records: Vec<ChannelRecord> = Vec::new();
    let mut i: usize = 0;
    while i < raws.len()
        invariant
            i <= raws@.len(),
            records@.len() == i,
            forall|j: int|
                0 <= j < i ==> malformed_field(#[trigger] raws@[j]) is None && records@[j]
                    == record_of(raws@[j]),
        decreases raws@.len() - i,
    {
        match parse_record(&raws[i], i) {
            Ok(record) => {
                records.push(record);
            },
            Err(e) => {
                return Err(e);
            },
        }
        i += 1;
    }
    Ok(records)
}

/// A record is kept when its channel is enabled and can carry `minimum`.
pub open spec fn survives(record: ChannelRecord, minimum: u64) -> bool {
    record.enabled && record.capacity >= minimum
}

/// The addresses seen and the edges built from a prefix of the records.
pub struct Aggregate {
    pub names: Seq<Seq<char>>,
    pub edges: Seq<ChannelEdge>,
}

/// `names` with `address` appended unless it is already there.
pub open spec fn with_address(names: Seq<Seq<char>>, address: Seq<char>) -> Seq<Seq<char>> {
    if names.contains(address) {
        names
    } else {
        names.push(address)
    }
}

/// The aggregate after one more record. A record that does not survive
/// changes nothing. One that does has its endpoints interned, source first;
/// the first record of an ordered pair founds the edge with its capacity and
/// fee policy, and a later one only adds its capacity. The result is `None`
/// when the summed capacity no longer fits 64 bits.
pub open spec fn absorb(state: Aggregate, record: ChannelRecord, minimum: u64) -> Option<
    Aggregate,
> {
    if !survives(record, minimum) {
        Some(state)
    } else {
        let names = with_address(with_address(state.names, record.src@), record.trg@);
        let src = names.index_of(record.src@) as NodeId;
        let trg = names.index_of(record.trg@) as NodeId;
        if has_edge(state.edges, src, trg) {
            let at = edge_position(state.edges, src, trg);
            let sum = state.edges[at].capacity + record.capacity;
            if sum > u64::MAX {
                None
            } else {
                Some(
                    Aggregate {
                        names,
                        edges: state.edges.update(
                            at,
                            ChannelEdge { capacity: sum as u64, ..state.edges[at] },
                        ),
                    },
                )
            }
        } else {
            Some(
                Aggregate {
                    names,
                    edges: state.edges.push(
                        ChannelEdge {
                            src,
                            trg,
                            capacity: record.capacity,
                            fee_base: record.fee_base,
                            fee_rate: record.fee_rate,
                        },
                    ),
                },
            )
        }
    }
}

/// The aggregate of the first `n` records.
pub open spec fn aggregated(records: Seq<ChannelRecord>, minimum: u64, n: int) -> Option<
    Aggregate,
>
    decreases n,
{
    if n <= 0 {
        Some(Aggregate { names: Seq::empty(), edges: Seq::empty() })
    } else {
        match aggregated(records, minimum, n - 1) {
            Some(state) => absorb(state, records[n - 1], minimum),
            None => None,
        }
    }
}

/// Every endpoint of every edge is below `nodes`.
pub open spec fn endpoints_below(edges: Seq<ChannelEdge>, nodes: int) -> bool {
    forall|i: int| 0 <= i < edges.len() ==> (#[trigger] edges[i]).src < nodes && edges[i].trg < nodes
}

/// Every edge can carry `minimum`.
pub open spec fn capacities_at_least(edges: Seq<ChannelEdge>, minimum: u64) -> bool {
    forall|i: int| 0 <= i < edges.len() ==> (#[trigger] edges[i]).capacity >= minimum
}

/// Among distinct names, an address is found where it stands.
proof fn lemma_index_of(names: Seq<Seq<char>>, i: int, address: Seq<char>)
    requires
        distinct(names),
        0 <= i < names.len(),
        names[i] == address,
    ensures
        names.index_of(address) == i,
{
    let j = names.index_of(address);
    assert(0 <= j < names.len() && names[j] == address);
    if j < i {
        assert(names[j] != names[i]);
    } else if i < j {
        assert(names[i] != names[j]);
    }
}

/// Prunes and aggregates the records of a snapshot. Records of disabled
/// channels and of channels that cannot carry `minimum` are skipped; the
/// others are grouped by their ordered endpoint pair, in order of first
/// appearance. Fails at the first record whose capacity would carry the sum
/// for its pair beyond 64 bits.
pub fn aggregate(records: &Vec<ChannelRecord>, minimum: u64) -> (built: Result<
    (EdgeTable, AddressIndexer),
    ParseError,
>)
    requires
        2 * records@.len() < u32::MAX,
    ensures
        match built {
            Ok((table, indexer)) => {
                &&& table.wf()
                &&& indexer.wf()
                &&& aggregated(records@, minimum, records@.len() as int) == Some(
                    Aggregate { names: indexer@, edges: table@ },
                )
                &&& endpoints_below(table@, indexer@.len() as int)
                &&& capacities_at_least(table@, minimum)
                &&& table@.len() <= records@.len()
            },
            Err(e) => {
                &&& e.field == NumericField::Capacity
                &&& e.record_index < records@.len()
                &&& aggregated(records@, minimum, e.record_index as int) is Some
                &&& aggregated(records@, minimum, e.record_index + 1) is None
            },
        },
{
    let mut table = EdgeTable::new();
    let mut indexer = AddressIndexer::new();
    let mut i: usize = 0;
    while i < records.len()
        invariant
            i <= records@.len(),
            2 * records@.len() < u32::MAX,
            table.wf(),
            indexer.wf(),
            indexer@.len() <= 2 * i,
            table@.len() <= i,
            aggregated(records@, minimum, i as int) == Some(
                Aggregate { names: indexer@, edges: table@ },
            ),
            endpoints_below(table@, indexer@.len() as int),
            capacities_at_least(table@, minimum),
        decreases records@.len() - i,
    {
        let record = &records[i];
        let ghost before = Aggregate { names: indexer@, edges: table@ };
        assert(aggregated(records@, minimum, i + 1) == absorb(before, records@[i as int], minimum));
        if record.enabled && record.capacity >= minimum {
            let src = indexer.intern(&record.src);
            let ghost middle = indexer@;
            let trg = indexer.intern(&record.trg);
            proof {
                assert(middle == with_address(before.names, record.src@));
                assert(indexer@ == with_address(middle, record.trg@));
                assert(indexer@[src as int] == record.src@);
                lemma_index_of(indexer@, src as int, record.src@);
                lemma_index_of(indexer@, trg as int, record.trg@);
            }
            match table.find(src, trg) {
                Some(at) => {
                    let edge = table.get(at);
                    match edge.capacity.checked_add(record.capacity) {
                        Some(sum) => {
                            table.set_capacity(at, sum);
                        },
                        None => {
                            return Err(
                                ParseError { field: NumericField::Capacity, record_index: i },
                            );
                        },
                    }
                },
                None => {
                    table.push(
                        ChannelEdge {
                            src,
                            trg,
                            capacity: record.capacity,
                            fee_base: record.fee_base,
                            fee_rate: record.fee_rate,
                        },
                    );
                },
            }
        }
        i += 1;
    }
    Ok((table, indexer))
}

} // verus!
