//! Channel edges and the table that finds an edge by its endpoints.

use crate::fees::FeePolicy;
use crate::indexer::NodeId;
use std::collections::HashMap;
use vstd::prelude::*;

verus! {

/// One direction of a channel after aggregation.
#[derive(Clone, Copy, Debug, PartialEq, Eq, Structural)]
pub struct ChannelEdge {
    pub src: NodeId,
    pub trg: NodeId,
    pub capacity: u64,
    pub fee_base: u64,
    pub fee_rate: u64,
}

impl ChannelEdge {
    /// The fee policy of this edge.
    pub open spec fn policy(self) -> FeePolicy {
        FeePolicy { fee_base: self.fee_base, fee_rate: self.fee_rate }
    }

    /// The fee policy of this edge.
    pub fn fee_policy(&self) -> (policy: FeePolicy)
        ensures
            policy == self.policy(),
    {
        FeePolicy { fee_base: self.fee_base, fee_rate: self.fee_rate }
    }
}

/// `edges[i]` runs from `src` to `trg`.
pub open spec fn joins(edges: Seq<ChannelEdge>, i: int, src: NodeId, trg: NodeId) -> bool {
    0 <= i < edges.len() && edges[i].src == src && edges[i].trg == trg
}

/// Some edge runs from `src` to `trg`.
pub open spec fn has_edge(edges: Seq<ChannelEdge>, src: NodeId, trg: NodeId) -> bool {
    exists|i: int| joins(edges, i, src, trg)
}

/// The position of an edge from `src` to `trg`; meaningful when there is one.
pub open spec fn edge_position(edges: Seq<ChannelEdge>, src: NodeId, trg: NodeId) -> int {
    choose|i: int| joins(edges, i, src, trg)
}

/// No ordered pair of endpoints has two edges.
pub open spec fn unique_pairs(edges: Seq<ChannelEdge>) -> bool {
    forall|i: int, j: int|
        0 <= i < j < edges.len() ==> !(edges[i].src == edges[j].src && edges[i].trg
            == edges[j].trg)
}

/// With unique pairs, an edge that joins two nodes is at `edge_position`.
pub proof fn lemma_edge_position(edges: Seq<ChannelEdge>, i: int, src: NodeId, trg: NodeId)
    requires
        unique_pairs(edges),
        joins(edges, i, src, trg),
    ensures
        has_edge(edges, src, trg),
        edge_position(edges, src, trg) == i,
{
    let p = edge_position(edges, src, trg);
    assert(joins(edges, p, src, trg));
    if p < i {
        assert(!(edges[p].src == edges[i].src && edges[p].trg == edges[i].trg));
    } else if i < p {
        assert(!(edges[i].src == edges[p].src && edges[i].trg == edges[p].trg));
    }
}

/// The ordered pair of endpoints as one 64-bit key.
pub open spec fn pair_key(src: NodeId, trg: NodeId) -> u64 {
    (src as u64 * 0x1_0000_0000 + trg as u64) as u64
}

/// Computes `pair_key`.
fn key_of(src: NodeId, trg: NodeId) -> (key: u64)
    ensures
        key == pair_key(src, trg),
{
    src as u64 * 0x1_0000_0000 + trg as u64
}

/// Different endpoint pairs have different keys.
proof fn lemma_pair_key_injective(a: NodeId, b: NodeId, c: NodeId, d: NodeId)
    requires
        pair_key(a, b) == pair_key(c, d),
    ensures
        a == c,
        b == d,
{
}

/// The aggregated edges in order of first appearance, with an index from
/// endpoint pairs to positions.
#[derive(Clone, Debug)]
pub struct EdgeTable {
    edges: Vec<ChannelEdge>,
    index: HashMap<u64, usize>,
}

impl View for EdgeTable {
    type V = Seq<ChannelEdge>;

    closed spec fn view(&self) -> Seq<ChannelEdge> {
        self.edges@
    }
}

impl EdgeTable {
    /// The index holds exactly the endpoint pairs of the edges, each with
    /// the position of its edge.
    pub closed spec fn wf(&self) -> bool {
        &&& forall|i: int|
            0 <= i < self.edges@.len() ==> {
                let k = #[trigger] pair_key(self.edges@[i].src, self.edges@[i].trg);
                self.index@.contains_key(k) && self.index@[k] == i
            }
        &&& forall|k: u64| #[trigger]
            self.index@.contains_key(k) ==> {
                let i = self.index@[k];
                i < self.edges@.len() && pair_key(self.edges@[i as int].src, self.edges@[i as int].trg)
                    == k
            }
    }

    /// A well-formed table holds at most one edge per ordered pair.
    pub proof fn lemma_unique(&self)
        requires
            self.wf(),
        ensures
            unique_pairs(self@),
    {
        assert forall|i: int, j: int| 0 <= i < j < self@.len() implies !(self@[i].src
            == self@[j].src && self@[i].trg == self@[j].trg) by {
            let ki = pair_key(self.edges@[i].src, self.edges@[i].trg);
            let kj = pair_key(self.edges@[j].src, self.edges@[j].trg);
            assert(self.index@[ki] == i);
            assert(self.index@[kj] == j);
        }
    }

    /// A table without edges.
    pub fn new() -> (table: EdgeTable)
        ensures
            table.wf(),
            table@ == Seq::<ChannelEdge>::empty(),
    {
        EdgeTable { edges: Vec::new(), index: HashMap::new() }
    }

    /// Number of edges.
    pub fn len(&self) -> (n: usize)
        ensures
            n == self@.len(),
    {
        self.edges.len()
    }

    /// The edge at position `i`.
    pub fn get(&self, i: usize) -> (edge: ChannelEdge)
        requires
            i < self@.len(),
        ensures
            edge == self@[i as int],
    {
        self.edges[i]
    }

    /// The position of the edge from `src` to `trg`, if there is one.
    pub fn find(&self, src: NodeId, trg: NodeId) -> (found: Option<usize>)
        requires
            self.wf(),
        ensures
            match found {
                Some(i) => joins(self@, i as int, src, trg) && i == edge_position(self@, src, trg),
                None => !has_edge(self@, src, trg),
            },
            found is Some <==> has_edge(self@, src, trg),
    {
        broadcast use vstd::std_specs::hash::group_hash_axioms;

        let key = key_of(src, trg);
        match self.index.get(&key) {
            Some(position) => {
                let i: usize = *position;
                proof {
                    lemma_pair_key_injective(self.edges@[i as int].src, self.edges@[i as int].trg, src, trg);
                    self.lemma_unique();
                    lemma_edge_position(self@, i as int, src, trg);
                }
                Some(i)
            },
            None => {
                assert forall|i: int| !joins(self@, i, src, trg) by {
                    if joins(self@, i, src, trg) {
                        assert(self.index@.contains_key(
                            pair_key(self.edges@[i].src, self.edges@[i].trg),
                        ));
                    }
                }
                None
            },
        }
    }

    /// Appends an edge whose endpoint pair is not in the table yet.
    pub fn push(&mut self, edge: ChannelEdge)
        requires
            old(self).wf(),
            !has_edge(old(self)@, edge.src, edge.trg),
        ensures
            final(self).wf(),
            final(self)@ == old(self)@.push(edge),
    {
        broadcast use vstd::std_specs::hash::group_hash_axioms;

        let key = key_of(edge.src, edge.trg);
        let position: usize = self.edges.len();
        proof {
            if old(self).index@.contains_key(key) {
                let i = old(self).index@[key];
                lemma_pair_key_injective(
                    old(self).edges@[i as int].src,
                    old(self).edges@[i as int].trg,
                    edge.src,
                    edge.trg,
                );
                assert(joins(old(self)@, i as int, edge.src, edge.trg));
            }
        }
        self.edges.push(edge);
        self.index.insert(key, position);
        proof {
            assert forall|i: int| 0 <= i < self.edges@.len() implies {
                let k = #[trigger] pair_key(self.edges@[i].src, self.edges@[i].trg);
                self.index@.contains_key(k) && self.index@[k] == i
            } by {
                if i < position {
                    let k = pair_key(old(self).edges@[i].src, old(self).edges@[i].trg);
                    assert(old(self).index@.contains_key(k));
                }
            }
            assert forall|k: u64| #[trigger] self.index@.contains_key(k) implies {
                let i = self.index@[k];
                i < self.edges@.len() && pair_key(
                    self.edges@[i as int].src,
                    self.edges@[i as int].trg,
                ) == k
            } by {
                if k != key {
                    assert(old(self).index@.contains_key(k));
                }
            }
        }
    }

    /// Replaces the capacity of the edge at position `i`.
    pub fn set_capacity(&mut self, i: usize, capacity: u64)
        requires
            old(self).wf(),
            i < old(self)@.len(),
        ensures
            final(self).wf(),
            final(self)@ == old(self)@.update(
                i as int,
                (ChannelEdge { capacity: capacity, ..old(self)@[i as int] }),
            ),
    {
        let edge = self.edges[i];
        self.edges.set(i, ChannelEdge { capacity: capacity, ..edge });
        proof {
            assert forall|j: int| 0 <= j < self.edges@.len() implies {
                let k = #[trigger] pair_key(self.edges@[j].src, self.edges@[j].trg);
                self.index@.contains_key(k) && self.index@[k] == j
            } by {
                let k = pair_key(old(self).edges@[j].src, old(self).edges@[j].trg);
                assert(old(self).index@.contains_key(k));
            }
            assert forall|k: u64| #[trigger] self.index@.contains_key(k) implies {
                let j = self.index@[k];
                j < self.edges@.len() && pair_key(
                    self.edges@[j as int].src,
                    self.edges@[j as int].trg,
                ) == k
            } by {
                assert(old(self).index@.contains_key(k));
            }
        }
    }
}

} // verus!
