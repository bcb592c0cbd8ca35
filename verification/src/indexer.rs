//! Interning of endpoint addresses into dense node ids.

use crate::text::text_bytes;
use std::collections::HashMap;
use vstd::prelude::*;

verus! {

/// Dense identifier of a network participant.
pub type NodeId = u32;

/// The distinct addresses of `addresses`, each at the place of its first
/// occurrence.
pub open spec fn first_seen(addresses: Seq<Seq<char>>) -> Seq<Seq<char>>
    decreases addresses.len(),
{
    if addresses.len() == 0 {
        Seq::empty()
    } else {
        let earlier = first_seen(addresses.drop_last());
        if earlier.contains(addresses.last()) {
            earlier
        } else {
            earlier.push(addresses.last())
        }
    }
}

/// Source and target of every edge, in edge order, source first.
pub open spec fn endpoints(edges: Seq<(String, String, u64)>) -> Seq<Seq<char>> {
    Seq::new(
        2 * edges.len(),
        |k: int|
            if k % 2 == 0 {
                edges[k / 2].0@
            } else {
                edges[k / 2].1@
            },
    )
}

/// `names` holds no address twice.
pub open spec fn distinct(names: Seq<Seq<char>>) -> bool {
    forall|i: int, j: int| 0 <= i < j < names.len() ==> names[i] != names[j]
}

/// Folds one more byte into a hash.
pub open spec fn mix(hash: u64, byte: u8) -> u64 {
    (((hash ^ (byte as u64)) as int * 0x100_0000_01b3) % 0x1_0000_0000_0000_0000) as u64
}

/// The hash of a byte string, by which addresses are sorted into buckets.
pub open spec fn bytes_hash(bytes: Seq<u8>) -> u64
    decreases bytes.len(),
{
    if bytes.len() == 0 {
        0xcbf2_9ce4_8422_2325
    } else {
        mix(bytes_hash(bytes.drop_last()), bytes.last())
    }
}

/// The hash of an address.
pub open spec fn address_hash(address: Seq<char>) -> u64 {
    bytes_hash(text_bytes(address))
}

fn hash_address(address: &String) -> (hash: u64)
    ensures
        hash == address_hash(address@),
{
    let bytes = address.as_str().as_bytes();
    let mut hash: u64 = 0xcbf2_9ce4_8422_2325;
    let mut i: usize = 0;
    assert(bytes@.take(0) =~= Seq::<u8>::empty());
    while i < bytes.len()
        invariant
            i <= bytes@.len(),
            bytes@ == text_bytes(address@),
            hash == bytes_hash(bytes@.take(i as int)),
        decreases bytes@.len() - i,
    {
        let byte: u8 = bytes[i];
        assert(bytes@.take(i + 1).drop_last() =~= bytes@.take(i as int));
        assert(bytes@.take(i + 1).last() == byte);
        let mixed: u128 = (hash ^ (byte as u64)) as u128 * 0x100_0000_01b3u128;
        hash = (mixed % 0x1_0000_0000_0000_0000u128) as u64;
        i += 1;
    }
    assert(bytes@.take(i as int) =~= bytes@);
    hash
}

/// Assigns node ids to addresses in the order in which they are first seen.
#[derive(Clone, Debug)]
pub struct AddressIndexer {
    names: Vec<String>,
    buckets: HashMap<u64, Vec<NodeId>>,
}

impl View for AddressIndexer {
    type V = Seq<Seq<char>>;

    /// The interned addresses; the id of an address is its position.
    closed spec fn view(&self) -> Seq<Seq<char>> {
        Seq::new(self.names@.len(), |i: int| self.names@[i]@)
    }
}

impl AddressIndexer {
    /// Every address is listed in the bucket of its hash, and the buckets
    /// list nothing else.
    pub closed spec fn indexed(&self) -> bool {
        &&& forall|i: int|
            0 <= i < self.names@.len() ==> {
                let key = address_hash(#[trigger] self.names@[i]@);
                self.buckets@.contains_key(key) && self.buckets@[key]@.contains(i as u32)
            }
        &&& forall|key: u64, j: int|
            self.buckets@.contains_key(key) && 0 <= j < self.buckets@[key]@.len() ==> {
                let id = #[trigger] self.buckets@[key]@[j];
                id < self.names@.len() && address_hash(self.names@[id as int]@) == key
            }
    }

    /// No address is held twice and every position fits a `NodeId`.
    pub open spec fn wf(&self) -> bool {
        &&& distinct(self@)
        &&& self@.len() <= u32::MAX
        &&& self.indexed()
    }

    /// An indexer that has seen no address.
    pub fn new() -> (indexer: AddressIndexer)
        ensures
            indexer.wf(),
            indexer@ == Seq::<Seq<char>>::empty(),
    {
        broadcast use vstd::std_specs::hash::group_hash_axioms;

        AddressIndexer { names: Vec::new(), buckets: HashMap::new() }
    }

    /// Number of addresses interned so far.
    pub fn len(&self) -> (n: usize)
        ensures
            n == self@.len(),
    {
        self.names.len()
    }

    /// The id of `address`, if it has been interned.
    pub fn lookup(&self, address: &String) -> (found: Option<NodeId>)
        requires
            self.wf(),
        ensures
            match found {
                Some(id) => id < self@.len() && self@[id as int] == address@,
                None => !self@.contains(address@),
            },
    {
        broadcast use vstd::std_specs::hash::group_hash_axioms;

        let key = hash_address(address);
        match self.buckets.get(&key) {
            Some(bucket) => {
                let mut j: usize = 0;
                while j < bucket.len()
                    invariant
                        j <= bucket@.len(),
                        self.wf(),
                        self.buckets@.contains_key(key),
                        self.buckets@[key] == *bucket,
                        forall|k: int|
                            0 <= k < j ==> self.names@[(#[trigger] bucket@[k]) as int]@ != address@,
                    decreases bucket@.len() - j,
                {
                    let id: u32 = bucket[j];
                    assert(id < self.names@.len());
                    if self.names[id as usize] == *address {
                        assert(self@[id as int] == address@);
                        return Some(id);
                    }
                    j += 1;
                }
                assert forall|i: int| 0 <= i < self@.len() implies self@[i] != address@ by {
                    if self@[i] == address@ {
                        assert(address_hash(self.names@[i]@) == key);
                        assert(bucket@.contains(i as u32));
                        let k = choose|k: int| 0 <= k < bucket@.len() && bucket@[k] == i as u32;
                        assert(self.names@[bucket@[k] as int]@ != address@);
                    }
                }
                None
            },
            None => {
                assert forall|i: int| 0 <= i < self@.len() implies self@[i] != address@ by {
                    if self@[i] == address@ {
                        assert(address_hash(self.names@[i]@) == key);
                    }
                }
                None
            },
        }
    }

    /// The address that `id` stands for.
    pub fn address(&self, id: NodeId) -> (found: Option<&String>)
        ensures
            match found {
                Some(name) => id < self@.len() && name@ == self@[id as int],
                None => id >= self@.len(),
            },
    {
        if (id as usize) < self.names.len() {
            Some(&self.names[id as usize])
        } else {
            None
        }
    }

    /// Returns the id of `address`, allocating the next one if the address
    /// is new. Ids are 32-bit, so a new address needs a free id.
    pub fn intern(&mut self, address: &String) -> (id: NodeId)
        requires
            old(self).wf(),
            old(self)@.len() < u32::MAX,
        ensures
            final(self).wf(),
            id < final(self)@.len(),
            final(self)@[id as int] == address@,
            old(self)@.contains(address@) ==> final(self)@ == old(self)@,
            !old(self)@.contains(address@) ==> final(self)@ == old(self)@.push(address@) && id
                == old(self)@.len(),
    {
        broadcast use vstd::std_specs::hash::group_hash_axioms;

        match self.lookup(address) {
            Some(id) => id,
            None => {
                let id: u32 = self.names.len() as u32;
                let key = hash_address(address);
                let mut bucket: Vec<NodeId> = match self.buckets.remove(&key) {
                    Some(bucket) => bucket,
                    None => Vec::new(),
                };
                let ghost earlier = bucket@;
                bucket.push(id);
                self.names.push(address.clone());
                self.buckets.insert(key, bucket);
                proof {
                    assert(self@ =~= old(self)@.push(address@));
                    assert(bucket@[earlier.len() as int] == id);
                    assert forall|i: int| 0 <= i < self.names@.len() implies {
                        let k = address_hash(#[trigger] self.names@[i]@);
                        self.buckets@.contains_key(k) && self.buckets@[k]@.contains(i as u32)
                    } by {
                        let k = address_hash(self.names@[i]@);
                        if i < id {
                            assert(self.names@[i] == old(self).names@[i]);
                            assert(old(self).buckets@.contains_key(k));
                            assert(old(self).buckets@[k]@.contains(i as u32));
                            if k == key {
                                let at = choose|at: int|
                                    0 <= at < earlier.len() && earlier[at] == i as u32;
                                assert(bucket@[at] == i as u32);
                            }
                        }
                    }
                    assert forall|k: u64, j: int|
                        self.buckets@.contains_key(k) && 0 <= j < self.buckets@[k]@.len() implies {
                        let other = #[trigger] self.buckets@[k]@[j];
                        other < self.names@.len() && address_hash(self.names@[other as int]@) == k
                    } by {
                        if k == key {
                            if j < earlier.len() {
                                assert(bucket@[j] == earlier[j]);
                                assert(old(self).buckets@.contains_key(k));
                                assert(old(self).buckets@[k]@[j] == earlier[j]);
                                assert(self.names@[earlier[j] as int] == old(self).names@[earlier[j] as int]);
                            }
                        } else {
                            assert(old(self).buckets@.contains_key(k));
                            let other = old(self).buckets@[k]@[j];
                            assert(self.names@[other as int] == old(self).names@[other as int]);
                        }
                    }
                }
                id
            },
        }
    }
}

/// Taking one more address extends `first_seen` by that address if it is new.
pub proof fn lemma_first_seen_step(addresses: Seq<Seq<char>>, k: int)
    requires
        0 <= k < addresses.len(),
    ensures
        first_seen(addresses.take(k + 1)) == if first_seen(addresses.take(k)).contains(
            addresses[k],
        ) {
            first_seen(addresses.take(k))
        } else {
            first_seen(addresses.take(k)).push(addresses[k])
        },
{
    assert(addresses.take(k + 1).drop_last() =~= addresses.take(k));
}

/// Interns the endpoints of every edge, source before target, and returns
/// the resulting table: each distinct address once, in order of discovery.
pub fn mapping_address(ln_edges: &Vec<(String, String, u64)>) -> (indexer: AddressIndexer)
    requires
        2 * ln_edges@.len() < u32::MAX,
    ensures
        indexer.wf(),
        indexer@ == first_seen(endpoints(ln_edges@)),
{
    let mut indexer = AddressIndexer::new();
    let ghost all = endpoints(ln_edges@);
    let mut i: usize = 0;
    assert(all.take(0) =~= Seq::<Seq<char>>::empty());
    while i < ln_edges.len()
        invariant
            i <= ln_edges@.len(),
            2 * ln_edges@.len() < u32::MAX,
            all == endpoints(ln_edges@),
            indexer.wf(),
            indexer@.len() <= 2 * i,
            indexer@ == first_seen(all.take(2 * i)),
        decreases ln_edges@.len() - i,
    {
        proof {
            lemma_first_seen_step(all, 2 * i);
            lemma_first_seen_step(all, 2 * i + 1);
        }
        let _ = indexer.intern(&ln_edges[i].0);
        let _ = indexer.intern(&ln_edges[i].1);
        i += 1;
    }
    assert(all.take(2 * i) =~= all);
    indexer
}

} // verus!
