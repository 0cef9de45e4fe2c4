use vstd::prelude::*;

use crate::identity::Identity;
use crate::record::{counter_bytes, decode_counter, lemma_decode_encode, lemma_encode_decode, Counter, CounterView};

verus! {

/// One allocated address and the serialized record it holds.
struct Slot {
    address: Identity,
    data: Vec<u8>,
}

/// Records kept in their serialized form, each at its own address.
pub struct RecordStore {
    slots: Vec<Slot>,
    records: Ghost<Map<Seq<u8>, CounterView>>,
}

impl View for RecordStore {
    type V = Map<Seq<u8>, CounterView>;

    closed spec fn view(&self) -> Map<Seq<u8>, CounterView> {
        self.records@
    }
}

impl RecordStore {
    /// Each address is allocated once, each slot holds a well-formed record,
    /// and the view holds exactly the decoded records.
    pub closed spec fn wf(&self) -> bool {
        &&& forall|i: int, j: int|
            0 <= i < j < self.slots@.len() ==> self.slots@[i].address@ != self.slots@[j].address@
        &&& forall|i: int|
            0 <= i < self.slots@.len() ==> self.records@.contains_key(
                #[trigger] self.slots@[i].address@,
            ) && decode_counter(self.slots@[i].data@) == Some(
                self.records@[self.slots@[i].address@],
            )
        &&& forall|a: Seq<u8>|
            #[trigger] self.records@.contains_key(a) ==> exists|i: int|
                0 <= i < self.slots@.len() && self.slots@[i].address@ == a
    }

    /// A store that holds no record.
    pub fn new() -> (r: RecordStore)
        ensures
            r.wf(),
            r@ == Map::<Seq<u8>, CounterView>::empty(),
    {
        RecordStore { slots: Vec::new(), records: Ghost(Map::empty()) }
    }

    /// The slot that holds `address`, if one does.
    fn find(&self, address: &Identity) -> (r: Option<usize>)
        requires
            self.wf(),
        ensures
            match r {
                Some(i) => i < self.slots@.len() && self.slots@[i as int].address@ == address@,
                None => !self@.contains_key(address@),
            },
    {
        let mut i: usize = 0;
        while i < self.slots.len()
            invariant
                i <= self.slots@.len(),
                forall|j: int| 0 <= j < i ==> self.slots@[j].address@ != address@,
            decreases self.slots@.len() - i,
        {
            if self.slots[i].address.same_as(address) {
                return Some(i);
            }
            i = i + 1;
        }
        None
    }

    /// Whether a record exists at `address`.
    pub fn contains(&self, address: &Identity) -> (r: bool)
        requires
            self.wf(),
        ensures
            r == self@.contains_key(address@),
    {
        self.find(address).is_some()
    }

    /// The record at `address`, or `None` where there is none.
    pub fn load(&self, address: &Identity) -> (r: Option<Counter>)
        requires
            self.wf(),
        ensures
            match r {
                Some(c) => self@.contains_key(address@) && c@ == self@[address@],
                None => !self@.contains_key(address@),
            },
    {
        match self.find(address) {
            Some(i) => Counter::decode(self.slots[i].data.as_slice()),
            None => None,
        }
    }

    /// The serialized bytes of the record at `address`, if there is one.
    pub fn data(&self, address: &Identity) -> (r: Option<Vec<u8>>)
        requires
            self.wf(),
        ensures
            match r {
                Some(d) => self@.contains_key(address@) && d@ == counter_bytes(self@[address@]),
                None => !self@.contains_key(address@),
            },
    {
        match self.find(address) {
            Some(i) => {
                proof {
                    lemma_encode_decode(self.slots@[i as int].data@);
                }
                Some(self.slots[i].data.clone())
            },
            None => None,
        }
    }

    /// Writes the serialized form of `c` at `address`, allocating the slot
    /// where none is there.
    pub fn write(&mut self, address: &Identity, c: &Counter)
        requires
            old(self).wf(),
        ensures
            final(self).wf(),
            final(self)@ == old(self)@.insert(address@, c@),
    {
        let data = c.encode();
        proof {
            lemma_decode_encode(c@);
        }
        let ghost records = self.records@.insert(address@, c@);
        let ghost mut at: int = 0;
        match self.find(address) {
            Some(i) => {
                self.slots.set(i, Slot { address: *address, data });
                proof {
                    at = i as int;
                }
            },
            None => {
                self.slots.push(Slot { address: *address, data });
                proof {
                    at = self.slots@.len() - 1;
                }
            },
        }
        self.records = Ghost(records);
        assert(self.slots@[at].address@ == address@);
        assert forall|a: Seq<u8>| #[trigger] self.records@.contains_key(a) implies exists|i: int|
            0 <= i < self.slots@.len() && self.slots@[i].address@ == a by {
            if a != address@ {
                let i = choose|i: int|
                    0 <= i < old(self).slots@.len() && old(self).slots@[i].address@ == a;
                assert(self.slots@[i].address@ == a);
            }
        }
    }
}

} // verus!
