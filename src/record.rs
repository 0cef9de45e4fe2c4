use vstd::prelude::*;

use crate::identity::{Identity, IDENTITY_LEN};

verus! {

/// Bytes a record occupies: an 8-byte type tag, the 32-byte authority and
/// the 8-byte count.
pub const COUNTER_SPACE: usize = 48;

/// Width in bytes of the type tag that opens a record.
pub const TAG_LEN: usize = 8;

/// Offset of the count within a record.
pub const COUNT_OFFSET: usize = 40;

/// The counter record: who may change it, and its value.
#[derive(Debug, Clone, Copy, PartialEq, Eq)]
pub struct Counter {
    pub authority: Identity,
    pub count: u64,
}

/// What a record holds, as mathematical values.
pub struct CounterView {
    pub authority: Seq<u8>,
    pub count: u64,
}

impl View for Counter {
    type V = CounterView;

    open spec fn view(&self) -> CounterView {
        CounterView { authority: self.authority@, count: self.count }
    }
}

/// The type tag that opens every counter record.
pub open spec fn counter_tag() -> Seq<u8> {
    seq![255u8, 176u8, 4u8, 245u8, 188u8, 253u8, 124u8, 25u8]
}

/// Byte `k` (0 is the least significant) of `v`.
pub open spec fn byte_of(v: u64, k: u64) -> u8 {
    ((v >> (8 * k)) & 0xffu64) as u8
}

/// `v` as eight bytes, least significant first.
pub open spec fn le_bytes(v: u64) -> Seq<u8> {
    Seq::new(8, |k: int| byte_of(v, k as u64))
}

/// The number whose little-endian bytes are `s[0..8]`.
pub open spec fn le_value(s: Seq<u8>) -> u64
    recommends
        s.len() >= 8,
{
    (s[0] as u64) | ((s[1] as u64) << 8u64) | ((s[2] as u64) << 16u64) | ((s[3] as u64)
        << 24u64) | ((s[4] as u64) << 32u64) | ((s[5] as u64) << 40u64) | ((s[6] as u64)
        << 48u64) | ((s[7] as u64) << 56u64)
}

/// The serialized form of a record: tag, authority, count.
pub open spec fn counter_bytes(c: CounterView) -> Seq<u8> {
    counter_tag() + c.authority + le_bytes(c.count)
}

/// The record that `s` holds, if `s` is a well-formed counter record.
pub open spec fn decode_counter(s: Seq<u8>) -> Option<CounterView> {
    if s.len() == COUNTER_SPACE && s.subrange(0, TAG_LEN as int) == counter_tag() {
        Some(
            CounterView {
                authority: s.subrange(TAG_LEN as int, COUNT_OFFSET as int),
                count: le_value(s.subrange(COUNT_OFFSET as int, COUNTER_SPACE as int)),
            },
        )
    } else {
        None
    }
}

proof fn lemma_le_round_trip(v: u64)
    ensures
        le_value(le_bytes(v)) == v,
{
    let s = le_bytes(v);
    assert(s[0] == ((v >> 0u64) & 0xffu64) as u8);
    assert(s[1] == ((v >> 8u64) & 0xffu64) as u8);
    assert(s[2] == ((v >> 16u64) & 0xffu64) as u8);
    assert(s[3] == ((v >> 24u64) & 0xffu64) as u8);
    assert(s[4] == ((v >> 32u64) & 0xffu64) as u8);
    assert(s[5] == ((v >> 40u64) & 0xffu64) as u8);
    assert(s[6] == ((v >> 48u64) & 0xffu64) as u8);
    assert(s[7] == ((v >> 56u64) & 0xffu64) as u8);
    assert(((((v >> 0u64) & 0xffu64) as u8) as u64) | (((((v >> 8u64) & 0xffu64) as u8) as u64)
        << 8u64) | (((((v >> 16u64) & 0xffu64) as u8) as u64) << 16u64) | (((((v >> 24u64)
        & 0xffu64) as u8) as u64) << 24u64) | (((((v >> 32u64) & 0xffu64) as u8) as u64)
        << 32u64) | (((((v >> 40u64) & 0xffu64) as u8) as u64) << 40u64) | (((((v >> 48u64)
        & 0xffu64) as u8) as u64) << 48u64) | (((((v >> 56u64) & 0xffu64) as u8) as u64)
        << 56u64) == v) by (bit_vector);
}

/// The type tag that opens every counter record.
fn tag() -> (r: [u8; 8])
    ensures
        r@ == counter_tag(),
{
    let r: [u8; 8] = [255, 176, 4, 245, 188, 253, 124, 25];
    assert(r@ =~= counter_tag());
    r
}

impl Counter {
    /// The serialized form of this record, `COUNTER_SPACE` bytes long.
    pub fn encode(&self) -> (r: Vec<u8>)
        ensures
            r@ == counter_bytes(self@),
            r@.len() == COUNTER_SPACE,
    {
        let t = tag();
        let mut out: Vec<u8> = Vec::new();
        let mut i: usize = 0;
        while i < TAG_LEN
            invariant
                i <= TAG_LEN,
                t@ == counter_tag(),
                out@ == counter_tag().subrange(0, i as int),
            decreases TAG_LEN - i,
        {
            out.push(t[i]);
            assert(out@ =~= counter_tag().subrange(0, i + 1));
            i = i + 1;
        }
        assert(out@ =~= counter_tag());
        let key = self.authority.to_bytes();
        let mut j: usize = 0;
        while j < IDENTITY_LEN
            invariant
                j <= IDENTITY_LEN,
                key@ == self.authority@,
                key@.len() == IDENTITY_LEN,
                out@ == counter_tag() + key@.subrange(0, j as int),
            decreases IDENTITY_LEN - j,
        {
            out.push(key[j]);
            assert(out@ =~= counter_tag() + key@.subrange(0, j + 1));
            j = j + 1;
        }
        assert(key@.subrange(0, IDENTITY_LEN as int) =~= key@);
        let mut k: u64 = 0;
        while k < 8
            invariant
                k <= 8,
                out@ == counter_tag() + self.authority@ + le_bytes(self.count).subrange(0, k as int),
            decreases 8 - k,
        {
            let b: u8 = ((self.count >> (8 * k)) & 0xff) as u8;
            out.push(b);
            assert(out@ =~= counter_tag() + self.authority@ + le_bytes(self.count).subrange(
                0,
                k + 1,
            ));
            k = k + 1;
        }
        assert(le_bytes(self.count).subrange(0, 8) =~= le_bytes(self.count));
        out
    }

    /// The record that `data` holds, or `None` where `data` is not a
    /// well-formed counter record (wrong length or wrong tag).
    pub fn decode(data: &[u8]) -> (r: Option<Counter>)
        ensures
            match r {
                Some(c) => decode_counter(data@) == Some(c@),
                None => decode_counter(data@) is None,
            },
    {
        if data.len() != COUNTER_SPACE {
            return None;
        }
        let t = tag();
        let mut i: usize = 0;
        while i < TAG_LEN
            invariant
                i <= TAG_LEN,
                data@.len() == COUNTER_SPACE,
                t@ == counter_tag(),
                forall|j: int| 0 <= j < i ==> data@[j] == counter_tag()[j],
            decreases TAG_LEN - i,
        {
            if data[i] != t[i] {
                assert(data@.subrange(0, TAG_LEN as int)[i as int] != counter_tag()[i as int]);
                return None;
            }
            i = i + 1;
        }
        assert(data@.subrange(0, TAG_LEN as int) =~= counter_tag());
        let mut key: [u8; 32] = [0u8; 32];
        let mut j: usize = 0;
        while j < IDENTITY_LEN
            invariant
                j <= IDENTITY_LEN,
                data@.len() == COUNTER_SPACE,
                key@.len() == IDENTITY_LEN,
                forall|m: int| 0 <= m < j ==> key@[m] == data@[TAG_LEN + m],
            decreases IDENTITY_LEN - j,
        {
            key[j] = data[TAG_LEN + j];
            j = j + 1;
        }
        assert(key@ =~= data@.subrange(TAG_LEN as int, COUNT_OFFSET as int));
        let ghost s = data@.subrange(COUNT_OFFSET as int, COUNTER_SPACE as int);
        let count: u64 = (data[40] as u64) | ((data[41] as u64) << 8u64) | ((data[42] as u64)
            << 16u64) | ((data[43] as u64) << 24u64) | ((data[44] as u64) << 32u64) | ((
        data[45] as u64) << 40u64) | ((data[46] as u64) << 48u64) | ((data[47] as u64)
            << 56u64);
        assert(s[0] == data@[40] && s[1] == data@[41] && s[2] == data@[42] && s[3] == data@[43]);
        assert(s[4] == data@[44] && s[5] == data@[45] && s[6] == data@[46] && s[7] == data@[47]);
        let c = Counter { authority: Identity::new_from_array(key), count };
        Some(c)
    }
}

/// Decoding the serialized form of a record gives the record back.
pub proof fn lemma_decode_encode(c: CounterView)
    requires
        c.authority.len() == IDENTITY_LEN,
    ensures
        decode_counter(counter_bytes(c)) == Some(c),
{
    let s = counter_bytes(c);
    lemma_le_round_trip(c.count);
    assert(s.subrange(0, TAG_LEN as int) =~= counter_tag());
    assert(s.subrange(TAG_LEN as int, COUNT_OFFSET as int) =~= c.authority);
    assert(s.subrange(COUNT_OFFSET as int, COUNTER_SPACE as int) =~= le_bytes(c.count));
}

proof fn lemma_bytes_round_trip(b0: u8, b1: u8, b2: u8, b3: u8, b4: u8, b5: u8, b6: u8, b7: u8)
    ensures
        (((((b0 as u64) | ((b1 as u64) << 8u64) | ((b2 as u64) << 16u64) | ((b3 as u64) << 24u64) | ((b4 as u64) << 32u64) | ((b5 as u64) << 40u64) | ((b6 as u64) << 48u64) | ((b7 as u64) << 56u64)) >> 0u64) & 0xffu64) as u8) == b0
        && (((((b0 as u64) | ((b1 as u64) << 8u64) | ((b2 as u64) << 16u64) | ((b3 as u64) << 24u64) | ((b4 as u64) << 32u64) | ((b5 as u64) << 40u64) | ((b6 as u64) << 48u64) | ((b7 as u64) << 56u64)) >> 8u64) & 0xffu64) as u8) == b1
        && (((((b0 as u64) | ((b1 as u64) << 8u64) | ((b2 as u64) << 16u64) | ((b3 as u64) << 24u64) | ((b4 as u64) << 32u64) | ((b5 as u64) << 40u64) | ((b6 as u64) << 48u64) | ((b7 as u64) << 56u64)) >> 16u64) & 0xffu64) as u8) == b2
        && (((((b0 as u64) | ((b1 as u64) << 8u64) | ((b2 as u64) << 16u64) | ((b3 as u64) << 24u64) | ((b4 as u64) << 32u64) | ((b5 as u64) << 40u64) | ((b6 as u64) << 48u64) | ((b7 as u64) << 56u64)) >> 24u64) & 0xffu64) as u8) == b3
        && (((((b0 as u64) | ((b1 as u64) << 8u64) | ((b2 as u64) << 16u64) | ((b3 as u64) << 24u64) | ((b4 as u64) << 32u64) | ((b5 as u64) << 40u64) | ((b6 as u64) << 48u64) | ((b7 as u64) << 56u64)) >> 32u64) & 0xffu64) as u8) == b4
        && (((((b0 as u64) | ((b1 as u64) << 8u64) | ((b2 as u64) << 16u64) | ((b3 as u64) << 24u64) | ((b4 as u64) << 32u64) | ((b5 as u64) << 40u64) | ((b6 as u64) << 48u64) | ((b7 as u64) << 56u64)) >> 40u64) & 0xffu64) as u8) == b5
        && (((((b0 as u64) | ((b1 as u64) << 8u64) | ((b2 as u64) << 16u64) | ((b3 as u64) << 24u64) | ((b4 as u64) << 32u64) | ((b5 as u64) << 40u64) | ((b6 as u64) << 48u64) | ((b7 as u64) << 56u64)) >> 48u64) & 0xffu64) as u8) == b6
        && (((((b0 as u64) | ((b1 as u64) << 8u64) | ((b2 as u64) << 16u64) | ((b3 as u64) << 24u64) | ((b4 as u64) << 32u64) | ((b5 as u64) << 40u64) | ((b6 as u64) << 48u64) | ((b7 as u64) << 56u64)) >> 56u64) & 0xffu64) as u8) == b7,
{
    assert((((((b0 as u64) | ((b1 as u64) << 8u64) | ((b2 as u64) << 16u64) | ((b3 as u64) << 24u64) | ((b4 as u64) << 32u64) | ((b5 as u64) << 40u64) | ((b6 as u64) << 48u64) | ((b7 as u64) << 56u64)) >> 0u64) & 0xffu64) as u8) == b0
        && (((((b0 as u64) | ((b1 as u64) << 8u64) | ((b2 as u64) << 16u64) | ((b3 as u64) << 24u64) | ((b4 as u64) << 32u64) | ((b5 as u64) << 40u64) | ((b6 as u64) << 48u64) | ((b7 as u64) << 56u64)) >> 8u64) & 0xffu64) as u8) == b1
        && (((((b0 as u64) | ((b1 as u64) << 8u64) | ((b2 as u64) << 16u64) | ((b3 as u64) << 24u64) | ((b4 as u64) << 32u64) | ((b5 as u64) << 40u64) | ((b6 as u64) << 48u64) | ((b7 as u64) << 56u64)) >> 16u64) & 0xffu64) as u8) == b2
        && (((((b0 as u64) | ((b1 as u64) << 8u64) | ((b2 as u64) << 16u64) | ((b3 as u64) << 24u64) | ((b4 as u64) << 32u64) | ((b5 as u64) << 40u64) | ((b6 as u64) << 48u64) | ((b7 as u64) << 56u64)) >> 24u64) & 0xffu64) as u8) == b3
        && (((((b0 as u64) | ((b1 as u64) << 8u64) | ((b2 as u64) << 16u64) | ((b3 as u64) << 24u64) | ((b4 as u64) << 32u64) | ((b5 as u64) << 40u64) | ((b6 as u64) << 48u64) | ((b7 as u64) << 56u64)) >> 32u64) & 0xffu64) as u8) == b4
        && (((((b0 as u64) | ((b1 as u64) << 8u64) | ((b2 as u64) << 16u64) | ((b3 as u64) << 24u64) | ((b4 as u64) << 32u64) | ((b5 as u64) << 40u64) | ((b6 as u64) << 48u64) | ((b7 as u64) << 56u64)) >> 40u64) & 0xffu64) as u8) == b5
        && (((((b0 as u64) | ((b1 as u64) << 8u64) | ((b2 as u64) << 16u64) | ((b3 as u64) << 24u64) | ((b4 as u64) << 32u64) | ((b5 as u64) << 40u64) | ((b6 as u64) << 48u64) | ((b7 as u64) << 56u64)) >> 48u64) & 0xffu64) as u8) == b6
        && (((((b0 as u64) | ((b1 as u64) << 8u64) | ((b2 as u64) << 16u64) | ((b3 as u64) << 24u64) | ((b4 as u64) << 32u64) | ((b5 as u64) << 40u64) | ((b6 as u64) << 48u64) | ((b7 as u64) << 56u64)) >> 56u64) & 0xffu64) as u8) == b7) by (bit_vector);
}

/// A well-formed record is exactly the serialized form of what it decodes to.
pub proof fn lemma_encode_decode(s: Seq<u8>)
    requires
        decode_counter(s) is Some,
    ensures
        counter_bytes(decode_counter(s).unwrap()) == s,
{
    let t = s.subrange(COUNT_OFFSET as int, COUNTER_SPACE as int);
    lemma_bytes_round_trip(t[0], t[1], t[2], t[3], t[4], t[5], t[6], t[7]);
    let c = decode_counter(s).unwrap();
    assert(le_bytes(c.count) =~= t);
    assert(s =~= s.subrange(0, TAG_LEN as int) + s.subrange(TAG_LEN as int, COUNT_OFFSET as int) + t);
}

} // verus!
