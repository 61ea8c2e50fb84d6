//! Bit-packing of boolean payloads: bit `i` of payload byte `j` holds
//! element `8*j + i`; the unused high bits of a partial final byte are
//! zero.

use vstd::prelude::*;

verus! {

/// The byte that packs up to eight booleans, element `i` at bit `i`.
pub open spec fn pack_bits(bs: Seq<bool>) -> u8
    recommends
        bs.len() <= 8,
    decreases bs.len(),
{
    if bs.len() == 0 {
        0u8
    } else {
        pack_bits(bs.drop_last()) | (if bs.last() {
            1u8 << ((bs.len() - 1) as u8)
        } else {
            0u8
        })
    }
}

/// Whether bit `i` of `byte` is set.
pub open spec fn spec_bit_at(byte: u8, i: nat) -> bool
    recommends
        i < 8,
{
    (byte >> (i as u8)) & 1 == 1
}

/// The end (exclusive) of chunk `j` of a sequence of `len` booleans.
pub open spec fn spec_chunk_end(len: int, j: int) -> int {
    if 8 * j + 8 <= len {
        8 * j + 8
    } else {
        len
    }
}

/// The packed payload of a boolean sequence: one byte per chunk of
/// eight elements, the final byte packing the remainder.
pub open spec fn spec_bool_payload(bs: Seq<bool>) -> Seq<u8> {
    Seq::new((bs.len() + 7) / 8, |j: int| pack_bits(bs.subrange(8 * j, spec_chunk_end(bs.len() as int, j))))
}

/// Bits at and above a sequence's length are zero in its packed byte.
pub proof fn lemma_pack_bits_high(bs: Seq<bool>, i: nat)
    requires
        bs.len() <= 8,
        bs.len() <= i < 8,
    ensures
        !spec_bit_at(pack_bits(bs), i),
    decreases bs.len(),
{
    let k = i as u8;
    if bs.len() == 0 {
        assert((0u8 >> k) & 1 != 1) by (bit_vector);
    } else {
        lemma_pack_bits_high(bs.drop_last(), i);
        let a = pack_bits(bs.drop_last());
        let j = (bs.len() - 1) as u8;
        if bs.last() {
            assert(((a >> k) & 1 != 1 && j != k && j < 8 && k < 8) ==> (((a | (1u8 << j)) >> k) & 1
                != 1)) by (bit_vector);
        } else {
            assert(a | 0 == a) by (bit_vector);
        }
    }
}

/// Bit `i` of the packed byte is element `i` of the sequence.
pub proof fn lemma_pack_bits_bit(bs: Seq<bool>, i: nat)
    requires
        bs.len() <= 8,
        i < bs.len(),
    ensures
        spec_bit_at(pack_bits(bs), i) == bs[i as int],
    decreases bs.len(),
{
    let a = pack_bits(bs.drop_last());
    let k = i as u8;
    let j = (bs.len() - 1) as u8;
    if i == bs.len() - 1 {
        lemma_pack_bits_high(bs.drop_last(), i);
        if bs.last() {
            assert(k < 8 ==> (((a | (1u8 << k)) >> k) & 1 == 1)) by (bit_vector);
        } else {
            assert(a | 0 == a) by (bit_vector);
        }
    } else {
        lemma_pack_bits_bit(bs.drop_last(), i);
        assert(bs.drop_last()[i as int] == bs[i as int]);
        if bs.last() {
            assert((j != k && j < 8 && k < 8) ==> ((((a | (1u8 << j)) >> k) & 1 == 1) <==> ((a >> k)
                & 1 == 1))) by (bit_vector);
        } else {
            assert(a | 0 == a) by (bit_vector);
        }
    }
}

/// Element `m` of a boolean sequence is bit `m % 8` of packed payload
/// byte `m / 8`.
pub proof fn lemma_bool_payload_bit(bs: Seq<bool>, m: nat)
    requires
        m < bs.len(),
    ensures
        (m / 8) < spec_bool_payload(bs).len(),
        spec_bit_at(spec_bool_payload(bs)[(m / 8) as int], m % 8) == bs[m as int],
{
    let len = bs.len() as int;
    let j = (m / 8) as int;
    let i = (m % 8) as nat;
    assert(8 * j + i == m);
    assert(j < (len + 7) / 8);
    let chunk = bs.subrange(8 * j, spec_chunk_end(len, j));
    assert(chunk.len() <= 8);
    assert(i < chunk.len());
    assert(chunk[i as int] == bs[m as int]);
    lemma_pack_bits_bit(chunk, i);
}

} // verus!
