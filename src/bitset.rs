use vstd::prelude::*;

verus! {

/// Number of bytes in an identity bitset: one bit for each `u8` value.
pub const SET_BYTES: usize = 32;

/// Whether bit `e` of a 32-byte bitset is set: bit `e % 8` of byte `e / 8`.
pub open spec fn bit_at(s: Seq<u8>, e: u8) -> bool {
    (s[(e / 8) as int] >> (e % 8)) & 1u8 == 1u8
}

/// The identities whose bit is set.
pub open spec fn members(s: Seq<u8>) -> Set<u8> {
    Set::new(|e: u8| bit_at(s, e))
}

proof fn lemma_or_bit(x: u8, off: u8, other: u8)
    requires
        off < 8,
        other < 8,
    ensures
        ((x | (1u8 << off)) >> off) & 1u8 == 1u8,
        other != off ==> ((x | (1u8 << off)) >> other) & 1u8 == (x >> other) & 1u8,
{
    assert(((x | (1u8 << off)) >> off) & 1u8 == 1u8) by (bit_vector)
        requires
            off < 8,
    ;
    assert(other != off ==> ((x | (1u8 << off)) >> other) & 1u8 == (x >> other) & 1u8)
        by (bit_vector)
        requires
            off < 8,
            other < 8,
    ;
}

proof fn lemma_and_not_bit(x: u8, off: u8, other: u8)
    requires
        off < 8,
        other < 8,
    ensures
        ((x & !(1u8 << off)) >> off) & 1u8 == 0u8,
        other != off ==> ((x & !(1u8 << off)) >> other) & 1u8 == (x >> other) & 1u8,
{
    assert(((x & !(1u8 << off)) >> off) & 1u8 == 0u8) by (bit_vector)
        requires
            off < 8,
    ;
    assert(other != off ==> ((x & !(1u8 << off)) >> other) & 1u8 == (x >> other) & 1u8)
        by (bit_vector)
        requires
            off < 8,
            other < 8,
    ;
}

/// Sets the bit of `element`; every other bit keeps its value.
pub fn addel(src: &mut [u8; 32], element: u8)
    ensures
        members(final(src)@) == members(old(src)@).insert(element),
{
    let byte_index = element / 8;
    let bit_offset = element % 8;
    let old_byte = src[byte_index as usize];
    src[byte_index as usize] = old_byte | (1u8 << bit_offset);
    proof {
        assert forall|e: u8| bit_at(final(src)@, e) == (bit_at(old(src)@, e) || e == element) by {
            lemma_or_bit(old_byte, bit_offset, e % 8);
            if e / 8 == byte_index && e != element {
                assert(e % 8 != bit_offset);
            }
        }
        assert(members(final(src)@) =~= members(old(src)@).insert(element));
    }
}

/// Whether the bit of `element` is set.
pub fn isel(src: [u8; 32], element: u8) -> (r: bool)
    ensures
        r == members(src@).contains(element),
{
    let byte_index = element / 8;
    let bit_offset = element % 8;
    let value = (src[byte_index as usize] >> bit_offset) & 1;
    value == 1
}

/// Clears the bit of `element`; every other bit keeps its value.
pub fn delel(src: &mut [u8; 32], element: u8)
    ensures
        members(final(src)@) == members(old(src)@).remove(element),
{
    let byte_index = element / 8;
    let bit_offset = element % 8;
    let old_byte = src[byte_index as usize];
    src[byte_index as usize] = old_byte & !(1u8 << bit_offset);
    proof {
        assert forall|e: u8| bit_at(final(src)@, e) == (bit_at(old(src)@, e) && e != element) by {
            lemma_and_not_bit(old_byte, bit_offset, e % 8);
            if e / 8 == byte_index && e != element {
                assert(e % 8 != bit_offset);
            }
        }
        assert(members(final(src)@) =~= members(old(src)@).remove(element));
    }
}

} // verus!
