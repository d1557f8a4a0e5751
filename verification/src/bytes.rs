//! Numbers in byte strings.

use vstd::prelude::*;

verus! {

/// The number that a byte string spells, most significant byte first.
pub open spec fn big_endian(bytes: Seq<u8>) -> nat
    decreases bytes.len(),
{
    if bytes.len() == 0 {
        0
    } else {
        big_endian(bytes.drop_last()) * 256 + bytes.last() as nat
    }
}

/// One more byte makes the number 256 times as large and adds the byte; a bound on
/// the number grows with it.
proof fn lemma_big_endian_step(bytes: Seq<u8>, i: int, value: nat, bound: nat)
    requires
        0 <= i < bytes.len(),
        value == big_endian(bytes.take(i)),
        value < bound,
    ensures
        big_endian(bytes.take(i + 1)) == value * 256 + bytes[i],
        big_endian(bytes.take(i + 1)) < bound * 256,
{
    assert(bytes.take(i + 1).drop_last() =~= bytes.take(i));
}

/// Eight bytes spell the number in which each byte counts 256 times as much as the next.
pub proof fn eight_bytes_spell_a_number(bytes: Seq<u8>)
    requires
        bytes.len() >= 8,
    ensures
        big_endian(bytes.take(8)) == bytes[0] * 0x100_0000_0000_0000 + bytes[1] * 0x1_0000_0000_0000
            + bytes[2] * 0x100_0000_0000 + bytes[3] * 0x1_0000_0000 + bytes[4] * 0x100_0000
            + bytes[5] * 0x1_0000 + bytes[6] * 0x100 + bytes[7],
{
    assert(bytes.take(0).len() == 0);
    lemma_big_endian_step(bytes, 0, 0, 1);
    lemma_big_endian_step(bytes, 1, big_endian(bytes.take(1)), 0x100);
    lemma_big_endian_step(bytes, 2, big_endian(bytes.take(2)), 0x1_0000);
    lemma_big_endian_step(bytes, 3, big_endian(bytes.take(3)), 0x100_0000);
    lemma_big_endian_step(bytes, 4, big_endian(bytes.take(4)), 0x1_0000_0000);
    lemma_big_endian_step(bytes, 5, big_endian(bytes.take(5)), 0x100_0000_0000);
    lemma_big_endian_step(bytes, 6, big_endian(bytes.take(6)), 0x1_0000_0000_0000);
    lemma_big_endian_step(bytes, 7, big_endian(bytes.take(7)), 0x100_0000_0000_0000);
}

/// Reads the first eight bytes of a digest as a number.
pub fn leading_u64(digest: &[u8; 32]) -> (r: u64)
    ensures
        r == big_endian(digest@.take(8)),
{
    let b = digest;
    proof {
        let s = digest@;
        assert(s.take(0).len() == 0);
        lemma_big_endian_step(s, 0, 0, 1);
        lemma_big_endian_step(s, 1, big_endian(s.take(1)), 0x100);
        lemma_big_endian_step(s, 2, big_endian(s.take(2)), 0x1_0000);
        lemma_big_endian_step(s, 3, big_endian(s.take(3)), 0x100_0000);
        lemma_big_endian_step(s, 4, big_endian(s.take(4)), 0x1_0000_0000);
        lemma_big_endian_step(s, 5, big_endian(s.take(5)), 0x100_0000_0000);
        lemma_big_endian_step(s, 6, big_endian(s.take(6)), 0x1_0000_0000_0000);
        lemma_big_endian_step(s, 7, big_endian(s.take(7)), 0x100_0000_0000_0000);
    }
    let mut value: u64 = b[0] as u64;
    value = value * 256 + b[1] as u64;
    value = value * 256 + b[2] as u64;
    value = value * 256 + b[3] as u64;
    value = value * 256 + b[4] as u64;
    value = value * 256 + b[5] as u64;
    value = value * 256 + b[6] as u64;
    value * 256 + b[7] as u64
}

} // verus!
