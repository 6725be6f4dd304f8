use vstd::prelude::*;

verus! {

/// Appends `src` to `out`.
pub fn append_bytes(out: &mut Vec<u8>, src: &[u8])
    ensures
        final(out)@ == old(out)@ + src@,
{
    let mut i: usize = 0;
    while i < src.len()
        invariant
            0 <= i <= src@.len(),
            out@ == old(out)@ + src@.subrange(0, i as int),
        decreases src@.len() - i,
    {
        out.push(src[i]);
        i = i + 1;
        assert(out@ =~= old(out)@ + src@.subrange(0, i as int));
    }
    assert(src@.subrange(0, i as int) =~= src@);
}

/// Whether the two byte strings are equal.
pub fn bytes_equal(a: &[u8], b: &[u8]) -> (r: bool)
    ensures
        r == (a@ == b@),
{
    if a.len() != b.len() {
        return false;
    }
    let mut i: usize = 0;
    while i < a.len()
        invariant
            0 <= i <= a@.len(),
            a@.len() == b@.len(),
            forall|j: int| 0 <= j < i ==> a@[j] == b@[j],
        decreases a@.len() - i,
    {
        if a[i] != b[i] {
            return false;
        }
        i = i + 1;
    }
    assert(a@ =~= b@);
    true
}

/// Bit `i` (0 the most significant) of the byte `b`.
pub open spec fn bit_of(b: u8, i: int) -> bool {
    (b >> ((7 - i) as u8)) & 1u8 == 1u8
}

/// The bits of each byte, most significant first, the bytes in order.
pub fn bytes_to_bits(bytes: &[u8]) -> (bits: Vec<bool>)
    requires
        bytes@.len() * 8 <= usize::MAX,
    ensures
        bits@.len() == bytes@.len() * 8,
        forall|j: int, i: int|
            0 <= j < bytes@.len() && 0 <= i < 8 ==> #[trigger] bits@[8 * j + i] == bit_of(
                bytes@[j],
                i,
            ),
{
    let mut bits: Vec<bool> = Vec::new();
    let mut j: usize = 0;
    while j < bytes.len()
        invariant
            0 <= j <= bytes@.len(),
            bytes@.len() * 8 <= usize::MAX,
            bits@.len() == 8 * j,
            forall|jj: int, i: int|
                0 <= jj < j && 0 <= i < 8 ==> #[trigger] bits@[8 * jj + i] == bit_of(
                    bytes@[jj],
                    i,
                ),
        decreases bytes@.len() - j,
    {
        let byte = bytes[j];
        let mut i: u8 = 0;
        while i < 8
            invariant
                0 <= i <= 8,
                0 <= j < bytes@.len(),
                byte == bytes@[j as int],
                bits@.len() == 8 * j + i,
                forall|jj: int, ii: int|
                    0 <= jj < j && 0 <= ii < 8 ==> #[trigger] bits@[8 * jj + ii] == bit_of(
                        bytes@[jj],
                        ii,
                    ),
                forall|ii: int| 0 <= ii < i ==> #[trigger] bits@[8 * j + ii] == bit_of(byte, ii),
            decreases 8 - i,
        {
            let bit = (byte >> (7 - i)) & 1;
            bits.push(bit == 1);
            i = i + 1;
        }
        j = j + 1;
    }
    bits
}

} // verus!
