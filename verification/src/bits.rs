//! Single bits of the 64-bit words that carry switch lines and report buttons.
use vstd::prelude::*;

verus! {

/// Whether bit `i` of `word` is set. Bits outside `0..64` are never set.
pub open spec fn bit(word: u64, i: int) -> bool {
    0 <= i < 64 && (word >> (i as u64)) & 1 == 1
}

/// Tests one switch line: the expanders pull an actuated line low, so a clear bit is a closed
/// switch.
pub fn line_low(word: u64, line: usize) -> (low: bool)
    requires
        line < 64,
    ensures
        low == !bit(word, line as int),
        low == (word & (1u64 << (line as u64)) == 0),
{
    let i: u64 = line as u64;
    assert((word & (1u64 << i) == 0) == !((word >> i) & 1 == 1)) by (bit_vector)
        requires
            i < 64,
    ;
    word & (1u64 << i) == 0
}

/// Sets one bit and leaves the others alone.
pub fn with_bit(word: u64, line: usize) -> (set: u64)
    requires
        line < 64,
    ensures
        forall|j: int| #[trigger] bit(set, j) == (bit(word, j) || j == line),
        set == word | (1u64 << (line as u64)),
{
    let i: u64 = line as u64;
    let set: u64 = word | (1u64 << i);
    proof {
        assert forall|j: int| #[trigger] bit(set, j) == (bit(word, j) || j == line) by {
            if 0 <= j < 64 {
                let k: u64 = j as u64;
                assert((((word | (1u64 << i)) >> k) & 1 == 1) == ((word >> k) & 1 == 1 || k == i))
                    by (bit_vector)
                    requires
                        i < 64,
                        k < 64,
                ;
            }
        }
    }
    set
}

/// No bit of zero is set.
pub proof fn lemma_zero_has_no_bits()
    ensures
        forall|i: int| !(#[trigger] bit(0, i)),
{
    assert forall|i: int| !(#[trigger] bit(0, i)) by {
        let k: u64 = i as u64;
        assert((0u64 >> k) & 1 == 0) by (bit_vector);
    }
}

/// A word is determined by its bits.
pub proof fn law_bits_determine_word(left: u64, right: u64)
    requires
        forall|i: int| 0 <= i < 64 ==> #[trigger] bit(left, i) == bit(right, i),
    ensures
        left == right,
{
    lemma_bits_determine_high_part(left, right, 0);
    assert(left >> 0u64 == left) by (bit_vector);
    assert(right >> 0u64 == right) by (bit_vector);
}

proof fn lemma_bits_determine_high_part(left: u64, right: u64, from: u64)
    requires
        from < 64,
        forall|i: int| 0 <= i < 64 ==> #[trigger] bit(left, i) == bit(right, i),
    ensures
        left >> from == right >> from,
    decreases 64 - from,
{
    assert(bit(left, from as int) == bit(right, from as int));
    if from < 63 {
        lemma_bits_determine_high_part(left, right, (from + 1) as u64);
    }
    assert(left >> from == right >> from) by (bit_vector)
        requires
            from < 64,
            ((left >> from) & 1 == 1) == ((right >> from) & 1 == 1),
            from < 63 ==> left >> ((from + 1) as u64) == right >> ((from + 1) as u64),
    ;
}

/// One byte of a word holds eight of its bits.
pub fn byte_of(word: u64, index: usize) -> (byte: u8)
    requires
        index < 8,
    ensures
        forall|i: int|
            0 <= i < 8 ==> ((#[trigger] (byte >> (i as u8))) & 1 == 1) == bit(word, 8 * index + i),
        byte == (word >> ((8 * index) as u64)) & 0xff,
{
    let shift: u64 = index as u64 * 8;
    assert((word >> shift) & 0xff < 256) by (bit_vector);
    let byte: u8 = ((word >> shift) & 0xff) as u8;
    proof {
        assert forall|i: int| 0 <= i < 8 implies ((#[trigger] (byte >> (i as u8))) & 1 == 1)
            == bit(word, 8 * index + i) by {
            let k: u8 = i as u8;
            let wide: u64 = (8 * index + i) as u64;
            assert((((((word >> shift) & 0xff) as u8) >> k) & 1 == 1) == ((word >> wide) & 1 == 1))
                by (bit_vector)
                requires
                    k < 8,
                    shift <= 56,
                    wide == shift + k,
            ;
        }
    }
    byte
}

/// The bits of a word are its binary digits: bit `i` is set exactly if two to the power of `i`
/// goes an odd number of times into the word.
pub proof fn law_bit_is_binary_digit(word: u64, i: int)
    ensures
        0 <= i < 64 ==> (bit(word, i) <==> (word as nat
            / vstd::arithmetic::power2::pow2(i as nat)) % 2 == 1),
        !(0 <= i < 64) ==> !bit(word, i),
{
    if 0 <= i < 64 {
        let k = i as u64;
        let high = word >> k;
        vstd::bits::lemma_u64_shr_is_div(word, k);
        assert(high & 1 == high % 2) by (bit_vector);
    }
}

/// A bit is set exactly if the mask of its place meets the word.
pub proof fn law_bit_is_masked(word: u64, i: u64)
    requires
        i < 64,
    ensures
        bit(word, i as int) <==> word & (1u64 << i) != 0,
        bit(word, i as int) <==> (word >> i) & 1 == 1,
{
    assert((word & (1u64 << i) != 0) == ((word >> i) & 1 == 1)) by (bit_vector)
        requires
            i < 64,
    ;
}

} // verus!
