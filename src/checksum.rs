//! Ones'-complement arithmetic and the Internet checksum (RFC 1071, RFC 9293 section 3.1).
use vstd::prelude::*;

verus! {

/// The largest 16-bit value, which is also the ones'-complement modulus.
pub open spec fn word_modulus() -> int {
    0xFFFF
}

/// Ones'-complement sum of two 16-bit words: the plain sum, with the carry out of bit 15
/// added back in at bit 0.
pub open spec fn ones_add(a: u16, b: u16) -> u16 {
    if a + b > 0xFFFF {
        (a + b - 0xFFFF) as u16
    } else {
        (a + b) as u16
    }
}

/// The `i`-th big-endian 16-bit word of `b`; a trailing odd byte is padded with a zero low byte.
pub open spec fn word_at(b: Seq<u8>, i: int) -> u16 {
    if 2 * i + 1 < b.len() {
        (b[2 * i] * 256 + b[2 * i + 1]) as u16
    } else {
        (b[2 * i] * 256) as u16
    }
}

/// Number of 16-bit words that `b` is read as.
pub open spec fn word_count(b: Seq<u8>) -> nat {
    ((b.len() + 1) / 2) as nat
}

/// Ones'-complement running sum of the first `n` words of `b`, starting from zero.
pub open spec fn ones_sum(b: Seq<u8>, n: nat) -> u16
    decreases n,
{
    if n == 0 {
        0
    } else {
        ones_add(ones_sum(b, (n - 1) as nat), word_at(b, n - 1))
    }
}

/// The Internet checksum of `b`: the complement of the ones'-complement sum of its words,
/// except that a sum of 0xFFFF stays 0xFFFF.
pub open spec fn checksum_of(b: Seq<u8>) -> u16 {
    let s = ones_sum(b, word_count(b));
    if s == 0xFFFF {
        0xFFFF
    } else {
        (0xFFFF - s) as u16
    }
}

/// Performs ones' complement addition on two u16s.
///
/// Ones' complement addition on two's complement machines is done by "end-around carry", i.e.
/// adding the carry bit back in as the least significant bit of the result. The carry fires at
/// most once: 0xFFFF + 0xFFFF = 0x1FFFE, and 0xFFFE + 1 does not overflow.
pub fn ones_complement_add(a: u16, b: u16) -> (r: u16)
    ensures
        r == ones_add(a, b),
{
    let sum = a.wrapping_add(b);
    if sum < a {
        sum + 1
    } else {
        sum
    }
}

/// Calculates the Internet checksum of `bytes`, read as big-endian 16-bit words.
///
/// The Internet checksum is called for in RFCs such as RFC768 (UDP), RFC791 (IPv4) and
/// RFC793/RFC9293 (TCP). A header that carries a correct checksum sums to 0xFFFF.
pub fn internet_checksum(bytes: &[u8]) -> (r: u16)
    ensures
        r == checksum_of(bytes@),
{
    let len = bytes.len();
    let mut sum: u16 = 0;
    let mut i: usize = 0;
    while i < len
        invariant
            len == bytes@.len(),
            i <= len,
            i % 2 == 0 || i == len,
            sum == ones_sum(bytes@, ((i + 1) / 2) as nat),
        decreases len - i,
    {
        let top = bytes[i];
        if len - i >= 2 {
            let bottom = bytes[i + 1];
            let word = (top as u16) * 256 + (bottom as u16);
            assert(word == word_at(bytes@, i as int / 2));
            sum = ones_complement_add(sum, word);
            i = i + 2;
        } else {
            // odd byte at the end: pad with zero bits on the right
            let word = (top as u16) * 256;
            assert(word == word_at(bytes@, i as int / 2));
            sum = ones_complement_add(sum, word);
            i = i + 1;
        }
    }
    if sum == 0xFFFF {
        0xFFFF
    } else {
        assert(!sum == 0xFFFF - sum) by (bit_vector);
        !sum
    }
}

/// Plain (integer) sum of the first `n` words of `b`.
pub open spec fn word_total(b: Seq<u8>, n: nat) -> int
    decreases n,
{
    if n == 0 {
        0
    } else {
        word_total(b, (n - 1) as nat) + word_at(b, n - 1)
    }
}

/// Number of end-around carries taken while summing the first `n` words of `b`.
pub open spec fn carries(b: Seq<u8>, n: nat) -> int
    decreases n,
{
    if n == 0 {
        0
    } else {
        let prev = ones_sum(b, (n - 1) as nat);
        carries(b, (n - 1) as nat) + if prev + word_at(b, n - 1) > 0xFFFF {
            1int
        } else {
            0int
        }
    }
}

/// The ones'-complement sum differs from the plain sum by a whole number of moduli.
proof fn lemma_sum_is_total_minus_carries(b: Seq<u8>, n: nat)
    ensures
        ones_sum(b, n) == word_total(b, n) - word_modulus() * carries(b, n),
    decreases n,
{
    if n > 0 {
        lemma_sum_is_total_minus_carries(b, (n - 1) as nat);
    }
}

/// A ones'-complement sum is zero only when every word summed is zero.
proof fn lemma_zero_sum_means_zero_words(b: Seq<u8>, n: nat, i: int)
    requires
        ones_sum(b, n) == 0,
        0 <= i < n,
    ensures
        word_at(b, i) == 0,
    decreases n,
{
    if i < n - 1 {
        lemma_zero_sum_means_zero_words(b, (n - 1) as nat, i);
    }
}

/// Two buffers that differ only inside word `w` have plain sums that differ by exactly the
/// difference of that word.
proof fn lemma_total_differs_in_one_word(b: Seq<u8>, z: Seq<u8>, w: int, n: nat)
    requires
        b.len() == z.len(),
        0 <= w,
        2 * w < b.len(),
        n <= word_count(b),
        forall|j: int| 0 <= j < b.len() && j / 2 != w ==> b[j] == z[j],
    ensures
        word_total(b, n) - word_total(z, n) == if w < n {
            word_at(b, w) - word_at(z, w)
        } else {
            0
        },
    decreases n,
{
    if n > 0 {
        lemma_total_differs_in_one_word(b, z, w, (n - 1) as nat);
        let i = n - 1;
        if i != w {
            assert((2 * i) / 2 == i);
            assert(b[2 * i] == z[2 * i]);
            if 2 * i + 1 < b.len() {
                assert((2 * i + 1) / 2 == i);
                assert(b[2 * i + 1] == z[2 * i + 1]);
            }
        }
    }
}

/// A buffer whose aligned 16-bit checksum field holds the checksum of the buffer computed with
/// that field zeroed has an Internet checksum of exactly 0xFFFF.
pub proof fn lemma_stored_checksum_validates(b: Seq<u8>, k: int)
    requires
        0 <= k,
        k % 2 == 0,
        k + 1 < b.len(),
        b[k] * 256 + b[k + 1] == checksum_of(b.update(k, 0).update(k + 1, 0)),
    ensures
        checksum_of(b) == 0xFFFF,
{
    let z = b.update(k, 0).update(k + 1, 0);
    let n = word_count(b);
    let c = checksum_of(z);
    assert(word_at(b, k / 2) == c);
    assert(word_at(z, k / 2) == 0);
    lemma_total_differs_in_one_word(b, z, k / 2, n);
    lemma_sum_is_total_minus_carries(b, n);
    lemma_sum_is_total_minus_carries(z, n);
    let sb = ones_sum(b, n);
    let sz = ones_sum(z, n);
    // sb is a multiple of the modulus
    assert(sb == word_modulus() * (1 + carries(z, n) - carries(b, n)) + if sz == 0xFFFF {
        0xFFFFint
    } else {
        0int
    });
    // the stored checksum is nonzero, so the sum cannot be zero
    if sb == 0 {
        lemma_zero_sum_means_zero_words(b, n, k / 2);
    }
    assert(sb == 0xFFFF);
}

/// Whether `m` has exactly one bit set.
pub open spec fn is_single_bit(m: u8) -> bool {
    m == 1 || m == 2 || m == 4 || m == 8 || m == 16 || m == 32 || m == 64 || m == 128
}

/// Flipping any single bit of a buffer whose Internet checksum is 0xFFFF makes its checksum
/// differ from 0xFFFF.
pub proof fn lemma_single_bit_flip_detected(x: Seq<u8>, j: int, m: u8)
    requires
        checksum_of(x) == 0xFFFF,
        0 <= j < x.len(),
        is_single_bit(m),
    ensures
        checksum_of(x.update(j, x[j] ^ m)) != 0xFFFF,
{
    let v = x[j];
    let y = x.update(j, v ^ m);
    assert(((v ^ m) as int == v as int + m as int) || ((v ^ m) as int == v as int - m as int))
        by (bit_vector)
        requires
            m == 1u8 || m == 2u8 || m == 4u8 || m == 8u8 || m == 16u8 || m == 32u8 || m == 64u8
                || m == 128u8,
    ;
    let n = word_count(x);
    let w = j / 2;
    lemma_total_differs_in_one_word(y, x, w, n);
    lemma_sum_is_total_minus_carries(x, n);
    lemma_sum_is_total_minus_carries(y, n);
    let d = word_at(y, w) - word_at(x, w);
    assert(1 <= d <= 0x8000 || -0x8000 <= d <= -1);
    assert(ones_sum(y, n) == ones_sum(x, n) + d + word_modulus() * (carries(x, n) - carries(y, n)));
}

} // verus!
