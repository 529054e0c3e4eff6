use vstd::prelude::*;
use vstd::arithmetic::div_mod::{
    lemma_fundamental_div_mod, lemma_mod_multiples_basic, lemma_mod_multiples_vanish,
    lemma_mod_sub_multiples_vanish, lemma_small_mod,
};

verus! {

/// Sum of the big-endian 16-bit words of a byte sequence, as in RFC 1071.
/// A trailing odd byte counts as the high byte of a final word.
pub open spec fn word_sum(s: Seq<u8>) -> int
    decreases s.len(),
{
    if s.len() == 0 {
        0
    } else if s.len() == 1 {
        s[0] * 0x100
    } else {
        s[0] * 0x100 + s[1] + word_sum(s.skip(2))
    }
}

/// End-around-carry folding of a one's-complement sum into 16 bits.
pub open spec fn fold16(s: int) -> int
    decreases s,
        when s >= 0
        via fold16_decreases
{
    if s <= 0xffff {
        s
    } else {
        fold16(s % 0x10000 + s / 0x10000)
    }
}

#[via_fn]
proof fn fold16_decreases(s: int) {
    if s > 0xffff {
        lemma_fold_arg_shrinks(s);
    }
}

/// One folding step keeps the value nonnegative and strictly shrinks it.
proof fn lemma_fold_arg_shrinks(s: int)
    requires
        s > 0xffff,
    ensures
        0 < s % 0x10000 + s / 0x10000 < s,
        s == (s % 0x10000 + s / 0x10000) + 0xffff * (s / 0x10000),
        s / 0x10000 >= 1,
{
    lemma_fundamental_div_mod(s, 0x10000);
    let q = s / 0x10000;
    let r = s % 0x10000;
    if q <= 0 {
        assert(0x10000 * q <= 0);
        assert(s <= r);
        assert(false);
    }
}

/// The RFC 1071 internet checksum of a byte sequence: the one's complement of
/// the folded word sum.
pub open spec fn checksum_of(s: Seq<u8>) -> u16 {
    (0xffff - fold16(word_sum(s))) as u16
}

pub proof fn lemma_word_sum_nonneg(s: Seq<u8>)
    ensures
        word_sum(s) >= 0,
    decreases s.len(),
{
    if s.len() >= 2 {
        lemma_word_sum_nonneg(s.skip(2));
    }
}

/// Folding stays within 16 bits, never grows the value, and keeps a positive
/// value positive.
pub proof fn lemma_fold16_bounds(s: int)
    requires
        s >= 0,
    ensures
        0 <= fold16(s) <= 0xffff,
        fold16(s) <= s,
        s > 0 ==> fold16(s) > 0,
    decreases s,
{
    if s > 0xffff {
        lemma_fold_arg_shrinks(s);
        lemma_fold16_bounds(s % 0x10000 + s / 0x10000);
    }
}

/// Folding preserves the value modulo 0xffff, because 0x10000 is congruent
/// to 1 there.
pub proof fn lemma_fold16_congruent(s: int)
    requires
        s >= 0,
    ensures
        fold16(s) % 0xffff == s % 0xffff,
    decreases s,
{
    if s > 0xffff {
        lemma_fold_arg_shrinks(s);
        let t = s % 0x10000 + s / 0x10000;
        lemma_fold16_congruent(t);
        lemma_mod_multiples_vanish(s / 0x10000, t, 0xffff);
    }
}

/// Adding the one's complement of the folded sum back onto the sum folds to
/// exactly 0xffff, so the complement of that is zero: a frame that carries
/// its own checksum verifies to zero.
pub proof fn lemma_fold16_insert_complement(s: int)
    requires
        s >= 0,
    ensures
        fold16(s + 0xffff - fold16(s)) == 0xffff,
{
    lemma_fold16_bounds(s);
    let t = s + 0xffff - fold16(s);
    lemma_fold16_bounds(t);
    lemma_fold16_congruent(s);
    lemma_fold16_congruent(t);
    lemma_fundamental_div_mod(s, 0xffff);
    lemma_fundamental_div_mod(fold16(s), 0xffff);
    let k = s / 0xffff - fold16(s) / 0xffff + 1;
    assert(t == k * 0xffff);
    lemma_mod_multiples_basic(k, 0xffff);
    if fold16(t) < 0xffff {
        lemma_small_mod(fold16(t) as nat, 0xffff as nat);
    }
}

/// The word sum of two sequences laid end to end is the sum of their word
/// sums, provided the first ends on a word boundary.
pub proof fn lemma_word_sum_append(a: Seq<u8>, b: Seq<u8>)
    requires
        a.len() % 2 == 0,
    ensures
        word_sum(a + b) == word_sum(a) + word_sum(b),
    decreases a.len(),
{
    if a.len() == 0 {
        assert(a + b =~= b);
    } else {
        lemma_mod_sub_multiples_vanish(a.len() as int, 2);
        lemma_word_sum_append(a.skip(2), b);
        assert((a + b).skip(2) =~= a.skip(2) + b);
    }
}

/// Splitting the word sum at an even offset.
pub proof fn lemma_word_sum_skip2(s: Seq<u8>, i: int)
    requires
        0 <= i,
        i + 2 <= s.len(),
    ensures
        word_sum(s.skip(i)) == s[i] * 0x100 + s[i + 1] + word_sum(s.skip(i + 2)),
{
    assert(s.skip(i).skip(2) =~= s.skip(i + 2));
}

/// The two big-endian bytes of a 16-bit value.
pub open spec fn be16(x: u16) -> Seq<u8> {
    seq![(x / 0x100) as u8, (x % 0x100) as u8]
}

pub proof fn lemma_be16_value(x: u16)
    ensures
        be16(x).len() == 2,
        be16(x)[0] * 0x100 + be16(x)[1] == x,
{
    lemma_fundamental_div_mod(x as int, 0x100);
    assert(x / 0x100 < 0x100);
}

pub proof fn lemma_be16_word_sum(x: u16)
    ensures
        word_sum(be16(x)) == x,
{
    lemma_be16_value(x);
    assert(be16(x).skip(2) =~= Seq::<u8>::empty());
    assert(word_sum(Seq::<u8>::empty()) == 0);
}

/// Law: compute the checksum of a frame with its checksum field zeroed, write
/// it back into that field, and the checksum of the resulting frame is zero.
/// `a` is the part of the frame before the checksum field and must end on a
/// word boundary; `b` is the part after it.
pub proof fn lemma_checksum_insertion(a: Seq<u8>, b: Seq<u8>)
    requires
        a.len() % 2 == 0,
    ensures
        ({
            let c = checksum_of(a + seq![0u8, 0u8] + b);
            checksum_of(a + be16(c) + b) == 0
        }),
{
    let z: Seq<u8> = seq![0u8, 0u8];
    let c = checksum_of(a + z + b);
    lemma_word_sum_nonneg(a);
    lemma_word_sum_nonneg(b);
    assert(a + z + b =~= a + (z + b));
    lemma_word_sum_append(a, z + b);
    lemma_word_sum_append(z, b);
    assert(word_sum(z) == 0) by {
        assert(z.skip(2) =~= Seq::<u8>::empty());
        assert(word_sum(Seq::<u8>::empty()) == 0);
    };
    let s0 = word_sum(a + z + b);
    lemma_fold16_bounds(s0);
    assert(c == 0xffff - fold16(s0));
    lemma_be16_word_sum(c);
    assert(a + be16(c) + b =~= a + (be16(c) + b));
    lemma_word_sum_append(a, be16(c) + b);
    lemma_word_sum_append(be16(c), b);
    assert(word_sum(a + be16(c) + b) == s0 + c);
    lemma_fold16_insert_complement(s0);
}

/// Computes the RFC 1071 internet checksum of `data`. The length bound is the
/// IPv4 limit: no datagram this library handles is longer than 65535 bytes.
pub fn internet_checksum(data: &Vec<u8>) -> (c: u16)
    requires
        data@.len() <= 0xffff,
    ensures
        c == checksum_of(data@),
{
    let n = data.len();
    let mut sum: u64 = 0;
    let mut i: usize = 0;
    proof {
        assert(data@.skip(0) =~= data@);
    }
    while i + 2 <= n
        invariant
            i <= n,
            n == data@.len() <= 0xffff,
            sum <= 0x10000 * (i as int),
            sum + word_sum(data@.skip(i as int)) == word_sum(data@),
        decreases n - i,
    {
        proof {
            lemma_word_sum_skip2(data@, i as int);
            lemma_word_sum_nonneg(data@.skip(i as int + 2));
        }
        sum = sum + (data[i] as u64) * 0x100 + (data[i + 1] as u64);
        i = i + 2;
    }
    if i < n {
        proof {
            lemma_word_sum_nonneg(data@.skip(i as int));
        }
        sum = sum + (data[i] as u64) * 0x100;
        proof {
            assert(data@.skip(i as int).len() == 1);
        }
        i = i + 1;
    }
    proof {
        assert(data@.skip(n as int) =~= Seq::<u8>::empty());
        if i == n {
            assert(word_sum(data@.skip(n as int)) == 0);
        }
        lemma_word_sum_nonneg(data@);
    }
    while sum > 0xffff
        invariant
            sum >= 0,
            fold16(sum as int) == fold16(word_sum(data@)),
        decreases sum,
    {
        proof {
            lemma_fold_arg_shrinks(sum as int);
        }
        sum = sum % 0x10000 + sum / 0x10000;
    }
    proof {
        lemma_fold16_bounds(word_sum(data@));
    }
    0xffff - (sum as u16)
}

} // verus!
