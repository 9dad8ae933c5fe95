//! The Internet checksum: one's-complement sum of 16-bit big-endian words.

use vstd::prelude::*;
use vstd::arithmetic::div_mod::lemma_mod_multiples_vanish;
use crate::wire::be16;

verus! {

/// The plain sum of the 16-bit big-endian words of `s`; a trailing odd
/// byte counts as the high byte of a final word whose low byte is zero.
pub open spec fn word_sum(s: Seq<u8>) -> nat
    decreases s.len(),
{
    if s.len() == 0 {
        0
    } else if s.len() == 1 {
        s[0] as nat * 256
    } else {
        s[0] as nat * 256 + s[1] as nat + word_sum(s.subrange(2, s.len() as int))
    }
}

/// End-around carry: the bits above 16 are added back in, repeatedly,
/// until the value fits in 16 bits.
pub open spec fn fold_carries(x: nat) -> nat
    decreases x,
{
    if x < 0x10000 {
        x
    } else {
        fold_carries(x % 0x10000 + x / 0x10000)
    }
}

/// The Internet checksum of `s`: the one's complement of the folded word sum.
pub open spec fn internet_checksum(s: Seq<u8>) -> int {
    0xffff - fold_carries(word_sum(s))
}

/// `s` with the two bytes at `k` set to zero.
pub open spec fn zero_word(s: Seq<u8>, k: int) -> Seq<u8> {
    s.update(k, 0u8).update(k + 1, 0u8)
}

/// The folded sum is zero for zero, and otherwise the residue modulo
/// 0xffff, with 0xffff standing for residue 0.
pub proof fn lemma_fold_closed_form(x: nat)
    ensures
        fold_carries(x) == if x == 0 {
            0
        } else if x % 0xffff == 0 {
            0xffff
        } else {
            x % 0xffff
        },
    decreases x,
{
    if x >= 0x10000 {
        let q = x / 0x10000;
        let r = x % 0x10000;
        let y = (r + q) as nat;
        assert(x == 0x10000 * q + r);
        assert(x == 0xffff * q + y) by (nonlinear_arith)
            requires
                x == 0x10000 * q + r,
                y == r + q,
        ;
        lemma_mod_multiples_vanish(q as int, y as int, 0xffff);
        assert(y < x);
        lemma_fold_closed_form(y);
    }
}

/// Two sums that agree modulo 0xffff and are zero together fold alike.
pub proof fn lemma_fold_congruent(a: nat, b: nat)
    requires
        a % 0xffff == b % 0xffff,
        a == 0 <==> b == 0,
    ensures
        fold_carries(a) == fold_carries(b),
{
    lemma_fold_closed_form(a);
    lemma_fold_closed_form(b);
}

/// The folded sum always fits in 16 bits.
pub proof fn lemma_fold_bound(x: nat)
    ensures
        fold_carries(x) <= 0xffff,
        x < 0x10000 ==> fold_carries(x) == x,
{
    lemma_fold_closed_form(x);
}

/// Folding once before adding more words changes nothing in the end.
pub proof fn lemma_fold_step(t: nat, rest: nat)
    ensures
        fold_carries((t % 0x10000 + t / 0x10000 + rest) as nat) == fold_carries(t + rest),
{
    let q = t / 0x10000;
    let r = t % 0x10000;
    let a = (r + q + rest) as nat;
    let b = t + rest;
    assert(t == 0x10000 * q + r);
    assert(b == 0xffff * q + a) by (nonlinear_arith)
        requires
            t == 0x10000 * q + r,
            a == r + q + rest,
            b == t + rest,
    ;
    lemma_mod_multiples_vanish(q as int, a as int, 0xffff);
    lemma_fold_congruent(a, b);
}

/// The word sum of a sequence split at an even position is the sum of the
/// word sums of its parts.
pub proof fn lemma_word_sum_split(s: Seq<u8>, k: int)
    requires
        0 <= k <= s.len(),
        k % 2 == 0,
    ensures
        word_sum(s) == word_sum(s.subrange(0, k)) + word_sum(s.subrange(k, s.len() as int)),
    decreases k,
{
    if k == 0 {
        assert(s.subrange(0, 0) =~= Seq::<u8>::empty());
        assert(s.subrange(0, s.len() as int) =~= s);
    } else {
        let t = s.subrange(2, s.len() as int);
        lemma_word_sum_split(t, k - 2);
        assert(t.subrange(0, k - 2) =~= s.subrange(0, k).subrange(2, k));
        assert(t.subrange(k - 2, t.len() as int) =~= s.subrange(k, s.len() as int));
    }
}

/// Replacing the word at an even position changes the word sum by the
/// difference of the two words.
pub proof fn lemma_word_sum_zero_word(s: Seq<u8>, k: int)
    requires
        0 <= k,
        k + 1 < s.len(),
        k % 2 == 0,
    ensures
        word_sum(s) == word_sum(zero_word(s, k)) + be16(s, k),
{
    let z = zero_word(s, k);
    let n = s.len() as int;
    lemma_word_sum_split(s, k);
    lemma_word_sum_split(z, k);
    assert(s.subrange(0, k) =~= z.subrange(0, k));
    let a = s.subrange(k, n);
    let b = z.subrange(k, n);
    assert(a.subrange(2, a.len() as int) =~= b.subrange(2, b.len() as int));
}

/// A header whose checksum word holds the checksum of the header with that
/// word zeroed sums to zero, and zeroing the word gives that checksum back.
pub proof fn lemma_checksum_verifies(h: Seq<u8>, k: int)
    requires
        0 <= k,
        k + 1 < h.len(),
        k % 2 == 0,
        be16(h, k) == internet_checksum(zero_word(h, k)),
    ensures
        internet_checksum(h) == 0,
        internet_checksum(zero_word(h, k)) == be16(h, k),
{
    let z = zero_word(h, k);
    let s = word_sum(z);
    lemma_word_sum_zero_word(h, k);
    lemma_fold_closed_form(s);
    let total = word_sum(h);
    assert(total == s + 0xffff - fold_carries(s));
    assert(total % 0xffff == 0) by {
        if s != 0 {
            let r = s % 0xffff;
            let q: int = s as int / 0xffff;
            assert(s == 0xffff * q + r);
            if r == 0 {
                assert(total == 0xffff * q);
                lemma_mod_multiples_vanish(q, 0, 0xffff);
            } else {
                assert(fold_carries(s) == r);
                assert(total == 0xffff * (q + 1));
                lemma_mod_multiples_vanish(q + 1, 0, 0xffff);
            }
        }
    }
    assert(total > 0);
    lemma_fold_closed_form(total);
}

} // verus!
