//! Mathematical model of bit strings.
//!
//! A bit string is a `Seq<bool>` read most-significant-bit first: the element
//! at index 0 carries the highest power of two. Everything the codec writes or
//! reads is stated over this model.

use vstd::arithmetic::power2::{lemma2_to64, lemma_pow2_pos, lemma_pow2_unfold, pow2};
use vstd::prelude::*;

verus! {

/// The `width` low bits of `value`, most significant first.
pub open spec fn bits_of(value: nat, width: nat) -> Seq<bool>
    decreases width,
{
    if width == 0 {
        Seq::empty()
    } else {
        bits_of(value / 2, (width - 1) as nat).push(value % 2 == 1)
    }
}

/// The unsigned number that a bit string spells, most significant bit first.
pub open spec fn value_of(bits: Seq<bool>) -> nat
    decreases bits.len(),
{
    if bits.len() == 0 {
        0
    } else {
        2 * value_of(bits.drop_last()) + if bits.last() { 1nat } else { 0nat }
    }
}

/// `s` with the elements from index `at` on replaced by `bits`.
pub open spec fn overwrite(s: Seq<bool>, at: int, bits: Seq<bool>) -> Seq<bool> {
    Seq::new(s.len(), |i: int| if at <= i < at + bits.len() { bits[i - at] } else { s[i] })
}

/// `bits` occurs in `s` starting at index `at`.
pub open spec fn holds_at(s: Seq<bool>, at: int, bits: Seq<bool>) -> bool {
    &&& 0 <= at
    &&& at + bits.len() <= s.len()
    &&& s.subrange(at, at + bits.len()) == bits
}

/// `value` is representable as an unsigned number of `width` bits.
pub open spec fn fits_unsigned(value: int, width: nat) -> bool {
    0 <= value < pow2(width)
}

/// `value` is representable in two's complement with `width` bits.
pub open spec fn fits_signed(value: int, width: nat) -> bool {
    &&& width > 0
    &&& -pow2((width - 1) as nat) <= value < pow2((width - 1) as nat)
}

/// The unsigned number whose `width`-bit pattern is the two's complement of `value`.
pub open spec fn twos_complement(value: int, width: nat) -> nat {
    if value < 0 {
        (value + pow2(width)) as nat
    } else {
        value as nat
    }
}

/// The signed number that the `width`-bit pattern `raw` denotes in two's complement.
pub open spec fn signed_value(raw: nat, width: nat) -> int {
    if width > 0 && raw >= pow2((width - 1) as nat) {
        raw - pow2(width)
    } else {
        raw as int
    }
}

/// A number spelled in `width` bits takes `width` bits.
pub proof fn lemma_bits_of_len(value: nat, width: nat)
    ensures
        bits_of(value, width).len() == width,
    decreases width,
{
    if width > 0 {
        lemma_bits_of_len(value / 2, (width - 1) as nat);
    }
}

/// A bit string of `n` bits spells a number below `2^n`.
pub proof fn lemma_value_of_bound(bits: Seq<bool>)
    ensures
        value_of(bits) < pow2(bits.len()),
    decreases bits.len(),
{
    if bits.len() == 0 {
        lemma2_to64();
    } else {
        lemma_value_of_bound(bits.drop_last());
        lemma_pow2_unfold(bits.len());
    }
}

/// Spelling a number with enough bits and reading it back gives the number.
pub proof fn lemma_value_of_bits_of(value: nat, width: nat)
    requires
        value < pow2(width),
    ensures
        value_of(bits_of(value, width)) == value,
    decreases width,
{
    if width == 0 {
        lemma2_to64();
    } else {
        lemma_pow2_unfold(width);
        let rest = bits_of(value / 2, (width - 1) as nat);
        lemma_value_of_bits_of(value / 2, (width - 1) as nat);
        assert(bits_of(value, width).drop_last() =~= rest);
    }
}

/// Reading a bit string and spelling the number with as many bits gives the string.
pub proof fn lemma_bits_of_value_of(bits: Seq<bool>)
    ensures
        bits_of(value_of(bits), bits.len()) == bits,
    decreases bits.len(),
{
    if bits.len() > 0 {
        let v = value_of(bits);
        lemma_bits_of_value_of(bits.drop_last());
        assert(v / 2 == value_of(bits.drop_last()));
        assert((v % 2 == 1) == bits.last());
        assert(bits_of(v, bits.len()) =~= bits);
    } else {
        assert(bits_of(value_of(bits), 0) =~= bits);
    }
}

/// What was written over a bit string occurs in it where it was written.
pub proof fn lemma_overwrite_holds(s: Seq<bool>, at: int, bits: Seq<bool>)
    requires
        0 <= at,
        at + bits.len() <= s.len(),
    ensures
        overwrite(s, at, bits).len() == s.len(),
        holds_at(overwrite(s, at, bits), at, bits),
{
    assert(overwrite(s, at, bits).subrange(at, at + bits.len()) =~= bits);
}

/// Two adjacent overwrites amount to one overwrite with the concatenation.
pub proof fn lemma_overwrite_concat(s: Seq<bool>, at: int, a: Seq<bool>, b: Seq<bool>)
    requires
        0 <= at,
        at + a.len() + b.len() <= s.len(),
    ensures
        overwrite(overwrite(s, at, a), at + a.len(), b) == overwrite(s, at, a + b),
{
    assert(overwrite(overwrite(s, at, a), at + a.len(), b) =~= overwrite(s, at, a + b));
}

/// Writing nothing changes nothing.
pub proof fn lemma_overwrite_empty(s: Seq<bool>, at: int)
    ensures
        overwrite(s, at, Seq::empty()) == s,
{
    assert(overwrite(s, at, Seq::empty()) =~= s);
}

/// A concatenation occurs at `at` exactly when its parts occur one after the other.
pub proof fn lemma_holds_concat(s: Seq<bool>, at: int, a: Seq<bool>, b: Seq<bool>)
    ensures
        holds_at(s, at, a + b) <==> holds_at(s, at, a) && holds_at(s, at + a.len(), b),
{
    if holds_at(s, at, a + b) {
        let whole = s.subrange(at, at + (a + b).len());
        assert(s.subrange(at, at + a.len()) =~= whole.subrange(0, a.len() as int));
        assert((a + b).subrange(0, a.len() as int) =~= a);
        assert(s.subrange(at + a.len(), at + a.len() + b.len()) =~= whole.subrange(
            a.len() as int,
            (a + b).len() as int,
        ));
        assert((a + b).subrange(a.len() as int, (a + b).len() as int) =~= b);
    }
    if holds_at(s, at, a) && holds_at(s, at + a.len(), b) {
        assert(s.subrange(at, at + (a + b).len()) =~= s.subrange(at, at + a.len()) + s.subrange(
            at + a.len(),
            at + a.len() + b.len(),
        ));
    }
}

/// Two's complement is a bijection between the signed range and the bit patterns.
pub proof fn lemma_signed_round_trip(value: int, width: nat)
    requires
        fits_signed(value, width),
    ensures
        twos_complement(value, width) < pow2(width),
        signed_value(twos_complement(value, width), width) == value,
{
    lemma_pow2_unfold(width);
    lemma_pow2_pos((width - 1) as nat);
}

/// Every bit pattern denotes a number of the signed range, and is the pattern of that number.
pub proof fn lemma_signed_value_fits(raw: nat, width: nat)
    requires
        width > 0,
        raw < pow2(width),
    ensures
        fits_signed(signed_value(raw, width), width),
        twos_complement(signed_value(raw, width), width) == raw,
{
    lemma_pow2_unfold(width);
    lemma_pow2_pos((width - 1) as nat);
}

} // verus!
