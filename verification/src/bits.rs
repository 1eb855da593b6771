//! Bit strings: the little-endian bits of a number, the number a bit string
//! stands for, and the bitwise-or of a bit string into a longer one.
//!
//! A code segment is read as a bit string in which bit `i` of byte `k` comes
//! at index `8 * k + i`; a field of `n` bits holds its least significant bit
//! first.
use vstd::arithmetic::div_mod::{lemma_div_denominator, lemma_fundamental_div_mod};
use vstd::arithmetic::power2::{lemma2_to64, lemma_pow2_pos, lemma_pow2_unfold, pow2};
use vstd::prelude::*;

verus! {

/// Bit `i` of `v`.
pub open spec fn bit_of(v: nat, i: nat) -> bool {
    (v / pow2(i)) % 2 == 1
}

/// The `n` least significant bits of `v`, least significant first.
pub open spec fn bits_le(v: nat, n: nat) -> Seq<bool> {
    Seq::new(n, |i: int| bit_of(v, i as nat))
}

/// The number whose little-endian bits are `s`.
pub open spec fn bits_value(s: Seq<bool>) -> nat
    decreases s.len(),
{
    if s.len() == 0 {
        0
    } else {
        (if s[0] {
            1nat
        } else {
            0nat
        }) + 2 * bits_value(s.drop_first())
    }
}

/// `base` with `v` or-ed into it from index `pos` on (the part of `v` past
/// the end of `base` is dropped).
pub open spec fn or_at(base: Seq<bool>, pos: nat, v: Seq<bool>) -> Seq<bool> {
    Seq::new(
        base.len(),
        |i: int|
            if pos <= i < pos + v.len() {
                base[i] || v[i - pos]
            } else {
                base[i]
            },
    )
}

/// The bits of a byte string: bit `i` of byte `k` at index `8 * k + i`.
pub open spec fn bytes_bits(bytes: Seq<u8>) -> Seq<bool> {
    Seq::new(8 * bytes.len(), |i: int| bit_of(bytes[i / 8] as nat, (i % 8) as nat))
}

/// Whether `s` holds no set bit in `[from, to)`.
pub open spec fn all_clear(s: Seq<bool>, from: nat, to: nat) -> bool {
    forall|i: int| from <= i < to && 0 <= i < s.len() ==> !s[i]
}

/// Dropping the least significant bit of `v` halves it.
proof fn lemma_bits_le_drop_first(v: nat, n: nat)
    requires
        n > 0,
    ensures
        bits_le(v, n).drop_first() =~= bits_le(v / 2, (n - 1) as nat),
        bits_le(v, n)[0] == (v % 2 == 1),
{
    lemma2_to64();
    assert forall|i: int| 0 <= i < n - 1 implies #[trigger] bit_of(v, (i + 1) as nat) == bit_of(
        v / 2,
        i as nat,
    ) by {
        lemma_pow2_unfold((i + 1) as nat);
        lemma_pow2_pos(i as nat);
        lemma_div_denominator(v as int, 2, pow2(i as nat) as int);
    }
}

/// The number of `bits_le(v, n)` is `v` when `v` has at most `n` bits.
pub proof fn lemma_bits_le_value(v: nat, n: nat)
    requires
        v < pow2(n),
    ensures
        bits_value(bits_le(v, n)) == v,
    decreases n,
{
    lemma2_to64();
    if n == 0 {
    } else {
        lemma_bits_le_drop_first(v, n);
        lemma_pow2_unfold(n);
        lemma_fundamental_div_mod(v as int, 2);
        lemma_bits_le_value(v / 2, (n - 1) as nat);
    }
}

/// A bit string of length `n` stands for a number below `2^n`.
pub proof fn lemma_bits_value_bound(s: Seq<bool>)
    ensures
        bits_value(s) < pow2(s.len()),
    decreases s.len(),
{
    lemma2_to64();
    if s.len() > 0 {
        lemma_bits_value_bound(s.drop_first());
        lemma_pow2_unfold(s.len());
    }
}

/// Or-ing `x` and then `y` right after it is or-ing `x + y`.
pub proof fn lemma_or_at_concat(base: Seq<bool>, pos: nat, x: Seq<bool>, y: Seq<bool>)
    ensures
        or_at(or_at(base, pos, x), pos + x.len(), y) =~= or_at(base, pos, x + y),
{
}

/// Or-ing a bit string that starts at or past the end of `base` into it
/// changes nothing, so only the part of `x + y` before the end counts.
pub proof fn lemma_or_at_past_end(base: Seq<bool>, pos: nat, x: Seq<bool>, y: Seq<bool>)
    requires
        base.len() <= pos + x.len(),
    ensures
        or_at(base, pos, x + y) =~= or_at(base, pos, x),
{
}

/// Or-ing into a clear region writes exactly the or-ed bits there.
pub proof fn lemma_or_at_clear(base: Seq<bool>, pos: nat, v: Seq<bool>)
    requires
        pos + v.len() <= base.len(),
        all_clear(base, pos, pos + v.len()),
    ensures
        or_at(base, pos, v).subrange(pos as int, (pos + v.len()) as int) =~= v,
{
}

} // verus!
