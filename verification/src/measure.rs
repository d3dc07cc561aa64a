//! Grid-measurement labels: the popcount of a length and its spelling as
//! a sum of powers of two.

use vstd::prelude::*;
use crate::decimal::{decimal_int, decimal_nat, push_char, push_decimal_i64, push_decimal_u64};

verus! {

/// `2^k`.
pub open spec fn two_pow(k: nat) -> nat
    decreases k,
{
    if k == 0 { 1 } else { 2 * two_pow((k - 1) as nat) }
}

/// Number of one bits in the binary form of `n`.
pub open spec fn bit_count(n: nat) -> nat
    decreases n,
{
    if n == 0 { 0 } else { n % 2 + bit_count(n / 2) }
}

/// The non-negative part of a value: `max(value, 0)`.
pub open spec fn clamp_nonneg(v: int) -> nat {
    if v < 0 { 0 } else { v as nat }
}

proof fn lemma_bit_count_bound(n: nat, k: nat)
    requires
        n < two_pow(k),
    ensures
        bit_count(n) <= k,
    decreases k,
{
    if k > 0 && n > 0 {
        lemma_bit_count_bound(n / 2, (k - 1) as nat);
    }
}

/// The values of `2^64` and `2^63`.
pub proof fn lemma_two_pow_64()
    ensures
        two_pow(64) == 0x1_0000_0000_0000_0000,
        two_pow(63) == 0x8000_0000_0000_0000,
{
    reveal_with_fuel(two_pow, 65);
}

/// Popcount (Hamming weight) of a length: the number of powers of two it is
/// the sum of. Negative values count as zero.
pub fn popcount(value: i64) -> (r: u32)
    ensures
        r == bit_count(clamp_nonneg(value as int)),
{
    let mut v: u64 = if value < 0 { 0 } else { value as u64 };
    let ghost total = bit_count(v as nat);
    proof {
        lemma_two_pow_64();
        lemma_bit_count_bound(v as nat, 64);
    }
    let mut count: u32 = 0;
    while v > 0
        invariant
            count + bit_count(v as nat) == total,
            total <= 64,
        decreases v,
    {
        count = count + (v % 2) as u32;
        v = v / 2;
    }
    count
}

} // verus!

verus! {

/// Whether bit `b` of `n` is one.
pub open spec fn bit_set(n: nat, b: nat) -> bool {
    (n / two_pow(b)) % 2 == 1
}

/// The exponents `e` with `lo <= e < hi` whose bit is set in `n`, highest first.
pub open spec fn powers_from(n: nat, lo: nat, hi: nat) -> Seq<nat>
    decreases hi - lo,
{
    if lo >= hi {
        seq![]
    } else {
        powers_from(n, lo + 1, hi) + (if bit_set(n, lo) { seq![lo] } else { seq![] })
    }
}

/// The powers `2^e` for the exponents in `exps`, written in decimal and joined by `+`.
pub open spec fn plus_joined(exps: Seq<nat>) -> Seq<char>
    decreases exps.len(),
{
    if exps.len() == 0 {
        seq![]
    } else if exps.len() == 1 {
        decimal_nat(two_pow(exps[0]))
    } else {
        plus_joined(exps.drop_last()) + seq!['+'] + decimal_nat(two_pow(exps.last()))
    }
}

/// The label of a length: the bare number when it is not positive,
/// `"{v} = 2^{e}"` for a power of two, else `"{v} = "` and its powers of two,
/// highest first, joined by `+`.
pub open spec fn label_text(v: int) -> Seq<char> {
    if v <= 0 {
        decimal_int(v)
    } else {
        let exps = powers_from(v as nat, 0, 64);
        if exps.len() == 1 {
            decimal_nat(v as nat) + seq![' ', '=', ' ', '2', '^'] + decimal_nat(exps[0])
        } else {
            decimal_nat(v as nat) + seq![' ', '=', ' '] + plus_joined(exps)
        }
    }
}

proof fn lemma_two_pow_half(b: nat)
    requires
        b > 0,
    ensures
        two_pow((b - 1) as nat) == two_pow(b) / 2,
        two_pow(b) == 2 * two_pow((b - 1) as nat),
{
}

/// Set-bit exponents of `v`, highest first, with the matching powers of two.
fn set_bits_desc(v: u64) -> (r: (Vec<u32>, Vec<u64>))
    ensures
        r.0@.len() == r.1@.len(),
        r.0@.map_values(|e: u32| e as nat) == powers_from(v as nat, 0, 64),
        forall|i: int| 0 <= i < r.0@.len() ==> r.1@[i] == two_pow(r.0@[i] as nat) && r.0@[i] < 64,
{
    let mut exps: Vec<u32> = Vec::new();
    let mut pows: Vec<u64> = Vec::new();
    let mut bit: u32 = 64;
    let mut p: u64 = 0x8000_0000_0000_0000u64;
    proof {
        lemma_two_pow_64();
    }
    while bit > 0
        invariant
            bit <= 64,
            bit > 0 ==> p == two_pow((bit - 1) as nat),
            exps@.len() == pows@.len(),
            exps@.map_values(|e: u32| e as nat) == powers_from(v as nat, bit as nat, 64),
            forall|i: int| 0 <= i < exps@.len() ==> pows@[i] == two_pow(exps@[i] as nat) && exps@[i] < 64,
        decreases bit,
    {
        let b = bit - 1;
        let ghost before = exps@;
        assert(p > 0) by {
            lemma_two_pow_pos((bit - 1) as nat);
        }
        if (v / p) % 2 == 1 {
            exps.push(b);
            pows.push(p);
        }
        proof {
            assert forall|i: int| 0 <= i < exps@.len() implies pows@[i] == two_pow(exps@[i] as nat)
                && exps@[i] < 64 by {
                if i < before.len() {
                    assert(exps@[i] == before[i]);
                }
            }
            assert(powers_from(v as nat, b as nat, 64) == powers_from(v as nat, bit as nat, 64) + (
            if bit_set(v as nat, b as nat) { seq![b as nat] } else { seq![] }));
            assert(exps@.map_values(|e: u32| e as nat) =~= powers_from(v as nat, b as nat, 64));
        }
        bit = b;
        if bit > 0 {
            proof {
                lemma_two_pow_half(bit as nat + 1);
            }
            p = p / 2;
        }
    }
    (exps, pows)
}

proof fn lemma_two_pow_pos(b: nat)
    ensures
        two_pow(b) > 0,
    decreases b,
{
    if b > 0 {
        lemma_two_pow_pos((b - 1) as nat);
    }
}

/// The label for a length: `"96 = 64+32"`, `"256 = 2^8"`. Pure powers get an
/// exponent; sums list their powers high-to-low; values that are not
/// positive are written as plain numbers.
pub fn label(value: i64) -> (s: String)
    ensures
        s@ == label_text(value as int),
{
    let mut s = String::new();
    if value <= 0 {
        push_decimal_i64(&mut s, value);
        assert(s@ =~= label_text(value as int));
        return s;
    }
    let v = value as u64;
    let (exps, pows) = set_bits_desc(v);
    let ghost bits = powers_from(v as nat, 0, 64);
    assert(exps@.len() == bits.len()) by {
        assert(exps@.map_values(|e: u32| e as nat).len() == exps@.len());
    }
    push_decimal_u64(&mut s, v);
    if exps.len() == 1 {
        push_char(&mut s, ' ');
        push_char(&mut s, '=');
        push_char(&mut s, ' ');
        push_char(&mut s, '2');
        push_char(&mut s, '^');
        assert(exps@.map_values(|e: u32| e as nat)[0] == bits[0]);
        push_decimal_u64(&mut s, exps[0] as u64);
        assert(s@ =~= label_text(value as int));
        return s;
    }
    push_char(&mut s, ' ');
    push_char(&mut s, '=');
    push_char(&mut s, ' ');
    let ghost head = s@;
    let mut i: usize = 0;
    while i < exps.len()
        invariant
            i <= exps@.len(),
            exps@.len() == pows@.len(),
            exps@.len() == bits.len(),
            exps@.map_values(|e: u32| e as nat) == bits,
            forall|j: int| 0 <= j < exps@.len() ==> pows@[j] == two_pow(exps@[j] as nat),
            s@ == head + plus_joined(bits.subrange(0, i as int)),
        decreases exps@.len() - i,
    {
        let ghost prev = s@;
        if i > 0 {
            push_char(&mut s, '+');
        }
        push_decimal_u64(&mut s, pows[i]);
        proof {
            let sub = bits.subrange(0, i as int + 1);
            assert(sub.drop_last() =~= bits.subrange(0, i as int));
            assert(sub.last() == bits[i as int]);
            assert(exps@.map_values(|e: u32| e as nat)[i as int] == bits[i as int]);
            if i == 0 {
                assert(bits.subrange(0, 0) =~= Seq::<nat>::empty());
                assert(s@ =~= head + plus_joined(sub));
            } else {
                assert(s@ =~= head + plus_joined(sub));
            }
        }
        i = i + 1;
    }
    assert(bits.subrange(0, exps@.len() as int) =~= bits);
    assert(s@ =~= label_text(value as int));
    s
}

} // verus!

verus! {

/// What a single measurement describes.
#[derive(Clone, Copy, PartialEq, Eq, Debug)]
pub enum MeasureKind {
    /// On-curve point to its off-curve control (a Bézier handle).
    Handle,
    /// A straight outline segment between two consecutive on-curve points.
    Segment,
    /// Horizontal span between two facing near-vertical edges (stem/counter).
    Horizontal,
    /// Vertical span between two facing near-horizontal edges (bar/height).
    Vertical,
}

/// Which layers of the grid-measurement HUD are on. All-false is the plain
/// editor: nothing extra drawn.
#[derive(Clone, Copy, Debug)]
pub struct MeasureOptions {
    /// Tint the outline segments, curves, and handle lines by popcount.
    pub colorize: bool,
    /// Label Bézier handle lengths.
    pub handles: bool,
    /// Label straight outline segment lengths.
    pub segments: bool,
    /// Draw and label stem/counter/height spans.
    pub spans: bool,
    /// Draw and label left/right side bearings.
    pub sidebearings: bool,
    /// Spell lengths out as sums of powers of two rather than bare numbers.
    pub popcount: bool,
}

impl Default for MeasureOptions {
    /// Every layer off, but a label that does appear reads as a sum.
    fn default() -> (r: Self)
        ensures
            !r.colorize && !r.handles && !r.segments && !r.spans && !r.sidebearings,
            r.popcount,
    {
        MeasureOptions {
            colorize: false,
            handles: false,
            segments: false,
            spans: false,
            sidebearings: false,
            popcount: true,
        }
    }
}

impl MeasureOptions {
    /// Whether any measurement layer is drawn.
    pub fn any(&self) -> (r: bool)
        ensures
            r == (self.colorize || self.handles || self.segments || self.spans || self.sidebearings),
    {
        self.colorize || self.handles || self.segments || self.spans || self.sidebearings
    }

    /// How a length is written on the canvas: as a sum of powers of two when
    /// `popcount` is on, else as the bare number.
    pub fn label(&self, value: i64) -> (s: String)
        ensures
            s@ == (if self.popcount { label_text(value as int) } else { decimal_int(value as int) }),
    {
        if self.popcount {
            label(value)
        } else {
            let mut s = String::new();
            push_decimal_i64(&mut s, value);
            assert(s@ =~= decimal_int(value as int));
            s
        }
    }
}

/// Which curve-smoothness layers are on. All-false is the plain editor.
#[derive(Clone, Copy, Debug)]
pub struct CurveOptions {
    /// Curvature comb.
    pub comb: bool,
    /// Continuity markers per smooth node.
    pub continuity: bool,
}

impl Default for CurveOptions {
    fn default() -> (r: Self)
        ensures
            !r.comb && !r.continuity,
    {
        CurveOptions { comb: false, continuity: false }
    }
}

} // verus!

verus! {

/// The sum of `2^e` over the exponents in `exps`.
pub open spec fn powers_sum(exps: Seq<nat>) -> nat
    decreases exps.len(),
{
    if exps.len() == 0 {
        0
    } else {
        powers_sum(exps.drop_last()) + two_pow(exps.last())
    }
}

proof fn lemma_two_pow_positive(k: nat)
    ensures
        two_pow(k) > 0,
    decreases k,
{
    if k > 0 {
        lemma_two_pow_positive((k - 1) as nat);
    }
}

proof fn lemma_powers_from(n: nat, lo: nat, hi: nat)
    requires
        lo <= hi,
        n < two_pow(hi),
    ensures
        powers_from(n, lo, hi).len() == bit_count(n / two_pow(lo)),
        powers_sum(powers_from(n, lo, hi)) == (n / two_pow(lo)) * two_pow(lo),
    decreases hi - lo,
{
    lemma_two_pow_positive(lo);
    if lo == hi {
        vstd::arithmetic::div_mod::lemma_basic_div(n as int, two_pow(hi) as int);
    } else {
        lemma_powers_from(n, lo + 1, hi);
        let a = two_pow(lo);
        let q = n / a;
        assert(two_pow(lo + 1) == a * 2);
        vstd::arithmetic::div_mod::lemma_div_denominator(n as int, a as int, 2);
        assert(n / two_pow(lo + 1) == q / 2);
        let rest = powers_from(n, lo + 1, hi);
        assert(bit_count(q) == q % 2 + bit_count(q / 2));
        if bit_set(n, lo) {
            assert(powers_from(n, lo, hi) == rest + seq![lo]);
            assert((rest + seq![lo]).drop_last() =~= rest);
            assert(q % 2 == 1);
            assert((q / 2) * (a * 2) + a == q * a) by (nonlinear_arith)
                requires
                    q % 2 == 1,
                    q == 2 * (q / 2) + q % 2,
            ;
        } else {
            assert(powers_from(n, lo, hi) =~= rest);
            assert(q % 2 == 0);
            assert((q / 2) * (a * 2) == q * a) by (nonlinear_arith)
                requires
                    q % 2 == 0,
                    q == 2 * (q / 2) + q % 2,
            ;
        }
    }
}

/// The powers of two a positive length's label lists are as many as its
/// popcount, and they sum to the length.
pub proof fn law_label_powers_match_popcount(v: i64)
    requires
        v > 0,
    ensures
        powers_from(v as nat, 0, 64).len() == bit_count(clamp_nonneg(v as int)),
        powers_sum(powers_from(v as nat, 0, 64)) == v,
{
    lemma_two_pow_64();
    lemma_powers_from(v as nat, 0, 64);
}

} // verus!

verus! {

proof fn lemma_bit_count_disjoint(a: u64, b: u64)
    requires
        a & b == 0,
    ensures
        bit_count((a | b) as nat) == bit_count(a as nat) + bit_count(b as nat),
    decreases a as nat + b as nat,
{
    if a == 0 && b == 0 {
        assert((0u64 | 0u64) == 0) by (bit_vector);
    } else {
        assert((a | b) as nat % 2 == a as nat % 2 + b as nat % 2) by (bit_vector)
            requires
                a & b == 0,
        ;
        assert(((a | b) / 2) == ((a / 2) | (b / 2))) by (bit_vector);
        assert((a / 2) & (b / 2) == 0) by (bit_vector)
            requires
                a & b == 0,
        ;
        assert((a | b) != 0) by (bit_vector)
            requires
                !(a == 0 && b == 0),
        ;
        lemma_bit_count_disjoint(a / 2, b / 2);
    }
}

proof fn lemma_bit_count_positive(n: nat)
    requires
        n > 0,
    ensures
        bit_count(n) >= 1,
    decreases n,
{
    if n % 2 == 0 {
        lemma_bit_count_positive(n / 2);
    }
}

/// Popcounts of lengths with no bit in common add up, and a positive length
/// is the sum of between 1 and 63 powers of two.
pub proof fn law_popcount_adds_over_disjoint_bits(a: i64, b: i64)
    requires
        a >= 0,
        b >= 0,
        a & b == 0,
    ensures
        a | b >= 0,
        bit_count(clamp_nonneg((a | b) as int)) == bit_count(clamp_nonneg(a as int)) + bit_count(
            clamp_nonneg(b as int),
        ),
        a > 0 ==> 1 <= bit_count(clamp_nonneg(a as int)) <= 63,
{
    assert(((a as u64) & (b as u64)) == 0 && ((a | b) as u64) == ((a as u64) | (b as u64)) && a | b >= 0)
        by (bit_vector)
        requires
            a >= 0,
            b >= 0,
            a & b == 0,
    ;
    lemma_bit_count_disjoint(a as u64, b as u64);
    if a > 0 {
        lemma_bit_count_positive(a as nat);
        lemma_two_pow_64();
        lemma_bit_count_bound(a as nat, 63);
    }
}

} // verus!
