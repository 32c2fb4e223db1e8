//! The arithmetic unit: adders built from gates, and the ALU.

use crate::gate::{and, and_16, mux_16, not, not_16, or, or_8_way, xor};
use crate::word::{
    bit, bits_value, lemma_bits_value_bound, lemma_bits_value_injective, lemma_bits_value_push,
    lemma_word_of_value, word_add, word_and, word_mux, word_not, word_of, word_zero,
};
use vstd::arithmetic::power2::{lemma2_to64, lemma_pow2_unfold, pow2};
use vstd::prelude::*;

verus! {

/// What the ALU puts on its output bus: each operand is first optionally
/// zeroed and then optionally complemented, the two are added (modulo
/// 65536) or and-ed, and the result is optionally complemented.
pub open spec fn alu_out(
    x: Seq<bool>,
    y: Seq<bool>,
    zx: bool,
    nx: bool,
    zy: bool,
    ny: bool,
    f: bool,
    no: bool,
) -> Seq<bool> {
    let x0 = word_mux(x, word_zero(), zx);
    let y0 = word_mux(y, word_zero(), zy);
    let x1 = word_mux(x0, word_not(x0), nx);
    let y1 = word_mux(y0, word_not(y0), ny);
    let raw = if f {
        word_add(x1, y1)
    } else {
        word_and(x1, y1)
    };
    word_mux(raw, word_not(raw), no)
}

/// Adds two signals: the sum signal and the carry out.
pub fn half_adder(a: bool, b: bool) -> (out: (bool, bool))
    ensures
        out.0 == (a != b),
        out.1 == (a && b),
        bit(a) + bit(b) == bit(out.0) + 2 * bit(out.1),
{
    (xor(a, b), and(a, b))
}

/// Adds three signals, as two chained half adders whose carries are or-ed.
pub fn full_adder(a: bool, b: bool, c: bool) -> (out: (bool, bool))
    ensures
        out.0 == ((a != b) != c),
        out.1 == ((a && b) || ((a != b) && c)),
        bit(a) + bit(b) + bit(c) == bit(out.0) + 2 * bit(out.1),
{
    let (sum0, carry0) = half_adder(a, b);
    let (sum, carry1) = half_adder(sum0, c);
    (sum, or(carry0, carry1))
}

/// Ripple-carry addition of two words, modulo 65536: the carry out of the
/// top position is dropped.
pub fn add_16(a: [bool; 16], b: [bool; 16]) -> (out: [bool; 16])
    ensures
        bits_value(out@) == (bits_value(a@) + bits_value(b@)) % 0x10000,
        out@ == word_add(a@, b@),
{
    let mut carry = false;
    let mut out = [false; 16];
    let mut idx: usize = 0;
    proof {
        lemma2_to64();
        assert(bits_value(out@.take(0)) == 0);
        assert(bits_value(a@.take(0)) == 0);
        assert(bits_value(b@.take(0)) == 0);
    }
    while idx < 16
        invariant
            idx <= 16,
            bits_value(out@.take(idx as int)) + (if carry {
                pow2(idx as nat)
            } else {
                0
            }) == bits_value(a@.take(idx as int)) + bits_value(b@.take(idx as int)),
        decreases 16 - idx,
    {
        let ghost before = out@;
        let (sum, carry0) = full_adder(a[idx], b[idx], carry);
        out[idx] = sum;
        proof {
            let i = idx as int;
            assert(out@.take(i) =~= before.take(i));
            assert(out@.take(i + 1) =~= out@.take(i).push(sum));
            assert(a@.take(i + 1) =~= a@.take(i).push(a[i]));
            assert(b@.take(i + 1) =~= b@.take(i).push(b[i]));
            lemma_bits_value_push(out@.take(i), sum);
            lemma_bits_value_push(a@.take(i), a[i]);
            lemma_bits_value_push(b@.take(i), b[i]);
            lemma_pow2_unfold((i + 1) as nat);
        }
        carry = carry0;
        idx += 1;
    }
    proof {
        lemma2_to64();
        assert(out@.take(16) =~= out@);
        assert(a@.take(16) =~= a@);
        assert(b@.take(16) =~= b@);
        lemma_bits_value_bound(out@);
        let total = bits_value(a@) + bits_value(b@);
        lemma_word_of_value(total);
        lemma_bits_value_injective(out@, word_of(total));
    }
    out
}

/// Adds one to a word, modulo 65536, with a chain of half adders whose
/// first carry in is high.
pub fn inc_16(input: [bool; 16]) -> (out: [bool; 16])
    ensures
        bits_value(out@) == (bits_value(input@) + 1) % 0x10000,
        out@ == word_add(input@, word_of(1)),
{
    let mut carry = true;
    let mut out = [false; 16];
    let mut idx: usize = 0;
    proof {
        lemma2_to64();
        assert(bits_value(out@.take(0)) == 0);
        assert(bits_value(input@.take(0)) == 0);
    }
    while idx < 16
        invariant
            idx <= 16,
            bits_value(out@.take(idx as int)) + (if carry {
                pow2(idx as nat)
            } else {
                0
            }) == bits_value(input@.take(idx as int)) + 1,
        decreases 16 - idx,
    {
        let ghost before = out@;
        let (sum, carry0) = half_adder(input[idx], carry);
        out[idx] = sum;
        proof {
            let i = idx as int;
            assert(out@.take(i) =~= before.take(i));
            assert(out@.take(i + 1) =~= out@.take(i).push(sum));
            assert(input@.take(i + 1) =~= input@.take(i).push(input[i]));
            lemma_bits_value_push(out@.take(i), sum);
            lemma_bits_value_push(input@.take(i), input[i]);
            lemma_pow2_unfold((i + 1) as nat);
        }
        carry = carry0;
        idx += 1;
    }
    proof {
        lemma2_to64();
        assert(out@.take(16) =~= out@);
        assert(input@.take(16) =~= input@);
        lemma_bits_value_bound(out@);
        lemma_word_of_value(1);
        let total = bits_value(input@) + bits_value(word_of(1));
        lemma_word_of_value(total);
        lemma_bits_value_injective(out@, word_of(total));
    }
    out
}

/// The arithmetic-logic unit. Six control lines pick a function of `x` and
/// `y`; the result comes with a zero flag, high exactly when every signal
/// of the result is low, and a negative flag, which is the result's top
/// signal.
pub fn alu(
    x: [bool; 16],
    y: [bool; 16],
    zx: bool,
    nx: bool,
    zy: bool,
    ny: bool,
    f: bool,
    no: bool,
) -> (out: ([bool; 16], bool, bool))
    ensures
        out.0@ == alu_out(x@, y@, zx, nx, zy, ny, f, no),
        out.1 == (forall|i: int| 0 <= i < 16 ==> !out.0[i]),
        out.2 == out.0[15],
{
    let zero = [false; 16];
    assert(zero@ =~= word_zero());
    let x0 = mux_16(x, zero, zx);
    let y0 = mux_16(y, zero, zy);

    let not_x = not_16(x0);
    let x1 = mux_16(x0, not_x, nx);

    let not_y = not_16(y0);
    let y1 = mux_16(y0, not_y, ny);

    let add_x_y = add_16(x1, y1);
    let and_x_y = and_16(x1, y1);
    let out_0 = mux_16(and_x_y, add_x_y, f);
    let out_no = not_16(out_0);

    let out = mux_16(out_0, out_no, no);
    let mut low_half = [false; 8];
    let mut high_half = [false; 8];
    let mut idx: usize = 0;
    while idx < 8
        invariant
            idx <= 8,
            forall|i: int| 0 <= i < idx ==> #[trigger] low_half[i] == out[i],
            forall|i: int| 0 <= i < idx ==> #[trigger] high_half[i] == out[i + 8],
        decreases 8 - idx,
    {
        low_half[idx] = out[idx];
        high_half[idx] = out[idx + 8];
        idx += 1;
    }

    let zr_low = or_8_way(low_half);
    let zr_high = or_8_way(high_half);
    let zr = not(or(zr_low, zr_high));
    proof {
        if zr {
            assert forall|i: int| 0 <= i < 16 implies !out[i] by {
                if i < 8 {
                    assert(low_half[i] == out[i]);
                } else {
                    assert(high_half[i - 8] == out[i - 8 + 8]);
                }
            }
        } else {
            let i = if zr_low {
                choose|i: int| 0 <= i < 8 && low_half[i]
            } else {
                8 + choose|i: int| 0 <= i < 8 && high_half[i]
            };
            assert(out[i]);
        }
    }

    (out, zr, out[15])
}

} // verus!
