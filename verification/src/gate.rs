//! Primitive logic: the NAND gate and every boolean function derived from it.
//!
//! Nothing here uses a native boolean operator except `nand` itself, so the
//! structure of every derived gate can be traced back to a count of NANDs.

use crate::word::{bits_value, lemma_bits_value_small, word_and, word_mux, word_not, word_or};
use vstd::prelude::*;

verus! {

/// The candidate that a binary selector picks: candidate `N` for selector
/// value `N`, selector bit 0 least significant.
pub open spec fn selected(candidates: Seq<Seq<bool>>, sel: Seq<bool>) -> Seq<bool> {
    candidates[bits_value(sel) as int]
}

/// The fan-out of one signal over `ways` lines: line `N` carries `input`
/// when the selector reads `N`, and every other line is low.
pub open spec fn fanned_out(input: bool, sel: Seq<bool>, ways: nat) -> Seq<bool> {
    Seq::new(ways, |i: int| input && i == bits_value(sel))
}

/// The universal two-input gate.
pub fn nand(a: bool, b: bool) -> (out: bool)
    ensures
        out == !(a && b),
{
    !(a && b)
}

/// Inverter: a NAND with both inputs tied together.
pub fn not(a: bool) -> (out: bool)
    ensures
        out == !a,
{
    nand(a, a)
}

/// Conjunction: an inverted NAND.
pub fn and(a: bool, b: bool) -> (out: bool)
    ensures
        out == (a && b),
{
    not(nand(a, b))
}

/// Disjunction: a NAND of the two inverted inputs.
pub fn or(a: bool, b: bool) -> (out: bool)
    ensures
        out == (a || b),
{
    nand(nand(a, a), nand(b, b))
}

/// Exclusive or.
pub fn xor(a: bool, b: bool) -> (out: bool)
    ensures
        out == (a != b),
{
    or(and(not(a), b), and(a, not(b)))
}

/// Two-way selector: `a` when `sel` is low, `b` when it is high.
pub fn mux(a: bool, b: bool, sel: bool) -> (out: bool)
    ensures
        out == (if sel {
            b
        } else {
            a
        }),
{
    or(and(a, not(sel)), and(b, sel))
}

/// Two-way fan-out: `input` appears on the first line when `sel` is low and
/// on the second when it is high; the other line is low.
pub fn dmux(input: bool, sel: bool) -> (out: (bool, bool))
    ensures
        out.0 == (input && !sel),
        out.1 == (input && sel),
{
    (and(input, not(sel)), and(input, sel))
}

/// Complement of every signal of a word.
pub fn not_16(input: [bool; 16]) -> (out: [bool; 16])
    ensures
        out@ == word_not(input@),
{
    let mut out = [false; 16];
    let mut idx: usize = 0;
    while idx < 16
        invariant
            idx <= 16,
            forall|i: int| 0 <= i < idx ==> #[trigger] out[i] == !input[i],
        decreases 16 - idx,
    {
        out[idx] = not(input[idx]);
        idx += 1;
    }
    assert(out@ =~= word_not(input@));
    out
}

/// Conjunction of two words, position by position.
pub fn and_16(a: [bool; 16], b: [bool; 16]) -> (out: [bool; 16])
    ensures
        out@ == word_and(a@, b@),
{
    let mut out = [false; 16];
    let mut idx: usize = 0;
    while idx < 16
        invariant
            idx <= 16,
            forall|i: int| 0 <= i < idx ==> #[trigger] out[i] == (a[i] && b[i]),
        decreases 16 - idx,
    {
        out[idx] = and(a[idx], b[idx]);
        idx += 1;
    }
    assert(out@ =~= word_and(a@, b@));
    out
}

/// Disjunction of two words, position by position.
pub fn or_16(a: [bool; 16], b: [bool; 16]) -> (out: [bool; 16])
    ensures
        out@ == word_or(a@, b@),
{
    let mut out = [false; 16];
    let mut idx: usize = 0;
    while idx < 16
        invariant
            idx <= 16,
            forall|i: int| 0 <= i < idx ==> #[trigger] out[i] == (a[i] || b[i]),
        decreases 16 - idx,
    {
        out[idx] = or(a[idx], b[idx]);
        idx += 1;
    }
    assert(out@ =~= word_or(a@, b@));
    out
}

/// Two-way selector over whole words, one shared select line.
pub fn mux_16(a: [bool; 16], b: [bool; 16], sel: bool) -> (out: [bool; 16])
    ensures
        out@ == word_mux(a@, b@, sel),
{
    let mut out = [false; 16];
    let mut idx: usize = 0;
    while idx < 16
        invariant
            idx <= 16,
            forall|i: int|
                0 <= i < idx ==> #[trigger] out[i] == (if sel {
                    b[i]
                } else {
                    a[i]
                }),
        decreases 16 - idx,
    {
        out[idx] = mux(a[idx], b[idx], sel);
        idx += 1;
    }
    assert(out@ =~= word_mux(a@, b@, sel));
    out
}

/// OR-reduction of eight signals.
pub fn or_8_way(input: [bool; 8]) -> (out: bool)
    ensures
        out == (exists|i: int| 0 <= i < 8 && input[i]),
{
    let mut acc = false;
    let mut idx: usize = 0;
    while idx < 8
        invariant
            idx <= 8,
            acc == (exists|i: int| 0 <= i < idx && input[i]),
        decreases 8 - idx,
    {
        acc = or(input[idx], acc);
        idx += 1;
    }
    acc
}

/// Four-way word selector: selector value `N` picks the `N`-th of `a`, `b`,
/// `c`, `d`, with `sel[0]` the least significant selector bit.
pub fn mux_4_way_16(
    a: [bool; 16],
    b: [bool; 16],
    c: [bool; 16],
    d: [bool; 16],
    sel: [bool; 2],
) -> (out: [bool; 16])
    ensures
        out@ == selected(seq![a@, b@, c@, d@], sel@),
{
    proof {
        lemma_bits_value_small(sel@);
    }
    mux_16(mux_16(a, b, sel[0]), mux_16(c, d, sel[0]), sel[1])
}

/// Eight-way word selector: selector value `N` picks the `N`-th of
/// `a.0 .. a.3, b.0 .. b.3`, with `sel[0]` the least significant selector bit.
pub fn mux_8_way_16(
    a: ([bool; 16], [bool; 16], [bool; 16], [bool; 16]),
    b: ([bool; 16], [bool; 16], [bool; 16], [bool; 16]),
    sel: [bool; 3],
) -> (out: [bool; 16])
    ensures
        out@ == selected(seq![a.0@, a.1@, a.2@, a.3@, b.0@, b.1@, b.2@, b.3@], sel@),
{
    let low = [sel[0], sel[1]];
    proof {
        lemma_bits_value_small(sel@);
        lemma_bits_value_small(low@);
    }
    mux_16(
        mux_4_way_16(a.0, a.1, a.2, a.3, low),
        mux_4_way_16(b.0, b.1, b.2, b.3, low),
        sel[2],
    )
}

/// Four-way fan-out: the line that the selector names carries `input`, the
/// other three are low.
pub fn dmux_4_way(input: bool, sel: [bool; 2]) -> (out: [bool; 4])
    ensures
        out@ == fanned_out(input, sel@, 4),
{
    let (c0, c1) = dmux(input, sel[1]);
    let (a, b) = dmux(c0, sel[0]);
    let (c, d) = dmux(c1, sel[0]);
    let out = [a, b, c, d];
    proof {
        lemma_bits_value_small(sel@);
        assert(out@ =~= fanned_out(input, sel@, 4));
    }
    out
}

/// Eight-way fan-out: the line that the selector names carries `input`, the
/// other seven are low.
pub fn dmux_8_way(input: bool, sel: [bool; 3]) -> (out: [bool; 8])
    ensures
        out@ == fanned_out(input, sel@, 8),
{
    let low = [sel[0], sel[1]];
    let (c0, c1) = dmux(input, sel[2]);
    let lower = dmux_4_way(c0, low);
    let upper = dmux_4_way(c1, low);
    let out = [
        lower[0],
        lower[1],
        lower[2],
        lower[3],
        upper[0],
        upper[1],
        upper[2],
        upper[3],
    ];
    proof {
        lemma_bits_value_small(sel@);
        lemma_bits_value_small(low@);
        assert(out@ =~= fanned_out(input, sel@, 8));
    }
    out
}

} // verus!
