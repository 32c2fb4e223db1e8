//! The ALU on integers and the ALU built from logic chips are one machine:
//! under the convention that bit 0 of an integer is signal 0 of a word,
//! they compute the same output and raise the same flags.

use crate::chip::arithmetic::alu_out;
use crate::computer::chip::arithmetic::{alu_controlled_out, wrap16};
use crate::word::{
    bits_value, lemma_bits_value_bound, lemma_bits_value_digit, lemma_bits_value_injective,
    lemma_word_of_value, lemma_word_zero, word_add, word_and, word_not, word_of, word_zero,
};
use vstd::arithmetic::power2::{lemma2_to64, pow2};
use vstd::bits::lemma_u16_shr_is_div;
use vstd::prelude::*;

verus! {

/// Signal `i` of the word that spells `x` is bit `i` of `x`.
pub proof fn lemma_word_signal(x: u16, i: int)
    requires
        0 <= i < 16,
    ensures
        word_of(x as nat)[i] == ((x >> (i as u16)) & 1 == 1),
{
    let k = i as u16;
    lemma_u16_shr_is_div(x, k);
    let shifted = x >> k;
    assert((shifted & 1 == 1) == (shifted % 2 == 1)) by (bit_vector);
}

/// Complementing every signal of a word complements the integer it spells.
pub proof fn lemma_word_not(x: u16)
    ensures
        word_not(word_of(x as nat)) == word_of((!x) as nat),
{
    assert forall|i: int| 0 <= i < 16 implies word_not(word_of(x as nat))[i] == word_of(
        (!x) as nat,
    )[i] by {
        let k = i as u16;
        lemma_word_signal(x, i);
        lemma_word_signal(!x, i);
        assert((((!x) >> k) & 1 == 1) == !((x >> k) & 1 == 1)) by (bit_vector)
            requires
                k < 16,
        ;
    }
    assert(word_not(word_of(x as nat)) =~= word_of((!x) as nat));
}

/// And-ing two words signal by signal ands the integers they spell.
pub proof fn lemma_word_and(x: u16, y: u16)
    ensures
        word_and(word_of(x as nat), word_of(y as nat)) == word_of((x & y) as nat),
{
    assert forall|i: int| 0 <= i < 16 implies word_and(word_of(x as nat), word_of(y as nat))[i]
        == word_of((x & y) as nat)[i] by {
        let k = i as u16;
        lemma_word_signal(x, i);
        lemma_word_signal(y, i);
        lemma_word_signal(x & y, i);
        assert((((x & y) >> k) & 1 == 1) == (((x >> k) & 1 == 1) && ((y >> k) & 1 == 1)))
            by (bit_vector)
            requires
                k < 16,
        ;
    }
    assert(word_and(word_of(x as nat), word_of(y as nat)) =~= word_of((x & y) as nat));
}

/// Adding two words adds the integers they spell, modulo 65536.
pub proof fn lemma_word_add(x: u16, y: u16)
    ensures
        word_add(word_of(x as nat), word_of(y as nat)) == word_of(wrap16(x + y) as nat),
{
    let sum = (x + y) as nat;
    lemma_word_of_value(x as nat);
    lemma_word_of_value(y as nat);
    lemma_word_of_value(sum);
    lemma_word_of_value(wrap16(x + y) as nat);
    lemma_bits_value_injective(word_of(sum), word_of(wrap16(x + y) as nat));
}

/// The ALU chip, given the words that spell `x` and `y`, puts out the word
/// that spells what the ALU on integers computes from `x` and `y` under
/// the same control lines.
pub proof fn law_alu_agreement(
    x: u16,
    y: u16,
    zx: bool,
    nx: bool,
    zy: bool,
    ny: bool,
    f: bool,
    no: bool,
)
    ensures
        alu_out(word_of(x as nat), word_of(y as nat), zx, nx, zy, ny, f, no) == word_of(
            alu_controlled_out(x, y, zx, nx, zy, ny, f, no) as nat,
        ),
{
    lemma_word_zero();
    let x0 = if zx {
        0u16
    } else {
        x
    };
    let y0 = if zy {
        0u16
    } else {
        y
    };
    lemma_word_not(x0);
    lemma_word_not(y0);
    let x1 = if nx {
        !x0
    } else {
        x0
    };
    let y1 = if ny {
        !y0
    } else {
        y0
    };
    lemma_word_add(x1, y1);
    lemma_word_and(x1, y1);
    let raw = if f {
        wrap16(x1 + y1)
    } else {
        x1 & y1
    };
    lemma_word_not(raw);
}

/// The flags of the two ALUs agree: every signal of a word is low exactly
/// when the word spells 0, and the top signal is high exactly when the
/// word spells 32768 or more, a negative number in two's complement.
pub proof fn law_flag_agreement(word: Seq<bool>)
    requires
        word.len() == 16,
    ensures
        (forall|i: int| 0 <= i < 16 ==> !word[i]) <==> bits_value(word) == 0,
        word[15] <==> bits_value(word) >= 0x8000,
{
    lemma2_to64();
    lemma_word_zero();
    lemma_bits_value_bound(word);
    lemma_bits_value_digit(word, 15);
    let value = bits_value(word);
    assert(pow2(15) == 0x8000 && pow2(16) == 0x10000);
    assert(value / pow2(15) == value / 0x8000);
    assert(value < 0x10000);
    assert(word[15] == ((value / 0x8000) % 2 == 1));
    assert(((value / 0x8000) % 2 == 1) == (value >= 0x8000)) by (nonlinear_arith)
        requires
            value < 0x10000,
    ;
    if forall|i: int| 0 <= i < 16 ==> !word[i] {
        assert(word =~= word_zero());
    }
    if bits_value(word) == 0 {
        lemma_bits_value_injective(word, word_zero());
    }
}

} // verus!
