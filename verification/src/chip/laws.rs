//! Laws of the chips, stated over the functions that the chips' contracts
//! are written in.

use crate::chip::memory::{
    blank_memory, latch_next, pc_next, ram_next, ram_out, register_next,
};
use crate::word::{
    bits_value, lemma_bits_value_bound, lemma_bits_value_injective, lemma_bits_value_small,
    lemma_bits_value_split, lemma_word_of_one, word_add, word_of, word_zero,
};
use vstd::arithmetic::power2::{lemma2_to64, pow2};
use vstd::prelude::*;

verus! {

/// A latch after a run of cycles, each a pair of input and write line.
pub open spec fn latch_run(held: bool, cycles: Seq<(bool, bool)>) -> bool
    decreases cycles.len(),
{
    if cycles.len() == 0 {
        held
    } else {
        latch_next(latch_run(held, cycles.drop_last()), cycles.last().0, cycles.last().1)
    }
}

/// A register after a run of cycles, each a pair of input and write line.
pub open spec fn register_run(held: Seq<bool>, cycles: Seq<(Seq<bool>, bool)>) -> Seq<bool>
    decreases cycles.len(),
{
    if cycles.len() == 0 {
        held
    } else {
        register_next(register_run(held, cycles.drop_last()), cycles.last().0, cycles.last().1)
    }
}

/// A RAM after a run of cycles, each a triple of input, write line and address.
pub open spec fn ram_run(mem: Seq<Seq<bool>>, cycles: Seq<(Seq<bool>, bool, Seq<bool>)>) -> Seq<
    Seq<bool>,
>
    decreases cycles.len(),
{
    if cycles.len() == 0 {
        mem
    } else {
        ram_next(
            ram_run(mem, cycles.drop_last()),
            cycles.last().0,
            cycles.last().1,
            cycles.last().2,
        )
    }
}

/// A program counter after a run of cycles, each an input with its load,
/// increment and reset lines.
pub open spec fn pc_run(held: Seq<bool>, cycles: Seq<(Seq<bool>, bool, bool, bool)>) -> Seq<bool>
    decreases cycles.len(),
{
    if cycles.len() == 0 {
        held
    } else {
        pc_next(
            pc_run(held, cycles.drop_last()),
            cycles.last().0,
            cycles.last().1,
            cycles.last().2,
            cycles.last().3,
        )
    }
}

/// Incrementing a word is adding to it the word whose lowest signal alone
/// is high.
pub proof fn law_increment_is_add_one(a: Seq<bool>)
    ensures
        word_add(a, word_of(1)) == word_add(a, Seq::new(16, |i: int| i == 0)),
{
    lemma_word_of_one();
}

/// A latch returns what was just written to it, keeps it through a cycle
/// without write whatever the input, and a second write replaces it.
pub proof fn law_latch_round_trip(held: bool, v: bool, w: bool, idle1: bool, idle2: bool)
    ensures
        latch_next(held, v, true) == v,
        latch_next(latch_next(held, v, true), idle1, false) == v,
        latch_next(
            latch_next(latch_next(latch_next(held, v, true), idle1, false), w, true),
            idle2,
            false,
        ) == w,
{
}

/// A register returns the word that was just written to it, keeps it
/// through a cycle without write whatever the input, and a second write
/// replaces it.
pub proof fn law_register_round_trip(
    held: Seq<bool>,
    v: Seq<bool>,
    w: Seq<bool>,
    idle1: Seq<bool>,
    idle2: Seq<bool>,
)
    ensures
        register_next(held, v, true) == v,
        register_next(register_next(held, v, true), idle1, false) == v,
        register_next(
            register_next(register_next(register_next(held, v, true), idle1, false), w, true),
            idle2,
            false,
        ) == w,
{
}

/// Address isolation, for a RAM of any tier: after `v` is written at
/// address `x`, a read at `x` returns `v`, and a read at any other address
/// `y` of the same width returns what was there before the write.
pub proof fn law_ram_write_then_read(
    mem: Seq<Seq<bool>>,
    v: Seq<bool>,
    x: Seq<bool>,
    y: Seq<bool>,
    idle: Seq<bool>,
)
    requires
        mem.len() == pow2(x.len()),
        x.len() == y.len(),
    ensures
        ram_out(mem, v, true, x) == v,
        ram_out(ram_next(mem, v, true, x), idle, false, x) == v,
        x != y ==> ram_out(ram_next(mem, v, true, x), idle, false, y) == mem[bits_value(y) as int],
{
    lemma_bits_value_bound(x);
    lemma_bits_value_bound(y);
    if x != y && bits_value(x) == bits_value(y) {
        lemma_bits_value_injective(x, y);
    }
}

/// Address isolation from power-on: in a memory that has seen a single
/// write, at address `x`, a read at any other address returns the
/// all-false word.
pub proof fn law_ram_unwritten_reads_zero(
    v: Seq<bool>,
    x: Seq<bool>,
    y: Seq<bool>,
    idle: Seq<bool>,
)
    requires
        x.len() == y.len(),
        x != y,
    ensures
        ram_out(ram_next(blank_memory(pow2(x.len())), v, true, x), idle, false, y) == word_zero(),
{
    let mem = blank_memory(pow2(x.len()));
    lemma_bits_value_bound(y);
    law_ram_write_then_read(mem, v, x, y, idle);
}

/// In a 64-word memory, a write at an address whose bits 3 to 5 spell 1
/// (the second 8-word unit) changes nothing at any address whose bits 3 to
/// 5 spell 0 (the first unit).
pub proof fn law_ram64_units_are_disjoint(
    mem: Seq<Seq<bool>>,
    v: Seq<bool>,
    x: Seq<bool>,
    y: Seq<bool>,
)
    requires
        mem.len() == 64,
        x.len() == 6,
        y.len() == 6,
        x[3] && !x[4] && !x[5],
        !y[3] && !y[4] && !y[5],
    ensures
        8 <= bits_value(x) < 16,
        bits_value(y) < 8,
        ram_next(mem, v, true, x)[bits_value(y) as int] == mem[bits_value(y) as int],
{
    lemma2_to64();
    lemma_bits_value_split(x, 3);
    lemma_bits_value_split(y, 3);
    lemma_bits_value_bound(x.subrange(0, 3));
    lemma_bits_value_bound(y.subrange(0, 3));
    let x_unit = x.subrange(3, 6);
    let y_unit = y.subrange(3, 6);
    lemma_bits_value_small(x_unit);
    lemma_bits_value_small(y_unit);
    assert(x_unit[0] == x[3] && x_unit[1] == x[4] && x_unit[2] == x[5]);
    assert(y_unit[0] == y[3] && y_unit[1] == y[4] && y_unit[2] == y[5]);
    assert(pow2(3) * bits_value(x_unit) == 8) by (nonlinear_arith)
        requires
            pow2(3) == 8,
            bits_value(x_unit) == 1,
    ;
    assert(pow2(3) * bits_value(y_unit) == 0) by (nonlinear_arith)
        requires
            bits_value(y_unit) == 0,
    ;
}

/// Precedence in the program counter: with `load` high and `reset` low
/// the counter takes the input whether or not `inc` is high, and with
/// `reset` high it is cleared whatever the other lines say.
pub proof fn law_pc_precedence(held: Seq<bool>, input: Seq<bool>, load: bool, inc: bool)
    ensures
        pc_next(held, input, true, inc, false) == input,
        pc_next(held, input, load, inc, true) == word_zero(),
{
}

/// Any number of cycles with the write line low leave a latch as it was.
pub proof fn law_latch_hold(held: bool, cycles: Seq<(bool, bool)>)
    requires
        forall|i: int| 0 <= i < cycles.len() ==> !(#[trigger] cycles[i]).1,
    ensures
        latch_run(held, cycles) == held,
    decreases cycles.len(),
{
    if cycles.len() > 0 {
        law_latch_hold(held, cycles.drop_last());
    }
}

/// Any number of cycles with the write line low leave a register as it was.
pub proof fn law_register_hold(held: Seq<bool>, cycles: Seq<(Seq<bool>, bool)>)
    requires
        forall|i: int| 0 <= i < cycles.len() ==> !(#[trigger] cycles[i]).1,
    ensures
        register_run(held, cycles) == held,
    decreases cycles.len(),
{
    if cycles.len() > 0 {
        law_register_hold(held, cycles.drop_last());
    }
}

/// Any number of cycles with the write line low leave a RAM as it was, and
/// a further such cycle puts out the word that was at its address from the
/// start, whatever the inputs were.
pub proof fn law_ram_hold(
    mem: Seq<Seq<bool>>,
    cycles: Seq<(Seq<bool>, bool, Seq<bool>)>,
    input: Seq<bool>,
    address: Seq<bool>,
)
    requires
        forall|i: int| 0 <= i < cycles.len() ==> !(#[trigger] cycles[i]).1,
    ensures
        ram_run(mem, cycles) == mem,
        ram_out(ram_run(mem, cycles), input, false, address) == mem[bits_value(address) as int],
    decreases cycles.len(),
{
    if cycles.len() > 0 {
        law_ram_hold(mem, cycles.drop_last(), input, address);
    }
}

/// Any number of cycles with all three control lines low leave the program
/// counter as it was.
pub proof fn law_pc_hold(held: Seq<bool>, cycles: Seq<(Seq<bool>, bool, bool, bool)>)
    requires
        forall|i: int|
            0 <= i < cycles.len() ==> {
                let c = #[trigger] cycles[i];
                !c.1 && !c.2 && !c.3
            },
    ensures
        pc_run(held, cycles) == held,
    decreases cycles.len(),
{
    if cycles.len() > 0 {
        law_pc_hold(held, cycles.drop_last());
    }
}

} // verus!
