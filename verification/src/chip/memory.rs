//! Sequential chips: the latch, the register, the tiered RAM and the
//! program counter.
//!
//! Every chip is driven by one operation, `load`, called once per simulated
//! clock cycle. A read reflects a write made in the same cycle.

use crate::chip::arithmetic::add_16;
use crate::gate::{dmux, dmux_4_way, dmux_8_way, mux, mux_16, mux_4_way_16, mux_8_way_16, or};
use crate::word::{
    bits_value, lemma_bits_value_bound, lemma_bits_value_small, lemma_bits_value_split,
    lemma_word_of_one, word_add, word_of, word_zero,
};
use vstd::arithmetic::div_mod::{
    lemma_fundamental_div_mod, lemma_fundamental_div_mod_converse, lemma_mod_bound,
};
use vstd::arithmetic::power2::{lemma2_to64, lemma_pow2_pos, pow2};
use vstd::prelude::*;

verus! {

/// What a latch holds after one cycle.
pub open spec fn latch_next(held: bool, input: bool, load: bool) -> bool {
    if load {
        input
    } else {
        held
    }
}

/// What a register holds after one cycle.
pub open spec fn register_next(held: Seq<bool>, input: Seq<bool>, load: bool) -> Seq<bool> {
    if load {
        input
    } else {
        held
    }
}

/// A memory of `words` words of 16 signals each.
pub open spec fn is_memory(mem: Seq<Seq<bool>>, words: nat) -> bool {
    &&& mem.len() == words
    &&& forall|i: int| 0 <= i < words ==> (#[trigger] mem[i]).len() == 16
}

/// The memory of `words` words in which every signal is low.
pub open spec fn blank_memory(words: nat) -> Seq<Seq<bool>> {
    Seq::new(words, |i: int| word_zero())
}

/// What a RAM holds after one cycle: with `load` high, the word at the
/// location whose number the address bits spell (bit 0 least significant)
/// is replaced by `input`, and no other location changes.
pub open spec fn ram_next(
    mem: Seq<Seq<bool>>,
    input: Seq<bool>,
    load: bool,
    address: Seq<bool>,
) -> Seq<Seq<bool>> {
    if load {
        mem.update(bits_value(address) as int, input)
    } else {
        mem
    }
}

/// What a RAM puts out in one cycle: the word at the addressed location
/// after that cycle's write, if any.
pub open spec fn ram_out(
    mem: Seq<Seq<bool>>,
    input: Seq<bool>,
    load: bool,
    address: Seq<bool>,
) -> Seq<bool> {
    ram_next(mem, input, load, address)[bits_value(address) as int]
}

/// What the program counter holds after one cycle: reset overrides load,
/// load overrides increment, increment overrides hold.
pub open spec fn pc_next(
    held: Seq<bool>,
    input: Seq<bool>,
    load: bool,
    inc: bool,
    reset: bool,
) -> Seq<bool> {
    if reset {
        word_zero()
    } else if load {
        input
    } else if inc {
        word_add(held, word_of(1))
    } else {
        held
    }
}

/// The address space of a tier made of equal parts: part 0 holds the lowest
/// `size` locations, part 1 the next `size`, and so on.
pub open spec fn tiered(parts: Seq<Seq<Seq<bool>>>, size: nat) -> Seq<Seq<bool>> {
    Seq::new(parts.len() * size, |k: int| parts[k / (size as int)][k % (size as int)])
}

/// A location of a tier is one location of one of its parts: the quotient
/// of the location number by the part size names the part, the remainder
/// the place within it.
proof fn lemma_tier_place(k: int, fan: int, size: int)
    requires
        0 < size,
        0 <= k < fan * size,
    ensures
        0 <= k / size < fan,
        0 <= k % size < size,
        k == size * (k / size) + k % size,
{
    lemma_fundamental_div_mod(k, size);
    lemma_mod_bound(k, size);
    let q = k / size;
    assert(0 <= q < fan) by (nonlinear_arith)
        requires
            0 < size,
            0 <= k < fan * size,
            k == size * q + k % size,
            0 <= k % size < size,
    ;
}

/// One cycle of a tier, from one cycle of each part. The low address bits
/// are forwarded unchanged to every part and the high bits choose the one
/// part whose write line follows `load`; the tier then behaves as one flat
/// memory addressed by all the bits together.
proof fn lemma_tier_load(
    before: Seq<Seq<Seq<bool>>>,
    after: Seq<Seq<Seq<bool>>>,
    size: nat,
    input: Seq<bool>,
    load: bool,
    lo: Seq<bool>,
    hi: Seq<bool>,
    address: Seq<bool>,
)
    requires
        address == lo + hi,
        size == pow2(lo.len()),
        before.len() == pow2(hi.len()),
        after.len() == before.len(),
        forall|j: int| 0 <= j < before.len() ==> (#[trigger] before[j]).len() == size,
        forall|j: int|
            0 <= j < before.len() ==> #[trigger] after[j] == ram_next(
                before[j],
                input,
                load && j == bits_value(hi),
                lo,
            ),
    ensures
        bits_value(address) == bits_value(lo) + size * bits_value(hi),
        bits_value(lo) < size,
        bits_value(hi) < before.len(),
        bits_value(address) < before.len() * size,
        tiered(after, size) == ram_next(tiered(before, size), input, load, address),
        tiered(after, size)[bits_value(address) as int] == after[bits_value(hi) as int][bits_value(
            lo,
        ) as int],
{
    let fan = before.len() as int;
    let sz = size as int;
    let v_lo = bits_value(lo) as int;
    let v_hi = bits_value(hi) as int;
    let v = bits_value(address) as int;
    lemma_pow2_pos(lo.len());
    lemma_bits_value_bound(lo);
    lemma_bits_value_bound(hi);
    lemma_bits_value_split(address, lo.len() as int);
    assert(address.subrange(0, lo.len() as int) =~= lo);
    assert(address.subrange(lo.len() as int, address.len() as int) =~= hi);
    assert(v == v_lo + sz * v_hi);
    assert(0 <= v < fan * sz) by (nonlinear_arith)
        requires
            v == v_lo + sz * v_hi,
            0 <= v_lo < sz,
            0 <= v_hi < fan,
    ;
    assert(v_hi * sz + v_lo == v) by (nonlinear_arith)
        requires
            v == v_lo + sz * v_hi,
    ;
    lemma_fundamental_div_mod_converse(v, sz, v_hi, v_lo);
    let flat_before = tiered(before, size);
    let flat_after = tiered(after, size);
    let expected = ram_next(flat_before, input, load, address);
    assert(flat_after.len() == expected.len());
    assert forall|k: int| 0 <= k < flat_after.len() implies flat_after[k] == expected[k] by {
        lemma_tier_place(k, fan, sz);
        let j = k / sz;
        let r = k % sz;
        assert(after[j] == ram_next(before[j], input, load && j == v_hi, lo));
        assert(before[j].len() == size);
        if k == v {
            assert(j == v_hi && r == v_lo);
        } else {
            assert(!(j == v_hi && r == v_lo));
        }
    }
    assert(flat_after =~= expected);
}

/// The minimal stateful element: holds one signal across cycles.
#[derive(Clone, Copy)]
pub struct Bit {
    dff: bool,
}

impl View for Bit {
    type V = bool;

    closed spec fn view(&self) -> bool {
        self.dff
    }
}

impl Bit {
    /// A latch that holds a low signal.
    pub fn new() -> (bit: Self)
        ensures
            bit@ == false,
    {
        Bit { dff: false }
    }

    /// One cycle: with `load` high the latch takes `input`; either way the
    /// value held at the end of the cycle is returned.
    pub fn load(&mut self, input: bool, load: bool) -> (out: bool)
        ensures
            final(self)@ == latch_next(old(self)@, input, load),
            out == final(self)@,
    {
        let mout = mux(self.dff, input, load);
        self.dff = mout;
        self.dff
    }
}

/// Sixteen latches, one for each position of a word.
#[derive(Clone, Copy)]
pub struct Register {
    bits: [Bit; 16],
}

impl View for Register {
    type V = Seq<bool>;

    closed spec fn view(&self) -> Seq<bool> {
        Seq::new(16, |i: int| self.bits[i]@)
    }
}

impl Register {
    /// The held word always has sixteen signals.
    pub proof fn lemma_shape(&self)
        ensures
            self@.len() == 16,
    {
    }

    /// A register that holds the all-false word.
    pub fn new() -> (register: Self)
        ensures
            register@ == word_zero(),
    {
        let register = Register { bits: [Bit::new(); 16] };
        assert(register@ =~= word_zero());
        register
    }

    /// One cycle: with `load` high every latch takes its position of
    /// `input`; either way the word held at the end of the cycle is returned.
    pub fn load(&mut self, input: [bool; 16], load: bool) -> (out: [bool; 16])
        ensures
            final(self)@ == register_next(old(self)@, input@, load),
            out@ == final(self)@,
    {
        let mut out = [false; 16];
        let mut idx: usize = 0;
        while idx < 16
            invariant
                idx <= 16,
                forall|i: int|
                    0 <= i < idx ==> (#[trigger] self.bits[i])@ == latch_next(
                        old(self).bits[i]@,
                        input[i],
                        load,
                    ),
                forall|i: int| 0 <= i < idx ==> #[trigger] out[i] == self.bits[i]@,
                forall|i: int| idx <= i < 16 ==> #[trigger] self.bits[i] == old(self).bits[i],
            decreases 16 - idx,
        {
            out[idx] = self.bits[idx].load(input[idx], load);
            idx += 1;
        }
        assert(self@ =~= register_next(old(self)@, input@, load));
        assert(out@ =~= self@);
        out
    }
}

/// Eight registers behind a three-bit address.
#[derive(Clone, Copy)]
pub struct Ram8 {
    registers: [Register; 8],
}

impl View for Ram8 {
    type V = Seq<Seq<bool>>;

    closed spec fn view(&self) -> Seq<Seq<bool>> {
        Seq::new(8, |i: int| self.registers[i]@)
    }
}

impl Ram8 {
    /// The view is always a memory of eight words.
    pub proof fn lemma_shape(&self)
        ensures
            is_memory(self@, 8),
    {
        assert forall|i: int| 0 <= i < 8 implies (#[trigger] self@[i]).len() == 16 by {
            self.registers[i].lemma_shape();
        }
    }

    /// A memory in which every signal is low.
    pub fn new() -> (ram: Self)
        ensures
            ram@ == blank_memory(8),
    {
        let ram = Ram8 { registers: [Register::new(); 8] };
        assert(ram@ =~= blank_memory(8));
        ram
    }

    /// One cycle: with `load` high the addressed register takes `input`;
    /// either way the word held there at the end of the cycle is returned.
    pub fn load(&mut self, input: [bool; 16], load: bool, address: [bool; 3]) -> (out: [bool; 16])
        ensures
            final(self)@ == ram_next(old(self)@, input@, load, address@),
            out@ == ram_out(old(self)@, input@, load, address@),
    {
        let loads = dmux_8_way(load, address);
        let mut outs = [[false; 16]; 8];
        let mut idx: usize = 0;
        while idx < 8
            invariant
                idx <= 8,
                forall|j: int|
                    0 <= j < idx ==> (#[trigger] self.registers[j])@ == register_next(
                        old(self).registers[j]@,
                        input@,
                        loads[j],
                    ),
                forall|j: int| 0 <= j < idx ==> (#[trigger] outs[j])@ == self.registers[j]@,
                forall|j: int|
                    idx <= j < 8 ==> #[trigger] self.registers[j] == old(self).registers[j],
            decreases 8 - idx,
        {
            outs[idx] = self.registers[idx].load(input, loads[idx]);
            idx += 1;
        }
        proof {
            lemma2_to64();
            lemma_bits_value_bound(address@);
            assert(self@ =~= ram_next(old(self)@, input@, load, address@));
        }
        mux_8_way_16(
            (outs[0], outs[1], outs[2], outs[3]),
            (outs[4], outs[5], outs[6], outs[7]),
            address,
        )
    }
}

/// Eight 8-word units behind a six-bit address: the low three bits go to
/// every unit, the high three choose among the units.
#[derive(Clone, Copy)]
pub struct Ram64 {
    ram8: [Ram8; 8],
}

impl Ram64 {
    spec fn parts(&self) -> Seq<Seq<Seq<bool>>> {
        Seq::new(8, |j: int| self.ram8[j]@)
    }
}

impl View for Ram64 {
    type V = Seq<Seq<bool>>;

    closed spec fn view(&self) -> Seq<Seq<bool>> {
        tiered(self.parts(), 8)
    }
}

impl Ram64 {
    /// The view is always a memory of 64 words.
    pub proof fn lemma_shape(&self)
        ensures
            is_memory(self@, 64),
    {
        assert forall|k: int| 0 <= k < 64 implies (#[trigger] self@[k]).len() == 16 by {
            self.ram8[k / 8].lemma_shape();
        }
    }

    /// A memory in which every signal is low.
    pub fn new() -> (ram: Self)
        ensures
            ram@ == blank_memory(64),
    {
        let ram = Ram64 { ram8: [Ram8::new(); 8] };
        assert(ram@ =~= blank_memory(64));
        ram
    }

    /// One cycle: with `load` high the addressed location takes `input`;
    /// either way the word held there at the end of the cycle is returned.
    pub fn load(&mut self, input: [bool; 16], load: bool, address: [bool; 6]) -> (out: [bool; 16])
        ensures
            final(self)@ == ram_next(old(self)@, input@, load, address@),
            out@ == ram_out(old(self)@, input@, load, address@),
    {
        let first_split = [address[0], address[1], address[2]];
        let last_split = [address[3], address[4], address[5]];
        let loads = dmux_8_way(load, last_split);
        let mut outs = [[false; 16]; 8];
        let mut idx: usize = 0;
        while idx < 8
            invariant
                idx <= 8,
                forall|j: int|
                    0 <= j < idx ==> (#[trigger] self.ram8[j])@ == ram_next(
                        old(self).ram8[j]@,
                        input@,
                        loads[j],
                        first_split@,
                    ),
                forall|j: int|
                    0 <= j < idx ==> (#[trigger] outs[j])@ == self.ram8[j]@[bits_value(
                        first_split@,
                    ) as int],
                forall|j: int| idx <= j < 8 ==> #[trigger] self.ram8[j] == old(self).ram8[j],
            decreases 8 - idx,
        {
            outs[idx] = self.ram8[idx].load(input, loads[idx], first_split);
            idx += 1;
        }
        proof {
            lemma2_to64();
            assert(address@ =~= first_split@ + last_split@);
            assert forall|j: int| 0 <= j < 8 implies (#[trigger] old(self).parts()[j]).len()
                == 8 by {
                old(self).ram8[j].lemma_shape();
            }
            lemma_tier_load(
                old(self).parts(),
                self.parts(),
                8,
                input@,
                load,
                first_split@,
                last_split@,
                address@,
            );
        }
        mux_8_way_16(
            (outs[0], outs[1], outs[2], outs[3]),
            (outs[4], outs[5], outs[6], outs[7]),
            last_split,
        )
    }
}

/// Eight 64-word units behind a nine-bit address: the low six bits go to
/// every unit, the high three choose among the units.
#[derive(Clone, Copy)]
pub struct Ram512 {
    ram64: [Ram64; 8],
}

impl Ram512 {
    spec fn parts(&self) -> Seq<Seq<Seq<bool>>> {
        Seq::new(8, |j: int| self.ram64[j]@)
    }
}

impl View for Ram512 {
    type V = Seq<Seq<bool>>;

    closed spec fn view(&self) -> Seq<Seq<bool>> {
        tiered(self.parts(), 64)
    }
}

impl Ram512 {
    /// The view is always a memory of 512 words.
    pub proof fn lemma_shape(&self)
        ensures
            is_memory(self@, 512),
    {
        assert forall|k: int| 0 <= k < 512 implies (#[trigger] self@[k]).len() == 16 by {
            self.ram64[k / 64].lemma_shape();
        }
    }

    /// A memory in which every signal is low.
    pub fn new() -> (ram: Self)
        ensures
            ram@ == blank_memory(512),
    {
        let ram = Ram512 { ram64: [Ram64::new(); 8] };
        assert(ram@ =~= blank_memory(512));
        ram
    }

    /// One cycle: with `load` high the addressed location takes `input`;
    /// either way the word held there at the end of the cycle is returned.
    pub fn load(
        &mut self,
        input: [bool; 16],
        load: bool,
        address: [bool; 9],
    ) -> (out: [bool; 16])
        ensures
            final(self)@ == ram_next(old(self)@, input@, load, address@),
            out@ == ram_out(old(self)@, input@, load, address@),
    {
        let ram64_address = [
            address[0], address[1], address[2], address[3], address[4], address[5],
        ];
        let ram64_select = [address[6], address[7], address[8]];
        let load_signals = dmux_8_way(load, ram64_select);
        let mut outputs = [[false; 16]; 8];
        let mut idx: usize = 0;
        while idx < 8
            invariant
                idx <= 8,
                forall|j: int|
                    0 <= j < idx ==> (#[trigger] self.ram64[j])@ == ram_next(
                        old(self).ram64[j]@,
                        input@,
                        load_signals[j],
                        ram64_address@,
                    ),
                forall|j: int|
                    0 <= j < idx ==> (#[trigger] outputs[j])@ == self.ram64[j]@[bits_value(
                        ram64_address@,
                    ) as int],
                forall|j: int| idx <= j < 8 ==> #[trigger] self.ram64[j] == old(self).ram64[j],
            decreases 8 - idx,
        {
            outputs[idx] = self.ram64[idx].load(input, load_signals[idx], ram64_address);
            idx += 1;
        }
        proof {
            lemma2_to64();
            assert(address@ =~= ram64_address@ + ram64_select@);
            assert forall|j: int| 0 <= j < 8 implies (#[trigger] old(self).parts()[j]).len()
                == 64 by {
                old(self).ram64[j].lemma_shape();
            }
            lemma_tier_load(
                old(self).parts(),
                self.parts(),
                64,
                input@,
                load,
                ram64_address@,
                ram64_select@,
                address@,
            );
        }
        mux_8_way_16(
            (outputs[0], outputs[1], outputs[2], outputs[3]),
            (outputs[4], outputs[5], outputs[6], outputs[7]),
            ram64_select,
        )
    }
}

/// Eight 512-word units behind a twelve-bit address: the low nine bits go
/// to every unit, the high three choose among the units.
#[derive(Clone, Copy)]
pub struct Ram4K {
    ram512: [Ram512; 8],
}

impl Ram4K {
    spec fn parts(&self) -> Seq<Seq<Seq<bool>>> {
        Seq::new(8, |j: int| self.ram512[j]@)
    }
}

impl View for Ram4K {
    type V = Seq<Seq<bool>>;

    closed spec fn view(&self) -> Seq<Seq<bool>> {
        tiered(self.parts(), 512)
    }
}

impl Ram4K {
    /// The view is always a memory of 4096 words.
    pub proof fn lemma_shape(&self)
        ensures
            is_memory(self@, 4096),
    {
        assert forall|k: int| 0 <= k < 4096 implies (#[trigger] self@[k]).len() == 16 by {
            self.ram512[k / 512].lemma_shape();
        }
    }

    /// A memory in which every signal is low.
    pub fn new() -> (ram: Self)
        ensures
            ram@ == blank_memory(4096),
    {
        let ram = Ram4K { ram512: [Ram512::new(); 8] };
        assert(ram@ =~= blank_memory(4096));
        ram
    }

    /// One cycle: with `load` high the addressed location takes `input`;
    /// either way the word held there at the end of the cycle is returned.
    pub fn load(
        &mut self,
        input: [bool; 16],
        load: bool,
        address: [bool; 12],
    ) -> (out: [bool; 16])
        ensures
            final(self)@ == ram_next(old(self)@, input@, load, address@),
            out@ == ram_out(old(self)@, input@, load, address@),
    {
        let ram512_address = [
            address[0], address[1], address[2], address[3], address[4], address[5], address[6],
            address[7], address[8],
        ];
        let ram512_select = [address[9], address[10], address[11]];
        let load_signals = dmux_8_way(load, ram512_select);
        let mut outputs = [[false; 16]; 8];
        let mut idx: usize = 0;
        while idx < 8
            invariant
                idx <= 8,
                forall|j: int|
                    0 <= j < idx ==> (#[trigger] self.ram512[j])@ == ram_next(
                        old(self).ram512[j]@,
                        input@,
                        load_signals[j],
                        ram512_address@,
                    ),
                forall|j: int|
                    0 <= j < idx ==> (#[trigger] outputs[j])@ == self.ram512[j]@[bits_value(
                        ram512_address@,
                    ) as int],
                forall|j: int| idx <= j < 8 ==> #[trigger] self.ram512[j] == old(self).ram512[j],
            decreases 8 - idx,
        {
            outputs[idx] = self.ram512[idx].load(input, load_signals[idx], ram512_address);
            idx += 1;
        }
        proof {
            lemma2_to64();
            assert(address@ =~= ram512_address@ + ram512_select@);
            assert forall|j: int| 0 <= j < 8 implies (#[trigger] old(self).parts()[j]).len()
                == 512 by {
                old(self).ram512[j].lemma_shape();
            }
            lemma_tier_load(
                old(self).parts(),
                self.parts(),
                512,
                input@,
                load,
                ram512_address@,
                ram512_select@,
                address@,
            );
        }
        mux_8_way_16(
            (outputs[0], outputs[1], outputs[2], outputs[3]),
            (outputs[4], outputs[5], outputs[6], outputs[7]),
            ram512_select,
        )
    }
}

/// Two 4096-word units behind a thirteen-bit address: the low twelve bits
/// go to both units, the top bit chooses between them.
#[derive(Clone, Copy)]
pub struct Ram8K {
    ram4k: [Ram4K; 2],
}

impl Ram8K {
    spec fn parts(&self) -> Seq<Seq<Seq<bool>>> {
        Seq::new(2, |j: int| self.ram4k[j]@)
    }
}

impl View for Ram8K {
    type V = Seq<Seq<bool>>;

    closed spec fn view(&self) -> Seq<Seq<bool>> {
        tiered(self.parts(), 4096)
    }
}

impl Ram8K {
    /// The view is always a memory of 8192 words.
    pub proof fn lemma_shape(&self)
        ensures
            is_memory(self@, 8192),
    {
        assert forall|k: int| 0 <= k < 8192 implies (#[trigger] self@[k]).len() == 16 by {
            self.ram4k[k / 4096].lemma_shape();
        }
    }

    /// A memory in which every signal is low.
    pub fn new() -> (ram: Self)
        ensures
            ram@ == blank_memory(8192),
    {
        let ram = Ram8K { ram4k: [Ram4K::new(); 2] };
        assert(ram@ =~= blank_memory(8192));
        ram
    }

    /// One cycle: with `load` high the addressed location takes `input`;
    /// either way the word held there at the end of the cycle is returned.
    pub fn load(
        &mut self,
        input: [bool; 16],
        load: bool,
        address: [bool; 13],
    ) -> (out: [bool; 16])
        ensures
            final(self)@ == ram_next(old(self)@, input@, load, address@),
            out@ == ram_out(old(self)@, input@, load, address@),
    {
        let ram4k_address = [
            address[0], address[1], address[2], address[3], address[4], address[5], address[6],
            address[7], address[8], address[9], address[10], address[11],
        ];
        let ram4k_select = address[12];
        let (load_low, load_high) = dmux(load, ram4k_select);
        let out_low = self.ram4k[0].load(input, load_low, ram4k_address);
        let out_high = self.ram4k[1].load(input, load_high, ram4k_address);
        proof {
            let select = seq![ram4k_select];
            lemma2_to64();
            lemma_bits_value_small(select);
            assert(address@ =~= ram4k_address@ + select);
            assert forall|j: int| 0 <= j < 2 implies (#[trigger] old(self).parts()[j]).len()
                == 4096 by {
                old(self).ram4k[j].lemma_shape();
            }
            lemma_tier_load(
                old(self).parts(),
                self.parts(),
                4096,
                input@,
                load,
                ram4k_address@,
                select,
                address@,
            );
        }
        mux_16(out_low, out_high, ram4k_select)
    }
}

/// Four 4096-word units behind a fourteen-bit address: the low twelve bits
/// go to every unit, the high two choose among the units.
#[derive(Clone, Copy)]
pub struct Ram16K {
    ram4k: [Ram4K; 4],
}

impl Ram16K {
    spec fn parts(&self) -> Seq<Seq<Seq<bool>>> {
        Seq::new(4, |j: int| self.ram4k[j]@)
    }
}

impl View for Ram16K {
    type V = Seq<Seq<bool>>;

    closed spec fn view(&self) -> Seq<Seq<bool>> {
        tiered(self.parts(), 4096)
    }
}

impl Ram16K {
    /// The view is always a memory of 16384 words.
    pub proof fn lemma_shape(&self)
        ensures
            is_memory(self@, 16384),
    {
        assert forall|k: int| 0 <= k < 16384 implies (#[trigger] self@[k]).len() == 16 by {
            self.ram4k[k / 4096].lemma_shape();
        }
    }

    /// A memory in which every signal is low.
    pub fn new() -> (ram: Self)
        ensures
            ram@ == blank_memory(16384),
    {
        let ram = Ram16K { ram4k: [Ram4K::new(); 4] };
        assert(ram@ =~= blank_memory(16384));
        ram
    }

    /// One cycle: with `load` high the addressed location takes `input`;
    /// either way the word held there at the end of the cycle is returned.
    pub fn load(
        &mut self,
        input: [bool; 16],
        load: bool,
        address: [bool; 14],
    ) -> (out: [bool; 16])
        ensures
            final(self)@ == ram_next(old(self)@, input@, load, address@),
            out@ == ram_out(old(self)@, input@, load, address@),
    {
        let ram4k_address = [
            address[0], address[1], address[2], address[3], address[4], address[5], address[6],
            address[7], address[8], address[9], address[10], address[11],
        ];
        let ram4k_select = [address[12], address[13]];
        let load_signals = dmux_4_way(load, ram4k_select);
        let mut outputs = [[false; 16]; 4];
        let mut idx: usize = 0;
        while idx < 4
            invariant
                idx <= 4,
                forall|j: int|
                    0 <= j < idx ==> (#[trigger] self.ram4k[j])@ == ram_next(
                        old(self).ram4k[j]@,
                        input@,
                        load_signals[j],
                        ram4k_address@,
                    ),
                forall|j: int|
                    0 <= j < idx ==> (#[trigger] outputs[j])@ == self.ram4k[j]@[bits_value(
                        ram4k_address@,
                    ) as int],
                forall|j: int| idx <= j < 4 ==> #[trigger] self.ram4k[j] == old(self).ram4k[j],
            decreases 4 - idx,
        {
            outputs[idx] = self.ram4k[idx].load(input, load_signals[idx], ram4k_address);
            idx += 1;
        }
        proof {
            lemma2_to64();
            assert(address@ =~= ram4k_address@ + ram4k_select@);
            assert forall|j: int| 0 <= j < 4 implies (#[trigger] old(self).parts()[j]).len()
                == 4096 by {
                old(self).ram4k[j].lemma_shape();
            }
            lemma_tier_load(
                old(self).parts(),
                self.parts(),
                4096,
                input@,
                load,
                ram4k_address@,
                ram4k_select@,
                address@,
            );
        }
        mux_4_way_16(outputs[0], outputs[1], outputs[2], outputs[3], ram4k_select)
    }
}

/// The program counter: one register, an adder, and three nested selectors
/// that arbitrate between reset, load, increment and hold.
#[derive(Clone, Copy)]
pub struct PC {
    register: Register,
}

impl View for PC {
    type V = Seq<bool>;

    closed spec fn view(&self) -> Seq<bool> {
        self.register@
    }
}

impl PC {
    /// The held word always has sixteen signals.
    pub proof fn lemma_shape(&self)
        ensures
            self@.len() == 16,
    {
        self.register.lemma_shape();
    }

    /// A counter that holds the all-false word.
    pub fn new() -> (pc: Self)
        ensures
            pc@ == word_zero(),
    {
        PC { register: Register::new() }
    }

    /// One cycle: the counter is cleared when `reset` is high, else takes
    /// `input` when `load` is high, else advances by one (modulo 65536)
    /// when `inc` is high, else holds; the word held at the end of the
    /// cycle is returned.
    pub fn load(
        &mut self,
        input: [bool; 16],
        load: bool,
        inc: bool,
        reset: bool,
    ) -> (out: [bool; 16])
        ensures
            final(self)@ == pc_next(old(self)@, input@, load, inc, reset),
            out@ == final(self)@,
    {
        let zero = [false; 16];
        let one = [
            true,
            false,
            false,
            false,
            false,
            false,
            false,
            false,
            false,
            false,
            false,
            false,
            false,
            false,
            false,
            false,
        ];
        proof {
            lemma_word_of_one();
            assert(zero@ =~= word_zero());
            assert(one@ =~= word_of(1));
        }
        let current_out = self.register.load(zero, false);
        let added = add_16(current_out, one);
        let out0 = mux_16(current_out, added, inc);
        let out1 = mux_16(out0, input, load);
        let out2 = mux_16(out1, zero, reset);

        let or0 = or(load, inc);
        let or1 = or(or0, reset);
        self.register.load(out2, or1)
    }
}

} // verus!
