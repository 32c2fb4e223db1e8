//! The instruction set: how a 16-bit word is read as an instruction, and
//! what a jump field does to the program counter.

use crate::computer::chip::cpu::computation::{
    lemma_computation_code, lemma_computation_round_trip, Computation,
};
use vstd::prelude::*;
use vstd::std_specs::convert::FromSpecImpl;

verus! {

/// One instruction of the machine.
#[derive(PartialEq, Eq, Structural, Debug)]
pub enum CpuInstructions {
    /// Load a 15-bit constant into the A register.
    Ainstruction(u16),
    /// Compute, store the result in the named destinations, and jump if
    /// the result meets the jump condition.
    CInstruction { comp: Computation, dest: Destination, jump: Jump },
}

impl CpuInstructions {
    /// The instruction that a word spells. A word whose top three bits are
    /// all set is a C-instruction with the computation in bits 6 to 12, the
    /// destination in bits 3 to 5 and the jump in bits 0 to 2; any other
    /// word is an A-instruction carrying the word's low 15 bits.
    pub open spec fn decode(value: u16) -> Self {
        if value >= 0xe000 {
            CpuInstructions::CInstruction {
                comp: Computation::of_code((value / 64) % 128),
                dest: Destination::of_code((value / 8) % 8),
                jump: Jump::of_code(value % 8),
            }
        } else {
            CpuInstructions::Ainstruction(value % 0x8000)
        }
    }

    /// The word that spells the instruction. The constant of an
    /// A-instruction is cut to its low 15 bits.
    pub open spec fn encode(self) -> u16 {
        match self {
            CpuInstructions::Ainstruction(value) => value % 0x8000,
            CpuInstructions::CInstruction { comp, dest, jump } => {
                (0xe000 + 64 * comp.code() + 8 * dest.code() + jump.spec_code()) as u16
            },
        }
    }
}

impl From<u16> for CpuInstructions {
    fn from(value: u16) -> (out: Self) {
        proof {
            lemma_word_fields(value);
        }
        if (value >> 13) & 0b111 == 0b111 {
            return CpuInstructions::CInstruction {
                comp: Computation::from((value >> 6) & 0b1111111),
                dest: Destination::from((value >> 3) & 0b111),
                jump: Jump::from(value & 0b111),
            };
        }
        CpuInstructions::Ainstruction(value & 0x7FFF)
    }
}

impl FromSpecImpl<u16> for CpuInstructions {
    open spec fn obeys_from_spec() -> bool {
        true
    }

    open spec fn from_spec(value: u16) -> Self {
        CpuInstructions::decode(value)
    }
}

impl From<CpuInstructions> for u16 {
    fn from(value: CpuInstructions) -> (out: Self) {
        match value {
            CpuInstructions::Ainstruction(value) => {
                proof {
                    lemma_word_fields(value);
                }
                value & 0x7FFF
            },
            CpuInstructions::CInstruction { comp, dest, jump } => {
                let comp_bits = u16::from(comp);
                let dest_bits = u16::from(dest);
                let jump_bits = jump.code();
                let mut binary: u16 = 0b1110_0000_0000_0000;
                assert(0xe000u16 | (comp_bits << 6) | (dest_bits << 3) | jump_bits
                    == 0xe000 + 64 * comp_bits + 8 * dest_bits + jump_bits) by (bit_vector)
                    requires
                        comp_bits < 128,
                        dest_bits < 8,
                        jump_bits < 8,
                ;
                binary |= comp_bits << 6;
                binary |= dest_bits << 3;
                binary |= jump_bits;
                binary
            },
        }
    }
}

impl FromSpecImpl<CpuInstructions> for u16 {
    open spec fn obeys_from_spec() -> bool {
        true
    }

    open spec fn from_spec(value: CpuInstructions) -> Self {
        value.encode()
    }
}

/// The condition on which a C-instruction jumps.
#[derive(PartialEq, Eq, Structural, Debug)]
pub enum Jump {
    /// Never.
    Null,
    /// The result is greater than zero.
    Jgt,
    /// The result is zero.
    Jeq,
    /// The result is not negative.
    Jge,
    /// The result is negative.
    Jlt,
    /// The result is not zero.
    Jne,
    /// The result is zero or negative.
    Jle,
    /// Always.
    Jmp,
}

impl Jump {
    /// The jump field as a three-bit number.
    pub open spec fn spec_code(&self) -> u16 {
        match self {
            Jump::Null => 0b000,
            Jump::Jgt => 0b001,
            Jump::Jeq => 0b010,
            Jump::Jge => 0b011,
            Jump::Jlt => 0b100,
            Jump::Jne => 0b101,
            Jump::Jle => 0b110,
            Jump::Jmp => 0b111,
        }
    }

    /// The jump that the low three bits of `value` spell.
    pub open spec fn of_code(value: u16) -> Self {
        let field = value % 8;
        if field == 0 {
            Jump::Null
        } else if field == 1 {
            Jump::Jgt
        } else if field == 2 {
            Jump::Jeq
        } else if field == 3 {
            Jump::Jge
        } else if field == 4 {
            Jump::Jlt
        } else if field == 5 {
            Jump::Jne
        } else if field == 6 {
            Jump::Jle
        } else {
            Jump::Jmp
        }
    }

    /// Whether the jump is taken, given the flags of the computed result:
    /// `zr` says that it is zero, `ng` that it is negative.
    pub open spec fn taken(self, zr: bool, ng: bool) -> bool {
        match self {
            Jump::Null => false,
            Jump::Jgt => !zr && !ng,
            Jump::Jeq => zr,
            Jump::Jge => !ng,
            Jump::Jlt => ng,
            Jump::Jne => !zr,
            Jump::Jle => zr || ng,
            Jump::Jmp => true,
        }
    }

    /// The jump field as a three-bit number.
    #[verifier::when_used_as_spec(spec_code)]
    pub fn code(&self) -> (code: u16)
        ensures
            code == self.spec_code(),
    {
        match self {
            Jump::Null => 0b000,
            Jump::Jgt => 0b001,
            Jump::Jeq => 0b010,
            Jump::Jge => 0b011,
            Jump::Jlt => 0b100,
            Jump::Jne => 0b101,
            Jump::Jle => 0b110,
            Jump::Jmp => 0b111,
        }
    }

    /// Moves the program counter: to `a_value` when the jump is taken, and
    /// on by one when it is not. The counter must have room to advance.
    pub fn execute(&self, a_value: u16, pc: &mut u16, zr: bool, ng: bool)
        requires
            self.taken(zr, ng) || *old(pc) < u16::MAX,
        ensures
            *final(pc) == (if self.taken(zr, ng) {
                a_value as int
            } else {
                *old(pc) + 1
            }),
    {
        match self {
            Jump::Null => {
                *pc += 1;
            },
            Jump::Jgt => {
                if !zr && !ng {
                    *pc = a_value
                } else {
                    *pc += 1;
                }
            },
            Jump::Jeq => {
                if zr {
                    *pc = a_value
                } else {
                    *pc += 1;
                }
            },
            Jump::Jge => {
                if !ng {
                    *pc = a_value
                } else {
                    *pc += 1;
                }
            },
            Jump::Jlt => {
                if ng {
                    *pc = a_value
                } else {
                    *pc += 1;
                }
            },
            Jump::Jne => {
                if !zr {
                    *pc = a_value
                } else {
                    *pc += 1;
                }
            },
            Jump::Jle => {
                if zr || ng {
                    *pc = a_value
                } else {
                    *pc += 1;
                }
            },
            Jump::Jmp => *pc = a_value,
        }
    }
}

impl From<u16> for Jump {
    /// Reads the low three bits of `value` as a jump field.
    fn from(value: u16) -> (out: Self) {
        proof {
            lemma_word_fields(value);
        }
        match value & 0b111 {
            0b000 => Jump::Null,
            0b001 => Jump::Jgt,
            0b010 => Jump::Jeq,
            0b011 => Jump::Jge,
            0b100 => Jump::Jlt,
            0b101 => Jump::Jne,
            0b110 => Jump::Jle,
            _ => Jump::Jmp,
        }
    }
}

impl FromSpecImpl<u16> for Jump {
    open spec fn obeys_from_spec() -> bool {
        true
    }

    open spec fn from_spec(value: u16) -> Self {
        Jump::of_code(value)
    }
}

/// The places that a C-instruction stores its result in.
#[derive(PartialEq, Eq, Structural, Debug)]
pub struct Destination {
    /// The A register.
    pub a: bool,
    /// The memory location that the A register addresses.
    pub m: bool,
    /// The D register.
    pub d: bool,
}

impl Destination {
    /// The destination field as a three-bit number: `a` is bit 2, `d` bit 1
    /// and `m` bit 0.
    pub open spec fn code(self) -> int {
        (if self.a {
            4int
        } else {
            0
        }) + (if self.d {
            2int
        } else {
            0
        }) + (if self.m {
            1int
        } else {
            0
        })
    }

    /// The destination that the low three bits of `value` spell.
    pub open spec fn of_code(value: u16) -> Self {
        Destination { a: (value / 4) % 2 == 1, d: (value / 2) % 2 == 1, m: value % 2 == 1 }
    }
}

impl From<Destination> for u16 {
    fn from(value: Destination) -> (out: Self) {
        let m: u16 = if value.m {
            1
        } else {
            0
        };
        let d: u16 = if value.d {
            1
        } else {
            0
        };
        let a: u16 = if value.a {
            1
        } else {
            0
        };
        assert(0u16 | m | (d << 1) | (a << 2) == m + 2 * d + 4 * a) by (bit_vector)
            requires
                m <= 1,
                d <= 1,
                a <= 1,
        ;
        let mut binary: u16 = 0b000;
        binary |= m;
        binary |= d << 1;
        binary |= a << 2;
        binary
    }
}

impl FromSpecImpl<Destination> for u16 {
    open spec fn obeys_from_spec() -> bool {
        true
    }

    open spec fn from_spec(value: Destination) -> Self {
        value.code() as u16
    }
}

impl From<u16> for Destination {
    /// Reads the low three bits of `value` as a destination field.
    fn from(value: u16) -> (out: Self) {
        proof {
            lemma_word_fields(value);
        }
        Destination {
            a: (value >> 2) & 0b1 == 1,
            d: (value >> 1) & 0b1 == 1,
            m: value & 0b1 == 1,
        }
    }
}

impl FromSpecImpl<u16> for Destination {
    open spec fn obeys_from_spec() -> bool {
        true
    }

    open spec fn from_spec(value: u16) -> Self {
        Destination::of_code(value)
    }
}

/// The fields of an instruction word, read off arithmetically.
pub proof fn lemma_word_fields(value: u16)
    by (bit_vector)
    ensures
        ((value >> 13) & 0b111 == 0b111) == (value >= 0xe000),
        (value >> 6) & 0b1111111 == (value / 64) % 128,
        (value >> 3) & 0b111 == (value / 8) % 8,
        value & 0b111 == value % 8,
        value & 0x7fff == value % 0x8000,
        ((value >> 2) & 1 == 1) == ((value / 4) % 2 == 1),
        ((value >> 1) & 1 == 1) == ((value / 2) % 2 == 1),
        (value & 1 == 1) == (value % 2 == 1),
{
}

/// A C-instruction word is the sum of its fields, each at its place.
proof fn lemma_word_from_fields(value: u16)
    by (bit_vector)
    requires
        value >= 0xe000,
    ensures
        0xe000 + 64 * ((value / 64) % 128) + 8 * ((value / 8) % 8) + value % 8 == value,
{
}

/// Fields put at their places in a word can be read back from it.
proof fn lemma_fields_from_word(comp: u16, dest: u16, jump: u16, word: u16)
    by (bit_vector)
    requires
        comp < 128,
        dest < 8,
        jump < 8,
        word == 0xe000 + 64 * comp + 8 * dest + jump,
    ensures
        word >= 0xe000,
        (word / 64) % 128 == comp,
        (word / 8) % 8 == dest,
        word % 8 == jump,
{
}

/// A destination field survives being written as a number and read back,
/// and reading a number as a field keeps its low three bits.
pub proof fn lemma_destination_round_trip(dest: Destination, value: u16)
    ensures
        0 <= dest.code() < 8,
        Destination::of_code(dest.code() as u16) == dest,
        Destination::of_code(value).code() == value % 8,
{
    let v = value as int;
    assert(v % 8 == 4 * ((v / 4) % 2) + v % 4);
    assert(v % 4 == 2 * ((v / 2) % 2) + v % 2);
}

/// A jump field survives being written as a number and read back, and
/// reading a number as a field keeps its low three bits.
pub proof fn lemma_jump_round_trip(jump: Jump, value: u16)
    ensures
        jump.spec_code() < 8,
        Jump::of_code(jump.spec_code()) == jump,
        Jump::of_code(value).spec_code() == value % 8,
{
}

/// The word of a C-instruction whose fields were read from three numbers
/// is the sum of those numbers, each at its place.
proof fn lemma_encode_fields(comp_bits: u16, dest_bits: u16, jump_bits: u16)
    requires
        comp_bits < 128,
        dest_bits < 8,
        jump_bits < 8,
    ensures
        (CpuInstructions::CInstruction {
            comp: Computation::of_code(comp_bits),
            dest: Destination::of_code(dest_bits),
            jump: Jump::of_code(jump_bits),
        }).encode() == 0xe000 + 64 * comp_bits + 8 * dest_bits + jump_bits,
{
    let comp = Computation::of_code(comp_bits);
    let dest = Destination::of_code(dest_bits);
    let jump = Jump::of_code(jump_bits);
    lemma_computation_code(comp_bits);
    lemma_destination_round_trip(dest, dest_bits);
    lemma_jump_round_trip(jump, jump_bits);
    assert(comp.code() == comp_bits);
    assert(dest.code() == dest_bits);
    assert(jump.spec_code() == jump_bits);
}

/// Decoding a word and encoding the instruction again gives the word back
/// when it is a C-instruction, and its low 15 bits when it is an
/// A-instruction.
pub proof fn lemma_encode_decode(value: u16)
    ensures
        CpuInstructions::decode(value).encode() == (if value >= 0xe000 {
            value
        } else {
            value % 0x8000
        }),
{
    if value >= 0xe000 {
        let comp_bits = (value / 64) % 128;
        let dest_bits = (value / 8) % 8;
        let jump_bits = value % 8;
        lemma_encode_fields(comp_bits, dest_bits, jump_bits);
        lemma_word_from_fields(value);
    }
}

/// Encoding an instruction and decoding the word gives the instruction
/// back, an A-instruction with its constant cut to 15 bits.
pub proof fn lemma_decode_encode(instruction: CpuInstructions)
    ensures
        CpuInstructions::decode(instruction.encode()) == (match instruction {
            CpuInstructions::Ainstruction(value) => CpuInstructions::Ainstruction(value % 0x8000),
            _ => instruction,
        }),
{
    match instruction {
        CpuInstructions::Ainstruction(value) => {},
        CpuInstructions::CInstruction { comp, dest, jump } => {
            lemma_computation_round_trip(comp);
            lemma_destination_round_trip(dest, 0);
            lemma_jump_round_trip(jump, 0);
            let c = comp.code() as u16;
            let d = dest.code() as u16;
            let j = jump.spec_code();
            let word = instruction.encode();
            assert(word == 0xe000 + 64 * c + 8 * d + j);
            lemma_fields_from_word(c, d, j, word);
        },
    }
}

} // verus!
