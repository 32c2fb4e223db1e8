//! The computation field of a C-instruction.

use crate::computer::chip::arithmetic::{alu_controlled, alu_controlled_out};
use vstd::prelude::*;
use vstd::std_specs::convert::FromSpecImpl;

verus! {

/// The seven bits that tell the ALU what to compute: `a` picks the second
/// operand (the A register when low, the memory input when high), and the
/// other six are the ALU's control lines. The first operand is always the
/// D register.
#[derive(PartialEq, Eq, Structural, Debug, Clone, Copy)]
pub struct Computation {
    pub a: bool,
    pub zx: bool,
    pub nx: bool,
    pub zy: bool,
    pub ny: bool,
    pub f: bool,
    pub no: bool,
}

impl Computation {
    /// The field as a seven-bit number, `a` being bit 6 and `no` bit 0.
    pub open spec fn code(self) -> int {
        (if self.a {
            64int
        } else {
            0
        }) + (if self.zx {
            32int
        } else {
            0
        }) + (if self.nx {
            16int
        } else {
            0
        }) + (if self.zy {
            8int
        } else {
            0
        }) + (if self.ny {
            4int
        } else {
            0
        }) + (if self.f {
            2int
        } else {
            0
        }) + (if self.no {
            1int
        } else {
            0
        })
    }

    /// The computation that the low seven bits of `value` spell.
    pub open spec fn of_code(value: u16) -> Self {
        Computation {
            a: (value / 64) % 2 == 1,
            zx: (value / 32) % 2 == 1,
            nx: (value / 16) % 2 == 1,
            zy: (value / 8) % 2 == 1,
            ny: (value / 4) % 2 == 1,
            f: (value / 2) % 2 == 1,
            no: value % 2 == 1,
        }
    }

    /// The ALU's second operand: memory input when `a` is set, else the A
    /// register.
    pub open spec fn operand(self, a: u16, m: u16) -> u16 {
        if self.a {
            m
        } else {
            a
        }
    }

    /// What the computation yields on the given register and memory values.
    pub open spec fn result(self, d: u16, a: u16, m: u16) -> u16 {
        alu_controlled_out(
            d,
            self.operand(a, m),
            self.zx,
            self.nx,
            self.zy,
            self.ny,
            self.f,
            self.no,
        )
    }

    /// Runs the computation on the D register and on either the A register
    /// or the memory input: the result, whether it is zero, and whether its
    /// top bit is set.
    pub fn execute(&self, d: u16, a: u16, m: u16) -> (out: (u16, bool, bool))
        ensures
            out.0 == self.result(d, a, m),
            out.1 == (out.0 == 0),
            out.2 == (out.0 >= 0x8000),
    {
        let y = if self.a {
            m
        } else {
            a
        };
        alu_controlled(d, y, self.zx, self.nx, self.zy, self.ny, self.f, self.no)
    }
}

impl From<u16> for Computation {
    /// Reads the low seven bits of `value` as a computation field.
    fn from(value: u16) -> (out: Self) {
        proof {
            lemma_field_bits(value);
        }
        Computation {
            a: (value >> 6) & 0b1 == 1,
            zx: (value >> 5) & 0b1 == 1,
            nx: (value >> 4) & 0b1 == 1,
            zy: (value >> 3) & 0b1 == 1,
            ny: (value >> 2) & 0b1 == 1,
            f: (value >> 1) & 0b1 == 1,
            no: value & 0b1 == 1,
        }
    }
}

impl FromSpecImpl<u16> for Computation {
    open spec fn obeys_from_spec() -> bool {
        true
    }

    open spec fn from_spec(value: u16) -> Self {
        Computation::of_code(value)
    }
}

impl From<Computation> for u16 {
    /// The field as a seven-bit number.
    fn from(value: Computation) -> (out: Self) {
        let a: u16 = if value.a {
            1
        } else {
            0
        };
        let zx: u16 = if value.zx {
            1
        } else {
            0
        };
        let nx: u16 = if value.nx {
            1
        } else {
            0
        };
        let zy: u16 = if value.zy {
            1
        } else {
            0
        };
        let ny: u16 = if value.ny {
            1
        } else {
            0
        };
        let f: u16 = if value.f {
            1
        } else {
            0
        };
        let no: u16 = if value.no {
            1
        } else {
            0
        };
        assert((a << 6) | (zx << 5) | (nx << 4) | (zy << 3) | (ny << 2) | (f << 1) | no
            == 64 * a + 32 * zx + 16 * nx + 8 * zy + 4 * ny + 2 * f + no) by (bit_vector)
            requires
                a <= 1,
                zx <= 1,
                nx <= 1,
                zy <= 1,
                ny <= 1,
                f <= 1,
                no <= 1,
        ;
        (a << 6) | (zx << 5) | (nx << 4) | (zy << 3) | (ny << 2) | (f << 1) | no
    }
}

impl FromSpecImpl<Computation> for u16 {
    open spec fn obeys_from_spec() -> bool {
        true
    }

    open spec fn from_spec(value: Computation) -> Self {
        value.code() as u16
    }
}

/// The low seven bits of a number, read off arithmetically.
pub proof fn lemma_field_bits(value: u16)
    by (bit_vector)
    ensures
        ((value >> 6) & 1 == 1) == ((value / 64) % 2 == 1),
        ((value >> 5) & 1 == 1) == ((value / 32) % 2 == 1),
        ((value >> 4) & 1 == 1) == ((value / 16) % 2 == 1),
        ((value >> 3) & 1 == 1) == ((value / 8) % 2 == 1),
        ((value >> 2) & 1 == 1) == ((value / 4) % 2 == 1),
        ((value >> 1) & 1 == 1) == ((value / 2) % 2 == 1),
        (value & 1 == 1) == (value % 2 == 1),
{
}

/// A computation field survives being written as a number and read back.
pub proof fn lemma_computation_round_trip(comp: Computation)
    ensures
        0 <= comp.code() < 128,
        Computation::of_code(comp.code() as u16) == comp,
{
}

/// Reading a number as a computation field and writing the field back
/// keeps the number's low seven bits.
pub proof fn lemma_computation_code(value: u16)
    ensures
        Computation::of_code(value).code() == value % 128,
{
    let v = value as int;
    assert(v % 128 == 64 * ((v / 64) % 2) + v % 64);
    assert(v % 64 == 32 * ((v / 32) % 2) + v % 32);
    assert(v % 32 == 16 * ((v / 16) % 2) + v % 16);
    assert(v % 16 == 8 * ((v / 8) % 2) + v % 8);
    assert(v % 8 == 4 * ((v / 4) % 2) + v % 4);
    assert(v % 4 == 2 * ((v / 2) % 2) + v % 2);
}

} // verus!
