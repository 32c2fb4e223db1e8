//! The word-level ALU: six control lines pick a function of two 16-bit
//! integers.

use vstd::prelude::*;

verus! {

/// The 16-bit value of an integer: its residue modulo 65536.
pub open spec fn wrap16(n: int) -> u16 {
    (n % 0x10000) as u16
}

/// What the ALU computes for given control lines: each operand is first
/// optionally zeroed and then optionally complemented, the two are added
/// (modulo 65536) or and-ed, and the result is optionally complemented.
pub open spec fn alu_controlled_out(
    x: u16,
    y: u16,
    zx: bool,
    nx: bool,
    zy: bool,
    ny: bool,
    f: bool,
    no: bool,
) -> u16 {
    let x0 = if zx {
        0u16
    } else {
        x
    };
    let y0 = if zy {
        0u16
    } else {
        y
    };
    let x1 = if nx {
        !x0
    } else {
        x0
    };
    let y1 = if ny {
        !y0
    } else {
        y0
    };
    let raw = if f {
        wrap16(x1 + y1)
    } else {
        x1 & y1
    };
    if no {
        !raw
    } else {
        raw
    }
}

/// The functions that the ALU's control scheme offers by name.
#[derive(Debug, Clone, Copy)]
pub enum AluOp {
    /// The constant 0.
    Zero,
    /// The constant 1.
    One,
    /// The constant -1.
    NegOne,
    /// `x`.
    X,
    /// `y`.
    Y,
    /// Bitwise complement of `x`.
    NotX,
    /// Bitwise complement of `y`.
    NotY,
    /// `-x`.
    NegX,
    /// `-y`.
    NegY,
    /// `x + 1`.
    IncX,
    /// `y + 1`.
    IncY,
    /// `x - 1`.
    DecX,
    /// `y - 1`.
    DecY,
    /// `x + y`.
    Add,
    /// `x - y`.
    Sub,
    /// `y - x`.
    SubFromY,
    /// Bitwise and.
    And,
    /// Bitwise or.
    Or,
}

impl AluOp {
    /// The six control lines of the operation as one number, bit 5 being
    /// `zx` and bit 0 being `no`.
    pub open spec fn spec_code(self) -> u8 {
        match self {
            AluOp::Zero => 0b101010,
            AluOp::One => 0b111111,
            AluOp::NegOne => 0b111010,
            AluOp::X => 0b001100,
            AluOp::Y => 0b110000,
            AluOp::NotX => 0b001101,
            AluOp::NotY => 0b110001,
            AluOp::NegX => 0b001111,
            AluOp::NegY => 0b110011,
            AluOp::IncX => 0b011111,
            AluOp::IncY => 0b110111,
            AluOp::DecX => 0b001110,
            AluOp::DecY => 0b110010,
            AluOp::Add => 0b000010,
            AluOp::Sub => 0b010011,
            AluOp::SubFromY => 0b000111,
            AluOp::And => 0b000000,
            AluOp::Or => 0b010101,
        }
    }

    /// The control lines `(zx, nx, zy, ny, f, no)` of the operation.
    pub open spec fn controls(self) -> (bool, bool, bool, bool, bool, bool) {
        match self {
            AluOp::Zero => (true, false, true, false, true, false),
            AluOp::One => (true, true, true, true, true, true),
            AluOp::NegOne => (true, true, true, false, true, false),
            AluOp::X => (false, false, true, true, false, false),
            AluOp::Y => (true, true, false, false, false, false),
            AluOp::NotX => (false, false, true, true, false, true),
            AluOp::NotY => (true, true, false, false, false, true),
            AluOp::NegX => (false, false, true, true, true, true),
            AluOp::NegY => (true, true, false, false, true, true),
            AluOp::IncX => (false, true, true, true, true, true),
            AluOp::IncY => (true, true, false, true, true, true),
            AluOp::DecX => (false, false, true, true, true, false),
            AluOp::DecY => (true, true, false, false, true, false),
            AluOp::Add => (false, false, false, false, true, false),
            AluOp::Sub => (false, true, false, false, true, true),
            AluOp::SubFromY => (false, false, false, true, true, true),
            AluOp::And => (false, false, false, false, false, false),
            AluOp::Or => (false, true, false, true, false, true),
        }
    }

    /// What the operation computes, in two's-complement arithmetic: every
    /// arithmetic result is taken modulo 65536.
    pub open spec fn result(self, x: u16, y: u16) -> u16 {
        match self {
            AluOp::Zero => 0,
            AluOp::One => 1,
            AluOp::NegOne => wrap16(-1),
            AluOp::X => x,
            AluOp::Y => y,
            AluOp::NotX => !x,
            AluOp::NotY => !y,
            AluOp::NegX => wrap16(-x),
            AluOp::NegY => wrap16(-y),
            AluOp::IncX => wrap16(x + 1),
            AluOp::IncY => wrap16(y + 1),
            AluOp::DecX => wrap16(x - 1),
            AluOp::DecY => wrap16(y - 1),
            AluOp::Add => wrap16(x + y),
            AluOp::Sub => wrap16(x - y),
            AluOp::SubFromY => wrap16(y - x),
            AluOp::And => x & y,
            AluOp::Or => x | y,
        }
    }

    /// The six control lines of the operation as one number.
    #[verifier::when_used_as_spec(spec_code)]
    pub fn code(self) -> (code: u8)
        ensures
            code == self.spec_code(),
    {
        match self {
            AluOp::Zero => 0b101010,
            AluOp::One => 0b111111,
            AluOp::NegOne => 0b111010,
            AluOp::X => 0b001100,
            AluOp::Y => 0b110000,
            AluOp::NotX => 0b001101,
            AluOp::NotY => 0b110001,
            AluOp::NegX => 0b001111,
            AluOp::NegY => 0b110011,
            AluOp::IncX => 0b011111,
            AluOp::IncY => 0b110111,
            AluOp::DecX => 0b001110,
            AluOp::DecY => 0b110010,
            AluOp::Add => 0b000010,
            AluOp::Sub => 0b010011,
            AluOp::SubFromY => 0b000111,
            AluOp::And => 0b000000,
            AluOp::Or => 0b010101,
        }
    }
}

/// Complement is subtraction from the all-ones word.
pub proof fn lemma_complement(x: u16)
    ensures
        !x == 0xffff - x,
{
    assert(!x == 0xffff - x) by (bit_vector);
}

/// Each control line of a code, read off arithmetically.
pub proof fn lemma_code_bits(c: u8)
    by (bit_vector)
    ensures
        (c & 0b100000 != 0) == (c % 64 >= 32),
        (c & 0b010000 != 0) == (c % 32 >= 16),
        (c & 0b001000 != 0) == (c % 16 >= 8),
        (c & 0b000100 != 0) == (c % 8 >= 4),
        (c & 0b000010 != 0) == (c % 4 >= 2),
        (c & 0b000001 != 0) == (c % 2 >= 1),
{
}

/// The control lines that an operation's code spells out are those of its
/// row in the table of operations.
pub proof fn lemma_code_controls(op: AluOp)
    ensures
        (
            op.spec_code() & 0b100000 != 0,
            op.spec_code() & 0b010000 != 0,
            op.spec_code() & 0b001000 != 0,
            op.spec_code() & 0b000100 != 0,
            op.spec_code() & 0b000010 != 0,
            op.spec_code() & 0b000001 != 0,
        ) == op.controls(),
{
    lemma_code_bits(op.spec_code());
}

/// Complementing after adding all-ones to a complement adds one; the
/// other two identities are the same fact for negation and subtraction.
proof fn lemma_twos_complement(x: u16, y: u16)
    ensures
        !wrap16(!x + 0xffff) == wrap16(x + 1),
        !wrap16(x + 0xffff) == wrap16(-x),
        wrap16(x + 0xffff) == wrap16(x - 1),
        !wrap16(!x + y) == wrap16(x - y),
{
    lemma_complement(x);
    lemma_complement(wrap16(!x + 0xffff));
    lemma_complement(wrap16(x + 0xffff));
    lemma_complement(wrap16(!x + y));
}

/// The ALU's control scheme computes, for each named operation, the
/// function that the name stands for.
pub proof fn lemma_control_scheme(op: AluOp, x: u16, y: u16)
    ensures
        ({
            let (zx, nx, zy, ny, f, no) = op.controls();
            alu_controlled_out(x, y, zx, nx, zy, ny, f, no)
        }) == op.result(x, y),
{
    let zero: u16 = 0;
    let ones: u16 = 0xffff;
    lemma_complement(zero);
    assert(!zero == ones);
    match op {
        AluOp::Zero => {
            assert(0u16 & 0u16 == 0u16) by (bit_vector);
        },
        AluOp::One => {
            lemma_twos_complement(zero, zero);
        },
        AluOp::NegOne => {},
        AluOp::X => {
            assert(x & 0xffffu16 == x) by (bit_vector);
        },
        AluOp::Y => {
            assert(0xffffu16 & y == y) by (bit_vector);
        },
        AluOp::NotX => {
            assert(x & 0xffffu16 == x) by (bit_vector);
        },
        AluOp::NotY => {
            assert(0xffffu16 & y == y) by (bit_vector);
        },
        AluOp::NegX => {
            lemma_twos_complement(x, zero);
        },
        AluOp::NegY => {
            lemma_twos_complement(y, zero);
            assert(wrap16(ones + y) == wrap16(y + ones));
        },
        AluOp::IncX => {
            lemma_twos_complement(x, zero);
        },
        AluOp::IncY => {
            lemma_twos_complement(y, zero);
            assert(wrap16(ones + !y) == wrap16(!y + ones));
        },
        AluOp::DecX => {
            lemma_twos_complement(x, zero);
        },
        AluOp::DecY => {
            lemma_twos_complement(y, zero);
            assert(wrap16(ones + y) == wrap16(y + ones));
        },
        AluOp::Add => {},
        AluOp::Sub => {
            lemma_twos_complement(x, y);
        },
        AluOp::SubFromY => {
            lemma_twos_complement(y, x);
            assert(wrap16(x + !y) == wrap16(!y + x));
        },
        AluOp::And => {},
        AluOp::Or => {
            assert(!(!x & !y) == x | y) by (bit_vector);
        },
    }
}

/// The ALU driven by its six control lines: the result, the zero flag
/// (the result is 0) and the negative flag (the result's top bit is set).
pub fn alu_controlled(
    x: u16,
    y: u16,
    zx: bool,
    nx: bool,
    zy: bool,
    ny: bool,
    f: bool,
    no: bool,
) -> (out: (u16, bool, bool))
    ensures
        out.0 == alu_controlled_out(x, y, zx, nx, zy, ny, f, no),
        out.1 == (out.0 == 0),
        out.2 == (out.0 >= 0x8000),
{
    let x0 = if zx {
        0
    } else {
        x
    };
    let y0 = if zy {
        0
    } else {
        y
    };

    let x1 = if nx {
        !x0
    } else {
        x0
    };
    let y1 = if ny {
        !y0
    } else {
        y0
    };

    let computed = if f {
        x1.wrapping_add(y1)
    } else {
        x1 & y1
    };

    let out = if no {
        !computed
    } else {
        computed
    };

    let zr = out == 0;
    let ng = (out & 0x8000) != 0;
    assert((out & 0x8000) != 0 <==> out >= 0x8000) by (bit_vector);

    (out, zr, ng)
}

/// The ALU driven by a named operation: the result, the zero flag (the
/// result is 0) and the negative flag (the result's top bit is set).
pub fn alu(x: u16, y: u16, op: AluOp) -> (out: (u16, bool, bool))
    ensures
        out.0 == op.result(x, y),
        out.1 == (out.0 == 0),
        out.2 == (out.0 >= 0x8000),
{
    let flags = op.code();

    let zx = (flags & 0b100000) != 0;
    let nx = (flags & 0b010000) != 0;
    let zy = (flags & 0b001000) != 0;
    let ny = (flags & 0b000100) != 0;
    let f = (flags & 0b000010) != 0;
    let no = (flags & 0b000001) != 0;

    proof {
        lemma_code_controls(op);
        lemma_control_scheme(op, x, y);
    }
    alu_controlled(x, y, zx, nx, zy, ny, f, no)
}

} // verus!
