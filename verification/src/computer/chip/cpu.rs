//! The CPU of the word-level computer.

pub mod computation;
pub mod instructions;

use self::instructions::CpuInstructions;
use vstd::prelude::*;

verus! {

/// The processor state: the two registers and the program counter.
pub struct Cpu {
    pub d_register: u16,
    pub a_register: u16,
    pub pc: u16,
}

/// What the CPU puts on its pins after one instruction.
#[derive(PartialEq, Eq, Structural, Debug)]
pub struct CPUResponse {
    /// The value offered to memory.
    pub out_m: u16,
    /// Whether memory is to store `out_m`.
    pub write_m: bool,
    /// The memory location concerned.
    pub address_m: u16,
    /// The address of the next instruction.
    pub pc: u16,
}

impl Cpu {
    /// Whether the instruction sends the program counter to the A register
    /// rather than on by one.
    pub open spec fn jumps(self, instruction: CpuInstructions, input_m: u16) -> bool {
        match instruction {
            CpuInstructions::Ainstruction(_) => false,
            CpuInstructions::CInstruction { comp, dest, jump } => {
                let out = comp.result(self.d_register, self.a_register, input_m);
                jump.taken(out == 0, out >= 0x8000)
            },
        }
    }

    /// Whether the instruction can be executed: either it jumps, or the
    /// program counter has room to advance.
    pub open spec fn can_execute(self, instruction: CpuInstructions, input_m: u16) -> bool {
        self.pc < u16::MAX || self.jumps(instruction, input_m)
    }

    /// The processor state after the instruction.
    ///
    /// An A-instruction loads its constant into the A register. A
    /// C-instruction computes on the D register and on the A register or
    /// the memory input, and stores the result in the registers that the
    /// destination names. The program counter goes to the (new) A register
    /// when the jump condition holds of the result, and on by one
    /// otherwise.
    pub open spec fn next(self, instruction: CpuInstructions, input_m: u16) -> Cpu {
        match instruction {
            CpuInstructions::Ainstruction(value) => Cpu {
                d_register: self.d_register,
                a_register: value,
                pc: (self.pc + 1) as u16,
            },
            CpuInstructions::CInstruction { comp, dest, jump } => {
                let out = comp.result(self.d_register, self.a_register, input_m);
                let a = if dest.a {
                    out
                } else {
                    self.a_register
                };
                let d = if dest.d {
                    out
                } else {
                    self.d_register
                };
                Cpu {
                    d_register: d,
                    a_register: a,
                    pc: if jump.taken(out == 0, out >= 0x8000) {
                        a
                    } else {
                        (self.pc + 1) as u16
                    },
                }
            },
        }
    }

    /// What the processor answers to the instruction.
    ///
    /// After an A-instruction nothing is offered to memory. After a
    /// C-instruction the computed value is offered for the location that
    /// the A register held before the instruction, to be stored if the
    /// destination names memory.
    pub open spec fn response(self, instruction: CpuInstructions, input_m: u16) -> CPUResponse {
        let pc = self.next(instruction, input_m).pc;
        match instruction {
            CpuInstructions::Ainstruction(_) => CPUResponse {
                out_m: 0,
                write_m: false,
                address_m: 0,
                pc,
            },
            CpuInstructions::CInstruction { comp, dest, jump } => CPUResponse {
                out_m: comp.result(self.d_register, self.a_register, input_m),
                write_m: dest.m,
                address_m: self.a_register,
                pc,
            },
        }
    }

    /// A processor with both registers and the program counter at zero.
    pub fn new() -> (cpu: Self)
        ensures
            cpu == (Cpu { d_register: 0, a_register: 0, pc: 0 }),
    {
        Cpu { d_register: 0, a_register: 0, pc: 0 }
    }

    /// Sends the program counter back to zero; the registers keep their
    /// values.
    pub fn reset(&mut self)
        ensures
            *final(self) == (Cpu { pc: 0, ..*old(self) }),
    {
        self.pc = 0;
    }

    /// Executes one instruction, with `input_m` the value that memory holds
    /// at the location the A register addresses.
    pub fn execute(&mut self, instruction: CpuInstructions, input_m: u16) -> (res: CPUResponse)
        requires
            old(self).can_execute(instruction, input_m),
        ensures
            *final(self) == old(self).next(instruction, input_m),
            res == old(self).response(instruction, input_m),
    {
        let mut res = CPUResponse { out_m: 0, write_m: false, address_m: 0, pc: 0 };
        match instruction {
            CpuInstructions::Ainstruction(register_a) => {
                self.a_register = register_a;
                self.pc += 1;
            },
            CpuInstructions::CInstruction { comp, dest, jump } => {
                let (alu_out, zr, ng) = comp.execute(self.d_register, self.a_register, input_m);
                res.out_m = alu_out;
                res.address_m = self.a_register;

                if dest.a {
                    self.a_register = alu_out;
                }
                if dest.d {
                    self.d_register = alu_out;
                }
                if dest.m {
                    res.write_m = true;
                }
                jump.execute(self.a_register, &mut self.pc, zr, ng);
            },
        };
        res.pc = self.pc;
        res
    }
}

} // verus!
