//! The word-level computer: CPU, instruction memory and data memory on
//! native 16-bit integers.

pub mod chip;

use self::chip::cpu::instructions::CpuInstructions;
use self::chip::cpu::{CPUResponse, Cpu};
use self::chip::memory::{MemoryError, Ram, Rom, KEYBOARD, MAIN_WORDS};
use vstd::prelude::*;
use vstd::std_specs::convert::FromSpecImpl;

verus! {

/// The whole machine: instruction memory, data memory, the processor, and
/// what the processor answered last.
pub struct Computer {
    pub rom: Rom,
    pub ram: Ram,
    pub cpu: Cpu,
    pub prev_cpu_response: CPUResponse,
}

/// Why the machine stopped.
#[derive(Debug)]
pub enum Error {
    /// A memory access failed.
    Memory(MemoryError),
}

impl From<MemoryError> for Error {
    fn from(value: MemoryError) -> (out: Self) {
        Error::Memory(value)
    }
}

impl FromSpecImpl<MemoryError> for Error {
    open spec fn obeys_from_spec() -> bool {
        true
    }

    open spec fn from_spec(value: MemoryError) -> Self {
        Error::Memory(value)
    }
}

/// Whether `result` is the memory error that carries `text`.
pub open spec fn is_memory_error(result: Result<(), Error>, text: Seq<char>) -> bool {
    match result {
        Err(Error::Memory(MemoryError::OutOfBound(message))) => message@ == text,
        _ => false,
    }
}

/// Instruction memory with `program` written into it from `start` on.
pub open spec fn with_program(rom: Seq<u16>, start: int, program: Seq<u16>) -> Seq<u16> {
    Seq::new(
        rom.len(),
        |i: int|
            if start <= i < start + program.len() {
                program[i - start]
            } else {
                rom[i]
            },
    )
}

/// The answer of a processor that has not run yet.
pub open spec fn idle_response() -> CPUResponse {
    CPUResponse { out_m: 0, write_m: false, address_m: 0, pc: 0 }
}

impl Computer {
    /// The instruction that the machine is about to execute.
    pub open spec fn instruction(self) -> CpuInstructions {
        CpuInstructions::decode(self.rom@[self.prev_cpu_response.pc as int])
    }

    /// The word that data memory holds where the last answer pointed.
    pub open spec fn input_m(self) -> u16 {
        self.ram@[self.prev_cpu_response.address_m as int]
    }

    /// Whether the fetch falls past the end of instruction memory.
    pub open spec fn fetch_fails(self) -> bool {
        self.prev_cpu_response.pc > MAIN_WORDS
    }

    /// Whether the read of data memory falls past the keyboard register.
    pub open spec fn read_fails(self) -> bool {
        self.prev_cpu_response.address_m > KEYBOARD
    }

    /// What the processor answers to the instruction about to be executed.
    pub open spec fn response(self) -> CPUResponse {
        self.cpu.response(self.instruction(), self.input_m())
    }

    /// Whether the instruction about to be executed stores its result past
    /// the keyboard register.
    pub open spec fn store_fails(self) -> bool {
        self.response().write_m && self.response().address_m > KEYBOARD
    }

    /// Data memory after the instruction about to be executed has stored
    /// its result, if it stores one.
    pub open spec fn ram_after_store(self) -> Seq<u16> {
        if self.response().write_m {
            self.ram@.update(self.response().address_m as int, self.response().out_m)
        } else {
            self.ram@
        }
    }

    /// Whether the machine can run a cycle: the fetch does not fall on the
    /// word one past the end of instruction memory, and where fetch and
    /// read succeed, the processor can execute what was fetched.
    pub open spec fn can_execute(self) -> bool {
        &&& self.prev_cpu_response.pc != MAIN_WORDS
        &&& !self.fetch_fails() && !self.read_fails() ==> self.cpu.can_execute(
            self.instruction(),
            self.input_m(),
        )
    }

    /// A machine with zeroed memories and an idle processor.
    pub fn new() -> (computer: Self)
        ensures
            computer.rom@ == Seq::new(MAIN_WORDS as nat, |i: int| 0u16),
            computer.ram@ == Seq::new((KEYBOARD + 1) as nat, |i: int| 0u16),
            computer.cpu == (Cpu { d_register: 0, a_register: 0, pc: 0 }),
            computer.prev_cpu_response == idle_response(),
    {
        Computer {
            prev_cpu_response: CPUResponse { out_m: 0, write_m: false, address_m: 0, pc: 0 },
            ram: Ram::new(),
            rom: Rom::new(),
            cpu: Cpu::new(),
        }
    }

    /// Restarts the program: data memory is zeroed and the program counter
    /// goes back to zero. The program and the two registers stay.
    pub fn reset(&mut self)
        ensures
            final(self).rom == old(self).rom,
            final(self).ram@ == Seq::new((KEYBOARD + 1) as nat, |i: int| 0u16),
            final(self).cpu == (Cpu { pc: 0, ..old(self).cpu }),
            final(self).prev_cpu_response == idle_response(),
    {
        self.prev_cpu_response = CPUResponse { out_m: 0, write_m: false, address_m: 0, pc: 0 };
        self.ram.reset();
        self.cpu.reset();
    }

    /// One machine cycle: fetch the instruction at the last answer's
    /// program counter, read data memory where the last answer pointed,
    /// execute, and store the result if the instruction asks for it.
    ///
    /// A fetch or read outside memory fails and leaves the machine as it
    /// was. A store outside memory fails after the processor has already
    /// moved on; the last answer is then not replaced.
    pub fn execute(&mut self) -> (out: Result<(), Error>)
        requires
            old(self).can_execute(),
        ensures
            final(self).rom == old(self).rom,
            old(self).fetch_fails() ==> {
                &&& is_memory_error(out, "ROM Error"@)
                &&& *final(self) == *old(self)
            },
            !old(self).fetch_fails() && old(self).read_fails() ==> {
                &&& is_memory_error(out, "RAM Error on read"@)
                &&& *final(self) == *old(self)
            },
            !old(self).fetch_fails() && !old(self).read_fails() ==> final(self).cpu == old(
                self,
            ).cpu.next(old(self).instruction(), old(self).input_m()),
            !old(self).fetch_fails() && !old(self).read_fails() && old(self).store_fails() ==> {
                &&& is_memory_error(out, "RAM Error on load"@)
                &&& final(self).ram@ == old(self).ram@
                &&& final(self).prev_cpu_response == old(self).prev_cpu_response
            },
            !old(self).fetch_fails() && !old(self).read_fails() && !old(self).store_fails() ==> {
                &&& out is Ok
                &&& final(self).ram@ == old(self).ram_after_store()
                &&& final(self).prev_cpu_response == old(self).response()
            },
    {
        let instruction = match self.rom.read(self.prev_cpu_response.pc) {
            Ok(word) => word,
            Err(error) => {
                return Err(Error::from(error));
            },
        };

        let input_m = match self.ram.read(self.prev_cpu_response.address_m) {
            Ok(word) => word,
            Err(error) => {
                return Err(Error::from(error));
            },
        };

        let cpu_response = self.cpu.execute(CpuInstructions::from(instruction), input_m);

        if cpu_response.write_m {
            match self.ram.load(cpu_response.out_m, cpu_response.address_m) {
                Ok(_) => {},
                Err(error) => {
                    return Err(Error::from(error));
                },
            }
        }
        self.prev_cpu_response = cpu_response;

        Ok(())
    }

    /// Writes `program` into instruction memory, its first word at the
    /// last answer's program counter.
    ///
    /// The program must end within instruction memory, unless it starts
    /// past the end, where a program that is not empty is refused.
    pub fn load_program(&mut self, program: Vec<u16>) -> (out: Result<(), Error>)
        requires
            program@.len() == 0 || old(self).prev_cpu_response.pc > MAIN_WORDS || old(
                self,
            ).prev_cpu_response.pc + program@.len() <= MAIN_WORDS,
        ensures
            final(self).ram == old(self).ram,
            final(self).cpu == old(self).cpu,
            final(self).prev_cpu_response == old(self).prev_cpu_response,
            program@.len() > 0 && old(self).prev_cpu_response.pc > MAIN_WORDS ==> is_memory_error(
                out,
                "ROM Error"@,
            ) && final(self).rom@ == old(self).rom@,
            program@.len() == 0 || old(self).prev_cpu_response.pc <= MAIN_WORDS ==> out is Ok
                && final(self).rom@ == with_program(
                old(self).rom@,
                old(self).prev_cpu_response.pc as int,
                program@,
            ),
    {
        let start = self.prev_cpu_response.pc;
        proof {
            self.rom.lemma_shape();
            assert(self.rom@ =~= with_program(old(self).rom@, start as int, program@.take(0)));
        }
        let mut idx: usize = 0;
        while idx < program.len()
            invariant
                idx <= program@.len(),
                start == old(self).prev_cpu_response.pc,
                program@.len() == 0 || start > MAIN_WORDS || start + program@.len() <= MAIN_WORDS,
                start > MAIN_WORDS ==> idx == 0,
                self.ram == old(self).ram,
                self.cpu == old(self).cpu,
                self.prev_cpu_response == old(self).prev_cpu_response,
                self.rom@.len() == MAIN_WORDS,
                self.rom@ == with_program(old(self).rom@, start as int, program@.take(idx as int)),
            decreases program@.len() - idx,
        {
            match self.rom.load(program[idx], idx as u16 + start) {
                Ok(_) => {},
                Err(error) => {
                    return Err(Error::from(error));
                },
            }
            proof {
                self.rom.lemma_shape();
                assert(self.rom@ =~= with_program(
                    old(self).rom@,
                    start as int,
                    program@.take(idx + 1),
                ));
            }
            idx += 1;
        }
        proof {
            assert(program@.take(idx as int) =~= program@);
        }
        Ok(())
    }
}

} // verus!
