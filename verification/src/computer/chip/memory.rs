//! Instruction memory and data memory of the word-level computer.

use vstd::prelude::*;

verus! {

/// Words of instruction memory, and of the general-purpose part of data
/// memory.
pub const MAIN_WORDS: usize = 16384;

/// The one location of the keyboard, which follows the 8192 words of the
/// screen map.
pub const KEYBOARD: usize = 24576;

/// Why a memory access failed.
#[derive(Debug)]
pub enum MemoryError {
    /// The address names no location; the text says which access it was.
    OutOfBound(String),
}

/// Whether `result` is the out-of-bound error that carries `text`.
pub open spec fn is_out_of_bound<T>(result: Result<T, MemoryError>, text: Seq<char>) -> bool {
    match result {
        Err(MemoryError::OutOfBound(message)) => message@ == text,
        _ => false,
    }
}

/// Data memory: general-purpose words, the screen map and the keyboard
/// register, in one address space.
pub struct Ram {
    ram16k: [u16; 16384],
    screen: [u16; 8192],
    keyboard: u16,
}

/// Instruction memory.
pub struct Rom {
    rom: [u16; 16384],
}

impl View for Rom {
    type V = Seq<u16>;

    closed spec fn view(&self) -> Seq<u16> {
        self.rom@
    }
}

impl Rom {
    /// Instruction memory always has 16384 words.
    pub proof fn lemma_shape(&self)
        ensures
            self@.len() == MAIN_WORDS,
    {
    }

    /// Instruction memory filled with zeros.
    pub fn new() -> (rom: Self)
        ensures
            rom@ == Seq::new(MAIN_WORDS as nat, |i: int| 0u16),
    {
        let rom = Rom { rom: [0;16384] };
        assert(rom@ =~= Seq::new(MAIN_WORDS as nat, |i: int| 0u16));
        rom
    }

    /// Stores `input` at `address` and returns what is then held there. An
    /// address past the end is refused; the address one past the last
    /// word is not to be used.
    pub fn load(&mut self, input: u16, address: u16) -> (out: Result<u16, MemoryError>)
        requires
            address != MAIN_WORDS,
        ensures
            address < MAIN_WORDS ==> out == Ok::<u16, MemoryError>(input) && final(self)@ == old(
                self,
            )@.update(address as int, input),
            address > MAIN_WORDS ==> is_out_of_bound(out, "ROM Error"@) && final(self)@ == old(
                self,
            )@,
    {
        let address = address as usize;
        if address <= 16384 {
            self.rom[address] = input;
            return Ok(self.rom[address]);
        }
        Err(MemoryError::OutOfBound("ROM Error".to_string()))
    }

    /// Returns the word held at `address`. An address past the end is
    /// refused; the address one past the last word is not to be used.
    pub fn read(&self, address: u16) -> (out: Result<u16, MemoryError>)
        requires
            address != MAIN_WORDS,
        ensures
            address < MAIN_WORDS ==> out == Ok::<u16, MemoryError>(self@[address as int]),
            address > MAIN_WORDS ==> is_out_of_bound(out, "ROM Error"@),
    {
        if address <= 16384 {
            return Ok(self.rom[address as usize]);
        }
        Err(MemoryError::OutOfBound("ROM Error".to_string()))
    }
}

impl View for Ram {
    type V = Seq<u16>;

    closed spec fn view(&self) -> Seq<u16> {
        self.ram16k@ + self.screen@ + seq![self.keyboard]
    }
}

impl Ram {
    /// Data memory always has 24577 locations: 16384 general-purpose
    /// words, 8192 words of screen map, and the keyboard register.
    pub proof fn lemma_shape(&self)
        ensures
            self@.len() == KEYBOARD + 1,
    {
    }

    /// Data memory filled with zeros.
    pub fn new() -> (ram: Self)
        ensures
            ram@ == Seq::new((KEYBOARD + 1) as nat, |i: int| 0u16),
    {
        let ram = Ram { ram16k: [0;16384], screen: [0;8192], keyboard: 0 };
        assert(ram@ =~= Seq::new((KEYBOARD + 1) as nat, |i: int| 0u16));
        ram
    }

    /// Fills data memory with zeros.
    pub fn reset(&mut self)
        ensures
            final(self)@ == Seq::new((KEYBOARD + 1) as nat, |i: int| 0u16),
    {
        self.ram16k = [0;16384];
        self.screen = [0;8192];
        self.keyboard = 0;
        assert(self@ =~= Seq::new((KEYBOARD + 1) as nat, |i: int| 0u16));
    }

    /// Stores `input` at `address` and returns what is then held there. An
    /// address past the keyboard register is refused.
    pub fn load(&mut self, input: u16, address: u16) -> (out: Result<u16, MemoryError>)
        ensures
            address <= KEYBOARD ==> out == Ok::<u16, MemoryError>(input) && final(self)@ == old(
                self,
            )@.update(address as int, input),
            address > KEYBOARD ==> is_out_of_bound(out, "RAM Error on load"@) && final(self)@
                == old(self)@,
    {
        let address = address as usize;
        if address < 16384 {
            self.ram16k[address] = input;
            assert(self@ =~= old(self)@.update(address as int, input));
            return Ok(self.ram16k[address]);
        }
        if address >= 16384 && address < 8192 + 16384 {
            self.screen[address - 16384] = input;
            assert(self@ =~= old(self)@.update(address as int, input));
            return Ok(self.screen[address - 16384]);
        }
        if address == 8192 + 16384 {
            self.keyboard = input;
            assert(self@ =~= old(self)@.update(address as int, input));
            return Ok(self.keyboard);
        }
        Err(MemoryError::OutOfBound("RAM Error on load".to_string()))
    }

    /// Returns the word held at `address`. An address past the keyboard
    /// register is refused.
    pub fn read(&self, address: u16) -> (out: Result<u16, MemoryError>)
        ensures
            address <= KEYBOARD ==> out == Ok::<u16, MemoryError>(self@[address as int]),
            address > KEYBOARD ==> is_out_of_bound(out, "RAM Error on read"@),
    {
        let address = address as usize;
        if address < 16384 {
            return Ok(self.ram16k[address]);
        }
        if address >= 16384 && address < 8192 + 16384 {
            return Ok(self.screen[address - 16384]);
        }
        if address == 8192 + 16384 {
            return Ok(self.keyboard);
        }
        Err(MemoryError::OutOfBound("RAM Error on read".to_string()))
    }
}

} // verus!
