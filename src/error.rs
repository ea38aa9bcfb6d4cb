use vstd::prelude::*;

verus! {

/// Why an instruction could not be carried out.
#[derive(Clone, Copy, Debug, PartialEq, Eq, Structural)]
pub enum Fault {
    /// The opcode matches no entry of the instruction table.
    UnknownOpcode,
    /// A call was made with all sixteen return slots in use.
    StackOverflow,
    /// A return was made with no return address on the stack.
    StackUnderflow,
    /// An instruction would read or write memory past its last byte.
    MemoryOutOfBounds,
    /// A key instruction named a key outside the sixteen of the keypad.
    KeyOutOfRange,
}

/// Why a cycle stopped; the machine state is left as it was before it.
#[derive(Clone, Copy, Debug, PartialEq, Eq, Structural)]
pub enum CycleError {
    /// The two bytes at `address` do not both lie in memory.
    FetchOutOfBounds { address: u16 },
    /// The instruction `opcode`, fetched at `address`, failed with `fault`.
    Execute { fault: Fault, opcode: u16, address: u16 },
}

/// Why a ROM could not be loaded; memory is left untouched.
#[derive(Clone, Copy, Debug, PartialEq, Eq, Structural)]
pub enum LoadError {
    /// The ROM of `len` bytes does not fit between the program origin and
    /// the end of memory.
    TooLarge { len: usize },
}

} // verus!
