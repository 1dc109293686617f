//! The conditions under which the machine refuses to carry on.
use vstd::prelude::*;

verus! {

/// A contract violation by the program or the host. An operation that reports a
/// fault leaves the machine exactly as it found it.
#[derive(Clone, Copy, Debug, PartialEq, Eq, Structural)]
pub enum Fault {
    /// A call was made with the call stack already full, or a return found the
    /// stack pointer beyond the stack.
    StackOverflow,
    /// A return was made with the call stack empty.
    StackUnderflow,
    /// An access reached outside memory; `address` is the first address of the
    /// access that lies outside.
    MemoryOutOfRange { address: usize },
    /// A key instruction named a key that the pad does not have.
    InvalidKey { key: usize },
    /// A program of `len` bytes does not fit between the program start and the
    /// end of memory.
    RomTooLarge { len: usize },
}

} // verus!
