use vstd::prelude::*;

verus! {

/// The ways in which execution stops abnormally. Every fault is fatal: the
/// interpreter never retries or skips the instruction that raised it.
#[derive(Clone, Copy, Debug, PartialEq, Eq, Structural)]
pub enum Fault {
    /// The opcode matches no instruction pattern; carries the raw opcode.
    DecodeFault(u16),
    /// A call was attempted with the call stack at capacity.
    StackOverflow,
    /// A return was attempted with an empty call stack.
    StackUnderflow,
    /// A fetch, register or memory index lies outside its container.
    OutOfBounds,
}

} // verus!
