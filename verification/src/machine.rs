use crate::fault::Fault;
use crate::opcode::{decode_spec, Instruction};
use vstd::prelude::*;

verus! {

/// Number of registers.
pub const REGISTER_COUNT: usize = 16;

/// Number of bytes of memory.
pub const MEMORY_SIZE: usize = 4096;

/// Number of return addresses that the call stack can hold.
pub const STACK_CAPACITY: usize = 16;

/// Index of the register that receives the carry of an addition.
pub const FLAG_REGISTER: usize = 15;

/// The base in which the rank of a state is written: larger than every digit.
pub const RANK_BASE: usize = 4098;

/// Whether the machine goes on after an instruction.
#[derive(Clone, Copy, Debug, PartialEq, Eq, Structural)]
pub enum Status {
    /// The next instruction can be fetched.
    Running,
    /// A halt instruction was executed.
    Halted,
}

/// The state of the machine as a mathematical value.
///
/// `stack` holds the live return addresses only, oldest first, so its length
/// is the stack pointer.
pub struct MachineState {
    pub registers: Seq<u8>,
    pub memory: Seq<u8>,
    pub position: nat,
    pub stack: Seq<u16>,
}

impl MachineState {
    /// The shape that every state of a CPU has: sixteen registers, 4096
    /// bytes of memory, at most sixteen return addresses, and an instruction
    /// pointer that fits in a return address.
    pub open spec fn valid(self) -> bool {
        &&& self.registers.len() == REGISTER_COUNT
        &&& self.memory.len() == MEMORY_SIZE
        &&& self.stack.len() <= STACK_CAPACITY
        &&& self.position <= u16::MAX
    }

    /// The state of a new CPU: everything zero, the call stack empty.
    pub open spec fn initial() -> Self {
        MachineState {
            registers: Seq::new(REGISTER_COUNT as nat, |i: int| 0u8),
            memory: Seq::new(MEMORY_SIZE as nat, |i: int| 0u8),
            position: 0,
            stack: Seq::empty(),
        }
    }

    /// The opcode at the instruction pointer: the byte there is its high
    /// half, the next byte its low half. Both bytes must lie in memory.
    pub open spec fn fetch(self) -> Result<u16, Fault> {
        if self.position + 1 < self.memory.len() {
            Ok(word(self.memory[self.position as int], self.memory[self.position as int + 1]))
        } else {
            Err(Fault::OutOfBounds)
        }
    }

    /// The state with the instruction pointer moved past one opcode.
    pub open spec fn advance(self) -> Self {
        MachineState { position: self.position + 2, ..self }
    }

    /// Register `x` receives the sum of registers `x` and `y` modulo 256, and
    /// then the flag register receives the carry.
    pub open spec fn add_xy(self, x: u8, y: u8) -> (Self, Result<(), Fault>) {
        if x < self.registers.len() && y < self.registers.len() && FLAG_REGISTER
            < self.registers.len() {
            let sum = self.registers[x as int] + self.registers[y as int];
            let carry = if sum > u8::MAX { 1u8 } else { 0u8 };
            (
                MachineState {
                    registers: self.registers.update(x as int, (sum % 0x100) as u8).update(
                        FLAG_REGISTER as int,
                        carry,
                    ),
                    ..self
                },
                Ok(()),
            )
        } else {
            (self, Err(Fault::OutOfBounds))
        }
    }

    /// The instruction pointer is pushed and then set to `addr`, unless the
    /// stack is full.
    pub open spec fn call(self, addr: u16) -> (Self, Result<(), Fault>) {
        if self.stack.len() < STACK_CAPACITY {
            (
                MachineState {
                    stack: self.stack.push(self.position as u16),
                    position: addr as nat,
                    ..self
                },
                Ok(()),
            )
        } else {
            (self, Err(Fault::StackOverflow))
        }
    }

    /// The newest return address is popped into the instruction pointer,
    /// unless the stack is empty.
    pub open spec fn ret(self) -> (Self, Result<(), Fault>) {
        if self.stack.len() > 0 {
            (
                MachineState {
                    stack: self.stack.drop_last(),
                    position: self.stack.last() as nat,
                    ..self
                },
                Ok(()),
            )
        } else {
            (self, Err(Fault::StackUnderflow))
        }
    }

    /// The effect of one decoded instruction on a state whose instruction
    /// pointer has already been advanced past it.
    pub open spec fn execute(self, instruction: Instruction) -> (Self, Result<Status, Fault>) {
        match instruction {
            Instruction::Halt => (self, Ok(Status::Halted)),
            Instruction::Return => (self.ret().0, running(self.ret().1)),
            Instruction::Call { target } => (self.call(target).0, running(self.call(target).1)),
            Instruction::Add { x, y } => (self.add_xy(x, y).0, running(self.add_xy(x, y).1)),
        }
    }

    /// One instruction cycle: fetch, advance, decode, execute.
    ///
    /// A failed fetch leaves the state as it is; a failed decode leaves it
    /// advanced past the opcode.
    pub open spec fn step(self) -> (Self, Result<Status, Fault>) {
        match self.fetch() {
            Err(fault) => (self, Err(fault)),
            Ok(opcode) => match decode_spec(opcode) {
                Err(fault) => (self.advance(), Err(fault)),
                Ok(instruction) => self.advance().execute(instruction),
            },
        }
    }

    /// The instruction that the next cycle executes, if it gets that far.
    pub open spec fn next_instruction(self) -> Option<Instruction> {
        match self.fetch() {
            Err(_) => None,
            Ok(opcode) => match decode_spec(opcode) {
                Err(_) => None,
                Ok(instruction) => Some(instruction),
            },
        }
    }

    /// Instruction cycles until the machine halts or faults: the state it
    /// stops in, and how it stopped.
    pub open spec fn run(self) -> (Self, Result<(), Fault>)
        decreases self.rank(),
        when self.valid()
        via Self::run_terminates
    {
        let (next, outcome) = self.step();
        match outcome {
            Ok(Status::Running) => next.run(),
            Ok(Status::Halted) => (next, Ok(())),
            Err(fault) => (next, Err(fault)),
        }
    }

    #[via_fn]
    proof fn run_terminates(self) {
        if self.step().1 == Ok::<Status, Fault>(Status::Running) {
            self.step_decreases_rank();
        }
    }

    /// The state after `n` cycles, if all of them left the machine running.
    pub open spec fn after(self, n: nat) -> Option<Self>
        decreases n,
    {
        if n == 0 {
            Some(self)
        } else {
            match self.after((n - 1) as nat) {
                Some(state) => if state.step().1 == Ok::<Status, Fault>(Status::Running) {
                    Some(state.step().0)
                } else {
                    None
                },
                None => None,
            }
        }
    }

    /// How far an address is from the end of memory, counted so that it is
    /// positive for every address.
    pub open spec fn slack(address: nat) -> int {
        if address >= MEMORY_SIZE {
            1
        } else {
            MEMORY_SIZE + 1 - address
        }
    }

    /// The `i`-th digit of the rank: the slack of the return address at depth
    /// `i`, that of the instruction pointer at the current depth, and zero
    /// above it.
    pub open spec fn digit(self, i: int) -> int {
        if 0 <= i < self.stack.len() {
            Self::slack(self.stack[i] as nat)
        } else if i == self.stack.len() {
            Self::slack(self.position)
        } else {
            0
        }
    }

    /// The first `n` digits read as a number in base `RANK_BASE`, the digit
    /// of the outermost frame being the most significant.
    pub open spec fn rank_of_digits(self, n: nat) -> int
        decreases n,
    {
        if n == 0 {
            0
        } else {
            self.rank_of_digits((n - 1) as nat) * RANK_BASE + self.digit(n - 1)
        }
    }

    /// A number that every cycle which leaves the machine running makes
    /// smaller, and that is never negative.
    pub open spec fn rank(self) -> int {
        self.rank_of_digits((STACK_CAPACITY + 1) as nat)
    }

    /// Every digit lies below the base.
    pub proof fn digit_bounds(self, i: int)
        ensures
            0 <= self.digit(i) < RANK_BASE,
    {
    }

    /// The rank is never negative.
    pub proof fn rank_of_digits_nonnegative(self, n: nat)
        ensures
            0 <= self.rank_of_digits(n),
        decreases n,
    {
        if n > 0 {
            self.rank_of_digits_nonnegative((n - 1) as nat);
            self.digit_bounds(n - 1);
        }
    }

    /// Of two states whose digits agree before index `k`, the one with the
    /// smaller digit at `k` has the smaller rank, whatever follows.
    pub proof fn rank_is_lexicographic(self, other: Self, k: int, n: nat)
        requires
            0 <= k < n,
            forall|i: int| 0 <= i < k ==> self.digit(i) == other.digit(i),
            other.digit(k) < self.digit(k),
        ensures
            other.rank_of_digits(n) < self.rank_of_digits(n),
        decreases n,
    {
        self.digit_bounds(n - 1);
        other.digit_bounds(n - 1);
        if n - 1 == k {
            self.prefix_ranks_agree(other, k as nat);
        } else {
            self.rank_is_lexicographic(other, k, (n - 1) as nat);
        }
    }

    /// States whose first `n` digits agree have the same rank up to `n`.
    pub proof fn prefix_ranks_agree(self, other: Self, n: nat)
        requires
            forall|i: int| 0 <= i < n ==> self.digit(i) == other.digit(i),
        ensures
            self.rank_of_digits(n) == other.rank_of_digits(n),
        decreases n,
    {
        if n > 0 {
            self.prefix_ranks_agree(other, (n - 1) as nat);
        }
    }

    /// A cycle leaves a valid state valid.
    pub proof fn step_preserves_valid(self)
        requires
            self.valid(),
        ensures
            self.step().0.valid(),
    {
    }

    /// A cycle that leaves the machine running makes the rank smaller.
    pub proof fn step_decreases_rank(self)
        requires
            self.valid(),
            self.step().1 == Ok::<Status, Fault>(Status::Running),
        ensures
            0 <= self.step().0.rank() < self.rank(),
    {
        let next = self.step().0;
        let depth = self.stack.len() as int;
        next.rank_of_digits_nonnegative((STACK_CAPACITY + 1) as nat);
        assert(forall|i: int| 0 <= i < depth ==> self.digit(i) == next.digit(i));
        assert(next.digit(depth) < self.digit(depth));
        self.rank_is_lexicographic(next, depth, (STACK_CAPACITY + 1) as nat);
    }
}

/// The 16-bit value with the given high and low bytes.
pub open spec fn word(high: u8, low: u8) -> u16 {
    (high * 0x100 + low) as u16
}

/// The high byte of a 16-bit value.
pub open spec fn high_byte(value: u16) -> u8 {
    (value / 0x100) as u8
}

/// The low byte of a 16-bit value.
pub open spec fn low_byte(value: u16) -> u8 {
    (value % 0x100) as u8
}

/// An instruction that did not fault leaves the machine running.
pub open spec fn running(outcome: Result<(), Fault>) -> Result<Status, Fault> {
    match outcome {
        Ok(_) => Ok(Status::Running),
        Err(fault) => Err(fault),
    }
}

} // verus!
