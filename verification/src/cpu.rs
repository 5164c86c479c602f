use crate::fault::Fault;
use crate::machine::{
    high_byte, low_byte, MachineState, Status, FLAG_REGISTER, MEMORY_SIZE, REGISTER_COUNT,
    STACK_CAPACITY,
};
use crate::opcode::{decode, Instruction};
use vstd::prelude::*;

verus! {

/// The interpreter: it owns the whole state of the machine.
pub struct Cpu {
    registers: [u8; REGISTER_COUNT],
    position_in_memory: usize,
    memory: [u8; MEMORY_SIZE],
    stack: [u16; STACK_CAPACITY],
    stack_pointer: usize,
}

impl View for Cpu {
    type V = MachineState;

    /// The slots of the stack at and above the stack pointer are not part of
    /// the state.
    closed spec fn view(&self) -> MachineState {
        MachineState {
            registers: self.registers@,
            memory: self.memory@,
            position: self.position_in_memory as nat,
            stack: self.stack@.take(self.stack_pointer as int),
        }
    }
}

impl Cpu {
    #[verifier::type_invariant]
    spec fn well_formed(&self) -> bool {
        &&& self.stack_pointer <= STACK_CAPACITY
        &&& self.position_in_memory <= u16::MAX
    }

    /// A CPU with all registers and all of memory zero, the instruction
    /// pointer at 0 and an empty call stack.
    pub fn new() -> (cpu: Cpu)
        ensures
            cpu@ == MachineState::initial(),
    {
        let cpu = Cpu {
            registers: [0; REGISTER_COUNT],
            position_in_memory: 0,
            memory: [0; MEMORY_SIZE],
            stack: [0; STACK_CAPACITY],
            stack_pointer: 0,
        };
        assert(cpu@.registers =~= MachineState::initial().registers);
        assert(cpu@.memory =~= MachineState::initial().memory);
        assert(cpu@.stack =~= MachineState::initial().stack);
        cpu
    }

    /// The value of register `index`, or `OutOfBounds` when there is no such
    /// register.
    pub fn register(&self, index: usize) -> (value: Result<u8, Fault>)
        ensures
            value == (if index < REGISTER_COUNT {
                Ok::<u8, Fault>(self@.registers[index as int])
            } else {
                Err::<u8, Fault>(Fault::OutOfBounds)
            }),
            self@.valid(),
    {
        proof {
            use_type_invariant(self);
        }
        if index < REGISTER_COUNT {
            Ok(self.registers[index])
        } else {
            Err(Fault::OutOfBounds)
        }
    }

    /// Sets register `index` to `value`. Fails with `OutOfBounds`, changing
    /// nothing, when there is no such register.
    pub fn set_register(&mut self, index: usize, value: u8) -> (outcome: Result<(), Fault>)
        ensures
            outcome == (if index < REGISTER_COUNT {
                Ok::<(), Fault>(())
            } else {
                Err::<(), Fault>(Fault::OutOfBounds)
            }),
            final(self)@ == (if index < REGISTER_COUNT {
                MachineState {
                    registers: old(self)@.registers.update(index as int, value),
                    ..old(self)@
                }
            } else {
                old(self)@
            }),
            final(self)@.valid(),
    {
        proof {
            use_type_invariant(&*self);
        }
        if index < REGISTER_COUNT {
            self.registers[index] = value;
            Ok(())
        } else {
            Err(Fault::OutOfBounds)
        }
    }

    /// The byte at `address`, or `OutOfBounds` when the address lies outside
    /// memory.
    pub fn read_memory(&self, address: usize) -> (value: Result<u8, Fault>)
        ensures
            value == (if address < MEMORY_SIZE {
                Ok::<u8, Fault>(self@.memory[address as int])
            } else {
                Err::<u8, Fault>(Fault::OutOfBounds)
            }),
            self@.valid(),
    {
        proof {
            use_type_invariant(self);
        }
        if address < MEMORY_SIZE {
            Ok(self.memory[address])
        } else {
            Err(Fault::OutOfBounds)
        }
    }

    /// Sets the byte at `address` to `value`. Fails with `OutOfBounds`,
    /// changing nothing, when the address lies outside memory.
    pub fn write_memory(&mut self, address: usize, value: u8) -> (outcome: Result<(), Fault>)
        ensures
            outcome == (if address < MEMORY_SIZE {
                Ok::<(), Fault>(())
            } else {
                Err::<(), Fault>(Fault::OutOfBounds)
            }),
            final(self)@ == (if address < MEMORY_SIZE {
                MachineState { memory: old(self)@.memory.update(address as int, value), ..old(self)@ }
            } else {
                old(self)@
            }),
            final(self)@.valid(),
    {
        proof {
            use_type_invariant(&*self);
        }
        if address < MEMORY_SIZE {
            self.memory[address] = value;
            Ok(())
        } else {
            Err(Fault::OutOfBounds)
        }
    }

    /// Stores `opcode` at `address`, high byte first. Fails with
    /// `OutOfBounds`, changing nothing, when one of the two bytes would lie
    /// outside memory.
    pub fn write_opcode(&mut self, address: usize, opcode: u16) -> (outcome: Result<(), Fault>)
        ensures
            outcome == (if address + 1 < MEMORY_SIZE {
                Ok::<(), Fault>(())
            } else {
                Err::<(), Fault>(Fault::OutOfBounds)
            }),
            final(self)@ == (if address + 1 < MEMORY_SIZE {
                MachineState {
                    memory: old(self)@.memory.update(address as int, high_byte(opcode)).update(
                        address + 1,
                        low_byte(opcode),
                    ),
                    ..old(self)@
                }
            } else {
                old(self)@
            }),
            address + 1 < MEMORY_SIZE ==> (MachineState {
                position: address as nat,
                ..final(self)@
            }).fetch() == Ok::<u16, Fault>(opcode),
            final(self)@.valid(),
    {
        proof {
            use_type_invariant(&*self);
        }
        if address >= MEMORY_SIZE - 1 {
            return Err(Fault::OutOfBounds);
        }
        assert(opcode >> 8 == opcode / 0x100) by (bit_vector);
        assert(opcode & 0xFF == opcode % 0x100) by (bit_vector);
        self.memory[address] = (opcode >> 8) as u8;
        self.memory[address + 1] = (opcode & 0xFF) as u8;
        Ok(())
    }

    /// The instruction pointer.
    pub fn position_in_memory(&self) -> (position: usize)
        ensures
            position == self@.position,
            self@.valid(),
    {
        proof {
            use_type_invariant(self);
        }
        self.position_in_memory
    }

    /// Moves the instruction pointer to `position`.
    pub fn set_position(&mut self, position: u16)
        ensures
            final(self)@ == (MachineState { position: position as nat, ..old(self)@ }),
            final(self)@.valid(),
    {
        proof {
            use_type_invariant(&*self);
        }
        self.position_in_memory = position as usize;
    }

    /// The number of return addresses on the call stack.
    pub fn stack_pointer(&self) -> (depth: usize)
        ensures
            depth == self@.stack.len(),
            self@.valid(),
    {
        proof {
            use_type_invariant(self);
        }
        self.stack_pointer
    }

    /// The return address at `level` of the call stack, level 0 being the
    /// oldest, or `None` when the stack holds no such level.
    pub fn return_address(&self, level: usize) -> (address: Option<u16>)
        ensures
            address == (if level < self@.stack.len() {
                Some(self@.stack[level as int])
            } else {
                None
            }),
            self@.valid(),
    {
        proof {
            use_type_invariant(self);
        }
        if level < self.stack_pointer {
            Some(self.stack[level])
        } else {
            None
        }
    }

    /// The opcode at the instruction pointer, high byte first, or
    /// `OutOfBounds` when one of its two bytes lies outside memory.
    pub fn read_opcode(&self) -> (fetched: Result<u16, Fault>)
        ensures
            fetched == self@.fetch(),
            self@.valid(),
    {
        proof {
            use_type_invariant(self);
        }
        let p: usize = self.position_in_memory;
        if p >= MEMORY_SIZE - 1 {
            return Err(Fault::OutOfBounds);
        }
        let op_byte1: u16 = self.memory[p] as u16;
        let op_byte2: u16 = self.memory[p + 1] as u16;
        assert(op_byte1 << 8 | op_byte2 == op_byte1 * 0x100 + op_byte2) by (bit_vector)
            requires
                op_byte1 < 0x100,
                op_byte2 < 0x100,
        ;
        Ok(op_byte1 << 8 | op_byte2)
    }

    /// Adds register `y` to register `x`, wrapping at 256, and then sets the
    /// flag register to 1 if the sum did not fit in a byte and to 0 if it
    /// did. Fails with `OutOfBounds`, changing nothing, when `x` or `y` is no
    /// register index.
    pub fn add_xy(&mut self, x: u8, y: u8) -> (outcome: Result<(), Fault>)
        ensures
            final(self)@ == old(self)@.add_xy(x, y).0,
            outcome == old(self)@.add_xy(x, y).1,
            outcome is Ok <==> x < REGISTER_COUNT && y < REGISTER_COUNT,
            outcome is Ok && x != FLAG_REGISTER ==> final(self)@.registers[x as int] == (old(
                self,
            )@.registers[x as int] + old(self)@.registers[y as int]) % 0x100,
            outcome is Ok ==> final(self)@.registers[FLAG_REGISTER as int] == (if old(
                self,
            )@.registers[x as int] + old(self)@.registers[y as int] > u8::MAX {
                1u8
            } else {
                0u8
            }),
            final(self)@.valid(),
    {
        proof {
            use_type_invariant(&*self);
        }
        if x as usize >= REGISTER_COUNT || y as usize >= REGISTER_COUNT {
            return Err(Fault::OutOfBounds);
        }
        let arg1: u8 = self.registers[x as usize];
        let arg2: u8 = self.registers[y as usize];
        let sum: u16 = arg1 as u16 + arg2 as u16;
        let overflow: bool = sum > 0xFF;
        self.registers[x as usize] = (sum % 0x100) as u8;
        if overflow {
            self.registers[FLAG_REGISTER] = 1;
        } else {
            self.registers[FLAG_REGISTER] = 0;
        }
        assert(self@.registers =~= old(self)@.add_xy(x, y).0.registers);
        Ok(())
    }

    /// Pushes the instruction pointer onto the call stack and continues at
    /// `addr`. Fails with `StackOverflow`, changing nothing, when the stack
    /// already holds `STACK_CAPACITY` return addresses.
    pub fn call(&mut self, addr: u16) -> (outcome: Result<(), Fault>)
        ensures
            final(self)@ == old(self)@.call(addr).0,
            outcome == old(self)@.call(addr).1,
            outcome == Err::<(), Fault>(Fault::StackOverflow) <==> old(self)@.stack.len()
                >= STACK_CAPACITY,
            outcome is Ok <==> old(self)@.stack.len() < STACK_CAPACITY,
            final(self)@.valid(),
    {
        proof {
            use_type_invariant(&*self);
        }
        let sp: usize = self.stack_pointer;
        if sp >= STACK_CAPACITY {
            return Err(Fault::StackOverflow);
        }
        self.stack[sp] = self.position_in_memory as u16;
        self.stack_pointer = sp + 1;
        self.position_in_memory = addr as usize;
        assert(self@.stack =~= old(self)@.call(addr).0.stack);
        Ok(())
    }

    /// Pops the newest return address into the instruction pointer. Fails
    /// with `StackUnderflow`, changing nothing, when the stack is empty.
    pub fn ret(&mut self) -> (outcome: Result<(), Fault>)
        ensures
            final(self)@ == old(self)@.ret().0,
            outcome == old(self)@.ret().1,
            outcome == Err::<(), Fault>(Fault::StackUnderflow) <==> old(self)@.stack.len() == 0,
            outcome is Ok <==> old(self)@.stack.len() > 0,
            final(self)@.valid(),
    {
        proof {
            use_type_invariant(&*self);
        }
        if self.stack_pointer == 0 {
            return Err(Fault::StackUnderflow);
        }
        self.stack_pointer = self.stack_pointer - 1;
        let call_addr: u16 = self.stack[self.stack_pointer];
        self.position_in_memory = call_addr as usize;
        assert(self@.stack =~= old(self)@.ret().0.stack);
        Ok(())
    }

    /// Applies one decoded instruction. The instruction pointer is taken to
    /// stand behind the instruction already.
    pub fn execute(&mut self, instruction: Instruction) -> (outcome: Result<Status, Fault>)
        ensures
            final(self)@ == old(self)@.execute(instruction).0,
            outcome == old(self)@.execute(instruction).1,
            final(self)@.valid(),
    {
        proof {
            use_type_invariant(&*self);
        }
        match instruction {
            Instruction::Halt => Ok(Status::Halted),
            Instruction::Return => match self.ret() {
                Ok(_) => Ok(Status::Running),
                Err(fault) => Err(fault),
            },
            Instruction::Call { target } => match self.call(target) {
                Ok(_) => Ok(Status::Running),
                Err(fault) => Err(fault),
            },
            Instruction::Add { x, y } => match self.add_xy(x, y) {
                Ok(_) => Ok(Status::Running),
                Err(fault) => Err(fault),
            },
        }
    }

    /// Performs one instruction cycle: fetches the opcode at the instruction
    /// pointer, advances the pointer by 2, decodes the opcode and executes
    /// the instruction.
    pub fn step(&mut self) -> (outcome: Result<Status, Fault>)
        ensures
            final(self)@ == old(self)@.step().0,
            outcome == old(self)@.step().1,
            final(self)@.valid(),
    {
        proof {
            use_type_invariant(&*self);
        }
        let opcode: u16 = match self.read_opcode() {
            Ok(opcode) => opcode,
            Err(fault) => {
                return Err(fault);
            },
        };
        self.position_in_memory = self.position_in_memory + 2;
        assert(self@ == old(self)@.advance());
        match decode(opcode) {
            Ok(instruction) => self.execute(instruction),
            Err(fault) => Err(fault),
        }
    }

    /// Performs instruction cycles until a halt instruction or a fault.
    /// Returns `Ok` after a halt and the fault otherwise; the state stays as
    /// the last cycle left it.
    pub fn run(&mut self) -> (outcome: Result<(), Fault>)
        ensures
            final(self)@ == old(self)@.run().0,
            outcome == old(self)@.run().1,
            final(self)@.valid(),
    {
        proof {
            use_type_invariant(&*self);
        }
        loop
            invariant
                self@.valid(),
                self@.run() == old(self)@.run(),
            decreases self@.rank(),
        {
            let ghost before = self@;
            proof {
                before.step_preserves_valid();
                if before.step().1 == Ok::<Status, Fault>(Status::Running) {
                    before.step_decreases_rank();
                }
            }
            match self.step() {
                Ok(Status::Running) => {},
                Ok(Status::Halted) => {
                    return Ok(());
                },
                Err(fault) => {
                    return Err(fault);
                },
            }
        }
    }
}

} // verus!
