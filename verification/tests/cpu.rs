use nibble_cpu::{Cpu, Fault, Instruction, Status, MEMORY_SIZE, REGISTER_COUNT, STACK_CAPACITY};

fn load(cpu: &mut Cpu, program: &[(usize, u16)]) {
    for &(address, opcode) in program {
        assert_eq!(cpu.write_opcode(address, opcode), Ok(()));
    }
}

#[test]
fn new_cpu_is_zeroed() {
    let cpu = Cpu::new();
    for index in 0..REGISTER_COUNT {
        assert_eq!(cpu.register(index), Ok(0));
    }
    for address in 0..MEMORY_SIZE {
        assert_eq!(cpu.read_memory(address), Ok(0));
    }
    assert_eq!(cpu.position_in_memory(), 0);
    assert_eq!(cpu.stack_pointer(), 0);
    assert_eq!(cpu.return_address(0), None);
}

#[test]
fn registers_are_bounds_checked() {
    let mut cpu = Cpu::new();
    assert_eq!(cpu.set_register(15, 7), Ok(()));
    assert_eq!(cpu.register(15), Ok(7));
    assert_eq!(cpu.set_register(16, 7), Err(Fault::OutOfBounds));
    assert_eq!(cpu.register(16), Err(Fault::OutOfBounds));
    assert_eq!(cpu.register(usize::MAX), Err(Fault::OutOfBounds));
    for index in 0..15 {
        assert_eq!(cpu.register(index), Ok(0));
    }
}

#[test]
fn memory_is_bounds_checked() {
    let mut cpu = Cpu::new();
    assert_eq!(cpu.write_memory(4095, 0xAB), Ok(()));
    assert_eq!(cpu.read_memory(4095), Ok(0xAB));
    assert_eq!(cpu.read_memory(4094), Ok(0));
    assert_eq!(cpu.write_memory(4096, 1), Err(Fault::OutOfBounds));
    assert_eq!(cpu.read_memory(4096), Err(Fault::OutOfBounds));
}

#[test]
fn opcodes_are_stored_high_byte_first() {
    let mut cpu = Cpu::new();
    assert_eq!(cpu.write_opcode(0x100, 0x8014), Ok(()));
    assert_eq!(cpu.read_memory(0x100), Ok(0x80));
    assert_eq!(cpu.read_memory(0x101), Ok(0x14));
    assert_eq!(cpu.read_memory(0x0FF), Ok(0));
    assert_eq!(cpu.read_memory(0x102), Ok(0));
    assert_eq!(cpu.write_opcode(4094, 0x1234), Ok(()));
    assert_eq!(cpu.read_memory(4094), Ok(0x12));
    assert_eq!(cpu.read_memory(4095), Ok(0x34));
    assert_eq!(cpu.write_opcode(4095, 0xFFFF), Err(Fault::OutOfBounds));
    assert_eq!(cpu.read_memory(4095), Ok(0x34));
    assert_eq!(cpu.write_opcode(usize::MAX, 0xFFFF), Err(Fault::OutOfBounds));
}

#[test]
fn read_opcode_combines_two_bytes() {
    let mut cpu = Cpu::new();
    assert_eq!(cpu.write_memory(0x200, 0x21), Ok(()));
    assert_eq!(cpu.write_memory(0x201, 0x00), Ok(()));
    cpu.set_position(0x200);
    assert_eq!(cpu.read_opcode(), Ok(0x2100));
    assert_eq!(cpu.position_in_memory(), 0x200);
    assert_eq!(cpu.write_memory(0x200, 0xFF), Ok(()));
    assert_eq!(cpu.write_memory(0x201, 0xFE), Ok(()));
    assert_eq!(cpu.read_opcode(), Ok(0xFFFE));
}

#[test]
fn read_opcode_needs_both_bytes_in_memory() {
    let mut cpu = Cpu::new();
    assert_eq!(cpu.write_opcode(4094, 0x8014), Ok(()));
    cpu.set_position(4094);
    assert_eq!(cpu.read_opcode(), Ok(0x8014));
    cpu.set_position(4095);
    assert_eq!(cpu.read_opcode(), Err(Fault::OutOfBounds));
    cpu.set_position(4096);
    assert_eq!(cpu.read_opcode(), Err(Fault::OutOfBounds));
    cpu.set_position(u16::MAX);
    assert_eq!(cpu.read_opcode(), Err(Fault::OutOfBounds));
}

#[test]
fn add_without_carry() {
    let mut cpu = Cpu::new();
    cpu.set_register(0, 5).unwrap();
    cpu.set_register(1, 10).unwrap();
    cpu.set_register(15, 1).unwrap();
    assert_eq!(cpu.add_xy(0, 1), Ok(()));
    assert_eq!(cpu.register(0), Ok(15));
    assert_eq!(cpu.register(1), Ok(10));
    assert_eq!(cpu.register(15), Ok(0));
}

#[test]
fn add_with_carry_wraps() {
    let mut cpu = Cpu::new();
    cpu.set_register(2, 200).unwrap();
    cpu.set_register(3, 100).unwrap();
    assert_eq!(cpu.add_xy(2, 3), Ok(()));
    assert_eq!(cpu.register(2), Ok(44));
    assert_eq!(cpu.register(3), Ok(100));
    assert_eq!(cpu.register(15), Ok(1));
}

#[test]
fn add_at_the_carry_boundary() {
    let mut cpu = Cpu::new();
    cpu.set_register(0, 255).unwrap();
    cpu.set_register(1, 0).unwrap();
    assert_eq!(cpu.add_xy(0, 1), Ok(()));
    assert_eq!(cpu.register(0), Ok(255));
    assert_eq!(cpu.register(15), Ok(0));
    cpu.set_register(1, 1).unwrap();
    assert_eq!(cpu.add_xy(0, 1), Ok(()));
    assert_eq!(cpu.register(0), Ok(0));
    assert_eq!(cpu.register(15), Ok(1));
    cpu.set_register(0, 255).unwrap();
    cpu.set_register(1, 255).unwrap();
    assert_eq!(cpu.add_xy(0, 1), Ok(()));
    assert_eq!(cpu.register(0), Ok(254));
    assert_eq!(cpu.register(15), Ok(1));
}

#[test]
fn add_overwrites_an_earlier_carry() {
    let mut cpu = Cpu::new();
    cpu.set_register(0, 250).unwrap();
    cpu.set_register(1, 10).unwrap();
    assert_eq!(cpu.add_xy(0, 1), Ok(()));
    assert_eq!(cpu.register(15), Ok(1));
    assert_eq!(cpu.add_xy(0, 1), Ok(()));
    assert_eq!(cpu.register(0), Ok(14));
    assert_eq!(cpu.register(15), Ok(0));
}

#[test]
fn add_register_to_itself() {
    let mut cpu = Cpu::new();
    cpu.set_register(4, 130).unwrap();
    assert_eq!(cpu.add_xy(4, 4), Ok(()));
    assert_eq!(cpu.register(4), Ok(4));
    assert_eq!(cpu.register(15), Ok(1));
}

#[test]
fn add_reads_the_flag_register_as_an_operand() {
    let mut cpu = Cpu::new();
    cpu.set_register(0, 5).unwrap();
    cpu.set_register(15, 9).unwrap();
    assert_eq!(cpu.add_xy(0, 15), Ok(()));
    assert_eq!(cpu.register(0), Ok(14));
    assert_eq!(cpu.register(15), Ok(0));
}

#[test]
fn add_into_the_flag_register_leaves_the_carry_there() {
    let mut cpu = Cpu::new();
    cpu.set_register(15, 5).unwrap();
    cpu.set_register(1, 10).unwrap();
    assert_eq!(cpu.add_xy(15, 1), Ok(()));
    assert_eq!(cpu.register(15), Ok(0));
    cpu.set_register(15, 200).unwrap();
    cpu.set_register(1, 100).unwrap();
    assert_eq!(cpu.add_xy(15, 1), Ok(()));
    assert_eq!(cpu.register(15), Ok(1));
}

#[test]
fn add_for_all_byte_pairs() {
    for a in 0..=255u16 {
        for b in 0..=255u16 {
            let mut cpu = Cpu::new();
            cpu.set_register(7, a as u8).unwrap();
            cpu.set_register(9, b as u8).unwrap();
            assert_eq!(cpu.add_xy(7, 9), Ok(()));
            assert_eq!(cpu.register(7), Ok(((a + b) % 256) as u8));
            assert_eq!(cpu.register(15), Ok(if a + b > 255 { 1 } else { 0 }));
        }
    }
}

#[test]
fn add_rejects_indices_that_are_no_registers() {
    let mut cpu = Cpu::new();
    cpu.set_register(0, 5).unwrap();
    cpu.set_register(15, 3).unwrap();
    assert_eq!(cpu.add_xy(16, 0), Err(Fault::OutOfBounds));
    assert_eq!(cpu.add_xy(0, 16), Err(Fault::OutOfBounds));
    assert_eq!(cpu.add_xy(255, 255), Err(Fault::OutOfBounds));
    assert_eq!(cpu.register(0), Ok(5));
    assert_eq!(cpu.register(15), Ok(3));
}

#[test]
fn single_add_instruction() {
    let mut cpu = Cpu::new();
    cpu.set_register(0, 5).unwrap();
    cpu.set_register(1, 10).unwrap();
    let instruction = nibble_cpu::decode(0x8014).unwrap();
    assert_eq!(cpu.execute(instruction), Ok(Status::Running));
    assert_eq!(cpu.register(0), Ok(15));
    assert_eq!(cpu.register(15), Ok(0));
}

#[test]
fn call_pushes_the_position_and_jumps() {
    let mut cpu = Cpu::new();
    cpu.set_position(0x002);
    assert_eq!(cpu.call(0x100), Ok(()));
    assert_eq!(cpu.position_in_memory(), 0x100);
    assert_eq!(cpu.stack_pointer(), 1);
    assert_eq!(cpu.return_address(0), Some(0x002));
    assert_eq!(cpu.return_address(1), None);
}

#[test]
fn call_then_return_restores_the_position() {
    let mut cpu = Cpu::new();
    cpu.set_position(0x2A6);
    assert_eq!(cpu.call(0x100), Ok(()));
    assert_eq!(cpu.ret(), Ok(()));
    assert_eq!(cpu.position_in_memory(), 0x2A6);
    assert_eq!(cpu.stack_pointer(), 0);
}

#[test]
fn nested_calls_and_returns() {
    let mut cpu = Cpu::new();
    cpu.set_position(0x010);
    for k in 0..STACK_CAPACITY {
        assert_eq!(cpu.stack_pointer(), k);
        assert_eq!(cpu.call(0x100 + 2 * k as u16), Ok(()));
    }
    assert_eq!(cpu.stack_pointer(), STACK_CAPACITY);
    assert_eq!(cpu.return_address(0), Some(0x010));
    assert_eq!(cpu.return_address(1), Some(0x100));
    assert_eq!(cpu.return_address(15), Some(0x100 + 28));
    for k in (0..STACK_CAPACITY).rev() {
        assert_eq!(cpu.ret(), Ok(()));
        assert_eq!(cpu.stack_pointer(), k);
    }
    assert_eq!(cpu.position_in_memory(), 0x010);
}

#[test]
fn seventeenth_call_overflows() {
    let mut cpu = Cpu::new();
    for _ in 0..16 {
        assert_eq!(cpu.call(0x100), Ok(()));
    }
    cpu.set_position(0x222);
    assert_eq!(cpu.call(0x300), Err(Fault::StackOverflow));
    assert_eq!(cpu.stack_pointer(), 16);
    assert_eq!(cpu.position_in_memory(), 0x222);
    assert_eq!(cpu.return_address(15), Some(0x100));
}

#[test]
fn return_on_empty_stack_underflows() {
    let mut cpu = Cpu::new();
    cpu.set_position(0x222);
    assert_eq!(cpu.ret(), Err(Fault::StackUnderflow));
    assert_eq!(cpu.stack_pointer(), 0);
    assert_eq!(cpu.position_in_memory(), 0x222);
}

#[test]
fn execute_each_instruction() {
    let mut cpu = Cpu::new();
    cpu.set_position(0x004);
    assert_eq!(cpu.execute(Instruction::Halt), Ok(Status::Halted));
    assert_eq!(cpu.position_in_memory(), 0x004);
    assert_eq!(cpu.execute(Instruction::Return), Err(Fault::StackUnderflow));
    assert_eq!(cpu.execute(Instruction::Call { target: 0x300 }), Ok(Status::Running));
    assert_eq!(cpu.position_in_memory(), 0x300);
    assert_eq!(cpu.execute(Instruction::Return), Ok(Status::Running));
    assert_eq!(cpu.position_in_memory(), 0x004);
    assert_eq!(cpu.execute(Instruction::Add { x: 16, y: 0 }), Err(Fault::OutOfBounds));
    for _ in 0..16 {
        assert_eq!(cpu.execute(Instruction::Call { target: 0x300 }), Ok(Status::Running));
    }
    assert_eq!(cpu.execute(Instruction::Call { target: 0x300 }), Err(Fault::StackOverflow));
}

#[test]
fn step_advances_before_it_executes() {
    let mut cpu = Cpu::new();
    load(&mut cpu, &[(0x000, 0x8014), (0x002, 0x2100), (0x100, 0x00EE)]);
    cpu.set_register(0, 5).unwrap();
    cpu.set_register(1, 10).unwrap();
    assert_eq!(cpu.step(), Ok(Status::Running));
    assert_eq!(cpu.position_in_memory(), 0x002);
    assert_eq!(cpu.register(0), Ok(15));
    assert_eq!(cpu.step(), Ok(Status::Running));
    assert_eq!(cpu.position_in_memory(), 0x100);
    assert_eq!(cpu.return_address(0), Some(0x004));
    assert_eq!(cpu.step(), Ok(Status::Running));
    assert_eq!(cpu.position_in_memory(), 0x004);
    assert_eq!(cpu.stack_pointer(), 0);
    assert_eq!(cpu.step(), Ok(Status::Halted));
    assert_eq!(cpu.position_in_memory(), 0x006);
}

#[test]
fn step_reports_an_unknown_opcode() {
    let mut cpu = Cpu::new();
    load(&mut cpu, &[(0x000, 0x8015)]);
    cpu.set_register(0, 5).unwrap();
    assert_eq!(cpu.step(), Err(Fault::DecodeFault(0x8015)));
    assert_eq!(cpu.position_in_memory(), 0x002);
    assert_eq!(cpu.register(0), Ok(5));
    assert_eq!(cpu.stack_pointer(), 0);
}

#[test]
fn step_outside_memory_changes_nothing() {
    let mut cpu = Cpu::new();
    cpu.set_position(4095);
    assert_eq!(cpu.step(), Err(Fault::OutOfBounds));
    assert_eq!(cpu.position_in_memory(), 4095);
}

#[test]
fn run_halts_at_once_on_zeroed_memory() {
    let mut cpu = Cpu::new();
    cpu.set_register(3, 77).unwrap();
    assert_eq!(cpu.run(), Ok(()));
    assert_eq!(cpu.position_in_memory(), 2);
    assert_eq!(cpu.stack_pointer(), 0);
    assert_eq!(cpu.register(3), Ok(77));
    for index in 0..REGISTER_COUNT {
        if index != 3 {
            assert_eq!(cpu.register(index), Ok(0));
        }
    }
    for address in 0..MEMORY_SIZE {
        assert_eq!(cpu.read_memory(address), Ok(0));
    }
}

#[test]
fn run_calls_a_subroutine_twice() {
    let mut cpu = Cpu::new();
    cpu.set_register(0, 5).unwrap();
    cpu.set_register(1, 10).unwrap();
    load(
        &mut cpu,
        &[
            (0x000, 0x2100),
            (0x002, 0x2100),
            (0x004, 0x0000),
            (0x100, 0x8014),
            (0x102, 0x8014),
            (0x104, 0x00EE),
        ],
    );
    assert_eq!(cpu.run(), Ok(()));
    assert_eq!(cpu.register(0), Ok(45));
    assert_eq!(cpu.register(1), Ok(10));
    assert_eq!(cpu.register(15), Ok(0));
    assert_eq!(cpu.position_in_memory(), 0x006);
    assert_eq!(cpu.stack_pointer(), 0);
}

#[test]
fn run_from_a_preset_position() {
    let mut cpu = Cpu::new();
    cpu.set_register(0, 5).unwrap();
    cpu.set_register(1, 10).unwrap();
    load(&mut cpu, &[(0x000, 0x8014), (0x200, 0x8014), (0x202, 0x8014), (0x204, 0x0000)]);
    cpu.set_position(0x200);
    assert_eq!(cpu.run(), Ok(()));
    assert_eq!(cpu.register(0), Ok(25));
    assert_eq!(cpu.position_in_memory(), 0x206);
}

#[test]
fn run_stops_at_an_unknown_opcode() {
    let mut cpu = Cpu::new();
    cpu.set_register(0, 5).unwrap();
    cpu.set_register(1, 10).unwrap();
    load(&mut cpu, &[(0x000, 0x8014), (0x002, 0x1234), (0x004, 0x8014)]);
    assert_eq!(cpu.run(), Err(Fault::DecodeFault(0x1234)));
    assert_eq!(cpu.register(0), Ok(15));
    assert_eq!(cpu.position_in_memory(), 0x004);
}

#[test]
fn run_overflows_on_endless_recursion() {
    let mut cpu = Cpu::new();
    load(&mut cpu, &[(0x000, 0x2000)]);
    assert_eq!(cpu.run(), Err(Fault::StackOverflow));
    assert_eq!(cpu.stack_pointer(), 16);
    assert_eq!(cpu.position_in_memory(), 0x002);
    for level in 0..16 {
        assert_eq!(cpu.return_address(level), Some(0x002));
    }
}

#[test]
fn run_underflows_on_a_return_without_a_call() {
    let mut cpu = Cpu::new();
    load(&mut cpu, &[(0x000, 0x00EE)]);
    assert_eq!(cpu.run(), Err(Fault::StackUnderflow));
    assert_eq!(cpu.stack_pointer(), 0);
    assert_eq!(cpu.position_in_memory(), 0x002);
}

#[test]
fn run_off_the_end_of_memory() {
    let mut cpu = Cpu::new();
    cpu.set_register(0, 5).unwrap();
    cpu.set_register(1, 10).unwrap();
    for address in (0..MEMORY_SIZE).step_by(2) {
        assert_eq!(cpu.write_opcode(address, 0x8014), Ok(()));
    }
    assert_eq!(cpu.run(), Err(Fault::OutOfBounds));
    assert_eq!(cpu.position_in_memory(), 4096);
    assert_eq!(cpu.register(0), Ok(((5 + 2048 * 10) % 256) as u8));
}

#[test]
fn run_returns_behind_nested_calls() {
    let mut cpu = Cpu::new();
    cpu.set_register(0, 1).unwrap();
    cpu.set_register(1, 1).unwrap();
    load(
        &mut cpu,
        &[
            (0x000, 0x2100),
            (0x002, 0x8014),
            (0x004, 0x0000),
            (0x100, 0x2200),
            (0x102, 0x8014),
            (0x104, 0x00EE),
            (0x200, 0x2300),
            (0x202, 0x8014),
            (0x204, 0x00EE),
            (0x300, 0x8014),
            (0x302, 0x00EE),
        ],
    );
    for _ in 0..3 {
        assert_eq!(cpu.step(), Ok(Status::Running));
    }
    assert_eq!(cpu.stack_pointer(), 3);
    assert_eq!(cpu.return_address(0), Some(0x002));
    assert_eq!(cpu.return_address(1), Some(0x102));
    assert_eq!(cpu.return_address(2), Some(0x202));
    assert_eq!(cpu.run(), Ok(()));
    assert_eq!(cpu.stack_pointer(), 0);
    assert_eq!(cpu.position_in_memory(), 0x006);
    assert_eq!(cpu.register(0), Ok(5));
}
