use hrm::machine::{Instruction, Machine, MachineRuntimeError};
use hrm::parser::InstructionParser;

fn triangular_program() -> Vec<Instruction> {
    vec![
        Instruction::CopyFrom(9),
        Instruction::CopyTo(1),
        Instruction::CopyTo(2),
        Instruction::BumpPlus(1),
        Instruction::Inbox,
        Instruction::CopyTo(2),
        Instruction::Label(1),
        Instruction::Sub(1),
        Instruction::CopyTo(3),
        Instruction::Add(2),
        Instruction::CopyTo(2),
        Instruction::CopyFrom(3),
        Instruction::JumpIfZero(2),
        Instruction::Jump(1),
        Instruction::Label(2),
        Instruction::CopyFrom(2),
        Instruction::Outbox,
    ]
}

#[test]
fn test_sum() {
    // calculates 1 + 2 + 3 + 4 + 5 + ... + n where n comes from inbox
    let program = r"
copyfrom 9
copyto 1
copyto 2
bump+ 1
inbox
copyto 2
label 1
sub 1
copyto 3
add 2
copyto 2
copyfrom 3
jumpzero 2
jump 1
label 2
copyfrom 2
outbox";

    let parser = InstructionParser::new_from_str(program);
    let mut machine = parser.parse().unwrap();
    let outbox = machine.run(&[5]).unwrap();
    assert_eq!(1, outbox.len());
    assert_eq!(15, outbox[0]);
}

#[test]
fn triangular_sum_from_instructions() {
    let mut machine = Machine::new(triangular_program(), 10, false);
    assert_eq!(machine.registers()[9], Some(0));
    assert_eq!(machine.run(&[5]).unwrap(), vec![15]);
    assert_eq!(machine.run(&[1]).unwrap(), vec![1]);
    assert_eq!(machine.run(&[10]).unwrap(), vec![55]);
}

#[test]
fn fresh_machines_agree() {
    let mut a = Machine::new(triangular_program(), 10, false);
    let mut b = Machine::new(triangular_program(), 10, true);
    let out_a = a.run(&[7]).unwrap();
    let out_b = b.run(&[7]).unwrap();
    assert_eq!(out_a, vec![28]);
    assert_eq!(out_a, out_b);
    assert_eq!(a.get_instruction_count(), b.get_instruction_count());
    assert!(a.get_instruction_count() > 0);
}

#[test]
fn registers_carry_over_between_runs() {
    // inbox; jumpzero 1; copyto 0; label 1; copyfrom 0; outbox
    let program = vec![
        Instruction::Inbox,
        Instruction::JumpIfZero(1),
        Instruction::CopyTo(0),
        Instruction::Label(1),
        Instruction::CopyFrom(0),
        Instruction::Outbox,
    ];
    let mut fresh = Machine::new(program.clone(), 2, false);
    assert_eq!(fresh.run(&[0]), Err(MachineRuntimeError::EmptyRegister));

    let mut machine = Machine::new(program, 2, false);
    assert_eq!(machine.run(&[7]).unwrap(), vec![7]);
    assert_eq!(machine.get_instruction_count(), 6);
    // The second run jumps over the store and reads what the first run left.
    assert_eq!(machine.run(&[0]).unwrap(), vec![7]);
    assert_eq!(machine.get_instruction_count(), 5);
    assert_eq!(machine.registers()[0], Some(7));
}

#[test]
fn buffer_starts_at_zero_every_run() {
    let mut machine = Machine::new(vec![Instruction::Outbox], 1, false);
    assert_eq!(machine.buffer(), Some(0));
    assert_eq!(machine.run(&[]).unwrap(), vec![0]);
    assert_eq!(machine.buffer(), None);
    assert_eq!(machine.run(&[]).unwrap(), vec![0]);
    assert_eq!(machine.program_counter(), 1);
}

#[test]
fn jump_goes_to_first_of_two_labels() {
    let program = vec![
        Instruction::Jump(5),
        Instruction::Label(5),
        Instruction::CopyFrom(9),
        Instruction::Outbox,
        Instruction::Jump(6),
        Instruction::Label(5),
        Instruction::BumpPlus(9),
        Instruction::Outbox,
        Instruction::Label(6),
    ];
    let mut machine = Machine::new(program, 10, false);
    assert_eq!(machine.run(&[]).unwrap(), vec![0]);
    assert_eq!(machine.get_instruction_count(), 6);
}

#[test]
fn empty_inbox_fails() {
    let mut machine = Machine::new(vec![Instruction::Inbox, Instruction::Outbox], 10, false);
    assert_eq!(machine.run(&[]), Err(MachineRuntimeError::EmptyInbox));
    assert_eq!(machine.get_instruction_count(), 1);
}

#[test]
fn empty_register_fails() {
    let mut machine = Machine::new(vec![Instruction::CopyFrom(0), Instruction::Outbox], 10, false);
    assert_eq!(machine.run(&[]), Err(MachineRuntimeError::EmptyRegister));
}

#[test]
fn missing_label_fails() {
    let program = vec![Instruction::Label(1), Instruction::Jump(99), Instruction::Outbox];
    let mut machine = Machine::new(program, 10, false);
    assert_eq!(machine.run(&[]), Err(MachineRuntimeError::InvalidJumpAddress));
    assert_eq!(machine.program_counter(), 1);
}

#[test]
fn missing_label_is_fine_when_not_taken() {
    let program = vec![Instruction::Inbox, Instruction::JumpIfZero(99), Instruction::Outbox];
    let mut machine = Machine::new(program, 10, false);
    assert_eq!(machine.run(&[3]).unwrap(), vec![3]);
    assert_eq!(machine.run(&[0]), Err(MachineRuntimeError::InvalidJumpAddress));
}

#[test]
fn conditional_jumps_fall_through_by_one() {
    let program = vec![
        Instruction::Inbox,
        Instruction::JumpIfZero(7),
        Instruction::JumpIfNegative(7),
        Instruction::Outbox,
        Instruction::Label(7),
    ];
    let mut machine = Machine::new(program, 10, false);
    machine.reset();
    let inbox = [4];
    let mut consumed: usize = 0;
    let mut outbox: Vec<i32> = Vec::new();
    machine.step(&inbox, &mut consumed, &mut outbox).unwrap();
    assert_eq!(machine.program_counter(), 1);
    machine.step(&inbox, &mut consumed, &mut outbox).unwrap();
    assert_eq!(machine.program_counter(), 2);
    machine.step(&inbox, &mut consumed, &mut outbox).unwrap();
    assert_eq!(machine.program_counter(), 3);
    assert_eq!(machine.get_instruction_count(), 3);
    assert_eq!(consumed, 1);
    assert!(!machine.is_halted());
    assert_eq!(machine.run(&[4]).unwrap(), vec![4]);
}

#[test]
fn conditional_jumps_taken() {
    let program = vec![
        Instruction::Inbox,
        Instruction::JumpIfNegative(7),
        Instruction::Outbox,
        Instruction::Label(7),
    ];
    let mut machine = Machine::new(program.clone(), 10, false);
    assert_eq!(machine.run(&[-1]).unwrap(), Vec::<i32>::new());
    assert_eq!(machine.run(&[0]).unwrap(), vec![0]);
    let zero_program = vec![Instruction::JumpIfZero(3), Instruction::Outbox, Instruction::Label(3)];
    let mut machine = Machine::new(zero_program, 10, false);
    assert_eq!(machine.run(&[]).unwrap(), Vec::<i32>::new());
    assert_eq!(machine.get_instruction_count(), 2);
}

#[test]
fn outbox_empties_the_buffer() {
    let mut machine = Machine::new(vec![Instruction::Outbox, Instruction::Outbox], 10, false);
    assert_eq!(machine.run(&[]), Err(MachineRuntimeError::EmptyBuffer));
    let program = vec![Instruction::Outbox, Instruction::CopyTo(0)];
    let mut machine = Machine::new(program, 10, false);
    assert_eq!(machine.run(&[]), Err(MachineRuntimeError::EmptyBuffer));
    let program = vec![Instruction::Outbox, Instruction::JumpIfZero(0), Instruction::Label(0)];
    let mut machine = Machine::new(program, 10, false);
    assert_eq!(machine.run(&[]), Err(MachineRuntimeError::EmptyBuffer));
}

#[test]
fn register_index_past_the_end_fails() {
    let mut machine = Machine::new(vec![Instruction::CopyFrom(10)], 10, false);
    assert_eq!(machine.run(&[]), Err(MachineRuntimeError::RegisterIndexOutOfBounds));
    let mut machine = Machine::new(vec![Instruction::CopyTo(3)], 3, false);
    assert_eq!(machine.run(&[]), Err(MachineRuntimeError::RegisterIndexOutOfBounds));
    let mut machine = Machine::new(vec![Instruction::BumpPlus(u32::MAX)], 3, false);
    assert_eq!(machine.run(&[]), Err(MachineRuntimeError::RegisterIndexOutOfBounds));
}

#[test]
fn arithmetic_follows_the_table() {
    // inbox; copyto 0; inbox; sub 0; outbox  => second - first
    let program = vec![
        Instruction::Inbox,
        Instruction::CopyTo(0),
        Instruction::Inbox,
        Instruction::Sub(0),
        Instruction::Outbox,
    ];
    let mut machine = Machine::new(program, 10, false);
    assert_eq!(machine.run(&[10, 3]).unwrap(), vec![-7]);

    let program = vec![
        Instruction::Inbox,
        Instruction::CopyTo(0),
        Instruction::Inbox,
        Instruction::Mul(0),
        Instruction::Outbox,
        Instruction::Inbox,
        Instruction::Add(0),
        Instruction::Outbox,
        Instruction::BumpMinus(0),
        Instruction::Outbox,
        Instruction::BumpPlus(0),
        Instruction::BumpPlus(0),
        Instruction::Outbox,
    ];
    let mut machine = Machine::new(program, 10, false);
    assert_eq!(machine.run(&[6, 7, 100]).unwrap(), vec![42, 106, 5, 7]);
    assert_eq!(machine.registers()[0], Some(7));
    assert_eq!(machine.get_instruction_count(), 13);
}

#[test]
fn arithmetic_overflow_fails() {
    let program = vec![Instruction::Inbox, Instruction::CopyTo(0), Instruction::BumpPlus(0)];
    let mut machine = Machine::new(program, 10, false);
    assert_eq!(machine.run(&[i32::MAX]), Err(MachineRuntimeError::ArithmeticOverflow));
    assert_eq!(machine.registers()[0], Some(i32::MAX));

    let program = vec![Instruction::Inbox, Instruction::CopyTo(0), Instruction::Mul(0)];
    let mut machine = Machine::new(program, 10, false);
    assert_eq!(machine.run(&[65536]), Err(MachineRuntimeError::ArithmeticOverflow));

    let program = vec![Instruction::Inbox, Instruction::CopyTo(0), Instruction::BumpMinus(0)];
    let mut machine = Machine::new(program, 10, false);
    assert_eq!(machine.run(&[i32::MIN]), Err(MachineRuntimeError::ArithmeticOverflow));
}

#[test]
fn empty_program_halts_at_once() {
    let mut machine = Machine::new(Vec::new(), 1, false);
    assert!(machine.is_halted());
    assert_eq!(machine.run(&[1, 2]).unwrap(), Vec::<i32>::new());
    assert_eq!(machine.get_instruction_count(), 0);
    assert_eq!(machine.registers(), &vec![Some(0)]);
}

#[test]
fn new_machine_state() {
    let machine = Machine::new(vec![Instruction::Label(3)], 4, true);
    assert_eq!(machine.registers(), &vec![None, None, None, Some(0)]);
    assert_eq!(machine.buffer(), Some(0));
    assert_eq!(machine.program_counter(), 0);
    assert_eq!(machine.get_instruction_count(), 0);
    assert_eq!(machine.instructions(), &vec![Instruction::Label(3)]);
    assert!(machine.enable_logging);
}
