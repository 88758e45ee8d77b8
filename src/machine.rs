//! The instruction set, the machine and its fetch-execute loop.
use vstd::prelude::*;
use std::collections::HashMap;
use crate::semantics::{
    advance, buffer_value, execute, executed, fresh_machine, initial_registers, is_first_label,
    is_label_table, jump_target, lemma_first_label_unique, register_value, run_from, run_outcome,
    MachineView, RunState,
};

verus! {

broadcast use vstd::std_specs::hash::group_hash_axioms;

/// One instruction of the machine. Register operands and label identifiers
/// are plain unsigned numbers.
#[derive(Debug, Clone, Copy, PartialEq, Eq, Structural)]
pub enum Instruction {
    Inbox,
    Outbox,
    CopyFrom(u32),
    CopyTo(u32),
    Add(u32),
    Sub(u32),
    Mul(u32),
    BumpPlus(u32),
    BumpMinus(u32),
    Label(u32),
    Jump(u32),
    JumpIfZero(u32),
    JumpIfNegative(u32),
}

/// Why a run stopped before the program counter reached the end.
#[derive(Debug, Clone, Copy, PartialEq, Eq, Structural)]
pub enum MachineRuntimeError {
    /// A register operand names a slot past the end of the register file.
    RegisterIndexOutOfBounds,
    EmptyInbox,
    EmptyBuffer,
    EmptyRegister,
    InvalidJumpAddress,
    /// An arithmetic result does not fit in an `i32`.
    ArithmeticOverflow,
    /// The instruction counter would pass `i32::MAX`.
    InstructionCountOverflow,
}

/// A machine loaded with a program. The register file persists from one
/// run to the next; the buffer, program counter and instruction counter are
/// reset at the start of every run. The label table is built once, here.
pub struct Machine {
    instructions: Vec<Instruction>,
    register: Vec<Option<i32>>,
    buffer: Option<i32>,
    /// Whether a front end should show each step; it has no effect on a run.
    pub enable_logging: bool,
    program_counter: usize,
    instruction_count: i32,
    num_to_label_map: HashMap<u32, usize>,
}

impl View for Machine {
    type V = MachineView;

    closed spec fn view(&self) -> MachineView {
        MachineView {
            program: self.instructions@,
            registers: self.register@,
            buffer: self.buffer,
            pc: self.program_counter as nat,
            count: self.instruction_count as nat,
            enable_logging: self.enable_logging,
        }
    }
}

impl Machine {
    /// The invariant of a machine: the label table belongs to the program,
    /// the program counter is at most the program's length, and the
    /// instruction counter is not negative.
    pub closed spec fn wf(&self) -> bool {
        &&& is_label_table(self.instructions@, self.num_to_label_map@)
        &&& self.program_counter <= self.instructions@.len() <= usize::MAX
        &&& 0 <= self.instruction_count
    }

    /// The state of a run in progress on this machine, given how much of the
    /// inbox was taken and what was sent out.
    pub open spec fn run_state(&self, consumed: nat, outbox: Seq<i32>) -> RunState {
        RunState {
            registers: self@.registers,
            buffer: self@.buffer,
            pc: self@.pc,
            count: self@.count,
            consumed,
            outbox,
        }
    }

    /// Scans the program once and records, for each label identifier, the
    /// address of its first occurrence.
    fn create_label_num_to_address_map(instructions: &Vec<Instruction>) -> (map: HashMap<u32, usize>)
        ensures
            is_label_table(instructions@, map@),
    {
        let mut map: HashMap<u32, usize> = HashMap::new();
        let mut i: usize = 0;
        while i < instructions.len()
            invariant
                i <= instructions@.len(),
                forall|id: u32|
                    #![trigger map@.contains_key(id)]
                    {
                        &&& map@.contains_key(id) ==> map@[id] < i && is_first_label(instructions@, id, map@[id] as int)
                        &&& !map@.contains_key(id) ==> forall|j: int| 0 <= j < i ==> instructions@[j] != Instruction::Label(id)
                    },
            decreases instructions.len() - i,
        {
            match instructions[i] {
                Instruction::Label(n) => {
                    if !map.contains_key(&n) {
                        map.insert(n, i);
                    }
                }
                _ => {}
            }
            i += 1;
        }
        proof {
            assert forall|id: u32| #![trigger map@.contains_key(id)]
                (map@.contains_key(id) <==> exists|a: int| is_first_label(instructions@, id, a)) by {
                if !map@.contains_key(id) {
                    if exists|a: int| is_first_label(instructions@, id, a) {
                        let a = choose|a: int| is_first_label(instructions@, id, a);
                        assert(instructions@[a] == Instruction::Label(id));
                    }
                }
            }
        }
        map
    }

    /// How many instructions the last run fetched.
    pub fn get_instruction_count(&self) -> (r: i32)
        requires
            self.wf(),
        ensures
            r == self@.count,
    {
        self.instruction_count
    }

    /// A machine for `instructions` with `num_registers` registers, all empty
    /// but the last, which holds zero. The buffer holds zero.
    pub fn new(instructions: Vec<Instruction>, num_registers: usize, enable_logging: bool) -> (m: Self)
        requires
            num_registers >= 1,
        ensures
            m.wf(),
            m@ == fresh_machine(instructions@, num_registers as nat, enable_logging),
    {
        let mut register: Vec<Option<i32>> = Vec::new();
        let mut i: usize = 0;
        while i < num_registers
            invariant
                i <= num_registers,
                register@.len() == i,
                forall|j: int| 0 <= j < i ==> register@[j] == if j == num_registers - 1 { Some(0i32) } else { None },
            decreases num_registers - i,
        {
            if i == num_registers - 1 {
                register.push(Some(0));
            } else {
                register.push(None);
            }
            i += 1;
        }
        assert(register@ =~= initial_registers(num_registers as nat));
        assert(instructions@.len() == instructions.len());

        let num_to_label_map = Machine::create_label_num_to_address_map(&instructions);

        Machine {
            instructions,
            register,
            buffer: Some(0),
            enable_logging,
            program_counter: 0,
            instruction_count: 0,
            num_to_label_map,
        }
    }

    /// Looks up the address of label `n`.
    fn jump(&self, n: u32) -> (r: Result<usize, MachineRuntimeError>)
        requires
            self.wf(),
        ensures
            match r {
                Ok(a) => jump_target(self@.program, n) == Ok::<nat, MachineRuntimeError>(a as nat)
                    && a < self@.program.len(),
                Err(e) => jump_target(self@.program, n) == Err::<nat, MachineRuntimeError>(e),
            },
    {
        match self.num_to_label_map.get(&n) {
            Some(a) => {
                proof {
                    let c = choose|c: int| is_first_label(self@.program, n, c);
                    lemma_first_label_unique(self@.program, n, c, *a as int);
                }
                Ok(*a)
            },
            None => Err(MachineRuntimeError::InvalidJumpAddress),
        }
    }

    /// Clears the per-run state; the registers stay as they are.
    pub fn reset(&mut self)
        requires
            old(self).wf(),
        ensures
            final(self).wf(),
            final(self)@ == (MachineView { buffer: Some(0i32), pc: 0, count: 0, ..old(self)@ }),
    {
        self.buffer = Some(0);
        self.program_counter = 0;
        self.instruction_count = 0;
    }

    /// Whether the program counter has run off the end of the program.
    pub fn is_halted(&self) -> (r: bool)
        requires
            self.wf(),
        ensures
            r == (self@.pc >= self@.program.len()),
    {
        self.program_counter >= self.instructions.len()
    }

    fn read_register(&self, r: u32) -> (v: Result<i32, MachineRuntimeError>)
        ensures
            v == register_value(self@.registers, r),
    {
        if r as usize >= self.register.len() {
            Err(MachineRuntimeError::RegisterIndexOutOfBounds)
        } else {
            match self.register[r as usize] {
                Some(v) => Ok(v),
                None => Err(MachineRuntimeError::EmptyRegister),
            }
        }
    }

    fn read_buffer(&self) -> (v: Result<i32, MachineRuntimeError>)
        ensures
            v == buffer_value(self@.buffer),
    {
        match self.buffer {
            Some(v) => Ok(v),
            None => Err(MachineRuntimeError::EmptyBuffer),
        }
    }

    /// Jumps to label `id`, or fails as the lookup does.
    fn jump_to(&mut self, id: u32) -> (r: Result<(), MachineRuntimeError>)
        requires
            old(self).wf(),
        ensures
            final(self).wf(),
            match jump_target(old(self)@.program, id) {
                Ok(a) => r is Ok && final(self)@ == (MachineView { pc: a, ..old(self)@ }),
                Err(e) => r == Err::<(), MachineRuntimeError>(e) && final(self)@ == old(self)@,
            },
    {
        match self.jump(id) {
            Ok(a) => {
                self.program_counter = a;
                Ok(())
            },
            Err(e) => Err(e),
        }
    }

    /// Executes `ins`, one of the instructions that move values, against the
    /// run state; the instruction counter is left alone.
    fn execute_move(&mut self, ins: Instruction, inbox: &[i32], consumed: &mut usize, outbox: &mut Vec<i32>) -> (r: Result<(), MachineRuntimeError>)
        requires
            old(self).wf(),
            old(self)@.pc < old(self)@.program.len(),
            ins is Inbox || ins is Outbox || ins is CopyFrom || ins is CopyTo,
        ensures
            final(self).wf(),
            final(self)@.program == old(self)@.program,
            final(self)@.enable_logging == old(self)@.enable_logging,
            executed(
                old(self).run_state(*old(consumed) as nat, old(outbox)@),
                final(self).run_state(*final(consumed) as nat, final(outbox)@),
                r,
                execute(old(self)@.program, ins, old(self).run_state(*old(consumed) as nat, old(outbox)@), inbox@),
            ),
    {
        let next = self.program_counter + 1;
        match ins {
            Instruction::Inbox => {
                if *consumed < inbox.len() {
                    self.buffer = Some(inbox[*consumed]);
                    *consumed = *consumed + 1;
                    self.program_counter = next;
                    Ok(())
                } else {
                    Err(MachineRuntimeError::EmptyInbox)
                }
            },
            Instruction::Outbox => match self.read_buffer() {
                Ok(b) => {
                    outbox.push(b);
                    self.buffer = None;
                    self.program_counter = next;
                    Ok(())
                },
                Err(e) => Err(e),
            },
            Instruction::CopyFrom(r) => match self.read_register(r) {
                Ok(v) => {
                    self.buffer = Some(v);
                    self.program_counter = next;
                    Ok(())
                },
                Err(e) => Err(e),
            },
            Instruction::CopyTo(r) => match self.read_buffer() {
                Ok(b) => {
                    if r as usize >= self.register.len() {
                        Err(MachineRuntimeError::RegisterIndexOutOfBounds)
                    } else {
                        self.register.set(r as usize, Some(b));
                        self.program_counter = next;
                        Ok(())
                    }
                },
                Err(e) => Err(e),
            },
            // Not reached: the precondition names the variants handled here.
            _ => Err(MachineRuntimeError::EmptyBuffer),
        }
    }

    /// Executes `ins`, one of the arithmetic instructions, against the run
    /// state; the instruction counter is left alone.
    fn execute_arithmetic(&mut self, ins: Instruction, inbox: &[i32], consumed: &mut usize, outbox: &mut Vec<i32>) -> (r: Result<(), MachineRuntimeError>)
        requires
            old(self).wf(),
            old(self)@.pc < old(self)@.program.len(),
            ins is Add || ins is Sub || ins is Mul || ins is BumpPlus || ins is BumpMinus,
        ensures
            final(self).wf(),
            final(self)@.program == old(self)@.program,
            final(self)@.enable_logging == old(self)@.enable_logging,
            *final(consumed) == *old(consumed),
            final(outbox)@ == old(outbox)@,
            executed(
                old(self).run_state(*old(consumed) as nat, old(outbox)@),
                final(self).run_state(*final(consumed) as nat, final(outbox)@),
                r,
                execute(old(self)@.program, ins, old(self).run_state(*old(consumed) as nat, old(outbox)@), inbox@),
            ),
    {
        let next = self.program_counter + 1;
        let result = match ins {
            Instruction::Add(r) => match self.read_register(r) {
                Ok(v) => match self.read_buffer() {
                    Ok(b) => match v.checked_add(b) {
                        Some(x) => Ok(x),
                        None => Err(MachineRuntimeError::ArithmeticOverflow),
                    },
                    Err(e) => Err(e),
                },
                Err(e) => Err(e),
            },
            Instruction::Sub(r) => match self.read_buffer() {
                Ok(b) => match self.read_register(r) {
                    Ok(v) => match b.checked_sub(v) {
                        Some(x) => Ok(x),
                        None => Err(MachineRuntimeError::ArithmeticOverflow),
                    },
                    Err(e) => Err(e),
                },
                Err(e) => Err(e),
            },
            Instruction::Mul(r) => match self.read_register(r) {
                Ok(v) => match self.read_buffer() {
                    Ok(b) => match v.checked_mul(b) {
                        Some(x) => Ok(x),
                        None => Err(MachineRuntimeError::ArithmeticOverflow),
                    },
                    Err(e) => Err(e),
                },
                Err(e) => Err(e),
            },
            Instruction::BumpPlus(r) => match self.read_register(r) {
                Ok(v) => match v.checked_add(1) {
                    Some(x) => {
                        self.register.set(r as usize, Some(x));
                        Ok(x)
                    },
                    None => Err(MachineRuntimeError::ArithmeticOverflow),
                },
                Err(e) => Err(e),
            },
            Instruction::BumpMinus(r) => match self.read_register(r) {
                Ok(v) => match v.checked_sub(1) {
                    Some(x) => {
                        self.register.set(r as usize, Some(x));
                        Ok(x)
                    },
                    None => Err(MachineRuntimeError::ArithmeticOverflow),
                },
                Err(e) => Err(e),
            },
            // Not reached: the precondition names the variants handled here.
            _ => Err(MachineRuntimeError::EmptyBuffer),
        };
        match result {
            Ok(x) => {
                self.buffer = Some(x);
                self.program_counter = next;
                Ok(())
            },
            Err(e) => Err(e),
        }
    }

    /// Executes `ins`, a label or one of the jumps, against the run state;
    /// the instruction counter is left alone.
    fn execute_control(&mut self, ins: Instruction, inbox: &[i32], consumed: &mut usize, outbox: &mut Vec<i32>) -> (r: Result<(), MachineRuntimeError>)
        requires
            old(self).wf(),
            old(self)@.pc < old(self)@.program.len(),
            ins is Label || ins is Jump || ins is JumpIfZero || ins is JumpIfNegative,
        ensures
            final(self).wf(),
            final(self)@.program == old(self)@.program,
            final(self)@.enable_logging == old(self)@.enable_logging,
            *final(consumed) == *old(consumed),
            final(outbox)@ == old(outbox)@,
            executed(
                old(self).run_state(*old(consumed) as nat, old(outbox)@),
                final(self).run_state(*final(consumed) as nat, final(outbox)@),
                r,
                execute(old(self)@.program, ins, old(self).run_state(*old(consumed) as nat, old(outbox)@), inbox@),
            ),
    {
        let next = self.program_counter + 1;
        let taken = match ins {
            Instruction::Label(_) => Ok(false),
            Instruction::Jump(_) => Ok(true),
            Instruction::JumpIfZero(_) => match self.read_buffer() {
                Ok(b) => Ok(b == 0),
                Err(e) => Err(e),
            },
            Instruction::JumpIfNegative(_) => match self.read_buffer() {
                Ok(b) => Ok(b < 0),
                Err(e) => Err(e),
            },
            // Not reached: the precondition names the variants handled here.
            _ => Ok(false),
        };
        match taken {
            Ok(true) => match ins {
                Instruction::Jump(id) | Instruction::JumpIfZero(id) | Instruction::JumpIfNegative(id) => self.jump_to(id),
                // Not reached: only a jump can be taken.
                _ => Ok(()),
            },
            Ok(false) => {
                self.program_counter = next;
                Ok(())
            },
            Err(e) => Err(e),
        }
    }

    /// Fetches and executes the instruction at the program counter. `inbox`
    /// is the run's input, of which the first `consumed` values were taken;
    /// `outbox` is what the run sent out so far.
    pub fn step(&mut self, inbox: &[i32], consumed: &mut usize, outbox: &mut Vec<i32>) -> (r: Result<(), MachineRuntimeError>)
        requires
            old(self).wf(),
            old(self)@.pc < old(self)@.program.len(),
        ensures
            final(self).wf(),
            final(self)@.program == old(self)@.program,
            final(self)@.enable_logging == old(self)@.enable_logging,
            ({
                let (t, e) = advance(old(self)@.program, old(self).run_state(*old(consumed) as nat, old(outbox)@), inbox@);
                &&& final(self).run_state(*final(consumed) as nat, final(outbox)@) == t
                &&& match r {
                    Ok(_) => e is None,
                    Err(x) => e == Some(x),
                }
            }),
    {
        if self.instruction_count == i32::MAX {
            return Err(MachineRuntimeError::InstructionCountOverflow);
        }
        let ins = self.instructions[self.program_counter];
        self.instruction_count += 1;
        match ins {
            Instruction::Inbox | Instruction::Outbox | Instruction::CopyFrom(_) | Instruction::CopyTo(_) => {
                self.execute_move(ins, inbox, consumed, outbox)
            },
            Instruction::Add(_) | Instruction::Sub(_) | Instruction::Mul(_) | Instruction::BumpPlus(_) | Instruction::BumpMinus(_) => {
                self.execute_arithmetic(ins, inbox, consumed, outbox)
            },
            Instruction::Label(_) | Instruction::Jump(_) | Instruction::JumpIfZero(_) | Instruction::JumpIfNegative(_) => {
                self.execute_control(ins, inbox, consumed, outbox)
            },
        }
    }

    /// Runs the program on `inbox` from a fresh buffer, program counter and
    /// instruction counter, with the registers as the last run left them.
    /// Returns what was sent to the outbox, or the error that stopped the run.
    pub fn run(&mut self, inbox: &[i32]) -> (r: Result<Vec<i32>, MachineRuntimeError>)
        requires
            old(self).wf(),
        ensures
            final(self).wf(),
            ({
                let (end, err) = run_outcome(old(self)@, inbox@);
                &&& final(self)@ == (MachineView {
                    registers: end.registers,
                    buffer: end.buffer,
                    pc: end.pc,
                    count: end.count,
                    ..old(self)@
                })
                &&& match r {
                    Ok(out) => err is None && out@ == end.outbox,
                    Err(e) => err == Some(e),
                }
            }),
    {
        self.reset();
        let mut outbox: Vec<i32> = Vec::new();
        let mut consumed: usize = 0;
        while !self.is_halted()
            invariant
                self.wf(),
                self@.program == old(self)@.program,
                self@.enable_logging == old(self)@.enable_logging,
                run_from(self@.program, self.run_state(consumed as nat, outbox@), inbox@)
                    == run_outcome(old(self)@, inbox@),
            decreases i32::MAX - self@.count,
        {
            match self.step(inbox, &mut consumed, &mut outbox) {
                Ok(()) => {},
                Err(e) => {
                    return Err(e);
                },
            }
        }
        Ok(outbox)
    }

    /// The address of the next instruction to fetch.
    pub fn program_counter(&self) -> (r: usize)
        ensures
            r == self@.pc,
    {
        self.program_counter
    }

    pub fn buffer(&self) -> (r: Option<i32>)
        ensures
            r == self@.buffer,
    {
        self.buffer
    }

    pub fn registers(&self) -> (r: &Vec<Option<i32>>)
        ensures
            r@ == self@.registers,
    {
        &self.register
    }

    pub fn instructions(&self) -> (r: &Vec<Instruction>)
        ensures
            r@ == self@.program,
    {
        &self.instructions
    }
}

} // verus!
