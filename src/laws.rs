//! Facts about runs that hold for every program and inbox.
use vstd::prelude::*;
use crate::machine::{Instruction, MachineRuntimeError};
use crate::semantics::{
    advance, fresh_machine, is_first_label, jump_target, lemma_first_label_unique, run_outcome,
    MachineView, RunState,
};

verus! {

/// Two machines built alike from one program and register count end a run
/// on the same inbox in the same outbox, error and instruction count.
pub proof fn lemma_fresh_runs_agree(
    program: Seq<Instruction>,
    num_registers: nat,
    inbox: Seq<i32>,
    a: MachineView,
    b: MachineView,
)
    requires
        a == fresh_machine(program, num_registers, a.enable_logging),
        b == fresh_machine(program, num_registers, b.enable_logging),
    ensures
        run_outcome(a, inbox) == run_outcome(b, inbox),
{
}

/// Only the register file carries over from one run to the next: a run's
/// result and final state do not depend on the buffer, program counter or
/// instruction count that the machine held before it.
pub proof fn lemma_only_registers_carry_over(inbox: Seq<i32>, a: MachineView, b: MachineView)
    requires
        a.program == b.program,
        a.registers == b.registers,
    ensures
        run_outcome(a, inbox) == run_outcome(b, inbox),
{
}

/// A jump to `id` fails with `InvalidJumpAddress` exactly when the program
/// has no `Label(id)`; otherwise it lands on the first one.
pub proof fn lemma_jump_resolution(program: Seq<Instruction>, id: u32)
    ensures
        (forall|i: int| 0 <= i < program.len() ==> program[i] != Instruction::Label(id))
            <==> jump_target(program, id) == Err::<nat, MachineRuntimeError>(MachineRuntimeError::InvalidJumpAddress),
        jump_target(program, id) matches Ok(a) ==> is_first_label(program, id, a as int),
{
    if exists|i: int| 0 <= i < program.len() && program[i] == Instruction::Label(id) {
        let i = choose|i: int| 0 <= i < program.len() && program[i] == Instruction::Label(id);
        lemma_first_label_exists(program, id, i);
    }
}

/// Below any `Label(id)` of a program lies (or stands) its first one.
proof fn lemma_first_label_exists(program: Seq<Instruction>, id: u32, i: int)
    requires
        0 <= i < program.len(),
        program[i] == Instruction::Label(id),
    ensures
        exists|a: int| is_first_label(program, id, a),
    decreases i,
{
    if !is_first_label(program, id, i) {
        let j = choose|j: int| 0 <= j < i && program[j] == Instruction::Label(id);
        lemma_first_label_exists(program, id, j);
    }
}

/// With exactly two `Label(id)` instructions in a program, a jump to `id`
/// lands on the earlier one.
pub proof fn lemma_earlier_label_wins(program: Seq<Instruction>, id: u32, a: int, b: int)
    requires
        0 <= a < b < program.len(),
        program[a] == Instruction::Label(id),
        program[b] == Instruction::Label(id),
        forall|j: int| 0 <= j < program.len() && program[j] == Instruction::Label(id) ==> j == a || j == b,
    ensures
        jump_target(program, id) == Ok::<nat, MachineRuntimeError>(a as nat),
{
    assert(is_first_label(program, id, a));
    let c = choose|c: int| is_first_label(program, id, c);
    lemma_first_label_unique(program, id, a, c);
}

/// A conditional jump whose condition is false does not jump: the program
/// counter moves to the next instruction and only the instruction counter
/// changes besides.
pub proof fn lemma_conditional_falls_through(program: Seq<Instruction>, s: RunState, inbox: Seq<i32>, id: u32, b: i32)
    requires
        s.pc < program.len(),
        s.count < i32::MAX,
        s.buffer == Some(b),
        (program[s.pc as int] == Instruction::JumpIfZero(id) && b != 0)
            || (program[s.pc as int] == Instruction::JumpIfNegative(id) && b >= 0),
    ensures
        advance(program, s, inbox) == (RunState { pc: s.pc + 1, count: s.count + 1, ..s }, None::<MachineRuntimeError>),
{
}

} // verus!
