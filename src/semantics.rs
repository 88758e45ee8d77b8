//! What a run of the machine does, stated over mathematical values: the
//! label table, one fetch-execute step, and a whole run.
use vstd::prelude::*;
use crate::machine::{Instruction, MachineRuntimeError};

verus! {

/// `a` is the address of the first `Label(id)` of `program`.
pub open spec fn is_first_label(program: Seq<Instruction>, id: u32, a: int) -> bool {
    &&& 0 <= a < program.len()
    &&& program[a] == Instruction::Label(id)
    &&& forall|j: int| 0 <= j < a ==> program[j] != Instruction::Label(id)
}

/// Where a jump to `id` lands: the first `Label(id)`, or an error when there is none.
pub open spec fn jump_target(program: Seq<Instruction>, id: u32) -> Result<nat, MachineRuntimeError> {
    if exists|a: int| is_first_label(program, id, a) {
        Ok((choose|a: int| is_first_label(program, id, a)) as nat)
    } else {
        Err(MachineRuntimeError::InvalidJumpAddress)
    }
}

/// There is at most one first label for an identifier.
pub proof fn lemma_first_label_unique(program: Seq<Instruction>, id: u32, a: int, b: int)
    requires
        is_first_label(program, id, a),
        is_first_label(program, id, b),
    ensures
        a == b,
{
    if a < b {
        assert(program[a] != Instruction::Label(id));
    } else if b < a {
        assert(program[b] != Instruction::Label(id));
    }
}

/// The label table of `program`: every identifier that labels some address
/// maps to its first address, and no other identifier is present.
pub open spec fn is_label_table(program: Seq<Instruction>, table: Map<u32, usize>) -> bool {
    forall|id: u32|
        #![trigger table.contains_key(id)]
        {
            &&& table.contains_key(id) <==> exists|a: int| is_first_label(program, id, a)
            &&& table.contains_key(id) ==> is_first_label(program, id, table[id] as int)
        }
}

/// The state that one run works on: the register file, the buffer, the
/// program counter, the instruction counter, how many inbox values have been
/// taken, and what has been sent to the outbox so far.
pub struct RunState {
    pub registers: Seq<Option<i32>>,
    pub buffer: Option<i32>,
    pub pc: nat,
    pub count: nat,
    pub consumed: nat,
    pub outbox: Seq<i32>,
}

/// The value of register `r`, or the error of reading it.
pub open spec fn register_value(registers: Seq<Option<i32>>, r: u32) -> Result<i32, MachineRuntimeError> {
    if r >= registers.len() {
        Err(MachineRuntimeError::RegisterIndexOutOfBounds)
    } else {
        match registers[r as int] {
            Some(v) => Ok(v),
            None => Err(MachineRuntimeError::EmptyRegister),
        }
    }
}

/// The value of the buffer, or the error of reading it.
pub open spec fn buffer_value(buffer: Option<i32>) -> Result<i32, MachineRuntimeError> {
    match buffer {
        Some(v) => Ok(v),
        None => Err(MachineRuntimeError::EmptyBuffer),
    }
}

/// An exact result as an `i32`, or an overflow error.
pub open spec fn fit_i32(x: int) -> Result<i32, MachineRuntimeError> {
    if i32::MIN <= x <= i32::MAX {
        Ok(x as i32)
    } else {
        Err(MachineRuntimeError::ArithmeticOverflow)
    }
}

/// `s` with the buffer set to `v` and the program counter moved to the next instruction.
pub open spec fn with_buffer(s: RunState, v: i32) -> RunState {
    RunState { buffer: Some(v), pc: s.pc + 1, ..s }
}

/// `s` with the program counter at `a`, taking a jump.
pub open spec fn at(s: RunState, a: nat) -> RunState {
    RunState { pc: a, ..s }
}

/// What instruction `ins` does to `s`, apart from the instruction counter.
pub open spec fn execute(
    program: Seq<Instruction>,
    ins: Instruction,
    s: RunState,
    inbox: Seq<i32>,
) -> Result<RunState, MachineRuntimeError> {
    match ins {
        Instruction::Inbox => {
            if s.consumed < inbox.len() {
                Ok(RunState { consumed: s.consumed + 1, ..with_buffer(s, inbox[s.consumed as int]) })
            } else {
                Err(MachineRuntimeError::EmptyInbox)
            }
        },
        Instruction::Outbox => match buffer_value(s.buffer) {
            Ok(b) => Ok(RunState { buffer: None, pc: s.pc + 1, outbox: s.outbox.push(b), ..s }),
            Err(e) => Err(e),
        },
        Instruction::CopyFrom(r) => match register_value(s.registers, r) {
            Ok(v) => Ok(with_buffer(s, v)),
            Err(e) => Err(e),
        },
        Instruction::CopyTo(r) => match buffer_value(s.buffer) {
            Err(e) => Err(e),
            Ok(b) => if r >= s.registers.len() {
                Err(MachineRuntimeError::RegisterIndexOutOfBounds)
            } else {
                Ok(RunState { registers: s.registers.update(r as int, Some(b)), pc: s.pc + 1, ..s })
            },
        },
        Instruction::Add(r) => match register_value(s.registers, r) {
            Err(e) => Err(e),
            Ok(v) => match buffer_value(s.buffer) {
                Err(e) => Err(e),
                Ok(b) => match fit_i32(v + b) {
                    Ok(x) => Ok(with_buffer(s, x)),
                    Err(e) => Err(e),
                },
            },
        },
        Instruction::Sub(r) => match buffer_value(s.buffer) {
            Err(e) => Err(e),
            Ok(b) => match register_value(s.registers, r) {
                Err(e) => Err(e),
                Ok(v) => match fit_i32(b - v) {
                    Ok(x) => Ok(with_buffer(s, x)),
                    Err(e) => Err(e),
                },
            },
        },
        Instruction::Mul(r) => match register_value(s.registers, r) {
            Err(e) => Err(e),
            Ok(v) => match buffer_value(s.buffer) {
                Err(e) => Err(e),
                Ok(b) => match fit_i32(v * b) {
                    Ok(x) => Ok(with_buffer(s, x)),
                    Err(e) => Err(e),
                },
            },
        },
        Instruction::BumpPlus(r) => match register_value(s.registers, r) {
            Err(e) => Err(e),
            Ok(v) => match fit_i32(v + 1) {
                Ok(x) => Ok(with_buffer(RunState { registers: s.registers.update(r as int, Some(x)), ..s }, x)),
                Err(e) => Err(e),
            },
        },
        Instruction::BumpMinus(r) => match register_value(s.registers, r) {
            Err(e) => Err(e),
            Ok(v) => match fit_i32(v - 1) {
                Ok(x) => Ok(with_buffer(RunState { registers: s.registers.update(r as int, Some(x)), ..s }, x)),
                Err(e) => Err(e),
            },
        },
        Instruction::Label(_) => Ok(RunState { pc: s.pc + 1, ..s }),
        Instruction::Jump(id) => match jump_target(program, id) {
            Ok(a) => Ok(at(s, a)),
            Err(e) => Err(e),
        },
        Instruction::JumpIfZero(id) => match buffer_value(s.buffer) {
            Err(e) => Err(e),
            Ok(b) => if b == 0 {
                match jump_target(program, id) {
                    Ok(a) => Ok(at(s, a)),
                    Err(e) => Err(e),
                }
            } else {
                Ok(RunState { pc: s.pc + 1, ..s })
            },
        },
        Instruction::JumpIfNegative(id) => match buffer_value(s.buffer) {
            Err(e) => Err(e),
            Ok(b) => if b < 0 {
                match jump_target(program, id) {
                    Ok(a) => Ok(at(s, a)),
                    Err(e) => Err(e),
                }
            } else {
                Ok(RunState { pc: s.pc + 1, ..s })
            },
        },
    }
}

/// One fetch-execute step from `s`, whose program counter is inside the
/// program: the state after it, and the error that stopped it, if any.
/// The instruction counter goes up by one for every fetched instruction,
/// also one that fails; it never passes `i32::MAX`.
pub open spec fn advance(program: Seq<Instruction>, s: RunState, inbox: Seq<i32>) -> (RunState, Option<MachineRuntimeError>) {
    if s.count >= i32::MAX {
        (s, Some(MachineRuntimeError::InstructionCountOverflow))
    } else {
        match execute(program, program[s.pc as int], s, inbox) {
            Ok(t) => (RunState { count: s.count + 1, ..t }, None),
            Err(e) => (RunState { count: s.count + 1, ..s }, Some(e)),
        }
    }
}

/// Steps from `s` until the program counter runs off the end of the program
/// (no error) or a step fails (that error). Returns the last state.
pub open spec fn run_from(program: Seq<Instruction>, s: RunState, inbox: Seq<i32>) -> (RunState, Option<MachineRuntimeError>)
    decreases i32::MAX - s.count,
{
    if s.pc >= program.len() {
        (s, None)
    } else {
        let (t, e) = advance(program, s, inbox);
        if e is Some {
            (t, e)
        } else {
            run_from(program, t, inbox)
        }
    }
}

/// `t` and `r` are the state and result of an instruction whose effect on
/// `s` is `expected`: on failure nothing changes.
pub open spec fn executed(
    s: RunState,
    t: RunState,
    r: Result<(), MachineRuntimeError>,
    expected: Result<RunState, MachineRuntimeError>,
) -> bool {
    match expected {
        Ok(u) => r is Ok && t == u,
        Err(e) => r == Err::<(), MachineRuntimeError>(e) && t == s,
    }
}

/// The state at the start of every run: only the registers carry over.
pub open spec fn start_state(registers: Seq<Option<i32>>) -> RunState {
    RunState { registers, buffer: Some(0), pc: 0, count: 0, consumed: 0, outbox: Seq::empty() }
}

/// What a run of machine `m` on `inbox` ends in: the last state, and the
/// error that stopped the run, if any.
pub open spec fn run_outcome(m: MachineView, inbox: Seq<i32>) -> (RunState, Option<MachineRuntimeError>) {
    run_from(m.program, start_state(m.registers), inbox)
}

/// The register file of a new machine: all empty but the last slot, which holds zero.
pub open spec fn initial_registers(n: nat) -> Seq<Option<i32>> {
    Seq::new(n, |i: int| if i == n - 1 { Some(0i32) } else { None })
}

/// The view of a machine just built for `program` with `num_registers` registers.
pub open spec fn fresh_machine(program: Seq<Instruction>, num_registers: nat, enable_logging: bool) -> MachineView {
    MachineView {
        program,
        registers: initial_registers(num_registers),
        buffer: Some(0i32),
        pc: 0,
        count: 0,
        enable_logging,
    }
}

/// What a machine holds, seen from outside.
pub struct MachineView {
    pub program: Seq<Instruction>,
    pub registers: Seq<Option<i32>>,
    pub buffer: Option<i32>,
    pub pc: nat,
    pub count: nat,
    pub enable_logging: bool,
}

} // verus!
