//! What holds of every machine: the shape that steps keep, and how the
//! arithmetic, call, return and skip instructions behave on any state.
use crate::dispatch::{mnemonic_of, Mnemonic};
use crate::machine::{Fault, Machine, State, FLAG_REGISTER, STACK_DEPTH};
use crate::opcodes::{immediate, nibbles, target, OpCode};
use vstd::prelude::*;

verus! {

/// A step keeps the shape of the machine: the stack pointer stays within the
/// stack, and every address stays inside memory.
pub proof fn lemma_step_keeps_wf(m: Machine)
    requires
        m.wf(),
    ensures
        m.step().wf(),
{
    reveal(Machine::step);
    reveal(Machine::execute);
}

/// Any number of steps keeps the shape of the machine.
pub proof fn lemma_run_keeps_wf(m: Machine, n: nat)
    requires
        m.wf(),
    ensures
        m.run(n).wf(),
    decreases n,
{
    if n > 0 {
        lemma_step_keeps_wf(m);
        lemma_run_keeps_wf(m.step(), (n - 1) as nat);
    }
}

/// No step writes to memory: the instructions that store are left to the
/// host.
pub proof fn lemma_step_keeps_memory(m: Machine)
    ensures
        m.step().memory == m.memory,
{
    reveal(Machine::step);
    reveal(Machine::execute);
}

/// Only the instruction that sets the index register changes it.
pub proof fn lemma_step_keeps_index(m: Machine)
    requires
        !(m.fetch() matches Ok(code) && mnemonic_of(code) == Some(Mnemonic::SetIToNnn)),
    ensures
        m.step().index == m.index,
{
    reveal(Machine::step);
    reveal(Machine::execute);
}

/// True for the instructions that write the flag register whatever their
/// operands: the register additions and subtractions, and the shifts.
pub open spec fn writes_flag(mnemonic: Mnemonic) -> bool {
    match mnemonic {
        Mnemonic::Add
        | Mnemonic::Sub
        | Mnemonic::SubX
        | Mnemonic::ShiftRight
        | Mnemonic::ShiftLeft => true,
        _ => false,
    }
}

/// The flag register is written by the arithmetic and shift instructions
/// alone, unless an instruction names it as its own target register.
pub proof fn lemma_step_keeps_flag(m: Machine, code: u16, mnemonic: Mnemonic)
    requires
        m.wf(),
        m.fetch() == Ok::<u16, Fault>(code),
        mnemonic_of(code) == Some(mnemonic),
        !writes_flag(mnemonic),
        nibbles(code).1 != FLAG_REGISTER,
    ensures
        m.step().registers[FLAG_REGISTER as int] == m.registers[FLAG_REGISTER as int],
{
    reveal(Machine::step);
    reveal(Machine::execute);
}

/// A step that faults changes the state alone: registers, memory, stack and
/// program counter are those from before the step.
pub proof fn lemma_fault_changes_state_alone(m: Machine)
    requires
        m.step().state is Faulted,
    ensures
        m.step() == m.with_state(m.step().state),
{
    reveal(Machine::step);
    reveal(Machine::execute);
}

/// An instruction loaded at the program counter is the word that the next
/// step fetches.
pub proof fn lemma_loaded_instruction_is_fetched(m: Machine, op: OpCode)
    requires
        m.wf(),
        m.pc + 1 < 4096,
    ensures
        m.load(m.pc as int, seq![op.0, op.1]).fetch() == Ok::<u16, Fault>(op.word()),
{
}

/// A step on a word that denotes no instruction faults with that word.
pub proof fn lemma_unknown_word_faults(m: Machine, code: u16)
    requires
        m.state == State::Running,
        m.fetch() == Ok::<u16, Fault>(code),
        mnemonic_of(code) is None,
    ensures
        m.step() == m.with_state(State::Faulted(Fault::UnimplementedOpcode { code })),
{
    reveal(Machine::step);
}

/// A step with the program counter on the last byte of memory faults: the
/// second byte of the word would lie outside.
pub proof fn lemma_fetch_past_the_end_faults(m: Machine)
    requires
        m.state == State::Running,
        m.pc + 1 >= 4096,
    ensures
        m.step() == m.with_state(State::Faulted(Fault::OutOfBounds)),
{
    reveal(Machine::step);
}

/// True for the instructions that set the program counter themselves, or
/// may move it on once more.
pub open spec fn transfers_control(mnemonic: Mnemonic) -> bool {
    match mnemonic {
        Mnemonic::Ret
        | Mnemonic::Goto
        | Mnemonic::Call
        | Mnemonic::SkipXEqNn
        | Mnemonic::SkipXNeqNn
        | Mnemonic::SkipXEqY
        | Mnemonic::SkipXNeqY => true,
        _ => false,
    }
}

/// A step on an instruction that does not transfer control moves the
/// program counter on by one instruction, wrapping at the end of memory. The
/// halt instruction and those left to the host are among them.
pub proof fn lemma_plain_step_advances(m: Machine, code: u16, mnemonic: Mnemonic)
    requires
        m.wf(),
        m.state == State::Running,
        m.fetch() == Ok::<u16, Fault>(code),
        mnemonic_of(code) == Some(mnemonic),
        !transfers_control(mnemonic),
    ensures
        m.step().pc == (m.pc + 2) % 4096,
        m.step().stack == m.stack,
        m.step().sp == m.sp,
        m.step().memory == m.memory,
        m.step().state == (if mnemonic == Mnemonic::Halt {
            State::Halted
        } else {
            State::Running
        }),
        !mnemonic.is_native() ==> m.step() == m.advance(),
{
    reveal(Machine::step);
    reveal(Machine::execute);
}

/// A call with the stack full faults with `StackOverflow`.
pub proof fn lemma_call_on_full_stack(m: Machine, n1: u8, n2: u8, n3: u8)
    requires
        m.at_instruction(0x2, n1, n2, n3),
        m.sp >= STACK_DEPTH,
    ensures
        m.step() == m.with_state(State::Faulted(Fault::StackOverflow)),
{
    reveal(Machine::step);
    reveal(Machine::execute);
}

/// A return with the stack empty faults with `StackUnderflow`.
pub proof fn lemma_return_on_empty_stack(m: Machine)
    requires
        m.at_instruction(0x0, 0x0, 0xE, 0xE),
        m.sp == 0,
    ensures
        m.step() == m.with_state(State::Faulted(Fault::StackUnderflow)),
{
    reveal(Machine::step);
    reveal(Machine::execute);
}

/// Adding register `y` to register `x` sets the flag register to 1 if the
/// sum of the two passes 255, and to 0 if it does not.
pub proof fn lemma_add_sets_flag(m: Machine, x: u8, y: u8)
    requires
        m.wf(),
        m.at_instruction(0x8, x, y, 0x4),
    ensures
        m.step().registers[FLAG_REGISTER as int] == 1 <==> m.registers[x as int]
            + m.registers[y as int] > 255,
        m.step().registers[FLAG_REGISTER as int] == 0 <==> m.registers[x as int]
            + m.registers[y as int] <= 255,
        x != FLAG_REGISTER ==> m.step().registers[x as int] == (m.registers[x as int]
            + m.registers[y as int]) % 256,
{
    reveal(Machine::step);
    reveal(Machine::execute);
}

/// Subtracting register `y` from register `x` sets the flag register to 1
/// if register `x` is the smaller, and to 0 if it is not.
pub proof fn lemma_sub_sets_flag(m: Machine, x: u8, y: u8)
    requires
        m.wf(),
        m.at_instruction(0x8, x, y, 0x5),
    ensures
        m.step().registers[FLAG_REGISTER as int] == 1 <==> m.registers[x as int]
            < m.registers[y as int],
        m.step().registers[FLAG_REGISTER as int] == 0 <==> m.registers[x as int]
            >= m.registers[y as int],
        x != FLAG_REGISTER ==> m.step().registers[x as int] == (m.registers[x as int]
            - m.registers[y as int]) % 256,
{
    reveal(Machine::step);
    reveal(Machine::execute);
}

/// Subtracting register `x` from register `y` into register `x` sets the
/// flag register to 1 if register `y` is the smaller, and to 0 if it is not.
pub proof fn lemma_reverse_sub_sets_flag(m: Machine, x: u8, y: u8)
    requires
        m.wf(),
        m.at_instruction(0x8, x, y, 0x7),
    ensures
        m.step().registers[FLAG_REGISTER as int] == 1 <==> m.registers[y as int]
            < m.registers[x as int],
        m.step().registers[FLAG_REGISTER as int] == 0 <==> m.registers[y as int]
            >= m.registers[x as int],
        x != FLAG_REGISTER ==> m.step().registers[x as int] == (m.registers[y as int]
            - m.registers[x as int]) % 256,
{
    reveal(Machine::step);
    reveal(Machine::execute);
}

/// Shifting a register other than the flag register right sets the flag
/// register to bit 7 of the value from before the shift, and halves the
/// register.
pub proof fn lemma_shift_right_sets_flag(m: Machine, x: u8, y: u8)
    requires
        m.wf(),
        m.at_instruction(0x8, x, y, 0x6),
        x != FLAG_REGISTER,
    ensures
        m.step().registers[FLAG_REGISTER as int] == m.registers[x as int] / 128,
        m.step().registers[x as int] == m.registers[x as int] / 2,
{
    reveal(Machine::step);
    reveal(Machine::execute);
}

/// Shifting a register other than the flag register left sets the flag
/// register to bit 0 of the value from before the shift, and doubles the
/// register modulo 256.
pub proof fn lemma_shift_left_sets_flag(m: Machine, x: u8, y: u8)
    requires
        m.wf(),
        m.at_instruction(0x8, x, y, 0xE),
        x != FLAG_REGISTER,
    ensures
        m.step().registers[FLAG_REGISTER as int] == m.registers[x as int] % 2,
        m.step().registers[x as int] == (m.registers[x as int] * 2) % 256,
{
    reveal(Machine::step);
    reveal(Machine::execute);
}

/// A call followed at once by a return brings the program counter to the
/// instruction after the call, with the stack pointer, the registers and
/// memory as they were.
pub proof fn lemma_call_then_return(m: Machine, n1: u8, n2: u8, n3: u8)
    requires
        m.wf(),
        m.at_instruction(0x2, n1, n2, n3),
        m.sp < STACK_DEPTH,
        m.step().at_instruction(0x0, 0x0, 0xE, 0xE),
    ensures
        m.step().pc == target(n1, n2, n3),
        m.step().step().pc == (m.pc + 2) % 4096,
        m.step().step().sp == m.sp,
        m.step().step().state == State::Running,
        m.step().step().registers == m.registers,
        m.step().step().memory == m.memory,
        m.step().step().index == m.index,
{
    reveal(Machine::step);
    reveal(Machine::execute);
}

/// Whether the skip instruction with nibbles `(c, x, y, d)` skips on the
/// machine `m`.
pub open spec fn skips(m: Machine, c: u8, x: u8, y: u8, d: u8) -> bool {
    if c == 0x3 {
        m.registers[x as int] == immediate(y, d)
    } else if c == 0x4 {
        m.registers[x as int] != immediate(y, d)
    } else if c == 0x5 {
        m.registers[x as int] == m.registers[y as int]
    } else {
        m.registers[x as int] != m.registers[y as int]
    }
}

/// A skip instruction moves the program counter on by two instructions
/// where its condition holds and by one where it does not, wrapping at the
/// end of memory, and changes nothing else.
pub proof fn lemma_skip_advances(m: Machine, c: u8, x: u8, y: u8, d: u8)
    requires
        m.wf(),
        m.at_instruction(c, x, y, d),
        c == 0x3 || c == 0x4 || (c == 0x5 && d == 0) || (c == 0x9 && d == 0),
    ensures
        skips(m, c, x, y, d) ==> m.step() == m.with_pc(((m.pc + 4) % 4096) as nat),
        !skips(m, c, x, y, d) ==> m.step() == m.with_pc(((m.pc + 2) % 4096) as nat),
{
    reveal(Machine::step);
    reveal(Machine::execute);
}

} // verus!
