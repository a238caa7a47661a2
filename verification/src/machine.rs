//! The machine as a mathematical value, and what each instruction does to it.
//!
//! `Machine` is the view of the processor: sequences and integers in place of
//! arrays and addresses. One step of execution is the function `step`; the
//! executable processor is proved to compute it.
use crate::dispatch::{mnemonic_of, Mnemonic};
use crate::opcodes::{immediate, nibbles, target, OpCode};
use vstd::prelude::*;

verus! {

/// Number of general-purpose registers.
pub const REGISTER_COUNT: usize = 16;

/// Number of bytes of memory.
pub const MEMORY_SIZE: usize = 4096;

/// Number of return addresses that the call stack holds.
pub const STACK_DEPTH: usize = 16;

/// Index of the register that receives carry, borrow and shifted-out bits.
pub const FLAG_REGISTER: usize = 15;

/// Why a machine stopped abnormally.
#[derive(Debug, Clone, Copy, PartialEq, Eq, Structural)]
pub enum Fault {
    /// A call with the call stack full.
    StackOverflow,
    /// A return with the call stack empty.
    StackUnderflow,
    /// A register, memory or stack index outside its range.
    OutOfBounds,
    /// A word that denotes no instruction.
    UnimplementedOpcode { code: u16 },
}

/// Whether a machine can execute another instruction.
#[derive(Debug, Clone, Copy, PartialEq, Eq, Structural)]
pub enum State {
    Running,
    Halted,
    Faulted(Fault),
}

/// An instruction that the machine recognises and leaves to its host, with
/// its three operand nibbles.
#[derive(Debug, Clone, Copy, PartialEq, Eq, Structural)]
pub struct Request {
    pub mnemonic: Mnemonic,
    pub x: u8,
    pub y: u8,
    pub d: u8,
}

/// The state of a machine.
#[verifier::ext_equal]
pub struct Machine {
    pub registers: Seq<u8>,
    pub pc: nat,
    pub index: u16,
    pub memory: Seq<u8>,
    pub stack: Seq<nat>,
    pub sp: nat,
    pub state: State,
}

/// `bytes` laid over `memory` from position `loc` on.
pub open spec fn overlay(memory: Seq<u8>, loc: int, bytes: Seq<u8>) -> Seq<u8> {
    Seq::new(
        memory.len(),
        |k: int|
            if loc <= k < loc + bytes.len() {
                bytes[k - loc]
            } else {
                memory[k]
            },
    )
}

/// The bytes of a sequence of instructions, the high byte of each first.
pub open spec fn instruction_bytes(data: Seq<OpCode>) -> Seq<u8> {
    Seq::new(
        2 * data.len(),
        |k: int|
            if k % 2 == 0 {
                data[k / 2].0
            } else {
                data[k / 2].1
            },
    )
}

/// A sequence of bytes read as pairs: where one byte is left over at the end,
/// it stands for both bytes of its pair.
pub open spec fn byte_pairs(data: Seq<u8>) -> Seq<u8> {
    if data.len() % 2 == 0 {
        data
    } else {
        data.push(data.last())
    }
}

/// True when `count` bytes from `loc` on lie inside memory. Zero bytes fit
/// at every position.
pub open spec fn fits(loc: int, count: nat) -> bool {
    count == 0 || loc + count <= MEMORY_SIZE
}

impl Machine {
    /// The shape that every machine has: sixteen registers, 4096 bytes of
    /// memory, a stack of sixteen addresses of which the first `sp` are
    /// live, and every address below 4096.
    pub open spec fn wf(self) -> bool {
        &&& self.registers.len() == REGISTER_COUNT
        &&& self.memory.len() == MEMORY_SIZE
        &&& self.stack.len() == STACK_DEPTH
        &&& self.pc < MEMORY_SIZE
        &&& self.sp <= STACK_DEPTH
        &&& forall|k: int| 0 <= k < STACK_DEPTH ==> #[trigger] self.stack[k] < MEMORY_SIZE
    }

    /// The machine before anything is loaded: all zero, and running.
    pub open spec fn zeroed() -> Machine {
        Machine {
            registers: Seq::new(REGISTER_COUNT as nat, |k: int| 0u8),
            pc: 0,
            index: 0,
            memory: Seq::new(MEMORY_SIZE as nat, |k: int| 0u8),
            stack: Seq::new(STACK_DEPTH as nat, |k: int| 0nat),
            sp: 0,
            state: State::Running,
        }
    }

    /// True when `x` is the index of a register.
    pub open spec fn has_register(self, x: int) -> bool {
        0 <= x < REGISTER_COUNT
    }

    /// The machine with register `x` set to `value`.
    pub open spec fn with_register(self, x: int, value: u8) -> Machine {
        Machine { registers: self.registers.update(x, value), ..self }
    }

    /// The machine with the program counter at `pc`.
    pub open spec fn with_pc(self, pc: nat) -> Machine {
        Machine { pc, ..self }
    }

    /// The machine in the state `state`.
    pub open spec fn with_state(self, state: State) -> Machine {
        Machine { state, ..self }
    }

    /// The machine with `bytes` written to memory from `loc` on.
    pub open spec fn load(self, loc: int, bytes: Seq<u8>) -> Machine {
        Machine { memory: overlay(self.memory, loc, bytes), ..self }
    }

    /// The program counter moved on by one instruction, wrapping at the end
    /// of memory.
    pub open spec fn advance(self) -> Machine {
        self.with_pc(((self.pc + 2) % 4096) as nat)
    }

    /// The program counter moved on by one instruction if `condition` holds.
    pub open spec fn advance_if(self, condition: bool) -> Machine {
        if condition {
            self.advance()
        } else {
            self
        }
    }

    /// The word at the program counter, high byte first. Both bytes must lie
    /// in memory.
    pub open spec fn fetch(self) -> Result<u16, Fault> {
        if self.pc + 1 < MEMORY_SIZE {
            Ok((self.memory[self.pc as int] * 256 + self.memory[self.pc as int + 1]) as u16)
        } else {
            Err(Fault::OutOfBounds)
        }
    }

    /// True when the machine is running and the word at its program counter
    /// has the nibbles `(c, x, y, d)`.
    pub open spec fn at_instruction(self, c: u8, x: u8, y: u8, d: u8) -> bool {
        &&& self.state == State::Running
        &&& self.fetch() matches Ok(code)
        &&& nibbles(code) == (c, x, y, d)
    }

    /// Halt: the machine stops.
    pub open spec fn halt(self) -> Machine {
        self.with_state(State::Halted)
    }

    /// Return: the newest live stack entry becomes the program counter.
    pub open spec fn ret(self) -> Result<Machine, Fault> {
        if self.sp == 0 {
            Err(Fault::StackUnderflow)
        } else if self.sp > STACK_DEPTH {
            Err(Fault::OutOfBounds)
        } else {
            Ok(Machine { sp: (self.sp - 1) as nat, pc: self.stack[self.sp - 1], ..self })
        }
    }

    /// Goto: the program counter becomes `addr`. The stack is left alone.
    pub open spec fn goto(self, addr: nat) -> Machine {
        self.with_pc(addr)
    }

    /// Call: the program counter is pushed, then set to `addr`.
    pub open spec fn call(self, addr: nat) -> Result<Machine, Fault> {
        if self.sp >= STACK_DEPTH {
            Err(Fault::StackOverflow)
        } else {
            Ok(
                Machine {
                    stack: self.stack.update(self.sp as int, self.pc),
                    sp: self.sp + 1,
                    pc: addr,
                    ..self
                },
            )
        }
    }

    /// Skips the next instruction if register `x` equals `nn`.
    pub open spec fn skip_x_eq_nn(self, x: int, nn: u8) -> Result<Machine, Fault> {
        if self.has_register(x) {
            Ok(self.advance_if(self.registers[x] == nn))
        } else {
            Err(Fault::OutOfBounds)
        }
    }

    /// Skips the next instruction if register `x` differs from `nn`.
    pub open spec fn skip_x_neq_nn(self, x: int, nn: u8) -> Result<Machine, Fault> {
        if self.has_register(x) {
            Ok(self.advance_if(self.registers[x] != nn))
        } else {
            Err(Fault::OutOfBounds)
        }
    }

    /// Skips the next instruction if registers `x` and `y` are equal.
    pub open spec fn skip_x_eq_y(self, x: int, y: int) -> Result<Machine, Fault> {
        if self.has_register(x) && self.has_register(y) {
            Ok(self.advance_if(self.registers[x] == self.registers[y]))
        } else {
            Err(Fault::OutOfBounds)
        }
    }

    /// Skips the next instruction if registers `x` and `y` differ.
    pub open spec fn skip_x_neq_y(self, x: int, y: int) -> Result<Machine, Fault> {
        if self.has_register(x) && self.has_register(y) {
            Ok(self.advance_if(self.registers[x] != self.registers[y]))
        } else {
            Err(Fault::OutOfBounds)
        }
    }

    /// Register `x` becomes `nn`.
    pub open spec fn set_x_to_nn(self, x: int, nn: u8) -> Result<Machine, Fault> {
        if self.has_register(x) {
            Ok(self.with_register(x, nn))
        } else {
            Err(Fault::OutOfBounds)
        }
    }

    /// Adds an immediate, modulo 256. The flag register is left alone.
    pub open spec fn add_nn_to_x(self, x: int, nn: u8) -> Result<Machine, Fault> {
        if self.has_register(x) {
            Ok(self.with_register(x, ((self.registers[x] + nn) % 256) as u8))
        } else {
            Err(Fault::OutOfBounds)
        }
    }

    /// Register `x` becomes register `y`.
    pub open spec fn set_xy(self, x: int, y: int) -> Result<Machine, Fault> {
        if self.has_register(x) && self.has_register(y) {
            Ok(self.with_register(x, self.registers[y]))
        } else {
            Err(Fault::OutOfBounds)
        }
    }

    /// Register `x` becomes the bitwise or of registers `x` and `y`. The flag
    /// register is left alone.
    pub open spec fn or_xy(self, x: int, y: int) -> Result<Machine, Fault> {
        if self.has_register(x) && self.has_register(y) {
            Ok(self.with_register(x, self.registers[x] | self.registers[y]))
        } else {
            Err(Fault::OutOfBounds)
        }
    }

    /// Register `x` becomes the bitwise and of registers `x` and `y`. The flag
    /// register is left alone.
    pub open spec fn and_xy(self, x: int, y: int) -> Result<Machine, Fault> {
        if self.has_register(x) && self.has_register(y) {
            Ok(self.with_register(x, self.registers[x] & self.registers[y]))
        } else {
            Err(Fault::OutOfBounds)
        }
    }

    /// Register `x` becomes the bitwise exclusive or of registers `x` and `y`.
    /// The flag register is left alone.
    pub open spec fn xor_xy(self, x: int, y: int) -> Result<Machine, Fault> {
        if self.has_register(x) && self.has_register(y) {
            Ok(self.with_register(x, self.registers[x] ^ self.registers[y]))
        } else {
            Err(Fault::OutOfBounds)
        }
    }

    /// Register `x` becomes the sum modulo 256; then the flag register
    /// becomes 1 if the sum passed 255, else 0.
    pub open spec fn add_xy(self, x: int, y: int) -> Result<Machine, Fault> {
        if self.has_register(x) && self.has_register(y) {
            let sum = self.registers[x] + self.registers[y];
            Ok(
                self.with_register(x, (sum % 256) as u8).with_register(
                    FLAG_REGISTER as int,
                    if sum > 255 {
                        1u8
                    } else {
                        0u8
                    },
                ),
            )
        } else {
            Err(Fault::OutOfBounds)
        }
    }

    /// Register `x` becomes `x - y` modulo 256; then the flag register
    /// becomes 1 if `y` was the larger, else 0.
    pub open spec fn sub_xy(self, x: int, y: int) -> Result<Machine, Fault> {
        if self.has_register(x) && self.has_register(y) {
            let difference = self.registers[x] - self.registers[y];
            Ok(
                self.with_register(x, (difference % 256) as u8).with_register(
                    FLAG_REGISTER as int,
                    if difference < 0 {
                        1u8
                    } else {
                        0u8
                    },
                ),
            )
        } else {
            Err(Fault::OutOfBounds)
        }
    }

    /// Register `x` becomes `y - x` modulo 256; then the flag register
    /// becomes 1 if `x` was the larger, else 0.
    pub open spec fn sub_yx(self, x: int, y: int) -> Result<Machine, Fault> {
        if self.has_register(x) && self.has_register(y) {
            let difference = self.registers[y] - self.registers[x];
            Ok(
                self.with_register(x, (difference % 256) as u8).with_register(
                    FLAG_REGISTER as int,
                    if difference < 0 {
                        1u8
                    } else {
                        0u8
                    },
                ),
            )
        } else {
            Err(Fault::OutOfBounds)
        }
    }

    /// The flag register becomes bit 7 of register `x`; then register `x` is
    /// halved.
    pub open spec fn shift_right(self, x: int) -> Result<Machine, Fault> {
        if self.has_register(x) {
            let flagged = self.with_register(FLAG_REGISTER as int, self.registers[x] / 128);
            Ok(flagged.with_register(x, flagged.registers[x] / 2))
        } else {
            Err(Fault::OutOfBounds)
        }
    }

    /// The flag register becomes bit 0 of register `x`; then register `x` is
    /// doubled, modulo 256.
    pub open spec fn shift_left(self, x: int) -> Result<Machine, Fault> {
        if self.has_register(x) {
            let flagged = self.with_register(FLAG_REGISTER as int, self.registers[x] % 2);
            Ok(flagged.with_register(x, ((flagged.registers[x] * 2) % 256) as u8))
        } else {
            Err(Fault::OutOfBounds)
        }
    }

    /// Register `x` becomes the byte `random`, which the host drew, masked by
    /// `nn`.
    pub open spec fn rand(self, x: int, nn: u8, random: u8) -> Result<Machine, Fault> {
        if self.has_register(x) {
            Ok(self.with_register(x, random & nn))
        } else {
            Err(Fault::OutOfBounds)
        }
    }

    /// The index register becomes `addr`.
    pub open spec fn set_i_to_nnn(self, addr: nat) -> Machine {
        Machine { index: addr as u16, ..self }
    }

    /// What the instruction `mnemonic` with operand nibbles `x`, `y`, `d`
    /// does to a machine whose program counter has already moved past it.
    /// An instruction that is left to the host changes nothing.
    #[verifier::opaque]
    pub open spec fn execute(self, mnemonic: Mnemonic, x: u8, y: u8, d: u8) -> Result<
        Machine,
        Fault,
    > {
        let nn = immediate(y, d) as u8;
        let nnn = target(x, y, d) as nat;
        match mnemonic {
            Mnemonic::Halt => Ok(self.halt()),
            Mnemonic::Ret => self.ret(),
            Mnemonic::Goto => Ok(self.goto(nnn)),
            Mnemonic::Call => self.call(nnn),
            Mnemonic::SkipXEqNn => self.skip_x_eq_nn(x as int, nn),
            Mnemonic::SkipXNeqNn => self.skip_x_neq_nn(x as int, nn),
            Mnemonic::SkipXEqY => self.skip_x_eq_y(x as int, y as int),
            Mnemonic::SetXToNn => self.set_x_to_nn(x as int, nn),
            Mnemonic::AddNnToX => self.add_nn_to_x(x as int, nn),
            Mnemonic::SetXToY => self.set_xy(x as int, y as int),
            Mnemonic::Or => self.or_xy(x as int, y as int),
            Mnemonic::And => self.and_xy(x as int, y as int),
            Mnemonic::Xor => self.xor_xy(x as int, y as int),
            Mnemonic::Add => self.add_xy(x as int, y as int),
            Mnemonic::Sub => self.sub_xy(x as int, y as int),
            Mnemonic::ShiftRight => self.shift_right(x as int),
            Mnemonic::SubX => self.sub_yx(x as int, y as int),
            Mnemonic::ShiftLeft => self.shift_left(x as int),
            Mnemonic::SkipXNeqY => self.skip_x_neq_y(x as int, y as int),
            Mnemonic::SetIToNnn => Ok(self.set_i_to_nnn(nnn)),
            _ => Ok(self),
        }
    }

    /// One step: fetch the word at the program counter, recognise it, move
    /// the program counter past it and execute it. A machine that is not
    /// running stays as it is. A step that faults changes the state alone.
    #[verifier::opaque]
    pub open spec fn step(self) -> Machine {
        if self.state != State::Running {
            self
        } else {
            match self.fetch() {
                Err(fault) => self.with_state(State::Faulted(fault)),
                Ok(code) => match mnemonic_of(code) {
                    None => self.with_state(State::Faulted(Fault::UnimplementedOpcode { code })),
                    Some(mnemonic) => {
                        let (c, x, y, d) = nibbles(code);
                        match self.advance().execute(mnemonic, x, y, d) {
                            Ok(next) => next,
                            Err(fault) => self.with_state(State::Faulted(fault)),
                        }
                    },
                },
            }
        }
    }

    /// The instruction that the next step leaves to the host, if it does so.
    pub open spec fn request(self) -> Option<Request> {
        if self.state != State::Running {
            None
        } else {
            match self.fetch() {
                Err(fault) => None,
                Ok(code) => match mnemonic_of(code) {
                    None => None,
                    Some(mnemonic) => {
                        let (c, x, y, d) = nibbles(code);
                        if mnemonic.is_native() {
                            None
                        } else {
                            Some(Request { mnemonic, x, y, d })
                        }
                    },
                },
            }
        }
    }

    /// The machine after `n` steps.
    pub open spec fn run(self, n: nat) -> Machine
        decreases n,
    {
        if n == 0 {
            self
        } else {
            self.step().run((n - 1) as nat)
        }
    }

    /// Running one step is `step`.
    pub proof fn lemma_run_one(self)
        ensures
            self.run(1) == self.step(),
    {
        reveal_with_fuel(Machine::run, 2);
    }

    /// Running `a` steps and then `b` more is running `a + b` steps.
    pub proof fn lemma_run_split(self, a: nat, b: nat)
        ensures
            self.run(a).run(b) == self.run(a + b),
        decreases a,
    {
        if a > 0 {
            self.step().lemma_run_split((a - 1) as nat, b);
        }
    }

    /// Once a machine has halted or faulted after `k` steps, more steps
    /// change nothing: running `n >= k` steps gives what `k` steps gave.
    pub proof fn lemma_run_settles(self, k: nat, n: nat)
        requires
            k <= n,
            self.run(k).state != State::Running,
        ensures
            self.run(n) == self.run(k),
    {
        self.lemma_run_split(k, (n - k) as nat);
        self.run(k).lemma_run_stopped((n - k) as nat);
    }

    /// A machine that has halted or faulted stays as it is, however many
    /// steps are asked of it.
    pub proof fn lemma_run_stopped(self, n: nat)
        requires
            self.state != State::Running,
        ensures
            self.run(n) == self,
        decreases n,
    {
        if n > 0 {
            reveal(Machine::step);
            self.lemma_run_stopped((n - 1) as nat);
        }
    }
}

} // verus!
