//! The processor: registers, memory, call stack and program counter, with the
//! fetch, decode and execute cycle over them.
use crate::address::Address;
use crate::dispatch::{classify, Mnemonic};
use crate::machine::{
    byte_pairs, fits, instruction_bytes, overlay, Fault, Machine, Request, State, FLAG_REGISTER,
    MEMORY_SIZE, REGISTER_COUNT, STACK_DEPTH,
};
use crate::opcodes::{
    immediate, is_nibble, join_nibbles, lemma_join_nibbles, nibbles, target, OpCode, NIBBLE,
    OPCODELENGTH,
};
use vstd::prelude::*;
use vstd::std_specs::convert::FromSpecImpl;

verus! {

/// The registers that have a name, each with its index in the register file.
#[derive(Debug, Clone, Copy, PartialEq, Eq, Structural)]
pub enum NamedRegister {
    Flag,
}

impl NamedRegister {
    /// The index of the register in the register file.
    pub open spec fn spec_register_index(self) -> usize {
        match self {
            NamedRegister::Flag => FLAG_REGISTER,
        }
    }

    /// The index of the register in the register file.
    #[verifier::when_used_as_spec(spec_register_index)]
    pub fn index(self) -> (at: usize)
        ensures
            at == self.spec_register_index(),
            at < REGISTER_COUNT,
    {
        match self {
            NamedRegister::Flag => FLAG_REGISTER,
        }
    }

    /// The named register at index `at`, if that register has a name.
    pub fn from_index(at: u16) -> (named: Option<NamedRegister>)
        ensures
            named == if at == FLAG_REGISTER {
                Some(NamedRegister::Flag)
            } else {
                None
            },
            named matches Some(register) ==> register.index() == at,
    {
        if at == 0xF {
            Some(NamedRegister::Flag)
        } else {
            None
        }
    }
}

/// The 8-bit immediate operand of an instruction, as its two nibbles.
#[derive(Debug, Clone, Copy)]
pub struct ByteConstant(u8, u8);

impl View for ByteConstant {
    type V = u8;

    closed spec fn view(&self) -> u8 {
        join_nibbles(self.0, self.1)
    }
}

impl FromSpecImpl<(&u8, &u8)> for ByteConstant {
    open spec fn obeys_from_spec() -> bool {
        true
    }

    closed spec fn from_spec(nibbles: (&u8, &u8)) -> ByteConstant {
        ByteConstant(*nibbles.0, *nibbles.1)
    }
}

impl From<(&u8, &u8)> for ByteConstant {
    fn from(nibbles: (&u8, &u8)) -> (constant: ByteConstant)
        ensures
            constant@ == join_nibbles(*nibbles.0, *nibbles.1),
            is_nibble(*nibbles.0) && is_nibble(*nibbles.1) ==> constant@ == immediate(
                *nibbles.0,
                *nibbles.1,
            ),
    {
        proof {
            if is_nibble(*nibbles.0) && is_nibble(*nibbles.1) {
                lemma_join_nibbles(*nibbles.0, *nibbles.1);
            }
        }
        ByteConstant(*nibbles.0, *nibbles.1)
    }
}

impl FromSpecImpl<ByteConstant> for u8 {
    open spec fn obeys_from_spec() -> bool {
        true
    }

    open spec fn from_spec(constant: ByteConstant) -> u8 {
        constant@
    }
}

impl From<ByteConstant> for u8 {
    fn from(constant: ByteConstant) -> (byte: u8)
        ensures
            byte == constant@,
    {
        constant.0 << NIBBLE | constant.1
    }
}

/// A single-nibble operand of an instruction.
#[derive(Debug, Clone, Copy)]
pub struct NibbleConstant(u8);

impl View for NibbleConstant {
    type V = u8;

    closed spec fn view(&self) -> u8 {
        self.0
    }
}

impl FromSpecImpl<&u8> for NibbleConstant {
    open spec fn obeys_from_spec() -> bool {
        true
    }

    closed spec fn from_spec(nibble: &u8) -> NibbleConstant {
        NibbleConstant(*nibble)
    }
}

impl From<&u8> for NibbleConstant {
    fn from(nibble: &u8) -> (constant: NibbleConstant)
        ensures
            constant@ == *nibble,
    {
        NibbleConstant(*nibble)
    }
}

impl FromSpecImpl<NibbleConstant> for u8 {
    open spec fn obeys_from_spec() -> bool {
        true
    }

    open spec fn from_spec(constant: NibbleConstant) -> u8 {
        constant@
    }
}

impl From<NibbleConstant> for u8 {
    fn from(constant: NibbleConstant) -> (byte: u8)
        ensures
            byte == constant@,
    {
        constant.0
    }
}

/// The processor. Its view is the `Machine` that its fields describe.
#[derive(Debug)]
pub struct CPU {
    pub registers: [u8; REGISTER_COUNT],
    pub program_counter: Address,
    pub i: u16,
    pub memory: [u8; MEMORY_SIZE],
    pub stack: [Address; STACK_DEPTH],
    pub stack_pointer: usize,
    pub state: State,
}

impl View for CPU {
    type V = Machine;

    open spec fn view(&self) -> Machine {
        Machine {
            registers: self.registers@,
            pc: self.program_counter@,
            index: self.i,
            memory: self.memory@,
            stack: self.stack@.map_values(|a: Address| a@),
            sp: self.stack_pointer as nat,
            state: self.state,
        }
    }
}

proof fn lemma_decode_bits(code: u16)
    by (bit_vector)
    ensures
        (code & 0xF000) >> 12 == code / 4096,
        (code & 0x0F00) >> 8 == code / 256 % 16,
        (code & 0x00F0) >> 4 == code / 16 % 16,
        code & 0x000F == code % 16,
{
}

proof fn lemma_shift_bits(v: u8)
    by (bit_vector)
    ensures
        (v >> 7) & 1 == v / 128,
        v >> 1 == v / 2,
        v & 1 == v % 2,
{
}

proof fn lemma_double_bits(v: u8)
    by (bit_vector)
    ensures
        v << 1 == (v * 2) % 256,
{
}

impl CPU {
    /// A processor with every register, every byte of memory and the call
    /// stack at zero, ready to run from address 0.
    pub fn new() -> (cpu: CPU)
        ensures
            cpu@ == Machine::zeroed(),
            cpu@.wf(),
    {
        let origin = Address::from(0u16);
        let cpu = CPU {
            registers: [0; REGISTER_COUNT],
            program_counter: origin,
            i: 0,
            memory: [0; MEMORY_SIZE],
            stack: [origin; STACK_DEPTH],
            stack_pointer: 0,
            state: State::Running,
        };
        proof {
            assert(cpu@.registers =~= Machine::zeroed().registers);
            assert(cpu@.memory =~= Machine::zeroed().memory);
            assert(cpu@.stack =~= Machine::zeroed().stack);
        }
        cpu
    }

    /// The view of a processor has the shape of a machine, whatever its
    /// fields hold, but for the stack pointer, which must not pass the depth
    /// of the stack.
    pub proof fn lemma_view_wf(self)
        requires
            self.stack_pointer <= STACK_DEPTH,
        ensures
            self@.wf(),
    {
        self.program_counter.lemma_in_range();
        assert forall|k: int| 0 <= k < STACK_DEPTH implies #[trigger] self@.stack[k]
            < MEMORY_SIZE by {
            self.stack[k].lemma_in_range();
        }
    }

    /// Copies register `y` into register `x`.
    pub fn set_xy(&mut self, x: usize, y: usize) -> (r: Result<(), Fault>)
        ensures
            match old(self)@.set_xy(x as int, y as int) {
                Ok(next) => r is Ok && final(self)@ == next,
                Err(fault) => r == Err::<(), Fault>(fault) && final(self)@ == old(self)@,
            },
    {
        if x >= REGISTER_COUNT || y >= REGISTER_COUNT {
            return Err(Fault::OutOfBounds);
        }
        let value = self.registers[y];
        self.registers[x] = value;
        Ok(())
    }

    /// Register `x` becomes the bitwise or of registers `x` and `y`. The flag
    /// register is left alone.
    pub fn or_xy(&mut self, x: usize, y: usize) -> (r: Result<(), Fault>)
        ensures
            match old(self)@.or_xy(x as int, y as int) {
                Ok(next) => r is Ok && final(self)@ == next,
                Err(fault) => r == Err::<(), Fault>(fault) && final(self)@ == old(self)@,
            },
    {
        if x >= REGISTER_COUNT || y >= REGISTER_COUNT {
            return Err(Fault::OutOfBounds);
        }
        let value = self.registers[x] | self.registers[y];
        self.registers[x] = value;
        Ok(())
    }

    /// Register `x` becomes the bitwise and of registers `x` and `y`. The flag
    /// register is left alone.
    pub fn and_xy(&mut self, x: usize, y: usize) -> (r: Result<(), Fault>)
        ensures
            match old(self)@.and_xy(x as int, y as int) {
                Ok(next) => r is Ok && final(self)@ == next,
                Err(fault) => r == Err::<(), Fault>(fault) && final(self)@ == old(self)@,
            },
    {
        if x >= REGISTER_COUNT || y >= REGISTER_COUNT {
            return Err(Fault::OutOfBounds);
        }
        let value = self.registers[x] & self.registers[y];
        self.registers[x] = value;
        Ok(())
    }

    /// Register `x` becomes the bitwise exclusive or of registers `x` and `y`.
    /// The flag register is left alone.
    pub fn xor_xy(&mut self, x: usize, y: usize) -> (r: Result<(), Fault>)
        ensures
            match old(self)@.xor_xy(x as int, y as int) {
                Ok(next) => r is Ok && final(self)@ == next,
                Err(fault) => r == Err::<(), Fault>(fault) && final(self)@ == old(self)@,
            },
    {
        if x >= REGISTER_COUNT || y >= REGISTER_COUNT {
            return Err(Fault::OutOfBounds);
        }
        let value = self.registers[x] ^ self.registers[y];
        self.registers[x] = value;
        Ok(())
    }

    /// Adds register `y` to register `x`, modulo 256. The flag register becomes
    /// 1 if the sum passed 255, else 0.
    pub fn add_xy(&mut self, x: usize, y: usize) -> (r: Result<(), Fault>)
        ensures
            match old(self)@.add_xy(x as int, y as int) {
                Ok(next) => r is Ok && final(self)@ == next,
                Err(fault) => r == Err::<(), Fault>(fault) && final(self)@ == old(self)@,
            },
    {
        if x >= REGISTER_COUNT || y >= REGISTER_COUNT {
            return Err(Fault::OutOfBounds);
        }
        let arg1 = self.registers[x];
        let arg2 = self.registers[y];
        let val = arg1.wrapping_add(arg2);
        let overflow = arg2 > u8::MAX - arg1;
        self.registers[x] = val;
        if overflow {
            self.registers[NamedRegister::Flag.index()] = 1;
        } else {
            self.registers[NamedRegister::Flag.index()] = 0;
        }
        Ok(())
    }

    /// Subtracts register `y` from register `x`, modulo 256. The flag register
    /// becomes 1 if register `y` was the larger, else 0.
    pub fn sub_xy(&mut self, x: usize, y: usize) -> (r: Result<(), Fault>)
        ensures
            match old(self)@.sub_xy(x as int, y as int) {
                Ok(next) => r is Ok && final(self)@ == next,
                Err(fault) => r == Err::<(), Fault>(fault) && final(self)@ == old(self)@,
            },
    {
        if x >= REGISTER_COUNT || y >= REGISTER_COUNT {
            return Err(Fault::OutOfBounds);
        }
        let arg1 = self.registers[x];
        let arg2 = self.registers[y];
        let val = arg1.wrapping_sub(arg2);
        let overflow = arg1 < arg2;
        self.registers[x] = val;
        if overflow {
            self.registers[NamedRegister::Flag.index()] = 1;
        } else {
            self.registers[NamedRegister::Flag.index()] = 0;
        }
        Ok(())
    }

    /// The flag register becomes bit 7 of register `x`; then register `x` is
    /// shifted right by one bit.
    pub fn shift_right(&mut self, x: usize, _y: usize) -> (r: Result<(), Fault>)
        ensures
            match old(self)@.shift_right(x as int) {
                Ok(next) => r is Ok && final(self)@ == next,
                Err(fault) => r == Err::<(), Fault>(fault) && final(self)@ == old(self)@,
            },
    {
        if x >= REGISTER_COUNT {
            return Err(Fault::OutOfBounds);
        }
        let bit = (self.registers[x] >> 7) & 1;
        proof {
            lemma_shift_bits(self.registers[x as int]);
        }
        self.registers[NamedRegister::Flag.index()] = bit;
        let value = self.registers[x] >> 1;
        proof {
            lemma_shift_bits(self.registers[x as int]);
        }
        self.registers[x] = value;
        Ok(())
    }

    /// Register `x` becomes register `y` minus register `x`, modulo 256. The
    /// flag register becomes 1 if register `x` was the larger, else 0.
    pub fn sub_yx(&mut self, x: usize, y: usize) -> (r: Result<(), Fault>)
        ensures
            match old(self)@.sub_yx(x as int, y as int) {
                Ok(next) => r is Ok && final(self)@ == next,
                Err(fault) => r == Err::<(), Fault>(fault) && final(self)@ == old(self)@,
            },
    {
        if x >= REGISTER_COUNT || y >= REGISTER_COUNT {
            return Err(Fault::OutOfBounds);
        }
        let arg1 = self.registers[x];
        let arg2 = self.registers[y];
        let val = arg2.wrapping_sub(arg1);
        let overflow = arg2 < arg1;
        self.registers[x] = val;
        if overflow {
            self.registers[NamedRegister::Flag.index()] = 1;
        } else {
            self.registers[NamedRegister::Flag.index()] = 0;
        }
        Ok(())
    }

    /// The flag register becomes bit 0 of register `x`; then register `x` is
    /// shifted left by one bit.
    pub fn shift_left(&mut self, x: usize, _y: usize) -> (r: Result<(), Fault>)
        ensures
            match old(self)@.shift_left(x as int) {
                Ok(next) => r is Ok && final(self)@ == next,
                Err(fault) => r == Err::<(), Fault>(fault) && final(self)@ == old(self)@,
            },
    {
        if x >= REGISTER_COUNT {
            return Err(Fault::OutOfBounds);
        }
        let bit = self.registers[x] & 1;
        proof {
            lemma_shift_bits(self.registers[x as int]);
        }
        self.registers[NamedRegister::Flag.index()] = bit;
        let value = self.registers[x] << 1;
        proof {
            lemma_double_bits(self.registers[x as int]);
        }
        self.registers[x] = value;
        Ok(())
    }

    /// Jumps to `addr`. The call stack is left alone.
    pub fn goto(&mut self, addr: Address)
        ensures
            final(self)@ == old(self)@.goto(addr@),
    {
        self.program_counter = addr;
    }

    /// Skips the next instruction if register `x` equals `nn`.
    pub fn skip_x_eq_nn(&mut self, x: usize, nn: ByteConstant) -> (r: Result<(), Fault>)
        ensures
            match old(self)@.skip_x_eq_nn(x as int, nn@) {
                Ok(next) => r is Ok && final(self)@ == next,
                Err(fault) => r == Err::<(), Fault>(fault) && final(self)@ == old(self)@,
            },
    {
        if x >= REGISTER_COUNT {
            return Err(Fault::OutOfBounds);
        }
        if self.registers[x] == u8::from(nn) {
            self.program_counter = self.program_counter + OPCODELENGTH;
        }
        Ok(())
    }

    /// Skips the next instruction if register `x` differs from `nn`.
    pub fn skip_x_neq_nn(&mut self, x: usize, nn: ByteConstant) -> (r: Result<(), Fault>)
        ensures
            match old(self)@.skip_x_neq_nn(x as int, nn@) {
                Ok(next) => r is Ok && final(self)@ == next,
                Err(fault) => r == Err::<(), Fault>(fault) && final(self)@ == old(self)@,
            },
    {
        if x >= REGISTER_COUNT {
            return Err(Fault::OutOfBounds);
        }
        if self.registers[x] != u8::from(nn) {
            self.program_counter = self.program_counter + OPCODELENGTH;
        }
        Ok(())
    }

    /// Skips the next instruction if registers `x` and `y` are equal.
    pub fn skip_x_eq_y(&mut self, x: usize, y: usize) -> (r: Result<(), Fault>)
        ensures
            match old(self)@.skip_x_eq_y(x as int, y as int) {
                Ok(next) => r is Ok && final(self)@ == next,
                Err(fault) => r == Err::<(), Fault>(fault) && final(self)@ == old(self)@,
            },
    {
        if x >= REGISTER_COUNT || y >= REGISTER_COUNT {
            return Err(Fault::OutOfBounds);
        }
        if self.registers[x] == self.registers[y] {
            self.program_counter = self.program_counter + OPCODELENGTH;
        }
        Ok(())
    }

    /// Sets register `x` to `nn`.
    pub fn set_x_to_nn(&mut self, x: usize, nn: ByteConstant) -> (r: Result<(), Fault>)
        ensures
            match old(self)@.set_x_to_nn(x as int, nn@) {
                Ok(next) => r is Ok && final(self)@ == next,
                Err(fault) => r == Err::<(), Fault>(fault) && final(self)@ == old(self)@,
            },
    {
        if x >= REGISTER_COUNT {
            return Err(Fault::OutOfBounds);
        }
        self.registers[x] = u8::from(nn);
        Ok(())
    }

    /// Adds `nn` to register `x`, modulo 256. The flag register is left alone.
    pub fn add_nn_to_x(&mut self, x: usize, nn: ByteConstant) -> (r: Result<(), Fault>)
        ensures
            match old(self)@.add_nn_to_x(x as int, nn@) {
                Ok(next) => r is Ok && final(self)@ == next,
                Err(fault) => r == Err::<(), Fault>(fault) && final(self)@ == old(self)@,
            },
    {
        if x >= REGISTER_COUNT {
            return Err(Fault::OutOfBounds);
        }
        let nn: u8 = u8::from(nn);
        let value = self.registers[x].wrapping_add(nn);
        self.registers[x] = value;
        Ok(())
    }

    /// Skips the next instruction if registers `x` and `y` differ.
    pub fn skip_x_neq_y(&mut self, x: usize, y: usize) -> (r: Result<(), Fault>)
        ensures
            match old(self)@.skip_x_neq_y(x as int, y as int) {
                Ok(next) => r is Ok && final(self)@ == next,
                Err(fault) => r == Err::<(), Fault>(fault) && final(self)@ == old(self)@,
            },
    {
        if x >= REGISTER_COUNT || y >= REGISTER_COUNT {
            return Err(Fault::OutOfBounds);
        }
        if self.registers[x] != self.registers[y] {
            self.program_counter = self.program_counter + OPCODELENGTH;
        }
        Ok(())
    }

    /// Serves the random instruction, which a step leaves to the host: sets
    /// register `x` to `random`, a byte that the host drew, masked by `nn`.
    pub fn rand(&mut self, x: usize, nn: ByteConstant, random: u8) -> (r: Result<(), Fault>)
        ensures
            match old(self)@.rand(x as int, nn@, random) {
                Ok(next) => r is Ok && final(self)@ == next,
                Err(fault) => r == Err::<(), Fault>(fault) && final(self)@ == old(self)@,
            },
    {
        if x >= REGISTER_COUNT {
            return Err(Fault::OutOfBounds);
        }
        self.registers[x] = random & u8::from(nn);
        Ok(())
    }

    /// Sets the index register to `addr`.
    pub fn set_i_to_nnn(&mut self, addr: Address)
        ensures
            final(self)@ == old(self)@.set_i_to_nnn(addr@),
    {
        self.i = u16::from(addr);
    }

    /// Pushes the program counter on the call stack and jumps to `addr`.
    /// With the stack full nothing changes and the call fails.
    pub fn call(&mut self, addr: Address) -> (r: Result<(), Fault>)
        ensures
            match old(self)@.call(addr@) {
                Ok(next) => r is Ok && final(self)@ == next,
                Err(fault) => r == Err::<(), Fault>(fault) && final(self)@ == old(self)@,
            },
    {
        if self.stack_pointer >= STACK_DEPTH {
            return Err(Fault::StackOverflow);
        }
        self.stack[self.stack_pointer] = self.program_counter;
        self.stack_pointer += 1;
        self.program_counter = addr;
        proof {
            assert(self@.stack =~= old(self)@.stack.update(
                old(self).stack_pointer as int,
                old(self)@.pc,
            ));
        }
        Ok(())
    }

    /// Pops the newest return address off the call stack into the program
    /// counter. With the stack empty nothing changes and the return fails.
    pub fn ret(&mut self) -> (r: Result<(), Fault>)
        ensures
            match old(self)@.ret() {
                Ok(next) => r is Ok && final(self)@ == next,
                Err(fault) => r == Err::<(), Fault>(fault) && final(self)@ == old(self)@,
            },
    {
        if self.stack_pointer == 0 {
            return Err(Fault::StackUnderflow);
        }
        if self.stack_pointer > STACK_DEPTH {
            return Err(Fault::OutOfBounds);
        }
        self.stack_pointer -= 1;
        let call_addr = self.stack[self.stack_pointer];
        self.program_counter = call_addr;
        Ok(())
    }

    /// Writes the instructions of `data` to memory from `loc` on, and
    /// returns the position after the last byte written. Where they do not
    /// all fit, nothing is written.
    pub fn copy_to_mem(&mut self, loc: usize, data: &[OpCode]) -> (r: Result<usize, Fault>)
        ensures
            fits(loc as int, 2 * data@.len()) ==> r == Ok::<usize, Fault>(
                (loc + 2 * data@.len()) as usize,
            ) && final(self)@ == old(self)@.load(loc as int, instruction_bytes(data@)),
            !fits(loc as int, 2 * data@.len()) ==> r == Err::<usize, Fault>(Fault::OutOfBounds)
                && final(self)@ == old(self)@,
    {
        let count = data.len();
        if count == 0 {
            proof {
                let nothing = instruction_bytes(data@);
                assert(self@.memory =~= overlay(self@.memory, loc as int, nothing));
            }
            return Ok(loc);
        }
        if loc > MEMORY_SIZE || count > (MEMORY_SIZE - loc) / 2 {
            return Err(Fault::OutOfBounds);
        }
        let mut at = loc;
        let mut i: usize = 0;
        while i < count
            invariant
                i <= count,
                count == data@.len(),
                loc + 2 * count <= MEMORY_SIZE,
                at == loc + 2 * i,
                self@ == old(self)@.load(loc as int, instruction_bytes(data@.take(i as int))),
            decreases count - i,
        {
            match self.add_to_mem(at, &data[i]) {
                Ok(next) => {
                    at = next;
                },
                Err(fault) => {
                    return Err(fault);
                },
            }
            proof {
                let more = instruction_bytes(data@.take(i as int + 1));
                assert(self@.memory =~= overlay(old(self)@.memory, loc as int, more));
            }
            i += 1;
        }
        proof {
            assert(data@.take(count as int) =~= data@);
        }
        Ok(at)
    }

    /// Writes the bytes of `data` to memory from `loc` on, a pair at a time,
    /// and returns the position after the last byte written. A byte left
    /// over at the end is written twice. Where the pairs do not all fit,
    /// nothing is written.
    pub fn raw_copy_to_mem(&mut self, loc: usize, data: &[u8]) -> (r: Result<usize, Fault>)
        ensures
            fits(loc as int, byte_pairs(data@).len()) ==> r == Ok::<usize, Fault>(
                (loc + byte_pairs(data@).len()) as usize,
            ) && final(self)@ == old(self)@.load(loc as int, byte_pairs(data@)),
            !fits(loc as int, byte_pairs(data@).len()) ==> r == Err::<usize, Fault>(
                Fault::OutOfBounds,
            ) && final(self)@ == old(self)@,
    {
        let count = data.len();
        if count == 0 {
            proof {
                assert(self@.memory =~= overlay(self@.memory, loc as int, byte_pairs(data@)));
            }
            return Ok(loc);
        }
        let pairs = count / 2 + count % 2;
        if loc > MEMORY_SIZE || pairs > (MEMORY_SIZE - loc) / 2 {
            return Err(Fault::OutOfBounds);
        }
        let mut at = loc;
        let mut i: usize = 0;
        while i < pairs
            invariant
                i <= pairs,
                count == data@.len(),
                pairs == count / 2 + count % 2,
                byte_pairs(data@).len() == 2 * pairs,
                loc + 2 * pairs <= MEMORY_SIZE,
                at == loc + 2 * i,
                self@ == old(self)@.load(loc as int, byte_pairs(data@).take(2 * i)),
            decreases pairs - i,
        {
            let high = data[2 * i];
            let low = if 2 * i + 1 < count {
                data[2 * i + 1]
            } else {
                data[2 * i]
            };
            match self.raw_add_to_mem(at, high, low) {
                Ok(next) => {
                    at = next;
                },
                Err(fault) => {
                    return Err(fault);
                },
            }
            proof {
                let more = byte_pairs(data@).take(2 * i + 2);
                assert(self@.memory =~= overlay(old(self)@.memory, loc as int, more));
            }
            i += 1;
        }
        proof {
            assert(byte_pairs(data@).take(2 * pairs) =~= byte_pairs(data@));
        }
        Ok(at)
    }

    /// Writes one instruction to memory at `loc`, high byte first, and
    /// returns the position after it. Where it does not fit, nothing is
    /// written.
    pub fn add_to_mem(&mut self, loc: usize, oc: &OpCode) -> (r: Result<usize, Fault>)
        ensures
            fits(loc as int, 2) ==> r == Ok::<usize, Fault>((loc + 2) as usize)
                && final(self)@ == old(self)@.load(loc as int, seq![oc.0, oc.1]),
            !fits(loc as int, 2) ==> r == Err::<usize, Fault>(Fault::OutOfBounds)
                && final(self)@ == old(self)@,
    {
        self.raw_add_to_mem(loc, oc.high_byte(), oc.low_byte())
    }

    /// Writes two bytes to memory at `loc` and returns the position after
    /// them. Where they do not fit, nothing is written.
    pub fn raw_add_to_mem(&mut self, loc: usize, high: u8, low: u8) -> (r: Result<usize, Fault>)
        ensures
            fits(loc as int, 2) ==> r == Ok::<usize, Fault>((loc + 2) as usize)
                && final(self)@ == old(self)@.load(loc as int, seq![high, low]),
            !fits(loc as int, 2) ==> r == Err::<usize, Fault>(Fault::OutOfBounds)
                && final(self)@ == old(self)@,
    {
        if loc >= MEMORY_SIZE - 1 {
            return Err(Fault::OutOfBounds);
        }
        self.memory[loc] = high;
        self.memory[loc + 1] = low;
        proof {
            assert(self@.memory =~= overlay(old(self)@.memory, loc as int, seq![high, low]));
        }
        Ok(loc + 2)
    }

    /// The word at the program counter, high byte first. Fails where the
    /// word would reach past the end of memory.
    pub fn read_opcode(&self) -> (r: Result<u16, Fault>)
        ensures
            r == self@.fetch(),
    {
        let pc: usize = usize::from(self.program_counter);
        proof {
            self.program_counter.lemma_in_range();
        }
        if pc + 1 >= MEMORY_SIZE {
            return Err(Fault::OutOfBounds);
        }
        let op_byte1 = self.memory[pc];
        let op_byte2 = self.memory[pc + 1];
        Ok(u16::from(OpCode(op_byte1, op_byte2)))
    }

    /// Splits a word into its four nibbles `(c, x, y, d)`.
    pub fn decode(&self, code: u16) -> (fields: (u8, u8, u8, u8))
        ensures
            fields == nibbles(code),
            is_nibble(fields.0) && is_nibble(fields.1) && is_nibble(fields.2) && is_nibble(
                fields.3,
            ),
    {
        proof {
            lemma_decode_bits(code);
        }
        (
            ((code & 0xF000) >> 12) as u8,
            ((code & 0x0F00) >> 8) as u8,
            ((code & 0x00F0) >> 4) as u8,
            (code & 0x000F) as u8,
        )
    }

    /// Executes one recognised instruction on a processor whose program
    /// counter has already moved past it.
    fn execute(&mut self, mnemonic: Mnemonic, x: u8, y: u8, d: u8) -> (r: Result<(), Fault>)
        requires
            is_nibble(x),
            is_nibble(y),
            is_nibble(d),
        ensures
            match old(self)@.execute(mnemonic, x, y, d) {
                Ok(next) => r is Ok && final(self)@ == next,
                Err(fault) => r == Err::<(), Fault>(fault) && final(self)@ == old(self)@,
            },
    {
        let rx = x as usize;
        let ry = y as usize;
        let nn = ByteConstant::from((&y, &d));
        let nnn = Address::from((&x, &y, &d));
        proof {
            reveal(Machine::execute);
            assert(nn@ == immediate(y, d) as u8);
            assert(nnn@ == target(x, y, d) as nat);
        }
        match mnemonic {
            Mnemonic::Halt => {
                self.state = State::Halted;
                Ok(())
            },
            Mnemonic::Ret => self.ret(),
            Mnemonic::Goto => {
                self.goto(nnn);
                Ok(())
            },
            Mnemonic::Call => self.call(nnn),
            Mnemonic::SkipXEqNn => self.skip_x_eq_nn(rx, nn),
            Mnemonic::SkipXNeqNn => self.skip_x_neq_nn(rx, nn),
            Mnemonic::SkipXEqY => self.skip_x_eq_y(rx, ry),
            Mnemonic::SetXToNn => self.set_x_to_nn(rx, nn),
            Mnemonic::AddNnToX => self.add_nn_to_x(rx, nn),
            Mnemonic::SetXToY => self.set_xy(rx, ry),
            Mnemonic::Or => self.or_xy(rx, ry),
            Mnemonic::And => self.and_xy(rx, ry),
            Mnemonic::Xor => self.xor_xy(rx, ry),
            Mnemonic::Add => self.add_xy(rx, ry),
            Mnemonic::Sub => self.sub_xy(rx, ry),
            Mnemonic::ShiftRight => self.shift_right(rx, ry),
            Mnemonic::SubX => self.sub_yx(rx, ry),
            Mnemonic::ShiftLeft => self.shift_left(rx, ry),
            Mnemonic::SkipXNeqY => self.skip_x_neq_y(rx, ry),
            Mnemonic::SetIToNnn => {
                self.set_i_to_nnn(nnn);
                Ok(())
            },
            _ => Ok(()),
        }
    }

    /// The instruction that the next step will leave to the host, if it
    /// does so: the host reads it here, lets the step pass over it, and
    /// serves it on the registers and memory.
    pub fn pending(&self) -> (request: Option<Request>)
        ensures
            request == self@.request(),
    {
        match self.state {
            State::Running => {},
            _ => {
                return None;
            },
        }
        let code = match self.read_opcode() {
            Ok(code) => code,
            Err(_) => {
                return None;
            },
        };
        match classify(code) {
            None => None,
            Some(mnemonic) => {
                let (_c, x, y, d) = self.decode(code);
                if mnemonic.is_native() {
                    None
                } else {
                    Some(Request { mnemonic, x, y, d })
                }
            },
        }
    }

    /// One step of execution: fetch, decode, move the program counter on,
    /// execute. A processor that is not running stays as it is. A step that
    /// faults records the fault in `state` and changes nothing else.
    pub fn step(&mut self)
        ensures
            final(self)@ == old(self)@.step(),
    {
        proof {
            reveal(Machine::step);
        }
        match self.state {
            State::Running => {},
            _ => {
                return;
            },
        }
        let code = match self.read_opcode() {
            Ok(code) => code,
            Err(fault) => {
                self.state = State::Faulted(fault);
                return;
            },
        };
        let mnemonic = match classify(code) {
            Some(mnemonic) => mnemonic,
            None => {
                self.state = State::Faulted(Fault::UnimplementedOpcode { code });
                return;
            },
        };
        let (_c, x, y, d) = self.decode(code);
        let origin = self.program_counter;
        self.program_counter = self.program_counter + OPCODELENGTH;
        match self.execute(mnemonic, x, y, d) {
            Ok(()) => {},
            Err(fault) => {
                self.program_counter = origin;
                self.state = State::Faulted(fault);
            },
        }
    }

    /// Steps until the processor halts or faults, or `budget` steps are
    /// done. Returns the number of steps taken while it was running.
    pub fn run_for(&mut self, budget: u64) -> (steps: u64)
        ensures
            final(self)@ == old(self)@.run(budget as nat),
            final(self)@ == old(self)@.run(steps as nat),
            steps <= budget,
            steps < budget ==> final(self)@.state != State::Running,
            forall|k: nat| k < steps ==> (#[trigger] old(self)@.run(k)).state == State::Running,
    {
        let ghost start = self@;
        let mut steps: u64 = 0;
        while steps < budget
            invariant
                steps <= budget,
                start == old(self)@,
                self@ == start.run(steps as nat),
                forall|k: nat| k < steps ==> (#[trigger] start.run(k)).state == State::Running,
            decreases budget - steps,
        {
            match self.state {
                State::Running => {},
                _ => {
                    proof {
                        Machine::lemma_run_split(start, steps as nat, (budget - steps) as nat);
                        Machine::lemma_run_stopped(self@, (budget - steps) as nat);
                    }
                    return steps;
                },
            }
            proof {
                Machine::lemma_run_split(start, steps as nat, 1);
                self@.lemma_run_one();
            }
            self.step();
            steps += 1;
        }
        steps
    }

    /// Runs until the processor halts or faults. A program that never
    /// stops is given up after `u64::MAX` steps.
    pub fn run(&mut self)
        ensures
            final(self)@ == old(self)@.run(u64::MAX as nat),
            final(self)@.state == State::Running ==> forall|k: nat|
                k <= u64::MAX ==> (#[trigger] old(self)@.run(k)).state == State::Running,
    {
        self.run_for(u64::MAX);
    }
}

} // verus!
