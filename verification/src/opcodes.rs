//! Instruction words: two bytes, high byte first, read as four nibbles
//! `(c, x, y, d)` where `c` selects the instruction family.
use crate::dispatch::{mnemonic_of, Mnemonic};
use vstd::prelude::*;
use vstd::std_specs::convert::FromSpecImpl;

verus! {

/// Width of a nibble in bits.
pub const NIBBLE: u8 = 4;

/// Width of a byte in bits.
pub const BYTE: u8 = 8;

/// Width of one instruction in bytes.
pub const OPCODELENGTH: usize = 2;

/// One 16-bit instruction, stored as its high and low byte.
#[derive(Debug, Clone, Copy, PartialEq, Eq, Structural)]
pub struct OpCode(pub u8, pub u8);

/// True when `n` fits in four bits.
pub open spec fn is_nibble(n: u8) -> bool {
    n < 16
}

/// The four nibbles `(c, x, y, d)` of a 16-bit word, most significant first.
pub open spec fn nibbles(code: u16) -> (u8, u8, u8, u8) {
    ((code / 4096) as u8, (code / 256 % 16) as u8, (code / 16 % 16) as u8, (code % 16) as u8)
}

/// The 16-bit word whose nibbles are `(c, x, y, d)`.
pub open spec fn word_of(c: u8, x: u8, y: u8, d: u8) -> int {
    c * 4096 + x * 256 + y * 16 + d
}

/// Two nibbles side by side in one byte. Bits of `high` above the fourth are
/// lost, and those of `low` spill into the upper half.
pub open spec fn join_nibbles(high: u8, low: u8) -> u8 {
    (high << 4) | low
}

/// The 8-bit immediate made of the two low nibbles of an instruction.
pub open spec fn immediate(y: u8, d: u8) -> int {
    y * 16 + d
}

/// The 12-bit address made of the three low nibbles of an instruction.
pub open spec fn target(x: u8, y: u8, d: u8) -> int {
    x * 256 + y * 16 + d
}

proof fn lemma_pack_bits(c: u8, x: u8, y: u8, d: u8)
    by (bit_vector)
    requires
        c < 16,
        x < 16,
        y < 16,
        d < 16,
    ensures
        (c << 4) | x == c * 16 + x,
        (y << 4) | d == y * 16 + d,
        (c * 4096 + x * 256 + y * 16 + d) as u16 / 4096 == c,
        (c * 4096 + x * 256 + y * 16 + d) as u16 / 256 % 16 == x,
        (c * 4096 + x * 256 + y * 16 + d) as u16 / 16 % 16 == y,
        (c * 4096 + x * 256 + y * 16 + d) as u16 % 16 == d,
{
}

proof fn lemma_split_word(w: u16)
    by (bit_vector)
    ensures
        w / 4096 == w / 256 / 16,
        w / 16 % 16 == w % 256 / 16,
        w % 16 == w % 256 % 16,
{
}

proof fn lemma_rejoin_byte(b: u8)
    by (bit_vector)
    ensures
        ((b / 16) << 4) | (b % 16) == b,
{
}

proof fn lemma_join_bytes(high: u8, low: u8)
    by (bit_vector)
    ensures
        (high as u16) << 8 | (low as u16) == high * 256 + low,
{
}

/// Two nibbles side by side are sixteen times the first plus the second.
pub proof fn lemma_join_nibbles(high: u8, low: u8)
    requires
        is_nibble(high),
        is_nibble(low),
    ensures
        join_nibbles(high, low) == high * 16 + low,
{
    lemma_pack_bits(high, low, high, low);
}

impl OpCode {
    /// The instruction as one 16-bit word, high byte first.
    pub open spec fn word(self) -> u16 {
        (self.0 * 256 + self.1) as u16
    }

    /// The four nibbles `(c, x, y, d)` of the instruction.
    pub open spec fn fields(self) -> (u8, u8, u8, u8) {
        nibbles(self.word())
    }

    /// The two bytes that `encode` builds from four operands, whatever their
    /// size: bits of an operand above the fourth spill into its neighbour or
    /// are lost.
    pub open spec fn pack(c: u8, x: u8, y: u8, d: u8) -> OpCode {
        OpCode(join_nibbles(c, x), join_nibbles(y, d))
    }

    /// Packing four nibbles and splitting the word again gives the nibbles
    /// back, and the word is the one with those nibbles.
    pub proof fn lemma_pack_fields(c: u8, x: u8, y: u8, d: u8)
        requires
            is_nibble(c),
            is_nibble(x),
            is_nibble(y),
            is_nibble(d),
        ensures
            OpCode::pack(c, x, y, d).word() == word_of(c, x, y, d),
            OpCode::pack(c, x, y, d).fields() == (c, x, y, d),
    {
        lemma_pack_bits(c, x, y, d);
    }

    /// Splitting any instruction into nibbles and packing them gives the
    /// instruction back.
    pub proof fn lemma_fields_pack(op: OpCode)
        ensures
            ({
                let (c, x, y, d) = op.fields();
                &&& is_nibble(c)
                &&& is_nibble(x)
                &&& is_nibble(y)
                &&& is_nibble(d)
                &&& OpCode::pack(c, x, y, d) == op
            }),
    {
        lemma_split_word(op.word());
        assert(op.word() / 256 == op.0 && op.word() % 256 == op.1);
        lemma_rejoin_byte(op.0);
        lemma_rejoin_byte(op.1);
    }

    /// The first byte: the family selector and the operand `x`.
    pub fn high_byte(&self) -> (b: u8)
        ensures
            b == self.0,
    {
        self.0
    }

    /// The second byte: the operands `y` and `d`.
    pub fn low_byte(&self) -> (b: u8)
        ensures
            b == self.1,
    {
        self.1
    }

    /// Builds the instruction with family selector `c` and operands `x`, `y`, `d`.
    pub fn encode(c: u8, x: u8, y: u8, d: u8) -> (op: OpCode)
        ensures
            op == OpCode::pack(c, x, y, d),
            is_nibble(c) && is_nibble(x) && is_nibble(y) && is_nibble(d)
                ==> (op.word() == word_of(
                c,
                x,
                y,
                d,
            ) && op.fields() == (c, x, y, d)),
    {
        proof {
            if is_nibble(c) && is_nibble(x) && is_nibble(y) && is_nibble(d) {
                OpCode::lemma_pack_fields(c, x, y, d);
            }
        }
        OpCode(c << NIBBLE | x, y << NIBBLE | d)
    }

    /// Stops the machine.
    pub fn halt() -> (op: OpCode)
        ensures
            op == OpCode(0x00, 0x00),
            op.word() == 0x0000,
            op.fields() == (0x0u8, 0x0u8, 0x0u8, 0x0u8),
            mnemonic_of(op.word()) == Some(Mnemonic::Halt),
    {
        OpCode(0x00, 0x00)
    }

    /// Calls the native routine at address `n1 n2 n3`. The three addresses whose
    /// words are those of halt, clear and return denote those instructions.
    pub fn call_r(n1: u8, n2: u8, n3: u8) -> (op: OpCode)
        ensures
            op == OpCode::pack(0x0, n1, n2, n3),
            is_nibble(n1) && is_nibble(n2) && is_nibble(n3)
                ==> (op.word() == word_of(0x0, n1, n2, n3)
                && op.fields() == (0x0u8, n1, n2, n3)),
            is_nibble(n1) && is_nibble(n2) && is_nibble(n3) && !(n1 == 0 && n2 == 0 && n3 == 0)
                && !(n1 == 0 && n2 == 0xE && n3 == 0) && !(n1 == 0 && n2 == 0xE && n3 == 0xE)
                ==> mnemonic_of(op.word()) == Some(Mnemonic::CallR),
    {
        OpCode::encode(0x0, n1, n2, n3)
    }

    /// Clears the screen.
    pub fn clear() -> (op: OpCode)
        ensures
            op == OpCode(0x00, 0xE0),
            op.word() == 0x00E0,
            op.fields() == (0x0u8, 0x0u8, 0xEu8, 0x0u8),
            mnemonic_of(op.word()) == Some(Mnemonic::Clear),
    {
        OpCode(0x00, 0xE0)
    }

    /// Returns from a subroutine.
    pub fn ret() -> (op: OpCode)
        ensures
            op == OpCode(0x00, 0xEE),
            op.word() == 0x00EE,
            op.fields() == (0x0u8, 0x0u8, 0xEu8, 0xEu8),
            mnemonic_of(op.word()) == Some(Mnemonic::Ret),
    {
        OpCode(0x00, 0xEE)
    }

    /// Jumps to address `n1 n2 n3`.
    pub fn goto(n1: u8, n2: u8, n3: u8) -> (op: OpCode)
        ensures
            op == OpCode::pack(0x1, n1, n2, n3),
            is_nibble(n1) && is_nibble(n2) && is_nibble(n3)
                ==> (op.word() == word_of(0x1, n1, n2, n3)
                && op.fields() == (0x1u8, n1, n2, n3)
                && mnemonic_of(op.word()) == Some(Mnemonic::Goto)),
    {
        OpCode::encode(0x1, n1, n2, n3)
    }

    /// Calls the subroutine at address `n1 n2 n3`.
    pub fn call(n1: u8, n2: u8, n3: u8) -> (op: OpCode)
        ensures
            op == OpCode::pack(0x2, n1, n2, n3),
            is_nibble(n1) && is_nibble(n2) && is_nibble(n3)
                ==> (op.word() == word_of(0x2, n1, n2, n3)
                && op.fields() == (0x2u8, n1, n2, n3)
                && mnemonic_of(op.word()) == Some(Mnemonic::Call)),
    {
        OpCode::encode(0x2, n1, n2, n3)
    }

    /// Skips the next instruction if register `x` equals the immediate `n2 n3`.
    pub fn skip_x_eq_nn(x: u8, n2: u8, n3: u8) -> (op: OpCode)
        ensures
            op == OpCode::pack(0x3, x, n2, n3),
            is_nibble(x) && is_nibble(n2) && is_nibble(n3)
                ==> (op.word() == word_of(0x3, x, n2, n3)
                && op.fields() == (0x3u8, x, n2, n3)
                && mnemonic_of(op.word()) == Some(Mnemonic::SkipXEqNn)),
    {
        OpCode::encode(0x3, x, n2, n3)
    }

    /// Skips the next instruction if register `x` differs from the immediate
    /// `n2 n3`.
    pub fn skip_x_neq_nn(x: u8, n2: u8, n3: u8) -> (op: OpCode)
        ensures
            op == OpCode::pack(0x4, x, n2, n3),
            is_nibble(x) && is_nibble(n2) && is_nibble(n3)
                ==> (op.word() == word_of(0x4, x, n2, n3)
                && op.fields() == (0x4u8, x, n2, n3)
                && mnemonic_of(op.word()) == Some(Mnemonic::SkipXNeqNn)),
    {
        OpCode::encode(0x4, x, n2, n3)
    }

    /// Skips the next instruction if registers `x` and `y` are equal.
    pub fn skip_x_eq_y(x: u8, y: u8) -> (op: OpCode)
        ensures
            op == OpCode::pack(0x5, x, y, 0x0),
            is_nibble(x) && is_nibble(y)
                ==> (op.word() == word_of(0x5, x, y, 0x0)
                && op.fields() == (0x5u8, x, y, 0x0u8)
                && mnemonic_of(op.word()) == Some(Mnemonic::SkipXEqY)),
    {
        OpCode::encode(0x5, x, y, 0x0)
    }

    /// Sets register `x` to the immediate `n2 n3`.
    pub fn set_x_to_nn(x: u8, n2: u8, n3: u8) -> (op: OpCode)
        ensures
            op == OpCode::pack(0x6, x, n2, n3),
            is_nibble(x) && is_nibble(n2) && is_nibble(n3)
                ==> (op.word() == word_of(0x6, x, n2, n3)
                && op.fields() == (0x6u8, x, n2, n3)
                && mnemonic_of(op.word()) == Some(Mnemonic::SetXToNn)),
    {
        OpCode::encode(0x6, x, n2, n3)
    }

    /// Adds the immediate `n2 n3` to register `x`.
    pub fn add_nn_to_x(x: u8, n2: u8, n3: u8) -> (op: OpCode)
        ensures
            op == OpCode::pack(0x7, x, n2, n3),
            is_nibble(x) && is_nibble(n2) && is_nibble(n3)
                ==> (op.word() == word_of(0x7, x, n2, n3)
                && op.fields() == (0x7u8, x, n2, n3)
                && mnemonic_of(op.word()) == Some(Mnemonic::AddNnToX)),
    {
        OpCode::encode(0x7, x, n2, n3)
    }

    /// Copies register `y` into register `x`.
    pub fn set_x_to_y(x: u8, y: u8) -> (op: OpCode)
        ensures
            op == OpCode::pack(0x8, x, y, 0x0),
            is_nibble(x) && is_nibble(y)
                ==> (op.word() == word_of(0x8, x, y, 0x0)
                && op.fields() == (0x8u8, x, y, 0x0u8)
                && mnemonic_of(op.word()) == Some(Mnemonic::SetXToY)),
    {
        OpCode::encode(0x8, x, y, 0x0)
    }

    /// Sets register `x` to the bitwise or of registers `x` and `y`.
    pub fn or(x: u8, y: u8) -> (op: OpCode)
        ensures
            op == OpCode::pack(0x8, x, y, 0x1),
            is_nibble(x) && is_nibble(y)
                ==> (op.word() == word_of(0x8, x, y, 0x1)
                && op.fields() == (0x8u8, x, y, 0x1u8)
                && mnemonic_of(op.word()) == Some(Mnemonic::Or)),
    {
        OpCode::encode(0x8, x, y, 0x1)
    }

    /// Sets register `x` to the bitwise and of registers `x` and `y`.
    pub fn and(x: u8, y: u8) -> (op: OpCode)
        ensures
            op == OpCode::pack(0x8, x, y, 0x2),
            is_nibble(x) && is_nibble(y)
                ==> (op.word() == word_of(0x8, x, y, 0x2)
                && op.fields() == (0x8u8, x, y, 0x2u8)
                && mnemonic_of(op.word()) == Some(Mnemonic::And)),
    {
        OpCode::encode(0x8, x, y, 0x2)
    }

    /// Sets register `x` to the bitwise exclusive or of registers `x` and `y`.
    pub fn xor(x: u8, y: u8) -> (op: OpCode)
        ensures
            op == OpCode::pack(0x8, x, y, 0x3),
            is_nibble(x) && is_nibble(y)
                ==> (op.word() == word_of(0x8, x, y, 0x3)
                && op.fields() == (0x8u8, x, y, 0x3u8)
                && mnemonic_of(op.word()) == Some(Mnemonic::Xor)),
    {
        OpCode::encode(0x8, x, y, 0x3)
    }

    /// Adds register `y` to register `x`; the flag register receives the carry.
    pub fn add(x: u8, y: u8) -> (op: OpCode)
        ensures
            op == OpCode::pack(0x8, x, y, 0x4),
            is_nibble(x) && is_nibble(y)
                ==> (op.word() == word_of(0x8, x, y, 0x4)
                && op.fields() == (0x8u8, x, y, 0x4u8)
                && mnemonic_of(op.word()) == Some(Mnemonic::Add)),
    {
        OpCode::encode(0x8, x, y, 0x4)
    }

    /// Subtracts register `y` from register `x`; the flag register receives the
    /// borrow.
    pub fn sub(x: u8, y: u8) -> (op: OpCode)
        ensures
            op == OpCode::pack(0x8, x, y, 0x5),
            is_nibble(x) && is_nibble(y)
                ==> (op.word() == word_of(0x8, x, y, 0x5)
                && op.fields() == (0x8u8, x, y, 0x5u8)
                && mnemonic_of(op.word()) == Some(Mnemonic::Sub)),
    {
        OpCode::encode(0x8, x, y, 0x5)
    }

    /// Shifts register `x` right by one bit; the flag register receives bit 7
    /// of the old value.
    pub fn shift_right(x: u8, y: u8) -> (op: OpCode)
        ensures
            op == OpCode::pack(0x8, x, y, 0x6),
            is_nibble(x) && is_nibble(y)
                ==> (op.word() == word_of(0x8, x, y, 0x6)
                && op.fields() == (0x8u8, x, y, 0x6u8)
                && mnemonic_of(op.word()) == Some(Mnemonic::ShiftRight)),
    {
        OpCode::encode(0x8, x, y, 0x6)
    }

    /// Sets register `x` to register `y` minus register `x`; the flag register
    /// receives the borrow.
    pub fn sub_x(x: u8, y: u8) -> (op: OpCode)
        ensures
            op == OpCode::pack(0x8, x, y, 0x7),
            is_nibble(x) && is_nibble(y)
                ==> (op.word() == word_of(0x8, x, y, 0x7)
                && op.fields() == (0x8u8, x, y, 0x7u8)
                && mnemonic_of(op.word()) == Some(Mnemonic::SubX)),
    {
        OpCode::encode(0x8, x, y, 0x7)
    }

    /// Shifts register `x` left by one bit; the flag register receives bit 0 of
    /// the old value.
    pub fn shift_left(x: u8, y: u8) -> (op: OpCode)
        ensures
            op == OpCode::pack(0x8, x, y, 0xE),
            is_nibble(x) && is_nibble(y)
                ==> (op.word() == word_of(0x8, x, y, 0xE)
                && op.fields() == (0x8u8, x, y, 0xEu8)
                && mnemonic_of(op.word()) == Some(Mnemonic::ShiftLeft)),
    {
        OpCode::encode(0x8, x, y, 0xE)
    }

    /// Skips the next instruction if registers `x` and `y` differ.
    pub fn skip_x_neq_y(x: u8, y: u8) -> (op: OpCode)
        ensures
            op == OpCode::pack(0x9, x, y, 0x0),
            is_nibble(x) && is_nibble(y)
                ==> (op.word() == word_of(0x9, x, y, 0x0)
                && op.fields() == (0x9u8, x, y, 0x0u8)
                && mnemonic_of(op.word()) == Some(Mnemonic::SkipXNeqY)),
    {
        OpCode::encode(0x9, x, y, 0x0)
    }

    /// Sets the index register to address `n1 n2 n3`.
    pub fn set_i_to_nnn(n1: u8, n2: u8, n3: u8) -> (op: OpCode)
        ensures
            op == OpCode::pack(0xA, n1, n2, n3),
            is_nibble(n1) && is_nibble(n2) && is_nibble(n3)
                ==> (op.word() == word_of(0xA, n1, n2, n3)
                && op.fields() == (0xAu8, n1, n2, n3)
                && mnemonic_of(op.word()) == Some(Mnemonic::SetIToNnn)),
    {
        OpCode::encode(0xA, n1, n2, n3)
    }

    /// Jumps to address `n1 n2 n3` plus register 0.
    pub fn jump_to_nnn_plus_v0(n1: u8, n2: u8, n3: u8) -> (op: OpCode)
        ensures
            op == OpCode::pack(0xB, n1, n2, n3),
            is_nibble(n1) && is_nibble(n2) && is_nibble(n3)
                ==> (op.word() == word_of(0xB, n1, n2, n3)
                && op.fields() == (0xBu8, n1, n2, n3)
                && mnemonic_of(op.word()) == Some(Mnemonic::JumpToNnnPlusV0)),
    {
        OpCode::encode(0xB, n1, n2, n3)
    }

    /// Sets register `x` to a random byte masked by the immediate `n2 n3`.
    pub fn rand(x: u8, n2: u8, n3: u8) -> (op: OpCode)
        ensures
            op == OpCode::pack(0xC, x, n2, n3),
            is_nibble(x) && is_nibble(n2) && is_nibble(n3)
                ==> (op.word() == word_of(0xC, x, n2, n3)
                && op.fields() == (0xCu8, x, n2, n3)
                && mnemonic_of(op.word()) == Some(Mnemonic::Rand)),
    {
        OpCode::encode(0xC, x, n2, n3)
    }

    /// Draws the sprite of `n3` rows that the index register points at, at the
    /// position held in registers `x` and `y`.
    pub fn draw(x: u8, y: u8, n3: u8) -> (op: OpCode)
        ensures
            op == OpCode::pack(0xD, x, y, n3),
            is_nibble(x) && is_nibble(y) && is_nibble(n3)
                ==> (op.word() == word_of(0xD, x, y, n3)
                && op.fields() == (0xDu8, x, y, n3)
                && mnemonic_of(op.word()) == Some(Mnemonic::Draw)),
    {
        OpCode::encode(0xD, x, y, n3)
    }

    /// Skips the next instruction if the key named in register `x` is pressed.
    pub fn skip_if_key(x: u8) -> (op: OpCode)
        ensures
            op == OpCode::pack(0xE, x, 0x9, 0xE),
            is_nibble(x)
                ==> (op.word() == word_of(0xE, x, 0x9, 0xE)
                && op.fields() == (0xEu8, x, 0x9u8, 0xEu8)
                && mnemonic_of(op.word()) == Some(Mnemonic::SkipIfKey)),
    {
        OpCode::encode(0xE, x, 0x9, 0xE)
    }

    /// Skips the next instruction if the key named in register `x` is not
    /// pressed.
    pub fn skip_if_nkey(x: u8) -> (op: OpCode)
        ensures
            op == OpCode::pack(0xE, x, 0xA, 0x1),
            is_nibble(x)
                ==> (op.word() == word_of(0xE, x, 0xA, 0x1)
                && op.fields() == (0xEu8, x, 0xAu8, 0x1u8)
                && mnemonic_of(op.word()) == Some(Mnemonic::SkipIfNKey)),
    {
        OpCode::encode(0xE, x, 0xA, 0x1)
    }

    /// Reads the delay timer into register `x`.
    pub fn set_x_to_timer(x: u8) -> (op: OpCode)
        ensures
            op == OpCode::pack(0xF, x, 0x0, 0x7),
            is_nibble(x)
                ==> (op.word() == word_of(0xF, x, 0x0, 0x7)
                && op.fields() == (0xFu8, x, 0x0u8, 0x7u8)
                && mnemonic_of(op.word()) == Some(Mnemonic::SetXToTimer)),
    {
        OpCode::encode(0xF, x, 0x0, 0x7)
    }

    /// Waits for a key press and stores the key in register `x`.
    pub fn await_key(x: u8) -> (op: OpCode)
        ensures
            op == OpCode::pack(0xF, x, 0x0, 0xA),
            is_nibble(x)
                ==> (op.word() == word_of(0xF, x, 0x0, 0xA)
                && op.fields() == (0xFu8, x, 0x0u8, 0xAu8)
                && mnemonic_of(op.word()) == Some(Mnemonic::AwaitKey)),
    {
        OpCode::encode(0xF, x, 0x0, 0xA)
    }

    /// Sets the delay timer to register `x`.
    pub fn set_timer_to_x(x: u8) -> (op: OpCode)
        ensures
            op == OpCode::pack(0xF, x, 0x1, 0x5),
            is_nibble(x)
                ==> (op.word() == word_of(0xF, x, 0x1, 0x5)
                && op.fields() == (0xFu8, x, 0x1u8, 0x5u8)
                && mnemonic_of(op.word()) == Some(Mnemonic::SetTimerToX)),
    {
        OpCode::encode(0xF, x, 0x1, 0x5)
    }

    /// Sets the sound timer to register `x`.
    pub fn set_sound_timer(x: u8) -> (op: OpCode)
        ensures
            op == OpCode::pack(0xF, x, 0x1, 0x8),
            is_nibble(x)
                ==> (op.word() == word_of(0xF, x, 0x1, 0x8)
                && op.fields() == (0xFu8, x, 0x1u8, 0x8u8)
                && mnemonic_of(op.word()) == Some(Mnemonic::SetSoundTimer)),
    {
        OpCode::encode(0xF, x, 0x1, 0x8)
    }

    /// Adds register `x` to the index register.
    pub fn add_x_to_i(x: u8) -> (op: OpCode)
        ensures
            op == OpCode::pack(0xF, x, 0x1, 0xE),
            is_nibble(x)
                ==> (op.word() == word_of(0xF, x, 0x1, 0xE)
                && op.fields() == (0xFu8, x, 0x1u8, 0xEu8)
                && mnemonic_of(op.word()) == Some(Mnemonic::AddXToI)),
    {
        OpCode::encode(0xF, x, 0x1, 0xE)
    }

    /// Points the index register at the sprite of the digit in register `x`.
    pub fn set_i_to_sprite_addr(x: u8) -> (op: OpCode)
        ensures
            op == OpCode::pack(0xF, x, 0x2, 0x9),
            is_nibble(x)
                ==> (op.word() == word_of(0xF, x, 0x2, 0x9)
                && op.fields() == (0xFu8, x, 0x2u8, 0x9u8)
                && mnemonic_of(op.word()) == Some(Mnemonic::SetIToSpriteAddr)),
    {
        OpCode::encode(0xF, x, 0x2, 0x9)
    }

    /// Stores the three decimal digits of register `x` at the index register.
    pub fn store_bcd(x: u8) -> (op: OpCode)
        ensures
            op == OpCode::pack(0xF, x, 0x3, 0x3),
            is_nibble(x)
                ==> (op.word() == word_of(0xF, x, 0x3, 0x3)
                && op.fields() == (0xFu8, x, 0x3u8, 0x3u8)
                && mnemonic_of(op.word()) == Some(Mnemonic::StoreBcd)),
    {
        OpCode::encode(0xF, x, 0x3, 0x3)
    }

    /// Stores registers 0 to `x` in memory from the index register on.
    pub fn store_0_to_x_to_mem(x: u8) -> (op: OpCode)
        ensures
            op == OpCode::pack(0xF, x, 0x5, 0x5),
            is_nibble(x)
                ==> (op.word() == word_of(0xF, x, 0x5, 0x5)
                && op.fields() == (0xFu8, x, 0x5u8, 0x5u8)
                && mnemonic_of(op.word()) == Some(Mnemonic::Store0ToXToMem)),
    {
        OpCode::encode(0xF, x, 0x5, 0x5)
    }

    /// Fills registers 0 to `x` from memory from the index register on.
    pub fn fill_0_to_x_to_mem(x: u8) -> (op: OpCode)
        ensures
            op == OpCode::pack(0xF, x, 0x6, 0x5),
            is_nibble(x)
                ==> (op.word() == word_of(0xF, x, 0x6, 0x5)
                && op.fields() == (0xFu8, x, 0x6u8, 0x5u8)
                && mnemonic_of(op.word()) == Some(Mnemonic::Fill0ToXToMem)),
    {
        OpCode::encode(0xF, x, 0x6, 0x5)
    }
}

impl FromSpecImpl<OpCode> for u16 {
    open spec fn obeys_from_spec() -> bool {
        true
    }

    open spec fn from_spec(c: OpCode) -> u16 {
        c.word()
    }
}

impl From<OpCode> for u16 {
    fn from(c: OpCode) -> (w: u16)
        ensures
            w == c.word(),
    {
        proof {
            lemma_join_bytes(c.0, c.1);
        }
        (c.0 as u16) << BYTE | c.1 as u16
    }
}

impl FromSpecImpl<&OpCode> for u16 {
    open spec fn obeys_from_spec() -> bool {
        true
    }

    open spec fn from_spec(c: &OpCode) -> u16 {
        c.word()
    }
}

impl From<&OpCode> for u16 {
    fn from(c: &OpCode) -> (w: u16)
        ensures
            w == c.word(),
    {
        proof {
            lemma_join_bytes(c.0, c.1);
        }
        (c.0 as u16) << BYTE | c.1 as u16
    }
}

} // verus!
