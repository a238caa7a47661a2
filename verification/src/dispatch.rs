//! Instruction recognition: an ordered list of bit patterns, most specific
//! first, that maps a 16-bit word to the instruction it denotes.
use crate::opcodes::nibbles;
use vstd::prelude::*;

verus! {

/// The instructions of the machine.
#[derive(Debug, Clone, Copy, PartialEq, Eq, Structural)]
pub enum Mnemonic {
    /// Stops the machine.
    Halt,
    /// Clears the screen.
    Clear,
    /// Returns from a subroutine.
    Ret,
    /// Calls a native routine at an address.
    CallR,
    /// Jumps to an address.
    Goto,
    /// Calls the subroutine at an address.
    Call,
    /// Skips the next instruction if a register equals an immediate.
    SkipXEqNn,
    /// Skips the next instruction if a register differs from an immediate.
    SkipXNeqNn,
    /// Skips the next instruction if two registers are equal.
    SkipXEqY,
    /// Sets a register to an immediate.
    SetXToNn,
    /// Adds an immediate to a register.
    AddNnToX,
    /// Copies one register into another.
    SetXToY,
    /// Bitwise or of two registers.
    Or,
    /// Bitwise and of two registers.
    And,
    /// Bitwise exclusive or of two registers.
    Xor,
    /// Adds one register to another.
    Add,
    /// Subtracts one register from another.
    Sub,
    /// Shifts a register right by one bit.
    ShiftRight,
    /// Subtracts a register from another, the other way round.
    SubX,
    /// Shifts a register left by one bit.
    ShiftLeft,
    /// Skips the next instruction if two registers differ.
    SkipXNeqY,
    /// Sets the index register to an address.
    SetIToNnn,
    /// Jumps to an address plus register 0.
    JumpToNnnPlusV0,
    /// Sets a register to a random byte masked by an immediate.
    Rand,
    /// Draws a sprite.
    Draw,
    /// Skips the next instruction if a key is pressed.
    SkipIfKey,
    /// Skips the next instruction if a key is not pressed.
    SkipIfNKey,
    /// Reads the delay timer into a register.
    SetXToTimer,
    /// Waits for a key press.
    AwaitKey,
    /// Sets the delay timer from a register.
    SetTimerToX,
    /// Sets the sound timer from a register.
    SetSoundTimer,
    /// Adds a register to the index register.
    AddXToI,
    /// Points the index register at the sprite of a digit.
    SetIToSpriteAddr,
    /// Stores the decimal digits of a register.
    StoreBcd,
    /// Stores registers 0 to x in memory.
    Store0ToXToMem,
    /// Fills registers 0 to x from memory.
    Fill0ToXToMem,
}

impl Mnemonic {
    /// True for the instructions that the machine executes itself.
    pub open spec fn spec_is_native(self) -> bool {
        match self {
            Mnemonic::Halt
            | Mnemonic::Ret
            | Mnemonic::Goto
            | Mnemonic::Call
            | Mnemonic::SkipXEqNn
            | Mnemonic::SkipXNeqNn
            | Mnemonic::SkipXEqY
            | Mnemonic::SetXToNn
            | Mnemonic::AddNnToX
            | Mnemonic::SetXToY
            | Mnemonic::Or
            | Mnemonic::And
            | Mnemonic::Xor
            | Mnemonic::Add
            | Mnemonic::Sub
            | Mnemonic::ShiftRight
            | Mnemonic::SubX
            | Mnemonic::ShiftLeft
            | Mnemonic::SkipXNeqY
            | Mnemonic::SetIToNnn => true,
            _ => false,
        }
    }

    /// True for the instructions that the machine executes itself. The
    /// others are recognised and left to the host.
    #[verifier::when_used_as_spec(spec_is_native)]
    pub fn is_native(self) -> (native: bool)
        ensures
            native == self.spec_is_native(),
    {
        match self {
            Mnemonic::Halt
            | Mnemonic::Ret
            | Mnemonic::Goto
            | Mnemonic::Call
            | Mnemonic::SkipXEqNn
            | Mnemonic::SkipXNeqNn
            | Mnemonic::SkipXEqY
            | Mnemonic::SetXToNn
            | Mnemonic::AddNnToX
            | Mnemonic::SetXToY
            | Mnemonic::Or
            | Mnemonic::And
            | Mnemonic::Xor
            | Mnemonic::Add
            | Mnemonic::Sub
            | Mnemonic::ShiftRight
            | Mnemonic::SubX
            | Mnemonic::ShiftLeft
            | Mnemonic::SkipXNeqY
            | Mnemonic::SetIToNnn => true,
            _ => false,
        }
    }
}

/// The instruction that a word denotes, by its nibbles `(c, x, y, d)`, or
/// `None` where the word denotes none.
pub open spec fn mnemonic_of(code: u16) -> Option<Mnemonic> {
    let (c, x, y, d) = nibbles(code);
    match c {
        0x0 => Some(
            if x == 0 && y == 0 && d == 0 {
                Mnemonic::Halt
            } else if x == 0 && y == 0xE && d == 0 {
                Mnemonic::Clear
            } else if x == 0 && y == 0xE && d == 0xE {
                Mnemonic::Ret
            } else {
                Mnemonic::CallR
            },
        ),
        0x1 => Some(Mnemonic::Goto),
        0x2 => Some(Mnemonic::Call),
        0x3 => Some(Mnemonic::SkipXEqNn),
        0x4 => Some(Mnemonic::SkipXNeqNn),
        0x5 => if d == 0 {
            Some(Mnemonic::SkipXEqY)
        } else {
            None
        },
        0x6 => Some(Mnemonic::SetXToNn),
        0x7 => Some(Mnemonic::AddNnToX),
        0x8 => match d {
            0x0 => Some(Mnemonic::SetXToY),
            0x1 => Some(Mnemonic::Or),
            0x2 => Some(Mnemonic::And),
            0x3 => Some(Mnemonic::Xor),
            0x4 => Some(Mnemonic::Add),
            0x5 => Some(Mnemonic::Sub),
            0x6 => Some(Mnemonic::ShiftRight),
            0x7 => Some(Mnemonic::SubX),
            0xE => Some(Mnemonic::ShiftLeft),
            _ => None,
        },
        0x9 => if d == 0 {
            Some(Mnemonic::SkipXNeqY)
        } else {
            None
        },
        0xA => Some(Mnemonic::SetIToNnn),
        0xB => Some(Mnemonic::JumpToNnnPlusV0),
        0xC => Some(Mnemonic::Rand),
        0xD => Some(Mnemonic::Draw),
        0xE => if y == 0x9 && d == 0xE {
            Some(Mnemonic::SkipIfKey)
        } else if y == 0xA && d == 0x1 {
            Some(Mnemonic::SkipIfNKey)
        } else {
            None
        },
        0xF => if y == 0x0 && d == 0x7 {
            Some(Mnemonic::SetXToTimer)
        } else if y == 0x0 && d == 0xA {
            Some(Mnemonic::AwaitKey)
        } else if y == 0x1 && d == 0x5 {
            Some(Mnemonic::SetTimerToX)
        } else if y == 0x1 && d == 0x8 {
            Some(Mnemonic::SetSoundTimer)
        } else if y == 0x1 && d == 0xE {
            Some(Mnemonic::AddXToI)
        } else if y == 0x2 && d == 0x9 {
            Some(Mnemonic::SetIToSpriteAddr)
        } else if y == 0x3 && d == 0x3 {
            Some(Mnemonic::StoreBcd)
        } else if y == 0x5 && d == 0x5 {
            Some(Mnemonic::Store0ToXToMem)
        } else if y == 0x6 && d == 0x5 {
            Some(Mnemonic::Fill0ToXToMem)
        } else {
            None
        },
        _ => None,
    }
}

/// One line of the recognition table: a word matches when its bits under
/// `mask` equal `bits`.
#[derive(Debug, Clone, Copy)]
pub struct Rule {
    pub mask: u16,
    pub bits: u16,
    pub mnemonic: Mnemonic,
}

/// Number of lines in the recognition table.
pub const RULE_COUNT: usize = 36;

impl Rule {
    /// True when the bits of `code` under the mask are those of the rule.
    pub open spec fn matches(self, code: u16) -> bool {
        code & self.mask == self.bits
    }

    /// What `matches` means for the four masks of the table, in terms of
    /// the nibbles that the mask keeps.
    spec fn selects(self, code: u16) -> bool {
        if self.mask == 0xFFFF {
            code == self.bits
        } else if self.mask == 0xF000 {
            code / 4096 == self.bits / 4096
        } else if self.mask == 0xF00F {
            code / 4096 == self.bits / 4096 && code % 16 == self.bits % 16
        } else {
            code / 4096 == self.bits / 4096 && code % 256 == self.bits % 256
        }
    }

    /// True when the mask is one of the four of the table and the rule asks
    /// nothing of the bits outside it.
    spec fn well_formed(self) -> bool {
        ||| self.mask == 0xFFFF
        ||| self.mask == 0xF000 && self.bits % 4096 == 0
        ||| self.mask == 0xF00F && self.bits / 16 % 256 == 0
        ||| self.mask == 0xF0FF && self.bits / 256 % 16 == 0
    }
}

/// The recognition table. A word denotes the instruction of the first line
/// that it matches: the lines that fix all four nibbles stand before the
/// line that fixes the family alone.
pub open spec fn rules() -> Seq<Rule> {
    seq![
        Rule { mask: 0xFFFF, bits: 0x0000, mnemonic: Mnemonic::Halt },
        Rule { mask: 0xFFFF, bits: 0x00E0, mnemonic: Mnemonic::Clear },
        Rule { mask: 0xFFFF, bits: 0x00EE, mnemonic: Mnemonic::Ret },
        Rule { mask: 0xF000, bits: 0x0000, mnemonic: Mnemonic::CallR },
        Rule { mask: 0xF000, bits: 0x1000, mnemonic: Mnemonic::Goto },
        Rule { mask: 0xF000, bits: 0x2000, mnemonic: Mnemonic::Call },
        Rule { mask: 0xF000, bits: 0x3000, mnemonic: Mnemonic::SkipXEqNn },
        Rule { mask: 0xF000, bits: 0x4000, mnemonic: Mnemonic::SkipXNeqNn },
        Rule { mask: 0xF00F, bits: 0x5000, mnemonic: Mnemonic::SkipXEqY },
        Rule { mask: 0xF000, bits: 0x6000, mnemonic: Mnemonic::SetXToNn },
        Rule { mask: 0xF000, bits: 0x7000, mnemonic: Mnemonic::AddNnToX },
        Rule { mask: 0xF00F, bits: 0x8000, mnemonic: Mnemonic::SetXToY },
        Rule { mask: 0xF00F, bits: 0x8001, mnemonic: Mnemonic::Or },
        Rule { mask: 0xF00F, bits: 0x8002, mnemonic: Mnemonic::And },
        Rule { mask: 0xF00F, bits: 0x8003, mnemonic: Mnemonic::Xor },
        Rule { mask: 0xF00F, bits: 0x8004, mnemonic: Mnemonic::Add },
        Rule { mask: 0xF00F, bits: 0x8005, mnemonic: Mnemonic::Sub },
        Rule { mask: 0xF00F, bits: 0x8006, mnemonic: Mnemonic::ShiftRight },
        Rule { mask: 0xF00F, bits: 0x8007, mnemonic: Mnemonic::SubX },
        Rule { mask: 0xF00F, bits: 0x800E, mnemonic: Mnemonic::ShiftLeft },
        Rule { mask: 0xF00F, bits: 0x9000, mnemonic: Mnemonic::SkipXNeqY },
        Rule { mask: 0xF000, bits: 0xA000, mnemonic: Mnemonic::SetIToNnn },
        Rule { mask: 0xF000, bits: 0xB000, mnemonic: Mnemonic::JumpToNnnPlusV0 },
        Rule { mask: 0xF000, bits: 0xC000, mnemonic: Mnemonic::Rand },
        Rule { mask: 0xF000, bits: 0xD000, mnemonic: Mnemonic::Draw },
        Rule { mask: 0xF0FF, bits: 0xE09E, mnemonic: Mnemonic::SkipIfKey },
        Rule { mask: 0xF0FF, bits: 0xE0A1, mnemonic: Mnemonic::SkipIfNKey },
        Rule { mask: 0xF0FF, bits: 0xF007, mnemonic: Mnemonic::SetXToTimer },
        Rule { mask: 0xF0FF, bits: 0xF00A, mnemonic: Mnemonic::AwaitKey },
        Rule { mask: 0xF0FF, bits: 0xF015, mnemonic: Mnemonic::SetTimerToX },
        Rule { mask: 0xF0FF, bits: 0xF018, mnemonic: Mnemonic::SetSoundTimer },
        Rule { mask: 0xF0FF, bits: 0xF01E, mnemonic: Mnemonic::AddXToI },
        Rule { mask: 0xF0FF, bits: 0xF029, mnemonic: Mnemonic::SetIToSpriteAddr },
        Rule { mask: 0xF0FF, bits: 0xF033, mnemonic: Mnemonic::StoreBcd },
        Rule { mask: 0xF0FF, bits: 0xF055, mnemonic: Mnemonic::Store0ToXToMem },
        Rule { mask: 0xF0FF, bits: 0xF065, mnemonic: Mnemonic::Fill0ToXToMem },
    ]
}

/// The instruction of the first line of `table` that `code` matches, or
/// `None` where it matches no line.
pub open spec fn first_match(table: Seq<Rule>, code: u16) -> Option<Mnemonic>
    decreases table.len(),
{
    if table.len() == 0 {
        None
    } else if table.first().matches(code) {
        Some(table.first().mnemonic)
    } else {
        first_match(table.drop_first(), code)
    }
}

proof fn lemma_mask_meaning(code: u16, mask: u16, bits: u16)
    by (bit_vector)
    requires
        mask == 0xFFFF || (mask == 0xF000 && bits % 4096 == 0) || (mask == 0xF00F && bits / 16
            % 256 == 0) || (mask == 0xF0FF && bits / 256 % 16 == 0),
    ensures
        (code & mask == bits) <==> (if mask == 0xFFFF {
            code == bits
        } else if mask == 0xF000 {
            code / 4096 == bits / 4096
        } else if mask == 0xF00F {
            code / 4096 == bits / 4096 && code % 16 == bits % 16
        } else {
            code / 4096 == bits / 4096 && code % 256 == bits % 256
        }),
{
}

proof fn lemma_word_digits(code: u16)
    by (bit_vector)
    ensures
        code / 4096 < 16,
        code == (code / 4096) * 4096 + (code / 256 % 16) * 256 + (code / 16 % 16) * 16 + code % 16,
        code % 256 == (code / 16 % 16) * 16 + code % 16,
{
}

/// Every rule of the table matches exactly the words that it selects.
proof fn lemma_rules_select(code: u16)
    ensures
        rules().len() == RULE_COUNT,
        forall|i: int|
            0 <= i < RULE_COUNT ==> (#[trigger] rules()[i]).matches(code) == rules()[i].selects(
                code,
            ),
{
    assert forall|i: int| 0 <= i < RULE_COUNT implies (#[trigger] rules()[i]).matches(code)
        == rules()[i].selects(code) by {
        let rule = rules()[i];
        assert(rule.well_formed());
        lemma_mask_meaning(code, rule.mask, rule.bits);
    }
}

/// The order of the table is sound: the first rule that a word matches
/// names the instruction that the word denotes.
pub proof fn lemma_first_match(code: u16, i: int)
    requires
        0 <= i < RULE_COUNT,
        rules()[i].matches(code),
        forall|j: int| 0 <= j < i ==> !(#[trigger] rules()[j]).matches(code),
    ensures
        mnemonic_of(code) == Some(rules()[i].mnemonic),
{
    lemma_rules_select(code);
    lemma_word_digits(code);
}

/// The table is complete: a word that matches no rule denotes no
/// instruction.
pub proof fn lemma_no_match(code: u16)
    requires
        forall|j: int| 0 <= j < RULE_COUNT ==> !(#[trigger] rules()[j]).matches(code),
    ensures
        mnemonic_of(code) is None,
{
    lemma_rules_select(code);
    lemma_word_digits(code);
}

proof fn lemma_first_match_from(code: u16, k: int)
    requires
        0 <= k <= RULE_COUNT,
        forall|j: int| 0 <= j < k ==> !(#[trigger] rules()[j]).matches(code),
    ensures
        first_match(rules().subrange(k, RULE_COUNT as int), code) == mnemonic_of(code),
    decreases RULE_COUNT - k,
{
    lemma_rules_select(code);
    let rest = rules().subrange(k, RULE_COUNT as int);
    if k == RULE_COUNT {
        lemma_no_match(code);
    } else if rules()[k].matches(code) {
        assert(rest.first() == rules()[k]);
        lemma_first_match(code, k);
    } else {
        assert(rest.first() == rules()[k]);
        assert(rest.drop_first() =~= rules().subrange(k + 1, RULE_COUNT as int));
        lemma_first_match_from(code, k + 1);
    }
}

/// Walking the table from its first line finds, for every word, the
/// instruction that the word denotes: no line shadows another.
pub proof fn lemma_table_denotes(code: u16)
    ensures
        first_match(rules(), code) == mnemonic_of(code),
{
    lemma_rules_select(code);
    assert(rules().subrange(0, RULE_COUNT as int) =~= rules());
    lemma_first_match_from(code, 0);
}

/// The recognition table as data.
pub fn rule_table() -> (table: [Rule; RULE_COUNT])
    ensures
        table@ == rules(),
{
    let table = [
        Rule { mask: 0xFFFF, bits: 0x0000, mnemonic: Mnemonic::Halt },
        Rule { mask: 0xFFFF, bits: 0x00E0, mnemonic: Mnemonic::Clear },
        Rule { mask: 0xFFFF, bits: 0x00EE, mnemonic: Mnemonic::Ret },
        Rule { mask: 0xF000, bits: 0x0000, mnemonic: Mnemonic::CallR },
        Rule { mask: 0xF000, bits: 0x1000, mnemonic: Mnemonic::Goto },
        Rule { mask: 0xF000, bits: 0x2000, mnemonic: Mnemonic::Call },
        Rule { mask: 0xF000, bits: 0x3000, mnemonic: Mnemonic::SkipXEqNn },
        Rule { mask: 0xF000, bits: 0x4000, mnemonic: Mnemonic::SkipXNeqNn },
        Rule { mask: 0xF00F, bits: 0x5000, mnemonic: Mnemonic::SkipXEqY },
        Rule { mask: 0xF000, bits: 0x6000, mnemonic: Mnemonic::SetXToNn },
        Rule { mask: 0xF000, bits: 0x7000, mnemonic: Mnemonic::AddNnToX },
        Rule { mask: 0xF00F, bits: 0x8000, mnemonic: Mnemonic::SetXToY },
        Rule { mask: 0xF00F, bits: 0x8001, mnemonic: Mnemonic::Or },
        Rule { mask: 0xF00F, bits: 0x8002, mnemonic: Mnemonic::And },
        Rule { mask: 0xF00F, bits: 0x8003, mnemonic: Mnemonic::Xor },
        Rule { mask: 0xF00F, bits: 0x8004, mnemonic: Mnemonic::Add },
        Rule { mask: 0xF00F, bits: 0x8005, mnemonic: Mnemonic::Sub },
        Rule { mask: 0xF00F, bits: 0x8006, mnemonic: Mnemonic::ShiftRight },
        Rule { mask: 0xF00F, bits: 0x8007, mnemonic: Mnemonic::SubX },
        Rule { mask: 0xF00F, bits: 0x800E, mnemonic: Mnemonic::ShiftLeft },
        Rule { mask: 0xF00F, bits: 0x9000, mnemonic: Mnemonic::SkipXNeqY },
        Rule { mask: 0xF000, bits: 0xA000, mnemonic: Mnemonic::SetIToNnn },
        Rule { mask: 0xF000, bits: 0xB000, mnemonic: Mnemonic::JumpToNnnPlusV0 },
        Rule { mask: 0xF000, bits: 0xC000, mnemonic: Mnemonic::Rand },
        Rule { mask: 0xF000, bits: 0xD000, mnemonic: Mnemonic::Draw },
        Rule { mask: 0xF0FF, bits: 0xE09E, mnemonic: Mnemonic::SkipIfKey },
        Rule { mask: 0xF0FF, bits: 0xE0A1, mnemonic: Mnemonic::SkipIfNKey },
        Rule { mask: 0xF0FF, bits: 0xF007, mnemonic: Mnemonic::SetXToTimer },
        Rule { mask: 0xF0FF, bits: 0xF00A, mnemonic: Mnemonic::AwaitKey },
        Rule { mask: 0xF0FF, bits: 0xF015, mnemonic: Mnemonic::SetTimerToX },
        Rule { mask: 0xF0FF, bits: 0xF018, mnemonic: Mnemonic::SetSoundTimer },
        Rule { mask: 0xF0FF, bits: 0xF01E, mnemonic: Mnemonic::AddXToI },
        Rule { mask: 0xF0FF, bits: 0xF029, mnemonic: Mnemonic::SetIToSpriteAddr },
        Rule { mask: 0xF0FF, bits: 0xF033, mnemonic: Mnemonic::StoreBcd },
        Rule { mask: 0xF0FF, bits: 0xF055, mnemonic: Mnemonic::Store0ToXToMem },
        Rule { mask: 0xF0FF, bits: 0xF065, mnemonic: Mnemonic::Fill0ToXToMem },
    ];
    assert(table@ =~= rules());
    table
}

/// The instruction that `code` denotes, found by walking the recognition
/// table from its first line.
pub fn classify(code: u16) -> (found: Option<Mnemonic>)
    ensures
        found == mnemonic_of(code),
        found == first_match(rules(), code),
{
    let table = rule_table();
    let mut i: usize = 0;
    while i < RULE_COUNT
        invariant
            i <= RULE_COUNT,
            table@ == rules(),
            forall|j: int| 0 <= j < i ==> !(#[trigger] rules()[j]).matches(code),
        decreases RULE_COUNT - i,
    {
        let rule = table[i];
        if code & rule.mask == rule.bits {
            proof {
                lemma_first_match(code, i as int);
                lemma_table_denotes(code);
            }
            return Some(rule.mnemonic);
        }
        i += 1;
    }
    proof {
        lemma_no_match(code);
        lemma_table_denotes(code);
    }
    None
}

} // verus!
