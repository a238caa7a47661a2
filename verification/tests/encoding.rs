use chip_vm::dispatch::{classify, rule_table, Mnemonic, RULE_COUNT};
use chip_vm::opcodes::{OpCode, BYTE, NIBBLE, OPCODELENGTH};
use chip_vm::processor::{ByteConstant, NamedRegister, NibbleConstant, CPU};

fn decode(op: OpCode) -> (u8, u8, u8, u8) {
    CPU::new().decode(u16::from(op))
}

#[test]
fn constants_have_their_widths() {
    assert_eq!(NIBBLE, 4);
    assert_eq!(BYTE, 8);
    assert_eq!(OPCODELENGTH, 2);
}

#[test]
fn opcode_bytes_and_word() {
    let op = OpCode::add(0x3, 0x7);
    assert_eq!(op.high_byte(), 0x83);
    assert_eq!(op.low_byte(), 0x74);
    assert_eq!(u16::from(op), 0x8374);
    assert_eq!(u16::from(&op), 0x8374);
    assert_eq!(op, OpCode(0x83, 0x74));
}

#[test]
fn encode_packs_four_nibbles() {
    assert_eq!(OpCode::encode(0xD, 0x1, 0x2, 0x5), OpCode(0xD1, 0x25));
    assert_eq!(OpCode::encode(0x0, 0x0, 0x0, 0x0), OpCode(0x00, 0x00));
    assert_eq!(OpCode::encode(0xF, 0xF, 0xF, 0xF), OpCode(0xFF, 0xFF));
}

#[test]
fn encode_lets_wide_operands_spill() {
    assert_eq!(OpCode::encode(0x1, 0xFF, 0x12, 0x34), OpCode(0xFF, 0x34));
    assert_eq!(OpCode::goto(0x20, 0x0, 0x0), OpCode(0x30, 0x00));
}

#[test]
fn decode_splits_a_word() {
    let cpu = CPU::new();
    assert_eq!(cpu.decode(0x0000), (0, 0, 0, 0));
    assert_eq!(cpu.decode(0xABCD), (0xA, 0xB, 0xC, 0xD));
    assert_eq!(cpu.decode(0xFFFF), (0xF, 0xF, 0xF, 0xF));
    assert_eq!(cpu.decode(0x8014), (0x8, 0x0, 0x1, 0x4));
}

#[test]
fn fixed_instructions_have_their_words() {
    assert_eq!(u16::from(OpCode::halt()), 0x0000);
    assert_eq!(u16::from(OpCode::clear()), 0x00E0);
    assert_eq!(u16::from(OpCode::ret()), 0x00EE);
    assert_eq!(decode(OpCode::halt()), (0, 0, 0, 0));
    assert_eq!(decode(OpCode::clear()), (0, 0, 0xE, 0));
    assert_eq!(decode(OpCode::ret()), (0, 0, 0xE, 0xE));
}

#[test]
fn address_instructions_round_trip() {
    for n1 in 0..16u8 {
        for n2 in 0..16u8 {
            for n3 in 0..16u8 {
                assert_eq!(decode(OpCode::call_r(n1, n2, n3)), (0x0, n1, n2, n3));
                assert_eq!(decode(OpCode::goto(n1, n2, n3)), (0x1, n1, n2, n3));
                assert_eq!(decode(OpCode::call(n1, n2, n3)), (0x2, n1, n2, n3));
                assert_eq!(decode(OpCode::set_i_to_nnn(n1, n2, n3)), (0xA, n1, n2, n3));
                assert_eq!(decode(OpCode::jump_to_nnn_plus_v0(n1, n2, n3)), (0xB, n1, n2, n3));
            }
        }
    }
}

#[test]
fn immediate_instructions_round_trip() {
    for x in 0..16u8 {
        for n2 in 0..16u8 {
            for n3 in 0..16u8 {
                assert_eq!(decode(OpCode::skip_x_eq_nn(x, n2, n3)), (0x3, x, n2, n3));
                assert_eq!(decode(OpCode::skip_x_neq_nn(x, n2, n3)), (0x4, x, n2, n3));
                assert_eq!(decode(OpCode::set_x_to_nn(x, n2, n3)), (0x6, x, n2, n3));
                assert_eq!(decode(OpCode::add_nn_to_x(x, n2, n3)), (0x7, x, n2, n3));
                assert_eq!(decode(OpCode::rand(x, n2, n3)), (0xC, x, n2, n3));
                assert_eq!(decode(OpCode::draw(x, n2, n3)), (0xD, x, n2, n3));
            }
        }
    }
}

#[test]
fn register_instructions_round_trip() {
    for x in 0..16u8 {
        for y in 0..16u8 {
            assert_eq!(decode(OpCode::skip_x_eq_y(x, y)), (0x5, x, y, 0x0));
            assert_eq!(decode(OpCode::set_x_to_y(x, y)), (0x8, x, y, 0x0));
            assert_eq!(decode(OpCode::or(x, y)), (0x8, x, y, 0x1));
            assert_eq!(decode(OpCode::and(x, y)), (0x8, x, y, 0x2));
            assert_eq!(decode(OpCode::xor(x, y)), (0x8, x, y, 0x3));
            assert_eq!(decode(OpCode::add(x, y)), (0x8, x, y, 0x4));
            assert_eq!(decode(OpCode::sub(x, y)), (0x8, x, y, 0x5));
            assert_eq!(decode(OpCode::shift_right(x, y)), (0x8, x, y, 0x6));
            assert_eq!(decode(OpCode::sub_x(x, y)), (0x8, x, y, 0x7));
            assert_eq!(decode(OpCode::shift_left(x, y)), (0x8, x, y, 0xE));
            assert_eq!(decode(OpCode::skip_x_neq_y(x, y)), (0x9, x, y, 0x0));
        }
    }
}

#[test]
fn single_register_instructions_round_trip() {
    for x in 0..16u8 {
        assert_eq!(decode(OpCode::skip_if_key(x)), (0xE, x, 0x9, 0xE));
        assert_eq!(decode(OpCode::skip_if_nkey(x)), (0xE, x, 0xA, 0x1));
        assert_eq!(decode(OpCode::set_x_to_timer(x)), (0xF, x, 0x0, 0x7));
        assert_eq!(decode(OpCode::await_key(x)), (0xF, x, 0x0, 0xA));
        assert_eq!(decode(OpCode::set_timer_to_x(x)), (0xF, x, 0x1, 0x5));
        assert_eq!(decode(OpCode::set_sound_timer(x)), (0xF, x, 0x1, 0x8));
        assert_eq!(decode(OpCode::add_x_to_i(x)), (0xF, x, 0x1, 0xE));
        assert_eq!(decode(OpCode::set_i_to_sprite_addr(x)), (0xF, x, 0x2, 0x9));
        assert_eq!(decode(OpCode::store_bcd(x)), (0xF, x, 0x3, 0x3));
        assert_eq!(decode(OpCode::store_0_to_x_to_mem(x)), (0xF, x, 0x5, 0x5));
        assert_eq!(decode(OpCode::fill_0_to_x_to_mem(x)), (0xF, x, 0x6, 0x5));
    }
}

#[test]
fn single_register_instructions_have_their_low_bytes() {
    assert_eq!(OpCode::skip_if_key(0x3), OpCode(0xE3, 0x9E));
    assert_eq!(OpCode::skip_if_nkey(0x3), OpCode(0xE3, 0xA1));
    assert_eq!(OpCode::set_x_to_timer(0x3), OpCode(0xF3, 0x07));
    assert_eq!(OpCode::await_key(0x3), OpCode(0xF3, 0x0A));
    assert_eq!(OpCode::set_timer_to_x(0x3), OpCode(0xF3, 0x15));
    assert_eq!(OpCode::set_sound_timer(0x3), OpCode(0xF3, 0x18));
    assert_eq!(OpCode::add_x_to_i(0x3), OpCode(0xF3, 0x1E));
    assert_eq!(OpCode::set_i_to_sprite_addr(0x3), OpCode(0xF3, 0x29));
    assert_eq!(OpCode::store_bcd(0x3), OpCode(0xF3, 0x33));
    assert_eq!(OpCode::store_0_to_x_to_mem(0x3), OpCode(0xF3, 0x55));
    assert_eq!(OpCode::fill_0_to_x_to_mem(0x3), OpCode(0xF3, 0x65));
}

#[test]
fn every_constructor_is_recognised_as_itself() {
    let cases: Vec<(OpCode, Mnemonic)> = vec![
        (OpCode::halt(), Mnemonic::Halt),
        (OpCode::call_r(0x1, 0x2, 0x3), Mnemonic::CallR),
        (OpCode::clear(), Mnemonic::Clear),
        (OpCode::ret(), Mnemonic::Ret),
        (OpCode::goto(0x1, 0x2, 0x3), Mnemonic::Goto),
        (OpCode::call(0x1, 0x2, 0x3), Mnemonic::Call),
        (OpCode::skip_x_eq_nn(0x1, 0x2, 0x3), Mnemonic::SkipXEqNn),
        (OpCode::skip_x_neq_nn(0x1, 0x2, 0x3), Mnemonic::SkipXNeqNn),
        (OpCode::skip_x_eq_y(0x1, 0x2), Mnemonic::SkipXEqY),
        (OpCode::set_x_to_nn(0x1, 0x2, 0x3), Mnemonic::SetXToNn),
        (OpCode::add_nn_to_x(0x1, 0x2, 0x3), Mnemonic::AddNnToX),
        (OpCode::set_x_to_y(0x1, 0x2), Mnemonic::SetXToY),
        (OpCode::or(0x1, 0x2), Mnemonic::Or),
        (OpCode::and(0x1, 0x2), Mnemonic::And),
        (OpCode::xor(0x1, 0x2), Mnemonic::Xor),
        (OpCode::add(0x1, 0x2), Mnemonic::Add),
        (OpCode::sub(0x1, 0x2), Mnemonic::Sub),
        (OpCode::shift_right(0x1, 0x2), Mnemonic::ShiftRight),
        (OpCode::sub_x(0x1, 0x2), Mnemonic::SubX),
        (OpCode::shift_left(0x1, 0x2), Mnemonic::ShiftLeft),
        (OpCode::skip_x_neq_y(0x1, 0x2), Mnemonic::SkipXNeqY),
        (OpCode::set_i_to_nnn(0x1, 0x2, 0x3), Mnemonic::SetIToNnn),
        (OpCode::jump_to_nnn_plus_v0(0x1, 0x2, 0x3), Mnemonic::JumpToNnnPlusV0),
        (OpCode::rand(0x1, 0x2, 0x3), Mnemonic::Rand),
        (OpCode::draw(0x1, 0x2, 0x3), Mnemonic::Draw),
        (OpCode::skip_if_key(0x1), Mnemonic::SkipIfKey),
        (OpCode::skip_if_nkey(0x1), Mnemonic::SkipIfNKey),
        (OpCode::set_x_to_timer(0x1), Mnemonic::SetXToTimer),
        (OpCode::await_key(0x1), Mnemonic::AwaitKey),
        (OpCode::set_timer_to_x(0x1), Mnemonic::SetTimerToX),
        (OpCode::set_sound_timer(0x1), Mnemonic::SetSoundTimer),
        (OpCode::add_x_to_i(0x1), Mnemonic::AddXToI),
        (OpCode::set_i_to_sprite_addr(0x1), Mnemonic::SetIToSpriteAddr),
        (OpCode::store_bcd(0x1), Mnemonic::StoreBcd),
        (OpCode::store_0_to_x_to_mem(0x1), Mnemonic::Store0ToXToMem),
        (OpCode::fill_0_to_x_to_mem(0x1), Mnemonic::Fill0ToXToMem),
    ];
    assert_eq!(cases.len(), RULE_COUNT);
    for (op, mnemonic) in cases {
        assert_eq!(classify(u16::from(op)), Some(mnemonic));
    }
}

#[test]
fn exact_words_are_not_shadowed_by_the_family_rule() {
    assert_eq!(classify(0x0000), Some(Mnemonic::Halt));
    assert_eq!(classify(0x00E0), Some(Mnemonic::Clear));
    assert_eq!(classify(0x00EE), Some(Mnemonic::Ret));
    assert_eq!(classify(0x0001), Some(Mnemonic::CallR));
    assert_eq!(classify(0x00E1), Some(Mnemonic::CallR));
    assert_eq!(classify(0x000E), Some(Mnemonic::CallR));
    assert_eq!(classify(0x0FFF), Some(Mnemonic::CallR));
    assert_eq!(classify(u16::from(OpCode::call_r(0, 0, 0))), Some(Mnemonic::Halt));
    assert_eq!(classify(u16::from(OpCode::call_r(0, 0xE, 0xE))), Some(Mnemonic::Ret));
}

#[test]
fn words_without_an_instruction_are_not_recognised() {
    for code in [
        0x5001u16, 0x512F, 0x8008, 0x8009, 0x800A, 0x800B, 0x800C, 0x800D, 0x800F, 0x9001, 0x9ABF,
        0xE000, 0xE09F, 0xE1A0, 0xF000, 0xF008, 0xF116, 0xF0FF, 0xFF66,
    ] {
        assert_eq!(classify(code), None);
    }
}

#[test]
fn classification_depends_on_the_kept_nibbles_only() {
    for x in 0..16u16 {
        for y in 0..16u16 {
            assert_eq!(classify(0x8004 | x << 8 | y << 4), Some(Mnemonic::Add));
            assert_eq!(classify(0x5000 | x << 8 | y << 4), Some(Mnemonic::SkipXEqY));
            assert_eq!(classify(0xD000 | x << 8 | y << 4 | x), Some(Mnemonic::Draw));
        }
        assert_eq!(classify(0xF033 | x << 8), Some(Mnemonic::StoreBcd));
        assert_eq!(classify(0xE0A1 | x << 8), Some(Mnemonic::SkipIfNKey));
    }
}

#[test]
fn every_word_is_classified_by_its_first_matching_rule() {
    let table = rule_table();
    assert_eq!(table.len(), RULE_COUNT);
    for code in 0..=0xFFFFu16 {
        let first = table
            .iter()
            .find(|rule| code & rule.mask == rule.bits)
            .map(|rule| rule.mnemonic);
        assert_eq!(classify(code), first);
    }
}

#[test]
fn native_and_host_instructions() {
    assert!(Mnemonic::Halt.is_native());
    assert!(Mnemonic::Add.is_native());
    assert!(Mnemonic::Call.is_native());
    assert!(Mnemonic::SetIToNnn.is_native());
    assert!(!Mnemonic::Clear.is_native());
    assert!(!Mnemonic::CallR.is_native());
    assert!(!Mnemonic::Rand.is_native());
    assert!(!Mnemonic::Draw.is_native());
    assert!(!Mnemonic::JumpToNnnPlusV0.is_native());
    assert!(!Mnemonic::StoreBcd.is_native());
}

#[test]
fn byte_constant_joins_two_nibbles() {
    assert_eq!(u8::from(ByteConstant::from((&0xAu8, &0x5u8))), 0xA5);
    assert_eq!(u8::from(ByteConstant::from((&0x0u8, &0x0u8))), 0x00);
    assert_eq!(u8::from(ByteConstant::from((&0xFu8, &0xFu8))), 0xFF);
    for y in 0..16u8 {
        for d in 0..16u8 {
            assert_eq!(u8::from(ByteConstant::from((&y, &d))), y * 16 + d);
        }
    }
}

#[test]
fn nibble_constant_keeps_its_value() {
    assert_eq!(u8::from(NibbleConstant::from(&0x7u8)), 0x7);
    assert_eq!(u8::from(NibbleConstant::from(&0xFu8)), 0xF);
}

#[test]
fn flag_register_is_register_15() {
    assert_eq!(NamedRegister::Flag.index(), 15);
    assert_eq!(NamedRegister::from_index(0xF), Some(NamedRegister::Flag));
    assert_eq!(NamedRegister::from_index(0x0), None);
    assert_eq!(NamedRegister::from_index(0x10), None);
}
