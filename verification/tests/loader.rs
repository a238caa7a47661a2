use chip_vm::machine::{Fault, MEMORY_SIZE};
use chip_vm::opcodes::OpCode;
use chip_vm::processor::CPU;

#[test]
fn add_to_mem_writes_high_byte_first() {
    let mut cpu = CPU::new();
    assert_eq!(cpu.add_to_mem(0x20, &OpCode::call(0x1, 0x2, 0x3)), Ok(0x22));
    assert_eq!(cpu.memory[0x20], 0x21);
    assert_eq!(cpu.memory[0x21], 0x23);
    assert_eq!(cpu.memory[0x1F], 0);
    assert_eq!(cpu.memory[0x22], 0);
}

#[test]
fn raw_add_to_mem_writes_two_bytes() {
    let mut cpu = CPU::new();
    assert_eq!(cpu.raw_add_to_mem(0, 0xAB, 0xCD), Ok(2));
    assert_eq!(cpu.memory[0..3], [0xAB, 0xCD, 0x00]);
    assert_eq!(cpu.raw_add_to_mem(4094, 0x12, 0x34), Ok(4096));
    assert_eq!(cpu.memory[4094..], [0x12, 0x34]);
}

#[test]
fn writing_past_the_end_is_out_of_bounds() {
    let mut cpu = CPU::new();
    assert_eq!(cpu.raw_add_to_mem(4095, 0xAB, 0xCD), Err(Fault::OutOfBounds));
    assert_eq!(cpu.memory[4095], 0);
    assert_eq!(cpu.raw_add_to_mem(4096, 0xAB, 0xCD), Err(Fault::OutOfBounds));
    assert_eq!(cpu.raw_add_to_mem(usize::MAX, 0xAB, 0xCD), Err(Fault::OutOfBounds));
    assert_eq!(cpu.add_to_mem(4095, &OpCode::ret()), Err(Fault::OutOfBounds));
    assert_eq!(cpu.add_to_mem(usize::MAX, &OpCode::ret()), Err(Fault::OutOfBounds));
    assert!(cpu.memory.iter().all(|b| *b == 0));
}

#[test]
fn copy_to_mem_returns_the_next_free_position() {
    let mut cpu = CPU::new();
    let program = [OpCode::goto(0x1, 0x2, 0x3), OpCode::halt(), OpCode::add(0x4, 0x5)];
    assert_eq!(cpu.copy_to_mem(0x200, &program), Ok(0x206));
    assert_eq!(cpu.memory[0x200..0x207], [0x11, 0x23, 0x00, 0x00, 0x84, 0x54, 0x00]);
    assert_eq!(cpu.memory[0x1FF], 0);
}

#[test]
fn copy_to_mem_fills_up_to_the_last_byte() {
    let mut cpu = CPU::new();
    let program = [OpCode::ret(), OpCode::ret()];
    assert_eq!(cpu.copy_to_mem(MEMORY_SIZE - 4, &program), Ok(MEMORY_SIZE));
    assert_eq!(cpu.memory[4092..], [0x00, 0xEE, 0x00, 0xEE]);
}

#[test]
fn copy_to_mem_that_does_not_fit_writes_nothing() {
    let mut cpu = CPU::new();
    let program = [OpCode::ret(), OpCode::ret()];
    assert_eq!(cpu.copy_to_mem(MEMORY_SIZE - 3, &program), Err(Fault::OutOfBounds));
    assert_eq!(cpu.copy_to_mem(MEMORY_SIZE, &program), Err(Fault::OutOfBounds));
    assert_eq!(cpu.copy_to_mem(usize::MAX, &program), Err(Fault::OutOfBounds));
    assert!(cpu.memory.iter().all(|b| *b == 0));
}

#[test]
fn copying_nothing_writes_nothing_anywhere() {
    let mut cpu = CPU::new();
    assert_eq!(cpu.copy_to_mem(0x300, &[]), Ok(0x300));
    assert_eq!(cpu.copy_to_mem(5000, &[]), Ok(5000));
    assert_eq!(cpu.raw_copy_to_mem(0x300, &[]), Ok(0x300));
    assert_eq!(cpu.raw_copy_to_mem(usize::MAX, &[]), Ok(usize::MAX));
    assert!(cpu.memory.iter().all(|b| *b == 0));
}

#[test]
fn raw_copy_writes_a_lone_last_byte_twice() {
    let mut cpu = CPU::new();
    assert_eq!(cpu.raw_copy_to_mem(0x10, &[0x11, 0x22, 0x33]), Ok(0x14));
    assert_eq!(cpu.memory[0x10..0x15], [0x11, 0x22, 0x33, 0x33, 0x00]);
    assert_eq!(cpu.raw_copy_to_mem(0x20, &[0x7F]), Ok(0x22));
    assert_eq!(cpu.memory[0x20..0x23], [0x7F, 0x7F, 0x00]);
}

#[test]
fn raw_copy_that_does_not_fit_writes_nothing() {
    let mut cpu = CPU::new();
    assert_eq!(cpu.raw_copy_to_mem(4093, &[1, 2, 3, 4]), Err(Fault::OutOfBounds));
    assert_eq!(cpu.raw_copy_to_mem(4093, &[1, 2, 3]), Err(Fault::OutOfBounds));
    assert_eq!(cpu.raw_copy_to_mem(4095, &[1]), Err(Fault::OutOfBounds));
    assert_eq!(cpu.raw_copy_to_mem(4096, &[1, 2]), Err(Fault::OutOfBounds));
    assert!(cpu.memory.iter().all(|b| *b == 0));
    assert_eq!(cpu.raw_copy_to_mem(4092, &[1, 2, 3]), Ok(4096));
    assert_eq!(cpu.memory[4092..], [1, 2, 3, 3]);
}

#[test]
fn raw_copy_of_a_whole_memory_image() {
    let mut cpu = CPU::new();
    let image: Vec<u8> = (0..4096u32).map(|k| (k % 251) as u8).collect();
    assert_eq!(cpu.raw_copy_to_mem(0, &image), Ok(4096));
    assert_eq!(cpu.memory[..], image[..]);
}

#[test]
fn loading_leaves_the_rest_of_the_processor_alone() {
    let mut cpu = CPU::new();
    cpu.registers[3] = 9;
    cpu.i = 0x77;
    cpu.copy_to_mem(0x40, &[OpCode::halt()]).unwrap();
    cpu.raw_copy_to_mem(0x50, &[1, 2]).unwrap();
    assert_eq!(cpu.registers[3], 9);
    assert_eq!(cpu.i, 0x77);
    assert_eq!(cpu.program_counter, 0usize);
    assert_eq!(cpu.stack_pointer, 0);
}
