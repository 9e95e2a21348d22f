use chip8::error::InterpreterError;
use chip8::frame_buffer::{px_index, FrameBuffer};
use chip8::instructions::InstructionSet;
use chip8::interpreter::Chip8;
use chip8::memory::Memory;
use chip8::registers::Registers;
use rand::SeedableRng;

#[test]
fn test_execute_runs_fetched_opcode() {
    let set = InstructionSet::default();
    let mut mem = Memory::default();
    let mut registers = Registers::default();
    let mut frame_buffer = FrameBuffer::default();
    let mut rng = rand::rngs::StdRng::seed_from_u64(0);
    mem.load_rom(&[0x60, 0x2A]).unwrap();
    assert!(set
        .execute(&mut mem, &mut registers, &mut frame_buffer, &mut rng)
        .is_ok());
    assert_eq!(registers.get_v(0).unwrap(), 0x2A);
    assert_eq!(registers.pc, 0x202);
}

#[test]
fn test_execute_invalid_instruction() {
    let set = InstructionSet::default();
    let mut mem = Memory::default();
    let mut registers = Registers::default();
    let mut frame_buffer = FrameBuffer::default();
    let mut rng = rand::rngs::StdRng::seed_from_u64(0);
    mem.load_rom(&[0xFF, 0xFF]).unwrap();
    assert_eq!(
        set.execute(&mut mem, &mut registers, &mut frame_buffer, &mut rng),
        Err(InterpreterError::InvalidInstructionError(0x200, 0xFFFF))
    );
    assert_eq!(registers.pc, 0x200);
}

#[test]
fn test_execute_fetch_beyond_memory() {
    let set = InstructionSet::default();
    let mut mem = Memory::default();
    let mut registers = Registers::default();
    let mut frame_buffer = FrameBuffer::default();
    let mut rng = rand::rngs::StdRng::seed_from_u64(0);
    registers.pc = 4095;
    assert_eq!(
        set.execute(&mut mem, &mut registers, &mut frame_buffer, &mut rng),
        Err(InterpreterError::InvalidAddressError(4095))
    );
    registers.pc = 4094;
    assert!(set
        .execute(&mut mem, &mut registers, &mut frame_buffer, &mut rng)
        .is_ok());
    assert_eq!(registers.pc, 4096);
}

#[test]
fn test_execute_rnd_is_masked() {
    let set = InstructionSet::default();
    let mut mem = Memory::default();
    let mut registers = Registers::default();
    let mut frame_buffer = FrameBuffer::default();
    let mut rng = rand::rngs::StdRng::seed_from_u64(7);
    mem.load_rom(&[0xC0, 0x00, 0xC1, 0x0F]).unwrap();
    assert!(set
        .execute(&mut mem, &mut registers, &mut frame_buffer, &mut rng)
        .is_ok());
    assert_eq!(registers.get_v(0).unwrap(), 0);
    assert!(set
        .execute(&mut mem, &mut registers, &mut frame_buffer, &mut rng)
        .is_ok());
    assert!(registers.get_v(1).unwrap() < 16);
    assert_eq!(registers.pc, 0x204);
}

#[test]
fn test_execute_cls_opcode_clears_frame() {
    let set = InstructionSet::default();
    let mut mem = Memory::default();
    let mut registers = Registers::default();
    let mut frame_buffer = FrameBuffer::default();
    let mut rng = rand::rngs::StdRng::seed_from_u64(0);
    for k in 0..2048u16 {
        frame_buffer.set_i(k, true).unwrap();
    }
    mem.load_rom(&[0x00, 0xE0]).unwrap();
    assert!(set
        .execute(&mut mem, &mut registers, &mut frame_buffer, &mut rng)
        .is_ok());
    assert_eq!(frame_buffer.frame(), &[0u8; 2048][..]);
    assert_eq!(registers.pc, 0x202);
}

#[test]
fn test_chip8_program_draws_glyph() {
    let mut chip8 = Chip8::new(1);
    chip8.load_rom(&[0xA0, 0x50, 0xD0, 0x05]).unwrap();
    assert!(chip8.update(5000).is_ok());
    let frame = chip8.frame();
    assert_eq!(&frame[0..8], &[1, 1, 1, 1, 0, 0, 0, 0]);
    assert_eq!(&frame[64..72], &[1, 0, 0, 1, 0, 0, 0, 0]);
    assert_eq!(&frame[256..264], &[1, 1, 1, 1, 0, 0, 0, 0]);
}

#[test]
fn test_chip8_update_zero_elapsed() {
    let mut chip8 = Chip8::new(0);
    chip8.load_rom(&[0xFF, 0xFF]).unwrap();
    assert!(chip8.update(0).is_ok());
    assert!(chip8.update(1000).is_ok());
}

#[test]
fn test_chip8_invalid_program_fails_update() {
    let mut chip8 = Chip8::new(0);
    chip8.load_rom(&[0xFF, 0xFF]).unwrap();
    assert_eq!(
        chip8.update(2000),
        Err(InterpreterError::InvalidInstructionError(0x200, 0xFFFF))
    );
}

#[test]
fn test_chip8_load_rom_resets_frame() {
    let mut chip8 = Chip8::new(0);
    chip8.load_rom(&[0xA0, 0x50, 0xD0, 0x05]).unwrap();
    assert!(chip8.update(5000).is_ok());
    assert!(chip8.frame().iter().any(|p| *p == 1));
    chip8.load_rom(&[0x00, 0xE0]).unwrap();
    assert_eq!(chip8.frame(), &[0u8; 2048][..]);
}

#[test]
fn test_chip8_load_rom_too_large() {
    let mut chip8 = Chip8::new(0);
    let rom = vec![0u8; 4096];
    assert_eq!(
        chip8.load_rom(&rom),
        Err(InterpreterError::InvalidAddressError(0x200))
    );
}

#[test]
fn test_chip8_reset_clears_frame() {
    let mut chip8 = Chip8::new(0);
    chip8.load_rom(&[0xA0, 0x50, 0xD0, 0x05]).unwrap();
    assert!(chip8.update(5000).is_ok());
    assert!(chip8.frame().iter().any(|p| *p == 1));
    chip8.reset();
    assert_eq!(chip8.frame(), &[0u8; 2048][..]);
}

#[test]
fn test_chip8_key_wait_blocks_then_stores() {
    let mut chip8 = Chip8::new(0);
    // A key-wait, then a draw of glyph 0 so progress becomes visible.
    chip8.load_rom(&[0xF1, 0x0A, 0xA0, 0x50, 0xD0, 0x05]).unwrap();
    assert!(chip8.update(20000).is_ok());
    assert_eq!(chip8.frame(), &[0u8; 2048][..]);
    chip8.keydown(4);
    assert!(chip8.update(20000).is_ok());
    assert!(chip8.frame().iter().any(|p| *p == 1));
    chip8.keyup(4);
}

#[test]
fn test_px_index_row_major() {
    assert_eq!(px_index(0, 0), 0);
    assert_eq!(px_index(63, 0), 63);
    assert_eq!(px_index(0, 1), 64);
    assert_eq!(px_index(63, 31), 2047);
}

#[test]
fn test_frame_buffer_get_set() {
    let mut fb = FrameBuffer::default();
    assert_eq!(fb.get_xy(3, 2).unwrap(), false);
    fb.set_xy(3, 2, true).unwrap();
    assert_eq!(fb.get_xy(3, 2).unwrap(), true);
    assert_eq!(fb.frame()[2 * 64 + 3], 1);
    fb.set_xy(3, 2, false).unwrap();
    assert_eq!(fb.get_xy(3, 2).unwrap(), false);
}

#[test]
fn test_frame_buffer_index_bounds() {
    let mut fb = FrameBuffer::default();
    assert!(fb.get_i(2047).is_ok());
    assert_eq!(
        fb.get_i(2048),
        Err(InterpreterError::InvalidFrameBufferIndex(2048))
    );
    assert_eq!(
        fb.set_i(2048, true),
        Err(InterpreterError::InvalidFrameBufferIndex(2048))
    );
}
