use chip8::error::InterpreterError;
use chip8::memory::Memory;

#[test]
fn test_read_write() {
    let mut mem = Memory::default();
    assert!(mem.write(0xF00, &[1, 2, 3]).is_ok());
    assert!(mem.write(0xFFF + 2, &[1, 2, 3]).is_err());
    assert_eq!(mem.read(0xF00, 3).unwrap(), &[1, 2, 3]);
    assert!(mem.write_byte(0xF00, 10).is_ok());
    assert!(mem.write_byte(0xFFF + 2, 10).is_err());
    assert_eq!(mem.read_byte(0xF00).unwrap(), 10);
}

#[test]
fn test_write_then_read_back_every_low_address() {
    let mut mem = Memory::default();
    for addr in [0usize, 1, 0x1FF, 0x200, 0xABC, 4095] {
        assert!(mem.write_byte(addr, 0x5A).is_ok());
        assert_eq!(mem.read_byte(addr).unwrap(), 0x5A);
    }
}

#[test]
fn test_out_of_range_byte_access() {
    let mut mem = Memory::default();
    assert_eq!(
        mem.read_byte(4096),
        Err(InterpreterError::InvalidAddressError(4096))
    );
    assert_eq!(
        mem.write_byte(4096, 7),
        Err(InterpreterError::InvalidAddressError(4096))
    );
    assert_eq!(
        mem.read_byte(60000),
        Err(InterpreterError::InvalidAddressError(60000))
    );
    assert_eq!(
        mem.write_byte(60000, 7),
        Err(InterpreterError::InvalidAddressError(60000))
    );
}

#[test]
fn test_load_rom_writes_program_at_offset() {
    let mut mem = Memory::default();
    let rom = [0xAA, 0xBB, 0xCC];
    assert!(mem.load_rom(&rom).is_ok());
    assert_eq!(mem.read_byte(0x200).unwrap(), 0xAA);
    assert_eq!(mem.read_byte(0x201).unwrap(), 0xBB);
    assert_eq!(mem.read_byte(0x202).unwrap(), 0xCC);
    assert_eq!(mem.read_byte(0x1FF).unwrap(), 0);
    assert_eq!(mem.read_byte(0x203).unwrap(), 0);
}

#[test]
fn test_load_rom_too_large() {
    let mut mem = Memory::default();
    let rom = vec![1u8; 4096 - 0x200 + 1];
    assert_eq!(
        mem.load_rom(&rom),
        Err(InterpreterError::InvalidAddressError(0x200))
    );
    assert_eq!(mem.read_byte(0x200).unwrap(), 0);
    let rom_exact_fit = vec![1u8; 4096 - 0x200];
    assert!(mem.load_rom(&rom_exact_fit).is_ok());
    assert_eq!(mem.read_byte(4095).unwrap(), 1);
}

#[test]
fn test_font_seeded_at_offset() {
    let mem = Memory::default();
    assert_eq!(mem.read(80, 5).unwrap(), &[0xF0, 0x90, 0x90, 0x90, 0xF0]);
    assert_eq!(mem.read(155, 5).unwrap(), &[0xF0, 0x80, 0xF0, 0x80, 0x80]);
    assert_eq!(mem.read_byte(79).unwrap(), 0);
    assert_eq!(mem.read_byte(160).unwrap(), 0);
}

#[test]
fn test_reset_reseeds() {
    let mut mem = Memory::default();
    mem.write_byte(0x300, 42).unwrap();
    mem.write_byte(80, 42).unwrap();
    mem.reset();
    assert_eq!(mem.read_byte(0x300).unwrap(), 0);
    assert_eq!(mem.read_byte(80).unwrap(), 0xF0);
}

#[test]
fn test_read_range_bounds() {
    let mut mem = Memory::default();
    mem.write_byte(4095, 9).unwrap();
    assert_eq!(mem.read(4094, 2).unwrap(), &[0, 9]);
    assert_eq!(mem.read(4095, 1).unwrap(), &[9]);
    assert_eq!(
        mem.read(4095, 2),
        Err(InterpreterError::InvalidAddressError(4095))
    );
    assert!(mem.write(4094, &[5, 6]).is_ok());
    assert_eq!(mem.read_byte(4095).unwrap(), 6);
    assert_eq!(
        mem.write(4095, &[5, 6]),
        Err(InterpreterError::InvalidAddressError(4095))
    );
}
