use chip8::error::InterpreterError;
use chip8::frame_buffer::FrameBuffer;
use chip8::instructions::{
    add_i_vx, add_vx_byte, add_vx_vy, and_vx_vy, call_addr, cls, drw_vx_vy_nibble, jp_addr,
    jp_v0_addr, ld_arr_i_vx, ld_arr_vx_i, ld_b_vx, ld_dt_vx, ld_f_vx, ld_i_addr, ld_st_vx,
    ld_vx_byte, ld_vx_dt, ld_vx_k, ld_vx_vy, or_vx_vy, ret, se_vx_byte, se_vx_vy, shl_vx, shr_vx,
    sknp_vx, skp_vx, sne_vx_byte, sne_vx_vy, sub_vx_vy, subn_vx_vy, xor_vx_vy, InstructionSet,
};
use chip8::memory::Memory;
use chip8::registers::Registers;

#[test]
fn test_disassemble() {
    let instructions = InstructionSet::default();

    let cls = instructions.disassemble(0x00E0);
    assert!(cls.is_some());
    assert_eq!(cls.unwrap().name, "CLS");

    let ret = instructions.disassemble(0x00EE);
    assert!(ret.is_some());
    assert_eq!(ret.unwrap().name, "RET");

    let jp_addr = instructions.disassemble(0x1AAA);
    assert!(jp_addr.is_some());
    assert_eq!(jp_addr.unwrap().name, "JP addr");

    let call_addr = instructions.disassemble(0x2AAA);
    assert!(call_addr.is_some());
    assert_eq!(call_addr.unwrap().name, "CALL addr");

    let se_vx_byte = instructions.disassemble(0x3AAA);
    assert!(se_vx_byte.is_some());
    assert_eq!(se_vx_byte.unwrap().name, "SE Vx, byte");

    let sne_vx_byte = instructions.disassemble(0x4AAA);
    assert!(sne_vx_byte.is_some());
    assert_eq!(sne_vx_byte.unwrap().name, "SNE Vx, byte");

    let se_vx_vy = instructions.disassemble(0x5AB0);
    assert!(se_vx_vy.is_some());
    assert_eq!(se_vx_vy.unwrap().name, "SE Vx, Vy");

    let ld_vx_byte = instructions.disassemble(0x6AAA);
    assert!(ld_vx_byte.is_some());
    assert_eq!(ld_vx_byte.unwrap().name, "LD Vx, byte");

    let add_vx_byte = instructions.disassemble(0x7AAA);
    assert!(add_vx_byte.is_some());
    assert_eq!(add_vx_byte.unwrap().name, "ADD Vx, byte");

    let ld_vx_vy = instructions.disassemble(0x8AB0);
    assert!(ld_vx_vy.is_some());
    assert_eq!(ld_vx_vy.unwrap().name, "LD Vx, Vy");

    let or_vx_vy = instructions.disassemble(0x8AB1);
    assert!(or_vx_vy.is_some());
    assert_eq!(or_vx_vy.unwrap().name, "OR Vx, Vy");

    let and_vx_vy = instructions.disassemble(0x8AB2);
    assert!(and_vx_vy.is_some());
    assert_eq!(and_vx_vy.unwrap().name, "AND Vx, Vy");

    let xor_vx_vy = instructions.disassemble(0x8AB3);
    assert!(xor_vx_vy.is_some());
    assert_eq!(xor_vx_vy.unwrap().name, "XOR Vx, Vy");

    let add_vx_vy = instructions.disassemble(0x8AB4);
    assert!(add_vx_vy.is_some());
    assert_eq!(add_vx_vy.unwrap().name, "ADD Vx, Vy");

    let sub_vx_vy = instructions.disassemble(0x8AB5);
    assert!(sub_vx_vy.is_some());
    assert_eq!(sub_vx_vy.unwrap().name, "SUB Vx, Vy");

    let shr_vx = instructions.disassemble(0x8AB6);
    assert!(shr_vx.is_some());
    assert_eq!(shr_vx.unwrap().name, "SHR Vx");

    let subn_vx_vy = instructions.disassemble(0x8AB7);
    assert!(subn_vx_vy.is_some());
    assert_eq!(subn_vx_vy.unwrap().name, "SUBN Vx, Vy");

    let shl_vx = instructions.disassemble(0x8ABE);
    assert!(shl_vx.is_some());
    assert_eq!(shl_vx.unwrap().name, "SHL Vx");

    let sne_vx_vy = instructions.disassemble(0x9AB0);
    assert!(sne_vx_vy.is_some());
    assert_eq!(sne_vx_vy.unwrap().name, "SNE Vx, Vy");

    let ld_i_addr = instructions.disassemble(0xAEEE);
    assert!(ld_i_addr.is_some());
    assert_eq!(ld_i_addr.unwrap().name, "LD I, addr");

    let jp_v0_addr = instructions.disassemble(0xBEEE);
    assert!(jp_v0_addr.is_some());
    assert_eq!(jp_v0_addr.unwrap().name, "JP V0, addr");

    let rnd_vx_byte = instructions.disassemble(0xCAEE);
    assert!(rnd_vx_byte.is_some());
    assert_eq!(rnd_vx_byte.unwrap().name, "RND Vx, byte");

    let drw_vx_vy_n = instructions.disassemble(0xDABC);
    assert!(drw_vx_vy_n.is_some());
    assert_eq!(drw_vx_vy_n.unwrap().name, "DRW Vx, Vy, nibble");

    let skp_vx = instructions.disassemble(0xEA9E);
    assert!(skp_vx.is_some());
    assert_eq!(skp_vx.unwrap().name, "SKP Vx");

    let sknp_vx = instructions.disassemble(0xEAA1);
    assert!(sknp_vx.is_some());
    assert_eq!(sknp_vx.unwrap().name, "SKNP Vx");

    let ld_vx_dt = instructions.disassemble(0xFA07);
    assert!(ld_vx_dt.is_some());
    assert_eq!(ld_vx_dt.unwrap().name, "LD Vx, DT");

    let ld_vx_k = instructions.disassemble(0xFA0A);
    assert!(ld_vx_k.is_some());
    assert_eq!(ld_vx_k.unwrap().name, "LD Vx, K");

    let ld_dt_vx = instructions.disassemble(0xFA15);
    assert!(ld_dt_vx.is_some());
    assert_eq!(ld_dt_vx.unwrap().name, "LD DT, Vx");

    let ld_st_vx = instructions.disassemble(0xFA18);
    assert!(ld_st_vx.is_some());
    assert_eq!(ld_st_vx.unwrap().name, "LD ST, Vx");

    let add_i_vx = instructions.disassemble(0xFA1E);
    assert!(add_i_vx.is_some());
    assert_eq!(add_i_vx.unwrap().name, "ADD I, Vx");

    let ld_f_vx = instructions.disassemble(0xFA29);
    assert!(ld_f_vx.is_some());
    assert_eq!(ld_f_vx.unwrap().name, "LD F, Vx");

    let ld_b_vx = instructions.disassemble(0xFA33);
    assert!(ld_b_vx.is_some());
    assert_eq!(ld_b_vx.unwrap().name, "LD B, Vx");

    let ld_arr_i_vx = instructions.disassemble(0xFA55);
    assert!(ld_arr_i_vx.is_some());
    assert_eq!(ld_arr_i_vx.unwrap().name, "LD [I], Vx");

    let ld_arr_vx_i = instructions.disassemble(0xFA65);
    assert!(ld_arr_vx_i.is_some());
    assert_eq!(ld_arr_vx_i.unwrap().name, "LD Vx, [I]");
}

#[test]
fn test_cls() {
    let mut registers = Registers::default();
    let mut frame_buffer = FrameBuffer::default();
    assert!(cls(&mut registers, &mut frame_buffer).is_ok());
    assert_eq!(frame_buffer.frame(), &[0u8; 2048][..]);
}

#[test]
fn test_ret() {
    let mut registers = Registers::default();
    registers.push(0xF0).unwrap();
    assert!(ret(&mut registers).is_ok());
    assert_eq!(registers.pc, 0xF2);
    assert!(matches!(
        ret(&mut registers),
        Err(InterpreterError::StackUnderflow)
    ));
}

#[test]
fn test_jp_addr() {
    let mut registers = Registers::default();
    assert!(jp_addr(0x10F0, &mut registers).is_ok());
    assert_eq!(registers.pc, 0x0F0);
}

#[test]
fn test_call_addr() {
    let mut registers = Registers::default();
    let pc = registers.pc;
    assert!(call_addr(0x20F0, &mut registers).is_ok());
    assert_eq!(registers.stack.len(), 1);
    assert_eq!(registers.stack[0], pc);
    assert_eq!(registers.pc, 0x0F0);
    registers.stack = vec![0, 1, 2, 3, 4, 5, 6, 7, 8, 9, 10, 11, 12, 13, 14, 15];
    assert!(matches!(
        call_addr(0x20F0, &mut registers),
        Err(InterpreterError::StackOverflow)
    ));
}

#[test]
fn test_se_vx_byte() {
    let mut registers = Registers::default();
    registers.pc = 0xFF0;
    registers.set_v(0, 0xF0).unwrap();
    assert!(se_vx_byte(0x30F0, &mut registers).is_ok());
    assert_eq!(registers.pc, 0xFF4);
    registers.pc = 0xFF0;
    registers.set_v(0, 0xFF).unwrap();
    assert!(se_vx_byte(0x30F0, &mut registers).is_ok());
    assert_eq!(registers.pc, 0xFF2);
}

#[test]
fn test_sne_vx_byte() {
    let mut registers = Registers::default();
    registers.pc = 0xFF0;
    registers.set_v(0, 0xF0).unwrap();
    assert!(sne_vx_byte(0x40F0, &mut registers).is_ok());
    assert_eq!(registers.pc, 0xFF2);
    registers.pc = 0xFF0;
    registers.set_v(0, 0xFF).unwrap();
    assert!(sne_vx_byte(0x40F0, &mut registers).is_ok());
    assert_eq!(registers.pc, 0xFF4);
}

#[test]
fn test_se_vx_vy() {
    let mut registers = Registers::default();
    registers.pc = 0xFF0;
    registers.set_v(0, 0xF0).unwrap();
    registers.set_v(1, 0xF0).unwrap();
    assert!(se_vx_vy(0x5010, &mut registers).is_ok());
    assert_eq!(registers.pc, 0xFF4);
    registers.pc = 0xFF0;
    registers.set_v(0, 0xF0).unwrap();
    registers.set_v(1, 0xF1).unwrap();
    assert!(se_vx_vy(0x5010, &mut registers).is_ok());
    assert_eq!(registers.pc, 0xFF2);
}

#[test]
fn test_ld_vx_byte() {
    let mut registers = Registers::default();
    assert!(ld_vx_byte(0x60F0, &mut registers).is_ok());
    assert_eq!(registers.get_v(0).unwrap(), 0xF0);
}

#[test]
fn test_add_vx_byte() {
    let mut registers = Registers::default();
    registers.set_v(0, 0x02).unwrap();
    assert!(add_vx_byte(0x7002, &mut registers).is_ok());
    assert_eq!(registers.get_v(0).unwrap(), 0x04);
}

#[test]
fn test_ld_vx_vy() {
    let mut registers = Registers::default();
    registers.set_v(0, 0x01).unwrap();
    registers.set_v(1, 0x02).unwrap();
    assert!(ld_vx_vy(0x8010, &mut registers).is_ok());
    assert_eq!(registers.get_v(0).unwrap(), 0x02);
}

#[test]
fn test_or_vx_vy() {
    let mut registers = Registers::default();
    registers.set_v(0, 0x3).unwrap();
    registers.set_v(1, 0x4).unwrap();
    assert!(or_vx_vy(0x8011, &mut registers).is_ok());
    assert_eq!(registers.get_v(0).unwrap(), 0x7);
}

#[test]
fn test_and_vx_vy() {
    let mut registers = Registers::default();
    registers.set_v(0, 0x34).unwrap();
    registers.set_v(1, 0xF0).unwrap();
    assert!(and_vx_vy(0x8012, &mut registers).is_ok());
    assert_eq!(registers.get_v(0).unwrap(), 0x30);
}

#[test]
fn test_xor_vx_vy() {
    let mut registers = Registers::default();
    registers.set_v(0, 0x3).unwrap();
    registers.set_v(1, 0x3).unwrap();
    assert!(xor_vx_vy(0x8013, &mut registers).is_ok());
    assert_eq!(registers.get_v(0).unwrap(), 0);
}

#[test]
fn test_add_vx_vy() {
    let mut registers = Registers::default();
    registers.set_v(0, 0x3).unwrap();
    registers.set_v(1, 0x4).unwrap();
    assert!(add_vx_vy(0x8014, &mut registers).is_ok());
    assert_eq!(registers.get_v(0).unwrap(), 0x7);
    assert_eq!(registers.get_vf(), 0);
    registers.set_v(0, 0xFF).unwrap();
    registers.set_v(1, 0xFF).unwrap();
    assert!(add_vx_vy(0x8014, &mut registers).is_ok());
    assert_eq!(registers.get_v(0).unwrap(), 0xFE);
    assert_eq!(registers.get_vf(), 1);
}

#[test]
fn test_sub_vx_vy() {
    let mut registers = Registers::default();
    registers.set_v(0, 0x4).unwrap();
    registers.set_v(1, 0x2).unwrap();
    assert!(sub_vx_vy(0x8015, &mut registers).is_ok());
    assert_eq!(registers.get_v(0).unwrap(), 0x2);
    assert_eq!(registers.get_vf(), 1);
    registers.set_v(0, 0x2).unwrap();
    registers.set_v(1, 0x3).unwrap();
    assert!(sub_vx_vy(0x8015, &mut registers).is_ok());
    assert_eq!(registers.get_v(0).unwrap(), 0xFF);
    assert_eq!(registers.get_vf(), 0);
}

#[test]
fn test_shr_vx() {
    let mut registers = Registers::default();
    registers.set_v(0, 0x3).unwrap();
    assert!(shr_vx(0x8006, &mut registers).is_ok());
    assert_eq!(registers.get_v(0).unwrap(), 1);
    assert_eq!(registers.get_vf(), 1);
}

#[test]
fn test_subn_vx_vy() {
    let mut registers = Registers::default();
    registers.set_v(0, 0x3).unwrap();
    registers.set_v(1, 0x2).unwrap();
    assert!(subn_vx_vy(0x8017, &mut registers).is_ok());
    assert_eq!(registers.get_v(0).unwrap(), 255);
    assert_eq!(registers.get_vf(), 0);
    registers.set_v(0, 0x2).unwrap();
    registers.set_v(1, 0x3).unwrap();
    assert!(subn_vx_vy(0x8017, &mut registers).is_ok());
    assert_eq!(registers.get_v(0).unwrap(), 1);
    assert_eq!(registers.get_vf(), 1);
}

#[test]
fn test_shl_vx() {
    let mut registers = Registers::default();
    registers.set_v(0, 0x3).unwrap();
    assert!(shl_vx(0x800E, &mut registers).is_ok());
    assert_eq!(registers.get_v(0).unwrap(), 6);
    assert_eq!(registers.get_vf(), 0);
}

#[test]
fn test_sne_vx_vy() {
    let mut registers = Registers::default();
    registers.pc = 0xF0;
    registers.set_v(0, 1).unwrap();
    registers.set_v(1, 1).unwrap();
    assert!(sne_vx_vy(0x9010, &mut registers).is_ok());
    assert_eq!(registers.pc, 0xF2);
    registers.pc = 0xF0;
    registers.set_v(0, 1).unwrap();
    registers.set_v(1, 2).unwrap();
    assert!(sne_vx_vy(0x9010, &mut registers).is_ok());
    assert_eq!(registers.pc, 0xF4);
}

#[test]
fn test_ld_i_addr() {
    let mut registers = Registers::default();
    assert!(ld_i_addr(0xAF00, &mut registers).is_ok());
    assert_eq!(registers.i, 0xF00);
}

#[test]
fn test_jp_v0_addr() {
    let mut registers = Registers::default();
    registers.set_v(0, 0x010).unwrap();
    assert!(jp_v0_addr(0xB010, &mut registers).is_ok());
    assert_eq!(registers.pc, 32);
}

#[test]
fn test_skp_vx() {
    let mut registers = Registers::default();
    registers.pc = 0xF0;
    registers.keys[4] = true;
    registers.set_v(0, 4).unwrap();
    assert!(skp_vx(0xE09E, &mut registers).is_ok());
    assert_eq!(registers.pc, 0xF4);
    registers.pc = 0xF0;
    assert!(skp_vx(0xE19E, &mut registers).is_ok());
    assert_eq!(registers.pc, 0xF2);
}

#[test]
fn test_sknp_vx() {
    let mut registers = Registers::default();
    registers.pc = 0xF0;
    registers.keys[4] = true;
    registers.set_v(0, 4).unwrap();
    assert!(sknp_vx(0xE0A1, &mut registers).is_ok());
    assert_eq!(registers.pc, 0xF2);
    registers.pc = 0xF0;
    assert!(sknp_vx(0xE1A1, &mut registers).is_ok());
    assert_eq!(registers.pc, 0xF4);
}

#[test]
fn test_ld_vx_dt() {
    let mut registers = Registers::default();
    registers.delay_timer = 10;
    assert!(ld_vx_dt(0xF407, &mut registers).is_ok());
    assert_eq!(registers.get_v(4).unwrap(), 10);
}

#[test]
fn test_ld_vx_k() {
    let mut registers = Registers::default();
    registers.pc = 0xF0;
    assert!(ld_vx_k(0xF00A, &mut registers).is_ok());
    assert_eq!(registers.get_v(0).unwrap(), 0);
    assert_eq!(registers.pc, 0xF0);
    registers.keys[4] = true;
    assert!(ld_vx_k(0xF00A, &mut registers).is_ok());
    assert_eq!(registers.get_v(0).unwrap(), 4);
    assert_eq!(registers.pc, 0xF2);
}

#[test]
fn test_ld_dt_vx() {
    let mut registers = Registers::default();
    registers.set_v(0, 4).unwrap();
    assert!(ld_dt_vx(0xF015, &mut registers).is_ok());
    assert_eq!(registers.delay_timer, 4);
}

#[test]
fn test_ld_st_vx() {
    let mut registers = Registers::default();
    registers.set_v(0, 4).unwrap();
    assert!(ld_st_vx(0xF018, &mut registers).is_ok());
    assert_eq!(registers.sound_timer, 4);
}

#[test]
fn test_add_i_vx() {
    let mut registers = Registers::default();
    registers.i = 5;
    registers.set_v(2, 4).unwrap();
    assert!(add_i_vx(0xF21E, &mut registers).is_ok());
    assert_eq!(registers.i, 9);
}

#[test]
fn test_ld_f_vx() {
    let mut registers = Registers::default();
    registers.set_v(0, 5).unwrap();
    assert!(ld_f_vx(0xF029, &mut registers).is_ok());
    assert_eq!(registers.i, 80 + 25);
    registers.set_v(0, 200).unwrap();
    assert!(matches!(
        ld_f_vx(0xF029, &mut registers),
        Err(InterpreterError::InvalidKey(200))
    ));
}

#[test]
fn test_ld_b_vx() {
    let mut mem = Memory::default();
    let mut registers = Registers::default();
    registers.i = 0x300;
    registers.set_v(0, 0x7B).unwrap();
    assert!(ld_b_vx(0xF033, &mut mem, &mut registers).is_ok());
    assert_eq!(mem.read_byte(0x300).unwrap(), 1);
    assert_eq!(mem.read_byte(0x301).unwrap(), 2);
    assert_eq!(mem.read_byte(0x302).unwrap(), 3);
}

#[test]
fn test_ld_arr_i_vx() {
    let mut mem = Memory::default();
    let mut registers = Registers::default();
    registers.i = 0x300;
    registers.set_v(0, 1).unwrap();
    registers.set_v(1, 2).unwrap();
    registers.set_v(2, 3).unwrap();
    assert!(ld_arr_i_vx(0xF255, &mut mem, &mut registers).is_ok());
    assert_eq!(mem.read_byte(0x300).unwrap(), 1);
    assert_eq!(mem.read_byte(0x301).unwrap(), 2);
    assert_eq!(mem.read_byte(0x302).unwrap(), 3);
}

#[test]
fn test_ld_arr_vx_i() {
    let mut mem = Memory::default();
    let mut registers = Registers::default();
    registers.i = 0x300;
    mem.write(0x300, &[1, 2, 3]).unwrap();
    assert!(ld_arr_vx_i(0xF265, &mem, &mut registers).is_ok());
    assert_eq!(registers.get_v(0).unwrap(), 1);
    assert_eq!(registers.get_v(1).unwrap(), 2);
    assert_eq!(registers.get_v(2).unwrap(), 3);
}

#[test]
fn test_add_overflow_sets_carry() {
    let mut registers = Registers::default();
    registers.set_v(0, 0xFF).unwrap();
    registers.set_v(1, 0x01).unwrap();
    assert!(add_vx_vy(0x8014, &mut registers).is_ok());
    assert_eq!(registers.get_v(0).unwrap(), 0x00);
    assert_eq!(registers.get_vf(), 1);
}

#[test]
fn test_skp_invalid_key() {
    let mut registers = Registers::default();
    registers.set_v(0, 200).unwrap();
    assert!(matches!(
        skp_vx(0xE09E, &mut registers),
        Err(InterpreterError::InvalidKey(200))
    ));
}

#[test]
fn test_drw_draws_sprite_rows() {
    let mut mem = Memory::default();
    let mut registers = Registers::default();
    let mut frame_buffer = FrameBuffer::default();
    mem.write(0x300, &[0b1010_0000, 0b0101_0000]).unwrap();
    registers.i = 0x300;
    registers.set_v(0, 0).unwrap();
    registers.set_v(1, 0).unwrap();
    assert!(drw_vx_vy_nibble(0xD012, &mem, &mut registers, &mut frame_buffer).is_ok());
    let frame = frame_buffer.frame();
    assert_eq!(&frame[0..4], &[1, 0, 1, 0]);
    assert_eq!(&frame[64..68], &[0, 1, 0, 1]);
    assert_eq!(registers.get_vf(), 0);
}

#[test]
fn test_drw_twice_clears_and_collides() {
    let mut mem = Memory::default();
    let mut registers = Registers::default();
    let mut frame_buffer = FrameBuffer::default();
    mem.write(0x300, &[0xFF, 0x81]).unwrap();
    registers.i = 0x300;
    registers.set_v(2, 5).unwrap();
    registers.set_v(3, 7).unwrap();
    assert!(drw_vx_vy_nibble(0xD232, &mem, &mut registers, &mut frame_buffer).is_ok());
    assert_eq!(registers.get_vf(), 0);
    assert_eq!(frame_buffer.get_xy(5, 7).unwrap(), true);
    assert!(drw_vx_vy_nibble(0xD232, &mem, &mut registers, &mut frame_buffer).is_ok());
    assert_eq!(registers.get_vf(), 1);
    assert_eq!(frame_buffer.frame(), &[0u8; 2048][..]);
}

#[test]
fn test_drw_clips_at_corner() {
    let mut mem = Memory::default();
    let mut registers = Registers::default();
    let mut frame_buffer = FrameBuffer::default();
    mem.write(0x300, &[0xFF, 0xFF]).unwrap();
    registers.i = 0x300;
    registers.set_v(0, 63).unwrap();
    registers.set_v(1, 31).unwrap();
    assert!(drw_vx_vy_nibble(0xD012, &mem, &mut registers, &mut frame_buffer).is_ok());
    let frame = frame_buffer.frame();
    for k in 0..2047 {
        assert_eq!(frame[k], 0);
    }
    assert_eq!(frame[2047], 1);
    assert_eq!(registers.get_vf(), 0);
}

#[test]
fn test_decode_same_entry_every_call() {
    let instructions = InstructionSet::default();
    let first = instructions.disassemble(0xD012).unwrap();
    let (name, id, mask) = (first.name, first.id, first.mask);
    for _ in 0..3 {
        let again = instructions.disassemble(0xD012).unwrap();
        assert_eq!(again.name, name);
        assert_eq!(again.id, id);
        assert_eq!(again.mask, mask);
    }
}

#[test]
fn test_table_priority_order() {
    let instructions = chip8::instructions::get_instructions();
    assert_eq!(instructions.len(), 35);
    assert_eq!(instructions[0].name, "SYS addr");
    assert_eq!(instructions[1].name, "CLS");
    assert_eq!(instructions[2].name, "RET");
}

#[test]
fn test_shl_carry() {
    let mut registers = Registers::default();
    registers.set_v(0, 0x81).unwrap();
    assert!(shl_vx(0x800E, &mut registers).is_ok());
    assert_eq!(registers.get_v(0).unwrap(), 0x02);
    assert_eq!(registers.get_vf(), 1);
}
