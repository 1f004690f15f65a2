use chip8::cpu::disassembler::decode;
use chip8::cpu::CPU;
use chip8::model::CpuError;

#[test]
fn load_immediate_end_to_end() {
    let mut cpu = CPU::new();
    cpu.load_program(&[0x60, 0x05]).unwrap();

    cpu.do_cycle().unwrap();

    assert_eq!(cpu.registers[0], 5);
    assert_eq!(cpu.program_counter, 0x202);
}

#[test]
fn draw_font_sprite_end_to_end() {
    let mut cpu = CPU::new();
    // I = 0x20A, draw 5 rows at (V0, V0) = (0, 0); bytes at 0x20A hold the
    // sprite for the digit 0.
    cpu.load_program(&[
        0xA2, 0x0A, 0xD0, 0x05, 0x00, 0x00, 0x00, 0x00, 0x00, 0x00, 0xF0, 0x90, 0x90, 0x90, 0xF0,
    ])
    .unwrap();

    cpu.do_cycle().unwrap();
    assert_eq!(cpu.i_register, 0x20A);

    cpu.do_cycle().unwrap();

    let expected_rows: [u8; 5] = [0xF0, 0x90, 0x90, 0x90, 0xF0];
    for (row, bits) in expected_rows.iter().enumerate() {
        for col in 0..8 {
            let expected = (bits >> (7 - col)) & 1 != 0;
            assert_eq!(cpu.gfx[col][row], expected);
        }
    }
    assert_eq!(cpu.registers[0xF], 0);
}

#[test]
fn timer_decay_floors_at_zero() {
    let mut cpu = CPU::new();
    cpu.delay_timer = 5;

    for expected in [4u8, 3, 2, 1, 0].iter() {
        cpu.do_cycle().unwrap();
        assert_eq!(cpu.delay_timer, *expected);
    }

    cpu.do_cycle().unwrap();
    assert_eq!(cpu.delay_timer, 0);
}

#[test]
fn sound_timer_decays_too() {
    let mut cpu = CPU::new();
    cpu.sound_timer = 2;

    cpu.do_cycle().unwrap();
    assert_eq!(cpu.sound_timer, 1);
    cpu.do_cycle().unwrap();
    assert_eq!(cpu.sound_timer, 0);
    cpu.do_cycle().unwrap();
    assert_eq!(cpu.sound_timer, 0);
}

#[test]
fn timers_decay_while_waiting_for_key() {
    let mut cpu = CPU::new();
    cpu.load_program(&[0xF3, 0x0A]).unwrap();
    cpu.delay_timer = 3;

    cpu.do_cycle().unwrap();
    assert_eq!(cpu.waiting_for_key, Some(3));
    assert_eq!(cpu.delay_timer, 2);

    cpu.do_cycle().unwrap();
    assert_eq!(cpu.program_counter, 0x200);
    assert_eq!(cpu.delay_timer, 1);
}

#[test]
fn unimplemented_opcode_is_fatal() {
    let mut cpu = CPU::new();
    cpu.opcode = 0x8009;

    let err = cpu.execute_opcode().unwrap_err();

    assert_eq!(
        err,
        CpuError::UnimplementedOpcode { program_counter: 0x200, opcode: 0x8009 }
    );
    assert_eq!(cpu.program_counter, 0x200);
}

#[test]
fn unknown_e_family_is_fatal() {
    let mut cpu = CPU::new();
    cpu.opcode = 0xE0FF;

    let err = cpu.execute_opcode().unwrap_err();

    assert!(matches!(err, CpuError::UnimplementedOpcode { .. }));
}

#[test]
fn return_with_empty_stack_is_fatal() {
    let mut cpu = CPU::new();
    cpu.opcode = 0x00EE;

    let err = cpu.execute_opcode().unwrap_err();

    assert_eq!(
        err,
        CpuError::StackUnderflow { program_counter: 0x200, opcode: 0x00EE }
    );
}

#[test]
fn oversized_rom_is_rejected() {
    let mut cpu = CPU::new();
    let rom = vec![0u8; 3585];

    let err = cpu.load_program(&rom).unwrap_err();

    assert_eq!(err, CpuError::RomTooLarge { length: 3585 });
    assert_eq!(cpu.program_size, 0);
}

#[test]
fn largest_rom_is_accepted() {
    let mut cpu = CPU::new();
    let rom = vec![0xAAu8; 3584];

    cpu.load_program(&rom).unwrap();

    assert_eq!(cpu.program_size, 4096);
    assert_eq!(cpu.memory[0x200], 0xAA);
    assert_eq!(cpu.memory[4095], 0xAA);
}

#[test]
fn random_and_masks_result() {
    let mut cpu = CPU::new();
    cpu.opcode = 0xC10F;

    cpu.execute_opcode().unwrap();

    assert_eq!(cpu.registers[1] & 0xF0, 0);
}

#[test]
fn random_and_with_zero_mask() {
    let mut cpu = CPU::new();
    cpu.opcode = 0xC500;
    cpu.registers[5] = 0xFF;

    cpu.execute_opcode().unwrap();

    assert_eq!(cpu.registers[5], 0);
}

#[test]
fn draw_twice_restores_pixels() {
    let mut cpu = CPU::new();
    cpu.registers[0] = 3;
    cpu.registers[1] = 7;
    cpu.i_register = 0x300;
    cpu.memory[0x300] = 0xFF;
    cpu.memory[0x301] = 0x81;

    cpu.opcode = 0xD012;
    cpu.execute_opcode().unwrap();
    assert_eq!(cpu.gfx[3][7], true);
    assert_eq!(cpu.registers[0xF], 0);

    cpu.opcode = 0xD012;
    cpu.execute_opcode().unwrap();
    assert_eq!(cpu.registers[0xF], 1);
    for x in 0..64 {
        for y in 0..32 {
            assert_eq!(cpu.gfx[x][y], false);
        }
    }
}

#[test]
fn draw_wraps_at_display_edges() {
    let mut cpu = CPU::new();
    cpu.registers[0] = 62;
    cpu.registers[1] = 31;
    cpu.i_register = 0x300;
    cpu.memory[0x300] = 0xC0;
    cpu.memory[0x301] = 0xC0;

    cpu.opcode = 0xD012;
    cpu.execute_opcode().unwrap();

    assert_eq!(cpu.gfx[62][31], true);
    assert_eq!(cpu.gfx[63][31], true);
    assert_eq!(cpu.gfx[62][0], true);
    assert_eq!(cpu.gfx[63][0], true);
    assert_eq!(cpu.registers[0xF], 0);
}

#[test]
fn reset_restores_power_on_state() {
    let mut cpu = CPU::new();
    cpu.load_program(&[0x60, 0x05]).unwrap();
    cpu.do_cycle().unwrap();
    cpu.delay_timer = 9;
    cpu.stack.push(0x234);

    cpu.reset();

    assert_eq!(cpu.registers[0], 0);
    assert_eq!(cpu.program_counter, 0x200);
    assert_eq!(cpu.program_size, 0);
    assert_eq!(cpu.delay_timer, 0);
    assert!(cpu.stack.is_empty());
    assert_eq!(cpu.memory[0x200], 0);
    // the font table is rewritten
    assert_eq!(cpu.memory[0], 0xF0);
    assert_eq!(cpu.memory[79], 0x80);
}

#[test]
fn font_table_matches_reference() {
    let cpu = CPU::new();
    assert_eq!(&cpu.memory[0..5], &[0xF0, 0x90, 0x90, 0x90, 0xF0]);
    assert_eq!(&cpu.memory[45..50], &[0xF0, 0x90, 0xF0, 0x10, 0xF0]);
    assert_eq!(&cpu.memory[75..80], &[0xF0, 0x80, 0xF0, 0x80, 0x80]);
}

#[test]
fn decode_jump() {
    let d = decode(0x1123, 0x200);
    assert_eq!(d.memory_location, 0x200);
    assert_eq!(d.opcode, 0x1123);
    assert_eq!(d.assembly, "GOTO 0x123");
}

#[test]
fn decode_clear_and_return() {
    assert_eq!(decode(0x00E0, 0x200).assembly, "ERASE");
    assert_eq!(decode(0x00EE, 0x202).assembly, "Return");
    assert_eq!(decode(0x0123, 0x204).assembly, "NOP 0x123");
}

#[test]
fn decode_alu_family() {
    assert_eq!(decode(0x8AB4, 0x200).assembly, "V10+=V11");
    assert_eq!(decode(0x8AB6, 0x200).assembly, "V10=V11>>1");
    assert_eq!(decode(0x8AB7, 0x200).assembly, "V10=V11-V10");
    assert_eq!(decode(0x8AB9, 0x200).assembly, "0x8AB9 not handled yet");
}

#[test]
fn decode_skip_family() {
    assert_eq!(decode(0x3A0F, 0x200).assembly, "SKF V10=0xF");
    assert_eq!(decode(0x4A0F, 0x200).assembly, "SKF V10\u{2260}0xF");
    assert_eq!(decode(0x5AB0, 0x200).assembly, "SKF V10=V11");
    assert_eq!(decode(0x9AB0, 0x200).assembly, "SKF V10\u{2260}V11");
}

#[test]
fn decode_draw_and_misc() {
    assert_eq!(decode(0xD7A6, 0x200).assembly, "Draw 6 Rows @X7,Y10");
    assert_eq!(decode(0xA2EA, 0x200).assembly, "I=0x2EA");
    assert_eq!(decode(0xB123, 0x200).assembly, "GOTO V0+0x123");
    assert_eq!(decode(0xC10F, 0x200).assembly, "V1=RND.0xF");
    assert_eq!(decode(0xE19E, 0x200).assembly, "SKF V1=KEY");
    assert_eq!(decode(0xE1A1, 0x200).assembly, "SKF V1\u{2260}KEY");
    assert_eq!(decode(0xFA07, 0x200).assembly, "V10=TIME");
    assert_eq!(decode(0xFA0A, 0x200).assembly, "V10=KEY");
    assert_eq!(decode(0xFA15, 0x200).assembly, "TIME=V10");
    assert_eq!(decode(0xFA18, 0x200).assembly, "TONE=V10");
    assert_eq!(decode(0xFA1E, 0x200).assembly, "I=I+V10");
    assert_eq!(decode(0xFA29, 0x200).assembly, "I=DSP,V10");
    assert_eq!(decode(0xFA33, 0x200).assembly, "MI=DEQ,V10");
    assert_eq!(decode(0xFA55, 0x200).assembly, "MI=V0:V10");
    assert_eq!(decode(0xFA65, 0x200).assembly, "V0:V10=MI");
    assert_eq!(decode(0xFAFF, 0x200).assembly, "Not implemented yet");
}

#[test]
fn disassemble_program_lists_loaded_words() {
    let mut cpu = CPU::new();
    cpu.load_program(&[0x60, 0x05, 0xA2, 0x0A]).unwrap();

    let listing = cpu.disassemble_program();

    assert_eq!(listing.len(), 2);
    assert_eq!(listing[0].memory_location, 0x200);
    assert_eq!(listing[0].opcode, 0x6005);
    assert_eq!(listing[0].assembly, "V0=0x5");
    assert_eq!(listing[1].memory_location, 0x202);
    assert_eq!(listing[1].opcode, 0xA20A);
    assert_eq!(listing[1].assembly, "I=0x20A");
    assert_eq!(cpu.program_counter, 0x200);
}

#[test]
fn disassemble_empty_program_is_empty() {
    let mut cpu = CPU::new();
    let listing = cpu.disassemble_program();
    assert!(listing.is_empty());
}

#[test]
fn key_release_clears_latch() {
    let mut cpu = CPU::new();
    cpu.press_key(Some(0xA));
    assert_eq!(cpu.key_press, Some(0xA));
    cpu.press_key(None);
    assert_eq!(cpu.key_press, None);
}

#[test]
fn index_register_addition_wraps() {
    let mut cpu = CPU::new();
    cpu.opcode = 0xFA1E;
    cpu.i_register = 0xFFFF;
    cpu.registers[0xA] = 2;

    cpu.execute_opcode().unwrap();

    assert_eq!(cpu.i_register, 1);
}

#[test]
fn bcd_of_boundary_values() {
    let mut cpu = CPU::new();
    cpu.opcode = 0xF133;
    cpu.registers[1] = 255;
    cpu.i_register = 0x300;

    cpu.execute_opcode().unwrap();

    assert_eq!(cpu.memory[0x300], 2);
    assert_eq!(cpu.memory[0x301], 5);
    assert_eq!(cpu.memory[0x302], 5);

    cpu.opcode = 0xF233;
    cpu.registers[2] = 0;
    cpu.execute_opcode().unwrap();
    assert_eq!(cpu.memory[0x300], 0);
    assert_eq!(cpu.memory[0x301], 0);
    assert_eq!(cpu.memory[0x302], 0);
}
