use chip8::cpu::CPU;
use chip8::cpu::decode;
use chip8::cpu::Instr;
use chip8::display::Display;
use chip8::keypad::Keypad;

/// Writes one big-endian opcode word at `addr`.
fn put_op(cpu: &mut CPU, addr: usize, op: u16) {
    cpu.memory[addr] = (op >> 8) as u8;
    cpu.memory[addr + 1] = (op & 0xFF) as u8;
}

#[test]
fn initial_state() {
    let cpu = CPU::new();
    assert_eq!(cpu.get_pc(), 0x200);
    assert_eq!(cpu.get_i(), 0);
    assert_eq!(cpu.sp, 0);
    assert_eq!(cpu.delay_timer, 0);
    assert_eq!(cpu.sound_timer, 0);
    assert!(!cpu.is_waiting_for_key());
    for x in 0..16 {
        assert_eq!(cpu.get_register(x), 0);
        assert!(!cpu.keypad.get_key_state(x as usize));
        assert_eq!(cpu.stack[x as usize], 0);
    }
    // The font's first glyph (0) and last glyph (F) are in place.
    assert_eq!(cpu.memory[0], 0xF0);
    assert_eq!(cpu.memory[4], 0xF0);
    assert_eq!(cpu.memory[75], 0xF0);
    assert_eq!(cpu.memory[79], 0x80);
    assert_eq!(cpu.memory[80], 0);
    assert_eq!(cpu.memory[0x200], 0);
    for row in 0..32 {
        for col in 0..64 {
            assert_eq!(cpu.display.get_pixel(row, col), 0);
        }
    }
}

#[test]
fn load_rom_copies_bytes_at_pc() {
    let mut cpu = CPU::new();
    cpu.load_rom(&[0x12, 0x34, 0x56]);
    assert_eq!(cpu.memory[0x200], 0x12);
    assert_eq!(cpu.memory[0x201], 0x34);
    assert_eq!(cpu.memory[0x202], 0x56);
    assert_eq!(cpu.memory[0x203], 0x00);
    assert_eq!(cpu.get_pc(), 0x200);
}

#[test]
fn load_rom_drops_bytes_past_end_of_memory() {
    let mut cpu = CPU::new();
    cpu.set_pc(4094);
    cpu.load_rom(&[0xAA, 0xBB, 0xCC, 0xDD]);
    assert_eq!(cpu.memory[4094], 0xAA);
    assert_eq!(cpu.memory[4095], 0xBB);
    // The rest of the image fell off the end; low memory keeps the font.
    assert_eq!(cpu.memory[0], 0xF0);
    assert_eq!(cpu.memory[1], 0x90);
}

#[test]
fn decode_covers_every_family() {
    assert_eq!(decode(0x00E0), Instr::Cls);
    assert_eq!(decode(0x00EE), Instr::Ret);
    assert_eq!(decode(0x1ABC), Instr::Jp(0xABC));
    assert_eq!(decode(0x2123), Instr::Call(0x123));
    assert_eq!(decode(0x3A42), Instr::SeNn(0xA, 0x42));
    assert_eq!(decode(0x4A42), Instr::SneNn(0xA, 0x42));
    assert_eq!(decode(0x5AB0), Instr::SeVy(0xA, 0xB));
    assert_eq!(decode(0x6A42), Instr::LdNn(0xA, 0x42));
    assert_eq!(decode(0x7A42), Instr::AddNn(0xA, 0x42));
    assert_eq!(decode(0x8AB0), Instr::LdVy(0xA, 0xB));
    assert_eq!(decode(0x8AB1), Instr::OrVy(0xA, 0xB));
    assert_eq!(decode(0x8AB2), Instr::AndVy(0xA, 0xB));
    assert_eq!(decode(0x8AB3), Instr::XorVy(0xA, 0xB));
    assert_eq!(decode(0x8AB4), Instr::AddVy(0xA, 0xB));
    assert_eq!(decode(0x8AB5), Instr::SubVy(0xA, 0xB));
    assert_eq!(decode(0x8AB6), Instr::ShrVy(0xA, 0xB));
    assert_eq!(decode(0x8AB7), Instr::SubnVy(0xA, 0xB));
    assert_eq!(decode(0x8ABE), Instr::ShlVy(0xA, 0xB));
    assert_eq!(decode(0x9AB0), Instr::SneVy(0xA, 0xB));
    assert_eq!(decode(0xAABC), Instr::LdI(0xABC));
    assert_eq!(decode(0xBABC), Instr::JpV0(0xABC));
    assert_eq!(decode(0xCA42), Instr::Rnd(0xA, 0x42));
    assert_eq!(decode(0xDAB5), Instr::Drw(0xA, 0xB, 0x5));
    assert_eq!(decode(0xEA9E), Instr::Skp(0xA));
    assert_eq!(decode(0xEAA1), Instr::Sknp(0xA));
    assert_eq!(decode(0xFA07), Instr::LdVxDt(0xA));
    assert_eq!(decode(0xFA0A), Instr::WaitKey(0xA));
    assert_eq!(decode(0xFA15), Instr::LdDtVx(0xA));
    assert_eq!(decode(0xFA18), Instr::LdStVx(0xA));
    assert_eq!(decode(0xFA1E), Instr::AddIVx(0xA));
    assert_eq!(decode(0xFA29), Instr::LdFVx(0xA));
    assert_eq!(decode(0xFA33), Instr::Bcd(0xA));
    assert_eq!(decode(0xFA55), Instr::StoreRegs(0xA));
    assert_eq!(decode(0xFA65), Instr::LoadRegs(0xA));
    assert_eq!(decode(0x0123), Instr::Unknown);
    assert_eq!(decode(0x5AB1), Instr::Unknown);
    assert_eq!(decode(0x8AB8), Instr::Unknown);
    assert_eq!(decode(0x9AB3), Instr::Unknown);
    assert_eq!(decode(0xEA00), Instr::Unknown);
    assert_eq!(decode(0xFA99), Instr::Unknown);
}

#[test]
fn unknown_opcode_stalls_pc() {
    let mut cpu = CPU::new();
    put_op(&mut cpu, 0x200, 0x0123);
    cpu.cpu_cycle();
    assert_eq!(cpu.get_pc(), 0x200);
}

#[test]
fn add_with_carry_flag() {
    // 200 + 100 = 300: destination 44, flag 1.
    let mut cpu = CPU::new();
    cpu.set_register(0, 200);
    cpu.set_register(1, 100);
    put_op(&mut cpu, 0x200, 0x8014);
    cpu.cpu_cycle();
    assert_eq!(cpu.get_register(0), 44);
    assert_eq!(cpu.get_register(15), 1);
    assert_eq!(cpu.get_pc(), 0x202);
}

#[test]
fn add_without_carry_flag() {
    // 254 + 1 = 255: no carry yet, flag 0.
    let mut cpu = CPU::new();
    cpu.set_register(0, 254);
    cpu.set_register(1, 1);
    cpu.set_register(15, 9);
    put_op(&mut cpu, 0x200, 0x8014);
    cpu.cpu_cycle();
    assert_eq!(cpu.get_register(0), 255);
    assert_eq!(cpu.get_register(15), 0);
}

#[test]
fn add_immediate_wraps_without_flag() {
    let mut cpu = CPU::new();
    cpu.set_register(3, 250);
    cpu.set_register(15, 7);
    put_op(&mut cpu, 0x200, 0x730A);
    cpu.cpu_cycle();
    assert_eq!(cpu.get_register(3), 4);
    // 7xnn writes no flag.
    assert_eq!(cpu.get_register(15), 7);
}

#[test]
fn sub_with_borrow() {
    // 10 - 20 borrows: destination 246, flag 0.
    let mut cpu = CPU::new();
    cpu.set_register(0, 10);
    cpu.set_register(1, 20);
    put_op(&mut cpu, 0x200, 0x8015);
    cpu.cpu_cycle();
    assert_eq!(cpu.get_register(0), 246);
    assert_eq!(cpu.get_register(15), 0);
}

#[test]
fn sub_without_borrow() {
    let mut cpu = CPU::new();
    cpu.set_register(0, 20);
    cpu.set_register(1, 20);
    put_op(&mut cpu, 0x200, 0x8015);
    cpu.cpu_cycle();
    assert_eq!(cpu.get_register(0), 0);
    assert_eq!(cpu.get_register(15), 1);
}

#[test]
fn subn_mirrors_operands() {
    // V1 - V0 = 20 - 10: destination 10, flag 1.
    let mut cpu = CPU::new();
    cpu.set_register(0, 10);
    cpu.set_register(1, 20);
    put_op(&mut cpu, 0x200, 0x8017);
    cpu.cpu_cycle();
    assert_eq!(cpu.get_register(0), 10);
    assert_eq!(cpu.get_register(15), 1);

    let mut cpu = CPU::new();
    cpu.set_register(0, 20);
    cpu.set_register(1, 10);
    put_op(&mut cpu, 0x200, 0x8017);
    cpu.cpu_cycle();
    assert_eq!(cpu.get_register(0), 246);
    assert_eq!(cpu.get_register(15), 0);
}

#[test]
fn shift_right_keeps_raw_high_bit() {
    let mut cpu = CPU::new();
    cpu.set_register(1, 0x81);
    put_op(&mut cpu, 0x200, 0x8016);
    cpu.cpu_cycle();
    assert_eq!(cpu.get_register(0), 0x40);
    // The flag receives the source's high bit unnormalized.
    assert_eq!(cpu.get_register(15), 0x80);
}

#[test]
fn shift_left_keeps_low_bit() {
    let mut cpu = CPU::new();
    cpu.set_register(1, 0x81);
    put_op(&mut cpu, 0x200, 0x801E);
    cpu.cpu_cycle();
    assert_eq!(cpu.get_register(0), 0x02);
    assert_eq!(cpu.get_register(15), 0x01);
}

#[test]
fn skip_if_equal_immediate() {
    let mut cpu = CPU::new();
    cpu.set_register(0, 0x42);
    put_op(&mut cpu, 0x200, 0x3042);
    cpu.cpu_cycle();
    assert_eq!(cpu.get_pc(), 0x204);

    let mut cpu = CPU::new();
    cpu.set_register(0, 0x41);
    put_op(&mut cpu, 0x200, 0x3042);
    cpu.cpu_cycle();
    assert_eq!(cpu.get_pc(), 0x202);
}

#[test]
fn skip_if_not_equal_immediate() {
    let mut cpu = CPU::new();
    cpu.set_register(0, 0x41);
    put_op(&mut cpu, 0x200, 0x4042);
    cpu.cpu_cycle();
    assert_eq!(cpu.get_pc(), 0x204);

    let mut cpu = CPU::new();
    cpu.set_register(0, 0x42);
    put_op(&mut cpu, 0x200, 0x4042);
    cpu.cpu_cycle();
    assert_eq!(cpu.get_pc(), 0x202);
}

#[test]
fn skip_if_registers_equal() {
    let mut cpu = CPU::new();
    cpu.set_register(0, 7);
    cpu.set_register(1, 7);
    put_op(&mut cpu, 0x200, 0x5010);
    cpu.cpu_cycle();
    assert_eq!(cpu.get_pc(), 0x204);

    let mut cpu = CPU::new();
    cpu.set_register(0, 7);
    cpu.set_register(1, 8);
    put_op(&mut cpu, 0x200, 0x5010);
    cpu.cpu_cycle();
    assert_eq!(cpu.get_pc(), 0x202);
}

#[test]
fn skip_if_registers_not_equal() {
    let mut cpu = CPU::new();
    cpu.set_register(0, 7);
    cpu.set_register(1, 8);
    put_op(&mut cpu, 0x200, 0x9010);
    cpu.cpu_cycle();
    assert_eq!(cpu.get_pc(), 0x204);

    let mut cpu = CPU::new();
    cpu.set_register(0, 7);
    cpu.set_register(1, 7);
    put_op(&mut cpu, 0x200, 0x9010);
    cpu.cpu_cycle();
    assert_eq!(cpu.get_pc(), 0x202);
}

#[test]
fn skip_on_key_state() {
    // Ex9E skips when the key indexed by Vx is pressed.
    let mut cpu = CPU::new();
    cpu.set_register(0, 5);
    cpu.keypad.set_key_state(5, true);
    put_op(&mut cpu, 0x200, 0xE09E);
    cpu.cpu_cycle();
    assert_eq!(cpu.get_pc(), 0x204);

    let mut cpu = CPU::new();
    cpu.set_register(0, 5);
    put_op(&mut cpu, 0x200, 0xE09E);
    cpu.cpu_cycle();
    assert_eq!(cpu.get_pc(), 0x202);

    // ExA1 skips when the key is not pressed.
    let mut cpu = CPU::new();
    cpu.set_register(0, 5);
    put_op(&mut cpu, 0x200, 0xE0A1);
    cpu.cpu_cycle();
    assert_eq!(cpu.get_pc(), 0x204);

    let mut cpu = CPU::new();
    cpu.set_register(0, 5);
    cpu.keypad.set_key_state(5, true);
    put_op(&mut cpu, 0x200, 0xE0A1);
    cpu.cpu_cycle();
    assert_eq!(cpu.get_pc(), 0x202);
}

#[test]
fn loads_jumps_and_index() {
    let mut cpu = CPU::new();
    put_op(&mut cpu, 0x200, 0x6A42); // V10 = 0x42
    cpu.cpu_cycle();
    assert_eq!(cpu.get_register(10), 0x42);

    put_op(&mut cpu, 0x202, 0x8BA0); // V11 = V10
    cpu.cpu_cycle();
    assert_eq!(cpu.get_register(11), 0x42);

    put_op(&mut cpu, 0x204, 0xA123); // I = 0x123
    cpu.cpu_cycle();
    assert_eq!(cpu.get_i(), 0x123);

    put_op(&mut cpu, 0x206, 0x1300); // jump 0x300
    cpu.cpu_cycle();
    assert_eq!(cpu.get_pc(), 0x300);

    cpu.set_register(0, 0x10);
    put_op(&mut cpu, 0x300, 0xB400); // jump 0x400 + V0
    cpu.cpu_cycle();
    assert_eq!(cpu.get_pc(), 0x410);
}

#[test]
fn bitwise_or_and_xor() {
    let mut cpu = CPU::new();
    cpu.set_register(0, 0b1100);
    cpu.set_register(1, 0b1010);
    put_op(&mut cpu, 0x200, 0x8011);
    cpu.cpu_cycle();
    assert_eq!(cpu.get_register(0), 0b1110);

    cpu.set_register(0, 0b1100);
    put_op(&mut cpu, 0x202, 0x8012);
    cpu.cpu_cycle();
    assert_eq!(cpu.get_register(0), 0b1000);

    cpu.set_register(0, 0b1100);
    put_op(&mut cpu, 0x204, 0x8013);
    cpu.cpu_cycle();
    assert_eq!(cpu.get_register(0), 0b0110);
}

#[test]
fn random_byte_is_masked() {
    // With a zero mask the random byte is fully masked away.
    let mut cpu = CPU::new();
    cpu.set_register(4, 0xAA);
    put_op(&mut cpu, 0x200, 0xC400);
    cpu.cpu_cycle();
    assert_eq!(cpu.get_register(4), 0);
    assert_eq!(cpu.get_pc(), 0x202);

    // With a low-nibble mask only those bits can remain.
    put_op(&mut cpu, 0x202, 0xC40F);
    cpu.cpu_cycle();
    assert!(cpu.get_register(4) < 16);
}

#[test]
fn timers_saturate_at_zero() {
    let mut cpu = CPU::new();
    cpu.delay_timer = 3;
    cpu.sound_timer = 1;
    cpu.update_cpu_timers();
    assert_eq!(cpu.delay_timer, 2);
    assert_eq!(cpu.sound_timer, 0);
    cpu.update_cpu_timers();
    cpu.update_cpu_timers();
    assert_eq!(cpu.delay_timer, 0);
    assert_eq!(cpu.sound_timer, 0);
    cpu.update_cpu_timers();
    assert_eq!(cpu.delay_timer, 0);
    assert_eq!(cpu.sound_timer, 0);
}

#[test]
fn timer_instructions() {
    let mut cpu = CPU::new();
    cpu.set_register(2, 0x30);
    put_op(&mut cpu, 0x200, 0xF215); // delay = V2
    cpu.cpu_cycle();
    assert_eq!(cpu.delay_timer, 0x30);

    put_op(&mut cpu, 0x202, 0xF218); // sound = V2
    cpu.cpu_cycle();
    assert_eq!(cpu.sound_timer, 0x30);

    cpu.delay_timer = 0x21;
    put_op(&mut cpu, 0x204, 0xF307); // V3 = delay
    cpu.cpu_cycle();
    assert_eq!(cpu.get_register(3), 0x21);
}

#[test]
fn font_address_and_index_add() {
    let mut cpu = CPU::new();
    cpu.set_register(1, 0xA);
    put_op(&mut cpu, 0x200, 0xF129); // I = glyph of 0xA
    cpu.cpu_cycle();
    assert_eq!(cpu.get_i(), 50);

    cpu.set_register(2, 7);
    put_op(&mut cpu, 0x202, 0xF21E); // I += V2
    cpu.cpu_cycle();
    assert_eq!(cpu.get_i(), 57);
}

#[test]
fn bcd_splits_decimal_digits() {
    let mut cpu = CPU::new();
    cpu.set_register(3, 234);
    cpu.set_i(0x500);
    put_op(&mut cpu, 0x200, 0xF333);
    cpu.cpu_cycle();
    assert_eq!(cpu.memory[0x500], 2);
    assert_eq!(cpu.memory[0x501], 3);
    assert_eq!(cpu.memory[0x502], 4);
}

#[test]
fn bcd_wraps_at_end_of_memory() {
    let mut cpu = CPU::new();
    cpu.set_register(0, 123);
    cpu.set_i(4095);
    put_op(&mut cpu, 0x200, 0xF033);
    cpu.cpu_cycle();
    assert_eq!(cpu.memory[4095], 1);
    assert_eq!(cpu.memory[0], 2);
    assert_eq!(cpu.memory[1], 3);
}

#[test]
fn store_load_roundtrip() {
    let mut cpu = CPU::new();
    for x in 0..5u8 {
        cpu.set_register(x, 10 + x);
    }
    cpu.set_i(0x600);
    put_op(&mut cpu, 0x200, 0xF455); // store V0..=V4
    cpu.cpu_cycle();
    assert_eq!(cpu.get_i(), 0x605);
    for k in 0..5usize {
        assert_eq!(cpu.memory[0x600 + k], 10 + k as u8);
    }
    // Clobber the registers, restore I, and load them back.
    for x in 0..5u8 {
        cpu.set_register(x, 0xEE);
    }
    cpu.set_i(0x600);
    put_op(&mut cpu, 0x202, 0xF465); // load V0..=V4
    cpu.cpu_cycle();
    assert_eq!(cpu.get_i(), 0x605);
    for x in 0..5u8 {
        assert_eq!(cpu.get_register(x), 10 + x);
    }
    // Registers past x are untouched.
    assert_eq!(cpu.get_register(5), 0);
}

#[test]
fn call_then_return() {
    let mut cpu = CPU::new();
    put_op(&mut cpu, 0x200, 0x2400); // call 0x400
    put_op(&mut cpu, 0x400, 0x00EE); // return
    cpu.cpu_cycle();
    assert_eq!(cpu.get_pc(), 0x400);
    assert_eq!(cpu.sp, 1);
    cpu.cpu_cycle();
    assert_eq!(cpu.get_pc(), 0x202);
    assert_eq!(cpu.sp, 0);
}

#[test]
fn stack_overflow_and_underflow_are_ignored() {
    let mut cpu = CPU::new();
    put_op(&mut cpu, 0x200, 0x2200); // call 0x200: calls itself forever
    for _ in 0..16 {
        cpu.cpu_cycle();
    }
    assert_eq!(cpu.sp, 16);
    assert_eq!(cpu.get_pc(), 0x200);
    // The seventeenth nested call is ignored: nothing changes.
    cpu.cpu_cycle();
    assert_eq!(cpu.sp, 16);
    assert_eq!(cpu.get_pc(), 0x200);

    // A return with an empty stack is likewise ignored.
    let mut cpu = CPU::new();
    put_op(&mut cpu, 0x200, 0x00EE);
    cpu.cpu_cycle();
    assert_eq!(cpu.sp, 0);
    assert_eq!(cpu.get_pc(), 0x200);
}

#[test]
fn draw_lights_pixels_and_reports_collision() {
    let mut cpu = CPU::new();
    cpu.memory[0x300] = 0b1010_0000;
    cpu.set_i(0x300);
    cpu.set_register(0, 8); // x
    cpu.set_register(1, 4); // y
    put_op(&mut cpu, 0x200, 0xD011);
    cpu.cpu_cycle();
    assert_eq!(cpu.display.get_pixel(4, 8), 1);
    assert_eq!(cpu.display.get_pixel(4, 9), 0);
    assert_eq!(cpu.display.get_pixel(4, 10), 1);
    assert_eq!(cpu.get_register(15), 0);
}

#[test]
fn draw_twice_restores_the_grid() {
    let mut cpu = CPU::new();
    cpu.memory[0x300] = 0xFF;
    cpu.memory[0x301] = 0x81;
    cpu.set_i(0x300);
    cpu.set_register(0, 3);
    cpu.set_register(1, 7);
    put_op(&mut cpu, 0x200, 0xD012);
    put_op(&mut cpu, 0x202, 0xD012);
    cpu.cpu_cycle();
    assert_eq!(cpu.get_register(15), 0);
    assert_eq!(cpu.display.get_pixel(7, 3), 1);
    // The second identical draw collides everywhere it drew and undoes
    // every pixel.
    cpu.cpu_cycle();
    assert_eq!(cpu.get_register(15), 1);
    for row in 0..32 {
        for col in 0..64 {
            assert_eq!(cpu.display.get_pixel(row, col), 0);
        }
    }
}

#[test]
fn draw_wraps_around_the_right_edge() {
    let mut cpu = CPU::new();
    cpu.memory[0x300] = 0xFF;
    cpu.set_i(0x300);
    cpu.set_register(0, 60);
    cpu.set_register(1, 0);
    put_op(&mut cpu, 0x200, 0xD011);
    cpu.cpu_cycle();
    let lit: Vec<usize> = (0..64).filter(|&c| cpu.display.get_pixel(0, c) == 1).collect();
    assert_eq!(lit, vec![0, 1, 2, 3, 60, 61, 62, 63]);
    for c in 0..64 {
        assert_eq!(cpu.display.get_pixel(1, c), 0);
    }
}

#[test]
fn draw_zero_rows_draws_nothing() {
    let mut cpu = CPU::new();
    cpu.set_i(0x300);
    put_op(&mut cpu, 0x200, 0xD010);
    cpu.cpu_cycle();
    assert_eq!(cpu.get_register(15), 0);
    assert_eq!(cpu.get_pc(), 0x202);
    for row in 0..32 {
        for col in 0..64 {
            assert_eq!(cpu.display.get_pixel(row, col), 0);
        }
    }
}

#[test]
fn clear_screen_instruction() {
    let mut cpu = CPU::new();
    cpu.memory[0x300] = 0xFF;
    cpu.set_i(0x300);
    put_op(&mut cpu, 0x200, 0xD011);
    cpu.cpu_cycle();
    assert_eq!(cpu.display.get_pixel(0, 0), 1);
    put_op(&mut cpu, 0x202, 0x00E0);
    cpu.cpu_cycle();
    for row in 0..32 {
        for col in 0..64 {
            assert_eq!(cpu.display.get_pixel(row, col), 0);
        }
    }
    assert_eq!(cpu.get_pc(), 0x204);
}

#[test]
fn wait_for_key_blocks_until_resolved() {
    let mut cpu = CPU::new();
    put_op(&mut cpu, 0x200, 0xF50A); // wait, destination V5
    cpu.cpu_cycle();
    assert!(cpu.is_waiting_for_key());
    assert_eq!(cpu.get_pc(), 0x200);
    // Repeated cycles keep re-executing the wait: no progress.
    for _ in 0..3 {
        cpu.cpu_cycle();
        assert!(cpu.is_waiting_for_key());
        assert_eq!(cpu.get_pc(), 0x200);
        assert_eq!(cpu.get_register(5), 0);
    }
    // Resolving with a key the keypad does not report pressed changes
    // nothing.
    cpu.stop_waiting_for_key(7);
    assert!(cpu.is_waiting_for_key());
    assert_eq!(cpu.get_pc(), 0x200);
    // Press the key and resolve: the register receives the index and
    // the machine moves past the wait.
    cpu.keypad.set_key_state(7, true);
    cpu.stop_waiting_for_key(7);
    assert!(!cpu.is_waiting_for_key());
    assert_eq!(cpu.get_register(5), 7);
    assert_eq!(cpu.get_pc(), 0x202);
    // The next cycle advances normally.
    put_op(&mut cpu, 0x202, 0x6099);
    cpu.cpu_cycle();
    assert_eq!(cpu.get_register(0), 0x99);
    assert_eq!(cpu.get_pc(), 0x204);
}

#[test]
fn resolve_without_waiting_changes_nothing() {
    let mut cpu = CPU::new();
    cpu.keypad.set_key_state(3, true);
    cpu.stop_waiting_for_key(3);
    assert_eq!(cpu.get_pc(), 0x200);
    for x in 0..16 {
        assert_eq!(cpu.get_register(x), 0);
    }
}

#[test]
fn keypad_state_is_per_key() {
    let mut pad = Keypad::new();
    for k in 0..16 {
        assert!(!pad.get_key_state(k));
    }
    pad.set_key_state(4, true);
    assert!(pad.get_key_state(4));
    assert!(!pad.get_key_state(5));
    pad.set_key_state(4, false);
    assert!(!pad.get_key_state(4));
}

#[test]
fn display_draw_unit() {
    let mut d = Display::new();
    let collision = d.draw(0, 0, &[0x80]);
    assert!(!collision);
    assert_eq!(d.get_pixel(0, 0), 1);
    let collision = d.draw(0, 0, &[0x80]);
    assert!(collision);
    assert_eq!(d.get_pixel(0, 0), 0);
    let collision = d.draw(2, 31, &[0xC0]); // wraps bottom edge
    assert!(!collision);
    assert_eq!(d.get_pixel(31, 2), 1);
    assert_eq!(d.get_pixel(31, 3), 1);
    d.clear();
    assert_eq!(d.get_pixel(31, 2), 0);
}

#[test]
fn skip_key_index_wraps_modulo_sixteen() {
    // A register value of 21 consults key 5 under the wrap policy.
    let mut cpu = CPU::new();
    cpu.set_register(0, 21);
    cpu.keypad.set_key_state(5, true);
    put_op(&mut cpu, 0x200, 0xE09E);
    cpu.cpu_cycle();
    assert_eq!(cpu.get_pc(), 0x204);
}
