use chip8_lib::cpu::instruction_1nnn;
use chip8_lib::cpu::instruction_3nnn;
use chip8_lib::cpu::instruction_4nnn;
use chip8_lib::cpu::instruction_5xy0;
use chip8_lib::cpu::instruction_6xnn;
use chip8_lib::cpu::instruction_7xnn;
use chip8_lib::cpu::instruction_8xy0;
use chip8_lib::cpu::instruction_8xy1;
use chip8_lib::cpu::instruction_8xy2;
use chip8_lib::cpu::instruction_8xy3;
use chip8_lib::cpu::instruction_8xy4;
use chip8_lib::cpu::instruction_8xy5;
use chip8_lib::cpu::instruction_8xy6;
use chip8_lib::cpu::instruction_8xy7;
use chip8_lib::cpu::instruction_8xye;
use chip8_lib::cpu::instruction_9xy0;
use chip8_lib::cpu::instruction_annn;
use chip8_lib::cpu::instruction_bnnn;
use chip8_lib::cpu::instruction_cxnn;
use chip8_lib::cpu::instruction_dxyn;
use chip8_lib::cpu::instruction_ex9e;
use chip8_lib::cpu::instruction_exa1;
use chip8_lib::cpu::instruction_fx07;
use chip8_lib::cpu::instruction_fx15;
use chip8_lib::cpu::instruction_fx18;
use chip8_lib::cpu::instruction_fx1e;
use chip8_lib::cpu::instruction_fx29;
use chip8_lib::cpu::instruction_fx33;
use chip8_lib::cpu::instruction_fx55;
use chip8_lib::cpu::instruction_fx65;
use chip8_lib::mmu::Mmu;
use chip8_lib::registers::Registers;

fn fresh() -> (Mmu, Registers) {
    (Mmu::new(&Vec::new()), Registers::new())
}

#[test]
fn load_then_copy_preserves_source() {
    let (mut mmu, mut regs) = fresh();
    // LD VA, 0x42 then LD VB, VA
    instruction_6xnn(&mut mmu, &mut regs, 0x6A42);
    instruction_8xy0(&mut mmu, &mut regs, 0x8BA0);
    assert_eq!(regs.get_vx(0xA), 0x42);
    assert_eq!(regs.get_vx(0xB), 0x42);
}

#[test]
fn add_with_carry() {
    let (mut mmu, mut regs) = fresh();
    regs.set_vx(0, 0xFF);
    regs.set_vx(1, 0x01);
    instruction_8xy4(&mut mmu, &mut regs, 0x8014);
    assert_eq!(regs.get_vx(0), 0x00);
    assert_eq!(regs.get_vx(0xF), 1);
}

#[test]
fn add_without_carry() {
    let (mut mmu, mut regs) = fresh();
    regs.set_vx(0, 0x12);
    regs.set_vx(1, 0x34);
    instruction_8xy4(&mut mmu, &mut regs, 0x8014);
    assert_eq!(regs.get_vx(0), 0x46);
    assert_eq!(regs.get_vx(0xF), 0);
}

#[test]
fn sub_with_borrow() {
    let (mut mmu, mut regs) = fresh();
    regs.set_vx(0, 0x05);
    regs.set_vx(1, 0x0A);
    instruction_8xy5(&mut mmu, &mut regs, 0x8015);
    assert_eq!(regs.get_vx(0), 0xFB);
    assert_eq!(regs.get_vx(0xF), 0);
}

#[test]
fn sub_without_borrow() {
    let (mut mmu, mut regs) = fresh();
    regs.set_vx(0, 0x0A);
    regs.set_vx(1, 0x05);
    instruction_8xy5(&mut mmu, &mut regs, 0x8015);
    assert_eq!(regs.get_vx(0), 0x05);
    assert_eq!(regs.get_vx(0xF), 1);
}

#[test]
fn subn_reversed_operands() {
    let (mut mmu, mut regs) = fresh();
    regs.set_vx(0, 0x0A);
    regs.set_vx(1, 0x05);
    instruction_8xy7(&mut mmu, &mut regs, 0x8017);
    assert_eq!(regs.get_vx(0), 0xFB);
    assert_eq!(regs.get_vx(0xF), 0);
}

#[test]
fn add_immediate_wraps_without_flag() {
    let (mut mmu, mut regs) = fresh();
    regs.set_vx(0, 0xFF);
    regs.set_vx(0xF, 0x7E);
    instruction_7xnn(&mut mmu, &mut regs, 0x7001);
    assert_eq!(regs.get_vx(0), 0x00);
    // VF is untouched by the immediate add
    assert_eq!(regs.get_vx(0xF), 0x7E);
}

#[test]
fn bitwise_ops() {
    let (mut mmu, mut regs) = fresh();
    regs.set_vx(0, 0b1100);
    regs.set_vx(1, 0b1010);
    instruction_8xy1(&mut mmu, &mut regs, 0x8011);
    assert_eq!(regs.get_vx(0), 0b1110);
    regs.set_vx(0, 0b1100);
    instruction_8xy2(&mut mmu, &mut regs, 0x8012);
    assert_eq!(regs.get_vx(0), 0b1000);
    regs.set_vx(0, 0b1100);
    instruction_8xy3(&mut mmu, &mut regs, 0x8013);
    assert_eq!(regs.get_vx(0), 0b0110);
}

#[test]
fn shifts_report_dropped_bit() {
    let (mut mmu, mut regs) = fresh();
    regs.set_vx(2, 0x05);
    instruction_8xy6(&mut mmu, &mut regs, 0x8206);
    assert_eq!(regs.get_vx(2), 0x02);
    assert_eq!(regs.get_vx(0xF), 1);
    regs.set_vx(2, 0x81);
    instruction_8xye(&mut mmu, &mut regs, 0x820E);
    assert_eq!(regs.get_vx(2), 0x02);
    assert_eq!(regs.get_vx(0xF), 1);
}

#[test]
fn skips_compare_register_and_immediate() {
    let (mut mmu, mut regs) = fresh();
    regs.set_vx(4, 0x33);
    instruction_3nnn(&mut mmu, &mut regs, 0x3433);
    assert_eq!(regs.get_pc(), 0x202);
    instruction_3nnn(&mut mmu, &mut regs, 0x3434);
    assert_eq!(regs.get_pc(), 0x202);
    instruction_4nnn(&mut mmu, &mut regs, 0x3434);
    assert_eq!(regs.get_pc(), 0x204);
    instruction_4nnn(&mut mmu, &mut regs, 0x3433);
    assert_eq!(regs.get_pc(), 0x204);
}

#[test]
fn skips_compare_two_registers() {
    let (mut mmu, mut regs) = fresh();
    regs.set_vx(1, 7);
    regs.set_vx(2, 7);
    regs.set_vx(3, 9);
    instruction_5xy0(&mut mmu, &mut regs, 0x5120);
    assert_eq!(regs.get_pc(), 0x202);
    instruction_5xy0(&mut mmu, &mut regs, 0x5130);
    assert_eq!(regs.get_pc(), 0x202);
    instruction_9xy0(&mut mmu, &mut regs, 0x9130);
    assert_eq!(regs.get_pc(), 0x204);
    instruction_9xy0(&mut mmu, &mut regs, 0x9120);
    assert_eq!(regs.get_pc(), 0x204);
}

#[test]
fn jumps() {
    let (mut mmu, mut regs) = fresh();
    instruction_1nnn(&mut mmu, &mut regs, 0x1456);
    assert_eq!(regs.get_pc(), 0x456);
    instruction_annn(&mut mmu, &mut regs, 0xA123);
    assert_eq!(regs.get_i(), 0x123);
    regs.set_vx(0, 0x10);
    instruction_bnnn(&mut mmu, &mut regs, 0xB200);
    assert_eq!(regs.get_pc(), 0x210);
}

#[test]
fn random_masked_by_immediate() {
    let (mut mmu, mut regs) = fresh();
    // any draw modulo 1 is 0
    regs.set_vx(5, 0xAA);
    instruction_cxnn(&mut mmu, &mut regs, 0xC501);
    assert_eq!(regs.get_vx(5), 0);
    // the documented policy for a zero mask: store 0
    regs.set_vx(5, 0xAA);
    instruction_cxnn(&mut mmu, &mut regs, 0xC500);
    assert_eq!(regs.get_vx(5), 0);
    // the result is always strictly below a nonzero mask
    for _ in 0..50 {
        instruction_cxnn(&mut mmu, &mut regs, 0xC510);
        assert!(regs.get_vx(5) < 0x10);
    }
}

#[test]
fn key_skips() {
    let (mut mmu, mut regs) = fresh();
    regs.set_vx(0, 5);
    instruction_ex9e(&mut mmu, &mut regs, 0xE09E);
    assert_eq!(regs.get_pc(), 0x200);
    instruction_exa1(&mut mmu, &mut regs, 0xE0A1);
    assert_eq!(regs.get_pc(), 0x202);
    mmu.set_key_down(5, true);
    instruction_ex9e(&mut mmu, &mut regs, 0xE09E);
    assert_eq!(regs.get_pc(), 0x204);
    instruction_exa1(&mut mmu, &mut regs, 0xE0A1);
    assert_eq!(regs.get_pc(), 0x204);
}

#[test]
fn timers_move_through_vx() {
    let (mut mmu, mut regs) = fresh();
    regs.set_vx(6, 42);
    instruction_fx15(&mut mmu, &mut regs, 0xF615);
    assert_eq!(mmu.get_delay_timer(), 42);
    instruction_fx07(&mut mmu, &mut regs, 0xF707);
    assert_eq!(regs.get_vx(7), 42);
    instruction_fx18(&mut mmu, &mut regs, 0xF618);
    assert_eq!(mmu.get_sound_timer(), 42);
}

#[test]
fn add_to_index_masks_and_flags() {
    let (mut mmu, mut regs) = fresh();
    regs.set_i(0x100);
    regs.set_vx(0, 0x02);
    instruction_fx1e(&mut mmu, &mut regs, 0xF01E);
    assert_eq!(regs.get_i(), 0x102);
    assert_eq!(regs.get_vx(0xF), 0);
    regs.set_i(0xFFF);
    regs.set_vx(0, 0x01);
    instruction_fx1e(&mut mmu, &mut regs, 0xF01E);
    assert_eq!(regs.get_i(), 0x000);
    assert_eq!(regs.get_vx(0xF), 1);
}

#[test]
fn font_address_for_digit() {
    let (mut mmu, mut regs) = fresh();
    regs.set_vx(0, 3);
    instruction_fx29(&mut mmu, &mut regs, 0xF029);
    assert_eq!(regs.get_i(), 0x50 + 5 * 3);
    // the glyph for 3 starts with 0xF0
    assert_eq!(mmu.get_byte(regs.get_i() as usize), 0xF0);
}

#[test]
fn bcd_store() {
    let (mut mmu, mut regs) = fresh();
    regs.set_vx(2, 123);
    regs.set_i(0x300);
    instruction_fx33(&mut mmu, &mut regs, 0xF233);
    assert_eq!(mmu.get_byte(0x300), 1);
    assert_eq!(mmu.get_byte(0x301), 2);
    assert_eq!(mmu.get_byte(0x302), 3);
    regs.set_vx(2, 255);
    instruction_fx33(&mut mmu, &mut regs, 0xF233);
    assert_eq!(mmu.get_byte(0x300), 2);
    assert_eq!(mmu.get_byte(0x301), 5);
    assert_eq!(mmu.get_byte(0x302), 5);
    regs.set_vx(2, 7);
    instruction_fx33(&mut mmu, &mut regs, 0xF233);
    assert_eq!(mmu.get_byte(0x300), 0);
    assert_eq!(mmu.get_byte(0x301), 0);
    assert_eq!(mmu.get_byte(0x302), 7);
}

#[test]
fn register_block_store_and_load() {
    let (mut mmu, mut regs) = fresh();
    regs.set_vx(0, 0x11);
    regs.set_vx(1, 0x22);
    regs.set_vx(2, 0x33);
    regs.set_vx(3, 0x99);
    regs.set_i(0x400);
    instruction_fx55(&mut mmu, &mut regs, 0xF255);
    assert_eq!(mmu.get_byte(0x400), 0x11);
    assert_eq!(mmu.get_byte(0x401), 0x22);
    assert_eq!(mmu.get_byte(0x402), 0x33);
    // V3 is past the block
    assert_eq!(mmu.get_byte(0x403), 0x00);
    regs.set_vx(0, 0);
    regs.set_vx(1, 0);
    regs.set_vx(2, 0);
    instruction_fx65(&mut mmu, &mut regs, 0xF265);
    assert_eq!(regs.get_vx(0), 0x11);
    assert_eq!(regs.get_vx(1), 0x22);
    assert_eq!(regs.get_vx(2), 0x33);
    assert_eq!(regs.get_vx(3), 0x99);
}

#[test]
fn draw_and_redraw_detects_collision() {
    let (mut mmu, mut regs) = fresh();
    mmu.set_byte(0x300, 0xFF);
    regs.set_i(0x300);
    // V0 = 0 (x), V1 = 0 (y): one 8x1 sprite row at the origin
    instruction_dxyn(&mut mmu, &mut regs, 0xD011);
    for c in 0..8 {
        assert_eq!(mmu.get_screen_at(c), 1);
    }
    assert_eq!(mmu.get_screen_at(8), 0);
    assert_eq!(regs.get_vx(0xF), 0);
    // the identical draw erases the pixels and reports the collision
    instruction_dxyn(&mut mmu, &mut regs, 0xD011);
    for c in 0..8 {
        assert_eq!(mmu.get_screen_at(c), 0);
    }
    assert_eq!(regs.get_vx(0xF), 1);
}

#[test]
fn draw_wraps_origin_and_clips_overhang() {
    let (mut mmu, mut regs) = fresh();
    mmu.set_byte(0x300, 0xFF);
    regs.set_i(0x300);
    // x = 60 wraps from 124; the last four pixels fall past the edge
    regs.set_vx(0, 124);
    regs.set_vx(1, 33);  // wraps to row 1
    instruction_dxyn(&mut mmu, &mut regs, 0xD011);
    for x in 60..64 {
        assert_eq!(mmu.get_screen_at(x + 64), 1);
    }
    // nothing spilled into row 2 or back into row 1's left edge
    assert_eq!(mmu.get_screen_at(64), 0);
    assert_eq!(mmu.get_screen_at(128), 0);
    assert_eq!(regs.get_vx(0xF), 0);
}
