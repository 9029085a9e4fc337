use chip8_lib::cpu::instruction_00e0;
use chip8_lib::cpu::Cpu;
use chip8_lib::emulator::Emulator;
use chip8_lib::interfaces::Controller;
use chip8_lib::interfaces::Renderer;
use chip8_lib::interfaces::Synthetizer;
use chip8_lib::mmu::Mmu;
use chip8_lib::registers::Registers;

#[test]
fn call_then_ret_restores_post_fetch_counter() {
    // 0x200: CALL 0x300; 0x300: RET
    let mut rom = vec![0u8; 0x102];
    rom[0] = 0x23;
    rom[1] = 0x00;
    rom[0x100] = 0x00;
    rom[0x101] = 0xEE;
    let mut mmu = Mmu::new(&rom);
    let mut regs = Registers::new();
    let mut cpu = Cpu {};
    cpu.tick(&mut mmu, &mut regs);
    assert_eq!(regs.get_pc(), 0x300);
    cpu.tick(&mut mmu, &mut regs);
    assert_eq!(regs.get_pc(), 0x202);
}

#[test]
fn clear_screen_clears_every_cell() {
    let mut mmu = Mmu::new(&Vec::new());
    let mut regs = Registers::new();
    for c in (0..2048).step_by(3) {
        mmu.set_screen_at(c, 1);
    }
    instruction_00e0(&mut mmu, &mut regs, 0x00E0);
    for c in 0..2048 {
        assert_eq!(mmu.get_screen_at(c), 0);
    }
}

#[test]
fn key_wait_rewinds_until_key_is_down() {
    // 0x200: LD V3, K
    let rom = vec![0xF3, 0x0A];
    let mut mmu = Mmu::new(&rom);
    let mut regs = Registers::new();
    let mut cpu = Cpu {};
    regs.set_vx(3, 5);
    cpu.tick(&mut mmu, &mut regs);
    assert_eq!(regs.get_pc(), 0x200);
    cpu.tick(&mut mmu, &mut regs);
    assert_eq!(regs.get_pc(), 0x200);
    mmu.set_key_down(5, true);
    cpu.tick(&mut mmu, &mut regs);
    assert_eq!(regs.get_pc(), 0x202);
}

#[test]
fn unrecognized_opcodes_are_no_ops() {
    // 0x200: 0x0123 (not CLS or RET); 0x202: 0xFFFF; 0x204: 0x8FFF
    let rom = vec![0x01, 0x23, 0xFF, 0xFF, 0x8F, 0xFF];
    let mut mmu = Mmu::new(&rom);
    let mut regs = Registers::new();
    let mut cpu = Cpu {};
    for _ in 0..3 {
        cpu.tick(&mut mmu, &mut regs);
    }
    assert_eq!(regs.get_pc(), 0x206);
    for k in 0..16 {
        assert_eq!(regs.get_vx(k), 0);
    }
    assert_eq!(regs.get_i(), 0);
}

struct FixedKeys {
    down: [bool; 16],
}

impl Controller for FixedKeys {
    fn is_key_down(&self, key_index: usize) -> bool {
        self.down[key_index & 0xF]
    }
}

struct CapturingRenderer {
    frames: usize,
    last: Vec<u8>,
}

impl Renderer for CapturingRenderer {
    fn render(&mut self, screen: &Vec<u8>) {
        self.frames += 1;
        self.last = screen.clone();
    }
}

struct RecordingSynth {
    playing: bool,
    calls: usize,
}

impl Synthetizer for RecordingSynth {
    fn play(&mut self) {
        self.playing = true;
        self.calls += 1;
    }

    fn stop(&mut self) {
        self.playing = false;
        self.calls += 1;
    }
}

#[test]
fn step_frame_runs_budget_and_drives_sinks() {
    // 0x200: LD V3, 5; 0x202: LD ST, V3; 0x204: LD V0, 7
    let rom = vec![0x63, 0x05, 0xF3, 0x18, 0x60, 0x07];
    let mut emu = Emulator::new(&rom);
    let controller = FixedKeys { down: [false; 16] };
    let mut renderer = CapturingRenderer { frames: 0, last: Vec::new() };
    let mut synth = RecordingSynth { playing: false, calls: 0 };

    emu.step_frame(3, &controller, &mut renderer, &mut synth);
    assert_eq!(renderer.frames, 1);
    assert_eq!(renderer.last.len(), 2048);
    assert!(renderer.last.iter().all(|&c| c == 0));
    // the sound timer was 5 when the tone was decided
    assert!(synth.playing);

    // a zero-budget frame still renders and re-decides the tone
    emu.step_frame(0, &controller, &mut renderer, &mut synth);
    assert_eq!(renderer.frames, 2);
    assert!(synth.playing);
}

#[test]
fn step_frame_snapshots_keys() {
    // 0x200: LD V0, 4; 0x202: SKP V0; 0x204: LD V3, 5; 0x206: LD ST, V3.
    // When key 4 is down the skip jumps over `LD V3, 5`, the sound timer
    // stays 0 and the tone is off; when it is up the tone turns on.
    let rom = vec![0x60, 0x04, 0xE0, 0x9E, 0x63, 0x05, 0xF3, 0x18];
    let mut renderer = CapturingRenderer { frames: 0, last: Vec::new() };

    let mut down = [false; 16];
    down[4] = true;
    let mut with_key = Emulator::new(&rom);
    let mut synth_with = RecordingSynth { playing: false, calls: 0 };
    with_key.step_frame(4, &FixedKeys { down }, &mut renderer, &mut synth_with);
    assert!(!synth_with.playing);

    let mut without_key = Emulator::new(&rom);
    let mut synth_without = RecordingSynth { playing: false, calls: 0 };
    without_key.step_frame(4, &FixedKeys { down: [false; 16] }, &mut renderer, &mut synth_without);
    assert!(synth_without.playing);
}

#[test]
fn sound_stops_when_timer_reaches_zero() {
    // 0x200: LD V3, 1; 0x202: LD ST, V3
    let rom = vec![0x63, 0x01, 0xF3, 0x18];
    let mut emu = Emulator::new(&rom);
    let controller = FixedKeys { down: [false; 16] };
    let mut renderer = CapturingRenderer { frames: 0, last: Vec::new() };
    let mut synth = RecordingSynth { playing: false, calls: 0 };

    emu.step_frame(2, &controller, &mut renderer, &mut synth);
    assert!(synth.playing);
    // the frame end decremented the timer to zero
    emu.step_frame(0, &controller, &mut renderer, &mut synth);
    assert!(!synth.playing);
}

#[test]
fn frame_draws_reach_the_renderer() {
    // 0x200: LD V0, 0; 0x202: LD F, V0; 0x204: DRW V1, V2, 5:
    // points I at the font glyph for 0 and draws its five rows at (0, 0)
    let rom = vec![0x60, 0x00, 0xF0, 0x29, 0xD1, 0x25];
    let mut emu = Emulator::new(&rom);
    let controller = FixedKeys { down: [false; 16] };
    let mut renderer = CapturingRenderer { frames: 0, last: Vec::new() };
    let mut synth = RecordingSynth { playing: false, calls: 0 };

    emu.step_frame(3, &controller, &mut renderer, &mut synth);
    // glyph 0 row 0 is 0xF0: pixels at (0..4, 0) are on
    assert_eq!(renderer.last[0], 1);
    assert_eq!(renderer.last[1], 1);
    assert_eq!(renderer.last[2], 1);
    assert_eq!(renderer.last[3], 1);
    assert_eq!(renderer.last[4], 0);
    // row 1 of glyph 0 is 0x90
    assert_eq!(renderer.last[64], 1);
    assert_eq!(renderer.last[65], 0);
    assert_eq!(renderer.last[67], 1);
}
