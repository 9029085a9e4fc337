//! The instruction dispatcher: decodes a 16-bit opcode and executes exactly
//! one of the 35 CHIP-8 operations against the register file and the
//! addressable state.
//!
//! Each tick fetches the opcode at the program counter, advances the counter
//! by 2 before execution (so skips and the key-wait rewind operate on the
//! post-fetch counter), and dispatches on the high nibble. An unrecognized
//! opcode is a no-op, never a failure. The whole effect of a tick is pinned
//! by [`tick_rel`], built from the pure transition function [`step`].
//!
//! Defensive policies for the two behaviours the instruction set leaves open:
//! sprite rows and columns that would fall past the right or bottom edge of
//! the framebuffer are clipped, and a random-mask instruction with a zero
//! mask stores 0.

use crate::mmu::{mask12, opcode_at, Mmu, MmuView};
use crate::registers::{Registers, RegistersView};
use rand::Rng;
use vstd::prelude::*;

verus! {

// ---------------------------------------------------------------------------
// Opcode fields
// ---------------------------------------------------------------------------

/// The second nibble: the Vx register selector.
pub open spec fn nib_x(op: u16) -> int {
    ((op >> 8) & 0xF) as int
}

/// The third nibble: the Vy register selector.
pub open spec fn nib_y(op: u16) -> int {
    ((op >> 4) & 0xF) as int
}

/// The low byte: an 8-bit immediate.
pub open spec fn imm_nn(op: u16) -> u8 {
    (op & 0xFF) as u8
}

/// The low 12 bits: an address immediate.
pub open spec fn imm_nnn(op: u16) -> u16 {
    op & 0x0FFF
}

/// The low nibble: a 4-bit immediate.
pub open spec fn imm_n(op: u16) -> int {
    (op & 0xF) as int
}

fn op_x(op: u16) -> (x: usize)
    ensures
        x == nib_x(op),
        x < 16,
{
    proof {
        assert((op >> 8) & 0xF < 16) by (bit_vector);
    }
    ((op >> 8) & 0xF) as usize
}

fn op_y(op: u16) -> (y: usize)
    ensures
        y == nib_y(op),
        y < 16,
{
    proof {
        assert((op >> 4) & 0xF < 16) by (bit_vector);
    }
    ((op >> 4) & 0xF) as usize
}

fn op_nn(op: u16) -> (r: u8)
    ensures
        r == imm_nn(op),
{
    proof {
        assert(op & 0xFF < 256) by (bit_vector);
    }
    (op & 0xFF) as u8
}

fn op_nnn(op: u16) -> (r: u16)
    ensures
        r == imm_nnn(op),
        r <= 0x0FFF,
{
    proof {
        assert(op & 0x0FFF <= 0x0FFF) by (bit_vector);
    }
    op & 0x0FFF
}

fn op_n(op: u16) -> (r: usize)
    ensures
        r == imm_n(op),
        r < 16,
{
    proof {
        assert(op & 0xF < 16) by (bit_vector);
    }
    (op & 0xF) as usize
}

// ---------------------------------------------------------------------------
// Program-counter arithmetic (wraps modulo 2^16, so it can never fail; the
// counter is masked to 12 bits only when dereferenced)
// ---------------------------------------------------------------------------

/// The program counter two bytes on, wrapping modulo 2^16.
pub open spec fn wrap_add2(pc: u16) -> u16 {
    ((pc + 2) % 0x10000) as u16
}

/// The program counter two bytes back, wrapping modulo 2^16.
pub open spec fn wrap_sub2(pc: u16) -> u16 {
    ((pc + 0x10000 - 2) % 0x10000) as u16
}

fn pc_plus2(pc: u16) -> (r: u16)
    ensures
        r == wrap_add2(pc),
{
    (((pc as u32) + 2) % 0x10000) as u16
}

fn pc_minus2(pc: u16) -> (r: u16)
    ensures
        r == wrap_sub2(pc),
{
    (((pc as u32) + 0x10000 - 2) % 0x10000) as u16
}

/// The register file after a conditional skip of the next instruction.
pub open spec fn skipped_if(r: RegistersView, cond: bool) -> RegistersView {
    if cond {
        r.with_pc(wrap_add2(r.pc))
    } else {
        r
    }
}

// ---------------------------------------------------------------------------
// Random source
// ---------------------------------------------------------------------------

/// The policy for `RND Vx, byte`: the random draw taken modulo the mask
/// byte; a zero mask (which would otherwise divide by zero) stores 0.
pub open spec fn rand_masked(value: u8, modulo: u8) -> u8 {
    if modulo == 0 {
        0
    } else {
        (value % modulo) as u8
    }
}

/// Relies on rand's `thread_rng` and `Rng::gen_range`: a sample from the
/// non-empty inclusive range 1..=255 lies within it. Nothing else is assumed
/// of the draw.
#[verifier::external_body]
fn random_byte() -> (r: u8)
    ensures
        1 <= r <= 255,
{
    rand::thread_rng().gen_range(1u8..=0xFFu8)
}

/// The verified half of the random instruction: applies the mask policy to
/// whatever byte the random source produced.
pub fn random_masked(value: u8, modulo: u8) -> (r: u8)
    ensures
        r == rand_masked(value, modulo),
{
    if modulo == 0 {
        0
    } else {
        value % modulo
    }
}

// ---------------------------------------------------------------------------
// Sprite drawing model
// ---------------------------------------------------------------------------

/// The sprite row byte for row `j`, read at the 12-bit-masked address I + j.
pub open spec fn row_byte(mem: Seq<u8>, i_reg: u16, j: int) -> u8 {
    mem[mask12((i_reg + j) as usize) as int]
}

/// Whether bit `i` (counted from the most significant) of a sprite row is set.
pub open spec fn bit_set(b: u8, i: int) -> bool {
    b & (0x80u8 >> (i as u8)) != 0
}

/// The framebuffer cell a sprite pixel lands on: row-major, 64 cells per row.
pub open spec fn cell_index(x0: int, y0: int, i: int, j: int) -> int {
    x0 + i + 64 * (y0 + j)
}

/// Whether sprite pixel (row `j`, column `i`) targets cell `c`: its bit is
/// set and it falls inside the framebuffer (pixels past the right or bottom
/// edge are clipped).
pub open spec fn pixel_targets(mem: Seq<u8>, i_reg: u16, x0: int, y0: int, j: int, i: int, c: int) -> bool {
    &&& bit_set(row_byte(mem, i_reg, j), i)
    &&& x0 + i < 64
    &&& y0 + j < 32
    &&& c == cell_index(x0, y0, i, j)
}

/// Whether any sprite pixel strictly before row `jl`, column `il` (in the
/// order rows are drawn) targets cell `c`.
pub open spec fn hit_upto(mem: Seq<u8>, i_reg: u16, x0: int, y0: int, jl: int, il: int, c: int) -> bool
    decreases jl, il,
{
    if il > 0 {
        hit_upto(mem, i_reg, x0, y0, jl, il - 1, c) || pixel_targets(mem, i_reg, x0, y0, jl, il - 1, c)
    } else if jl > 0 {
        hit_upto(mem, i_reg, x0, y0, jl - 1, 8, c)
    } else {
        false
    }
}

/// Whether any sprite pixel strictly before row `jl`, column `il` lands on a
/// cell that was already on: a collision.
pub open spec fn coll_upto(m: MmuView, i_reg: u16, x0: int, y0: int, jl: int, il: int) -> bool
    decreases jl, il,
{
    if il > 0 {
        coll_upto(m, i_reg, x0, y0, jl, il - 1) || (pixel_targets(
            m.mem,
            i_reg,
            x0,
            y0,
            jl,
            il - 1,
            cell_index(x0, y0, il - 1, jl),
        ) && m.screen[cell_index(x0, y0, il - 1, jl)] != 0)
    } else if jl > 0 {
        coll_upto(m, i_reg, x0, y0, jl - 1, 8)
    } else {
        false
    }
}

/// The framebuffer after the sprite pixels before row `jl`, column `il` have
/// been XORed in.
pub open spec fn partial_screen(m: MmuView, i_reg: u16, x0: int, y0: int, jl: int, il: int) -> Seq<u8> {
    Seq::new(
        2048,
        |c: int|
            if hit_upto(m.mem, i_reg, x0, y0, jl, il, c) {
                m.screen[c] ^ 1
            } else {
                m.screen[c]
            },
    )
}

/// The sprite origin column: Vx wrapped modulo the screen width.
pub open spec fn draw_x0(r: RegistersView, op: u16) -> int {
    (r.vx[nib_x(op)] % 64) as int
}

/// The sprite origin row: Vy wrapped modulo the screen height.
pub open spec fn draw_y0(r: RegistersView, op: u16) -> int {
    (r.vx[nib_y(op)] % 32) as int
}

/// The addressable state after `DRW Vx, Vy, n`: only the framebuffer
/// changes, each targeted cell XORed with 1.
pub open spec fn draw_mmu(m: MmuView, r: RegistersView, op: u16) -> MmuView {
    m.with_screen(partial_screen(m, r.i, draw_x0(r, op), draw_y0(r, op), imm_n(op), 0))
}

/// The register file after `DRW Vx, Vy, n`: VF holds the collision flag.
pub open spec fn draw_regs(m: MmuView, r: RegistersView, op: u16) -> RegistersView {
    r.with_vx(
        15,
        if coll_upto(m, r.i, draw_x0(r, op), draw_y0(r, op), imm_n(op), 0) {
            1u8
        } else {
            0u8
        },
    )
}

/// No sprite pixel drawn before row `j`, column `i` lands on the cell that
/// pixel (`j`, `i`) itself targets: every pixel touches its own cell.
proof fn lemma_cell_fresh(
    mem: Seq<u8>,
    i_reg: u16,
    x0: int,
    y0: int,
    jl: int,
    il: int,
    j: int,
    i: int,
)
    requires
        0 <= x0,
        0 <= y0,
        0 <= jl,
        0 <= il <= 8,
        0 <= i < 8,
        jl < j || (jl == j && il <= i),
        x0 + i < 64,
        y0 + j < 32,
    ensures
        !hit_upto(mem, i_reg, x0, y0, jl, il, cell_index(x0, y0, i, j)),
    decreases jl, il,
{
    if il > 0 {
        lemma_cell_fresh(mem, i_reg, x0, y0, jl, il - 1, j, i);
        if pixel_targets(mem, i_reg, x0, y0, jl, il - 1, cell_index(x0, y0, i, j)) {
            assert(cell_index(x0, y0, i, j) == cell_index(x0, y0, il - 1, jl));
            assert(y0 + j == y0 + jl && x0 + i == x0 + (il - 1));
            assert(false);
        }
    } else if jl > 0 {
        lemma_cell_fresh(mem, i_reg, x0, y0, jl - 1, 8, j, i);
    }
}

// ---------------------------------------------------------------------------
// The transition function
// ---------------------------------------------------------------------------

/// The effect of executing one decoded opcode on the post-fetch state
/// (`r0.pc` already advanced past the opcode). `rnd` is the byte the random
/// source produced; only the `RND` instruction reads it. An unrecognized
/// opcode leaves the state unchanged.
pub open spec fn step(m0: MmuView, r0: RegistersView, op: u16, rnd: u8) -> (MmuView, RegistersView) {
    let x = nib_x(op);
    let y = nib_y(op);
    let nn = imm_nn(op);
    let nnn = imm_nnn(op);
    if op & 0xF000 == 0x0000 {
        if op & 0x00FF == 0xE0 {
            (m0.screen_cleared(), r0)
        } else if op & 0x00FF == 0xEE {
            (m0.stack_popped(), r0.with_pc(m0.stack_top() & 0x0FFF))
        } else {
            (m0, r0)
        }
    } else if op & 0xF000 == 0x1000 {
        (m0, r0.with_pc(nnn))
    } else if op & 0xF000 == 0x2000 {
        (m0.stack_pushed(r0.pc), r0.with_pc(nnn))
    } else if op & 0xF000 == 0x3000 {
        (m0, skipped_if(r0, r0.vx[x] == nn))
    } else if op & 0xF000 == 0x4000 {
        (m0, skipped_if(r0, r0.vx[x] != nn))
    } else if op & 0xF000 == 0x5000 {
        (m0, skipped_if(r0, r0.vx[x] == r0.vx[y]))
    } else if op & 0xF000 == 0x6000 {
        (m0, r0.with_vx(x, nn))
    } else if op & 0xF000 == 0x7000 {
        (m0, r0.with_vx(x, ((r0.vx[x] + nn) % 256) as u8))
    } else if op & 0xF000 == 0x8000 {
        if op & 0x000F == 0x0 {
            (m0, r0.with_vx(x, r0.vx[y]))
        } else if op & 0x000F == 0x1 {
            (m0, r0.with_vx(x, r0.vx[x] | r0.vx[y]))
        } else if op & 0x000F == 0x2 {
            (m0, r0.with_vx(x, r0.vx[x] & r0.vx[y]))
        } else if op & 0x000F == 0x3 {
            (m0, r0.with_vx(x, r0.vx[x] ^ r0.vx[y]))
        } else if op & 0x000F == 0x4 {
            (
                m0,
                r0.with_vx(x, ((r0.vx[x] + r0.vx[y]) % 256) as u8).with_vx(
                    15,
                    if r0.vx[x] + r0.vx[y] > 255 {
                        1u8
                    } else {
                        0u8
                    },
                ),
            )
        } else if op & 0x000F == 0x5 {
            (
                m0,
                r0.with_vx(x, ((r0.vx[x] + 256 - r0.vx[y]) % 256) as u8).with_vx(
                    15,
                    if r0.vx[x] >= r0.vx[y] {
                        1u8
                    } else {
                        0u8
                    },
                ),
            )
        } else if op & 0x000F == 0x6 {
            (m0, r0.with_vx(x, r0.vx[x] >> 1u8).with_vx(15, r0.vx[x] & 1))
        } else if op & 0x000F == 0x7 {
            (
                m0,
                r0.with_vx(x, ((r0.vx[y] + 256 - r0.vx[x]) % 256) as u8).with_vx(
                    15,
                    if r0.vx[y] >= r0.vx[x] {
                        1u8
                    } else {
                        0u8
                    },
                ),
            )
        } else if op & 0x000F == 0xE {
            (m0, r0.with_vx(x, r0.vx[x] << 1u8).with_vx(15, (r0.vx[x] & 0x80) >> 7u8))
        } else {
            (m0, r0)
        }
    } else if op & 0xF000 == 0x9000 {
        (m0, skipped_if(r0, r0.vx[x] != r0.vx[y]))
    } else if op & 0xF000 == 0xA000 {
        (m0, r0.with_i(nnn))
    } else if op & 0xF000 == 0xB000 {
        (m0, r0.with_pc((nnn + r0.vx[0]) as u16))
    } else if op & 0xF000 == 0xC000 {
        (m0, r0.with_vx(x, rand_masked(rnd, nn)))
    } else if op & 0xF000 == 0xD000 {
        (draw_mmu(m0, r0, op), draw_regs(m0, r0, op))
    } else if op & 0xF000 == 0xE000 {
        if op & 0x00FF == 0x9E {
            (m0, skipped_if(r0, m0.key_down(r0.vx[x])))
        } else if op & 0x00FF == 0xA1 {
            (m0, skipped_if(r0, !m0.key_down(r0.vx[x])))
        } else {
            (m0, r0)
        }
    } else if op & 0xF000 == 0xF000 {
        if op & 0x00FF == 0x07 {
            (m0, r0.with_vx(x, m0.delay))
        } else if op & 0x00FF == 0x0A {
            (
                m0,
                if m0.key_down(r0.vx[x]) {
                    r0
                } else {
                    r0.with_pc(wrap_sub2(r0.pc))
                },
            )
        } else if op & 0x00FF == 0x15 {
            (m0.with_delay(r0.vx[x]), r0)
        } else if op & 0x00FF == 0x18 {
            (m0.with_sound(r0.vx[x]), r0)
        } else if op & 0x00FF == 0x1E {
            (
                m0,
                r0.with_i(((r0.i + r0.vx[x]) % 4096) as u16).with_vx(
                    15,
                    if r0.i + r0.vx[x] > 0x0FFF {
                        1u8
                    } else {
                        0u8
                    },
                ),
            )
        } else if op & 0x00FF == 0x29 {
            (m0, r0.with_i((0x50 + 5 * r0.vx[x]) as u16))
        } else if op & 0x00FF == 0x33 {
            (bcd_stored(m0, r0, op), r0)
        } else if op & 0x00FF == 0x55 {
            (stored_regs(m0, r0.vx, r0.i, x), r0)
        } else if op & 0x00FF == 0x65 {
            (m0, loaded_regs(m0.mem, r0, r0.i, x))
        } else {
            (m0, r0)
        }
    } else {
        (m0, r0)
    }
}

/// The memory after `LD B, Vx`: the decimal hundreds, tens and units of Vx
/// at the masked addresses I, I + 1 and I + 2.
pub open spec fn bcd_stored(m: MmuView, r: RegistersView, op: u16) -> MmuView {
    let v = r.vx[nib_x(op)];
    let i = r.i as usize;
    m.with_byte(i, (v / 100) as u8).with_byte((i + 1) as usize, ((v / 10) % 10) as u8).with_byte(
        (i + 2) as usize,
        (v % 10) as u8,
    )
}

/// The memory after `LD [I], Vx`: registers V0 through Vx copied to the
/// masked addresses I through I + x, in ascending order.
pub open spec fn stored_regs(m: MmuView, vx: Seq<u8>, i_reg: u16, x: int) -> MmuView
    decreases x + 1,
{
    if x < 0 {
        m
    } else {
        stored_regs(m, vx, i_reg, x - 1).with_byte((i_reg + x) as usize, vx[x])
    }
}

/// The register file after `LD Vx, [I]`: V0 through Vx loaded from the
/// masked addresses I through I + x, in ascending order.
pub open spec fn loaded_regs(mem: Seq<u8>, r: RegistersView, i_reg: u16, x: int) -> RegistersView
    decreases x + 1,
{
    if x < 0 {
        r
    } else {
        loaded_regs(mem, r, i_reg, x - 1).with_vx(x, mem[mask12((i_reg + x) as usize) as int])
    }
}

/// The relation one dispatcher tick establishes: the opcode at the program
/// counter is fetched, the counter advances by 2, and the decoded operation
/// runs with some byte from the random source.
pub open spec fn tick_rel(m0: MmuView, r0: RegistersView, m1: MmuView, r1: RegistersView) -> bool {
    let op = opcode_at(m0.mem, r0.pc as usize);
    let r0a = r0.with_pc(wrap_add2(r0.pc));
    exists|rnd: u8| 1 <= rnd <= 255 && (m1, r1) == step(m0, r0a, op, rnd)
}

// ---------------------------------------------------------------------------
// Instruction handlers
// ---------------------------------------------------------------------------

/// `CLS`: clears the framebuffer.
pub fn instruction_00e0(mmu: &mut Mmu, registers: &mut Registers, op_code: u16)
    requires
        old(mmu)@.wf(),
        old(registers)@.wf(),
    ensures
        final(mmu)@ == old(mmu)@.screen_cleared(),
        final(registers)@ == old(registers)@,
        final(mmu)@.wf(),
{
    let ghost m0 = mmu@;
    let blank: Vec<u8> = crate::mmu::blank_screen();
    proof {
        assert(blank@ =~= Seq::new(2048, |i: int| 0u8));
    }
    mmu.set_screen(blank);
    proof {
        assert(mmu@ =~= m0.screen_cleared());
    }
}

/// `RET`: pops the return address (masked to 12 bits) into the program
/// counter; a pop past depth 0 yields 0.
pub fn instruction_00ee(mmu: &mut Mmu, registers: &mut Registers, op_code: u16)
    requires
        old(mmu)@.wf(),
        old(registers)@.wf(),
    ensures
        final(mmu)@ == old(mmu)@.stack_popped(),
        final(registers)@ == old(registers)@.with_pc(old(mmu)@.stack_top() & 0x0FFF),
        final(mmu)@.wf(),
        final(registers)@.wf(),
{
    let top: u16 = mmu.pop_stack();
    registers.set_pc(top & 0x0FFF);
}

/// `JP addr`: jumps to the 12-bit address.
pub fn instruction_1nnn(mmu: &mut Mmu, registers: &mut Registers, op_code: u16)
    requires
        old(registers)@.wf(),
    ensures
        final(mmu)@ == old(mmu)@,
        final(registers)@ == old(registers)@.with_pc(imm_nnn(op_code)),
        final(registers)@.wf(),
{
    registers.set_pc(op_nnn(op_code));
}

/// `CALL addr`: pushes the post-fetch program counter (a push past depth 16
/// is silently dropped) and jumps to the 12-bit address.
pub fn instruction_2nnn(mmu: &mut Mmu, registers: &mut Registers, op_code: u16)
    requires
        old(mmu)@.wf(),
        old(registers)@.wf(),
    ensures
        final(mmu)@ == old(mmu)@.stack_pushed(old(registers)@.pc),
        final(registers)@ == old(registers)@.with_pc(imm_nnn(op_code)),
        final(mmu)@.wf(),
        final(registers)@.wf(),
{
    mmu.push_on_stack(registers.get_pc());
    registers.set_pc(op_nnn(op_code));
}

/// `SE Vx, byte`: skips the next instruction when Vx equals the immediate.
pub fn instruction_3nnn(mmu: &mut Mmu, registers: &mut Registers, op_code: u16)
    requires
        old(registers)@.wf(),
    ensures
        final(mmu)@ == old(mmu)@,
        final(registers)@ == skipped_if(
            old(registers)@,
            old(registers)@.vx[nib_x(op_code)] == imm_nn(op_code),
        ),
        final(registers)@.wf(),
{
    let index: usize = op_x(op_code);
    let value: u8 = op_nn(op_code);
    if registers.get_vx(index) == value {
        let pc: u16 = registers.get_pc();
        registers.set_pc(pc_plus2(pc));
    }
}

/// `SNE Vx, byte`: skips the next instruction when Vx differs from the
/// immediate.
pub fn instruction_4nnn(mmu: &mut Mmu, registers: &mut Registers, op_code: u16)
    requires
        old(registers)@.wf(),
    ensures
        final(mmu)@ == old(mmu)@,
        final(registers)@ == skipped_if(
            old(registers)@,
            old(registers)@.vx[nib_x(op_code)] != imm_nn(op_code),
        ),
        final(registers)@.wf(),
{
    let index: usize = op_x(op_code);
    let value: u8 = op_nn(op_code);
    if registers.get_vx(index) != value {
        let pc: u16 = registers.get_pc();
        registers.set_pc(pc_plus2(pc));
    }
}

/// `SE Vx, Vy`: skips the next instruction when Vx equals Vy.
pub fn instruction_5xy0(mmu: &mut Mmu, registers: &mut Registers, op_code: u16)
    requires
        old(registers)@.wf(),
    ensures
        final(mmu)@ == old(mmu)@,
        final(registers)@ == skipped_if(
            old(registers)@,
            old(registers)@.vx[nib_x(op_code)] == old(registers)@.vx[nib_y(op_code)],
        ),
        final(registers)@.wf(),
{
    let x_index: usize = op_x(op_code);
    let y_index: usize = op_y(op_code);
    if registers.get_vx(x_index) == registers.get_vx(y_index) {
        let pc: u16 = registers.get_pc();
        registers.set_pc(pc_plus2(pc));
    }
}

/// `LD Vx, byte`: loads the immediate into Vx.
pub fn instruction_6xnn(mmu: &mut Mmu, registers: &mut Registers, op_code: u16)
    requires
        old(registers)@.wf(),
    ensures
        final(mmu)@ == old(mmu)@,
        final(registers)@ == old(registers)@.with_vx(nib_x(op_code), imm_nn(op_code)),
        final(registers)@.wf(),
{
    let index: usize = op_x(op_code);
    registers.set_vx(index, op_nn(op_code));
}

/// `ADD Vx, byte`: adds the immediate into Vx, wrapping, no flag.
pub fn instruction_7xnn(mmu: &mut Mmu, registers: &mut Registers, op_code: u16)
    requires
        old(registers)@.wf(),
    ensures
        final(mmu)@ == old(mmu)@,
        final(registers)@ == old(registers)@.with_vx(
            nib_x(op_code),
            ((old(registers)@.vx[nib_x(op_code)] + imm_nn(op_code)) % 256) as u8,
        ),
        final(registers)@.wf(),
{
    let index: usize = op_x(op_code);
    let operand: u8 = op_nn(op_code);
    let original_value: u8 = registers.get_vx(index);
    let sum: u16 = (original_value as u16 + operand as u16) % 256;
    registers.set_vx(index, sum as u8);
}

/// `LD Vx, Vy`: copies Vy into Vx.
pub fn instruction_8xy0(mmu: &mut Mmu, registers: &mut Registers, op_code: u16)
    requires
        old(registers)@.wf(),
    ensures
        final(mmu)@ == old(mmu)@,
        final(registers)@ == old(registers)@.with_vx(
            nib_x(op_code),
            old(registers)@.vx[nib_y(op_code)],
        ),
        final(registers)@.wf(),
{
    let x_index: usize = op_x(op_code);
    let y_index: usize = op_y(op_code);
    let y_value: u8 = registers.get_vx(y_index);
    registers.set_vx(x_index, y_value);
}

/// `OR Vx, Vy`: bitwise or of Vx and Vy into Vx.
pub fn instruction_8xy1(mmu: &mut Mmu, registers: &mut Registers, op_code: u16)
    requires
        old(registers)@.wf(),
    ensures
        final(mmu)@ == old(mmu)@,
        final(registers)@ == old(registers)@.with_vx(
            nib_x(op_code),
            old(registers)@.vx[nib_x(op_code)] | old(registers)@.vx[nib_y(op_code)],
        ),
        final(registers)@.wf(),
{
    let x_index: usize = op_x(op_code);
    let x_value: u8 = registers.get_vx(x_index);
    let y_index: usize = op_y(op_code);
    let y_value: u8 = registers.get_vx(y_index);
    registers.set_vx(x_index, x_value | y_value);
}

/// `AND Vx, Vy`: bitwise and of Vx and Vy into Vx.
pub fn instruction_8xy2(mmu: &mut Mmu, registers: &mut Registers, op_code: u16)
    requires
        old(registers)@.wf(),
    ensures
        final(mmu)@ == old(mmu)@,
        final(registers)@ == old(registers)@.with_vx(
            nib_x(op_code),
            old(registers)@.vx[nib_x(op_code)] & old(registers)@.vx[nib_y(op_code)],
        ),
        final(registers)@.wf(),
{
    let x_index: usize = op_x(op_code);
    let x_value: u8 = registers.get_vx(x_index);
    let y_index: usize = op_y(op_code);
    let y_value: u8 = registers.get_vx(y_index);
    registers.set_vx(x_index, x_value & y_value);
}

/// `XOR Vx, Vy`: bitwise exclusive or of Vx and Vy into Vx.
pub fn instruction_8xy3(mmu: &mut Mmu, registers: &mut Registers, op_code: u16)
    requires
        old(registers)@.wf(),
    ensures
        final(mmu)@ == old(mmu)@,
        final(registers)@ == old(registers)@.with_vx(
            nib_x(op_code),
            old(registers)@.vx[nib_x(op_code)] ^ old(registers)@.vx[nib_y(op_code)],
        ),
        final(registers)@.wf(),
{
    let x_index: usize = op_x(op_code);
    let x_value: u8 = registers.get_vx(x_index);
    let y_index: usize = op_y(op_code);
    let y_value: u8 = registers.get_vx(y_index);
    registers.set_vx(x_index, x_value ^ y_value);
}

/// `ADD Vx, Vy`: adds Vy into Vx, wrapping; VF is the carry flag.
pub fn instruction_8xy4(mmu: &mut Mmu, registers: &mut Registers, op_code: u16)
    requires
        old(registers)@.wf(),
    ensures
        final(mmu)@ == old(mmu)@,
        final(registers)@ == old(registers)@.with_vx(
            nib_x(op_code),
            ((old(registers)@.vx[nib_x(op_code)] + old(registers)@.vx[nib_y(op_code)]) % 256) as u8,
        ).with_vx(
            15,
            if old(registers)@.vx[nib_x(op_code)] + old(registers)@.vx[nib_y(op_code)] > 255 {
                1u8
            } else {
                0u8
            },
        ),
        final(registers)@.wf(),
{
    let x_index: usize = op_x(op_code);
    let x_value: u8 = registers.get_vx(x_index);
    let y_index: usize = op_y(op_code);
    let y_value: u8 = registers.get_vx(y_index);
    let sum: u16 = x_value as u16 + y_value as u16;
    registers.set_vx(x_index, (sum % 256) as u8);
    registers.set_vx(0xF, if sum > 255 { 1 } else { 0 });
}

/// `SUB Vx, Vy`: subtracts Vy from Vx, wrapping; VF is the NOT-borrow flag,
/// 1 exactly when no borrow occurred.
pub fn instruction_8xy5(mmu: &mut Mmu, registers: &mut Registers, op_code: u16)
    requires
        old(registers)@.wf(),
    ensures
        final(mmu)@ == old(mmu)@,
        final(registers)@ == old(registers)@.with_vx(
            nib_x(op_code),
            ((old(registers)@.vx[nib_x(op_code)] + 256 - old(registers)@.vx[nib_y(op_code)]) % 256) as u8,
        ).with_vx(
            15,
            if old(registers)@.vx[nib_x(op_code)] >= old(registers)@.vx[nib_y(op_code)] {
                1u8
            } else {
                0u8
            },
        ),
        final(registers)@.wf(),
{
    let x_index: usize = op_x(op_code);
    let x_value: u8 = registers.get_vx(x_index);
    let y_index: usize = op_y(op_code);
    let y_value: u8 = registers.get_vx(y_index);
    let diff: u16 = (x_value as u16 + 256 - y_value as u16) % 256;
    registers.set_vx(x_index, diff as u8);
    registers.set_vx(0xF, if x_value >= y_value { 1 } else { 0 });
}

/// `SHR Vx`: shifts Vx right by one; VF is the bit shifted out.
pub fn instruction_8xy6(mmu: &mut Mmu, registers: &mut Registers, op_code: u16)
    requires
        old(registers)@.wf(),
    ensures
        final(mmu)@ == old(mmu)@,
        final(registers)@ == old(registers)@.with_vx(
            nib_x(op_code),
            old(registers)@.vx[nib_x(op_code)] >> 1u8,
        ).with_vx(15, old(registers)@.vx[nib_x(op_code)] & 1),
        final(registers)@.wf(),
{
    let index: usize = op_x(op_code);
    let value: u8 = registers.get_vx(index);
    registers.set_vx(index, value >> 1u8);
    registers.set_vx(0xF, value & 1);
}

/// `SUBN Vx, Vy`: stores Vy minus Vx into Vx, wrapping; VF is the
/// NOT-borrow flag, 1 exactly when no borrow occurred.
pub fn instruction_8xy7(mmu: &mut Mmu, registers: &mut Registers, op_code: u16)
    requires
        old(registers)@.wf(),
    ensures
        final(mmu)@ == old(mmu)@,
        final(registers)@ == old(registers)@.with_vx(
            nib_x(op_code),
            ((old(registers)@.vx[nib_y(op_code)] + 256 - old(registers)@.vx[nib_x(op_code)]) % 256) as u8,
        ).with_vx(
            15,
            if old(registers)@.vx[nib_y(op_code)] >= old(registers)@.vx[nib_x(op_code)] {
                1u8
            } else {
                0u8
            },
        ),
        final(registers)@.wf(),
{
    let x_index: usize = op_x(op_code);
    let x_value: u8 = registers.get_vx(x_index);
    let y_index: usize = op_y(op_code);
    let y_value: u8 = registers.get_vx(y_index);
    let diff: u16 = (y_value as u16 + 256 - x_value as u16) % 256;
    registers.set_vx(x_index, diff as u8);
    registers.set_vx(0xF, if y_value >= x_value { 1 } else { 0 });
}

/// `SHL Vx`: shifts Vx left by one, dropping the high bit; VF is the bit
/// shifted out.
pub fn instruction_8xye(mmu: &mut Mmu, registers: &mut Registers, op_code: u16)
    requires
        old(registers)@.wf(),
    ensures
        final(mmu)@ == old(mmu)@,
        final(registers)@ == old(registers)@.with_vx(
            nib_x(op_code),
            old(registers)@.vx[nib_x(op_code)] << 1u8,
        ).with_vx(15, (old(registers)@.vx[nib_x(op_code)] & 0x80) >> 7u8),
        final(registers)@.wf(),
{
    let index: usize = op_x(op_code);
    let value: u8 = registers.get_vx(index);
    registers.set_vx(index, value << 1u8);
    registers.set_vx(0xF, (value & 0x80) >> 7u8);
}

/// `SNE Vx, Vy`: skips the next instruction when Vx differs from Vy.
pub fn instruction_9xy0(mmu: &mut Mmu, registers: &mut Registers, op_code: u16)
    requires
        old(registers)@.wf(),
    ensures
        final(mmu)@ == old(mmu)@,
        final(registers)@ == skipped_if(
            old(registers)@,
            old(registers)@.vx[nib_x(op_code)] != old(registers)@.vx[nib_y(op_code)],
        ),
        final(registers)@.wf(),
{
    let x_index: usize = op_x(op_code);
    let y_index: usize = op_y(op_code);
    if registers.get_vx(x_index) != registers.get_vx(y_index) {
        let pc: u16 = registers.get_pc();
        registers.set_pc(pc_plus2(pc));
    }
}

/// `LD I, addr`: loads the 12-bit address into I.
pub fn instruction_annn(mmu: &mut Mmu, registers: &mut Registers, op_code: u16)
    requires
        old(registers)@.wf(),
    ensures
        final(mmu)@ == old(mmu)@,
        final(registers)@ == old(registers)@.with_i(imm_nnn(op_code)),
        final(registers)@.wf(),
{
    registers.set_i(op_nnn(op_code));
}

/// `JP V0, addr`: jumps to the 12-bit address plus V0 (unmasked; the sum
/// fits in 16 bits and is masked only when dereferenced).
pub fn instruction_bnnn(mmu: &mut Mmu, registers: &mut Registers, op_code: u16)
    requires
        old(registers)@.wf(),
    ensures
        final(mmu)@ == old(mmu)@,
        final(registers)@ == old(registers)@.with_pc(
            (imm_nnn(op_code) + old(registers)@.vx[0]) as u16,
        ),
        final(registers)@.wf(),
{
    let value: u16 = op_nnn(op_code);
    let v0: u8 = registers.get_vx(0);
    registers.set_pc(value + v0 as u16);
}

/// `RND Vx, byte`: stores a random draw from [1, 255] masked by the
/// immediate into Vx; a zero immediate stores 0.
pub fn instruction_cxnn(mmu: &mut Mmu, registers: &mut Registers, op_code: u16)
    requires
        old(registers)@.wf(),
    ensures
        final(mmu)@ == old(mmu)@,
        exists|rnd: u8|
            1 <= rnd <= 255 && final(registers)@ == old(registers)@.with_vx(
                nib_x(op_code),
                rand_masked(rnd, imm_nn(op_code)),
            ),
        final(registers)@.wf(),
{
    let index: usize = op_x(op_code);
    let modulo: u8 = op_nn(op_code);
    let rng_value: u8 = random_byte();
    let masked: u8 = random_masked(rng_value, modulo);
    registers.set_vx(index, masked);
}

/// `DRW Vx, Vy, n`: XORs an n-row sprite read at I onto the framebuffer at
/// origin (Vx mod 64, Vy mod 32); pixels past the right or bottom edge are
/// clipped. VF is 1 exactly when a drawn pixel lands on a cell already on.
pub fn instruction_dxyn(mmu: &mut Mmu, registers: &mut Registers, op_code: u16)
    requires
        old(mmu)@.wf(),
        old(registers)@.wf(),
    ensures
        final(mmu)@ == draw_mmu(old(mmu)@, old(registers)@, op_code),
        final(registers)@ == draw_regs(old(mmu)@, old(registers)@, op_code),
        final(mmu)@.wf(),
        final(registers)@.wf(),
{
    let ghost m0 = mmu@;
    let ghost r0 = registers@;

    let x_index: usize = op_x(op_code);
    let x0: usize = (registers.get_vx(x_index) % 64) as usize;
    let y_index: usize = op_y(op_code);
    let y0: usize = (registers.get_vx(y_index) % 32) as usize;
    let n: usize = op_n(op_code);
    let i_reg: u16 = registers.get_i();

    let ghost gx0 = draw_x0(r0, op_code);
    let ghost gy0 = draw_y0(r0, op_code);

    registers.set_vx(0xF, 0);

    proof {
        assert(partial_screen(m0, i_reg, gx0, gy0, 0, 0) =~= m0.screen);
        assert(mmu@ =~= m0.with_screen(partial_screen(m0, i_reg, gx0, gy0, 0, 0)));
        assert(!coll_upto(m0, i_reg, gx0, gy0, 0, 0));
    }

    let mut j: usize = 0;
    while j < n
        invariant
            m0.wf(),
            r0.wf(),
            n == imm_n(op_code),
            n < 16,
            gx0 == draw_x0(r0, op_code),
            gy0 == draw_y0(r0, op_code),
            x0 == gx0,
            y0 == gy0,
            x0 < 64,
            y0 < 32,
            i_reg == r0.i,
            j <= n,
            mmu@ == m0.with_screen(partial_screen(m0, i_reg, gx0, gy0, j as int, 0)),
            registers@ == r0.with_vx(
                15,
                if coll_upto(m0, i_reg, gx0, gy0, j as int, 0) {
                    1u8
                } else {
                    0u8
                },
            ),
            mmu@.wf(),
            registers@.wf(),
        decreases n - j,
    {
        let pixel: u8 = mmu.get_byte(i_reg as usize + j);
        proof {
            assert(pixel == row_byte(m0.mem, i_reg, j as int));
        }
        let mut icol: usize = 0;
        while icol < 8
            invariant
                m0.wf(),
                r0.wf(),
                n == imm_n(op_code),
                n < 16,
                gx0 == draw_x0(r0, op_code),
                gy0 == draw_y0(r0, op_code),
                x0 == gx0,
                y0 == gy0,
                x0 < 64,
                y0 < 32,
                i_reg == r0.i,
                j < n,
                icol <= 8,
                pixel == row_byte(m0.mem, i_reg, j as int),
                mmu@ == m0.with_screen(partial_screen(m0, i_reg, gx0, gy0, j as int, icol as int)),
                registers@ == r0.with_vx(
                    15,
                    if coll_upto(m0, i_reg, gx0, gy0, j as int, icol as int) {
                        1u8
                    } else {
                        0u8
                    },
                ),
                mmu@.wf(),
                registers@.wf(),
            decreases 8 - icol,
        {
            let ghost ji = j as int;
            let ghost ii = icol as int;
            let ghost prev_flag = coll_upto(m0, i_reg, gx0, gy0, ji, ii);
            if pixel & (0x80u8 >> (icol as u8)) != 0 {
                proof {
                    assert(bit_set(row_byte(m0.mem, i_reg, ji), ii));
                }
                if x0 + icol < 64 && y0 + j < 32 {
                    let index: usize = x0 + icol + (y0 + j) * 64;
                    proof {
                        assert(index as int == cell_index(gx0, gy0, ii, ji));
                        lemma_cell_fresh(m0.mem, i_reg, gx0, gy0, ji, ii, ji, ii);
                    }
                    let value: u8 = mmu.get_screen_at(index);
                    proof {
                        assert(value == m0.screen[index as int]);
                        assert(pixel_targets(m0.mem, i_reg, gx0, gy0, ji, ii, index as int));
                    }
                    if value != 0 {
                        registers.set_vx(0xF, 1);
                        proof {
                            assert(r0.vx.update(
                                15,
                                if prev_flag {
                                    1u8
                                } else {
                                    0u8
                                },
                            ).update(15, 1u8) =~= r0.vx.update(15, 1u8));
                            assert(coll_upto(m0, i_reg, gx0, gy0, ji, ii + 1));
                            assert(registers@ =~= r0.with_vx(15, 1u8));
                        }
                    } else {
                        proof {
                            assert(coll_upto(m0, i_reg, gx0, gy0, ji, ii + 1) == prev_flag);
                        }
                    }
                    mmu.set_screen_at(index, value ^ 1);
                    proof {
                        assert(partial_screen(m0, i_reg, gx0, gy0, ji, ii + 1) =~= partial_screen(
                            m0,
                            i_reg,
                            gx0,
                            gy0,
                            ji,
                            ii,
                        ).update(index as int, value ^ 1));
                        assert(mmu@ =~= m0.with_screen(
                            partial_screen(m0, i_reg, gx0, gy0, ji, ii + 1),
                        ));
                    }
                } else {
                    proof {
                        assert(forall|c: int|
                            hit_upto(m0.mem, i_reg, gx0, gy0, ji, ii + 1, c) == hit_upto(
                                m0.mem,
                                i_reg,
                                gx0,
                                gy0,
                                ji,
                                ii,
                                c,
                            ));
                        assert(partial_screen(m0, i_reg, gx0, gy0, ji, ii + 1) =~= partial_screen(
                            m0,
                            i_reg,
                            gx0,
                            gy0,
                            ji,
                            ii,
                        ));
                        assert(coll_upto(m0, i_reg, gx0, gy0, ji, ii + 1) == prev_flag);
                    }
                }
            } else {
                proof {
                    assert(!bit_set(row_byte(m0.mem, i_reg, ji), ii));
                    assert(forall|c: int|
                        hit_upto(m0.mem, i_reg, gx0, gy0, ji, ii + 1, c) == hit_upto(
                            m0.mem,
                            i_reg,
                            gx0,
                            gy0,
                            ji,
                            ii,
                            c,
                        ));
                    assert(partial_screen(m0, i_reg, gx0, gy0, ji, ii + 1) =~= partial_screen(
                        m0,
                        i_reg,
                        gx0,
                        gy0,
                        ji,
                        ii,
                    ));
                    assert(coll_upto(m0, i_reg, gx0, gy0, ji, ii + 1) == prev_flag);
                }
            }
            icol = icol + 1;
        }
        proof {
            assert(partial_screen(m0, i_reg, gx0, gy0, j as int + 1, 0) =~= partial_screen(
                m0,
                i_reg,
                gx0,
                gy0,
                j as int,
                8,
            ));
            assert(coll_upto(m0, i_reg, gx0, gy0, j as int + 1, 0) == coll_upto(
                m0,
                i_reg,
                gx0,
                gy0,
                j as int,
                8,
            ));
        }
        j = j + 1;
    }
}

/// `SKP Vx`: skips the next instruction when the key named by Vx is down.
pub fn instruction_ex9e(mmu: &mut Mmu, registers: &mut Registers, op_code: u16)
    requires
        old(mmu)@.wf(),
        old(registers)@.wf(),
    ensures
        final(mmu)@ == old(mmu)@,
        final(registers)@ == skipped_if(
            old(registers)@,
            old(mmu)@.key_down(old(registers)@.vx[nib_x(op_code)]),
        ),
        final(registers)@.wf(),
{
    let index: usize = op_x(op_code);
    let key: u8 = registers.get_vx(index);
    if mmu.is_key_down(key as usize) {
        let pc: u16 = registers.get_pc();
        registers.set_pc(pc_plus2(pc));
    }
}

/// `SKNP Vx`: skips the next instruction when the key named by Vx is up.
pub fn instruction_exa1(mmu: &mut Mmu, registers: &mut Registers, op_code: u16)
    requires
        old(mmu)@.wf(),
        old(registers)@.wf(),
    ensures
        final(mmu)@ == old(mmu)@,
        final(registers)@ == skipped_if(
            old(registers)@,
            !old(mmu)@.key_down(old(registers)@.vx[nib_x(op_code)]),
        ),
        final(registers)@.wf(),
{
    let index: usize = op_x(op_code);
    let key: u8 = registers.get_vx(index);
    if !mmu.is_key_down(key as usize) {
        let pc: u16 = registers.get_pc();
        registers.set_pc(pc_plus2(pc));
    }
}

/// `LD Vx, DT`: reads the delay timer into Vx.
pub fn instruction_fx07(mmu: &mut Mmu, registers: &mut Registers, op_code: u16)
    requires
        old(registers)@.wf(),
    ensures
        final(mmu)@ == old(mmu)@,
        final(registers)@ == old(registers)@.with_vx(nib_x(op_code), old(mmu)@.delay),
        final(registers)@.wf(),
{
    let index: usize = op_x(op_code);
    let value: u8 = mmu.get_delay_timer();
    registers.set_vx(index, value);
}

/// `LD Vx, K`: the blocking key-wait. While the key named by Vx is up the
/// program counter rewinds by 2, so the same instruction re-decodes on the
/// next tick; when the key is down the counter is left past the opcode.
pub fn instruction_fx0a(mmu: &mut Mmu, registers: &mut Registers, op_code: u16)
    requires
        old(mmu)@.wf(),
        old(registers)@.wf(),
    ensures
        final(mmu)@ == old(mmu)@,
        final(registers)@ == (if old(mmu)@.key_down(old(registers)@.vx[nib_x(op_code)]) {
            old(registers)@
        } else {
            old(registers)@.with_pc(wrap_sub2(old(registers)@.pc))
        }),
        final(registers)@.wf(),
{
    let index: usize = op_x(op_code);
    let key: u8 = registers.get_vx(index);
    if !mmu.is_key_down(key as usize) {
        let pc: u16 = registers.get_pc();
        registers.set_pc(pc_minus2(pc));
    }
}

/// `LD DT, Vx`: loads Vx into the delay timer.
pub fn instruction_fx15(mmu: &mut Mmu, registers: &mut Registers, op_code: u16)
    requires
        old(registers)@.wf(),
    ensures
        final(mmu)@ == old(mmu)@.with_delay(old(registers)@.vx[nib_x(op_code)]),
        final(registers)@ == old(registers)@,
{
    let index: usize = op_x(op_code);
    let value: u8 = registers.get_vx(index);
    mmu.set_delay_timer(value);
}

/// `LD ST, Vx`: loads Vx into the sound timer.
pub fn instruction_fx18(mmu: &mut Mmu, registers: &mut Registers, op_code: u16)
    requires
        old(registers)@.wf(),
    ensures
        final(mmu)@ == old(mmu)@.with_sound(old(registers)@.vx[nib_x(op_code)]),
        final(registers)@ == old(registers)@,
{
    let index: usize = op_x(op_code);
    let value: u8 = registers.get_vx(index);
    mmu.set_sound_timer(value);
}

/// `ADD I, Vx`: adds Vx into I, masked to 12 bits; VF is 1 exactly when the
/// unmasked sum exceeded 0x0FFF.
pub fn instruction_fx1e(mmu: &mut Mmu, registers: &mut Registers, op_code: u16)
    requires
        old(registers)@.wf(),
    ensures
        final(mmu)@ == old(mmu)@,
        final(registers)@ == old(registers)@.with_i(
            ((old(registers)@.i + old(registers)@.vx[nib_x(op_code)]) % 4096) as u16,
        ).with_vx(
            15,
            if old(registers)@.i + old(registers)@.vx[nib_x(op_code)] > 0x0FFF {
                1u8
            } else {
                0u8
            },
        ),
        final(registers)@.wf(),
{
    let index: usize = op_x(op_code);
    let vx: u8 = registers.get_vx(index);
    let sum: u32 = registers.get_i() as u32 + vx as u32;
    let overflow: bool = sum > 0x0FFF;
    registers.set_i((sum % 4096) as u16);
    registers.set_vx(0xF, if overflow { 1 } else { 0 });
}

/// `LD F, Vx`: points I at the font glyph for digit Vx, five bytes per
/// glyph starting at 0x50.
pub fn instruction_fx29(mmu: &mut Mmu, registers: &mut Registers, op_code: u16)
    requires
        old(registers)@.wf(),
    ensures
        final(mmu)@ == old(mmu)@,
        final(registers)@ == old(registers)@.with_i(
            (0x50 + 5 * old(registers)@.vx[nib_x(op_code)]) as u16,
        ),
        final(registers)@.wf(),
{
    let index: usize = op_x(op_code);
    let digit: u8 = registers.get_vx(index);
    registers.set_i(0x50 + 5 * (digit as u16));
}

/// `LD B, Vx`: stores the decimal hundreds, tens and units of Vx at the
/// masked addresses I, I + 1 and I + 2.
pub fn instruction_fx33(mmu: &mut Mmu, registers: &mut Registers, op_code: u16)
    requires
        old(mmu)@.wf(),
        old(registers)@.wf(),
    ensures
        final(mmu)@ == bcd_stored(old(mmu)@, old(registers)@, op_code),
        final(registers)@ == old(registers)@,
        final(mmu)@.wf(),
{
    let index: usize = op_x(op_code);
    let value: u8 = registers.get_vx(index);

    let hundreds: u8 = value / 100;
    let tens: u8 = (value / 10) % 10;
    let units: u8 = value % 10;

    let i: usize = registers.get_i() as usize;
    mmu.set_byte(i, hundreds);
    mmu.set_byte(i + 1, tens);
    mmu.set_byte(i + 2, units);
}

/// `LD [I], Vx`: copies registers V0 through Vx to the masked addresses I
/// through I + x, in ascending order.
pub fn instruction_fx55(mmu: &mut Mmu, registers: &mut Registers, op_code: u16)
    requires
        old(mmu)@.wf(),
        old(registers)@.wf(),
    ensures
        final(mmu)@ == stored_regs(
            old(mmu)@,
            old(registers)@.vx,
            old(registers)@.i,
            nib_x(op_code),
        ),
        final(registers)@ == old(registers)@,
        final(mmu)@.wf(),
{
    let ghost m0 = mmu@;
    let ghost r0 = registers@;
    let x: usize = op_x(op_code);
    let i: usize = registers.get_i() as usize;
    let mut k: usize = 0;
    while k <= x
        invariant
            m0.wf(),
            r0.wf(),
            x == nib_x(op_code),
            x < 16,
            k <= x + 1,
            i == r0.i as usize,
            registers@ == r0,
            mmu@ == stored_regs(m0, r0.vx, r0.i, k as int - 1),
            mmu@.wf(),
        decreases x + 1 - k,
    {
        let value: u8 = registers.get_vx(k);
        mmu.set_byte(i + k, value);
        k = k + 1;
    }
}

/// `LD Vx, [I]`: loads registers V0 through Vx from the masked addresses I
/// through I + x, in ascending order.
pub fn instruction_fx65(mmu: &mut Mmu, registers: &mut Registers, op_code: u16)
    requires
        old(mmu)@.wf(),
        old(registers)@.wf(),
    ensures
        final(mmu)@ == old(mmu)@,
        final(registers)@ == loaded_regs(
            old(mmu)@.mem,
            old(registers)@,
            old(registers)@.i,
            nib_x(op_code),
        ),
        final(registers)@.wf(),
{
    let ghost m0 = mmu@;
    let ghost r0 = registers@;
    let x: usize = op_x(op_code);
    let i_reg: u16 = registers.get_i();
    let mut k: usize = 0;
    while k <= x
        invariant
            m0.wf(),
            r0.wf(),
            x == nib_x(op_code),
            x < 16,
            k <= x + 1,
            i_reg == r0.i,
            mmu@ == m0,
            registers@ == loaded_regs(m0.mem, r0, r0.i, k as int - 1),
            registers@.wf(),
        decreases x + 1 - k,
    {
        let b: u8 = mmu.get_byte(i_reg as usize + k);
        registers.set_vx(k, b);
        k = k + 1;
    }
}

// ---------------------------------------------------------------------------
// The dispatcher
// ---------------------------------------------------------------------------

pub struct Cpu {}

impl Cpu {
    /// One dispatcher tick: reads the opcode at the program counter,
    /// advances the counter by 2, then executes exactly one operation (or
    /// nothing, for an unrecognized opcode). The whole effect is
    /// [`tick_rel`] of the state before and after.
    pub fn tick(&mut self, mmu: &mut Mmu, registers: &mut Registers)
        requires
            old(mmu)@.wf(),
            old(registers)@.wf(),
        ensures
            tick_rel(old(mmu)@, old(registers)@, final(mmu)@, final(registers)@),
            final(mmu)@.wf(),
            final(registers)@.wf(),
    {
        let ghost m0 = mmu@;
        let ghost r0 = registers@;

        let pc: u16 = registers.get_pc();
        let op_code: u16 = mmu.get_short(pc as usize);

        registers.set_pc(pc_plus2(pc));
        let ghost r0a = registers@;
        proof {
            assert(r0a == r0.with_pc(wrap_add2(r0.pc)));
            assert(op_code == opcode_at(m0.mem, r0.pc as usize));
        }

        match op_code & 0xF000 {
            0x0000 => match op_code & 0x00FF {
                0xE0 => {
                    instruction_00e0(mmu, registers, op_code);
                    proof {
                        assert((mmu@, registers@) == step(m0, r0a, op_code, 1u8));
                    }
                },
                0xEE => {
                    instruction_00ee(mmu, registers, op_code);
                    proof {
                        assert((mmu@, registers@) == step(m0, r0a, op_code, 1u8));
                    }
                },
                _ => {
                    proof {
                        assert((mmu@, registers@) == step(m0, r0a, op_code, 1u8));
                    }
                },
            },
            0x1000 => {
                instruction_1nnn(mmu, registers, op_code);
                proof {
                    assert((mmu@, registers@) == step(m0, r0a, op_code, 1u8));
                }
            },
            0x2000 => {
                instruction_2nnn(mmu, registers, op_code);
                proof {
                    assert((mmu@, registers@) == step(m0, r0a, op_code, 1u8));
                }
            },
            0x3000 => {
                instruction_3nnn(mmu, registers, op_code);
                proof {
                    assert((mmu@, registers@) == step(m0, r0a, op_code, 1u8));
                }
            },
            0x4000 => {
                instruction_4nnn(mmu, registers, op_code);
                proof {
                    assert((mmu@, registers@) == step(m0, r0a, op_code, 1u8));
                }
            },
            0x5000 => {
                instruction_5xy0(mmu, registers, op_code);
                proof {
                    assert((mmu@, registers@) == step(m0, r0a, op_code, 1u8));
                }
            },
            0x6000 => {
                instruction_6xnn(mmu, registers, op_code);
                proof {
                    assert((mmu@, registers@) == step(m0, r0a, op_code, 1u8));
                }
            },
            0x7000 => {
                instruction_7xnn(mmu, registers, op_code);
                proof {
                    assert((mmu@, registers@) == step(m0, r0a, op_code, 1u8));
                }
            },
            0x8000 => match op_code & 0x000F {
                0x0 => {
                    instruction_8xy0(mmu, registers, op_code);
                    proof {
                        assert((mmu@, registers@) == step(m0, r0a, op_code, 1u8));
                    }
                },
                0x1 => {
                    instruction_8xy1(mmu, registers, op_code);
                    proof {
                        assert((mmu@, registers@) == step(m0, r0a, op_code, 1u8));
                    }
                },
                0x2 => {
                    instruction_8xy2(mmu, registers, op_code);
                    proof {
                        assert((mmu@, registers@) == step(m0, r0a, op_code, 1u8));
                    }
                },
                0x3 => {
                    instruction_8xy3(mmu, registers, op_code);
                    proof {
                        assert((mmu@, registers@) == step(m0, r0a, op_code, 1u8));
                    }
                },
                0x4 => {
                    instruction_8xy4(mmu, registers, op_code);
                    proof {
                        assert((mmu@, registers@) == step(m0, r0a, op_code, 1u8));
                    }
                },
                0x5 => {
                    instruction_8xy5(mmu, registers, op_code);
                    proof {
                        assert((mmu@, registers@) == step(m0, r0a, op_code, 1u8));
                    }
                },
                0x6 => {
                    instruction_8xy6(mmu, registers, op_code);
                    proof {
                        assert((mmu@, registers@) == step(m0, r0a, op_code, 1u8));
                    }
                },
                0x7 => {
                    instruction_8xy7(mmu, registers, op_code);
                    proof {
                        assert((mmu@, registers@) == step(m0, r0a, op_code, 1u8));
                    }
                },
                0xE => {
                    instruction_8xye(mmu, registers, op_code);
                    proof {
                        assert((mmu@, registers@) == step(m0, r0a, op_code, 1u8));
                    }
                },
                _ => {
                    proof {
                        assert((mmu@, registers@) == step(m0, r0a, op_code, 1u8));
                    }
                },
            },
            0x9000 => {
                instruction_9xy0(mmu, registers, op_code);
                proof {
                    assert((mmu@, registers@) == step(m0, r0a, op_code, 1u8));
                }
            },
            0xA000 => {
                instruction_annn(mmu, registers, op_code);
                proof {
                    assert((mmu@, registers@) == step(m0, r0a, op_code, 1u8));
                }
            },
            0xB000 => {
                instruction_bnnn(mmu, registers, op_code);
                proof {
                    assert((mmu@, registers@) == step(m0, r0a, op_code, 1u8));
                }
            },
            0xC000 => {
                instruction_cxnn(mmu, registers, op_code);
                proof {
                    let rb = choose|rb: u8|
                        1 <= rb <= 255 && registers@ == r0a.with_vx(
                            nib_x(op_code),
                            rand_masked(rb, imm_nn(op_code)),
                        );
                    assert((mmu@, registers@) == step(m0, r0a, op_code, rb));
                }
            },
            0xD000 => {
                instruction_dxyn(mmu, registers, op_code);
                proof {
                    assert((mmu@, registers@) == step(m0, r0a, op_code, 1u8));
                }
            },
            0xE000 => match op_code & 0x00FF {
                0x9E => {
                    instruction_ex9e(mmu, registers, op_code);
                    proof {
                        assert((mmu@, registers@) == step(m0, r0a, op_code, 1u8));
                    }
                },
                0xA1 => {
                    instruction_exa1(mmu, registers, op_code);
                    proof {
                        assert((mmu@, registers@) == step(m0, r0a, op_code, 1u8));
                    }
                },
                _ => {
                    proof {
                        assert((mmu@, registers@) == step(m0, r0a, op_code, 1u8));
                    }
                },
            },
            0xF000 => match op_code & 0x00FF {
                0x07 => {
                    instruction_fx07(mmu, registers, op_code);
                    proof {
                        assert((mmu@, registers@) == step(m0, r0a, op_code, 1u8));
                    }
                },
                0x0A => {
                    instruction_fx0a(mmu, registers, op_code);
                    proof {
                        assert((mmu@, registers@) == step(m0, r0a, op_code, 1u8));
                    }
                },
                0x15 => {
                    instruction_fx15(mmu, registers, op_code);
                    proof {
                        assert((mmu@, registers@) == step(m0, r0a, op_code, 1u8));
                    }
                },
                0x18 => {
                    instruction_fx18(mmu, registers, op_code);
                    proof {
                        assert((mmu@, registers@) == step(m0, r0a, op_code, 1u8));
                    }
                },
                0x1E => {
                    instruction_fx1e(mmu, registers, op_code);
                    proof {
                        assert((mmu@, registers@) == step(m0, r0a, op_code, 1u8));
                    }
                },
                0x29 => {
                    instruction_fx29(mmu, registers, op_code);
                    proof {
                        assert((mmu@, registers@) == step(m0, r0a, op_code, 1u8));
                    }
                },
                0x33 => {
                    instruction_fx33(mmu, registers, op_code);
                    proof {
                        assert((mmu@, registers@) == step(m0, r0a, op_code, 1u8));
                    }
                },
                0x55 => {
                    instruction_fx55(mmu, registers, op_code);
                    proof {
                        assert((mmu@, registers@) == step(m0, r0a, op_code, 1u8));
                    }
                },
                0x65 => {
                    instruction_fx65(mmu, registers, op_code);
                    proof {
                        assert((mmu@, registers@) == step(m0, r0a, op_code, 1u8));
                    }
                },
                _ => {
                    proof {
                        assert((mmu@, registers@) == step(m0, r0a, op_code, 1u8));
                    }
                },
            },
            _ => {
                proof {
                    assert((mmu@, registers@) == step(m0, r0a, op_code, 1u8));
                }
            },
        }
    }
}

// ---------------------------------------------------------------------------
// A law of the instruction set
// ---------------------------------------------------------------------------

/// Loading an immediate into Vx and then copying Vx into a different
/// register Vx2 leaves Vx unchanged and makes Vx2 hold the same value: after
/// any `LD Vx, byte` followed by `LD Vx2, Vx` with x2 != x, both registers
/// hold the byte.
pub proof fn lemma_load_then_copy(
    m0: MmuView,
    r0: RegistersView,
    m1: MmuView,
    r1: RegistersView,
    m2: MmuView,
    r2: RegistersView,
    op1: u16,
    op2: u16,
    rnd1: u8,
    rnd2: u8,
)
    requires
        r0.wf(),
        op1 & 0xF000 == 0x6000,
        op2 & 0xF000 == 0x8000,
        op2 & 0x000F == 0x0000,
        nib_y(op2) == nib_x(op1),
        nib_x(op2) != nib_x(op1),
        (m1, r1) == step(m0, r0, op1, rnd1),
        (m2, r2) == step(m1, r1, op2, rnd2),
    ensures
        r2.vx[nib_x(op1)] == imm_nn(op1),
        r2.vx[nib_x(op2)] == imm_nn(op1),
{
    assert((op1 >> 8) & 0xF < 16) by (bit_vector);
    assert((op2 >> 8) & 0xF < 16) by (bit_vector);
    assert(r1 == r0.with_vx(nib_x(op1), imm_nn(op1)));
    assert(r1.vx[nib_x(op1)] == imm_nn(op1));
    assert(r2 == r1.with_vx(nib_x(op2), r1.vx[nib_y(op2)]));
}

} // verus!
