//! The frame driver: owns the register file and the addressable state, and
//! runs one emulated frame at a time — input snapshot in, a fixed budget of
//! dispatcher ticks, framebuffer and tone out, timers down by one.

use crate::cpu::{tick_rel, Cpu};
use crate::interfaces::{Controller, Renderer, Synthetizer};
use crate::mmu::{initial_mmu, Mmu, MmuView};
use crate::registers::{initial_registers, Registers, RegistersView};
use vstd::prelude::*;

verus! {

/// The states a frame passes through: entry `k` is the machine state after
/// `k` dispatcher ticks, and each consecutive pair is related by one tick.
pub open spec fn frame_trace(states: Seq<(MmuView, RegistersView)>, n: int) -> bool {
    &&& states.len() == n + 1
    &&& forall|k: int|
        0 <= k < n ==> #[trigger] tick_rel(states[k].0, states[k].1, states[k + 1].0, states[k + 1].1)
}

pub struct Emulator {
    cpu: Cpu,
    mmu: Mmu,
    registers: Registers,
}

impl Emulator {
    /// The addressable state of this emulator.
    pub closed spec fn mmu_view(self) -> MmuView {
        self.mmu@
    }

    /// The register file of this emulator.
    pub closed spec fn registers_view(self) -> RegistersView {
        self.registers@
    }

    pub open spec fn wf(self) -> bool {
        self.mmu_view().wf() && self.registers_view().wf()
    }

    /// A fresh machine loaded with the given program image: memory seeded
    /// with the font and the program, everything else cleared, the program
    /// counter at 0x200.
    pub fn new(rom: &Vec<u8>) -> (r: Emulator)
        requires
            rom@.len() <= 3584,
        ensures
            r.wf(),
            initial_mmu(r.mmu_view(), rom@),
            initial_registers(r.registers_view()),
    {
        Emulator { cpu: Cpu {}, mmu: Mmu::new(rom), registers: Registers::new() }
    }

    /// One emulated frame: snapshots the sixteen key states from the input
    /// provider, runs the given budget of dispatcher ticks, hands the
    /// framebuffer to the display sink, asserts or deasserts the tone from
    /// the sound timer, and counts both timers down by at most one.
    ///
    /// The frame is pinned by a trace: the key snapshot replaces the key
    /// bitset with what the input provider reported, each of the budgeted
    /// ticks satisfies [`tick_rel`], and at the end both timers count down
    /// by one, stopping at zero. With a zero budget nothing else changes.
    pub fn step_frame<C: Controller, R: Renderer, S: Synthetizer>(
        &mut self,
        instructions_per_frame: u32,
        controller: &C,
        renderer: &mut R,
        synthetizer: &mut S,
    )
        requires
            old(self).wf(),
        ensures
            final(self).wf(),
            exists|states: Seq<(MmuView, RegistersView)>|
                #![auto]
                frame_trace(states, instructions_per_frame as int) && states[0].0.keys.len() == 16
                    && states[0].0 == old(self).mmu_view().with_keys(states[0].0.keys)
                    && states[0].1 == old(self).registers_view() && final(self).mmu_view()
                    == states[instructions_per_frame as int].0.delay_decremented().sound_decremented()
                    && final(self).registers_view() == states[instructions_per_frame as int].1,
            instructions_per_frame == 0 ==> final(self).registers_view() == old(
                self,
            ).registers_view() && (exists|ks: Seq<bool>|
                ks.len() == 16 && final(self).mmu_view() == old(self).mmu_view().with_keys(
                    ks,
                ).delay_decremented().sound_decremented()),
    {
        let ghost m0 = self.mmu@;
        let ghost r0 = self.registers@;

        let mut i: usize = 0;
        while i < 16
            invariant
                i <= 16,
                r0.wf(),
                self.registers@ == r0,
                self.mmu@.wf(),
                self.mmu@.mem == m0.mem,
                self.mmu@.screen == m0.screen,
                self.mmu@.stack == m0.stack,
                self.mmu@.sp == m0.sp,
                self.mmu@.delay == m0.delay,
                self.mmu@.sound == m0.sound,
            decreases 16 - i,
        {
            let down: bool = controller.is_key_down(i);
            self.mmu.set_key_down(i, down);
            i = i + 1;
        }
        proof {
            assert(self.mmu@ =~= m0.with_keys(self.mmu@.keys));
        }
        let ghost mk = self.mmu@;
        let ghost mut states: Seq<(MmuView, RegistersView)> = seq![(mk, r0)];

        let mut t: u32 = 0;
        while t < instructions_per_frame
            invariant
                t <= instructions_per_frame,
                self.mmu@.wf(),
                self.registers@.wf(),
                states.len() == t + 1,
                states[0] == (mk, r0),
                states[t as int] == (self.mmu@, self.registers@),
                forall|k: int|
                    0 <= k < t ==> #[trigger] tick_rel(
                        states[k].0,
                        states[k].1,
                        states[k + 1].0,
                        states[k + 1].1,
                    ),
            decreases instructions_per_frame - t,
        {
            self.cpu.tick(&mut self.mmu, &mut self.registers);
            proof {
                states = states.push((self.mmu@, self.registers@));
            }
            t = t + 1;
        }

        renderer.render(self.mmu.get_screen());

        if self.mmu.get_sound_timer() > 0 {
            synthetizer.play();
        } else {
            synthetizer.stop();
        }

        self.mmu.decrement_delay_timer();
        self.mmu.decrement_sound_timer();

        proof {
            assert(frame_trace(states, instructions_per_frame as int));
            assert(states[0].0 == m0.with_keys(states[0].0.keys));
            assert(states[0].0.keys.len() == 16);
            assert(self.mmu@ == states[instructions_per_frame as int].0.delay_decremented().sound_decremented());
            assert(self.registers@ == states[instructions_per_frame as int].1);
            if instructions_per_frame == 0 {
                assert(mk == m0.with_keys(mk.keys));
                assert(self.mmu@ == m0.with_keys(mk.keys).delay_decremented().sound_decremented());
            }
        }
    }
}

} // verus!
