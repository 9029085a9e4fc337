//! Addressable state: the 4096-byte memory image (with the font preloaded and
//! the program at 0x200), the 64x32 monochrome framebuffer, the 16-entry call
//! stack, the delay and sound timers, and the pressed-key bitset.
//!
//! Every memory address is masked to 12 bits on access, so reads and writes
//! wrap silently instead of failing. The call stack silently drops a push past
//! depth 16 and yields 0 for a pop past depth 0.

use vstd::prelude::*;

verus! {

/// Addresses wrap to the 4096-byte memory image.
pub open spec fn mask12(a: usize) -> usize {
    a & 0x0FFF
}

/// Key indices wrap to the sixteen keys.
pub open spec fn mask4(a: usize) -> usize {
    a & 0x0F
}

pub proof fn lemma_mask12(a: usize)
    ensures
        mask12(a) < 4096,
{
    assert(a & 0x0FFF < 4096) by (bit_vector);
}

pub proof fn lemma_mask4(a: usize)
    ensures
        mask4(a) < 16,
{
    assert(a & 0x0F < 16) by (bit_vector);
}

/// Mathematical model of the addressable state.
#[verifier::ext_equal]
pub struct MmuView {
    pub mem: Seq<u8>,
    pub screen: Seq<u8>,
    pub keys: Seq<bool>,
    pub stack: Seq<u16>,
    pub sp: int,
    pub delay: u8,
    pub sound: u8,
}

impl MmuView {
    /// Well-formedness: fixed sizes of every component, stack pointer bounded.
    pub open spec fn wf(self) -> bool {
        &&& self.mem.len() == 4096
        &&& self.screen.len() == 2048
        &&& self.keys.len() == 16
        &&& self.stack.len() == 16
        &&& 0 <= self.sp <= 16
    }

    /// The same state with the byte at the 12-bit-masked address replaced.
    pub open spec fn with_byte(self, address: usize, v: u8) -> MmuView {
        MmuView { mem: self.mem.update(mask12(address) as int, v), ..self }
    }

    /// The same state with the whole framebuffer replaced.
    pub open spec fn with_screen(self, s: Seq<u8>) -> MmuView {
        MmuView { screen: s, ..self }
    }

    /// The same state with one framebuffer cell replaced.
    pub open spec fn with_screen_at(self, index: int, v: u8) -> MmuView {
        MmuView { screen: self.screen.update(index, v), ..self }
    }

    /// The same state with every framebuffer cell off.
    pub open spec fn screen_cleared(self) -> MmuView {
        self.with_screen(Seq::new(2048, |i: int| 0u8))
    }

    /// The effect of a push: stored below the top when there is room,
    /// silently dropped otherwise.
    pub open spec fn stack_pushed(self, v: u16) -> MmuView {
        if self.sp < 16 {
            MmuView { stack: self.stack.update(self.sp, v), sp: self.sp + 1, ..self }
        } else {
            self
        }
    }

    /// The value a pop yields: the top of the stack, or 0 when empty.
    pub open spec fn stack_top(self) -> u16 {
        if self.sp > 0 {
            self.stack[self.sp - 1]
        } else {
            0
        }
    }

    /// The effect of a pop: the top is discarded; an empty stack is unchanged.
    pub open spec fn stack_popped(self) -> MmuView {
        if self.sp > 0 {
            MmuView { sp: self.sp - 1, ..self }
        } else {
            self
        }
    }

    pub open spec fn with_delay(self, v: u8) -> MmuView {
        MmuView { delay: v, ..self }
    }

    pub open spec fn with_sound(self, v: u8) -> MmuView {
        MmuView { sound: v, ..self }
    }

    /// One frame's worth of delay-timer countdown: minus one, never below 0.
    pub open spec fn delay_decremented(self) -> MmuView {
        if self.delay > 0 {
            self.with_delay((self.delay - 1) as u8)
        } else {
            self
        }
    }

    /// One frame's worth of sound-timer countdown: minus one, never below 0.
    pub open spec fn sound_decremented(self) -> MmuView {
        if self.sound > 0 {
            self.with_sound((self.sound - 1) as u8)
        } else {
            self
        }
    }

    /// The same state with the key at the 4-bit-masked index replaced.
    pub open spec fn with_key(self, index: usize, v: bool) -> MmuView {
        MmuView { keys: self.keys.update(mask4(index) as int, v), ..self }
    }

    /// The same state with the whole key bitset replaced.
    pub open spec fn with_keys(self, ks: Seq<bool>) -> MmuView {
        MmuView { keys: ks, ..self }
    }

    /// Whether the key selected by the low 4 bits of `key` is down.
    pub open spec fn key_down(self, key: u8) -> bool {
        self.keys[mask4(key as usize) as int]
    }
}

/// The big-endian 16-bit opcode read at a (12-bit-masked) address.
pub open spec fn opcode_at(mem: Seq<u8>, address: usize) -> u16 {
    let m = mask12(address);
    let m2 = mask12((m + 1) as usize);
    ((mem[m as int] as u16) << 8) | (mem[m2 as int] as u16)
}

/// The 16-glyph hexadecimal font, five bytes per glyph, digits 0 through F.
pub open spec fn font_glyphs() -> Seq<u8> {
    seq![
        0xF0u8, 0x90, 0x90, 0x90, 0xF0, // 0
        0x20, 0x60, 0x20, 0x20, 0x70, // 1
        0xF0, 0x10, 0xF0, 0x80, 0xF0, // 2
        0xF0, 0x10, 0xF0, 0x10, 0xF0, // 3
        0x90, 0x90, 0xF0, 0x10, 0x10, // 4
        0xF0, 0x80, 0xF0, 0x10, 0xF0, // 5
        0xF0, 0x80, 0xF0, 0x90, 0xF0, // 6
        0xF0, 0x10, 0x20, 0x40, 0x40, // 7
        0xF0, 0x90, 0xF0, 0x90, 0xF0, // 8
        0xF0, 0x90, 0xF0, 0x10, 0xF0, // 9
        0xF0, 0x90, 0xF0, 0x90, 0x90, // A
        0xE0, 0x90, 0xE0, 0x90, 0xE0, // B
        0xF0, 0x80, 0x80, 0x80, 0xF0, // C
        0xE0, 0x90, 0x90, 0x90, 0xE0, // D
        0xF0, 0x80, 0xF0, 0x80, 0xF0, // E
        0xF0, 0x80, 0xF0, 0x80, 0x80, // F
    ]
}

/// The freshly constructed addressable state: cleared screen, keys and stack,
/// timers at zero, the font at [0x50, 0x9F], the program image at 0x200, and
/// every other memory byte zero.
pub open spec fn initial_mmu(m: MmuView, rom: Seq<u8>) -> bool {
    &&& m.wf()
    &&& m.delay == 0
    &&& m.sound == 0
    &&& m.sp == 0
    &&& forall|k: int| 0 <= k < 2048 ==> m.screen[k] == 0
    &&& forall|k: int| 0 <= k < 16 ==> m.keys[k] == false
    &&& forall|k: int| 0 <= k < 16 ==> m.stack[k] == 0
    &&& forall|k: int| 0 <= k < 80 ==> m.mem[0x50 + k] == font_glyphs()[k]
    &&& forall|k: int| 0 <= k < rom.len() ==> m.mem[0x200 + k] == rom[k]
    &&& forall|k: int|
        0 <= k < 4096 && !(0x50 <= k < 0xA0) && !(0x200 <= k < 0x200 + rom.len())
            ==> m.mem[k] == 0
}

/// A cleared framebuffer reads 0 at every one of its 2048 cells.
pub proof fn lemma_cleared_screen_is_blank(m: MmuView)
    ensures
        forall|c: int| 0 <= c < 2048 ==> m.screen_cleared().screen[c] == 0,
{
}

/// The addressable state after the given addresses have been pushed onto
/// the call stack one after another, in order.
pub open spec fn pushed_all(m: MmuView, vals: Seq<u16>) -> MmuView
    decreases vals.len(),
{
    if vals.len() == 0 {
        m
    } else {
        pushed_all(m, vals.drop_last()).stack_pushed(vals.last())
    }
}

/// From an empty stack, pushes fill the slots in order while there is room.
proof fn lemma_pushes_fill(m: MmuView, vals: Seq<u16>)
    requires
        m.wf(),
        m.sp == 0,
        vals.len() <= 16,
    ensures
        pushed_all(m, vals).wf(),
        pushed_all(m, vals).sp == vals.len(),
        forall|k: int| 0 <= k < vals.len() ==> pushed_all(m, vals).stack[k] == vals[k],
    decreases vals.len(),
{
    if vals.len() > 0 {
        lemma_pushes_fill(m, vals.drop_last());
        let prev = pushed_all(m, vals.drop_last());
        assert(pushed_all(m, vals) == prev.stack_pushed(vals.last()));
        assert forall|k: int| 0 <= k < vals.len() implies pushed_all(m, vals).stack[k] == vals[k] by {
            if k < vals.len() - 1 {
                assert(prev.stack[k] == vals.drop_last()[k]);
                assert(vals.drop_last()[k] == vals[k]);
            } else {
                assert(pushed_all(m, vals).stack[k] == vals.last());
            }
        }
    }
}

/// The bounded call stack keeps only the first 16 of 17 pushed addresses:
/// the 17th push is silently dropped, and the top of the stack is still the
/// 16th address pushed.
pub proof fn lemma_seventeenth_push_dropped(m: MmuView, vals: Seq<u16>)
    requires
        m.wf(),
        m.sp == 0,
        vals.len() == 17,
    ensures
        pushed_all(m, vals) == pushed_all(m, vals.take(16)),
        pushed_all(m, vals).sp == 16,
        forall|k: int| 0 <= k < 16 ==> pushed_all(m, vals).stack[k] == vals[k],
        pushed_all(m, vals).stack_top() == vals[15],
{
    assert(vals.drop_last() =~= vals.take(16));
    lemma_pushes_fill(m, vals.take(16));
    assert forall|k: int| 0 <= k < 16 implies pushed_all(m, vals).stack[k] == vals[k] by {
        assert(pushed_all(m, vals.take(16)).stack[k] == vals.take(16)[k]);
        assert(vals.take(16)[k] == vals[k]);
    }
}

/// A vector of `len` copies of `value`.
fn filled<T: Copy>(len: usize, value: T) -> (v: Vec<T>)
    ensures
        v@.len() == len,
        forall|i: int| 0 <= i < len ==> v@[i] == value,
{
    let mut v: Vec<T> = Vec::new();
    let mut k: usize = 0;
    while k < len
        invariant
            k <= len,
            v@.len() == k,
            forall|i: int| 0 <= i < k ==> v@[i] == value,
        decreases len - k,
    {
        v.push(value);
        k = k + 1;
    }
    v
}

/// The font table as executable data.
fn font_bytes() -> (v: Vec<u8>)
    ensures
        v@ == font_glyphs(),
{
    let v: Vec<u8> = vec![
        0xF0u8, 0x90, 0x90, 0x90, 0xF0, // 0
        0x20, 0x60, 0x20, 0x20, 0x70, // 1
        0xF0, 0x10, 0xF0, 0x80, 0xF0, // 2
        0xF0, 0x10, 0xF0, 0x10, 0xF0, // 3
        0x90, 0x90, 0xF0, 0x10, 0x10, // 4
        0xF0, 0x80, 0xF0, 0x10, 0xF0, // 5
        0xF0, 0x80, 0xF0, 0x90, 0xF0, // 6
        0xF0, 0x10, 0x20, 0x40, 0x40, // 7
        0xF0, 0x90, 0xF0, 0x90, 0xF0, // 8
        0xF0, 0x90, 0xF0, 0x10, 0xF0, // 9
        0xF0, 0x90, 0xF0, 0x90, 0x90, // A
        0xE0, 0x90, 0xE0, 0x90, 0xE0, // B
        0xF0, 0x80, 0x80, 0x80, 0xF0, // C
        0xE0, 0x90, 0x90, 0x90, 0xE0, // D
        0xF0, 0x80, 0xF0, 0x80, 0xF0, // E
        0xF0, 0x80, 0xF0, 0x80, 0x80, // F
    ];
    proof {
        assert(v@ =~= font_glyphs());
    }
    v
}

/// A framebuffer's worth of cleared cells.
pub fn blank_screen() -> (v: Vec<u8>)
    ensures
        v@.len() == 2048,
        forall|i: int| 0 <= i < 2048 ==> v@[i] == 0,
{
    filled(2048, 0u8)
}

pub struct Mmu {
    key_pressed: Vec<bool>,
    memory: Vec<u8>,
    screen: Vec<u8>,
    delay_timer: u8,
    sound_timer: u8,
    stack: Vec<u16>,
    stack_pointer: usize,
}

impl View for Mmu {
    type V = MmuView;

    closed spec fn view(&self) -> MmuView {
        MmuView {
            mem: self.memory@,
            screen: self.screen@,
            keys: self.key_pressed@,
            stack: self.stack@,
            sp: self.stack_pointer as int,
            delay: self.delay_timer,
            sound: self.sound_timer,
        }
    }
}

impl Mmu {
    /// Builds the memory image: zeros everywhere, the font at [0x50, 0x9F],
    /// the program bytes from `rom` starting at 0x200.
    pub fn new(rom: &Vec<u8>) -> (r: Mmu)
        requires
            rom@.len() <= 3584,
        ensures
            initial_mmu(r@, rom@),
    {
        let mut memory = filled(4096, 0u8);

        let font = font_bytes();
        let mut k: usize = 0;
        while k < 80
            invariant
                k <= 80,
                memory@.len() == 4096,
                font@ == font_glyphs(),
                forall|j: int| 0 <= j < k ==> memory@[0x50 + j] == font_glyphs()[j],
                forall|a: int| 0 <= a < 4096 && !(0x50 <= a < 0x50 + k) ==> memory@[a] == 0,
            decreases 80 - k,
        {
            memory.set(0x50 + k, font[k]);
            k = k + 1;
        }

        let mut idx: usize = 0;
        while idx < rom.len()
            invariant
                idx <= rom@.len(),
                rom@.len() <= 3584,
                memory@.len() == 4096,
                forall|j: int| 0 <= j < 80 ==> memory@[0x50 + j] == font_glyphs()[j],
                forall|j: int| 0 <= j < idx ==> memory@[0x200 + j] == rom@[j],
                forall|a: int|
                    0 <= a < 4096 && !(0x50 <= a < 0xA0) && !(0x200 <= a < 0x200 + idx)
                        ==> memory@[a] == 0,
            decreases rom@.len() - idx,
        {
            memory.set(0x200 + idx, rom[idx]);
            idx = idx + 1;
        }

        Mmu {
            key_pressed: filled(16, false),
            memory,
            screen: filled(2048, 0u8),
            delay_timer: 0,
            sound_timer: 0,
            stack: filled(16, 0u16),
            stack_pointer: 0,
        }
    }

    pub fn get_byte(&self, address: usize) -> (r: u8)
        requires
            self@.wf(),
        ensures
            r == self@.mem[mask12(address) as int],
    {
        proof {
            lemma_mask12(address);
        }
        self.memory[address & 0x0FFF]
    }

    pub fn set_byte(&mut self, address: usize, value: u8)
        requires
            old(self)@.wf(),
        ensures
            final(self)@ == old(self)@.with_byte(address, value),
            final(self)@.wf(),
    {
        proof {
            lemma_mask12(address);
        }
        self.memory.set(address & 0x0FFF, value);
    }

    /// The big-endian 16-bit value at `address` and `address + 1`, both
    /// masked to 12 bits.
    pub fn get_short(&self, address: usize) -> (r: u16)
        requires
            self@.wf(),
        ensures
            r == opcode_at(self@.mem, address),
    {
        proof {
            lemma_mask12(address);
        }
        let m: usize = address & 0x0FFF;
        proof {
            lemma_mask12((m + 1) as usize);
        }
        let hi = self.memory[m];
        let lo = self.memory[(m + 1) & 0x0FFF];
        ((hi as u16) << 8) | (lo as u16)
    }

    pub fn get_screen(&self) -> (r: &Vec<u8>)
        ensures
            r@ == self@.screen,
    {
        &self.screen
    }

    pub fn set_screen(&mut self, new_screen: Vec<u8>)
        requires
            new_screen@.len() == 2048,
        ensures
            final(self)@ == old(self)@.with_screen(new_screen@),
    {
        self.screen = new_screen;
    }

    pub fn get_screen_at(&self, index: usize) -> (r: u8)
        requires
            self@.wf(),
            index < 2048,
        ensures
            r == self@.screen[index as int],
    {
        self.screen[index]
    }

    pub fn set_screen_at(&mut self, index: usize, value: u8)
        requires
            old(self)@.wf(),
            index < 2048,
        ensures
            final(self)@ == old(self)@.with_screen_at(index as int, value),
            final(self)@.wf(),
    {
        self.screen.set(index, value);
    }

    /// A push past depth 16 is silently dropped.
    pub fn push_on_stack(&mut self, value: u16)
        requires
            old(self)@.wf(),
        ensures
            final(self)@ == old(self)@.stack_pushed(value),
            final(self)@.wf(),
    {
        if self.stack_pointer < 16 {
            self.stack.set(self.stack_pointer, value);
            self.stack_pointer = self.stack_pointer + 1;
        }
    }

    /// A pop past depth 0 yields 0 and leaves the stack empty.
    pub fn pop_stack(&mut self) -> (r: u16)
        requires
            old(self)@.wf(),
        ensures
            r == old(self)@.stack_top(),
            final(self)@ == old(self)@.stack_popped(),
            final(self)@.wf(),
    {
        let mut value: u16 = 0;
        if self.stack_pointer > 0 {
            value = self.stack[self.stack_pointer - 1];
            self.stack_pointer = self.stack_pointer - 1;
        }
        value
    }

    pub fn get_delay_timer(&self) -> (r: u8)
        ensures
            r == self@.delay,
    {
        self.delay_timer
    }

    pub fn set_delay_timer(&mut self, value: u8)
        ensures
            final(self)@ == old(self)@.with_delay(value),
    {
        self.delay_timer = value;
    }

    /// Counts the delay timer down by one, stopping at zero: it never
    /// underflows.
    pub fn decrement_delay_timer(&mut self)
        ensures
            final(self)@ == old(self)@.delay_decremented(),
    {
        if self.delay_timer > 0 {
            self.delay_timer = self.delay_timer - 1;
        }
    }

    pub fn get_sound_timer(&self) -> (r: u8)
        ensures
            r == self@.sound,
    {
        self.sound_timer
    }

    pub fn set_sound_timer(&mut self, value: u8)
        ensures
            final(self)@ == old(self)@.with_sound(value),
    {
        self.sound_timer = value;
    }

    /// Counts the sound timer down by one, stopping at zero: it never
    /// underflows.
    pub fn decrement_sound_timer(&mut self)
        ensures
            final(self)@ == old(self)@.sound_decremented(),
    {
        if self.sound_timer > 0 {
            self.sound_timer = self.sound_timer - 1;
        }
    }

    pub fn is_key_down(&self, index: usize) -> (r: bool)
        requires
            self@.wf(),
        ensures
            r == self@.keys[mask4(index) as int],
    {
        proof {
            lemma_mask4(index);
        }
        self.key_pressed[index & 0x0F]
    }

    pub fn set_key_down(&mut self, index: usize, value: bool)
        requires
            old(self)@.wf(),
        ensures
            final(self)@ == old(self)@.with_key(index, value),
            final(self)@.wf(),
    {
        proof {
            lemma_mask4(index);
        }
        self.key_pressed.set(index & 0x0F, value);
    }
}

} // verus!
