//! The register file: sixteen 8-bit general-purpose registers V0–VF, the
//! 16-bit address register I and the 16-bit program counter.

use vstd::prelude::*;

verus! {

/// Mathematical model of the register file.
#[verifier::ext_equal]
pub struct RegistersView {
    pub vx: Seq<u8>,
    pub i: u16,
    pub pc: u16,
}

impl RegistersView {
    /// Well-formedness: exactly sixteen general-purpose registers.
    pub open spec fn wf(self) -> bool {
        self.vx.len() == 16
    }

    /// The same register file with general register `k` set to `v`.
    pub open spec fn with_vx(self, k: int, v: u8) -> RegistersView {
        RegistersView { vx: self.vx.update(k, v), ..self }
    }

    /// The same register file with the address register set to `v`.
    pub open spec fn with_i(self, v: u16) -> RegistersView {
        RegistersView { i: v, ..self }
    }

    /// The same register file with the program counter set to `v`.
    pub open spec fn with_pc(self, v: u16) -> RegistersView {
        RegistersView { pc: v, ..self }
    }
}

/// The freshly constructed register file: all general registers zero, I zero,
/// and the program counter at the conventional program start 0x200.
pub open spec fn initial_registers(r: RegistersView) -> bool {
    &&& r.wf()
    &&& forall|k: int| 0 <= k < 16 ==> r.vx[k] == 0
    &&& r.i == 0
    &&& r.pc == 0x200
}

pub struct Registers {
    vx: Vec<u8>,
    i: u16,
    pc: u16,
}

impl View for Registers {
    type V = RegistersView;

    closed spec fn view(&self) -> RegistersView {
        RegistersView { vx: self.vx@, i: self.i, pc: self.pc }
    }
}

impl Registers {
    pub fn new() -> (r: Registers)
        ensures
            initial_registers(r@),
    {
        let mut vx: Vec<u8> = Vec::new();
        let mut k: usize = 0;
        while k < 16
            invariant
                k <= 16,
                vx@.len() == k,
                forall|j: int| 0 <= j < k ==> vx@[j] == 0,
            decreases 16 - k,
        {
            vx.push(0);
            k = k + 1;
        }
        Registers { vx, i: 0, pc: 0x200 }
    }

    pub fn get_vx(&self, index: usize) -> (r: u8)
        requires
            self@.wf(),
            index < 16,
        ensures
            r == self@.vx[index as int],
    {
        self.vx[index]
    }

    pub fn set_vx(&mut self, index: usize, value: u8)
        requires
            old(self)@.wf(),
            index < 16,
        ensures
            final(self)@ == old(self)@.with_vx(index as int, value),
            final(self)@.wf(),
    {
        self.vx.set(index, value);
    }

    pub fn get_i(&self) -> (r: u16)
        ensures
            r == self@.i,
    {
        self.i
    }

    pub fn set_i(&mut self, value: u16)
        ensures
            final(self)@ == old(self)@.with_i(value),
    {
        self.i = value;
    }

    pub fn get_pc(&self) -> (r: u16)
        ensures
            r == self@.pc,
    {
        self.pc
    }

    pub fn set_pc(&mut self, value: u16)
        ensures
            final(self)@ == old(self)@.with_pc(value),
    {
        self.pc = value;
    }
}

} // verus!
