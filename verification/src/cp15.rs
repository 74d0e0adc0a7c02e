//! System control coprocessor (CP15) register model.
use vstd::prelude::*;

verus! {

/// The CP15 registers that the emulator models.
#[derive(Debug, Default, Clone, Copy)]
pub struct Cp15 {
    pub c0_midr: u32,
    pub c1_sctlr: u32,
    pub c2_ttbr0: u32,
    pub c3_dacr: u32,
    pub c5_dfsr: u32,
    pub c6_dfar: u32,
}

/// MIDR of an ARM926EJ-S (variant/revision neutral).
pub const CP15_RESET_MIDR: u32 = 0x4106_9265;

/// Reset value of SCTLR as expected by early Linux boot code.
pub const CP15_RESET_SCTLR: u32 = 0x0000_0C12;

impl Cp15 {
    /// The register state after reset.
    pub open spec fn reset_state() -> Cp15 {
        Cp15 {
            c0_midr: CP15_RESET_MIDR,
            c1_sctlr: CP15_RESET_SCTLR,
            c2_ttbr0: 0,
            c3_dacr: 0,
            c5_dfsr: 0,
            c6_dfar: 0,
        }
    }

    /// Value an MRC of (CRn, CRm, opc1, opc2) reads. Maintenance registers
    /// (c7, c8) and unmodelled registers read as zero.
    pub open spec fn read_spec(self, crn: usize, crm: usize, opc1: usize, opc2: usize) -> u32 {
        if crm == 0 && opc1 == 0 && opc2 == 0 && crn == 0 {
            self.c0_midr
        } else if crm == 0 && opc1 == 0 && opc2 == 0 && crn == 1 {
            self.c1_sctlr
        } else if crm == 0 && opc1 == 0 && opc2 == 0 && crn == 2 {
            self.c2_ttbr0
        } else if crm == 0 && opc1 == 0 && opc2 == 0 && crn == 3 {
            self.c3_dacr
        } else if crm == 0 && opc1 == 0 && opc2 == 0 && crn == 5 {
            self.c5_dfsr
        } else if crm == 0 && opc1 == 0 && opc2 == 0 && crn == 6 {
            self.c6_dfar
        } else {
            0
        }
    }

    /// Register state after an MCR of `val` to (CRn, CRm, opc1, opc2).
    /// MIDR is read-only; maintenance and unmodelled registers ignore writes.
    pub open spec fn write_spec(self, crn: usize, crm: usize, opc1: usize, opc2: usize, val: u32) -> Cp15 {
        if crm == 0 && opc1 == 0 && opc2 == 0 && crn == 1 {
            Cp15 { c1_sctlr: val, ..self }
        } else if crm == 0 && opc1 == 0 && opc2 == 0 && crn == 2 {
            Cp15 { c2_ttbr0: val, ..self }
        } else if crm == 0 && opc1 == 0 && opc2 == 0 && crn == 3 {
            Cp15 { c3_dacr: val, ..self }
        } else if crm == 0 && opc1 == 0 && opc2 == 0 && crn == 5 {
            Cp15 { c5_dfsr: val, ..self }
        } else if crm == 0 && opc1 == 0 && opc2 == 0 && crn == 6 {
            Cp15 { c6_dfar: val, ..self }
        } else {
            self
        }
    }

    pub fn new() -> (r: Self)
        ensures
            r == Cp15::reset_state(),
    {
        Cp15 {
            c0_midr: CP15_RESET_MIDR,
            c1_sctlr: CP15_RESET_SCTLR,
            c2_ttbr0: 0,
            c3_dacr: 0,
            c5_dfsr: 0,
            c6_dfar: 0,
        }
    }

    pub fn read_register(&self, crn: usize, crm: usize, opc1: usize, opc2: usize) -> (r: u32)
        ensures
            r == self.read_spec(crn, crm, opc1, opc2),
    {
        if crm == 0 && opc1 == 0 && opc2 == 0 {
            match crn {
                0 => self.c0_midr,
                1 => self.c1_sctlr,
                2 => self.c2_ttbr0,
                3 => self.c3_dacr,
                5 => self.c5_dfsr,
                6 => self.c6_dfar,
                _ => 0,
            }
        } else {
            0
        }
    }

    pub fn write_register(&mut self, crn: usize, crm: usize, opc1: usize, opc2: usize, val: u32)
        ensures
            *final(self) == old(self).write_spec(crn, crm, opc1, opc2, val),
    {
        if crm == 0 && opc1 == 0 && opc2 == 0 {
            match crn {
                1 => self.c1_sctlr = val,
                2 => self.c2_ttbr0 = val,
                3 => self.c3_dacr = val,
                5 => self.c5_dfsr = val,
                6 => self.c6_dfar = val,
                _ => {},
            }
        }
    }
}

} // verus!
