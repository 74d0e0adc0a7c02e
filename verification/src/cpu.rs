//! The ARMv7 CPU core: register file with banked registers, exception
//! entry, the short-descriptor MMU walk, and the ARM and Thumb
//! fetch–decode–execute loop.
use vstd::prelude::*;
use crate::cp15::Cp15;
use crate::memory::{Mmu, MmuView, vram_reset};
use crate::arm::{CpuView, ror, asr, shift_spec, sext16, sext8, popcount, sign_extend, vector_address};

verus! {

// ── CPSR bits ─────────────────────────────────────────────────────────
pub const CPSR_N: u32 = 0x8000_0000;
pub const CPSR_Z: u32 = 0x4000_0000;
pub const CPSR_C: u32 = 0x2000_0000;
pub const CPSR_V: u32 = 0x1000_0000;
pub const CPSR_I: u32 = 0x80;
pub const CPSR_F: u32 = 0x40;
pub const CPSR_T: u32 = 0x20;
pub const CPSR_MODE_MASK: u32 = 0x1F;

// ── Processor modes ───────────────────────────────────────────────────
pub const MODE_USER: u32 = 0x10;
pub const MODE_FIQ: u32 = 0x11;
pub const MODE_IRQ: u32 = 0x12;
pub const MODE_SVC: u32 = 0x13;
pub const MODE_ABT: u32 = 0x17;
pub const MODE_UND: u32 = 0x1B;
pub const MODE_SYS: u32 = 0x1F;

/// Address of the SWI exception vector.
pub const SWI_VECTOR: u32 = 0x0000_0008;

pub const REG_SP: usize = 13;
pub const REG_LR: usize = 14;
pub const REG_PC: usize = 15;

/// The ARMv7 register file: R0–R15, CPSR, the SPSRs and the banked SP/LR
/// of the modes not running (each exception mode, and User/System).
#[derive(Debug)]
pub struct RegisterFile {
    pub regs: [u32; 16],
    pub cpsr: u32,
    pub spsr_svc: u32,
    pub spsr_abt: u32,
    pub spsr_und: u32,
    pub spsr_irq: u32,
    pub spsr_fiq: u32,
    pub banked_sp_svc: u32,
    pub banked_lr_svc: u32,
    pub banked_sp_abt: u32,
    pub banked_lr_abt: u32,
    pub banked_sp_und: u32,
    pub banked_lr_und: u32,
    pub banked_sp_irq: u32,
    pub banked_lr_irq: u32,
    pub banked_sp_fiq: u32,
    pub banked_lr_fiq: u32,
    /// SP/LR of User and System mode (which share them) while another mode
    /// runs.
    pub banked_sp_usr: u32,
    pub banked_lr_usr: u32,
    /// Added to R15 when it is read as an operand during execution
    /// (4 in ARM state, 2 in Thumb state, 0 otherwise).
    pub pipeline_offset: u32,
}

/// Abstract value of a [`RegisterFile`].
#[verifier::ext_equal]
pub struct RegView {
    pub regs: Seq<u32>,
    pub cpsr: u32,
    pub spsr_svc: u32,
    pub spsr_abt: u32,
    pub spsr_und: u32,
    pub spsr_irq: u32,
    pub spsr_fiq: u32,
    pub banked_sp_svc: u32,
    pub banked_lr_svc: u32,
    pub banked_sp_abt: u32,
    pub banked_lr_abt: u32,
    pub banked_sp_und: u32,
    pub banked_lr_und: u32,
    pub banked_sp_irq: u32,
    pub banked_lr_irq: u32,
    pub banked_sp_fiq: u32,
    pub banked_lr_fiq: u32,
    pub banked_sp_usr: u32,
    pub banked_lr_usr: u32,
    pub pipeline_offset: u32,
}

impl View for RegisterFile {
    type V = RegView;

    open spec fn view(&self) -> RegView {
        RegView {
            regs: self.regs@,
            cpsr: self.cpsr,
            spsr_svc: self.spsr_svc,
            spsr_abt: self.spsr_abt,
            spsr_und: self.spsr_und,
            spsr_irq: self.spsr_irq,
            spsr_fiq: self.spsr_fiq,
            banked_sp_svc: self.banked_sp_svc,
            banked_lr_svc: self.banked_lr_svc,
            banked_sp_abt: self.banked_sp_abt,
            banked_lr_abt: self.banked_lr_abt,
            banked_sp_und: self.banked_sp_und,
            banked_lr_und: self.banked_lr_und,
            banked_sp_irq: self.banked_sp_irq,
            banked_lr_irq: self.banked_lr_irq,
            banked_sp_fiq: self.banked_sp_fiq,
            banked_lr_fiq: self.banked_lr_fiq,
            banked_sp_usr: self.banked_sp_usr,
            banked_lr_usr: self.banked_lr_usr,
            pipeline_offset: self.pipeline_offset,
        }
    }
}

/// `x` with bit mask `m` set or cleared.
pub open spec fn with_bit(x: u32, m: u32, on: bool) -> u32 {
    if on { x | m } else { x & !m }
}

/// User and System mode share one SP/LR pair.
pub open spec fn user_regs_mode(mode: u32) -> bool {
    mode == MODE_USER || mode == MODE_SYS
}

impl RegView {
    /// Register file after reset: all zero, User mode.
    pub open spec fn reset() -> RegView {
        RegView {
            regs: Seq::new(16, |i: int| 0u32),
            cpsr: MODE_USER,
            spsr_svc: 0,
            spsr_abt: 0,
            spsr_und: 0,
            spsr_irq: 0,
            spsr_fiq: 0,
            banked_sp_svc: 0,
            banked_lr_svc: 0,
            banked_sp_abt: 0,
            banked_lr_abt: 0,
            banked_sp_und: 0,
            banked_lr_und: 0,
            banked_sp_irq: 0,
            banked_lr_irq: 0,
            banked_sp_fiq: 0,
            banked_lr_fiq: 0,
            banked_sp_usr: 0,
            banked_lr_usr: 0,
            pipeline_offset: 0,
        }
    }

    pub open spec fn wf(self) -> bool {
        self.regs.len() == 16
    }

    /// Register `r` as an operand: R15 reads with the pipeline offset.
    pub open spec fn read(self, r: usize) -> u32 {
        let i = r & 0xF;
        if i == REG_PC {
            self.regs[15].wrapping_add(self.pipeline_offset)
        } else {
            self.regs[i as int]
        }
    }

    pub open spec fn write(self, r: usize, val: u32) -> RegView {
        RegView { regs: self.regs.update((r & 0xF) as int, val), ..self }
    }

    pub open spec fn pc(self) -> u32 {
        self.regs[15]
    }

    pub open spec fn sp(self) -> u32 {
        self.regs[13]
    }

    pub open spec fn lr(self) -> u32 {
        self.regs[14]
    }

    pub open spec fn set_reg(self, i: int, val: u32) -> RegView {
        RegView { regs: self.regs.update(i, val), ..self }
    }

    pub open spec fn mode(self) -> u32 {
        self.cpsr & CPSR_MODE_MASK
    }

    pub open spec fn flag_n(self) -> bool {
        self.cpsr & CPSR_N != 0
    }

    pub open spec fn flag_z(self) -> bool {
        self.cpsr & CPSR_Z != 0
    }

    pub open spec fn flag_c(self) -> bool {
        self.cpsr & CPSR_C != 0
    }

    pub open spec fn flag_v(self) -> bool {
        self.cpsr & CPSR_V != 0
    }

    pub open spec fn thumb(self) -> bool {
        self.cpsr & CPSR_T != 0
    }

    pub open spec fn irq_disabled(self) -> bool {
        self.cpsr & CPSR_I != 0
    }

    pub open spec fn with_cpsr_bit(self, m: u32, on: bool) -> RegView {
        RegView { cpsr: with_bit(self.cpsr, m, on), ..self }
    }

    /// N and Z from a 32-bit result.
    pub open spec fn update_nz(self, result: u32) -> RegView {
        self.with_cpsr_bit(CPSR_N, result & 0x8000_0000 != 0).with_cpsr_bit(CPSR_Z, result == 0)
    }

    /// Stores the current SP/LR into the bank of `mode`.
    pub open spec fn save_banked(self, mode: u32) -> RegView {
        let sp = self.regs[13];
        let lr = self.regs[14];
        if mode == MODE_SVC {
            RegView { banked_sp_svc: sp, banked_lr_svc: lr, ..self }
        } else if mode == MODE_ABT {
            RegView { banked_sp_abt: sp, banked_lr_abt: lr, ..self }
        } else if mode == MODE_UND {
            RegView { banked_sp_und: sp, banked_lr_und: lr, ..self }
        } else if mode == MODE_IRQ {
            RegView { banked_sp_irq: sp, banked_lr_irq: lr, ..self }
        } else if mode == MODE_FIQ {
            RegView { banked_sp_fiq: sp, banked_lr_fiq: lr, ..self }
        } else if user_regs_mode(mode) {
            RegView { banked_sp_usr: sp, banked_lr_usr: lr, ..self }
        } else {
            self
        }
    }

    /// The banked (SP, LR) of `mode`, if it has a bank.
    pub open spec fn bank_of(self, mode: u32) -> Option<(u32, u32)> {
        if mode == MODE_SVC {
            Some((self.banked_sp_svc, self.banked_lr_svc))
        } else if mode == MODE_ABT {
            Some((self.banked_sp_abt, self.banked_lr_abt))
        } else if mode == MODE_UND {
            Some((self.banked_sp_und, self.banked_lr_und))
        } else if mode == MODE_IRQ {
            Some((self.banked_sp_irq, self.banked_lr_irq))
        } else if mode == MODE_FIQ {
            Some((self.banked_sp_fiq, self.banked_lr_fiq))
        } else if user_regs_mode(mode) {
            Some((self.banked_sp_usr, self.banked_lr_usr))
        } else {
            None
        }
    }

    /// Makes the bank of `mode` the current SP/LR.
    pub open spec fn load_banked(self, mode: u32) -> RegView {
        match self.bank_of(mode) {
            Some((sp, lr)) => RegView { regs: self.regs.update(13, sp).update(14, lr), ..self },
            None => self,
        }
    }

    /// Writes CPSR; a mode change swaps the SP/LR banks.
    pub open spec fn set_cpsr(self, val: u32) -> RegView {
        let old_mode = self.mode();
        let new_mode = val & CPSR_MODE_MASK;
        let r = if old_mode != new_mode {
            self.save_banked(old_mode).load_banked(new_mode)
        } else {
            self
        };
        RegView { cpsr: val, ..r }
    }

    pub open spec fn set_cpu_mode(self, mode: u32) -> RegView {
        self.set_cpsr((self.cpsr & !CPSR_MODE_MASK) | (mode & CPSR_MODE_MASK))
    }

    pub open spec fn spsr(self, mode: u32) -> u32 {
        if mode == MODE_SVC {
            self.spsr_svc
        } else if mode == MODE_ABT {
            self.spsr_abt
        } else if mode == MODE_UND {
            self.spsr_und
        } else if mode == MODE_IRQ {
            self.spsr_irq
        } else if mode == MODE_FIQ {
            self.spsr_fiq
        } else {
            0
        }
    }

    pub open spec fn set_spsr(self, mode: u32, val: u32) -> RegView {
        if mode == MODE_SVC {
            RegView { spsr_svc: val, ..self }
        } else if mode == MODE_ABT {
            RegView { spsr_abt: val, ..self }
        } else if mode == MODE_UND {
            RegView { spsr_und: val, ..self }
        } else if mode == MODE_IRQ {
            RegView { spsr_irq: val, ..self }
        } else if mode == MODE_FIQ {
            RegView { spsr_fiq: val, ..self }
        } else {
            self
        }
    }

    /// Writes the LR that `mode` sees, without changing mode.
    pub open spec fn set_lr_banked(self, mode: u32, addr: u32) -> RegView {
        if self.mode() == mode || (user_regs_mode(self.mode()) && user_regs_mode(mode)) {
            self.set_reg(14, addr)
        } else if mode == MODE_SVC {
            RegView { banked_lr_svc: addr, ..self }
        } else if mode == MODE_ABT {
            RegView { banked_lr_abt: addr, ..self }
        } else if mode == MODE_UND {
            RegView { banked_lr_und: addr, ..self }
        } else if mode == MODE_IRQ {
            RegView { banked_lr_irq: addr, ..self }
        } else if mode == MODE_FIQ {
            RegView { banked_lr_fiq: addr, ..self }
        } else if user_regs_mode(mode) {
            RegView { banked_lr_usr: addr, ..self }
        } else {
            self.set_reg(14, addr)
        }
    }
}

impl RegisterFile {
    /// All registers zero, User mode.
    pub fn new() -> (r: Self)
        ensures
            r@ == RegView::reset(),
    {
        let r = RegisterFile {
            regs: [0u32; 16],
            cpsr: MODE_USER,
            spsr_svc: 0,
            spsr_abt: 0,
            spsr_und: 0,
            spsr_irq: 0,
            spsr_fiq: 0,
            banked_sp_svc: 0,
            banked_lr_svc: 0,
            banked_sp_abt: 0,
            banked_lr_abt: 0,
            banked_sp_und: 0,
            banked_lr_und: 0,
            banked_sp_irq: 0,
            banked_lr_irq: 0,
            banked_sp_fiq: 0,
            banked_lr_fiq: 0,
            banked_sp_usr: 0,
            banked_lr_usr: 0,
            pipeline_offset: 0,
        };
        assert(r@.regs =~= Seq::new(16, |i: int| 0u32));
        r
    }

    fn save_banked_sp_lr(&mut self, mode: u32)
        ensures
            final(self)@ == old(self)@.save_banked(mode),
    {
        let sp = self.regs[REG_SP];
        let lr = self.regs[REG_LR];
        if mode == MODE_SVC {
            self.banked_sp_svc = sp;
            self.banked_lr_svc = lr;
        } else if mode == MODE_ABT {
            self.banked_sp_abt = sp;
            self.banked_lr_abt = lr;
        } else if mode == MODE_UND {
            self.banked_sp_und = sp;
            self.banked_lr_und = lr;
        } else if mode == MODE_IRQ {
            self.banked_sp_irq = sp;
            self.banked_lr_irq = lr;
        } else if mode == MODE_FIQ {
            self.banked_sp_fiq = sp;
            self.banked_lr_fiq = lr;
        } else if mode == MODE_USER || mode == MODE_SYS {
            self.banked_sp_usr = sp;
            self.banked_lr_usr = lr;
        }
    }

    fn load_banked_sp_lr(&mut self, mode: u32)
        ensures
            final(self)@ == old(self)@.load_banked(mode),
    {
        let (sp, lr) = if mode == MODE_SVC {
            (self.banked_sp_svc, self.banked_lr_svc)
        } else if mode == MODE_ABT {
            (self.banked_sp_abt, self.banked_lr_abt)
        } else if mode == MODE_UND {
            (self.banked_sp_und, self.banked_lr_und)
        } else if mode == MODE_IRQ {
            (self.banked_sp_irq, self.banked_lr_irq)
        } else if mode == MODE_FIQ {
            (self.banked_sp_fiq, self.banked_lr_fiq)
        } else if mode == MODE_USER || mode == MODE_SYS {
            (self.banked_sp_usr, self.banked_lr_usr)
        } else {
            return;
        };
        self.regs[REG_SP] = sp;
        self.regs[REG_LR] = lr;
    }

    /// Reads R0–R15 (index taken mod 16); R15 reads with the pipeline
    /// offset (instruction + 8 in ARM, + 4 in Thumb).
    pub fn read(&self, reg: usize) -> (r: u32)
        ensures
            r == self@.read(reg),
    {
        let r = reg & 0xF;
        assert(r < 16) by (bit_vector)
            requires r == reg & 0xF;
        if r == REG_PC {
            self.regs[REG_PC].wrapping_add(self.pipeline_offset)
        } else {
            self.regs[r]
        }
    }

    /// Writes R0–R15 (index taken mod 16).
    pub fn write(&mut self, reg: usize, val: u32)
        ensures
            final(self)@ == old(self)@.write(reg, val),
    {
        let r = reg & 0xF;
        assert(r < 16) by (bit_vector)
            requires r == reg & 0xF;
        self.regs[r] = val;
    }

    pub fn pc(&self) -> (r: u32)
        ensures
            r == self@.pc(),
    {
        self.regs[REG_PC]
    }

    pub fn set_pc(&mut self, addr: u32)
        ensures
            final(self)@ == old(self)@.set_reg(15, addr),
    {
        self.regs[REG_PC] = addr;
    }

    pub fn sp(&self) -> (r: u32)
        ensures
            r == self@.sp(),
    {
        self.regs[REG_SP]
    }

    pub fn set_sp(&mut self, addr: u32)
        ensures
            final(self)@ == old(self)@.set_reg(13, addr),
    {
        self.regs[REG_SP] = addr;
    }

    pub fn lr(&self) -> (r: u32)
        ensures
            r == self@.lr(),
    {
        self.regs[REG_LR]
    }

    pub fn set_lr(&mut self, addr: u32)
        ensures
            final(self)@ == old(self)@.set_reg(14, addr),
    {
        self.regs[REG_LR] = addr;
    }

    pub fn cpsr(&self) -> (r: u32)
        ensures
            r == self@.cpsr,
    {
        self.cpsr
    }

    /// Writes CPSR; a mode change saves SP/LR to the old mode's bank and
    /// loads the new mode's bank.
    pub fn set_cpsr(&mut self, val: u32)
        ensures
            final(self)@ == old(self)@.set_cpsr(val),
    {
        let old_mode = self.cpu_mode();
        let new_mode = val & CPSR_MODE_MASK;
        if old_mode != new_mode {
            self.save_banked_sp_lr(old_mode);
            self.load_banked_sp_lr(new_mode);
        }
        self.cpsr = val;
    }

    pub fn flag_n(&self) -> (r: bool)
        ensures
            r == self@.flag_n(),
    {
        (self.cpsr & CPSR_N) != 0
    }

    pub fn flag_z(&self) -> (r: bool)
        ensures
            r == self@.flag_z(),
    {
        (self.cpsr & CPSR_Z) != 0
    }

    pub fn flag_c(&self) -> (r: bool)
        ensures
            r == self@.flag_c(),
    {
        (self.cpsr & CPSR_C) != 0
    }

    pub fn flag_v(&self) -> (r: bool)
        ensures
            r == self@.flag_v(),
    {
        (self.cpsr & CPSR_V) != 0
    }

    pub fn is_thumb(&self) -> (r: bool)
        ensures
            r == self@.thumb(),
    {
        (self.cpsr & CPSR_T) != 0
    }

    fn set_cpsr_bit(&mut self, m: u32, val: bool)
        ensures
            final(self)@ == old(self)@.with_cpsr_bit(m, val),
    {
        if val {
            self.cpsr = self.cpsr | m;
        } else {
            self.cpsr = self.cpsr & !m;
        }
    }

    pub fn set_flag_n(&mut self, val: bool)
        ensures
            final(self)@ == old(self)@.with_cpsr_bit(CPSR_N, val),
    {
        self.set_cpsr_bit(CPSR_N, val);
    }

    pub fn set_flag_z(&mut self, val: bool)
        ensures
            final(self)@ == old(self)@.with_cpsr_bit(CPSR_Z, val),
    {
        self.set_cpsr_bit(CPSR_Z, val);
    }

    pub fn set_flag_c(&mut self, val: bool)
        ensures
            final(self)@ == old(self)@.with_cpsr_bit(CPSR_C, val),
    {
        self.set_cpsr_bit(CPSR_C, val);
    }

    pub fn set_flag_v(&mut self, val: bool)
        ensures
            final(self)@ == old(self)@.with_cpsr_bit(CPSR_V, val),
    {
        self.set_cpsr_bit(CPSR_V, val);
    }

    pub fn set_thumb(&mut self, val: bool)
        ensures
            final(self)@ == old(self)@.with_cpsr_bit(CPSR_T, val),
    {
        self.set_cpsr_bit(CPSR_T, val);
    }

    /// Sets N and Z from a 32-bit result.
    pub fn update_nz(&mut self, result: u32)
        ensures
            final(self)@ == old(self)@.update_nz(result),
    {
        self.set_flag_n(result & 0x8000_0000 != 0);
        self.set_flag_z(result == 0);
    }

    pub fn cpu_mode(&self) -> (r: u32)
        ensures
            r == self@.mode(),
    {
        self.cpsr & CPSR_MODE_MASK
    }

    pub fn set_cpu_mode(&mut self, mode: u32)
        ensures
            final(self)@ == old(self)@.set_cpu_mode(mode),
    {
        let new_cpsr = (self.cpsr & !CPSR_MODE_MASK) | (mode & CPSR_MODE_MASK);
        self.set_cpsr(new_cpsr);
    }

    pub fn irq_disabled(&self) -> (r: bool)
        ensures
            r == self@.irq_disabled(),
    {
        (self.cpsr & CPSR_I) != 0
    }

    pub fn set_irq_disabled(&mut self, val: bool)
        ensures
            final(self)@ == old(self)@.with_cpsr_bit(CPSR_I, val),
    {
        self.set_cpsr_bit(CPSR_I, val);
    }

    pub fn spsr_svc(&self) -> (r: u32)
        ensures
            r == self@.spsr_svc,
    {
        self.spsr_svc
    }

    pub fn set_spsr_svc(&mut self, val: u32)
        ensures
            final(self)@ == (RegView { spsr_svc: val, ..old(self)@ }),
    {
        self.spsr_svc = val;
    }

    /// Sets the SPSR of an exception mode (ignored for User/System).
    pub fn set_spsr(&mut self, target_mode: u32, val: u32)
        ensures
            final(self)@ == old(self)@.set_spsr(target_mode, val),
    {
        if target_mode == MODE_SVC {
            self.spsr_svc = val;
        } else if target_mode == MODE_ABT {
            self.spsr_abt = val;
        } else if target_mode == MODE_UND {
            self.spsr_und = val;
        } else if target_mode == MODE_IRQ {
            self.spsr_irq = val;
        } else if target_mode == MODE_FIQ {
            self.spsr_fiq = val;
        }
    }

    /// The SPSR of `mode` (0 for modes without one).
    pub fn spsr(&self, mode: u32) -> (r: u32)
        ensures
            r == self@.spsr(mode),
    {
        if mode == MODE_SVC {
            self.spsr_svc
        } else if mode == MODE_ABT {
            self.spsr_abt
        } else if mode == MODE_UND {
            self.spsr_und
        } else if mode == MODE_IRQ {
            self.spsr_irq
        } else if mode == MODE_FIQ {
            self.spsr_fiq
        } else {
            0
        }
    }

    /// Writes the LR of `target_mode` without switching to it.
    pub fn set_lr_banked(&mut self, target_mode: u32, addr: u32)
        ensures
            final(self)@ == old(self)@.set_lr_banked(target_mode, addr),
    {
        let cur = self.cpu_mode();
        if cur == target_mode || ((cur == MODE_USER || cur == MODE_SYS) && (target_mode == MODE_USER || target_mode
            == MODE_SYS)) {
            self.regs[REG_LR] = addr;
            return;
        }
        if target_mode == MODE_SVC {
            self.banked_lr_svc = addr;
        } else if target_mode == MODE_ABT {
            self.banked_lr_abt = addr;
        } else if target_mode == MODE_UND {
            self.banked_lr_und = addr;
        } else if target_mode == MODE_IRQ {
            self.banked_lr_irq = addr;
        } else if target_mode == MODE_FIQ {
            self.banked_lr_fiq = addr;
        } else if target_mode == MODE_USER || target_mode == MODE_SYS {
            self.banked_lr_usr = addr;
        } else {
            self.regs[REG_LR] = addr;
        }
    }
}


// ── The CPU ───────────────────────────────────────────────────────────

/// The ARM CPU: register file, memory bus and CP15.
#[derive(Debug)]
pub struct Cpu {
    pub regs: RegisterFile,
    pub mmu: Mmu,
    pub cp15: Cp15,
    pub halted: bool,
    /// Set when an exception is taken during the current instruction.
    pub exception_raised: bool,
}

impl View for Cpu {
    type V = CpuView;

    open spec fn view(&self) -> CpuView {
        CpuView {
            regs: self.regs@,
            mmu: self.mmu@,
            cp15: self.cp15,
            halted: self.halted,
            exception_raised: self.exception_raised,
        }
    }
}

/// Where `boot_linux` places an initial ramdisk.
pub const INITRD_BASE: u32 = 0x0080_0000;
/// Where `boot_linux` writes the ATAG list.
pub const ATAG_BASE: u32 = 0x100;
/// Where programs and kernels are loaded and started.
pub const BOOT_ADDRESS: u32 = 0x8000;

/// Address `n` bytes into the ATAG list.
pub open spec fn atag_at(n: u32) -> u32 {
    (ATAG_BASE + n) as u32
}

impl CpuView {
    /// A CPU with `size` bytes of RAM right after creation.
    pub open spec fn initial(size: usize) -> CpuView {
        CpuView {
            regs: RegView::reset(),
            mmu: MmuView::initial(size),
            cp15: Cp15::reset_state(),
            halted: false,
            exception_raised: false,
        }
    }

    /// After `reset`: registers and CP15 at reset values, UART buffer
    /// empty, VRAM black, SP 64 KB below the top of RAM, PC at 0x8000.
    pub open spec fn after_reset(self) -> CpuView {
        CpuView {
            regs: RegView::reset().set_reg(13, (self.mmu.ram.len() as u32).wrapping_sub(0x1_0000)).set_reg(
                15,
                BOOT_ADDRESS,
            ),
            mmu: MmuView { uart_tx_buffer: Seq::empty(), vram: vram_reset(), ..self.mmu },
            cp15: Cp15::reset_state(),
            halted: false,
            exception_raised: false,
        }
    }

    /// `load_program`: bytes copied to RAM at `base`, PC set to `base`.
    pub open spec fn load_program(self, base: u32, program: Seq<u8>) -> CpuView {
        CpuView {
            mmu: self.mmu.load_bytes_spec(base, program),
            regs: self.regs.set_reg(15, base),
            ..self
        }
    }

    /// The Linux ATAG list: CORE, MEM (all of RAM at 0), optionally
    /// INITRD2, then NONE.
    pub open spec fn write_atags(self, initrd_len: Option<u32>) -> CpuView {
        let m0 = self.mmu;
        let m1 = m0.store32(ATAG_BASE, 2).store32(atag_at(4), 0x5441_0001);
        let m2 = m1.store32(atag_at(8), 4).store32(atag_at(12), 0x5441_0002).store32(
            atag_at(16),
            m0.ram.len() as u32,
        ).store32(atag_at(20), 0);
        let (m3, next) = match initrd_len {
            Some(n) => (
                m2.store32(atag_at(24), 4).store32(atag_at(28), 0x5442_0005).store32(
                    atag_at(32),
                    INITRD_BASE,
                ).store32(atag_at(36), n),
                atag_at(40),
            ),
            None => (m2, atag_at(24)),
        };
        self.with_mmu(m3.store32(next, 0).store32(next.wrapping_add(4), 0))
    }

    /// `boot_linux`: reset, ATAGs, optional ramdisk at `INITRD_BASE`, kernel
    /// at 0x8000, then R0 = 0, R1 = machine type, R2 = ATAG address.
    pub open spec fn boot_linux(self, kernel: Seq<u8>, initrd: Option<Seq<u8>>, machine_type: u32) -> CpuView {
        let s0 = self.after_reset();
        let s1 = s0.write_atags(
            match initrd {
                Some(d) => Some(d.len() as u32),
                None => None,
            },
        );
        let s2 = match initrd {
            Some(d) => s1.with_mmu(s1.mmu.load_bytes_spec(INITRD_BASE, d)),
            None => s1,
        };
        let s3 = s2.load_program(BOOT_ADDRESS, kernel);
        s3.with_regs(s3.regs.write(0, 0).write(1, machine_type).write(2, ATAG_BASE).set_reg(15, BOOT_ADDRESS))
    }
}

impl Cpu {
    pub open spec fn wf(&self) -> bool {
        self@.wf()
    }

    /// A CPU with `ram_size` bytes of RAM.
    pub fn new(ram_size: usize) -> (r: Self)
        ensures
            r@ == CpuView::initial(ram_size),
            r.wf(),
    {
        Cpu {
            regs: RegisterFile::new(),
            mmu: Mmu::new(ram_size),
            cp15: Cp15::new(),
            halted: false,
            exception_raised: false,
        }
    }

    /// A CPU with the default 16 MB of RAM.
    pub fn default() -> (r: Self)
        ensures
            r@ == CpuView::initial(crate::memory::DEFAULT_RAM_SIZE),
            r.wf(),
    {
        Cpu {
            regs: RegisterFile::new(),
            mmu: Mmu::default(),
            cp15: Cp15::new(),
            halted: false,
            exception_raised: false,
        }
    }

    /// Resets registers, CP15, UART buffer and VRAM; SP = top of RAM −
    /// 64 KB, PC = 0x8000. RAM contents are kept.
    pub fn reset(&mut self)
        requires
            old(self).wf(),
        ensures
            final(self)@ == old(self)@.after_reset(),
            final(self).wf(),
    {
        self.regs = RegisterFile::new();
        self.cp15 = Cp15::new();
        self.halted = false;
        self.exception_raised = false;
        self.mmu.clear_uart_buffer();
        self.mmu.clear_vram();
        let top = (self.mmu.ram_size() as u32).wrapping_sub(0x1_0000);
        self.regs.set_sp(top);
        self.regs.set_pc(BOOT_ADDRESS);
    }

    /// Prepares a Linux boot with the ATAG protocol: kernel at 0x8000,
    /// optional ramdisk at `INITRD_BASE`, R1 = machine type, R2 = ATAGs.
    pub fn boot_linux(&mut self, kernel_bytes: &[u8], initrd: Option<&[u8]>, machine_type: u32)
        requires
            old(self).wf(),
        ensures
            final(self)@ == old(self)@.boot_linux(
                kernel_bytes@,
                match initrd {
                    Some(d) => Some(d@),
                    None => None,
                },
                machine_type,
            ),
            final(self).wf(),
    {
        self.reset();
        let initrd_len = match initrd {
            Some(d) => Some(d.len() as u32),
            None => None,
        };
        self.write_atags(initrd_len);
        match initrd {
            Some(d) => self.mmu.load_bytes(INITRD_BASE, d),
            None => {},
        }
        self.load_program(BOOT_ADDRESS, kernel_bytes);
        self.regs.write(0, 0);
        self.regs.write(1, machine_type);
        self.regs.write(2, ATAG_BASE);
        self.regs.set_pc(BOOT_ADDRESS);
    }

    /// Writes the ATAG list (see [`CpuView::write_atags`]).
    fn write_atags(&mut self, initrd_len: Option<u32>)
        requires
            old(self).wf(),
        ensures
            final(self)@ == old(self)@.write_atags(initrd_len),
            final(self).wf(),
    {
        let ghost m0 = self.mmu@;
        let ram = self.mmu.ram_size() as u32;
        self.mmu.write_u32(ATAG_BASE, 2);
        self.mmu.write_u32(ATAG_BASE + 4, 0x5441_0001);
        self.mmu.write_u32(ATAG_BASE + 8, 4);
        self.mmu.write_u32(ATAG_BASE + 12, 0x5441_0002);
        self.mmu.write_u32(ATAG_BASE + 16, ram);
        self.mmu.write_u32(ATAG_BASE + 20, 0);
        let mut next = ATAG_BASE + 24;
        match initrd_len {
            Some(n) => {
                self.mmu.write_u32(ATAG_BASE + 24, 4);
                self.mmu.write_u32(ATAG_BASE + 28, 0x5442_0005);
                self.mmu.write_u32(ATAG_BASE + 32, INITRD_BASE);
                self.mmu.write_u32(ATAG_BASE + 36, n);
                next = ATAG_BASE + 40;
            },
            None => {},
        }
        self.mmu.write_u32(next, 0);
        self.mmu.write_u32(next.wrapping_add(4), 0);
    }

    /// Exception entry (see [`CpuView::trigger_exception`]); the name is
    /// only descriptive.
    pub fn trigger_exception(&mut self, exception_type: &str, target_mode: u32, vector_offset: u32, pc_adjustment: u32)
        requires
            old(self).cp15.c1_sctlr & 0x2000 == 0 || vector_offset <= 0xFFFF,
        ensures
            final(self)@ == old(self)@.trigger_exception(target_mode, vector_offset, pc_adjustment),
    {
        let _ = exception_type;
        let cpsr = self.regs.cpsr();
        self.regs.set_spsr(target_mode, cpsr);
        let return_addr = self.regs.read(REG_PC).wrapping_sub(pc_adjustment);
        self.regs.set_lr_banked(target_mode, return_addr);
        let mut new_cpsr = (cpsr & !CPSR_MODE_MASK) | target_mode | CPSR_I;
        if target_mode == MODE_FIQ {
            new_cpsr = new_cpsr | CPSR_F;
        }
        new_cpsr = new_cpsr & !CPSR_T;
        self.regs.set_cpsr(new_cpsr);
        let base: u32 = if (self.cp15.c1_sctlr & 0x2000) != 0 { 0xFFFF_0000 } else { 0 };
        let vector = base + vector_offset;
        self.regs.set_pc(vector);
        self.exception_raised = true;
    }

    /// Short-descriptor translation of a virtual address (see
    /// [`CpuView::translate`]).
    pub fn translate_address(&mut self, vaddr: u32) -> (r: u32)
        requires
            old(self).wf(),
        ensures
            r == old(self)@.translate(vaddr).0,
            final(self)@ == old(self)@.translate(vaddr).1,
            final(self).wf(),
    {
        if self.cp15.c1_sctlr & 1 == 0 {
            return vaddr;
        }
        let table_base = self.cp15.c2_ttbr0 & 0xFFFF_C000;
        let desc_addr = table_base | ((vaddr >> 20) << 2);
        let descriptor = self.mmu.read_u32(desc_addr);
        let desc_type = descriptor & 0b11;
        if desc_type == 0b10 {
            (descriptor & 0xFFF0_0000) | (vaddr & 0x000F_FFFF)
        } else if desc_type == 0b01 {
            let l2_desc_addr = (descriptor & 0xFFFF_FC00) | (((vaddr >> 12) & 0xFF) << 2);
            let l2_desc = self.mmu.read_u32(l2_desc_addr);
            if (l2_desc & 0b11) == 0b10 {
                (l2_desc & 0xFFFF_F000) | (vaddr & 0x0000_0FFF)
            } else {
                self.trigger_exception("Data Abort", MODE_ABT, 0x10, 8);
                vaddr
            }
        } else {
            self.trigger_exception("Data Abort", MODE_ABT, 0x10, 8);
            vaddr
        }
    }

    pub fn read_mem_u8(&mut self, vaddr: u32) -> (r: u8)
        requires
            old(self).wf(),
        ensures
            r == old(self)@.read_mem8(vaddr).0,
            final(self)@ == old(self)@.read_mem8(vaddr).1,
            final(self).wf(),
    {
        let paddr = self.translate_address(vaddr);
        if self.exception_raised {
            return 0;
        }
        self.mmu.read_u8(paddr)
    }

    pub fn write_mem_u8(&mut self, vaddr: u32, val: u8)
        requires
            old(self).wf(),
        ensures
            final(self)@ == old(self)@.write_mem8(vaddr, val),
            final(self).wf(),
    {
        let paddr = self.translate_address(vaddr);
        if self.exception_raised {
            return;
        }
        self.mmu.write_u8(paddr, val);
    }

    pub fn read_mem_u16(&mut self, vaddr: u32) -> (r: u16)
        requires
            old(self).wf(),
        ensures
            r == old(self)@.read_mem16(vaddr).0,
            final(self)@ == old(self)@.read_mem16(vaddr).1,
            final(self).wf(),
    {
        let paddr = self.translate_address(vaddr);
        if self.exception_raised {
            return 0;
        }
        self.mmu.read_u16(paddr)
    }

    pub fn write_mem_u16(&mut self, vaddr: u32, val: u16)
        requires
            old(self).wf(),
        ensures
            final(self)@ == old(self)@.write_mem16(vaddr, val),
            final(self).wf(),
    {
        let paddr = self.translate_address(vaddr);
        if self.exception_raised {
            return;
        }
        self.mmu.write_u16(paddr, val);
    }

    pub fn read_mem_u32(&mut self, vaddr: u32) -> (r: u32)
        requires
            old(self).wf(),
        ensures
            r == old(self)@.read_mem32(vaddr).0,
            final(self)@ == old(self)@.read_mem32(vaddr).1,
            final(self).wf(),
    {
        let paddr = self.translate_address(vaddr);
        if self.exception_raised {
            return 0;
        }
        self.mmu.read_u32(paddr)
    }

    pub fn write_mem_u32(&mut self, vaddr: u32, val: u32)
        requires
            old(self).wf(),
        ensures
            final(self)@ == old(self)@.write_mem32(vaddr, val),
            final(self).wf(),
    {
        let paddr = self.translate_address(vaddr);
        if self.exception_raised {
            return;
        }
        self.mmu.write_u32(paddr, val);
    }

    /// The instruction word at PC (a halfword in Thumb state).
    pub fn fetch(&mut self) -> (r: u32)
        requires
            old(self).wf(),
        ensures
            r == old(self)@.fetch().0,
            final(self)@ == old(self)@.fetch().1,
            final(self).wf(),
    {
        reveal(CpuView::fetch);
        let pc = self.regs.pc();
        if self.regs.is_thumb() {
            self.read_mem_u16(pc) as u32
        } else {
            self.read_mem_u32(pc)
        }
    }

    /// Advances PC by one instruction width.
    pub fn advance_pc(&mut self)
        ensures
            final(self)@ == old(self)@.advance_pc(),
    {
        let step: u32 = if self.regs.is_thumb() { 2 } else { 4 };
        let new_pc = self.regs.pc().wrapping_add(step);
        self.regs.set_pc(new_pc);
    }

    /// Copies a program into RAM at `base_addr` and points PC at it.
    pub fn load_program(&mut self, base_addr: u32, program: &[u8])
        requires
            old(self).wf(),
        ensures
            final(self)@ == old(self)@.load_program(base_addr, program@),
            final(self).wf(),
    {
        self.mmu.load_bytes(base_addr, program);
        self.regs.set_pc(base_addr);
    }

    /// One tick of SP804 Timer1 (see [`CpuView::tick_timer`]).
    fn tick_sp804_timer(&mut self)
        requires
            old(self).wf(),
        ensures
            final(self)@ == old(self)@.tick_timer(),
            final(self).wf(),
    {
        reveal(CpuView::tick_timer);
        if (self.mmu.timer1_ctrl & 0x80) != 0 {
            let underflow = self.mmu.timer1_value == 0;
            self.mmu.timer1_value = self.mmu.timer1_value.wrapping_sub(1);
            if underflow {
                if (self.mmu.timer1_ctrl & 0x40) != 0 {
                    self.mmu.timer1_value = self.mmu.timer1_load;
                } else {
                    self.mmu.timer1_value = 0xFFFF_FFFF;
                }
                if (self.mmu.timer1_ctrl & 0x20) != 0 {
                    self.mmu.vic_int_status = self.mmu.vic_int_status | 0x10;
                    self.mmu.update_vic();
                }
            }
        }
    }
}

impl RegisterFile {
    fn sub_flags(&mut self, a: u32, b: u32, r: u32)
        ensures
            final(self)@ == old(self)@.sub_flags(a, b, r),
    {
        self.update_nz(r);
        self.set_flag_c(a >= b);
        self.set_flag_v(((a ^ b) & (a ^ r)) >> 31 != 0);
    }

    fn add_flags(&mut self, a: u32, b: u32, r: u32)
        ensures
            final(self)@ == old(self)@.add_flags(a, b, r),
    {
        self.update_nz(r);
        self.set_flag_c(r < a || r < b);
        self.set_flag_v((!(a ^ b) & (a ^ r)) >> 31 != 0);
    }

    fn thumb_add_flags(&mut self, a: u32, b: u32, r: u32)
        ensures
            final(self)@ == old(self)@.thumb_add_flags(a, b, r),
    {
        self.update_nz(r);
        self.set_flag_c(r < a);
        self.set_flag_v((!(a ^ b) & (a ^ r)) >> 31 != 0);
    }

    fn write_logic(&mut self, rd: usize, r: u32, s: bool)
        ensures
            final(self)@ == old(self)@.write_logic(rd, r, s),
    {
        self.write(rd, r);
        if s {
            self.update_nz(r);
        }
    }

    /// Jumps to `target`, entering Thumb state when bit 0 is set.
    fn interwork(&mut self, target: u32)
        ensures
            final(self)@ == old(self)@.interwork(target),
    {
        if target & 1 != 0 {
            self.set_thumb(true);
            self.set_pc(target & !1u32);
        } else {
            self.set_thumb(false);
            self.set_pc(target);
        }
    }
}

pub(crate) fn ror_exec(x: u32, n: u32) -> (r: u32)
    ensures
        r == ror(x, n),
{
    let k = n % 32;
    if k == 0 { x } else { (x >> k) | (x << (32 - k)) }
}

impl Cpu {
    /// Whether the condition field (bits 31–28) of `instr` holds.
    fn check_condition(&self, instr: u32) -> (r: bool)
        ensures
            r == self@.regs.cond_holds(instr),
    {
        let cond = (instr >> 28) & 0xF;
        let n = self.regs.flag_n();
        let z = self.regs.flag_z();
        let c = self.regs.flag_c();
        let v = self.regs.flag_v();
        if cond == 0x0 { z }
        else if cond == 0x1 { !z }
        else if cond == 0x2 { c }
        else if cond == 0x3 { !c }
        else if cond == 0x4 { n }
        else if cond == 0x5 { !n }
        else if cond == 0x6 { v }
        else if cond == 0x7 { !v }
        else if cond == 0x8 { c && !z }
        else if cond == 0x9 { !c || z }
        else if cond == 0xA { n == v }
        else if cond == 0xB { n != v }
        else if cond == 0xC { !z && (n == v) }
        else if cond == 0xD { z || (n != v) }
        else { true }
    }

    /// The barrel shifter: 0 = LSL, 1 = LSR, 2 = ASR, 3 = ROR.
    fn shift_operand(value: u32, shift_type: u8, shift_amount: u32) -> (r: u32)
        ensures
            r == shift_spec(value, shift_type, shift_amount),
    {
        if shift_amount == 0 {
            return value;
        }
        if shift_type == 0 {
            if shift_amount >= 32 { 0 } else { value << shift_amount }
        } else if shift_type == 1 {
            if shift_amount >= 32 { 0 } else { value >> shift_amount }
        } else if shift_type == 2 {
            if shift_amount >= 32 {
                if value & 0x8000_0000 != 0 { 0xFFFF_FFFF } else { 0 }
            } else if value & 0x8000_0000 != 0 {
                !((!value) >> shift_amount)
            } else {
                value >> shift_amount
            }
        } else if shift_type == 3 {
            ror_exec(value, shift_amount)
        } else {
            value
        }
    }

    /// Register operand 2 with an immediate shift.
    fn decode_register_operand(&self, instr: u32) -> (r: u32)
        ensures
            r == self@.regs.reg_operand(instr),
    {
        let rm = (instr & 0xF) as usize;
        let rm_val = self.regs.read(rm);
        let shift_type = ((instr >> 5) & 0x3) as u8;
        let shift_amount = (instr >> 7) & 0x1F;
        Self::shift_operand(rm_val, shift_type, shift_amount)
    }

    /// ARM data processing (see [`RegView::data_processing`]).
    fn execute_data_processing(&mut self, instr: u32)
        ensures
            final(self)@ == old(self)@.with_regs(old(self)@.regs.data_processing(instr)),
    {
        let opcode = (instr >> 21) & 0xF;
        let set_flags = (instr >> 20) & 1 == 1;
        let rn = ((instr >> 16) & 0xF) as usize;
        let rd = ((instr >> 12) & 0xF) as usize;
        assert((instr >> 8) & 0xF <= 15) by (bit_vector);
        let op2 = if (instr >> 25) & 1 == 1 {
            ror_exec(instr & 0xFF, ((instr >> 8) & 0xF) * 2)
        } else {
            self.decode_register_operand(instr)
        };
        let a = self.regs.read(rn);
        if opcode == 0x0 {
            self.regs.write_logic(rd, a & op2, set_flags);
        } else if opcode == 0x1 {
            self.regs.write_logic(rd, a ^ op2, set_flags);
        } else if opcode == 0x2 {
            let r = a.wrapping_sub(op2);
            self.regs.write(rd, r);
            if set_flags {
                self.regs.sub_flags(a, op2, r);
            }
        } else if opcode == 0x4 {
            let r = a.wrapping_add(op2);
            self.regs.write(rd, r);
            if set_flags {
                self.regs.add_flags(a, op2, r);
            }
        } else if opcode == 0xA {
            self.regs.sub_flags(a, op2, a.wrapping_sub(op2));
        } else if opcode == 0xC {
            self.regs.write_logic(rd, a | op2, set_flags);
        } else if opcode == 0xD {
            self.regs.write_logic(rd, op2, set_flags);
        } else if opcode == 0xE {
            self.regs.write_logic(rd, a & !op2, set_flags);
        } else if opcode == 0xF {
            self.regs.write_logic(rd, !op2, set_flags);
        }
    }

    /// B / BL.
    fn execute_branch(&mut self, instr: u32, pc_at_fetch: u32)
        ensures
            final(self)@ == old(self)@.with_regs(old(self)@.regs.branch(instr, pc_at_fetch)),
    {
        let offset24 = instr & 0x00FF_FFFF;
        let offset = if offset24 & 0x0080_0000 != 0 {
            (offset24 | 0xFF00_0000) << 2
        } else {
            offset24 << 2
        };
        let target = pc_at_fetch.wrapping_add(8).wrapping_add(offset);
        if (instr >> 24) & 1 == 1 {
            self.regs.set_lr(pc_at_fetch.wrapping_add(4));
        }
        self.regs.set_pc(target);
    }

    /// MUL / MLA / UMULL / UMLAL / SMULL / SMLAL.
    fn execute_multiply(&mut self, instr: u32)
        ensures
            final(self)@ == old(self)@.with_regs(old(self)@.regs.multiply(instr)),
    {
        let set_flags = (instr >> 20) & 1 == 1;
        let rs_val = self.regs.read(((instr >> 8) & 0xF) as usize);
        let rm_val = self.regs.read((instr & 0xF) as usize);
        let accumulate = (instr >> 21) & 1 == 1;
        if (instr >> 23) & 1 == 1 {
            let rd_hi = ((instr >> 16) & 0xF) as usize;
            let rd_lo = ((instr >> 12) & 0xF) as usize;
            let product: u64 = if (instr >> 22) & 1 == 1 {
                let a = rm_val as i32 as i64;
                let b = rs_val as i32 as i64;
                assert(-0x4000_0000_0000_0000 <= a * b <= 0x4000_0000_0000_0000) by (nonlinear_arith)
                    requires
                        -0x8000_0000 <= a <= 0x7FFF_FFFF,
                        -0x8000_0000 <= b <= 0x7FFF_FFFF,
                ;
                (a * b) as u64
            } else {
                let a = rm_val as u64;
                let b = rs_val as u64;
                assert(a * b <= 0xFFFF_FFFE_0000_0001) by (nonlinear_arith)
                    requires
                        a <= 0xFFFF_FFFF,
                        b <= 0xFFFF_FFFF,
                ;
                a * b
            };
            let result = if accumulate {
                let hi = self.regs.read(rd_hi) as u64;
                let lo = self.regs.read(rd_lo) as u64;
                product.wrapping_add((hi << 32) | lo)
            } else {
                product
            };
            self.regs.write(rd_lo, result as u32);
            self.regs.write(rd_hi, (result >> 32) as u32);
            if set_flags {
                let n = (result >> 63) & 1 == 1;
                let mut cpsr = self.regs.cpsr;
                cpsr = if n { cpsr | CPSR_N } else { cpsr & !CPSR_N };
                cpsr = if result == 0 { cpsr | CPSR_Z } else { cpsr & !CPSR_Z };
                self.regs.cpsr = cpsr;
            }
        } else {
            let rd = ((instr >> 16) & 0xF) as usize;
            let rn = ((instr >> 12) & 0xF) as usize;
            let result = if accumulate {
                let rn_val = self.regs.read(rn);
                rm_val.wrapping_mul(rs_val).wrapping_add(rn_val)
            } else {
                rm_val.wrapping_mul(rs_val)
            };
            self.regs.write_logic(rd, result, set_flags);
        }
    }

    /// BX Rm.
    fn execute_branch_exchange(&mut self, instr: u32)
        ensures
            final(self)@ == old(self)@.with_regs(old(self)@.regs.branch_exchange(instr)),
    {
        let target = self.regs.read((instr & 0xF) as usize);
        self.regs.interwork(target);
    }

    /// BLX Rm.
    fn execute_blx_register(&mut self, instr: u32, pc_at_fetch: u32)
        ensures
            final(self)@ == old(self)@.with_regs(old(self)@.regs.blx_register(instr, pc_at_fetch)),
    {
        let target = self.regs.read((instr & 0xF) as usize);
        self.regs.set_lr(pc_at_fetch.wrapping_add(4));
        self.regs.interwork(target);
    }
}

pub(crate) fn sext16_exec(h: u16) -> (r: u32)
    ensures
        r == sext16(h),
{
    if h & 0x8000 != 0 { (h as u32) | 0xFFFF_0000 } else { h as u32 }
}

pub(crate) fn sext8_exec(b: u8) -> (r: u32)
    ensures
        r == sext8(b),
{
    if b & 0x80 != 0 { (b as u32) | 0xFFFF_FF00 } else { b as u32 }
}

impl Cpu {
    /// LDRH / STRH / LDRSB / LDRSH.
    fn execute_halfword_transfer(&mut self, instr: u32)
        requires
            old(self).wf(),
        ensures
            final(self)@ == old(self)@.halfword_transfer(instr),
            final(self).wf(),
    {
        let pre_index = (instr >> 24) & 1 == 1;
        let up = (instr >> 23) & 1 == 1;
        let write_back = (instr >> 21) & 1 == 1;
        let load = (instr >> 20) & 1 == 1;
        let is_signed = (instr >> 6) & 1 == 1;
        let is_half = (instr >> 5) & 1 == 1;
        let rn = ((instr >> 16) & 0xF) as usize;
        let rd = ((instr >> 12) & 0xF) as usize;
        let base = self.regs.read(rn);
        let offset = if (instr >> 22) & 1 == 1 {
            (((instr >> 8) & 0xF) << 4) | (instr & 0xF)
        } else {
            self.regs.read((instr & 0xF) as usize)
        };
        let addr_offset = if up { base.wrapping_add(offset) } else { base.wrapping_sub(offset) };
        let addr = if pre_index { addr_offset } else { base };
        if load {
            let val = if is_signed && is_half {
                let h = self.read_mem_u16(addr);
                sext16_exec(h)
            } else if is_signed {
                let b = self.read_mem_u8(addr);
                sext8_exec(b)
            } else {
                self.read_mem_u16(addr) as u32
            };
            self.regs.write(rd, val);
        } else {
            let val = self.regs.read(rd);
            self.write_mem_u16(addr, val as u16);
        }
        if write_back || !pre_index {
            self.regs.write(rn, addr_offset);
        }
    }

    /// SWI / SVC.
    fn execute_swi(&mut self, instr: u32, pc_at_fetch: u32)
        ensures
            final(self)@ == old(self)@.swi(),
    {
        let _ = (instr, pc_at_fetch);
        self.trigger_exception("SWI", MODE_SVC, 0x08, 4);
    }

    /// The high-level BIOS at the SWI vector (see [`CpuView::bios_syscall`]).
    fn handle_bios_syscall(&mut self)
        requires
            old(self).wf(),
        ensures
            final(self)@ == old(self)@.bios_syscall(),
            final(self).wf(),
    {
        reveal(CpuView::bios_syscall);
        let swi_addr = self.regs.lr().wrapping_sub(4);
        let swi_instr = self.read_mem_u32(swi_addr);
        if swi_instr & 0x00FF_FFFF == 4 {
            let ptr = self.regs.read(1);
            let len = self.regs.read(2);
            let ghost start = self@;
            let mut i: u32 = 0;
            while i < len
                invariant
                    self.wf(),
                    i <= len,
                    start.read_bytes(ptr, 0, len) == self@.read_bytes(ptr, i, len),
                decreases len - i,
            {
                let _ = self.read_mem_u8(ptr.wrapping_add(i));
                i = i + 1;
            }
            self.regs.write(0, len);
        }
        let return_pc = self.regs.lr();
        let saved_cpsr = self.regs.spsr_svc();
        self.regs.set_cpsr(saved_cpsr);
        self.regs.set_pc(return_pc);
    }

    /// LDR / STR / LDRB / STRB.
    fn execute_single_data_transfer(&mut self, instr: u32)
        requires
            old(self).wf(),
        ensures
            final(self)@ == old(self)@.single_data_transfer(instr),
            final(self).wf(),
    {
        let pre_index = (instr >> 24) & 1 == 1;
        let up = (instr >> 23) & 1 == 1;
        let byte_transfer = (instr >> 22) & 1 == 1;
        let write_back = (instr >> 21) & 1 == 1;
        let load = (instr >> 20) & 1 == 1;
        let rn = ((instr >> 16) & 0xF) as usize;
        let rd = ((instr >> 12) & 0xF) as usize;
        let offset = if (instr >> 25) & 1 == 1 { self.decode_register_operand(instr) } else { instr & 0xFFF };
        let base = self.regs.read(rn);
        let offset_addr = if up { base.wrapping_add(offset) } else { base.wrapping_sub(offset) };
        let addr = if pre_index { offset_addr } else { base };
        if load {
            let val = if byte_transfer { self.read_mem_u8(addr) as u32 } else { self.read_mem_u32(addr) };
            self.regs.write(rd, val);
        } else {
            let val = self.regs.read(rd);
            if byte_transfer {
                self.write_mem_u8(addr, (val & 0xFF) as u8);
            } else {
                self.write_mem_u32(addr, val);
            }
        }
        if (pre_index && write_back) || !pre_index {
            self.regs.write(rn, offset_addr);
        }
    }

    /// LDM / STM (see [`CpuView::block_data_transfer`]).
    fn execute_block_data_transfer(&mut self, instr: u32)
        requires
            old(self).wf(),
        ensures
            final(self)@ == old(self)@.block_data_transfer(instr),
            final(self).wf(),
    {
        let pre = (instr >> 24) & 1 == 1;
        let up = (instr >> 23) & 1 == 1;
        let write_back = (instr >> 21) & 1 == 1;
        let load = (instr >> 20) & 1 == 1;
        let rn = ((instr >> 16) & 0xF) as usize;
        let reg_list = instr & 0xFFFF;
        let mut count: u32 = 0;
        let mut k: u32 = 0;
        while k < 16
            invariant
                k <= 16,
                count == popcount(reg_list, k as nat),
                count <= k,
            decreases 16 - k,
        {
            if (reg_list >> k) & 1 == 1 {
                count = count + 1;
            }
            k = k + 1;
        }
        let block_size = count * 4;
        let base = self.regs.read(rn);
        let start_addr = if !pre && up {
            base
        } else if pre && up {
            base.wrapping_add(4)
        } else if !pre && !up {
            base.wrapping_sub(block_size).wrapping_add(4)
        } else {
            base.wrapping_sub(block_size)
        };
        let ghost s0 = self@;
        let mut addr = start_addr;
        let mut i: u32 = 0;
        while i < 16
            invariant
                self.wf(),
                i <= 16,
                s0.block_loop(reg_list, load, 0, start_addr) == self@.block_loop(reg_list, load, i, addr),
            decreases 16 - i,
        {
            if reg_list & (1u32 << i) != 0 {
                if load {
                    let val = self.read_mem_u32(addr);
                    self.regs.write(i as usize, val);
                } else {
                    let val = self.regs.read(i as usize);
                    self.write_mem_u32(addr, val);
                }
                addr = addr.wrapping_add(4);
            }
            i = i + 1;
        }
        if write_back {
            let new_base = if up { base.wrapping_add(block_size) } else { base.wrapping_sub(block_size) };
            self.regs.write(rn, new_base);
        }
    }

    /// An unimplemented instruction: takes the Undefined exception.
    fn log_unimplemented(&mut self, category: &str, instr: u32, pc: u32)
        ensures
            final(self)@ == old(self)@.undefined(),
    {
        let _ = (category, instr, pc);
        self.trigger_exception("Undefined Instruction", MODE_UND, 0x04, 4);
    }
}

impl Cpu {
    /// Thumb formats 1 and 2.
    fn thumb_shift_add(&mut self, instr: u16)
        ensures
            final(self)@ == old(self)@.thumb_shift_add(instr),
    {
        let op = (instr >> 11) & 0x3;
        let rd = (instr & 0x7) as usize;
        if op == 3 {
            let rn_val = self.regs.read(((instr >> 3) & 0x7) as usize);
            let operand: u32 = if (instr >> 10) & 1 == 1 {
                ((instr >> 6) & 0x7) as u32
            } else {
                self.regs.read(((instr >> 6) & 0x7) as usize)
            };
            if (instr >> 9) & 1 == 1 {
                let res = rn_val.wrapping_sub(operand);
                self.regs.write(rd, res);
                self.regs.sub_flags(rn_val, operand, res);
            } else {
                let res = rn_val.wrapping_add(operand);
                self.regs.write(rd, res);
                self.regs.thumb_add_flags(rn_val, operand, res);
            }
        } else {
            let rm_val = self.regs.read(((instr >> 3) & 0x7) as usize);
            let res = Self::shift_operand(rm_val, op as u8, ((instr >> 6) & 0x1F) as u32);
            self.regs.write(rd, res);
            self.regs.update_nz(res);
        }
    }

    /// Thumb format 5.
    fn thumb_alu(&mut self, instr: u16, pc_at_fetch: u32)
        ensures
            final(self)@ == old(self)@.thumb_alu(instr),
    {
        let op = (instr >> 6) & 0xF;
        let rd = (instr & 0x7) as usize;
        let a = self.regs.read(rd);
        let b = self.regs.read(((instr >> 3) & 0x7) as usize);
        if op == 0x0 {
            self.regs.write(rd, a & b);
            self.regs.update_nz(a & b);
        } else if op == 0x1 {
            self.regs.write(rd, a ^ b);
            self.regs.update_nz(a ^ b);
        } else if op == 0x2 || op == 0x3 || op == 0x4 {
            let res = Self::shift_operand(a, (op - 2) as u8, b & 0xFF);
            self.regs.write(rd, res);
            self.regs.update_nz(res);
        } else if op == 0x8 {
            self.regs.update_nz(a & b);
        } else if op == 0xA {
            self.regs.sub_flags(a, b, a.wrapping_sub(b));
        } else if op == 0xC {
            self.regs.write(rd, a | b);
            self.regs.update_nz(a | b);
        } else if op == 0xF {
            self.regs.write(rd, !b);
            self.regs.update_nz(!b);
        } else {
            self.log_unimplemented("Thumb ALU", instr as u32, pc_at_fetch);
        }
    }

    /// Thumb format 3.
    fn thumb_imm(&mut self, instr: u16)
        ensures
            final(self)@ == old(self)@.thumb_imm(instr),
    {
        let op = (instr >> 11) & 0x3;
        let rd = ((instr >> 8) & 0x7) as usize;
        let imm: u32 = (instr & 0xFF) as u32;
        let a = self.regs.read(rd);
        if op == 0 {
            self.regs.write(rd, imm);
            self.regs.update_nz(imm);
        } else if op == 1 {
            self.regs.sub_flags(a, imm, a.wrapping_sub(imm));
        } else if op == 2 {
            let res = a.wrapping_add(imm);
            self.regs.write(rd, res);
            self.regs.thumb_add_flags(a, imm, res);
        } else {
            let res = a.wrapping_sub(imm);
            self.regs.write(rd, res);
            self.regs.sub_flags(a, imm, res);
        }
    }

    /// Thumb formats 7 and 8.
    fn thumb_ldst_reg(&mut self, instr: u16)
        requires
            old(self).wf(),
        ensures
            final(self)@ == old(self)@.thumb_ldst_reg(instr),
            final(self).wf(),
    {
        let op = (instr >> 9) & 0x7;
        let rd = (instr & 0x7) as usize;
        let addr = self.regs.read(((instr >> 3) & 0x7) as usize).wrapping_add(
            self.regs.read(((instr >> 6) & 0x7) as usize),
        );
        if op == 0 {
            let v = self.regs.read(rd);
            self.write_mem_u32(addr, v);
        } else if op == 1 {
            let v = (self.regs.read(rd) & 0xFF) as u8;
            self.write_mem_u8(addr, v);
        } else if op == 2 {
            let v = self.read_mem_u32(addr);
            self.regs.write(rd, v);
        } else if op == 3 {
            let v = self.read_mem_u8(addr) as u32;
            self.regs.write(rd, v);
        } else if op == 4 {
            let v = (self.regs.read(rd) & 0xFFFF) as u16;
            self.write_mem_u16(addr, v);
        } else if op == 5 {
            let b = self.read_mem_u8(addr);
            self.regs.write(rd, sext8_exec(b));
        } else if op == 6 {
            let v = self.read_mem_u16(addr) as u32;
            self.regs.write(rd, v);
        } else {
            let h = self.read_mem_u16(addr);
            self.regs.write(rd, sext16_exec(h));
        }
    }

    /// Thumb format 9.
    fn thumb_ldst_imm(&mut self, instr: u16)
        requires
            old(self).wf(),
        ensures
            final(self)@ == old(self)@.thumb_ldst_imm(instr),
            final(self).wf(),
    {
        let imm5: u32 = ((instr >> 6) & 0x1F) as u32;
        let rd = (instr & 0x7) as usize;
        let base = self.regs.read(((instr >> 3) & 0x7) as usize);
        let load = (instr >> 11) & 1 == 1;
        if (instr >> 12) & 1 == 1 {
            let addr = base.wrapping_add(imm5);
            if load {
                let v = self.read_mem_u8(addr) as u32;
                self.regs.write(rd, v);
            } else {
                let v = (self.regs.read(rd) & 0xFF) as u8;
                self.write_mem_u8(addr, v);
            }
        } else {
            let addr = base.wrapping_add(imm5 << 2);
            if load {
                let v = self.read_mem_u32(addr);
                self.regs.write(rd, v);
            } else {
                let v = self.regs.read(rd);
                self.write_mem_u32(addr, v);
            }
        }
    }

    /// Thumb format 10.
    fn thumb_ldst_half(&mut self, instr: u16)
        requires
            old(self).wf(),
        ensures
            final(self)@ == old(self)@.thumb_ldst_half(instr),
            final(self).wf(),
    {
        let imm5: u32 = ((instr >> 6) & 0x1F) as u32;
        let rd = (instr & 0x7) as usize;
        let addr = self.regs.read(((instr >> 3) & 0x7) as usize).wrapping_add(imm5 << 1);
        if (instr >> 11) & 1 == 1 {
            let v = self.read_mem_u16(addr) as u32;
            self.regs.write(rd, v);
        } else {
            let v = (self.regs.read(rd) & 0xFFFF) as u16;
            self.write_mem_u16(addr, v);
        }
    }

    /// Thumb format 11.
    fn thumb_ldst_sp(&mut self, instr: u16)
        requires
            old(self).wf(),
        ensures
            final(self)@ == old(self)@.thumb_ldst_sp(instr),
            final(self).wf(),
    {
        let rd = ((instr >> 8) & 0x7) as usize;
        let imm8: u32 = (instr & 0xFF) as u32;
        let addr = self.regs.read(13).wrapping_add(imm8 << 2);
        if (instr >> 11) & 1 == 1 {
            let v = self.read_mem_u32(addr);
            self.regs.write(rd, v);
        } else {
            let v = self.regs.read(rd);
            self.write_mem_u32(addr, v);
        }
    }

    /// Thumb format 14 (PUSH / POP via the ARM block transfer).
    fn thumb_push_pop(&mut self, instr: u16)
        requires
            old(self).wf(),
        ensures
            final(self)@ == old(self)@.thumb_push_pop(instr),
            final(self).wf(),
    {
        let list: u32 = (instr & 0xFF) as u32;
        let r_bit = (instr >> 8) & 1 == 1;
        if (instr >> 11) & 1 == 1 {
            let l = if r_bit { list | 0x8000 } else { list };
            self.execute_block_data_transfer(0xE8BD_0000 | l);
        } else {
            let l = if r_bit { list | 0x4000 } else { list };
            self.execute_block_data_transfer(0xE92D_0000 | l);
        }
    }

    /// Thumb format 16.
    fn thumb_cond_branch(&mut self, instr: u16, pc_at_fetch: u32)
        ensures
            final(self)@ == old(self)@.thumb_cond_branch(instr, pc_at_fetch),
    {
        let cond: u32 = ((instr >> 8) & 0xF) as u32;
        if cond == 0xF {
            let swi_num: u32 = (instr & 0xFF) as u32;
            self.execute_swi(0xEF00_0000 | swi_num, pc_at_fetch);
            return;
        }
        if self.check_condition(cond << 28) {
            let imm8: u32 = (instr & 0xFF) as u32;
            let offset = if imm8 & 0x80 != 0 { (imm8 | 0xFFFF_FF00) << 1 } else { imm8 << 1 };
            let target = pc_at_fetch.wrapping_add(4).wrapping_add(offset);
            self.regs.set_pc(target);
        }
    }

    /// Decodes and executes one 16-bit Thumb instruction; PC reads as the
    /// fetch address + 4.
    fn execute_thumb_instruction(&mut self, instr: u16, pc_at_fetch: u32)
        requires
            old(self).wf(),
        ensures
            final(self)@ == old(self)@.thumb(instr, pc_at_fetch),
            final(self).wf(),
    {
        reveal(CpuView::thumb);
        let top = instr >> 10;
        let off11: u32 = (instr & 0x7FF) as u32;
        if top <= 7 {
            self.thumb_shift_add(instr);
        } else if top == 16 {
            self.thumb_alu(instr, pc_at_fetch);
        } else if 8 <= top && top <= 15 {
            self.thumb_imm(instr);
        } else if 20 <= top && top <= 23 {
            self.thumb_ldst_reg(instr);
        } else if 24 <= top && top <= 31 {
            self.thumb_ldst_imm(instr);
        } else if 32 <= top && top <= 35 {
            self.thumb_ldst_half(instr);
        } else if 36 <= top && top <= 39 {
            self.thumb_ldst_sp(instr);
        } else if 44 <= top && top <= 47 {
            self.thumb_push_pop(instr);
        } else if 52 <= top && top <= 55 {
            self.thumb_cond_branch(instr, pc_at_fetch);
        } else if top == 56 || top == 57 {
            let offset = if off11 & 0x400 != 0 { (off11 | 0xFFFF_F800) << 1 } else { off11 << 1 };
            self.regs.set_pc(pc_at_fetch.wrapping_add(4).wrapping_add(offset));
        } else if top == 60 || top == 61 {
            let offset = if off11 & 0x400 != 0 { (off11 | 0xFFFF_F800) << 12 } else { off11 << 12 };
            self.regs.set_lr(pc_at_fetch.wrapping_add(4).wrapping_add(offset));
        } else if top == 62 || top == 63 {
            let target = self.regs.lr().wrapping_add(off11 << 1);
            self.regs.set_lr(pc_at_fetch.wrapping_add(2) | 1);
            self.regs.set_pc(target);
        } else {
            self.log_unimplemented("Thumb", instr as u32, pc_at_fetch);
        }
    }

    /// MCR / MRC (see [`CpuView::coproc_transfer`]).
    fn execute_coproc_transfer(&mut self, instr: u32, pc_at_fetch: u32)
        ensures
            final(self)@ == old(self)@.coproc_transfer(instr),
    {
        let opc1 = ((instr >> 21) & 0x7) as usize;
        let crn = ((instr >> 16) & 0xF) as usize;
        let rd = ((instr >> 12) & 0xF) as usize;
        let coproc = (instr >> 8) & 0xF;
        let opc2 = ((instr >> 5) & 0x7) as usize;
        let crm = (instr & 0xF) as usize;
        if coproc == 15 || coproc == 10 {
            if (instr >> 20) & 1 == 1 {
                let val = self.cp15.read_register(crn, crm, opc1, opc2);
                self.regs.write(rd, val);
            } else {
                let val = self.regs.read(rd);
                self.cp15.write_register(crn, crm, opc1, opc2, val);
            }
        } else {
            self.log_unimplemented("Coprocessor Transfer", instr, pc_at_fetch);
        }
    }

    /// Decodes and executes an ARM instruction whose condition holds.
    fn execute_arm(&mut self, instr: u32, pc_at_fetch: u32)
        requires
            old(self).wf(),
        ensures
            final(self)@ == old(self)@.execute_arm(instr, pc_at_fetch),
            final(self).wf(),
    {
        reveal(CpuView::execute_arm);
        let bits = (instr >> 25) & 0x7;
        if (instr >> 24) & 0xF == 0xE && (instr >> 4) & 1 == 1 {
            self.execute_coproc_transfer(instr, pc_at_fetch);
        } else if bits == 0 {
            if instr & 0x0F00_00F0 == 0x0000_0090 {
                self.execute_multiply(instr);
            } else if instr & 0x0FFF_FFF0 == 0x012F_FF30 {
                self.execute_blx_register(instr, pc_at_fetch);
            } else if instr & 0x0FFF_FFF0 == 0x012F_FF10 {
                self.execute_branch_exchange(instr);
            } else if instr & 0x90 == 0x90 && instr & 0x0E00_0000 == 0 {
                self.execute_halfword_transfer(instr);
            } else {
                self.execute_data_processing(instr);
            }
        } else if bits == 1 {
            self.execute_data_processing(instr);
        } else if bits == 2 || bits == 3 {
            self.execute_single_data_transfer(instr);
        } else if bits == 4 {
            self.execute_block_data_transfer(instr);
        } else if bits == 5 {
            self.execute_branch(instr, pc_at_fetch);
        } else if bits == 7 && (instr >> 24) & 1 == 1 {
            self.execute_swi(instr, pc_at_fetch);
        } else {
            self.log_unimplemented("Coprocessor", instr, pc_at_fetch);
        }
    }

    /// One fetch–decode–execute cycle (see [`CpuView::step`]): a pending
    /// unmasked IRQ is taken first, the SWI vector in Supervisor mode runs
    /// the high-level BIOS, otherwise one ARM or Thumb instruction runs.
    /// Returns false only when the CPU is halted.
    pub fn step(&mut self) -> (r: bool)
        requires
            old(self).wf(),
        ensures
            r == old(self)@.step().0,
            final(self)@ == old(self)@.step().1,
            final(self).wf(),
    {
        if self.halted {
            return false;
        }
        if self.mmu.irq_pending {
            let cpsr = self.regs.cpsr();
            if (cpsr & 0x80) == 0 {
                self.trigger_exception("IRQ", MODE_IRQ, 0x18, 4);
                self.tick_sp804_timer();
                return true;
            }
        }
        self.exception_raised = false;
        if self.regs.pc() == SWI_VECTOR && self.regs.cpu_mode() == MODE_SVC {
            self.handle_bios_syscall();
            self.tick_sp804_timer();
            return true;
        }
        let instr = self.fetch();
        let pc_at_fetch = self.regs.pc();
        self.advance_pc();
        if self.regs.is_thumb() {
            self.regs.pipeline_offset = 2;
            self.execute_thumb_instruction(instr as u16, pc_at_fetch);
            self.regs.pipeline_offset = 0;
            self.tick_sp804_timer();
            return true;
        }
        if !self.check_condition(instr) {
            self.tick_sp804_timer();
            return true;
        }
        self.regs.pipeline_offset = 4;
        self.execute_arm(instr, pc_at_fetch);
        self.regs.pipeline_offset = 0;
        self.tick_sp804_timer();
        true
    }
}
} // verus!
