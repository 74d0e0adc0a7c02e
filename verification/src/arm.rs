//! Reference semantics of the emulated ARM core, as spec functions over
//! the abstract CPU state. The executable core in `cpu` is proved to follow
//! them step by step.
use vstd::prelude::*;
use crate::cp15::Cp15;
use crate::memory::MmuView;
use crate::cpu::{RegView, with_bit, CPSR_N, CPSR_Z, CPSR_C, CPSR_V, CPSR_T, CPSR_I, CPSR_F, CPSR_MODE_MASK};
use crate::cpu::{MODE_SVC, MODE_IRQ, MODE_ABT, MODE_UND, MODE_FIQ, SWI_VECTOR};

verus! {

/// Abstract value of a [`Cpu`].
#[verifier::ext_equal]
pub struct CpuView {
    pub regs: RegView,
    pub mmu: MmuView,
    pub cp15: Cp15,
    pub halted: bool,
    pub exception_raised: bool,
}

// ── Pure helpers ──────────────────────────────────────────────────────

/// Rotate right by `n` mod 32.
pub open spec fn ror(x: u32, n: u32) -> u32 {
    let k = n % 32;
    if k == 0 { x } else { (x >> k) | (x << ((32 - k) as u32)) }
}

/// Arithmetic shift right by `n` < 32.
pub open spec fn asr(x: u32, n: u32) -> u32 {
    if x & 0x8000_0000 != 0 { !((!x) >> n) } else { x >> n }
}

/// The barrel shifter: 0 = LSL, 1 = LSR, 2 = ASR, 3 = ROR; a zero amount
/// leaves the value as it is.
pub open spec fn shift_spec(value: u32, shift_type: u8, amount: u32) -> u32 {
    if amount == 0 {
        value
    } else if shift_type == 0 {
        if amount >= 32 { 0 } else { value << amount }
    } else if shift_type == 1 {
        if amount >= 32 { 0 } else { value >> amount }
    } else if shift_type == 2 {
        if amount >= 32 {
            if value & 0x8000_0000 != 0 { 0xFFFF_FFFF } else { 0 }
        } else {
            asr(value, amount)
        }
    } else if shift_type == 3 {
        ror(value, amount)
    } else {
        value
    }
}

/// Sign extension of a halfword to 32 bits.
pub open spec fn sext16(h: u16) -> u32 {
    if h & 0x8000 != 0 { (h as u32) | 0xFFFF_0000 } else { h as u32 }
}

/// Sign extension of a byte to 32 bits.
pub open spec fn sext8(b: u8) -> u32 {
    if b & 0x80 != 0 { (b as u32) | 0xFFFF_FF00 } else { b as u32 }
}

/// Number of set bits among the low `n` bits of `x`.
pub open spec fn popcount(x: u32, n: nat) -> nat
    decreases n,
{
    if n == 0 {
        0
    } else {
        popcount(x, (n - 1) as nat) + (if (x >> ((n - 1) as u32)) & 1 == 1 { 1nat } else { 0nat })
    }
}

/// Signed-overflow bit of `a - b = r`.
pub open spec fn sub_overflow(a: u32, b: u32, r: u32) -> bool {
    ((a ^ b) & (a ^ r)) >> 31 != 0
}

/// Signed-overflow bit of `a + b = r`.
pub open spec fn add_overflow(a: u32, b: u32, r: u32) -> bool {
    ((!(a ^ b)) & (a ^ r)) >> 31 != 0
}

impl RegView {
    /// Whether the condition field of `instr` (bits 31–28) holds.
    pub open spec fn cond_holds(self, instr: u32) -> bool {
        let cond = (instr >> 28) & 0xF;
        let n = self.flag_n();
        let z = self.flag_z();
        let c = self.flag_c();
        let v = self.flag_v();
        if cond == 0x0 { z }
        else if cond == 0x1 { !z }
        else if cond == 0x2 { c }
        else if cond == 0x3 { !c }
        else if cond == 0x4 { n }
        else if cond == 0x5 { !n }
        else if cond == 0x6 { v }
        else if cond == 0x7 { !v }
        else if cond == 0x8 { c && !z }
        else if cond == 0x9 { !c || z }
        else if cond == 0xA { n == v }
        else if cond == 0xB { n != v }
        else if cond == 0xC { !z && (n == v) }
        else if cond == 0xD { z || (n != v) }
        else { true }
    }

    /// Register operand 2: Rm shifted by an immediate amount.
    pub open spec fn reg_operand(self, instr: u32) -> u32 {
        shift_spec(
            self.read((instr & 0xF) as usize),
            ((instr >> 5) & 0x3) as u8,
            (instr >> 7) & 0x1F,
        )
    }

    /// N, Z, C (no borrow) and V after `a - b = r`.
    pub open spec fn sub_flags(self, a: u32, b: u32, r: u32) -> RegView {
        self.update_nz(r).with_cpsr_bit(CPSR_C, a >= b).with_cpsr_bit(CPSR_V, sub_overflow(a, b, r))
    }

    /// N, Z, C and V after `a + b = r` in ARM state.
    pub open spec fn add_flags(self, a: u32, b: u32, r: u32) -> RegView {
        self.update_nz(r).with_cpsr_bit(CPSR_C, r < a || r < b).with_cpsr_bit(CPSR_V, add_overflow(a, b, r))
    }

    /// N, Z, C and V after `a + b = r` in Thumb state.
    pub open spec fn thumb_add_flags(self, a: u32, b: u32, r: u32) -> RegView {
        self.update_nz(r).with_cpsr_bit(CPSR_C, r < a).with_cpsr_bit(CPSR_V, add_overflow(a, b, r))
    }

    /// Writes `r` to `rd` and, when `s` is set, updates N and Z.
    pub open spec fn write_logic(self, rd: usize, r: u32, s: bool) -> RegView {
        let w = self.write(rd, r);
        if s { w.update_nz(r) } else { w }
    }

    /// An ARM data-processing instruction (AND, EOR, SUB, ADD, CMP, ORR,
    /// MOV, BIC, MVN; the other opcodes do nothing).
    pub open spec fn data_processing(self, instr: u32) -> RegView {
        let opcode = (instr >> 21) & 0xF;
        let s = (instr >> 20) & 1 == 1;
        let rn = ((instr >> 16) & 0xF) as usize;
        let rd = ((instr >> 12) & 0xF) as usize;
        let op2 = if (instr >> 25) & 1 == 1 {
            ror(instr & 0xFF, (((instr >> 8) & 0xF) * 2) as u32)
        } else {
            self.reg_operand(instr)
        };
        let a = self.read(rn);
        if opcode == 0x0 {
            self.write_logic(rd, a & op2, s)
        } else if opcode == 0x1 {
            self.write_logic(rd, a ^ op2, s)
        } else if opcode == 0x2 {
            let r = a.wrapping_sub(op2);
            let w = self.write(rd, r);
            if s { w.sub_flags(a, op2, r) } else { w }
        } else if opcode == 0x4 {
            let r = a.wrapping_add(op2);
            let w = self.write(rd, r);
            if s { w.add_flags(a, op2, r) } else { w }
        } else if opcode == 0xA {
            self.sub_flags(a, op2, a.wrapping_sub(op2))
        } else if opcode == 0xC {
            self.write_logic(rd, a | op2, s)
        } else if opcode == 0xD {
            self.write_logic(rd, op2, s)
        } else if opcode == 0xE {
            self.write_logic(rd, a & !op2, s)
        } else if opcode == 0xF {
            self.write_logic(rd, !op2, s)
        } else {
            self
        }
    }

    /// B / BL: PC-relative branch (PC reads as fetch address + 8); BL
    /// saves the next instruction's address in LR.
    pub open spec fn branch(self, instr: u32, pc_at_fetch: u32) -> RegView {
        let offset24 = instr & 0x00FF_FFFF;
        let offset = if offset24 & 0x0080_0000 != 0 {
            (offset24 | 0xFF00_0000) << 2
        } else {
            offset24 << 2
        };
        let target = pc_at_fetch.wrapping_add(8).wrapping_add(offset);
        let r = if (instr >> 24) & 1 == 1 { self.set_reg(14, pc_at_fetch.wrapping_add(4)) } else { self };
        r.set_reg(15, target)
    }

    /// The 64-bit product of a long multiply, before accumulation.
    pub open spec fn long_product(rm: u32, rs: u32, signed: bool) -> u64 {
        if signed {
            ((rm as i32 as int) * (rs as i32 as int)) as u64
        } else {
            ((rm as int) * (rs as int)) as u64
        }
    }

    /// MUL, MLA, UMULL, UMLAL, SMULL, SMLAL.
    pub open spec fn multiply(self, instr: u32) -> RegView {
        let s = (instr >> 20) & 1 == 1;
        let rs_val = self.read(((instr >> 8) & 0xF) as usize);
        let rm_val = self.read((instr & 0xF) as usize);
        let acc = (instr >> 21) & 1 == 1;
        if (instr >> 23) & 1 == 1 {
            let rd_hi = ((instr >> 16) & 0xF) as usize;
            let rd_lo = ((instr >> 12) & 0xF) as usize;
            let p = RegView::long_product(rm_val, rs_val, (instr >> 22) & 1 == 1);
            let result = if acc {
                p.wrapping_add(((self.read(rd_hi) as u64) << 32) | (self.read(rd_lo) as u64))
            } else {
                p
            };
            let w = self.write(rd_lo, result as u32).write(rd_hi, (result >> 32) as u32);
            if s {
                RegView {
                    cpsr: with_bit(with_bit(w.cpsr, CPSR_N, (result >> 63) & 1 == 1), CPSR_Z, result == 0),
                    ..w
                }
            } else {
                w
            }
        } else {
            let rd = ((instr >> 16) & 0xF) as usize;
            let rn = ((instr >> 12) & 0xF) as usize;
            let result = if acc {
                rm_val.wrapping_mul(rs_val).wrapping_add(self.read(rn))
            } else {
                rm_val.wrapping_mul(rs_val)
            };
            self.write_logic(rd, result, s)
        }
    }

    /// Jump to `target`, entering Thumb state when its bit 0 is set.
    pub open spec fn interwork(self, target: u32) -> RegView {
        if target & 1 != 0 {
            self.with_cpsr_bit(CPSR_T, true).set_reg(15, target & !1u32)
        } else {
            self.with_cpsr_bit(CPSR_T, false).set_reg(15, target)
        }
    }

    /// BX Rm.
    pub open spec fn branch_exchange(self, instr: u32) -> RegView {
        self.interwork(self.read((instr & 0xF) as usize))
    }

    /// BLX Rm: as BX, saving the next instruction's address in LR.
    pub open spec fn blx_register(self, instr: u32, pc_at_fetch: u32) -> RegView {
        let target = self.read((instr & 0xF) as usize);
        self.set_reg(14, pc_at_fetch.wrapping_add(4)).interwork(target)
    }
}


/// Vector address of an exception at `vector_offset` (high vectors when
/// SCTLR.V is set).
pub open spec fn vector_address(cp15: Cp15, vector_offset: u32) -> u32 {
    let base: u32 = if cp15.c1_sctlr & 0x2000 != 0 { 0xFFFF_0000 } else { 0 };
    (base + vector_offset) as u32
}

impl CpuView {
    pub open spec fn wf(self) -> bool {
        self.mmu.wf()
    }

    pub open spec fn with_regs(self, r: RegView) -> CpuView {
        CpuView { regs: r, ..self }
    }

    pub open spec fn with_mmu(self, m: MmuView) -> CpuView {
        CpuView { mmu: m, ..self }
    }

    /// Exception entry: CPSR saved to the target mode's SPSR, return
    /// address (PC operand value minus `pc_adjustment`) to its LR, switch
    /// to the target mode in ARM state with IRQs (and for FIQ also FIQs)
    /// masked, then jump to the vector.
    pub open spec fn trigger_exception(self, target_mode: u32, vector_offset: u32, pc_adjustment: u32) -> CpuView {
        let cpsr = self.regs.cpsr;
        let r1 = self.regs.set_spsr(target_mode, cpsr);
        let ret = r1.read(15).wrapping_sub(pc_adjustment);
        let r2 = r1.set_lr_banked(target_mode, ret);
        let c1 = (cpsr & !CPSR_MODE_MASK) | target_mode | CPSR_I;
        let c2 = if target_mode == MODE_FIQ { c1 | CPSR_F } else { c1 };
        let c3 = c2 & !CPSR_T;
        let r3 = r2.set_cpsr(c3).set_reg(15, vector_address(self.cp15, vector_offset));
        CpuView { regs: r3, exception_raised: true, ..self }
    }

    /// A data abort taken during an address translation.
    pub open spec fn data_abort(self) -> CpuView {
        self.trigger_exception(MODE_ABT, 0x10, 8)
    }

    /// Short-descriptor translation of `vaddr` (identity when SCTLR.M is
    /// clear): 1 MB sections and coarse tables of 4 KB small pages; any
    /// other descriptor raises a data abort and leaves `vaddr` unchanged.
    pub open spec fn translate(self, vaddr: u32) -> (u32, CpuView) {
        if self.cp15.c1_sctlr & 1 == 0 {
            (vaddr, self)
        } else {
            let desc_addr = (self.cp15.c2_ttbr0 & 0xFFFF_C000) | ((vaddr >> 20) << 2);
            let (desc, m1) = self.mmu.load32(desc_addr);
            let s1 = self.with_mmu(m1);
            if desc & 3 == 2 {
                ((desc & 0xFFF0_0000) | (vaddr & 0x000F_FFFF), s1)
            } else if desc & 3 == 1 {
                let l2_addr = (desc & 0xFFFF_FC00) | (((vaddr >> 12) & 0xFF) << 2);
                let (l2, m2) = m1.load32(l2_addr);
                let s2 = s1.with_mmu(m2);
                if l2 & 3 == 2 {
                    ((l2 & 0xFFFF_F000) | (vaddr & 0x0000_0FFF), s2)
                } else {
                    (vaddr, s2.data_abort())
                }
            } else {
                (vaddr, s1.data_abort())
            }
        }
    }

    pub open spec fn read_mem8(self, vaddr: u32) -> (u8, CpuView) {
        let (p, s1) = self.translate(vaddr);
        if s1.exception_raised {
            (0, s1)
        } else {
            let (b, m) = s1.mmu.load8(p);
            (b, s1.with_mmu(m))
        }
    }

    pub open spec fn read_mem16(self, vaddr: u32) -> (u16, CpuView) {
        let (p, s1) = self.translate(vaddr);
        if s1.exception_raised {
            (0, s1)
        } else {
            let (b, m) = s1.mmu.load16(p);
            (b, s1.with_mmu(m))
        }
    }

    pub open spec fn read_mem32(self, vaddr: u32) -> (u32, CpuView) {
        let (p, s1) = self.translate(vaddr);
        if s1.exception_raised {
            (0, s1)
        } else {
            let (b, m) = s1.mmu.load32(p);
            (b, s1.with_mmu(m))
        }
    }

    pub open spec fn write_mem8(self, vaddr: u32, val: u8) -> CpuView {
        let (p, s1) = self.translate(vaddr);
        if s1.exception_raised { s1 } else { s1.with_mmu(s1.mmu.store8(p, val)) }
    }

    pub open spec fn write_mem16(self, vaddr: u32, val: u16) -> CpuView {
        let (p, s1) = self.translate(vaddr);
        if s1.exception_raised { s1 } else { s1.with_mmu(s1.mmu.store16(p, val)) }
    }

    pub open spec fn write_mem32(self, vaddr: u32, val: u32) -> CpuView {
        let (p, s1) = self.translate(vaddr);
        if s1.exception_raised { s1 } else { s1.with_mmu(s1.mmu.store32(p, val)) }
    }

    /// The instruction at PC: a halfword in Thumb state, a word in ARM state.
    #[verifier::opaque]
    pub open spec fn fetch(self) -> (u32, CpuView) {
        if self.regs.thumb() {
            let (h, s1) = self.read_mem16(self.regs.pc());
            (h as u32, s1)
        } else {
            self.read_mem32(self.regs.pc())
        }
    }

    /// PC advanced by the instruction width (2 in Thumb, 4 in ARM).
    pub open spec fn advance_pc(self) -> CpuView {
        let step: u32 = if self.regs.thumb() { 2 } else { 4 };
        self.with_regs(self.regs.set_reg(15, self.regs.pc().wrapping_add(step)))
    }

    /// One tick of SP804 Timer1: when enabled it counts down; on underflow
    /// it reloads (periodic) or wraps (free-running) and, when its
    /// interrupt is enabled, raises VIC line 4.
    #[verifier::opaque]
    pub open spec fn tick_timer(self) -> CpuView {
        let m = self.mmu;
        if m.timer1_ctrl & 0x80 == 0 {
            self
        } else if m.timer1_value != 0 {
            self.with_mmu(MmuView { timer1_value: (m.timer1_value - 1) as u32, ..m })
        } else {
            let reloaded = if m.timer1_ctrl & 0x40 != 0 { m.timer1_load } else { 0xFFFF_FFFF };
            let m1 = MmuView { timer1_value: reloaded, ..m };
            if m.timer1_ctrl & 0x20 != 0 {
                self.with_mmu(MmuView { vic_int_status: m1.vic_int_status | 0x10, ..m1 }.vic_updated())
            } else {
                self.with_mmu(m1)
            }
        }
    }

    /// LDRH / STRH / LDRSB / LDRSH.
    pub open spec fn halfword_transfer(self, instr: u32) -> CpuView {
        let pre = (instr >> 24) & 1 == 1;
        let up = (instr >> 23) & 1 == 1;
        let wb = (instr >> 21) & 1 == 1;
        let load = (instr >> 20) & 1 == 1;
        let signed = (instr >> 6) & 1 == 1;
        let half = (instr >> 5) & 1 == 1;
        let rn = ((instr >> 16) & 0xF) as usize;
        let rd = ((instr >> 12) & 0xF) as usize;
        let base = self.regs.read(rn);
        let offset = if (instr >> 22) & 1 == 1 {
            (((instr >> 8) & 0xF) << 4) | (instr & 0xF)
        } else {
            self.regs.read((instr & 0xF) as usize)
        };
        let addr_offset = if up { base.wrapping_add(offset) } else { base.wrapping_sub(offset) };
        let addr = if pre { addr_offset } else { base };
        let s1 = if load {
            if signed && half {
                let (h, t) = self.read_mem16(addr);
                t.with_regs(t.regs.write(rd, sext16(h)))
            } else if signed {
                let (b, t) = self.read_mem8(addr);
                t.with_regs(t.regs.write(rd, sext8(b)))
            } else {
                let (h, t) = self.read_mem16(addr);
                t.with_regs(t.regs.write(rd, h as u32))
            }
        } else {
            self.write_mem16(addr, self.regs.read(rd) as u16)
        };
        if wb || !pre { s1.with_regs(s1.regs.write(rn, addr_offset)) } else { s1 }
    }

    /// LDR / STR / LDRB / STRB with immediate or shifted-register offset.
    pub open spec fn single_data_transfer(self, instr: u32) -> CpuView {
        let pre = (instr >> 24) & 1 == 1;
        let up = (instr >> 23) & 1 == 1;
        let byte = (instr >> 22) & 1 == 1;
        let wb = (instr >> 21) & 1 == 1;
        let load = (instr >> 20) & 1 == 1;
        let rn = ((instr >> 16) & 0xF) as usize;
        let rd = ((instr >> 12) & 0xF) as usize;
        let offset = if (instr >> 25) & 1 == 1 { self.regs.reg_operand(instr) } else { instr & 0xFFF };
        let base = self.regs.read(rn);
        let offset_addr = if up { base.wrapping_add(offset) } else { base.wrapping_sub(offset) };
        let addr = if pre { offset_addr } else { base };
        let s1 = if load {
            if byte {
                let (b, t) = self.read_mem8(addr);
                t.with_regs(t.regs.write(rd, b as u32))
            } else {
                let (w, t) = self.read_mem32(addr);
                t.with_regs(t.regs.write(rd, w))
            }
        } else {
            let val = self.regs.read(rd);
            if byte { self.write_mem8(addr, (val & 0xFF) as u8) } else { self.write_mem32(addr, val) }
        };
        if (pre && wb) || !pre { s1.with_regs(s1.regs.write(rn, offset_addr)) } else { s1 }
    }

    /// The register transfers of LDM/STM for list bits `i..16`, lowest
    /// register at the lowest address.
    pub open spec fn block_loop(self, reg_list: u32, load: bool, i: u32, addr: u32) -> CpuView
        decreases 16 - i,
    {
        if i >= 16 {
            self
        } else if reg_list & (1u32 << i) != 0 {
            let s1 = if load {
                let (v, t) = self.read_mem32(addr);
                t.with_regs(t.regs.write(i as usize, v))
            } else {
                self.write_mem32(addr, self.regs.read(i as usize))
            };
            s1.block_loop(reg_list, load, (i + 1) as u32, addr.wrapping_add(4))
        } else {
            self.block_loop(reg_list, load, (i + 1) as u32, addr)
        }
    }

    /// LDM / STM in the IA, IB, DA and DB addressing modes with optional
    /// base write-back.
    pub open spec fn block_data_transfer(self, instr: u32) -> CpuView {
        let pre = (instr >> 24) & 1 == 1;
        let up = (instr >> 23) & 1 == 1;
        let wb = (instr >> 21) & 1 == 1;
        let load = (instr >> 20) & 1 == 1;
        let rn = ((instr >> 16) & 0xF) as usize;
        let reg_list = instr & 0xFFFF;
        let block_size = (popcount(reg_list, 16) * 4) as u32;
        let base = self.regs.read(rn);
        let start = if !pre && up {
            base
        } else if pre && up {
            base.wrapping_add(4)
        } else if !pre && !up {
            base.wrapping_sub(block_size).wrapping_add(4)
        } else {
            base.wrapping_sub(block_size)
        };
        let s1 = self.block_loop(reg_list, load, 0, start);
        if wb {
            let nb = if up { base.wrapping_add(block_size) } else { base.wrapping_sub(block_size) };
            s1.with_regs(s1.regs.write(rn, nb))
        } else {
            s1
        }
    }

    /// SWI / SVC: Supervisor exception through vector 0x08.
    pub open spec fn swi(self) -> CpuView {
        self.trigger_exception(MODE_SVC, 0x08, 4)
    }

    /// An unimplemented instruction: Undefined exception through 0x04.
    pub open spec fn undefined(self) -> CpuView {
        self.trigger_exception(MODE_UND, 0x04, 4)
    }

    /// State after the byte loads of `sys_write` (values discarded).
    pub open spec fn read_bytes(self, ptr: u32, i: u32, len: u32) -> CpuView
        decreases len - i,
    {
        if i >= len {
            self
        } else {
            self.read_mem8(ptr.wrapping_add(i)).1.read_bytes(ptr, (i + 1) as u32, len)
        }
    }

    /// The high-level BIOS at the SWI vector: syscall 4 (`sys_write`)
    /// reads its buffer and returns the byte count in R0; every syscall
    /// returns as `MOVS PC, LR` (CPSR from SPSR_svc, PC from the LR of
    /// Supervisor mode).
    #[verifier::opaque]
    pub open spec fn bios_syscall(self) -> CpuView {
        let (swi_instr, s1) = self.read_mem32(self.regs.lr().wrapping_sub(4));
        let s2 = if swi_instr & 0x00FF_FFFF == 4 {
            let len = s1.regs.read(2);
            let t = s1.read_bytes(s1.regs.read(1), 0, len);
            t.with_regs(t.regs.write(0, len))
        } else {
            s1
        };
        let ret = s2.regs.lr();
        let r = s2.regs.set_cpsr(s2.regs.spsr_svc);
        s2.with_regs(r.set_reg(15, ret))
    }
}

/// Sign-extends the low `bits` bits of `x`.
pub open spec fn sign_extend(x: u32, sign_bit: u32, fill: u32) -> u32 {
    if x & sign_bit != 0 { x | fill } else { x }
}

impl CpuView {
    /// Thumb formats 1 and 2: shift by immediate; add/subtract.
    pub open spec fn thumb_shift_add(self, instr: u16) -> CpuView {
        let r = self.regs;
        let op = (instr >> 11) & 0x3;
        let rd = (instr & 0x7) as usize;
        if op == 3 {
            let rn_val = r.read(((instr >> 3) & 0x7) as usize);
            let operand: u32 = if (instr >> 10) & 1 == 1 {
                ((instr >> 6) & 0x7) as u32
            } else {
                r.read(((instr >> 6) & 0x7) as usize)
            };
            if (instr >> 9) & 1 == 1 {
                let res = rn_val.wrapping_sub(operand);
                self.with_regs(r.write(rd, res).sub_flags(rn_val, operand, res))
            } else {
                let res = rn_val.wrapping_add(operand);
                self.with_regs(r.write(rd, res).thumb_add_flags(rn_val, operand, res))
            }
        } else {
            let res = shift_spec(r.read(((instr >> 3) & 0x7) as usize), op as u8, ((instr >> 6) & 0x1F) as u32);
            self.with_regs(r.write(rd, res).update_nz(res))
        }
    }

    /// Thumb format 5: register ALU operations.
    pub open spec fn thumb_alu(self, instr: u16) -> CpuView {
        let r = self.regs;
        let op = (instr >> 6) & 0xF;
        let rd = (instr & 0x7) as usize;
        let a = r.read(rd);
        let b = r.read(((instr >> 3) & 0x7) as usize);
        if op == 0x0 {
            self.with_regs(r.write(rd, a & b).update_nz(a & b))
        } else if op == 0x1 {
            self.with_regs(r.write(rd, a ^ b).update_nz(a ^ b))
        } else if op == 0x2 {
            let res = shift_spec(a, 0, b & 0xFF);
            self.with_regs(r.write(rd, res).update_nz(res))
        } else if op == 0x3 {
            let res = shift_spec(a, 1, b & 0xFF);
            self.with_regs(r.write(rd, res).update_nz(res))
        } else if op == 0x4 {
            let res = shift_spec(a, 2, b & 0xFF);
            self.with_regs(r.write(rd, res).update_nz(res))
        } else if op == 0x8 {
            self.with_regs(r.update_nz(a & b))
        } else if op == 0xA {
            self.with_regs(r.sub_flags(a, b, a.wrapping_sub(b)))
        } else if op == 0xC {
            self.with_regs(r.write(rd, a | b).update_nz(a | b))
        } else if op == 0xF {
            self.with_regs(r.write(rd, !b).update_nz(!b))
        } else {
            self.undefined()
        }
    }

    /// Thumb format 3: MOV / CMP / ADD / SUB with an 8-bit immediate.
    pub open spec fn thumb_imm(self, instr: u16) -> CpuView {
        let r = self.regs;
        let op = (instr >> 11) & 0x3;
        let rd = ((instr >> 8) & 0x7) as usize;
        let imm: u32 = (instr & 0xFF) as u32;
        let a = r.read(rd);
        if op == 0 {
            self.with_regs(r.write(rd, imm).update_nz(imm))
        } else if op == 1 {
            self.with_regs(r.sub_flags(a, imm, a.wrapping_sub(imm)))
        } else if op == 2 {
            let res = a.wrapping_add(imm);
            self.with_regs(r.write(rd, res).thumb_add_flags(a, imm, res))
        } else {
            let res = a.wrapping_sub(imm);
            self.with_regs(r.write(rd, res).sub_flags(a, imm, res))
        }
    }

    /// Thumb formats 7 and 8: load/store with register offset.
    pub open spec fn thumb_ldst_reg(self, instr: u16) -> CpuView {
        let r = self.regs;
        let op = (instr >> 9) & 0x7;
        let rd = (instr & 0x7) as usize;
        let addr = r.read(((instr >> 3) & 0x7) as usize).wrapping_add(r.read(((instr >> 6) & 0x7) as usize));
        if op == 0 {
            self.write_mem32(addr, r.read(rd))
        } else if op == 1 {
            self.write_mem8(addr, (r.read(rd) & 0xFF) as u8)
        } else if op == 2 {
            let (v, t) = self.read_mem32(addr);
            t.with_regs(t.regs.write(rd, v))
        } else if op == 3 {
            let (v, t) = self.read_mem8(addr);
            t.with_regs(t.regs.write(rd, v as u32))
        } else if op == 4 {
            self.write_mem16(addr, (r.read(rd) & 0xFFFF) as u16)
        } else if op == 5 {
            let (v, t) = self.read_mem8(addr);
            t.with_regs(t.regs.write(rd, sext8(v)))
        } else if op == 6 {
            let (v, t) = self.read_mem16(addr);
            t.with_regs(t.regs.write(rd, v as u32))
        } else {
            let (v, t) = self.read_mem16(addr);
            t.with_regs(t.regs.write(rd, sext16(v)))
        }
    }

    /// Thumb format 9: load/store word or byte with a 5-bit immediate.
    pub open spec fn thumb_ldst_imm(self, instr: u16) -> CpuView {
        let r = self.regs;
        let imm5: u32 = ((instr >> 6) & 0x1F) as u32;
        let rd = (instr & 0x7) as usize;
        let base = r.read(((instr >> 3) & 0x7) as usize);
        let load = (instr >> 11) & 1 == 1;
        if (instr >> 12) & 1 == 1 {
            let addr = base.wrapping_add(imm5);
            if load {
                let (v, t) = self.read_mem8(addr);
                t.with_regs(t.regs.write(rd, v as u32))
            } else {
                self.write_mem8(addr, (r.read(rd) & 0xFF) as u8)
            }
        } else {
            let addr = base.wrapping_add(imm5 << 2);
            if load {
                let (v, t) = self.read_mem32(addr);
                t.with_regs(t.regs.write(rd, v))
            } else {
                self.write_mem32(addr, r.read(rd))
            }
        }
    }

    /// Thumb format 10: halfword load/store with a 5-bit immediate.
    pub open spec fn thumb_ldst_half(self, instr: u16) -> CpuView {
        let r = self.regs;
        let imm5: u32 = ((instr >> 6) & 0x1F) as u32;
        let rd = (instr & 0x7) as usize;
        let addr = r.read(((instr >> 3) & 0x7) as usize).wrapping_add(imm5 << 1);
        if (instr >> 11) & 1 == 1 {
            let (v, t) = self.read_mem16(addr);
            t.with_regs(t.regs.write(rd, v as u32))
        } else {
            self.write_mem16(addr, (r.read(rd) & 0xFFFF) as u16)
        }
    }

    /// Thumb format 11: SP-relative load/store.
    pub open spec fn thumb_ldst_sp(self, instr: u16) -> CpuView {
        let r = self.regs;
        let rd = ((instr >> 8) & 0x7) as usize;
        let imm8: u32 = (instr & 0xFF) as u32;
        let addr = r.read(13).wrapping_add(imm8 << 2);
        if (instr >> 11) & 1 == 1 {
            let (v, t) = self.read_mem32(addr);
            t.with_regs(t.regs.write(rd, v))
        } else {
            self.write_mem32(addr, r.read(rd))
        }
    }

    /// Thumb format 14: PUSH (STMDB SP!) / POP (LDMIA SP!), optionally with
    /// LR / PC.
    pub open spec fn thumb_push_pop(self, instr: u16) -> CpuView {
        let list: u32 = (instr & 0xFF) as u32;
        let r_bit = (instr >> 8) & 1 == 1;
        if (instr >> 11) & 1 == 1 {
            let l = if r_bit { list | 0x8000 } else { list };
            self.block_data_transfer(0xE8BD_0000 | l)
        } else {
            let l = if r_bit { list | 0x4000 } else { list };
            self.block_data_transfer(0xE92D_0000 | l)
        }
    }

    /// Thumb format 16: conditional branch; condition 0xF is SWI.
    pub open spec fn thumb_cond_branch(self, instr: u16, pc_at_fetch: u32) -> CpuView {
        let cond: u32 = ((instr >> 8) & 0xF) as u32;
        if cond == 0xF {
            self.swi()
        } else if self.regs.cond_holds(cond << 28) {
            let imm8: u32 = (instr & 0xFF) as u32;
            let offset = sign_extend(imm8, 0x80, 0xFFFF_FF00) << 1;
            self.with_regs(self.regs.set_reg(15, pc_at_fetch.wrapping_add(4).wrapping_add(offset)))
        } else {
            self
        }
    }

    /// One 16-bit Thumb instruction (PC reads as fetch address + 4).
    #[verifier::opaque]
    pub open spec fn thumb(self, instr: u16, pc_at_fetch: u32) -> CpuView {
        let top = instr >> 10;
        let off11: u32 = (instr & 0x7FF) as u32;
        if top <= 7 {
            self.thumb_shift_add(instr)
        } else if top == 16 {
            self.thumb_alu(instr)
        } else if 8 <= top && top <= 15 {
            self.thumb_imm(instr)
        } else if 20 <= top && top <= 23 {
            self.thumb_ldst_reg(instr)
        } else if 24 <= top && top <= 31 {
            self.thumb_ldst_imm(instr)
        } else if 32 <= top && top <= 35 {
            self.thumb_ldst_half(instr)
        } else if 36 <= top && top <= 39 {
            self.thumb_ldst_sp(instr)
        } else if 44 <= top && top <= 47 {
            self.thumb_push_pop(instr)
        } else if 52 <= top && top <= 55 {
            self.thumb_cond_branch(instr, pc_at_fetch)
        } else if top == 56 || top == 57 {
            let offset = sign_extend(off11, 0x400, 0xFFFF_F800) << 1;
            self.with_regs(self.regs.set_reg(15, pc_at_fetch.wrapping_add(4).wrapping_add(offset)))
        } else if top == 60 || top == 61 {
            let offset = sign_extend(off11, 0x400, 0xFFFF_F800) << 12;
            self.with_regs(self.regs.set_reg(14, pc_at_fetch.wrapping_add(4).wrapping_add(offset)))
        } else if top == 62 || top == 63 {
            let target = self.regs.lr().wrapping_add(off11 << 1);
            self.with_regs(self.regs.set_reg(14, pc_at_fetch.wrapping_add(2) | 1).set_reg(15, target))
        } else {
            self.undefined()
        }
    }

    /// MCR / MRC to CP15 (coprocessor 15, or 10 as some toolchains encode
    /// it); other coprocessors are undefined.
    pub open spec fn coproc_transfer(self, instr: u32) -> CpuView {
        let opc1 = ((instr >> 21) & 0x7) as usize;
        let crn = ((instr >> 16) & 0xF) as usize;
        let rd = ((instr >> 12) & 0xF) as usize;
        let coproc = (instr >> 8) & 0xF;
        let opc2 = ((instr >> 5) & 0x7) as usize;
        let crm = (instr & 0xF) as usize;
        if coproc == 15 || coproc == 10 {
            if (instr >> 20) & 1 == 1 {
                self.with_regs(self.regs.write(rd, self.cp15.read_spec(crn, crm, opc1, opc2)))
            } else {
                CpuView { cp15: self.cp15.write_spec(crn, crm, opc1, opc2, self.regs.read(rd)), ..self }
            }
        } else {
            self.undefined()
        }
    }

    /// A 32-bit ARM instruction whose condition holds.
    #[verifier::opaque]
    pub open spec fn execute_arm(self, instr: u32, pc_at_fetch: u32) -> CpuView {
        let bits = (instr >> 25) & 0x7;
        if (instr >> 24) & 0xF == 0xE && (instr >> 4) & 1 == 1 {
            self.coproc_transfer(instr)
        } else if bits == 0 {
            if instr & 0x0F00_00F0 == 0x0000_0090 {
                self.with_regs(self.regs.multiply(instr))
            } else if instr & 0x0FFF_FFF0 == 0x012F_FF30 {
                self.with_regs(self.regs.blx_register(instr, pc_at_fetch))
            } else if instr & 0x0FFF_FFF0 == 0x012F_FF10 {
                self.with_regs(self.regs.branch_exchange(instr))
            } else if instr & 0x90 == 0x90 && instr & 0x0E00_0000 == 0 {
                self.halfword_transfer(instr)
            } else {
                self.with_regs(self.regs.data_processing(instr))
            }
        } else if bits == 1 {
            self.with_regs(self.regs.data_processing(instr))
        } else if bits == 2 || bits == 3 {
            self.single_data_transfer(instr)
        } else if bits == 4 {
            self.block_data_transfer(instr)
        } else if bits == 5 {
            self.with_regs(self.regs.branch(instr, pc_at_fetch))
        } else if bits == 7 && (instr >> 24) & 1 == 1 {
            self.swi()
        } else {
            self.undefined()
        }
    }

    pub open spec fn with_pipeline(self, off: u32) -> CpuView {
        self.with_regs(RegView { pipeline_offset: off, ..self.regs })
    }

    /// One CPU step: whether an instruction (or interrupt / BIOS call) was
    /// processed, and the state afterwards. Every processed step ends with
    /// one SP804 timer tick.
    pub open spec fn step(self) -> (bool, CpuView) {
        if self.halted {
            (false, self)
        } else if self.mmu.irq_pending && self.regs.cpsr & 0x80 == 0 {
            (true, self.trigger_exception(MODE_IRQ, 0x18, 4).tick_timer())
        } else {
            let s0 = CpuView { exception_raised: false, ..self };
            if s0.regs.pc() == SWI_VECTOR && s0.regs.mode() == MODE_SVC {
                (true, s0.bios_syscall().tick_timer())
            } else {
                let (instr, s1) = s0.fetch();
                let pc_at_fetch = s1.regs.pc();
                let s2 = s1.advance_pc();
                if s2.regs.thumb() {
                    (true, s2.with_pipeline(2).thumb(instr as u16, pc_at_fetch).with_pipeline(0).tick_timer())
                } else if !s2.regs.cond_holds(instr) {
                    (true, s2.tick_timer())
                } else {
                    (true, s2.with_pipeline(4).execute_arm(instr, pc_at_fetch).with_pipeline(0).tick_timer())
                }
            }
        }
    }
}
} // verus!
