//! Properties of the emulator that span several operations.
use vstd::prelude::*;
use crate::arm::CpuView;
use crate::cpu::{RegView, CPSR_MODE_MASK, MODE_FIQ, MODE_IRQ, MODE_SVC, MODE_ABT, MODE_UND};
use crate::memory::{byte_of, in_periph, in_vram, le_word, MmuView, MMC_BASE, MMC_REG_DATA, in_mmc, in_android_periph};
use crate::arm::vector_address;
use crate::host::{batch_from, hex_digits, hex_number, hex_value, hex_words, is_hex_digit, parse_hex_spec, pow16};
use crate::disasm::{hex_digit, hex_str, zero_pad};
use crate::android::fixture::le32s;

verus! {

/// A plain RAM byte: not video memory, not a device, inside RAM.
pub open spec fn ram_byte(m: MmuView, addr: u32) -> bool {
    !in_vram(addr) && !in_periph(addr) && (addr as int) < m.ram.len()
}

/// A byte stored to RAM reads back, and the load changes nothing.
pub proof fn ram_store_then_load(m: MmuView, addr: u32, val: u8)
    requires
        ram_byte(m, addr),
    ensures
        m.store8(addr, val).load8(addr) == (val, m.store8(addr, val)),
{
    reveal(MmuView::store8);
    reveal(MmuView::load8);
}

/// A byte stored to RAM leaves every other RAM byte as it was.
pub proof fn ram_store_keeps_other_bytes(m: MmuView, addr: u32, val: u8, other: u32)
    requires
        ram_byte(m, addr),
        ram_byte(m, other),
        other != addr,
    ensures
        m.store8(addr, val).load8(other).0 == m.load8(other).0,
{
    reveal(MmuView::store8);
    reveal(MmuView::load8);
}

/// A byte stored to video memory reads back.
pub proof fn vram_store_then_load(m: MmuView, addr: u32, val: u8)
    requires
        in_vram(addr),
        m.wf(),
    ensures
        m.store8(addr, val).load8(addr).0 == val,
{
    reveal(MmuView::store8);
    reveal(MmuView::load8);
}

/// Outside RAM, video memory and the devices, a byte load gives 0 and
/// changes nothing.
pub proof fn unmapped_load_is_zero(m: MmuView, addr: u32)
    requires
        !in_vram(addr),
        !in_periph(addr),
        addr as int >= m.ram.len(),
    ensures
        m.load8(addr) == (0u8, m),
{
    reveal(MmuView::load8);
}

/// The four bytes of a word, put back together little-endian, give the word.
pub proof fn word_bytes_roundtrip(v: u32)
    ensures
        le_word(byte_of(v, 0), byte_of(v, 1), byte_of(v, 2), byte_of(v, 3)) == v,
{
    assert(((v >> 0) & 0xFF) as u8 as u32 | ((((v >> 8) & 0xFF) as u8 as u32) << 8) | ((((v >> 16) & 0xFF) as u8 as u32)
        << 16) | ((((v >> 24) & 0xFF) as u8 as u32) << 24) == v) by (bit_vector);
}

/// A word stored to four plain RAM bytes reads back.
pub proof fn ram_word_store_then_load(m: MmuView, addr: u32, val: u32)
    requires
        addr <= 0xFFFF_FFFC,
        ram_byte(m, addr),
        ram_byte(m, (addr + 1) as u32),
        ram_byte(m, (addr + 2) as u32),
        ram_byte(m, (addr + 3) as u32),
    ensures
        m.store32(addr, val).load32(addr).0 == val,
{
    reveal(MmuView::store8);
    reveal(MmuView::load8);
    reveal(MmuView::load32);
    reveal(MmuView::store32);
    assert(addr.wrapping_add(1) == addr + 1);
    assert(addr.wrapping_add(2) == addr + 2);
    assert(addr.wrapping_add(3) == addr + 3);
    let m1 = m.store8(addr, byte_of(val, 0));
    let m2 = m1.store8((addr + 1) as u32, byte_of(val, 1));
    let m3 = m2.store8((addr + 2) as u32, byte_of(val, 2));
    let m4 = m3.store8((addr + 3) as u32, byte_of(val, 3));
    assert(m.store32(addr, val) == m4);
    assert(m4.ram[addr as int] == byte_of(val, 0));
    assert(m4.ram[addr + 1] == byte_of(val, 1));
    assert(m4.ram[addr + 2] == byte_of(val, 2));
    assert(m4.ram[addr + 3] == byte_of(val, 3));
    assert(m4.load8(addr) == (byte_of(val, 0), m4));
    assert(m4.load8((addr + 1) as u32) == (byte_of(val, 1), m4));
    assert(m4.load8((addr + 2) as u32) == (byte_of(val, 2), m4));
    assert(m4.load8((addr + 3) as u32) == (byte_of(val, 3), m4));
    word_bytes_roundtrip(val);
}

/// Bringing the interrupt line up to date makes it say exactly whether an
/// enabled interrupt is raised.
pub proof fn vic_line_follows_status(m: MmuView)
    ensures
        m.vic_updated().irq_pending <==> (m.vic_int_status & m.vic_int_enable) != 0,
        m.vic_updated().vic_updated() == m.vic_updated(),
{
}

/// A mode with its own SP/LR bank.
pub open spec fn banked_mode(mode: u32) -> bool {
    mode == MODE_SVC || mode == MODE_ABT || mode == MODE_UND || mode == MODE_IRQ || mode == MODE_FIQ
}

/// Leaving a mode and coming back restores its SP and LR (every mode
/// with SP/LR of its own: the exception modes, and User/System).
pub proof fn mode_round_trip_restores_sp_lr(r: RegView, other: u32)
    requires
        r.wf(),
        banked_mode(r.mode()) || crate::cpu::user_regs_mode(r.mode()),
        other & CPSR_MODE_MASK != r.mode(),
    ensures
        r.set_cpu_mode(other).set_cpu_mode(r.mode()).sp() == r.sp(),
        r.set_cpu_mode(other).set_cpu_mode(r.mode()).lr() == r.lr(),
        r.set_cpu_mode(other).set_cpu_mode(r.mode()).mode() == r.mode(),
{
    let m = r.mode();
    let cp = r.cpsr;
    let c1 = (cp & !CPSR_MODE_MASK) | (other & CPSR_MODE_MASK);
    assert(c1 & CPSR_MODE_MASK == other & CPSR_MODE_MASK) by (bit_vector)
        requires
            c1 == (cp & !0x1Fu32) | (other & 0x1Fu32),
    ;
    let r1 = r.set_cpu_mode(other);
    let cp1 = r1.cpsr;
    let c2 = (cp1 & !CPSR_MODE_MASK) | (m & CPSR_MODE_MASK);
    assert(m & 0x1F == m) by (bit_vector)
        requires
            m == cp & 0x1Fu32,
    ;
    assert(c2 & CPSR_MODE_MASK == m & CPSR_MODE_MASK) by (bit_vector)
        requires
            c2 == (cp1 & !0x1Fu32) | (m & 0x1Fu32),
    ;
}

/// Reading R15 gives the pc plus the pipeline offset.
pub proof fn pc_reads_ahead(r: RegView)
    requires
        r.wf(),
    ensures
        r.read(15) == r.pc().wrapping_add(r.pipeline_offset),
{
    assert(15usize & 0xF == 15) by (bit_vector);
}

/// Taking an exception saves the CPSR in the target mode's SPSR and enters
/// that mode with IRQs masked.
pub proof fn exception_saves_cpsr(c: CpuView, target: u32, vector_offset: u32, pc_adjustment: u32)
    requires
        c.regs.wf(),
        banked_mode(target),
    ensures
        c.trigger_exception(target, vector_offset, pc_adjustment).regs.spsr(target) == c.regs.cpsr,
        c.trigger_exception(target, vector_offset, pc_adjustment).regs.mode() == target,
        c.trigger_exception(target, vector_offset, pc_adjustment).regs.irq_disabled(),
{
    let cpsr = c.regs.cpsr;
    let c1 = (cpsr & !0x1Fu32) | target | 0x80u32;
    let c2 = if target == MODE_FIQ { c1 | 0x40u32 } else { c1 };
    let c3 = c2 & !0x20u32;
    assert(c3 & 0x1F == target && c3 & 0x80 != 0) by (bit_vector)
        requires
            target == 0x13 || target == 0x17 || target == 0x1B || target == 0x12 || target == 0x11,
            c1 == (cpsr & !0x1Fu32) | target | 0x80u32,
            c2 == (if target == 0x11 { c1 | 0x40u32 } else { c1 }),
            c3 == c2 & !0x20u32,
    ;
}


proof fn lemma_batch_from(s: CpuView, i: int, count: int, interval: u32)
    requires
        1 <= i,
    ensures
        batch_from(s, i, count, interval).0 <= if count - i + 1 >= 0 { count - i + 1 } else { 0 },
        batch_from(s, i, count, interval).0 < count - i + 1 ==> batch_from(s, i, count, interval).1.halted,
    decreases count - i + 1,
{
    if i <= count {
        let (ran, s1) = s.step();
        if ran {
            let s2 = if i % (interval as int) == 0 { crate::host::tick_sys_timer(s1) } else { s1 };
            lemma_batch_from(s2, i + 1, count, interval);
        }
    }
}

/// A batch runs at most the instructions asked for, and one that runs
/// fewer leaves the CPU halted.
pub proof fn short_batch_means_halted(s: CpuView, count: u32, interval: u32)
    ensures
        batch_from(s, 1, count as int, interval).0 <= count,
        batch_from(s, 1, count as int, interval).0 < count ==> batch_from(s, 1, count as int, interval).1.halted,
{
    lemma_batch_from(s, 1, count as int, interval);
}

/// A halted CPU runs no instruction of a batch and stays as it is.
pub proof fn halted_cpu_runs_no_batch(s: CpuView, count: u32, interval: u32)
    requires
        s.halted,
    ensures
        batch_from(s, 1, count as int, interval) == (0nat, s),
{
}


// ── Hex programs ──────────────────────────────────────────────────────

/// A word as eight upper-case hexadecimal digits.
pub open spec fn word_hex(w: u32) -> Seq<char> {
    zero_pad(hex_str(w as nat), 8)
}

/// Words written as eight hex digits each, every word followed by `sep`.
pub open spec fn words_hex(ws: Seq<u32>, sep: char) -> Seq<char>
    decreases ws.len(),
{
    if ws.len() == 0 {
        Seq::empty()
    } else {
        words_hex(ws.drop_last(), sep) + word_hex(ws.last()).push(sep)
    }
}

/// The words written as eight hex digits each, back to back.
pub open spec fn words_hex_flat(ws: Seq<u32>) -> Seq<char>
    decreases ws.len(),
{
    if ws.len() == 0 {
        Seq::empty()
    } else {
        words_hex_flat(ws.drop_last()) + word_hex(ws.last())
    }
}

proof fn lemma_hex_digits_concat(a: Seq<char>, b: Seq<char>)
    ensures
        hex_digits(a + b) == hex_digits(a) + hex_digits(b),
    decreases b.len(),
{
    if b.len() == 0 {
        assert(a + b =~= a);
        assert(hex_digits(a) + hex_digits(b) =~= hex_digits(a));
    } else {
        assert((a + b).drop_last() =~= a + b.drop_last());
        assert((a + b).last() == b.last());
        lemma_hex_digits_concat(a, b.drop_last());
        if is_hex_digit(b.last()) {
            assert(hex_digits(a + b) =~= hex_digits(a) + hex_digits(b));
        } else {
            assert(hex_digits(a + b) =~= hex_digits(a) + hex_digits(b));
        }
    }
}

proof fn lemma_hex_digits_all(s: Seq<char>)
    requires
        forall|i: int| 0 <= i < s.len() ==> is_hex_digit(#[trigger] s[i]),
    ensures
        hex_digits(s) == s,
    decreases s.len(),
{
    if s.len() > 0 {
        lemma_hex_digits_all(s.drop_last());
        assert(is_hex_digit(s[s.len() - 1]));
        assert(hex_digits(s) =~= s);
    }
}

proof fn lemma_hex_digit_char(d: u32)
    requires
        d < 16,
    ensures
        is_hex_digit(hex_digit(d)),
        hex_value(hex_digit(d)) == d,
{
    if d < 10 {
        assert(((d + 48) as u8) as char as u32 == d + 48);
    } else {
        assert(((d + 55) as u8) as char as u32 == d + 55);
    }
}

proof fn lemma_hex_str(n: nat, k: nat)
    requires
        k >= 1,
        n < pow16(k),
    ensures
        hex_str(n).len() <= k,
        hex_str(n).len() >= 1,
        hex_number(hex_str(n)) == n,
        forall|i: int| 0 <= i < hex_str(n).len() ==> is_hex_digit(#[trigger] hex_str(n)[i]),
    decreases n,
{
    lemma_hex_digit_char((n % 16) as u32);
    if n < 16 {
        let s = hex_str(n);
        assert(n % 16 == n);
        assert(s.drop_last() =~= Seq::<char>::empty());
        assert(hex_number(Seq::<char>::empty()) == 0);
        assert(hex_number(s) == hex_number(s.drop_last()) * 16 + hex_value(s.last()));
    } else {
        let p = pow16((k - 1) as nat);
        assert(k >= 2) by {
            if k == 1 {
                assert(pow16(1) == 16) by {
                    reveal_with_fuel(pow16, 2);
                }
            }
        }
        assert(n / 16 < p) by (nonlinear_arith)
            requires
                n < 16 * p,
        ;
        lemma_hex_str(n / 16, (k - 1) as nat);
        let s = hex_str(n);
        assert(s.drop_last() =~= hex_str(n / 16));
        assert(hex_number(s) == hex_number(hex_str(n / 16)) * 16 + n % 16);
        assert forall|i: int| 0 <= i < s.len() implies is_hex_digit(#[trigger] s[i]) by {
            if i < s.len() - 1 {
                assert(s[i] == hex_str(n / 16)[i]);
            }
        }
    }
}

proof fn lemma_zeros_number(z: Seq<char>, s: Seq<char>)
    requires
        forall|i: int| 0 <= i < z.len() ==> #[trigger] z[i] == '0',
    ensures
        hex_number(z + s) == hex_number(s),
    decreases z.len() + s.len(),
{
    if s.len() == 0 {
        assert(z + s =~= z);
        if z.len() > 0 {
            lemma_zeros_number(z.drop_last(), s);
            assert(z.drop_last() + s =~= z.drop_last());
            assert(z[z.len() - 1] == '0');
        }
    } else {
        assert((z + s).drop_last() =~= z + s.drop_last());
        assert((z + s).last() == s.last());
        lemma_zeros_number(z, s.drop_last());
    }
}

proof fn lemma_word_hex(w: u32)
    ensures
        word_hex(w).len() == 8,
        hex_number(word_hex(w)) == w as nat,
        forall|i: int| 0 <= i < 8 ==> is_hex_digit(#[trigger] word_hex(w)[i]),
{
    assert(pow16(8) == 4294967296) by {
        reveal_with_fuel(pow16, 9);
    }
    lemma_hex_str(w as nat, 8);
    let h = hex_str(w as nat);
    let z = Seq::new((8 - h.len()) as nat, |i: int| '0');
    if h.len() < 8 {
        assert(word_hex(w) == z + h);
        lemma_zeros_number(z, h);
        assert forall|i: int| 0 <= i < 8 implies is_hex_digit(#[trigger] word_hex(w)[i]) by {
            if i >= z.len() {
                assert(word_hex(w)[i] == h[i - z.len()]);
            }
        }
    }
}

proof fn lemma_words_hex_digits(ws: Seq<u32>, sep: char)
    requires
        !is_hex_digit(sep),
    ensures
        hex_digits(words_hex(ws, sep)) == words_hex_flat(ws),
        words_hex_flat(ws).len() == 8 * ws.len(),
    decreases ws.len(),
{
    if ws.len() > 0 {
        let w = ws.last();
        lemma_words_hex_digits(ws.drop_last(), sep);
        lemma_word_hex(w);
        let wh = word_hex(w);
        assert(wh.push(sep) =~= wh + seq![sep]);
        assert(words_hex(ws, sep) =~= words_hex(ws.drop_last(), sep) + (wh + seq![sep]));
        lemma_hex_digits_concat(words_hex(ws.drop_last(), sep), wh + seq![sep]);
        lemma_hex_digits_concat(wh, seq![sep]);
        assert forall|i: int| 0 <= i < wh.len() implies is_hex_digit(#[trigger] wh[i]) by {}
        lemma_hex_digits_all(wh);
        let one = seq![sep];
        assert(one.drop_last() =~= Seq::<char>::empty());
        assert(one.last() == sep);
        assert(hex_digits(Seq::<char>::empty()) =~= Seq::<char>::empty());
        assert(hex_digits(one) == hex_digits(one.drop_last()));
        assert(hex_digits(one) =~= Seq::<char>::empty());
        assert(hex_digits(words_hex(ws, sep)) =~= words_hex_flat(ws));
    }
}

proof fn lemma_words_hex_block(ws: Seq<u32>, k: int)
    requires
        0 <= k < ws.len(),
    ensures
        words_hex_flat(ws).subrange(8 * k, 8 * k + 8) == word_hex(ws[k]),
        words_hex_flat(ws).len() == 8 * ws.len(),
    decreases ws.len(),
{
    let pre = ws.drop_last();
    lemma_word_hex(ws.last());
    if pre.len() > 0 {
        lemma_words_hex_block(pre, 0);
    }
    assert(words_hex_flat(pre).len() == 8 * pre.len());
    if k == ws.len() - 1 {
        assert(words_hex_flat(ws).subrange(8 * k, 8 * k + 8) =~= word_hex(ws[k]));
    } else {
        lemma_words_hex_block(pre, k);
        assert(words_hex_flat(ws).subrange(8 * k, 8 * k + 8) =~= words_hex_flat(pre).subrange(8 * k, 8 * k + 8));
    }
}

/// A program written as eight-digit hex words, each followed by a
/// separator that is not a hex digit (a space, a newline), parses back to
/// the words stored little-endian.
pub proof fn hex_program_roundtrip(ws: Seq<u32>, sep: char)
    requires
        !is_hex_digit(sep),
    ensures
        parse_hex_spec(words_hex(ws, sep)) == Ok::<Seq<u8>, nat>(le32s(ws)),
{
    lemma_words_hex_digits(ws, sep);
    let d = words_hex_flat(ws);
    assert(d.len() % 8 == 0) by (nonlinear_arith)
        requires
            d.len() == 8 * ws.len(),
    ;
    assert(d.len() / 8 == ws.len()) by (nonlinear_arith)
        requires
            d.len() == 8 * ws.len(),
    ;
    assert forall|k: int| 0 <= k < ws.len() implies #[trigger] hex_words(d)[k] == ws[k] by {
        lemma_words_hex_block(ws, k);
        lemma_word_hex(ws[k]);
    }
    assert(hex_words(d) =~= ws);
}


// ── Registers and memory reads ────────────────────────────────────────

/// Reading a register gives what was last written to it: after a write to
/// register `i`, register `j` (both taken mod 16) reads as the value
/// written when they are the same register (R15 with the pipeline offset
/// added), and as before otherwise.
pub proof fn register_reads_last_write(r: RegView, i: usize, v: u32, j: usize)
    requires
        r.wf(),
    ensures
        r.write(i, v).read(j) == if (j & 0xF) == (i & 0xF) {
            if (j & 0xF) == 15 { v.wrapping_add(r.pipeline_offset) } else { v }
        } else {
            r.read(j)
        },
{
    assert((i & 0xF) < 16 && (j & 0xF) < 16) by (bit_vector);
}

/// The address of the MMC data port: the only address whose read changes
/// the bus.
pub open spec fn mmc_data_port() -> u32 {
    (MMC_BASE + MMC_REG_DATA) as u32
}

proof fn lemma_load8_keeps(m: MmuView, a: u32)
    requires
        a & !3u32 != mmc_data_port(),
    ensures
        m.load8(a).1 == m,
{
    reveal(MmuView::load8);
    reveal(MmuView::periph_read);
    let p = a & !3u32;
    if in_periph(a) && in_android_periph(p) && in_mmc(p) {
        assert(p - MMC_BASE != MMC_REG_DATA);
    }
}

/// A word read anywhere but at the MMC data port leaves the bus as it was.
pub proof fn word_read_keeps_bus(m: MmuView, addr: u32)
    requires
        addr != mmc_data_port(),
    ensures
        m.load32(addr).1 == m,
{
    reveal(MmuView::load32);
    reveal(MmuView::periph_read);
    if in_vram(addr) && in_vram(addr.wrapping_add(3)) {
    } else if in_periph(addr) {
        if in_android_periph(addr) && in_mmc(addr) {
            assert(addr - MMC_BASE != MMC_REG_DATA);
        }
    } else {
        assert(!in_mmc(addr));
        let a0 = addr;
        let a1 = addr.wrapping_add(1);
        let a2 = addr.wrapping_add(2);
        let a3 = addr.wrapping_add(3);
        assert(a0 & !3u32 != 0x1C00_0010u32 && a1 & !3u32 != 0x1C00_0010u32 && a2 & !3u32 != 0x1C00_0010u32 && a3
            & !3u32 != 0x1C00_0010u32) by (bit_vector)
            requires
                !(0x1C00_0000u32 <= addr && addr < 0x1C01_0000u32),
                a1 == addr.wrapping_add(1),
                a2 == addr.wrapping_add(2),
                a3 == addr.wrapping_add(3),
                a0 == addr,
        ;
        lemma_load8_keeps(m, a0);
        lemma_load8_keeps(m, a1);
        lemma_load8_keeps(m, a2);
        lemma_load8_keeps(m, a3);
    }
}

/// Disassembling the word at any address but the MMC data port leaves the
/// CPU as it was (what `disassemble_at` does to the state).
pub proof fn disassembly_keeps_cpu(c: CpuView, addr: u32)
    requires
        addr != mmc_data_port(),
    ensures
        (CpuView { mmu: c.mmu.load32(addr).1, ..c }) == c,
{
    word_read_keeps_bus(c.mmu, addr);
}

/// With the MMU off (SCTLR.M clear) and no exception taken yet in this
/// step, a word read through the CPU is the bus read at the same address,
/// and only the bus can change.
pub proof fn mmu_off_read_is_physical(c: CpuView, vaddr: u32)
    requires
        !c.exception_raised,
        c.cp15.c1_sctlr & 1 == 0,
    ensures
        c.read_mem32(vaddr) == (c.mmu.load32(vaddr).0, c.with_mmu(c.mmu.load32(vaddr).1)),
{
}

/// The first-level descriptor address of `vaddr`.
pub open spec fn l1_desc_addr(c: CpuView, vaddr: u32) -> u32 {
    (c.cp15.c2_ttbr0 & 0xFFFF_C000) | ((vaddr >> 20) << 2)
}

/// The second-level descriptor address of `vaddr` under first-level
/// descriptor `desc`.
pub open spec fn l2_desc_addr(desc: u32, vaddr: u32) -> u32 {
    (desc & 0xFFFF_FC00) | (((vaddr >> 12) & 0xFF) << 2)
}

/// Whether translating `vaddr` faults: a first-level descriptor that is
/// neither a section nor a coarse table, or a coarse table whose entry is
/// not a small page.
pub open spec fn translation_faults(c: CpuView, vaddr: u32) -> bool {
    let (desc, m1) = c.mmu.load32(l1_desc_addr(c, vaddr));
    ||| desc & 3 == 0
    ||| desc & 3 == 3
    ||| (desc & 3 == 1 && m1.load32(l2_desc_addr(desc, vaddr)).0 & 3 != 2)
}

/// With the MMU on, a word read whose translation faults gives 0 and takes
/// a data abort: Abort mode, the old CPSR in its SPSR, IRQs masked, PC at
/// the abort vector (0x10, or 0xFFFF_0010 with high vectors). The bus is
/// left as it was unless a descriptor was read from the MMC data port.
pub proof fn translation_fault_aborts(c: CpuView, vaddr: u32)
    requires
        c.regs.wf(),
        !c.exception_raised,
        c.cp15.c1_sctlr & 1 == 1,
        translation_faults(c, vaddr),
    ensures
        c.read_mem32(vaddr).0 == 0,
        c.read_mem32(vaddr).1.exception_raised,
        c.read_mem32(vaddr).1.regs.mode() == MODE_ABT,
        c.read_mem32(vaddr).1.regs.spsr(MODE_ABT) == c.regs.cpsr,
        c.read_mem32(vaddr).1.regs.irq_disabled(),
        c.read_mem32(vaddr).1.regs.pc() == if c.cp15.c1_sctlr & 0x2000 != 0 { 0xFFFF_0010u32 } else { 0x10u32 },
        l1_desc_addr(c, vaddr) != mmc_data_port() && l2_desc_addr(c.mmu.load32(l1_desc_addr(c, vaddr)).0, vaddr)
            != mmc_data_port() ==> c.read_mem32(vaddr).1.mmu == c.mmu,
{
    let a1 = l1_desc_addr(c, vaddr);
    let (desc, m1) = c.mmu.load32(a1);
    let s1 = c.with_mmu(m1);
    let a2 = l2_desc_addr(desc, vaddr);
    let s = if desc & 3 == 1 { s1.with_mmu(m1.load32(a2).1) } else { s1 };
    assert(s.regs == c.regs && s.cp15 == c.cp15);
    assert(c.translate(vaddr) == (vaddr, s.data_abort()));
    exception_saves_cpsr(s, MODE_ABT, 0x10, 8);
    let r1 = s.regs.set_spsr(MODE_ABT, s.regs.cpsr);
    let r2 = r1.set_lr_banked(MODE_ABT, r1.read(15).wrapping_sub(8));
    assert(r2.regs.len() == 16);
    if a1 != mmc_data_port() && a2 != mmc_data_port() {
        word_read_keeps_bus(c.mmu, a1);
        word_read_keeps_bus(m1, a2);
    }
}


/// While a step executes an instruction, reading R15 gives the address of
/// that instruction plus 8 in ARM state and plus 4 in Thumb state: this is
/// what R15 reads in the state `step` hands the instruction (after the
/// fetch, with PC advanced and the pipeline offset set).
pub proof fn pc_reads_ahead_during_step(s1: CpuView)
    requires
        s1.regs.wf(),
    ensures
        !s1.regs.thumb() ==> s1.advance_pc().with_pipeline(4).regs.read(15) == s1.regs.pc().wrapping_add(8),
        s1.regs.thumb() ==> s1.advance_pc().with_pipeline(2).regs.read(15) == s1.regs.pc().wrapping_add(4),
        s1.advance_pc().regs.thumb() == s1.regs.thumb(),
{
    assert(15usize & 0xF == 15) by (bit_vector);
    let pc = s1.regs.pc();
    assert(pc.wrapping_add(4).wrapping_add(4) == pc.wrapping_add(8));
    assert(pc.wrapping_add(2).wrapping_add(2) == pc.wrapping_add(4));
}

proof fn lemma_tick_keeps_regs(s: CpuView)
    ensures
        s.tick_timer().regs == s.regs,
{
    reveal(CpuView::tick_timer);
}

proof fn lemma_exception_keeps_pipeline(s: CpuView, mode: u32, off: u32, adj: u32)
    ensures
        s.trigger_exception(mode, off, adj).regs.pipeline_offset == s.regs.pipeline_offset,
{
}

proof fn lemma_read8_keeps_pipeline(s: CpuView, a: u32)
    ensures
        s.read_mem8(a).1.regs.pipeline_offset == s.regs.pipeline_offset,
{
    let a1 = (s.cp15.c2_ttbr0 & 0xFFFF_C000) | ((a >> 20) << 2);
    let (desc, m1) = s.mmu.load32(a1);
    let s1 = s.with_mmu(m1);
    lemma_exception_keeps_pipeline(s1, MODE_ABT, 0x10, 8);
    let a2 = (desc & 0xFFFF_FC00) | (((a >> 12) & 0xFF) << 2);
    lemma_exception_keeps_pipeline(s1.with_mmu(m1.load32(a2).1), MODE_ABT, 0x10, 8);
}

proof fn lemma_read32_keeps_pipeline(s: CpuView, a: u32)
    ensures
        s.read_mem32(a).1.regs.pipeline_offset == s.regs.pipeline_offset,
{
    let a1 = (s.cp15.c2_ttbr0 & 0xFFFF_C000) | ((a >> 20) << 2);
    let (desc, m1) = s.mmu.load32(a1);
    let s1 = s.with_mmu(m1);
    lemma_exception_keeps_pipeline(s1, MODE_ABT, 0x10, 8);
    let a2 = (desc & 0xFFFF_FC00) | (((a >> 12) & 0xFF) << 2);
    lemma_exception_keeps_pipeline(s1.with_mmu(m1.load32(a2).1), MODE_ABT, 0x10, 8);
}

proof fn lemma_read_bytes_keeps_pipeline(s: CpuView, ptr: u32, i: u32, len: u32)
    ensures
        s.read_bytes(ptr, i, len).regs.pipeline_offset == s.regs.pipeline_offset,
    decreases len - i,
{
    if i < len {
        lemma_read8_keeps_pipeline(s, ptr.wrapping_add(i));
        lemma_read_bytes_keeps_pipeline(s.read_mem8(ptr.wrapping_add(i)).1, ptr, (i + 1) as u32, len);
    }
}

proof fn lemma_bios_keeps_pipeline(s: CpuView)
    ensures
        s.bios_syscall().regs.pipeline_offset == s.regs.pipeline_offset,
{
    reveal(CpuView::bios_syscall);
    lemma_read32_keeps_pipeline(s, s.regs.lr().wrapping_sub(4));
    let s1 = s.read_mem32(s.regs.lr().wrapping_sub(4)).1;
    lemma_read_bytes_keeps_pipeline(s1, s1.regs.read(1), 0, s1.regs.read(2));
}

proof fn lemma_fetch_keeps_pipeline(s: CpuView)
    ensures
        s.fetch().1.regs.pipeline_offset == s.regs.pipeline_offset,
{
    reveal(CpuView::fetch);
    lemma_read32_keeps_pipeline(s, s.regs.pc());
    let a = s.regs.pc();
    assert(s.read_mem16(a).1.regs.pipeline_offset == s.regs.pipeline_offset) by {
        let a1 = (s.cp15.c2_ttbr0 & 0xFFFF_C000) | ((a >> 20) << 2);
        let (desc, m1) = s.mmu.load32(a1);
        let s1 = s.with_mmu(m1);
        lemma_exception_keeps_pipeline(s1, MODE_ABT, 0x10, 8);
        let a2 = (desc & 0xFFFF_FC00) | (((a >> 12) & 0xFF) << 2);
        lemma_exception_keeps_pipeline(s1.with_mmu(m1.load32(a2).1), MODE_ABT, 0x10, 8);
    }
}

/// Between steps R15 reads as the PC itself: a step that starts with no
/// pipeline offset ends with none.
pub proof fn step_leaves_no_pipeline_offset(s: CpuView)
    requires
        s.regs.pipeline_offset == 0,
    ensures
        s.step().1.regs.pipeline_offset == 0,
        s.step().1.regs.wf() ==> s.step().1.regs.read(15) == s.step().1.regs.pc(),
{
    assert(15usize & 0xF == 15) by (bit_vector);
    if !s.halted {
        if s.mmu.irq_pending && s.regs.cpsr & 0x80 == 0 {
            let t = s.trigger_exception(MODE_IRQ, 0x18, 4);
            lemma_exception_keeps_pipeline(s, MODE_IRQ, 0x18, 4);
            lemma_tick_keeps_regs(t);
        } else {
            let s0 = CpuView { exception_raised: false, ..s };
            if s0.regs.pc() == 0x08 && s0.regs.mode() == MODE_SVC {
                lemma_bios_keeps_pipeline(s0);
                lemma_tick_keeps_regs(s0.bios_syscall());
            } else {
                let (instr, s1) = s0.fetch();
                lemma_fetch_keeps_pipeline(s0);
                let s2 = s1.advance_pc();
                lemma_tick_keeps_regs(s2);
                lemma_tick_keeps_regs(s2.with_pipeline(2).thumb(instr as u16, s1.regs.pc()).with_pipeline(0));
                lemma_tick_keeps_regs(s2.with_pipeline(4).execute_arm(instr, s1.regs.pc()).with_pipeline(0));
            }
        }
    }
}

/// Facts about the bit fields the instruction laws read.
pub(crate) proof fn lemma_field_bits()
    by (bit_vector)
    ensures
        forall|x: u32| #[trigger] (x & 0xF) <= 15,
        forall|x: u16| #[trigger] (x & 0x7) <= 7,
        forall|x: u16| #[trigger] (x & 0x1F) <= 31,
        forall|x: usize| x <= 15 ==> #[trigger] (x & 0xF) == x,
        forall|x: u32| #[trigger] (x ^ x) == 0,
        forall|x: u32, k: u32|
            #![trigger x >> k]
            0 < k < 32 ==> ((((x >> k) | (x << ((32 - k) as u32))) << k) | (((x >> k) | (x << ((32 - k) as u32))) >> ((32 - k) as u32))) == x,
        forall|d: u32, v: u32|
            #![trigger (d & 0xFFF0_0000) | (v & 0x000F_FFFF)]
            ((d & 0xFFF0_0000) | (v & 0x000F_FFFF)) >> 20 == d >> 20 && ((d & 0xFFF0_0000) | (v & 0x000F_FFFF))
                & 0x000F_FFFF == v & 0x000F_FFFF,
        forall|lo: u16, hi: u16|
            #![trigger (lo as u32) | ((hi as u32) << 16u32)]
            ((lo as u32) | ((hi as u32) << 16u32)) & 0xFFFF == lo as u32 && ((lo as u32) | ((hi as u32) << 16u32)) >> 16
                == hi as u32,
        forall|x: u16| #[trigger] ((x >> 8) & 0xff) == x >> 8,
        forall|x: u32, m: u32, k: u32|
            #![trigger (x | m) & k]
            (m == 0x8000_0000 || m == 0x4000_0000 || m == 0x2000_0000 || m == 0x1000_0000) && (k == 0x8000_0000 || k
                == 0x4000_0000 || k == 0x2000_0000 || k == 0x1000_0000) ==> (((x | m) & k) != 0) == (m == k || (x & k)
                != 0),
        forall|x: u32, m: u32, k: u32|
            #![trigger (x & !m) & k]
            (m == 0x8000_0000 || m == 0x4000_0000 || m == 0x2000_0000 || m == 0x1000_0000) && (k == 0x8000_0000 || k
                == 0x4000_0000 || k == 0x2000_0000 || k == 0x1000_0000) ==> (((x & !m) & k) != 0) == (m != k && (x & k)
                != 0),
        forall|x: u32| #[trigger] (x & 0x8000_0000) != 0 <==> x >= 0x8000_0000,
        forall|x: u16| #[trigger] ((x >> 8) & 0xf) == (x / 256) % 16,
        forall|x: u16| #[trigger] ((x >> 12) & 0xf) == x / 4096,
        forall|x: u16| #[trigger] (x >> 8) == x / 256,
        forall|x: u16| #[trigger] (x & 0xf) == x % 16,
        forall|x: u16| #[trigger] ((x >> 4) & 0xf) == (x / 16) % 16,
        forall|x: u16| #[trigger] (x & 0xff) == x % 256,
        forall|lo: u16, hi: u16|
            #![trigger (lo as u32) | ((hi as u32) << 16u32)]
            ((lo as u32) | ((hi as u32) << 16u32)) == (lo as u32) + 65536u32 * (hi as u32),
        forall|h: u16|
            #![trigger (h as u32) | 0xFFFF_0000u32]
            ((h as u32) | 0xFFFF_0000u32) & 0xFFFF == h as u32 && ((h as u32) | 0xFFFF_0000u32) >> 16u32 == 0xFFFFu32
                && (h as u32) >> 16u32 == 0 && ((h & 0x8000) != 0) == (h >= 0x8000) && (h as u32) & 0xFFFF == h as u32,
        forall|b: u8|
            #![trigger (b as u32) | 0xFFFF_FF00u32]
            ((b as u32) | 0xFFFF_FF00u32) & 0xFF == b as u32 && ((b as u32) | 0xFFFF_FF00u32) >> 8u32 == 0xFF_FFFFu32
                && (b as u32) >> 8u32 == 0 && ((b & 0x80) != 0) == (b >= 0x80),
        forall|n: u32|
            #![trigger n | 0xFFFF_FFF0u32]
            n < 16 ==> (n | 0xFFFF_FFF0u32) & 0xF == n && (n | 0xFFFF_FFF0u32) >> 4u32 == 0x0FFF_FFFFu32 && n >> 4u32
                == 0 && ((n & 8) != 0) == (n >= 8) && n & 0xF == n,
        forall|x: u16| #[trigger] ((x >> 8) as u8) as u16 == x / 256,
        forall|o: u32|
            #![trigger (o & 0x00FF_FFFF) << 2u32]
            ((o & 0x00FF_FFFF) << 2u32) & 3 == 0 && (((o & 0x00FF_FFFF) << 2u32) >> 2u32) & 0xFF_FFFF == o & 0xFF_FFFF && (
            ((o & 0x00FF_FFFF) << 2u32) >> 26u32) == 0 && ((o & 0x00FF_FFFF) & 0x0080_0000 != 0) == (o & 0x80_0000 != 0),
        forall|o: u32|
            #![trigger ((o & 0x00FF_FFFF) | 0xFF00_0000) << 2u32]
            (((o & 0x00FF_FFFF) | 0xFF00_0000) << 2u32) & 3 == 0 && ((((o & 0x00FF_FFFF) | 0xFF00_0000) << 2u32) >> 2u32)
                & 0xFF_FFFF == o & 0xFF_FFFF && ((((o & 0x00FF_FFFF) | 0xFF00_0000) << 2u32) >> 26u32) == 0x3F,
        forall|x: u64|
            #![trigger (x >> 32u64) as u32]
            (x as u32) as int + 0x1_0000_0000 * ((x >> 32u64) as u32) as int == x as int,
        forall|l: u32, v: u32|
            #![trigger (l & 0xFFFF_F000) | (v & 0x0000_0FFF)]
            ((l & 0xFFFF_F000) | (v & 0x0000_0FFF)) >> 12 == l >> 12 && ((l & 0xFFFF_F000) | (v & 0x0000_0FFF)) & 0x0000_0FFF
                == v & 0x0000_0FFF,
{
}

/// ARM EOR (data-processing opcode 0001) writes the exclusive or of its
/// operands to Rd: Rn ^ Rm for a register operand without shift, Rn ^ imm8
/// for an immediate without rotation. In particular Rn EOR Rn is 0.
pub proof fn arm_eor_is_exclusive_or(r: RegView, instr: u32)
    requires
        r.wf(),
        (instr >> 21) & 0xF == 1,
        (instr >> 12) & 0xF != 15,
    ensures
        ({
            let rd = ((instr >> 12) & 0xF) as usize;
            let a = r.read(((instr >> 16) & 0xF) as usize);
            &&& (instr >> 25) & 1 == 0 && (instr >> 7) & 0x1F == 0 ==> r.data_processing(instr).read(rd) == a ^ r.read(
                (instr & 0xF) as usize,
            )
            &&& (instr >> 25) & 1 == 0 && (instr >> 7) & 0x1F == 0 && (instr >> 16) & 0xF == instr & 0xF
                ==> r.data_processing(instr).read(rd) == 0
            &&& (instr >> 25) & 1 == 1 && (instr >> 8) & 0xF == 0 ==> r.data_processing(instr).read(rd) == a ^ (instr
                & 0xFF)
        }),
{
    lemma_field_bits();
    let rd = ((instr >> 12) & 0xF) as usize;
    let x = instr >> 12;
    assert(x & 0xF <= 15);
    assert(rd & 0xF == rd);
    let a = r.read(((instr >> 16) & 0xF) as usize);
    let op2 = if (instr >> 25) & 1 == 1 {
        crate::arm::ror(instr & 0xFF, (((instr >> 8) & 0xF) * 2) as u32)
    } else {
        r.reg_operand(instr)
    };
    register_reads_last_write(r, rd, a ^ op2, rd);
    if (instr >> 16) & 0xF == instr & 0xF {
        assert((a ^ a) == 0);
    }
}

/// Thumb LSL Rd, Rs (format 5, ALU op 0010) shifts Rd left by the low byte
/// of Rs: Rd << n for 0 < n < 32, 0 from 32 on, and Rd unchanged for 0.
pub proof fn thumb_lsl_shifts_left(c: CpuView, instr: u16)
    requires
        c.regs.wf(),
        (instr >> 6) & 0xF == 2,
    ensures
        ({
            let rd = (instr & 0x7) as usize;
            let a = c.regs.read(rd);
            let n = c.regs.read(((instr >> 3) & 0x7) as usize) & 0xFF;
            c.thumb_alu(instr).regs.read(rd) == if n == 0 {
                a
            } else if n >= 32 {
                0
            } else {
                a << n
            }
        }),
{
    lemma_field_bits();
    let rd = (instr & 0x7) as usize;
    assert(instr & 0x7 <= 7);
    assert(rd & 0xF == rd);
    let a = c.regs.read(rd);
    let n = c.regs.read(((instr >> 3) & 0x7) as usize) & 0xFF;
    register_reads_last_write(c.regs, rd, crate::arm::shift_spec(a, 0, n), rd);
}

/// With the MMU on, a section descriptor (low bits 10) maps the 1 MB
/// section of `vaddr`: the physical address has the descriptor's top 12
/// bits and the low 20 bits of `vaddr`, and no abort is raised.
pub proof fn mmu_section_maps_high_bits(c: CpuView, vaddr: u32)
    requires
        c.cp15.c1_sctlr & 1 != 0,
        c.mmu.load32((c.cp15.c2_ttbr0 & 0xFFFF_C000) | ((vaddr >> 20) << 2)).0 & 3 == 2,
    ensures
        ({
            let desc = c.mmu.load32((c.cp15.c2_ttbr0 & 0xFFFF_C000) | ((vaddr >> 20) << 2)).0;
            &&& c.translate(vaddr).0 >> 20 == desc >> 20
            &&& c.translate(vaddr).0 & 0x000F_FFFF == vaddr & 0x000F_FFFF
            &&& c.translate(vaddr).1.exception_raised == c.exception_raised
            &&& c.translate(vaddr).1.regs == c.regs
        }),
{
    lemma_field_bits();
}

/// Setting N and Z from a result: Z says whether it is 0, N whether its
/// top bit is set; C, V and the registers stay.
pub proof fn nz_flags_follow_result(r: RegView, res: u32)
    ensures
        r.update_nz(res).flag_z() == (res == 0),
        r.update_nz(res).flag_n() == (res >= 0x8000_0000),
        r.update_nz(res).flag_c() == r.flag_c(),
        r.update_nz(res).flag_v() == r.flag_v(),
        r.update_nz(res).regs == r.regs,
{
    lemma_field_bits();
    let c1 = crate::cpu::with_bit(r.cpsr, crate::cpu::CPSR_N, res & 0x8000_0000 != 0);
    assert(res & 0x8000_0000 != 0 <==> res >= 0x8000_0000);
    if res & 0x8000_0000 != 0 {
        assert((r.cpsr | 0x8000_0000u32) & 0x4000_0000u32 != 0 <==> r.cpsr & 0x4000_0000u32 != 0);
        assert((r.cpsr | 0x8000_0000u32) & 0x2000_0000u32 != 0 <==> r.cpsr & 0x2000_0000u32 != 0);
        assert((r.cpsr | 0x8000_0000u32) & 0x1000_0000u32 != 0 <==> r.cpsr & 0x1000_0000u32 != 0);
        assert((r.cpsr | 0x8000_0000u32) & 0x8000_0000u32 != 0);
    } else {
        assert((r.cpsr & !0x8000_0000u32) & 0x4000_0000u32 != 0 <==> r.cpsr & 0x4000_0000u32 != 0);
        assert((r.cpsr & !0x8000_0000u32) & 0x2000_0000u32 != 0 <==> r.cpsr & 0x2000_0000u32 != 0);
        assert((r.cpsr & !0x8000_0000u32) & 0x1000_0000u32 != 0 <==> r.cpsr & 0x1000_0000u32 != 0);
        assert((r.cpsr & !0x8000_0000u32) & 0x8000_0000u32 == 0);
    }
    if res == 0 {
        assert((c1 | 0x4000_0000u32) & 0x4000_0000u32 != 0);
        assert((c1 | 0x4000_0000u32) & 0x8000_0000u32 != 0 <==> c1 & 0x8000_0000u32 != 0);
        assert((c1 | 0x4000_0000u32) & 0x2000_0000u32 != 0 <==> c1 & 0x2000_0000u32 != 0);
        assert((c1 | 0x4000_0000u32) & 0x1000_0000u32 != 0 <==> c1 & 0x1000_0000u32 != 0);
    } else {
        assert((c1 & !0x4000_0000u32) & 0x4000_0000u32 == 0);
        assert((c1 & !0x4000_0000u32) & 0x8000_0000u32 != 0 <==> c1 & 0x8000_0000u32 != 0);
        assert((c1 & !0x4000_0000u32) & 0x2000_0000u32 != 0 <==> c1 & 0x2000_0000u32 != 0);
        assert((c1 & !0x4000_0000u32) & 0x1000_0000u32 != 0 <==> c1 & 0x1000_0000u32 != 0);
    }
}

/// Whether an ARM data-processing instruction takes Rm as it is (register
/// operand, LSL #0).
pub open spec fn plain_register_operand(instr: u32) -> bool {
    (instr >> 25) & 1 == 0 && (instr >> 5) & 3 == 0 && (instr >> 7) & 0x1F == 0
}

/// What each ARM data-processing opcode writes to Rd (not R15), with Rn as
/// the first operand and Rm, taken as it is, as the second: AND, EOR, SUB
/// and ADD modulo 2^32, ORR, MOV, BIC and MVN; opcodes 0xA (CMP) and those
/// that are not run leave the registers as they are.
pub proof fn arm_data_processing_results(r: RegView, instr: u32)
    requires
        r.wf(),
        (instr >> 12) & 0xF != 15,
        plain_register_operand(instr),
    ensures
        ({
            let op = (instr >> 21) & 0xF;
            let rd = ((instr >> 12) & 0xF) as usize;
            let a = r.read(((instr >> 16) & 0xF) as usize);
            let b = r.read((instr & 0xF) as usize);
            let res = r.data_processing(instr).read(rd);
            &&& op == 0x0 ==> res == a & b
            &&& op == 0x1 ==> res == a ^ b
            &&& op == 0x2 ==> res as int == (a as int - b as int) % 0x1_0000_0000
            &&& op == 0x4 ==> res as int == (a as int + b as int) % 0x1_0000_0000
            &&& op == 0xC ==> res == a | b
            &&& op == 0xD ==> res == b
            &&& op == 0xE ==> res == a & !b
            &&& op == 0xF ==> res == !b
            &&& (op == 0xA || op == 0x3 || op == 0x5 || op == 0x6 || op == 0x7 || op == 0x8 || op == 0x9 || op == 0xB)
                ==> r.data_processing(instr).regs == r.regs
        }),
{
    lemma_field_bits();
    let rd = ((instr >> 12) & 0xF) as usize;
    let x = instr >> 12;
    assert(x & 0xF <= 15);
    assert(rd & 0xF == rd);
    let a = r.read(((instr >> 16) & 0xF) as usize);
    let b = r.read((instr & 0xF) as usize);
    assert(r.reg_operand(instr) == b);
    let op = (instr >> 21) & 0xF;
    let s = (instr >> 20) & 1 == 1;
    let v = if op == 0x0 { a & b } else if op == 0x1 { a ^ b } else if op == 0x2 { a.wrapping_sub(b) } else if op == 0x4 {
        a.wrapping_add(b)
    } else if op == 0xC { a | b } else if op == 0xD { b } else if op == 0xE { a & !b } else { !b };
    register_reads_last_write(r, rd, v, rd);
    let w = r.write(rd, v);
    nz_flags_follow_result(w, v);
    if op == 0x2 && s {
        sub_flags_follow(w, a, b, v);
    }
    if op == 0x4 && s {
        add_flags_keep_regs(w, a, b, v);
    }
    if op == 0xA {
        sub_flags_follow(r, a, b, a.wrapping_sub(b));
    }
}

/// Subtraction flags: Z says whether the difference is 0, N whether its top
/// bit is set, C that nothing was borrowed (a >= b); the registers stay.
pub proof fn sub_flags_follow(r: RegView, a: u32, b: u32, res: u32)
    ensures
        r.sub_flags(a, b, res).flag_z() == (res == 0),
        r.sub_flags(a, b, res).flag_n() == (res >= 0x8000_0000),
        r.sub_flags(a, b, res).flag_c() == (a >= b),
        r.sub_flags(a, b, res).regs == r.regs,
{
    lemma_field_bits();
    nz_flags_follow_result(r, res);
    let n = r.update_nz(res);
    let c = n.cpsr;
    if a >= b {
        assert((c | 0x2000_0000u32) & 0x2000_0000u32 != 0);
        assert((c | 0x2000_0000u32) & 0x8000_0000u32 != 0 <==> c & 0x8000_0000u32 != 0);
        assert((c | 0x2000_0000u32) & 0x4000_0000u32 != 0 <==> c & 0x4000_0000u32 != 0);
    } else {
        assert((c & !0x2000_0000u32) & 0x2000_0000u32 == 0);
        assert((c & !0x2000_0000u32) & 0x8000_0000u32 != 0 <==> c & 0x8000_0000u32 != 0);
        assert((c & !0x2000_0000u32) & 0x4000_0000u32 != 0 <==> c & 0x4000_0000u32 != 0);
    }
    let c2 = crate::cpu::with_bit(c, crate::cpu::CPSR_C, a >= b);
    if crate::arm::sub_overflow(a, b, res) {
        assert((c2 | 0x1000_0000u32) & 0x2000_0000u32 != 0 <==> c2 & 0x2000_0000u32 != 0);
        assert((c2 | 0x1000_0000u32) & 0x8000_0000u32 != 0 <==> c2 & 0x8000_0000u32 != 0);
        assert((c2 | 0x1000_0000u32) & 0x4000_0000u32 != 0 <==> c2 & 0x4000_0000u32 != 0);
    } else {
        assert((c2 & !0x1000_0000u32) & 0x2000_0000u32 != 0 <==> c2 & 0x2000_0000u32 != 0);
        assert((c2 & !0x1000_0000u32) & 0x8000_0000u32 != 0 <==> c2 & 0x8000_0000u32 != 0);
        assert((c2 & !0x1000_0000u32) & 0x4000_0000u32 != 0 <==> c2 & 0x4000_0000u32 != 0);
    }
}

proof fn add_flags_keep_regs(r: RegView, a: u32, b: u32, res: u32)
    ensures
        r.add_flags(a, b, res).regs == r.regs,
        r.add_flags(a, b, res).flag_z() == (res == 0),
        r.add_flags(a, b, res).flag_n() == (res >= 0x8000_0000),
{
    lemma_field_bits();
    nz_flags_follow_result(r, res);
    let c = r.update_nz(res).cpsr;
    let carry = res < a || res < b;
    if carry {
        assert((c | 0x2000_0000u32) & 0x8000_0000u32 != 0 <==> c & 0x8000_0000u32 != 0);
        assert((c | 0x2000_0000u32) & 0x4000_0000u32 != 0 <==> c & 0x4000_0000u32 != 0);
    } else {
        assert((c & !0x2000_0000u32) & 0x8000_0000u32 != 0 <==> c & 0x8000_0000u32 != 0);
        assert((c & !0x2000_0000u32) & 0x4000_0000u32 != 0 <==> c & 0x4000_0000u32 != 0);
    }
    let c2 = crate::cpu::with_bit(c, crate::cpu::CPSR_C, carry);
    if crate::arm::add_overflow(a, b, res) {
        assert((c2 | 0x1000_0000u32) & 0x8000_0000u32 != 0 <==> c2 & 0x8000_0000u32 != 0);
        assert((c2 | 0x1000_0000u32) & 0x4000_0000u32 != 0 <==> c2 & 0x4000_0000u32 != 0);
    } else {
        assert((c2 & !0x1000_0000u32) & 0x8000_0000u32 != 0 <==> c2 & 0x8000_0000u32 != 0);
        assert((c2 & !0x1000_0000u32) & 0x4000_0000u32 != 0 <==> c2 & 0x4000_0000u32 != 0);
    }
}

/// The flags an ARM data-processing instruction with S set leaves, Rm taken
/// as it is: after a result written to Rd, Z says whether it is 0 and N
/// whether its top bit is set; SUB and CMP set C exactly when nothing is
/// borrowed (Rn >= Rm), CMP sets Z exactly when Rn == Rm, and the logical
/// operations keep C.
pub proof fn arm_data_processing_flags(r: RegView, instr: u32)
    requires
        r.wf(),
        (instr >> 12) & 0xF != 15,
        (instr >> 20) & 1 == 1,
        plain_register_operand(instr),
    ensures
        ({
            let op = (instr >> 21) & 0xF;
            let rd = ((instr >> 12) & 0xF) as usize;
            let a = r.read(((instr >> 16) & 0xF) as usize);
            let b = r.read((instr & 0xF) as usize);
            let out = r.data_processing(instr);
            &&& (op == 0x0 || op == 0x1 || op == 0x2 || op == 0x4 || op == 0xC || op == 0xD || op == 0xE || op == 0xF)
                ==> out.flag_z() == (out.read(rd) == 0) && out.flag_n() == (out.read(rd) >= 0x8000_0000)
            &&& (op == 0x0 || op == 0x1 || op == 0xC || op == 0xD || op == 0xE || op == 0xF) ==> out.flag_c()
                == r.flag_c()
            &&& op == 0x2 ==> out.flag_c() == (a >= b)
            &&& op == 0xA ==> out.flag_z() == (a == b) && out.flag_c() == (a >= b)
        }),
{
    lemma_field_bits();
    arm_data_processing_results(r, instr);
    let rd = ((instr >> 12) & 0xF) as usize;
    let x = instr >> 12;
    assert(x & 0xF <= 15);
    assert(rd & 0xF == rd);
    let a = r.read(((instr >> 16) & 0xF) as usize);
    let b = r.read((instr & 0xF) as usize);
    assert(r.reg_operand(instr) == b);
    let op = (instr >> 21) & 0xF;
    let v = if op == 0x0 { a & b } else if op == 0x1 { a ^ b } else if op == 0x2 { a.wrapping_sub(b) } else if op == 0x4 {
        a.wrapping_add(b)
    } else if op == 0xC { a | b } else if op == 0xD { b } else if op == 0xE { a & !b } else { !b };
    let w = r.write(rd, v);
    register_reads_last_write(r, rd, v, rd);
    nz_flags_follow_result(w, v);
    assert(w.flag_c() == r.flag_c());
    if op == 0x2 {
        sub_flags_follow(w, a, b, v);
        register_reads_last_write(r, rd, v, rd);
    }
    if op == 0x4 {
        add_flags_keep_regs(w, a, b, v);
    }
    if op == 0xA {
        sub_flags_follow(r, a, b, a.wrapping_sub(b));
        assert((a.wrapping_sub(b) == 0) == (a == b));
    }
}

/// What each Thumb format-5 ALU operation (Rd, Rs) leaves: AND, EOR, ORR
/// and MVN write the bitwise result to Rd; LSR by the low byte n of Rs
/// gives Rd >> n (0 from 32 on), ASR the arithmetic shift (the sign from 32
/// on); both leave Rd for n = 0. Every written result sets Z exactly when
/// it is 0. TST and CMP write no register: TST sets Z exactly when
/// Rd & Rs is 0, CMP sets Z exactly when Rd == Rs and C exactly when
/// Rd >= Rs.
pub proof fn thumb_alu_results(c: CpuView, instr: u16)
    requires
        c.regs.wf(),
    ensures
        ({
            let op = (instr >> 6) & 0xF;
            let rd = (instr & 0x7) as usize;
            let a = c.regs.read(rd);
            let b = c.regs.read(((instr >> 3) & 0x7) as usize);
            let n = b & 0xFF;
            let out = c.thumb_alu(instr).regs;
            &&& op == 0x0 ==> out.read(rd) == a & b
            &&& op == 0x1 ==> out.read(rd) == a ^ b
            &&& op == 0x3 ==> out.read(rd) == if n == 0 {
                a
            } else if n >= 32 {
                0
            } else {
                a >> n
            }
            &&& op == 0x4 ==> out.read(rd) == if n == 0 {
                a
            } else if n >= 32 {
                if a >= 0x8000_0000 { 0xFFFF_FFFFu32 } else { 0u32 }
            } else {
                ((a as i32) >> n) as u32
            }
            &&& op == 0xC ==> out.read(rd) == a | b
            &&& op == 0xF ==> out.read(rd) == !b
            &&& (op == 0x0 || op == 0x1 || op == 0x2 || op == 0x3 || op == 0x4 || op == 0xC || op == 0xF) ==> out.flag_z()
                == (out.read(rd) == 0)
            &&& op == 0x8 ==> out.regs == c.regs.regs && out.flag_z() == (a & b == 0)
            &&& op == 0xA ==> out.regs == c.regs.regs && out.flag_z() == (a == b) && out.flag_c() == (a >= b)
        }),
{
    lemma_field_bits();
    let op = (instr >> 6) & 0xF;
    let rd = (instr & 0x7) as usize;
    assert(instr & 0x7 <= 7);
    assert(rd & 0xF == rd);
    let r = c.regs;
    let a = r.read(rd);
    let b = r.read(((instr >> 3) & 0x7) as usize);
    let n = b & 0xFF;
    let v = if op == 0x0 { a & b } else if op == 0x1 { a ^ b } else if op == 0x2 { crate::arm::shift_spec(a, 0, n) }
        else if op == 0x3 { crate::arm::shift_spec(a, 1, n) } else if op == 0x4 { crate::arm::shift_spec(a, 2, n) }
        else if op == 0xC { a | b } else { !b };
    register_reads_last_write(r, rd, v, rd);
    let w = r.write(rd, v);
    nz_flags_follow_result(w, v);
    nz_flags_follow_result(r, a & b);
    sub_flags_follow(r, a, b, a.wrapping_sub(b));
    assert((a.wrapping_sub(b) == 0) == (a == b));
    if op == 0x4 && n != 0 && n < 32 {
        lemma_asr_is_signed_shift(a, n);
    }
    if op == 0x4 && n >= 32 {
        assert(a & 0x8000_0000 != 0 <==> a >= 0x8000_0000);
    }
}

/// With the MMU on, a coarse first-level descriptor (low bits 01) whose
/// second-level entry is a small page (low bits 10) maps the 4 KB page of
/// `vaddr`: the physical address has the entry's top 20 bits and the low
/// 12 bits of `vaddr`, and no abort is raised.
pub proof fn mmu_small_page_maps_high_bits(c: CpuView, vaddr: u32)
    requires
        c.cp15.c1_sctlr & 1 != 0,
        c.mmu.load32((c.cp15.c2_ttbr0 & 0xFFFF_C000) | ((vaddr >> 20) << 2)).0 & 3 == 1,
        ({
            let (desc, m1) = c.mmu.load32((c.cp15.c2_ttbr0 & 0xFFFF_C000) | ((vaddr >> 20) << 2));
            m1.load32((desc & 0xFFFF_FC00) | (((vaddr >> 12) & 0xFF) << 2)).0 & 3 == 2
        }),
    ensures
        ({
            let (desc, m1) = c.mmu.load32((c.cp15.c2_ttbr0 & 0xFFFF_C000) | ((vaddr >> 20) << 2));
            let l2 = m1.load32((desc & 0xFFFF_FC00) | (((vaddr >> 12) & 0xFF) << 2)).0;
            &&& c.translate(vaddr).0 >> 12 == l2 >> 12
            &&& c.translate(vaddr).0 & 0x0000_0FFF == vaddr & 0x0000_0FFF
            &&& c.translate(vaddr).1.exception_raised == c.exception_raised
            &&& c.translate(vaddr).1.regs == c.regs
        }),
{
    lemma_field_bits();
}

/// MOV with an immediate operand writes the 8-bit immediate rotated right
/// by twice the rotation field: unrotated for rotation 0, and otherwise a
/// value that, rotated left by the same amount, gives the immediate back.
pub proof fn arm_mov_immediate(r: RegView, instr: u32)
    requires
        r.wf(),
        (instr >> 21) & 0xF == 0xD,
        (instr >> 25) & 1 == 1,
        (instr >> 12) & 0xF != 15,
    ensures
        ({
            let res = r.data_processing(instr).read(((instr >> 12) & 0xF) as usize);
            let k = ((instr >> 8) & 0xF) * 2;
            &&& k == 0 ==> res == instr & 0xFF
            &&& k != 0 ==> (res << k) | (res >> ((32 - k) as u32)) == instr & 0xFF
        }),
{
    lemma_field_bits();
    let rd = ((instr >> 12) & 0xF) as usize;
    let x = instr >> 12;
    assert(x & 0xF <= 15);
    assert(rd & 0xF == rd);
    let y = instr >> 8;
    assert(y & 0xF <= 15);
    let k = ((instr >> 8) & 0xF) * 2;
    let v = crate::arm::ror(instr & 0xFF, k as u32);
    register_reads_last_write(r, rd, v, rd);
    if k != 0 {
        let imm = instr & 0xFF;
        let kk = k as u32;
        assert(kk % 32 == kk);
        assert(((imm >> kk) | (imm << ((32 - kk) as u32))) << kk | (((imm >> kk) | (imm << ((32 - kk) as u32))) >> ((32
            - kk) as u32)) == imm);
    }
}

/// The condition field: EQ holds exactly when Z is set, CS when C is, MI
/// when N is, VS when V is, HI when C is set and Z clear, GE when N equals
/// V, GT when moreover Z is clear, and AL always; each odd condition up to
/// LE holds exactly when the even one before it does not.
pub proof fn condition_codes_pair_up(r: RegView, even: u32, odd: u32)
    requires
        (even >> 28) & 0xF < 14,
        (even >> 28) & 0xF == ((odd >> 28) & 0xF) - 1,
        ((even >> 28) & 0xF) % 2 == 0,
    ensures
        r.cond_holds(odd) == !r.cond_holds(even),
        (even >> 28) & 0xF == 0 ==> r.cond_holds(even) == r.flag_z(),
        (even >> 28) & 0xF == 2 ==> r.cond_holds(even) == r.flag_c(),
        (even >> 28) & 0xF == 4 ==> r.cond_holds(even) == r.flag_n(),
        (even >> 28) & 0xF == 6 ==> r.cond_holds(even) == r.flag_v(),
        (even >> 28) & 0xF == 8 ==> r.cond_holds(even) == (r.flag_c() && !r.flag_z()),
        (even >> 28) & 0xF == 10 ==> r.cond_holds(even) == (r.flag_n() == r.flag_v()),
        (even >> 28) & 0xF == 12 ==> r.cond_holds(even) == (!r.flag_z() && r.flag_n() == r.flag_v()),
{
}

/// The AL condition (1110) always holds.
pub proof fn condition_always_holds(r: RegView, instr: u32)
    requires
        (instr >> 28) & 0xF == 14,
    ensures
        r.cond_holds(instr),
{
}

/// B and BL move the PC by the signed 24-bit word offset from the fetch
/// address + 8: the distance is a multiple of 4 whose next 24 bits are the
/// offset field and whose top bits copy its sign. BL puts the address of
/// the next instruction in LR; B leaves LR.
pub proof fn arm_branch_target(r: RegView, instr: u32, pc: u32)
    requires
        r.wf(),
    ensures
        ({
            let out = r.branch(instr, pc);
            let d = out.pc().wrapping_sub(pc.wrapping_add(8));
            &&& d & 3 == 0
            &&& (d >> 2) & 0xFF_FFFF == instr & 0xFF_FFFF
            &&& d >> 26 == if instr & 0x80_0000 != 0 { 0x3Fu32 } else { 0u32 }
            &&& (instr >> 24) & 1 == 1 ==> out.lr() == pc.wrapping_add(4)
            &&& (instr >> 24) & 1 == 0 ==> out.lr() == r.lr()
        }),
{
    lemma_field_bits();
    let o = instr & 0x00FF_FFFF;
    let t1 = (instr & 0x00FF_FFFF) << 2u32;
    let t2 = ((instr & 0x00FF_FFFF) | 0xFF00_0000) << 2u32;
    assert(t1 & 3 == 0 && (t1 >> 2u32) & 0xFF_FFFF == instr & 0xFF_FFFF && t1 >> 26u32 == 0);
    assert(t2 & 3 == 0 && (t2 >> 2u32) & 0xFF_FFFF == instr & 0xFF_FFFF && t2 >> 26u32 == 0x3F);
    assert(((instr & 0x00FF_FFFF) & 0x0080_0000 != 0) == (instr & 0x80_0000 != 0));
    assert(o << 2 == t1);
    assert((o | 0xFF00_0000) << 2 == t2);
    let off = if o & 0x0080_0000 != 0 { (o | 0xFF00_0000) << 2 } else { o << 2 };
    let base = pc.wrapping_add(8);
    assert(base.wrapping_add(off).wrapping_sub(base) == off);
}

/// MUL writes the product of Rm and Rs modulo 2^32 to Rd, MLA adds Rn;
/// UMULL writes the whole 64-bit product, low word to RdLo and high word
/// to RdHi.
pub proof fn arm_multiply_products(r: RegView, instr: u32)
    requires
        r.wf(),
    ensures
        ({
            let rm = r.read((instr & 0xF) as usize);
            let rs = r.read(((instr >> 8) & 0xF) as usize);
            let out = r.multiply(instr);
            &&& (instr >> 23) & 1 == 0 && (instr >> 21) & 1 == 0 && (instr >> 16) & 0xF != 15 ==> out.read(
                ((instr >> 16) & 0xF) as usize,
            ) as int == (rm as int * rs as int) % 0x1_0000_0000
            &&& (instr >> 23) & 1 == 0 && (instr >> 21) & 1 == 1 && (instr >> 16) & 0xF != 15 ==> out.read(
                ((instr >> 16) & 0xF) as usize,
            ) as int == (rm as int * rs as int + r.read(((instr >> 12) & 0xF) as usize) as int) % 0x1_0000_0000
            &&& (instr >> 23) & 1 == 1 && (instr >> 22) & 1 == 0 && (instr >> 21) & 1 == 0 && (instr >> 16) & 0xF != 15
                && (instr >> 12) & 0xF != 15 && (instr >> 16) & 0xF != (instr >> 12) & 0xF ==> out.read(
                ((instr >> 12) & 0xF) as usize,
            ) as int + 0x1_0000_0000 * out.read(((instr >> 16) & 0xF) as usize) as int == rm as int * rs as int
        }),
{
    lemma_field_bits();
    let rdh = ((instr >> 16) & 0xF) as usize;
    let rdl = ((instr >> 12) & 0xF) as usize;
    let x1 = instr >> 16;
    let x2 = instr >> 12;
    assert(x1 & 0xF <= 15);
    assert(x2 & 0xF <= 15);
    assert(rdh & 0xF == rdh);
    assert(rdl & 0xF == rdl);
    let rm = r.read((instr & 0xF) as usize);
    let rs = r.read(((instr >> 8) & 0xF) as usize);
    if (instr >> 23) & 1 == 0 {
        let acc = (instr >> 21) & 1 == 1;
        let m = rm.wrapping_mul(rs);
        assert(m as int == (rm as int * rs as int) % 0x1_0000_0000);
        let res = if acc { m.wrapping_add(r.read(rdl)) } else { m };
        register_reads_last_write(r, rdh, res, rdh);
        nz_flags_follow_result(r.write(rdh, res), res);
        if acc {
            let n = r.read(rdl) as int;
            let p = rm as int * rs as int;
            assert(res as int == (m as int + n) % 0x1_0000_0000);
            assert((p % 0x1_0000_0000 + n) % 0x1_0000_0000 == (p + n) % 0x1_0000_0000) by (nonlinear_arith);
        }
    } else if (instr >> 22) & 1 == 0 && (instr >> 21) & 1 == 0 {
        let p = ((rm as int) * (rs as int));
        assert(0 <= p <= 0xFFFF_FFFF * 0xFFFF_FFFF) by (nonlinear_arith)
            requires
                p == (rm as int) * (rs as int),
        ;
        let x = RegView::long_product(rm, rs, false);
        assert(x as int == p);
        let w1 = r.write(rdl, x as u32);
        register_reads_last_write(r, rdl, x as u32, rdl);
        register_reads_last_write(w1, rdh, (x >> 32) as u32, rdh);
        register_reads_last_write(w1, rdh, (x >> 32) as u32, rdl);
        assert((x as u32) as int + 0x1_0000_0000 * ((x >> 32u64) as u32) as int == x as int);
    }
}

/// Thumb format 3 (8-bit immediate): MOV writes the immediate, ADD and SUB
/// write Rd plus or minus it modulo 2^32, and CMP writes no register, Z
/// telling whether Rd equals the immediate and C whether Rd is not below it.
pub proof fn thumb_immediate_results(c: CpuView, instr: u16)
    requires
        c.regs.wf(),
    ensures
        ({
            let op = (instr >> 11) & 0x3;
            let rd = ((instr >> 8) & 0x7) as usize;
            let a = c.regs.read(rd);
            let imm = (instr % 256) as u32;
            let out = c.thumb_imm(instr).regs;
            &&& op == 0 ==> out.read(rd) == imm
            &&& op == 1 ==> out.regs == c.regs.regs && out.flag_z() == (a == imm) && out.flag_c() == (a >= imm)
            &&& op == 2 ==> out.read(rd) as int == (a as int + imm as int) % 0x1_0000_0000
            &&& op == 3 ==> out.read(rd) as int == (a as int - imm as int) % 0x1_0000_0000
        }),
{
    lemma_field_bits();
    let y = instr >> 8;
    assert(y & 0x7 <= 7);
    let rd = ((instr >> 8) & 0x7) as usize;
    assert(rd & 0xF == rd);
    assert((instr & 0xff) == instr % 256);
    let r = c.regs;
    let a = r.read(rd);
    let imm = (instr & 0xFF) as u32;
    let op = (instr >> 11) & 0x3;
    let v = if op == 0 { imm } else if op == 2 { a.wrapping_add(imm) } else { a.wrapping_sub(imm) };
    register_reads_last_write(r, rd, v, rd);
    let w = r.write(rd, v);
    nz_flags_follow_result(w, v);
    sub_flags_follow(w, a, imm, v);
    sub_flags_follow(r, a, imm, a.wrapping_sub(imm));
    assert((a.wrapping_sub(imm) == 0) == (a == imm));
    thumb_add_flags_keep_regs(w, a, imm, v);
}

proof fn thumb_add_flags_keep_regs(r: RegView, a: u32, b: u32, res: u32)
    ensures
        r.thumb_add_flags(a, b, res).regs == r.regs,
{
}

/// Thumb formats 1 and 2: shifts by a 5-bit immediate n of Rs into Rd
/// (LSL gives Rs << n, LSR Rs >> n, ASR the arithmetic shift, each Rs
/// itself for n = 0), and ADD / SUB of Rs and Rn or a 3-bit immediate,
/// modulo 2^32.
#[verifier::rlimit(40)]
pub proof fn thumb_shift_add_results(c: CpuView, instr: u16)
    requires
        c.regs.wf(),
    ensures
        ({
            let op = (instr >> 11) & 0x3;
            let rd = (instr & 0x7) as usize;
            let a = c.regs.read(((instr >> 3) & 0x7) as usize);
            let n = ((instr >> 6) & 0x1F) as u32;
            let operand: u32 = if (instr >> 10) & 1 == 1 {
                ((instr >> 6) & 0x7) as u32
            } else {
                c.regs.read(((instr >> 6) & 0x7) as usize)
            };
            let out = c.thumb_shift_add(instr).regs;
            &&& op == 0 ==> out.read(rd) == if n == 0 { a } else { a << n }
            &&& op == 1 ==> out.read(rd) == if n == 0 { a } else { a >> n }
            &&& op == 2 ==> out.read(rd) == if n == 0 { a } else { ((a as i32) >> n) as u32 }
            &&& op == 3 && (instr >> 9) & 1 == 0 ==> out.read(rd) as int == (a as int + operand as int) % 0x1_0000_0000
            &&& op == 3 && (instr >> 9) & 1 == 1 ==> out.read(rd) as int == (a as int - operand as int) % 0x1_0000_0000
        }),
{
    lemma_field_bits();
    let rd = (instr & 0x7) as usize;
    assert(instr & 0x7 <= 7);
    assert(rd & 0xF == rd);
    let r = c.regs;
    let op = (instr >> 11) & 0x3;
    let a = r.read(((instr >> 3) & 0x7) as usize);
    let n = ((instr >> 6) & 0x1F) as u32;
    let operand: u32 = if (instr >> 10) & 1 == 1 {
        ((instr >> 6) & 0x7) as u32
    } else {
        r.read(((instr >> 6) & 0x7) as usize)
    };
    let v = if op == 3 {
        if (instr >> 9) & 1 == 1 { a.wrapping_sub(operand) } else { a.wrapping_add(operand) }
    } else {
        crate::arm::shift_spec(a, op as u8, n)
    };
    register_reads_last_write(r, rd, v, rd);
    let w = r.write(rd, v);
    nz_flags_follow_result(w, v);
    sub_flags_follow(w, a, operand, v);
    thumb_add_flags_keep_regs(w, a, operand, v);
    let y = instr >> 6;
    assert(y & 0x1F <= 31);
    assert(n < 32);
    if op == 2 && n != 0 {
        lemma_asr_is_signed_shift(a, n);
    }
}

proof fn lemma_asr_is_signed_shift(a: u32, n: u32)
    by (bit_vector)
    requires
        n < 32,
    ensures
        (if a & 0x8000_0000 != 0 { !((!a) >> n) } else { a >> n }) == ((a as i32) >> n) as u32,
{
}

} // verus!
