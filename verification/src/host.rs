//! What the browser front end asks of the emulator, apart from the browser
//! plumbing itself: a demo framebuffer, CPU sessions, batch runs, debug
//! JSON, hex program loading, logcat text and drawing text into VRAM.
use vstd::prelude::*;
use crate::arm::CpuView;
use crate::cpu::{Cpu, BOOT_ADDRESS};
use crate::cpu::RegView;
use crate::memory::{LogEntryView, Mmu, MmuView, VRAM_BASE, VRAM_SIZE, in_vram};
use crate::disasm::{dec_str, disasm, hex8, push_dec, push_hex_padded};
use crate::android::runtime::bool_text;
use crate::android::fixture::{le32s, push_le32};

verus! {

pub const SCREEN_WIDTH: usize = 800;
pub const SCREEN_HEIGHT: usize = 600;
/// 800 × 600 RGBA pixels.
pub const FRAMEBUFFER_SIZE: usize = 1920000;
/// The size limit for an uploaded APK or ROM (32 MiB).
pub const MAX_UPLOAD_BYTES: usize = 33554432;

// ── The demo framebuffer ──────────────────────────────────────────────

/// An 800×600 RGBA framebuffer with a pseudo-random generator, used to
/// test the display path.
pub struct VirtualCPU {
    pub framebuffer: Vec<u8>,
    pub width: u32,
    pub height: u32,
    pub seed: u32,
}

/// One xorshift32 step.
pub open spec fn xorshift(x: u32) -> u32 {
    let a = x ^ (x << 13);
    let b = a ^ (a >> 17);
    b ^ (b << 5)
}

/// The generator state after `k` steps from `s`.
pub open spec fn xorshift_n(s: u32, k: nat) -> u32
    decreases k,
{
    if k == 0 {
        s
    } else {
        xorshift(xorshift_n(s, (k - 1) as nat))
    }
}

/// Byte `i` of an opaque black frame.
pub open spec fn black_byte(i: int) -> u8 {
    if i % 4 == 3 { 255 } else { 0 }
}

/// Byte `i` of the noise frame drawn from generator state `s`: pixel `p`
/// takes its red, green and blue from the state after `p + 1` steps.
pub open spec fn noise_byte(s: u32, i: int) -> u8 {
    let v = xorshift_n(s, (i / 4 + 1) as nat);
    let c = i % 4;
    if c == 0 {
        (v & 0xFF) as u8
    } else if c == 1 {
        ((v >> 8) & 0xFF) as u8
    } else if c == 2 {
        ((v >> 16) & 0xFF) as u8
    } else {
        255
    }
}

/// Byte `i` of the gradient frame `frame` (pixel `p` at x = p % 800,
/// y = p / 800).
pub open spec fn gradient_byte(frame: u32, i: int) -> u8 {
    let p = i / 4;
    let x = (p % 800) as u32;
    let y = (p / 800) as u32;
    let c = i % 4;
    if c == 0 {
        (x.wrapping_add(frame) % 256) as u8
    } else if c == 1 {
        (y.wrapping_add(frame.wrapping_mul(2)) % 256) as u8
    } else if c == 2 {
        (x.wrapping_add(y).wrapping_add(frame.wrapping_mul(3)) % 256) as u8
    } else {
        255
    }
}

fn xorshift_exec(x: u32) -> (r: u32)
    ensures
        r == xorshift(x),
{
    let mut x = x;
    x = x ^ (x << 13);
    x = x ^ (x >> 17);
    x = x ^ (x << 5);
    x
}

impl VirtualCPU {
    /// A black 800×600 frame, generator seeded with 42.
    pub fn new() -> (r: VirtualCPU)
        ensures
            r.framebuffer@.len() == FRAMEBUFFER_SIZE,
            forall|i: int| 0 <= i < FRAMEBUFFER_SIZE ==> #[trigger] r.framebuffer@[i] == black_byte(i),
            r.width == SCREEN_WIDTH,
            r.height == SCREEN_HEIGHT,
            r.seed == 42,
    {
        let mut fb: Vec<u8> = Vec::new();
        let mut i: usize = 0;
        while i < FRAMEBUFFER_SIZE
            invariant
                i <= FRAMEBUFFER_SIZE,
                fb@.len() == i,
                forall|k: int| 0 <= k < i ==> #[trigger] fb@[k] == black_byte(k),
            decreases FRAMEBUFFER_SIZE - i,
        {
            fb.push(if i % 4 == 3 { 255 } else { 0 });
            i = i + 1;
        }
        VirtualCPU { framebuffer: fb, width: SCREEN_WIDTH as u32, height: SCREEN_HEIGHT as u32, seed: 42 }
    }

    /// The framebuffer length in bytes.
    pub fn framebuffer_len(&self) -> (r: usize)
        ensures
            r == self.framebuffer@.len(),
    {
        self.framebuffer.len()
    }

    /// Screen width.
    pub fn width(&self) -> (r: u32)
        ensures
            r == self.width,
    {
        self.width
    }

    /// Screen height.
    pub fn height(&self) -> (r: u32)
        ensures
            r == self.height,
    {
        self.height
    }

    /// Advances the generator one xorshift32 step and returns the new state.
    pub fn next_random(&mut self) -> (r: u32)
        ensures
            r == xorshift(old(self).seed),
            final(self).seed == r,
            final(self).framebuffer == old(self).framebuffer,
            final(self).width == old(self).width,
            final(self).height == old(self).height,
    {
        let x = xorshift_exec(self.seed);
        self.seed = x;
        x
    }

    /// Fills the frame with noise, one generator step per pixel.
    pub fn render_noise(&mut self)
        requires
            old(self).framebuffer@.len() % 4 == 0,
        ensures
            final(self).framebuffer@.len() == old(self).framebuffer@.len(),
            forall|i: int| 0 <= i < final(self).framebuffer@.len() ==> #[trigger] final(self).framebuffer@[i] == noise_byte(old(self).seed, i),
            final(self).seed == xorshift_n(old(self).seed, (old(self).framebuffer@.len() / 4) as nat),
            final(self).width == old(self).width,
            final(self).height == old(self).height,
    {
        let s0 = self.seed;
        let n = self.framebuffer.len() / 4;
        let mut seed = s0;
        let mut p: usize = 0;
        while p < n
            invariant
                n == old(self).framebuffer@.len() / 4,
                old(self).framebuffer@.len() % 4 == 0,
                4 * n == self.framebuffer.len(),
                self.framebuffer@.len() == old(self).framebuffer@.len(),
                self.width == old(self).width,
                self.height == old(self).height,
                s0 == old(self).seed,
                p <= n,
                seed == xorshift_n(s0, p as nat),
                forall|i: int| 0 <= i < 4 * p ==> #[trigger] self.framebuffer@[i] == noise_byte(s0, i),
            decreases n - p,
        {
            seed = xorshift_exec(seed);
            let idx = p * 4;
            self.framebuffer.set(idx, (seed & 0xFF) as u8);
            self.framebuffer.set(idx + 1, ((seed >> 8) & 0xFF) as u8);
            self.framebuffer.set(idx + 2, ((seed >> 16) & 0xFF) as u8);
            self.framebuffer.set(idx + 3, 255);
            proof {
                assert forall|i: int| 0 <= i < 4 * (p + 1) implies #[trigger] self.framebuffer@[i] == noise_byte(s0, i) by {
                    if i >= 4 * p {
                        assert(i / 4 == p);
                    }
                }
            }
            p = p + 1;
        }
        self.seed = seed;
    }

    /// Fills the frame with a colour gradient shifted by `frame`.
    pub fn render_gradient(&mut self, frame: u32)
        requires
            old(self).framebuffer@.len() == FRAMEBUFFER_SIZE,
            old(self).width == SCREEN_WIDTH,
            old(self).height == SCREEN_HEIGHT,
        ensures
            final(self).framebuffer@.len() == FRAMEBUFFER_SIZE,
            forall|i: int| 0 <= i < FRAMEBUFFER_SIZE ==> #[trigger] final(self).framebuffer@[i] == gradient_byte(frame, i),
            final(self).width == old(self).width,
            final(self).height == old(self).height,
            final(self).seed == old(self).seed,
    {
        let mut p: u32 = 0;
        while p < 480000
            invariant
                self.framebuffer@.len() == FRAMEBUFFER_SIZE,
                self.width == old(self).width,
                self.height == old(self).height,
                self.seed == old(self).seed,
                p <= 480000,
                forall|i: int| 0 <= i < 4 * p ==> #[trigger] self.framebuffer@[i] == gradient_byte(frame, i),
            decreases 480000 - p,
        {
            let x = p % 800;
            let y = p / 800;
            let idx = (p * 4) as usize;
            self.framebuffer.set(idx, (x.wrapping_add(frame) % 256) as u8);
            self.framebuffer.set(idx + 1, (y.wrapping_add(frame.wrapping_mul(2)) % 256) as u8);
            self.framebuffer.set(idx + 2, (x.wrapping_add(y).wrapping_add(frame.wrapping_mul(3)) % 256) as u8);
            self.framebuffer.set(idx + 3, 255);
            proof {
                assert forall|i: int| 0 <= i < 4 * (p + 1) implies #[trigger] self.framebuffer@[i] == gradient_byte(frame, i) by {
                    if i >= 4 * p {
                        assert(i / 4 == p);
                    }
                }
            }
            p = p + 1;
        }
    }
}


// ── Emulator sessions ─────────────────────────────────────────────────

/// RAM when the caller asks for 0 MB.
pub const DEFAULT_RAM_MB: u32 = 512;
/// The largest RAM a caller can ask for.
pub const MAX_RAM_MB: u32 = 4096;
/// Instructions per system-timer tick when the caller passes 0.
pub const DEFAULT_TIMER_INTERVAL: u32 = 200000;

/// The RAM size in MB for a request of `ram_mb`: 0 means the default, and
/// larger requests are capped.
pub open spec fn effective_ram_mb_spec(ram_mb: u32) -> u32 {
    if ram_mb == 0 {
        DEFAULT_RAM_MB
    } else if ram_mb > MAX_RAM_MB {
        MAX_RAM_MB
    } else {
        ram_mb
    }
}

/// See [`effective_ram_mb_spec`].
pub fn effective_ram_mb(ram_mb: u32) -> (r: u32)
    ensures
        r == effective_ram_mb_spec(ram_mb),
{
    if ram_mb == 0 {
        DEFAULT_RAM_MB
    } else if ram_mb > MAX_RAM_MB {
        MAX_RAM_MB
    } else {
        ram_mb
    }
}

/// The RAM size in bytes for a request of `ram_mb` megabytes.
pub fn emulator_ram_bytes(ram_mb: u32) -> (r: u64)
    ensures
        r == effective_ram_mb_spec(ram_mb) as int * 1048576,
{
    let mb = effective_ram_mb(ram_mb);
    (mb as u64) * 1048576
}

/// A fresh CPU with `ram_bytes` of RAM, PC at 0x8000 and SP 64 KB below
/// the top of RAM.
pub open spec fn emulator_start(ram_bytes: usize) -> CpuView {
    let s = CpuView::initial(ram_bytes);
    s.with_regs(s.regs.set_reg(15, BOOT_ADDRESS).set_reg(13, (ram_bytes as u32).wrapping_sub(0x1_0000)))
}

/// Creates the CPU of an emulator session (see [`emulator_start`]).
pub fn new_emulator_cpu(ram_bytes: usize) -> (r: Cpu)
    ensures
        r@ == emulator_start(ram_bytes),
        r.wf(),
{
    let mut cpu = Cpu::new(ram_bytes);
    cpu.regs.set_pc(BOOT_ADDRESS);
    cpu.regs.set_sp((ram_bytes as u32).wrapping_sub(0x1_0000));
    cpu
}

/// The timer interval actually used: 0 stands for the default.
pub open spec fn timer_interval_spec(t: u32) -> u32 {
    if t == 0 { DEFAULT_TIMER_INTERVAL } else { t }
}

/// `s` with the system timer register advanced by one.
pub open spec fn tick_sys_timer(s: CpuView) -> CpuView {
    s.with_mmu(MmuView { sys_timer: s.mmu.sys_timer.wrapping_add(1), ..s.mmu })
}

/// Running instructions number `i` to `count` from `s`: each step that
/// runs counts one, after instruction `i` with `i` a multiple of
/// `interval` the system timer ticks, and a step that reports a halted
/// CPU ends the run. Gives the number of instructions run and the state.
pub open spec fn batch_from(s: CpuView, i: int, count: int, interval: u32) -> (nat, CpuView)
    decreases count - i + 1,
{
    if i > count {
        (0, s)
    } else {
        let (ran, s1) = s.step();
        if !ran {
            (0, s1)
        } else {
            let s2 = if i % (interval as int) == 0 { tick_sys_timer(s1) } else { s1 };
            let (n, s3) = batch_from(s2, i + 1, count, interval);
            (n + 1, s3)
        }
    }
}

/// Runs up to `count` instructions, ticking the system timer every
/// `timer_interval` instructions (0 means the default), and returns how
/// many ran: fewer than `count` only if the CPU halted.
pub fn run_batch(cpu: &mut Cpu, count: u32, timer_interval: u32) -> (r: u32)
    requires
        old(cpu).wf(),
    ensures
        r as nat == batch_from(old(cpu)@, 1, count as int, timer_interval_spec(timer_interval)).0,
        final(cpu)@ == batch_from(old(cpu)@, 1, count as int, timer_interval_spec(timer_interval)).1,
        r <= count,
        final(cpu).wf(),
{
    let interval = if timer_interval == 0 { DEFAULT_TIMER_INTERVAL } else { timer_interval };
    let ghost total = batch_from(cpu@, 1, count as int, interval);
    let mut executed: u32 = 0;
    let mut i: u64 = 1;
    while i <= count as u64
        invariant
            1 <= i <= count as u64 + 1,
            executed as int == i - 1,
            interval == timer_interval_spec(timer_interval),
            cpu.wf(),
            total == batch_from(old(cpu)@, 1, count as int, interval),
            total.0 == batch_from(cpu@, i as int, count as int, interval).0 + executed,
            total.1 == batch_from(cpu@, i as int, count as int, interval).1,
        decreases count as u64 + 1 - i,
    {
        let ghost before = cpu@;
        let ran = cpu.step();
        if !ran {
            return executed;
        }
        executed = executed + 1;
        if i % (interval as u64) == 0 {
            let t = cpu.mmu.sys_timer.wrapping_add(1);
            cpu.mmu.sys_timer = t;
            assert(cpu@ == tick_sys_timer(before.step().1)) by {
                assert(cpu@.mmu =~= tick_sys_timer(before.step().1).mmu);
            }
        }
        i = i + 1;
    }
    executed
}

// ── Demo program ──────────────────────────────────────────────────────

/// The demo program: MOV R0,#5; MOV R1,#10; ADD R2,R0,R1; SUB R3,R2,#1;
/// CMP R3,#14; BEQ +8; MOV R4,#1; B +8; MOV R4,#0; NOP.
pub open spec fn demo_words() -> Seq<u32> {
    seq![
        0xE3A00005u32,
        0xE3A0100Au32,
        0xE0802001u32,
        0xE2423001u32,
        0xE353000Eu32,
        0x0A000000u32,
        0xE3A04001u32,
        0xEA000000u32,
        0xE3A04000u32,
        0xE1A00000u32,
    ]
}

/// The words of `words`, each as four little-endian bytes.
pub fn words_to_le(words: &[u32]) -> (r: Vec<u8>)
    ensures
        r@ == le32s(words@),
{
    let mut out: Vec<u8> = Vec::new();
    let mut k: usize = 0;
    while k < words.len()
        invariant
            k <= words.len(),
            out@ == le32s(words@.take(k as int)),
        decreases words.len() - k,
    {
        assert(words@.take(k + 1).drop_last() =~= words@.take(k as int));
        push_le32(&mut out, words[k]);
        k = k + 1;
    }
    assert(words@.take(words.len() as int) =~= words@);
    out
}

/// The demo program's machine code.
pub fn demo_program() -> (r: Vec<u8>)
    ensures
        r@ == le32s(demo_words()),
{
    let words: Vec<u32> = vec![
        0xE3A00005u32,
        0xE3A0100Au32,
        0xE0802001u32,
        0xE2423001u32,
        0xE353000Eu32,
        0x0A000000u32,
        0xE3A04001u32,
        0xEA000000u32,
        0xE3A04000u32,
        0xE1A00000u32,
    ];
    assert(words@ =~= demo_words());
    words_to_le(words.as_slice())
}

/// Loads the demo program at 0x8000 and points PC at it.
pub fn load_demo_program(cpu: &mut Cpu)
    requires
        old(cpu).wf(),
    ensures
        final(cpu)@ == old(cpu)@.load_program(BOOT_ADDRESS, le32s(demo_words())),
        final(cpu).wf(),
{
    let program = demo_program();
    cpu.load_program(BOOT_ADDRESS, program.as_slice());
}


// ── Hex programs ──────────────────────────────────────────────────────

/// Whether `c` is an ASCII hexadecimal digit.
pub open spec fn is_hex_digit(c: char) -> bool {
    ||| ('0' as u32 <= c as u32 && c as u32 <= '9' as u32)
    ||| ('a' as u32 <= c as u32 && c as u32 <= 'f' as u32)
    ||| ('A' as u32 <= c as u32 && c as u32 <= 'F' as u32)
}

/// The value of the hexadecimal digit `c`.
pub open spec fn hex_value(c: char) -> nat {
    if c as u32 <= '9' as u32 {
        (c as u32 - '0' as u32) as nat
    } else if c as u32 <= 'F' as u32 {
        (c as u32 - 'A' as u32 + 10) as nat
    } else {
        (c as u32 - 'a' as u32 + 10) as nat
    }
}

/// The hexadecimal digits of `s`, in order; everything else dropped.
pub open spec fn hex_digits(s: Seq<char>) -> Seq<char>
    decreases s.len(),
{
    if s.len() == 0 {
        Seq::empty()
    } else if is_hex_digit(s.last()) {
        hex_digits(s.drop_last()).push(s.last())
    } else {
        hex_digits(s.drop_last())
    }
}

/// The digits `ds` read as a base-16 number, most significant first.
pub open spec fn hex_number(ds: Seq<char>) -> nat
    decreases ds.len(),
{
    if ds.len() == 0 {
        0
    } else {
        hex_number(ds.drop_last()) * 16 + hex_value(ds.last())
    }
}

/// The digits in groups of eight, each group read as a 32-bit word.
pub open spec fn hex_words(ds: Seq<char>) -> Seq<u32> {
    Seq::new(ds.len() / 8, |k: int| hex_number(ds.subrange(8 * k, 8 * k + 8)) as u32)
}

/// A hex program: its hexadecimal digits (anything else is a separator)
/// in groups of eight, each group a word stored little-endian. Fails with
/// the number of digits when that is not a multiple of eight.
pub open spec fn parse_hex_spec(s: Seq<char>) -> Result<Seq<u8>, nat> {
    let ds = hex_digits(s);
    if ds.len() % 8 != 0 {
        Err(ds.len())
    } else {
        Ok(le32s(hex_words(ds)))
    }
}

pub open spec fn pow16(n: nat) -> nat
    decreases n,
{
    if n == 0 { 1 } else { 16 * pow16((n - 1) as nat) }
}

proof fn lemma_hex_number_bound(ds: Seq<char>)
    requires
        forall|i: int| 0 <= i < ds.len() ==> is_hex_digit(#[trigger] ds[i]),
    ensures
        hex_number(ds) < pow16(ds.len()),
    decreases ds.len(),
{
    if ds.len() > 0 {
        let a = ds.drop_last();
        lemma_hex_number_bound(a);
        let p = pow16(a.len());
        let h = hex_number(a);
        let v = hex_value(ds.last());
        assert(is_hex_digit(ds[ds.len() - 1]));
        assert(v < 16);
        assert(h * 16 + v < p * 16) by (nonlinear_arith)
            requires
                h < p,
                v < 16,
        ;
    }
}

fn is_hex_digit_exec(c: char) -> (r: bool)
    ensures
        r == is_hex_digit(c),
{
    ('0' <= c && c <= '9') || ('a' <= c && c <= 'f') || ('A' <= c && c <= 'F')
}

fn hex_value_exec(c: char) -> (r: u32)
    requires
        is_hex_digit(c),
    ensures
        r == hex_value(c),
        r < 16,
{
    let v = c as u32;
    if v <= 57 {
        v - 48
    } else if v <= 70 {
        v - 55
    } else {
        v - 87
    }
}

/// Parses a hex program (see [`parse_hex_spec`]).
pub fn parse_hex_program(s: &str) -> (r: Result<Vec<u8>, usize>)
    ensures
        match r {
            Ok(bytes) => parse_hex_spec(s@) == Ok::<Seq<u8>, nat>(bytes@),
            Err(n) => parse_hex_spec(s@) == Err::<Seq<u8>, nat>(n as nat),
        },
{
    let cs = crate::text::chars_of(s);
    let mut clean: Vec<char> = Vec::new();
    let mut i: usize = 0;
    while i < cs.len()
        invariant
            cs@ == s@,
            i <= cs.len(),
            clean@ == hex_digits(s@.take(i as int)),
            clean@.len() <= i,
            forall|j: int| 0 <= j < clean@.len() ==> is_hex_digit(#[trigger] clean@[j]),
        decreases cs.len() - i,
    {
        assert(s@.take(i + 1).drop_last() =~= s@.take(i as int));
        let c = cs[i];
        if is_hex_digit_exec(c) {
            clean.push(c);
        }
        i = i + 1;
    }
    assert(s@.take(cs.len() as int) =~= s@);
    let n = clean.len();
    if n % 8 != 0 {
        return Err(n);
    }
    let ghost ds = clean@;
    let mut bytes: Vec<u8> = Vec::new();
    let mut k: usize = 0;
    while k < n / 8
        invariant
            ds == clean@,
            n == ds.len(),
            n % 8 == 0,
            k <= n / 8,
            forall|j: int| 0 <= j < ds.len() ==> is_hex_digit(#[trigger] ds[j]),
            bytes@ == le32s(hex_words(ds).take(k as int)),
        decreases n / 8 - k,
    {
        let mut w: u32 = 0;
        let mut j: usize = 0;
        while j < 8
            invariant
                ds == clean@,
                n == ds.len(),
                k < n / 8,
                j <= 8,
                forall|q: int| 0 <= q < ds.len() ==> is_hex_digit(#[trigger] ds[q]),
                w as nat == hex_number(ds.subrange(8 * k, 8 * k + j)),
            decreases 8 - j,
        {
            let ghost part = ds.subrange(8 * k, 8 * k + j + 1);
            assert(part.drop_last() =~= ds.subrange(8 * k, 8 * k + j));
            assert(part.last() == ds[8 * k + j]);
            proof {
                assert forall|q: int| 0 <= q < part.len() implies is_hex_digit(#[trigger] part[q]) by {
                    assert(part[q] == ds[8 * k + q]);
                }
                lemma_hex_number_bound(part);
                assert(pow16(part.len()) <= pow16(8)) by {
                    reveal_with_fuel(pow16, 9);
                }
                assert(pow16(8) == 4294967296) by {
                    reveal_with_fuel(pow16, 9);
                }
            }
            let d = hex_value_exec(clean[8 * k + j]);
            w = w * 16 + d;
            j = j + 1;
        }
        proof {
            let ws = hex_words(ds);
            assert(ws.take(k + 1).drop_last() =~= ws.take(k as int));
            assert(ws[k as int] == w);
        }
        push_le32(&mut bytes, w);
        k = k + 1;
    }
    assert(hex_words(ds).take((n / 8) as int) =~= hex_words(ds));
    Ok(bytes)
}

/// Parses a hex program and loads it at 0x8000. Gives the number of
/// instructions loaded, or the number of hex digits when that is not a
/// multiple of eight (the CPU is then left as it was).
pub fn load_custom_hex(cpu: &mut Cpu, hex: &str) -> (r: Result<usize, usize>)
    requires
        old(cpu).wf(),
    ensures
        final(cpu).wf(),
        match parse_hex_spec(hex@) {
            Ok(bytes) => r == Ok::<usize, usize>((bytes.len() / 4) as usize) && final(cpu)@ == old(cpu)@.load_program(
                BOOT_ADDRESS,
                bytes,
            ),
            Err(n) => r == Err::<usize, usize>(n as usize) && final(cpu)@ == old(cpu)@,
        },
{
    match parse_hex_program(hex) {
        Ok(bytes) => {
            let count = bytes.len() / 4;
            cpu.load_program(BOOT_ADDRESS, bytes.as_slice());
            Ok(count)
        },
        Err(n) => Err(n),
    }
}


// ── Loading and booting ───────────────────────────────────────────────

/// The ARM Linux machine type of the Versatile board.
pub const LINUX_MACHINE_TYPE: u32 = 0x00E2;
/// The ARM Linux machine type of the Goldfish (Android emulator) board.
pub const GOLDFISH_MACHINE_TYPE: u32 = 0x046F;

/// Resets the CPU, then loads a raw binary at 0x8000 and points PC at it.
pub fn load_rom(cpu: &mut Cpu, bytes: &[u8])
    requires
        old(cpu).wf(),
    ensures
        final(cpu)@ == old(cpu)@.after_reset().load_program(BOOT_ADDRESS, bytes@),
        final(cpu).wf(),
{
    cpu.reset();
    cpu.load_program(BOOT_ADDRESS, bytes);
}

/// An optional blob given as a possibly empty slice: empty means absent.
pub open spec fn optional_blob(b: Seq<u8>) -> Option<Seq<u8>> {
    if b.len() == 0 { None } else { Some(b) }
}

/// Boots a Linux kernel on the Versatile board; an empty `initrd` means
/// no ramdisk.
pub fn boot_linux_kernel(cpu: &mut Cpu, kernel: &[u8], initrd: &[u8])
    requires
        old(cpu).wf(),
    ensures
        final(cpu)@ == old(cpu)@.boot_linux(kernel@, optional_blob(initrd@), LINUX_MACHINE_TYPE),
        final(cpu).wf(),
{
    if initrd.len() == 0 {
        cpu.boot_linux(kernel, None, LINUX_MACHINE_TYPE);
    } else {
        cpu.boot_linux(kernel, Some(initrd), LINUX_MACHINE_TYPE);
    }
}

/// Makes `image` the contents of the emulated SD/MMC card.
pub fn mount_system_image(mmu: &mut Mmu, image: &[u8])
    ensures
        final(mmu)@ == (MmuView { mmc_card_data: Some(image@), ..old(mmu)@ }),
{
    mmu.mmc_card_data = Some(vstd::slice::slice_to_vec(image));
    assert(mmu@ =~= (MmuView { mmc_card_data: Some(image@), ..old(mmu)@ }));
}

/// The state `boot_android` starts from: the system image, when not
/// empty, mounted as the SD/MMC card.
pub open spec fn with_system_image(s: CpuView, image: Seq<u8>) -> CpuView {
    if image.len() == 0 {
        s
    } else {
        s.with_mmu(MmuView { mmc_card_data: Some(image), ..s.mmu })
    }
}

/// Boots an Android kernel on the Goldfish board: the system image (when
/// not empty) becomes the SD/MMC card, an empty ramdisk means none.
pub fn boot_android(cpu: &mut Cpu, kernel: &[u8], system_img: &[u8], ramdisk: &[u8])
    requires
        old(cpu).wf(),
    ensures
        final(cpu)@ == with_system_image(old(cpu)@, system_img@).boot_linux(
            kernel@,
            optional_blob(ramdisk@),
            GOLDFISH_MACHINE_TYPE,
        ),
        final(cpu).wf(),
{
    if system_img.len() != 0 {
        mount_system_image(&mut cpu.mmu, system_img);
        assert(cpu@ =~= with_system_image(old(cpu)@, system_img@));
    }
    if ramdisk.len() == 0 {
        cpu.boot_linux(kernel, None, GOLDFISH_MACHINE_TYPE);
    } else {
        cpu.boot_linux(kernel, Some(ramdisk), GOLDFISH_MACHINE_TYPE);
    }
}

// ── Input ─────────────────────────────────────────────────────────────

/// A touch event: the pressed state always, the coordinates (truncated to
/// 16 bits) only when both are non-negative.
pub open spec fn touch_spec(m: MmuView, x: i32, y: i32, is_down: bool) -> MmuView {
    if x >= 0 && y >= 0 {
        MmuView { touch_down: is_down, touch_x: x as u16, touch_y: y as u16, ..m }
    } else {
        MmuView { touch_down: is_down, ..m }
    }
}

/// Writes a touch event into the input registers (see [`touch_spec`]).
pub fn send_touch_event(mmu: &mut Mmu, x: i32, y: i32, is_down: bool)
    ensures
        final(mmu)@ == touch_spec(old(mmu)@, x, y, is_down),
{
    mmu.touch_down = is_down;
    if x >= 0 && y >= 0 {
        mmu.touch_x = x as u16;
        mmu.touch_y = y as u16;
    }
    assert(mmu@ =~= touch_spec(old(mmu)@, x, y, is_down));
}

/// Writes a key event: the key code while pressed, 0 on release.
pub fn send_key_event(mmu: &mut Mmu, keycode: i32, is_down: bool)
    ensures
        final(mmu)@ == (MmuView { key_state: if is_down { keycode as u32 } else { 0 }, ..old(mmu)@ }),
{
    mmu.key_state = if is_down { keycode as u32 } else { 0 };
    assert(mmu@ =~= (MmuView { key_state: if is_down { keycode as u32 } else { 0 }, ..old(mmu)@ }));
}

// ── Android logger text ───────────────────────────────────────────────

/// The one-letter logcat level of a priority.
pub open spec fn priority_letter(p: u8) -> Seq<char> {
    if p == 2 {
        "V"@
    } else if p == 3 {
        "D"@
    } else if p == 4 {
        "I"@
    } else if p == 5 {
        "W"@
    } else if p == 6 {
        "E"@
    } else {
        "?"@
    }
}

/// One logger entry as a line: `level [tag] message` and a newline.
pub open spec fn log_entry_line(e: LogEntryView) -> Seq<char> {
    priority_letter(e.priority) + " ["@ + e.tag + "] "@ + e.message + "\n"@
}

/// The lines of all entries, in order.
pub open spec fn log_text(es: Seq<LogEntryView>) -> Seq<char>
    decreases es.len(),
{
    if es.len() == 0 {
        Seq::empty()
    } else {
        log_text(es.drop_last()) + log_entry_line(es.last())
    }
}

fn priority_letter_exec(p: u8) -> (r: &'static str)
    ensures
        r@ == priority_letter(p),
{
    if p == 2 {
        "V"
    } else if p == 3 {
        "D"
    } else if p == 4 {
        "I"
    } else if p == 5 {
        "W"
    } else if p == 6 {
        "E"
    } else {
        "?"
    }
}

/// The Android logger buffer as text (see [`log_text`]).
pub fn get_android_logs(mmu: &Mmu) -> (r: String)
    ensures
        r@ == log_text(mmu@.logger_buffer),
{
    let ghost es = mmu@.logger_buffer;
    let mut out = String::new();
    let mut i: usize = 0;
    while i < mmu.logger_buffer.len()
        invariant
            es == mmu@.logger_buffer,
            i <= es.len(),
            out@ == log_text(es.take(i as int)),
        decreases mmu.logger_buffer.len() - i,
    {
        assert(es.take(i + 1).drop_last() =~= es.take(i as int));
        let e = &mmu.logger_buffer[i];
        assert(es[i as int] == e@);
        let ghost before = out@;
        out.append(priority_letter_exec(e.priority));
        out.append(" [");
        out.append(e.tag.as_str());
        out.append("] ");
        out.append(e.message.as_str());
        out.append("\n");
        assert(out@ =~= before + log_entry_line(e@));
        i = i + 1;
    }
    assert(es.take(es.len() as int) =~= es);
    out
}

// ── CPU state for the debug panel ─────────────────────────────────────

/// R0 to R(k−1) (as [`RegView::read`] gives them) in decimal, separated by
/// commas.
pub open spec fn regs_json(r: RegView, k: nat) -> Seq<char>
    decreases k,
{
    if k == 0 {
        Seq::empty()
    } else if k == 1 {
        dec_str(r.read(0) as nat)
    } else {
        regs_json(r, (k - 1) as nat) + ","@ + dec_str(r.read((k - 1) as usize) as nat)
    }
}

/// The quoting applied to a disassembly line: each `"` becomes `\\"`
/// and each backslash becomes two.
pub open spec fn quote_disasm(s: Seq<char>) -> Seq<char>
    decreases s.len(),
{
    if s.len() == 0 {
        Seq::empty()
    } else {
        let c = s.last();
        quote_disasm(s.drop_last()) + if c == '"' {
            "\\\\\""@
        } else if c == '\\' {
            "\\\\"@
        } else {
            seq![c]
        }
    }
}

/// One disassembly entry: `"0xADDRESS: text"`.
pub open spec fn disasm_entry(addr: u32, text: Seq<char>) -> Seq<char> {
    "\""@ + hex8(addr) + ": "@ + quote_disasm(text) + "\""@
}

/// The first `k` disassembly entries from `pc` (one word apart), separated
/// by commas, and the bus after the `k` reads.
pub open spec fn disasm_entries(m: MmuView, pc: u32, k: nat) -> (Seq<char>, MmuView)
    decreases k,
{
    if k == 0 {
        (Seq::empty(), m)
    } else {
        let (prev, m1) = disasm_entries(m, pc, (k - 1) as nat);
        let addr = pc.wrapping_add(((k - 1) * 4) as u32);
        let (w, m2) = m1.load32(addr);
        let e = disasm_entry(addr, disasm(w));
        (if k == 1 { e } else { prev + ","@ + e }, m2)
    }
}

/// The debug-panel JSON of a CPU after `cycles` instructions: registers,
/// CPSR, flags, cycle count, halted flag and five disassembled words from
/// PC; and the CPU after the reads this takes.
pub open spec fn cpu_state_json_spec(s: CpuView, cycles: u32) -> (Seq<char>, CpuView) {
    let (d, m) = disasm_entries(s.mmu, s.regs.pc(), 5);
    let text = "{\"regs\":["@ + regs_json(s.regs, 16) + "],\"cpsr\":"@ + dec_str(s.regs.cpsr as nat) + ",\"n\":"@
        + bool_text(s.regs.flag_n()) + ",\"z\":"@ + bool_text(s.regs.flag_z()) + ",\"c\":"@ + bool_text(
        s.regs.flag_c(),
    ) + ",\"v\":"@ + bool_text(s.regs.flag_v()) + ",\"t\":"@ + bool_text(s.regs.thumb()) + ",\"cycles\":"@
        + dec_str(cycles as nat) + ",\"halted\":"@ + bool_text(s.halted) + ",\"disasm\":["@ + d + "]}"@;
    (text, s.with_mmu(m))
}

fn bool_str(b: bool) -> (r: &'static str)
    ensures
        r@ == bool_text(b),
{
    if b { "true" } else { "false" }
}

fn regs_text(regs: &crate::cpu::RegisterFile) -> (r: String)
    ensures
        r@ == regs_json(regs@, 16),
{
    let mut out = String::new();
    let mut k: usize = 0;
    while k < 16
        invariant
            k <= 16,
            out@ == regs_json(regs@, k as nat),
        decreases 16 - k,
    {
        let ghost before = out@;
        if k > 0 {
            out.append(",");
        }
        push_dec(&mut out, regs.read(k));
        proof {
            if k == 0 {
                assert(out@ =~= regs_json(regs@, 1));
            } else {
                assert(out@ =~= regs_json(regs@, (k + 1) as nat));
            }
        }
        k = k + 1;
    }
    out
}

fn push_quoted_disasm(out: &mut String, text: &str)
    ensures
        final(out)@ == old(out)@ + quote_disasm(text@),
{
    let cs = crate::text::chars_of(text);
    let ghost s0 = out@;
    let mut i: usize = 0;
    while i < cs.len()
        invariant
            cs@ == text@,
            i <= cs.len(),
            out@ == s0 + quote_disasm(text@.take(i as int)),
        decreases cs.len() - i,
    {
        assert(text@.take(i + 1).drop_last() =~= text@.take(i as int));
        let c = cs[i];
        if c == '"' {
            out.append("\\\\\"");
        } else if c == '\\' {
            out.append("\\\\");
        } else {
            crate::text::push_char(out, c);
        }
        assert(out@ =~= s0 + quote_disasm(text@.take(i + 1)));
        i = i + 1;
    }
    assert(text@.take(cs.len() as int) =~= text@);
}

fn disasm_text(cpu: &mut Cpu) -> (r: String)
    requires
        old(cpu).wf(),
    ensures
        r@ == disasm_entries(old(cpu)@.mmu, old(cpu)@.regs.pc(), 5).0,
        final(cpu)@ == old(cpu)@.with_mmu(disasm_entries(old(cpu)@.mmu, old(cpu)@.regs.pc(), 5).1),
        final(cpu).wf(),
{
    let pc = cpu.regs.pc();
    let mut out = String::new();
    let mut k: u32 = 0;
    while k < 5
        invariant
            k <= 5,
            pc == old(cpu)@.regs.pc(),
            cpu.wf(),
            out@ == disasm_entries(old(cpu)@.mmu, pc, k as nat).0,
            cpu@ == old(cpu)@.with_mmu(disasm_entries(old(cpu)@.mmu, pc, k as nat).1),
        decreases 5 - k,
    {
        let addr = pc.wrapping_add(k * 4);
        let ghost before = out@;
        let text = cpu.disassemble_at(addr);
        if k > 0 {
            out.append(",");
        }
        out.append("\"");
        out.append("0x");
        push_hex_padded(&mut out, addr, 8);
        out.append(": ");
        push_quoted_disasm(&mut out, text.as_str());
        out.append("\"");
        proof {
            let e = disasm_entry(addr, text@);
            if k == 0 {
                assert(out@ =~= e);
            } else {
                assert(out@ =~= before + ","@ + e);
            }
        }
        k = k + 1;
    }
    out
}

/// The debug-panel JSON (see [`cpu_state_json_spec`]).
pub fn get_cpu_state(cpu: &mut Cpu, cycles: u32) -> (r: String)
    requires
        old(cpu).wf(),
    ensures
        r@ == cpu_state_json_spec(old(cpu)@, cycles).0,
        final(cpu)@ == cpu_state_json_spec(old(cpu)@, cycles).1,
        final(cpu).wf(),
{
    let regs = regs_text(&cpu.regs);
    let d = disasm_text(cpu);
    let mut out = String::new();
    out.append("{\"regs\":[");
    out.append(regs.as_str());
    out.append("],\"cpsr\":");
    push_dec(&mut out, cpu.regs.cpsr());
    out.append(",\"n\":");
    out.append(bool_str(cpu.regs.flag_n()));
    out.append(",\"z\":");
    out.append(bool_str(cpu.regs.flag_z()));
    out.append(",\"c\":");
    out.append(bool_str(cpu.regs.flag_c()));
    out.append(",\"v\":");
    out.append(bool_str(cpu.regs.flag_v()));
    out.append(",\"t\":");
    out.append(bool_str(cpu.regs.is_thumb()));
    out.append(",\"cycles\":");
    push_dec(&mut out, cycles);
    out.append(",\"halted\":");
    out.append(bool_str(cpu.halted));
    out.append(",\"disasm\":[");
    out.append(d.as_str());
    out.append("]}");
    assert(out@ =~= cpu_state_json_spec(old(cpu)@, cycles).0);
    out
}


// ── Text in VRAM ──────────────────────────────────────────────────────

/// An RGB colour; alpha is always 255.
pub type Rgb = (u8, u8, u8);

pub open spec fn text_background() -> Rgb {
    (12, 14, 22)
}

pub open spec fn glyph_colour() -> Rgb {
    (240, 240, 245)
}

pub open spec fn bar_colour() -> Rgb {
    (80, 200, 120)
}

/// Channel `k` (red, green, blue, alpha) of an opaque pixel of colour `c`.
pub open spec fn rgba_byte(c: Rgb, k: int) -> u8 {
    if k == 0 {
        c.0
    } else if k == 1 {
        c.1
    } else if k == 2 {
        c.2
    } else {
        255
    }
}

/// The VRAM bytes of a frame whose pixel at column `x`, row `y` is
/// `f(x, y)`.
pub open spec fn frame_bytes(f: spec_fn(int, int) -> Rgb) -> Seq<u8> {
    Seq::new(VRAM_SIZE as nat, |i: int| rgba_byte(f((i / 4) % 800, (i / 4) / 800), i % 4))
}

/// Whether cell (`gx`, `gy`) of the 8×8 block glyph for code `g` is lit:
/// its border always, inside it a pattern keyed by the code.
pub open spec fn glyph_on(g: u8, gx: int, gy: int) -> bool {
    ||| (g.wrapping_mul(31).wrapping_add((gx * 3) as u8).wrapping_add(gy as u8)) % 7 < 3
    ||| gx == 0
    ||| gy == 0
    ||| gx == 7
    ||| gy == 7
}

/// The length of the bar drawn under a glyph: the code mod 40, plus one,
/// at most 8 pixels.
pub open spec fn bar_len(g: u8) -> int {
    if (g as int) % 40 + 1 < 8 { (g as int) % 40 + 1 } else { 8 }
}

/// A placed glyph: its code and its top-left corner.
pub type PlacedGlyph = (u8, int, int);

pub open spec fn in_glyph(p: PlacedGlyph, x: int, y: int) -> bool {
    p.1 <= x < p.1 + 8 && p.2 <= y < p.2 + 8 && glyph_on(p.0, x - p.1, y - p.2)
}

pub open spec fn in_bar(p: PlacedGlyph, x: int, y: int) -> bool {
    y == p.2 + 10 && p.1 <= x < p.1 + bar_len(p.0)
}

/// Lays out `cs`: the cursor starts at (16, 24); a newline moves it to
/// the start of the next line (16 pixels down); a character that would
/// reach the right edge first wraps the line; a character whose cell
/// would reach the bottom edge ends the text; otherwise the character's
/// code (low 8 bits) is placed and the cursor moves 10 pixels right.
/// Gives the placed glyphs, the cursor and whether the text ended early.
pub open spec fn text_layout(cs: Seq<char>) -> (Seq<PlacedGlyph>, int, int, bool)
    decreases cs.len(),
{
    if cs.len() == 0 {
        (Seq::empty(), 16, 24, false)
    } else {
        let (gs, cx, cy, done) = text_layout(cs.drop_last());
        let ch = cs.last();
        if done {
            (gs, cx, cy, true)
        } else if ch == '\n' {
            (gs, 16, cy + 16, false)
        } else {
            let wrap = cx + 8 >= 800;
            let cx1 = if wrap { 16 } else { cx };
            let cy1 = if wrap { cy + 16 } else { cy };
            if cy1 + 8 >= 600 {
                (gs, cx1, cy1, true)
            } else {
                (gs.push(((ch as u32) as u8, cx1, cy1)), cx1 + 10, cy1, false)
            }
        }
    }
}

/// The colour of pixel (`x`, `y`) once the glyphs `gs` are drawn, in
/// order, over the background: each glyph paints its lit cells and its
/// bar.
pub open spec fn text_pixel(gs: Seq<PlacedGlyph>, x: int, y: int) -> Rgb
    decreases gs.len(),
{
    if gs.len() == 0 {
        text_background()
    } else if in_bar(gs.last(), x, y) {
        bar_colour()
    } else if in_glyph(gs.last(), x, y) {
        glyph_colour()
    } else {
        text_pixel(gs.drop_last(), x, y)
    }
}

/// The VRAM image of `text` drawn by [`draw_text_vram`].
pub open spec fn text_frame(text: Seq<char>) -> Seq<u8> {
    frame_bytes(|x: int, y: int| text_pixel(text_layout(text).0, x, y))
}

/// Whether a layout can place no more glyphs: it ended, or its cursor
/// row already reaches the bottom edge.
pub open spec fn layout_stuck(l: (Seq<PlacedGlyph>, int, int, bool)) -> bool {
    l.3 || l.2 + 8 >= 600
}

proof fn lemma_layout_stuck(cs: Seq<char>, i: int)
    requires
        0 <= i <= cs.len(),
        layout_stuck(text_layout(cs.take(i))),
    ensures
        text_layout(cs).0 == text_layout(cs.take(i)).0,
        layout_stuck(text_layout(cs)),
    decreases cs.len() - i,
{
    if i < cs.len() {
        let l = text_layout(cs.take(i));
        assert(cs.take(i + 1).drop_last() =~= cs.take(i));
        let l1 = text_layout(cs.take(i + 1));
        assert(l1.0 == l.0);
        assert(layout_stuck(l1));
        lemma_layout_stuck(cs, i + 1);
    } else {
        assert(cs.take(i) =~= cs);
    }
}

proof fn lemma_layout_cursor(cs: Seq<char>)
    ensures
        16 <= text_layout(cs).1 <= 801,
        text_layout(cs).2 >= 24,
        text_layout(cs).2 % 16 == 8,
        forall|k: int| 0 <= k < text_layout(cs).0.len() ==> {
            let p = #[trigger] text_layout(cs).0[k];
            16 <= p.1 && p.1 + 8 < 800 && 24 <= p.2 && p.2 + 8 < 600
        },
    decreases cs.len(),
{
    if cs.len() > 0 {
        lemma_layout_cursor(cs.drop_last());
    }
}

/// Paints pixel (`x`, `y`) with colour (`r`, `g`, `b`) and full alpha
/// through the bus.
fn put_pixel(mmu: &mut Mmu, x: usize, y: usize, r: u8, g: u8, b: u8)
    requires
        old(mmu).wf(),
        x < 800,
        y < 600,
    ensures
        final(mmu).wf(),
        final(mmu)@ == (MmuView {
            vram: old(mmu)@.vram.update(4 * (y * 800 + x), r).update(4 * (y * 800 + x) + 1, g).update(
                4 * (y * 800 + x) + 2,
                b,
            ).update(4 * (y * 800 + x) + 3, 255),
            ..old(mmu)@
        }),
{
    let off = (y * 800 + x) * 4;
    let addr = VRAM_BASE + off as u32;
    proof {
        reveal(MmuView::store8);
        assert(in_vram(addr) && in_vram((addr + 1) as u32) && in_vram((addr + 2) as u32) && in_vram(
            (addr + 3) as u32,
        ));
    }
    mmu.write_u8(addr, r);
    mmu.write_u8(addr + 1, g);
    mmu.write_u8(addr + 2, b);
    mmu.write_u8(addr + 3, 255);
    proof {
        assert(mmu@ =~= (MmuView {
            vram: old(mmu)@.vram.update(4 * (y * 800 + x), r).update(4 * (y * 800 + x) + 1, g).update(
                4 * (y * 800 + x) + 2,
                b,
            ).update(4 * (y * 800 + x) + 3, 255),
            ..old(mmu)@
        }));
    }
}


proof fn lemma_frame_paint(f: spec_fn(int, int) -> Rgb, f2: spec_fn(int, int) -> Rgb, x: int, y: int)
    requires
        0 <= x < 800,
        0 <= y < 600,
        forall|x1: int, y1: int| !(x1 == x && y1 == y) ==> #[trigger] f2(x1, y1) == f(x1, y1),
    ensures
        frame_bytes(f).update(4 * (y * 800 + x), f2(x, y).0).update(4 * (y * 800 + x) + 1, f2(x, y).1).update(
            4 * (y * 800 + x) + 2,
            f2(x, y).2,
        ).update(4 * (y * 800 + x) + 3, 255) =~= frame_bytes(f2),
{
    let p = y * 800 + x;
    assert forall|i: int| 0 <= i < VRAM_SIZE implies #[trigger] frame_bytes(f).update(4 * p, f2(x, y).0).update(
        4 * p + 1,
        f2(x, y).1,
    ).update(4 * p + 2, f2(x, y).2).update(4 * p + 3, 255)[i] == frame_bytes(f2)[i] by {
        let q = i / 4;
        if q == p {
            assert(q % 800 == x && q / 800 == y);
        } else {
            assert(!(q % 800 == x && q / 800 == y));
        }
    }
}

proof fn lemma_frame_same(f: spec_fn(int, int) -> Rgb, f2: spec_fn(int, int) -> Rgb)
    requires
        forall|x: int, y: int| 0 <= x < 800 && 0 <= y < 600 ==> #[trigger] f2(x, y) == f(x, y),
    ensures
        frame_bytes(f) =~= frame_bytes(f2),
{
    assert forall|i: int| 0 <= i < VRAM_SIZE implies #[trigger] frame_bytes(f)[i] == frame_bytes(f2)[i] by {
        let q = i / 4;
        assert(0 <= q % 800 < 800 && 0 <= q / 800 < 600);
    }
}

fn glyph_on_exec(g: u8, gx: usize, gy: usize) -> (r: bool)
    requires
        gx < 8,
        gy < 8,
    ensures
        r == glyph_on(g, gx as int, gy as int),
{
    (g.wrapping_mul(31).wrapping_add((gx as u8) * 3).wrapping_add(gy as u8)) % 7 < 3 || gx == 0 || gy == 0 || gx
        == 7 || gy == 7
}

/// Draws `text` into VRAM over a dark background as block glyphs with a
/// bar under each (see [`text_frame`]); the rest of the bus is unchanged.
pub fn draw_text_vram(mmu: &mut Mmu, text: &str)
    requires
        old(mmu).wf(),
    ensures
        final(mmu).wf(),
        final(mmu)@ == (MmuView { vram: text_frame(text@), ..old(mmu)@ }),
{
    let mut p: usize = 0;
    while p < 480000
        invariant
            p <= 480000,
            mmu.wf(),
            mmu@ == (MmuView { vram: mmu@.vram, ..old(mmu)@ }),
            forall|i: int| 0 <= i < 4 * p ==> #[trigger] mmu@.vram[i] == rgba_byte(text_background(), i % 4),
        decreases 480000 - p,
    {
        put_pixel(mmu, p % 800, p / 800, 12, 14, 22);
        proof {
            assert forall|i: int| 0 <= i < 4 * (p + 1) implies #[trigger] mmu@.vram[i] == rgba_byte(
                text_background(),
                i % 4,
            ) by {
                if i >= 4 * p {
                    assert(i / 4 == p);
                }
            }
            assert(mmu@ =~= (MmuView { vram: mmu@.vram, ..old(mmu)@ }));
        }
        p = p + 1;
    }
    proof {
        let f0 = |x: int, y: int| text_pixel(text_layout(text@.take(0)).0, x, y);
        assert(text@.take(0) =~= Seq::<char>::empty());
        assert(mmu@.vram =~= frame_bytes(f0));
    }
    let cs = crate::text::chars_of(text);
    let mut cx: usize = 16;
    let mut cy: usize = 24;
    let mut i: usize = 0;
    while i < cs.len()
        invariant
            cs@ == text@,
            i <= cs.len(),
            mmu.wf(),
            mmu@ == (MmuView { vram: mmu@.vram, ..old(mmu)@ }),
            !text_layout(text@.take(i as int)).3,
            cx as int == text_layout(text@.take(i as int)).1,
            cy as int == text_layout(text@.take(i as int)).2,
            cy + 8 < 600,
            16 <= cx <= 801,
            mmu@.vram == frame_bytes(|x: int, y: int| text_pixel(text_layout(text@.take(i as int)).0, x, y)),
        decreases cs.len() - i,
    {
        let ghost l = text_layout(text@.take(i as int));
        let ghost gs = l.0;
        assert(text@.take(i + 1).drop_last() =~= text@.take(i as int));
        proof {
            lemma_layout_cursor(text@.take(i as int));
        }
        let ch = cs[i];
        if ch == '\n' {
            cy = cy + 16;
            cx = 16;
            if cy + 8 >= 600 {
                proof {
                    lemma_layout_stuck(text@, i + 1);
                    assert(text_layout(text@).0 == gs);
                }
                return;
            }
            i = i + 1;
        } else {
            if cx + 8 >= 800 {
                cy = cy + 16;
                cx = 16;
            }
            if cy + 8 >= 600 {
                proof {
                    lemma_layout_stuck(text@, i + 1);
                    assert(text_layout(text@).0 == gs);
                }
                return;
            }
            assert(cy + 10 < 600);
            let g = (ch as u32) as u8;
            let ghost pg: PlacedGlyph = (g, cx as int, cy as int);
            let mut n: usize = 0;
            while n < 64
                invariant
                    n <= 64,
                    mmu.wf(),
                    mmu@ == (MmuView { vram: mmu@.vram, ..old(mmu)@ }),
                    cx + 8 < 800,
                    cy + 10 < 600,
                    pg == (g, cx as int, cy as int),
                    mmu@.vram == frame_bytes(
                        |x: int, y: int|
                            if in_glyph(pg, x, y) && (y - pg.2) * 8 + (x - pg.1) < n {
                                glyph_colour()
                            } else {
                                text_pixel(gs, x, y)
                            },
                    ),
                decreases 64 - n,
            {
                let gx = n % 8;
                let gy = n / 8;
                let ghost f = |x: int, y: int|
                    if in_glyph(pg, x, y) && (y - pg.2) * 8 + (x - pg.1) < n {
                        glyph_colour()
                    } else {
                        text_pixel(gs, x, y)
                    };
                let ghost f2 = |x: int, y: int|
                    if in_glyph(pg, x, y) && (y - pg.2) * 8 + (x - pg.1) < n + 1 {
                        glyph_colour()
                    } else {
                        text_pixel(gs, x, y)
                    };
                if glyph_on_exec(g, gx, gy) {
                    put_pixel(mmu, cx + gx, cy + gy, 240, 240, 245);
                    proof {
                        let x0 = (cx + gx) as int;
                        let y0 = (cy + gy) as int;
                        assert(in_glyph(pg, x0, y0));
                        assert forall|x1: int, y1: int| !(x1 == x0 && y1 == y0) implies #[trigger] f2(x1, y1) == f(
                            x1,
                            y1,
                        ) by {
                            if in_glyph(pg, x1, y1) && (y1 - pg.2) * 8 + (x1 - pg.1) == n {
                                assert(y1 - pg.2 == gy && x1 - pg.1 == gx);
                            }
                        }
                        lemma_frame_paint(f, f2, x0, y0);
                        assert(mmu@ =~= (MmuView { vram: mmu@.vram, ..old(mmu)@ }));
                    }
                } else {
                    proof {
                        assert forall|x1: int, y1: int| 0 <= x1 < 800 && 0 <= y1 < 600 implies #[trigger] f2(x1, y1) == f(
                            x1,
                            y1,
                        ) by {
                            if in_glyph(pg, x1, y1) && (y1 - pg.2) * 8 + (x1 - pg.1) == n {
                                assert(y1 - pg.2 == gy && x1 - pg.1 == gx);
                            }
                        }
                        lemma_frame_same(f, f2);
                    }
                }
                n = n + 1;
            }
            let bar = (g as usize % 40) + 1;
            let lim = if bar < 8 { bar } else { 8 };
            let mut k: usize = 0;
            while k < lim
                invariant
                    k <= lim,
                    lim as int == bar_len(g),
                    mmu.wf(),
                    mmu@ == (MmuView { vram: mmu@.vram, ..old(mmu)@ }),
                    cx + 8 < 800,
                    cy + 10 < 600,
                    pg == (g, cx as int, cy as int),
                    mmu@.vram == frame_bytes(
                        |x: int, y: int|
                            if y == pg.2 + 10 && pg.1 <= x < pg.1 + k {
                                bar_colour()
                            } else if in_glyph(pg, x, y) {
                                glyph_colour()
                            } else {
                                text_pixel(gs, x, y)
                            },
                    ),
                decreases lim - k,
            {
                let ghost f = |x: int, y: int|
                    if y == pg.2 + 10 && pg.1 <= x < pg.1 + k {
                        bar_colour()
                    } else if in_glyph(pg, x, y) {
                        glyph_colour()
                    } else {
                        text_pixel(gs, x, y)
                    };
                let ghost f2 = |x: int, y: int|
                    if y == pg.2 + 10 && pg.1 <= x < pg.1 + k + 1 {
                        bar_colour()
                    } else if in_glyph(pg, x, y) {
                        glyph_colour()
                    } else {
                        text_pixel(gs, x, y)
                    };
                put_pixel(mmu, cx + k, cy + 10, 80, 200, 120);
                proof {
                    lemma_frame_paint(f, f2, (cx + k) as int, (cy + 10) as int);
                    assert(mmu@ =~= (MmuView { vram: mmu@.vram, ..old(mmu)@ }));
                }
                k = k + 1;
            }
            proof {
                let gs2 = text_layout(text@.take(i + 1)).0;
                assert(gs2 == gs.push(pg));
                let f = |x: int, y: int|
                    if y == pg.2 + 10 && pg.1 <= x < pg.1 + lim {
                        bar_colour()
                    } else if in_glyph(pg, x, y) {
                        glyph_colour()
                    } else {
                        text_pixel(gs, x, y)
                    };
                let f2 = |x: int, y: int| text_pixel(gs2, x, y);
                assert forall|x: int, y: int| 0 <= x < 800 && 0 <= y < 600 implies #[trigger] f2(x, y) == f(x, y) by {
                    assert(gs2.drop_last() =~= gs);
                }
                lemma_frame_same(f, f2);
            }
            cx = cx + 10;
            i = i + 1;
        }
    }
    assert(text@.take(cs.len() as int) =~= text@);
}

} // verus!
