//! ARM disassembler: renders one 32-bit ARM instruction as text.
use vstd::prelude::*;
use crate::arm::ror;
use crate::cpu::{Cpu, ror_exec};
use crate::memory::MmuView;
use crate::text::push_char;

verus! {

/// The hexadecimal digit (upper case) for `d` < 16.
pub open spec fn hex_digit(d: u32) -> char {
    if d < 10 { ((d + 48) as u8) as char } else { ((d + 55) as u8) as char }
}

/// Decimal representation of `n`.
pub open spec fn dec_str(n: nat) -> Seq<char>
    decreases n,
{
    if n < 10 {
        seq![hex_digit(n as u32)]
    } else {
        dec_str(n / 10).push(hex_digit((n % 10) as u32))
    }
}

/// Upper-case hexadecimal representation of `n`.
pub open spec fn hex_str(n: nat) -> Seq<char>
    decreases n,
{
    if n < 16 {
        seq![hex_digit(n as u32)]
    } else {
        hex_str(n / 16).push(hex_digit((n % 16) as u32))
    }
}

/// `s` left-padded with `'0'` to at least `w` characters.
pub open spec fn zero_pad(s: Seq<char>, w: nat) -> Seq<char> {
    if s.len() >= w { s } else { Seq::new((w - s.len()) as nat, |i: int| '0') + s }
}

/// `0x` followed by eight upper-case hex digits.
pub open spec fn hex8(n: u32) -> Seq<char> {
    "0x"@ + zero_pad(hex_str(n as nat), 8)
}

/// A 32-bit value as a signed decimal with explicit sign.
pub open spec fn signed_dec(v: u32) -> Seq<char> {
    if v & 0x8000_0000 != 0 {
        "-"@ + dec_str((0u32).wrapping_sub(v) as nat)
    } else {
        "+"@ + dec_str(v as nat)
    }
}

pub open spec fn reg_name(r: u32) -> Seq<char> {
    if r == 0 { "R0"@ }
    else if r == 1 { "R1"@ }
    else if r == 2 { "R2"@ }
    else if r == 3 { "R3"@ }
    else if r == 4 { "R4"@ }
    else if r == 5 { "R5"@ }
    else if r == 6 { "R6"@ }
    else if r == 7 { "R7"@ }
    else if r == 8 { "R8"@ }
    else if r == 9 { "R9"@ }
    else if r == 10 { "R10"@ }
    else if r == 11 { "R11"@ }
    else if r == 12 { "R12"@ }
    else if r == 13 { "SP"@ }
    else if r == 14 { "LR"@ }
    else if r == 15 { "PC"@ }
    else { "??"@ }
}

pub open spec fn cond_suffix(c: u32) -> Seq<char> {
    if c == 0x0 { "EQ"@ }
    else if c == 0x1 { "NE"@ }
    else if c == 0x2 { "CS"@ }
    else if c == 0x3 { "CC"@ }
    else if c == 0x4 { "MI"@ }
    else if c == 0x5 { "PL"@ }
    else if c == 0x6 { "VS"@ }
    else if c == 0x7 { "VC"@ }
    else if c == 0x8 { "HI"@ }
    else if c == 0x9 { "LS"@ }
    else if c == 0xA { "GE"@ }
    else if c == 0xB { "LT"@ }
    else if c == 0xC { "GT"@ }
    else if c == 0xD { "LE"@ }
    else { ""@ }
}

pub open spec fn dp_mnemonic(op: u32) -> Seq<char> {
    if op == 0x0 { "AND"@ }
    else if op == 0x1 { "EOR"@ }
    else if op == 0x2 { "SUB"@ }
    else if op == 0x3 { "RSB"@ }
    else if op == 0x4 { "ADD"@ }
    else if op == 0x5 { "ADC"@ }
    else if op == 0x6 { "SBC"@ }
    else if op == 0x7 { "RSC"@ }
    else if op == 0x8 { "TST"@ }
    else if op == 0x9 { "TEQ"@ }
    else if op == 0xA { "CMP"@ }
    else if op == 0xB { "CMN"@ }
    else if op == 0xC { "ORR"@ }
    else if op == 0xD { "MOV"@ }
    else if op == 0xE { "BIC"@ }
    else { "MVN"@ }
}

pub open spec fn shift_name(t: u32) -> Seq<char> {
    if t == 0 { "LSL"@ } else if t == 1 { "LSR"@ } else if t == 2 { "ASR"@ } else { "ROR"@ }
}

/// Names of the registers in `list` from bit `i` upwards, joined by ", ".
pub open spec fn reg_list_text(list: u32, i: u32, first: bool) -> Seq<char>
    decreases 16 - i,
{
    if i >= 16 {
        Seq::empty()
    } else if list & (1u32 << i) != 0 {
        (if first { Seq::empty() } else { ", "@ }) + reg_name(i) + reg_list_text(list, (i + 1) as u32, false)
    } else {
        reg_list_text(list, (i + 1) as u32, first)
    }
}

/// Text of a multiply instruction.
pub open spec fn multiply_text(instr: u32, cs: Seq<char>) -> Seq<char> {
    let a = (instr >> 21) & 1 == 1;
    let rs = reg_name((instr >> 8) & 0xF);
    let rm = reg_name(instr & 0xF);
    if (instr >> 23) & 1 == 1 {
        let u = (instr >> 22) & 1 == 1;
        let m = if !u && !a { "UMULL"@ } else if !u { "UMLAL"@ } else if !a { "SMULL"@ } else { "SMLAL"@ };
        m + cs + " "@ + reg_name((instr >> 12) & 0xF) + ", "@ + reg_name((instr >> 16) & 0xF) + ", "@ + rm + ", "@ + rs
    } else {
        let rd = reg_name((instr >> 16) & 0xF);
        if a {
            "MLA"@ + cs + " "@ + rd + ", "@ + rm + ", "@ + rs + ", "@ + reg_name((instr >> 12) & 0xF)
        } else {
            "MUL"@ + cs + " "@ + rd + ", "@ + rm + ", "@ + rs
        }
    }
}

/// Offset operand of a halfword transfer: `#±0x..` or `±Rm`.
pub open spec fn halfword_offset_text(instr: u32) -> Seq<char> {
    let sign = if (instr >> 23) & 1 == 1 { "+"@ } else { "-"@ };
    if (instr >> 22) & 1 == 1 {
        "#"@ + sign + "0x"@ + hex_str(((((instr >> 8) & 0xF) << 4) | (instr & 0xF)) as nat)
    } else {
        sign + reg_name(instr & 0xF)
    }
}

/// Text of LDRH / STRH / LDRSB / LDRSH.
pub open spec fn halfword_text(instr: u32, cs: Seq<char>) -> Seq<char> {
    let load = (instr >> 20) & 1 == 1;
    let s_bit = (instr >> 6) & 1 == 1;
    let h_bit = (instr >> 5) & 1 == 1;
    let m = if !load { "STRH"@ } else if s_bit && h_bit { "LDRSH"@ } else if s_bit { "LDRSB"@ } else { "LDRH"@ };
    let off = halfword_offset_text(instr);
    let rn = reg_name((instr >> 16) & 0xF);
    let addr = if (instr >> 24) & 1 == 1 {
        "["@ + rn + ", "@ + off + "]"@
    } else {
        "["@ + rn + "], "@ + off
    };
    m + cs + " "@ + reg_name((instr >> 12) & 0xF) + ", "@ + addr
}

/// Second operand of a data-processing instruction.
pub open spec fn dp_operand_text(instr: u32) -> Seq<char> {
    if (instr >> 25) & 1 == 1 {
        "#"@ + dec_str(ror(instr & 0xFF, (((instr >> 8) & 0xF) * 2) as u32) as nat)
    } else {
        let amount = (instr >> 7) & 0x1F;
        if amount == 0 {
            reg_name(instr & 0xF)
        } else {
            reg_name(instr & 0xF) + ", "@ + shift_name((instr >> 5) & 0x3) + " #"@ + dec_str(amount as nat)
        }
    }
}

/// Text of a data-processing instruction.
pub open spec fn data_processing_text(instr: u32, cs: Seq<char>) -> Seq<char> {
    let opcode = (instr >> 21) & 0xF;
    let s = if (instr >> 20) & 1 == 1 { "S"@ } else { ""@ };
    let op2 = dp_operand_text(instr);
    let m = dp_mnemonic(opcode);
    let rd = reg_name((instr >> 12) & 0xF);
    let rn = reg_name((instr >> 16) & 0xF);
    if opcode == 0xD || opcode == 0xF {
        m + cs + s + " "@ + rd + ", "@ + op2
    } else if 0x8 <= opcode && opcode <= 0xB {
        m + cs + " "@ + rn + ", "@ + op2
    } else {
        m + cs + s + " "@ + rd + ", "@ + rn + ", "@ + op2
    }
}

/// Text of LDR / STR / LDRB / STRB.
pub open spec fn single_transfer_text(instr: u32, cs: Seq<char>) -> Seq<char> {
    let p = (instr >> 24) & 1 == 1;
    let b = (instr >> 22) & 1 == 1;
    let m = if (instr >> 20) & 1 == 1 {
        if b { "LDRB"@ } else { "LDR"@ }
    } else {
        if b { "STRB"@ } else { "STR"@ }
    };
    let offset = instr & 0xFFF;
    let sign = if (instr >> 23) & 1 == 1 { ""@ } else { "-"@ };
    let wb = if (instr >> 21) & 1 == 1 && p { "!"@ } else { ""@ };
    let rd = reg_name((instr >> 12) & 0xF);
    let rn = reg_name((instr >> 16) & 0xF);
    if p {
        if offset == 0 {
            m + cs + " "@ + rd + ", ["@ + rn + "]"@ + wb
        } else {
            m + cs + " "@ + rd + ", ["@ + rn + ", #"@ + sign + dec_str(offset as nat) + "]"@ + wb
        }
    } else {
        m + cs + " "@ + rd + ", ["@ + rn + "], #"@ + sign + dec_str(offset as nat)
    }
}

/// Text of LDM / STM.
pub open spec fn block_transfer_text(instr: u32, cs: Seq<char>) -> Seq<char> {
    let p = (instr >> 24) & 1 == 1;
    let u = (instr >> 23) & 1 == 1;
    let mode = if !p && u { "IA"@ } else if p && u { "IB"@ } else if !p { "DA"@ } else { "DB"@ };
    let m = if (instr >> 20) & 1 == 1 { "LDM"@ } else { "STM"@ };
    let wb = if (instr >> 21) & 1 == 1 { "!"@ } else { ""@ };
    m + cs + mode + " "@ + reg_name((instr >> 16) & 0xF) + wb + ", {"@ + reg_list_text(instr & 0xFFFF, 0, true) + "}"@
}

/// Text of B / BL with the target offset relative to the instruction.
pub open spec fn branch_text(instr: u32, cs: Seq<char>) -> Seq<char> {
    let offset24 = instr & 0x00FF_FFFF;
    let offset = if offset24 & 0x0080_0000 != 0 { (offset24 | 0xFF00_0000) << 2 } else { offset24 << 2 };
    let m = if (instr >> 24) & 1 == 1 { "BL"@ } else { "B"@ };
    m + cs + " #"@ + signed_dec(offset.wrapping_add(8))
}

/// The disassembly of one ARM instruction.
pub open spec fn disasm(instr: u32) -> Seq<char> {
    if instr == 0 {
        "NOP (0x00000000)"@
    } else {
        let cs = cond_suffix((instr >> 28) & 0xF);
        let bits = (instr >> 25) & 0x7;
        if bits == 0 || bits == 1 {
            if bits == 0 && instr & 0x0F00_00F0 == 0x0000_0090 {
                multiply_text(instr, cs)
            } else if bits == 0 && instr & 0x0FFF_FFF0 == 0x012F_FF30 {
                "BLX"@ + cs + " "@ + reg_name(instr & 0xF)
            } else if bits == 0 && instr & 0x0FFF_FFF0 == 0x012F_FF10 {
                "BX"@ + cs + " "@ + reg_name(instr & 0xF)
            } else if bits == 0 && instr & 0x90 == 0x90 && instr & 0x0E00_0000 == 0 && instr & 0x0F00_00F0 != 0x90 {
                halfword_text(instr, cs)
            } else {
                data_processing_text(instr, cs)
            }
        } else if bits == 2 || bits == 3 {
            single_transfer_text(instr, cs)
        } else if bits == 4 {
            block_transfer_text(instr, cs)
        } else if bits == 5 {
            branch_text(instr, cs)
        } else if bits == 7 {
            if (instr >> 24) & 1 == 1 {
                "SWI"@ + cs + " #0x"@ + zero_pad(hex_str((instr & 0x00FF_FFFF) as nat), 6)
            } else {
                "CDP"@ + cs + " (Coprocessor)"@
            }
        } else {
            "??? ("@ + hex8(instr) + ")"@
        }
    }
}

// ── Number formatting ─────────────────────────────────────────────────

fn hex_digit_exec(d: u32) -> (c: char)
    requires
        d < 16,
    ensures
        c == hex_digit(d),
{
    let b: u8 = if d < 10 { d as u8 + 48 } else { d as u8 + 55 };
    b as char
}

/// Appends the decimal representation of `n`.
pub fn push_dec(s: &mut String, n: u32)
    ensures
        final(s)@ == old(s)@ + dec_str(n as nat),
    decreases n,
{
    if n >= 10 {
        push_dec(s, n / 10);
    }
    push_char(s, hex_digit_exec(n % 10));
    proof {
        if n >= 10 {
            assert(old(s)@ + dec_str(n as nat) =~= old(s)@ + dec_str((n / 10) as nat) + seq![hex_digit(n % 10)]);
        } else {
            assert(old(s)@ + dec_str(n as nat) =~= old(s)@.push(hex_digit(n % 10)));
        }
    }
}

/// Appends the decimal representation of a 64-bit `n`.
pub fn push_dec_wide(s: &mut String, n: u64)
    ensures
        final(s)@ == old(s)@ + dec_str(n as nat),
    decreases n,
{
    if n >= 10 {
        push_dec_wide(s, n / 10);
    }
    push_char(s, hex_digit_exec((n % 10) as u32));
    proof {
        if n >= 10 {
            assert(old(s)@ + dec_str(n as nat) =~= old(s)@ + dec_str((n / 10) as nat) + seq![hex_digit((n % 10) as u32)]);
        } else {
            assert(old(s)@ + dec_str(n as nat) =~= old(s)@.push(hex_digit((n % 10) as u32)));
        }
    }
}

/// The lower-case hexadecimal digit for `d` < 16.
pub open spec fn hex_digit_lower(d: u32) -> char {
    if d < 10 { ((d + 48) as u8) as char } else { ((d + 87) as u8) as char }
}

/// A byte as two lower-case hexadecimal digits.
pub open spec fn hex2_lower(b: u8) -> Seq<char> {
    seq![hex_digit_lower((b / 16) as u32), hex_digit_lower((b % 16) as u32)]
}

/// Appends a byte as two lower-case hexadecimal digits.
pub fn push_hex2_lower(s: &mut String, b: u8)
    ensures
        final(s)@ == old(s)@ + hex2_lower(b),
{
    let hi = (b / 16) as u32;
    let lo = (b % 16) as u32;
    let ch: u8 = if hi < 10 { hi as u8 + 48 } else { hi as u8 + 87 };
    let cl: u8 = if lo < 10 { lo as u8 + 48 } else { lo as u8 + 87 };
    push_char(s, ch as char);
    push_char(s, cl as char);
    assert(s@ =~= old(s)@ + hex2_lower(b));
}

/// Appends the upper-case hexadecimal representation of `n`.
pub fn push_hex(s: &mut String, n: u32)
    ensures
        final(s)@ == old(s)@ + hex_str(n as nat),
    decreases n,
{
    if n >= 16 {
        push_hex(s, n / 16);
    }
    push_char(s, hex_digit_exec(n % 16));
    proof {
        if n >= 16 {
            assert(old(s)@ + hex_str(n as nat) =~= old(s)@ + hex_str((n / 16) as nat) + seq![hex_digit(n % 16)]);
        } else {
            assert(old(s)@ + hex_str(n as nat) =~= old(s)@.push(hex_digit(n % 16)));
        }
    }
}

fn hex_len(n: u32) -> (r: usize)
    ensures
        r == hex_str(n as nat).len(),
        r <= n as nat + 1,
    decreases n,
{
    if n >= 16 {
        1 + hex_len(n / 16)
    } else {
        1
    }
}

/// Appends the hexadecimal representation of `n`, zero-padded to `width`.
pub fn push_hex_padded(s: &mut String, n: u32, width: usize)
    ensures
        final(s)@ == old(s)@ + zero_pad(hex_str(n as nat), width as nat),
{
    let len = hex_len(n);
    let ghost s0 = s@;
    let mut k = len;
    while k < width
        invariant
            len <= k,
            len < width ==> k <= width,
            len >= width ==> k == len,
            s@ == s0 + Seq::new((k - len) as nat, |i: int| '0'),
        decreases width - k,
    {
        push_char(s, '0');
        assert(s@ =~= s0 + Seq::new((k + 1 - len) as nat, |i: int| '0'));
        k = k + 1;
    }
    let ghost mid = s@;
    push_hex(s, n);
    proof {
        if len >= width {
            assert(mid =~= s0);
        } else {
            assert(k == width);
        }
        assert(s@ =~= s0 + zero_pad(hex_str(n as nat), width as nat));
    }
}

fn push_signed_dec(s: &mut String, v: u32)
    ensures
        final(s)@ == old(s)@ + signed_dec(v),
{
    let ghost s0 = s@;
    if v & 0x8000_0000 != 0 {
        s.append("-");
        push_dec(s, 0u32.wrapping_sub(v));
    } else {
        s.append("+");
        push_dec(s, v);
    }
    assert(s@ =~= s0 + signed_dec(v));
}


// ── Instruction text ──────────────────────────────────────────────────

impl Cpu {
    /// Register name lookup.
    fn reg_name(r: u32) -> (n: &'static str)
        ensures
            n@ == reg_name(r),
    {
        match r {
            0 => "R0",
            1 => "R1",
            2 => "R2",
            3 => "R3",
            4 => "R4",
            5 => "R5",
            6 => "R6",
            7 => "R7",
            8 => "R8",
            9 => "R9",
            10 => "R10",
            11 => "R11",
            12 => "R12",
            13 => "SP",
            14 => "LR",
            15 => "PC",
            _ => "??",
        }
    }

    /// Condition suffix text.
    fn cond_suffix(cond: u32) -> (n: &'static str)
        ensures
            n@ == cond_suffix(cond),
    {
        match cond {
            0x0 => "EQ",
            0x1 => "NE",
            0x2 => "CS",
            0x3 => "CC",
            0x4 => "MI",
            0x5 => "PL",
            0x6 => "VS",
            0x7 => "VC",
            0x8 => "HI",
            0x9 => "LS",
            0xA => "GE",
            0xB => "LT",
            0xC => "GT",
            0xD => "LE",
            _ => "",
        }
    }
}

#[verifier::rlimit(40)]
#[verifier::spinoff_prover]
fn push_multiply(s: &mut String, instr: u32, cs: &str)
    ensures
        final(s)@ == old(s)@ + multiply_text(instr, cs@),
{
    let ghost s0 = s@;
    let a = (instr >> 21) & 1 == 1;
    let rs = (instr >> 8) & 0xF;
    let rm = instr & 0xF;
    if (instr >> 23) & 1 == 1 {
        let u = (instr >> 22) & 1 == 1;
        let m = if !u && !a { "UMULL" } else if !u { "UMLAL" } else if !a { "SMULL" } else { "SMLAL" };
        s.append(m);
        s.append(cs);
        s.append(" ");
        s.append(Cpu::reg_name((instr >> 12) & 0xF));
        s.append(", ");
        s.append(Cpu::reg_name((instr >> 16) & 0xF));
        s.append(", ");
        s.append(Cpu::reg_name(rm));
        s.append(", ");
        s.append(Cpu::reg_name(rs));
    } else {
        let rd = (instr >> 16) & 0xF;
        if a {
            s.append("MLA");
        } else {
            s.append("MUL");
        }
        s.append(cs);
        s.append(" ");
        s.append(Cpu::reg_name(rd));
        s.append(", ");
        s.append(Cpu::reg_name(rm));
        s.append(", ");
        s.append(Cpu::reg_name(rs));
        if a {
            s.append(", ");
            s.append(Cpu::reg_name((instr >> 12) & 0xF));
        }
    }
    assert(s@ =~= s0 + multiply_text(instr, cs@));
}

fn push_halfword_offset(s: &mut String, instr: u32)
    ensures
        final(s)@ == old(s)@ + halfword_offset_text(instr),
{
    let ghost s0 = s@;
    let sign = if (instr >> 23) & 1 == 1 { "+" } else { "-" };
    if (instr >> 22) & 1 == 1 {
        s.append("#");
        s.append(sign);
        s.append("0x");
        push_hex(s, (((instr >> 8) & 0xF) << 4) | (instr & 0xF));
    } else {
        s.append(sign);
        s.append(Cpu::reg_name(instr & 0xF));
    }
    assert(s@ =~= s0 + halfword_offset_text(instr));
}

fn push_halfword(s: &mut String, instr: u32, cs: &str)
    ensures
        final(s)@ == old(s)@ + halfword_text(instr, cs@),
{
    let ghost s0 = s@;
    let load = (instr >> 20) & 1 == 1;
    let s_bit = (instr >> 6) & 1 == 1;
    let h_bit = (instr >> 5) & 1 == 1;
    let m = if !load { "STRH" } else if s_bit && h_bit { "LDRSH" } else if s_bit { "LDRSB" } else { "LDRH" };
    s.append(m);
    s.append(cs);
    s.append(" ");
    s.append(Cpu::reg_name((instr >> 12) & 0xF));
    s.append(", ");
    s.append("[");
    s.append(Cpu::reg_name((instr >> 16) & 0xF));
    if (instr >> 24) & 1 == 1 {
        s.append(", ");
        push_halfword_offset(s, instr);
        s.append("]");
    } else {
        s.append("], ");
        push_halfword_offset(s, instr);
    }
    assert(s@ =~= s0 + halfword_text(instr, cs@));
}

fn push_dp_operand(s: &mut String, instr: u32)
    ensures
        final(s)@ == old(s)@ + dp_operand_text(instr),
{
    let ghost s0 = s@;
    if (instr >> 25) & 1 == 1 {
        s.append("#");
        let rot = (instr >> 8) & 0xF;
        assert(rot <= 15) by (bit_vector)
            requires rot == (instr >> 8) & 0xF;
        push_dec(s, ror_exec(instr & 0xFF, rot * 2));
    } else {
        let amount = (instr >> 7) & 0x1F;
        s.append(Cpu::reg_name(instr & 0xF));
        if amount != 0 {
            let t = (instr >> 5) & 0x3;
            s.append(", ");
            s.append(if t == 0 { "LSL" } else if t == 1 { "LSR" } else if t == 2 { "ASR" } else { "ROR" });
            s.append(" #");
            push_dec(s, amount);
        }
    }
    assert(s@ =~= s0 + dp_operand_text(instr));
}

#[verifier::rlimit(40)]
#[verifier::spinoff_prover]
fn push_data_processing(s: &mut String, instr: u32, cs: &str)
    ensures
        final(s)@ == old(s)@ + data_processing_text(instr, cs@),
{
    let ghost s0 = s@;
    let opcode = (instr >> 21) & 0xF;
    let m = match opcode {
        0x0 => "AND",
        0x1 => "EOR",
        0x2 => "SUB",
        0x3 => "RSB",
        0x4 => "ADD",
        0x5 => "ADC",
        0x6 => "SBC",
        0x7 => "RSC",
        0x8 => "TST",
        0x9 => "TEQ",
        0xA => "CMP",
        0xB => "CMN",
        0xC => "ORR",
        0xD => "MOV",
        0xE => "BIC",
        _ => "MVN",
    };
    assert(m@ == dp_mnemonic(opcode));
    let sf = if (instr >> 20) & 1 == 1 { "S" } else { "" };
    s.append(m);
    s.append(cs);
    if opcode == 0xD || opcode == 0xF {
        s.append(sf);
        s.append(" ");
        s.append(Cpu::reg_name((instr >> 12) & 0xF));
    } else if 0x8 <= opcode && opcode <= 0xB {
        s.append(" ");
        s.append(Cpu::reg_name((instr >> 16) & 0xF));
    } else {
        s.append(sf);
        s.append(" ");
        s.append(Cpu::reg_name((instr >> 12) & 0xF));
        s.append(", ");
        s.append(Cpu::reg_name((instr >> 16) & 0xF));
    }
    let ghost head = s@;
    s.append(", ");
    push_dp_operand(s, instr);
    assert(s@ =~= head + ", "@ + dp_operand_text(instr));
    assert(s@ =~= s0 + data_processing_text(instr, cs@));
}

#[verifier::rlimit(40)]
#[verifier::spinoff_prover]
fn push_single_transfer(s: &mut String, instr: u32, cs: &str)
    ensures
        final(s)@ == old(s)@ + single_transfer_text(instr, cs@),
{
    let ghost s0 = s@;
    let p = (instr >> 24) & 1 == 1;
    let b = (instr >> 22) & 1 == 1;
    let m = if (instr >> 20) & 1 == 1 {
        if b { "LDRB" } else { "LDR" }
    } else {
        if b { "STRB" } else { "STR" }
    };
    let offset = instr & 0xFFF;
    let sign = if (instr >> 23) & 1 == 1 { "" } else { "-" };
    let wb = if (instr >> 21) & 1 == 1 && p { "!" } else { "" };
    s.append(m);
    s.append(cs);
    s.append(" ");
    s.append(Cpu::reg_name((instr >> 12) & 0xF));
    s.append(", [");
    s.append(Cpu::reg_name((instr >> 16) & 0xF));
    if p {
        if offset != 0 {
            s.append(", #");
            s.append(sign);
            push_dec(s, offset);
        }
        s.append("]");
        s.append(wb);
    } else {
        s.append("], #");
        s.append(sign);
        push_dec(s, offset);
    }
    assert(s@ =~= s0 + single_transfer_text(instr, cs@));
}

fn push_reg_list(s: &mut String, list: u32)
    ensures
        final(s)@ == old(s)@ + reg_list_text(list, 0, true),
{
    let ghost s0 = s@;
    let mut first = true;
    let mut i: u32 = 0;
    while i < 16
        invariant
            i <= 16,
            s@ + reg_list_text(list, i, first) == s0 + reg_list_text(list, 0, true),
        decreases 16 - i,
    {
        let ghost before = s@;
        if list & (1u32 << i) != 0 {
            if !first {
                s.append(", ");
            }
            s.append(Cpu::reg_name(i));
            assert(s@ + reg_list_text(list, (i + 1) as u32, false) =~= before + reg_list_text(list, i, first));
            first = false;
        }
        i = i + 1;
    }
    assert(reg_list_text(list, 16, first) =~= Seq::<char>::empty());
    assert(s@ =~= s@ + reg_list_text(list, 16, first));
}

fn push_block_transfer(s: &mut String, instr: u32, cs: &str)
    ensures
        final(s)@ == old(s)@ + block_transfer_text(instr, cs@),
{
    let ghost s0 = s@;
    let p = (instr >> 24) & 1 == 1;
    let u = (instr >> 23) & 1 == 1;
    let mode = if !p && u { "IA" } else if p && u { "IB" } else if !p { "DA" } else { "DB" };
    s.append(if (instr >> 20) & 1 == 1 { "LDM" } else { "STM" });
    s.append(cs);
    s.append(mode);
    s.append(" ");
    s.append(Cpu::reg_name((instr >> 16) & 0xF));
    s.append(if (instr >> 21) & 1 == 1 { "!" } else { "" });
    s.append(", {");
    push_reg_list(s, instr & 0xFFFF);
    s.append("}");
    assert(s@ =~= s0 + block_transfer_text(instr, cs@));
}

fn push_branch(s: &mut String, instr: u32, cs: &str)
    ensures
        final(s)@ == old(s)@ + branch_text(instr, cs@),
{
    let ghost s0 = s@;
    let offset24 = instr & 0x00FF_FFFF;
    let offset = if offset24 & 0x0080_0000 != 0 { (offset24 | 0xFF00_0000) << 2 } else { offset24 << 2 };
    s.append(if (instr >> 24) & 1 == 1 { "BL" } else { "B" });
    s.append(cs);
    s.append(" #");
    push_signed_dec(s, offset.wrapping_add(8));
    assert(s@ =~= s0 + branch_text(instr, cs@));
}

impl Cpu {
    /// Disassembles a single 32-bit ARM instruction into assembly text.
    #[verifier::rlimit(40)]
    #[verifier::spinoff_prover]
    pub fn disassemble_instruction(instr: u32) -> (r: String)
        ensures
            r@ == disasm(instr),
    {
        let mut s = String::new();
        if instr == 0 {
            s.append("NOP (0x00000000)");
            return s;
        }
        let cs = Self::cond_suffix((instr >> 28) & 0xF);
        let bits = (instr >> 25) & 0x7;
        if bits == 0 || bits == 1 {
            if bits == 0 && instr & 0x0F00_00F0 == 0x0000_0090 {
                push_multiply(&mut s, instr, cs);
            } else if bits == 0 && instr & 0x0FFF_FFF0 == 0x012F_FF30 {
                s.append("BLX");
                s.append(cs);
                s.append(" ");
                s.append(Self::reg_name(instr & 0xF));
            } else if bits == 0 && instr & 0x0FFF_FFF0 == 0x012F_FF10 {
                s.append("BX");
                s.append(cs);
                s.append(" ");
                s.append(Self::reg_name(instr & 0xF));
            } else if bits == 0 && instr & 0x90 == 0x90 && instr & 0x0E00_0000 == 0 && instr & 0x0F00_00F0 != 0x90 {
                push_halfword(&mut s, instr, cs);
            } else {
                push_data_processing(&mut s, instr, cs);
            }
        } else if bits == 2 || bits == 3 {
            push_single_transfer(&mut s, instr, cs);
        } else if bits == 4 {
            push_block_transfer(&mut s, instr, cs);
        } else if bits == 5 {
            push_branch(&mut s, instr, cs);
        } else if bits == 7 {
            if (instr >> 24) & 1 == 1 {
                s.append("SWI");
                s.append(cs);
                s.append(" #0x");
                push_hex_padded(&mut s, instr & 0x00FF_FFFF, 6);
            } else {
                s.append("CDP");
                s.append(cs);
                s.append(" (Coprocessor)");
            }
        } else {
            s.append("??? (");
            s.append("0x");
            push_hex_padded(&mut s, instr, 8);
            s.append(")");
        }
        proof {
            assert(s@ =~= disasm(instr));
        }
        s
    }

    /// Disassembles the instruction stored at physical address `addr`.
    pub fn disassemble_at(&mut self, addr: u32) -> (r: String)
        requires
            old(self).wf(),
        ensures
            r@ == disasm(old(self)@.mmu.load32(addr).0),
            final(self)@ == (crate::arm::CpuView { mmu: old(self)@.mmu.load32(addr).1, ..old(self)@ }),
            final(self).wf(),
    {
        let instr = self.mmu.read_u32(addr);
        Self::disassemble_instruction(instr)
    }
}

} // verus!
