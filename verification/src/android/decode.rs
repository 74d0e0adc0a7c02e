//! Decoding of one Dalvik instruction into a structured form.
use vstd::prelude::*;
use crate::android::opcodes::{
    MOVE, MOVE_FROM16, MOVE_16, MOVE_OBJECT, MOVE_OBJECT_FROM16, MOVE_RESULT, MOVE_RESULT_OBJECT, RETURN, RETURN_OBJECT, CONST_4, CONST_16, CONST, CONST_HIGH16, CONST_STRING, CONST_STRING_JUMBO, NEW_INSTANCE, GOTO, GOTO_16, IF_EQ, IF_NE, IF_EQZ, IF_NEZ, IGET_OBJECT, IPUT_OBJECT, SGET_OBJECT, SPUT_OBJECT, INVOKE_VIRTUAL, INVOKE_SUPER, INVOKE_DIRECT, INVOKE_STATIC, INVOKE_INTERFACE,
    IF_LT, IF_GE, IF_GT, IF_LE, CHECK_CAST, ARRAY_LENGTH, NEW_ARRAY, AGET, APUT, ADD_INT, SUB_INT, MUL_INT,
    ADD_INT_2ADDR, SUB_INT_2ADDR, MUL_INT_2ADDR,
};
use crate::arm::{sext16, sext8};
use crate::cpu::{sext16_exec, sext8_exec};

verus! {

/// One decoded instruction: opcode, size in 16-bit code units and operands.
#[derive(Debug, Clone, Copy)]
pub struct Insn {
    pub op: u8,
    pub size: usize,
    pub a: u32,
    pub b: u32,
    pub c: u32,
    pub d: u32,
    pub e: u32,
    pub f: u32,
    pub g: u32,
    pub raw0: u16,
}

/// Sign extension of a 4-bit value to 32 bits.
pub open spec fn sext4(n: u32) -> u32 {
    if n & 8 != 0 { n | 0xFFFF_FFF0 } else { n }
}

/// The decoding of the instruction at `pc`; `None` when `pc` or an operand
/// unit it needs lies past the end of `insns`. Each opcode is read in its
/// format: 12x (`vA, vB`), 11x (`vAA`), 11n, 21c/21s/21h (`vAA` and a
/// 16-bit unit), 22t/22c (`vA, vB` and a 16-bit unit), 23x (`vAA, vBB,
/// vCC`), 31i/31c, 32x, 10t/20t and 35c. Opcodes without operands, and
/// unknown ones, decode to one unit with zero operands.
pub open spec fn decode_spec(insns: Seq<u16>, pc: int) -> Option<Insn> {
    if !(0 <= pc < insns.len()) {
        None
    } else {
        let raw0 = insns[pc];
        let op = (raw0 & 0xff) as u8;
        let base = Insn { op: op, size: 1, a: 0, b: 0, c: 0, d: 0, e: 0, f: 0, g: 0, raw0: raw0 };
        let nib_a = ((raw0 >> 8) & 0xf) as u32;
        let nib_b = ((raw0 >> 12) & 0xf) as u32;
        let aa = ((raw0 >> 8) & 0xff) as u32;
        let has1 = pc + 1 < insns.len();
        let has2 = pc + 2 < insns.len();
        if op == MOVE || op == MOVE_OBJECT {
            Some(Insn { a: nib_a, b: nib_b, ..base })
        } else if op == MOVE_FROM16 || op == MOVE_OBJECT_FROM16 || op == CONST_16 || op == CONST_HIGH16
            || op == CONST_STRING || op == NEW_INSTANCE || op == SGET_OBJECT || op == SPUT_OBJECT {
            if has1 { Some(Insn { a: aa, b: insns[pc + 1] as u32, size: 2, ..base }) } else { None }
        } else if op == MOVE_16 {
            if has1 && has2 { Some(Insn { a: insns[pc + 1] as u32, b: insns[pc + 2] as u32, size: 3, ..base }) } else { None }
        } else if op == MOVE_RESULT || op == MOVE_RESULT_OBJECT || op == RETURN || op == RETURN_OBJECT {
            Some(Insn { a: aa, ..base })
        } else if op == CONST_4 {
            Some(Insn { a: nib_a, b: sext4(nib_b), ..base })
        } else if op == CONST || op == CONST_STRING_JUMBO {
            if has1 && has2 {
                Some(Insn { a: aa, b: (insns[pc + 1] as u32) | ((insns[pc + 2] as u32) << 16), size: 3, ..base })
            } else {
                None
            }
        } else if op == GOTO {
            Some(Insn { b: sext8((raw0 >> 8) as u8), ..base })
        } else if op == GOTO_16 {
            if has1 { Some(Insn { b: insns[pc + 1] as u32, size: 2, ..base }) } else { None }
        } else if op == IF_EQZ || op == IF_NEZ {
            if has1 { Some(Insn { a: aa, b: sext16(insns[pc + 1]), size: 2, ..base }) } else { None }
        } else if op == IF_EQ || op == IF_NE || op == IF_LT || op == IF_GE || op == IF_GT || op == IF_LE {
            if has1 { Some(Insn { a: nib_a, b: nib_b, c: sext16(insns[pc + 1]), size: 2, ..base }) } else { None }
        } else if op == CHECK_CAST {
            if has1 { Some(Insn { a: aa, b: insns[pc + 1] as u32, size: 2, ..base }) } else { None }
        } else if op == ARRAY_LENGTH || op == ADD_INT_2ADDR || op == SUB_INT_2ADDR || op == MUL_INT_2ADDR {
            Some(Insn { a: nib_a, b: nib_b, ..base })
        } else if op == NEW_ARRAY {
            if has1 { Some(Insn { a: nib_a, b: nib_b, c: insns[pc + 1] as u32, size: 2, ..base }) } else { None }
        } else if op == AGET || op == APUT || op == ADD_INT || op == SUB_INT || op == MUL_INT {
            if has1 {
                Some(Insn { a: aa, b: (insns[pc + 1] & 0xff) as u32, c: (insns[pc + 1] >> 8) as u32, size: 2, ..base })
            } else {
                None
            }
        } else if op == IGET_OBJECT || op == IPUT_OBJECT {
            if has1 { Some(Insn { a: nib_a, b: nib_b, c: insns[pc + 1] as u32, size: 2, ..base }) } else { None }
        } else if op == INVOKE_VIRTUAL || op == INVOKE_SUPER || op == INVOKE_DIRECT || op == INVOKE_STATIC
            || op == INVOKE_INTERFACE {
            if has1 && has2 {
                let rest = insns[pc + 2];
                Some(
                    Insn {
                        a: nib_b,
                        b: insns[pc + 1] as u32,
                        c: (rest & 0xf) as u32,
                        d: ((rest >> 4) & 0xf) as u32,
                        e: ((rest >> 8) & 0xf) as u32,
                        f: ((rest >> 12) & 0xf) as u32,
                        g: nib_a,
                        size: 3,
                        ..base
                    },
                )
            } else {
                None
            }
        } else {
            Some(base)
        }
    }
}

/// Decodes the instruction at code unit `pc`.
pub fn decode(insns: &[u16], pc: usize) -> (r: Option<Insn>)
    ensures
        r == decode_spec(insns@, pc as int),
{
    if pc >= insns.len() {
        return None;
    }
    let raw0 = insns[pc];
    let op = (raw0 & 0xff) as u8;
    let mut insn = Insn { op, size: 1, a: 0, b: 0, c: 0, d: 0, e: 0, f: 0, g: 0, raw0 };
    let has1 = pc + 1 < insns.len();
    let has2 = has1 && pc + 2 < insns.len();
    if op == MOVE || op == MOVE_OBJECT {
        insn.a = ((raw0 >> 8) & 0xf) as u32;
        insn.b = ((raw0 >> 12) & 0xf) as u32;
    } else if op == MOVE_FROM16 || op == MOVE_OBJECT_FROM16 || op == CONST_16 || op == CONST_HIGH16 || op
        == CONST_STRING || op == NEW_INSTANCE || op == SGET_OBJECT || op == SPUT_OBJECT {
        if !has1 {
            return None;
        }
        insn.a = ((raw0 >> 8) & 0xff) as u32;
        insn.b = insns[pc + 1] as u32;
        insn.size = 2;
    } else if op == MOVE_16 {
        if !has2 {
            return None;
        }
        insn.a = insns[pc + 1] as u32;
        insn.b = insns[pc + 2] as u32;
        insn.size = 3;
    } else if op == MOVE_RESULT || op == MOVE_RESULT_OBJECT || op == RETURN || op == RETURN_OBJECT {
        insn.a = ((raw0 >> 8) & 0xff) as u32;
    } else if op == CONST_4 {
        insn.a = ((raw0 >> 8) & 0xf) as u32;
        let n = ((raw0 >> 12) & 0xf) as u32;
        insn.b = if n & 8 != 0 { n | 0xFFFF_FFF0 } else { n };
    } else if op == CONST || op == CONST_STRING_JUMBO {
        if !has2 {
            return None;
        }
        insn.a = ((raw0 >> 8) & 0xff) as u32;
        let lo = insns[pc + 1] as u32;
        let hi = insns[pc + 2] as u32;
        insn.b = lo | (hi << 16);
        insn.size = 3;
    } else if op == GOTO {
        insn.b = sext8_exec((raw0 >> 8) as u8);
    } else if op == GOTO_16 {
        if !has1 {
            return None;
        }
        insn.b = insns[pc + 1] as u32;
        insn.size = 2;
    } else if op == IF_EQZ || op == IF_NEZ {
        if !has1 {
            return None;
        }
        insn.a = ((raw0 >> 8) & 0xff) as u32;
        insn.b = sext16_exec(insns[pc + 1]);
        insn.size = 2;
    } else if op == IF_EQ || op == IF_NE || op == IF_LT || op == IF_GE || op == IF_GT || op == IF_LE {
        if !has1 {
            return None;
        }
        insn.a = ((raw0 >> 8) & 0xf) as u32;
        insn.b = ((raw0 >> 12) & 0xf) as u32;
        insn.c = sext16_exec(insns[pc + 1]);
        insn.size = 2;
    } else if op == CHECK_CAST {
        if !has1 {
            return None;
        }
        insn.a = ((raw0 >> 8) & 0xff) as u32;
        insn.b = insns[pc + 1] as u32;
        insn.size = 2;
    } else if op == ARRAY_LENGTH || op == ADD_INT_2ADDR || op == SUB_INT_2ADDR || op == MUL_INT_2ADDR {
        insn.a = ((raw0 >> 8) & 0xf) as u32;
        insn.b = ((raw0 >> 12) & 0xf) as u32;
    } else if op == NEW_ARRAY {
        if !has1 {
            return None;
        }
        insn.a = ((raw0 >> 8) & 0xf) as u32;
        insn.b = ((raw0 >> 12) & 0xf) as u32;
        insn.c = insns[pc + 1] as u32;
        insn.size = 2;
    } else if op == AGET || op == APUT || op == ADD_INT || op == SUB_INT || op == MUL_INT {
        if !has1 {
            return None;
        }
        let unit = insns[pc + 1];
        insn.a = ((raw0 >> 8) & 0xff) as u32;
        insn.b = (unit & 0xff) as u32;
        insn.c = (unit >> 8) as u32;
        insn.size = 2;
    } else if op == IGET_OBJECT || op == IPUT_OBJECT {
        if !has1 {
            return None;
        }
        insn.a = ((raw0 >> 8) & 0xf) as u32;
        insn.b = ((raw0 >> 12) & 0xf) as u32;
        insn.c = insns[pc + 1] as u32;
        insn.size = 2;
    } else if op == INVOKE_VIRTUAL || op == INVOKE_SUPER || op == INVOKE_DIRECT || op == INVOKE_STATIC || op
        == INVOKE_INTERFACE {
        if !has2 {
            return None;
        }
        let rest = insns[pc + 2];
        insn.a = ((raw0 >> 12) & 0xf) as u32;
        insn.b = insns[pc + 1] as u32;
        insn.c = (rest & 0xf) as u32;
        insn.d = ((rest >> 4) & 0xf) as u32;
        insn.e = ((rest >> 8) & 0xf) as u32;
        insn.f = ((rest >> 12) & 0xf) as u32;
        insn.g = ((raw0 >> 8) & 0xf) as u32;
        insn.size = 3;
    }
    Some(insn)
}

} // verus!
