//! Properties of the APK/DEX runtime that span several operations.
use vstd::prelude::*;
use crate::android::decode::{decode_spec, Insn};
use crate::android::dex::{uleb_at, uleb_from};
use crate::android::error::ErrView;
use crate::android::fixture::{uleb_bytes, BuilderView};
use crate::android::hle::{HostView, ObjView, Value};
use crate::android::interp::{unimplemented_reason, VmView};
use crate::android::opcodes::{
    ADD_INT, ADD_INT_2ADDR, AGET, APUT, ARRAY_LENGTH, CHECK_CAST, CONST, CONST_16, CONST_4, CONST_HIGH16, CONST_STRING,
    CONST_STRING_JUMBO, GOTO, GOTO_16, IF_EQ, IF_EQZ, IF_GE, IF_GT, IF_LE, IF_LT, IF_NE, IF_NEZ, IGET_OBJECT,
    INVOKE_DIRECT, INVOKE_INTERFACE, INVOKE_STATIC, INVOKE_SUPER, INVOKE_VIRTUAL, IPUT_OBJECT, MOVE, MOVE_16,
    MOVE_FROM16, MOVE_OBJECT, MOVE_OBJECT_FROM16, MOVE_RESULT, MOVE_RESULT_OBJECT, MUL_INT, MUL_INT_2ADDR, NEW_ARRAY,
    NEW_INSTANCE, NOP, RETURN, RETURN_OBJECT, RETURN_VOID, SGET_OBJECT, SPUT_OBJECT, SUB_INT, SUB_INT_2ADDR,
};

verus! {

/// The opcodes the interpreter runs.
pub open spec fn implemented(op: u8) -> bool {
    op == NOP || op == MOVE || op == MOVE_FROM16 || op == MOVE_16 || op == MOVE_OBJECT || op == MOVE_OBJECT_FROM16
        || op == MOVE_RESULT || op == MOVE_RESULT_OBJECT || op == RETURN_VOID || op == RETURN || op == RETURN_OBJECT
        || op == CONST_4 || op == CONST_16 || op == CONST || op == CONST_HIGH16 || op == CONST_STRING || op
        == CONST_STRING_JUMBO || op == CHECK_CAST || op == ARRAY_LENGTH || op == NEW_INSTANCE || op == NEW_ARRAY || op
        == GOTO || op == GOTO_16 || op == IF_EQ || op == IF_NE || op == IF_LT || op == IF_GE || op == IF_GT || op
        == IF_LE || op == IF_EQZ || op == IF_NEZ || op == AGET || op == APUT || op == IGET_OBJECT || op == IPUT_OBJECT
        || op == SGET_OBJECT || op == SPUT_OBJECT || op == INVOKE_VIRTUAL || op == INVOKE_SUPER || op == INVOKE_DIRECT
        || op == INVOKE_STATIC || op == INVOKE_INTERFACE || op == ADD_INT || op == SUB_INT || op == MUL_INT || op
        == ADD_INT_2ADDR || op == SUB_INT_2ADDR || op == MUL_INT_2ADDR
}

/// A halted VM does not move.
pub proof fn halted_vm_stays(v: VmView)
    requires
        v.halted,
    ensures
        v.step() == (v, Ok::<bool, ErrView>(false)),
{
}

/// An opcode the interpreter does not implement stops the VM: it reports
/// the opcode and pc, records why it halted, and stays put afterwards.
pub proof fn unimplemented_opcode_halts(v: VmView)
    requires
        !v.halted,
        v.stack.len() > 0,
        decode_spec(v.stack.last().code.insns, v.stack.last().pc as int) matches Some(insn) && !implemented(insn.op),
    ensures
        ({
            let pc = v.stack.last().pc;
            let op = decode_spec(v.stack.last().code.insns, pc as int)->Some_0.op;
            let (v2, r) = v.step();
            &&& r == Err::<bool, ErrView>(ErrView::UnimplementedOpcode { op: op, pc: pc as u32 })
            &&& v2.halted
            &&& v2.halt_reason == Some(unimplemented_reason(op, pc))
            &&& v2.step() == (v2, Ok::<bool, ErrView>(false))
        }),
{
}

/// A batch never reports more steps than it was allowed.
pub proof fn batch_within_budget(v: VmView, n: u32, max: u32)
    requires
        n <= max,
    ensures
        v.run_from(n, max).1 matches Ok(k) ==> n <= k <= max,
    decreases max - n,
{
    if n < max {
        let (s2, r) = v.step();
        if r == Ok::<bool, ErrView>(true) {
            batch_within_budget(s2, (n + 1) as u32, max);
        }
    }
}

proof fn lemma_execute_keeps_steps(v: VmView, fi: int, insn: Insn)
    ensures
        v.execute(fi, insn).0.steps == v.steps,
{
}

/// The count a batch reports is the number of instructions it executed:
/// the VM's step counter moves on by exactly that much (mod 2^64).
pub proof fn batch_counts_executed_steps(v: VmView, n: u32, max: u32)
    requires
        n <= max,
    ensures
        v.run_from(n, max).1 matches Ok(k) ==> v.run_from(n, max).0.steps as int == (v.steps as int + (k - n))
            % 0x1_0000_0000_0000_0000,
    decreases max - n,
{
    if n < max {
        let (s2, r) = v.step();
        if !v.halted && v.stack.len() > 0 {
            let fi = v.stack.len() - 1;
            match decode_spec(v.stack[fi].code.insns, v.stack[fi].pc as int) {
                Some(insn) => {
                    lemma_execute_keeps_steps(VmView { steps: v.steps.wrapping_add(1), ..v }, fi, insn);
                },
                None => {},
            }
        }
        if r == Ok::<bool, ErrView>(true) {
            batch_counts_executed_steps(s2, (n + 1) as u32, max);
        }
    }
}

/// A string the host allocates reads back through the reference it returns.
pub proof fn allocated_string_reads_back(h: HostView, s: Seq<char>)
    requires
        h.objects.len() + 1 <= u32::MAX,
    ensures
        h.alloc_object(ObjView::Str(s)).string_of(h.next_ref()) == Some(s),
{
}

/// A value stored in an array element reads back; the array keeps its
/// length.
pub proof fn array_store_then_load(h: HostView, arr: Value, idx: i32, val: Value)
    requires
        h.array_of(arr) matches Some(a) && 0 <= idx < a.len(),
    ensures
        h.array_store(arr, idx, val).array_of(arr) == Some(h.array_of(arr)->Some_0.update(idx as int, val)),
{
}

/// Logging a line adds exactly that line to the log and shows it last on
/// screen.
pub proof fn log_line_appends(h: HostView, line: Seq<char>)
    ensures
        h.log_line(line).logs == h.logs.push(line),
        h.log_line(line).canvas_text.len() >= line.len(),
        h.log_line(line).canvas_text.subrange(
            h.log_line(line).canvas_text.len() - line.len(),
            h.log_line(line).canvas_text.len() as int,
        ) == line,
{
    let c = h.log_line(line).canvas_text;
    if h.canvas_text.len() == 0 {
        assert(c.subrange(0, line.len() as int) =~= line);
    } else {
        assert(c.subrange(c.len() - line.len(), c.len() as int) =~= line);
    }
}

/// Adding a string a second time changes nothing and gives the same index.
pub proof fn string_added_once(b: BuilderView, x: Seq<char>)
    requires
        b.strings.len() < u32::MAX,
    ensures
        b.add_string(x).0.add_string(x) == b.add_string(x),
{
    crate::android::fixture::lemma_find_from_bounds(b.strings, x, 0);
    let b1 = b.add_string(x).0;
    match crate::android::fixture::find_from(b.strings, x, 0) {
        Some(i) => {},
        None => {
            lemma_find_from_prefix(b.strings, x, 0);
            assert(b1.strings[b.strings.len() as int] == x);
            lemma_find_from_push(b.strings, x, 0);
        },
    }
}

proof fn lemma_find_from_prefix(ss: Seq<Seq<char>>, x: Seq<char>, i: int)
    requires
        0 <= i,
        crate::android::fixture::find_from(ss, x, i) is None,
    ensures
        forall|k: int| i <= k < ss.len() ==> #[trigger] ss[k] != x,
    decreases ss.len() - i,
{
    if i < ss.len() {
        lemma_find_from_prefix(ss, x, i + 1);
    }
}

proof fn lemma_find_from_push(ss: Seq<Seq<char>>, x: Seq<char>, i: int)
    requires
        0 <= i <= ss.len(),
        forall|k: int| i <= k < ss.len() ==> #[trigger] ss[k] != x,
    ensures
        crate::android::fixture::find_from(ss.push(x), x, i) == Some(ss.len() as int),
    decreases ss.len() - i,
{
    if i < ss.len() {
        lemma_find_from_push(ss, x, i + 1);
    }
}

/// Decoding a ULEB128 value from byte `k`, after the low `s` bits have
/// been read, when the rest of its encoding follows.
proof fn lemma_uleb_decode(d: Seq<u8>, k: int, v: u32, s: u32)
    requires
        0 <= k,
        s == 7 * k,
        s <= 28,
        k + uleb_bytes(v >> s).len() <= d.len(),
        d.subrange(k, k + uleb_bytes(v >> s).len()) == uleb_bytes(v >> s),
    ensures
        uleb_from(d, 0, k, s, v & (((1u32 << s) - 1) as u32)) == Some((v, k + uleb_bytes(v >> s).len())),
    decreases 28 - s,
{
    let w = v >> s;
    let acc = v & (((1u32 << s) - 1) as u32);
    let ub = uleb_bytes(w);
    assert(d[k] == ub[0]);
    let b = d[k] as u32;
    assert(acc | ((b & 0x7f) << s) == acc | ((w & 0x7f) << s)) by {
        if w >> 7 == 0 {
            assert((((w & 0x7f) as u8) as u32) & 0x7f == w & 0x7f) by (bit_vector);
        } else {
            assert(((((w & 0x7f) as u8) | 0x80u8) as u32) & 0x7f == w & 0x7f) by (bit_vector);
        }
    }
    if w >> 7 == 0 {
        assert((((w & 0x7f) as u8) as u32) & 0x80 == 0) by (bit_vector);
        assert((v & (((1u32 << s) - 1) as u32)) | (((v >> s) & 0x7f) << s) == v) by (bit_vector)
            requires
                s <= 28,
                (v >> s) >> 7 == 0,
        ;
    } else {
        assert(((((w & 0x7f) as u8) | 0x80u8) as u32) & 0x80 != 0) by (bit_vector);
        assert(s + 7 <= 28) by (bit_vector)
            requires
                s <= 28,
                (v >> s) >> 7 != 0,
                s % 7 == 0,
        ;
        let s2 = (s + 7) as u32;
        assert(w >> 7 == v >> s2) by (bit_vector)
            requires
                w == v >> s,
                s2 == s + 7,
                s <= 21,
        ;
        assert((v & (((1u32 << s) - 1) as u32)) | (((v >> s) & 0x7f) << s) == v & (((1u32 << s2) - 1) as u32))
            by (bit_vector)
            requires
                s <= 21,
                s2 == s + 7,
        ;
        let rest = uleb_bytes(v >> s2);
        assert(ub == seq![(((w & 0x7f) as u8) | 0x80u8)] + rest);
        assert(d.subrange(k + 1, k + 1 + rest.len()) =~= rest) by {
            assert forall|j: int| 0 <= j < rest.len() implies d.subrange(k + 1, k + 1 + rest.len())[j] == rest[j] by {
                assert(d.subrange(k, k + ub.len())[j + 1] == ub[j + 1]);
            }
        }
        lemma_uleb_decode(d, k + 1, v, s2);
    }
}

/// Decoding the ULEB128 encoding of `v` gives `v` and the encoding's length,
/// whatever follows it.
pub proof fn uleb_roundtrip(v: u32, rest: Seq<u8>)
    ensures
        uleb_at(uleb_bytes(v) + rest, 0) == Some((v, uleb_bytes(v).len() as int)),
{
    let d = uleb_bytes(v) + rest;
    assert(v >> 0u32 == v) by (bit_vector);
    assert(v & (((1u32 << 0u32) - 1) as u32) == 0) by (bit_vector);
    assert(d.subrange(0, uleb_bytes(v).len() as int) =~= uleb_bytes(v));
    lemma_uleb_decode(d, 0, v, 0);
}

/// if-lt vA, vB, +off compares strictly: it jumps by the signed 16-bit
/// offset exactly when vA < vB, and otherwise moves on by the instruction's
/// size; with equal operands it never jumps. Registers are left as they are.
pub proof fn if_lt_jumps_only_when_less(v: VmView, fi: int, insn: Insn)
    requires
        insn.op == IF_LT,
        0 <= fi < v.stack.len(),
        (insn.a as int) < v.stack[fi].regs.len(),
        (insn.b as int) < v.stack[fi].regs.len(),
    ensures
        ({
            let x = v.stack[fi].regs[insn.a as int].int_of();
            let y = v.stack[fi].regs[insn.b as int].int_of();
            let pc = v.stack[fi].pc;
            let w = v.execute(fi, insn).0;
            &&& v.execute(fi, insn).1 == Ok::<(), ErrView>(())
            &&& w.stack.len() == v.stack.len()
            &&& w.stack[fi].regs == v.stack[fi].regs
            &&& x < y ==> w.stack[fi].pc == ((pc as i32).wrapping_add(insn.c as i16 as i32)) as usize
            &&& !(x < y) ==> w.stack[fi].pc == pc.wrapping_add(insn.size)
            &&& x == y ==> w.stack[fi].pc == pc.wrapping_add(insn.size)
        }),
{
}

/// const vAA, #+BBBBBBBB (format 31i) takes its literal from the two code
/// units after the opcode, low half first: the literal's low 16 bits are
/// the first unit and its high 16 bits the second.
pub proof fn const_literal_low_half_first(insns: Seq<u16>, pc: int)
    requires
        0 <= pc,
        pc + 2 < insns.len(),
        (insns[pc] & 0xff) as u8 == CONST,
    ensures
        decode_spec(insns, pc) matches Some(i) && i.op == CONST && i.size == 3 && i.a == (insns[pc] >> 8) as u32 && i.b
            & 0xFFFF == insns[pc + 1] as u32 && i.b >> 16 == insns[pc + 2] as u32,
{
    crate::properties::lemma_field_bits();
    let lo = insns[pc + 1];
    let hi = insns[pc + 2];
    assert(((lo as u32) | ((hi as u32) << 16u32)) & 0xFFFF == lo as u32);
    assert(((insns[pc] >> 8) & 0xff) == insns[pc] >> 8);
}

/// Where a branch by the signed 16-bit offset `off` from `pc` lands.
pub open spec fn branch_target(pc: usize, off: u32) -> usize {
    ((pc as i32).wrapping_add(off as i16 as i32)) as usize
}

/// The two-register conditional branches (if-eq, if-ne, if-lt, if-ge,
/// if-gt, if-le) compare the registers' values as signed integers and jump
/// by the offset exactly when the comparison holds (equal, different, less,
/// not less, greater, not greater); otherwise they move on by the
/// instruction's size. Registers are left as they are.
pub proof fn if_compare_jumps_when_relation_holds(v: VmView, fi: int, insn: Insn)
    requires
        insn.op == IF_EQ || insn.op == IF_NE || insn.op == IF_LT || insn.op == IF_GE || insn.op == IF_GT || insn.op
            == IF_LE,
        0 <= fi < v.stack.len(),
        (insn.a as int) < v.stack[fi].regs.len(),
        (insn.b as int) < v.stack[fi].regs.len(),
    ensures
        ({
            let x = v.stack[fi].regs[insn.a as int].int_of() as int;
            let y = v.stack[fi].regs[insn.b as int].int_of() as int;
            let holds = if insn.op == IF_EQ {
                x == y
            } else if insn.op == IF_NE {
                x != y
            } else if insn.op == IF_LT {
                x < y
            } else if insn.op == IF_GE {
                x >= y
            } else if insn.op == IF_GT {
                x > y
            } else {
                x <= y
            };
            let pc = v.stack[fi].pc;
            let w = v.execute(fi, insn).0;
            &&& v.execute(fi, insn).1 == Ok::<(), ErrView>(())
            &&& w.stack.len() == v.stack.len()
            &&& w.stack[fi].regs == v.stack[fi].regs
            &&& w.stack[fi].pc == if holds { branch_target(pc, insn.c) } else { pc.wrapping_add(insn.size) }
        }),
{
}

/// if-eqz and if-nez test one register against zero: if-eqz jumps by the
/// offset exactly when it is 0, if-nez exactly when it is not; otherwise
/// they move on by the instruction's size.
pub proof fn if_zero_jumps_when_relation_holds(v: VmView, fi: int, insn: Insn)
    requires
        insn.op == IF_EQZ || insn.op == IF_NEZ,
        0 <= fi < v.stack.len(),
        (insn.a as int) < v.stack[fi].regs.len(),
    ensures
        ({
            let x = v.stack[fi].regs[insn.a as int].int_of() as int;
            let holds = if insn.op == IF_EQZ { x == 0 } else { x != 0 };
            let pc = v.stack[fi].pc;
            let w = v.execute(fi, insn).0;
            &&& v.execute(fi, insn).1 == Ok::<(), ErrView>(())
            &&& w.stack.len() == v.stack.len()
            &&& w.stack[fi].regs == v.stack[fi].regs
            &&& w.stack[fi].pc == if holds { branch_target(pc, insn.b) } else { pc.wrapping_add(insn.size) }
        }),
{
}

/// if-lt and if-ge on the same registers go opposite ways: exactly one of
/// them jumps.
pub proof fn if_lt_and_if_ge_are_opposite(v: VmView, fi: int, insn: Insn)
    requires
        insn.op == IF_LT,
        0 <= fi < v.stack.len(),
        (insn.a as int) < v.stack[fi].regs.len(),
        (insn.b as int) < v.stack[fi].regs.len(),
        branch_target(v.stack[fi].pc, insn.c) != v.stack[fi].pc.wrapping_add(insn.size),
    ensures
        (v.execute(fi, insn).0.stack[fi].pc == branch_target(v.stack[fi].pc, insn.c)) != (v.execute(
            fi,
            Insn { op: IF_GE, ..insn },
        ).0.stack[fi].pc == branch_target(v.stack[fi].pc, insn.c)),
{
    if_compare_jumps_when_relation_holds(v, fi, insn);
    if_compare_jumps_when_relation_holds(v, fi, Insn { op: IF_GE, ..insn });
}

/// The opcode of a code unit: its low byte.
pub open spec fn unit_op(raw: u16) -> u8 {
    (raw % 256) as u8
}

/// Formats 12x, 11x, 21c/22x and 32x read their registers from the right
/// places: in 12x vA is the low nibble of the high byte and vB its high
/// nibble; in 11x and 21c vAA is the high byte, and in 21c the second unit
/// is the index; in 32x both registers are whole units.
pub proof fn decode_register_formats(insns: Seq<u16>, pc: int)
    requires
        0 <= pc < insns.len(),
    ensures
        ({
            let raw = insns[pc];
            let op = unit_op(raw);
            let d = decode_spec(insns, pc);
            &&& (op == MOVE || op == MOVE_OBJECT || op == ARRAY_LENGTH || op == ADD_INT_2ADDR || op == SUB_INT_2ADDR || op
                == MUL_INT_2ADDR) ==> (d matches Some(i) && i.op == op && i.size == 1 && i.a == ((raw / 256) % 16) as u32
                && i.b == (raw / 4096) as u32)
            &&& (op == MOVE_RESULT || op == MOVE_RESULT_OBJECT || op == RETURN || op == RETURN_OBJECT) ==> (d matches Some(
                i,
            ) && i.op == op && i.size == 1 && i.a == (raw / 256) as u32)
            &&& (op == MOVE_FROM16 || op == MOVE_OBJECT_FROM16 || op == CONST_16 || op == CONST_HIGH16 || op == CONST_STRING
                || op == NEW_INSTANCE || op == SGET_OBJECT || op == SPUT_OBJECT || op == CHECK_CAST) ==> if pc + 1
                < insns.len() {
                d matches Some(i) && i.op == op && i.size == 2 && i.a == (raw / 256) as u32 && i.b == insns[pc + 1] as u32
            } else {
                d is None
            }
            &&& op == MOVE_16 ==> if pc + 2 < insns.len() {
                d matches Some(i) && i.op == op && i.size == 3 && i.a == insns[pc + 1] as u32 && i.b == insns[pc + 2] as u32
            } else {
                d is None
            }
        }),
{
    crate::properties::lemma_field_bits();
    let raw = insns[pc];
    assert((raw & 0xff) == raw % 256);
    assert(((raw >> 8) & 0xf) == (raw / 256) % 16);
    assert(((raw >> 12) & 0xf) == raw / 4096);
    assert(((raw >> 8) & 0xff) == raw >> 8);
    assert((raw >> 8) == raw / 256);
}

/// const/4 takes its literal from the top nibble, sign-extended: the low
/// four bits equal the nibble and the others are copies of its top bit;
/// vA is the low nibble of the high byte.
pub proof fn decode_const4_format(insns: Seq<u16>, pc: int)
    requires
        0 <= pc < insns.len(),
        unit_op(insns[pc]) == CONST_4,
    ensures
        ({
            let raw = insns[pc];
            let nib = (raw / 4096) as u32;
            decode_spec(insns, pc) matches Some(i) && i.op == CONST_4 && i.size == 1 && i.a == ((raw / 256) % 16) as u32
                && i.b & 0xF == nib && i.b >> 4 == if nib >= 8 { 0x0FFF_FFFFu32 } else { 0u32 }
        }),
{
    crate::properties::lemma_field_bits();
    let raw = insns[pc];
    assert((raw & 0xff) == raw % 256);
    assert(((raw >> 8) & 0xf) == (raw / 256) % 16);
    assert(((raw >> 12) & 0xf) == raw / 4096);
    let n = ((raw >> 12) & 0xf) as u32;
    assert(n < 16);
    assert((n | 0xFFFF_FFF0u32) & 0xF == n);
    let b = crate::android::decode::sext4(n);
    if n >= 8 {
        assert(b == n | 0xFFFF_FFF0u32);
        assert(b >> 4 == 0x0FFF_FFFFu32);
    } else {
        assert(b == n);
        assert(b & 0xF == n);
        assert(b >> 4 == 0);
    }
    assert(n == (raw / 4096) as u32);
    assert(b & 0xF == n);
}

/// const (31i) and const-string/jumbo (31c) take the second unit as the low
/// half of the literal and the third as the high half; vAA is the high
/// byte.
pub proof fn decode_const31_format(insns: Seq<u16>, pc: int)
    requires
        0 <= pc < insns.len(),
        unit_op(insns[pc]) == CONST || unit_op(insns[pc]) == CONST_STRING_JUMBO,
    ensures
        if pc + 2 < insns.len() {
            decode_spec(insns, pc) matches Some(i) && i.op == unit_op(insns[pc]) && i.size == 3 && i.a == (insns[pc] / 256)
                as u32 && i.b as int == insns[pc + 1] as int + 65536 * (insns[pc + 2] as int)
        } else {
            decode_spec(insns, pc) is None
        },
{
    crate::properties::lemma_field_bits();
    let raw = insns[pc];
    assert((raw & 0xff) == raw % 256);
    assert(((raw >> 8) & 0xff) == raw >> 8);
    assert((raw >> 8) == raw / 256);
    if pc + 2 < insns.len() {
        let lo = insns[pc + 1];
        let hi = insns[pc + 2];
        assert(((lo as u32) | ((hi as u32) << 16u32)) == (lo as u32) + 65536u32 * (hi as u32));
    }
}

/// goto takes its offset from the high byte, sign-extended (low byte equal
/// to it, the others copies of its top bit); goto/16 from the second unit.
pub proof fn decode_goto_formats(insns: Seq<u16>, pc: int)
    requires
        0 <= pc < insns.len(),
    ensures
        ({
            let raw = insns[pc];
            let hb = (raw / 256) as u32;
            &&& unit_op(raw) == GOTO ==> (decode_spec(insns, pc) matches Some(i) && i.op == GOTO && i.size == 1 && i.b
                & 0xFF == hb && i.b >> 8 == if hb >= 0x80 { 0xFF_FFFFu32 } else { 0u32 })
            &&& unit_op(raw) == GOTO_16 ==> if pc + 1 < insns.len() {
                decode_spec(insns, pc) matches Some(i) && i.op == GOTO_16 && i.size == 2 && i.b == insns[pc + 1] as u32
            } else {
                decode_spec(insns, pc) is None
            }
        }),
{
    crate::properties::lemma_field_bits();
    let raw = insns[pc];
    assert((raw & 0xff) == raw % 256);
    let hbyte = (raw >> 8) as u8;
    assert((hbyte as u16) == raw / 256);
    assert(((hbyte as u32) | 0xFFFF_FF00u32) & 0xFF == hbyte as u32);
    assert(((hbyte & 0x80) != 0) == (hbyte >= 0x80));
}

/// if-eqz and if-nez (21t): vAA is the high byte and the offset the second
/// unit, sign-extended.
pub proof fn decode_if_testz_format(insns: Seq<u16>, pc: int)
    requires
        0 <= pc < insns.len(),
        unit_op(insns[pc]) == IF_EQZ || unit_op(insns[pc]) == IF_NEZ,
    ensures
        if pc + 1 < insns.len() {
            decode_spec(insns, pc) matches Some(i) && i.op == unit_op(insns[pc]) && i.size == 2 && i.a == (insns[pc] / 256)
                as u32 && i.b & 0xFFFF == insns[pc + 1] as u32 && i.b >> 16 == if insns[pc + 1] >= 0x8000 {
                0xFFFFu32
            } else {
                0u32
            }
        } else {
            decode_spec(insns, pc) is None
        },
{
    crate::properties::lemma_field_bits();
    let raw = insns[pc];
    assert((raw & 0xff) == raw % 256);
    assert(((raw >> 8) & 0xff) == raw >> 8);
    assert((raw >> 8) == raw / 256);
    if pc + 1 < insns.len() {
        let u = insns[pc + 1];
        assert(((u as u32) | 0xFFFF_0000u32) & 0xFFFF == u as u32);
        assert(((u & 0x8000) != 0) == (u >= 0x8000));
        let b = crate::arm::sext16(u);
        if u >= 0x8000 {
            assert(b == (u as u32) | 0xFFFF_0000u32);
            assert(b >> 16 == 0xFFFFu32);
        } else {
            assert(b == u as u32);
            assert(b & 0xFFFF == u as u32);
            assert(b >> 16 == 0);
        }
    }
}

/// The two-register tests (22t): vA and vB as in 12x, the offset the second
/// unit, sign-extended.
pub proof fn decode_if_test_format(insns: Seq<u16>, pc: int)
    requires
        0 <= pc < insns.len(),
        unit_op(insns[pc]) == IF_EQ || unit_op(insns[pc]) == IF_NE || unit_op(insns[pc]) == IF_LT || unit_op(insns[pc])
            == IF_GE || unit_op(insns[pc]) == IF_GT || unit_op(insns[pc]) == IF_LE,
    ensures
        if pc + 1 < insns.len() {
            decode_spec(insns, pc) matches Some(i) && i.op == unit_op(insns[pc]) && i.size == 2 && i.a == ((insns[pc] / 256)
                % 16) as u32 && i.b == (insns[pc] / 4096) as u32 && i.c & 0xFFFF == insns[pc + 1] as u32 && i.c >> 16
                == if insns[pc + 1] >= 0x8000 { 0xFFFFu32 } else { 0u32 }
        } else {
            decode_spec(insns, pc) is None
        },
{
    crate::properties::lemma_field_bits();
    let raw = insns[pc];
    assert((raw & 0xff) == raw % 256);
    assert(((raw >> 8) & 0xf) == (raw / 256) % 16);
    assert(((raw >> 12) & 0xf) == raw / 4096);
    if pc + 1 < insns.len() {
        let u = insns[pc + 1];
        assert(((u as u32) | 0xFFFF_0000u32) & 0xFFFF == u as u32);
        assert(((u & 0x8000) != 0) == (u >= 0x8000));
        let b = crate::arm::sext16(u);
        if u >= 0x8000 {
            assert(b == (u as u32) | 0xFFFF_0000u32);
            assert(b >> 16 == 0xFFFFu32);
        } else {
            assert(b == u as u32);
            assert(b & 0xFFFF == u as u32);
            assert(b >> 16 == 0);
        }
    }
}

/// Format 35c (invoke-kind): the argument count is the top nibble, the
/// method index the second unit, and the argument registers C, D, E, F are
/// the nibbles of the third unit from the lowest up, G the low nibble of
/// the high byte.
pub proof fn decode_invoke_format(insns: Seq<u16>, pc: int)
    requires
        0 <= pc < insns.len(),
    ensures
        ({
            let raw = insns[pc];
            let op = unit_op(raw);
            let d = decode_spec(insns, pc);
            (op == INVOKE_VIRTUAL || op == INVOKE_SUPER || op == INVOKE_DIRECT || op == INVOKE_STATIC || op
                == INVOKE_INTERFACE) ==> if pc + 2 < insns.len() {
                let u = insns[pc + 2];
                d matches Some(i) && i.op == op && i.size == 3 && i.a == (raw / 4096) as u32 && i.g == ((raw / 256) % 16)
                    as u32 && i.b == insns[pc + 1] as u32 && i.c == (u % 16) as u32 && i.d == ((u / 16) % 16) as u32 && i.e
                    == ((u / 256) % 16) as u32 && i.f == (u / 4096) as u32
            } else {
                d is None
            }
        }),
{
    crate::properties::lemma_field_bits();
    let raw = insns[pc];
    assert((raw & 0xff) == raw % 256);
    assert(((raw >> 8) & 0xf) == (raw / 256) % 16);
    assert(((raw >> 12) & 0xf) == raw / 4096);
    if pc + 2 < insns.len() {
        let u = insns[pc + 2];
        assert((u & 0xf) == u % 16);
        assert(((u >> 4) & 0xf) == (u / 16) % 16);
        assert(((u >> 8) & 0xf) == (u / 256) % 16);
        assert(((u >> 12) & 0xf) == u / 4096);
    }
}

/// Format 23x (aget, aput, add-int, sub-int, mul-int): vAA is the high
/// byte, vBB the low and vCC the high byte of the second unit.
pub proof fn decode_three_register_format(insns: Seq<u16>, pc: int)
    requires
        0 <= pc < insns.len(),
    ensures
        ({
            let raw = insns[pc];
            let op = unit_op(raw);
            let d = decode_spec(insns, pc);
            (op == AGET || op == APUT || op == ADD_INT || op == SUB_INT || op == MUL_INT) ==> if pc + 1 < insns.len() {
                let u = insns[pc + 1];
                d matches Some(i) && i.op == op && i.size == 2 && i.a == (raw / 256) as u32 && i.b == (u % 256) as u32
                    && i.c == (u / 256) as u32
            } else {
                d is None
            }
        }),
{
    crate::properties::lemma_field_bits();
    let raw = insns[pc];
    assert((raw & 0xff) == raw % 256);
    assert(((raw >> 8) & 0xff) == raw >> 8);
    assert((raw >> 8) == raw / 256);
    if pc + 1 < insns.len() {
        let u = insns[pc + 1];
        assert((u & 0xff) == u % 256);
        assert((u >> 8) == u / 256);
    }
}

/// The integer arithmetic instructions (add-int, sub-int, mul-int and their
/// 2addr forms) write to vA the sum, difference or product of their
/// operands (vB and vC, or vA and vB for 2addr) modulo 2^32, as a signed
/// 32-bit value, and move on by the instruction's size.
pub proof fn int_arithmetic_wraps(v: VmView, fi: int, insn: Insn)
    requires
        insn.op == ADD_INT || insn.op == SUB_INT || insn.op == MUL_INT || insn.op == ADD_INT_2ADDR || insn.op
            == SUB_INT_2ADDR || insn.op == MUL_INT_2ADDR,
        0 <= fi < v.stack.len(),
        (insn.a as int) < v.stack[fi].regs.len(),
        (insn.b as int) < v.stack[fi].regs.len(),
        (insn.c as int) < v.stack[fi].regs.len(),
    ensures
        ({
            let two = insn.op == ADD_INT_2ADDR || insn.op == SUB_INT_2ADDR || insn.op == MUL_INT_2ADDR;
            let x = v.stack[fi].regs[if two { insn.a as int } else { insn.b as int }].int_of() as int;
            let y = v.stack[fi].regs[if two { insn.b as int } else { insn.c as int }].int_of() as int;
            let exact = if insn.op == ADD_INT || insn.op == ADD_INT_2ADDR {
                x + y
            } else if insn.op == SUB_INT || insn.op == SUB_INT_2ADDR {
                x - y
            } else {
                x * y
            };
            let w = v.execute(fi, insn).0;
            &&& v.execute(fi, insn).1 == Ok::<(), ErrView>(())
            &&& w.stack.len() == v.stack.len()
            &&& w.stack[fi].regs.len() == v.stack[fi].regs.len()
            &&& w.stack[fi].regs[insn.a as int] is Int
            &&& (w.stack[fi].regs[insn.a as int].int_of() as int - exact) % 0x1_0000_0000 == 0
            &&& w.stack[fi].pc == v.stack[fi].pc.wrapping_add(insn.size)
        }),
{
    let two = insn.op == ADD_INT_2ADDR || insn.op == SUB_INT_2ADDR || insn.op == MUL_INT_2ADDR;
    let xi = v.stack[fi].regs[if two { insn.a as int } else { insn.b as int }].int_of();
    let yi = v.stack[fi].regs[if two { insn.b as int } else { insn.c as int }].int_of();
    if insn.op == MUL_INT || insn.op == MUL_INT_2ADDR {
        let p = xi as int * yi as int;
        let m = p % 0x1_0000_0000;
        assert((p - m) % 0x1_0000_0000 == 0) by (nonlinear_arith)
            requires
                m == p % 0x1_0000_0000,
        ;
        assert(((m - 0x1_0000_0000) - p) % 0x1_0000_0000 == 0) by (nonlinear_arith)
            requires
                m == p % 0x1_0000_0000,
        ;
    }
}

} // verus!
