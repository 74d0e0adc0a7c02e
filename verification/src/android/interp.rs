//! Register-based Dalvik interpreter.
use vstd::prelude::*;
use crate::android::decode::{decode, decode_spec, Insn};
use crate::android::dex::{
    find_method_spec, lemma_find_method_unique, all_methods, first_class, first_named, named, CodeItem, CodeView, DexFile, DexView, EncodedMethod, EncodedView,
    MethodId,
};
use crate::android::error::{AndroidError, ErrView};
use crate::android::hle::{HleHost, HostView, ObjView, Value};
use crate::android::opcodes::{
    ADD_INT, ADD_INT_2ADDR, AGET, APUT, ARRAY_LENGTH, CHECK_CAST, CONST, CONST_16, CONST_4, CONST_HIGH16, CONST_STRING,
    CONST_STRING_JUMBO, GOTO, GOTO_16, IF_EQ, IF_EQZ, IF_GE, IF_GT, IF_LE, IF_LT, IF_NE, IF_NEZ, IGET_OBJECT,
    INVOKE_DIRECT, INVOKE_INTERFACE, INVOKE_STATIC, INVOKE_SUPER, INVOKE_VIRTUAL, IPUT_OBJECT, MOVE, MOVE_16,
    MOVE_FROM16, MOVE_OBJECT, MOVE_OBJECT_FROM16, MOVE_RESULT, MOVE_RESULT_OBJECT, MUL_INT, MUL_INT_2ADDR, NEW_ARRAY,
    NEW_INSTANCE, NOP, RETURN, RETURN_OBJECT, RETURN_VOID, SGET_OBJECT, SPUT_OBJECT, SUB_INT, SUB_INT_2ADDR,
};
use crate::disasm::{dec_str, hex2_lower, push_dec, push_dec_wide, push_hex2_lower};

verus! {

/// A method activation: its registers, code and program counter (in code
/// units).
#[derive(Debug)]
pub struct Frame {
    pub regs: Vec<Value>,
    pub code: CodeItem,
    pub pc: usize,
    pub method_idx: u32,
}

#[verifier::ext_equal]
pub struct FrameView {
    pub regs: Seq<Value>,
    pub code: CodeView,
    pub pc: usize,
    pub method_idx: u32,
}

impl View for Frame {
    type V = FrameView;

    open spec fn view(&self) -> FrameView {
        FrameView { regs: self.regs@, code: self.code@, pc: self.pc, method_idx: self.method_idx }
    }
}

/// The interpreter: the DEX it runs, the framework host, the call stack,
/// the last call's result and whether it has stopped.
#[derive(Debug)]
pub struct Vm {
    pub dex: DexFile,
    pub host: HleHost,
    pub stack: Vec<Frame>,
    pub result: Value,
    pub halted: bool,
    pub halt_reason: Option<String>,
    pub steps: u64,
}

#[verifier::ext_equal]
pub struct VmView {
    pub dex: DexView,
    pub host: HostView,
    pub stack: Seq<FrameView>,
    pub result: Value,
    pub halted: bool,
    pub halt_reason: Option<Seq<char>>,
    pub steps: u64,
}

pub open spec fn frame_views(s: Seq<Frame>) -> Seq<FrameView> {
    s.map_values(|f: Frame| f@)
}

impl View for Vm {
    type V = VmView;

    open spec fn view(&self) -> VmView {
        VmView {
            dex: self.dex@,
            host: self.host@,
            stack: frame_views(self.stack@),
            result: self.result,
            halted: self.halted,
            halt_reason: match self.halt_reason {
                Some(s) => Some(s@),
                None => None,
            },
            steps: self.steps,
        }
    }
}

/// The error for a register index outside the frame.
pub open spec fn bad_reg(idx: u32) -> ErrView {
    ErrView::Vm("bad reg v"@ + dec_str(idx as nat))
}

/// Why the VM stopped on an opcode it does not implement.
pub open spec fn unimplemented_reason(op: u8, pc: usize) -> Seq<char> {
    "unimplemented opcode 0x"@ + hex2_lower(op) + " at pc="@ + dec_str(pc as nat)
}

/// The registers of a new frame: zeros, with the arguments in the last
/// `ins_size` registers (as far as they fit).
pub open spec fn frame_regs(code: CodeView, args: Seq<Value>) -> Seq<Value> {
    let start = if code.ins_size <= code.registers_size { code.registers_size - code.ins_size } else { 0 };
    Seq::new(
        code.registers_size as nat,
        |k: int| if start <= k < start + args.len() { args[k - start] } else { Value::Int(0) },
    )
}

/// The registers an invoke passes: the first `a` (at most five) of
/// C, D, E, F, G.
pub open spec fn arg_regs(insn: Insn) -> Seq<u32> {
    seq![insn.c, insn.d, insn.e, insn.f, insn.g].take(if insn.a < 5 { insn.a as int } else { 5 })
}

/// `k` is the first encoded method with index `idx` in `ms`.
pub open spec fn first_with_idx(ms: Seq<EncodedView>, idx: u32, k: int) -> bool {
    0 <= k < ms.len() && ms[k].method_idx == idx && forall|j: int| 0 <= j < k ==> #[trigger] ms[j].method_idx != idx
}

pub open spec fn has_idx(ms: Seq<EncodedView>, idx: u32) -> bool {
    exists|k: int| 0 <= k < ms.len() && #[trigger] ms[k].method_idx == idx
}

/// The first encoded method with index `idx`, over the classes in order.
pub open spec fn encoded_at(dex: DexView, idx: u32, ci: int, k: int) -> bool {
    0 <= ci < dex.classes.len() && (forall|j: int| 0 <= j < ci ==> !has_idx(#[trigger] all_methods(dex.classes[j]), idx))
        && first_with_idx(all_methods(dex.classes[ci]), idx, k)
}

/// The code of the method with index `idx`, if the DEX defines it with code.
pub open spec fn code_of(dex: DexView, idx: u32) -> Option<CodeView> {
    if exists|ci: int, k: int| encoded_at(dex, idx, ci, k) {
        let (ci, k) = choose|ci: int, k: int| encoded_at(dex, idx, ci, k);
        all_methods(dex.classes[ci])[k].code
    } else {
        None
    }
}

impl VmView {
    pub open spec fn with_frame(self, fi: int, f: FrameView) -> VmView {
        VmView { stack: self.stack.update(fi, f), ..self }
    }

    pub open spec fn get_reg(self, fi: int, idx: u32) -> Result<Value, ErrView> {
        if 0 <= fi < self.stack.len() && (idx as int) < self.stack[fi].regs.len() {
            Ok(self.stack[fi].regs[idx as int])
        } else {
            Err(bad_reg(idx))
        }
    }

    pub open spec fn put_reg(self, fi: int, idx: u32, v: Value) -> Result<VmView, ErrView> {
        if !(0 <= fi < self.stack.len()) {
            Err(ErrView::Vm("no frame"@))
        } else if idx as int >= self.stack[fi].regs.len() {
            Err(bad_reg(idx))
        } else {
            Ok(self.with_frame(fi, FrameView { regs: self.stack[fi].regs.update(idx as int, v), ..self.stack[fi] }))
        }
    }

    /// Moves the pc of frame `fi` on by `n` units.
    pub open spec fn advance(self, fi: int, n: usize) -> VmView {
        self.with_frame(fi, FrameView { pc: self.stack[fi].pc.wrapping_add(n), ..self.stack[fi] })
    }

    /// Branches frame `fi` by the signed 16-bit offset in `off`.
    pub open spec fn jump(self, fi: int, off: u32) -> VmView {
        self.with_frame(
            fi,
            FrameView { pc: ((self.stack[fi].pc as i32).wrapping_add(off as i16 as i32)) as usize, ..self.stack[fi] },
        )
    }

    /// Stores `v` in register `a` of frame `fi`, then moves on `n` units.
    pub open spec fn set_adv(self, fi: int, a: u32, v: Value, n: usize) -> (VmView, Result<(), ErrView>) {
        match self.put_reg(fi, a, v) {
            Ok(s) => (s.advance(fi, n), Ok(())),
            Err(e) => (self, Err(e)),
        }
    }

    /// Returns from the top frame; the VM halts once no frame is left.
    pub open spec fn pop_frame(self) -> VmView {
        let st = self.stack.drop_last();
        VmView { stack: st, halted: self.halted || st.len() == 0, ..self }
    }

    pub open spec fn with_host(self, h: HostView) -> VmView {
        VmView { host: h, ..self }
    }

    /// Reads the registers `regs` of frame `fi`, stopping at the first bad one.
    pub open spec fn get_args(self, fi: int, regs: Seq<u32>) -> Result<Seq<Value>, ErrView>
        decreases regs.len(),
    {
        if regs.len() == 0 {
            Ok(Seq::empty())
        } else {
            match self.get_args(fi, regs.drop_last()) {
                Err(e) => Err(e),
                Ok(vs) => match self.get_reg(fi, regs.last()) {
                    Err(e) => Err(e),
                    Ok(v) => Ok(vs.push(v)),
                },
            }
        }
    }

    /// Pushes a frame for a method with code `code` called with `args`.
    pub open spec fn push_frame(self, method_idx: u32, code: CodeView, args: Seq<Value>) -> VmView {
        VmView {
            stack: self.stack.push(FrameView { regs: frame_regs(code, args), code: code, pc: 0, method_idx: method_idx }),
            ..self
        }
    }

    /// An invoke instruction: the host handles framework calls, calls into
    /// methods of the DEX push a frame, anything else returns 0.
    pub open spec fn invoke(self, fi: int, insn: Insn) -> (VmView, Result<(), ErrView>) {
        if !((insn.b as int) < self.dex.methods.len()) {
            (self, Err(ErrView::Vm("bad method idx"@)))
        } else {
            let m = self.dex.methods[insn.b as int];
            match self.get_args(fi, arg_regs(insn)) {
                Err(e) => (self, Err(e)),
                Ok(args) => {
                    let (h2, handled) = self.host.invoke(m.class, m.name, args);
                    match handled {
                        Some(ret) => (VmView { result: ret, host: h2, ..self }.advance(fi, insn.size), Ok(())),
                        None => match code_of(self.dex, insn.b) {
                            Some(code) => (self.advance(fi, insn.size).push_frame(insn.b, code, args), Ok(())),
                            None => (VmView { result: Value::Int(0), ..self }.advance(fi, insn.size), Ok(())),
                        },
                    }
                },
            }
        }
    }

    /// Executes `insn` in frame `fi`.
    pub open spec fn execute(self, fi: int, insn: Insn) -> (VmView, Result<(), ErrView>) {
        let op = insn.op;
        let n = insn.size;
        if op == NOP || op == CHECK_CAST || op == IPUT_OBJECT || op == SPUT_OBJECT {
            (self.advance(fi, n), Ok(()))
        } else if op == MOVE || op == MOVE_FROM16 || op == MOVE_16 || op == MOVE_OBJECT || op == MOVE_OBJECT_FROM16 {
            match self.get_reg(fi, insn.b) {
                Err(e) => (self, Err(e)),
                Ok(v) => self.set_adv(fi, insn.a, v, n),
            }
        } else if op == MOVE_RESULT || op == MOVE_RESULT_OBJECT {
            self.set_adv(fi, insn.a, self.result, n)
        } else if op == RETURN_VOID {
            (self.pop_frame(), Ok(()))
        } else if op == RETURN || op == RETURN_OBJECT {
            match self.get_reg(fi, insn.a) {
                Err(e) => (self, Err(e)),
                Ok(v) => (VmView { result: v, ..self }.pop_frame(), Ok(())),
            }
        } else if op == CONST_4 || op == CONST_16 {
            self.set_adv(fi, insn.a, Value::Int(insn.b as i16 as i32), n)
        } else if op == CONST || op == CONST_HIGH16 {
            self.set_adv(fi, insn.a, Value::Int(if op == CONST_HIGH16 { (insn.b << 16) as i32 } else { insn.b as i32 }), n)
        } else if op == CONST_STRING || op == CONST_STRING_JUMBO {
            if !((insn.b as int) < self.dex.strings.len()) {
                (self, Err(ErrView::Vm("bad string idx"@)))
            } else {
                let s1 = self.with_host(self.host.alloc_object(ObjView::Str(self.dex.strings[insn.b as int])));
                s1.set_adv(fi, insn.a, self.host.next_ref(), n)
            }
        } else if op == NEW_INSTANCE {
            let ty = if (insn.b as int) < self.dex.types.len() { self.dex.types[insn.b as int] } else { "Ljava/lang/Object;"@ };
            let s1 = self.with_host(self.host.alloc_object(ObjView::Instance { class: ty, fields: Seq::empty() }));
            s1.set_adv(fi, insn.a, self.host.next_ref(), n)
        } else if op == GOTO || op == GOTO_16 {
            (self.jump(fi, insn.b), Ok(()))
        } else if op == IF_EQZ || op == IF_NEZ {
            match self.get_reg(fi, insn.a) {
                Err(e) => (self, Err(e)),
                Ok(v) => if (v.int_of() == 0) == (op == IF_EQZ) {
                    (self.jump(fi, insn.b), Ok(()))
                } else {
                    (self.advance(fi, n), Ok(()))
                },
            }
        } else if op == IF_EQ || op == IF_NE || op == IF_LT || op == IF_GE || op == IF_GT || op == IF_LE {
            match (self.get_reg(fi, insn.a), self.get_reg(fi, insn.b)) {
                (Err(e), _) => (self, Err(e)),
                (Ok(_), Err(e)) => (self, Err(e)),
                (Ok(x), Ok(y)) => {
                    let a = x.int_of();
                    let b = y.int_of();
                    let take = if op == IF_EQ { a == b } else if op == IF_NE { a != b } else if op == IF_LT { a < b }
                        else if op == IF_GE { a >= b } else if op == IF_GT { a > b } else { a <= b };
                    if take { (self.jump(fi, insn.c), Ok(())) } else { (self.advance(fi, n), Ok(())) }
                },
            }
        } else if op == NEW_ARRAY {
            match self.get_reg(fi, insn.b) {
                Err(e) => (self, Err(e)),
                Ok(l) => {
                    let len = l.int_of();
                    let s1 = self.with_host(
                        self.host.alloc_object(ObjView::Array(Seq::new(if len < 0 { 0 } else { len as nat }, |i: int| Value::Int(0)))),
                    );
                    s1.set_adv(fi, insn.a, self.host.next_ref(), n)
                },
            }
        } else if op == ARRAY_LENGTH {
            match self.get_reg(fi, insn.b) {
                Err(e) => (self, Err(e)),
                Ok(arr) => {
                    let len = match self.host.array_of(arr) {
                        Some(a) => a.len() as i32,
                        None => 0,
                    };
                    self.set_adv(fi, insn.a, Value::Int(len), n)
                },
            }
        } else if op == AGET {
            match (self.get_reg(fi, insn.b), self.get_reg(fi, insn.c)) {
                (Err(e), _) => (self, Err(e)),
                (Ok(_), Err(e)) => (self, Err(e)),
                (Ok(arr), Ok(iv)) => {
                    let idx = iv.int_of();
                    let v = match self.host.array_of(arr) {
                        Some(a) => if 0 <= idx < a.len() { a[idx as int] } else { Value::Int(0) },
                        None => Value::Int(0),
                    };
                    self.set_adv(fi, insn.a, v, n)
                },
            }
        } else if op == APUT {
            match (self.get_reg(fi, insn.a), self.get_reg(fi, insn.b), self.get_reg(fi, insn.c)) {
                (Err(e), _, _) => (self, Err(e)),
                (Ok(_), Err(e), _) => (self, Err(e)),
                (Ok(_), Ok(_), Err(e)) => (self, Err(e)),
                (Ok(val), Ok(arr), Ok(iv)) => (self.with_host(self.host.array_store(arr, iv.int_of(), val)).advance(fi, n), Ok(())),
            }
        } else if op == ADD_INT || op == SUB_INT || op == MUL_INT || op == ADD_INT_2ADDR || op == SUB_INT_2ADDR || op
            == MUL_INT_2ADDR {
            let two = op == ADD_INT_2ADDR || op == SUB_INT_2ADDR || op == MUL_INT_2ADDR;
            let lr = if two { insn.a } else { insn.b };
            let rr = if two { insn.b } else { insn.c };
            match (self.get_reg(fi, lr), self.get_reg(fi, rr)) {
                (Err(e), _) => (self, Err(e)),
                (Ok(_), Err(e)) => (self, Err(e)),
                (Ok(x), Ok(y)) => {
                    let l = x.int_of();
                    let r = y.int_of();
                    let v = if op == ADD_INT || op == ADD_INT_2ADDR { l.wrapping_add(r) } else if op == SUB_INT || op
                        == SUB_INT_2ADDR { l.wrapping_sub(r) } else { l.wrapping_mul(r) };
                    self.set_adv(fi, insn.a, Value::Int(v), n)
                },
            }
        } else if op == IGET_OBJECT {
            self.set_adv(fi, insn.a, Value::Obj(0), n)
        } else if op == SGET_OBJECT {
            let s1 = self.with_host(self.host.alloc_object(ObjView::Instance { class: "Ljava/io/PrintStream;"@, fields: Seq::empty() }));
            s1.set_adv(fi, insn.a, self.host.next_ref(), n)
        } else if op == INVOKE_VIRTUAL || op == INVOKE_SUPER || op == INVOKE_DIRECT || op == INVOKE_STATIC || op
            == INVOKE_INTERFACE {
            self.invoke(fi, insn)
        } else {
            let pc = self.stack[fi].pc;
            (
                VmView { halted: true, halt_reason: Some(unimplemented_reason(op, pc)), ..self },
                Err(ErrView::UnimplementedOpcode { op: op, pc: pc as u32 }),
            )
        }
    }

    /// One step: decode the instruction at the pc of the top frame and run
    /// it; the result says whether the VM can go on.
    pub open spec fn step(self) -> (VmView, Result<bool, ErrView>) {
        if self.halted {
            (self, Ok(false))
        } else if self.stack.len() == 0 {
            (VmView { halted: true, ..self }, Ok(false))
        } else {
            let fi = self.stack.len() - 1;
            let pc = self.stack[fi].pc;
            match decode_spec(self.stack[fi].code.insns, pc as int) {
                None => (self, Err(ErrView::Vm("decode failed at pc="@ + dec_str(pc as nat)))),
                Some(insn) => {
                    let s1 = VmView { steps: self.steps.wrapping_add(1), ..self };
                    let (s2, r) = s1.execute(fi, insn);
                    match r {
                        Err(e) => (s2, Err(e)),
                        Ok(_) => (s2, Ok(!s2.halted && s2.stack.len() != 0)),
                    }
                },
            }
        }
    }

    /// Calls method `name` of class `class` with `args`: a new frame, and
    /// the VM running again.
    pub open spec fn call(self, class: Seq<char>, name: Seq<char>, args: Seq<Value>) -> (VmView, Result<(), ErrView>) {
        match find_method_spec(self.dex, class, name) {
            None => (self, Err(ErrView::Vm("method not found: "@ + class + "->"@ + name))),
            Some(m) => match m.code {
                None => (self, Err(ErrView::Vm("no code for "@ + class + "->"@ + name))),
                Some(c) => (VmView { halted: false, halt_reason: None, ..self.push_frame(m.method_idx, c, args) }, Ok(())),
            },
        }
    }

    /// Up to `max - n` further steps, after `n` completed ones: the number
    /// of instructions executed, the one that ended the run included (a
    /// step of a VM already halted or without a frame executes nothing).
    pub open spec fn run_from(self, n: u32, max: u32) -> (VmView, Result<u32, ErrView>)
        decreases max - n,
    {
        if n >= max {
            (self, Ok(n))
        } else {
            let (s2, r) = self.step();
            match r {
                Err(e) => (s2, Err(e)),
                Ok(false) => (s2, Ok(if !self.halted && self.stack.len() > 0 { (n + 1) as u32 } else { n })),
                Ok(true) => s2.run_from((n + 1) as u32, max),
            }
        }
    }
}


/// A result with its error taken by its contents.
pub open spec fn rv<T>(r: Result<T, AndroidError>) -> Result<T, ErrView> {
    match r {
        Ok(v) => Ok(v),
        Err(e) => Err(e@),
    }
}

/// There is at most one first encoded method with a given index.
proof fn lemma_encoded_unique(dex: DexView, idx: u32, ci: int, k: int)
    requires
        encoded_at(dex, idx, ci, k),
    ensures
        code_of(dex, idx) == all_methods(dex.classes[ci])[k].code,
{
    let (ci2, k2) = choose|ci2: int, k2: int| encoded_at(dex, idx, ci2, k2);
    if ci2 < ci {
        assert(all_methods(dex.classes[ci2])[k2].method_idx == idx);
        assert(has_idx(all_methods(dex.classes[ci2]), idx));
    }
    if ci < ci2 {
        assert(all_methods(dex.classes[ci])[k].method_idx == idx);
        assert(has_idx(all_methods(dex.classes[ci]), idx));
    }
    assert(ci == ci2);
    if k2 < k {
        assert(all_methods(dex.classes[ci])[k2].method_idx != idx);
    }
    if k < k2 {
        assert(all_methods(dex.classes[ci])[k].method_idx != idx);
    }
}

/// The first encoded method of the DEX with index `method_idx`.
fn find_encoded(dex: &DexFile, method_idx: u32) -> (r: Option<&EncodedMethod>)
    ensures
        match r {
            Some(m) => exists|ci: int, k: int| encoded_at(dex@, method_idx, ci, k) && m@ == #[trigger] all_methods(dex@.classes[ci])[k],
            None => !exists|ci: int, k: int| encoded_at(dex@, method_idx, ci, k),
        },
{
    let ghost v = dex@;
    let mut ci: usize = 0;
    while ci < dex.classes.len()
        invariant
            v == dex@,
            ci <= dex.classes.len(),
            forall|j: int| 0 <= j < ci ==> !has_idx(#[trigger] all_methods(v.classes[j]), method_idx),
        decreases dex.classes.len() - ci,
    {
        let c = &dex.classes[ci];
        let ghost all = all_methods(v.classes[ci as int]);
        assert(v.classes[ci as int] == c@);
        let mut j: usize = 0;
        while j < c.direct_methods.len()
            invariant
                v == dex@,
                ci < dex.classes.len(),
                c@ == v.classes[ci as int],
                all == all_methods(c@),
                forall|t: int| 0 <= t < ci ==> !has_idx(#[trigger] all_methods(v.classes[t]), method_idx),
                j <= c.direct_methods.len(),
                forall|t: int| 0 <= t < j ==> #[trigger] all[t].method_idx != method_idx,
            decreases c.direct_methods.len() - j,
        {
            assert(all[j as int] == c.direct_methods@[j as int]@);
            if c.direct_methods[j].method_idx == method_idx {
                assert(encoded_at(v, method_idx, ci as int, j as int));
                assert(c.direct_methods@[j as int]@ == all_methods(dex@.classes[ci as int])[j as int]);
                return Some(&c.direct_methods[j]);
            }
            j = j + 1;
        }
        let nd = c.direct_methods.len();
        let mut j: usize = 0;
        while j < c.virtual_methods.len()
            invariant
                v == dex@,
                ci < dex.classes.len(),
                c@ == v.classes[ci as int],
                all == all_methods(c@),
                forall|t: int| 0 <= t < ci ==> !has_idx(#[trigger] all_methods(v.classes[t]), method_idx),
                nd == c.direct_methods.len(),
                j <= c.virtual_methods.len(),
                forall|t: int| 0 <= t < nd + j ==> #[trigger] all[t].method_idx != method_idx,
            decreases c.virtual_methods.len() - j,
        {
            assert(all[nd + j] == c.virtual_methods@[j as int]@);
            if c.virtual_methods[j].method_idx == method_idx {
                assert(encoded_at(v, method_idx, ci as int, nd + j));
                assert(c.virtual_methods@[j as int]@ == all_methods(dex@.classes[ci as int])[nd + j]);
                return Some(&c.virtual_methods[j]);
            }
            j = j + 1;
        }
        assert(!has_idx(all, method_idx));
        ci = ci + 1;
    }
    proof {
        assert forall|ci2: int, k: int| !encoded_at(v, method_idx, ci2, k) by {
            if encoded_at(v, method_idx, ci2, k) {
                assert(has_idx(all_methods(v.classes[ci2]), method_idx));
            }
        }
    }
    None
}

fn bad_reg_error(idx: u32) -> (e: AndroidError)
    ensures
        e@ == bad_reg(idx),
{
    let mut m = String::new();
    m.append("bad reg v");
    push_dec(&mut m, idx);
    AndroidError::Vm(m)
}

fn vm_error(msg: &str) -> (e: AndroidError)
    ensures
        e@ == ErrView::Vm(msg@),
{
    AndroidError::Vm(String::from_str(msg))
}

impl Vm {
    /// A VM for `dex` with no frame.
    pub fn new(dex: DexFile) -> (r: Vm)
        ensures
            r@ == (VmView {
                dex: dex@,
                host: HostView::empty(),
                stack: Seq::empty(),
                result: Value::Int(0),
                halted: false,
                halt_reason: None,
                steps: 0,
            }),
    {
        let r = Vm {
            dex,
            host: HleHost::default(),
            stack: Vec::new(),
            result: Value::Int(0),
            halted: false,
            halt_reason: None,
            steps: 0,
        };
        assert(frame_views(r.stack@) =~= Seq::<FrameView>::empty());
        r
    }

    fn reg(&self, frame_idx: usize, idx: u32) -> (r: Result<Value, AndroidError>)
        ensures
            rv(r) == self@.get_reg(frame_idx as int, idx),
    {
        if frame_idx < self.stack.len() && (idx as usize) < self.stack[frame_idx].regs.len() {
            Ok(self.stack[frame_idx].regs[idx as usize])
        } else {
            Err(bad_reg_error(idx))
        }
    }

    fn set_reg(&mut self, frame_idx: usize, idx: u32, v: Value) -> (r: Result<(), AndroidError>)
        ensures
            match old(self)@.put_reg(frame_idx as int, idx, v) {
                Ok(s) => r is Ok && final(self)@ == s,
                Err(e) => rv(r) == Err::<(), ErrView>(e) && final(self)@ == old(self)@,
            },
            final(self).stack.len() == old(self).stack.len(),
            r is Ok ==> frame_idx < old(self).stack.len(),
    {
        if frame_idx >= self.stack.len() {
            return Err(vm_error("no frame"));
        }
        if (idx as usize) >= self.stack[frame_idx].regs.len() {
            return Err(bad_reg_error(idx));
        }
        let ghost before = self.stack@;
        self.stack[frame_idx].regs.set(idx as usize, v);
        assert(frame_views(self.stack@) =~= frame_views(before).update(
            frame_idx as int,
            FrameView { regs: before[frame_idx as int]@.regs.update(idx as int, v), ..before[frame_idx as int]@ },
        ));
        Ok(())
    }

    fn advance(&mut self, frame_idx: usize, n: usize)
        requires
            frame_idx < old(self).stack.len(),
        ensures
            final(self)@ == old(self)@.advance(frame_idx as int, n),
    {
        let ghost before = self.stack@;
        let pc = self.stack[frame_idx].pc;
        self.stack[frame_idx].pc = pc.wrapping_add(n);
        assert(frame_views(self.stack@) =~= frame_views(before).update(
            frame_idx as int,
            FrameView { pc: pc.wrapping_add(n), ..before[frame_idx as int]@ },
        ));
    }

    fn jump(&mut self, frame_idx: usize, off: u32)
        requires
            frame_idx < old(self).stack.len(),
        ensures
            final(self)@ == old(self)@.jump(frame_idx as int, off),
    {
        let ghost before = self.stack@;
        let pc = self.stack[frame_idx].pc;
        let target = (pc as i32).wrapping_add(off as i16 as i32) as usize;
        self.stack[frame_idx].pc = target;
        assert(frame_views(self.stack@) =~= frame_views(before).update(
            frame_idx as int,
            FrameView { pc: target, ..before[frame_idx as int]@ },
        ));
    }

    /// Stores `v` in register `a`, then moves on `n` units.
    fn set_adv(&mut self, frame_idx: usize, a: u32, v: Value, n: usize) -> (r: Result<(), AndroidError>)
        ensures
            (final(self)@, rv(r)) == old(self)@.set_adv(frame_idx as int, a, v, n),
    {
        match self.set_reg(frame_idx, a, v) {
            Ok(()) => {
                self.advance(frame_idx, n);
                Ok(())
            },
            Err(e) => Err(e),
        }
    }

    fn pop_frame(&mut self)
        requires
            old(self).stack.len() > 0,
        ensures
            final(self)@ == old(self)@.pop_frame(),
    {
        let ghost before = self.stack@;
        self.stack.pop();
        assert(frame_views(self.stack@) =~= frame_views(before).drop_last());
        if self.stack.len() == 0 {
            self.halted = true;
        }
    }

    fn push_frame(&mut self, method_idx: u32, code: CodeItem, args: &[Value])
        ensures
            final(self)@ == old(self)@.push_frame(method_idx, code@, args@),
    {
        let rs = code.registers_size as usize;
        let start = code.registers_size.saturating_sub(code.ins_size) as usize;
        let ghost want = frame_regs(code@, args@);
        let mut regs: Vec<Value> = Vec::new();
        let mut k: usize = 0;
        while k < rs
            invariant
                k <= rs,
                rs == code.registers_size,
                start <= rs,
                want == frame_regs(code@, args@),
                start == (if code.ins_size <= code.registers_size { code.registers_size - code.ins_size } else { 0 }),
                regs@.len() == k,
                forall|t: int| 0 <= t < k ==> #[trigger] regs@[t] == want[t],
            decreases rs - k,
        {
            let v = if k >= start && k - start < args.len() { args[k - start] } else { Value::Int(0) };
            regs.push(v);
            k = k + 1;
        }
        assert(regs@ =~= want);
        let ghost before = self.stack@;
        let f = Frame { regs, code, pc: 0, method_idx };
        self.stack.push(f);
        assert(frame_views(self.stack@) =~= frame_views(before).push(f@));
    }

    /// Pushes a frame for method `name` of class `class`, called with `args`,
    /// and lets the VM run again.
    pub fn call_method(&mut self, class: &str, name: &str, args: &[Value]) -> (r: Result<(), AndroidError>)
        ensures
            (final(self)@, rv(r)) == old(self)@.call(class@, name@, args@),
    {
        let method = match self.dex.find_method(class, name) {
            Some(m) => m,
            None => {
                let mut msg = String::new();
                msg.append("method not found: ");
                msg.append(class);
                msg.append("->");
                msg.append(name);
                proof {
                    if exists|ci: int, k: int|
                        first_class(self@.dex.classes, class@, ci) && first_named(self@.dex.methods, all_methods(self@.dex.classes[ci]), name@, k) {
                        let (ci, k) = choose|ci: int, k: int|
                            first_class(self@.dex.classes, class@, ci) && first_named(self@.dex.methods, all_methods(self@.dex.classes[ci]), name@, k);
                        assert(named(self@.dex.methods, all_methods(self@.dex.classes[ci])[k], name@));
                    }
                }
                return Err(AndroidError::Vm(msg));
            },
        };
        proof {
            let (ci, k) = choose|ci: int, k: int|
                first_class(self@.dex.classes, class@, ci) && first_named(self@.dex.methods, all_methods(self@.dex.classes[ci]), name@, k)
                    && method@ == all_methods(self@.dex.classes[ci])[k];
            lemma_find_method_unique(self@.dex, class@, name@, ci, k);
        }
        let method_idx = method.method_idx;
        let code = match &method.code {
            Some(c) => c.duplicate(),
            None => {
                let mut msg = String::new();
                msg.append("no code for ");
                msg.append(class);
                msg.append("->");
                msg.append(name);
                return Err(AndroidError::Vm(msg));
            },
        };
        self.push_frame(method_idx, code, args);
        self.halted = false;
        self.halt_reason = None;
        Ok(())
    }
}


/// A failed read of a prefix of the argument registers fails the whole read.
proof fn lemma_get_args_prefix(v: VmView, fi: int, regs: Seq<u32>, m: int)
    requires
        0 <= m <= regs.len(),
        v.get_args(fi, regs.take(m)) is Err,
    ensures
        v.get_args(fi, regs) == v.get_args(fi, regs.take(m)),
    decreases regs.len() - m,
{
    if m < regs.len() {
        assert(regs.drop_last().take(m) =~= regs.take(m));
        lemma_get_args_prefix(v, fi, regs.drop_last(), m);
        assert(regs =~= regs.take(regs.len() as int));
    } else {
        assert(regs.take(m) =~= regs);
    }
}

/// The registers an invoke passes.
fn collect_arg_regs(insn: &Insn) -> (r: Vec<u32>)
    ensures
        r@ == arg_regs(*insn),
{
    let all = [insn.c, insn.d, insn.e, insn.f, insn.g];
    let n: usize = if insn.a < 5 { insn.a as usize } else { 5 };
    let mut out: Vec<u32> = Vec::new();
    let mut i: usize = 0;
    while i < n
        invariant
            n <= 5,
            i <= n,
            all@ == seq![insn.c, insn.d, insn.e, insn.f, insn.g],
            out@ == all@.take(i as int),
        decreases n - i,
    {
        out.push(all[i]);
        i = i + 1;
        assert(out@ =~= all@.take(i as int));
    }
    out
}

impl Vm {
    fn read_args(&self, frame_idx: usize, regs: &Vec<u32>) -> (r: Result<Vec<Value>, AndroidError>)
        ensures
            match r {
                Ok(a) => self@.get_args(frame_idx as int, regs@) == Ok::<Seq<Value>, ErrView>(a@),
                Err(e) => self@.get_args(frame_idx as int, regs@) == Err::<Seq<Value>, ErrView>(e@),
            },
    {
        let ghost v = self@;
        let mut args: Vec<Value> = Vec::new();
        let mut i: usize = 0;
        while i < regs.len()
            invariant
                v == self@,
                i <= regs.len(),
                v.get_args(frame_idx as int, regs@.take(i as int)) == Ok::<Seq<Value>, ErrView>(args@),
            decreases regs.len() - i,
        {
            assert(regs@.take(i + 1).drop_last() =~= regs@.take(i as int));
            match self.reg(frame_idx, regs[i]) {
                Ok(x) => args.push(x),
                Err(e) => {
                    proof {
                        lemma_get_args_prefix(v, frame_idx as int, regs@, i + 1);
                    }
                    return Err(e);
                },
            }
            i = i + 1;
        }
        assert(regs@.take(regs@.len() as int) =~= regs@);
        Ok(args)
    }

    fn do_invoke(&mut self, frame_idx: usize, insn: &Insn) -> (r: Result<(), AndroidError>)
        requires
            frame_idx < old(self).stack.len(),
        ensures
            (final(self)@, rv(r)) == old(self)@.invoke(frame_idx as int, *insn),
    {
        let method = match self.dex.method_id(insn.b) {
            Some(m) => m.duplicate(),
            None => return Err(vm_error("bad method idx")),
        };
        let regs = collect_arg_regs(insn);
        let args = match self.read_args(frame_idx, &regs) {
            Ok(a) => a,
            Err(e) => return Err(e),
        };
        if let Some(ret) = self.host.try_invoke(&method, args.as_slice()) {
            self.result = ret;
            self.advance(frame_idx, insn.size);
            return Ok(());
        }
        let found = find_encoded(&self.dex, insn.b);
        proof {
            if exists|ci: int, k: int| encoded_at(self@.dex, insn.b, ci, k) {
                let (ci, k) = choose|ci: int, k: int|
                    encoded_at(self@.dex, insn.b, ci, k) && (found matches Some(m) && m@ == all_methods(self@.dex.classes[ci])[k]);
                lemma_encoded_unique(self@.dex, insn.b, ci, k);
            }
        }
        let code = match found {
            Some(em) => match &em.code {
                Some(c) => Some(c.duplicate()),
                None => None,
            },
            None => None,
        };
        match code {
            Some(c) => {
                self.advance(frame_idx, insn.size);
                self.push_frame(insn.b, c, args.as_slice());
            },
            None => {
                self.result = Value::Int(0);
                self.advance(frame_idx, insn.size);
            },
        }
        Ok(())
    }

    /// Instructions that only move values between registers.
    fn exec_moves(&mut self, frame_idx: usize, insn: Insn) -> (r: Result<(), AndroidError>)
        requires
            frame_idx < old(self).stack.len(),
            insn.op == MOVE || insn.op == MOVE_FROM16 || insn.op == MOVE_16 || insn.op == MOVE_OBJECT || insn.op
                == MOVE_OBJECT_FROM16 || insn.op == MOVE_RESULT || insn.op == MOVE_RESULT_OBJECT || insn.op == CONST_4
                || insn.op == CONST_16 || insn.op == CONST || insn.op == CONST_HIGH16 || insn.op == IGET_OBJECT,
        ensures
            (final(self)@, rv(r)) == old(self)@.execute(frame_idx as int, insn),
    {
        let op = insn.op;
        if op == MOVE || op == MOVE_FROM16 || op == MOVE_16 || op == MOVE_OBJECT || op == MOVE_OBJECT_FROM16 {
            let src = match self.reg(frame_idx, insn.b) {
                Ok(v) => v,
                Err(e) => return Err(e),
            };
            self.set_adv(frame_idx, insn.a, src, insn.size)
        } else if op == MOVE_RESULT || op == MOVE_RESULT_OBJECT {
            let v = self.result;
            self.set_adv(frame_idx, insn.a, v, insn.size)
        } else if op == CONST_4 || op == CONST_16 {
            self.set_adv(frame_idx, insn.a, Value::Int(insn.b as i16 as i32), insn.size)
        } else if op == CONST || op == CONST_HIGH16 {
            let v = if op == CONST_HIGH16 { (insn.b << 16) as i32 } else { insn.b as i32 };
            self.set_adv(frame_idx, insn.a, Value::Int(v), insn.size)
        } else {
            self.set_adv(frame_idx, insn.a, Value::Obj(0), insn.size)
        }
    }

    /// Instructions that allocate an object and store the reference.
    fn exec_allocs(&mut self, frame_idx: usize, insn: Insn) -> (r: Result<(), AndroidError>)
        requires
            frame_idx < old(self).stack.len(),
            insn.op == CONST_STRING || insn.op == CONST_STRING_JUMBO || insn.op == NEW_INSTANCE || insn.op == NEW_ARRAY
                || insn.op == SGET_OBJECT,
        ensures
            (final(self)@, rv(r)) == old(self)@.execute(frame_idx as int, insn),
    {
        let op = insn.op;
        let obj = if op == CONST_STRING || op == CONST_STRING_JUMBO {
            let s = match self.dex.string(insn.b) {
                Some(s) => String::from_str(s),
                None => return Err(vm_error("bad string idx")),
            };
            self.host.alloc_string(s)
        } else if op == NEW_INSTANCE {
            let ty = if (insn.b as usize) < self.dex.types.len() {
                self.dex.types[insn.b as usize].clone()
            } else {
                String::from_str("Ljava/lang/Object;")
            };
            self.host.alloc_instance(ty)
        } else if op == NEW_ARRAY {
            let len = match self.reg(frame_idx, insn.b) {
                Ok(v) => v.as_int(),
                Err(e) => return Err(e),
            };
            self.host.alloc_array(len)
        } else {
            self.host.alloc_instance(String::from_str("Ljava/io/PrintStream;"))
        };
        self.set_adv(frame_idx, insn.a, obj, insn.size)
    }

    /// Branches.
    fn exec_branches(&mut self, frame_idx: usize, insn: Insn) -> (r: Result<(), AndroidError>)
        requires
            frame_idx < old(self).stack.len(),
            insn.op == GOTO || insn.op == GOTO_16 || insn.op == IF_EQZ || insn.op == IF_NEZ || insn.op == IF_EQ
                || insn.op == IF_NE || insn.op == IF_LT || insn.op == IF_GE || insn.op == IF_GT || insn.op == IF_LE,
        ensures
            (final(self)@, rv(r)) == old(self)@.execute(frame_idx as int, insn),
    {
        let op = insn.op;
        if op == GOTO || op == GOTO_16 {
            self.jump(frame_idx, insn.b);
        } else if op == IF_EQZ || op == IF_NEZ {
            let v = match self.reg(frame_idx, insn.a) {
                Ok(x) => x.as_int(),
                Err(e) => return Err(e),
            };
            if (v == 0) == (op == IF_EQZ) {
                self.jump(frame_idx, insn.b);
            } else {
                self.advance(frame_idx, insn.size);
            }
        } else {
            let a = match self.reg(frame_idx, insn.a) {
                Ok(x) => x.as_int(),
                Err(e) => return Err(e),
            };
            let b = match self.reg(frame_idx, insn.b) {
                Ok(x) => x.as_int(),
                Err(e) => return Err(e),
            };
            let take = if op == IF_EQ {
                a == b
            } else if op == IF_NE {
                a != b
            } else if op == IF_LT {
                a < b
            } else if op == IF_GE {
                a >= b
            } else if op == IF_GT {
                a > b
            } else {
                a <= b
            };
            if take {
                self.jump(frame_idx, insn.c);
            } else {
                self.advance(frame_idx, insn.size);
            }
        }
        Ok(())
    }

    /// Array instructions and integer arithmetic.
    fn exec_data(&mut self, frame_idx: usize, insn: Insn) -> (r: Result<(), AndroidError>)
        requires
            frame_idx < old(self).stack.len(),
            insn.op == ARRAY_LENGTH || insn.op == AGET || insn.op == APUT || insn.op == ADD_INT || insn.op == SUB_INT
                || insn.op == MUL_INT || insn.op == ADD_INT_2ADDR || insn.op == SUB_INT_2ADDR || insn.op == MUL_INT_2ADDR,
        ensures
            (final(self)@, rv(r)) == old(self)@.execute(frame_idx as int, insn),
    {
        let op = insn.op;
        if op == ARRAY_LENGTH {
            let arr = match self.reg(frame_idx, insn.b) {
                Ok(x) => x,
                Err(e) => return Err(e),
            };
            let len = match self.host.array_len(arr) {
                Some(l) => l,
                None => 0,
            };
            self.set_adv(frame_idx, insn.a, Value::Int(len), insn.size)
        } else if op == AGET {
            let arr = match self.reg(frame_idx, insn.b) {
                Ok(x) => x,
                Err(e) => return Err(e),
            };
            let idx = match self.reg(frame_idx, insn.c) {
                Ok(x) => x.as_int(),
                Err(e) => return Err(e),
            };
            let v = match self.host.array_get(arr, idx) {
                Some(x) => x,
                None => Value::Int(0),
            };
            self.set_adv(frame_idx, insn.a, v, insn.size)
        } else if op == APUT {
            let val = match self.reg(frame_idx, insn.a) {
                Ok(x) => x,
                Err(e) => return Err(e),
            };
            let arr = match self.reg(frame_idx, insn.b) {
                Ok(x) => x,
                Err(e) => return Err(e),
            };
            let idx = match self.reg(frame_idx, insn.c) {
                Ok(x) => x.as_int(),
                Err(e) => return Err(e),
            };
            let _ = self.host.array_set(arr, idx, val);
            self.advance(frame_idx, insn.size);
            Ok(())
        } else {
            let two = op == ADD_INT_2ADDR || op == SUB_INT_2ADDR || op == MUL_INT_2ADDR;
            let lhs = match self.reg(frame_idx, if two { insn.a } else { insn.b }) {
                Ok(x) => x.as_int(),
                Err(e) => return Err(e),
            };
            let rhs = match self.reg(frame_idx, if two { insn.b } else { insn.c }) {
                Ok(x) => x.as_int(),
                Err(e) => return Err(e),
            };
            let v = if op == ADD_INT || op == ADD_INT_2ADDR {
                lhs.wrapping_add(rhs)
            } else if op == SUB_INT || op == SUB_INT_2ADDR {
                lhs.wrapping_sub(rhs)
            } else {
                lhs.wrapping_mul(rhs)
            };
            self.set_adv(frame_idx, insn.a, Value::Int(v), insn.size)
        }
    }

    fn execute(&mut self, frame_idx: usize, insn: Insn) -> (r: Result<(), AndroidError>)
        requires
            frame_idx < old(self).stack.len(),
        ensures
            (final(self)@, rv(r)) == old(self)@.execute(frame_idx as int, insn),
    {
        let op = insn.op;
        if op == NOP || op == CHECK_CAST || op == IPUT_OBJECT || op == SPUT_OBJECT {
            self.advance(frame_idx, insn.size);
            Ok(())
        } else if op == MOVE || op == MOVE_FROM16 || op == MOVE_16 || op == MOVE_OBJECT || op == MOVE_OBJECT_FROM16
            || op == MOVE_RESULT || op == MOVE_RESULT_OBJECT || op == CONST_4 || op == CONST_16 || op == CONST || op
            == CONST_HIGH16 || op == IGET_OBJECT {
            self.exec_moves(frame_idx, insn)
        } else if op == RETURN_VOID {
            self.pop_frame();
            Ok(())
        } else if op == RETURN || op == RETURN_OBJECT {
            let v = match self.reg(frame_idx, insn.a) {
                Ok(x) => x,
                Err(e) => return Err(e),
            };
            self.result = v;
            self.pop_frame();
            Ok(())
        } else if op == CONST_STRING || op == CONST_STRING_JUMBO || op == NEW_INSTANCE || op == NEW_ARRAY || op
            == SGET_OBJECT {
            self.exec_allocs(frame_idx, insn)
        } else if op == GOTO || op == GOTO_16 || op == IF_EQZ || op == IF_NEZ || op == IF_EQ || op == IF_NE || op
            == IF_LT || op == IF_GE || op == IF_GT || op == IF_LE {
            self.exec_branches(frame_idx, insn)
        } else if op == ARRAY_LENGTH || op == AGET || op == APUT || op == ADD_INT || op == SUB_INT || op == MUL_INT
            || op == ADD_INT_2ADDR || op == SUB_INT_2ADDR || op == MUL_INT_2ADDR {
            self.exec_data(frame_idx, insn)
        } else if op == INVOKE_VIRTUAL || op == INVOKE_SUPER || op == INVOKE_DIRECT || op == INVOKE_STATIC || op
            == INVOKE_INTERFACE {
            self.do_invoke(frame_idx, &insn)
        } else {
            let pc = self.stack[frame_idx].pc;
            let mut reason = String::new();
            reason.append("unimplemented opcode 0x");
            push_hex2_lower(&mut reason, op);
            reason.append(" at pc=");
            push_dec_wide(&mut reason, pc as u64);
            proof {
                assert(reason@ =~= unimplemented_reason(op, pc));
            }
            self.halted = true;
            self.halt_reason = Some(reason);
            Err(AndroidError::UnimplementedOpcode { op, pc: pc as u32 })
        }
    }

    /// Runs one instruction of the top frame; whether the VM can go on.
    pub fn step(&mut self) -> (r: Result<bool, AndroidError>)
        ensures
            (final(self)@, rv(r)) == old(self)@.step(),
    {
        if self.halted {
            return Ok(false);
        }
        if self.stack.len() == 0 {
            self.halted = true;
            return Ok(false);
        }
        let frame_idx = self.stack.len() - 1;
        let pc = self.stack[frame_idx].pc;
        assert(self.stack@[frame_idx as int].code.insns@ == self@.stack[frame_idx as int].code.insns);
        let insn = match decode(self.stack[frame_idx].code.insns.as_slice(), pc) {
            Some(i) => i,
            None => {
                let mut msg = String::new();
                msg.append("decode failed at pc=");
                push_dec_wide(&mut msg, pc as u64);
                return Err(AndroidError::Vm(msg));
            },
        };
        self.steps = self.steps.wrapping_add(1);
        match self.execute(frame_idx, insn) {
            Ok(()) => {},
            Err(e) => return Err(e),
        }
        Ok(!self.halted && self.stack.len() != 0)
    }

    /// Runs up to `max_steps` steps; how many ran before the VM could not
    /// go on.
    pub fn run_batch(&mut self, max_steps: u32) -> (r: Result<u32, AndroidError>)
        ensures
            (final(self)@, rv(r)) == old(self)@.run_from(0, max_steps),
    {
        let mut n: u32 = 0;
        while n < max_steps
            invariant
                n <= max_steps,
                self@.run_from(n, max_steps) == old(self)@.run_from(0, max_steps),
            decreases max_steps - n,
        {
            let ran = !self.halted && self.stack.len() > 0;
            match self.step() {
                Err(e) => return Err(e),
                Ok(false) => return Ok(if ran { n + 1 } else { n }),
                Ok(true) => {},
            }
            n = n + 1;
        }
        Ok(n)
    }
}

} // verus!
