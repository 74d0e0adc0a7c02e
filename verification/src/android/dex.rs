//! In-memory DEX 035 parser.
use vstd::prelude::*;
use crate::android::error::AndroidError;
use crate::memory::le_word;
use crate::text::str_eq;

verus! {

// ── Data model ────────────────────────────────────────────────────────

/// A parsed DEX file.
#[derive(Debug)]
pub struct DexFile {
    pub data: Vec<u8>,
    pub strings: Vec<String>,
    pub types: Vec<String>,
    pub protos: Vec<ProtoId>,
    pub fields: Vec<FieldId>,
    pub methods: Vec<MethodId>,
    pub classes: Vec<ClassDef>,
}

#[derive(Debug)]
pub struct ProtoId {
    pub shorty: String,
    pub return_type: String,
    pub parameters: Vec<String>,
}

#[derive(Debug)]
pub struct FieldId {
    pub class: String,
    pub type_desc: String,
    pub name: String,
}

#[derive(Debug)]
pub struct MethodId {
    pub class: String,
    pub name: String,
    pub proto: ProtoId,
}

#[derive(Debug)]
pub struct ClassDef {
    pub descriptor: String,
    pub access_flags: u32,
    pub superclass: Option<String>,
    pub class_data_off: u32,
    pub direct_methods: Vec<EncodedMethod>,
    pub virtual_methods: Vec<EncodedMethod>,
}

#[derive(Debug)]
pub struct EncodedMethod {
    pub method_idx: u32,
    pub access_flags: u32,
    pub code: Option<CodeItem>,
}

#[derive(Debug)]
pub struct CodeItem {
    pub registers_size: u16,
    pub ins_size: u16,
    pub outs_size: u16,
    pub insns: Vec<u16>,
}

#[verifier::ext_equal]
pub struct ProtoView {
    pub shorty: Seq<char>,
    pub return_type: Seq<char>,
    pub parameters: Seq<Seq<char>>,
}

#[verifier::ext_equal]
pub struct FieldView {
    pub class: Seq<char>,
    pub type_desc: Seq<char>,
    pub name: Seq<char>,
}

#[verifier::ext_equal]
pub struct MethodView {
    pub class: Seq<char>,
    pub name: Seq<char>,
    pub proto: ProtoView,
}

#[verifier::ext_equal]
pub struct CodeView {
    pub registers_size: u16,
    pub ins_size: u16,
    pub outs_size: u16,
    pub insns: Seq<u16>,
}

#[verifier::ext_equal]
pub struct EncodedView {
    pub method_idx: u32,
    pub access_flags: u32,
    pub code: Option<CodeView>,
}

#[verifier::ext_equal]
pub struct ClassView {
    pub descriptor: Seq<char>,
    pub access_flags: u32,
    pub superclass: Option<Seq<char>>,
    pub class_data_off: u32,
    pub direct_methods: Seq<EncodedView>,
    pub virtual_methods: Seq<EncodedView>,
}

#[verifier::ext_equal]
pub struct DexView {
    pub data: Seq<u8>,
    pub strings: Seq<Seq<char>>,
    pub types: Seq<Seq<char>>,
    pub protos: Seq<ProtoView>,
    pub fields: Seq<FieldView>,
    pub methods: Seq<MethodView>,
    pub classes: Seq<ClassView>,
}

/// The contents of a list of strings.
pub open spec fn strs(v: Seq<String>) -> Seq<Seq<char>> {
    v.map_values(|s: String| s@)
}

pub open spec fn opt_str(o: Option<String>) -> Option<Seq<char>> {
    match o {
        Some(s) => Some(s@),
        None => None,
    }
}

impl View for ProtoId {
    type V = ProtoView;

    open spec fn view(&self) -> ProtoView {
        ProtoView { shorty: self.shorty@, return_type: self.return_type@, parameters: strs(self.parameters@) }
    }
}

impl View for FieldId {
    type V = FieldView;

    open spec fn view(&self) -> FieldView {
        FieldView { class: self.class@, type_desc: self.type_desc@, name: self.name@ }
    }
}

impl View for MethodId {
    type V = MethodView;

    open spec fn view(&self) -> MethodView {
        MethodView { class: self.class@, name: self.name@, proto: self.proto@ }
    }
}

impl View for CodeItem {
    type V = CodeView;

    open spec fn view(&self) -> CodeView {
        CodeView {
            registers_size: self.registers_size,
            ins_size: self.ins_size,
            outs_size: self.outs_size,
            insns: self.insns@,
        }
    }
}

pub open spec fn opt_code(o: Option<CodeItem>) -> Option<CodeView> {
    match o {
        Some(c) => Some(c@),
        None => None,
    }
}

impl View for EncodedMethod {
    type V = EncodedView;

    open spec fn view(&self) -> EncodedView {
        EncodedView { method_idx: self.method_idx, access_flags: self.access_flags, code: opt_code(self.code) }
    }
}

pub open spec fn proto_views(v: Seq<ProtoId>) -> Seq<ProtoView> {
    v.map_values(|p: ProtoId| p@)
}

pub open spec fn encoded_views(v: Seq<EncodedMethod>) -> Seq<EncodedView> {
    v.map_values(|m: EncodedMethod| m@)
}

impl View for ClassDef {
    type V = ClassView;

    open spec fn view(&self) -> ClassView {
        ClassView {
            descriptor: self.descriptor@,
            access_flags: self.access_flags,
            superclass: opt_str(self.superclass),
            class_data_off: self.class_data_off,
            direct_methods: encoded_views(self.direct_methods@),
            virtual_methods: encoded_views(self.virtual_methods@),
        }
    }
}

impl View for DexFile {
    type V = DexView;

    open spec fn view(&self) -> DexView {
        DexView {
            data: self.data@,
            strings: strs(self.strings@),
            types: strs(self.types@),
            protos: proto_views(self.protos@),
            fields: self.fields@.map_values(|f: FieldId| f@),
            methods: self.methods@.map_values(|m: MethodId| m@),
            classes: self.classes@.map_values(|c: ClassDef| c@),
        }
    }
}

// ── Byte-level reading ────────────────────────────────────────────────

/// Little-endian composition of two bytes.
pub open spec fn le_half(b0: u8, b1: u8) -> u16 {
    (b0 as u16) | ((b1 as u16) << 8)
}

/// The little-endian u16 at `off`, if both bytes lie in `d`.
pub open spec fn u16_at(d: Seq<u8>, off: int) -> Option<u16> {
    if 0 <= off && off + 2 <= d.len() {
        Some(le_half(d[off], d[off + 1]))
    } else {
        None
    }
}

/// The little-endian u32 at `off`, if all four bytes lie in `d`.
pub open spec fn u32_at(d: Seq<u8>, off: int) -> Option<u32> {
    if 0 <= off && off + 4 <= d.len() {
        Some(le_word(d[off], d[off + 1], d[off + 2], d[off + 3]))
    } else {
        None
    }
}

/// ULEB128 decoding from byte `i` of the value at `off`, with `acc` holding
/// the bits read so far: the value and the number of bytes it takes. At most
/// five bytes are read.
pub open spec fn uleb_from(d: Seq<u8>, off: int, i: int, shift: u32, acc: u32) -> Option<(u32, int)>
    decreases 28 - shift,
{
    if !(0 <= off + i < d.len()) {
        None
    } else {
        let b = d[off + i] as u32;
        let acc2 = acc | ((b & 0x7f) << shift);
        if b & 0x80 == 0 {
            Some((acc2, i + 1))
        } else if shift + 7 > 28 {
            None
        } else {
            uleb_from(d, off, i + 1, (shift + 7) as u32, acc2)
        }
    }
}

/// The ULEB128 value at `off` and its length in bytes.
pub open spec fn uleb_at(d: Seq<u8>, off: int) -> Option<(u32, int)> {
    uleb_from(d, off, 0, 0, 0)
}

/// The first position at or after `start` that holds a zero byte, or the
/// end of `d`.
pub open spec fn nul_from(d: Seq<u8>, start: int) -> int
    decreases d.len() - start,
{
    if start >= d.len() || d[start] == 0 {
        start
    } else {
        nul_from(d, start + 1)
    }
}

/// What `String::from_utf8_lossy` makes of a byte sequence.
pub uninterp spec fn lossy_utf8(b: Seq<u8>) -> Seq<char>;

/// `String::from_utf8_lossy(b).into_owned()`: the text of `b` with each
/// invalid UTF-8 sequence replaced. The result is named; its documentation
/// also says that valid UTF-8 comes back as the text it encodes.
#[verifier::external_body]
pub(crate) fn utf8_lossy(b: &[u8]) -> (s: String)
    ensures
        s@ == lossy_utf8(b@),
        vstd::utf8::valid_utf8(b@) ==> s@ == vstd::utf8::decode_utf8(b@),
{
    String::from_utf8_lossy(b).into_owned()
}

/// The text of `b`: the characters it encodes when it is valid UTF-8,
/// otherwise what `String::from_utf8_lossy` makes of it.
pub open spec fn text_of(b: Seq<u8>) -> Seq<char> {
    if vstd::utf8::valid_utf8(b) { vstd::utf8::decode_utf8(b) } else { lossy_utf8(b) }
}

/// The string data item at `off`: a ULEB128 length, then bytes up to NUL.
pub open spec fn string_at(d: Seq<u8>, off: int) -> Option<Seq<char>> {
    match uleb_at(d, off) {
        None => None,
        Some(p) => {
            let start = off + p.1;
            if start <= d.len() {
                Some(text_of(d.subrange(start, nul_from(d, start))))
            } else {
                None
            }
        },
    }
}

// ── Tables ────────────────────────────────────────────────────────────

pub open spec fn string_entry(d: Seq<u8>, ids_off: int, i: int) -> Option<Seq<char>> {
    match u32_at(d, ids_off + 4 * i) {
        None => None,
        Some(o) => string_at(d, o as int),
    }
}

pub open spec fn lookup(names: Seq<Seq<char>>, k: int) -> Option<Seq<char>> {
    if 0 <= k < names.len() {
        Some(names[k])
    } else {
        None
    }
}

/// `lookup`, with the empty string for a missing entry.
pub open spec fn lookup_or_empty(names: Seq<Seq<char>>, k: int) -> Seq<char> {
    if 0 <= k < names.len() {
        names[k]
    } else {
        Seq::empty()
    }
}

pub open spec fn type_entry(d: Seq<u8>, strings: Seq<Seq<char>>, ids_off: int, i: int) -> Option<Seq<char>> {
    match u32_at(d, ids_off + 4 * i) {
        None => None,
        Some(k) => lookup(strings, k as int),
    }
}

pub open spec fn param_entry(d: Seq<u8>, types: Seq<Seq<char>>, params_off: int, p: int) -> Option<Seq<char>> {
    match u16_at(d, params_off + 4 + 2 * p) {
        None => None,
        Some(t) => lookup(types, t as int),
    }
}

/// The parameter list at `params_off` (0: none).
pub open spec fn params_at(d: Seq<u8>, types: Seq<Seq<char>>, params_off: int) -> Option<Seq<Seq<char>>> {
    if params_off == 0 {
        Some(Seq::empty())
    } else {
        match u32_at(d, params_off) {
            None => None,
            Some(size) => {
                if forall|p: int| 0 <= p < size ==> #[trigger] param_entry(d, types, params_off, p) is Some {
                    Some(Seq::new(size as nat, |p: int| param_entry(d, types, params_off, p)->Some_0))
                } else {
                    None
                }
            },
        }
    }
}

pub open spec fn proto_entry(
    d: Seq<u8>,
    strings: Seq<Seq<char>>,
    types: Seq<Seq<char>>,
    ids_off: int,
    i: int,
) -> Option<ProtoView> {
    let base = ids_off + 12 * i;
    match (u32_at(d, base), u32_at(d, base + 4), u32_at(d, base + 8)) {
        (Some(s), Some(r), Some(p)) => match (lookup(strings, s as int), lookup(types, r as int)) {
            (Some(shorty), Some(ret)) => match params_at(d, types, p as int) {
                Some(params) => Some(ProtoView { shorty: shorty, return_type: ret, parameters: params }),
                None => None,
            },
            _ => None,
        },
        _ => None,
    }
}

pub open spec fn field_entry(
    d: Seq<u8>,
    strings: Seq<Seq<char>>,
    types: Seq<Seq<char>>,
    ids_off: int,
    i: int,
) -> Option<FieldView> {
    let base = ids_off + 8 * i;
    match (u16_at(d, base), u16_at(d, base + 2), u32_at(d, base + 4)) {
        (Some(c), Some(t), Some(n)) => Some(
            FieldView {
                class: lookup_or_empty(types, c as int),
                type_desc: lookup_or_empty(types, t as int),
                name: lookup_or_empty(strings, n as int),
            },
        ),
        _ => None,
    }
}

pub open spec fn method_entry(
    d: Seq<u8>,
    strings: Seq<Seq<char>>,
    types: Seq<Seq<char>>,
    protos: Seq<ProtoView>,
    ids_off: int,
    i: int,
) -> Option<MethodView> {
    let base = ids_off + 8 * i;
    match (u16_at(d, base), u16_at(d, base + 2), u32_at(d, base + 4)) {
        (Some(c), Some(p), Some(n)) => {
            if (p as int) < protos.len() {
                Some(
                    MethodView {
                        class: lookup_or_empty(types, c as int),
                        name: lookup_or_empty(strings, n as int),
                        proto: protos[p as int],
                    },
                )
            } else {
                None
            }
        },
        _ => None,
    }
}

/// The code item at `off`.
pub open spec fn code_at(d: Seq<u8>, off: int) -> Option<CodeView> {
    match (u16_at(d, off), u16_at(d, off + 2), u16_at(d, off + 4), u16_at(d, off + 6), u32_at(d, off + 8), u32_at(d, off + 12)) {
        (Some(regs), Some(ins), Some(outs), Some(_), Some(_), Some(n)) => {
            if forall|k: int| 0 <= k < n ==> #[trigger] u16_at(d, off + 16 + 2 * k) is Some {
                Some(
                    CodeView {
                        registers_size: regs,
                        ins_size: ins,
                        outs_size: outs,
                        insns: Seq::new(n as nat, |k: int| u16_at(d, off + 16 + 2 * k)->Some_0),
                    },
                )
            } else {
                None
            }
        },
        _ => None,
    }
}

/// The offset after skipping `k` encoded fields (two ULEB128 values each).
pub open spec fn skip_fields(d: Seq<u8>, off: int, k: nat) -> Option<int>
    decreases k,
{
    if k == 0 {
        Some(off)
    } else {
        match skip_fields(d, off, (k - 1) as nat) {
            None => None,
            Some(o) => match uleb_at(d, o) {
                None => None,
                Some(a) => match uleb_at(d, o + a.1) {
                    None => None,
                    Some(b) => Some(o + a.1 + b.1),
                },
            },
        }
    }
}

/// The first `k` encoded methods from `off`: the methods, the offset after
/// them and the last method index (indices are stored as differences).
pub open spec fn methods_from(d: Seq<u8>, off: int, k: nat) -> Option<(Seq<EncodedView>, int, u32)>
    decreases k,
{
    if k == 0 {
        Some((Seq::empty(), off, 0u32))
    } else {
        match methods_from(d, off, (k - 1) as nat) {
            None => None,
            Some(prev) => {
                let o = prev.1;
                match (uleb_at(d, o)) {
                    None => None,
                    Some(diff) => match uleb_at(d, o + diff.1) {
                        None => None,
                        Some(access) => match uleb_at(d, o + diff.1 + access.1) {
                            None => None,
                            Some(code_off) => {
                                let idx = prev.2.wrapping_add(diff.0);
                                let next = o + diff.1 + access.1 + code_off.1;
                                if code_off.0 == 0 {
                                    Some((prev.0.push(EncodedView { method_idx: idx, access_flags: access.0, code: None }), next, idx))
                                } else {
                                    match code_at(d, code_off.0 as int) {
                                        None => None,
                                        Some(c) => Some((prev.0.push(EncodedView { method_idx: idx, access_flags: access.0, code: Some(c) }), next, idx)),
                                    }
                                }
                            },
                        },
                    },
                }
            },
        }
    }
}

/// The direct and virtual methods of the class data item at `off`.
pub open spec fn class_data_at(d: Seq<u8>, off: int) -> Option<(Seq<EncodedView>, Seq<EncodedView>)> {
    match uleb_at(d, off) {
        None => None,
        Some(sf) => match uleb_at(d, off + sf.1) {
            None => None,
            Some(inf) => match uleb_at(d, off + sf.1 + inf.1) {
                None => None,
                Some(dm) => match uleb_at(d, off + sf.1 + inf.1 + dm.1) {
                    None => None,
                    Some(vm) => {
                        let o1 = off + sf.1 + inf.1 + dm.1 + vm.1;
                        match skip_fields(d, o1, (sf.0 + inf.0) as nat) {
                            None => None,
                            Some(o2) => match methods_from(d, o2, dm.0 as nat) {
                                None => None,
                                Some(direct) => match methods_from(d, direct.1, vm.0 as nat) {
                                    None => None,
                                    Some(virt) => Some((direct.0, virt.0)),
                                },
                            },
                        }
                    },
                },
            },
        },
    }
}

pub open spec fn class_entry(d: Seq<u8>, types: Seq<Seq<char>>, defs_off: int, i: int) -> Option<ClassView> {
    let base = defs_off + 32 * i;
    match (u32_at(d, base), u32_at(d, base + 4), u32_at(d, base + 8), u32_at(d, base + 24)) {
        (Some(c), Some(flags), Some(sup), Some(cd)) => match lookup(types, c as int) {
            None => None,
            Some(desc) => {
                let superclass = if sup == 0xffff_ffff { None } else { lookup(types, sup as int) };
                let methods = if cd == 0 { Some((Seq::empty(), Seq::empty())) } else { class_data_at(d, cd as int) };
                match methods {
                    None => None,
                    Some(ms) => Some(
                        ClassView {
                            descriptor: desc,
                            access_flags: flags,
                            superclass: superclass,
                            class_data_off: cd,
                            direct_methods: ms.0,
                            virtual_methods: ms.1,
                        },
                    ),
                }
            },
        },
        _ => None,
    }
}

/// The header field at `off` (the header is 0x70 bytes long).
pub open spec fn hdr(d: Seq<u8>, off: int) -> int {
    le_word(d[off], d[off + 1], d[off + 2], d[off + 3]) as int
}

pub open spec fn dex_magic_ok(d: Seq<u8>) -> bool {
    d[0] == 0x64 && d[1] == 0x65 && d[2] == 0x78 && d[3] == 0x0a
}

pub open spec fn strings_ok(d: Seq<u8>) -> bool {
    forall|i: int| 0 <= i < hdr(d, 56) ==> #[trigger] string_entry(d, hdr(d, 60), i) is Some
}

pub open spec fn strings_of(d: Seq<u8>) -> Seq<Seq<char>> {
    Seq::new(hdr(d, 56) as nat, |i: int| string_entry(d, hdr(d, 60), i)->Some_0)
}

pub open spec fn types_ok(d: Seq<u8>) -> bool {
    forall|i: int| 0 <= i < hdr(d, 64) ==> #[trigger] type_entry(d, strings_of(d), hdr(d, 68), i) is Some
}

pub open spec fn types_of(d: Seq<u8>) -> Seq<Seq<char>> {
    Seq::new(hdr(d, 64) as nat, |i: int| type_entry(d, strings_of(d), hdr(d, 68), i)->Some_0)
}

pub open spec fn protos_ok(d: Seq<u8>) -> bool {
    forall|i: int| 0 <= i < hdr(d, 72) ==> #[trigger] proto_entry(d, strings_of(d), types_of(d), hdr(d, 76), i) is Some
}

pub open spec fn protos_of(d: Seq<u8>) -> Seq<ProtoView> {
    Seq::new(hdr(d, 72) as nat, |i: int| proto_entry(d, strings_of(d), types_of(d), hdr(d, 76), i)->Some_0)
}

pub open spec fn fields_ok(d: Seq<u8>) -> bool {
    forall|i: int| 0 <= i < hdr(d, 80) ==> #[trigger] field_entry(d, strings_of(d), types_of(d), hdr(d, 84), i) is Some
}

pub open spec fn fields_of(d: Seq<u8>) -> Seq<FieldView> {
    Seq::new(hdr(d, 80) as nat, |i: int| field_entry(d, strings_of(d), types_of(d), hdr(d, 84), i)->Some_0)
}

pub open spec fn methods_ok(d: Seq<u8>) -> bool {
    forall|i: int| 0 <= i < hdr(d, 88) ==> #[trigger] method_entry(d, strings_of(d), types_of(d), protos_of(d), hdr(d, 92), i) is Some
}

pub open spec fn methods_of(d: Seq<u8>) -> Seq<MethodView> {
    Seq::new(hdr(d, 88) as nat, |i: int| method_entry(d, strings_of(d), types_of(d), protos_of(d), hdr(d, 92), i)->Some_0)
}

pub open spec fn classes_ok(d: Seq<u8>) -> bool {
    forall|i: int| 0 <= i < hdr(d, 96) ==> #[trigger] class_entry(d, types_of(d), hdr(d, 100), i) is Some
}

pub open spec fn classes_of(d: Seq<u8>) -> Seq<ClassView> {
    Seq::new(hdr(d, 96) as nat, |i: int| class_entry(d, types_of(d), hdr(d, 100), i)->Some_0)
}

/// Whether a file with a valid header has well-formed tables.
pub open spec fn tables_ok(d: Seq<u8>) -> bool {
    strings_ok(d) && types_ok(d) && protos_ok(d) && fields_ok(d) && methods_ok(d) && classes_ok(d)
}

/// The parsed view of a file with a valid header and well-formed tables.
pub open spec fn dex_of(d: Seq<u8>) -> DexView {
    DexView {
        data: d,
        strings: strings_of(d),
        types: types_of(d),
        protos: protos_of(d),
        fields: fields_of(d),
        methods: methods_of(d),
        classes: classes_of(d),
    }
}

/// Whether `d` starts with a valid DEX header.
pub open spec fn header_ok(d: Seq<u8>) -> bool {
    d.len() >= 0x70 && dex_magic_ok(d) && hdr(d, 40) == 0x1234_5678
}


// ── Lemmas ────────────────────────────────────────────────────────────

/// A decoded ULEB128 value lies wholly inside `d`.
pub proof fn lemma_uleb_in_bounds(d: Seq<u8>, off: int, i: int, shift: u32, acc: u32)
    requires
        uleb_from(d, off, i, shift, acc) is Some,
    ensures
        uleb_from(d, off, i, shift, acc)->Some_0.1 > i,
        off + uleb_from(d, off, i, shift, acc)->Some_0.1 <= d.len(),
    decreases 28 - shift,
{
    let b = d[off + i] as u32;
    let acc2 = acc | ((b & 0x7f) << shift);
    if b & 0x80 != 0 && shift + 7 <= 28 {
        lemma_uleb_in_bounds(d, off, i + 1, (shift + 7) as u32, acc2);
    }
}

proof fn lemma_skip_fields_none(d: Seq<u8>, off: int, k: nat, m: nat)
    requires
        skip_fields(d, off, k) is None,
        k <= m,
    ensures
        skip_fields(d, off, m) is None,
    decreases m,
{
    if k < m {
        lemma_skip_fields_none(d, off, k, (m - 1) as nat);
    }
}

proof fn lemma_methods_from_none(d: Seq<u8>, off: int, k: nat, m: nat)
    requires
        methods_from(d, off, k) is None,
        k <= m,
    ensures
        methods_from(d, off, m) is None,
    decreases m,
{
    if k < m {
        lemma_methods_from_none(d, off, k, (m - 1) as nat);
    }
}

// ── Readers ───────────────────────────────────────────────────────────

fn dex_error(msg: &str) -> (e: AndroidError)
    ensures
        e matches AndroidError::Dex(m) && m@ == msg@,
{
    AndroidError::Dex(String::from_str(msg))
}

fn read_u16(data: &[u8], off: u64) -> (r: Result<u16, AndroidError>)
    ensures
        match r {
            Ok(v) => u16_at(data@, off as int) == Some(v),
            Err(e) => u16_at(data@, off as int) is None && e is Dex,
        },
{
    if off < data.len() as u64 && data.len() as u64 - off >= 2 {
        let o = off as usize;
        Ok((data[o] as u16) | ((data[o + 1] as u16) << 8))
    } else {
        Err(dex_error("u16 OOB"))
    }
}

fn read_u32(data: &[u8], off: u64) -> (r: Result<u32, AndroidError>)
    ensures
        match r {
            Ok(v) => u32_at(data@, off as int) == Some(v),
            Err(e) => u32_at(data@, off as int) is None && e is Dex,
        },
{
    if off < data.len() as u64 && data.len() as u64 - off >= 4 {
        let o = off as usize;
        Ok((data[o] as u32) | ((data[o + 1] as u32) << 8) | ((data[o + 2] as u32) << 16) | ((data[o + 3] as u32) << 24))
    } else {
        Err(dex_error("u32 OOB"))
    }
}

fn read_uleb128(data: &[u8], off: u64) -> (r: Result<(u32, u64), AndroidError>)
    ensures
        match r {
            Ok(p) => uleb_at(data@, off as int) == Some((p.0, p.1 as int)) && off + p.1 <= data.len() && p.1 >= 1,
            Err(e) => uleb_at(data@, off as int) is None && e is Dex,
        },
{
    let mut result: u32 = 0;
    let mut shift: u32 = 0;
    let mut i: u64 = 0;
    loop
        invariant
            shift == 7 * i,
            i <= 4,
            uleb_at(data@, off as int) == uleb_from(data@, off as int, i as int, shift, result),
        decreases 5 - i,
    {
        if !(off < data.len() as u64 && i < data.len() as u64 - off) {
            return Err(dex_error("uleb OOB"));
        }
        let b = data[(off + i) as usize] as u32;
        result = result | ((b & 0x7f) << shift);
        i = i + 1;
        if b & 0x80 == 0 {
            proof { lemma_uleb_in_bounds(data@, off as int, 0, 0, 0); }
            return Ok((result, i));
        }
        shift = shift + 7;
        if shift > 28 {
            return Err(dex_error("uleb overflow"));
        }
    }
}

fn read_mutf8_string(data: &[u8], off: u64) -> (r: Result<String, AndroidError>)
    ensures
        match r {
            Ok(s) => string_at(data@, off as int) == Some(s@),
            Err(e) => string_at(data@, off as int) is None && e is Dex,
        },
{
    let n = match read_uleb128(data, off) {
        Ok(p) => p.1,
        Err(e) => return Err(e),
    };
    let start = off + n;
    if start > data.len() as u64 {
        return Err(dex_error("string OOB"));
    }
    let mut end = start;
    while end < data.len() as u64 && data[end as usize] != 0
        invariant
            start <= end <= data@.len(),
            nul_from(data@, start as int) == nul_from(data@, end as int),
        decreases data@.len() - end,
    {
        end = end + 1;
    }
    let bytes = vstd::slice::slice_subrange(data, start as usize, end as usize);
    Ok(utf8_lossy(bytes))
}

#[verifier::loop_isolation(false)]
fn parse_code_item(data: &[u8], off: u64) -> (r: Result<CodeItem, AndroidError>)
    requires
        off <= u32::MAX,
    ensures
        match r {
            Ok(c) => code_at(data@, off as int) == Some(c@),
            Err(e) => code_at(data@, off as int) is None && e is Dex,
        },
{
    let registers_size = match read_u16(data, off) { Ok(v) => v, Err(e) => return Err(e) };
    let ins_size = match read_u16(data, off + 2) { Ok(v) => v, Err(e) => return Err(e) };
    let outs_size = match read_u16(data, off + 4) { Ok(v) => v, Err(e) => return Err(e) };
    match read_u16(data, off + 6) { Ok(_) => {}, Err(e) => return Err(e) };
    match read_u32(data, off + 8) { Ok(_) => {}, Err(e) => return Err(e) };
    let insns_size = match read_u32(data, off + 12) { Ok(v) => v, Err(e) => return Err(e) };
    let mut insns: Vec<u16> = Vec::new();
    let mut i: u64 = 0;
    while i < insns_size as u64
        invariant
            off <= u32::MAX,
            i <= insns_size,
            insns@.len() == i,
            forall|k: int| 0 <= k < i ==> #[trigger] u16_at(data@, off + 16 + 2 * k) == Some(insns@[k]),
        decreases insns_size - i,
    {
        let w = match read_u16(data, off + 16 + i * 2) {
            Ok(v) => v,
            Err(e) => {
                proof {
                    let ki = i as int;
                    assert(u16_at(data@, off + 16 + 2 * ki) is None);
                    assert(!(forall|k: int| 0 <= k < insns_size ==> #[trigger] u16_at(data@, off + 16 + 2 * k) is Some));
                }
                return Err(e);
            },
        };
        insns.push(w);
        i = i + 1;
    }
    let c = CodeItem { registers_size, ins_size, outs_size, insns };
    assert(c.insns@ =~= Seq::new(insns_size as nat, |k: int| u16_at(data@, off + 16 + 2 * k)->Some_0));
    Ok(c)
}

/// Reads `count` encoded methods from `off`.
fn parse_encoded_methods(data: &[u8], off: u64, count: u32) -> (r: Result<(Vec<EncodedMethod>, u64), AndroidError>)
    requires
        off <= data@.len(),
    ensures
        match r {
            Ok(p) => methods_from(data@, off as int, count as nat) matches Some(m) && m.0 == encoded_views(p.0@)
                && m.1 == p.1 as int && p.1 <= data.len(),
            Err(e) => methods_from(data@, off as int, count as nat) is None && e is Dex,
        },
{
    let mut out: Vec<EncodedMethod> = Vec::new();
    let mut o = off;
    let mut method_idx: u32 = 0;
    let mut k: u32 = 0;
    while k < count
        invariant
            k <= count,
            o <= data.len(),
            methods_from(data@, off as int, k as nat) == Some((encoded_views(out@), o as int, method_idx)),
        decreases count - k,
    {
        proof {
            reveal_with_fuel(methods_from, 2);
        }
        let (diff, a) = match read_uleb128(data, o) {
            Ok(p) => p,
            Err(e) => {
                proof { lemma_methods_from_none(data@, off as int, (k + 1) as nat, count as nat); }
                return Err(e);
            },
        };
        let (access, b) = match read_uleb128(data, o + a) {
            Ok(p) => p,
            Err(e) => {
                proof { lemma_methods_from_none(data@, off as int, (k + 1) as nat, count as nat); }
                return Err(e);
            },
        };
        let (code_off, c) = match read_uleb128(data, o + a + b) {
            Ok(p) => p,
            Err(e) => {
                proof { lemma_methods_from_none(data@, off as int, (k + 1) as nat, count as nat); }
                return Err(e);
            },
        };
        method_idx = method_idx.wrapping_add(diff);
        let code = if code_off == 0 {
            None
        } else {
            match parse_code_item(data, code_off as u64) {
                Ok(ci) => Some(ci),
                Err(e) => {
                    proof { lemma_methods_from_none(data@, off as int, (k + 1) as nat, count as nat); }
                    return Err(e);
                },
            }
        };
        let ghost before = out@;
        out.push(EncodedMethod { method_idx, access_flags: access, code });
        assert(encoded_views(out@) =~= encoded_views(before).push(out@[before.len() as int]@));
        o = o + a + b + c;
        k = k + 1;
    }
    Ok((out, o))
}

#[verifier::loop_isolation(false)]
fn parse_class_data(data: &[u8], off: u64) -> (r: Result<(Vec<EncodedMethod>, Vec<EncodedMethod>), AndroidError>)
    requires
        off <= u32::MAX,
    ensures
        match r {
            Ok(p) => class_data_at(data@, off as int) == Some((encoded_views(p.0@), encoded_views(p.1@))),
            Err(e) => class_data_at(data@, off as int) is None && e is Dex,
        },
{
    let (static_fields_size, n1) = match read_uleb128(data, off) { Ok(p) => p, Err(e) => return Err(e) };
    let o1 = off + n1;
    let (instance_fields_size, n2) = match read_uleb128(data, o1) { Ok(p) => p, Err(e) => return Err(e) };
    let o2 = o1 + n2;
    let (direct_methods_size, n3) = match read_uleb128(data, o2) { Ok(p) => p, Err(e) => return Err(e) };
    let o3 = o2 + n3;
    let (virtual_methods_size, n4) = match read_uleb128(data, o3) { Ok(p) => p, Err(e) => return Err(e) };
    let start = o3 + n4;
    let total: u64 = static_fields_size as u64 + instance_fields_size as u64;
    let mut o = start;
    let mut k: u64 = 0;
    while k < total
        invariant
            k <= total,
            o <= data.len(),
            skip_fields(data@, start as int, k as nat) == Some(o as int),
        decreases total - k,
    {
        let a = match read_uleb128(data, o) {
            Ok(p) => p.1,
            Err(e) => {
                proof { lemma_skip_fields_none(data@, start as int, (k + 1) as nat, total as nat); }
                return Err(e);
            },
        };
        let b = match read_uleb128(data, o + a) {
            Ok(p) => p.1,
            Err(e) => {
                proof { lemma_skip_fields_none(data@, start as int, (k + 1) as nat, total as nat); }
                return Err(e);
            },
        };
        o = o + a + b;
        k = k + 1;
    }
    let (direct, o_direct) = match parse_encoded_methods(data, o, direct_methods_size) {
        Ok(p) => p,
        Err(e) => return Err(e),
    };
    let (virtuals, _) = match parse_encoded_methods(data, o_direct, virtual_methods_size) {
        Ok(p) => p,
        Err(e) => return Err(e),
    };
    Ok((direct, virtuals))
}

fn clone_strs(v: &Vec<String>) -> (r: Vec<String>)
    ensures
        strs(r@) == strs(v@),
{
    let mut out: Vec<String> = Vec::new();
    let mut i: usize = 0;
    while i < v.len()
        invariant
            i <= v.len(),
            out@.len() == i,
            forall|k: int| 0 <= k < i ==> #[trigger] out@[k]@ == v@[k]@,
        decreases v.len() - i,
    {
        out.push(v[i].clone());
        i = i + 1;
    }
    assert(strs(out@) =~= strs(v@));
    out
}

impl ProtoId {
    /// A copy of this prototype.
    pub fn duplicate(&self) -> (r: ProtoId)
        ensures
            r@ == self@,
    {
        ProtoId { shorty: self.shorty.clone(), return_type: self.return_type.clone(), parameters: clone_strs(&self.parameters) }
    }
}

impl MethodId {
    /// A copy of this method reference.
    pub fn duplicate(&self) -> (r: MethodId)
        ensures
            r@ == self@,
    {
        MethodId { class: self.class.clone(), name: self.name.clone(), proto: self.proto.duplicate() }
    }
}

impl CodeItem {
    /// A copy of this code item.
    pub fn duplicate(&self) -> (r: CodeItem)
        ensures
            r@ == self@,
    {
        CodeItem {
            registers_size: self.registers_size,
            ins_size: self.ins_size,
            outs_size: self.outs_size,
            insns: self.insns.clone(),
        }
    }
}


// ── Table readers ─────────────────────────────────────────────────────

fn parse_strings(data: &[u8], n: u32, ids_off: u32) -> (r: Result<Vec<String>, AndroidError>)
    ensures
        match r {
            Ok(v) => (forall|i: int| 0 <= i < n ==> #[trigger] string_entry(data@, ids_off as int, i) is Some)
                && strs(v@) == Seq::new(n as nat, |i: int| string_entry(data@, ids_off as int, i)->Some_0),
            Err(e) => !(forall|i: int| 0 <= i < n ==> #[trigger] string_entry(data@, ids_off as int, i) is Some) && e is Dex,
        },
{
    let mut strings: Vec<String> = Vec::new();
    let mut i: u32 = 0;
    while i < n
        invariant
            i <= n,
            strings@.len() == i,
            forall|k: int| 0 <= k < i ==> #[trigger] string_entry(data@, ids_off as int, k) is Some
                && strings@[k]@ == string_entry(data@, ids_off as int, k)->Some_0,
        decreases n - i,
    {
        let off = match read_u32(data, ids_off as u64 + i as u64 * 4) {
            Ok(v) => v,
            Err(e) => {
                assert(string_entry(data@, ids_off as int, i as int) is None);
                return Err(e);
            },
        };
        let s = match read_mutf8_string(data, off as u64) {
            Ok(v) => v,
            Err(e) => {
                assert(string_entry(data@, ids_off as int, i as int) is None);
                return Err(e);
            },
        };
        strings.push(s);
        i = i + 1;
    }
    assert(strs(strings@) =~= Seq::new(n as nat, |i: int| string_entry(data@, ids_off as int, i)->Some_0));
    Ok(strings)
}

/// The string at index `k` of `names`, or an error with `msg`.
fn lookup_exec(names: &Vec<String>, k: u64, msg: &str) -> (r: Result<String, AndroidError>)
    ensures
        match r {
            Ok(s) => lookup(strs(names@), k as int) == Some(s@),
            Err(e) => lookup(strs(names@), k as int) is None && (e matches AndroidError::Dex(m) && m@ == msg@),
        },
{
    if k < names.len() as u64 {
        Ok(names[k as usize].clone())
    } else {
        Err(dex_error(msg))
    }
}

fn lookup_or_default(names: &Vec<String>, k: u64) -> (r: String)
    ensures
        r@ == lookup_or_empty(strs(names@), k as int),
{
    if k < names.len() as u64 {
        names[k as usize].clone()
    } else {
        String::new()
    }
}

fn parse_types(data: &[u8], strings: &Vec<String>, n: u32, ids_off: u32) -> (r: Result<Vec<String>, AndroidError>)
    ensures
        match r {
            Ok(v) => (forall|i: int| 0 <= i < n ==> #[trigger] type_entry(data@, strs(strings@), ids_off as int, i) is Some)
                && strs(v@) == Seq::new(n as nat, |i: int| type_entry(data@, strs(strings@), ids_off as int, i)->Some_0),
            Err(e) => !(forall|i: int| 0 <= i < n ==> #[trigger] type_entry(data@, strs(strings@), ids_off as int, i) is Some)
                && e is Dex,
        },
{
    let ghost ss = strs(strings@);
    let mut types: Vec<String> = Vec::new();
    let mut i: u32 = 0;
    while i < n
        invariant
            i <= n,
            ss == strs(strings@),
            types@.len() == i,
            forall|k: int| 0 <= k < i ==> #[trigger] type_entry(data@, ss, ids_off as int, k) is Some
                && types@[k]@ == type_entry(data@, ss, ids_off as int, k)->Some_0,
        decreases n - i,
    {
        let idx = match read_u32(data, ids_off as u64 + i as u64 * 4) {
            Ok(v) => v,
            Err(e) => {
                assert(type_entry(data@, ss, ids_off as int, i as int) is None);
                return Err(e);
            },
        };
        let t = match lookup_exec(strings, idx as u64, "bad type string idx") {
            Ok(v) => v,
            Err(e) => {
                assert(type_entry(data@, ss, ids_off as int, i as int) is None);
                return Err(e);
            },
        };
        types.push(t);
        i = i + 1;
    }
    assert(strs(types@) =~= Seq::new(n as nat, |i: int| type_entry(data@, ss, ids_off as int, i)->Some_0));
    Ok(types)
}

fn parse_params(data: &[u8], types: &Vec<String>, params_off: u32) -> (r: Result<Vec<String>, AndroidError>)
    ensures
        match r {
            Ok(v) => params_at(data@, strs(types@), params_off as int) == Some(strs(v@)),
            Err(e) => params_at(data@, strs(types@), params_off as int) is None && e is Dex,
        },
{
    let ghost ts = strs(types@);
    let mut parameters: Vec<String> = Vec::new();
    if params_off != 0 {
        let size = match read_u32(data, params_off as u64) {
            Ok(v) => v,
            Err(e) => return Err(e),
        };
        let mut p: u32 = 0;
        while p < size
            invariant
                params_off != 0,
                u32_at(data@, params_off as int) == Some(size),
                ts == strs(types@),
                p <= size,
                parameters@.len() == p,
                forall|k: int| 0 <= k < p ==> #[trigger] param_entry(data@, ts, params_off as int, k) is Some
                    && parameters@[k]@ == param_entry(data@, ts, params_off as int, k)->Some_0,
            decreases size - p,
        {
            let tidx = match read_u16(data, params_off as u64 + 4 + p as u64 * 2) {
                Ok(v) => v,
                Err(e) => {
                    assert(param_entry(data@, ts, params_off as int, p as int) is None);
                    return Err(e);
                },
            };
            let t = match lookup_exec(types, tidx as u64, "bad proto param") {
                Ok(v) => v,
                Err(e) => {
                    assert(param_entry(data@, ts, params_off as int, p as int) is None);
                    return Err(e);
                },
            };
            parameters.push(t);
            p = p + 1;
        }
        assert(strs(parameters@) =~= Seq::new(size as nat, |k: int| param_entry(data@, ts, params_off as int, k)->Some_0));
    } else {
        assert(strs(parameters@) =~= Seq::<Seq<char>>::empty());
    }
    Ok(parameters)
}

fn parse_protos(data: &[u8], strings: &Vec<String>, types: &Vec<String>, n: u32, ids_off: u32) -> (r: Result<Vec<ProtoId>, AndroidError>)
    ensures
        match r {
            Ok(v) => (forall|i: int| 0 <= i < n ==> #[trigger] proto_entry(data@, strs(strings@), strs(types@), ids_off as int, i) is Some)
                && proto_views(v@) == Seq::new(n as nat, |i: int| proto_entry(data@, strs(strings@), strs(types@), ids_off as int, i)->Some_0),
            Err(e) => !(forall|i: int| 0 <= i < n ==> #[trigger] proto_entry(data@, strs(strings@), strs(types@), ids_off as int, i) is Some)
                && e is Dex,
        },
{
    let ghost ss = strs(strings@);
    let ghost ts = strs(types@);
    let mut protos: Vec<ProtoId> = Vec::new();
    let mut i: u32 = 0;
    while i < n
        invariant
            i <= n,
            ss == strs(strings@),
            ts == strs(types@),
            protos@.len() == i,
            forall|k: int| 0 <= k < i ==> #[trigger] proto_entry(data@, ss, ts, ids_off as int, k) is Some
                && protos@[k]@ == proto_entry(data@, ss, ts, ids_off as int, k)->Some_0,
        decreases n - i,
    {
        let base = ids_off as u64 + i as u64 * 12;
        let shorty_idx = match read_u32(data, base) {
            Ok(v) => v,
            Err(e) => {
                assert(proto_entry(data@, ss, ts, ids_off as int, i as int) is None);
                return Err(e);
            },
        };
        let return_idx = match read_u32(data, base + 4) {
            Ok(v) => v,
            Err(e) => {
                assert(proto_entry(data@, ss, ts, ids_off as int, i as int) is None);
                return Err(e);
            },
        };
        let params_off = match read_u32(data, base + 8) {
            Ok(v) => v,
            Err(e) => {
                assert(proto_entry(data@, ss, ts, ids_off as int, i as int) is None);
                return Err(e);
            },
        };
        let shorty = match lookup_exec(strings, shorty_idx as u64, "bad proto shorty") {
            Ok(v) => v,
            Err(e) => {
                assert(proto_entry(data@, ss, ts, ids_off as int, i as int) is None);
                return Err(e);
            },
        };
        let return_type = match lookup_exec(types, return_idx as u64, "bad proto return") {
            Ok(v) => v,
            Err(e) => {
                assert(proto_entry(data@, ss, ts, ids_off as int, i as int) is None);
                return Err(e);
            },
        };
        let parameters = match parse_params(data, types, params_off) {
            Ok(v) => v,
            Err(e) => {
                assert(proto_entry(data@, ss, ts, ids_off as int, i as int) is None);
                return Err(e);
            },
        };
        protos.push(ProtoId { shorty, return_type, parameters });
        i = i + 1;
    }
    assert(proto_views(protos@) =~= Seq::new(n as nat, |i: int| proto_entry(data@, ss, ts, ids_off as int, i)->Some_0));
    Ok(protos)
}

fn parse_fields(data: &[u8], strings: &Vec<String>, types: &Vec<String>, n: u32, ids_off: u32) -> (r: Result<Vec<FieldId>, AndroidError>)
    ensures
        match r {
            Ok(v) => (forall|i: int| 0 <= i < n ==> #[trigger] field_entry(data@, strs(strings@), strs(types@), ids_off as int, i) is Some)
                && v@.map_values(|f: FieldId| f@) == Seq::new(n as nat, |i: int| field_entry(data@, strs(strings@), strs(types@), ids_off as int, i)->Some_0),
            Err(e) => !(forall|i: int| 0 <= i < n ==> #[trigger] field_entry(data@, strs(strings@), strs(types@), ids_off as int, i) is Some)
                && e is Dex,
        },
{
    let ghost ss = strs(strings@);
    let ghost ts = strs(types@);
    let mut fields: Vec<FieldId> = Vec::new();
    let mut i: u32 = 0;
    while i < n
        invariant
            i <= n,
            ss == strs(strings@),
            ts == strs(types@),
            fields@.len() == i,
            forall|k: int| 0 <= k < i ==> #[trigger] field_entry(data@, ss, ts, ids_off as int, k) is Some
                && fields@[k]@ == field_entry(data@, ss, ts, ids_off as int, k)->Some_0,
        decreases n - i,
    {
        let base = ids_off as u64 + i as u64 * 8;
        let class_idx = match read_u16(data, base) {
            Ok(v) => v,
            Err(e) => {
                assert(field_entry(data@, ss, ts, ids_off as int, i as int) is None);
                return Err(e);
            },
        };
        let type_idx = match read_u16(data, base + 2) {
            Ok(v) => v,
            Err(e) => {
                assert(field_entry(data@, ss, ts, ids_off as int, i as int) is None);
                return Err(e);
            },
        };
        let name_idx = match read_u32(data, base + 4) {
            Ok(v) => v,
            Err(e) => {
                assert(field_entry(data@, ss, ts, ids_off as int, i as int) is None);
                return Err(e);
            },
        };
        fields.push(
            FieldId {
                class: lookup_or_default(types, class_idx as u64),
                type_desc: lookup_or_default(types, type_idx as u64),
                name: lookup_or_default(strings, name_idx as u64),
            },
        );
        i = i + 1;
    }
    assert(fields@.map_values(|f: FieldId| f@) =~= Seq::new(n as nat, |i: int| field_entry(data@, ss, ts, ids_off as int, i)->Some_0));
    Ok(fields)
}

fn parse_method_ids(
    data: &[u8],
    strings: &Vec<String>,
    types: &Vec<String>,
    protos: &Vec<ProtoId>,
    n: u32,
    ids_off: u32,
) -> (r: Result<Vec<MethodId>, AndroidError>)
    ensures
        match r {
            Ok(v) => (forall|i: int| 0 <= i < n ==> #[trigger] method_entry(data@, strs(strings@), strs(types@), proto_views(protos@), ids_off as int, i) is Some)
                && v@.map_values(|m: MethodId| m@) == Seq::new(n as nat, |i: int| method_entry(data@, strs(strings@), strs(types@), proto_views(protos@), ids_off as int, i)->Some_0),
            Err(e) => !(forall|i: int| 0 <= i < n ==> #[trigger] method_entry(data@, strs(strings@), strs(types@), proto_views(protos@), ids_off as int, i) is Some)
                && e is Dex,
        },
{
    let ghost ss = strs(strings@);
    let ghost ts = strs(types@);
    let ghost ps = proto_views(protos@);
    let mut methods: Vec<MethodId> = Vec::new();
    let mut i: u32 = 0;
    while i < n
        invariant
            i <= n,
            ss == strs(strings@),
            ts == strs(types@),
            ps == proto_views(protos@),
            methods@.len() == i,
            forall|k: int| 0 <= k < i ==> #[trigger] method_entry(data@, ss, ts, ps, ids_off as int, k) is Some
                && methods@[k]@ == method_entry(data@, ss, ts, ps, ids_off as int, k)->Some_0,
        decreases n - i,
    {
        let base = ids_off as u64 + i as u64 * 8;
        let class_idx = match read_u16(data, base) {
            Ok(v) => v,
            Err(e) => {
                assert(method_entry(data@, ss, ts, ps, ids_off as int, i as int) is None);
                return Err(e);
            },
        };
        let proto_idx = match read_u16(data, base + 2) {
            Ok(v) => v,
            Err(e) => {
                assert(method_entry(data@, ss, ts, ps, ids_off as int, i as int) is None);
                return Err(e);
            },
        };
        let name_idx = match read_u32(data, base + 4) {
            Ok(v) => v,
            Err(e) => {
                assert(method_entry(data@, ss, ts, ps, ids_off as int, i as int) is None);
                return Err(e);
            },
        };
        if proto_idx as usize >= protos.len() {
            assert(method_entry(data@, ss, ts, ps, ids_off as int, i as int) is None);
            return Err(dex_error("bad method proto"));
        }
        let proto = protos[proto_idx as usize].duplicate();
        methods.push(
            MethodId {
                class: lookup_or_default(types, class_idx as u64),
                name: lookup_or_default(strings, name_idx as u64),
                proto,
            },
        );
        i = i + 1;
    }
    assert(methods@.map_values(|m: MethodId| m@) =~= Seq::new(n as nat, |i: int| method_entry(data@, ss, ts, ps, ids_off as int, i)->Some_0));
    Ok(methods)
}

fn parse_classes(data: &[u8], types: &Vec<String>, n: u32, defs_off: u32) -> (r: Result<Vec<ClassDef>, AndroidError>)
    ensures
        match r {
            Ok(v) => (forall|i: int| 0 <= i < n ==> #[trigger] class_entry(data@, strs(types@), defs_off as int, i) is Some)
                && v@.map_values(|c: ClassDef| c@) == Seq::new(n as nat, |i: int| class_entry(data@, strs(types@), defs_off as int, i)->Some_0),
            Err(e) => !(forall|i: int| 0 <= i < n ==> #[trigger] class_entry(data@, strs(types@), defs_off as int, i) is Some)
                && e is Dex,
        },
{
    let ghost ts = strs(types@);
    let mut classes: Vec<ClassDef> = Vec::new();
    let mut i: u32 = 0;
    while i < n
        invariant
            i <= n,
            ts == strs(types@),
            classes@.len() == i,
            forall|k: int| 0 <= k < i ==> #[trigger] class_entry(data@, ts, defs_off as int, k) is Some
                && classes@[k]@ == class_entry(data@, ts, defs_off as int, k)->Some_0,
        decreases n - i,
    {
        let base = defs_off as u64 + i as u64 * 32;
        let class_idx = match read_u32(data, base) {
            Ok(v) => v,
            Err(e) => {
                assert(class_entry(data@, ts, defs_off as int, i as int) is None);
                return Err(e);
            },
        };
        let access_flags = match read_u32(data, base + 4) {
            Ok(v) => v,
            Err(e) => {
                assert(class_entry(data@, ts, defs_off as int, i as int) is None);
                return Err(e);
            },
        };
        let superclass_idx = match read_u32(data, base + 8) {
            Ok(v) => v,
            Err(e) => {
                assert(class_entry(data@, ts, defs_off as int, i as int) is None);
                return Err(e);
            },
        };
        let class_data_off = match read_u32(data, base + 24) {
            Ok(v) => v,
            Err(e) => {
                assert(class_entry(data@, ts, defs_off as int, i as int) is None);
                return Err(e);
            },
        };
        let descriptor = match lookup_exec(types, class_idx as u64, "bad class def") {
            Ok(v) => v,
            Err(e) => {
                assert(class_entry(data@, ts, defs_off as int, i as int) is None);
                return Err(e);
            },
        };
        let superclass = if superclass_idx == 0xffff_ffff {
            None
        } else if (superclass_idx as u64) < types.len() as u64 {
            Some(types[superclass_idx as usize].clone())
        } else {
            None
        };
        let (direct_methods, virtual_methods) = if class_data_off == 0 {
            (Vec::new(), Vec::new())
        } else {
            match parse_class_data(data, class_data_off as u64) {
                Ok(p) => p,
                Err(e) => {
                    assert(class_entry(data@, ts, defs_off as int, i as int) is None);
                    return Err(e);
                },
            }
        };
        let c = ClassDef { descriptor, access_flags, superclass, class_data_off, direct_methods, virtual_methods };
        proof {
            if class_data_off == 0 {
                assert(encoded_views(c.direct_methods@) =~= Seq::<EncodedView>::empty());
                assert(encoded_views(c.virtual_methods@) =~= Seq::<EncodedView>::empty());
            }
            assert(c@ == class_entry(data@, ts, defs_off as int, i as int)->Some_0);
        }
        classes.push(c);
        i = i + 1;
    }
    assert(classes@.map_values(|c: ClassDef| c@) =~= Seq::new(n as nat, |i: int| class_entry(data@, ts, defs_off as int, i)->Some_0));
    Ok(classes)
}

impl DexFile {
    /// Parses a DEX file held in memory.
    pub fn parse(data: &[u8]) -> (r: Result<DexFile, AndroidError>)
        ensures
            data@.len() < 0x70 ==> (r matches Err(AndroidError::Dex(m)) && m@ == "file too small"@),
            data@.len() >= 0x70 && !dex_magic_ok(data@) ==> (r matches Err(AndroidError::Dex(m)) && m@ == "bad magic"@),
            data@.len() >= 0x70 && dex_magic_ok(data@) && hdr(data@, 40) != 0x1234_5678 ==> (r matches Err(
                AndroidError::Dex(m),
            ) && m@ == "unsupported endian"@),
            header_ok(data@) && tables_ok(data@) ==> (r matches Ok(dex) && dex@ == dex_of(data@)),
            header_ok(data@) && !tables_ok(data@) ==> (r matches Err(AndroidError::Dex(_))),
    {
        if data.len() < 0x70 {
            return Err(dex_error("file too small"));
        }
        if !(data[0] == 0x64 && data[1] == 0x65 && data[2] == 0x78 && data[3] == 0x0a) {
            return Err(dex_error("bad magic"));
        }
        let ghost d = data@;
        let endian = match read_u32(data, 40) { Ok(v) => v, Err(e) => return Err(e) };
        if endian != 0x1234_5678 {
            return Err(dex_error("unsupported endian"));
        }
        let string_ids_size = match read_u32(data, 56) { Ok(v) => v, Err(e) => return Err(e) };
        let string_ids_off = match read_u32(data, 60) { Ok(v) => v, Err(e) => return Err(e) };
        let type_ids_size = match read_u32(data, 64) { Ok(v) => v, Err(e) => return Err(e) };
        let type_ids_off = match read_u32(data, 68) { Ok(v) => v, Err(e) => return Err(e) };
        let proto_ids_size = match read_u32(data, 72) { Ok(v) => v, Err(e) => return Err(e) };
        let proto_ids_off = match read_u32(data, 76) { Ok(v) => v, Err(e) => return Err(e) };
        let field_ids_size = match read_u32(data, 80) { Ok(v) => v, Err(e) => return Err(e) };
        let field_ids_off = match read_u32(data, 84) { Ok(v) => v, Err(e) => return Err(e) };
        let method_ids_size = match read_u32(data, 88) { Ok(v) => v, Err(e) => return Err(e) };
        let method_ids_off = match read_u32(data, 92) { Ok(v) => v, Err(e) => return Err(e) };
        let class_defs_size = match read_u32(data, 96) { Ok(v) => v, Err(e) => return Err(e) };
        let class_defs_off = match read_u32(data, 100) { Ok(v) => v, Err(e) => return Err(e) };

        let strings = match parse_strings(data, string_ids_size, string_ids_off) {
            Ok(v) => v,
            Err(e) => return Err(e),
        };
        assert(strs(strings@) == strings_of(d));
        let types = match parse_types(data, &strings, type_ids_size, type_ids_off) {
            Ok(v) => v,
            Err(e) => return Err(e),
        };
        assert(strs(types@) == types_of(d));
        let protos = match parse_protos(data, &strings, &types, proto_ids_size, proto_ids_off) {
            Ok(v) => v,
            Err(e) => return Err(e),
        };
        assert(proto_views(protos@) == protos_of(d));
        let fields = match parse_fields(data, &strings, &types, field_ids_size, field_ids_off) {
            Ok(v) => v,
            Err(e) => return Err(e),
        };
        let methods = match parse_method_ids(data, &strings, &types, &protos, method_ids_size, method_ids_off) {
            Ok(v) => v,
            Err(e) => return Err(e),
        };
        let classes = match parse_classes(data, &types, class_defs_size, class_defs_off) {
            Ok(v) => v,
            Err(e) => return Err(e),
        };
        let dex = DexFile { data: vstd::slice::slice_to_vec(data), strings, types, protos, fields, methods, classes };
        assert(dex@ =~= dex_of(d));
        Ok(dex)
    }
}


// ── Lookups ───────────────────────────────────────────────────────────

/// `ci` is the first class whose descriptor is `class`.
pub open spec fn first_class(classes: Seq<ClassView>, class: Seq<char>, ci: int) -> bool {
    0 <= ci < classes.len() && classes[ci].descriptor == class && forall|j: int|
        0 <= j < ci ==> #[trigger] classes[j].descriptor != class
}

/// The direct methods of a class followed by its virtual methods.
pub open spec fn all_methods(c: ClassView) -> Seq<EncodedView> {
    c.direct_methods + c.virtual_methods
}

/// Whether the method reference of `m` is called `name`.
pub open spec fn named(methods: Seq<MethodView>, m: EncodedView, name: Seq<char>) -> bool {
    (m.method_idx as int) < methods.len() && methods[m.method_idx as int].name == name
}

/// `k` is the first of `ms` called `name`.
pub open spec fn first_named(methods: Seq<MethodView>, ms: Seq<EncodedView>, name: Seq<char>, k: int) -> bool {
    0 <= k < ms.len() && named(methods, ms[k], name) && forall|j: int|
        0 <= j < k ==> !named(methods, #[trigger] ms[j], name)
}

impl DexFile {
    /// The index of the first class whose descriptor is `class`, or the
    /// number of classes.
    fn class_index(&self, class: &str) -> (r: usize)
        ensures
            r <= self@.classes.len(),
            r < self@.classes.len() ==> first_class(self@.classes, class@, r as int),
            r == self@.classes.len() ==> forall|j: int| 0 <= j < r ==> #[trigger] self@.classes[j].descriptor != class@,
    {
        let ghost v = self@;
        let mut ci: usize = 0;
        while ci < self.classes.len()
            invariant
                v == self@,
                ci <= self.classes.len(),
                forall|j: int| 0 <= j < ci ==> #[trigger] v.classes[j].descriptor != class@,
            decreases self.classes.len() - ci,
        {
            assert(v.classes[ci as int] == self.classes@[ci as int]@);
            if str_eq(self.classes[ci].descriptor.as_str(), class) {
                return ci;
            }
            ci = ci + 1;
        }
        ci
    }

    fn is_named(&self, m: &EncodedMethod, name: &str) -> (r: bool)
        ensures
            r == named(self@.methods, m@, name@),
    {
        (m.method_idx as usize) < self.methods.len() && str_eq(self.methods[m.method_idx as usize].name.as_str(), name)
    }

    /// The first method called `name` of the first class whose descriptor
    /// is `class`, direct methods before virtual ones.
    pub fn find_method(&self, class: &str, name: &str) -> (r: Option<&EncodedMethod>)
        ensures
            match r {
                Some(m) => exists|ci: int, k: int|
                    first_class(self@.classes, class@, ci) && first_named(self@.methods, all_methods(self@.classes[ci]), name@, k)
                        && m@ == #[trigger] all_methods(self@.classes[ci])[k],
                None => forall|ci: int, k: int|
                    first_class(self@.classes, class@, ci) && 0 <= k < all_methods(self@.classes[ci]).len() ==> !named(
                        self@.methods,
                        #[trigger] all_methods(self@.classes[ci])[k],
                        name@,
                    ),
            },
            r is Some == find_method_spec(self@, class@, name@) is Some,
    {
        let ghost v = self@;
        let ci = self.class_index(class);
        if ci == self.classes.len() {
            proof {
                if exists|ci2: int, k: int|
                    first_class(v.classes, class@, ci2) && first_named(v.methods, all_methods(v.classes[ci2]), name@, k) {
                    let (ci2, k) = choose|ci2: int, k: int|
                        first_class(v.classes, class@, ci2) && first_named(v.methods, all_methods(v.classes[ci2]), name@, k);
                    assert(v.classes[ci2].descriptor != class@);
                }
            }
            return None;
        }
        let c = &self.classes[ci];
        assert(first_class(v.classes, class@, ci as int));
        let ghost all = all_methods(v.classes[ci as int]);
        assert(v.classes[ci as int] == c@);
        let mut j: usize = 0;
        while j < c.direct_methods.len()
            invariant
                v == self@,
                first_class(v.classes, class@, ci as int),
                c@ == v.classes[ci as int],
                all == all_methods(c@),
                j <= c.direct_methods.len(),
                forall|t: int| 0 <= t < j ==> !named(v.methods, #[trigger] all[t], name@),
            decreases c.direct_methods.len() - j,
        {
            assert(all[j as int] == c.direct_methods@[j as int]@);
            if self.is_named(&c.direct_methods[j], name) {
                assert(first_named(v.methods, all, name@, j as int));
                assert(c.direct_methods@[j as int]@ == all_methods(self@.classes[ci as int])[j as int]);
                proof {
                    lemma_find_method_unique(v, class@, name@, ci as int, j as int);
                }
                return Some(&c.direct_methods[j]);
            }
            j = j + 1;
        }
        let nd = c.direct_methods.len();
        let mut j: usize = 0;
        while j < c.virtual_methods.len()
            invariant
                v == self@,
                first_class(v.classes, class@, ci as int),
                c@ == v.classes[ci as int],
                all == all_methods(c@),
                nd == c.direct_methods.len(),
                j <= c.virtual_methods.len(),
                forall|t: int| 0 <= t < nd + j ==> !named(v.methods, #[trigger] all[t], name@),
            decreases c.virtual_methods.len() - j,
        {
            assert(all[nd + j] == c.virtual_methods@[j as int]@);
            if self.is_named(&c.virtual_methods[j], name) {
                assert(first_named(v.methods, all, name@, nd + j));
                assert(c.virtual_methods@[j as int]@ == all_methods(self@.classes[ci as int])[nd + j]);
                proof {
                    lemma_find_method_unique(v, class@, name@, ci as int, nd + j);
                }
                return Some(&c.virtual_methods[j]);
            }
            j = j + 1;
        }
        proof {
            assert forall|ci2: int, k: int|
                first_class(v.classes, class@, ci2) && 0 <= k < all_methods(v.classes[ci2]).len() implies !named(
                    v.methods,
                    #[trigger] all_methods(v.classes[ci2])[k],
                    name@,
                ) by {
                assert(ci2 == ci);
            }
            if exists|ci2: int, k: int|
                first_class(v.classes, class@, ci2) && first_named(v.methods, all_methods(v.classes[ci2]), name@, k) {
                let (ci2, k) = choose|ci2: int, k: int|
                    first_class(v.classes, class@, ci2) && first_named(v.methods, all_methods(v.classes[ci2]), name@, k);
                assert(named(v.methods, all_methods(v.classes[ci2])[k], name@));
            }
        }
        None
    }

    /// The method reference at index `idx`.
    pub fn method_id(&self, idx: u32) -> (r: Option<&MethodId>)
        ensures
            match r {
                Some(m) => (idx as int) < self@.methods.len() && m@ == self@.methods[idx as int],
                None => idx as int >= self@.methods.len(),
            },
    {
        if (idx as usize) < self.methods.len() {
            Some(&self.methods[idx as usize])
        } else {
            None
        }
    }

    /// The string at index `idx`.
    pub fn string(&self, idx: u32) -> (r: Option<&str>)
        ensures
            match r {
                Some(s) => (idx as int) < self@.strings.len() && s@ == self@.strings[idx as int],
                None => idx as int >= self@.strings.len(),
            },
    {
        if (idx as usize) < self.strings.len() {
            Some(self.strings[idx as usize].as_str())
        } else {
            None
        }
    }
}


/// The method `find_method` finds, if any.
pub open spec fn find_method_spec(v: DexView, class: Seq<char>, name: Seq<char>) -> Option<EncodedView> {
    if exists|ci: int, k: int| first_class(v.classes, class, ci) && first_named(v.methods, all_methods(v.classes[ci]), name, k) {
        let (ci, k) = choose|ci: int, k: int|
            first_class(v.classes, class, ci) && first_named(v.methods, all_methods(v.classes[ci]), name, k);
        Some(all_methods(v.classes[ci])[k])
    } else {
        None
    }
}

/// There is at most one first class and one first method of a name.
pub proof fn lemma_find_method_unique(v: DexView, class: Seq<char>, name: Seq<char>, ci: int, k: int)
    requires
        first_class(v.classes, class, ci),
        first_named(v.methods, all_methods(v.classes[ci]), name, k),
    ensures
        find_method_spec(v, class, name) == Some(all_methods(v.classes[ci])[k]),
{
    let (ci2, k2) = choose|ci2: int, k2: int|
        first_class(v.classes, class, ci2) && first_named(v.methods, all_methods(v.classes[ci2]), name, k2);
    if ci2 < ci {
        assert(v.classes[ci2].descriptor != class);
    }
    if ci < ci2 {
        assert(v.classes[ci].descriptor != class);
    }
    assert(ci2 == ci);
    if k2 < k {
        assert(!named(v.methods, all_methods(v.classes[ci])[k2], name));
    }
    if k < k2 {
        assert(!named(v.methods, all_methods(v.classes[ci])[k], name));
    }
}


// ── Copies ────────────────────────────────────────────────────────────

impl FieldId {
    /// A copy of this field reference.
    pub fn duplicate(&self) -> (r: FieldId)
        ensures
            r@ == self@,
    {
        FieldId { class: self.class.clone(), type_desc: self.type_desc.clone(), name: self.name.clone() }
    }
}

impl EncodedMethod {
    /// A copy of this method entry.
    pub fn duplicate(&self) -> (r: EncodedMethod)
        ensures
            r@ == self@,
    {
        let code = match &self.code {
            Some(c) => Some(c.duplicate()),
            None => None,
        };
        EncodedMethod { method_idx: self.method_idx, access_flags: self.access_flags, code }
    }
}

fn duplicate_methods(v: &Vec<EncodedMethod>) -> (r: Vec<EncodedMethod>)
    ensures
        encoded_views(r@) == encoded_views(v@),
{
    let mut out: Vec<EncodedMethod> = Vec::new();
    let mut i: usize = 0;
    while i < v.len()
        invariant
            i <= v.len(),
            out@.len() == i,
            forall|k: int| 0 <= k < i ==> #[trigger] out@[k]@ == v@[k]@,
        decreases v.len() - i,
    {
        out.push(v[i].duplicate());
        i = i + 1;
    }
    assert(encoded_views(out@) =~= encoded_views(v@));
    out
}

impl ClassDef {
    /// A copy of this class definition.
    pub fn duplicate(&self) -> (r: ClassDef)
        ensures
            r@ == self@,
    {
        let superclass = match &self.superclass {
            Some(s) => Some(s.clone()),
            None => None,
        };
        ClassDef {
            descriptor: self.descriptor.clone(),
            access_flags: self.access_flags,
            superclass,
            class_data_off: self.class_data_off,
            direct_methods: duplicate_methods(&self.direct_methods),
            virtual_methods: duplicate_methods(&self.virtual_methods),
        }
    }
}

impl DexFile {
    /// A copy of this DEX file.
    pub fn duplicate(&self) -> (r: DexFile)
        ensures
            r@ == self@,
    {
        let mut protos: Vec<ProtoId> = Vec::new();
        let mut i: usize = 0;
        while i < self.protos.len()
            invariant
                i <= self.protos.len(),
                protos@.len() == i,
                forall|k: int| 0 <= k < i ==> #[trigger] protos@[k]@ == self.protos@[k]@,
            decreases self.protos.len() - i,
        {
            protos.push(self.protos[i].duplicate());
            i = i + 1;
        }
        let mut fields: Vec<FieldId> = Vec::new();
        let mut i: usize = 0;
        while i < self.fields.len()
            invariant
                i <= self.fields.len(),
                fields@.len() == i,
                forall|k: int| 0 <= k < i ==> #[trigger] fields@[k]@ == self.fields@[k]@,
            decreases self.fields.len() - i,
        {
            fields.push(self.fields[i].duplicate());
            i = i + 1;
        }
        let mut methods: Vec<MethodId> = Vec::new();
        let mut i: usize = 0;
        while i < self.methods.len()
            invariant
                i <= self.methods.len(),
                methods@.len() == i,
                forall|k: int| 0 <= k < i ==> #[trigger] methods@[k]@ == self.methods@[k]@,
            decreases self.methods.len() - i,
        {
            methods.push(self.methods[i].duplicate());
            i = i + 1;
        }
        let mut classes: Vec<ClassDef> = Vec::new();
        let mut i: usize = 0;
        while i < self.classes.len()
            invariant
                i <= self.classes.len(),
                classes@.len() == i,
                forall|k: int| 0 <= k < i ==> #[trigger] classes@[k]@ == self.classes@[k]@,
            decreases self.classes.len() - i,
        {
            classes.push(self.classes[i].duplicate());
            i = i + 1;
        }
        let r = DexFile {
            data: self.data.clone(),
            strings: clone_strs(&self.strings),
            types: clone_strs(&self.types),
            protos,
            fields,
            methods,
            classes,
        };
        assert(proto_views(r.protos@) =~= proto_views(self.protos@));
        assert(r.fields@.map_values(|f: FieldId| f@) =~= self.fields@.map_values(|f: FieldId| f@));
        assert(r.methods@.map_values(|m: MethodId| m@) =~= self.methods@.map_values(|m: MethodId| m@));
        assert(r.classes@.map_values(|c: ClassDef| c@) =~= self.classes@.map_values(|c: ClassDef| c@));
        r
    }
}

} // verus!
