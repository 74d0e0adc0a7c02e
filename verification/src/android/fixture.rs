//! Minimal DEX and APK images built in memory, for tests and demos.
use vstd::prelude::*;
use std::io::Cursor;
use std::io::Write;
use zip::write::SimpleFileOptions;
use zip::ZipWriter;
use crate::android::dex::{ClassView, CodeItem, CodeView, EncodedMethod, EncodedView, MethodView, ProtoView, encoded_views, strs};
use crate::android::error::{AndroidError, ErrView};
use crate::android::apk::{zip_entry_data, zip_entry_opens, zip_listing};
use crate::text::str_eq;
use vstd::string::StringSliceAdditionalSpecFns;

verus! {

// ── Byte encodings ────────────────────────────────────────────────────

pub open spec fn le16_bytes(v: u16) -> Seq<u8> {
    seq![(v & 0xff) as u8, (v >> 8) as u8]
}

pub open spec fn le32_bytes(v: u32) -> Seq<u8> {
    seq![(v & 0xff) as u8, ((v >> 8) & 0xff) as u8, ((v >> 16) & 0xff) as u8, (v >> 24) as u8]
}

/// The ULEB128 encoding of `v`: seven bits per byte, low bits first, the
/// top bit set on every byte but the last.
pub open spec fn uleb_bytes(v: u32) -> Seq<u8>
    decreases v,
{
    let b = (v & 0x7f) as u8;
    if v >> 7 == 0 {
        seq![b]
    } else {
        proof {
            assert(v >> 7 < v) by (bit_vector)
                requires
                    v >> 7 != 0,
            ;
        }
        seq![b | 0x80] + uleb_bytes(v >> 7)
    }
}

/// `d` padded with zeros to a multiple of four bytes.
pub open spec fn pad4(d: Seq<u8>) -> Seq<u8> {
    d + Seq::new(((4 - d.len() % 4) % 4) as nat, |i: int| 0u8)
}

/// Adler-32 running sums over `d`.
pub open spec fn adler_sums(d: Seq<u8>) -> (u32, u32)
    decreases d.len(),
{
    if d.len() == 0 {
        (1, 0)
    } else {
        let (a, b) = adler_sums(d.drop_last());
        let a2 = ((a + d.last()) % 65521) as u32;
        (a2, ((b + a2) % 65521) as u32)
    }
}

/// The Adler-32 checksum of `d`.
pub open spec fn adler32_spec(d: Seq<u8>) -> u32 {
    let (a, b) = adler_sums(d);
    (b << 16) | a
}

pub fn push_le16(buf: &mut Vec<u8>, v: u16)
    ensures
        final(buf)@ == old(buf)@ + le16_bytes(v),
{
    buf.push((v & 0xff) as u8);
    buf.push((v >> 8) as u8);
    assert(buf@ =~= old(buf)@ + le16_bytes(v));
}

pub fn push_le32(buf: &mut Vec<u8>, v: u32)
    ensures
        final(buf)@ == old(buf)@ + le32_bytes(v),
{
    buf.push((v & 0xff) as u8);
    buf.push(((v >> 8) & 0xff) as u8);
    buf.push(((v >> 16) & 0xff) as u8);
    buf.push((v >> 24) as u8);
    assert(buf@ =~= old(buf)@ + le32_bytes(v));
}

/// Overwrites the four bytes at `off` with `v`, little-endian.
fn write_u32(buf: &mut Vec<u8>, off: usize, v: u32)
    requires
        off + 4 <= old(buf).len(),
    ensures
        final(buf)@ == old(buf)@.take(off as int) + le32_bytes(v) + old(buf)@.skip(off + 4),
{
    buf.set(off, (v & 0xff) as u8);
    buf.set(off + 1, ((v >> 8) & 0xff) as u8);
    buf.set(off + 2, ((v >> 16) & 0xff) as u8);
    buf.set(off + 3, (v >> 24) as u8);
    assert(buf@ =~= old(buf)@.take(off as int) + le32_bytes(v) + old(buf)@.skip(off + 4));
}

/// Appends the ULEB128 encoding of `v`.
pub fn write_uleb128(buf: &mut Vec<u8>, v: u32)
    ensures
        final(buf)@ == old(buf)@ + uleb_bytes(v),
{
    let ghost target = old(buf)@ + uleb_bytes(v);
    let mut v = v;
    loop
        invariant_except_break
            buf@ + uleb_bytes(v) == target,
        ensures
            buf@ == target,
        decreases v,
    {
        let ghost before = buf@;
        let ghost v0 = v;
        let mut b = (v & 0x7f) as u8;
        v = v >> 7;
        if v != 0 {
            b = b | 0x80;
        }
        buf.push(b);
        if v == 0 {
            assert(buf@ =~= target);
            break;
        }
        assert(v < v0) by (bit_vector)
            requires
                v == v0 >> 7,
                v != 0,
        ;
        assert(buf@ + uleb_bytes(v) =~= before + uleb_bytes(v0));
    }
}

/// Pads with zeros to a multiple of four bytes.
pub fn align4(buf: &mut Vec<u8>)
    ensures
        final(buf)@ == pad4(old(buf)@),
{
    while buf.len() % 4 != 0
        invariant
            pad4(old(buf)@) == pad4(buf@),
            buf@.len() >= old(buf)@.len(),
            buf@.len() <= old(buf)@.len() + 3,
        decreases old(buf)@.len() + 4 - buf@.len(),
    {
        let ghost before = buf@;
        buf.push(0);
        assert(pad4(before) =~= pad4(buf@));
    }
    assert(pad4(buf@) =~= buf@);
}

/// The Adler-32 checksum of `data`.
pub fn adler32(data: &[u8]) -> (r: u32)
    ensures
        r == adler32_spec(data@),
{
    let mut a: u32 = 1;
    let mut b: u32 = 0;
    let mut i: usize = 0;
    while i < data.len()
        invariant
            i <= data.len(),
            (a, b) == adler_sums(data@.take(i as int)),
            a < 65521,
            b < 65521,
        decreases data.len() - i,
    {
        assert(data@.take(i + 1).drop_last() =~= data@.take(i as int));
        a = (a + data[i] as u32) % 65521;
        b = (b + a) % 65521;
        i = i + 1;
    }
    assert(data@.take(data.len() as int) =~= data@);
    (b << 16) | a
}


// ── The DEX image of a builder ────────────────────────────────────────

/// A class to be written: its type, its superclass and its methods.
pub struct ClassBuild {
    pub class_idx: u32,
    pub superclass_idx: u32,
    pub methods: Vec<EncodedMethod>,
}

#[verifier::ext_equal]
pub struct ClassBuildView {
    pub class_idx: u32,
    pub superclass_idx: u32,
    pub methods: Seq<EncodedView>,
}

impl View for ClassBuild {
    type V = ClassBuildView;

    open spec fn view(&self) -> ClassBuildView {
        ClassBuildView { class_idx: self.class_idx, superclass_idx: self.superclass_idx, methods: encoded_views(self.methods@) }
    }
}

/// Collects strings, types, prototypes, methods and classes, and lays them
/// out as a DEX file. Strings and types are added once each.
pub struct DexBuilder {
    pub strings: Vec<String>,
    pub types: Vec<u32>,
    pub protos: Vec<(u32, u32, Vec<u16>)>,
    pub methods: Vec<(u16, u16, u32)>,
    pub classes: Vec<ClassBuild>,
}

#[verifier::ext_equal]
pub struct BuilderView {
    pub strings: Seq<Seq<char>>,
    pub types: Seq<u32>,
    pub protos: Seq<(u32, u32, Seq<u16>)>,
    pub methods: Seq<(u16, u16, u32)>,
    pub classes: Seq<ClassBuildView>,
}

pub open spec fn proto_builds(v: Seq<(u32, u32, Vec<u16>)>) -> Seq<(u32, u32, Seq<u16>)> {
    v.map_values(|p: (u32, u32, Vec<u16>)| (p.0, p.1, p.2@))
}

pub open spec fn class_builds(v: Seq<ClassBuild>) -> Seq<ClassBuildView> {
    v.map_values(|c: ClassBuild| c@)
}

impl View for DexBuilder {
    type V = BuilderView;

    open spec fn view(&self) -> BuilderView {
        BuilderView {
            strings: strs(self.strings@),
            types: self.types@,
            protos: proto_builds(self.protos@),
            methods: self.methods@,
            classes: class_builds(self.classes@),
        }
    }
}

/// Little-endian halfwords, concatenated.
pub open spec fn le16s(v: Seq<u16>) -> Seq<u8>
    decreases v.len(),
{
    if v.len() == 0 {
        Seq::empty()
    } else {
        le16s(v.drop_last()) + le16_bytes(v.last())
    }
}

/// Little-endian words, concatenated.
pub open spec fn le32s(v: Seq<u32>) -> Seq<u8>
    decreases v.len(),
{
    if v.len() == 0 {
        Seq::empty()
    } else {
        le32s(v.drop_last()) + le32_bytes(v.last())
    }
}

/// A string data item: its length in characters, its UTF-8 bytes, a NUL.
pub open spec fn string_item(s: Seq<char>) -> Seq<u8> {
    uleb_bytes(s.len() as u32) + vstd::utf8::encode_utf8(s) + seq![0u8]
}

/// The data of the first `k` strings, and their offsets from `base`.
pub open spec fn strings_fold(ss: Seq<Seq<char>>, k: int, base: u32) -> (Seq<u8>, Seq<u32>)
    decreases k,
{
    if k <= 0 {
        (Seq::empty(), Seq::empty())
    } else {
        let (d, o) = strings_fold(ss, k - 1, base);
        (d + string_item(ss[k - 1]), o.push(base.wrapping_add(d.len() as u32)))
    }
}

/// The parameter lists of the first `k` prototypes after `d0`, and their
/// offsets (0 for an empty list).
pub open spec fn params_fold(ps: Seq<(u32, u32, Seq<u16>)>, k: int, base: u32, d0: Seq<u8>) -> (Seq<u8>, Seq<u32>)
    decreases k,
{
    if k <= 0 {
        (d0, Seq::empty())
    } else {
        let (d, o) = params_fold(ps, k - 1, base, d0);
        let p = ps[k - 1].2;
        if p.len() == 0 {
            (d, o.push(0))
        } else {
            let d2 = pad4(d);
            (d2 + le32_bytes(p.len() as u32) + le16s(p), o.push(base.wrapping_add(d2.len() as u32)))
        }
    }
}

/// A code item: sizes, no tries, no debug info, the instructions.
pub open spec fn code_item_bytes(c: CodeView) -> Seq<u8> {
    le16_bytes(c.registers_size) + le16_bytes(c.ins_size) + le16_bytes(c.outs_size) + le16_bytes(0) + le32_bytes(0)
        + le32_bytes(c.insns.len() as u32) + le16s(c.insns)
}

/// The code items of the first `k` methods of a class after `d0`, with the
/// offset of each method's code.
pub open spec fn code_fold_class(ms: Seq<EncodedView>, k: int, base: u32, d0: Seq<u8>, offs0: Seq<(u32, u32)>) -> (
    Seq<u8>,
    Seq<(u32, u32)>,
)
    decreases k,
{
    if k <= 0 {
        (d0, offs0)
    } else {
        let (d, o) = code_fold_class(ms, k - 1, base, d0, offs0);
        match ms[k - 1].code {
            None => (d, o),
            Some(c) => {
                let d2 = pad4(d);
                (pad4(d2 + code_item_bytes(c)), o.push((ms[k - 1].method_idx, base.wrapping_add(d2.len() as u32))))
            },
        }
    }
}

/// The code items of the first `k` classes after `d0`.
pub open spec fn code_fold(cs: Seq<ClassBuildView>, k: int, base: u32, d0: Seq<u8>) -> (Seq<u8>, Seq<(u32, u32)>)
    decreases k,
{
    if k <= 0 {
        (d0, Seq::empty())
    } else {
        let (d, o) = code_fold(cs, k - 1, base, d0);
        code_fold_class(cs[k - 1].methods, cs[k - 1].methods.len() as int, base, d, o)
    }
}

/// The code offset last recorded for method `idx` (0 if none).
pub open spec fn lookup_off(offs: Seq<(u32, u32)>, idx: u32) -> u32
    decreases offs.len(),
{
    if offs.len() == 0 {
        0
    } else if offs.last().0 == idx {
        offs.last().1
    } else {
        lookup_off(offs.drop_last(), idx)
    }
}

/// `s` (sorted by key) with `x` inserted after every element whose key is
/// not greater.
pub open spec fn insert_sorted(s: Seq<(u32, u32)>, x: (u32, u32)) -> Seq<(u32, u32)>
    decreases s.len(),
{
    if s.len() == 0 {
        seq![x]
    } else if s.last().0 <= x.0 {
        s.push(x)
    } else {
        insert_sorted(s.drop_last(), x).push(s.last())
    }
}

/// The stable sort of `s` by key.
pub open spec fn sort_by_key(s: Seq<(u32, u32)>) -> Seq<(u32, u32)>
    decreases s.len(),
{
    if s.len() == 0 {
        Seq::empty()
    } else {
        insert_sorted(sort_by_key(s.drop_last()), s.last())
    }
}

/// (method index, access flags) of each method.
pub open spec fn method_keys(ms: Seq<EncodedView>) -> Seq<(u32, u32)> {
    ms.map_values(|m: EncodedView| (m.method_idx, m.access_flags))
}

/// The first `k` encoded methods: index difference, access flags, code offset.
pub open spec fn method_entries(sorted: Seq<(u32, u32)>, k: int, offs: Seq<(u32, u32)>) -> Seq<u8>
    decreases k,
{
    if k <= 0 {
        Seq::empty()
    } else {
        let prev: u32 = if k >= 2 { sorted[k - 2].0 } else { 0 };
        method_entries(sorted, k - 1, offs) + uleb_bytes(sorted[k - 1].0.wrapping_sub(prev)) + uleb_bytes(sorted[k - 1].1)
            + uleb_bytes(lookup_off(offs, sorted[k - 1].0))
    }
}

/// A class data item: no fields, all methods direct, sorted by index.
pub open spec fn class_data_item(c: ClassBuildView, offs: Seq<(u32, u32)>) -> Seq<u8> {
    let sorted = sort_by_key(method_keys(c.methods));
    uleb_bytes(0) + uleb_bytes(0) + uleb_bytes(c.methods.len() as u32) + uleb_bytes(0) + method_entries(
        sorted,
        sorted.len() as int,
        offs,
    )
}

/// The class data of the first `k` classes after `d0`, and their offsets.
pub open spec fn class_data_fold(cs: Seq<ClassBuildView>, k: int, base: u32, d0: Seq<u8>, offs: Seq<(u32, u32)>) -> (
    Seq<u8>,
    Seq<u32>,
)
    decreases k,
{
    if k <= 0 {
        (d0, Seq::empty())
    } else {
        let (d, o) = class_data_fold(cs, k - 1, base, d0, offs);
        let d2 = pad4(d);
        (d2 + class_data_item(cs[k - 1], offs), o.push(base.wrapping_add(d2.len() as u32)))
    }
}

/// The first `k` prototype ids.
pub open spec fn proto_ids(ps: Seq<(u32, u32, Seq<u16>)>, poffs: Seq<u32>, k: int) -> Seq<u8>
    decreases k,
{
    if k <= 0 {
        Seq::empty()
    } else {
        proto_ids(ps, poffs, k - 1) + le32_bytes(ps[k - 1].0) + le32_bytes(ps[k - 1].1) + le32_bytes(poffs[k - 1])
    }
}

/// The first `k` method ids.
pub open spec fn method_ids(ms: Seq<(u16, u16, u32)>, k: int) -> Seq<u8>
    decreases k,
{
    if k <= 0 {
        Seq::empty()
    } else {
        method_ids(ms, k - 1) + le16_bytes(ms[k - 1].0) + le16_bytes(ms[k - 1].1) + le32_bytes(ms[k - 1].2)
    }
}

/// The first `k` class definitions (public, no interfaces, no source file).
pub open spec fn class_defs(cs: Seq<ClassBuildView>, cdoffs: Seq<u32>, k: int) -> Seq<u8>
    decreases k,
{
    if k <= 0 {
        Seq::empty()
    } else {
        class_defs(cs, cdoffs, k - 1) + le32_bytes(cs[k - 1].class_idx) + le32_bytes(1) + le32_bytes(cs[k - 1].superclass_idx)
            + le32_bytes(0) + le32_bytes(0xffff_ffff) + le32_bytes(0) + le32_bytes(cdoffs[k - 1]) + le32_bytes(0)
    }
}

/// `b` with the Adler-32 checksum of its bytes from 12 on stored at 8.
pub open spec fn checksummed(b: Seq<u8>) -> Seq<u8> {
    b.take(8) + le32_bytes(adler32_spec(b.skip(12))) + b.skip(12)
}

pub open spec fn dex_magic() -> Seq<u8> {
    seq![0x64u8, 0x65, 0x78, 0x0a, 0x30, 0x33, 0x35, 0x00]
}

pub open spec fn zeros(n: int) -> Seq<u8> {
    Seq::new(if n > 0 { n as nat } else { 0 }, |i: int| 0u8)
}

impl BuilderView {
    pub open spec fn ns(self) -> u32 { self.strings.len() as u32 }
    pub open spec fn nt(self) -> u32 { self.types.len() as u32 }
    pub open spec fn np(self) -> u32 { self.protos.len() as u32 }
    pub open spec fn nm(self) -> u32 { self.methods.len() as u32 }
    pub open spec fn nc(self) -> u32 { self.classes.len() as u32 }
    pub open spec fn type_ids_off(self) -> u32 { 0x70u32.wrapping_add(self.ns().wrapping_mul(4)) }
    pub open spec fn proto_ids_off(self) -> u32 { self.type_ids_off().wrapping_add(self.nt().wrapping_mul(4)) }
    pub open spec fn field_ids_off(self) -> u32 { self.proto_ids_off().wrapping_add(self.np().wrapping_mul(12)) }
    pub open spec fn method_ids_off(self) -> u32 { self.field_ids_off() }
    pub open spec fn class_defs_off(self) -> u32 { self.method_ids_off().wrapping_add(self.nm().wrapping_mul(8)) }
    pub open spec fn data_off(self) -> u32 {
        self.class_defs_off().wrapping_add(self.nc().wrapping_mul(32)).wrapping_add(3) & 0xFFFF_FFFC
    }

    pub open spec fn strings_part(self) -> (Seq<u8>, Seq<u32>) {
        strings_fold(self.strings, self.strings.len() as int, self.data_off())
    }

    pub open spec fn params_part(self) -> (Seq<u8>, Seq<u32>) {
        params_fold(self.protos, self.protos.len() as int, self.data_off(), self.strings_part().0)
    }

    pub open spec fn code_part(self) -> (Seq<u8>, Seq<(u32, u32)>) {
        code_fold(self.classes, self.classes.len() as int, self.data_off(), self.params_part().0)
    }

    pub open spec fn class_data_part(self) -> (Seq<u8>, Seq<u32>) {
        class_data_fold(self.classes, self.classes.len() as int, self.data_off(), self.code_part().0, self.code_part().1)
    }

    /// The data section.
    #[verifier::opaque]
    pub open spec fn data(self) -> Seq<u8> {
        self.class_data_part().0
    }

    pub open spec fn file_size(self) -> u32 {
        self.data_off().wrapping_add(self.data().len() as u32)
    }

    /// The header, with a zero checksum.
    #[verifier::opaque]
    pub open spec fn header(self) -> Seq<u8> {
        dex_magic() + le32_bytes(0) + zeros(20) + le32_bytes(self.file_size()) + le32_bytes(0x70) + le32_bytes(
            0x1234_5678,
        ) + le32_bytes(0) + le32_bytes(0) + le32_bytes(0) + le32_bytes(self.ns()) + le32_bytes(0x70) + le32_bytes(
            self.nt(),
        ) + le32_bytes(self.type_ids_off()) + le32_bytes(self.np()) + le32_bytes(self.proto_ids_off()) + le32_bytes(0)
            + le32_bytes(self.field_ids_off()) + le32_bytes(self.nm()) + le32_bytes(self.method_ids_off()) + le32_bytes(
            self.nc(),
        ) + le32_bytes(self.class_defs_off()) + le32_bytes(self.data().len() as u32) + le32_bytes(self.data_off())
    }

    /// Header and id tables.
    #[verifier::opaque]
    pub open spec fn tables(self) -> Seq<u8> {
        self.header() + le32s(self.strings_part().1) + le32s(self.types) + proto_ids(
            self.protos,
            self.params_part().1,
            self.protos.len() as int,
        ) + method_ids(self.methods, self.methods.len() as int) + class_defs(
            self.classes,
            self.class_data_part().1,
            self.classes.len() as int,
        )
    }

    /// The file with a zero checksum.
    pub open spec fn body(self) -> Seq<u8> {
        self.tables() + zeros(self.data_off() - self.tables().len()) + self.data()
    }

    /// The DEX file: the body with its Adler-32 checksum (of all bytes after
    /// the checksum field) at offset 8.
    pub open spec fn image(self) -> Seq<u8> {
        checksummed(self.body())
    }
}


// ── Building the image ────────────────────────────────────────────────

fn push_u16s(buf: &mut Vec<u8>, v: &Vec<u16>)
    ensures
        final(buf)@ == old(buf)@ + le16s(v@),
{
    let mut i: usize = 0;
    while i < v.len()
        invariant
            i <= v.len(),
            buf@ == old(buf)@ + le16s(v@.take(i as int)),
        decreases v.len() - i,
    {
        assert(v@.take(i + 1).drop_last() =~= v@.take(i as int));
        push_le16(buf, v[i]);
        i = i + 1;
        assert(buf@ =~= old(buf)@ + le16s(v@.take(i as int)));
    }
    assert(v@.take(v.len() as int) =~= v@);
}

fn push_string_item(buf: &mut Vec<u8>, s: &String)
    ensures
        final(buf)@ == old(buf)@ + string_item(s@),
{
    write_uleb128(buf, s.as_str().unicode_len() as u32);
    let bytes = s.as_str().as_bytes();
    let ghost mid = buf@;
    let mut i: usize = 0;
    while i < bytes.len()
        invariant
            i <= bytes.len(),
            buf@ == mid + bytes@.take(i as int),
        decreases bytes.len() - i,
    {
        buf.push(bytes[i]);
        i = i + 1;
        assert(buf@ =~= mid + bytes@.take(i as int));
    }
    assert(bytes@.take(bytes.len() as int) =~= bytes@);
    buf.push(0);
    assert(buf@ =~= old(buf)@ + string_item(s@));
}

/// The index of the first pair with key greater than `x.0` after every
/// pair with a smaller or equal key, counted from the end.
proof fn lemma_insert_sorted(s: Seq<(u32, u32)>, x: (u32, u32), p: int)
    requires
        0 <= p <= s.len(),
        forall|k: int| p <= k < s.len() ==> #[trigger] s[k].0 > x.0,
        p == 0 || s[p - 1].0 <= x.0,
    ensures
        insert_sorted(s, x) == s.insert(p, x),
    decreases s.len() - p,
{
    if p == s.len() {
        if s.len() > 0 {
            assert(s.insert(p, x) =~= s.push(x));
        } else {
            assert(s.insert(p, x) =~= seq![x]);
        }
    } else {
        assert(s.last().0 > x.0);
        lemma_insert_sorted(s.drop_last(), x, p);
        assert(s.drop_last().insert(p, x).push(s.last()) =~= s.insert(p, x));
    }
}

/// The (index, access flags) pairs of `ms`, stably sorted by index.
fn sorted_keys(ms: &Vec<EncodedMethod>) -> (r: Vec<(u32, u32)>)
    ensures
        r@ == sort_by_key(method_keys(encoded_views(ms@))),
{
    let ghost keys = method_keys(encoded_views(ms@));
    let mut out: Vec<(u32, u32)> = Vec::new();
    let mut i: usize = 0;
    while i < ms.len()
        invariant
            i <= ms.len(),
            keys == method_keys(encoded_views(ms@)),
            out@ == sort_by_key(keys.take(i as int)),
        decreases ms.len() - i,
    {
        let x = (ms[i].method_idx, ms[i].access_flags);
        assert(keys.take(i + 1).drop_last() =~= keys.take(i as int));
        assert(keys.take(i + 1).last() == x);
        let mut p = out.len();
        while p > 0 && out[p - 1].0 > x.0
            invariant
                p <= out@.len(),
                forall|k: int| p <= k < out@.len() ==> #[trigger] out@[k].0 > x.0,
            decreases p,
        {
            p = p - 1;
        }
        proof {
            lemma_insert_sorted(out@, x, p as int);
        }
        out.insert(p, x);
        i = i + 1;
    }
    assert(keys.take(ms.len() as int) =~= keys);
    out
}

fn lookup_off_exec(offs: &Vec<(u32, u32)>, idx: u32) -> (r: u32)
    ensures
        r == lookup_off(offs@, idx),
{
    let mut k = offs.len();
    assert(offs@.take(k as int) =~= offs@);
    while k > 0
        invariant
            k <= offs@.len(),
            lookup_off(offs@, idx) == lookup_off(offs@.take(k as int), idx),
        decreases k,
    {
        assert(offs@.take(k as int).drop_last() =~= offs@.take(k - 1));
        if offs[k - 1].0 == idx {
            return offs[k - 1].1;
        }
        k = k - 1;
    }
    0
}

impl DexBuilder {
    fn build_strings(&self, base: u32) -> (r: (Vec<u8>, Vec<u32>))
        ensures
            (r.0@, r.1@) == strings_fold(self@.strings, self@.strings.len() as int, base),
    {
        let mut d: Vec<u8> = Vec::new();
        let mut offs: Vec<u32> = Vec::new();
        let mut i: usize = 0;
        while i < self.strings.len()
            invariant
                i <= self.strings.len(),
                (d@, offs@) == strings_fold(self@.strings, i as int, base),
            decreases self.strings.len() - i,
        {
            offs.push(base.wrapping_add(d.len() as u32));
            push_string_item(&mut d, &self.strings[i]);
            i = i + 1;
        }
        (d, offs)
    }

    fn build_params(&self, base: u32, d: &mut Vec<u8>) -> (r: Vec<u32>)
        ensures
            (final(d)@, r@) == params_fold(self@.protos, self@.protos.len() as int, base, old(d)@),
    {
        let mut offs: Vec<u32> = Vec::new();
        let mut i: usize = 0;
        while i < self.protos.len()
            invariant
                i <= self.protos.len(),
                (d@, offs@) == params_fold(self@.protos, i as int, base, old(d)@),
            decreases self.protos.len() - i,
        {
            let params = &self.protos[i].2;
            assert(self@.protos[i as int].2 == params@);
            if params.len() == 0 {
                offs.push(0);
            } else {
                align4(d);
                offs.push(base.wrapping_add(d.len() as u32));
                push_le32(d, params.len() as u32);
                push_u16s(d, params);
            }
            i = i + 1;
        }
        offs
    }

    #[verifier::rlimit(40)]
    fn build_code(&self, base: u32, d: &mut Vec<u8>) -> (r: Vec<(u32, u32)>)
        ensures
            (final(d)@, r@) == code_fold(self@.classes, self@.classes.len() as int, base, old(d)@),
    {
        let mut offs: Vec<(u32, u32)> = Vec::new();
        let mut ci: usize = 0;
        while ci < self.classes.len()
            invariant
                ci <= self.classes.len(),
                (d@, offs@) == code_fold(self@.classes, ci as int, base, old(d)@),
            decreases self.classes.len() - ci,
        {
            let ms = &self.classes[ci].methods;
            let ghost mv = encoded_views(ms@);
            assert(self@.classes[ci as int].methods == mv);
            let ghost d_start = d@;
            let ghost o_start = offs@;
            let mut j: usize = 0;
            while j < ms.len()
                invariant
                    j <= ms.len(),
                    mv == encoded_views(ms@),
                    (d@, offs@) == code_fold_class(mv, j as int, base, d_start, o_start),
                decreases ms.len() - j,
            {
                assert(mv[j as int] == ms@[j as int]@);
                match &ms[j].code {
                    Some(code) => {
                        align4(d);
                        offs.push((ms[j].method_idx, base.wrapping_add(d.len() as u32)));
                        push_le16(d, code.registers_size);
                        push_le16(d, code.ins_size);
                        push_le16(d, code.outs_size);
                        push_le16(d, 0);
                        push_le32(d, 0);
                        push_le32(d, code.insns.len() as u32);
                        push_u16s(d, &code.insns);
                        align4(d);
                    },
                    None => {},
                }
                j = j + 1;
            }
            ci = ci + 1;
        }
        offs
    }

    fn build_class_data(&self, base: u32, d: &mut Vec<u8>, code_offs: &Vec<(u32, u32)>) -> (r: Vec<u32>)
        ensures
            (final(d)@, r@) == class_data_fold(self@.classes, self@.classes.len() as int, base, old(d)@, code_offs@),
    {
        let mut offs: Vec<u32> = Vec::new();
        let mut ci: usize = 0;
        while ci < self.classes.len()
            invariant
                ci <= self.classes.len(),
                (d@, offs@) == class_data_fold(self@.classes, ci as int, base, old(d)@, code_offs@),
            decreases self.classes.len() - ci,
        {
            let c = &self.classes[ci];
            assert(self@.classes[ci as int] == c@);
            align4(d);
            offs.push(base.wrapping_add(d.len() as u32));
            let ghost start = d@;
            write_uleb128(d, 0);
            write_uleb128(d, 0);
            write_uleb128(d, c.methods.len() as u32);
            write_uleb128(d, 0);
            let sorted = sorted_keys(&c.methods);
            let ghost head = d@;
            let mut last: u32 = 0;
            let mut k: usize = 0;
            while k < sorted.len()
                invariant
                    k <= sorted.len(),
                    d@ == head + method_entries(sorted@, k as int, code_offs@),
                    last == (if k >= 1 { sorted@[k - 1].0 } else { 0u32 }),
                decreases sorted.len() - k,
            {
                let (idx, access) = sorted[k];
                write_uleb128(d, idx.wrapping_sub(last));
                last = idx;
                write_uleb128(d, access);
                write_uleb128(d, lookup_off_exec(code_offs, idx));
                k = k + 1;
                assert(d@ =~= head + method_entries(sorted@, k as int, code_offs@));
            }
            assert(d@ =~= start + class_data_item(c@, code_offs@));
            ci = ci + 1;
        }
        offs
    }
}


proof fn lemma_params_fold_len(ps: Seq<(u32, u32, Seq<u16>)>, k: int, base: u32, d0: Seq<u8>)
    requires
        0 <= k,
    ensures
        params_fold(ps, k, base, d0).1.len() == k,
    decreases k,
{
    if k > 0 {
        lemma_params_fold_len(ps, k - 1, base, d0);
    }
}

proof fn lemma_class_data_fold_len(cs: Seq<ClassBuildView>, k: int, base: u32, d0: Seq<u8>, offs: Seq<(u32, u32)>)
    requires
        0 <= k,
    ensures
        class_data_fold(cs, k, base, d0, offs).1.len() == k,
    decreases k,
{
    if k > 0 {
        lemma_class_data_fold_len(cs, k - 1, base, d0, offs);
    }
}

fn push_le32s(buf: &mut Vec<u8>, v: &Vec<u32>)
    ensures
        final(buf)@ == old(buf)@ + le32s(v@),
{
    let mut i: usize = 0;
    while i < v.len()
        invariant
            i <= v.len(),
            buf@ == old(buf)@ + le32s(v@.take(i as int)),
        decreases v.len() - i,
    {
        assert(v@.take(i + 1).drop_last() =~= v@.take(i as int));
        push_le32(buf, v[i]);
        i = i + 1;
        assert(buf@ =~= old(buf)@ + le32s(v@.take(i as int)));
    }
    assert(v@.take(v.len() as int) =~= v@);
}

/// The first position of `x` in `ss` from `i` on.
pub open spec fn find_from(ss: Seq<Seq<char>>, x: Seq<char>, i: int) -> Option<int>
    decreases ss.len() - i,
{
    if i < 0 || i >= ss.len() {
        None
    } else if ss[i] == x {
        Some(i)
    } else {
        find_from(ss, x, i + 1)
    }
}

/// The first type from `i` on whose descriptor is `x`.
pub open spec fn find_type_from(b: BuilderView, x: Seq<char>, i: int) -> Option<int>
    decreases b.types.len() - i,
{
    if i < 0 || i >= b.types.len() {
        None
    } else if b.strings[b.types[i] as int] == x {
        Some(i)
    } else {
        find_type_from(b, x, i + 1)
    }
}

impl BuilderView {
    /// Every type names a string of the builder.
    pub open spec fn wf(self) -> bool {
        &&& self.strings.len() <= u32::MAX
        &&& forall|i: int| 0 <= i < self.types.len() ==> (#[trigger] self.types[i] as int) < self.strings.len()
    }

    pub open spec fn empty() -> BuilderView {
        BuilderView {
            strings: Seq::empty(),
            types: Seq::empty(),
            protos: Seq::empty(),
            methods: Seq::empty(),
            classes: Seq::empty(),
        }
    }

    /// The builder after `string(x)`, and the index it returns.
    pub open spec fn add_string(self, x: Seq<char>) -> (BuilderView, u32) {
        match find_from(self.strings, x, 0) {
            Some(i) => (self, i as u32),
            None => (BuilderView { strings: self.strings.push(x), ..self }, self.strings.len() as u32),
        }
    }

    /// The builder after `type_of(x)`, and the index it returns.
    pub open spec fn add_type(self, x: Seq<char>) -> (BuilderView, u32) {
        match find_type_from(self, x, 0) {
            Some(i) => (self, i as u32),
            None => {
                let (b2, s) = self.add_string(x);
                (BuilderView { types: b2.types.push(s), ..b2 }, self.types.len() as u32)
            },
        }
    }
}

/// `t`, zeros up to offset `data_off`, then `data`, with the checksum set.
fn assemble(t: Vec<u8>, data_off: u32, data: &Vec<u8>) -> (r: Vec<u8>)
    requires
        t@.len() >= 12,
    ensures
        r@ == checksummed(t@ + zeros(data_off - t@.len()) + data@),
{
    let mut out = t;
    while out.len() < data_off as usize
        invariant
            out@.len() >= t@.len(),
            out@.len() == t@.len() || out@.len() <= data_off,
            out@ == t@ + zeros(out@.len() - t@.len()),
        decreases data_off - out@.len(),
    {
        out.push(0);
        assert(out@ =~= t@ + zeros(out@.len() - t@.len()));
    }
    assert(out@ =~= t@ + zeros(data_off - t@.len()));
    let ghost pre = out@;
    let mut k: usize = 0;
    while k < data.len()
        invariant
            k <= data.len(),
            out@ == pre + data@.take(k as int),
        decreases data.len() - k,
    {
        out.push(data[k]);
        k = k + 1;
        assert(out@ =~= pre + data@.take(k as int));
    }
    assert(data@.take(data.len() as int) =~= data@);
    let ghost body = out@;
    let checksum = adler32(vstd::slice::slice_subrange(out.as_slice(), 12, out.len()));
    write_u32(&mut out, 8, checksum);
    assert(checksummed(body) =~= out@);
    out
}

pub proof fn lemma_find_from_bounds(ss: Seq<Seq<char>>, x: Seq<char>, i: int)
    ensures
        find_from(ss, x, i) matches Some(k) ==> 0 <= k < ss.len() && ss[k] == x,
    decreases ss.len() - i,
{
    if 0 <= i < ss.len() && ss[i] != x {
        lemma_find_from_bounds(ss, x, i + 1);
    }
}

impl DexBuilder {
    /// An empty builder.
    pub fn new() -> (r: DexBuilder)
        ensures
            r@ == BuilderView::empty(),
            r@.wf(),
    {
        let r = DexBuilder { strings: Vec::new(), types: Vec::new(), protos: Vec::new(), methods: Vec::new(), classes: Vec::new() };
        assert(r@ =~= BuilderView::empty());
        r
    }

    /// The index of string `s`, added if it is new.
    pub fn string(&mut self, s: &str) -> (r: u32)
        requires
            old(self)@.wf(),
            old(self)@.strings.len() < u32::MAX,
        ensures
            (final(self)@, r) == old(self)@.add_string(s@),
            final(self)@.wf(),
    {
        let ghost ss = self@.strings;
        let mut i: usize = 0;
        while i < self.strings.len()
            invariant
                ss == self@.strings,
                self@ == old(self)@,
                old(self)@.wf(),
                i <= ss.len(),
                find_from(ss, s@, 0) == find_from(ss, s@, i as int),
            decreases self.strings.len() - i,
        {
            assert(ss[i as int] == self.strings@[i as int]@);
            if str_eq(self.strings[i].as_str(), s) {
                return i as u32;
            }
            i = i + 1;
        }
        let n = self.strings.len() as u32;
        let ghost before = self.strings@;
        self.strings.push(String::from_str(s));
        assert(strs(self.strings@) =~= strs(before).push(s@));
        n
    }

    /// The index of the type with descriptor `desc`, added if it is new.
    pub fn type_of(&mut self, desc: &str) -> (r: u32)
        requires
            old(self)@.wf(),
            old(self)@.strings.len() < u32::MAX,
            old(self)@.types.len() <= u32::MAX,
        ensures
            (final(self)@, r) == old(self)@.add_type(desc@),
            final(self)@.wf(),
    {
        let ghost b = self@;
        let mut i: usize = 0;
        while i < self.types.len()
            invariant
                b == self@,
                b.wf(),
                i <= b.types.len(),
                find_type_from(b, desc@, 0) == find_type_from(b, desc@, i as int),
            decreases self.types.len() - i,
        {
            let t = self.types[i] as usize;
            assert(b.strings[t as int] == self.strings@[t as int]@);
            if str_eq(self.strings[t].as_str(), desc) {
                return i as u32;
            }
            i = i + 1;
        }
        let n = self.types.len() as u32;
        let s = self.string(desc);
        proof {
            lemma_find_from_bounds(b.strings, desc@, 0);
        }
        self.types.push(s);
        n
    }

    /// Adds a prototype; returns its index.
    pub fn proto(&mut self, shorty: u32, ret: u32, params: &[u32]) -> (r: u32)
        requires
            old(self)@.wf(),
        ensures
            final(self)@ == (BuilderView {
                protos: old(self)@.protos.push((shorty, ret, params@.map_values(|p: u32| p as u16))),
                ..old(self)@
            }),
            r == old(self)@.protos.len() as u32,
            final(self)@.wf(),
    {
        let mut params_u16: Vec<u16> = Vec::new();
        let mut i: usize = 0;
        while i < params.len()
            invariant
                i <= params.len(),
                params_u16@ == params@.take(i as int).map_values(|p: u32| p as u16),
            decreases params.len() - i,
        {
            params_u16.push(params[i] as u16);
            i = i + 1;
            assert(params_u16@ =~= params@.take(i as int).map_values(|p: u32| p as u16));
        }
        assert(params@.take(params.len() as int) =~= params@);
        let n = self.protos.len() as u32;
        let ghost before = self.protos@;
        self.protos.push((shorty, ret, params_u16));
        assert(proto_builds(self.protos@) =~= proto_builds(before).push((shorty, ret, params@.map_values(|p: u32| p as u16))));
        n
    }

    /// Adds a method reference; returns its index.
    pub fn method(&mut self, class: u32, proto: u32, name: u32) -> (r: u32)
        requires
            old(self)@.wf(),
        ensures
            final(self)@ == (BuilderView { methods: old(self)@.methods.push((class as u16, proto as u16, name)), ..old(self)@ }),
            r == old(self)@.methods.len() as u32,
            final(self)@.wf(),
    {
        let n = self.methods.len() as u32;
        self.methods.push((class as u16, proto as u16, name));
        n
    }

    /// Adds a class with the given methods.
    pub fn add_class(&mut self, class_idx: u32, superclass_idx: u32, methods: Vec<EncodedMethod>)
        requires
            old(self)@.wf(),
        ensures
            final(self)@ == (BuilderView {
                classes: old(self)@.classes.push(
                    ClassBuildView { class_idx: class_idx, superclass_idx: superclass_idx, methods: encoded_views(methods@) },
                ),
                ..old(self)@
            }),
            final(self)@.wf(),
    {
        let ghost before = self.classes@;
        let c = ClassBuild { class_idx, superclass_idx, methods };
        self.classes.push(c);
        assert(class_builds(self.classes@) =~= class_builds(before).push(c@));
    }

    #[verifier::rlimit(60)]
    #[verifier::spinoff_prover]
    fn write_header(&self, data: &Vec<u8>) -> (out: Vec<u8>)
        requires
            data@ == self@.data(),
        ensures
            out@ == self@.header(),
            out@.len() == 112,
    {
        let ghost b = self@;
        let ns = self.strings.len() as u32;
        let nt = self.types.len() as u32;
        let np = self.protos.len() as u32;
        let nm = self.methods.len() as u32;
        let nc = self.classes.len() as u32;
        let type_ids_off = 0x70u32.wrapping_add(ns.wrapping_mul(4));
        let proto_ids_off = type_ids_off.wrapping_add(nt.wrapping_mul(4));
        let field_ids_off = proto_ids_off.wrapping_add(np.wrapping_mul(12));
        let method_ids_off = field_ids_off;
        let class_defs_off = method_ids_off.wrapping_add(nm.wrapping_mul(8));
        let data_off = class_defs_off.wrapping_add(nc.wrapping_mul(32)).wrapping_add(3) & 0xFFFF_FFFC;
        let file_size = data_off.wrapping_add(data.len() as u32);
        let mut out: Vec<u8> = Vec::new();
        out.push(0x64);
        out.push(0x65);
        out.push(0x78);
        out.push(0x0a);
        out.push(0x30);
        out.push(0x33);
        out.push(0x35);
        out.push(0x00);
        push_le32(&mut out, 0);
        let mut z: usize = 0;
        while z < 20
            invariant
                z <= 20,
                out@ == dex_magic() + le32_bytes(0) + zeros(z as int),
            decreases 20 - z,
        {
            out.push(0);
            z = z + 1;
            assert(out@ =~= dex_magic() + le32_bytes(0) + zeros(z as int));
        }
        push_le32(&mut out, file_size);
        push_le32(&mut out, 0x70);
        push_le32(&mut out, 0x1234_5678);
        push_le32(&mut out, 0);
        push_le32(&mut out, 0);
        push_le32(&mut out, 0);
        push_le32(&mut out, ns);
        push_le32(&mut out, 0x70);
        push_le32(&mut out, nt);
        push_le32(&mut out, type_ids_off);
        push_le32(&mut out, np);
        push_le32(&mut out, proto_ids_off);
        push_le32(&mut out, 0);
        push_le32(&mut out, field_ids_off);
        push_le32(&mut out, nm);
        push_le32(&mut out, method_ids_off);
        push_le32(&mut out, nc);
        push_le32(&mut out, class_defs_off);
        push_le32(&mut out, data.len() as u32);
        push_le32(&mut out, data_off);
        proof {
            reveal(BuilderView::header);
        }
        assert(out@ =~= b.header());
        out
    }

    fn write_tables(&self, out: &mut Vec<u8>, soffs: &Vec<u32>, poffs: &Vec<u32>, cdoffs: &Vec<u32>)
        requires
            old(out)@ == self@.header(),
            soffs@ == self@.strings_part().1,
            poffs@ == self@.params_part().1,
            cdoffs@ == self@.class_data_part().1,
            poffs@.len() == self@.protos.len(),
            cdoffs@.len() == self@.classes.len(),
        ensures
            final(out)@ == self@.tables(),
            final(out)@.len() >= old(out)@.len(),
    {
        let ghost b = self@;
        reveal(BuilderView::tables);
        push_le32s(out, &soffs);
        push_le32s(out, &self.types);
        let ghost p0 = out@;
        let mut i: usize = 0;
        while i < self.protos.len()
            invariant
                i <= self.protos.len(),
                b == self@,
                poffs@.len() == b.protos.len(),
                out@ == p0 + proto_ids(b.protos, poffs@, i as int),
            decreases self.protos.len() - i,
        {
            assert(b.protos[i as int].0 == self.protos@[i as int].0 && b.protos[i as int].1 == self.protos@[i as int].1);
            push_le32(out, self.protos[i].0);
            push_le32(out, self.protos[i].1);
            push_le32(out, poffs[i]);
            i = i + 1;
            assert(out@ =~= p0 + proto_ids(b.protos, poffs@, i as int));
        }
        let ghost m0 = out@;
        let mut i: usize = 0;
        while i < self.methods.len()
            invariant
                i <= self.methods.len(),
                b == self@,
                out@ == m0 + method_ids(b.methods, i as int),
            decreases self.methods.len() - i,
        {
            let (class, proto, name) = self.methods[i];
            push_le16(out, class);
            push_le16(out, proto);
            push_le32(out, name);
            i = i + 1;
            assert(out@ =~= m0 + method_ids(b.methods, i as int));
        }
        let ghost c0 = out@;
        let mut i: usize = 0;
        while i < self.classes.len()
            invariant
                i <= self.classes.len(),
                b == self@,
                cdoffs@.len() == b.classes.len(),
                out@ == c0 + class_defs(b.classes, cdoffs@, i as int),
            decreases self.classes.len() - i,
        {
            assert(b.classes[i as int] == self.classes@[i as int]@);
            push_le32(out, self.classes[i].class_idx);
            push_le32(out, 1);
            push_le32(out, self.classes[i].superclass_idx);
            push_le32(out, 0);
            push_le32(out, 0xffff_ffff);
            push_le32(out, 0);
            push_le32(out, cdoffs[i]);
            push_le32(out, 0);
            i = i + 1;
            assert(out@ =~= c0 + class_defs(b.classes, cdoffs@, i as int));
        }
        assert(out@ =~= b.tables());
    }

    /// The data section and the offsets of strings, parameter lists and
    /// class data.
    fn build_data(&self) -> (r: (Vec<u8>, Vec<u32>, Vec<u32>, Vec<u32>))
        ensures
            r.0@ == self@.data(),
            r.1@ == self@.strings_part().1,
            r.2@ == self@.params_part().1,
            r.3@ == self@.class_data_part().1,
            r.2@.len() == self@.protos.len(),
            r.3@.len() == self@.classes.len(),
    {
        let ghost b = self@;
        let ns = self.strings.len() as u32;
        let nt = self.types.len() as u32;
        let np = self.protos.len() as u32;
        let nm = self.methods.len() as u32;
        let nc = self.classes.len() as u32;
        let type_ids_off = 0x70u32.wrapping_add(ns.wrapping_mul(4));
        let proto_ids_off = type_ids_off.wrapping_add(nt.wrapping_mul(4));
        let field_ids_off = proto_ids_off.wrapping_add(np.wrapping_mul(12));
        let method_ids_off = field_ids_off;
        let class_defs_off = method_ids_off.wrapping_add(nm.wrapping_mul(8));
        let data_off = class_defs_off.wrapping_add(nc.wrapping_mul(32)).wrapping_add(3) & 0xFFFF_FFFC;
        assert(data_off == b.data_off());
        let (mut data, soffs) = self.build_strings(data_off);
        let poffs = self.build_params(data_off, &mut data);
        let coffs = self.build_code(data_off, &mut data);
        let cdoffs = self.build_class_data(data_off, &mut data, &coffs);
        proof {
            reveal(BuilderView::data);
            lemma_params_fold_len(b.protos, b.protos.len() as int, data_off, b.strings_part().0);
            lemma_class_data_fold_len(b.classes, b.classes.len() as int, data_off, b.code_part().0, b.code_part().1);
        }
        (data, soffs, poffs, cdoffs)
    }

    /// Lays the builder out as a DEX file.
    pub fn finish(self) -> (r: Vec<u8>)
        ensures
            r@ == self@.image(),
    {
        let ghost b = self@;
        let (data, soffs, poffs, cdoffs) = self.build_data();
        let mut out = self.write_header(&data);
        self.write_tables(&mut out, &soffs, &poffs, &cdoffs);
        let data_off = self.data_off_exec();
        assemble(out, data_off, &data)
    }

    fn data_off_exec(&self) -> (r: u32)
        ensures
            r == self@.data_off(),
    {
        let ns = self.strings.len() as u32;
        let nt = self.types.len() as u32;
        let np = self.protos.len() as u32;
        let nm = self.methods.len() as u32;
        let nc = self.classes.len() as u32;
        let type_ids_off = 0x70u32.wrapping_add(ns.wrapping_mul(4));
        let proto_ids_off = type_ids_off.wrapping_add(nt.wrapping_mul(4));
        let field_ids_off = proto_ids_off.wrapping_add(np.wrapping_mul(12));
        let class_defs_off = field_ids_off.wrapping_add(nm.wrapping_mul(8));
        class_defs_off.wrapping_add(nc.wrapping_mul(32)).wrapping_add(3) & 0xFFFF_FFFC
    }
}


// ── Fixtures ──────────────────────────────────────────────────────────

pub open spec fn code_view(regs: u16, ins: u16, outs: u16, insns: Seq<u16>) -> CodeView {
    CodeView { registers_size: regs, ins_size: ins, outs_size: outs, insns: insns }
}

/// The builder state of the hello-world DEX: `Lcom/nekodroid/Hello;` with
/// `main`, which loads a string and hands it to `Lnekodroid/Hle;.println`,
/// and an empty `<init>`.
pub open spec fn hello_builder() -> BuilderView {
    BuilderView {
        strings: seq![
            "Hello from NekoDroid"@,
            "main"@,
            "<init>"@,
            "println"@,
            "V"@,
            "VL"@,
            "V[L"@,
            "Lcom/nekodroid/Hello;"@,
            "Ljava/lang/Object;"@,
            "Lnekodroid/Hle;"@,
            "Ljava/lang/String;"@,
            "[Ljava/lang/String;"@,
        ],
        types: seq![7u32, 8, 9, 10, 11, 4],
        protos: seq![(4u32, 5u32, Seq::<u16>::empty()), (5u32, 5u32, seq![3u16]), (6u32, 5u32, seq![4u16])],
        methods: seq![(2u16, 1u16, 3u32), (0u16, 2u16, 1u32), (0u16, 0u16, 2u32)],
        classes: seq![
            ClassBuildView {
                class_idx: 0,
                superclass_idx: 1,
                methods: seq![
                    EncodedView { method_idx: 2, access_flags: 0x10001, code: Some(code_view(1, 1, 0, seq![0x000eu16])) },
                    EncodedView {
                        method_idx: 1,
                        access_flags: 0x0009,
                        code: Some(code_view(2, 1, 1, seq![0x001au16, 0, 0x1071, 0, 0x0000, 0x000e])),
                    },
                ],
            },
        ],
    }
}

/// The builder state of the arithmetic DEX: `Lcom/nekodroid/Arith;.main`
/// adds 2 and 3 and hands the sum to `Lnekodroid/Hle;.printInt`.
pub open spec fn arith_builder() -> BuilderView {
    BuilderView {
        strings: seq![
            "main"@,
            "<init>"@,
            "printInt"@,
            "V"@,
            "VI"@,
            "V[L"@,
            "Lcom/nekodroid/Arith;"@,
            "Ljava/lang/Object;"@,
            "Lnekodroid/Hle;"@,
            "[Ljava/lang/String;"@,
            "I"@,
        ],
        types: seq![6u32, 7, 8, 9, 3, 10],
        protos: seq![(3u32, 4u32, Seq::<u16>::empty()), (4u32, 4u32, seq![5u16]), (5u32, 4u32, seq![3u16])],
        methods: seq![(2u16, 1u16, 2u32), (0u16, 2u16, 0u32), (0u16, 0u16, 1u32)],
        classes: seq![
            ClassBuildView {
                class_idx: 0,
                superclass_idx: 1,
                methods: seq![
                    EncodedView { method_idx: 2, access_flags: 0x10001, code: Some(code_view(1, 1, 0, seq![0x000eu16])) },
                    EncodedView {
                        method_idx: 1,
                        access_flags: 0x0009,
                        code: Some(code_view(2, 1, 1, seq![0x2012u16, 0x3112, 0x10b0, 0x1071, 0, 0x0000, 0x000e])),
                    },
                ],
            },
        ],
    }
}

fn hello_names(b: &mut DexBuilder) -> (r: (u32, u32, u32, u32, u32, u32, u32))
    requires
        old(b)@ == BuilderView::empty(),
    ensures
        final(b)@ == (BuilderView { strings: hello_builder().strings.take(7), ..BuilderView::empty() }),
        r == (0u32, 1u32, 2u32, 3u32, 4u32, 5u32, 6u32),
        final(b)@.wf(),
{
    proof {
        reveal_strlit("Hello from NekoDroid");
        reveal_strlit("main");
        reveal_strlit("<init>");
        reveal_strlit("println");
        reveal_strlit("V");
        reveal_strlit("VL");
        reveal_strlit("V[L");
        assert("Hello from NekoDroid"@.len() == 20);
        assert("main"@.len() == 4);
        assert("<init>"@.len() == 6);
        assert("println"@.len() == 7);
        assert("V"@.len() == 1);
        assert("VL"@.len() == 2);
        assert("V[L"@.len() == 3);
        reveal_with_fuel(find_from, 8);
    }
    assert(find_from(b@.strings, "Hello from NekoDroid"@, 0) is None);
    let s_hello = b.string("Hello from NekoDroid");
    assert(b@.strings =~= seq!["Hello from NekoDroid"@]);
    assert(find_from(b@.strings, "main"@, 0) is None);
    let s_main = b.string("main");
    assert(b@.strings =~= seq!["Hello from NekoDroid"@, "main"@]);
    assert(find_from(b@.strings, "<init>"@, 0) is None);
    let s_init = b.string("<init>");
    assert(b@.strings =~= seq!["Hello from NekoDroid"@, "main"@, "<init>"@]);
    assert(find_from(b@.strings, "println"@, 0) is None);
    let s_println = b.string("println");
    assert(b@.strings =~= seq!["Hello from NekoDroid"@, "main"@, "<init>"@, "println"@]);
    assert(find_from(b@.strings, "V"@, 0) is None);
    let _s_v = b.string("V");
    assert(b@.strings =~= seq!["Hello from NekoDroid"@, "main"@, "<init>"@, "println"@, "V"@]);
    assert(find_from(b@.strings, "V"@, 0) == Some(4int));
    let s_shorty_v = b.string("V");
    assert(b@.strings =~= seq!["Hello from NekoDroid"@, "main"@, "<init>"@, "println"@, "V"@]);
    assert(find_from(b@.strings, "VL"@, 0) is None);
    let s_shorty_l = b.string("VL");
    assert(b@.strings =~= seq!["Hello from NekoDroid"@, "main"@, "<init>"@, "println"@, "V"@, "VL"@]);
    assert(find_from(b@.strings, "V[L"@, 0) is None);
    let s_shorty_va = b.string("V[L");
    assert(b@.strings =~= hello_builder().strings.take(7));
    assert(b@ =~= (BuilderView { strings: hello_builder().strings.take(7), ..BuilderView::empty() }));
    (s_hello, s_main, s_init, s_println, s_shorty_v, s_shorty_l, s_shorty_va)
}

fn hello_types(b: &mut DexBuilder) -> (r: (u32, u32, u32, u32, u32, u32))
    requires
        old(b)@ == (BuilderView { strings: hello_builder().strings.take(7), ..BuilderView::empty() }),
        old(b)@.wf(),
    ensures
        final(b)@ == (BuilderView { strings: hello_builder().strings, types: hello_builder().types, ..BuilderView::empty() }),
        r == (0u32, 1u32, 2u32, 3u32, 4u32, 5u32),
        final(b)@.wf(),
{
    proof {
        reveal_strlit("Hello from NekoDroid");
        reveal_strlit("main");
        reveal_strlit("<init>");
        reveal_strlit("println");
        reveal_strlit("V");
        reveal_strlit("VL");
        reveal_strlit("V[L");
        reveal_strlit("Lcom/nekodroid/Hello;");
        reveal_strlit("Ljava/lang/Object;");
        reveal_strlit("Lnekodroid/Hle;");
        reveal_strlit("Ljava/lang/String;");
        reveal_strlit("[Ljava/lang/String;");
        assert("Hello from NekoDroid"@.len() == 20);
        assert("main"@.len() == 4);
        assert("<init>"@.len() == 6);
        assert("println"@.len() == 7);
        assert("V"@.len() == 1);
        assert("VL"@.len() == 2);
        assert("V[L"@.len() == 3);
        assert("Lcom/nekodroid/Hello;"@.len() == 21);
        assert("Ljava/lang/Object;"@.len() == 18);
        assert("Lnekodroid/Hle;"@.len() == 15);
        assert("Ljava/lang/String;"@.len() == 18);
        assert("[Ljava/lang/String;"@.len() == 19);
        reveal_with_fuel(find_from, 13);
        reveal_with_fuel(find_type_from, 7);
        assert("Ljava/lang/String;"@[11] != "Ljava/lang/Object;"@[11]);
    }
    let ghost s7 = hello_builder().strings.take(7);
    let t_hello = b.type_of("Lcom/nekodroid/Hello;");
    assert(b@.strings =~= s7.push("Lcom/nekodroid/Hello;"@));
    assert(b@.types =~= seq![7u32]);
    let t_object = b.type_of("Ljava/lang/Object;");
    assert(b@.strings =~= s7.push("Lcom/nekodroid/Hello;"@).push("Ljava/lang/Object;"@));
    assert(b@.types =~= seq![7u32, 8]);
    let t_hle = b.type_of("Lnekodroid/Hle;");
    assert(b@.strings =~= s7.push("Lcom/nekodroid/Hello;"@).push("Ljava/lang/Object;"@).push("Lnekodroid/Hle;"@));
    assert(b@.types =~= seq![7u32, 8, 9]);
    let t_string = b.type_of("Ljava/lang/String;");
    assert(b@.strings =~= s7.push("Lcom/nekodroid/Hello;"@).push("Ljava/lang/Object;"@).push("Lnekodroid/Hle;"@).push(
        "Ljava/lang/String;"@,
    ));
    assert(b@.types =~= seq![7u32, 8, 9, 10]);
    let t_string_arr = b.type_of("[Ljava/lang/String;");
    assert(b@.strings =~= hello_builder().strings);
    assert(b@.types =~= seq![7u32, 8, 9, 10, 11]);
    let t_void = b.type_of("V");
    assert(b@.strings =~= hello_builder().strings);
    assert(b@.types =~= hello_builder().types);
    assert(b@ =~= (BuilderView { strings: hello_builder().strings, types: hello_builder().types, ..BuilderView::empty() }));
    (t_hello, t_object, t_hle, t_string, t_string_arr, t_void)
}

/// Builds the hello-world DEX file.
pub fn build_hello_dex() -> (r: Result<Vec<u8>, AndroidError>)
    ensures
        r matches Ok(v) && v@ == hello_builder().image(),
{
    let mut b = DexBuilder::new();
    let (s_hello, s_main, s_init, s_println, s_shorty_v, s_shorty_l, s_shorty_va) = hello_names(&mut b);
    let (t_hello, t_object, t_hle, t_string, t_string_arr, t_void) = hello_types(&mut b);
    let none: Vec<u32> = Vec::new();
    let mut one_string: Vec<u32> = Vec::new();
    one_string.push(t_string);
    let mut one_array: Vec<u32> = Vec::new();
    one_array.push(t_string_arr);
    let p_void = b.proto(s_shorty_v, t_void, none.as_slice());
    let p_println = b.proto(s_shorty_l, t_void, one_string.as_slice());
    let p_main = b.proto(s_shorty_va, t_void, one_array.as_slice());
    let m_println = b.method(t_hle, p_println, s_println);
    let m_main = b.method(t_hello, p_main, s_main);
    let m_init = b.method(t_hello, p_void, s_init);
    let mut insns: Vec<u16> = Vec::new();
    insns.push(0x001a);
    insns.push(s_hello as u16);
    insns.push(0x1071);
    insns.push(m_println as u16);
    insns.push(0x0000);
    insns.push(0x000e);
    let code_main = CodeItem { registers_size: 2, ins_size: 1, outs_size: 1, insns };
    let mut init_insns: Vec<u16> = Vec::new();
    init_insns.push(0x000e);
    let code_init = CodeItem { registers_size: 1, ins_size: 1, outs_size: 0, insns: init_insns };
    let mut methods: Vec<EncodedMethod> = Vec::new();
    methods.push(EncodedMethod { method_idx: m_init, access_flags: 0x10001, code: Some(code_init) });
    methods.push(EncodedMethod { method_idx: m_main, access_flags: 0x0009, code: Some(code_main) });
    b.add_class(t_hello, t_object, methods);
    proof {
        assert(seq![3u32].map_values(|p: u32| p as u16) =~= seq![3u16]);
        assert(seq![4u32].map_values(|p: u32| p as u16) =~= seq![4u16]);
        assert(Seq::<u32>::empty().map_values(|p: u32| p as u16) =~= Seq::<u16>::empty());
        assert(b@.protos =~= hello_builder().protos);
        assert(b@.methods =~= hello_builder().methods);
        assert(b@.classes =~~= hello_builder().classes);
        assert(b@ =~= hello_builder());
    }
    Ok(b.finish())
}

fn arith_names(b: &mut DexBuilder) -> (r: (u32, u32, u32, u32, u32, u32))
    requires
        old(b)@ == BuilderView::empty(),
    ensures
        final(b)@ == (BuilderView { strings: arith_builder().strings.take(6), ..BuilderView::empty() }),
        r == (0u32, 1u32, 2u32, 3u32, 4u32, 5u32),
        final(b)@.wf(),
{
    proof {
        reveal_strlit("main");
        reveal_strlit("<init>");
        reveal_strlit("printInt");
        reveal_strlit("V");
        reveal_strlit("VI");
        reveal_strlit("V[L");
        assert("main"@.len() == 4);
        assert("<init>"@.len() == 6);
        assert("printInt"@.len() == 8);
        assert("V"@.len() == 1);
        assert("VI"@.len() == 2);
        assert("V[L"@.len() == 3);
        reveal_with_fuel(find_from, 7);
    }
    assert(find_from(b@.strings, "main"@, 0) is None);
    let s_main = b.string("main");
    assert(b@.strings =~= seq!["main"@]);
    assert(find_from(b@.strings, "<init>"@, 0) is None);
    let s_init = b.string("<init>");
    assert(b@.strings =~= seq!["main"@, "<init>"@]);
    assert(find_from(b@.strings, "printInt"@, 0) is None);
    let s_print_int = b.string("printInt");
    assert(b@.strings =~= seq!["main"@, "<init>"@, "printInt"@]);
    assert(find_from(b@.strings, "V"@, 0) is None);
    let _s_v = b.string("V");
    assert(b@.strings =~= seq!["main"@, "<init>"@, "printInt"@, "V"@]);
    assert(find_from(b@.strings, "V"@, 0) == Some(3int));
    let s_shorty_v = b.string("V");
    assert(b@.strings =~= seq!["main"@, "<init>"@, "printInt"@, "V"@]);
    assert(find_from(b@.strings, "VI"@, 0) is None);
    let s_shorty_i = b.string("VI");
    assert(b@.strings =~= seq!["main"@, "<init>"@, "printInt"@, "V"@, "VI"@]);
    assert(find_from(b@.strings, "V[L"@, 0) is None);
    let s_shorty_va = b.string("V[L");
    assert(b@.strings =~= arith_builder().strings.take(6));
    assert(b@ =~= (BuilderView { strings: arith_builder().strings.take(6), ..BuilderView::empty() }));
    (s_main, s_init, s_print_int, s_shorty_v, s_shorty_i, s_shorty_va)
}

fn arith_types(b: &mut DexBuilder) -> (r: (u32, u32, u32, u32, u32, u32))
    requires
        old(b)@ == (BuilderView { strings: arith_builder().strings.take(6), ..BuilderView::empty() }),
        old(b)@.wf(),
    ensures
        final(b)@ == (BuilderView { strings: arith_builder().strings, types: arith_builder().types, ..BuilderView::empty() }),
        r == (0u32, 1u32, 2u32, 3u32, 4u32, 5u32),
        final(b)@.wf(),
{
    proof {
        reveal_strlit("main");
        reveal_strlit("<init>");
        reveal_strlit("printInt");
        reveal_strlit("V");
        reveal_strlit("VI");
        reveal_strlit("V[L");
        reveal_strlit("Lcom/nekodroid/Arith;");
        reveal_strlit("Ljava/lang/Object;");
        reveal_strlit("Lnekodroid/Hle;");
        reveal_strlit("[Ljava/lang/String;");
        reveal_strlit("I");
        assert("main"@.len() == 4);
        assert("<init>"@.len() == 6);
        assert("printInt"@.len() == 8);
        assert("V"@.len() == 1);
        assert("VI"@.len() == 2);
        assert("V[L"@.len() == 3);
        assert("Lcom/nekodroid/Arith;"@.len() == 21);
        assert("Ljava/lang/Object;"@.len() == 18);
        assert("Lnekodroid/Hle;"@.len() == 15);
        assert("[Ljava/lang/String;"@.len() == 19);
        assert("I"@.len() == 1);
        reveal_with_fuel(find_from, 12);
        reveal_with_fuel(find_type_from, 7);
        assert("I"@[0] != "V"@[0]);
    }
    let ghost s6 = arith_builder().strings.take(6);
    let t_arith = b.type_of("Lcom/nekodroid/Arith;");
    assert(b@.strings =~= s6.push("Lcom/nekodroid/Arith;"@));
    assert(b@.types =~= seq![6u32]);
    let t_object = b.type_of("Ljava/lang/Object;");
    assert(b@.strings =~= s6.push("Lcom/nekodroid/Arith;"@).push("Ljava/lang/Object;"@));
    assert(b@.types =~= seq![6u32, 7]);
    let t_hle = b.type_of("Lnekodroid/Hle;");
    assert(b@.strings =~= s6.push("Lcom/nekodroid/Arith;"@).push("Ljava/lang/Object;"@).push("Lnekodroid/Hle;"@));
    assert(b@.types =~= seq![6u32, 7, 8]);
    let t_string_arr = b.type_of("[Ljava/lang/String;");
    assert(b@.strings =~= arith_builder().strings.take(10));
    assert(b@.types =~= seq![6u32, 7, 8, 9]);
    let t_void = b.type_of("V");
    assert(b@.strings =~= arith_builder().strings.take(10));
    assert(b@.types =~= seq![6u32, 7, 8, 9, 3]);
    let t_int = b.type_of("I");
    assert(b@.strings =~= arith_builder().strings);
    assert(b@.types =~= arith_builder().types);
    assert(b@ =~= (BuilderView { strings: arith_builder().strings, types: arith_builder().types, ..BuilderView::empty() }));
    (t_arith, t_object, t_hle, t_string_arr, t_void, t_int)
}

/// Builds the DEX that adds 2 and 3 and prints the sum.
pub fn build_arith_dex() -> (r: Result<Vec<u8>, AndroidError>)
    ensures
        r matches Ok(v) && v@ == arith_builder().image(),
{
    let mut b = DexBuilder::new();
    let (s_main, s_init, s_print_int, s_shorty_v, s_shorty_i, s_shorty_va) = arith_names(&mut b);
    let (t_arith, t_object, t_hle, t_string_arr, t_void, t_int) = arith_types(&mut b);
    let none: Vec<u32> = Vec::new();
    let mut one_int: Vec<u32> = Vec::new();
    one_int.push(t_int);
    let mut one_array: Vec<u32> = Vec::new();
    one_array.push(t_string_arr);
    let p_void = b.proto(s_shorty_v, t_void, none.as_slice());
    let p_print_int = b.proto(s_shorty_i, t_void, one_int.as_slice());
    let p_main = b.proto(s_shorty_va, t_void, one_array.as_slice());
    let m_print_int = b.method(t_hle, p_print_int, s_print_int);
    let m_main = b.method(t_arith, p_main, s_main);
    let m_init = b.method(t_arith, p_void, s_init);
    let mut insns: Vec<u16> = Vec::new();
    insns.push(0x2012);
    insns.push(0x3112);
    insns.push(0x10b0);
    insns.push(0x1071);
    insns.push(m_print_int as u16);
    insns.push(0x0000);
    insns.push(0x000e);
    let code_main = CodeItem { registers_size: 2, ins_size: 1, outs_size: 1, insns };
    let mut init_insns: Vec<u16> = Vec::new();
    init_insns.push(0x000e);
    let code_init = CodeItem { registers_size: 1, ins_size: 1, outs_size: 0, insns: init_insns };
    let mut methods: Vec<EncodedMethod> = Vec::new();
    methods.push(EncodedMethod { method_idx: m_init, access_flags: 0x10001, code: Some(code_init) });
    methods.push(EncodedMethod { method_idx: m_main, access_flags: 0x0009, code: Some(code_main) });
    b.add_class(t_arith, t_object, methods);
    proof {
        assert(seq![5u32].map_values(|p: u32| p as u16) =~= seq![5u16]);
        assert(seq![3u32].map_values(|p: u32| p as u16) =~= seq![3u16]);
        assert(Seq::<u32>::empty().map_values(|p: u32| p as u16) =~= Seq::<u16>::empty());
        assert(b@.protos =~= arith_builder().protos);
        assert(b@.methods =~= arith_builder().methods);
        assert(b@.classes =~~= arith_builder().classes);
        assert(b@ =~= arith_builder());
    }
    Ok(b.finish())
}


// ── Sizes of the laid-out file ────────────────────────────────────────

proof fn lemma_uleb_len(v: u32)
    ensures
        uleb_bytes(v).len() <= 5,
        v < 0x1000_0000 ==> uleb_bytes(v).len() <= 4,
        v < 0x20_0000 ==> uleb_bytes(v).len() <= 3,
        v < 0x4000 ==> uleb_bytes(v).len() <= 2,
    decreases v,
{
    if v >> 7 != 0 {
        assert(v >> 7 < v) by (bit_vector)
            requires
                v >> 7 != 0,
        ;
        assert((v >> 7) < 0x200_0000) by (bit_vector);
        assert(v < 0x1000_0000 ==> (v >> 7) < 0x20_0000) by (bit_vector);
        assert(v < 0x20_0000 ==> (v >> 7) < 0x4000) by (bit_vector);
        assert(v < 0x4000 ==> ((v >> 7) >> 7) == 0) by (bit_vector);
        lemma_uleb_len(v >> 7);
        if v < 0x4000 {
            assert(uleb_bytes(v >> 7).len() == 1);
        }
    }
}

proof fn lemma_encode_utf8_len(s: Seq<char>)
    ensures
        vstd::utf8::encode_utf8(s).len() <= 4 * s.len(),
    decreases s.len(),
{
    if s.len() > 0 {
        lemma_encode_utf8_len(s.drop_first());
    }
}

proof fn lemma_le16s_len(v: Seq<u16>)
    ensures
        le16s(v).len() == 2 * v.len(),
    decreases v.len(),
{
    if v.len() > 0 {
        lemma_le16s_len(v.drop_last());
    }
}

proof fn lemma_le32s_len(v: Seq<u32>)
    ensures
        le32s(v).len() == 4 * v.len(),
    decreases v.len(),
{
    if v.len() > 0 {
        lemma_le32s_len(v.drop_last());
    }
}

proof fn lemma_strings_fold_size(ss: Seq<Seq<char>>, k: int, base: u32)
    requires
        k <= ss.len(),
        forall|i: int| 0 <= i < ss.len() ==> #[trigger] ss[i].len() <= 32,
    ensures
        strings_fold(ss, k, base).0.len() <= 150 * (if k > 0 { k } else { 0 }),
        strings_fold(ss, k, base).1.len() == if k > 0 { k } else { 0 },
    decreases k,
{
    if k > 0 {
        lemma_strings_fold_size(ss, k - 1, base);
        lemma_uleb_len(ss[k - 1].len() as u32);
        lemma_encode_utf8_len(ss[k - 1]);
    }
}

proof fn lemma_params_fold_size(ps: Seq<(u32, u32, Seq<u16>)>, k: int, base: u32, d0: Seq<u8>)
    requires
        k <= ps.len(),
        forall|i: int| 0 <= i < ps.len() ==> #[trigger] ps[i].2.len() <= 16,
    ensures
        params_fold(ps, k, base, d0).0.len() <= d0.len() + 50 * (if k > 0 { k } else { 0 }),
        params_fold(ps, k, base, d0).1.len() == if k > 0 { k } else { 0 },
    decreases k,
{
    if k > 0 {
        lemma_params_fold_size(ps, k - 1, base, d0);
        lemma_le16s_len(ps[k - 1].2);
    }
}

proof fn lemma_code_fold_class_size(ms: Seq<EncodedView>, k: int, base: u32, d0: Seq<u8>, offs0: Seq<(u32, u32)>)
    requires
        k <= ms.len(),
        forall|i: int| 0 <= i < ms.len() ==> ((#[trigger] ms[i]).code matches Some(c) ==> c.insns.len() <= 16),
    ensures
        code_fold_class(ms, k, base, d0, offs0).0.len() <= d0.len() + 100 * (if k > 0 { k } else { 0 }),
    decreases k,
{
    if k > 0 {
        lemma_code_fold_class_size(ms, k - 1, base, d0, offs0);
        match ms[k - 1].code {
            Some(c) => {
                lemma_le16s_len(c.insns);
            },
            None => {},
        }
    }
}

/// Small classes: at most 4 methods, each with at most 16 code units.
pub open spec fn small_classes(cs: Seq<ClassBuildView>) -> bool {
    forall|i: int| 0 <= i < cs.len() ==> {
        &&& (#[trigger] cs[i]).methods.len() <= 4
        &&& forall|j: int| 0 <= j < cs[i].methods.len() ==> ((#[trigger] cs[i].methods[j]).code matches Some(c)
            ==> c.insns.len() <= 16)
    }
}

proof fn lemma_code_fold_size(cs: Seq<ClassBuildView>, k: int, base: u32, d0: Seq<u8>)
    requires
        k <= cs.len(),
        small_classes(cs),
    ensures
        code_fold(cs, k, base, d0).0.len() <= d0.len() + 400 * (if k > 0 { k } else { 0 }),
    decreases k,
{
    if k > 0 {
        lemma_code_fold_size(cs, k - 1, base, d0);
        let c = cs[k - 1];
        let (d, o) = code_fold(cs, k - 1, base, d0);
        assert(c.methods.len() <= 4);
        assert forall|i: int| 0 <= i < c.methods.len() implies ((#[trigger] c.methods[i]).code matches Some(cc)
            ==> cc.insns.len() <= 16) by {
            assert(cs[k - 1].methods[i] == c.methods[i]);
        }
        lemma_code_fold_class_size(c.methods, c.methods.len() as int, base, d, o);
    }
}

proof fn lemma_insert_sorted_len(s: Seq<(u32, u32)>, x: (u32, u32))
    ensures
        insert_sorted(s, x).len() == s.len() + 1,
    decreases s.len(),
{
    if s.len() > 0 && s.last().0 > x.0 {
        lemma_insert_sorted_len(s.drop_last(), x);
    }
}

proof fn lemma_sort_len(s: Seq<(u32, u32)>)
    ensures
        sort_by_key(s).len() == s.len(),
    decreases s.len(),
{
    if s.len() > 0 {
        lemma_sort_len(s.drop_last());
        lemma_insert_sorted_len(sort_by_key(s.drop_last()), s.last());
    }
}

proof fn lemma_method_entries_len(sorted: Seq<(u32, u32)>, k: int, offs: Seq<(u32, u32)>)
    ensures
        method_entries(sorted, k, offs).len() <= 15 * (if k > 0 { k } else { 0 }),
    decreases k,
{
    if k > 0 {
        lemma_method_entries_len(sorted, k - 1, offs);
        let prev: u32 = if k >= 2 { sorted[k - 2].0 } else { 0 };
        lemma_uleb_len(sorted[k - 1].0.wrapping_sub(prev));
        lemma_uleb_len(sorted[k - 1].1);
        lemma_uleb_len(lookup_off(offs, sorted[k - 1].0));
    }
}

proof fn lemma_class_data_fold_size(cs: Seq<ClassBuildView>, k: int, base: u32, d0: Seq<u8>, offs: Seq<(u32, u32)>)
    requires
        k <= cs.len(),
        small_classes(cs),
    ensures
        class_data_fold(cs, k, base, d0, offs).0.len() <= d0.len() + 100 * (if k > 0 { k } else { 0 }),
        class_data_fold(cs, k, base, d0, offs).1.len() == if k > 0 { k } else { 0 },
    decreases k,
{
    if k > 0 {
        lemma_class_data_fold_size(cs, k - 1, base, d0, offs);
        let c = cs[k - 1];
        assert(c.methods.len() <= 4);
        let keys = method_keys(c.methods);
        lemma_sort_len(keys);
        let sorted = sort_by_key(keys);
        lemma_method_entries_len(sorted, sorted.len() as int, offs);
        lemma_uleb_len(0);
        lemma_uleb_len(c.methods.len() as u32);
    }
}

proof fn lemma_proto_ids_len(ps: Seq<(u32, u32, Seq<u16>)>, poffs: Seq<u32>, k: int)
    ensures
        proto_ids(ps, poffs, k).len() == 12 * (if k > 0 { k } else { 0 }),
    decreases k,
{
    if k > 0 {
        lemma_proto_ids_len(ps, poffs, k - 1);
    }
}

proof fn lemma_method_ids_len(ms: Seq<(u16, u16, u32)>, k: int)
    ensures
        method_ids(ms, k).len() == 8 * (if k > 0 { k } else { 0 }),
    decreases k,
{
    if k > 0 {
        lemma_method_ids_len(ms, k - 1);
    }
}

proof fn lemma_class_defs_len(cs: Seq<ClassBuildView>, cdoffs: Seq<u32>, k: int)
    ensures
        class_defs(cs, cdoffs, k).len() == 32 * (if k > 0 { k } else { 0 }),
    decreases k,
{
    if k > 0 {
        lemma_class_defs_len(cs, cdoffs, k - 1);
    }
}

/// Whether a builder is small: at most 64 strings of at most 32
/// characters, 64 types, 64 prototypes of at most 16 parameters, 64
/// methods and 16 small classes.
pub open spec fn small_builder(b: BuilderView) -> bool {
    &&& b.strings.len() <= 64
    &&& b.types.len() <= 64
    &&& b.protos.len() <= 64
    &&& b.methods.len() <= 64
    &&& b.classes.len() <= 16
    &&& forall|i: int| 0 <= i < b.strings.len() ==> #[trigger] b.strings[i].len() <= 32
    &&& forall|i: int| 0 <= i < b.protos.len() ==> #[trigger] b.protos[i].2.len() <= 16
    &&& small_classes(b.classes)
}

proof fn lemma_header_len(b: BuilderView)
    ensures
        b.header().len() == 0x70,
{
    reveal(BuilderView::header);
}

proof fn lemma_small_mul(x: u32, c: u32)
    requires
        x <= 64,
        c <= 32,
    ensures
        x.wrapping_mul(c) == x * c,
{
    assert(x * c <= 64 * 32) by (nonlinear_arith)
        requires
            x <= 64,
            c <= 32,
    ;
    assert((x as nat * c as nat) % 0x1_0000_0000 == x * c);
}

proof fn lemma_data_off_small(b: BuilderView)
    requires
        b.strings.len() <= 64,
        b.types.len() <= 64,
        b.protos.len() <= 64,
        b.methods.len() <= 64,
        b.classes.len() <= 16,
    ensures
        b.data_off() <= 0x70 + 4 * b.strings.len() + 4 * b.types.len() + 12 * b.protos.len() + 8 * b.methods.len()
            + 32 * b.classes.len() + 3,
{
    lemma_small_mul(b.ns(), 4);
    lemma_small_mul(b.nt(), 4);
    lemma_small_mul(b.np(), 12);
    lemma_small_mul(b.nm(), 8);
    lemma_small_mul(b.nc(), 32);
    let t = b.type_ids_off();
    assert(t == 0x70 + 4 * b.strings.len());
    let p = b.proto_ids_off();
    assert(p == t + 4 * b.types.len());
    let f = b.field_ids_off();
    assert(f == p + 12 * b.protos.len());
    let c = b.class_defs_off();
    assert(c == f + 8 * b.methods.len());
    let y = c.wrapping_add(b.nc().wrapping_mul(32));
    assert(y == c + 32 * b.classes.len());
    let x = y.wrapping_add(3);
    assert(x == y + 3);
    assert(x & 0xFFFF_FFFCu32 <= x) by (bit_vector);
}

proof fn lemma_tables_len(b: BuilderView)
    ensures
        b.tables().len() == 0x70 + 4 * b.strings.len() + 4 * b.types.len() + 12 * b.protos.len() + 8 * b.methods.len()
            + 32 * b.classes.len(),
{
    reveal(BuilderView::tables);
    lemma_header_len(b);
    lemma_strings_fold_len_count(b.strings, b.strings.len() as int, b.data_off());
    lemma_params_fold_len(b.protos, b.protos.len() as int, b.data_off(), b.strings_part().0);
    lemma_class_data_fold_len(b.classes, b.classes.len() as int, b.data_off(), b.code_part().0, b.code_part().1);
    lemma_le32s_len(b.strings_part().1);
    lemma_le32s_len(b.types);
    lemma_proto_ids_len(b.protos, b.params_part().1, b.protos.len() as int);
    lemma_method_ids_len(b.methods, b.methods.len() as int);
    lemma_class_defs_len(b.classes, b.class_data_part().1, b.classes.len() as int);
}

proof fn lemma_strings_fold_len_count(ss: Seq<Seq<char>>, k: int, base: u32)
    ensures
        strings_fold(ss, k, base).1.len() == if k > 0 { k } else { 0 },
    decreases k,
{
    if k > 0 {
        lemma_strings_fold_len_count(ss, k - 1, base);
    }
}

proof fn lemma_data_len(b: BuilderView)
    requires
        small_builder(b),
    ensures
        b.data().len() <= 150 * b.strings.len() + 50 * b.protos.len() + 500 * b.classes.len(),
{
    reveal(BuilderView::data);
    lemma_strings_fold_size(b.strings, b.strings.len() as int, b.data_off());
    lemma_params_fold_size(b.protos, b.protos.len() as int, b.data_off(), b.strings_part().0);
    lemma_code_fold_size(b.classes, b.classes.len() as int, b.data_off(), b.params_part().0);
    lemma_class_data_fold_size(b.classes, b.classes.len() as int, b.data_off(), b.code_part().0, b.code_part().1);
}

/// A small builder lays out to a file of less than 64 KiB.
proof fn lemma_small_image(b: BuilderView)
    requires
        small_builder(b),
    ensures
        b.image().len() < 0x1_0000,
{
    lemma_tables_len(b);
    lemma_data_len(b);
    lemma_data_off_small(b);
    let body = b.body();
    assert(body.len() >= 12);
    assert(b.image().len() == body.len());
}

proof fn lemma_le32_bytes_word(v: u32)
    ensures
        crate::memory::le_word(le32_bytes(v)[0], le32_bytes(v)[1], le32_bytes(v)[2], le32_bytes(v)[3]) == v,
{
    let b0 = (v & 0xff) as u8;
    let b1 = ((v >> 8) & 0xff) as u8;
    let b2 = ((v >> 16) & 0xff) as u8;
    let b3 = (v >> 24) as u8;
    assert((b0 as u32) | ((b1 as u32) << 8) | ((b2 as u32) << 16) | ((b3 as u32) << 24) == v) by (bit_vector)
        requires
            b0 == (v & 0xff) as u8,
            b1 == ((v >> 8) & 0xff) as u8,
            b2 == ((v >> 16) & 0xff) as u8,
            b3 == (v >> 24) as u8,
    ;
}

proof fn lemma_checksummed(body: Seq<u8>)
    requires
        body.len() >= 36,
    ensures
        checksummed(body).len() == body.len(),
        checksummed(body).skip(12) == body.skip(12),
        crate::android::dex::u32_at(checksummed(body), 8) == Some(adler32_spec(body.skip(12))),
        crate::android::dex::u32_at(checksummed(body), 32) == crate::android::dex::u32_at(body, 32),
{
    let img = checksummed(body);
    let ck = adler32_spec(body.skip(12));
    assert(img.skip(12) =~= body.skip(12));
    assert(img[8] == le32_bytes(ck)[0] && img[9] == le32_bytes(ck)[1] && img[10] == le32_bytes(ck)[2] && img[11]
        == le32_bytes(ck)[3]);
    lemma_le32_bytes_word(ck);
    assert(img[32] == body[32] && img[33] == body[33] && img[34] == body[34] && img[35] == body[35]);
}

proof fn lemma_body_size(b: BuilderView)
    requires
        small_builder(b),
    ensures
        b.body().len() == b.data_off() + b.data().len(),
        b.body().len() < 0x1_0000,
        crate::android::dex::u32_at(b.body(), 32) == Some(b.file_size()),
        b.file_size() == b.body().len(),
        0x70 <= b.tables().len() <= b.data_off(),
{
    lemma_tables_len(b);
    lemma_data_len(b);
    lemma_data_off_small(b);
    let t = b.tables();
    let x = (t.len() + 3) as u32;
    assert(b.data_off() == x & 0xFFFF_FFFCu32) by {
        lemma_small_mul(b.ns(), 4);
        lemma_small_mul(b.nt(), 4);
        lemma_small_mul(b.np(), 12);
        lemma_small_mul(b.nm(), 8);
        lemma_small_mul(b.nc(), 32);
    }
    assert(x & 0xFFFF_FFFCu32 >= x - 3) by (bit_vector)
        requires
            x >= 3,
    ;
    lemma_header_field(b);
}

proof fn lemma_header_field(b: BuilderView)
    ensures
        b.tables().len() >= 0x70 ==> crate::android::dex::u32_at(b.body(), 32) == Some(b.file_size()),
{
    lemma_header_len(b);
    if b.tables().len() >= 0x70 {
        reveal(BuilderView::tables);
        reveal(BuilderView::header);
        let h = b.header();
        let body = b.body();
        assert(h.subrange(32, 36) =~= le32_bytes(b.file_size()));
        assert(body[32] == h[32] && body[33] == h[33] && body[34] == h[34] && body[35] == h[35]);
        lemma_le32_bytes_word(b.file_size());
    }
}

proof fn lemma_image_byte(b: BuilderView, k: int)
    requires
        small_builder(b),
        0 <= k < 8 || 12 <= k < 0x70,
    ensures
        b.image()[k] == b.header()[k],
{
    lemma_body_size(b);
    lemma_tables_len(b);
    lemma_header_len(b);
    lemma_checksummed(b.body());
    reveal(BuilderView::tables);
    let body = b.body();
    assert(body[k] == b.tables()[k]);
    assert(b.tables()[k] == b.header()[k]);
    let img = b.image();
    if k < 8 {
        assert(img[k] == body.take(8)[k]);
    } else {
        assert(img[k] == img.skip(12)[k - 12]);
    }
}

proof fn lemma_image_field(b: BuilderView, off: int, val: u32)
    requires
        small_builder(b),
        12 <= off <= 0x70 - 4,
        b.header().subrange(off, off + 4) == le32_bytes(val),
    ensures
        crate::android::dex::hdr(b.image(), off) == val,
{
    lemma_image_byte(b, off);
    lemma_image_byte(b, off + 1);
    lemma_image_byte(b, off + 2);
    lemma_image_byte(b, off + 3);
    lemma_header_len(b);
    let h = b.header();
    assert(h.subrange(off, off + 4)[0] == h[off]);
    assert(h.subrange(off, off + 4)[1] == h[off + 1]);
    assert(h.subrange(off, off + 4)[2] == h[off + 2]);
    assert(h.subrange(off, off + 4)[3] == h[off + 3]);
    assert(b.header()[off] == le32_bytes(val)[0]);
    assert(b.header()[off + 1] == le32_bytes(val)[1]);
    assert(b.header()[off + 2] == le32_bytes(val)[2]);
    assert(b.header()[off + 3] == le32_bytes(val)[3]);
    lemma_le32_bytes_word(val);
}

#[verifier::rlimit(50)]
proof fn lemma_header_magic(b: BuilderView)
    ensures
        b.header()[0] == 0x64 && b.header()[1] == 0x65 && b.header()[2] == 0x78 && b.header()[3] == 0x0a,
{
    reveal(BuilderView::header);
}

#[verifier::rlimit(50)]
proof fn lemma_header_at_40(b: BuilderView)
    ensures
        b.header().subrange(40, 44) == le32_bytes(0x1234_5678),
{
    reveal(BuilderView::header);
    assert(b.header().subrange(40, 44) =~= le32_bytes(0x1234_5678));
}

#[verifier::rlimit(50)]
proof fn lemma_header_at_56(b: BuilderView)
    ensures
        b.header().subrange(56, 60) == le32_bytes(b.ns()),
{
    reveal(BuilderView::header);
    assert(b.header().subrange(56, 60) =~= le32_bytes(b.ns()));
}

#[verifier::rlimit(50)]
proof fn lemma_header_at_60(b: BuilderView)
    ensures
        b.header().subrange(60, 64) == le32_bytes(0x70),
{
    reveal(BuilderView::header);
    assert(b.header().subrange(60, 64) =~= le32_bytes(0x70));
}

#[verifier::rlimit(50)]
proof fn lemma_header_at_68(b: BuilderView)
    ensures
        b.header().subrange(68, 72) == le32_bytes(b.type_ids_off()),
{
    reveal(BuilderView::header);
    assert(b.header().subrange(68, 72) =~= le32_bytes(b.type_ids_off()));
}

#[verifier::rlimit(50)]
proof fn lemma_header_at_76(b: BuilderView)
    ensures
        b.header().subrange(76, 80) == le32_bytes(b.proto_ids_off()),
{
    reveal(BuilderView::header);
    assert(b.header().subrange(76, 80) =~= le32_bytes(b.proto_ids_off()));
}

#[verifier::rlimit(50)]
proof fn lemma_header_at_80(b: BuilderView)
    ensures
        b.header().subrange(80, 84) == le32_bytes(0),
{
    reveal(BuilderView::header);
    assert(b.header().subrange(80, 84) =~= le32_bytes(0));
}

#[verifier::rlimit(50)]
proof fn lemma_header_at_92(b: BuilderView)
    ensures
        b.header().subrange(92, 96) == le32_bytes(b.method_ids_off()),
{
    reveal(BuilderView::header);
    assert(b.header().subrange(92, 96) =~= le32_bytes(b.method_ids_off()));
}

#[verifier::rlimit(50)]
proof fn lemma_header_at_100(b: BuilderView)
    ensures
        b.header().subrange(100, 104) == le32_bytes(b.class_defs_off()),
{
    reveal(BuilderView::header);
    assert(b.header().subrange(100, 104) =~= le32_bytes(b.class_defs_off()));
}

#[verifier::rlimit(50)]
proof fn lemma_header_at_64(b: BuilderView)
    ensures
        b.header().subrange(64, 68) == le32_bytes(b.nt()),
{
    reveal(BuilderView::header);
    assert(b.header().subrange(64, 68) =~= le32_bytes(b.nt()));
}

#[verifier::rlimit(50)]
proof fn lemma_header_at_72(b: BuilderView)
    ensures
        b.header().subrange(72, 76) == le32_bytes(b.np()),
{
    reveal(BuilderView::header);
    assert(b.header().subrange(72, 76) =~= le32_bytes(b.np()));
}

#[verifier::rlimit(50)]
proof fn lemma_header_at_88(b: BuilderView)
    ensures
        b.header().subrange(88, 92) == le32_bytes(b.nm()),
{
    reveal(BuilderView::header);
    assert(b.header().subrange(88, 92) =~= le32_bytes(b.nm()));
}

#[verifier::rlimit(50)]
proof fn lemma_header_at_96(b: BuilderView)
    ensures
        b.header().subrange(96, 100) == le32_bytes(b.nc()),
{
    reveal(BuilderView::header);
    assert(b.header().subrange(96, 100) =~= le32_bytes(b.nc()));
}

/// The file a small builder lays out has a valid DEX header: the magic,
/// the little-endian tag, its own length at offset 32, at offset 8 the
/// Adler-32 checksum of all its bytes from offset 12 on, and the number of
/// strings, types, prototypes, methods and classes of the builder.
#[verifier::rlimit(50)]
pub proof fn built_dex_header_fields(b: BuilderView)
    requires
        small_builder(b),
    ensures
        crate::android::dex::header_ok(b.image()),
        crate::android::dex::u32_at(b.image(), 32) == Some(b.image().len() as u32),
        crate::android::dex::u32_at(b.image(), 8) == Some(adler32_spec(b.image().skip(12))),
        crate::android::dex::hdr(b.image(), 56) == b.strings.len(),
        crate::android::dex::hdr(b.image(), 64) == b.types.len(),
        crate::android::dex::hdr(b.image(), 72) == b.protos.len(),
        crate::android::dex::hdr(b.image(), 88) == b.methods.len(),
        crate::android::dex::hdr(b.image(), 96) == b.classes.len(),
{
    let img = b.image();
    assert(crate::android::dex::u32_at(img, 32) == Some(img.len() as u32) && crate::android::dex::u32_at(img, 8)
        == Some(adler32_spec(img.skip(12))) && img.len() >= 0x70) by {
        lemma_body_size(b);
        lemma_tables_len(b);
        lemma_checksummed(b.body());
    }
    assert(crate::android::dex::dex_magic_ok(img)) by {
        lemma_header_magic(b);
        lemma_image_byte(b, 0);
        lemma_image_byte(b, 1);
        lemma_image_byte(b, 2);
        lemma_image_byte(b, 3);
    }
    assert(crate::android::dex::hdr(img, 40) == 0x1234_5678) by {
        lemma_header_at_40(b);
        lemma_image_field(b, 40, 0x1234_5678);
    }
    assert(crate::android::dex::hdr(img, 56) == b.strings.len()) by {
        lemma_header_at_56(b);
        lemma_image_field(b, 56, b.ns());
    }
    assert(crate::android::dex::hdr(img, 64) == b.types.len()) by {
        lemma_header_at_64(b);
        lemma_image_field(b, 64, b.nt());
    }
    assert(crate::android::dex::hdr(img, 72) == b.protos.len()) by {
        lemma_header_at_72(b);
        lemma_image_field(b, 72, b.np());
    }
    assert(crate::android::dex::hdr(img, 88) == b.methods.len()) by {
        lemma_header_at_88(b);
        lemma_image_field(b, 88, b.nm());
    }
    assert(crate::android::dex::hdr(img, 96) == b.classes.len()) by {
        lemma_header_at_96(b);
        lemma_image_field(b, 96, b.nc());
    }
}

// ── Reading the laid-out file back ────────────────────────────────────

/// Whether `a` is a prefix of `b`.
pub open spec fn prefix_of(a: Seq<u8>, b: Seq<u8>) -> bool {
    a.len() <= b.len() && forall|i: int| 0 <= i < a.len() ==> #[trigger] b[i] == a[i]
}

proof fn lemma_pad4_prefix(d: Seq<u8>)
    ensures
        prefix_of(d, pad4(d)),
        pad4(d).len() <= d.len() + 3,
{
}

proof fn lemma_params_prefix(ps: Seq<(u32, u32, Seq<u16>)>, k: int, base: u32, d0: Seq<u8>)
    ensures
        prefix_of(d0, params_fold(ps, k, base, d0).0),
    decreases k,
{
    if k > 0 {
        lemma_params_prefix(ps, k - 1, base, d0);
    }
}

proof fn lemma_code_class_prefix(ms: Seq<EncodedView>, k: int, base: u32, d0: Seq<u8>, offs0: Seq<(u32, u32)>)
    ensures
        prefix_of(d0, code_fold_class(ms, k, base, d0, offs0).0),
    decreases k,
{
    if k > 0 {
        lemma_code_class_prefix(ms, k - 1, base, d0, offs0);
    }
}

proof fn lemma_code_prefix(cs: Seq<ClassBuildView>, k: int, base: u32, d0: Seq<u8>)
    ensures
        prefix_of(d0, code_fold(cs, k, base, d0).0),
    decreases k,
{
    if k > 0 {
        lemma_code_prefix(cs, k - 1, base, d0);
        let (d, o) = code_fold(cs, k - 1, base, d0);
        lemma_code_class_prefix(cs[k - 1].methods, cs[k - 1].methods.len() as int, base, d, o);
    }
}

proof fn lemma_class_data_prefix(cs: Seq<ClassBuildView>, k: int, base: u32, d0: Seq<u8>, offs: Seq<(u32, u32)>)
    ensures
        prefix_of(d0, class_data_fold(cs, k, base, d0, offs).0),
    decreases k,
{
    if k > 0 {
        lemma_class_data_prefix(cs, k - 1, base, d0, offs);
    }
}

/// The data section starts with the string data.
proof fn lemma_data_starts_with_strings(b: BuilderView)
    ensures
        prefix_of(b.strings_part().0, b.data()),
{
    reveal(BuilderView::data);
    lemma_params_prefix(b.protos, b.protos.len() as int, b.data_off(), b.strings_part().0);
    lemma_code_prefix(b.classes, b.classes.len() as int, b.data_off(), b.params_part().0);
    lemma_class_data_prefix(b.classes, b.classes.len() as int, b.data_off(), b.code_part().0, b.code_part().1);
}

/// String `i` sits in the string data at its recorded offset.
proof fn lemma_strings_fold_at(ss: Seq<Seq<char>>, k: int, base: u32, i: int)
    requires
        0 <= i < k <= ss.len(),
    ensures
        strings_fold(ss, k, base).1.len() == k,
        strings_fold(ss, k, base).1[i] == base.wrapping_add(strings_fold(ss, i, base).0.len() as u32),
        prefix_of(strings_fold(ss, i, base).0 + string_item(ss[i]), strings_fold(ss, k, base).0),
    decreases k,
{
    lemma_strings_fold_len_count(ss, k, base);
    if i < k - 1 {
        lemma_strings_fold_at(ss, k - 1, base, i);
    } else {
        lemma_strings_fold_len_count(ss, i, base);
    }
}

proof fn lemma_le32s_at(v: Seq<u32>, i: int)
    requires
        0 <= i < v.len(),
    ensures
        le32s(v).len() == 4 * v.len(),
        le32s(v).subrange(4 * i, 4 * i + 4) == le32_bytes(v[i]),
    decreases v.len(),
{
    lemma_le32s_len(v);
    lemma_le32s_len(v.drop_last());
    if i < v.len() - 1 {
        lemma_le32s_at(v.drop_last(), i);
        assert(le32s(v).subrange(4 * i, 4 * i + 4) =~= le32s(v.drop_last()).subrange(4 * i, 4 * i + 4));
    } else {
        assert(le32s(v).subrange(4 * i, 4 * i + 4) =~= le32_bytes(v[i]));
    }
}

proof fn lemma_nul_from_at(d: Seq<u8>, start: int, e: int)
    requires
        0 <= start <= e < d.len(),
        d[e] == 0,
        forall|j: int| start <= j < e ==> #[trigger] d[j] != 0,
    ensures
        crate::android::dex::nul_from(d, start) == e,
    decreases e - start,
{
    if start < e {
        lemma_nul_from_at(d, start + 1, e);
    }
}

proof fn lemma_uleb_from_skip(d: Seq<u8>, off: int, i: int, shift: u32, acc: u32)
    requires
        0 <= off <= d.len(),
        0 <= i,
    ensures
        crate::android::dex::uleb_from(d, off, i, shift, acc) == crate::android::dex::uleb_from(
            d.skip(off),
            0,
            i,
            shift,
            acc,
        ),
    decreases 28 - shift,
{
    if 0 <= off + i < d.len() {
        let b = d[off + i] as u32;
        let acc2 = acc | ((b & 0x7f) << shift);
        if b & 0x80 != 0 && shift + 7 <= 28 {
            lemma_uleb_from_skip(d, off, i + 1, (shift + 7) as u32, acc2);
        }
    }
}

/// Byte `k` of the data section sits at `data_off + k` in the file.
proof fn lemma_image_data(b: BuilderView, k: int)
    requires
        small_builder(b),
        0 <= k < b.data().len(),
    ensures
        b.image()[b.data_off() + k] == b.data()[k],
        b.data_off() + k < b.image().len(),
{
    lemma_body_size(b);
    lemma_checksummed(b.body());
    let t = b.tables();
    let z = zeros(b.data_off() - t.len());
    assert((t + z).len() == b.data_off());
    let body = b.body();
    assert(body[b.data_off() + k] == b.data()[k]);
    assert(b.image()[b.data_off() + k] == b.image().skip(12)[b.data_off() + k - 12]);
}

/// The string id table follows the header.
#[verifier::rlimit(40)]
proof fn lemma_image_string_id(b: BuilderView, i: int)
    requires
        small_builder(b),
        0 <= i < b.strings.len(),
    ensures
        crate::android::dex::u32_at(b.image(), 0x70 + 4 * i) == Some(b.strings_part().1[i]),
{
    lemma_body_size(b);
    lemma_checksummed(b.body());
    lemma_header_len(b);
    lemma_strings_fold_len_count(b.strings, b.strings.len() as int, b.data_off());
    let offs = b.strings_part().1;
    lemma_le32s_at(offs, i);
    reveal(BuilderView::tables);
    let t = b.tables();
    let body = b.body();
    let img = b.image();
    let o = 0x70 + 4 * i;
    assert forall|k: int| 0 <= k < 4 implies #[trigger] img[o + k] == le32_bytes(offs[i])[k] by {
        assert(img[o + k] == img.skip(12)[o + k - 12]);
        assert(body[o + k] == t[o + k]);
        assert(t[o + k] == le32s(offs)[4 * i + k]);
        assert(le32s(offs).subrange(4 * i, 4 * i + 4)[k] == le32s(offs)[4 * i + k]);
    }
    lemma_le32_bytes_word(offs[i]);
}

/// Bytes of the id tables keep their place in the file.
proof fn lemma_image_table_byte(b: BuilderView, k: int)
    requires
        small_builder(b),
        0x70 <= k < b.tables().len(),
    ensures
        b.image()[k] == b.tables()[k],
{
    lemma_body_size(b);
    lemma_checksummed(b.body());
    let body = b.body();
    assert(body[k] == b.tables()[k]);
    assert(b.image()[k] == b.image().skip(12)[k - 12]);
}

/// The word at `o` in the id tables reads back from the file.
proof fn lemma_image_table_word(b: BuilderView, o: int, v: u32)
    requires
        small_builder(b),
        0x70 <= o,
        o + 4 <= b.tables().len(),
        forall|j: int| 0 <= j < 4 ==> #[trigger] b.tables()[o + j] == le32_bytes(v)[j],
    ensures
        crate::android::dex::u32_at(b.image(), o) == Some(v),
{
    lemma_body_size(b);
    lemma_checksummed(b.body());
    lemma_image_table_byte(b, o);
    lemma_image_table_byte(b, o + 1);
    lemma_image_table_byte(b, o + 2);
    lemma_image_table_byte(b, o + 3);
    assert(b.tables()[o + 0] == le32_bytes(v)[0]);
    assert(b.tables()[o + 1] == le32_bytes(v)[1]);
    assert(b.tables()[o + 2] == le32_bytes(v)[2]);
    assert(b.tables()[o + 3] == le32_bytes(v)[3]);
    lemma_le32_bytes_word(v);
}

/// The half-word at `o` in the id tables reads back from the file.
proof fn lemma_image_table_half(b: BuilderView, o: int, v: u16)
    requires
        small_builder(b),
        0x70 <= o,
        o + 2 <= b.tables().len(),
        b.tables()[o] == le16_bytes(v)[0],
        b.tables()[o + 1] == le16_bytes(v)[1],
    ensures
        crate::android::dex::u16_at(b.image(), o) == Some(v),
{
    lemma_body_size(b);
    lemma_checksummed(b.body());
    lemma_image_table_byte(b, o);
    lemma_image_table_byte(b, o + 1);
    lemma_le16_bytes_half(v);
}

proof fn lemma_le16_bytes_half(v: u16)
    ensures
        crate::android::dex::le_half(le16_bytes(v)[0], le16_bytes(v)[1]) == v,
{
    let b0 = (v & 0xff) as u8;
    let b1 = (v >> 8) as u8;
    assert((b0 as u16) | ((b1 as u16) << 8) == v) by (bit_vector)
        requires
            b0 == (v & 0xff) as u8,
            b1 == (v >> 8) as u8,
    ;
}

/// Where each id table stands in the tables.
#[verifier::rlimit(40)]
proof fn lemma_tables_parts(b: BuilderView)
    requires
        small_builder(b),
    ensures
        ({
            let t = b.tables();
            let so = 0x70 + 4 * b.strings.len();
            let to = so + 4 * b.types.len();
            let po = to + 12 * b.protos.len();
            let mo = po + 8 * b.methods.len();
            &&& forall|k: int| 0 <= k < 4 * b.types.len() ==> #[trigger] t[so + k] == le32s(b.types)[k]
            &&& forall|k: int| 0 <= k < 12 * b.protos.len() ==> #[trigger] t[to + k] == proto_ids(
                b.protos,
                b.params_part().1,
                b.protos.len() as int,
            )[k]
            &&& forall|k: int| 0 <= k < 8 * b.methods.len() ==> #[trigger] t[po + k] == method_ids(
                b.methods,
                b.methods.len() as int,
            )[k]
            &&& forall|k: int| 0 <= k < 32 * b.classes.len() ==> #[trigger] t[mo + k] == class_defs(
                b.classes,
                b.class_data_part().1,
                b.classes.len() as int,
            )[k]
        }),
{
    reveal(BuilderView::tables);
    lemma_header_len(b);
    lemma_strings_fold_len_count(b.strings, b.strings.len() as int, b.data_off());
    lemma_params_fold_len(b.protos, b.protos.len() as int, b.data_off(), b.strings_part().0);
    lemma_class_data_fold_len(b.classes, b.classes.len() as int, b.data_off(), b.code_part().0, b.code_part().1);
    lemma_le32s_len(b.strings_part().1);
    lemma_le32s_len(b.types);
    lemma_proto_ids_len(b.protos, b.params_part().1, b.protos.len() as int);
    lemma_method_ids_len(b.methods, b.methods.len() as int);
    lemma_class_defs_len(b.classes, b.class_data_part().1, b.classes.len() as int);
}

/// The header fields that locate the tables.
proof fn lemma_image_offsets(b: BuilderView)
    requires
        small_builder(b),
    ensures
        crate::android::dex::hdr(b.image(), 60) == 0x70,
        crate::android::dex::hdr(b.image(), 68) == 0x70 + 4 * b.strings.len(),
        crate::android::dex::hdr(b.image(), 76) == 0x70 + 4 * b.strings.len() + 4 * b.types.len(),
        crate::android::dex::hdr(b.image(), 80) == 0,
        crate::android::dex::hdr(b.image(), 92) == 0x70 + 4 * b.strings.len() + 4 * b.types.len() + 12 * b.protos.len(),
        crate::android::dex::hdr(b.image(), 100) == 0x70 + 4 * b.strings.len() + 4 * b.types.len() + 12 * b.protos.len()
            + 8 * b.methods.len(),
{
    lemma_data_off_small(b);
    lemma_small_mul(b.ns(), 4);
    lemma_small_mul(b.nt(), 4);
    lemma_small_mul(b.np(), 12);
    lemma_small_mul(b.nm(), 8);
    lemma_header_at_60(b);
    lemma_image_field(b, 60, 0x70);
    lemma_header_at_68(b);
    lemma_image_field(b, 68, b.type_ids_off());
    lemma_header_at_76(b);
    lemma_image_field(b, 76, b.proto_ids_off());
    lemma_header_at_80(b);
    lemma_image_field(b, 80, 0);
    lemma_header_at_92(b);
    lemma_image_field(b, 92, b.method_ids_off());
    lemma_header_at_100(b);
    lemma_image_field(b, 100, b.class_defs_off());
}

/// Type `i` reads back from the file as the index of its descriptor.
proof fn lemma_image_type_id(b: BuilderView, i: int)
    requires
        small_builder(b),
        0 <= i < b.types.len(),
    ensures
        crate::android::dex::u32_at(b.image(), 0x70 + 4 * b.strings.len() + 4 * i) == Some(b.types[i]),
{
    lemma_tables_parts(b);
    lemma_tables_len(b);
    lemma_le32s_at(b.types, i);
    let so = 0x70 + 4 * b.strings.len();
    assert forall|j: int| 0 <= j < 4 implies #[trigger] b.tables()[so + 4 * i + j] == le32_bytes(b.types[i])[j] by {
        assert(b.tables()[so + (4 * i + j)] == le32s(b.types)[4 * i + j]);
        assert(le32s(b.types).subrange(4 * i, 4 * i + 4)[j] == le32s(b.types)[4 * i + j]);
    }
    lemma_image_table_word(b, so + 4 * i, b.types[i]);
}

proof fn lemma_method_ids_at(ms: Seq<(u16, u16, u32)>, k: int, i: int)
    requires
        0 <= i < k <= ms.len(),
    ensures
        forall|j: int| 0 <= j < 8 ==> #[trigger] method_ids(ms, k)[8 * i + j] == (le16_bytes(ms[i].0) + le16_bytes(
            ms[i].1,
        ) + le32_bytes(ms[i].2))[j],
    decreases k,
{
    lemma_method_ids_len(ms, k - 1);
    if i < k - 1 {
        lemma_method_ids_at(ms, k - 1, i);
        assert forall|j: int| 0 <= j < 8 implies #[trigger] method_ids(ms, k)[8 * i + j] == (le16_bytes(ms[i].0)
            + le16_bytes(ms[i].1) + le32_bytes(ms[i].2))[j] by {
            assert(method_ids(ms, k)[8 * i + j] == method_ids(ms, k - 1)[8 * i + j]);
        }
    }
}

proof fn lemma_proto_ids_at(ps: Seq<(u32, u32, Seq<u16>)>, poffs: Seq<u32>, k: int, i: int)
    requires
        0 <= i < k <= ps.len(),
    ensures
        forall|j: int| 0 <= j < 12 ==> #[trigger] proto_ids(ps, poffs, k)[12 * i + j] == (le32_bytes(ps[i].0)
            + le32_bytes(ps[i].1) + le32_bytes(poffs[i]))[j],
    decreases k,
{
    lemma_proto_ids_len(ps, poffs, k - 1);
    if i < k - 1 {
        lemma_proto_ids_at(ps, poffs, k - 1, i);
        assert forall|j: int| 0 <= j < 12 implies #[trigger] proto_ids(ps, poffs, k)[12 * i + j] == (le32_bytes(ps[i].0)
            + le32_bytes(ps[i].1) + le32_bytes(poffs[i]))[j] by {
            assert(proto_ids(ps, poffs, k)[12 * i + j] == proto_ids(ps, poffs, k - 1)[12 * i + j]);
        }
    }
}

/// Method id `i` reads back from the file.
#[verifier::rlimit(40)]
proof fn lemma_image_method_id(b: BuilderView, i: int)
    requires
        small_builder(b),
        0 <= i < b.methods.len(),
    ensures
        ({
            let o = 0x70 + 4 * b.strings.len() + 4 * b.types.len() + 12 * b.protos.len() + 8 * i;
            &&& crate::android::dex::u16_at(b.image(), o) == Some(b.methods[i].0)
            &&& crate::android::dex::u16_at(b.image(), o + 2) == Some(b.methods[i].1)
            &&& crate::android::dex::u32_at(b.image(), o + 4) == Some(b.methods[i].2)
        }),
{
    lemma_tables_parts(b);
    lemma_tables_len(b);
    let ms = b.methods;
    lemma_method_ids_at(ms, ms.len() as int, i);
    let po = 0x70 + 4 * b.strings.len() + 4 * b.types.len() + 12 * b.protos.len();
    let o = po + 8 * i;
    let e = le16_bytes(ms[i].0) + le16_bytes(ms[i].1) + le32_bytes(ms[i].2);
    assert forall|j: int| 0 <= j < 8 implies #[trigger] b.tables()[o + j] == e[j] by {
        assert(b.tables()[po + (8 * i + j)] == method_ids(ms, ms.len() as int)[8 * i + j]);
    }
    assert(b.tables()[o + 0] == e[0]);
    assert(b.tables()[o + 1] == e[1]);
    assert(b.tables()[o + 2] == e[2]);
    assert(b.tables()[o + 3] == e[3]);
    lemma_image_table_half(b, o, ms[i].0);
    lemma_image_table_half(b, o + 2, ms[i].1);
    assert forall|j: int| 0 <= j < 4 implies #[trigger] b.tables()[o + 4 + j] == le32_bytes(ms[i].2)[j] by {
        assert(b.tables()[o + (4 + j)] == e[4 + j]);
    }
    lemma_image_table_word(b, o + 4, ms[i].2);
}

/// Prototype id `i` reads back from the file.
#[verifier::rlimit(40)]
proof fn lemma_image_proto_id(b: BuilderView, i: int)
    requires
        small_builder(b),
        0 <= i < b.protos.len(),
    ensures
        ({
            let o = 0x70 + 4 * b.strings.len() + 4 * b.types.len() + 12 * i;
            &&& crate::android::dex::u32_at(b.image(), o) == Some(b.protos[i].0)
            &&& crate::android::dex::u32_at(b.image(), o + 4) == Some(b.protos[i].1)
            &&& crate::android::dex::u32_at(b.image(), o + 8) == Some(b.params_part().1[i])
        }),
{
    lemma_tables_parts(b);
    lemma_tables_len(b);
    let ps = b.protos;
    let poffs = b.params_part().1;
    lemma_proto_ids_at(ps, poffs, ps.len() as int, i);
    let to = 0x70 + 4 * b.strings.len() + 4 * b.types.len();
    let o = to + 12 * i;
    let e = le32_bytes(ps[i].0) + le32_bytes(ps[i].1) + le32_bytes(poffs[i]);
    assert forall|j: int| 0 <= j < 12 implies #[trigger] b.tables()[o + j] == e[j] by {
        assert(b.tables()[to + (12 * i + j)] == proto_ids(ps, poffs, ps.len() as int)[12 * i + j]);
    }
    assert(e.subrange(0, 4) =~= le32_bytes(ps[i].0));
    assert(e.subrange(4, 8) =~= le32_bytes(ps[i].1));
    assert(e.subrange(8, 12) =~= le32_bytes(poffs[i]));
    lemma_image_word_in(b, o, e, 0, ps[i].0);
    lemma_image_word_in(b, o, e, 4, ps[i].1);
    lemma_image_word_in(b, o, e, 8, poffs[i]);
}

/// A word inside a run of table bytes reads back from the file.
proof fn lemma_image_word_in(b: BuilderView, o: int, e: Seq<u8>, k: int, v: u32)
    requires
        small_builder(b),
        0x70 <= o,
        0 <= k,
        k + 4 <= e.len(),
        o + e.len() <= b.tables().len(),
        forall|j: int| 0 <= j < e.len() ==> #[trigger] b.tables()[o + j] == e[j],
        e.subrange(k, k + 4) == le32_bytes(v),
    ensures
        crate::android::dex::u32_at(b.image(), o + k) == Some(v),
{
    assert forall|j: int| 0 <= j < 4 implies #[trigger] b.tables()[o + k + j] == le32_bytes(v)[j] by {
        assert(b.tables()[o + (k + j)] == e[k + j]);
        assert(e.subrange(k, k + 4)[j] == e[k + j]);
    }
    lemma_image_table_word(b, o + k, v);
}

proof fn lemma_params_fold_grow(ps: Seq<(u32, u32, Seq<u16>)>, j: int, k: int, base: u32, d0: Seq<u8>)
    requires
        0 <= j <= k,
    ensures
        prefix_of(params_fold(ps, j, base, d0).0, params_fold(ps, k, base, d0).0),
    decreases k,
{
    if j < k {
        lemma_params_fold_grow(ps, j, k - 1, base, d0);
    }
}

/// Parameter list `i`, when not empty, is stored at its recorded offset.
proof fn lemma_params_fold_at(ps: Seq<(u32, u32, Seq<u16>)>, k: int, base: u32, d0: Seq<u8>, i: int)
    requires
        0 <= i < k <= ps.len(),
    ensures
        ps[i].2.len() == 0 ==> params_fold(ps, k, base, d0).1[i] == 0,
        ps[i].2.len() > 0 ==> params_fold(ps, k, base, d0).1[i] == base.wrapping_add(
            pad4(params_fold(ps, i, base, d0).0).len() as u32,
        ),
        ps[i].2.len() > 0 ==> prefix_of(
            pad4(params_fold(ps, i, base, d0).0) + le32_bytes(ps[i].2.len() as u32) + le16s(ps[i].2),
            params_fold(ps, k, base, d0).0,
        ),
    decreases k,
{
    lemma_params_fold_len(ps, k - 1, base, d0);
    if i < k - 1 {
        lemma_params_fold_at(ps, k - 1, base, d0, i);
        lemma_params_fold_grow(ps, k - 1, k, base, d0);
    }
}

/// The data section starts with the strings and the parameter lists.
proof fn lemma_data_starts_with_params(b: BuilderView)
    ensures
        prefix_of(b.params_part().0, b.data()),
{
    reveal(BuilderView::data);
    lemma_code_prefix(b.classes, b.classes.len() as int, b.data_off(), b.params_part().0);
    lemma_class_data_prefix(b.classes, b.classes.len() as int, b.data_off(), b.code_part().0, b.code_part().1);
}

proof fn lemma_le16s_at(v: Seq<u16>, i: int)
    requires
        0 <= i < v.len(),
    ensures
        le16s(v).len() == 2 * v.len(),
        le16s(v).subrange(2 * i, 2 * i + 2) == le16_bytes(v[i]),
    decreases v.len(),
{
    lemma_le16s_len(v);
    lemma_le16s_len(v.drop_last());
    if i < v.len() - 1 {
        lemma_le16s_at(v.drop_last(), i);
        assert(le16s(v).subrange(2 * i, 2 * i + 2) =~= le16s(v.drop_last()).subrange(2 * i, 2 * i + 2));
    } else {
        assert(le16s(v).subrange(2 * i, 2 * i + 2) =~= le16_bytes(v[i]));
    }
}

/// The bytes of a run of the data section read back from the file.
proof fn lemma_image_data_run(b: BuilderView, x: int, e: Seq<u8>)
    requires
        small_builder(b),
        0 <= x,
        x + e.len() <= b.data().len(),
        forall|j: int| 0 <= j < e.len() ==> #[trigger] b.data()[x + j] == e[j],
    ensures
        forall|j: int| 0 <= j < e.len() ==> #[trigger] b.image()[b.data_off() + x + j] == e[j],
        b.data_off() + x + e.len() <= b.image().len(),
{
    assert forall|j: int| 0 <= j < e.len() implies #[trigger] b.image()[b.data_off() + x + j] == e[j] by {
        lemma_image_data(b, x + j);
    }
    if e.len() > 0 {
        lemma_image_data(b, x + e.len() - 1);
    } else {
        lemma_body_size(b);
        lemma_checksummed(b.body());
    }
}

/// A non-empty parameter list reads back from the file.
#[verifier::rlimit(40)]
proof fn lemma_image_params(b: BuilderView, i: int)
    requires
        small_builder(b),
        0 <= i < b.protos.len(),
        b.protos[i].2.len() > 0,
    ensures
        ({
            let off = b.params_part().1[i] as int;
            let p = b.protos[i].2;
            &&& off != 0
            &&& crate::android::dex::u32_at(b.image(), off) == Some(p.len() as u32)
            &&& forall|k: int| 0 <= k < p.len() ==> #[trigger] crate::android::dex::u16_at(b.image(), off + 4 + 2 * k)
                == Some(p[k])
        }),
{
    let ps = b.protos;
    let base = b.data_off();
    let d0 = b.strings_part().0;
    let p = ps[i].2;
    lemma_params_fold_at(ps, ps.len() as int, base, d0, i);
    lemma_data_starts_with_params(b);
    lemma_body_size(b);
    lemma_data_off_small(b);
    lemma_le16s_len(p);
    let q = pad4(params_fold(ps, i, base, d0).0);
    let e = le32_bytes(p.len() as u32) + le16s(p);
    let x = q.len() as int;
    assert((q + le32_bytes(p.len() as u32) + le16s(p)) =~= q + e);
    assert forall|j: int| 0 <= j < e.len() implies #[trigger] b.data()[x + j] == e[j] by {
        assert((q + e)[x + j] == e[j]);
    }
    assert(x + e.len() <= b.data().len()) by {
        assert((q + e).len() <= b.params_part().0.len());
    }
    lemma_image_data_run(b, x, e);
    let off = base + x;
    assert(b.params_part().1[i] == off);
    let img = b.image();
    assert(img[off + 0] == e[0] && img[off + 1] == e[1] && img[off + 2] == e[2] && img[off + 3] == e[3]);
    assert(e[0] == le32_bytes(p.len() as u32)[0] && e[1] == le32_bytes(p.len() as u32)[1] && e[2] == le32_bytes(
        p.len() as u32,
    )[2] && e[3] == le32_bytes(p.len() as u32)[3]);
    lemma_le32_bytes_word(p.len() as u32);
    assert forall|k: int| 0 <= k < p.len() implies #[trigger] crate::android::dex::u16_at(img, off + 4 + 2 * k) == Some(
        p[k],
    ) by {
        lemma_le16s_at(p, k);
        assert(img[off + (4 + 2 * k)] == e[4 + 2 * k]);
        assert(img[off + (4 + 2 * k + 1)] == e[4 + 2 * k + 1]);
        assert(e[4 + 2 * k] == le16s(p)[2 * k]);
        assert(e[4 + 2 * k + 1] == le16s(p)[2 * k + 1]);
        assert(le16s(p).subrange(2 * k, 2 * k + 2)[0] == le16s(p)[2 * k]);
        assert(le16s(p).subrange(2 * k, 2 * k + 2)[1] == le16s(p)[2 * k + 1]);
        lemma_le16_bytes_half(p[k]);
    }
}

/// (method index, code) of the first `k` methods with code, after `acc`.
pub open spec fn codes_class(ms: Seq<EncodedView>, k: int, acc: Seq<(u32, CodeView)>) -> Seq<(u32, CodeView)>
    decreases k,
{
    if k <= 0 {
        acc
    } else {
        let a = codes_class(ms, k - 1, acc);
        match ms[k - 1].code {
            None => a,
            Some(c) => a.push((ms[k - 1].method_idx, c)),
        }
    }
}

/// (method index, code) of each method with code of the first `k` classes.
pub open spec fn codes_of(cs: Seq<ClassBuildView>, k: int) -> Seq<(u32, CodeView)>
    decreases k,
{
    if k <= 0 {
        Seq::empty()
    } else {
        codes_class(cs[k - 1].methods, cs[k - 1].methods.len() as int, codes_of(cs, k - 1))
    }
}

/// The code recorded last for method `idx`.
pub open spec fn code_lookup(codes: Seq<(u32, CodeView)>, idx: u32) -> Option<CodeView>
    decreases codes.len(),
{
    if codes.len() == 0 {
        None
    } else if codes.last().0 == idx {
        Some(codes.last().1)
    } else {
        code_lookup(codes.drop_last(), idx)
    }
}

/// Whether the code item of `c` sits in `d` at `off - base`.
spec fn code_stored(d: Seq<u8>, base: u32, off: u32, c: CodeView) -> bool {
    &&& base <= off
    &&& off - base + code_item_bytes(c).len() <= d.len()
    &&& forall|m: int| 0 <= m < code_item_bytes(c).len() ==> #[trigger] d[off - base + m] == code_item_bytes(c)[m]
}

/// Whether each recorded code offset holds its code item.
spec fn codes_stored(d: Seq<u8>, base: u32, offs: Seq<(u32, u32)>, codes: Seq<(u32, CodeView)>) -> bool {
    &&& offs.len() == codes.len()
    &&& forall|j: int|
        #![trigger offs[j]]
        0 <= j < offs.len() ==> offs[j].0 == codes[j].0 && code_stored(d, base, offs[j].1, codes[j].1)
}

proof fn lemma_codes_stored_grow(d: Seq<u8>, d2: Seq<u8>, base: u32, offs: Seq<(u32, u32)>, codes: Seq<(u32, CodeView)>)
    requires
        codes_stored(d, base, offs, codes),
        prefix_of(d, d2),
    ensures
        codes_stored(d2, base, offs, codes),
{
    assert forall|j: int| 0 <= j < offs.len() implies #[trigger] offs[j].0 == codes[j].0 && code_stored(
        d2,
        base,
        offs[j].1,
        codes[j].1,
    ) by {
        assert(offs[j].0 == codes[j].0 && code_stored(d, base, offs[j].1, codes[j].1));
        let c = codes[j].1;
        let x = offs[j].1 - base;
        assert forall|m: int| 0 <= m < code_item_bytes(c).len() implies #[trigger] d2[x + m] == code_item_bytes(c)[m] by {
            assert(d[x + m] == code_item_bytes(c)[m]);
        }
    }
}

proof fn lemma_code_fold_class_stored(
    ms: Seq<EncodedView>,
    k: int,
    base: u32,
    d0: Seq<u8>,
    offs0: Seq<(u32, u32)>,
    acc0: Seq<(u32, CodeView)>,
)
    requires
        0 <= k <= ms.len(),
        codes_stored(d0, base, offs0, acc0),
        base + code_fold_class(ms, k, base, d0, offs0).0.len() <= u32::MAX,
    ensures
        codes_stored(code_fold_class(ms, k, base, d0, offs0).0, base, code_fold_class(ms, k, base, d0, offs0).1, codes_class(ms, k, acc0)),
    decreases k,
{
    if k > 0 {
        let (d, o) = code_fold_class(ms, k - 1, base, d0, offs0);
        match ms[k - 1].code {
            None => {
                lemma_code_fold_class_stored(ms, k - 1, base, d0, offs0, acc0);
            },
            Some(c) => {
                let d2 = pad4(d);
                let e = code_item_bytes(c);
                let d3 = pad4(d2 + e);
                lemma_pad4_prefix(d);
                lemma_pad4_prefix(d2 + e);
                assert(prefix_of(d, d3));
                lemma_code_fold_class_stored(ms, k - 1, base, d0, offs0, acc0);
                let a = codes_class(ms, k - 1, acc0);
                lemma_codes_stored_grow(d, d3, base, o, a);
                let off = base.wrapping_add(d2.len() as u32);
                assert(off == base + d2.len());
                assert forall|m: int| 0 <= m < e.len() implies #[trigger] d3[off - base + m] == e[m] by {
                    assert((d2 + e)[d2.len() + m] == e[m]);
                }
                assert(code_stored(d3, base, off, c));
                let o2 = o.push((ms[k - 1].method_idx, off));
                let a2 = a.push((ms[k - 1].method_idx, c));
                assert forall|j: int| 0 <= j < o2.len() implies #[trigger] o2[j].0 == a2[j].0 && code_stored(
                    d3,
                    base,
                    o2[j].1,
                    a2[j].1,
                ) by {
                    if j < o.len() {
                        assert(o2[j] == o[j]);
                        assert(a2[j] == a[j]);
                    }
                }
            },
        }
    }
}

proof fn lemma_code_fold_stored(cs: Seq<ClassBuildView>, k: int, base: u32, d0: Seq<u8>)
    requires
        0 <= k <= cs.len(),
        base + code_fold(cs, k, base, d0).0.len() <= u32::MAX,
    ensures
        codes_stored(code_fold(cs, k, base, d0).0, base, code_fold(cs, k, base, d0).1, codes_of(cs, k)),
    decreases k,
{
    if k > 0 {
        let (d, o) = code_fold(cs, k - 1, base, d0);
        let ms = cs[k - 1].methods;
        lemma_code_class_prefix(ms, ms.len() as int, base, d, o);
        lemma_code_fold_stored(cs, k - 1, base, d0);
        lemma_code_fold_class_stored(ms, ms.len() as int, base, d, o, codes_of(cs, k - 1));
    }
}

/// A method's code, looked up by index, is the code item at the offset
/// looked up the same way.
proof fn lemma_lookup_stored(d: Seq<u8>, base: u32, offs: Seq<(u32, u32)>, codes: Seq<(u32, CodeView)>, idx: u32)
    requires
        codes_stored(d, base, offs, codes),
        base > 0,
    ensures
        code_lookup(codes, idx) is None ==> lookup_off(offs, idx) == 0,
        code_lookup(codes, idx) matches Some(c) ==> lookup_off(offs, idx) != 0 && code_stored(
            d,
            base,
            lookup_off(offs, idx),
            c,
        ),
    decreases offs.len(),
{
    if offs.len() > 0 {
        let j = offs.len() - 1;
        assert(offs[j].0 == codes[j].0 && code_stored(d, base, offs[j].1, codes[j].1));
        assert(offs.last() == offs[j]);
        assert(codes.last() == codes[j]);
        if offs.last().0 != idx {
            assert forall|i: int| 0 <= i < offs.drop_last().len() implies #[trigger] offs.drop_last()[i].0
                == codes.drop_last()[i].0 && code_stored(d, base, offs.drop_last()[i].1, codes.drop_last()[i].1) by {
                assert(offs[i].0 == codes[i].0 && code_stored(d, base, offs[i].1, codes[i].1));
            }
            lemma_lookup_stored(d, base, offs.drop_last(), codes.drop_last(), idx);
        }
    }
}

proof fn lemma_u16_in(img: Seq<u8>, o: int, e: Seq<u8>, k: int, v: u16)
    requires
        0 <= o,
        0 <= k,
        k + 2 <= e.len(),
        o + e.len() <= img.len(),
        forall|j: int| 0 <= j < e.len() ==> #[trigger] img[o + j] == e[j],
        e.subrange(k, k + 2) == le16_bytes(v),
    ensures
        crate::android::dex::u16_at(img, o + k) == Some(v),
{
    assert(img[o + k] == e[k]);
    assert(img[o + (k + 1)] == e[k + 1]);
    assert(e.subrange(k, k + 2)[0] == e[k]);
    assert(e.subrange(k, k + 2)[1] == e[k + 1]);
    lemma_le16_bytes_half(v);
}

proof fn lemma_u32_in(img: Seq<u8>, o: int, e: Seq<u8>, k: int, v: u32)
    requires
        0 <= o,
        0 <= k,
        k + 4 <= e.len(),
        o + e.len() <= img.len(),
        forall|j: int| 0 <= j < e.len() ==> #[trigger] img[o + j] == e[j],
        e.subrange(k, k + 4) == le32_bytes(v),
    ensures
        crate::android::dex::u32_at(img, o + k) == Some(v),
{
    assert(img[o + k] == e[k]);
    assert(img[o + (k + 1)] == e[k + 1]);
    assert(img[o + (k + 2)] == e[k + 2]);
    assert(img[o + (k + 3)] == e[k + 3]);
    assert(e.subrange(k, k + 4)[0] == e[k]);
    assert(e.subrange(k, k + 4)[1] == e[k + 1]);
    assert(e.subrange(k, k + 4)[2] == e[k + 2]);
    assert(e.subrange(k, k + 4)[3] == e[k + 3]);
    lemma_le32_bytes_word(v);
}

/// A code item laid out at `o` reads back as its code.
#[verifier::rlimit(40)]
proof fn lemma_code_at_item(img: Seq<u8>, o: int, c: CodeView)
    requires
        0 <= o,
        c.insns.len() <= 0xFFFF,
        o + code_item_bytes(c).len() <= img.len(),
        forall|j: int| 0 <= j < code_item_bytes(c).len() ==> #[trigger] img[o + j] == code_item_bytes(c)[j],
    ensures
        crate::android::dex::code_at(img, o) == Some(c),
{
    let e = code_item_bytes(c);
    lemma_le16s_len(c.insns);
    let n = c.insns.len() as u32;
    let h = le16_bytes(c.registers_size) + le16_bytes(c.ins_size) + le16_bytes(c.outs_size) + le16_bytes(0)
        + le32_bytes(0) + le32_bytes(n);
    assert(e == h + le16s(c.insns));
    assert(h.len() == 16);
    assert(e.subrange(0, 2) =~= le16_bytes(c.registers_size));
    assert(e.subrange(2, 4) =~= le16_bytes(c.ins_size));
    assert(e.subrange(4, 6) =~= le16_bytes(c.outs_size));
    assert(e.subrange(6, 8) =~= le16_bytes(0));
    assert(e.subrange(8, 12) =~= le32_bytes(0));
    assert(e.subrange(12, 16) =~= le32_bytes(n));
    lemma_u16_in(img, o, e, 0, c.registers_size);
    lemma_u16_in(img, o, e, 2, c.ins_size);
    lemma_u16_in(img, o, e, 4, c.outs_size);
    lemma_u16_in(img, o, e, 6, 0);
    lemma_u32_in(img, o, e, 8, 0);
    lemma_u32_in(img, o, e, 12, n);
    assert forall|k: int| 0 <= k < n implies #[trigger] crate::android::dex::u16_at(img, o + 16 + 2 * k) == Some(
        c.insns[k],
    ) by {
        lemma_le16s_at(c.insns, k);
        assert(e.subrange(16 + 2 * k, 16 + 2 * k + 2) =~= le16s(c.insns).subrange(2 * k, 2 * k + 2));
        lemma_u16_in(img, o, e, 16 + 2 * k, c.insns[k]);
    }
    assert(Seq::new(n as nat, |k: int| crate::android::dex::u16_at(img, o + 16 + 2 * k)->Some_0) =~= c.insns);
}

/// A code item stored in the data section reads back from the file.
proof fn lemma_image_code(b: BuilderView, off: u32, c: CodeView)
    requires
        small_builder(b),
        code_stored(b.data(), b.data_off(), off, c),
    ensures
        crate::android::dex::code_at(b.image(), off as int) == Some(c),
{
    let base = b.data_off();
    let x = off - base;
    let e = code_item_bytes(c);
    let img = b.image();
    lemma_le16s_len(c.insns);
    lemma_image_data_run(b, x, e);
    lemma_body_size(b);
    let o = off as int;
    assert forall|j: int| 0 <= j < e.len() implies #[trigger] img[o + j] == e[j] by {
        assert(img[base + x + j] == e[j]);
    }
    lemma_code_at_item(img, o, c);
}

/// A ULEB128 value laid out at `off` reads back with its length.
proof fn lemma_uleb_at_run(img: Seq<u8>, off: int, v: u32)
    requires
        0 <= off,
        off + uleb_bytes(v).len() <= img.len(),
        forall|j: int| 0 <= j < uleb_bytes(v).len() ==> #[trigger] img[off + j] == uleb_bytes(v)[j],
    ensures
        crate::android::dex::uleb_at(img, off) == Some((v, uleb_bytes(v).len() as int)),
{
    let ub = uleb_bytes(v);
    let rest = img.skip(off + ub.len());
    assert(img.skip(off) =~= ub + rest) by {
        assert forall|m: int| 0 <= m < ub.len() implies #[trigger] img.skip(off)[m] == ub[m] by {
            assert(img[off + m] == ub[m]);
        }
    }
    crate::android::properties::uleb_roundtrip(v, rest);
    lemma_uleb_from_skip(img, off, 0, 0, 0);
}

/// Three ULEB128 values laid out one after another at `o` read back.
proof fn lemma_three_ulebs(img: Seq<u8>, o: int, a: u32, b: u32, c: u32)
    requires
        0 <= o,
        o + (uleb_bytes(a) + uleb_bytes(b) + uleb_bytes(c)).len() <= img.len(),
        forall|j: int| 0 <= j < (uleb_bytes(a) + uleb_bytes(b) + uleb_bytes(c)).len() ==> #[trigger] img[o + j] == (
        uleb_bytes(a) + uleb_bytes(b) + uleb_bytes(c))[j],
    ensures
        crate::android::dex::uleb_at(img, o) == Some((a, uleb_bytes(a).len() as int)),
        crate::android::dex::uleb_at(img, o + uleb_bytes(a).len()) == Some((b, uleb_bytes(b).len() as int)),
        crate::android::dex::uleb_at(img, o + uleb_bytes(a).len() + uleb_bytes(b).len()) == Some(
            (c, uleb_bytes(c).len() as int),
        ),
{
    let e = uleb_bytes(a) + uleb_bytes(b) + uleb_bytes(c);
    let la = uleb_bytes(a).len() as int;
    let lb = uleb_bytes(b).len() as int;
    assert forall|j: int| 0 <= j < la implies #[trigger] img[o + j] == uleb_bytes(a)[j] by {
        assert(img[o + j] == e[j]);
    }
    lemma_uleb_at_run(img, o, a);
    assert forall|j: int| 0 <= j < lb implies #[trigger] img[o + la + j] == uleb_bytes(b)[j] by {
        assert(img[o + (la + j)] == e[la + j]);
    }
    lemma_uleb_at_run(img, o + la, b);
    assert forall|j: int| 0 <= j < uleb_bytes(c).len() implies #[trigger] img[o + la + lb + j] == uleb_bytes(c)[j] by {
        assert(img[o + (la + lb + j)] == e[la + lb + j]);
    }
    lemma_uleb_at_run(img, o + la + lb, c);
}

proof fn lemma_wrap_diff(prev: u32, cur: u32)
    ensures
        prev.wrapping_add(cur.wrapping_sub(prev)) == cur,
{
}

proof fn lemma_method_entries_grow(sorted: Seq<(u32, u32)>, j: int, k: int, offs: Seq<(u32, u32)>)
    requires
        0 <= j <= k,
    ensures
        prefix_of(method_entries(sorted, j, offs), method_entries(sorted, k, offs)),
    decreases k,
{
    if j < k {
        lemma_method_entries_grow(sorted, j, k - 1, offs);
    }
}

/// Encoded method `j` as the parser reads it from `img`.
spec fn ev_at(img: Seq<u8>, sorted: Seq<(u32, u32)>, offs: Seq<(u32, u32)>, j: int) -> EncodedView {
    EncodedView { method_idx: sorted[j].0, access_flags: sorted[j].1, code: parsed_code(img, offs, sorted[j].0) }
}

/// The code the parser finds for method `idx` through the offsets `offs`.
spec fn parsed_code(img: Seq<u8>, offs: Seq<(u32, u32)>, idx: u32) -> Option<CodeView> {
    let off = lookup_off(offs, idx);
    if off == 0 { None } else { crate::android::dex::code_at(img, off as int) }
}

/// Methods sorted by index, each with the code recorded last for its index.
pub open spec fn direct_view(sorted: Seq<(u32, u32)>, codes: Seq<(u32, CodeView)>) -> Seq<EncodedView> {
    sorted.map_values(|e: (u32, u32)| EncodedView { method_idx: e.0, access_flags: e.1, code: code_lookup(codes, e.0) })
}

proof fn lemma_direct_view(img: Seq<u8>, sorted: Seq<(u32, u32)>, offs: Seq<(u32, u32)>, codes: Seq<(u32, CodeView)>)
    requires
        forall|idx: u32| #[trigger] parsed_code(img, offs, idx) == code_lookup(codes, idx),
    ensures
        Seq::new(sorted.len(), |j: int| ev_at(img, sorted, offs, j)) == direct_view(sorted, codes),
{
    let dm = Seq::new(sorted.len(), |j: int| ev_at(img, sorted, offs, j));
    assert forall|j: int| 0 <= j < sorted.len() implies #[trigger] dm[j] == direct_view(sorted, codes)[j] by {
        assert(parsed_code(img, offs, sorted[j].0) == code_lookup(codes, sorted[j].0));
    }
    assert(dm =~= direct_view(sorted, codes));
}

/// The encoded methods laid out at `o1` read back one by one.
#[verifier::rlimit(40)]
proof fn lemma_methods_from(img: Seq<u8>, o1: int, sorted: Seq<(u32, u32)>, offs: Seq<(u32, u32)>, k: int)
    requires
        0 <= k <= sorted.len(),
        0 <= o1,
        o1 + method_entries(sorted, sorted.len() as int, offs).len() <= img.len(),
        forall|j: int|
            0 <= j < method_entries(sorted, sorted.len() as int, offs).len() ==> #[trigger] img[o1 + j] == method_entries(
                sorted,
                sorted.len() as int,
                offs,
            )[j],
        forall|j: int|
            0 <= j < sorted.len() && lookup_off(offs, (#[trigger] sorted[j]).0) != 0 ==> crate::android::dex::code_at(
                img,
                lookup_off(offs, sorted[j].0) as int,
            ) is Some,
    ensures
        crate::android::dex::methods_from(img, o1, k as nat) == Some(
            (
                Seq::new(k as nat, |j: int| ev_at(img, sorted, offs, j)),
                o1 + method_entries(sorted, k, offs).len(),
                if k > 0 { sorted[k - 1].0 } else { 0u32 },
            ),
        ),
    decreases k,
{
    if k > 0 {
        lemma_methods_from(img, o1, sorted, offs, k - 1);
        let n = sorted.len() as int;
        let men = method_entries(sorted, n, offs);
        let m0 = method_entries(sorted, k - 1, offs);
        let prev: u32 = if k >= 2 { sorted[k - 2].0 } else { 0 };
        let cur = sorted[k - 1];
        let off = lookup_off(offs, cur.0);
        let e = uleb_bytes(cur.0.wrapping_sub(prev)) + uleb_bytes(cur.1) + uleb_bytes(off);
        assert(method_entries(sorted, k, offs) =~= m0 + e);
        lemma_method_entries_grow(sorted, k, n, offs);
        let o = o1 + m0.len();
        assert forall|j: int| 0 <= j < e.len() implies #[trigger] img[o + j] == e[j] by {
            assert(img[o1 + (m0.len() + j)] == men[m0.len() + j]);
            assert((m0 + e)[m0.len() + j] == e[j]);
        }
        lemma_three_ulebs(img, o, cur.0.wrapping_sub(prev), cur.1, off);
        lemma_wrap_diff(prev, cur.0);
        assert(sorted[k - 1] == cur);
        let v = Seq::new((k - 1) as nat, |j: int| ev_at(img, sorted, offs, j));
        assert(v.push(ev_at(img, sorted, offs, k - 1)) =~= Seq::new(k as nat, |j: int| ev_at(img, sorted, offs, j)));
    }
}

/// The class data item of `c` laid out at `cd` reads back: all methods
/// direct, in the order they were laid out.
#[verifier::rlimit(40)]
proof fn lemma_class_data_item_at(img: Seq<u8>, cd: int, c: ClassBuildView, offs: Seq<(u32, u32)>)
    requires
        0 <= cd,
        c.methods.len() <= 4,
        cd + class_data_item(c, offs).len() <= img.len(),
        forall|j: int| 0 <= j < class_data_item(c, offs).len() ==> #[trigger] img[cd + j] == class_data_item(c, offs)[j],
        forall|j: int|
            0 <= j < sort_by_key(method_keys(c.methods)).len() && lookup_off(
                offs,
                (#[trigger] sort_by_key(method_keys(c.methods))[j]).0,
            ) != 0 ==> crate::android::dex::code_at(
                img,
                lookup_off(offs, sort_by_key(method_keys(c.methods))[j].0) as int,
            ) is Some,
    ensures
        crate::android::dex::class_data_at(img, cd) == Some(
            (
                Seq::new(
                    sort_by_key(method_keys(c.methods)).len(),
                    |j: int| ev_at(img, sort_by_key(method_keys(c.methods)), offs, j),
                ),
                Seq::<EncodedView>::empty(),
            ),
        ),
{
    let sorted = sort_by_key(method_keys(c.methods));
    lemma_sort_len(method_keys(c.methods));
    let n = c.methods.len() as u32;
    let me = method_entries(sorted, sorted.len() as int, offs);
    let item = class_data_item(c, offs);
    let z = uleb_bytes(0);
    assert(0u32 >> 7u32 == 0 && (0u32 & 0x7f) == 0) by (bit_vector);
    assert(z =~= seq![0u8]);
    let un = uleb_bytes(n);
    assert(item =~= z + z + un + z + me);
    assert(img[cd + 0] == item[0]);
    assert(img[cd + 1] == item[1]);
    lemma_uleb_at_run(img, cd, 0);
    lemma_uleb_at_run(img, cd + 1, 0);
    assert forall|j: int| 0 <= j < un.len() implies #[trigger] img[cd + 2 + j] == un[j] by {
        assert(img[cd + (2 + j)] == item[2 + j]);
    }
    lemma_uleb_at_run(img, cd + 2, n);
    let l = un.len() as int;
    assert(img[cd + (2 + l)] == item[2 + l]);
    assert forall|j: int| 0 <= j < 1 implies #[trigger] img[cd + 2 + l + j] == z[j] by {
        assert(img[cd + (2 + l + j)] == item[2 + l + j]);
    }
    lemma_uleb_at_run(img, cd + 2 + l, 0);
    let o1 = cd + 3 + l;
    assert forall|j: int| 0 <= j < me.len() implies #[trigger] img[o1 + j] == me[j] by {
        assert(img[cd + (3 + l + j)] == item[3 + l + j]);
    }
    lemma_methods_from(img, o1, sorted, offs, sorted.len() as int);
    assert(crate::android::dex::skip_fields(img, o1, 0) == Some(o1));
    let direct_end = o1 + me.len();
    assert(crate::android::dex::methods_from(img, direct_end, 0) == Some((Seq::<EncodedView>::empty(), direct_end, 0u32)));
}

proof fn lemma_class_data_fold_grow(cs: Seq<ClassBuildView>, j: int, k: int, base: u32, d0: Seq<u8>, offs: Seq<(u32, u32)>)
    requires
        0 <= j <= k,
    ensures
        prefix_of(class_data_fold(cs, j, base, d0, offs).0, class_data_fold(cs, k, base, d0, offs).0),
    decreases k,
{
    if j < k {
        lemma_class_data_fold_grow(cs, j, k - 1, base, d0, offs);
        lemma_pad4_prefix(class_data_fold(cs, k - 1, base, d0, offs).0);
    }
}

/// Class data item `i` is stored at its recorded offset.
proof fn lemma_class_data_fold_at(cs: Seq<ClassBuildView>, k: int, base: u32, d0: Seq<u8>, offs: Seq<(u32, u32)>, i: int)
    requires
        0 <= i < k <= cs.len(),
    ensures
        class_data_fold(cs, k, base, d0, offs).1[i] == base.wrapping_add(
            pad4(class_data_fold(cs, i, base, d0, offs).0).len() as u32,
        ),
        prefix_of(
            pad4(class_data_fold(cs, i, base, d0, offs).0) + class_data_item(cs[i], offs),
            class_data_fold(cs, k, base, d0, offs).0,
        ),
    decreases k,
{
    lemma_class_data_fold_len(cs, k - 1, base, d0, offs);
    if i < k - 1 {
        lemma_class_data_fold_at(cs, k - 1, base, d0, offs, i);
        lemma_class_data_fold_grow(cs, k - 1, k, base, d0, offs);
    }
}

/// Every code item recorded while laying out the builder sits in the data
/// section.
proof fn lemma_codes_in_data(b: BuilderView)
    requires
        small_builder(b),
    ensures
        codes_stored(b.data(), b.data_off(), b.code_part().1, codes_of(b.classes, b.classes.len() as int)),
{
    reveal(BuilderView::data);
    lemma_body_size(b);
    lemma_class_data_prefix(b.classes, b.classes.len() as int, b.data_off(), b.code_part().0, b.code_part().1);
    lemma_code_fold_stored(b.classes, b.classes.len() as int, b.data_off(), b.params_part().0);
    lemma_codes_stored_grow(
        b.code_part().0,
        b.data(),
        b.data_off(),
        b.code_part().1,
        codes_of(b.classes, b.classes.len() as int),
    );
}

/// The code the parser finds for method `idx` is the code recorded last for it.
proof fn lemma_code_for(b: BuilderView, idx: u32)
    requires
        small_builder(b),
    ensures
        parsed_code(b.image(), b.code_part().1, idx) == code_lookup(codes_of(b.classes, b.classes.len() as int), idx),
{
    lemma_codes_in_data(b);
    lemma_body_size(b);
    let codes = codes_of(b.classes, b.classes.len() as int);
    lemma_lookup_stored(b.data(), b.data_off(), b.code_part().1, codes, idx);
    match code_lookup(codes, idx) {
        None => {},
        Some(c) => {
            lemma_image_code(b, lookup_off(b.code_part().1, idx), c);
        },
    }
}

proof fn lemma_class_defs_at(cs: Seq<ClassBuildView>, cdoffs: Seq<u32>, k: int, i: int)
    requires
        0 <= i < k <= cs.len(),
    ensures
        forall|j: int| 0 <= j < 32 ==> #[trigger] class_defs(cs, cdoffs, k)[32 * i + j] == (le32_bytes(cs[i].class_idx)
            + le32_bytes(1) + le32_bytes(cs[i].superclass_idx) + le32_bytes(0) + le32_bytes(0xffff_ffff) + le32_bytes(0)
            + le32_bytes(cdoffs[i]) + le32_bytes(0))[j],
    decreases k,
{
    lemma_class_defs_len(cs, cdoffs, k - 1);
    if i < k - 1 {
        lemma_class_defs_at(cs, cdoffs, k - 1, i);
        assert forall|j: int| 0 <= j < 32 implies #[trigger] class_defs(cs, cdoffs, k)[32 * i + j] == (le32_bytes(
            cs[i].class_idx,
        ) + le32_bytes(1) + le32_bytes(cs[i].superclass_idx) + le32_bytes(0) + le32_bytes(0xffff_ffff) + le32_bytes(0)
            + le32_bytes(cdoffs[i]) + le32_bytes(0))[j] by {
            assert(class_defs(cs, cdoffs, k)[32 * i + j] == class_defs(cs, cdoffs, k - 1)[32 * i + j]);
        }
    }
}

/// Class definition `i` reads back from the file.
#[verifier::rlimit(40)]
proof fn lemma_image_class_def(b: BuilderView, i: int)
    requires
        small_builder(b),
        0 <= i < b.classes.len(),
    ensures
        ({
            let o = 0x70 + 4 * b.strings.len() + 4 * b.types.len() + 12 * b.protos.len() + 8 * b.methods.len() + 32 * i;
            &&& crate::android::dex::u32_at(b.image(), o) == Some(b.classes[i].class_idx)
            &&& crate::android::dex::u32_at(b.image(), o + 4) == Some(1u32)
            &&& crate::android::dex::u32_at(b.image(), o + 8) == Some(b.classes[i].superclass_idx)
            &&& crate::android::dex::u32_at(b.image(), o + 24) == Some(b.class_data_part().1[i])
        }),
{
    lemma_tables_parts(b);
    lemma_tables_len(b);
    let cs = b.classes;
    let cdoffs = b.class_data_part().1;
    lemma_class_defs_at(cs, cdoffs, cs.len() as int, i);
    let mo = 0x70 + 4 * b.strings.len() + 4 * b.types.len() + 12 * b.protos.len() + 8 * b.methods.len();
    let o = mo + 32 * i;
    let e = le32_bytes(cs[i].class_idx) + le32_bytes(1) + le32_bytes(cs[i].superclass_idx) + le32_bytes(0) + le32_bytes(
        0xffff_ffff,
    ) + le32_bytes(0) + le32_bytes(cdoffs[i]) + le32_bytes(0);
    assert forall|j: int| 0 <= j < 32 implies #[trigger] b.tables()[o + j] == e[j] by {
        assert(b.tables()[mo + (32 * i + j)] == class_defs(cs, cdoffs, cs.len() as int)[32 * i + j]);
    }
    assert(e.len() == 32);
    assert(e.subrange(0, 4) =~= le32_bytes(cs[i].class_idx));
    assert(e.subrange(4, 8) =~= le32_bytes(1));
    assert(e.subrange(8, 12) =~= le32_bytes(cs[i].superclass_idx));
    assert(e.subrange(24, 28) =~= le32_bytes(cdoffs[i]));
    lemma_image_word_in(b, o, e, 0, cs[i].class_idx);
    lemma_image_word_in(b, o, e, 4, 1);
    lemma_image_word_in(b, o, e, 8, cs[i].superclass_idx);
    lemma_image_word_in(b, o, e, 24, cdoffs[i]);
}

/// Whether every string of the builder is ASCII without a NUL.
pub open spec fn plain_strings(b: BuilderView) -> bool {
    forall|i: int, j: int|
        #![trigger b.strings[i][j]]
        0 <= i < b.strings.len() && 0 <= j < b.strings[i].len() ==> plain_char(b.strings[i][j])
}

/// An ASCII character other than NUL.
pub open spec fn plain_char(c: char) -> bool {
    0 < (c as u32) && (c as u32) < 0x80
}

proof fn lemma_plain_string(b: BuilderView, i: int)
    requires
        plain_strings(b),
        0 <= i < b.strings.len(),
    ensures
        vstd::utf8::is_ascii_chars(b.strings[i]),
        vstd::utf8::encode_utf8(b.strings[i]).len() == b.strings[i].len(),
        forall|j: int| 0 <= j < b.strings[i].len() ==> #[trigger] vstd::utf8::encode_utf8(b.strings[i])[j] != 0,
{
    let s = b.strings[i];
    assert forall|j: int| 0 <= j < s.len() implies '\0' <= #[trigger] s[j] <= '\u{7f}' && (s[j] as u8) != 0 by {
        let c = b.strings[i][j];
        assert(plain_char(c));
        lemma_plain_char(c);
    }
    vstd::utf8::is_ascii_chars_encode_utf8(s);
}

proof fn lemma_plain_char(c: char)
    requires
        plain_char(c),
    ensures
        '\0' <= c <= '\u{7f}',
        (c as u8) != 0,
{
}

/// The data item of string `i` sits in the file at its recorded offset.
#[verifier::rlimit(40)]
proof fn lemma_image_item(b: BuilderView, i: int)
    requires
        small_builder(b),
        0 <= i < b.strings.len(),
    ensures
        ({
            let off = b.strings_part().1[i] as int;
            let item = string_item(b.strings[i]);
            &&& off + item.len() <= b.image().len()
            &&& forall|m: int| 0 <= m < item.len() ==> #[trigger] b.image()[off + m] == item[m]
        }),
{
    let ss = b.strings;
    let base = b.data_off();
    lemma_strings_fold_at(ss, ss.len() as int, base, i);
    lemma_strings_fold_size(ss, i, base);
    lemma_data_off_small(b);
    let di = strings_fold(ss, i, base).0.len();
    let off = base.wrapping_add(di as u32);
    assert(off == base + di);
    lemma_data_starts_with_strings(b);
    let item = string_item(ss[i]);
    let d = b.data();
    assert forall|m: int| 0 <= m < item.len() implies #[trigger] b.image()[off + m] == item[m] by {
        assert((strings_fold(ss, i, base).0 + item)[di + m] == item[m]);
        assert(d[di + m] == item[m]);
        lemma_image_data(b, di + m);
    }
    lemma_image_data(b, di + item.len() - 1);
}

/// A string data item of plain characters reads back as its text.
proof fn lemma_string_at_item(img: Seq<u8>, off: int, s: Seq<char>)
    requires
        0 <= off,
        s.len() <= 32,
        vstd::utf8::encode_utf8(s).len() == s.len(),
        forall|j: int| 0 <= j < s.len() ==> #[trigger] vstd::utf8::encode_utf8(s)[j] != 0,
        off + string_item(s).len() <= img.len(),
        forall|m: int| 0 <= m < string_item(s).len() ==> #[trigger] img[off + m] == string_item(s)[m],
    ensures
        crate::android::dex::string_at(img, off) == Some(s),
{
    broadcast use vstd::utf8::encode_utf8_decode_utf8, vstd::utf8::encode_utf8_valid_utf8;
    let item = string_item(s);
    let L = s.len() as u32;
    let ub = uleb_bytes(L);
    let enc = vstd::utf8::encode_utf8(s);
    assert(item =~= ub + enc + seq![0u8]);
    let rest = img.skip(off + ub.len());
    assert(img.skip(off) =~= ub + rest) by {
        assert forall|m: int| 0 <= m < ub.len() implies #[trigger] img.skip(off)[m] == ub[m] by {
            assert(img[off + m] == item[m]);
        }
    }
    crate::android::properties::uleb_roundtrip(L, rest);
    lemma_uleb_from_skip(img, off, 0, 0, 0);
    let start = off + ub.len();
    let e = start + enc.len();
    assert forall|j: int| start <= j < e implies #[trigger] img[j] != 0 by {
        assert(img[off + (j - off)] == item[j - off]);
        assert(item[j - off] == enc[j - start]);
    }
    assert(img[off + (e - off)] == item[e - off]);
    lemma_nul_from_at(img, start, e);
    assert(img.subrange(start, e) =~= enc) by {
        assert forall|j: int| 0 <= j < enc.len() implies #[trigger] img.subrange(start, e)[j] == enc[j] by {
            assert(img[off + (start + j - off)] == item[start + j - off]);
        }
    }
}

/// String `i` reads back from the file.
proof fn lemma_image_string(b: BuilderView, i: int)
    requires
        small_builder(b),
        plain_strings(b),
        0 <= i < b.strings.len(),
    ensures
        crate::android::dex::string_entry(b.image(), 0x70, i) == Some(b.strings[i]),
{
    lemma_image_string_id(b, i);
    lemma_image_item(b, i);
    lemma_plain_string(b, i);
    lemma_string_at_item(b.image(), b.strings_part().1[i] as int, b.strings[i]);
}

/// The descriptor of each type of the builder.
pub open spec fn type_names(b: BuilderView) -> Seq<Seq<char>> {
    b.types.map_values(|t: u32| b.strings[t as int])
}

/// Prototype `i` of the builder as the parser sees it.
pub open spec fn proto_view(b: BuilderView, i: int) -> ProtoView {
    ProtoView {
        shorty: b.strings[b.protos[i].0 as int],
        return_type: type_names(b)[b.protos[i].1 as int],
        parameters: b.protos[i].2.map_values(|t: u16| type_names(b)[t as int]),
    }
}

/// Method `i` of the builder as the parser sees it.
pub open spec fn method_view(b: BuilderView, i: int) -> MethodView {
    MethodView {
        class: crate::android::dex::lookup_or_empty(type_names(b), b.methods[i].0 as int),
        name: crate::android::dex::lookup_or_empty(b.strings, b.methods[i].2 as int),
        proto: proto_view(b, b.methods[i].1 as int),
    }
}

/// Whether each prototype names a string and types of the builder, and each
/// method a prototype of it.
pub open spec fn refs_ok(b: BuilderView) -> bool {
    &&& forall|i: int| 0 <= i < b.protos.len() ==> (#[trigger] b.protos[i]).0 < b.strings.len() && b.protos[i].1
        < b.types.len()
    &&& forall|i: int, k: int|
        #![trigger b.protos[i].2[k]]
        0 <= i < b.protos.len() && 0 <= k < b.protos[i].2.len() ==> b.protos[i].2[k] < b.types.len()
    &&& forall|i: int| 0 <= i < b.methods.len() ==> (#[trigger] b.methods[i]).1 < b.protos.len()
    &&& forall|i: int| 0 <= i < b.classes.len() ==> (#[trigger] b.classes[i]).class_idx < b.types.len()
}

/// Class `i` of the builder as the parser sees it: all its methods direct,
/// sorted by index, each with the code recorded last for its index.
pub open spec fn class_view(b: BuilderView, i: int) -> ClassView {
    let c = b.classes[i];
    let codes = codes_of(b.classes, b.classes.len() as int);
    ClassView {
        descriptor: type_names(b)[c.class_idx as int],
        access_flags: 1,
        superclass: if c.superclass_idx == 0xffff_ffff {
            None
        } else {
            crate::android::dex::lookup(type_names(b), c.superclass_idx as int)
        },
        class_data_off: b.class_data_part().1[i],
        direct_methods: direct_view(sort_by_key(method_keys(c.methods)), codes),
        virtual_methods: Seq::empty(),
    }
}

proof fn lemma_built_strings(b: BuilderView)
    requires
        small_builder(b),
        plain_strings(b),
    ensures
        crate::android::dex::strings_ok(b.image()),
        crate::android::dex::strings_of(b.image()) == b.strings,
{
    let img = b.image();
    built_dex_header_fields(b);
    lemma_image_offsets(b);
    assert forall|i: int| 0 <= i < b.strings.len() implies #[trigger] crate::android::dex::string_entry(img, 0x70, i)
        == Some(b.strings[i]) by {
        lemma_image_string(b, i);
    }
    assert(crate::android::dex::strings_of(img) =~= b.strings);
}

proof fn lemma_built_types(b: BuilderView)
    requires
        b.wf(),
        small_builder(b),
        crate::android::dex::strings_of(b.image()) == b.strings,
    ensures
        crate::android::dex::types_ok(b.image()),
        crate::android::dex::types_of(b.image()) == type_names(b),
{
    let img = b.image();
    built_dex_header_fields(b);
    lemma_image_offsets(b);
    assert forall|i: int| 0 <= i < b.types.len() implies #[trigger] crate::android::dex::type_entry(
        img,
        b.strings,
        (0x70 + 4 * b.strings.len()) as int,
        i,
    ) == Some(type_names(b)[i]) by {
        lemma_image_type_id(b, i);
    }
    assert(crate::android::dex::types_of(img) =~= type_names(b));
}

proof fn lemma_built_proto(b: BuilderView, i: int)
    requires
        small_builder(b),
        refs_ok(b),
        0 <= i < b.protos.len(),
        crate::android::dex::strings_of(b.image()) == b.strings,
        crate::android::dex::types_of(b.image()) == type_names(b),
    ensures
        crate::android::dex::proto_entry(
            b.image(),
            b.strings,
            type_names(b),
            (0x70 + 4 * b.strings.len() + 4 * b.types.len()) as int,
            i,
        ) == Some(proto_view(b, i)),
{
    let img = b.image();
    let tn = type_names(b);
    let p = b.protos[i].2;
    lemma_image_proto_id(b, i);
    let off = b.params_part().1[i] as int;
    if p.len() == 0 {
        lemma_params_fold_at(b.protos, b.protos.len() as int, b.data_off(), b.strings_part().0, i);
        assert(p.map_values(|t: u16| tn[t as int]) =~= Seq::<Seq<char>>::empty());
    } else {
        lemma_image_params(b, i);
        assert forall|k: int| 0 <= k < p.len() implies #[trigger] crate::android::dex::param_entry(img, tn, off, k)
            == Some(tn[p[k] as int]) by {
            assert(crate::android::dex::u16_at(img, off + 4 + 2 * k) == Some(p[k]));
            assert(p[k] < b.types.len());
        }
        assert(crate::android::dex::params_at(img, tn, off) == Some(p.map_values(|t: u16| tn[t as int]))) by {
            assert(Seq::new(
                p.len(),
                |k: int| crate::android::dex::param_entry(img, tn, off, k)->Some_0,
            ) =~= p.map_values(|t: u16| tn[t as int]));
        }
    }
}

proof fn lemma_built_protos(b: BuilderView)
    requires
        small_builder(b),
        refs_ok(b),
        crate::android::dex::strings_of(b.image()) == b.strings,
        crate::android::dex::types_of(b.image()) == type_names(b),
    ensures
        crate::android::dex::protos_ok(b.image()),
        crate::android::dex::protos_of(b.image()) == Seq::new(b.protos.len(), |i: int| proto_view(b, i)),
{
    built_dex_header_fields(b);
    lemma_image_offsets(b);
    assert forall|i: int| 0 <= i < b.protos.len() implies #[trigger] crate::android::dex::proto_entry(
        b.image(),
        b.strings,
        type_names(b),
        (0x70 + 4 * b.strings.len() + 4 * b.types.len()) as int,
        i,
    ) == Some(proto_view(b, i)) by {
        lemma_built_proto(b, i);
    }
    assert(crate::android::dex::protos_of(b.image()) =~= Seq::new(b.protos.len(), |i: int| proto_view(b, i)));
}

proof fn lemma_built_methods(b: BuilderView)
    requires
        small_builder(b),
        refs_ok(b),
        crate::android::dex::strings_of(b.image()) == b.strings,
        crate::android::dex::types_of(b.image()) == type_names(b),
        crate::android::dex::protos_of(b.image()) == Seq::new(b.protos.len(), |i: int| proto_view(b, i)),
    ensures
        crate::android::dex::methods_ok(b.image()),
        crate::android::dex::methods_of(b.image()) == Seq::new(b.methods.len(), |i: int| method_view(b, i)),
{
    let img = b.image();
    built_dex_header_fields(b);
    lemma_image_offsets(b);
    let pv = Seq::new(b.protos.len(), |i: int| proto_view(b, i));
    assert forall|i: int| 0 <= i < b.methods.len() implies #[trigger] crate::android::dex::method_entry(
        img,
        b.strings,
        type_names(b),
        pv,
        (0x70 + 4 * b.strings.len() + 4 * b.types.len() + 12 * b.protos.len()) as int,
        i,
    ) == Some(method_view(b, i)) by {
        lemma_image_method_id(b, i);
        assert(b.methods[i].1 < b.protos.len());
    }
    assert(crate::android::dex::methods_of(img) =~= Seq::new(b.methods.len(), |i: int| method_view(b, i)));
}

/// Class data item `i` sits in the file at its recorded offset.
#[verifier::rlimit(40)]
proof fn lemma_image_class_item(b: BuilderView, i: int)
    requires
        small_builder(b),
        0 <= i < b.classes.len(),
    ensures
        ({
            let cd = b.class_data_part().1[i] as int;
            let item = class_data_item(b.classes[i], b.code_part().1);
            &&& 0x70 <= cd
            &&& cd + item.len() <= b.image().len()
            &&& forall|j: int| 0 <= j < item.len() ==> #[trigger] b.image()[cd + j] == item[j]
        }),
{
    let img = b.image();
    let c = b.classes[i];
    let base = b.data_off();
    let offs = b.code_part().1;
    let cs = b.classes;
    lemma_body_size(b);
    lemma_data_off_small(b);
    reveal(BuilderView::data);
    lemma_class_data_fold_at(cs, cs.len() as int, base, b.code_part().0, offs, i);
    let q = pad4(class_data_fold(cs, i, base, b.code_part().0, offs).0);
    let item = class_data_item(c, offs);
    let x = q.len() as int;
    assert forall|j: int| 0 <= j < item.len() implies #[trigger] b.data()[x + j] == item[j] by {
        assert((q + item)[x + j] == item[j]);
    }
    assert(x + item.len() <= b.data().len()) by {
        assert((q + item).len() <= b.data().len());
    }
    lemma_image_data_run(b, x, item);
    let cd = b.class_data_part().1[i];
    assert(cd == base + x);
    assert forall|j: int| 0 <= j < item.len() implies #[trigger] img[cd + j] == item[j] by {
        assert(img[base + x + j] == item[j]);
    }
}

/// A class data item laid out at `cd` reads back as the class's methods,
/// sorted, each with its code.
proof fn lemma_class_methods_at(
    img: Seq<u8>,
    cd: int,
    c: ClassBuildView,
    offs: Seq<(u32, u32)>,
    codes: Seq<(u32, CodeView)>,
)
    requires
        0 <= cd,
        c.methods.len() <= 4,
        cd + class_data_item(c, offs).len() <= img.len(),
        forall|j: int| 0 <= j < class_data_item(c, offs).len() ==> #[trigger] img[cd + j] == class_data_item(c, offs)[j],
        forall|idx: u32| #[trigger] parsed_code(img, offs, idx) == code_lookup(codes, idx),
        forall|idx: u32| #[trigger] code_lookup(codes, idx) is None ==> lookup_off(offs, idx) == 0,
    ensures
        crate::android::dex::class_data_at(img, cd) == Some(
            (direct_view(sort_by_key(method_keys(c.methods)), codes), Seq::<EncodedView>::empty()),
        ),
{
    let sorted = sort_by_key(method_keys(c.methods));
    assert forall|j: int|
        0 <= j < sorted.len() && lookup_off(offs, (#[trigger] sorted[j]).0) != 0 implies crate::android::dex::code_at(
        img,
        lookup_off(offs, sorted[j].0) as int,
    ) is Some by {
        assert(parsed_code(img, offs, sorted[j].0) == code_lookup(codes, sorted[j].0));
        assert(code_lookup(codes, sorted[j].0) is None ==> lookup_off(offs, sorted[j].0) == 0);
    }
    lemma_class_data_item_at(img, cd, c, offs);
    lemma_direct_view(img, sorted, offs, codes);
}

/// The methods of class `i` read back from its class data item.
proof fn lemma_image_class_methods(b: BuilderView, i: int)
    requires
        small_builder(b),
        0 <= i < b.classes.len(),
    ensures
        crate::android::dex::class_data_at(b.image(), b.class_data_part().1[i] as int) == Some(
            (class_view(b, i).direct_methods, Seq::<EncodedView>::empty()),
        ),
{
    let img = b.image();
    let offs = b.code_part().1;
    let codes = codes_of(b.classes, b.classes.len() as int);
    lemma_image_class_item(b, i);
    assert forall|idx: u32| #[trigger] parsed_code(img, offs, idx) == code_lookup(codes, idx) by {
        lemma_code_for(b, idx);
    }
    assert forall|idx: u32| #[trigger] code_lookup(codes, idx) is None implies lookup_off(offs, idx) == 0 by {
        lemma_codes_in_data(b);
        lemma_body_size(b);
        lemma_lookup_stored(b.data(), b.data_off(), offs, codes, idx);
    }
    assert(b.classes[i].methods.len() <= 4);
    lemma_class_methods_at(img, b.class_data_part().1[i] as int, b.classes[i], offs, codes);
}

proof fn lemma_built_class(b: BuilderView, i: int)
    requires
        small_builder(b),
        refs_ok(b),
        0 <= i < b.classes.len(),
    ensures
        crate::android::dex::class_entry(
            b.image(),
            type_names(b),
            (0x70 + 4 * b.strings.len() + 4 * b.types.len() + 12 * b.protos.len() + 8 * b.methods.len()) as int,
            i,
        ) == Some(class_view(b, i)),
{
    lemma_image_class_def(b, i);
    lemma_image_class_item(b, i);
    lemma_image_class_methods(b, i);
    assert(b.classes[i].class_idx < b.types.len());
}

proof fn lemma_built_classes(b: BuilderView)
    requires
        small_builder(b),
        refs_ok(b),
        crate::android::dex::types_of(b.image()) == type_names(b),
    ensures
        crate::android::dex::classes_ok(b.image()),
        crate::android::dex::classes_of(b.image()) == Seq::new(b.classes.len(), |i: int| class_view(b, i)),
{
    built_dex_header_fields(b);
    lemma_image_offsets(b);
    assert forall|i: int| 0 <= i < b.classes.len() implies #[trigger] crate::android::dex::class_entry(
        b.image(),
        type_names(b),
        (0x70 + 4 * b.strings.len() + 4 * b.types.len() + 12 * b.protos.len() + 8 * b.methods.len()) as int,
        i,
    ) == Some(class_view(b, i)) by {
        lemma_built_class(b, i);
    }
    assert(crate::android::dex::classes_of(b.image()) =~= Seq::new(b.classes.len(), |i: int| class_view(b, i)));
}

/// Parsing back the file a small builder lays out gives the builder's own
/// tables: its strings (when each is ASCII without a NUL), the descriptor of
/// each type, each prototype and each method, no fields, and each class with
/// all its methods direct, sorted by index, each with its code.
pub proof fn built_dex_tables(b: BuilderView)
    requires
        b.wf(),
        small_builder(b),
        plain_strings(b),
        refs_ok(b),
    ensures
        crate::android::dex::strings_ok(b.image()),
        crate::android::dex::strings_of(b.image()) == b.strings,
        crate::android::dex::types_ok(b.image()),
        crate::android::dex::types_of(b.image()) == type_names(b),
        crate::android::dex::protos_ok(b.image()),
        crate::android::dex::protos_of(b.image()) == Seq::new(b.protos.len(), |i: int| proto_view(b, i)),
        crate::android::dex::fields_ok(b.image()),
        crate::android::dex::fields_of(b.image()) == Seq::<crate::android::dex::FieldView>::empty(),
        crate::android::dex::methods_ok(b.image()),
        crate::android::dex::methods_of(b.image()) == Seq::new(b.methods.len(), |i: int| method_view(b, i)),
        crate::android::dex::classes_ok(b.image()),
        crate::android::dex::classes_of(b.image()) == Seq::new(b.classes.len(), |i: int| class_view(b, i)),
        crate::android::dex::header_ok(b.image()),
        crate::android::dex::tables_ok(b.image()),
{
    lemma_built_strings(b);
    lemma_built_types(b);
    lemma_built_protos(b);
    lemma_built_methods(b);
    lemma_built_classes(b);
    built_dex_header_fields(b);
    lemma_image_offsets(b);
    assert(crate::android::dex::fields_of(b.image()) =~= Seq::<crate::android::dex::FieldView>::empty());
}

/// The hello-world builder is small.
proof fn lemma_hello_builder_small()
    ensures
        small_builder(hello_builder()),
{
    reveal_strlit("Hello from NekoDroid");
    reveal_strlit("main");
    reveal_strlit("<init>");
    reveal_strlit("println");
    reveal_strlit("V");
    reveal_strlit("VL");
    reveal_strlit("V[L");
    reveal_strlit("Lcom/nekodroid/Hello;");
    reveal_strlit("Ljava/lang/Object;");
    reveal_strlit("Lnekodroid/Hle;");
    reveal_strlit("Ljava/lang/String;");
    reveal_strlit("[Ljava/lang/String;");
    let b = hello_builder();
    assert forall|i: int| 0 <= i < b.strings.len() implies #[trigger] b.strings[i].len() <= 32 by {}
    assert forall|i: int| 0 <= i < b.protos.len() implies #[trigger] b.protos[i].2.len() <= 16 by {}
    let c = b.classes[0];
    assert forall|j: int| 0 <= j < c.methods.len() implies ((#[trigger] c.methods[j]).code matches Some(cc)
        ==> cc.insns.len() <= 16) by {}
    assert forall|i: int| 0 <= i < b.classes.len() implies {
        &&& (#[trigger] b.classes[i]).methods.len() <= 4
        &&& forall|j: int| 0 <= j < b.classes[i].methods.len() ==> ((#[trigger] b.classes[i].methods[j]).code matches Some(
            cc,
        ) ==> cc.insns.len() <= 16)
    } by {
        assert(i == 0);
    }
}

/// The hello-world builder names only strings, types and prototypes it has,
/// and its strings are ASCII without a NUL.
proof fn lemma_hello_builder_refs()
    ensures
        hello_builder().wf(),
        plain_strings(hello_builder()),
        refs_ok(hello_builder()),
{
    reveal_strlit("Hello from NekoDroid");
    reveal_strlit("main");
    reveal_strlit("<init>");
    reveal_strlit("println");
    reveal_strlit("V");
    reveal_strlit("VL");
    reveal_strlit("V[L");
    reveal_strlit("Lcom/nekodroid/Hello;");
    reveal_strlit("Ljava/lang/Object;");
    reveal_strlit("Lnekodroid/Hle;");
    reveal_strlit("Ljava/lang/String;");
    reveal_strlit("[Ljava/lang/String;");
    let b = hello_builder();
    assert forall|i: int, j: int| 0 <= i < b.strings.len() && 0 <= j < b.strings[i].len() implies plain_char(
        #[trigger] b.strings[i][j],
    ) by {
        if i == 0 {
            assert(b.strings[0] == "Hello from NekoDroid"@);
        } else if i == 1 {
            assert(b.strings[1] == "main"@);
        } else if i == 2 {
            assert(b.strings[2] == "<init>"@);
        } else if i == 3 {
            assert(b.strings[3] == "println"@);
        } else if i == 4 {
            assert(b.strings[4] == "V"@);
        } else if i == 5 {
            assert(b.strings[5] == "VL"@);
        } else if i == 6 {
            assert(b.strings[6] == "V[L"@);
        } else if i == 7 {
            assert(b.strings[7] == "Lcom/nekodroid/Hello;"@);
        } else if i == 8 {
            assert(b.strings[8] == "Ljava/lang/Object;"@);
        } else if i == 9 {
            assert(b.strings[9] == "Lnekodroid/Hle;"@);
        } else if i == 10 {
            assert(b.strings[10] == "Ljava/lang/String;"@);
        } else {
            assert(b.strings[11] == "[Ljava/lang/String;"@);
        }
    }
    assert forall|i: int, k: int| 0 <= i < b.protos.len() && 0 <= k < b.protos[i].2.len() implies #[trigger] b.protos[i].2[k]
        < b.types.len() by {
        if i == 1 {
            assert(b.protos[1].2 == seq![3u16]);
        } else if i == 2 {
            assert(b.protos[2].2 == seq![4u16]);
        }
    }
}

/// The hello-world DEX file parses back: a valid header and tables that are
/// the hello-world builder's own.
pub proof fn hello_dex_parses()
    ensures
        crate::android::apk::dex_ok(hello_builder().image()),
        crate::android::dex::dex_of(hello_builder().image()).strings == hello_builder().strings,
        crate::android::dex::dex_of(hello_builder().image()).types == type_names(hello_builder()),
        crate::android::dex::dex_of(hello_builder().image()).methods == Seq::new(
            hello_builder().methods.len(),
            |i: int| method_view(hello_builder(), i),
        ),
        crate::android::dex::dex_of(hello_builder().image()).classes == Seq::new(
            hello_builder().classes.len(),
            |i: int| class_view(hello_builder(), i),
        ),
{
    lemma_hello_builder_small();
    lemma_hello_builder_refs();
    built_dex_tables(hello_builder());
}

/// The arithmetic builder is small, names only strings, types and
/// prototypes it has, and its strings are ASCII without a NUL.
proof fn lemma_arith_builder_ok()
    ensures
        small_builder(arith_builder()),
        arith_builder().wf(),
        plain_strings(arith_builder()),
        refs_ok(arith_builder()),
{
    reveal_strlit("main");
    reveal_strlit("<init>");
    reveal_strlit("printInt");
    reveal_strlit("V");
    reveal_strlit("VI");
    reveal_strlit("V[L");
    reveal_strlit("Lcom/nekodroid/Arith;");
    reveal_strlit("Ljava/lang/Object;");
    reveal_strlit("Lnekodroid/Hle;");
    reveal_strlit("[Ljava/lang/String;");
    reveal_strlit("I");
    let b = arith_builder();
    assert forall|i: int| 0 <= i < b.strings.len() implies #[trigger] b.strings[i].len() <= 32 by {}
    assert forall|i: int| 0 <= i < b.protos.len() implies #[trigger] b.protos[i].2.len() <= 16 by {}
    let c = b.classes[0];
    assert forall|j: int| 0 <= j < c.methods.len() implies ((#[trigger] c.methods[j]).code matches Some(cc)
        ==> cc.insns.len() <= 16) by {}
    assert forall|i: int| 0 <= i < b.classes.len() implies {
        &&& (#[trigger] b.classes[i]).methods.len() <= 4
        &&& forall|j: int| 0 <= j < b.classes[i].methods.len() ==> ((#[trigger] b.classes[i].methods[j]).code matches Some(
            cc,
        ) ==> cc.insns.len() <= 16)
    } by {
        assert(i == 0);
    }
    assert forall|i: int, j: int| 0 <= i < b.strings.len() && 0 <= j < b.strings[i].len() implies plain_char(
        #[trigger] b.strings[i][j],
    ) by {
        if i == 0 {
            assert(b.strings[0] == "main"@);
        } else if i == 1 {
            assert(b.strings[1] == "<init>"@);
        } else if i == 2 {
            assert(b.strings[2] == "printInt"@);
        } else if i == 3 {
            assert(b.strings[3] == "V"@);
        } else if i == 4 {
            assert(b.strings[4] == "VI"@);
        } else if i == 5 {
            assert(b.strings[5] == "V[L"@);
        } else if i == 6 {
            assert(b.strings[6] == "Lcom/nekodroid/Arith;"@);
        } else if i == 7 {
            assert(b.strings[7] == "Ljava/lang/Object;"@);
        } else if i == 8 {
            assert(b.strings[8] == "Lnekodroid/Hle;"@);
        } else if i == 9 {
            assert(b.strings[9] == "[Ljava/lang/String;"@);
        } else {
            assert(b.strings[10] == "I"@);
        }
    }
    assert forall|i: int, k: int| 0 <= i < b.protos.len() && 0 <= k < b.protos[i].2.len() implies #[trigger] b.protos[i].2[k]
        < b.types.len() by {
        if i == 1 {
            assert(b.protos[1].2 == seq![5u16]);
        } else if i == 2 {
            assert(b.protos[2].2 == seq![3u16]);
        }
    }
}

/// The arithmetic DEX file parses back: a valid header and tables that are
/// the arithmetic builder's own.
pub proof fn arith_dex_parses()
    ensures
        crate::android::apk::dex_ok(arith_builder().image()),
        crate::android::dex::dex_of(arith_builder().image()).strings == arith_builder().strings,
        crate::android::dex::dex_of(arith_builder().image()).types == type_names(arith_builder()),
        crate::android::dex::dex_of(arith_builder().image()).methods == Seq::new(
            arith_builder().methods.len(),
            |i: int| method_view(arith_builder(), i),
        ),
        crate::android::dex::dex_of(arith_builder().image()).classes == Seq::new(
            arith_builder().classes.len(),
            |i: int| class_view(arith_builder(), i),
        ),
{
    lemma_arith_builder_ok();
    built_dex_tables(arith_builder());
}

/// The hello-world class as parsed: `Lcom/nekodroid/Hello;`, its first
/// method `main` (index 1) with its code.
pub(crate) proof fn lemma_hello_main_entry()
    ensures
        class_view(hello_builder(), 0).descriptor == "Lcom/nekodroid/Hello;"@,
        class_view(hello_builder(), 0).direct_methods.len() > 0,
        class_view(hello_builder(), 0).direct_methods[0] == (EncodedView {
            method_idx: 1,
            access_flags: 9,
            code: Some(code_view(2, 1, 1, seq![0x001au16, 0, 0x1071, 0, 0x0000, 0x000e])),
        }),
        method_view(hello_builder(), 1).name == "main"@,
{
    let b = hello_builder();
    let ms = b.classes[0].methods;
    let keys = method_keys(ms);
    assert(keys =~= seq![(2u32, 0x10001u32), (1u32, 0x0009u32)]);
    assert(sort_by_key(keys) =~= seq![(1u32, 0x0009u32), (2u32, 0x10001u32)]) by {
        let k1 = keys.drop_last();
        assert(k1 =~= seq![(2u32, 0x10001u32)]);
        assert(k1.drop_last() =~= Seq::<(u32, u32)>::empty());
        assert(sort_by_key(k1.drop_last()) == Seq::<(u32, u32)>::empty());
        assert(insert_sorted(Seq::<(u32, u32)>::empty(), (2u32, 0x10001u32)) =~= seq![(2u32, 0x10001u32)]);
        assert(sort_by_key(k1) =~= seq![(2u32, 0x10001u32)]);
        let one = seq![(2u32, 0x10001u32)];
        assert(one.drop_last() =~= Seq::<(u32, u32)>::empty());
        assert(insert_sorted(one.drop_last(), (1u32, 0x0009u32)) =~= seq![(1u32, 0x0009u32)]);
        assert(insert_sorted(one, (1u32, 0x0009u32)) =~= seq![(1u32, 0x0009u32), (2u32, 0x10001u32)]);
    }
    let main_code = code_view(2, 1, 1, seq![0x001au16, 0, 0x1071, 0, 0x0000, 0x000e]);
    let init_code = code_view(1, 1, 0, seq![0x000eu16]);
    let codes = codes_of(b.classes, 1);
    assert(codes =~= seq![(2u32, init_code), (1u32, main_code)]) by {
        let e = Seq::<(u32, CodeView)>::empty();
        assert(codes_of(b.classes, 0) == e);
        assert(ms[0].code == Some(init_code));
        assert(ms[1].code == Some(main_code));
        assert(codes_class(ms, 0, e) == e);
        assert(codes_class(ms, 1, e) =~= seq![(2u32, init_code)]);
        assert(codes_class(ms, 2, e) =~= seq![(2u32, init_code), (1u32, main_code)]);
        assert(codes == codes_class(ms, 2, e));
    }
    assert(code_lookup(codes, 1) == Some(main_code)) by {
        assert(codes.last() == (1u32, main_code));
    }
}

/// Method 0 of the hello-world DEX is `Lnekodroid/Hle;.println`.
pub(crate) proof fn lemma_hello_println_ref()
    ensures
        method_view(hello_builder(), 0).class == "Lnekodroid/Hle;"@,
        method_view(hello_builder(), 0).name == "println"@,
        hello_builder().strings[0] == "Hello from NekoDroid"@,
{
    let b = hello_builder();
    assert(type_names(b)[2] == b.strings[9]);
}

/// The arithmetic class as parsed: `Lcom/nekodroid/Arith;`, its first
/// method `main` (index 1) with its code; method 0 is
/// `Lnekodroid/Hle;.printInt`.
pub(crate) proof fn lemma_arith_main_entry()
    ensures
        class_view(arith_builder(), 0).descriptor == "Lcom/nekodroid/Arith;"@,
        class_view(arith_builder(), 0).direct_methods.len() > 0,
        class_view(arith_builder(), 0).direct_methods[0] == (EncodedView {
            method_idx: 1,
            access_flags: 9,
            code: Some(code_view(2, 1, 1, seq![0x2012u16, 0x3112, 0x10b0, 0x1071, 0, 0x0000, 0x000e])),
        }),
        method_view(arith_builder(), 1).name == "main"@,
        method_view(arith_builder(), 0).class == "Lnekodroid/Hle;"@,
        method_view(arith_builder(), 0).name == "printInt"@,
{
    let b = arith_builder();
    let ms = b.classes[0].methods;
    let keys = method_keys(ms);
    assert(keys =~= seq![(2u32, 0x10001u32), (1u32, 0x0009u32)]);
    assert(sort_by_key(keys) =~= seq![(1u32, 0x0009u32), (2u32, 0x10001u32)]) by {
        let k1 = keys.drop_last();
        assert(k1 =~= seq![(2u32, 0x10001u32)]);
        assert(k1.drop_last() =~= Seq::<(u32, u32)>::empty());
        assert(sort_by_key(k1.drop_last()) == Seq::<(u32, u32)>::empty());
        assert(insert_sorted(Seq::<(u32, u32)>::empty(), (2u32, 0x10001u32)) =~= seq![(2u32, 0x10001u32)]);
        assert(sort_by_key(k1) =~= seq![(2u32, 0x10001u32)]);
        let one = seq![(2u32, 0x10001u32)];
        assert(one.drop_last() =~= Seq::<(u32, u32)>::empty());
        assert(insert_sorted(one.drop_last(), (1u32, 0x0009u32)) =~= seq![(1u32, 0x0009u32)]);
        assert(insert_sorted(one, (1u32, 0x0009u32)) =~= seq![(1u32, 0x0009u32), (2u32, 0x10001u32)]);
    }
    let main_code = code_view(2, 1, 1, seq![0x2012u16, 0x3112, 0x10b0, 0x1071, 0, 0x0000, 0x000e]);
    let init_code = code_view(1, 1, 0, seq![0x000eu16]);
    let codes = codes_of(b.classes, 1);
    assert(codes =~= seq![(2u32, init_code), (1u32, main_code)]) by {
        let e = Seq::<(u32, CodeView)>::empty();
        assert(codes_of(b.classes, 0) == e);
        assert(ms[0].code == Some(init_code));
        assert(ms[1].code == Some(main_code));
        assert(codes_class(ms, 0, e) == e);
        assert(codes_class(ms, 1, e) =~= seq![(2u32, init_code)]);
        assert(codes_class(ms, 2, e) =~= seq![(2u32, init_code), (1u32, main_code)]);
        assert(codes == codes_class(ms, 2, e));
    }
    assert(code_lookup(codes, 1) == Some(main_code)) by {
        assert(codes.last() == (1u32, main_code));
    }
    assert(type_names(b)[2] == b.strings[8]);
}

// ── The APK fixture ───────────────────────────────────────────────────

/// A ZIP archive being written to memory, entries stored uncompressed.
#[verifier::external_body]
pub struct ZipBuilder {
    inner: ZipWriter<Cursor<Vec<u8>>>,
}

/// The entries written to a `ZipBuilder` so far: names and contents.
pub uninterp spec fn zip_entries(z: ZipBuilder) -> Seq<(Seq<char>, Seq<u8>)>;

/// Whether the writer has an entry open for data (`ZipWriter`'s
/// `writing_to_file`).
pub uninterp spec fn zip_writing(z: ZipBuilder) -> bool;

/// The archive `ZipWriter::finish` produces for these entries, each stored
/// uncompressed with the default options (the `time` feature of the zip
/// crate is off, so every timestamp is the same fixed date).
pub uninterp spec fn stored_zip(entries: Seq<(Seq<char>, Seq<u8>)>) -> Seq<u8>;

/// Whether no entry of `entries` is called `name`.
pub open spec fn new_entry_name(entries: Seq<(Seq<char>, Seq<u8>)>, name: Seq<char>) -> bool {
    forall|i: int| 0 <= i < entries.len() ==> #[trigger] entries[i].0 != name
}

impl ZipBuilder {
    /// `ZipWriter::new` over an empty in-memory buffer: no entries yet,
    /// none open.
    #[verifier::external_body]
    pub fn new() -> (r: ZipBuilder)
        ensures
            zip_entries(r) == Seq::<(Seq<char>, Seq<u8>)>::empty(),
            !zip_writing(r),
    {
        ZipBuilder { inner: ZipWriter::new(Cursor::new(Vec::new())) }
    }

    /// `ZipWriter::start_file` with stored (uncompressed) entries. The
    /// writer is memory, which never fails, so the call fails exactly on a
    /// name already in the archive; on success a new, empty entry called
    /// `name` follows the others and is open. (A name of more than 65535
    /// bytes makes the crate panic; `requires` rules it out.)
    #[verifier::external_body]
    pub fn start_stored(&mut self, name: &str) -> (r: Result<(), AndroidError>)
        requires
            vstd::utf8::encode_utf8(name@).len() <= 0xFFFF,
        ensures
            r is Ok <==> new_entry_name(zip_entries(*old(self)), name@),
            r is Ok ==> zip_entries(*final(self)) == zip_entries(*old(self)).push((name@, Seq::empty())) && zip_writing(
                *final(self),
            ),
            r matches Err(e) ==> e is Runtime,
    {
        let opts = SimpleFileOptions::default().compression_method(zip::CompressionMethod::Stored);
        match self.inner.start_file(name, opts) {
            Ok(()) => Ok(()),
            Err(e) => Err(AndroidError::Runtime(e.to_string())),
        }
    }

    /// `Write::write_all` on the writer. Empty data succeeds and changes
    /// nothing (std's `write_all` then makes no call). Other data is
    /// appended to the open entry; the call succeeds exactly when an entry
    /// is open and it stays within 4 GiB (without the large-file option the
    /// crate refuses more, and memory never fails).
    #[verifier::external_body]
    pub fn write_all(&mut self, data: &[u8]) -> (r: Result<(), AndroidError>)
        ensures
            data@.len() == 0 ==> r is Ok && zip_entries(*final(self)) == zip_entries(*old(self)) && zip_writing(
                *final(self),
            ) == zip_writing(*old(self)),
            data@.len() > 0 ==> (r is Ok <==> zip_writing(*old(self)) && zip_entries(*old(self)).len() > 0
                && zip_entries(*old(self)).last().1.len() + data@.len() <= 0xFFFF_FFFF),
            data@.len() > 0 && zip_writing(*old(self)) ==> zip_entries(*old(self)).len() > 0,
            data@.len() > 0 && r is Ok ==> zip_writing(*final(self)) && zip_entries(*final(self)) == zip_entries(
                *old(self),
            ).update(
                zip_entries(*old(self)).len() - 1,
                (zip_entries(*old(self)).last().0, zip_entries(*old(self)).last().1 + data@),
            ),
            r matches Err(e) ==> e is Runtime,
    {
        match self.inner.write_all(data) {
            Ok(()) => Ok(()),
            Err(e) => Err(AndroidError::Runtime(e.to_string())),
        }
    }

    /// `ZipWriter::finish`, then the buffer: the archive's bytes. With every
    /// entry within 4 GiB it succeeds (memory never fails). The archive
    /// starts with `PK`: with the local header signature `PK\x03\x04` of
    /// its first entry, or without entries with the end-of-directory
    /// record. Read back
    /// with `ZipArchive`, they list the entries in the order written, each
    /// opening and reading as what was written to it.
    #[verifier::external_body]
    pub fn finish(self) -> (r: Result<Vec<u8>, AndroidError>)
        ensures
            (forall|i: int| 0 <= i < zip_entries(self).len() ==> #[trigger] zip_entries(self)[i].1.len() <= 0xFFFF_FFFF)
                ==> r is Ok,
            r matches Ok(v) ==> v@ == stored_zip(zip_entries(self)),
            r matches Ok(v) ==> v@.len() >= 4 && v@[0] == 0x50 && v@[1] == 0x4b,
            zip_entries(self).len() > 0 ==> (r matches Ok(v) ==> v@[2] == 3 && v@[3] == 4),
            r matches Ok(v) ==> zip_listing(v@) == Some(zip_entries(self).map_values(|e: (Seq<char>, Seq<u8>)| e.0)),
            r matches Ok(v) ==> forall|i: int|
                0 <= i < zip_entries(self).len() ==> zip_entry_opens(v@, i) && #[trigger] zip_entry_data(v@, i) == Some(
                    zip_entries(self)[i].1,
                ),
            r matches Err(e) ==> e is Runtime,
    {
        match self.inner.finish() {
            Ok(c) => Ok(c.into_inner()),
            Err(e) => Err(AndroidError::Runtime(e.to_string())),
        }
    }
}

/// The text manifest of the hello-world APK.
pub open spec fn hello_manifest() -> Seq<char> {
    "#nekodroid-manifest\npackage=com.nekodroid\nactivity=Lcom/nekodroid/Hello;\n"@
}

/// The entries of the hello-world APK: the DEX file and the manifest.
pub open spec fn hello_zip_entries() -> Seq<(Seq<char>, Seq<u8>)> {
    seq![
        ("classes.dex"@, hello_builder().image()),
        ("AndroidManifest.xml"@, vstd::utf8::encode_utf8(hello_manifest())),
    ]
}

/// What reading the hello-world archive `b` back gives: it starts with
/// `PK\x03\x04`, lists `classes.dex` then `AndroidManifest.xml`, and both
/// entries open and read as what was written.
pub open spec fn hello_apk_readable(b: Seq<u8>) -> bool {
    &&& b.len() >= 4 && b[0] == 0x50 && b[1] == 0x4b && b[2] == 3 && b[3] == 4
    &&& zip_listing(b) == Some(seq!["classes.dex"@, "AndroidManifest.xml"@])
    &&& zip_entry_opens(b, 0) && zip_entry_data(b, 0) == Some(hello_builder().image())
    &&& zip_entry_opens(b, 1) && zip_entry_data(b, 1) == Some(vstd::utf8::encode_utf8(hello_manifest()))
}

/// Builds the hello-world APK: `classes.dex` and a text manifest.
pub fn build_hello_apk() -> (r: Result<Vec<u8>, AndroidError>)
    ensures
        r matches Ok(v) && v@ == stored_zip(hello_zip_entries()),
        hello_apk_readable(stored_zip(hello_zip_entries())),
{
    broadcast use vstd::utf8::is_ascii_chars_encode_utf8;
    let dex = match build_hello_dex() {
        Ok(d) => d,
        Err(e) => return Err(e),
    };
    let dex_name = "classes.dex";
    let manifest_name = "AndroidManifest.xml";
    let manifest = "#nekodroid-manifest\npackage=com.nekodroid\nactivity=Lcom/nekodroid/Hello;\n";
    proof {
        lemma_hello_builder_small();
        lemma_small_image(hello_builder());
        reveal_strlit("classes.dex");
        reveal_strlit("AndroidManifest.xml");
        reveal_strlit("#nekodroid-manifest\npackage=com.nekodroid\nactivity=Lcom/nekodroid/Hello;\n");
        assert(vstd::utf8::is_ascii_chars(dex_name@));
        assert(vstd::utf8::is_ascii_chars(manifest_name@));
        assert(vstd::utf8::is_ascii_chars(manifest@));
        assert(dex_name@ != manifest_name@) by {
            assert(dex_name@.len() != manifest_name@.len());
        }
    }
    let mut zip = ZipBuilder::new();
    match zip.start_stored(dex_name) {
        Ok(()) => {},
        Err(e) => return Err(e),
    }
    match zip.write_all(dex.as_slice()) {
        Ok(()) => {},
        Err(e) => return Err(e),
    }
    proof {
        if dex@.len() > 0 {
            assert(zip_entries(zip) =~= seq![(dex_name@, dex@)]);
        } else {
            assert(zip_entries(zip) =~= seq![(dex_name@, dex@)]);
        }
    }
    match zip.start_stored(manifest_name) {
        Ok(()) => {},
        Err(e) => return Err(e),
    }
    match zip.write_all(manifest.as_bytes()) {
        Ok(()) => {},
        Err(e) => return Err(e),
    }
    proof {
        assert(manifest.spec_bytes() == vstd::utf8::encode_utf8(hello_manifest()));
        assert(zip_entries(zip) =~= hello_zip_entries());
    }
    let r = zip.finish();
    proof {
        let es = hello_zip_entries();
        assert(es.map_values(|e: (Seq<char>, Seq<u8>)| e.0) =~= seq!["classes.dex"@, "AndroidManifest.xml"@]);
        assert(es[0].1.len() <= 0xFFFF_FFFF && es[1].1.len() <= 0xFFFF_FFFF);
    }
    r
}

} // verus!
