//! A loaded APK together with the VM that runs it.
use vstd::prelude::*;
use crate::android::apk::{apk_outcome, entries_read, last_entry, load_apk_bytes, load_view, LoadedApk, LoadedView};
use crate::android::dex::find_method_spec;
use crate::android::error::{AndroidError, ErrView};
use crate::android::fixture::{build_hello_apk, hello_builder, hello_dex_parses, hello_manifest, hello_zip_entries, stored_zip};
use crate::android::hle::{ObjView, Value};
use crate::android::interp::{rv, Vm, VmView};
use crate::disasm::{dec_str, push_dec_wide};
use crate::text::chars_of;

verus! {

/// An app session: the APK and the VM running its code.
#[derive(Debug)]
pub struct AppRuntime {
    pub apk: LoadedApk,
    pub vm: Vm,
}

pub struct AppView {
    pub apk: LoadedView,
    pub vm: VmView,
}

impl View for AppRuntime {
    type V = AppView;

    open spec fn view(&self) -> AppView {
        AppView { apk: self.apk@, vm: self.vm@ }
    }
}

/// A fresh VM for `dex`: no frame, nothing logged.
pub open spec fn fresh_vm(dex: crate::android::dex::DexView) -> VmView {
    VmView {
        dex: dex,
        host: crate::android::hle::HostView::empty(),
        stack: Seq::empty(),
        result: Value::Int(0),
        halted: false,
        halt_reason: None,
        steps: 0,
    }
}

proof fn lemma_hello_archive(b: Seq<u8>)
    requires
        crate::android::fixture::hello_apk_readable(b),
    ensures
        entries_read(b, seq!["classes.dex"@, "AndroidManifest.xml"@]),
        last_entry(b, seq!["classes.dex"@, "AndroidManifest.xml"@], "classes.dex"@) == Some(hello_builder().image()),
        last_entry(b, seq!["classes.dex"@, "AndroidManifest.xml"@], "AndroidManifest.xml"@) == Some(
            vstd::utf8::encode_utf8(hello_manifest()),
        ),
{
    let names = seq!["classes.dex"@, "AndroidManifest.xml"@];
    reveal_strlit("classes.dex");
    reveal_strlit("AndroidManifest.xml");
    assert(names[0] != names[1]) by {
        assert(names[0].len() != names[1].len());
    }
    reveal_with_fuel(last_entry, 3);
    assert(names.drop_last() =~= seq!["classes.dex"@]);
    assert(names.last() == names[1]);
    assert(seq!["classes.dex"@].last() == names[0]);
}

proof fn lemma_trim_same(s: Seq<char>)
    requires
        s.len() > 0,
        !crate::android::axml::is_white_space(s[0]),
        !crate::android::axml::is_white_space(s.last()),
    ensures
        crate::android::axml::trim(s) == s,
{
}

/// The hello-world manifest names the package `com.nekodroid` and the
/// activity `Lcom/nekodroid/Hello;`.
pub proof fn hello_manifest_parses()
    ensures
        crate::android::axml::manifest_spec(vstd::utf8::encode_utf8(hello_manifest())) == Ok::<
            (Seq<char>, Option<Seq<char>>),
            ErrView,
        >(("com.nekodroid"@, Some("Lcom/nekodroid/Hello;"@))),
{
    broadcast use vstd::utf8::encode_utf8_decode_utf8, vstd::utf8::encode_utf8_valid_utf8;
    let m = hello_manifest();
    let l1 = "#nekodroid-manifest"@;
    let l2 = "package=com.nekodroid"@;
    let l3 = "activity=Lcom/nekodroid/Hello;"@;
    reveal_strlit("#nekodroid-manifest\npackage=com.nekodroid\nactivity=Lcom/nekodroid/Hello;\n");
    reveal_strlit("#nekodroid-manifest");
    reveal_strlit("package=com.nekodroid");
    reveal_strlit("activity=Lcom/nekodroid/Hello;");
    reveal_strlit("package=");
    reveal_strlit("activity=");
    reveal_strlit("com.nekodroid");
    reveal_strlit("Lcom/nekodroid/Hello;");
    let e = Seq::<char>::empty();
    let s1 = e + l1.push('\n');
    let s2 = s1 + l2.push('\n');
    let s3 = s2 + l3.push('\n');
    assert(m =~= s3);
    crate::android::axml::lemma_scan_line(e, l1);
    lemma_trim_same(l1);
    assert(l1.subrange(0, 8)[0] != "package="@[0]);
    assert(l1.subrange(0, 9)[0] != "activity="@[0]);
    crate::android::axml::lemma_scan_line(s1, l2);
    lemma_trim_same(l2);
    assert(l2.subrange(0, 8) =~= "package="@);
    assert(l2.skip(8) =~= "com.nekodroid"@);
    lemma_trim_same("com.nekodroid"@);
    crate::android::axml::lemma_scan_line(s2, l3);
    lemma_trim_same(l3);
    assert(l3.subrange(0, 8)[0] != "package="@[0]);
    assert(l3.subrange(0, 9) =~= "activity="@);
    assert(l3.skip(9) =~= "Lcom/nekodroid/Hello;"@);
    lemma_trim_same("Lcom/nekodroid/Hello;"@);
    assert(crate::android::axml::trim(e) =~= e);
    let d = vstd::utf8::encode_utf8(m);
    assert(vstd::utf8::is_ascii_chars(m));
    vstd::utf8::is_ascii_chars_encode_utf8(m);
    assert(crate::android::dex::text_of(d) == m);
    assert forall|i: int| 0 <= i < l1.len() implies d[i] as char == #[trigger] l1[i] by {
        assert(m[i] == l1[i]);
        assert(d[i] == m[i] as u8);
    }
}

/// The hello-world APK once loaded: its DEX file, the package and
/// activity its manifest names, and the archive's size.
pub open spec fn hello_loaded() -> LoadedView {
    LoadedView {
        package_name: "com.nekodroid"@,
        launcher_activity: Some("Lcom/nekodroid/Hello;"@),
        dex: crate::android::dex::dex_of(hello_builder().image()),
        apk_size: stored_zip(hello_zip_entries()).len() as usize,
    }
}

/// `s` with `\` and `"` escaped by a backslash.
pub open spec fn escape_spec(s: Seq<char>) -> Seq<char>
    decreases s.len(),
{
    if s.len() == 0 {
        Seq::empty()
    } else {
        let c = s.last();
        escape_spec(s.drop_last()) + if c == '\\' {
            "\\\\"@
        } else if c == '"' {
            "\\\""@
        } else {
            seq![c]
        }
    }
}

/// The lines of `ls` joined by newlines.
pub open spec fn join_lines(ls: Seq<Seq<char>>) -> Seq<char>
    decreases ls.len(),
{
    if ls.len() == 0 {
        Seq::empty()
    } else if ls.len() == 1 {
        ls[0]
    } else {
        join_lines(ls.drop_last()) + "\n"@ + ls.last()
    }
}

pub open spec fn bool_text(b: bool) -> Seq<char> {
    if b { "true"@ } else { "false"@ }
}

/// The JSON summary of a session.
pub open spec fn info_json_spec(s: AppView) -> Seq<char> {
    let act = match s.apk.launcher_activity {
        Some(a) => a,
        None => Seq::empty(),
    };
    "{\"package\":\""@ + escape_spec(s.apk.package_name) + "\",\"activity\":\""@ + escape_spec(act)
        + "\",\"apk_size\":"@ + dec_str(s.apk.apk_size as nat) + ",\"classes\":"@ + dec_str(s.apk.dex.classes.len())
        + ",\"halted\":"@ + bool_text(s.vm.halted) + ",\"steps\":"@ + dec_str(s.vm.steps as nat) + ",\"logs\":"@
        + dec_str(s.vm.host.logs.len()) + "}"@
}

/// The class a session starts: the launcher activity, else the first class.
pub open spec fn launch_class(apk: LoadedView) -> Option<Seq<char>> {
    match apk.launcher_activity {
        Some(a) => Some(a),
        None => if apk.dex.classes.len() > 0 { Some(apk.dex.classes[0].descriptor) } else { None },
    }
}

/// Starting a session: `main(null)` of the start class when it has one,
/// else `onCreate` on a new instance of it.
pub open spec fn launch_spec(s: AppView) -> (AppView, Result<(), ErrView>) {
    match launch_class(s.apk) {
        None => (s, Err(ErrView::Runtime("no activity/class"@))),
        Some(c) => if find_method_spec(s.apk.dex, c, "main"@) is Some {
            let (vm2, r) = s.vm.call(c, "main"@, seq![Value::Obj(0)]);
            (AppView { vm: vm2, ..s }, r)
        } else if find_method_spec(s.apk.dex, c, "onCreate"@) is Some {
            let this = s.vm.host.next_ref();
            let vm1 = s.vm.with_host(s.vm.host.alloc_object(ObjView::Instance { class: c, fields: Seq::empty() }));
            let (vm2, r) = vm1.call(c, "onCreate"@, seq![this]);
            (AppView { vm: vm2, ..s }, r)
        } else {
            (s, Err(ErrView::Runtime("no main/onCreate on "@ + c)))
        },
    }
}

/// Launching the freshly loaded hello-world session calls
/// `Lcom/nekodroid/Hello;.main` with a null argument: one frame, running
/// the code of `main` from its first instruction, and nothing logged yet.
pub proof fn hello_launches()
    ensures
        ({
            let s = AppView { apk: hello_loaded(), vm: fresh_vm(hello_loaded().dex) };
            &&& launch_spec(s).1 == Ok::<(), ErrView>(())
            &&& launch_spec(s).0.apk == s.apk
            &&& launch_spec(s).0.vm == s.vm.push_frame(
                1,
                crate::android::fixture::code_view(2, 1, 1, seq![0x001au16, 0, 0x1071, 0, 0x0000, 0x000e]),
                seq![Value::Obj(0)],
            )
        }),
{
    let b = hello_builder();
    let d = hello_loaded().dex;
    hello_dex_parses();
    crate::android::fixture::lemma_hello_main_entry();
    let cv = crate::android::fixture::class_view(b, 0);
    assert(d.classes[0] == cv);
    assert(d.methods[1] == crate::android::fixture::method_view(b, 1));
    let main_code = crate::android::fixture::code_view(2, 1, 1, seq![0x001au16, 0, 0x1071, 0, 0x0000, 0x000e]);
    let main_m = crate::android::dex::EncodedView { method_idx: 1, access_flags: 9, code: Some(main_code) };
    let all = crate::android::dex::all_methods(cv);
    assert(all[0] == main_m);
    assert(crate::android::dex::first_class(d.classes, "Lcom/nekodroid/Hello;"@, 0));
    assert(crate::android::dex::first_named(d.methods, all, "main"@, 0));
    crate::android::dex::lemma_find_method_unique(d, "Lcom/nekodroid/Hello;"@, "main"@, 0, 0);
}

/// The code of `Lcom/nekodroid/Hello;.main`.
spec fn hello_main_code() -> crate::android::dex::CodeView {
    crate::android::fixture::code_view(2, 1, 1, seq![0x001au16, 0, 0x1071, 0, 0x0000, 0x000e])
}

proof fn lemma_hello_decodes()
    ensures
        crate::android::decode::decode_spec(hello_main_code().insns, 0) matches Some(i) && i.op
            == crate::android::opcodes::CONST_STRING && i.a == 0 && i.b == 0 && i.size == 2,
        crate::android::decode::decode_spec(hello_main_code().insns, 2) matches Some(i) && i.op
            == crate::android::opcodes::INVOKE_STATIC && i.a == 1 && i.b == 0 && i.c == 0 && i.size == 3,
        crate::android::decode::decode_spec(hello_main_code().insns, 5) matches Some(i) && i.op
            == crate::android::opcodes::RETURN_VOID,
{
    assert((0x001au16 & 0xff) as u8 == 0x1au8 && ((0x001au16 >> 8u16) & 0xff) as u32 == 0u32 && (0x1071u16 & 0xff) as u8
        == 0x71u8 && ((0x1071u16 >> 12u16) & 0xf) as u32 == 1u32 && (0u16 & 0xf) as u32 == 0u32 && (0x000eu16 & 0xff) as u8
        == 0x0eu8) by (bit_vector);
}

/// The VM runs one frame, of the hello-world `main`, at `pc`.
spec fn hello_frame(v: VmView, pc: usize) -> bool {
    &&& !v.halted
    &&& v.stack.len() == 1
    &&& v.stack[0].code == hello_main_code()
    &&& v.stack[0].pc == pc
    &&& v.stack[0].regs.len() == 2
}

proof fn lemma_hello_step1(v: VmView)
    requires
        hello_frame(v, 0),
        v.dex.strings.len() > 0,
    ensures
        v.step().1 == Ok::<bool, ErrView>(true),
        hello_frame(v.step().0, 2),
        v.step().0.stack[0].regs[0] == v.host.next_ref(),
        v.step().0.host == v.host.alloc_object(ObjView::Str(v.dex.strings[0])),
        v.step().0.dex == v.dex,
        v.step().0.steps == v.steps.wrapping_add(1),
{
    lemma_hello_decodes();
}

proof fn lemma_hello_step2(v: VmView)
    requires
        hello_frame(v, 2),
        v.dex.methods.len() > 0,
        v.dex.methods[0].class == "Lnekodroid/Hle;"@,
        v.dex.methods[0].name == "println"@,
        v.host.string_of(v.stack[0].regs[0]) == Some("Hello from NekoDroid"@),
    ensures
        v.step().1 == Ok::<bool, ErrView>(true),
        hello_frame(v.step().0, 5),
        v.step().0.host.logs == v.host.logs.push("Hello from NekoDroid"@),
        v.step().0.steps == v.steps.wrapping_add(1),
{
    lemma_hello_decodes();
    reveal_strlit("Lnekodroid/Hle;");
    reveal_strlit("Landroid/util/Log;");
    reveal_strlit("println");
    reveal_strlit("printInt");
    let fi = 0int;
    let i = crate::android::decode::decode_spec(hello_main_code().insns, 2)->Some_0;
    let s1 = VmView { steps: v.steps.wrapping_add(1), ..v };
    assert(crate::android::interp::arg_regs(i) =~= seq![0u32]);
    assert(s1.get_args(fi, seq![0u32]) == Ok::<Seq<Value>, ErrView>(seq![v.stack[0].regs[0]])) by {
        let r = seq![0u32];
        assert(r.drop_last() =~= Seq::<u32>::empty());
        assert(s1.get_args(fi, r.drop_last()) == Ok::<Seq<Value>, ErrView>(Seq::empty()));
        assert(r.last() == 0u32);
        assert(s1.get_reg(fi, 0u32) == Ok::<Value, ErrView>(v.stack[0].regs[0]));
        assert(Seq::<Value>::empty().push(v.stack[0].regs[0]) =~= seq![v.stack[0].regs[0]]);
    }
    assert("Lnekodroid/Hle;"@ != "Landroid/util/Log;"@) by {
        assert("Lnekodroid/Hle;"@.len() != "Landroid/util/Log;"@.len());
    }
    assert("println"@ != "printInt"@) by {
        assert("println"@.len() != "printInt"@.len());
    }
}

proof fn lemma_hello_step3(v: VmView)
    requires
        hello_frame(v, 5),
    ensures
        v.step().1 == Ok::<bool, ErrView>(false),
        v.step().0.halted,
        v.step().0.host == v.host,
        v.step().0.steps == v.steps.wrapping_add(1),
{
    lemma_hello_decodes();
}

proof fn lemma_hello_run_from(v0: VmView, max: u32)
    requires
        max >= 3,
        hello_frame(v0, 0),
        v0.dex.strings.len() > 0,
        v0.dex.strings[0] == "Hello from NekoDroid"@,
        v0.dex.methods.len() > 0,
        v0.dex.methods[0].class == "Lnekodroid/Hle;"@,
        v0.dex.methods[0].name == "println"@,
        v0.host.objects.len() == 0,
        v0.host.logs.len() == 0,
        v0.steps == 0,
    ensures
        v0.run_from(0, max).1 == Ok::<u32, ErrView>(3),
        v0.run_from(0, max).0.halted,
        v0.run_from(0, max).0.steps == 3,
        v0.run_from(0, max).0.host.logs == seq!["Hello from NekoDroid"@],
{
    lemma_hello_step1(v0);
    let v1 = v0.step().0;
    assert(v1.host.string_of(v1.stack[0].regs[0]) == Some("Hello from NekoDroid"@));
    lemma_hello_step2(v1);
    let v2 = v1.step().0;
    lemma_hello_step3(v2);
    assert(v2.host.logs =~= seq!["Hello from NekoDroid"@]);
    assert(v2.run_from(2, max) == (v2.step().0, Ok::<u32, ErrView>(3)));
    assert(v1.run_from(1, max) == v2.run_from(2, max));
    assert(v0.run_from(0, max) == v1.run_from(1, max));
}

/// Running the launched hello-world session: `const-string`, the call of
/// `Lnekodroid/Hle;.println`, which logs the hello line, and `return-void`,
/// after which the VM halts: three instructions in all.
pub proof fn hello_runs(max: u32)
    requires
        max >= 3,
    ensures
        ({
            let s = launch_spec(AppView { apk: hello_loaded(), vm: fresh_vm(hello_loaded().dex) }).0;
            &&& s.vm.run_from(0, max).1 == Ok::<u32, ErrView>(3)
            &&& s.vm.run_from(0, max).0.halted
            &&& s.vm.run_from(0, max).0.steps == 3
            &&& s.vm.run_from(0, max).0.host.logs == seq!["Hello from NekoDroid"@]
            &&& join_lines(s.vm.run_from(0, max).0.host.logs) == "Hello from NekoDroid"@
        }),
{
    let d = hello_loaded().dex;
    let v0 = launch_spec(AppView { apk: hello_loaded(), vm: fresh_vm(d) }).0.vm;
    lemma_hello_launched_vm();
    lemma_hello_run_from(v0, max);
    assert(seq!["Hello from NekoDroid"@][0] == "Hello from NekoDroid"@);
}

proof fn lemma_hello_launched_vm()
    ensures
        ({
            let d = hello_loaded().dex;
            let v0 = launch_spec(AppView { apk: hello_loaded(), vm: fresh_vm(d) }).0.vm;
            &&& hello_frame(v0, 0)
            &&& v0.dex.strings.len() > 0
            &&& v0.dex.strings[0] == "Hello from NekoDroid"@
            &&& v0.dex.methods.len() > 0
            &&& v0.dex.methods[0].class == "Lnekodroid/Hle;"@
            &&& v0.dex.methods[0].name == "println"@
            &&& v0.host.objects.len() == 0
            &&& v0.host.logs.len() == 0
            &&& v0.steps == 0
        }),
{
    hello_launches();
    hello_dex_parses();
    crate::android::fixture::lemma_hello_println_ref();
    let b = hello_builder();
    let d = hello_loaded().dex;
    assert(d.methods[0] == crate::android::fixture::method_view(b, 0));
    assert(crate::android::interp::frame_regs(hello_main_code(), seq![Value::Obj(0)]).len() == 2);
}

/// The code of `Lcom/nekodroid/Arith;.main`.
spec fn arith_main_code() -> crate::android::dex::CodeView {
    crate::android::fixture::code_view(2, 1, 1, seq![0x2012u16, 0x3112, 0x10b0, 0x1071, 0, 0x0000, 0x000e])
}

proof fn lemma_arith_decodes()
    ensures
        crate::android::decode::decode_spec(arith_main_code().insns, 0) matches Some(i) && i.op
            == crate::android::opcodes::CONST_4 && i.a == 0 && i.b == 2 && i.size == 1,
        crate::android::decode::decode_spec(arith_main_code().insns, 1) matches Some(i) && i.op
            == crate::android::opcodes::CONST_4 && i.a == 1 && i.b == 3 && i.size == 1,
        crate::android::decode::decode_spec(arith_main_code().insns, 2) matches Some(i) && i.op
            == crate::android::opcodes::ADD_INT_2ADDR && i.a == 0 && i.b == 1 && i.size == 1,
        crate::android::decode::decode_spec(arith_main_code().insns, 3) matches Some(i) && i.op
            == crate::android::opcodes::INVOKE_STATIC && i.a == 1 && i.b == 0 && i.c == 0 && i.size == 3,
        crate::android::decode::decode_spec(arith_main_code().insns, 6) matches Some(i) && i.op
            == crate::android::opcodes::RETURN_VOID,
{
    assert((0x2012u16 & 0xff) as u8 == 0x12u8 && ((0x2012u16 >> 8u16) & 0xf) as u32 == 0u32 && ((0x2012u16 >> 12u16)
        & 0xf) as u32 == 2u32 && (0x3112u16 & 0xff) as u8 == 0x12u8 && ((0x3112u16 >> 8u16) & 0xf) as u32 == 1u32 && ((
    0x3112u16 >> 12u16) & 0xf) as u32 == 3u32 && (2u32 & 8u32) == 0u32 && (3u32 & 8u32) == 0u32 && (0x10b0u16 & 0xff) as u8
        == 0xb0u8 && ((0x10b0u16 >> 8u16) & 0xf) as u32 == 0u32 && ((0x10b0u16 >> 12u16) & 0xf) as u32 == 1u32 && (0x1071u16
        & 0xff) as u8 == 0x71u8 && ((0x1071u16 >> 12u16) & 0xf) as u32 == 1u32 && (0u16 & 0xf) as u32 == 0u32 && (0x000eu16
        & 0xff) as u8 == 0x0eu8) by (bit_vector);
}

/// The VM runs one frame, of the arithmetic `main`, at `pc`.
spec fn arith_frame(v: VmView, pc: usize) -> bool {
    &&& !v.halted
    &&& v.stack.len() == 1
    &&& v.stack[0].code == arith_main_code()
    &&& v.stack[0].pc == pc
    &&& v.stack[0].regs.len() == 2
}

proof fn lemma_arith_consts(v: VmView)
    requires
        arith_frame(v, 0),
    ensures
        v.step().1 == Ok::<bool, ErrView>(true),
        v.step().0.step().1 == Ok::<bool, ErrView>(true),
        arith_frame(v.step().0.step().0, 2),
        v.step().0.step().0.stack[0].regs[0] == Value::Int(2),
        v.step().0.step().0.stack[0].regs[1] == Value::Int(3),
        v.step().0.step().0.host == v.host,
        v.step().0.step().0.dex == v.dex,
        v.step().0.step().0.steps == v.steps.wrapping_add(1).wrapping_add(1),
{
    lemma_arith_decodes();
    assert(2u32 as i16 as i32 == 2i32);
    assert(3u32 as i16 as i32 == 3i32);
}

proof fn lemma_arith_add(v: VmView)
    requires
        arith_frame(v, 2),
        v.stack[0].regs[0] == Value::Int(2),
        v.stack[0].regs[1] == Value::Int(3),
    ensures
        v.step().1 == Ok::<bool, ErrView>(true),
        arith_frame(v.step().0, 3),
        v.step().0.stack[0].regs[0] == Value::Int(5),
        v.step().0.host == v.host,
        v.step().0.dex == v.dex,
        v.step().0.steps == v.steps.wrapping_add(1),
{
    lemma_arith_decodes();
    assert(2i32.wrapping_add(3i32) == 5i32);
}

proof fn lemma_arith_print(v: VmView)
    requires
        arith_frame(v, 3),
        v.stack[0].regs[0] == Value::Int(5),
        v.dex.methods.len() > 0,
        v.dex.methods[0].class == "Lnekodroid/Hle;"@,
        v.dex.methods[0].name == "printInt"@,
    ensures
        v.step().1 == Ok::<bool, ErrView>(true),
        arith_frame(v.step().0, 6),
        v.step().0.host.logs == v.host.logs.push("5"@),
        v.step().0.steps == v.steps.wrapping_add(1),
{
    lemma_arith_decodes();
    reveal_strlit("Lnekodroid/Hle;");
    reveal_strlit("Landroid/util/Log;");
    reveal_strlit("printInt");
    reveal_strlit("5");
    let fi = 0int;
    let i = crate::android::decode::decode_spec(arith_main_code().insns, 3)->Some_0;
    let s1 = VmView { steps: v.steps.wrapping_add(1), ..v };
    assert(crate::android::interp::arg_regs(i) =~= seq![0u32]);
    assert(s1.get_args(fi, seq![0u32]) == Ok::<Seq<Value>, ErrView>(seq![Value::Int(5)])) by {
        let r = seq![0u32];
        assert(r.drop_last() =~= Seq::<u32>::empty());
        assert(s1.get_args(fi, r.drop_last()) == Ok::<Seq<Value>, ErrView>(Seq::empty()));
        assert(r.last() == 0u32);
        assert(s1.get_reg(fi, 0u32) == Ok::<Value, ErrView>(Value::Int(5)));
        assert(Seq::<Value>::empty().push(Value::Int(5)) =~= seq![Value::Int(5)]);
    }
    assert("Lnekodroid/Hle;"@ != "Landroid/util/Log;"@) by {
        assert("Lnekodroid/Hle;"@.len() != "Landroid/util/Log;"@.len());
    }
    assert(crate::android::hle::int_text(5) == "5"@) by {
        assert(crate::disasm::dec_str(5) =~= seq![crate::disasm::hex_digit(5)]);
        assert(crate::disasm::hex_digit(5) == '5');
    }
}

proof fn lemma_arith_return(v: VmView)
    requires
        arith_frame(v, 6),
    ensures
        v.step().1 == Ok::<bool, ErrView>(false),
        v.step().0.halted,
        v.step().0.host == v.host,
        v.step().0.steps == v.steps.wrapping_add(1),
{
    lemma_arith_decodes();
}

proof fn lemma_arith_run_from(v0: VmView, max: u32)
    requires
        max >= 5,
        arith_frame(v0, 0),
        v0.dex.methods.len() > 0,
        v0.dex.methods[0].class == "Lnekodroid/Hle;"@,
        v0.dex.methods[0].name == "printInt"@,
        v0.host.logs.len() == 0,
    ensures
        v0.run_from(0, max).1 == Ok::<u32, ErrView>(5),
        v0.run_from(0, max).0.halted,
        v0.run_from(0, max).0.host.logs == seq!["5"@],
{
    lemma_arith_consts(v0);
    let v1 = v0.step().0;
    let v2 = v1.step().0;
    lemma_arith_add(v2);
    let v3 = v2.step().0;
    lemma_arith_print(v3);
    let v4 = v3.step().0;
    lemma_arith_return(v4);
    assert(v4.host.logs =~= seq!["5"@]);
    assert(v4.run_from(4, max) == (v4.step().0, Ok::<u32, ErrView>(5)));
    assert(v3.run_from(3, max) == v4.run_from(4, max));
    assert(v2.run_from(2, max) == v3.run_from(3, max));
    assert(v1.run_from(1, max) == v2.run_from(2, max));
    assert(v0.run_from(0, max) == v1.run_from(1, max));
}

proof fn lemma_arith_called_vm()
    ensures
        ({
            let v = fresh_vm(crate::android::dex::dex_of(crate::android::fixture::arith_builder().image())).call(
                "Lcom/nekodroid/Arith;"@,
                "main"@,
                seq![Value::Obj(0)],
            );
            &&& v.1 == Ok::<(), ErrView>(())
            &&& arith_frame(v.0, 0)
            &&& v.0.dex.methods.len() > 0
            &&& v.0.dex.methods[0].class == "Lnekodroid/Hle;"@
            &&& v.0.dex.methods[0].name == "printInt"@
            &&& v.0.host.logs.len() == 0
        }),
{
    let b = crate::android::fixture::arith_builder();
    let d = crate::android::dex::dex_of(b.image());
    crate::android::fixture::arith_dex_parses();
    crate::android::fixture::lemma_arith_main_entry();
    let cv = crate::android::fixture::class_view(b, 0);
    assert(d.classes[0] == cv);
    assert(d.methods[1] == crate::android::fixture::method_view(b, 1));
    assert(d.methods[0] == crate::android::fixture::method_view(b, 0));
    let main_m = crate::android::dex::EncodedView { method_idx: 1, access_flags: 9, code: Some(arith_main_code()) };
    let all = crate::android::dex::all_methods(cv);
    assert(all[0] == main_m);
    assert(crate::android::dex::first_class(d.classes, "Lcom/nekodroid/Arith;"@, 0));
    assert(crate::android::dex::first_named(d.methods, all, "main"@, 0));
    crate::android::dex::lemma_find_method_unique(d, "Lcom/nekodroid/Arith;"@, "main"@, 0, 0);
    assert(crate::android::interp::frame_regs(arith_main_code(), seq![Value::Obj(0)]).len() == 2);
}

/// Calling `Lcom/nekodroid/Arith;.main` of the arithmetic DEX on a fresh VM
/// and running it: 2 and 3 are added and `Lnekodroid/Hle;.printInt` logs
/// the sum, after which the VM halts: five instructions in all.
pub proof fn arith_runs(max: u32)
    requires
        max >= 5,
    ensures
        ({
            let v = fresh_vm(crate::android::dex::dex_of(crate::android::fixture::arith_builder().image())).call(
                "Lcom/nekodroid/Arith;"@,
                "main"@,
                seq![Value::Obj(0)],
            );
            &&& v.1 == Ok::<(), ErrView>(())
            &&& v.0.run_from(0, max).1 == Ok::<u32, ErrView>(5)
            &&& v.0.run_from(0, max).0.halted
            &&& v.0.run_from(0, max).0.host.logs == seq!["5"@]
        }),
{
    lemma_arith_called_vm();
    let v = fresh_vm(crate::android::dex::dex_of(crate::android::fixture::arith_builder().image())).call(
        "Lcom/nekodroid/Arith;"@,
        "main"@,
        seq![Value::Obj(0)],
    );
    lemma_arith_run_from(v.0, max);
}

fn escape(s: &str) -> (r: String)
    ensures
        r@ == escape_spec(s@),
{
    let cs = chars_of(s);
    let mut out = String::new();
    let mut i: usize = 0;
    while i < cs.len()
        invariant
            cs@ == s@,
            i <= cs.len(),
            out@ == escape_spec(s@.take(i as int)),
        decreases cs.len() - i,
    {
        assert(s@.take(i + 1).drop_last() =~= s@.take(i as int));
        let c = cs[i];
        if c == '\\' {
            out.append("\\\\");
        } else if c == '"' {
            out.append("\\\"");
        } else {
            crate::text::push_char(&mut out, c);
        }
        i = i + 1;
    }
    assert(s@.take(cs.len() as int) =~= s@);
    out
}

impl AppRuntime {
    /// Loads an APK and sets up a VM for its code.
    pub fn load(apk_bytes: &[u8]) -> (r: Result<AppRuntime, AndroidError>)
        ensures
            apk_outcome(apk_bytes@, load_view(match r { Ok(rt) => Ok(rt.apk), Err(e) => Err(e) })),
            r matches Ok(rt) ==> rt.vm@ == fresh_vm(rt.apk@.dex),
    {
        let apk = match load_apk_bytes(apk_bytes) {
            Ok(a) => a,
            Err(e) => return Err(e),
        };
        let vm = Vm::new(apk.dex.duplicate());
        Ok(AppRuntime { apk, vm })
    }

    /// Loads the hello-world APK built in memory. Building and reading the
    /// archive cannot fail and its DEX file parses, so the session holds
    /// that DEX file, the package and activity the manifest names and a
    /// fresh VM.
    pub fn load_hello_fixture() -> (r: Result<AppRuntime, AndroidError>)
        ensures
            apk_outcome(
                stored_zip(hello_zip_entries()),
                load_view(match r { Ok(rt) => Ok(rt.apk), Err(e) => Err(e) }),
            ),
            r is Ok,
            r matches Ok(rt) ==> rt.apk@ == hello_loaded(),
            r matches Ok(rt) ==> rt.vm@ == fresh_vm(rt.apk@.dex),
    {
        let bytes = match build_hello_apk() {
            Ok(b) => b,
            Err(e) => return Err(e),
        };
        proof {
            lemma_hello_archive(bytes@);
            hello_manifest_parses();
            hello_dex_parses();
        }
        Self::load(bytes.as_slice())
    }

    /// A one-line JSON summary: package, activity, size, classes, VM state.
    pub fn info_json(&self) -> (r: String)
        ensures
            r@ == info_json_spec(self@),
    {
        let act = match &self.apk.launcher_activity {
            Some(a) => a.clone(),
            None => String::new(),
        };
        let mut s = String::new();
        s.append("{\"package\":\"");
        s.append(escape(self.apk.package_name.as_str()).as_str());
        s.append("\",\"activity\":\"");
        s.append(escape(act.as_str()).as_str());
        s.append("\",\"apk_size\":");
        push_dec_wide(&mut s, self.apk.apk_size as u64);
        s.append(",\"classes\":");
        push_dec_wide(&mut s, self.apk.dex.classes.len() as u64);
        s.append(",\"halted\":");
        s.append(if self.vm.halted { "true" } else { "false" });
        s.append(",\"steps\":");
        push_dec_wide(&mut s, self.vm.steps);
        s.append(",\"logs\":");
        push_dec_wide(&mut s, self.vm.host.logs.len() as u64);
        s.append("}");
        proof {
            assert(self@.apk.dex.classes.len() == self.apk.dex.classes@.len());
            assert(self@.vm.host.logs.len() == self.vm.host.logs@.len());
            assert(s@ =~= info_json_spec(self@));
        }
        s
    }

    /// Starts the app: `main` of its start class, else `onCreate`.
    pub fn launch(&mut self) -> (r: Result<(), AndroidError>)
        ensures
            (final(self)@, rv(r)) == launch_spec(old(self)@),
    {
        let class = match &self.apk.launcher_activity {
            Some(a) => a.clone(),
            None => if self.apk.dex.classes.len() > 0 {
                self.apk.dex.classes[0].descriptor.clone()
            } else {
                return Err(AndroidError::Runtime(String::from_str("no activity/class")));
            },
        };
        if self.apk.dex.find_method(class.as_str(), "main").is_some() {
            let mut args: Vec<Value> = Vec::new();
            args.push(Value::Obj(0));
            assert(args@ =~= seq![Value::Obj(0)]);
            self.vm.call_method(class.as_str(), "main", args.as_slice())
        } else if self.apk.dex.find_method(class.as_str(), "onCreate").is_some() {
            let this = self.vm.host.alloc_instance(class.clone());
            let mut args: Vec<Value> = Vec::new();
            args.push(this);
            assert(args@ =~= seq![this]);
            self.vm.call_method(class.as_str(), "onCreate", args.as_slice())
        } else {
            let mut msg = String::new();
            msg.append("no main/onCreate on ");
            msg.append(class.as_str());
            Err(AndroidError::Runtime(msg))
        }
    }

    /// Runs one VM step.
    pub fn step(&mut self) -> (r: Result<bool, AndroidError>)
        ensures
            final(self)@.apk == old(self)@.apk,
            (final(self)@.vm, rv(r)) == old(self)@.vm.step(),
    {
        self.vm.step()
    }

    /// Runs up to `n` VM steps.
    pub fn run_batch(&mut self, n: u32) -> (r: Result<u32, AndroidError>)
        ensures
            final(self)@.apk == old(self)@.apk,
            (final(self)@.vm, rv(r)) == old(self)@.vm.run_from(0, n),
    {
        self.vm.run_batch(n)
    }

    /// The log lines, one per line.
    pub fn logs_text(&self) -> (r: String)
        ensures
            r@ == join_lines(self@.vm.host.logs),
    {
        let ghost ls = self@.vm.host.logs;
        let mut s = String::new();
        let mut i: usize = 0;
        while i < self.vm.host.logs.len()
            invariant
                ls == self@.vm.host.logs,
                i <= ls.len(),
                s@ == join_lines(ls.take(i as int)),
            decreases self.vm.host.logs.len() - i,
        {
            assert(ls.take(i + 1).drop_last() =~= ls.take(i as int));
            assert(ls[i as int] == self.vm.host.logs@[i as int]@);
            if i > 0 {
                s.append("\n");
            }
            s.append(self.vm.host.logs[i].as_str());
            i = i + 1;
            proof {
                if i == 1 {
                    assert(s@ =~= ls.take(1)[0]);
                }
            }
        }
        assert(ls.take(ls.len() as int) =~= ls);
        s
    }

    /// The text on screen.
    pub fn canvas_text(&self) -> (r: String)
        ensures
            r@ == self@.vm.host.canvas_text,
    {
        self.vm.host.canvas_text.clone()
    }
}

} // verus!
