use nekodroid::android::axml::parse_package_and_launcher;
use nekodroid::android::dex::{CodeItem, DexFile, EncodedMethod};
use nekodroid::android::error::AndroidError;
use nekodroid::android::decode::decode;
use nekodroid::android::fixture::{adler32, build_arith_dex, build_hello_apk, build_hello_dex, write_uleb128, DexBuilder, ZipBuilder};
use nekodroid::android::opcodes;
use nekodroid::android::hle::{HleHost, Value};
use nekodroid::android::interp::Vm;
use nekodroid::android::runtime::AppRuntime;
use nekodroid::android::apk::load_apk_bytes;

#[test]
fn adler32_known_value() {
    assert_eq!(adler32(b"Wikipedia"), 0x11E6_0398);
    assert_eq!(adler32(b""), 1);
}

#[test]
fn uleb128_encoding() {
    let mut buf = Vec::new();
    write_uleb128(&mut buf, 0);
    write_uleb128(&mut buf, 127);
    write_uleb128(&mut buf, 128);
    write_uleb128(&mut buf, 300);
    assert_eq!(buf, vec![0x00, 0x7F, 0x80, 0x01, 0xAC, 0x02]);
}

#[test]
fn dex_header_errors() {
    match DexFile::parse(&[0u8; 16]) {
        Err(AndroidError::Dex(m)) => assert_eq!(m, "file too small"),
        other => panic!("unexpected {:?}", other.map(|_| ())),
    }
    let mut bad = vec![0u8; 0x70];
    match DexFile::parse(&bad) {
        Err(AndroidError::Dex(m)) => assert_eq!(m, "bad magic"),
        other => panic!("unexpected {:?}", other.map(|_| ())),
    }
    bad[0..4].copy_from_slice(b"dex\n");
    match DexFile::parse(&bad) {
        Err(AndroidError::Dex(m)) => assert_eq!(m, "unsupported endian"),
        other => panic!("unexpected {:?}", other.map(|_| ())),
    }
}

#[test]
fn hello_dex_parses() {
    let bytes = build_hello_dex().expect("build");
    assert_eq!(&bytes[0..4], b"dex\n");
    let le = |o: usize| u32::from_le_bytes([bytes[o], bytes[o + 1], bytes[o + 2], bytes[o + 3]]);
    assert_eq!(le(32) as usize, bytes.len());
    assert_eq!(le(8), adler32(&bytes[12..]));
    assert_eq!(le(40), 0x1234_5678);
    assert_eq!(le(56), 12);
    assert_eq!(le(96), 1);
    let dex = DexFile::parse(&bytes).expect("parse");
    assert_eq!(dex.data, bytes);
    assert!(dex.types.iter().any(|t| t == "Lcom/nekodroid/Hello;"));
    assert!(dex.strings.iter().any(|s| s == "Hello from NekoDroid"));
    assert!(dex.find_method("Lcom/nekodroid/Hello;", "main").is_some());
    assert!(dex.find_method("Lcom/nekodroid/Hello;", "nothing").is_none());
    assert!(dex.find_method("Lcom/nekodroid/Missing;", "main").is_none());
    assert!(dex.string(0).is_some());
    assert!(dex.string(100_000).is_none());
}

#[test]
fn truncated_dex_is_rejected() {
    let bytes = build_hello_dex().expect("build");
    let cut = &bytes[..0x70];
    assert!(matches!(DexFile::parse(cut), Err(AndroidError::Dex(_))));
}

#[test]
fn arith_dex_parses() {
    let bytes = build_arith_dex().expect("build");
    let dex = DexFile::parse(&bytes).expect("parse");
    assert!(dex.find_method("Lcom/nekodroid/Arith;", "main").is_some());
    let mut vm = Vm::new(dex);
    assert!(vm.call_method("Lcom/nekodroid/Arith;", "missing", &[]).is_err());
}

#[test]
fn builder_adds_strings_once() {
    let mut b = DexBuilder::new();
    let a = b.string("alpha");
    let c = b.string("beta");
    assert_ne!(a, c);
    assert_eq!(b.string("alpha"), a);
    let t = b.type_of("Lfoo;");
    assert_eq!(b.type_of("Lfoo;"), t);
}

#[test]
fn text_manifest_parsing() {
    let m = b"package=com.example.app\nactivity= .Main \n";
    let (p, a) = parse_package_and_launcher(m).expect("manifest");
    assert_eq!(p, "com.example.app");
    assert_eq!(a, Some(".Main".to_string()));

    let m2 = b"#nekodroid-manifest\npackage=com.a\npackage=com.b\n";
    let (p2, a2) = parse_package_and_launcher(m2).expect("manifest");
    assert_eq!(p2, "com.b");
    assert_eq!(a2, None);
}

#[test]
fn manifest_errors() {
    match parse_package_and_launcher(b"") {
        Err(AndroidError::Manifest(m)) => assert_eq!(m, "empty"),
        _ => panic!("expected empty"),
    }
    match parse_package_and_launcher(b"#nekodroid-manifest\nactivity=X\n") {
        Err(AndroidError::Manifest(m)) => assert_eq!(m, "no package="),
        _ => panic!("expected no package"),
    }
    match parse_package_and_launcher(b"<xml>") {
        Err(AndroidError::Manifest(m)) => assert_eq!(m, "unrecognized manifest format"),
        _ => panic!("expected unrecognized"),
    }
}

#[test]
fn binary_manifest_package_token() {
    let mut m = vec![0x03, 0x00, 0x08, 0x00, 0x10, 0x00, 0x00, 0x00];
    m.extend_from_slice(b"\x00\x00com.example.game\x00\x01");
    let (p, a) = parse_package_and_launcher(&m).expect("binary manifest");
    assert_eq!(p, "com.example.game");
    assert_eq!(a, None);
}

#[test]
fn apk_errors() {
    assert!(matches!(load_apk_bytes(b"hello"), Err(AndroidError::NotZip(_))));
    match load_apk_bytes(b"") {
        Err(AndroidError::NotZip(m)) => assert_eq!(m, "missing PK header"),
        _ => panic!("expected NotZip"),
    }
    assert!(matches!(load_apk_bytes(b"PK\x03\x04garbage"), Err(AndroidError::NotZip(_))));
}

#[test]
fn hello_apk_loads() {
    let bytes = build_hello_apk().expect("apk");
    let apk = load_apk_bytes(&bytes).expect("load");
    assert_eq!(apk.package_name, "com.nekodroid");
    assert_eq!(apk.launcher_activity, Some("Lcom/nekodroid/Hello;".to_string()));
    assert_eq!(apk.apk_size, bytes.len());
}

#[test]
fn info_json_before_and_after_launch() {
    let mut rt = AppRuntime::load_hello_fixture().expect("load");
    let size = rt.apk.apk_size;
    assert_eq!(
        rt.info_json(),
        format!(
            "{{\"package\":\"com.nekodroid\",\"activity\":\"Lcom/nekodroid/Hello;\",\"apk_size\":{size},\"classes\":1,\"halted\":false,\"steps\":0,\"logs\":0}}"
        )
    );
    rt.launch().expect("launch");
    rt.run_batch(10_000).expect("run");
    let info = rt.info_json();
    assert!(info.contains("\"halted\":true"), "{info}");
    assert!(info.contains("\"logs\":1"), "{info}");
    assert!(rt.step().is_ok());
}

#[test]
fn error_messages() {
    assert_eq!(AndroidError::NotZip("x".to_string()).message(), "not a ZIP/APK: x");
    assert_eq!(AndroidError::MissingDex.message(), "missing classes.dex in APK");
    assert_eq!(AndroidError::Dex("bad magic".to_string()).message(), "DEX parse error: bad magic");
    assert_eq!(AndroidError::Manifest("empty".to_string()).message(), "AXML/manifest error: empty");
    assert_eq!(AndroidError::Runtime("r".to_string()).message(), "runtime error: r");
    assert_eq!(
        AndroidError::UnimplementedOpcode { op: 0x0b, pc: 12 }.message(),
        "VM halted: unimplemented opcode 0x0b at pc=12"
    );
    assert_eq!(AndroidError::Vm("no frame".to_string()).message(), "VM error: no frame");
}

#[test]
fn host_strings_and_logs() {
    let mut host = HleHost::default();
    let s = host.alloc_string("abc".to_string());
    assert_eq!(host.get_string(s), Some("abc"));
    assert_eq!(host.get_string(Value::Int(3)), None);
    host.log_line("one".to_string());
    host.log_line("two".to_string());
    assert_eq!(host.logs, vec!["one".to_string(), "two".to_string()]);
    let arr = host.alloc_array(3);
    assert_eq!(host.array_get(arr, 3), None);
    assert!(!host.array_set(arr, -1, Value::Int(1)));
    assert_eq!(host.array_get(arr, 0), Some(Value::Int(0)));
}

#[test]
fn decode_reads_operand_formats() {
    let insns = [0x0312u16, 0x0412, 0x10b0, 0x000f];
    let add = decode(&insns, 2).unwrap();
    assert_eq!(add.op, opcodes::ADD_INT_2ADDR);
    assert_eq!((add.size, add.a, add.b), (1, 0, 1));
    assert!(decode(&insns, 4).is_none());

    let if_lt = decode(&[0x1034u16, 0x0003], 0).unwrap();
    assert_eq!((if_lt.op, if_lt.size, if_lt.a, if_lt.b, if_lt.c), (opcodes::IF_LT, 2, 0, 1, 3));
    let back = decode(&[0x2137u16, 0xFFFE], 0).unwrap();
    assert_eq!((back.a, back.b, back.c as i32), (1, 2, -2));
    assert!(decode(&[0x1034u16], 0).is_none());

    let aget = decode(&[0x0244u16, 0x0100], 0).unwrap();
    assert_eq!((aget.op, aget.size, aget.a, aget.b, aget.c), (opcodes::AGET, 2, 2, 0, 1));
    let add3 = decode(&[0x0390u16, 0x0201], 0).unwrap();
    assert_eq!((add3.a, add3.b, add3.c), (3, 1, 2));
    let new_arr = decode(&[0x1023u16, 0x0005], 0).unwrap();
    assert_eq!((new_arr.size, new_arr.a, new_arr.b, new_arr.c), (2, 0, 1, 5));
    let len = decode(&[0x1021u16], 0).unwrap();
    assert_eq!((len.size, len.a, len.b), (1, 0, 1));
    let cast = decode(&[0x041fu16, 0x0007], 0).unwrap();
    assert_eq!((cast.size, cast.a, cast.b), (2, 4, 7));
}

#[test]
fn arith_fixture_prints_five() {
    let bytes = build_arith_dex().expect("build");
    let dex = DexFile::parse(&bytes).expect("parse");
    let mut vm = Vm::new(dex);
    vm.call_method("Lcom/nekodroid/Arith;", "main", &[Value::Obj(0)]).expect("call");
    assert_eq!(vm.run_batch(100).expect("run"), 5);
    assert!(vm.halted);
    assert_eq!(vm.host.logs, vec!["5".to_string()]);
}

#[test]
fn hello_batch_counts_every_instruction() {
    let mut rt = AppRuntime::load_hello_fixture().expect("load");
    rt.launch().expect("launch");
    assert_eq!(rt.run_batch(10_000).expect("run"), 3);
    assert_eq!(rt.vm.steps, 3);
    assert!(rt.vm.halted);
    assert_eq!(rt.run_batch(10).expect("run"), 0);
}

#[test]
fn empty_zip_write_is_accepted() {
    let mut z = ZipBuilder::new();
    assert!(z.write_all(&[]).is_ok());
    assert!(z.write_all(&[1]).is_err());
    let mut z2 = ZipBuilder::new();
    assert!(z2.start_stored("a").is_ok());
    assert!(z2.write_all(&[1, 2]).is_ok());
    assert!(z2.start_stored("a").is_err());
    assert!(z2.start_stored("b").is_ok());
    assert!(z2.finish().is_ok());
}

#[test]
fn built_dex_reads_back_its_tables() {
    let mut b = DexBuilder::new();
    let s_cls = b.string("Lp/Q;");
    let s_obj = b.string("Ljava/lang/Object;");
    let s_v = b.string("V");
    let s_vi = b.string("VI");
    let s_i = b.string("I");
    let s_run = b.string("run");
    let s_go = b.string("go");
    let t_cls = b.type_of("Lp/Q;");
    let t_obj = b.type_of("Ljava/lang/Object;");
    let t_v = b.type_of("V");
    let t_i = b.type_of("I");
    let p_v = b.proto(s_v, t_v, &[]);
    let p_vi = b.proto(s_vi, t_v, &[t_i]);
    let m_run = b.method(t_cls, p_v, s_run);
    let m_go = b.method(t_cls, p_vi, s_go);
    assert_eq!((m_run, m_go), (0, 1));
    let go_code = CodeItem { registers_size: 2, ins_size: 1, outs_size: 0, insns: vec![0x000e] };
    let run_code = CodeItem { registers_size: 1, ins_size: 0, outs_size: 0, insns: vec![0x0012, 0x000e] };
    b.add_class(
        t_cls,
        t_obj,
        vec![
            EncodedMethod { method_idx: m_go, access_flags: 0x9, code: Some(go_code) },
            EncodedMethod { method_idx: m_run, access_flags: 0x1, code: Some(run_code) },
        ],
    );
    let _ = (s_cls, s_obj, s_i);
    let bytes = b.finish();
    let dex = DexFile::parse(&bytes).expect("parse");
    assert_eq!(dex.strings, vec!["Lp/Q;", "Ljava/lang/Object;", "V", "VI", "I", "run", "go"]);
    assert_eq!(dex.types, vec!["Lp/Q;", "Ljava/lang/Object;", "V", "I"]);
    assert_eq!(dex.protos.len(), 2);
    assert_eq!(dex.protos[1].shorty, "VI");
    assert_eq!(dex.protos[1].return_type, "V");
    assert_eq!(dex.protos[1].parameters, vec!["I".to_string()]);
    assert!(dex.protos[0].parameters.is_empty());
    assert!(dex.fields.is_empty());
    assert_eq!(dex.methods.len(), 2);
    assert_eq!((dex.methods[0].class.as_str(), dex.methods[0].name.as_str()), ("Lp/Q;", "run"));
    assert_eq!((dex.methods[1].class.as_str(), dex.methods[1].name.as_str()), ("Lp/Q;", "go"));
    assert_eq!(dex.methods[1].proto.shorty, "VI");
    assert_eq!(dex.classes.len(), 1);
    let c = &dex.classes[0];
    assert_eq!(c.descriptor, "Lp/Q;");
    assert_eq!(c.access_flags, 1);
    assert_eq!(c.superclass.as_deref(), Some("Ljava/lang/Object;"));
    assert!(c.virtual_methods.is_empty());
    assert_eq!(c.direct_methods.len(), 2);
    assert_eq!((c.direct_methods[0].method_idx, c.direct_methods[0].access_flags), (0, 0x1));
    assert_eq!((c.direct_methods[1].method_idx, c.direct_methods[1].access_flags), (1, 0x9));
    let run = c.direct_methods[0].code.as_ref().expect("code");
    assert_eq!((run.registers_size, run.ins_size, run.outs_size), (1, 0, 0));
    assert_eq!(run.insns, vec![0x0012, 0x000e]);
    let go = c.direct_methods[1].code.as_ref().expect("code");
    assert_eq!((go.registers_size, go.ins_size), (2, 1));
    assert_eq!(go.insns, vec![0x000e]);
}
