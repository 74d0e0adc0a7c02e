use nekodroid::android::decode;
use nekodroid::android::hle::{HleHost, Value};
use nekodroid::android::opcodes;
use nekodroid::android::runtime::AppRuntime;

#[test]
fn hello_apk_runs_and_logs() {
    let mut rt = AppRuntime::load_hello_fixture().expect("load");
    assert!(rt.apk.package_name.contains("nekodroid") || rt.apk.package_name == "com.nekodroid");
    rt.launch().expect("launch");
    let n = rt.run_batch(10_000).expect("run");
    assert!(n > 0);
    assert!(rt.vm.halted);
    let logs = rt.logs_text();
    assert!(logs.contains("Hello from NekoDroid"), "logs were: {logs}");
}

#[test]
fn bad_apk_errors() {
    let err = AppRuntime::load(b"not an apk");
    assert!(err.is_err());
}

#[test]
fn dalvik_array_and_binop_helpers() {
    let insns = [
        0x0312u16, // const/4 v0, #3
        0x0412,    // const/4 v1, #4
        0x10b0,    // add-int/2addr v0, v1
        0x000f,    // return v0
    ];
    assert_eq!(decode::decode(&insns, 0).unwrap().op, opcodes::CONST_4);
    assert_eq!(decode::decode(&insns, 2).unwrap().op, opcodes::ADD_INT_2ADDR);
    assert_eq!(decode::decode(&insns, 2).unwrap().size, 1);

    let mut host = HleHost::default();
    let arr = host.alloc_array(2);
    assert_eq!(host.array_len(arr), Some(2));
    assert!(host.array_set(arr, 1, Value::Int(9)));
    assert_eq!(host.array_get(arr, 1), Some(Value::Int(9)));
}
