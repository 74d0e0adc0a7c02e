# nekodroid

An ARMv7 emulator core and a small Dalvik (APK/DEX) runner, written in
Verus: every function of the library carries a contract, and Verus proves
them all except a few trusted wrappers (marked `external_body`) whose
contracts describe calls into `std` and the `zip` crate: `String::push`,
`String::from_utf8_lossy`, and the `ZipArchive` / `ZipWriter` calls in
`src/android/apk.rs` and `src/android/fixture.rs`.

- `src/cpu.rs`, `src/arm.rs`: register file, CPU and its step semantics
  (`CpuView::step`), ARM and Thumb execution, exceptions, BIOS calls.
- `src/memory.rs`: the memory bus with VRAM, UART, input, timers, VIC and
  the Android devices (MMC, pipe, binder, logger, ashmem).
- `src/cp15.rs`, `src/disasm.rs`, `src/text.rs`: system control
  coprocessor, disassembler, string helpers.
- `src/android/`: DEX parsing, instruction decoding, the interpreter, the
  framework stubs, manifest and APK reading (through the `zip` crate) and
  the test fixtures (DEX and APK builders).
- `src/host.rs`: what the browser front end asks of the core: sessions,
  batch runs, hex programs, debug JSON, logcat text, text in VRAM.
- `src/properties.rs`, `src/android/properties.rs`: laws that span
  several operations. The DEX builder's law that a laid-out file parses
  back to the builder's own tables stands in `src/android/fixture.rs`;
  that the hello-world and arithmetic fixtures load, run and log, in
  `src/android/runtime.rs`.
- `app/`: the `wasm-bindgen` exports that hold the sessions and call the
  library.
