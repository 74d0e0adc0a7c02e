//! nekodroid: an ARMv7 emulator core (CPU, memory bus, CP15) and a small
//! APK/DEX runner for Dalvik bytecode with high-level framework stubs.
pub mod cp15;
pub mod text;
pub mod memory;
pub mod cpu;
pub mod arm;
pub mod disasm;
pub mod android;
pub mod properties;
pub mod host;
