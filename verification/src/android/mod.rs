//! Android APK / DEX runtime: DEX parsing, a Dalvik interpreter and
//! high-level framework stubs.
pub mod opcodes;
pub mod error;
pub mod dex;
pub mod decode;
pub mod hle;
pub mod interp;
pub mod axml;
pub mod apk;
pub mod fixture;
pub mod runtime;
pub mod properties;
