//! Errors of the APK / DEX runtime.
use vstd::prelude::*;
use crate::disasm::{dec_str, hex2_lower, push_dec, push_hex2_lower};

verus! {

/// Why loading or running an app failed.
#[derive(Debug)]
pub enum AndroidError {
    /// Not a ZIP/APK.
    NotZip(String),
    /// The APK holds no `classes.dex`.
    MissingDex,
    /// The DEX file is malformed.
    Dex(String),
    /// The manifest could not be read.
    Manifest(String),
    /// The runtime could not start the app.
    Runtime(String),
    /// The VM met an opcode it does not implement.
    UnimplementedOpcode { op: u8, pc: u32 },
    /// The VM failed.
    Vm(String),
}

/// The contents of an error, for contracts.
pub enum ErrView {
    NotZip(Seq<char>),
    MissingDex,
    Dex(Seq<char>),
    Manifest(Seq<char>),
    Runtime(Seq<char>),
    UnimplementedOpcode { op: u8, pc: u32 },
    Vm(Seq<char>),
}

impl View for AndroidError {
    type V = ErrView;

    open spec fn view(&self) -> ErrView {
        match self {
            AndroidError::NotZip(m) => ErrView::NotZip(m@),
            AndroidError::MissingDex => ErrView::MissingDex,
            AndroidError::Dex(m) => ErrView::Dex(m@),
            AndroidError::Manifest(m) => ErrView::Manifest(m@),
            AndroidError::Runtime(m) => ErrView::Runtime(m@),
            AndroidError::UnimplementedOpcode { op, pc } => ErrView::UnimplementedOpcode { op: *op, pc: *pc },
            AndroidError::Vm(m) => ErrView::Vm(m@),
        }
    }
}

/// The message of an error, as users see it.
pub open spec fn err_message(e: ErrView) -> Seq<char> {
    match e {
        ErrView::NotZip(m) => "not a ZIP/APK: "@ + m,
        ErrView::MissingDex => "missing classes.dex in APK"@,
        ErrView::Dex(m) => "DEX parse error: "@ + m,
        ErrView::Manifest(m) => "AXML/manifest error: "@ + m,
        ErrView::Runtime(m) => "runtime error: "@ + m,
        ErrView::UnimplementedOpcode { op, pc } => "VM halted: unimplemented opcode 0x"@ + hex2_lower(op)
            + " at pc="@ + dec_str(pc as nat),
        ErrView::Vm(m) => "VM error: "@ + m,
    }
}

impl AndroidError {
    /// The message of this error (see [`err_message`]).
    pub fn message(&self) -> (r: String)
        ensures
            r@ == err_message(self@),
    {
        let mut out = String::new();
        match self {
            AndroidError::NotZip(m) => {
                out.append("not a ZIP/APK: ");
                out.append(m.as_str());
            },
            AndroidError::MissingDex => {
                out.append("missing classes.dex in APK");
            },
            AndroidError::Dex(m) => {
                out.append("DEX parse error: ");
                out.append(m.as_str());
            },
            AndroidError::Manifest(m) => {
                out.append("AXML/manifest error: ");
                out.append(m.as_str());
            },
            AndroidError::Runtime(m) => {
                out.append("runtime error: ");
                out.append(m.as_str());
            },
            AndroidError::UnimplementedOpcode { op, pc } => {
                out.append("VM halted: unimplemented opcode 0x");
                push_hex2_lower(&mut out, *op);
                out.append(" at pc=");
                push_dec(&mut out, *pc);
            },
            AndroidError::Vm(m) => {
                out.append("VM error: ");
                out.append(m.as_str());
            },
        }
        proof {
            if self@ is MissingDex {
                assert(out@ =~= err_message(self@));
            }
        }
        out
    }
}

} // verus!
