//! The error type of the compiler and the text of its messages.
use crate::text::{dec_digits, hex_digits, push_dec, push_hex};
use vstd::prelude::*;
use vstd::string::*;

verus! {

/// Errors raised while compiling a WebAssembly module to PVM.
#[derive(Debug)]
pub enum Error {
    /// The WebAssembly binary could not be read (the reader's message).
    WasmParse(String),
    /// The module uses a WebAssembly feature the compiler does not support.
    Unsupported(String),
    /// The module uses floating-point operations, which PVM lacks.
    FloatNotSupported,
    /// The module exports no function to use as the entry point.
    NoExportedFunction,
    /// A function index does not name a function of the module.
    FunctionNotFound(u32),
    /// An import could not be resolved.
    UnresolvedImport(String),
    /// An inconsistency inside the compiler.
    Internal(String),
    /// Wrapper attaching the source function (and, when known, the WASM
    /// operator's byte offset) to a translation error.
    ///
    /// `op_offset` is `None` for errors raised after the WASM byte offset is
    /// gone, during PVM lowering. The inner error is named `cause` rather
    /// than `source` so that error reporters do not print it twice.
    Located { func_idx: usize, func_name: String, op_offset: Option<usize>, cause: Box<Error> },
    /// Wrapper attaching adapter-merge context (which adapter element or
    /// module-side label) to an error raised before any code is generated.
    AdapterMerge { context: String, cause: Box<Error> },
}

/// Result of a compiler step.
pub type Result<T> = std::result::Result<T, Error>;

/// The location suffix of a `Located` message: the operator's byte offset
/// in hexadecimal, or a note that the error arose during PVM lowering.
pub open spec fn op_offset_text(op_offset: Option<usize>) -> Seq<char> {
    match op_offset {
        Some(o) => " at byte offset 0x"@ + hex_digits(o as nat),
        None => " during PVM lowering"@,
    }
}

/// The message of an error, as the compiler reports it.
pub open spec fn error_text(e: Error) -> Seq<char>
    decreases e,
{
    match e {
        Error::WasmParse(s) => "WASM parsing error: "@ + s@,
        Error::Unsupported(s) => "Unsupported WASM feature: "@ + s@,
        Error::FloatNotSupported => "Float operations are not supported by PVM"@,
        Error::NoExportedFunction => "No exported function found"@,
        Error::FunctionNotFound(i) => "Function index "@ + dec_digits(i as nat) + " not found"@,
        Error::UnresolvedImport(s) => "Unresolved import: "@ + s@,
        Error::Internal(s) => "Internal error: "@ + s@,
        Error::Located { func_idx, func_name, op_offset, cause } => error_text(*cause)
            + " (in function #"@ + dec_digits(func_idx as nat) + " '"@ + func_name@ + "'"@
            + op_offset_text(op_offset) + ")"@,
        Error::AdapterMerge { context, cause } => error_text(*cause)
            + " (during adapter merge: "@ + context@ + ")"@,
    }
}

/// Renders the location suffix of a `Located` error.
fn format_op_offset(op_offset: Option<&usize>) -> (r: String)
    ensures
        r@ == op_offset_text(
            match op_offset {
                Some(o) => Some(*o),
                None => None,
            },
        ),
{
    match op_offset {
        Some(o) => {
            let mut s = String::from_str(" at byte offset 0x");
            push_hex(&mut s, *o as u64);
            s
        },
        None => String::from_str(" during PVM lowering"),
    }
}

impl Error {
    /// The message of this error; a wrapped error's message comes first,
    /// followed by the context the wrapper adds.
    pub fn message(&self) -> (r: String)
        ensures
            r@ == error_text(*self),
        decreases self,
    {
        match self {
            Error::WasmParse(s) => String::from_str("WASM parsing error: ").concat(s.as_str()),
            Error::Unsupported(s) => String::from_str("Unsupported WASM feature: ").concat(s.as_str()),
            Error::FloatNotSupported => String::from_str("Float operations are not supported by PVM"),
            Error::NoExportedFunction => String::from_str("No exported function found"),
            Error::FunctionNotFound(i) => {
                let mut s = String::from_str("Function index ");
                push_dec(&mut s, *i as u64);
                s.append(" not found");
                s
            },
            Error::UnresolvedImport(s) => String::from_str("Unresolved import: ").concat(s.as_str()),
            Error::Internal(s) => String::from_str("Internal error: ").concat(s.as_str()),
            Error::Located { func_idx, func_name, op_offset, cause } => {
                let mut s = cause.message();
                s.append(" (in function #");
                push_dec(&mut s, *func_idx as u64);
                s.append(" '");
                s.append(func_name.as_str());
                s.append("'");
                let suffix = format_op_offset(op_offset.as_ref());
                s.append(suffix.as_str());
                s.append(")");
                s
            },
            Error::AdapterMerge { context, cause } => {
                let mut s = cause.message();
                s.append(" (during adapter merge: ");
                s.append(context.as_str());
                s.append(")");
                s
            },
        }
    }
}

} // verus!
