//! The decision logic of the process terminator. Opening and terminating the
//! process are the surrounding shell's concern; this module classifies the
//! native failure codes into the taxonomy the caller sees — access denied,
//! invalid target, any other open failure, or a failure of the termination
//! call itself — and renders each as its human-readable message.
use vstd::prelude::*;

use crate::text::{append_decimal, dec_digits};

verus! {

/// Native code reported when the caller lacks the right to open the process.
pub const ACCESS_DENIED: u32 = 5;

/// Native code reported when no process has the given identifier.
pub const INVALID_PARAMETER: u32 = 87;

/// Why a termination request failed.
#[derive(PartialEq, Eq, Debug)]
pub enum KillError {
    /// Opening with termination rights was refused: the process may need
    /// elevated privilege or be a protected system process.
    AccessDenied { pid: u32 },
    /// The identifier names no existing process.
    InvalidTarget { pid: u32 },
    /// The open failed with some other native code; `detail` is the native
    /// error text.
    OpenFailed { pid: u32, code: u32, detail: String },
    /// The process was opened but the termination call itself failed.
    TerminateFailed { pid: u32, code: u32 },
}

/// The human-readable message for each failure class.
pub open spec fn kill_error_text(e: KillError) -> Seq<char> {
    match e {
        KillError::AccessDenied { pid } => "Access denied. Process "@ + dec_digits(pid as nat)
            + " may require Administrator privileges or may be a system process."@,
        KillError::InvalidTarget { pid } => "Invalid PID: "@ + dec_digits(pid as nat),
        KillError::OpenFailed { pid, code, detail } => "Failed to open process "@ + dec_digits(
            pid as nat,
        ) + ": "@ + detail@ + " (Error code: "@ + dec_digits(code as nat) + ")"@,
        KillError::TerminateFailed { pid, code } => "Failed to terminate process "@ + dec_digits(
            pid as nat,
        ) + ": "@ + dec_digits(code as nat),
    }
}

/// Classify a failure to open the process with termination rights by its
/// native code; `detail` is the native error text, kept only for codes
/// outside the two recognized ones.
pub fn classify_open_failure(pid: u32, code: u32, detail: String) -> (r: KillError)
    ensures
        code == ACCESS_DENIED ==> r == (KillError::AccessDenied { pid }),
        code == INVALID_PARAMETER ==> r == (KillError::InvalidTarget { pid }),
        code != ACCESS_DENIED && code != INVALID_PARAMETER ==> r == (KillError::OpenFailed {
            pid,
            code,
            detail,
        }),
{
    if code == ACCESS_DENIED {
        KillError::AccessDenied { pid }
    } else if code == INVALID_PARAMETER {
        KillError::InvalidTarget { pid }
    } else {
        KillError::OpenFailed { pid, code, detail }
    }
}

impl KillError {
    /// Render this failure as the message the caller sees.
    pub fn message(&self) -> (r: String)
        ensures
            r@ == kill_error_text(*self),
    {
        match self {
            KillError::AccessDenied { pid } => {
                let mut m = String::from_str("Access denied. Process ");
                append_decimal(&mut m, *pid);
                m.append(" may require Administrator privileges or may be a system process.");
                m
            },
            KillError::InvalidTarget { pid } => {
                let mut m = String::from_str("Invalid PID: ");
                append_decimal(&mut m, *pid);
                m
            },
            KillError::OpenFailed { pid, code, detail } => {
                let mut m = String::from_str("Failed to open process ");
                append_decimal(&mut m, *pid);
                m.append(": ");
                m.append(detail.as_str());
                m.append(" (Error code: ");
                append_decimal(&mut m, *code);
                m.append(")");
                m
            },
            KillError::TerminateFailed { pid, code } => {
                let mut m = String::from_str("Failed to terminate process ");
                append_decimal(&mut m, *pid);
                m.append(": ");
                append_decimal(&mut m, *code);
                m
            },
        }
    }
}

} // verus!
