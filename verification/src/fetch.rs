//! The decision logic of the two-phase table fetch. The native query itself
//! is the surrounding shell's concern; this module classifies each status
//! code the query reports: the first (sizing) call is expected to report
//! "insufficient buffer" with the required size, unqualified success means a
//! legitimately empty table, and anything else is fatal for that address
//! family. The second (filling) call must succeed outright; a repeated
//! "insufficient buffer" is propagated as an error, not retried.
use vstd::prelude::*;

use crate::table::AddressFamily;
use crate::text::{append_decimal, dec_digits};

verus! {

/// Native status code reporting that the supplied buffer is too small.
pub const INSUFFICIENT_BUFFER: u32 = 122;

/// Native status code for unqualified success.
pub const STATUS_SUCCESS: u32 = 0;

/// What the sizing call's outcome means for the fetch.
#[derive(PartialEq, Eq, Debug)]
pub enum SizingOutcome {
    /// The table needs this many bytes; allocate and call again.
    Fill(u32),
    /// The table is legitimately empty; no second call is needed.
    EmptyTable,
    /// Any other status: fatal for this address family.
    Fatal(String),
}

/// The message reported when the sizing call fails.
pub open spec fn sizing_error_text(family: AddressFamily, status: u32) -> Seq<char> {
    match family {
        AddressFamily::V4 => "Failed to get IPv4 buffer size: "@ + dec_digits(status as nat),
        AddressFamily::V6 => "Failed to get IPv6 buffer size: "@ + dec_digits(status as nat),
    }
}

/// The message reported when the filling call fails.
pub open spec fn fill_error_text(family: AddressFamily, status: u32) -> Seq<char> {
    match family {
        AddressFamily::V4 => "Failed to get IPv4 TCP table: "@ + dec_digits(status as nat),
        AddressFamily::V6 => "Failed to get IPv6 TCP table: "@ + dec_digits(status as nat),
    }
}

/// Classify the first, sizing call of the two-phase query: `status` is what
/// the call reported and `required` the byte size it wrote back.
pub fn interpret_sizing(family: AddressFamily, status: u32, required: u32) -> (r: SizingOutcome)
    ensures
        status == INSUFFICIENT_BUFFER ==> r == SizingOutcome::Fill(required),
        status == STATUS_SUCCESS ==> r == SizingOutcome::EmptyTable,
        status != INSUFFICIENT_BUFFER && status != STATUS_SUCCESS ==> (r matches SizingOutcome::Fatal(m)
            && m@ == sizing_error_text(family, status)),
{
    if status == INSUFFICIENT_BUFFER {
        SizingOutcome::Fill(required)
    } else if status == STATUS_SUCCESS {
        SizingOutcome::EmptyTable
    } else {
        let mut m = match family {
            AddressFamily::V4 => String::from_str("Failed to get IPv4 buffer size: "),
            AddressFamily::V6 => String::from_str("Failed to get IPv6 buffer size: "),
        };
        append_decimal(&mut m, status);
        SizingOutcome::Fatal(m)
    }
}

/// Classify the second, filling call of the two-phase query: only unqualified
/// success yields a table; every other status (a repeated "insufficient
/// buffer" included) is fatal for this address family.
pub fn interpret_fill(family: AddressFamily, status: u32) -> (r: Result<(), String>)
    ensures
        status == STATUS_SUCCESS ==> r is Ok,
        status != STATUS_SUCCESS ==> (r matches Err(m) && m@ == fill_error_text(family, status)),
{
    if status == STATUS_SUCCESS {
        Ok(())
    } else {
        let mut m = match family {
            AddressFamily::V4 => String::from_str("Failed to get IPv4 TCP table: "),
            AddressFamily::V6 => String::from_str("Failed to get IPv6 TCP table: "),
        };
        append_decimal(&mut m, status);
        Err(m)
    }
}

} // verus!
