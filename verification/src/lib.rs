//! Enumeration of listening TCP sockets and process termination, modeled as
//! verified logic over the raw connection table that the operating system
//! hands back: decoding the variable-length table buffer, filtering for the
//! listening state, converting port byte order, deriving display names for
//! owning processes, merging the per-family results into one deduplicated,
//! port-ordered directory, and classifying native failure codes.
use vstd::prelude::*;

pub mod fetch;
pub mod kill;
pub mod merge;
pub mod resolve;
pub mod socket;
pub mod table;
pub mod text;

verus! {

/// Convert a 16-bit port field between network and host byte order by
/// swapping its two bytes.
pub fn ntohs(port: u16) -> (r: u16)
    ensures
        r == (port % 256) * 256 + port / 256,
        r == crate::table::spec_ntohs(port),
{
    (port % 256) * 256 + port / 256
}

} // verus!
