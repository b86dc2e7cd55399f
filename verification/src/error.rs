//! The typed failures that every operation of the library reports.

use vstd::prelude::*;

verus! {

/// Why an operation was refused.
///
/// Nothing is retried inside the library and nothing is replaced by a silent
/// default: each failure reaches the caller as one of these values.
#[derive(Debug, PartialEq, Eq)]
pub enum Error {
    /// An instruction, a chunk entry or an accessor named a span that is not
    /// in the store.
    UnknownSpanId(u64),
    /// No trace is registered under this trace id.
    UnknownTraceId(u128),
    /// A string reference named a key that the string table does not hold.
    UnknownStringKey(u32),
    /// An accessor named an attribute that the span, or its trace, does not
    /// have.
    UnknownAttribute,
    /// The opcode of an instruction is outside the closed enumeration. The
    /// cursor cannot be re-synchronised after this, so the drain stops.
    MalformedInstruction(u64),
    /// A buffer ended before the value or the terminator that had to be read
    /// from it.
    BufferTooShort,
    /// A text of the bulk-load region is not UTF-8.
    InvalidUtf8,
    /// The exporter could not deliver a chunk; the transport's message is kept.
    ExportFailed(String),
}

} // verus!
