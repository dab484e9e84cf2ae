use vstd::prelude::*;

verus! {

/// The failures the codec reports.
#[derive(Debug, PartialEq, Eq)]
pub enum CodecError {
    /// Fewer input bytes were available than the fixed size required.
    TruncatedInput,
    /// The underlying byte sink or source failed. The in-memory codec never
    /// raises this; adapters around real sinks and sources do.
    IOFailure,
    /// The entry stream that follows the header failed to decode; wraps the
    /// entry stream's own error.
    EntryDecodeFailure(Box<CodecError>),
    /// The decoded entry sequence holds more entries than the header's
    /// count field can represent, so no wrapper could carry the derived
    /// count.
    CountOverflow,
}

} // verus!
