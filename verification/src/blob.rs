use crate::error::CodecError;
use crate::plain::Plain;
use vstd::prelude::*;

verus! {

/// A trivially versioned wrapper around a fixed-size plain value: the wire
/// form of `Blob(v)` is exactly the byte image of `v`, with no length
/// prefix and no version tag emitted. The schema version is fixed at 1.
#[derive(Clone, Copy, Default)]
pub struct Blob<T>(pub T);

impl<T: Plain> Blob<T> {
    /// Appends the byte image of the wrapped value to `writer`: exactly
    /// `T::spec_size()` bytes, a pure copy of the value's image.
    pub fn serialize(&self, writer: &mut Vec<u8>)
        ensures
            final(writer)@ == old(writer)@ + self.0.image(),
    {
        self.0.append_image(writer);
    }

    /// Reads one value from `reader` starting at `pos`, and returns it with
    /// the position just past it. Fails with `TruncatedInput` exactly when
    /// fewer than `T::spec_size()` bytes remain. The bytes pass through
    /// verbatim: nothing in them is inspected or validated.
    pub fn deserialize(reader: &[u8], pos: usize) -> (r: Result<(Self, usize), CodecError>)
        ensures
            match r {
                Ok(v) => pos + T::spec_size() <= reader@.len() && v.0.0 == T::of_image(
                    reader@.subrange(pos as int, pos + T::spec_size()),
                ) && v.1 == pos + T::spec_size(),
                Err(e) => pos + T::spec_size() > reader@.len() && e
                    == CodecError::TruncatedInput,
            },
    {
        let size: usize = T::byte_size();
        if pos <= reader.len() && size <= reader.len() - pos {
            let t: T = T::from_image(reader, pos);
            Ok((Blob(t), pos + size))
        } else {
            Err(CodecError::TruncatedInput)
        }
    }

    /// The schema version of the blob wire format. Raw blobs have no
    /// field-level evolution, so the version is declared and never emitted.
    pub fn version() -> (v: u16)
        ensures
            v == 1,
    {
        1
    }
}

/// Round trip for plain values: the byte image of a value has the type's
/// fixed size, and decoding that image yields the value itself.
pub proof fn lemma_blob_round_trip<T: Plain>(v: T)
    ensures
        v.image().len() == T::spec_size(),
        T::of_image(v.image()) == v,
{
    v.lemma_image();
}

} // verus!
