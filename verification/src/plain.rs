use vstd::prelude::*;

verus! {

/// A fixed-size plain value: a value with a statically known byte size whose
/// wire form is exactly its byte image — its fields in declaration order,
/// each integer field little-endian, no length prefix, no version tag.
///
/// Every byte sequence of the right length is the image of exactly one
/// value; decoding never inspects or validates the content.
pub trait Plain: Sized + Copy {
    /// The fixed byte size shared by every value of this type.
    spec fn spec_size() -> nat;

    /// The byte image of this value.
    spec fn image(&self) -> Seq<u8>;

    /// The value whose byte image is `bytes`; meaningful whenever `bytes`
    /// has length `spec_size()`.
    spec fn of_image(bytes: Seq<u8>) -> Self;

    /// A plain value occupies at least one byte.
    proof fn lemma_size()
        ensures
            Self::spec_size() >= 1,
    ;

    /// The image has the fixed length, and decodes back to the value.
    proof fn lemma_image(&self)
        ensures
            self.image().len() == Self::spec_size(),
            Self::of_image(self.image()) == *self,
    ;

    /// Any byte sequence of the fixed length is the image of the value it
    /// decodes to: decoding is a bijection on images.
    proof fn lemma_of_image(bytes: Seq<u8>)
        requires
            bytes.len() == Self::spec_size(),
        ensures
            Self::of_image(bytes).image() == bytes,
    ;

    /// The fixed byte size, as a machine integer.
    fn byte_size() -> (n: usize)
        ensures
            n == Self::spec_size(),
    ;

    /// Appends the byte image of `self` to `out`.
    fn append_image(&self, out: &mut Vec<u8>)
        ensures
            final(out)@ == old(out)@ + self.image(),
    ;

    /// Reads one value from `bytes`, starting at `pos`.
    fn from_image(bytes: &[u8], pos: usize) -> (r: Self)
        requires
            pos + Self::spec_size() <= bytes@.len(),
        ensures
            r == Self::of_image(bytes@.subrange(pos as int, pos + Self::spec_size())),
    ;
}

} // verus!
