use crate::fam::FamHeader;
use crate::ints::{u16_le_image, u16_of_le};
use crate::plain::Plain;
use vstd::prelude::*;

verus! {

/// A compact header of two 2-byte unsigned fields: `n`, the count field,
/// then `tag`. Byte image: `n` little-endian, then `tag` little-endian —
/// 4 bytes in all. As a flexible-array header it fronts single-byte
/// entries, so its narrow count field caps a wrapper at 65535 of them.
#[derive(Clone, Copy, Debug, PartialEq, Eq, Structural)]
pub struct SmallHeader {
    /// The count field.
    pub n: u16,
    /// The second field.
    pub tag: u16,
}

impl Plain for SmallHeader {
    open spec fn spec_size() -> nat {
        4
    }

    open spec fn image(&self) -> Seq<u8> {
        u16_le_image(self.n) + u16_le_image(self.tag)
    }

    open spec fn of_image(bytes: Seq<u8>) -> Self {
        SmallHeader { n: u16_of_le(bytes.subrange(0, 2)), tag: u16_of_le(bytes.subrange(2, 4)) }
    }

    proof fn lemma_size() {
    }

    proof fn lemma_image(&self) {
        self.n.lemma_image();
        self.tag.lemma_image();
        assert(self.image().subrange(0, 2) =~= u16_le_image(self.n));
        assert(self.image().subrange(2, 4) =~= u16_le_image(self.tag));
    }

    proof fn lemma_of_image(bytes: Seq<u8>) {
        <u16 as Plain>::lemma_of_image(bytes.subrange(0, 2));
        <u16 as Plain>::lemma_of_image(bytes.subrange(2, 4));
        assert(Self::of_image(bytes).image() =~= bytes);
    }

    fn byte_size() -> (n: usize) {
        4
    }

    fn append_image(&self, out: &mut Vec<u8>) {
        self.n.append_image(out);
        self.tag.append_image(out);
        proof {
            assert(out@ =~= old(out)@ + self.image());
        }
    }

    fn from_image(bytes: &[u8], pos: usize) -> (r: Self) {
        proof {
            vstd::slice::axiom_spec_len(bytes);
        }
        let n: u16 = <u16 as Plain>::from_image(bytes, pos);
        let tag: u16 = <u16 as Plain>::from_image(bytes, pos + 2);
        proof {
            let s = bytes@.subrange(pos as int, pos + 4);
            assert(s.subrange(0, 2) =~= bytes@.subrange(pos as int, pos + 2));
            assert(s.subrange(2, 4) =~= bytes@.subrange(pos + 2, pos + 4));
        }
        SmallHeader { n, tag }
    }
}

impl FamHeader for SmallHeader {
    type Entry = u8;

    open spec fn spec_count(&self) -> u64 {
        self.n as u64
    }

    open spec fn spec_max_count() -> u64 {
        0xffff
    }

    open spec fn spec_with_count(&self, c: u64) -> Self {
        SmallHeader { n: c as u16, tag: self.tag }
    }

    proof fn lemma_count_laws(&self, m: u64, c: u64) {
        let a: u16 = self.n;
        assert(c <= 0xffffu64 ==> ((c as u16) as u64) == c) by (bit_vector);
        assert(((a as u64) as u16) == a) by (bit_vector);
    }

    fn count(&self) -> (c: u64) {
        self.n as u64
    }

    fn max_count() -> (c: u64) {
        0xffff
    }

    fn with_count(&self, c: u64) -> (r: Self) {
        SmallHeader { n: c as u16, tag: self.tag }
    }
}

} // verus!
