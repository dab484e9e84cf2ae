use crate::fam::FamHeader;
use crate::ints::{u32_le_image, u32_of_le};
use crate::plain::Plain;
use vstd::prelude::*;

verus! {

/// A header of two 4-byte unsigned fields. Its byte image is `a`
/// little-endian, then `b` little-endian: 8 bytes in all.
///
/// As a flexible-array header it fronts 4-byte unsigned entries, with `a`
/// as the count field and `b` as ordinary metadata.
#[derive(Clone, Copy, Debug, PartialEq, Eq, Structural)]
pub struct PairHeader {
    /// The first field, and the count field when the header fronts a
    /// flexible-array structure.
    pub a: u32,
    /// The second field.
    pub b: u32,
}

impl Plain for PairHeader {
    open spec fn spec_size() -> nat {
        8
    }

    open spec fn image(&self) -> Seq<u8> {
        u32_le_image(self.a) + u32_le_image(self.b)
    }

    open spec fn of_image(bytes: Seq<u8>) -> Self {
        PairHeader { a: u32_of_le(bytes.subrange(0, 4)), b: u32_of_le(bytes.subrange(4, 8)) }
    }

    proof fn lemma_size() {
    }

    proof fn lemma_image(&self) {
        self.a.lemma_image();
        self.b.lemma_image();
        assert(self.image().subrange(0, 4) =~= u32_le_image(self.a));
        assert(self.image().subrange(4, 8) =~= u32_le_image(self.b));
    }

    proof fn lemma_of_image(bytes: Seq<u8>) {
        <u32 as Plain>::lemma_of_image(bytes.subrange(0, 4));
        <u32 as Plain>::lemma_of_image(bytes.subrange(4, 8));
        assert(Self::of_image(bytes).image() =~= bytes);
    }

    fn byte_size() -> (n: usize) {
        8
    }

    fn append_image(&self, out: &mut Vec<u8>) {
        self.a.append_image(out);
        self.b.append_image(out);
        proof {
            assert(out@ =~= old(out)@ + self.image());
        }
    }

    fn from_image(bytes: &[u8], pos: usize) -> (r: Self) {
        proof {
            vstd::slice::axiom_spec_len(bytes);
        }
        let a: u32 = <u32 as Plain>::from_image(bytes, pos);
        let b: u32 = <u32 as Plain>::from_image(bytes, pos + 4);
        proof {
            let s = bytes@.subrange(pos as int, pos + 8);
            assert(s.subrange(0, 4) =~= bytes@.subrange(pos as int, pos + 4));
            assert(s.subrange(4, 8) =~= bytes@.subrange(pos + 4, pos + 8));
        }
        PairHeader { a, b }
    }
}

impl FamHeader for PairHeader {
    type Entry = u32;

    open spec fn spec_count(&self) -> u64 {
        self.a as u64
    }

    open spec fn spec_max_count() -> u64 {
        0xffff_ffff
    }

    open spec fn spec_with_count(&self, n: u64) -> Self {
        PairHeader { a: n as u32, b: self.b }
    }

    proof fn lemma_count_laws(&self, m: u64, n: u64) {
        let a: u32 = self.a;
        assert(n <= 0xffff_ffffu64 ==> ((n as u32) as u64) == n) by (bit_vector);
        assert(((a as u64) as u32) == a) by (bit_vector);
    }

    fn count(&self) -> (n: u64) {
        self.a as u64
    }

    fn max_count() -> (n: u64) {
        0xffff_ffff
    }

    fn with_count(&self, n: u64) -> (r: Self) {
        PairHeader { a: n as u32, b: self.b }
    }
}

} // verus!
