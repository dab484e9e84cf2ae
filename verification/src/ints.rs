use crate::plain::Plain;
use vstd::prelude::*;

verus! {

// Little-endian byte images of the unsigned integer types, and the values
// read back from such images. These are the building blocks every other
// `Plain` type composes.

pub open spec fn u8_le_image(x: u8) -> Seq<u8> {
    seq![x]
}

pub open spec fn u8_of_le(b: Seq<u8>) -> u8 {
    b[0]
}

pub open spec fn u16_le_image(x: u16) -> Seq<u8> {
    seq![(x & 0xff) as u8, ((x >> 8) & 0xff) as u8]
}

pub open spec fn u16_of_le(b: Seq<u8>) -> u16 {
    (b[0] as u16) | ((b[1] as u16) << 8)
}

pub open spec fn u32_le_image(x: u32) -> Seq<u8> {
    seq![
        (x & 0xff) as u8,
        ((x >> 8) & 0xff) as u8,
        ((x >> 16) & 0xff) as u8,
        ((x >> 24) & 0xff) as u8,
    ]
}

pub open spec fn u32_of_le(b: Seq<u8>) -> u32 {
    (b[0] as u32) | ((b[1] as u32) << 8) | ((b[2] as u32) << 16) | ((b[3] as u32) << 24)
}

pub open spec fn u64_le_image(x: u64) -> Seq<u8> {
    seq![
        (x & 0xff) as u8,
        ((x >> 8) & 0xff) as u8,
        ((x >> 16) & 0xff) as u8,
        ((x >> 24) & 0xff) as u8,
        ((x >> 32) & 0xff) as u8,
        ((x >> 40) & 0xff) as u8,
        ((x >> 48) & 0xff) as u8,
        ((x >> 56) & 0xff) as u8,
    ]
}

pub open spec fn u64_of_le(b: Seq<u8>) -> u64 {
    (b[0] as u64) | ((b[1] as u64) << 8) | ((b[2] as u64) << 16) | ((b[3] as u64) << 24)
        | ((b[4] as u64) << 32) | ((b[5] as u64) << 40) | ((b[6] as u64) << 48)
        | ((b[7] as u64) << 56)
}

impl Plain for u8 {
    open spec fn spec_size() -> nat {
        1
    }

    open spec fn image(&self) -> Seq<u8> {
        u8_le_image(*self)
    }

    open spec fn of_image(bytes: Seq<u8>) -> Self {
        u8_of_le(bytes)
    }

    proof fn lemma_size() {
    }

    proof fn lemma_image(&self) {
    }

    proof fn lemma_of_image(bytes: Seq<u8>) {
        assert(u8_le_image(bytes[0]) =~= bytes);
    }

    fn byte_size() -> (n: usize) {
        1
    }

    fn append_image(&self, out: &mut Vec<u8>) {
        out.push(*self);
        proof {
            assert(out@ =~= old(out)@ + u8_le_image(*self));
        }
    }

    fn from_image(bytes: &[u8], pos: usize) -> (r: Self) {
        let r: u8 = bytes[pos];
        proof {
            assert(bytes@.subrange(pos as int, pos + 1)[0] == bytes@[pos as int]);
        }
        r
    }
}

impl Plain for u16 {
    open spec fn spec_size() -> nat {
        2
    }

    open spec fn image(&self) -> Seq<u8> {
        u16_le_image(*self)
    }

    open spec fn of_image(bytes: Seq<u8>) -> Self {
        u16_of_le(bytes)
    }

    proof fn lemma_size() {
    }

    proof fn lemma_image(&self) {
        let x: u16 = *self;
        assert((((x & 0xff) as u8) as u16) | (((((x >> 8) & 0xff) as u8) as u16) << 8) == x)
            by (bit_vector);
    }

    proof fn lemma_of_image(bytes: Seq<u8>) {
        let b0: u8 = bytes[0];
        let b1: u8 = bytes[1];
        let x: u16 = u16_of_le(bytes);
        assert((x == (b0 as u16) | ((b1 as u16) << 8)) ==> ((x & 0xff) as u8 == b0 && ((x >> 8)
            & 0xff) as u8 == b1)) by (bit_vector);
        assert(u16_le_image(x) =~= bytes);
    }

    fn byte_size() -> (n: usize) {
        2
    }

    fn append_image(&self, out: &mut Vec<u8>) {
        let x: u16 = *self;
        out.push((x & 0xff) as u8);
        out.push(((x >> 8) & 0xff) as u8);
        proof {
            assert(out@ =~= old(out)@ + u16_le_image(x));
        }
    }

    fn from_image(bytes: &[u8], pos: usize) -> (r: Self) {
        proof {
            vstd::slice::axiom_spec_len(bytes);
        }
        let b0: u8 = bytes[pos];
        let b1: u8 = bytes[pos + 1];
        let r: u16 = (b0 as u16) | ((b1 as u16) << 8);
        proof {
            let s = bytes@.subrange(pos as int, pos + 2);
            assert(s[0] == b0 && s[1] == b1);
        }
        r
    }
}

impl Plain for u32 {
    open spec fn spec_size() -> nat {
        4
    }

    open spec fn image(&self) -> Seq<u8> {
        u32_le_image(*self)
    }

    open spec fn of_image(bytes: Seq<u8>) -> Self {
        u32_of_le(bytes)
    }

    proof fn lemma_size() {
    }

    proof fn lemma_image(&self) {
        let x: u32 = *self;
        assert((((x & 0xff) as u8) as u32) | (((((x >> 8) & 0xff) as u8) as u32) << 8) | (((((x
            >> 16) & 0xff) as u8) as u32) << 16) | (((((x >> 24) & 0xff) as u8) as u32) << 24)
            == x) by (bit_vector);
    }

    proof fn lemma_of_image(bytes: Seq<u8>) {
        let b0: u8 = bytes[0];
        let b1: u8 = bytes[1];
        let b2: u8 = bytes[2];
        let b3: u8 = bytes[3];
        let x: u32 = u32_of_le(bytes);
        assert((x == (b0 as u32) | ((b1 as u32) << 8) | ((b2 as u32) << 16) | ((b3 as u32) << 24))
            ==> ((x & 0xff) as u8 == b0 && ((x >> 8) & 0xff) as u8 == b1 && ((x >> 16) & 0xff)
            as u8 == b2 && ((x >> 24) & 0xff) as u8 == b3)) by (bit_vector);
        assert(u32_le_image(x) =~= bytes);
    }

    fn byte_size() -> (n: usize) {
        4
    }

    fn append_image(&self, out: &mut Vec<u8>) {
        let x: u32 = *self;
        out.push((x & 0xff) as u8);
        out.push(((x >> 8) & 0xff) as u8);
        out.push(((x >> 16) & 0xff) as u8);
        out.push(((x >> 24) & 0xff) as u8);
        proof {
            assert(out@ =~= old(out)@ + u32_le_image(x));
        }
    }

    fn from_image(bytes: &[u8], pos: usize) -> (r: Self) {
        proof {
            vstd::slice::axiom_spec_len(bytes);
        }
        let b0: u8 = bytes[pos];
        let b1: u8 = bytes[pos + 1];
        let b2: u8 = bytes[pos + 2];
        let b3: u8 = bytes[pos + 3];
        let r: u32 = (b0 as u32) | ((b1 as u32) << 8) | ((b2 as u32) << 16) | ((b3 as u32) << 24);
        proof {
            let s = bytes@.subrange(pos as int, pos + 4);
            assert(s[0] == b0 && s[1] == b1 && s[2] == b2 && s[3] == b3);
        }
        r
    }
}

impl Plain for u64 {
    open spec fn spec_size() -> nat {
        8
    }

    open spec fn image(&self) -> Seq<u8> {
        u64_le_image(*self)
    }

    open spec fn of_image(bytes: Seq<u8>) -> Self {
        u64_of_le(bytes)
    }

    proof fn lemma_size() {
    }

    proof fn lemma_image(&self) {
        let x: u64 = *self;
        assert((((x & 0xff) as u8) as u64) | (((((x >> 8) & 0xff) as u8) as u64) << 8) | (((((x
            >> 16) & 0xff) as u8) as u64) << 16) | (((((x >> 24) & 0xff) as u8) as u64) << 24)
            | (((((x >> 32) & 0xff) as u8) as u64) << 32) | (((((x >> 40) & 0xff) as u8) as u64)
            << 40) | (((((x >> 48) & 0xff) as u8) as u64) << 48) | (((((x >> 56) & 0xff) as u8)
            as u64) << 56) == x) by (bit_vector);
    }

    proof fn lemma_of_image(bytes: Seq<u8>) {
        let b0: u8 = bytes[0];
        let b1: u8 = bytes[1];
        let b2: u8 = bytes[2];
        let b3: u8 = bytes[3];
        let b4: u8 = bytes[4];
        let b5: u8 = bytes[5];
        let b6: u8 = bytes[6];
        let b7: u8 = bytes[7];
        let x: u64 = u64_of_le(bytes);
        assert((x == (b0 as u64) | ((b1 as u64) << 8) | ((b2 as u64) << 16) | ((b3 as u64) << 24)
            | ((b4 as u64) << 32) | ((b5 as u64) << 40) | ((b6 as u64) << 48) | ((b7 as u64)
            << 56)) ==> ((x & 0xff) as u8 == b0 && ((x >> 8) & 0xff) as u8 == b1 && ((x >> 16)
            & 0xff) as u8 == b2 && ((x >> 24) & 0xff) as u8 == b3 && ((x >> 32) & 0xff) as u8
            == b4 && ((x >> 40) & 0xff) as u8 == b5 && ((x >> 48) & 0xff) as u8 == b6 && ((x
            >> 56) & 0xff) as u8 == b7)) by (bit_vector);
        assert(u64_le_image(x) =~= bytes);
    }

    fn byte_size() -> (n: usize) {
        8
    }

    fn append_image(&self, out: &mut Vec<u8>) {
        let x: u64 = *self;
        out.push((x & 0xff) as u8);
        out.push(((x >> 8) & 0xff) as u8);
        out.push(((x >> 16) & 0xff) as u8);
        out.push(((x >> 24) & 0xff) as u8);
        out.push(((x >> 32) & 0xff) as u8);
        out.push(((x >> 40) & 0xff) as u8);
        out.push(((x >> 48) & 0xff) as u8);
        out.push(((x >> 56) & 0xff) as u8);
        proof {
            assert(out@ =~= old(out)@ + u64_le_image(x));
        }
    }

    fn from_image(bytes: &[u8], pos: usize) -> (r: Self) {
        proof {
            vstd::slice::axiom_spec_len(bytes);
        }
        let b0: u8 = bytes[pos];
        let b1: u8 = bytes[pos + 1];
        let b2: u8 = bytes[pos + 2];
        let b3: u8 = bytes[pos + 3];
        let b4: u8 = bytes[pos + 4];
        let b5: u8 = bytes[pos + 5];
        let b6: u8 = bytes[pos + 6];
        let b7: u8 = bytes[pos + 7];
        let r: u64 = (b0 as u64) | ((b1 as u64) << 8) | ((b2 as u64) << 16) | ((b3 as u64) << 24)
            | ((b4 as u64) << 32) | ((b5 as u64) << 40) | ((b6 as u64) << 48) | ((b7 as u64)
            << 56);
        proof {
            let s = bytes@.subrange(pos as int, pos + 8);
            assert(s[0] == b0 && s[1] == b1 && s[2] == b2 && s[3] == b3 && s[4] == b4 && s[5] == b5
                && s[6] == b6 && s[7] == b7);
        }
        r
    }
}

} // verus!
