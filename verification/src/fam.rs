use crate::blob::Blob;
use crate::error::CodecError;
use crate::ints::{u64_le_image, u64_of_le};
use crate::plain::Plain;
use vstd::arithmetic::div_mod::{lemma_fundamental_div_mod, lemma_mod_bound};
use vstd::arithmetic::mul::lemma_mul_inequality;
use vstd::prelude::*;

verus! {

/// A header type that fronts a flexible-array structure: a plain value one
/// of whose fields counts the entries that follow it on the wire. The codec
/// never trusts that stored count, so these operations let it read the
/// count and rewrite it while leaving every other field alone.
pub trait FamHeader: Plain {
    /// The type of the entries that follow the header.
    type Entry: Plain;

    /// The count stored in this header.
    spec fn spec_count(&self) -> u64;

    /// The largest count the header's count field can hold.
    spec fn spec_max_count() -> u64;

    /// This header with its count field set to `n` and every other field
    /// unchanged.
    spec fn spec_with_count(&self, n: u64) -> Self;

    /// The algebra of the count field: a stored count is always
    /// representable; rewriting the count stores exactly `n`; rewriting it
    /// with its own value changes nothing; and only the last rewrite counts.
    proof fn lemma_count_laws(&self, m: u64, n: u64)
        ensures
            self.spec_count() <= Self::spec_max_count(),
            n <= Self::spec_max_count() ==> self.spec_with_count(n).spec_count() == n,
            self.spec_with_count(self.spec_count()) == *self,
            self.spec_with_count(m).spec_with_count(n) == self.spec_with_count(n),
    ;

    /// The stored count, as a machine integer.
    fn count(&self) -> (n: u64)
        ensures
            n == self.spec_count(),
    ;

    /// The largest representable count, as a machine integer.
    fn max_count() -> (n: u64)
        ensures
            n == Self::spec_max_count(),
    ;

    /// This header with its count field set to `n`.
    fn with_count(&self, n: u64) -> (r: Self)
        requires
            n <= Self::spec_max_count(),
        ensures
            r == self.spec_with_count(n),
    ;
}

/// The concatenated byte images of `entries`, in order.
pub open spec fn entries_image<E: Plain>(entries: Seq<E>) -> Seq<u8>
    decreases entries.len(),
{
    if entries.len() == 0 {
        Seq::empty()
    } else {
        entries_image(entries.drop_last()) + entries.last().image()
    }
}

/// The wire form of an entry sequence: its length as an 8-byte
/// little-endian integer, then the entries' byte images in order.
pub open spec fn entry_stream_image<E: Plain>(entries: Seq<E>) -> Seq<u8> {
    u64_le_image(entries.len() as u64) + entries_image(entries)
}

/// The `n` entries read back from `bytes` starting at `pos`: each one
/// decoded from its own window of the fixed entry size, one after another.
pub open spec fn decoded_entries<E: Plain>(bytes: Seq<u8>, pos: int, n: nat) -> Seq<E>
    decreases n,
{
    if n == 0 {
        Seq::empty()
    } else {
        decoded_entries::<E>(bytes, pos, (n - 1) as nat).push(
            E::of_image(
                bytes.subrange(
                    pos + (n - 1) * E::spec_size(),
                    pos + n * E::spec_size(),
                ),
            ),
        )
    }
}

/// The concatenated images of `n` entries occupy `n` times the entry size.
pub proof fn lemma_entries_image_len<E: Plain>(entries: Seq<E>)
    ensures
        entries_image(entries).len() == entries.len() * E::spec_size(),
    decreases entries.len(),
{
    if entries.len() == 0 {
    } else {
        lemma_entries_image_len::<E>(entries.drop_last());
        entries.last().lemma_image();
        assert((entries.len() - 1) * E::spec_size() + E::spec_size() == entries.len()
            * E::spec_size()) by (nonlinear_arith);
    }
}

/// Reading entry windows back out of a byte sequence that holds the
/// concatenated images of `entries` yields `entries` again.
pub proof fn lemma_decoded_entries_of_image<E: Plain>(bytes: Seq<u8>, pos: int, entries: Seq<E>)
    requires
        0 <= pos,
        pos + entries.len() * E::spec_size() <= bytes.len(),
        bytes.subrange(pos, pos + entries.len() * E::spec_size()) == entries_image(entries),
    ensures
        decoded_entries::<E>(bytes, pos, entries.len()) == entries,
    decreases entries.len(),
{
    if entries.len() == 0 {
        assert(decoded_entries::<E>(bytes, pos, 0) =~= entries);
    } else {
        let n: int = entries.len() as int;
        let s: int = E::spec_size() as int;
        let front = entries.drop_last();
        let lastv = entries.last();
        lemma_entries_image_len::<E>(front);
        lemma_entries_image_len::<E>(entries);
        lastv.lemma_image();
        assert((n - 1) * s + s == n * s) by (nonlinear_arith);
        assert(0 <= (n - 1) * s) by (nonlinear_arith)
            requires
                1 <= n,
                0 <= s,
        ;
        assert(entries_image(entries) == entries_image(front) + lastv.image());
        assert(bytes.subrange(pos + (n - 1) * s, pos + n * s) =~= entries_image(entries).subrange(
            (n - 1) * s,
            n * s,
        ));
        assert(entries_image(entries).subrange((n - 1) * s, n * s) =~= lastv.image());
        assert(bytes.subrange(pos, pos + (n - 1) * s) =~= entries_image(entries).subrange(
            0,
            (n - 1) * s,
        ));
        assert(entries_image(entries).subrange(0, (n - 1) * s) =~= entries_image(front));
        lemma_decoded_entries_of_image::<E>(bytes, pos, front);
        assert(E::of_image(bytes.subrange(pos + (n - 1) * s, pos + n * s)) == lastv);
        assert(decoded_entries::<E>(bytes, pos, entries.len()) =~= entries);
    }
}

/// Appends the wire form of the entry sequence to `writer`: the 8-byte
/// little-endian count, then each entry's byte image in order.
fn write_entries<E: Plain>(writer: &mut Vec<u8>, entries: &Vec<E>)
    ensures
        final(writer)@ == old(writer)@ + entry_stream_image(entries@),
{
    let n: u64 = entries.len() as u64;
    n.append_image(writer);
    let mut i: usize = 0;
    while i < entries.len()
        invariant
            i <= entries@.len(),
            writer@ == old(writer)@ + u64_le_image(entries@.len() as u64) + entries_image(
                entries@.take(i as int),
            ),
        decreases entries@.len() - i,
    {
        let e: E = entries[i];
        e.append_image(writer);
        proof {
            assert(entries@.take(i + 1).drop_last() =~= entries@.take(i as int));
            assert(entries@.take(i + 1).last() == entries@[i as int]);
        }
        i = i + 1;
    }
    proof {
        assert(entries@.take(entries@.len() as int) =~= entries@);
        assert(writer@ =~= old(writer)@ + entry_stream_image(entries@));
    }
}

/// Reads a length-prefixed entry sequence from `bytes` starting at `pos`.
/// Fails with `TruncatedInput` exactly when the 8-byte count itself, or the
/// count of entries it announces, does not fit in the remaining bytes.
fn read_entries<E: Plain>(bytes: &[u8], pos: usize) -> (r: Result<(Vec<E>, usize), CodecError>)
    ensures
        match r {
            Ok(v) => {
                let count = u64_of_le(bytes@.subrange(pos as int, pos + 8)) as nat;
                &&& pos + 8 <= bytes@.len()
                &&& pos + 8 + count * E::spec_size() <= bytes@.len()
                &&& v.0@ == decoded_entries::<E>(bytes@, pos + 8, count)
                &&& v.0@.len() == count
                &&& v.1 == pos + 8 + count * E::spec_size()
            },
            Err(e) => {
                &&& e == CodecError::TruncatedInput
                &&& {
                    ||| pos + 8 > bytes@.len()
                    ||| pos + 8 + (u64_of_le(bytes@.subrange(pos as int, pos + 8)) as nat)
                        * E::spec_size() > bytes@.len()
                }
            },
        },
{
    let prefix = match Blob::<u64>::deserialize(bytes, pos) {
        Ok(p) => p,
        Err(e) => {
            return Err(e);
        },
    };
    let count: u64 = prefix.0.0;
    let p1: usize = prefix.1;
    let esize: usize = E::byte_size();
    proof {
        E::lemma_size();
    }
    let remaining: usize = bytes.len() - p1;
    let avail: usize = remaining / esize;
    proof {
        lemma_fundamental_div_mod(remaining as int, esize as int);
        lemma_mod_bound(remaining as int, esize as int);
        assert(avail == remaining as int / esize as int);
        assert(esize as int * (remaining as int / esize as int) <= remaining as int);
        assert(avail as int * esize as int <= remaining as int);
    }
    if count > avail as u64 {
        proof {
            assert((avail as int + 1) * esize as int == avail as int * esize as int
                + esize as int) by (nonlinear_arith);
            lemma_mul_inequality(avail as int + 1, count as int, esize as int);
        }
        return Err(CodecError::TruncatedInput);
    }
    proof {
        lemma_mul_inequality(count as int, avail as int, esize as int);
    }
    let count_us: usize = count as usize;
    let mut v: Vec<E> = Vec::new();
    let mut i: usize = 0;
    let mut q: usize = p1;
    while i < count_us
        invariant
            i <= count_us,
            esize == E::spec_size(),
            esize >= 1,
            count_us == count,
            p1 == pos + 8,
            p1 <= bytes@.len(),
            q == p1 + i * esize,
            p1 + count_us * esize <= bytes@.len(),
            bytes@.len() <= usize::MAX,
            v@ == decoded_entries::<E>(bytes@, p1 as int, i as nat),
            v@.len() == i,
        decreases count_us - i,
    {
        proof {
            assert((i as int + 1) * esize as int == i as int * esize as int + esize as int)
                by (nonlinear_arith);
            lemma_mul_inequality(i as int + 1, count_us as int, esize as int);
            assert(q + esize <= bytes@.len());
        }
        let e: E = E::from_image(bytes, q);
        v.push(e);
        q = q + esize;
        i = i + 1;
        proof {
            assert(v@ =~= decoded_entries::<E>(bytes@, p1 as int, i as nat));
        }
    }
    Ok((v, q))
}

/// A flexible-array structure: one header and an owned, ordered sequence
/// of entries. The constructors and the codec keep the count stored in the
/// header equal to the number of entries present (`wf`); the count is
/// derived from the entries, never taken from raw bytes.
pub struct FamBlob<H: FamHeader> {
    /// The header. Its count field is maintained by this library, never
    /// copied from a decoded byte image.
    pub header: H,
    /// The entries, in wire order.
    pub entries: Vec<H::Entry>,
}

/// The wire image of a flexible-array structure: the header's byte image,
/// then the length-prefixed entry stream.
pub open spec fn fam_image<H: FamHeader>(header: H, entries: Seq<H::Entry>) -> Seq<u8> {
    header.image() + entry_stream_image::<H::Entry>(entries)
}

impl<H: FamHeader> Clone for FamBlob<H> {
    /// A field-for-field copy of the wrapper.
    fn clone(&self) -> (r: Self)
        ensures
            r.header == self.header,
            r.entries@ == self.entries@,
    {
        let mut entries: Vec<H::Entry> = Vec::new();
        let mut i: usize = 0;
        while i < self.entries.len()
            invariant
                i <= self.entries@.len(),
                entries@ == self.entries@.take(i as int),
            decreases self.entries@.len() - i,
        {
            entries.push(self.entries[i]);
            i = i + 1;
        }
        proof {
            assert(self.entries@.take(self.entries@.len() as int) =~= self.entries@);
        }
        FamBlob { header: self.header, entries }
    }
}

impl<H: FamHeader> FamBlob<H> {
    /// The count stored in the header agrees with the entries present.
    pub open spec fn wf(self) -> bool {
        self.header.spec_count() == self.entries@.len()
    }

    /// Builds a wrapper from a header and the entries it is to front. The
    /// count stored in the new wrapper's header is derived from
    /// `entries.len()`; every other header field is taken from `header`.
    pub fn from_entries(header: &H, entries: Vec<H::Entry>) -> (r: Self)
        requires
            entries@.len() <= H::spec_max_count(),
        ensures
            r.header == header.spec_with_count(entries@.len() as u64),
            r.entries@ == entries@,
            r.wf(),
    {
        let n: u64 = entries.len() as u64;
        let h: H = header.with_count(n);
        proof {
            header.lemma_count_laws(n, n);
        }
        FamBlob { header: h, entries }
    }

    /// The externally visible entry count: the one stored in the header,
    /// which `wf` ties to the number of entries present.
    pub fn count(&self) -> (n: u64)
        ensures
            n == self.header.spec_count(),
    {
        self.header.count()
    }

    /// Writes the header's raw byte image, then the length-prefixed entry
    /// stream. The header always precedes the entries on the wire.
    pub fn serialize(&self, writer: &mut Vec<u8>)
        ensures
            final(writer)@ == old(writer)@ + fam_image(self.header, self.entries@),
    {
        Blob(self.header).serialize(writer);
        write_entries::<H::Entry>(writer, &self.entries);
        proof {
            assert(writer@ =~= old(writer)@ + fam_image(self.header, self.entries@));
        }
    }

    /// Reads a header, then the length-prefixed entry stream, and builds a
    /// new wrapper strictly from the decoded entries: the count stored in
    /// the result's header is derived from the number of entries decoded,
    /// never copied from the raw header bytes, while every other header
    /// field is taken from the decoded header. Bytes past the entry stream
    /// are left untouched. On any failure no wrapper is returned; when the
    /// decoded entries outnumber what the header's count field can
    /// represent, the failure is `CountOverflow`.
    pub fn deserialize(reader: &[u8], pos: usize) -> (r: Result<(Self, usize), CodecError>)
        ensures
            match r {
                Ok(v) => {
                    let hend = pos + H::spec_size();
                    let count = u64_of_le(reader@.subrange(hend, hend + 8)) as nat;
                    let esize = <H::Entry as Plain>::spec_size();
                    &&& hend + 8 <= reader@.len()
                    &&& hend + 8 + count * esize <= reader@.len()
                    &&& count <= H::spec_max_count()
                    &&& v.0.header == H::of_image(
                        reader@.subrange(pos as int, hend),
                    ).spec_with_count(count as u64)
                    &&& v.0.entries@ == decoded_entries::<H::Entry>(reader@, hend + 8, count)
                    &&& v.0.entries@.len() == count
                    &&& v.0.wf()
                    &&& v.1 == hend + 8 + count * esize
                },
                Err(e) => {
                    let hend = pos + H::spec_size();
                    let count = u64_of_le(reader@.subrange(hend, hend + 8)) as nat;
                    let esize = <H::Entry as Plain>::spec_size();
                    ||| (hend > reader@.len() && e == CodecError::TruncatedInput)
                    ||| (hend <= reader@.len() && hend + 8 > reader@.len() && e
                        == CodecError::EntryDecodeFailure(Box::new(CodecError::TruncatedInput)))
                    ||| (hend + 8 <= reader@.len() && hend + 8 + count * esize > reader@.len()
                        && e == CodecError::EntryDecodeFailure(
                        Box::new(CodecError::TruncatedInput),
                    ))
                    ||| (hend + 8 + count * esize <= reader@.len() && count
                        > H::spec_max_count() && e == CodecError::CountOverflow)
                },
            },
    {
        let hdr = match Blob::<H>::deserialize(reader, pos) {
            Ok(h) => h,
            Err(e) => {
                return Err(e);
            },
        };
        let header_raw: H = hdr.0.0;
        let p1: usize = hdr.1;
        let parsed = match read_entries::<H::Entry>(reader, p1) {
            Ok(p) => p,
            Err(e) => {
                return Err(CodecError::EntryDecodeFailure(Box::new(e)));
            },
        };
        let entries: Vec<H::Entry> = parsed.0;
        let end: usize = parsed.1;
        let n: u64 = entries.len() as u64;
        if n > H::max_count() {
            return Err(CodecError::CountOverflow);
        }
        let header: H = header_raw.with_count(n);
        proof {
            header_raw.lemma_count_laws(n, n);
        }
        Ok((FamBlob { header, entries }, end))
    }

    /// The schema version of the flexible-array wire format.
    pub fn version() -> (v: u16)
        ensures
            v == 1,
    {
        1
    }
}

/// Count authority: a header decoded from raw bytes and then given count
/// `n` reports exactly `n`, whatever count the raw bytes held.
pub proof fn lemma_count_authority<H: FamHeader>(header_bytes: Seq<u8>, n: u64)
    requires
        n <= H::spec_max_count(),
    ensures
        H::of_image(header_bytes).spec_with_count(n).spec_count() == n,
{
    let h = H::of_image(header_bytes);
    h.lemma_count_laws(n, n);
}

/// Round trip for flexible-array structures: encoding a wrapper built from
/// header `h` and entries `es`, then decoding the image, yields the same
/// entries and a header that agrees with `h` on every field but the count,
/// which is `es.len()`. Stated over the wire image and the decode spec
/// functions that `FamBlob::serialize` and `FamBlob::deserialize` are
/// specified with.
pub proof fn lemma_fam_round_trip<H: FamHeader>(h: H, es: Seq<H::Entry>)
    requires
        es.len() <= H::spec_max_count(),
    ensures
        ({
            let hc = h.spec_with_count(es.len() as u64);
            let img = fam_image::<H>(hc, es);
            let hsz = H::spec_size() as int;
            let esz = <H::Entry as Plain>::spec_size();
            &&& img.len() == hsz + 8 + es.len() * esz
            &&& H::of_image(img.subrange(0, hsz)) == hc
            &&& u64_of_le(img.subrange(hsz, hsz + 8)) == es.len()
            &&& decoded_entries::<H::Entry>(img, hsz + 8, es.len()) == es
            &&& hc.spec_count() == es.len()
            &&& hc.spec_with_count(h.spec_count()) == h
        }),
{
    let hc = h.spec_with_count(es.len() as u64);
    let img = fam_image::<H>(hc, es);
    let hsz = H::spec_size() as int;
    let esz = <H::Entry as Plain>::spec_size();
    let len64: u64 = es.len() as u64;
    hc.lemma_image();
    h.lemma_count_laws(len64, len64);
    h.lemma_count_laws(len64, h.spec_count());
    lemma_entries_image_len::<H::Entry>(es);
    len64.lemma_image();
    assert(img.subrange(0, hsz) =~= hc.image());
    assert(img.subrange(hsz, hsz + 8) =~= u64_le_image(len64));
    assert(img.subrange(hsz + 8, hsz + 8 + es.len() * esz) =~= entries_image(es));
    lemma_decoded_entries_of_image::<H::Entry>(img, hsz + 8, es);
}

} // verus!
