use famcodec::blob::Blob;
use famcodec::error::CodecError;
use famcodec::fam::FamBlob;
use famcodec::pair::PairHeader;
use famcodec::small::SmallHeader;

fn encoded_pair(a: u32, b: u32, entries: &[u32]) -> Vec<u8> {
    let header = PairHeader { a, b };
    let wrapper = FamBlob::from_entries(&header, entries.to_vec());
    let mut buf: Vec<u8> = Vec::new();
    wrapper.serialize(&mut buf);
    buf
}

#[test]
fn blob_u8_round_trip() {
    let mut buf: Vec<u8> = Vec::new();
    Blob(0xabu8).serialize(&mut buf);
    assert_eq!(buf, vec![0xab]);
    let (b, end) = Blob::<u8>::deserialize(&buf, 0).unwrap();
    assert_eq!(b.0, 0xab);
    assert_eq!(end, 1);
}

#[test]
fn blob_u16_round_trip() {
    let mut buf: Vec<u8> = Vec::new();
    Blob(0x1234u16).serialize(&mut buf);
    assert_eq!(buf, vec![0x34, 0x12]);
    let (b, _) = Blob::<u16>::deserialize(&buf, 0).unwrap();
    assert_eq!(b.0, 0x1234);
}

#[test]
fn blob_u32_round_trip() {
    let mut buf: Vec<u8> = Vec::new();
    Blob(0xdead_beefu32).serialize(&mut buf);
    assert_eq!(buf, vec![0xef, 0xbe, 0xad, 0xde]);
    let (b, end) = Blob::<u32>::deserialize(&buf, 0).unwrap();
    assert_eq!(b.0, 0xdead_beef);
    assert_eq!(end, 4);
}

#[test]
fn blob_u64_round_trip() {
    let mut buf: Vec<u8> = Vec::new();
    Blob(0x0102_0304_0506_0708u64).serialize(&mut buf);
    assert_eq!(buf, vec![0x08, 0x07, 0x06, 0x05, 0x04, 0x03, 0x02, 0x01]);
    let (b, _) = Blob::<u64>::deserialize(&buf, 0).unwrap();
    assert_eq!(b.0, 0x0102_0304_0506_0708);
}

#[test]
fn pair_header_image_is_a_then_b_little_endian() {
    let mut buf: Vec<u8> = Vec::new();
    Blob(PairHeader { a: 1, b: 2 }).serialize(&mut buf);
    assert_eq!(buf, vec![1, 0, 0, 0, 2, 0, 0, 0]);
    let (b, end) = Blob::<PairHeader>::deserialize(&buf, 0).unwrap();
    assert_eq!(b.0, PairHeader { a: 1, b: 2 });
    assert_eq!(end, 8);
}

#[test]
fn blob_deserialize_at_offset() {
    let mut buf: Vec<u8> = vec![0xff, 0xff];
    Blob(7u32).serialize(&mut buf);
    let (b, end) = Blob::<u32>::deserialize(&buf, 2).unwrap();
    assert_eq!(b.0, 7);
    assert_eq!(end, 6);
}

#[test]
fn blob_truncated_header_fails() {
    let buf: Vec<u8> = vec![0; 7];
    let r = Blob::<PairHeader>::deserialize(&buf, 0);
    match r {
        Err(e) => assert_eq!(e, CodecError::TruncatedInput),
        Ok(_) => panic!("decoding 7 bytes as an 8-byte header must fail"),
    }
}

#[test]
fn blob_does_not_validate_content() {
    let buf: Vec<u8> = vec![0xde, 0xad, 0xbe, 0xef, 0xba, 0xad, 0xf0, 0x0d];
    let (b, _) = Blob::<PairHeader>::deserialize(&buf, 0).unwrap();
    let mut again: Vec<u8> = Vec::new();
    b.serialize(&mut again);
    assert_eq!(again, buf);
}

#[test]
fn versions_are_one() {
    assert_eq!(Blob::<u32>::version(), 1);
    assert_eq!(FamBlob::<PairHeader>::version(), 1);
}

#[test]
fn from_entries_derives_count() {
    let header = PairHeader { a: 999, b: 4 };
    let wrapper = FamBlob::from_entries(&header, vec![1u32, 2u32]);
    assert_eq!(wrapper.count(), 2);
    assert_eq!(wrapper.header.a, 2);
    assert_eq!(wrapper.header.b, 4);
    assert_eq!(wrapper.entries, vec![1u32, 2u32]);
}

#[test]
fn fam_wire_layout() {
    let buf = encoded_pair(5, 7, &[10, 20, 30]);
    let mut expected: Vec<u8> = Vec::new();
    expected.extend_from_slice(&[3, 0, 0, 0]); // count field, derived from the entries
    expected.extend_from_slice(&[7, 0, 0, 0]); // the other header field
    expected.extend_from_slice(&[3, 0, 0, 0, 0, 0, 0, 0]); // 8-byte entry count prefix
    expected.extend_from_slice(&[10, 0, 0, 0, 20, 0, 0, 0, 30, 0, 0, 0]);
    assert_eq!(buf, expected);
}

#[test]
fn fam_round_trip_preserves_entries_and_header() {
    let buf = encoded_pair(5, 7, &[10, 20, 30]);
    let (w, end) = FamBlob::<PairHeader>::deserialize(&buf, 0).unwrap();
    assert_eq!(end, buf.len());
    assert_eq!(w.entries, vec![10u32, 20u32, 30u32]);
    assert_eq!(w.count(), 3);
    assert_eq!(w.header.b, 7);
}

#[test]
fn fam_empty_entries_round_trip() {
    let buf = encoded_pair(1, 2, &[]);
    assert_eq!(buf.len(), 16);
    let (w, end) = FamBlob::<PairHeader>::deserialize(&buf, 0).unwrap();
    assert_eq!(end, 16);
    assert_eq!(w.count(), 0);
    assert_eq!(w.entries, Vec::<u32>::new());
    assert_eq!(w.header.b, 2);
}

#[test]
fn fam_tampered_count_is_overridden() {
    let mut buf = encoded_pair(5, 7, &[10, 20]);
    // Tamper the count field inside the raw header bytes.
    buf[0] = 99;
    buf[1] = 0;
    buf[2] = 0;
    buf[3] = 0;
    let (w, _) = FamBlob::<PairHeader>::deserialize(&buf, 0).unwrap();
    assert_eq!(w.count(), 2);
    assert_eq!(w.header.a, 2);
    assert_eq!(w.header.b, 7);
    assert_eq!(w.entries, vec![10u32, 20u32]);
}

#[test]
fn fam_zero_count_in_header_is_overridden() {
    let mut buf = encoded_pair(5, 7, &[10, 20]);
    buf[0] = 0;
    let (w, _) = FamBlob::<PairHeader>::deserialize(&buf, 0).unwrap();
    assert_eq!(w.count(), 2);
}

#[test]
fn fam_truncated_header_fails() {
    let buf: Vec<u8> = vec![0; 5];
    match FamBlob::<PairHeader>::deserialize(&buf, 0) {
        Err(e) => assert_eq!(e, CodecError::TruncatedInput),
        Ok(_) => panic!("decoding 5 bytes as a wrapper must fail"),
    }
}

#[test]
fn fam_truncated_count_prefix_fails() {
    let buf: Vec<u8> = vec![0; 11]; // full header, then only 3 of the 8 prefix bytes
    match FamBlob::<PairHeader>::deserialize(&buf, 0) {
        Err(CodecError::EntryDecodeFailure(inner)) => {
            assert_eq!(*inner, CodecError::TruncatedInput);
        },
        _ => panic!("a cut-off count prefix must fail as an entry decode failure"),
    }
}

#[test]
fn fam_truncated_entries_fail() {
    let mut buf = encoded_pair(5, 7, &[10, 20, 30]);
    buf.truncate(buf.len() - 2);
    match FamBlob::<PairHeader>::deserialize(&buf, 0) {
        Err(CodecError::EntryDecodeFailure(inner)) => {
            assert_eq!(*inner, CodecError::TruncatedInput);
        },
        _ => panic!("a cut-off entry stream must fail as an entry decode failure"),
    }
}

#[test]
fn fam_decode_never_partial() {
    // The announced count asks for more entries than the stream holds.
    let buf = {
        let mut b = encoded_pair(0, 0, &[10, 20]);
        b[8] = 5; // raise the entry count prefix above the entries present
        b
    };
    assert!(FamBlob::<PairHeader>::deserialize(&buf, 0).is_err());
}

#[test]
fn fam_trailing_bytes_are_left_alone() {
    let mut buf = encoded_pair(5, 7, &[10, 20]);
    let wire_len = buf.len();
    buf.extend_from_slice(&[0xaa, 0xbb, 0xcc]);
    let (w, end) = FamBlob::<PairHeader>::deserialize(&buf, 0).unwrap();
    assert_eq!(end, wire_len);
    assert_eq!(w.entries, vec![10u32, 20u32]);
    assert_eq!(w.header.b, 7);
}

#[test]
fn small_header_round_trip() {
    let header = SmallHeader { n: 9, tag: 3 };
    let wrapper = FamBlob::from_entries(&header, vec![7u8, 8u8]);
    assert_eq!(wrapper.count(), 2);
    let mut buf: Vec<u8> = Vec::new();
    wrapper.serialize(&mut buf);
    assert_eq!(buf.len(), 4 + 8 + 2);
    let (w, end) = FamBlob::<SmallHeader>::deserialize(&buf, 0).unwrap();
    assert_eq!(end, buf.len());
    assert_eq!(w.entries, vec![7u8, 8u8]);
    assert_eq!(w.header.tag, 3);
    assert_eq!(w.count(), 2);
}

#[test]
fn fam_count_overflow_is_typed() {
    // 65536 one-byte entries decode, but a 2-byte count field cannot hold
    // 65536, so no wrapper can carry the derived count.
    let mut buf: Vec<u8> = vec![0, 0, 5, 0]; // header: n = 0, tag = 5
    buf.extend_from_slice(&[0, 0, 1, 0, 0, 0, 0, 0]); // entry count prefix: 65536
    buf.extend_from_slice(&vec![0u8; 65536]);
    match FamBlob::<SmallHeader>::deserialize(&buf, 0) {
        Err(e) => assert_eq!(e, CodecError::CountOverflow),
        Ok(_) => panic!("a count beyond the header's count field must fail"),
    }
}

#[test]
fn small_count_at_capacity_still_decodes() {
    let mut buf: Vec<u8> = vec![0, 0, 5, 0];
    buf.extend_from_slice(&[0xff, 0xff, 0, 0, 0, 0, 0, 0]); // entry count prefix: 65535
    buf.extend_from_slice(&vec![1u8; 65535]);
    let (w, end) = FamBlob::<SmallHeader>::deserialize(&buf, 0).unwrap();
    assert_eq!(end, buf.len());
    assert_eq!(w.count(), 65535);
    assert_eq!(w.header.n, 65535);
    assert_eq!(w.header.tag, 5);
}

#[test]
fn fam_wrapper_clone_matches() {
    let header = PairHeader { a: 0, b: 9 };
    let wrapper = FamBlob::from_entries(&header, vec![4u32, 5u32]);
    let copy = wrapper.clone();
    assert_eq!(copy.header, wrapper.header);
    assert_eq!(copy.entries, wrapper.entries);
}
