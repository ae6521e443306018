use parity_scale_codec::Decode;
use parity_scale_codec::Encode;
use test_verify::DecodeError;
use test_verify::EdSignature;

fn bytes_of(len: usize, salt: u8) -> Vec<u8> {
    let mut out: Vec<u8> = Vec::with_capacity(len);
    for i in 0..len {
        out.push((i % 251) as u8 ^ salt);
    }
    out
}

fn scale_bytes(record: &EdSignature) -> Vec<u8> {
    (record.signature_data.clone(), record.signer.clone()).encode()
}

#[test]
fn encode_small_record_exact_bytes() {
    let record = EdSignature::new(vec![1, 2, 3], vec![9]);
    assert_eq!(record.encode(), vec![12u8, 1, 2, 3, 4, 9]);
}

#[test]
fn encode_empty_record_exact_bytes() {
    let record = EdSignature::new(Vec::new(), Vec::new());
    assert_eq!(record.encode(), vec![0u8, 0]);
}

#[test]
fn encode_length_prefix_one_byte_upper_edge() {
    let record = EdSignature::new(bytes_of(63, 0), Vec::new());
    let out = record.encode();
    assert_eq!(out.len(), 1 + 63 + 1);
    assert_eq!(out[0], 252);
    assert_eq!(out[64], 0);
}

#[test]
fn encode_length_prefix_two_bytes_lower_edge() {
    let record = EdSignature::new(bytes_of(64, 0), bytes_of(32, 0));
    let out = record.encode();
    assert_eq!(out.len(), 2 + 64 + 1 + 32);
    assert_eq!(&out[0..2], &[0x01u8, 0x01]);
    assert_eq!(out[66], 128);
}

#[test]
fn encode_length_prefix_two_bytes_upper_edge() {
    let record = EdSignature::new(Vec::new(), bytes_of(16383, 0));
    let out = record.encode();
    assert_eq!(out.len(), 1 + 2 + 16383);
    assert_eq!(&out[0..3], &[0x00u8, 0xfd, 0xff]);
}

#[test]
fn encode_length_prefix_four_bytes_lower_edge() {
    let record = EdSignature::new(bytes_of(16384, 0), Vec::new());
    let out = record.encode();
    assert_eq!(out.len(), 4 + 16384 + 1);
    assert_eq!(&out[0..4], &[0x02u8, 0x00, 0x01, 0x00]);
}

#[test]
fn round_trip_over_many_lengths() {
    let lengths: [usize; 12] = [0, 1, 3, 32, 63, 64, 65, 255, 256, 16383, 16384, 70000];
    for a in lengths {
        for b in lengths {
            let record = EdSignature::new(bytes_of(a, 0x5a), bytes_of(b, 0xa5));
            let wire = record.encode();
            assert_eq!(EdSignature::decode(&wire), Ok(record));
        }
    }
}

#[test]
fn try_encode_gives_the_same_bytes() {
    let record = EdSignature::new(bytes_of(64, 1), bytes_of(32, 2));
    assert_eq!(record.try_encode(), Some(record.encode()));
}

#[test]
fn encode_is_deterministic() {
    let record = EdSignature::new(bytes_of(100, 1), bytes_of(200, 2));
    assert_eq!(record.encode(), record.clone().encode());
}

#[test]
fn encode_agrees_with_scale() {
    let lengths: [usize; 9] = [0, 1, 63, 64, 100, 16383, 16384, 16385, 70000];
    for a in lengths {
        for b in lengths {
            let record = EdSignature::new(bytes_of(a, 3), bytes_of(b, 7));
            assert_eq!(record.encode(), scale_bytes(&record));
        }
    }
}

#[test]
fn decode_agrees_with_scale() {
    let record = EdSignature::new(bytes_of(64, 3), bytes_of(32, 7));
    let wire = scale_bytes(&record);
    let theirs = <(Vec<u8>, Vec<u8>)>::decode(&mut &wire[..]).unwrap();
    let ours = EdSignature::decode(&wire).unwrap();
    assert_eq!(ours.signature_data, theirs.0);
    assert_eq!(ours.signer, theirs.1);
}

#[test]
fn decode_rejects_what_scale_rejects() {
    let buffers: [&[u8]; 10] = [
        &[],
        &[4],
        &[4, 1],
        &[5, 0, 0],
        &[1, 1, 0],
        &[2, 0, 0, 0, 0],
        &[3, 0, 0, 0, 0, 0],
        &[7, 0, 0, 0, 0, 1, 0],
        &[3, 0, 0, 0],
        &[0, 3, 0, 0, 0, 0x40],
    ];
    for wire in buffers {
        let theirs = <(Vec<u8>, Vec<u8>)>::decode(&mut &wire[..]);
        assert!(theirs.is_err());
        assert!(EdSignature::decode(wire).is_err());
    }
}

#[test]
fn decode_empty_buffer_is_truncated() {
    assert_eq!(EdSignature::decode(&[]), Err(DecodeError::Truncated));
}

#[test]
fn decode_missing_second_field_is_truncated() {
    assert_eq!(EdSignature::decode(&[4, 7]), Err(DecodeError::Truncated));
}

#[test]
fn decode_short_field_is_truncated() {
    assert_eq!(EdSignature::decode(&[8, 7]), Err(DecodeError::Truncated));
    assert_eq!(EdSignature::decode(&[0, 8, 7]), Err(DecodeError::Truncated));
}

#[test]
fn decode_cut_prefix_is_truncated() {
    assert_eq!(EdSignature::decode(&[1]), Err(DecodeError::Truncated));
    assert_eq!(EdSignature::decode(&[2, 0, 1]), Err(DecodeError::Truncated));
    assert_eq!(EdSignature::decode(&[3, 0, 0, 0]), Err(DecodeError::Truncated));
}

#[test]
fn decode_huge_declared_length_is_truncated() {
    assert_eq!(EdSignature::decode(&[3, 0, 0, 0, 0x40]), Err(DecodeError::Truncated));
    assert_eq!(EdSignature::decode(&[3, 0xff, 0xff, 0xff, 0xff, 1, 2]), Err(DecodeError::Truncated));
}

#[test]
fn decode_overlong_prefix_is_malformed() {
    assert_eq!(EdSignature::decode(&[5, 0]), Err(DecodeError::Malformed));
    assert_eq!(EdSignature::decode(&[0xfd, 0x00]), Err(DecodeError::Malformed));
    assert_eq!(EdSignature::decode(&[2, 0, 0, 0]), Err(DecodeError::Malformed));
    assert_eq!(EdSignature::decode(&[0xfe, 0xff, 0x00, 0x00]), Err(DecodeError::Malformed));
    assert_eq!(EdSignature::decode(&[3, 0xff, 0xff, 0xff, 0x3f]), Err(DecodeError::Malformed));
}

#[test]
fn decode_wide_prefix_is_malformed() {
    assert_eq!(EdSignature::decode(&[7, 0, 0, 0, 0, 1]), Err(DecodeError::Malformed));
    assert_eq!(EdSignature::decode(&[0xff]), Err(DecodeError::Malformed));
}

#[test]
fn decode_malformed_second_field() {
    assert_eq!(EdSignature::decode(&[4, 9, 5, 0]), Err(DecodeError::Malformed));
}

#[test]
fn decode_ignores_what_follows_the_record() {
    let record = EdSignature::new(vec![1, 2], vec![3]);
    let mut wire = record.encode();
    wire.extend_from_slice(&[0xde, 0xad]);
    assert_eq!(EdSignature::decode(&wire), Ok(record));
}

#[test]
fn decode_two_byte_prefix_exact_value() {
    let mut wire: Vec<u8> = vec![0x01, 0x01];
    wire.extend_from_slice(&bytes_of(64, 0));
    wire.push(0);
    let record = EdSignature::decode(&wire).unwrap();
    assert_eq!(record.signature_data, bytes_of(64, 0));
    assert_eq!(record.signer, Vec::<u8>::new());
}

#[test]
fn well_formed_needs_both_lengths() {
    assert!(EdSignature::new(bytes_of(64, 0), bytes_of(32, 0)).is_well_formed());
    assert!(!EdSignature::new(bytes_of(63, 0), bytes_of(32, 0)).is_well_formed());
    assert!(!EdSignature::new(bytes_of(64, 0), bytes_of(33, 0)).is_well_formed());
    assert!(!EdSignature::new(Vec::new(), Vec::new()).is_well_formed());
}
