use stark_trace::{
    AsBytes, ByteReader, ByteWriter, Commitments, DeserializationError, ProofSerializationError,
    Serializable, VdfInputs, Felt,
};

#[test]
fn writer_emits_little_endian() {
    let mut sink: Vec<u8> = Vec::new();
    sink.write_u8(0xab);
    sink.write_u16(0x1234);
    sink.write_u32(0x0a0b0c0d);
    sink.write_u64(0x0102030405060708);
    assert_eq!(
        sink,
        vec![
            0xab, 0x34, 0x12, 0x0d, 0x0c, 0x0b, 0x0a, 0x08, 0x07, 0x06, 0x05, 0x04, 0x03, 0x02,
            0x01
        ]
    );
}

#[test]
fn reader_round_trips_primitives() {
    let mut sink: Vec<u8> = Vec::new();
    sink.write_u8(7);
    sink.write_u16(65535);
    sink.write_u32(123456789);
    sink.write_u64(0xffff_ffff_ffff_fffe);
    sink.write_u8_slice(&[1, 2, 3]);
    let mut pos: usize = 0;
    assert_eq!(sink.read_u8(&mut pos), Ok(7));
    assert_eq!(sink.read_u16(&mut pos), Ok(65535));
    assert_eq!(sink.read_u32(&mut pos), Ok(123456789));
    assert_eq!(sink.read_u64(&mut pos), Ok(0xffff_ffff_ffff_fffe));
    let tail = sink.read_u8_vec(&mut pos, 3).unwrap();
    assert_eq!(tail, vec![1, 2, 3]);
    assert_eq!(pos, sink.len());
}

#[test]
fn reader_fails_with_eof_and_keeps_cursor() {
    let data: Vec<u8> = vec![1, 2, 3];
    let mut pos: usize = 2;
    assert_eq!(data.read_u16(&mut pos), Err(DeserializationError::UnexpectedEOF));
    assert_eq!(pos, 2);
    let mut pos: usize = 2;
    assert_eq!(data.read_u32(&mut pos), Err(DeserializationError::UnexpectedEOF));
    assert_eq!(pos, 2);
    let mut pos: usize = 3;
    assert_eq!(data.read_u8(&mut pos), Err(DeserializationError::UnexpectedEOF));
    assert_eq!(pos, 3);
    let mut pos: usize = 1;
    assert_eq!(data.read_u8_vec(&mut pos, 3), Err(DeserializationError::UnexpectedEOF));
    assert_eq!(pos, 1);
}

#[test]
fn serializable_values_concatenate() {
    let inputs = VdfInputs { seed: Felt::new(3), result: Felt::new(201) };
    let bytes = inputs.to_bytes();
    let mut expected = vec![3u8, 0, 0, 0, 0, 0, 0, 0];
    expected.extend_from_slice(&[201, 0, 0, 0, 0, 0, 0, 0]);
    assert_eq!(bytes, expected);

    let unit = ();
    assert_eq!(unit.to_bytes(), Vec::<u8>::new());

    let mut sink: Vec<u8> = Vec::new();
    let batch = [
        VdfInputs { seed: Felt::new(1), result: Felt::new(2) },
        VdfInputs { seed: Felt::new(3), result: Felt::new(4) },
    ];
    stark_trace::codec::write_batch_into(&batch, &mut sink);
    assert_eq!(sink.len(), 32);
    assert_eq!(sink[0], 1);
    assert_eq!(sink[8], 2);
    assert_eq!(sink[16], 3);
    assert_eq!(sink[24], 4);
}

#[test]
fn as_bytes_flattens_nested_rows() {
    let rows: Vec<Vec<u8>> = vec![vec![1, 2], vec![], vec![3, 4, 5]];
    assert_eq!(rows.as_bytes(), vec![1, 2, 3, 4, 5]);
}

fn digest(byte: u8, size: usize) -> Vec<u8> {
    vec![byte; size]
}

#[test]
fn commitments_round_trip() {
    let trace_root = digest(0x11, 4);
    let constraint_root = digest(0x22, 4);
    let fri_roots = vec![digest(0x33, 4), digest(0x44, 4)];
    let record = Commitments::new(trace_root.clone(), constraint_root.clone(), fri_roots.clone());

    let mut serialized: Vec<u8> = Vec::new();
    record.write_into(&mut serialized);
    assert_eq!(serialized.len(), 2 + 16);
    assert_eq!(&serialized[0..2], &[16, 0]);

    let mut pos: usize = 0;
    let recovered = Commitments::read_from(&serialized, &mut pos).unwrap();
    assert_eq!(pos, serialized.len());
    assert_eq!(recovered, record);

    let (t, c, f) = recovered.parse(2, 4).unwrap();
    assert_eq!(t, trace_root);
    assert_eq!(c, constraint_root);
    assert_eq!(f, fri_roots);
}

#[test]
fn commitments_round_trip_without_fri_roots() {
    let record = Commitments::new(digest(0x55, 8), digest(0x66, 8), Vec::new());
    let mut serialized: Vec<u8> = vec![0xff];
    record.write_into(&mut serialized);
    // Reading starts after the unrelated leading byte.
    let mut pos: usize = 1;
    let recovered = Commitments::read_from(&serialized, &mut pos).unwrap();
    assert_eq!(pos, serialized.len());
    let (t, c, f) = recovered.parse(0, 8).unwrap();
    assert_eq!(t, digest(0x55, 8));
    assert_eq!(c, digest(0x66, 8));
    assert!(f.is_empty());
}

#[test]
fn commitments_add_appends_digests() {
    let mut record = Commitments::default();
    record.add(&[0xaa; 8]);
    record.add(&[0xbb; 8]);
    let (t, c, f) = record.parse(0, 8).unwrap();
    assert_eq!(t, vec![0xaa; 8]);
    assert_eq!(c, vec![0xbb; 8]);
    assert!(f.is_empty());
}

#[test]
fn truncated_record_fails_to_read() {
    let record = Commitments::new(digest(1, 4), digest(2, 4), vec![digest(3, 4)]);
    let mut serialized: Vec<u8> = Vec::new();
    record.write_into(&mut serialized);
    serialized.pop();
    let mut pos: usize = 0;
    assert_eq!(
        Commitments::read_from(&serialized, &mut pos),
        Err(DeserializationError::UnexpectedEOF)
    );
}

#[test]
fn short_blob_fails_to_parse() {
    let record = Commitments::new(digest(1, 4), digest(2, 4), vec![digest(3, 4)]);
    // Three digests are stored; asking for four runs out of bytes.
    assert_eq!(
        record.parse(2, 4),
        Err(ProofSerializationError::FailedToParseCommitments(
            DeserializationError::UnexpectedEOF
        ))
    );
}

#[test]
fn long_blob_fails_to_parse_with_counts() {
    let record = Commitments::new(digest(1, 4), digest(2, 4), vec![digest(3, 4)]);
    // Three digests are stored; asking for two leaves four bytes unread.
    assert_eq!(
        record.parse(0, 4),
        Err(ProofSerializationError::TooManyCommitmentBytes(8, 12))
    );
}
