use vdb_dense::codec::decode;
use vdb_dense::codec::encode;
use vdb_dense::dims::Dimensions;

#[test]
fn encode_exact_bytes_single_cell() {
    let d = Dimensions::new(1, 1, 1).unwrap();
    let cells = vec![1.5f64.to_bits()];
    let bytes = encode(&d, &cells);
    let expected = vec![
        1, 0, 0, 0, // size_x
        1, 0, 0, 0, // size_y
        1, 0, 0, 0, // size_z
        0x00, 0x00, 0x00, 0x00, 0x00, 0x00, 0xf8, 0x3f, // 1.5 as f64, little-endian
    ];
    assert_eq!(bytes, expected);
}

#[test]
fn encode_header_then_row_major_cells() {
    let d = Dimensions::new(2, 1, 1).unwrap();
    let cells = vec![0.0f64.to_bits(), 2.0f64.to_bits()];
    let bytes = encode(&d, &cells);
    assert_eq!(bytes.len(), 12 + 16);
    assert_eq!(&bytes[0..4], &[2, 0, 0, 0]);
    assert_eq!(&bytes[12..20], &[0; 8]);
    assert_eq!(&bytes[20..28], &2.0f64.to_le_bytes());
}

#[test]
fn encode_empty_shape_is_header_only() {
    let d = Dimensions::new(0, 0, 0).unwrap();
    let bytes = encode(&d, &Vec::new());
    assert_eq!(bytes, vec![0; 12]);
}

#[test]
fn round_trip_recovers_shape_and_cells() {
    let d = Dimensions::new(2, 3, 4).unwrap();
    let cells: Vec<u64> = (0..24).map(|i| (i as f64 * 0.25 - 1.5).to_bits()).collect();
    let bytes = encode(&d, &cells);
    let (d2, cells2) = decode(&bytes).expect("a fresh encoding must decode");
    assert_eq!(d2, d);
    assert_eq!(cells2, cells);
}

#[test]
fn round_trip_is_bit_exact() {
    let d = Dimensions::new(3, 1, 1).unwrap();
    let cells = vec![(-0.0f64).to_bits(), f64::NAN.to_bits(), f64::INFINITY.to_bits()];
    let bytes = encode(&d, &cells);
    let (_, cells2) = decode(&bytes).expect("a fresh encoding must decode");
    assert_eq!(cells2, cells);
}

#[test]
fn decode_rejects_short_buffer() {
    assert!(decode(&vec![1, 0, 0]).is_none());
}

#[test]
fn decode_rejects_payload_length_mismatch() {
    let d = Dimensions::new(1, 1, 1).unwrap();
    let mut bytes = encode(&d, &vec![0u64]);
    bytes.pop();
    assert!(decode(&bytes).is_none());
}

#[test]
fn decode_rejects_negative_size_field() {
    // 0xffffffff little-endian in the first size field reads as a negative
    // int32, which no well-formed header holds.
    let mut bytes = vec![0xff, 0xff, 0xff, 0xff];
    bytes.extend_from_slice(&[1, 0, 0, 0]);
    bytes.extend_from_slice(&[1, 0, 0, 0]);
    assert!(decode(&bytes).is_none());
}
