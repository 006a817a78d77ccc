//! The padded blob container: the byte round trip, the length trailer,
//! and each way a malformed blob is rejected.

use amt::encoder::{
    get_actual_length, EncoderError, RawData, MAX_BLOB_SIZE, MAX_RAW_DATA_SIZE,
};

#[test]
fn test_raw_data_round_trip() {
    let data: Vec<u8> = (0..1000u32).map(|i| (i % 251) as u8).collect();
    let raw = RawData::try_from_bytes(&data).unwrap();
    assert_eq!(raw.as_bytes(), &data[..]);
}

#[test]
fn test_raw_data_empty() {
    let raw = RawData::default();
    assert_eq!(raw.as_bytes().len(), 0);
}

#[test]
fn test_raw_data_too_large() {
    let data = vec![1u8; MAX_RAW_DATA_SIZE + 1];
    let r = RawData::try_from_bytes(&data);
    assert_eq!(
        r.err(),
        Some(EncoderError::TooLargeBlob {
            actual: MAX_RAW_DATA_SIZE + 1,
            expected_max: MAX_RAW_DATA_SIZE,
        })
    );
}

#[test]
fn test_raw_data_max_size() {
    let data = vec![7u8; MAX_RAW_DATA_SIZE];
    let raw = RawData::try_from_bytes(&data).unwrap();
    assert_eq!(raw.as_bytes().len(), MAX_RAW_DATA_SIZE);
    assert_eq!(raw.as_bytes(), &data[..]);
}

#[test]
fn test_try_from_padded_wrong_length() {
    let input = vec![0u8; MAX_BLOB_SIZE - 1];
    assert!(RawData::try_from_padded(input).is_err());
}

#[test]
fn test_try_from_padded_bad_length_field() {
    let mut input = vec![0u8; MAX_BLOB_SIZE];
    // A trailer beyond the raw capacity.
    for i in 0..4 {
        input[MAX_RAW_DATA_SIZE + i] = 0xff;
    }
    assert!(RawData::try_from_padded(input).is_err());
}

#[test]
fn test_try_from_padded_nonzero_padding() {
    let mut input = vec![0u8; MAX_BLOB_SIZE];
    // Length 8, but a stray byte after it.
    input[MAX_RAW_DATA_SIZE] = 8;
    input[100] = 1;
    assert!(RawData::try_from_padded(input).is_err());
}

#[test]
fn test_try_from_padded_accepts_valid() {
    let mut input = vec![0u8; MAX_BLOB_SIZE];
    input[MAX_RAW_DATA_SIZE] = 3;
    input[0] = 10;
    input[1] = 20;
    input[2] = 30;
    let raw = RawData::try_from_padded(input).unwrap();
    assert_eq!(raw.as_bytes(), &[10u8, 20, 30][..]);
}

#[test]
fn test_get_actual_length_reads_trailer() {
    let mut input = vec![0u8; MAX_BLOB_SIZE];
    input[MAX_RAW_DATA_SIZE] = 0x01;
    input[MAX_RAW_DATA_SIZE + 1] = 0x02;
    // 0x0201 = 513
    assert_eq!(get_actual_length(&input), Ok(513));
}
