use rdr2photobackup::codec::convert_to_jpeg;
use rdr2photobackup::codec::extract_metadata;
use rdr2photobackup::codec::reencode_payload;
use rdr2photobackup::codec::FormatError;
use rdr2photobackup::codec::HEADER_LEN;
use rdr2photobackup::codec::PAYLOAD_OFFSET;

/// A 54-byte header whose text is `text` padded with NULs.
fn header_bytes(text: &str) -> Vec<u8> {
    let mut h: Vec<u8> = text.as_bytes().to_vec();
    assert!(h.len() <= HEADER_LEN);
    while h.len() < HEADER_LEN {
        h.push(0u8);
    }
    h
}

/// A full asset: the given header text, filler up to the payload offset,
/// then the given payload bytes.
fn asset_bytes(text: &str, payload: &[u8]) -> Vec<u8> {
    let mut b = header_bytes(text);
    while b.len() < PAYLOAD_OFFSET {
        b.push(0xABu8);
    }
    b.extend_from_slice(payload);
    b
}

const DATED_HEADER: &str = "x 09/29/2024 \u{4} PHOTO - j";

#[test]
fn extract_metadata_concrete() {
    let bytes = asset_bytes(DATED_HEADER, &[1, 2, 3]);
    let meta = extract_metadata(&bytes).unwrap();
    assert_eq!(meta.month, "09");
    assert_eq!(meta.day, "29");
    assert_eq!(meta.year, "2024");
}

#[test]
fn extract_metadata_without_marker() {
    // The marker is absent: the whole stripped text bears the date.
    let bytes = header_bytes("a 07/15/2023 b");
    let meta = extract_metadata(&bytes).unwrap();
    assert_eq!(meta.month, "07");
    assert_eq!(meta.day, "15");
    assert_eq!(meta.year, "2023");
}

#[test]
fn extract_metadata_is_idempotent() {
    let bytes = asset_bytes(DATED_HEADER, &[9, 9, 9]);
    let m1 = extract_metadata(&bytes).unwrap();
    let m2 = extract_metadata(&bytes).unwrap();
    assert_eq!(m1.year, m2.year);
    assert_eq!(m1.month, m2.month);
    assert_eq!(m1.day, m2.day);
}

#[test]
fn invalid_utf8_header_is_rejected() {
    let mut bytes = header_bytes(DATED_HEADER);
    bytes[0] = 0xFFu8;
    assert_eq!(extract_metadata(&bytes).unwrap_err(), FormatError::InvalidUtf8);
}

#[test]
fn missing_segments_error() {
    let bytes = header_bytes("no date in here");
    assert_eq!(extract_metadata(&bytes).unwrap_err(), FormatError::MissingDateSegments);
    let one_slash = header_bytes("only/one");
    assert_eq!(extract_metadata(&one_slash).unwrap_err(), FormatError::MissingDateSegments);
}

#[test]
fn empty_month_error() {
    let bytes = header_bytes(" /29/2024");
    assert_eq!(extract_metadata(&bytes).unwrap_err(), FormatError::EmptyMonth);
}

#[test]
fn empty_day_error() {
    let bytes = header_bytes("x 09//2024");
    assert_eq!(extract_metadata(&bytes).unwrap_err(), FormatError::EmptyDay);
}

#[test]
fn empty_year_error() {
    let bytes = header_bytes("x 09/29/ ");
    assert_eq!(extract_metadata(&bytes).unwrap_err(), FormatError::EmptyYear);
}

#[test]
fn reencode_round_trip() {
    // The written bytes equal bytes[PAYLOAD_OFFSET..] of the asset, exactly.
    let payload = [7u8, 0, 255, 42, 13, 13];
    let bytes = asset_bytes(DATED_HEADER, &payload);
    let out = reencode_payload(&bytes).unwrap();
    assert_eq!(out, bytes[PAYLOAD_OFFSET..].to_vec());
    assert_eq!(out, payload.to_vec());
}

#[test]
fn reencode_of_exact_offset_is_empty() {
    let bytes = asset_bytes(DATED_HEADER, &[]);
    assert_eq!(bytes.len(), PAYLOAD_OFFSET);
    let out = reencode_payload(&bytes).unwrap();
    assert!(out.is_empty());
}

#[test]
fn reencode_rejects_short_asset() {
    // An asset that ends before the payload offset is refused rather than
    // read as an empty image.
    let mut bytes = header_bytes(DATED_HEADER);
    while bytes.len() < PAYLOAD_OFFSET - 1 {
        bytes.push(0u8);
    }
    assert_eq!(reencode_payload(&bytes).unwrap_err(), FormatError::PayloadTooShort);
    assert_eq!(
        convert_to_jpeg(&bytes, "PRDR34088256_1").unwrap_err(),
        FormatError::PayloadTooShort
    );
}

#[test]
fn converts_to_jpeg() {
    let payload = [0xFFu8, 0xD8, 0xFF, 0xE0];
    let bytes = asset_bytes(DATED_HEADER, &payload);
    let img = convert_to_jpeg(&bytes, "PRDR34088256_1").unwrap();
    assert_eq!(img.file_name, "20240929_PRDR34088256_1.jpeg");
    assert_eq!(img.data, payload.to_vec());
}

#[test]
fn nul_stripping_joins_text() {
    // The header text is NUL-interleaved; stripping the NULs yields the
    // date-bearing text.
    let bytes = header_bytes("a\0 \00\09\0/\02\09\0/\02\00\02\04\0 \0b");
    let meta = extract_metadata(&bytes).unwrap();
    assert_eq!(meta.month, "09");
    assert_eq!(meta.day, "29");
    assert_eq!(meta.year, "2024");
}

#[test]
fn marker_cuts_off_trailing_text() {
    // A date standing after the marker is not seen: only the prefix
    // before the marker bears the date.
    let bytes = header_bytes("abc \u{4} PHOTO - 09/29/2024");
    assert_eq!(extract_metadata(&bytes).unwrap_err(), FormatError::MissingDateSegments);
}

#[test]
fn converted_name_with_two_digit_year() {
    let bytes = asset_bytes("x 09/29/24 \u{4} PHOTO - j", &[5u8, 6]);
    let img = convert_to_jpeg(&bytes, "PRDR34088256_1").unwrap();
    assert_eq!(img.file_name, "240929_PRDR34088256_1.jpeg");
}

#[test]
fn convert_reports_format_error() {
    let payload = [1u8, 2, 3];
    let bytes = asset_bytes("nothing dated", &payload);
    assert_eq!(
        convert_to_jpeg(&bytes, "PRDR34088256_1").unwrap_err(),
        FormatError::MissingDateSegments
    );
}
