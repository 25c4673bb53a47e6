use base64::Engine;
use z85_codec::{base64_to_z85, decode_z85, encode_z85, z85_to_base64, ConvertError};

#[test]
fn test_z85_to_base64_basic() {
    // "Hello World" encoded in Z85 with padding
    let z85_with_padding = "nm=QNzY&b1A+]m^:1";
    let expected = "SGVsbG8gV29ybGQ=";
    let result = z85_to_base64(z85_with_padding).unwrap();
    assert_eq!(result, expected);
}

#[test]
fn test_base64_to_z85_basic() {
    let base64 = "SGVsbG8gV29ybGQ=";
    let result = base64_to_z85(base64).unwrap();
    // Verify it's in the format "z85data:padding"
    assert!(result.contains(':'));
    // Verify roundtrip
    let back = z85_to_base64(&result).unwrap();
    assert_eq!(back, base64);
}

#[test]
fn test_multiple_colons_in_z85() {
    // Data with multiple colons to verify the last-colon split
    let z85_data = "nm=QNzY&b1A+]m^"; // Valid Z85 data
    let z85_with_colons = format!("data:with:{}:1", z85_data);
    let result = z85_to_base64(&z85_with_colons);
    // Should split at the LAST colon and decode successfully
    assert!(result.is_ok());
}

#[test]
fn test_z85_to_base64_errors() {
    // Missing colon
    let result = z85_to_base64("no_colon_here");
    assert!(result.is_err());
    assert_eq!(
        result.err().unwrap().message(),
        "Invalid format: expected 'z85_data:padding'"
    );

    // Invalid padding number
    let result = z85_to_base64("data:not_a_number");
    assert!(result.is_err());
    assert_eq!(result.err().unwrap().message(), "Invalid padding number");

    // Invalid Z85 data
    let result = z85_to_base64("invalid_z85!:0");
    assert!(result.is_err());
    assert!(result.err().unwrap().message().contains("Z85 decode error"));
}

#[test]
fn test_base64_to_z85_errors() {
    // Invalid base64
    let result = base64_to_z85("not valid base64!");
    assert!(result.is_err());
    assert!(result.err().unwrap().message().contains("Base64 decode error"));
}

#[test]
fn test_various_data_sizes() {
    // Various data sizes to ensure proper padding handling
    let data_100 = vec![b'X'; 100];
    let data_1000 = vec![b'Y'; 1000];
    let data_10000 = vec![b'Z'; 10000];

    let test_data = vec![
        b"" as &[u8],
        b"A",
        b"AB",
        b"ABC",
        b"ABCD",
        b"ABCDE",
        b"ABCDEF",
        b"ABCDEFG",
        b"ABCDEFGH",
        &data_100,
        &data_1000,
        &data_10000,
    ];

    for data in test_data {
        // Encode/decode roundtrip
        let encoded = encode_z85(data);
        let decoded = decode_z85(&encoded).unwrap();
        assert_eq!(data, decoded.as_slice(), "Failed for data size: {}", data.len());

        // Base64 conversion roundtrip
        let base64 = base64::engine::general_purpose::STANDARD.encode(data);
        let z85 = base64_to_z85(&base64).unwrap();
        let back_to_base64 = z85_to_base64(&z85).unwrap();
        assert_eq!(
            base64,
            back_to_base64,
            "Failed base64 roundtrip for data size: {}",
            data.len()
        );
    }
}

#[test]
fn test_exact_base64_to_z85_vector() {
    // An exact expected value; fails if either codec step handed its input
    // back unchanged.
    let result = base64_to_z85("SGVsbG8gV29ybGQ=").unwrap();
    assert_eq!(result, "nm=QNzY&b1A+]m^:1");
}

#[test]
fn test_z85_text_decodes_to_hello_world_bytes() {
    // The Z85 text converts to Base64 text, which decodes to "Hello World".
    let base64 = z85_to_base64("nm=QNzY&b1A+]m^:1").unwrap();
    assert_eq!(base64, "SGVsbG8gV29ybGQ=");
    let bytes = base64::engine::general_purpose::STANDARD
        .decode(&base64)
        .unwrap();
    assert_eq!(bytes.as_slice(), b"Hello World");
}

#[test]
fn test_base64_to_z85_error_variant() {
    let result = base64_to_z85("not valid base64!");
    assert!(matches!(result, Err(ConvertError::Base64Decode)));
}
