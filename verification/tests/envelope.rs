use z85_codec::{
    base64_to_z85, base64_to_z85_with_options, z85_to_base64_with_options, ConversionOptions,
    ConvertError, DataType,
};

#[test]
fn test_z85_to_base64_with_options_all_branches() {
    let base64 = "SGVsbG8gV29ybGQ=";
    let z85_data = base64_to_z85(base64).unwrap();

    // Raw -> Raw (default behavior)
    let opts = ConversionOptions::new(DataType::Raw, DataType::Raw);
    let result = z85_to_base64_with_options(&z85_data, Some(opts)).unwrap();
    assert_eq!(result, base64);

    // DataURL -> DataURL
    let input = format!("data:image/png;z85,{}", z85_data);
    let opts = ConversionOptions::new(DataType::DataURL, DataType::DataURL);
    let result = z85_to_base64_with_options(&input, Some(opts)).unwrap();
    assert_eq!(result, "data:image/png;base64,SGVsbG8gV29ybGQ=");

    // DataURL -> Raw
    let opts = ConversionOptions::new(DataType::DataURL, DataType::Raw);
    let result = z85_to_base64_with_options(&input, Some(opts)).unwrap();
    assert_eq!(result, base64);

    // Raw -> DataURL (should error)
    let opts = ConversionOptions::new(DataType::Raw, DataType::DataURL);
    let result = z85_to_base64_with_options(&z85_data, Some(opts));
    assert!(result.is_err());
}

#[test]
fn test_base64_to_z85_with_options_all_branches() {
    let base64 = "SGVsbG8gV29ybGQ=";

    // Raw -> Raw (default behavior)
    let opts = ConversionOptions::new(DataType::Raw, DataType::Raw);
    let result = base64_to_z85_with_options(base64, Some(opts)).unwrap();
    assert!(result.contains(':'));
    let back = z85_to_base64_with_options(&result, None).unwrap();
    assert_eq!(back, base64);

    // DataURL -> DataURL
    let input = format!("data:image/jpeg;base64,{}", base64);
    let opts = ConversionOptions::new(DataType::DataURL, DataType::DataURL);
    let result = base64_to_z85_with_options(&input, Some(opts)).unwrap();
    assert!(result.starts_with("data:image/jpeg;z85,"));
    assert!(result.contains(':'));

    // DataURL -> Raw
    let opts = ConversionOptions::new(DataType::DataURL, DataType::Raw);
    let result = base64_to_z85_with_options(&input, Some(opts)).unwrap();
    assert!(!result.starts_with("data:"));
    assert!(result.contains(':'));

    // Raw -> DataURL (should error)
    let opts = ConversionOptions::new(DataType::Raw, DataType::DataURL);
    let result = base64_to_z85_with_options(base64, Some(opts));
    assert!(result.is_err());
}

#[test]
fn test_dataurl_error_cases() {
    // Invalid data URL format
    let opts = ConversionOptions::new(DataType::DataURL, DataType::DataURL);
    let result = z85_to_base64_with_options("not_a_dataurl", Some(opts));
    assert!(result.is_err());

    // Missing ;z85, marker
    let opts = ConversionOptions::new(DataType::DataURL, DataType::DataURL);
    let result = z85_to_base64_with_options("data:image/png;base64,data", Some(opts));
    assert!(result.is_err());

    // Invalid data URL for base64
    let opts = ConversionOptions::new(DataType::DataURL, DataType::DataURL);
    let result = base64_to_z85_with_options("not_a_dataurl", Some(opts));
    assert!(result.is_err());

    // Missing ;base64, marker
    let opts = ConversionOptions::new(DataType::DataURL, DataType::DataURL);
    let result = base64_to_z85_with_options("data:image/png;z85,data", Some(opts));
    assert!(result.is_err());
}

#[test]
fn test_dataurl_edge_cases() {
    // DataURL -> Raw with invalid format
    let opts = ConversionOptions::new(DataType::DataURL, DataType::Raw);
    let result = z85_to_base64_with_options("not_data_url", Some(opts));
    assert!(result.is_err());
    assert_eq!(result.err().unwrap().message(), "Invalid data URL format");

    // DataURL -> Raw with missing marker
    let opts = ConversionOptions::new(DataType::DataURL, DataType::Raw);
    let result = z85_to_base64_with_options("data:image/png;base64,data", Some(opts));
    assert!(result.is_err());
    assert_eq!(
        result.err().unwrap().message(),
        "Data URL does not contain ;z85, marker"
    );

    // base64 DataURL -> Raw with invalid format
    let opts = ConversionOptions::new(DataType::DataURL, DataType::Raw);
    let result = base64_to_z85_with_options("not_data_url", Some(opts));
    assert!(result.is_err());
    assert_eq!(result.err().unwrap().message(), "Invalid data URL format");

    // base64 DataURL -> Raw with missing marker
    let opts = ConversionOptions::new(DataType::DataURL, DataType::Raw);
    let result = base64_to_z85_with_options("data:image/png;z85,data", Some(opts));
    assert!(result.is_err());
    assert_eq!(
        result.err().unwrap().message(),
        "Data URL does not contain ;base64, marker"
    );
}

#[test]
fn test_more_mime_types() {
    let mime_types = vec![
        "application/json",
        "text/html",
        "video/mp4",
        "audio/mpeg",
        "application/octet-stream",
    ];

    for mime_type in mime_types {
        // Z85 DataURL -> Base64 DataURL
        let z85_data = base64_to_z85("SGVsbG8gV29ybGQ=").unwrap();
        let input = format!("data:{};z85,{}", mime_type, z85_data);
        let opts = ConversionOptions::new(DataType::DataURL, DataType::DataURL);
        let result = z85_to_base64_with_options(&input, Some(opts)).unwrap();
        assert_eq!(result, format!("data:{};base64,SGVsbG8gV29ybGQ=", mime_type));

        // Base64 DataURL -> Z85 DataURL
        let input = format!("data:{};base64,SGVsbG8gV29ybGQ=", mime_type);
        let opts = ConversionOptions::new(DataType::DataURL, DataType::DataURL);
        let result = base64_to_z85_with_options(&input, Some(opts)).unwrap();
        assert!(result.starts_with(&format!("data:{};z85,", mime_type)));
    }
}

#[test]
fn test_data_url_round_trip_preserves_mime() {
    // A full round trip of a data URL returns the original string, MIME type
    // included.
    let original = "data:text/plain;base64,SGVsbG8gV29ybGQ=";
    let opts = ConversionOptions::new(DataType::DataURL, DataType::DataURL);
    let as_z85 = base64_to_z85_with_options(original, Some(opts)).unwrap();
    assert_eq!(as_z85, "data:text/plain;z85,nm=QNzY&b1A+]m^:1");
    let opts = ConversionOptions::new(DataType::DataURL, DataType::DataURL);
    let back = z85_to_base64_with_options(&as_z85, Some(opts)).unwrap();
    assert_eq!(back, original);
}

#[test]
fn test_raw_to_data_url_error_variant() {
    // The (Raw, DataURL) direction always fails: no MIME type is known.
    let opts = ConversionOptions::new(DataType::Raw, DataType::DataURL);
    let result = z85_to_base64_with_options("nm=QNzY&b1A+]m^:1", Some(opts));
    assert!(matches!(result, Err(ConvertError::UnsupportedDirection)));
    let opts = ConversionOptions::new(DataType::Raw, DataType::DataURL);
    let result = base64_to_z85_with_options("SGVsbG8gV29ybGQ=", Some(opts));
    assert!(matches!(result, Err(ConvertError::UnsupportedDirection)));
    assert_eq!(
        result.err().unwrap().message(),
        "Cannot convert raw to data URL: MIME type unknown"
    );
}

#[test]
fn test_marker_mismatch_error_variants() {
    // A wrong marker is reported as the marker-specific error, not as the
    // generic prefix error.
    let opts = ConversionOptions::new(DataType::DataURL, DataType::DataURL);
    let result = z85_to_base64_with_options("data:image/png;base64,SGVsbG8=", Some(opts));
    assert!(matches!(result, Err(ConvertError::MissingZ85Marker)));
    let opts = ConversionOptions::new(DataType::DataURL, DataType::DataURL);
    let result = base64_to_z85_with_options("data:image/png;z85,abcde:0", Some(opts));
    assert!(matches!(result, Err(ConvertError::MissingBase64Marker)));
    let opts = ConversionOptions::new(DataType::DataURL, DataType::DataURL);
    let result = base64_to_z85_with_options("nonsense", Some(opts));
    assert!(matches!(result, Err(ConvertError::NotDataUrl)));
}

#[test]
fn test_options_absent_means_raw_to_raw() {
    let result = z85_to_base64_with_options("nm=QNzY&b1A+]m^:1", None).unwrap();
    assert_eq!(result, "SGVsbG8gV29ybGQ=");
    let result = base64_to_z85_with_options("SGVsbG8gV29ybGQ=", None).unwrap();
    assert_eq!(result, "nm=QNzY&b1A+]m^:1");
}
