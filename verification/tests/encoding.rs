use trino_rust_client::encoding::SpoolingEncoding;
use trino_rust_client::error::Error;

#[test]
fn test_encoding_try_from() {
    assert_eq!(
        SpoolingEncoding::parse("json").unwrap(),
        SpoolingEncoding::Json
    );
    assert_eq!(
        SpoolingEncoding::parse("json+zstd").unwrap(),
        SpoolingEncoding::JsonZstd
    );
    assert_eq!(
        SpoolingEncoding::parse("json+lz4").unwrap(),
        SpoolingEncoding::JsonLz4
    );
    assert!(SpoolingEncoding::parse("unknown").is_err());
}

#[test]
fn test_encoding_as_str() {
    assert_eq!(SpoolingEncoding::Json.as_str(), "json");
    assert_eq!(SpoolingEncoding::JsonZstd.as_str(), "json+zstd");
    assert_eq!(SpoolingEncoding::JsonLz4.as_str(), "json+lz4");
}

#[test]
fn test_encoding_display() {
    assert_eq!(SpoolingEncoding::Json.as_str().to_string(), "json");
    assert_eq!(SpoolingEncoding::JsonZstd.as_str().to_string(), "json+zstd");
    assert_eq!(SpoolingEncoding::JsonLz4.as_str().to_string(), "json+lz4");
}

#[test]
fn test_encoding_is_compressed() {
    assert!(!SpoolingEncoding::Json.is_compressed());
    assert!(SpoolingEncoding::JsonZstd.is_compressed());
    assert!(SpoolingEncoding::JsonLz4.is_compressed());
}

#[test]
fn test_encoding_resolve_default() {
    assert_eq!(SpoolingEncoding::resolve("json"), SpoolingEncoding::Json);
    assert_eq!(
        SpoolingEncoding::resolve("not-an-encoding"),
        SpoolingEncoding::JsonZstd
    );
}

#[test]
fn test_encoding_parse_error_message() {
    match SpoolingEncoding::parse("unknown") {
        Err(Error::InternalError(m)) => {
            assert!(m.contains("Unsupported spooling encoding"));
        }
        other => panic!("expected an internal error, got {:?}", other),
    }
}
