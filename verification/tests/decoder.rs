use base64::Engine;
use trino_rust_client::codec::{decode_inline_segment, decompress_segment_bytes};
use trino_rust_client::encoding::SpoolingEncoding;
use trino_rust_client::error::Error;

fn b64(data: &[u8]) -> String {
    base64::engine::general_purpose::STANDARD.encode(data)
}

#[test]
fn test_decode_uncompressed_json() {
    let encoded = "W1sxLDJdLFszLDRdXQ==";
    let result = decode_inline_segment(encoded, "json").unwrap();
    assert_eq!(result, "[[1,2],[3,4]]");
}

#[test]
fn test_decode_zstd_compressed() {
    let original = "[[1,2],[3,4]]";
    let compressed = zstd::encode_all(original.as_bytes(), 3).unwrap();
    let encoded = b64(&compressed);

    let result = decode_inline_segment(&encoded, "json+zstd").unwrap();
    assert_eq!(result, original);
}

#[test]
fn test_decode_lz4_compressed() {
    let original = "[[1,2],[3,4]]";
    let mut encoder = lz4::EncoderBuilder::new().build(Vec::new()).unwrap();
    std::io::Write::write_all(&mut encoder, original.as_bytes()).unwrap();
    let (compressed, _result) = encoder.finish();
    let encoded = b64(&compressed);

    let result = decode_inline_segment(&encoded, "json+lz4").unwrap();
    assert_eq!(result, original);
}

#[test]
fn test_invalid_base64() {
    let result = decode_inline_segment("not!valid!base64!", "json");
    assert!(result.is_err());
}

#[test]
fn test_unsupported_encoding() {
    let encoded = "W1sxLDJdXQ==";
    let result = decode_inline_segment(encoded, "unknown");
    assert!(result.is_err());
    match result.unwrap_err() {
        Error::InternalError(m) => assert!(m.contains("Unsupported spooling encoding")),
        other => panic!("expected an internal error, got {:?}", other),
    }
}

#[test]
fn test_zstd_fallback_to_plain_json() {
    let plain_json = "[[2,\"data\"]]";
    let encoded = b64(plain_json.as_bytes());
    let result = decode_inline_segment(&encoded, "json+zstd").unwrap();
    assert_eq!(result, plain_json);
}

#[test]
fn test_lz4_fallback_to_plain_json() {
    let plain_json = "[[1,\"test\"]]";
    let encoded = b64(plain_json.as_bytes());
    let result = decode_inline_segment(&encoded, "json+lz4").unwrap();
    assert_eq!(result, plain_json);
}

#[test]
fn test_codec_fallback_agrees_across_encodings() {
    let plain = b"[[7,\"x\"]]".to_vec();
    let as_json = decompress_segment_bytes(&plain, &SpoolingEncoding::Json).unwrap();
    let as_zstd = decompress_segment_bytes(&plain, &SpoolingEncoding::JsonZstd).unwrap();
    let as_lz4 = decompress_segment_bytes(&plain, &SpoolingEncoding::JsonLz4).unwrap();
    assert_eq!(as_json, "[[7,\"x\"]]");
    assert_eq!(as_zstd, as_json);
    assert_eq!(as_lz4, as_json);
}

#[test]
fn test_decompress_rejects_non_utf8() {
    let bytes = vec![0xffu8, 0xfe, 0xfd];
    let result = decompress_segment_bytes(&bytes, &SpoolingEncoding::Json);
    assert!(result.is_err());
}
