use trino_rust_client::driver::{Accumulator, PageAction, QueryResultData, SpooledData,
    classify_page, decode_spooled_rows, execute_outcome, need_retry, track_final_uri};
use trino_rust_client::dataset::{DataSet, Row, build_dataset, from_wire, reorder_rows};
use trino_rust_client::error::TrinoRetryResult;
use trino_rust_client::encoding::SpoolingEncoding;
use trino_rust_client::error::{Error, TrinoError};
use trino_rust_client::kv::{decode_kv, encode_kv};
use trino_rust_client::segment::{DataAttributes, decode_inline_data, effective_concurrency,
    transport_decode};
use trino_rust_client::session::{Session, TransactionId};
use trino_rust_client::headers::{apply_response_headers, session_headers};
use trino_rust_client::types::TrinoTy;

fn server_error(code: i64, name: &str, message: &str) -> TrinoError {
    TrinoError {
        message: message.to_string(),
        error_code: code,
        error_name: name.to_string(),
        error_type: "USER_ERROR".to_string(),
        error_location: None,
    }
}

fn empty_session() -> Session {
    Session {
        user: "user".to_string(),
        source: "trino-rust-client".to_string(),
        trace_token: None,
        client_tags: vec![],
        client_info: None,
        catalog: None,
        schema: None,
        path: None,
        timezone: None,
        properties: vec![],
        resource_estimates: vec![],
        extra_credentials: vec![],
        prepared_statements: vec![],
        roles: vec![],
        transaction_id: TransactionId::NoTransaction,
        compression_disabled: false,
        spooling_encoding: None,
    }
}

#[test]
fn test_kv_round_trip() {
    let encoded = encode_kv("query_max_memory", "5 GB");
    assert_eq!(encoded, "query_max_memory=5%20GB");
    let (k, v) = decode_kv(&encoded).unwrap();
    assert_eq!(k, "query_max_memory");
    assert_eq!(v, "5 GB");
}

#[test]
fn test_kv_decode_space_forms() {
    let (_, v) = decode_kv("k=a%20b").unwrap();
    assert_eq!(v, "a b");
    let (_, v) = decode_kv("k=a+b").unwrap();
    assert_eq!(v, "a b");
}

#[test]
fn test_kv_decode_mixed_spellings() {
    let (_, v) = decode_kv("k=a+b%20c").unwrap();
    assert_eq!(v, "a b c");
    let (_, v) = decode_kv("k=%61+b").unwrap();
    assert_eq!(v, "a b");
}

#[test]
fn test_kv_decode_rejects_multiple_eq() {
    assert!(decode_kv("a=b=c").is_none());
    assert!(decode_kv("nokey").is_none());
}

#[test]
fn test_schema_sticky() {
    let mut session = empty_session();
    let headers = vec![
        ("x-trino-set-schema".to_string(), "sales".to_string()),
        ("x-trino-set-catalog".to_string(), "hive".to_string()),
    ];
    apply_response_headers(&mut session, &headers);
    assert_eq!(session.schema.as_deref(), Some("sales"));
    assert_eq!(session.catalog.as_deref(), Some("hive"));

    let out = session_headers(&session);
    assert!(out.contains(&("X-Trino-Schema".to_string(), "sales".to_string())));
    assert!(out.contains(&("X-Trino-Catalog".to_string(), "hive".to_string())));

    let more = vec![(
        "x-trino-set-session".to_string(),
        "query_max_memory=5%20GB".to_string(),
    )];
    apply_response_headers(&mut session, &more);
    assert_eq!(session.schema.as_deref(), Some("sales"));
    assert_eq!(
        session.properties,
        vec![("query_max_memory".to_string(), "5 GB".to_string())]
    );
    let out = session_headers(&session);
    assert!(out.contains(&(
        "X-Trino-Session".to_string(),
        "query_max_memory=5%20GB".to_string()
    )));
}

#[test]
fn test_clear_session_and_transaction() {
    let mut session = empty_session();
    let headers = vec![
        ("x-trino-set-session".to_string(), "a=1".to_string()),
        ("x-trino-started-transaction-id".to_string(), "txn7".to_string()),
    ];
    apply_response_headers(&mut session, &headers);
    assert_eq!(session.properties.len(), 1);
    assert!(matches!(&session.transaction_id, TransactionId::Id(id) if id == "txn7"));

    let headers = vec![
        ("x-trino-clear-session".to_string(), "a".to_string()),
        ("x-trino-clear-transaction-id".to_string(), "".to_string()),
    ];
    apply_response_headers(&mut session, &headers);
    assert!(session.properties.is_empty());
    assert!(matches!(session.transaction_id, TransactionId::NoTransaction));
}

#[test]
fn test_retry_policy() {
    let unavailable = Error::HttpNotOk(503, "busy".to_string());
    let server_err = Error::HttpNotOk(500, "boom".to_string());
    let client_err = Error::HttpNotOk(400, "bad".to_string());
    let transport = Error::HttpError("connection reset".to_string());

    assert!(need_retry(&unavailable, 0, 3));
    assert!(need_retry(&unavailable, 2, 3));
    assert!(!need_retry(&unavailable, 3, 3));
    assert!(!need_retry(&server_err, 0, 3));
    assert!(!need_retry(&client_err, 0, 3));
    assert!(!need_retry(&transport, 0, 3));
}

#[test]
fn test_classify_page_forbidden() {
    let err = server_error(4, "PERMISSION_DENIED", "no");
    match classify_page(Some(err), None) {
        Err(Error::Forbidden { message }) => assert_eq!(message, "no"),
        other => panic!("expected forbidden, got {:?}", other),
    }
}

#[test]
fn test_classify_page_error_mapping() {
    let err = server_error(44, "TABLE_NOT_FOUND", "missing table");
    assert!(matches!(
        classify_page(Some(err), None),
        Err(Error::TableNotFound)
    ));

    let err = server_error(99, "SOMETHING_ODD", "strange");
    match classify_page(Some(err), None) {
        Err(Error::InternalError(m)) => {
            assert!(m.contains("SOMETHING_ODD"));
            assert!(m.contains("strange"));
        }
        other => panic!("expected an internal error, got {:?}", other),
    }
}

#[test]
fn test_classify_page_data_dispatch() {
    assert!(matches!(classify_page(None, None), Ok(PageAction::NoData)));

    let rows = vec![Row::new(vec![serde_json::Value::from(1)])];
    match classify_page(None, Some(QueryResultData::Direct(rows))) {
        Ok(PageAction::TakeDirect(got)) => assert_eq!(got.len(), 1),
        other => panic!("expected direct rows, got {:?}", other),
    }

    let spooled = SpooledData {
        encoding: "json".to_string(),
        segments: vec![],
    };
    assert!(matches!(
        classify_page(None, Some(QueryResultData::Spooled(spooled))),
        Ok(PageAction::FetchSpooled(_))
    ));
}

#[test]
fn test_accumulator_transitions() {
    let acc = Accumulator::Undecided;
    let acc = acc
        .take_direct(vec![Row::new(vec![serde_json::Value::from(1)])])
        .unwrap();
    let acc = acc
        .take_direct(vec![Row::new(vec![serde_json::Value::from(2)])])
        .unwrap();
    match &acc {
        Accumulator::Direct(rows) => assert_eq!(rows.len(), 2),
        _ => panic!("expected a direct accumulator"),
    }

    let ds = from_wire(
        vec![trino_rust_client::models::Column {
            name: "a".to_string(),
            ty: "bigint".to_string(),
            type_signature: Some(
                TrinoTy::TrinoInt(trino_rust_client::types::TrinoInt::I64).into_type_signature(),
            ),
        }],
        vec![],
    )
    .unwrap();
    assert!(matches!(
        acc.take_spooled(ds),
        Err(Error::InternalError(_))
    ));
}

#[test]
fn test_parse_segments_multiple_inline() {
    let rows_json1 = r#"[["alice",1],["bob",2]]"#;
    let rows_json2 = r#"[["charlie",3]]"#;

    let payload1 = rows_json1.as_bytes().to_vec();
    let payload2 = rows_json2.as_bytes().to_vec();

    let rows = decode_spooled_rows(vec![payload1, payload2], &SpoolingEncoding::Json).unwrap();
    assert_eq!(rows.len(), 3);
    let values: Vec<Vec<serde_json::Value>> =
        rows.into_iter().map(|r| r.into_json()).collect();
    assert_eq!(values[0][0], serde_json::Value::String("alice".to_string()));
    assert_eq!(values[0][1], serde_json::Value::Number(1.into()));
    assert_eq!(values[1][0], serde_json::Value::String("bob".to_string()));
    assert_eq!(values[1][1], serde_json::Value::Number(2.into()));
    assert_eq!(values[2][0], serde_json::Value::String("charlie".to_string()));
    assert_eq!(values[2][1], serde_json::Value::Number(3.into()));
}

#[test]
fn test_transport_decode_gzip() {
    let original = b"[[42,\"x\"]]".to_vec();
    let mut encoder =
        flate2::write::GzEncoder::new(Vec::new(), flate2::Compression::default());
    std::io::Write::write_all(&mut encoder, &original).unwrap();
    let compressed = encoder.finish().unwrap();

    let decoded = transport_decode(compressed, &Some("gzip".to_string())).unwrap();
    assert_eq!(decoded, original);

    let decoded = transport_decode(original.clone(), &Some("GZIP".to_string()));
    assert!(decoded.is_err());

    let decoded = transport_decode(original.clone(), &Some("identity".to_string())).unwrap();
    assert_eq!(decoded, original);

    let decoded = transport_decode(original.clone(), &None).unwrap();
    assert_eq!(decoded, original);

    let decoded = transport_decode(original.clone(), &Some("br".to_string())).unwrap();
    assert_eq!(decoded, original);
}

#[test]
fn test_inline_segment_base64() {
    let decoded = decode_inline_data("SGVsbG8gV29ybGQ=").unwrap();
    assert_eq!(decoded, b"Hello World".to_vec());
    assert!(decode_inline_data("not!valid!").is_err());
}

#[test]
fn test_segment_metadata_getters() {
    let meta = DataAttributes {
        row_offset: Some(100),
        rows_count: Some(50),
        segment_size: None,
    };
    assert_eq!(meta.row_offset(), Some(100));
    assert_eq!(meta.rows_count(), Some(50));
    assert_eq!(meta.segment_size(), None);
}

#[test]
fn test_effective_concurrency_floor() {
    assert_eq!(effective_concurrency(0), 1);
    assert_eq!(effective_concurrency(1), 1);
    assert_eq!(effective_concurrency(8), 8);
}

#[test]
fn test_track_final_uri() {
    let current = track_final_uri(None, &Some("http://x/1".to_string()));
    assert_eq!(current.as_deref(), Some("http://x/1"));
    let current = track_final_uri(current, &None);
    assert_eq!(current.as_deref(), Some("http://x/1"));
}

#[test]
fn test_dataset_wire_round_trip() {
    let types = vec![
        ("id".to_string(), TrinoTy::TrinoInt(trino_rust_client::types::TrinoInt::I64)),
        ("name".to_string(), TrinoTy::Varchar),
    ];
    let rows = vec![
        Row::new(vec![serde_json::Value::from(1), serde_json::Value::from("alice")]),
        Row::new(vec![serde_json::Value::from(2), serde_json::Value::from("bob")]),
    ];
    let ds = DataSet::new_row(types, rows).unwrap();
    assert_eq!(ds.len(), 2);

    let columns = ds.to_columns();
    assert_eq!(columns.len(), 2);
    assert_eq!(columns[0].name, "id");
    assert_eq!(columns[0].ty, "bigint");
    assert_eq!(columns[1].ty, "varchar");

    let rows = ds.into_vec();
    let rebuilt = from_wire(columns, rows).unwrap();
    let (types, rows) = rebuilt.split();
    assert_eq!(
        types,
        vec![
            ("id".to_string(), TrinoTy::TrinoInt(trino_rust_client::types::TrinoInt::I64)),
            ("name".to_string(), TrinoTy::Varchar),
        ]
    );
    assert_eq!(rows.len(), 2);
    let first = rows.into_iter().next().unwrap();
    assert_eq!(first.into_json()[0], serde_json::Value::from(1));
}

#[test]
fn test_build_dataset_requires_columns() {
    let rows = vec![Row::new(vec![serde_json::Value::from(1)])];
    assert!(matches!(
        build_dataset(rows, None),
        Err(Error::InternalError(_))
    ));
    let rows = vec![Row::new(vec![serde_json::Value::from(1)])];
    assert!(matches!(
        build_dataset(rows, Some(vec![])),
        Err(Error::InternalError(_))
    ));
}

#[test]
fn test_reorder_permuted_row() {
    // Declared row {a: varchar, b: integer, c: varchar}; server columns
    // [b, c, a] with values [10, "y", "x"]: the reordered row reads
    // a="x", b=10, c="y".
    let row = Row::new(vec![
        serde_json::Value::from(10),
        serde_json::Value::from("y"),
        serde_json::Value::from("x"),
    ]);
    let perm = vec![1usize, 2, 0];
    let out = row.reordered(&perm).unwrap().into_json();
    assert_eq!(out[0], serde_json::Value::from("x"));
    assert_eq!(out[1], serde_json::Value::from(10));
    assert_eq!(out[2], serde_json::Value::from("y"));
}

#[test]
fn test_reorder_rejects_bad_permutation() {
    let row = Row::new(vec![serde_json::Value::from(1), serde_json::Value::from(2)]);
    assert!(row.reordered(&vec![0usize]).is_none());
    let row = Row::new(vec![serde_json::Value::from(1), serde_json::Value::from(2)]);
    assert!(row.reordered(&vec![0usize, 0]).is_none());
    let row = Row::new(vec![serde_json::Value::from(1), serde_json::Value::from(2)]);
    assert!(row.reordered(&vec![0usize, 5]).is_none());
}

#[test]
fn test_reorder_rows_in_order() {
    let rows = vec![
        Row::new(vec![serde_json::Value::from(1), serde_json::Value::from("a")]),
        Row::new(vec![serde_json::Value::from(2), serde_json::Value::from("b")]),
    ];
    let out = reorder_rows(rows, &vec![1usize, 0]).unwrap();
    let values: Vec<Vec<serde_json::Value>> = out.into_iter().map(|r| r.into_json()).collect();
    assert_eq!(values[0][0], serde_json::Value::from("a"));
    assert_eq!(values[0][1], serde_json::Value::from(1));
    assert_eq!(values[1][0], serde_json::Value::from("b"));
    assert_eq!(values[1][1], serde_json::Value::from(2));
}

#[test]
fn test_execute_outcome_fields() {
    let ok = execute_outcome(TrinoRetryResult {
        id: "q".to_string(),
        info_uri: "http://x/info".to_string(),
        stats: trino_rust_client::error::TrinoStats {
            state: "FINISHED".to_string(),
        },
        error: None,
        update_type: Some("PREPARE".to_string()),
        update_count: Some(7),
    })
    .unwrap();
    assert_eq!(ok.update_type.as_deref(), Some("PREPARE"));
    assert_eq!(ok.update_count, Some(7));

    let failed = execute_outcome(TrinoRetryResult {
        id: "q".to_string(),
        info_uri: "http://x/info".to_string(),
        stats: trino_rust_client::error::TrinoStats {
            state: "FAILED".to_string(),
        },
        error: Some(server_error(44, "TABLE_NOT_FOUND", "missing")),
        update_type: None,
        update_count: None,
    });
    assert!(matches!(failed, Err(Error::TableNotFound)));
}

#[test]
fn test_auth_redacted() {
    let auth = trino_rust_client::auth::Auth::new_basic(
        "alice".to_string(),
        Some("hunter2".to_string()),
    );
    let shown = auth.redacted();
    assert_eq!(shown, "Basic(alice, ******)");
    assert!(!shown.contains("hunter2"));
    let auth = trino_rust_client::auth::Auth::new_jwt("tok3n".to_string());
    let shown = auth.redacted();
    assert_eq!(shown, "Jwt(******)");
    assert!(!shown.contains("tok3n"));
}
