use trino_rust_client::auth::check_auth;
use trino_rust_client::dataset::DataSet;
use trino_rust_client::driver::{finalize_accumulator, Accumulator};
use trino_rust_client::error::{Error, TrinoError};
use trino_rust_client::models::Column;
use trino_rust_client::types::{Error as TypesError, TrinoTy};

fn server_error(name: &str, message: &str) -> TrinoError {
    TrinoError {
        message: message.to_string(),
        error_code: 1,
        error_name: name.to_string(),
        error_type: "USER_ERROR".to_string(),
        error_location: None,
    }
}

#[test]
fn test_error_name_mapping() {
    assert!(matches!(
        Error::from_trino_error(server_error("CATALOG_NOT_FOUND", "")),
        Error::CatalogNotFound
    ));
    assert!(matches!(
        Error::from_trino_error(server_error("MISSING_CATALOG_NAME", "")),
        Error::InvalidCatalog
    ));
    assert!(matches!(
        Error::from_trino_error(server_error("SCHEMA_NOT_FOUND", "")),
        Error::SchemaNotFound
    ));
    assert!(matches!(
        Error::from_trino_error(server_error("MISSING_SCHEMA_NAME", "")),
        Error::InvalidSchema
    ));
    assert!(matches!(
        Error::from_trino_error(server_error("SCHEMA_ALREADY_EXISTS", "")),
        Error::SchemaAlreadyExists
    ));
    assert!(matches!(
        Error::from_trino_error(server_error("TABLE_NOT_FOUND", "")),
        Error::TableNotFound
    ));
    assert!(matches!(
        Error::from_trino_error(server_error("TABLE_ALREADY_EXISTS", "")),
        Error::TableAlreadyExists
    ));
    match Error::from_trino_error(server_error("INVALID_TABLE_PROPERTY", "bad bucket count")) {
        Error::InvalidTableProperty(m) => assert_eq!(m, "bad bucket count"),
        other => panic!("expected an invalid-table-property error, got {:?}", other),
    }
    match Error::from_trino_error(server_error("EXCEEDED_MEMORY_LIMIT", "out of memory")) {
        Error::InternalError(m) => {
            assert!(m.contains("EXCEEDED_MEMORY_LIMIT"));
            assert!(m.contains("out of memory"));
        }
        other => panic!("expected an internal error, got {:?}", other),
    }
}

#[test]
fn test_basic_auth_with_http() {
    assert!(matches!(
        check_auth(true, true),
        Err(Error::BasicAuthWithHttp)
    ));
    assert!(check_auth(true, false).is_ok());
    assert!(check_auth(false, true).is_ok());
}

#[test]
fn test_empty_data() {
    assert!(matches!(
        finalize_accumulator(Accumulator::Undecided, None),
        Err(Error::EmptyData)
    ));
}

#[test]
fn test_empty_row_types() {
    assert!(matches!(
        DataSet::new_row(vec![], vec![]),
        Err(TypesError::EmptyInTrinoRow)
    ));
}

#[test]
fn test_column_without_signature() {
    let column = Column {
        name: "a".to_string(),
        ty: "bigint".to_string(),
        type_signature: None,
    };
    assert!(matches!(
        TrinoTy::from_column(column),
        Err(TypesError::InvalidColumn)
    ));
}
