use trino_rust_client::models::{ClientTypeSignatureParameter, NamedTypeSignature, RowFieldName,
    TypeSignature};
use trino_rust_client::raw_ty::RawTrinoTy;
use trino_rust_client::types::{TrinoFloat, TrinoInt, TrinoTy};

#[test]
fn test_ser() {
    let ty = RawTrinoTy::Char;
    let s = serde_json::to_string(ty.to_str()).unwrap();
    assert_eq!(s, "\"char\"");

    let ty = RawTrinoTy::Json;
    let s = serde_json::to_string(ty.to_str()).unwrap();
    assert_eq!(s, "\"json\"");
}

#[test]
fn test_de() {
    let data = "\"char\"";
    let raw: String = serde_json::from_str(data).unwrap();
    let ty = RawTrinoTy::parse(&raw).unwrap();
    assert_eq!(ty, RawTrinoTy::Char);

    let data = "\"json\"";
    let raw: String = serde_json::from_str(data).unwrap();
    let ty = RawTrinoTy::parse(&raw).unwrap();
    assert_eq!(ty, RawTrinoTy::Json);

    let invalid = "\"xxx\"";
    let raw: String = serde_json::from_str(invalid).unwrap();
    assert!(RawTrinoTy::parse(&raw).is_none());
}

#[test]
fn test_raw_round_trip_all_tokens() {
    let tokens = vec![
        RawTrinoTy::BigInt,
        RawTrinoTy::Integer,
        RawTrinoTy::SmallInt,
        RawTrinoTy::TinyInt,
        RawTrinoTy::Boolean,
        RawTrinoTy::Date,
        RawTrinoTy::Decimal,
        RawTrinoTy::Real,
        RawTrinoTy::Double,
        RawTrinoTy::HyperLogLog,
        RawTrinoTy::QDigest,
        RawTrinoTy::P4HyperLogLog,
        RawTrinoTy::IntervalDayToSecond,
        RawTrinoTy::IntervalYearToMonth,
        RawTrinoTy::Timestamp,
        RawTrinoTy::TimestampWithTimeZone,
        RawTrinoTy::Time,
        RawTrinoTy::TimeWithTimeZone,
        RawTrinoTy::VarBinary,
        RawTrinoTy::VarChar,
        RawTrinoTy::Char,
        RawTrinoTy::Row,
        RawTrinoTy::Array,
        RawTrinoTy::MapTy,
        RawTrinoTy::Json,
        RawTrinoTy::IpAddress,
        RawTrinoTy::Uuid,
        RawTrinoTy::Unknown,
    ];
    for t in tokens {
        assert_eq!(RawTrinoTy::parse(t.to_str()), Some(t));
    }
}

#[test]
fn test_signature_round_trip_decimal() {
    let sig = TypeSignature::new(
        RawTrinoTy::Decimal,
        vec![
            ClientTypeSignatureParameter::LongLiteral(20),
            ClientTypeSignatureParameter::LongLiteral(4),
        ],
    );
    let ty = TrinoTy::from_type_signature(sig).unwrap();
    assert_eq!(ty, TrinoTy::Decimal(20, 4));

    let back = ty.into_type_signature();
    assert_eq!(back.raw_type, RawTrinoTy::Decimal);
    assert_eq!(back.arguments.len(), 2);
    match (&back.arguments[0], &back.arguments[1]) {
        (
            ClientTypeSignatureParameter::LongLiteral(p),
            ClientTypeSignatureParameter::LongLiteral(s),
        ) => {
            assert_eq!((*p, *s), (20, 4));
        }
        _ => panic!("expected two long literals"),
    }
}

#[test]
fn test_signature_round_trip_row() {
    let inner = TypeSignature::new(RawTrinoTy::BigInt, vec![]);
    let named = NamedTypeSignature {
        field_name: Some(RowFieldName::new("x".to_string())),
        type_signature: inner,
    };
    let sig = TypeSignature::new(
        RawTrinoTy::Row,
        vec![ClientTypeSignatureParameter::NamedTypeSignature(named)],
    );
    let ty = TrinoTy::from_type_signature(sig).unwrap();
    assert_eq!(
        ty,
        TrinoTy::Row(vec![("x".to_string(), TrinoTy::TrinoInt(TrinoInt::I64))])
    );
}

#[test]
fn test_signature_rejects_mixed_row_naming() {
    let bigint = TypeSignature::new(RawTrinoTy::BigInt, vec![]);
    let varchar = TypeSignature::new(RawTrinoTy::VarChar, vec![]);
    let named = NamedTypeSignature {
        field_name: Some(RowFieldName::new("x".to_string())),
        type_signature: bigint,
    };
    let anonymous = NamedTypeSignature {
        field_name: None,
        type_signature: varchar,
    };
    let sig = TypeSignature::new(
        RawTrinoTy::Row,
        vec![
            ClientTypeSignatureParameter::NamedTypeSignature(named),
            ClientTypeSignatureParameter::NamedTypeSignature(anonymous),
        ],
    );
    assert!(TrinoTy::from_type_signature(sig).is_err());
}

#[test]
fn test_signature_rejects_bad_arity() {
    let sig = TypeSignature::new(
        RawTrinoTy::Decimal,
        vec![ClientTypeSignatureParameter::LongLiteral(20)],
    );
    assert!(TrinoTy::from_type_signature(sig).is_err());

    let sig = TypeSignature::new(RawTrinoTy::Row, vec![]);
    assert!(TrinoTy::from_type_signature(sig).is_err());
}

#[test]
fn test_varchar_sentinel() {
    let sig = TrinoTy::Varchar.into_type_signature();
    assert_eq!(sig.raw_type, RawTrinoTy::VarChar);
    assert_eq!(sig.arguments.len(), 1);
    match &sig.arguments[0] {
        ClientTypeSignatureParameter::LongLiteral(n) => assert_eq!(*n, 2147483647),
        _ => panic!("expected a long literal"),
    }
}

#[test]
fn test_full_type_rendering() {
    assert_eq!(TrinoTy::Decimal(20, 4).full_type(), "decimal(20,4)");
    assert_eq!(TrinoTy::Varchar.full_type(), "varchar");
    assert_eq!(
        TrinoTy::Array(Box::new(TrinoTy::TrinoInt(TrinoInt::I64))).full_type(),
        "array(bigint)"
    );
    assert_eq!(
        TrinoTy::Row(vec![
            ("x".to_string(), TrinoTy::TrinoInt(TrinoInt::I64)),
            ("y".to_string(), TrinoTy::Varchar),
        ])
        .full_type(),
        "row(x bigint,y varchar)"
    );
    assert_eq!(
        TrinoTy::MapOf(
            Box::new(TrinoTy::Varchar),
            Box::new(TrinoTy::TrinoFloat(TrinoFloat::F64))
        )
        .full_type(),
        "map(varchar,double)"
    );
    assert_eq!(TrinoTy::Char(7).full_type(), "char(7)");
}
