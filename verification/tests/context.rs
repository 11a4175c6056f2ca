use trino_rust_client::types::{Context, TrinoInt, TrinoTy};

fn varchar() -> TrinoTy {
    TrinoTy::Varchar
}

fn int32() -> TrinoTy {
    TrinoTy::TrinoInt(TrinoInt::I32)
}

/// The row type of a struct with fields `a: String, b: i32, c: String`.
fn ty_a() -> TrinoTy {
    TrinoTy::Row(vec![
        ("a".to_string(), varchar()),
        ("b".to_string(), int32()),
        ("c".to_string(), varchar()),
    ])
}

/// The same fields as `ty_a`, declared in the order `b, c, a`.
fn ty_b() -> TrinoTy {
    TrinoTy::Row(vec![
        ("b".to_string(), int32()),
        ("c".to_string(), varchar()),
        ("a".to_string(), varchar()),
    ])
}

/// A nested row: `a: ty_a, b: i32`.
fn ty_c() -> TrinoTy {
    TrinoTy::Row(vec![("a".to_string(), ty_a()), ("b".to_string(), int32())])
}

/// The same fields as `ty_c`, declared as `b, a`, the inner row permuted.
fn ty_d() -> TrinoTy {
    TrinoTy::Row(vec![("b".to_string(), int32()), ("a".to_string(), ty_b())])
}

#[test]
fn test_simple() {
    let target = ty_a();
    let provided = ty_b();
    let ctx = Context::new(&target, &provided).unwrap();
    let ret = ctx.row_map().unwrap();

    assert_eq!(ret, &vec![1usize, 2, 0]);
}

#[test]
fn test_nested() {
    let target = ty_c();
    let provided = ty_d();
    let ctx = Context::new(&target, &provided).unwrap();

    let ret = ctx.row_map().unwrap();
    assert_eq!(ret, &vec![1usize, 0]);

    let nested = ctx.with_ty(1);
    let ret = nested.row_map().unwrap();
    assert_eq!(ret, &vec![1usize, 2, 0]);
}

#[test]
fn test_false() {
    let target = ty_b();
    let provided = ty_c();
    let res = Context::new(&target, &provided);

    assert!(res.is_err());
}

#[test]
fn test_context_node_walk() {
    let target = ty_c();
    let provided = ty_d();
    let ctx = Context::new(&target, &provided).unwrap();
    assert_eq!(ctx.ty(), Some(&ty_d()));
    let nested = ctx.with_ty(1);
    assert_eq!(nested.ty(), Some(&ty_b()));
    assert!(nested.with_ty(9).ty().is_none());
}

#[test]
fn test_unknown_accepts_anything() {
    let target = TrinoTy::Unknown;
    let provided = ty_c();
    let ctx = Context::new(&target, &provided).unwrap();
    assert!(ctx.row_map().is_none());
}

#[test]
fn test_incompatible_scalar() {
    let target = TrinoTy::Row(vec![("a".to_string(), TrinoTy::Boolean)]);
    let provided = TrinoTy::Row(vec![("a".to_string(), varchar())]);
    assert!(Context::new(&target, &provided).is_err());
}

#[test]
fn test_decimal_params_must_match() {
    let target = TrinoTy::Decimal(20, 4);
    assert!(Context::new(&target, &TrinoTy::Decimal(20, 4)).is_ok());
    assert!(Context::new(&target, &TrinoTy::Decimal(21, 4)).is_err());
}

#[test]
fn test_optional_target_unwraps() {
    let target = TrinoTy::Optional(Box::new(ty_a()));
    let provided = ty_b();
    let ctx = Context::new(&target, &provided).unwrap();
    assert_eq!(ctx.row_map().unwrap(), &vec![1usize, 2, 0]);
}
