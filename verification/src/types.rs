//! Structural types: the client-side recursive type model, its conversions
//! to and from wire type signatures, and the canonical string rendering.

use vstd::prelude::*;

use crate::models::{
    ClientTypeSignatureParameter, Column, ColumnV, NamedTypeSignature, RowFieldName, SigParamV,
    TypeSignature, TypeSignatureV, param_view, sig_view,
};
use crate::raw_ty::RawTrinoTy;

pub use crate::context::Context;

verus! {

/// Errors of the type layer.
#[derive(Debug)]
pub enum Error {
    InvalidTrinoType,
    InvalidColumn,
    InvalidTypeSignature,
    ParseDecimalFailed(String),
    ParseIntervalMonthFailed,
    ParseIntervalDayFailed,
    EmptyInTrinoRow,
    NoneTrinoRow,
}

/// Widths of the server's integer types.
#[derive(Clone, Copy, Debug, Eq, PartialEq, Structural)]
pub enum TrinoInt {
    I8,
    I16,
    I32,
    I64,
}

/// Widths of the server's floating-point types.
#[derive(Clone, Copy, Debug, Eq, PartialEq, Structural)]
pub enum TrinoFloat {
    F32,
    F64,
}

/// A structural type as the client reasons about it. `Optional` marks a
/// caller-side nullable field and never appears on the wire; `Tuple` is an
/// unnamed row, `Row` a fully named one.
#[derive(Debug, PartialEq)]
pub enum TrinoTy {
    Date,
    Time,
    TimeWithTimeZone,
    Timestamp,
    TimestampWithTimeZone,
    Uuid,
    IntervalYearToMonth,
    IntervalDayToSecond,
    Optional(Box<TrinoTy>),
    Boolean,
    TrinoInt(TrinoInt),
    TrinoFloat(TrinoFloat),
    Varchar,
    Char(u64),
    Tuple(Vec<TrinoTy>),
    Row(Vec<(String, TrinoTy)>),
    Array(Box<TrinoTy>),
    MapOf(Box<TrinoTy>, Box<TrinoTy>),
    Decimal(u64, u64),
    IpAddress,
    Json,
    Unknown,
}

/// Mathematical model of a structural type.
pub enum TrinoTyV {
    Date,
    Time,
    TimeWithTimeZone,
    Timestamp,
    TimestampWithTimeZone,
    Uuid,
    IntervalYearToMonth,
    IntervalDayToSecond,
    Optional(Box<TrinoTyV>),
    Boolean,
    TrinoInt(TrinoInt),
    TrinoFloat(TrinoFloat),
    Varchar,
    Char(u64),
    Tuple(Seq<TrinoTyV>),
    Row(Seq<(Seq<char>, TrinoTyV)>),
    Array(Box<TrinoTyV>),
    MapOf(Box<TrinoTyV>, Box<TrinoTyV>),
    Decimal(u64, u64),
    IpAddress,
    Json,
    Unknown,
}

/// Model of a structural type.
pub open spec fn ty_view(t: TrinoTy) -> TrinoTyV
    decreases t,
{
    match t {
        TrinoTy::Date => TrinoTyV::Date,
        TrinoTy::Time => TrinoTyV::Time,
        TrinoTy::TimeWithTimeZone => TrinoTyV::TimeWithTimeZone,
        TrinoTy::Timestamp => TrinoTyV::Timestamp,
        TrinoTy::TimestampWithTimeZone => TrinoTyV::TimestampWithTimeZone,
        TrinoTy::Uuid => TrinoTyV::Uuid,
        TrinoTy::IntervalYearToMonth => TrinoTyV::IntervalYearToMonth,
        TrinoTy::IntervalDayToSecond => TrinoTyV::IntervalDayToSecond,
        TrinoTy::Optional(inner) => TrinoTyV::Optional(Box::new(ty_view(*inner))),
        TrinoTy::Boolean => TrinoTyV::Boolean,
        TrinoTy::TrinoInt(w) => TrinoTyV::TrinoInt(w),
        TrinoTy::TrinoFloat(w) => TrinoTyV::TrinoFloat(w),
        TrinoTy::Varchar => TrinoTyV::Varchar,
        TrinoTy::Char(n) => TrinoTyV::Char(n),
        TrinoTy::Tuple(ts) => TrinoTyV::Tuple(
            Seq::new(
                ts@.len(),
                |i: int| if 0 <= i < ts@.len() { ty_view(ts@[i]) } else { TrinoTyV::Unknown },
            ),
        ),
        TrinoTy::Row(fs) => TrinoTyV::Row(
            Seq::new(
                fs@.len(),
                |i: int|
                    if 0 <= i < fs@.len() {
                        (fs@[i].0@, ty_view(fs@[i].1))
                    } else {
                        (Seq::<char>::empty(), TrinoTyV::Unknown)
                    },
            ),
        ),
        TrinoTy::Array(inner) => TrinoTyV::Array(Box::new(ty_view(*inner))),
        TrinoTy::MapOf(k, v) => TrinoTyV::MapOf(Box::new(ty_view(*k)), Box::new(ty_view(*v))),
        TrinoTy::Decimal(p, s) => TrinoTyV::Decimal(p, s),
        TrinoTy::IpAddress => TrinoTyV::IpAddress,
        TrinoTy::Json => TrinoTyV::Json,
        TrinoTy::Unknown => TrinoTyV::Unknown,
    }
}

impl View for TrinoTy {
    type V = TrinoTyV;

    open spec fn view(&self) -> TrinoTyV {
        ty_view(*self)
    }
}

impl TrinoInt {
    /// The raw type token of an integer of this width.
    pub fn raw_type(&self) -> (r: RawTrinoTy)
        ensures
            r == spec_int_raw_type(*self),
    {
        match self {
            TrinoInt::I8 => RawTrinoTy::TinyInt,
            TrinoInt::I16 => RawTrinoTy::SmallInt,
            TrinoInt::I32 => RawTrinoTy::Integer,
            TrinoInt::I64 => RawTrinoTy::BigInt,
        }
    }
}

impl TrinoFloat {
    /// The raw type token of a float of this width.
    pub fn raw_type(&self) -> (r: RawTrinoTy)
        ensures
            r == spec_float_raw_type(*self),
    {
        match self {
            TrinoFloat::F32 => RawTrinoTy::Real,
            TrinoFloat::F64 => RawTrinoTy::Double,
        }
    }
}

pub open spec fn spec_int_raw_type(w: TrinoInt) -> RawTrinoTy {
    match w {
        TrinoInt::I8 => RawTrinoTy::TinyInt,
        TrinoInt::I16 => RawTrinoTy::SmallInt,
        TrinoInt::I32 => RawTrinoTy::Integer,
        TrinoInt::I64 => RawTrinoTy::BigInt,
    }
}

pub open spec fn spec_float_raw_type(w: TrinoFloat) -> RawTrinoTy {
    match w {
        TrinoFloat::F32 => RawTrinoTy::Real,
        TrinoFloat::F64 => RawTrinoTy::Double,
    }
}

/// The raw type token at the root of a structural type. An `Optional`
/// delegates to its payload, as it has no wire form of its own.
pub open spec fn spec_raw_type(t: TrinoTyV) -> RawTrinoTy
    decreases t,
{
    match t {
        TrinoTyV::Date => RawTrinoTy::Date,
        TrinoTyV::Time => RawTrinoTy::Time,
        TrinoTyV::TimeWithTimeZone => RawTrinoTy::TimeWithTimeZone,
        TrinoTyV::Timestamp => RawTrinoTy::Timestamp,
        TrinoTyV::TimestampWithTimeZone => RawTrinoTy::TimestampWithTimeZone,
        TrinoTyV::Uuid => RawTrinoTy::Uuid,
        TrinoTyV::IntervalYearToMonth => RawTrinoTy::IntervalYearToMonth,
        TrinoTyV::IntervalDayToSecond => RawTrinoTy::IntervalDayToSecond,
        TrinoTyV::Optional(inner) => spec_raw_type(*inner),
        TrinoTyV::Boolean => RawTrinoTy::Boolean,
        TrinoTyV::TrinoInt(w) => spec_int_raw_type(w),
        TrinoTyV::TrinoFloat(w) => spec_float_raw_type(w),
        TrinoTyV::Varchar => RawTrinoTy::VarChar,
        TrinoTyV::Char(_) => RawTrinoTy::Char,
        TrinoTyV::Tuple(_) => RawTrinoTy::Row,
        TrinoTyV::Row(_) => RawTrinoTy::Row,
        TrinoTyV::Array(_) => RawTrinoTy::Array,
        TrinoTyV::MapOf(_, _) => RawTrinoTy::MapTy,
        TrinoTyV::Decimal(_, _) => RawTrinoTy::Decimal,
        TrinoTyV::IpAddress => RawTrinoTy::IpAddress,
        TrinoTyV::Json => RawTrinoTy::Json,
        TrinoTyV::Unknown => RawTrinoTy::Unknown,
    }
}

impl TrinoTy {
    /// The raw type token at the root of this structural type.
    pub fn raw_type(&self) -> (r: RawTrinoTy)
        ensures
            r == spec_raw_type(self@),
        decreases *self,
    {
        match self {
            TrinoTy::Date => RawTrinoTy::Date,
            TrinoTy::Time => RawTrinoTy::Time,
            TrinoTy::TimeWithTimeZone => RawTrinoTy::TimeWithTimeZone,
            TrinoTy::Timestamp => RawTrinoTy::Timestamp,
            TrinoTy::TimestampWithTimeZone => RawTrinoTy::TimestampWithTimeZone,
            TrinoTy::Uuid => RawTrinoTy::Uuid,
            TrinoTy::IntervalYearToMonth => RawTrinoTy::IntervalYearToMonth,
            TrinoTy::IntervalDayToSecond => RawTrinoTy::IntervalDayToSecond,
            TrinoTy::Optional(inner) => inner.raw_type(),
            TrinoTy::Boolean => RawTrinoTy::Boolean,
            TrinoTy::TrinoInt(w) => w.raw_type(),
            TrinoTy::TrinoFloat(w) => w.raw_type(),
            TrinoTy::Varchar => RawTrinoTy::VarChar,
            TrinoTy::Char(_) => RawTrinoTy::Char,
            TrinoTy::Tuple(_) => RawTrinoTy::Row,
            TrinoTy::Row(_) => RawTrinoTy::Row,
            TrinoTy::Array(_) => RawTrinoTy::Array,
            TrinoTy::MapOf(_, _) => RawTrinoTy::MapTy,
            TrinoTy::Decimal(_, _) => RawTrinoTy::Decimal,
            TrinoTy::IpAddress => RawTrinoTy::IpAddress,
            TrinoTy::Json => RawTrinoTy::Json,
            TrinoTy::Unknown => RawTrinoTy::Unknown,
        }
    }
}

/// One signature argument that can stand inside a `row` signature: a named
/// nested signature whose payload converts.
pub open spec fn spec_named_ok(p: SigParamV) -> bool {
    p matches SigParamV::Named(_, s) && spec_sig_to_ty(s) is Some
}

/// The field name carried by a `row` signature argument.
pub open spec fn spec_named_name(p: SigParamV) -> Option<Seq<char>> {
    p->Named_0
}

/// The converted payload type of a `row` signature argument.
pub open spec fn spec_named_ty(p: SigParamV) -> TrinoTyV {
    spec_sig_to_ty(p->Named_1).unwrap()
}

/// Convert the arguments of a `row` signature, one `(field name, type)`
/// pair per argument; `None` as soon as one argument is not a named
/// signature or its payload does not convert.
pub open spec fn spec_named_fields(args: Seq<SigParamV>) -> Option<
    Seq<(Option<Seq<char>>, TrinoTyV)>,
>
    decreases args,
{
    if args.len() == 0 {
        Some(Seq::empty())
    } else {
        match args[0] {
            SigParamV::Named(name, s) => match spec_sig_to_ty(s) {
                Some(t) => match spec_named_fields(args.drop_first()) {
                    Some(rest) => Some(seq![(name, t)] + rest),
                    None => None,
                },
                None => None,
            },
            _ => None,
        }
    }
}

/// What a wire type signature denotes, or `None` when the combination of
/// raw type and arguments is invalid:
/// - `decimal` takes exactly two long literals (precision, scale);
/// - `char` exactly one long literal (length);
/// - `array` exactly one nested signature, `map` exactly two;
/// - `row` at least one named argument: all named gives a `Row`, none
///   named gives a `Tuple`, a mix is invalid;
/// - `varchar` and the scalar tokens ignore their arguments;
/// - the tokens with no structural counterpart are invalid.
pub open spec fn spec_sig_to_ty(sig: TypeSignatureV) -> Option<TrinoTyV>
    decreases sig,
{
    match sig.raw_type {
        RawTrinoTy::Date => Some(TrinoTyV::Date),
        RawTrinoTy::Time => Some(TrinoTyV::Time),
        RawTrinoTy::TimeWithTimeZone => Some(TrinoTyV::TimeWithTimeZone),
        RawTrinoTy::Timestamp => Some(TrinoTyV::Timestamp),
        RawTrinoTy::TimestampWithTimeZone => Some(TrinoTyV::TimestampWithTimeZone),
        RawTrinoTy::IntervalYearToMonth => Some(TrinoTyV::IntervalYearToMonth),
        RawTrinoTy::IntervalDayToSecond => Some(TrinoTyV::IntervalDayToSecond),
        RawTrinoTy::Unknown => Some(TrinoTyV::Unknown),
        RawTrinoTy::Decimal => if sig.arguments.len() == 2 && sig.arguments[0] is Long
            && sig.arguments[1] is Long {
            Some(TrinoTyV::Decimal(sig.arguments[0]->Long_0, sig.arguments[1]->Long_0))
        } else {
            None
        },
        RawTrinoTy::Boolean => Some(TrinoTyV::Boolean),
        RawTrinoTy::TinyInt => Some(TrinoTyV::TrinoInt(TrinoInt::I8)),
        RawTrinoTy::SmallInt => Some(TrinoTyV::TrinoInt(TrinoInt::I16)),
        RawTrinoTy::Integer => Some(TrinoTyV::TrinoInt(TrinoInt::I32)),
        RawTrinoTy::BigInt => Some(TrinoTyV::TrinoInt(TrinoInt::I64)),
        RawTrinoTy::Real => Some(TrinoTyV::TrinoFloat(TrinoFloat::F32)),
        RawTrinoTy::Double => Some(TrinoTyV::TrinoFloat(TrinoFloat::F64)),
        RawTrinoTy::VarChar => Some(TrinoTyV::Varchar),
        RawTrinoTy::Char => if sig.arguments.len() == 1 && sig.arguments[0] is Long {
            Some(TrinoTyV::Char(sig.arguments[0]->Long_0))
        } else {
            None
        },
        RawTrinoTy::Array => if sig.arguments.len() == 1 && sig.arguments[0] is Sig {
            match spec_sig_to_ty(sig.arguments[0]->Sig_0) {
                Some(t) => Some(TrinoTyV::Array(Box::new(t))),
                None => None,
            }
        } else {
            None
        },
        RawTrinoTy::MapTy => if sig.arguments.len() == 2 && sig.arguments[0] is Sig
            && sig.arguments[1] is Sig {
            match (spec_sig_to_ty(sig.arguments[0]->Sig_0), spec_sig_to_ty(
                sig.arguments[1]->Sig_0,
            )) {
                (Some(k), Some(v)) => Some(TrinoTyV::MapOf(Box::new(k), Box::new(v))),
                _ => None,
            }
        } else {
            None
        },
        RawTrinoTy::Row => if sig.arguments.len() >= 1 {
            match spec_named_fields(sig.arguments) {
                Some(fields) => if fields[0].0 is Some {
                    if forall|i: int| 0 <= i < fields.len() ==> fields[i].0 is Some {
                        Some(
                            TrinoTyV::Row(
                                Seq::new(
                                    fields.len(),
                                    |i: int| (fields[i].0.unwrap(), fields[i].1),
                                ),
                            ),
                        )
                    } else {
                        None
                    }
                } else {
                    if forall|i: int| 0 <= i < fields.len() ==> fields[i].0 is None {
                        Some(TrinoTyV::Tuple(Seq::new(fields.len(), |i: int| fields[i].1)))
                    } else {
                        None
                    }
                },
                None => None,
            }
        } else {
            None
        },
        RawTrinoTy::IpAddress => Some(TrinoTyV::IpAddress),
        RawTrinoTy::Uuid => Some(TrinoTyV::Uuid),
        RawTrinoTy::Json => Some(TrinoTyV::Json),
        RawTrinoTy::HyperLogLog => None,
        RawTrinoTy::QDigest => None,
        RawTrinoTy::P4HyperLogLog => None,
        RawTrinoTy::VarBinary => None,
    }
}

/// The wire signature that a structural type serialises to. `Optional` is
/// erased; `varchar` carries the unbounded-length sentinel literal.
pub open spec fn spec_ty_to_sig(ty: TrinoTyV) -> TypeSignatureV
    decreases ty,
{
    match ty {
        TrinoTyV::Optional(t) => spec_ty_to_sig(*t),
        TrinoTyV::Decimal(p, s) => TypeSignatureV {
            raw_type: RawTrinoTy::Decimal,
            arguments: seq![SigParamV::Long(p), SigParamV::Long(s)],
        },
        TrinoTyV::Varchar => TypeSignatureV {
            raw_type: RawTrinoTy::VarChar,
            arguments: seq![SigParamV::Long(2147483647u64)],
        },
        TrinoTyV::Char(n) => TypeSignatureV {
            raw_type: RawTrinoTy::Char,
            arguments: seq![SigParamV::Long(n)],
        },
        TrinoTyV::Tuple(ts) => TypeSignatureV {
            raw_type: RawTrinoTy::Row,
            arguments: Seq::new(
                ts.len(),
                |i: int|
                    if 0 <= i < ts.len() {
                        SigParamV::Named(None, spec_ty_to_sig(ts[i]))
                    } else {
                        SigParamV::Long(0)
                    },
            ),
        },
        TrinoTyV::Row(fs) => TypeSignatureV {
            raw_type: RawTrinoTy::Row,
            arguments: Seq::new(
                fs.len(),
                |i: int|
                    if 0 <= i < fs.len() {
                        SigParamV::Named(Some(fs[i].0), spec_ty_to_sig(fs[i].1))
                    } else {
                        SigParamV::Long(0)
                    },
            ),
        },
        TrinoTyV::Array(t) => TypeSignatureV {
            raw_type: RawTrinoTy::Array,
            arguments: seq![SigParamV::Sig(spec_ty_to_sig(*t))],
        },
        TrinoTyV::MapOf(k, v) => TypeSignatureV {
            raw_type: RawTrinoTy::MapTy,
            arguments: seq![
                SigParamV::Sig(spec_ty_to_sig(*k)),
                SigParamV::Sig(spec_ty_to_sig(*v)),
            ],
        },
        _ => TypeSignatureV { raw_type: spec_raw_type(ty), arguments: Seq::empty() },
    }
}

/// Arguments of a canonical `row` signature: each is a named nested
/// signature whose payload is itself canonical.
pub open spec fn spec_args_canonical(args: Seq<SigParamV>) -> bool
    decreases args,
{
    if args.len() == 0 {
        true
    } else {
        (args[0] matches SigParamV::Named(_, s) && spec_sig_canonical(s)) && spec_args_canonical(
            args.drop_first(),
        )
    }
}

/// The signatures the server emits: arguments in exactly the shape the
/// serialiser produces. This is the normalization modulo which signature
/// round trips are exact: `varchar` carries the unbounded sentinel, scalar
/// tokens carry no arguments, and compound tokens carry exactly their
/// structural payload.
pub open spec fn spec_sig_canonical(sig: TypeSignatureV) -> bool
    decreases sig,
{
    match sig.raw_type {
        RawTrinoTy::Decimal => sig.arguments.len() == 2 && sig.arguments[0] is Long
            && sig.arguments[1] is Long,
        RawTrinoTy::VarChar => sig.arguments.len() == 1 && sig.arguments[0]
            == SigParamV::Long(2147483647u64),
        RawTrinoTy::Char => sig.arguments.len() == 1 && sig.arguments[0] is Long,
        RawTrinoTy::Array => sig.arguments.len() == 1 && (sig.arguments[0] matches
        SigParamV::Sig(s) && spec_sig_canonical(s)),
        RawTrinoTy::MapTy => sig.arguments.len() == 2 && (sig.arguments[0] matches
        SigParamV::Sig(k) && spec_sig_canonical(k)) && (sig.arguments[1] matches
        SigParamV::Sig(v) && spec_sig_canonical(v)),
        RawTrinoTy::Row => sig.arguments.len() >= 1 && spec_args_canonical(sig.arguments) && (
        spec_row_args_named(sig.arguments) || spec_row_args_unnamed(sig.arguments)),
        RawTrinoTy::HyperLogLog => false,
        RawTrinoTy::QDigest => false,
        RawTrinoTy::P4HyperLogLog => false,
        RawTrinoTy::VarBinary => false,
        _ => sig.arguments.len() == 0,
    }
}

/// `spec_named_fields` succeeds exactly when every argument is a named
/// nested signature whose payload converts, and then pairs each argument's
/// name with its converted payload, in order.
pub proof fn lemma_named_fields(args: Seq<SigParamV>)
    ensures
        spec_named_fields(args) is Some <==> (forall|i: int|
            0 <= i < args.len() ==> spec_named_ok(#[trigger] args[i])),
        spec_named_fields(args) matches Some(fields) ==> {
            &&& fields.len() == args.len()
            &&& forall|i: int|
                0 <= i < args.len() ==> #[trigger] fields[i] == (
                    spec_named_name(args[i]),
                    spec_named_ty(args[i]),
                )
        },
    decreases args,
{
    if args.len() == 0 {
    } else {
        lemma_named_fields(args.drop_first());
        if spec_named_ok(args[0]) && spec_named_fields(args.drop_first()) is Some {
            let rest = spec_named_fields(args.drop_first()).unwrap();
            let fields = spec_named_fields(args).unwrap();
            assert(fields =~= seq![(spec_named_name(args[0]), spec_named_ty(args[0]))] + rest);
            assert forall|i: int| 0 <= i < args.len() implies #[trigger] fields[i] == (
                spec_named_name(args[i]),
                spec_named_ty(args[i]),
            ) by {
                if i > 0 {
                    assert(args.drop_first()[i - 1] == args[i]);
                    assert(rest[i - 1] == (spec_named_name(args[i]), spec_named_ty(args[i])));
                }
            }
            assert forall|i: int| 0 <= i < args.len() implies spec_named_ok(
                #[trigger] args[i],
            ) by {
                if i > 0 {
                    assert(args.drop_first()[i - 1] == args[i]);
                }
            }
        } else {
            if !spec_named_ok(args[0]) {
            } else {
                let j = choose|j: int|
                    0 <= j < args.drop_first().len() && !spec_named_ok(
                        #[trigger] args.drop_first()[j],
                    );
                assert(args[j + 1] == args.drop_first()[j]);
                assert(!spec_named_ok(args[j + 1]));
            }
        }
    }
}

/// `spec_args_canonical` is equivalent to each argument being a canonical
/// named nested signature.
pub proof fn lemma_args_canonical(args: Seq<SigParamV>)
    ensures
        spec_args_canonical(args) <==> (forall|i: int|
            0 <= i < args.len() ==> ((#[trigger] args[i]) matches SigParamV::Named(_, s)
                && spec_sig_canonical(s))),
    decreases args,
{
    if args.len() == 0 {
    } else {
        lemma_args_canonical(args.drop_first());
        if spec_args_canonical(args) {
            assert forall|i: int|
                0 <= i < args.len() implies ((#[trigger] args[i]) matches SigParamV::Named(_, s)
                && spec_sig_canonical(s)) by {
                if i > 0 {
                    assert(args.drop_first()[i - 1] == args[i]);
                }
            }
        } else {
            if args[0] matches SigParamV::Named(_, s) && spec_sig_canonical(s) {
                let j = choose|j: int|
                    0 <= j < args.drop_first().len() && !((#[trigger] args.drop_first()[j])
                        matches SigParamV::Named(_, s) && spec_sig_canonical(s));
                assert(args[j + 1] == args.drop_first()[j]);
            }
        }
    }
}

/// Every argument of a `row` signature carries a field name.
pub open spec fn spec_row_args_named(args: Seq<SigParamV>) -> bool {
    forall|i: int| 0 <= i < args.len() ==> spec_named_name(#[trigger] args[i]) is Some
}

/// No argument of a `row` signature carries a field name.
pub open spec fn spec_row_args_unnamed(args: Seq<SigParamV>) -> bool {
    forall|i: int| 0 <= i < args.len() ==> spec_named_name(#[trigger] args[i]) is None
}

/// A structural type that has a faithful wire form: no `Optional` node
/// (it is erased on the wire) and no empty `Row` or `Tuple` (the wire
/// `row` signature needs at least one argument).
pub open spec fn spec_ty_wire(ty: TrinoTyV) -> bool
    decreases ty,
{
    match ty {
        TrinoTyV::Optional(_) => false,
        TrinoTyV::Tuple(ts) => ts.len() >= 1 && spec_tys_wire(ts),
        TrinoTyV::Row(fs) => fs.len() >= 1 && spec_fields_wire(fs),
        TrinoTyV::Array(t) => spec_ty_wire(*t),
        TrinoTyV::MapOf(k, v) => spec_ty_wire(*k) && spec_ty_wire(*v),
        _ => true,
    }
}

pub open spec fn spec_tys_wire(ts: Seq<TrinoTyV>) -> bool
    decreases ts,
{
    if ts.len() == 0 {
        true
    } else {
        spec_ty_wire(ts[0]) && spec_tys_wire(ts.drop_first())
    }
}

pub open spec fn spec_fields_wire(fs: Seq<(Seq<char>, TrinoTyV)>) -> bool
    decreases fs,
{
    if fs.len() == 0 {
        true
    } else {
        spec_ty_wire(fs[0].1) && spec_fields_wire(fs.drop_first())
    }
}

pub proof fn lemma_tys_wire_pointwise(ts: Seq<TrinoTyV>)
    ensures
        spec_tys_wire(ts) <==> (forall|i: int|
            0 <= i < ts.len() ==> spec_ty_wire(#[trigger] ts[i])),
    decreases ts,
{
    if ts.len() == 0 {
    } else {
        lemma_tys_wire_pointwise(ts.drop_first());
        if spec_tys_wire(ts) {
            assert forall|i: int| 0 <= i < ts.len() implies spec_ty_wire(#[trigger] ts[i]) by {
                if i > 0 {
                    assert(ts.drop_first()[i - 1] == ts[i]);
                }
            }
        } else {
            if spec_ty_wire(ts[0]) {
                let j = choose|j: int|
                    0 <= j < ts.drop_first().len() && !spec_ty_wire(#[trigger] ts.drop_first()[j]);
                assert(ts[j + 1] == ts.drop_first()[j]);
            }
        }
    }
}

pub proof fn lemma_fields_wire_pointwise(fs: Seq<(Seq<char>, TrinoTyV)>)
    ensures
        spec_fields_wire(fs) <==> (forall|i: int|
            0 <= i < fs.len() ==> spec_ty_wire((#[trigger] fs[i]).1)),
    decreases fs,
{
    if fs.len() == 0 {
    } else {
        lemma_fields_wire_pointwise(fs.drop_first());
        if spec_fields_wire(fs) {
            assert forall|i: int| 0 <= i < fs.len() implies spec_ty_wire((#[trigger] fs[i]).1) by {
                if i > 0 {
                    assert(fs.drop_first()[i - 1] == fs[i]);
                }
            }
        } else {
            if spec_ty_wire(fs[0].1) {
                let j = choose|j: int|
                    0 <= j < fs.drop_first().len() && !spec_ty_wire(
                        (#[trigger] fs.drop_first()[j]).1,
                    );
                assert(fs[j + 1] == fs.drop_first()[j]);
            }
        }
    }
}

/// Serialising a wire-representable structural type gives a canonical
/// signature, and deserialising that signature gives the type back.
pub proof fn lemma_ty_sig_round_trip(ty: TrinoTyV)
    requires
        spec_ty_wire(ty),
    ensures
        spec_sig_canonical(spec_ty_to_sig(ty)),
        spec_sig_to_ty(spec_ty_to_sig(ty)) == Some(ty),
    decreases ty,
{
    let sig = spec_ty_to_sig(ty);
    match ty {
        TrinoTyV::Tuple(ts) => {
            lemma_tys_wire_pointwise(ts);
            assert forall|i: int| 0 <= i < ts.len() implies spec_named_ok(
                #[trigger] sig.arguments[i],
            ) && spec_named_name(sig.arguments[i]) is None && spec_named_ty(sig.arguments[i])
                == ts[i] && (sig.arguments[i] matches SigParamV::Named(_, s)
                && spec_sig_canonical(s)) by {
                lemma_ty_sig_round_trip(ts[i]);
            }
            lemma_named_fields(sig.arguments);
            lemma_args_canonical(sig.arguments);
            let fields = spec_named_fields(sig.arguments).unwrap();
            assert(spec_sig_to_ty(sig) == Some(
                TrinoTyV::Tuple(Seq::new(fields.len(), |i: int| fields[i].1)),
            ));
            assert(Seq::new(fields.len(), |i: int| fields[i].1) =~= ts);
        },
        TrinoTyV::Row(fs) => {
            lemma_fields_wire_pointwise(fs);
            assert forall|i: int| 0 <= i < fs.len() implies spec_named_ok(
                #[trigger] sig.arguments[i],
            ) && spec_named_name(sig.arguments[i]) == Some(fs[i].0) && spec_named_ty(
                sig.arguments[i],
            ) == fs[i].1 && (sig.arguments[i] matches SigParamV::Named(_, s)
                && spec_sig_canonical(s)) by {
                lemma_ty_sig_round_trip(fs[i].1);
            }
            lemma_named_fields(sig.arguments);
            lemma_args_canonical(sig.arguments);
            let fields = spec_named_fields(sig.arguments).unwrap();
            assert(fields[0].0 is Some);
            assert(spec_sig_to_ty(sig) == Some(
                TrinoTyV::Row(
                    Seq::new(fields.len(), |i: int| (fields[i].0.unwrap(), fields[i].1)),
                ),
            ));
            assert(Seq::new(fields.len(), |i: int| (fields[i].0.unwrap(), fields[i].1)) =~= fs);
        },
        TrinoTyV::Array(t) => {
            lemma_ty_sig_round_trip(*t);
        },
        TrinoTyV::MapOf(k, v) => {
            lemma_ty_sig_round_trip(*k);
            lemma_ty_sig_round_trip(*v);
        },
        _ => {},
    }
}

/// Deserialising a canonical signature succeeds, and serialising the
/// result gives the signature back: the type-signature round trip is
/// exact on everything the server emits.
pub proof fn lemma_sig_ty_round_trip(sig: TypeSignatureV)
    requires
        spec_sig_canonical(sig),
    ensures
        spec_sig_to_ty(sig) is Some,
        spec_ty_to_sig(spec_sig_to_ty(sig).unwrap()) == sig,
    decreases sig,
{
    match sig.raw_type {
        RawTrinoTy::Row => {
            lemma_args_canonical(sig.arguments);
            assert forall|i: int| 0 <= i < sig.arguments.len() implies spec_named_ok(
                #[trigger] sig.arguments[i],
            ) && spec_ty_to_sig(spec_named_ty(sig.arguments[i])) == sig.arguments[i]->Named_1 by {
                let s = sig.arguments[i]->Named_1;
                lemma_sig_ty_round_trip(s);
            }
            lemma_named_fields(sig.arguments);
            let fields = spec_named_fields(sig.arguments).unwrap();
            if spec_row_args_named(sig.arguments) {
                assert(fields[0].0 is Some);
                let rs = Seq::new(fields.len(), |i: int| (fields[i].0.unwrap(), fields[i].1));
                assert(spec_sig_to_ty(sig) == Some(TrinoTyV::Row(rs)));
                let back = spec_ty_to_sig(TrinoTyV::Row(rs));
                assert forall|i: int| 0 <= i < sig.arguments.len() implies #[trigger] back
                    .arguments[i] == sig.arguments[i] by {
                    assert(spec_named_name(sig.arguments[i]) is Some);
                    assert(rs[i] == (fields[i].0.unwrap(), fields[i].1));
                }
                assert(back.arguments =~= sig.arguments);
            } else {
                assert(spec_row_args_unnamed(sig.arguments));
                assert(fields[0].0 is None);
                let rs = Seq::new(fields.len(), |i: int| fields[i].1);
                assert(spec_sig_to_ty(sig) == Some(TrinoTyV::Tuple(rs)));
                let back = spec_ty_to_sig(TrinoTyV::Tuple(rs));
                assert forall|i: int| 0 <= i < sig.arguments.len() implies #[trigger] back
                    .arguments[i] == sig.arguments[i] by {
                    assert(spec_named_name(sig.arguments[i]) is None);
                    assert(rs[i] == fields[i].1);
                }
                assert(back.arguments =~= sig.arguments);
            }
        },
        RawTrinoTy::Array => {
            let s = sig.arguments[0]->Sig_0;
            lemma_sig_ty_round_trip(s);
            let back = spec_ty_to_sig(spec_sig_to_ty(sig).unwrap());
            assert(back.arguments =~= sig.arguments);
        },
        RawTrinoTy::MapTy => {
            lemma_sig_ty_round_trip(sig.arguments[0]->Sig_0);
            lemma_sig_ty_round_trip(sig.arguments[1]->Sig_0);
            let back = spec_ty_to_sig(spec_sig_to_ty(sig).unwrap());
            assert(back.arguments =~= sig.arguments);
        },
        RawTrinoTy::Decimal => {
            let back = spec_ty_to_sig(spec_sig_to_ty(sig).unwrap());
            assert(back.arguments =~= sig.arguments);
        },
        RawTrinoTy::Char => {
            let back = spec_ty_to_sig(spec_sig_to_ty(sig).unwrap());
            assert(back.arguments =~= sig.arguments);
        },
        RawTrinoTy::VarChar => {
            let back = spec_ty_to_sig(spec_sig_to_ty(sig).unwrap());
            assert(back.arguments =~= sig.arguments);
        },
        _ => {
            let back = spec_ty_to_sig(spec_sig_to_ty(sig).unwrap());
            assert(back.arguments =~= sig.arguments);
        },
    }
}

impl TrinoTy {
    /// Serialise this structural type into its wire signature; `Optional`
    /// is erased and `varchar` carries the unbounded-length sentinel.
    pub fn into_type_signature(self) -> (r: TypeSignature)
        ensures
            r@ == spec_ty_to_sig(self@),
    {
        self.to_sig_ref()
    }

    #[verifier::loop_isolation(false)]
    fn to_sig_ref(&self) -> (r: TypeSignature)
        ensures
            r@ == spec_ty_to_sig(self@),
        decreases *self,
    {
        match self {
            TrinoTy::Optional(t) => t.to_sig_ref(),
            TrinoTy::Decimal(p, s) => {
                let mut args: Vec<ClientTypeSignatureParameter> = Vec::new();
                args.push(ClientTypeSignatureParameter::LongLiteral(*p));
                args.push(ClientTypeSignatureParameter::LongLiteral(*s));
                let r = TypeSignature { raw_type: RawTrinoTy::Decimal, arguments: args };
                proof {
                    assert(r@.arguments =~= spec_ty_to_sig(self@).arguments);
                }
                r
            },
            TrinoTy::Varchar => {
                let mut args: Vec<ClientTypeSignatureParameter> = Vec::new();
                args.push(ClientTypeSignatureParameter::LongLiteral(2147483647u64));
                let r = TypeSignature { raw_type: RawTrinoTy::VarChar, arguments: args };
                proof {
                    assert(r@.arguments =~= spec_ty_to_sig(self@).arguments);
                }
                r
            },
            TrinoTy::Char(n) => {
                let mut args: Vec<ClientTypeSignatureParameter> = Vec::new();
                args.push(ClientTypeSignatureParameter::LongLiteral(*n));
                let r = TypeSignature { raw_type: RawTrinoTy::Char, arguments: args };
                proof {
                    assert(r@.arguments =~= spec_ty_to_sig(self@).arguments);
                }
                r
            },
            TrinoTy::Tuple(ts) => {
                let mut args: Vec<ClientTypeSignatureParameter> = Vec::new();
                let n = ts.len();
                let mut i: usize = 0;
                while i < n
                    invariant
                        n == ts@.len(),
                        i <= n,
                        args@.len() == i,
                        forall|j: int|
                            0 <= j < i ==> param_view(#[trigger] args@[j]) == SigParamV::Named(
                                None,
                                spec_ty_to_sig(ty_view(ts@[j])),
                            ),
                    decreases n - i,
                {
                    let inner = ts[i].to_sig_ref();
                    args.push(
                        ClientTypeSignatureParameter::NamedTypeSignature(
                            NamedTypeSignature { field_name: None, type_signature: inner },
                        ),
                    );
                    i += 1;
                }
                let r = TypeSignature { raw_type: RawTrinoTy::Row, arguments: args };
                proof {
                    assert(r@.arguments =~= spec_ty_to_sig(self@).arguments);
                }
                r
            },
            TrinoTy::Row(fs) => {
                let mut args: Vec<ClientTypeSignatureParameter> = Vec::new();
                let n = fs.len();
                let mut i: usize = 0;
                while i < n
                    invariant
                        n == fs@.len(),
                        i <= n,
                        args@.len() == i,
                        forall|j: int|
                            0 <= j < i ==> param_view(#[trigger] args@[j]) == SigParamV::Named(
                                Some(fs@[j].0@),
                                spec_ty_to_sig(ty_view(fs@[j].1)),
                            ),
                    decreases n - i,
                {
                    let inner = fs[i].1.to_sig_ref();
                    let name = fs[i].0.clone();
                    args.push(
                        ClientTypeSignatureParameter::NamedTypeSignature(
                            NamedTypeSignature {
                                field_name: Some(RowFieldName::new(name)),
                                type_signature: inner,
                            },
                        ),
                    );
                    i += 1;
                }
                let r = TypeSignature { raw_type: RawTrinoTy::Row, arguments: args };
                proof {
                    assert(r@.arguments =~= spec_ty_to_sig(self@).arguments);
                }
                r
            },
            TrinoTy::Array(t) => {
                let inner = t.to_sig_ref();
                let mut args: Vec<ClientTypeSignatureParameter> = Vec::new();
                args.push(ClientTypeSignatureParameter::TypeSignature(inner));
                let r = TypeSignature { raw_type: RawTrinoTy::Array, arguments: args };
                proof {
                    assert(r@.arguments =~= spec_ty_to_sig(self@).arguments);
                }
                r
            },
            TrinoTy::MapOf(k, v) => {
                let ks = k.to_sig_ref();
                let vs = v.to_sig_ref();
                let mut args: Vec<ClientTypeSignatureParameter> = Vec::new();
                args.push(ClientTypeSignatureParameter::TypeSignature(ks));
                args.push(ClientTypeSignatureParameter::TypeSignature(vs));
                let r = TypeSignature { raw_type: RawTrinoTy::MapTy, arguments: args };
                proof {
                    assert(r@.arguments =~= spec_ty_to_sig(self@).arguments);
                }
                r
            },
            _ => {
                let raw = self.raw_type();
                let r = TypeSignature { raw_type: raw, arguments: Vec::new() };
                proof {
                    assert(r@.arguments =~= spec_ty_to_sig(self@).arguments);
                }
                r
            },
        }
    }
}

/// The character view of an optional string.
pub open spec fn opt_str_view(o: Option<String>) -> Option<Seq<char>> {
    match o {
        Some(s) => Some(s@),
        None => None,
    }
}

impl TrinoTy {
    /// Interpret a wire type signature as a structural type, enforcing the
    /// arity and naming rules of each raw type token; every invalid
    /// combination is rejected with `InvalidTypeSignature`.
    pub fn from_type_signature(sig: TypeSignature) -> (r: Result<TrinoTy, Error>)
        ensures
            r is Ok <==> spec_sig_to_ty(sig@) is Some,
            r matches Ok(t) ==> Some(t@) == spec_sig_to_ty(sig@),
            r matches Err(e) ==> e is InvalidTypeSignature,
    {
        Self::from_sig_ref(&sig)
    }

    #[verifier::loop_isolation(false)]
    fn from_sig_ref(sig: &TypeSignature) -> (r: Result<TrinoTy, Error>)
        ensures
            r is Ok <==> spec_sig_to_ty(sig@) is Some,
            r matches Ok(t) ==> Some(t@) == spec_sig_to_ty(sig@),
            r matches Err(e) ==> e is InvalidTypeSignature,
        decreases *sig,
    {
        match sig.raw_type {
            RawTrinoTy::Date => Ok(TrinoTy::Date),
            RawTrinoTy::Time => Ok(TrinoTy::Time),
            RawTrinoTy::TimeWithTimeZone => Ok(TrinoTy::TimeWithTimeZone),
            RawTrinoTy::Timestamp => Ok(TrinoTy::Timestamp),
            RawTrinoTy::TimestampWithTimeZone => Ok(TrinoTy::TimestampWithTimeZone),
            RawTrinoTy::IntervalYearToMonth => Ok(TrinoTy::IntervalYearToMonth),
            RawTrinoTy::IntervalDayToSecond => Ok(TrinoTy::IntervalDayToSecond),
            RawTrinoTy::Unknown => Ok(TrinoTy::Unknown),
            RawTrinoTy::Boolean => Ok(TrinoTy::Boolean),
            RawTrinoTy::TinyInt => Ok(TrinoTy::TrinoInt(TrinoInt::I8)),
            RawTrinoTy::SmallInt => Ok(TrinoTy::TrinoInt(TrinoInt::I16)),
            RawTrinoTy::Integer => Ok(TrinoTy::TrinoInt(TrinoInt::I32)),
            RawTrinoTy::BigInt => Ok(TrinoTy::TrinoInt(TrinoInt::I64)),
            RawTrinoTy::Real => Ok(TrinoTy::TrinoFloat(TrinoFloat::F32)),
            RawTrinoTy::Double => Ok(TrinoTy::TrinoFloat(TrinoFloat::F64)),
            RawTrinoTy::VarChar => Ok(TrinoTy::Varchar),
            RawTrinoTy::IpAddress => Ok(TrinoTy::IpAddress),
            RawTrinoTy::Uuid => Ok(TrinoTy::Uuid),
            RawTrinoTy::Json => Ok(TrinoTy::Json),
            RawTrinoTy::Decimal => {
                if sig.arguments.len() == 2 {
                    match (&sig.arguments[0], &sig.arguments[1]) {
                        (
                            ClientTypeSignatureParameter::LongLiteral(p),
                            ClientTypeSignatureParameter::LongLiteral(sc),
                        ) => Ok(TrinoTy::Decimal(*p, *sc)),
                        _ => Err(Error::InvalidTypeSignature),
                    }
                } else {
                    Err(Error::InvalidTypeSignature)
                }
            },
            RawTrinoTy::Char => {
                if sig.arguments.len() == 1 {
                    match &sig.arguments[0] {
                        ClientTypeSignatureParameter::LongLiteral(n) => Ok(TrinoTy::Char(*n)),
                        _ => Err(Error::InvalidTypeSignature),
                    }
                } else {
                    Err(Error::InvalidTypeSignature)
                }
            },
            RawTrinoTy::Array => {
                if sig.arguments.len() == 1 {
                    match &sig.arguments[0] {
                        ClientTypeSignatureParameter::TypeSignature(inner) => {
                            match Self::from_sig_ref(inner) {
                                Ok(t) => Ok(TrinoTy::Array(Box::new(t))),
                                Err(e) => Err(e),
                            }
                        },
                        _ => Err(Error::InvalidTypeSignature),
                    }
                } else {
                    Err(Error::InvalidTypeSignature)
                }
            },
            RawTrinoTy::MapTy => {
                if sig.arguments.len() == 2 {
                    match (&sig.arguments[0], &sig.arguments[1]) {
                        (
                            ClientTypeSignatureParameter::TypeSignature(ks),
                            ClientTypeSignatureParameter::TypeSignature(vs),
                        ) => {
                            match Self::from_sig_ref(ks) {
                                Ok(k) => match Self::from_sig_ref(vs) {
                                    Ok(v) => Ok(TrinoTy::MapOf(Box::new(k), Box::new(v))),
                                    Err(e) => Err(e),
                                },
                                Err(e) => Err(e),
                            }
                        },
                        _ => Err(Error::InvalidTypeSignature),
                    }
                } else {
                    Err(Error::InvalidTypeSignature)
                }
            },
            RawTrinoTy::Row => {
                let r = Self::row_from_args(&sig.arguments);
                proof {
                    let argsv = Seq::new(
                        sig.arguments@.len(),
                        |i: int|
                            if 0 <= i < sig.arguments@.len() {
                                param_view(sig.arguments@[i])
                            } else {
                                SigParamV::Long(0)
                            },
                    );
                    assert(argsv =~= sig@.arguments);
                    assert(TypeSignatureV { raw_type: RawTrinoTy::Row, arguments: argsv } == sig@);
                }
                r
            },
            RawTrinoTy::HyperLogLog => Err(Error::InvalidTypeSignature),
            RawTrinoTy::QDigest => Err(Error::InvalidTypeSignature),
            RawTrinoTy::P4HyperLogLog => Err(Error::InvalidTypeSignature),
            RawTrinoTy::VarBinary => Err(Error::InvalidTypeSignature),
        }
    }

    /// Interpret the arguments of a `row` signature: every argument must be
    /// a named nested signature; all named gives `Row`, none named gives
    /// `Tuple`, anything else is invalid.
    #[verifier::loop_isolation(false)]
    fn row_from_args(args: &Vec<ClientTypeSignatureParameter>) -> (r: Result<TrinoTy, Error>)
        ensures
            ({
                let spec = spec_sig_to_ty(
                    TypeSignatureV {
                        raw_type: RawTrinoTy::Row,
                        arguments: Seq::new(
                            args@.len(),
                            |i: int|
                                if 0 <= i < args@.len() {
                                    param_view(args@[i])
                                } else {
                                    SigParamV::Long(0)
                                },
                        ),
                    },
                );
                &&& (r is Ok <==> spec is Some)
                &&& (r matches Ok(t) ==> Some(t@) == spec)
                &&& (r matches Err(e) ==> e is InvalidTypeSignature)
            }),
        decreases args@,
    {
        let ghost argsv = Seq::new(
            args@.len(),
            |i: int| if 0 <= i < args@.len() { param_view(args@[i]) } else { SigParamV::Long(0) },
        );
        proof {
            lemma_named_fields(argsv);
        }
        if args.len() == 0 {
            return Err(Error::InvalidTypeSignature);
        }
        let n = args.len();
        let mut pairs: Vec<(Option<String>, TrinoTy)> = Vec::new();
        let mut i: usize = 0;
        while i < n
            invariant
                i <= n,
                pairs@.len() == i,
                forall|j: int| 0 <= j < i ==> spec_named_ok(#[trigger] argsv[j]),
                forall|j: int|
                    0 <= j < i ==> spec_named_name(argsv[j]) == opt_str_view(
                        (#[trigger] pairs@[j]).0,
                    ),
                forall|j: int|
                    0 <= j < i ==> spec_named_ty(argsv[j]) == ty_view((#[trigger] pairs@[j]).1),
            decreases n - i,
        {
            match &args[i] {
                ClientTypeSignatureParameter::NamedTypeSignature(nts) => {
                    match Self::from_sig_ref(&nts.type_signature) {
                        Ok(t) => {
                            let name: Option<String> = match &nts.field_name {
                                Some(f) => Some(f.name.clone()),
                                None => None,
                            };
                            pairs.push((name, t));
                        },
                        Err(e) => {
                            proof {
                                assert(!spec_named_ok(argsv[i as int]));
                            }
                            return Err(e);
                        },
                    }
                },
                _ => {
                    proof {
                        assert(!spec_named_ok(argsv[i as int]));
                    }
                    return Err(Error::InvalidTypeSignature);
                },
            }
            i += 1;
        }
        let ghost fields = spec_named_fields(argsv).unwrap();
        let ghost pairs0 = pairs@;
        proof {
            assert(forall|j: int|
                0 <= j < n ==> #[trigger] fields[j] == (
                    spec_named_name(argsv[j]),
                    spec_named_ty(argsv[j]),
                ));
        }
        if pairs[0].0.is_some() {
            let mut out: Vec<(String, TrinoTy)> = Vec::new();
            let mut i: usize = 0;
            while i < n
                invariant
                    i <= n,
                    out@.len() == i,
                    pairs@ =~= pairs0.subrange(i as int, n as int),
                    forall|j: int| 0 <= j < i ==> fields[j].0 is Some,
                    forall|j: int|
                        0 <= j < i ==> (#[trigger] out@[j]).0@ == fields[j].0.unwrap()
                            && ty_view(out@[j].1) == fields[j].1,
                decreases n - i,
            {
                let (name, t) = pairs.remove(0);
                proof {
                    assert(pairs0.subrange(i as int, n as int)[0] == pairs0[i as int]);
                }
                match name {
                    Some(nm) => {
                        out.push((nm, t));
                    },
                    None => {
                        proof {
                            assert(fields[i as int].0 is None);
                        }
                        return Err(Error::InvalidTypeSignature);
                    },
                }
                i += 1;
            }
            let r = TrinoTy::Row(out);
            proof {
                assert(r@ matches TrinoTyV::Row(rs) && rs =~= Seq::new(
                    fields.len(),
                    |i: int| (fields[i].0.unwrap(), fields[i].1),
                ));
            }
            Ok(r)
        } else {
            let mut out: Vec<TrinoTy> = Vec::new();
            let mut i: usize = 0;
            while i < n
                invariant
                    i <= n,
                    out@.len() == i,
                    pairs@ =~= pairs0.subrange(i as int, n as int),
                    forall|j: int| 0 <= j < i ==> fields[j].0 is None,
                    forall|j: int| 0 <= j < i ==> ty_view(#[trigger] out@[j]) == fields[j].1,
                decreases n - i,
            {
                let (name, t) = pairs.remove(0);
                proof {
                    assert(pairs0.subrange(i as int, n as int)[0] == pairs0[i as int]);
                }
                match name {
                    Some(_) => {
                        proof {
                            assert(fields[i as int].0 is Some);
                        }
                        return Err(Error::InvalidTypeSignature);
                    },
                    None => {
                        out.push(t);
                    },
                }
                i += 1;
            }
            let r = TrinoTy::Tuple(out);
            proof {
                assert(r@ matches TrinoTyV::Tuple(rs) && rs =~= Seq::new(
                    fields.len(),
                    |i: int| fields[i].1,
                ));
            }
            Ok(r)
        }
    }
}

/// What a column descriptor denotes: its name paired with the structural
/// type of its signature. A column without a signature, or with an invalid
/// one, denotes nothing.
pub open spec fn spec_from_column(c: ColumnV) -> Option<(Seq<char>, TrinoTyV)> {
    match c.type_signature {
        Some(s) => match spec_sig_to_ty(s) {
            Some(t) => Some((c.name, t)),
            None => None,
        },
        None => None,
    }
}

/// The views of a sequence of column descriptors.
pub open spec fn cols_view(cs: Seq<Column>) -> Seq<ColumnV> {
    Seq::new(cs.len(), |i: int| if 0 <= i < cs.len() { cs[i]@ } else { arbitrary() })
}

/// The row type described by a list of columns, or `None` when some column
/// has no valid signature.
pub open spec fn spec_from_columns(cols: Seq<ColumnV>) -> Option<TrinoTyV> {
    if forall|i: int| 0 <= i < cols.len() ==> spec_from_column(#[trigger] cols[i]) is Some {
        Some(
            TrinoTyV::Row(
                Seq::new(
                    cols.len(),
                    |i: int| spec_from_column(cols[i]).unwrap(),
                ),
            ),
        )
    } else {
        None
    }
}

impl TrinoTy {
    /// Read one column descriptor: its name and the structural type of its
    /// signature. A column without a signature is rejected with
    /// `InvalidColumn`, one with an invalid signature with
    /// `InvalidTypeSignature`.
    pub fn from_column(column: Column) -> (r: Result<(String, TrinoTy), Error>)
        ensures
            r is Ok <==> spec_from_column(column@) is Some,
            r matches Ok(p) ==> Some((p.0@, p.1@)) == spec_from_column(column@),
            column@.type_signature is None ==> (r matches Err(e) && e is InvalidColumn),
            (column@.type_signature matches Some(s) && spec_sig_to_ty(s) is None) ==> (r matches
            Err(e) && e is InvalidTypeSignature),
    {
        let name = column.name;
        match column.type_signature {
            Some(sig) => match Self::from_type_signature(sig) {
                Ok(t) => Ok((name, t)),
                Err(e) => Err(e),
            },
            None => Err(Error::InvalidColumn),
        }
    }

    /// Read a full column list into the row type it describes; fails as
    /// soon as one column does.
    #[verifier::loop_isolation(false)]
    pub fn from_columns(columns: Vec<Column>) -> (r: Result<TrinoTy, Error>)
        ensures
            r is Ok <==> spec_from_columns(cols_view(columns@)) is Some,
            r matches Ok(t) ==> Some(t@) == spec_from_columns(cols_view(columns@)),
            r matches Err(e) ==> (e is InvalidColumn || e is InvalidTypeSignature),
    {
        let ghost colsv = cols_view(columns@);
        let mut out: Vec<(String, TrinoTy)> = Vec::new();
        let n = columns.len();
        let mut columns = columns;
        let ghost cols0 = columns@;
        let mut i: usize = 0;
        while i < n
            invariant
                i <= n,
                out@.len() == i,
                columns@ =~= cols0.subrange(i as int, n as int),
                forall|j: int| 0 <= j < i ==> spec_from_column(#[trigger] colsv[j]) is Some,
                forall|j: int|
                    0 <= j < i ==> spec_from_column(colsv[j]) == Some(
                        ((#[trigger] out@[j]).0@, ty_view(out@[j].1)),
                    ),
            decreases n - i,
        {
            let col = columns.remove(0);
            proof {
                assert(cols0.subrange(i as int, n as int)[0] == cols0[i as int]);
                assert(colsv[i as int] == cols0[i as int]@);
            }
            match Self::from_column(col) {
                Ok(p) => {
                    out.push(p);
                },
                Err(e) => {
                    proof {
                        assert(spec_from_column(colsv[i as int]) is None);
                    }
                    return Err(e);
                },
            }
            i += 1;
        }
        let r = TrinoTy::Row(out);
        proof {
            assert(r@ matches TrinoTyV::Row(rs) && rs =~= Seq::new(
                colsv.len(),
                |i: int| spec_from_column(colsv[i]).unwrap(),
            ));
        }
        Ok(r)
    }
}

/// The character for one decimal digit.
pub open spec fn spec_dec_digit(d: nat) -> char {
    if d == 0 {
        '0'
    } else if d == 1 {
        '1'
    } else if d == 2 {
        '2'
    } else if d == 3 {
        '3'
    } else if d == 4 {
        '4'
    } else if d == 5 {
        '5'
    } else if d == 6 {
        '6'
    } else if d == 7 {
        '7'
    } else if d == 8 {
        '8'
    } else {
        '9'
    }
}

/// The decimal rendering of a number, most significant digit first, with
/// no leading zero except for zero itself.
pub open spec fn spec_dec_str(n: nat) -> Seq<char>
    decreases n,
{
    if n < 10 {
        seq![spec_dec_digit(n)]
    } else {
        spec_dec_str(n / 10).push(spec_dec_digit(n % 10))
    }
}

fn dec_digit(d: u64) -> (c: char)
    requires
        d < 10,
    ensures
        c == spec_dec_digit(d as nat),
{
    if d == 0 {
        '0'
    } else if d == 1 {
        '1'
    } else if d == 2 {
        '2'
    } else if d == 3 {
        '3'
    } else if d == 4 {
        '4'
    } else if d == 5 {
        '5'
    } else if d == 6 {
        '6'
    } else if d == 7 {
        '7'
    } else if d == 8 {
        '8'
    } else {
        '9'
    }
}

/// Relies on `String::push`: appends exactly the one character.
#[verifier::external_body]
pub(crate) fn string_push(s: &mut String, c: char)
    ensures
        final(s)@ == old(s)@.push(c),
{
    s.push(c);
}

/// Render a number in decimal.
pub fn u64_to_dec(n: u64) -> (r: String)
    ensures
        r@ == spec_dec_str(n as nat),
    decreases n,
{
    if n < 10 {
        let mut s = String::new();
        string_push(&mut s, dec_digit(n));
        proof {
            assert(s@ =~= spec_dec_str(n as nat));
        }
        s
    } else {
        assert(n / 10 < n);
        let mut s = u64_to_dec(n / 10);
        string_push(&mut s, dec_digit(n % 10));
        s
    }
}

/// The canonical string of a structural type, as it stands in the `type`
/// field of a column descriptor: `decimal(p,s)`, `char(n)`,
/// `array(inner)`, `map(k,v)`, `row(name inner,...)`, or the raw token
/// itself. A `Tuple` renders as a `row(...)` of unnamed fields, and
/// `Optional` renders as its payload.
pub open spec fn spec_full_type(ty: TrinoTyV) -> Seq<char>
    decreases ty,
{
    match ty {
        TrinoTyV::Optional(t) => spec_full_type(*t),
        TrinoTyV::Decimal(p, s) => "decimal("@ + spec_dec_str(p as nat) + ","@ + spec_dec_str(
            s as nat,
        ) + ")"@,
        TrinoTyV::Char(n) => "char("@ + spec_dec_str(n as nat) + ")"@,
        TrinoTyV::Tuple(ts) => "row("@ + spec_join_tys(ts) + ")"@,
        TrinoTyV::Row(fs) => "row("@ + spec_join_fields(fs) + ")"@,
        TrinoTyV::Array(t) => "array("@ + spec_full_type(*t) + ")"@,
        TrinoTyV::MapOf(k, v) => "map("@ + spec_full_type(*k) + ","@ + spec_full_type(*v) + ")"@,
        _ => crate::raw_ty::spec_raw_str(spec_raw_type(ty)),
    }
}

/// The comma-joined renderings of a tuple's member types.
pub open spec fn spec_join_tys(ts: Seq<TrinoTyV>) -> Seq<char>
    decreases ts,
{
    if ts.len() == 0 {
        Seq::empty()
    } else if ts.len() == 1 {
        spec_full_type(ts[0])
    } else {
        spec_full_type(ts[0]) + ","@ + spec_join_tys(ts.drop_first())
    }
}

/// The comma-joined `name type` renderings of a row's fields.
pub open spec fn spec_join_fields(fs: Seq<(Seq<char>, TrinoTyV)>) -> Seq<char>
    decreases fs,
{
    if fs.len() == 0 {
        Seq::empty()
    } else if fs.len() == 1 {
        fs[0].0 + " "@ + spec_full_type(fs[0].1)
    } else {
        fs[0].0 + " "@ + spec_full_type(fs[0].1) + ","@ + spec_join_fields(fs.drop_first())
    }
}

proof fn lemma_join_tys_push(ts: Seq<TrinoTyV>, x: TrinoTyV)
    ensures
        spec_join_tys(ts.push(x)) == if ts.len() == 0 {
            spec_full_type(x)
        } else {
            spec_join_tys(ts) + ","@ + spec_full_type(x)
        },
    decreases ts,
{
    if ts.len() == 0 {
        assert(ts.push(x).len() == 1);
        assert(ts.push(x)[0] == x);
    } else {
        lemma_join_tys_push(ts.drop_first(), x);
        assert(ts.push(x).drop_first() =~= ts.drop_first().push(x));
        assert(ts.push(x)[0] == ts[0]);
        if ts.len() == 1 {
            assert(ts.drop_first().len() == 0);
            assert(spec_join_tys(ts.push(x)) == spec_full_type(ts[0]) + ","@ + spec_full_type(x));
            assert(spec_join_tys(ts) == spec_full_type(ts[0]));
        }
    }
}

proof fn lemma_join_fields_push(fs: Seq<(Seq<char>, TrinoTyV)>, x: (Seq<char>, TrinoTyV))
    ensures
        spec_join_fields(fs.push(x)) == if fs.len() == 0 {
            x.0 + " "@ + spec_full_type(x.1)
        } else {
            spec_join_fields(fs) + ","@ + (x.0 + " "@ + spec_full_type(x.1))
        },
    decreases fs,
{
    if fs.len() == 0 {
        assert(fs.push(x).len() == 1);
        assert(fs.push(x)[0] == x);
    } else {
        lemma_join_fields_push(fs.drop_first(), x);
        assert(fs.push(x).drop_first() =~= fs.drop_first().push(x));
        assert(fs.push(x)[0] == fs[0]);
        if fs.len() == 1 {
            assert(fs.drop_first().len() == 0);
        }
        assert(spec_join_fields(fs.push(x)) =~= if fs.len() == 0 {
            x.0 + " "@ + spec_full_type(x.1)
        } else {
            spec_join_fields(fs) + ","@ + (x.0 + " "@ + spec_full_type(x.1))
        });
    }
}

impl TrinoTy {
    /// Render this type's canonical string form.
    #[verifier::loop_isolation(false)]
    #[verifier::rlimit(60)]
    pub fn full_type(&self) -> (r: String)
        ensures
            r@ == spec_full_type(self@),
        decreases *self,
    {
        match self {
            TrinoTy::Optional(t) => t.full_type(),
            TrinoTy::Decimal(p, s) => {
                let mut out = String::new();
                out.append("decimal(");
                let ps = u64_to_dec(*p);
                out.append(ps.as_str());
                out.append(",");
                let ss = u64_to_dec(*s);
                out.append(ss.as_str());
                out.append(")");
                out
            },
            TrinoTy::Char(n) => {
                let mut out = String::new();
                out.append("char(");
                let ns = u64_to_dec(*n);
                out.append(ns.as_str());
                out.append(")");
                out
            },
            TrinoTy::Array(t) => {
                let mut out = String::new();
                out.append("array(");
                let inner = t.full_type();
                out.append(inner.as_str());
                out.append(")");
                out
            },
            TrinoTy::MapOf(k, v) => {
                let mut out = String::new();
                out.append("map(");
                let ks = k.full_type();
                out.append(ks.as_str());
                out.append(",");
                let vs = v.full_type();
                out.append(vs.as_str());
                out.append(")");
                out
            },
            TrinoTy::Tuple(ts) => {
                let ghost tsv = self@->Tuple_0;
                let mut out = String::new();
                out.append("row(");
                let n = ts.len();
                let mut i: usize = 0;
                while i < n
                    invariant
                        i <= n,
                        out@ == "row("@ + spec_join_tys(tsv.take(i as int)),
                    decreases n - i,
                {
                    if i > 0 {
                        out.append(",");
                    }
                    let piece = ts[i].full_type();
                    out.append(piece.as_str());
                    proof {
                        assert(tsv.take(i as int).len() == i);
                        lemma_join_tys_push(tsv.take(i as int), tsv[i as int]);
                        assert(tsv.take(i as int).push(tsv[i as int]) =~= tsv.take(i + 1 as int));
                    }
                    i += 1;
                }
                out.append(")");
                proof {
                    assert(tsv.take(n as int) =~= tsv);
                }
                out
            },
            TrinoTy::Row(fs) => {
                let ghost fsv = self@->Row_0;
                let mut out = String::new();
                out.append("row(");
                let n = fs.len();
                let mut i: usize = 0;
                while i < n
                    invariant
                        i <= n,
                        out@ == "row("@ + spec_join_fields(fsv.take(i as int)),
                    decreases n - i,
                {
                    if i > 0 {
                        out.append(",");
                    }
                    out.append(fs[i].0.as_str());
                    out.append(" ");
                    let piece = fs[i].1.full_type();
                    out.append(piece.as_str());
                    proof {
                        assert(fsv.take(i as int).len() == i);
                        lemma_join_fields_push(fsv.take(i as int), fsv[i as int]);
                        assert(fsv.take(i as int).push(fsv[i as int]) =~= fsv.take(i + 1 as int));
                    }
                    i += 1;
                }
                out.append(")");
                proof {
                    assert(fsv.take(n as int) =~= fsv);
                }
                out
            },
            _ => {
                let raw = self.raw_type();
                let s = raw.to_str();
                s.to_owned()
            },
        }
    }
}

impl Clone for TrinoTy {
    /// Cloning preserves the structural type exactly.
    #[verifier::loop_isolation(false)]
    fn clone(&self) -> (r: Self)
        ensures
            r@ == self@,
        decreases *self,
    {
        match self {
            TrinoTy::Date => TrinoTy::Date,
            TrinoTy::Time => TrinoTy::Time,
            TrinoTy::TimeWithTimeZone => TrinoTy::TimeWithTimeZone,
            TrinoTy::Timestamp => TrinoTy::Timestamp,
            TrinoTy::TimestampWithTimeZone => TrinoTy::TimestampWithTimeZone,
            TrinoTy::Uuid => TrinoTy::Uuid,
            TrinoTy::IntervalYearToMonth => TrinoTy::IntervalYearToMonth,
            TrinoTy::IntervalDayToSecond => TrinoTy::IntervalDayToSecond,
            TrinoTy::Optional(t) => TrinoTy::Optional(Box::new((**t).clone())),
            TrinoTy::Boolean => TrinoTy::Boolean,
            TrinoTy::TrinoInt(w) => TrinoTy::TrinoInt(*w),
            TrinoTy::TrinoFloat(w) => TrinoTy::TrinoFloat(*w),
            TrinoTy::Varchar => TrinoTy::Varchar,
            TrinoTy::Char(n) => TrinoTy::Char(*n),
            TrinoTy::Tuple(ts) => {
                let mut out: Vec<TrinoTy> = Vec::new();
                let n = ts.len();
                let mut i: usize = 0;
                while i < n
                    invariant
                        i <= n,
                        out@.len() == i,
                        forall|j: int| 0 <= j < i ==> ty_view(#[trigger] out@[j]) == ty_view(
                            ts@[j],
                        ),
                    decreases n - i,
                {
                    out.push(ts[i].clone());
                    i += 1;
                }
                let r = TrinoTy::Tuple(out);
                proof {
                    assert(r@->Tuple_0 =~= self@->Tuple_0);
                }
                r
            },
            TrinoTy::Row(fs) => {
                let mut out: Vec<(String, TrinoTy)> = Vec::new();
                let n = fs.len();
                let mut i: usize = 0;
                while i < n
                    invariant
                        i <= n,
                        out@.len() == i,
                        forall|j: int|
                            0 <= j < i ==> (#[trigger] out@[j]).0@ == fs@[j].0@ && ty_view(
                                out@[j].1,
                            ) == ty_view(fs@[j].1),
                    decreases n - i,
                {
                    let name = fs[i].0.clone();
                    let t = fs[i].1.clone();
                    out.push((name, t));
                    i += 1;
                }
                let r = TrinoTy::Row(out);
                proof {
                    assert(r@->Row_0 =~= self@->Row_0);
                }
                r
            },
            TrinoTy::Array(t) => TrinoTy::Array(Box::new((**t).clone())),
            TrinoTy::MapOf(k, v) => TrinoTy::MapOf(
                Box::new((**k).clone()),
                Box::new((**v).clone()),
            ),
            TrinoTy::Decimal(p, s) => TrinoTy::Decimal(*p, *s),
            TrinoTy::IpAddress => TrinoTy::IpAddress,
            TrinoTy::Json => TrinoTy::Json,
            TrinoTy::Unknown => TrinoTy::Unknown,
        }
    }
}

} // verus!
