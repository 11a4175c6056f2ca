//! Wire-level models of the statement API: type signatures as the server
//! sends them, and column descriptors.

use vstd::prelude::*;

use crate::raw_ty::RawTrinoTy;

verus! {

/// The name of a row field inside a named type signature.
#[derive(Debug)]
pub struct RowFieldName {
    pub name: String,
}

impl RowFieldName {
    pub fn new(name: String) -> (r: Self)
        ensures
            r.name@ == name@,
    {
        RowFieldName { name }
    }
}

/// One argument of a type signature: a long literal, a nested signature,
/// or a named nested signature.
#[derive(Debug)]
pub enum ClientTypeSignatureParameter {
    LongLiteral(u64),
    TypeSignature(TypeSignature),
    NamedTypeSignature(NamedTypeSignature),
}

/// A nested type signature with an optional field name, used for the
/// arguments of `row` signatures.
#[derive(Debug)]
pub struct NamedTypeSignature {
    pub field_name: Option<RowFieldName>,
    pub type_signature: TypeSignature,
}

/// A structural type signature in the server's wire form: a raw type token
/// plus its arguments.
#[derive(Debug)]
pub struct TypeSignature {
    pub raw_type: RawTrinoTy,
    pub arguments: Vec<ClientTypeSignatureParameter>,
}

impl TypeSignature {
    pub fn new(raw_type: RawTrinoTy, arguments: Vec<ClientTypeSignatureParameter>) -> (r: Self)
        ensures
            r.raw_type == raw_type,
            r.arguments == arguments,
    {
        TypeSignature { raw_type, arguments }
    }
}

/// A column descriptor: its name, the canonical string form of its type,
/// and the structural type signature when the server sent one.
#[derive(Debug)]
pub struct Column {
    pub name: String,
    pub ty: String,
    pub type_signature: Option<TypeSignature>,
}

/// Mathematical model of a signature argument.
pub enum SigParamV {
    Long(u64),
    Sig(TypeSignatureV),
    Named(Option<Seq<char>>, TypeSignatureV),
}

/// Mathematical model of a type signature.
pub struct TypeSignatureV {
    pub raw_type: RawTrinoTy,
    pub arguments: Seq<SigParamV>,
}

/// Model of one signature argument.
pub open spec fn param_view(p: ClientTypeSignatureParameter) -> SigParamV
    decreases p,
{
    match p {
        ClientTypeSignatureParameter::LongLiteral(n) => SigParamV::Long(n),
        ClientTypeSignatureParameter::TypeSignature(s) => SigParamV::Sig(sig_view(s)),
        ClientTypeSignatureParameter::NamedTypeSignature(n) => SigParamV::Named(
            match n.field_name {
                Some(f) => Some(f.name@),
                None => None,
            },
            sig_view(n.type_signature),
        ),
    }
}

/// Model of a type signature.
pub open spec fn sig_view(s: TypeSignature) -> TypeSignatureV
    decreases s,
{
    TypeSignatureV {
        raw_type: s.raw_type,
        arguments: Seq::new(
            s.arguments@.len(),
            |i: int|
                if 0 <= i < s.arguments@.len() {
                    param_view(s.arguments@[i])
                } else {
                    SigParamV::Long(0)
                },
        ),
    }
}

impl View for ClientTypeSignatureParameter {
    type V = SigParamV;

    open spec fn view(&self) -> SigParamV {
        param_view(*self)
    }
}

impl View for TypeSignature {
    type V = TypeSignatureV;

    open spec fn view(&self) -> TypeSignatureV {
        sig_view(*self)
    }
}

/// Mathematical model of a column descriptor.
pub struct ColumnV {
    pub name: Seq<char>,
    pub ty: Seq<char>,
    pub type_signature: Option<TypeSignatureV>,
}

impl View for Column {
    type V = ColumnV;

    open spec fn view(&self) -> ColumnV {
        ColumnV {
            name: self.name@,
            ty: self.ty@,
            type_signature: match self.type_signature {
                Some(s) => Some(sig_view(s)),
                None => None,
            },
        }
    }
}

impl Clone for RowFieldName {
    /// Cloning preserves the name.
    fn clone(&self) -> (r: Self)
        ensures
            r.name@ == self.name@,
    {
        RowFieldName { name: self.name.clone() }
    }
}

impl Clone for TypeSignature {
    /// Cloning preserves the signature exactly.
    #[verifier::loop_isolation(false)]
    fn clone(&self) -> (r: Self)
        ensures
            r@ == self@,
        decreases *self,
    {
        let raw_type = self.raw_type;
        let mut arguments: Vec<ClientTypeSignatureParameter> = Vec::new();
        let n = self.arguments.len();
        let mut i: usize = 0;
        while i < n
            invariant
                i <= n,
                arguments@.len() == i,
                forall|j: int|
                    0 <= j < i ==> param_view(#[trigger] arguments@[j]) == param_view(
                        self.arguments@[j],
                    ),
            decreases n - i,
        {
            arguments.push(self.arguments[i].clone());
            i += 1;
        }
        let r = TypeSignature { raw_type, arguments };
        proof {
            assert(r@.arguments =~= self@.arguments);
        }
        r
    }
}

impl Clone for ClientTypeSignatureParameter {
    /// Cloning preserves the argument exactly.
    fn clone(&self) -> (r: Self)
        ensures
            r@ == self@,
        decreases *self,
    {
        match self {
            ClientTypeSignatureParameter::LongLiteral(n) => {
                ClientTypeSignatureParameter::LongLiteral(*n)
            },
            ClientTypeSignatureParameter::TypeSignature(s) => {
                ClientTypeSignatureParameter::TypeSignature(s.clone())
            },
            ClientTypeSignatureParameter::NamedTypeSignature(n) => {
                ClientTypeSignatureParameter::NamedTypeSignature(
                    NamedTypeSignature {
                        field_name: match &n.field_name {
                            Some(f) => Some(f.clone()),
                            None => None,
                        },
                        type_signature: n.type_signature.clone(),
                    },
                )
            },
        }
    }
}

impl Clone for Column {
    /// Cloning preserves the column exactly.
    fn clone(&self) -> (r: Self)
        ensures
            r@ == self@,
    {
        Column {
            name: self.name.clone(),
            ty: self.ty.clone(),
            type_signature: match &self.type_signature {
                Some(s) => Some(s.clone()),
                None => None,
            },
        }
    }
}

} // verus!
