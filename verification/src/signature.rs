//! Descriptors of what a module exports or imports.

use vstd::prelude::*;

verus! {

/// A WebAssembly value type.
#[derive(Clone, Copy, Debug, PartialEq, Eq, Structural)]
pub enum ValType {
    I32,
    I64,
    F32,
    F64,
    V128,
    ExternRef,
    FuncRef,
    ExceptionRef,
}

/// The text a value type is rendered as in diagnostics.
pub open spec fn val_type_name(t: ValType) -> Seq<char> {
    match t {
        ValType::I32 => "I32"@,
        ValType::I64 => "I64"@,
        ValType::F32 => "F32"@,
        ValType::F64 => "F64"@,
        ValType::V128 => "V128"@,
        ValType::ExternRef => "ExternRef"@,
        ValType::FuncRef => "FuncRef"@,
        ValType::ExceptionRef => "ExceptionRef"@,
    }
}

impl ValType {
    /// The text this type is rendered as in diagnostics.
    pub fn name(&self) -> (s: &'static str)
        ensures
            s@ == val_type_name(*self),
    {
        match self {
            ValType::I32 => "I32",
            ValType::I64 => "I64",
            ValType::F32 => "F32",
            ValType::F64 => "F64",
            ValType::V128 => "V128",
            ValType::ExternRef => "ExternRef",
            ValType::FuncRef => "FuncRef",
            ValType::ExceptionRef => "ExceptionRef",
        }
    }
}

/// The type shape of one export or import.
#[derive(Clone, Debug, PartialEq, Eq)]
pub enum ExternKind {
    Function { params: Vec<ValType>, results: Vec<ValType> },
    Global { ty: ValType, mutable: bool },
    Table,
    Memory,
    Tag { params: Vec<ValType> },
}

/// The mathematical value of an [`ExternKind`].
#[verifier::ext_equal]
pub enum KindView {
    Function { params: Seq<ValType>, results: Seq<ValType> },
    Global { ty: ValType, mutable: bool },
    Table,
    Memory,
    Tag { params: Seq<ValType> },
}

impl View for ExternKind {
    type V = KindView;

    open spec fn view(&self) -> KindView {
        match *self {
            ExternKind::Function { params, results } => KindView::Function {
                params: params@,
                results: results@,
            },
            ExternKind::Global { ty, mutable } => KindView::Global { ty, mutable },
            ExternKind::Table => KindView::Table,
            ExternKind::Memory => KindView::Memory,
            ExternKind::Tag { params } => KindView::Tag { params: params@ },
        }
    }
}

/// Whether two lists of value types hold the same types in the same order.
pub fn same_types(a: &Vec<ValType>, b: &Vec<ValType>) -> (same: bool)
    ensures
        same == (a@ == b@),
{
    if a.len() != b.len() {
        return false;
    }
    let mut i: usize = 0;
    while i < a.len()
        invariant
            a.len() == b.len(),
            i <= a.len(),
            forall|j: int| 0 <= j < i ==> a@[j] == b@[j],
        decreases a.len() - i,
    {
        if a[i] != b[i] {
            return false;
        }
        i += 1;
    }
    assert(a@ =~= b@);
    true
}

impl ExternKind {
    /// A function shape with the given parameter and result types.
    pub fn function(params: Vec<ValType>, results: Vec<ValType>) -> (kind: ExternKind)
        ensures
            kind@ == (KindView::Function { params: params@, results: results@ }),
    {
        ExternKind::Function { params, results }
    }

    /// A global of type `ty`, which may change at run time if `mutable`.
    pub fn global(ty: ValType, mutable: bool) -> (kind: ExternKind)
        ensures
            kind@ == (KindView::Global { ty, mutable }),
    {
        ExternKind::Global { ty, mutable }
    }

    /// An exception tag whose payload has the given types.
    pub fn tag(params: Vec<ValType>) -> (kind: ExternKind)
        ensures
            kind@ == (KindView::Tag { params: params@ }),
    {
        ExternKind::Tag { params }
    }

    /// Structural equality of two shapes.
    pub fn same_as(&self, other: &ExternKind) -> (same: bool)
        ensures
            same == (self@ == other@),
    {
        match (self, other) {
            (
                ExternKind::Function { params: params_a, results: results_a },
                ExternKind::Function { params: params_b, results: results_b },
            ) => same_types(params_a, params_b) && same_types(results_a, results_b),
            (
                ExternKind::Global { ty: ty_a, mutable: mutable_a },
                ExternKind::Global { ty: ty_b, mutable: mutable_b },
            ) => *ty_a == *ty_b && *mutable_a == *mutable_b,
            (ExternKind::Table, ExternKind::Table) => true,
            (ExternKind::Memory, ExternKind::Memory) => true,
            (ExternKind::Tag { params: params_a }, ExternKind::Tag { params: params_b }) => same_types(
                params_a,
                params_b,
            ),
            _ => false,
        }
    }
}

/// The name, the namespace (for an import) and the type shape of one export
/// or import.
#[derive(Clone, Debug, PartialEq, Eq)]
pub struct ExternSignature {
    pub name: String,
    pub namespace: Option<String>,
    pub kind: ExternKind,
}

/// The mathematical value of an [`ExternSignature`].
#[verifier::ext_equal]
pub struct SignatureView {
    pub name: Seq<char>,
    pub namespace: Option<Seq<char>>,
    pub kind: KindView,
}

impl View for ExternSignature {
    type V = SignatureView;

    open spec fn view(&self) -> SignatureView {
        SignatureView {
            name: self.name@,
            namespace: match self.namespace {
                Some(ns) => Some(ns@),
                None => None,
            },
            kind: self.kind@,
        }
    }
}

/// The values of a list of signatures, in order.
pub open spec fn signature_views(sigs: Seq<ExternSignature>) -> Seq<SignatureView> {
    Seq::new(sigs.len(), |i: int| sigs[i]@)
}

impl ExternSignature {
    /// The descriptor of an export called `name`.
    pub fn export(name: &str, kind: ExternKind) -> (sig: ExternSignature)
        ensures
            sig@ == (SignatureView { name: name@, namespace: None, kind: kind@ }),
    {
        ExternSignature { name: name.to_string(), namespace: None, kind }
    }

    /// The descriptor of an import called `name` from `namespace`.
    pub fn import(namespace: &str, name: &str, kind: ExternKind) -> (sig: ExternSignature)
        ensures
            sig@ == (SignatureView { name: name@, namespace: Some(namespace@), kind: kind@ }),
    {
        ExternSignature { name: name.to_string(), namespace: Some(namespace.to_string()), kind }
    }

    /// Structural equality: name, namespace and shape all match.
    pub fn same_as(&self, other: &ExternSignature) -> (same: bool)
        ensures
            same == (self@ == other@),
    {
        let same_namespace = match (&self.namespace, &other.namespace) {
            (Some(a), Some(b)) => *a == *b,
            (None, None) => true,
            _ => false,
        };
        self.name == other.name && same_namespace && self.kind.same_as(&other.kind)
    }
}

} // verus!
