//! The boundary to the execution engine and to the generator of instance
//! ids. Nothing in this file is proved: each item states what the library
//! takes on trust from code that it calls.

use crate::signature::{
    signature_views, ExternKind, ExternSignature, KindView, SignatureView, ValType,
};
use vstd::prelude::*;
use wasmer::{
    CompileError, ExternType, Function, Imports, Instance, InstantiationError, Module, Store, Type,
};

verus! {

/// `wasmer::Store`, the engine's state that owns every engine object.
#[verifier::external_type_specification]
#[verifier::external_body]
pub struct ExStore(Store);

/// `wasmer::Module`, a compiled module.
#[verifier::external_type_specification]
#[verifier::external_body]
pub struct ExModule(Module);

/// `wasmer::Instance`, a running instance of a module.
#[verifier::external_type_specification]
#[verifier::external_body]
pub struct ExInstance(Instance);

/// `wasmer::Function`, a function of a module or of the host.
#[verifier::external_type_specification]
#[verifier::external_body]
pub struct ExFunction(Function);

/// `wasmer::Imports`, the host items offered to a module at instantiation.
#[verifier::external_type_specification]
#[verifier::external_body]
pub struct ExImports(Imports);

/// `wasmer::CompileError`, why bytes could not be compiled.
#[verifier::external_type_specification]
#[verifier::external_body]
pub struct ExCompileError(CompileError);

/// `wasmer::InstantiationError`, why a module could not be instantiated.
#[verifier::external_type_specification]
#[verifier::external_body]
pub struct ExInstantiationError(InstantiationError);

/// `wasmer::ExternType`, the engine's own description of a type shape.
#[verifier::external_type_specification]
#[verifier::external_body]
pub struct ExExternType(ExternType);

/// `wasmer::Type`, the engine's own value types.
#[verifier::external_type_specification]
#[verifier::external_body]
pub struct ExType(Type);

/// The exports that the engine reports for a compiled module, in the order
/// of the module's binary.
pub uninterp spec fn module_exports(module: Module) -> Seq<SignatureView>;

/// The imports that the engine reports for a compiled module, in the order
/// of the module's binary.
pub uninterp spec fn module_imports(module: Module) -> Seq<SignatureView>;

/// The host items of an import table, each under its namespace and name,
/// with the type shape that the item has in `store`.
pub uninterp spec fn host_items(imports: Imports, store: Store) -> Map<
    (Seq<char>, Seq<char>),
    KindView,
>;

/// Whether every item of an import table was created in `store`.
pub uninterp spec fn hosted_by(imports: Imports, store: Store) -> bool;

/// Whether `entries` lists the items of `items`, each once: every entry is
/// an item, every item has an entry, and no two entries have the same
/// namespace and name.
pub open spec fn lists_items(
    entries: Seq<(String, String, ExternKind)>,
    items: Map<(Seq<char>, Seq<char>), KindView>,
) -> bool {
    &&& forall|i: int|
        0 <= i < entries.len() ==> items.contains_pair(
            (#[trigger] entries[i].0@, entries[i].1@),
            entries[i].2@,
        )
    &&& forall|namespace: Seq<char>, name: Seq<char>| #[trigger]
        items.contains_key((namespace, name)) ==> exists|i: int|
            0 <= i < entries.len() && #[trigger] entries[i].0@ == namespace && entries[i].1@ == name
    &&& forall|i: int, j: int|
        0 <= i < entries.len() && 0 <= j < entries.len() && i != j ==> (
            #[trigger] entries[i].0@,
            entries[i].1@,
        ) != (#[trigger] entries[j].0@, entries[j].1@)
}

/// Calls `wasmer::Extern::is_from_store` on every item of the table.
#[verifier::external_body]
pub(crate) fn is_hosted_by(imports: &Imports, store: &Store) -> (hosted: bool)
    ensures
        hosted == hosted_by(*imports, *store),
{
    imports.iter().all(|(_, _, item)| item.is_from_store(store))
}

/// Walks an import table (`IntoIterator for &Imports`, which hands out each
/// key of the underlying hash map once, in no particular order) and converts
/// each item: its namespace, its name and its type in `store` (`Extern::ty`,
/// which panics for an item of another store) converted by [`extern_kind`].
#[verifier::external_body]
pub(crate) fn host_entries(imports: &Imports, store: &Store) -> (entries: Vec<
    (String, String, ExternKind),
>)
    requires
        hosted_by(*imports, *store),
    ensures
        lists_items(entries@, host_items(*imports, *store)),
{
    imports.into_iter().map(
        |((namespace, name), item)| (namespace, name, extern_kind(&item.ty(store))),
    ).collect()
}

/// Calls `wasmer::Module::new`, which validates and compiles `bytes` (binary
/// or text format) with the store's engine. Nothing is claimed of the outcome.
#[verifier::external_body]
pub(crate) fn compile(store: &Store, bytes: &[u8]) -> (compiled: Result<Module, CompileError>) {
    Module::new(store, bytes)
}

/// Converts a `wasmer::Type` to the library's value type, variant by variant.
#[verifier::external_body]
pub(crate) fn val_type(ty: &Type) -> (converted: ValType) {
    match ty {
        Type::I32 => ValType::I32,
        Type::I64 => ValType::I64,
        Type::F32 => ValType::F32,
        Type::F64 => ValType::F64,
        Type::V128 => ValType::V128,
        Type::ExternRef => ValType::ExternRef,
        Type::FuncRef => ValType::FuncRef,
        Type::ExceptionRef => ValType::ExceptionRef,
    }
}

/// Converts a `wasmer::ExternType` to the library's type shape: a function
/// keeps its parameter and result types in order (`FunctionType::params`,
/// `FunctionType::results`), a global its value type and whether it is
/// mutable (`Mutability::is_mutable`), a tag its parameter types in order
/// (`TagType::params`); the limits of tables and memories are dropped.
#[verifier::external_body]
pub(crate) fn extern_kind(ty: &ExternType) -> (converted: ExternKind) {
    match ty {
        ExternType::Function(f) => ExternKind::Function {
            params: f.params().iter().map(val_type).collect(),
            results: f.results().iter().map(val_type).collect(),
        },
        ExternType::Global(g) => ExternKind::Global {
            ty: val_type(&g.ty),
            mutable: g.mutability.is_mutable(),
        },
        ExternType::Table(_) => ExternKind::Table,
        ExternType::Memory(_) => ExternKind::Memory,
        ExternType::Tag(t) => ExternKind::Tag { params: t.params().iter().map(val_type).collect() },
    }
}

/// Calls `wasmer::Module::exports` and converts each `ExportType`: its
/// `name`, no namespace, and its `ty` converted by [`extern_kind`]. The
/// contract names the result: it is a function of the module alone.
#[verifier::external_body]
pub(crate) fn declared_exports(module: &Module) -> (sigs: Vec<ExternSignature>)
    ensures
        signature_views(sigs@) == module_exports(*module),
{
    module.exports().map(
        |e| ExternSignature { name: e.name().to_string(), namespace: None, kind: extern_kind(e.ty()) },
    ).collect()
}

/// Calls `wasmer::Module::imports` and converts each `ImportType`: its
/// `name`, its `module` as the namespace, and its `ty` converted by
/// [`extern_kind`]. The contract names the result: it is a function of the
/// module alone.
#[verifier::external_body]
pub(crate) fn declared_imports(module: &Module) -> (sigs: Vec<ExternSignature>)
    ensures
        signature_views(sigs@) == module_imports(*module),
{
    module.imports().map(
        |e|
            ExternSignature {
                name: e.name().to_string(),
                namespace: Some(e.module().to_string()),
                kind: extern_kind(e.ty()),
            },
    ).collect()
}

/// Calls `wasmer::Instance::new`, which links `imports` into `module` and
/// runs the module's start function. Nothing is claimed of the outcome; the
/// call returns when the start function does.
#[verifier::external_body]
pub(crate) fn instantiate(store: &mut Store, module: &Module, imports: &Imports) -> (outcome: Result<
    Instance,
    InstantiationError,
>) {
    Instance::new(store, module, imports)
}

/// The function that an instance exports under `name`, if it exports a
/// function under that name.
pub uninterp spec fn exported_function(instance: Instance, name: Seq<char>) -> Option<Function>;

/// Calls `wasmer::Exports::get_function` on the exports of the instance. An
/// export that is missing, or that is no function, is an error there and
/// `None` here. The contract names the result: the exports of an instance
/// are fixed when it is created.
#[verifier::external_body]
pub(crate) fn lookup_function(instance: &Instance, name: &str) -> (found: Option<Function>)
    ensures
        found == exported_function(*instance, name@),
{
    instance.exports.get_function(name).ok().cloned()
}

/// Whether a 128-bit value is a version 4 UUID: the version bits are 0100
/// and the variant bits 10.
pub open spec fn is_random_uuid(id: u128) -> bool {
    id & 0x0000_0000_0000_f000_c000_0000_0000_0000 == 0x0000_0000_0000_4000_8000_0000_0000_0000
}

/// Calls `uuid::Uuid::new_v4` and hands out the id as its 128-bit value
/// (`Uuid::as_u128`). `new_v4` sets the version and variant bits and takes
/// the other 122 bits from the operating system's random source, so nothing
/// more is claimed of the value; it panics if that source fails.
#[verifier::external_body]
pub(crate) fn fresh_id() -> (id: u128)
    ensures
        is_random_uuid(id),
{
    uuid::Uuid::new_v4().as_u128()
}

/// The text that the `Display` impl of `wasmer::CompileError` writes for an
/// error.
pub uninterp spec fn compile_error_display(error: CompileError) -> Seq<char>;

/// Calls `to_string` on a `wasmer::CompileError`, which writes the error
/// with its `Display` impl. The contract names the result: it is a function
/// of the error alone.
#[verifier::external_body]
pub(crate) fn compile_error_text(error: &CompileError) -> (text: String)
    ensures
        text@ == compile_error_display(*error),
{
    error.to_string()
}

} // verus!
