//! The interface contract: which exports a module must provide, which imports
//! it may declare, and the check of a module's declared interface against it.

use crate::signature::{
    signature_views, val_type_name, ExternKind, ExternSignature, KindView, SignatureView, ValType,
};
use crate::engine::{
    declared_exports, declared_imports, host_entries, host_items, hosted_by, is_hosted_by,
    module_exports, module_imports,
};
use vstd::prelude::*;
use wasmer::{Imports, Module, Store};

verus! {

/// What the environment expects from a module and what a module may expect
/// in return.
#[derive(Debug, Clone)]
pub struct Contract {
    /// The exports that a module must provide.
    pub exports: Vec<ExternSignature>,
    /// The imports that a module may declare.
    pub imports: Vec<ExternSignature>,
}

/// The mathematical value of a [`Contract`].
#[verifier::ext_equal]
pub struct ContractView {
    pub exports: Seq<SignatureView>,
    pub imports: Seq<SignatureView>,
}

impl View for Contract {
    type V = ContractView;

    open spec fn view(&self) -> ContractView {
        ContractView {
            exports: signature_views(self.exports@),
            imports: signature_views(self.imports@),
        }
    }
}

/// Why a module does not satisfy a contract. The message names the first
/// offending signature in rendered form.
#[derive(Debug, Clone, PartialEq)]
pub enum ContractError {
    /// A required export is missing.
    ExportErr(String),
    /// The module declares an import that the contract does not permit.
    ImportErr(String),
}

/// The mathematical value of a [`ContractError`].
#[verifier::ext_equal]
pub enum ContractErrorView {
    ExportErr(Seq<char>),
    ImportErr(Seq<char>),
}

impl View for ContractError {
    type V = ContractErrorView;

    open spec fn view(&self) -> ContractErrorView {
        match *self {
            ContractError::ExportErr(m) => ContractErrorView::ExportErr(m@),
            ContractError::ImportErr(m) => ContractErrorView::ImportErr(m@),
        }
    }
}

impl ContractError {
    /// The diagnostic text.
    pub fn message(&self) -> (text: String)
        ensures
            text@ == match self@ {
                ContractErrorView::ExportErr(m) => m,
                ContractErrorView::ImportErr(m) => m,
            },
    {
        match self {
            ContractError::ExportErr(m) => m.clone(),
            ContractError::ImportErr(m) => m.clone(),
        }
    }
}

/// A list of value types as rendered in a diagnostic: each type's name with
/// one space before it.
pub open spec fn type_list(types: Seq<ValType>) -> Seq<char>
    decreases types.len(),
{
    if types.len() == 0 {
        Seq::empty()
    } else {
        type_list(types.drop_last()) + " "@ + val_type_name(types.last())
    }
}

/// The text for the mutability of a global.
pub open spec fn mutability_name(mutable: bool) -> Seq<char> {
    if mutable {
        "Var"@
    } else {
        "Const"@
    }
}

/// A type shape as rendered in a diagnostic.
pub open spec fn format_kind(kind: KindView) -> Seq<char> {
    match kind {
        KindView::Function { params, results } => "(param"@ + type_list(params) + ")(result"@
            + type_list(results) + ") [function]"@,
        KindView::Global { ty, mutable } => " "@ + val_type_name(ty) + " "@ + mutability_name(
            mutable,
        ) + " [global]"@,
        KindView::Table => " [table]"@,
        KindView::Memory => " [memory]"@,
        KindView::Tag { params } => "(param"@ + type_list(params) + ") [tag]"@,
    }
}

/// The diagnostic for a required export that a module lacks.
pub open spec fn export_message(sig: SignatureView) -> Seq<char> {
    "missing export `"@ + sig.name + format_kind(sig.kind) + "`"@
}

/// The namespace of a signature as rendered in a diagnostic: empty where the
/// signature has none.
pub open spec fn namespace_text(sig: SignatureView) -> Seq<char> {
    match sig.namespace {
        Some(ns) => ns,
        None => Seq::empty(),
    }
}

/// The diagnostic for a declared import that the contract does not permit.
pub open spec fn import_message(sig: SignatureView) -> Seq<char> {
    "missing import `"@ + namespace_text(sig) + "::"@ + sig.name + format_kind(sig.kind) + "`"@
}

/// The first signature of `wanted`, in order, that has no structurally equal
/// entry anywhere in `offered`; `None` where every one has.
pub open spec fn first_missing(wanted: Seq<SignatureView>, offered: Seq<SignatureView>) -> Option<
    SignatureView,
>
    decreases wanted.len(),
{
    if wanted.len() == 0 {
        None
    } else if !offered.contains(wanted.first()) {
        Some(wanted.first())
    } else {
        first_missing(wanted.drop_first(), offered)
    }
}

/// The outcome of checking a module that declares `exports` and `imports`
/// against `contract`: every required export must be among the module's
/// exports, and only then every import that the module declares must be among
/// the contract's permitted imports.
pub open spec fn check_outcome(
    contract: ContractView,
    exports: Seq<SignatureView>,
    imports: Seq<SignatureView>,
) -> Result<(), ContractErrorView> {
    match first_missing(contract.exports, exports) {
        Some(sig) => Err(ContractErrorView::ExportErr(export_message(sig))),
        None => match first_missing(imports, contract.imports) {
            Some(sig) => Err(ContractErrorView::ImportErr(import_message(sig))),
            None => Ok(()),
        },
    }
}

/// `first_missing` finds nothing exactly when every wanted signature is
/// offered.
pub proof fn lemma_first_missing_none(wanted: Seq<SignatureView>, offered: Seq<SignatureView>)
    ensures
        first_missing(wanted, offered) is None <==> forall|i: int|
            0 <= i < wanted.len() ==> offered.contains(#[trigger] wanted[i]),
    decreases wanted.len(),
{
    if wanted.len() > 0 {
        let rest = wanted.drop_first();
        lemma_first_missing_none(rest, offered);
        if first_missing(wanted, offered) is None {
            assert forall|i: int| 0 <= i < wanted.len() implies offered.contains(
                #[trigger] wanted[i],
            ) by {
                if i > 0 {
                    assert(wanted[i] == rest[i - 1]);
                }
            }
        } else if offered.contains(wanted.first()) {
            let k = choose|k: int| 0 <= k < rest.len() && !offered.contains(#[trigger] rest[k]);
            assert(rest[k] == wanted[k + 1]);
        }
    }
}

/// What `first_missing` finds is a wanted signature that is not offered, and
/// every wanted signature before it is offered.
pub proof fn lemma_first_missing_some(wanted: Seq<SignatureView>, offered: Seq<SignatureView>)
    ensures
        first_missing(wanted, offered) matches Some(sig) ==> exists|i: int|
            {
                &&& 0 <= i < wanted.len()
                &&& #[trigger] wanted[i] == sig
                &&& !offered.contains(sig)
                &&& forall|j: int| 0 <= j < i ==> offered.contains(#[trigger] wanted[j])
            },
    decreases wanted.len(),
{
    if wanted.len() > 0 {
        if !offered.contains(wanted.first()) {
            assert(wanted[0] == wanted.first());
        } else {
            let rest = wanted.drop_first();
            lemma_first_missing_some(rest, offered);
            if first_missing(rest, offered) is Some {
                let sig = first_missing(rest, offered)->0;
                let k = choose|k: int|
                    {
                        &&& 0 <= k < rest.len()
                        &&& #[trigger] rest[k] == sig
                        &&& !offered.contains(sig)
                        &&& forall|j: int| 0 <= j < k ==> offered.contains(#[trigger] rest[j])
                    };
                assert(wanted[k + 1] == sig);
                assert forall|j: int| 0 <= j < k + 1 implies offered.contains(
                    #[trigger] wanted[j],
                ) by {
                    if j > 0 {
                        assert(wanted[j] == rest[j - 1]);
                    }
                }
            }
        }
    }
}

/// A module passes the check exactly when each required export is among its
/// exports and each import that it declares is among the permitted imports.
/// The order in which either side lists its signatures does not matter.
pub proof fn law_passes_iff_satisfied(
    contract: ContractView,
    exports: Seq<SignatureView>,
    imports: Seq<SignatureView>,
)
    ensures
        check_outcome(contract, exports, imports) is Ok <==> {
            &&& forall|i: int|
                0 <= i < contract.exports.len() ==> exports.contains(#[trigger] contract.exports[i])
            &&& forall|j: int|
                0 <= j < imports.len() ==> contract.imports.contains(#[trigger] imports[j])
        },
{
    lemma_first_missing_none(contract.exports, exports);
    lemma_first_missing_none(imports, contract.imports);
}

/// A module whose exports and imports are exactly those of the contract
/// passes the check.
pub proof fn law_exact_interface_passes(contract: ContractView)
    ensures
        check_outcome(contract, contract.exports, contract.imports) is Ok,
{
    law_passes_iff_satisfied(contract, contract.exports, contract.imports);
}

/// A module that lacks a required export is refused with an export error,
/// whatever it imports: an import that the contract does not permit is never
/// reported before a missing export.
pub proof fn law_missing_export_reported_first(
    contract: ContractView,
    exports: Seq<SignatureView>,
    imports: Seq<SignatureView>,
    i: int,
)
    requires
        0 <= i < contract.exports.len(),
        !exports.contains(contract.exports[i]),
    ensures
        check_outcome(contract, exports, imports) matches Err(ContractErrorView::ExportErr(_)),
{
    lemma_first_missing_none(contract.exports, exports);
}

/// The error of a refused module names the first required export that the
/// module lacks or, where it lacks none, the first import that it declares
/// and the contract does not permit.
pub proof fn law_first_violation_reported(
    contract: ContractView,
    exports: Seq<SignatureView>,
    imports: Seq<SignatureView>,
)
    ensures
        match check_outcome(contract, exports, imports) {
            Ok(()) => true,
            Err(ContractErrorView::ExportErr(text)) => exists|i: int|
                {
                    &&& 0 <= i < contract.exports.len()
                    &&& text == export_message(#[trigger] contract.exports[i])
                    &&& !exports.contains(contract.exports[i])
                    &&& forall|j: int|
                        0 <= j < i ==> exports.contains(#[trigger] contract.exports[j])
                },
            Err(ContractErrorView::ImportErr(text)) => exists|i: int|
                {
                    &&& 0 <= i < imports.len()
                    &&& text == import_message(#[trigger] imports[i])
                    &&& !contract.imports.contains(imports[i])
                    &&& forall|j: int|
                        0 <= j < i ==> contract.imports.contains(#[trigger] imports[j])
                },
        },
{
    lemma_first_missing_some(contract.exports, exports);
    lemma_first_missing_some(imports, contract.imports);
}

/// The value of the result of a check.
pub open spec fn outcome_view(res: Result<(), ContractError>) -> Result<(), ContractErrorView> {
    match res {
        Ok(()) => Ok(()),
        Err(e) => Err(e@),
    }
}

/// Appends the rendered list of `types` to `text`.
fn append_type_list(text: &mut String, types: &Vec<ValType>)
    ensures
        final(text)@ == old(text)@ + type_list(types@),
{
    let ghost start = text@;
    let mut i: usize = 0;
    while i < types.len()
        invariant
            i <= types.len(),
            text@ == start + type_list(types@.take(i as int)),
        decreases types.len() - i,
    {
        text.append(" ");
        text.append(types[i].name());
        proof {
            let next = types@.take(i + 1);
            assert(next.drop_last() =~= types@.take(i as int));
            assert(next.last() == types@[i as int]);
            assert(text@ =~= start + type_list(next));
        }
        i += 1;
    }
    assert(types@.take(i as int) =~= types@);
}

/// Whether `offered` holds an entry structurally equal to `wanted`.
fn offers(offered: &Vec<ExternSignature>, wanted: &ExternSignature) -> (found: bool)
    ensures
        found == signature_views(offered@).contains(wanted@),
{
    let mut i: usize = 0;
    while i < offered.len()
        invariant
            i <= offered.len(),
            forall|j: int| 0 <= j < i ==> offered@[j]@ != wanted@,
        decreases offered.len() - i,
    {
        if offered[i].same_as(wanted) {
            assert(signature_views(offered@)[i as int] == wanted@);
            return true;
        }
        i += 1;
    }
    false
}

/// The first entry of `wanted` that `offered` lacks.
fn find_missing<'a>(wanted: &'a Vec<ExternSignature>, offered: &Vec<ExternSignature>) -> (missing:
    Option<&'a ExternSignature>)
    ensures
        match missing {
            Some(sig) => first_missing(signature_views(wanted@), signature_views(offered@))
                == Some(sig@),
            None => first_missing(signature_views(wanted@), signature_views(offered@)) is None,
        },
{
    let ghost all = signature_views(wanted@);
    let ghost pool = signature_views(offered@);
    let mut i: usize = 0;
    assert(all.skip(0) =~= all);
    while i < wanted.len()
        invariant
            i <= wanted.len(),
            all == signature_views(wanted@),
            pool == signature_views(offered@),
            first_missing(all, pool) == first_missing(all.skip(i as int), pool),
        decreases wanted.len() - i,
    {
        let found = offers(offered, &wanted[i]);
        proof {
            let rest = all.skip(i as int);
            assert(rest.first() == wanted@[i as int]@);
            assert(rest.drop_first() =~= all.skip(i + 1));
        }
        if !found {
            return Some(&wanted[i]);
        }
        i += 1;
    }
    None
}

impl Contract {
    /// Renders a type shape for a diagnostic.
    pub fn format_extern(kind: &ExternKind) -> (text: String)
        ensures
            text@ == format_kind(kind@),
    {
        match kind {
            ExternKind::Function { params, results } => {
                let mut s = String::from_str("(param");
                append_type_list(&mut s, params);
                s.append(")(result");
                append_type_list(&mut s, results);
                s.append(") [function]");
                s
            },
            ExternKind::Global { ty, mutable } => {
                let mut s = String::from_str(" ");
                s.append(ty.name());
                s.append(" ");
                if *mutable {
                    s.append("Var");
                } else {
                    s.append("Const");
                }
                s.append(" [global]");
                s
            },
            ExternKind::Table => String::from_str(" [table]"),
            ExternKind::Memory => String::from_str(" [memory]"),
            ExternKind::Tag { params } => {
                let mut s = String::from_str("(param");
                append_type_list(&mut s, params);
                s.append(") [tag]");
                s
            },
        }
    }

    /// Checks a compiled module against this contract: the interface that
    /// the engine reports for the module is held against the contract as
    /// [`Contract::check_interface`] does.
    pub fn check(&self, module: &Module) -> (res: Result<(), ContractError>)
        ensures
            outcome_view(res) == check_outcome(
                self@,
                module_exports(*module),
                module_imports(*module),
            ),
    {
        let exports = declared_exports(module);
        let imports = declared_imports(module);
        self.check_interface(&exports, &imports)
    }

    /// Checks a declared interface against this contract.
    ///
    /// All required exports are checked before any import; the first
    /// violation found is the one reported.
    pub fn check_interface(
        &self,
        exports: &Vec<ExternSignature>,
        imports: &Vec<ExternSignature>,
    ) -> (res: Result<(), ContractError>)
        ensures
            outcome_view(res) == check_outcome(
                self@,
                signature_views(exports@),
                signature_views(imports@),
            ),
    {
        if let Some(sig) = find_missing(&self.exports, exports) {
            let mut text = String::from_str("missing export `");
            text.append(sig.name.as_str());
            text.append(Contract::format_extern(&sig.kind).as_str());
            text.append("`");
            return Err(ContractError::ExportErr(text));
        }
        if let Some(sig) = find_missing(imports, &self.imports) {
            let mut text = String::from_str("missing import `");
            match &sig.namespace {
                Some(ns) => text.append(ns.as_str()),
                None => {},
            }
            text.append("::");
            text.append(sig.name.as_str());
            text.append(Contract::format_extern(&sig.kind).as_str());
            text.append("`");
            return Err(ContractError::ImportErr(text));
        }
        Ok(())
    }
}

/// Whether `sigs` lists the items of `items` as imports, each once: every
/// signature is an item under its namespace and name, every item has a
/// signature, and no two signatures have the same namespace and name.
pub open spec fn lists_imports(
    sigs: Seq<SignatureView>,
    items: Map<(Seq<char>, Seq<char>), KindView>,
) -> bool {
    &&& forall|i: int|
        0 <= i < sigs.len() ==> (#[trigger] sigs[i]).namespace is Some && items.contains_pair(
            (sigs[i].namespace->0, sigs[i].name),
            sigs[i].kind,
        )
    &&& forall|namespace: Seq<char>, name: Seq<char>| #[trigger]
        items.contains_key((namespace, name)) ==> exists|i: int|
            0 <= i < sigs.len() && (#[trigger] sigs[i]).namespace == Some(namespace) && sigs[i].name
                == name
    &&& forall|i: int, j: int|
        0 <= i < sigs.len() && 0 <= j < sigs.len() && i != j ==> (
            (#[trigger] sigs[i]).namespace,
            sigs[i].name,
        ) != ((#[trigger] sigs[j]).namespace, sigs[j].name)
}

/// Lists the items of an import table as the imports that a contract can
/// permit: one signature for each item, with the item's namespace, name and
/// type shape, in no particular order.
///
/// Every item of the table must have been created in `store`.
pub fn inobj_types(io: &Imports, store: &Store) -> (sigs: Vec<ExternSignature>)
    requires
        hosted_by(*io, *store),
    ensures
        lists_imports(signature_views(sigs@), host_items(*io, *store)),
{
    let entries = host_entries(io, store);
    let ghost listed = entries@;
    let mut sigs: Vec<ExternSignature> = Vec::new();
    for entry in it: entries.into_iter()
        invariant
            it.seq() == listed,
            sigs.len() == it.index(),
            forall|j: int|
                0 <= j < sigs.len() ==> (#[trigger] sigs@[j])@ == (SignatureView {
                    name: listed[j].1@,
                    namespace: Some(listed[j].0@),
                    kind: listed[j].2@,
                }),
    {
        sigs.push(ExternSignature { name: entry.1, namespace: Some(entry.0), kind: entry.2 });
    }
    proof {
        let views = signature_views(sigs@);
        let items = host_items(*io, *store);
        assert forall|j: int| 0 <= j < views.len() implies (#[trigger] views[j]).namespace
            is Some && items.contains_pair((views[j].namespace->0, views[j].name), views[j].kind) by {
            assert(views[j] == sigs@[j]@);
            assert(items.contains_pair((listed[j].0@, listed[j].1@), listed[j].2@));
        }
        assert forall|namespace: Seq<char>, name: Seq<char>| #[trigger]
            items.contains_key((namespace, name)) implies exists|j: int|
            0 <= j < views.len() && (#[trigger] views[j]).namespace == Some(namespace)
                && views[j].name == name by {
            let j = choose|j: int|
                0 <= j < listed.len() && #[trigger] listed[j].0@ == namespace && listed[j].1@
                    == name;
            assert(views[j] == sigs@[j]@);
        }
        assert forall|j: int, k: int|
            0 <= j < views.len() && 0 <= k < views.len() && j != k implies (
            (#[trigger] views[j]).namespace,
            views[j].name,
        ) != ((#[trigger] views[k]).namespace, views[k].name) by {
            assert(views[j] == sigs@[j]@);
            assert(views[k] == sigs@[k]@);
            assert((listed[j].0@, listed[j].1@) != (listed[k].0@, listed[k].1@));
        }
    }
    sigs
}

/// Lists the items of an import table as [`inobj_types`] does, if every item
/// of the table was created in `store`; there is no result otherwise.
pub fn checked_inobj_types(io: &Imports, store: &Store) -> (sigs: Option<Vec<ExternSignature>>)
    ensures
        sigs is Some <==> hosted_by(*io, *store),
        sigs matches Some(sigs) ==> lists_imports(
            signature_views(sigs@),
            host_items(*io, *store),
        ),
{
    if is_hosted_by(io, store) {
        Some(inobj_types(io, store))
    } else {
        None
    }
}

} // verus!
