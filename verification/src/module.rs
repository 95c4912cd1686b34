//! The catalog of accepted modules, grouped in named categories, and the
//! registry of their live instances.

use crate::contract::{check_outcome, Contract, ContractError, ContractErrorView, ContractView};
use crate::engine::{
    compile, compile_error_display, compile_error_text, exported_function, fresh_id, instantiate,
    is_random_uuid, lookup_function, module_exports, module_imports,
};
use crate::misc::{parse_path, parse_path_spec, Point};
use crate::name_map::NameMap;
use std::collections::HashMap;
use vstd::prelude::*;
use vstd::std_specs::iter::IteratorSpec;
use wasmer::{CompileError, Function, Imports, Instance, InstantiationError, Module, Store};

verus! {

broadcast use vstd::std_specs::hash::group_hash_axioms;

/// Why a module was not added to the catalog.
#[derive(Debug)]
pub enum ModuleError {
    /// The bytes are not a valid module.
    CompileErr(CompileError),
    /// The module compiled but does not satisfy the contract.
    ContractErr(ContractError),
    /// The module's file could not be read, or its path names no category.
    IOErr(String),
}

impl From<CompileError> for ModuleError {
    fn from(e: CompileError) -> (error: ModuleError) {
        ModuleError::CompileErr(e)
    }
}

impl vstd::std_specs::convert::FromSpecImpl<CompileError> for ModuleError {
    open spec fn obeys_from_spec() -> bool {
        true
    }

    open spec fn from_spec(e: CompileError) -> ModuleError {
        ModuleError::CompileErr(e)
    }
}

impl From<ContractError> for ModuleError {
    fn from(e: ContractError) -> (error: ModuleError) {
        ModuleError::ContractErr(e)
    }
}

impl vstd::std_specs::convert::FromSpecImpl<ContractError> for ModuleError {
    open spec fn obeys_from_spec() -> bool {
        true
    }

    open spec fn from_spec(e: ContractError) -> ModuleError {
        ModuleError::ContractErr(e)
    }
}

impl ModuleError {
    /// The diagnostic text: that of the cause.
    pub fn message(&self) -> (text: String)
        ensures
            text@ == match *self {
                ModuleError::CompileErr(e) => compile_error_display(e),
                ModuleError::ContractErr(e) => match e@ {
                    ContractErrorView::ExportErr(m) => m,
                    ContractErrorView::ImportErr(m) => m,
                },
                ModuleError::IOErr(m) => m@,
            },
    {
        match self {
            ModuleError::CompileErr(e) => compile_error_text(e),
            ModuleError::ContractErr(e) => e.message(),
            ModuleError::IOErr(m) => m.clone(),
        }
    }
}

/// A call of an exported function of an instance, for the host to make. The
/// arguments are bit patterns of IEEE 754 single-precision numbers; what the
/// function returns is of no interest.
#[derive(Debug)]
pub struct EntryCall {
    /// The id of the instance to call.
    pub instance: u128,
    /// The exported function.
    pub function: Function,
    /// The arguments, in order.
    pub args: Vec<u32>,
}

/// The mathematical value of an [`EntryCall`].
pub struct EntryCallView {
    pub instance: u128,
    pub function: Function,
    pub args: Seq<u32>,
}

impl View for EntryCall {
    type V = EntryCallView;

    open spec fn view(&self) -> EntryCallView {
        EntryCallView { instance: self.instance, function: self.function, args: self.args@ }
    }
}

/// A live, positioned instance of a module.
#[derive(Debug)]
pub struct LogicInstance {
    /// The name of the instance, copied from its module when it was created.
    pub name: String,
    /// A unique identifier.
    id: u128,
    /// The position of the instance in 2d space.
    pub location: Point,
    /// The rotation of the instance in degrees, as a bit pattern like the
    /// coordinates of a [`Point`].
    pub rotation: u32,
    /// The engine's instance that holds the actual logic.
    pub instance: Instance,
}

/// The mathematical value of a [`LogicInstance`].
pub struct InstanceView {
    pub name: Seq<char>,
    pub id: u128,
    pub location: Point,
    pub rotation: u32,
    pub instance: Instance,
}

impl View for LogicInstance {
    type V = InstanceView;

    closed spec fn view(&self) -> InstanceView {
        InstanceView {
            name: self.name@,
            id: self.id,
            location: self.location,
            rotation: self.rotation,
            instance: self.instance,
        }
    }
}

/// The call of the export `name` of an instance with the given arguments.
/// There is none where the instance has no such function: an entrypoint is a
/// capability that a module may lack.
pub open spec fn entry_call(instance: InstanceView, name: Seq<char>, args: Seq<u32>) -> Option<
    EntryCallView,
> {
    match exported_function(instance.instance, name) {
        Some(function) => Some(EntryCallView { instance: instance.id, function, args }),
        None => None,
    }
}

/// The per-tick call of an instance: its `draw` export with the instance's
/// position and rotation.
pub open spec fn draw_call(instance: InstanceView) -> Option<EntryCallView> {
    entry_call(
        instance,
        "draw"@,
        seq![instance.location.x, instance.location.y, instance.rotation],
    )
}

/// The call that submits cursor coordinates to an instance: its
/// `cursor_coords` export with the point's coordinates.
pub open spec fn cursor_call(instance: InstanceView, point: Point) -> Option<EntryCallView> {
    entry_call(instance, "cursor_coords"@, seq![point.x, point.y])
}

/// The value of a call that may be none.
pub open spec fn call_view(call: Option<EntryCall>) -> Option<EntryCallView> {
    match call {
        Some(call) => Some(call@),
        None => None,
    }
}

impl LogicInstance {
    /// A new instance under the given id.
    pub fn new(name: String, id: u128, location: Point, rotation: u32, instance: Instance) -> (created:
        LogicInstance)
        ensures
            created@ == (InstanceView { name: name@, id, location, rotation, instance }),
    {
        LogicInstance { name, id, location, rotation, instance }
    }

    /// The id of the instance.
    pub fn id(&self) -> (id: u128)
        ensures
            id == self@.id,
    {
        self.id
    }

    /// The name of the instance.
    pub fn name(&self) -> (name: &str)
        ensures
            name@ == self@.name,
    {
        self.name.as_str()
    }

    /// The position of the instance.
    pub fn location(&self) -> (location: Point)
        ensures
            location == self@.location,
    {
        self.location
    }

    /// The rotation of the instance.
    pub fn rotation(&self) -> (rotation: u32)
        ensures
            rotation == self@.rotation,
    {
        self.rotation
    }

    /// The call of the export `name` with the given arguments, if the
    /// instance has such a function.
    fn call_entry(&self, name: &str, args: Vec<u32>) -> (call: Option<EntryCall>)
        ensures
            call_view(call) == entry_call(self@, name@, args@),
    {
        match lookup_function(&self.instance, name) {
            Some(function) => Some(EntryCall { instance: self.id, function, args }),
            None => None,
        }
    }

    /// The call that draws the instance, if the instance can be drawn.
    pub fn draw(&self) -> (call: Option<EntryCall>)
        ensures
            call_view(call) == draw_call(self@),
    {
        let mut args: Vec<u32> = Vec::new();
        args.push(self.location.x);
        args.push(self.location.y);
        args.push(self.rotation);
        assert(args@ =~= seq![self.location.x, self.location.y, self.rotation]);
        self.call_entry("draw", args)
    }

    /// The call that tells the instance where the cursor is, if the instance
    /// wants to know.
    pub fn submit_cursor_coords(&self, point: Point) -> (call: Option<EntryCall>)
        ensures
            call_view(call) == cursor_call(self@, point),
    {
        let mut args: Vec<u32> = Vec::new();
        args.push(point.x);
        args.push(point.y);
        assert(args@ =~= seq![point.x, point.y]);
        self.call_entry("cursor_coords", args)
    }
}

/// The least and the greatest number of connections that a module accepts.
#[derive(Debug, Clone, Copy, PartialEq, Eq, Structural)]
pub struct Arity {
    pub min: usize,
    pub max: usize,
}

/// A compiled module with additional information.
#[derive(Debug)]
pub struct LogicModule {
    /// The name of the component the module represents.
    pub name: String,
    /// A unique id.
    id: usize,
    /// The range of valid numbers of inputs.
    inputs: Arity,
    /// The range of valid numbers of outputs.
    outputs: Arity,
    /// The compiled module.
    module: Module,
}

/// The mathematical value of a [`LogicModule`].
pub struct ModuleView {
    pub name: Seq<char>,
    pub id: nat,
    pub inputs: Arity,
    pub outputs: Arity,
    pub module: Module,
}

impl View for LogicModule {
    type V = ModuleView;

    closed spec fn view(&self) -> ModuleView {
        ModuleView {
            name: self.name@,
            id: self.id as nat,
            inputs: self.inputs,
            outputs: self.outputs,
            module: self.module,
        }
    }
}

/// The value of a module that was just defined: two inputs, one output.
pub open spec fn new_module(name: Seq<char>, id: nat, module: Module) -> ModuleView {
    ModuleView {
        name,
        id,
        inputs: Arity { min: 2, max: 2 },
        outputs: Arity { min: 1, max: 1 },
        module,
    }
}

impl LogicModule {
    /// A new module definition.
    pub fn new(name: String, id: usize, module: Module) -> (created: LogicModule)
        ensures
            created@ == new_module(name@, id as nat, module),
    {
        LogicModule {
            name,
            id,
            inputs: Arity { min: 2, max: 2 },
            outputs: Arity { min: 1, max: 1 },
            module,
        }
    }

    /// The compiled module.
    pub fn module(&self) -> (module: &Module)
        ensures
            *module == self@.module,
    {
        &self.module
    }

    /// The name of the module.
    pub fn name(&self) -> (name: &str)
        ensures
            name@ == self@.name,
    {
        self.name.as_str()
    }

    /// The id of the module.
    pub fn id(&self) -> (id: usize)
        ensures
            id == self@.id,
    {
        self.id
    }

    /// The values of what [`LogicModule::instantiate`] returns when the
    /// engine returned `outcome` and the id generator `id`.
    pub open spec fn instance_from(
        self,
        outcome: Result<Instance, InstantiationError>,
        id: u128,
        location: Point,
        rotation: u32,
    ) -> Result<InstanceView, InstantiationError> {
        match outcome {
            Ok(instance) => Ok(
                InstanceView { name: self@.name, id, location, rotation, instance },
            ),
            Err(e) => Err(e),
        }
    }

    /// Wraps the outcome of an instantiation of this module: an instance
    /// under the id `id` with this module's name, or the engine's error.
    pub fn wrap_instance(
        &self,
        outcome: Result<Instance, InstantiationError>,
        id: u128,
        location: Point,
        rotation: u32,
    ) -> (res: Result<LogicInstance, InstantiationError>)
        ensures
            match res {
                Ok(created) => self.instance_from(outcome, id, location, rotation) == Ok::<
                    InstanceView,
                    InstantiationError,
                >(created@),
                Err(e) => self.instance_from(outcome, id, location, rotation) == Err::<
                    InstanceView,
                    InstantiationError,
                >(e),
            },
    {
        match outcome {
            Ok(instance) => Ok(
                LogicInstance::new(self.name.clone(), id, location, rotation, instance),
            ),
            Err(e) => Err(e),
        }
    }

    /// Creates a new instance of this module in `store`, with `imports` as
    /// the host's side. On success the instance has this module's name, the
    /// given placement and a freshly generated id, which is a version 4 UUID.
    pub fn instantiate(
        &self,
        store: &mut Store,
        imports: &Imports,
        location: Point,
        rotation: u32,
    ) -> (res: Result<LogicInstance, InstantiationError>)
        ensures
            res matches Ok(created) ==> {
                &&& created@.name == self@.name
                &&& created@.location == location
                &&& created@.rotation == rotation
                &&& is_random_uuid(created@.id)
            },
    {
        let outcome = instantiate(store, &self.module, imports);
        let id = fresh_id();
        self.wrap_instance(outcome, id, location, rotation)
    }
}

/// A named group of modules.
#[derive(Debug)]
pub struct Category {
    /// The name of the group.
    name: String,
    /// A unique group id.
    id: usize,
    /// The modules of the group, by name.
    modules: NameMap<LogicModule>,
}

/// The mathematical value of a [`Category`].
pub struct CategoryView {
    pub name: Seq<char>,
    pub id: nat,
    pub modules: Map<Seq<char>, ModuleView>,
}

/// The values of the modules of a map.
pub open spec fn module_views(modules: Map<Seq<char>, LogicModule>) -> Map<Seq<char>, ModuleView> {
    modules.map_values(|m: LogicModule| m@)
}

impl View for Category {
    type V = CategoryView;

    closed spec fn view(&self) -> CategoryView {
        CategoryView {
            name: self.name@,
            id: self.id as nat,
            modules: module_views(self.modules@),
        }
    }
}

impl Category {
    /// The invariant of the representation.
    pub closed spec fn wf(&self) -> bool {
        self.modules.wf()
    }

    /// A new category without modules.
    pub fn new(name: String, id: usize) -> (created: Category)
        ensures
            created.wf(),
            created@ == (CategoryView { name: name@, id: id as nat, modules: Map::empty() }),
    {
        let created = Category { name, id, modules: NameMap::new() };
        assert(created@.modules =~= Map::empty());
        created
    }

    /// Adds a module under its name, in place of a module of that name.
    pub fn add_module(&mut self, module: LogicModule)
        requires
            old(self).wf(),
        ensures
            final(self).wf(),
            final(self)@ == (CategoryView {
                modules: old(self)@.modules.insert(module@.name, module@),
                ..old(self)@
            }),
    {
        self.modules.insert(module.name.clone(), module);
        assert(self@.modules =~= old(self)@.modules.insert(module@.name, module@));
    }

    /// The modules of the category, by name.
    pub fn modules(&self) -> (modules: &NameMap<LogicModule>)
        requires
            self.wf(),
        ensures
            modules.wf(),
            module_views(modules@) == self@.modules,
    {
        &self.modules
    }

    /// The name of the category.
    pub fn name(&self) -> (name: &str)
        ensures
            name@ == self@.name,
    {
        self.name.as_str()
    }

    /// The id of the category.
    pub fn id(&self) -> (id: usize)
        ensures
            id == self@.id,
    {
        self.id
    }
}

/// The mathematical value of a [`ModuleEnv`]: the catalog, the registry of
/// instances, the contract and the two id counters.
pub struct EnvView {
    pub categories: Map<Seq<char>, CategoryView>,
    pub instances: Map<u128, InstanceView>,
    pub contract: ContractView,
    pub next_category_id: nat,
    pub next_module_id: nat,
}

impl EnvView {
    /// The environment that was just created: nothing cataloged, nothing
    /// running.
    pub open spec fn empty(contract: ContractView) -> EnvView {
        EnvView {
            categories: Map::empty(),
            instances: Map::empty(),
            contract,
            next_category_id: 0,
            next_module_id: 0,
        }
    }

    /// Whether the catalog holds a module `module` in a category `category`.
    pub open spec fn has_module(self, category: Seq<char>, module: Seq<char>) -> bool {
        self.categories.contains_key(category) && self.categories[category].modules.contains_key(
            module,
        )
    }

    /// Whether a compiled module satisfies the environment's contract.
    pub open spec fn accepts(self, module: Module) -> bool {
        check_outcome(self.contract, module_exports(module), module_imports(module)) is Ok
    }

    /// The environment after a category `name` was added: the category is
    /// empty and has the next category id, whatever was stored under the name.
    pub open spec fn with_category(self, name: Seq<char>) -> EnvView {
        EnvView {
            categories: self.categories.insert(
                name,
                CategoryView { name, id: self.next_category_id, modules: Map::empty() },
            ),
            next_category_id: self.next_category_id + 1,
            ..self
        }
    }

    /// The environment with a category `name`: unchanged where there is one,
    /// else with a new one.
    pub open spec fn ensure_category(self, name: Seq<char>) -> EnvView {
        if self.categories.contains_key(name) {
            self
        } else {
            self.with_category(name)
        }
    }

    /// The environment after `module` was added to the category `category`
    /// under `name`, with the next module id.
    pub open spec fn with_module(self, category: Seq<char>, name: Seq<char>, module: Module) -> EnvView {
        let old_category = self.categories[category];
        EnvView {
            categories: self.categories.insert(
                category,
                CategoryView {
                    modules: old_category.modules.insert(
                        name,
                        new_module(name, self.next_module_id, module),
                    ),
                    ..old_category
                },
            ),
            next_module_id: self.next_module_id + 1,
            ..self
        }
    }

    /// The environment after `instance` was registered under its id.
    pub open spec fn with_instance(self, instance: InstanceView) -> EnvView {
        EnvView { instances: self.instances.insert(instance.id, instance), ..self }
    }

    /// What holds of every environment: categories and modules are stored
    /// under their own names, ids are below the counters and unique, every
    /// cataloged module satisfies the contract, and every instance is
    /// registered under its own id.
    pub open spec fn valid(self) -> bool {
        &&& forall|c: Seq<char>| #[trigger]
            self.categories.contains_key(c) ==> {
                &&& self.categories[c].name == c
                &&& self.categories[c].id < self.next_category_id
            }
        &&& forall|c: Seq<char>, m: Seq<char>| #[trigger]
            self.has_module(c, m) ==> {
                &&& self.categories[c].modules[m].name == m
                &&& self.categories[c].modules[m].id < self.next_module_id
                &&& self.accepts(self.categories[c].modules[m].module)
            }
        &&& forall|c: Seq<char>, d: Seq<char>|
            #![trigger self.categories[c], self.categories[d]]
            self.categories.contains_key(c) && self.categories.contains_key(d) && c != d
                ==> self.categories[c].id != self.categories[d].id
        &&& forall|c: Seq<char>, m: Seq<char>, d: Seq<char>, n: Seq<char>|
            #![trigger self.categories[c].modules[m], self.categories[d].modules[n]]
            self.has_module(c, m) && self.has_module(d, n) && (c != d || m != n)
                ==> self.categories[c].modules[m].id != self.categories[d].modules[n].id
        &&& forall|id: u128| #[trigger]
            self.instances.contains_key(id) ==> self.instances[id].id == id
    }
}

/// Adding a category keeps an environment valid.
pub proof fn law_with_category_valid(env: EnvView, name: Seq<char>)
    requires
        env.valid(),
    ensures
        env.with_category(name).valid(),
{
    let after = env.with_category(name);
    assert forall|c: Seq<char>, m: Seq<char>| #[trigger] after.has_module(c, m) implies env.has_module(
        c,
        m,
    ) && c != name by {}
    assert forall|c: Seq<char>| #[trigger] after.categories.contains_key(c) implies {
        &&& after.categories[c].name == c
        &&& after.categories[c].id < after.next_category_id
    } by {
        if c != name {
            assert(env.categories.contains_key(c));
        }
    }
    assert forall|c: Seq<char>, d: Seq<char>|
        after.categories.contains_key(c) && after.categories.contains_key(d) && c != d implies (
    #[trigger] after.categories[c]).id != (#[trigger] after.categories[d]).id by {
        if c != name {
            assert(env.categories.contains_key(c));
        }
        if d != name {
            assert(env.categories.contains_key(d));
        }
    }
}

/// Adding a category under a name that is in use replaces the category of
/// that name by an empty one: no module is reachable under the name any
/// more, and every other category is as it was.
pub proof fn law_category_readded(env: EnvView, name: Seq<char>)
    ensures
        env.with_category(name).categories[name].modules == Map::<Seq<char>, ModuleView>::empty(),
        forall|m: Seq<char>| !env.with_category(name).has_module(name, m),
        forall|c: Seq<char>|
            c != name ==> env.with_category(name).categories.contains_key(c)
                == env.categories.contains_key(c) && env.with_category(name).categories[c]
                == env.categories[c],
        env.with_category(name).instances == env.instances,
{
}

/// Adding a module that satisfies the contract to a category of the catalog
/// keeps an environment valid.
pub proof fn law_with_module_valid(env: EnvView, category: Seq<char>, name: Seq<char>, module: Module)
    requires
        env.valid(),
        env.categories.contains_key(category),
        env.accepts(module),
    ensures
        env.with_module(category, name, module).valid(),
        env.with_module(category, name, module).has_module(category, name),
{
    let after = env.with_module(category, name, module);
    assert forall|c: Seq<char>| #[trigger] after.categories.contains_key(c) implies {
        &&& env.categories.contains_key(c)
        &&& after.categories[c].name == c
        &&& after.categories[c].id == env.categories[c].id
    } by {
        assert(env.categories.contains_key(category));
    }
    assert forall|c: Seq<char>, m: Seq<char>| #[trigger] after.has_module(c, m) implies {
        &&& (c == category && m == name) || (env.has_module(c, m) && after.categories[c].modules[m]
            == env.categories[c].modules[m])
        &&& after.categories[c].modules[m].name == m
        &&& after.categories[c].modules[m].id < after.next_module_id
        &&& after.accepts(after.categories[c].modules[m].module)
    } by {
        assert(after.categories.contains_key(c));
        if !(c == category && m == name) {
            assert(env.has_module(c, m));
        }
    }
    assert forall|c: Seq<char>, d: Seq<char>|
        after.categories.contains_key(c) && after.categories.contains_key(d) && c != d implies (
    #[trigger] after.categories[c]).id != (#[trigger] after.categories[d]).id by {
        assert(env.categories.contains_key(c));
        assert(env.categories.contains_key(d));
        assert(env.categories[c].id != env.categories[d].id);
    }
    assert forall|c: Seq<char>, m: Seq<char>, d: Seq<char>, n: Seq<char>|
        after.has_module(c, m) && after.has_module(d, n) && (c != d || m != n) implies (
    #[trigger] after.categories[c].modules[m]).id != (#[trigger] after.categories[d].modules[n]).id by {
        let fresh_c = c == category && m == name;
        let fresh_d = d == category && n == name;
        if !fresh_c {
            assert(env.has_module(c, m));
        }
        if !fresh_d {
            assert(env.has_module(d, n));
        }
        if !fresh_c && !fresh_d {
            assert(env.categories[c].modules[m].id != env.categories[d].modules[n].id);
        }
    }
}

/// Registering an instance keeps an environment valid, and the registry
/// grows by one exactly when the instance's id was not in use.
pub proof fn law_with_instance_valid(env: EnvView, instance: InstanceView)
    requires
        env.valid(),
    ensures
        env.with_instance(instance).valid(),
        env.with_instance(instance).instances.contains_key(instance.id),
        env.instances.dom().finite() && !env.instances.contains_key(instance.id)
            ==> env.with_instance(instance).instances.dom().len() == env.instances.dom().len() + 1,
{
    let after = env.with_instance(instance);
    assert forall|c: Seq<char>, m: Seq<char>| #[trigger] after.has_module(c, m) implies env.has_module(
        c,
        m,
    ) by {}
    assert forall|id: u128| #[trigger] after.instances.contains_key(id) implies after.instances[id].id
        == id by {
        if id != instance.id {
            assert(env.instances.contains_key(id));
        }
    }
}

/// No two instances of the registry have the same id.
pub proof fn law_instance_ids_unique(env: EnvView, a: u128, b: u128)
    requires
        env.valid(),
        env.instances.contains_key(a),
        env.instances.contains_key(b),
        a != b,
    ensures
        env.instances[a].id != env.instances[b].id,
{
}

/// The values of the categories of a map.
pub open spec fn category_views(categories: Map<Seq<char>, Category>) -> Map<
    Seq<char>,
    CategoryView,
> {
    categories.map_values(|c: Category| c@)
}

/// The values of the instances of a map.
pub open spec fn instance_views(instances: Map<u128, LogicInstance>) -> Map<u128, InstanceView> {
    instances.map_values(|i: LogicInstance| i@)
}

/// The registry of categories, modules and instances, with the engine state
/// and the contract that every module must satisfy.
#[derive(Debug)]
pub struct ModuleEnv {
    /// The engine's state, which owns all compiled code and all instances.
    store: Store,
    /// The categories, by name. Each holds a set of modules.
    categories: NameMap<Category>,
    /// All instances, by id.
    instances: HashMap<u128, LogicInstance>,
    /// The host items offered to every module.
    imports: Imports,
    /// The contract that every module must satisfy.
    contract: Contract,
    /// The id of the next category.
    cat_id: usize,
    /// The id of the next module.
    mod_id: usize,
}

impl View for ModuleEnv {
    type V = EnvView;

    closed spec fn view(&self) -> EnvView {
        EnvView {
            categories: category_views(self.categories@),
            instances: instance_views(self.instances@),
            contract: self.contract@,
            next_category_id: self.cat_id as nat,
            next_module_id: self.mod_id as nat,
        }
    }
}

impl ModuleEnv {
    /// The invariant of the representation. It implies that the value is
    /// valid.
    pub closed spec fn wf(&self) -> bool {
        &&& self.categories.wf()
        &&& forall|c: Seq<char>| #[trigger]
            self.categories@.contains_key(c) ==> self.categories@[c].wf()
        &&& self@.valid()
    }

    /// The engine's state that the environment holds. It is no part of the
    /// environment's value: the engine changes it as it runs.
    pub closed spec fn engine_state(&self) -> Store {
        self.store
    }

    /// A well-formed environment has a valid value, with finitely many
    /// categories and instances.
    pub proof fn lemma_wf_valid(&self)
        requires
            self.wf(),
        ensures
            self@.valid(),
            self@.instances.dom().finite(),
    {
        assert(self@.instances.dom() =~= self.instances@.dom());
    }

    /// Creates an environment with the given engine state, host imports and
    /// contract, with an empty catalog and no instance.
    pub fn new(store: Store, imports: Imports, contract: Contract) -> (env: ModuleEnv)
        ensures
            env.wf(),
            env@ == EnvView::empty(contract@),
    {
        let env = ModuleEnv {
            store,
            categories: NameMap::new(),
            instances: HashMap::new(),
            imports,
            contract,
            cat_id: 0,
            mod_id: 0,
        };
        assert(env@.categories =~= Map::empty());
        assert(env@.instances =~= Map::empty());
        env
    }

    /// All categories, by name.
    pub fn categories(&self) -> (categories: &NameMap<Category>)
        requires
            self.wf(),
        ensures
            categories.wf(),
            category_views(categories@) == self@.categories,
            forall|c: Seq<char>| #[trigger] categories@.contains_key(c) ==> categories@[c].wf(),
    {
        &self.categories
    }

    /// All instances, by id.
    pub fn instances(&self) -> (instances: &HashMap<u128, LogicInstance>)
        ensures
            instance_views(instances@) == self@.instances,
    {
        &self.instances
    }

    /// The engine's state, for calls into instances: the reference is to the
    /// state that the environment holds, so what the caller does to it is
    /// done to the environment's, and to nothing else of the environment.
    pub fn store_mut(&mut self) -> (store: &mut Store)
        requires
            old(self).wf(),
        ensures
            *store == old(self).engine_state(),
            final(self).engine_state() == *final(store),
            final(self).wf(),
            final(self)@ == old(self)@,
    {
        &mut self.store
    }

    /// The contract that every module must satisfy.
    pub fn contract(&self) -> (contract: &Contract)
        ensures
            contract@ == self@.contract,
    {
        &self.contract
    }

    /// The id that the next category gets.
    pub fn next_category_id(&self) -> (id: usize)
        ensures
            id == self@.next_category_id,
    {
        self.cat_id
    }

    /// The id that the next module gets.
    pub fn next_module_id(&self) -> (id: usize)
        ensures
            id == self@.next_module_id,
    {
        self.mod_id
    }

    /// The names of all categories, each once.
    pub fn category_names(&self) -> (names: Vec<&String>)
        requires
            self.wf(),
        ensures
            crate::name_map::name_views(names@).no_duplicates(),
            crate::name_map::name_views(names@).to_set() == self@.categories.dom(),
    {
        assert(self@.categories.dom() =~= self.categories@.dom());
        self.categories.keys()
    }

    /// The names of all modules of the given category, each once; `None`
    /// where there is no such category.
    pub fn module_names(&self, category: &str) -> (names: Option<Vec<&String>>)
        requires
            self.wf(),
        ensures
            match names {
                Some(names) => {
                    &&& self@.categories.contains_key(category@)
                    &&& crate::name_map::name_views(names@).no_duplicates()
                    &&& crate::name_map::name_views(names@).to_set()
                        == self@.categories[category@].modules.dom()
                },
                None => !self@.categories.contains_key(category@),
            },
    {
        match self.categories.get(category) {
            Some(found) => {
                assert(self@.categories[category@].modules.dom() =~= found.modules@.dom());
                Some(found.modules().keys())
            },
            None => None,
        }
    }

    /// Adds an empty category with the given name and the next category id.
    /// A category that had the name is replaced, and its modules are dropped.
    pub fn add_category(&mut self, name: String)
        requires
            old(self).wf(),
            old(self)@.next_category_id < usize::MAX,
        ensures
            final(self).wf(),
            final(self)@ == old(self)@.with_category(name@),
    {
        let created = Category::new(name.clone(), self.cat_id);
        self.categories.insert(name, created);
        self.cat_id += 1;
        proof {
            law_with_category_valid(old(self)@, name@);
            assert(self@.categories =~= old(self)@.with_category(name@).categories);
        }
    }

    /// Decides on a module that the engine was asked to compile: a module
    /// that did not compile, or that does not satisfy the contract, is
    /// refused with the error that says so.
    pub fn vet(&self, compiled: Result<Module, CompileError>) -> (res: Result<Module, ModuleError>)
        ensures
            match compiled {
                Err(e) => res == Err::<Module, ModuleError>(ModuleError::CompileErr(e)),
                Ok(module) => match check_outcome(
                    self@.contract,
                    module_exports(module),
                    module_imports(module),
                ) {
                    Err(violation) => res matches Err(ModuleError::ContractErr(e)) && e@
                        == violation,
                    Ok(()) => res == Ok::<Module, ModuleError>(module),
                },
            },
    {
        match compiled {
            Err(e) => Err(ModuleError::from(e)),
            Ok(module) => match self.contract.check(&module) {
                Err(e) => Err(ModuleError::from(e)),
                Ok(()) => Ok(module),
            },
        }
    }

    /// Adds a module that satisfies the contract to a category of the
    /// catalog, under the next module id.
    fn install(&mut self, category: &str, name: &str, module: Module)
        requires
            old(self).wf(),
            old(self)@.categories.contains_key(category@),
            old(self)@.accepts(module),
            old(self)@.next_module_id < usize::MAX,
        ensures
            final(self).wf(),
            final(self)@ == old(self)@.with_module(category@, name@, module),
    {
        let definition = LogicModule::new(name.to_string(), self.mod_id, module);
        match self.categories.get_mut(category) {
            Some(found) => {
                found.add_module(definition);
            },
            None => {},
        }
        self.mod_id += 1;
        proof {
            law_with_module_valid(old(self)@, category@, name@, module);
            assert(self@.categories =~= old(self)@.with_module(category@, name@, module).categories);
        }
    }

    /// Adds the module that the engine was asked to compile to a category of
    /// the catalog, unless it is refused (see [`ModuleEnv::vet`]). A refused
    /// module changes nothing and uses up no id.
    pub fn add_compiled(&mut self, category: &str, name: &str, compiled: Result<Module, CompileError>) -> (res:
        Result<(), ModuleError>)
        requires
            old(self).wf(),
            old(self)@.categories.contains_key(category@),
            old(self)@.next_module_id < usize::MAX,
        ensures
            final(self).wf(),
            match compiled {
                Err(e) => res == Err::<(), ModuleError>(ModuleError::CompileErr(e)) && final(self)@
                    == old(self)@,
                Ok(module) => match check_outcome(
                    old(self)@.contract,
                    module_exports(module),
                    module_imports(module),
                ) {
                    Err(violation) => {
                        &&& res matches Err(ModuleError::ContractErr(e)) && e@ == violation
                        &&& final(self)@ == old(self)@
                    },
                    Ok(()) => res is Ok && final(self)@ == old(self)@.with_module(
                        category@,
                        name@,
                        module,
                    ),
                },
            },
    {
        match self.vet(compiled) {
            Err(e) => Err(e),
            Ok(module) => {
                self.install(category, name, module);
                Ok(())
            },
        }
    }

    /// Adds a module to the given category. A category that does not exist
    /// is created first, and stays where the module is then refused.
    ///
    /// The engine compiles `module`; the compiled module is added if it
    /// satisfies the contract. Otherwise the error says why not, and no
    /// module id is used up.
    pub fn add_module_raw(&mut self, category: &str, name: &str, module: &[u8]) -> (res: Result<
        (),
        ModuleError,
    >)
        requires
            old(self).wf(),
            old(self)@.next_category_id < usize::MAX,
            old(self)@.next_module_id < usize::MAX,
        ensures
            final(self).wf(),
            match res {
                Ok(()) => exists|compiled: Module|
                    {
                        &&& old(self)@.accepts(compiled)
                        &&& final(self)@ == old(self)@.ensure_category(category@).with_module(
                            category@,
                            name@,
                            compiled,
                        )
                    },
                Err(ModuleError::CompileErr(_)) => final(self)@ == old(self)@.ensure_category(
                    category@,
                ),
                Err(ModuleError::ContractErr(e)) => {
                    &&& final(self)@ == old(self)@.ensure_category(category@)
                    &&& exists|compiled: Module|
                        check_outcome(
                            old(self)@.contract,
                            module_exports(compiled),
                            module_imports(compiled),
                        ) == Err::<(), ContractErrorView>(e@)
                },
                Err(ModuleError::IOErr(_)) => false,
            },
    {
        if !self.categories.contains_key(category) {
            self.add_category(category.to_string());
        }
        let compiled = compile(&self.store, module);
        let ghost outcome = compiled;
        let res = self.add_compiled(category, name, compiled);
        proof {
            let before = old(self)@.ensure_category(category@);
            if let Ok(handle) = outcome {
                if res is Ok {
                    assert(old(self)@.accepts(handle));
                    assert(self@ == before.with_module(category@, name@, handle));
                } else {
                    assert(check_outcome(
                        old(self)@.contract,
                        module_exports(handle),
                        module_imports(handle),
                    ) is Err);
                }
            }
        }
        res
    }

    /// Adds the module in the file `wasm_file`, whose contents the caller
    /// has read, to the category that the path names (see [`parse_path`]).
    /// The category is created if it does not exist.
    ///
    /// A file that could not be read and a path that names no category are
    /// input errors. On every error the environment is as it was: no
    /// category is created for a module that is refused.
    pub fn add_module(&mut self, wasm_file: &str, contents: Result<Vec<u8>, String>) -> (res: Result<
        (),
        ModuleError,
    >)
        requires
            old(self).wf(),
            old(self)@.next_category_id < usize::MAX,
            old(self)@.next_module_id < usize::MAX,
        ensures
            final(self).wf(),
            res is Err ==> final(self)@ == old(self)@,
            match (contents, parse_path_spec(wasm_file@)) {
                (Err(reason), _) => res matches Err(ModuleError::IOErr(text)) && text@ == reason@,
                (Ok(_), None) => res matches Err(ModuleError::IOErr(text)) && text@
                    == "invalid path"@,
                (Ok(_), Some((category, name))) => match res {
                    Ok(()) => exists|compiled: Module|
                        {
                            &&& old(self)@.accepts(compiled)
                            &&& final(self)@ == old(self)@.ensure_category(category).with_module(
                                category,
                                name,
                                compiled,
                            )
                        },
                    Err(ModuleError::CompileErr(_)) => true,
                    Err(ModuleError::ContractErr(e)) => exists|compiled: Module|
                        check_outcome(
                            old(self)@.contract,
                            module_exports(compiled),
                            module_imports(compiled),
                        ) == Err::<(), ContractErrorView>(e@),
                    Err(ModuleError::IOErr(_)) => false,
                },
            },
    {
        let bytes = match contents {
            Err(reason) => {
                return Err(ModuleError::IOErr(reason));
            },
            Ok(bytes) => bytes,
        };
        let (category, name) = match parse_path(wasm_file) {
            None => {
                return Err(ModuleError::IOErr("invalid path".to_string()));
            },
            Some(parsed) => parsed,
        };
        let compiled = compile(&self.store, bytes.as_slice());
        let ghost outcome = compiled;
        match self.vet(compiled) {
            Err(e) => {
                proof {
                    if let Ok(handle) = outcome {
                        assert(check_outcome(
                            old(self)@.contract,
                            module_exports(handle),
                            module_imports(handle),
                        ) is Err);
                    }
                }
                Err(e)
            },
            Ok(module) => {
                if !self.categories.contains_key(category.as_str()) {
                    self.add_category(category.clone());
                }
                self.install(category.as_str(), name.as_str(), module);
                proof {
                    assert(old(self)@.accepts(module));
                }
                Ok(())
            },
        }
    }

    /// Registers the outcome of an instantiation: an instance is stored
    /// under its id, in place of an instance of that id; a failure leaves
    /// the registry as it was.
    pub fn register(&mut self, created: Result<LogicInstance, InstantiationError>) -> (id: Option<
        u128,
    >)
        requires
            old(self).wf(),
        ensures
            final(self).wf(),
            match created {
                Ok(instance) => id == Some(instance@.id) && final(self)@ == old(self)@.with_instance(
                    instance@,
                ),
                Err(_) => id is None && final(self)@ == old(self)@,
            },
    {
        match created {
            Ok(instance) => {
                let id = instance.id();
                let ghost value = instance@;
                self.instances.insert(id, instance);
                proof {
                    law_with_instance_valid(old(self)@, value);
                    assert(self@.instances =~= old(self)@.with_instance(value).instances);
                }
                Some(id)
            },
            Err(_) => None,
        }
    }

    /// Creates a new instance of the given module at `pos`, not rotated, and
    /// registers it under a freshly generated id, which is returned.
    ///
    /// Where the catalog has no such category or module, or where the engine
    /// refuses to instantiate the module, there is no instance, and the
    /// registry is as it was.
    pub fn instantiate(&mut self, category: &str, module: &str, pos: Point) -> (id: Option<u128>)
        requires
            old(self).wf(),
        ensures
            final(self).wf(),
            !old(self)@.has_module(category@, module@) ==> id is None,
            id is None ==> final(self)@ == old(self)@,
            id matches Some(id) ==> old(self)@.has_module(category@, module@) && is_random_uuid(id),
            id matches Some(id) ==> exists|handle: Instance|
                final(self)@ == #[trigger] old(self)@.with_instance(
                    InstanceView { name: module@, id, location: pos, rotation: 0, instance: handle },
                ),
    {
        let created = match self.categories.get(category) {
            None => {
                return None;
            },
            Some(found) => match found.modules().get(module) {
                None => {
                    return None;
                },
                Some(definition) => {
                    assert(self@.has_module(category@, module@));
                    assert(definition@.name == module@);
                    definition.instantiate(&mut self.store, &self.imports, pos, 0)
                },
            },
        };
        let ghost outcome = created;
        let id = self.register(created);
        proof {
            if let Some(registered) = id {
                let handle = outcome->Ok_0@.instance;
                assert(self@ == old(self)@.with_instance(
                    InstanceView {
                        name: module@,
                        id: registered,
                        location: pos,
                        rotation: 0,
                        instance: handle,
                    },
                ));
            }
        }
        id
    }

    /// The calls of one tick: the `draw` call of every instance that can be
    /// drawn, each once, in no particular order.
    pub fn on_tick(&self) -> (calls: Vec<EntryCall>)
        requires
            self.wf(),
        ensures
            forall|i: int|
                0 <= i < calls@.len() ==> {
                    &&& self@.instances.contains_key(#[trigger] calls@[i]@.instance)
                    &&& draw_call(self@.instances[calls@[i]@.instance]) == Some(calls@[i]@)
                },
            forall|i: int, j: int|
                0 <= i < calls@.len() && 0 <= j < calls@.len() && i != j ==> calls@[i]@.instance
                    != calls@[j]@.instance,
            forall|id: u128|
                self@.instances.contains_key(id) && draw_call(#[trigger] self@.instances[id])
                    is Some ==> exists|i: int|
                    0 <= i < calls@.len() && #[trigger] calls@[i]@.instance == id,
    {
        let mut calls: Vec<EntryCall> = Vec::new();
        let ghost all = self.instances.iter().remaining();
        // For every call, the position in `all` of the instance it is for.
        let ghost mut source: Seq<int> = Seq::empty();
        for entry in it: self.instances.iter()
            invariant
                it.seq() == all,
                calls@.len() == source.len(),
                forall|k: int|
                    0 <= k < source.len() ==> 0 <= #[trigger] source[k] < it.index() && draw_call(
                        (*all[source[k]].1)@,
                    ) == Some(calls@[k]@),
                forall|k: int, l: int|
                    0 <= k < l < source.len() ==> #[trigger] source[k] < #[trigger] source[l],
                forall|j: int|
                    0 <= j < it.index() && draw_call((*(#[trigger] all[j]).1)@) is Some
                        ==> exists|k: int| 0 <= k < source.len() && #[trigger] source[k] == j,
        {
            let ghost position = it.index();
            match entry.1.draw() {
                Some(call) => {
                    calls.push(call);
                    proof {
                        let before = source;
                        source = source.push(position);
                        assert forall|j: int|
                            0 <= j < position + 1 && draw_call((*(#[trigger] all[j]).1)@)
                                is Some implies exists|k: int|
                            0 <= k < source.len() && #[trigger] source[k] == j by {
                            if j < position {
                                let k = choose|k: int|
                                    0 <= k < before.len() && #[trigger] before[k] == j;
                                assert(source[k] == j);
                            } else {
                                assert(source[before.len() as int] == j);
                            }
                        }
                    }
                },
                None => {},
            }
        }
        proof {
            self.lemma_wf_valid();
            assert(self@.instances.dom() =~= self.instances@.dom());
            assert(all.no_duplicates());
            assert forall|k: int| 0 <= k < calls@.len() implies {
                &&& self.instances@.contains_key(*all[source[k]].0)
                &&& self.instances@[*all[source[k]].0] == *all[source[k]].1
                &&& #[trigger] calls@[k]@.instance == *all[source[k]].0
            } by {
                assert(self@.instances.contains_key(*all[source[k]].0));
            }
            assert forall|id: u128|
                self@.instances.contains_key(id) && draw_call(#[trigger] self@.instances[id])
                    is Some implies exists|i: int|
                0 <= i < calls@.len() && #[trigger] calls@[i]@.instance == id by {
                assert(self.instances@.contains_key(id));
                let pair = (&id, &self.instances@[id]);
                assert(all.contains(pair));
                let j = choose|j: int| 0 <= j < all.len() && all[j] == pair;
                let k = choose|k: int| 0 <= k < source.len() && #[trigger] source[k] == j;
                assert(calls@[k]@.instance == id);
            }
        }
        calls
    }
}

} // verus!
