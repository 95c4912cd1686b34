use megs::contract::{Contract, ContractError};
use megs::misc::Point;
use megs::module::{Category, LogicInstance, LogicModule, ModuleEnv, ModuleError};
use megs::signature::{ExternKind, ExternSignature, ValType};
use wasmer::{Function, Imports, Instance, Module, Store};

const AND_GATE: &str = r#"
    (module
        (import "env" "draw_rectangle" (func $dbr (param f32 f32 f32 f32 f32 f32 f32)))
        (func $draw (export "draw")
            (param $x f32) (param $y f32) (param $r f32)

            (call $dbr (local.get $x) (local.get $y) (f32.const 100.0) (f32.const 50.0) (f32.const 1.0) (f32.const 1.0) (f32.const 1.0))
        )
    )
"#;

const NO_DRAW: &str = r#"
    (module
        (func (export "width") (result f32)
            f32.const 80
        )
    )
"#;

pub fn draw_rectangle(_x: f32, _y: f32, _w: f32, _h: f32, _r: f32, _g: f32, _b: f32) {}

fn rectangle_import() -> ExternSignature {
    ExternSignature::import(
        "env",
        "draw_rectangle",
        ExternKind::function(vec![ValType::F32; 7], vec![]),
    )
}

fn draw_export() -> ExternSignature {
    ExternSignature::export("draw", ExternKind::function(vec![ValType::F32; 3], vec![]))
}

fn point(x: f32, y: f32) -> Point {
    Point { x: x.to_bits(), y: y.to_bits() }
}

fn new_env(exports: Vec<ExternSignature>) -> ModuleEnv {
    let mut store = Store::default();
    let mut imports = Imports::new();
    imports.define("env", "draw_rectangle", Function::new_typed(&mut store, draw_rectangle));
    let contract = Contract { exports, imports: vec![rectangle_import()] };
    ModuleEnv::new(store, imports, contract)
}

#[test]
fn create_new_module_env_test() {
    let mut store = Store::default();
    let mut imports = Imports::new();
    imports.define("env", "draw_rectangle", Function::new_typed(&mut store, draw_rectangle));
    let contract = Contract { exports: vec![], imports: vec![rectangle_import()] };

    let env = ModuleEnv::new(store, imports, contract);
    assert_eq!(0, env.categories().len());
    assert_eq!(0, env.instances().len());
}

#[test]
fn add_category_test() {
    let mut store = Store::default();
    let mut imports = Imports::new();
    imports.define("env", "draw_rectangle", Function::new_typed(&mut store, draw_rectangle));
    let contract = Contract { exports: vec![], imports: vec![rectangle_import()] };
    let mut env = ModuleEnv::new(store, imports, contract);
    env.add_category("Gates".to_string());
    env.add_category("Input Controlls".to_string());
    assert_eq!(2, env.categories().len());
    assert_eq!(0, env.instances().len());

    let mut names = env.category_names();
    names.sort();
    assert_eq!("Gates", names[0]);
    assert_eq!("Input Controlls", names[1]);
}

#[test]
fn add_modules_raw_test() {
    let mut store = Store::default();
    let mut imports = Imports::new();
    imports.define("env", "draw_rectangle", Function::new_typed(&mut store, draw_rectangle));
    let contract = Contract { exports: vec![draw_export()], imports: vec![rectangle_import()] };
    let mut env = ModuleEnv::new(store, imports, contract);
    env.add_category("Gates".to_string());
    env.add_category("Input Controlls".to_string());
    let _ = env.add_module_raw("Gates", "AND", AND_GATE.as_bytes());
    assert_eq!(1, env.categories().get("Gates").unwrap().modules().len());
    assert_eq!(0, env.categories().get("Input Controlls").unwrap().modules().len());
    assert_eq!("AND", env.module_names("Gates").unwrap()[0]);

    env.instantiate("Gates", "AND", point(0.0, 0.0));
    env.instantiate("Gates", "AND", point(50.0, 30.0));
    env.instantiate("Gates", "AND", point(-15.0, 200.0));
    assert_eq!(3, env.instances().len());
}

#[test]
fn loaded_module_is_instantiated_three_times() {
    let mut env = new_env(vec![draw_export()]);
    assert!(env.add_module_raw("Gates", "AND", AND_GATE.as_bytes()).is_ok());
    assert_eq!(env.categories().len(), 1);

    let places = [point(0.0, 0.0), point(50.0, 30.0), point(-15.0, 200.0)];
    let mut ids = Vec::new();
    for place in places {
        ids.push(env.instantiate("Gates", "AND", place).expect("no instance"));
    }
    assert_ne!(ids[0], ids[1]);
    assert_ne!(ids[0], ids[2]);
    assert_ne!(ids[1], ids[2]);
    for id in &ids {
        assert_eq!(uuid::Uuid::from_u128(*id).get_version_num(), 4);
        assert_eq!(id & 0xf000_c000_0000_0000_0000, 0x4000_8000_0000_0000_0000);
    }
    assert_eq!(env.instances().len(), 3);
    for (id, place) in ids.iter().zip(places) {
        let instance = &env.instances()[id];
        assert_eq!(instance.id(), *id);
        assert_eq!(instance.name, "AND");
        assert_eq!(instance.location, place);
        assert_eq!(instance.rotation, 0.0f32.to_bits());
    }
}

#[test]
fn unknown_category_or_module_gives_no_instance() {
    let mut env = new_env(vec![draw_export()]);
    assert!(env.add_module_raw("Gates", "AND", AND_GATE.as_bytes()).is_ok());
    assert_eq!(env.instantiate("Latches", "AND", point(1.0, 2.0)), None);
    assert_eq!(env.instantiate("Gates", "OR", point(1.0, 2.0)), None);
    assert_eq!(env.instantiate("Gates", "and", point(1.0, 2.0)), None);
    assert_eq!(env.instances().len(), 0);
    assert_eq!(env.categories().len(), 1);
    assert_eq!(env.module_names("Gates").unwrap().len(), 1);
    assert_eq!(env.next_category_id(), 1);
    assert_eq!(env.next_module_id(), 1);
}

#[test]
fn module_that_the_engine_cannot_link_gives_no_instance() {
    let store = Store::default();
    let contract = Contract { exports: vec![draw_export()], imports: vec![rectangle_import()] };
    // The host offers nothing, so the import of the module cannot be linked.
    let mut env = ModuleEnv::new(store, Imports::new(), contract);
    assert!(env.add_module_raw("Gates", "AND", AND_GATE.as_bytes()).is_ok());
    assert_eq!(env.instantiate("Gates", "AND", point(0.0, 0.0)), None);
    assert_eq!(env.instances().len(), 0);
}

#[test]
fn category_added_again_loses_its_modules() {
    let mut env = new_env(vec![draw_export()]);
    env.add_category("Gates".to_string());
    assert!(env.add_module_raw("Gates", "AND", AND_GATE.as_bytes()).is_ok());
    assert!(env.add_module_raw("Inputs", "Switch", AND_GATE.as_bytes()).is_ok());
    assert_eq!(env.categories().get("Gates").unwrap().id(), 0);
    assert_eq!(env.categories().get("Inputs").unwrap().id(), 1);

    env.add_category("Gates".to_string());
    assert_eq!(env.categories().len(), 2);
    assert_eq!(env.categories().get("Gates").unwrap().modules().len(), 0);
    assert_eq!(env.categories().get("Gates").unwrap().id(), 2);
    assert_eq!(env.categories().get("Gates").unwrap().name(), "Gates");
    assert_eq!(env.module_names("Gates"), Some(vec![]));
    assert_eq!(env.instantiate("Gates", "AND", point(0.0, 0.0)), None);
    assert_eq!(env.module_names("Inputs").unwrap(), vec!["Switch"]);
    assert_eq!(env.next_category_id(), 3);
}

#[test]
fn module_names_of_an_unknown_category() {
    let env = new_env(vec![]);
    assert_eq!(env.module_names("Gates"), None);
}

#[test]
fn module_added_again_replaces_the_module() {
    let mut env = new_env(vec![draw_export()]);
    assert!(env.add_module_raw("Gates", "AND", AND_GATE.as_bytes()).is_ok());
    assert!(env.add_module_raw("Gates", "AND", AND_GATE.as_bytes()).is_ok());
    let gates = env.categories().get("Gates").unwrap();
    assert_eq!(gates.modules().len(), 1);
    let module = gates.modules().get("AND").unwrap();
    assert_eq!(module.id(), 1);
    assert_eq!(module.name(), "AND");
    assert_eq!(env.next_module_id(), 2);
}

#[test]
fn module_ids_count_the_accepted_modules() {
    let mut env = new_env(vec![draw_export()]);
    assert!(env.add_module_raw("Gates", "AND", AND_GATE.as_bytes()).is_ok());
    assert!(env.add_module_raw("Gates", "broken", b"(module").is_err());
    assert!(env.add_module_raw("Gates", "mute", NO_DRAW.as_bytes()).is_err());
    assert!(env.add_module_raw("Gates", "OR", AND_GATE.as_bytes()).is_ok());
    let gates = env.categories().get("Gates").unwrap();
    assert_eq!(gates.modules().get("AND").unwrap().id(), 0);
    assert_eq!(gates.modules().get("OR").unwrap().id(), 1);
    assert!(gates.modules().get("broken").is_none());
    assert!(gates.modules().get("mute").is_none());
    assert_eq!(env.next_module_id(), 2);
}

#[test]
fn bytes_that_do_not_compile_are_a_compile_error() {
    let mut env = new_env(vec![]);
    let res = env.add_module_raw("Gates", "AND", b"\0asm not a module");
    assert!(matches!(res, Err(ModuleError::CompileErr(_))));
    assert!(!res.unwrap_err().message().is_empty());
    // The category was created before the engine was asked.
    assert_eq!(env.module_names("Gates"), Some(vec![]));
    assert_eq!(env.next_category_id(), 1);
    assert_eq!(env.next_module_id(), 0);
}

#[test]
fn module_without_a_required_export_is_a_contract_error() {
    let mut env = new_env(vec![draw_export()]);
    let res = env.add_module_raw("Gates", "mute", NO_DRAW.as_bytes());
    match res {
        Err(ModuleError::ContractErr(e)) => {
            assert_eq!(
                e,
                ContractError::ExportErr(
                    "missing export `draw(param F32 F32 F32)(result) [function]`".to_string()
                )
            );
        }
        other => panic!("unexpected: {:?}", other),
    }
    assert_eq!(env.module_names("Gates"), Some(vec![]));
    assert_eq!(env.next_module_id(), 0);
}

#[test]
fn error_messages_are_those_of_their_causes() {
    let violation = ContractError::ImportErr("missing import `env::beep(param)(result) [function]`".to_string());
    assert_eq!(
        ModuleError::ContractErr(violation).message(),
        "missing import `env::beep(param)(result) [function]`"
    );
    assert_eq!(ModuleError::IOErr("no such file".to_string()).message(), "no such file");
    let store = Store::default();
    let cause = Module::new(&store, "(module").unwrap_err();
    let text = cause.to_string();
    assert_eq!(ModuleError::CompileErr(cause).message(), text);
}

#[test]
fn errors_convert_from_their_causes() {
    let violation = ContractError::ExportErr("no draw".to_string());
    assert!(matches!(
        ModuleError::from(violation.clone()),
        ModuleError::ContractErr(e) if e == violation
    ));
    let store = Store::default();
    let cause = Module::new(&store, "(module").unwrap_err();
    let text = cause.to_string();
    match ModuleError::from(cause) {
        ModuleError::CompileErr(e) => assert_eq!(e.to_string(), text),
        other => panic!("unexpected: {:?}", other),
    }
}

#[test]
fn module_file_is_cataloged_under_its_directory() {
    let mut env = new_env(vec![draw_export()]);
    let res = env.add_module("assets/modules/Gates/and.wasm", Ok(AND_GATE.as_bytes().to_vec()));
    assert!(res.is_ok());
    assert_eq!(env.category_names(), vec!["Gates"]);
    assert_eq!(env.module_names("Gates").unwrap(), vec!["and"]);
    assert_eq!(env.categories().get("Gates").unwrap().modules().get("and").unwrap().id(), 0);
    assert!(env.instantiate("Gates", "and", point(0.0, 0.0)).is_some());
}

#[test]
fn unreadable_file_is_an_input_error() {
    let mut env = new_env(vec![]);
    let res = env.add_module("Gates/and.wasm", Err("permission denied".to_string()));
    match res {
        Err(ModuleError::IOErr(text)) => assert_eq!(text, "permission denied"),
        other => panic!("unexpected: {:?}", other),
    }
    assert_eq!(env.categories().len(), 0);
}

#[test]
fn path_without_a_category_is_an_input_error() {
    let mut env = new_env(vec![draw_export()]);
    let res = env.add_module("and.wasm", Ok(AND_GATE.as_bytes().to_vec()));
    match res {
        Err(ModuleError::IOErr(text)) => assert_eq!(text, "invalid path"),
        other => panic!("unexpected: {:?}", other),
    }
    assert_eq!(env.categories().len(), 0);
    assert_eq!(env.next_module_id(), 0);
}

#[test]
fn refused_module_file_leaves_no_category() {
    let mut env = new_env(vec![draw_export()]);
    let res = env.add_module("Gates/mute.wasm", Ok(NO_DRAW.as_bytes().to_vec()));
    assert!(matches!(res, Err(ModuleError::ContractErr(_))));
    let res = env.add_module("Gates/broken.wasm", Ok(b"(module".to_vec()));
    assert!(matches!(res, Err(ModuleError::CompileErr(_))));
    assert_eq!(env.categories().len(), 0);
    assert_eq!(env.next_category_id(), 0);
    assert_eq!(env.next_module_id(), 0);
}

const WITH_CURSOR: &str = r#"
    (module
        (func (export "cursor_coords") (param f32 f32))
    )
"#;

#[test]
fn tick_draws_every_instance_once() {
    let mut env = new_env(vec![draw_export()]);
    assert!(env.add_module_raw("Gates", "AND", AND_GATE.as_bytes()).is_ok());
    assert!(env.on_tick().is_empty());

    let first = env.instantiate("Gates", "AND", point(50.0, 30.0)).unwrap();
    let second = env.instantiate("Gates", "AND", point(-15.0, 200.0)).unwrap();
    let mut calls = env.on_tick();
    calls.sort_by_key(|call| call.instance != first);
    assert_eq!(calls.len(), 2);
    assert_eq!(calls[0].instance, first);
    assert_eq!(calls[0].args, vec![50.0f32.to_bits(), 30.0f32.to_bits(), 0.0f32.to_bits()]);
    assert_eq!(calls[1].instance, second);
    assert_eq!(calls[1].args, vec![(-15.0f32).to_bits(), 200.0f32.to_bits(), 0.0f32.to_bits()]);
    for call in &calls {
        let exported = env.instances()[&call.instance].instance.exports.get_function("draw").unwrap();
        assert!(call.function == *exported);
    }
}

#[test]
fn tick_passes_over_instances_that_cannot_be_drawn() {
    // No export is required, so a module without `draw` is accepted.
    let mut env = new_env(vec![]);
    assert!(env.add_module_raw("Gates", "AND", AND_GATE.as_bytes()).is_ok());
    assert!(env.add_module_raw("Inputs", "Pointer", WITH_CURSOR.as_bytes()).is_ok());
    let mute = env.instantiate("Inputs", "Pointer", point(1.0, 1.0)).unwrap();
    let drawn = env.instantiate("Gates", "AND", point(2.0, 2.0)).unwrap();
    assert_eq!(env.instances().len(), 2);

    let calls = env.on_tick();
    assert_eq!(calls.len(), 1);
    assert_eq!(calls[0].instance, drawn);
    assert!(env.instances()[&mute].draw().is_none());
    assert!(env.instances()[&drawn].submit_cursor_coords(point(0.0, 0.0)).is_none());
    let told = env.instances()[&mute].submit_cursor_coords(point(3.0, 4.0)).unwrap();
    assert_eq!(told.instance, mute);
    assert_eq!(told.args, vec![3.0f32.to_bits(), 4.0f32.to_bits()]);
}

fn running_and_gate() -> (Store, Module, Instance) {
    let mut store = Store::default();
    let mut imports = Imports::new();
    imports.define("env", "draw_rectangle", Function::new_typed(&mut store, draw_rectangle));
    let module = Module::new(&store, AND_GATE).unwrap();
    let instance = Instance::new(&mut store, &module, &imports).unwrap();
    (store, module, instance)
}

#[test]
fn instance_calls_carry_placement() {
    let (_store, _module, handle) = running_and_gate();
    let exported = handle.exports.get_function("draw").unwrap().clone();
    let mut instance = LogicInstance::new("AND".to_string(), 7, point(1.5, -2.0), 90.0f32.to_bits(), handle);
    assert_eq!(instance.id(), 7);
    assert_eq!(instance.name(), "AND");
    assert_eq!(instance.location(), point(1.5, -2.0));
    assert_eq!(instance.rotation(), 90.0f32.to_bits());
    let call = instance.draw().expect("no draw call");
    assert_eq!(call.instance, 7);
    assert!(call.function == exported);
    assert_eq!(call.args, vec![1.5f32.to_bits(), (-2.0f32).to_bits(), 90.0f32.to_bits()]);
    assert!(instance.submit_cursor_coords(point(3.0, 4.0)).is_none());

    instance.location = point(8.0, 9.0);
    instance.rotation = 45.0f32.to_bits();
    assert_eq!(
        instance.draw().unwrap().args,
        vec![8.0f32.to_bits(), 9.0f32.to_bits(), 45.0f32.to_bits()]
    );
}

#[test]
fn module_definition_instantiates_under_its_name() {
    let (mut store, module, _instance) = running_and_gate();
    let mut imports = Imports::new();
    imports.define("env", "draw_rectangle", Function::new_typed(&mut store, draw_rectangle));
    let definition = LogicModule::new("AND".to_string(), 3, module.clone());
    assert_eq!(definition.name(), "AND");
    assert_eq!(definition.name, "AND");
    assert_eq!(definition.id(), 3);
    assert!(*definition.module() == module);

    let first = definition.instantiate(&mut store, &imports, point(1.0, 2.0), 180.0f32.to_bits()).unwrap();
    let second = definition.instantiate(&mut store, &imports, point(1.0, 2.0), 180.0f32.to_bits()).unwrap();
    assert_eq!(first.name, "AND");
    assert_eq!(first.location, point(1.0, 2.0));
    assert_eq!(first.rotation, 180.0f32.to_bits());
    assert_ne!(first.id(), second.id());
    assert!(definition.instantiate(&mut store, &Imports::new(), point(1.0, 2.0), 0).is_err());
}

#[test]
fn outcome_of_an_instantiation_is_wrapped() {
    let (mut store, module, handle) = running_and_gate();
    let definition = LogicModule::new("AND".to_string(), 0, module.clone());
    let wrapped = definition.wrap_instance(Ok(handle), 11, point(5.0, 6.0), 0).unwrap();
    assert_eq!(wrapped.id(), 11);
    assert_eq!(wrapped.name, "AND");
    assert_eq!(wrapped.location, point(5.0, 6.0));
    let failure = Instance::new(&mut store, &module, &Imports::new());
    assert!(definition.wrap_instance(failure, 12, point(5.0, 6.0), 0).is_err());
}

#[test]
fn registered_instance_is_found_under_its_id() {
    let (mut other_store, module, handle) = running_and_gate();
    let mut env = new_env(vec![]);
    let instance = LogicInstance::new("AND".to_string(), 7, point(1.0, 1.0), 0, handle.clone());
    assert_eq!(env.register(Ok(instance)), Some(7));
    assert_eq!(env.instances().len(), 1);
    // An instance with an id that is in use takes the place of the other.
    let again = LogicInstance::new("OR".to_string(), 7, point(2.0, 2.0), 0, handle);
    assert_eq!(env.register(Ok(again)), Some(7));
    assert_eq!(env.instances().len(), 1);
    assert_eq!(env.instances()[&7].name, "OR");
    let failure = Instance::new(&mut other_store, &module, &Imports::new());
    assert!(failure.is_err());
    assert_eq!(env.register(failure.map(|h| LogicInstance::new("X".to_string(), 9, point(0.0, 0.0), 0, h))), None);
    assert_eq!(env.instances().len(), 1);
}

#[test]
fn compiled_module_is_vetted_and_added() {
    let mut env = new_env(vec![draw_export()]);
    let store = Store::default();
    let good = Module::new(&store, AND_GATE);
    let mute = Module::new(&store, NO_DRAW);
    let broken = Module::new(&store, "(module");

    assert!(env.vet(Module::new(&store, AND_GATE)).is_ok());
    assert!(matches!(env.vet(Module::new(&store, NO_DRAW)), Err(ModuleError::ContractErr(_))));
    assert!(matches!(env.vet(Module::new(&store, "(module")), Err(ModuleError::CompileErr(_))));

    env.add_category("Gates".to_string());
    assert!(matches!(env.add_compiled("Gates", "broken", broken), Err(ModuleError::CompileErr(_))));
    assert!(matches!(env.add_compiled("Gates", "mute", mute), Err(ModuleError::ContractErr(_))));
    assert_eq!(env.module_names("Gates"), Some(vec![]));
    assert!(env.add_compiled("Gates", "AND", good).is_ok());
    assert_eq!(env.module_names("Gates").unwrap(), vec!["AND"]);
    assert!(env.add_compiled("Gates", "OR", Module::new(&store, AND_GATE)).is_ok());
    assert_eq!(env.categories().get("Gates").unwrap().modules().get("OR").unwrap().id(), 1);
    assert_eq!(env.contract().exports, vec![draw_export()]);
}

#[test]
fn category_holds_modules_by_name() {
    let store = Store::default();
    let mut category = Category::new("Gates".to_string(), 4);
    assert_eq!(category.name(), "Gates");
    assert_eq!(category.id(), 4);
    assert_eq!(category.modules().len(), 0);
    category.add_module(LogicModule::new("AND".to_string(), 0, Module::new(&store, AND_GATE).unwrap()));
    category.add_module(LogicModule::new("OR".to_string(), 1, Module::new(&store, AND_GATE).unwrap()));
    category.add_module(LogicModule::new("AND".to_string(), 2, Module::new(&store, AND_GATE).unwrap()));
    assert_eq!(category.modules().len(), 2);
    assert_eq!(category.modules().get("AND").unwrap().id(), 2);
    assert_eq!(category.modules().get("OR").unwrap().id(), 1);
}

#[test]
fn planned_calls_run_in_the_store_of_the_environment() {
    let mut env = new_env(vec![draw_export()]);
    assert!(env.add_module_raw("Gates", "AND", AND_GATE.as_bytes()).is_ok());
    let id = env.instantiate("Gates", "AND", point(50.0, 30.0)).unwrap();
    let calls = env.on_tick();
    assert_eq!(calls.len(), 1);
    let args: Vec<wasmer::Value> =
        calls[0].args.iter().map(|bits| wasmer::Value::F32(f32::from_bits(*bits))).collect();
    // The function lives in the store that the environment holds, and in no other.
    assert!(calls[0].function.is_from_store(env.store_mut()));
    assert!(!calls[0].function.is_from_store(&Store::default()));
    let returned = calls[0].function.call(env.store_mut(), &args).expect("the call failed");
    assert!(returned.is_empty());
    // Calling into an instance leaves catalog and registry as they were.
    assert_eq!(env.instances().len(), 1);
    assert_eq!(env.instances()[&id].location, point(50.0, 30.0));
    assert_eq!(env.module_names("Gates").unwrap(), vec!["AND"]);
}
