//! A plugin component instantiated in a store of its own, and the calls into
//! it. The store, the linker and the instance are made together here from one
//! engine and stay together: the fields are private to this module, so no
//! other code can take them apart or mix them with another component's.

use crate::runtime::ExportError;
use vstd::prelude::*;
use wasmtime::{Engine, Instance, Linker, Module, Store};

verus! {

#[verifier::external_type_specification]
#[verifier::external_body]
pub struct ExEngine(Engine);

#[verifier::external_type_specification]
#[verifier::external_body]
pub struct ExModule(Module);

#[verifier::external_type_specification]
#[verifier::external_body]
pub struct ExInstance(Instance);

#[verifier::external_type_specification]
#[verifier::external_body]
#[verifier::reject_recursive_types(T)]
pub struct ExStore<T: 'static>(Store<T>);

/// An instantiated component with the store that owns it.
pub struct WasmPluginInstance {
    store: Store<()>,
    instance: Instance,
}

impl WasmPluginInstance {
    /// The instance of the component, which calls into it keep.
    pub closed spec fn component_instance(self) -> Instance {
        self.instance
    }
}

/// What calling an export as `() -> ()` came to.
#[derive(Debug, Clone, PartialEq, Eq)]
pub enum ExportCall {
    /// The component has no export of that name.
    Missing,
    /// The export has another type; the error's text.
    WrongType { cause: String },
    /// The export trapped; the trap's text.
    Trapped { cause: String },
    /// The export returned.
    Returned,
}

/// `Engine::default`: nothing is claimed of the engine.
#[verifier::external_body]
pub(crate) fn default_engine() -> Engine {
    Engine::default()
}

/// `Module::new`: compiles WebAssembly binary or text. Nothing is claimed of
/// whether compilation succeeds; an error comes back as its text.
#[verifier::external_body]
pub(crate) fn compile_module(engine: &Engine, bytes: &[u8]) -> Result<Module, String> {
    Module::new(engine, bytes).map_err(|error| error.to_string())
}

/// `Linker::new`, `Store::new` and `Linker::instantiate`: makes an empty
/// linker and a store from `engine` and instantiates `module` in that store.
/// Store and linker come from the one engine and the linker defines no item,
/// so neither condition under which `instantiate` panics can arise; a module
/// compiled by another engine is an error. Instantiating runs the module's
/// start function, if it has one, and that plugin code may never return.
/// Nothing is claimed of whether instantiation succeeds; an error comes back
/// as its text.
#[verifier::external_body]
pub(crate) fn instantiate_component(engine: &Engine, module: &Module) -> Result<WasmPluginInstance, String> {
    let linker = Linker::new(engine);
    let mut store = Store::new(engine, ());
    let instance = linker.instantiate(&mut store, module).map_err(|error| error.to_string())?;
    Ok(WasmPluginInstance { store, instance })
}

/// `Instance::get_func`, `Func::typed` at `() -> ()` and `TypedFunc::call`,
/// all on the component's own store, which owns its instance and the
/// function taken from it, so none of them panics. The export's code may
/// never return. Nothing is claimed of the outcome; the instance stays the
/// one the component was made with.
#[verifier::external_body]
fn call_unit_export(wasm: &mut WasmPluginInstance, name: &str) -> (r: ExportCall)
    ensures
        final(wasm).component_instance() == old(wasm).component_instance(),
{
    let Some(func) = wasm.instance.get_func(&mut wasm.store, name) else {
        return ExportCall::Missing;
    };
    let typed = match func.typed::<(), ()>(&wasm.store) {
        Ok(typed) => typed,
        Err(error) => return ExportCall::WrongType { cause: error.to_string() },
    };
    match typed.call(&mut wasm.store, ()) {
        Ok(()) => ExportCall::Returned,
        Err(error) => ExportCall::Trapped { cause: error.to_string() },
    }
}

/// How the runtime reports a call of an optional export: a missing export
/// or one that returned is success; a wrong type or a trap is an error that
/// names the export and carries the cause.
pub fn export_result(name: &str, call: ExportCall) -> (r: Result<(), ExportError>)
    ensures
        match call {
            ExportCall::Missing => r is Ok,
            ExportCall::Returned => r is Ok,
            ExportCall::WrongType { cause } => r matches Err(ExportError::Type { export, cause: c })
                && export@ == name@ && c == cause,
            ExportCall::Trapped { cause } => r matches Err(ExportError::Call { export, cause: c })
                && export@ == name@ && c == cause,
        },
{
    match call {
        ExportCall::Missing => Ok(()),
        ExportCall::Returned => Ok(()),
        ExportCall::WrongType { cause } => Err(ExportError::Type { export: name.to_owned(), cause }),
        ExportCall::Trapped { cause } => Err(ExportError::Call { export: name.to_owned(), cause }),
    }
}

impl WasmPluginInstance {
    /// Calls the export `name` as `() -> ()`, when the instance has it.
    pub(crate) fn call_optional_export(&mut self, name: &str) -> (r: Result<(), ExportError>)
        ensures
            final(self).component_instance() == old(self).component_instance(),
            r matches Err(ExportError::Type { export, .. }) ==> export@ == name@,
            r matches Err(ExportError::Call { export, .. }) ==> export@ == name@,
    {
        let call = call_unit_export(self, name);
        export_result(name, call)
    }
}

} // verus!
