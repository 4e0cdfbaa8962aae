//! The plugin runtime: loads plugin components into a WebAssembly engine and
//! drives their lifecycle.

use crate::plugin::PluginManifest;
use vstd::prelude::*;
use vstd::string::*;
use crate::wasm::{compile_module, default_engine, instantiate_component, WasmPluginInstance};
use wasmtime::{Engine, Instance};

verus! {

/// Why calling a plugin export failed.
#[derive(Debug, Clone, PartialEq, Eq)]
#[allow(inconsistent_fields)]
pub enum ExportError {
    /// The export has another type than `() -> ()`.
    Type { export: String, cause: String },
    /// The export trapped.
    Call { export: String, cause: String },
}

/// Why the runtime refused a plugin or a lifecycle call failed.
#[derive(Debug, Clone, PartialEq, Eq)]
#[allow(inconsistent_fields)]
pub enum RuntimeError {
    /// The component could not be compiled.
    Load { path: String, cause: String },
    /// The component could not be instantiated.
    Instantiate { path: String, cause: String },
    /// A plugin's `initialize` failed.
    Initialize { plugin: String, cause: ExportError },
    /// A plugin's `shutdown` failed.
    Shutdown { plugin: String, cause: ExportError },
}

/// A plugin loaded into the runtime.
pub struct LoadedPlugin {
    pub manifest: PluginManifest,
    pub component_path: String,
    pub initialized: bool,
    /// The instantiated component, when there is one.
    pub wasm: Option<WasmPluginInstance>,
}

/// The plugins loaded into one engine.
pub struct PluginRuntime {
    engine: Engine,
    plugins: Vec<LoadedPlugin>,
}

/// The instance of a loaded plugin's component, when it has one.
pub open spec fn plugin_instance(p: LoadedPlugin) -> Option<Instance> {
    match p.wasm {
        Some(w) => Some(w.component_instance()),
        None => None,
    }
}

/// A loaded plugin as its lifecycle sees it: the manifest, the component
/// path and whether it is initialized.
pub open spec fn lifecycle_view(p: LoadedPlugin) -> (PluginManifest, String, bool) {
    (p.manifest, p.component_path, p.initialized)
}

impl View for PluginRuntime {
    type V = Seq<LoadedPlugin>;

    closed spec fn view(&self) -> Seq<LoadedPlugin> {
        self.plugins@
    }
}

impl Default for PluginRuntime {
    fn default() -> (r: Self)
        ensures
            r@ == Seq::<LoadedPlugin>::empty(),
    {
        PluginRuntime::new()
    }
}

impl PluginRuntime {
    pub fn new() -> (r: Self)
        ensures
            r@ == Seq::<LoadedPlugin>::empty(),
    {
        PluginRuntime { engine: default_engine(), plugins: Vec::new() }
    }

    /// Compiles and instantiates a component (its bytes already read from
    /// `component_path`) and adds it, not yet initialized.
    pub fn load(&mut self, manifest: PluginManifest, component_path: String, bytes: &[u8]) -> (r:
        Result<(), RuntimeError>)
        ensures
            r is Ok ==> final(self)@.len() == old(self)@.len() + 1 && final(self)@.take(
                old(self)@.len() as int,
            ) == old(self)@ && lifecycle_view(final(self)@.last()) == (manifest, component_path, false)
                && final(self)@.last().wasm is Some,
            r matches Err(RuntimeError::Load { path, .. }) ==> path == component_path,
            r matches Err(RuntimeError::Instantiate { path, .. }) ==> path == component_path,
            r matches Err(e) ==> (e is Load || e is Instantiate) && final(self)@ == old(self)@,
    {
        let module = match compile_module(&self.engine, bytes) {
            Ok(m) => m,
            Err(cause) => {
                return Err(RuntimeError::Load { path: component_path, cause });
            },
        };
        let wasm = match instantiate_component(&self.engine, &module) {
            Ok(w) => w,
            Err(cause) => {
                return Err(RuntimeError::Instantiate { path: component_path, cause });
            },
        };
        let ghost before = self.plugins@;
        self.plugins.push(
            LoadedPlugin {
                manifest,
                component_path,
                initialized: false,
                wasm: Some(wasm),
            },
        );
        assert(self.plugins@.take(before.len() as int) =~= before);
        Ok(())
    }

    /// Calls `initialize` of every loaded plugin in load order, marking each
    /// initialized; stops at the first failure, which leaves that plugin and
    /// the later ones as they were.
    pub fn initialize_all(&mut self) -> (r: Result<(), RuntimeError>)
        ensures
            final(self)@.len() == old(self)@.len(),
            forall|i: int|
                0 <= i < old(self)@.len() ==> (#[trigger] final(self)@[i]).manifest == old(self)@[i].manifest
                    && final(self)@[i].component_path == old(self)@[i].component_path,
            r is Ok ==> forall|i: int| 0 <= i < final(self)@.len() ==> (#[trigger] final(self)@[i]).initialized,
            forall|i: int|
                0 <= i < old(self)@.len() ==> plugin_instance(#[trigger] final(self)@[i]) == plugin_instance(
                    old(self)@[i],
                ),
            r matches Err(e) ==> e is Initialize,
            r matches Err(RuntimeError::Initialize { cause: ExportError::Type { export, .. }, .. }) ==> export@
                == "initialize"@,
            r matches Err(RuntimeError::Initialize { cause: ExportError::Call { export, .. }, .. }) ==> export@
                == "initialize"@,
            r matches Err(RuntimeError::Initialize { plugin, .. }) ==> exists|k: int|
                0 <= k < old(self)@.len() && plugin == old(self)@[k].manifest.name && (forall|i: int|
                    0 <= i < k ==> (#[trigger] final(self)@[i]).initialized) && (forall|i: int|
                    k <= i < old(self)@.len() ==> (#[trigger] final(self)@[i]).initialized == old(
                        self,
                    )@[i].initialized),
    {
        let n = self.plugins.len();
        let mut i: usize = 0;
        while i < n
            invariant
                n == old(self)@.len(),
                self.plugins@.len() == n,
                i <= n,
                forall|j: int|
                    0 <= j < n ==> (#[trigger] self.plugins@[j]).manifest == old(self)@[j].manifest
                        && self.plugins@[j].component_path == old(self)@[j].component_path
                        && plugin_instance(self.plugins@[j]) == plugin_instance(old(self)@[j]),
                forall|j: int| 0 <= j < i ==> (#[trigger] self.plugins@[j]).initialized,
                forall|j: int| i <= j < n ==> (#[trigger] self.plugins@[j]).initialized == old(self)@[j].initialized,
            decreases n - i,
        {
            let plugin = &mut self.plugins[i];
            if let Some(wasm) = &mut plugin.wasm {
                match wasm.call_optional_export("initialize") {
                    Ok(()) => {},
                    Err(cause) => {
                        return Err(RuntimeError::Initialize { plugin: plugin.manifest.name.clone(), cause });
                    },
                }
            }
            plugin.initialized = true;
            i = i + 1;
        }
        Ok(())
    }

    /// Calls `shutdown` of every loaded plugin in load order, marking each not
    /// initialized; stops at the first failure, which leaves that plugin and
    /// the later ones as they were.
    pub fn shutdown_all(&mut self) -> (r: Result<(), RuntimeError>)
        ensures
            final(self)@.len() == old(self)@.len(),
            forall|i: int|
                0 <= i < old(self)@.len() ==> (#[trigger] final(self)@[i]).manifest == old(self)@[i].manifest
                    && final(self)@[i].component_path == old(self)@[i].component_path,
            r is Ok ==> forall|i: int| 0 <= i < final(self)@.len() ==> !(#[trigger] final(self)@[i]).initialized,
            forall|i: int|
                0 <= i < old(self)@.len() ==> plugin_instance(#[trigger] final(self)@[i]) == plugin_instance(
                    old(self)@[i],
                ),
            r matches Err(e) ==> e is Shutdown,
            r matches Err(RuntimeError::Shutdown { cause: ExportError::Type { export, .. }, .. }) ==> export@
                == "shutdown"@,
            r matches Err(RuntimeError::Shutdown { cause: ExportError::Call { export, .. }, .. }) ==> export@
                == "shutdown"@,
            r matches Err(RuntimeError::Shutdown { plugin, .. }) ==> exists|k: int|
                0 <= k < old(self)@.len() && plugin == old(self)@[k].manifest.name && (forall|i: int|
                    0 <= i < k ==> !(#[trigger] final(self)@[i]).initialized) && (forall|i: int|
                    k <= i < old(self)@.len() ==> (#[trigger] final(self)@[i]).initialized == old(
                        self,
                    )@[i].initialized),
    {
        let n = self.plugins.len();
        let mut i: usize = 0;
        while i < n
            invariant
                n == old(self)@.len(),
                self.plugins@.len() == n,
                i <= n,
                forall|j: int|
                    0 <= j < n ==> (#[trigger] self.plugins@[j]).manifest == old(self)@[j].manifest
                        && self.plugins@[j].component_path == old(self)@[j].component_path
                        && plugin_instance(self.plugins@[j]) == plugin_instance(old(self)@[j]),
                forall|j: int| 0 <= j < i ==> !(#[trigger] self.plugins@[j]).initialized,
                forall|j: int| i <= j < n ==> (#[trigger] self.plugins@[j]).initialized == old(self)@[j].initialized,
            decreases n - i,
        {
            let plugin = &mut self.plugins[i];
            if let Some(wasm) = &mut plugin.wasm {
                match wasm.call_optional_export("shutdown") {
                    Ok(()) => {},
                    Err(cause) => {
                        return Err(RuntimeError::Shutdown { plugin: plugin.manifest.name.clone(), cause });
                    },
                }
            }
            plugin.initialized = false;
            i = i + 1;
        }
        Ok(())
    }

    /// The loaded plugins, in load order.
    pub fn loaded_plugins(&self) -> (r: &[LoadedPlugin])
        ensures
            r@ == self@,
    {
        self.plugins.as_slice()
    }
}

} // verus!
