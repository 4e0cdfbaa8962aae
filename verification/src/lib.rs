//! make-movie: the project model, the plugin manager, the plugin SDK and
//! the command line and renderer decisions of a declarative movie
//! generator, with their contracts.

pub mod cli;
pub mod help;
pub mod ids;
pub mod import;
pub mod lock;
pub mod package;
pub mod paths;
pub mod plugin;
pub mod project;
pub mod render;
pub mod runtime;
pub mod sdk;
pub mod subtitle;
pub mod text;
pub mod tts;
pub mod validate;
pub mod wasm;
pub mod wav;
