//! Verified core of a Node.js version-manager front end.
//!
//! The library models versions, the text protocols of the wrapped
//! version-manager CLIs, the operation queue that serializes mutating
//! commands, and the update-check comparison rules.  Process execution,
//! HTTP and the GUI live outside; they hand plain values in and out.

pub mod backend;
pub mod filters;
pub mod fnm;
pub mod model;
pub mod nvm;
pub mod nvm_backend;
pub mod paths;
pub mod queue;
pub mod settings;
pub mod shell;
pub mod state;
pub mod text;
pub mod update;
pub mod version;
pub mod wsl;
