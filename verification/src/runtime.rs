//! The runtime's command line and the unit host services it links.

use std::path::PathBuf;
use vstd::prelude::*;

verus! {

#[verifier::external_type_specification]
#[verifier::external_body]
pub struct ExPathBuf(PathBuf);

/// The runtime's command line.
#[derive(Debug)]
pub struct Cli {
    /// The command to execute.
    pub command: Command,
}

/// Commands of the runtime.
#[derive(Debug)]
pub enum Command {
    /// Run the specified wasm guest: a serialized (pre-compiled) wasmtime
    /// `Component` or a standard WASI component.
    Run { wasm: PathBuf },
}

impl Command {
    /// The wasm file a `run` command names.
    pub fn wasm(&self) -> (res: &PathBuf)
        ensures
            match *self {
                Command::Run { wasm } => *res == wasm,
            },
    {
        match self {
            Command::Run { wasm } => wasm,
        }
    }
}

/// Host-side service for `wasi:config`.
#[derive(Debug)]
pub struct WasiConfig;

/// Options used to connect to the configuration backend.
#[derive(Debug, Clone, Copy, Default)]
pub struct ConfigConnectOptions;

/// Host-side service for `wasi:keyvalue`.
#[derive(Debug)]
pub struct WasiKeyValue;

} // verus!
