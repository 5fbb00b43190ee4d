//! Error values shared by several parts of the tool.
use vstd::prelude::*;

verus! {

/// Errors of reading or checking a package manifest.
#[derive(Debug)]
pub enum ManifestError {
    Read { path: String, message: String },
    Parse { path: String, message: String },
    Validation { path: String, message: String },
    Other(String),
}

/// Errors of finding and talking to a radio.
#[derive(Debug)]
pub enum RadioError {
    NoDevice(String),
    NoDeviceWindows,
    MultipleDevices(String),
    VersionMismatch { installed: String, required: String },
    Eject(String),
    Other(String),
}

/// Errors of reading package references and fetching repositories.
#[derive(Debug)]
pub enum RegistryError {
    EmptyRef,
    InvalidRef { raw: String, reason: String },
    Clone { url: String, reason: String },
    UnresolvableVersion { version: String },
    NoManifest(String),
    Other(String),
}

/// Errors of creating a new script from a template.
#[derive(Debug)]
pub enum ScaffoldError {
    UnknownType(String, String),
    InvalidName(String, String),
    NameTooLong { name: String, script_type: String, max: usize },
    Duplicate(String, String),
    UnresolvedDeps(Vec<String>),
    Other(String),
}

/// Errors of the radio simulator.
#[derive(Debug)]
pub enum SimulatorError {
    RadioNotFound(String),
    AmbiguousRadio { query: String, matches: String },
    Wasm(String),
    Runtime(String),
    Io { context: String, message: String },
    Other(String),
}

} // verus!
