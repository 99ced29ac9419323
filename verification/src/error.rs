//! What can go wrong while a capsule is found, loaded or called.

use vstd::prelude::*;

verus! {

/// An error of the capsule runtime.
#[derive(Debug, Clone, PartialEq, Eq)]
pub enum CapsuleError {
    /// A manifest could not be read or is not acceptable.
    ManifestParseError { path: String, message: String },
    /// The capsule's entry point cannot be loaded.
    UnsupportedEntryPoint(String),
    /// A guest call failed.
    WasmError(String),
    /// A lifecycle hook or a workspace operation failed.
    ExecutionFailed(String),
    /// The engine does not offer the operation.
    NotSupported(String),
}

}
