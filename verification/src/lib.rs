//! Compile untrusted Rust source to a sandboxed WebAssembly module and call
//! its exported functions under explicit memory and time budgets.
//!
//! The library walks the submitted source, synthesizes an export wrapper for
//! every public function (at any namespace depth), and emits a rewritten
//! compilation unit for the guest toolchain.  A thin unverified shell drives
//! the external `cargo` invocation and hands the resulting artifact bytes
//! back to [`sandbox::load_compiled`], which runs them inside an extism
//! sandbox with all host access denied.

pub mod text;
pub mod errors;
pub mod names;
pub mod model;
pub mod parse;
pub mod plan;
pub mod config;
pub mod toolchain;
pub mod sandbox;

pub use config::{
    ExportedHostType, MemoryOptions, UntrustedRustProject, WasmCompileTarget, get_page_size,
};
pub use errors::UntRustedError;
pub use sandbox::CompiledUntrustedRustProject;
