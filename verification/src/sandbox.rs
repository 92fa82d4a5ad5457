//! Loading a compiled artifact into the extism sandbox and calling its
//! exports by name.
//!
//! All host and network access is denied unconditionally; the memory and
//! time budgets of the configuration are enforced by the runtime.  A call
//! exchanges raw byte payloads; the embedding caller constructs whatever
//! envelope (raw or JSON) the planner chose for that function.  After a
//! call fails with a memory or timeout classification the instance's
//! continued usability is not promised by the runtime; the conservative
//! course is to drop it and load the artifact again.

use vstd::prelude::*;
use vstd::string::StringExecFns;
use crate::errors::UntRustedError;
use crate::names::resolve_call_name;

verus! {

broadcast use vstd::string::group_string_axioms;

/// Declares `extism::Plugin`, the loaded sandbox instance, so that it
/// can stand in fields and signatures; the library treats it as opaque.
#[verifier::external_type_specification]
#[verifier::external_body]
pub struct ExPlugin(extism::Plugin);

/// Relies on `extism::Manifest` and `extism::Plugin::new`: builds a
/// manifest holding the artifact bytes with all hosts disallowed, the
/// given page ceiling and no timeout, and loads it; a failure is rendered
/// as its message text.
#[verifier::external_body]
fn plugin_load_plain(wasm: Vec<u8>, max_pages: Option<u32>, with_wasi: bool) -> Result<
    extism::Plugin,
    String,
> {
    let mo = extism_manifest::MemoryOptions {
        max_pages,
        max_http_response_bytes: None,
        max_var_bytes: None,
    };
    let manifest = extism::Manifest::new([extism::Wasm::data(wasm)])
        .disallow_all_hosts()
        .with_memory_options(mo);
    extism::Plugin::new(&manifest, [], with_wasi).map_err(|e| e.to_string())
}

/// Relies on `extism::Manifest` and `extism::Plugin::new`: as
/// `plugin_load_plain`, with a wall-clock budget in milliseconds for each
/// call.
#[verifier::external_body]
fn plugin_load_with_timeout(
    wasm: Vec<u8>,
    max_pages: Option<u32>,
    timeout_ms: u64,
    with_wasi: bool,
) -> Result<extism::Plugin, String> {
    let mo = extism_manifest::MemoryOptions {
        max_pages,
        max_http_response_bytes: None,
        max_var_bytes: None,
    };
    let manifest = extism::Manifest::new([extism::Wasm::data(wasm)])
        .disallow_all_hosts()
        .with_memory_options(mo)
        .with_timeout(core::time::Duration::from_millis(timeout_ms));
    extism::Plugin::new(&manifest, [], with_wasi).map_err(|e| e.to_string())
}

/// Relies on `extism::Plugin::call`: dispatches into the loaded instance
/// with the raw input payload and hands back the raw output payload; a
/// failure is rendered as its message text, which the runtime's source
/// sets to `oom` when the page budget was exceeded and `timeout` when the
/// time budget was.
#[verifier::external_body]
fn plugin_call_raw(p: &mut extism::Plugin, name: &str, input: &[u8]) -> Result<Vec<u8>, String> {
    p.call::<&[u8], Vec<u8>>(name, input).map_err(|e| e.to_string())
}

/// Maps a runtime failure message to the error taxonomy: the runtime's
/// page-budget signal becomes the memory error and its time-budget signal
/// the timeout error, both naming the caller-supplied function name;
/// anything else is surfaced as an opaque runtime error with the original
/// message.
pub fn classify_call_failure(fn_name: &str, msg: String) -> (e: UntRustedError)
    ensures
        msg@ == "oom"@ ==> (e matches UntRustedError::MemoryExceeded(f) && f@ == fn_name@),
        msg@ == "timeout"@ ==> (e matches UntRustedError::TimeoutExceeded(f) && f@ == fn_name@),
        msg@ != "oom"@ && msg@ != "timeout"@ ==> (e matches
            UntRustedError::UnderlyingRuntimeError(m) && m@ == msg@),
{
    proof {
        reveal_strlit("oom");
        reveal_strlit("timeout");
        assert("oom"@.len() == 3);
        assert("timeout"@.len() == 7);
    }
    if msg == String::from_str("oom") {
        let mut f = String::new();
        f.append(fn_name);
        proof {
            assert(Seq::<char>::empty() + fn_name@ =~= fn_name@);
        }
        UntRustedError::MemoryExceeded(f)
    } else if msg == String::from_str("timeout") {
        let mut f = String::new();
        f.append(fn_name);
        proof {
            assert(Seq::<char>::empty() + fn_name@ =~= fn_name@);
        }
        UntRustedError::TimeoutExceeded(f)
    } else {
        UntRustedError::UnderlyingRuntimeError(msg)
    }
}

/// A compiled submission loaded into its sandbox instance.  Calls into
/// one instance are serialized through the exclusive reference; separate
/// instances are independent.
pub struct CompiledUntrustedRustProject {
    plugin: extism::Plugin,
}

/// Loads compiled artifact bytes into a fresh sandbox instance under the
/// given budgets.  All host access is denied; a load failure (a malformed
/// artifact, an invalid budget) surfaces as the opaque runtime error.
pub fn load_compiled(
    wasm: Vec<u8>,
    max_pages: Option<u32>,
    timeout_ms: Option<u64>,
    with_wasi: bool,
) -> (r: Result<CompiledUntrustedRustProject, UntRustedError>)
    ensures
        r is Err ==> r->Err_0 is UnderlyingRuntimeError,
{
    let loaded = match timeout_ms {
        Some(ms) => plugin_load_with_timeout(wasm, max_pages, ms, with_wasi),
        None => plugin_load_plain(wasm, max_pages, with_wasi),
    };
    match loaded {
        Ok(p) => Ok(CompiledUntrustedRustProject { plugin: p }),
        Err(m) => Err(UntRustedError::UnderlyingRuntimeError(m)),
    }
}

impl CompiledUntrustedRustProject {
    /// Calls an exported function by its caller-side name (`foo::f` or
    /// `f`), which is resolved to the planner's wrapper name, with a raw
    /// byte payload in and out.  A failure is classified: the runtime's
    /// page-budget and time-budget signals become the memory and timeout
    /// errors naming the function as the caller supplied it; any other
    /// failure is the opaque runtime error with the original message.
    pub fn call(&mut self, fn_name: &str, input: &[u8]) -> (r: Result<Vec<u8>, UntRustedError>)
        ensures
            r is Err ==> match r->Err_0 {
                UntRustedError::MemoryExceeded(f) => f@ == fn_name@,
                UntRustedError::TimeoutExceeded(f) => f@ == fn_name@,
                UntRustedError::UnderlyingRuntimeError(_) => true,
                _ => false,
            },
    {
        let exported = resolve_call_name(fn_name);
        match plugin_call_raw(&mut self.plugin, exported.as_str(), input) {
            Ok(v) => Ok(v),
            Err(msg) => Err(classify_call_failure(fn_name, msg)),
        }
    }
}

} // verus!
