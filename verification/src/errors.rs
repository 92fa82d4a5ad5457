//! The error taxonomy of the library.
//!
//! Planning rejects a submission before any workspace exists
//! ([`UntRustedError::ParseError`], [`UntRustedError::UnsupportedParamName`],
//! [`UntRustedError::UnsupportedFnArg`]); build failures are split into the
//! actionable [`UntRustedError::MissingTargetInstallation`] and the opaque
//! [`UntRustedError::UnknownBuildError`]; per-call sandbox failures are
//! remapped to [`UntRustedError::MemoryExceeded`] and
//! [`UntRustedError::TimeoutExceeded`], with anything else surfaced as
//! [`UntRustedError::UnderlyingRuntimeError`].

use vstd::prelude::*;
use vstd::string::StringExecFns;

verus! {

#[derive(Debug)]
pub enum UntRustedError {
    /// A workspace or file operation failed: the resource touched and the
    /// underlying cause, rendered as text.
    IoError { resource: String, cause: String },
    /// The submitted source could not be split into items.
    ParseError(String),
    /// A parameter pattern of an exported function is not a plain
    /// identifier binding; carries the parameter text.
    UnsupportedParamName(String),
    /// A parameter of an exported function is not a typed binding (for
    /// example a receiver); carries the parameter text.
    UnsupportedFnArg(String),
    /// The toolchain lacks the requested compile target; carries the
    /// target triple to install.
    MissingTargetInstallation(String),
    /// The guest build failed for another reason; carries the captured
    /// standard output and standard error verbatim.
    UnknownBuildError(String, String),
    /// The sandbox runtime failed in a way the library does not classify;
    /// carries the runtime's message.
    UnderlyingRuntimeError(String),
    /// A call exceeded its page budget; carries the caller-supplied
    /// function name.
    MemoryExceeded(String),
    /// A call exceeded its time budget; carries the caller-supplied
    /// function name.
    TimeoutExceeded(String),
    /// Reserved for a future artifact cache keyed by a source hash.
    CachedHashMismatch,
}

impl UntRustedError {
    /// A short human-readable rendering of the error.
    pub fn message(&self) -> (r: String)
        ensures
            match self {
                UntRustedError::MissingTargetInstallation(t) => r@ == "missing compile target "@
                    + t@,
                UntRustedError::MemoryExceeded(f) => r@ == "call exceeded its memory budget: "@
                    + f@,
                UntRustedError::TimeoutExceeded(f) => r@ == "call exceeded its time budget: "@
                    + f@,
                _ => true,
            },
    {
        match self {
            UntRustedError::IoError { resource, cause } => {
                let mut m = String::from_str("io error for ");
                m.append(resource.as_str());
                m.append(": ");
                m.append(cause.as_str());
                m
            },
            UntRustedError::ParseError(d) => {
                let mut m = String::from_str("the submitted source could not be parsed: ");
                m.append(d.as_str());
                m
            },
            UntRustedError::UnsupportedParamName(p) => {
                let mut m = String::from_str("unsupported parameter pattern: ");
                m.append(p.as_str());
                m
            },
            UntRustedError::UnsupportedFnArg(p) => {
                let mut m = String::from_str("unsupported function argument: ");
                m.append(p.as_str());
                m
            },
            UntRustedError::MissingTargetInstallation(t) => {
                let mut m = String::from_str("missing compile target ");
                m.append(t.as_str());
                m
            },
            UntRustedError::UnknownBuildError(out, err) => {
                let mut m = String::from_str("unknown build error; stdout: ");
                m.append(out.as_str());
                m.append("; stderr: ");
                m.append(err.as_str());
                m
            },
            UntRustedError::UnderlyingRuntimeError(c) => {
                let mut m = String::from_str("sandbox runtime error: ");
                m.append(c.as_str());
                m
            },
            UntRustedError::MemoryExceeded(f) => {
                let mut m = String::from_str("call exceeded its memory budget: ");
                m.append(f.as_str());
                m
            },
            UntRustedError::TimeoutExceeded(f) => {
                let mut m = String::from_str("call exceeded its time budget: ");
                m.append(f.as_str());
                m
            },
            UntRustedError::CachedHashMismatch => {
                let mut m = String::from_str("cached artifact hash mismatch");
                m
            },
        }
    }
}

} // verus!
