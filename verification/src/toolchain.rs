//! Build-side pieces of the compile pipeline: the guest workspace
//! manifest, the artifact location, and the classification of toolchain
//! failures into an actionable missing-target error and an opaque one.

use vstd::prelude::*;
use vstd::string::StringExecFns;
use crate::config::{WasmCompileTarget, triple_of};
use crate::errors::UntRustedError;
use crate::text::{str_to_chars, contains_chars, seq_contains};

verus! {

/// The manifest of the ephemeral guest workspace: one library compilation
/// unit with the sandbox-bridge and JSON-marshaling dependencies.
pub fn guest_manifest_text() -> (r: &'static str)
    ensures
        r@
            == "[package]\n    name = \"test-wasm\"\n    version = \"0.1.0\"\n    edition = \"2021\"\n\n    [lib]\n    crate-type = [\"cdylib\"]\n\n    [dependencies]\n    extism-pdk = \"1.0.0-rc1\"\n    serde = { version = \"1.0\", features = [\"derive\"] }"@,
{
    "[package]\n    name = \"test-wasm\"\n    version = \"0.1.0\"\n    edition = \"2021\"\n\n    [lib]\n    crate-type = [\"cdylib\"]\n\n    [dependencies]\n    extism-pdk = \"1.0.0-rc1\"\n    serde = { version = \"1.0\", features = [\"derive\"] }"
}

/// The toolchain's note that the requested compile target is absent.
pub open spec fn missing_target_marker(triple: Seq<char>) -> Seq<char> {
    "note: the `"@ + triple + "` target may not be installed"@
}

/// Builds the missing-target note for a target triple.
pub fn build_missing_target_marker(triple: &str) -> (r: String)
    ensures
        r@ == missing_target_marker(triple@),
{
    let mut m = String::from_str("note: the `");
    m.append(triple);
    m.append("` target may not be installed");
    proof {
        assert(("note: the `"@ + triple@) + "` target may not be installed"@ =~= "note: the `"@
            + triple@ + "` target may not be installed"@);
    }
    m
}

/// Where the built artifact lies, relative to the workspace root.
pub fn artifact_relpath(target: &WasmCompileTarget) -> (r: String)
    ensures
        r@ == "target/"@ + triple_of(*target) + "/release/test_wasm.wasm"@,
{
    let mut m = String::from_str("target/");
    m.append(target.as_str());
    m.append("/release/test_wasm.wasm");
    proof {
        assert(("target/"@ + triple_of(*target)) + "/release/test_wasm.wasm"@ =~= "target/"@
            + triple_of(*target) + "/release/test_wasm.wasm"@);
    }
    m
}

/// Classifies a failed toolchain run from its captured output: when
/// either stream carries the note that the requested target is not
/// installed, the failure is the actionable missing-target error naming
/// the triple to install; otherwise it is the opaque build error carrying
/// both streams verbatim.
pub fn classify_build_failure(target: &WasmCompileTarget, stdout: &str, stderr: &str) -> (e:
    UntRustedError)
    ensures
        (seq_contains(stdout@, missing_target_marker(triple_of(*target))) || seq_contains(
            stderr@,
            missing_target_marker(triple_of(*target)),
        )) ==> (e matches UntRustedError::MissingTargetInstallation(t) && t@ == triple_of(*target)),
        !(seq_contains(stdout@, missing_target_marker(triple_of(*target))) || seq_contains(
            stderr@,
            missing_target_marker(triple_of(*target)),
        )) ==> (e matches UntRustedError::UnknownBuildError(o, r) && o@ == stdout@ && r@ == stderr@),
{
    let marker = build_missing_target_marker(target.as_str());
    let needle = str_to_chars(marker.as_str());
    let out_chars = str_to_chars(stdout);
    let err_chars = str_to_chars(stderr);
    if contains_chars(&out_chars, &needle) || contains_chars(&err_chars, &needle) {
        let mut t = String::new();
        t.append(target.as_str());
        proof {
            assert(Seq::<char>::empty() + triple_of(*target) =~= triple_of(*target));
        }
        UntRustedError::MissingTargetInstallation(t)
    } else {
        let mut o = String::new();
        o.append(stdout);
        let mut r = String::new();
        r.append(stderr);
        proof {
            assert(Seq::<char>::empty() + stdout@ =~= stdout@);
            assert(Seq::<char>::empty() + stderr@ =~= stderr@);
        }
        UntRustedError::UnknownBuildError(o, r)
    }
}

} // verus!
