use unt_rust_ed::WasmCompileTarget;
use unt_rust_ed::UntrustedRustProject;
use unt_rust_ed::UntRustedError;
use unt_rust_ed::names::resolve_call_name;
use unt_rust_ed::sandbox::classify_call_failure;
use unt_rust_ed::toolchain::{artifact_relpath, build_missing_target_marker, classify_build_failure,
    guest_manifest_text};
use unt_rust_ed::config::pages_from;

#[test]
fn resolve_unqualified_name() {
    assert_eq!(resolve_call_name("add2"), "__add2");
}

#[test]
fn resolve_qualified_name() {
    assert_eq!(resolve_call_name("outer::inner"), "outer__inner");
}

#[test]
fn resolve_deeply_qualified_name() {
    assert_eq!(resolve_call_name("a::b::f"), "a__b__f");
}

#[test]
fn resolution_matches_planner_names() {
    // the planner exports `inner` of namespace `outer` as `outer__inner`,
    // and the caller-side name `outer::inner` resolves to the same text
    let project =
        UntrustedRustProject::new("mod outer { pub fn inner(x: i32) -> i32 { x * 2 } }");
    let out = project.rewritten_source().unwrap();
    let resolved = resolve_call_name("outer::inner");
    assert!(out.contains(&format!("pub fn {}(", resolved)));
    let project2 = UntrustedRustProject::new("pub fn add2(a: i32) -> i32 { a + 2 }");
    let out2 = project2.rewritten_source().unwrap();
    assert!(out2.contains(&format!("pub fn {}(", resolve_call_name("add2"))));
}

#[test]
fn classify_oom_message() {
    let e = classify_call_failure("grow", String::from("oom"));
    match e {
        UntRustedError::MemoryExceeded(f) => assert_eq!(f, "grow"),
        _ => panic!("expected the memory classification"),
    }
}

#[test]
fn classify_timeout_message() {
    let e = classify_call_failure("spin", String::from("timeout"));
    match e {
        UntRustedError::TimeoutExceeded(f) => assert_eq!(f, "spin"),
        _ => panic!("expected the timeout classification"),
    }
}

#[test]
fn classify_other_message_is_opaque() {
    let e = classify_call_failure("f", String::from("unknown export: __f"));
    match e {
        UntRustedError::UnderlyingRuntimeError(m) => assert_eq!(m, "unknown export: __f"),
        _ => panic!("expected the opaque runtime classification"),
    }
}

#[test]
fn target_triples() {
    assert_eq!(WasmCompileTarget::Lightweight.as_str(), "wasm32-unknown-unknown");
    assert_eq!(WasmCompileTarget::Wasi.as_str(), "wasm32-wasi");
}

#[test]
fn missing_target_marker_text() {
    assert_eq!(
        build_missing_target_marker("wasm32-unknown-unknown"),
        "note: the `wasm32-unknown-unknown` target may not be installed"
    );
}

#[test]
fn build_failure_missing_target() {
    let stderr = "error[E0463]: can't find crate for `core`\nnote: the `wasm32-unknown-unknown` target may not be installed\nhelp: consider downloading the target";
    let e = classify_build_failure(&WasmCompileTarget::Lightweight, "", stderr);
    match e {
        UntRustedError::MissingTargetInstallation(t) => {
            assert_eq!(t, "wasm32-unknown-unknown");
        },
        _ => panic!("expected the missing-target classification"),
    }
}

#[test]
fn build_failure_marker_for_other_target_is_unknown() {
    // the note names a different triple than the one requested
    let stderr = "note: the `wasm32-unknown-unknown` target may not be installed";
    let e = classify_build_failure(&WasmCompileTarget::Wasi, "out", stderr);
    match e {
        UntRustedError::UnknownBuildError(o, r) => {
            assert_eq!(o, "out");
            assert_eq!(r, stderr);
        },
        _ => panic!("expected the opaque build classification"),
    }
}

#[test]
fn build_failure_type_mismatch_is_unknown() {
    let stderr = "error[E0308]: mismatched types\n --> src/lib.rs:1:1";
    let e = classify_build_failure(&WasmCompileTarget::Lightweight, "", stderr);
    match e {
        UntRustedError::UnknownBuildError(o, r) => {
            assert_eq!(o, "");
            assert_eq!(r, stderr);
        },
        _ => panic!("expected the opaque build classification"),
    }
}

#[test]
fn artifact_paths() {
    assert_eq!(
        artifact_relpath(&WasmCompileTarget::Lightweight),
        "target/wasm32-unknown-unknown/release/test_wasm.wasm"
    );
    assert_eq!(
        artifact_relpath(&WasmCompileTarget::Wasi),
        "target/wasm32-wasi/release/test_wasm.wasm"
    );
}

#[test]
fn guest_manifest_declares_dependencies() {
    let m = guest_manifest_text();
    assert!(m.contains("extism-pdk"));
    assert!(m.contains("serde"));
    assert!(m.contains("crate-type = [\"cdylib\"]"));
}

#[test]
fn pages_round_up() {
    assert_eq!(pages_from(0, 4096), 0);
    assert_eq!(pages_from(1, 4096), 1);
    assert_eq!(pages_from(4096, 4096), 1);
    assert_eq!(pages_from(4097, 4096), 2);
    assert_eq!(pages_from(65536, 65536), 1);
    assert_eq!(pages_from(0, 0), 0);
    assert_eq!(pages_from(10, 0), 0);
}

#[test]
fn builder_defaults_and_updates() {
    let p = UntrustedRustProject::new("pub fn f() {}");
    assert!(p.max_pages().is_none());
    assert!(p.runtime_timeout_ms().is_none());
    assert!(matches!(p.target(), WasmCompileTarget::Lightweight));
    let p = p
        .with_target(WasmCompileTarget::Wasi)
        .with_runtime_timeout_ms(250)
        .with_max_memory_bytes(1 << 20);
    assert!(matches!(p.target(), WasmCompileTarget::Wasi));
    assert_eq!(p.runtime_timeout_ms(), Some(250));
    assert!(p.max_pages().is_some());
}

#[test]
fn host_type_registration_replaces_same_name() {
    let p = UntrustedRustProject::new("pub fn f() {}")
        .with_host_type_descriptor("Pair", "pub struct Pair { pub a: i32 }")
        .with_host_type_descriptor("Pair", "pub struct Pair { pub a: i32, pub b: i32 }");
    assert_eq!(p.exported_host_types.len(), 1);
    assert_eq!(p.exported_host_types[0].0, "Pair");
    assert_eq!(p.exported_host_types[0].1, "pub struct Pair { pub a: i32, pub b: i32 }");
}

#[test]
fn sdk_type_registration_is_a_set() {
    let p = UntrustedRustProject::new("pub fn f() {}")
        .with_sdk_type("Point")
        .with_sdk_type("Point")
        .with_sdk_type("Size");
    assert_eq!(p.sdk_types.len(), 2);
}

#[test]
fn error_messages_name_their_subject() {
    let e = UntRustedError::MissingTargetInstallation(String::from("wasm32-wasi"));
    assert_eq!(e.message(), "missing compile target wasm32-wasi");
    let e = UntRustedError::MemoryExceeded(String::from("grow"));
    assert_eq!(e.message(), "call exceeded its memory budget: grow");
    let e = UntRustedError::TimeoutExceeded(String::from("spin"));
    assert_eq!(e.message(), "call exceeded its time budget: spin");
}

#[test]
fn remaining_error_messages() {
    let e = UntRustedError::IoError {
        resource: String::from("Cargo.toml"),
        cause: String::from("permission denied"),
    };
    assert_eq!(e.message(), "io error for Cargo.toml: permission denied");
    let e = UntRustedError::CachedHashMismatch;
    assert_eq!(e.message(), "cached artifact hash mismatch");
    let e = UntRustedError::ParseError(String::from("a namespace body is not closed before the end of the input"));
    assert!(e.message().contains("could not be parsed"));
}
