use unt_rust_ed::UntrustedRustProject;
use unt_rust_ed::UntRustedError;

#[test]
fn plan_add2_exact() {
    let project = UntrustedRustProject::new("pub fn add2(a: i32) -> i32 { return a + 2; }");
    let out = project.rewritten_source().unwrap();
    assert_eq!(
        out,
        "use extism_pdk::*;\npub fn add2(a: i32) -> i32 { return a + 2; }\n#[plugin_fn]\npub fn __add2(a: i32) -> FnResult<i32> {\n    Ok(add2(a))\n}\n"
    );
}

#[test]
fn plan_nested_namespace_exact() {
    let project =
        UntrustedRustProject::new("mod outer { pub fn inner(x: i32) -> i32 { x * 2 } }");
    let out = project.rewritten_source().unwrap();
    assert_eq!(
        out,
        "use extism_pdk::*;\nmod outer { pub fn inner(x: i32) -> i32 { x * 2 }\n#[plugin_fn]\npub fn outer__inner(x: i32) -> FnResult<i32> {\n    Ok(inner(x))\n}\n }"
    );
}

#[test]
fn plan_deep_namespaces() {
    let project = UntrustedRustProject::new(
        "mod a { mod b { pub fn f(x: i32) -> i32 { x } } pub fn g() -> i32 { 1 } }",
    );
    let out = project.rewritten_source().unwrap();
    assert!(out.contains("pub fn a__b__f(x: i32) -> FnResult<i32> {\n    Ok(f(x))\n}"));
    assert!(out.contains("pub fn a__g() -> FnResult<i32> {\n    Ok(g())\n}"));
}

#[test]
fn plan_host_type_param_marshaled() {
    let project = UntrustedRustProject::new("pub fn sum(p: Pair) -> i32 { p.a + p.b }")
        .with_host_type_descriptor("Pair", "pub struct Pair { pub a: i32, pub b: i32 }");
    let out = project.rewritten_source().unwrap();
    // the original is kept verbatim
    assert!(out.contains("pub fn sum(p: Pair) -> i32 { p.a + p.b }"));
    // the wrapper binds the parameter through the JSON envelope
    assert!(out.contains(
        "\n#[plugin_fn]\npub fn __sum(Json(p): Json<Pair>) -> FnResult<i32> {\n    Ok(sum(p))\n}\n"
    ));
    // the definition is appended under the marshaling annotation
    assert!(out.contains(
        "\n#[derive(Debug, serde::Serialize, serde::Deserialize)]\npub struct Pair { pub a: i32, pub b: i32 }"
    ));
}

#[test]
fn plan_host_type_return_marshaled() {
    let project = UntrustedRustProject::new("pub fn mk(a: i32) -> Pair { Pair { a, b: a } }")
        .with_host_type_descriptor("Pair", "pub struct Pair { pub a: i32, pub b: i32 }");
    let out = project.rewritten_source().unwrap();
    assert!(out.contains(
        "\n#[plugin_fn]\npub fn __mk(a: i32) -> FnResult<Json<Pair>> {\n    Ok(Json(mk(a)))\n}\n"
    ));
}

#[test]
fn plan_sdk_type_marshaled() {
    let project = UntrustedRustProject::new("pub fn shift(p: Point) -> Point { p }")
        .with_sdk_type("Point");
    let out = project.rewritten_source().unwrap();
    assert!(out.contains(
        "pub fn __shift(Json(p): Json<Point>) -> FnResult<Json<Point>> {\n    Ok(Json(shift(p)))\n}"
    ));
    // no definition is emitted for an externally declared type
    assert!(!out.contains("pub struct Point"));
}

#[test]
fn plan_type_name_comparison_ignores_whitespace() {
    let project = UntrustedRustProject::new("pub fn eat(v: Vec < u8 >) -> i32 { v.len() as i32 }")
        .with_sdk_type("Vec<u8>");
    let out = project.rewritten_source().unwrap();
    assert!(out.contains("Json(v): Json<Vec < u8 >>"));
}

#[test]
fn plan_no_return_type() {
    let project = UntrustedRustProject::new("pub fn ping() {}");
    let out = project.rewritten_source().unwrap();
    assert!(out.contains("\n#[plugin_fn]\npub fn __ping() -> FnResult<()> {\n    Ok(ping())\n}\n"));
}

#[test]
fn plan_two_params() {
    let project = UntrustedRustProject::new("pub fn add(a: i32, b: i32) -> i32 { a + b }");
    let out = project.rewritten_source().unwrap();
    assert!(out.contains("pub fn __add(a: i32, b: i32) -> FnResult<i32> {\n    Ok(add(a, b))\n}"));
}

#[test]
fn plan_mut_param_binding() {
    let project = UntrustedRustProject::new("pub fn bump(mut a: i32) -> i32 { a += 1; a }");
    let out = project.rewritten_source().unwrap();
    assert!(out.contains("pub fn __bump(a: i32) -> FnResult<i32> {\n    Ok(bump(a))\n}"));
}

#[test]
fn plan_private_fn_not_exported() {
    let project = UntrustedRustProject::new("fn hidden(a: i32) -> i32 { a }");
    let out = project.rewritten_source().unwrap();
    assert_eq!(out, "use extism_pdk::*;\nfn hidden(a: i32) -> i32 { a }");
}

#[test]
fn plan_restricted_visibility_not_exported() {
    let project = UntrustedRustProject::new("pub(crate) fn shy(a: i32) -> i32 { a }");
    let out = project.rewritten_source().unwrap();
    assert_eq!(out, "use extism_pdk::*;\npub(crate) fn shy(a: i32) -> i32 { a }");
}

#[test]
fn plan_other_items_copied_verbatim() {
    let src = "use std::fmt;\n\nstruct S { x: i32 }\n\nimpl S { fn m(&self) -> i32 { self.x } }\n\npub fn get(s: i32) -> i32 { s }";
    let project = UntrustedRustProject::new(src);
    let out = project.rewritten_source().unwrap();
    assert!(out.starts_with("use extism_pdk::*;\nuse std::fmt;"));
    assert!(out.contains("struct S { x: i32 }"));
    assert!(out.contains("impl S { fn m(&self) -> i32 { self.x } }"));
    assert!(out.contains("pub fn __get(s: i32) -> FnResult<i32> {\n    Ok(get(s))\n}"));
}

#[test]
fn plan_braces_inside_literals_and_comments() {
    let src = "fn tricky() { let s = \"}{\"; let c = '}'; /* { /* { */ } */ } pub fn ok() -> i32 { 1 }";
    let project = UntrustedRustProject::new(src);
    let out = project.rewritten_source().unwrap();
    assert!(out.contains("pub fn __ok() -> FnResult<i32> {\n    Ok(ok())\n}"));
}

#[test]
fn plan_receiver_param_rejected() {
    let project = UntrustedRustProject::new("pub fn bad(self) -> i32 { 1 }");
    let err = project.rewritten_source().unwrap_err();
    assert!(matches!(err, UntRustedError::UnsupportedFnArg(_)));
}

#[test]
fn plan_pattern_param_rejected() {
    let project = UntrustedRustProject::new("pub fn bad((a, b): (i32, i32)) -> i32 { a + b }");
    let err = project.rewritten_source().unwrap_err();
    assert!(matches!(err, UntRustedError::UnsupportedParamName(_)));
}

#[test]
fn plan_wildcard_param_rejected() {
    let project = UntrustedRustProject::new("pub fn bad(_: i32) -> i32 { 1 }");
    let err = project.rewritten_source().unwrap_err();
    assert!(matches!(err, UntRustedError::UnsupportedParamName(_)));
}

#[test]
fn plan_unclosed_namespace_is_parse_error() {
    let project = UntrustedRustProject::new("mod m { pub fn f() -> i32 { 1 }");
    let err = project.rewritten_source().unwrap_err();
    assert!(matches!(err, UntRustedError::ParseError(_)));
}

#[test]
fn plan_stray_closing_brace_is_parse_error() {
    let project = UntrustedRustProject::new("pub fn f() -> i32 { 1 } }");
    let err = project.rewritten_source().unwrap_err();
    assert!(matches!(err, UntRustedError::ParseError(_)));
}

#[test]
fn plan_already_tagged_source_kept() {
    // a submission may already carry export tags; the original items ride
    // along unmodified and the wrapper is still added
    let src = "use extism_pdk::*;\n#[plugin_fn]\npub fn add2(a: i32) -> FnResult<i32> {\nreturn Ok(a + 2);\n}";
    let project = UntrustedRustProject::new(src);
    let out = project.rewritten_source().unwrap();
    assert!(out.contains(src));
    assert!(out.contains("pub fn __add2(a: i32) -> FnResult<FnResult<i32>> {\n    Ok(add2(a))\n}"));
}

#[test]
fn plan_trailing_comma_in_params() {
    let project = UntrustedRustProject::new("pub fn one(a: i32,) -> i32 { a }");
    let out = project.rewritten_source().unwrap();
    assert!(out.contains("pub fn __one(a: i32) -> FnResult<i32> {\n    Ok(one(a))\n}"));
}

#[test]
fn plan_reference_type_passes_raw() {
    let project = UntrustedRustProject::new("pub fn len_of(s: &str) -> i32 { s.len() as i32 }");
    let out = project.rewritten_source().unwrap();
    assert!(out.contains("pub fn __len_of(s: &str) -> FnResult<i32> {\n    Ok(len_of(s))\n}"));
}

#[test]
fn plan_generic_fn_passes_through_unexported() {
    let project = UntrustedRustProject::new("pub fn id<T>(x: T) -> T { x }");
    let out = project.rewritten_source().unwrap();
    assert_eq!(out, "use extism_pdk::*;\npub fn id<T>(x: T) -> T { x }");
}
