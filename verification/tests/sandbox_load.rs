use unt_rust_ed::sandbox::load_compiled;
use unt_rust_ed::UntRustedError;

#[test]
fn loading_malformed_artifact_fails_opaquely() {
    let garbage: Vec<u8> = vec![0x00, 0x01, 0x02, 0x03];
    let r = load_compiled(garbage, Some(16), None, false);
    match r {
        Err(UntRustedError::UnderlyingRuntimeError(_)) => (),
        Err(_) => panic!("a load failure must be the opaque runtime error"),
        Ok(_) => panic!("malformed artifact bytes must not load"),
    }
}

#[test]
fn loading_malformed_artifact_with_timeout_fails_opaquely() {
    let garbage: Vec<u8> = vec![0xde, 0xad, 0xbe, 0xef];
    let r = load_compiled(garbage, Some(16), Some(100), true);
    match r {
        Err(UntRustedError::UnderlyingRuntimeError(_)) => (),
        Err(_) => panic!("a load failure must be the opaque runtime error"),
        Ok(_) => panic!("malformed artifact bytes must not load"),
    }
}
