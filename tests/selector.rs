use zink_abi::selector::{keccak256, parse, Abi, Input};

fn abi(name: &str, tys: &[&str]) -> Abi {
    let mut inputs = Vec::new();
    for (k, t) in tys.iter().enumerate() {
        inputs.push(Input { name: format!("a{}", k), ty: t.to_string() });
    }
    Abi { name: name.to_string(), inputs }
}

#[test]
fn signature_without_parameters() {
    assert_eq!(abi("run_revert", &[]).signature(), "run_revert()");
}

#[test]
fn signature_joins_types_in_order() {
    assert_eq!(abi("f", &["i32"]).signature(), "f(i32)");
    assert_eq!(abi("transfer", &["address", "uint256"]).signature(), "transfer(address,uint256)");
    assert_eq!(abi("g", &["i32", "i64", "i32"]).signature(), "g(i32,i64,i32)");
}

#[test]
fn keccak_of_empty_input() {
    let h = keccak256(b"");
    assert_eq!(h[..4], [0xc5, 0xd2, 0x46, 0x01]);
    assert_eq!(h[28..], [0x5d, 0x85, 0xa4, 0x70]);
}

#[test]
fn selector_of_known_signature() {
    let s = abi("transfer", &["address", "uint256"]).selector();
    assert_eq!(s, [0xa9, 0x05, 0x9c, 0xbb]);
    assert_eq!(parse(b"transfer(address,uint256)"), [0xa9, 0x05, 0x9c, 0xbb]);
}

#[test]
fn selector_is_prefix_of_digest() {
    let s = abi("run_revert", &[]).selector();
    let h = keccak256(b"run_revert()");
    assert_eq!(s.len(), 4);
    assert_eq!(s[..], h[..4]);
    assert_eq!(s, parse(b"run_revert()"));
}

#[test]
fn selector_is_deterministic() {
    let a = abi("f", &["i32"]);
    assert_eq!(a.selector(), a.selector());
    assert_eq!(a.selector(), abi("f", &["i32"]).selector());
}

#[test]
fn selector_changes_with_name_or_type() {
    let f = abi("f", &["i32"]).selector();
    assert_ne!(f, abi("g", &["i32"]).selector());
    assert_ne!(f, abi("f", &["i64"]).selector());
}

#[test]
fn selector_width_for_long_input() {
    let long = "x".repeat(10000);
    assert_eq!(parse(long.as_bytes()).len(), 4);
    assert_eq!(parse(b"").len(), 4);
}

#[test]
fn signature_has_one_comma_between_each_pair() {
    let sig = abi("h", &["a", "b", "c", "d"]).signature();
    assert_eq!(sig.matches(',').count(), 3);
    assert!(sig.starts_with("h(") && sig.ends_with(')'));
}
