use roomservice::hash::{decimal_string, hash_bytes};

#[test]
fn decimal_of_zero() {
    assert_eq!(decimal_string(0), "0");
}

#[test]
fn decimal_of_small_numbers() {
    assert_eq!(decimal_string(7), "7");
    assert_eq!(decimal_string(10), "10");
    assert_eq!(decimal_string(12345), "12345");
    assert_eq!(decimal_string(1000000), "1000000");
}

#[test]
fn decimal_of_largest_value() {
    assert_eq!(
        decimal_string(u128::MAX),
        "340282366920938463463374607431768211455"
    );
}

#[test]
fn fingerprint_is_idempotent() {
    let content = b"fn main() { println!(\"hello\"); }\n";
    let first = hash_bytes(content);
    let second = hash_bytes(content);
    assert_eq!(first, second);
}

#[test]
fn fingerprint_depends_on_content() {
    let a = hash_bytes(b"one file tree");
    let b = hash_bytes(b"another file tree");
    assert_ne!(a, b);
}

#[test]
fn fingerprint_of_empty_content_is_stable() {
    let first = hash_bytes(b"");
    let second = hash_bytes(b"");
    assert_eq!(first, second);
    assert!(!first.is_empty());
    assert!(first.chars().all(|c| c.is_ascii_digit()));
}

#[test]
fn fingerprint_sensitive_to_single_byte() {
    let a = hash_bytes(b"content v1");
    let b = hash_bytes(b"content v2");
    assert_ne!(a, b);
}
