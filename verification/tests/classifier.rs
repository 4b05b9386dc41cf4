use identity_resolver::classify::is_did;
use identity_resolver::classify::is_valid_domain;

#[test]
fn did_shape_accepted() {
    assert!(is_did("did:plc:abc123"));
    assert!(is_did("did:web:example.com"));
    assert!(is_did("did:key:z6MkhaXgBZDvotDkL5257faiztiGiC2QtKLGpbnnEGta2doK"));
}

#[test]
fn did_uppercase_method_rejected() {
    assert!(!is_did("did:PLC:abc"));
}

#[test]
fn did_empty_identifier_rejected() {
    assert!(!is_did("did:plc:"));
}

#[test]
fn did_wrong_part_count_rejected() {
    assert!(!is_did("not:a:did:at:all"));
    assert!(!is_did("did:plc"));
    assert!(!is_did("did"));
    assert!(!is_did(""));
}

#[test]
fn did_empty_method_rejected() {
    assert!(!is_did("did::abc"));
}

#[test]
fn did_wrong_prefix_rejected() {
    assert!(!is_did("dud:plc:abc"));
    assert!(!is_did("Did:plc:abc"));
}

#[test]
fn domain_two_labels_accepted() {
    assert!(is_valid_domain("example.com"));
    assert!(is_valid_domain("sub.example.co"));
    assert!(is_valid_domain("a-b.c0"));
}

#[test]
fn domain_single_label_rejected() {
    assert!(!is_valid_domain("localhost"));
}

#[test]
fn domain_leading_hyphen_rejected() {
    assert!(!is_valid_domain("-x.com"));
    assert!(!is_valid_domain("x.-com"));
}

#[test]
fn domain_trailing_hyphen_rejected() {
    assert!(!is_valid_domain("x-.com"));
}

#[test]
fn domain_empty_label_rejected() {
    assert!(!is_valid_domain("a..b"));
    assert!(!is_valid_domain(".com"));
    assert!(!is_valid_domain("com."));
    assert!(!is_valid_domain(""));
}

#[test]
fn domain_bad_character_rejected() {
    assert!(!is_valid_domain("ex ample.com"));
    assert!(!is_valid_domain("exa_mple.com"));
}

#[test]
fn domain_length_limits() {
    // 63-character label is fine, 64 is not.
    let label63: String = "a".repeat(63);
    let label64: String = "a".repeat(64);
    assert!(is_valid_domain(&format!("{}.com", label63)));
    assert!(!is_valid_domain(&format!("{}.com", label64)));
    // 253 characters in total is fine, more is not.
    let mut total253 = String::new();
    for _ in 0..50 {
        total253.push_str("abcd.");
    }
    total253.push_str("com");
    assert_eq!(total253.len(), 253);
    assert!(is_valid_domain(&total253));
    let total254 = format!("ab.{}", total253);
    assert!(!is_valid_domain(&total254));
}
