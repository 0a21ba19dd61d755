//! The password and email validators, on the edges of their grammars.

use routine_core::tools::{is_valid_email, is_valid_password};

#[test]
fn password_length_bounds() {
    assert!(!is_valid_password("short.pw1")); // 9 characters
    assert!(is_valid_password("longer.pw1")); // 10 characters
    let sixty_four: String = "a".repeat(64);
    assert!(is_valid_password(sixty_four.as_str()));
    let sixty_five: String = "a".repeat(65);
    assert!(!is_valid_password(sixty_five.as_str()));
}

#[test]
fn password_character_set() {
    assert!(is_valid_password("Ab0._+-!?xyz"));
    assert!(!is_valid_password("has a space"));
    assert!(!is_valid_password("has#a-hash1"));
    assert!(!is_valid_password(""));
}

#[test]
fn well_formed_addresses_accepted() {
    assert!(is_valid_email("user@example.com"));
    assert!(is_valid_email("a@b.co"));
    assert!(is_valid_email("user.name+tag%x-y@sub.domain-two.org"));
    assert!(is_valid_email("a@b.comm"));
}

#[test]
fn malformed_addresses_rejected() {
    assert!(!is_valid_email(""));
    assert!(!is_valid_email("user"));
    assert!(!is_valid_email("user@"));
    assert!(!is_valid_email("@example.com"));
    assert!(!is_valid_email("user@example"));
    assert!(!is_valid_email("user@example.c")); // one-letter label
    assert!(!is_valid_email("user@example.c0m")); // digit after the last dot
    assert!(!is_valid_email("us er@example.com"));
    assert!(!is_valid_email("user@@example.com"));
    assert!(!is_valid_email("user@.com")); // empty domain before the dot
    assert!(!is_valid_email("user@example.com.")); // nothing after the last dot
}

#[test]
fn generated_password_has_identifier_shape_and_is_accepted() {
    let generated = routine_core::tools::generate_random_password();
    assert_eq!(generated.len(), 36);
    assert!(is_valid_password(generated.as_str()));
}
