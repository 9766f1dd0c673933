use utils::create_random_hex_string;
use utils::create_random_string;
use utils::get_random_buffer;

fn is_alphanum(c: char) -> bool {
    c.is_ascii_lowercase() || c.is_ascii_uppercase() || c.is_ascii_digit()
}

fn is_lower_hex(c: char) -> bool {
    ('0'..='9').contains(&c) || ('a'..='f').contains(&c)
}

#[test]
fn random_string_has_requested_length() {
    assert_eq!(create_random_string(0).chars().count(), 0);
    assert_eq!(create_random_string(1).chars().count(), 1);
    assert_eq!(create_random_string(64).chars().count(), 64);
}

#[test]
fn random_string_stays_in_alphabet() {
    for _ in 0..50 {
        let s = create_random_string(40);
        assert!(s.chars().all(is_alphanum), "unexpected character in {}", s);
    }
}

#[test]
fn random_string_is_not_constant() {
    let first = create_random_string(32);
    let mut saw_other = false;
    for _ in 0..50 {
        if create_random_string(32) != first {
            saw_other = true;
        }
    }
    assert!(saw_other);
}

#[test]
fn hex_string_has_requested_length() {
    assert_eq!(create_random_hex_string(0).chars().count(), 0);
    assert_eq!(create_random_hex_string(1).chars().count(), 1);
    assert_eq!(create_random_hex_string(64).chars().count(), 64);
}

#[test]
fn hex_string_stays_in_alphabet() {
    for _ in 0..50 {
        let s = create_random_hex_string(40);
        assert!(s.chars().all(is_lower_hex), "unexpected character in {}", s);
    }
}

#[test]
fn hex_string_is_not_constant() {
    let first = create_random_hex_string(32);
    let mut saw_other = false;
    for _ in 0..50 {
        if create_random_hex_string(32) != first {
            saw_other = true;
        }
    }
    assert!(saw_other);
}

#[test]
fn random_buffer_has_requested_length() {
    assert_eq!(get_random_buffer(0).len(), 0);
    assert_eq!(get_random_buffer(1).len(), 1);
    assert_eq!(get_random_buffer(1000).len(), 1000);
}

#[test]
fn random_buffer_is_not_constant() {
    let first = get_random_buffer(32);
    let mut saw_other = false;
    for _ in 0..50 {
        if get_random_buffer(32) != first {
            saw_other = true;
        }
    }
    assert!(saw_other);
}
