use utils::create_uuidv4;
use utils::create_uuidv7;
use utils::UUIDv7;

fn is_lower_hex(c: char) -> bool {
    ('0'..='9').contains(&c) || ('a'..='f').contains(&c)
}

fn assert_canonical(s: &str, version: char) {
    let chars: Vec<char> = s.chars().collect();
    assert_eq!(chars.len(), 36, "wrong length: {}", s);
    for (i, c) in chars.iter().enumerate() {
        if i == 8 || i == 13 || i == 18 || i == 23 {
            assert_eq!(*c, '-', "missing hyphen at {} in {}", i, s);
        } else {
            assert!(is_lower_hex(*c), "not lowercase hex at {} in {}", i, s);
        }
    }
    assert_eq!(chars[14], version, "wrong version digit in {}", s);
}

fn prefix_millis(bytes: &[u8; 16]) -> u64 {
    let mut v: u64 = 0;
    for b in &bytes[0..6] {
        v = (v << 8) | u64::from(*b);
    }
    v
}

#[test]
fn uuidv7_layout_renders_exactly() {
    let payload: [u8; 8] = [0x3a, 0x6c, 0xc3, 0x61, 0x72, 0x7b, 0xc0, 0x74];
    let bytes = utils::uuid::uuidv7_bytes(0x0102_0304_0506_0708, 0x123, &payload);
    assert_eq!(
        bytes,
        [
            0x03, 0x04, 0x05, 0x06, 0x07, 0x08, 0x71, 0x23, 0x3a, 0x6c, 0xc3, 0x61, 0x72, 0x7b,
            0xc0, 0x74
        ]
    );
    let s = utils::uuid::uuid_string_of_bytes(&bytes);
    assert_eq!(s, "03040506-0708-7123-3a6c-c361727bc074");
}

#[test]
fn uuidv7_strings_sort_by_timestamp() {
    let b1 = utils::uuid::uuidv7_bytes(1_000_000, 4095, &[0xff; 8]);
    let b2 = utils::uuid::uuidv7_bytes(1_000_001, 0, &[0x00; 8]);
    let s1 = utils::uuid::uuid_string_of_bytes(&b1);
    let s2 = utils::uuid::uuid_string_of_bytes(&b2);
    assert!(b1[..6] < b2[..6]);
    assert!(s1 < s2);
}

#[test]
fn uuidv4_matches_canonical_pattern() {
    for _ in 0..100 {
        let s = create_uuidv4();
        assert_canonical(&s, '4');
    }
}

#[test]
fn uuidv4_is_not_constant() {
    let first = create_uuidv4();
    let mut saw_other = false;
    for _ in 0..50 {
        if create_uuidv4() != first {
            saw_other = true;
        }
    }
    assert!(saw_other);
}

#[test]
fn uuidv7_string_matches_canonical_pattern() {
    for _ in 0..100 {
        match create_uuidv7(true) {
            UUIDv7::String(s) => assert_canonical(&s, '7'),
            UUIDv7::Bytes(_) => panic!("asked for the string form"),
        }
    }
}

#[test]
fn uuidv7_bytes_have_version_nibble_seven() {
    for _ in 0..100 {
        match create_uuidv7(false) {
            UUIDv7::Bytes(b) => {
                assert_eq!(b.len(), 16);
                assert_eq!(b[6] >> 4, 7, "version nibble wrong in {:?}", b);
            },
            UUIDv7::String(_) => panic!("asked for the byte form"),
        }
    }
}

#[test]
fn uuidv7_timestamp_prefix_is_nondecreasing() {
    let mut last: u64 = 0;
    for _ in 0..200 {
        match create_uuidv7(false) {
            UUIDv7::Bytes(b) => {
                let now = prefix_millis(&b);
                assert!(now >= last, "timestamp prefix went backwards");
                last = now;
            },
            UUIDv7::String(_) => panic!("asked for the byte form"),
        }
    }
    assert!(last > 0, "clock read as zero");
}

#[test]
fn uuidv7_payload_is_not_constant() {
    let first = match create_uuidv7(false) {
        UUIDv7::Bytes(b) => b[8..16].to_vec(),
        UUIDv7::String(_) => panic!("asked for the byte form"),
    };
    let mut saw_other = false;
    for _ in 0..50 {
        let payload = match create_uuidv7(false) {
            UUIDv7::Bytes(b) => b[8..16].to_vec(),
            UUIDv7::String(_) => panic!("asked for the byte form"),
        };
        if payload != first {
            saw_other = true;
        }
    }
    assert!(saw_other);
}
