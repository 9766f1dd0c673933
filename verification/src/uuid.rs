//! RFC-4122 identifiers: the version-7 layout around a millisecond
//! timestamp, and the fully random version-4 string form.
//!
//! A canonical identifier string has 36 characters in the 8-4-4-4-12
//! grouping, lowercase hexadecimal with hyphens at positions 8, 13, 18 and
//! 23, and the version digit at position 14. As in the byte layout below,
//! the RFC's variant bits are left to chance rather than pinned to `10`.

use vstd::prelude::*;
use crate::hex::hex_char;
use crate::hex::hex_digit;
use crate::hex::is_hex_char;
use crate::hex::lemma_hex_digit_is_hex;
use crate::sys;
use crate::text::chars_to_string;

verus! {

/// A version-7 identifier, in whichever of its two equivalent forms the
/// caller asked for: the canonical 36-character string, or the raw 16
/// bytes.
#[derive(Debug)]
pub enum UUIDv7 {
    String(String),
    Bytes([u8; 16]),
}

/// The 16-byte version-7 layout: the low 48 bits of `millis` big-endian in
/// bytes 0-5, then a big-endian 16-bit field whose top nibble is `7` and
/// whose low 12 bits are `version_rand`, then the 8 payload bytes verbatim.
pub open spec fn uuidv7_bytes_spec(millis: u64, version_rand: u16, payload: Seq<u8>) -> Seq<u8> {
    let version_field = (0x7000 + version_rand) as u16;
    seq![
        (millis >> 40) as u8,
        (millis >> 32) as u8,
        (millis >> 24) as u8,
        (millis >> 16) as u8,
        (millis >> 8) as u8,
        millis as u8,
        (version_field >> 8) as u8,
        version_field as u8,
    ] + payload
}

/// The timestamp read back from the first six bytes of a byte sequence,
/// interpreted as a big-endian 48-bit integer.
pub open spec fn be48_value(b: Seq<u8>) -> int {
    (b[0] as int) * 0x100_0000_0000 + (b[1] as int) * 0x1_0000_0000 + (b[2] as int) * 0x100_0000
        + (b[3] as int) * 0x1_0000 + (b[4] as int) * 0x100 + (b[5] as int)
}

/// Assembles the version-7 byte layout from a timestamp, a 12-bit random
/// value for the version field, and the random payload.
pub fn uuidv7_bytes(millis: u64, version_rand: u16, payload: &[u8; 8]) -> (r: [u8; 16])
    requires
        version_rand < 4096,
    ensures
        r@ == uuidv7_bytes_spec(millis, version_rand, payload@),
        r@[6] >> 4 == 7,
{
    let mut b: [u8; 16] = [0u8; 16];
    b[0] = #[verifier::truncate] ((millis >> 40) as u8);
    b[1] = #[verifier::truncate] ((millis >> 32) as u8);
    b[2] = #[verifier::truncate] ((millis >> 24) as u8);
    b[3] = #[verifier::truncate] ((millis >> 16) as u8);
    b[4] = #[verifier::truncate] ((millis >> 8) as u8);
    b[5] = #[verifier::truncate] (millis as u8);
    let version_field: u16 = 0x7000 + version_rand;
    b[6] = #[verifier::truncate] ((version_field >> 8) as u8);
    b[7] = #[verifier::truncate] (version_field as u8);
    b[8] = payload[0];
    b[9] = payload[1];
    b[10] = payload[2];
    b[11] = payload[3];
    b[12] = payload[4];
    b[13] = payload[5];
    b[14] = payload[6];
    b[15] = payload[7];
    proof {
        assert(b@ =~= uuidv7_bytes_spec(millis, version_rand, payload@));
        assert(((0x7000 + version_rand) as u16 >> 8) as u8 >> 4 == 7) by (bit_vector)
            requires
                version_rand < 4096,
        ;
    }
    b
}

/// Decoding the first six bytes of the version-7 layout recovers the low
/// 48 bits of the timestamp the layout was built from; identifiers made at
/// different milliseconds therefore differ in those bytes, and byte order
/// follows time order.
pub proof fn lemma_uuidv7_timestamp_roundtrip(millis: u64, version_rand: u16, payload: Seq<u8>)
    ensures
        be48_value(uuidv7_bytes_spec(millis, version_rand, payload)) == millis % 0x1_0000_0000_0000,
{
    assert(((millis >> 40) as u8 as u64) * 0x100_0000_0000 + ((millis >> 32) as u8 as u64)
        * 0x1_0000_0000 + ((millis >> 24) as u8 as u64) * 0x100_0000 + ((millis >> 16) as u8
        as u64) * 0x1_0000 + ((millis >> 8) as u8 as u64) * 0x100 + (millis as u8 as u64)
        == millis % 0x1_0000_0000_0000) by (bit_vector);
}

/// Layouts built at ordered timestamps sort in that order: their first six
/// bytes, read as big-endian 48-bit integers, compare as the low 48 bits of
/// the timestamps do, whatever the random fields hold.
pub proof fn lemma_uuidv7_time_order(
    m1: u64,
    vr1: u16,
    p1: Seq<u8>,
    m2: u64,
    vr2: u16,
    p2: Seq<u8>,
)
    requires
        m1 % 0x1_0000_0000_0000 <= m2 % 0x1_0000_0000_0000,
    ensures
        be48_value(uuidv7_bytes_spec(m1, vr1, p1)) <= be48_value(uuidv7_bytes_spec(m2, vr2, p2)),
{
    lemma_uuidv7_timestamp_roundtrip(m1, vr1, p1);
    lemma_uuidv7_timestamp_roundtrip(m2, vr2, p2);
}

/// Strict lexicographic order on character sequences, by code point. On
/// equal-length ASCII sequences this is the order `str` comparison gives.
pub open spec fn lex_lt_chars(a: Seq<char>, b: Seq<char>) -> bool
    decreases a.len(),
{
    if b.len() == 0 {
        false
    } else if a.len() == 0 {
        true
    } else if (a[0] as int) < (b[0] as int) {
        true
    } else if a[0] == b[0] {
        lex_lt_chars(a.subrange(1, a.len() as int), b.subrange(1, b.len() as int))
    } else {
        false
    }
}

/// Sequences that agree before position `i` and order at `i` order
/// lexicographically.
proof fn lemma_lex_first_diff(a: Seq<char>, b: Seq<char>, i: int)
    requires
        0 <= i < a.len(),
        i < b.len(),
        forall|j: int| 0 <= j < i ==> a[j] == b[j],
        (a[i] as int) < (b[i] as int),
    ensures
        lex_lt_chars(a, b),
    decreases i,
{
    if i > 0 {
        let a1 = a.subrange(1, a.len() as int);
        let b1 = b.subrange(1, b.len() as int);
        assert(a[0] == b[0]);
        assert forall|j: int| 0 <= j < i - 1 implies a1[j] == b1[j] by {
            assert(a1[j] == a[j + 1]);
            assert(b1[j] == b[j + 1]);
        }
        assert(a1[i - 1] == a[i]);
        assert(b1[i - 1] == b[i]);
        lemma_lex_first_diff(a1, b1, i - 1);
    }
}

/// Canonical strings that agree before position `p` and order at `p` order
/// lexicographically.
proof fn lemma_uuid_str_diff_at(b1: Seq<u8>, b2: Seq<u8>, p: int)
    requires
        b1.len() == 16,
        b2.len() == 16,
        0 <= p < 36,
        forall|q: int| 0 <= q < p ==> uuid_char_at(b1, q) == uuid_char_at(b2, q),
        (uuid_char_at(b1, p) as int) < (uuid_char_at(b2, p) as int),
    ensures
        lex_lt_chars(uuid_str_spec(b1), uuid_str_spec(b2)),
{
    let s1 = uuid_str_spec(b1);
    let s2 = uuid_str_spec(b2);
    assert forall|q: int| 0 <= q < p implies s1[q] == s2[q] by {
        assert(uuid_char_at(b1, q) == uuid_char_at(b2, q));
    }
    lemma_lex_first_diff(s1, s2, p);
}

/// When the bytes before index `i` agree and byte `i` orders, the rendered
/// canonical strings order lexicographically: the first differing nibble of
/// byte `i` decides, and the hexadecimal digits order by code point.
proof fn lemma_uuid_str_byte_decides(b1: Seq<u8>, b2: Seq<u8>, i: int)
    requires
        b1.len() == 16,
        b2.len() == 16,
        0 <= i < 6,
        forall|j: int| 0 <= j < i ==> b1[j] == b2[j],
        b1[i] < b2[i],
    ensures
        lex_lt_chars(uuid_str_spec(b1), uuid_str_spec(b2)),
{
    let x = b1[i];
    let y = b2[i];
    assert(x >> 4 < 16 && y >> 4 < 16 && (x & 0xf) < 16 && (y & 0xf) < 16) by (bit_vector);
    assert(x < y ==> (x >> 4 < y >> 4) || (x >> 4 == y >> 4 && (x & 0xf) < (y & 0xf)))
        by (bit_vector);
    let base: int = if i < 4 {
        2 * i
    } else {
        2 * i + 1
    };
    let p: int = if x >> 4 < y >> 4 {
        base
    } else {
        base + 1
    };
    assert forall|q: int| 0 <= q < p implies uuid_char_at(b1, q) == uuid_char_at(b2, q) by {
        if !uuid_hyphen_pos(q) {
            let j = q - uuid_hyphens_before(q);
            if j / 2 < i {
                assert(b1[j / 2] == b2[j / 2]);
            } else {
                assert(j == 2 * i && x >> 4 == y >> 4);
            }
        }
    }
    if x >> 4 < y >> 4 {
        crate::hex::lemma_hex_digit_mono((x >> 4) as int, (y >> 4) as int);
    } else {
        crate::hex::lemma_hex_digit_mono((x & 0xf) as int, (y & 0xf) as int);
    }
    assert((uuid_char_at(b1, p) as int) < (uuid_char_at(b2, p) as int));
    lemma_uuid_str_diff_at(b1, b2, p);
}

/// The canonical strings of two byte layouts sort as their 48-bit
/// timestamp prefixes do: a strictly smaller big-endian prefix gives a
/// lexicographically smaller string, whatever the remaining bytes hold.
pub proof fn lemma_uuid_str_time_order(b1: Seq<u8>, b2: Seq<u8>)
    requires
        b1.len() == 16,
        b2.len() == 16,
        be48_value(b1) < be48_value(b2),
    ensures
        lex_lt_chars(uuid_str_spec(b1), uuid_str_spec(b2)),
{
    if b1[0] != b2[0] {
        assert(b1[0] < b2[0]);
        lemma_uuid_str_byte_decides(b1, b2, 0);
    } else if b1[1] != b2[1] {
        assert(b1[1] < b2[1]);
        lemma_uuid_str_byte_decides(b1, b2, 1);
    } else if b1[2] != b2[2] {
        assert(b1[2] < b2[2]);
        lemma_uuid_str_byte_decides(b1, b2, 2);
    } else if b1[3] != b2[3] {
        assert(b1[3] < b2[3]);
        lemma_uuid_str_byte_decides(b1, b2, 3);
    } else if b1[4] != b2[4] {
        assert(b1[4] < b2[4]);
        lemma_uuid_str_byte_decides(b1, b2, 4);
    } else {
        assert(b1[5] < b2[5]);
        lemma_uuid_str_byte_decides(b1, b2, 5);
    }
}

/// The string forms of two version-7 layouts sort as their timestamps do:
/// when the low 48 bits of `m1` come before those of `m2`, the rendered
/// canonical string of the first layout precedes that of the second
/// lexicographically, whatever the random fields hold. Within one
/// millisecond the random fields break ties arbitrarily.
pub proof fn lemma_uuidv7_string_time_order(
    m1: u64,
    vr1: u16,
    p1: Seq<u8>,
    m2: u64,
    vr2: u16,
    p2: Seq<u8>,
)
    requires
        p1.len() == 8,
        p2.len() == 8,
        m1 % 0x1_0000_0000_0000 < m2 % 0x1_0000_0000_0000,
    ensures
        lex_lt_chars(
            uuid_str_spec(uuidv7_bytes_spec(m1, vr1, p1)),
            uuid_str_spec(uuidv7_bytes_spec(m2, vr2, p2)),
        ),
{
    lemma_uuidv7_timestamp_roundtrip(m1, vr1, p1);
    lemma_uuidv7_timestamp_roundtrip(m2, vr2, p2);
    lemma_uuid_str_time_order(uuidv7_bytes_spec(m1, vr1, p1), uuidv7_bytes_spec(m2, vr2, p2));
}

/// Whether position `i` of the canonical string holds a hyphen.
pub open spec fn uuid_hyphen_pos(i: int) -> bool {
    i == 8 || i == 13 || i == 18 || i == 23
}

/// How many hyphens stand before position `i` of the canonical string.
pub open spec fn uuid_hyphens_before(i: int) -> int {
    if i < 9 {
        0
    } else if i < 14 {
        1
    } else if i < 19 {
        2
    } else {
        if i < 24 {
            3
        } else {
            4
        }
    }
}

/// The character at position `i` of the canonical string for the 16 bytes
/// `b`: a hyphen at the four fixed positions, elsewhere one hexadecimal
/// digit of the byte the position falls in, high nibble first.
pub open spec fn uuid_char_at(b: Seq<u8>, i: int) -> char {
    if uuid_hyphen_pos(i) {
        '-'
    } else {
        let j = i - uuid_hyphens_before(i);
        if j % 2 == 0 {
            hex_digit((b[j / 2] >> 4) as int)
        } else {
            hex_digit((b[j / 2] & 0xf) as int)
        }
    }
}

/// The canonical 36-character string for the 16 bytes `b`.
pub open spec fn uuid_str_spec(b: Seq<u8>) -> Seq<char> {
    Seq::new(36, |i: int| uuid_char_at(b, i))
}

/// A canonical identifier string: 36 characters, hyphens at exactly the
/// four fixed positions, the version digit at position 14, and lowercase
/// hexadecimal digits everywhere else.
pub open spec fn is_canonical_uuid(s: Seq<char>, version: char) -> bool {
    &&& s.len() == 36
    &&& forall|i: int| 0 <= i < 36 ==> (uuid_hyphen_pos(i) <==> s[i] == '-')
    &&& s[14] == version
    &&& forall|i: int| 0 <= i < 36 && !uuid_hyphen_pos(i) ==> is_hex_char(#[trigger] s[i])
}

/// The canonical string of any 16 bytes is well-formed, and its version
/// digit spells the high nibble of byte 6.
pub proof fn lemma_uuid_str_shape(b: Seq<u8>)
    requires
        b.len() == 16,
    ensures
        is_canonical_uuid(uuid_str_spec(b), hex_digit((b[6] >> 4) as int)),
{
    let s = uuid_str_spec(b);
    assert forall|i: int| 0 <= i < 36 && !uuid_hyphen_pos(i) implies is_hex_char(s[i]) by {
        let j = i - uuid_hyphens_before(i);
        if j % 2 == 0 {
            lemma_hex_digit_is_hex((b[j / 2] >> 4) as int);
        } else {
            lemma_hex_digit_is_hex((b[j / 2] & 0xf) as int);
        }
    }
    assert forall|i: int| 0 <= i < 36 && !uuid_hyphen_pos(i) implies s[i] != '-' by {
        assert(is_hex_char(s[i]));
    }
    assert(s[14] == hex_digit((b[6] >> 4) as int));
}

/// Renders 16 bytes as the canonical hyphenated lowercase-hex string.
pub fn uuid_string_of_bytes(b: &[u8; 16]) -> (s: String)
    ensures
        s@ == uuid_str_spec(b@),
{
    let mut v: Vec<char> = Vec::new();
    let mut i: usize = 0;
    while i < 36
        invariant
            i <= 36,
            v@.len() == i as int,
            forall|k: int| 0 <= k < i ==> v@[k] == uuid_char_at(b@, k),
        decreases 36 - i,
    {
        if i == 8 || i == 13 || i == 18 || i == 23 {
            v.push('-');
        } else {
            let hb: usize = if i < 9 {
                0
            } else if i < 14 {
                1
            } else if i < 19 {
                2
            } else if i < 24 {
                3
            } else {
                4
            };
            let j = i - hb;
            let byte = b[j / 2];
            proof {
                assert(byte >> 4 < 16 && byte & 0xf < 16) by (bit_vector);
            }
            let c = if j % 2 == 0 {
                hex_char(byte >> 4)
            } else {
                hex_char(byte & 0xf)
            };
            v.push(c);
        }
        i += 1;
    }
    let s = chars_to_string(&v);
    proof {
        assert(v@ =~= uuid_str_spec(b@));
    }
    s
}

/// A fresh version-4 identifier string: every character random lowercase
/// hex except the fixed hyphens and the version digit `4`. The variant
/// bits are not pinned.
pub fn create_uuidv4() -> (r: String)
    ensures
        is_canonical_uuid(r@, '4'),
{
    let mut v: Vec<char> = Vec::new();
    let mut i: usize = 0;
    while i < 36
        invariant
            i <= 36,
            v@.len() == i as int,
            forall|k: int| 0 <= k < i ==> (uuid_hyphen_pos(k) <==> v@[k] == '-'),
            14 < i ==> v@[14] == '4',
            forall|k: int| 0 <= k < i && !uuid_hyphen_pos(k) ==> is_hex_char(#[trigger] v@[k]),
        decreases 36 - i,
    {
        if i == 8 || i == 13 || i == 18 || i == 23 {
            v.push('-');
        } else if i == 14 {
            v.push('4');
        } else {
            let idx = sys::rand_below(16);
            let c = hex_char(idx as u8);
            proof {
                lemma_hex_digit_is_hex(idx as int);
            }
            v.push(c);
        }
        i += 1;
    }
    chars_to_string(&v)
}

/// A fresh version-7 identifier: the current Unix-epoch milliseconds in the
/// first six bytes, the version field, then eight random payload bytes. The
/// string form comes back when `as_string` holds, the raw bytes otherwise.
pub fn create_uuidv7(as_string: bool) -> (r: UUIDv7)
    ensures
        as_string ==> (r matches UUIDv7::String(s) && is_canonical_uuid(s@, '7')),
        !as_string ==> (r matches UUIDv7::Bytes(b) && b@.len() == 16 && b@[6] >> 4 == 7),
{
    let millis = sys::unix_millis();
    let version_rand_idx = sys::rand_below(4096);
    let version_rand: u16 = version_rand_idx as u16;
    let payload = sys::rand_payload();
    let bytes = uuidv7_bytes(millis, version_rand, &payload);
    if as_string {
        let s = uuid_string_of_bytes(&bytes);
        proof {
            lemma_uuid_str_shape(bytes@);
        }
        UUIDv7::String(s)
    } else {
        UUIDv7::Bytes(bytes)
    }
}

} // verus!
