//! UTF-8-aware string helpers, indexed in Unicode scalar values.
//!
//! Positions are counted in scalar values, never in bytes. Out-of-range
//! slice requests are clamped to the empty string rather than signalled.

use vstd::prelude::*;

verus! {

/// Relies on `String`'s `FromIterator` impl: collecting characters yields
/// the string made of exactly those characters, in order.
#[verifier::external_body]
pub(crate) fn chars_to_string(v: &Vec<char>) -> (s: String)
    ensures
        s@ == v@,
{
    v.iter().collect()
}

/// What `get_utf8_slice` returns: the scalar values of `s` from `start` up
/// to `end` (one past `end` when `inclusive`), or the empty sequence when
/// the requested range does not lie inside `s`.
pub open spec fn utf8_slice_spec(s: Seq<char>, start: int, end: int, inclusive: bool) -> Seq<
    char,
> {
    let upper = if inclusive {
        end + 1
    } else {
        end
    };
    if 0 <= start && start <= end && upper <= s.len() {
        s.subrange(start, upper)
    } else {
        Seq::empty()
    }
}

/// The substring of `string` spanning scalar values `[start, end)`, or
/// `[start, end]` when `inclusive`. An empty string comes back whenever
/// `end < start` or the range reaches past the end of `string`.
pub fn get_utf8_slice(string: &str, start: usize, end: usize, inclusive: bool) -> (r: String)
    ensures
        r@ == utf8_slice_spec(string@, start as int, end as int, inclusive),
{
    let len = string.unicode_len();
    if end < start {
        return String::new();
    }
    if inclusive {
        if end >= len {
            return String::new();
        }
        let sub = string.substring_char(start, end + 1);
        String::from_str(sub)
    } else {
        if end > len {
            return String::new();
        }
        let sub = string.substring_char(start, end);
        String::from_str(sub)
    }
}

/// `string` with `c` inserted at scalar-value position `idx`; the scalar
/// values before `idx` keep their places and the rest shift right by one.
pub fn insert_utf8_char(string: &str, idx: usize, c: char) -> (r: String)
    requires
        idx <= string@.len(),
    ensures
        r@ == string@.insert(idx as int, c),
{
    let len = string.unicode_len();
    let mut v: Vec<char> = Vec::new();
    let mut i: usize = 0;
    while i < idx
        invariant
            i <= idx <= len == string@.len(),
            v@ == string@.subrange(0, i as int),
        decreases idx - i,
    {
        v.push(string.get_char(i));
        i += 1;
    }
    v.push(c);
    while i < len
        invariant
            idx <= i <= len == string@.len(),
            v@ == string@.subrange(0, idx as int) + seq![c] + string@.subrange(
                idx as int,
                i as int,
            ),
        decreases len - i,
    {
        v.push(string.get_char(i));
        i += 1;
    }
    proof {
        assert(v@ =~= string@.insert(idx as int, c));
    }
    chars_to_string(&v)
}

/// Splits `string` at scalar-value position `split`: the first `split`
/// scalar values, then the rest. A `split` past the end yields two empty
/// strings, as the slice primitive clamps both halves.
pub fn split_uft8(string: &str, split: usize) -> (r: (String, String))
    ensures
        r.0@ == utf8_slice_spec(string@, 0, split as int, false),
        r.1@ == utf8_slice_spec(string@, split as int, string@.len() as int, false),
{
    let len = string.unicode_len();
    (get_utf8_slice(string, 0, split, false), get_utf8_slice(string, split, len, false))
}

/// An exclusive slice of a valid range has exactly `end - start` scalar
/// values; the inclusive form holds one more while `end` stays in range.
pub proof fn lemma_slice_len(s: Seq<char>, start: int, end: int)
    requires
        0 <= start <= end <= s.len(),
    ensures
        utf8_slice_spec(s, start, end, false).len() == end - start,
        end < s.len() ==> utf8_slice_spec(s, start, end, true).len() == end - start + 1,
{
}

/// A slice request outside the string comes back empty: when `end < start`,
/// when `end` passes the scalar-value count, or when the inclusive form
/// would need a scalar value at `end == len`.
pub proof fn lemma_slice_out_of_range(s: Seq<char>, start: int, end: int, inclusive: bool)
    requires
        end < start || end > s.len() || (inclusive && end >= s.len()),
    ensures
        utf8_slice_spec(s, start, end, inclusive) == Seq::<char>::empty(),
{
}

/// Splitting and concatenating restores the string: for any position
/// `0 <= k <= len`, the two halves of `split_uft8` joined in order are the
/// original sequence of scalar values.
pub proof fn lemma_split_concat(s: Seq<char>, k: int)
    requires
        0 <= k <= s.len(),
    ensures
        utf8_slice_spec(s, 0, k, false) + utf8_slice_spec(s, k, s.len() as int, false) == s,
{
    assert(utf8_slice_spec(s, 0, k, false) + utf8_slice_spec(s, k, s.len() as int, false) =~= s);
}

} // verus!
