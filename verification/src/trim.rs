//! ASCII whitespace trimming on byte slices.

use vstd::prelude::*;

verus! {

/// The five ASCII whitespace bytes: space, tab, line feed, form feed,
/// carriage return.
pub open spec fn is_ascii_ws(b: u8) -> bool {
    b == 32 || b == 9 || b == 10 || b == 12 || b == 13
}

/// `s` without its leading ASCII whitespace bytes.
pub open spec fn drop_leading_ws(s: Seq<u8>) -> Seq<u8>
    decreases s.len(),
{
    if s.len() > 0 && is_ascii_ws(s[0]) {
        drop_leading_ws(s.subrange(1, s.len() as int))
    } else {
        s
    }
}

/// `s` without its trailing ASCII whitespace bytes.
pub open spec fn drop_trailing_ws(s: Seq<u8>) -> Seq<u8>
    decreases s.len(),
{
    if s.len() > 0 && is_ascii_ws(s[s.len() - 1]) {
        drop_trailing_ws(s.subrange(0, s.len() - 1))
    } else {
        s
    }
}

/// What `trim_ascii_whitespace` returns: `s` without leading and trailing
/// ASCII whitespace. Interior whitespace stays.
pub open spec fn trim_ws_spec(s: Seq<u8>) -> Seq<u8> {
    drop_trailing_ws(drop_leading_ws(s))
}

/// When the first `i` bytes are whitespace and byte `i` (if any) is not,
/// dropping leading whitespace keeps exactly the bytes from `i` on.
proof fn lemma_drop_leading_at(s: Seq<u8>, i: int)
    requires
        0 <= i <= s.len(),
        forall|j: int| 0 <= j < i ==> is_ascii_ws(s[j]),
        i == s.len() || !is_ascii_ws(s[i]),
    ensures
        drop_leading_ws(s) == s.subrange(i, s.len() as int),
    decreases i,
{
    if i == 0 {
        assert(s.subrange(0, s.len() as int) =~= s);
    } else {
        let t = s.subrange(1, s.len() as int);
        lemma_drop_leading_at(t, i - 1);
        assert(t.subrange(i - 1, t.len() as int) =~= s.subrange(i, s.len() as int));
    }
}

/// When the bytes from `i` on are whitespace and byte `i - 1` (if any) is
/// not, dropping trailing whitespace keeps exactly the first `i` bytes.
proof fn lemma_drop_trailing_at(s: Seq<u8>, i: int)
    requires
        0 <= i <= s.len(),
        forall|j: int| i <= j < s.len() ==> is_ascii_ws(s[j]),
        i == 0 || !is_ascii_ws(s[i - 1]),
    ensures
        drop_trailing_ws(s) == s.subrange(0, i),
    decreases s.len() - i,
{
    if i == s.len() {
        assert(s.subrange(0, s.len() as int) =~= s);
    } else {
        let t = s.subrange(0, s.len() - 1);
        lemma_drop_trailing_at(t, i);
        assert(t.subrange(0, i) =~= s.subrange(0, i));
    }
}

/// The sub-slice of `x` with leading and trailing ASCII whitespace removed;
/// empty when every byte of `x` is whitespace. No bytes are copied.
pub fn trim_ascii_whitespace(x: &[u8]) -> (r: &[u8])
    ensures
        r@ == trim_ws_spec(x@),
{
    let n = x.len();
    let mut from: usize = 0;
    while from < n && is_ws_byte(x[from])
        invariant
            0 <= from <= n == x@.len(),
            forall|j: int| 0 <= j < from ==> is_ascii_ws(x@[j]),
        decreases n - from,
    {
        from += 1;
    }
    proof {
        lemma_drop_leading_at(x@, from as int);
    }
    if from == n {
        proof {
            assert(x@.subrange(n as int, n as int) =~= Seq::<u8>::empty());
        }
        return vstd::slice::slice_subrange(x, 0, 0);
    }
    let mut to: usize = n;
    while is_ws_byte(x[to - 1])
        invariant
            from < to <= n == x@.len(),
            !is_ascii_ws(x@[from as int]),
            forall|j: int| to <= j < n ==> is_ascii_ws(x@[j]),
        decreases to,
    {
        to -= 1;
    }
    proof {
        let lead = x@.subrange(from as int, n as int);
        lemma_drop_trailing_at(lead, to - from);
        assert(lead.subrange(0, to - from) =~= x@.subrange(from as int, to as int));
    }
    vstd::slice::slice_subrange(x, from, to)
}

/// Whether `b` is an ASCII whitespace byte.
fn is_ws_byte(b: u8) -> (r: bool)
    ensures
        r == is_ascii_ws(b),
{
    b == 32 || b == 9 || b == 10 || b == 12 || b == 13
}

} // verus!
