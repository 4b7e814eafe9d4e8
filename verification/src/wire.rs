//! Shared helpers for the textual command form: locating the `|`
//! separators, comparing byte runs, and relating built strings to their
//! UTF-8 bytes.

use vstd::prelude::*;
use vstd::slice::slice_index_get;
use vstd::utf8::encode_utf8;

verus! {

/// The byte that separates the fields of a textual command.
pub open spec fn sep_byte() -> u8 {
    124
}

/// The first position at or after `i` holding the separator, or the end of
/// the sequence when none is left.
pub open spec fn find_sep(s: Seq<u8>, i: int) -> int
    decreases s.len() - i when 0 <= i <= s.len()
{
    if i >= s.len() {
        s.len() as int
    } else if s[i] == sep_byte() {
        i
    } else {
        find_sep(s, i + 1)
    }
}

/// [`find_sep`] finds exactly the position characterized by "no separator
/// before it, a separator or the end at it".
pub proof fn lemma_find_sep_char(s: Seq<u8>, i: int, p: int)
    requires
        0 <= i <= p <= s.len(),
        forall|j: int| i <= j < p ==> s[j] != sep_byte(),
        p == s.len() || s[p] == sep_byte(),
    ensures
        find_sep(s, i) == p,
    decreases p - i,
{
    if i < p {
        lemma_find_sep_char(s, i + 1, p);
    }
}

/// Executable twin of [`find_sep`].
pub fn find_sep_from(bytes: &[u8], from: usize) -> (r: usize)
    requires
        from <= bytes@.len(),
    ensures
        r == find_sep(bytes@, from as int),
        from <= r <= bytes@.len(),
{
    let n = bytes.len();
    let mut i: usize = from;
    while i < n
        invariant
            from <= i <= n,
            n == bytes@.len(),
            find_sep(bytes@, from as int) == find_sep(bytes@, i as int),
        decreases n - i,
    {
        if *slice_index_get(bytes, i) == 124 {
            return i;
        }
        i = i + 1;
    }
    n
}

/// Whether two byte slices hold the same bytes.
pub fn slice_eq_bytes(a: &[u8], b: &[u8]) -> (r: bool)
    ensures
        r == (a@ == b@),
{
    if a.len() != b.len() {
        proof {
            assert(a@ != b@);
        }
        return false;
    }
    let n = a.len();
    let mut i: usize = 0;
    while i < n
        invariant
            i <= n,
            n == a@.len() == b@.len(),
            forall|j: int| 0 <= j < i ==> a@[j] == b@[j],
        decreases n - i,
    {
        if *slice_index_get(a, i) != *slice_index_get(b, i) {
            proof {
                assert(a@ != b@);
            }
            return false;
        }
        i = i + 1;
    }
    proof {
        assert(a@ =~= b@);
    }
    true
}

/// UTF-8 encoding distributes over concatenation of character sequences.
pub proof fn lemma_encode_utf8_concat(a: Seq<char>, b: Seq<char>)
    ensures
        encode_utf8(a + b) == encode_utf8(a) + encode_utf8(b),
    decreases a.len(),
{
    if a.len() == 0 {
        assert(a + b =~= b);
        assert(encode_utf8(a) + encode_utf8(b) =~= encode_utf8(b));
    } else {
        assert((a + b)[0] == a[0]);
        assert((a + b).drop_first() =~= a.drop_first() + b);
        lemma_encode_utf8_concat(a.drop_first(), b);
        assert(vstd::utf8::encode_scalar(a[0] as u32) + (encode_utf8(a.drop_first())
            + encode_utf8(b)) =~= (vstd::utf8::encode_scalar(a[0] as u32) + encode_utf8(
            a.drop_first(),
        )) + encode_utf8(b));
    }
}

/// The character sequence of the one-character separator string encodes to
/// the single separator byte.
pub proof fn lemma_sep_literal()
    ensures
        "|"@.len() == 1,
        encode_utf8("|"@) =~= seq![sep_byte()],
{
    reveal_strlit("|");
    assert(vstd::utf8::is_ascii_chars("|"@));
    vstd::utf8::is_ascii_chars_encode_utf8("|"@);
    assert("|"@[0] == '|');
}

} // verus!
