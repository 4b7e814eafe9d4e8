//! Resource-name handling: validation, normalization, and base64 payloads.
//!
//! A resource name is matched against the character class of word
//! characters, `.`, `-` and whitespace; before names are compared they are
//! normalized to lowercase with every run of whitespace collapsed to a
//! single `.`.

use vstd::prelude::*;
use vstd::string::StrSliceExecFns;
use base64::Engine;
use crate::error::IggyError;

verus! {

/// What `str::to_lowercase` returns for a given character sequence.
pub uninterp spec fn lower_of(s: Seq<char>) -> Seq<char>;

/// Whether `char::is_whitespace` holds of a character.
pub uninterp spec fn is_space_char(c: char) -> bool;

/// Whether the resource-name pattern (one or more word characters, `.`,
/// `-` or whitespace, and nothing else) matches a character sequence.
pub uninterp spec fn name_matches(s: Seq<char>) -> bool;

/// What standard-alphabet base64 decoding returns for a character
/// sequence: the decoded bytes, or nothing when the input is not valid
/// base64.
pub uninterp spec fn base64_decoding(s: Seq<char>) -> Option<Seq<u8>>;

/// Relies on `str::to_lowercase`: the result depends on the characters
/// alone, an empty input gives an empty output, and lowercasing is
/// idempotent — the result is already lowercase, so lowercasing it again
/// changes nothing.
#[verifier::external_body]
fn lowercase(s: &str) -> (r: String)
    ensures
        r@ == lower_of(s@),
        s@.len() == 0 ==> r@.len() == 0,
        lower_of(r@) == r@,
{
    s.to_lowercase()
}

/// Relies on `char::is_whitespace`: a pure predicate on the character,
/// false on `.` (which has no White_Space property).
#[verifier::external_body]
fn char_is_space(c: char) -> (r: bool)
    ensures
        r == is_space_char(c),
        c == '.' ==> r == false,
{
    c.is_whitespace()
}

/// Relies on `regex::Regex::is_match` with the fixed resource-name
/// pattern; `Regex::new` cannot fail on this constant, valid pattern, so
/// the `unwrap` never panics.  The pattern demands at least one
/// character, so the empty string never matches.
#[verifier::external_body]
fn resource_name_regex_is_match(value: &str) -> (r: bool)
    ensures
        r == name_matches(value@),
        value@.len() == 0 ==> r == false,
{
    regex::Regex::new("^[\\w\\.\\-\\s]+$").unwrap().is_match(value)
}

/// Relies on `base64::Engine::decode` with the standard alphabet: decoding
/// is a function of the characters alone, and fails exactly on inputs that
/// are not valid base64.
#[verifier::external_body]
fn base64_decode_standard(value: &str) -> (r: Option<Vec<u8>>)
    ensures
        match r {
            Some(v) => base64_decoding(value@) == Some(v@),
            None => base64_decoding(value@) == Option::<Seq<u8>>::None,
        },
{
    match base64::engine::general_purpose::STANDARD.decode(value) {
        Ok(v) => Some(v),
        Err(_) => None,
    }
}

/// Relies on `core::str::from_utf8`: it succeeds exactly on the byte
/// sequences that are valid UTF-8.
#[verifier::external_body]
pub fn utf8_is_valid(bytes: &[u8]) -> (r: bool)
    ensures
        r == vstd::utf8::valid_utf8(bytes@),
{
    core::str::from_utf8(bytes).is_ok()
}

/// Relies on `String::from_utf8`: it succeeds exactly on valid UTF-8, and
/// the characters of the result encode back to the input bytes.
#[verifier::external_body]
pub fn bytes_to_string(v: Vec<u8>) -> (r: Option<String>)
    ensures
        match r {
            Some(s) => vstd::utf8::valid_utf8(v@) && vstd::utf8::encode_utf8(s@) == v@,
            None => !vstd::utf8::valid_utf8(v@),
        },
{
    match String::from_utf8(v) {
        Ok(s) => Some(s),
        Err(_) => None,
    }
}

/// Relies on `String::from_iter` over `core::slice::Iter`: collecting a
/// vector of characters yields the string of exactly those characters.
#[verifier::external_body]
fn string_from_chars(v: &Vec<char>) -> (r: String)
    ensures
        r@ == v@,
{
    v.iter().collect()
}

/// The normalized form of a character sequence: leading and trailing
/// whitespace dropped, and every remaining run of whitespace replaced by a
/// single `.`.
pub open spec fn collapse_ws(s: Seq<char>) -> Seq<char>
    decreases s.len(),
{
    if s.len() == 0 {
        Seq::<char>::empty()
    } else if is_space_char(s[0]) {
        collapse_ws(s.drop_first())
    } else {
        seq![s[0]] + collapse_in_word(s.drop_first())
    }
}

/// [`collapse_ws`] continued from inside a word: a whitespace run ends the
/// word, and contributes a single `.` only when another word follows.
pub open spec fn collapse_in_word(s: Seq<char>) -> Seq<char>
    decreases s.len(),
{
    if s.len() == 0 {
        Seq::<char>::empty()
    } else if !is_space_char(s[0]) {
        seq![s[0]] + collapse_in_word(s.drop_first())
    } else if collapse_ws(s.drop_first()).len() == 0 {
        Seq::<char>::empty()
    } else {
        seq!['.'] + collapse_ws(s.drop_first())
    }
}

/// No character of a collapsed sequence is whitespace, as long as the
/// separator `.` itself is not.
proof fn lemma_collapse_no_space(s: Seq<char>)
    requires
        !is_space_char('.'),
    ensures
        forall|i: int| 0 <= i < collapse_ws(s).len() ==> !is_space_char(
            #[trigger] collapse_ws(s)[i],
        ),
        forall|i: int| 0 <= i < collapse_in_word(s).len() ==> !is_space_char(
            #[trigger] collapse_in_word(s)[i],
        ),
    decreases s.len(),
{
    if s.len() > 0 {
        lemma_collapse_no_space(s.drop_first());
        if is_space_char(s[0]) {
            assert forall|i: int| 0 <= i < collapse_in_word(s).len() implies !is_space_char(
                #[trigger] collapse_in_word(s)[i],
            ) by {
                if collapse_ws(s.drop_first()).len() != 0 {
                    if i == 0 {
                        assert(collapse_in_word(s)[0] == '.');
                    } else {
                        assert(collapse_in_word(s)[i] == collapse_ws(s.drop_first())[i - 1]);
                    }
                }
            }
        } else {
            assert forall|i: int| 0 <= i < collapse_ws(s).len() implies !is_space_char(
                #[trigger] collapse_ws(s)[i],
            ) by {
                if i == 0 {
                    assert(collapse_ws(s)[0] == s[0]);
                } else {
                    assert(collapse_ws(s)[i] == collapse_in_word(s.drop_first())[i - 1]);
                }
            }
            assert forall|i: int| 0 <= i < collapse_in_word(s).len() implies !is_space_char(
                #[trigger] collapse_in_word(s)[i],
            ) by {
                if i == 0 {
                    assert(collapse_in_word(s)[0] == s[0]);
                } else {
                    assert(collapse_in_word(s)[i] == collapse_in_word(s.drop_first())[i - 1]);
                }
            }
        }
    }
}

/// A sequence without whitespace collapses to itself.
proof fn lemma_collapse_fixed(s: Seq<char>)
    requires
        forall|i: int| 0 <= i < s.len() ==> !is_space_char(#[trigger] s[i]),
    ensures
        collapse_ws(s) == s,
        collapse_in_word(s) == s,
    decreases s.len(),
{
    if s.len() == 0 {
        assert(collapse_ws(s) =~= s);
    } else {
        assert(forall|i: int| 0 <= i < s.drop_first().len() ==> !is_space_char(
            #[trigger] s.drop_first()[i],
        ));
        lemma_collapse_fixed(s.drop_first());
        assert(collapse_ws(s) =~= s);
        assert(collapse_in_word(s) =~= s);
    }
}

/// The stored, comparable form of a name: lowercased with whitespace
/// runs collapsed to `.`, re-encoded as UTF-8 bytes.
pub open spec fn stored_name(nm: Seq<char>) -> Seq<u8> {
    vstd::utf8::encode_utf8(collapse_ws(lower_of(nm)))
}

/// The normal form of a name given as UTF-8 bytes; meaningful on valid
/// UTF-8.
pub open spec fn normal_name(bytes: Seq<u8>) -> Seq<u8> {
    stored_name(vstd::utf8::decode_utf8(bytes))
}

/// Lowercases `value` and collapses each whitespace run to a single `.`,
/// the form under which resource names are compared.
pub fn to_lowercase_non_whitespace(value: &str) -> (r: String)
    ensures
        r@ == collapse_ws(lower_of(value@)),
        collapse_ws(r@) == r@,
        lower_of(r@) == r@ ==> collapse_ws(lower_of(r@)) == r@,
{
    let lowered = lowercase(value);
    let lowered_str = lowered.as_str();
    let n = lowered_str.unicode_len();
    let mut out: Vec<char> = Vec::new();
    let mut started: bool = false;
    let mut gap: bool = false;
    let ghost full = lowered_str@;
    proof {
        assert(full.skip(0) =~= full);
    }
    let mut i: usize = 0;
    while i < n
        invariant
            n == full.len(),
            full == lowered_str@,
            i <= n,
            gap ==> started,
            !started ==> out@ =~= Seq::<char>::empty(),
            !started && !gap ==> collapse_ws(full) == collapse_ws(full.skip(i as int)),
            started && !gap ==> collapse_ws(full) == out@ + collapse_in_word(
                full.skip(i as int),
            ),
            started && gap ==> collapse_ws(full) == out@ + (
            if collapse_ws(full.skip(i as int)).len() == 0 {
                Seq::<char>::empty()
            } else {
                seq!['.'] + collapse_ws(full.skip(i as int))
            }),
        decreases n - i,
    {
        let c = lowered_str.get_char(i);
        proof {
            assert(full.skip(i as int)[0] == full[i as int]);
            assert(full.skip(i as int).drop_first() =~= full.skip(i as int + 1));
        }
        if char_is_space(c) {
            if started {
                gap = true;
            }
        } else {
            if gap {
                out.push('.');
                out.push(c);
                gap = false;
            } else {
                out.push(c);
                started = true;
            }
        }
        i = i + 1;
    }
    proof {
        assert(full.skip(n as int) =~= Seq::<char>::empty());
    }
    // The call pins the separator's character class for the proof below.
    let _dot_is_space = char_is_space('.');
    proof {
        assert(!is_space_char('.'));
        lemma_collapse_no_space(full);
        lemma_collapse_fixed(out@);
    }
    string_from_chars(&out)
}

/// Whether `value` is a legal resource name: one or more word characters,
/// `.`, `-` or whitespace, and nothing else.
pub fn is_resource_name_valid(value: &str) -> (r: bool)
    ensures
        r == name_matches(value@),
        value@.len() == 0 ==> r == false,
{
    resource_name_regex_is_match(value)
}

/// The storage form of a name: its normalization as UTF-8 bytes.
pub fn normalize_str_name(name: &str) -> (r: Vec<u8>)
    ensures
        r@ == stored_name(name@),
{
    let normal = to_lowercase_non_whitespace(name);
    normal.as_str().as_bytes_vec()
}

/// The normal form of a name handed over as bytes; rejects invalid
/// UTF-8, which no identifier name holds.
pub fn normalize_name_bytes(bytes: &[u8]) -> (r: Option<Vec<u8>>)
    ensures
        match r {
            Some(v) => vstd::utf8::valid_utf8(bytes@) && v@ == normal_name(bytes@),
            None => !vstd::utf8::valid_utf8(bytes@),
        },
{
    match bytes_to_string(vstd::slice::slice_to_vec(bytes)) {
        None => None,
        Some(s) => {
            proof {
                vstd::utf8::encode_utf8_decode_utf8(s@);
            }
            let normal = to_lowercase_non_whitespace(s.as_str());
            Some(normal.as_str().as_bytes_vec())
        },
    }
}

/// Decodes a standard-alphabet base64 string, reporting malformed input as
/// [`IggyError::InvalidFormat`].
pub fn from_base64_as_bytes(value: &str) -> (r: Result<Vec<u8>, IggyError>)
    ensures
        match r {
            Ok(v) => base64_decoding(value@) == Some(v@),
            Err(e) => base64_decoding(value@) == Option::<Seq<u8>>::None
                && e == IggyError::InvalidFormat,
        },
{
    match base64_decode_standard(value) {
        Some(v) => Ok(v),
        None => Err(IggyError::InvalidFormat),
    }
}

} // verus!
