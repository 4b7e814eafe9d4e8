//! The command that fetches one topic: a stream identifier and a topic
//! identifier, in binary as the two identifier encodings back to back, in
//! text as the two identifiers separated by `|`.

use vstd::prelude::*;
use vstd::utf8::encode_utf8;
use vstd::slice::slice_subrange;
use vstd::string::StringSliceAdditionalSpecFns;
use vstd::string::StringExecFns;
use crate::error::IggyError;
use crate::identifier::{Identifier, IdModel, id_wf, id_encoding, id_size, id_parse, id_text,
    id_text_parse, id_text_unambiguous, lemma_id_encoding_parse, lemma_id_text_parse,
    id_from_text_bytes, all_digits, is_digit_byte};
use crate::wire::{find_sep, find_sep_from, sep_byte, lemma_find_sep_char,
    lemma_encode_utf8_concat, lemma_sep_literal};

verus! {

/// Fetch one topic of one stream.
#[derive(Debug)]
pub struct GetTopic {
    pub stream_id: Identifier,
    pub topic_id: Identifier,
}

/// The binary payload of the command: the two identifier encodings.
pub open spec fn get_topic_encoding(a: IdModel, b: IdModel) -> Seq<u8> {
    id_encoding(a) + id_encoding(b)
}

/// Decoding the binary payload: both identifiers must decode in sequence
/// from a payload of at least six bytes.
pub open spec fn get_topic_parse(bytes: Seq<u8>) -> Option<(IdModel, IdModel)> {
    if bytes.len() < 6 {
        None
    } else {
        match id_parse(bytes) {
            None => None,
            Some(a) => match id_parse(bytes.skip(id_size(a))) {
                None => None,
                Some(b) => Some((a, b)),
            },
        }
    }
}

/// The textual form: the two identifiers separated by `|`.
pub open spec fn get_topic_text(a: IdModel, b: IdModel) -> Seq<u8> {
    id_text(a) + seq![sep_byte()] + id_text(b)
}

/// Reading the textual form back: exactly two `|`-separated fields, each a
/// well-formed identifier.
pub open spec fn get_topic_text_parse(s: Seq<u8>) -> Option<(IdModel, IdModel)> {
    let p = find_sep(s, 0);
    if p == s.len() {
        None
    } else if find_sep(s, p + 1) != s.len() {
        None
    } else {
        match (id_text_parse(s.take(p)), id_text_parse(s.subrange(p + 1, s.len() as int))) {
            (Some(a), Some(b)) => Some((a, b)),
            _ => None,
        }
    }
}

impl GetTopic {
    /// Both identifiers are well formed.
    pub open spec fn wf(self) -> bool {
        id_wf(self.stream_id.model()) && id_wf(self.topic_id.model())
    }

    /// Nothing beyond well-formedness is checked for this command.
    pub fn validate(&self) -> (r: Result<(), IggyError>)
        ensures
            r is Ok,
    {
        Ok(())
    }

    /// The binary payload: both identifier encodings back to back.
    pub fn as_bytes(&self) -> (r: Vec<u8>)
        requires
            self.wf(),
        ensures
            r@ == get_topic_encoding(self.stream_id.model(), self.topic_id.model()),
    {
        let mut bytes = self.stream_id.as_bytes();
        let mut topic_bytes = self.topic_id.as_bytes();
        bytes.append(&mut topic_bytes);
        proof {
            assert(bytes@ =~= get_topic_encoding(self.stream_id.model(), self.topic_id.model()));
        }
        bytes
    }

    /// Decodes the binary payload; succeeds exactly when two well-formed
    /// identifier encodings fill the front of `bytes`.
    pub fn from_bytes(bytes: &[u8]) -> (r: Result<GetTopic, IggyError>)
        ensures
            match r {
                Ok(c) => c.wf() && get_topic_parse(bytes@) == Some(
                    (c.stream_id.model(), c.topic_id.model()),
                ),
                Err(e) => get_topic_parse(bytes@) is None && e == IggyError::InvalidCommand,
            },
    {
        if bytes.len() < 6 {
            return Err(IggyError::InvalidCommand);
        }
        let stream_id = Identifier::from_bytes(bytes)?;
        let consumed = stream_id.get_size_bytes() as usize;
        let rest = slice_subrange(bytes, consumed, bytes.len());
        proof {
            assert(rest@ =~= bytes@.skip(id_size(stream_id.model())));
        }
        let topic_id = Identifier::from_bytes(rest)?;
        Ok(GetTopic { stream_id, topic_id })
    }

    /// The textual form: the two identifiers separated by `|`.
    pub fn to_text(&self) -> (r: String)
        requires
            self.wf(),
        ensures
            encode_utf8(r@) == get_topic_text(self.stream_id.model(), self.topic_id.model()),
    {
        let mut s = self.stream_id.to_text();
        let t = self.topic_id.to_text();
        let ghost s0 = s@;
        s.append("|");
        let ghost s1 = s@;
        s.append(t.as_str());
        proof {
            lemma_sep_literal();
            lemma_encode_utf8_concat(s0, "|"@);
            lemma_encode_utf8_concat(s1, t@);
            assert(encode_utf8(s@) =~= get_topic_text(
                self.stream_id.model(),
                self.topic_id.model(),
            ));
        }
        s
    }

    /// Reads the textual form back; succeeds exactly on two `|`-separated
    /// well-formed identifiers.
    pub fn from_str(input: &str) -> (r: Result<GetTopic, IggyError>)
        ensures
            match r {
                Ok(c) => c.wf() && get_topic_text_parse(input.spec_bytes()) == Some(
                    (c.stream_id.model(), c.topic_id.model()),
                ),
                Err(e) => get_topic_text_parse(input.spec_bytes()) is None
                    && e == IggyError::InvalidCommand,
            },
    {
        let bytes = input.as_bytes();
        let p = find_sep_from(bytes, 0);
        if p == bytes.len() {
            return Err(IggyError::InvalidCommand);
        }
        let q = find_sep_from(bytes, p + 1);
        if q != bytes.len() {
            return Err(IggyError::InvalidCommand);
        }
        let part1 = slice_subrange(bytes, 0, p);
        let part2 = slice_subrange(bytes, p + 1, bytes.len());
        proof {
            assert(part1@ =~= bytes@.take(p as int));
            assert(part2@ =~= bytes@.subrange(p + 1, bytes@.len() as int));
        }
        let stream_id = id_from_text_bytes(part1)?;
        let topic_id = id_from_text_bytes(part2)?;
        Ok(GetTopic { stream_id, topic_id })
    }
}

/// A digit run never holds the field separator.
pub proof fn lemma_digits_sep_free(s: Seq<u8>)
    requires
        all_digits(s),
    ensures
        forall|i: int| 0 <= i < s.len() ==> s[i] != sep_byte(),
{
    assert forall|i: int| 0 <= i < s.len() implies s[i] != sep_byte() by {
        assert(is_digit_byte(s[i]));
    }
}

/// Whether the textual form of an identifier is free of the field
/// separator; every digit run is, and names are exactly when they do not
/// contain `|`.
pub open spec fn id_text_sep_free(m: IdModel) -> bool {
    forall|i: int| 0 <= i < id_text(m).len() ==> #[trigger] id_text(m)[i] != sep_byte()
}

/// Encoding then decoding the binary payload yields the command back.
pub proof fn lemma_get_topic_round_trip(a: IdModel, b: IdModel)
    requires
        id_wf(a),
        id_wf(b),
    ensures
        get_topic_parse(get_topic_encoding(a, b)) == Some((a, b)),
{
    let whole = get_topic_encoding(a, b);
    lemma_id_encoding_parse(a, id_encoding(b));
    lemma_id_encoding_parse(b, Seq::<u8>::empty());
    assert(whole.skip(id_size(a)) =~= id_encoding(b));
    assert(id_encoding(b) + Seq::<u8>::empty() =~= id_encoding(b));
}

/// Printing then parsing the textual form yields the command back, for
/// identifiers whose text is separator-free and does not read as a number
/// when it is a name.
pub proof fn lemma_get_topic_text_round_trip(a: IdModel, b: IdModel)
    requires
        id_wf(a),
        id_wf(b),
        id_text_unambiguous(a),
        id_text_unambiguous(b),
        id_text_sep_free(a),
        id_text_sep_free(b),
    ensures
        get_topic_text_parse(get_topic_text(a, b)) == Some((a, b)),
{
    let ta = id_text(a);
    let tb = id_text(b);
    let s = get_topic_text(a, b);
    lemma_id_text_parse(a);
    lemma_id_text_parse(b);
    assert forall|j: int| 0 <= j < ta.len() implies s[j] != sep_byte() by {
        assert(s[j] == ta[j]);
    }
    assert(s[ta.len() as int] == sep_byte());
    lemma_find_sep_char(s, 0, ta.len() as int);
    assert forall|j: int| ta.len() as int + 1 <= j < s.len() as int implies s[j] != sep_byte() by {
        assert(s[j] == tb[j - ta.len() - 1]);
    }
    lemma_find_sep_char(s, ta.len() as int + 1, s.len() as int);
    assert(s.take(ta.len() as int) =~= ta);
    assert(s.subrange(ta.len() as int + 1, s.len() as int) =~= tb);
}

} // verus!
