//! The command that reads a stored consumer offset: a consumer, a stream
//! and topic identifier, and an optional partition id.  On the wire the
//! missing partition id is carried as `0`, and `0` decodes back to
//! "not given": partition ids are 1-indexed, so no real id is lost.

use vstd::prelude::*;
use vstd::bytes::{spec_u32_to_le_bytes, spec_u32_from_le_bytes, u32_from_le_bytes,
    u32_to_le_bytes};
use vstd::utf8::encode_utf8;
use vstd::slice::slice_subrange;
use vstd::string::StringSliceAdditionalSpecFns;
use vstd::string::StringExecFns;
use crate::error::IggyError;
use crate::consumer::{Consumer, ConsumerKind, consumer_encoding, consumer_parse, kind_text,
    kind_text_parse, lemma_consumer_round_trip};
use crate::identifier::{Identifier, IdModel, id_wf, id_encoding, id_size, id_parse, id_text,
    id_text_parse, id_text_unambiguous, lemma_id_encoding_parse, lemma_id_text_parse,
    id_from_text_bytes, parse_u32_bytes, u32_text_parse, u32_to_text, dec_digits,
    lemma_dec_digits, lemma_digits_val_nonneg, all_digits};
use crate::get_topic::{id_text_sep_free, lemma_digits_sep_free};
use crate::wire::{find_sep, find_sep_from, sep_byte, lemma_find_sep_char,
    lemma_encode_utf8_concat, lemma_sep_literal};

verus! {

/// Read the stored offset of a consumer in one partition of a topic.
#[derive(Debug)]
pub struct GetConsumerOffset {
    pub consumer: Consumer,
    pub stream_id: Identifier,
    pub topic_id: Identifier,
    pub partition_id: Option<u32>,
}

/// The partition id to use when a command does not name one.
pub fn default_partition_id() -> (r: Option<u32>)
    ensures
        r == Some(1u32),
{
    Some(1)
}

/// The wire form of an optional partition id: the id, or `0` for "not
/// given".
pub open spec fn partition_code(p: Option<u32>) -> u32 {
    match p {
        Some(x) => x,
        None => 0,
    }
}

/// The binary payload: consumer, both identifiers, then the partition id.
pub open spec fn gco_encoding(c: Consumer, a: IdModel, b: IdModel, p: Option<u32>) -> Seq<u8> {
    consumer_encoding(c) + id_encoding(a) + id_encoding(b) + spec_u32_to_le_bytes(
        partition_code(p),
    )
}

/// Decoding the binary payload: at least 15 bytes, a consumer, two
/// identifiers, and four final bytes whose zero value means "no
/// partition".
pub open spec fn gco_parse(bytes: Seq<u8>) -> Option<(Consumer, IdModel, IdModel, Option<u32>)> {
    if bytes.len() < 15 {
        None
    } else {
        match consumer_parse(bytes) {
            None => None,
            Some(c) => {
                let r1 = bytes.skip(5);
                match id_parse(r1) {
                    None => None,
                    Some(a) => {
                        let r2 = r1.skip(id_size(a));
                        match id_parse(r2) {
                            None => None,
                            Some(b) => {
                                let r3 = r2.skip(id_size(b));
                                if r3.len() < 4 {
                                    None
                                } else {
                                    let v = spec_u32_from_le_bytes(r3.subrange(0, 4));
                                    Some(
                                        (
                                            c,
                                            a,
                                            b,
                                            if v == 0 {
                                                None
                                            } else {
                                                Some(v)
                                            },
                                        ),
                                    )
                                }
                            },
                        }
                    },
                }
            },
        }
    }
}

/// The textual form: kind, consumer id, stream, topic and partition id,
/// separated by `|`; a missing partition id prints as `0`.
pub open spec fn gco_text(c: Consumer, a: IdModel, b: IdModel, p: Option<u32>) -> Seq<u8> {
    kind_text(c.kind) + seq![sep_byte()] + dec_digits(c.id as int) + seq![sep_byte()] + id_text(a)
        + seq![sep_byte()] + id_text(b) + seq![sep_byte()] + dec_digits(
        partition_code(p) as int,
    )
}

/// Reading the textual form back: exactly five `|`-separated fields.
pub open spec fn gco_text_parse(s: Seq<u8>) -> Option<(Consumer, IdModel, IdModel, Option<u32>)> {
    let p1 = find_sep(s, 0);
    let p2 = find_sep(s, p1 + 1);
    let p3 = find_sep(s, p2 + 1);
    let p4 = find_sep(s, p3 + 1);
    if p1 == s.len() || p2 == s.len() || p3 == s.len() || p4 == s.len() || find_sep(s, p4 + 1)
        != s.len() {
        None
    } else {
        let parts = (
            kind_text_parse(s.take(p1)),
            u32_text_parse(s.subrange(p1 + 1, p2)),
            id_text_parse(s.subrange(p2 + 1, p3)),
            id_text_parse(s.subrange(p3 + 1, p4)),
            u32_text_parse(s.subrange(p4 + 1, s.len() as int)),
        );
        match parts {
            (Some(k), Some(cid), Some(a), Some(b), Some(v)) => Some(
                (
                    Consumer { kind: k, id: cid },
                    a,
                    b,
                    if v == 0 {
                        None
                    } else {
                        Some(v)
                    },
                ),
            ),
            _ => None,
        }
    }
}

impl GetConsumerOffset {
    /// Both identifiers are well formed, and a named partition id is
    /// non-zero.
    pub open spec fn wf(self) -> bool {
        &&& id_wf(self.stream_id.model())
        &&& id_wf(self.topic_id.model())
        &&& (self.partition_id matches Some(x) ==> x >= 1)
    }

    /// Nothing beyond well-formedness is checked for this command.
    pub fn validate(&self) -> (r: Result<(), IggyError>)
        ensures
            r is Ok,
    {
        Ok(())
    }

    /// The binary payload: consumer, identifiers, partition id.
    pub fn as_bytes(&self) -> (r: Vec<u8>)
        requires
            self.wf(),
        ensures
            r@ == gco_encoding(
                self.consumer,
                self.stream_id.model(),
                self.topic_id.model(),
                self.partition_id,
            ),
    {
        let mut bytes = self.consumer.as_bytes();
        let mut stream_bytes = self.stream_id.as_bytes();
        let mut topic_bytes = self.topic_id.as_bytes();
        bytes.append(&mut stream_bytes);
        bytes.append(&mut topic_bytes);
        let code: u32 = match self.partition_id {
            Some(x) => x,
            None => 0,
        };
        let le = u32_to_le_bytes(code);
        bytes.push(le[0]);
        bytes.push(le[1]);
        bytes.push(le[2]);
        bytes.push(le[3]);
        proof {
            assert(bytes@ =~= gco_encoding(
                self.consumer,
                self.stream_id.model(),
                self.topic_id.model(),
                self.partition_id,
            ));
        }
        bytes
    }

    /// Decodes the binary payload; succeeds exactly when a consumer, two
    /// identifiers and a partition id fill the front of `bytes`.
    pub fn from_bytes(bytes: &[u8]) -> (r: Result<GetConsumerOffset, IggyError>)
        ensures
            match r {
                Ok(c) => c.wf() && gco_parse(bytes@) == Some(
                    (c.consumer, c.stream_id.model(), c.topic_id.model(), c.partition_id),
                ),
                Err(e) => gco_parse(bytes@) is None && e == IggyError::InvalidCommand,
            },
    {
        if bytes.len() < 15 {
            return Err(IggyError::InvalidCommand);
        }
        let consumer = Consumer::from_bytes(bytes)?;
        let rest1 = slice_subrange(bytes, 5, bytes.len());
        proof {
            assert(rest1@ =~= bytes@.skip(5));
        }
        let stream_id = Identifier::from_bytes(rest1)?;
        let consumed1 = stream_id.get_size_bytes() as usize;
        let rest2 = slice_subrange(rest1, consumed1, rest1.len());
        proof {
            assert(rest2@ =~= rest1@.skip(id_size(stream_id.model())));
        }
        let topic_id = Identifier::from_bytes(rest2)?;
        let consumed2 = topic_id.get_size_bytes() as usize;
        let rest3 = slice_subrange(rest2, consumed2, rest2.len());
        proof {
            assert(rest3@ =~= rest2@.skip(id_size(topic_id.model())));
        }
        if rest3.len() < 4 {
            return Err(IggyError::InvalidCommand);
        }
        let code = u32_from_le_bytes(slice_subrange(rest3, 0, 4));
        let partition_id = if code == 0 {
            None
        } else {
            Some(code)
        };
        Ok(GetConsumerOffset { consumer, stream_id, topic_id, partition_id })
    }

    /// The textual form: five `|`-separated fields.
    pub fn to_text(&self) -> (r: String)
        requires
            self.wf(),
        ensures
            encode_utf8(r@) == gco_text(
                self.consumer,
                self.stream_id.model(),
                self.topic_id.model(),
                self.partition_id,
            ),
    {
        let mut s = self.consumer.kind.to_text();
        let cid = u32_to_text(self.consumer.id);
        let sid = self.stream_id.to_text();
        let tid = self.topic_id.to_text();
        let code: u32 = match self.partition_id {
            Some(x) => x,
            None => 0,
        };
        let pid = u32_to_text(code);
        let ghost s0 = s@;
        s.append("|");
        let ghost s1 = s@;
        s.append(cid.as_str());
        let ghost s2 = s@;
        s.append("|");
        let ghost s3 = s@;
        s.append(sid.as_str());
        let ghost s4 = s@;
        s.append("|");
        let ghost s5 = s@;
        s.append(tid.as_str());
        let ghost s6 = s@;
        s.append("|");
        let ghost s7 = s@;
        s.append(pid.as_str());
        proof {
            lemma_sep_literal();
            lemma_encode_utf8_concat(s0, "|"@);
            lemma_encode_utf8_concat(s1, cid@);
            lemma_encode_utf8_concat(s2, "|"@);
            lemma_encode_utf8_concat(s3, sid@);
            lemma_encode_utf8_concat(s4, "|"@);
            lemma_encode_utf8_concat(s5, tid@);
            lemma_encode_utf8_concat(s6, "|"@);
            lemma_encode_utf8_concat(s7, pid@);
            assert(encode_utf8(s@) =~= gco_text(
                self.consumer,
                self.stream_id.model(),
                self.topic_id.model(),
                self.partition_id,
            ));
        }
        s
    }

    /// Reads the textual form back; succeeds exactly on five
    /// `|`-separated well-formed fields.
    pub fn from_str(input: &str) -> (r: Result<GetConsumerOffset, IggyError>)
        ensures
            match r {
                Ok(c) => c.wf() && gco_text_parse(input.spec_bytes()) == Some(
                    (c.consumer, c.stream_id.model(), c.topic_id.model(), c.partition_id),
                ),
                Err(e) => gco_text_parse(input.spec_bytes()) is None
                    && e == IggyError::InvalidCommand,
            },
    {
        let bytes = input.as_bytes();
        let p1 = find_sep_from(bytes, 0);
        if p1 == bytes.len() {
            return Err(IggyError::InvalidCommand);
        }
        let p2 = find_sep_from(bytes, p1 + 1);
        if p2 == bytes.len() {
            return Err(IggyError::InvalidCommand);
        }
        let p3 = find_sep_from(bytes, p2 + 1);
        if p3 == bytes.len() {
            return Err(IggyError::InvalidCommand);
        }
        let p4 = find_sep_from(bytes, p3 + 1);
        if p4 == bytes.len() {
            return Err(IggyError::InvalidCommand);
        }
        let p5 = find_sep_from(bytes, p4 + 1);
        if p5 != bytes.len() {
            return Err(IggyError::InvalidCommand);
        }
        let part0 = slice_subrange(bytes, 0, p1);
        let part1 = slice_subrange(bytes, p1 + 1, p2);
        let part2 = slice_subrange(bytes, p2 + 1, p3);
        let part3 = slice_subrange(bytes, p3 + 1, p4);
        let part4 = slice_subrange(bytes, p4 + 1, bytes.len());
        proof {
            assert(part0@ =~= bytes@.take(p1 as int));
            assert(part1@ =~= bytes@.subrange(p1 as int + 1, p2 as int));
            assert(part2@ =~= bytes@.subrange(p2 as int + 1, p3 as int));
            assert(part3@ =~= bytes@.subrange(p3 as int + 1, p4 as int));
            assert(part4@ =~= bytes@.subrange(p4 as int + 1, bytes@.len() as int));
        }
        let kind = ConsumerKind::from_text_bytes(part0)?;
        let consumer_id = match parse_u32_bytes(part1) {
            Some(v) => {
                proof {
                    lemma_digits_val_nonneg(part1@);
                }
                v
            },
            None => {
                return Err(IggyError::InvalidCommand);
            },
        };
        let stream_id = id_from_text_bytes(part2)?;
        let topic_id = id_from_text_bytes(part3)?;
        let code = match parse_u32_bytes(part4) {
            Some(v) => {
                proof {
                    lemma_digits_val_nonneg(part4@);
                }
                v
            },
            None => {
                return Err(IggyError::InvalidCommand);
            },
        };
        let partition_id = if code == 0 {
            None
        } else {
            Some(code)
        };
        Ok(
            GetConsumerOffset {
                consumer: Consumer { kind, id: consumer_id },
                stream_id,
                topic_id,
                partition_id,
            },
        )
    }
}

impl Default for GetConsumerOffset {
    /// The conventional command: a plain consumer with id `0`, stream and
    /// topic `1`, partition `1`.
    fn default() -> (r: GetConsumerOffset)
        ensures
            r.consumer == (Consumer { kind: ConsumerKind::Consumer, id: 0u32 }),
            r.stream_id.model() == (IdModel::Num { id: 1u32 }),
            r.topic_id.model() == (IdModel::Num { id: 1u32 }),
            r.partition_id == Some(1u32),
            r.wf(),
    {
        GetConsumerOffset {
            consumer: Consumer { kind: ConsumerKind::Consumer, id: 0 },
            stream_id: Identifier::Numeric(1),
            topic_id: Identifier::Numeric(1),
            partition_id: default_partition_id(),
        }
    }
}

/// Encoding then decoding the binary payload yields the command back.
pub proof fn lemma_gco_round_trip(c: Consumer, a: IdModel, b: IdModel, p: Option<u32>)
    requires
        id_wf(a),
        id_wf(b),
        p matches Some(x) ==> x >= 1,
    ensures
        gco_parse(gco_encoding(c, a, b, p)) == Some((c, a, b, p)),
{
    vstd::bytes::lemma_auto_spec_u32_to_from_le_bytes();
    let whole = gco_encoding(c, a, b, p);
    let tail1 = id_encoding(a) + id_encoding(b) + spec_u32_to_le_bytes(partition_code(p));
    lemma_consumer_round_trip(c, tail1);
    assert(whole =~= consumer_encoding(c) + tail1);
    assert(whole.skip(5) =~= tail1);
    let tail2 = id_encoding(b) + spec_u32_to_le_bytes(partition_code(p));
    lemma_id_encoding_parse(a, tail2);
    assert(tail1 =~= id_encoding(a) + tail2);
    let tail3 = spec_u32_to_le_bytes(partition_code(p));
    lemma_id_encoding_parse(b, tail3);
    assert(tail1.skip(id_size(a)) =~= id_encoding(b) + tail3);
    assert((id_encoding(b) + tail3).skip(id_size(b)) =~= tail3);
    assert(tail3.subrange(0, 4) =~= tail3);
}

/// Printing then parsing the textual form yields the command back, for
/// identifiers whose text is separator-free and does not read as a number
/// when it is a name.
pub proof fn lemma_gco_text_round_trip(c: Consumer, a: IdModel, b: IdModel, p: Option<u32>)
    requires
        id_wf(a),
        id_wf(b),
        id_text_unambiguous(a),
        id_text_unambiguous(b),
        id_text_sep_free(a),
        id_text_sep_free(b),
        p matches Some(x) ==> x >= 1,
    ensures
        gco_text_parse(gco_text(c, a, b, p)) == Some((c, a, b, p)),
{
    let kt = kind_text(c.kind);
    let ct = dec_digits(c.id as int);
    let ta = id_text(a);
    let tb = id_text(b);
    let pt = dec_digits(partition_code(p) as int);
    let s = gco_text(c, a, b, p);
    lemma_dec_digits(c.id as int);
    lemma_dec_digits(partition_code(p) as int);
    lemma_id_text_parse(a);
    lemma_id_text_parse(b);
    lemma_digits_sep_free(ct);
    lemma_digits_sep_free(pt);
    let q1 = kt.len() as int;
    let q2 = q1 + 1 + ct.len() as int;
    let q3 = q2 + 1 + ta.len() as int;
    let q4 = q3 + 1 + tb.len() as int;
    assert(s.len() == q4 + 1 + pt.len());
    assert forall|j: int| 0 <= j < q1 implies s[j] != sep_byte() by {
        assert(s[j] == kt[j]);
        assert(kt[j] != sep_byte());
    }
    assert(s[q1] == sep_byte());
    lemma_find_sep_char(s, 0, q1);
    assert forall|j: int| q1 + 1 <= j < q2 implies s[j] != sep_byte() by {
        assert(s[j] == ct[j - q1 - 1]);
    }
    assert(s[q2] == sep_byte());
    lemma_find_sep_char(s, q1 + 1, q2);
    assert forall|j: int| q2 + 1 <= j < q3 implies s[j] != sep_byte() by {
        assert(s[j] == ta[j - q2 - 1]);
    }
    assert(s[q3] == sep_byte());
    lemma_find_sep_char(s, q2 + 1, q3);
    assert forall|j: int| q3 + 1 <= j < q4 implies s[j] != sep_byte() by {
        assert(s[j] == tb[j - q3 - 1]);
    }
    assert(s[q4] == sep_byte());
    lemma_find_sep_char(s, q3 + 1, q4);
    assert forall|j: int| q4 + 1 <= j < s.len() implies s[j] != sep_byte() by {
        assert(s[j] == pt[j - q4 - 1]);
    }
    lemma_find_sep_char(s, q4 + 1, s.len() as int);
    assert(s.take(q1) =~= kt);
    assert(s.subrange(q1 + 1, q2) =~= ct);
    assert(s.subrange(q2 + 1, q3) =~= ta);
    assert(s.subrange(q3 + 1, q4) =~= tb);
    assert(s.subrange(q4 + 1, s.len() as int) =~= pt);
}

} // verus!
