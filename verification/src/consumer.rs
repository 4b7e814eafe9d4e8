//! Consumers: a plain consumer or a consumer group, with the codec for the
//! 5-byte binary form (kind byte + little-endian id) and the textual kind
//! names.

use vstd::prelude::*;
use vstd::bytes::{spec_u32_to_le_bytes, spec_u32_from_le_bytes, u32_from_le_bytes,
    u32_to_le_bytes};
use vstd::slice::{slice_subrange, slice_index_get};
use crate::error::IggyError;

verus! {

/// Whether offsets are tracked per client or per consumer group.
#[derive(Clone, Copy, Debug, PartialEq, Eq, Structural)]
pub enum ConsumerKind {
    Consumer,
    ConsumerGroup,
}

/// The wire code of a consumer kind.
pub open spec fn kind_code(k: ConsumerKind) -> u8 {
    match k {
        ConsumerKind::Consumer => 1,
        ConsumerKind::ConsumerGroup => 2,
    }
}

/// The textual name of a consumer kind, as bytes.
pub open spec fn kind_text(k: ConsumerKind) -> Seq<u8> {
    match k {
        // "consumer"
        ConsumerKind::Consumer => seq![99u8, 111, 110, 115, 117, 109, 101, 114],
        // "consumer_group"
        ConsumerKind::ConsumerGroup => seq![
            99u8, 111, 110, 115, 117, 109, 101, 114, 95, 103, 114, 111, 117, 112,
        ],
    }
}

/// Reading a consumer kind back from its textual name.
pub open spec fn kind_text_parse(s: Seq<u8>) -> Option<ConsumerKind> {
    if s == kind_text(ConsumerKind::Consumer) {
        Some(ConsumerKind::Consumer)
    } else if s == kind_text(ConsumerKind::ConsumerGroup) {
        Some(ConsumerKind::ConsumerGroup)
    } else {
        None
    }
}

impl ConsumerKind {
    /// The wire code: 1 for a consumer, 2 for a consumer group.
    pub fn as_code(&self) -> (r: u8)
        ensures
            r == kind_code(*self),
    {
        match self {
            ConsumerKind::Consumer => 1,
            ConsumerKind::ConsumerGroup => 2,
        }
    }

    /// The kind a wire code denotes; codes other than 1 and 2 are rejected.
    pub fn from_code(code: u8) -> (r: Result<ConsumerKind, IggyError>)
        ensures
            match r {
                Ok(k) => kind_code(k) == code,
                Err(e) => code != 1 && code != 2 && e == IggyError::InvalidCommand,
            },
    {
        match code {
            1 => Ok(ConsumerKind::Consumer),
            2 => Ok(ConsumerKind::ConsumerGroup),
            _ => Err(IggyError::InvalidCommand),
        }
    }

    /// The textual name: `consumer` or `consumer_group`.
    pub fn to_text(&self) -> (r: String)
        ensures
            vstd::utf8::encode_utf8(r@) == kind_text(*self),
    {
        match self {
            ConsumerKind::Consumer => {
                let s: String = "consumer".to_owned();
                proof {
                    reveal_strlit("consumer");
                    assert(vstd::utf8::is_ascii_chars(s@));
                    vstd::utf8::is_ascii_chars_encode_utf8(s@);
                    assert(vstd::utf8::encode_utf8(s@) =~= kind_text(ConsumerKind::Consumer));
                }
                s
            },
            ConsumerKind::ConsumerGroup => {
                let s: String = "consumer_group".to_owned();
                proof {
                    reveal_strlit("consumer_group");
                    assert(vstd::utf8::is_ascii_chars(s@));
                    vstd::utf8::is_ascii_chars_encode_utf8(s@);
                    assert(vstd::utf8::encode_utf8(s@) =~= kind_text(
                        ConsumerKind::ConsumerGroup,
                    ));
                }
                s
            },
        }
    }

    /// Reads a kind from its textual name in a byte slice.
    pub fn from_text_bytes(s: &[u8]) -> (r: Result<ConsumerKind, IggyError>)
        ensures
            match r {
                Ok(k) => kind_text_parse(s@) == Some(k),
                Err(e) => kind_text_parse(s@) is None && e == IggyError::InvalidCommand,
            },
    {
        let consumer: [u8; 8] = [99, 111, 110, 115, 117, 109, 101, 114];
        let group: [u8; 14] = [99, 111, 110, 115, 117, 109, 101, 114, 95, 103, 114, 111, 117, 112];
        if crate::wire::slice_eq_bytes(s, consumer.as_slice()) {
            proof {
                assert(consumer@ =~= kind_text(ConsumerKind::Consumer));
            }
            Ok(ConsumerKind::Consumer)
        } else if crate::wire::slice_eq_bytes(s, group.as_slice()) {
            proof {
                assert(group@ =~= kind_text(ConsumerKind::ConsumerGroup));
            }
            Ok(ConsumerKind::ConsumerGroup)
        } else {
            proof {
                assert(consumer@ =~= kind_text(ConsumerKind::Consumer));
                assert(group@ =~= kind_text(ConsumerKind::ConsumerGroup));
            }
            Err(IggyError::InvalidCommand)
        }
    }
}

/// A polling or offset-tracking party: a kind and its 32-bit id.
#[derive(Clone, Copy, Debug, PartialEq, Eq, Structural)]
pub struct Consumer {
    pub kind: ConsumerKind,
    pub id: u32,
}

/// The 5-byte binary form of a consumer: kind byte, then little-endian id.
pub open spec fn consumer_encoding(c: Consumer) -> Seq<u8> {
    seq![kind_code(c.kind)] + spec_u32_to_le_bytes(c.id)
}

/// Decoding a consumer from the front of a byte sequence.
pub open spec fn consumer_parse(bytes: Seq<u8>) -> Option<Consumer> {
    if bytes.len() < 5 {
        None
    } else if bytes[0] == 1 || bytes[0] == 2 {
        Some(
            Consumer {
                kind: if bytes[0] == 1 {
                    ConsumerKind::Consumer
                } else {
                    ConsumerKind::ConsumerGroup
                },
                id: spec_u32_from_le_bytes(bytes.subrange(1, 5)),
            },
        )
    } else {
        None
    }
}

impl Consumer {
    /// A plain consumer with the given id.
    pub fn new(id: u32) -> (r: Consumer)
        ensures
            r == (Consumer { kind: ConsumerKind::Consumer, id }),
    {
        Consumer { kind: ConsumerKind::Consumer, id }
    }

    /// The 5-byte binary form.
    pub fn as_bytes(&self) -> (r: Vec<u8>)
        ensures
            r@ == consumer_encoding(*self),
    {
        let mut out: Vec<u8> = Vec::new();
        out.push(self.kind.as_code());
        let le = u32_to_le_bytes(self.id);
        out.push(le[0]);
        out.push(le[1]);
        out.push(le[2]);
        out.push(le[3]);
        proof {
            assert(out@ =~= consumer_encoding(*self));
        }
        out
    }

    /// Decodes a consumer from the front of `bytes`.
    pub fn from_bytes(bytes: &[u8]) -> (r: Result<Consumer, IggyError>)
        ensures
            match r {
                Ok(c) => consumer_parse(bytes@) == Some(c),
                Err(e) => consumer_parse(bytes@) is None && e == IggyError::InvalidCommand,
            },
    {
        if bytes.len() < 5 {
            return Err(IggyError::InvalidCommand);
        }
        let kind = ConsumerKind::from_code(*slice_index_get(bytes, 0))?;
        let id = u32_from_le_bytes(slice_subrange(bytes, 1, 5));
        Ok(Consumer { kind, id })
    }
}

/// Encoding then decoding a consumer yields the consumer back, even with
/// trailing bytes behind the encoding.
pub proof fn lemma_consumer_round_trip(c: Consumer, rest: Seq<u8>)
    ensures
        consumer_parse(consumer_encoding(c) + rest) == Some(c),
        consumer_encoding(c).len() == 5,
{
    vstd::bytes::lemma_auto_spec_u32_to_from_le_bytes();
    let whole = consumer_encoding(c) + rest;
    assert(whole.subrange(1, 5) =~= spec_u32_to_le_bytes(c.id));
}

} // verus!
