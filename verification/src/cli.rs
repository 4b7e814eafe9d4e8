//! The command-line actions on streams: each one can explain itself,
//! build the broker command it stands for, and phrase the one-line status
//! printed on success.  Sending the command over a transport is the
//! caller's business.

use vstd::prelude::*;
use vstd::utf8::encode_utf8;
use vstd::string::StringExecFns;
use crate::identifier::{u32_to_text, dec_digits};
use crate::dispatcher::Command;

verus! {

/// Creates a stream with a chosen id and name.
#[derive(Debug)]
pub struct StreamCreate {
    pub id: u32,
    pub name: String,
}

/// Deletes a stream by id.
#[derive(Debug)]
pub struct StreamDelete {
    pub id: u32,
}

/// Concatenation helper for the status lines: a literal, the decimal id,
/// a literal, and optionally the name.
pub open spec fn phrase(head: Seq<char>, id: u32, mid: Seq<char>, tail: Seq<char>) -> Seq<u8> {
    encode_utf8(head) + dec_digits(id as int) + encode_utf8(mid) + encode_utf8(tail)
}

impl StreamCreate {
    /// The action of creating stream `id` named `name`.
    pub fn new(id: u32, name: String) -> (r: StreamCreate)
        ensures
            r.id == id,
            r.name@ == name@,
    {
        StreamCreate { id, name }
    }

    /// One line saying what this action will do.
    pub fn explain(&self) -> (r: String)
        ensures
            encode_utf8(r@) == phrase(
                "create stream with id: "@,
                self.id,
                " and name: "@,
                self.name@,
            ),
    {
        let mut s: String = "create stream with id: ".to_owned();
        let id_text = u32_to_text(self.id);
        let ghost s0 = s@;
        s.append(id_text.as_str());
        let ghost s1 = s@;
        s.append(" and name: ");
        let ghost s2 = s@;
        s.append(self.name.as_str());
        proof {
            crate::wire::lemma_encode_utf8_concat(s0, id_text@);
            crate::wire::lemma_encode_utf8_concat(s1, " and name: "@);
            crate::wire::lemma_encode_utf8_concat(s2, self.name@);
            assert(encode_utf8(s@) =~= phrase(
                "create stream with id: "@,
                self.id,
                " and name: "@,
                self.name@,
            ));
        }
        s
    }

    /// The status line printed once the stream was created.
    pub fn success_message(&self) -> (r: String)
        ensures
            encode_utf8(r@) == phrase("Stream with id: "@, self.id, " and name: "@, self.name@)
                + encode_utf8(" created"@),
    {
        let mut s: String = "Stream with id: ".to_owned();
        let id_text = u32_to_text(self.id);
        let ghost s0 = s@;
        s.append(id_text.as_str());
        let ghost s1 = s@;
        s.append(" and name: ");
        let ghost s2 = s@;
        s.append(self.name.as_str());
        let ghost s3 = s@;
        s.append(" created");
        proof {
            crate::wire::lemma_encode_utf8_concat(s0, id_text@);
            crate::wire::lemma_encode_utf8_concat(s1, " and name: "@);
            crate::wire::lemma_encode_utf8_concat(s2, self.name@);
            crate::wire::lemma_encode_utf8_concat(s3, " created"@);
            assert(encode_utf8(s@) =~= phrase(
                "Stream with id: "@,
                self.id,
                " and name: "@,
                self.name@,
            ) + encode_utf8(" created"@));
        }
        s
    }

    /// The broker command this action sends.
    pub fn command(self) -> (r: Command)
        ensures
            r matches Command::CreateStream { stream_id, name } && (stream_id == self.id && name@
                == self.name@),
    {
        Command::CreateStream { stream_id: self.id, name: self.name }
    }
}

impl StreamDelete {
    /// The action of deleting stream `id`.
    pub fn new(id: u32) -> (r: StreamDelete)
        ensures
            r.id == id,
    {
        StreamDelete { id }
    }

    /// One line saying what this action will do.
    pub fn explain(&self) -> (r: String)
        ensures
            encode_utf8(r@) == phrase("delete stream "@, self.id, ""@, ""@),
    {
        let mut s: String = "delete stream ".to_owned();
        let id_text = u32_to_text(self.id);
        let ghost s0 = s@;
        s.append(id_text.as_str());
        proof {
            crate::wire::lemma_encode_utf8_concat(s0, id_text@);
            reveal_strlit("");
            assert(encode_utf8(""@) =~= Seq::<u8>::empty());
            assert(encode_utf8(s@) =~= phrase("delete stream "@, self.id, ""@, ""@));
        }
        s
    }

    /// The status line printed once the stream was deleted.
    pub fn success_message(&self) -> (r: String)
        ensures
            encode_utf8(r@) == phrase("Stream with id: "@, self.id, " deleted"@, ""@),
    {
        let mut s: String = "Stream with id: ".to_owned();
        let id_text = u32_to_text(self.id);
        let ghost s0 = s@;
        s.append(id_text.as_str());
        let ghost s1 = s@;
        s.append(" deleted");
        proof {
            crate::wire::lemma_encode_utf8_concat(s0, id_text@);
            crate::wire::lemma_encode_utf8_concat(s1, " deleted"@);
            reveal_strlit("");
            assert(encode_utf8(""@) =~= Seq::<u8>::empty());
            assert(encode_utf8(s@) =~= phrase("Stream with id: "@, self.id, " deleted"@, ""@));
        }
        s
    }

    /// The broker command this action sends, with the stream named by its
    /// numeric id.
    pub fn command(&self) -> (r: Result<Command, crate::error::IggyError>)
        ensures
            match r {
                Ok(c) => self.id >= 1 && (c matches Command::DeleteStream { stream_id }
                    && stream_id.model() == (crate::identifier::IdModel::Num { id: self.id })),
                Err(e) => self.id == 0 && e == crate::error::IggyError::InvalidCommand,
            },
    {
        let stream_id = crate::identifier::Identifier::numeric(self.id)?;
        Ok(Command::DeleteStream { stream_id })
    }
}

} // verus!
