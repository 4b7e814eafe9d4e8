//! Entity identifiers: a 32-bit numeric id or a UTF-8 name of 1..=255 bytes.
//!
//! The wire form is a 1-byte kind (1 = numeric, 2 = named), a 1-byte length
//! (4 for numeric ids), and the value bytes, integers little-endian.  The
//! textual form is the decimal number or the name itself.

use vstd::prelude::*;
use vstd::bytes::{u32_from_le_bytes, u32_to_le_bytes, spec_u32_to_le_bytes,
    spec_u32_from_le_bytes, lemma_auto_spec_u32_to_from_le_bytes};
use vstd::utf8::{valid_utf8, encode_utf8};
use vstd::slice::{slice_subrange, slice_to_vec, slice_index_get};
use vstd::string::StringSliceAdditionalSpecFns;
use vstd::arithmetic::div_mod::lemma_fundamental_div_mod;
use crate::error::IggyError;

verus! {

/// The mathematical value of an identifier: what the codecs preserve.
pub enum IdModel {
    Num { id: u32 },
    Name { bytes: Seq<u8> },
}

/// A stream, topic or user identifier: a numeric id or a name held as its
/// UTF-8 bytes.
#[derive(Debug)]
pub enum Identifier {
    Numeric(u32),
    Named(Vec<u8>),
}

/// Whether an identifier value is legal: numeric ids are non-zero, names
/// are 1..=255 bytes of valid UTF-8.
pub open spec fn id_wf(m: IdModel) -> bool {
    match m {
        IdModel::Num { id } => id >= 1,
        IdModel::Name { bytes } => 1 <= bytes.len() <= 255 && valid_utf8(bytes),
    }
}

/// The binary encoding of an identifier: kind byte, length byte, value.
pub open spec fn id_encoding(m: IdModel) -> Seq<u8> {
    match m {
        IdModel::Num { id } => seq![1u8, 4u8] + spec_u32_to_le_bytes(id),
        IdModel::Name { bytes } => seq![2u8, bytes.len() as u8] + bytes,
    }
}

/// How many bytes the binary encoding of an identifier occupies.
pub open spec fn id_size(m: IdModel) -> int {
    match m {
        IdModel::Num { .. } => 6,
        IdModel::Name { bytes } => 2 + bytes.len() as int,
    }
}

/// Decoding an identifier from the front of a byte sequence; trailing
/// bytes beyond the encoded size are left for the caller.
pub open spec fn id_parse(bytes: Seq<u8>) -> Option<IdModel> {
    if bytes.len() < 2 {
        None
    } else if bytes[0] == 1 {
        if bytes[1] == 4 && bytes.len() >= 6 {
            let v = spec_u32_from_le_bytes(bytes.subrange(2, 6));
            if v >= 1 {
                Some(IdModel::Num { id: v })
            } else {
                None
            }
        } else {
            None
        }
    } else if bytes[0] == 2 {
        let n = bytes[1] as int;
        if 1 <= n && bytes.len() >= 2 + n && valid_utf8(bytes.subrange(2, 2 + n)) {
            Some(IdModel::Name { bytes: bytes.subrange(2, 2 + n) })
        } else {
            None
        }
    } else {
        None
    }
}

/// An ASCII decimal digit.
pub open spec fn is_digit_byte(b: u8) -> bool {
    48 <= b <= 57
}

/// Whether every byte of a sequence is an ASCII decimal digit.
pub open spec fn all_digits(s: Seq<u8>) -> bool {
    forall|i: int| 0 <= i < s.len() ==> is_digit_byte(#[trigger] s[i])
}

/// The number that a sequence of ASCII digits denotes.
pub open spec fn digits_val(s: Seq<u8>) -> int
    decreases s.len(),
{
    if s.len() == 0 {
        0
    } else {
        digits_val(s.drop_last()) * 10 + s.last() - 48
    }
}

/// The ASCII decimal digits of a non-negative number, most significant
/// first, with no leading zero (except for the number zero itself).
pub open spec fn dec_digits(n: int) -> Seq<u8>
    decreases n,
{
    if n < 10 {
        seq![(48 + if n >= 0 { n } else { 0 }) as u8]
    } else {
        dec_digits(n / 10) + seq![(48 + n % 10) as u8]
    }
}

/// The textual form of an identifier: the decimal number, or the name's
/// bytes.
pub open spec fn id_text(m: IdModel) -> Seq<u8> {
    match m {
        IdModel::Num { id } => dec_digits(id as int),
        IdModel::Name { bytes } => bytes,
    }
}

/// Reading an identifier back from its textual form: a non-empty run of
/// digits denoting a representable non-zero number is numeric; any other
/// text of 1..=255 bytes is a name.
pub open spec fn id_text_parse(s: Seq<u8>) -> Option<IdModel> {
    if s.len() == 0 {
        None
    } else if all_digits(s) && digits_val(s) <= u32::MAX {
        if digits_val(s) >= 1 {
            Some(IdModel::Num { id: digits_val(s) as u32 })
        } else {
            None
        }
    } else if s.len() <= 255 && valid_utf8(s) {
        Some(IdModel::Name { bytes: s })
    } else {
        None
    }
}

impl Identifier {
    /// The mathematical value this identifier holds.
    pub open spec fn model(self) -> IdModel {
        match self {
            Identifier::Numeric(id) => IdModel::Num { id },
            Identifier::Named(v) => IdModel::Name { bytes: v@ },
        }
    }

    /// Well-formedness of the held value; every constructor establishes it
    /// and every method preserves it.
    pub open spec fn wf(self) -> bool {
        id_wf(self.model())
    }

    /// A numeric identifier; zero is reserved and rejected.
    pub fn numeric(value: u32) -> (r: Result<Identifier, IggyError>)
        ensures
            match r {
                Ok(id) => value >= 1 && id.model() == (IdModel::Num { id: value })
                    && id.wf(),
                Err(e) => value == 0 && e == IggyError::InvalidCommand,
            },
    {
        if value == 0 {
            Err(IggyError::InvalidCommand)
        } else {
            Ok(Identifier::Numeric(value))
        }
    }

    /// A named identifier; the name must be 1..=255 bytes long.
    pub fn named(value: &str) -> (r: Result<Identifier, IggyError>)
        ensures
            match r {
                Ok(id) => 1 <= value.spec_bytes().len() <= 255
                    && id.model() == (IdModel::Name { bytes: value.spec_bytes() })
                    && id.wf(),
                Err(e) => !(1 <= value.spec_bytes().len() <= 255)
                    && e == IggyError::InvalidCommand,
            },
    {
        let bytes = value.as_bytes();
        if bytes.len() < 1 || bytes.len() > 255 {
            Err(IggyError::InvalidCommand)
        } else {
            proof {
                vstd::utf8::encode_utf8_valid_utf8(value@);
            }
            Ok(Identifier::Named(slice_to_vec(bytes)))
        }
    }

    /// An identical copy of this identifier.
    pub fn duplicate(&self) -> (r: Identifier)
        ensures
            r.model() == self.model(),
    {
        match self {
            Identifier::Numeric(id) => Identifier::Numeric(*id),
            Identifier::Named(v) => {
                let copy = slice_to_vec(v.as_slice());
                Identifier::Named(copy)
            },
        }
    }

    /// How many bytes the binary encoding occupies.
    pub fn get_size_bytes(&self) -> (r: u32)
        requires
            self.wf(),
        ensures
            r == id_size(self.model()),
    {
        match self {
            Identifier::Numeric(_) => 6,
            Identifier::Named(v) => 2 + v.len() as u32,
        }
    }

    /// The binary encoding: kind byte, length byte, value bytes.
    pub fn as_bytes(&self) -> (r: Vec<u8>)
        requires
            self.wf(),
        ensures
            r@ == id_encoding(self.model()),
    {
        match self {
            Identifier::Numeric(id) => {
                let mut out: Vec<u8> = Vec::new();
                out.push(1);
                out.push(4);
                let le = u32_to_le_bytes(*id);
                out.push(le[0]);
                out.push(le[1]);
                out.push(le[2]);
                out.push(le[3]);
                proof {
                    assert(out@ =~= id_encoding(self.model()));
                }
                out
            },
            Identifier::Named(v) => {
                let mut out: Vec<u8> = Vec::new();
                out.push(2);
                out.push(v.len() as u8);
                let mut i: usize = 0;
                while i < v.len()
                    invariant
                        i <= v.len(),
                        v.len() <= 255,
                        out@ =~= seq![2u8, v.len() as u8] + v@.take(i as int),
                    decreases v.len() - i,
                {
                    out.push(v[i]);
                    i = i + 1;
                }
                proof {
                    assert(v@.take(v.len() as int) =~= v@);
                    assert(out@ =~= id_encoding(self.model()));
                }
                out
            },
        }
    }

    /// Decodes an identifier from the front of `bytes`; succeeds exactly
    /// when a well-formed encoding starts there, and returns the value it
    /// encodes.
    pub fn from_bytes(bytes: &[u8]) -> (r: Result<Identifier, IggyError>)
        ensures
            match r {
                Ok(id) => id.wf() && id_parse(bytes@) == Some(id.model())
                    && id_size(id.model()) <= bytes@.len(),
                Err(e) => id_parse(bytes@) is None && e == IggyError::InvalidCommand,
            },
    {
        if bytes.len() < 2 {
            return Err(IggyError::InvalidCommand);
        }
        let kind = *slice_index_get(bytes, 0);
        let length = *slice_index_get(bytes, 1);
        if kind == 1 {
            if length != 4 || bytes.len() < 6 {
                return Err(IggyError::InvalidCommand);
            }
            let value = u32_from_le_bytes(slice_subrange(bytes, 2, 6));
            if value == 0 {
                return Err(IggyError::InvalidCommand);
            }
            Ok(Identifier::Numeric(value))
        } else if kind == 2 {
            let n = length as usize;
            if n < 1 || bytes.len() < 2 + n {
                return Err(IggyError::InvalidCommand);
            }
            let sub = slice_subrange(bytes, 2, 2 + n);
            if !crate::text::utf8_is_valid(sub) {
                return Err(IggyError::InvalidCommand);
            }
            Ok(Identifier::Named(slice_to_vec(sub)))
        } else {
            Err(IggyError::InvalidCommand)
        }
    }
}

impl PartialEq for Identifier {
    /// Two identifiers are equal when they hold the same value.
    fn eq(&self, other: &Identifier) -> (r: bool) {
        match (self, other) {
            (Identifier::Numeric(a), Identifier::Numeric(b)) => *a == *b,
            (Identifier::Named(x), Identifier::Named(y)) => {
                let e = *x == *y;
                proof {
                    if e {
                        assert(x@ =~= y@);
                    }
                    if x@ == y@ {
                        assert(forall|i: int| 0 <= i < x@.len() ==> x@[i] == y@[i]);
                    }
                }
                e
            },
            _ => false,
        }
    }
}

impl vstd::std_specs::cmp::PartialEqSpecImpl for Identifier {
    open spec fn obeys_eq_spec() -> bool {
        true
    }

    open spec fn eq_spec(&self, other: &Identifier) -> bool {
        self.model() == other.model()
    }
}

/// A sequence of bytes below `0x80` is valid UTF-8.
pub proof fn lemma_ascii_valid_utf8(s: Seq<u8>)
    requires
        forall|i: int| 0 <= i < s.len() ==> #[trigger] s[i] < 0x80,
    ensures
        valid_utf8(s),
    decreases s.len(),
{
    if s.len() != 0 {
        assert(vstd::utf8::is_leading_byte_width_1(s[0]));
        assert(vstd::utf8::length_of_first_scalar(s) == 1);
        assert(vstd::utf8::pop_first_scalar(s) =~= s.drop_first());
        lemma_ascii_valid_utf8(s.drop_first());
    }
}

/// Decimal digits denote their number back: [`digits_val`] inverts
/// [`dec_digits`], and every produced byte is a digit.
pub proof fn lemma_dec_digits(n: int)
    requires
        0 <= n,
    ensures
        all_digits(dec_digits(n)),
        digits_val(dec_digits(n)) == n,
        dec_digits(n).len() >= 1,
    decreases n,
{
    if n < 10 {
        let s = dec_digits(n);
        assert(s.len() == 1);
        assert(s.last() == (48 + n) as u8);
        assert(s.drop_last() =~= Seq::<u8>::empty());
        assert(digits_val(s) == digits_val(s.drop_last()) * 10 + s.last() - 48);
        assert(digits_val(Seq::<u8>::empty()) == 0);
    } else {
        lemma_fundamental_div_mod(n, 10);
        vstd::arithmetic::div_mod::lemma_mod_bound(n, 10);
        lemma_dec_digits(n / 10);
        let s = dec_digits(n);
        assert(s.drop_last() =~= dec_digits(n / 10));
        assert(s.last() == (48 + n % 10) as u8);
        assert(digits_val(s) == digits_val(dec_digits(n / 10)) * 10 + (48 + n % 10) - 48);
        assert(digits_val(s) == (n / 10) * 10 + n % 10);
        assert((n / 10) * 10 + n % 10 == 10 * (n / 10) + n % 10);
        assert forall|i: int| 0 <= i < s.len() implies is_digit_byte(#[trigger] s[i]) by {
            if i < s.len() - 1 {
                assert(s[i] == dec_digits(n / 10)[i]);
            }
        }
    }
}

/// The number a digit run denotes never shrinks as the run grows to the
/// right.
pub proof fn lemma_digits_val_prefix(s: Seq<u8>, i: int)
    requires
        0 <= i <= s.len(),
        all_digits(s),
        digits_val(s.take(i)) >= 0,
    ensures
        digits_val(s) >= digits_val(s.take(i)),
    decreases s.len() - i,
{
    if i < s.len() {
        assert(s.take(i + 1).drop_last() =~= s.take(i));
        assert(s.take(i + 1).last() == s[i]);
        assert(digits_val(s.take(i + 1)) == digits_val(s.take(i)) * 10 + s[i] - 48);
        lemma_digits_val_prefix(s, i + 1);
    } else {
        assert(s.take(i) =~= s);
    }
}

/// A non-negative digit value stays non-negative: helper fact about
/// [`digits_val`] on digit runs.
pub proof fn lemma_digits_val_nonneg(s: Seq<u8>)
    requires
        all_digits(s),
    ensures
        digits_val(s) >= 0,
    decreases s.len(),
{
    if s.len() > 0 {
        assert(all_digits(s.drop_last())) by {
            assert(forall|i: int| 0 <= i < s.len() - 1 ==> s.drop_last()[i] == s[i]);
        }
        lemma_digits_val_nonneg(s.drop_last());
    }
}

/// Appends the decimal digits of `x` to `out`.
fn push_digits(out: &mut Vec<u8>, x: u32)
    ensures
        final(out)@ == old(out)@ + dec_digits(x as int),
    decreases x,
{
    if x < 10 {
        out.push(48 + x as u8);
        proof {
            assert(final(out)@ =~= old(out)@ + dec_digits(x as int));
        }
    } else {
        push_digits(out, x / 10);
        out.push(48 + (x % 10) as u8);
        proof {
            assert(final(out)@ =~= old(out)@ + dec_digits(x as int));
        }
    }
}

/// Reads a decimal `u32` from a byte slice: succeeds exactly on non-empty
/// all-digit runs whose value is representable.
pub fn parse_u32_bytes(s: &[u8]) -> (r: Option<u32>)
    ensures
        match r {
            Some(v) => s@.len() >= 1 && all_digits(s@) && digits_val(s@) <= u32::MAX
                && v == digits_val(s@),
            None => !(s@.len() >= 1 && all_digits(s@) && digits_val(s@) <= u32::MAX),
        },
{
    if s.len() == 0 {
        return None;
    }
    let mut acc: u64 = 0;
    let mut i: usize = 0;
    while i < s.len()
        invariant
            i <= s@.len(),
            forall|j: int| 0 <= j < i ==> is_digit_byte(#[trigger] s@[j]),
            acc == digits_val(s@.take(i as int)),
            acc <= u32::MAX,
        decreases s@.len() - i,
    {
        let b = *slice_index_get(s, i);
        if b < 48 || b > 57 {
            return None;
        }
        proof {
            assert(s@.take(i + 1).drop_last() =~= s@.take(i as int));
            assert(s@.take(i + 1).last() == s@[i as int]);
        }
        acc = acc * 10 + (b - 48) as u64;
        i = i + 1;
        if acc > u32::MAX as u64 {
            proof {
                assert(forall|j: int| 0 <= j < s@.take(i as int).len()
                    ==> is_digit_byte(#[trigger] s@.take(i as int)[j]));
                if all_digits(s@) {
                    lemma_digits_val_prefix(s@, i as int);
                }
            }
            return None;
        }
    }
    proof {
        assert(s@.take(s@.len() as int) =~= s@);
    }
    Some(acc as u32)
}

/// Reading a decimal `u32` from text: succeeds exactly on non-empty
/// all-digit runs whose value is representable.
pub open spec fn u32_text_parse(s: Seq<u8>) -> Option<u32> {
    if s.len() >= 1 && all_digits(s) && 0 <= digits_val(s) <= u32::MAX {
        Some(digits_val(s) as u32)
    } else {
        None
    }
}

/// The decimal digits of `x`, as a string.
pub fn u32_to_text(x: u32) -> (r: String)
    ensures
        encode_utf8(r@) == dec_digits(x as int),
{
    let mut out: Vec<u8> = Vec::new();
    push_digits(&mut out, x);
    proof {
        lemma_dec_digits(x as int);
        assert(out@ =~= dec_digits(x as int));
        assert(forall|i: int| 0 <= i < out@.len() ==> #[trigger] out@[i] < 0x80);
        lemma_ascii_valid_utf8(out@);
    }
    match crate::text::bytes_to_string(out) {
        Some(s) => s,
        None => {
            proof {
                assert(false);
            }
            String::new()
        },
    }
}

impl Identifier {
    /// The textual form: the decimal number, or the name itself.
    pub fn to_text(&self) -> (r: String)
        requires
            self.wf(),
        ensures
            encode_utf8(r@) == id_text(self.model()),
    {
        match self {
            Identifier::Numeric(id) => u32_to_text(*id),
            Identifier::Named(v) => {
                let copy = slice_to_vec(v.as_slice());
                match crate::text::bytes_to_string(copy) {
                    Some(s) => s,
                    None => {
                        proof {
                            assert(false);
                        }
                        String::new()
                    },
                }
            },
        }
    }

    /// Reads an identifier from its textual form: a non-empty digit run
    /// denoting a representable non-zero number is numeric, any other text
    /// of 1..=255 bytes is a name.
    pub fn from_str(input: &str) -> (r: Result<Identifier, IggyError>)
        ensures
            match r {
                Ok(id) => id.wf()
                    && id_text_parse(input.spec_bytes()) == Some(id.model()),
                Err(e) => id_text_parse(input.spec_bytes()) is None
                    && e == IggyError::InvalidCommand,
            },
    {
        id_from_text_bytes(input.as_bytes())
    }
}

/// Reads an identifier from the bytes of its textual form; the workhorse
/// behind [`Identifier::from_str`] and the command parsers.
pub fn id_from_text_bytes(bytes: &[u8]) -> (r: Result<Identifier, IggyError>)
    ensures
        match r {
            Ok(id) => id.wf() && id_text_parse(bytes@) == Some(id.model()),
            Err(e) => id_text_parse(bytes@) is None && e == IggyError::InvalidCommand,
        },
{
    match parse_u32_bytes(bytes) {
        Some(v) => {
            proof {
                lemma_digits_val_nonneg(bytes@);
            }
            if v == 0 {
                Err(IggyError::InvalidCommand)
            } else {
                Ok(Identifier::Numeric(v))
            }
        },
        None => {
            if bytes.len() < 1 || bytes.len() > 255 {
                Err(IggyError::InvalidCommand)
            } else if !crate::text::utf8_is_valid(bytes) {
                Err(IggyError::InvalidCommand)
            } else {
                Ok(Identifier::Named(slice_to_vec(bytes)))
            }
        },
    }
}

/// Whether the textual form of an identifier reads back as the same
/// identifier: always for numeric ids; for names, exactly when the name is
/// not itself a digit run denoting a representable number.
pub open spec fn id_text_unambiguous(m: IdModel) -> bool {
    match m {
        IdModel::Num { .. } => true,
        IdModel::Name { bytes } => !(all_digits(bytes) && digits_val(bytes) <= u32::MAX),
    }
}

/// Printing then parsing the textual form yields the identifier back, for
/// every well-formed identifier whose name does not read as a number.
pub proof fn lemma_id_text_parse(m: IdModel)
    requires
        id_wf(m),
        id_text_unambiguous(m),
    ensures
        id_text_parse(id_text(m)) == Some(m),
        1 <= id_text(m).len(),
{
    match m {
        IdModel::Num { id } => {
            lemma_dec_digits(id as int);
        },
        IdModel::Name { bytes } => {
        },
    }
}

/// Encoding then decoding an identifier yields the identifier back, even
/// with trailing bytes behind the encoding.
pub proof fn lemma_id_encoding_parse(m: IdModel, rest: Seq<u8>)
    requires
        id_wf(m),
    ensures
        id_parse(id_encoding(m) + rest) == Some(m),
        id_encoding(m).len() == id_size(m),
{
    lemma_auto_spec_u32_to_from_le_bytes();
    let whole = id_encoding(m) + rest;
    match m {
        IdModel::Num { id } => {
            assert(whole.subrange(2, 6) =~= spec_u32_to_le_bytes(id));
        },
        IdModel::Name { bytes } => {
            assert(whole.subrange(2, 2 + bytes.len() as int) =~= bytes);
        },
    }
}

} // verus!
