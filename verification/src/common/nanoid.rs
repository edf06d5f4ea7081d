//! Short opaque identifiers for rooms, users and tickets.

use vstd::prelude::*;
use vstd::slice::slice_to_vec;
use vstd::utf8::{encode_utf8, is_ascii_chars, is_ascii_chars_encode_utf8, valid_utf8};

verus! {

/// The text handed in does not have the length of an identifier.
#[derive(Clone, Copy, Debug, PartialEq, Eq, Hash)]
pub struct LengthNotMatched;

/// The number of bytes in an identifier.
pub const NANOID_BYTES_LEN: usize = 16;

/// An identifier: sixteen bytes that, read as UTF-8, are its textual form.
#[derive(Debug, Clone, Copy, PartialEq, Eq, Hash)]
pub struct NanoId([u8; 16]);

impl View for NanoId {
    type V = Seq<u8>;

    closed spec fn view(&self) -> Seq<u8> {
        self.0@
    }
}

/// The textual form of the identifier made of the given bytes.
pub open spec fn id_text(bytes: Seq<u8>) -> Seq<char> {
    vstd::utf8::decode_utf8(bytes)
}

/// `c` is a letter, a digit, an underscore or a hyphen.
pub open spec fn is_url_safe(c: char) -> bool {
    ('a' <= c <= 'z') || ('A' <= c <= 'Z') || ('0' <= c <= '9') || c == '_' || c == '-'
}

/// The bytes are the UTF-8 form of sixteen characters, each a letter, a
/// digit, an underscore or a hyphen: the shape of every identifier that is
/// drawn at random.
pub open spec fn is_url_safe_id(bytes: Seq<u8>) -> bool {
    &&& bytes.len() == 16
    &&& exists|text: Seq<char>| #[trigger]
        encode_utf8(text) == bytes && text.len() == 16 && forall|i: int|
            0 <= i < 16 ==> is_url_safe(#[trigger] text[i])
}

/// A fresh identifier text from `nanoid::format` with the generator
/// `nanoid::rngs::default` and the alphabet `nanoid::alphabet::SAFE`:
/// sixteen characters, each a letter, a digit, an underscore or a hyphen.
/// Which ones is left to chance.
#[verifier::external_body]
fn random_id_text() -> (text: String)
    ensures
        text@.len() == 16,
        forall|i: int| 0 <= i < 16 ==> is_url_safe(#[trigger] text@[i]),
{
    nanoid::format(nanoid::rngs::default, &nanoid::alphabet::SAFE, 16)
}

/// The text that the given bytes encode, through `String::from_utf8`: the
/// bytes of the text returned are the bytes handed in, and bytes that are
/// valid UTF-8 always give a text.
#[verifier::external_body]
fn text_from_utf8(bytes: Vec<u8>) -> (text: Option<String>)
    ensures
        valid_utf8(bytes@) ==> text is Some,
        text matches Some(t) ==> encode_utf8(t@) == bytes@,
{
    String::from_utf8(bytes).ok()
}

impl NanoId {
    #[verifier::type_invariant]
    spec fn well_formed(self) -> bool {
        valid_utf8(self.0@)
    }

    /// An identifier drawn at random; its textual form is URL-safe.
    pub fn new() -> (id: NanoId)
        ensures
            id@.len() == 16,
            exists|text: Seq<char>| #[trigger]
                encode_utf8(text) == id@ && text.len() == 16 && forall|i: int|
                    0 <= i < 16 ==> is_url_safe(#[trigger] text[i]),
    {
        let text = random_id_text();
        proof {
            assert(is_ascii_chars(text@)) by {
                assert forall|i: int| 0 <= i < text@.len() implies (text@[i] as nat) < 128 by {
                    assert(is_url_safe(text@[i]));
                }
            }
            is_ascii_chars_encode_utf8(text@);
        }
        match NanoId::from_str(text.as_str()) {
            Ok(id) => id,
            Err(_) => vstd::pervasive::unreached(),
        }
    }

    /// The identifier whose textual form is `s`. Only texts of exactly
    /// sixteen bytes are identifiers.
    pub fn from_str(s: &str) -> (id: Result<NanoId, LengthNotMatched>)
        ensures
            id is Ok <==> encode_utf8(s@).len() == 16,
            id matches Ok(id) ==> id@ == encode_utf8(s@),
    {
        let bytes = s.as_bytes();
        if bytes.len() != NANOID_BYTES_LEN {
            return Err(LengthNotMatched);
        }
        let mut nanoid: [u8; 16] = [0u8; 16];
        let mut i: usize = 0;
        while i < 16
            invariant
                i <= 16,
                bytes@.len() == 16,
                forall|j: int| 0 <= j < i ==> nanoid@[j] == bytes@[j],
            decreases 16 - i,
        {
            nanoid[i] = bytes[i];
            i = i + 1;
        }
        proof {
            assert(nanoid@ =~= bytes@);
            vstd::utf8::encode_utf8_valid_utf8(s@);
        }
        Ok(NanoId(nanoid))
    }

    /// The textual form of the identifier.
    pub fn to_string(&self) -> (text: String)
        ensures
            encode_utf8(text@) == self@,
            text@ == id_text(self@),
    {
        proof {
            use_type_invariant(self);
        }
        let bytes = slice_to_vec(self.0.as_slice());
        match text_from_utf8(bytes) {
            Some(text) => {
                proof {
                    vstd::utf8::encode_utf8_decode_utf8(text@);
                }
                text
            },
            None => vstd::pervasive::unreached(),
        }
    }

    /// The sixteen bytes of the identifier.
    pub fn bytes(&self) -> (bytes: [u8; 16])
        ensures
            bytes@ == self@,
    {
        self.0
    }

    /// Whether two identifiers are the same.
    pub fn same(&self, other: &NanoId) -> (same: bool)
        ensures
            same == (self@ == other@),
    {
        let mut i: usize = 0;
        while i < 16
            invariant
                i <= 16,
                forall|j: int| 0 <= j < i ==> self.0@[j] == other.0@[j],
            decreases 16 - i,
        {
            if self.0[i] != other.0[i] {
                return false;
            }
            i = i + 1;
        }
        assert(self.0@ =~= other.0@);
        true
    }
}

/// Two identifiers with the same bytes are the same identifier, and two
/// texts that give the same identifier are the same text.
pub proof fn lemma_id_text_unique(a: Seq<char>, b: Seq<char>)
    requires
        encode_utf8(a) == encode_utf8(b),
    ensures
        a == b,
{
    vstd::utf8::encode_utf8_decode_utf8(a);
    vstd::utf8::encode_utf8_decode_utf8(b);
}

} // verus!
