//! The answer of a server to a WebSocket upgrade request.

use vstd::prelude::*;
use vstd::utf8::encode_utf8;

verus! {

/// The SHA-1 digest of the given bytes.
pub uninterp spec fn sha1_digest(data: Seq<u8>) -> Seq<u8>;

/// The given bytes in base64, standard alphabet, with padding.
pub uninterp spec fn base64_standard(data: Seq<u8>) -> Seq<char>;

/// The SHA-1 digest of the data, through `sha1::Digest::digest` on
/// `sha1::Sha1`. A digest has 20 bytes.
#[verifier::external_body]
fn sha1_of(data: &[u8]) -> (digest: Vec<u8>)
    ensures
        digest@ == sha1_digest(data@),
        digest@.len() == 20,
{
    <sha1::Sha1 as sha1::Digest>::digest(data).to_vec()
}

/// The data in base64, through `base64::Engine::encode` on
/// `base64::engine::general_purpose::STANDARD`.
#[verifier::external_body]
fn base64_of(data: &[u8]) -> (text: String)
    requires
        data@.len() <= 1024,
    ensures
        text@ == base64_standard(data@),
{
    base64::Engine::encode(&base64::engine::general_purpose::STANDARD, data)
}

/// The bytes that the protocol appends to the key of an upgrade request
/// before hashing.
pub open spec fn websocket_guid() -> Seq<u8> {
    encode_utf8("258EAFA5-E914-47DA-95CA-C5AB0DC85B11"@)
}

/// The value of the `Sec-WebSocket-Accept` header that answers an upgrade
/// request with the given `Sec-WebSocket-Key`: the SHA-1 digest of the key
/// followed by the protocol's fixed bytes, in base64.
pub fn sign(key: &[u8]) -> (accept: String)
    ensures
        accept@ == base64_standard(sha1_digest(key@ + websocket_guid())),
{
    let guid = "258EAFA5-E914-47DA-95CA-C5AB0DC85B11".as_bytes();
    let mut input: Vec<u8> = Vec::new();
    let mut i: usize = 0;
    while i < key.len()
        invariant
            i <= key.len(),
            input@ == key@.take(i as int),
        decreases key.len() - i,
    {
        input.push(key[i]);
        i = i + 1;
    }
    let mut j: usize = 0;
    while j < guid.len()
        invariant
            j <= guid.len(),
            input@ == key@ + guid@.take(j as int),
        decreases guid.len() - j,
    {
        input.push(guid[j]);
        j = j + 1;
    }
    assert(guid@.take(j as int) =~= guid@);
    let digest = sha1_of(input.as_slice());
    base64_of(digest.as_slice())
}

} // verus!
