use vstd::prelude::*;
use vstd::utf8::*;

use crate::error::Error;

verus! {

/// Relies on `String::from_utf8`: the text that `bytes` encode in UTF-8, or
/// nothing where they are not valid UTF-8.
#[verifier::external_body]
fn utf8_to_string(bytes: Vec<u8>) -> (r: Option<String>)
    ensures
        match r {
            Some(s) => valid_utf8(bytes@) && s@ == decode_utf8(bytes@),
            None => !valid_utf8(bytes@),
        },
{
    String::from_utf8(bytes).ok()
}

/// Encodes text as its UTF-8 bytes.
pub fn encode_text(s: &str) -> (r: Vec<u8>)
    ensures
        r@ == encode_utf8(s@),
{
    s.as_bytes_vec()
}

/// Copies a byte buffer.
pub fn copy_bytes(b: &Vec<u8>) -> (r: Vec<u8>)
    ensures
        r@ == b@,
{
    let mut r: Vec<u8> = Vec::with_capacity(b.len());
    let mut i: usize = 0;
    while i < b.len()
        invariant
            i <= b@.len(),
            r@ == b@.subrange(0, i as int),
        decreases b@.len() - i,
    {
        r.push(b[i]);
        i += 1;
        assert(r@ =~= b@.subrange(0, i as int));
    }
    assert(r@ =~= b@);
    r
}

/// The error reported for a body that is not valid UTF-8 text.
pub open spec fn is_text_decode_error(e: Error, len: nat) -> bool {
    e is Decode && e->len == len
}

/// Decodes UTF-8 bytes into text, without consuming them.
pub fn decode_text(bytes: &Vec<u8>) -> (r: Result<String, Error>)
    ensures
        match r {
            Ok(s) => valid_utf8(bytes@) && s@ == decode_utf8(bytes@),
            Err(e) => !valid_utf8(bytes@) && is_text_decode_error(e, bytes@.len()),
        },
{
    match utf8_to_string(copy_bytes(bytes)) {
        Some(s) => Ok(s),
        None => Err(
            Error::Decode { len: bytes.len(), cause: "body is not valid UTF-8".to_owned() },
        ),
    }
}

/// Encoding text and decoding the bytes gives the text back.
pub proof fn lemma_text_round_trip(s: Seq<char>)
    ensures
        valid_utf8(encode_utf8(s)),
        decode_utf8(encode_utf8(s)) == s,
{
    encode_utf8_valid_utf8(s);
    encode_utf8_decode_utf8(s);
}

} // verus!
