//! What the shortener decides around its database: how a key is written as a
//! database key, which key a new link gets, and what a stored value means.

use vstd::prelude::*;
use vstd::utf8::{decode_utf8, encode_utf8, encode_utf8_decode_utf8, encode_utf8_valid_utf8, valid_utf8};

verus! {

/// The eight bytes of `key`, most significant first.
pub open spec fn be_bytes(key: u64) -> Seq<u8> {
    seq![
        (key >> 56u64) as u8,
        (key >> 48u64) as u8,
        (key >> 40u64) as u8,
        (key >> 32u64) as u8,
        (key >> 24u64) as u8,
        (key >> 16u64) as u8,
        (key >> 8u64) as u8,
        key as u8,
    ]
}

/// The database key under which the link with `key` is stored: its big-endian bytes.
pub fn link_key_bytes(key: u64) -> (bytes: Vec<u8>)
    ensures
        bytes@ == be_bytes(key),
{
    vec![
        (key >> 56u64) as u8,
        (key >> 48u64) as u8,
        (key >> 40u64) as u8,
        (key >> 32u64) as u8,
        (key >> 24u64) as u8,
        (key >> 16u64) as u8,
        (key >> 8u64) as u8,
        key as u8,
    ]
}

/// Distinct keys are stored under distinct database keys.
pub proof fn lemma_link_key_bytes_injective(a: u64, b: u64)
    requires
        be_bytes(a) == be_bytes(b),
    ensures
        a == b,
{
    assert(be_bytes(a)[0] == be_bytes(b)[0]);
    assert(be_bytes(a)[1] == be_bytes(b)[1]);
    assert(be_bytes(a)[2] == be_bytes(b)[2]);
    assert(be_bytes(a)[3] == be_bytes(b)[3]);
    assert(be_bytes(a)[4] == be_bytes(b)[4]);
    assert(be_bytes(a)[5] == be_bytes(b)[5]);
    assert(be_bytes(a)[6] == be_bytes(b)[6]);
    assert(be_bytes(a)[7] == be_bytes(b)[7]);
    assert(a == b) by (bit_vector)
        requires
            (a >> 56u64) as u8 == (b >> 56u64) as u8,
            (a >> 48u64) as u8 == (b >> 48u64) as u8,
            (a >> 40u64) as u8 == (b >> 40u64) as u8,
            (a >> 32u64) as u8 == (b >> 32u64) as u8,
            (a >> 24u64) as u8 == (b >> 24u64) as u8,
            (a >> 16u64) as u8 == (b >> 16u64) as u8,
            (a >> 8u64) as u8 == (b >> 8u64) as u8,
            a as u8 == b as u8,
    ;
}

/// The key of a new link: one past the database's latest sequence number.
pub fn next_link_key(latest_sequence_number: u64) -> (key: u64)
    requires
        latest_sequence_number < u64::MAX,
    ensures
        key == latest_sequence_number + 1,
{
    latest_sequence_number + 1
}

/// `String::from_utf8`: the string that `bytes` encode in UTF-8, or nothing where
/// `bytes` are not valid UTF-8 (the error and the bytes it hands back are dropped).
#[verifier::external_body]
fn string_from_utf8(bytes: Vec<u8>) -> (r: Option<String>)
    ensures
        r is Some <==> valid_utf8(bytes@),
        r matches Some(s) ==> s@ == decode_utf8(bytes@),
{
    match String::from_utf8(bytes) {
        Ok(s) => Some(s),
        Err(_) => None,
    }
}

/// The link that a database lookup found: the stored bytes read as UTF-8, nothing
/// where no value is stored or the lookup failed.
pub fn stored_link(lookup: Result<Option<Vec<u8>>, String>) -> (link: Option<String>)
    requires
        lookup matches Ok(Some(v)) ==> valid_utf8(v@),
    ensures
        match lookup {
            Ok(Some(v)) => link matches Some(s) && s@ == decode_utf8(v@),
            _ => link is None,
        },
{
    match lookup {
        Ok(Some(value)) => {
            let s = string_from_utf8(value);
            s
        },
        Ok(None) => None,
        Err(_) => None,
    }
}

/// The database value stored for `link`: its UTF-8 bytes.
pub fn link_value_bytes(link: &str) -> (bytes: Vec<u8>)
    ensures
        bytes@ == encode_utf8(link@),
{
    link.as_bytes_vec()
}

/// A stored link reads back as the link that was stored: its bytes are valid UTF-8
/// and `stored_link` decodes them to the same characters.
pub proof fn lemma_stored_link_round_trip(link: Seq<char>)
    ensures
        valid_utf8(encode_utf8(link)),
        decode_utf8(encode_utf8(link)) == link,
{
    encode_utf8_valid_utf8(link);
    encode_utf8_decode_utf8(link);
}

} // verus!
