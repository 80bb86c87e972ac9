//! The decisions of the shortener's requests: what a new short link looks like,
//! which key a short path stands for, where a redirect goes, and the page that
//! reports an error.

use vstd::prelude::*;
use crate::configuration::{ALPHABET, Configuration, SHORT_PATH_LENGTH};
use crate::error::{Error, HashidError, decimal_digits, spec_description, spec_status_code};
use crate::hasher::{LinkHasher, decoded_to, hashid_decode, hashid_encode};
use crate::message::{Index, Message, MessageKind};
use crate::text::concat;
use vstd::utf8::encode_utf8;

verus! {

/// The short link for `short_path` under the shortener's own domain.
pub open spec fn short_url(vanity_domain: Seq<char>, short_path: Seq<char>) -> Seq<char> {
    "https://"@ + vanity_domain + "/"@ + short_path
}

/// The title of the message that hands out a short link.
pub open spec fn link_title() -> Seq<char> {
    "Here's your short link!"@
}

/// The message that hands out the short link of `key`. Its short path is at least
/// `SHORT_PATH_LENGTH` characters long, all of them from `ALPHABET`.
pub fn short_link_message(config: &Configuration, key: u64) -> (m: MessageKind)
    ensures
        ({
            let path = hashid_encode(config.spec_hasher()@, seq![key]);
            &&& path.len() >= SHORT_PATH_LENGTH
            &&& forall|i: int| 0 <= i < path.len() ==> ALPHABET@.contains(#[trigger] path[i])
        }),
        m matches MessageKind::Link(msg) && ({
            let prefix = "https://"@ + config.spec_vanity_domain() + "/"@;
            &&& msg.body@.len() > prefix.len()
            &&& msg.body@.take(prefix.len() as int) == prefix
            &&& hashid_decode(config.spec_hasher()@, msg.body@.skip(prefix.len() as int))
                == decoded_to(seq![key])
        }),
        m matches MessageKind::Link(msg) && msg.title@ == link_title() && msg.body@ == short_url(
            config.spec_vanity_domain(),
            hashid_encode(config.spec_hasher()@, seq![key]),
        ),
{
    let hasher = config.hasher();
    let short_path = hasher.encode(key);
    let mut body = concat("https://", config.vanity_domain());
    body.append("/");
    body.append(short_path.as_str());
    proof {
        lemma_short_url_resolves(*hasher, config.spec_vanity_domain(), key);
    }
    MessageKind::Link(Message { title: "Here's your short link!".to_owned(), body })
}

/// The short link of a key is `https://`, the domain, `/` and a path after it that
/// decodes back to exactly that key: the whole hashid, not a part of it.
pub proof fn lemma_short_url_resolves(hasher: LinkHasher, vanity_domain: Seq<char>, key: u64)
    requires
        hasher.well_formed(),
    ensures
        ({
            let prefix = "https://"@ + vanity_domain + "/"@;
            let url = short_url(vanity_domain, hashid_encode(hasher@, seq![key]));
            &&& url.len() == prefix.len() + hashid_encode(hasher@, seq![key]).len()
            &&& url.take(prefix.len() as int) == prefix
            &&& hashid_decode(hasher@, url.skip(prefix.len() as int)) == decoded_to(seq![key])
        }),
{
    let prefix = "https://"@ + vanity_domain + "/"@;
    let path = hashid_encode(hasher@, seq![key]);
    let url = short_url(vanity_domain, path);
    assert(url =~= prefix + path);
    assert(url.take(prefix.len() as int) =~= prefix);
    assert(url.skip(prefix.len() as int) =~= path);
    assert(hashid_decode(hasher@, path) == decoded_to(seq![key]));
}

/// The key that a decoding stands for: the first decoded value, or the decoding's error.
pub open spec fn resolution(decoded: Result<Seq<u64>, HashidError>) -> Result<u64, Error> {
    match decoded {
        Ok(values) => Ok(values[0]),
        Err(e) => Err(Error::HasherError(e)),
    }
}

/// The key that `short_path` stands for.
pub fn resolve_short_path(hasher: &LinkHasher, short_path: &str) -> (r: Result<u64, Error>)
    requires
        hasher.well_formed(),
        hashid_decode(hasher@, short_path@) is Some,
    ensures
        r == resolution(hashid_decode(hasher@, short_path@).unwrap()),
{
    match hasher.decode(short_path) {
        Ok(values) => Ok(values[0]),
        Err(e) => Err(Error::HasherError(e)),
    }
}

/// The key that `short_path` stands for, where the path has at most 9 UTF-8 bytes;
/// `None` for a longer path, which this function does not decode.
pub fn resolve_short_path_bounded(config: &Configuration, short_path: &str) -> (r: Option<Result<u64, Error>>)
    ensures
        encode_utf8(short_path@).len() <= 9 ==> r == Some(
            resolution(hashid_decode(config.spec_hasher()@, short_path@).unwrap()),
        ),
        encode_utf8(short_path@).len() > 9 ==> r is None,
{
    if short_path.as_bytes().len() > 9 {
        None
    } else {
        let hasher = config.hasher();
        Some(resolve_short_path(hasher, short_path))
    }
}

/// The short path of a key resolves back to that key.
pub proof fn lemma_short_path_round_trip(hasher: LinkHasher, key: u64)
    requires
        hasher.well_formed(),
    ensures
        hashid_decode(hasher@, hashid_encode(hasher@, seq![key])) is Some,
        resolution(hashid_decode(hasher@, hashid_encode(hasher@, seq![key])).unwrap()) matches Ok(
            k,
        ) && k == key,
{
    assert(hashid_decode(hasher@, hashid_encode(hasher@, seq![key])) == decoded_to(seq![key]));
}

/// Distinct keys get distinct short paths.
pub proof fn lemma_short_paths_distinct(hasher: LinkHasher, a: u64, b: u64)
    requires
        hasher.well_formed(),
        hashid_encode(hasher@, seq![a]) == hashid_encode(hasher@, seq![b]),
    ensures
        a == b,
{
    assert(hashid_decode(hasher@, hashid_encode(hasher@, seq![a])) == decoded_to(seq![a]));
    assert(hashid_decode(hasher@, hashid_encode(hasher@, seq![b])) == decoded_to(seq![b]));
    assert(seq![a][0] == seq![b][0]);
}

/// Where a redirect goes: the stored link, or `NotFound` where none is stored.
pub fn redirect_target(link: Option<String>) -> (r: Result<String, Error>)
    ensures
        match link {
            Some(l) => r matches Ok(t) && t == l,
            None => r matches Err(Error::NotFound),
        },
{
    match link {
        Some(l) => Ok(l),
        None => Err(Error::NotFound),
    }
}

/// The index page that reports `error`: its status code as title, its description as body.
pub fn error_page(config: &Configuration, error: &Error) -> (index: Index)
    ensures
        index.vanity_domain@ == config.spec_vanity_domain(),
        index.assets_url@ == config.spec_assets_url(),
        index.message matches Some(MessageKind::Error(msg)) && msg.title@ == decimal_digits(
            spec_status_code(*error) as nat,
        ) && msg.body@ == spec_description(*error),
{
    let title = error.status_text();
    let body = error.description().to_owned();
    Index::new(Some(MessageKind::Error(Message { title, body })), config)
}

} // verus!
