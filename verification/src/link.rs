//! Checking a link before it is shortened.

use vstd::prelude::*;
use crate::configuration::{is_accepted_scheme, is_accepted_uri, lemma_accepted_schemes};
use crate::error::Error;
use crate::text::str_eq;

verus! {

/// The parts of a parsed URL that the shortener reads: its serialization, its scheme
/// and its host, if it has one.
pub type UrlParts = (Seq<char>, Seq<char>, Option<Seq<char>>);

/// What `url::Url::parse` gives back for `input`: the serialization, scheme and host
/// of the URL, or why parsing failed.
pub uninterp spec fn url_parse(input: Seq<char>) -> Result<UrlParts, Seq<char>>;

/// A URL as plain values.
pub struct ParsedUrl {
    /// The whole URL as the parser writes it out.
    pub serialization: String,
    pub scheme: String,
    pub host: Option<String>,
}

impl View for ParsedUrl {
    type V = UrlParts;

    open spec fn view(&self) -> UrlParts {
        (
            self.serialization@,
            self.scheme@,
            match self.host {
                Some(h) => Some(h@),
                None => None,
            },
        )
    }
}

pub open spec fn parsed_view(r: Result<ParsedUrl, String>) -> Result<UrlParts, Seq<char>> {
    match r {
        Ok(u) => Ok(u@),
        Err(e) => Err(e@),
    }
}

/// Parses `input` with `url::Url::parse` and reads the serialization (`as_str`),
/// `scheme` and `host_str` of the URL, or the description (`to_string`) of the parse
/// error; the result is named by `url_parse`.
#[verifier::external_body]
fn parse_url(input: &str) -> (r: Result<ParsedUrl, String>)
    ensures
        parsed_view(r) == url_parse(input@),
{
    match url::Url::parse(input) {
        Ok(u) => Ok(
            ParsedUrl {
                serialization: u.as_str().to_string(),
                scheme: u.scheme().to_string(),
                host: u.host_str().map(|h| h.to_string()),
            },
        ),
        Err(e) => Err(e.to_string()),
    }
}

/// Whether `r` is what a link check ends in, given the parsed link and the
/// shortener's own host: the parse error; `InvalidScheme` for a scheme that is not
/// accepted; `InvalidLink` for a URL without a host or one that points at the
/// shortener itself; otherwise the URL to store.
pub open spec fn link_check(
    parsed: Result<UrlParts, Seq<char>>,
    vanity_host: Seq<char>,
    r: Result<String, Error>,
) -> bool {
    match parsed {
        Err(e) => r matches Err(Error::ParseError(m)) && m@ == e,
        Ok((serialization, scheme, host)) => {
            if !is_accepted_scheme(scheme) {
                r matches Err(Error::InvalidScheme)
            } else if host is None || host == Some(vanity_host) {
                r matches Err(Error::InvalidLink)
            } else {
                r matches Ok(s) && s@ == serialization
            }
        },
    }
}

/// The rules of the link check, stated on the parsed parts: a link to the shortener's
/// own host is never accepted, whatever its scheme; a scheme outside http, https, ftp,
/// sftp, spotify, steam, git and magnet is refused as `InvalidScheme`; and an accepted
/// link is the parsed URL itself, with one of those schemes and a host of its own.
pub proof fn lemma_link_check_rules(
    parsed: Result<UrlParts, Seq<char>>,
    vanity_host: Seq<char>,
    r: Result<String, Error>,
)
    requires
        link_check(parsed, vanity_host, r),
    ensures
        parsed matches Ok((_, _, Some(h))) && h == vanity_host ==> r is Err,
        parsed matches Ok((_, sc, _)) && !(sc == "http"@ || sc == "https"@ || sc == "ftp"@ || sc == "sftp"@ || sc == "spotify"@
            || sc == "steam"@ || sc == "git"@ || sc == "magnet"@) ==> r matches Err(Error::InvalidScheme),
        parsed matches Ok((_, sc, h)) && (sc == "http"@ || sc == "https"@ || sc == "ftp"@ || sc == "sftp"@ || sc == "spotify"@
            || sc == "steam"@ || sc == "git"@ || sc == "magnet"@) && (h is None || h == Some(vanity_host))
            ==> r matches Err(Error::InvalidLink),
        r matches Ok(s) ==> parsed matches Ok((ser, sc, Some(h))) && s@ == ser && h != vanity_host
            && (sc == "http"@ || sc == "https"@ || sc == "ftp"@ || sc == "sftp"@ || sc == "spotify"@
            || sc == "steam"@ || sc == "git"@ || sc == "magnet"@),
{
    match parsed {
        Ok((_, sc, _)) => {
            lemma_accepted_schemes(sc);
        },
        Err(_) => {},
    }
}

/// Checks a parsed link against the rules of the shortener; on success gives back the
/// URL to store.
pub fn check_parsed_link(parsed: Result<ParsedUrl, String>, vanity_host: &str) -> (r: Result<String, Error>)
    ensures
        link_check(parsed_view(parsed), vanity_host@, r),
        parsed_view(parsed) matches Ok((_, _, Some(h))) && h == vanity_host@ ==> r is Err,
        parsed_view(parsed) matches Ok((_, sc, _)) && !(sc == "http"@ || sc == "https"@ || sc == "ftp"@ || sc == "sftp"@ || sc == "spotify"@
            || sc == "steam"@ || sc == "git"@ || sc == "magnet"@) ==> r matches Err(
            Error::InvalidScheme,
        ),
        r matches Ok(s) ==> parsed_view(parsed) matches Ok((ser, sc, Some(h))) && s@ == ser && h
            != vanity_host@ && (sc == "http"@ || sc == "https"@ || sc == "ftp"@ || sc == "sftp"@ || sc == "spotify"@
            || sc == "steam"@ || sc == "git"@ || sc == "magnet"@),
{
    let ghost pv = parsed_view(parsed);
    let r = match parsed {
        Err(e) => Err(Error::ParseError(e)),
        Ok(url) => {
            if !is_accepted_uri(url.scheme.as_str()) {
                proof {
                    lemma_link_check_rules(pv, vanity_host@, Err(Error::InvalidScheme));
                }
                return Err(Error::InvalidScheme);
            }
            match url.host {
                None => Err(Error::InvalidLink),
                Some(host) => {
                    // Why would we ever want a short link to another short link?
                    if str_eq(host.as_str(), vanity_host) {
                        Err(Error::InvalidLink)
                    } else {
                        Ok(url.serialization)
                    }
                },
            }
        },
    };
    proof {
        lemma_link_check_rules(pv, vanity_host@, r);
    }
    r
}

/// Parses a link and checks it against the rules of the shortener; on success gives
/// back the URL to store.
pub fn check_link(link: &str, vanity_host: &str) -> (r: Result<String, Error>)
    ensures
        link_check(url_parse(link@), vanity_host@, r),
        url_parse(link@) matches Ok((_, _, Some(h))) && h == vanity_host@ ==> r is Err,
        url_parse(link@) matches Ok((_, sc, _)) && !(sc == "http"@ || sc == "https"@ || sc == "ftp"@ || sc == "sftp"@ || sc == "spotify"@
            || sc == "steam"@ || sc == "git"@ || sc == "magnet"@) ==> r matches Err(
            Error::InvalidScheme,
        ),
        r matches Ok(s) ==> url_parse(link@) matches Ok((ser, sc, Some(h))) && s@ == ser && h
            != vanity_host@ && (sc == "http"@ || sc == "https"@ || sc == "ftp"@ || sc == "sftp"@ || sc == "spotify"@
            || sc == "steam"@ || sc == "git"@ || sc == "magnet"@),
{
    let parsed = parse_url(link);
    check_parsed_link(parsed, vanity_host)
}

} // verus!
