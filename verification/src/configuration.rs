//! The settings of a running shortener: its own domain, where its assets live,
//! the address it listens on, and the hasher that makes short paths.

use vstd::prelude::*;
use crate::hasher::{LinkHasher, alphabet_accepted, all_ascii};
use crate::text::{concat, str_eq};

verus! {

/// Base 35, note that the `l` is skipped.
pub const ALPHABET: &'static str = "abcdefghijkmnopqrstuvwxyz0123456789";

/// The least length of a short path.
pub const SHORT_PATH_LENGTH: usize = 3;

/// The URI schemes that a link to shorten may have.
pub open spec fn is_accepted_scheme(uri: Seq<char>) -> bool {
    ||| uri == "http"@
    ||| uri == "https"@
    ||| uri == "ftp"@
    ||| uri == "sftp"@
    ||| uri == "spotify"@
    ||| uri == "steam"@
    ||| uri == "git"@
    ||| uri == "magnet"@
}

/// Whether a link with the URI scheme `uri` may be shortened.
pub fn is_accepted_uri(uri: &str) -> (accepted: bool)
    ensures
        accepted == is_accepted_scheme(uri@),
        accepted <==> (uri@ == "http"@ || uri@ == "https"@ || uri@ == "ftp"@ || uri@ == "sftp"@
            || uri@ == "spotify"@ || uri@ == "steam"@ || uri@ == "git"@ || uri@ == "magnet"@),
{
    str_eq(uri, "http") || str_eq(uri, "https") || str_eq(uri, "ftp") || str_eq(uri, "sftp")
        || str_eq(uri, "spotify") || str_eq(uri, "steam") || str_eq(uri, "git") || str_eq(
        uri,
        "magnet",
    )
}

/// Where the assets live when no address is given for them: below the own domain.
pub open spec fn default_assets_url(vanity_domain: Seq<char>) -> Seq<char> {
    vanity_domain + "/assets"@
}

/// The address to listen on, `host:port`, with host `0.0.0.0` and port `80` by default.
pub open spec fn listen_address(host: Option<Seq<char>>, port: Option<Seq<char>>) -> Seq<char> {
    let h = match host {
        Some(h) => h,
        None => "0.0.0.0"@,
    };
    let p = match port {
        Some(p) => p,
        None => "80"@,
    };
    h + ":"@ + p
}

pub open spec fn opt_view(o: Option<&str>) -> Option<Seq<char>> {
    match o {
        Some(s) => Some(s@),
        None => None,
    }
}

/// The settings of a running shortener.
pub struct Configuration {
    vanity_domain: String,
    assets_url: String,
    address: String,
    hasher: LinkHasher,
}

impl Configuration {
    #[verifier::type_invariant]
    spec fn hasher_well_formed(self) -> bool {
        &&& self.hasher.well_formed()
        &&& self.hasher@.0 == ALPHABET@
        &&& self.hasher@.2 == SHORT_PATH_LENGTH
    }

    pub closed spec fn spec_vanity_domain(self) -> Seq<char> {
        self.vanity_domain@
    }

    pub closed spec fn spec_assets_url(self) -> Seq<char> {
        self.assets_url@
    }

    pub closed spec fn spec_address(self) -> Seq<char> {
        self.address@
    }

    pub closed spec fn spec_hasher(self) -> LinkHasher {
        self.hasher
    }

    /// The settings from the values found in the environment: the own domain, the
    /// address of the assets if one is given, the host and port to listen on if given,
    /// and the salt of the hasher.
    pub fn new(
        vanity_domain: &str,
        assets_url: Option<&str>,
        host: Option<&str>,
        port: Option<&str>,
        salt: &str,
    ) -> (config: Configuration)
        ensures
            config.spec_vanity_domain() == vanity_domain@,
            config.spec_assets_url() == (match assets_url {
                Some(a) => a@,
                None => default_assets_url(vanity_domain@),
            }),
            config.spec_address() == listen_address(opt_view(host), opt_view(port)),
            config.spec_address() == (match host {
                Some(h) => h@,
                None => "0.0.0.0"@,
            }) + ":"@ + (match port {
                Some(p) => p@,
                None => "80"@,
            }),
            config.spec_hasher()@ == (ALPHABET@, salt@, SHORT_PATH_LENGTH as nat),
    {
        let assets = match assets_url {
            Some(a) => a.to_owned(),
            None => concat(vanity_domain, "/assets"),
        };
        let h: &str = match host {
            Some(h) => h,
            None => "0.0.0.0",
        };
        let p: &str = match port {
            Some(p) => p,
            None => "80",
        };
        let mut address = concat(h, ":");
        address.append(p);
        proof {
            lemma_alphabet_accepted();
        }
        let hasher = LinkHasher::new(ALPHABET, salt, SHORT_PATH_LENGTH).unwrap();
        Configuration { vanity_domain: vanity_domain.to_owned(), assets_url: assets, address, hasher }
    }

    /// The domain under which the short links are served.
    pub fn vanity_domain(&self) -> (r: &str)
        ensures
            r@ == self.spec_vanity_domain(),
    {
        self.vanity_domain.as_str()
    }

    /// The address of the assets of the pages.
    pub fn assets_url(&self) -> (r: &str)
        ensures
            r@ == self.spec_assets_url(),
    {
        self.assets_url.as_str()
    }

    /// The address to listen on.
    pub fn address(&self) -> (r: &str)
        ensures
            r@ == self.spec_address(),
    {
        self.address.as_str()
    }

    /// The hasher that makes short paths.
    pub fn hasher(&self) -> (r: &LinkHasher)
        ensures
            *r == self.spec_hasher(),
            r.well_formed(),
            r@.0 == ALPHABET@,
            r@.2 == SHORT_PATH_LENGTH,
    {
        proof {
            use_type_invariant(self);
        }
        &self.hasher
    }
}

/// Exactly eight URI schemes are accepted: http, https, ftp, sftp, spotify, steam, git
/// and magnet; every other string, such as ws, ssh, ftps, mailto or file, is refused.
pub proof fn lemma_accepted_schemes(uri: Seq<char>)
    ensures
        is_accepted_scheme(uri) <==> (uri == "http"@ || uri == "https"@ || uri == "ftp"@ || uri
            == "sftp"@ || uri == "spotify"@ || uri == "steam"@ || uri == "git"@ || uri
            == "magnet"@),
        !is_accepted_scheme("ws"@),
        !is_accepted_scheme("ssh"@),
        !is_accepted_scheme("ftps"@),
        !is_accepted_scheme("mailto"@),
        !is_accepted_scheme("file"@),
{
    reveal_strlit("http");
    reveal_strlit("https");
    reveal_strlit("ftp");
    reveal_strlit("sftp");
    reveal_strlit("spotify");
    reveal_strlit("steam");
    reveal_strlit("git");
    reveal_strlit("magnet");
    reveal_strlit("ws");
    reveal_strlit("ssh");
    reveal_strlit("ftps");
    reveal_strlit("mailto");
    reveal_strlit("file");
    assert("ws"@ != "http"@) by {
        assert("ws"@.len() != "http"@.len());
    }
    assert("ws"@ != "https"@) by {
        assert("ws"@.len() != "https"@.len());
    }
    assert("ws"@ != "ftp"@) by {
        assert("ws"@.len() != "ftp"@.len());
    }
    assert("ws"@ != "sftp"@) by {
        assert("ws"@.len() != "sftp"@.len());
    }
    assert("ws"@ != "spotify"@) by {
        assert("ws"@.len() != "spotify"@.len());
    }
    assert("ws"@ != "steam"@) by {
        assert("ws"@.len() != "steam"@.len());
    }
    assert("ws"@ != "git"@) by {
        assert("ws"@.len() != "git"@.len());
    }
    assert("ws"@ != "magnet"@) by {
        assert("ws"@.len() != "magnet"@.len());
    }
    assert("ssh"@ != "http"@) by {
        assert("ssh"@.len() != "http"@.len());
    }
    assert("ssh"@ != "https"@) by {
        assert("ssh"@.len() != "https"@.len());
    }
    assert("ssh"@ != "ftp"@) by {
        assert(("ssh"@)[0] != ("ftp"@)[0]);
    }
    assert("ssh"@ != "sftp"@) by {
        assert("ssh"@.len() != "sftp"@.len());
    }
    assert("ssh"@ != "spotify"@) by {
        assert("ssh"@.len() != "spotify"@.len());
    }
    assert("ssh"@ != "steam"@) by {
        assert("ssh"@.len() != "steam"@.len());
    }
    assert("ssh"@ != "git"@) by {
        assert(("ssh"@)[0] != ("git"@)[0]);
    }
    assert("ssh"@ != "magnet"@) by {
        assert("ssh"@.len() != "magnet"@.len());
    }
    assert("ftps"@ != "http"@) by {
        assert(("ftps"@)[0] != ("http"@)[0]);
    }
    assert("ftps"@ != "https"@) by {
        assert("ftps"@.len() != "https"@.len());
    }
    assert("ftps"@ != "ftp"@) by {
        assert("ftps"@.len() != "ftp"@.len());
    }
    assert("ftps"@ != "sftp"@) by {
        assert(("ftps"@)[0] != ("sftp"@)[0]);
    }
    assert("ftps"@ != "spotify"@) by {
        assert("ftps"@.len() != "spotify"@.len());
    }
    assert("ftps"@ != "steam"@) by {
        assert("ftps"@.len() != "steam"@.len());
    }
    assert("ftps"@ != "git"@) by {
        assert("ftps"@.len() != "git"@.len());
    }
    assert("ftps"@ != "magnet"@) by {
        assert("ftps"@.len() != "magnet"@.len());
    }
    assert("mailto"@ != "http"@) by {
        assert("mailto"@.len() != "http"@.len());
    }
    assert("mailto"@ != "https"@) by {
        assert("mailto"@.len() != "https"@.len());
    }
    assert("mailto"@ != "ftp"@) by {
        assert("mailto"@.len() != "ftp"@.len());
    }
    assert("mailto"@ != "sftp"@) by {
        assert("mailto"@.len() != "sftp"@.len());
    }
    assert("mailto"@ != "spotify"@) by {
        assert("mailto"@.len() != "spotify"@.len());
    }
    assert("mailto"@ != "steam"@) by {
        assert("mailto"@.len() != "steam"@.len());
    }
    assert("mailto"@ != "git"@) by {
        assert("mailto"@.len() != "git"@.len());
    }
    assert("mailto"@ != "magnet"@) by {
        assert(("mailto"@)[2] != ("magnet"@)[2]);
    }
    assert("file"@ != "http"@) by {
        assert(("file"@)[0] != ("http"@)[0]);
    }
    assert("file"@ != "https"@) by {
        assert("file"@.len() != "https"@.len());
    }
    assert("file"@ != "ftp"@) by {
        assert("file"@.len() != "ftp"@.len());
    }
    assert("file"@ != "sftp"@) by {
        assert(("file"@)[0] != ("sftp"@)[0]);
    }
    assert("file"@ != "spotify"@) by {
        assert("file"@.len() != "spotify"@.len());
    }
    assert("file"@ != "steam"@) by {
        assert("file"@.len() != "steam"@.len());
    }
    assert("file"@ != "git"@) by {
        assert("file"@.len() != "git"@.len());
    }
    assert("file"@ != "magnet"@) by {
        assert("file"@.len() != "magnet"@.len());
    }
}

/// The listen address is the host, a colon and the port; the host and the port each
/// fall back to their default (`0.0.0.0` and `80`) on their own, whatever the other is.
pub proof fn lemma_listen_address(host: Option<Seq<char>>, port: Option<Seq<char>>)
    ensures
        listen_address(host, port) == (match host {
            Some(h) => h,
            None => "0.0.0.0"@,
        }) + ":"@ + (match port {
            Some(p) => p,
            None => "80"@,
        }),
        host matches Some(h) ==> listen_address(host, port).take(h.len() as int) == h,
        port matches Some(p) ==> listen_address(host, port).skip(
            listen_address(host, port).len() - p.len(),
        ) == p,
        host is None ==> listen_address(host, port).take(8) == "0.0.0.0:"@,
{
    reveal_strlit("0.0.0.0");
    reveal_strlit(":");
    reveal_strlit("0.0.0.0:");
    let h = match host {
        Some(h) => h,
        None => "0.0.0.0"@,
    };
    let p = match port {
        Some(p) => p,
        None => "80"@,
    };
    let a = h + ":"@ + p;
    assert(a.take(h.len() as int) =~= h);
    assert(a.skip(a.len() - p.len()) =~= p);
    if host is None {
        assert(a.take(8) =~= "0.0.0.0:"@);
    }
}

/// The alphabet of short paths is ASCII and accepted by the hasher.
pub proof fn lemma_alphabet_accepted()
    ensures
        ALPHABET@.len() == 35,
        !ALPHABET@.contains('l'),
        all_ascii(ALPHABET@),
        alphabet_accepted(ALPHABET@),
{
    reveal_strlit("abcdefghijkmnopqrstuvwxyz0123456789");
    let s = ALPHABET@;
    assert(s.len() == 35);
    assert(!s.contains(' '));
    assert(!s.contains('l'));
    let first = set!['a', 'b', 'c', 'd', 'e', 'f', 'g', 'h', 'i', 'j', 'k', 'm', 'n', 'o', 'p', 'q'];
    assert(first.len() == 16);
    assert(first.subset_of(s.to_set())) by {
        assert(s[0] == 'a' && s[1] == 'b' && s[2] == 'c' && s[3] == 'd' && s[4] == 'e');
        assert(s[5] == 'f' && s[6] == 'g' && s[7] == 'h' && s[8] == 'i' && s[9] == 'j');
        assert(s[10] == 'k' && s[11] == 'm' && s[12] == 'n' && s[13] == 'o' && s[14] == 'p');
        assert(s[15] == 'q');
    }
    vstd::set_lib::lemma_len_subset(first, s.to_set());
}

} // verus!
