//! A very simple link shortening service: links are checked, stored under sequential
//! keys, and handed out as short paths made by hashids; the arithmetic module holds
//! the extended Euclidean algorithm and modular inverses.

use vstd::prelude::*;

pub mod actions;
pub mod configuration;
pub mod error;
pub mod hasher;
pub mod link;
pub mod math;
pub mod message;
pub mod shortener;
pub mod text;

use crate::configuration::is_accepted_scheme;
use crate::text::str_eq;

verus! {

/// The URI schemes accepted by `is_accepted_uri`: those of
/// `configuration::is_accepted_uri` and `ftps`.
pub open spec fn is_accepted_scheme_or_ftps(uri: Seq<char>) -> bool {
    is_accepted_scheme(uri) || uri == "ftps"@
}

/// Whether a link with the URI scheme `uri` may be shortened, `ftps` included.
pub fn is_accepted_uri(uri: &str) -> (accepted: bool)
    ensures
        accepted == is_accepted_scheme_or_ftps(uri@),
        accepted <==> (uri@ == "http"@ || uri@ == "https"@ || uri@ == "ftp"@ || uri@ == "sftp"@
            || uri@ == "ftps"@ || uri@ == "spotify"@ || uri@ == "steam"@ || uri@ == "git"@ || uri@
            == "magnet"@),
{
    str_eq(uri, "http") || str_eq(uri, "https") || str_eq(uri, "ftp") || str_eq(uri, "sftp")
        || str_eq(uri, "ftps") || str_eq(uri, "spotify") || str_eq(uri, "steam") || str_eq(
        uri,
        "git",
    ) || str_eq(uri, "magnet")
}

/// Exactly nine URI schemes are accepted by `is_accepted_uri`: http, https, ftp, sftp,
/// ftps, spotify, steam, git and magnet; every other string, such as ws, ssh, mailto or
/// file, is refused.
pub proof fn lemma_accepted_schemes_or_ftps(uri: Seq<char>)
    ensures
        is_accepted_scheme_or_ftps(uri) <==> (uri == "http"@ || uri == "https"@ || uri == "ftp"@
            || uri == "sftp"@ || uri == "ftps"@ || uri == "spotify"@ || uri == "steam"@ || uri
            == "git"@ || uri == "magnet"@),
        !is_accepted_scheme_or_ftps("ws"@),
        !is_accepted_scheme_or_ftps("ssh"@),
        !is_accepted_scheme_or_ftps("mailto"@),
        !is_accepted_scheme_or_ftps("file"@),
{
    reveal_strlit("http");
    reveal_strlit("https");
    reveal_strlit("ftp");
    reveal_strlit("sftp");
    reveal_strlit("ftps");
    reveal_strlit("spotify");
    reveal_strlit("steam");
    reveal_strlit("git");
    reveal_strlit("magnet");
    reveal_strlit("ws");
    reveal_strlit("ssh");
    reveal_strlit("mailto");
    reveal_strlit("file");
    assert("ws"@ != "http"@) by {
        assert("ws"@.len() != "http"@.len());
    }
    assert("ws"@ != "https"@) by {
        assert("ws"@.len() != "https"@.len());
    }
    assert("ws"@ != "ftp"@) by {
        assert("ws"@.len() != "ftp"@.len());
    }
    assert("ws"@ != "sftp"@) by {
        assert("ws"@.len() != "sftp"@.len());
    }
    assert("ws"@ != "ftps"@) by {
        assert("ws"@.len() != "ftps"@.len());
    }
    assert("ws"@ != "spotify"@) by {
        assert("ws"@.len() != "spotify"@.len());
    }
    assert("ws"@ != "steam"@) by {
        assert("ws"@.len() != "steam"@.len());
    }
    assert("ws"@ != "git"@) by {
        assert("ws"@.len() != "git"@.len());
    }
    assert("ws"@ != "magnet"@) by {
        assert("ws"@.len() != "magnet"@.len());
    }
    assert("ssh"@ != "http"@) by {
        assert("ssh"@.len() != "http"@.len());
    }
    assert("ssh"@ != "https"@) by {
        assert("ssh"@.len() != "https"@.len());
    }
    assert("ssh"@ != "ftp"@) by {
        assert(("ssh"@)[0] != ("ftp"@)[0]);
    }
    assert("ssh"@ != "sftp"@) by {
        assert("ssh"@.len() != "sftp"@.len());
    }
    assert("ssh"@ != "ftps"@) by {
        assert("ssh"@.len() != "ftps"@.len());
    }
    assert("ssh"@ != "spotify"@) by {
        assert("ssh"@.len() != "spotify"@.len());
    }
    assert("ssh"@ != "steam"@) by {
        assert("ssh"@.len() != "steam"@.len());
    }
    assert("ssh"@ != "git"@) by {
        assert(("ssh"@)[0] != ("git"@)[0]);
    }
    assert("ssh"@ != "magnet"@) by {
        assert("ssh"@.len() != "magnet"@.len());
    }
    assert("mailto"@ != "http"@) by {
        assert("mailto"@.len() != "http"@.len());
    }
    assert("mailto"@ != "https"@) by {
        assert("mailto"@.len() != "https"@.len());
    }
    assert("mailto"@ != "ftp"@) by {
        assert("mailto"@.len() != "ftp"@.len());
    }
    assert("mailto"@ != "sftp"@) by {
        assert("mailto"@.len() != "sftp"@.len());
    }
    assert("mailto"@ != "ftps"@) by {
        assert("mailto"@.len() != "ftps"@.len());
    }
    assert("mailto"@ != "spotify"@) by {
        assert("mailto"@.len() != "spotify"@.len());
    }
    assert("mailto"@ != "steam"@) by {
        assert("mailto"@.len() != "steam"@.len());
    }
    assert("mailto"@ != "git"@) by {
        assert("mailto"@.len() != "git"@.len());
    }
    assert("mailto"@ != "magnet"@) by {
        assert(("mailto"@)[2] != ("magnet"@)[2]);
    }
    assert("file"@ != "http"@) by {
        assert(("file"@)[0] != ("http"@)[0]);
    }
    assert("file"@ != "https"@) by {
        assert("file"@.len() != "https"@.len());
    }
    assert("file"@ != "ftp"@) by {
        assert("file"@.len() != "ftp"@.len());
    }
    assert("file"@ != "sftp"@) by {
        assert(("file"@)[0] != ("sftp"@)[0]);
    }
    assert("file"@ != "ftps"@) by {
        assert(("file"@)[1] != ("ftps"@)[1]);
    }
    assert("file"@ != "spotify"@) by {
        assert("file"@.len() != "spotify"@.len());
    }
    assert("file"@ != "steam"@) by {
        assert("file"@.len() != "steam"@.len());
    }
    assert("file"@ != "git"@) by {
        assert("file"@.len() != "git"@.len());
    }
    assert("file"@ != "magnet"@) by {
        assert("file"@.len() != "magnet"@.len());
    }
}

/// Every scheme that `configuration::is_accepted_uri` accepts, `is_accepted_uri` accepts too.
pub proof fn lemma_accepted_schemes_nested(uri: Seq<char>)
    ensures
        is_accepted_scheme(uri) ==> is_accepted_scheme_or_ftps(uri),
{
}

} // verus!
