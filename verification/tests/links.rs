use gossamer::actions::{link_key_bytes, link_value_bytes, next_link_key, stored_link};
use gossamer::configuration::{self, Configuration, ALPHABET};
use gossamer::error::{decimal_string, Error, HashidError, HasherBuildError};
use gossamer::hasher::LinkHasher;
use gossamer::is_accepted_uri;
use gossamer::link::check_link;
use gossamer::message::{Index, MessageKind};
use gossamer::shortener::{
    error_page, redirect_target, resolve_short_path, resolve_short_path_bounded,
    short_link_message,
};

const DEFAULT_ALPHABET: &str = "abcdefghijklmnopqrstuvwxyzABCDEFGHIJKLMNOPQRSTUVWXYZ1234567890";

fn config() -> Configuration {
    Configuration::new("go.vech.ro", None, None, None, "hello")
}

#[test]
fn accepted_uri_schemes() {
    for scheme in ["http", "https", "ftp", "sftp", "spotify", "steam", "git", "magnet"] {
        assert!(configuration::is_accepted_uri(scheme));
        assert!(is_accepted_uri(scheme));
    }
    assert!(is_accepted_uri("ftps"));
    assert!(!configuration::is_accepted_uri("ftps"));
    for scheme in ["mailto", "file", "javascript", "HTTP", "", "http:"] {
        assert!(!configuration::is_accepted_uri(scheme));
        assert!(!is_accepted_uri(scheme));
    }
}

#[test]
fn check_link_accepts_a_plain_url() {
    match check_link("https://example.com/some/page?q=1", "go.vech.ro") {
        Ok(url) => assert_eq!(url, "https://example.com/some/page?q=1"),
        Err(e) => panic!("unexpected error {:?}", e),
    }
    match check_link("HTTP://Example.COM", "go.vech.ro") {
        Ok(url) => assert_eq!(url, "http://example.com/"),
        Err(e) => panic!("unexpected error {:?}", e),
    }
}

#[test]
fn check_link_refuses_bad_links() {
    assert!(matches!(check_link("mailto:someone@example.com", "go.vech.ro"), Err(Error::InvalidScheme)));
    assert!(matches!(check_link("https://go.vech.ro/abc", "go.vech.ro"), Err(Error::InvalidLink)));
    assert!(matches!(check_link("magnet:?xt=urn:btih:abc", "go.vech.ro"), Err(Error::InvalidLink)));
    match check_link("not a url", "go.vech.ro") {
        Err(Error::ParseError(m)) => assert_eq!(m, "relative URL without a base"),
        other => panic!("unexpected result {:?}", other),
    }
    match check_link("https://", "go.vech.ro") {
        Err(Error::ParseError(m)) => assert_eq!(m, "empty host"),
        other => panic!("unexpected result {:?}", other),
    }
}

#[test]
fn hasher_matches_known_hashids() {
    let h = LinkHasher::new(DEFAULT_ALPHABET, "this is my salt", 0).unwrap();
    assert_eq!(h.encode(1226198605112), "4o6Z7KqxE");
    assert_eq!(h.decode("4o6Z7KqxE").unwrap(), vec![1226198605112]);
    let h = LinkHasher::new(DEFAULT_ALPHABET, "", 3).unwrap();
    assert_eq!(h.encode(1), "ejR");
    assert_eq!(h.decode("ejR").unwrap(), vec![1]);
}

#[test]
fn hasher_refuses_bad_alphabets() {
    assert!(matches!(LinkHasher::new("abc", "salt", 3), Err(HasherBuildError::AlphabetLength)));
    assert!(matches!(
        LinkHasher::new("abcdefghijklmnop q", "salt", 3),
        Err(HasherBuildError::IllegalCharacter(' '))
    ));
    assert!(matches!(
        LinkHasher::new("aaaaaaaaaaaaaaaaaaaaaaaaaaaaaaaa", "salt", 3),
        Err(HasherBuildError::AlphabetLength)
    ));
    assert!(LinkHasher::new(ALPHABET, "salt", 3).is_ok());
}

#[test]
fn short_paths_round_trip() {
    let config = config();
    for key in [1u64, 2, 3, 42, 1000, 123456789, u64::MAX] {
        let path = config.hasher().encode(key);
        assert!(path.len() >= 3);
        assert!(path.chars().all(|c| ALPHABET.contains(c)));
        assert!(!path.contains('l'));
        assert_eq!(resolve_short_path(config.hasher(), &path).unwrap(), key);
    }
}

#[test]
fn resolve_refuses_foreign_paths() {
    let config = config();
    assert!(matches!(resolve_short_path(config.hasher(), ""), Err(Error::HasherError(HashidError::Decode))));
    assert!(matches!(resolve_short_path(config.hasher(), "$$$"), Err(Error::HasherError(HashidError::Decode))));
    assert!(resolve_short_path_bounded(&config, "abcdefghijk").is_none());
    // Three characters of four UTF-8 bytes each are too long for the bounded decoder.
    assert!(resolve_short_path_bounded(&config, "a\u{1F600}\u{1F600}\u{1F600}").is_none());
    let path = config.hasher().encode(7);
    assert_eq!(resolve_short_path_bounded(&config, &path).unwrap().unwrap(), 7);
}

#[test]
fn configuration_defaults() {
    let c = config();
    assert_eq!(c.vanity_domain(), "go.vech.ro");
    assert_eq!(c.assets_url(), "go.vech.ro/assets");
    assert_eq!(c.address(), "0.0.0.0:80");
    let c = Configuration::new("go.vech.ro", Some("cdn.example.com"), Some("127.0.0.1"), Some("8080"), "s");
    assert_eq!(c.assets_url(), "cdn.example.com");
    assert_eq!(c.address(), "127.0.0.1:8080");
}

#[test]
fn short_link_message_points_at_the_short_path() {
    let c = config();
    match short_link_message(&c, 5) {
        MessageKind::Link(m) => {
            assert_eq!(m.title, "Here's your short link!");
            assert_eq!(m.body, format!("https://go.vech.ro/{}", c.hasher().encode(5)));
        }
        MessageKind::Error(_) => panic!("expected a link message"),
    }
}

#[test]
fn errors_have_status_codes_and_messages() {
    assert_eq!(Error::NotFound.status_code(), 404);
    assert_eq!(Error::Unknown.status_code(), 500);
    assert_eq!(Error::ParseError("x".to_string()).status_code(), 400);
    assert_eq!(Error::UrlGenerationError("x".to_string()).status_code(), 400);
    assert_eq!(Error::InvalidLink.status_code(), 400);
    assert_eq!(Error::InvalidScheme.status_code(), 400);
    assert_eq!(Error::DatabaseError("x".to_string()).status_code(), 500);
    assert_eq!(Error::HasherError(HashidError::Decode).status_code(), 500);
    assert_eq!(Error::TemplateError("x".to_string()).status_code(), 500);
    assert_eq!(Error::NotFound.description(), "Requested file was not found");
    assert_eq!(Error::InvalidScheme.description(), "Link has invalid scheme");
    assert_eq!(Error::InvalidLink.description(), "Link has invalid hostname");
    assert_eq!(Error::HasherError(HashidError::Hex).description(), "Unable to decode short link");
    assert_eq!(Error::NotFound.status_text(), "404");
    assert_eq!(Error::Unknown.status_text(), "500");
}

#[test]
fn decimal_strings() {
    assert_eq!(decimal_string(0), "0");
    assert_eq!(decimal_string(7), "7");
    assert_eq!(decimal_string(400), "400");
    assert_eq!(decimal_string(65535), "65535");
}

#[test]
fn error_page_shows_status_and_description() {
    let c = config();
    let page = error_page(&c, &Error::NotFound);
    assert_eq!(page.vanity_domain, "go.vech.ro");
    match page.message {
        Some(MessageKind::Error(m)) => {
            assert_eq!(m.title, "404");
            assert_eq!(m.body, "Requested file was not found");
        }
        _ => panic!("expected an error message"),
    }
    let blank = Index::blank(&c);
    assert!(blank.message.is_none());
    assert_eq!(blank.assets_url, "go.vech.ro/assets");
}

#[test]
fn redirect_targets() {
    assert_eq!(redirect_target(Some("https://example.com/".to_string())).unwrap(), "https://example.com/");
    assert!(matches!(redirect_target(None), Err(Error::NotFound)));
}

#[test]
fn database_keys_and_values() {
    assert_eq!(link_key_bytes(0x0102030405060708), vec![1, 2, 3, 4, 5, 6, 7, 8]);
    assert_eq!(link_key_bytes(1), 1u64.to_be_bytes().to_vec());
    assert_eq!(link_key_bytes(u64::MAX), vec![255; 8]);
    assert_eq!(next_link_key(0), 1);
    assert_eq!(next_link_key(41), 42);
    assert_eq!(stored_link(Ok(Some(b"https://example.com/".to_vec()))).unwrap(), "https://example.com/");
    assert_eq!(stored_link(Ok(Some("héllo".as_bytes().to_vec()))).unwrap(), "héllo");
    assert!(stored_link(Ok(None)).is_none());
    assert!(stored_link(Err("io error".to_string())).is_none());
}

#[test]
fn stored_links_read_back() {
    for link in ["https://example.com/", "magnet:?xt=urn:btih:abc", "https://例え.jp/パス"] {
        let value = link_value_bytes(link);
        assert_eq!(value, link.as_bytes().to_vec());
        assert_eq!(stored_link(Ok(Some(value))).unwrap(), link);
    }
}

#[test]
fn distinct_keys_get_distinct_paths_and_database_keys() {
    let c = config();
    let paths: Vec<String> = (1u64..=50).map(|k| c.hasher().encode(k)).collect();
    for i in 0..paths.len() {
        for j in (i + 1)..paths.len() {
            assert_ne!(paths[i], paths[j]);
        }
    }
    assert_ne!(link_key_bytes(1), link_key_bytes(256));
    assert_ne!(link_key_bytes(u64::MAX - 1), link_key_bytes(u64::MAX));
}
