# gossamer

A very simple link shortening service. A submitted link is parsed as a URL and
checked (accepted scheme, a host that is not the shortener's own), stored in
RocksDB under the next sequence number, and handed out as a short path made by
hashids (`harsh`). Following a short path decodes it back to the key and
redirects to the stored link.

Layout:

- `src/` is the library, verified with Verus:
  - `math.rs`: the extended Euclidean algorithm and modular inverses on `i128`,
    with Bezout's identity, divisibility and overflow freedom proved;
  - `configuration.rs`: accepted URI schemes and the service's settings;
  - `link.rs`: parsing (through `url`) and checking of submitted links;
  - `hasher.rs`: short paths through `harsh`;
  - `actions.rs`: database keys and values of stored links;
  - `shortener.rs`: the decisions of the requests (short link message,
    resolving a short path, redirect target, error page);
  - `error.rs`, `message.rs`, `text.rs`: errors, page contents, string helpers.
- `tests/` runs the library on concrete values.
- `app/` is the web server (actix-web, RocksDB, page rendering, environment).
