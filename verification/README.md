# iaretis

A filtering DNS forwarder with a DNS-over-HTTPS front end. Queries for
blocked domains (and their subdomains) are answered locally with the
unspecified address; all other queries are forwarded upstream.

- `src/` is the verified library (Verus):
  - `filter.rs`: the blocklist, suffix matching at label boundaries, the
    blocklist file format, and the laws of blocking.
  - `handler.rs`: how a DNS query is decided (block or forward), the answers
    for blocked names, and how upstream failures are reported.
  - `doh.rs`: DoH request routing, the `dns` query parameter, the request
    body limit, and how responses are sent.
  - `config.rs`, `server.rs`: configuration decisions and the address DoH
    proxies to.
  - `text.rs`: string helpers (verified trimming, trailing-dot removal) and
    the wrapper around `str::to_lowercase`.
- `app/` is the program around it: environment, files, sockets, TLS, HTTP/2
  and the DNS server runtime.
- `tests/` runs the library on concrete inputs.
