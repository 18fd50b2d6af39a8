use vstd::prelude::*;

verus! {

/// The DoH endpoint for an optional secret token: `/dns-query/<token>` for a
/// non-empty token, `/dns-query` otherwise.
pub open spec fn endpoint_for(token: Option<Seq<char>>) -> Seq<char> {
    match token {
        Some(t) => if t.len() > 0 {
            "/dns-query/"@ + t
        } else {
            "/dns-query"@
        },
        None => "/dns-query"@,
    }
}

/// With a non-empty token the endpoint is `/dns-query/` followed by the
/// token, character for character; without one it is `/dns-query`.
pub proof fn law_endpoint_keeps_token(token: Seq<char>)
    ensures
        token.len() > 0 ==> endpoint_for(Some(token)).take(11) == "/dns-query/"@,
        token.len() > 0 ==> endpoint_for(Some(token)).skip(11) == token,
        token.len() == 0 ==> endpoint_for(Some(token)) == "/dns-query"@,
        endpoint_for(None) == "/dns-query"@,
{
    reveal_strlit("/dns-query/");
    let p = "/dns-query/"@;
    assert(p.len() == 11);
    if token.len() > 0 {
        assert((p + token).take(11) =~= p);
        assert((p + token).skip(11) =~= token);
    }
}

/// The DNS listen address when none is configured.
pub open spec fn default_listen_addr() -> Seq<char> {
    "0.0.0.0:5300"@
}

/// Where DoH listens and with which certificate, key and endpoint path.
#[derive(Debug)]
pub struct DohSettings {
    pub listen_addr: String,
    pub cert_path: String,
    pub key_path: String,
    pub endpoint: String,
    /// The endpoint holds a secret token (otherwise it is open to anyone).
    pub token_protected: bool,
}

/// Whether DoH is served.
#[derive(Debug)]
pub enum DohSetup {
    /// Address, certificate and key are all set.
    Enabled(DohSettings),
    /// None of them is set.
    Disabled,
    /// Some but not all of them are set, which disables DoH too; the flags
    /// say which are set.
    Incomplete { addr_set: bool, cert_set: bool, key_set: bool },
}

/// The view of an optional string.
pub open spec fn opt_view(s: Option<String>) -> Option<Seq<char>> {
    match s {
        Some(v) => Some(v@),
        None => None,
    }
}

/// The DNS listen address: the configured one, or `0.0.0.0:5300`.
pub fn listen_address(configured: Option<String>) -> (addr: String)
    ensures
        match configured {
            Some(v) => addr@ == v@,
            None => addr@ == default_listen_addr(),
        },
{
    match configured {
        Some(v) => v,
        None => String::from_str("0.0.0.0:5300"),
    }
}

/// The DoH endpoint path for an optional secret token.
pub fn doh_endpoint(token: Option<&str>) -> (endpoint: String)
    ensures
        endpoint@ == endpoint_for(match token {
            Some(t) => Some(t@),
            None => None,
        }),
        (token is Some && token->0@.len() > 0) ==> endpoint@ == "/dns-query/"@ + token->0@,
        !(token is Some && token->0@.len() > 0) ==> endpoint@ == "/dns-query"@,
{
    match token {
        Some(t) => {
            if t.is_empty() {
                String::from_str("/dns-query")
            } else {
                String::from_str("/dns-query/").concat(t)
            }
        },
        None => String::from_str("/dns-query"),
    }
}

/// Decides whether DoH is served, from the configured listen address,
/// certificate path, key path and secret token.
pub fn doh_setup(addr: Option<String>, cert: Option<String>, key: Option<String>, token: Option<String>) -> (s: DohSetup)
    ensures
        match s {
            DohSetup::Enabled(d) => {
                &&& addr is Some && cert is Some && key is Some
                &&& opt_view(addr) == Some(d.listen_addr@)
                &&& opt_view(cert) == Some(d.cert_path@)
                &&& opt_view(key) == Some(d.key_path@)
                &&& d.endpoint@ == endpoint_for(opt_view(token))
                &&& (token is Some && token->0@.len() > 0) ==> d.endpoint@ == "/dns-query/"@ + token->0@
                &&& !(token is Some && token->0@.len() > 0) ==> d.endpoint@ == "/dns-query"@
                &&& d.token_protected == (token is Some && token->0@.len() > 0)
            },
            DohSetup::Disabled => addr is None && cert is None && key is None,
            DohSetup::Incomplete { addr_set, cert_set, key_set } => {
                &&& addr_set == addr is Some
                &&& cert_set == cert is Some
                &&& key_set == key is Some
                &&& !(addr is Some && cert is Some && key is Some)
                &&& !(addr is None && cert is None && key is None)
            },
        },
{
    match (addr, cert, key) {
        (Some(a), Some(c), Some(k)) => {
            let token_protected = match &token {
                Some(t) => !t.as_str().is_empty(),
                None => false,
            };
            let endpoint = match &token {
                Some(t) => doh_endpoint(Some(t.as_str())),
                None => doh_endpoint(None),
            };
            DohSetup::Enabled(DohSettings { listen_addr: a, cert_path: c, key_path: k, endpoint, token_protected })
        },
        (None, None, None) => DohSetup::Disabled,
        (a, c, k) => DohSetup::Incomplete { addr_set: a.is_some(), cert_set: c.is_some(), key_set: k.is_some() },
    }
}

} // verus!
