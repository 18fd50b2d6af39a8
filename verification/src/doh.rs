use vstd::prelude::*;

use base64::engine::general_purpose::URL_SAFE_NO_PAD;
use base64::Engine;

use crate::text::{chars_of, same_text};

verus! {

/// The largest request body, in bytes, accepted for a DNS message.
pub const MAX_DNS_MESSAGE_SIZE: usize = 8192;

/// HTTP status: the upstream DNS reply is returned.
pub const STATUS_OK: u16 = 200;

/// HTTP status: the DNS query could not be taken from the request.
pub const STATUS_BAD_REQUEST: u16 = 400;

/// HTTP status: the path is not the DoH endpoint.
pub const STATUS_NOT_FOUND: u16 = 404;

/// HTTP status: the method is neither GET nor POST.
pub const STATUS_METHOD_NOT_ALLOWED: u16 = 405;

/// HTTP status: the upstream DNS server did not answer.
pub const STATUS_BAD_GATEWAY: u16 = 502;

/// The method of an HTTP request, as far as DoH cares.
#[derive(Clone, Copy, Debug, PartialEq, Eq, Structural)]
pub enum HttpMethod {
    Get,
    Post,
    Other,
}

/// Where the DNS query of a request is carried.
#[derive(Clone, Copy, Debug, PartialEq, Eq, Structural)]
pub enum QuerySource {
    /// In the `dns` parameter of the query string (GET).
    QueryString,
    /// In the request body (POST).
    Body,
}

/// Why the DNS query could not be taken from a request.
#[derive(Clone, Copy, Debug, PartialEq, Eq, Structural)]
pub enum ExtractError {
    MissingQueryString,
    MissingDnsParameter,
    InvalidBase64,
    BodyRead,
    FlowControl,
    BodyTooLarge,
}

/// The answer to a DoH request: a status and a body.
#[derive(Debug)]
pub struct DohResponse {
    pub status: u16,
    pub body: Vec<u8>,
}

/// How a response is sent over HTTP/2.
#[derive(Debug)]
pub struct ResponsePlan {
    pub status: u16,
    /// `content-type` and `content-length` headers, when there are any.
    pub content_type: Option<String>,
    pub content_length: Option<usize>,
    /// The header frame closes the stream (there is no body).
    pub end_stream_with_headers: bool,
    /// A data frame with the body follows and closes the stream.
    pub send_body: bool,
}

/// Where a request for `path` with `method` goes: a `404` when the path is
/// not the endpoint, a `405` for a method other than GET and POST, and
/// otherwise where its DNS query is to be read from.
pub open spec fn route_of(path: Seq<char>, endpoint: Seq<char>, method: HttpMethod) -> Result<QuerySource, u16> {
    if path != endpoint {
        Err(STATUS_NOT_FOUND)
    } else {
        match method {
            HttpMethod::Get => Ok(QuerySource::QueryString),
            HttpMethod::Post => Ok(QuerySource::Body),
            HttpMethod::Other => Err(STATUS_METHOD_NOT_ALLOWED),
        }
    }
}

/// Decides where a DoH request goes. `Err` holds the response sent at once:
/// it has the status of `route_of` and no body.
pub fn route_request(path: &str, endpoint: &str, method: HttpMethod) -> (r: Result<QuerySource, DohResponse>)
    ensures
        match (r, route_of(path@, endpoint@, method)) {
            (Ok(s), Ok(t)) => s == t,
            (Err(resp), Err(status)) => resp.status == status && resp.body@ == Seq::<u8>::empty(),
            _ => false,
        },
        path@ != endpoint@ ==> (r matches Err(resp) && resp.status == 404),
        path@ == endpoint@ && method == HttpMethod::Get ==> r == Ok::<QuerySource, DohResponse>(QuerySource::QueryString),
        path@ == endpoint@ && method == HttpMethod::Post ==> r == Ok::<QuerySource, DohResponse>(QuerySource::Body),
        path@ == endpoint@ && method == HttpMethod::Other ==> (r matches Err(resp) && resp.status == 405),
{
    if !same_text(path, endpoint) {
        return Err(DohResponse { status: STATUS_NOT_FOUND, body: Vec::new() });
    }
    match method {
        HttpMethod::Get => Ok(QuerySource::QueryString),
        HttpMethod::Post => Ok(QuerySource::Body),
        HttpMethod::Other => Err(DohResponse { status: STATUS_METHOD_NOT_ALLOWED, body: Vec::new() }),
    }
}

/// The response to a request whose DNS query could not be read: `400`, no body.
pub fn bad_request_response(e: ExtractError) -> (resp: DohResponse)
    ensures
        resp.status == STATUS_BAD_REQUEST,
        resp.body@ == Seq::<u8>::empty(),
{
    DohResponse { status: STATUS_BAD_REQUEST, body: Vec::new() }
}

/// The response once the upstream DNS server was asked: its reply with `200`,
/// or `502` with no body when there was none.
pub fn upstream_response(reply: Option<Vec<u8>>) -> (resp: DohResponse)
    ensures
        match reply {
            Some(bytes) => resp.status == STATUS_OK && resp.body@ == bytes@,
            None => resp.status == STATUS_BAD_GATEWAY && resp.body@ == Seq::<u8>::empty(),
        },
{
    match reply {
        Some(bytes) => DohResponse { status: STATUS_OK, body: bytes },
        None => DohResponse { status: STATUS_BAD_GATEWAY, body: Vec::new() },
    }
}

/// How a response goes out: a `200` carries `content-type:
/// application/dns-message` and its `content-length`; an empty body ends the
/// stream with the headers, a non-empty one is sent in a data frame.
pub fn plan_response(resp: &DohResponse) -> (plan: ResponsePlan)
    ensures
        plan.status == resp.status,
        resp.status == STATUS_OK ==> plan.content_type is Some && plan.content_type->0@
            == "application/dns-message"@,
        resp.status == STATUS_OK ==> plan.content_length == Some(resp.body@.len() as usize),
        resp.status != STATUS_OK ==> plan.content_type is None && plan.content_length is None,
        plan.end_stream_with_headers == (resp.body@.len() == 0),
        plan.send_body == (resp.body@.len() != 0),
{
    let ok = resp.status == STATUS_OK;
    let content_type = if ok {
        Some(String::from_str("application/dns-message"))
    } else {
        None
    };
    let content_length = if ok {
        Some(resp.body.len())
    } else {
        None
    };
    let empty = resp.body.len() == 0;
    ResponsePlan {
        status: resp.status,
        content_type,
        content_length,
        end_stream_with_headers: empty,
        send_body: !empty,
    }
}

/// Where the first `&` in `q` stands, or the length of `q` when there is none.
pub open spec fn first_amp(q: Seq<char>) -> nat
    decreases q.len(),
{
    if q.len() == 0 {
        0
    } else if q[0] == '&' {
        0
    } else {
        1 + first_amp(q.skip(1))
    }
}

/// `seg` begins with `dns=`.
pub open spec fn has_dns_prefix(seg: Seq<char>) -> bool {
    seg.len() >= 4 && seg[0] == 'd' && seg[1] == 'n' && seg[2] == 's' && seg[3] == '='
}

/// The value of the first `&`-separated parameter of a query string that
/// begins with `dns=`, if there is one.
pub open spec fn dns_param_of(q: Seq<char>) -> Option<Seq<char>>
    decreases q.len(),
{
    let end = first_amp(q);
    let seg = q.take(end as int);
    if has_dns_prefix(seg) {
        Some(seg.skip(4))
    } else if end >= q.len() {
        None
    } else {
        dns_param_of(q.skip(end as int + 1))
    }
}

proof fn lemma_first_amp(q: Seq<char>, j: int)
    requires
        0 <= j <= q.len(),
        forall|i: int| 0 <= i < j ==> q[i] != '&',
        j == q.len() || q[j] == '&',
    ensures
        first_amp(q) == j,
    decreases j,
{
    if j > 0 {
        lemma_first_amp(q.skip(1), j - 1);
    }
}

/// The `dns=` prefix.
pub open spec fn dns_key() -> Seq<char> {
    seq!['d', 'n', 's', '=']
}

proof fn lemma_segment_of(seg: Seq<char>, rest: Seq<char>)
    requires
        forall|i: int| 0 <= i < seg.len() ==> seg[i] != '&',
    ensures
        first_amp(seg + seq!['&'] + rest) == seg.len(),
        (seg + seq!['&'] + rest).take(seg.len() as int) == seg,
        (seg + seq!['&'] + rest).skip(seg.len() as int + 1) == rest,
{
    let q = seg + seq!['&'] + rest;
    lemma_first_amp(q, seg.len() as int);
    assert(q.take(seg.len() as int) =~= seg);
    assert(q.skip(seg.len() as int + 1) =~= rest);
}

/// A query string that is one `dns=` parameter gives its whole value, however
/// long, as long as the value holds no `&`.
pub proof fn law_dns_value_is_whole_parameter(v: Seq<char>)
    requires
        forall|i: int| 0 <= i < v.len() ==> v[i] != '&',
    ensures
        dns_param_of(dns_key() + v) == Some(v),
{
    let q = dns_key() + v;
    assert forall|i: int| 0 <= i < q.len() implies q[i] != '&' by {
        if i >= 4 {
            assert(q[i] == v[i - 4]);
        }
    }
    lemma_first_amp(q, q.len() as int);
    assert(q.take(q.len() as int) =~= q);
    assert(q.skip(4) =~= v);
}

/// The first `dns=` parameter is the one taken: what follows its `&` does
/// not matter.
pub proof fn law_first_dns_parameter_wins(v: Seq<char>, rest: Seq<char>)
    requires
        forall|i: int| 0 <= i < v.len() ==> v[i] != '&',
    ensures
        dns_param_of(dns_key() + v + seq!['&'] + rest) == Some(v),
{
    let seg = dns_key() + v;
    assert forall|i: int| 0 <= i < seg.len() implies seg[i] != '&' by {
        if i >= 4 {
            assert(seg[i] == v[i - 4]);
        }
    }
    lemma_segment_of(seg, rest);
    assert(seg.skip(4) =~= v);
}

/// A parameter that does not begin with `dns=` is passed over: the answer is
/// that of the parameters after it.
pub proof fn law_other_parameter_is_skipped(seg: Seq<char>, rest: Seq<char>)
    requires
        forall|i: int| 0 <= i < seg.len() ==> seg[i] != '&',
        !(seg.len() >= 4 && seg.take(4) == dns_key()),
    ensures
        dns_param_of(seg + seq!['&'] + rest) == dns_param_of(rest),
{
    lemma_segment_of(seg, rest);
    if has_dns_prefix(seg) {
        assert(seg.take(4) =~= dns_key());
    }
}

/// A query string with no `&` that does not begin with `dns=` has no `dns`
/// parameter.
pub proof fn law_single_other_parameter_gives_none(seg: Seq<char>)
    requires
        forall|i: int| 0 <= i < seg.len() ==> seg[i] != '&',
        !(seg.len() >= 4 && seg.take(4) == dns_key()),
    ensures
        dns_param_of(seg) is None,
{
    lemma_first_amp(seg, seg.len() as int);
    assert(seg.take(seg.len() as int) =~= seg);
    if has_dns_prefix(seg) {
        assert(seg.take(4) =~= dns_key());
    }
}

/// The value of the `dns` parameter of a query string.
pub fn dns_parameter(query: &str) -> (r: Option<&str>)
    ensures
        match r {
            Some(v) => dns_param_of(query@) == Some(v@),
            None => dns_param_of(query@) is None,
        },
        r matches Some(v) ==> forall|i: int| 0 <= i < v@.len() ==> v@[i] != '&',
{
    let cs = chars_of(query);
    let n = cs.len();
    let mut seg_start: usize = 0;
    let mut i: usize = 0;
    assert(query@.skip(0) =~= query@);
    loop
        invariant
            cs@ == query@,
            n == cs@.len(),
            seg_start <= i <= n,
            dns_param_of(query@) == dns_param_of(query@.skip(seg_start as int)),
            forall|k: int| seg_start <= k < i ==> cs@[k] != '&',
        decreases n - i,
    {
        if i == n || cs[i] == '&' {
            let ghost rest = query@.skip(seg_start as int);
            proof {
                lemma_first_amp(rest, i - seg_start);
            }
            let ghost seg = rest.take(i - seg_start);
            if i - seg_start >= 4 && cs[seg_start] == 'd' && cs[seg_start + 1] == 'n' && cs[seg_start + 2] == 's'
                && cs[seg_start + 3] == '=' {
                assert(has_dns_prefix(seg));
                let v = query.substring_char(seg_start + 4, i);
                assert(v@ =~= seg.skip(4));
                assert forall|k: int| 0 <= k < v@.len() implies v@[k] != '&' by {
                    assert(v@[k] == cs@[seg_start + 4 + k]);
                }
                return Some(v);
            }
            assert(!has_dns_prefix(seg));
            if i == n {
                return None;
            }
            assert(rest.skip(i - seg_start + 1) =~= query@.skip(i + 1));
            seg_start = i + 1;
        }
        i = i + 1;
    }
}

/// What `URL_SAFE_NO_PAD.decode` gives for a text: the bytes it encodes
/// (URL-safe alphabet, no padding), or none when it is not such an encoding.
pub uninterp spec fn url_safe_no_pad_decoded(text: Seq<char>) -> Option<Seq<u8>>;

#[verifier::external_type_specification]
#[verifier::external_body]
pub struct ExDecodeError(base64::DecodeError);

/// Calls `base64::engine::general_purpose::URL_SAFE_NO_PAD.decode` on the
/// bytes of `text`. Its result is named `url_safe_no_pad_decoded`: the decoded
/// bytes on success, and none when the crate reports a `DecodeError`.
#[verifier::external_body]
fn decode_url_safe_no_pad(text: &str) -> (r: Result<Vec<u8>, base64::DecodeError>)
    ensures
        match r {
            Ok(v) => url_safe_no_pad_decoded(text@) == Some(v@),
            Err(_) => url_safe_no_pad_decoded(text@) is None,
        },
{
    URL_SAFE_NO_PAD.decode(text)
}

/// The DNS query carried in a query string, as `extract` reads it: the
/// base64url (unpadded) decoding of its `dns` parameter.
pub open spec fn query_string_payload(query: Option<Seq<char>>) -> Result<Seq<u8>, ExtractError> {
    match query {
        None => Err(ExtractError::MissingQueryString),
        Some(q) => match dns_param_of(q) {
            None => Err(ExtractError::MissingDnsParameter),
            Some(p) => match url_safe_no_pad_decoded(p) {
                None => Err(ExtractError::InvalidBase64),
                Some(bytes) => Ok(bytes),
            },
        },
    }
}

/// The view of an optional text.
pub open spec fn text_view(t: Option<&str>) -> Option<Seq<char>> {
    match t {
        Some(s) => Some(s@),
        None => None,
    }
}

/// Reads the DNS query of a GET request from its query string (`None` when
/// the URI has none).
pub fn extract_from_query_param(query: Option<&str>) -> (r: Result<Vec<u8>, ExtractError>)
    ensures
        match (r, query_string_payload(text_view(query))) {
            (Ok(v), Ok(bytes)) => v@ == bytes,
            (Err(e), Err(f)) => e == f,
            _ => false,
        },
        query is None ==> r == Err::<Vec<u8>, ExtractError>(ExtractError::MissingQueryString),
        query is Some && dns_param_of(query->0@) is None ==> r == Err::<Vec<u8>, ExtractError>(
            ExtractError::MissingDnsParameter,
        ),
        query is Some && dns_param_of(query->0@) is Some ==> match r {
            Ok(v) => url_safe_no_pad_decoded(dns_param_of(query->0@)->0) == Some(v@),
            Err(e) => e == ExtractError::InvalidBase64 && url_safe_no_pad_decoded(
                dns_param_of(query->0@)->0,
            ) is None,
        },
{
    let q = match query {
        Some(q) => q,
        None => return Err(ExtractError::MissingQueryString),
    };
    let param = match dns_parameter(q) {
        Some(p) => p,
        None => return Err(ExtractError::MissingDnsParameter),
    };
    match decode_url_safe_no_pad(param) {
        Ok(bytes) => Ok(bytes),
        Err(_) => Err(ExtractError::InvalidBase64),
    }
}

/// The body of a POST request, gathered chunk by chunk; it never holds more
/// than `MAX_DNS_MESSAGE_SIZE` bytes.
pub struct BodyCollector {
    data: Vec<u8>,
}

impl View for BodyCollector {
    type V = Seq<u8>;

    closed spec fn view(&self) -> Seq<u8> {
        self.data@
    }
}

impl BodyCollector {
    #[verifier::type_invariant]
    spec fn within_limit(self) -> bool {
        self.data@.len() <= MAX_DNS_MESSAGE_SIZE
    }

    /// An empty body.
    pub fn new() -> (c: BodyCollector)
        ensures
            c@ == Seq::<u8>::empty(),
    {
        BodyCollector { data: Vec::new() }
    }

    /// Adds a chunk to the body. When the body would then exceed
    /// `MAX_DNS_MESSAGE_SIZE` bytes the chunk is refused with `BodyTooLarge`
    /// and the body stays as it was.
    pub fn accept_chunk(&mut self, chunk: &[u8]) -> (r: Result<(), ExtractError>)
        ensures
            old(self)@.len() + chunk@.len() <= MAX_DNS_MESSAGE_SIZE ==> r is Ok && final(self)@ == old(self)@ + chunk@,
            old(self)@.len() + chunk@.len() > MAX_DNS_MESSAGE_SIZE ==> r == Err::<(), ExtractError>(ExtractError::BodyTooLarge) && final(self)@ == old(self)@,
            final(self)@.len() <= MAX_DNS_MESSAGE_SIZE,
    {
        proof {
            use_type_invariant(&*self);
        }
        if chunk.len() > MAX_DNS_MESSAGE_SIZE - self.data.len() {
            return Err(ExtractError::BodyTooLarge);
        }
        let mut data: Vec<u8> = Vec::new();
        std::mem::swap(&mut data, &mut self.data);
        let ghost start = data@;
        let mut i: usize = 0;
        while i < chunk.len()
            invariant
                i <= chunk@.len(),
                start.len() + chunk@.len() <= MAX_DNS_MESSAGE_SIZE,
                data@ == start + chunk@.take(i as int),
            decreases chunk@.len() - i,
        {
            data.push(chunk[i]);
            assert(chunk@.take(i + 1) =~= chunk@.take(i as int).push(chunk@[i as int]));
            i = i + 1;
        }
        assert(chunk@.take(chunk@.len() as int) =~= chunk@);
        self.data = data;
        Ok(())
    }

    /// The body gathered so far.
    pub fn finish(self) -> (body: Vec<u8>)
        ensures
            body@ == self@,
            body@.len() <= MAX_DNS_MESSAGE_SIZE,
    {
        proof {
            use_type_invariant(&self);
        }
        self.data
    }
}

} // verus!
