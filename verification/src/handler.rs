use vstd::prelude::*;

use crate::filter::{caught_by, Filter};
use vstd::utf8::is_ascii_chars;

use crate::text::{
    ascii_lowercase, lemma_ascii_without_trailing_dots, lowercased, trim_trailing_dots,
    without_trailing_dots,
};

verus! {

/// DNS record type `A` (IPv4 address).
pub const RECORD_TYPE_A: u16 = 1;

/// DNS record type `AAAA` (IPv6 address).
pub const RECORD_TYPE_AAAA: u16 = 28;

/// DNS response code `NOERROR`.
pub const RCODE_NO_ERROR: u16 = 0;

/// DNS response code `SERVFAIL`.
pub const RCODE_SERV_FAIL: u16 = 2;

/// Time to live, in seconds, of the answers given for a blocked name.
pub const BLOCKED_ANSWER_TTL: u32 = 0;

/// A forwarded query that takes longer than this many milliseconds counts as
/// slow.
pub const SLOW_QUERY_MS: u128 = 200;

/// An answer given for a blocked name, for the queried name itself.
#[derive(Clone, Copy, Debug, PartialEq, Eq, Structural)]
pub enum BlockedAnswer {
    /// An `A` record holding `0.0.0.0`.
    UnspecifiedV4,
    /// An `AAAA` record holding `::`.
    UnspecifiedV6,
}

/// What to do with a query.
#[derive(Debug)]
pub enum QueryDecision {
    /// Answer at once with `NOERROR` and these answers.
    Block { answers: Vec<BlockedAnswer> },
    /// Ask the upstream resolver.
    Forward,
}

/// How the upstream resolver failed.
#[derive(Clone, Copy, Debug, PartialEq, Eq, Structural)]
pub enum UpstreamError {
    /// The upstream answered that there are no records (`NXDOMAIN`, `NODATA`);
    /// the response code is its own.
    NoRecords { response_code: u16 },
    Timeout,
    Tls,
    Io,
    NoConnections,
    Busy,
    Other,
}

/// The answers given for a blocked name of the given record type: `0.0.0.0`
/// for `A`, `::` for `AAAA`, none for any other type.
pub open spec fn blocked_answers_for(record_type: u16) -> Seq<BlockedAnswer> {
    if record_type == RECORD_TYPE_A {
        seq![BlockedAnswer::UnspecifiedV4]
    } else if record_type == RECORD_TYPE_AAAA {
        seq![BlockedAnswer::UnspecifiedV6]
    } else {
        Seq::empty()
    }
}

/// The answers given for a blocked name of the given record type.
pub fn blocked_answers(record_type: u16) -> (answers: Vec<BlockedAnswer>)
    ensures
        answers@ == blocked_answers_for(record_type),
        record_type == 1 ==> answers@ == seq![BlockedAnswer::UnspecifiedV4],
        record_type == 28 ==> answers@ == seq![BlockedAnswer::UnspecifiedV6],
        record_type != 1 && record_type != 28 ==> answers@.len() == 0,
{
    let mut answers: Vec<BlockedAnswer> = Vec::new();
    if record_type == RECORD_TYPE_A {
        answers.push(BlockedAnswer::UnspecifiedV4);
    } else if record_type == RECORD_TYPE_AAAA {
        answers.push(BlockedAnswer::UnspecifiedV6);
    }
    answers
}

/// The domain that a query name stands for: the name without its trailing
/// dots (`example.com.` is `example.com`).
pub fn query_domain(query_name: &str) -> (domain: &str)
    ensures
        domain@ == without_trailing_dots(query_name@),
        domain@ == query_name@.take(domain@.len() as int),
        forall|i: int| domain@.len() <= i < query_name@.len() ==> query_name@[i] == '.',
        domain@.len() == 0 || domain@.last() != '.',
{
    trim_trailing_dots(query_name)
}

/// A trailing dot does not change the domain of a query name: `example.com.`
/// and `example.com` are decided alike.
pub proof fn law_trailing_dot_is_ignored(name: Seq<char>)
    ensures
        without_trailing_dots(name.push('.')) == without_trailing_dots(name),
{
    assert(name.push('.').drop_last() =~= name);
}

/// Decides a query: a name whose domain the filter blocks is answered at
/// once, any other is forwarded.
pub fn decide_query(filter: &Filter, query_name: &str, record_type: u16) -> (d: QueryDecision)
    ensures
        match d {
            QueryDecision::Block { answers } => caught_by(filter@, lowercased(without_trailing_dots(query_name@)))
                && answers@ == blocked_answers_for(record_type),
            QueryDecision::Forward => !caught_by(filter@, lowercased(without_trailing_dots(query_name@))),
        },
        is_ascii_chars(query_name@) ==> (d is Block <==> caught_by(
            filter@,
            ascii_lowercase(without_trailing_dots(query_name@)),
        )),
{
    let domain = query_domain(query_name);
    proof {
        if is_ascii_chars(query_name@) {
            lemma_ascii_without_trailing_dots(query_name@);
        }
    }
    if filter.is_blocked(domain) {
        QueryDecision::Block { answers: blocked_answers(record_type) }
    } else {
        QueryDecision::Forward
    }
}

/// The response code sent when the upstream resolver failed: its own code
/// when it answered that there are no records, `SERVFAIL` otherwise.
pub fn failure_response_code(e: UpstreamError) -> (code: u16)
    ensures
        match e {
            UpstreamError::NoRecords { response_code } => code == response_code,
            _ => code == RCODE_SERV_FAIL,
        },
        !(e is NoRecords) ==> code == 2,
{
    match e {
        UpstreamError::NoRecords { response_code } => response_code,
        _ => RCODE_SERV_FAIL,
    }
}

/// The cause of an upstream failure, as reported: `timeout`, `tls`,
/// `connection` (I/O, no connections, busy) or `other`.
pub fn classify_cause(e: UpstreamError) -> (cause: &'static str)
    ensures
        e == UpstreamError::Timeout ==> cause@ == "timeout"@,
        e == UpstreamError::Tls ==> cause@ == "tls"@,
        (e == UpstreamError::Io || e == UpstreamError::NoConnections || e == UpstreamError::Busy)
            ==> cause@ == "connection"@,
        (e is NoRecords || e == UpstreamError::Other) ==> cause@ == "other"@,
{
    match e {
        UpstreamError::Timeout => "timeout",
        UpstreamError::Tls => "tls",
        UpstreamError::Io | UpstreamError::NoConnections | UpstreamError::Busy => "connection",
        _ => "other",
    }
}

/// Whether a forwarded query that took `latency_ms` milliseconds is slow.
pub fn is_slow_query(latency_ms: u128) -> (slow: bool)
    ensures
        slow == (latency_ms > SLOW_QUERY_MS),
{
    latency_ms > SLOW_QUERY_MS
}

} // verus!
