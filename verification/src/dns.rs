//! Name resolution: from a host name to one address.
//!
//! A host that is written as a dotted quad needs no resolver. For any other
//! host a resolver is started and asked for the next address until it gives
//! one, runs out, or fails; while it would block, the caller waits on its
//! readiness token and asks again. The first address wins. There is no
//! ceiling on the number of waits.

use crate::addr::{
    decimal_value, dotted_quad, lemma_quad_reads_back, parse_ipv4, quad_text, IpAddress,
    Ipv4Address,
};
use crate::ascii::DOT;
use crate::bytes::split_on;
use crate::text::{join2, same_text};
use vstd::prelude::*;
use vstd::utf8::encode_utf8;

verus! {

/// What a resolver said when it was asked for the next address.
#[derive(Debug, PartialEq, Eq)]
pub enum ResolverAnswer {
    /// An address.
    Address(IpAddress),
    /// There are no more addresses.
    Exhausted,
    /// Nothing yet: wait and ask again.
    WouldBlock,
    /// Any other error, with its code as the resolver names it.
    Failed(String),
}

/// Why a host has no address.
#[derive(Debug, PartialEq, Eq)]
pub enum ResolveError {
    /// The resolver ran out without giving an address.
    NoAddressFound,
    /// The resolver failed; the reason says at what and how.
    ResolutionFailed(String),
}

/// A resolution error as a value.
pub enum ResolveErrorView {
    NoAddressFound,
    ResolutionFailed(Seq<char>),
}

impl View for ResolveError {
    type V = ResolveErrorView;

    open spec fn view(&self) -> ResolveErrorView {
        match self {
            ResolveError::NoAddressFound => ResolveErrorView::NoAddressFound,
            ResolveError::ResolutionFailed(reason) => ResolveErrorView::ResolutionFailed(reason@),
        }
    }
}

impl ResolveErrorView {
    /// The error in words.
    pub open spec fn message(self) -> Seq<char> {
        match self {
            ResolveErrorView::NoAddressFound => "no IPs found"@,
            ResolveErrorView::ResolutionFailed(reason) => reason,
        }
    }
}

impl ResolveError {
    /// The error in words.
    pub fn message(&self) -> (r: String)
        ensures
            r@ == self@.message(),
    {
        match self {
            ResolveError::NoAddressFound => "no IPs found".to_owned(),
            ResolveError::ResolutionFailed(reason) => reason.clone(),
        }
    }
}

/// What to do after an answer of the resolver: wait and ask again, or stop
/// with an address or an error.
#[derive(Debug, PartialEq, Eq)]
pub enum ResolveStep {
    Wait,
    Done(Result<IpAddress, ResolveError>),
}

/// A step of the resolution as a value.
pub enum ResolveStepView {
    Wait,
    Done(Result<IpAddress, ResolveErrorView>),
}

impl View for ResolveStep {
    type V = ResolveStepView;

    open spec fn view(&self) -> ResolveStepView {
        match self {
            ResolveStep::Wait => ResolveStepView::Wait,
            ResolveStep::Done(Ok(address)) => ResolveStepView::Done(Ok(*address)),
            ResolveStep::Done(Err(error)) => ResolveStepView::Done(Err(error@)),
        }
    }
}

/// The step that an answer calls for.
pub open spec fn resolve_step(answer: ResolverAnswer) -> ResolveStepView {
    match answer {
        ResolverAnswer::Address(address) => ResolveStepView::Done(Ok(address)),
        ResolverAnswer::Exhausted => ResolveStepView::Done(Err(ResolveErrorView::NoAddressFound)),
        ResolverAnswer::WouldBlock => ResolveStepView::Wait,
        ResolverAnswer::Failed(code) => ResolveStepView::Done(
            Err(ResolveErrorView::ResolutionFailed("resolve error: "@ + code@)),
        ),
    }
}

/// Decides on one answer of the resolver.
pub fn try_dns_resolve(answer: ResolverAnswer) -> (step: ResolveStep)
    ensures
        step@ == resolve_step(answer),
{
    match answer {
        ResolverAnswer::Address(address) => ResolveStep::Done(Ok(address)),
        ResolverAnswer::Exhausted => ResolveStep::Done(Err(ResolveError::NoAddressFound)),
        ResolverAnswer::WouldBlock => ResolveStep::Wait,
        ResolverAnswer::Failed(code) => ResolveStep::Done(
            Err(ResolveError::ResolutionFailed(join2("resolve error: ", code.as_str()))),
        ),
    }
}

/// The error of a resolution that could not be started.
pub open spec fn start_failure(code: Seq<char>) -> ResolveErrorView {
    ResolveErrorView::ResolutionFailed("resolve start: "@ + code)
}

/// The error of a resolution that could not be started.
pub fn resolve_start_failed(code: &str) -> (error: ResolveError)
    ensures
        error@ == start_failure(code@),
{
    ResolveError::ResolutionFailed(join2("resolve start: ", code))
}

/// How a resolution ends: with what the first answer that is not "would
/// block" calls for. `None` while every answer so far was "would block".
pub open spec fn resolution(answers: Seq<ResolverAnswer>) -> Option<
    Result<IpAddress, ResolveErrorView>,
>
    decreases answers.len(),
{
    if answers.len() == 0 {
        None
    } else {
        match resolve_step(answers[0]) {
            ResolveStepView::Wait => resolution(answers.drop_first()),
            ResolveStepView::Done(result) => Some(result),
        }
    }
}

/// The first address wins: after any number of "would block" answers, the
/// first address that the resolver gives is the result, whatever it would
/// have given later.
pub proof fn lemma_first_address_wins(answers: Seq<ResolverAnswer>, k: int, address: IpAddress)
    requires
        0 <= k < answers.len(),
        answers[k] == ResolverAnswer::Address(address),
        forall|j: int| 0 <= j < k ==> #[trigger] answers[j] == ResolverAnswer::WouldBlock,
    ensures
        resolution(answers) == Some(Ok::<IpAddress, ResolveErrorView>(address)),
    decreases k,
{
    if k > 0 {
        let rest = answers.drop_first();
        assert(answers[0] == ResolverAnswer::WouldBlock);
        assert(rest[k - 1] == answers[k]);
        assert forall|j: int| 0 <= j < k - 1 implies #[trigger] rest[j]
            == ResolverAnswer::WouldBlock by {
            assert(rest[j] == answers[j + 1]);
        }
        lemma_first_address_wins(rest, k - 1, address);
    }
}

/// The address that a host name writes out itself, if it is a dotted quad.
pub open spec fn literal_address(host: Seq<char>) -> Option<IpAddress> {
    match dotted_quad(encode_utf8(host)) {
        Some((a, b, c, d)) => Some(IpAddress::V4(Ipv4Address(a, b, c, d))),
        None => None,
    }
}

/// The fast path: the address of a host that is written as a dotted quad.
/// `None` sends the caller to the resolver.
pub fn literal(host: &str) -> (r: Option<IpAddress>)
    ensures
        r == literal_address(host@),
{
    match parse_ipv4(host) {
        Some((a, b, c, d)) => Some(IpAddress::V4(Ipv4Address(a, b, c, d))),
        None => None,
    }
}

/// The fast path takes every dotted quad: a host that is written as four
/// octets, each from 0 to 255, with dots between them, has those octets as
/// its address, and no resolver is needed.
pub proof fn lemma_literal_needs_no_resolver(a: u8, b: u8, c: u8, d: u8)
    ensures
        literal_address(quad_text(a, b, c, d)) == Some(IpAddress::V4(Ipv4Address(a, b, c, d))),
{
    lemma_quad_reads_back(a, b, c, d);
}

/// The fast path declines everything else: a host that has fewer or more
/// than four fields between dots, or a field that is no numeral for at
/// most 255, is left to the resolver.
pub proof fn lemma_other_hosts_need_the_resolver(host: Seq<char>, i: int)
    requires
        split_on(encode_utf8(host), DOT).len() != 4 || (0 <= i < 4 && decimal_value(
            split_on(encode_utf8(host), DOT)[i],
            255,
        ) is None),
    ensures
        literal_address(host) is None,
{
}

/// The address that stands in for a host whose resolution failed: a fixed
/// one for `example.com`, none for any other host.
pub open spec fn fallback_for(host: Seq<char>) -> Option<IpAddress> {
    if host == "example.com"@ {
        Some(IpAddress::V4(Ipv4Address(93, 184, 216, 34)))
    } else {
        None
    }
}

/// The address to use when the resolution of `host` has failed.
pub fn fallback_address(host: &str) -> (r: Option<IpAddress>)
    ensures
        r == fallback_for(host@),
{
    if same_text(host, "example.com") {
        Some(IpAddress::V4(Ipv4Address(93, 184, 216, 34)))
    } else {
        None
    }
}

} // verus!
