use wasi_gateway::addr::{IpAddress, Ipv4Address, Ipv6Address};
use wasi_gateway::dns::{
    fallback_address, literal, resolve_start_failed, try_dns_resolve, ResolveError, ResolveStep,
    ResolverAnswer,
};

#[test]
fn an_address_ends_the_resolution() {
    let address = IpAddress::V4(Ipv4Address(192, 0, 2, 7));
    assert_eq!(
        try_dns_resolve(ResolverAnswer::Address(address)),
        ResolveStep::Done(Ok(address))
    );
    let address = IpAddress::V6(Ipv6Address(0x2001, 0xdb8, 0, 0, 0, 0, 0, 1));
    assert_eq!(
        try_dns_resolve(ResolverAnswer::Address(address)),
        ResolveStep::Done(Ok(address))
    );
}

#[test]
fn would_block_asks_to_wait() {
    assert_eq!(try_dns_resolve(ResolverAnswer::WouldBlock), ResolveStep::Wait);
}

#[test]
fn an_exhausted_resolver_found_no_address() {
    assert_eq!(
        try_dns_resolve(ResolverAnswer::Exhausted),
        ResolveStep::Done(Err(ResolveError::NoAddressFound))
    );
}

#[test]
fn another_error_is_a_failed_resolution() {
    assert_eq!(
        try_dns_resolve(ResolverAnswer::Failed("NameUnresolvable".to_string())),
        ResolveStep::Done(Err(ResolveError::ResolutionFailed(
            "resolve error: NameUnresolvable".to_string()
        )))
    );
}

#[test]
fn a_resolution_that_cannot_start_has_failed() {
    assert_eq!(
        resolve_start_failed("AccessDenied"),
        ResolveError::ResolutionFailed("resolve start: AccessDenied".to_string())
    );
}

#[test]
fn resolution_errors_have_words() {
    assert_eq!(ResolveError::NoAddressFound.message(), "no IPs found");
    assert_eq!(
        ResolveError::ResolutionFailed("resolve error: Timeout".to_string()).message(),
        "resolve error: Timeout"
    );
}

#[test]
fn the_first_address_wins() {
    let answers = vec![
        ResolverAnswer::WouldBlock,
        ResolverAnswer::WouldBlock,
        ResolverAnswer::Address(IpAddress::V4(Ipv4Address(10, 0, 0, 1))),
        ResolverAnswer::Address(IpAddress::V4(Ipv4Address(10, 0, 0, 2))),
    ];
    let mut waits = 0;
    let mut result = None;
    for answer in answers {
        match try_dns_resolve(answer) {
            ResolveStep::Wait => waits += 1,
            ResolveStep::Done(done) => {
                result = Some(done);
                break;
            }
        }
    }
    assert_eq!(waits, 2);
    assert_eq!(result, Some(Ok(IpAddress::V4(Ipv4Address(10, 0, 0, 1)))));
}

#[test]
fn a_dotted_quad_needs_no_resolver() {
    assert_eq!(literal("127.0.0.1"), Some(IpAddress::V4(Ipv4Address(127, 0, 0, 1))));
    assert_eq!(literal("8.8.4.4"), Some(IpAddress::V4(Ipv4Address(8, 8, 4, 4))));
}

#[test]
fn a_name_is_left_to_the_resolver() {
    assert_eq!(literal("example.com"), None);
    assert_eq!(literal("localhost"), None);
    assert_eq!(literal("1.2.3"), None);
    assert_eq!(literal("1.2.3.4.5"), None);
    assert_eq!(literal("1.2.3.256"), None);
    assert_eq!(literal("::1"), None);
}

#[test]
fn only_example_dot_com_has_a_fallback() {
    assert_eq!(
        fallback_address("example.com"),
        Some(IpAddress::V4(Ipv4Address(93, 184, 216, 34)))
    );
    assert_eq!(fallback_address("example.org"), None);
    assert_eq!(fallback_address("www.example.com"), None);
    assert_eq!(fallback_address("EXAMPLE.COM"), None);
    assert_eq!(fallback_address("example.com."), None);
    assert_eq!(fallback_address(""), None);
}
