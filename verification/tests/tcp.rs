use wasi_gateway::addr::{IpAddress, Ipv4Address, Ipv6Address, SocketAddress};
use wasi_gateway::dns::ResolverAnswer;
use wasi_gateway::stream::{ReadOutcome, ReadRequest};
use wasi_gateway::tcp::{
    tcp_get_example_dot_com, tcp_get_host_port, tcp_send_message, TcpAction, TcpEvent,
    TcpExchange, TcpPhase,
};

const REPLY_READ: TcpAction = TcpAction::Read(ReadRequest { wait_first: true, limit: 4096 });
const DRAIN_READ: TcpAction = TcpAction::Read(ReadRequest { wait_first: false, limit: 32768 });

fn v4(a: u8, b: u8, c: u8, d: u8, port: u16) -> SocketAddress {
    SocketAddress::V4 { address: Ipv4Address(a, b, c, d), port }
}

fn run(exchange: TcpExchange, events: Vec<TcpEvent>) -> (TcpExchange, Vec<TcpAction>) {
    let mut exchange = exchange;
    let mut actions = Vec::new();
    for event in events {
        let (next, action) = exchange.advance(event);
        exchange = next;
        actions.push(action);
    }
    (exchange, actions)
}

fn data(bytes: &[u8]) -> TcpEvent {
    TcpEvent::Read(ReadOutcome::Data(bytes.to_vec()))
}

#[test]
fn a_literal_host_is_connected_to_without_resolution() {
    let (exchange, action) = tcp_send_message("127.0.0.1", 9090, "hi");
    assert_eq!(action, TcpAction::Connect(v4(127, 0, 0, 1, 9090)));
    assert_eq!(exchange.phase(), TcpPhase::Connecting);
    assert_eq!(exchange.host(), "127.0.0.1");
    assert_eq!(exchange.port(), 9090);
}

#[test]
fn a_named_host_is_resolved_first() {
    let (exchange, action) = tcp_send_message("echo.test", 7, "hi");
    assert_eq!(action, TcpAction::Resolve("echo.test".to_string()));
    assert_eq!(exchange.phase(), TcpPhase::Resolving);
}

#[test]
fn a_host_that_is_almost_a_quad_is_resolved() {
    for host in ["1.2.3", "1.2.3.4.5", "1.2.3.256", "1.2.x.4"] {
        let (_, action) = tcp_get_host_port(host, 80);
        assert_eq!(action, TcpAction::Resolve(host.to_string()));
    }
}

#[test]
fn a_message_is_sent_and_its_reply_read() {
    let (exchange, first) = tcp_send_message("echo.test", 7, "ping");
    assert_eq!(first, TcpAction::Resolve("echo.test".to_string()));
    let (exchange, actions) = run(
        exchange,
        vec![
            TcpEvent::Resolver(ResolverAnswer::WouldBlock),
            TcpEvent::Resolver(ResolverAnswer::Address(IpAddress::V4(Ipv4Address(10, 1, 2, 3)))),
            TcpEvent::ConnectPending,
            TcpEvent::ConnectPending,
            TcpEvent::Connected,
            TcpEvent::Written,
            data(b"pong\n"),
            data(b""),
        ],
    );
    assert_eq!(
        actions,
        vec![
            TcpAction::AwaitResolver,
            TcpAction::Connect(v4(10, 1, 2, 3, 7)),
            TcpAction::AwaitConnect,
            TcpAction::AwaitConnect,
            TcpAction::Write(b"ping\n".to_vec()),
            REPLY_READ,
            REPLY_READ,
            TcpAction::Finish(Ok("pong\n".to_string())),
        ]
    );
    assert_eq!(exchange.phase(), TcpPhase::Finished);
}

#[test]
fn a_message_that_ends_in_a_line_feed_gets_no_second_one() {
    let (exchange, _) = tcp_send_message("127.0.0.1", 9090, "line\n");
    let (_, action) = exchange.advance(TcpEvent::Connected);
    assert_eq!(action, TcpAction::Write(b"line\n".to_vec()));
}

#[test]
fn an_empty_message_is_a_line_feed() {
    let (exchange, _) = tcp_send_message("127.0.0.1", 9090, "");
    let (_, action) = exchange.advance(TcpEvent::Connected);
    assert_eq!(action, TcpAction::Write(b"\n".to_vec()));
}

#[test]
fn trailing_nuls_are_cut_from_a_reply() {
    let (exchange, _) = tcp_send_message("127.0.0.1", 9090, "hi");
    let (_, actions) = run(
        exchange,
        vec![TcpEvent::Connected, TcpEvent::Written, data(b"a\0b\0\0\0"), TcpEvent::Read(ReadOutcome::Closed)],
    );
    assert_eq!(actions[3], TcpAction::Finish(Ok("a\0b".to_string())));
}

#[test]
fn a_reply_of_nuls_only_is_empty() {
    let (exchange, _) = tcp_send_message("127.0.0.1", 9090, "hi");
    let (_, actions) = run(
        exchange,
        vec![TcpEvent::Connected, TcpEvent::Written, data(b"\0\0"), data(b"")],
    );
    assert_eq!(actions[3], TcpAction::Finish(Ok(String::new())));
}

#[test]
fn a_silent_peer_ends_the_exchange_after_twenty_reads() {
    let (exchange, _) = tcp_send_message("127.0.0.1", 9090, "hi");
    let (mut exchange, mut action) = exchange.advance(TcpEvent::Connected);
    assert_eq!(action, TcpAction::Write(b"hi\n".to_vec()));
    let (next, first_read) = exchange.advance(TcpEvent::Written);
    exchange = next;
    action = first_read;
    let mut reads = 0;
    while action == REPLY_READ {
        reads += 1;
        assert!(reads <= 20);
        let (next, then) = exchange.advance(TcpEvent::Read(ReadOutcome::Failed));
        exchange = next;
        action = then;
    }
    assert_eq!(reads, 20);
    assert_eq!(action, TcpAction::Finish(Ok(String::new())));
    assert_eq!(exchange.phase(), TcpPhase::Finished);
}

#[test]
fn a_fetch_sends_a_get_and_reads_until_the_peer_closes() {
    let (exchange, first) = tcp_get_host_port("10.0.0.5", 8082);
    assert_eq!(first, TcpAction::Connect(v4(10, 0, 0, 5, 8082)));
    let (exchange, actions) = run(
        exchange,
        vec![
            TcpEvent::Connected,
            TcpEvent::Written,
            data(b"HTTP/1.1 200 OK\r\n\r\n"),
            data(b"body"),
            TcpEvent::Read(ReadOutcome::Closed),
        ],
    );
    assert_eq!(
        actions,
        vec![
            TcpAction::Write(
                b"GET / HTTP/1.1\r\nHost: 10.0.0.5\r\nConnection: close\r\n\r\n".to_vec()
            ),
            DRAIN_READ,
            DRAIN_READ,
            DRAIN_READ,
            TcpAction::Finish(Ok("HTTP/1.1 200 OK\r\n\r\nbody".to_string())),
        ]
    );
    assert_eq!(exchange.phase(), TcpPhase::Finished);
}

#[test]
fn a_fetch_keeps_trailing_nuls() {
    let (exchange, _) = tcp_get_host_port("10.0.0.5", 80);
    let (_, actions) = run(
        exchange,
        vec![TcpEvent::Connected, TcpEvent::Written, data(b"x\0\0"), data(b"")],
    );
    assert_eq!(actions[3], TcpAction::Finish(Ok("x\0\0".to_string())));
}

#[test]
fn a_fetch_that_fails_midway_returns_what_it_read() {
    let (exchange, _) = tcp_get_host_port("10.0.0.5", 80);
    let (_, actions) = run(
        exchange,
        vec![
            TcpEvent::Connected,
            TcpEvent::Written,
            data(b"half"),
            TcpEvent::Read(ReadOutcome::Failed),
        ],
    );
    assert_eq!(actions[3], TcpAction::Finish(Ok("half".to_string())));
}

#[test]
fn an_ipv6_address_gets_no_flow_and_no_scope() {
    let (exchange, _) = tcp_get_host_port("v6.test", 443);
    let groups = Ipv6Address(0x2001, 0xdb8, 0, 0, 0, 0, 0, 0x10);
    let (_, action) =
        exchange.advance(TcpEvent::Resolver(ResolverAnswer::Address(IpAddress::V6(groups))));
    assert_eq!(
        action,
        TcpAction::Connect(SocketAddress::V6 {
            address: groups,
            port: 443,
            flow_info: 0,
            scope_id: 0
        })
    );
}

#[test]
fn a_failed_resolution_ends_a_message() {
    let (exchange, _) = tcp_send_message("nowhere.test", 7, "hi");
    let (exchange, action) = exchange.advance(TcpEvent::Resolver(ResolverAnswer::Exhausted));
    assert_eq!(action, TcpAction::Finish(Err("dns: no IPs found".to_string())));
    assert_eq!(exchange.phase(), TcpPhase::Finished);
}

#[test]
fn a_failed_resolution_ends_a_fetch() {
    let (exchange, _) = tcp_get_host_port("nowhere.test", 80);
    let (_, action) = exchange
        .advance(TcpEvent::Resolver(ResolverAnswer::Failed("NameUnresolvable".to_string())));
    assert_eq!(
        action,
        TcpAction::Finish(Err(
            "dns failure for host 'nowhere.test': resolve error: NameUnresolvable".to_string()
        ))
    );
}

#[test]
fn a_resolution_that_cannot_start_ends_the_exchange() {
    let (exchange, _) = tcp_send_message("nowhere.test", 7, "hi");
    let (_, action) = exchange.advance(TcpEvent::ResolveStartFailed("AccessDenied".to_string()));
    assert_eq!(action, TcpAction::Finish(Err("dns: resolve start: AccessDenied".to_string())));
}

#[test]
fn example_dot_com_falls_back_to_its_fixed_address() {
    let (exchange, first) = tcp_get_example_dot_com();
    assert_eq!(first, TcpAction::Resolve("example.com".to_string()));
    let (exchange, action) = exchange.advance(TcpEvent::Resolver(ResolverAnswer::Exhausted));
    assert_eq!(action, TcpAction::Connect(v4(93, 184, 216, 34, 80)));
    assert_eq!(exchange.phase(), TcpPhase::Connecting);
    let (_, action) = exchange.advance(TcpEvent::Connected);
    assert_eq!(
        action,
        TcpAction::Write(
            b"GET / HTTP/1.1\r\nHost: example.com\r\nConnection: close\r\n\r\n".to_vec()
        )
    );
}

#[test]
fn the_fallback_holds_for_every_kind_of_resolution_failure() {
    let failures = vec![
        TcpEvent::ResolveStartFailed("NotSupported".to_string()),
        TcpEvent::Resolver(ResolverAnswer::Exhausted),
        TcpEvent::Resolver(ResolverAnswer::Failed("Timeout".to_string())),
    ];
    for failure in failures {
        let (exchange, _) = tcp_send_message("example.com", 8080, "hi");
        let (_, action) = exchange.advance(failure);
        assert_eq!(action, TcpAction::Connect(v4(93, 184, 216, 34, 8080)));
    }
}

#[test]
fn connection_errors_end_the_exchange_in_words() {
    let cases = vec![
        (TcpEvent::SocketFailed("NotSupported".to_string()), "create socket: NotSupported"),
        (TcpEvent::ConnectStartFailed("InvalidArgument".to_string()), "start_connect: InvalidArgument"),
        (TcpEvent::ConnectFailed("ConnectionRefused".to_string()), "finish_connect: ConnectionRefused"),
    ];
    for (event, words) in cases {
        let (exchange, _) = tcp_send_message("127.0.0.1", 9090, "hi");
        let (exchange, action) = exchange.advance(event);
        assert_eq!(action, TcpAction::Finish(Err(words.to_string())));
        assert_eq!(exchange.phase(), TcpPhase::Finished);
    }
}

#[test]
fn a_failed_write_ends_the_exchange() {
    let (exchange, _) = tcp_send_message("127.0.0.1", 9090, "hi");
    let (exchange, _) = exchange.advance(TcpEvent::Connected);
    assert_eq!(exchange.phase(), TcpPhase::Writing);
    let (_, action) = exchange.advance(TcpEvent::WriteFailed("Closed".to_string()));
    assert_eq!(action, TcpAction::Finish(Err("write: Closed".to_string())));
}

#[test]
fn an_event_out_of_turn_ends_the_exchange() {
    let (exchange, _) = tcp_send_message("127.0.0.1", 9090, "hi");
    let (exchange, action) = exchange.advance(TcpEvent::Written);
    assert_eq!(action, TcpAction::Finish(Err("unexpected event".to_string())));
    assert_eq!(exchange.phase(), TcpPhase::Finished);
    let (_, action) = exchange.advance(TcpEvent::Connected);
    assert_eq!(action, TcpAction::Finish(Err("unexpected event".to_string())));
}

#[test]
fn an_exchange_can_be_begun_by_kind() {
    let (_, action) = TcpExchange::begin(wasi_gateway::tcp::ExchangeKind::Fetch, "1.1.1.1", 53, "");
    assert_eq!(action, TcpAction::Connect(v4(1, 1, 1, 1, 53)));
}
