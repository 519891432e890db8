//! A TCP exchange: resolve, connect, write once, read the answer.
//!
//! An exchange is a state machine. It is created with the first thing to do;
//! after that the caller reports what the network answered and is told what
//! to do next, until the exchange finishes with a text or with an error in
//! words. Nothing here blocks or retries on a clock: a step that would block
//! is answered with an order to wait on the readiness token and try again.
//!
//! Only the reading of a reply has a ceiling. A resolver or a connect that
//! never becomes ready is waited on for as long as the caller goes on: the
//! orders `AwaitResolver` and `AwaitConnect` are not counted here, and a
//! caller that wants a bound on them counts them itself.

use crate::addr::{quad_text, IpAddress, Ipv4Address, SocketAddress};
use crate::ascii::NEWLINE;
use crate::dns::{
    fallback_address, fallback_for, lemma_literal_needs_no_resolver, literal, literal_address,
    resolve_start_failed, resolve_step,
    start_failure, try_dns_resolve, ResolveError, ResolveErrorView, ResolveStep, ResolveStepView,
    ResolverAnswer,
};
use crate::stream::{
    ends_drain, gathered, lemma_drain_goes_on, lemma_reply_is_bounded, ReadOutcome, ReadPolicy,
    ReadRequest, Reader, ReaderView, REPLY_CYCLES,
};
use crate::text::{join2, join3, lossy_utf8, trim_trailing, without_trailing};
use vstd::prelude::*;
use vstd::string::{StrSliceExecFns, StringExecFns};
use vstd::utf8::encode_utf8;

verus! {

/// The two exchanges that the gateway makes.
#[derive(Clone, Copy, Debug, PartialEq, Eq, Structural)]
pub enum ExchangeKind {
    /// Send one line and read the reply, within the reply ceilings.
    Message,
    /// Send an HTTP GET for `/` and read until the peer closes.
    Fetch,
}

/// How far an exchange has come.
#[derive(Clone, Copy, Debug, PartialEq, Eq, Structural)]
pub enum TcpPhase {
    Resolving,
    Connecting,
    Writing,
    Reading,
    Finished,
}

/// What the network answered to the last order. Error codes are given as
/// the host names them.
#[derive(Debug, PartialEq, Eq)]
pub enum TcpEvent {
    /// The resolution could not be started.
    ResolveStartFailed(String),
    /// The resolver was asked for the next address.
    Resolver(ResolverAnswer),
    /// No socket could be created.
    SocketFailed(String),
    /// The connect could not be started.
    ConnectStartFailed(String),
    /// The connect is not finished yet.
    ConnectPending,
    /// The connect is finished: both streams are there.
    Connected,
    /// The connect failed.
    ConnectFailed(String),
    /// The payload was written and flushed.
    Written,
    /// The write failed.
    WriteFailed(String),
    /// The read that was asked for was made.
    Read(ReadOutcome),
}

/// What to do next.
#[derive(Debug, PartialEq, Eq)]
pub enum TcpAction {
    /// Start resolving this host and ask the resolver for its first address.
    Resolve(String),
    /// Wait on the resolver's readiness token and ask it again.
    AwaitResolver,
    /// Create a socket of the address's family, start connecting it to the
    /// address, and try to finish the connect.
    Connect(SocketAddress),
    /// Wait on the socket's readiness token and try again to finish the
    /// connect.
    AwaitConnect,
    /// Write these bytes to the stream and flush it, in one call.
    Write(Vec<u8>),
    /// Make this read.
    Read(ReadRequest),
    /// Close what was opened: the exchange is over, with its text or with
    /// what went wrong.
    Finish(Result<String, String>),
}

/// An order as a value.
pub enum TcpActionView {
    Resolve(Seq<char>),
    AwaitResolver,
    Connect(SocketAddress),
    AwaitConnect,
    Write(Seq<u8>),
    Read(ReadRequest),
    Finish(Result<Seq<char>, Seq<char>>),
}

impl View for TcpAction {
    type V = TcpActionView;

    open spec fn view(&self) -> TcpActionView {
        match self {
            TcpAction::Resolve(host) => TcpActionView::Resolve(host@),
            TcpAction::AwaitResolver => TcpActionView::AwaitResolver,
            TcpAction::Connect(address) => TcpActionView::Connect(*address),
            TcpAction::AwaitConnect => TcpActionView::AwaitConnect,
            TcpAction::Write(bytes) => TcpActionView::Write(bytes@),
            TcpAction::Read(request) => TcpActionView::Read(*request),
            TcpAction::Finish(Ok(text)) => TcpActionView::Finish(Ok(text@)),
            TcpAction::Finish(Err(text)) => TcpActionView::Finish(Err(text@)),
        }
    }
}

/// The state of an exchange.
pub struct TcpExchange {
    kind: ExchangeKind,
    host: String,
    port: u16,
    message: String,
    phase: TcpPhase,
    reader: Reader,
}

/// An exchange as a value.
pub struct TcpExchangeView {
    pub kind: ExchangeKind,
    pub host: Seq<char>,
    pub port: u16,
    pub message: Seq<char>,
    pub phase: TcpPhase,
    pub reader: ReaderView,
}

/// The bytes that carry a message: the message, and a line feed if it does
/// not end in one.
pub open spec fn message_payload(message: Seq<u8>) -> Seq<u8> {
    if message.len() > 0 && message.last() == NEWLINE {
        message
    } else {
        message.push(NEWLINE)
    }
}

/// The request that a fetch sends.
pub open spec fn fetch_request(host: Seq<char>) -> Seq<char> {
    "GET / HTTP/1.1\r\nHost: "@ + host + "\r\nConnection: close\r\n\r\n"@
}

/// How a failed resolution is reported.
pub open spec fn dns_failure(kind: ExchangeKind, host: Seq<char>, reason: Seq<char>) -> Seq<char> {
    match kind {
        ExchangeKind::Message => "dns: "@ + reason,
        ExchangeKind::Fetch => "dns failure for host '"@ + host + "': "@ + reason,
    }
}

impl TcpExchangeView {
    /// The read policy of an exchange.
    pub open spec fn policy(kind: ExchangeKind) -> ReadPolicy {
        match kind {
            ExchangeKind::Message => ReadPolicy::Reply,
            ExchangeKind::Fetch => ReadPolicy::Drain,
        }
    }

    /// The exchange before its first step, and the first thing to do. A host
    /// that is a dotted quad is connected to at once; any other host is
    /// resolved first.
    pub open spec fn begin(kind: ExchangeKind, host: Seq<char>, port: u16, message: Seq<char>) -> (
        TcpExchangeView,
        TcpActionView,
    ) {
        let fresh = TcpExchangeView {
            kind,
            host,
            port,
            message,
            phase: TcpPhase::Resolving,
            reader: ReaderView::start(Self::policy(kind)),
        };
        match literal_address(host) {
            Some(address) => fresh.connect_to(address),
            None => (fresh, TcpActionView::Resolve(host)),
        }
    }

    /// The bytes to write once connected.
    pub open spec fn payload(self) -> Seq<u8> {
        match self.kind {
            ExchangeKind::Message => message_payload(encode_utf8(self.message)),
            ExchangeKind::Fetch => encode_utf8(fetch_request(self.host)),
        }
    }

    /// The text that the exchange ends with: what was read, as text; a
    /// reply without the NUL characters that end it.
    pub open spec fn reply(self) -> Seq<char> {
        match self.kind {
            ExchangeKind::Message => without_trailing(self.reader.text(), '\0'),
            ExchangeKind::Fetch => self.reader.text(),
        }
    }

    /// Goes on to connect.
    pub open spec fn connect_to(self, address: IpAddress) -> (TcpExchangeView, TcpActionView) {
        (
            TcpExchangeView { phase: TcpPhase::Connecting, ..self },
            TcpActionView::Connect(address.at_port(self.port)),
        )
    }

    /// Ends with an error.
    pub open spec fn fail(self, text: Seq<char>) -> (TcpExchangeView, TcpActionView) {
        (TcpExchangeView { phase: TcpPhase::Finished, ..self }, TcpActionView::Finish(Err(text)))
    }

    /// Goes on after the resolution ended. An address is connected to. A
    /// failure is made good by the fallback address where the host has one,
    /// and ends the exchange where it has none.
    pub open spec fn resolved(self, result: Result<IpAddress, ResolveErrorView>) -> (
        TcpExchangeView,
        TcpActionView,
    ) {
        match result {
            Ok(address) => self.connect_to(address),
            Err(error) => match fallback_for(self.host) {
                Some(address) => self.connect_to(address),
                None => self.fail(dns_failure(self.kind, self.host, error.message())),
            },
        }
    }

    /// Asks for the next read, or ends with the reply when the read loop is
    /// over.
    pub open spec fn read_on(self) -> (TcpExchangeView, TcpActionView) {
        match self.reader.request() {
            Some(request) => (
                TcpExchangeView { phase: TcpPhase::Reading, ..self },
                TcpActionView::Read(request),
            ),
            None => (
                TcpExchangeView { phase: TcpPhase::Finished, ..self },
                TcpActionView::Finish(Ok(self.reply())),
            ),
        }
    }

    /// The exchange after an event, and what to do next. An event that does
    /// not answer the last order ends the exchange with an error.
    pub open spec fn step(self, event: TcpEvent) -> (TcpExchangeView, TcpActionView) {
        match (self.phase, event) {
            (TcpPhase::Resolving, TcpEvent::ResolveStartFailed(code)) => self.resolved(
                Err(start_failure(code@)),
            ),
            (TcpPhase::Resolving, TcpEvent::Resolver(answer)) => match resolve_step(answer) {
                ResolveStepView::Wait => (self, TcpActionView::AwaitResolver),
                ResolveStepView::Done(result) => self.resolved(result),
            },
            (TcpPhase::Connecting, TcpEvent::SocketFailed(code)) => self.fail(
                "create socket: "@ + code@,
            ),
            (TcpPhase::Connecting, TcpEvent::ConnectStartFailed(code)) => self.fail(
                "start_connect: "@ + code@,
            ),
            (TcpPhase::Connecting, TcpEvent::ConnectPending) => (self, TcpActionView::AwaitConnect),
            (TcpPhase::Connecting, TcpEvent::Connected) => (
                TcpExchangeView { phase: TcpPhase::Writing, ..self },
                TcpActionView::Write(self.payload()),
            ),
            (TcpPhase::Connecting, TcpEvent::ConnectFailed(code)) => self.fail(
                "finish_connect: "@ + code@,
            ),
            (TcpPhase::Writing, TcpEvent::Written) => self.read_on(),
            (TcpPhase::Writing, TcpEvent::WriteFailed(code)) => self.fail("write: "@ + code@),
            (TcpPhase::Reading, TcpEvent::Read(outcome)) => (TcpExchangeView {
                reader: self.reader.accept(outcome),
                ..self
            }).read_on(),
            _ => self.fail("unexpected event"@),
        }
    }
}

impl View for TcpExchange {
    type V = TcpExchangeView;

    closed spec fn view(&self) -> TcpExchangeView {
        TcpExchangeView {
            kind: self.kind,
            host: self.host@,
            port: self.port,
            message: self.message@,
            phase: self.phase,
            reader: self.reader@,
        }
    }
}

impl TcpExchange {
    /// Starts an exchange.
    pub fn begin(kind: ExchangeKind, host: &str, port: u16, message: &str) -> (r: (
        TcpExchange,
        TcpAction,
    ))
        ensures
            (r.0@, r.1@) == TcpExchangeView::begin(kind, host@, port, message@),
    {
        let policy = match kind {
            ExchangeKind::Message => ReadPolicy::Reply,
            ExchangeKind::Fetch => ReadPolicy::Drain,
        };
        let fresh = TcpExchange {
            kind,
            host: host.to_owned(),
            port,
            message: message.to_owned(),
            phase: TcpPhase::Resolving,
            reader: Reader::new(policy),
        };
        match literal(host) {
            Some(address) => fresh.connect_to(address),
            None => (fresh, TcpAction::Resolve(host.to_owned())),
        }
    }

    fn connect_to(self, address: IpAddress) -> (r: (TcpExchange, TcpAction))
        ensures
            (r.0@, r.1@) == self@.connect_to(address),
    {
        let target = address.with_port(self.port);
        (TcpExchange { phase: TcpPhase::Connecting, ..self }, TcpAction::Connect(target))
    }

    fn fail(self, text: String) -> (r: (TcpExchange, TcpAction))
        ensures
            (r.0@, r.1@) == self@.fail(text@),
    {
        (TcpExchange { phase: TcpPhase::Finished, ..self }, TcpAction::Finish(Err(text)))
    }

    fn resolved(self, result: Result<IpAddress, ResolveError>) -> (r: (TcpExchange, TcpAction))
        ensures
            (r.0@, r.1@) == self@.resolved(
                match result {
                    Ok(address) => Ok(address),
                    Err(error) => Err(error@),
                },
            ),
    {
        match result {
            Ok(address) => self.connect_to(address),
            Err(error) => match fallback_address(self.host.as_str()) {
                Some(address) => self.connect_to(address),
                None => {
                    let reason = error.message();
                    let text = match self.kind {
                        ExchangeKind::Message => join2("dns: ", reason.as_str()),
                        ExchangeKind::Fetch => {
                            let mut text = join3(
                                "dns failure for host '",
                                self.host.as_str(),
                                "': ",
                            );
                            text.append(reason.as_str());
                            text
                        },
                    };
                    self.fail(text)
                },
            },
        }
    }

    fn payload(&self) -> (r: Vec<u8>)
        ensures
            r@ == self@.payload(),
    {
        match self.kind {
            ExchangeKind::Message => {
                let mut bytes = self.message.as_str().as_bytes_vec();
                let n = bytes.len();
                if n == 0 || bytes[n - 1] != NEWLINE {
                    bytes.push(NEWLINE);
                }
                bytes
            },
            ExchangeKind::Fetch => {
                let request = join3(
                    "GET / HTTP/1.1\r\nHost: ",
                    self.host.as_str(),
                    "\r\nConnection: close\r\n\r\n",
                );
                request.as_str().as_bytes_vec()
            },
        }
    }

    fn read_on(self) -> (r: (TcpExchange, TcpAction))
        ensures
            (r.0@, r.1@) == self@.read_on(),
    {
        match self.reader.request() {
            Some(request) => (
                TcpExchange { phase: TcpPhase::Reading, ..self },
                TcpAction::Read(request),
            ),
            None => {
                let text = self.reader.text();
                let reply = match self.kind {
                    ExchangeKind::Message => trim_trailing(text.as_str(), '\0'),
                    ExchangeKind::Fetch => text,
                };
                (TcpExchange { phase: TcpPhase::Finished, ..self }, TcpAction::Finish(Ok(reply)))
            },
        }
    }

    /// Takes what the network answered and says what to do next.
    pub fn advance(self, event: TcpEvent) -> (r: (TcpExchange, TcpAction))
        ensures
            (r.0@, r.1@) == self@.step(event),
    {
        match (self.phase, event) {
            (TcpPhase::Resolving, TcpEvent::ResolveStartFailed(code)) => {
                let error = resolve_start_failed(code.as_str());
                self.resolved(Err(error))
            },
            (TcpPhase::Resolving, TcpEvent::Resolver(answer)) => match try_dns_resolve(answer) {
                ResolveStep::Wait => (self, TcpAction::AwaitResolver),
                ResolveStep::Done(result) => self.resolved(result),
            },
            (TcpPhase::Connecting, TcpEvent::SocketFailed(code)) => {
                let text = join2("create socket: ", code.as_str());
                self.fail(text)
            },
            (TcpPhase::Connecting, TcpEvent::ConnectStartFailed(code)) => {
                let text = join2("start_connect: ", code.as_str());
                self.fail(text)
            },
            (TcpPhase::Connecting, TcpEvent::ConnectPending) => (self, TcpAction::AwaitConnect),
            (TcpPhase::Connecting, TcpEvent::Connected) => {
                let payload = self.payload();
                (TcpExchange { phase: TcpPhase::Writing, ..self }, TcpAction::Write(payload))
            },
            (TcpPhase::Connecting, TcpEvent::ConnectFailed(code)) => {
                let text = join2("finish_connect: ", code.as_str());
                self.fail(text)
            },
            (TcpPhase::Writing, TcpEvent::Written) => self.read_on(),
            (TcpPhase::Writing, TcpEvent::WriteFailed(code)) => {
                let text = join2("write: ", code.as_str());
                self.fail(text)
            },
            (TcpPhase::Reading, TcpEvent::Read(outcome)) => {
                let TcpExchange { kind, host, port, message, phase, reader } = self;
                let reader = reader.accept(outcome);
                (TcpExchange { kind, host, port, message, phase, reader }).read_on()
            },
            _ => {
                let text = "unexpected event".to_owned();
                self.fail(text)
            },
        }
    }

    /// How far the exchange has come.
    pub fn phase(&self) -> (r: TcpPhase)
        ensures
            r == self@.phase,
    {
        self.phase
    }

    /// The host that the exchange is with.
    pub fn host(&self) -> (r: &str)
        ensures
            r@ == self@.host,
    {
        self.host.as_str()
    }

    /// The port that the exchange is with.
    pub fn port(&self) -> (r: u16)
        ensures
            r == self@.port,
    {
        self.port
    }
}

/// Starts the exchange that sends `message` to `host:port` and reads the
/// reply.
pub fn tcp_send_message(host: &str, port: u16, message: &str) -> (r: (TcpExchange, TcpAction))
    ensures
        (r.0@, r.1@) == TcpExchangeView::begin(ExchangeKind::Message, host@, port, message@),
{
    TcpExchange::begin(ExchangeKind::Message, host, port, message)
}

/// Starts the exchange that fetches `/` from `host:port` over a raw socket.
pub fn tcp_get_host_port(host: &str, port: u16) -> (r: (TcpExchange, TcpAction))
    ensures
        (r.0@, r.1@) == TcpExchangeView::begin(ExchangeKind::Fetch, host@, port, Seq::empty()),
{
    proof {
        reveal_strlit("");
        assert(""@ =~= Seq::<char>::empty());
    }
    TcpExchange::begin(ExchangeKind::Fetch, host, port, "")
}

/// Starts the fetch of `/` from `example.com`, port 80.
pub fn tcp_get_example_dot_com() -> (r: (TcpExchange, TcpAction))
    ensures
        (r.0@, r.1@) == TcpExchangeView::begin(
            ExchangeKind::Fetch,
            "example.com"@,
            80,
            Seq::empty(),
        ),
{
    tcp_get_host_port("example.com", 80)
}

/// An exchange with a host that is written as a dotted quad begins with the
/// connect to that address: the resolver is not asked.
pub proof fn lemma_quad_is_connected_to_at_once(
    kind: ExchangeKind,
    a: u8,
    b: u8,
    c: u8,
    d: u8,
    port: u16,
    message: Seq<char>,
)
    ensures
        TcpExchangeView::begin(kind, quad_text(a, b, c, d), port, message).1
            == TcpActionView::Connect(
            SocketAddress::V4 { address: Ipv4Address(a, b, c, d), port },
        ),
{
    lemma_literal_needs_no_resolver(a, b, c, d);
}

/// An exchange with any other host begins at the resolver.
pub proof fn lemma_other_hosts_are_resolved(
    kind: ExchangeKind,
    host: Seq<char>,
    port: u16,
    message: Seq<char>,
)
    requires
        literal_address(host) is None,
    ensures
        TcpExchangeView::begin(kind, host, port, message).1 == TcpActionView::Resolve(host),
{
}

impl TcpExchangeView {
    /// An exchange that is connected and has yet to write its payload.
    pub open spec fn connected(self) -> bool {
        self.phase == TcpPhase::Writing && self.reader == ReaderView::start(
            Self::policy(self.kind),
        )
    }

    /// The exchange after a run of reads, and the order that the last of
    /// them was answered with.
    pub open spec fn after_reads(self, outcomes: Seq<ReadOutcome>) -> (
        TcpExchangeView,
        TcpActionView,
    )
        decreases outcomes.len(),
    {
        if outcomes.len() == 0 {
            self.read_on()
        } else {
            self.after_reads(outcomes.drop_last()).0.step(TcpEvent::Read(outcomes.last()))
        }
    }
}

/// Once its payload is written, an exchange reads as its read loop does:
/// after any run of reads it holds what the loop holds after them, and it
/// is over exactly when the loop is.
pub proof fn lemma_exchange_reads_as_its_loop(
    exchange: TcpExchangeView,
    outcomes: Seq<ReadOutcome>,
)
    requires
        exchange.connected(),
    ensures
        exchange.step(TcpEvent::Written).0.after_reads(outcomes).0 == (TcpExchangeView {
            phase: if ReaderView::start(TcpExchangeView::policy(exchange.kind)).run(
                outcomes,
            ).finished {
                TcpPhase::Finished
            } else {
                TcpPhase::Reading
            },
            reader: ReaderView::start(TcpExchangeView::policy(exchange.kind)).run(outcomes),
            ..exchange
        }),
    decreases outcomes.len(),
{
    if outcomes.len() > 0 {
        lemma_exchange_reads_as_its_loop(exchange, outcomes.drop_last());
    }
}

/// The reading of a reply is over within its ceiling of reads, whether or
/// not the peer ever sends anything: after twenty reads, whatever they
/// gave, the exchange has finished.
pub proof fn lemma_reply_ends_within_the_ceiling(
    exchange: TcpExchangeView,
    outcomes: Seq<ReadOutcome>,
)
    requires
        exchange.connected(),
        exchange.kind == ExchangeKind::Message,
        outcomes.len() >= REPLY_CYCLES,
    ensures
        exchange.step(TcpEvent::Written).0.after_reads(outcomes).0.phase == TcpPhase::Finished,
{
    lemma_exchange_reads_as_its_loop(exchange, outcomes);
    lemma_reply_is_bounded(outcomes);
}

/// A fetch ends at the first read that gives nothing, finds the stream
/// closed or fails, and it ends well: with every byte read before that
/// read, as text.
pub proof fn lemma_fetch_ends_with_what_was_read(
    exchange: TcpExchangeView,
    outcomes: Seq<ReadOutcome>,
)
    requires
        exchange.connected(),
        exchange.kind == ExchangeKind::Fetch,
        outcomes.len() > 0,
        ends_drain(outcomes.last()),
        forall|j: int| 0 <= j < outcomes.len() - 1 ==> !ends_drain(#[trigger] outcomes[j]),
    ensures
        exchange.step(TcpEvent::Written).0.after_reads(outcomes).1 == TcpActionView::Finish(
            Ok(lossy_utf8(gathered(outcomes.drop_last()))),
        ),
{
    let before = outcomes.drop_last();
    assert forall|j: int| 0 <= j < before.len() implies !ends_drain(#[trigger] before[j]) by {
        assert(before[j] == outcomes[j]);
    }
    lemma_exchange_reads_as_its_loop(exchange, before);
    lemma_drain_goes_on(ReadPolicy::Drain, before);
}

} // verus!
