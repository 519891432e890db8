//! The request router: from an inbound request to one text response.
//!
//! The router is a state machine over whole operations. It is created from
//! the request target and says what to do first: read the body, read the
//! configuration, run a TCP exchange or an HTTP call, or respond. Whatever
//! an operation comes to is handed back as an event, until the router says
//! what to respond with. It responds exactly once. A failure of an operation
//! is part of the response text: the router never asks for an error status.

use crate::addr::{decimal_value, parse_port};
use crate::completion::{
    call_openai, choose_model, completion_end, completion_start, configured, configured_value,
    endpoint, envelope_members, finish_completion, model_or_default, probe_payload, probe_request,
    reply_or_echo, reply_text, slack_envelope, CompletionStep, CompletionStepView,
};
use crate::json::json_object_text;
use crate::query::{
    params_view, parse_query_params, path_part, query_map, query_part, split_path_and_query,
};
use crate::ascii::QUESTION;
use crate::bytes::{has_prefix, lemma_first_index_is};
use crate::text::{
    ascii_bytes, decimal, decimal_text, lemma_ascii_bytes, lemma_encode_concat, option_view,
    outcome_view, starts_with,
};
use vstd::hash_map::StringHashMap;
use vstd::prelude::*;
use vstd::string::StringExecFns;
use vstd::utf8::{
    decode_utf8, encode_utf8, encode_utf8_decode_utf8, encode_utf8_valid_utf8, is_char_boundary,
};

verus! {

/// The behaviours of the gateway.
#[derive(Clone, Copy, Debug, PartialEq, Eq, Structural)]
pub enum Route {
    Health,
    SlackCommand,
    TcpSend,
    DebugHttpGet,
    DebugOpenai,
    TcpFetch,
}

/// The route of a path: the first of the fixed prefixes that the path
/// begins with, and the raw fetch for every other path.
pub open spec fn route_of(path: Seq<u8>) -> Route {
    if has_prefix(path, encode_utf8("/health"@)) {
        Route::Health
    } else if has_prefix(path, encode_utf8("/slack/command"@)) {
        Route::SlackCommand
    } else if has_prefix(path, encode_utf8("/tcp/send"@)) {
        Route::TcpSend
    } else if has_prefix(path, encode_utf8("/debug/httpget"@)) {
        Route::DebugHttpGet
    } else if has_prefix(path, encode_utf8("/debug/openai"@)) {
        Route::DebugOpenai
    } else {
        Route::TcpFetch
    }
}

/// Chooses the route of a path.
pub fn route(path: &str) -> (r: Route)
    ensures
        r == route_of(encode_utf8(path@)),
{
    if starts_with(path, "/health") {
        Route::Health
    } else if starts_with(path, "/slack/command") {
        Route::SlackCommand
    } else if starts_with(path, "/tcp/send") {
        Route::TcpSend
    } else if starts_with(path, "/debug/httpget") {
        Route::DebugHttpGet
    } else if starts_with(path, "/debug/openai") {
        Route::DebugOpenai
    } else {
        Route::TcpFetch
    }
}

/// The content type of every response.
pub fn content_type() -> (r: &'static str)
    ensures
        r@ == "text/plain"@,
{
    "text/plain"
}

/// A text parameter, or its default where it is not set.
pub open spec fn text_param(
    params: Map<Seq<char>, Seq<char>>,
    name: Seq<char>,
    default: Seq<char>,
) -> Seq<char> {
    if params.contains_key(name) {
        params[name]
    } else {
        default
    }
}

/// The `port` parameter, or the default where it is not set or is not a
/// port number.
pub open spec fn port_param(params: Map<Seq<char>, Seq<char>>, default: u16) -> u16 {
    if params.contains_key("port"@) {
        match decimal_value(encode_utf8(params["port"@]), 0xFFFF) {
            Some(port) => port as u16,
            None => default,
        }
    } else {
        default
    }
}

/// The parameters that the query of a request target sets.
pub open spec fn target_params(target: Seq<char>) -> Map<Seq<char>, Seq<char>> {
    match query_part(encode_utf8(target)) {
        Some(query) => query_map(query),
        None => Map::empty(),
    }
}

fn lookup_text(params: &StringHashMap<String>, name: &str, default: &str) -> (r: String)
    ensures
        r@ == text_param(params_view(*params), name@, default@),
{
    match params.get(name) {
        Some(value) => value.clone(),
        None => default.to_owned(),
    }
}

fn lookup_port(params: &StringHashMap<String>, default: u16) -> (r: u16)
    ensures
        r == port_param(params_view(*params), default),
{
    match params.get("port") {
        Some(value) => match parse_port(value.as_str()) {
            Some(port) => port,
            None => default,
        },
        None => default,
    }
}

/// What an operation came to, as the router is told.
#[derive(Debug, PartialEq, Eq)]
pub enum GatewayEvent {
    /// The inbound body, read to its end, as text.
    Body(String),
    /// The credential and the model of the process configuration, as they
    /// were found.
    Config { api_key: Option<String>, model: Option<String> },
    /// How the TCP exchange or HTTP call ended: with its text, or with its
    /// error in words.
    Outcome(Result<String, String>),
}

/// What to do next.
#[derive(Debug, PartialEq, Eq)]
pub enum GatewayAction {
    /// Read the inbound body to its end.
    ReadBody,
    /// Look up the credential and the model in the process configuration.
    ReadConfig,
    /// Send a message over TCP and read the reply.
    TcpSend { host: String, port: u16, message: String },
    /// Fetch `/` over a raw socket.
    TcpFetch { host: String, port: u16 },
    /// GET a URL.
    HttpGet { url: String },
    /// POST a JSON body with a bearer credential.
    HttpPostJson { url: String, body: String, api_key: String },
    /// POST a body of the given type. How it ends does not matter.
    HttpPostText { url: String, body: String, content_type: String },
    /// Write this text as the body of the response: the request is served.
    Respond(String),
}

/// An order of the router as a value.
pub enum GatewayActionView {
    ReadBody,
    ReadConfig,
    TcpSend { host: Seq<char>, port: u16, message: Seq<char> },
    TcpFetch { host: Seq<char>, port: u16 },
    HttpGet { url: Seq<char> },
    HttpPostJson { url: Seq<char>, body: Seq<char>, api_key: Seq<char> },
    HttpPostText { url: Seq<char>, body: Seq<char>, content_type: Seq<char> },
    Respond(Seq<char>),
}

impl View for GatewayAction {
    type V = GatewayActionView;

    open spec fn view(&self) -> GatewayActionView {
        match self {
            GatewayAction::ReadBody => GatewayActionView::ReadBody,
            GatewayAction::ReadConfig => GatewayActionView::ReadConfig,
            GatewayAction::TcpSend { host, port, message } => GatewayActionView::TcpSend {
                host: host@,
                port: *port,
                message: message@,
            },
            GatewayAction::TcpFetch { host, port } => GatewayActionView::TcpFetch {
                host: host@,
                port: *port,
            },
            GatewayAction::HttpGet { url } => GatewayActionView::HttpGet { url: url@ },
            GatewayAction::HttpPostJson { url, body, api_key } => GatewayActionView::HttpPostJson {
                url: url@,
                body: body@,
                api_key: api_key@,
            },
            GatewayAction::HttpPostText {
                url,
                body,
                content_type,
            } => GatewayActionView::HttpPostText {
                url: url@,
                body: body@,
                content_type: content_type@,
            },
            GatewayAction::Respond(text) => GatewayActionView::Respond(text@),
        }
    }
}

/// Where the serving of a request stands: what it waits for, and what it
/// has to remember meanwhile.
#[derive(Debug, PartialEq, Eq)]
pub enum Gateway {
    /// A command waits for its body.
    SlackBody,
    /// A command waits for the configuration.
    SlackConfig { text: String, response_url: String },
    /// A command waits for its completion.
    SlackCompletion { text: String, response_url: String },
    /// A command waits for the end of its callback.
    SlackCallback,
    /// A message is on its way.
    TcpSend { host: String, port: u16, message: String },
    /// A raw fetch is on its way.
    TcpFetch { host: String, port: u16 },
    /// A GET is on its way.
    HttpGet { url: String },
    /// The probe waits for the configuration.
    ProbeConfig,
    /// The probe is on its way.
    Probe { model: String, api_key: String },
    /// The response was given.
    Finished,
}

/// The state of the router as a value.
pub enum GatewayView {
    SlackBody,
    SlackConfig { text: Seq<char>, response_url: Seq<char> },
    SlackCompletion { text: Seq<char>, response_url: Seq<char> },
    SlackCallback,
    TcpSend { host: Seq<char>, port: u16, message: Seq<char> },
    TcpFetch { host: Seq<char>, port: u16 },
    HttpGet { url: Seq<char> },
    ProbeConfig,
    Probe { model: Seq<char>, api_key: Seq<char> },
    Finished,
}

impl View for Gateway {
    type V = GatewayView;

    open spec fn view(&self) -> GatewayView {
        match self {
            Gateway::SlackBody => GatewayView::SlackBody,
            Gateway::SlackConfig { text, response_url } => GatewayView::SlackConfig {
                text: text@,
                response_url: response_url@,
            },
            Gateway::SlackCompletion { text, response_url } => GatewayView::SlackCompletion {
                text: text@,
                response_url: response_url@,
            },
            Gateway::SlackCallback => GatewayView::SlackCallback,
            Gateway::TcpSend { host, port, message } => GatewayView::TcpSend {
                host: host@,
                port: *port,
                message: message@,
            },
            Gateway::TcpFetch { host, port } => GatewayView::TcpFetch { host: host@, port: *port },
            Gateway::HttpGet { url } => GatewayView::HttpGet { url: url@ },
            Gateway::ProbeConfig => GatewayView::ProbeConfig,
            Gateway::Probe { model, api_key } => GatewayView::Probe {
                model: model@,
                api_key: api_key@,
            },
            Gateway::Finished => GatewayView::Finished,
        }
    }
}

/// A host and a port, as they are written together.
pub open spec fn host_port(host: Seq<char>, port: u16) -> Seq<char> {
    host + ":"@ + decimal_text(port as nat)
}

/// The response to a message that was sent, or could not be.
pub open spec fn send_report(
    host: Seq<char>,
    port: u16,
    message: Seq<char>,
    outcome: Result<Seq<char>, Seq<char>>,
) -> Seq<char> {
    match outcome {
        Ok(reply) => "✅ Sent to "@ + host_port(host, port) + "\n\n> "@ + message + "\n\n< "@
            + reply + "\n"@,
        Err(reason) => "⚠️  Send failed: "@ + reason + "\nTarget: "@ + host_port(host, port)
            + "\n"@,
    }
}

/// The response to a raw fetch.
pub open spec fn fetch_report(host: Seq<char>, port: u16, outcome: Result<Seq<char>, Seq<char>>)
    -> Seq<char> {
    match outcome {
        Ok(body) => "✅ TCP fetch successful!\n\nTarget: "@ + host_port(host, port) + "\n\n"@
            + body + "\n"@,
        Err(reason) => "⚠️  TCP fetch failed: "@ + reason
            + "\n\n🔧 This is expected in some environments.\n📡 Server is running.\n\nTry: /?host=127.0.0.1&port=8082 after starting a local server.\n"@,
    }
}

/// The response to a GET.
pub open spec fn get_report(url: Seq<char>, outcome: Result<Seq<char>, Seq<char>>) -> Seq<char> {
    match outcome {
        Ok(text) => "GET "@ + url + "\n\n"@ + text,
        Err(reason) => "GET "@ + url + " failed: "@ + reason,
    }
}

/// The last position at or before `k` at which `bytes` can be cut without
/// cutting a character.
pub open spec fn boundary_before(bytes: Seq<u8>, k: int) -> int
    decreases k,
{
    if k <= 0 {
        0
    } else if is_char_boundary(bytes, k) {
        k
    } else {
        boundary_before(bytes, k - 1)
    }
}

/// What is shown of a credential: all of it if it has at most ten bytes,
/// else the characters that lie within its first ten bytes.
pub open spec fn key_excerpt(key: Seq<char>) -> Seq<char> {
    let bytes = encode_utf8(key);
    if bytes.len() > 10 {
        decode_utf8(bytes.subrange(0, boundary_before(bytes, 10)))
    } else {
        key
    }
}

/// The response to the probe.
pub open spec fn probe_report(
    model: Seq<char>,
    api_key: Seq<char>,
    outcome: Result<Seq<char>, Seq<char>>,
) -> Seq<char> {
    match outcome {
        Ok(body) => "OpenAI API Test Success:\nModel: "@ + model + "\nAPI Key: "@ + key_excerpt(
            api_key,
        ) + "...\nResponse: "@ + body,
        Err(reason) => "OpenAI API Test Failed:\nModel: "@ + model + "\nAPI Key: "@
            + key_excerpt(api_key) + "...\nError: "@ + reason,
    }
}

impl GatewayView {
    /// Ends with a response.
    pub open spec fn respond(text: Seq<char>) -> (GatewayView, GatewayActionView) {
        (GatewayView::Finished, GatewayActionView::Respond(text))
    }

    /// The router before its first event, and the first thing to do.
    pub open spec fn begin(target: Seq<char>) -> (GatewayView, GatewayActionView) {
        let params = target_params(target);
        match route_of(path_part(encode_utf8(target))) {
            Route::Health => Self::respond("ok"@),
            Route::SlackCommand => (GatewayView::SlackBody, GatewayActionView::ReadBody),
            Route::TcpSend => {
                let host = text_param(params, "host"@, "127.0.0.1"@);
                let port = port_param(params, 9090);
                let message = text_param(params, "msg"@, "hello from wasi"@);
                (
                    GatewayView::TcpSend { host, port, message },
                    GatewayActionView::TcpSend { host, port, message },
                )
            },
            Route::DebugHttpGet => {
                let url = text_param(params, "url"@, "https://httpbin.org/get"@);
                (GatewayView::HttpGet { url }, GatewayActionView::HttpGet { url })
            },
            Route::DebugOpenai => (GatewayView::ProbeConfig, GatewayActionView::ReadConfig),
            Route::TcpFetch => {
                let host = text_param(params, "host"@, "example.com"@);
                let port = port_param(params, 80);
                (GatewayView::TcpFetch { host, port }, GatewayActionView::TcpFetch { host, port })
            },
        }
    }

    /// Goes on once the reply to a command is settled: the reply is posted
    /// to the callback if there is one, and the command is acknowledged if
    /// there is none.
    pub open spec fn replied(reply: Seq<char>, response_url: Seq<char>) -> (
        GatewayView,
        GatewayActionView,
    ) {
        if response_url.len() > 0 {
            (
                GatewayView::SlackCallback,
                GatewayActionView::HttpPostText {
                    url: response_url,
                    body: json_object_text(envelope_members(reply)),
                    content_type: "application/json"@,
                },
            )
        } else {
            Self::respond("ack"@)
        }
    }

    /// The router after an event, and what to do next. An event that does
    /// not answer the last order ends the serving with a response that says
    /// so.
    pub open spec fn step(self, event: GatewayEvent) -> (GatewayView, GatewayActionView) {
        match (self, event) {
            (GatewayView::SlackBody, GatewayEvent::Body(body)) => {
                let form = query_map(encode_utf8(body@));
                (
                    GatewayView::SlackConfig {
                        text: text_param(form, "text"@, Seq::empty()),
                        response_url: text_param(form, "response_url"@, Seq::empty()),
                    },
                    GatewayActionView::ReadConfig,
                )
            },
            (
                GatewayView::SlackConfig { text, response_url },
                GatewayEvent::Config { api_key, model },
            ) => match completion_start(text, option_view(api_key), option_view(model)) {
                CompletionStepView::Post { url, body, api_key } => (
                    GatewayView::SlackCompletion { text, response_url },
                    GatewayActionView::HttpPostJson { url, body, api_key },
                ),
                CompletionStepView::Done(outcome) => Self::replied(
                    reply_text(text, outcome),
                    response_url,
                ),
            },
            (
                GatewayView::SlackCompletion { text, response_url },
                GatewayEvent::Outcome(posted),
            ) => Self::replied(
                reply_text(text, completion_end(outcome_view(posted))),
                response_url,
            ),
            (GatewayView::SlackCallback, GatewayEvent::Outcome(_)) => Self::respond("ack"@),
            (GatewayView::TcpSend { host, port, message }, GatewayEvent::Outcome(outcome)) => {
                Self::respond(send_report(host, port, message, outcome_view(outcome)))
            },
            (GatewayView::TcpFetch { host, port }, GatewayEvent::Outcome(outcome)) => {
                Self::respond(fetch_report(host, port, outcome_view(outcome)))
            },
            (GatewayView::HttpGet { url }, GatewayEvent::Outcome(outcome)) => Self::respond(
                get_report(url, outcome_view(outcome)),
            ),
            (GatewayView::ProbeConfig, GatewayEvent::Config { api_key, model }) => {
                let key = match configured_value(option_view(api_key)) {
                    Some(key) => key,
                    None => "MISSING"@,
                };
                let model = model_or_default(option_view(model));
                (
                    GatewayView::Probe { model, api_key: key },
                    GatewayActionView::HttpPostJson {
                        url: endpoint(),
                        body: probe_request(model),
                        api_key: key,
                    },
                )
            },
            (GatewayView::Probe { model, api_key }, GatewayEvent::Outcome(outcome)) => {
                Self::respond(probe_report(model, api_key, outcome_view(outcome)))
            },
            _ => Self::respond("unexpected event"@),
        }
    }
}

fn write_host_port(text: &mut String, host: &str, port: u16)
    ensures
        final(text)@ == old(text)@ + host_port(host@, port),
{
    let number = decimal(port as u64);
    text.append(host);
    text.append(":");
    text.append(number.as_str());
    assert(final(text)@ =~= old(text)@ + host_port(host@, port));
}

fn report_send(host: &str, port: u16, message: &str, outcome: Result<String, String>) -> (r:
    String)
    ensures
        r@ == send_report(host@, port, message@, outcome_view(outcome)),
{
    match outcome {
        Ok(reply) => {
            let mut text = "✅ Sent to ".to_owned();
            write_host_port(&mut text, host, port);
            text.append("\n\n> ");
            text.append(message);
            text.append("\n\n< ");
            text.append(reply.as_str());
            text.append("\n");
            text
        },
        Err(reason) => {
            let mut text = "⚠️  Send failed: ".to_owned();
            text.append(reason.as_str());
            text.append("\nTarget: ");
            write_host_port(&mut text, host, port);
            text.append("\n");
            text
        },
    }
}

fn report_fetch(host: &str, port: u16, outcome: Result<String, String>) -> (r: String)
    ensures
        r@ == fetch_report(host@, port, outcome_view(outcome)),
{
    match outcome {
        Ok(body) => {
            let mut text = "✅ TCP fetch successful!\n\nTarget: ".to_owned();
            write_host_port(&mut text, host, port);
            text.append("\n\n");
            text.append(body.as_str());
            text.append("\n");
            text
        },
        Err(reason) => {
            let mut text = "⚠️  TCP fetch failed: ".to_owned();
            text.append(reason.as_str());
            text.append(
                "\n\n🔧 This is expected in some environments.\n📡 Server is running.\n\nTry: /?host=127.0.0.1&port=8082 after starting a local server.\n",
            );
            text
        },
    }
}

fn report_get(url: &str, outcome: Result<String, String>) -> (r: String)
    ensures
        r@ == get_report(url@, outcome_view(outcome)),
{
    match outcome {
        Ok(body) => {
            let mut text = "GET ".to_owned();
            text.append(url);
            text.append("\n\n");
            text.append(body.as_str());
            text
        },
        Err(reason) => {
            let mut text = "GET ".to_owned();
            text.append(url);
            text.append(" failed: ");
            text.append(reason.as_str());
            text
        },
    }
}

/// Cuts out what is shown of a credential.
pub fn excerpt(key: &str) -> (r: String)
    ensures
        r@ == key_excerpt(key@),
{
    let n = key.as_bytes().len();
    if n > 10 {
        let mut k: usize = 10;
        proof {
            encode_utf8_valid_utf8(key@);
        }
        while !key.is_char_boundary(k)
            invariant
                k <= 10 < n,
                n == encode_utf8(key@).len(),
                vstd::utf8::valid_utf8(encode_utf8(key@)),
                boundary_before(encode_utf8(key@), 10) == boundary_before(
                    encode_utf8(key@),
                    k as int,
                ),
            decreases k,
        {
            k -= 1;
        }
        let (head, _rest) = key.split_at(k);
        proof {
            encode_utf8_decode_utf8(head@);
        }
        head.to_owned()
    } else {
        key.to_owned()
    }
}

fn report_probe(model: &str, api_key: &str, outcome: Result<String, String>) -> (r: String)
    ensures
        r@ == probe_report(model@, api_key@, outcome_view(outcome)),
{
    let shown = excerpt(api_key);
    match outcome {
        Ok(body) => {
            let mut text = "OpenAI API Test Success:\nModel: ".to_owned();
            text.append(model);
            text.append("\nAPI Key: ");
            text.append(shown.as_str());
            text.append("...\nResponse: ");
            text.append(body.as_str());
            text
        },
        Err(reason) => {
            let mut text = "OpenAI API Test Failed:\nModel: ".to_owned();
            text.append(model);
            text.append("\nAPI Key: ");
            text.append(shown.as_str());
            text.append("...\nError: ");
            text.append(reason.as_str());
            text
        },
    }
}

fn respond(text: String) -> (r: (Gateway, GatewayAction))
    ensures
        (r.0@, r.1@) == GatewayView::respond(text@),
{
    (Gateway::Finished, GatewayAction::Respond(text))
}

fn replied(reply: String, response_url: String) -> (r: (Gateway, GatewayAction))
    ensures
        (r.0@, r.1@) == GatewayView::replied(reply@, response_url@),
{
    if !response_url.as_str().is_empty() {
        let body = slack_envelope(reply.as_str());
        (
            Gateway::SlackCallback,
            GatewayAction::HttpPostText {
                url: response_url,
                body,
                content_type: "application/json".to_owned(),
            },
        )
    } else {
        respond("ack".to_owned())
    }
}

/// Begins to serve a request, given its target: the path, and the query if
/// there is one.
pub fn handle(target: &str) -> (r: (Gateway, GatewayAction))
    ensures
        (r.0@, r.1@) == GatewayView::begin(target@),
{
    let (path, query) = split_path_and_query(target);
    let params = match query {
        Some(query) => parse_query_params(query),
        None => StringHashMap::new(),
    };
    assert(params_view(params) =~= target_params(target@));
    match route(path.as_str()) {
        Route::Health => respond("ok".to_owned()),
        Route::SlackCommand => (Gateway::SlackBody, GatewayAction::ReadBody),
        Route::TcpSend => {
            let host = lookup_text(&params, "host", "127.0.0.1");
            let port = lookup_port(&params, 9090);
            let message = lookup_text(&params, "msg", "hello from wasi");
            (
                Gateway::TcpSend { host: host.clone(), port, message: message.clone() },
                GatewayAction::TcpSend { host, port, message },
            )
        },
        Route::DebugHttpGet => {
            let url = lookup_text(&params, "url", "https://httpbin.org/get");
            (Gateway::HttpGet { url: url.clone() }, GatewayAction::HttpGet { url })
        },
        Route::DebugOpenai => (Gateway::ProbeConfig, GatewayAction::ReadConfig),
        Route::TcpFetch => {
            let host = lookup_text(&params, "host", "example.com");
            let port = lookup_port(&params, 80);
            (Gateway::TcpFetch { host: host.clone(), port }, GatewayAction::TcpFetch { host, port })
        },
    }
}

impl Gateway {
    /// Takes what the last operation came to and says what to do next.
    pub fn advance(self, event: GatewayEvent) -> (r: (Gateway, GatewayAction))
        ensures
            (r.0@, r.1@) == self@.step(event),
    {
        match (self, event) {
            (Gateway::SlackBody, GatewayEvent::Body(body)) => {
                let form = parse_query_params(body);
                proof {
                    reveal_strlit("");
                    assert(""@ =~= Seq::<char>::empty());
                }
                let text = lookup_text(&form, "text", "");
                let response_url = lookup_text(&form, "response_url", "");
                (Gateway::SlackConfig { text, response_url }, GatewayAction::ReadConfig)
            },
            (Gateway::SlackConfig { text, response_url }, GatewayEvent::Config { api_key, model }) => {
                match call_openai(text.as_str(), api_key, model) {
                    CompletionStep::Post { url, body, api_key } => (
                        Gateway::SlackCompletion { text, response_url },
                        GatewayAction::HttpPostJson { url, body, api_key },
                    ),
                    CompletionStep::Done(outcome) => {
                        let reply = reply_or_echo(text.as_str(), outcome);
                        replied(reply, response_url)
                    },
                }
            },
            (Gateway::SlackCompletion { text, response_url }, GatewayEvent::Outcome(posted)) => {
                let completion = finish_completion(posted);
                let reply = reply_or_echo(text.as_str(), completion);
                replied(reply, response_url)
            },
            (Gateway::SlackCallback, GatewayEvent::Outcome(_)) => respond("ack".to_owned()),
            (Gateway::TcpSend { host, port, message }, GatewayEvent::Outcome(outcome)) => respond(
                report_send(host.as_str(), port, message.as_str(), outcome),
            ),
            (Gateway::TcpFetch { host, port }, GatewayEvent::Outcome(outcome)) => respond(
                report_fetch(host.as_str(), port, outcome),
            ),
            (Gateway::HttpGet { url }, GatewayEvent::Outcome(outcome)) => respond(
                report_get(url.as_str(), outcome),
            ),
            (Gateway::ProbeConfig, GatewayEvent::Config { api_key, model }) => {
                let key = match configured(api_key) {
                    Some(key) => key,
                    None => "MISSING".to_owned(),
                };
                let model = choose_model(model);
                let body = probe_payload(model.as_str());
                (
                    Gateway::Probe { model, api_key: key.clone() },
                    GatewayAction::HttpPostJson {
                        url: "https://api.openai.com/v1/chat/completions".to_owned(),
                        body,
                        api_key: key,
                    },
                )
            },
            (Gateway::Probe { model, api_key }, GatewayEvent::Outcome(outcome)) => respond(
                report_probe(model.as_str(), api_key.as_str(), outcome),
            ),
            _ => respond("unexpected event".to_owned()),
        }
    }

    /// Whether the response was given.
    pub fn is_finished(&self) -> (r: bool)
        ensures
            r == (self@ == GatewayView::Finished),
    {
        match self {
            Gateway::Finished => true,
            _ => false,
        }
    }
}

/// A request whose path begins with `/health` is answered with `ok` at
/// once, whatever else the target holds.
pub proof fn lemma_health_is_ok(target: Seq<char>)
    requires
        has_prefix(path_part(encode_utf8(target)), encode_utf8("/health"@)),
    ensures
        GatewayView::begin(target) == GatewayView::respond("ok"@),
{
}

/// `/health` is answered with `ok` whatever its query says.
pub proof fn lemma_health_ignores_the_query(query: Seq<char>)
    ensures
        GatewayView::begin("/health"@) == GatewayView::respond("ok"@),
        GatewayView::begin("/health"@ + seq!['?'] + query) == GatewayView::respond("ok"@),
{
    let path = "/health"@;
    reveal_strlit("/health");
    lemma_ascii_bytes(path);
    let bytes = encode_utf8(path);
    assert(bytes == ascii_bytes(path));
    assert(bytes.len() == 7);
    assert forall|j: int| 0 <= j < bytes.len() implies bytes[j] != QUESTION by {
        assert(bytes[j] == path[j] as u8);
    }
    lemma_first_index_is(bytes, QUESTION, 7);
    assert(bytes.subrange(0, 7) == bytes);
    lemma_health_is_ok(path);
    let mark = seq!['?'];
    lemma_ascii_bytes(mark);
    assert(ascii_bytes(mark) == seq![QUESTION]);
    lemma_encode_concat(path, mark);
    lemma_encode_concat(path + mark, query);
    let whole = encode_utf8(path + mark + query);
    assert(whole == bytes + seq![QUESTION] + encode_utf8(query));
    lemma_first_index_is(whole, QUESTION, 7);
    assert(whole.subrange(0, 7) == bytes);
    lemma_health_is_ok(path + mark + query);
}

/// A `port` parameter that is no numeral for at most 65535 leaves the
/// default port in place.
pub proof fn lemma_bad_port_keeps_the_default(params: Map<Seq<char>, Seq<char>>, default: u16)
    requires
        params.contains_key("port"@) ==> decimal_value(encode_utf8(params["port"@]), 0xFFFF)
            is None,
    ensures
        port_param(params, default) == default,
{
}

/// A command without a callback address is acknowledged without a POST,
/// however its completion ended.
pub proof fn lemma_no_callback_without_address(
    text: Seq<char>,
    posted: Result<String, String>,
    api_key: Option<String>,
    model: Option<String>,
)
    ensures
        (GatewayView::SlackCompletion { text, response_url: Seq::empty() }).step(
            GatewayEvent::Outcome(posted),
        ) == GatewayView::respond("ack"@),
        configured_value(option_view(api_key)) is None ==> (GatewayView::SlackConfig {
            text,
            response_url: Seq::empty(),
        }).step(GatewayEvent::Config { api_key, model }) == GatewayView::respond("ack"@),
{
}

/// A command is acknowledged however its callback ended.
pub proof fn lemma_callback_outcome_is_ignored(outcome: Result<String, String>)
    ensures
        GatewayView::SlackCallback.step(GatewayEvent::Outcome(outcome)) == GatewayView::respond(
            "ack"@,
        ),
{
}

/// The router always responds, and after four operations at the latest:
/// whatever the operations come to, one of the first five orders is the
/// response, and with it the serving is over.
pub proof fn lemma_every_request_is_answered(
    target: Seq<char>,
    first: GatewayEvent,
    second: GatewayEvent,
    third: GatewayEvent,
    fourth: GatewayEvent,
)
    ensures
        ({
            let s0 = GatewayView::begin(target);
            let s1 = s0.0.step(first);
            let s2 = s1.0.step(second);
            let s3 = s2.0.step(third);
            let s4 = s3.0.step(fourth);
            s0.1 is Respond || s1.1 is Respond || s2.1 is Respond || s3.1 is Respond
                || s4.1 is Respond
        }),
{
}

/// The serving is over exactly when the response is given.
pub proof fn lemma_the_response_ends_the_serving(state: GatewayView, event: GatewayEvent)
    ensures
        state.step(event).1 is Respond <==> state.step(event).0 == GatewayView::Finished,
{
}

} // verus!
