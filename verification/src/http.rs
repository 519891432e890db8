//! The HTTP client: one request to a third-party origin, one answer.
//!
//! A call is a state machine. It is created from a URL and says what request
//! to send; the request is handed to the host, which is waited on once. If
//! the host has no answer after that one wait the call has timed out: it is
//! not tried again. An answer's body is drained, and the call ends with the
//! body of a 2xx answer or with the status and body of any other.

use crate::ascii::SLASH;
use crate::stream::{
    ends_drain, gathered, lemma_drain_goes_on, ReadOutcome, ReadPolicy, ReadRequest, Reader,
    ReaderView,
};
use crate::text::lossy_utf8;
use crate::bytes::{find_byte, first_index, lemma_first_index, strip_prefix};
use crate::text::{
    after_prefix, decimal, decimal_text, join2, join3, lemma_ascii_is_boundary, outcome_view,
};
use vstd::prelude::*;
use vstd::string::StringExecFns;
use vstd::utf8::{
    decode_utf8, encode_utf8, encode_utf8_decode_utf8, encode_utf8_valid_utf8, is_ascii_chars,
};

verus! {

/// The scheme of a URL.
#[derive(Clone, Copy, Debug, PartialEq, Eq, Structural)]
pub enum Scheme {
    Http,
    Https,
}

/// The method of a request.
#[derive(Clone, Copy, Debug, PartialEq, Eq, Structural)]
pub enum Method {
    Get,
    Post,
}

/// A URL, cut into the parts that a request is made of.
#[derive(Debug, PartialEq, Eq)]
pub struct Url {
    pub scheme: Scheme,
    pub authority: String,
    pub path: String,
}

/// A URL as a value.
pub struct UrlView {
    pub scheme: Scheme,
    pub authority: Seq<char>,
    pub path: Seq<char>,
}

impl View for Url {
    type V = UrlView;

    open spec fn view(&self) -> UrlView {
        UrlView { scheme: self.scheme, authority: self.authority@, path: self.path@ }
    }
}

/// The parts of what follows the scheme: the authority is what stands
/// before the first `/`; the path begins at that `/` and is `/` if there is
/// none.
pub open spec fn located(scheme: Scheme, rest: Seq<u8>) -> UrlView {
    let i = first_index(rest, SLASH);
    UrlView {
        scheme,
        authority: decode_utf8(rest.subrange(0, i)),
        path: if i < rest.len() {
            decode_utf8(rest.subrange(i, rest.len() as int))
        } else {
            "/"@
        },
    }
}

/// The parts of a URL, if it begins with `https://` or `http://`.
pub open spec fn url_of(url: Seq<char>) -> Option<UrlView> {
    let bytes = encode_utf8(url);
    let secure = strip_prefix(bytes, encode_utf8("https://"@));
    let plain = strip_prefix(bytes, encode_utf8("http://"@));
    if secure is Some {
        Some(located(Scheme::Https, secure->0))
    } else if plain is Some {
        Some(located(Scheme::Http, plain->0))
    } else {
        None
    }
}

/// The literals that open a URL are ASCII.
proof fn lemma_scheme_literals()
    ensures
        is_ascii_chars("https://"@),
        is_ascii_chars("http://"@),
{
    reveal_strlit("https://");
    reveal_strlit("http://");
}

fn locate(scheme: Scheme, rest: &str) -> (url: Url)
    ensures
        url@ == located(scheme, encode_utf8(rest@)),
{
    let bytes = rest.as_bytes();
    let at = find_byte(bytes, 0, SLASH);
    proof {
        assert(bytes@.subrange(0, bytes@.len() as int) == bytes@);
        lemma_first_index(bytes@, SLASH);
    }
    if at < bytes.len() {
        proof {
            encode_utf8_valid_utf8(rest@);
            lemma_ascii_is_boundary(bytes@, at as int);
        }
        let (authority, path) = rest.split_at(at);
        proof {
            encode_utf8_decode_utf8(authority@);
            encode_utf8_decode_utf8(path@);
        }
        Url { scheme, authority: authority.to_owned(), path: path.to_owned() }
    } else {
        proof {
            encode_utf8_decode_utf8(rest@);
        }
        Url { scheme, authority: rest.to_owned(), path: "/".to_owned() }
    }
}

/// Why a call gave no body.
#[derive(Debug, PartialEq, Eq)]
pub enum HttpError {
    /// The URL begins with neither `http://` nor `https://`.
    UnsupportedScheme,
    /// The host had no answer after the one wait.
    ResponseTimeout,
    /// The request could not be handed over, or the transport failed.
    TransportError(String),
    /// There was an answer, but its body could not be opened.
    BodyUnavailable(String),
    /// The origin answered with a status outside 200 to 299; its body is
    /// kept.
    HttpStatusError(u16, String),
}

/// An error of a call as a value.
pub enum HttpErrorView {
    UnsupportedScheme,
    ResponseTimeout,
    TransportError(Seq<char>),
    BodyUnavailable(Seq<char>),
    HttpStatusError(u16, Seq<char>),
}

impl View for HttpError {
    type V = HttpErrorView;

    open spec fn view(&self) -> HttpErrorView {
        match self {
            HttpError::UnsupportedScheme => HttpErrorView::UnsupportedScheme,
            HttpError::ResponseTimeout => HttpErrorView::ResponseTimeout,
            HttpError::TransportError(reason) => HttpErrorView::TransportError(reason@),
            HttpError::BodyUnavailable(reason) => HttpErrorView::BodyUnavailable(reason@),
            HttpError::HttpStatusError(status, body) => HttpErrorView::HttpStatusError(
                *status,
                body@,
            ),
        }
    }
}

/// Reads a URL.
pub fn parse_url(url: &str) -> (r: Result<Url, HttpError>)
    ensures
        match r {
            Ok(parts) => url_of(url@) == Some(parts@),
            Err(error) => url_of(url@) is None && error@ == HttpErrorView::UnsupportedScheme,
        },
{
    proof {
        lemma_scheme_literals();
    }
    match after_prefix(url, "https://") {
        Some(rest) => Ok(locate(Scheme::Https, rest)),
        None => match after_prefix(url, "http://") {
            Some(rest) => Ok(locate(Scheme::Http, rest)),
            None => Err(HttpError::UnsupportedScheme),
        },
    }
}

/// The three calls that the gateway makes.
#[derive(Clone, Copy, Debug, PartialEq, Eq, Structural)]
pub enum HttpFlavor {
    /// GET a text.
    GetText,
    /// POST a JSON body with a bearer credential and read the answer.
    PostJson,
    /// POST a body of a given type and read the answer.
    PostText,
}

/// A request to send.
#[derive(Debug, PartialEq, Eq)]
pub struct HttpRequest {
    pub method: Method,
    pub scheme: Scheme,
    pub authority: String,
    pub path: String,
    /// Header names and values, in the order in which they are set.
    pub headers: Vec<(String, String)>,
    /// The body, written in one call and then finished; `None` sends none.
    pub body: Option<String>,
}

/// A request as a value.
pub struct HttpRequestView {
    pub method: Method,
    pub scheme: Scheme,
    pub authority: Seq<char>,
    pub path: Seq<char>,
    pub headers: Seq<(Seq<char>, Seq<char>)>,
    pub body: Option<Seq<char>>,
}

impl View for HttpRequest {
    type V = HttpRequestView;

    open spec fn view(&self) -> HttpRequestView {
        HttpRequestView {
            method: self.method,
            scheme: self.scheme,
            authority: self.authority@,
            path: self.path@,
            headers: self.headers@.map_values(|h: (String, String)| (h.0@, h.1@)),
            body: match self.body {
                Some(body) => Some(body@),
                None => None,
            },
        }
    }
}

/// The request of a GET: no headers, no body.
pub open spec fn get_request(url: UrlView) -> HttpRequestView {
    HttpRequestView {
        method: Method::Get,
        scheme: url.scheme,
        authority: url.authority,
        path: url.path,
        headers: Seq::empty(),
        body: None,
    }
}

/// The length header of a body: the number of its bytes, in decimal.
pub open spec fn content_length(body: Seq<char>) -> (Seq<char>, Seq<char>) {
    ("content-length"@, decimal_text(encode_utf8(body).len()))
}

/// The request of a POST of JSON: its type, the bearer credential and its
/// length, in this order.
pub open spec fn post_json_request(url: UrlView, body: Seq<char>, api_key: Seq<char>)
    -> HttpRequestView {
    HttpRequestView {
        method: Method::Post,
        scheme: url.scheme,
        authority: url.authority,
        path: url.path,
        headers: seq![
            ("content-type"@, "application/json"@),
            ("authorization"@, "Bearer "@ + api_key),
            content_length(body),
        ],
        body: Some(body),
    }
}

/// The request of a POST of a body of the given type: its type and its
/// length, in this order.
pub open spec fn post_text_request(url: UrlView, body: Seq<char>, content_type: Seq<char>)
    -> HttpRequestView {
    HttpRequestView {
        method: Method::Post,
        scheme: url.scheme,
        authority: url.authority,
        path: url.path,
        headers: seq![("content-type"@, content_type), content_length(body)],
        body: Some(body),
    }
}

fn length_header(body: &str) -> (r: (String, String))
    ensures
        (r.0@, r.1@) == content_length(body@),
{
    let n = body.as_bytes().len();
    ("content-length".to_owned(), decimal(n as u64))
}

/// How far a call has come.
#[derive(Clone, Copy, Debug, PartialEq, Eq, Structural)]
pub enum HttpPhase {
    Sending,
    Draining,
    Finished,
}

/// Whether the body of an answer could be opened.
#[derive(Clone, Copy, Debug, PartialEq, Eq, Structural)]
pub enum BodyAccess {
    /// The body's stream is open.
    Stream,
    /// The body was taken, but it gave no stream.
    NoStream,
    /// The body could not be taken.
    NotConsumable,
}

/// What the host answered to the last order. Error codes are given as the
/// host names them.
#[derive(Debug, PartialEq, Eq)]
pub enum HttpEvent {
    /// The host did not take the request.
    DispatchFailed(String),
    /// After the one wait the host has no answer.
    NoAnswer,
    /// The host's answer cannot be had: it was taken before.
    AnswerGone(String),
    /// The transport failed.
    TransportFailed(String),
    /// The origin answered.
    Response { status: u16, body: BodyAccess },
    /// The read that was asked for was made.
    Read(ReadOutcome),
}

/// What to do next.
#[derive(Debug, PartialEq, Eq)]
pub enum HttpAction {
    /// Build this request, write and finish its body, hand it to the host,
    /// wait once on the answer's readiness token, and ask for the answer.
    Send(HttpRequest),
    /// Make this read on the body's stream.
    Read(ReadRequest),
    /// Close what was opened: the call is over.
    Finish(Result<String, HttpError>),
}

/// An order as a value.
pub enum HttpActionView {
    Send(HttpRequestView),
    Read(ReadRequest),
    Finish(Result<Seq<char>, HttpErrorView>),
}

impl View for HttpAction {
    type V = HttpActionView;

    open spec fn view(&self) -> HttpActionView {
        match self {
            HttpAction::Send(request) => HttpActionView::Send(request@),
            HttpAction::Read(request) => HttpActionView::Read(*request),
            HttpAction::Finish(Ok(text)) => HttpActionView::Finish(Ok(text@)),
            HttpAction::Finish(Err(error)) => HttpActionView::Finish(Err(error@)),
        }
    }
}

/// The state of a call.
pub struct HttpCall {
    flavor: HttpFlavor,
    phase: HttpPhase,
    status: u16,
    reader: Reader,
}

/// A call as a value.
pub struct HttpCallView {
    pub flavor: HttpFlavor,
    pub phase: HttpPhase,
    pub status: u16,
    pub reader: ReaderView,
}

/// Whether a status says that the request succeeded.
pub open spec fn is_success(status: u16) -> bool {
    200 <= status < 300
}

/// How an answer is judged: the body of a success, the status and body of
/// anything else.
pub open spec fn classify(status: u16, body: Seq<char>) -> Result<Seq<char>, HttpErrorView> {
    if is_success(status) {
        Ok(body)
    } else {
        Err(HttpErrorView::HttpStatusError(status, body))
    }
}

/// Judges an answer by its status.
pub fn classify_response(status: u16, body: String) -> (r: Result<String, HttpError>)
    ensures
        match r {
            Ok(text) => classify(status, body@) == Ok::<Seq<char>, HttpErrorView>(text@),
            Err(error) => classify(status, body@) == Err::<Seq<char>, HttpErrorView>(error@),
        },
{
    if status >= 200 && status < 300 {
        Ok(body)
    } else {
        Err(HttpError::HttpStatusError(status, body))
    }
}

impl HttpCallView {
    /// The read policy of a call: a POST of JSON waits for readiness before
    /// each read of the answer.
    pub open spec fn policy(flavor: HttpFlavor) -> ReadPolicy {
        match flavor {
            HttpFlavor::PostJson => ReadPolicy::DrainAwaited,
            _ => ReadPolicy::Drain,
        }
    }

    /// A call before anything was sent.
    pub open spec fn fresh(flavor: HttpFlavor) -> HttpCallView {
        HttpCallView {
            flavor,
            phase: HttpPhase::Sending,
            status: 0,
            reader: ReaderView::start(Self::policy(flavor)),
        }
    }

    /// The call before its first step, and the first thing to do: send the
    /// request, or end at once where the URL gave none.
    pub open spec fn begin(flavor: HttpFlavor, request: Option<HttpRequestView>) -> (
        HttpCallView,
        HttpActionView,
    ) {
        match request {
            Some(request) => (Self::fresh(flavor), HttpActionView::Send(request)),
            None => Self::fresh(flavor).fail(HttpErrorView::UnsupportedScheme),
        }
    }

    /// Ends with an error.
    pub open spec fn fail(self, error: HttpErrorView) -> (HttpCallView, HttpActionView) {
        (HttpCallView { phase: HttpPhase::Finished, ..self }, HttpActionView::Finish(Err(error)))
    }

    /// Asks for the next read, or judges the answer when its body is
    /// drained.
    pub open spec fn read_on(self) -> (HttpCallView, HttpActionView) {
        match self.reader.request() {
            Some(request) => (
                HttpCallView { phase: HttpPhase::Draining, ..self },
                HttpActionView::Read(request),
            ),
            None => (
                HttpCallView { phase: HttpPhase::Finished, ..self },
                HttpActionView::Finish(classify(self.status, self.reader.text())),
            ),
        }
    }

    /// Why the body of an answer is not there.
    pub open spec fn body_missing(self, access: BodyAccess) -> Seq<char> {
        match (self.flavor, access) {
            (HttpFlavor::GetText, BodyAccess::NoStream) => "no body stream"@,
            (HttpFlavor::GetText, _) => "consume body failed"@,
            _ => "failed to read response body"@,
        }
    }

    /// The call after the host's word on the request.
    pub open spec fn answered(self, event: HttpEvent) -> (HttpCallView, HttpActionView) {
        match event {
            HttpEvent::DispatchFailed(code) => self.fail(
                HttpErrorView::TransportError("http handle: "@ + code@),
            ),
            HttpEvent::NoAnswer => self.fail(HttpErrorView::ResponseTimeout),
            HttpEvent::AnswerGone(code) => self.fail(
                HttpErrorView::TransportError(
                    if self.flavor == HttpFlavor::PostText {
                        "await resp: "@ + code@
                    } else {
                        "http response error: "@ + code@
                    },
                ),
            ),
            HttpEvent::TransportFailed(code) => self.fail(
                HttpErrorView::TransportError("response error: "@ + code@),
            ),
            HttpEvent::Response { status, body } => if body == BodyAccess::Stream {
                (HttpCallView { status, ..self }).read_on()
            } else {
                self.fail(HttpErrorView::BodyUnavailable(self.body_missing(body)))
            },
            HttpEvent::Read(_) => self.fail(HttpErrorView::TransportError("unexpected event"@)),
        }
    }

    /// The call after an event, and what to do next. An event that does not
    /// answer the last order ends the call with an error.
    pub open spec fn step(self, event: HttpEvent) -> (HttpCallView, HttpActionView) {
        match (self.phase, event) {
            (HttpPhase::Sending, event) => self.answered(event),
            (HttpPhase::Draining, HttpEvent::Read(outcome)) => (HttpCallView {
                reader: self.reader.accept(outcome),
                ..self
            }).read_on(),
            _ => self.fail(HttpErrorView::TransportError("unexpected event"@)),
        }
    }
}

impl HttpErrorView {
    /// The error in words, as the call of the given flavor reports it.
    pub open spec fn message(self, flavor: HttpFlavor) -> Seq<char> {
        match self {
            HttpErrorView::UnsupportedScheme => "unsupported scheme"@,
            HttpErrorView::ResponseTimeout => if flavor == HttpFlavor::PostText {
                "await resp: none"@
            } else {
                "http response timeout"@
            },
            HttpErrorView::TransportError(reason) => reason,
            HttpErrorView::BodyUnavailable(reason) => reason,
            HttpErrorView::HttpStatusError(status, body) => (if flavor == HttpFlavor::PostJson {
                "OpenAI HTTP "@
            } else {
                "HTTP "@
            }) + decimal_text(status as nat) + ": "@ + body,
        }
    }
}

impl HttpError {
    /// The error in words, as the call of the given flavor reports it.
    pub fn message(&self, flavor: HttpFlavor) -> (r: String)
        ensures
            r@ == self@.message(flavor),
    {
        match self {
            HttpError::UnsupportedScheme => "unsupported scheme".to_owned(),
            HttpError::ResponseTimeout => match flavor {
                HttpFlavor::PostText => "await resp: none".to_owned(),
                _ => "http response timeout".to_owned(),
            },
            HttpError::TransportError(reason) => reason.clone(),
            HttpError::BodyUnavailable(reason) => reason.clone(),
            HttpError::HttpStatusError(status, body) => {
                let lead = match flavor {
                    HttpFlavor::PostJson => "OpenAI HTTP ",
                    _ => "HTTP ",
                };
                let number = decimal(*status as u64);
                let mut text = join3(lead, number.as_str(), ": ");
                text.append(body.as_str());
                text
            },
        }
    }
}

impl View for HttpCall {
    type V = HttpCallView;

    closed spec fn view(&self) -> HttpCallView {
        HttpCallView {
            flavor: self.flavor,
            phase: self.phase,
            status: self.status,
            reader: self.reader@,
        }
    }
}

impl HttpCall {
    fn fresh(flavor: HttpFlavor) -> (r: HttpCall)
        ensures
            r@ == HttpCallView::fresh(flavor),
    {
        let policy = match flavor {
            HttpFlavor::PostJson => ReadPolicy::DrainAwaited,
            _ => ReadPolicy::Drain,
        };
        HttpCall { flavor, phase: HttpPhase::Sending, status: 0, reader: Reader::new(policy) }
    }

    fn fail(self, error: HttpError) -> (r: (HttpCall, HttpAction))
        ensures
            (r.0@, r.1@) == self@.fail(error@),
    {
        (HttpCall { phase: HttpPhase::Finished, ..self }, HttpAction::Finish(Err(error)))
    }

    fn read_on(self) -> (r: (HttpCall, HttpAction))
        ensures
            (r.0@, r.1@) == self@.read_on(),
    {
        match self.reader.request() {
            Some(request) => (
                HttpCall { phase: HttpPhase::Draining, ..self },
                HttpAction::Read(request),
            ),
            None => {
                let outcome = classify_response(self.status, self.reader.text());
                (HttpCall { phase: HttpPhase::Finished, ..self }, HttpAction::Finish(outcome))
            },
        }
    }

    fn body_missing(&self, access: BodyAccess) -> (r: String)
        ensures
            r@ == self@.body_missing(access),
    {
        match (self.flavor, access) {
            (HttpFlavor::GetText, BodyAccess::NoStream) => "no body stream".to_owned(),
            (HttpFlavor::GetText, _) => "consume body failed".to_owned(),
            _ => "failed to read response body".to_owned(),
        }
    }

    fn answered(self, event: HttpEvent) -> (r: (HttpCall, HttpAction))
        ensures
            (r.0@, r.1@) == self@.answered(event),
    {
        let posts_text = match self.flavor {
            HttpFlavor::PostText => true,
            _ => false,
        };
        match event {
            HttpEvent::DispatchFailed(code) => {
                let reason = join2("http handle: ", code.as_str());
                self.fail(HttpError::TransportError(reason))
            },
            HttpEvent::NoAnswer => self.fail(HttpError::ResponseTimeout),
            HttpEvent::AnswerGone(code) => {
                let reason = if posts_text {
                    join2("await resp: ", code.as_str())
                } else {
                    join2("http response error: ", code.as_str())
                };
                self.fail(HttpError::TransportError(reason))
            },
            HttpEvent::TransportFailed(code) => {
                let reason = join2("response error: ", code.as_str());
                self.fail(HttpError::TransportError(reason))
            },
            HttpEvent::Response { status, body } => match body {
                BodyAccess::Stream => (HttpCall { status, ..self }).read_on(),
                _ => {
                    let reason = self.body_missing(body);
                    self.fail(HttpError::BodyUnavailable(reason))
                },
            },
            HttpEvent::Read(_) => {
                let reason = "unexpected event".to_owned();
                self.fail(HttpError::TransportError(reason))
            },
        }
    }

    /// Takes what the host answered and says what to do next.
    pub fn advance(self, event: HttpEvent) -> (r: (HttpCall, HttpAction))
        ensures
            (r.0@, r.1@) == self@.step(event),
    {
        match (self.phase, event) {
            (HttpPhase::Sending, event) => self.answered(event),
            (HttpPhase::Draining, HttpEvent::Read(outcome)) => {
                let HttpCall { flavor, phase, status, reader } = self;
                let reader = reader.accept(outcome);
                (HttpCall { flavor, phase, status, reader }).read_on()
            },
            _ => {
                let reason = "unexpected event".to_owned();
                self.fail(HttpError::TransportError(reason))
            },
        }
    }

    /// Which of the three calls this is.
    pub fn flavor(&self) -> (r: HttpFlavor)
        ensures
            r == self@.flavor,
    {
        self.flavor
    }

    /// How far the call has come.
    pub fn phase(&self) -> (r: HttpPhase)
        ensures
            r == self@.phase,
    {
        self.phase
    }
}

/// The request that a GET of `url` sends, if the URL can be read.
pub open spec fn get_request_of(url: Seq<char>) -> Option<HttpRequestView> {
    match url_of(url) {
        Some(parts) => Some(get_request(parts)),
        None => None,
    }
}

/// The request that a POST of JSON to `url` sends, if the URL can be read.
pub open spec fn post_json_request_of(url: Seq<char>, body: Seq<char>, api_key: Seq<char>)
    -> Option<HttpRequestView> {
    match url_of(url) {
        Some(parts) => Some(post_json_request(parts, body, api_key)),
        None => None,
    }
}

/// The request that a POST of a body to `url` sends, if the URL can be read.
pub open spec fn post_text_request_of(url: Seq<char>, body: Seq<char>, content_type: Seq<char>)
    -> Option<HttpRequestView> {
    match url_of(url) {
        Some(parts) => Some(post_text_request(parts, body, content_type)),
        None => None,
    }
}

/// Starts a GET of `url`. A URL with another scheme ends the call at once
/// with `UnsupportedScheme`.
pub fn http_get_text(url: &str) -> (r: (HttpCall, HttpAction))
    ensures
        (r.0@, r.1@) == HttpCallView::begin(HttpFlavor::GetText, get_request_of(url@)),
{
    let call = HttpCall::fresh(HttpFlavor::GetText);
    match parse_url(url) {
        Ok(parts) => {
            let request = HttpRequest {
                method: Method::Get,
                scheme: parts.scheme,
                authority: parts.authority,
                path: parts.path,
                headers: Vec::new(),
                body: None,
            };
            assert(request@.headers =~= Seq::empty());
            (call, HttpAction::Send(request))
        },
        Err(error) => call.fail(error),
    }
}

/// Starts a POST of `json_body` to `url`, with `api_key` as the bearer
/// credential. A URL with another scheme ends the call at once with
/// `UnsupportedScheme`.
pub fn http_post_json(url: &str, json_body: &str, api_key: &str) -> (r: (HttpCall, HttpAction))
    ensures
        (r.0@, r.1@) == HttpCallView::begin(
            HttpFlavor::PostJson,
            post_json_request_of(url@, json_body@, api_key@),
        ),
{
    let call = HttpCall::fresh(HttpFlavor::PostJson);
    match parse_url(url) {
        Ok(parts) => {
            let mut headers: Vec<(String, String)> = Vec::new();
            headers.push(("content-type".to_owned(), "application/json".to_owned()));
            headers.push(("authorization".to_owned(), join2("Bearer ", api_key)));
            headers.push(length_header(json_body));
            let request = HttpRequest {
                method: Method::Post,
                scheme: parts.scheme,
                authority: parts.authority,
                path: parts.path,
                headers,
                body: Some(json_body.to_owned()),
            };
            assert(request@.headers =~= post_json_request(
                parts@,
                json_body@,
                api_key@,
            ).headers);
            (call, HttpAction::Send(request))
        },
        Err(error) => call.fail(error),
    }
}

/// Starts a POST of `body`, of type `content_type`, to `url`. A URL with
/// another scheme ends the call at once with `UnsupportedScheme`.
pub fn http_post_text(url: &str, body: &str, content_type: &str) -> (r: (HttpCall, HttpAction))
    ensures
        (r.0@, r.1@) == HttpCallView::begin(
            HttpFlavor::PostText,
            post_text_request_of(url@, body@, content_type@),
        ),
{
    let call = HttpCall::fresh(HttpFlavor::PostText);
    match parse_url(url) {
        Ok(parts) => {
            let mut headers: Vec<(String, String)> = Vec::new();
            headers.push(("content-type".to_owned(), content_type.to_owned()));
            headers.push(length_header(body));
            let request = HttpRequest {
                method: Method::Post,
                scheme: parts.scheme,
                authority: parts.authority,
                path: parts.path,
                headers,
                body: Some(body.to_owned()),
            };
            assert(request@.headers =~= post_text_request(parts@, body@, content_type@).headers);
            (call, HttpAction::Send(request))
        },
        Err(error) => call.fail(error),
    }
}

/// How a call ended, with its error in words.
pub open spec fn in_words(flavor: HttpFlavor, outcome: Result<Seq<char>, HttpErrorView>) -> Result<
    Seq<char>,
    Seq<char>,
> {
    match outcome {
        Ok(text) => Ok(text),
        Err(error) => Err(error.message(flavor)),
    }
}

/// Puts the error of a call, if it ended with one, in words.
pub fn report(flavor: HttpFlavor, outcome: Result<String, HttpError>) -> (r: Result<
    String,
    String,
>)
    ensures
        outcome_view(r) == in_words(
            flavor,
            match outcome {
                Ok(text) => Ok(text@),
                Err(error) => Err(error@),
            },
        ),
{
    match outcome {
        Ok(text) => Ok(text),
        Err(error) => Err(error.message(flavor)),
    }
}

/// A call sends one request and waits for its answer once: whatever the
/// host answers, it is never asked to send again.
pub proof fn lemma_nothing_is_sent_twice(call: HttpCallView, event: HttpEvent)
    ensures
        !(call.step(event).1 is Send),
        event == HttpEvent::NoAnswer ==> call.step(event).1 is Finish,
{
}

impl HttpCallView {
    /// The call after a run of reads of the answer's body, and the order
    /// that the last of them was answered with.
    pub open spec fn after_reads(self, outcomes: Seq<ReadOutcome>) -> (
        HttpCallView,
        HttpActionView,
    )
        decreases outcomes.len(),
    {
        if outcomes.len() == 0 {
            self.read_on()
        } else {
            self.after_reads(outcomes.drop_last()).0.step(HttpEvent::Read(outcomes.last()))
        }
    }
}

/// While no read ends the body, the call goes on reading and keeps every
/// byte.
proof fn lemma_call_goes_on_reading(
    flavor: HttpFlavor,
    status: u16,
    outcomes: Seq<ReadOutcome>,
)
    requires
        forall|j: int| 0 <= j < outcomes.len() ==> !ends_drain(#[trigger] outcomes[j]),
    ensures
        HttpCallView::fresh(flavor).step(
            HttpEvent::Response { status, body: BodyAccess::Stream },
        ).0.after_reads(outcomes).0 == (HttpCallView {
            status,
            phase: HttpPhase::Draining,
            reader: ReaderView::start(HttpCallView::policy(flavor)).run(outcomes),
            ..HttpCallView::fresh(flavor)
        }),
    decreases outcomes.len(),
{
    if outcomes.len() > 0 {
        let before = outcomes.drop_last();
        assert forall|j: int| 0 <= j < before.len() implies !ends_drain(#[trigger] before[j]) by {
            assert(before[j] == outcomes[j]);
        }
        lemma_call_goes_on_reading(flavor, status, before);
        lemma_drain_goes_on(HttpCallView::policy(flavor), before);
        lemma_drain_goes_on(HttpCallView::policy(flavor), outcomes);
    }
}

/// What a call comes to, once the origin has answered: when the reads of
/// the body come to the first one that gives nothing, finds the stream
/// closed or fails, the call ends, and it ends with the bytes read before
/// that read, as text, judged by the status of the answer. So an answer
/// with a status outside 200 to 299 ends the call with that status and its
/// body, whatever the body holds.
pub proof fn lemma_call_ends_with_status_and_body(
    flavor: HttpFlavor,
    status: u16,
    outcomes: Seq<ReadOutcome>,
)
    requires
        outcomes.len() > 0,
        ends_drain(outcomes.last()),
        forall|j: int| 0 <= j < outcomes.len() - 1 ==> !ends_drain(#[trigger] outcomes[j]),
    ensures
        HttpCallView::fresh(flavor).step(
            HttpEvent::Response { status, body: BodyAccess::Stream },
        ).0.after_reads(outcomes).1 == HttpActionView::Finish(
            classify(status, lossy_utf8(gathered(outcomes.drop_last()))),
        ),
{
    let before = outcomes.drop_last();
    assert forall|j: int| 0 <= j < before.len() implies !ends_drain(#[trigger] before[j]) by {
        assert(before[j] == outcomes[j]);
    }
    lemma_call_goes_on_reading(flavor, status, before);
    lemma_drain_goes_on(HttpCallView::policy(flavor), before);
}

} // verus!
