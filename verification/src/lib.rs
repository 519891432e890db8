//! Decision logic of a network-facing request gateway.
//!
//! The gateway accepts an inbound HTTP request, looks at its path and its
//! query or body, performs outbound network work on the caller's behalf (name
//! resolution, a raw TCP exchange, an HTTP call) and answers with one text
//! body. Every network operation is non-blocking: it is started, and while it
//! reports that it would block, the caller waits on a readiness token and
//! tries again.
//!
//! This crate holds the decisions and none of the I/O. Each operation is a
//! state machine that is handed what the network answered and says what to do
//! next; the embedding program performs the step and reports back.
//!
//! - [`router`] serves one inbound request: it chooses the behaviour by the
//!   path, orders whole operations, and composes the response text.
//! - [`tcp`] and [`http`] are the two outbound operations, [`dns`] and
//!   [`stream`] the steps they share: resolving a name, and reading a stream
//!   to its end in bounded reads.
//! - [`completion`] is the exchange with the AI-completion collaborator.
//! - [`query`], [`addr`], [`text`] and [`bytes`] read and write the small
//!   grammars: query strings, address literals, numerals.
//!
//! Everything is verified but for three things that are taken on trust and
//! marked as such where they stand: lossy UTF-8 decoding and `String::push`
//! of the standard library in [`text`], and `serde_json` in [`json`].

pub mod addr;
pub mod ascii;
pub mod bytes;
pub mod completion;
pub mod dns;
pub mod http;
pub mod json;
pub mod query;
pub mod router;
pub mod stream;
pub mod tcp;
pub mod text;
