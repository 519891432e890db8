//! The AI-completion collaborator: what is sent to it, and what is made of
//! its answer.
//!
//! A completion is asked for with one POST of JSON. Without a credential
//! none is asked for. The answer is a JSON document: the reply is the text at
//! `choices[0].message.content`; failing that, the text at `error.message`
//! is the collaborator's own account of what went wrong.

use crate::json::{
    json_document, json_element, json_error_message, json_member, json_object, json_object_text,
    json_text, parse_json, JsonTree,
};
use crate::text::{join2, join3, option_view, outcome_view, trim, trimmed};
use vstd::prelude::*;
use vstd::string::StringExecFns;

verus! {

/// Where completions are asked for.
pub open spec fn endpoint() -> Seq<char> {
    "https://api.openai.com/v1/chat/completions"@
}

/// The model that is asked when none is configured.
pub open spec fn default_model() -> Seq<char> {
    "gpt-4o-mini"@
}

/// A configured value: one that is set and not empty.
pub open spec fn configured_value(value: Option<Seq<char>>) -> Option<Seq<char>> {
    match value {
        Some(text) => if text.len() > 0 {
            Some(text)
        } else {
            None
        },
        None => None,
    }
}

/// Takes a value of the process configuration as it was found. A value that
/// is empty counts as not set.
pub fn configured(value: Option<String>) -> (r: Option<String>)
    ensures
        option_view(r) == configured_value(option_view(value)),
{
    match value {
        Some(text) => if text.as_str().is_empty() {
            None
        } else {
            Some(text)
        },
        None => None,
    }
}

/// `text` with a backslash before every double quote.
pub open spec fn quotes_escaped(text: Seq<char>) -> Seq<char>
    decreases text.len(),
{
    if text.len() == 0 {
        Seq::empty()
    } else if text.last() == '"' {
        quotes_escaped(text.drop_last()) + seq!['\\', '"']
    } else {
        quotes_escaped(text.drop_last()).push(text.last())
    }
}

/// Puts a backslash before every double quote.
pub fn escape_quotes(text: &str) -> (r: String)
    ensures
        r@ == quotes_escaped(text@),
{
    let mut out = String::new();
    for c in it: text.chars()
        invariant
            it.seq() == text@,
            out@ == quotes_escaped(text@.take(it.index() as int)),
    {
        assert(text@.take(it.index() + 1).drop_last() == text@.take(it.index() as int));
        if c == '"' {
            proof {
                reveal_strlit("\\\"");
            }
            out.append("\\\"");
            assert("\\\""@ =~= seq!['\\', '"']);
        } else {
            out.push(c);
        }
    }
    assert(text@.take(text@.len() as int) == text@);
    out
}

/// The body that asks `model` to complete `text`.
pub open spec fn completion_request(model: Seq<char>, text: Seq<char>) -> Seq<char> {
    "{\"model\":\""@ + model + "\",\"messages\":[{\"role\":\"user\",\"content\":\""@
        + quotes_escaped(text) + "\"}],\"max_tokens\":150,\"temperature\":0.7}"@
}

/// Writes the body that asks `model` to complete `user_text`.
pub fn completion_payload(model: &str, user_text: &str) -> (r: String)
    ensures
        r@ == completion_request(model@, user_text@),
{
    let escaped = escape_quotes(user_text);
    let mut body = join3(
        "{\"model\":\"",
        model,
        "\",\"messages\":[{\"role\":\"user\",\"content\":\"",
    );
    body.append(escaped.as_str());
    body.append("\"}],\"max_tokens\":150,\"temperature\":0.7}");
    body
}

/// The body that probes `model` with a fixed greeting.
pub open spec fn probe_request(model: Seq<char>) -> Seq<char> {
    "{\"model\":\""@ + model
        + "\",\"messages\":[{\"role\":\"user\",\"content\":\"Hello\"}],\"max_tokens\":10}"@
}

/// Writes the body that probes `model`.
pub fn probe_payload(model: &str) -> (r: String)
    ensures
        r@ == probe_request(model@),
{
    join3(
        "{\"model\":\"",
        model,
        "\",\"messages\":[{\"role\":\"user\",\"content\":\"Hello\"}],\"max_tokens\":10}",
    )
}

/// How a completion begins: with a POST, or with its end.
#[derive(Debug, PartialEq, Eq)]
pub enum CompletionStep {
    /// POST this JSON body to this URL, with this bearer credential.
    Post { url: String, body: String, api_key: String },
    /// There is nothing to ask.
    Done(Result<String, String>),
}

/// A first step as a value.
pub enum CompletionStepView {
    Post { url: Seq<char>, body: Seq<char>, api_key: Seq<char> },
    Done(Result<Seq<char>, Seq<char>>),
}

impl View for CompletionStep {
    type V = CompletionStepView;

    open spec fn view(&self) -> CompletionStepView {
        match self {
            CompletionStep::Post { url, body, api_key } => CompletionStepView::Post {
                url: url@,
                body: body@,
                api_key: api_key@,
            },
            CompletionStep::Done(outcome) => CompletionStepView::Done(outcome_view(*outcome)),
        }
    }
}

/// The model to ask: the configured one, or the default.
pub open spec fn model_or_default(model: Option<Seq<char>>) -> Seq<char> {
    match configured_value(model) {
        Some(model) => model,
        None => default_model(),
    }
}

/// The first step of a completion of `text` under the given configuration.
/// Without a credential no request is made.
pub open spec fn completion_start(
    text: Seq<char>,
    api_key: Option<Seq<char>>,
    model: Option<Seq<char>>,
) -> CompletionStepView {
    match configured_value(api_key) {
        Some(key) => CompletionStepView::Post {
            url: endpoint(),
            body: completion_request(model_or_default(model), text),
            api_key: key,
        },
        None => CompletionStepView::Done(Err("OPENAI_API_KEY not set"@)),
    }
}

/// Picks the model to ask.
pub fn choose_model(model: Option<String>) -> (r: String)
    ensures
        r@ == model_or_default(option_view(model)),
{
    match configured(model) {
        Some(model) => model,
        None => "gpt-4o-mini".to_owned(),
    }
}

/// Begins a completion of `user_text`. `api_key` and `model` are the
/// values of the process configuration as they were found.
pub fn call_openai(user_text: &str, api_key: Option<String>, model: Option<String>) -> (step:
    CompletionStep)
    ensures
        step@ == completion_start(user_text@, option_view(api_key), option_view(model)),
{
    match configured(api_key) {
        Some(key) => {
            let model = choose_model(model);
            CompletionStep::Post {
                url: "https://api.openai.com/v1/chat/completions".to_owned(),
                body: completion_payload(model.as_str(), user_text),
                api_key: key,
            }
        },
        None => CompletionStep::Done(Err("OPENAI_API_KEY not set".to_owned())),
    }
}

/// What is made of the two texts that an answer may hold: the reply,
/// trimmed, if there is one; else the collaborator's account of its error;
/// else the news that the answer has neither.
pub open spec fn picked(content: Option<Seq<char>>, error: Option<Seq<char>>) -> Result<
    Seq<char>,
    Seq<char>,
> {
    match content {
        Some(content) => Ok(trimmed(content)),
        None => match error {
            Some(message) => Err("OpenAI error: "@ + message),
            None => Err("Unexpected OpenAI response format"@),
        },
    }
}

/// Decides between the reply and the error message of an answer.
pub fn completion_outcome(content: Option<&str>, error: Option<&str>) -> (r: Result<
    String,
    String,
>)
    ensures
        outcome_view(r) == picked(
            match content {
                Some(text) => Some(text@),
                None => None,
            },
            match error {
                Some(text) => Some(text@),
                None => None,
            },
        ),
{
    match content {
        Some(content) => Ok(trim(content)),
        None => match error {
            Some(message) => Err(join2("OpenAI error: ", message)),
            None => Err("Unexpected OpenAI response format".to_owned()),
        },
    }
}

/// What a parsed answer, or the failure to parse it, comes to.
pub open spec fn completion_of(document: Result<JsonTree, Seq<char>>) -> Result<
    Seq<char>,
    Seq<char>,
> {
    match document {
        Ok(tree) => picked(
            tree.member("choices"@).element(0).member("message"@).member("content"@).text(),
            tree.member("error"@).member("message"@).text(),
        ),
        Err(message) => Err("Failed to parse OpenAI response: "@ + message),
    }
}

/// Reads the body of an answer.
pub fn read_completion(body: &str) -> (r: Result<String, String>)
    ensures
        outcome_view(r) == completion_of(json_document(body@)),
{
    match parse_json(body) {
        Ok(document) => {
            let choices = json_member(&document, "choices");
            let message = json_member(json_element(choices, 0), "message");
            let content = json_text(json_member(message, "content"));
            let error = match content {
                Some(_) => None,
                None => json_text(json_member(json_member(&document, "error"), "message")),
            };
            completion_outcome(content, error)
        },
        Err(error) => {
            let message = json_error_message(&error);
            Err(join2("Failed to parse OpenAI response: ", message.as_str()))
        },
    }
}

/// What a completion comes to, given how its POST ended: a failed POST is
/// the completion's failure, and a body is read.
pub open spec fn completion_end(posted: Result<Seq<char>, Seq<char>>) -> Result<
    Seq<char>,
    Seq<char>,
> {
    match posted {
        Ok(body) => completion_of(json_document(body)),
        Err(message) => Err(message),
    }
}

/// Ends a completion with the outcome of its POST.
pub fn finish_completion(posted: Result<String, String>) -> (r: Result<String, String>)
    ensures
        outcome_view(r) == completion_end(outcome_view(posted)),
{
    match posted {
        Ok(body) => read_completion(body.as_str()),
        Err(message) => Err(message),
    }
}

/// What is said in place of a reply that could not be had.
pub open spec fn echo(text: Seq<char>, reason: Seq<char>) -> Seq<char> {
    "You said: "@ + text + " (AI unavailable: "@ + reason + ")"@
}

/// The reply to a command: the completion, or an echo of the command with
/// the reason why there is none.
pub open spec fn reply_text(text: Seq<char>, completion: Result<Seq<char>, Seq<char>>) -> Seq<
    char,
> {
    match completion {
        Ok(reply) => reply,
        Err(reason) => echo(text, reason),
    }
}

/// Settles the reply to a command.
pub fn reply_or_echo(text: &str, completion: Result<String, String>) -> (r: String)
    ensures
        r@ == reply_text(text@, outcome_view(completion)),
{
    match completion {
        Ok(reply) => reply,
        Err(reason) => {
            let mut echo = join3("You said: ", text, " (AI unavailable: ");
            echo.append(reason.as_str());
            echo.append(")");
            echo
        },
    }
}

/// The members of the envelope that carries a reply back.
pub open spec fn envelope_members(reply: Seq<char>) -> Seq<(Seq<char>, Seq<char>)> {
    seq![("response_type"@, "in_channel"@), ("text"@, reply)]
}

/// Writes the envelope that carries a reply back to where the command came
/// from.
pub fn slack_envelope(reply: &str) -> (r: String)
    ensures
        r@ == json_object_text(envelope_members(reply@)),
{
    let mut members: Vec<(String, String)> = Vec::new();
    members.push(("response_type".to_owned(), "in_channel".to_owned()));
    members.push(("text".to_owned(), reply.to_owned()));
    assert(crate::json::members_view(members@) =~= envelope_members(reply@));
    json_object(&members)
}

} // verus!
