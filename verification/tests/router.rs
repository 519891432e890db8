use wasi_gateway::completion::completion_payload;
use wasi_gateway::router::{
    content_type, excerpt, handle, route, Gateway, GatewayAction, GatewayEvent, Route,
};

fn respond(text: &str) -> GatewayAction {
    GatewayAction::Respond(text.to_string())
}

fn outcome(result: Result<&str, &str>) -> GatewayEvent {
    GatewayEvent::Outcome(result.map(str::to_string).map_err(str::to_string))
}

fn config(api_key: Option<&str>, model: Option<&str>) -> GatewayEvent {
    GatewayEvent::Config {
        api_key: api_key.map(str::to_string),
        model: model.map(str::to_string),
    }
}

const ENDPOINT: &str = "https://api.openai.com/v1/chat/completions";

#[test]
fn responses_are_plain_text() {
    assert_eq!(content_type(), "text/plain");
}

#[test]
fn paths_are_routed_by_prefix() {
    assert_eq!(route("/health"), Route::Health);
    assert_eq!(route("/healthz"), Route::Health);
    assert_eq!(route("/health/live"), Route::Health);
    assert_eq!(route("/slack/command"), Route::SlackCommand);
    assert_eq!(route("/slack/commands"), Route::SlackCommand);
    assert_eq!(route("/tcp/send"), Route::TcpSend);
    assert_eq!(route("/tcp/send/now"), Route::TcpSend);
    assert_eq!(route("/debug/httpget"), Route::DebugHttpGet);
    assert_eq!(route("/debug/httpget2"), Route::DebugHttpGet);
    assert_eq!(route("/debug/openai"), Route::DebugOpenai);
    assert_eq!(route("/debug/openai/v1"), Route::DebugOpenai);
}

#[test]
fn every_other_path_is_the_raw_fetch() {
    assert_eq!(route("/"), Route::TcpFetch);
    assert_eq!(route(""), Route::TcpFetch);
    assert_eq!(route("/healt"), Route::TcpFetch);
    assert_eq!(route("/Health"), Route::TcpFetch);
    assert_eq!(route("health"), Route::TcpFetch);
    assert_eq!(route("/slack"), Route::TcpFetch);
    assert_eq!(route("/tcp"), Route::TcpFetch);
    assert_eq!(route("/debug"), Route::TcpFetch);
    assert_eq!(route("/debug/http"), Route::TcpFetch);
    assert_eq!(route("/x/health"), Route::TcpFetch);
}

#[test]
fn health_is_ok() {
    assert_eq!(handle("/health"), (Gateway::Finished, respond("ok")));
}

#[test]
fn health_is_ok_whatever_the_query() {
    for target in ["/health?", "/health?x=1", "/health?host=a&port=1&msg=%zz", "/health?a?b"] {
        assert_eq!(handle(target), (Gateway::Finished, respond("ok")));
    }
}

#[test]
fn the_raw_fetch_has_defaults() {
    let expected = GatewayAction::TcpFetch { host: "example.com".to_string(), port: 80 };
    assert_eq!(handle("/").1, expected);
    assert_eq!(handle("").1, expected);
    assert_eq!(handle("/?").1, expected);
    assert_eq!(handle("/anything?other=1").1, expected);
}

#[test]
fn the_raw_fetch_takes_host_and_port_from_the_query() {
    let (state, action) = handle("/?host=127.0.0.1&port=8082");
    assert_eq!(action, GatewayAction::TcpFetch { host: "127.0.0.1".to_string(), port: 8082 });
    assert_eq!(state, Gateway::TcpFetch { host: "127.0.0.1".to_string(), port: 8082 });
}

#[test]
fn a_port_out_of_range_falls_back_to_the_default() {
    assert_eq!(
        handle("/?host=127.0.0.1&port=65536").1,
        GatewayAction::TcpFetch { host: "127.0.0.1".to_string(), port: 80 }
    );
    assert_eq!(
        handle("/tcp/send?port=65536").1,
        GatewayAction::TcpSend {
            host: "127.0.0.1".to_string(),
            port: 9090,
            message: "hello from wasi".to_string()
        }
    );
}

#[test]
fn a_port_that_is_no_number_falls_back_to_the_default() {
    for target in ["/?port=", "/?port=http", "/?port=-1", "/?port=80a", "/?port", "/?port=8%2e0"] {
        assert_eq!(
            handle(target).1,
            GatewayAction::TcpFetch { host: "example.com".to_string(), port: 80 }
        );
    }
}

#[test]
fn the_largest_port_is_taken() {
    assert_eq!(
        handle("/?port=65535").1,
        GatewayAction::TcpFetch { host: "example.com".to_string(), port: 65535 }
    );
}

#[test]
fn a_message_has_defaults() {
    let (state, action) = handle("/tcp/send");
    assert_eq!(
        action,
        GatewayAction::TcpSend {
            host: "127.0.0.1".to_string(),
            port: 9090,
            message: "hello from wasi".to_string()
        }
    );
    assert_eq!(
        state,
        Gateway::TcpSend {
            host: "127.0.0.1".to_string(),
            port: 9090,
            message: "hello from wasi".to_string()
        }
    );
}

#[test]
fn a_message_takes_its_parameters_from_the_query() {
    assert_eq!(
        handle("/tcp/send?host=echo.test&port=7&msg=hello%20world").1,
        GatewayAction::TcpSend {
            host: "echo.test".to_string(),
            port: 7,
            message: "hello world".to_string()
        }
    );
    assert_eq!(
        handle("/tcp/send?msg=&host=").1,
        GatewayAction::TcpSend { host: String::new(), port: 9090, message: String::new() }
    );
}

#[test]
fn a_sent_message_is_reported() {
    let (state, _) = handle("/tcp/send?host=echo.test&port=7&msg=ping");
    assert_eq!(
        state.advance(outcome(Ok("pong"))),
        (Gateway::Finished, respond("\u{2705} Sent to echo.test:7\n\n> ping\n\n< pong\n"))
    );
}

#[test]
fn a_message_that_could_not_be_sent_is_reported() {
    let (state, _) = handle("/tcp/send");
    assert_eq!(
        state.advance(outcome(Err("finish_connect: ConnectionRefused"))).1,
        respond(
            "\u{26a0}\u{fe0f}  Send failed: finish_connect: ConnectionRefused\nTarget: 127.0.0.1:9090\n"
        )
    );
}

#[test]
fn a_fetch_is_reported() {
    let (state, _) = handle("/?host=10.0.0.5&port=65535");
    assert_eq!(
        state.advance(outcome(Ok("HTTP/1.1 200 OK"))).1,
        respond(
            "\u{2705} TCP fetch successful!\n\nTarget: 10.0.0.5:65535\n\nHTTP/1.1 200 OK\n"
        )
    );
}

#[test]
fn a_failed_fetch_is_reported_with_a_hint() {
    let (state, _) = handle("/");
    assert_eq!(
        state.advance(outcome(Err("dns failure for host 'x': no IPs found"))).1,
        respond(
            "\u{26a0}\u{fe0f}  TCP fetch failed: dns failure for host 'x': no IPs found\n\n\u{1f527} This is expected in some environments.\n\u{1f4e1} Server is running.\n\nTry: /?host=127.0.0.1&port=8082 after starting a local server.\n"
        )
    );
}

#[test]
fn a_get_has_a_default_url() {
    let (state, action) = handle("/debug/httpget");
    assert_eq!(action, GatewayAction::HttpGet { url: "https://httpbin.org/get".to_string() });
    assert_eq!(state, Gateway::HttpGet { url: "https://httpbin.org/get".to_string() });
}

#[test]
fn a_get_takes_its_url_from_the_query() {
    assert_eq!(
        handle("/debug/httpget?url=http%3A%2F%2Fexample.com%2Fa%3Fb%3D1").1,
        GatewayAction::HttpGet { url: "http://example.com/a?b=1".to_string() }
    );
    assert_eq!(
        handle("/debug/httpget?url=not-a-url").1,
        GatewayAction::HttpGet { url: "not-a-url".to_string() }
    );
}

#[test]
fn a_get_is_reported() {
    let (state, _) = handle("/debug/httpget?url=https://x.test/");
    assert_eq!(
        state.advance(outcome(Ok("{\"a\":1}"))).1,
        respond("GET https://x.test/\n\n{\"a\":1}")
    );
}

#[test]
fn a_url_that_is_none_is_reported_as_an_unsupported_scheme() {
    let (state, action) = handle("/debug/httpget?url=not-a-url");
    let url = match action {
        GatewayAction::HttpGet { url } => url,
        _ => panic!("a GET was expected"),
    };
    let (_, first) = wasi_gateway::http::http_get_text(&url);
    let ended = match first {
        wasi_gateway::http::HttpAction::Finish(ended) => ended,
        _ => panic!("the call should have ended at once"),
    };
    let words = wasi_gateway::http::report(wasi_gateway::http::HttpFlavor::GetText, ended);
    let (state, action) = state.advance(GatewayEvent::Outcome(words));
    assert_eq!(action, respond("GET not-a-url failed: unsupported scheme"));
    assert_eq!(state, Gateway::Finished);
}

#[test]
fn the_probe_reads_the_configuration_first() {
    assert_eq!(handle("/debug/openai"), (Gateway::ProbeConfig, GatewayAction::ReadConfig));
    assert_eq!(handle("/debug/openai?x=1").1, GatewayAction::ReadConfig);
}

#[test]
fn the_probe_posts_with_what_is_configured() {
    let (state, _) = handle("/debug/openai");
    let (state, action) = state.advance(config(Some("sk-abcdefghijklmnop"), Some("gpt-4o")));
    assert_eq!(
        action,
        GatewayAction::HttpPostJson {
            url: ENDPOINT.to_string(),
            body: "{\"model\":\"gpt-4o\",\"messages\":[{\"role\":\"user\",\"content\":\"Hello\"}],\"max_tokens\":10}".to_string(),
            api_key: "sk-abcdefghijklmnop".to_string(),
        }
    );
    assert_eq!(
        state,
        Gateway::Probe { model: "gpt-4o".to_string(), api_key: "sk-abcdefghijklmnop".to_string() }
    );
}

#[test]
fn the_probe_goes_on_without_a_credential() {
    let (state, _) = handle("/debug/openai");
    let (state, action) = state.advance(config(Some(""), None));
    assert_eq!(
        action,
        GatewayAction::HttpPostJson {
            url: ENDPOINT.to_string(),
            body: "{\"model\":\"gpt-4o-mini\",\"messages\":[{\"role\":\"user\",\"content\":\"Hello\"}],\"max_tokens\":10}".to_string(),
            api_key: "MISSING".to_string(),
        }
    );
    assert_eq!(
        state.advance(outcome(Err("OpenAI HTTP 401: denied"))).1,
        respond(
            "OpenAI API Test Failed:\nModel: gpt-4o-mini\nAPI Key: MISSING...\nError: OpenAI HTTP 401: denied"
        )
    );
}

#[test]
fn the_probe_shows_only_the_start_of_the_credential() {
    let (state, _) = handle("/debug/openai");
    let (state, _) = state.advance(config(Some("sk-abcdefghijklmnop"), None));
    assert_eq!(
        state.advance(outcome(Ok("{\"id\":1}"))).1,
        respond(
            "OpenAI API Test Success:\nModel: gpt-4o-mini\nAPI Key: sk-abcdefg...\nResponse: {\"id\":1}"
        )
    );
}

#[test]
fn an_excerpt_has_at_most_ten_bytes() {
    assert_eq!(excerpt(""), "");
    assert_eq!(excerpt("short"), "short");
    assert_eq!(excerpt("0123456789"), "0123456789");
    assert_eq!(excerpt("0123456789a"), "0123456789");
    assert_eq!(excerpt("0123456789abcdef"), "0123456789");
}

#[test]
fn an_excerpt_does_not_cut_a_character() {
    assert_eq!(excerpt("012345678\u{e9}x"), "012345678");
    assert_eq!(excerpt("01234567\u{20ac}x"), "01234567");
    assert_eq!(excerpt("0123456\u{1f600}x"), "0123456");
    assert_eq!(excerpt("01234567\u{e9}xy"), "01234567\u{e9}");
    assert_eq!(excerpt("\u{1f600}\u{1f600}\u{1f600}"), "\u{1f600}\u{1f600}");
}

#[test]
fn a_command_reads_its_body_first() {
    assert_eq!(handle("/slack/command"), (Gateway::SlackBody, GatewayAction::ReadBody));
    assert_eq!(handle("/slack/command?text=ignored").1, GatewayAction::ReadBody);
}

#[test]
fn a_command_without_a_callback_is_acknowledged_without_a_post() {
    let (state, _) = handle("/slack/command");
    let (state, action) =
        state.advance(GatewayEvent::Body("text=hello&response_url=".to_string()));
    assert_eq!(action, GatewayAction::ReadConfig);
    assert_eq!(
        state,
        Gateway::SlackConfig { text: "hello".to_string(), response_url: String::new() }
    );
    assert_eq!(state.advance(config(None, None)), (Gateway::Finished, respond("ack")));
}

#[test]
fn a_command_without_a_callback_is_acknowledged_after_its_completion() {
    let (state, _) = handle("/slack/command");
    let (state, _) = state.advance(GatewayEvent::Body("text=hello&response_url=".to_string()));
    let (state, action) = state.advance(config(Some("sk-test"), None));
    assert_eq!(
        action,
        GatewayAction::HttpPostJson {
            url: ENDPOINT.to_string(),
            body: completion_payload("gpt-4o-mini", "hello"),
            api_key: "sk-test".to_string(),
        }
    );
    let answer = r#"{"choices":[{"message":{"content":"Hi!"}}]}"#;
    assert_eq!(state.advance(outcome(Ok(answer))), (Gateway::Finished, respond("ack")));
}

#[test]
fn a_command_with_a_callback_posts_its_reply_there() {
    let (state, _) = handle("/slack/command");
    let body = "text=what%27s+up&response_url=https%3A%2F%2Fhooks.test%2Fcb&user=u1";
    let (state, _) = state.advance(GatewayEvent::Body(body.to_string()));
    assert_eq!(
        state,
        Gateway::SlackConfig {
            text: "what's+up".to_string(),
            response_url: "https://hooks.test/cb".to_string()
        }
    );
    let (state, _) = state.advance(config(Some("sk-test"), Some("gpt-4o")));
    let answer = r#"{"choices":[{"message":{"content":" All good. "}}]}"#;
    let (state, action) = state.advance(outcome(Ok(answer)));
    assert_eq!(
        action,
        GatewayAction::HttpPostText {
            url: "https://hooks.test/cb".to_string(),
            body: "{\"response_type\":\"in_channel\",\"text\":\"All good.\"}".to_string(),
            content_type: "application/json".to_string(),
        }
    );
    assert_eq!(state, Gateway::SlackCallback);
}

#[test]
fn a_command_is_acknowledged_however_the_callback_ends() {
    for ending in [Ok(""), Err("await resp: none"), Err("HTTP 500: oops")] {
        let (state, action) = Gateway::SlackCallback.advance(outcome(ending));
        assert_eq!(action, respond("ack"));
        assert_eq!(state, Gateway::Finished);
    }
}

#[test]
fn a_command_without_a_credential_echoes_to_the_callback() {
    let (state, _) = handle("/slack/command");
    let (state, _) = state
        .advance(GatewayEvent::Body("response_url=http://hooks.test/&text=hello".to_string()));
    let (state, action) = state.advance(config(None, None));
    assert_eq!(
        action,
        GatewayAction::HttpPostText {
            url: "http://hooks.test/".to_string(),
            body: "{\"response_type\":\"in_channel\",\"text\":\"You said: hello (AI unavailable: OPENAI_API_KEY not set)\"}".to_string(),
            content_type: "application/json".to_string(),
        }
    );
    assert_eq!(state, Gateway::SlackCallback);
}

#[test]
fn a_failed_completion_is_echoed_with_its_reason() {
    let state = Gateway::SlackCompletion {
        text: "hi".to_string(),
        response_url: "http://hooks.test/".to_string(),
    };
    let (_, action) = state.advance(outcome(Err("http response timeout")));
    assert_eq!(
        action,
        GatewayAction::HttpPostText {
            url: "http://hooks.test/".to_string(),
            body: "{\"response_type\":\"in_channel\",\"text\":\"You said: hi (AI unavailable: http response timeout)\"}".to_string(),
            content_type: "application/json".to_string(),
        }
    );
}

#[test]
fn a_command_with_an_empty_body_has_no_text_and_no_callback() {
    let (state, _) = handle("/slack/command");
    let (state, _) = state.advance(GatewayEvent::Body(String::new()));
    assert_eq!(state, Gateway::SlackConfig { text: String::new(), response_url: String::new() });
}

#[test]
fn an_event_out_of_turn_is_answered_in_the_response() {
    let (state, _) = handle("/slack/command");
    assert_eq!(
        state.advance(outcome(Ok("early"))),
        (Gateway::Finished, respond("unexpected event"))
    );
    assert_eq!(
        Gateway::Finished.advance(GatewayEvent::Body(String::new())).1,
        respond("unexpected event")
    );
    let (state, _) = handle("/tcp/send");
    assert_eq!(state.advance(config(None, None)).1, respond("unexpected event"));
}

#[test]
fn the_router_knows_when_it_has_responded() {
    let (state, _) = handle("/health");
    assert!(state.is_finished());
    let (state, _) = handle("/");
    assert!(!state.is_finished());
    let (state, _) = state.advance(outcome(Ok("")));
    assert!(state.is_finished());
}
