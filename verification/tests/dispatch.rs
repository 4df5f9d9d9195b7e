use agent_core::dispatch::{
    create_url_from, dispatch_invocation, render_response, DispatchOutcome, HttpResponse,
};
use agent_core::events::Event;
use agent_core::history::Message;
use agent_core::invocation::Invocation;
use agent_core::namespaces::{get_namespace, Registry};
use agent_core::reply::parse_reply;
use agent_core::state::State;
use agent_core::task::Task;

fn channel() -> (
    tokio::sync::mpsc::UnboundedSender<Event>,
    tokio::sync::mpsc::UnboundedReceiver<Event>,
) {
    tokio::sync::mpsc::unbounded_channel()
}

fn web_state(variables: Vec<(&str, &str)>) -> State {
    let (tx, rx) = channel();
    // keep the receiver alive for the run
    std::mem::forget(rx);
    let mut registry = Registry::new();
    registry.register("http".to_string(), get_namespace());
    let task = Task {
        prompt: "probe the target".to_string(),
        using: Some(vec!["http".to_string()]),
        functions: vec![],
        rag: None,
        variables: variables
            .into_iter()
            .map(|(k, v)| (k.to_string(), v.to_string()))
            .collect(),
    };
    State::new(tx, task, &registry, 0).unwrap()
}

fn invocation(action: &str, attrs: Vec<(&str, &str)>, payload: Option<&str>) -> Invocation {
    Invocation::new(
        action.to_string(),
        if attrs.is_empty() {
            None
        } else {
            Some(
                attrs
                    .into_iter()
                    .map(|(k, v)| (k.to_string(), v.to_string()))
                    .collect(),
            )
        },
        payload.map(|p| p.to_string()),
    )
}

fn feedback_texts(state: &State) -> Vec<String> {
    state
        .to_chat_history(100)
        .into_iter()
        .filter_map(|m| match m {
            Message::Feedback(s) => Some(s),
            Message::Agent(_) => None,
        })
        .collect()
}

#[test]
fn missing_required_variable_fails_before_any_side_effect() {
    let mut state = web_state(vec![]);
    let inv = invocation("http-request", vec![("method", "GET")], Some("/index.php"));
    let outcome = dispatch_invocation(&mut state, inv);
    assert!(matches!(outcome, DispatchOutcome::Recorded));
    let feedback = feedback_texts(&state);
    assert_eq!(feedback.len(), 1);
    assert_eq!(
        feedback[0],
        "ERROR: required variable 'HTTP_TARGET' not defined"
    );
    // no side effect reached the headers storage
    let headers = state.get_storage("http-headers").unwrap();
    assert_eq!(headers.entries().len(), 2);
}

#[test]
fn prepared_request_carries_the_joined_url_and_headers() {
    let mut state = web_state(vec![("HTTP_TARGET", "example.com")]);
    let inv = invocation("http-request", vec![("method", "GET")], Some("/index.php?id=1"));
    match dispatch_invocation(&mut state, inv) {
        DispatchOutcome::HttpPending {
            request,
            invocation: inv,
            timeout_secs,
        } => {
            assert_eq!(request.url.as_str(), "http://example.com/index.php?id=1");
            assert_eq!(request.url_text, "http://example.com/index.php?id=1");
            assert_eq!(request.method, reqwest::Method::GET);
            assert_eq!(request.method_text, "GET");
            assert_eq!(request.headers.len(), 2);
            assert_eq!(timeout_secs, Some(30));
            assert_eq!(inv.action, "http-request");
        }
        _ => panic!("expected a pending request"),
    }
    // nothing was recorded yet: the application records the exchange outcome
    assert_eq!(state.to_chat_history(10).len(), 0);
}

#[test]
fn a_target_with_a_scheme_is_not_rewritten() {
    let state = web_state(vec![("HTTP_TARGET", "https://example.com:8443")]);
    let joined = create_url_from(&state, Some("/login".to_string())).unwrap();
    assert_eq!(joined.url.as_str(), "https://example.com:8443/login");
    assert_eq!(joined.text, "https://example.com:8443/login");
}

#[test]
fn an_unparsable_target_is_reported() {
    let state = web_state(vec![("HTTP_TARGET", "http://[bad")]);
    let err = create_url_from(&state, Some("/".to_string())).unwrap_err();
    assert!(err.message().starts_with("can't parse "));
}

#[test]
fn an_invalid_method_token_is_refused() {
    let mut state = web_state(vec![("HTTP_TARGET", "example.com")]);
    let inv = invocation("http-request", vec![("method", "NOT A TOKEN")], Some("/"));
    let outcome = dispatch_invocation(&mut state, inv);
    assert!(matches!(outcome, DispatchOutcome::Recorded));
    let feedback = feedback_texts(&state);
    assert_eq!(feedback.len(), 1);
    assert!(feedback[0].starts_with("ERROR: "));
}

#[test]
fn unknown_action_is_recorded_as_a_failure() {
    let mut state = web_state(vec![]);
    let inv = invocation("no-such-action", vec![], None);
    let outcome = dispatch_invocation(&mut state, inv);
    assert!(matches!(outcome, DispatchOutcome::Recorded));
    let feedback = feedback_texts(&state);
    assert_eq!(feedback, vec!["ERROR: unknown action 'no-such-action'"]);
}

#[test]
fn set_and_clear_header_actions_update_the_storage() {
    let mut state = web_state(vec![]);
    let inv = invocation(
        "http-set-header",
        vec![("name", "X-Header")],
        Some("some-value-for-the-header"),
    );
    let outcome = dispatch_invocation(&mut state, inv);
    assert!(matches!(outcome, DispatchOutcome::Recorded));
    {
        let headers = state.get_storage("http-headers").unwrap();
        assert_eq!(
            headers.get_tagged(&"X-Header".to_string()),
            Some("some-value-for-the-header".to_string())
        );
        assert_eq!(headers.entries().len(), 3);
    }

    let outcome = dispatch_invocation(&mut state, invocation("http-clear-headers", vec![], None));
    assert!(matches!(outcome, DispatchOutcome::Recorded));
    let headers = state.get_storage("http-headers").unwrap();
    assert_eq!(headers.entries().len(), 0);
    assert_eq!(
        feedback_texts(&state),
        vec!["header set", "http headers cleared"]
    );
}

#[test]
fn overwriting_a_header_keeps_one_entry_per_name() {
    let mut state = web_state(vec![]);
    dispatch_invocation(
        &mut state,
        invocation("http-set-header", vec![("name", "X-H")], Some("one")),
    );
    dispatch_invocation(
        &mut state,
        invocation("http-set-header", vec![("name", "X-H")], Some("two")),
    );
    let headers = state.get_storage("http-headers").unwrap();
    assert_eq!(headers.entries().len(), 3);
    assert_eq!(
        headers.get_tagged(&"X-H".to_string()),
        Some("two".to_string())
    );
}

#[test]
fn rendered_invocations_round_trip_into_the_chat_window() {
    let mut state = web_state(vec![]);
    let inv = invocation(
        "http-set-header",
        vec![("name", "X-Header")],
        Some("v"),
    );
    dispatch_invocation(&mut state, inv);
    let window = state.to_chat_history(10);
    assert!(matches!(
        &window[0],
        Message::Agent(s) if s == "<http-set-header name=\"X-Header\">v</http-set-header>"
    ));
}

#[test]
fn successful_responses_render_status_headers_and_body() {
    let res = HttpResponse {
        status: 200,
        reason: "OK".to_string(),
        headers: vec![("content-type".to_string(), "text/html".to_string())],
        body: "hello".to_string(),
    };
    let text = render_response(&res).unwrap();
    assert_eq!(text, "200 OK\ncontent-type: text/html\n\n\nhello");
}

#[test]
fn failing_responses_become_the_status_line_error() {
    let res = HttpResponse {
        status: 404,
        reason: "Not Found".to_string(),
        headers: vec![],
        body: String::new(),
    };
    let err = render_response(&res).unwrap_err();
    assert_eq!(err.message(), "404 Not Found");
}

#[test]
fn a_rendered_call_parses_back_into_its_parts() {
    let inv = parse_reply("I will fetch it: <http-request method=\"GET\">/x?id=1</http-request>")
        .unwrap();
    assert_eq!(inv.action, "http-request");
    assert_eq!(
        inv.attributes,
        Some(vec![("method".to_string(), "GET".to_string())])
    );
    assert_eq!(inv.payload.as_deref(), Some("/x?id=1"));
}

#[test]
fn a_call_without_a_closing_tag_has_no_payload() {
    let inv = parse_reply("<http-clear-headers>").unwrap();
    assert_eq!(inv.action, "http-clear-headers");
    assert_eq!(inv.attributes, None);
    assert_eq!(inv.payload, None);
}

#[test]
fn replies_without_a_call_are_refused() {
    assert!(parse_reply("no call at all").is_none());
    assert!(parse_reply("only an opening <").is_none());
    assert!(parse_reply("an empty head <> here").is_none());
    assert!(parse_reply("</closing-only>").is_none());
}
