use agent_core::errors::AgentError;
use agent_core::events::Event;
use agent_core::generator::OpenAiCompatibleClient;
use agent_core::history::Message;
use agent_core::namespaces::{get_namespace, Action, Namespace, Registry};
use agent_core::rag::{select_top_k, ScoredDocument};
use agent_core::state::State;
use agent_core::task::{RagConfig, Task};

fn channel() -> (
    tokio::sync::mpsc::UnboundedSender<Event>,
    tokio::sync::mpsc::UnboundedReceiver<Event>,
) {
    tokio::sync::mpsc::unbounded_channel()
}

fn plain_task(using: Option<Vec<&str>>) -> Task {
    Task {
        prompt: "do the thing".to_string(),
        using: using.map(|v| v.into_iter().map(|s| s.to_string()).collect()),
        functions: vec![],
        rag: None,
        variables: vec![],
    }
}

fn named_namespace(name: &str, default: bool) -> Namespace {
    let actions = vec![Action::Custom {
        name: format!("{name}-action"),
        description: "a task action".to_string(),
        example_payload: None,
        example_attributes: None,
        required_variables: None,
        timeout_secs: None,
    }];
    if default {
        Namespace::new_default(name.to_string(), "ns".to_string(), actions, None)
    } else {
        Namespace::new_non_default(name.to_string(), "ns".to_string(), actions, None)
    }
}

#[test]
fn budget_of_three_allows_exactly_two_steps() {
    let (tx, _rx) = channel();
    let registry = Registry::new();
    let mut state = State::new(tx, plain_task(Some(vec![])), &registry, 3).unwrap();
    assert!(state.on_step().is_ok());
    assert!(state.on_step().is_ok());
    let third = state.on_step();
    assert!(third.is_err());
    assert_eq!(
        third.unwrap_err().message(),
        "maximum number of steps reached"
    );
}

#[test]
fn budget_of_zero_never_refuses() {
    let (tx, _rx) = channel();
    let registry = Registry::new();
    let mut state = State::new(tx, plain_task(Some(vec![])), &registry, 0).unwrap();
    for _ in 0..50 {
        assert!(state.on_step().is_ok());
    }
}

#[test]
fn undeclared_storage_is_not_found() {
    let (tx, _rx) = channel();
    let registry = Registry::new();
    let mut state = State::new(tx, plain_task(Some(vec![])), &registry, 0).unwrap();
    let err = state.get_storage_mut("http-headers").unwrap_err();
    assert_eq!(err.message(), "storage http-headers not found");
    let err = state.get_storage("http-headers").unwrap_err();
    assert_eq!(err.message(), "storage http-headers not found");
}

#[test]
fn declared_storage_is_found_and_preseeded() {
    let (tx, _rx) = channel();
    let mut registry = Registry::new();
    registry.register("http".to_string(), get_namespace());
    let mut state = State::new(tx, plain_task(Some(vec!["http"])), &registry, 0).unwrap();
    let storage = state.get_storage("http-headers").unwrap();
    assert_eq!(storage.entries().len(), 2);
    assert_eq!(
        storage.get_tagged(&"Accept-Encoding".to_string()),
        Some("deflate".to_string())
    );
    assert!(state.get_storage_mut("http-headers").is_ok());
    assert!(state.get_storage("goal").is_err());
}

#[test]
fn wildcard_resolves_to_defaults_plus_named() {
    let (tx, _rx) = channel();
    let mut registry = Registry::new();
    registry.register("a".to_string(), named_namespace("A", true));
    registry.register("b".to_string(), named_namespace("B", false));
    registry.register("c".to_string(), named_namespace("C", true));
    let state = State::new(tx, plain_task(Some(vec!["*", "b"])), &registry, 0).unwrap();
    let names: Vec<String> = state
        .get_namespaces()
        .iter()
        .map(|ns| ns.name.clone())
        .collect();
    assert_eq!(names, vec!["A", "C", "B"]);
}

#[test]
fn wildcard_plus_default_name_duplicates_the_namespace() {
    let (tx, _rx) = channel();
    let mut registry = Registry::new();
    registry.register("a".to_string(), named_namespace("A", true));
    let state = State::new(tx, plain_task(Some(vec!["*", "a"])), &registry, 0).unwrap();
    let names: Vec<String> = state
        .get_namespaces()
        .iter()
        .map(|ns| ns.name.clone())
        .collect();
    assert_eq!(names, vec!["A", "A"]);
}

#[test]
fn no_request_means_all_defaults() {
    let (tx, _rx) = channel();
    let mut registry = Registry::new();
    registry.register("a".to_string(), named_namespace("A", true));
    registry.register("b".to_string(), named_namespace("B", false));
    let state = State::new(tx, plain_task(None), &registry, 0).unwrap();
    let names: Vec<String> = state
        .get_namespaces()
        .iter()
        .map(|ns| ns.name.clone())
        .collect();
    assert_eq!(names, vec!["A"]);
}

#[test]
fn unknown_namespace_fails_construction() {
    let (tx, _rx) = channel();
    let registry = Registry::new();
    let err = State::new(tx, plain_task(Some(vec!["nope"])), &registry, 0).unwrap_err();
    assert_eq!(err.message(), "no namespace 'nope' defined");
}

#[test]
fn goal_storage_is_seeded_with_the_prompt() {
    let (tx, _rx) = channel();
    let mut registry = Registry::new();
    let goal_ns = Namespace::new_default(
        "Goal".to_string(),
        "goal keeping".to_string(),
        vec![],
        Some(vec![agent_core::storage::StorageDescriptor::untagged(
            "goal",
        )]),
    );
    registry.register("goal".to_string(), goal_ns);
    let state = State::new(tx, plain_task(None), &registry, 0).unwrap();
    let storage = state.get_storage("goal").unwrap();
    assert_eq!(storage.get_current(), Some(&"do the thing".to_string()));
}

#[test]
fn first_action_wins_across_namespaces_in_registration_order() {
    let (tx, _rx) = channel();
    let mut registry = Registry::new();
    registry.register("http".to_string(), get_namespace());
    let shadow = Namespace::new_non_default(
        "Shadow".to_string(),
        "a namespace with a same-named action".to_string(),
        vec![Action::Custom {
            name: "http-request".to_string(),
            description: "an impostor".to_string(),
            example_payload: None,
            example_attributes: None,
            required_variables: None,
            timeout_secs: None,
        }],
        None,
    );
    registry.register("shadow".to_string(), shadow);
    let state = State::new(tx, plain_task(Some(vec!["http", "shadow"])), &registry, 0).unwrap();
    let action = state.get_action("http-request").unwrap();
    assert!(matches!(action, Action::HttpRequest));

    // with the registration order reversed, the custom action shadows it
    let (tx2, _rx2) = channel();
    let state2 = State::new(tx2, plain_task(Some(vec!["shadow", "http"])), &registry, 0).unwrap();
    let action2 = state2.get_action("http-request").unwrap();
    assert!(matches!(action2, Action::Custom { .. }));
    assert!(state2.get_action("never-registered").is_none());
}

#[test]
fn chat_history_window_keeps_the_most_recent_entries_in_order() {
    let (tx, _rx) = channel();
    let registry = Registry::new();
    let mut state = State::new(tx, plain_task(Some(vec![])), &registry, 0).unwrap();
    state.add_unparsed_response_to_history("r1", "e1".to_string());
    state.add_unparsed_response_to_history("r2", "e2".to_string());
    state.add_unparsed_response_to_history("r3", "e3".to_string());
    let window = state.to_chat_history(2);
    let texts: Vec<String> = window
        .iter()
        .map(|m| match m {
            Message::Agent(s) => format!("A:{s}"),
            Message::Feedback(s) => format!("F:{s}"),
        })
        .collect();
    assert_eq!(texts, vec!["A:r2", "F:ERROR: e2", "A:r3", "F:ERROR: e3"]);
    // the log itself is untouched
    assert_eq!(state.to_chat_history(10).len(), 6);
}

#[test]
fn unparsed_response_appends_exactly_one_record() {
    let (tx, _rx) = channel();
    let registry = Registry::new();
    let mut state = State::new(tx, plain_task(Some(vec![])), &registry, 0).unwrap();
    assert_eq!(state.to_chat_history(10).len(), 0);
    state.add_unparsed_response_to_history("gibberish", "could not parse".to_string());
    let window = state.to_chat_history(10);
    assert_eq!(window.len(), 2);
    assert!(matches!(&window[0], Message::Agent(s) if s == "gibberish"));
    assert!(matches!(&window[1], Message::Feedback(s) if s == "ERROR: could not parse"));
}

#[test]
fn rag_query_without_configuration_is_refused() {
    let (tx, _rx) = channel();
    let registry = Registry::new();
    let state = State::new(tx, plain_task(Some(vec![])), &registry, 0).unwrap();
    let err = state.rag_query("question", 3).unwrap_err();
    assert_eq!(err.message(), "no RAG engine has been configured");
}

#[test]
fn rag_query_with_configuration_is_granted() {
    let (tx, _rx) = channel();
    let mut registry = Registry::new();
    registry.register("rag".to_string(), named_namespace("Retrieval", false));
    let mut task = plain_task(Some(vec![]));
    task.rag = Some(RagConfig {
        source_path: "docs".to_string(),
        data_path: "data".to_string(),
        chunk_size: None,
    });
    let state = State::new(tx, task, &registry, 0).unwrap();
    let q = state.rag_query("question", 3).unwrap();
    assert_eq!(q.query, "question");
    assert_eq!(q.top_k, 3);
    // the retrieval namespace was appended to the active set
    assert_eq!(state.get_namespaces().len(), 1);
}

#[test]
fn top_k_selection_sorts_by_non_increasing_score() {
    let doc = |name: &str, score: u64| ScoredDocument {
        name: name.to_string(),
        data: String::new(),
        score,
    };
    let docs = vec![doc("a", 10), doc("b", 50), doc("c", 30), doc("d", 50)];
    let picked = select_top_k(docs, 2);
    assert_eq!(picked.len(), 2);
    assert_eq!(picked[0].score, 50);
    assert_eq!(picked[1].score, 50);

    let docs = vec![doc("a", 10), doc("b", 50), doc("c", 30)];
    let all = select_top_k(docs, 10);
    let scores: Vec<u64> = all.iter().map(|d| d.score).collect();
    assert_eq!(scores, vec![50, 30, 10]);

    let docs = vec![doc("a", 10)];
    assert!(select_top_k(docs, 0).is_empty());
}

#[test]
fn completion_flag_is_set_and_the_terminal_event_emitted() {
    let (tx, mut rx) = channel();
    let registry = Registry::new();
    let mut state = State::new(tx, plain_task(Some(vec![])), &registry, 0).unwrap();
    assert!(!state.is_complete());
    state
        .on_complete(true, Some("unreachable target".to_string()))
        .unwrap();
    assert!(state.is_complete());
    match rx.try_recv().unwrap() {
        Event::TaskComplete { impossible, reason } => {
            assert!(impossible);
            assert_eq!(reason.as_deref(), Some("unreachable target"));
        }
        _ => panic!("expected the completion event"),
    }
}

#[test]
fn event_send_fails_once_the_receiver_is_gone() {
    let (tx, rx) = channel();
    let registry = Registry::new();
    let state = State::new(tx, plain_task(Some(vec![])), &registry, 0).unwrap();
    assert!(state.on_event(Event::StepRecorded).is_ok());
    drop(rx);
    let err = state.on_event(Event::StepRecorded).unwrap_err();
    assert_eq!(err.message(), "events channel closed");
}

#[test]
fn base_url_is_rewritten_from_the_model_address() {
    let client = OpenAiCompatibleClient::new("ollama", 11434, "localhost:8000", 0).unwrap();
    assert_eq!(client.base_url(), "http://localhost:8000/");
    let client = OpenAiCompatibleClient::new("ollama", 11434, "localhost:8000/", 0).unwrap();
    assert_eq!(client.base_url(), "http://localhost:8000/");
}

#[test]
fn error_messages_match_their_conditions() {
    assert_eq!(
        AgentError::NamespaceNotFound("x".to_string()).message(),
        "no namespace 'x' defined"
    );
    assert_eq!(
        AgentError::MissingRequiredVariable("HTTP_TARGET".to_string()).message(),
        "required variable 'HTTP_TARGET' not defined"
    );
    assert_eq!(AgentError::ActionTimeout.message(), "action timed out");
}

#[test]
fn top_k_keeps_the_highest_scored_documents() {
    let doc = |name: &str, score: u64| ScoredDocument {
        name: name.to_string(),
        data: String::new(),
        score,
    };
    let docs = vec![doc("low", 1), doc("high", 9), doc("mid", 5), doc("top", 9)];
    let kept = select_top_k(docs, 2);
    let names: Vec<String> = kept.iter().map(|d| d.name.clone()).collect();
    assert!(names.contains(&"high".to_string()) && names.contains(&"top".to_string()));
}

#[test]
fn the_system_prompt_lists_each_namespace_and_action() {
    let (tx, _rx) = channel();
    let mut registry = Registry::new();
    registry.register("http".to_string(), get_namespace());
    let state = State::new(tx, plain_task(Some(vec!["http"])), &registry, 0).unwrap();
    let prompt = state.build_prompt();
    assert!(prompt.starts_with("do the thing\n"));
    assert!(prompt.contains("\n# Web\n"));
    assert!(prompt.contains("- http-set-header: "));
    assert!(prompt.contains("- http-clear-headers: "));
    assert!(prompt.contains("- http-request: "));
}
