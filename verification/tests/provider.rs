use switchyard::domain::{Message, MessageRole};
use switchyard::provider::{
    chat_response_from_events, ChatStream, StreamInput, StreamNext, env_with_fallback, http_failure_message, llama_cpp_message_from_message,
    llama_cpp_stream_events, llama_cpp_stream_payload, models_from_names, offline_context,
    ollama_message_from_message, ollama_stream_events, split_complete_lines, LlamaCppDelta,
    LocalProvider, OllamaResponseMessage, ProviderSettings, StreamEvent,
};

fn names_of(json: &str, list: &str, field: &str) -> Vec<String> {
    let value: serde_json::Value = serde_json::from_str(json).unwrap();
    value[list]
        .as_array()
        .unwrap()
        .iter()
        .map(|entry| entry[field].as_str().unwrap().to_string())
        .collect()
}

#[test]
fn parses_ollama_tag_models() {
    let names = names_of(
        r#"{"models":[{"name":"llama3.2"},{"name":"qwen2.5:7b"}]}"#,
        "models",
        "name",
    );

    let models = models_from_names(names);

    assert_eq!(models[0].name, "llama3.2");
    assert_eq!(models[1].name, "qwen2.5:7b");
}

#[test]
fn parses_llama_cpp_models() {
    let names = names_of(r#"{"data":[{"id":"model-a"},{"id":"model-b"}]}"#, "data", "id");

    let models = models_from_names(names);

    assert_eq!(models[0].name, "model-a");
    assert_eq!(models[1].name, "model-b");
}

#[test]
fn filters_empty_and_duplicate_models() {
    let models = models_from_names(vec!["a".to_string(), "".to_string(), "a".to_string()]);

    assert_eq!(models.len(), 1);
    assert_eq!(models[0].name, "a");
}

#[test]
fn provider_offline_context_is_actionable() {
    let message = offline_context(
        "Ollama",
        "send chat request",
        "http://localhost:11434/api/chat",
    );

    assert!(message.contains("Ollama is unreachable"));
    assert!(message.contains("make sure the provider is running"));
    assert!(message.contains("http://localhost:11434/api/chat"));
}

#[test]
fn not_found_http_failure_suggests_installed_model() {
    let message = http_failure_message("Ollama", "chat request", 404, "model not found");

    assert!(message.contains("HTTP 404 Not Found"));
    assert!(message.contains("choose an installed model with /model"));
    assert!(message.contains("pull/load the model"));
}

#[test]
fn http_failure_message_reports_empty_body() {
    let message = http_failure_message("llama.cpp", "model discovery", 500, "  \n");
    assert_eq!(
        message,
        "llama.cpp model discovery failed with HTTP 500 Internal Server Error: empty response body"
    );
}

#[test]
fn env_with_fallback_prefers_project_then_provider_variable() {
    assert_eq!(env_with_fallback(Some("a"), Some("b"), "c"), "a");
    assert_eq!(env_with_fallback(None, Some("b"), "c"), "b");
    assert_eq!(env_with_fallback(None, None, "c"), "c");
}

#[test]
fn provider_names_select_provider_and_trim_base_url() {
    let mut settings = ProviderSettings::defaults();
    settings.llama_cpp_base_url = "http://host:1//".to_string();
    let llama = LocalProvider::from_name("Llama-CPP", &settings);
    assert_eq!(llama.name(), "llama.cpp");
    assert_eq!(llama.chat_url(), "http://host:1/v1/chat/completions");
    let ollama = LocalProvider::from_name("anything", &settings);
    assert_eq!(ollama.name(), "Ollama");
    assert_eq!(ollama.chat_url(), "http://localhost:11434/api/chat");
    assert_eq!(
        LocalProvider::default_model_for("llamacpp", &settings).name,
        "local-model"
    );
    assert_eq!(
        LocalProvider::default_model_for("Ollama", &settings).name,
        "llama3.2"
    );
}

#[test]
fn only_chat_roles_are_sent() {
    let user = Message { role: MessageRole::User, content: "hi".to_string() };
    let sent = ollama_message_from_message(user).unwrap();
    assert_eq!(sent.role, "user");
    assert_eq!(sent.content, "hi");
    let system = Message { role: MessageRole::System, content: "s".to_string() };
    assert_eq!(llama_cpp_message_from_message(system).unwrap().role, "system");
    let reasoning = Message { role: MessageRole::Reasoning, content: "r".to_string() };
    assert!(ollama_message_from_message(reasoning).is_none());
    let diagnostic = Message { role: MessageRole::Diagnostic, content: "d".to_string() };
    assert!(llama_cpp_message_from_message(diagnostic).is_none());
}

fn texts(events: &[StreamEvent]) -> Vec<(bool, String)> {
    events
        .iter()
        .filter_map(|e| match e {
            StreamEvent::ReasoningChunk(s) => Some((true, s.clone())),
            StreamEvent::Chunk(s) => Some((false, s.clone())),
            _ => None,
        })
        .collect()
}

#[test]
fn ollama_lines_give_thinking_then_content() {
    let events = ollama_stream_events(Some(OllamaResponseMessage {
        content: "answer".to_string(),
        thinking: Some("hmm".to_string()),
    }));
    assert_eq!(
        texts(&events),
        vec![(true, "hmm".to_string()), (false, "answer".to_string())]
    );
    let events = ollama_stream_events(Some(OllamaResponseMessage {
        content: String::new(),
        thinking: Some(String::new()),
    }));
    assert!(events.is_empty());
    assert!(ollama_stream_events(None).is_empty());
}

#[test]
fn llama_cpp_lines_give_events_per_choice() {
    assert_eq!(llama_cpp_stream_payload("data: {\"x\":1} "), Some("{\"x\":1}"));
    assert_eq!(llama_cpp_stream_payload("data: [DONE]"), None);
    assert_eq!(llama_cpp_stream_payload(": keep-alive"), None);
    assert_eq!(llama_cpp_stream_payload(""), None);
    let events = llama_cpp_stream_events(vec![
        LlamaCppDelta { content: Some("a".to_string()), reasoning_content: Some("r".to_string()) },
        LlamaCppDelta { content: None, reasoning_content: None },
        LlamaCppDelta { content: Some("b".to_string()), reasoning_content: Some(String::new()) },
    ]);
    assert_eq!(
        texts(&events),
        vec![(true, "r".to_string()), (false, "a".to_string()), (false, "b".to_string())]
    );
}

#[test]
fn stream_text_is_cut_into_trimmed_lines() {
    let (lines, rest) = split_complete_lines(" one \n\ntwo\r\npart");
    assert_eq!(lines, vec!["one".to_string(), String::new(), "two".to_string()]);
    assert_eq!(rest, "part");
    let (lines, rest) = split_complete_lines("no newline");
    assert!(lines.is_empty());
    assert_eq!(rest, "no newline");
}

#[test]
fn reply_joins_reply_chunks_and_skips_reasoning() {
    let events = vec![
        StreamEvent::InitialResponse { status: 200, initial_response_time_ms: 3 },
        StreamEvent::ReasoningChunk("thinking".to_string()),
        StreamEvent::Chunk("Hel".to_string()),
        StreamEvent::Chunk("lo".to_string()),
        StreamEvent::Complete { total_time_ms: 9 },
    ];
    let response = chat_response_from_events(&events);
    assert_eq!(response.message.content, "Hello");
    assert_eq!(response.message.role, switchyard::domain::MessageRole::Assistant);
}

#[test]
fn chat_stream_reports_lines_and_completion() {
    let mut stream = ChatStream::new("Ollama");
    assert!(!stream.expects(&StreamInput::Chunk(vec![])));
    let input = StreamInput::Response { status: 200, elapsed_ms: 5 };
    assert!(stream.expects(&input));
    let step = stream.step(input);
    assert!(matches!(
        step.before.as_slice(),
        [StreamEvent::InitialResponse { status: 200, initial_response_time_ms: 5 }]
    ));
    assert!(matches!(step.next, StreamNext::ReadChunk));

    let step = stream.step(StreamInput::Chunk(b" {\"a\":1} \n{\"b".to_vec()));
    assert_eq!(step.lines, vec!["{\"a\":1}".to_string()]);
    assert!(matches!(step.next, StreamNext::ReadChunk));
    let step = stream.step(StreamInput::Chunk(b"\":2}\n{\"c\":3}".to_vec()));
    assert_eq!(step.lines, vec!["{\"b\":2}".to_string()]);

    let step = stream.step(StreamInput::End { elapsed_ms: 9 });
    assert_eq!(step.lines, vec!["{\"c\":3}".to_string()]);
    assert!(matches!(step.after.as_slice(), [StreamEvent::Complete { total_time_ms: 9 }]));
    assert!(matches!(step.next, StreamNext::Finished));
    assert!(!stream.expects(&StreamInput::End { elapsed_ms: 10 }));
}

#[test]
fn chat_stream_fails_on_error_status_and_bad_utf8() {
    let mut stream = ChatStream::new("Ollama");
    let step = stream.step(StreamInput::Response { status: 404, elapsed_ms: 1 });
    assert!(matches!(step.next, StreamNext::ReadErrorBody));
    let step = stream.step(StreamInput::ErrorBody("model not found".to_string()));
    match step.next {
        StreamNext::Fail(message) => assert_eq!(
            message,
            "Ollama chat request failed with HTTP 404 Not Found: model not found. If this is a model error, choose an installed model with /model or pull/load the model in Ollama."
        ),
        _ => panic!("expected a failure"),
    }

    let mut stream = ChatStream::new("llama.cpp");
    stream.step(StreamInput::Response { status: 200, elapsed_ms: 1 });
    let step = stream.step(StreamInput::Chunk(vec![0xff, b'\n']));
    match step.next {
        StreamNext::Fail(message) => {
            assert_eq!(
                message,
                "llama.cpp stream response was not valid UTF-8: invalid utf-8 sequence of 1 bytes from index 0"
            )
        }
        _ => panic!("expected a failure"),
    }
    assert!(step.lines.is_empty());
}

#[test]
fn success_statuses_and_ollama_payloads() {
    assert!(switchyard::provider::is_success(200));
    assert!(switchyard::provider::is_success(299));
    assert!(!switchyard::provider::is_success(300));
    assert!(!switchyard::provider::is_success(199));
    assert_eq!(switchyard::provider::ollama_stream_payload(""), None);
    assert_eq!(switchyard::provider::ollama_stream_payload("{}"), Some("{}"));
}
