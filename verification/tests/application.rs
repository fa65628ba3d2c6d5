use switchyard::application::{
    centered_rect, devtools_height, scroll_limit, devtools_tab_highlighted, format_duration, is_displayed,
    message_border_color, prompt_height, push_menu_item, wrapped_line_count, DevtoolsTab, Key,
    KeyAction, Menu, MenuKind, ProviderEvent, Rect, RequestLog, Selection, State,
};
use switchyard::domain::{Message, MessageRole, Model, Provider};
use switchyard::log::TermColor;
use switchyard::provider::{LocalProvider, ProviderSettings};

fn new_state() -> State {
    State::new(Model::from("llama3.2"), Provider::from("Ollama"))
}

fn type_text(state: &mut State, text: &str, settings: &ProviderSettings) {
    for c in text.chars() {
        assert!(matches!(
            state.handle_key(Key::Char { c, control: false }, settings),
            KeyAction::Continue
        ));
    }
}

#[test]
fn model_menu_includes_current_default_and_discovered_models_once() {
    let settings = ProviderSettings::defaults();
    let provider = Provider::from("Ollama");
    let current_model = Model::from("custom");

    let menu = Menu::model(
        &provider,
        &current_model,
        vec!["llama3.2".into(), "qwen2.5".into(), "custom".into()],
        &settings,
    );

    assert_eq!(menu.items, vec!["custom", "llama3.2", "qwen2.5"]);
}

#[test]
fn provider_menu_selects_current_provider_ignoring_case() {
    let menu = Menu::provider(&Provider::from("LLAMA.CPP"));
    assert_eq!(menu.items, vec!["Ollama", "llama.cpp"]);
    assert_eq!(menu.selected, 1);
    assert!(matches!(menu.kind, MenuKind::Provider));
    assert_eq!(menu.title, "Choose Provider");

    let unknown = Menu::provider(&Provider::from("other"));
    assert_eq!(unknown.selected, 0);
}

#[test]
fn menu_selection_stays_in_bounds() {
    let settings = ProviderSettings::defaults();
    let mut menu = Menu::model(
        &Provider::from("Ollama"),
        &Model::from("llama3.2"),
        vec!["a".into()],
        &settings,
    );
    assert_eq!(menu.items, vec!["llama3.2", "a"]);
    menu.previous();
    assert_eq!(menu.selected, 0);
    menu.next();
    assert_eq!(menu.selected, 1);
    menu.next();
    assert_eq!(menu.selected, 1);
}

#[test]
fn push_menu_item_skips_empty_and_duplicate_names() {
    let mut items = Vec::new();
    push_menu_item(&mut items, "a");
    push_menu_item(&mut items, "");
    push_menu_item(&mut items, "a");
    push_menu_item(&mut items, "b");
    assert_eq!(items, vec!["a", "b"]);
}

#[test]
fn formats_durations_in_milliseconds() {
    assert_eq!(format_duration(Some(1234)), "1234ms");
    assert_eq!(format_duration(Some(0)), "0ms");
    assert_eq!(format_duration(None), "pending");
}

#[test]
fn request_log_line_shows_status_or_error() {
    let mut request = RequestLog {
        method: "POST",
        url: "http://localhost:11434/api/chat".to_string(),
        model: "llama3.2".to_string(),
        status: Some(200),
        initial_response_time_ms: Some(12),
        total_time_ms: None,
        error: None,
    };
    assert_eq!(
        request.line(),
        "POST http://localhost:11434/api/chat 200 llama3.2 initial: 12ms total: pending"
    );
    request.status = None;
    request.error = Some("boom".to_string());
    request.total_time_ms = Some(40);
    assert_eq!(
        request.line(),
        "POST http://localhost:11434/api/chat ERROR boom llama3.2 initial: 12ms total: 40ms"
    );
    request.error = None;
    assert_eq!(
        request.line(),
        "POST http://localhost:11434/api/chat UNKNOWN llama3.2 initial: 12ms total: 40ms"
    );
}

#[test]
fn wraps_lines_at_width() {
    assert_eq!(wrapped_line_count("", 10), 1);
    assert_eq!(wrapped_line_count("abcdefghij", 10), 1);
    assert_eq!(wrapped_line_count("abcdefghijk", 10), 2);
    assert_eq!(wrapped_line_count("ab\ncd\n", 10), 3);
    assert_eq!(wrapped_line_count("abc", 0), 3);
}

#[test]
fn prompt_height_stays_between_three_and_eight_rows() {
    assert_eq!(prompt_height("", 80, 40), 3);
    assert_eq!(prompt_height("a\nb\nc", 80, 40), 5);
    assert_eq!(prompt_height("1\n2\n3\n4\n5\n6\n7\n8\n9", 80, 40), 8);
    assert_eq!(prompt_height("1\n2\n3\n4\n5", 80, 6), 6);
}

#[test]
fn devtools_height_is_a_third_of_the_rest() {
    assert_eq!(devtools_height(false, 40, 3), 0);
    assert_eq!(devtools_height(true, 40, 3), 12);
    assert_eq!(devtools_height(true, 10, 3), 3);
}

#[test]
fn centers_rectangles() {
    let area = Rect { x: 0, y: 0, width: 80, height: 24 };
    assert_eq!(
        centered_rect(area, 40, 10),
        Rect { x: 20, y: 7, width: 40, height: 10 }
    );
    assert_eq!(
        centered_rect(area, 100, 30),
        Rect { x: 0, y: 0, width: 80, height: 24 }
    );
}

#[test]
fn reasoning_messages_show_once_they_have_content() {
    let empty = Message { role: MessageRole::Reasoning, content: String::new() };
    let full = Message { role: MessageRole::Reasoning, content: "x".to_string() };
    let reply = Message { role: MessageRole::Assistant, content: String::new() };
    assert!(!is_displayed(&empty));
    assert!(is_displayed(&full));
    assert!(is_displayed(&reply));
}

#[test]
fn colours_messages_and_tabs() {
    assert_eq!(message_border_color(MessageRole::User), TermColor::Blue);
    assert_eq!(message_border_color(MessageRole::Diagnostic), TermColor::Red);
    assert_eq!(message_border_color(MessageRole::Reasoning), TermColor::Cyan);
    assert!(devtools_tab_highlighted(DevtoolsTab::Logs, DevtoolsTab::Logs));
    assert!(!devtools_tab_highlighted(DevtoolsTab::Logs, DevtoolsTab::Requests));
    assert_eq!(DevtoolsTab::Logs.toggle(), DevtoolsTab::Requests);
}

#[test]
fn escape_exits_and_f12_toggles_devtools() {
    let settings = ProviderSettings::defaults();
    let mut state = new_state();
    assert!(matches!(state.handle_key(Key::F12, &settings), KeyAction::Continue));
    assert!(state.devtools_visible);
    assert!(matches!(state.handle_key(Key::Tab, &settings), KeyAction::Continue));
    assert_eq!(state.devtools_tab, DevtoolsTab::Requests);
    assert!(matches!(state.handle_key(Key::F12, &settings), KeyAction::Continue));
    assert!(!state.devtools_visible);
    assert!(matches!(state.handle_key(Key::Esc, &settings), KeyAction::Exit));
}

#[test]
fn typing_and_backspace_edit_the_input() {
    let settings = ProviderSettings::defaults();
    let mut state = new_state();
    type_text(&mut state, "hi", &settings);
    state.handle_key(Key::Char { c: 'j', control: true }, &settings);
    state.handle_key(Key::Enter { control: true }, &settings);
    assert_eq!(state.input, "hi\n\n");
    state.handle_key(Key::Backspace, &settings);
    assert_eq!(state.input, "hi\n");
}

#[test]
fn scrolling_the_transcript_stops_following_its_end() {
    let settings = ProviderSettings::defaults();
    let mut state = new_state();
    state.handle_key(Key::PageDown, &settings);
    assert_eq!(state.messages_scroll, 5);
    state.handle_key(Key::Up, &settings);
    assert_eq!(state.messages_scroll, 4);
    assert!(!state.messages_follow_tail);
    state.handle_key(Key::PageUp, &settings);
    assert_eq!(state.messages_scroll, 0);
}

#[test]
fn enter_sends_a_prompt_as_chat_request() {
    let settings = ProviderSettings::defaults();
    let mut state = new_state();
    type_text(&mut state, "  hello ", &settings);
    let action = state.handle_key(Key::Enter { control: false }, &settings);
    match action {
        KeyAction::SendChat(dispatch) => {
            assert_eq!(dispatch.request.model.name, "llama3.2");
            assert_eq!(dispatch.request.messages.len(), 1);
            assert_eq!(dispatch.request.messages[0].content, "hello");
            assert_eq!(dispatch.request_index, 0);
            assert_eq!(dispatch.reasoning_message_index, 1);
            assert_eq!(dispatch.message_index, 2);
            assert!(matches!(dispatch.provider, LocalProvider::Ollama(_)));
        }
        _ => panic!("expected a chat request"),
    }
    assert_eq!(state.input, "");
    assert_eq!(state.session.messages.len(), 3);
    assert_eq!(state.requests.len(), 1);
    assert_eq!(state.requests[0].method, "POST");
    assert_eq!(state.requests[0].url, "http://localhost:11434/api/chat");
}

#[test]
fn enter_runs_commands() {
    let settings = ProviderSettings::defaults();
    let mut state = new_state();
    type_text(&mut state, "/provider llama.cpp", &settings);
    assert!(matches!(
        state.handle_key(Key::Enter { control: false }, &settings),
        KeyAction::Continue
    ));
    assert_eq!(state.provider.name, "llama.cpp");
    assert_eq!(state.model.name, "local-model");
    assert_eq!(state.input, "");
    assert_eq!(
        state.session.messages.last().map(|m| m.content.clone()),
        Some("Provider set to llama.cpp. Model set to local-model.".to_string())
    );

    type_text(&mut state, "/model", &settings);
    assert!(matches!(
        state.handle_key(Key::Enter { control: false }, &settings),
        KeyAction::DiscoverModels(LocalProvider::LlamaCpp(_))
    ));
    assert!(state.menu.is_some());
}

#[test]
fn choosing_from_the_provider_menu_switches_provider() {
    let settings = ProviderSettings::defaults();
    let mut state = new_state();
    type_text(&mut state, "/provider", &settings);
    state.handle_key(Key::Enter { control: false }, &settings);
    assert!(state.menu.is_some());
    state.handle_key(Key::Down, &settings);
    state.handle_key(Key::Enter { control: false }, &settings);
    assert!(state.menu.is_none());
    assert_eq!(state.provider.name, "llama.cpp");
    assert_eq!(state.model.name, "local-model");
}

#[test]
fn provider_events_update_requests_and_messages() {
    let settings = ProviderSettings::defaults();
    let mut state = new_state();
    type_text(&mut state, "hello", &settings);
    state.handle_key(Key::Enter { control: false }, &settings);

    state.apply_provider_event(
        ProviderEvent::InitialResponse { request_index: 0, status: 200, initial_response_time_ms: 7 },
        &settings,
    );
    state.apply_provider_event(
        ProviderEvent::Chunk { message_index: 2, content: "Hi".to_string() },
        &settings,
    );
    state.apply_provider_event(
        ProviderEvent::Chunk { message_index: 2, content: " there".to_string() },
        &settings,
    );
    state.apply_provider_event(
        ProviderEvent::Complete { request_index: 0, total_time_ms: 30 },
        &settings,
    );
    assert_eq!(state.session.messages[2].content, "Hi there");
    assert_eq!(state.requests[0].status, Some(200));
    assert_eq!(state.requests[0].initial_response_time_ms, Some(7));
    assert_eq!(state.requests[0].total_time_ms, Some(30));
    assert_eq!(state.devtools_scroll, u16::MAX);
}

#[test]
fn failed_request_marks_the_empty_reply() {
    let settings = ProviderSettings::defaults();
    let mut state = new_state();
    type_text(&mut state, "hello", &settings);
    state.handle_key(Key::Enter { control: false }, &settings);
    state.apply_provider_event(
        ProviderEvent::Failure {
            request_index: 0,
            message_index: 2,
            error: "offline".to_string(),
            total_time_ms: 5,
        },
        &settings,
    );
    assert_eq!(state.session.messages[2].content, "[request failed]");
    assert_eq!(
        state.session.messages.last().map(|m| m.content.clone()),
        Some("Ollama request failed: offline".to_string())
    );
    assert_eq!(state.requests[0].error, Some("offline".to_string()));
    assert_eq!(state.requests[0].status, None);
}

#[test]
fn discovered_models_refresh_the_open_model_menu() {
    let settings = ProviderSettings::defaults();
    let mut state = new_state();
    type_text(&mut state, "/model", &settings);
    state.handle_key(Key::Enter { control: false }, &settings);
    state.apply_provider_event(
        ProviderEvent::ModelsDiscovered {
            provider: "Ollama".to_string(),
            models: vec![Model::from("qwen2.5"), Model::from("llama3.2")],
        },
        &settings,
    );
    assert_eq!(state.menu.as_ref().map(|m| m.items.clone()), Some(vec![
        "llama3.2".to_string(),
        "qwen2.5".to_string()
    ]));

    state.apply_provider_event(
        ProviderEvent::ModelDiscoveryFailed { provider: "Ollama".to_string(), error: "down".to_string() },
        &settings,
    );
    assert_eq!(
        state.session.messages.last().map(|m| m.content.clone()),
        Some("Model discovery failed: down".to_string())
    );
}

#[test]
fn scroll_positions_are_clamped_to_what_is_drawn() {
    let settings = ProviderSettings::defaults();
    let mut state = new_state();
    state.clamp_messages_scroll(10, 5);
    assert_eq!(state.messages_scroll, 0);

    state.push_diagnostic("a".repeat(25));
    assert_eq!(state.messages_scroll, u16::MAX);
    // 25 characters wrap to 3 rows at 10 columns, the rule takes 1 row, and
    // a pane of 2 rows shows the last 2 of those 4.
    state.clamp_messages_scroll(10, 2);
    assert_eq!(state.messages_scroll, 2);
    state.clamp_messages_scroll(10, 100);
    assert_eq!(state.messages_scroll, 0);

    let logs = vec!["x".repeat(30)];
    state.clamp_devtools_scroll(&logs, 10, 1);
    assert_eq!(state.devtools_scroll, u16::MAX);
    state.handle_key(Key::F12, &settings);
    state.clamp_devtools_scroll(&logs, 10, 1);
    assert_eq!(state.devtools_scroll, 2);
    state.handle_key(Key::Tab, &settings);
    state.clamp_devtools_scroll(&logs, 10, 1);
    assert_eq!(state.devtools_scroll, 0);
}

#[test]
fn transcript_pane_shows_messages_with_rules() {
    let mut state = new_state();
    state.push_diagnostic("hi".to_string());
    state.session.messages.push(Message { role: MessageRole::Reasoning, content: String::new() });
    assert_eq!(state.message_pane_lines(3), vec!["hi".to_string(), "\u{2500}".repeat(3)]);
    assert_eq!(scroll_limit(10, 4), 6);
    assert_eq!(scroll_limit(3, 4), 0);
    assert_eq!(scroll_limit(100_000, 0), u16::MAX);
    assert_eq!(scroll_limit(5, 0), 4);
}

#[test]
fn restores_the_saved_selection() {
    let settings = ProviderSettings::defaults();
    let saved = Selection {
        devtools_visible: true,
        provider: "LLAMACPP".to_string(),
        model: "qwen".to_string(),
    };
    let state = State::restore(Some(saved), "ollama", &settings);
    assert!(state.devtools_visible);
    assert_eq!(state.provider.name, "llama.cpp");
    assert_eq!(state.model.name, "qwen");
    assert!(state.menu.is_none());
    assert!(state.session.messages.is_empty());

    let kept = state.selection();
    assert!(kept.devtools_visible);
    assert_eq!(kept.provider, "llama.cpp");
    assert_eq!(kept.model, "qwen");
}

#[test]
fn starts_from_the_environment_without_a_saved_selection() {
    let settings = ProviderSettings::defaults();
    let state = State::restore(None, "llama-cpp", &settings);
    assert!(!state.devtools_visible);
    assert_eq!(state.provider.name, "llama.cpp");
    assert_eq!(state.model.name, "local-model");

    let state = State::restore(None, "anything", &settings);
    assert_eq!(state.provider.name, "Ollama");
    assert_eq!(state.model.name, "llama3.2");
}

#[test]
fn prompts_go_to_the_selected_provider() {
    let mut settings = ProviderSettings::defaults();
    settings.llama_cpp_base_url = "http://host:9000//".to_string();
    let mut state = new_state();
    type_text(&mut state, "/provider llama.cpp", &settings);
    state.handle_key(Key::Enter { control: false }, &settings);
    type_text(&mut state, "hello", &settings);
    match state.handle_key(Key::Enter { control: false }, &settings) {
        KeyAction::SendChat(dispatch) => match dispatch.provider {
            LocalProvider::LlamaCpp(p) => assert_eq!(p.base_url, "http://host:9000"),
            _ => panic!("expected llama.cpp"),
        },
        _ => panic!("expected a chat request"),
    }
    type_text(&mut state, "/model", &settings);
    match state.handle_key(Key::Enter { control: false }, &settings) {
        KeyAction::DiscoverModels(LocalProvider::LlamaCpp(p)) => {
            assert_eq!(p.base_url, "http://host:9000")
        }
        _ => panic!("expected model discovery on llama.cpp"),
    }
}
