use orion_core::models::{Action, IpcMessage, SearchResponse, SearchResult, SearchQuery};
use orion_core::popup::{AppState, Message, NavKey, SearchUI, MAX_HISTORY, SEARCH_DELAY_MS};

fn result(title: &str) -> SearchResult {
    SearchResult {
        title: title.to_string(),
        description: Some(format!("about {}", title)),
        action: Action::OpenUrl(format!("https://{}", title)),
        score: 1,
    }
}

#[test]
fn typing_queues_a_search() {
    let mut ui = SearchUI::new();
    assert!(ui.update(Message::SearchInputChanged("cal".to_string())));
    assert!(!ui.update(Message::CloseRequested));
    assert!(!ui.update(Message::ExecuteCommand));
    assert_eq!(ui.get_search_query(), SearchQuery { text: "cal".to_string(), max_results: 10 });
}

#[test]
fn selection_follows_the_results() {
    let mut ui = SearchUI::new();
    ui.set_results(vec![result("a"), result("b")]);
    // A fresh list selects the first result.
    assert_eq!(ui.get_selected_result().unwrap().title, "a");
    ui.select_next();
    assert_eq!(ui.get_selected_result().unwrap().title, "b");
    ui.select_next();
    assert_eq!(ui.get_selected_result().unwrap().title, "b");
    ui.select_previous();
    assert_eq!(ui.get_selected_result().unwrap().title, "a");
    ui.select_previous();
    assert_eq!(ui.get_selected_result().unwrap().title, "a");
}

#[test]
fn shrinking_results_pulls_the_selection_back() {
    let mut ui = SearchUI::new();
    ui.set_results(vec![result("a"), result("b"), result("c")]);
    ui.select_next();
    ui.select_next();
    assert_eq!(ui.get_selected_result().unwrap().title, "c");
    ui.set_results(vec![result("a")]);
    assert_eq!(ui.get_selected_result().unwrap().title, "a");
    ui.set_results(Vec::new());
    assert!(ui.get_selected_result().is_none());
}

#[test]
fn out_of_range_click_is_ignored() {
    let mut ui = SearchUI::new();
    ui.set_results(vec![result("a"), result("b")]);
    assert!(!ui.update(Message::ResultSelected(1)));
    assert_eq!(ui.get_selected_result().unwrap().title, "b");
    assert!(!ui.update(Message::ResultSelected(9)));
    assert_eq!(ui.get_selected_result().unwrap().title, "b");
}

#[test]
fn search_fires_only_after_the_debounce_delay() {
    let mut state = AppState::new();
    assert!(!state.should_perform_search(5_000));
    assert!(state.update_search_ui(Message::SearchInputChanged("ca".to_string()), 1_000));
    assert!(!state.should_perform_search(1_000 + SEARCH_DELAY_MS - 1));
    assert!(state.should_perform_search(1_000 + SEARCH_DELAY_MS));
    assert_eq!(state.get_search_query().unwrap().text, "ca");
}

#[test]
fn results_end_the_search() {
    let mut state = AppState::new();
    assert!(state.update_search_ui(Message::SearchInputChanged("a".to_string()), 10));
    state.process_search_results(vec![result("a")]);
    assert!(!state.should_perform_search(10_000));
    assert!(state.get_search_query().is_none());
}

#[test]
fn enter_turns_the_selection_into_a_command() {
    let mut state = AppState::new();
    state.process_search_results(vec![result("news")]);
    let command = state.handle_keypress(NavKey::Enter).expect("a selected result");
    assert_eq!(command.name, "news");
    assert_eq!(command.description, "about news");
    assert_eq!(command.action, Action::OpenUrl("https://news".to_string()));
    assert_eq!(state.get_command_history(), &vec!["news".to_string()]);
}

#[test]
fn arrows_and_escape_yield_no_command() {
    let mut state = AppState::new();
    state.process_search_results(vec![result("a"), result("b")]);
    assert!(state.handle_keypress(NavKey::ArrowDown).is_none());
    assert!(state.handle_keypress(NavKey::ArrowUp).is_none());
    assert!(state.handle_keypress(NavKey::Escape).is_none());
    assert!(state.handle_keypress(NavKey::Other).is_none());
}

#[test]
fn enter_without_results_does_nothing() {
    let mut state = AppState::new();
    assert!(state.handle_keypress(NavKey::Enter).is_none());
    assert!(state.get_command_history().is_empty());
}

#[test]
fn history_evicts_the_oldest_past_the_cap() {
    let mut state = AppState::new();
    state.process_search_results(vec![result("pick")]);
    for _ in 0..(MAX_HISTORY + 5) {
        assert!(state.handle_keypress(NavKey::Enter).is_some());
    }
    assert_eq!(state.get_command_history().len(), MAX_HISTORY);
}

#[test]
fn incoming_response_updates_the_results() {
    let mut state = AppState::new();
    let message = IpcMessage::SearchResponse(SearchResponse {
        results: vec![result("x")],
        query: SearchQuery { text: "x".to_string(), max_results: 10 },
    });
    assert!(state.process_ipc_message(message).is_none());
    let command = state.handle_keypress(NavKey::Enter).unwrap();
    assert_eq!(command.name, "x");
}

#[test]
fn incoming_redirect_becomes_an_open_url_command() {
    let mut state = AppState::new();
    let command = state
        .process_ipc_message(IpcMessage::Redirect("https://example.org".to_string()))
        .expect("a redirect yields a command");
    assert_eq!(command.name, "Open URL");
    assert_eq!(command.description, "https://example.org");
    assert_eq!(command.action, Action::OpenUrl("https://example.org".to_string()));
}

#[test]
fn other_messages_are_ignored() {
    let mut state = AppState::new();
    assert!(state.process_ipc_message(IpcMessage::ConfigUpdate).is_none());
}
