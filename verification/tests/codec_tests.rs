use orion_core::codec::{deserialize, serialize};
use orion_core::models::{
    Action, Command, IpcMessage, SearchQuery, SearchResponse, SearchResult,
};

fn round_trip(message: IpcMessage) {
    let bytes = serialize(&message);
    let back = deserialize(&bytes).expect("a serialized message must deserialize");
    assert_eq!(back, message);
}

#[test]
fn search_query_round_trip() {
    round_trip(IpcMessage::SearchQuery(SearchQuery {
        text: "open the calculator".to_string(),
        max_results: 10,
    }));
}

#[test]
fn search_query_unicode_round_trip() {
    round_trip(IpcMessage::SearchQuery(SearchQuery {
        text: "caf\u{e9} \u{2603} \u{1f600}".to_string(),
        max_results: 3,
    }));
}

#[test]
fn search_response_round_trip() {
    let results = vec![
        SearchResult {
            title: "Calculator".to_string(),
            description: Some("Open calculator".to_string()),
            action: Action::OpenUrl("calc://".to_string()),
            score: 1,
        },
        SearchResult {
            title: "Terminal".to_string(),
            description: None,
            action: Action::ExecuteCommand("xterm".to_string()),
            score: 1,
        },
    ];
    round_trip(IpcMessage::SearchResponse(SearchResponse {
        results,
        query: SearchQuery { text: "ca".to_string(), max_results: 10 },
    }));
}

#[test]
fn empty_response_round_trip() {
    round_trip(IpcMessage::SearchResponse(SearchResponse {
        results: Vec::new(),
        query: SearchQuery { text: String::new(), max_results: 1 },
    }));
}

#[test]
fn command_round_trip() {
    round_trip(IpcMessage::Command(Command {
        name: "Notes".to_string(),
        description: "Open the notes file".to_string(),
        action: Action::OpenFile("/home/user/notes.txt".to_string()),
        keywords: vec!["notes".to_string(), "text".to_string()],
    }));
}

#[test]
fn custom_action_round_trip() {
    round_trip(IpcMessage::Command(Command {
        name: "Raw".to_string(),
        description: String::new(),
        action: Action::Custom("payload".to_string()),
        keywords: Vec::new(),
    }));
}

#[test]
fn config_update_round_trip() {
    round_trip(IpcMessage::ConfigUpdate);
}

#[test]
fn redirect_round_trip() {
    round_trip(IpcMessage::Redirect(
        "https://en.wikipedia.org/wiki/Rust programming".to_string(),
    ));
}

#[test]
fn error_round_trip() {
    round_trip(IpcMessage::Error("transport timed out".to_string()));
}

#[test]
fn empty_buffer_is_malformed() {
    let empty: Vec<u8> = Vec::new();
    assert!(deserialize(&empty).is_err());
}

#[test]
fn unknown_tag_is_malformed() {
    let bogus = vec![99u8, 0, 0, 0];
    assert!(deserialize(&bogus).is_err());
}

#[test]
fn truncated_message_is_malformed() {
    let mut bytes = serialize(&IpcMessage::Redirect("https://example.org".to_string()));
    bytes.pop();
    assert!(deserialize(&bytes).is_err());
}

#[test]
fn invalid_utf8_in_a_string_is_malformed() {
    let mut bytes = serialize(&IpcMessage::Redirect("AB".to_string()));
    // Corrupt the last payload byte into an invalid UTF-8 byte.
    let last = bytes.len() - 1;
    bytes[last] = 0xff;
    assert!(deserialize(&bytes).is_err());
}

#[test]
fn trailing_bytes_are_malformed() {
    let mut bytes = serialize(&IpcMessage::ConfigUpdate);
    bytes.push(0);
    assert!(deserialize(&bytes).is_err());
}
