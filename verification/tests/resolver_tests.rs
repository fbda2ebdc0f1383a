use orion_core::config::Command as ProfileCommand;
use orion_core::models::{Bang, Command, IpcMessage, SearchQuery};
use orion_core::resolver::resolve_query;

fn wiki_bang() -> Bang {
    Bang::new(
        "online".to_string(),
        "en.wikipedia.org".to_string(),
        10,
        "Wikipedia".to_string(),
        "encyclopedia".to_string(),
        "!w".to_string(),
        "https://en.wikipedia.org/wiki/{{{s}}}".to_string(),
    )
}

fn google_bang() -> Bang {
    Bang::new(
        "online".to_string(),
        "google.com".to_string(),
        5,
        "Google".to_string(),
        "search".to_string(),
        "!g".to_string(),
        "https://google.com/search?q={{{s}}}".to_string(),
    )
}

fn calculator_profile() -> Vec<ProfileCommand> {
    vec![
        ProfileCommand {
            name: "Calculator".to_string(),
            url: "calc://open".to_string(),
            description: "Open calculator".to_string(),
        },
        ProfileCommand {
            name: "Terminal".to_string(),
            url: "term://open".to_string(),
            description: "Open a shell".to_string(),
        },
    ]
}

fn query(text: &str, max_results: usize) -> SearchQuery {
    SearchQuery { text: text.to_string(), max_results }
}

#[test]
fn front_bang_redirects() {
    let bangs = vec![wiki_bang()];
    let r = resolve_query(&query("!w Rust programming", 10), &bangs, &Vec::new());
    assert_eq!(
        r,
        IpcMessage::Redirect("https://en.wikipedia.org/wiki/Rust programming".to_string())
    );
}

#[test]
fn front_bang_takes_precedence_over_end_bang() {
    let bangs = vec![wiki_bang(), google_bang()];
    // Both "!w" at the front and "!g" at the end could match; the front wins.
    let r = resolve_query(&query("!w Rust !g", 10), &bangs, &Vec::new());
    assert_eq!(r, IpcMessage::Redirect("https://en.wikipedia.org/wiki/Rust !g".to_string()));
}

#[test]
fn end_bang_redirects() {
    let bangs = vec![wiki_bang()];
    let r = resolve_query(&query("rust language !w", 10), &bangs, &Vec::new());
    assert_eq!(
        r,
        IpcMessage::Redirect("https://en.wikipedia.org/wiki/rust language".to_string())
    );
}

#[test]
fn interior_bang_joins_outer_words() {
    let bangs = vec![google_bang()];
    let r = resolve_query(&query("rust !g language", 10), &bangs, &Vec::new());
    assert_eq!(
        r,
        IpcMessage::Redirect("https://google.com/search?q=rust language".to_string())
    );
}

#[test]
fn fallback_search_matches_description() {
    let r = resolve_query(&query("calc", 10), &Vec::new(), &calculator_profile());
    match r {
        IpcMessage::SearchResponse(response) => {
            assert_eq!(response.results.len(), 1);
            assert_eq!(response.results[0].title, "Calculator");
            assert_eq!(response.results[0].description, Some("Open calculator".to_string()));
            assert_eq!(response.query.text, "calc");
        },
        _ => panic!("expected a search response"),
    }
}

#[test]
fn fallback_search_is_case_insensitive() {
    // Fails if case folding were the identity: "CALC" is no literal
    // substring of "Calculator" or "Open calculator".
    let r = resolve_query(&query("CALC", 10), &Vec::new(), &calculator_profile());
    match r {
        IpcMessage::SearchResponse(response) => {
            assert_eq!(response.results.len(), 1);
            assert_eq!(response.results[0].title, "Calculator");
        },
        _ => panic!("expected a search response"),
    }
}

#[test]
fn unrelated_query_returns_empty_list() {
    let r = resolve_query(&query("zzz", 10), &Vec::new(), &calculator_profile());
    match r {
        IpcMessage::SearchResponse(response) => {
            assert!(response.results.is_empty());
        },
        _ => panic!("expected a search response"),
    }
}

#[test]
fn missing_bang_source_degrades_to_command_search() {
    // A missing or malformed bang source loads as an empty list; the
    // query still resolves through ordinary command matching.
    let r = resolve_query(&query("calc", 10), &Vec::new(), &calculator_profile());
    match r {
        IpcMessage::SearchResponse(response) => {
            assert_eq!(response.results.len(), 1);
            assert_eq!(response.results[0].title, "Calculator");
        },
        _ => panic!("expected a search response"),
    }
    // Even a bang-shaped query fails soft: an answer, never an error.
    let r = resolve_query(&query("!w calculator", 10), &Vec::new(), &calculator_profile());
    assert!(matches!(r, IpcMessage::SearchResponse(_)));
}

#[test]
fn results_are_cut_to_max_results() {
    let mut commands = Vec::new();
    for i in 0..5 {
        commands.push(ProfileCommand {
            name: format!("entry {}", i),
            url: "x://".to_string(),
            description: "entry".to_string(),
        });
    }
    let r = resolve_query(&query("entry", 2), &Vec::new(), &commands);
    match r {
        IpcMessage::SearchResponse(response) => {
            assert_eq!(response.results.len(), 2);
            assert_eq!(response.results[0].title, "entry 0");
            assert_eq!(response.results[1].title, "entry 1");
        },
        _ => panic!("expected a search response"),
    }
}

#[test]
fn matches_keep_profile_order() {
    let commands = vec![
        ProfileCommand {
            name: "beta".to_string(),
            url: "b://".to_string(),
            description: "tool".to_string(),
        },
        ProfileCommand {
            name: "alpha".to_string(),
            url: "a://".to_string(),
            description: "tool".to_string(),
        },
    ];
    let r = resolve_query(&query("tool", 10), &Vec::new(), &commands);
    match r {
        IpcMessage::SearchResponse(response) => {
            assert_eq!(response.results[0].title, "beta");
            assert_eq!(response.results[1].title, "alpha");
        },
        _ => panic!("expected a search response"),
    }
}

#[test]
fn bang_matches_query_is_case_insensitive() {
    let bang = wiki_bang();
    assert!(bang.matches_query("WIKI"));
    assert!(bang.matches_query("encyclo"));
    assert!(!bang.matches_query("google"));
}

#[test]
fn command_matches_query_checks_keywords() {
    let cmd = Command::new(
        "Files".to_string(),
        "Browse".to_string(),
        orion_core::models::Action::Custom("open".to_string()),
        vec!["explorer".to_string()],
    );
    assert!(cmd.matches_query("EXPLORER"));
    assert!(!cmd.matches_query("terminal"));
}
