//! The message and search data model: actions, commands, queries, results,
//! bang definitions, and the tagged union exchanged over IPC.
//!
//! File paths are carried as plain strings, and match scores as integers;
//! every match is scored uniformly, so no fractional scores arise.

use vstd::prelude::*;
use crate::text::{is_substring, lower_of, to_lowercase, contains_sub};

verus! {

/// The uniform score given to every command match.
pub const MATCH_SCORE: u32 = 1;

/// The effect to perform when a result or command is selected.
#[derive(Debug, Clone, PartialEq, Eq)]
pub enum Action {
    /// Open a file at the given path.
    OpenFile(String),
    /// Run a shell command line.
    ExecuteCommand(String),
    /// Open a URL.
    OpenUrl(String),
    /// An application-defined action carried as opaque text.
    Custom(String),
}

/// Mathematical view of an [`Action`].
pub enum ActionView {
    OpenFile(Seq<char>),
    ExecuteCommand(Seq<char>),
    OpenUrl(Seq<char>),
    Custom(Seq<char>),
}

impl View for Action {
    type V = ActionView;

    open spec fn view(&self) -> ActionView {
        match self {
            Action::OpenFile(p) => ActionView::OpenFile(p@),
            Action::ExecuteCommand(c) => ActionView::ExecuteCommand(c@),
            Action::OpenUrl(u) => ActionView::OpenUrl(u@),
            Action::Custom(x) => ActionView::Custom(x@),
        }
    }
}

/// One candidate answer to a search query.
#[derive(Debug, Clone, PartialEq, Eq)]
pub struct SearchResult {
    pub title: String,
    pub description: Option<String>,
    pub action: Action,
    pub score: u32,
}

/// Mathematical view of a [`SearchResult`].
pub struct ResultView {
    pub title: Seq<char>,
    pub description: Option<Seq<char>>,
    pub action: ActionView,
    pub score: u32,
}

impl View for SearchResult {
    type V = ResultView;

    open spec fn view(&self) -> ResultView {
        ResultView {
            title: self.title@,
            description: match self.description {
                Some(ref d) => Some(d@),
                None => None,
            },
            action: self.action@,
            score: self.score,
        }
    }
}

/// A user-defined command of the active profile.
#[derive(Debug, Clone, PartialEq, Eq)]
pub struct Command {
    pub name: String,
    pub description: String,
    pub action: Action,
    pub keywords: Vec<String>,
}

/// Mathematical view of a [`Command`].
pub struct CommandView {
    pub name: Seq<char>,
    pub description: Seq<char>,
    pub action: ActionView,
    pub keywords: Seq<Seq<char>>,
}

impl View for Command {
    type V = CommandView;

    open spec fn view(&self) -> CommandView {
        CommandView {
            name: self.name@,
            description: self.description@,
            action: self.action@,
            keywords: self.keywords@.map(|i: int, k: String| k@),
        }
    }
}

/// A search request: the text typed so far and the cap on returned results.
#[derive(Debug, Clone, PartialEq, Eq)]
pub struct SearchQuery {
    pub text: String,
    pub max_results: usize,
}

/// Mathematical view of a [`SearchQuery`].
pub struct QueryView {
    pub text: Seq<char>,
    pub max_results: usize,
}

impl View for SearchQuery {
    type V = QueryView;

    open spec fn view(&self) -> QueryView {
        QueryView { text: self.text@, max_results: self.max_results }
    }
}

/// The answer to a search request.
#[derive(Debug, Clone, PartialEq, Eq)]
pub struct SearchResponse {
    pub results: Vec<SearchResult>,
    pub query: SearchQuery,
}

/// Mathematical view of a [`SearchResponse`].
pub struct ResponseView {
    pub results: Seq<ResultView>,
    pub query: QueryView,
}

impl View for SearchResponse {
    type V = ResponseView;

    open spec fn view(&self) -> ResponseView {
        ResponseView {
            results: self.results@.map(|i: int, r: SearchResult| r@),
            query: self.query@,
        }
    }
}

/// The tagged union of every payload exchanged over IPC.
#[derive(Debug, Clone, PartialEq, Eq)]
pub enum IpcMessage {
    SearchQuery(SearchQuery),
    SearchResponse(SearchResponse),
    Command(Command),
    ConfigUpdate,
    Redirect(String),
    Error(String),
}

/// Mathematical view of an [`IpcMessage`].
pub enum MessageView {
    SearchQuery(QueryView),
    SearchResponse(ResponseView),
    Command(CommandView),
    ConfigUpdate,
    Redirect(Seq<char>),
    Error(Seq<char>),
}

impl View for IpcMessage {
    type V = MessageView;

    open spec fn view(&self) -> MessageView {
        match self {
            IpcMessage::SearchQuery(q) => MessageView::SearchQuery(q@),
            IpcMessage::SearchResponse(r) => MessageView::SearchResponse(r@),
            IpcMessage::Command(c) => MessageView::Command(c@),
            IpcMessage::ConfigUpdate => MessageView::ConfigUpdate,
            IpcMessage::Redirect(u) => MessageView::Redirect(u@),
            IpcMessage::Error(e) => MessageView::Error(e@),
        }
    }
}

/// A search-prefix redirect rule.
#[derive(Debug, Clone, PartialEq, Eq)]
pub struct Bang {
    pub category: String,
    pub domain: String,
    pub score: i32,
    pub display_name: String,
    pub subcategory: String,
    pub trigger: String,
    pub url_template: String,
}

/// Mathematical view of a [`Bang`].
pub struct BangView {
    pub category: Seq<char>,
    pub domain: Seq<char>,
    pub score: i32,
    pub display_name: Seq<char>,
    pub subcategory: Seq<char>,
    pub trigger: Seq<char>,
    pub url_template: Seq<char>,
}

impl View for Bang {
    type V = BangView;

    open spec fn view(&self) -> BangView {
        BangView {
            category: self.category@,
            domain: self.domain@,
            score: self.score,
            display_name: self.display_name@,
            subcategory: self.subcategory@,
            trigger: self.trigger@,
            url_template: self.url_template@,
        }
    }
}

impl Bang {
    /// Build a bang from its parts.
    pub fn new(
        category: String,
        domain: String,
        score: i32,
        display_name: String,
        subcategory: String,
        trigger: String,
        url_template: String,
    ) -> (r: Bang)
        ensures
            r@.category == category@,
            r@.domain == domain@,
            r@.score == score,
            r@.display_name == display_name@,
            r@.subcategory == subcategory@,
            r@.trigger == trigger@,
            r@.url_template == url_template@,
    {
        Bang { category, domain, score, display_name, subcategory, trigger, url_template }
    }

    /// The lowercased query occurs in the lowercased trigger, display name
    /// or subcategory.
    pub fn matches_query(&self, query: &str) -> (r: bool)
        ensures
            r == spec_bang_matches(self@, query@),
    {
        let q = to_lowercase(query);
        let trigger = to_lowercase(self.trigger.as_str());
        if contains_sub(trigger.as_str(), q.as_str()) {
            return true;
        }
        let display = to_lowercase(self.display_name.as_str());
        if contains_sub(display.as_str(), q.as_str()) {
            return true;
        }
        let sub = to_lowercase(self.subcategory.as_str());
        contains_sub(sub.as_str(), q.as_str())
    }
}

/// Whether a bang matches a free-text query, case-insensitively.
pub open spec fn spec_bang_matches(b: BangView, query: Seq<char>) -> bool {
    ||| is_substring(lower_of(b.trigger), lower_of(query))
    ||| is_substring(lower_of(b.display_name), lower_of(query))
    ||| is_substring(lower_of(b.subcategory), lower_of(query))
}

impl SearchResult {
    /// Build a result from its parts.
    pub fn new(title: String, description: Option<String>, action: Action, score: u32) -> (r:
        SearchResult)
        ensures
            r@.title == title@,
            r@.description == (match description {
                Some(d) => Some(d@),
                None => None::<Seq<char>>,
            }),
            r@.action == action@,
            r@.score == score,
    {
        SearchResult { title, description, action, score }
    }

    /// The lowercased query occurs in the lowercased title or description.
    pub fn matches_query(&self, query: &str) -> (r: bool)
        ensures
            r == spec_result_matches(self@, query@),
    {
        let q = to_lowercase(query);
        let title = to_lowercase(self.title.as_str());
        if contains_sub(title.as_str(), q.as_str()) {
            return true;
        }
        match &self.description {
            Some(d) => {
                let dl = to_lowercase(d.as_str());
                contains_sub(dl.as_str(), q.as_str())
            },
            None => false,
        }
    }
}

/// Whether a search result matches a free-text query, case-insensitively.
pub open spec fn spec_result_matches(r: ResultView, query: Seq<char>) -> bool {
    ||| is_substring(lower_of(r.title), lower_of(query))
    ||| (match r.description {
        Some(d) => is_substring(lower_of(d), lower_of(query)),
        None => false,
    })
}

impl Command {
    /// Build a command from its parts.
    pub fn new(name: String, description: String, action: Action, keywords: Vec<String>) -> (r:
        Command)
        ensures
            r@.name == name@,
            r@.description == description@,
            r@.action == action@,
            r@.keywords == keywords@.map(|i: int, k: String| k@),
    {
        Command { name, description, action, keywords }
    }

    /// The lowercased query occurs in the lowercased name, description, or
    /// any lowercased keyword.
    pub fn matches_query(&self, query: &str) -> (r: bool)
        ensures
            r == spec_command_matches(self@, query@),
    {
        let q = to_lowercase(query);
        let name = to_lowercase(self.name.as_str());
        if contains_sub(name.as_str(), q.as_str()) {
            return true;
        }
        let desc = to_lowercase(self.description.as_str());
        if contains_sub(desc.as_str(), q.as_str()) {
            return true;
        }
        let mut i: usize = 0;
        while i < self.keywords.len()
            invariant
                q@ == lower_of(query@),
                forall|j: int| 0 <= j < i ==> !is_substring(
                    lower_of(#[trigger] self@.keywords[j]),
                    lower_of(query@),
                ),
                i <= self@.keywords.len(),
                self@.keywords.len() == self.keywords@.len(),
                forall|j: int| 0 <= j < self.keywords@.len() ==> #[trigger] self@.keywords[j]
                    == self.keywords@[j]@,
            decreases self.keywords@.len() - i,
        {
            let k = to_lowercase(self.keywords[i].as_str());
            if contains_sub(k.as_str(), q.as_str()) {
                assert(is_substring(lower_of(self@.keywords[i as int]), lower_of(query@)));
                return true;
            }
            i += 1;
        }
        false
    }
}

/// Whether a command matches a free-text query, case-insensitively.
pub open spec fn spec_command_matches(c: CommandView, query: Seq<char>) -> bool {
    ||| is_substring(lower_of(c.name), lower_of(query))
    ||| is_substring(lower_of(c.description), lower_of(query))
    ||| exists|i: int|
        0 <= i < c.keywords.len() && is_substring(lower_of(#[trigger] c.keywords[i]), lower_of(query))
}

} // verus!
