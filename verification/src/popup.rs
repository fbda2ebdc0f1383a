//! The popup's interaction state: the typed input, the result list and
//! selection, debounced search timing, and what each keypress or
//! incoming message does to them.
//!
//! Rendering belongs to the window toolkit outside the core; time enters
//! as a millisecond stamp the caller supplies.

use vstd::prelude::*;
use crate::models::{Action, Command, IpcMessage, SearchQuery, SearchResult};

verus! {

/// How long typing must rest before a search fires, in milliseconds.
pub const SEARCH_DELAY_MS: u64 = 200;

/// How many executed commands the history keeps.
pub const MAX_HISTORY: usize = 100;

/// What the popup surface reports to the state.
#[derive(Debug, Clone, PartialEq, Eq)]
pub enum Message {
    SearchInputChanged(String),
    ResultSelected(usize),
    CloseRequested,
    ExecuteCommand,
}

/// The keys the popup reacts to.
#[derive(Clone, Copy, Debug, PartialEq, Eq, Structural)]
pub enum NavKey {
    ArrowDown,
    ArrowUp,
    Enter,
    Escape,
    Other,
}

/// Where the selection lands after a move one result down.
pub open spec fn next_selection(sel: Option<usize>, len: nat) -> Option<usize> {
    if len == 0 {
        sel
    } else {
        match sel {
            Some(i) => if i < len - 1 {
                Some((i + 1) as usize)
            } else {
                Some(i)
            },
            None => Some(0usize),
        }
    }
}

/// Where the selection lands after a move one result up.
pub open spec fn prev_selection(sel: Option<usize>, len: nat) -> Option<usize> {
    if len == 0 {
        sel
    } else {
        match sel {
            Some(i) => if i > 0 {
                Some((i - 1) as usize)
            } else {
                Some(i)
            },
            None => Some(0usize),
        }
    }
}

/// The input line, the result list, and the selection.
pub struct SearchUI {
    input_value: String,
    results: Vec<SearchResult>,
    selected_idx: Option<usize>,
}

impl SearchUI {
    /// The typed input.
    pub closed spec fn spec_input(&self) -> Seq<char> {
        self.input_value@
    }

    /// The shown results.
    pub closed spec fn spec_results(&self) -> Seq<SearchResult> {
        self.results@
    }

    /// The selected index, if any.
    pub closed spec fn spec_selected(&self) -> Option<usize> {
        self.selected_idx
    }

    /// The selection, when present, points into the results.
    pub open spec fn wf(&self) -> bool {
        match self.spec_selected() {
            Some(i) => i < self.spec_results().len(),
            None => true,
        }
    }

    /// An empty surface: no input, no results, no selection.
    pub fn new() -> (r: SearchUI)
        ensures
            r.spec_input().len() == 0,
            r.spec_results().len() == 0,
            r.spec_selected() is None,
            r.wf(),
    {
        SearchUI { input_value: String::new(), results: Vec::new(), selected_idx: None }
    }

    /// Absorb one surface message; the result says whether a search
    /// should be queued: exactly for a changed input.
    pub fn update(&mut self, message: Message) -> (should_search: bool)
        requires
            old(self).wf(),
        ensures
            final(self).wf(),
            match message {
                Message::SearchInputChanged(v) => {
                    &&& should_search
                    &&& final(self).spec_input() == v@
                    &&& final(self).spec_results() == old(self).spec_results()
                    &&& final(self).spec_selected() == old(self).spec_selected()
                },
                Message::ResultSelected(idx) => {
                    &&& !should_search
                    &&& final(self).spec_input() == old(self).spec_input()
                    &&& final(self).spec_results() == old(self).spec_results()
                    &&& final(self).spec_selected() == (if idx < old(self).spec_results().len() {
                        Some(idx)
                    } else {
                        old(self).spec_selected()
                    })
                },
                _ => !should_search && *final(self) == *old(self),
            },
    {
        match message {
            Message::SearchInputChanged(value) => {
                self.input_value = value;
                true
            },
            Message::ResultSelected(idx) => {
                if idx < self.results.len() {
                    self.selected_idx = Some(idx);
                }
                false
            },
            Message::CloseRequested => false,
            Message::ExecuteCommand => false,
        }
    }

    /// Replace the results and repair the selection: the first result
    /// when nothing was selected, nothing when the list is empty, the
    /// last result when the old selection fell off the end.
    pub fn set_results(&mut self, results: Vec<SearchResult>)
        ensures
            final(self).wf(),
            final(self).spec_results() == results@,
            final(self).spec_input() == old(self).spec_input(),
            final(self).spec_selected() == (if results@.len() == 0 {
                None::<usize>
            } else {
                match old(self).spec_selected() {
                    None => Some(0usize),
                    Some(idx) => {
                        if idx >= results@.len() {
                            Some((results@.len() - 1) as usize)
                        } else {
                            Some(idx)
                        }
                    },
                }
            }),
    {
        self.results = results;
        if self.results.len() > 0 && self.selected_idx.is_none() {
            self.selected_idx = Some(0);
        } else if self.results.len() == 0 {
            self.selected_idx = None;
        } else {
            match self.selected_idx {
                Some(idx) => {
                    if idx >= self.results.len() {
                        self.selected_idx = Some(self.results.len() - 1);
                    }
                },
                None => {},
            }
        }
    }

    /// The query the current input stands for; the result cap is fixed.
    pub fn get_search_query(&self) -> (r: SearchQuery)
        ensures
            r@.text == self.spec_input(),
            r@.max_results == 10,
    {
        SearchQuery { text: clone_string(&self.input_value), max_results: 10 }
    }

    /// The selected result, if any.
    pub fn get_selected_result(&self) -> (r: Option<&SearchResult>)
        requires
            self.wf(),
        ensures
            match self.spec_selected() {
                Some(i) => r == Some(&self.spec_results()[i as int]),
                None => r is None,
            },
    {
        match self.selected_idx {
            Some(idx) => Some(&self.results[idx]),
            None => None,
        }
    }

    /// Move the selection one result down, stopping at the end; an empty
    /// list keeps no selection.
    pub fn select_next(&mut self)
        requires
            old(self).wf(),
        ensures
            final(self).wf(),
            final(self).spec_input() == old(self).spec_input(),
            final(self).spec_results() == old(self).spec_results(),
            final(self).spec_selected() == next_selection(
                old(self).spec_selected(),
                old(self).spec_results().len(),
            ),
    {
        if self.results.len() == 0 {
            return ;
        }
        match self.selected_idx {
            Some(idx) => {
                if idx < self.results.len() - 1 {
                    self.selected_idx = Some(idx + 1);
                }
            },
            None => {
                self.selected_idx = Some(0);
            },
        }
    }

    /// Move the selection one result up, stopping at the start; an empty
    /// list keeps no selection.
    pub fn select_previous(&mut self)
        requires
            old(self).wf(),
        ensures
            final(self).wf(),
            final(self).spec_input() == old(self).spec_input(),
            final(self).spec_results() == old(self).spec_results(),
            final(self).spec_selected() == prev_selection(
                old(self).spec_selected(),
                old(self).spec_results().len(),
            ),
    {
        if self.results.len() == 0 {
            return ;
        }
        match self.selected_idx {
            Some(idx) => {
                if idx > 0 {
                    self.selected_idx = Some(idx - 1);
                }
            },
            None => {
                self.selected_idx = Some(0);
            },
        }
    }
}

/// The popup's whole interaction state.
pub struct AppState {
    search_ui: SearchUI,
    last_search_time: Option<u64>,
    is_searching: bool,
    search_results: Vec<SearchResult>,
    command_history: Vec<String>,
    max_history: usize,
}

impl AppState {
    /// The embedded surface state.
    pub closed spec fn spec_ui(&self) -> SearchUI {
        self.search_ui
    }

    /// When typing last changed, as the caller's millisecond stamp.
    pub closed spec fn spec_last_search_time(&self) -> Option<u64> {
        self.last_search_time
    }

    /// Whether a search is queued or in flight.
    pub closed spec fn spec_is_searching(&self) -> bool {
        self.is_searching
    }

    /// The last results handed over.
    pub closed spec fn spec_search_results(&self) -> Seq<SearchResult> {
        self.search_results@
    }

    /// The titles of the commands executed, oldest first.
    pub closed spec fn spec_history(&self) -> Seq<Seq<char>> {
        crate::text::views_of(self.command_history@)
    }

    /// The history cap in force.
    pub closed spec fn spec_max_history(&self) -> usize {
        self.max_history
    }

    /// The surface selection stays in bounds and the history stays
    /// within its cap.
    pub open spec fn wf(&self) -> bool {
        &&& self.spec_ui().wf()
        &&& self.spec_max_history() == MAX_HISTORY
        &&& self.spec_history().len() <= MAX_HISTORY
    }

    /// A fresh state: empty surface, nothing queued, empty history.
    pub fn new() -> (r: AppState)
        ensures
            r.wf(),
            r.spec_last_search_time() is None,
            !r.spec_is_searching(),
            r.spec_search_results().len() == 0,
            r.spec_history().len() == 0,
            r.spec_ui().spec_input().len() == 0,
            r.spec_ui().spec_results().len() == 0,
    {
        AppState {
            search_ui: SearchUI::new(),
            last_search_time: None,
            is_searching: false,
            search_results: Vec::new(),
            command_history: Vec::new(),
            max_history: MAX_HISTORY,
        }
    }

    /// Absorb a surface message at the given time; a changed input
    /// queues a debounced search.
    pub fn update_search_ui(&mut self, message: Message, now_ms: u64) -> (should_search: bool)
        requires
            old(self).wf(),
        ensures
            final(self).wf(),
            should_search ==> final(self).spec_is_searching() && final(self).spec_last_search_time() == Some(now_ms),
            !should_search ==> final(self).spec_is_searching() == old(self).spec_is_searching()
                && final(self).spec_last_search_time() == old(self).spec_last_search_time(),
            should_search == (message matches Message::SearchInputChanged(_)),
            final(self).spec_history() == old(self).spec_history(),
    {
        let should_search = self.search_ui.update(message);
        if should_search {
            self.queue_search(now_ms);
        }
        should_search
    }

    /// Whether the debounce delay has passed since typing last changed,
    /// with a search queued.
    pub fn should_perform_search(&self, now_ms: u64) -> (r: bool)
        ensures
            r == match self.spec_last_search_time() {
                Some(t) => self.spec_is_searching() && now_ms >= t && now_ms - t
                    >= SEARCH_DELAY_MS,
                None => false,
            },
    {
        match self.last_search_time {
            Some(t) => self.is_searching && now_ms >= t && now_ms - t >= SEARCH_DELAY_MS,
            None => false,
        }
    }

    /// Note that typing changed now and a search is wanted.
    pub fn queue_search(&mut self, now_ms: u64)
        requires
            old(self).wf(),
        ensures
            final(self).wf(),
            final(self).spec_last_search_time() == Some(now_ms),
            final(self).spec_is_searching(),
            final(self).spec_ui() == old(self).spec_ui(),
            final(self).spec_history() == old(self).spec_history(),
            final(self).spec_search_results() == old(self).spec_search_results(),
    {
        self.last_search_time = Some(now_ms);
        self.is_searching = true;
    }

    /// The query to send, while a search is wanted.
    pub fn get_search_query(&self) -> (r: Option<SearchQuery>)
        ensures
            match r {
                Some(q) => self.spec_is_searching() && q@.text == self.spec_ui().spec_input()
                    && q@.max_results == 10,
                None => !self.spec_is_searching(),
            },
    {
        if self.is_searching {
            Some(self.search_ui.get_search_query())
        } else {
            None
        }
    }

    /// Absorb search results: the search is over and the surface shows
    /// them.
    pub fn process_search_results(&mut self, results: Vec<SearchResult>)
        requires
            old(self).wf(),
        ensures
            final(self).wf(),
            !final(self).spec_is_searching(),
            final(self).spec_search_results() == results@,
            crate::codec::result_views(final(self).spec_ui().spec_results())
                == crate::codec::result_views(results@),
            final(self).spec_history() == old(self).spec_history(),
    {
        self.is_searching = false;
        let shown = clone_results(&results);
        proof {
            assert(crate::codec::result_views(shown@) =~= crate::codec::result_views(results@));
        }
        self.search_results = results;
        self.search_ui.set_results(shown);
    }

    /// React to a key: arrows move the selection, enter turns the
    /// selected result into a command to execute and files its title in
    /// the history (evicting the oldest past the cap), escape and
    /// anything else do nothing.
    pub fn handle_keypress(&mut self, key: NavKey) -> (r: Option<Command>)
        requires
            old(self).wf(),
        ensures
            final(self).wf(),
            match key {
                NavKey::Enter => match old(self).spec_ui().spec_selected() {
                    Some(i) => {
                        &&& ({
                            let picked = old(self).spec_ui().spec_results()[i as int];
                            match r {
                                Some(cmd) => {
                                    &&& cmd@.name == picked@.title
                                    &&& cmd@.description == (match picked@.description {
                                        Some(d) => d,
                                        None => Seq::<char>::empty(),
                                    })
                                    &&& cmd@.action == picked@.action
                                    &&& cmd@.keywords.len() == 0
                                    &&& final(self).spec_history() == (if old(self).spec_history().len() >= MAX_HISTORY {
                                        old(self).spec_history().drop_first().push(picked@.title)
                                    } else {
                                        old(self).spec_history().push(picked@.title)
                                    })
                                },
                                None => false,
                            }
                        })
                        &&& final(self).spec_ui() == old(self).spec_ui()
                    },
                    None => r is None && final(self).spec_ui() == old(self).spec_ui() && final(self).spec_history() == old(self).spec_history(),
                },
                NavKey::ArrowDown => {
                    &&& r is None
                    &&& final(self).spec_history() == old(self).spec_history()
                    &&& final(self).spec_ui().spec_results() == old(self).spec_ui().spec_results()
                    &&& final(self).spec_ui().spec_selected() == next_selection(
                        old(self).spec_ui().spec_selected(),
                        old(self).spec_ui().spec_results().len(),
                    )
                },
                NavKey::ArrowUp => {
                    &&& r is None
                    &&& final(self).spec_history() == old(self).spec_history()
                    &&& final(self).spec_ui().spec_results() == old(self).spec_ui().spec_results()
                    &&& final(self).spec_ui().spec_selected() == prev_selection(
                        old(self).spec_ui().spec_selected(),
                        old(self).spec_ui().spec_results().len(),
                    )
                },
                _ => r is None && *final(self) == *old(self),
            },
    {
        match key {
            NavKey::ArrowDown => {
                self.search_ui.select_next();
                None
            },
            NavKey::ArrowUp => {
                self.search_ui.select_previous();
                None
            },
            NavKey::Enter => {
                let picked = match self.search_ui.get_selected_result() {
                    Some(result) => Some(
                        (
                            clone_string(&result.title),
                            match &result.description {
                                Some(d) => Some(clone_string(d)),
                                None => None,
                            },
                            clone_action(&result.action),
                        ),
                    ),
                    None => None,
                };
                match picked {
                    Some((title, description, action)) => {
                        if self.command_history.len() >= self.max_history {
                            let ghost h0 = crate::text::views_of(self.command_history@);
                            self.command_history.remove(0);
                            proof {
                                assert(crate::text::views_of(self.command_history@)
                                    =~= h0.drop_first());
                            }
                        }
                        let ghost h1 = crate::text::views_of(self.command_history@);
                        self.command_history.push(clone_string(&title));
                        proof {
                            assert(crate::text::views_of(self.command_history@) =~= h1.push(
                                title@,
                            ));
                        }
                        let description_text = match description {
                            Some(d) => d,
                            None => String::new(),
                        };
                        Some(Command::new(title, description_text, action, Vec::new()))
                    },
                    None => None,
                }
            },
            NavKey::Escape => None,
            NavKey::Other => None,
        }
    }

    /// Absorb an incoming message: results update the surface, a
    /// redirect becomes a URL-opening command for the caller to execute,
    /// everything else is ignored.
    pub fn process_ipc_message(&mut self, message: IpcMessage) -> (r: Option<Command>)
        requires
            old(self).wf(),
        ensures
            final(self).wf(),
            match message {
                IpcMessage::SearchResponse(response) => {
                    &&& r is None
                    &&& !final(self).spec_is_searching()
                    &&& final(self).spec_search_results() == response.results@
                    &&& crate::codec::result_views(final(self).spec_ui().spec_results())
                        == crate::codec::result_views(response.results@)
                },
                IpcMessage::Redirect(url) => match r {
                    Some(cmd) => {
                        &&& cmd@.name == "Open URL"@
                        &&& cmd@.description == url@
                        &&& cmd@.action == crate::models::ActionView::OpenUrl(url@)
                        &&& cmd@.keywords.len() == 0
                        &&& *final(self) == *old(self)
                    },
                    None => false,
                },
                _ => r is None && *final(self) == *old(self),
            },
    {
        match message {
            IpcMessage::SearchResponse(response) => {
                self.process_search_results(response.results);
                None
            },
            IpcMessage::Redirect(url) => {
                let cmd = Command::new(
                    String::from_str("Open URL"),
                    clone_string(&url),
                    Action::OpenUrl(url),
                    Vec::new(),
                );
                Some(cmd)
            },
            _ => None,
        }
    }

    /// The titles of the commands executed so far, oldest first.
    pub fn get_command_history(&self) -> (r: &Vec<String>)
        ensures
            crate::text::views_of(r@) == self.spec_history(),
    {
        &self.command_history
    }
}

/// Copy a string, keeping its characters.
fn clone_string(s: &String) -> (r: String)
    ensures
        r@ == s@,
{
    s.clone()
}

/// Copy an action, keeping its view.
fn clone_action(a: &Action) -> (r: Action)
    ensures
        r@ == a@,
{
    match a {
        Action::OpenFile(p) => Action::OpenFile(clone_string(p)),
        Action::ExecuteCommand(c) => Action::ExecuteCommand(clone_string(c)),
        Action::OpenUrl(u) => Action::OpenUrl(clone_string(u)),
        Action::Custom(x) => Action::Custom(clone_string(x)),
    }
}

/// Copy a result, keeping its view.
fn clone_result(r: &SearchResult) -> (out: SearchResult)
    ensures
        out@ == r@,
{
    SearchResult {
        title: clone_string(&r.title),
        description: match &r.description {
            Some(d) => Some(clone_string(d)),
            None => None,
        },
        action: clone_action(&r.action),
        score: r.score,
    }
}

/// Copy a result list, keeping each view.
fn clone_results(rs: &Vec<SearchResult>) -> (out: Vec<SearchResult>)
    ensures
        out@.len() == rs@.len(),
        forall|i: int| 0 <= i < rs@.len() ==> #[trigger] out@[i]@ == rs@[i]@,
{
    let mut out: Vec<SearchResult> = Vec::new();
    let mut i: usize = 0;
    while i < rs.len()
        invariant
            i <= rs@.len(),
            out@.len() == i,
            forall|j: int| 0 <= j < i ==> #[trigger] out@[j]@ == rs@[j]@,
        decreases rs@.len() - i,
    {
        out.push(clone_result(&rs[i]));
        i += 1;
    }
    out
}

} // verus!
