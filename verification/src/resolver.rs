//! The query resolver: a search query becomes either a bang redirect or a
//! response of matching profile commands.
//!
//! Bang resolution tries, in order: the first token, the last token, then
//! each interior token left to right; the first registered bang whose
//! trigger equals the token wins, and the remaining words are substituted
//! into its URL template. When no bang matches — also when the bang list
//! is empty because its source was missing or malformed — command search
//! runs instead: a command matches when the query occurs, case-
//! insensitively, in its name or description, every match gets the same
//! fixed score, matches keep profile order, and the list is cut to the
//! query's result cap.

use vstd::prelude::*;
use crate::config::Command as ProfileCommand;
use crate::models::{
    Action, ActionView, CommandView, IpcMessage, MessageView, QueryView, ResponseView, ResultView,
    SearchQuery, SearchResponse, SearchResult, MATCH_SCORE, spec_command_matches,
};
use crate::text::{
    find_char, first_index_of, join_range, last_index_of, rfind_char, spec_join, spec_replace,
    spec_split, split_str, str_eq, replace_all, views_of, push_char,
};

verus! {

/// The placeholder a URL template carries for the search text.
pub open spec fn spec_placeholder() -> Seq<char> {
    "{{{s}}}"@
}

/// Bang number `i` exists and its trigger is exactly `tok`.
pub open spec fn bang_match_at(bs: Seq<crate::models::Bang>, tok: Seq<char>, i: int) -> bool {
    0 <= i < bs.len() && bs[i].trigger@ == tok
}

/// Some bang's trigger is exactly `tok`.
pub open spec fn has_bang(bs: Seq<crate::models::Bang>, tok: Seq<char>) -> bool {
    exists|i: int| bang_match_at(bs, tok, i)
}

/// The first bang whose trigger is exactly `tok`, if any.
pub open spec fn first_bang_index(bs: Seq<crate::models::Bang>, tok: Seq<char>) -> Option<int> {
    if has_bang(bs, tok) {
        Some(choose|i: int|
            bang_match_at(bs, tok, i) && forall|j: int| 0 <= j < i ==> !bang_match_at(bs, tok, j))
    } else {
        None
    }
}

proof fn lemma_first_bang(bs: Seq<crate::models::Bang>, tok: Seq<char>, i: int)
    requires
        bang_match_at(bs, tok, i),
        forall|j: int| 0 <= j < i ==> !bang_match_at(bs, tok, j),
    ensures
        first_bang_index(bs, tok) == Some(i),
{
    assert(has_bang(bs, tok));
    let w = choose|w: int|
        bang_match_at(bs, tok, w) && forall|j: int| 0 <= j < w ==> !bang_match_at(bs, tok, j);
    if w < i {
        assert(!bang_match_at(bs, tok, w));
    }
    if i < w {
        assert(!bang_match_at(bs, tok, i));
    }
}

/// The redirect URL the first bang matching `tok` yields for `search`.
pub open spec fn bang_redirect(
    bs: Seq<crate::models::Bang>,
    tok: Seq<char>,
    search: Seq<char>,
) -> Option<Seq<char>> {
    match first_bang_index(bs, tok) {
        Some(i) => Some(spec_replace(bs[i].url_template@, spec_placeholder(), search)),
        None => None,
    }
}

/// Step one of bang resolution: the token before the first space.
pub open spec fn front_bang_redirect(text: Seq<char>, bs: Seq<crate::models::Bang>) -> Option<
    Seq<char>,
> {
    match first_index_of(text, ' ') {
        Some(sp) => bang_redirect(
            bs,
            text.subrange(0, sp),
            text.subrange(sp + 1, text.len() as int),
        ),
        None => None,
    }
}

/// Step two: the token after the last space.
pub open spec fn end_bang_redirect(text: Seq<char>, bs: Seq<crate::models::Bang>) -> Option<
    Seq<char>,
> {
    match last_index_of(text, ' ') {
        Some(sp) => bang_redirect(
            bs,
            text.subrange(sp + 1, text.len() as int),
            text.subrange(0, sp),
        ),
        None => None,
    }
}

/// An interior word (neither first nor last) that some bang's trigger
/// equals.
pub open spec fn interior_match_at(words: Seq<Seq<char>>, bs: Seq<crate::models::Bang>, i: int) -> bool {
    1 <= i < words.len() - 1 && has_bang(bs, words[i])
}

/// The text that interior word `i` leaves for the search: the words
/// before it and after it, each group joined by spaces, with one space
/// between the groups.
pub open spec fn interior_search_text(words: Seq<Seq<char>>, i: int) -> Seq<char> {
    spec_join(words.subrange(0, i), ' ') + seq![' '] + spec_join(
        words.subrange(i + 1, words.len() as int),
        ' ',
    )
}

/// Step three: the leftmost interior word with a matching bang.
pub open spec fn interior_bang_redirect(text: Seq<char>, bs: Seq<crate::models::Bang>) -> Option<
    Seq<char>,
> {
    let words = spec_split(text, ' ');
    if exists|i: int| interior_match_at(words, bs, i) {
        let i = choose|i: int|
            interior_match_at(words, bs, i) && forall|j: int|
                1 <= j < i ==> !interior_match_at(words, bs, j);
        bang_redirect(bs, words[i], interior_search_text(words, i))
    } else {
        None
    }
}

proof fn lemma_first_interior(words: Seq<Seq<char>>, bs: Seq<crate::models::Bang>, i: int)
    requires
        interior_match_at(words, bs, i),
        forall|j: int| 1 <= j < i ==> !interior_match_at(words, bs, j),
    ensures
        ({
            let w = choose|w: int|
                interior_match_at(words, bs, w) && forall|j: int|
                    1 <= j < w ==> !interior_match_at(words, bs, j);
            w == i
        }),
{
    let w = choose|w: int|
        interior_match_at(words, bs, w) && forall|j: int|
            1 <= j < w ==> !interior_match_at(words, bs, j);
    if w < i {
        assert(!interior_match_at(words, bs, w));
    }
    if i < w {
        assert(!interior_match_at(words, bs, i));
    }
}

/// The view a profile command presents to matching: no keywords, and its
/// URL as the action.
pub open spec fn profile_command_view(c: ProfileCommand) -> CommandView {
    CommandView {
        name: c.name@,
        description: c.description@,
        action: ActionView::OpenUrl(c.url@),
        keywords: Seq::empty(),
    }
}

/// The search result a matching profile command becomes.
pub open spec fn result_of_command(c: ProfileCommand) -> ResultView {
    ResultView {
        title: c.name@,
        description: Some(c.description@),
        action: ActionView::OpenUrl(c.url@),
        score: MATCH_SCORE,
    }
}

/// The results for every matching command, in profile order. Every match
/// carries the same fixed score, so the score-descending stable sort the
/// response asks for leaves this order unchanged.
pub open spec fn matching_results(cs: Seq<ProfileCommand>, q: Seq<char>) -> Seq<ResultView>
    decreases cs.len(),
{
    if cs.len() == 0 {
        Seq::empty()
    } else {
        let rest = matching_results(cs.drop_last(), q);
        if spec_command_matches(profile_command_view(cs.last()), q) {
            rest.push(result_of_command(cs.last()))
        } else {
            rest
        }
    }
}

/// The response command search yields: matches in profile order, cut to
/// the query's result cap.
pub open spec fn spec_search_response(q: QueryView, cs: Seq<ProfileCommand>) -> MessageView {
    let full = matching_results(cs, q.text);
    let cut = if full.len() <= q.max_results {
        full
    } else {
        full.take(q.max_results as int)
    };
    MessageView::SearchResponse(ResponseView { results: cut, query: q })
}

/// What bang resolution yields, first match winning: a front bang, an
/// end bang, then an interior bang.
pub open spec fn spec_bang_resolution(text: Seq<char>, bs: Seq<crate::models::Bang>) -> Option<
    Seq<char>,
> {
    match front_bang_redirect(text, bs) {
        Some(u) => Some(u),
        None => match end_bang_redirect(text, bs) {
            Some(u) => Some(u),
            None => interior_bang_redirect(text, bs),
        },
    }
}

/// What resolving a query yields: a bang redirect where one matches,
/// command search otherwise.
pub open spec fn spec_resolve(
    q: QueryView,
    bs: Seq<crate::models::Bang>,
    cs: Seq<ProfileCommand>,
) -> MessageView {
    match spec_bang_resolution(q.text, bs) {
        Some(u) => MessageView::Redirect(u),
        None => spec_search_response(q, cs),
    }
}

/// A bang whose trigger equals the token takes precedence at the front:
/// whatever the bang list or profile would otherwise say, the query
/// resolves to that redirect.
pub proof fn lemma_front_bang_precedence(
    q: QueryView,
    bs: Seq<crate::models::Bang>,
    cs: Seq<ProfileCommand>,
    u: Seq<char>,
)
    requires
        front_bang_redirect(q.text, bs) == Some(u),
    ensures
        spec_resolve(q, bs, cs) == MessageView::Redirect(u),
{
}

/// With no bangs available — the source missing or malformed loads as an
/// empty list — resolution degrades to command search for every query.
pub proof fn lemma_no_bangs_fall_back(q: QueryView, cs: Seq<ProfileCommand>)
    ensures
        spec_resolve(q, Seq::empty(), cs) == spec_search_response(q, cs),
{
    let bs = Seq::<crate::models::Bang>::empty();
    assert(forall|tok: Seq<char>, i: int| !bang_match_at(bs, tok, i));
    assert(forall|tok: Seq<char>| !has_bang(bs, tok));
}

/// The first bang whose trigger equals `tok`, by list order.
fn find_bang(bangs: &Vec<crate::models::Bang>, tok: &str) -> (r: Option<usize>)
    ensures
        match r {
            Some(i) => first_bang_index(bangs@, tok@) == Some(i as int) && i < bangs@.len(),
            None => first_bang_index(bangs@, tok@) is None,
        },
{
    let mut i: usize = 0;
    while i < bangs.len()
        invariant
            i <= bangs@.len(),
            forall|j: int| 0 <= j < i ==> !bang_match_at(bangs@, tok@, j),
        decreases bangs@.len() - i,
    {
        if str_eq(bangs[i].trigger.as_str(), tok) {
            proof {
                lemma_first_bang(bangs@, tok@, i as int);
            }
            return Some(i);
        }
        i += 1;
    }
    assert(forall|j: int| !bang_match_at(bangs@, tok@, j));
    None
}

/// Substitute the search text into the bang's URL template.
fn substitute(template: &str, search: &str) -> (r: String)
    ensures
        r@ == spec_replace(template@, spec_placeholder(), search@),
{
    replace_all(template, "{{{s}}}", search)
}

/// Step one as executable code: the token before the first space.
fn front_bang_step(text: &str, bangs: &Vec<crate::models::Bang>) -> (r: Option<String>)
    ensures
        match r {
            Some(u) => front_bang_redirect(text@, bangs@) == Some(u@),
            None => front_bang_redirect(text@, bangs@) is None,
        },
{
    let tlen = text.unicode_len();
    match find_char(text, ' ') {
        Some(sp) => {
            let prefix = text.substring_char(0, sp);
            let rest = text.substring_char(sp + 1, tlen);
            match find_bang(bangs, prefix) {
                Some(bi) => Some(substitute(bangs[bi].url_template.as_str(), rest)),
                None => None,
            }
        },
        None => None,
    }
}

/// Step two as executable code: the token after the last space.
fn end_bang_step(text: &str, bangs: &Vec<crate::models::Bang>) -> (r: Option<String>)
    ensures
        match r {
            Some(u) => end_bang_redirect(text@, bangs@) == Some(u@),
            None => end_bang_redirect(text@, bangs@) is None,
        },
{
    let tlen = text.unicode_len();
    match rfind_char(text, ' ') {
        Some(sp) => {
            let last_tok = text.substring_char(sp + 1, tlen);
            let left = text.substring_char(0, sp);
            match find_bang(bangs, last_tok) {
                Some(bi) => Some(substitute(bangs[bi].url_template.as_str(), left)),
                None => None,
            }
        },
        None => None,
    }
}

/// Scan the interior words left to right for the first with a matching
/// bang; also name the bang found.
#[verifier::rlimit(100)]
#[verifier::spinoff_prover]
fn scan_interior(words: &Vec<String>, bangs: &Vec<crate::models::Bang>) -> (r: Option<
    (usize, usize),
>)
    ensures
        match r {
            Some(p) => {
                &&& 1 <= p.0 < words@.len() - 1
                &&& p.1 < bangs@.len()
                &&& interior_match_at(views_of(words@), bangs@, p.0 as int)
                &&& forall|j: int|
                    1 <= j < p.0 ==> !interior_match_at(views_of(words@), bangs@, j)
                &&& first_bang_index(bangs@, views_of(words@)[p.0 as int]) == Some(p.1 as int)
            },
            None => forall|j: int| !interior_match_at(views_of(words@), bangs@, j),
        },
{
    let ghost wv = views_of(words@);
    if words.len() < 2 {
        assert(forall|j: int| !interior_match_at(wv, bangs@, j));
        return None;
    }
    let mut i: usize = 1;
    while i < words.len() - 1
        invariant
            wv == views_of(words@),
            words@.len() >= 2,
            1 <= i <= words@.len() - 1,
            forall|j: int| 1 <= j < i ==> !interior_match_at(wv, bangs@, j),
        decreases words@.len() - i,
    {
        proof {
            assert(wv[i as int] == words@[i as int]@);
        }
        match find_bang(bangs, words[i].as_str()) {
            Some(bi) => {
                assert(interior_match_at(wv, bangs@, i as int));
                return Some((i, bi));
            },
            None => {
                assert(!has_bang(bangs@, wv[i as int]));
                assert(!interior_match_at(wv, bangs@, i as int));
            },
        }
        i += 1;
    }
    assert(forall|j: int| !interior_match_at(wv, bangs@, j));
    None
}

/// Step three as executable code: the leftmost interior word with a
/// matching bang.
#[verifier::rlimit(100)]
#[verifier::spinoff_prover]
fn interior_bang_step(text: &str, bangs: &Vec<crate::models::Bang>) -> (r: Option<String>)
    ensures
        match r {
            Some(u) => interior_bang_redirect(text@, bangs@) == Some(u@),
            None => interior_bang_redirect(text@, bangs@) is None,
        },
{
    let words = split_str(text, ' ');
    let ghost wv = spec_split(text@, ' ');
    assert(wv == views_of(words@));
    match scan_interior(&words, bangs) {
        Some((i, bi)) => {
            proof {
                lemma_first_interior(wv, bangs@, i as int);
            }
            let left = join_range(&words, 0, i, ' ');
            let right = join_range(&words, i + 1, words.len(), ' ');
            let mut search = left;
            push_char(&mut search, ' ');
            search.append(right.as_str());
            proof {
                assert(views_of(words@.subrange(0, i as int)) =~= wv.subrange(0, i as int));
                assert(views_of(words@.subrange(i + 1, words@.len() as int)) =~= wv.subrange(
                    i + 1,
                    wv.len() as int,
                ));
                assert(search@ =~= interior_search_text(wv, i as int));
            }
            let url = substitute(bangs[bi].url_template.as_str(), search.as_str());
            Some(url)
        },
        None => None,
    }
}

/// Command search as executable code: the matching commands in profile
/// order, cut to the cap. Every match has the same score, so the stable
/// score-descending sort the response asks for is the identity; only the
/// cut remains.
#[verifier::rlimit(60)]
#[verifier::spinoff_prover]
fn command_search(query: &SearchQuery, commands: &Vec<ProfileCommand>) -> (r: SearchResponse)
    ensures
        r@ == (match spec_search_response(query@, commands@) {
            MessageView::SearchResponse(rv) => rv,
            _ => arbitrary(),
        }),
        spec_search_response(query@, commands@) is SearchResponse,
{
    let text = query.text.as_str();
    let mut results: Vec<SearchResult> = Vec::new();
    let mut ci: usize = 0;
    proof {
        assert(commands@.take(0) =~= Seq::<ProfileCommand>::empty());
        assert(crate::codec::result_views(results@) =~= Seq::<ResultView>::empty());
    }
    while ci < commands.len()
        invariant
            ci <= commands@.len(),
            text@ == query@.text,
            crate::codec::result_views(results@) == matching_results(
                commands@.take(ci as int),
                query@.text,
            ),
        decreases commands@.len() - ci,
    {
        let name = clone_string(&commands[ci].name);
        let description = clone_string(&commands[ci].description);
        let url = clone_string(&commands[ci].url);
        let model_cmd = crate::models::Command::new(
            name,
            description,
            Action::OpenUrl(url),
            Vec::new(),
        );
        proof {
            assert(model_cmd@.keywords =~= Seq::<Seq<char>>::empty());
            assert(model_cmd@ == profile_command_view(commands@[ci as int]));
        }
        let ghost before = crate::codec::result_views(results@);
        if model_cmd.matches_query(text) {
            let result = SearchResult::new(
                clone_string(&commands[ci].name),
                Some(clone_string(&commands[ci].description)),
                Action::OpenUrl(clone_string(&commands[ci].url)),
                MATCH_SCORE,
            );
            proof {
                assert(crate::codec::result_views(results@.push(result)) =~= before.push(result@));
                assert(result@ == result_of_command(commands@[ci as int]));
            }
            results.push(result);
        }
        proof {
            let nxt = commands@.take(ci + 1);
            assert(nxt.drop_last() =~= commands@.take(ci as int));
            assert(nxt.last() == commands@[ci as int]);
        }
        ci += 1;
    }
    proof {
        assert(commands@.take(commands@.len() as int) =~= commands@);
    }
    if results.len() > query.max_results {
        let ghost full = crate::codec::result_views(results@);
        results.truncate(query.max_results);
        proof {
            assert(crate::codec::result_views(results@) =~= full.take(query.max_results as int));
        }
    }
    SearchResponse {
        results,
        query: SearchQuery { text: clone_string(&query.text), max_results: query.max_results },
    }
}

/// Bang resolution as executable code: the three steps in order.
#[verifier::rlimit(100)]
#[verifier::spinoff_prover]
fn bang_resolution_step(text: &str, bangs: &Vec<crate::models::Bang>) -> (r: Option<String>)
    ensures
        match r {
            Some(u) => spec_bang_resolution(text@, bangs@) == Some(u@),
            None => spec_bang_resolution(text@, bangs@) is None,
        },
{
    match front_bang_step(text, bangs) {
        Some(url) => {
            return Some(url);
        },
        None => {},
    }
    match end_bang_step(text, bangs) {
        Some(url) => {
            return Some(url);
        },
        None => {},
    }
    interior_bang_step(text, bangs)
}

/// Resolve a query against the known bangs and the active profile's
/// commands: a redirect if a bang matches, the matching commands
/// otherwise.
#[verifier::rlimit(100)]
#[verifier::spinoff_prover]
pub fn resolve_query(
    query: &SearchQuery,
    bangs: &Vec<crate::models::Bang>,
    commands: &Vec<ProfileCommand>,
) -> (r: IpcMessage)
    ensures
        r@ == spec_resolve(query@, bangs@, commands@),
{
    match bang_resolution_step(query.text.as_str(), bangs) {
        Some(url) => IpcMessage::Redirect(url),
        None => {
            let response = command_search(query, commands);
            IpcMessage::SearchResponse(response)
        },
    }
}

/// Copy a string, keeping its characters.
fn clone_string(s: &String) -> (r: String)
    ensures
        r@ == s@,
{
    s.clone()
}

} // verus!
