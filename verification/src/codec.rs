//! Wire codec for [`IpcMessage`]: a binary tagged encoding with
//! length-prefixed UTF-8 strings and big-endian integers.
//!
//! Every encoder has a spec-level twin over the message views, every
//! decoder a spec-level twin over byte sequences, and decoding is proved
//! to undo encoding for every well-formed message.

use vstd::prelude::*;
use vstd::utf8::{encode_utf8, decode_utf8, valid_utf8};
use vstd::utf8::{encode_utf8_valid_utf8, encode_utf8_decode_utf8};
use vstd::slice::slice_subrange;
use crate::errors::ProtocolError;
use crate::models::{
    Action, ActionView, Command, CommandView, IpcMessage, MessageView, QueryView, ResponseView,
    ResultView, SearchQuery, SearchResponse, SearchResult,
};

verus! {

// ---------------------------------------------------------------- integers
/// One byte.
pub open spec fn enc_u8(x: u8) -> Seq<u8> {
    seq![x]
}

/// Read one byte; the rest follows.
pub open spec fn dec_u8_at(b: Seq<u8>) -> Option<(u8, Seq<u8>)> {
    if b.len() >= 1 {
        Some((b[0], b.skip(1)))
    } else {
        None
    }
}

proof fn lemma_u8_round(x: u8, rest: Seq<u8>)
    ensures
        dec_u8_at(enc_u8(x) + rest) == Some((x, rest)),
{
    let b = enc_u8(x) + rest;
    assert(b[0] == x);
    assert(b.skip(1) =~= rest);
}

/// Four bytes, big-endian.
pub open spec fn enc_u32(x: u32) -> Seq<u8> {
    seq![
        ((x >> 24) & 0xff) as u8,
        ((x >> 16) & 0xff) as u8,
        ((x >> 8) & 0xff) as u8,
        (x & 0xff) as u8,
    ]
}

/// The value four big-endian bytes denote.
pub open spec fn u32_of_bytes(b: Seq<u8>) -> u32
    recommends
        b.len() == 4,
{
    ((b[0] as u32) << 24) | ((b[1] as u32) << 16) | ((b[2] as u32) << 8) | (b[3] as u32)
}

/// Read a big-endian `u32`; the rest follows.
pub open spec fn dec_u32_at(b: Seq<u8>) -> Option<(u32, Seq<u8>)> {
    if b.len() >= 4 {
        Some((u32_of_bytes(b.subrange(0, 4)), b.skip(4)))
    } else {
        None
    }
}

proof fn lemma_u32_unpack(x: u32)
    ensures
        u32_of_bytes(enc_u32(x)) == x,
{
    assert(((x >> 24) & 0xff) < 256 && ((x >> 16) & 0xff) < 256 && ((x >> 8) & 0xff) < 256 && (x
        & 0xff) < 256) by (bit_vector);
    assert((((x >> 24) & 0xff) << 24) | (((x >> 16) & 0xff) << 16) | (((x >> 8) & 0xff) << 8) | (x
        & 0xff) == x) by (bit_vector);
}

pub proof fn lemma_u32_round(x: u32, rest: Seq<u8>)
    ensures
        dec_u32_at(enc_u32(x) + rest) == Some((x, rest)),
{
    let b = enc_u32(x) + rest;
    assert(b.subrange(0, 4) =~= enc_u32(x));
    assert(b.skip(4) =~= rest);
    lemma_u32_unpack(x);
}

/// Eight bytes, big-endian.
pub open spec fn enc_u64(x: u64) -> Seq<u8> {
    seq![
        ((x >> 56) & 0xff) as u8,
        ((x >> 48) & 0xff) as u8,
        ((x >> 40) & 0xff) as u8,
        ((x >> 32) & 0xff) as u8,
        ((x >> 24) & 0xff) as u8,
        ((x >> 16) & 0xff) as u8,
        ((x >> 8) & 0xff) as u8,
        (x & 0xff) as u8,
    ]
}

/// The value eight big-endian bytes denote.
pub open spec fn u64_of_bytes(b: Seq<u8>) -> u64
    recommends
        b.len() == 8,
{
    ((b[0] as u64) << 56) | ((b[1] as u64) << 48) | ((b[2] as u64) << 40) | ((b[3] as u64) << 32)
        | ((b[4] as u64) << 24) | ((b[5] as u64) << 16) | ((b[6] as u64) << 8) | (b[7] as u64)
}

/// Read a big-endian `u64`; the rest follows.
pub open spec fn dec_u64_at(b: Seq<u8>) -> Option<(u64, Seq<u8>)> {
    if b.len() >= 8 {
        Some((u64_of_bytes(b.subrange(0, 8)), b.skip(8)))
    } else {
        None
    }
}

proof fn lemma_u64_unpack(x: u64)
    ensures
        u64_of_bytes(enc_u64(x)) == x,
{
    assert(((x >> 56) & 0xff) < 256 && ((x >> 48) & 0xff) < 256 && ((x >> 40) & 0xff) < 256 && ((x
        >> 32) & 0xff) < 256 && ((x >> 24) & 0xff) < 256 && ((x >> 16) & 0xff) < 256 && ((x >> 8)
        & 0xff) < 256 && (x & 0xff) < 256) by (bit_vector);
    assert((((x >> 56) & 0xff) << 56) | (((x >> 48) & 0xff) << 48) | (((x >> 40) & 0xff) << 40) | ((
    (x >> 32) & 0xff) << 32) | (((x >> 24) & 0xff) << 24) | (((x >> 16) & 0xff) << 16) | (((x >> 8)
        & 0xff) << 8) | (x & 0xff) == x) by (bit_vector);
}

proof fn lemma_u64_round(x: u64, rest: Seq<u8>)
    ensures
        dec_u64_at(enc_u64(x) + rest) == Some((x, rest)),
{
    let b = enc_u64(x) + rest;
    assert(b.subrange(0, 8) =~= enc_u64(x));
    assert(b.skip(8) =~= rest);
    lemma_u64_unpack(x);
}

// ---------------------------------------------------------------- strings
/// The UTF-8 encoding of the string fits the 8-byte length prefix.
pub open spec fn str_fits(s: Seq<char>) -> bool {
    encode_utf8(s).len() <= u64::MAX
}

/// A string: its UTF-8 byte length, then its UTF-8 bytes.
pub open spec fn enc_str(s: Seq<char>) -> Seq<u8> {
    enc_u64(encode_utf8(s).len() as u64) + encode_utf8(s)
}

/// Read a length-prefixed UTF-8 string; the rest follows.
pub open spec fn dec_str_at(b: Seq<u8>) -> Option<(Seq<char>, Seq<u8>)> {
    match dec_u64_at(b) {
        Some((n, rest)) => {
            if n <= rest.len() && valid_utf8(rest.subrange(0, n as int)) {
                Some((decode_utf8(rest.subrange(0, n as int)), rest.skip(n as int)))
            } else {
                None
            }
        },
        None => None,
    }
}

proof fn lemma_str_round(s: Seq<char>, rest: Seq<u8>)
    requires
        str_fits(s),
    ensures
        dec_str_at(enc_str(s) + rest) == Some((s, rest)),
{
    let bytes = encode_utf8(s);
    let n = bytes.len() as u64;
    let b = enc_str(s) + rest;
    assert(b =~= enc_u64(n) + (bytes + rest));
    lemma_u64_round(n, bytes + rest);
    let tail = bytes + rest;
    assert(tail.subrange(0, n as int) =~= bytes);
    assert(tail.skip(n as int) =~= rest);
    encode_utf8_valid_utf8(s);
    encode_utf8_decode_utf8(s);
}

/// Relies on `str::from_utf8`: succeeds exactly on valid UTF-8, and then
/// decodes it.
#[verifier::external_body]
fn bytes_to_string(v: &[u8]) -> (r: Option<String>)
    ensures
        match r {
            Some(s) => valid_utf8(v@) && s@ == decode_utf8(v@),
            None => !valid_utf8(v@),
        },
{
    match std::str::from_utf8(v) {
        Ok(s) => Some(s.to_string()),
        Err(_) => None,
    }
}

// ------------------------------------------------------ exec primitives
/// Append one byte.
fn put_u8(out: &mut Vec<u8>, x: u8)
    ensures
        final(out)@ == old(out)@ + enc_u8(x),
{
    out.push(x);
    assert(final(out)@ =~= old(out)@ + enc_u8(x));
}

/// Append a `u32`, big-endian.
pub fn put_u32(out: &mut Vec<u8>, x: u32)
    ensures
        final(out)@ == old(out)@ + enc_u32(x),
{
    proof {
        assert(((x >> 24) & 0xff) < 256 && ((x >> 16) & 0xff) < 256 && ((x >> 8) & 0xff) < 256 && (
        x & 0xff) < 256) by (bit_vector);
    }
    out.push(((x >> 24) & 0xff) as u8);
    out.push(((x >> 16) & 0xff) as u8);
    out.push(((x >> 8) & 0xff) as u8);
    out.push((x & 0xff) as u8);
    assert(final(out)@ =~= old(out)@ + enc_u32(x));
}

/// Append a `u64`, big-endian.
fn put_u64(out: &mut Vec<u8>, x: u64)
    ensures
        final(out)@ == old(out)@ + enc_u64(x),
{
    proof {
        assert(((x >> 56) & 0xff) < 256 && ((x >> 48) & 0xff) < 256 && ((x >> 40) & 0xff) < 256 && (
        (x >> 32) & 0xff) < 256 && ((x >> 24) & 0xff) < 256 && ((x >> 16) & 0xff) < 256 && ((x >> 8)
            & 0xff) < 256 && (x & 0xff) < 256) by (bit_vector);
    }
    out.push(((x >> 56) & 0xff) as u8);
    out.push(((x >> 48) & 0xff) as u8);
    out.push(((x >> 40) & 0xff) as u8);
    out.push(((x >> 32) & 0xff) as u8);
    out.push(((x >> 24) & 0xff) as u8);
    out.push(((x >> 16) & 0xff) as u8);
    out.push(((x >> 8) & 0xff) as u8);
    out.push((x & 0xff) as u8);
    assert(final(out)@ =~= old(out)@ + enc_u64(x));
}

/// Append a length-prefixed string.
fn put_str(out: &mut Vec<u8>, s: &str)
    ensures
        final(out)@ == old(out)@ + enc_str(s@),
        str_fits(s@),
{
    let mut bytes = s.as_bytes_vec();
    let n: u64 = bytes.len() as u64;
    put_u64(out, n);
    out.append(&mut bytes);
    assert(final(out)@ =~= old(out)@ + enc_str(s@));
}

/// Read one byte.
fn get_u8(b: &Vec<u8>, i: usize) -> (r: Option<(u8, usize)>)
    requires
        i <= b@.len(),
    ensures
        match r {
            Some(p) => i <= p.1 <= b@.len() && dec_u8_at(b@.skip(i as int)) == Some(
                (p.0, b@.skip(p.1 as int)),
            ),
            None => dec_u8_at(b@.skip(i as int)) is None,
        },
{
    if b.len() - i >= 1 {
        let x = b[i];
        proof {
            assert(b@.skip(i as int)[0] == b@[i as int]);
            assert(b@.skip(i as int).skip(1) =~= b@.skip(i + 1));
        }
        Some((x, i + 1))
    } else {
        None
    }
}

/// Read a big-endian `u32`.
fn get_u32(b: &Vec<u8>, i: usize) -> (r: Option<(u32, usize)>)
    requires
        i <= b@.len(),
    ensures
        match r {
            Some(p) => i <= p.1 <= b@.len() && dec_u32_at(b@.skip(i as int)) == Some(
                (p.0, b@.skip(p.1 as int)),
            ),
            None => dec_u32_at(b@.skip(i as int)) is None,
        },
{
    if b.len() - i >= 4 {
        let x = ((b[i] as u32) << 24) | ((b[i + 1] as u32) << 16) | ((b[i + 2] as u32) << 8) | (b[i
            + 3] as u32);
        proof {
            assert(b@.skip(i as int).subrange(0, 4) =~= seq![
                b@[i as int],
                b@[i + 1],
                b@[i + 2],
                b@[i + 3],
            ]);
            assert(b@.skip(i as int).skip(4) =~= b@.skip(i + 4));
        }
        Some((x, i + 4))
    } else {
        None
    }
}

/// Read a big-endian `u64`.
fn get_u64(b: &Vec<u8>, i: usize) -> (r: Option<(u64, usize)>)
    requires
        i <= b@.len(),
    ensures
        match r {
            Some(p) => i <= p.1 <= b@.len() && dec_u64_at(b@.skip(i as int)) == Some(
                (p.0, b@.skip(p.1 as int)),
            ),
            None => dec_u64_at(b@.skip(i as int)) is None,
        },
{
    if b.len() - i >= 8 {
        let x = ((b[i] as u64) << 56) | ((b[i + 1] as u64) << 48) | ((b[i + 2] as u64) << 40) | ((b[
        i + 3] as u64) << 32) | ((b[i + 4] as u64) << 24) | ((b[i + 5] as u64) << 16) | ((b[i
            + 6] as u64) << 8) | (b[i + 7] as u64);
        proof {
            assert(b@.skip(i as int).subrange(0, 8) =~= seq![
                b@[i as int],
                b@[i + 1],
                b@[i + 2],
                b@[i + 3],
                b@[i + 4],
                b@[i + 5],
                b@[i + 6],
                b@[i + 7],
            ]);
            assert(b@.skip(i as int).skip(8) =~= b@.skip(i + 8));
        }
        Some((x, i + 8))
    } else {
        None
    }
}

// ------------------------------------------------------ composite specs
/// An optional string: presence byte, then the string if present.
pub open spec fn enc_opt_str(o: Option<Seq<char>>) -> Seq<u8> {
    match o {
        None => enc_u8(0),
        Some(s) => enc_u8(1) + enc_str(s),
    }
}

/// Read an optional string.
pub open spec fn dec_opt_str_at(b: Seq<u8>) -> Option<(Option<Seq<char>>, Seq<u8>)> {
    match dec_u8_at(b) {
        Some((tag, rest)) => {
            if tag == 0 {
                Some((None, rest))
            } else if tag == 1 {
                match dec_str_at(rest) {
                    Some((s, rest2)) => Some((Some(s), rest2)),
                    None => None,
                }
            } else {
                None
            }
        },
        None => None,
    }
}

/// An action: variant tag, then its text.
pub open spec fn enc_action(a: ActionView) -> Seq<u8> {
    match a {
        ActionView::OpenFile(p) => enc_u8(0) + enc_str(p),
        ActionView::ExecuteCommand(c) => enc_u8(1) + enc_str(c),
        ActionView::OpenUrl(u) => enc_u8(2) + enc_str(u),
        ActionView::Custom(x) => enc_u8(3) + enc_str(x),
    }
}

/// Read an action.
pub open spec fn dec_action_at(b: Seq<u8>) -> Option<(ActionView, Seq<u8>)> {
    match dec_u8_at(b) {
        Some((tag, rest)) => match dec_str_at(rest) {
            Some((s, rest2)) => {
                if tag == 0 {
                    Some((ActionView::OpenFile(s), rest2))
                } else if tag == 1 {
                    Some((ActionView::ExecuteCommand(s), rest2))
                } else if tag == 2 {
                    Some((ActionView::OpenUrl(s), rest2))
                } else if tag == 3 {
                    Some((ActionView::Custom(s), rest2))
                } else {
                    None
                }
            },
            None => None,
        },
        None => None,
    }
}

/// A search result: title, optional description, action, score.
pub open spec fn enc_result(r: ResultView) -> Seq<u8> {
    enc_str(r.title) + enc_opt_str(r.description) + enc_action(r.action) + enc_u32(r.score)
}

/// Read a search result.
pub open spec fn dec_result_at(b: Seq<u8>) -> Option<(ResultView, Seq<u8>)> {
    match dec_str_at(b) {
        Some((title, b1)) => match dec_opt_str_at(b1) {
            Some((description, b2)) => match dec_action_at(b2) {
                Some((action, b3)) => match dec_u32_at(b3) {
                    Some((score, b4)) => Some(
                        (ResultView { title, description, action, score }, b4),
                    ),
                    None => None,
                },
                None => None,
            },
            None => None,
        },
        None => None,
    }
}

/// A query: its text, then the result cap.
pub open spec fn enc_query(q: QueryView) -> Seq<u8> {
    enc_str(q.text) + enc_u64(q.max_results as u64)
}

/// Read a query.
pub open spec fn dec_query_at(b: Seq<u8>) -> Option<(QueryView, Seq<u8>)> {
    match dec_str_at(b) {
        Some((text, b1)) => match dec_u64_at(b1) {
            Some((n, b2)) => {
                if n <= usize::MAX {
                    Some((QueryView { text, max_results: n as usize }, b2))
                } else {
                    None
                }
            },
            None => None,
        },
        None => None,
    }
}

/// A string list, item by item; its count is encoded by the caller.
pub open spec fn enc_strs(ks: Seq<Seq<char>>) -> Seq<u8>
    decreases ks.len(),
{
    if ks.len() == 0 {
        Seq::empty()
    } else {
        enc_str(ks[0]) + enc_strs(ks.drop_first())
    }
}

/// Read `n` strings.
pub open spec fn dec_strs_at(b: Seq<u8>, n: nat) -> Option<(Seq<Seq<char>>, Seq<u8>)>
    decreases n,
{
    if n == 0 {
        Some((Seq::empty(), b))
    } else {
        match dec_str_at(b) {
            Some((s, rest)) => match dec_strs_at(rest, (n - 1) as nat) {
                Some((ss, rest2)) => Some((seq![s] + ss, rest2)),
                None => None,
            },
            None => None,
        }
    }
}

/// A command: name, description, action, then its keywords with a count.
pub open spec fn enc_command(c: CommandView) -> Seq<u8> {
    enc_str(c.name) + enc_str(c.description) + enc_action(c.action) + enc_u64(
        c.keywords.len() as u64,
    ) + enc_strs(c.keywords)
}

/// Read a command.
pub open spec fn dec_command_at(b: Seq<u8>) -> Option<(CommandView, Seq<u8>)> {
    match dec_str_at(b) {
        Some((name, b1)) => match dec_str_at(b1) {
            Some((description, b2)) => match dec_action_at(b2) {
                Some((action, b3)) => match dec_u64_at(b3) {
                    Some((n, b4)) => match dec_strs_at(b4, n as nat) {
                        Some((keywords, b5)) => Some(
                            (CommandView { name, description, action, keywords }, b5),
                        ),
                        None => None,
                    },
                    None => None,
                },
                None => None,
            },
            None => None,
        },
        None => None,
    }
}

/// A result list, item by item; its count is encoded by the caller.
pub open spec fn enc_results(rs: Seq<ResultView>) -> Seq<u8>
    decreases rs.len(),
{
    if rs.len() == 0 {
        Seq::empty()
    } else {
        enc_result(rs[0]) + enc_results(rs.drop_first())
    }
}

/// Read `n` results.
pub open spec fn dec_results_at(b: Seq<u8>, n: nat) -> Option<(Seq<ResultView>, Seq<u8>)>
    decreases n,
{
    if n == 0 {
        Some((Seq::empty(), b))
    } else {
        match dec_result_at(b) {
            Some((v, rest)) => match dec_results_at(rest, (n - 1) as nat) {
                Some((vs, rest2)) => Some((seq![v] + vs, rest2)),
                None => None,
            },
            None => None,
        }
    }
}

/// A response: the counted result list, then the query it answers.
pub open spec fn enc_response(r: ResponseView) -> Seq<u8> {
    enc_u64(r.results.len() as u64) + enc_results(r.results) + enc_query(r.query)
}

/// Read a response.
pub open spec fn dec_response_at(b: Seq<u8>) -> Option<(ResponseView, Seq<u8>)> {
    match dec_u64_at(b) {
        Some((n, b1)) => match dec_results_at(b1, n as nat) {
            Some((results, b2)) => match dec_query_at(b2) {
                Some((query, b3)) => Some((ResponseView { results, query }, b3)),
                None => None,
            },
            None => None,
        },
        None => None,
    }
}

/// A message: variant tag, then the variant's payload.
pub open spec fn enc_message(m: MessageView) -> Seq<u8> {
    match m {
        MessageView::SearchQuery(q) => enc_u8(0) + enc_query(q),
        MessageView::SearchResponse(r) => enc_u8(1) + enc_response(r),
        MessageView::Command(c) => enc_u8(2) + enc_command(c),
        MessageView::ConfigUpdate => enc_u8(3),
        MessageView::Redirect(u) => enc_u8(4) + enc_str(u),
        MessageView::Error(e) => enc_u8(5) + enc_str(e),
    }
}

/// Read a message.
pub open spec fn dec_message_at(b: Seq<u8>) -> Option<(MessageView, Seq<u8>)> {
    match dec_u8_at(b) {
        Some((tag, rest)) => {
            if tag == 0 {
                match dec_query_at(rest) {
                    Some((q, rest2)) => Some((MessageView::SearchQuery(q), rest2)),
                    None => None,
                }
            } else if tag == 1 {
                match dec_response_at(rest) {
                    Some((r, rest2)) => Some((MessageView::SearchResponse(r), rest2)),
                    None => None,
                }
            } else if tag == 2 {
                match dec_command_at(rest) {
                    Some((c, rest2)) => Some((MessageView::Command(c), rest2)),
                    None => None,
                }
            } else if tag == 3 {
                Some((MessageView::ConfigUpdate, rest))
            } else if tag == 4 {
                match dec_str_at(rest) {
                    Some((u, rest2)) => Some((MessageView::Redirect(u), rest2)),
                    None => None,
                }
            } else if tag == 5 {
                match dec_str_at(rest) {
                    Some((e, rest2)) => Some((MessageView::Error(e), rest2)),
                    None => None,
                }
            } else {
                None
            }
        },
        None => None,
    }
}

/// What `serialize` produces for a message.
pub open spec fn spec_serialize(m: MessageView) -> Seq<u8> {
    enc_message(m)
}

/// What `deserialize` accepts: a message followed by nothing.
pub open spec fn spec_deserialize(b: Seq<u8>) -> Option<MessageView> {
    match dec_message_at(b) {
        Some((m, rest)) => {
            if rest.len() == 0 {
                Some(m)
            } else {
                None
            }
        },
        None => None,
    }
}

// ------------------------------------------------------ well-formedness
/// Every string of the action fits its length prefix.
pub open spec fn wf_action(a: ActionView) -> bool {
    match a {
        ActionView::OpenFile(p) => str_fits(p),
        ActionView::ExecuteCommand(c) => str_fits(c),
        ActionView::OpenUrl(u) => str_fits(u),
        ActionView::Custom(x) => str_fits(x),
    }
}

/// Every string of the result fits its length prefix.
pub open spec fn wf_result(r: ResultView) -> bool {
    &&& str_fits(r.title)
    &&& match r.description {
        Some(d) => str_fits(d),
        None => true,
    }
    &&& wf_action(r.action)
}

/// The query text fits its length prefix.
pub open spec fn wf_query(q: QueryView) -> bool {
    str_fits(q.text)
}

/// Every string of the command fits, and the keyword count fits.
pub open spec fn wf_command(c: CommandView) -> bool {
    &&& str_fits(c.name)
    &&& str_fits(c.description)
    &&& wf_action(c.action)
    &&& c.keywords.len() <= u64::MAX
    &&& forall|i: int| 0 <= i < c.keywords.len() ==> str_fits(#[trigger] c.keywords[i])
}

/// Every result is well-formed, and the result count fits.
pub open spec fn wf_response(r: ResponseView) -> bool {
    &&& r.results.len() <= u64::MAX
    &&& forall|i: int| 0 <= i < r.results.len() ==> wf_result(#[trigger] r.results[i])
    &&& wf_query(r.query)
}

/// The message's payload is well-formed.
pub open spec fn wf_message(m: MessageView) -> bool {
    match m {
        MessageView::SearchQuery(q) => wf_query(q),
        MessageView::SearchResponse(r) => wf_response(r),
        MessageView::Command(c) => wf_command(c),
        MessageView::ConfigUpdate => true,
        MessageView::Redirect(u) => str_fits(u),
        MessageView::Error(e) => str_fits(e),
    }
}

// ------------------------------------------------------ round-trip lemmas
proof fn lemma_opt_str_round(o: Option<Seq<char>>, rest: Seq<u8>)
    requires
        match o {
            Some(s) => str_fits(s),
            None => true,
        },
    ensures
        dec_opt_str_at(enc_opt_str(o) + rest) == Some((o, rest)),
{
    match o {
        None => {
            lemma_u8_round(0, rest);
        },
        Some(s) => {
            assert(enc_opt_str(o) + rest =~= enc_u8(1) + (enc_str(s) + rest));
            lemma_u8_round(1, enc_str(s) + rest);
            lemma_str_round(s, rest);
        },
    }
}

proof fn lemma_action_round(a: ActionView, rest: Seq<u8>)
    requires
        wf_action(a),
    ensures
        dec_action_at(enc_action(a) + rest) == Some((a, rest)),
{
    match a {
        ActionView::OpenFile(p) => {
            assert(enc_action(a) + rest =~= enc_u8(0) + (enc_str(p) + rest));
            lemma_u8_round(0, enc_str(p) + rest);
            lemma_str_round(p, rest);
        },
        ActionView::ExecuteCommand(c) => {
            assert(enc_action(a) + rest =~= enc_u8(1) + (enc_str(c) + rest));
            lemma_u8_round(1, enc_str(c) + rest);
            lemma_str_round(c, rest);
        },
        ActionView::OpenUrl(u) => {
            assert(enc_action(a) + rest =~= enc_u8(2) + (enc_str(u) + rest));
            lemma_u8_round(2, enc_str(u) + rest);
            lemma_str_round(u, rest);
        },
        ActionView::Custom(x) => {
            assert(enc_action(a) + rest =~= enc_u8(3) + (enc_str(x) + rest));
            lemma_u8_round(3, enc_str(x) + rest);
            lemma_str_round(x, rest);
        },
    }
}

proof fn lemma_result_round(r: ResultView, rest: Seq<u8>)
    requires
        wf_result(r),
    ensures
        dec_result_at(enc_result(r) + rest) == Some((r, rest)),
{
    let t1 = enc_opt_str(r.description) + (enc_action(r.action) + (enc_u32(r.score) + rest));
    assert(enc_result(r) + rest =~= enc_str(r.title) + t1);
    lemma_str_round(r.title, t1);
    let t2 = enc_action(r.action) + (enc_u32(r.score) + rest);
    lemma_opt_str_round(r.description, t2);
    let t3 = enc_u32(r.score) + rest;
    lemma_action_round(r.action, t3);
    lemma_u32_round(r.score, rest);
}

proof fn lemma_query_round(q: QueryView, rest: Seq<u8>)
    requires
        wf_query(q),
    ensures
        dec_query_at(enc_query(q) + rest) == Some((q, rest)),
{
    let t1 = enc_u64(q.max_results as u64) + rest;
    assert(enc_query(q) + rest =~= enc_str(q.text) + t1);
    lemma_str_round(q.text, t1);
    lemma_u64_round(q.max_results as u64, rest);
}

proof fn lemma_strs_round(ks: Seq<Seq<char>>, rest: Seq<u8>)
    requires
        forall|i: int| 0 <= i < ks.len() ==> str_fits(#[trigger] ks[i]),
    ensures
        dec_strs_at(enc_strs(ks) + rest, ks.len() as nat) == Some((ks, rest)),
    decreases ks.len(),
{
    if ks.len() == 0 {
        assert(enc_strs(ks) + rest =~= rest);
        assert(dec_strs_at(rest, 0) == Some((Seq::<Seq<char>>::empty(), rest)));
        assert(ks =~= Seq::<Seq<char>>::empty());
    } else {
        let tail = ks.drop_first();
        assert(enc_strs(ks) + rest =~= enc_str(ks[0]) + (enc_strs(tail) + rest));
        lemma_str_round(ks[0], enc_strs(tail) + rest);
        lemma_strs_round(tail, rest);
        assert(seq![ks[0]] + tail =~= ks);
    }
}

proof fn lemma_command_round(c: CommandView, rest: Seq<u8>)
    requires
        wf_command(c),
    ensures
        dec_command_at(enc_command(c) + rest) == Some((c, rest)),
{
    let n = c.keywords.len() as u64;
    let t1 = enc_str(c.description) + (enc_action(c.action) + (enc_u64(n) + (enc_strs(c.keywords)
        + rest)));
    assert(enc_command(c) + rest =~= enc_str(c.name) + t1);
    lemma_str_round(c.name, t1);
    let t2 = enc_action(c.action) + (enc_u64(n) + (enc_strs(c.keywords) + rest));
    lemma_str_round(c.description, t2);
    let t3 = enc_u64(n) + (enc_strs(c.keywords) + rest);
    lemma_action_round(c.action, t3);
    lemma_u64_round(n, enc_strs(c.keywords) + rest);
    lemma_strs_round(c.keywords, rest);
}

proof fn lemma_results_round(rs: Seq<ResultView>, rest: Seq<u8>)
    requires
        forall|i: int| 0 <= i < rs.len() ==> wf_result(#[trigger] rs[i]),
    ensures
        dec_results_at(enc_results(rs) + rest, rs.len() as nat) == Some((rs, rest)),
    decreases rs.len(),
{
    if rs.len() == 0 {
        assert(enc_results(rs) + rest =~= rest);
        assert(rs =~= Seq::<ResultView>::empty());
    } else {
        let tail = rs.drop_first();
        assert(enc_results(rs) + rest =~= enc_result(rs[0]) + (enc_results(tail) + rest));
        lemma_result_round(rs[0], enc_results(tail) + rest);
        lemma_results_round(tail, rest);
        assert(seq![rs[0]] + tail =~= rs);
    }
}

proof fn lemma_response_round(r: ResponseView, rest: Seq<u8>)
    requires
        wf_response(r),
    ensures
        dec_response_at(enc_response(r) + rest) == Some((r, rest)),
{
    let n = r.results.len() as u64;
    let t1 = enc_results(r.results) + (enc_query(r.query) + rest);
    assert(enc_response(r) + rest =~= enc_u64(n) + t1);
    lemma_u64_round(n, t1);
    lemma_results_round(r.results, enc_query(r.query) + rest);
    lemma_query_round(r.query, rest);
}

#[verifier::rlimit(40)]
#[verifier::spinoff_prover]
proof fn lemma_message_round_at(m: MessageView, rest: Seq<u8>)
    requires
        wf_message(m),
    ensures
        dec_message_at(enc_message(m) + rest) == Some((m, rest)),
{
    match m {
        MessageView::SearchQuery(q) => {
            assert(enc_message(m) + rest =~= enc_u8(0) + (enc_query(q) + rest));
            lemma_u8_round(0, enc_query(q) + rest);
            lemma_query_round(q, rest);
        },
        MessageView::SearchResponse(r) => {
            assert(enc_message(m) + rest =~= enc_u8(1) + (enc_response(r) + rest));
            lemma_u8_round(1, enc_response(r) + rest);
            lemma_response_round(r, rest);
        },
        MessageView::Command(c) => {
            assert(enc_message(m) + rest =~= enc_u8(2) + (enc_command(c) + rest));
            lemma_u8_round(2, enc_command(c) + rest);
            lemma_command_round(c, rest);
        },
        MessageView::ConfigUpdate => {
            lemma_u8_round(3, rest);
        },
        MessageView::Redirect(u) => {
            assert(enc_message(m) + rest =~= enc_u8(4) + (enc_str(u) + rest));
            lemma_u8_round(4, enc_str(u) + rest);
            lemma_str_round(u, rest);
        },
        MessageView::Error(e) => {
            assert(enc_message(m) + rest =~= enc_u8(5) + (enc_str(e) + rest));
            lemma_u8_round(5, enc_str(e) + rest);
            lemma_str_round(e, rest);
        },
    }
}

/// Decoding undoes encoding: for every well-formed message value,
/// deserializing its serialized bytes gives the message back.
pub proof fn lemma_message_round_trip(m: MessageView)
    requires
        wf_message(m),
    ensures
        spec_deserialize(spec_serialize(m)) == Some(m),
{
    assert(enc_message(m) + Seq::<u8>::empty() =~= enc_message(m));
    lemma_message_round_at(m, Seq::empty());
}

/// Read a length-prefixed string.
fn get_str(b: &Vec<u8>, i: usize) -> (r: Option<(String, usize)>)
    requires
        i <= b@.len(),
    ensures
        match r {
            Some(p) => i <= p.1 <= b@.len() && dec_str_at(b@.skip(i as int)) == Some(
                (p.0@, b@.skip(p.1 as int)),
            ),
            None => dec_str_at(b@.skip(i as int)) is None,
        },
{
    match get_u64(b, i) {
        Some((n, j)) => {
            if n <= (b.len() - j) as u64 {
                let m = n as usize;
                let sl = slice_subrange(b.as_slice(), j, j + m);
                proof {
                    assert(b@.skip(j as int).subrange(0, n as int) =~= b@.subrange(
                        j as int,
                        j + n,
                    ));
                    assert(b@.skip(j as int).skip(n as int) =~= b@.skip(j + n));
                }
                match bytes_to_string(sl) {
                    Some(s) => Some((s, j + m)),
                    None => None,
                }
            } else {
                None
            }
        },
        None => None,
    }
}

// ------------------------------------------------------ exec encoding
/// The views of a vector of results.
pub open spec fn result_views(v: Seq<SearchResult>) -> Seq<ResultView> {
    v.map(|i: int, r: SearchResult| r@)
}

proof fn lemma_enc_strs_push(ks: Seq<Seq<char>>, x: Seq<char>)
    ensures
        enc_strs(ks.push(x)) == enc_strs(ks) + enc_str(x),
    decreases ks.len(),
{
    if ks.len() == 0 {
        assert(ks.push(x).drop_first() =~= Seq::<Seq<char>>::empty());
        assert(ks.push(x)[0] == x);
        assert(enc_strs(Seq::<Seq<char>>::empty()) == Seq::<u8>::empty());
        assert(enc_strs(ks.push(x)) =~= enc_str(x));
        assert(enc_strs(ks) + enc_str(x) =~= enc_str(x));
    } else {
        lemma_enc_strs_push(ks.drop_first(), x);
        assert(ks.push(x).drop_first() =~= ks.drop_first().push(x));
        assert(enc_str(ks[0]) + (enc_strs(ks.drop_first()) + enc_str(x)) =~= (enc_str(ks[0])
            + enc_strs(ks.drop_first())) + enc_str(x));
    }
}

proof fn lemma_enc_results_push(rs: Seq<ResultView>, x: ResultView)
    ensures
        enc_results(rs.push(x)) == enc_results(rs) + enc_result(x),
    decreases rs.len(),
{
    if rs.len() == 0 {
        assert(rs.push(x).drop_first() =~= Seq::<ResultView>::empty());
        assert(rs.push(x)[0] == x);
        assert(enc_results(Seq::<ResultView>::empty()) == Seq::<u8>::empty());
        assert(enc_results(rs.push(x)) =~= enc_result(x));
        assert(enc_results(rs) + enc_result(x) =~= enc_result(x));
    } else {
        lemma_enc_results_push(rs.drop_first(), x);
        assert(rs.push(x).drop_first() =~= rs.drop_first().push(x));
        assert(enc_result(rs[0]) + (enc_results(rs.drop_first()) + enc_result(x)) =~= (enc_result(
            rs[0],
        ) + enc_results(rs.drop_first())) + enc_result(x));
    }
}

/// Append an optional string.
fn put_opt_str(out: &mut Vec<u8>, o: &Option<String>)
    ensures
        final(out)@ == old(out)@ + enc_opt_str(
            match o {
                Some(s) => Some(s@),
                None => None,
            },
        ),
        match o {
            Some(s) => str_fits(s@),
            None => true,
        },
{
    match o {
        None => {
            put_u8(out, 0);
        },
        Some(s) => {
            put_u8(out, 1);
            put_str(out, s.as_str());
            assert(final(out)@ =~= old(out)@ + (enc_u8(1) + enc_str(s@)));
        },
    }
}

/// Append an action.
fn put_action(out: &mut Vec<u8>, a: &Action)
    ensures
        final(out)@ == old(out)@ + enc_action(a@),
        wf_action(a@),
{
    match a {
        Action::OpenFile(p) => {
            put_u8(out, 0);
            put_str(out, p.as_str());
            assert(final(out)@ =~= old(out)@ + (enc_u8(0) + enc_str(p@)));
        },
        Action::ExecuteCommand(c) => {
            put_u8(out, 1);
            put_str(out, c.as_str());
            assert(final(out)@ =~= old(out)@ + (enc_u8(1) + enc_str(c@)));
        },
        Action::OpenUrl(u) => {
            put_u8(out, 2);
            put_str(out, u.as_str());
            assert(final(out)@ =~= old(out)@ + (enc_u8(2) + enc_str(u@)));
        },
        Action::Custom(x) => {
            put_u8(out, 3);
            put_str(out, x.as_str());
            assert(final(out)@ =~= old(out)@ + (enc_u8(3) + enc_str(x@)));
        },
    }
}

/// Append a search result.
fn put_result(out: &mut Vec<u8>, r: &SearchResult)
    ensures
        final(out)@ == old(out)@ + enc_result(r@),
        wf_result(r@),
{
    put_str(out, r.title.as_str());
    put_opt_str(out, &r.description);
    put_action(out, &r.action);
    put_u32(out, r.score);
    assert(final(out)@ =~= old(out)@ + enc_result(r@));
}

/// Append a query.
fn put_query(out: &mut Vec<u8>, q: &SearchQuery)
    ensures
        final(out)@ == old(out)@ + enc_query(q@),
        wf_query(q@),
{
    put_str(out, q.text.as_str());
    put_u64(out, q.max_results as u64);
    assert(final(out)@ =~= old(out)@ + enc_query(q@));
}

/// Append a list of strings, item by item.
fn put_strs(out: &mut Vec<u8>, ks: &Vec<String>)
    ensures
        final(out)@ == old(out)@ + enc_strs(crate::text::views_of(ks@)),
        forall|i: int| 0 <= i < ks@.len() ==> str_fits(#[trigger] crate::text::views_of(ks@)[i]),
{
    let ghost kv = crate::text::views_of(ks@);
    let mut idx: usize = 0;
    proof {
        assert(kv.take(0) =~= Seq::<Seq<char>>::empty());
        assert(old(out)@ + enc_strs(kv.take(0)) =~= old(out)@);
    }
    while idx < ks.len()
        invariant
            kv == crate::text::views_of(ks@),
            idx <= ks@.len(),
            out@ == old(out)@ + enc_strs(kv.take(idx as int)),
            forall|i: int| 0 <= i < idx ==> str_fits(#[trigger] kv[i]),
        decreases ks@.len() - idx,
    {
        put_str(out, ks[idx].as_str());
        proof {
            lemma_enc_strs_push(kv.take(idx as int), kv[idx as int]);
            assert(kv.take(idx + 1) =~= kv.take(idx as int).push(kv[idx as int]));
            assert((old(out)@ + enc_strs(kv.take(idx as int))) + enc_str(kv[idx as int]) =~= old(
                out,
            )@ + (enc_strs(kv.take(idx as int)) + enc_str(kv[idx as int])));
        }
        idx += 1;
    }
    proof {
        assert(kv.take(ks@.len() as int) =~= kv);
    }
}

/// Append a command.
fn put_command(out: &mut Vec<u8>, c: &Command)
    ensures
        final(out)@ == old(out)@ + enc_command(c@),
        wf_command(c@),
{
    put_str(out, c.name.as_str());
    put_str(out, c.description.as_str());
    put_action(out, &c.action);
    put_u64(out, c.keywords.len() as u64);
    put_strs(out, &c.keywords);
    assert(final(out)@ =~= old(out)@ + enc_command(c@));
}

/// Append a list of results, item by item.
fn put_results(out: &mut Vec<u8>, rs: &Vec<SearchResult>)
    ensures
        final(out)@ == old(out)@ + enc_results(result_views(rs@)),
        forall|i: int| 0 <= i < rs@.len() ==> wf_result(#[trigger] result_views(rs@)[i]),
{
    let ghost rv = result_views(rs@);
    let mut idx: usize = 0;
    proof {
        assert(rv.take(0) =~= Seq::<ResultView>::empty());
        assert(old(out)@ + enc_results(rv.take(0)) =~= old(out)@);
    }
    while idx < rs.len()
        invariant
            rv == result_views(rs@),
            idx <= rs@.len(),
            out@ == old(out)@ + enc_results(rv.take(idx as int)),
            forall|i: int| 0 <= i < idx ==> wf_result(#[trigger] rv[i]),
        decreases rs@.len() - idx,
    {
        put_result(out, &rs[idx]);
        proof {
            lemma_enc_results_push(rv.take(idx as int), rv[idx as int]);
            assert(rv.take(idx + 1) =~= rv.take(idx as int).push(rv[idx as int]));
            assert((old(out)@ + enc_results(rv.take(idx as int))) + enc_result(rv[idx as int]) =~=
            old(out)@ + (enc_results(rv.take(idx as int)) + enc_result(rv[idx as int])));
        }
        idx += 1;
    }
    proof {
        assert(rv.take(rs@.len() as int) =~= rv);
    }
}

/// Append a response.
fn put_response(out: &mut Vec<u8>, r: &SearchResponse)
    ensures
        final(out)@ == old(out)@ + enc_response(r@),
        wf_response(r@),
{
    put_u64(out, r.results.len() as u64);
    put_results(out, &r.results);
    put_query(out, &r.query);
    assert(final(out)@ =~= old(out)@ + enc_response(r@));
}

/// Encode a message into bytes; the encoding of every real message is
/// well-formed, so decoding is owed to give the message back.
pub fn serialize(m: &IpcMessage) -> (r: Vec<u8>)
    ensures
        r@ == spec_serialize(m@),
        wf_message(m@),
{
    let mut out: Vec<u8> = Vec::new();
    match m {
        IpcMessage::SearchQuery(q) => {
            put_u8(&mut out, 0);
            put_query(&mut out, q);
            assert(out@ =~= enc_u8(0) + enc_query(q@));
        },
        IpcMessage::SearchResponse(r) => {
            put_u8(&mut out, 1);
            put_response(&mut out, r);
            assert(out@ =~= enc_u8(1) + enc_response(r@));
        },
        IpcMessage::Command(c) => {
            put_u8(&mut out, 2);
            put_command(&mut out, c);
            assert(out@ =~= enc_u8(2) + enc_command(c@));
        },
        IpcMessage::ConfigUpdate => {
            put_u8(&mut out, 3);
            assert(out@ =~= enc_u8(3));
        },
        IpcMessage::Redirect(u) => {
            put_u8(&mut out, 4);
            put_str(&mut out, u.as_str());
            assert(out@ =~= enc_u8(4) + enc_str(u@));
        },
        IpcMessage::Error(e) => {
            put_u8(&mut out, 5);
            put_str(&mut out, e.as_str());
            assert(out@ =~= enc_u8(5) + enc_str(e@));
        },
    }
    out
}

// ------------------------------------------------------ exec decoding
/// Read an optional string.
fn get_opt_str(b: &Vec<u8>, i: usize) -> (r: Option<(Option<String>, usize)>)
    requires
        i <= b@.len(),
    ensures
        match r {
            Some(p) => i <= p.1 <= b@.len() && dec_opt_str_at(b@.skip(i as int)) == Some(
                (
                    match p.0 {
                        Some(ref s) => Some(s@),
                        None => None,
                    },
                    b@.skip(p.1 as int),
                ),
            ),
            None => dec_opt_str_at(b@.skip(i as int)) is None,
        },
{
    match get_u8(b, i) {
        Some((tag, j)) => {
            if tag == 0 {
                Some((None, j))
            } else if tag == 1 {
                match get_str(b, j) {
                    Some((s, j2)) => Some((Some(s), j2)),
                    None => None,
                }
            } else {
                None
            }
        },
        None => None,
    }
}

/// Read an action.
fn get_action(b: &Vec<u8>, i: usize) -> (r: Option<(Action, usize)>)
    requires
        i <= b@.len(),
    ensures
        match r {
            Some(p) => i <= p.1 <= b@.len() && dec_action_at(b@.skip(i as int)) == Some(
                (p.0@, b@.skip(p.1 as int)),
            ),
            None => dec_action_at(b@.skip(i as int)) is None,
        },
{
    match get_u8(b, i) {
        Some((tag, j)) => {
            if tag <= 3 {
                match get_str(b, j) {
                    Some((s, j2)) => {
                        if tag == 0 {
                            Some((Action::OpenFile(s), j2))
                        } else if tag == 1 {
                            Some((Action::ExecuteCommand(s), j2))
                        } else if tag == 2 {
                            Some((Action::OpenUrl(s), j2))
                        } else {
                            Some((Action::Custom(s), j2))
                        }
                    },
                    None => None,
                }
            } else {
                None
            }
        },
        None => None,
    }
}

/// Read a search result.
fn get_result(b: &Vec<u8>, i: usize) -> (r: Option<(SearchResult, usize)>)
    requires
        i <= b@.len(),
    ensures
        match r {
            Some(p) => i <= p.1 <= b@.len() && dec_result_at(b@.skip(i as int)) == Some(
                (p.0@, b@.skip(p.1 as int)),
            ),
            None => dec_result_at(b@.skip(i as int)) is None,
        },
{
    match get_str(b, i) {
        Some((title, j1)) => match get_opt_str(b, j1) {
            Some((description, j2)) => match get_action(b, j2) {
                Some((action, j3)) => match get_u32(b, j3) {
                    Some((score, j4)) => Some(
                        (SearchResult { title, description, action, score }, j4),
                    ),
                    None => None,
                },
                None => None,
            },
            None => None,
        },
        None => None,
    }
}

/// Read a query.
fn get_query(b: &Vec<u8>, i: usize) -> (r: Option<(SearchQuery, usize)>)
    requires
        i <= b@.len(),
    ensures
        match r {
            Some(p) => i <= p.1 <= b@.len() && dec_query_at(b@.skip(i as int)) == Some(
                (p.0@, b@.skip(p.1 as int)),
            ),
            None => dec_query_at(b@.skip(i as int)) is None,
        },
{
    match get_str(b, i) {
        Some((text, j1)) => match get_u64(b, j1) {
            Some((n, j2)) => {
                if n <= usize::MAX as u64 {
                    Some((SearchQuery { text, max_results: n as usize }, j2))
                } else {
                    None
                }
            },
            None => None,
        },
        None => None,
    }
}

/// Read `n` strings.
#[verifier::rlimit(60)]
#[verifier::spinoff_prover]
fn get_strs(b: &Vec<u8>, i: usize, n: u64) -> (r: Option<(Vec<String>, usize)>)
    requires
        i <= b@.len(),
    ensures
        match r {
            Some(p) => i <= p.1 <= b@.len() && dec_strs_at(b@.skip(i as int), n as nat) == Some(
                (crate::text::views_of(p.0@), b@.skip(p.1 as int)),
            ),
            None => dec_strs_at(b@.skip(i as int), n as nat) is None,
        },
{
    let mut acc: Vec<String> = Vec::new();
    let mut cur: usize = i;
    let mut k: u64 = 0;
    proof {
        assert(crate::text::views_of(acc@) =~= Seq::<Seq<char>>::empty());
    }
    while k < n
        invariant
            k <= n,
            i <= cur <= b@.len(),
            dec_strs_at(b@.skip(i as int), n as nat) == (match dec_strs_at(
                b@.skip(cur as int),
                (n - k) as nat,
            ) {
                Some((ss, rest)) => Some((crate::text::views_of(acc@) + ss, rest)),
                None => None::<(Seq<Seq<char>>, Seq<u8>)>,
            }),
        decreases n - k,
    {
        match get_str(b, cur) {
            Some((s, nx)) => {
                proof {
                    let ghost av = crate::text::views_of(acc@);
                    assert(crate::text::views_of(acc@.push(s)) =~= av.push(s@));
                }
                let ghost av = crate::text::views_of(acc@);
                acc.push(s);
                proof {
                    assert(forall|ss: Seq<Seq<char>>| av.push(s@) + ss =~= av + (seq![s@] + ss));
                }
                cur = nx;
                k = k + 1;
            },
            None => {
                return None;
            },
        }
    }
    proof {
        assert(crate::text::views_of(acc@) + Seq::<Seq<char>>::empty() =~= crate::text::views_of(
            acc@,
        ));
    }
    Some((acc, cur))
}

/// Read a command.
fn get_command(b: &Vec<u8>, i: usize) -> (r: Option<(Command, usize)>)
    requires
        i <= b@.len(),
    ensures
        match r {
            Some(p) => i <= p.1 <= b@.len() && dec_command_at(b@.skip(i as int)) == Some(
                (p.0@, b@.skip(p.1 as int)),
            ),
            None => dec_command_at(b@.skip(i as int)) is None,
        },
{
    match get_str(b, i) {
        Some((name, j1)) => match get_str(b, j1) {
            Some((description, j2)) => match get_action(b, j2) {
                Some((action, j3)) => match get_u64(b, j3) {
                    Some((n, j4)) => match get_strs(b, j4, n) {
                        Some((keywords, j5)) => Some(
                            (Command { name, description, action, keywords }, j5),
                        ),
                        None => None,
                    },
                    None => None,
                },
                None => None,
            },
            None => None,
        },
        None => None,
    }
}

/// Read `n` results.
#[verifier::rlimit(60)]
#[verifier::spinoff_prover]
fn get_results(b: &Vec<u8>, i: usize, n: u64) -> (r: Option<(Vec<SearchResult>, usize)>)
    requires
        i <= b@.len(),
    ensures
        match r {
            Some(p) => i <= p.1 <= b@.len() && dec_results_at(b@.skip(i as int), n as nat) == Some(
                (result_views(p.0@), b@.skip(p.1 as int)),
            ),
            None => dec_results_at(b@.skip(i as int), n as nat) is None,
        },
{
    let mut acc: Vec<SearchResult> = Vec::new();
    let mut cur: usize = i;
    let mut k: u64 = 0;
    proof {
        assert(result_views(acc@) =~= Seq::<ResultView>::empty());
    }
    while k < n
        invariant
            k <= n,
            i <= cur <= b@.len(),
            dec_results_at(b@.skip(i as int), n as nat) == (match dec_results_at(
                b@.skip(cur as int),
                (n - k) as nat,
            ) {
                Some((vs, rest)) => Some((result_views(acc@) + vs, rest)),
                None => None::<(Seq<ResultView>, Seq<u8>)>,
            }),
        decreases n - k,
    {
        match get_result(b, cur) {
            Some((v, nx)) => {
                let ghost av = result_views(acc@);
                let ghost vv = v@;
                proof {
                    assert(result_views(acc@.push(v)) =~= av.push(vv));
                }
                acc.push(v);
                proof {
                    assert(forall|vs: Seq<ResultView>| av.push(vv) + vs =~= av + (seq![vv] + vs));
                }
                cur = nx;
                k = k + 1;
            },
            None => {
                return None;
            },
        }
    }
    proof {
        assert(result_views(acc@) + Seq::<ResultView>::empty() =~= result_views(acc@));
    }
    Some((acc, cur))
}

/// Read a response.
fn get_response(b: &Vec<u8>, i: usize) -> (r: Option<(SearchResponse, usize)>)
    requires
        i <= b@.len(),
    ensures
        match r {
            Some(p) => i <= p.1 <= b@.len() && dec_response_at(b@.skip(i as int)) == Some(
                (p.0@, b@.skip(p.1 as int)),
            ),
            None => dec_response_at(b@.skip(i as int)) is None,
        },
{
    match get_u64(b, i) {
        Some((n, j1)) => match get_results(b, j1, n) {
            Some((results, j2)) => match get_query(b, j2) {
                Some((query, j3)) => Some((SearchResponse { results, query }, j3)),
                None => None,
            },
            None => None,
        },
        None => None,
    }
}

/// Read a message.
fn get_message(b: &Vec<u8>, i: usize) -> (r: Option<(IpcMessage, usize)>)
    requires
        i <= b@.len(),
    ensures
        match r {
            Some(p) => i <= p.1 <= b@.len() && dec_message_at(b@.skip(i as int)) == Some(
                (p.0@, b@.skip(p.1 as int)),
            ),
            None => dec_message_at(b@.skip(i as int)) is None,
        },
{
    match get_u8(b, i) {
        Some((tag, j)) => {
            if tag == 0 {
                match get_query(b, j) {
                    Some((q, j2)) => Some((IpcMessage::SearchQuery(q), j2)),
                    None => None,
                }
            } else if tag == 1 {
                match get_response(b, j) {
                    Some((r, j2)) => Some((IpcMessage::SearchResponse(r), j2)),
                    None => None,
                }
            } else if tag == 2 {
                match get_command(b, j) {
                    Some((c, j2)) => Some((IpcMessage::Command(c), j2)),
                    None => None,
                }
            } else if tag == 3 {
                Some((IpcMessage::ConfigUpdate, j))
            } else if tag == 4 {
                match get_str(b, j) {
                    Some((u, j2)) => Some((IpcMessage::Redirect(u), j2)),
                    None => None,
                }
            } else if tag == 5 {
                match get_str(b, j) {
                    Some((e, j2)) => Some((IpcMessage::Error(e), j2)),
                    None => None,
                }
            } else {
                None
            }
        },
        None => None,
    }
}

/// Decode a message from bytes. Succeeds exactly when the bytes are one
/// whole well-formed encoding, and then returns the encoded message.
pub fn deserialize(b: &Vec<u8>) -> (r: Result<IpcMessage, ProtocolError>)
    ensures
        match r {
            Ok(m) => spec_deserialize(b@) == Some(m@),
            Err(e) => spec_deserialize(b@) is None && e == ProtocolError::Malformed,
        },
{
    proof {
        assert(b@.skip(0) =~= b@);
    }
    match get_message(b, 0) {
        Some((m, j)) => {
            if j == b.len() {
                assert(b@.skip(j as int).len() == 0);
                Ok(m)
            } else {
                assert(b@.skip(j as int).len() > 0);
                Err(ProtocolError::Malformed)
            }
        },
        None => Err(ProtocolError::Malformed),
    }
}

} // verus!
