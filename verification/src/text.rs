//! Character-level string utilities: substring search, splitting and
//! joining on a separator, replacement, trimming, and decimal parsing.
//!
//! Queries, triggers and templates are all treated as sequences of `char`,
//! which is what `String`'s view gives.

use vstd::prelude::*;

verus! {

/// `needle` occurs in `hay` starting at position `i`.
pub open spec fn is_substring_at(hay: Seq<char>, needle: Seq<char>, i: int) -> bool {
    0 <= i && i + needle.len() <= hay.len() && hay.subrange(i, i + needle.len() as int)
        == needle
}

/// `needle` occurs somewhere in `hay`.
pub open spec fn is_substring(hay: Seq<char>, needle: Seq<char>) -> bool {
    exists|i: int| is_substring_at(hay, needle, i)
}

/// Whether `pat` matches `t` starting at character position `i`.
fn match_at(t: &str, pat: &str, i: usize, tlen: usize, plen: usize) -> (r: bool)
    requires
        tlen == t@.len(),
        plen == pat@.len(),
        i + plen <= tlen,
    ensures
        r == is_substring_at(t@, pat@, i as int),
{
    let mut j: usize = 0;
    while j < plen
        invariant
            tlen == t@.len(),
            plen == pat@.len(),
            i + plen <= tlen,
            j <= plen,
            forall|k: int| 0 <= k < j ==> t@[i + k] == pat@[k],
        decreases plen - j,
    {
        if t.get_char(i + j) != pat.get_char(j) {
            assert(t@.subrange(i as int, i + plen as int)[j as int] != pat@[j as int]);
            return false;
        }
        j += 1;
    }
    assert(t@.subrange(i as int, i + plen as int) =~= pat@);
    true
}

/// Substring test: does `needle` occur anywhere in `hay`?
pub fn contains_sub(hay: &str, needle: &str) -> (r: bool)
    ensures
        r == is_substring(hay@, needle@),
{
    let hlen = hay.unicode_len();
    let nlen = needle.unicode_len();
    if nlen > hlen {
        assert(!is_substring(hay@, needle@)) by {
            assert(forall|i: int| !is_substring_at(hay@, needle@, i));
        }
        return false;
    }
    if nlen == 0 {
        assert(hay@.subrange(0, 0) =~= needle@);
        assert(is_substring_at(hay@, needle@, 0));
        return true;
    }
    let mut i: usize = 0;
    while i <= hlen - nlen
        invariant
            hlen == hay@.len(),
            nlen == needle@.len(),
            0 < nlen <= hlen,
            i <= hlen - nlen + 1,
            forall|k: int| 0 <= k < i ==> !is_substring_at(hay@, needle@, k),
        decreases hlen - i,
    {
        if match_at(hay, needle, i, hlen, nlen) {
            return true;
        }
        i += 1;
    }
    assert(forall|k: int| !is_substring_at(hay@, needle@, k));
    false
}

/// Leftmost position of the character `c` in `t`, if present.
pub open spec fn first_index_of(t: Seq<char>, c: char) -> Option<int> {
    if t.contains(c) {
        Some(choose|i: int| 0 <= i < t.len() && t[i] == c && forall|j: int|
            0 <= j < i ==> t[j] != c)
    } else {
        None
    }
}

proof fn lemma_first_index_exists(t: Seq<char>, c: char, i: int)
    requires
        0 <= i < t.len(),
        t[i] == c,
        forall|j: int| 0 <= j < i ==> t[j] != c,
    ensures
        first_index_of(t, c) == Some(i),
{
    assert(t.contains(c));
    let w = choose|w: int| 0 <= w < t.len() && t[w] == c && forall|j: int|
        0 <= j < w ==> t[j] != c;
    if w < i {
        assert(t[w] != c);
    }
    if i < w {
        assert(t[i] != c);
    }
}

/// Leftmost index of `c` in `t`.
pub fn find_char(t: &str, c: char) -> (r: Option<usize>)
    ensures
        match r {
            Some(i) => i < t@.len() && t@[i as int] == c && first_index_of(t@, c) == Some(
                i as int,
            ),
            None => first_index_of(t@, c) is None,
        },
{
    let tlen = t.unicode_len();
    let mut i: usize = 0;
    while i < tlen
        invariant
            tlen == t@.len(),
            i <= tlen,
            forall|j: int| 0 <= j < i ==> t@[j] != c,
        decreases tlen - i,
    {
        if t.get_char(i) == c {
            proof {
                lemma_first_index_exists(t@, c, i as int);
            }
            return Some(i);
        }
        i += 1;
    }
    assert(!t@.contains(c)) by {
        if t@.contains(c) {
            let w = choose|w: int| 0 <= w < t@.len() && t@[w] == c;
            assert(t@[w] != c);
        }
    }
    None
}

/// Rightmost position of the character `c` in `t`, if present.
pub open spec fn last_index_of(t: Seq<char>, c: char) -> Option<int> {
    if t.contains(c) {
        Some(choose|i: int| 0 <= i < t.len() && t[i] == c && forall|j: int|
            i < j < t.len() ==> t[j] != c)
    } else {
        None
    }
}

proof fn lemma_last_index_exists(t: Seq<char>, c: char, i: int)
    requires
        0 <= i < t.len(),
        t[i] == c,
        forall|j: int| i < j < t.len() ==> t[j] != c,
    ensures
        last_index_of(t, c) == Some(i),
{
    assert(t.contains(c));
    let w = choose|w: int| 0 <= w < t.len() && t[w] == c && forall|j: int|
        w < j < t.len() ==> t[j] != c;
    if w < i {
        assert(t[i] != c);
    }
    if i < w {
        assert(t[w] != c);
    }
}

/// Rightmost index of `c` in `t`.
pub fn rfind_char(t: &str, c: char) -> (r: Option<usize>)
    ensures
        match r {
            Some(i) => i < t@.len() && t@[i as int] == c && last_index_of(t@, c) == Some(
                i as int,
            ),
            None => last_index_of(t@, c) is None,
        },
{
    let tlen = t.unicode_len();
    let mut i: usize = tlen;
    while i > 0
        invariant
            tlen == t@.len(),
            i <= tlen,
            forall|j: int| i <= j < tlen ==> t@[j] != c,
        decreases i,
    {
        i -= 1;
        if t.get_char(i) == c {
            proof {
                lemma_last_index_exists(t@, c, i as int);
            }
            return Some(i);
        }
    }
    assert(!t@.contains(c)) by {
        if t@.contains(c) {
            let w = choose|w: int| 0 <= w < t@.len() && t@[w] == c;
            assert(t@[w] != c);
        }
    }
    None
}

/// `t` with every (leftmost-first, non-overlapping) occurrence of `pat`
/// replaced by `sub`. An empty `pat` leaves `t` unchanged.
pub open spec fn spec_replace(t: Seq<char>, pat: Seq<char>, sub: Seq<char>) -> Seq<char>
    decreases t.len(),
{
    if pat.len() == 0 || t.len() < pat.len() {
        t
    } else if t.subrange(0, pat.len() as int) == pat {
        sub + spec_replace(t.skip(pat.len() as int), pat, sub)
    } else {
        seq![t[0]] + spec_replace(t.skip(1), pat, sub)
    }
}

proof fn lemma_replace_step(t: Seq<char>, pat: Seq<char>, sub: Seq<char>, i: int)
    requires
        0 <= i <= t.len(),
        pat.len() > 0,
    ensures
        t.len() - i < pat.len() ==> spec_replace(t.skip(i), pat, sub) == t.skip(i),
        i + pat.len() <= t.len() && is_substring_at(t, pat, i) ==> spec_replace(
            t.skip(i),
            pat,
            sub,
        ) == sub + spec_replace(t.skip(i + pat.len() as int), pat, sub),
        i + pat.len() <= t.len() && !is_substring_at(t, pat, i) ==> spec_replace(
            t.skip(i),
            pat,
            sub,
        ) == seq![t[i]] + spec_replace(t.skip(i + 1), pat, sub),
{
    let s = t.skip(i);
    if i + pat.len() <= t.len() {
        assert(s.subrange(0, pat.len() as int) =~= t.subrange(i, i + pat.len() as int));
        if is_substring_at(t, pat, i) {
            assert(s.skip(pat.len() as int) =~= t.skip(i + pat.len() as int));
        } else {
            assert(s.skip(1) =~= t.skip(i + 1));
            assert(s[0] == t[i]);
        }
    }
}

/// Replace every occurrence of `pat` in `t` by `sub`, leftmost first,
/// never rescanning replaced text.
pub fn replace_all(t: &str, pat: &str, sub: &str) -> (r: String)
    ensures
        r@ == spec_replace(t@, pat@, sub@),
{
    let tlen = t.unicode_len();
    let plen = pat.unicode_len();
    let mut out = String::new();
    if plen == 0 || plen > tlen {
        out.append(t);
        return out;
    }
    let mut i: usize = 0;
    proof {
        assert(t@.skip(0) =~= t@);
        assert(out@ + spec_replace(t@, pat@, sub@) =~= spec_replace(t@, pat@, sub@));
    }
    while i <= tlen - plen
        invariant
            tlen == t@.len(),
            plen == pat@.len(),
            0 < plen <= tlen,
            i <= tlen,
            spec_replace(t@, pat@, sub@) == out@ + spec_replace(t@.skip(i as int), pat@, sub@),
        decreases tlen - i,
    {
        proof {
            lemma_replace_step(t@, pat@, sub@, i as int);
        }
        if match_at(t, pat, i, tlen, plen) {
            let ghost out0 = out@;
            out.append(sub);
            proof {
                assert(out0 + (sub@ + spec_replace(t@.skip(i + plen as int), pat@, sub@)) =~= (
                out0 + sub@) + spec_replace(t@.skip(i + plen as int), pat@, sub@));
            }
            i += plen;
        } else {
            let piece = t.substring_char(i, i + 1);
            assert(piece@ =~= seq![t@[i as int]]);
            let ghost out0 = out@;
            out.append(piece);
            proof {
                assert(out0 + (piece@ + spec_replace(t@.skip(i + 1), pat@, sub@)) =~= (out0
                    + piece@) + spec_replace(t@.skip(i + 1), pat@, sub@));
            }
            i += 1;
        }
    }
    proof {
        lemma_replace_step(t@, pat@, sub@, i as int);
    }
    let tail = t.substring_char(i, tlen);
    assert(tail@ =~= t@.skip(i as int));
    out.append(tail);
    out
}

/// Splitting `t` at every occurrence of `sep`; consecutive separators
/// produce empty segments, and the result always has at least one segment.
pub open spec fn spec_split(t: Seq<char>, sep: char) -> Seq<Seq<char>>
    decreases t.len(),
{
    if t.len() == 0 {
        seq![Seq::<char>::empty()]
    } else {
        let rest = spec_split(t.drop_first(), sep);
        if t[0] == sep {
            seq![Seq::<char>::empty()] + rest
        } else {
            seq![seq![t[0]] + rest[0]] + rest.drop_first()
        }
    }
}

pub proof fn lemma_split_len(t: Seq<char>, sep: char)
    ensures
        spec_split(t, sep).len() >= 1,
    decreases t.len(),
{
    if t.len() > 0 {
        lemma_split_len(t.drop_first(), sep);
    }
}

/// Joining segments with a single separator between each pair.
pub open spec fn spec_join(parts: Seq<Seq<char>>, sep: char) -> Seq<char>
    decreases parts.len(),
{
    if parts.len() == 0 {
        Seq::empty()
    } else if parts.len() == 1 {
        parts[0]
    } else {
        parts[0] + seq![sep] + spec_join(parts.drop_first(), sep)
    }
}

/// The views of a vector of strings.
pub open spec fn views_of(v: Seq<String>) -> Seq<Seq<char>> {
    v.map(|i: int, s: String| s@)
}

proof fn lemma_split_unfold(t: Seq<char>, sep: char, i: int)
    requires
        0 <= i < t.len(),
    ensures
        t[i] == sep ==> spec_split(t.skip(i), sep) == seq![Seq::<char>::empty()] + spec_split(
            t.skip(i + 1),
            sep,
        ),
        t[i] != sep ==> spec_split(t.skip(i), sep) == seq![seq![t[i]] + spec_split(
            t.skip(i + 1),
            sep,
        )[0]] + spec_split(t.skip(i + 1), sep).drop_first(),
{
    let s = t.skip(i);
    assert(s.len() > 0);
    assert(s[0] == t[i]);
    assert(s.drop_first() =~= t.skip(i + 1));
}

/// Prepending a prefix onto the first segment of a split.
spec fn cons_first(head: Seq<char>, parts: Seq<Seq<char>>) -> Seq<Seq<char>>
    recommends
        parts.len() >= 1,
{
    seq![head + parts[0]] + parts.drop_first()
}

/// Split `t` at every occurrence of `sep`.
pub fn split_str(t: &str, sep: char) -> (r: Vec<String>)
    ensures
        views_of(r@) == spec_split(t@, sep),
{
    let tlen = t.unicode_len();
    let mut out: Vec<String> = Vec::new();
    let mut start: usize = 0;
    let mut i: usize = 0;
    proof {
        lemma_split_len(t@, sep);
        let parts = spec_split(t@, sep);
        assert(t@.skip(0) =~= t@);
        assert(t@.subrange(0, 0) =~= Seq::<char>::empty());
        assert(Seq::<char>::empty() + parts[0] =~= parts[0]);
        assert(cons_first(Seq::<char>::empty(), parts) =~= parts);
        assert(views_of(out@) + parts =~= parts);
    }
    while i < tlen
        invariant
            tlen == t@.len(),
            start <= i <= tlen,
            spec_split(t@, sep) == views_of(out@) + cons_first(
                t@.subrange(start as int, i as int),
                spec_split(t@.skip(i as int), sep),
            ),
            spec_split(t@.skip(i as int), sep).len() >= 1,
        decreases tlen - i,
    {
        proof {
            lemma_split_unfold(t@, sep, i as int);
            lemma_split_len(t@.skip(i + 1), sep);
        }
        let c = t.get_char(i);
        if c == sep {
            let seg = String::from_str(t.substring_char(start, i));
            assert(seg@ =~= t@.subrange(start as int, i as int));
            out.push(seg);
            proof {
                let pre = t@.subrange(start as int, i as int);
                let next = spec_split(t@.skip(i + 1), sep);
                assert(cons_first(pre, seq![Seq::<char>::empty()] + next) =~= seq![pre]
                    + cons_first(Seq::<char>::empty(), next));
                assert(pre + Seq::<char>::empty() =~= pre);
                assert((seq![Seq::<char>::empty()] + next).drop_first() =~= next);
                assert(views_of(out@) =~= views_of(out@.drop_last()) + seq![pre]);
                assert(cons_first(Seq::<char>::empty(), next) =~= next);
                assert(views_of(out@.drop_last()) + (seq![pre] + next) =~= (views_of(
                    out@.drop_last(),
                ) + seq![pre]) + next);
            }
            start = i + 1;
        } else {
            proof {
                let pre = t@.subrange(start as int, i as int);
                let next = spec_split(t@.skip(i + 1), sep);
                let cur = spec_split(t@.skip(i as int), sep);
                assert(cur == cons_first(seq![t@[i as int]], next));
                assert(cons_first(pre, cur)[0] == pre + (seq![t@[i as int]] + next[0]));
                assert(cons_first(pre, cur).drop_first() =~= next.drop_first());
                assert(pre + (seq![t@[i as int]] + next[0]) =~= t@.subrange(
                    start as int,
                    i + 1,
                ) + next[0]);
                assert(cons_first(pre, cur) =~= cons_first(t@.subrange(start as int, i + 1), next));
            }
        }
        i += 1;
    }
    let seg = String::from_str(t.substring_char(start, tlen));
    assert(seg@ =~= t@.subrange(start as int, tlen as int));
    out.push(seg);
    proof {
        assert(t@.skip(tlen as int) =~= Seq::<char>::empty());
        assert(spec_split(t@.skip(tlen as int), sep) =~= seq![Seq::<char>::empty()]);
        let pre = t@.subrange(start as int, tlen as int);
        assert(cons_first(pre, seq![Seq::<char>::empty()]) =~= seq![pre]);
        assert(pre + Seq::<char>::empty() =~= pre);
        assert(views_of(out@) =~= views_of(out@.drop_last()) + seq![pre]);
    }
    out
}

/// Join the segments `parts[from..to]` with `sep` between each pair.
pub fn join_range(parts: &Vec<String>, from: usize, to: usize, sep: char) -> (r: String)
    requires
        from <= to <= parts@.len(),
    ensures
        r@ == spec_join(views_of(parts@.subrange(from as int, to as int)), sep),
    decreases to - from,
{
    let ghost seg = views_of(parts@.subrange(from as int, to as int));
    if from == to {
        assert(seg =~= Seq::<Seq<char>>::empty());
        String::new()
    } else if from + 1 == to {
        let r = parts[from].clone();
        assert(seg =~= seq![parts@[from as int]@]);
        r
    } else {
        let mut r = parts[from].clone();
        push_char(&mut r, sep);
        let rest = join_range(parts, from + 1, to, sep);
        r.append(rest.as_str());
        proof {
            let sub = views_of(parts@.subrange(from + 1, to as int));
            assert(seg.drop_first() =~= sub);
            assert(seg[0] == parts@[from as int]@);
            assert(r@ =~= (seg[0] + seq![sep]) + spec_join(sub, sep));
            assert(seg[0] + seq![sep] + spec_join(sub, sep) =~= (seg[0] + seq![sep]) + spec_join(
                sub,
                sep,
            ));
        }
        r
    }
}

/// A whitespace character, as the trimming below understands it.
pub open spec fn is_space(c: char) -> bool {
    c == ' ' || c == '\t' || c == '\n' || c == '\r'
}

/// `t` with leading and trailing whitespace removed: the segment between
/// the first and last non-space characters.
pub open spec fn spec_trim(t: Seq<char>) -> Seq<char> {
    let has = exists|i: int| 0 <= i < t.len() && !is_space(t[i]);
    if has {
        let lo = choose|lo: int|
            0 <= lo < t.len() && !is_space(t[lo]) && forall|j: int| 0 <= j < lo ==> is_space(t[j]);
        let hi = choose|hi: int|
            0 <= hi < t.len() && !is_space(t[hi]) && forall|j: int|
                hi < j < t.len() ==> is_space(t[j]);
        t.subrange(lo, hi + 1)
    } else {
        Seq::empty()
    }
}

/// Remove leading and trailing whitespace.
pub fn trim_str(t: &str) -> (r: String)
    ensures
        r@ == spec_trim(t@),
{
    let tlen = t.unicode_len();
    let mut lo: usize = 0;
    while lo < tlen && is_space_exec(t.get_char(lo))
        invariant
            tlen == t@.len(),
            lo <= tlen,
            forall|j: int| 0 <= j < lo ==> is_space(t@[j]),
        decreases tlen - lo,
    {
        lo += 1;
    }
    if lo == tlen {
        assert(forall|i: int| 0 <= i < t@.len() ==> is_space(t@[i]));
        assert(spec_trim(t@) =~= Seq::<char>::empty());
        return String::new();
    }
    let mut hi: usize = tlen - 1;
    while hi > lo && is_space_exec(t.get_char(hi))
        invariant
            tlen == t@.len(),
            lo <= hi < tlen,
            !is_space(t@[lo as int]),
            forall|j: int| 0 <= j < lo ==> is_space(t@[j]),
            forall|j: int| hi < j < tlen ==> is_space(t@[j]),
        decreases hi,
    {
        hi -= 1;
    }
    let r = String::from_str(t.substring_char(lo, hi + 1));
    proof {
        let lo0 = choose|w: int|
            0 <= w < t@.len() && !is_space(t@[w]) && forall|j: int| 0 <= j < w ==> is_space(t@[j]);
        let hi0 = choose|w: int|
            0 <= w < t@.len() && !is_space(t@[w]) && forall|j: int|
                w < j < t@.len() ==> is_space(t@[j]);
        assert(!is_space(t@[hi as int]));
        if lo0 < lo {
            assert(is_space(t@[lo0]));
        }
        if lo < lo0 {
            assert(is_space(t@[lo as int]));
        }
        if hi0 < hi {
            assert(is_space(t@[hi as int]));
        }
        if hi < hi0 {
            assert(is_space(t@[hi0]));
        }
    }
    r
}

/// Executable form of `is_space`.
pub fn is_space_exec(c: char) -> (r: bool)
    ensures
        r == is_space(c),
{
    c == ' ' || c == '\t' || c == '\n' || c == '\r'
}

/// All characters are decimal digits, and there is at least one.
pub open spec fn is_digits(s: Seq<char>) -> bool {
    s.len() > 0 && forall|i: int| 0 <= i < s.len() ==> '0' <= #[trigger] s[i] <= '9'
}

/// The number the digit string denotes, most significant digit first.
pub open spec fn digits_value(s: Seq<char>) -> nat
    decreases s.len(),
{
    if s.len() == 0 {
        0
    } else {
        digits_value(s.drop_last()) * 10 + ((s.last() as int - '0' as int) as nat)
    }
}

/// Parse a decimal number. Fails on an empty string, a non-digit, or a
/// value that does not fit in `u64`.
pub fn parse_u64(s: &str) -> (r: Option<u64>)
    ensures
        match r {
            Some(v) => is_digits(s@) && v == digits_value(s@),
            None => !is_digits(s@) || digits_value(s@) > u64::MAX,
        },
{
    let slen = s.unicode_len();
    if slen == 0 {
        return None;
    }
    let mut acc: u64 = 0;
    let mut i: usize = 0;
    while i < slen
        invariant
            slen == s@.len(),
            i <= slen,
            forall|j: int| 0 <= j < i ==> '0' <= #[trigger] s@[j] <= '9',
            acc == digits_value(s@.subrange(0, i as int)),
            digits_value(s@.subrange(0, i as int)) <= u64::MAX,
        decreases slen - i,
    {
        let c = s.get_char(i);
        if c < '0' || c > '9' {
            return None;
        }
        let d: u32 = c as u32 - '0' as u32;
        assert(d <= 9) by {
            assert('0' <= c <= '9');
        }
        proof {
            assert(s@.subrange(0, i + 1).drop_last() =~= s@.subrange(0, i as int));
            assert(s@.subrange(0, i + 1).last() == s@[i as int]);
        }
        let limit: u64 = u64::MAX / 10;
        if acc > limit || (acc == limit && d as u64 > u64::MAX % 10) {
            proof {
                let w = s@.subrange(0, i + 1);
                assert(digits_value(w) > u64::MAX);
                if is_digits(s@) {
                    lemma_digits_prefix_le(s@, i + 1);
                }
            }
            return None;
        }
        acc = acc * 10 + d as u64;
        i += 1;
    }
    proof {
        assert(s@.subrange(0, slen as int) =~= s@);
    }
    Some(acc)
}

/// A longer digit string never denotes a smaller number.
proof fn lemma_digits_prefix_le(s: Seq<char>, i: int)
    requires
        0 <= i <= s.len(),
        forall|j: int| 0 <= j < s.len() ==> '0' <= #[trigger] s[j] <= '9',
    ensures
        digits_value(s.subrange(0, i)) <= digits_value(s),
    decreases s.len() - i,
{
    if i < s.len() {
        lemma_digits_prefix_le(s, i + 1);
        let w = s.subrange(0, i + 1);
        assert(w.drop_last() =~= s.subrange(0, i));
        assert(digits_value(w) == digits_value(s.subrange(0, i)) * 10 + ((w.last() as int
            - '0' as int) as nat));
    } else {
        assert(s.subrange(0, i) =~= s);
    }
}

/// Compare two strings, character for character.
pub fn str_eq(key: &str, expected: &str) -> (r: bool)
    ensures
        r == (key@ == expected@),
{
    let klen = key.unicode_len();
    let elen = expected.unicode_len();
    if klen != elen {
        assert(key@ != expected@);
        return false;
    }
    let mut i: usize = 0;
    while i < klen
        invariant
            klen == key@.len(),
            elen == expected@.len(),
            klen == elen,
            i <= klen,
            forall|j: int| 0 <= j < i ==> key@[j] == expected@[j],
        decreases klen - i,
    {
        if key.get_char(i) != expected.get_char(i) {
            return false;
        }
        i += 1;
    }
    assert(key@ =~= expected@);
    true
}

/// An owned copy of a borrowed string.
pub fn owned_str(s: &str) -> (r: String)
    ensures
        r@ == s@,
{
    String::from_str(s)
}

/// Relies on `String::push`: appends exactly one character.
#[verifier::external_body]
pub fn push_char(s: &mut String, c: char)
    ensures
        final(s)@ == old(s)@.push(c),
{
    s.push(c);
}

/// The name of what `str::to_lowercase` returns: the Unicode-lowercased
/// form of a character sequence. It depends on the characters alone.
pub uninterp spec fn lower_of(s: Seq<char>) -> Seq<char>;

/// Relies on `str::to_lowercase`: the result is determined by the input
/// characters alone (no locale), and an empty string stays empty.
#[verifier::external_body]
pub fn to_lowercase(s: &str) -> (r: String)
    ensures
        r@ == lower_of(s@),
        s@.len() == 0 ==> r@.len() == 0,
{
    s.to_lowercase()
}

} // verus!
