//! Finding, splitting and replacing inside text.

use vstd::prelude::*;
use vstd::string::*;

use crate::text::{chars_of, joined, joined_push, slice, texts};

verus! {

// ---------------------------------------------------------------- finding

/// Whether `p` stands in `s` at position `i`.
pub open spec fn matches_at(s: Seq<char>, p: Seq<char>, i: int) -> bool {
    0 <= i && i + p.len() <= s.len() && s.subrange(i, i + p.len()) == p
}

/// The first position of `p` in `s` that is not before `i`.
pub open spec fn found_from(s: Seq<char>, p: Seq<char>, i: int) -> Option<int>
    decreases s.len() - i + 1,
{
    if i < 0 || i + p.len() > s.len() {
        None
    } else if matches_at(s, p, i) {
        Some(i)
    } else {
        found_from(s, p, i + 1)
    }
}

/// The first position of `p` in `s`.
pub open spec fn found(s: Seq<char>, p: Seq<char>) -> Option<int> {
    found_from(s, p, 0)
}

/// Whether `p` stands somewhere in `s`.
pub open spec fn holds(s: Seq<char>, p: Seq<char>) -> bool {
    exists|i: int| matches_at(s, p, i)
}

/// What `found_from` returns is the least match not before `i`.
pub proof fn found_from_is_least(s: Seq<char>, p: Seq<char>, i: int)
    requires
        i >= 0,
    ensures
        match found_from(s, p, i) {
            Some(k) => i <= k && matches_at(s, p, k) && forall|j: int|
                i <= j < k ==> !matches_at(s, p, j),
            None => forall|j: int| i <= j ==> !matches_at(s, p, j),
        },
    decreases s.len() - i + 1,
{
    if i + p.len() > s.len() {
    } else if matches_at(s, p, i) {
    } else {
        found_from_is_least(s, p, i + 1);
    }
}

/// A first position exists exactly where the text holds the pattern.
pub proof fn found_iff_holds(s: Seq<char>, p: Seq<char>)
    ensures
        found(s, p) is Some <==> holds(s, p),
        found(s, p) matches Some(k) ==> matches_at(s, p, k),
{
    found_from_is_least(s, p, 0);
}

/// Searching a suffix is searching the whole from where the suffix starts.
pub proof fn found_in_suffix(s: Seq<char>, p: Seq<char>, at: int, i: int)
    requires
        0 <= at <= s.len(),
        0 <= i,
    ensures
        match found_from(s.skip(at), p, i) {
            Some(k) => found_from(s, p, at + i) == Some(at + k),
            None => found_from(s, p, at + i) is None,
        },
    decreases s.len() - at - i + 1,
{
    let t = s.skip(at);
    if i + p.len() > t.len() {
    } else {
        assert(t.subrange(i, i + p.len()) =~= s.subrange(at + i, at + i + p.len()));
        if matches_at(t, p, i) {
        } else {
            found_in_suffix(s, p, at, i + 1);
        }
    }
}

/// Whether the pattern stands at one position.
pub fn match_at(chars: &Vec<char>, pat: &Vec<char>, at: usize) -> (r: bool)
    requires
        at <= chars@.len(),
    ensures
        r == matches_at(chars@, pat@, at as int),
{
    if pat.len() > chars.len() - at {
        return false;
    }
    let n = chars.len();
    for j in 0..pat.len()
        invariant
            n == chars@.len(),
            at + pat@.len() <= chars@.len(),
            forall|k: int| 0 <= k < j ==> chars@[at + k] == pat@[k],
    {
        if chars[at + j] != pat[j] {
            proof {
                let u = chars@.subrange(at as int, at + pat@.len());
                assert(u[j as int] != pat@[j as int]);
            }
            return false;
        }
    }
    assert(chars@.subrange(at as int, at + pat@.len()) =~= pat@);
    true
}

/// The first position of a pattern that is not before `from`.
pub fn find_from(chars: &Vec<char>, pat: &Vec<char>, from: usize) -> (r: Option<usize>)
    requires
        from <= chars@.len(),
    ensures
        match r {
            Some(i) => found_from(chars@, pat@, from as int) == Some(i as int),
            None => found_from(chars@, pat@, from as int) is None,
        },
        r matches Some(i) ==> from <= i && i + pat@.len() <= chars@.len(),
{
    let mut at: usize = from;
    loop
        invariant
            from <= at <= chars@.len(),
            found_from(chars@, pat@, from as int) == found_from(chars@, pat@, at as int),
        decreases chars@.len() - at,
    {
        if pat.len() > chars.len() - at {
            return None;
        }
        if match_at(chars, pat, at) {
            return Some(at);
        }
        proof {
            if at == chars@.len() {
                assert(chars@.subrange(at as int, at + pat@.len()) =~= pat@);
            }
        }
        at = at + 1;
    }
}

/// Whether a string holds another.
pub fn contains(s: &str, pat: &str) -> (r: bool)
    ensures
        r == holds(s@, pat@),
{
    let chars = chars_of(s);
    let p = chars_of(pat);
    proof {
        found_iff_holds(s@, pat@);
    }
    find_from(&chars, &p, 0).is_some()
}

// ---------------------------------------------------------------- ends

/// Whether a string begins with another.
pub fn starts_with(s: &str, pat: &str) -> (r: bool)
    ensures
        r == pat@.is_prefix_of(s@),
{
    let chars = chars_of(s);
    let p = chars_of(pat);
    match_at(&chars, &p, 0)
}

/// Whether a string ends with another.
pub fn ends_with(s: &str, pat: &str) -> (r: bool)
    ensures
        r == pat@.is_suffix_of(s@),
{
    let chars = chars_of(s);
    let p = chars_of(pat);
    if p.len() > chars.len() {
        return false;
    }
    match_at(&chars, &p, chars.len() - p.len())
}

/// What follows a prefix, where the string begins with it.
pub fn strip_prefix<'a>(s: &'a str, pat: &str) -> (r: Option<&'a str>)
    ensures
        match r {
            Some(rest) => pat@.is_prefix_of(s@) && rest@ == s@.skip(pat@.len() as int),
            None => !pat@.is_prefix_of(s@),
        },
{
    if starts_with(s, pat) {
        let from = pat.unicode_len();
        let to = s.unicode_len();
        assert(s@.subrange(from as int, to as int) =~= s@.skip(pat@.len() as int));
        Some(s.substring_char(from, to))
    } else {
        None
    }
}

/// `s` without the run of `c` at its end.
pub open spec fn trimmed_end_of(s: Seq<char>, c: char) -> Seq<char>
    decreases s.len(),
{
    if s.len() > 0 && s.last() == c {
        trimmed_end_of(s.drop_last(), c)
    } else {
        s
    }
}

/// What is left has no such character at its end, and is a prefix of the whole.
pub proof fn trimmed_end_of_facts(s: Seq<char>, c: char)
    ensures
        trimmed_end_of(s, c).is_prefix_of(s),
        trimmed_end_of(s, c).len() > 0 ==> trimmed_end_of(s, c).last() != c,
    decreases s.len(),
{
    if s.len() > 0 && s.last() == c {
        trimmed_end_of_facts(s.drop_last(), c);
    }
}

/// Takes a run of one character off the end.
pub fn trim_end_of(s: &str, c: char) -> (r: &str)
    ensures
        r@ == trimmed_end_of(s@, c),
{
    let chars = chars_of(s);
    let mut to: usize = chars.len();
    assert(s@.take(to as int) =~= s@);
    while to > 0 && chars[to - 1] == c
        invariant
            to <= chars@.len(),
            chars@ == s@,
            trimmed_end_of(s@, c) == trimmed_end_of(s@.take(to as int), c),
        decreases to,
    {
        assert(s@.take(to as int).drop_last() =~= s@.take(to - 1));
        to = to - 1;
    }
    assert(s@.subrange(0, to as int) =~= s@.take(to as int));
    s.substring_char(0, to)
}

// ---------------------------------------------------------------- splitting

/// What stands before and after the first `p` in `s`.
pub open spec fn cut(s: Seq<char>, p: Seq<char>) -> Option<(Seq<char>, Seq<char>)> {
    match found(s, p) {
        Some(i) => Some((s.take(i), s.skip(i + p.len()))),
        None => None,
    }
}

/// The parts of `s` between the occurrences of `p`, read from the left.
pub open spec fn pieces(s: Seq<char>, p: Seq<char>) -> Seq<Seq<char>>
    recommends
        p.len() > 0,
    decreases s.len(),
    via pieces_decreases
{
    if p.len() == 0 {
        seq![s]
    } else {
        match found(s, p) {
            None => seq![s],
            Some(i) => seq![s.take(i)] + pieces(s.skip(i + p.len()), p),
        }
    }
}

#[via_fn]
proof fn pieces_decreases(s: Seq<char>, p: Seq<char>) {
    found_from_is_least(s, p, 0);
}

/// `s` with each `p` replaced by `q`, read from the left.
pub open spec fn replaced(s: Seq<char>, p: Seq<char>, q: Seq<char>) -> Seq<char>
    recommends
        p.len() > 0,
    decreases s.len(),
    via replaced_decreases
{
    if p.len() == 0 {
        s
    } else {
        match found(s, p) {
            None => s,
            Some(i) => s.take(i) + q + replaced(s.skip(i + p.len()), p, q),
        }
    }
}

#[via_fn]
proof fn replaced_decreases(s: Seq<char>, p: Seq<char>, q: Seq<char>) {
    found_from_is_least(s, p, 0);
}

/// Cuts a string at the first occurrence of another.
pub fn split_once(s: &str, pat: &str) -> (r: Option<(String, String)>)
    ensures
        match r {
            Some((before, after)) => cut(s@, pat@) == Some((before@, after@)),
            None => cut(s@, pat@) is None,
        },
{
    let chars = chars_of(s);
    let p = chars_of(pat);
    match find_from(&chars, &p, 0) {
        Some(i) => {
            let n = chars.len();
            assert(s@.subrange(0, i as int) =~= s@.take(i as int));
            assert(s@.subrange(i + pat@.len(), n as int) =~= s@.skip(i + pat@.len()));
            Some((slice(&chars, 0, i), slice(&chars, i + p.len(), n)))
        },
        None => None,
    }
}

/// Splits a string at every occurrence of another.
pub fn split(s: &str, pat: &str) -> (r: Vec<String>)
    requires
        pat@.len() > 0,
    ensures
        texts(r@) == pieces(s@, pat@),
        r@.len() > 0,
{
    let chars = chars_of(s);
    let p = chars_of(pat);
    let n = chars.len();
    let mut out: Vec<String> = Vec::new();
    let mut at: usize = 0;
    assert(s@.skip(0) =~= s@);
    assert(texts(out@) + pieces(s@.skip(0), pat@) =~= pieces(s@, pat@));
    loop
        invariant
            at <= n == chars@.len(),
            chars@ == s@,
            p@ == pat@,
            pat@.len() > 0,
            texts(out@) + pieces(s@.skip(at as int), pat@) == pieces(s@, pat@),
        decreases n - at,
    {
        let ghost rest = s@.skip(at as int);
        let ghost old_texts = texts(out@);
        proof {
            found_in_suffix(s@, pat@, at as int, 0);
            found_from_is_least(s@, pat@, at as int);
        }
        match find_from(&chars, &p, at) {
            Some(i) => {
                out.push(slice(&chars, at, i));
                proof {
                    assert(found(rest, pat@) == Some(i - at));
                    assert(rest.take(i - at) =~= s@.subrange(at as int, i as int));
                    assert(rest.skip(i - at + pat@.len()) =~= s@.skip(i + pat@.len()));
                    let head = s@.subrange(at as int, i as int);
                    let tail = pieces(s@.skip(i + pat@.len()), pat@);
                    assert(texts(out@) =~= old_texts.push(head));
                    assert(old_texts + (seq![head] + tail) =~= texts(out@) + tail);
                }
                at = i + p.len();
            },
            None => {
                out.push(slice(&chars, at, n));
                proof {
                    assert(found(rest, pat@) is None);
                    assert(rest =~= s@.subrange(at as int, n as int));
                    assert(texts(out@) =~= old_texts + pieces(rest, pat@));
                }
                return out;
            },
        }
    }
}

/// Replaces every occurrence of one string by another.
pub fn replace(s: &str, pat: &str, by: &str) -> (r: String)
    requires
        pat@.len() > 0,
    ensures
        r@ == replaced(s@, pat@, by@),
{
    let chars = chars_of(s);
    let p = chars_of(pat);
    let n = chars.len();
    let mut out = String::new();
    let mut at: usize = 0;
    assert(s@.skip(0) =~= s@);
    assert(out@ + replaced(s@.skip(0), pat@, by@) =~= replaced(s@, pat@, by@));
    loop
        invariant
            at <= n == chars@.len(),
            chars@ == s@,
            p@ == pat@,
            pat@.len() > 0,
            out@ + replaced(s@.skip(at as int), pat@, by@) == replaced(s@, pat@, by@),
        decreases n - at,
    {
        let ghost rest = s@.skip(at as int);
        let ghost old_out = out@;
        proof {
            found_in_suffix(s@, pat@, at as int, 0);
            found_from_is_least(s@, pat@, at as int);
        }
        match find_from(&chars, &p, at) {
            Some(i) => {
                out.append(slice(&chars, at, i).as_str());
                out.append(by);
                proof {
                    assert(found(rest, pat@) == Some(i - at));
                    assert(rest.take(i - at) =~= s@.subrange(at as int, i as int));
                    assert(rest.skip(i - at + pat@.len()) =~= s@.skip(i + pat@.len()));
                    let head = s@.subrange(at as int, i as int);
                    let tail = replaced(s@.skip(i + pat@.len()), pat@, by@);
                    assert(old_out + (head + by@ + tail) =~= out@ + tail);
                }
                at = i + p.len();
            },
            None => {
                out.append(slice(&chars, at, n).as_str());
                proof {
                    assert(found(rest, pat@) is None);
                    assert(rest =~= s@.subrange(at as int, n as int));
                }
                return out;
            },
        }
    }
}

// ---------------------------------------------------------------- lines

/// `line` without a carriage return at its end.
pub open spec fn without_cr(line: Seq<char>) -> Seq<char> {
    if line.len() > 0 && line.last() == '\r' {
        line.drop_last()
    } else {
        line
    }
}

/// The lines of `s`: each ends with a line feed, which may follow a carriage return; the last
/// may lack its ending.
pub open spec fn lines_of(s: Seq<char>) -> Seq<Seq<char>>
    decreases s.len(),
    via lines_decreases
{
    if s.len() == 0 {
        Seq::empty()
    } else {
        match found(s, seq!['\n']) {
            None => seq![s],
            Some(i) => seq![without_cr(s.take(i))] + lines_of(s.skip(i + 1)),
        }
    }
}

#[via_fn]
proof fn lines_decreases(s: Seq<char>) {
    found_from_is_least(s, seq!['\n'], 0);
}

/// Splits a string into its lines.
pub fn lines(s: &str) -> (r: Vec<String>)
    ensures
        texts(r@) == lines_of(s@),
{
    let chars = chars_of(s);
    let n = chars.len();
    let mut p: Vec<char> = Vec::new();
    p.push('\n');
    let ghost nl = seq!['\n'];
    assert(p@ =~= nl);
    let mut out: Vec<String> = Vec::new();
    let mut at: usize = 0;
    assert(s@.skip(0) =~= s@);
    assert(texts(out@) + lines_of(s@.skip(0)) =~= lines_of(s@));
    while at < n
        invariant
            at <= n == chars@.len(),
            chars@ == s@,
            p@ == nl,
            nl == seq!['\n'],
            texts(out@) + lines_of(s@.skip(at as int)) == lines_of(s@),
        decreases n - at,
    {
        let ghost rest = s@.skip(at as int);
        let ghost old_texts = texts(out@);
        proof {
            found_in_suffix(s@, nl, at as int, 0);
            found_from_is_least(s@, nl, at as int);
        }
        match find_from(&chars, &p, at) {
            Some(i) => {
                let end: usize = if i > at && chars[i - 1] == '\r' { i - 1 } else { i };
                out.push(slice(&chars, at, end));
                proof {
                    assert(found(rest, nl) == Some(i - at));
                    let line = rest.take(i - at);
                    assert(line =~= s@.subrange(at as int, i as int));
                    assert(without_cr(line) =~= s@.subrange(at as int, end as int));
                    assert(rest.skip(i - at + 1) =~= s@.skip(i + 1));
                    let tail = lines_of(s@.skip(i + 1));
                    assert(texts(out@) =~= old_texts.push(without_cr(line)));
                    assert(old_texts + (seq![without_cr(line)] + tail) =~= texts(out@) + tail);
                }
                at = i + 1;
            },
            None => {
                out.push(slice(&chars, at, n));
                proof {
                    assert(found(rest, nl) is None);
                    assert(rest =~= s@.subrange(at as int, n as int));
                    assert(texts(out@) =~= old_texts + lines_of(rest));
                }
                return out;
            },
        }
    }
    assert(texts(out@) + lines_of(s@.skip(n as int)) =~= texts(out@));
    out
}

// ---------------------------------------------------------------- laws

/// Cutting a text gives what stands before the first separator and what stands behind it, and
/// nothing is lost.
pub proof fn cuts_are_at_the_first_separator(s: Seq<char>, p: Seq<char>)
    requires
        p.len() > 0,
    ensures
        cut(s, p) is Some <==> holds(s, p),
        cut(s, p) matches Some((before, after)) ==> before + p + after == s && !holds(before, p),
{
    found_iff_holds(s, p);
    found_from_is_least(s, p, 0);
    if let Some(i) = found(s, p) {
        let before = s.take(i);
        assert(before + p + s.skip(i + p.len()) =~= s) by {
            assert(s.subrange(i, i + p.len()) =~= p);
            assert(s =~= s.take(i) + s.subrange(i, i + p.len()) + s.skip(i + p.len()));
        }
        assert forall|j: int| !matches_at(before, p, j) by {
            if matches_at(before, p, j) {
                assert(s.subrange(j, j + p.len()) =~= before.subrange(j, j + p.len()));
                assert(matches_at(s, p, j));
            }
        }
    }
}

/// The pieces of a text, put together with the separator, are the text again, and no piece holds the
/// separator; put together with something else, they are the text with the separator replaced.
pub proof fn pieces_join_back(s: Seq<char>, p: Seq<char>, q: Seq<char>)
    requires
        p.len() > 0,
    ensures
        joined(pieces(s, p), p) == s,
        joined(pieces(s, p), q) == replaced(s, p, q),
        pieces(s, p).len() > 0,
        forall|i: int| 0 <= i < pieces(s, p).len() ==> !holds(#[trigger] pieces(s, p)[i], p),
    decreases s.len(),
{
    cuts_are_at_the_first_separator(s, p);
    found_iff_holds(s, p);
    match found(s, p) {
        None => {
            lemma_joined_front(s, Seq::empty(), p);
            lemma_joined_front(s, Seq::empty(), q);
            assert(seq![s] + Seq::<Seq<char>>::empty() =~= seq![s]);
        },
        Some(i) => {
            let before = s.take(i);
            let after = s.skip(i + p.len());
            assert(cut(s, p) == Some((before, after)));
            pieces_join_back(after, p, q);
            lemma_joined_front(before, pieces(after, p), p);
            lemma_joined_front(before, pieces(after, p), q);
            assert forall|k: int| 0 <= k < pieces(s, p).len() implies !holds(
                #[trigger] pieces(s, p)[k],
                p,
            ) by {
                if k > 0 {
                    assert(pieces(s, p)[k] == pieces(after, p)[k - 1]);
                }
            }
        },
    }
}

proof fn lemma_joined_front(first: Seq<char>, rest: Seq<Seq<char>>, sep: Seq<char>)
    ensures
        joined(seq![first] + rest, sep) == if rest.len() == 0 {
            first
        } else {
            first + sep + joined(rest, sep)
        },
    decreases rest.len(),
{
    let all = seq![first] + rest;
    if rest.len() == 0 {
        assert(all =~= Seq::<Seq<char>>::empty().push(first));
        joined_push(Seq::empty(), first, sep);
    } else {
        let short = rest.drop_last();
        lemma_joined_front(first, short, sep);
        assert(all =~= (seq![first] + short).push(rest.last()));
        assert(rest =~= short.push(rest.last()));
        joined_push(seq![first] + short, rest.last(), sep);
        joined_push(short, rest.last(), sep);
        if short.len() > 0 {
            assert(first + sep + joined(short, sep) + sep + rest.last() =~= first + sep + (joined(
                short,
                sep,
            ) + sep + rest.last()));
        }
    }
}

/// A text without a line break is one line; in front of a line break, with or without a carriage
/// return, stands one line more.
pub proof fn lines_end_at_breaks(line: Seq<char>, rest: Seq<char>)
    requires
        !line.contains('\n'),
    ensures
        line.len() > 0 ==> lines_of(line) == seq![line],
        line.len() > 0 && line.last() == '\r' ==> lines_of(line + seq!['\n'] + rest) == seq![
            line.drop_last(),
        ] + lines_of(rest),
        line.len() == 0 || line.last() != '\r' ==> lines_of(line + seq!['\n'] + rest) == seq![line]
            + lines_of(rest),
        lines_of(Seq::empty()).len() == 0,
{
    let brk = seq!['\n'];
    let s = line + brk + rest;
    found_from_is_least(line, brk, 0);
    found_from_is_least(s, brk, 0);
    assert forall|j: int| !matches_at(line, brk, j) by {
        if matches_at(line, brk, j) {
            assert(line.subrange(j, j + 1)[0] == line[j]);
            assert(line.contains('\n'));
        }
    }
    assert(s.subrange(line.len() as int, line.len() as int + 1) =~= brk);
    assert(matches_at(s, brk, line.len() as int));
    assert forall|j: int| 0 <= j < line.len() implies !matches_at(s, brk, j) by {
        if matches_at(s, brk, j) {
            assert(s.subrange(j, j + 1)[0] == line[j]);
            assert(line.contains('\n'));
        }
    }
    assert(s.take(line.len() as int) =~= line);
    assert(s.skip(line.len() as int + 1) =~= rest);
}

} // verus!
