//! Providers and models disagree about how private reasoning is framed, so every marker form is
//! normalised here before an answer is stored or streamed.

use vstd::prelude::*;
use vstd::string::*;
use vstd::utf8::encode_utf8;

use crate::letters::{ascii_lower, ascii_lowered, lower_ascii};
use crate::search::{find_from, found, found_from_is_least, found_iff_holds, holds, matches_at};
use crate::text::{byte_len, chars_of};

verus! {

// ---------------------------------------------------------------- markers

/// The longer marker that ends the current mode: it closes reasoning or opens it.
pub open spec fn long_marker(in_think: bool) -> Seq<char> {
    if in_think {
        "</thinking>"@
    } else {
        "<thinking>"@
    }
}

/// The shorter marker that ends the current mode.
pub open spec fn short_marker(in_think: bool) -> Seq<char> {
    if in_think {
        "</think>"@
    } else {
        "<think>"@
    }
}

/// The two markers that end the current mode, the longer one first.
pub fn thinking_markers(in_think: bool) -> (r: [&'static str; 2])
    ensures
        r@[0]@ == long_marker(in_think),
        r@[1]@ == short_marker(in_think),
{
    if in_think {
        ["</thinking>", "</think>"]
    } else {
        ["<thinking>", "<think>"]
    }
}

/// The first marker in text whose ASCII letters are in lower case: its position and length.
pub open spec fn first_marker(low: Seq<char>, in_think: bool) -> Option<(int, int)> {
    let long = long_marker(in_think);
    let short = short_marker(in_think);
    match (found(low, long), found(low, short)) {
        (Some(i), Some(j)) => if i <= j {
            Some((i, long.len() as int))
        } else {
            Some((j, short.len() as int))
        },
        (Some(i), None) => Some((i, long.len() as int)),
        (None, Some(j)) => Some((j, short.len() as int)),
        (None, None) => None,
    }
}

/// The first marker in `s`, in any mixture of upper and lower case: its position and length.
pub open spec fn marker_found(s: Seq<char>, in_think: bool) -> Option<(int, int)> {
    first_marker(ascii_lowered(s), in_think)
}

/// What is known of the characters of the markers.
proof fn lemma_markers(in_think: bool)
    ensures
        ({
            let long = long_marker(in_think);
            let short = short_marker(in_think);
            &&& 7 <= short.len() < long.len() <= 11
            &&& long[0] == '<' && short[0] == '<'
            &&& forall|k: int| 0 < k < long.len() ==> long[k] != '<'
            &&& forall|k: int| 0 < k < short.len() ==> short[k] != '<'
            &&& short[short.len() - 1] == '>'
            &&& long[short.len() - 1] == 'i'
        }),
{
    reveal_strlit("</thinking>");
    reveal_strlit("</think>");
    reveal_strlit("<thinking>");
    reveal_strlit("<think>");
}

proof fn lemma_first_marker(low: Seq<char>, in_think: bool)
    ensures
        match first_marker(low, in_think) {
            Some((i, n)) => {
                &&& 0 <= i && i + n <= low.len() && n >= 7
                &&& low[i] == '<'
                &&& forall|j: int| 0 <= j < i ==> !matches_at(low, long_marker(in_think), j)
                &&& forall|j: int| 0 <= j < i ==> !matches_at(low, short_marker(in_think), j)
                &&& ({
                    ||| n == long_marker(in_think).len() && matches_at(
                        low,
                        long_marker(in_think),
                        i,
                    )
                    ||| n == short_marker(in_think).len() && matches_at(
                        low,
                        short_marker(in_think),
                        i,
                    ) && !matches_at(low, long_marker(in_think), i)
                })
            },
            None => forall|j: int|
                !matches_at(low, long_marker(in_think), j) && !matches_at(
                    low,
                    short_marker(in_think),
                    j,
                ),
        },
{
    lemma_markers(in_think);
    let long = long_marker(in_think);
    let short = short_marker(in_think);
    found_from_is_least(low, long, 0);
    found_from_is_least(low, short, 0);
    if let Some((i, n)) = first_marker(low, in_think) {
        if matches_at(low, long, i) {
            assert(low.subrange(i, i + long.len())[0] == low[i]);
        } else {
            assert(matches_at(low, short, i));
            assert(low.subrange(i, i + short.len())[0] == low[i]);
        }
    }
}

/// Finds the first marker that ends the current mode. Positions count characters.
fn locate_marker(input: &str, in_think: bool) -> (r: Option<(usize, usize)>)
    ensures
        match r {
            Some((i, n)) => marker_found(input@, in_think) == Some((i as int, n as int)) && i + n
                <= input@.len() && n >= 7,
            None => marker_found(input@, in_think) is None,
        },
{
    let chars = chars_of(input);
    let mut low: Vec<char> = Vec::new();
    for i in 0..chars.len()
        invariant
            chars@ == input@,
            low@ == ascii_lowered(input@.take(i as int)),
    {
        low.push(lower_ascii(chars[i]));
        assert(low@ =~= ascii_lowered(input@.take(i + 1)));
    }
    assert(input@.take(input@.len() as int) =~= input@);
    let markers = thinking_markers(in_think);
    let long = chars_of(markers[0]);
    let short = chars_of(markers[1]);
    proof {
        lemma_first_marker(low@, in_think);
    }
    let at_long = find_from(&low, &long, 0);
    let at_short = find_from(&low, &short, 0);
    match (at_long, at_short) {
        (Some(i), Some(j)) => if i <= j {
            Some((i, long.len()))
        } else {
            Some((j, short.len()))
        },
        (Some(i), None) => Some((i, long.len())),
        (None, Some(j)) => Some((j, short.len())),
        (None, None) => None,
    }
}

/// Finds the first marker that ends the current mode: where it starts and how long it is, in bytes
/// of UTF-8.
pub fn find_thinking_marker(input: &str, in_think: bool) -> (r: Option<(usize, usize)>)
    ensures
        match r {
            Some((at, n)) => marker_found(input@, in_think) matches Some((i, len)) && at
                == encode_utf8(input@.take(i)).len() && n == len,
            None => marker_found(input@, in_think) is None,
        },
{
    match locate_marker(input, in_think) {
        Some((index, marker_len)) => {
            let before = input.substring_char(0, index);
            assert(before@ =~= input@.take(index as int));
            Some((byte_len(before), marker_len))
        },
        None => None,
    }
}

// ---------------------------------------------------------------- complete text

/// The visible answer and the private reasoning of `s`, where reading starts in one of the modes.
pub open spec fn split_text(s: Seq<char>, in_think: bool) -> (Seq<char>, Seq<char>)
    decreases s.len(),
    via split_text_decreases
{
    match marker_found(s, in_think) {
        None => if in_think {
            (Seq::empty(), s)
        } else {
            (s, Seq::empty())
        },
        Some((i, n)) => {
            let rest = split_text(s.skip(i + n), !in_think);
            if in_think {
                (rest.0, s.take(i) + rest.1)
            } else {
                (s.take(i) + rest.0, rest.1)
            }
        },
    }
}

#[via_fn]
proof fn split_text_decreases(s: Seq<char>, in_think: bool) {
    lemma_first_marker(ascii_lowered(s), in_think);
}

/// Splits a complete text into its visible answer and its private reasoning.
pub fn split_thinking(input: &str) -> (r: (String, String))
    ensures
        (r.0@, r.1@) == split_text(input@, false),
{
    let mut answer = String::new();
    let mut reasoning = String::new();
    let mut remaining = input;
    let mut in_think = false;
    proof {
        assert(answer@ + split_text(input@, false).0 =~= split_text(input@, false).0);
        assert(reasoning@ + split_text(input@, false).1 =~= split_text(input@, false).1);
    }
    loop
        invariant
            answer@ + split_text(remaining@, in_think).0 == split_text(input@, false).0,
            reasoning@ + split_text(remaining@, in_think).1 == split_text(input@, false).1,
        decreases remaining@.len(),
    {
        let ghost rest = split_text(remaining@, in_think);
        match locate_marker(remaining, in_think) {
            Some((index, marker_len)) => {
                let piece = remaining.substring_char(0, index);
                let total = remaining.unicode_len();
                let ghost before = remaining@;
                let ghost a = answer@;
                let ghost g = reasoning@;
                if in_think {
                    reasoning.append(piece);
                } else {
                    answer.append(piece);
                }
                remaining = remaining.substring_char(index + marker_len, total);
                proof {
                    assert(piece@ =~= before.take(index as int));
                    assert(remaining@ =~= before.skip(index + marker_len));
                    let tail = split_text(remaining@, !in_think);
                    if in_think {
                        assert(g + (piece@ + tail.1) =~= reasoning@ + tail.1);
                    } else {
                        assert(a + (piece@ + tail.0) =~= answer@ + tail.0);
                    }
                }
                in_think = !in_think;
            },
            None => {
                proof {
                    assert(answer@ + Seq::<char>::empty() =~= answer@);
                    assert(reasoning@ + Seq::<char>::empty() =~= reasoning@);
                }
                if in_think {
                    reasoning.append(remaining);
                } else {
                    answer.append(remaining);
                }
                return (answer, reasoning);
            },
        }
    }
}

/// The visible answer alone.
pub fn strip_thinking(input: &str) -> (r: String)
    ensures
        r@ == split_text(input@, false).0,
{
    split_thinking(input).0
}

// ---------------------------------------------------------------- streamed text

/// Whether the last `k` characters of `s` begin a marker that is not complete yet.
pub open spec fn begins_marker(s: Seq<char>, in_think: bool, k: int) -> bool {
    let low = ascii_lowered(s);
    &&& 1 <= k <= s.len()
    &&& ({
        ||| k < long_marker(in_think).len() && low.skip(s.len() - k) == long_marker(in_think).take(k)
        ||| k < short_marker(in_think).len() && low.skip(s.len() - k) == short_marker(
            in_think,
        ).take(k)
    })
}

/// The greatest length up to `k` of an end of `s` that begins a marker, or 0.
pub open spec fn marker_start_up_to(s: Seq<char>, in_think: bool, k: nat) -> nat
    decreases k,
{
    if k == 0 {
        0
    } else if begins_marker(s, in_think, k as int) {
        k
    } else {
        marker_start_up_to(s, in_think, (k - 1) as nat)
    }
}

/// The length of the longest end of `s` that may turn out to be the beginning of a marker.
pub open spec fn marker_start(s: Seq<char>, in_think: bool) -> nat {
    marker_start_up_to(s, in_think, long_marker(in_think).len())
}

proof fn lemma_marker_start(s: Seq<char>, in_think: bool, k: nat)
    ensures
        marker_start_up_to(s, in_think, k) <= k,
        marker_start_up_to(s, in_think, k) <= s.len(),
        forall|j: int|
            marker_start_up_to(s, in_think, k) < j <= k ==> !begins_marker(s, in_think, j),
    decreases k,
{
    if k > 0 && !begins_marker(s, in_think, k as int) {
        lemma_marker_start(s, in_think, (k - 1) as nat);
    }
}

fn ends_with_start(low: &Vec<char>, marker: &Vec<char>, size: usize) -> (r: bool)
    requires
        size <= marker@.len(),
    ensures
        r == (size <= low@.len() && low@.skip(low@.len() - size) == marker@.take(size as int)),
{
    if size > low.len() {
        return false;
    }
    let n = low.len();
    let start = n - size;
    for j in 0..size
        invariant
            n == low@.len(),
            start == low@.len() - size,
            size <= low@.len(),
            size <= marker@.len(),
            forall|k: int| 0 <= k < j ==> low@[start + k] == marker@[k],
    {
        if low[start + j] != marker[j] {
            proof {
                assert(low@.skip(start as int)[j as int] != marker@.take(size as int)[j as int]);
            }
            return false;
        }
    }
    assert(low@.skip(start as int) =~= marker@.take(size as int));
    true
}

/// How many characters at the end may turn out to be the beginning of a marker.
pub fn thinking_marker_suffix_len(input: &str, in_think: bool) -> (r: usize)
    ensures
        r == marker_start(input@, in_think),
        r <= input@.len(),
{
    let chars = chars_of(input);
    let mut low: Vec<char> = Vec::new();
    for i in 0..chars.len()
        invariant
            chars@ == input@,
            low@ == ascii_lowered(input@.take(i as int)),
    {
        low.push(lower_ascii(chars[i]));
        assert(low@ =~= ascii_lowered(input@.take(i + 1)));
    }
    assert(input@.take(input@.len() as int) =~= input@);
    let markers = thinking_markers(in_think);
    let long = chars_of(markers[0]);
    let short = chars_of(markers[1]);
    let mut size: usize = long.len();
    proof {
        lemma_marker_start(input@, in_think, long@.len());
    }
    while size > 0
        invariant
            size <= long@.len(),
            low@ == ascii_lowered(input@),
            long@ == long_marker(in_think),
            short@ == short_marker(in_think),
            marker_start(input@, in_think) == marker_start_up_to(input@, in_think, size as nat),
            marker_start(input@, in_think) <= input@.len(),
        decreases size,
    {
        if (size < long.len() && ends_with_start(&low, &long, size)) || (size < short.len()
            && ends_with_start(&low, &short, size)) {
            return size;
        }
        size = size - 1;
    }
    0
}

/// Pieces of output: whether each is reasoning, and its text.
pub open spec fn pieces_of(v: Seq<(bool, String)>) -> Seq<(bool, Seq<char>)> {
    v.map_values(|p: (bool, String)| (p.0, p.1@))
}

/// A piece, or none where it has no text.
pub open spec fn piece(reasoning: bool, s: Seq<char>) -> Seq<(bool, Seq<char>)> {
    if s.len() > 0 {
        seq![(reasoning, s)]
    } else {
        Seq::empty()
    }
}

/// What reading the waiting text yields: the mode afterwards, what still waits, and the pieces
/// that are certain.
pub open spec fn drained(in_think: bool, waiting: Seq<char>) -> (bool, Seq<char>, Seq<
    (bool, Seq<char>),
>)
    decreases waiting.len(),
    via drained_decreases
{
    match marker_found(waiting, in_think) {
        Some((i, n)) => {
            let rest = drained(!in_think, waiting.skip(i + n));
            (rest.0, rest.1, piece(in_think, waiting.take(i)) + rest.2)
        },
        None => {
            let safe = waiting.len() - marker_start(waiting, in_think);
            (in_think, waiting.skip(safe), piece(in_think, waiting.take(safe)))
        },
    }
}

#[via_fn]
proof fn drained_decreases(in_think: bool, waiting: Seq<char>) {
    lemma_first_marker(ascii_lowered(waiting), in_think);
}

/// Splits text that arrives in chunks. An end that may be the beginning of a marker waits until
/// the next chunk decides.
pub struct ThinkingStream {
    in_think: bool,
    pending: String,
}

impl View for ThinkingStream {
    type V = (bool, Seq<char>);

    closed spec fn view(&self) -> (bool, Seq<char>) {
        (self.in_think, self.pending@)
    }
}

impl ThinkingStream {
    /// A stream that has read nothing.
    pub fn new() -> (r: Self)
        ensures
            r@ == (false, Seq::<char>::empty()),
    {
        ThinkingStream { in_think: false, pending: String::new() }
    }

    /// Reads one chunk and returns the pieces that are certain.
    pub fn push(&mut self, input: &str) -> (r: Vec<(bool, String)>)
        ensures
            (final(self)@.0, final(self)@.1, pieces_of(r@)) == drained(
                old(self)@.0,
                old(self)@.1 + input@,
            ),
    {
        let ghost start = drained(self.in_think, self.pending@ + input@);
        let mut waiting = self.pending.clone();
        waiting.append(input);
        let mut in_think = self.in_think;
        let mut output: Vec<(bool, String)> = Vec::new();
        assert(pieces_of(output@) + start.2 =~= start.2);
        loop
            invariant
                start == drained(old(self)@.0, old(self)@.1 + input@),
                ({
                    let rest = drained(in_think, waiting@);
                    &&& rest.0 == start.0
                    &&& rest.1 == start.1
                    &&& pieces_of(output@) + rest.2 == start.2
                }),
            decreases waiting@.len(),
        {
            let ghost before = waiting@;
            let ghost done = pieces_of(output@);
            let total = waiting.as_str().unicode_len();
            match locate_marker(waiting.as_str(), in_think) {
                Some((index, marker_len)) => {
                    let head = waiting.as_str().substring_char(0, index).to_owned();
                    let tail = waiting.as_str().substring_char(index + marker_len, total).to_owned();
                    let ghost certain = head@;
                    proof {
                        assert(head@ =~= before.take(index as int));
                        assert(tail@ =~= before.skip(index + marker_len));
                    }
                    if index > 0 {
                        output.push((in_think, head));
                    }
                    proof {
                        assert(pieces_of(output@) =~= done + piece(in_think, certain));
                        let rest = drained(!in_think, tail@);
                        assert(done + (piece(in_think, certain) + rest.2) =~= pieces_of(output@)
                            + rest.2);
                    }
                    waiting = tail;
                    in_think = !in_think;
                },
                None => {
                    let keep = thinking_marker_suffix_len(waiting.as_str(), in_think);
                    let safe = total - keep;
                    let head = waiting.as_str().substring_char(0, safe).to_owned();
                    let tail = waiting.as_str().substring_char(safe, total).to_owned();
                    let ghost certain = head@;
                    proof {
                        assert(head@ =~= before.take(safe as int));
                        assert(tail@ =~= before.skip(safe as int));
                    }
                    if safe > 0 {
                        output.push((in_think, head));
                    }
                    proof {
                        assert(pieces_of(output@) =~= done + piece(in_think, certain));
                    }
                    self.in_think = in_think;
                    self.pending = tail;
                    return output;
                },
            }
        }
    }

    /// Ends the stream: what still waits is text after all.
    pub fn finish(&mut self) -> (r: Vec<(bool, String)>)
        ensures
            pieces_of(r@) == piece(old(self)@.0, old(self)@.1),
            final(self)@ == (old(self)@.0, Seq::<char>::empty()),
    {
        let mut output: Vec<(bool, String)> = Vec::new();
        if !self.pending.as_str().is_empty() {
            output.push((self.in_think, self.pending.clone()));
        }
        assert(pieces_of(output@) =~= piece(self.in_think, self.pending@));
        self.pending = String::new();
        output
    }
}

// ---------------------------------------------------------------- laws

/// The texts of the pieces of one kind, in order.
pub open spec fn gathered(pieces: Seq<(bool, Seq<char>)>, reasoning: bool) -> Seq<char>
    decreases pieces.len(),
{
    if pieces.len() == 0 {
        Seq::empty()
    } else if pieces.last().0 == reasoning {
        gathered(pieces.drop_last(), reasoning) + pieces.last().1
    } else {
        gathered(pieces.drop_last(), reasoning)
    }
}

/// The chunks of a stream, one after the other.
pub open spec fn whole(chunks: Seq<Seq<char>>) -> Seq<char>
    decreases chunks.len(),
{
    if chunks.len() == 0 {
        Seq::empty()
    } else {
        whole(chunks.drop_last()) + chunks.last()
    }
}

/// The state of a stream that has read the chunks, and the pieces it has returned.
pub open spec fn after_chunks(chunks: Seq<Seq<char>>) -> (bool, Seq<char>, Seq<(bool, Seq<char>)>)
    decreases chunks.len(),
{
    if chunks.len() == 0 {
        (false, Seq::empty(), Seq::empty())
    } else {
        let before = after_chunks(chunks.drop_last());
        let step = drained(before.0, before.1 + chunks.last());
        (step.0, step.1, before.2 + step.2)
    }
}

/// All pieces that a stream returns: those of its chunks and those of its end.
pub open spec fn streamed(chunks: Seq<Seq<char>>) -> Seq<(bool, Seq<char>)> {
    let state = after_chunks(chunks);
    state.2 + piece(state.0, state.1)
}

/// The texts of two lists of pieces, one after the other.
pub proof fn gathered_adds_up(a: Seq<(bool, Seq<char>)>, b: Seq<(bool, Seq<char>)>, reasoning: bool)
    ensures
        gathered(a + b, reasoning) == gathered(a, reasoning) + gathered(b, reasoning),
    decreases b.len(),
{
    if b.len() == 0 {
        assert(a + b =~= a);
        assert(gathered(a, reasoning) + gathered(b, reasoning) =~= gathered(a, reasoning));
    } else {
        gathered_adds_up(a, b.drop_last(), reasoning);
        assert((a + b).drop_last() =~= a + b.drop_last());
        assert((a + b).last() == b.last());
        assert(gathered(a, reasoning) + (gathered(b.drop_last(), reasoning) + b.last().1)
            =~= gathered(a, reasoning) + gathered(b.drop_last(), reasoning) + b.last().1);
    }
}

proof fn lemma_gathered_piece(kind: bool, s: Seq<char>, reasoning: bool)
    ensures
        gathered(piece(kind, s), reasoning) == if kind == reasoning {
            s
        } else {
            Seq::<char>::empty()
        },
{
    reveal_with_fuel(gathered, 2);
    if s.len() > 0 {
        let p = piece(kind, s);
        assert(p.drop_last() =~= Seq::empty());
        assert(Seq::<char>::empty() + s =~= s);
    } else {
        assert(s =~= Seq::empty());
    }
}

proof fn lemma_lowered_add(a: Seq<char>, b: Seq<char>)
    ensures
        ascii_lowered(a + b) == ascii_lowered(a) + ascii_lowered(b),
{
    assert(ascii_lowered(a + b) =~= ascii_lowered(a) + ascii_lowered(b));
}

/// A match that ends inside the first part is a match of the first part.
proof fn lemma_match_in_prefix(a: Seq<char>, b: Seq<char>, m: Seq<char>, i: int)
    requires
        0 <= i,
        i + m.len() <= a.len(),
    ensures
        matches_at(a + b, m, i) == matches_at(a, m, i),
{
    assert((a + b).subrange(i, i + m.len()) =~= a.subrange(i, i + m.len()));
}

/// The first marker of a text stays its first marker when more text follows.
proof fn lemma_marker_is_stable(p: Seq<char>, x: Seq<char>, in_think: bool)
    requires
        first_marker(p, in_think) is Some,
    ensures
        first_marker(p + x, in_think) == first_marker(p, in_think),
{
    let long = long_marker(in_think);
    let short = short_marker(in_think);
    let s = p + x;
    let (i, n) = first_marker(p, in_think)->0;
    lemma_markers(in_think);
    lemma_first_marker(p, in_think);
    lemma_first_marker(s, in_think);
    found_from_is_least(s, long, 0);
    found_from_is_least(s, short, 0);
    assert(s[i] == p[i]);
    // No marker of the longer text starts before the marker at i.
    assert forall|j: int| 0 <= j < i implies !matches_at(s, long, j) && !matches_at(s, short, j) by {
        if matches_at(s, long, j) {
            if j + long.len() <= p.len() {
                lemma_match_in_prefix(p, x, long, j);
            } else {
                assert(s.subrange(j, j + long.len())[i - j] == s[i]);
                assert(long[i - j] == '<');
            }
        }
        if matches_at(s, short, j) {
            if j + short.len() <= p.len() {
                lemma_match_in_prefix(p, x, short, j);
            } else {
                assert(s.subrange(j, j + short.len())[i - j] == s[i]);
                assert(short[i - j] == '<');
            }
        }
    }
    if matches_at(p, long, i) {
        lemma_match_in_prefix(p, x, long, i);
        assert(n == long.len()) by {
            if n != long.len() {
                assert(!matches_at(p, long, i));
            }
        }
        assert(found(s, long) == Some(i));
    } else {
        lemma_match_in_prefix(p, x, short, i);
        assert(found(s, short) == Some(i));
        if matches_at(s, long, i) {
            let k = short.len() - 1;
            assert(s.subrange(i, i + long.len())[k] == s[i + k]);
            assert(p.subrange(i, i + short.len())[k] == p[i + k]);
            assert(s[i + k] == p[i + k]);
            assert(false);
        }
    }
}

/// A marker of the longer text cannot start in the part that a stream has let go.
proof fn lemma_safe_part(p: Seq<char>, x: Seq<char>, in_think: bool, m: Seq<char>, j: int)
    requires
        marker_found(p, in_think) is None,
        m == long_marker(in_think) || m == short_marker(in_think),
        0 <= j < p.len() - marker_start(p, in_think),
    ensures
        !matches_at(ascii_lowered(p) + x, m, j),
{
    let low = ascii_lowered(p);
    let s = low + x;
    lemma_markers(in_think);
    lemma_first_marker(low, in_think);
    lemma_marker_start(p, in_think, long_marker(in_think).len());
    if matches_at(s, m, j) {
        if j + m.len() <= low.len() {
            lemma_match_in_prefix(low, x, m, j);
        } else {
            let k = p.len() - j;
            assert(low.skip(p.len() - k) =~= m.take(k)) by {
                assert forall|q: int| 0 <= q < k implies low.skip(p.len() - k)[q] == m.take(k)[q] by {
                    assert(s.subrange(j, j + m.len())[q] == s[j + q]);
                    assert(s[j + q] == low[j + q]);
                }
            }
            assert(begins_marker(p, in_think, k));
        }
    }
}

/// Letting go of the safe part moves each first marker by its length.
proof fn lemma_found_shift(p: Seq<char>, lx: Seq<char>, in_think: bool, m: Seq<char>)
    requires
        marker_found(p, in_think) is None,
        m == long_marker(in_think) || m == short_marker(in_think),
    ensures
        ({
            let safe = p.len() - marker_start(p, in_think);
            let big = ascii_lowered(p) + lx;
            match found(big.skip(safe), m) {
                Some(k) => found(big, m) == Some(k + safe),
                None => found(big, m) is None,
            }
        }),
{
    lemma_marker_start(p, in_think, long_marker(in_think).len());
    let safe = p.len() - marker_start(p, in_think);
    let big = ascii_lowered(p) + lx;
    let small = big.skip(safe);
    found_from_is_least(small, m, 0);
    found_from_is_least(big, m, 0);
    assert forall|j: int| safe <= j implies matches_at(big, m, j) == #[trigger] matches_at(
        small,
        m,
        j - safe,
    ) by {
        if j + m.len() <= big.len() {
            assert(big.subrange(j, j + m.len()) =~= small.subrange(j - safe, j - safe + m.len()));
        }
    }
    assert forall|j: int| 0 <= j < safe implies !matches_at(big, m, j) by {
        lemma_safe_part(p, lx, in_think, m, j);
    }
    match found(small, m) {
        Some(k) => {
            assert(matches_at(small, m, (k + safe) - safe));
            let b = found(big, m)->0;
            assert(b >= safe);
            assert(matches_at(small, m, b - safe));
        },
        None => {
            if found(big, m) is Some {
                let b = found(big, m)->0;
                assert(matches_at(small, m, b - safe));
            }
        },
    }
}

/// What is let go, what waits and what comes make up the same text.
proof fn lemma_release(p: Seq<char>, x: Seq<char>, in_think: bool)
    requires
        marker_found(p, in_think) is None,
    ensures
        ({
            let safe = p.len() - marker_start(p, in_think);
            let rest = split_text(p.skip(safe) + x, in_think);
            split_text(p + x, in_think) == if in_think {
                (rest.0, p.take(safe) + rest.1)
            } else {
                (p.take(safe) + rest.0, rest.1)
            }
        }),
{
    let safe = p.len() - marker_start(p, in_think);
    lemma_marker_start(p, in_think, long_marker(in_think).len());
    lemma_lowered_add(p, x);
    lemma_lowered_add(p.skip(safe), x);
    let lx = ascii_lowered(x);
    let big = ascii_lowered(p) + lx;
    let small = ascii_lowered(p.skip(safe)) + lx;
    assert(small =~= big.skip(safe));
    lemma_found_shift(p, lx, in_think, long_marker(in_think));
    lemma_found_shift(p, lx, in_think, short_marker(in_think));
    let whole_text = p + x;
    let left = p.skip(safe) + x;
    match marker_found(left, in_think) {
        Some((i, n)) => {
            lemma_first_marker(small, in_think);
            assert(marker_found(whole_text, in_think) == Some((i + safe, n)));
            assert(whole_text.skip(i + safe + n) =~= left.skip(i + n));
            assert(whole_text.take(i + safe) =~= p.take(safe) + left.take(i));
            let tail = split_text(left.skip(i + n), !in_think);
            assert(p.take(safe) + (left.take(i) + tail.0) =~= p.take(safe) + left.take(i) + tail.0);
            assert(p.take(safe) + (left.take(i) + tail.1) =~= p.take(safe) + left.take(i) + tail.1);
        },
        None => {
            assert(whole_text =~= p.take(safe) + left);
        },
    }
}

/// Reading what waits neither loses nor moves text, whatever comes after it.
proof fn lemma_drained(in_think: bool, p: Seq<char>, x: Seq<char>)
    ensures
        ({
            let d = drained(in_think, p);
            let rest = split_text(d.1 + x, d.0);
            split_text(p + x, in_think) == (
                gathered(d.2, false) + rest.0,
                gathered(d.2, true) + rest.1,
            )
        }),
        marker_found(drained(in_think, p).1, drained(in_think, p).0) is None,
    decreases p.len(),
{
    let d = drained(in_think, p);
    let rest = split_text(d.1 + x, d.0);
    match marker_found(p, in_think) {
        Some((i, n)) => {
            lemma_first_marker(ascii_lowered(p), in_think);
            lemma_lowered_add(p, x);
            lemma_marker_is_stable(ascii_lowered(p), ascii_lowered(x), in_think);
            let q = p.skip(i + n);
            lemma_drained(!in_think, q, x);
            assert((p + x).skip(i + n) =~= q + x);
            assert((p + x).take(i) =~= p.take(i));
            let e = drained(!in_think, q);
            gathered_adds_up(piece(in_think, p.take(i)), e.2, false);
            gathered_adds_up(piece(in_think, p.take(i)), e.2, true);
            lemma_gathered_piece(in_think, p.take(i), false);
            lemma_gathered_piece(in_think, p.take(i), true);
            assert(p.take(i) + (gathered(e.2, false) + rest.0) =~= p.take(i) + gathered(e.2, false)
                + rest.0);
            assert(p.take(i) + (gathered(e.2, true) + rest.1) =~= p.take(i) + gathered(e.2, true)
                + rest.1);
            assert(Seq::<char>::empty() + gathered(e.2, false) =~= gathered(e.2, false));
            assert(Seq::<char>::empty() + gathered(e.2, true) =~= gathered(e.2, true));
        },
        None => {
            let safe = p.len() - marker_start(p, in_think);
            lemma_release(p, x, in_think);
            lemma_marker_start(p, in_think, long_marker(in_think).len());
            lemma_gathered_piece(in_think, p.take(safe), false);
            lemma_gathered_piece(in_think, p.take(safe), true);
            assert(Seq::<char>::empty() + rest.0 =~= rest.0);
            assert(Seq::<char>::empty() + rest.1 =~= rest.1);
            // A marker in what waits would be a marker in the whole.
            let low = ascii_lowered(p);
            let tail = ascii_lowered(p.skip(safe));
            assert(tail =~= low.skip(safe));
            lemma_first_marker(low, in_think);
            lemma_first_marker(tail, in_think);
            if let Some((i, n)) = first_marker(tail, in_think) {
                let m = if n == long_marker(in_think).len() && matches_at(
                    tail,
                    long_marker(in_think),
                    i,
                ) {
                    long_marker(in_think)
                } else {
                    short_marker(in_think)
                };
                assert(matches_at(tail, m, i));
                assert(low.subrange(i + safe, i + safe + m.len()) =~= tail.subrange(
                    i,
                    i + m.len(),
                ));
                assert(matches_at(low, m, i + safe));
            }
        },
    }
}

proof fn lemma_after_chunks(chunks: Seq<Seq<char>>, x: Seq<char>)
    ensures
        ({
            let d = after_chunks(chunks);
            let rest = split_text(d.1 + x, d.0);
            split_text(whole(chunks) + x, false) == (
                gathered(d.2, false) + rest.0,
                gathered(d.2, true) + rest.1,
            )
        }),
        marker_found(after_chunks(chunks).1, after_chunks(chunks).0) is None,
    decreases chunks.len(),
{
    let d = after_chunks(chunks);
    let rest = split_text(d.1 + x, d.0);
    if chunks.len() == 0 {
        assert(Seq::<char>::empty() + rest.0 =~= rest.0);
        assert(Seq::<char>::empty() + rest.1 =~= rest.1);
        lemma_first_marker(ascii_lowered(Seq::empty()), false);
    } else {
        let last = chunks.last();
        lemma_after_chunks(chunks.drop_last(), last + x);
        let before = after_chunks(chunks.drop_last());
        assert(whole(chunks) + x =~= whole(chunks.drop_last()) + (last + x));
        assert(before.1 + (last + x) =~= before.1 + last + x);
        lemma_drained(before.0, before.1 + last, x);
        let step = drained(before.0, before.1 + last);
        gathered_adds_up(before.2, step.2, false);
        gathered_adds_up(before.2, step.2, true);
        assert(gathered(before.2, false) + (gathered(step.2, false) + rest.0) =~= gathered(
            before.2,
            false,
        ) + gathered(step.2, false) + rest.0);
        assert(gathered(before.2, true) + (gathered(step.2, true) + rest.1) =~= gathered(
            before.2,
            true,
        ) + gathered(step.2, true) + rest.1);
    }
}

/// However a text is cut into chunks, a stream separates the same answer and the same reasoning
/// as the complete text does.
pub proof fn streaming_agrees_with_splitting(chunks: Seq<Seq<char>>)
    ensures
        gathered(streamed(chunks), false) == split_text(whole(chunks), false).0,
        gathered(streamed(chunks), true) == split_text(whole(chunks), false).1,
{
    let d = after_chunks(chunks);
    lemma_after_chunks(chunks, Seq::empty());
    assert(d.1 + Seq::<char>::empty() =~= d.1);
    assert(whole(chunks) + Seq::<char>::empty() =~= whole(chunks));
    gathered_adds_up(d.2, piece(d.0, d.1), false);
    gathered_adds_up(d.2, piece(d.0, d.1), true);
    lemma_gathered_piece(d.0, d.1, false);
    lemma_gathered_piece(d.0, d.1, true);
}

/// Text without an opening marker is all answer.
pub proof fn unmarked_text_is_unchanged(s: Seq<char>)
    requires
        !holds(ascii_lowered(s), "<think>"@),
        !holds(ascii_lowered(s), "<thinking>"@),
    ensures
        split_text(s, false) == (s, Seq::<char>::empty()),
{
    found_iff_holds(ascii_lowered(s), "<think>"@);
    found_iff_holds(ascii_lowered(s), "<thinking>"@);
}

/// Splitting adds nothing: what it shows and what it hides come out of the text.
pub proof fn split_text_is_bounded(s: Seq<char>, in_think: bool)
    ensures
        split_text(s, in_think).0.len() + split_text(s, in_think).1.len() <= s.len(),
        split_text(s, in_think).0.len() + split_text(s, in_think).1.len() == s.len() <==> (
        !holds(ascii_lowered(s), long_marker(in_think)) && !holds(
            ascii_lowered(s),
            short_marker(in_think),
        )),
    decreases s.len(),
{
    let low = ascii_lowered(s);
    lemma_first_marker(low, in_think);
    found_iff_holds(low, long_marker(in_think));
    found_iff_holds(low, short_marker(in_think));
    if let Some((i, n)) = marker_found(s, in_think) {
        split_text_is_bounded(s.skip(i + n), !in_think);
    }
}

/// The first marker of a text is the one that stands behind a beginning without any.
proof fn lemma_marker_after(a: Seq<char>, m: Seq<char>, x: Seq<char>, in_think: bool)
    requires
        marker_found(a, in_think) is None,
        ascii_lowered(m) == long_marker(in_think) || ascii_lowered(m) == short_marker(in_think),
    ensures
        marker_found(a + m + x, in_think) == Some((a.len() as int, m.len() as int)),
{
    let la = ascii_lowered(a);
    let lm = ascii_lowered(m);
    let s = la + lm;
    let long = long_marker(in_think);
    let short = short_marker(in_think);
    lemma_lowered_add(a + m, x);
    lemma_lowered_add(a, m);
    lemma_markers(in_think);
    lemma_first_marker(la, in_think);
    lemma_first_marker(s, in_think);
    found_from_is_least(s, long, 0);
    found_from_is_least(s, short, 0);
    assert(s.subrange(la.len() as int, (la.len() + lm.len()) as int) =~= lm);
    assert(matches_at(s, lm, la.len() as int));
    assert(s[la.len() as int] == lm[0]);
    assert forall|j: int| 0 <= j < la.len() implies !matches_at(s, long, j) && !matches_at(
        s,
        short,
        j,
    ) by {
        if matches_at(s, long, j) {
            if j + long.len() <= la.len() {
                lemma_match_in_prefix(la, lm, long, j);
            } else {
                assert(s.subrange(j, j + long.len())[la.len() - j] == s[la.len() as int]);
            }
        }
        if matches_at(s, short, j) {
            if j + short.len() <= la.len() {
                lemma_match_in_prefix(la, lm, short, j);
            } else {
                assert(s.subrange(j, j + short.len())[la.len() - j] == s[la.len() as int]);
            }
        }
    }
    lemma_marker_is_stable(s, ascii_lowered(x), in_think);
}

/// What stands between a marker that opens thinking and the next that closes it is hidden, and all
/// the rest is shown; the case of the markers does not matter.
pub proof fn thinking_is_taken_out(
    before: Seq<char>,
    opening: Seq<char>,
    thought: Seq<char>,
    closing: Seq<char>,
    after: Seq<char>,
)
    requires
        !holds(ascii_lowered(before), "<think>"@),
        !holds(ascii_lowered(before), "<thinking>"@),
        ascii_lowered(opening) == "<think>"@ || ascii_lowered(opening) == "<thinking>"@,
        !holds(ascii_lowered(thought), "</think>"@),
        !holds(ascii_lowered(thought), "</thinking>"@),
        ascii_lowered(closing) == "</think>"@ || ascii_lowered(closing) == "</thinking>"@,
    ensures
        split_text(before + opening + thought + closing + after, false) == (
            before + split_text(after, false).0,
            thought + split_text(after, false).1,
        ),
        split_text(before + opening + thought, false) == (before, thought),
{
    found_iff_holds(ascii_lowered(before), "<think>"@);
    found_iff_holds(ascii_lowered(before), "<thinking>"@);
    found_iff_holds(ascii_lowered(thought), "</think>"@);
    found_iff_holds(ascii_lowered(thought), "</thinking>"@);
    let rest = thought + closing + after;
    lemma_marker_after(before, opening, rest, false);
    lemma_marker_after(before, opening, thought, false);
    lemma_marker_after(thought, closing, after, true);
    let all = before + opening + thought + closing + after;
    assert(all =~= before + opening + rest);
    assert(all.skip((before.len() + opening.len()) as int) =~= rest);
    assert(all.take(before.len() as int) =~= before);
    assert(rest.skip((thought.len() + closing.len()) as int) =~= after);
    assert(rest.take(thought.len() as int) =~= thought);
    assert(split_text(rest, true) == (
        split_text(after, false).0,
        thought + split_text(after, false).1,
    ));
    assert(split_text(thought, true) == (Seq::<char>::empty(), thought));
    let open = before + opening + thought;
    assert(open.skip((before.len() + opening.len()) as int) =~= thought);
    assert(open.take(before.len() as int) =~= before);
    assert(before + Seq::<char>::empty() =~= before);
}

/// A text without an opening angle bracket holds no marker, and none begins at its end.
pub proof fn text_without_brackets_passes(s: Seq<char>, in_think: bool)
    requires
        !s.contains('<'),
    ensures
        drained(in_think, s) == (in_think, Seq::<char>::empty(), piece(in_think, s)),
{
    let low = ascii_lowered(s);
    lemma_markers(in_think);
    lemma_first_marker(low, in_think);
    assert forall|k: int| 0 <= k < low.len() implies low[k] != '<' by {
        assert(low[k] == ascii_lower(s[k]));
        assert(s.contains(s[k]));
    }
    if let Some((i, n)) = marker_found(s, in_think) {
        assert(low[i] == '<');
    }
    let most = long_marker(in_think).len();
    lemma_marker_start(s, in_think, most);
    assert(marker_start(s, in_think) == 0) by {
        let k = marker_start(s, in_think) as int;
        if k > 0 {
            lemma_marker_start_begins(s, in_think, most);
            assert(low.skip(s.len() - k)[0] == low[s.len() - k]);
        }
    }
    assert(s.skip(s.len() as int) =~= Seq::empty());
    assert(s.take(s.len() as int) =~= s);
}

proof fn lemma_marker_start_begins(s: Seq<char>, in_think: bool, k: nat)
    ensures
        marker_start_up_to(s, in_think, k) > 0 ==> begins_marker(
            s,
            in_think,
            marker_start_up_to(s, in_think, k) as int,
        ),
    decreases k,
{
    if k > 0 && !begins_marker(s, in_think, k as int) {
        lemma_marker_start_begins(s, in_think, (k - 1) as nat);
    }
}

/// Only what may turn out to be the beginning of a marker waits: what waits is the start of one of
/// them in letters of either case, and any end of the text that is such a start waits whole.
pub proof fn only_beginnings_of_markers_wait(s: Seq<char>, in_think: bool, k: int)
    requires
        1 <= k <= s.len(),
    ensures
        ({
            let low = ascii_lowered(s);
            let long = if in_think {
                "</thinking>"@
            } else {
                "<thinking>"@
            };
            let short = if in_think {
                "</think>"@
            } else {
                "<think>"@
            };
            let n = marker_start(s, in_think);
            &&& n > 0 ==> n < long.len() && (low.skip(s.len() - n) == long.take(n as int) || low.skip(
                s.len() - n,
            ) == short.take(n as int))
            &&& k < long.len() && low.skip(s.len() - k) == long.take(k) ==> n >= k
            &&& k < short.len() && low.skip(s.len() - k) == short.take(k) ==> n >= k
            &&& n <= s.len()
        }),
{
    let most = long_marker(in_think).len();
    lemma_markers(in_think);
    lemma_marker_start(s, in_think, most);
    lemma_marker_start_begins(s, in_think, most);
    let low = ascii_lowered(s);
    if k < most && low.skip(s.len() - k) == long_marker(in_think).take(k) {
        assert(begins_marker(s, in_think, k));
    }
    if k < short_marker(in_think).len() && low.skip(s.len() - k) == short_marker(in_think).take(
        k,
    ) {
        assert(begins_marker(s, in_think, k));
    }
}

} // verus!
