//! Summarising older turns into one durable message, automatically when the context meter nears
//! the model's window and on request from the composer.

use vstd::arithmetic::power2::{lemma2_to64, lemma_pow2_unfold, pow2};
use vstd::prelude::*;
use vstd::string::*;

use crate::agent::{make_system_message, system_message};
use crate::content::{estimate_tokens, text_tokens};
use crate::decimal::{signed, write_i64};
use crate::error::{bad, ApiError};
use crate::json::{views, Json, JsonView};
use crate::names::names_are_told_apart;
use crate::respond::{has_items, stored_views, StoredMessage, StoredView};
use crate::text::{clip, clipped, clipping_keeps_the_start, join, joined, joined_push, texts};
use crate::thinking::{split_text, strip_thinking};

verus! {

// ---------------------------------------------------------------- the threshold

/// The distance between neighbouring single-precision numbers about `n`: `n` is told apart by its
/// first 24 binary digits.
pub open spec fn spacing(n: nat) -> nat
    decreases n,
{
    if n < 0x100_0000 {
        1
    } else {
        2 * spacing(n / 2)
    }
}

/// The single-precision number nearest to `n`; of two that are equally near, the even one.
pub open spec fn single(n: nat) -> nat {
    let u = spacing(n);
    let below = n / u;
    let rest = n % u;
    if 2 * rest < u || (2 * rest == u && below % 2 == 0) {
        below * u
    } else {
        (below + 1) * u
    }
}

/// The share of a window at which it is compacted, seven tenths, as single-precision arithmetic
/// gives it: 0.7 is the number 11744051 / 2^24 there, the product is rounded, and what is behind
/// the point is dropped.
pub open spec fn share(window: nat) -> nat {
    single(single(window) * 11744051) / 0x100_0000
}

/// The number of tokens from which a conversation with this window is compacted.
pub open spec fn threshold(window: int) -> int {
    if window < 0 {
        -(share((-window) as nat) as int)
    } else {
        share(window as nat) as int
    }
}

proof fn lemma_spacing(n: nat)
    ensures
        spacing(n) >= 1,
        spacing(n) * 0x100_0000 > n,
        spacing(n) > 1 ==> spacing(n) * 0x80_0000 <= n,
        spacing(n) == 1 <==> n < 0x100_0000,
    decreases n,
{
    if n >= 0x100_0000 {
        lemma_spacing(n / 2);
        assert(2 * spacing(n / 2) * 0x80_0000 <= n) by {
            if spacing(n / 2) == 1 {
            } else {
                assert(spacing(n / 2) * 0x80_0000 <= n / 2);
            }
        }
    }
}

proof fn lemma_single_is_near(n: nat)
    ensures
        single(n) <= 2 * n,
        2 * single(n) <= 2 * n + spacing(n),
        2 * n <= 2 * single(n) + spacing(n),
{
    lemma_spacing(n);
    let u = spacing(n);
    let below = n / u;
    let rest = n % u;
    vstd::arithmetic::div_mod::lemma_fundamental_div_mod(n as int, u as int);
    assert(u * below == below * u) by (nonlinear_arith);
    assert((below + 1) * u == below * u + u) by (nonlinear_arith);
    assert(n == below * u + rest);
    if below == 0 {
        assert(n < u);
    }
    assert(u <= n || n == 0) by {
        if n > 0 && u > 1 {
            assert(u <= u * 0x80_0000) by (nonlinear_arith)
                requires
                    u >= 1,
            ;
        }
    }
    if n == 0 {
        assert(below == 0 && rest == 0) by (nonlinear_arith)
            requires
                n == 0,
                u >= 1,
                below == n / u,
                rest == n % u,
        ;
    }
}

fn find_spacing(n: u64) -> (r: u64)
    ensures
        r == spacing(n as nat),
{
    let mut u: u64 = 1;
    let mut m: u64 = n;
    proof {
        lemma_spacing(n as nat);
    }
    assert(spacing(n as nat) == 1 * spacing(m as nat));
    while m >= 0x100_0000
        invariant
            spacing(n as nat) == u * spacing(m as nat),
            spacing(n as nat) <= 0x200_0000_0000,
            u >= 1,
            spacing(n as nat) > 1 ==> spacing(n as nat) * 0x80_0000 <= n,
        decreases m,
    {
        proof {
            lemma_spacing((m / 2) as nat);
            let v = spacing((m / 2) as nat);
            assert(spacing(m as nat) == 2 * v);
            assert(u * (2 * v) == (u * 2) * v) by (nonlinear_arith);
            assert(u * 2 <= (u * 2) * v) by (nonlinear_arith)
                requires
                    v >= 1,
                    u >= 1,
            ;
        }
        m = m / 2;
        u = u * 2;
    }
    proof {
        lemma_spacing(m as nat);
        assert(u * 1 == u) by (nonlinear_arith);
    }
    u
}

fn round_to_single(n: u64) -> (r: u64)
    requires
        n <= 0x100_0000_0000_0000,
    ensures
        r == single(n as nat),
        r <= 2 * n,
{
    proof {
        lemma_spacing(n as nat);
        lemma_single_is_near(n as nat);
    }
    let u = find_spacing(n);
    let below = n / u;
    let rest = n % u;
    proof {
        vstd::arithmetic::div_mod::lemma_fundamental_div_mod(n as int, u as int);
        assert(below * u <= n) by (nonlinear_arith)
            requires
                n == u * below + rest,
                rest >= 0,
        ;
        assert((below + 1) * u == below * u + u) by (nonlinear_arith);
        assert(u <= 0x100_0000_0000_0000);
        assert(rest < u);
    }
    if 2 * rest < u || (2 * rest == u && below % 2 == 0) {
        below * u
    } else {
        (below + 1) * u
    }
}

/// The number of tokens from which a conversation with this window is compacted.
pub fn compaction_threshold(window: i32) -> (r: i32)
    ensures
        r == threshold(window as int),
{
    let size: u64 = if window < 0 {
        (-(window as i64)) as u64
    } else {
        window as u64
    };
    proof {
        lemma_spacing(size as nat);
        lemma_single_is_near(size as nat);
        assert(size <= 0x8000_0000);
        assert(spacing(size as nat) <= 0x100);
    }
    let held = round_to_single(size);
    let product = held * 11744051;
    proof {
        lemma_single_is_near(product as nat);
        lemma_spacing(product as nat);
        assert(held <= 0x8000_0080);
        assert(product <= 0x8000_0080 * 11744051);
    }
    let rounded = round_to_single(product);
    let share = rounded / 0x100_0000;
    assert(share < 0x7000_0000);
    if window < 0 {
        -(share as i32)
    } else {
        share as i32
    }
}

/// Below 2^(24 + k) the spacing divides 2^k; what is left is given.
proof fn lemma_spacing_divides(n: nat, k: nat) -> (q: nat)
    requires
        n < 0x100_0000 * pow2(k),
    ensures
        spacing(n) * q == pow2(k),
    decreases k,
{
    let u = spacing(n);
    if n < 0x100_0000 {
        let q = pow2(k);
        assert(u * q == q) by (nonlinear_arith)
            requires
                u == 1,
        ;
        q
    } else if k == 0 {
        lemma2_to64();
        0
    } else {
        lemma_pow2_unfold(k);
        let q = lemma_spacing_divides(n / 2, (k - 1) as nat);
        let v = spacing(n / 2);
        assert(u * q == 2 * (v * q)) by (nonlinear_arith)
            requires
                u == 2 * v,
        ;
        q
    }
}

/// A whole number just above `n` is what `n` is rounded to, where it is nearer than half the
/// spacing and told apart at that spacing.
proof fn lemma_rounds_up(n: nat, target: nat, u: nat)
    requires
        u == spacing(n),
        u >= 1,
        target % u == 0,
        n <= target,
        2 * (target - n) < u,
    ensures
        single(n) == target,
{
    let below = n / u;
    let rest = n % u;
    vstd::arithmetic::div_mod::lemma_fundamental_div_mod(n as int, u as int);
    vstd::arithmetic::div_mod::lemma_fundamental_div_mod(target as int, u as int);
    let t = target / u;
    assert(u * t == t * u) by (nonlinear_arith);
    assert(u * below == below * u) by (nonlinear_arith);
    assert(target == t * u);
    assert(n == below * u + rest);
    if n == target {
        assert(rest == 0);
    } else {
        assert(t * u - below * u == (t - below) * u) by (nonlinear_arith);
        let d = t - below;
        assert(d * u == target - n + rest);
        assert(d == 1) by (nonlinear_arith)
            requires
                d * u == target - n + rest,
                0 < target - n,
                2 * (target - n) < u,
                rest < u,
                u >= 1,
        ;
        assert(1 * u == u) by (nonlinear_arith);
        assert(rest == u - (target - n));
        assert((below + 1) * u == t * u);
    }
}

/// How far the product for a window is from seven tenths of it, in units of 2^-24.
proof fn lemma_product(w: int, f: int, g: int, p: int)
    requires
        7 * w == 10 * f + g,
        p == w * 11744051,
    ensures
        10 * p == 167772160 * f + 16777216 * g - 2 * w,
{
}

proof fn lemma_share_between(w: int, f: int, g: int, p: int, s: int)
    requires
        0 <= w <= 2_000_000,
        0 < g < 10,
        0 <= f,
        10 * p == 167772160 * f + 16777216 * g - 2 * w,
        2 * s <= 2 * p + 0x20_0000,
        2 * p <= 2 * s + 0x20_0000,
    ensures
        s / 0x100_0000 == f,
{
    assert(16777216 * f <= s);
    assert(s < 16777216 * f + 16777216);
}

proof fn lemma_divides(f: nat, u: nat, q: nat)
    requires
        u * q == 0x20_0000,
    ensures
        1 <= u <= 0x20_0000,
        (0x100_0000 * f) % u == 0,
{
    assert(1 <= u <= 0x20_0000) by (nonlinear_arith)
        requires
            u * q == 0x20_0000,
    ;
    assert(0x100_0000 * f == (q * (8 * f)) * u) by (nonlinear_arith)
        requires
            u * q == 0x20_0000,
    ;
    vstd::arithmetic::div_mod::lemma_mod_multiples_basic((q * (8 * f)) as int, u as int);
}

/// For every window that can be configured, the threshold is seven tenths of it, rounded down.
pub proof fn threshold_is_seven_tenths(window: int)
    requires
        0 <= window <= 2_000_000,
    ensures
        threshold(window) == 7 * window / 10,
{
    let w = window as nat;
    let p = (w * 11744051) as nat;
    lemma_spacing(w);
    assert(single(w) == w) by {
        assert(spacing(w) == 1);
    }
    assert(threshold(window) == single(p) / 0x100_0000);
    assert(p < 0x2000_0000_0000);
    lemma_single_is_near(p);
    lemma2_to64();
    let q = lemma_spacing_divides(p, 21);
    let u = spacing(p);
    let f = (7 * w) / 10;
    lemma_divides(f, u, q);
    let g = (7 * w) % 10;
    lemma_product(w as int, f as int, g as int, p as int);
    if g > 0 {
        lemma_share_between(w as int, f as int, g as int, p as int, single(p) as int);
    } else {
        let target = (0x100_0000 * f) as nat;
        assert(10 * (target - p) == 2 * w);
        assert(2 * (target - p) < u) by {
            lemma_spacing(p);
            assert(u * 0x100_0000 > p);
        }
        lemma_rounds_up(p, target, u);
        assert(target / 0x100_0000 == f);
    }
}

// ---------------------------------------------------------------- summaries

/// A message as a line of a summary.
pub open spec fn summary_line(message: StoredView) -> Seq<char> {
    let text = message.role + ": "@ + split_text(message.content, false).0;
    if has_items(message.images) {
        text + " [image attachments were present in this message]"@
    } else {
        text
    }
}

/// The messages as lines of a summary.
pub open spec fn summary_lines(rows: Seq<StoredView>) -> Seq<char> {
    joined(rows.map_values(|m: StoredView| summary_line(m)), "\n"@)
}

fn write_line(message: &StoredMessage) -> (r: String)
    ensures
        r@ == summary_line(message@),
{
    let visible = strip_thinking(message.content.as_str());
    let text = message.role.clone().concat(": ").concat(visible.as_str());
    let with_images = match message.images.as_array() {
        Some(items) => {
            assert(views(items@).len() == items@.len());
            items.len() > 0
        },
        None => false,
    };
    if with_images {
        text.concat(" [image attachments were present in this message]")
    } else {
        text
    }
}

/// The messages as lines of a summary.
pub fn write_lines(rows: &Vec<StoredMessage>) -> (r: String)
    ensures
        r@ == summary_lines(stored_views(rows@)),
{
    let ghost all = stored_views(rows@).map_values(|m: StoredView| summary_line(m));
    let mut lines: Vec<String> = Vec::new();
    assert(texts(lines@) =~= all.take(0));
    for i in 0..rows.len()
        invariant
            all == stored_views(rows@).map_values(|m: StoredView| summary_line(m)),
            texts(lines@) == all.take(i as int),
    {
        let line = write_line(&rows[i]);
        let ghost written = line@;
        let ghost before = texts(lines@);
        lines.push(line);
        proof {
            assert(texts(lines@) =~= before.push(written));
            assert(all[i as int] == written);
            assert(all.take(i + 1) =~= all.take(i as int).push(written));
        }
    }
    assert(all.take(all.len() as int) =~= all);
    join(&lines, "\n")
}

/// What a summary through a message starts with.
pub open spec fn summary_head(end: i64) -> Seq<char> {
    "Conversation summary through message "@ + signed(end as int) + ":\n"@
}

fn write_head(end: i64) -> (r: String)
    ensures
        r@ == summary_head(end),
{
    let number = write_i64(end);
    "Conversation summary through message ".to_owned().concat(number.as_str()).concat(":\n")
}

/// A summary and what it counts for.
pub struct Summary {
    pub content: String,
    pub tokens: i32,
}

/// The longest automatic summary.
pub const MAX_SUMMARY_CHARACTERS: usize = 30_000;

/// The most of a conversation that a model is asked to summarise.
pub const MAX_SOURCE_CHARACTERS: usize = 120_000;

// ---------------------------------------------------------------- automatic compaction

/// The messages that an automatic compaction would summarise: those behind the latest summary, up
/// to the newest, once the meter has reached the threshold.
pub open spec fn due_range(
    context_tokens: i32,
    context_window: i32,
    next_sequence: i64,
    previous_end: Option<i64>,
) -> Option<(int, int)> {
    let existing = match previous_end {
        Some(end) => end as int,
        None => 0,
    };
    let end = next_sequence - 1;
    if context_tokens < threshold(context_window as int) || end <= existing {
        None
    } else {
        Some((existing, end))
    }
}

/// The messages that an automatic compaction summarises: those with a sequence above the first
/// number and up to the second. `previous_end` is where the latest summary ends.
pub fn auto_compact(
    context_tokens: i32,
    context_window: i32,
    next_sequence: i64,
    previous_end: Option<i64>,
) -> (r: Option<(i64, i64)>)
    requires
        next_sequence > i64::MIN,
    ensures
        match r {
            Some((from, to)) => due_range(
                context_tokens,
                context_window,
                next_sequence,
                previous_end,
            ) == Some((from as int, to as int)),
            None => due_range(context_tokens, context_window, next_sequence, previous_end) is None,
        },
{
    if context_tokens < compaction_threshold(context_window) {
        return None;
    }
    let existing: i64 = match previous_end {
        Some(end) => end,
        None => 0,
    };
    let end = next_sequence - 1;
    if end <= existing {
        return None;
    }
    Some((existing, end))
}

/// The text of an automatic summary: the previous summary with the messages behind it.
pub open spec fn rolled_up(end: i64, previous: Seq<char>, rows: Seq<StoredView>) -> Seq<char> {
    clipped(
        summary_head(end) + previous + "\n"@ + summary_lines(rows),
        MAX_SUMMARY_CHARACTERS as nat,
    )
}

/// Writes an automatic summary; none where there are no messages.
pub fn roll_up(end: i64, previous: Option<&str>, rows: &Vec<StoredMessage>) -> (r: Option<Summary>)
    ensures
        match r {
            Some(summary) => {
                &&& rows@.len() > 0
                &&& summary.content@ == rolled_up(
                    end,
                    match previous {
                        Some(text) => text@,
                        None => Seq::empty(),
                    },
                    stored_views(rows@),
                )
                &&& summary.tokens == text_tokens(summary.content@.len())
            },
            None => rows@.len() == 0,
        },
{
    if rows.len() == 0 {
        return None;
    }
    proof {
        reveal_strlit("");
        assert(""@ =~= Seq::empty());
    }
    let previous = match previous {
        Some(text) => text,
        None => "",
    };
    let lines = write_lines(rows);
    let whole = write_head(end).concat(previous).concat("\n").concat(lines.as_str());
    let content = clip(whole.as_str(), MAX_SUMMARY_CHARACTERS);
    let tokens = estimate_tokens(content.as_str());
    Some(Summary { content, tokens })
}

/// However long a conversation is, its automatic summary is bounded, and so is what it counts for.
pub proof fn summaries_are_bounded(end: i64, previous: Seq<char>, rows: Seq<StoredView>)
    ensures
        rolled_up(end, previous, rows).len() <= MAX_SUMMARY_CHARACTERS,
        text_tokens(rolled_up(end, previous, rows).len()) <= 8572,
{
}

/// Once a conversation was compacted up to its newest message, nothing is due until there is
/// another message.
pub proof fn compaction_settles(
    context_tokens: i32,
    context_window: i32,
    next_sequence: i64,
    previous_end: Option<i64>,
    later_tokens: i32,
)
    requires
        due_range(context_tokens, context_window, next_sequence, previous_end) is Some,
    ensures
        due_range(
            later_tokens,
            context_window,
            next_sequence,
            Some((next_sequence - 1) as i64),
        ) is None,
{
}

// ---------------------------------------------------------------- compaction on request

/// What a client is told where nothing was compacted.
pub open spec fn below_threshold(context_tokens: i32, context_window: i32) -> JsonView {
    JsonView::object().with("compacted"@, JsonView::Bool(false)).with(
        "reason"@,
        JsonView::Str("below_threshold"@),
    ).with("context_tokens"@, JsonView::integer(context_tokens as i64)).with(
        "context_window"@,
        JsonView::integer(context_window as i64),
    )
}

/// Decides on a compaction that a client asks for: what to tell where the meter is below the
/// threshold and nothing forces it.
pub fn compact(force: Option<bool>, context_tokens: i32, context_window: i32) -> (r: Option<Json>)
    ensures
        match r {
            Some(told) => {
                &&& force != Some(true)
                &&& context_tokens < threshold(context_window as int)
                &&& told@ == below_threshold(context_tokens, context_window)
            },
            None => force == Some(true) || context_tokens >= threshold(context_window as int),
        },
{
    let forced = match force {
        Some(forced) => forced,
        None => false,
    };
    if !forced && context_tokens < compaction_threshold(context_window) {
        return Some(
            Json::object().with("compacted", Json::Bool(false)).with(
                "reason",
                Json::text("below_threshold"),
            ).with("context_tokens", Json::integer(context_tokens as i64)).with(
                "context_window",
                Json::integer(context_window as i64),
            ),
        );
    }
    None
}

/// The message through which to compact: the one asked for, else the newest.
pub fn compaction_end(through_sequence: Option<i64>, newest: i64) -> (r: i64)
    ensures
        r == match through_sequence {
            Some(sequence) => sequence,
            None => newest,
        },
{
    match through_sequence {
        Some(sequence) => sequence,
        None => newest,
    }
}

/// The text to compact; an error where there are no messages.
pub fn compaction_source(rows: &Vec<StoredMessage>) -> (r: Result<String, ApiError>)
    ensures
        match r {
            Ok(source) => rows@.len() > 0 && source@ == summary_lines(stored_views(rows@)),
            Err(error) => rows@.len() == 0 && error@ == bad("There are no messages to compact."@),
        },
{
    if rows.len() == 0 {
        return Err(ApiError::bad("There are no messages to compact."));
    }
    Ok(write_lines(rows))
}

/// What a model is asked for a summary.
pub open spec fn summary_request(prior: Seq<char>, source: Seq<char>) -> Seq<JsonView> {
    seq![
        system_message(
            "Create a concise, factual memory for continuing this conversation. Preserve decisions, constraints, user preferences, unresolved tasks, and important technical details. Do not use Markdown."@,
        ),
        JsonView::object().with("role"@, JsonView::Str("user"@)).with(
            "content"@,
            JsonView::Str(
                "Previous memory:\n"@ + prior + "\n\nConversation to compact:\n"@ + clipped(
                    source,
                    MAX_SOURCE_CHARACTERS as nat,
                ),
            ),
        ),
    ]
}

/// What a model is asked for a summary.
pub fn compaction_request(prior: Option<&str>, source: &str) -> (r: Vec<Json>)
    ensures
        views(r@) == summary_request(
            match prior {
                Some(text) => text@,
                None => Seq::empty(),
            },
            source@,
        ),
{
    proof {
        reveal_strlit("");
        assert(""@ =~= Seq::empty());
    }
    let prior = match prior {
        Some(text) => text,
        None => "",
    };
    let shown = clip(source, MAX_SOURCE_CHARACTERS);
    let content = "Previous memory:\n".to_owned().concat(prior).concat(
        "\n\nConversation to compact:\n",
    ).concat(shown.as_str());
    let mut out: Vec<Json> = Vec::new();
    out.push(
        make_system_message(
            "Create a concise, factual memory for continuing this conversation. Preserve decisions, constraints, user preferences, unresolved tasks, and important technical details. Do not use Markdown.",
        ),
    );
    out.push(
        Json::object().with("role", Json::text("user")).with("content", Json::Str(content)),
    );
    assert(views(out@) =~= summary_request(prior@, source@));
    out
}

/// What stands in for a model's summary where no provider is configured.
pub fn plain_summary(source: &str) -> (r: String)
    ensures
        r@ == clipped(source@, MAX_SUMMARY_CHARACTERS as nat),
{
    clip(source, MAX_SUMMARY_CHARACTERS)
}

/// The first message that a new summary covers: the one behind the latest summary.
pub fn compaction_start(prior_end: Option<i64>) -> (r: i64)
    requires
        prior_end matches Some(end) ==> end < i64::MAX,
    ensures
        r == match prior_end {
            Some(end) => end + 1,
            None => 1,
        },
{
    match prior_end {
        Some(end) => end + 1,
        None => 1,
    }
}

/// The summary that is stored for a compaction on request.
pub fn write_summary(end: i64, text: &str) -> (r: Summary)
    ensures
        r.content@ == summary_head(end) + text@,
        r.tokens == text_tokens(r.content@.len()),
{
    let content = write_head(end).concat(text);
    let tokens = estimate_tokens(content.as_str());
    Summary { content, tokens }
}

/// The message that marks a compaction in the conversation.
pub fn compaction_marker(end: i64, summary_tokens: i32) -> (r: String)
    ensures
        r@ == "Context compacted through message "@ + signed(end as int)
            + ". The conversation now uses a durable summary ("@ + signed(summary_tokens as int)
            + " estimated tokens)."@,
{
    let through = write_i64(end);
    let tokens = write_i64(summary_tokens as i64);
    "Context compacted through message ".to_owned().concat(through.as_str()).concat(
        ". The conversation now uses a durable summary (",
    ).concat(tokens.as_str()).concat(" estimated tokens).")
}

/// What a client is told of a compaction.
pub fn compaction_result(summary_id: &str, end: i64, summary_tokens: i32, message: Json) -> (r: Json)
    ensures
        r@ == JsonView::object().with("compacted"@, JsonView::Bool(true)).with(
            "summary_id"@,
            JsonView::Str(summary_id@),
        ).with("through_sequence"@, JsonView::integer(end)).with(
            "estimated_tokens"@,
            JsonView::integer(summary_tokens as i64),
        ).with("message"@, message@).with(
            "context_tokens"@,
            JsonView::integer(summary_tokens as i64),
        ),
{
    Json::object().with("compacted", Json::Bool(true)).with(
        "summary_id",
        Json::text(summary_id),
    ).with("through_sequence", Json::integer(end)).with(
        "estimated_tokens",
        Json::integer(summary_tokens as i64),
    ).with("message", message).with("context_tokens", Json::integer(summary_tokens as i64))
}

// ---------------------------------------------------------------- laws

/// A line of a summary says who said what: it starts with the role and goes on with the text, but
/// for what it hid as thinking. Images are noted behind it.
pub proof fn summary_lines_say_who_said_what(message: StoredView)
    ensures
        ({
            let said = message.role + ": "@ + split_text(message.content, false).0;
            let line = summary_line(message);
            &&& said.is_prefix_of(line)
            &&& message.images.items_or_empty().len() == 0 ==> line == said
            &&& message.images.items_or_empty().len() > 0 ==> line.len() > said.len()
                && "image attachments were present in this message]"@.is_suffix_of(line)
        }),
{
    reveal_strlit(" [image attachments were present in this message]");
    reveal_strlit("image attachments were present in this message]");
    let said = message.role + ": "@ + split_text(message.content, false).0;
    let line = summary_line(message);
    assert(said =~= line.subrange(0, said.len() as int));
    if message.images.items_or_empty().len() > 0 {
        let note = "image attachments were present in this message]"@;
        assert(note =~= line.subrange(line.len() - note.len(), line.len() as int));
    }
}

/// One more message adds its line at the end, behind a line break, and changes no other.
pub proof fn summary_lines_add_up(rows: Seq<StoredView>, message: StoredView)
    ensures
        rows.len() == 0 ==> summary_lines(rows.push(message)) == summary_line(message),
        rows.len() > 0 ==> summary_lines(rows.push(message)) == summary_lines(rows) + "\n"@
            + summary_line(message),
{
    let lines = rows.map_values(|m: StoredView| summary_line(m));
    assert(rows.push(message).map_values(|m: StoredView| summary_line(m)) =~= lines.push(
        summary_line(message),
    ));
    joined_push(lines, summary_line(message), "\n"@);
}

/// An automatic summary that fits holds all of the earlier one and, behind it, every message since; a
/// longer one is cut at its end.
pub proof fn summaries_roll_the_earlier_one_up(
    end: i64,
    previous: Seq<char>,
    rows: Seq<StoredView>,
)
    ensures
        ({
            let head = "Conversation summary through message "@ + signed(end as int) + ":\n"@;
            let whole = head + previous + "\n"@ + summary_lines(rows);
            let text = rolled_up(end, previous, rows);
            &&& text.is_prefix_of(whole)
            &&& whole.len() <= 30_000 ==> text == whole
            &&& whole.len() > 30_000 ==> text.len() == 30_000
        }),
{
    let whole = summary_head(end) + previous + "\n"@ + summary_lines(rows);
    clipping_keeps_the_start(whole, 30_000);
}

/// A compaction is due exactly where the meter has reached the threshold and there are messages
/// behind the latest summary, and then it covers all of them up to the newest.
pub proof fn compactions_cover_what_is_new(
    context_tokens: i32,
    context_window: i32,
    next_sequence: i64,
    previous_end: Option<i64>,
)
    requires
        0 <= context_window <= 2_000_000,
    ensures
        ({
            let due = due_range(context_tokens, context_window, next_sequence, previous_end);
            let covered = match previous_end {
                Some(end) => end as int,
                None => 0,
            };
            &&& due is Some <==> context_tokens >= 7 * context_window / 10 && next_sequence - 1
                > covered
            &&& due matches Some((from, to)) ==> from == covered && to == next_sequence - 1
        }),
{
    threshold_is_seven_tenths(context_window as int);
}

/// A client whose conversation needs no compaction is told so, with the meter and the window as they
/// are.
pub proof fn clients_are_told_of_the_meter(context_tokens: i32, context_window: i32)
    ensures
        ({
            let told = below_threshold(context_tokens, context_window);
            &&& told.at("compacted"@) == JsonView::Bool(false)
            &&& told.at("reason"@) == JsonView::Str("below_threshold"@)
            &&& told.at("context_tokens"@) == JsonView::integer(context_tokens as i64)
            &&& told.at("context_window"@) == JsonView::integer(context_window as i64)
        }),
{
    names_are_told_apart();
}

/// A model that is asked for a summary is told what to do by the system and is given, as the user's
/// words, the earlier memory and the conversation: as much of it from its start as is allowed.
pub proof fn summary_requests_hold_the_conversation(prior: Seq<char>, source: Seq<char>)
    ensures
        ({
            let asked = summary_request(prior, source);
            let content = asked[1].at("content"@).text_or_empty();
            let lead = "Previous memory:\n"@ + prior + "\n\nConversation to compact:\n"@;
            &&& asked.len() == 2
            &&& asked[0].at("role"@) == JsonView::Str("system"@)
            &&& asked[0].at("content"@).text_or_empty().len() > 0
            &&& asked[1].at("role"@) == JsonView::Str("user"@)
            &&& lead.is_prefix_of(content)
            &&& content.skip(lead.len() as int).is_prefix_of(source)
            &&& source.len() <= 120_000 ==> content == lead + source
            &&& source.len() > 120_000 ==> content.len() == lead.len() + 120_000
        }),
{
    names_are_told_apart();
    reveal_strlit(
        "Create a concise, factual memory for continuing this conversation. Preserve decisions, constraints, user preferences, unresolved tasks, and important technical details. Do not use Markdown.",
    );
    let lead = "Previous memory:\n"@ + prior + "\n\nConversation to compact:\n"@;
    let shown = clipped(source, 120_000);
    let content = lead + shown;
    clipping_keeps_the_start(source, 120_000);
    assert(lead =~= content.subrange(0, lead.len() as int));
    assert(content.skip(lead.len() as int) =~= shown);
}

} // verus!
