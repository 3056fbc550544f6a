//! Turns stored messages into the multimodal shape each provider dialect expects, and keeps the
//! token bookkeeping the context meter reads.

use vstd::prelude::*;
use vstd::string::*;
use vstd::utf8::encode_utf8;

use crate::json::{views, views_push, Json, JsonView};
use crate::names::names_are_told_apart;
use crate::providers::{kind_of, RequestKind};
use crate::search::{cut, found, found_from_is_least, matches_at, split_once, starts_with, strip_prefix};
use crate::text::{blank, byte_len, chars_of, is_blank, slice};

verus! {

// ---------------------------------------------------------------- tokens

/// What follows the last comma of a text; all of it where there is none.
pub open spec fn after_last_comma(s: Seq<char>) -> Seq<char>
    decreases s.len(),
{
    if s.len() == 0 || s.last() == ',' {
        Seq::empty()
    } else {
        after_last_comma(s.drop_last()).push(s.last())
    }
}

/// What an image counts for: one token for each 1024 bytes of its data, but 300 at least and 2400
/// at most.
pub open spec fn image_tokens(image: Seq<char>) -> int {
    let units = encode_utf8(after_last_comma(image)).len() as int / 1024;
    if units < 300 {
        300
    } else if units > 2400 {
        2400
    } else {
        units
    }
}

/// What several images count for.
pub open spec fn images_tokens(images: Seq<String>) -> int
    decreases images.len(),
{
    if images.len() == 0 {
        0
    } else {
        images_tokens(images.drop_last()) + image_tokens(images.last()@)
    }
}

proof fn lemma_images_tokens_grow(images: Seq<String>, i: int)
    requires
        0 <= i <= images.len(),
    ensures
        0 <= images_tokens(images.take(i)) <= images_tokens(images),
    decreases images.len(),
{
    if i == images.len() {
        assert(images.take(i) =~= images);
        if images.len() > 0 {
            lemma_images_tokens_grow(images.drop_last(), images.len() - 1);
            assert(images.drop_last().take(images.len() - 1) =~= images.drop_last());
        }
    } else {
        lemma_images_tokens_grow(images.drop_last(), i);
        assert(images.drop_last().take(i) =~= images.take(i));
    }
}

fn read_after_last_comma(s: &str) -> (r: String)
    ensures
        r@ == after_last_comma(s@),
{
    let chars = chars_of(s);
    let n = chars.len();
    let mut from: usize = n;
    assert(chars@.subrange(n as int, n as int) =~= Seq::empty());
    assert(after_last_comma(s@.take(n as int)) + Seq::<char>::empty() =~= after_last_comma(s@)) by {
        assert(s@.take(n as int) =~= s@);
    }
    while from > 0 && chars[from - 1] != ','
        invariant
            from <= n == chars@.len(),
            chars@ == s@,
            after_last_comma(s@) == after_last_comma(s@.take(from as int)) + s@.subrange(
                from as int,
                n as int,
            ),
        decreases from,
    {
        proof {
            let head = s@.take(from as int);
            assert(head.drop_last() =~= s@.take(from - 1));
            assert(head.last() == chars@[from - 1]);
            assert(after_last_comma(s@.take(from - 1)).push(head.last()) + s@.subrange(
                from as int,
                n as int,
            ) =~= after_last_comma(s@.take(from - 1)) + s@.subrange(from - 1, n as int));
        }
        from = from - 1;
    }
    proof {
        let head = s@.take(from as int);
        if from > 0 {
            assert(head.last() == ',');
        }
        assert(after_last_comma(head) + s@.subrange(from as int, n as int) =~= s@.subrange(
            from as int,
            n as int,
        ));
    }
    slice(&chars, from, n)
}

/// What the images of a message count for. The sum must fit the counter.
pub fn estimate_image_tokens(images: &Vec<String>) -> (r: i32)
    requires
        images_tokens(images@) <= i32::MAX,
    ensures
        r == images_tokens(images@),
{
    let mut sum: i32 = 0;
    for i in 0..images.len()
        invariant
            images_tokens(images@) <= i32::MAX,
            sum == images_tokens(images@.take(i as int)),
    {
        let data = read_after_last_comma(images[i].as_str());
        let units: usize = byte_len(data.as_str()) / 1024;
        let tokens: i32 = if units < 300 {
            300
        } else if units > 2400 {
            2400
        } else {
            units as i32
        };
        proof {
            lemma_images_tokens_grow(images@, i + 1);
            assert(images@.take(i + 1).drop_last() =~= images@.take(i as int));
            assert(images@.take(i + 1).last() == images@[i as int]);
        }
        sum = sum + tokens;
    }
    assert(images@.take(images@.len() as int) =~= images@);
    sum
}

/// The estimate for a text of `n` characters: two tokens for each seven, rounded up, but one at
/// least; it stops at what the counter can hold.
pub open spec fn text_tokens(n: nat) -> int {
    let tokens = (2 * n + 6) / 7;
    if tokens < 1 {
        1
    } else if tokens > i32::MAX {
        i32::MAX as int
    } else {
        tokens as int
    }
}

/// Estimates the tokens of a text.
pub fn estimate_tokens(content: &str) -> (r: i32)
    ensures
        r == text_tokens(content@.len()),
{
    let n: usize = chars_of(content).len();
    let tokens: u128 = (2 * (n as u128) + 6) / 7;
    if tokens < 1 {
        1
    } else if tokens > 2147483647 {
        2147483647
    } else {
        tokens as i32
    }
}

/// Every message counts for at least one token, and a longer text never counts for less.
pub proof fn estimates_are_positive_and_grow(n: nat, m: nat)
    requires
        n <= m,
    ensures
        1 <= text_tokens(n) <= text_tokens(m),
{
}

/// Images always count for something, and more images for more.
pub proof fn images_count(images: Seq<String>)
    ensures
        300 * images.len() <= images_tokens(images) <= 2400 * images.len(),
    decreases images.len(),
{
    if images.len() > 0 {
        images_count(images.drop_last());
    }
}

// ---------------------------------------------------------------- data URLs

/// What stands before the first semicolon.
pub open spec fn before_semicolon(s: Seq<char>) -> Seq<char> {
    match cut(s, ";"@) {
        Some((before, _)) => before,
        None => s,
    }
}

/// The media type and the data of an inlined image.
pub open spec fn data_url(url: Seq<char>) -> Option<(Seq<char>, Seq<char>)> {
    if "data:"@.is_prefix_of(url) {
        match cut(url.skip("data:"@.len() as int), ","@) {
            Some((meta, data)) => if "image/"@.is_prefix_of(meta) && data.len() > 0 {
                Some((before_semicolon(meta), data))
            } else {
                None
            },
            None => None,
        }
    } else {
        None
    }
}

/// Takes an inlined image apart.
pub fn parse_data_url(url: &str) -> (r: Option<(String, String)>)
    ensures
        match r {
            Some((media, data)) => data_url(url@) == Some((media@, data@)),
            None => data_url(url@) is None,
        },
{
    let rest = match strip_prefix(url, "data:") {
        Some(rest) => rest,
        None => return None,
    };
    match split_once(rest, ",") {
        Some((meta, data)) => {
            if !starts_with(meta.as_str(), "image/") || data.as_str().is_empty() {
                return None;
            }
            match split_once(meta.as_str(), ";") {
                Some((media, _)) => Some((media, data)),
                None => Some((meta, data)),
            }
        },
        None => None,
    }
}

proof fn lemma_found_at(s: Seq<char>, p: Seq<char>, c: char, at: int)
    requires
        p == seq![c],
        0 <= at < s.len(),
        s[at] == c,
        forall|i: int| 0 <= i < at ==> s[i] != c,
    ensures
        found(s, p) == Some(at),
{
    found_from_is_least(s, p, 0);
    assert(s.subrange(at, at + 1) =~= p);
    assert(matches_at(s, p, at));
    match found(s, p) {
        Some(k) => {
            assert(matches_at(s, p, k));
            assert(s.subrange(k, k + 1)[0] == s[k]);
            assert(s[k] == c);
        },
        None => {},
    }
}

/// An image that is written as a data URL is read back as it was, whatever its data.
pub proof fn data_urls_read_back(media: Seq<char>, data: Seq<char>)
    requires
        "image/"@.is_prefix_of(media),
        forall|i: int| 0 <= i < media.len() ==> media[i] != ',' && media[i] != ';',
        data.len() > 0,
    ensures
        data_url("data:"@ + media + ";base64,"@ + data) == Some((media, data)),
{
    reveal_strlit("data:");
    reveal_strlit(";base64,");
    reveal_strlit(",");
    reveal_strlit(";");
    reveal_strlit("image/");
    let url = "data:"@ + media + ";base64,"@ + data;
    let rest = url.skip(5);
    let meta = media + ";base64"@;
    reveal_strlit(";base64");
    assert(";base64,"@ =~= ";base64"@ + ","@);
    assert(rest =~= meta + ","@ + data);
    assert("data:"@ =~= url.subrange(0, 5));
    assert(","@ =~= seq![',']);
    assert(";"@ =~= seq![';']);
    lemma_found_at(rest, ","@, ',', meta.len() as int);
    assert(rest.take(meta.len() as int) =~= meta);
    assert(rest.skip(meta.len() as int + 1) =~= data);
    assert("image/"@ =~= media.subrange(0, 6));
    assert("image/"@ =~= meta.subrange(0, 6));
    lemma_found_at(meta, ";"@, ';', media.len() as int);
    assert(meta.take(media.len() as int) =~= media);
}

// ---------------------------------------------------------------- message content

/// `content` followed by one note for each image that was left out.
pub open spec fn with_notes(content: Seq<char>, images: nat) -> Seq<char>
    decreases images,
{
    if images == 0 {
        content
    } else {
        let before = with_notes(content, (images - 1) as nat);
        let note =
            "[Image attachment omitted: the selected model does not support image input.]"@;
        if before.len() > 0 {
            before + "\n\n"@ + note
        } else {
            note
        }
    }
}

/// The content for a model that takes no images.
pub fn plain_text_content(content: &str, images: &Vec<Json>) -> (r: String)
    ensures
        r@ == with_notes(content@, images@.len()),
{
    let mut text = content.to_owned();
    for i in 0..images.len()
        invariant
            text@ == with_notes(content@, i as nat),
    {
        if !text.as_str().is_empty() {
            text.append("\n\n");
            text.append(
                "[Image attachment omitted: the selected model does not support image input.]",
            );
        } else {
            text =
            "[Image attachment omitted: the selected model does not support image input.]".to_owned();
        }
    }
    text
}

/// A text part in the dialect's own spelling.
pub open spec fn text_part_view(kind: RequestKind, content: Seq<char>) -> JsonView {
    JsonView::object().with(
        "type"@,
        JsonView::Str(
            if kind == RequestKind::OpenAiResponses {
                "input_text"@
            } else {
                "text"@
            },
        ),
    ).with("text"@, JsonView::Str(content))
}

/// A text part in the dialect's own spelling: Responses names input parts after the item
/// (`input_text`), and a `text` part there is rejected as an invalid value.
pub fn text_part(kind: &str, content: &str) -> (r: Json)
    ensures
        r@ == text_part_view(kind_of(kind@), content@),
        r@ is Object,
{
    let name = match RequestKind::parse(kind) {
        RequestKind::OpenAiResponses => "input_text",
        _ => "text",
    };
    Json::object().with("type", Json::text(name)).with("text", Json::text(content))
}

/// An image in the dialect's own spelling; a note where it is no inlined image.
pub open spec fn image_part_view(kind: RequestKind, image: JsonView) -> JsonView {
    match data_url(image.text_or_empty()) {
        Some((media, data)) => match kind {
            RequestKind::Anthropic => JsonView::object().with("type"@, JsonView::Str("image"@)).with(
                "source"@,
                JsonView::object().with("type"@, JsonView::Str("base64"@)).with(
                    "media_type"@,
                    JsonView::Str(media),
                ).with("data"@, JsonView::Str(data)),
            ),
            RequestKind::OpenAiResponses => JsonView::object().with(
                "type"@,
                JsonView::Str("input_image"@),
            ).with("image_url"@, image),
            RequestKind::OpenAiChat => JsonView::object().with(
                "type"@,
                JsonView::Str("image_url"@),
            ).with("image_url"@, JsonView::object().with("url"@, image)),
        },
        None => text_part_view(kind, "[Image attachment omitted: invalid image data.]"@),
    }
}

fn image_part(kind: &str, image: &Json) -> (r: Json)
    ensures
        r@ == image_part_view(kind_of(kind@), image@),
{
    match parse_data_url(image.str_or_empty()) {
        Some((media, data)) => match RequestKind::parse(kind) {
            RequestKind::Anthropic => {
                let source = Json::object().with("type", Json::text("base64")).with(
                    "media_type",
                    Json::Str(media),
                ).with("data", Json::Str(data));
                Json::object().with("type", Json::text("image")).with("source", source)
            },
            // Responses names its parts after the input item, not the Chat shape.
            RequestKind::OpenAiResponses => Json::object().with(
                "type",
                Json::text("input_image"),
            ).with("image_url", image.clone()),
            RequestKind::OpenAiChat => Json::object().with("type", Json::text("image_url")).with(
                "image_url",
                Json::object().with("url", image.clone()),
            ),
        },
        None => text_part(kind, "[Image attachment omitted: invalid image data.]"),
    }
}

/// The parts of a message with images: its text, unless that is blank, then its images.
pub open spec fn message_parts(
    kind: RequestKind,
    content: Seq<char>,
    images: Seq<JsonView>,
) -> Seq<JsonView> {
    let text = if is_blank(content) {
        Seq::empty()
    } else {
        seq![text_part_view(kind, content)]
    };
    text + images.map_values(|i: JsonView| image_part_view(kind, i))
}

/// Whether some part is text.
pub open spec fn has_text_part(parts: Seq<JsonView>) -> bool {
    exists|i: int| 0 <= i < parts.len() && (#[trigger] parts[i]).at("type"@).is_text("text"@)
}

/// The content of a message in the dialect's own shape. Anthropic is always sent a text part.
pub open spec fn content_value(
    kind: RequestKind,
    supports_images: bool,
    content: Seq<char>,
    images: Seq<JsonView>,
) -> JsonView {
    if images.len() == 0 {
        JsonView::Str(content)
    } else if !supports_images {
        JsonView::Str(with_notes(content, images.len()))
    } else {
        let parts = message_parts(kind, content, images);
        if kind == RequestKind::Anthropic && !has_text_part(parts) {
            JsonView::Array(seq![text_part_view(kind, Seq::empty())] + parts)
        } else {
            JsonView::Array(parts)
        }
    }
}

fn find_text_part(parts: &Vec<Json>) -> (r: bool)
    ensures
        r == has_text_part(views(parts@)),
{
    for i in 0..parts.len()
        invariant
            forall|j: int|
                0 <= j < i ==> !(#[trigger] views(parts@)[j]).at("type"@).is_text("text"@),
    {
        if parts[i].at("type").is_str("text") {
            assert(views(parts@)[i as int].at("type"@).is_text("text"@));
            return true;
        }
    }
    false
}

/// The content of a message in the dialect's own shape.
pub fn content_part(kind: &str, supports_images: bool, content: &str, images: &Vec<Json>) -> (r:
    Json)
    ensures
        r@ == content_value(kind_of(kind@), supports_images, content@, views(images@)),
{
    if images.len() == 0 {
        return Json::text(content);
    }
    if !supports_images {
        return Json::Str(plain_text_content(content, images));
    }
    let ghost dialect = kind_of(kind@);
    let ghost shown = views(images@).map_values(|i: JsonView| image_part_view(dialect, i));
    let ghost head = if is_blank(content@) {
        Seq::empty()
    } else {
        seq![text_part_view(dialect, content@)]
    };
    let mut parts: Vec<Json> = Vec::new();
    assert(views(parts@) =~= Seq::empty());
    if !blank(content) {
        let part = text_part(kind, content);
        proof {
            views_push(parts@, part);
        }
        parts.push(part);
        assert(views(parts@) =~= head);
    }
    assert(head + shown.take(0) =~= head);
    for i in 0..images.len()
        invariant
            dialect == kind_of(kind@),
            shown == views(images@).map_values(|i: JsonView| image_part_view(dialect, i)),
            views(parts@) == head + shown.take(i as int),
    {
        let part = image_part(kind, &images[i]);
        proof {
            views_push(parts@, part);
            assert(shown[i as int] == part@);
            assert(head + shown.take(i + 1) =~= (head + shown.take(i as int)).push(part@));
        }
        parts.push(part);
    }
    assert(shown.take(images@.len() as int) =~= shown);
    let anthropic = match RequestKind::parse(kind) {
        RequestKind::Anthropic => true,
        _ => false,
    };
    if anthropic && !find_text_part(&parts) {
        let empty = text_part(kind, "");
        let ghost before = views(parts@);
        parts.insert(0, empty);
        proof {
            reveal_strlit("");
            assert(""@ =~= Seq::empty());
            assert(views(parts@) =~= seq![empty@] + before);
        }
    }
    Json::Array(parts)
}

/// Whatever the images, an Anthropic message with images has a text part.
pub proof fn anthropic_messages_have_text(content: Seq<char>, images: Seq<JsonView>)
    requires
        images.len() > 0,
    ensures
        content_value(RequestKind::Anthropic, true, content, images) matches JsonView::Array(parts)
            && has_text_part(parts),
{
    reveal_strlit("type");
    reveal_strlit("text");
    let parts = message_parts(RequestKind::Anthropic, content, images);
    if !has_text_part(parts) {
        let empty = text_part_view(RequestKind::Anthropic, Seq::empty());
        let all = seq![empty] + parts;
        assert("type"@[1] != "text"@[1]);
        assert(all[0].at("type"@).is_text("text"@));
    }
}

// ---------------------------------------------------------------- laws

/// A text takes about two tokens for seven characters, and never fewer than one.
pub proof fn seven_characters_take_two_tokens(n: nat)
    requires
        n <= 1_000_000_000,
    ensures
        7 * text_tokens(n) >= 2 * n,
        n > 0 ==> 7 * (text_tokens(n) - 1) < 2 * n,
        text_tokens(0) == 1,
{
}

/// An image takes a token for each kibibyte of its data, within the limits; one more image adds its
/// own tokens.
pub proof fn images_take_their_size(images: Seq<String>, image: String)
    ensures
        ({
            let bytes = encode_utf8(after_last_comma(image@)).len();
            &&& 307_200 <= bytes < 2_458_624 ==> 1024 * image_tokens(image@) <= bytes < 1024 * (
            image_tokens(image@) + 1)
            &&& bytes < 307_200 ==> image_tokens(image@) == 300
            &&& bytes >= 2_457_600 ==> image_tokens(image@) == 2400
            &&& images_tokens(images.push(image)) == images_tokens(images) + image_tokens(image@)
        }),
{
    assert(images.push(image).drop_last() =~= images);
}

/// A text without images is sent as it is, whatever the model can see.
pub proof fn plain_texts_are_sent_unchanged(
    kind: RequestKind,
    supports_images: bool,
    content: Seq<char>,
)
    ensures
        content_value(kind, supports_images, content, Seq::empty()) == JsonView::Str(content),
{
}

/// A model that cannot see images is sent the text with a note for each of them.
pub proof fn unseen_images_are_noted(kind: RequestKind, content: Seq<char>, images: Seq<JsonView>)
    requires
        images.len() > 0,
    ensures
        content_value(kind, false, content, images) matches JsonView::Str(text) && content.is_prefix_of(
            text,
        ) && text.len() >= content.len() + 70 * images.len(),
{
    lemma_notes(content, images.len());
}

proof fn lemma_notes(content: Seq<char>, images: nat)
    ensures
        content.is_prefix_of(with_notes(content, images)),
        with_notes(content, images).len() >= content.len() + 70 * images,
    decreases images,
{
    reveal_strlit("[Image attachment omitted: the selected model does not support image input.]");
    reveal_strlit("\n\n");
    let noted = with_notes(content, images);
    if images > 0 {
        lemma_notes(content, (images - 1) as nat);
        let before = with_notes(content, (images - 1) as nat);
        assert(content =~= noted.subrange(0, content.len() as int)) by {
            assert(content == before.subrange(0, content.len() as int));
            assert forall|k: int| 0 <= k < content.len() implies content[k] == noted[k] by {
                assert(before.subrange(0, content.len() as int)[k] == before[k]);
            }
        }
    } else {
        assert(content =~= noted.subrange(0, content.len() as int));
    }
}

/// A model that sees images is sent every one of them, in their order and behind the text.
pub proof fn seen_images_are_sent(
    kind: RequestKind,
    content: Seq<char>,
    images: Seq<JsonView>,
    i: int,
)
    requires
        0 <= i < images.len(),
    ensures
        content_value(kind, true, content, images) matches JsonView::Array(parts) && {
            &&& parts.len() >= images.len()
            &&& parts[parts.len() - images.len() + i] == image_part_view(kind, images[i])
            &&& !is_blank(content) ==> parts.len() == images.len() + 1 && parts[0].at("text"@)
                == JsonView::Str(content)
            &&& is_blank(content) && kind != RequestKind::Anthropic ==> parts.len() == images.len()
        },
{
    names_are_told_apart();
    let shown = images.map_values(|i: JsonView| image_part_view(kind, i));
    let parts = message_parts(kind, content, images);
    assert(shown[i] == image_part_view(kind, images[i]));
    if !is_blank(content) {
        let text = text_part_view(kind, content);
        assert(parts[0] == text);
        if kind == RequestKind::Anthropic {
            assert(parts[0].at("type"@).is_text("text"@));
            assert(has_text_part(parts));
        }
    }
}

/// A part of text holds the text; a part of an image holds its media type and data, or the whole
/// data URL, under the names of the dialect. An image that is none is told of as such.
pub proof fn parts_hold_what_they_stand_for(
    kind: RequestKind,
    content: Seq<char>,
    image: JsonView,
    media: Seq<char>,
    data: Seq<char>,
)
    ensures
        text_part_view(kind, content).at("text"@) == JsonView::Str(content),
        text_part_view(kind, content).at("type"@) == JsonView::Str(
            if kind == RequestKind::OpenAiResponses {
                "input_text"@
            } else {
                "text"@
            },
        ),
        data_url(image.text_or_empty()) == Some((media, data)) ==> {
            let part = image_part_view(kind, image);
            match kind {
                RequestKind::Anthropic => {
                    &&& part.at("type"@) == JsonView::Str("image"@)
                    &&& part.at("source"@).at("type"@) == JsonView::Str("base64"@)
                    &&& part.at("source"@).at("media_type"@) == JsonView::Str(media)
                    &&& part.at("source"@).at("data"@) == JsonView::Str(data)
                },
                RequestKind::OpenAiResponses => {
                    &&& part.at("type"@) == JsonView::Str("input_image"@)
                    &&& part.at("image_url"@) == image
                },
                RequestKind::OpenAiChat => {
                    &&& part.at("type"@) == JsonView::Str("image_url"@)
                    &&& part.at("image_url"@).at("url"@) == image
                },
            }
        },
        data_url(image.text_or_empty()) is None ==> {
            let part = image_part_view(kind, image);
            &&& part.at("type"@) == text_part_view(kind, content).at("type"@)
            &&& part.at("text"@).text_or_empty().len() > 0
        },
{
    names_are_told_apart();
    reveal_strlit("[Image attachment omitted: invalid image data.]");
}

/// The data of an image is what stands behind the last comma.
pub proof fn data_stands_behind_the_last_comma(before: Seq<char>, data: Seq<char>)
    requires
        !data.contains(','),
    ensures
        after_last_comma(before.push(',') + data) == data,
        after_last_comma(data) == data,
    decreases data.len(),
{
    let s = before.push(',') + data;
    if data.len() > 0 {
        let rest = data.drop_last();
        assert(data.contains(data[data.len() - 1]));
        assert forall|k: int| 0 <= k < rest.len() implies rest[k] != ',' by {
            assert(data.contains(data[k]));
        }
        data_stands_behind_the_last_comma(before, rest);
        assert(s.drop_last() =~= before.push(',') + rest);
        assert(s.last() == data.last());
        assert(rest.push(data.last()) =~= data);
    } else {
        assert(s =~= before.push(','));
        assert(after_last_comma(s) =~= data);
        assert(after_last_comma(data) =~= data);
    }
}

/// Each image that is not seen adds its note behind an empty line.
pub proof fn notes_stand_behind_empty_lines(
    kind: RequestKind,
    content: Seq<char>,
    images: Seq<JsonView>,
    image: JsonView,
)
    requires
        content.len() > 0,
    ensures
        content_value(kind, false, content, images.push(image)) == JsonView::Str(
            content_value(kind, false, content, images).text_or_empty() + "\n\n"@
                + "[Image attachment omitted: the selected model does not support image input.]"@,
        ),
{
    lemma_notes(content, images.len());
    if images.len() == 0 {
        assert(with_notes(content, 0) == content);
    }
}

} // verus!
