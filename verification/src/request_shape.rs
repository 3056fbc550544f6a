//! A description of a Responses request for the log.

use vstd::prelude::*;
use vstd::string::*;

use crate::json::{entries, entries_last, json_text, views, Json, JsonView};
use crate::letters::{comes_before, order_is_irreflexive, order_is_total, order_is_transitive, precedes};
use crate::picking::{picked, picked_ends, picked_push, picked_step};
use crate::text::{join, joined, joined_push, same, texts};

verus! {

// ---------------------------------------------------------------- keys in order

/// Whether each text comes before the next, so that none occurs twice.
pub open spec fn ascending(keys: Seq<Seq<char>>) -> bool {
    forall|i: int, j: int| 0 <= i < j < keys.len() ==> precedes(#[trigger] keys[i], #[trigger] keys[j])
}

/// Whether `keys` lists a set of keys in ascending order.
pub open spec fn lists_keys(keys: Seq<Seq<char>>, set: Set<Seq<char>>) -> bool {
    &&& ascending(keys)
    &&& forall|k: Seq<char>| #[trigger] keys.contains(k) <==> set.contains(k)
}

/// A set of keys in ascending order.
pub open spec fn sorted_keys(set: Set<Seq<char>>) -> Seq<Seq<char>> {
    choose|keys: Seq<Seq<char>>| lists_keys(keys, set)
}

proof fn lemma_same_up_to(
    a: Seq<Seq<char>>,
    b: Seq<Seq<char>>,
    set: Set<Seq<char>>,
    n: int,
)
    requires
        lists_keys(a, set),
        lists_keys(b, set),
        0 <= n <= a.len(),
    ensures
        n <= b.len(),
        a.take(n) == b.take(n),
    decreases n,
{
    if n == 0 {
        assert(a.take(0) =~= b.take(0));
    } else {
        let i = n - 1;
        lemma_same_up_to(a, b, set, i);
        assert forall|q: int| 0 <= q < i implies a[q] == b[q] by {
            assert(a.take(i)[q] == b.take(i)[q]);
        }
        assert(a.contains(a[i]));
        assert(b.contains(a[i]));
        let j = choose|j: int| 0 <= j < b.len() && b[j] == a[i];
        if j < i {
            assert(precedes(a[j], a[i]));
            order_is_irreflexive(a[i]);
        }
        assert(j >= i);
        assert(b.contains(b[i]));
        assert(a.contains(b[i]));
        let k = choose|k: int| 0 <= k < a.len() && a[k] == b[i];
        if k < i {
            assert(precedes(b[k], b[i]));
            order_is_irreflexive(b[i]);
        }
        if j > i {
            assert(precedes(b[i], b[j]));
            if k > i {
                assert(precedes(a[i], a[k]));
                order_is_transitive(a[i], b[i], a[i]);
            }
            order_is_irreflexive(a[i]);
        }
        assert(a.take(n) =~= a.take(i).push(a[i]));
        assert(b.take(n) =~= b.take(i).push(b[i]));
    }
}

/// There is one such list only.
proof fn lemma_keys_are_unique(a: Seq<Seq<char>>, set: Set<Seq<char>>)
    requires
        lists_keys(a, set),
    ensures
        sorted_keys(set) == a,
{
    let b = sorted_keys(set);
    assert(lists_keys(b, set));
    lemma_same_up_to(a, b, set, a.len() as int);
    lemma_same_up_to(b, a, set, b.len() as int);
    assert(a.take(a.len() as int) =~= a);
    assert(b.take(b.len() as int) =~= b);
}

/// Puts a key into an ascending list, where it is not there yet.
fn insert_key(keys: &mut Vec<String>, key: &str)
    requires
        ascending(texts(old(keys)@)),
    ensures
        ascending(texts(final(keys)@)),
        forall|k: Seq<char>| #[trigger]
            texts(final(keys)@).contains(k) <==> (texts(old(keys)@).contains(k) || k == key@),
{
    let ghost before = texts(keys@);
    let mut at: usize = 0;
    while at < keys.len() && comes_before(keys[at].as_str(), key)
        invariant
            at <= keys@.len(),
            texts(keys@) == before,
            forall|j: int| 0 <= j < at ==> precedes(#[trigger] before[j], key@),
        decreases keys@.len() - at,
    {
        at = at + 1;
    }
    if at < keys.len() && same(keys[at].as_str(), key) {
        proof {
            assert(before[at as int] == key@);
            assert(before.contains(key@));
        }
        return;
    }
    proof {
        assert forall|j: int| at <= j < before.len() implies precedes(key@, #[trigger] before[j]) by {
            order_is_total(before[at as int], key@);
            if j > at {
                assert(precedes(before[at as int], before[j]));
                order_is_transitive(key@, before[at as int], before[j]);
            }
        }
    }
    let name = key.to_owned();
    keys.insert(at, name);
    proof {
        let after = texts(keys@);
        assert(after =~= before.insert(at as int, key@));
        assert forall|i: int, j: int| 0 <= i < j < after.len() implies precedes(
            #[trigger] after[i],
            #[trigger] after[j],
        ) by {
            let a = if i < at {
                i
            } else {
                i - 1
            };
            let b = if j < at {
                j
            } else {
                j - 1
            };
            if i != at && j != at {
                assert(precedes(before[a], before[b]));
            } else if i == at {
                assert(precedes(key@, before[b]));
            } else {
                assert(precedes(before[a], key@));
            }
        }
        assert forall|k: Seq<char>| #[trigger] after.contains(k) <==> (before.contains(k) || k
            == key@) by {
            if after.contains(k) {
                let i = choose|i: int| 0 <= i < after.len() && after[i] == k;
                if i < at {
                    assert(before[i] == k);
                } else if i > at {
                    assert(before[i - 1] == k);
                }
            }
            if before.contains(k) {
                let i = choose|i: int| 0 <= i < before.len() && before[i] == k;
                if i < at {
                    assert(after[i] == k);
                } else {
                    assert(after[i + 1] == k);
                }
            }
            if k == key@ {
                assert(after[at as int] == k);
            }
        }
    }
}

/// The keys of an object in ascending order; none where it is another kind of value.
pub open spec fn field_names(body: JsonView) -> Seq<Seq<char>> {
    match body {
        JsonView::Object(map) => sorted_keys(map.dom()),
        _ => Seq::empty(),
    }
}

fn list_field_names(body: &Json) -> (r: Vec<String>)
    ensures
        texts(r@) == field_names(body@),
{
    let mut keys: Vec<String> = Vec::new();
    assert(texts(keys@) =~= Seq::empty());
    if let Json::Object(fields) = body {
        assert(entries(fields@.take(0)) =~= Map::empty());
        for i in 0..fields.len()
            invariant
                lists_keys(texts(keys@), entries(fields@.take(i as int)).dom()),
        {
            let ghost shorter = fields@.take(i as int);
            let ghost longer = fields@.take(i + 1);
            proof {
                entries_last(longer);
                assert(longer.drop_last() =~= shorter);
            }
            insert_key(&mut keys, fields[i].0.as_str());
            assert forall|k: Seq<char>| #[trigger] texts(keys@).contains(k) <==> entries(
                longer,
            ).dom().contains(k) by {}
        }
        proof {
            assert(fields@.take(fields@.len() as int) =~= fields@);
            lemma_keys_are_unique(texts(keys@), entries(fields@).dom());
        }
    }
    keys
}

// ---------------------------------------------------------------- the description

/// The role of an input item and whether its content is a string or parts.
pub open spec fn item_shape(item: JsonView) -> Seq<char> {
    let role = match item.at("role"@).text() {
        Some(role) => role,
        None => "?"@,
    };
    role + ":"@ + if item.at("content"@) is Str {
        "str"@
    } else {
        "parts"@
    }
}

/// The types of the tools, or a dash where there is no list of tools.
pub open spec fn tools_shape(tools: JsonView) -> Seq<char> {
    match tools.items() {
        Some(items) => joined(picked(items, |t: JsonView| t.at("type"@).text()), "+"@),
        None => "-"@,
    }
}

/// The shapes of the input items.
pub open spec fn input_shape(input: JsonView) -> Seq<char> {
    joined(picked(input.items_or_empty(), |i: JsonView| Some(item_shape(i))), " "@)
}

/// The description of a Responses body: field names, tool types, the reasoning setting, the chain
/// and the shape of each input item, and nothing of the transcript.
pub open spec fn request_shape(body: JsonView) -> Seq<char> {
    let reasoning = if body.at("reasoning"@) is Null {
        "-"@
    } else {
        json_text(body.at("reasoning"@))
    };
    let chain = match body.at("previous_response_id"@).text() {
        Some(id) => id,
        None => "-"@,
    };
    "fields=["@ + joined(field_names(body), ","@) + "] tools=["@ + tools_shape(body.at("tools"@))
        + "] reasoning="@ + reasoning + " chain="@ + chain + " input=["@ + input_shape(
        body.at("input"@),
    ) + "]"@
}

fn describe_item(item: &Json) -> (r: String)
    ensures
        r@ == item_shape(item@),
{
    let role = match item.at("role").as_str() {
        Some(role) => role,
        None => "?",
    };
    let shape = match item.at("content") {
        Json::Str(_) => "str",
        _ => "parts",
    };
    role.to_owned().concat(":").concat(shape)
}

fn describe_tools(tools: &Json) -> (r: String)
    ensures
        r@ == tools_shape(tools@),
{
    match tools.as_array() {
        Some(items) => {
            let ghost pick = |t: JsonView| t.at("type"@).text();
            let mut out: Vec<String> = Vec::new();
            proof {
                picked_ends(views(items@), pick);
                assert(texts(out@) =~= Seq::empty());
            }
            for i in 0..items.len()
                invariant
                    pick == (|t: JsonView| t.at("type"@).text()),
                    texts(out@) == picked(views(items@).take(i as int), pick),
            {
                let ghost before = texts(out@);
                proof {
                    picked_step(views(items@), pick, i as int);
                }
                if let Some(name) = items[i].at("type").as_str() {
                    out.push(name.to_owned());
                    assert(texts(out@) =~= before.push(name@));
                }
            }
            proof {
                picked_ends(views(items@), pick);
            }
            join(&out, "+")
        },
        None => "-".to_owned(),
    }
}

fn describe_input(input: &Json) -> (r: String)
    ensures
        r@ == input_shape(input@),
{
    let ghost pick = |i: JsonView| Some(item_shape(i));
    let mut out: Vec<String> = Vec::new();
    assert(texts(out@) =~= Seq::empty());
    if let Some(items) = input.as_array() {
        proof {
            picked_ends(views(items@), pick);
        }
        for i in 0..items.len()
            invariant
                pick == (|i: JsonView| Some(item_shape(i))),
                texts(out@) == picked(views(items@).take(i as int), pick),
        {
            let ghost before = texts(out@);
            proof {
                picked_step(views(items@), pick, i as int);
            }
            let shape = describe_item(&items[i]);
            let ghost text = shape@;
            out.push(shape);
            assert(texts(out@) =~= before.push(text));
        }
        proof {
            picked_ends(views(items@), pick);
        }
    }
    join(&out, " ")
}

/// A description of a Responses body that keeps the transcript out of the log: field names,
/// hosted tool types, the reasoning setting, and the role and shape of each input item.
pub fn responses_shape(body: &Json) -> (r: String)
    ensures
        r@ == request_shape(body@),
{
    let fields = list_field_names(body);
    let reasoning = if body.at("reasoning").is_null() {
        "-".to_owned()
    } else {
        body.at("reasoning").print()
    };
    let chain = match body.at("previous_response_id").as_str() {
        Some(id) => id,
        None => "-",
    };
    "fields=[".to_owned().concat(join(&fields, ",").as_str()).concat("] tools=[").concat(
        describe_tools(body.at("tools")).as_str(),
    ).concat("] reasoning=").concat(reasoning.as_str()).concat(" chain=").concat(chain).concat(
        " input=[",
    ).concat(describe_input(body.at("input")).as_str()).concat("]")
}

// ---------------------------------------------------------------- laws

/// Whether two bodies differ in the contents of their input items at most: they have the same
/// fields, everything but the input is the same, and the input items have the same roles, and
/// strings for contents in the same places.
pub open spec fn differ_in_contents(a: JsonView, b: JsonView) -> bool {
    let here = a.at("input"@).items_or_empty();
    let there = b.at("input"@).items_or_empty();
    &&& a is Object && b is Object
    &&& forall|k: Seq<char>| (#[trigger] a.field(k) is Some) == (b.field(k) is Some)
    &&& forall|k: Seq<char>| k != "input"@ ==> #[trigger] a.at(k) == b.at(k)
    &&& here.len() == there.len()
    &&& forall|i: int|
        0 <= i < here.len() ==> (#[trigger] here[i]).at("role"@) == there[i].at("role"@) && (
        here[i].at("content"@) is Str <==> there[i].at("content"@) is Str)
}

proof fn lemma_same_shapes(a: Seq<JsonView>, b: Seq<JsonView>)
    requires
        a.len() == b.len(),
        forall|i: int| 0 <= i < a.len() ==> item_shape(#[trigger] a[i]) == item_shape(b[i]),
    ensures
        picked(a, |i: JsonView| Some(item_shape(i))) == picked(b, |i: JsonView| Some(item_shape(i))),
    decreases a.len(),
{
    if a.len() > 0 {
        assert forall|i: int| 0 <= i < a.len() - 1 implies item_shape(
            #[trigger] a.drop_last()[i],
        ) == item_shape(b.drop_last()[i]) by {
            assert(a[i] == a.drop_last()[i]);
        }
        lemma_same_shapes(a.drop_last(), b.drop_last());
        assert(item_shape(a[a.len() - 1]) == item_shape(b[b.len() - 1]));
    }
}

/// Nothing of what the messages say reaches the log: bodies that differ in the contents of their
/// input items alone have one description.
pub proof fn contents_are_not_described(a: JsonView, b: JsonView)
    requires
        differ_in_contents(a, b),
    ensures
        request_shape(a) == request_shape(b),
{
    reveal_strlit("input");
    reveal_strlit("tools");
    reveal_strlit("reasoning");
    reveal_strlit("previous_response_id");
    assert("tools"@[0] == 't' && "reasoning"@[0] == 'r' && "previous_response_id"@[0] == 'p');
    assert("input"@[0] == 'i');
    assert(a.at("tools"@) == b.at("tools"@));
    assert(a.at("reasoning"@) == b.at("reasoning"@));
    assert(a.at("previous_response_id"@) == b.at("previous_response_id"@));
    if let (JsonView::Object(one), JsonView::Object(other)) = (a, b) {
        assert forall|k: Seq<char>| one.dom().contains(k) == other.dom().contains(k) by {
            assert((a.field(k) is Some) == (b.field(k) is Some));
        }
        assert(one.dom() =~= other.dom());
    }
    lemma_same_shapes(a.at("input"@).items_or_empty(), b.at("input"@).items_or_empty());
}

/// An item is described by its role and by whether its content is text or parts; one more item is
/// described at the end, behind a space.
pub proof fn items_are_described_in_order(items: Seq<JsonView>, item: JsonView, role: Seq<char>)
    requires
        item.at("role"@) == JsonView::Str(role),
    ensures
        ({
            let described = role + ":"@ + if item.at("content"@) is Str {
                "str"@
            } else {
                "parts"@
            };
            let before = input_shape(JsonView::Array(items));
            let after = input_shape(JsonView::Array(items.push(item)));
            &&& items.len() == 0 ==> after == described
            &&& items.len() > 0 ==> after == before + " "@ + described
        }),
{
    let pick = |i: JsonView| Some(item_shape(i));
    picked_push(items, item, pick);
    joined_push(picked(items, pick), item_shape(item), " "@);
    lemma_all_are_picked(items);
}

proof fn lemma_all_are_picked(items: Seq<JsonView>)
    ensures
        picked(items, |i: JsonView| Some(item_shape(i))).len() == items.len(),
    decreases items.len(),
{
    if items.len() > 0 {
        lemma_all_are_picked(items.drop_last());
    }
}

/// Tools are described by their types, with a plus between; where there is no list of them, by a dash.
pub proof fn tools_are_described_by_type(tools: Seq<JsonView>, tool: JsonView, name: Seq<char>)
    requires
        tool.at("type"@) == JsonView::Str(name),
    ensures
        tools.len() == 0 ==> tools_shape(JsonView::Array(tools.push(tool))) == name,
        picked(tools, |t: JsonView| t.at("type"@).text()).len() > 0 ==> tools_shape(
            JsonView::Array(tools.push(tool)),
        ) == tools_shape(JsonView::Array(tools)) + "+"@ + name,
        tools_shape(JsonView::Null) == "-"@,
{
    let pick = |t: JsonView| t.at("type"@).text();
    picked_push(tools, tool, pick);
    joined_push(picked(tools, pick), name, "+"@);
    assert(tools.len() == 0 ==> picked(tools, pick).len() == 0);
}

/// A request is described by its parts in a fixed order, each under its own name.
pub proof fn requests_are_described_part_by_part(body: JsonView, id: Seq<char>)
    requires
        body.at("previous_response_id"@) == JsonView::Str(id),
        body.at("reasoning"@) is Null,
    ensures
        request_shape(body) == "fields=["@ + joined(field_names(body), ","@) + "] tools=["@
            + tools_shape(body.at("tools"@)) + "] reasoning="@ + "-"@ + " chain="@ + id + " input=["@
            + input_shape(body.at("input"@)) + "]"@,
{
}

/// The fields of a request are named in ascending order, each once and none left out.
pub proof fn fields_are_named_in_order(body: JsonView, names: Seq<Seq<char>>)
    requires
        body is Object,
        forall|i: int, j: int|
            0 <= i < j < names.len() ==> precedes(#[trigger] names[i], #[trigger] names[j]),
        forall|name: Seq<char>| #[trigger] names.contains(name) <==> body.field(name) is Some,
    ensures
        field_names(body) == names,
        field_names(JsonView::Null).len() == 0,
{
    if let JsonView::Object(map) = body {
        assert forall|k: Seq<char>| #[trigger] names.contains(k) <==> map.dom().contains(k) by {
            assert(body.field(k) is Some <==> map.contains_key(k));
        }
        lemma_keys_are_unique(names, map.dom());
    }
}

} // verus!
