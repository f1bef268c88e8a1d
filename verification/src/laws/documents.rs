//! Promises on JSON documents.
use vstd::prelude::*;

use crate::client::only_texts;
use crate::json::items_view;
use crate::json::lemma_list_view;
use crate::json::members;
use crate::json::object;
use crate::json::Json;
use crate::json::JsonView;
use crate::request::argument_text;
use crate::request::pixels;
use crate::request::text_at;
use crate::request::with_blanks;

verus! {

/// The object with one member.
pub proof fn lemma_object_1(k: Seq<char>, v: JsonView)
    ensures
        object(seq![(k, v)]) == JsonView::Object(map![k => v]),
{
    let e0 = Seq::<(Seq<char>, JsonView)>::empty();
    let e1 = seq![(k, v)];
    assert(e1.drop_last() =~= e0);
    assert(members(e1) == members(e0).insert(k, v));
}

/// The object with two members.
pub proof fn lemma_object_2(k1: Seq<char>, v1: JsonView, k2: Seq<char>, v2: JsonView)
    ensures
        object(seq![(k1, v1), (k2, v2)]) == JsonView::Object(map![k1 => v1, k2 => v2]),
{
    lemma_object_1(k1, v1);
    let e = seq![(k1, v1), (k2, v2)];
    assert(e.drop_last() =~= seq![(k1, v1)]);
    assert(members(e) == members(seq![(k1, v1)]).insert(k2, v2));
}

/// The object with three members.
pub proof fn lemma_object_3(
    k1: Seq<char>,
    v1: JsonView,
    k2: Seq<char>,
    v2: JsonView,
    k3: Seq<char>,
    v3: JsonView,
)
    ensures
        object(seq![(k1, v1), (k2, v2), (k3, v3)]) == JsonView::Object(
            map![k1 => v1, k2 => v2, k3 => v3],
        ),
{
    lemma_object_2(k1, v1, k2, v2);
    let e = seq![(k1, v1), (k2, v2), (k3, v3)];
    assert(e.drop_last() =~= seq![(k1, v1), (k2, v2)]);
    assert(members(e) == members(seq![(k1, v1), (k2, v2)]).insert(k3, v3));
}

/// The object with four members.
pub proof fn lemma_object_4(
    k1: Seq<char>,
    v1: JsonView,
    k2: Seq<char>,
    v2: JsonView,
    k3: Seq<char>,
    v3: JsonView,
    k4: Seq<char>,
    v4: JsonView,
)
    ensures
        object(seq![(k1, v1), (k2, v2), (k3, v3), (k4, v4)]) == JsonView::Object(
            map![k1 => v1, k2 => v2, k3 => v3, k4 => v4],
        ),
{
    lemma_object_3(k1, v1, k2, v2, k3, v3);
    let e = seq![(k1, v1), (k2, v2), (k3, v3), (k4, v4)];
    assert(e.drop_last() =~= seq![(k1, v1), (k2, v2), (k3, v3)]);
    assert(members(e) == members(seq![(k1, v1), (k2, v2), (k3, v3)]).insert(k4, v4));
}

/// The object with five members.
pub proof fn lemma_object_5(
    k1: Seq<char>,
    v1: JsonView,
    k2: Seq<char>,
    v2: JsonView,
    k3: Seq<char>,
    v3: JsonView,
    k4: Seq<char>,
    v4: JsonView,
    k5: Seq<char>,
    v5: JsonView,
)
    ensures
        object(seq![(k1, v1), (k2, v2), (k3, v3), (k4, v4), (k5, v5)]) == JsonView::Object(
            map![k1 => v1, k2 => v2, k3 => v3, k4 => v4, k5 => v5],
        ),
{
    lemma_object_4(k1, v1, k2, v2, k3, v3, k4, v4);
    let e = seq![(k1, v1), (k2, v2), (k3, v3), (k4, v4), (k5, v5)];
    assert(e.drop_last() =~= seq![(k1, v1), (k2, v2), (k3, v3), (k4, v4)]);
    assert(members(e) == members(seq![(k1, v1), (k2, v2), (k3, v3), (k4, v4)]).insert(k5, v5));
}

/// What is asked of a document is what the document holds, and nothing is made up
/// where it holds something else.
pub proof fn law_documents_say_what_they_hold(json: JsonView, key: Seq<char>)
    ensures
        json.get(key) == (if json is Object && json->Object_0.dom().contains(key) {
            Some(json->Object_0[key])
        } else {
            None
        }),
        json.as_str() == (if json is Text {
            Some(json->Text_0)
        } else {
            None
        }),
        json.as_array() == (if json is List {
            Some(json->List_0)
        } else {
            None
        }),
        json.as_u64() == (if json is Integer && 0 <= json->Integer_0 <= u64::MAX {
            Some(json->Integer_0 as u64)
        } else {
            None
        }),
        json.get_str(key) == (if json is Object && json->Object_0.dom().contains(key)
            && json->Object_0[key] is Text {
            Some(json->Object_0[key]->Text_0)
        } else {
            None
        }),
{
}

/// Of the members of an object, the last one with a name counts.
pub proof fn law_last_member_counts(entries: Seq<(Seq<char>, JsonView)>, key: Seq<char>, v: JsonView)
    ensures
        object(Seq::empty()) == JsonView::Object(Map::empty()),
        object(entries.push((key, v))) == JsonView::Object(
            object(entries)->Object_0.insert(key, v),
        ),
{
    assert(entries.push((key, v)).drop_last() =~= entries);
}

/// A document of the library says what it is made of.
pub proof fn law_documents_are_seen_as_they_are(
    b: bool,
    text: String,
    items: Vec<Json>,
    i: int,
)
    ensures
        Json::Null@ == JsonView::Null,
        Json::Bool(b)@ == JsonView::Bool(b),
        Json::Text(text)@ == JsonView::Text(text@),
        match Json::List(items)@ {
            JsonView::List(seen) => seen.len() == items@.len() && (0 <= i < items@.len() ==> seen[i]
                == items@[i]@),
            _ => false,
        },
        items_view(items@).len() == items@.len(),
        0 <= i < items@.len() ==> items_view(items@)[i] == items@[i]@,
{
    lemma_list_view(items);
}

/// The texts among documents are those that are texts, in their order.
pub proof fn law_only_texts_are_taken(items: Seq<JsonView>, last: JsonView)
    ensures
        only_texts(Seq::empty()) == Seq::<Seq<char>>::empty(),
        only_texts(items.push(last)) == match last {
            JsonView::Text(s) => only_texts(items).push(s),
            _ => only_texts(items),
        },
{
    assert(items.push(last).drop_last() =~= items);
}

/// An argument is the text at its place, and empty where there is no text.
pub proof fn law_arguments_are_texts(items: Seq<JsonView>, i: int)
    requires
        0 <= i,
    ensures
        text_at(None, i) is None,
        argument_text(None, i) == Seq::<char>::empty(),
        text_at(Some(items), i) == (if i < items.len() && items[i] is Text {
            Some(items[i]->Text_0)
        } else {
            None
        }),
        argument_text(Some(items), i) == (if i < items.len() && items[i] is Text {
            items[i]->Text_0
        } else {
            Seq::empty()
        }),
{
}

/// Texts are joined with one blank between two of them, in their order; what is no
/// text counts as an empty one.
pub proof fn law_texts_are_joined_with_blanks(items: Seq<JsonView>, last: JsonView)
    ensures
        with_blanks(Seq::empty()) == Seq::<char>::empty(),
        with_blanks(seq![last]) == (if last is Text {
            last->Text_0
        } else {
            Seq::empty()
        }),
        items.len() > 0 ==> with_blanks(items.push(last)) == with_blanks(items) + seq![' '] + (
        if last is Text {
            last->Text_0
        } else {
            Seq::empty()
        }),
{
    assert(items.push(last).drop_last() =~= items);
    if items.len() > 0 {
        assert(with_blanks(items).push(' ') =~= with_blanks(items) + seq![' ']);
    }
}

/// A length in pixels is the number that is given, as far as it fits.
pub proof fn law_pixels_are_kept(n: u32, over: u32, default: u32, json: JsonView)
    ensures
        pixels(JsonView::Integer(n as int), default) == n,
        n + over * 0x1_0000_0000 <= u64::MAX ==> pixels(
            JsonView::Integer(n + over * 0x1_0000_0000),
            default,
        ) == n,
        !(json is Integer) ==> pixels(json, default) == default,
        pixels(JsonView::Integer(-1 - n), default) == default,
        pixels(JsonView::Integer(u64::MAX + 1 + n), default) == default,
{
}

} // verus!
