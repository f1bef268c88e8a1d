//! JSON documents.
use vstd::prelude::*;

use crate::error::Error;
use crate::text::text_eq;

verus! {

/// A document of `serde_json`.
#[verifier::external_type_specification]
#[verifier::external_body]
pub struct ExValue(serde_json::Value);

/// A number of `serde_json`.
#[verifier::external_type_specification]
#[verifier::external_body]
pub struct ExNumber(serde_json::Number);

/// A JSON document.
#[derive(Debug, PartialEq)]
pub enum Json {
    Null,
    Bool(bool),
    Number(serde_json::Number),
    Text(String),
    List(Vec<Json>),
    /// The members of an object; of two members with one name the later counts.
    Object(Vec<(String, Json)>),
}

/// What a JSON document says.
pub enum JsonView {
    Null,
    Bool(bool),
    Integer(int),
    /// A number that is no integer.
    Fractional(serde_json::Number),
    Text(Seq<char>),
    List(Seq<JsonView>),
    Object(Map<Seq<char>, JsonView>),
}

/// A document of `serde_json`, taken apart one level deep.
pub enum Node {
    Null,
    Bool(bool),
    Number(serde_json::Number),
    Text(String),
    List(Vec<serde_json::Value>),
    Object(Vec<(String, serde_json::Value)>),
}

/// What a `serde_json::Value` holds.
pub uninterp spec fn json_of(value: serde_json::Value) -> JsonView;

/// The integer that a `serde_json::Number` holds, where it holds one.
pub uninterp spec fn number_integer(number: serde_json::Number) -> Option<int>;

/// What `serde_json::from_str` makes of a text: a document, or the message of
/// its error.
pub uninterp spec fn json_parsed(text: Seq<char>) -> Result<JsonView, Seq<char>>;

/// The compact text that `serde_json` writes for a document.
pub uninterp spec fn json_text(json: JsonView) -> Seq<char>;

/// The document of the binary floating point number that `serde_json::Value::as_f64`
/// gives for a document, where it gives one.
pub uninterp spec fn json_float(json: JsonView) -> Option<JsonView>;

/// The number that a document is as a binary floating point number: that of zero
/// where it is no number.
pub open spec fn float_or_zero(json: JsonView) -> JsonView {
    match json_float(json) {
        Some(float) => float,
        None => json_float(JsonView::Integer(0))->Some_0,
    }
}

/// What a number says.
pub open spec fn number_view(number: serde_json::Number) -> JsonView {
    match number_integer(number) {
        Some(n) => JsonView::Integer(n),
        None => JsonView::Fractional(number),
    }
}

/// The members of an object: of two with one name the later counts.
pub open spec fn members(entries: Seq<(Seq<char>, JsonView)>) -> Map<Seq<char>, JsonView>
    decreases entries.len(),
{
    if entries.len() == 0 {
        Map::empty()
    } else {
        members(entries.drop_last()).insert(entries.last().0, entries.last().1)
    }
}

/// Tells whether no two members have one name.
pub open spec fn distinct(entries: Seq<(Seq<char>, JsonView)>) -> bool {
    forall|i: int, j: int|
        0 <= i < j < entries.len() ==> (#[trigger] entries[i]).0 != (#[trigger] entries[j]).0
}

/// An object with the given members.
pub open spec fn object(entries: Seq<(Seq<char>, JsonView)>) -> JsonView {
    JsonView::Object(members(entries))
}

/// Tells whether a document holds no fractional number and is nested at most
/// `depth` deep.
pub open spec fn plain(json: JsonView, depth: nat) -> bool
    decreases depth,
{
    match json {
        JsonView::Fractional(_) => false,
        JsonView::List(items) => {
            &&& depth > 0
            &&& forall|i: int|
                0 <= i < items.len() ==> plain(#[trigger] items[i], (depth - 1) as nat)
        },
        JsonView::Object(map) => {
            &&& depth > 0
            &&& forall|key: Seq<char>| #[trigger]
                map.contains_key(key) ==> plain(map[key], (depth - 1) as nat)
        },
        _ => true,
    }
}

impl JsonView {
    /// The member of an object with the given name.
    pub open spec fn get(self, key: Seq<char>) -> Option<JsonView> {
        match self {
            JsonView::Object(map) => if map.contains_key(key) {
                Some(map[key])
            } else {
                None
            },
            _ => None,
        }
    }

    /// The text, where the document is one.
    pub open spec fn as_str(self) -> Option<Seq<char>> {
        match self {
            JsonView::Text(s) => Some(s),
            _ => None,
        }
    }

    /// The number, where the document is one that fits.
    pub open spec fn as_u64(self) -> Option<u64> {
        match self {
            JsonView::Integer(n) => if 0 <= n <= u64::MAX {
                Some(n as u64)
            } else {
                None
            },
            _ => None,
        }
    }

    /// The items, where the document is a list.
    pub open spec fn as_array(self) -> Option<Seq<JsonView>> {
        match self {
            JsonView::List(items) => Some(items),
            _ => None,
        }
    }

    /// The text of a member.
    pub open spec fn get_str(self, key: Seq<char>) -> Option<Seq<char>> {
        match self.get(key) {
            Some(v) => v.as_str(),
            None => None,
        }
    }
}

impl Node {
    /// The members of an object, each with what its value holds.
    pub open spec fn entries(entries: Seq<(String, serde_json::Value)>) -> Seq<
        (Seq<char>, JsonView),
    > {
        Seq::new(entries.len(), |i: int| (entries[i].0@, json_of(entries[i].1)))
    }

    /// What the document says.
    pub open spec fn model(self) -> JsonView {
        match self {
            Node::Null => JsonView::Null,
            Node::Bool(b) => JsonView::Bool(b),
            Node::Number(n) => number_view(n),
            Node::Text(s) => JsonView::Text(s@),
            Node::List(items) => JsonView::List(
                Seq::new(items@.len(), |i: int| json_of(items@[i])),
            ),
            Node::Object(entries) => object(Node::entries(entries@)),
        }
    }
}

impl View for Json {
    type V = JsonView;

    open spec fn view(&self) -> JsonView {
        self.model()
    }
}

impl Json {
    /// What the document says.
    pub open spec fn model(self) -> JsonView
        decreases self,
    {
        match self {
            Json::Null => JsonView::Null,
            Json::Bool(b) => JsonView::Bool(b),
            Json::Number(n) => number_view(n),
            Json::Text(s) => JsonView::Text(s@),
            Json::List(items) => JsonView::List(Json::items_model(items@)),
            Json::Object(entries) => object(Json::entries_model(entries@)),
        }
    }

    /// The items of a list, each by what it says.
    pub open spec fn items_model(items: Seq<Json>) -> Seq<JsonView>
        decreases items,
    {
        Seq::new(
            items.len(),
            |i: int|
                if 0 <= i < items.len() {
                    items[i].model()
                } else {
                    JsonView::Null
                },
        )
    }

    /// The members of an object, each by what it says.
    pub open spec fn entries_model(entries: Seq<(String, Json)>) -> Seq<(Seq<char>, JsonView)>
        decreases entries,
    {
        Seq::new(
            entries.len(),
            |i: int|
                if 0 <= i < entries.len() {
                    (entries[i].0@, entries[i].1.model())
                } else {
                    (Seq::empty(), JsonView::Null)
                },
        )
    }
}

/// Takes a `serde_json::Value` apart: the variant, and what the variant holds. The
/// `into_iter` of the `serde_json::Map` in an object hands out its members, no two
/// of them under one name.
#[verifier::external_body]
fn open_value(value: serde_json::Value) -> (node: Node)
    ensures
        node.model() == json_of(value),
        node matches Node::Object(entries) ==> distinct(Node::entries(entries@)),
{
    match value {
        serde_json::Value::Null => Node::Null,
        serde_json::Value::Bool(b) => Node::Bool(b),
        serde_json::Value::Number(n) => Node::Number(n),
        serde_json::Value::String(s) => Node::Text(s),
        serde_json::Value::Array(items) => Node::List(items),
        serde_json::Value::Object(map) => Node::Object(map.into_iter().collect()),
    }
}

/// Puts a `serde_json::Value` together: the variant, and what it is to hold. The
/// `FromIterator` of `serde_json::Map` collects the members of an object, no two of
/// them under one name, and keeps them all.
#[verifier::external_body]
fn build_value(node: Node) -> (value: serde_json::Value)
    requires
        node matches Node::Object(entries) ==> distinct(Node::entries(entries@)),
    ensures
        json_of(value) == node.model(),
{
    match node {
        Node::Null => serde_json::Value::Null,
        Node::Bool(b) => serde_json::Value::Bool(b),
        Node::Number(n) => serde_json::Value::Number(n),
        Node::Text(s) => serde_json::Value::String(s),
        Node::List(items) => serde_json::Value::Array(items),
        Node::Object(entries) => serde_json::Value::Object(entries.into_iter().collect()),
    }
}

/// `serde_json::from_str` reads a document from a text, or fails with an error.
/// What it reads is left to the name `json_parsed`.
#[verifier::external_body]
fn parse_value(text: &str) -> (out: Result<serde_json::Value, String>)
    ensures
        match out {
            Ok(value) => json_parsed(text@) == Ok::<JsonView, Seq<char>>(json_of(value)),
            Err(message) => json_parsed(text@) == Err::<JsonView, Seq<char>>(message@),
        },
{
    serde_json::from_str(text).map_err(|e| e.to_string())
}

/// The `Display` of `serde_json::Value` writes a document on one line, as
/// `serde_json::to_string` does. `serde_json::from_str` reads the document back
/// from it, a newline behind it or not, unless a fractional number or nesting
/// beyond the reader's limit stands in the way.
#[verifier::external_body]
fn print_value(value: &serde_json::Value) -> (text: String)
    ensures
        text@ == json_text(json_of(*value)),
        !text@.contains('\n'),
        plain(json_of(*value), 127) ==> {
            &&& json_parsed(text@) == Ok::<JsonView, Seq<char>>(json_of(*value))
            &&& json_parsed(text@.push('\n')) == Ok::<JsonView, Seq<char>>(json_of(*value))
        },
{
    value.to_string()
}

/// `serde_json::Value::as_f64` gives the number that a document is, where it is
/// one, and `serde_json::Value::from` makes a document of it again. What number
/// that is is left to the name `json_float`.
#[verifier::external_body]
fn float_value(value: &serde_json::Value) -> (out: Option<serde_json::Value>)
    ensures
        match out {
            Some(float) => json_float(json_of(*value)) == Some(json_of(float)),
            None => json_float(json_of(*value)) is None,
        },
        (out is Some) == (json_of(*value) is Integer || json_of(*value) is Fractional),
{
    value.as_f64().map(serde_json::Value::from)
}

/// `serde_json::Number::from` makes a number of a `u64`.
#[verifier::external_body]
fn number_from_u64(n: u64) -> (number: serde_json::Number)
    ensures
        number_integer(number) == Some(n as int),
{
    serde_json::Number::from(n)
}

/// `serde_json::Number::as_u64` gives the integer that a number holds, where it
/// holds one from zero to `u64::MAX`.
pub assume_specification[ serde_json::Number::as_u64 ](number: &serde_json::Number) -> (out:
    Option<u64>)
    ensures
        match out {
            Some(n) => number_integer(*number) == Some(n as int),
            None => match number_integer(*number) {
                Some(n) => n < 0 || n > u64::MAX,
                None => true,
            },
        },
;

/// The items of a list, each by what it says.
pub open spec fn items_view(items: Seq<Json>) -> Seq<JsonView> {
    items.map_values(|j: Json| j@)
}

/// The members of an object, each by what it says.
pub open spec fn entries_view(entries: Seq<(String, Json)>) -> Seq<(Seq<char>, JsonView)> {
    entries.map_values(|e: (String, Json)| (e.0@, e.1@))
}

/// A list says what its items say.
pub broadcast proof fn lemma_list_view(items: Vec<Json>)
    ensures
        #[trigger] Json::List(items)@ == JsonView::List(items_view(items@)),
{
    assert(Json::items_model(items@) =~= items_view(items@));
}

/// An object says what its members say.
pub broadcast proof fn lemma_object_view(entries: Vec<(String, Json)>)
    ensures
        #[trigger] Json::Object(entries)@ == object(entries_view(entries@)),
{
    assert(Json::entries_model(entries@) =~= entries_view(entries@));
}

/// The last member with a name is the one that counts.
pub proof fn lemma_members_last(entries: Seq<(Seq<char>, JsonView)>, i: int)
    requires
        0 <= i < entries.len(),
        forall|j: int| i < j < entries.len() ==> (#[trigger] entries[j]).0 != entries[i].0,
    ensures
        members(entries).contains_key(entries[i].0),
        members(entries)[entries[i].0] == entries[i].1,
    decreases entries.len(),
{
    if i < entries.len() - 1 {
        assert(entries[entries.len() - 1].0 != entries[i].0);
        assert forall|j: int| i < j < entries.drop_last().len() implies (
        #[trigger] entries.drop_last()[j]).0 != entries.drop_last()[i].0 by {
            assert(entries[j].0 != entries[i].0);
        }
        lemma_members_last(entries.drop_last(), i);
    }
}

/// A name that no member has is not in the object.
pub proof fn lemma_members_none(entries: Seq<(Seq<char>, JsonView)>, key: Seq<char>)
    requires
        forall|j: int| 0 <= j < entries.len() ==> (#[trigger] entries[j]).0 != key,
    ensures
        !members(entries).contains_key(key),
    decreases entries.len(),
{
    if entries.len() > 0 {
        assert(entries[entries.len() - 1].0 != key);
        assert forall|j: int| 0 <= j < entries.drop_last().len() implies (
        #[trigger] entries.drop_last()[j]).0 != key by {
            assert(entries[j].0 != key);
        }
        lemma_members_none(entries.drop_last(), key);
    }
}

/// An object of plain members is plain.
pub proof fn lemma_plain_object(entries: Seq<(Seq<char>, JsonView)>, depth: nat)
    requires
        forall|i: int| 0 <= i < entries.len() ==> plain((#[trigger] entries[i]).1, depth),
    ensures
        plain(object(entries), depth + 1),
    decreases entries.len(),
{
    if entries.len() > 0 {
        assert(plain(entries[entries.len() - 1].1, depth));
        assert forall|i: int| 0 <= i < entries.drop_last().len() implies plain(
            (#[trigger] entries.drop_last()[i]).1,
            depth,
        ) by {
            assert(plain(entries[i].1, depth));
        }
        lemma_plain_object(entries.drop_last(), depth);
    }
    let map = members(entries);
    assert forall|key: Seq<char>| #[trigger] map.contains_key(key) implies plain(
        map[key],
        depth,
    ) by {
        if entries.len() > 0 && key != entries.last().0 {
            assert(members(entries.drop_last()).contains_key(key));
            assert(object(entries.drop_last())->Object_0.contains_key(key));
        }
    }
}

fn from_value(value: serde_json::Value) -> (json: Json)
    ensures
        json@ == json_of(value),
    decreases json_of(value),
{
    broadcast use {lemma_list_view, lemma_object_view};

    match open_value(value) {
        Node::Null => Json::Null,
        Node::Bool(b) => Json::Bool(b),
        Node::Number(n) => Json::Number(n),
        Node::Text(s) => Json::Text(s),
        Node::List(items) => {
            let mut out: Vec<Json> = Vec::new();
            let ghost all = items@;
            for item in it: items.into_iter()
                invariant
                    it.seq() == all,
                    json_of(value) == JsonView::List(Seq::new(all.len(), |i: int| json_of(all[i]))),
                    items_view(out@) == Seq::new(it.index() as nat, |i: int| json_of(all[i])),
            {
                assert(json_of(value)->List_0[it.index() as int] == json_of(item));
                let json = from_value(item);
                assert(items_view(out@.push(json)) =~= items_view(out@).push(json@));
                out.push(json);
                assert(items_view(out@) =~= Seq::new((it.index() + 1) as nat, |i: int| json_of(all[i])));
            }
            Json::List(out)
        },
        Node::Object(entries) => {
            let mut out: Vec<(String, Json)> = Vec::new();
            let ghost all = entries@;
            for entry in it: entries.into_iter()
                invariant
                    it.seq() == all,
                    json_of(value) == object(Node::entries(all)),
                    distinct(Node::entries(all)),
                    entries_view(out@) == Node::entries(all).take(it.index() as int),
            {
                proof {
                    let k = it.index() as int;
                    let e = Node::entries(all);
                    lemma_members_last(e, k);
                    assert(json_of(value)->Object_0[e[k].0] == json_of(entry.1));
                }
                let (key, item) = entry;
                let json = from_value(item);
                assert(entries_view(out@.push((key, json))) =~= entries_view(out@).push((key@, json@)));
                out.push((key, json));
                assert(entries_view(out@) =~= Node::entries(all).take(it.index() + 1));
            }
            assert(Node::entries(all).take(all.len() as int) =~= Node::entries(all));
            Json::Object(out)
        },
    }
}

proof fn lemma_members_replaced(entries: Seq<(Seq<char>, JsonView)>, i: int, value: JsonView)
    requires
        0 <= i < entries.len(),
    ensures
        members(entries.remove(i)).insert(entries[i].0, value) == members(entries).insert(
            entries[i].0,
            value,
        ),
    decreases entries.len(),
{
    let key = entries[i].0;
    let front = entries.drop_last();
    if i == entries.len() - 1 {
        assert(entries.remove(i) =~= front);
        assert(members(front).insert(key, value) =~= members(entries).insert(key, value));
    } else {
        lemma_members_replaced(front, i, value);
        assert(entries.remove(i).drop_last() =~= front.remove(i));
        let a = members(front.remove(i));
        let b = members(front);
        assert(a.insert(key, value) == b.insert(key, value));
        let (name, last) = entries.last();
        if name == key {
            assert(a.insert(name, last).insert(key, value) =~= a.insert(key, value));
            assert(b.insert(name, last).insert(key, value) =~= b.insert(key, value));
        } else {
            assert(a.insert(name, last).insert(key, value) =~= a.insert(key, value).insert(
                name,
                last,
            ));
            assert(b.insert(name, last).insert(key, value) =~= b.insert(key, value).insert(
                name,
                last,
            ));
        }
    }
}

/// Adds a member to those of an object, in place of one with the same name.
fn put(entries: &mut Vec<(String, serde_json::Value)>, key: String, value: serde_json::Value)
    requires
        distinct(Node::entries(old(entries)@)),
    ensures
        distinct(Node::entries(final(entries)@)),
        members(Node::entries(final(entries)@)) == members(Node::entries(old(entries)@)).insert(
            key@,
            json_of(value),
        ),
{
    let ghost before = Node::entries(entries@);
    let n: usize = entries.len();
    let mut i: usize = 0;
    while i < n && !text_eq(entries[i].0.as_str(), key.as_str())
        invariant
            n == entries@.len(),
            i <= n,
            before == Node::entries(entries@),
            forall|j: int| 0 <= j < i ==> (#[trigger] before[j]).0 != key@,
        decreases n - i,
    {
        assert(before[i as int].0 == entries@[i as int].0@);
        i = i + 1;
    }
    if i < n {
        assert(before[i as int].0 == key@);
        entries.remove(i);
        proof {
            lemma_members_replaced(before, i as int, json_of(value));
            assert(Node::entries(entries@) =~= before.remove(i as int));
        }
    }
    let ghost kept = Node::entries(entries@);
    assert(distinct(kept));
    assert(forall|j: int| 0 <= j < kept.len() ==> (#[trigger] kept[j]).0 != key@);
    entries.push((key, value));
    assert(Node::entries(entries@) =~= kept.push((key@, json_of(value))));
    assert(kept.push((key@, json_of(value))).drop_last() =~= kept);
}

fn into_value(json: Json) -> (value: serde_json::Value)
    ensures
        json_of(value) == json@,
    decreases json,
{
    broadcast use {lemma_list_view, lemma_object_view};

    match json {
        Json::Null => build_value(Node::Null),
        Json::Bool(b) => build_value(Node::Bool(b)),
        Json::Number(n) => build_value(Node::Number(n)),
        Json::Text(s) => build_value(Node::Text(s)),
        Json::List(items) => {
            let mut out: Vec<serde_json::Value> = Vec::new();
            let ghost all = items@;
            for item in it: items.into_iter()
                invariant
                    it.seq() == all,
                    json == Json::List(items),
                    all == items@,
                    out@.len() == it.index(),
                    forall|i: int| 0 <= i < out@.len() ==> json_of(#[trigger] out@[i]) == all[i]@,
            {
                assert(decreases_to!(json => json->List_0));
                assert(decreases_to!(items => items[it.index() as int]));
                out.push(into_value(item));
            }
            assert(Seq::new(out@.len(), |i: int| json_of(out@[i])) =~= items_view(all));
            build_value(Node::List(out))
        },
        Json::Object(entries) => {
            let mut out: Vec<(String, serde_json::Value)> = Vec::new();
            let ghost all = entries@;
            assert(Node::entries(out@) =~= entries_view(all).take(0));
            for entry in it: entries.into_iter()
                invariant
                    it.seq() == all,
                    json == Json::Object(entries),
                    all == entries@,
                    distinct(Node::entries(out@)),
                    members(Node::entries(out@)) == members(
                        entries_view(all).take(it.index() as int),
                    ),
            {
                let ghost k = it.index() as int;
                assert(decreases_to!(json => json->Object_0));
                assert(decreases_to!(entries => entries[it.index() as int]));
                let (key, item) = entry;
                let value = into_value(item);
                put(&mut out, key, value);
                assert(entries_view(all).take(k + 1).drop_last() =~= entries_view(all).take(k));
            }
            assert(entries_view(all).take(all.len() as int) =~= entries_view(all));
            build_value(Node::Object(out))
        },
    }
}

impl Json {
    /// Reads a document from a text.
    pub fn parse(text: &str) -> (out: Result<Json, Error>)
        ensures
            match out {
                Ok(json) => json_parsed(text@) == Ok::<JsonView, Seq<char>>(json@),
                Err(error) => error matches Error::Other(message) && json_parsed(text@) == Err::<
                    JsonView,
                    Seq<char>,
                >(message@),
            },
    {
        match parse_value(text) {
            Ok(value) => Ok(from_value(value)),
            Err(message) => Err(Error::Other(message)),
        }
    }

    /// Writes a document on one line. The text reads back as the document where
    /// no fractional number and no deep nesting stands in the way.
    pub fn into_text(self) -> (text: String)
        ensures
            text@ == json_text(self@),
            !text@.contains('\n'),
            plain(self@, 127) ==> {
                &&& json_parsed(text@) == Ok::<JsonView, Seq<char>>(self@)
                &&& json_parsed(text@.push('\n')) == Ok::<JsonView, Seq<char>>(self@)
            },
    {
        print_value(&into_value(self))
    }

    /// The number that a document is as a binary floating point number: that of
    /// zero where it is no number.
    pub fn into_float(self) -> (out: Json)
        ensures
            out@ == float_or_zero(self@),
    {
        match float_value(&into_value(self)) {
            Some(float) => from_value(float),
            None => match float_value(&into_value(Json::from_number(0))) {
                Some(zero) => from_value(zero),
                None => Json::Null,
            },
        }
    }

    /// The document that is a text.
    pub fn from_text(text: &str) -> (out: Json)
        ensures
            out@ == JsonView::Text(text@),
    {
        Json::Text(text.to_owned())
    }

    /// The document that is a number.
    pub fn from_number(n: u64) -> (out: Json)
        ensures
            out@ == JsonView::Integer(n as int),
    {
        Json::Number(number_from_u64(n))
    }

    /// The member of an object with the given name.
    pub fn get(&self, key: &str) -> (out: Option<&Json>)
        ensures
            match out {
                Some(json) => self@.get(key@) == Some(json@),
                None => self@.get(key@) is None,
            },
    {
        broadcast use lemma_object_view;

        match self {
            Json::Object(entries) => {
                match find(entries, key) {
                    Some(i) => {
                        assert(entries_view(entries@)[i as int] == (entries@[i as int].0@, entries@[i as int].1@));
                        Some(&entries[i].1)
                    },
                    None => None,
                }
            },
            _ => None,
        }
    }

    /// Takes the member with the given name out of an object.
    pub fn take(self, key: &str) -> (out: Option<Json>)
        ensures
            match out {
                Some(json) => self@.get(key@) == Some(json@),
                None => self@.get(key@) is None,
            },
    {
        broadcast use lemma_object_view;

        match self {
            Json::Object(entries) => {
                match find(&entries, key) {
                    Some(i) => {
                        assert(entries_view(entries@)[i as int] == (entries@[i as int].0@, entries@[i as int].1@));
                        let mut entries = entries;
                        let (_, json) = entries.swap_remove(i);
                        Some(json)
                    },
                    None => None,
                }
            },
            _ => None,
        }
    }

    /// The text, where the document is one.
    pub fn as_str(&self) -> (out: Option<&str>)
        ensures
            match out {
                Some(s) => self@.as_str() == Some(s@),
                None => self@.as_str() is None,
            },
    {
        match self {
            Json::Text(s) => Some(s.as_str()),
            _ => None,
        }
    }

    /// The number, where the document is one that fits.
    pub fn as_u64(&self) -> (out: Option<u64>)
        ensures
            out == self@.as_u64(),
    {
        match self {
            Json::Number(n) => n.as_u64(),
            _ => None,
        }
    }

    /// The items, where the document is a list.
    pub fn as_array(&self) -> (out: Option<&Vec<Json>>)
        ensures
            match out {
                Some(items) => self@.as_array() == Some(items_view(items@)),
                None => self@.as_array() is None,
            },
    {
        broadcast use lemma_list_view;

        match self {
            Json::List(items) => Some(items),
            _ => None,
        }
    }

    /// Tells whether the document is `false`.
    pub fn is_false(&self) -> (out: bool)
        ensures
            out == (self@ == JsonView::Bool(false)),
    {
        match self {
            Json::Bool(b) => !*b,
            _ => false,
        }
    }

    /// The text of a member.
    pub fn get_str(&self, key: &str) -> (out: Option<&str>)
        ensures
            match out {
                Some(s) => self@.get_str(key@) == Some(s@),
                None => self@.get_str(key@) is None,
            },
    {
        match self.get(key) {
            Some(json) => json.as_str(),
            None => None,
        }
    }
}

fn find(entries: &Vec<(String, Json)>, key: &str) -> (out: Option<usize>)
    ensures
        match out {
            Some(i) => {
                &&& i < entries@.len()
                &&& members(entries_view(entries@)).contains_key(key@)
                &&& members(entries_view(entries@))[key@] == entries@[i as int].1@
            },
            None => !members(entries_view(entries@)).contains_key(key@),
        },
{
    let ghost all = entries_view(entries@);
    let mut i: usize = entries.len();
    while i > 0
        invariant
            i <= entries@.len(),
            all == entries_view(entries@),
            forall|j: int| i <= j < all.len() ==> (#[trigger] all[j]).0 != key@,
        decreases i,
    {
        i = i - 1;
        assert(all[i as int] == (entries@[i as int].0@, entries@[i as int].1@));
        if text_eq(entries[i].0.as_str(), key) {
            proof {
                lemma_members_last(all, i as int);
            }
            return Some(i);
        }
    }
    proof {
        lemma_members_none(all, key@);
    }
    None
}

/// `serde_json::Number` is cloned as it stands.
pub assume_specification[ <serde_json::Number as Clone>::clone ](
    number: &serde_json::Number,
) -> (out: serde_json::Number)
    ensures
        out == *number,
;

impl Clone for Json {
    fn clone(&self) -> (out: Json)
        ensures
            out@ == self@,
        decreases self,
    {
        broadcast use {lemma_list_view, lemma_object_view};

        match self {
            Json::Null => Json::Null,
            Json::Bool(b) => Json::Bool(*b),
            Json::Number(n) => Json::Number(n.clone()),
            Json::Text(s) => Json::Text(s.clone()),
            Json::List(items) => {
                let mut out: Vec<Json> = Vec::new();
                let n: usize = items.len();
                let mut i: usize = 0;
                while i < n
                    invariant
                        n == items@.len(),
                        i <= n,
                        *self == Json::List(*items),
                        items_view(out@) == items_view(items@).take(i as int),
                    decreases n - i,
                {
                    assert(decreases_to!(*self => (*self)->List_0));
                    assert(decreases_to!(items => items[i as int]));
                    let item = items[i].clone();
                    assert(items_view(out@.push(item)) =~= items_view(out@).push(item@));
                    out.push(item);
                    i = i + 1;
                    assert(items_view(out@) =~= items_view(items@).take(i as int));
                }
                assert(items_view(items@).take(n as int) =~= items_view(items@));
                Json::List(out)
            },
            Json::Object(entries) => {
                let mut out: Vec<(String, Json)> = Vec::new();
                let n: usize = entries.len();
                let mut i: usize = 0;
                while i < n
                    invariant
                        n == entries@.len(),
                        i <= n,
                        *self == Json::Object(*entries),
                        entries_view(out@) == entries_view(entries@).take(i as int),
                    decreases n - i,
                {
                    assert(decreases_to!(*self => (*self)->Object_0));
                    assert(decreases_to!(entries => entries[i as int]));
                    let key = entries[i].0.clone();
                    let item = entries[i].1.clone();
                    assert(entries_view(out@.push((key, item))) =~= entries_view(out@).push(
                        (key@, item@),
                    ));
                    out.push((key, item));
                    i = i + 1;
                    assert(entries_view(out@) =~= entries_view(entries@).take(i as int));
                }
                assert(entries_view(entries@).take(n as int) =~= entries_view(entries@));
                Json::Object(out)
            },
        }
    }
}

/// The members of an object in the making.
pub(crate) struct Members {
    entries: Vec<(String, Json)>,
}

impl View for Members {
    type V = Seq<(Seq<char>, JsonView)>;

    closed spec fn view(&self) -> Seq<(Seq<char>, JsonView)> {
        entries_view(self.entries@)
    }
}

impl Members {
    pub(crate) fn new() -> (out: Members)
        ensures
            out@ == Seq::<(Seq<char>, JsonView)>::empty(),
    {
        let out = Members { entries: Vec::new() };
        assert(out@ =~= Seq::<(Seq<char>, JsonView)>::empty());
        out
    }

    /// Adds a member.
    pub(crate) fn with(self, key: &str, json: Json) -> (out: Members)
        ensures
            out@ == self@.push((key@, json@)),
    {
        let mut entries = self.entries;
        entries.push((key.to_owned(), json));
        let out = Members { entries };
        assert(out@ =~= self@.push((key@, json@)));
        out
    }

    /// The object with these members.
    pub(crate) fn object(self) -> (out: Json)
        ensures
            out@ == object(self@),
    {
        broadcast use lemma_object_view;

        Json::Object(self.entries)
    }
}

} // verus!
