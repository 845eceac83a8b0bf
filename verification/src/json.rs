//! JSON documents as plain values, and the parser that produces them.

use crate::text::{same_text, texts};
use vstd::prelude::*;

verus! {

/// A JSON document. Numbers carry nothing: no decision of this library reads one.
#[derive(Debug)]
pub enum Json {
    Null,
    Bool(bool),
    Number,
    Text(String),
    Array(Vec<Json>),
    Object(Vec<(String, Json)>),
}

/// A JSON document, mathematically. The members of an object stand in a fixed order.
pub enum JsonView {
    Null,
    Bool(bool),
    Number,
    Text(Seq<char>),
    Array(Seq<JsonView>),
    Object(Seq<(Seq<char>, JsonView)>),
}

impl Json {
    /// The document that this value holds.
    pub open spec fn document(self) -> JsonView
        decreases self,
    {
        match self {
            Json::Null => JsonView::Null,
            Json::Bool(b) => JsonView::Bool(b),
            Json::Number => JsonView::Number,
            Json::Text(s) => JsonView::Text(s@),
            Json::Array(items) => JsonView::Array(
                Seq::new(
                    items@.len(),
                    |i: int|
                        if 0 <= i < items@.len() {
                            items@[i].document()
                        } else {
                            JsonView::Null
                        },
                ),
            ),
            Json::Object(members) => JsonView::Object(
                Seq::new(
                    members@.len(),
                    |i: int|
                        if 0 <= i < members@.len() {
                            (members@[i].0@, members@[i].1.document())
                        } else {
                            (Seq::empty(), JsonView::Null)
                        },
                ),
            ),
        }
    }
}

impl View for Json {
    type V = JsonView;

    open spec fn view(&self) -> JsonView {
        self.document()
    }
}

impl JsonView {
    /// The member of an object with the given name: the first one, where several have it.
    pub open spec fn get(self, name: Seq<char>) -> Option<JsonView> {
        match self {
            JsonView::Object(members) => member(members, name),
            _ => None,
        }
    }

    /// The member with the given name, and `Null` where there is none.
    pub open spec fn at(self, name: Seq<char>) -> JsonView {
        match self.get(name) {
            Some(value) => value,
            None => JsonView::Null,
        }
    }

    /// The characters of a string.
    pub open spec fn as_text(self) -> Option<Seq<char>> {
        match self {
            JsonView::Text(s) => Some(s),
            _ => None,
        }
    }

    /// The truth value of a boolean.
    pub open spec fn as_bool(self) -> Option<bool> {
        match self {
            JsonView::Bool(b) => Some(b),
            _ => None,
        }
    }

    /// The items of an array.
    pub open spec fn as_array(self) -> Option<Seq<JsonView>> {
        match self {
            JsonView::Array(items) => Some(items),
            _ => None,
        }
    }
}

/// The value of the first member with the given name.
pub open spec fn member(members: Seq<(Seq<char>, JsonView)>, name: Seq<char>) -> Option<JsonView>
    decreases members.len(),
{
    if members.len() == 0 {
        None
    } else if members[0].0 == name {
        Some(members[0].1)
    } else {
        member(members.drop_first(), name)
    }
}

impl Json {
    /// The member of an object with the given name: the first one, where several have it.
    pub fn get(&self, name: &str) -> (found: Option<&Json>)
        ensures
            match found {
                Some(value) => self@.get(name@) == Some(value@),
                None => self@.get(name@) is None,
            },
    {
        match self {
            Json::Object(members) => {
                let ghost all = self@->Object_0;
                let mut i: usize = 0;
                assert(all.skip(0) =~= all);
                while i < members.len()
                    invariant
                        *self == Json::Object(*members),
                        all == self@->Object_0,
                        all.len() == members@.len(),
                        i <= members@.len(),
                        member(all, name@) == member(all.skip(i as int), name@),
                    decreases members@.len() - i,
                {
                    assert(all[i as int] == (members@[i as int].0@, members@[i as int].1@));
                    assert(all.skip(i as int)[0] == all[i as int]);
                    assert(all.skip(i as int).drop_first() =~= all.skip(i + 1));
                    if same_text(members[i].0.as_str(), name) {
                        return Some(&members[i].1);
                    }
                    i += 1;
                }
                None
            },
            _ => None,
        }
    }

    /// The characters of a string.
    pub fn as_text(&self) -> (text: Option<&str>)
        ensures
            match text {
                Some(s) => self@.as_text() == Some(s@),
                None => self@.as_text() is None,
            },
    {
        match self {
            Json::Text(s) => Some(s.as_str()),
            _ => None,
        }
    }

    /// The truth value of a boolean.
    pub fn as_bool(&self) -> (value: Option<bool>)
        ensures
            value == self@.as_bool(),
    {
        match self {
            Json::Bool(b) => Some(*b),
            _ => None,
        }
    }

    /// The items of an array.
    pub fn as_array(&self) -> (items: Option<&Vec<Json>>)
        ensures
            match items {
                Some(list) => self@.as_array() == Some(Seq::new(list@.len(), |i: int| list@[i]@)),
                None => self@.as_array() is None,
            },
    {
        match self {
            Json::Array(list) => {
                assert(self@->Array_0 =~= Seq::new(list@.len(), |i: int| list@[i]@));
                Some(list)
            },
            _ => None,
        }
    }
}

// ---------------------------------------------------------------------------
// Parsing
// ---------------------------------------------------------------------------

/// A parsed document of `serde_json`.
#[verifier::external_type_specification]
#[verifier::external_body]
pub struct ExValue(serde_json::Value);

/// The document that `serde_json::from_str` reads from a text: `None` where the text is not JSON.
pub uninterp spec fn json_text(text: Seq<char>) -> Option<JsonView>;

/// The document that a `serde_json::Value` holds.
pub uninterp spec fn json_value(value: serde_json::Value) -> JsonView;

/// A document with its outermost layer opened.
enum Layer {
    Null,
    Bool(bool),
    Number,
    Text(String),
    Array(Vec<serde_json::Value>),
    Object(Vec<(String, serde_json::Value)>),
}

impl Layer {
    /// The document that the layer belongs to.
    spec fn document(self) -> JsonView {
        match self {
            Layer::Null => JsonView::Null,
            Layer::Bool(b) => JsonView::Bool(b),
            Layer::Number => JsonView::Number,
            Layer::Text(s) => JsonView::Text(s@),
            Layer::Array(items) => JsonView::Array(
                Seq::new(items@.len(), |i: int| json_value(items@[i])),
            ),
            Layer::Object(members) => JsonView::Object(
                Seq::new(members@.len(), |i: int| (members@[i].0@, json_value(members@[i].1))),
            ),
        }
    }
}

/// `serde_json::from_str` at `serde_json::Value`: the document that the text holds, or an error
/// where the text is not JSON.
#[verifier::external_body]
fn parse_value(text: &str) -> (value: Option<serde_json::Value>)
    ensures
        match value {
            Some(v) => json_text(text@) == Some(json_value(v)),
            None => json_text(text@) is None,
        },
{
    serde_json::from_str(text).ok()
}

/// Tells the variants of `serde_json::Value` apart and hands out what each of them holds.
#[verifier::external_body]
fn open_value(value: serde_json::Value) -> (layer: Layer)
    ensures
        layer.document() == json_value(value),
{
    match value {
        serde_json::Value::Null => Layer::Null,
        serde_json::Value::Bool(b) => Layer::Bool(b),
        serde_json::Value::Number(_) => Layer::Number,
        serde_json::Value::String(s) => Layer::Text(s),
        serde_json::Value::Array(items) => Layer::Array(items),
        serde_json::Value::Object(members) => Layer::Object(members.into_iter().collect()),
    }
}

fn from_value(value: serde_json::Value) -> (json: Json)
    ensures
        json@ == json_value(value),
    decreases json_value(value),
{
    let ghost whole = json_value(value);
    match open_value(value) {
        Layer::Null => Json::Null,
        Layer::Bool(b) => Json::Bool(b),
        Layer::Number => Json::Number,
        Layer::Text(s) => Json::Text(s),
        Layer::Array(items) => {
            let ghost given = items@;
            let mut done: Vec<Json> = Vec::new();
            for item in it: items
                invariant
                    it.seq() == given,
                    whole == json_value(value),
                    whole == JsonView::Array(Seq::new(given.len(), |i: int| json_value(given[i]))),
                    done@.len() == it.index(),
                    forall|i: int| 0 <= i < done@.len() ==> done@[i]@ == json_value(given[i]),
            {
                assert(whole->Array_0[it.index()] == json_value(item));
                assert(decreases_to!(whole => whole->Array_0[it.index()]));
                done.push(from_value(item));
            }
            assert(Json::Array(done)@->Array_0 =~= whole->Array_0);
            Json::Array(done)
        },
        Layer::Object(members) => {
            let ghost given = members@;
            let mut done: Vec<(String, Json)> = Vec::new();
            for item in it: members
                invariant
                    it.seq() == given,
                    whole == json_value(value),
                    whole == JsonView::Object(
                        Seq::new(given.len(), |i: int| (given[i].0@, json_value(given[i].1))),
                    ),
                    done@.len() == it.index(),
                    forall|i: int|
                        0 <= i < done@.len() ==> (#[trigger] done@[i]).0 == given[i].0
                            && done@[i].1@ == json_value(given[i].1),
            {
                let (name, inner) = item;
                assert(whole->Object_0[it.index()] == (name@, json_value(inner)));
                assert(decreases_to!(whole => whole->Object_0[it.index()].1));
                done.push((name, from_value(inner)));
            }
            assert(Json::Object(done)@->Object_0 =~= whole->Object_0);
            Json::Object(done)
        },
    }
}

/// Parses a text as JSON.
pub fn parse_json(text: &str) -> (json: Option<Json>)
    ensures
        match json {
            Some(document) => json_text(text@) == Some(document@),
            None => json_text(text@) is None,
        },
{
    match parse_value(text) {
        Some(value) => Some(from_value(value)),
        None => None,
    }
}

// ---------------------------------------------------------------------------
// Lists of strings
// ---------------------------------------------------------------------------

/// The characters of every pair of a list.
pub open spec fn text_pairs(list: Seq<[String; 2]>) -> Seq<(Seq<char>, Seq<char>)> {
    Seq::new(list.len(), |i: int| (list[i]@[0]@, list[i]@[1]@))
}

/// The strings of an array that holds nothing but strings.
pub open spec fn string_list(document: Option<JsonView>) -> Option<Seq<Seq<char>>> {
    match document {
        Some(JsonView::Array(items)) => if forall|i: int|
            0 <= i < items.len() ==> (#[trigger] items[i]) is Text {
            Some(Seq::new(items.len(), |i: int| items[i]->Text_0))
        } else {
            None
        },
        _ => None,
    }
}

/// Whether a document is an array of exactly two strings.
pub open spec fn is_string_pair(item: JsonView) -> bool {
    &&& item is Array
    &&& item->Array_0.len() == 2
    &&& item->Array_0[0] is Text
    &&& item->Array_0[1] is Text
}

/// The pairs of an array that holds nothing but arrays of two strings.
pub open spec fn string_pairs(document: Option<JsonView>) -> Option<Seq<(Seq<char>, Seq<char>)>> {
    match document {
        Some(JsonView::Array(items)) => if forall|i: int|
            0 <= i < items.len() ==> is_string_pair(#[trigger] items[i]) {
            Some(
                Seq::new(
                    items.len(),
                    |i: int| (items[i]->Array_0[0]->Text_0, items[i]->Array_0[1]->Text_0),
                ),
            )
        } else {
            None
        },
        _ => None,
    }
}

/// `serde_json::from_str` at `Vec<String>`: the strings of the document that the text holds, where
/// that document is an array of strings, and an error otherwise.
#[verifier::external_body]
pub(crate) fn parse_strings(text: &str) -> (list: Option<Vec<String>>)
    ensures
        match list {
            Some(strings) => string_list(json_text(text@)) == Some(texts(strings@)),
            None => string_list(json_text(text@)) is None,
        },
{
    serde_json::from_str(text).ok()
}

/// `serde_json::from_str` at `Vec<[String; 2]>`: the pairs of the document that the text holds,
/// where that document is an array of arrays of two strings, and an error otherwise.
#[verifier::external_body]
pub(crate) fn parse_string_pairs(text: &str) -> (list: Option<Vec<[String; 2]>>)
    ensures
        match list {
            Some(pairs) => string_pairs(json_text(text@)) == Some(text_pairs(pairs@)),
            None => string_pairs(json_text(text@)) is None,
        },
{
    serde_json::from_str(text).ok()
}

// ---------------------------------------------------------------------------
// Laws
// ---------------------------------------------------------------------------

/// The first member with a name is the one that is found under it.
pub proof fn first_member_is_found(
    members: Seq<(Seq<char>, JsonView)>,
    name: Seq<char>,
    place: int,
)
    requires
        0 <= place < members.len(),
        members[place].0 == name,
        forall|i: int| 0 <= i < place ==> (#[trigger] members[i]).0 != name,
    ensures
        JsonView::Object(members).get(name) == Some(members[place].1),
        JsonView::Object(members).at(name) == members[place].1,
    decreases place,
{
    if place > 0 {
        let rest = members.drop_first();
        assert(members[0].0 != name);
        assert forall|i: int| 0 <= i < place - 1 implies (#[trigger] rest[i]).0 != name by {
            assert(rest[i] == members[i + 1]);
        }
        first_member_is_found(rest, name, place - 1);
    }
}

/// Nothing is found under a name that no member has.
pub proof fn missing_member_is_not_found(members: Seq<(Seq<char>, JsonView)>, name: Seq<char>)
    requires
        forall|i: int| 0 <= i < members.len() ==> (#[trigger] members[i]).0 != name,
    ensures
        JsonView::Object(members).get(name) is None,
        JsonView::Object(members).at(name) == JsonView::Null,
    decreases members.len(),
{
    if members.len() > 0 {
        let rest = members.drop_first();
        assert(members[0].0 != name);
        assert forall|i: int| 0 <= i < rest.len() implies (#[trigger] rest[i]).0 != name by {
            assert(rest[i] == members[i + 1]);
        }
        missing_member_is_not_found(rest, name);
    }
}

/// Only objects have members, and every document is read by its kind alone.
pub proof fn documents_are_read_by_kind(document: JsonView, name: Seq<char>)
    ensures
        !(document is Object) ==> document.get(name) is None && document.at(name)
            == JsonView::Null,
        document.as_text() == (if document is Text {
            Some(document->Text_0)
        } else {
            None
        }),
        document.as_bool() == (if document is Bool {
            Some(document->Bool_0)
        } else {
            None
        }),
        document.as_array() == (if document is Array {
            Some(document->Array_0)
        } else {
            None
        }),
{
}

/// A parsed document keeps every item and every member, in its place.
pub proof fn documents_keep_everything(
    text: String,
    flag: bool,
    items: Vec<Json>,
    members: Vec<(String, Json)>,
)
    ensures
        Json::Null@ == JsonView::Null,
        Json::Number@ == JsonView::Number,
        Json::Bool(flag)@ == JsonView::Bool(flag),
        Json::Text(text)@ == JsonView::Text(text@),
        Json::Array(items)@ is Array,
        Json::Array(items)@->Array_0.len() == items@.len(),
        forall|i: int|
            0 <= i < items@.len() ==> #[trigger] Json::Array(items)@->Array_0[i] == items@[i]@,
        Json::Object(members)@ is Object,
        Json::Object(members)@->Object_0.len() == members@.len(),
        forall|i: int|
            0 <= i < members@.len() ==> #[trigger] Json::Object(members)@->Object_0[i] == (
                members@[i].0@,
                members@[i].1@,
            ),
{
}

/// An array of strings gives these strings, in order.
pub proof fn string_arrays_give_their_strings(strings: Seq<Seq<char>>)
    ensures
        string_list(
            Some(
                JsonView::Array(Seq::new(strings.len(), |i: int| JsonView::Text(strings[i]))),
            ),
        ) == Some(strings),
{
    let items = Seq::new(strings.len(), |i: int| JsonView::Text(strings[i]));
    assert(Seq::new(items.len(), |i: int| items[i]->Text_0) =~= strings);
}

/// What is no array, or holds something that is no string, gives no list of strings.
pub proof fn other_documents_give_no_strings(document: Option<JsonView>, place: int)
    requires
        document is Some && document->0 is Array ==> 0 <= place < document->0->Array_0.len() && !(
        document->0->Array_0[place] is Text),
    ensures
        string_list(document) is None,
{
}

/// An array of arrays of two strings gives these as pairs, in order.
pub proof fn pair_arrays_give_their_pairs(list: Seq<(Seq<char>, Seq<char>)>)
    ensures
        string_pairs(
            Some(
                JsonView::Array(
                    Seq::new(
                        list.len(),
                        |i: int|
                            JsonView::Array(
                                seq![JsonView::Text(list[i].0), JsonView::Text(list[i].1)],
                            ),
                    ),
                ),
            ),
        ) == Some(list),
{
    let items = Seq::new(
        list.len(),
        |i: int| JsonView::Array(seq![JsonView::Text(list[i].0), JsonView::Text(list[i].1)]),
    );
    assert(Seq::new(
        items.len(),
        |i: int| (items[i]->Array_0[0]->Text_0, items[i]->Array_0[1]->Text_0),
    ) =~= list);
}

/// What is no array, or holds something that is no array of two strings, gives no list of pairs.
pub proof fn other_documents_give_no_pairs(document: Option<JsonView>, place: int)
    requires
        document is Some && document->0 is Array ==> {
            let items = document->0->Array_0;
            &&& 0 <= place < items.len()
            &&& forall|a: Seq<char>, b: Seq<char>|
                items[place] != JsonView::Array(#[trigger] seq![JsonView::Text(a), JsonView::Text(b)])
        },
    ensures
        string_pairs(document) is None,
{
    if document is Some && document->0 is Array {
        let item = document->0->Array_0[place];
        if is_string_pair(item) {
            let (a, b) = (item->Array_0[0]->Text_0, item->Array_0[1]->Text_0);
            assert(item->Array_0 =~= seq![JsonView::Text(a), JsonView::Text(b)]);
        }
    }
}

/// A list of pairs keeps every pair, in its place.
pub proof fn pair_lists_keep_their_items(list: Seq<[String; 2]>)
    ensures
        text_pairs(list).len() == list.len(),
        forall|i: int|
            0 <= i < list.len() ==> (#[trigger] text_pairs(list)[i]).0 == list[i]@[0]@
                && text_pairs(list)[i].1 == list[i]@[1]@,
{
}

} // verus!
