//! JSON documents as plain values.

use vstd::prelude::*;

verus! {

/// A JSON document. A number is held as the bits of the double that it reads as, if it reads as
/// one. An object is held as its members in order.
#[derive(Debug, PartialEq, Eq)]
pub enum Json {
    Null,
    Bool(bool),
    Number(Option<u64>),
    Text(String),
    List(Vec<Json>),
    Object(Vec<(String, Json)>),
}

/// A JSON document in specifications.
pub enum JsonView {
    Null,
    Bool(bool),
    Number(Option<u64>),
    Text(Seq<char>),
    List(Seq<JsonView>),
    Object(Seq<(Seq<char>, JsonView)>),
}

impl View for Json {
    type V = JsonView;

    open spec fn view(&self) -> JsonView
        decreases self,
    {
        match self {
            Json::Null => JsonView::Null,
            Json::Bool(b) => JsonView::Bool(*b),
            Json::Number(bits) => JsonView::Number(*bits),
            Json::Text(text) => JsonView::Text(text@),
            Json::List(items) => JsonView::List(
                Seq::new(
                    items@.len(),
                    |i: int|
                        if 0 <= i < items@.len() {
                            items@[i].view()
                        } else {
                            JsonView::Null
                        },
                ),
            ),
            Json::Object(members) => JsonView::Object(
                Seq::new(
                    members@.len(),
                    |i: int|
                        if 0 <= i < members@.len() {
                            (members@[i].0@, members@[i].1.view())
                        } else {
                            (Seq::empty(), JsonView::Null)
                        },
                ),
            ),
        }
    }
}

/// The value of the first of `members` with the key.
pub open spec fn find_member(members: Seq<(Seq<char>, JsonView)>, key: Seq<char>) -> Option<
    JsonView,
>
    decreases members.len(),
{
    if members.len() == 0 {
        None
    } else if members.first().0 == key {
        Some(members.first().1)
    } else {
        find_member(members.drop_first(), key)
    }
}

impl JsonView {
    /// The value of an object's member; nothing where this is no object or has no such member.
    pub open spec fn get(self, key: Seq<char>) -> Option<JsonView> {
        match self {
            JsonView::Object(members) => find_member(members, key),
            _ => None,
        }
    }

    /// The text, if this is one.
    pub open spec fn as_text(self) -> Option<Seq<char>> {
        match self {
            JsonView::Text(text) => Some(text),
            _ => None,
        }
    }

    /// The bits of the double that this reads as, if this is a number and reads as one.
    pub open spec fn as_number(self) -> Option<u64> {
        match self {
            JsonView::Number(bits) => bits,
            _ => None,
        }
    }

    /// The items, if this is a list.
    pub open spec fn as_list(self) -> Option<Seq<JsonView>> {
        match self {
            JsonView::List(items) => Some(items),
            _ => None,
        }
    }
}

/// The items of a list in specifications.
pub open spec fn items_view(items: Seq<Json>) -> Seq<JsonView> {
    items.map_values(|item: Json| item@)
}

/// The members of an object in specifications.
pub open spec fn members_view(members: Seq<(String, Json)>) -> Seq<(Seq<char>, JsonView)> {
    members.map_values(|m: (String, Json)| (m.0@, m.1@))
}

/// A list holds what its items hold.
pub proof fn lemma_list_view(items: Vec<Json>)
    ensures
        Json::List(items)@ == JsonView::List(items_view(items@)),
{
    reveal_with_fuel(<Json as View>::view, 2);
    assert(Json::List(items)@->List_0 == items_view(items@));
}

/// An object holds what its members hold.
pub proof fn lemma_object_view(members: Vec<(String, Json)>)
    ensures
        Json::Object(members)@ == JsonView::Object(members_view(members@)),
{
    reveal_with_fuel(<Json as View>::view, 2);
    assert(Json::Object(members)@->Object_0 == members_view(members@));
}

/// The value of the first of `members` with the key.
pub fn find<'a>(members: &'a Vec<(String, Json)>, key: &str) -> (value: Option<&'a Json>)
    ensures
        find_member(members_view(members@), key@) == (match value {
            Some(v) => Some(v@),
            None => None,
        }),
{
    let wanted: String = key.to_string();
    let ghost view: Seq<(Seq<char>, JsonView)> = members_view(members@);
    let mut i: usize = 0;
    assert(view.skip(0) == view);
    while i < members.len()
        invariant
            i <= members.len(),
            view == members_view(members@),
            wanted@ == key@,
            find_member(view, key@) == find_member(view.skip(i as int), key@),
        decreases members.len() - i,
    {
        assert(view.skip(i as int).first() == view[i as int]);
        assert(view.skip(i as int).drop_first() == view.skip(i + 1));
        if members[i].0 == wanted {
            return Some(&members[i].1);
        }
        i = i + 1;
    }
    None
}

impl Json {
    /// The value of an object's member; nothing where this is no object or has no such member.
    pub fn get(&self, key: &str) -> (value: Option<&Json>)
        ensures
            self@.get(key@) == (match value {
                Some(v) => Some(v@),
                None => None,
            }),
    {
        match self {
            Json::Object(members) => {
                proof {
                    lemma_object_view(*members);
                }
                find(members, key)
            },
            _ => None,
        }
    }

    /// The text, if this is one.
    pub fn as_text(&self) -> (text: Option<&String>)
        ensures
            self@.as_text() == (match text {
                Some(t) => Some(t@),
                None => None,
            }),
    {
        match self {
            Json::Text(text) => Some(text),
            _ => None,
        }
    }

    /// The bits of the double that this reads as, if this is a number and reads as one.
    pub fn as_number(&self) -> (bits: Option<u64>)
        ensures
            bits == self@.as_number(),
    {
        match self {
            Json::Number(bits) => *bits,
            _ => None,
        }
    }
}

/// `serde_json::Value`: a parsed document.
#[verifier::external_type_specification]
#[verifier::external_body]
pub struct ExValue(serde_json::Value);

/// `serde_json::Error`: why a text is no document.
#[verifier::external_type_specification]
#[verifier::external_body]
pub struct ExError(serde_json::Error);

/// What a parsed document holds.
pub uninterp spec fn value_contents(value: serde_json::Value) -> JsonView;

/// What `serde_json::from_str` reads a text as, where it reads it as a document.
pub uninterp spec fn parsed_document(text: Seq<char>) -> Option<JsonView>;

/// `serde_json::from_str` for a document of any shape. Whether a text is a document, and which,
/// is a function of the text, which the contract names and does not spell out.
#[verifier::external_body]
fn value_from_str(text: &str) -> (value: Result<serde_json::Value, serde_json::Error>)
    ensures
        parsed_document(text@) == (match value {
            Ok(v) => Some(value_contents(v)),
            Err(_) => None,
        }),
{
    serde_json::from_str(text)
}

/// The variants of `serde_json::Value`, one for one, with `Number::as_f64` for its numbers.
#[verifier::external_body]
fn json_from_value(value: &serde_json::Value) -> (json: Json)
    ensures
        json@ == value_contents(*value),
{
    match value {
        serde_json::Value::Null => Json::Null,
        serde_json::Value::Bool(b) => Json::Bool(*b),
        serde_json::Value::Number(n) => Json::Number(n.as_f64().map(|x| x.to_bits())),
        serde_json::Value::String(text) => Json::Text(text.clone()),
        serde_json::Value::Array(items) => Json::List(items.iter().map(json_from_value).collect()),
        serde_json::Value::Object(members) => {
            Json::Object(members.iter().map(|(k, v)| (k.clone(), json_from_value(v))).collect())
        }
    }
}

impl Json {
    /// What a parsed document holds.
    pub fn from_value(value: &serde_json::Value) -> (json: Json)
        ensures
            json@ == value_contents(*value),
    {
        json_from_value(value)
    }

    /// Reads a text as a document; nothing where it is none.
    pub fn parse(text: &str) -> (json: Option<Json>)
        ensures
            parsed_document(text@) == (match json {
                Some(j) => Some(j@),
                None => None,
            }),
    {
        match value_from_str(text) {
            Ok(value) => Some(json_from_value(&value)),
            Err(_) => None,
        }
    }
}

/// An object's member is found by its key, and where several have the key it is the first of
/// them. Nothing is found by a key that no member has, nor in what is no object.
pub proof fn members_are_found_by_their_keys(members: Seq<(Seq<char>, JsonView)>, key: Seq<char>)
    ensures
        forall|i: int|
            0 <= i < members.len() && members[i].0 == key && (forall|j: int|
                0 <= j < i ==> (#[trigger] members[j]).0 != key) ==> JsonView::Object(members).get(
                key,
            ) == Some((#[trigger] members[i]).1),
        (forall|i: int| 0 <= i < members.len() ==> (#[trigger] members[i]).0 != key)
            ==> JsonView::Object(members).get(key) is None,
        forall|document: JsonView| !(document is Object) ==> #[trigger] document.get(key) is None,
    decreases members.len(),
{
    if members.len() > 0 {
        let rest = members.drop_first();
        members_are_found_by_their_keys(rest, key);
        assert forall|i: int|
            0 <= i < members.len() && members[i].0 == key && (forall|j: int|
                0 <= j < i ==> (#[trigger] members[j]).0 != key) implies JsonView::Object(
            members,
        ).get(key) == Some((#[trigger] members[i]).1) by {
            if i > 0 {
                assert(members[0].0 != key);
                assert(rest[i - 1] == members[i]);
                assert forall|j: int| 0 <= j < i - 1 implies (#[trigger] rest[j]).0 != key by {
                    assert(rest[j] == members[j + 1]);
                }
            }
        }
        if forall|i: int| 0 <= i < members.len() ==> (#[trigger] members[i]).0 != key {
            assert(members[0].0 != key);
            assert forall|j: int| 0 <= j < rest.len() implies (#[trigger] rest[j]).0 != key by {
                assert(rest[j] == members[j + 1]);
            }
        }
    }
}

/// Every text, number and list is taken for what it is, and nothing else is taken for one.
pub proof fn documents_are_taken_for_what_they_are(
    document: JsonView,
    text: Seq<char>,
    bits: u64,
    items: Seq<JsonView>,
)
    ensures
        document.as_text() == Some(text) <==> document == JsonView::Text(text),
        document.as_number() == Some(bits) <==> document == JsonView::Number(Some(bits)),
        document.as_list() == Some(items) <==> document == JsonView::List(items),
{
}

/// A document in memory and in specifications has the same shape and the same contents, down to
/// every item and every member.
pub proof fn documents_hold_what_they_are_made_of(document: Json)
    ensures
        match document {
            Json::Null => document@ == JsonView::Null,
            Json::Bool(b) => document@ == JsonView::Bool(b),
            Json::Number(bits) => document@ == JsonView::Number(bits),
            Json::Text(text) => document@ == JsonView::Text(text@),
            Json::List(items) => document@ matches JsonView::List(view) && view.len()
                == items@.len() && forall|i: int|
                0 <= i < view.len() ==> #[trigger] view[i] == items@[i]@,
            Json::Object(members) => document@ matches JsonView::Object(view) && view.len()
                == members@.len() && forall|i: int|
                0 <= i < view.len() ==> #[trigger] view[i] == (members@[i].0@, members@[i].1@),
        },
{
    match document {
        Json::List(items) => lemma_list_view(items),
        Json::Object(members) => lemma_object_view(members),
        _ => {},
    }
}

} // verus!
