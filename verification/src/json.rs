//! The generic structured value that every incoming line decodes to.

use vstd::prelude::*;

verus! {

/// A JSON value held as plain data.
///
/// A number is kept as its decimal literal and never interpreted here. An
/// object keeps its members as a list of key and value, in the order in which
/// they are handed over.
#[derive(Debug, PartialEq, Eq)]
pub enum Json {
    Null,
    Bool(bool),
    Number(String),
    String(String),
    Array(Vec<Json>),
    Object(Vec<(String, Json)>),
}

/// The mathematical value of a [`Json`].
pub enum JsonView {
    Null,
    Bool(bool),
    Number(Seq<char>),
    String(Seq<char>),
    Array(Seq<JsonView>),
    Object(Seq<(Seq<char>, JsonView)>),
}

/// The mathematical value of `json`: the same tree, with every string as a
/// sequence of characters.
pub open spec fn value_of(json: Json) -> JsonView
    decreases json,
{
    match json {
        Json::Null => JsonView::Null,
        Json::Bool(b) => JsonView::Bool(b),
        Json::Number(literal) => JsonView::Number(literal@),
        Json::String(text) => JsonView::String(text@),
        Json::Array(items) => JsonView::Array(
            Seq::new(
                items@.len(),
                |i: int|
                    if 0 <= i < items@.len() {
                        value_of(items@[i])
                    } else {
                        JsonView::Null
                    },
            ),
        ),
        Json::Object(members) => JsonView::Object(
            Seq::new(
                members@.len(),
                |i: int|
                    if 0 <= i < members@.len() {
                        (members@[i].0@, value_of(members@[i].1))
                    } else {
                        (Seq::empty(), JsonView::Null)
                    },
            ),
        ),
    }
}

impl View for Json {
    type V = JsonView;

    open spec fn view(&self) -> JsonView {
        value_of(*self)
    }
}

/// The values of a list of items, in order.
pub open spec fn items_view(items: Seq<Json>) -> Seq<JsonView> {
    Seq::new(items.len(), |i: int| items[i]@)
}

/// The values of a list of members, in order, each with its key.
pub open spec fn members_view(members: Seq<(String, Json)>) -> Seq<(Seq<char>, JsonView)> {
    Seq::new(members.len(), |i: int| (members[i].0@, members[i].1@))
}

/// The value of an array is the array of the values of its items.
pub proof fn lemma_array_view(items: Vec<Json>)
    ensures
        Json::Array(items)@ == JsonView::Array(items_view(items@)),
{
    assert(Json::Array(items)@->Array_0 =~= items_view(items@));
}

/// The value of an object is the object of the values of its members.
pub proof fn lemma_object_view(members: Vec<(String, Json)>)
    ensures
        Json::Object(members)@ == JsonView::Object(members_view(members@)),
{
    assert(Json::Object(members)@->Object_0 =~= members_view(members@));
}

/// The value of the first member of `members`, at or after `from`, whose key
/// is `key`.
pub open spec fn lookup(members: Seq<(Seq<char>, JsonView)>, key: Seq<char>, from: int) -> Option<
    JsonView,
>
    decreases members.len() - from,
{
    if from < 0 || from >= members.len() {
        None
    } else if members[from].0 == key {
        Some(members[from].1)
    } else {
        lookup(members, key, from + 1)
    }
}

impl JsonView {
    /// The value under `key` if this is an object that has such a member
    /// (the first one, where a key occurs twice).
    pub open spec fn field(self, key: Seq<char>) -> Option<JsonView> {
        match self {
            JsonView::Object(members) => lookup(members, key, 0),
            _ => None,
        }
    }

    /// Whether this is an object with a member called `key`.
    pub open spec fn has(self, key: Seq<char>) -> bool {
        self.field(key) is Some
    }
}

/// The index of the first member called `key`, if there is one.
fn position(members: &Vec<(String, Json)>, key: &str) -> (found: Option<usize>)
    ensures
        match found {
            Some(i) => i < members.len() && lookup(members_view(members@), key@, 0) == Some(
                members[i as int].1@,
            ),
            None => lookup(members_view(members@), key@, 0) is None,
        },
{
    let wanted = key.to_owned();
    let mut i: usize = 0;
    while i < members.len()
        invariant
            i <= members.len(),
            wanted@ == key@,
            lookup(members_view(members@), key@, 0) == lookup(
                members_view(members@),
                key@,
                i as int,
            ),
        decreases members.len() - i,
    {
        if members[i].0 == wanted {
            return Some(i);
        }
        i += 1;
    }
    None
}

impl Json {
    /// Looks up a member of an object by its key.
    pub fn get(&self, key: &str) -> (found: Option<&Json>)
        ensures
            match found {
                Some(value) => self@.field(key@) == Some(value@),
                None => self@.field(key@) is None,
            },
    {
        match self {
            Json::Object(members) => {
                proof {
                    lemma_object_view(*members);
                }
                match position(members, key) {
                    Some(i) => Some(&members[i].1),
                    None => None,
                }
            },
            _ => None,
        }
    }

    /// Takes a member out of an object by its key, giving up the rest.
    pub fn take(self, key: &str) -> (found: Option<Json>)
        ensures
            match found {
                Some(value) => self@.field(key@) == Some(value@),
                None => self@.field(key@) is None,
            },
    {
        match self {
            Json::Object(mut members) => {
                proof {
                    lemma_object_view(members);
                }
                match position(&members, key) {
                    Some(i) => {
                        let member = members.remove(i);
                        Some(member.1)
                    },
                    None => None,
                }
            },
            _ => None,
        }
    }
}

/// The type of a parsed document in `serde_json`.
#[verifier::external_type_specification]
#[verifier::external_body]
pub struct ExValue(serde_json::Value);

/// What `serde_json::from_str` makes of a text: the document that it parses
/// to, or the message of the error that it reports.
pub uninterp spec fn json_parse(text: Seq<char>) -> Result<JsonView, Seq<char>>;

/// What a `serde_json::Value` holds, as a document. Nothing is known of it
/// but what [`unpack`] tells, level by level.
pub uninterp spec fn value_json(value: serde_json::Value) -> JsonView;

/// What a list of `serde_json` values holds, item by item.
pub open spec fn values_json(items: Seq<serde_json::Value>) -> Seq<JsonView> {
    Seq::new(items.len(), |i: int| value_json(items[i]))
}

/// What a list of members with `serde_json` values holds, member by member.
pub open spec fn members_json(members: Seq<(String, serde_json::Value)>) -> Seq<
    (Seq<char>, JsonView),
> {
    Seq::new(members.len(), |i: int| (members[i].0@, value_json(members[i].1)))
}

/// The top of a `serde_json` document, with what stands below it still in
/// the parser's own type.
enum Node {
    Null,
    Bool(bool),
    Number(String),
    String(String),
    Array(Vec<serde_json::Value>),
    Object(Vec<(String, serde_json::Value)>),
}

impl Node {
    /// What the node holds.
    spec fn json(self) -> JsonView {
        match self {
            Node::Null => JsonView::Null,
            Node::Bool(b) => JsonView::Bool(b),
            Node::Number(literal) => JsonView::Number(literal@),
            Node::String(text) => JsonView::String(text@),
            Node::Array(items) => JsonView::Array(values_json(items@)),
            Node::Object(members) => JsonView::Object(members_json(members@)),
        }
    }
}

/// Parses `text` with `serde_json::from_str`, as a `serde_json::Value`. On
/// failure the result is the text of the `serde_json::Error`. The outcome
/// depends on `text` alone and is what [`json_parse`] names; nothing else is
/// claimed of it.
#[verifier::external_body]
fn parse_value(text: &str) -> (parsed: Result<serde_json::Value, String>)
    ensures
        match parsed {
            Ok(value) => json_parse(text@) == Ok::<JsonView, Seq<char>>(value_json(value)),
            Err(message) => json_parse(text@) == Err::<JsonView, Seq<char>>(message@),
        },
{
    serde_json::from_str::<serde_json::Value>(text).map_err(|error| error.to_string())
}

/// Opens a `serde_json::Value` by one level, variant for variant: the node
/// is of the same kind as the value and holds the same, with the items of an
/// array and the values of the members of an object still unopened. A number
/// becomes the literal that the `Display` of `serde_json::Number` writes; an
/// object gives its members in the order in which `serde_json::Map` hands
/// them out.
#[verifier::external_body]
fn unpack(value: serde_json::Value) -> (node: Node)
    ensures
        node.json() == value_json(value),
{
    match value {
        serde_json::Value::Null => Node::Null,
        serde_json::Value::Bool(b) => Node::Bool(b),
        serde_json::Value::Number(number) => Node::Number(number.to_string()),
        serde_json::Value::String(text) => Node::String(text),
        serde_json::Value::Array(items) => Node::Array(items),
        serde_json::Value::Object(members) => Node::Object(members.into_iter().collect()),
    }
}

/// Turns a list around.
fn reversed<T>(list: Vec<T>) -> (turned: Vec<T>)
    ensures
        turned@ == list@.reverse(),
{
    let mut rest = list;
    let mut turned: Vec<T> = Vec::new();
    while rest.len() > 0
        invariant
            rest@.len() + turned@.len() == list@.len(),
            rest@ == list@.take(rest@.len() as int),
            forall|i: int|
                0 <= i < turned@.len() ==> turned@[i] == list@[list@.len() - 1 - i],
        decreases rest@.len(),
    {
        match rest.pop() {
            Some(item) => turned.push(item),
            None => {},
        }
    }
    assert(turned@ =~= list@.reverse());
    turned
}

/// Rebuilds a `serde_json` document as a [`Json`].
fn from_value(value: serde_json::Value) -> (json: Json)
    ensures
        json@ == value_json(value),
    decreases value_json(value),
{
    match unpack(value) {
        Node::Null => Json::Null,
        Node::Bool(b) => Json::Bool(b),
        Node::Number(literal) => Json::Number(literal),
        Node::String(text) => Json::String(text),
        Node::Array(items) => {
            let ghost all = items@;
            let mut rest = items;
            let mut built: Vec<Json> = Vec::new();
            while rest.len() > 0
                invariant
                    value_json(value) == JsonView::Array(values_json(all)),
                    rest@.len() + built@.len() == all.len(),
                    rest@ == all.take(rest@.len() as int),
                    forall|i: int|
                        0 <= i < built@.len() ==> built@[i]@ == value_json(
                            all[all.len() - 1 - i],
                        ),
                decreases rest@.len(),
            {
                match rest.pop() {
                    Some(item) => {
                        proof {
                            let at = rest@.len() as int;
                            let below = value_json(value)->Array_0;
                            assert(item == all[at]);
                            assert(below[at] == value_json(item));
                            assert(decreases_to!(value_json(value) => below));
                            assert(decreases_to!(below => below[at]));
                        }
                        built.push(from_value(item));
                    },
                    None => {},
                }
            }
            let list = reversed(built);
            proof {
                lemma_array_view(list);
                assert(items_view(list@) =~= values_json(all));
            }
            Json::Array(list)
        },
        Node::Object(members) => {
            let ghost all = members@;
            let mut rest = members;
            let mut built: Vec<(String, Json)> = Vec::new();
            while rest.len() > 0
                invariant
                    value_json(value) == JsonView::Object(members_json(all)),
                    rest@.len() + built@.len() == all.len(),
                    rest@ == all.take(rest@.len() as int),
                    forall|i: int|
                        0 <= i < built@.len() ==> built@[i].0@ == all[all.len() - 1 - i].0@
                            && built@[i].1@ == value_json(all[all.len() - 1 - i].1),
                decreases rest@.len(),
            {
                match rest.pop() {
                    Some(member) => {
                        proof {
                            let at = rest@.len() as int;
                            let below = value_json(value)->Object_0;
                            assert(member == all[at]);
                            assert(below[at].1 == value_json(member.1));
                            assert(decreases_to!(value_json(value) => below));
                            assert(decreases_to!(below => below[at]));
                            assert(decreases_to!(below[at] => below[at].1));
                        }
                        let key = member.0;
                        built.push((key, from_value(member.1)));
                    },
                    None => {},
                }
            }
            let list = reversed(built);
            proof {
                lemma_object_view(list);
                assert(members_view(list@) =~= members_json(all));
            }
            Json::Object(list)
        },
    }
}

/// Parses a text as JSON: the document, or the parser's message.
pub fn parse(text: &str) -> (parsed: Result<Json, String>)
    ensures
        match parsed {
            Ok(value) => json_parse(text@) == Ok::<JsonView, Seq<char>>(value@),
            Err(message) => json_parse(text@) == Err::<JsonView, Seq<char>>(message@),
        },
{
    match parse_value(text) {
        Ok(value) => Ok(from_value(value)),
        Err(message) => Err(message),
    }
}

} // verus!
