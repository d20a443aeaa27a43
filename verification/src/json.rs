//! JSON values as the transcript logic reads them.

use vstd::prelude::*;

use crate::text;

verus! {

/// A JSON value.
#[derive(Debug)]
pub enum Json {
    /// `null`.
    Null,
    /// `true` or `false`.
    Bool(bool),
    /// A number, by its decimal text.
    Number(String),
    /// A string.
    Text(String),
    /// An array.
    Array(Vec<Json>),
    /// An object, by its members in order.
    Object(Vec<(String, Json)>),
}

/// The content of a [`Json`] value.
pub enum JsonView {
    /// `null`.
    Null,
    /// `true` or `false`.
    Bool(bool),
    /// A number, by its decimal text.
    Number(Seq<char>),
    /// A string.
    Text(Seq<char>),
    /// An array.
    Array(Seq<JsonView>),
    /// An object, by its members in order.
    Object(Seq<(Seq<char>, JsonView)>),
}

/// The content of `value`.
pub open spec fn content(value: Json) -> JsonView
    decreases value,
{
    match value {
        Json::Null => JsonView::Null,
        Json::Bool(b) => JsonView::Bool(b),
        Json::Number(n) => JsonView::Number(n@),
        Json::Text(s) => JsonView::Text(s@),
        Json::Array(items) => JsonView::Array(
            Seq::new(
                items@.len(),
                |i: int|
                    if 0 <= i < items@.len() {
                        content(items@[i])
                    } else {
                        JsonView::Null
                    },
            ),
        ),
        Json::Object(members) => JsonView::Object(
            Seq::new(
                members@.len(),
                |i: int|
                    if 0 <= i < members@.len() {
                        (members@[i].0@, content(members@[i].1))
                    } else {
                        (Seq::empty(), JsonView::Null)
                    },
            ),
        ),
    }
}

impl View for Json {
    type V = JsonView;

    open spec fn view(&self) -> JsonView {
        content(*self)
    }
}

/// The contents of a sequence of values.
pub open spec fn contents(values: Seq<Json>) -> Seq<JsonView> {
    values.map_values(|value: Json| value@)
}

/// The first member called `key`.
pub open spec fn find_member(members: Seq<(Seq<char>, JsonView)>, key: Seq<char>) -> Option<
    JsonView,
>
    decreases members.len(),
{
    if members.len() == 0 {
        None
    } else if members[0].0 == key {
        Some(members[0].1)
    } else {
        find_member(members.drop_first(), key)
    }
}

impl JsonView {
    /// The member called `key`, where the value is an object that has one.
    pub open spec fn member(self, key: Seq<char>) -> Option<JsonView> {
        match self {
            JsonView::Object(members) => find_member(members, key),
            _ => None,
        }
    }

    /// The characters, where the value is a string.
    pub open spec fn text(self) -> Option<Seq<char>> {
        match self {
            JsonView::Text(s) => Some(s),
            _ => None,
        }
    }

    /// The items, where the value is an array.
    pub open spec fn items(self) -> Option<Seq<JsonView>> {
        match self {
            JsonView::Array(items) => Some(items),
            _ => None,
        }
    }

    /// The characters of the string member called `key`, where there is one.
    pub open spec fn text_member(self, key: Seq<char>) -> Option<Seq<char>> {
        match self.member(key) {
            Some(value) => value.text(),
            None => None,
        }
    }

    /// The items of the array member called `key`, where there is one.
    pub open spec fn array_member(self, key: Seq<char>) -> Option<Seq<JsonView>> {
        match self.member(key) {
            Some(value) => value.items(),
            None => None,
        }
    }
}

/// Members before the first one called `key` do not bear on the search.
proof fn lemma_find_member_skip(members: Seq<(Seq<char>, JsonView)>, key: Seq<char>, n: int)
    requires
        0 <= n <= members.len(),
        forall|i: int| 0 <= i < n ==> (#[trigger] members[i]).0 != key,
    ensures
        find_member(members, key) == find_member(members.skip(n), key),
    decreases n,
{
    if n == 0 {
        assert(members.skip(0) =~= members);
    } else {
        let rest = members.drop_first();
        assert(members[0].0 != key);
        assert forall|i: int| 0 <= i < n - 1 implies (#[trigger] rest[i]).0 != key by {
            assert(rest[i] == members[i + 1]);
        }
        lemma_find_member_skip(rest, key, n - 1);
        assert(rest.skip(n - 1) =~= members.skip(n));
    }
}

impl Json {
    /// The member called `key`, where the value is an object that has one.
    pub fn get(&self, key: &str) -> (found: Option<&Json>)
        ensures
            match found {
                Some(value) => self@.member(key@) == Some(value@),
                None => self@.member(key@) is None,
            },
    {
        match self {
            Json::Object(members) => {
                let ghost all = self@->Object_0;
                let mut i: usize = 0;
                while i < members.len()
                    invariant
                        i <= members@.len(),
                        self@ == JsonView::Object(all),
                        all.len() == members@.len(),
                        forall|j: int|
                            0 <= j < all.len() ==> #[trigger] all[j] == (
                                members@[j].0@,
                                members@[j].1@,
                            ),
                        forall|j: int| 0 <= j < i ==> (#[trigger] all[j]).0 != key@,
                    decreases members@.len() - i,
                {
                    if text::same_text(members[i].0.as_str(), key) {
                        proof {
                            lemma_find_member_skip(all, key@, i as int);
                            assert(all.skip(i as int)[0] == all[i as int]);
                        }
                        return Some(&members[i].1);
                    }
                    i = i + 1;
                }
                proof {
                    lemma_find_member_skip(all, key@, i as int);
                }
                None
            },
            _ => None,
        }
    }

    /// The characters, where the value is a string.
    pub fn as_str(&self) -> (text: Option<&str>)
        ensures
            match text {
                Some(s) => self@.text() == Some(s@),
                None => self@.text() is None,
            },
    {
        match self {
            Json::Text(s) => Some(s.as_str()),
            _ => None,
        }
    }

    /// The items, where the value is an array.
    pub fn as_array(&self) -> (items: Option<&Vec<Json>>)
        ensures
            match items {
                Some(values) => self@.items() == Some(contents(values@)),
                None => self@.items() is None,
            },
    {
        match self {
            Json::Array(items) => {
                assert(self@->Array_0 =~= contents(items@));
                Some(items)
            },
            _ => None,
        }
    }

    /// A value with the same content.
    pub fn duplicate(&self) -> (twin: Json)
        ensures
            twin@ == self@,
        decreases self,
    {
        match self {
            Json::Null => Json::Null,
            Json::Bool(b) => Json::Bool(*b),
            Json::Number(n) => Json::Number(n.clone()),
            Json::Text(s) => Json::Text(s.clone()),
            Json::Array(items) => {
                let mut twins: Vec<Json> = Vec::new();
                let mut i: usize = 0;
                while i < items.len()
                    invariant
                        i <= items@.len(),
                        *self == Json::Array(*items),
                        twins@.len() == i,
                        forall|j: int| 0 <= j < i ==> (#[trigger] twins@[j])@ == items@[j]@,
                    decreases items@.len() - i,
                {
                    assert(decreases_to!(*self => self->Array_0@[i as int]));
                    let twin = items[i].duplicate();
                    twins.push(twin);
                    i = i + 1;
                }
                let twin = Json::Array(twins);
                assert(twin@->Array_0 =~= self@->Array_0);
                twin
            },
            Json::Object(members) => {
                let mut twins: Vec<(String, Json)> = Vec::new();
                let mut i: usize = 0;
                while i < members.len()
                    invariant
                        i <= members@.len(),
                        *self == Json::Object(*members),
                        twins@.len() == i,
                        forall|j: int|
                            0 <= j < i ==> (#[trigger] twins@[j]).0@ == members@[j].0@
                                && twins@[j].1@ == members@[j].1@,
                    decreases members@.len() - i,
                {
                    let name = members[i].0.clone();
                    assert(decreases_to!(*self => self->Object_0@[i as int].1));
                    let twin = members[i].1.duplicate();
                    twins.push((name, twin));
                    i = i + 1;
                }
                let twin = Json::Object(twins);
                assert(twin@->Object_0 =~= self@->Object_0);
                twin
            },
        }
    }
}

impl Clone for Json {
    fn clone(&self) -> (twin: Self)
        ensures
            twin@ == self@,
    {
        self.duplicate()
    }
}

// ── Reading JSON text ───────────────────────────────────────────────

/// The outside type `serde_json::Value`, a tree of JSON values.
#[verifier::external_type_specification]
#[verifier::external_body]
pub struct ExValue(serde_json::Value);

/// The outside type `serde_json::Error`, why a text is not JSON.
#[verifier::external_type_specification]
#[verifier::external_body]
pub struct ExJsonError(serde_json::Error);

/// What `serde_json::from_str` makes of a text: the value that the text
/// denotes, or the message of the error that it reports.
pub uninterp spec fn parsed_json(text: Seq<char>) -> Result<JsonView, Seq<char>>;

/// What a `serde_json::Value` holds, node by node.
pub uninterp spec fn value_content(value: serde_json::Value) -> JsonView;

/// The outermost node of a `serde_json::Value`.
enum Node<'a> {
    Null,
    Bool(bool),
    Number(String),
    Text(&'a String),
    Array(&'a Vec<serde_json::Value>),
    Object(Vec<(&'a String, &'a serde_json::Value)>),
}

/// The content of a value with the outermost node `node`.
spec fn node_content(node: Node) -> JsonView {
    match node {
        Node::Null => JsonView::Null,
        Node::Bool(b) => JsonView::Bool(b),
        Node::Number(n) => JsonView::Number(n@),
        Node::Text(s) => JsonView::Text(s@),
        Node::Array(items) => JsonView::Array(
            items@.map_values(|item: serde_json::Value| value_content(item)),
        ),
        Node::Object(members) => JsonView::Object(
            members@.map_values(
                |member: (&String, &serde_json::Value)| (member.0@, value_content(*member.1)),
            ),
        ),
    }
}

/// Tells the variants of `serde_json::Value` apart. The node holds what the
/// value's variant holds: the items of an array in order, the members of an
/// object in the order of its map, a number as the text that
/// `serde_json::Number` prints.
#[verifier::external_body]
fn open_value(value: &serde_json::Value) -> (node: Node<'_>)
    ensures
        value_content(*value) == node_content(node),
{
    match value {
        serde_json::Value::Null => Node::Null,
        serde_json::Value::Bool(b) => Node::Bool(*b),
        serde_json::Value::Number(n) => Node::Number(n.to_string()),
        serde_json::Value::String(s) => Node::Text(s),
        serde_json::Value::Array(items) => Node::Array(items),
        serde_json::Value::Object(members) => Node::Object(members.iter().collect()),
    }
}

/// Calls `serde_json::from_str` for a `serde_json::Value`. The content of the
/// value, or what the error displays, is a function of the text alone.
#[verifier::external_body]
fn value_from_str(text: &str) -> (parsed: Result<serde_json::Value, serde_json::Error>)
    ensures
        match parsed {
            Ok(value) => parsed_json(text@) == Ok::<JsonView, Seq<char>>(value_content(value)),
            Err(error) => parsed_json(text@) is Err && forall|message: String|
                vstd::string::to_string_from_display_ensures(&error, message) ==> parsed_json(text@)
                    == Err::<JsonView, Seq<char>>(message@),
        },
{
    serde_json::from_str(text)
}

/// A [`Json`] with the content of `value`.
fn json_from_value(value: &serde_json::Value) -> (json: Json)
    ensures
        json@ == value_content(*value),
    decreases value_content(*value),
{
    match open_value(value) {
        Node::Null => Json::Null,
        Node::Bool(b) => Json::Bool(b),
        Node::Number(n) => Json::Number(n),
        Node::Text(s) => Json::Text(s.clone()),
        Node::Array(items) => {
            let mut out: Vec<Json> = Vec::new();
            let ghost all = value_content(*value)->Array_0;
            let mut i: usize = 0;
            while i < items.len()
                invariant
                    i <= items@.len(),
                    value_content(*value) == JsonView::Array(all),
                    all.len() == items@.len(),
                    forall|j: int|
                        0 <= j < all.len() ==> #[trigger] all[j] == value_content(items@[j]),
                    out@.len() == i,
                    forall|j: int| 0 <= j < i ==> (#[trigger] out@[j])@ == all[j],
                decreases items@.len() - i,
            {
                assert(decreases_to!(value_content(*value) => value_content(*value)->Array_0[i as int]));
                let item = json_from_value(&items[i]);
                out.push(item);
                i = i + 1;
            }
            let json = Json::Array(out);
            assert(json@->Array_0 =~= all);
            json
        },
        Node::Object(members) => {
            let mut out: Vec<(String, Json)> = Vec::new();
            let ghost all = value_content(*value)->Object_0;
            let mut i: usize = 0;
            while i < members.len()
                invariant
                    i <= members@.len(),
                    value_content(*value) == JsonView::Object(all),
                    all.len() == members@.len(),
                    forall|j: int|
                        0 <= j < all.len() ==> #[trigger] all[j] == (
                            members@[j].0@,
                            value_content(*members@[j].1),
                        ),
                    out@.len() == i,
                    forall|j: int|
                        0 <= j < i ==> (#[trigger] out@[j]).0@ == all[j].0 && out@[j].1@
                            == all[j].1,
                decreases members@.len() - i,
            {
                assert(decreases_to!(value_content(*value) => value_content(*value)->Object_0[i as int].1));
                let name = members[i].0.clone();
                let item = json_from_value(members[i].1);
                out.push((name, item));
                i = i + 1;
            }
            let json = Json::Object(out);
            assert(json@->Object_0 =~= all);
            json
        },
    }
}

/// Reads a JSON text.
pub fn parse_json(text: &str) -> (parsed: Result<Json, serde_json::Error>)
    ensures
        match parsed {
            Ok(json) => parsed_json(text@) == Ok::<JsonView, Seq<char>>(json@),
            Err(error) => parsed_json(text@) is Err && forall|message: String|
                vstd::string::to_string_from_display_ensures(&error, message) ==> parsed_json(text@)
                    == Err::<JsonView, Seq<char>>(message@),
        },
{
    match value_from_str(text) {
        Ok(value) => Ok(json_from_value(&value)),
        Err(error) => Err(error),
    }
}

} // verus!
