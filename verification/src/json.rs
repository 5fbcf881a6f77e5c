//! A JSON document as a tree of plain values.

use vstd::prelude::*;

verus! {

/// One member of a JSON object.
#[derive(Debug)]
pub struct Member {
    pub key: String,
    pub value: Json,
}

/// A JSON document.
#[derive(Debug)]
pub enum Json {
    Null,
    Bool(bool),
    /// A number, kept as the text that writes it.
    Number(String),
    Text(String),
    Array(Vec<Json>),
    /// An object: its members, in order. A lookup takes the first of a name.
    Object(Vec<Member>),
}

/// The mathematical content of a [`Member`].
pub struct MemberValue {
    pub key: Seq<char>,
    pub value: JsonValue,
}

/// The mathematical content of a [`Json`] tree.
pub enum JsonValue {
    Null,
    Bool(bool),
    Number(Seq<char>),
    Text(Seq<char>),
    Array(Seq<JsonValue>),
    Object(Seq<MemberValue>),
}

/// The value of the first member named `key` among `members`.
pub open spec fn first_member(members: Seq<MemberValue>, key: Seq<char>) -> Option<JsonValue>
    decreases members.len(),
{
    if members.len() == 0 {
        None
    } else if members[0].key == key {
        Some(members[0].value)
    } else {
        first_member(members.drop_first(), key)
    }
}

impl JsonValue {
    /// The member named `key`, where this is an object that has one.
    pub open spec fn member(self, key: Seq<char>) -> Option<JsonValue> {
        match self {
            JsonValue::Object(members) => first_member(members, key),
            _ => None,
        }
    }

    /// The elements, where this is an array.
    pub open spec fn items(self) -> Option<Seq<JsonValue>> {
        match self {
            JsonValue::Array(items) => Some(items),
            _ => None,
        }
    }

    /// The characters, where this is a string.
    pub open spec fn text(self) -> Option<Seq<char>> {
        match self {
            JsonValue::Text(text) => Some(text),
            _ => None,
        }
    }

    /// The decimal text, where this is a number.
    pub open spec fn number(self) -> Option<Seq<char>> {
        match self {
            JsonValue::Number(text) => Some(text),
            _ => None,
        }
    }
}

impl View for Json {
    type V = JsonValue;

    open spec fn view(&self) -> JsonValue
        decreases self,
    {
        match self {
            Json::Null => JsonValue::Null,
            Json::Bool(b) => JsonValue::Bool(*b),
            Json::Number(text) => JsonValue::Number(text@),
            Json::Text(text) => JsonValue::Text(text@),
            Json::Array(items) => JsonValue::Array(nodes_view(items@)),
            Json::Object(members) => JsonValue::Object(members_view(members@)),
        }
    }
}

/// The contents of a run of nodes.
pub open spec fn nodes_view(nodes: Seq<Json>) -> Seq<JsonValue>
    decreases nodes,
{
    if nodes.len() == 0 {
        Seq::empty()
    } else {
        nodes_view(nodes.drop_last()).push(nodes.last()@)
    }
}

/// The contents of a run of members.
pub open spec fn members_view(members: Seq<Member>) -> Seq<MemberValue>
    decreases members,
{
    if members.len() == 0 {
        Seq::empty()
    } else {
        members_view(members.drop_last()).push(
            MemberValue { key: members.last().key@, value: members.last().value@ },
        )
    }
}

/// `nodes_view` keeps the length and views each node in place.
pub proof fn lemma_nodes_view(nodes: Seq<Json>)
    ensures
        nodes_view(nodes).len() == nodes.len(),
        forall|i: int| 0 <= i < nodes.len() ==> (#[trigger] nodes_view(nodes)[i]) == nodes[i]@,
    decreases nodes.len(),
{
    if nodes.len() > 0 {
        lemma_nodes_view(nodes.drop_last());
        assert(nodes_view(nodes) == nodes_view(nodes.drop_last()).push(nodes.last()@));
    } else {
        assert(nodes_view(nodes) == Seq::<JsonValue>::empty());
    }
}

/// `members_view` keeps the length and views each member in place.
pub proof fn lemma_members_view(members: Seq<Member>)
    ensures
        members_view(members).len() == members.len(),
        forall|i: int|
            0 <= i < members.len() ==> (#[trigger] members_view(members)[i]) == members[i]@,
    decreases members.len(),
{
    if members.len() > 0 {
        lemma_members_view(members.drop_last());
    }
}

impl View for Member {
    type V = MemberValue;

    open spec fn view(&self) -> MemberValue {
        MemberValue { key: self.key@, value: self.value@ }
    }
}

/// The content of an optional node.
pub open spec fn node_view(node: Option<&Json>) -> Option<JsonValue> {
    match node {
        Some(json) => Some(json@),
        None => None,
    }
}

impl Json {
    /// Looks up the member named `key`.
    pub fn get(&self, key: &str) -> (found: Option<&Json>)
        ensures
            node_view(found) == self@.member(key@),
    {
        match self {
            Json::Object(members) => {
                let wanted = key.to_owned();
                let ghost all = self@->Object_0;
                proof {
                    lemma_members_view(members@);
                    assert(all.skip(0) =~= all);
                }
                let mut i: usize = 0;
                while i < members.len()
                    invariant
                        i <= members.len(),
                        wanted@ == key@,
                        all.len() == members.len(),
                        self@.member(key@) == first_member(all.skip(i as int), key@),
                        forall|k: int| 0 <= k < members.len() ==> all[k] == members@[k]@,
                    decreases members.len() - i,
                {
                    assert(all.skip(i as int)[0] == all[i as int]);
                    assert(all.skip(i as int).drop_first() =~= all.skip(i + 1));
                    if members[i].key == wanted {
                        return Some(&members[i].value);
                    }
                    i += 1;
                }
                None
            },
            _ => None,
        }
    }

    /// The elements, where this is an array.
    pub fn as_array(&self) -> (items: Option<&Vec<Json>>)
        ensures
            match items {
                Some(items) => self@.items() == Some(nodes_view(items@)),
                None => self@.items() is None,
            },
    {
        match self {
            Json::Array(items) => {
                Some(items)
            },
            _ => None,
        }
    }

    /// The characters, where this is a string.
    pub fn as_str(&self) -> (text: Option<&String>)
        ensures
            match text {
                Some(text) => self@.text() == Some(text@),
                None => self@.text() is None,
            },
    {
        match self {
            Json::Text(text) => Some(text),
            _ => None,
        }
    }

    /// The decimal text, where this is a number.
    pub fn as_number(&self) -> (text: Option<&String>)
        ensures
            match text {
                Some(text) => self@.number() == Some(text@),
                None => self@.number() is None,
            },
    {
        match self {
            Json::Number(text) => Some(text),
            _ => None,
        }
    }

    /// Whether this is an object.
    pub fn is_object(&self) -> (yes: bool)
        ensures
            yes == (self@ is Object),
    {
        match self {
            Json::Object(_) => true,
            _ => false,
        }
    }
}

/// `serde_json::Value`, the tree that `serde_json` builds from a document.
#[verifier::external_type_specification]
#[verifier::external_body]
pub struct ExValue(serde_json::Value);

/// `serde_json::Error`, the report of a document that could not be read.
#[verifier::external_type_specification]
#[verifier::external_body]
pub struct ExError(serde_json::Error);

/// The document that `serde_json::from_str` reads from `text`, as
/// `value_content` describes it; `None` where `serde_json` reports an error.
pub uninterp spec fn json_document(text: Seq<char>) -> Option<JsonValue>;

/// What a `serde_json::Value` holds: nulls, booleans and strings as they are,
/// each number as the text that `serde_json` displays for it, the elements of
/// an array in order, and the members of an object in the order in which
/// `serde_json` walks them.
pub uninterp spec fn value_content(value: serde_json::Value) -> JsonValue;

/// Calls `serde_json::from_str` for a `serde_json::Value`. The outcome depends
/// on the text alone: the value read is the one that `json_document` names,
/// and an error comes exactly where `json_document` has none.
#[verifier::external_body]
fn read_value(text: &str) -> (outcome: Result<serde_json::Value, serde_json::Error>)
    ensures
        match outcome {
            Ok(value) => json_document(text@) == Some(value_content(value)),
            Err(_) => json_document(text@) is None,
        },
{
    serde_json::from_str::<serde_json::Value>(text)
}

/// Moves the content of a `serde_json::Value` into a [`Json`] tree, variant by
/// variant. A number becomes the text of `serde_json::Number`'s `Display`.
#[verifier::external_body]
fn tree_of(value: serde_json::Value) -> (tree: Json)
    ensures
        tree@ == value_content(value),
{
    match value {
        serde_json::Value::Null => Json::Null,
        serde_json::Value::Bool(flag) => Json::Bool(flag),
        serde_json::Value::Number(number) => Json::Number(number.to_string()),
        serde_json::Value::String(text) => Json::Text(text),
        serde_json::Value::Array(items) => Json::Array(items.into_iter().map(tree_of).collect()),
        serde_json::Value::Object(members) => Json::Object(
            members.into_iter().map(|(key, value)| Member { key, value: tree_of(value) }).collect(),
        ),
    }
}

/// Reads one JSON document from `text`.
pub fn parse_json(text: &str) -> (outcome: Result<Json, serde_json::Error>)
    ensures
        match outcome {
            Ok(tree) => json_document(text@) == Some(tree@),
            Err(_) => json_document(text@) is None,
        },
{
    match read_value(text) {
        Ok(value) => Ok(tree_of(value)),
        Err(error) => Err(error),
    }
}

} // verus!
