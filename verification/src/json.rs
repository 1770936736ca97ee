//! JSON documents as plain values.

use vstd::prelude::*;
use serde_json::Value;
use crate::error::{ConfigError, ConfigErrorKind, ConfigErrorView};

verus! {

/// A JSON document.
pub enum JsonValue {
    Null,
    Bool(bool),
    /// A number written without fraction or exponent and without sign.
    PosInt(u64),
    /// A number written without fraction or exponent, below zero.
    NegInt(i64),
    /// Any other number, as its text.
    Float(String),
    String(String),
    Array(Vec<JsonValue>),
    /// The members of an object, in the order in which they are read.
    Object(Vec<(String, JsonValue)>),
}

/// What a JSON document holds.
pub enum Json {
    Null,
    Bool(bool),
    PosInt(u64),
    NegInt(i64),
    Float(Seq<char>),
    String(Seq<char>),
    Array(Seq<Json>),
    Object(Seq<(Seq<char>, Json)>),
}

impl JsonValue {
    /// What the document holds.
    pub open spec fn model(self) -> Json
        decreases self,
    {
        match self {
            JsonValue::Null => Json::Null,
            JsonValue::Bool(b) => Json::Bool(b),
            JsonValue::PosInt(n) => Json::PosInt(n),
            JsonValue::NegInt(n) => Json::NegInt(n),
            JsonValue::Float(text) => Json::Float(text@),
            JsonValue::String(text) => Json::String(text@),
            JsonValue::Array(items) => Json::Array(
                Seq::new(
                    items@.len(),
                    |i: int|
                        if 0 <= i < items@.len() {
                            items@[i].model()
                        } else {
                            Json::Null
                        },
                ),
            ),
            JsonValue::Object(members) => Json::Object(
                Seq::new(
                    members@.len(),
                    |i: int|
                        if 0 <= i < members@.len() {
                            (members@[i].0@, members@[i].1.model())
                        } else {
                            (Seq::empty(), Json::Null)
                        },
                ),
            ),
        }
    }
}

impl View for JsonValue {
    type V = Json;

    open spec fn view(&self) -> Json {
        self.model()
    }
}

/// What the items of an array hold.
pub open spec fn item_views(items: Seq<JsonValue>) -> Seq<Json> {
    items.map_values(|item: JsonValue| item@)
}

/// What the members of an object hold.
pub open spec fn member_views(members: Seq<(String, JsonValue)>) -> Seq<(Seq<char>, Json)> {
    members.map_values(|member: (String, JsonValue)| (member.0@, member.1@))
}

/// The value of the first member of an object that has the given key, from
/// position `from` on.
pub open spec fn member_from(members: Seq<(Seq<char>, Json)>, key: Seq<char>, from: int) -> Option<
    Json,
>
    decreases members.len() - from,
{
    if from < 0 || from >= members.len() {
        None
    } else if members[from].0 == key {
        Some(members[from].1)
    } else {
        member_from(members, key, from + 1)
    }
}

impl Json {
    /// The members, where this is an object.
    pub open spec fn members(self) -> Option<Seq<(Seq<char>, Json)>> {
        match self {
            Json::Object(members) => Some(members),
            _ => None,
        }
    }

    /// The items, where this is an array.
    pub open spec fn items(self) -> Option<Seq<Json>> {
        match self {
            Json::Array(items) => Some(items),
            _ => None,
        }
    }

    /// The text, where this is a string.
    pub open spec fn text(self) -> Option<Seq<char>> {
        match self {
            Json::String(text) => Some(text),
            _ => None,
        }
    }

    /// The truth value, where this is one.
    pub open spec fn boolean(self) -> Option<bool> {
        match self {
            Json::Bool(b) => Some(b),
            _ => None,
        }
    }

    /// The number, where this is an integer that a signed 64-bit integer
    /// holds.
    pub open spec fn integer(self) -> Option<i64> {
        match self {
            Json::PosInt(n) => if n <= i64::MAX as u64 {
                Some(n as i64)
            } else {
                None
            },
            Json::NegInt(n) => Some(n),
            _ => None,
        }
    }

    /// The value of the first member with the given key, where this is an
    /// object that has one.
    pub open spec fn member(self, key: Seq<char>) -> Option<Json> {
        match self {
            Json::Object(members) => member_from(members, key, 0),
            _ => None,
        }
    }
}

/// Whether two texts are the same.
pub fn same_text(a: &str, b: &str) -> (r: bool)
    ensures
        r == (a@ == b@),
{
    let len = a.unicode_len();
    if len != b.unicode_len() {
        return false;
    }
    let mut i: usize = 0;
    while i < len
        invariant
            i <= len,
            len == a@.len(),
            len == b@.len(),
            forall|j: int| 0 <= j < i ==> a@[j] == b@[j],
        decreases len - i,
    {
        if a.get_char(i) != b.get_char(i) {
            return false;
        }
        i += 1;
    }
    assert(a@ =~= b@);
    true
}

impl JsonValue {
    /// The members, where this is an object.
    pub fn as_object(&self) -> (r: Option<&Vec<(String, JsonValue)>>)
        ensures
            match r {
                Some(members) => self@.members() == Some(member_views(members@)),
                None => self@.members() is None,
            },
    {
        match self {
            JsonValue::Object(members) => {
                assert(self@.members().unwrap() =~= member_views(members@));
                Some(members)
            },
            _ => None,
        }
    }

    /// The items, where this is an array.
    pub fn as_array(&self) -> (r: Option<&Vec<JsonValue>>)
        ensures
            match r {
                Some(items) => self@.items() == Some(item_views(items@)),
                None => self@.items() is None,
            },
    {
        match self {
            JsonValue::Array(items) => {
                assert(self@.items().unwrap() =~= item_views(items@));
                Some(items)
            },
            _ => None,
        }
    }

    /// The text, where this is a string.
    pub fn as_str(&self) -> (r: Option<&str>)
        ensures
            match r {
                Some(text) => self@.text() == Some(text@),
                None => self@.text() is None,
            },
    {
        match self {
            JsonValue::String(text) => Some(text.as_str()),
            _ => None,
        }
    }

    /// The truth value, where this is one.
    pub fn as_bool(&self) -> (r: Option<bool>)
        ensures
            r == self@.boolean(),
    {
        match self {
            JsonValue::Bool(b) => Some(*b),
            _ => None,
        }
    }

    /// The number, where this is an integer that a signed 64-bit integer
    /// holds.
    pub fn as_i64(&self) -> (r: Option<i64>)
        ensures
            r == self@.integer(),
    {
        match self {
            JsonValue::PosInt(n) => {
                if *n <= i64::MAX as u64 {
                    Some(*n as i64)
                } else {
                    None
                }
            },
            JsonValue::NegInt(n) => Some(*n),
            _ => None,
        }
    }

    /// The value of the first member with the given key, where this is an
    /// object that has one.
    pub fn get(&self, key: &str) -> (r: Option<&JsonValue>)
        ensures
            match r {
                Some(value) => self@.member(key@) == Some(value@),
                None => self@.member(key@) is None,
            },
    {
        match self.as_object() {
            Some(members) => {
                let mut i: usize = 0;
                while i < members.len()
                    invariant
                        i <= members.len(),
                        self@.members() == Some(member_views(members@)),
                        self@.member(key@) == member_from(member_views(members@), key@, i as int),
                    decreases members.len() - i,
                {
                    if same_text(members[i].0.as_str(), key) {
                        return Some(&members[i].1);
                    }
                    i += 1;
                }
                None
            },
            None => None,
        }
    }
}

/// `serde_json::Error`, carried from the call that failed to where it becomes
/// a refusal; nothing is read from it.
#[verifier::external_type_specification]
#[verifier::external_body]
pub struct ExJsonError(serde_json::Error);

/// `serde_json::Value`, carried between `serde_json` and the documents of this
/// library; nothing is known of what it holds.
#[verifier::external_type_specification]
#[verifier::external_body]
pub struct ExJsonDocument(serde_json::Value);

/// What `serde_json::from_str` reads from a text: the document, or nothing
/// where the text is not JSON.
pub uninterp spec fn parsed_json(text: Seq<char>) -> Option<Json>;

/// What `serde_json::to_string` writes for a document: its compact text, or
/// nothing where it gives up.
pub uninterp spec fn json_text(document: Json) -> Option<Seq<char>>;

/// Moves a `serde_json::Value` into a document, variant by variant. A number
/// is told apart by `Number::as_u64` and `Number::as_i64`; one that is
/// neither is kept as the text that `Number` displays.
#[verifier::external_body]
fn lift(value: Value) -> JsonValue {
    match value {
        Value::Null => JsonValue::Null,
        Value::Bool(b) => JsonValue::Bool(b),
        Value::Number(n) => match (n.as_u64(), n.as_i64()) {
            (Some(u), _) => JsonValue::PosInt(u),
            (None, Some(i)) => JsonValue::NegInt(i),
            (None, None) => JsonValue::Float(n.to_string()),
        },
        Value::String(text) => JsonValue::String(text),
        Value::Array(items) => JsonValue::Array(items.into_iter().map(lift).collect()),
        Value::Object(members) => JsonValue::Object(
            members.into_iter().map(|(key, member)| (key, lift(member))).collect(),
        ),
    }
}

/// Moves a document into a `serde_json::Value`, variant by variant. The text
/// of a number is read back by `serde_json::from_str`; text that is no number
/// becomes `null`.
#[verifier::external_body]
fn lower(document: &JsonValue) -> Value {
    match document {
        JsonValue::Null => Value::Null,
        JsonValue::Bool(b) => Value::Bool(*b),
        JsonValue::PosInt(n) => Value::from(*n),
        JsonValue::NegInt(n) => Value::from(*n),
        JsonValue::Float(text) => serde_json::from_str::<serde_json::Number>(text).map_or(
            Value::Null,
            Value::Number,
        ),
        JsonValue::String(text) => Value::String(text.clone()),
        JsonValue::Array(items) => Value::Array(items.iter().map(lower).collect()),
        JsonValue::Object(members) => Value::Object(
            members.iter().map(|(key, member)| (key.clone(), lower(member))).collect(),
        ),
    }
}

/// `serde_json::from_str`, read as a `serde_json::Value`: the same text gives
/// the same document, or is refused each time.
#[verifier::external_body]
fn value_from_str(text: &str) -> (r: Result<JsonValue, serde_json::Error>)
    ensures
        match r {
            Ok(document) => parsed_json(text@) == Some(document@),
            Err(_) => parsed_json(text@) is None,
        },
{
    serde_json::from_str::<Value>(text).map(lift)
}

/// `serde_json::to_string` of a `serde_json::Value`: the same document gives
/// the same text each time, and the text of an object opens with a brace and
/// closes with one, so it has two characters at least. The serializer calls
/// itself once for every level of nesting, so a document that nests without
/// bound is kept out.
#[verifier::external_body]
fn value_to_string(document: &JsonValue) -> (r: Result<String, serde_json::Error>)
    requires
        nests_within(document@, MAX_NESTING as nat),
    ensures
        match r {
            Ok(text) => json_text(document@) == Some(text@) && (document@ is Object
                ==> text@.len() >= 2),
            Err(_) => json_text(document@) is None,
        },
{
    serde_json::to_string(&lower(document))
}

/// What reading a text gives: the document, or the refusal of a text that is
/// not JSON.
pub open spec fn read_document(parsed: Option<Json>) -> Result<Json, ConfigErrorView> {
    match parsed {
        Some(document) => Ok(document),
        None => Err(
            ConfigErrorView {
                kind: ConfigErrorKind::MalformedJson,
                path: Seq::empty(),
                value: Seq::empty(),
            },
        ),
    }
}

/// Reads a JSON text. The members of an object come in the order in which
/// `serde_json` holds them, each key once.
pub fn from_text(text: &str) -> (r: Result<JsonValue, ConfigError>)
    ensures
        match r {
            Ok(document) => read_document(parsed_json(text@)) == Ok::<Json, ConfigErrorView>(
                document@,
            ),
            Err(e) => read_document(parsed_json(text@)) == Err::<Json, ConfigErrorView>(e@),
        },
{
    match value_from_str(text) {
        Ok(document) => Ok(document),
        Err(_) => Err(ConfigError::bare(ConfigErrorKind::MalformedJson)),
    }
}

/// How deep the arrays and objects of a document may nest for it to be
/// written as text.
pub const MAX_NESTING: usize = 128;

/// Whether the arrays and objects of a document nest at most `depth` deep.
pub open spec fn nests_within(document: Json, depth: nat) -> bool
    decreases depth,
{
    match document {
        Json::Array(items) => depth > 0 && forall|i: int|
            0 <= i < items.len() ==> nests_within(#[trigger] items[i], (depth - 1) as nat),
        Json::Object(members) => depth > 0 && forall|i: int|
            0 <= i < members.len() ==> nests_within(
                (#[trigger] members[i]).1,
                (depth - 1) as nat,
            ),
        _ => true,
    }
}

/// What writing a document gives: the compact text, or the refusal of a
/// document that nests too deep or could not be written.
pub open spec fn written_document(document: Json, text: Option<Seq<char>>) -> Result<
    Seq<char>,
    ConfigErrorView,
> {
    match text {
        Some(text) if nests_within(document, MAX_NESTING as nat) => Ok(text),
        _ => Err(
            ConfigErrorView {
                kind: ConfigErrorKind::Enrichment,
                path: Seq::empty(),
                value: Seq::empty(),
            },
        ),
    }
}

impl JsonValue {
    /// Whether the arrays and objects of the document nest at most `depth`
    /// deep.
    pub fn is_nested_within(&self, depth: usize) -> (r: bool)
        ensures
            r == nests_within(self@, depth as nat),
        decreases depth,
    {
        match self.as_array() {
            Some(items) => {
                if depth == 0 {
                    return false;
                }
                let mut i: usize = 0;
                while i < items.len()
                    invariant
                        i <= items.len(),
                        depth > 0,
                        self@.items() == Some(item_views(items@)),
                        forall|j: int|
                            0 <= j < i ==> nests_within(
                                #[trigger] item_views(items@)[j],
                                (depth - 1) as nat,
                            ),
                    decreases items.len() - i,
                {
                    if !items[i].is_nested_within(depth - 1) {
                        assert(item_views(items@)[i as int] == items@[i as int]@);
                        return false;
                    }
                    assert(item_views(items@)[i as int] == items@[i as int]@);
                    i += 1;
                }
                return true;
            },
            None => {},
        }
        match self.as_object() {
            Some(members) => {
                if depth == 0 {
                    return false;
                }
                let mut i: usize = 0;
                while i < members.len()
                    invariant
                        i <= members.len(),
                        depth > 0,
                        self@.members() == Some(member_views(members@)),
                        forall|j: int|
                            0 <= j < i ==> nests_within(
                                (#[trigger] member_views(members@)[j]).1,
                                (depth - 1) as nat,
                            ),
                    decreases members.len() - i,
                {
                    if !members[i].1.is_nested_within(depth - 1) {
                        assert(member_views(members@)[i as int].1 == members@[i as int].1@);
                        return false;
                    }
                    assert(member_views(members@)[i as int].1 == members@[i as int].1@);
                    i += 1;
                }
                true
            },
            None => true,
        }
    }
}

/// Writes a document as compact JSON text. A document whose arrays and
/// objects nest deeper than `MAX_NESTING` is refused.
pub fn to_text(document: &JsonValue) -> (r: Result<String, ConfigError>)
    ensures
        match r {
            Ok(text) => written_document(document@, json_text(document@)) == Ok::<
                Seq<char>,
                ConfigErrorView,
            >(text@) && (document@ is Object ==> text@.len() >= 2),
            Err(e) => written_document(document@, json_text(document@)) == Err::<
                Seq<char>,
                ConfigErrorView,
            >(e@),
        },
{
    if !document.is_nested_within(MAX_NESTING) {
        return Err(ConfigError::bare(ConfigErrorKind::Enrichment));
    }
    match value_to_string(document) {
        Ok(text) => Ok(text),
        Err(_) => Err(ConfigError::bare(ConfigErrorKind::Enrichment)),
    }
}

} // verus!
