use crate::error::{DecodingFault, ErrorBag, Web3ProxyError};
use crate::model::views;
use vstd::prelude::*;

verus! {

/// `serde_json::Value`, the tree that serde_json reads a text into.
#[verifier::external_type_specification]
#[verifier::external_body]
pub struct ExTree(serde_json::Value);

/// `serde_json::Error`, the reason a text was refused.
#[verifier::external_type_specification]
#[verifier::external_body]
pub struct ExTreeError(serde_json::Error);

/// The document that `serde_json::from_str` reads from a text, or `None`
/// where it refuses the text.
pub uninterp spec fn json_parse(text: Seq<char>) -> Option<JsonModel>;

/// The compact text that `serde_json` prints for a document.
pub uninterp spec fn json_print(document: JsonModel) -> Seq<char>;

/// Moves a `serde_json::Value` into a [`JsonValue`], variant by variant. A
/// number becomes the text serde_json prints for it; the members of an
/// object come in the order serde_json holds them.
#[verifier::external_body]
fn from_tree(tree: &serde_json::Value) -> JsonValue {
    match tree {
        serde_json::Value::Null => JsonValue::Null,
        serde_json::Value::Bool(b) => JsonValue::Bool(*b),
        serde_json::Value::Number(n) => JsonValue::Number(n.to_string()),
        serde_json::Value::String(s) => JsonValue::String(s.clone()),
        serde_json::Value::Array(a) => JsonValue::Array(a.iter().map(from_tree).collect()),
        serde_json::Value::Object(m) => JsonValue::Object(
            m.iter().map(|(k, v)| (k.clone(), from_tree(v))).collect(),
        ),
    }
}

/// Moves a [`JsonValue`] into a `serde_json::Value`, variant by variant. A
/// number is read back by serde_json from its text, and is `null` where
/// serde_json refuses the text; of members with one name the last stays.
#[verifier::external_body]
fn to_tree(value: &JsonValue) -> serde_json::Value {
    match value {
        JsonValue::Null => serde_json::Value::Null,
        JsonValue::Bool(b) => serde_json::Value::Bool(*b),
        JsonValue::Number(n) => serde_json::from_str::<serde_json::Number>(n).map_or(
            serde_json::Value::Null,
            serde_json::Value::Number,
        ),
        JsonValue::String(s) => serde_json::Value::String(s.clone()),
        JsonValue::Array(a) => serde_json::Value::Array(a.iter().map(to_tree).collect()),
        JsonValue::Object(m) => serde_json::Value::Object(
            m.iter().map(|(k, v)| (k.clone(), to_tree(v))).collect(),
        ),
    }
}

/// Calls `serde_json::from_str` for a `serde_json::Value`. The contract
/// claims that the outcome depends on the text alone: the document read, by
/// the name [`json_parse`], or the error where that is `None`.
#[verifier::external_body]
fn parse_text(text: &str) -> (r: Result<JsonValue, serde_json::Error>)
    ensures
        match r {
            Ok(value) => json_parse(text@) == Some(value@),
            Err(_) => json_parse(text@) is None,
        },
{
    match serde_json::from_str::<serde_json::Value>(text) {
        Ok(tree) => Ok(from_tree(&tree)),
        Err(error) => Err(error),
    }
}

/// Calls `to_string` of `serde_json::Value`, which prints the compact form.
/// The contract claims that the text depends on the document alone, and
/// gives it the name [`json_print`].
#[verifier::external_body]
fn print_text(value: &JsonValue) -> (r: String)
    ensures
        r@ == json_print(value@),
{
    to_tree(value).to_string()
}

/// Calls `to_string` of `serde_json::Error`: the message with line and
/// column. Nothing is claimed of the text.
#[verifier::external_body]
fn error_text(error: &serde_json::Error) -> String {
    error.to_string()
}

/// Mathematical model of a JSON document.
#[verifier::ext_equal]
pub enum JsonModel {
    Null,
    Bool(bool),
    /// A number, by its literal text.
    Number(Seq<char>),
    String(Seq<char>),
    Array(Seq<JsonModel>),
    /// The members in the order they are held, each a name and a value.
    Object(Seq<(Seq<char>, JsonModel)>),
}

/// The value of the last of the members that bear the name, if any does.
pub open spec fn last_named(members: Seq<(Seq<char>, JsonModel)>, name: Seq<char>) -> Option<
    JsonModel,
>
    decreases members.len(),
{
    if members.len() == 0 {
        None
    } else if members.last().0 == name {
        Some(members.last().1)
    } else {
        last_named(members.drop_last(), name)
    }
}

impl JsonModel {
    /// Whether the document is an array.
    pub open spec fn is_array(self) -> bool {
        self is Array
    }

    /// The value of the member with the given name: of an object that has
    /// one, and of its last where several bear the name.
    pub open spec fn member(self, name: Seq<char>) -> Option<JsonModel> {
        match self {
            JsonModel::Object(members) => last_named(members, name),
            _ => None,
        }
    }

    /// What reading the member gives: its value, or `null` where
    /// [`member`](Self::member) finds none.
    pub open spec fn field(self, name: Seq<char>) -> JsonModel {
        match self.member(name) {
            Some(value) => value,
            None => JsonModel::Null,
        }
    }

    /// The text of a string; `None` for any other document.
    pub open spec fn as_str(self) -> Option<Seq<char>> {
        match self {
            JsonModel::String(text) => Some(text),
            _ => None,
        }
    }

    /// The items of an array; `None` for any other document.
    pub open spec fn as_array(self) -> Option<Seq<JsonModel>> {
        match self {
            JsonModel::Array(items) => Some(items),
            _ => None,
        }
    }
}

/// A JSON document held as a tagged value.
#[derive(Debug, PartialEq, Eq)]
pub enum JsonValue {
    Null,
    Bool(bool),
    /// A number, by its literal text.
    Number(String),
    String(String),
    Array(Vec<JsonValue>),
    /// The members in the order they are held, each a name and a value.
    Object(Vec<(String, JsonValue)>),
}

/// The document a value stands for.
pub open spec fn model_of(v: JsonValue) -> JsonModel
    decreases v,
{
    match v {
        JsonValue::Null => JsonModel::Null,
        JsonValue::Bool(b) => JsonModel::Bool(b),
        JsonValue::Number(text) => JsonModel::Number(text@),
        JsonValue::String(text) => JsonModel::String(text@),
        JsonValue::Array(items) => JsonModel::Array(
            Seq::new(
                items@.len(),
                |i: int|
                    if 0 <= i < items@.len() {
                        model_of(items@[i])
                    } else {
                        JsonModel::Null
                    },
            ),
        ),
        JsonValue::Object(members) => JsonModel::Object(
            Seq::new(
                members@.len(),
                |i: int|
                    if 0 <= i < members@.len() {
                        (members@[i].0@, model_of(members@[i].1))
                    } else {
                        (Seq::empty(), JsonModel::Null)
                    },
            ),
        ),
    }
}

impl View for JsonValue {
    type V = JsonModel;

    open spec fn view(&self) -> JsonModel {
        model_of(*self)
    }
}

impl JsonValue {
    /// Reads a JSON text. Succeeds exactly on the texts that serde_json
    /// accepts, with the document it reads.
    pub fn parse(text: &str) -> (r: Result<JsonValue, Web3ProxyError>)
        ensures
            match r {
                Ok(value) => json_parse(text@) == Some(value@),
                Err(e) => json_parse(text@) is None && e.inner matches ErrorBag::DecodingError(
                    DecodingFault::NotJson(_),
                ),
            },
    {
        match parse_text(text) {
            Ok(value) => Ok(value),
            Err(error) => Err(
                Web3ProxyError::new(
                    ErrorBag::DecodingError(DecodingFault::NotJson(error_text(&error))),
                ),
            ),
        }
    }

    /// Whether the value is an array.
    pub fn is_array(&self) -> (r: bool)
        ensures
            r == self@.is_array(),
    {
        match self {
            JsonValue::Array(_) => true,
            _ => false,
        }
    }

    /// The value of the member with the given name, where this is an object
    /// that has one; the last of them where several bear the name.
    pub fn member(&self, name: &str) -> (r: Option<&JsonValue>)
        ensures
            match r {
                Some(value) => self@.member(name@) == Some(value@),
                None => self@.member(name@) is None,
            },
    {
        match self {
            JsonValue::Object(members) => {
                let wanted = name.to_owned();
                let ghost all = self@->Object_0;
                let mut i: usize = members.len();
                assert(all.take(i as int) == all);
                while i > 0
                    invariant
                        i <= members.len(),
                        wanted@ == name@,
                        self@.member(name@) == last_named(all, name@),
                        all.len() == members@.len(),
                        forall|j: int|
                            0 <= j < members@.len() ==> #[trigger] all[j] == (
                                members@[j].0@,
                                members@[j].1@,
                            ),
                        last_named(all, name@) == last_named(all.take(i as int), name@),
                    decreases i,
                {
                    assert(all.take(i as int).drop_last() == all.take(i - 1));
                    if members[i - 1].0 == wanted {
                        return Some(&members[i - 1].1);
                    }
                    i -= 1;
                }
                None
            },
            _ => None,
        }
    }

    /// The text of a string; `None` for any other value.
    pub fn as_str(&self) -> (r: Option<&str>)
        ensures
            match r {
                Some(text) => self@.as_str() == Some(text@),
                None => self@.as_str() is None,
            },
    {
        match self {
            JsonValue::String(text) => Some(text.as_str()),
            _ => None,
        }
    }

    /// The items of an array; `None` for any other value.
    pub fn as_array(&self) -> (r: Option<&Vec<JsonValue>>)
        ensures
            match r {
                Some(items) => self@.as_array() == Some(views(items@)),
                None => self@.as_array() is None,
            },
    {
        match self {
            JsonValue::Array(items) => {
                Some(items)
            },
            _ => None,
        }
    }

    /// The compact JSON text of the value.
    pub fn to_text(&self) -> (r: String)
        ensures
            r@ == json_print(self@),
    {
        print_text(self)
    }
}

/// Copies a run of values one by one: the same documents in the same order.
pub fn clone_items(items: &Vec<JsonValue>) -> (copy: Vec<JsonValue>)
    ensures
        views(copy@) == views(items@),
    decreases items,
{
    let mut copy: Vec<JsonValue> = Vec::new();
    let mut i: usize = 0;
    while i < items.len()
        invariant
            i <= items.len(),
            copy.len() == i,
            forall|j: int| 0 <= j < i ==> (#[trigger] copy@[j])@ == items@[j]@,
        decreases items.len() - i,
    {
        copy.push(items[i].clone());
        i += 1;
    }
    copy
}

/// Copies the members of an object one by one.
fn clone_members(members: &Vec<(String, JsonValue)>) -> (copy: Vec<(String, JsonValue)>)
    ensures
        copy@.len() == members@.len(),
        forall|j: int|
            0 <= j < members@.len() ==> (#[trigger] copy@[j]).0@ == members@[j].0@ && copy@[j].1@
                == members@[j].1@,
    decreases members,
{
    let mut copy: Vec<(String, JsonValue)> = Vec::new();
    let mut i: usize = 0;
    while i < members.len()
        invariant
            i <= members.len(),
            copy.len() == i,
            forall|j: int|
                0 <= j < i ==> (#[trigger] copy@[j]).0@ == members@[j].0@ && copy@[j].1@
                    == members@[j].1@,
        decreases members.len() - i,
    {
        let name = members[i].0.clone();
        let value = members[i].1.clone();
        copy.push((name, value));
        i += 1;
    }
    copy
}

impl Clone for JsonValue {
    /// A deep copy: the same document.
    fn clone(&self) -> (r: JsonValue)
        ensures
            r@ == self@,
        decreases self,
    {
        match self {
            JsonValue::Null => JsonValue::Null,
            JsonValue::Bool(b) => JsonValue::Bool(*b),
            JsonValue::Number(text) => JsonValue::Number(text.clone()),
            JsonValue::String(text) => JsonValue::String(text.clone()),
            JsonValue::Array(items) => {
                let copy = clone_items(items);
                assert(copy@.len() == views(copy@).len());
                assert(items@.len() == views(items@).len());
                assert forall|j: int| 0 <= j < items@.len() implies (#[trigger] copy@[j])@
                    == items@[j]@ by {
                    assert(views(copy@)[j] == copy@[j]@);
                    assert(views(items@)[j] == items@[j]@);
                }
                let r = JsonValue::Array(copy);
                assert(r@->Array_0 =~= self@->Array_0);
                r
            },
            JsonValue::Object(members) => {
                let r = JsonValue::Object(clone_members(members));
                assert(r@->Object_0 =~= self@->Object_0);
                r
            },
        }
    }
}

} // verus!
