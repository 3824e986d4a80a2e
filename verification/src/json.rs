//! JSON documents as plain values: what the JSON-RPC endpoint answers and
//! what is posted to it.

use vstd::prelude::*;
use crate::hex::chars_of;

verus! {

/// A JSON document as a mathematical value.
pub enum JsonValue {
    Null,
    Bool(bool),
    /// A number that is a whole number of the signed 64-bit range.
    Integer(int),
    /// Any other number, by its text.
    Fraction(Seq<char>),
    Text(Seq<char>),
    Array(Seq<JsonValue>),
    /// The members in document order.
    Object(Seq<(Seq<char>, JsonValue)>),
}

/// A JSON document.
#[derive(Debug)]
pub enum Json {
    Null,
    Bool(bool),
    /// A number that is a whole number of the signed 64-bit range.
    Integer(i64),
    /// Any other number, by its text.
    Fraction(String),
    Text(String),
    Array(Vec<Json>),
    /// The members in document order.
    Object(Vec<(String, Json)>),
}

/// The value of the first member named `key`, if there is one.
pub open spec fn member(members: Seq<(Seq<char>, JsonValue)>, key: Seq<char>) -> Option<JsonValue>
    decreases members.len(),
{
    if members.len() == 0 {
        None
    } else if members[0].0 == key {
        Some(members[0].1)
    } else {
        member(members.skip(1), key)
    }
}

impl JsonValue {
    /// The member named `key` of an object: the first of that name. `None`
    /// where the document is no object or has no such member.
    pub open spec fn find(self, key: Seq<char>) -> Option<JsonValue> {
        match self {
            JsonValue::Object(members) => member(members, key),
            _ => None,
        }
    }

    /// The member named `key` of an object; `Null` where the document is no
    /// object or has no such member.
    pub open spec fn get(self, key: Seq<char>) -> JsonValue {
        match self.find(key) {
            Some(v) => v,
            None => JsonValue::Null,
        }
    }

    /// The text of a string document.
    pub open spec fn as_text(self) -> Option<Seq<char>> {
        match self {
            JsonValue::Text(s) => Some(s),
            _ => None,
        }
    }

    /// The text of a string document; the empty text for any other.
    pub open spec fn text_or_empty(self) -> Seq<char> {
        match self {
            JsonValue::Text(s) => s,
            _ => Seq::empty(),
        }
    }

    /// The items of an array document.
    pub open spec fn as_array(self) -> Option<Seq<JsonValue>> {
        match self {
            JsonValue::Array(items) => Some(items),
            _ => None,
        }
    }

    /// The number of an integer document.
    pub open spec fn as_integer(self) -> Option<int> {
        match self {
            JsonValue::Integer(n) => Some(n),
            _ => None,
        }
    }
}

impl View for Json {
    type V = JsonValue;

    open spec fn view(&self) -> JsonValue
        decreases self,
    {
        // Positions outside an array or object never count; they are told
        // apart so that the definition is seen to terminate.
        match self {
            Json::Null => JsonValue::Null,
            Json::Bool(b) => JsonValue::Bool(*b),
            Json::Integer(n) => JsonValue::Integer(*n as int),
            Json::Fraction(s) => JsonValue::Fraction(s@),
            Json::Text(s) => JsonValue::Text(s@),
            Json::Array(items) => JsonValue::Array(
                Seq::new(
                    items@.len(),
                    |i: int|
                        if 0 <= i < items@.len() {
                            items@[i]@
                        } else {
                            JsonValue::Null
                        },
                ),
            ),
            Json::Object(members) => JsonValue::Object(
                Seq::new(
                    members@.len(),
                    |i: int|
                        (
                            members@[i].0@,
                            if 0 <= i < members@.len() {
                                members@[i].1@
                            } else {
                                JsonValue::Null
                            },
                        ),
                ),
            ),
        }
    }
}

/// The text of the member `key` of a document; the empty text where the
/// member is missing or no string.
pub open spec fn text_field(doc: JsonValue, key: Seq<char>) -> Seq<char> {
    doc.get(key).text_or_empty()
}

/// The values of a sequence of documents.
pub open spec fn values(items: Seq<Json>) -> Seq<JsonValue> {
    Seq::new(items.len(), |i: int| items[i]@)
}

/// The names and values of a sequence of members.
pub open spec fn member_values(members: Seq<(String, Json)>) -> Seq<(Seq<char>, JsonValue)> {
    Seq::new(members.len(), |i: int| (members[i].0@, members[i].1@))
}

/// The value of an array is made of the values of its items.
pub proof fn lemma_array_value(items: Vec<Json>)
    ensures
        Json::Array(items)@ == JsonValue::Array(values(items@)),
{
    assert(Json::Array(items)@->Array_0 =~= values(items@));
}

/// The value of an object is made of the names and values of its members.
pub proof fn lemma_object_value(members: Vec<(String, Json)>)
    ensures
        Json::Object(members)@ == JsonValue::Object(member_values(members@)),
{
    assert(Json::Object(members)@->Object_0 =~= member_values(members@));
}

/// Whether two texts are the same.
pub fn same_text(a: &str, b: &str) -> (r: bool)
    ensures
        r == (a@ == b@),
{
    let x = chars_of(a);
    let y = chars_of(b);
    if x.len() != y.len() {
        return false;
    }
    let mut i: usize = 0;
    while i < x.len()
        invariant
            i <= x.len(),
            x.len() == y.len(),
            x@ == a@,
            y@ == b@,
            forall|j: int| 0 <= j < i ==> x@[j] == y@[j],
        decreases x.len() - i,
    {
        if x[i] != y[i] {
            return false;
        }
        i = i + 1;
    }
    assert(x@ =~= y@);
    true
}

impl Json {
    /// The member named `key` of an object: the first of that name.
    /// `None` where the document is no object or has no such member.
    pub fn get(&self, key: &str) -> (r: Option<&Json>)
        ensures
            match r {
                Some(v) => self@.find(key@) == Some(v@),
                None => self@.find(key@) is None,
            },
    {
        match self {
            Json::Object(members) => {
                let ghost all = member_values(members@);
                let mut i: usize = 0;
                proof {
                    lemma_object_value(*members);
                    assert(all.skip(0) == all);
                }
                while i < members.len()
                    invariant
                        i <= members.len(),
                        self@ == JsonValue::Object(all),
                        all == member_values(members@),
                        member(all, key@) == member(all.skip(i as int), key@),
                    decreases members.len() - i,
                {
                    let ghost rest = all.skip(i as int);
                    assert(rest[0] == all[i as int]);
                    assert(rest.skip(1) == all.skip(i + 1));
                    if same_text(members[i].0.as_str(), key) {
                        return Some(&members[i].1);
                    }
                    i = i + 1;
                }
                None
            },
            _ => None,
        }
    }

    /// The text of a string document.
    pub fn as_str(&self) -> (r: Option<&str>)
        ensures
            match r {
                Some(s) => self@.as_text() == Some(s@),
                None => self@.as_text() is None,
            },
    {
        match self {
            Json::Text(s) => Some(s.as_str()),
            _ => None,
        }
    }

    /// The items of an array document.
    pub fn as_array(&self) -> (r: Option<&Vec<Json>>)
        ensures
            match r {
                Some(items) => self@.as_array() == Some(values(items@)),
                None => self@.as_array() is None,
            },
    {
        match self {
            Json::Array(items) => {
                proof {
                    lemma_array_value(*items);
                }
                Some(items)
            },
            _ => None,
        }
    }

    /// The text of the member named `key`, where that member is a string.
    pub fn text_of(&self, key: &str) -> (r: Option<&str>)
        ensures
            match r {
                Some(s) => self@.get(key@).as_text() == Some(s@),
                None => self@.get(key@).as_text() is None,
            },
    {
        match self.get(key) {
            Some(v) => v.as_str(),
            None => None,
        }
    }

    /// Whether the document is `null`.
    pub fn is_null(&self) -> (r: bool)
        ensures
            r == (self@ == JsonValue::Null),
    {
        match self {
            Json::Null => true,
            _ => false,
        }
    }

    /// The number of an integer document.
    pub fn as_i64(&self) -> (r: Option<i64>)
        ensures
            match r {
                Some(n) => self@.as_integer() == Some(n as int),
                None => self@.as_integer() is None,
            },
    {
        match self {
            Json::Integer(n) => Some(*n),
            _ => None,
        }
    }
}

/// The text of the member `key`; the empty text where the member is
/// missing or no string.
pub fn text_field_of(doc: &Json, key: &str) -> (r: String)
    ensures
        r@ == text_field(doc@, key@),
{
    match doc.text_of(key) {
        Some(s) => s.to_owned(),
        None => String::new(),
    }
}

} // verus!
