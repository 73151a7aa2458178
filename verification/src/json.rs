//! Parsed JSON values.

use vstd::prelude::*;

use crate::text;

verus! {

/// A JSON value.
#[derive(Debug)]
pub enum Json {
    Null,
    Bool(bool),
    /// A number, by the bits of its IEEE 754 double and by those of the single to which
    /// that double is rounded.
    Number { double: u64, single: u32 },
    Text(String),
    List(Vec<Json>),
    /// The fields of an object, in order.
    Fields(Vec<(String, Json)>),
}

/// The value of the first of `fields` that is called `key`.
pub open spec fn field_called(fields: Seq<(String, Json)>, key: Seq<char>) -> Option<Json>
    decreases fields.len(),
{
    if fields.len() == 0 {
        None
    } else if fields[0].0@ == key {
        Some(fields[0].1)
    } else {
        field_called(fields.skip(1), key)
    }
}

impl Json {
    /// The field of an object that is called `key`.
    pub open spec fn field(self, key: Seq<char>) -> Option<Json> {
        match self {
            Json::Fields(fields) => field_called(fields@, key),
            _ => None,
        }
    }

    /// The text of the field of an object that is called `key`.
    pub open spec fn text_field(self, key: Seq<char>) -> Option<Seq<char>> {
        match self.field(key) {
            Some(Json::Text(t)) => Some(t@),
            _ => None,
        }
    }

    /// The items of the field of an object that is called `key`.
    pub open spec fn list_field(self, key: Seq<char>) -> Option<Seq<Json>> {
        match self.field(key) {
            Some(Json::List(items)) => Some(items@),
            _ => None,
        }
    }

    /// The field of an object that is called `key`.
    pub fn get<'a>(&'a self, key: &str) -> (r: Option<&'a Json>)
        ensures
            match r {
                Some(value) => self.field(key@) == Some(*value),
                None => self.field(key@) is None,
            },
    {
        match self {
            Json::Fields(fields) => {
                let mut i: usize = 0;
                assert(fields@.skip(0) =~= fields@);
                while i < fields.len()
                    invariant
                        i <= fields@.len(),
                        self.field(key@) == field_called(fields@.skip(i as int), key@),
                    decreases fields@.len() - i,
                {
                    let ghost rest = fields@.skip(i as int);
                    assert(rest[0] == fields@[i as int]);
                    assert(rest.skip(1) =~= fields@.skip(i + 1));
                    if text::same_text(fields[i].0.as_str(), key) {
                        return Some(&fields[i].1);
                    }
                    i = i + 1;
                }
                None
            },
            _ => None,
        }
    }

    /// The text of the field of an object that is called `key`.
    pub fn get_text<'a>(&'a self, key: &str) -> (r: Option<&'a String>)
        ensures
            match r {
                Some(t) => self.text_field(key@) == Some(t@),
                None => self.text_field(key@) is None,
            },
    {
        match self.get(key) {
            Some(Json::Text(t)) => Some(t),
            _ => None,
        }
    }

    /// The items of the field of an object that is called `key`.
    pub fn get_list<'a>(&'a self, key: &str) -> (r: Option<&'a Vec<Json>>)
        ensures
            match r {
                Some(items) => self.list_field(key@) == Some(items@),
                None => self.list_field(key@) is None,
            },
    {
        match self.get(key) {
            Some(Json::List(items)) => Some(items),
            _ => None,
        }
    }
}

// ── Laws ─────────────────────────────────────────────────────────────────────

/// The field of a name is the first of that name, at whatever position; what is no object, or
/// has no field of the name, has none.
pub proof fn law_first_field_of_a_name_is_found(fields: Vec<(String, Json)>, i: int, key: Seq<char>)
    ensures
        0 <= i < fields@.len() && fields@[i].0@ == key && (forall|k: int|
            0 <= k < i ==> (#[trigger] fields@[k]).0@ != key) ==> Json::Fields(fields).field(key)
            == Some(fields@[i].1),
        (forall|k: int| 0 <= k < fields@.len() ==> (#[trigger] fields@[k]).0@ != key)
            ==> Json::Fields(fields).field(key) is None,
{
    lemma_field_at(fields@, i, key);
}

/// The same of a sequence of fields.
proof fn lemma_field_at(fields: Seq<(String, Json)>, i: int, key: Seq<char>)
    ensures
        0 <= i < fields.len() && fields[i].0@ == key && (forall|k: int|
            0 <= k < i ==> (#[trigger] fields[k]).0@ != key) ==> field_called(fields, key) == Some(
            fields[i].1,
        ),
        (forall|k: int| 0 <= k < fields.len() ==> (#[trigger] fields[k]).0@ != key)
            ==> field_called(fields, key) is None,
    decreases fields.len(),
{
    if fields.len() > 0 {
        let rest = fields.skip(1);
        lemma_field_at(rest, i - 1, key);
        if fields[0].0@ != key {
            if 0 < i < fields.len() {
                assert(rest[i - 1] == fields[i]);
                if forall|k: int| 0 <= k < i ==> (#[trigger] fields[k]).0@ != key {
                    assert forall|k: int| 0 <= k < i - 1 implies (#[trigger] rest[k]).0@ != key by {
                        assert(rest[k] == fields[k + 1]);
                    }
                }
            }
            if forall|k: int| 0 <= k < fields.len() ==> (#[trigger] fields[k]).0@ != key {
                assert forall|k: int| 0 <= k < rest.len() implies (#[trigger] rest[k]).0@ != key by {
                    assert(rest[k] == fields[k + 1]);
                }
            }
        }
    }
}

/// A field is read as a text exactly where it is one, and as a list exactly where it is one;
/// only an object has fields.
pub proof fn law_field_is_read_by_its_kind(value: Json, key: Seq<char>)
    ensures
        value.field(key) matches Some(Json::Text(t)) ==> value.text_field(key) == Some(t@),
        value.text_field(key) is Some ==> value.field(key) is Some && value.field(key)->0 is Text,
        value.field(key) matches Some(Json::List(items)) ==> value.list_field(key) == Some(items@),
        value.list_field(key) is Some ==> value.field(key) is Some && value.field(key)->0 is List,
        !(value is Fields) ==> value.field(key) is None,
{
}

} // verus!
