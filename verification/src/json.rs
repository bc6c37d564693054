use vstd::prelude::*;

use crate::strutil::str_eq;

verus! {

/// A JSON document, mirrored into plain library data so that verified code
/// can examine its shape.  The formatter never reads a number's value, so
/// numbers carry none.
pub enum Json {
    Null,
    Bool(bool),
    Num,
    Str(String),
    Arr(Vec<Json>),
    Obj(Vec<(String, Json)>),
}

/// What parsing a text as JSON yields: a function of the text alone.
pub uninterp spec fn spec_parse_json(s: Seq<char>) -> Result<Json, ()>;

/// Relies on `serde_json::from_str::<Value>`: the parse result is
/// determined by the input text alone (object keys come out sorted, so the
/// mirrored entry order is determined too).
#[verifier::external_body]
pub(crate) fn parse_json(s: &str) -> (r: Result<Json, ()>)
    ensures
        r == spec_parse_json(s@),
{
    match serde_json::from_str::<serde_json::Value>(s) {
        Ok(v) => Ok(mirror_value(v)),
        Err(_) => Err(()),
    }
}

/// `serde_json::Value`, declared so that the mirror below may mention it.
#[verifier::external_type_specification]
#[verifier::external_body]
pub struct ExValue(serde_json::Value);

/// Relies on the shape of `serde_json::Value` alone: each variant is moved
/// field-for-field into [`Json`] (a number's value is dropped).
#[verifier::external_body]
fn mirror_value(v: serde_json::Value) -> Json {
    match v {
        serde_json::Value::Null => Json::Null,
        serde_json::Value::Bool(b) => Json::Bool(b),
        serde_json::Value::Number(_) => Json::Num,
        serde_json::Value::String(s) => Json::Str(s),
        serde_json::Value::Array(a) => Json::Arr(a.into_iter().map(mirror_value).collect()),
        serde_json::Value::Object(m) => {
            Json::Obj(m.into_iter().map(|(k, x)| (k, mirror_value(x))).collect())
        },
    }
}

/// The value under `key` in a list of object entries, first match.
pub open spec fn spec_entry_lookup(entries: Seq<(String, Json)>, key: Seq<char>) -> Option<Json>
    decreases entries.len(),
{
    if entries.len() == 0 {
        None
    } else if entries[0].0@ == key {
        Some(entries[0].1)
    } else {
        spec_entry_lookup(entries.drop_first(), key)
    }
}

impl Json {
    /// The value of field `key`, when this is an object that has it.
    pub open spec fn spec_get(self, key: Seq<char>) -> Option<Json> {
        match self {
            Json::Obj(entries) => spec_entry_lookup(entries@, key),
            _ => None,
        }
    }

    /// The element at `i`, when this is an array long enough.
    pub open spec fn spec_at(self, i: int) -> Option<Json> {
        match self {
            Json::Arr(items) => if 0 <= i < items@.len() {
                Some(items@[i])
            } else {
                None
            },
            _ => None,
        }
    }

    /// The characters of this value, when it is a string.
    pub open spec fn spec_str(self) -> Option<Seq<char>> {
        match self {
            Json::Str(s) => Some(s@),
            _ => None,
        }
    }

    /// The string under field `key`, when this is an object whose `key`
    /// field is a string.
    pub open spec fn spec_field_str(self, key: Seq<char>) -> Option<Seq<char>> {
        match self.spec_get(key) {
            Some(v) => v.spec_str(),
            None => None,
        }
    }

    /// Looks `key` up in this value, when it is an object.
    pub fn get<'a>(&'a self, key: &str) -> (r: Option<&'a Json>)
        ensures
            match r {
                Some(v) => self.spec_get(key@) == Some(*v),
                None => self.spec_get(key@) is None,
            },
    {
        match self {
            Json::Obj(entries) => {
                let n = entries.len();
                proof {
                    assert(entries@.subrange(0, n as int) =~= entries@);
                }
                let mut i: usize = 0;
                while i < n
                    invariant
                        i <= n,
                        n == entries@.len(),
                        *self == Json::Obj(*entries),
                        spec_entry_lookup(entries@, key@) == spec_entry_lookup(
                            entries@.subrange(i as int, n as int),
                            key@,
                        ),
                    decreases n - i,
                {
                    proof {
                        assert(entries@.subrange(i as int, n as int).drop_first()
                            =~= entries@.subrange(i + 1, n as int));
                        assert(entries@.subrange(i as int, n as int)[0] == entries@[i as int]);
                    }
                    if str_eq(entries[i].0.as_str(), key) {
                        proof {
                            assert(spec_entry_lookup(entries@.subrange(i as int, n as int), key@)
                                == Some(entries@[i as int].1));
                        }
                        return Some(&entries[i].1);
                    }
                    i += 1;
                }
                proof {
                    assert(entries@.subrange(n as int, n as int).len() == 0);
                }
                None
            },
            _ => None,
        }
    }

    /// The element at `i`, when this is an array long enough.
    pub fn at<'a>(&'a self, i: usize) -> (r: Option<&'a Json>)
        ensures
            match r {
                Some(v) => self.spec_at(i as int) == Some(*v),
                None => self.spec_at(i as int) is None,
            },
    {
        match self {
            Json::Arr(items) => if i < items.len() {
                Some(&items[i])
            } else {
                None
            },
            _ => None,
        }
    }

    /// This value's text, when it is a string.
    pub fn str_value<'a>(&'a self) -> (r: Option<&'a String>)
        ensures
            match r {
                Some(s) => self.spec_str() == Some(s@),
                None => self.spec_str() is None,
            },
    {
        match self {
            Json::Str(s) => Some(s),
            _ => None,
        }
    }

    /// The string under field `key`, when this is an object whose `key`
    /// field is a string.
    pub fn field_str<'a>(&'a self, key: &str) -> (r: Option<&'a String>)
        ensures
            match r {
                Some(s) => self.spec_field_str(key@) == Some(s@),
                None => self.spec_field_str(key@) is None,
            },
    {
        match self.get(key) {
            Some(v) => v.str_value(),
            None => None,
        }
    }
}

/// The strings under field `key` of every element, when every element is an
/// object whose `key` field is a string.
pub open spec fn spec_field_strings(items: Seq<Json>, key: Seq<char>) -> Option<Seq<Seq<char>>>
    decreases items.len(),
{
    if items.len() == 0 {
        Some(Seq::empty())
    } else {
        match items[0].spec_field_str(key) {
            None => None,
            Some(s) => match spec_field_strings(items.drop_first(), key) {
                None => None,
                Some(rest) => Some(seq![s] + rest),
            },
        }
    }
}

/// `spec_field_strings` over the tail of `items` starting at `i`.
fn field_strings_from(items: &Vec<Json>, key: &str, i: usize) -> (r: Option<Vec<Vec<char>>>)
    requires
        i <= items@.len(),
    ensures
        match r {
            Some(v) => spec_field_strings(items@.subrange(i as int, items@.len() as int), key@)
                == Some(v.deep_view()),
            None => spec_field_strings(items@.subrange(i as int, items@.len() as int), key@)
                is None,
        },
    decreases items@.len() - i,
{
    let ghost tail = items@.subrange(i as int, items@.len() as int);
    if i == items.len() {
        let r: Vec<Vec<char>> = Vec::new();
        proof {
            assert(tail.len() == 0);
            assert(r.deep_view() =~~= Seq::<Seq<char>>::empty());
        }
        Some(r)
    } else {
        proof {
            assert(tail[0] == items@[i as int]);
            assert(tail.drop_first() =~= items@.subrange(i + 1, items@.len() as int));
        }
        match items[i].field_str(key) {
            None => None,
            Some(s) => {
                let cs = crate::strutil::chars_of(s.as_str());
                match field_strings_from(items, key, i + 1) {
                    None => None,
                    Some(mut rest) => {
                        rest.insert(0, cs);
                        proof {
                            assert(rest.deep_view() =~~= seq![s@]
                                + spec_field_strings(tail.drop_first(), key@)->Some_0);
                        }
                        Some(rest)
                    },
                }
            },
        }
    }
}

/// The strings under field `key` of every element of `items`.
pub fn field_strings(items: &Vec<Json>, key: &str) -> (r: Option<Vec<Vec<char>>>)
    ensures
        match r {
            Some(v) => spec_field_strings(items@, key@) == Some(v.deep_view()),
            None => spec_field_strings(items@, key@) is None,
        },
{
    proof {
        assert(items@.subrange(0, items@.len() as int) =~= items@);
    }
    field_strings_from(items, key, 0)
}

} // verus!
