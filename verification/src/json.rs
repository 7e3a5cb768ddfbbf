//! The document tree: a tagged-variant JSON value, its mathematical model,
//! and the two checked field extractions the resolver needs.

use vstd::prelude::*;

verus! {

broadcast use vstd::std_specs::vec::group_vec_axioms, vstd::seq::group_seq_axioms;

/// A structured document value. Numbers carry their decimal text verbatim so
/// that a value read from disk is written back unchanged.
#[derive(Debug, PartialEq)]
pub enum JsonValue {
    Null,
    Bool(bool),
    /// The number's literal text, e.g. `"3.25"`, emitted verbatim on write.
    Number(String),
    Str(String),
    Array(Vec<JsonValue>),
    Object(Vec<(String, JsonValue)>),
}

/// The mathematical model of a `JsonValue`.
pub enum JsonModel {
    Null,
    Bool(bool),
    Number(Seq<char>),
    Str(Seq<char>),
    Array(Seq<JsonModel>),
    Object(Seq<(Seq<char>, JsonModel)>),
}

pub open spec fn json_model(v: JsonValue) -> JsonModel
    decreases v,
{
    match v {
        JsonValue::Null => JsonModel::Null,
        JsonValue::Bool(b) => JsonModel::Bool(b),
        JsonValue::Number(s) => JsonModel::Number(s@),
        JsonValue::Str(s) => JsonModel::Str(s@),
        JsonValue::Array(items) => JsonModel::Array(
            Seq::new(
                items@.len(),
                |i: int|
                    if 0 <= i < items@.len() {
                        json_model(items@[i])
                    } else {
                        JsonModel::Null
                    },
            ),
        ),
        JsonValue::Object(entries) => JsonModel::Object(
            Seq::new(
                entries@.len(),
                |i: int|
                    if 0 <= i < entries@.len() {
                        (entries@[i].0@, json_model(entries@[i].1))
                    } else {
                        (Seq::<char>::empty(), JsonModel::Null)
                    },
            ),
        ),
    }
}

impl View for JsonValue {
    type V = JsonModel;

    open spec fn view(&self) -> JsonModel {
        json_model(*self)
    }
}

/// The value under `key` in an entry list, first match first, or `None`.
pub open spec fn obj_lookup(entries: Seq<(Seq<char>, JsonModel)>, key: Seq<char>) -> Option<JsonModel>
    decreases entries.len(),
{
    if entries.len() == 0 {
        None
    } else if entries[0].0 == key {
        Some(entries[0].1)
    } else {
        obj_lookup(entries.drop_first(), key)
    }
}

/// Field extraction: the value under `key` when `m` is an object that has it.
pub open spec fn get_field(m: JsonModel, key: Seq<char>) -> Option<JsonModel> {
    match m {
        JsonModel::Object(entries) => obj_lookup(entries, key),
        _ => None,
    }
}

proof fn lemma_obj_lookup_step(entries: Seq<(Seq<char>, JsonModel)>, key: Seq<char>, i: int)
    requires
        0 <= i < entries.len(),
        forall|j: int| 0 <= j < i ==> entries[j].0 != key,
    ensures
        obj_lookup(entries, key) == obj_lookup(entries.skip(i), key),
    decreases i,
{
    if i > 0 {
        lemma_obj_lookup_step(entries, key, i - 1);
        assert(entries.skip(i - 1)[0] == entries[i - 1]);
        assert(entries.skip(i - 1).drop_first() =~= entries.skip(i));
    } else {
        assert(entries.skip(0) =~= entries);
    }
}

/// Character-for-character string equality, proved against the views.
pub fn str_eq(a: &str, b: &str) -> (r: bool)
    ensures
        r == (a@ == b@),
{
    let n = a.unicode_len();
    if n != b.unicode_len() {
        return false;
    }
    let mut i: usize = 0;
    while i < n
        invariant
            i <= n,
            n == a@.len(),
            n == b@.len(),
            forall|j: int| 0 <= j < i ==> a@[j] == b@[j],
        decreases n - i,
    {
        if a.get_char(i) != b.get_char(i) {
            return false;
        }
        i = i + 1;
    }
    proof {
        assert(a@ =~= b@);
    }
    true
}

impl JsonValue {
    /// The value of `key` when this is an object containing it, as in the
    /// model's `get_field`.
    pub fn get<'a>(&'a self, key: &str) -> (r: Option<&'a JsonValue>)
        ensures
            match r {
                Some(v) => get_field(self@, key@) == Some(v@),
                None => get_field(self@, key@) is None,
            },
    {
        match self {
            JsonValue::Object(entries) => {
                proof {
                    assert(*self == JsonValue::Object(*entries));
                }
                let ghost model_entries = self@->Object_0;
                let n = entries.len();
                let mut i: usize = 0;
                while i < n
                    invariant
                        i <= n,
                        n == entries@.len(),
                        self@ == JsonModel::Object(model_entries),
                        model_entries.len() == entries@.len(),
                        forall|k: int|
                            0 <= k < entries@.len() ==> model_entries[k] == (
                                entries@[k].0@,
                                json_model(entries@[k].1),
                            ),
                        forall|j: int| 0 <= j < i ==> model_entries[j].0 != key@,
                    decreases n - i,
                {
                    if str_eq(entries[i].0.as_str(), key) {
                        proof {
                            lemma_obj_lookup_step(model_entries, key@, i as int);
                            assert(model_entries.skip(i as int)[0] == model_entries[i as int]);
                            assert(model_entries[i as int]
                                == (entries@[i as int].0@, json_model(entries@[i as int].1)));
                            assert(obj_lookup(model_entries.skip(i as int), key@)
                                == Some(model_entries[i as int].1));
                        }
                        return Some(&entries[i].1);
                    }
                    i = i + 1;
                }
                proof {
                    if n > 0 {
                        lemma_obj_lookup_step(model_entries, key@, n as int - 1);
                        assert(model_entries.skip(n as int - 1)[0] == model_entries[n as int - 1]);
                        assert(model_entries.skip(n as int - 1).drop_first() =~= model_entries.skip(
                            n as int,
                        ));
                        assert(model_entries.skip(n as int).len() == 0);
                        assert(obj_lookup(model_entries.skip(n as int), key@) is None);
                    }
                }
                None
            },
            _ => None,
        }
    }

    /// The item list when this is an array.
    pub fn as_array<'a>(&'a self) -> (r: Option<&'a Vec<JsonValue>>)
        ensures
            match r {
                Some(items) => {
                    &&& self@ is Array
                    &&& self@->Array_0.len() == items@.len()
                    &&& forall|i: int|
                        0 <= i < items@.len() ==> self@->Array_0[i] == json_model(items@[i])
                },
                None => !(self@ is Array),
            },
    {
        match self {
            JsonValue::Array(items) => {
                proof {
                    assert(*self == JsonValue::Array(*items));
                    assert(self@ is Array);
                }
                Some(items)
            },
            _ => None,
        }
    }

    /// The text when this is a string.
    pub fn as_str<'a>(&'a self) -> (r: Option<&'a String>)
        ensures
            match r {
                Some(s) => self@ == JsonModel::Str(s@),
                None => !(self@ is Str),
            },
    {
        match self {
            JsonValue::Str(s) => Some(s),
            _ => None,
        }
    }
}

} // verus!
