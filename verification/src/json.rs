//! JSON values, which `serde_json` parses, holds and prints.

use crate::pairs;
use vstd::prelude::*;

verus! {

/// What a JSON value holds.
pub enum Json {
    Null,
    Bool(bool),
    /// A number: the text that it is printed as, and its value where it is an
    /// integer that fits.
    Number(Seq<char>, Option<i64>),
    Str(Seq<char>),
    Array(Seq<Json>),
    Object(Map<Seq<char>, Json>),
}

impl Json {
    /// The member of an object with the given key.
    pub open spec fn member(self, key: Seq<char>) -> Option<Json> {
        match self {
            Json::Object(members) => members.get(key),
            _ => None,
        }
    }

    /// The characters of a string.
    pub open spec fn str(self) -> Option<Seq<char>> {
        match self {
            Json::Str(s) => Some(s),
            _ => None,
        }
    }

    /// The items of an array.
    pub open spec fn items(self) -> Option<Seq<Json>> {
        match self {
            Json::Array(items) => Some(items),
            _ => None,
        }
    }

    /// The value of an integer.
    pub open spec fn integer(self) -> Option<i64> {
        match self {
            Json::Number(_, n) => n,
            _ => None,
        }
    }

    /// The characters of the member with the given key, where that is a string.
    pub open spec fn str_member(self, key: Seq<char>) -> Option<Seq<char>> {
        match self.member(key) {
            Some(value) => value.str(),
            None => None,
        }
    }

    /// The members of an object that are strings.
    pub open spec fn str_members(self) -> Map<Seq<char>, Seq<char>> {
        Map::new(|key: Seq<char>| self.str_member(key) is Some, |key: Seq<char>| self.str_member(key)->0)
    }
}

/// A JSON value of `serde_json`.
#[verifier::external_type_specification]
#[verifier::external_body]
pub struct ExValue(serde_json::Value);

/// What a `serde_json::Value` holds: the variant it is of, and its contents
/// with nested values taken in the same way.
pub uninterp spec fn json_tree(v: serde_json::Value) -> Json;

/// The value that `serde_json::from_str` reads in a text, or `None` where it
/// reports an error.
pub uninterp spec fn parsed_json(text: Seq<char>) -> Option<Json>;

/// The compact text that `serde_json` prints for a value.
pub uninterp spec fn json_text(value: Json) -> Seq<char>;

/// What the values of a list hold.
pub open spec fn json_trees(values: Seq<serde_json::Value>) -> Seq<Json> {
    values.map_values(|v: serde_json::Value| json_tree(v))
}

/// `serde_json::from_str`, asked for a `Value`: the value that the text holds,
/// or `None` where the text is not one JSON value. The reason is dropped.
#[verifier::external_body]
pub(crate) fn value_from_str(text: &str) -> (r: Option<serde_json::Value>)
    ensures
        match r {
            Some(v) => parsed_json(text@) == Some(json_tree(v)),
            None => parsed_json(text@) is None,
        },
{
    serde_json::from_str::<serde_json::Value>(text).ok()
}

/// `Value::get` with a string index: the member of an object with that key, and
/// `None` where there is no such member or the value is no object.
#[verifier::external_body]
pub(crate) fn member<'a>(v: &'a serde_json::Value, key: &str) -> (r: Option<&'a serde_json::Value>)
    ensures
        match r {
            Some(m) => json_tree(*v).member(key@) == Some(json_tree(*m)),
            None => json_tree(*v).member(key@) is None,
        },
{
    v.get(key)
}

/// `Value::as_str`: the characters of a string, `None` for any other value.
pub assume_specification[ serde_json::Value::as_str ](v: &serde_json::Value) -> (r: Option<&str>)
    ensures
        match r {
            Some(s) => json_tree(*v).str() == Some(s@),
            None => json_tree(*v).str() is None,
        },
;

/// `Value::as_array`: the items of an array, `None` for any other value.
pub assume_specification[ serde_json::Value::as_array ](v: &serde_json::Value) -> (r: Option<
    &Vec<serde_json::Value>,
>)
    ensures
        match r {
            Some(items) => json_tree(*v).items() == Some(json_trees(items@)),
            None => json_tree(*v).items() is None,
        },
;

/// `Value::as_i64`: the value of an integer that fits, `None` for a larger one,
/// for a number that is no integer and for any other value.
pub assume_specification[ serde_json::Value::as_i64 ](v: &serde_json::Value) -> (r: Option<i64>)
    ensures
        r == json_tree(*v).integer(),
;

/// `Value::as_object` and `Map::iter`: each member of an object once, with its
/// key, in no stated order; `None` where the value is no object.
#[verifier::external_body]
fn members<'a>(v: &'a serde_json::Value) -> (r: Option<Vec<(String, &'a serde_json::Value)>>)
    ensures
        match r {
            Some(list) => {
                &&& json_tree(*v) is Object
                &&& forall|i: int|
                    #![trigger list@[i]]
                    0 <= i < list@.len() ==> json_tree(*v).member(list@[i].0@) == Some(
                        json_tree(*list@[i].1),
                    )
                &&& forall|i: int, j: int|
                    #![trigger list@[i], list@[j]]
                    0 <= i < j < list@.len() ==> list@[i].0@ != list@[j].0@
                &&& forall|key: Seq<char>| #[trigger]
                    json_tree(*v).member(key) is Some ==> exists|i: int|
                        #![trigger list@[i]]
                        0 <= i < list@.len() && list@[i].0@ == key
            },
            None => !(json_tree(*v) is Object),
        },
{
    v.as_object().map(|map| map.iter().map(|(key, value)| (key.clone(), value)).collect())
}

/// The `Display` of a `Value`, through `to_string`: its compact JSON text.
#[verifier::external_body]
pub(crate) fn value_text(v: &serde_json::Value) -> (r: String)
    ensures
        r@ == json_text(json_tree(*v)),
{
    v.to_string()
}

/// The characters of the member with the given key, where that is a string.
pub(crate) fn str_member<'a>(v: &'a serde_json::Value, key: &str) -> (r: Option<&'a str>)
    ensures
        match r {
            Some(s) => json_tree(*v).str_member(key@) == Some(s@),
            None => json_tree(*v).str_member(key@) is None,
        },
{
    match member(v, key) {
        Some(m) => m.as_str(),
        None => None,
    }
}

/// The entries of a list whose values are strings.
spec fn str_entries(list: Seq<(Seq<char>, Json)>) -> Seq<(Seq<char>, Seq<char>)>
    decreases list.len(),
{
    if list.len() == 0 {
        seq![]
    } else {
        match list.last().1.str() {
            Some(s) => str_entries(list.drop_last()).push((list.last().0, s)),
            None => str_entries(list.drop_last()),
        }
    }
}

/// The entries of a list of members, by what they hold.
spec fn entries_view(list: Seq<(String, &serde_json::Value)>) -> Seq<(Seq<char>, Json)> {
    list.map_values(|e: (String, &serde_json::Value)| (e.0@, json_tree(*e.1)))
}

/// Picking the strings of a list keeps its keys apart, and the map of what is
/// left gives a key the string that the list gives it.
proof fn lemma_str_entries(list: Seq<(Seq<char>, Json)>, key: Seq<char>)
    requires
        pairs::distinct_keys(list),
    ensures
        pairs::distinct_keys(str_entries(list)),
        pairs::pairs_map(str_entries(list)).get(key) == (match pairs::pairs_map(list).get(key) {
            Some(value) => value.str(),
            None => None,
        }),
        forall|i: int|
            #![trigger str_entries(list)[i]]
            0 <= i < str_entries(list).len() ==> exists|j: int|
                #![trigger list[j]]
                0 <= j < list.len() && list[j].0 == str_entries(list)[i].0,
    decreases list.len(),
{
    if list.len() > 0 {
        let rest = list.drop_last();
        let last = list.last();
        assert forall|i: int, j: int|
            #![trigger rest[i], rest[j]]
            0 <= i < j < rest.len() implies rest[i].0 != rest[j].0 by {
            assert(rest[i] == list[i] && rest[j] == list[j]);
        }
        lemma_str_entries(rest, key);
        let done = str_entries(rest);
        assert forall|i: int|
            #![trigger done[i]]
            0 <= i < done.len() implies done[i].0 != last.0 && exists|j: int|
            #![trigger list[j]]
            0 <= j < list.len() && list[j].0 == done[i].0 by {
            let j = choose|j: int|
                #![trigger rest[j]]
                0 <= j < rest.len() && rest[j].0 == done[i].0;
            assert(list[j] == rest[j]);
            assert(list[list.len() - 1] == last);
        }
        match last.1.str() {
            Some(s) => {
                let now = done.push((last.0, s));
                assert(now.drop_last() =~= done);
                assert forall|i: int|
                    #![trigger now[i]]
                    0 <= i < now.len() implies exists|j: int|
                    #![trigger list[j]]
                    0 <= j < list.len() && list[j].0 == now[i].0 by {
                    if i < done.len() {
                        assert(now[i] == done[i]);
                    } else {
                        assert(list[list.len() - 1].0 == now[i].0);
                    }
                }
                assert forall|i: int, j: int|
                    #![trigger now[i], now[j]]
                    0 <= i < j < now.len() implies now[i].0 != now[j].0 by {
                    assert(now[i] == done[i]);
                    if j < done.len() {
                        assert(now[j] == done[j]);
                    }
                }
            },
            None => {
                if key == last.0 {
                    pairs::lemma_pairs_map(done, key);
                }
            },
        }
    }
}

/// The members of an object that are strings, each with its key.
pub fn str_members(v: &serde_json::Value) -> (r: Vec<(String, String)>)
    ensures
        pairs::pairs_map(r.deep_view()) == json_tree(*v).str_members(),
        pairs::distinct_keys(r.deep_view()),
{
    let mut out: Vec<(String, String)> = Vec::new();
    let list = match members(v) {
        Some(list) => list,
        None => {
            assert(json_tree(*v).str_members() =~= Map::empty());
            return out;
        },
    };
    let ghost entries = entries_view(list@);
    let mut i: usize = 0;
    while i < list.len()
        invariant
            i <= list@.len(),
            entries == entries_view(list@),
            out.deep_view() == str_entries(entries.take(i as int)),
        decreases list@.len() - i,
    {
        let ghost before = out.deep_view();
        assert(entries.take(i + 1).drop_last() =~= entries.take(i as int));
        match list[i].1.as_str() {
            Some(s) => {
                out.push((list[i].0.clone(), s.to_string()));
                assert(out.deep_view() =~= before.push((list@[i as int].0@, s@)));
            },
            None => {},
        }
        i = i + 1;
    }
    proof {
        assert(entries.take(i as int) =~= entries);
        assert forall|a: int, b: int|
            #![trigger entries[a], entries[b]]
            0 <= a < b < entries.len() implies entries[a].0 != entries[b].0 by {
            assert(list@[a].0@ != list@[b].0@);
        }
        lemma_str_entries(entries, seq![]);
        let found = pairs::pairs_map(out.deep_view());
        let wanted = json_tree(*v).str_members();
        assert forall|key: Seq<char>|
            #![trigger found.contains_key(key)]
            #![trigger wanted.contains_key(key)]
            found.contains_key(key) == wanted.contains_key(key) && (found.contains_key(key)
                ==> found[key] == wanted[key]) by {
            lemma_str_entries(entries, key);
            pairs::lemma_pairs_map(entries, key);
            match json_tree(*v).member(key) {
                Some(m) => {
                    let k = choose|k: int|
                        #![trigger list@[k]]
                        0 <= k < list@.len() && list@[k].0@ == key;
                    assert(entries[k].0 == key);
                },
                None => {},
            }
            if pairs::pairs_map(entries).get(key) is Some {
                let k = choose|k: int|
                    #![trigger entries[k]]
                    0 <= k < entries.len() && entries[k] == (
                        key,
                        pairs::pairs_map(entries).get(key)->0,
                    );
                assert(list@[k].0@ == key);
            }
            assert(found.get(key) == wanted.get(key));
        }
        assert(found =~= wanted);
    }
    out
}

} // verus!
