use vstd::prelude::*;

use crate::text::{chars_of, digits_to_u64, digits_u64, str_eq};

verus! {

/// A JSON document as the engines read it. Numbers keep their textual form,
/// since nothing in the library computes with them.
#[derive(Debug)]
pub enum Json {
    Null,
    Bool(bool),
    Number(String),
    Str(String),
    Array(Vec<Json>),
    Object(Vec<(String, Json)>),
}

/// The value stored under `key` among `entries`: the first entry with that key.
pub open spec fn member(entries: Seq<(String, Json)>, key: Seq<char>) -> Option<Json>
    decreases entries.len(),
{
    if entries.len() == 0 {
        None
    } else if entries[0].0@ == key {
        Some(entries[0].1)
    } else {
        member(entries.drop_first(), key)
    }
}

/// The array index written by a pointer token: decimal digits without a
/// leading zero (except "0" itself).
pub open spec fn token_index(token: Seq<char>) -> Option<u64> {
    if token.len() == 0 || (token[0] == '0' && token.len() != 1) {
        None
    } else {
        digits_u64(token)
    }
}

/// `Some(*r)` for `Some(r)`, `None` otherwise.
pub open spec fn deref_opt(r: Option<&Json>) -> Option<Json> {
    match r {
        Some(v) => Some(*v),
        None => None,
    }
}

impl Json {
    /// The member `key` of an object; `None` for anything but an object.
    pub open spec fn get_key(self, key: Seq<char>) -> Option<Json> {
        match self {
            Json::Object(entries) => member(entries@, key),
            _ => None,
        }
    }

    /// The element `i` of an array; `None` for anything but an array, or out of range.
    pub open spec fn get_index(self, i: int) -> Option<Json> {
        match self {
            Json::Array(items) => if 0 <= i < items@.len() {
                Some(items@[i])
            } else {
                None
            },
            _ => None,
        }
    }

    /// One step of a JSON pointer: a member for objects, an element for arrays
    /// when the token is an index.
    pub open spec fn step(self, token: Seq<char>) -> Option<Json> {
        match self {
            Json::Object(entries) => member(entries@, token),
            Json::Array(items) => match token_index(token) {
                Some(i) => if i < items@.len() {
                    Some(items@[i as int])
                } else {
                    None
                },
                None => None,
            },
            _ => None,
        }
    }

    /// The text of a string value.
    pub open spec fn str_of(self) -> Option<Seq<char>> {
        match self {
            Json::Str(s) => Some(s@),
            _ => None,
        }
    }

    /// The value of a boolean.
    pub open spec fn bool_of(self) -> Option<bool> {
        match self {
            Json::Bool(b) => Some(b),
            _ => None,
        }
    }

    /// The elements of an array.
    pub open spec fn array_of(self) -> Option<Seq<Json>> {
        match self {
            Json::Array(items) => Some(items@),
            _ => None,
        }
    }

    /// The member `key` of an object.
    pub fn get(&self, key: &str) -> (r: Option<&Json>)
        ensures
            deref_opt(r) == self.get_key(key@),
    {
        match self {
            Json::Object(entries) => {
                let n = entries.len();
                let mut i: usize = 0;
                assert(entries@.skip(0) =~= entries@);
                while i < n
                    invariant
                        n == entries@.len(),
                        i <= n,
                        member(entries@, key@) == member(entries@.skip(i as int), key@),
                        self.get_key(key@) == member(entries@, key@),
                    decreases n - i,
                {
                    assert(entries@.skip(i as int)[0] == entries@[i as int]);
                    let entry = &entries[i];
                    assert(entries@.skip(i as int).len() > 0);
                    if str_eq(entry.0.as_str(), key) {
                        assert(entry.0@ == key@);
                        assert(member(entries@.skip(i as int), key@) == Some(entry.1));
                        return Some(&entry.1);
                    }
                    assert(entries@.skip(i as int).drop_first() =~= entries@.skip(i + 1));
                    i = i + 1;
                }
                None
            },
            _ => None,
        }
    }

    /// The element `i` of an array.
    pub fn at(&self, i: usize) -> (r: Option<&Json>)
        ensures
            deref_opt(r) == self.get_index(i as int),
    {
        match self {
            Json::Array(items) => if i < items.len() {
                Some(&items[i])
            } else {
                None
            },
            _ => None,
        }
    }

    /// One step of a JSON pointer.
    pub fn pointer_step(&self, token: &str) -> (r: Option<&Json>)
        ensures
            deref_opt(r) == self.step(token@),
    {
        match self {
            Json::Object(_) => self.get(token),
            Json::Array(items) => {
                let t = chars_of(token);
                if t.len() == 0 || (t[0] == '0' && t.len() != 1) {
                    return None;
                }
                match digits_to_u64(&t, 0) {
                    Some(i) => {
                        assert(t@.skip(0) =~= t@);
                        if i < items.len() as u64 {
                            Some(&items[i as usize])
                        } else {
                            None
                        }
                    },
                    None => {
                        assert(t@.skip(0) =~= t@);
                        None
                    },
                }
            },
            _ => None,
        }
    }

    /// The text of a string value.
    pub fn as_str(&self) -> (r: Option<&str>)
        ensures
            match r {
                Some(s) => self.str_of() == Some(s@),
                None => self.str_of() is None,
            },
    {
        match self {
            Json::Str(s) => Some(s.as_str()),
            _ => None,
        }
    }

    /// The value of a boolean.
    pub fn as_bool(&self) -> (r: Option<bool>)
        ensures
            r == self.bool_of(),
    {
        match self {
            Json::Bool(b) => Some(*b),
            _ => None,
        }
    }

    /// The elements of an array.
    pub fn as_array(&self) -> (r: Option<&Vec<Json>>)
        ensures
            match r {
                Some(items) => self.array_of() == Some(items@),
                None => self.array_of() is None,
            },
    {
        match self {
            Json::Array(items) => Some(items),
            _ => None,
        }
    }
}

/// The value reached from `v` by following the pointer tokens `path`.
pub open spec fn at_path(v: Json, path: Seq<Seq<char>>) -> Option<Json>
    decreases path.len(),
{
    if path.len() == 0 {
        Some(v)
    } else {
        match v.step(path[0]) {
            Some(next) => at_path(next, path.drop_first()),
            None => None,
        }
    }
}

/// Follows the pointer tokens `path` from `v`.
pub fn pointer<'a>(v: &'a Json, path: &[&str]) -> (r: Option<&'a Json>)
    ensures
        deref_opt(r) == at_path(*v, path@.map_values(|t: &str| t@)),
{
    let ghost tokens = path@.map_values(|t: &str| t@);
    let mut cur: &Json = v;
    let n = path.len();
    let mut i: usize = 0;
    assert(tokens.skip(0) =~= tokens);
    while i < n
        invariant
            n == path@.len(),
            tokens == path@.map_values(|t: &str| t@),
            i <= n,
            at_path(*v, tokens) == at_path(*cur, tokens.skip(i as int)),
        decreases n - i,
    {
        assert(tokens.skip(i as int)[0] == path@[i as int]@);
        assert(tokens.skip(i as int).drop_first() =~= tokens.skip(i + 1));
        match cur.pointer_step(path[i]) {
            Some(next) => {
                cur = next;
            },
            None => {
                return None;
            },
        }
        i = i + 1;
    }
    assert(tokens.skip(n as int) =~= Seq::<Seq<char>>::empty());
    Some(cur)
}

} // verus!
