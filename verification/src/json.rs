//! A JSON value as plain data, and the lookups that tool-call arguments are
//! read with.

use crate::text::{chars_eq, chars_of};
use vstd::prelude::*;

verus! {

/// A JSON value. An object holds its member names and, at the same
/// positions, their values, each name once; a number keeps its text.
pub enum Json {
    Null,
    Bool(bool),
    Number(String),
    Str(String),
    Array(Vec<Json>),
    Object(Vec<String>, Vec<Json>),
}

/// The value at the first position from `i` on whose name is `k`.
pub open spec fn member_from(keys: Seq<String>, vals: Seq<Json>, k: Seq<char>, i: int) -> Option<Json>
    decreases keys.len() - i,
{
    if i < 0 || i >= keys.len() || i >= vals.len() {
        None
    } else if keys[i]@ == k {
        Some(vals[i])
    } else {
        member_from(keys, vals, k, i + 1)
    }
}

/// `value.get(k)`: the member `k` of an object; nothing for any other value.
pub open spec fn jget(v: Json, k: Seq<char>) -> Option<Json> {
    match v {
        Json::Object(keys, vals) => member_from(keys@, vals@, k, 0),
        _ => None,
    }
}

/// `as_str` of an optional value: the text of a string, else nothing.
pub open spec fn jstr(v: Option<Json>) -> Option<Seq<char>> {
    match v {
        Some(Json::Str(s)) => Some(s@),
        _ => None,
    }
}

/// `value.get(k)` on a JSON value.
pub fn get<'a>(v: &'a Json, k: &str) -> (r: Option<&'a Json>)
    ensures
        match jget(*v, k@) {
            Some(x) => r matches Some(y) && *y == x,
            None => r is None,
        },
{
    match v {
        Json::Object(keys, vals) => {
            let kc = chars_of(k);
            let mut i: usize = 0;
            while i < keys.len() && i < vals.len()
                invariant
                    i <= keys@.len(),
                    kc@ == k@,
                    jget(*v, k@) == member_from(keys@, vals@, k@, 0),
                    member_from(keys@, vals@, k@, 0) == member_from(keys@, vals@, k@, i as int),
                decreases keys@.len() - i,
            {
                if chars_eq(&chars_of(keys[i].as_str()), &kc) {
                    assert(keys@[i as int]@ == k@);
                    assert(member_from(keys@, vals@, k@, i as int) == Some(vals@[i as int]));
                    return Some(&vals[i]);
                }
                i += 1;
            }
            None
        },
        _ => None,
    }
}

/// `value.get(k).and_then(|v| v.as_str())`, owned.
pub fn get_str(v: &Json, k: &str) -> (r: Option<String>)
    ensures
        match jstr(jget(*v, k@)) {
            Some(s) => r matches Some(t) && t@ == s,
            None => r is None,
        },
{
    match get(v, k) {
        Some(Json::Str(s)) => Some(s.clone()),
        _ => None,
    }
}

} // verus!
