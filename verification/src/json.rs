//! A plain model of the JSON values the server sends, and the loose readings
//! Nextcloud's typing calls for.
//!
//! One field can arrive as `12`, `"12"`, `null` or `""`, depending on
//! endpoint, server version, and whether it passed through a database driver.
//! The functions here decide what such a value means; turning bytes into a
//! [`JsonValue`] is the JSON parser's work.
use vstd::prelude::*;

use crate::text::{parse_i64, parse_i64_spec, parse_u64, parse_u64_spec, str_eq};

verus! {

/// A JSON number as the readings below see it.
#[derive(Clone, Debug)]
pub struct JsonNumber {
    /// The number as an `i64`, where it is an integer in range.
    pub as_i64: Option<i64>,
    /// The number as a `u64`, where it is a non-negative integer in range.
    pub as_u64: Option<u64>,
    /// The number as a float, cast to `i64` (saturating, NaN to 0), where
    /// it has a float reading.
    pub truncated: Option<i64>,
    /// The number as JSON writes it.
    pub text: String,
}

/// A JSON value.
#[derive(Debug)]
pub enum JsonValue {
    Null,
    Bool(bool),
    Number(JsonNumber),
    String(String),
    Array(Vec<JsonValue>),
    Object(Vec<(String, JsonValue)>),
}

/// An integer read from a number or a non-empty string; anything else, or
/// text that is not an integer, reads as nothing.
pub open spec fn flexible_i64_spec(v: Option<JsonValue>) -> Option<i64> {
    match v {
        Some(JsonValue::Number(n)) => match n.as_i64 {
            Some(i) => Some(i),
            None => n.truncated,
        },
        Some(JsonValue::String(s)) => if s@.len() > 0 {
            parse_i64_spec(s@)
        } else {
            None
        },
        _ => None,
    }
}

/// An optional integer from a number, a string, `""` or null.
pub fn opt_flexible_i64(v: Option<&JsonValue>) -> (r: Option<i64>)
    ensures
        r == flexible_i64_spec(
            match v {
                Some(x) => Some(*x),
                None => None,
            },
        ),
{
    match v {
        Some(JsonValue::Number(n)) => match n.as_i64 {
            Some(i) => Some(i),
            None => n.truncated,
        },
        Some(JsonValue::String(s)) => {
            if s.as_str().is_empty() {
                None
            } else {
                parse_i64(s.as_str())
            }
        },
        _ => None,
    }
}

/// An integer that may arrive as a number or a string; zero when absent.
pub fn flexible_i64(v: Option<&JsonValue>) -> (r: i64)
    ensures
        r == match flexible_i64_spec(
            match v {
                Some(x) => Some(*x),
                None => None,
            },
        ) {
            Some(i) => i,
            None => 0,
        },
{
    match opt_flexible_i64(v) {
        Some(i) => i,
        None => 0,
    }
}

/// A string read from a non-empty string, a number or a boolean; an empty
/// string means unset.
pub open spec fn flexible_string_spec(v: Option<JsonValue>) -> Option<Seq<char>> {
    match v {
        Some(JsonValue::String(s)) => if s@.len() > 0 {
            Some(s@)
        } else {
            None
        },
        Some(JsonValue::Number(n)) => Some(n.text@),
        Some(JsonValue::Bool(b)) => Some(
            if b {
                "true"@
            } else {
                "false"@
            },
        ),
        _ => None,
    }
}

pub open spec fn deref_opt(v: Option<&JsonValue>) -> Option<JsonValue> {
    match v {
        Some(x) => Some(*x),
        None => None,
    }
}

pub open spec fn opt_chars(o: Option<String>) -> Option<Seq<char>> {
    match o {
        Some(s) => Some(s@),
        None => None,
    }
}

/// An optional string from a string, a number, a boolean, `""` or null.
pub fn opt_flexible_string(v: Option<&JsonValue>) -> (r: Option<String>)
    ensures
        opt_chars(r) == flexible_string_spec(deref_opt(v)),
{
    match v {
        Some(JsonValue::String(s)) => {
            if s.as_str().is_empty() {
                None
            } else {
                Some(crate::text::copy_str(s.as_str()))
            }
        },
        Some(JsonValue::Number(n)) => Some(crate::text::copy_str(n.text.as_str())),
        Some(JsonValue::Bool(b)) => {
            if *b {
                Some(crate::text::copy_str("true"))
            } else {
                Some(crate::text::copy_str("false"))
            }
        },
        _ => None,
    }
}

/// A string that may arrive as a number; empty when absent.
pub fn flexible_string(v: Option<&JsonValue>) -> (r: String)
    ensures
        r@ == match flexible_string_spec(deref_opt(v)) {
            Some(s) => s,
            None => Seq::<char>::empty(),
        },
{
    match opt_flexible_string(v) {
        Some(s) => s,
        None => String::new(),
    }
}

/// A boolean that may arrive as `true`, `1`, `"1"`, `"true"` or `"yes"`.
pub open spec fn flexible_bool_spec(v: Option<JsonValue>) -> bool {
    match v {
        Some(JsonValue::Bool(b)) => b,
        Some(JsonValue::Number(n)) => match n.as_i64 {
            Some(i) => i != 0,
            None => false,
        },
        Some(JsonValue::String(s)) => s@ == "1"@ || s@ == "true"@ || s@ == "yes"@,
        _ => false,
    }
}

pub fn flexible_bool(v: Option<&JsonValue>) -> (r: bool)
    ensures
        r == flexible_bool_spec(deref_opt(v)),
{
    match v {
        Some(JsonValue::Bool(b)) => *b,
        Some(JsonValue::Number(n)) => match n.as_i64 {
            Some(i) => i != 0,
            None => false,
        },
        Some(JsonValue::String(s)) => {
            let s = s.as_str();
            str_eq(s, "1") || str_eq(s, "true") || str_eq(s, "yes")
        },
        _ => false,
    }
}

/// A count that arrives as a number or as text, `""` meaning none.
pub open spec fn coerce_u64_spec(v: JsonValue) -> Option<u64> {
    match v {
        JsonValue::Number(n) => n.as_u64,
        JsonValue::String(s) => if s@.len() > 0 {
            parse_u64_spec(s@)
        } else {
            None
        },
        _ => None,
    }
}

pub fn coerce_u64(v: &JsonValue) -> (r: Option<u64>)
    ensures
        r == coerce_u64_spec(*v),
{
    match v {
        JsonValue::Number(n) => n.as_u64,
        JsonValue::String(s) => {
            if s.as_str().is_empty() {
                None
            } else {
                parse_u64(s.as_str())
            }
        },
        _ => None,
    }
}

/// PHP serialises an empty map as `[]`, which no struct target accepts: an
/// empty array becomes an empty object, anything else is kept.
pub fn normalise_empty(v: JsonValue) -> (r: JsonValue)
    ensures
        match v {
            JsonValue::Array(a) => if a@.len() == 0 {
                r matches JsonValue::Object(o) && o@.len() == 0
            } else {
                r == v
            },
            _ => r == v,
        },
{
    match v {
        JsonValue::Array(a) => {
            if a.len() == 0 {
                JsonValue::Object(Vec::new())
            } else {
                JsonValue::Array(a)
            }
        },
        other => other,
    }
}

/// The value under `key` in an object's entries, the first one where a key
/// repeats.
pub open spec fn find_key(entries: Seq<(String, JsonValue)>, key: Seq<char>) -> Option<JsonValue>
    decreases entries.len(),
{
    if entries.len() == 0 {
        None
    } else if entries[0].0@ == key {
        Some(entries[0].1)
    } else {
        find_key(entries.drop_first(), key)
    }
}

/// The value under `key` when `v` is an object that has one.
pub open spec fn get_spec(v: JsonValue, key: Seq<char>) -> Option<JsonValue> {
    match v {
        JsonValue::Object(entries) => find_key(entries@, key),
        _ => None,
    }
}

pub open spec fn deref_ref(v: Option<&JsonValue>) -> Option<JsonValue> {
    match v {
        Some(x) => Some(*x),
        None => None,
    }
}

impl JsonValue {
    /// The value under `key`, when this is an object that has one.
    pub fn get(&self, key: &str) -> (r: Option<&JsonValue>)
        ensures
            deref_ref(r) == get_spec(*self, key@),
    {
        match self {
            JsonValue::Object(entries) => {
                proof {
                    assert(entries@.skip(0) =~= entries@);
                }
                let mut i: usize = 0;
                while i < entries.len()
                    invariant
                        i <= entries.len(),
                        get_spec(*self, key@) == find_key(entries@, key@),
                        find_key(entries@, key@) == find_key(entries@.skip(i as int), key@),
                    decreases entries.len() - i,
                {
                    proof {
                        assert(entries@.skip(i as int)[0] == entries@[i as int]);
                        assert(entries@.skip(i as int).drop_first() =~= entries@.skip(i + 1));
                    }
                    if str_eq(entries[i].0.as_str(), key) {
                        proof {
                            assert(find_key(entries@.skip(i as int), key@) == Some(
                                entries@[i as int].1,
                            ));
                        }
                        return Some(&entries[i].1);
                    }
                    i = i + 1;
                }
                None
            },
            _ => None,
        }
    }

    /// The number as an `i64`, when this is one that fits.
    pub fn as_i64(&self) -> (r: Option<i64>)
        ensures
            r == match *self {
                JsonValue::Number(n) => n.as_i64,
                _ => None,
            },
    {
        match self {
            JsonValue::Number(n) => n.as_i64,
            _ => None,
        }
    }

    /// The text, when this is a string.
    pub fn as_str(&self) -> (r: Option<&str>)
        ensures
            (match r {
                Some(s) => Some(s@),
                None => None,
            }) == match *self {
                JsonValue::String(s) => Some(s@),
                _ => None,
            },
    {
        match self {
            JsonValue::String(s) => Some(s.as_str()),
            _ => None,
        }
    }
}

} // verus!
