use vstd::prelude::*;
use vstd::string::StringExecFns;

verus! {

/// A JSON number kept exactly as the wire gave it: an unsigned or a negative
/// integer, or a fractional number in its decimal text.
#[derive(Clone, Debug, PartialEq, Eq)]
pub enum JsonNumber {
    PosInt(u64),
    NegInt(i64),
    /// A fractional number as JSON number text; text that is no JSON number
    /// compares as `null`.
    Float(String),
}

/// An untyped JSON value, as a response body is read.
/// Object members keep the order in which they were given.
#[derive(Debug)]
pub enum JsonValue {
    Null,
    Bool(bool),
    Number(JsonNumber),
    Text(String),
    Array(Vec<JsonValue>),
    Object(Vec<(String, JsonValue)>),
}

/// The value of the last member named `key`, if any: a repeated key takes
/// the value given last, as when the object is read from text.
pub open spec fn last_member(members: Seq<(String, JsonValue)>, key: Seq<char>) -> Option<JsonValue>
    decreases members.len(),
{
    if members.len() == 0 {
        None
    } else if members.last().0@ == key {
        Some(members.last().1)
    } else {
        last_member(members.drop_last(), key)
    }
}

/// What indexing a value by `key` finds: a member of an object, nothing otherwise.
pub open spec fn member_spec(v: JsonValue, key: Seq<char>) -> Option<JsonValue> {
    match v {
        JsonValue::Object(members) => last_member(members@, key),
        _ => None,
    }
}

/// The member reached by following `path` from `v`, one key per step.
pub open spec fn at_path(v: JsonValue, path: Seq<Seq<char>>) -> Option<JsonValue>
    decreases path.len(),
{
    if path.len() == 0 {
        Some(v)
    } else {
        match member_spec(v, path[0]) {
            Some(m) => at_path(m, path.drop_first()),
            None => None,
        }
    }
}

pub open spec fn text_spec(v: Option<JsonValue>) -> Option<Seq<char>> {
    match v {
        Some(JsonValue::Text(s)) => Some(s@),
        _ => None,
    }
}

pub open spec fn u64_spec(v: Option<JsonValue>) -> Option<u64> {
    match v {
        Some(JsonValue::Number(JsonNumber::PosInt(n))) => Some(n),
        _ => None,
    }
}

pub open spec fn array_spec(v: Option<JsonValue>) -> Option<Seq<JsonValue>> {
    match v {
        Some(JsonValue::Array(items)) => Some(items@),
        _ => None,
    }
}

impl JsonValue {
    /// The member named `key` when `self` is an object that has one.
    pub fn member(&self, key: &String) -> (r: Option<&JsonValue>)
        ensures
            match member_spec(*self, key@) {
                Some(m) => r is Some && *r->0 == m,
                None => r is None,
            },
    {
        match self {
            JsonValue::Object(members) => {
                let mut i: usize = members.len();
                assert(members@.subrange(0, members@.len() as int) =~= members@);
                while i > 0
                    invariant
                        0 <= i <= members@.len(),
                        member_spec(*self, key@) == last_member(members@, key@),
                        last_member(members@, key@) == last_member(members@.subrange(0, i as int), key@),
                    decreases i,
                {
                    let ghost head = members@.subrange(0, i as int);
                    assert(head.drop_last() =~= members@.subrange(0, i - 1));
                    assert(head.last() == members@[i - 1]);
                    if members[i - 1].0 == *key {
                        return Some(&members[i - 1].1);
                    }
                    i = i - 1;
                }
                assert(members@.subrange(0, 0).len() == 0);
                None
            },
            _ => None,
        }
    }

    /// The member reached by following `path`, one key per step.
    pub fn at(&self, path: &Vec<String>) -> (r: Option<&JsonValue>)
        ensures
            match at_path(*self, path@.map_values(|k: String| k@)) {
                Some(m) => r is Some && *r->0 == m,
                None => r is None,
            },
    {
        let ghost keys = path@.map_values(|k: String| k@);
        let mut cur: &JsonValue = self;
        let mut i: usize = 0;
        assert(keys.subrange(0, keys.len() as int) =~= keys);
        while i < path.len()
            invariant
                0 <= i <= path@.len(),
                keys == path@.map_values(|k: String| k@),
                at_path(*self, keys) == at_path(*cur, keys.subrange(i as int, keys.len() as int)),
            decreases path@.len() - i,
        {
            let ghost rest = keys.subrange(i as int, keys.len() as int);
            assert(rest.drop_first() =~= keys.subrange(i + 1, keys.len() as int));
            assert(rest[0] == path@[i as int]@);
            match cur.member(&path[i]) {
                Some(m) => {
                    cur = m;
                },
                None => {
                    return None;
                },
            }
            i = i + 1;
        }
        assert(keys.subrange(i as int, keys.len() as int).len() == 0);
        Some(cur)
    }

    /// The text of `self` when it is a JSON string.
    pub fn as_text(&self) -> (r: Option<&String>)
        ensures
            match *self {
                JsonValue::Text(s) => r is Some && *r->0 == s,
                _ => r is None,
            },
    {
        match self {
            JsonValue::Text(s) => Some(s),
            _ => None,
        }
    }

    /// `self` as an unsigned integer, when it is one.
    pub fn as_u64(&self) -> (r: Option<u64>)
        ensures
            r == u64_spec(Some(*self)),
    {
        match self {
            JsonValue::Number(JsonNumber::PosInt(n)) => Some(*n),
            _ => None,
        }
    }

    /// The items of `self` when it is an array.
    pub fn as_array(&self) -> (r: Option<&Vec<JsonValue>>)
        ensures
            match *self {
                JsonValue::Array(items) => r is Some && r->0@ == items@,
                _ => r is None,
            },
    {
        match self {
            JsonValue::Array(items) => Some(items),
            _ => None,
        }
    }
}

/// The path of keys `[a, b]` as owned strings.
pub fn key_path2(a: &str, b: &str) -> (r: Vec<String>)
    ensures
        r@.map_values(|k: String| k@) =~= seq![a@, b@],
{
    let mut r: Vec<String> = Vec::new();
    r.push(String::from_str(a));
    r.push(String::from_str(b));
    r
}

/// The path of keys `[a, b, c]` as owned strings.
pub fn key_path3(a: &str, b: &str, c: &str) -> (r: Vec<String>)
    ensures
        r@.map_values(|k: String| k@) =~= seq![a@, b@, c@],
{
    let mut r: Vec<String> = Vec::new();
    r.push(String::from_str(a));
    r.push(String::from_str(b));
    r.push(String::from_str(c));
    r
}

} // verus!
