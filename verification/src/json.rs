//! JSON documents as the lyric service returns them, reduced to what the
//! lookups read: numbers carry their value as a 64-bit integer when they
//! are one.
use vstd::prelude::*;
use vstd::string::StringExecFns;

verus! {

/// A JSON value. An object keeps its members in document order.
pub enum Json {
    Null,
    Bool(bool),
    /// A number; `Some` when it is an integer that fits in an `i64`.
    Number(Option<i64>),
    Text(String),
    Array(Vec<Json>),
    Object(Vec<(String, Json)>),
}

/// The value of the first member of `members` named `key`.
pub open spec fn member(members: Seq<(String, Json)>, key: Seq<char>) -> Option<Json>
    decreases members.len(),
{
    if members.len() == 0 {
        None
    } else if members[0].0@ == key {
        Some(members[0].1)
    } else {
        member(members.skip(1), key)
    }
}

/// `Value::get` with a member name: `None` unless `j` is an object with
/// that member.
pub open spec fn get(j: Json, key: Seq<char>) -> Option<Json> {
    match j {
        Json::Object(members) => member(members@, key),
        _ => None,
    }
}

/// `Value::as_i64`.
pub open spec fn as_i64(j: Json) -> Option<i64> {
    match j {
        Json::Number(n) => n,
        _ => None,
    }
}

/// `Value::as_str`, as characters.
pub open spec fn as_text(j: Json) -> Option<Seq<char>> {
    match j {
        Json::Text(s) => Some(s@),
        _ => None,
    }
}

/// `Value::as_array` followed by taking the first element.
pub open spec fn first_element(j: Json) -> Option<Json> {
    match j {
        Json::Array(items) => if items@.len() > 0 {
            Some(items@[0])
        } else {
            None
        },
        _ => None,
    }
}

impl Json {
    /// The member named `key`, when `self` is an object that has one.
    pub fn get(&self, key: &str) -> (r: Option<&Json>)
        ensures
            match r {
                Some(x) => get(*self, key@) == Some(*x),
                None => get(*self, key@) == None::<Json>,
            },
    {
        match self {
            Json::Object(members) => {
                assert(get(*self, key@) == member(members@, key@));
                let k = String::from_str(key);
                let mut i: usize = 0;
                assert(members@.skip(0) =~= members@);
                while i < members.len()
                    invariant
                        i <= members@.len(),
                        k@ == key@,
                        get(*self, key@) == member(members@, key@),
                        member(members@, key@) == member(members@.skip(i as int), key@),
                    decreases members@.len() - i,
                {
                    assert(members@.skip(i as int)[0] == members@[i as int]);
                    assert(members@.skip(i as int).skip(1) =~= members@.skip(i + 1));
                    if members[i].0 == k {
                        assert(member(members@.skip(i as int), key@) == Some(members@[i as int].1));
                        return Some(&members[i].1);
                    }
                    i += 1;
                }
                None
            },
            _ => None,
        }
    }

    /// The integer value, when `self` is an integer number that fits in an
    /// `i64`.
    pub fn as_i64(&self) -> (r: Option<i64>)
        ensures
            r == as_i64(*self),
    {
        match self {
            Json::Number(n) => *n,
            _ => None,
        }
    }

    /// The text, when `self` is a string.
    pub fn as_text(&self) -> (r: Option<&String>)
        ensures
            match r {
                Some(s) => as_text(*self) == Some(s@),
                None => as_text(*self) == None::<Seq<char>>,
            },
    {
        match self {
            Json::Text(s) => Some(s),
            _ => None,
        }
    }

    /// The first element, when `self` is a non-empty array.
    pub fn first_element(&self) -> (r: Option<&Json>)
        ensures
            match r {
                Some(x) => first_element(*self) == Some(*x),
                None => first_element(*self) == None::<Json>,
            },
    {
        match self {
            Json::Array(items) => if items.len() > 0 {
                Some(&items[0])
            } else {
                None
            },
            _ => None,
        }
    }
}

} // verus!
