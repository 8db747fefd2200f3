//! A JSON document as the classifier reads it.
use vstd::prelude::*;

verus! {

/// A JSON value.
#[derive(Debug, PartialEq, Eq)]
pub enum Json {
    Null,
    Bool(bool),
    /// A number that is a signed 64-bit integer.
    Int(i64),
    /// Any other number, as its decimal text.
    Number(String),
    Str(String),
    Array(Vec<Json>),
    /// The members of an object, in document order; a lookup by name takes
    /// the first member of that name.
    Object(Vec<(String, Json)>),
}

/// The integer that `j` holds, if it holds one.
pub open spec fn int_of(j: Option<Json>) -> Option<i64> {
    match j {
        Some(Json::Int(i)) => Some(i),
        _ => None,
    }
}

/// The text of the string that `j` holds, if it holds one.
pub open spec fn str_of(j: Option<Json>) -> Option<Seq<char>> {
    match j {
        Some(Json::Str(s)) => Some(s@),
        _ => None,
    }
}

/// Element `i` of the array that `j` holds.
pub open spec fn idx(j: Option<Json>, i: int) -> Option<Json> {
    match j {
        Some(Json::Array(v)) => if 0 <= i < v@.len() {
            Some(v@[i])
        } else {
            None
        },
        _ => None,
    }
}

/// The last element of the array that `j` holds.
pub open spec fn last_of(j: Option<Json>) -> Option<Json> {
    match j {
        Some(Json::Array(v)) => if v@.len() > 0 {
            Some(v@.last())
        } else {
            None
        },
        _ => None,
    }
}

/// The value of the first member of `members` named `key`.
pub open spec fn member(members: Seq<(String, Json)>, key: Seq<char>) -> Option<Json>
    decreases members.len(),
{
    if members.len() == 0 {
        None
    } else if members[0].0@ == key {
        Some(members[0].1)
    } else {
        member(members.drop_first(), key)
    }
}

/// The member named `key` of the object that `j` holds.
pub open spec fn field(j: Option<Json>, key: Seq<char>) -> Option<Json> {
    match j {
        Some(Json::Object(members)) => member(members@, key),
        _ => None,
    }
}

impl Json {
    /// The integer this value holds, if it is one.
    pub fn as_i64(&self) -> (r: Option<i64>)
        ensures
            r == int_of(Some(*self)),
    {
        match self {
            Json::Int(i) => Some(*i),
            _ => None,
        }
    }

    /// A copy of the string this value holds, if it is one.
    pub fn as_string(&self) -> (r: Option<String>)
        ensures
            r matches Some(s) ==> str_of(Some(*self)) == Some(s@),
            r is None ==> str_of(Some(*self)) is None,
    {
        match self {
            Json::Str(s) => Some(s.clone()),
            _ => None,
        }
    }

    /// Element `i` of this array.
    pub fn at(&self, i: usize) -> (r: Option<&Json>)
        ensures
            r matches Some(x) ==> idx(Some(*self), i as int) == Some(*x),
            r is None ==> idx(Some(*self), i as int) is None,
    {
        match self {
            Json::Array(v) => if i < v.len() {
                Some(&v[i])
            } else {
                None
            },
            _ => None,
        }
    }

    /// The last element of this array.
    pub fn last(&self) -> (r: Option<&Json>)
        ensures
            r matches Some(x) ==> last_of(Some(*self)) == Some(*x),
            r is None ==> last_of(Some(*self)) is None,
    {
        match self {
            Json::Array(v) => if v.len() > 0 {
                Some(&v[v.len() - 1])
            } else {
                None
            },
            _ => None,
        }
    }

    /// The member named `key` of this object.
    pub fn get(&self, key: &String) -> (r: Option<&Json>)
        ensures
            r matches Some(x) ==> field(Some(*self), key@) == Some(*x),
            r is None ==> field(Some(*self), key@) is None,
    {
        match self {
            Json::Object(members) => {
                let mut i: usize = 0;
                assert(members@.subrange(0, members@.len() as int) =~= members@);
                while i < members.len()
                    invariant
                        *self == Json::Object(*members),
                        i <= members@.len(),
                        member(members@, key@) == member(members@.subrange(i as int, members@.len() as int), key@),
                    decreases members@.len() - i,
                {
                    let ghost rest = members@.subrange(i as int, members@.len() as int);
                    assert(rest.drop_first() =~= members@.subrange(i + 1, members@.len() as int));
                    assert(rest[0] == members@[i as int]);
                    if members[i].0 == *key {
                        assert(member(rest, key@) == Some(rest[0].1));
                        return Some(&members[i].1);
                    }
                    i = i + 1;
                }
                None
            },
            _ => None,
        }
    }

    /// The integer at element `i` of this array.
    pub fn int_at(&self, i: usize) -> (r: Option<i64>)
        ensures
            r == int_of(idx(Some(*self), i as int)),
    {
        match self.at(i) {
            Some(x) => x.as_i64(),
            None => None,
        }
    }

    /// A copy of the string at element `i` of this array.
    pub fn str_at(&self, i: usize) -> (r: Option<String>)
        ensures
            r matches Some(s) ==> str_of(idx(Some(*self), i as int)) == Some(s@),
            r is None ==> str_of(idx(Some(*self), i as int)) is None,
    {
        match self.at(i) {
            Some(x) => x.as_string(),
            None => None,
        }
    }

    /// The integer held by the member named `key` of this object.
    pub fn int_field(&self, key: &String) -> (r: Option<i64>)
        ensures
            r == int_of(field(Some(*self), key@)),
    {
        match self.get(key) {
            Some(x) => x.as_i64(),
            None => None,
        }
    }

    /// A copy of the string held by the member named `key` of this object.
    pub fn str_field(&self, key: &String) -> (r: Option<String>)
        ensures
            r matches Some(s) ==> str_of(field(Some(*self), key@)) == Some(s@),
            r is None ==> str_of(field(Some(*self), key@)) is None,
    {
        match self.get(key) {
            Some(x) => x.as_string(),
            None => None,
        }
    }
}

} // verus!
