use vstd::prelude::*;

use crate::text::str_eq;

verus! {

/// A JSON number, kept in the three shapes a JSON reader tells apart.
/// Fractional values are not read by this library, so only their presence is kept.
#[derive(Clone, Copy, Debug, PartialEq, Eq, Structural)]
pub enum JsonNumber {
    PosInt(u64),
    NegInt(i64),
    Float,
}

/// A JSON value as this library reads it. Object members keep their order.
#[derive(Debug)]
pub enum Json {
    Null,
    Bool(bool),
    Number(JsonNumber),
    Str(String),
    Array(Vec<Json>),
    Object(Vec<(String, Json)>),
}

/// Member `i` is the first one of `members` named `key`.
pub open spec fn first_member(members: Seq<(String, Json)>, key: Seq<char>, i: int) -> bool {
    &&& 0 <= i < members.len()
    &&& members[i].0@ == key
    &&& forall|j: int| 0 <= j < i ==> members[j].0@ != key
}

/// `a` and `b` hold the same JSON value, element by element.
pub open spec fn same_json(a: Json, b: Json) -> bool
    decreases a,
{
    match (a, b) {
        (Json::Array(x), Json::Array(y)) => {
            &&& x.len() == y.len()
            &&& forall|i: int|
                0 <= i < x.len() ==> #[trigger] same_json(x@[i], y@[i])
        },
        (Json::Object(x), Json::Object(y)) => {
            &&& x.len() == y.len()
            &&& forall|i: int| 0 <= i < x.len() ==> (#[trigger] x@[i]).0@ == y@[i].0@
            &&& forall|i: int| 0 <= i < x.len() ==> #[trigger] same_json(x@[i].1, y@[i].1)
        },
        (Json::Str(x), Json::Str(y)) => x@ == y@,
        (Json::Array(_), _) => false,
        (Json::Object(_), _) => false,
        (Json::Str(_), _) => false,
        _ => a == b,
    }
}

impl Json {
    /// The value of the first member named `key`, when `self` is an object that has one.
    pub open spec fn field(self, key: Seq<char>) -> Option<Json> {
        match self {
            Json::Object(members) => {
                if exists|i: int| first_member(members@, key, i) {
                    Some(members@[choose|i: int| first_member(members@, key, i)].1)
                } else {
                    None
                }
            },
            _ => None,
        }
    }

    /// Whether `self` is an object with a member named `key`.
    pub open spec fn has_field(self, key: Seq<char>) -> bool {
        self.field(key) is Some
    }

    /// The text of a string value.
    pub open spec fn str_value(self) -> Option<Seq<char>> {
        match self {
            Json::Str(s) => Some(s@),
            _ => None,
        }
    }

    /// The value of a non-negative integer.
    pub open spec fn u64_value(self) -> Option<u64> {
        match self {
            Json::Number(JsonNumber::PosInt(n)) => Some(n),
            _ => None,
        }
    }

    /// The value of an integer that fits in an `i64`.
    pub open spec fn i64_value(self) -> Option<i64> {
        match self {
            Json::Number(JsonNumber::PosInt(n)) => if n <= i64::MAX as u64 {
                Some(n as i64)
            } else {
                None
            },
            Json::Number(JsonNumber::NegInt(n)) => Some(n),
            _ => None,
        }
    }

    /// The elements of an array value.
    pub open spec fn elements(self) -> Option<Seq<Json>> {
        match self {
            Json::Array(items) => Some(items@),
            _ => None,
        }
    }

    /// The member named `key`, when `self` is an object that has one.
    pub fn get(&self, key: &str) -> (r: Option<&Json>)
        ensures
            match r {
                Some(v) => self.field(key@) == Some(*v),
                None => self.field(key@) is None,
            },
    {
        match self {
            Json::Object(members) => {
                let mut i: usize = 0;
                while i < members.len()
                    invariant
                        *self == Json::Object(*members),
                        i <= members.len(),
                        forall|j: int| 0 <= j < i ==> members@[j].0@ != key@,
                    decreases members.len() - i,
                {
                    if str_eq(members[i].0.as_str(), key) {
                        assert(first_member(members@, key@, i as int));
                        assert forall|k: int| first_member(members@, key@, k) implies k == i by {
                            if k < i {
                            } else if k > i {
                                assert(members@[i as int].0@ == key@);
                            }
                        }
                        let ghost k = choose|k: int| first_member(members@, key@, k);
                        assert(k == i);
                        assert(self.field(key@) == Some(members@[i as int].1));
                        return Some(&members[i].1);
                    }
                    i += 1;
                }
                None
            },
            _ => None,
        }
    }

    /// Whether `self` is an object with a member named `key`.
    pub fn has_key(&self, key: &str) -> (r: bool)
        ensures
            r == self.has_field(key@),
    {
        self.get(key).is_some()
    }

    /// The text of a string value.
    pub fn as_str(&self) -> (r: Option<&str>)
        ensures
            match r {
                Some(s) => self.str_value() == Some(s@),
                None => self.str_value() is None,
            },
    {
        match self {
            Json::Str(s) => Some(s.as_str()),
            _ => None,
        }
    }

    /// The value of a non-negative integer.
    pub fn as_u64(&self) -> (r: Option<u64>)
        ensures
            r == self.u64_value(),
    {
        match self {
            Json::Number(JsonNumber::PosInt(n)) => Some(*n),
            _ => None,
        }
    }

    /// The value of an integer that fits in an `i64`.
    pub fn as_i64(&self) -> (r: Option<i64>)
        ensures
            r == self.i64_value(),
    {
        match self {
            Json::Number(JsonNumber::PosInt(n)) => if *n <= i64::MAX as u64 {
                Some(*n as i64)
            } else {
                None
            },
            Json::Number(JsonNumber::NegInt(n)) => Some(*n),
            _ => None,
        }
    }

    /// The elements of an array value.
    pub fn as_array(&self) -> (r: Option<&Vec<Json>>)
        ensures
            match r {
                Some(v) => self.elements() == Some(v@),
                None => self.elements() is None,
            },
    {
        match self {
            Json::Array(items) => Some(items),
            _ => None,
        }
    }

    /// Whether the value is `null`.
    pub fn is_null(&self) -> (r: bool)
        ensures
            r == (*self is Null),
    {
        match self {
            Json::Null => true,
            _ => false,
        }
    }


    /// A copy of the whole value.
    pub fn duplicate(&self) -> (r: Json)
        ensures
            same_json(r, *self),
        decreases self,
    {
        match self {
            Json::Null => Json::Null,
            Json::Bool(b) => Json::Bool(*b),
            Json::Number(n) => Json::Number(*n),
            Json::Str(s) => Json::Str(s.clone()),
            Json::Array(items) => {
                let mut out: Vec<Json> = Vec::new();
                let mut i: usize = 0;
                while i < items.len()
                    invariant
                        *self == Json::Array(*items),
                        i <= items.len(),
                        out.len() == i,
                        forall|k: int| 0 <= k < i ==> #[trigger] same_json(out@[k], items@[k]),
                    decreases items.len() - i,
                {
                    proof {
                        vstd::std_specs::vec::axiom_vec_index_decreases(*items, i as int);
                        assert(decreases_to!(*self => self->Array_0));
                    }
                    out.push(items[i].duplicate());
                    i += 1;
                }
                let r = Json::Array(out);
                assert(out.len() == items.len());
                assert(forall|k: int| 0 <= k < out.len() ==> same_json(out@[k], items@[k]));
                assert(same_json(r, *self));
                r
            },
            Json::Object(members) => {
                let mut out: Vec<(String, Json)> = Vec::new();
                let mut i: usize = 0;
                while i < members.len()
                    invariant
                        *self == Json::Object(*members),
                        i <= members.len(),
                        out.len() == i,
                        forall|k: int| 0 <= k < i ==> (#[trigger] out@[k]).0@ == members@[k].0@,
                        forall|k: int|
                            0 <= k < i ==> #[trigger] same_json(out@[k].1, members@[k].1),
                    decreases members.len() - i,
                {
                    proof {
                        vstd::std_specs::vec::axiom_vec_index_decreases(*members, i as int);
                        assert(decreases_to!(*self => self->Object_0));
                        assert(decreases_to!(members@[i as int] => members@[i as int].1));
                    }
                    let v = members[i].1.duplicate();
                    let name = members[i].0.clone();
                    assert(name@ == members@[i as int].0@);
                    let ghost before = out@;
                    out.push((name, v));
                    assert(forall|k: int| 0 <= k < i ==> out@[k] == before[k]);
                    assert(same_json(out@[i as int].1, members@[i as int].1));
                    i += 1;
                }
                let r = Json::Object(out);
                assert(out.len() == members.len());
                assert(same_json(r, *self)) by {
                    let x = r->Object_0;
                    let y = self->Object_0;
                    assert(x == out && y == *members);
                    assert(forall|k: int| 0 <= k < x.len() ==> same_json(x@[k].1, y@[k].1));
                }
                r
            },
        }
    }
}

}
