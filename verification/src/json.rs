//! A JSON value as the QQBot adapter reads and builds it: objects keep their
//! members in order and a lookup finds the first member with the key; numbers are
//! kept exactly (unsigned and negative integers as such, any other number as its
//! JSON text).
use vstd::prelude::*;
use vstd::string::*;

use crate::text::str_eq;

verus! {

#[derive(Debug, PartialEq, Eq)]
pub enum JsonValue {
    Null,
    Bool(bool),
    Unsigned(u64),
    Negative(i64),
    Decimal(String),
    Text(String),
    Array(Vec<JsonValue>),
    Object(Vec<(String, JsonValue)>),
}

/// The position of the first member of `members` named `key`.
pub open spec fn member_index(members: Seq<(String, JsonValue)>, key: Seq<char>) -> Option<int>
    decreases members.len(),
{
    if members.len() == 0 {
        None
    } else if members[0].0@ == key {
        Some(0)
    } else {
        match member_index(members.drop_first(), key) {
            Some(i) => Some(i + 1),
            None => None,
        }
    }
}

proof fn lemma_member_index(members: Seq<(String, JsonValue)>, key: Seq<char>)
    ensures
        match member_index(members, key) {
            Some(i) => 0 <= i < members.len() && members[i].0@ == key && forall|j: int|
                0 <= j < i ==> (#[trigger] members[j]).0@ != key,
            None => forall|j: int| 0 <= j < members.len() ==> (#[trigger] members[j]).0@ != key,
        },
    decreases members.len(),
{
    if members.len() > 0 && members[0].0@ != key {
        let rest = members.drop_first();
        lemma_member_index(rest, key);
        assert forall|j: int| 0 < j < members.len() implies members[j] == #[trigger] rest[j - 1] by {}
        match member_index(rest, key) {
            Some(i) => {
                assert forall|j: int| 0 <= j < i + 1 implies (#[trigger] members[j]).0@ != key by {
                    if j > 0 {
                        assert(members[j] == rest[j - 1]);
                    }
                }
            },
            None => {
                assert forall|j: int| 0 <= j < members.len() implies (#[trigger] members[j]).0@ != key by {
                    if j > 0 {
                        assert(members[j] == rest[j - 1]);
                    }
                }
            },
        }
    }
}

/// The value of the first member named `key`.
pub open spec fn members_get(members: Seq<(String, JsonValue)>, key: Seq<char>) -> Option<JsonValue> {
    match member_index(members, key) {
        Some(i) => Some(members[i].1),
        None => None,
    }
}

/// The member `key` of an object, if `value` is an object that has one.
pub open spec fn json_get(value: JsonValue, key: Seq<char>) -> Option<JsonValue> {
    match value {
        JsonValue::Object(members) => members_get(members@, key),
        _ => None,
    }
}

/// The text of a string value.
pub open spec fn json_str(value: Option<JsonValue>) -> Option<Seq<char>> {
    match value {
        Some(JsonValue::Text(s)) => Some(s@),
        _ => None,
    }
}

/// The number of a value that is a non-negative integer.
pub open spec fn json_u64(value: Option<JsonValue>) -> Option<u64> {
    match value {
        Some(JsonValue::Unsigned(n)) => Some(n),
        _ => None,
    }
}

/// `after` is `before` with member `key` set to `value`: replaced in place, or
/// appended when absent.
pub open spec fn member_set(
    before: Seq<(String, JsonValue)>,
    after: Seq<(String, JsonValue)>,
    key: Seq<char>,
    value: JsonValue,
) -> bool {
    match member_index(before, key) {
        Some(i) => after.len() == before.len() && after[i].0@ == key && after[i].1 == value && forall|j: int|
            0 <= j < before.len() && j != i ==> #[trigger] after[j] == before[j],
        None => after.len() == before.len() + 1 && after.take(before.len() as int) == before
            && after.last().0@ == key && after.last().1 == value,
    }
}

/// Setting a member makes it readable, and leaves every other member as it was.
pub proof fn lemma_member_set(
    before: Seq<(String, JsonValue)>,
    after: Seq<(String, JsonValue)>,
    key: Seq<char>,
    value: JsonValue,
    other: Seq<char>,
)
    requires
        member_set(before, after, key, value),
    ensures
        members_get(after, key) == Some(value),
        other != key ==> members_get(after, other) == members_get(before, other),
{
    lemma_member_index(before, key);
    lemma_member_index(after, key);
    lemma_member_index(before, other);
    lemma_member_index(after, other);
    match member_index(before, key) {
        Some(i) => {
            assert(after[i].0@ == key);
            match member_index(after, key) {
                Some(k) => {
                    if k < i {
                        assert(after[k] == before[k]);
                    } else if k > i {
                        assert(after[i].0@ != key);
                    }
                },
                None => {},
            }
            if other != key {
                match member_index(before, other) {
                    Some(b) => {
                        assert(after[b] == before[b]);
                        match member_index(after, other) {
                            Some(a) => {
                                if a < b {
                                    if a != i {
                                        assert(after[a] == before[a]);
                                    }
                                } else if b < a {
                                    assert(after[b].0@ == other);
                                }
                            },
                            None => {},
                        }
                    },
                    None => {
                        match member_index(after, other) {
                            Some(a) => {
                                if a != i {
                                    assert(after[a] == before[a]);
                                }
                            },
                            None => {},
                        }
                    },
                }
            }
        },
        None => {
            let n = before.len() as int;
            assert forall|j: int| 0 <= j < n implies #[trigger] after[j] == before[j] by {
                assert(after.take(n)[j] == after[j]);
            }
            match member_index(after, key) {
                Some(k) => {
                    if k < n {
                        assert(after[k] == before[k]);
                    }
                },
                None => {
                    assert(after[n].0@ == key);
                },
            }
            if other != key {
                match member_index(before, other) {
                    Some(b) => {
                        assert(after[b] == before[b]);
                        match member_index(after, other) {
                            Some(a) => {
                                if a < b {
                                    assert(after[a] == before[a]);
                                } else if b < a {
                                    assert(after[b].0@ == other);
                                }
                            },
                            None => {},
                        }
                    },
                    None => {
                        match member_index(after, other) {
                            Some(a) => {
                                if a < n {
                                    assert(after[a] == before[a]);
                                }
                            },
                            None => {},
                        }
                    },
                }
            }
        },
    }
}

fn find_member(members: &Vec<(String, JsonValue)>, key: &str) -> (r: Option<usize>)
    ensures
        match r {
            Some(i) => member_index(members@, key@) == Some(i as int) && i < members@.len(),
            None => member_index(members@, key@) is None,
        },
{
    proof {
        lemma_member_index(members@, key@);
    }
    let mut i: usize = 0;
    while i < members.len()
        invariant
            0 <= i <= members@.len(),
            forall|j: int| 0 <= j < i ==> (#[trigger] members@[j]).0@ != key@,
            match member_index(members@, key@) {
                Some(k) => 0 <= k < members@.len() && members@[k].0@ == key@ && forall|j: int|
                    0 <= j < k ==> (#[trigger] members@[j]).0@ != key@,
                None => forall|j: int| 0 <= j < members@.len() ==> (#[trigger] members@[j]).0@ != key@,
            },
        decreases members@.len() - i,
    {
        if str_eq(members[i].0.as_str(), key) {
            return Some(i);
        }
        i = i + 1;
    }
    None
}

impl JsonValue {
    /// The member `key`, when this is an object that has one.
    pub fn get(&self, key: &str) -> (r: Option<&JsonValue>)
        ensures
            match r {
                Some(v) => json_get(*self, key@) == Some(*v),
                None => json_get(*self, key@) is None,
            },
    {
        match self {
            JsonValue::Object(members) => match find_member(members, key) {
                Some(i) => Some(&members[i].1),
                None => None,
            },
            _ => None,
        }
    }

    pub fn contains_key(&self, key: &str) -> (r: bool)
        ensures
            r == json_get(*self, key@) is Some,
    {
        self.get(key).is_some()
    }

    pub fn is_object(&self) -> (r: bool)
        ensures
            r == self is Object,
    {
        match self {
            JsonValue::Object(_) => true,
            _ => false,
        }
    }

    pub fn as_str(&self) -> (r: Option<&str>)
        ensures
            match r {
                Some(s) => json_str(Some(*self)) == Some(s@),
                None => json_str(Some(*self)) is None,
            },
    {
        match self {
            JsonValue::Text(s) => Some(s.as_str()),
            _ => None,
        }
    }

    pub fn as_array(&self) -> (r: Option<&Vec<JsonValue>>)
        ensures
            match *self {
                JsonValue::Array(items) => r == Some(&items),
                _ => r is None,
            },
    {
        match self {
            JsonValue::Array(items) => Some(items),
            _ => None,
        }
    }

    pub fn as_u64(&self) -> (r: Option<u64>)
        ensures
            r == json_u64(Some(*self)),
    {
        match self {
            JsonValue::Unsigned(n) => Some(*n),
            _ => None,
        }
    }

    /// An object with no members.
    pub fn empty_object() -> (r: JsonValue)
        ensures
            r matches JsonValue::Object(m) && m@.len() == 0,
    {
        JsonValue::Object(Vec::new())
    }

    /// Sets member `key` of an object; any other value is left as it is.
    pub fn insert(&mut self, key: String, value: JsonValue)
        ensures
            match *old(self) {
                JsonValue::Object(m) => *final(self) matches JsonValue::Object(n) && member_set(
                    m@,
                    n@,
                    key@,
                    value,
                ),
                _ => *final(self) == *old(self),
            },
    {
        match self {
            JsonValue::Object(members) => {
                match find_member(members, key.as_str()) {
                    Some(i) => {
                        let ghost before = members@;
                        let _ = members.remove(i);
                        members.insert(i, (key, value));
                        assert(members@ =~= before.update(i as int, (key, value)));
                    },
                    None => {
                        let ghost before = members@;
                        members.push((key, value));
                        assert(members@.take(before.len() as int) =~= before);
                    },
                }
            },
            _ => {},
        }
    }
}

/// The mathematical value of a JSON value.
pub enum JsonView {
    Null,
    Bool(bool),
    Unsigned(u64),
    Negative(i64),
    Decimal(Seq<char>),
    Text(Seq<char>),
    Array(Seq<JsonView>),
    Object(Seq<(Seq<char>, JsonView)>),
}

pub open spec fn json_view(v: JsonValue) -> JsonView
    decreases v, 0nat,
{
    match v {
        JsonValue::Null => JsonView::Null,
        JsonValue::Bool(b) => JsonView::Bool(b),
        JsonValue::Unsigned(n) => JsonView::Unsigned(n),
        JsonValue::Negative(n) => JsonView::Negative(n),
        JsonValue::Decimal(s) => JsonView::Decimal(s@),
        JsonValue::Text(s) => JsonView::Text(s@),
        JsonValue::Array(items) => JsonView::Array(items_view(items@, items@.len())),
        JsonValue::Object(members) => JsonView::Object(members_view(members@, members@.len())),
    }
}

/// The views of the first `n` items.
pub open spec fn items_view(items: Seq<JsonValue>, n: nat) -> Seq<JsonView>
    decreases items, n,
{
    if n == 0 || n > items.len() {
        Seq::empty()
    } else {
        items_view(items, (n - 1) as nat).push(json_view(items[n - 1]))
    }
}

/// The views of the first `n` members.
pub open spec fn members_view(members: Seq<(String, JsonValue)>, n: nat) -> Seq<(Seq<char>, JsonView)>
    decreases members, n,
{
    if n == 0 || n > members.len() {
        Seq::empty()
    } else {
        members_view(members, (n - 1) as nat).push((members[n - 1].0@, json_view(members[n - 1].1)))
    }
}

impl View for JsonValue {
    type V = JsonView;

    open spec fn view(&self) -> JsonView {
        json_view(*self)
    }
}

pub proof fn lemma_items_view(items: Seq<JsonValue>, n: nat)
    requires
        n <= items.len(),
    ensures
        items_view(items, n).len() == n,
        forall|i: int| 0 <= i < n ==> #[trigger] items_view(items, n)[i] == json_view(items[i]),
    decreases n,
{
    if n > 0 {
        lemma_items_view(items, (n - 1) as nat);
    }
}

pub proof fn lemma_members_view(members: Seq<(String, JsonValue)>, n: nat)
    requires
        n <= members.len(),
    ensures
        members_view(members, n).len() == n,
        forall|i: int|
            0 <= i < n ==> #[trigger] members_view(members, n)[i] == (members[i].0@, json_view(members[i].1)),
    decreases n,
{
    if n > 0 {
        lemma_members_view(members, (n - 1) as nat);
    }
}

impl JsonValue {
    /// A copy with the same view.
    pub fn copy(&self) -> (r: JsonValue)
        ensures
            r@ == self@,
        decreases self,
    {
        match self {
            JsonValue::Null => JsonValue::Null,
            JsonValue::Bool(b) => JsonValue::Bool(*b),
            JsonValue::Unsigned(n) => JsonValue::Unsigned(*n),
            JsonValue::Negative(n) => JsonValue::Negative(*n),
            JsonValue::Decimal(s) => JsonValue::Decimal(s.clone()),
            JsonValue::Text(s) => JsonValue::Text(s.clone()),
            JsonValue::Array(items) => {
                let mut out: Vec<JsonValue> = Vec::new();
                let mut i: usize = 0;
                while i < items.len()
                    invariant
                        *self == JsonValue::Array(*items),
                        0 <= i <= items@.len(),
                        out@.len() == i,
                        forall|k: int| 0 <= k < i ==> json_view(#[trigger] out@[k]) == json_view(items@[k]),
                    decreases items@.len() - i,
                {
                    proof {
                        assert(decreases_to!(*self => self->Array_0));
                        assert(decreases_to!(*items => items@));
                        assert(decreases_to!(items@ => items@[i as int]));
                    }
                    let item = items[i].copy();
                    out.push(item);
                    i = i + 1;
                }
                proof {
                    lemma_items_view(out@, out@.len());
                    lemma_items_view(items@, items@.len());
                    assert(items_view(out@, out@.len()) =~= items_view(items@, items@.len()));
                }
                JsonValue::Array(out)
            },
            JsonValue::Object(members) => {
                let mut out: Vec<(String, JsonValue)> = Vec::new();
                let mut i: usize = 0;
                while i < members.len()
                    invariant
                        *self == JsonValue::Object(*members),
                        0 <= i <= members@.len(),
                        out@.len() == i,
                        forall|k: int|
                            0 <= k < i ==> (#[trigger] out@[k]).0@ == members@[k].0@ && json_view(out@[k].1)
                                == json_view(members@[k].1),
                    decreases members@.len() - i,
                {
                    proof {
                        assert(decreases_to!(*self => self->Object_0));
                        assert(decreases_to!(*members => members@));
                        assert(decreases_to!(members@ => members@[i as int]));
                        assert(decreases_to!(members@[i as int] => members@[i as int].1));
                    }
                    let value = members[i].1.copy();
                    out.push((members[i].0.clone(), value));
                    i = i + 1;
                }
                proof {
                    lemma_members_view(out@, out@.len());
                    lemma_members_view(members@, members@.len());
                    assert(members_view(out@, out@.len()) =~= members_view(members@, members@.len()));
                }
                JsonValue::Object(out)
            },
        }
    }
}

} // verus!
