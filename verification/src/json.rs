//! JSON values as the JMAP engine reads and writes them.

use vstd::prelude::*;

use crate::text::{same_text, views};

verus! {

/// A JSON value. Of numbers the engine reads unsigned 64-bit integers alone;
/// any other number is passed on as it is written ([`Json::OtherNumber`]).
#[derive(Debug, PartialEq, Eq)]
pub enum Json {
    /// `null`.
    Null,
    /// `true` or `false`.
    Bool(bool),
    /// An integer between zero and `u64::MAX`.
    Unsigned(u64),
    /// A negative, fractional or larger number: its text.
    OtherNumber(String),
    /// A string.
    Text(String),
    /// An array.
    Array(Vec<Json>),
    /// An object: its members in order. A name that occurs more than once
    /// stands for its first member.
    Object(Vec<(String, Json)>),
}

/// The contents of a [`Json`] value.
#[verifier::ext_equal]
pub enum JsonView {
    Null,
    Bool(bool),
    Unsigned(u64),
    OtherNumber(Seq<char>),
    Text(Seq<char>),
    Array(Seq<JsonView>),
    Object(Seq<(Seq<char>, JsonView)>),
}

impl Json {
    /// The contents of the value.
    pub open spec fn contents(self) -> JsonView
        decreases self,
    {
        match self {
            Json::Null => JsonView::Null,
            Json::Bool(b) => JsonView::Bool(b),
            Json::Unsigned(n) => JsonView::Unsigned(n),
            Json::OtherNumber(n) => JsonView::OtherNumber(n@),
            Json::Text(t) => JsonView::Text(t@),
            Json::Array(items) => JsonView::Array(
                Seq::new(
                    items@.len(),
                    |i: int|
                        if 0 <= i < items@.len() {
                            items@[i].contents()
                        } else {
                            JsonView::Null
                        },
                ),
            ),
            Json::Object(members) => JsonView::Object(
                Seq::new(
                    members@.len(),
                    |i: int|
                        if 0 <= i < members@.len() {
                            (members@[i].0@, members@[i].1.contents())
                        } else {
                            (Seq::empty(), JsonView::Null)
                        },
                ),
            ),
        }
    }

    proof fn lemma_contents(self)
        ensures
            self matches Json::Array(items) ==> self.contents() == JsonView::Array(
                json_views(items@),
            ),
            self matches Json::Object(members) ==> self.contents() == JsonView::Object(
                member_views(members@),
            ),
    {
        reveal_with_fuel(Json::contents, 2);
        if let Json::Array(items) = self {
            assert(self.contents()->Array_0 =~= json_views(items@));
        }
        if let Json::Object(members) = self {
            assert(self.contents()->Object_0 =~= member_views(members@));
        }
    }
}

impl Clone for Json {
    fn clone(&self) -> (r: Self)
        ensures
            r@ == self@,
    {
        self.copy()
    }
}

impl View for Json {
    type V = JsonView;

    open spec fn view(&self) -> JsonView {
        self.contents()
    }
}

/// The contents of a list of values.
pub open spec fn json_views(items: Seq<Json>) -> Seq<JsonView> {
    items.map_values(|v: Json| v@)
}

/// The contents of a list of object members.
pub open spec fn member_views(members: Seq<(String, Json)>) -> Seq<(Seq<char>, JsonView)> {
    members.map_values(|m: (String, Json)| (m.0@, m.1@))
}

/// An array of strings.
pub open spec fn text_array(texts: Seq<Seq<char>>) -> JsonView {
    JsonView::Array(texts.map_values(|t: Seq<char>| JsonView::Text(t)))
}

/// The first member called `name`.
pub open spec fn member_named(members: Seq<(Seq<char>, JsonView)>, name: Seq<char>) -> Option<
    JsonView,
>
    decreases members.len(),
{
    if members.len() == 0 {
        None
    } else if members[0].0 == name {
        Some(members[0].1)
    } else {
        member_named(members.skip(1), name)
    }
}

impl JsonView {
    /// The member `name` of an object; `None` on anything else.
    pub open spec fn get(self, name: Seq<char>) -> Option<JsonView> {
        match self {
            JsonView::Object(members) => member_named(members, name),
            _ => None,
        }
    }

    /// The characters of a string; `None` on anything else.
    pub open spec fn as_str(self) -> Option<Seq<char>> {
        match self {
            JsonView::Text(t) => Some(t),
            _ => None,
        }
    }

    /// The number of an unsigned 64-bit integer; `None` on anything else.
    pub open spec fn as_u64(self) -> Option<u64> {
        match self {
            JsonView::Unsigned(n) => Some(n),
            _ => None,
        }
    }

    /// The items of an array; `None` on anything else.
    pub open spec fn as_array(self) -> Option<Seq<JsonView>> {
        match self {
            JsonView::Array(items) => Some(items),
            _ => None,
        }
    }

    /// The member names of an object, in order; `None` on anything else.
    pub open spec fn keys(self) -> Option<Seq<Seq<char>>> {
        match self {
            JsonView::Object(members) => Some(
                members.map_values(|m: (Seq<char>, JsonView)| m.0),
            ),
            _ => None,
        }
    }

    /// The string that member `name` holds, if it holds one.
    pub open spec fn text_at(self, name: Seq<char>) -> Option<Seq<char>> {
        match self.get(name) {
            Some(v) => v.as_str(),
            None => None,
        }
    }
}

impl Json {
    /// A string value.
    pub fn text(text: &str) -> (r: Json)
        ensures
            r@ == JsonView::Text(text@),
    {
        Json::Text(text.to_string())
    }

    /// An array of the given items.
    pub fn array(items: Vec<Json>) -> (r: Json)
        ensures
            r@ == JsonView::Array(json_views(items@)),
    {
        let r = Json::Array(items);
        proof {
            r.lemma_contents();
        }
        r
    }

    /// An object of the given members.
    pub fn object(members: Vec<(String, Json)>) -> (r: Json)
        ensures
            r@ == JsonView::Object(member_views(members@)),
    {
        let r = Json::Object(members);
        proof {
            r.lemma_contents();
        }
        r
    }

    /// A value of the same contents.
    fn copy(&self) -> (r: Json)
        ensures
            r@ == self@,
        decreases self,
    {
        match self {
            Json::Null => Json::Null,
            Json::Bool(b) => Json::Bool(*b),
            Json::Unsigned(n) => Json::Unsigned(*n),
            Json::OtherNumber(n) => Json::OtherNumber(n.clone()),
            Json::Text(t) => Json::Text(t.clone()),
            Json::Array(items) => {
                let mut copies: Vec<Json> = Vec::new();
                let mut i: usize = 0;
                while i < items.len()
                    invariant
                        i <= items@.len(),
                        *self == Json::Array(*items),
                        copies@.len() == i,
                        forall|j: int| 0 <= j < i ==> (#[trigger] copies@[j])@ == items@[j]@,
                    decreases items@.len() - i,
                {
                    assert(decreases_to!(*self => self->Array_0@[i as int]));
                    copies.push(items[i].copy());
                    i += 1;
                }
                assert(json_views(copies@) =~= json_views(items@));
                proof {
                    self.lemma_contents();
                }
                Json::array(copies)
            },
            Json::Object(members) => {
                let mut copies: Vec<(String, Json)> = Vec::new();
                let mut i: usize = 0;
                while i < members.len()
                    invariant
                        i <= members@.len(),
                        *self == Json::Object(*members),
                        copies@.len() == i,
                        forall|j: int|
                            0 <= j < i ==> (#[trigger] copies@[j]).0@ == members@[j].0@
                                && copies@[j].1@ == members@[j].1@,
                    decreases members@.len() - i,
                {
                    assert(decreases_to!(*self => self->Object_0@[i as int].1));
                    copies.push((members[i].0.clone(), members[i].1.copy()));
                    i += 1;
                }
                assert(member_views(copies@) =~= member_views(members@));
                proof {
                    self.lemma_contents();
                }
                Json::object(copies)
            },
        }
    }

    /// An array of the given strings.
    pub fn texts(texts: &Vec<String>) -> (r: Json)
        ensures
            r@ == text_array(views(texts@)),
    {
        let mut items: Vec<Json> = Vec::new();
        let mut i: usize = 0;
        while i < texts.len()
            invariant
                i <= texts@.len(),
                items@.len() == i,
                forall|j: int| 0 <= j < i ==> (#[trigger] items@[j])@ == JsonView::Text(texts@[j]@),
            decreases texts@.len() - i,
        {
            items.push(Json::text(texts[i].as_str()));
            i += 1;
        }
        let r = Json::array(items);
        assert(r@->Array_0 =~= text_array(views(texts@))->Array_0);
        r
    }

    /// The member `name` of an object; `None` on anything else.
    pub fn get(&self, name: &str) -> (r: Option<&Json>)
        ensures
            r is Some <==> self@.get(name@) is Some,
            r matches Some(v) ==> self@.get(name@) == Some(v@),
    {
        match self {
            Json::Object(members) => {
                proof {
                    self.lemma_contents();
                }
                let ghost all = member_views(members@);
                let mut i: usize = 0;
                assert(all.skip(0) =~= all);
                while i < members.len()
                    invariant
                        i <= members@.len(),
                        all == member_views(members@),
                        self@ == JsonView::Object(all),
                        member_named(all, name@) == member_named(all.skip(i as int), name@),
                    decreases members@.len() - i,
                {
                    assert(all.skip(i as int)[0] == all[i as int]);
                    assert(all.skip(i as int).skip(1) =~= all.skip(i + 1));
                    if same_text(members[i].0.as_str(), name) {
                        return Some(&members[i].1);
                    }
                    i += 1;
                }
                None
            },
            _ => None,
        }
    }

    /// The characters of a string; `None` on anything else.
    pub fn as_str(&self) -> (r: Option<&str>)
        ensures
            r is Some <==> self@.as_str() is Some,
            r matches Some(t) ==> self@.as_str() == Some(t@),
    {
        match self {
            Json::Text(t) => Some(t.as_str()),
            _ => None,
        }
    }

    /// The number of an unsigned 64-bit integer; `None` on anything else.
    pub fn as_u64(&self) -> (r: Option<u64>)
        ensures
            r == self@.as_u64(),
    {
        match self {
            Json::Unsigned(n) => Some(*n),
            _ => None,
        }
    }

    /// The items of an array; `None` on anything else.
    pub fn as_array(&self) -> (r: Option<&Vec<Json>>)
        ensures
            r is Some <==> self@.as_array() is Some,
            r matches Some(items) ==> self@.as_array() == Some(json_views(items@)),
    {
        match self {
            Json::Array(items) => {
                proof {
                    self.lemma_contents();
                }
                Some(items)
            },
            _ => None,
        }
    }

    /// The member names of an object, in order; `None` on anything else.
    pub fn keys(&self) -> (r: Option<Vec<String>>)
        ensures
            r is Some <==> self@.keys() is Some,
            r matches Some(names) ==> self@.keys() == Some(views(names@)),
    {
        match self {
            Json::Object(members) => {
                let mut names: Vec<String> = Vec::new();
                let mut i: usize = 0;
                while i < members.len()
                    invariant
                        i <= members@.len(),
                        names@.len() == i,
                        forall|j: int| 0 <= j < i ==> (#[trigger] names@[j])@ == members@[j].0@,
                    decreases members@.len() - i,
                {
                    names.push(members[i].0.clone());
                    i += 1;
                }
                proof {
                    self.lemma_contents();
                    assert(self@.keys()->0 =~= views(names@));
                }
                Some(names)
            },
            _ => None,
        }
    }

    /// The string that member `name` holds, if it holds one.
    pub fn text_at(&self, name: &str) -> (r: Option<String>)
        ensures
            r is Some <==> self@.text_at(name@) is Some,
            r matches Some(t) ==> self@.text_at(name@) == Some(t@),
    {
        match self.get(name) {
            Some(v) => match v.as_str() {
                Some(t) => Some(t.to_string()),
                None => None,
            },
            None => None,
        }
    }
}

/// Appends a member to an object under construction.
pub(crate) fn put(members: &mut Vec<(String, Json)>, name: &str, value: Json)
    ensures
        member_views(final(members)@) == member_views(old(members)@).push((name@, value@)),
{
    members.push((name.to_string(), value));
    assert(member_views(members@) =~= member_views(old(members)@).push((name@, value@)));
}

/// Appends an item to an array under construction.
pub(crate) fn push_item(items: &mut Vec<Json>, value: Json)
    ensures
        json_views(final(items)@) == json_views(old(items)@).push(value@),
{
    items.push(value);
    assert(json_views(items@) =~= json_views(old(items)@).push(value@));
}

/// A member is found by its name: the first member of that name, and none
/// where there is none.
pub proof fn law_members_are_found_by_name(members: Seq<(Seq<char>, JsonView)>, name: Seq<char>)
    ensures
        JsonView::Object(members).get(name) is None <==> forall|i: int|
            0 <= i < members.len() ==> (#[trigger] members[i]).0 != name,
        JsonView::Object(members).get(name) matches Some(v) ==> exists|i: int|
            0 <= i < members.len() && (#[trigger] members[i]) == (name, v) && forall|j: int|
                0 <= j < i ==> (#[trigger] members[j]).0 != name,
    decreases members.len(),
{
    if members.len() > 0 {
        if members[0].0 == name {
            assert(members[0] == (name, members[0].1));
        } else {
            let rest = members.skip(1);
            law_members_are_found_by_name(rest, name);
            if member_named(members, name) is None {
                assert forall|i: int| 0 <= i < members.len() implies (#[trigger] members[i]).0
                    != name by {
                    if i > 0 {
                        assert(rest[i - 1] == members[i]);
                    }
                }
            } else {
                let v = member_named(members, name)->0;
                let i = choose|i: int|
                    0 <= i < rest.len() && (#[trigger] rest[i]) == (name, v) && forall|j: int|
                        0 <= j < i ==> (#[trigger] rest[j]).0 != name;
                assert(members[i + 1] == (name, v));
                assert forall|j: int| 0 <= j < i + 1 implies (#[trigger] members[j]).0 != name by {
                    if j > 0 {
                        assert(rest[j - 1] == members[j]);
                    }
                }
            }
        }
    }
}

/// Only a value of the right kind is read: a string as its characters, an
/// unsigned number as itself, an array as its items, an object as the names
/// of its members in order. Anything else has no members.
pub proof fn law_values_are_read_by_their_kind(v: JsonView, name: Seq<char>)
    ensures
        v.as_str() matches Some(t) ==> v == JsonView::Text(t),
        v.as_str() is None ==> !(v is Text),
        v.as_u64() matches Some(n) ==> v == JsonView::Unsigned(n),
        v.as_u64() is None ==> !(v is Unsigned),
        v.as_array() matches Some(items) ==> v == JsonView::Array(items),
        v.as_array() is None ==> !(v is Array),
        !(v is Object) ==> v.get(name) is None && v.keys() is None && v.text_at(name) is None,
        v matches JsonView::Object(members) ==> (v.keys() matches Some(keys) && keys.len()
            == members.len() && forall|i: int|
            0 <= i < keys.len() ==> #[trigger] keys[i] == members[i].0),
        v.text_at(name) matches Some(t) ==> v.get(name) == Some(JsonView::Text(t)),
        v.get(name) matches Some(JsonView::Text(t)) ==> v.text_at(name) == Some(t),
{
}

/// What a value is seen as: its own kind and contents, item by item and
/// member by member.
pub proof fn law_values_keep_their_contents(v: Json)
    ensures
        match v {
            Json::Null => v@ == JsonView::Null,
            Json::Bool(b) => v@ == JsonView::Bool(b),
            Json::Unsigned(n) => v@ == JsonView::Unsigned(n),
            Json::OtherNumber(n) => v@ == JsonView::OtherNumber(n@),
            Json::Text(t) => v@ == JsonView::Text(t@),
            Json::Array(items) => {
                &&& v@ matches JsonView::Array(seen)
                &&& seen.len() == items@.len()
                &&& forall|i: int| 0 <= i < seen.len() ==> #[trigger] seen[i] == items@[i]@
            },
            Json::Object(members) => {
                &&& v@ matches JsonView::Object(seen)
                &&& seen.len() == members@.len()
                &&& forall|i: int|
                    0 <= i < seen.len() ==> (#[trigger] seen[i]).0 == members@[i].0@ && seen[i].1
                        == members@[i].1@
            },
        },
{
    v.lemma_contents();
}

/// An array of strings holds each string, in order.
pub proof fn law_array_of_strings(texts: Seq<Seq<char>>)
    ensures
        text_array(texts) matches JsonView::Array(items) && items.len() == texts.len() && forall|
            i: int,
        |
            0 <= i < items.len() ==> #[trigger] items[i] == JsonView::Text(texts[i]),
{
}

/// Lists of values and of members are seen item by item, in order.
pub proof fn law_lists_are_seen_in_order(items: Seq<Json>, members: Seq<(String, Json)>)
    ensures
        json_views(items).len() == items.len(),
        forall|i: int| 0 <= i < items.len() ==> #[trigger] json_views(items)[i] == items[i]@,
        member_views(members).len() == members.len(),
        forall|i: int|
            0 <= i < members.len() ==> #[trigger] member_views(members)[i] == (
                members[i].0@,
                members[i].1@,
            ),
{
}

}
