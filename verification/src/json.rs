//! A plain model of JSON documents, as the library reads them.

use vstd::prelude::*;

use crate::boundary::{uuid_from_text, uuid_parse};
use crate::text::str_eq;

verus! {

/// A JSON value. Numbers keep their JSON text; object members keep the
/// order in which the document lists them.
pub enum Json {
    Null,
    Bool(bool),
    Number(String),
    String(String),
    Array(Vec<Json>),
    Object(Vec<(String, Json)>),
}

/// A JSON value's content.
pub ghost enum JsonView {
    Null,
    Bool(bool),
    Number(Seq<char>),
    String(Seq<char>),
    Array(Seq<JsonView>),
    Object(Seq<(Seq<char>, JsonView)>),
}

/// The content of a JSON value.
pub open spec fn json_view(j: Json) -> JsonView
    decreases j,
{
    match j {
        Json::Null => JsonView::Null,
        Json::Bool(b) => JsonView::Bool(b),
        Json::Number(n) => JsonView::Number(n@),
        Json::String(s) => JsonView::String(s@),
        Json::Array(items) => JsonView::Array(items_view(items@)),
        Json::Object(members) => JsonView::Object(members_view(members@)),
    }
}

/// The contents of a sequence of values.
pub open spec fn items_view(items: Seq<Json>) -> Seq<JsonView>
    decreases items,
{
    if items.len() == 0 {
        seq![]
    } else {
        items_view(items.subrange(0, items.len() - 1)).push(json_view(items[items.len() - 1]))
    }
}

/// The contents of a sequence of object members.
pub open spec fn members_view(members: Seq<(String, Json)>) -> Seq<(Seq<char>, JsonView)>
    decreases members,
{
    if members.len() == 0 {
        seq![]
    } else {
        members_view(members.subrange(0, members.len() - 1)).push(
            (members[members.len() - 1].0@, json_view(members[members.len() - 1].1)),
        )
    }
}

impl View for Json {
    type V = JsonView;

    open spec fn view(&self) -> JsonView {
        json_view(*self)
    }
}

/// The contents of a sequence of values, one by one.
pub proof fn lemma_items_view(items: Seq<Json>)
    ensures
        items_view(items).len() == items.len(),
        forall|i: int| 0 <= i < items.len() ==> #[trigger] items_view(items)[i] == json_view(items[i]),
    decreases items.len(),
{
    if items.len() > 0 {
        let init = items.subrange(0, items.len() - 1);
        lemma_items_view(init);
        assert forall|i: int| 0 <= i < items.len() implies #[trigger] items_view(items)[i] == json_view(items[i]) by {
            if i < items.len() - 1 {
                assert(init[i] == items[i]);
            }
        }
    }
}

/// The contents of a sequence of object members, one by one.
pub proof fn lemma_members_view(members: Seq<(String, Json)>)
    ensures
        members_view(members).len() == members.len(),
        forall|i: int| 0 <= i < members.len() ==> #[trigger] members_view(members)[i] == (members[i].0@, json_view(members[i].1)),
    decreases members.len(),
{
    if members.len() > 0 {
        let init = members.subrange(0, members.len() - 1);
        lemma_members_view(init);
        assert forall|i: int| 0 <= i < members.len() implies #[trigger] members_view(members)[i] == (members[i].0@, json_view(members[i].1)) by {
            if i < members.len() - 1 {
                assert(init[i] == members[i]);
            }
        }
    }
}

/// Sequences of values with the same contents one by one have the same contents.
pub proof fn lemma_items_view_eq(a: Seq<Json>, b: Seq<Json>)
    requires
        a.len() == b.len(),
        forall|i: int| 0 <= i < a.len() ==> json_view(#[trigger] a[i]) == json_view(b[i]),
    ensures
        items_view(a) == items_view(b),
{
    lemma_items_view(a);
    lemma_items_view(b);
    assert(items_view(a) =~= items_view(b));
}

/// Sequences of members with the same contents one by one have the same contents.
pub proof fn lemma_members_view_eq(a: Seq<(String, Json)>, b: Seq<(String, Json)>)
    requires
        a.len() == b.len(),
        forall|i: int| 0 <= i < a.len() ==> (#[trigger] a[i]).0@ == b[i].0@ && json_view(a[i].1) == json_view(b[i].1),
    ensures
        members_view(a) == members_view(b),
{
    lemma_members_view(a);
    lemma_members_view(b);
    assert(members_view(a) =~= members_view(b));
}

impl Json {
    /// A copy of this value.
    pub fn copy(&self) -> (r: Json)
        ensures
            r@ == self@,
        decreases self,
    {
        match self {
            Json::Null => Json::Null,
            Json::Bool(b) => Json::Bool(*b),
            Json::Number(n) => Json::Number(n.clone()),
            Json::String(t) => Json::String(t.clone()),
            Json::Array(items) => {
                let mut out: Vec<Json> = Vec::new();
                let mut i: usize = 0;
                while i < items.len()
                    invariant
                        *self == Json::Array(*items),
                        i <= items@.len(),
                        out@.len() == i,
                        forall|j: int| 0 <= j < i ==> json_view(#[trigger] out@[j]) == json_view(items@[j]),
                    decreases items@.len() - i,
                {
                    proof {
                        assert(decreases_to!(*self => (*self)->Array_0));
                        assert(decreases_to!(*items => items@));
                        assert(decreases_to!(items@ => items@[i as int]));
                    }
                    let c = items[i].copy();
                    out.push(c);
                    i = i + 1;
                }
                proof {
                    lemma_items_view_eq(out@, items@);
                }
                Json::Array(out)
            },
            Json::Object(members) => {
                let mut out: Vec<(String, Json)> = Vec::new();
                let mut i: usize = 0;
                while i < members.len()
                    invariant
                        *self == Json::Object(*members),
                        i <= members@.len(),
                        out@.len() == i,
                        forall|j: int|
                            0 <= j < i ==> (#[trigger] out@[j]).0@ == members@[j].0@ && json_view(out@[j].1) == json_view(
                                members@[j].1,
                            ),
                    decreases members@.len() - i,
                {
                    proof {
                        assert(decreases_to!(*self => (*self)->Object_0));
                        assert(decreases_to!(*members => members@));
                        assert(decreases_to!(members@ => members@[i as int]));
                        assert(decreases_to!(members@[i as int] => members@[i as int].1));
                    }
                    let v = members[i].1.copy();
                    out.push((members[i].0.clone(), v));
                    i = i + 1;
                }
                proof {
                    lemma_members_view_eq(out@, members@);
                }
                Json::Object(out)
            },
        }
    }
}

/// A JSON string holding `s`, or `null`.
pub open spec fn text_or_null(s: Option<Seq<char>>) -> JsonView {
    match s {
        Some(t) => JsonView::String(t),
        None => JsonView::Null,
    }
}

/// A JSON string holding a copy of `s`, or `null`.
pub fn text_or_null_json(s: &Option<String>) -> (r: Json)
    ensures
        r@ == text_or_null(match *s { Some(t) => Some(t@), None => None }),
{
    match s {
        Some(t) => Json::String(t.clone()),
        None => Json::Null,
    }
}

/// The value stored under `key` in an object (its first member with that key).
pub open spec fn member_of(members: Seq<(String, Json)>, key: Seq<char>) -> Option<Json>
    decreases members.len(),
{
    if members.len() == 0 {
        None
    } else if members[0].0@ == key {
        Some(members[0].1)
    } else {
        member_of(members.drop_first(), key)
    }
}

/// The members of an object with every member named `key` left out.
pub open spec fn members_without(members: Seq<(String, Json)>, key: Seq<char>) -> Seq<(String, Json)> {
    members.filter(not_named(key))
}

/// Whether a member is not named `key`.
pub open spec fn not_named(key: Seq<char>) -> spec_fn((String, Json)) -> bool {
    |m: (String, Json)| m.0@ != key
}

impl Json {
    /// The value under `key`, when this is an object that has one (`Value::get`).
    pub open spec fn spec_get(self, key: Seq<char>) -> Option<Json> {
        match self {
            Json::Object(members) => member_of(members@, key),
            _ => None,
        }
    }

    /// The text, when this is a string (`Value::as_str`).
    pub open spec fn spec_as_str(self) -> Option<Seq<char>> {
        match self {
            Json::String(s) => Some(s@),
            _ => None,
        }
    }

    /// The value under `key`, when this is an object that has one.
    pub fn get(&self, key: &str) -> (r: Option<&Json>)
        ensures
            match r {
                Some(v) => self.spec_get(key@) == Some(*v),
                None => self.spec_get(key@) is None,
            },
    {
        match self {
            Json::Object(members) => {
                let mut i: usize = 0;
                assert(members@.subrange(0, members@.len() as int) =~= members@);
                while i < members.len()
                    invariant
                        i <= members@.len(),
                        self.spec_get(key@) == member_of(members@, key@),
                        member_of(members@, key@) == member_of(members@.subrange(i as int, members@.len() as int), key@),
                    decreases members@.len() - i,
                {
                    let ghost rest = members@.subrange(i as int, members@.len() as int);
                    assert(rest.drop_first() =~= members@.subrange(i + 1, members@.len() as int));
                    assert(rest[0] == members@[i as int]);
                    let name = members[i].0.as_str();
                    assert(name@ == members@[i as int].0@);
                    if str_eq(name, key) {
                        assert(rest[0].0@ == key@);
                        assert(member_of(rest, key@) == Some(rest[0].1));
                        return Some(&members[i].1);
                    }
                    i = i + 1;
                }
                assert(members@.subrange(i as int, members@.len() as int).len() == 0);
                None
            },
            _ => None,
        }
    }

    /// The text, when this is a string.
    pub fn as_str(&self) -> (r: Option<&str>)
        ensures
            match r {
                Some(s) => self.spec_as_str() == Some(s@),
                None => self.spec_as_str() is None,
            },
    {
        match self {
            Json::String(s) => Some(s.as_str()),
            _ => None,
        }
    }

    /// Removes the member named `key` when this is an object
    /// (`as_object_mut().map(|o| o.remove(key))`).
    pub fn remove_member(self, key: &str) -> (r: Json)
        ensures
            r@ == view_without(self@, key@),
            match self {
                Json::Object(members) => r matches Json::Object(kept) && kept@ == members_without(members@, key@),
                _ => r == self,
            },
    {
        match self {
            Json::Object(members) => {
                let mut kept: Vec<(String, Json)> = Vec::new();
                let ghost all = members@;
                let ghost pred = not_named(key@);
                let mut rest = members;
                while rest.len() > 0
                    invariant
                        pred == not_named(key@),
                        rest@.len() <= all.len(),
                        rest@ == all.subrange(all.len() - rest@.len(), all.len() as int),
                        kept@ == all.subrange(0, all.len() - rest@.len()).filter(pred),
                    decreases rest@.len(),
                {
                    let ghost taken = all.len() - rest@.len();
                    let m = rest.remove(0);
                    assert(m == all[taken]);
                    let ghost before = all.subrange(0, taken);
                    assert(all.subrange(0, taken + 1) =~= before.push(m));
                    proof {
                        lemma_filter_push(before, pred, m);
                    }
                    assert(pred(m) == (m.0@ != key@));
                    if !str_eq(m.0.as_str(), key) {
                        kept.push(m);
                    }
                    assert(all.len() - rest@.len() == taken + 1);
                    assert(rest@ =~= all.subrange(all.len() - rest@.len(), all.len() as int));
                }
                assert(all.subrange(0, all.len() as int) =~= all);
                proof {
                    lemma_members_view_filter(all, key@);
                }
                Json::Object(kept)
            },
            other => other,
        }
    }
}

/// The content of a value with every object member named `key` removed,
/// when it is an object.
pub open spec fn view_without(v: JsonView, key: Seq<char>) -> JsonView {
    match v {
        JsonView::Object(ms) => JsonView::Object(ms.filter(view_not_named(key))),
        _ => v,
    }
}

/// Whether a member's content is not named `key`.
pub open spec fn view_not_named(key: Seq<char>) -> spec_fn((Seq<char>, JsonView)) -> bool {
    |m: (Seq<char>, JsonView)| m.0 != key
}

/// Removing members commutes with taking contents.
pub proof fn lemma_members_view_filter(ms: Seq<(String, Json)>, key: Seq<char>)
    ensures
        members_view(ms.filter(not_named(key))) == members_view(ms).filter(view_not_named(key)),
    decreases ms.len(),
{
    let vkeep = view_not_named(key);
    if ms.len() == 0 {
        assert(ms.filter(not_named(key)) =~= Seq::<(String, Json)>::empty());
        assert(members_view(ms) =~= Seq::<(Seq<char>, JsonView)>::empty());
        assert(members_view(ms).filter(vkeep) =~= Seq::<(Seq<char>, JsonView)>::empty());
    } else {
        let init = ms.subrange(0, ms.len() - 1);
        let last = ms[ms.len() - 1];
        lemma_members_view_filter(init, key);
        assert(ms =~= init.push(last));
        lemma_filter_push(init, not_named(key), last);
        let mv = members_view(ms);
        assert(mv == members_view(init).push((last.0@, json_view(last.1))));
        lemma_filter_push(members_view(init), vkeep, (last.0@, json_view(last.1)));
        if not_named(key)(last) {
            let f = init.filter(not_named(key)).push(last);
            assert(f.subrange(0, f.len() - 1) =~= init.filter(not_named(key)));
        }
    }
}

/// Filtering a sequence with one more element at its end.
pub proof fn lemma_filter_push<A>(s: Seq<A>, p: spec_fn(A) -> bool, x: A)
    ensures
        s.push(x).filter(p) == if p(x) {
            s.filter(p).push(x)
        } else {
            s.filter(p)
        },
{
    reveal_with_fuel(Seq::filter, 1);
    assert(s.push(x).drop_last() =~= s);
}

/// The identifier stored as text under `key`, when `value` is an object
/// holding a string there that parses as one.
pub open spec fn spec_get_uuid(value: Json, key: Seq<char>) -> Option<u128> {
    match value.spec_get(key) {
        Some(v) => match v.spec_as_str() {
            Some(s) => uuid_from_text(s),
            None => None,
        },
        None => None,
    }
}

/// The identifier stored as text under `key` in an object.
pub fn get_uuid(value: &Json, key: &str) -> (r: Option<u128>)
    ensures
        r == spec_get_uuid(*value, key@),
{
    match value.get(key) {
        Some(v) => match v.as_str() {
            Some(s) => uuid_parse(s),
            None => None,
        },
        None => None,
    }
}

} // verus!
