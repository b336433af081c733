//! A JSON value as the adapters read it. Numbers keep their text; objects
//! keep their members in order, each key once.
use vstd::prelude::*;

use crate::text::str_eq;

verus! {

/// A parsed JSON value.
#[derive(Debug)]
pub enum Json {
    Null,
    Bool(bool),
    Number(String),
    Str(String),
    Array(Vec<Json>),
    Object(Vec<(String, Json)>),
}

/// The member `key` of the members `m`: the first with that key.
pub open spec fn member(m: Seq<(String, Json)>, key: Seq<char>) -> Option<Json>
    decreases m.len(),
{
    if m.len() == 0 {
        None
    } else if m[0].0@ == key {
        Some(m[0].1)
    } else {
        member(m.drop_first(), key)
    }
}

/// The member `key` of `j` when `j` is an object.
pub open spec fn get(j: Json, key: Seq<char>) -> Option<Json> {
    match j {
        Json::Object(m) => member(m@, key),
        _ => None,
    }
}

/// The member of the first of `keys` that `j` has.
pub open spec fn first_present(j: Json, keys: Seq<Seq<char>>) -> Option<Json>
    decreases keys.len(),
{
    if keys.len() == 0 {
        None
    } else if get(j, keys[0]) is Some {
        get(j, keys[0])
    } else {
        first_present(j, keys.drop_first())
    }
}

/// The text of a string value.
pub open spec fn text_of(o: Option<Json>) -> Option<Seq<char>> {
    match o {
        Some(Json::Str(s)) => Some(s@),
        _ => None,
    }
}

/// The text of a string value, or empty.
pub open spec fn text_or_empty(o: Option<Json>) -> Seq<char> {
    match text_of(o) {
        Some(s) => s,
        None => seq![],
    }
}

/// A JSON value as data: texts in place of strings.
pub enum JsonView {
    Null,
    Bool(bool),
    Number(Seq<char>),
    Str(Seq<char>),
    Array(Seq<JsonView>),
    Object(Seq<(Seq<char>, JsonView)>),
}

/// What a JSON value holds.
pub open spec fn json_view(j: Json) -> JsonView
    decreases j,
{
    match j {
        Json::Null => JsonView::Null,
        Json::Bool(b) => JsonView::Bool(b),
        Json::Number(n) => JsonView::Number(n@),
        Json::Str(s) => JsonView::Str(s@),
        Json::Array(v) => JsonView::Array(
            Seq::new(
                v@.len(),
                |i: int|
                    if 0 <= i < v@.len() {
                        json_view(v@[i])
                    } else {
                        JsonView::Null
                    },
            ),
        ),
        Json::Object(m) => JsonView::Object(
            Seq::new(
                m@.len(),
                |i: int|
                    if 0 <= i < m@.len() {
                        (m@[i].0@, json_view(m@[i].1))
                    } else {
                        (seq![], JsonView::Null)
                    },
            ),
        ),
    }
}

impl Json {
    /// A copy of this value.
    pub fn duplicate(&self) -> (r: Json)
        ensures
            json_view(r) == json_view(*self),
        decreases self,
    {
        match self {
            Json::Null => Json::Null,
            Json::Bool(b) => Json::Bool(*b),
            Json::Number(n) => Json::Number(n.clone()),
            Json::Str(t) => Json::Str(t.clone()),
            Json::Array(v) => {
                let mut out: Vec<Json> = Vec::new();
                let mut i: usize = 0;
                while i < v.len()
                    invariant
                        *self == Json::Array(*v),
                        i <= v@.len(),
                        out@.len() == i,
                        forall|k: int| 0 <= k < i ==> json_view(#[trigger] out@[k]) == json_view(v@[k]),
                    decreases v@.len() - i,
                {
                    proof {
                        assert(decreases_to!(*self => (*self)->Array_0));
                        assert(decreases_to!(*v => v@));
                        assert(decreases_to!(v@ => v@[i as int]));
                    }
                    let c = v[i].duplicate();
                    out.push(c);
                    i += 1;
                }
                let r = Json::Array(out);
                assert(json_view(r) == json_view(*self)) by {
                    if let JsonView::Array(a) = json_view(r) {
                        if let JsonView::Array(b) = json_view(*self) {
                            assert(a =~= b);
                        }
                    }
                }
                r
            },
            Json::Object(m) => {
                let mut out: Vec<(String, Json)> = Vec::new();
                let mut i: usize = 0;
                while i < m.len()
                    invariant
                        *self == Json::Object(*m),
                        i <= m@.len(),
                        out@.len() == i,
                        forall|k: int|
                            0 <= k < i ==> (#[trigger] out@[k]).0@ == m@[k].0@ && json_view(out@[k].1)
                                == json_view(m@[k].1),
                    decreases m@.len() - i,
                {
                    proof {
                        assert(decreases_to!(*self => (*self)->Object_0));
                        assert(decreases_to!(*m => m@));
                        assert(decreases_to!(m@ => m@[i as int]));
                        assert(decreases_to!(m@[i as int] => m@[i as int].1));
                    }
                    let c = m[i].1.duplicate();
                    out.push((m[i].0.clone(), c));
                    i += 1;
                }
                let r = Json::Object(out);
                assert(json_view(r) == json_view(*self)) by {
                    if let JsonView::Object(a) = json_view(r) {
                        if let JsonView::Object(b) = json_view(*self) {
                            assert(a =~= b);
                        }
                    }
                }
                r
            },
        }
    }

    /// The member `key` of this value when it is an object.
    pub fn get(&self, key: &str) -> (r: Option<&Json>)
        ensures
            match r {
                Some(v) => get(*self, key@) == Some(*v),
                None => get(*self, key@) is None,
            },
    {
        match self {
            Json::Object(m) => {
                let mut i: usize = 0;
                assert(m@.skip(0) =~= m@);
                while i < m.len()
                    invariant
                        i <= m@.len(),
                        get(*self, key@) == member(m@, key@),
                        member(m@, key@) == member(m@.skip(i as int), key@),
                    decreases m@.len() - i,
                {
                    assert(m@.skip(i as int)[0] == m@[i as int]);
                    assert(m@.skip(i as int).drop_first() =~= m@.skip(i + 1));
                    if str_eq(m[i].0.as_str(), key) {
                        return Some(&m[i].1);
                    }
                    i += 1;
                }
                None
            },
            _ => None,
        }
    }

    /// The text of this value when it is a string.
    pub fn as_str(&self) -> (r: Option<&str>)
        ensures
            match r {
                Some(s) => text_of(Some(*self)) == Some(s@),
                None => text_of(Some(*self)) is None,
            },
    {
        match self {
            Json::Str(s) => Some(s.as_str()),
            _ => None,
        }
    }

    /// The member of the first of `keys` this value has.
    pub fn first_present(&self, keys: &[&str]) -> (r: Option<&Json>)
        ensures
            match r {
                Some(v) => first_present(*self, crate::text::str_views(keys@)) == Some(*v),
                None => first_present(*self, crate::text::str_views(keys@)) is None,
            },
    {
        let ghost ks = crate::text::str_views(keys@);
        let mut i: usize = 0;
        assert(ks.skip(0) =~= ks);
        while i < keys.len()
            invariant
                i <= keys@.len(),
                ks == crate::text::str_views(keys@),
                first_present(*self, ks) == first_present(*self, ks.skip(i as int)),
            decreases keys@.len() - i,
        {
            assert(ks.skip(i as int)[0] == keys@[i as int]@);
            assert(ks.skip(i as int).drop_first() =~= ks.skip(i + 1));
            match self.get(keys[i]) {
                Some(v) => {
                    return Some(v);
                },
                None => {},
            }
            i += 1;
        }
        None
    }
}

/// How `serde_json` writes a string value: quoted, with its escapes.
pub uninterp spec fn json_string_text(s: Seq<char>) -> Seq<char>;

/// `serde_json::to_string` of a string: the JSON text of that string value,
/// which depends on the string alone. Writing a string into memory cannot
/// fail, so the error arm (an empty text) is never taken.
#[verifier::external_body]
pub(crate) fn json_string(s: &str) -> (r: String)
    ensures
        r@ == json_string_text(s@),
{
    serde_json::to_string(s).unwrap_or_default()
}

} // verus!
