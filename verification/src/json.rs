//! A JSON value model held as plain data, with its mathematical view, the
//! member operations the logic uses, and the JSON text of a value.
use vstd::prelude::*;
use crate::text::{copy_text, digit_char, join_on, push_all, text, text_eq};

verus! {

broadcast use vstd::std_specs::vec::group_vec_axioms;

/// A JSON value. Strings are held as character vectors; a number is held as
/// the text of its JSON literal, since the logic only carries numbers along.
#[derive(Debug)]
pub enum Json {
    Null,
    Bool(bool),
    Number(Vec<char>),
    Str(Vec<char>),
    Array(Vec<Json>),
    Object(Vec<(Vec<char>, Json)>),
}

/// The mathematical view of a JSON value. An object is the sequence of its
/// members, in order.
pub enum JsonV {
    Null,
    Bool(bool),
    Number(Seq<char>),
    Str(Seq<char>),
    Array(Seq<JsonV>),
    Object(Seq<(Seq<char>, JsonV)>),
}

/// The members of an object.
pub type Members = Seq<(Seq<char>, JsonV)>;

/// The view of a JSON value.
pub open spec fn json_view(j: Json) -> JsonV
    decreases j,
{
    match j {
        Json::Null => JsonV::Null,
        Json::Bool(b) => JsonV::Bool(b),
        Json::Number(n) => JsonV::Number(n@),
        Json::Str(s) => JsonV::Str(s@),
        Json::Array(items) => JsonV::Array(
            Seq::new(
                items.len() as nat,
                |i: int|
                    if 0 <= i < items.len() {
                        json_view(items[i])
                    } else {
                        JsonV::Null
                    },
            ),
        ),
        Json::Object(members) => JsonV::Object(
            Seq::new(
                members.len() as nat,
                |i: int|
                    if 0 <= i < members.len() {
                        (members[i].0@, json_view(members[i].1))
                    } else {
                        (Seq::empty(), JsonV::Null)
                    },
            ),
        ),
    }
}

impl View for Json {
    type V = JsonV;

    open spec fn view(&self) -> JsonV {
        json_view(*self)
    }
}

/// The view of an optional value.
pub open spec fn opt_view(o: Option<Json>) -> Option<JsonV> {
    match o {
        Some(v) => Some(v@),
        None => None,
    }
}

/// The view of a vector of values.
pub open spec fn items_view(items: Seq<Json>) -> Seq<JsonV> {
    Seq::new(items.len(), |i: int| items[i]@)
}

/// The view of a vector of members.
pub open spec fn members_view(members: Seq<(Vec<char>, Json)>) -> Members {
    Seq::new(members.len(), |i: int| (members[i].0@, members[i].1@))
}

/// The view of a vector of texts.
pub open spec fn texts_view(texts: Seq<Vec<char>>) -> Seq<Seq<char>> {
    Seq::new(texts.len(), |i: int| texts[i]@)
}

/// The view of an optional text.
pub open spec fn opt_text(o: Option<Vec<char>>) -> Option<Seq<char>> {
    match o {
        Some(t) => Some(t@),
        None => None,
    }
}

pub proof fn lemma_array_view(items: Vec<Json>)
    ensures
        Json::Array(items)@ == JsonV::Array(items_view(items@)),
{
    let a = Json::Array(items);
    match a@ {
        JsonV::Array(s) => {
            assert(s =~= items_view(items@));
        },
        _ => {},
    }
}

pub proof fn lemma_object_view(members: Vec<(Vec<char>, Json)>)
    ensures
        Json::Object(members)@ == JsonV::Object(members_view(members@)),
{
    let a = Json::Object(members);
    match a@ {
        JsonV::Object(s) => {
            assert(s =~= members_view(members@));
        },
        _ => {},
    }
}

// ---------------------------------------------------------------------------
// Members of objects
// ---------------------------------------------------------------------------

/// `i` is the position of the first member named `k`.
pub open spec fn is_first_key(ms: Members, k: Seq<char>, i: int) -> bool {
    &&& 0 <= i < ms.len()
    &&& ms[i].0 == k
    &&& forall|j: int| 0 <= j < i ==> ms[j].0 != k
}

/// Whether some member is named `k`.
pub open spec fn has_key(ms: Members, k: Seq<char>) -> bool {
    exists|i: int| 0 <= i < ms.len() && ms[i].0 == k
}

/// The position of the first member named `k`.
pub open spec fn first_key(ms: Members, k: Seq<char>) -> int {
    choose|i: int| is_first_key(ms, k, i)
}

/// The value of the first member named `k`.
pub open spec fn lookup(ms: Members, k: Seq<char>) -> Option<JsonV> {
    if has_key(ms, k) {
        Some(ms[first_key(ms, k)].1)
    } else {
        None
    }
}

/// The members with `k` set to `x`: the first member named `k` takes the new
/// value in place, or the member is appended when there is none.
pub open spec fn set_member(ms: Members, k: Seq<char>, x: JsonV) -> Members {
    if has_key(ms, k) {
        ms.update(first_key(ms, k), (k, x))
    } else {
        ms.push((k, x))
    }
}

/// The members without any member named `k`.
pub open spec fn drop_member(ms: Members, k: Seq<char>) -> Members
    decreases ms.len(),
{
    if ms.len() == 0 {
        ms
    } else if ms.last().0 == k {
        drop_member(ms.drop_last(), k)
    } else {
        drop_member(ms.drop_last(), k).push(ms.last())
    }
}

proof fn lemma_first_key_unique(ms: Members, k: Seq<char>, i: int)
    requires
        is_first_key(ms, k, i),
    ensures
        has_key(ms, k),
        first_key(ms, k) == i,
{
    let f = first_key(ms, k);
    assert(is_first_key(ms, k, f));
    if f < i {
        assert(ms[f].0 != k);
    } else if i < f {
        assert(ms[i].0 != k);
    }
}

/// The value found under a key is that of its first member.
pub proof fn lemma_lookup_first(ms: Members, k: Seq<char>, i: int)
    requires
        is_first_key(ms, k, i),
    ensures
        lookup(ms, k) == Some(ms[i].1),
{
    lemma_first_key_unique(ms, k, i);
}

/// The members after appending one: its value is found only when no earlier
/// member has its key.
pub proof fn lemma_lookup_push(ms: Members, m: (Seq<char>, JsonV), k: Seq<char>)
    ensures
        lookup(ms.push(m), k) == (if has_key(ms, k) {
            lookup(ms, k)
        } else if m.0 == k {
            Some(m.1)
        } else {
            None::<JsonV>
        }),
{
    let t = ms.push(m);
    if has_key(ms, k) {
        let p = first_key(ms, k);
        assert(is_first_key(ms, k, choose|i: int| is_first_key(ms, k, i))) by {
            lemma_has_first(ms, k);
        }
        assert(is_first_key(t, k, p));
        lemma_first_key_unique(t, k, p);
    } else if m.0 == k {
        assert(is_first_key(t, k, ms.len() as int));
        lemma_first_key_unique(t, k, ms.len() as int);
    } else {
        assert(!has_key(t, k)) by {
            if has_key(t, k) {
                let i = choose|i: int| 0 <= i < t.len() && t[i].0 == k;
                if i < ms.len() {
                    assert(ms[i].0 == k);
                }
            }
        }
    }
}

/// A key that some member has has a first member.
pub proof fn lemma_has_first(ms: Members, k: Seq<char>)
    requires
        has_key(ms, k),
    ensures
        exists|i: int| is_first_key(ms, k, i),
    decreases ms.len(),
{
    let init = ms.drop_last();
    if has_key(init, k) {
        lemma_has_first(init, k);
        let i = choose|i: int| is_first_key(init, k, i);
        assert forall|j: int| 0 <= j < i implies ms[j].0 != k by {
            assert(init[j].0 != k);
        }
        assert(ms[i] == init[i]);
        assert(is_first_key(ms, k, i));
    } else {
        let i = choose|i: int| 0 <= i < ms.len() && ms[i].0 == k;
        if i < init.len() {
            assert(init[i].0 == k);
        }
        assert(i == ms.len() - 1);
        assert forall|j: int| 0 <= j < ms.len() - 1 implies ms[j].0 != k by {
            if ms[j].0 == k {
                assert(init[j].0 == k);
            }
        }
        assert(is_first_key(ms, k, ms.len() - 1));
    }
}

/// Setting a member makes its value the one found under its key.
pub proof fn lemma_lookup_set_same(ms: Members, k: Seq<char>, x: JsonV)
    ensures
        lookup(set_member(ms, k, x), k) == Some(x),
{
    if has_key(ms, k) {
        lemma_has_first(ms, k);
        let p = first_key(ms, k);
        let t = ms.update(p, (k, x));
        assert(is_first_key(t, k, p));
        lemma_first_key_unique(t, k, p);
    } else {
        lemma_lookup_push(ms, (k, x), k);
    }
}

/// Setting a member leaves the members of other keys as they were.
pub proof fn lemma_lookup_set_other(ms: Members, k: Seq<char>, x: JsonV, k2: Seq<char>)
    requires
        k2 != k,
    ensures
        lookup(set_member(ms, k, x), k2) == lookup(ms, k2),
{
    if has_key(ms, k) {
        lemma_has_first(ms, k);
        let p = first_key(ms, k);
        let t = ms.update(p, (k, x));
        assert forall|j: int| 0 <= j < ms.len() implies t[j].0 == ms[j].0 by {}
        if has_key(ms, k2) {
            lemma_has_first(ms, k2);
            let p2 = first_key(ms, k2);
            assert(is_first_key(t, k2, p2));
            lemma_first_key_unique(t, k2, p2);
        } else {
            assert(!has_key(t, k2)) by {
                if has_key(t, k2) {
                    let i = choose|i: int| 0 <= i < t.len() && t[i].0 == k2;
                    assert(ms[i].0 == k2);
                }
            }
        }
    } else {
        lemma_lookup_push(ms, (k, x), k2);
    }
}

/// Setting a member twice leaves the second value.
pub proof fn lemma_set_member_twice(ms: Members, k: Seq<char>, x: JsonV, y: JsonV)
    ensures
        set_member(set_member(ms, k, x), k, y) == set_member(ms, k, y),
{
    let t = set_member(ms, k, x);
    if has_key(ms, k) {
        lemma_has_first(ms, k);
        let p = first_key(ms, k);
        assert(is_first_key(t, k, p));
        lemma_first_key_unique(t, k, p);
        assert(set_member(t, k, y) =~= set_member(ms, k, y));
    } else {
        let p = ms.len() as int;
        assert(is_first_key(t, k, p));
        lemma_first_key_unique(t, k, p);
        assert(set_member(t, k, y) =~= set_member(ms, k, y));
    }
}

/// Dropping the members of a key leaves the members of other keys as they were.
pub proof fn lemma_lookup_drop_other(ms: Members, k: Seq<char>, k2: Seq<char>)
    requires
        k2 != k,
    ensures
        lookup(drop_member(ms, k), k2) == lookup(ms, k2),
    decreases ms.len(),
{
    if ms.len() > 0 {
        let init = ms.drop_last();
        let m = ms.last();
        assert(ms =~= init.push(m));
        lemma_lookup_push(init, m, k2);
        lemma_lookup_drop_other(init, k, k2);
        if m.0 != k {
            lemma_lookup_push(drop_member(init, k), m, k2);
        }
    }
}

/// Setting a member of members with one more at the end.
proof fn lemma_set_push(ms: Members, m: (Seq<char>, JsonV), k: Seq<char>, x: JsonV)
    ensures
        set_member(ms.push(m), k, x) == (if has_key(ms, k) {
            set_member(ms, k, x).push(m)
        } else if m.0 == k {
            ms.push((k, x))
        } else {
            ms.push(m).push((k, x))
        }),
{
    let t = ms.push(m);
    if has_key(ms, k) {
        lemma_has_first(ms, k);
        let p = first_key(ms, k);
        assert(is_first_key(ms, k, p));
        assert(is_first_key(t, k, p));
        lemma_first_key_unique(t, k, p);
        assert(t.update(p, (k, x)) =~= ms.update(p, (k, x)).push(m));
    } else if m.0 == k {
        assert forall|j: int| 0 <= j < ms.len() implies t[j].0 != k by {
            if t[j].0 == k {
                assert(ms[j].0 == k);
            }
        }
        assert(is_first_key(t, k, ms.len() as int));
        lemma_first_key_unique(t, k, ms.len() as int);
        assert(t.update(ms.len() as int, (k, x)) =~= ms.push((k, x)));
    } else {
        assert(!has_key(t, k)) by {
            if has_key(t, k) {
                let i = choose|i: int| 0 <= i < t.len() && t[i].0 == k;
                if i < ms.len() {
                    assert(ms[i].0 == k);
                }
            }
        }
    }
}

/// Dropping the members of one key keeps whether there is a member of another.
proof fn lemma_has_key_drop(ms: Members, k: Seq<char>, k2: Seq<char>)
    requires
        k2 != k,
    ensures
        has_key(drop_member(ms, k), k2) == has_key(ms, k2),
    decreases ms.len(),
{
    if ms.len() > 0 {
        let init = ms.drop_last();
        lemma_has_key_drop(init, k, k2);
        let d = drop_member(init, k);
        if has_key(ms, k2) && !has_key(init, k2) {
            let i = choose|i: int| 0 <= i < ms.len() && ms[i].0 == k2;
            if i < init.len() {
                assert(init[i].0 == k2);
            }
            assert(drop_member(ms, k) == d.push(ms.last()));
            assert(d.push(ms.last())[d.len() as int].0 == k2);
        }
        if has_key(init, k2) {
            let i = choose|i: int| 0 <= i < d.len() && d[i].0 == k2;
            if ms.last().0 != k {
                assert(d.push(ms.last())[i] == d[i]);
            }
            let j = choose|j: int| 0 <= j < init.len() && init[j].0 == k2;
            assert(ms[j] == init[j]);
        }
        if has_key(drop_member(ms, k), k2) && ms.last().0 != k && !has_key(d, k2) {
            let i = choose|i: int| 0 <= i < d.len() + 1 && d.push(ms.last())[i].0 == k2;
            if i < d.len() {
                assert(d[i].0 == k2);
            }
            assert(ms[ms.len() - 1].0 == k2);
        }
        if !has_key(ms, k2) && has_key(init, k2) {
            let j = choose|j: int| 0 <= j < init.len() && init[j].0 == k2;
            assert(ms[j] == init[j]);
        }
    }
}

/// Dropping the members of a key after setting it drops them all the same.
pub proof fn lemma_drop_set_same(ms: Members, k: Seq<char>, x: JsonV)
    ensures
        drop_member(set_member(ms, k, x), k) == drop_member(ms, k),
    decreases ms.len(),
{
    if ms.len() == 0 {
        assert(set_member(ms, k, x) == ms.push((k, x)));
        assert(ms.push((k, x)).drop_last() =~= ms);
    } else {
        let init = ms.drop_last();
        let m = ms.last();
        assert(ms =~= init.push(m));
        lemma_set_push(init, m, k, x);
        if has_key(init, k) {
            lemma_drop_set_same(init, k, x);
            let t = set_member(init, k, x);
            assert(t.push(m).drop_last() =~= t);
        } else if m.0 == k {
            assert(init.push((k, x)).drop_last() =~= init);
        } else {
            assert(ms.push((k, x)).drop_last() =~= ms);
        }
    }
}

/// Dropping the members of one key and setting another commute.
pub proof fn lemma_drop_set_other(ms: Members, k1: Seq<char>, x: JsonV, k2: Seq<char>)
    requires
        k1 != k2,
    ensures
        drop_member(set_member(ms, k1, x), k2) == set_member(drop_member(ms, k2), k1, x),
    decreases ms.len(),
{
    if ms.len() == 0 {
        assert(set_member(ms, k1, x) == ms.push((k1, x)));
        assert(ms.push((k1, x)).drop_last() =~= ms);
        assert(!has_key(ms, k1));
    } else {
        let init = ms.drop_last();
        let m = ms.last();
        assert(ms =~= init.push(m));
        lemma_set_push(init, m, k1, x);
        let d = drop_member(init, k2);
        lemma_has_key_drop(init, k2, k1);
        lemma_has_key_drop(ms, k2, k1);
        lemma_set_push(d, m, k1, x);
        if has_key(init, k1) {
            lemma_drop_set_other(init, k1, x, k2);
            let t = set_member(init, k1, x);
            assert(t.push(m).drop_last() =~= t);
        } else if m.0 == k1 {
            assert(init.push((k1, x)).drop_last() =~= init);
        } else {
            assert(ms.push((k1, x)).drop_last() =~= ms);
        }
    }
}

/// The value of member `k` of an object (`Value::get`); `None` for other values.
pub open spec fn get(v: JsonV, k: Seq<char>) -> Option<JsonV> {
    match v {
        JsonV::Object(ms) => lookup(ms, k),
        _ => None,
    }
}

/// `v[k]` as a value (`Index` on `Value`): the member, or null.
pub open spec fn index(v: JsonV, k: Seq<char>) -> JsonV {
    match get(v, k) {
        Some(x) => x,
        None => JsonV::Null,
    }
}

/// `v[k] = x` (`IndexMut` on `Value`), for an object or null.
pub open spec fn assign(v: JsonV, k: Seq<char>, x: JsonV) -> JsonV {
    match v {
        JsonV::Object(ms) => JsonV::Object(set_member(ms, k, x)),
        _ => JsonV::Object(seq![(k, x)]),
    }
}

/// `v` with member `k` removed when `v` is an object.
pub open spec fn remove(v: JsonV, k: Seq<char>) -> JsonV {
    match v {
        JsonV::Object(ms) => JsonV::Object(drop_member(ms, k)),
        _ => v,
    }
}

/// The string of a string value (`Value::as_str`).
pub open spec fn as_str(v: JsonV) -> Option<Seq<char>> {
    match v {
        JsonV::Str(s) => Some(s),
        _ => None,
    }
}

/// Whether a value is an object or null, the values that `v[k] = x` accepts.
pub open spec fn is_object_or_null(v: JsonV) -> bool {
    v is Object || v is Null
}

/// An array of strings.
pub open spec fn jstr_array(ss: Seq<Seq<char>>) -> JsonV {
    JsonV::Array(Seq::new(ss.len(), |i: int| JsonV::Str(ss[i])))
}

impl Json {
    /// A string value holding the characters of `s`.
    pub fn string(s: &str) -> (r: Json)
        ensures
            r@ == JsonV::Str(s@),
    {
        Json::Str(text(s))
    }

    /// An empty array.
    pub fn empty_array() -> (r: Json)
        ensures
            r@ == JsonV::Array(Seq::empty()),
    {
        let items: Vec<Json> = Vec::new();
        proof {
            lemma_array_view(items);
            assert(items_view(items@) =~= Seq::<JsonV>::empty());
        }
        Json::Array(items)
    }

    /// An empty object.
    pub fn empty_object() -> (r: Json)
        ensures
            r@ == JsonV::Object(Seq::empty()),
    {
        let ms: Vec<(Vec<char>, Json)> = Vec::new();
        proof {
            lemma_object_view(ms);
            assert(members_view(ms@) =~= Seq::<(Seq<char>, JsonV)>::empty());
        }
        Json::Object(ms)
    }

    /// An array of string values.
    pub fn string_array(ss: &Vec<Vec<char>>) -> (r: Json)
        ensures
            r@ == jstr_array(texts_view(ss@)),
    {
        let mut items: Vec<Json> = Vec::new();
        let mut i: usize = 0;
        while i < ss.len()
            invariant
                i <= ss.len(),
                items@.len() == i,
                forall|j: int| 0 <= j < i ==> #[trigger] items@[j]@ == JsonV::Str(ss@[j]@),
            decreases ss.len() - i,
        {
            items.push(Json::Str(copy_text(ss[i].as_slice())));
            i = i + 1;
        }
        proof {
            lemma_array_view(items);
            assert(items_view(items@) =~= Seq::new(texts_view(ss@).len(), |i: int| JsonV::Str(texts_view(ss@)[i])));
        }
        Json::Array(items)
    }

    /// An exact copy.
    #[verifier::loop_isolation(false)]
    pub fn deep_clone(&self) -> (r: Json)
        ensures
            r@ == self@,
        decreases self,
    {
        match self {
            Json::Null => Json::Null,
            Json::Bool(b) => Json::Bool(*b),
            Json::Number(n) => Json::Number(copy_text(n.as_slice())),
            Json::Str(s) => Json::Str(copy_text(s.as_slice())),
            Json::Array(items) => {
                let mut out: Vec<Json> = Vec::new();
                let mut i: usize = 0;
                while i < items.len()
                    invariant
                        i <= items.len(),
                        out@.len() == i,
                        forall|j: int| 0 <= j < i ==> #[trigger] out@[j]@ == items@[j]@,
                    decreases items.len() - i,
                {
                    proof {
                        assert(decreases_to!(*self => items[i as int]));
                    }
                    out.push(items[i].deep_clone());
                    i = i + 1;
                }
                proof {
                    lemma_array_view(out);
                    lemma_array_view(*items);
                    assert(items_view(out@) =~= items_view(items@));
                }
                Json::Array(out)
            },
            Json::Object(members) => {
                let mut out: Vec<(Vec<char>, Json)> = Vec::new();
                let mut i: usize = 0;
                while i < members.len()
                    invariant
                        i <= members.len(),
                        out@.len() == i,
                        forall|j: int| 0 <= j < i ==> #[trigger] out@[j].0@ == members@[j].0@ && out@[j].1@ == members@[j].1@,
                    decreases members.len() - i,
                {
                    out.push((copy_text(members[i].0.as_slice()), members[i].1.deep_clone()));
                    i = i + 1;
                }
                proof {
                    lemma_object_view(out);
                    lemma_object_view(*members);
                    assert(members_view(out@) =~= members_view(members@));
                }
                Json::Object(out)
            },
        }
    }

    /// The string of a string value.
    pub fn as_text(&self) -> (r: Option<&Vec<char>>)
        ensures
            r matches Some(s) ==> as_str(self@) == Some(s@),
            r is None ==> as_str(self@) is None,
    {
        match self {
            Json::Str(s) => Some(s),
            _ => None,
        }
    }

    /// Whether the value is an object.
    pub fn is_object(&self) -> (r: bool)
        ensures
            r == (self@ is Object),
    {
        match self {
            Json::Object(_) => true,
            _ => false,
        }
    }

    /// The value of member `k` of an object.
    pub fn get(&self, k: &[char]) -> (r: Option<&Json>)
        ensures
            r matches Some(x) ==> get(self@, k@) == Some(x@),
            r is None ==> get(self@, k@) is None,
    {
        match self {
            Json::Object(members) => {
                proof {
                    lemma_object_view(*members);
                }
                match find_member(members, k) {
                    Some(i) => Some(&members[i].1),
                    None => None,
                }
            },
            _ => None,
        }
    }

    /// The value with `k` set to `x`, for an object or null.
    pub fn with(self, k: Vec<char>, x: Json) -> (r: Json)
        requires
            is_object_or_null(self@),
        ensures
            r@ == assign(self@, k@, x@),
    {
        match self {
            Json::Object(members) => {
                let mut members = members;
                proof {
                    lemma_object_view(members);
                }
                let ghost old_ms = members_view(members@);
                match find_member(&members, k.as_slice()) {
                    Some(i) => {
                        members.set(i, (k, x));
                        proof {
                            lemma_object_view(members);
                            assert(members_view(members@) =~= old_ms.update(i as int, (k@, x@)));
                        }
                        Json::Object(members)
                    },
                    None => {
                        members.push((k, x));
                        proof {
                            lemma_object_view(members);
                            assert(members_view(members@) =~= old_ms.push((k@, x@)));
                        }
                        Json::Object(members)
                    },
                }
            },
            _ => {
                let mut members: Vec<(Vec<char>, Json)> = Vec::new();
                members.push((k, x));
                proof {
                    lemma_object_view(members);
                    assert(members_view(members@) =~= seq![(k@, x@)]);
                }
                Json::Object(members)
            },
        }
    }

    /// The value without member `k` when it is an object; other values unchanged.
    pub fn without(self, k: &[char]) -> (r: Json)
        ensures
            r@ == remove(self@, k@),
    {
        match self {
            Json::Object(members) => {
                proof {
                    lemma_object_view(members);
                }
                let ghost ms = members_view(members@);
                let mut out: Vec<(Vec<char>, Json)> = Vec::new();
                let mut members = members;
                let mut rest: Vec<(Vec<char>, Json)> = Vec::new();
                // Move the members out in reverse order, then keep them in order.
                let n = members.len();
                while members.len() > 0
                    invariant
                        members@.len() + rest@.len() == n,
                        ms.len() == n,
                        forall|j: int| 0 <= j < members@.len() ==> (#[trigger] members@[j]).0@ == ms[j].0 && members@[j].1@ == ms[j].1,
                        forall|j: int| 0 <= j < rest@.len() ==> (#[trigger] rest@[j]).0@ == ms[n - 1 - j].0 && rest@[j].1@ == ms[n - 1 - j].1,
                    decreases members.len(),
                {
                    let m = members.pop().unwrap();
                    rest.push(m);
                }
                let mut i: usize = 0;
                while rest.len() > 0
                    invariant
                        rest@.len() + i == n,
                        ms.len() == n,
                        forall|j: int| 0 <= j < rest@.len() ==> (#[trigger] rest@[j]).0@ == ms[n - 1 - j].0 && rest@[j].1@ == ms[n - 1 - j].1,
                        members_view(out@) == drop_member(ms.take(i as int), k@),
                    decreases rest.len(),
                {
                    let m = rest.pop().unwrap();
                    assert(ms.take(i + 1).drop_last() =~= ms.take(i as int));
                    assert(ms.take(i + 1).last() == ms[i as int]);
                    if !text_eq(m.0.as_slice(), k) {
                        let ghost before = members_view(out@);
                        out.push(m);
                        assert(members_view(out@) =~= before.push(ms[i as int]));
                    }
                    i = i + 1;
                }
                assert(ms.take(n as int) =~= ms);
                proof {
                    lemma_object_view(out);
                }
                Json::Object(out)
            },
            other => other,
        }
    }
}

/// The position of the first member named `k`.
pub fn find_member(members: &Vec<(Vec<char>, Json)>, k: &[char]) -> (r: Option<usize>)
    ensures
        r matches Some(i) ==> is_first_key(members_view(members@), k@, i as int)
            && has_key(members_view(members@), k@) && first_key(members_view(members@), k@) == i,
        r is None ==> !has_key(members_view(members@), k@),
{
    let ghost ms = members_view(members@);
    let mut i: usize = 0;
    while i < members.len()
        invariant
            i <= members.len(),
            ms == members_view(members@),
            forall|j: int| 0 <= j < i ==> ms[j].0 != k@,
        decreases members.len() - i,
    {
        if text_eq(members[i].0.as_slice(), k) {
            proof {
                lemma_first_key_unique(ms, k@, i as int);
            }
            return Some(i);
        }
        i = i + 1;
    }
    None
}

// ---------------------------------------------------------------------------
// JSON text
// ---------------------------------------------------------------------------

/// The hexadecimal digit of `d < 16`.
pub open spec fn hex_digit(d: nat) -> char {
    if d < 10 { digit_char(d) } else if d == 10 { 'a' } else if d == 11 { 'b' } else if d == 12 { 'c' }
    else if d == 13 { 'd' } else if d == 14 { 'e' } else { 'f' }
}

/// How a character stands inside a JSON string literal.
pub open spec fn escape_char(c: char) -> Seq<char> {
    if c == '"' {
        seq!['\\', '"']
    } else if c == '\\' {
        seq!['\\', '\\']
    } else if (c as u32) < 0x20 {
        seq!['\\', 'u', '0', '0', hex_digit(((c as u32) / 16) as nat), hex_digit(((c as u32) % 16) as nat)]
    } else {
        seq![c]
    }
}

/// Whether a text stands in a JSON string literal as it is: it holds no `"`,
/// no `\` and no control character below U+0020.
pub open spec fn plain_json_text(s: Seq<char>) -> bool {
    forall|i: int| 0 <= i < s.len() ==> (#[trigger] s[i]) != '"' && s[i] != '\\' && (s[i] as u32) >= 0x20
}

/// The escaped characters of a string.
pub open spec fn escaped(s: Seq<char>) -> Seq<char>
    decreases s.len(),
{
    if s.len() == 0 {
        s
    } else {
        escaped(s.drop_last()) + escape_char(s.last())
    }
}

/// A JSON string literal.
pub open spec fn quoted(s: Seq<char>) -> Seq<char> {
    seq!['"'] + escaped(s) + seq!['"']
}

/// The JSON text of a value: compact, members in order, numbers as held.
pub open spec fn json_text(v: JsonV) -> Seq<char>
    decreases v,
{
    match v {
        JsonV::Null => seq!['n', 'u', 'l', 'l'],
        JsonV::Bool(b) => if b { seq!['t', 'r', 'u', 'e'] } else { seq!['f', 'a', 'l', 's', 'e'] },
        JsonV::Number(n) => n,
        JsonV::Str(s) => quoted(s),
        JsonV::Array(items) => seq!['['] + join_on(item_texts(items), ',') + seq![']'],
        JsonV::Object(ms) => seq!['{'] + join_on(member_texts(ms), ',') + seq!['}'],
    }
}

/// The JSON texts of the items of an array.
pub open spec fn item_texts(items: Seq<JsonV>) -> Seq<Seq<char>>
    decreases items,
{
    Seq::new(items.len(), |i: int| if 0 <= i < items.len() { json_text(items[i]) } else { Seq::empty() })
}

/// The JSON texts of the members of an object, each `"key":value`.
pub open spec fn member_texts(ms: Members) -> Seq<Seq<char>>
    decreases ms,
{
    Seq::new(ms.len(), |i: int| if 0 <= i < ms.len() { quoted(ms[i].0) + seq![':'] + json_text(ms[i].1) } else { Seq::empty() })
}

fn hex_digit_char(d: u32) -> (c: char)
    requires
        d < 16,
    ensures
        c == hex_digit(d as nat),
{
    if d == 0 { '0' } else if d == 1 { '1' } else if d == 2 { '2' } else if d == 3 { '3' }
    else if d == 4 { '4' } else if d == 5 { '5' } else if d == 6 { '6' } else if d == 7 { '7' }
    else if d == 8 { '8' } else if d == 9 { '9' } else if d == 10 { 'a' } else if d == 11 { 'b' }
    else if d == 12 { 'c' } else if d == 13 { 'd' } else if d == 14 { 'e' } else { 'f' }
}

fn write_quoted(s: &[char], out: &mut Vec<char>)
    ensures
        final(out)@ == old(out)@ + quoted(s@),
{
    let ghost start = out@;
    out.push('"');
    let mut i: usize = 0;
    while i < s.len()
        invariant
            i <= s.len(),
            out@ == start + seq!['"'] + escaped(s@.take(i as int)),
        decreases s.len() - i,
    {
        assert(s@.take(i + 1).drop_last() =~= s@.take(i as int));
        let c = s[i];
        let ghost before = out@;
        if c == '"' {
            out.push('\\');
            out.push('"');
        } else if c == '\\' {
            out.push('\\');
            out.push('\\');
        } else if (c as u32) < 0x20 {
            out.push('\\');
            out.push('u');
            out.push('0');
            out.push('0');
            out.push(hex_digit_char((c as u32) / 16));
            out.push(hex_digit_char((c as u32) % 16));
        } else {
            out.push(c);
        }
        assert(out@ =~= before + escape_char(c));
        i = i + 1;
        assert(out@ =~= start + seq!['"'] + escaped(s@.take(i as int)));
    }
    assert(s@.take(s.len() as int) =~= s@);
    out.push('"');
    assert(out@ =~= start + quoted(s@));
}

/// Appends the JSON text of `v` to `out`.
#[verifier::loop_isolation(false)]
#[verifier::rlimit(40)]
pub fn write_json(v: &Json, out: &mut Vec<char>)
    ensures
        final(out)@ == old(out)@ + json_text(v@),
    decreases v,
{
    let ghost start = out@;
    match v {
        Json::Null => {
            out.push('n'); out.push('u'); out.push('l'); out.push('l');
            assert(out@ =~= start + json_text(v@));
        },
        Json::Bool(b) => {
            if *b {
                out.push('t'); out.push('r'); out.push('u'); out.push('e');
            } else {
                out.push('f'); out.push('a'); out.push('l'); out.push('s'); out.push('e');
            }
            assert(out@ =~= start + json_text(v@));
        },
        Json::Number(n) => {
            push_all(out, n.as_slice());
        },
        Json::Str(s) => {
            write_quoted(s.as_slice(), out);
        },
        Json::Array(items) => {
            let ghost vs = item_texts(items_view(items@));
            proof {
                lemma_array_view(*items);
            }
            out.push('[');
            let mut i: usize = 0;
            while i < items.len()
                invariant
                    i <= items.len(),
                    vs.len() == items@.len(),
                    forall|j: int| 0 <= j < items@.len() ==> #[trigger] vs[j] == json_text(items@[j]@),
                    out@ == start + seq!['['] + join_on(vs.take(i as int), ','),
                decreases items.len() - i,
            {
                assert(vs.take(i + 1).drop_last() =~= vs.take(i as int));
                if i > 0 {
                    out.push(',');
                }
                proof {
                    assert(decreases_to!(*v => items[i as int]));
                }
                write_json(&items[i], out);
                i = i + 1;
                assert(out@ =~= start + seq!['['] + join_on(vs.take(i as int), ','));
            }
            assert(vs.take(items.len() as int) =~= vs);
            out.push(']');
            assert(out@ =~= start + json_text(v@));
        },
        Json::Object(members) => {
            let ghost vs = member_texts(members_view(members@));
            proof {
                lemma_object_view(*members);
            }
            out.push('{');
            let mut i: usize = 0;
            while i < members.len()
                invariant
                    i <= members.len(),
                    vs.len() == members@.len(),
                    forall|j: int| 0 <= j < members@.len() ==> #[trigger] vs[j] == quoted(members@[j].0@) + seq![':'] + json_text(members@[j].1@),
                    out@ == start + seq!['{'] + join_on(vs.take(i as int), ','),
                decreases members.len() - i,
            {
                assert(vs.take(i + 1).drop_last() =~= vs.take(i as int));
                if i > 0 {
                    out.push(',');
                }
                let ghost before = out@;
                write_quoted(members[i].0.as_slice(), out);
                out.push(':');
                write_json(&members[i].1, out);
                assert(out@ =~= before + vs[i as int]);
                i = i + 1;
                assert(out@ =~= start + seq!['{'] + join_on(vs.take(i as int), ','));
            }
            assert(vs.take(members.len() as int) =~= vs);
            out.push('}');
            assert(out@ =~= start + json_text(v@));
        },
    }
}

/// The JSON text of a value.
pub fn to_json_text(v: &Json) -> (r: Vec<char>)
    ensures
        r@ == json_text(v@),
{
    let mut out: Vec<char> = Vec::new();
    write_json(v, &mut out);
    assert(out@ =~= json_text(v@));
    out
}

} // verus!
