//! Key placeholders such as `{KEY_1}` in script values, and their substitution
//! by the keys' public key multibases.
use vstd::prelude::*;
use crate::digest::{ascii_upper, ascii_upper_text, is_ascii_text, to_uppercase, unicode_upper};
use crate::json::{items_view, lemma_array_view, lemma_object_view, members_view, Json, JsonV, Members};
use crate::keys::{KeyRegistry, KeyView};
use crate::text::{copy_text, replace_all, replace_text, text, to_string};

verus! {

broadcast use vstd::std_specs::vec::group_vec_axioms;

/// The text with every `-` replaced by `_`.
pub open spec fn dashes_to_underscores(s: Seq<char>) -> Seq<char> {
    Seq::new(s.len(), |i: int| if s[i] == '-' { '_' } else { s[i] })
}

/// The placeholder of a key identifier: `{`, the identifier with `-` made `_`
/// and in upper case, then `}`.
pub open spec fn placeholder(id: Seq<char>) -> Seq<char> {
    seq!['{'] + unicode_upper(dashes_to_underscores(id)) + seq!['}']
}

/// A character of a key identifier as it stands in an ASCII placeholder:
/// `-` becomes `_`, `a` to `z` become `A` to `Z`.
pub open spec fn placeholder_char(c: char) -> char {
    if c == '-' {
        '_'
    } else {
        ascii_upper(c)
    }
}

/// The placeholder of an ASCII key identifier: `{`, each character as
/// `placeholder_char` makes it, then `}`.
pub open spec fn ascii_placeholder(id: Seq<char>) -> Seq<char> {
    seq!['{'] + Seq::new(id.len(), |i: int| placeholder_char(id[i])) + seq!['}']
}

/// The placeholder of a key identifier.
pub fn placeholder_text(id: &[char]) -> (r: Vec<char>)
    ensures
        r@ == placeholder(id@),
        is_ascii_text(id@) ==> r@ == ascii_placeholder(id@),
        r@.len() >= 2,
{
    let mut under: Vec<char> = Vec::new();
    let mut i: usize = 0;
    while i < id.len()
        invariant
            i <= id.len(),
            under@ == dashes_to_underscores(id@).take(i as int),
        decreases id.len() - i,
    {
        if id[i] == '-' {
            under.push('_');
        } else {
            under.push(id[i]);
        }
        i = i + 1;
        assert(under@ =~= dashes_to_underscores(id@).take(i as int));
    }
    assert(dashes_to_underscores(id@).take(id.len() as int) =~= dashes_to_underscores(id@));
    let s = to_string(under.as_slice());
    proof {
        let d = dashes_to_underscores(id@);
        if is_ascii_text(id@) {
            assert forall|i: int| 0 <= i < d.len() implies (#[trigger] d[i] as u32) < 128 by {
                assert((id@[i] as u32) < 128);
            }
        }
    }
    let upper = to_uppercase(s.as_str());
    let mut r: Vec<char> = Vec::new();
    r.push('{');
    let up = text(upper.as_str());
    let mut j: usize = 0;
    while j < up.len()
        invariant
            j <= up.len(),
            r@ == seq!['{'] + up@.take(j as int),
        decreases up.len() - j,
    {
        r.push(up[j]);
        j = j + 1;
        assert(r@ =~= seq!['{'] + up@.take(j as int));
    }
    r.push('}');
    assert(up@.take(up.len() as int) =~= up@);
    assert(r@ =~= placeholder(id@));
    proof {
        if is_ascii_text(id@) {
            let d = dashes_to_underscores(id@);
            assert(up@ == ascii_upper_text(d));
            assert(Seq::new(id@.len(), |i: int| placeholder_char(id@[i])) =~= ascii_upper_text(d));
            assert(r@ =~= ascii_placeholder(id@));
        }
    }
    r
}

/// `key_id_placeholder`: the placeholder of a key identifier; for an ASCII
/// identifier, `{`, the identifier with `-` made `_` and `a`-`z` made
/// `A`-`Z`, then `}`.
pub fn key_id_placeholder(key_id: &str) -> (r: String)
    ensures
        r@ == placeholder(key_id@),
        is_ascii_text(key_id@) ==> r@ == ascii_placeholder(key_id@),
{
    let id = text(key_id);
    let p = placeholder_text(id.as_slice());
    to_string(p.as_slice())
}

/// The substitutions of a registry: each key's placeholder, then its public
/// key multibase, in registry order.
pub open spec fn substitutions(keys: Seq<KeyView>) -> Seq<(Seq<char>, Seq<char>)> {
    Seq::new(keys.len(), |i: int| (placeholder(keys[i].id), keys[i].pub_multibase))
}

/// The substitutions of a registry whose identifiers are ASCII: each key's
/// ASCII placeholder, then its public key multibase, in registry order.
pub open spec fn ascii_substitutions(keys: Seq<KeyView>) -> Seq<(Seq<char>, Seq<char>)> {
    Seq::new(keys.len(), |i: int| (ascii_placeholder(keys[i].id), keys[i].pub_multibase))
}

/// Whether every key identifier of a registry is ASCII.
pub open spec fn ascii_ids(keys: Seq<KeyView>) -> bool {
    forall|i: int| 0 <= i < keys.len() ==> is_ascii_text(#[trigger] keys[i].id)
}

/// A text with the substitutions applied one after the other.
pub open spec fn substitute_text(s: Seq<char>, subs: Seq<(Seq<char>, Seq<char>)>) -> Seq<char>
    decreases subs.len(),
{
    if subs.len() == 0 {
        s
    } else {
        replace_all(substitute_text(s, subs.drop_last()), subs.last().0, subs.last().1)
    }
}

/// `substitute_placeholders`: the value with the substitutions applied to
/// every string value, at any depth; object keys and other values unchanged.
pub open spec fn substituted(v: JsonV, subs: Seq<(Seq<char>, Seq<char>)>) -> JsonV
    decreases v,
{
    match v {
        JsonV::Str(s) => JsonV::Str(substitute_text(s, subs)),
        JsonV::Array(items) => JsonV::Array(substituted_items(items, subs)),
        JsonV::Object(ms) => JsonV::Object(substituted_members(ms, subs)),
        _ => v,
    }
}

/// The items of an array, substituted.
pub open spec fn substituted_items(items: Seq<JsonV>, subs: Seq<(Seq<char>, Seq<char>)>) -> Seq<JsonV>
    decreases items,
{
    Seq::new(items.len(), |i: int| if 0 <= i < items.len() { substituted(items[i], subs) } else { JsonV::Null })
}

/// The members of an object, their values substituted.
pub open spec fn substituted_members(ms: Members, subs: Seq<(Seq<char>, Seq<char>)>) -> Members
    decreases ms,
{
    Seq::new(ms.len(), |i: int| if 0 <= i < ms.len() { (ms[i].0, substituted(ms[i].1, subs)) } else { (Seq::empty(), JsonV::Null) })
}

/// The substitution pairs of a registry.
pub fn substitution_pairs(keys: &KeyRegistry) -> (r: Vec<(Vec<char>, Vec<char>)>)
    ensures
        r@.len() == keys.keys().len(),
        forall|i: int| 0 <= i < r@.len() ==> (#[trigger] r@[i]).0@ == substitutions(keys.keys())[i].0
            && r@[i].1@ == substitutions(keys.keys())[i].1 && r@[i].0@.len() >= 2,
        ascii_ids(keys.keys()) ==> forall|i: int| 0 <= i < r@.len() ==> (#[trigger] r@[i]).0@ == ascii_substitutions(keys.keys())[i].0,
{
    let mut r: Vec<(Vec<char>, Vec<char>)> = Vec::new();
    let mut i: usize = 0;
    while i < keys.len()
        invariant
            i <= keys.keys().len(),
            r@.len() == i,
            forall|j: int| 0 <= j < i ==> (#[trigger] r@[j]).0@ == substitutions(keys.keys())[j].0
                && r@[j].1@ == substitutions(keys.keys())[j].1 && r@[j].0@.len() >= 2,
            ascii_ids(keys.keys()) ==> forall|j: int| 0 <= j < i ==> (#[trigger] r@[j]).0@ == ascii_substitutions(keys.keys())[j].0,
        decreases keys.keys().len() - i,
    {
        let k = keys.entry(i);
        r.push((placeholder_text(k.id.as_slice()), copy_text(k.pub_multibase.as_slice())));
        i = i + 1;
    }
    r
}

/// The view of substitution pairs.
pub open spec fn pairs_view(pairs: Seq<(Vec<char>, Vec<char>)>) -> Seq<(Seq<char>, Seq<char>)> {
    Seq::new(pairs.len(), |i: int| (pairs[i].0@, pairs[i].1@))
}

fn substitute_in_text(s: &[char], pairs: &Vec<(Vec<char>, Vec<char>)>) -> (r: Vec<char>)
    requires
        forall|i: int| 0 <= i < pairs@.len() ==> (#[trigger] pairs@[i]).0@.len() >= 2,
    ensures
        r@ == substitute_text(s@, pairs_view(pairs@)),
{
    let ghost pv = pairs_view(pairs@);
    let mut out = copy_text(s);
    let mut i: usize = 0;
    while i < pairs.len()
        invariant
            i <= pairs@.len(),
            pv == pairs_view(pairs@),
            forall|j: int| 0 <= j < pairs@.len() ==> (#[trigger] pairs@[j]).0@.len() >= 2,
            out@ == substitute_text(s@, pv.take(i as int)),
        decreases pairs.len() - i,
    {
        assert(pv.take(i + 1).drop_last() =~= pv.take(i as int));
        assert(pairs@[i as int].0@.len() >= 2);
        out = replace_text(out.as_slice(), pairs[i].0.as_slice(), pairs[i].1.as_slice());
        i = i + 1;
    }
    assert(pv.take(pairs.len() as int) =~= pv);
    out
}

#[verifier::loop_isolation(false)]
fn substitute_in(value: &Json, pairs: &Vec<(Vec<char>, Vec<char>)>) -> (r: Json)
    requires
        forall|i: int| 0 <= i < pairs@.len() ==> (#[trigger] pairs@[i]).0@.len() >= 2,
    ensures
        r@ == substituted(value@, pairs_view(pairs@)),
    decreases value,
{
    match value {
        Json::Str(s) => Json::Str(substitute_in_text(s.as_slice(), pairs)),
        Json::Array(items) => {
            let mut out: Vec<Json> = Vec::new();
            let mut i: usize = 0;
            while i < items.len()
                invariant
                    i <= items.len(),
                    out@.len() == i,
                    forall|j: int| 0 <= j < i ==> #[trigger] out@[j]@ == substituted(items@[j]@, pairs_view(pairs@)),
                decreases items.len() - i,
            {
                proof {
                    assert(decreases_to!(*value => items[i as int]));
                }
                out.push(substitute_in(&items[i], pairs));
                i = i + 1;
            }
            proof {
                lemma_array_view(out);
                lemma_array_view(*items);
                assert(items_view(out@) =~= substituted_items(items_view(items@), pairs_view(pairs@)));
            }
            Json::Array(out)
        },
        Json::Object(members) => {
            let mut out: Vec<(Vec<char>, Json)> = Vec::new();
            let mut i: usize = 0;
            while i < members.len()
                invariant
                    i <= members.len(),
                    out@.len() == i,
                    forall|j: int| 0 <= j < i ==> (#[trigger] out@[j]).0@ == members@[j].0@
                        && out@[j].1@ == substituted(members@[j].1@, pairs_view(pairs@)),
                decreases members.len() - i,
            {
                out.push((copy_text(members[i].0.as_slice()), substitute_in(&members[i].1, pairs)));
                i = i + 1;
            }
            proof {
                lemma_object_view(out);
                lemma_object_view(*members);
                assert(members_view(out@) =~= substituted_members(members_view(members@), pairs_view(pairs@)));
            }
            Json::Object(out)
        },
        _ => value.deep_clone(),
    }
}

/// `substitute_placeholders`: every string value, at any depth, with each
/// key's placeholder replaced by the key's public key multibase, keys taken in
/// registry order; with ASCII identifiers, the placeholders are the ASCII
/// ones.
pub fn substitute_placeholders(value: &Json, keys: &KeyRegistry) -> (r: Json)
    ensures
        r@ == substituted(value@, substitutions(keys.keys())),
        ascii_ids(keys.keys()) ==> r@ == substituted(value@, ascii_substitutions(keys.keys())),
{
    let pairs = substitution_pairs(keys);
    assert(pairs_view(pairs@) =~= substitutions(keys.keys()));
    proof {
        if ascii_ids(keys.keys()) {
            assert(pairs_view(pairs@) =~= ascii_substitutions(keys.keys()));
        }
    }
    substitute_in(value, &pairs)
}

} // verus!
