//! The mutations of the `corrupt` step, which break a log entry on purpose.
use vstd::prelude::*;
use crate::entries::with_str;
use crate::error::{GenError, GenErrorV};
use crate::json::{
    as_str, assign, get, index, is_object_or_null, items_view, lemma_array_view, lemma_lookup_set_other, lemma_lookup_set_same, remove, Json, JsonV,
};
use crate::keys::{KeyRegistry, KeyView};
use crate::placeholders::{substitute_placeholders, substituted, substitutions};
use crate::text::{copy_text, join_on, join_text, split_on, split_text, text, text_is};

verus! {

broadcast use vstd::std_specs::vec::group_vec_axioms;

/// Whether a log entry is an object whose first proof, when it has one, is an
/// object (or null): the entries that every mutation accepts.
pub open spec fn entry_ok(e: JsonV) -> bool {
    &&& e is Object
    &&& match get(e, "proof"@) {
        Some(JsonV::Array(items)) => items.len() > 0 ==> is_object_or_null(items[0]),
        _ => true,
    }
}

/// The name a parameter mutation works on: the field, or else the value when
/// it is a string.
pub open spec fn mutation_name(field: Option<Seq<char>>, subst: Option<JsonV>) -> Option<Seq<char>> {
    match field {
        Some(f) => Some(f),
        None => match subst {
            Some(v) => as_str(v),
            None => None,
        },
    }
}

/// The string of an optional value, when it is a string.
pub open spec fn opt_str(v: Option<JsonV>) -> Option<Seq<char>> {
    match v {
        Some(x) => as_str(x),
        None => None,
    }
}

/// `apply_mutation`: the entry after one mutation. The value has its key
/// placeholders substituted first; an absent value stands for null.
/// - `replace-state-id-scid`: the third `:`-separated segment of `state.id`
///   becomes the value (when there are at least three segments);
/// - `replace-version-time`: `versionTime` becomes the value;
/// - `replace-parameter`: parameter `field` (or the value's name) becomes the
///   value, `parameters` first made an object when it is not one;
/// - `drop-parameter`: parameter `field` (or the value's name) is removed
///   from `parameters`; reading `parameters` for writing first sets it to
///   null where it is absent, and a `parameters` that is not an object is
///   left as it is;
/// - `replace-proof-field`: field `field` of the first proof becomes the value.
pub open spec fn mutated(entry: JsonV, mutation: Seq<char>, field: Option<Seq<char>>, value: Option<JsonV>, keys: Seq<KeyView>) -> Result<JsonV, GenErrorV> {
    let subst = match value {
        Some(v) => Some(substituted(v, substitutions(keys))),
        None => None,
    };
    let val = match subst {
        Some(v) => v,
        None => JsonV::Null,
    };
    if mutation == "replace-state-id-scid"@ {
        match get(entry, "state"@) {
            None => Err(GenErrorV::StateIdMissing),
            Some(st) => match get(st, "id"@) {
                None => Err(GenErrorV::StateIdMissing),
                Some(idv) => match as_str(idv) {
                    None => Err(GenErrorV::StateIdMissing),
                    Some(id) => {
                        let parts = split_on(id, ':');
                        if parts.len() >= 3 {
                            match opt_str(subst) {
                                None => Err(GenErrorV::StateIdValueNotString),
                                Some(r) => Ok(assign(entry, "state"@, with_str(st, "id"@, join_on(parts.update(2, r), ':')))),
                            }
                        } else {
                            Ok(entry)
                        }
                    },
                },
            },
        }
    } else if mutation == "replace-version-time"@ {
        match opt_str(subst) {
            None => Err(GenErrorV::VersionTimeValueNotString),
            Some(r) => Ok(with_str(entry, "versionTime"@, r)),
        }
    } else if mutation == "replace-parameter"@ {
        match mutation_name(field, subst) {
            None => Err(GenErrorV::ReplaceParameterNeedsName),
            Some(name) => {
                let e1 = if index(entry, "parameters"@) is Object {
                    entry
                } else {
                    assign(entry, "parameters"@, JsonV::Object(Seq::empty()))
                };
                Ok(assign(e1, "parameters"@, assign(index(e1, "parameters"@), name, val)))
            },
        }
    } else if mutation == "drop-parameter"@ {
        match mutation_name(field, subst) {
            None => Err(GenErrorV::DropParameterNeedsName),
            Some(name) => {
                let e1 = match get(entry, "parameters"@) {
                    Some(_) => entry,
                    None => assign(entry, "parameters"@, JsonV::Null),
                };
                let p = index(e1, "parameters"@);
                Ok(if p is Object { assign(e1, "parameters"@, remove(p, name)) } else { e1 })
            },
        }
    } else if mutation == "replace-proof-field"@ {
        match field {
            None => Err(GenErrorV::ProofFieldMissing),
            Some(k) => match get(entry, "proof"@) {
                Some(JsonV::Array(items)) => if items.len() > 0 {
                    Ok(assign(entry, "proof"@, JsonV::Array(items.update(0, assign(items[0], k, val)))))
                } else {
                    Err(GenErrorV::ProofMissing)
                },
                _ => Err(GenErrorV::ProofMissing),
            },
        }
    } else {
        Err(GenErrorV::UnknownMutation { mutation })
    }
}

/// Whether a mutation can be applied to an entry: the members it writes
/// must belong to an object (or to null, which becomes an object): the entry
/// for `replace-version-time`, `replace-parameter` and `drop-parameter` when
/// they have what they need, the first proof for `replace-proof-field`.
pub open spec fn mutation_accepts(entry: JsonV, mutation: Seq<char>, field: Option<Seq<char>>, value: Option<JsonV>, keys: Seq<KeyView>) -> bool {
    let subst = match value {
        Some(v) => Some(substituted(v, substitutions(keys))),
        None => None,
    };
    if mutation == "replace-version-time"@ {
        opt_str(subst) is Some ==> is_object_or_null(entry)
    } else if mutation == "replace-parameter"@ || mutation == "drop-parameter"@ {
        mutation_name(field, subst) is Some ==> is_object_or_null(entry)
    } else if mutation == "replace-proof-field"@ {
        field is Some ==> match get(entry, "proof"@) {
            Some(JsonV::Array(items)) => items.len() > 0 ==> is_object_or_null(items[0]),
            _ => true,
        }
    } else {
        true
    }
}

/// Every mutation can be applied to an entry of a log.
pub proof fn lemma_entry_ok_accepts(entry: JsonV, mutation: Seq<char>, field: Option<Seq<char>>, value: Option<JsonV>, keys: Seq<KeyView>)
    requires
        entry_ok(entry),
    ensures
        mutation_accepts(entry, mutation, field, value, keys),
{
}

/// Whether a log entry is one every mutation accepts.
pub fn entry_is_well_formed(e: &Json) -> (r: bool)
    ensures
        r == entry_ok(e@),
{
    if !e.is_object() {
        return false;
    }
    match e.get(text("proof").as_slice()) {
        Some(Json::Array(items)) => {
            proof {
                lemma_array_view(*items);
            }
            if items.len() > 0 {
                match &items[0] {
                    Json::Object(_) => true,
                    Json::Null => true,
                    _ => false,
                }
            } else {
                true
            }
        },
        _ => true,
    }
}

proof fn lemma_member_names_differ()
    ensures
        "state"@ != "proof"@,
        "versionTime"@ != "proof"@,
        "parameters"@ != "proof"@,
{
    reveal_strlit("state");
    reveal_strlit("proof");
    reveal_strlit("versionTime");
    reveal_strlit("parameters");
    assert("state"@[0] != "proof"@[0]);
    assert("versionTime"@.len() != "proof"@.len());
    assert("parameters"@.len() != "proof"@.len());
}

/// Assigning a member other than `proof` keeps an entry one every mutation accepts.
pub proof fn lemma_entry_ok_assign(e: JsonV, k: Seq<char>, x: JsonV)
    requires
        entry_ok(e),
        k != "proof"@,
    ensures
        entry_ok(assign(e, k, x)),
{
    lemma_lookup_set_other(e->Object_0, k, x, "proof"@);
}

/// A value given a proof that is an object is an entry every mutation accepts.
pub proof fn lemma_entry_ok_with_proof(e: JsonV, pf: JsonV)
    requires
        e is Object,
        pf is Object,
    ensures
        entry_ok(assign(e, "proof"@, JsonV::Array(seq![pf]))),
{
    lemma_lookup_set_same(e->Object_0, "proof"@, JsonV::Array(seq![pf]));
}

/// `apply_mutation`: the entry after the mutation, or why it cannot be made.
/// Every mutation keeps the entry one that mutations accept.
pub fn apply_mutation(entry: Json, mutation: &[char], field: Option<&Vec<char>>, value: Option<&Json>, keys: &KeyRegistry) -> (r: Result<Json, GenError>)
    requires
        mutation_accepts(entry@, mutation@, match field { Some(f) => Some(f@), None => None }, match value { Some(v) => Some(v@), None => None }, keys.keys()),
    ensures
        match mutated(entry@, mutation@, match field { Some(f) => Some(f@), None => None }, match value { Some(v) => Some(v@), None => None }, keys.keys()) {
            Ok(v) => r matches Ok(x) && x@ == v,
            Err(e) => r matches Err(f) && f@ == e,
        },
        entry_ok(entry@) ==> (r matches Ok(x) ==> entry_ok(x@)),
{
    let ghost fv = match field { Some(f) => Some(f@), None => None::<Seq<char>> };
    let ghost vv = match value { Some(v) => Some(v@), None => None::<JsonV> };
    let subst: Option<Json> = match value {
        Some(v) => Some(substitute_placeholders(v, keys)),
        None => None,
    };
    let ghost sv = crate::json::opt_view(subst);
    assert(sv == match vv { Some(v) => Some(substituted(v, substitutions(keys.keys()))), None => None::<JsonV> });
    let subst_str: Option<&Vec<char>> = match &subst {
        Some(v) => v.as_text(),
        None => None,
    };
    assert(subst_str matches Some(s) ==> opt_str(sv) == Some(s@));
    assert(subst_str is None ==> opt_str(sv) is None);
    proof {
        reveal_strlit("replace-state-id-scid");
        reveal_strlit("replace-version-time");
        reveal_strlit("replace-parameter");
        reveal_strlit("drop-parameter");
        reveal_strlit("replace-proof-field");
        reveal_strlit("proof");
        reveal_strlit("state");
        reveal_strlit("versionTime");
        reveal_strlit("parameters");
        lemma_member_names_differ();
    }
    if text_is(mutation, "replace-state-id-scid") {
        let sk = text("state");
        let ik = text("id");
        let st = match entry.get(sk.as_slice()) {
            Some(st) => st,
            None => return Err(GenError::StateIdMissing),
        };
        let id = match st.get(ik.as_slice()) {
            Some(x) => match x.as_text() {
                Some(s) => s,
                None => return Err(GenError::StateIdMissing),
            },
            None => return Err(GenError::StateIdMissing),
        };
        let mut parts = split_text(id.as_slice(), ':');
        if parts.len() >= 3 {
            let rep = match subst_str {
                Some(s) => copy_text(s.as_slice()),
                None => return Err(GenError::StateIdValueNotString),
            };
            let ghost old_parts = parts@;
            parts.set(2, rep);
            let joined = join_text(&parts, ':');
            assert(crate::json::texts_view(parts@) =~= split_on(id@, ':').update(2, opt_str(sv).unwrap())) by {
                assert(crate::json::texts_view(parts@) =~= parts@.map_values(|p: Vec<char>| p@));
            }
            let new_state = st.deep_clone().with(text("id"), Json::Str(joined));
            proof {
                assert(parts@.map_values(|p: Vec<char>| p@) =~= split_on(id@, ':').update(2, opt_str(sv).unwrap()));
                if entry_ok(entry@) {
                    lemma_entry_ok_assign(entry@, "state"@, new_state@);
                }
            }
            return Ok(entry.with(sk, new_state));
        } else {
            return Ok(entry);
        }
    } else if text_is(mutation, "replace-version-time") {
        match subst_str {
            Some(s) => {
                let s2 = copy_text(s.as_slice());
                proof {
                    if entry_ok(entry@) {
                        lemma_entry_ok_assign(entry@, "versionTime"@, JsonV::Str(s2@));
                    }
                }
                return Ok(entry.with(text("versionTime"), Json::Str(s2)));
            },
            None => return Err(GenError::VersionTimeValueNotString),
        }
    } else if text_is(mutation, "replace-parameter") {
        let name: Vec<char> = match field {
            Some(f) => copy_text(f.as_slice()),
            None => match subst_str {
                Some(s) => copy_text(s.as_slice()),
                None => return Err(GenError::ReplaceParameterNeedsName),
            },
        };
        let val = match subst {
            Some(v) => v,
            None => Json::Null,
        };
        let pk = text("parameters");
        let params_obj = match entry.get(pk.as_slice()) {
            Some(p) => if p.is_object() { Some(p.deep_clone()) } else { None },
            None => None,
        };
        let base = match params_obj {
            Some(p) => p,
            None => Json::empty_object(),
        };
        let new_params = base.with(name, val);
        proof {
            if !(index(entry@, "parameters"@) is Object) {
                if entry@ is Object {
                    lemma_lookup_set_same(entry@->Object_0, "parameters"@, JsonV::Object(Seq::empty()));
                    lemma_set_twice(entry@, "parameters"@, JsonV::Object(Seq::empty()), new_params@);
                } else {
                    let none = Seq::<(Seq<char>, JsonV)>::empty();
                    assert(seq![("parameters"@, JsonV::Object(Seq::empty()))] =~= none.push(("parameters"@, JsonV::Object(Seq::empty()))));
                    assert(seq![("parameters"@, new_params@)] =~= none.push(("parameters"@, new_params@)));
                    crate::json::lemma_set_member_twice(none, "parameters"@, JsonV::Object(Seq::empty()), new_params@);
                    assert(crate::json::is_first_key(seq![("parameters"@, JsonV::Object(Seq::empty()))], "parameters"@, 0));
                    crate::json::lemma_lookup_first(seq![("parameters"@, JsonV::Object(Seq::empty()))], "parameters"@, 0);
                }
            }
            if entry_ok(entry@) {
                lemma_entry_ok_assign(entry@, "parameters"@, new_params@);
            }
        }
        return Ok(entry.with(pk, new_params));
    } else if text_is(mutation, "drop-parameter") {
        let name: Vec<char> = match field {
            Some(f) => copy_text(f.as_slice()),
            None => match subst_str {
                Some(s) => copy_text(s.as_slice()),
                None => return Err(GenError::DropParameterNeedsName),
            },
        };
        let pk = text("parameters");
        let present = match entry.get(pk.as_slice()) {
            Some(p) => Some(p.is_object()),
            None => None,
        };
        match present {
            None => {
                proof {
                    let e1 = assign(entry@, "parameters"@, JsonV::Null);
                    if entry@ is Object {
                        lemma_lookup_set_same(entry@->Object_0, "parameters"@, JsonV::Null);
                    } else {
                        assert(crate::json::is_first_key(seq![("parameters"@, JsonV::Null)], "parameters"@, 0));
                        crate::json::lemma_lookup_first(seq![("parameters"@, JsonV::Null)], "parameters"@, 0);
                    }
                    assert(index(e1, "parameters"@) == JsonV::Null);
                    if entry_ok(entry@) {
                        lemma_entry_ok_assign(entry@, "parameters"@, JsonV::Null);
                    }
                }
                return Ok(entry.with(pk, Json::Null));
            },
            Some(false) => {
                return Ok(entry);
            },
            Some(true) => {
                let p = match entry.get(pk.as_slice()) {
                    Some(p) => p.deep_clone(),
                    None => Json::Null,
                };
                let dropped = p.without(name.as_slice());
                proof {
                    if entry_ok(entry@) {
                        lemma_entry_ok_assign(entry@, "parameters"@, dropped@);
                    }
                }
                return Ok(entry.with(pk, dropped));
            },
        }
    } else if text_is(mutation, "replace-proof-field") {
        let k: Vec<char> = match field {
            Some(f) => copy_text(f.as_slice()),
            None => return Err(GenError::ProofFieldMissing),
        };
        let val = match subst {
            Some(v) => v,
            None => Json::Null,
        };
        let prk = text("proof");
        let first: Option<Json> = match entry.get(prk.as_slice()) {
            Some(Json::Array(items)) => {
                proof {
                    lemma_array_view(*items);
                }
                if items.len() > 0 {
                    let mut all: Vec<Json> = Vec::new();
                    let mut i: usize = 0;
                    while i < items.len()
                        invariant
                            i <= items.len(),
                            all@.len() == i,
                            forall|j: int| 0 <= j < i ==> #[trigger] all@[j]@ == items@[j]@,
                        decreases items.len() - i,
                    {
                        all.push(items[i].deep_clone());
                        i = i + 1;
                    }
                    let head = all.remove(0);
                    assert(is_object_or_null(head@));
                    let new_head = head.with(k, val);
                    let ghost rest = all@;
                    all.insert(0, new_head);
                    proof {
                        lemma_array_view(all);
                        assert(items_view(all@) =~= items_view(items@).update(0, new_head@));
                    }
                    Some(Json::Array(all))
                } else {
                    None
                }
            },
            _ => None,
        };
        match first {
            Some(arr) => {
                proof {
                    lemma_lookup_set_same(entry@->Object_0, "proof"@, arr@);
                }
                return Ok(entry.with(prk, arr));
            },
            None => return Err(GenError::ProofMissing),
        }
    } else {
        return Err(GenError::UnknownMutation { mutation: copy_text(mutation) });
    }
}

/// Assigning a member twice leaves the second value.
pub proof fn lemma_set_twice(e: JsonV, k: Seq<char>, x: JsonV, y: JsonV)
    requires
        e is Object,
    ensures
        assign(assign(e, k, x), k, y) == assign(e, k, y),
{
    let ms = e->Object_0;
    crate::json::lemma_set_member_twice(ms, k, x, y);
}

} // verus!
