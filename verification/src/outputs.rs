//! What the values the generator builds hold, stated key by key and item by
//! item: the parameters of a step, the genesis entry built by hand, the DID
//! document, a replaced parameter, and substituted values.
use vstd::prelude::*;
use crate::digest::base58_hash;
use crate::json::{
    assign, get, has_key, index, is_first_key, jstr_array, lemma_has_first, lemma_lookup_first, lemma_lookup_set_same, lemma_lookup_set_other,
    JsonV, Members,
};
use crate::mutations::mutated;
use crate::entries::genesis_initial;
use crate::placeholders::{substitute_text, substituted, substituted_members, substitutions};
use crate::keys::{find_key, KeyView};
use crate::parameters::{parameter_plan, resolve_keys, update_parameters};
use crate::script::StepParamsV;
use crate::document::{known_multibases, verification_method, verification_methods};

verus! {

/// The public key multibase of the key an identifier names.
pub open spec fn multibase_of(keys: Seq<KeyView>, id: Seq<char>) -> Seq<char> {
    find_key(keys, id)->Some_0.pub_multibase
}

/// The committed hashes of the named keys: the base58 SHA-256 multihash of
/// each one's public key multibase, in the order named.
pub open spec fn committed_hashes(kids: Seq<Seq<char>>, keys: Seq<KeyView>) -> Seq<Seq<char>> {
    Seq::new(kids.len(), |i: int| base58_hash(multibase_of(keys, kids[i])))
}

/// Resolving identifiers succeeds exactly when each names a key, and gives
/// each one's public key multibase, in order.
pub proof fn lemma_resolve_keys(kids: Seq<Seq<char>>, keys: Seq<KeyView>)
    ensures
        resolve_keys(kids, keys) is Ok <==> forall|i: int| 0 <= i < kids.len() ==> #[trigger] find_key(keys, kids[i]) is Some,
        resolve_keys(kids, keys) matches Ok(pms) ==> pms.len() == kids.len()
            && forall|i: int| 0 <= i < kids.len() ==> #[trigger] pms[i] == multibase_of(keys, kids[i]),
    decreases kids.len(),
{
    if kids.len() > 0 {
        let init = kids.drop_last();
        lemma_resolve_keys(init, keys);
        assert forall|i: int| 0 <= i < init.len() implies #[trigger] init[i] == kids[i] by {}
        if resolve_keys(kids, keys) is Ok {
            let pms = resolve_keys(kids, keys)->Ok_0;
            let p0 = resolve_keys(init, keys)->Ok_0;
            assert(pms == p0.push(multibase_of(keys, kids.last())));
            assert forall|i: int| 0 <= i < kids.len() implies #[trigger] find_key(keys, kids[i]) is Some by {
                if i < init.len() {
                    assert(find_key(keys, init[i]) is Some);
                }
            }
            assert forall|i: int| 0 <= i < kids.len() implies #[trigger] pms[i] == multibase_of(keys, kids[i]) by {
                if i < init.len() {
                    assert(p0[i] == multibase_of(keys, init[i]));
                }
            }
        } else {
            if resolve_keys(init, keys) is Err {
                let j = choose|j: int| 0 <= j < init.len() && !(#[trigger] find_key(keys, init[j]) is Some);
                assert(find_key(keys, kids[j]) is None);
            } else {
                assert(find_key(keys, kids[kids.len() - 1]) is None);
            }
        }
    }
}

/// The parameter plan of a step commits, as next-key hashes, the hash of the
/// public key of each key the step names in `nextKeyHashes`, in order (none
/// when it names none), whatever its update keys; its update keys are the
/// public keys of the keys named in `updateKeys`, in order; it keeps the
/// step's portability, and its witnesses are the step's threshold with each
/// witness as `did:key:` and its public key (as written when it names no
/// key).
pub proof fn lemma_plan_keys(params: StepParamsV, keys: Seq<KeyView>)
    requires
        parameter_plan(params, keys) is Ok,
    ensures
        ({
            let plan = parameter_plan(params, keys)->Ok_0;
            &&& params.next_key_hashes.len() == 0 ==> plan.next_key_hashes is None
            &&& params.next_key_hashes.len() > 0 ==> plan.next_key_hashes == Some(committed_hashes(params.next_key_hashes, keys))
            &&& params.update_keys.len() == 0 ==> plan.update_keys is None
            &&& params.update_keys.len() > 0 ==> plan.update_keys
                == Some(Seq::new(params.update_keys.len(), |i: int| multibase_of(keys, params.update_keys[i])))
            &&& plan.portable == params.portable
            &&& params.witness is None ==> plan.witness is None
            &&& params.witness matches Some(c) ==> (plan.witness matches Some((t, ids)) && t == c.threshold
                && ids.len() == c.witnesses.len()
                && forall|i: int| 0 <= i < ids.len() ==> #[trigger] ids[i] == match find_key(keys, c.witnesses[i]) {
                    Some(k) => "did:key:"@ + k.pub_multibase,
                    None => c.witnesses[i],
                })
        }),
{
    lemma_resolve_keys(params.update_keys, keys);
    lemma_resolve_keys(params.next_key_hashes, keys);
    let uks = resolve_keys(params.update_keys, keys)->Ok_0;
    let nks = resolve_keys(params.next_key_hashes, keys)->Ok_0;
    assert(crate::parameters::hash_all(nks) =~= committed_hashes(params.next_key_hashes, keys));
    assert(uks =~= Seq::new(params.update_keys.len(), |i: int| multibase_of(keys, params.update_keys[i])));
}

/// Two steps that name the same next keys get the same next-key hashes in
/// their plans, whatever update keys they name.
pub proof fn lemma_plan_next_keys_ignore_update_keys(params: StepParamsV, other: StepParamsV, keys: Seq<KeyView>)
    requires
        parameter_plan(params, keys) is Ok,
        parameter_plan(other, keys) is Ok,
        params.next_key_hashes == other.next_key_hashes,
    ensures
        parameter_plan(params, keys)->Ok_0.next_key_hashes == parameter_plan(other, keys)->Ok_0.next_key_hashes,
{
    lemma_plan_keys(params, keys);
    lemma_plan_keys(other, keys);
}

/// The parameters of an update entry list, as `nextKeyHashes`, the hash of
/// the public key of each key the step names in `nextKeyHashes`, in order.
pub proof fn lemma_update_parameters_next_keys(params: StepParamsV, current: Seq<Seq<char>>, keys: Seq<KeyView>)
    requires
        update_parameters(params, current, keys) is Ok,
    ensures
        get(update_parameters(params, current, keys)->Ok_0, "nextKeyHashes"@) == Some(jstr_array(committed_hashes(params.next_key_hashes, keys))),
{
    lemma_resolve_keys(params.next_key_hashes, keys);
    let nks = resolve_keys(params.next_key_hashes, keys)->Ok_0;
    assert(crate::parameters::hash_all(nks) =~= committed_hashes(params.next_key_hashes, keys));
    let ms = update_parameters(params, current, keys)->Ok_0->Object_0;
    reveal_strlit("updateKeys");
    reveal_strlit("nextKeyHashes");
    assert("updateKeys"@.len() != "nextKeyHashes"@.len());
    assert(is_first_key(ms, "nextKeyHashes"@, 1));
    lemma_lookup_first(ms, "nextKeyHashes"@, 1);
}

/// The reference of a key in a document: the DID, `#`, then the last eight
/// characters of the key's public key multibase (all of it when shorter).
pub open spec fn reference_of(did: Seq<char>, pm: Seq<char>) -> Seq<char> {
    did + seq!['#'] + pm.subrange(if pm.len() >= 8 { pm.len() - 8 } else { 0 }, pm.len() as int)
}

/// Whether `m` is the verification method of a key: an object of four
/// members, its reference as `id`, type `Multikey`, the DID as controller and
/// the key's public key multibase.
pub open spec fn method_of_key(m: JsonV, did: Seq<char>, pm: Seq<char>) -> bool {
    &&& m is Object
    &&& m->Object_0.len() == 4
    &&& get(m, "id"@) == Some(JsonV::Str(reference_of(did, pm)))
    &&& get(m, "type"@) == Some(JsonV::Str("Multikey"@))
    &&& get(m, "controller"@) == Some(JsonV::Str(did))
    &&& get(m, "publicKeyMultibase"@) == Some(JsonV::Str(pm))
}

/// Whether `vms` lists, in order, one verification method for each update
/// key of the step that names a registered key, then each verification
/// method the step gives, as given.
pub open spec fn lists_methods(vms: Seq<JsonV>, did: Seq<char>, params: StepParamsV, keys: Seq<KeyView>) -> bool {
    let pms = known_multibases(params.update_keys, keys);
    &&& vms.len() == pms.len() + params.verification_methods.len()
    &&& forall|i: int| 0 <= i < pms.len() ==> method_of_key(#[trigger] vms[i], did, pms[i])
    &&& forall|j: int| 0 <= j < params.verification_methods.len()
        ==> #[trigger] vms[pms.len() + j] == params.verification_methods[j]
}

/// Whether `auth` lists, in order, the reference of each update key of the
/// step that names a registered key.
pub open spec fn lists_references(auth: Seq<JsonV>, did: Seq<char>, params: StepParamsV, keys: Seq<KeyView>) -> bool {
    let pms = known_multibases(params.update_keys, keys);
    &&& auth.len() == pms.len()
    &&& forall|i: int| 0 <= i < pms.len() ==> #[trigger] auth[i] == JsonV::Str(reference_of(did, pms[i]))
}

/// When every update key a step names is registered, its documents have one
/// verification method for each, in order.
pub proof fn lemma_known_multibases(kids: Seq<Seq<char>>, keys: Seq<KeyView>)
    requires
        forall|i: int| 0 <= i < kids.len() ==> #[trigger] find_key(keys, kids[i]) is Some,
    ensures
        known_multibases(kids, keys) == Seq::new(kids.len(), |i: int| multibase_of(keys, kids[i])),
    decreases kids.len(),
{
    if kids.len() > 0 {
        let init = kids.drop_last();
        assert forall|i: int| 0 <= i < init.len() implies #[trigger] find_key(keys, init[i]) is Some by {
            assert(init[i] == kids[i]);
        }
        lemma_known_multibases(init, keys);
        assert(find_key(keys, kids[kids.len() - 1]) is Some);
        assert(known_multibases(kids, keys) =~= Seq::new(kids.len(), |i: int| multibase_of(keys, kids[i])));
    }
}

/// The verification methods and references of a document list those of the
/// registered update keys, then (for the methods) the step's own.
pub proof fn lemma_methods_listed(did: Seq<char>, params: StepParamsV, keys: Seq<KeyView>)
    ensures
        lists_methods(verification_methods(did, params, keys), did, params, keys),
        lists_references(crate::document::authentication(did, params, keys), did, params, keys),
{
    let pms = known_multibases(params.update_keys, keys);
    let vms = verification_methods(did, params, keys);
    let head = Seq::new(pms.len(), |i: int| verification_method(did, pms[i]));
    assert(vms == head + params.verification_methods);
    reveal_strlit("id");
    reveal_strlit("type");
    reveal_strlit("controller");
    reveal_strlit("publicKeyMultibase");
    assert("id"@.len() == 2 && "type"@.len() == 4 && "controller"@.len() == 10 && "publicKeyMultibase"@.len() == 18);
    assert forall|i: int| 0 <= i < pms.len() implies method_of_key(#[trigger] vms[i], did, pms[i]) by {
        let ms = vms[i]->Object_0;
        assert(vms[i] == head[i]);
        assert(is_first_key(ms, "id"@, 0));
        lemma_lookup_first(ms, "id"@, 0);
        assert(is_first_key(ms, "type"@, 1));
        lemma_lookup_first(ms, "type"@, 1);
        assert(is_first_key(ms, "controller"@, 2));
        lemma_lookup_first(ms, "controller"@, 2);
        assert(is_first_key(ms, "publicKeyMultibase"@, 3));
        lemma_lookup_first(ms, "publicKeyMultibase"@, 3);
        let pm = pms[i];
        assert(pm.skip(if pm.len() >= 8 { pm.len() - 8 } else { 0 }) =~= pm.subrange(if pm.len() >= 8 { pm.len() - 8 } else { 0 }, pm.len() as int));
    }
    assert forall|i: int| 0 <= i < pms.len() implies #[trigger] crate::document::authentication(did, params, keys)[i] == JsonV::Str(reference_of(did, pms[i])) by {
        let pm = pms[i];
        assert(pm.skip(if pm.len() >= 8 { pm.len() - 8 } else { 0 }) =~= pm.subrange(if pm.len() >= 8 { pm.len() - 8 } else { 0 }, pm.len() as int));
    }
}

/// Substitution reaches every string at any depth: a string has the
/// placeholders in its text replaced; an array becomes the array of its items
/// substituted, whatever their kind; an object keeps its keys, in order, each
/// with its value substituted; any other value is kept.
pub proof fn lemma_substituted_parts(v: JsonV, subs: Seq<(Seq<char>, Seq<char>)>)
    ensures
        v matches JsonV::Str(s) ==> substituted(v, subs) == JsonV::Str(substitute_text(s, subs)),
        v matches JsonV::Array(items) ==> (substituted(v, subs) matches JsonV::Array(out)
            && out.len() == items.len()
            && forall|i: int| 0 <= i < items.len() ==> #[trigger] out[i] == substituted(items[i], subs)),
        v matches JsonV::Object(ms) ==> (substituted(v, subs) matches JsonV::Object(out)
            && out.len() == ms.len()
            && forall|i: int| 0 <= i < ms.len() ==> (#[trigger] out[i]).0 == ms[i].0 && out[i].1 == substituted(ms[i].1, subs)),
        !(v is Str || v is Array || v is Object) ==> substituted(v, subs) == v,
{
}

/// The value found under a key of a substituted object is the value found
/// under it before, substituted.
pub proof fn lemma_substituted_member(ms: Members, subs: Seq<(Seq<char>, Seq<char>)>, k: Seq<char>)
    ensures
        get(substituted(JsonV::Object(ms), subs), k) == match get(JsonV::Object(ms), k) {
            Some(x) => Some(substituted(x, subs)),
            None => None::<JsonV>,
        },
{
    let out = substituted_members(ms, subs);
    assert forall|i: int| 0 <= i < ms.len() implies #[trigger] out[i].0 == ms[i].0 by {}
    if has_key(ms, k) {
        lemma_has_first(ms, k);
        let p = choose|i: int| is_first_key(ms, k, i);
        assert(is_first_key(out, k, p));
        lemma_lookup_first(ms, k, p);
        lemma_lookup_first(out, k, p);
    } else {
        assert(!has_key(out, k)) by {
            if has_key(out, k) {
                let i = choose|i: int| 0 <= i < out.len() && out[i].0 == k;
                assert(ms[i].0 == k);
            }
        }
    }
}

/// `replace-parameter` with a field sets that parameter to the mutation's
/// value with every key placeholder substituted (null when there is none),
/// whatever the parameters held before, and keeps every other parameter an
/// object of parameters had.
pub proof fn lemma_replace_parameter(entry: JsonV, field: Seq<char>, value: Option<JsonV>, keys: Seq<KeyView>, k: Seq<char>)
    requires
        mutated(entry, "replace-parameter"@, Some(field), value, keys) is Ok,
    ensures
        ({
            let x = mutated(entry, "replace-parameter"@, Some(field), value, keys)->Ok_0;
            &&& get(index(x, "parameters"@), field) == Some(match value {
                Some(v) => substituted(v, substitutions(keys)),
                None => JsonV::Null,
            })
            &&& (k != field && index(entry, "parameters"@) is Object)
                ==> get(index(x, "parameters"@), k) == get(index(entry, "parameters"@), k)
        }),
{
    reveal_strlit("replace-state-id-scid");
    reveal_strlit("replace-version-time");
    reveal_strlit("replace-parameter");
    assert("replace-parameter"@.len() == 17 && "replace-version-time"@.len() == 20 && "replace-state-id-scid"@.len() == 21);
    let pk = "parameters"@;
    let e1 = if index(entry, pk) is Object { entry } else { assign(entry, pk, JsonV::Object(Seq::empty())) };
    if !(index(entry, pk) is Object) {
        match entry {
            JsonV::Object(ms) => lemma_lookup_set_same(ms, pk, JsonV::Object(Seq::empty())),
            _ => {
                assert(is_first_key(seq![(pk, JsonV::Object(Seq::empty()))], pk, 0));
                lemma_lookup_first(seq![(pk, JsonV::Object(Seq::empty()))], pk, 0);
            },
        }
    }
    assert(e1 is Object);
    let p = index(e1, pk);
    assert(p is Object);
    let val = match value {
        Some(v) => substituted(v, substitutions(keys)),
        None => JsonV::Null,
    };
    let p2 = assign(p, field, val);
    lemma_lookup_set_same(e1->Object_0, pk, p2);
    lemma_lookup_set_same(p->Object_0, field, val);
    if k != field {
        lemma_lookup_set_other(p->Object_0, field, val, k);
    }
}

/// The update keys an update entry lists: the step's, or the current ones
/// when the step names none.
pub open spec fn listed_keys(params: StepParamsV, current: Seq<Seq<char>>) -> Seq<Seq<char>> {
    if params.update_keys.len() > 0 { params.update_keys } else { current }
}

/// The public key multibase of the key an identifier names, or the
/// identifier itself when it names none.
pub open spec fn key_or_id(keys: Seq<KeyView>, id: Seq<char>) -> Seq<char> {
    match find_key(keys, id) {
        Some(k) => k.pub_multibase,
        None => id,
    }
}

/// Whether `w` is the `witness` parameter of a witness configuration: `{}`
/// without one; else its threshold, and for each witness, in order, an
/// object whose `id` is `did:key:` and the witness's public key multibase
/// (the identifier as written when it names no key).
pub open spec fn witness_listed(w: JsonV, wc: Option<crate::script::WitnessV>, keys: Seq<KeyView>) -> bool {
    match wc {
        None => w == JsonV::Object(Seq::empty()),
        Some(c) => {
            &&& get(w, "threshold"@) == Some(JsonV::Number(crate::text::decimal(c.threshold as nat)))
            &&& get(w, "witnesses"@) matches Some(JsonV::Array(ws))
                && ws.len() == c.witnesses.len()
                && forall|i: int| 0 <= i < ws.len() ==> get(#[trigger] ws[i], "id"@) == Some(JsonV::Str("did:key:"@
                    + key_or_id(keys, c.witnesses[i])))
        },
    }
}

/// The parameters of an update entry can be made exactly when every update
/// key it lists (the step's, or the current ones when the step names none)
/// and every next key the step names is registered. They list those update
/// keys' public keys, in order; no watchers; the step's portability when it
/// gives one; and the step's witnesses.
pub proof fn lemma_update_parameters_fields(params: StepParamsV, current: Seq<Seq<char>>, keys: Seq<KeyView>)
    ensures
        update_parameters(params, current, keys) is Ok <==> (
            (forall|i: int| 0 <= i < listed_keys(params, current).len() ==> #[trigger] find_key(keys, listed_keys(params, current)[i]) is Some)
            && (forall|i: int| 0 <= i < params.next_key_hashes.len() ==> #[trigger] find_key(keys, params.next_key_hashes[i]) is Some)),
        update_parameters(params, current, keys) matches Ok(p) ==> get(p, "updateKeys"@) == Some(jstr_array(
            Seq::new(listed_keys(params, current).len(), |i: int| multibase_of(keys, listed_keys(params, current)[i])))),
        update_parameters(params, current, keys) matches Ok(p) ==> get(p, "watchers"@) == Some(JsonV::Array(Seq::empty())),
        update_parameters(params, current, keys) matches Ok(p) ==> get(p, "portable"@) == match params.portable {
            Some(b) => Some(JsonV::Bool(b)),
            None => None::<JsonV>,
        },
        update_parameters(params, current, keys) matches Ok(p) ==> (get(p, "witness"@) matches Some(w) && witness_listed(w, params.witness, keys)),
{
    let eff = if params.update_keys.len() > 0 { params.update_keys } else { current };
    assert(crate::parameters::effective_update_keys(params, current) == eff);
    lemma_resolve_keys(eff, keys);
    lemma_resolve_keys(params.next_key_hashes, keys);
    if update_parameters(params, current, keys) is Ok {
        let p = update_parameters(params, current, keys)->Ok_0;
        let ms = p->Object_0;
        let uks = resolve_keys(eff, keys)->Ok_0;
        assert(uks =~= Seq::new(eff.len(), |i: int| multibase_of(keys, eff[i])));
        reveal_strlit("updateKeys");
        reveal_strlit("nextKeyHashes");
        reveal_strlit("witness");
        reveal_strlit("watchers");
        reveal_strlit("portable");
        reveal_strlit("threshold");
        reveal_strlit("witnesses");
        reveal_strlit("id");
        reveal_strlit("did:key:");
        assert("updateKeys"@.len() == 10 && "nextKeyHashes"@.len() == 13 && "witness"@.len() == 7);
        assert("watchers"@.len() == 8 && "portable"@.len() == 8 && "watchers"@[0] != "portable"@[0]);
        assert(is_first_key(ms, "updateKeys"@, 0));
        lemma_lookup_first(ms, "updateKeys"@, 0);
        assert(is_first_key(ms, "witness"@, 2));
        lemma_lookup_first(ms, "witness"@, 2);
        assert(is_first_key(ms, "watchers"@, 3));
        lemma_lookup_first(ms, "watchers"@, 3);
        match params.portable {
            Some(b) => {
                assert(is_first_key(ms, "portable"@, 4));
                lemma_lookup_first(ms, "portable"@, 4);
            },
            None => {
                assert(!has_key(ms, "portable"@)) by {
                    if has_key(ms, "portable"@) {
                        let i = choose|i: int| 0 <= i < ms.len() && ms[i].0 == "portable"@;
                    }
                }
            },
        }
        let w = crate::parameters::witness_value(params.witness, keys);
        match params.witness {
            None => {},
            Some(c) => {
                let wm = w->Object_0;
                assert("threshold"@.len() == 9 && "witnesses"@.len() == 9 && "threshold"@[0] != "witnesses"@[0]);
                assert(is_first_key(wm, "threshold"@, 0));
                lemma_lookup_first(wm, "threshold"@, 0);
                assert(is_first_key(wm, "witnesses"@, 1));
                lemma_lookup_first(wm, "witnesses"@, 1);
                let ws = wm[1].1->Array_0;
                assert forall|i: int| 0 <= i < ws.len() implies get(#[trigger] ws[i], "id"@) == Some(JsonV::Str("did:key:"@
                    + key_or_id(keys, c.witnesses[i]))) by {
                    let em = ws[i]->Object_0;
                    assert(is_first_key(em, "id"@, 0));
                    lemma_lookup_first(em, "id"@, 0);
                }
            },
        }
    }
}

/// The public keys a genesis entry lists as update keys: the signer's when
/// the step names none, else those of the keys the step names, in order.
pub open spec fn genesis_keys_listed(params: StepParamsV, signer_pm: Seq<char>, keys: Seq<KeyView>) -> Seq<Seq<char>> {
    if params.update_keys.len() == 0 {
        seq![signer_pm]
    } else {
        Seq::new(params.update_keys.len(), |i: int| multibase_of(keys, params.update_keys[i]))
    }
}

/// A genesis entry built by hand can be made exactly when every key the step
/// names as an update key or a next key is registered. Before its SCID is
/// known it holds the timestamp, the document of the placeholder DID, and
/// parameters with the method `did:webvh:1.0`, the listed update keys, the
/// step's portability (false when it gives none), no watchers, the step's
/// witnesses, and not deactivated.
pub proof fn lemma_genesis_fields(domain: Seq<char>, ts: Seq<char>, params: StepParamsV, signer_pm: Seq<char>, keys: Seq<KeyView>)
    ensures
        genesis_initial(domain, ts, params, signer_pm, keys) is Ok <==> (
            (forall|i: int| 0 <= i < params.update_keys.len() ==> #[trigger] find_key(keys, params.update_keys[i]) is Some)
            && (forall|i: int| 0 <= i < params.next_key_hashes.len() ==> #[trigger] find_key(keys, params.next_key_hashes[i]) is Some)),
        genesis_initial(domain, ts, params, signer_pm, keys) matches Ok(init) ==> get(init, "versionTime"@) == Some(JsonV::Str(ts)),
        genesis_initial(domain, ts, params, signer_pm, keys) matches Ok(init) ==> get(init, "state"@)
            == Some(crate::document::document(crate::entries::placeholder_did(domain), params, keys)),
        genesis_initial(domain, ts, params, signer_pm, keys) matches Ok(init) ==> get(index(init, "parameters"@), "method"@)
            == Some(JsonV::Str("did:webvh:1.0"@)),
        genesis_initial(domain, ts, params, signer_pm, keys) matches Ok(init) ==> get(index(init, "parameters"@), "updateKeys"@)
            == Some(jstr_array(genesis_keys_listed(params, signer_pm, keys))),
        genesis_initial(domain, ts, params, signer_pm, keys) matches Ok(init) ==> get(index(init, "parameters"@), "portable"@)
            == Some(JsonV::Bool(params.portable == Some(true))),
        genesis_initial(domain, ts, params, signer_pm, keys) matches Ok(init) ==> get(index(init, "parameters"@), "watchers"@)
            == Some(JsonV::Array(Seq::empty())),
        genesis_initial(domain, ts, params, signer_pm, keys) matches Ok(init) ==> get(index(init, "parameters"@), "deactivated"@)
            == Some(JsonV::Bool(false)),
        genesis_initial(domain, ts, params, signer_pm, keys) matches Ok(init) ==> (get(index(init, "parameters"@), "witness"@)
            matches Some(w) && witness_listed(w, params.witness, keys)),
{
    lemma_resolve_keys(params.update_keys, keys);
    lemma_resolve_keys(params.next_key_hashes, keys);
    if genesis_initial(domain, ts, params, signer_pm, keys) is Ok {
        let init = genesis_initial(domain, ts, params, signer_pm, keys)->Ok_0;
        let top = init->Object_0;
        let pm = top[2].1->Object_0;
        if params.update_keys.len() > 0 {
            let uks = resolve_keys(params.update_keys, keys)->Ok_0;
            assert(uks =~= genesis_keys_listed(params, signer_pm, keys));
        }
        reveal_strlit("versionId");
        reveal_strlit("versionTime");
        reveal_strlit("parameters");
        reveal_strlit("state");
        reveal_strlit("method");
        reveal_strlit("scid");
        reveal_strlit("updateKeys");
        reveal_strlit("portable");
        reveal_strlit("nextKeyHashes");
        reveal_strlit("watchers");
        reveal_strlit("witness");
        reveal_strlit("deactivated");
        reveal_strlit("threshold");
        reveal_strlit("witnesses");
        reveal_strlit("id");
        assert("versionId"@.len() == 9 && "versionTime"@.len() == 11 && "parameters"@.len() == 10 && "state"@.len() == 5);
        assert("method"@.len() == 6 && "scid"@.len() == 4 && "updateKeys"@.len() == 10 && "portable"@.len() == 8);
        assert("nextKeyHashes"@.len() == 13 && "watchers"@.len() == 8 && "witness"@.len() == 7 && "deactivated"@.len() == 11);
        assert("watchers"@[0] != "portable"@[0] && "parameters"@[0] != "deactivated"@[0]);
        assert(is_first_key(top, "versionTime"@, 1));
        lemma_lookup_first(top, "versionTime"@, 1);
        assert(is_first_key(top, "parameters"@, 2));
        lemma_lookup_first(top, "parameters"@, 2);
        assert(is_first_key(top, "state"@, 3));
        lemma_lookup_first(top, "state"@, 3);
        assert(is_first_key(pm, "method"@, 0));
        lemma_lookup_first(pm, "method"@, 0);
        assert(is_first_key(pm, "updateKeys"@, 2));
        lemma_lookup_first(pm, "updateKeys"@, 2);
        assert(is_first_key(pm, "portable"@, 3));
        lemma_lookup_first(pm, "portable"@, 3);
        assert(is_first_key(pm, "watchers"@, 5));
        lemma_lookup_first(pm, "watchers"@, 5);
        assert(is_first_key(pm, "witness"@, 6));
        lemma_lookup_first(pm, "witness"@, 6);
        assert(is_first_key(pm, "deactivated"@, 7));
        lemma_lookup_first(pm, "deactivated"@, 7);
        let w = crate::parameters::witness_value(params.witness, keys);
        match params.witness {
            None => {},
            Some(c) => {
                let wm = w->Object_0;
                assert("threshold"@.len() == 9 && "witnesses"@.len() == 9 && "threshold"@[0] != "witnesses"@[0]);
                assert(is_first_key(wm, "threshold"@, 0));
                lemma_lookup_first(wm, "threshold"@, 0);
                assert(is_first_key(wm, "witnesses"@, 1));
                lemma_lookup_first(wm, "witnesses"@, 1);
                let ws = wm[1].1->Array_0;
                assert forall|i: int| 0 <= i < ws.len() implies get(#[trigger] ws[i], "id"@) == Some(JsonV::Str("did:key:"@
                    + key_or_id(keys, c.witnesses[i]))) by {
                    let em = ws[i]->Object_0;
                    assert(is_first_key(em, "id"@, 0));
                    lemma_lookup_first(em, "id"@, 0);
                }
            },
        }
    }
}

/// `replace-version-time` succeeds exactly when the mutation's value is a
/// string, and sets `versionTime` to it with every key placeholder
/// substituted.
pub proof fn lemma_replace_version_time(entry: JsonV, field: Option<Seq<char>>, value: Option<JsonV>, keys: Seq<KeyView>)
    ensures
        mutated(entry, "replace-version-time"@, field, value, keys) is Ok <==> (value matches Some(v) && v is Str),
        mutated(entry, "replace-version-time"@, field, value, keys) matches Ok(x) ==> (value matches Some(JsonV::Str(t))
            && get(x, "versionTime"@) == Some(JsonV::Str(crate::placeholders::substitute_text(t, substitutions(keys))))),
{
    reveal_strlit("replace-state-id-scid");
    reveal_strlit("replace-version-time");
    assert("replace-version-time"@.len() == 20 && "replace-state-id-scid"@.len() == 21);
    if mutated(entry, "replace-version-time"@, field, value, keys) is Ok {
        let t = value->Some_0->Str_0;
        let r = crate::placeholders::substitute_text(t, substitutions(keys));
        match entry {
            JsonV::Object(ms) => lemma_lookup_set_same(ms, "versionTime"@, JsonV::Str(r)),
            _ => {
                assert(is_first_key(seq![("versionTime"@, JsonV::Str(r))], "versionTime"@, 0));
                lemma_lookup_first(seq![("versionTime"@, JsonV::Str(r))], "versionTime"@, 0);
            },
        }
    }
}

/// `replace-proof-field` with a field succeeds exactly when the entry has a
/// non-empty array of proofs; it sets that field of the first proof to the
/// mutation's value with every key placeholder substituted (null when there
/// is none), and keeps the other proofs.
pub proof fn lemma_replace_proof_field(entry: JsonV, field: Seq<char>, value: Option<JsonV>, keys: Seq<KeyView>)
    ensures
        mutated(entry, "replace-proof-field"@, Some(field), value, keys) is Ok
            <==> (get(entry, "proof"@) matches Some(JsonV::Array(items)) && items.len() > 0),
        mutated(entry, "replace-proof-field"@, Some(field), value, keys) matches Ok(x) ==> (
            get(entry, "proof"@) matches Some(JsonV::Array(items)) && get(x, "proof"@) matches Some(JsonV::Array(out))
            && out.len() == items.len()
            && get(out[0], field) == Some(match value {
                Some(v) => substituted(v, substitutions(keys)),
                None => JsonV::Null,
            })
            && forall|j: int| 0 < j < items.len() ==> #[trigger] out[j] == items[j]),
{
    reveal_strlit("replace-state-id-scid");
    reveal_strlit("replace-version-time");
    reveal_strlit("replace-parameter");
    reveal_strlit("drop-parameter");
    reveal_strlit("replace-proof-field");
    assert("replace-parameter"@.len() == 17 && "drop-parameter"@.len() == 14 && "replace-proof-field"@.len() == 19
        && "replace-version-time"@.len() == 20 && "replace-state-id-scid"@.len() == 21);
    if mutated(entry, "replace-proof-field"@, Some(field), value, keys) is Ok {
        let items = get(entry, "proof"@)->Some_0->Array_0;
        let val = match value {
            Some(v) => substituted(v, substitutions(keys)),
            None => JsonV::Null,
        };
        let h = assign(items[0], field, val);
        let out = items.update(0, h);
        lemma_lookup_set_same(entry->Object_0, "proof"@, JsonV::Array(out));
        match items[0] {
            JsonV::Object(ms) => lemma_lookup_set_same(ms, field, val),
            _ => {
                assert(is_first_key(seq![(field, val)], field, 0));
                lemma_lookup_first(seq![(field, val)], field, 0);
            },
        }
    }
}

/// `drop-parameter` with a field removes that parameter from an object of
/// parameters and keeps every other; an entry without parameters gets null
/// parameters; parameters that are not an object stay as they are.
pub proof fn lemma_drop_parameter(entry: JsonV, field: Seq<char>, value: Option<JsonV>, keys: Seq<KeyView>, k: Seq<char>)
    requires
        entry is Object || entry is Null,
    ensures
        mutated(entry, "drop-parameter"@, Some(field), value, keys) is Ok,
        ({
            let x = mutated(entry, "drop-parameter"@, Some(field), value, keys)->Ok_0;
            &&& index(entry, "parameters"@) is Object ==> index(x, "parameters"@) is Object
                && get(index(x, "parameters"@), field) is None
                && (k != field ==> get(index(x, "parameters"@), k) == get(index(entry, "parameters"@), k))
            &&& get(entry, "parameters"@) is None ==> get(x, "parameters"@) == Some(JsonV::Null)
            &&& (get(entry, "parameters"@) matches Some(p) && !(p is Object)) ==> x == entry
        }),
{
    reveal_strlit("replace-state-id-scid");
    reveal_strlit("replace-version-time");
    reveal_strlit("replace-parameter");
    reveal_strlit("drop-parameter");
    assert("replace-parameter"@.len() == 17 && "drop-parameter"@.len() == 14
        && "replace-version-time"@.len() == 20 && "replace-state-id-scid"@.len() == 21);
    let pk = "parameters"@;
    match get(entry, pk) {
        Some(p) => {
            if p is Object {
                let q = crate::json::remove(p, field);
                lemma_lookup_set_same(entry->Object_0, pk, q);
                crate::laws::lemma_drop_removes(p->Object_0, field);
                if k != field {
                    crate::json::lemma_lookup_drop_other(p->Object_0, field, k);
                }
            }
        },
        None => {
            match entry {
                JsonV::Object(ms) => lemma_lookup_set_same(ms, pk, JsonV::Null),
                _ => {
                    assert(is_first_key(seq![(pk, JsonV::Null)], pk, 0));
                    lemma_lookup_first(seq![(pk, JsonV::Null)], pk, 0);
                },
            }
        },
    }
}

/// A step's parameter plan can be made exactly when every key it names as
/// an update key or a next key is registered and, when it configures
/// witnesses, the did:webvh library accepts them.
pub proof fn lemma_plan_success(params: StepParamsV, keys: Seq<KeyView>)
    ensures
        parameter_plan(params, keys) is Ok <==> (
            (forall|i: int| 0 <= i < params.update_keys.len() ==> #[trigger] find_key(keys, params.update_keys[i]) is Some)
            && (forall|i: int| 0 <= i < params.next_key_hashes.len() ==> #[trigger] find_key(keys, params.next_key_hashes[i]) is Some)
            && (params.witness matches Some(c) ==> crate::parameters::witnesses_valid(c.threshold,
                Seq::new(c.witnesses.len(), |i: int| crate::parameters::plan_witness_id(c.witnesses[i], keys))))),
{
    lemma_resolve_keys(params.update_keys, keys);
    lemma_resolve_keys(params.next_key_hashes, keys);
}

} // verus!
