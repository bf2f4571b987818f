//! The parameters of log entries: the keys a step names, resolved through the
//! registry, and the parameter objects written into entries.
use vstd::prelude::*;
use crate::digest::{base58_hash, hash_text};
use crate::error::{GenError, GenErrorV};
use crate::json::{jstr_array, lemma_array_view, lemma_object_view, members_view, texts_view, items_view, Json, JsonV};
use crate::keys::{find_key, KeyRegistry, KeyView};
use crate::script::{opt_witness_view, StepParams, StepParamsV, WitnessConfig, WitnessV};
use crate::text::{concat, copy_text, decimal, decimal_text, text};

verus! {

broadcast use vstd::std_specs::vec::group_vec_axioms;

/// The public key multibases of the named keys, in order; the first
/// identifier that names no key otherwise.
pub open spec fn resolve_keys(kids: Seq<Seq<char>>, keys: Seq<KeyView>) -> Result<Seq<Seq<char>>, Seq<char>>
    decreases kids.len(),
{
    if kids.len() == 0 {
        Ok(Seq::empty())
    } else {
        match resolve_keys(kids.drop_last(), keys) {
            Err(id) => Err(id),
            Ok(pms) => match find_key(keys, kids.last()) {
                Some(k) => Ok(pms.push(k.pub_multibase)),
                None => Err(kids.last()),
            },
        }
    }
}

/// The base58 multihash of each text.
pub open spec fn hash_all(pms: Seq<Seq<char>>) -> Seq<Seq<char>> {
    Seq::new(pms.len(), |i: int| base58_hash(pms[i]))
}

/// The `did:key` of a witness in a parameters object: the key's public key
/// multibase when the identifier names a key, else the identifier itself.
pub open spec fn witness_did(id: Seq<char>, keys: Seq<KeyView>) -> Seq<char> {
    "did:key:"@ + match find_key(keys, id) {
        Some(k) => k.pub_multibase,
        None => id,
    }
}

/// The witness entry `{"id": did}` of a witness.
pub open spec fn witness_entry(id: Seq<char>, keys: Seq<KeyView>) -> JsonV {
    JsonV::Object(seq![("id"@, JsonV::Str(witness_did(id, keys)))])
}

/// The `witness` parameter: the threshold and the witnesses, or `{}` when the
/// step configures no witnesses.
pub open spec fn witness_value(w: Option<WitnessV>, keys: Seq<KeyView>) -> JsonV {
    match w {
        Some(wc) => JsonV::Object(seq![
            ("threshold"@, JsonV::Number(decimal(wc.threshold as nat))),
            ("witnesses"@, JsonV::Array(Seq::new(wc.witnesses.len(), |i: int| witness_entry(wc.witnesses[i], keys)))),
        ]),
        None => JsonV::Object(Seq::empty()),
    }
}

/// The update keys an update entry lists: the step's, or the current ones
/// when the step names none.
pub open spec fn effective_update_keys(params: StepParamsV, current: Seq<Seq<char>>) -> Seq<Seq<char>> {
    if params.update_keys.len() == 0 {
        current
    } else {
        params.update_keys
    }
}

/// `build_update_parameters_json`: the parameters of an update entry.
pub open spec fn update_parameters(params: StepParamsV, current: Seq<Seq<char>>, keys: Seq<KeyView>) -> Result<JsonV, GenErrorV> {
    match resolve_keys(effective_update_keys(params, current), keys) {
        Err(id) => Err(GenErrorV::UnknownKey { id }),
        Ok(uks) => match resolve_keys(params.next_key_hashes, keys) {
            Err(id) => Err(GenErrorV::UnknownKey { id }),
            Ok(nks) => {
                let base: Seq<(Seq<char>, JsonV)> = seq![
                    ("updateKeys"@, jstr_array(uks)),
                    ("nextKeyHashes"@, jstr_array(hash_all(nks))),
                    ("witness"@, witness_value(params.witness, keys)),
                    ("watchers"@, JsonV::Array(Seq::empty())),
                ];
                Ok(JsonV::Object(match params.portable {
                    Some(b) => base.push(("portable"@, JsonV::Bool(b))),
                    None => base,
                }))
            },
        },
    }
}

/// The public key multibases of the named keys.
pub fn resolve_key_list(kids: &Vec<Vec<char>>, keys: &KeyRegistry) -> (r: Result<Vec<Vec<char>>, GenError>)
    ensures
        match resolve_keys(texts_view(kids@), keys.keys()) {
            Ok(pms) => r matches Ok(v) && texts_view(v@) == pms,
            Err(id) => r matches Err(e) && e@ == (GenErrorV::UnknownKey { id }),
        },
{
    let ghost kv = texts_view(kids@);
    let mut out: Vec<Vec<char>> = Vec::new();
    let mut i: usize = 0;
    assert(kv.take(0) =~= Seq::<Seq<char>>::empty());
    assert(texts_view(out@) =~= Seq::<Seq<char>>::empty());
    while i < kids.len()
        invariant
            i <= kids.len(),
            kv == texts_view(kids@),
            resolve_keys(kv.take(i as int), keys.keys()) == Ok::<Seq<Seq<char>>, Seq<char>>(texts_view(out@)),
        decreases kids.len() - i,
    {
        assert(kv.take(i + 1).drop_last() =~= kv.take(i as int));
        assert(kv.take(i + 1).last() == kids@[i as int]@);
        match keys.lookup(kids[i].as_slice()) {
            Some(k) => {
                let ghost before = texts_view(out@);
                out.push(copy_text(k.pub_multibase.as_slice()));
                assert(texts_view(out@) =~= before.push(k.pub_multibase@));
            },
            None => {
                proof {
                    lemma_resolve_error_prefix(kv, keys.keys(), i as int + 1);
                }
                return Err(GenError::UnknownKey { id: copy_text(kids[i].as_slice()) });
            },
        }
        i = i + 1;
    }
    assert(kv.take(kids.len() as int) =~= kv);
    Ok(out)
}

proof fn lemma_resolve_error_prefix(kids: Seq<Seq<char>>, keys: Seq<KeyView>, n: int)
    requires
        0 < n <= kids.len(),
        resolve_keys(kids.take(n), keys) is Err,
    ensures
        resolve_keys(kids, keys) == resolve_keys(kids.take(n), keys),
    decreases kids.len() - n,
{
    if n < kids.len() {
        assert(kids.take(n + 1).drop_last() =~= kids.take(n));
        lemma_resolve_error_prefix(kids, keys, n + 1);
    } else {
        assert(kids.take(n) =~= kids);
    }
}

/// The base58 multihash of each text.
pub fn hash_list(pms: &Vec<Vec<char>>) -> (r: Vec<Vec<char>>)
    ensures
        texts_view(r@) == hash_all(texts_view(pms@)),
{
    let mut out: Vec<Vec<char>> = Vec::new();
    let mut i: usize = 0;
    while i < pms.len()
        invariant
            i <= pms.len(),
            out@.len() == i,
            forall|j: int| 0 <= j < i ==> #[trigger] out@[j]@ == base58_hash(pms@[j]@),
        decreases pms.len() - i,
    {
        out.push(hash_text(pms[i].as_slice()));
        i = i + 1;
    }
    assert(texts_view(out@) =~= hash_all(texts_view(pms@)));
    out
}

/// The `did:key` of a witness in a parameters object.
fn make_witness_did(id: &[char], keys: &KeyRegistry) -> (r: Vec<char>)
    ensures
        r@ == witness_did(id@, keys.keys()),
{
    let prefix = text("did:key:");
    match keys.lookup(id) {
        Some(k) => concat(prefix.as_slice(), k.pub_multibase.as_slice()),
        None => concat(prefix.as_slice(), id),
    }
}

/// The `witness` parameter of an entry.
pub fn witness_json(w: &Option<WitnessConfig>, keys: &KeyRegistry) -> (r: Json)
    ensures
        r@ == witness_value(opt_witness_view(*w), keys.keys()),
{
    match w {
        Some(wc) => {
            let mut items: Vec<Json> = Vec::new();
            let mut i: usize = 0;
            while i < wc.witnesses.len()
                invariant
                    i <= wc.witnesses@.len(),
                    items@.len() == i,
                    forall|j: int| 0 <= j < i ==> #[trigger] items@[j]@ == witness_entry(wc.witnesses@[j]@, keys.keys()),
                decreases wc.witnesses@.len() - i,
            {
                let mut ms: Vec<(Vec<char>, Json)> = Vec::new();
                ms.push((text("id"), Json::Str(make_witness_did(wc.witnesses[i].as_slice(), keys))));
                proof {
                    lemma_object_view(ms);
                    assert(members_view(ms@) =~= witness_entry(wc.witnesses@[i as int]@, keys.keys())->Object_0);
                }
                items.push(Json::Object(ms));
                i = i + 1;
            }
            proof {
                lemma_array_view(items);
            }
            let mut ms: Vec<(Vec<char>, Json)> = Vec::new();
            ms.push((text("threshold"), Json::Number(decimal_text(wc.threshold as u64))));
            ms.push((text("witnesses"), Json::Array(items)));
            proof {
                lemma_object_view(ms);
                assert(items_view(items@) =~= Seq::new(wc.witnesses@.len(), |i: int| witness_entry(wc.witnesses@[i]@, keys.keys())));
                assert(items_view(items@) =~= Seq::new(wc@.witnesses.len(), |i: int| witness_entry(wc@.witnesses[i], keys.keys())));
                assert(members_view(ms@) =~= witness_value(opt_witness_view(*w), keys.keys())->Object_0);
            }
            Json::Object(ms)
        },
        None => Json::empty_object(),
    }
}

/// `build_update_parameters_json`: the parameters of an update entry: the
/// update keys (the step's, or the current ones when it names none) and the
/// hashes of its next keys, each by public key multibase; its witnesses;
/// empty watchers; and its portability when it gives one. An identifier that
/// names no key is an error.
pub fn build_update_parameters_json(params: &StepParams, current: &Vec<Vec<char>>, keys: &KeyRegistry) -> (r: Result<Json, GenError>)
    ensures
        match update_parameters(params@, texts_view(current@), keys.keys()) {
            Ok(v) => r matches Ok(j) && j@ == v,
            Err(e) => r matches Err(f) && f@ == e,
        },
{
    let uks = if params.update_keys.len() == 0 {
        resolve_key_list(current, keys)
    } else {
        resolve_key_list(&params.update_keys, keys)
    };
    let uks = match uks {
        Ok(v) => v,
        Err(e) => return Err(e),
    };
    let nks = match resolve_key_list(&params.next_key_hashes, keys) {
        Ok(v) => v,
        Err(e) => return Err(e),
    };
    let hashes = hash_list(&nks);
    let mut ms: Vec<(Vec<char>, Json)> = Vec::new();
    ms.push((text("updateKeys"), Json::string_array(&uks)));
    ms.push((text("nextKeyHashes"), Json::string_array(&hashes)));
    ms.push((text("witness"), witness_json(&params.witness, keys)));
    ms.push((text("watchers"), Json::empty_array()));
    match params.portable {
        Some(b) => {
            ms.push((text("portable"), Json::Bool(b)));
        },
        None => {},
    }
    proof {
        lemma_object_view(ms);
        assert(members_view(ms@) =~= update_parameters(params@, texts_view(current@), keys.keys())->Ok_0->Object_0);
    }
    Ok(Json::Object(ms))
}

/// The parameters of a created DID, as the did:webvh library takes them: a
/// list of keys is left out when it is empty.
pub struct ParameterPlan {
    pub update_keys: Option<Vec<Vec<char>>>,
    pub next_key_hashes: Option<Vec<Vec<char>>>,
    pub portable: Option<bool>,
    pub witness: Option<(u32, Vec<Vec<char>>)>,
}

/// The identifier of a witness in library parameters: `did:key:` and the
/// key's public key multibase when the identifier names a key, else the
/// identifier as written.
pub open spec fn plan_witness_id(id: Seq<char>, keys: Seq<KeyView>) -> Seq<char> {
    match find_key(keys, id) {
        Some(k) => "did:key:"@ + k.pub_multibase,
        None => id,
    }
}

/// What `build_parameters` resolves: the update keys' multibases, the next
/// keys' hashes; or the first identifier that names no key.
pub open spec fn plan_keys(params: StepParamsV, keys: Seq<KeyView>) -> Result<(Seq<Seq<char>>, Seq<Seq<char>>), Seq<char>> {
    match resolve_keys(params.update_keys, keys) {
        Err(id) => Err(id),
        Ok(uks) => match resolve_keys(params.next_key_hashes, keys) {
            Err(id) => Err(id),
            Ok(nks) => Ok((uks, hash_all(nks))),
        },
    }
}

/// The view of a parameter plan.
pub struct PlanV {
    pub update_keys: Option<Seq<Seq<char>>>,
    pub next_key_hashes: Option<Seq<Seq<char>>>,
    pub portable: Option<bool>,
    pub witness: Option<(u32, Seq<Seq<char>>)>,
}

impl View for ParameterPlan {
    type V = PlanV;

    open spec fn view(&self) -> PlanV {
        PlanV {
            update_keys: match self.update_keys {
                Some(v) => Some(texts_view(v@)),
                None => None,
            },
            next_key_hashes: match self.next_key_hashes {
                Some(v) => Some(texts_view(v@)),
                None => None,
            },
            portable: self.portable,
            witness: match self.witness {
                Some((t, ids)) => Some((t, texts_view(ids@))),
                None => None,
            },
        }
    }
}

/// A witness identifier as the did:webvh library compares it: a `did:key:`
/// identifier as it is, any other with `did:key:` in front.
pub open spec fn canonical_witness(id: Seq<char>) -> Seq<char> {
    if id.len() >= 8 && id.take(8) == "did:key:"@ {
        id
    } else {
        "did:key:"@ + id
    }
}

/// Whether the did:webvh library accepts a witness configuration: a threshold
/// of at least 1 and at most the number of witnesses, and no witness twice.
pub open spec fn witnesses_valid(threshold: u32, ids: Seq<Seq<char>>) -> bool {
    &&& threshold >= 1
    &&& ids.len() >= threshold
    &&& forall|i: int, j: int| 0 <= i < j < ids.len() ==> canonical_witness(ids[i]) != canonical_witness(ids[j])
}

/// `Witnesses::builder().threshold(t).witnesses(ids).build()` of didwebvh-rs:
/// whether the library accepts the configuration. Its source refuses a
/// threshold below 1, a threshold above the number of witnesses, and two
/// witnesses with the same identifier in `did:key:` form.
#[verifier::external_body]
fn witnesses_build_ok(threshold: u32, ids: &Vec<Vec<char>>) -> (r: bool)
    ensures
        r == witnesses_valid(threshold, texts_view(ids@)),
{
    didwebvh_rs::witness::Witnesses::builder()
        .threshold(threshold)
        .witnesses(ids.iter().map(|id| didwebvh_rs::Multibase::new(id.iter().collect::<String>())))
        .build()
        .is_ok()
}

/// A list of keys, left out when it is empty.
pub open spec fn unless_empty(v: Seq<Seq<char>>) -> Option<Seq<Seq<char>>> {
    if v.len() == 0 {
        None
    } else {
        Some(v)
    }
}

/// The plan `build_parameters` makes of a step's parameters: the update keys'
/// multibases, the next keys' hashes, the portability, and the witness
/// threshold with each witness's identifier. An identifier that names no key,
/// or a witness configuration the library refuses, is an error.
pub open spec fn parameter_plan(params: StepParamsV, keys: Seq<KeyView>) -> Result<PlanV, GenErrorV> {
    match plan_keys(params, keys) {
        Err(id) => Err(GenErrorV::UnknownKey { id }),
        Ok((uks, nkh)) => match params.witness {
            None => Ok(PlanV {
                update_keys: unless_empty(uks),
                next_key_hashes: unless_empty(nkh),
                portable: params.portable,
                witness: None,
            }),
            Some(wc) => {
                let ids = Seq::new(wc.witnesses.len(), |i: int| plan_witness_id(wc.witnesses[i], keys));
                if witnesses_valid(wc.threshold, ids) {
                    Ok(PlanV {
                        update_keys: unless_empty(uks),
                        next_key_hashes: unless_empty(nkh),
                        portable: params.portable,
                        witness: Some((wc.threshold, ids)),
                    })
                } else {
                    Err(GenErrorV::WitnessesRejected)
                }
            },
        },
    }
}

/// `build_parameters`, up to the library's own parameter types: the update
/// keys and next-key hashes resolved through the registry, the portability,
/// and the witness threshold with each witness's identifier. An identifier
/// that names no key, or a witness configuration the did:webvh library
/// refuses, is an error. The library builds its parameters from this plan.
pub fn build_parameters(params: &StepParams, keys: &KeyRegistry) -> (r: Result<ParameterPlan, GenError>)
    ensures
        match parameter_plan(params@, keys.keys()) {
            Err(e) => r matches Err(f) && f@ == e,
            Ok(plan) => r matches Ok(p) && p@ == plan,
        },
{
    let uks = match resolve_key_list(&params.update_keys, keys) {
        Ok(v) => v,
        Err(e) => return Err(e),
    };
    let nks = match resolve_key_list(&params.next_key_hashes, keys) {
        Ok(v) => v,
        Err(e) => return Err(e),
    };
    let hashes = hash_list(&nks);
    let witness = match &params.witness {
        Some(wc) => {
            let mut ids: Vec<Vec<char>> = Vec::new();
            let mut i: usize = 0;
            while i < wc.witnesses.len()
                invariant
                    i <= wc.witnesses@.len(),
                    ids@.len() == i,
                    forall|j: int| 0 <= j < i ==> #[trigger] ids@[j]@ == plan_witness_id(wc.witnesses@[j]@, keys.keys()),
                decreases wc.witnesses@.len() - i,
            {
                let id = match keys.lookup(wc.witnesses[i].as_slice()) {
                    Some(k) => concat(text("did:key:").as_slice(), k.pub_multibase.as_slice()),
                    None => copy_text(wc.witnesses[i].as_slice()),
                };
                ids.push(id);
                i = i + 1;
            }
            assert(texts_view(ids@) =~= Seq::new(wc@.witnesses.len(), |i: int| plan_witness_id(wc@.witnesses[i], keys.keys())));
            if !witnesses_build_ok(wc.threshold, &ids) {
                return Err(GenError::WitnessesRejected);
            }
            Some((wc.threshold, ids))
        },
        None => None,
    };
    let update_keys = if uks.len() == 0 { None } else { Some(uks) };
    let next_key_hashes = if hashes.len() == 0 { None } else { Some(hashes) };
    Ok(ParameterPlan { update_keys, next_key_hashes, portable: params.portable, witness })
}

} // verus!
