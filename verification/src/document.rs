//! The DID documents of log entries: built for a step, or merged into the current one.
use vstd::prelude::*;
use crate::json::{
    items_view, jstr_array, lemma_array_view, lemma_object_view, members_view, assign, texts_view, Json,
    JsonV,
};
use crate::keys::{find_key, KeyRegistry, KeyView};
use crate::script::{StepParams, StepParamsV};
use crate::text::{concat, copy_text, suffix_text, text};

verus! {

broadcast use vstd::std_specs::vec::group_vec_axioms;

/// The public key multibases of the identifiers that name registered keys, in order.
pub open spec fn known_multibases(kids: Seq<Seq<char>>, keys: Seq<KeyView>) -> Seq<Seq<char>>
    decreases kids.len(),
{
    if kids.len() == 0 {
        Seq::empty()
    } else {
        let init = known_multibases(kids.drop_last(), keys);
        match find_key(keys, kids.last()) {
            Some(k) => init.push(k.pub_multibase),
            None => init,
        }
    }
}

/// The last eight characters of a public key multibase (all of it when shorter).
pub open spec fn key_suffix(pm: Seq<char>) -> Seq<char> {
    pm.skip(if pm.len() >= 8 { pm.len() - 8 } else { 0 })
}

/// The verification method reference `did#suffix` of a key.
pub open spec fn key_ref(did: Seq<char>, pm: Seq<char>) -> Seq<char> {
    did + seq!['#'] + key_suffix(pm)
}

/// The verification method of a key in a document.
pub open spec fn verification_method(did: Seq<char>, pm: Seq<char>) -> JsonV {
    JsonV::Object(seq![
        ("id"@, JsonV::Str(key_ref(did, pm))),
        ("type"@, JsonV::Str("Multikey"@)),
        ("controller"@, JsonV::Str(did)),
        ("publicKeyMultibase"@, JsonV::Str(pm)),
    ])
}

/// The update keys of the parameters that name registered keys.
pub open spec fn param_multibases(params: StepParamsV, keys: Seq<KeyView>) -> Seq<Seq<char>> {
    known_multibases(params.update_keys, keys)
}

/// The verification methods of a document: one for each known update key,
/// then those the parameters give.
pub open spec fn verification_methods(did: Seq<char>, params: StepParamsV, keys: Seq<KeyView>) -> Seq<JsonV> {
    let pms = param_multibases(params, keys);
    Seq::new(pms.len(), |i: int| verification_method(did, pms[i])) + params.verification_methods
}

/// The authentication references of a document: one for each known update key.
pub open spec fn authentication(did: Seq<char>, params: StepParamsV, keys: Seq<KeyView>) -> Seq<JsonV> {
    let pms = param_multibases(params, keys);
    Seq::new(pms.len(), |i: int| JsonV::Str(key_ref(did, pms[i])))
}

/// The two contexts every document starts with.
pub open spec fn base_context() -> Seq<Seq<char>> {
    seq!["https://www.w3.org/ns/did/v1"@, "https://w3id.org/security/multikey/v1"@]
}

/// The contexts of a document: the two base contexts, then those the parameters add.
pub open spec fn contexts(params: StepParamsV) -> JsonV {
    jstr_array(base_context() + params.context)
}

/// `build_document`: the DID document of `did` for the step's parameters.
pub open spec fn document(did: Seq<char>, params: StepParamsV, keys: Seq<KeyView>) -> JsonV {
    let core: Seq<(Seq<char>, JsonV)> = seq![
        ("@context"@, contexts(params)),
        ("id"@, JsonV::Str(did)),
        ("controller"@, JsonV::Str(did)),
        ("verificationMethod"@, JsonV::Array(verification_methods(did, params, keys))),
        ("authentication"@, JsonV::Array(authentication(did, params, keys))),
        ("assertionMethod"@, JsonV::Array(Seq::empty())),
        ("keyAgreement"@, JsonV::Array(Seq::empty())),
        ("capabilityDelegation"@, JsonV::Array(Seq::empty())),
        ("capabilityInvocation"@, JsonV::Array(Seq::empty())),
    ];
    let with_service = if params.services.len() > 0 {
        core.push(("service"@, JsonV::Array(params.services)))
    } else {
        core
    };
    let with_aka = if params.also_known_as.len() > 0 {
        with_service.push(("alsoKnownAs"@, jstr_array(params.also_known_as)))
    } else {
        with_service
    };
    JsonV::Object(with_aka)
}

/// `merge_doc_with_params`: the document of an update, built from the current
/// document. A current document that is not an object is replaced by a new
/// document. Otherwise its `id` becomes `did`; when the step names update keys
/// or verification methods, the verification methods and authentication are
/// those of a new document; services, other names and contexts the step gives
/// replace the current ones.
pub open spec fn merged_document(base: JsonV, did: Seq<char>, params: StepParamsV, keys: Seq<KeyView>) -> JsonV {
    if !(base is Object) {
        document(did, params, keys)
    } else {
        let d1 = assign(base, "id"@, JsonV::Str(did));
        let d2 = if params.update_keys.len() > 0 || params.verification_methods.len() > 0 {
            assign(
                assign(d1, "verificationMethod"@, JsonV::Array(verification_methods(did, params, keys))),
                "authentication"@,
                JsonV::Array(authentication(did, params, keys)),
            )
        } else {
            d1
        };
        let d3 = if params.services.len() > 0 {
            assign(d2, "service"@, JsonV::Array(params.services))
        } else {
            d2
        };
        let d4 = if params.also_known_as.len() > 0 {
            assign(d3, "alsoKnownAs"@, jstr_array(params.also_known_as))
        } else {
            d3
        };
        if params.context.len() > 0 {
            assign(d4, "@context"@, contexts(params))
        } else {
            d4
        }
    }
}

/// The public key multibases of the update keys that name registered keys.
pub fn known_update_multibases(params: &StepParams, keys: &KeyRegistry) -> (r: Vec<Vec<char>>)
    ensures
        texts_view(r@) == param_multibases(params@, keys.keys()),
{
    let kids = &params.update_keys;
    let ghost kv = texts_view(kids@);
    let mut r: Vec<Vec<char>> = Vec::new();
    let mut i: usize = 0;
    while i < kids.len()
        invariant
            i <= kids.len(),
            kv == texts_view(kids@),
            texts_view(r@) == known_multibases(kv.take(i as int), keys.keys()),
        decreases kids.len() - i,
    {
        assert(kv.take(i + 1).drop_last() =~= kv.take(i as int));
        assert(kv.take(i + 1).last() == kids@[i as int]@);
        match keys.lookup(kids[i].as_slice()) {
            Some(k) => {
                let ghost before = texts_view(r@);
                r.push(copy_text(k.pub_multibase.as_slice()));
                assert(texts_view(r@) =~= before.push(k.pub_multibase@));
            },
            None => {},
        }
        i = i + 1;
    }
    assert(kv.take(kids.len() as int) =~= kv);
    r
}

/// The reference `did#suffix` of a key.
fn make_key_ref(did: &[char], pm: &[char]) -> (r: Vec<char>)
    ensures
        r@ == key_ref(did@, pm@),
{
    let from: usize = if pm.len() >= 8 { pm.len() - 8 } else { 0 };
    let suffix = suffix_text(pm, from);
    let mut r = copy_text(did);
    r.push('#');
    let out = concat(r.as_slice(), suffix.as_slice());
    out
}

/// The verification methods and authentication references of a document.
fn key_material(did: &[char], params: &StepParams, keys: &KeyRegistry) -> (r: (Vec<Json>, Vec<Json>))
    ensures
        items_view(r.0@) == verification_methods(did@, params@, keys.keys()),
        items_view(r.1@) == authentication(did@, params@, keys.keys()),
{
    let pms = known_update_multibases(params, keys);
    let ghost pmv = texts_view(pms@);
    let mut vms: Vec<Json> = Vec::new();
    let mut auth: Vec<Json> = Vec::new();
    let mut i: usize = 0;
    while i < pms.len()
        invariant
            i <= pms.len(),
            pmv == texts_view(pms@),
            vms@.len() == i,
            auth@.len() == i,
            forall|j: int| 0 <= j < i ==> #[trigger] vms@[j]@ == verification_method(did@, pmv[j]),
            forall|j: int| 0 <= j < i ==> #[trigger] auth@[j]@ == JsonV::Str(key_ref(did@, pmv[j])),
        decreases pms.len() - i,
    {
        let pm = pms[i].as_slice();
        let mut members: Vec<(Vec<char>, Json)> = Vec::new();
        members.push((text("id"), Json::Str(make_key_ref(did, pm))));
        members.push((text("type"), Json::string("Multikey")));
        members.push((text("controller"), Json::Str(copy_text(did))));
        members.push((text("publicKeyMultibase"), Json::Str(copy_text(pm))));
        proof {
            lemma_object_view(members);
            assert(members_view(members@) =~= verification_method(did@, pmv[i as int])->Object_0);
        }
        vms.push(Json::Object(members));
        auth.push(Json::Str(make_key_ref(did, pm)));
        i = i + 1;
    }
    let ghost first = vms@;
    assert(items_view(auth@) =~= authentication(did@, params@, keys.keys()));
    let mut j: usize = 0;
    while j < params.verification_methods.len()
        invariant
            j <= params.verification_methods@.len(),
            pmv == param_multibases(params@, keys.keys()),
            first.len() == pmv.len(),
            forall|k: int| 0 <= k < first.len() ==> #[trigger] first[k]@ == verification_method(did@, pmv[k]),
            items_view(auth@) == authentication(did@, params@, keys.keys()),
            vms@.len() == first.len() + j,
            forall|k: int| 0 <= k < first.len() ==> #[trigger] vms@[k]@ == first[k]@,
            forall|k: int| first.len() <= k < first.len() + j ==> #[trigger] vms@[k]@ == params.verification_methods@[k - first.len()]@,
        decreases params.verification_methods@.len() - j,
    {
        vms.push(params.verification_methods[j].deep_clone());
        j = j + 1;
    }
    assert(items_view(vms@) =~= verification_methods(did@, params@, keys.keys()));
    (vms, auth)
}

/// Exact copies of a vector of values.
pub(crate) fn clone_items(items: &Vec<Json>) -> (r: Vec<Json>)
    ensures
        items_view(r@) == items_view(items@),
{
    let mut r: Vec<Json> = Vec::new();
    let mut i: usize = 0;
    while i < items.len()
        invariant
            i <= items.len(),
            r@.len() == i,
            forall|j: int| 0 <= j < i ==> #[trigger] r@[j]@ == items@[j]@,
        decreases items.len() - i,
    {
        r.push(items[i].deep_clone());
        i = i + 1;
    }
    assert(items_view(r@) =~= items_view(items@));
    r
}

/// The contexts of a document for the step's parameters.
fn make_contexts(params: &StepParams) -> (r: Json)
    ensures
        r@ == contexts(params@),
{
    let mut all: Vec<Vec<char>> = Vec::new();
    all.push(text("https://www.w3.org/ns/did/v1"));
    all.push(text("https://w3id.org/security/multikey/v1"));
    let ghost base = texts_view(all@);
    assert(base =~= base_context());
    let mut i: usize = 0;
    while i < params.context.len()
        invariant
            i <= params.context@.len(),
            base == base_context(),
            all@.len() == 2 + i,
            forall|j: int| 0 <= j < 2 ==> #[trigger] all@[j]@ == base[j],
            forall|j: int| 2 <= j < 2 + i ==> #[trigger] all@[j]@ == params.context@[j - 2]@,
        decreases params.context@.len() - i,
    {
        all.push(copy_text(params.context[i].as_slice()));
        i = i + 1;
    }
    assert(texts_view(all@) =~= base + texts_view(params.context@));
    Json::string_array(&all)
}

/// `build_document`: the DID document of `did` for the step's parameters.
pub fn build_document(did: &[char], params: &StepParams, keys: &KeyRegistry) -> (r: Json)
    ensures
        r@ == document(did@, params@, keys.keys()),
{
    let (vms, auth) = key_material(did, params, keys);
    let mut members: Vec<(Vec<char>, Json)> = Vec::new();
    members.push((text("@context"), make_contexts(params)));
    members.push((text("id"), Json::Str(copy_text(did))));
    members.push((text("controller"), Json::Str(copy_text(did))));
    let vms_len = vms.len();
    let auth_len = auth.len();
    proof {
        lemma_array_view(vms);
        lemma_array_view(auth);
    }
    members.push((text("verificationMethod"), Json::Array(vms)));
    members.push((text("authentication"), Json::Array(auth)));
    members.push((text("assertionMethod"), Json::empty_array()));
    members.push((text("keyAgreement"), Json::empty_array()));
    members.push((text("capabilityDelegation"), Json::empty_array()));
    members.push((text("capabilityInvocation"), Json::empty_array()));
    let ghost core = members_view(members@);
    if params.services.len() > 0 {
        let services = clone_items(&params.services);
        proof {
            lemma_array_view(services);
        }
        members.push((text("service"), Json::Array(services)));
    }
    if params.also_known_as.len() > 0 {
        members.push((text("alsoKnownAs"), Json::string_array(&params.also_known_as)));
    }
    proof {
        lemma_object_view(members);
        assert(members_view(members@) =~= document(did@, params@, keys.keys())->Object_0);
    }
    Json::Object(members)
}

/// `merge_doc_with_params`: the document of an update, from the current document.
pub fn merge_doc_with_params(base: &Json, did: &[char], params: &StepParams, keys: &KeyRegistry) -> (r: Json)
    ensures
        r@ == merged_document(base@, did@, params@, keys.keys()),
{
    if !base.is_object() {
        return build_document(did, params, keys);
    }
    let mut doc = base.deep_clone();
    doc = doc.with(text("id"), Json::Str(copy_text(did)));
    if params.update_keys.len() > 0 || params.verification_methods.len() > 0 {
        let (vms, auth) = key_material(did, params, keys);
        proof {
            lemma_array_view(vms);
            lemma_array_view(auth);
        }
        doc = doc.with(text("verificationMethod"), Json::Array(vms));
        doc = doc.with(text("authentication"), Json::Array(auth));
    }
    if params.services.len() > 0 {
        let services = clone_items(&params.services);
        proof {
            lemma_array_view(services);
        }
        doc = doc.with(text("service"), Json::Array(services));
    }
    if params.also_known_as.len() > 0 {
        doc = doc.with(text("alsoKnownAs"), Json::string_array(&params.also_known_as));
    }
    if params.context.len() > 0 {
        doc = doc.with(text("@context"), make_contexts(params));
    }
    doc
}

} // verus!
