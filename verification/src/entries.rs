//! Log entries built outside the did:webvh library's checks: genesis and
//! update entries, re-signed entries, and the mutations that corrupt them.
use vstd::prelude::*;
use crate::digest::{compute_entry_hash, entry_hash, jcs_canonical};
use crate::json::{json_text, plain_json_text};
use crate::document::{build_document, document};
use crate::error::{GenError, GenErrorV};
use crate::json::{
    as_str, assign, get, is_object_or_null, items_view, jstr_array, lemma_array_view, lemma_object_view,
    members_view, remove, set_member, texts_view, Json, JsonV, Members,
};
use crate::keys::{KeyRegistry, KeyView};
use crate::parameters::{
    build_update_parameters_json, hash_all, hash_list, resolve_key_list, resolve_keys, update_parameters,
    witness_json, witness_value,
};
use crate::script::{StepParams, StepParamsV};
use crate::text::{
    concat, copy_text, decimal, decimal_text, parse_u32, parse_u32_spec, replace_all, replace_text, split_on,
    split_text, text, NumberError,
};

verus! {

broadcast use vstd::std_specs::vec::group_vec_axioms;

/// The placeholder of the SCID before it is known.
pub open spec fn scid_holder() -> Seq<char> {
    seq!['{', 'S', 'C', 'I', 'D', '}']
}

/// The version number of a version identifier: the decimal number before its
/// first `-`.
pub open spec fn version_number(vid: Seq<char>) -> Result<u32, NumberError> {
    parse_u32_spec(split_on(vid, '-')[0])
}

/// The version identifier `n-hash`.
pub open spec fn version_id(n: nat, hash: Seq<char>) -> Seq<char> {
    decimal(n) + seq!['-'] + hash
}

/// `v` with every occurrence of the SCID placeholder, in string values and
/// object keys at any depth, replaced by `scid`. Objects are rebuilt member
/// by member as a JSON map is, so a later member with an equal key replaces
/// an earlier one.
pub open spec fn with_scid(v: JsonV, scid: Seq<char>) -> JsonV
    decreases v,
{
    match v {
        JsonV::Str(s) => JsonV::Str(replace_all(s, scid_holder(), scid)),
        JsonV::Array(items) => JsonV::Array(with_scid_items(items, scid)),
        JsonV::Object(ms) => JsonV::Object(with_scid_members(ms, scid)),
        _ => v,
    }
}

/// The items of an array with the SCID placeholder replaced.
pub open spec fn with_scid_items(items: Seq<JsonV>, scid: Seq<char>) -> Seq<JsonV>
    decreases items,
{
    Seq::new(items.len(), |i: int| if 0 <= i < items.len() { with_scid(items[i], scid) } else { JsonV::Null })
}

/// The members of an object with the SCID placeholder replaced.
pub open spec fn with_scid_members(ms: Members, scid: Seq<char>) -> Members
    decreases ms,
{
    if ms.len() == 0 {
        ms
    } else {
        set_member(
            with_scid_members(ms.drop_last(), scid),
            replace_all(ms.last().0, scid_holder(), scid),
            with_scid(ms.last().1, scid),
        )
    }
}

/// The version identifier of a value, when it has a string one.
pub open spec fn version_id_of(v: JsonV) -> Option<Seq<char>> {
    match get(v, "versionId"@) {
        Some(x) => as_str(x),
        None => None,
    }
}

/// `v` with member `k` set to a string.
pub open spec fn with_str(v: JsonV, k: Seq<char>, s: Seq<char>) -> JsonV {
    assign(v, k, JsonV::Str(s))
}

/// An entry with its version identifier set to `n-hash`, where hash is the
/// hash of the entry as it stands.
pub open spec fn hashed_entry(u: JsonV, n: nat) -> JsonV {
    with_str(u, "versionId"@, version_id(n, entry_hash(u)))
}

/// An entry with its proof set to the one given.
pub open spec fn with_proof(entry: JsonV, pf: JsonV) -> JsonV {
    assign(entry, "proof"@, JsonV::Array(seq![pf]))
}

/// The DID of a genesis entry before its SCID is known.
pub open spec fn placeholder_did(domain: Seq<char>) -> Seq<char> {
    "did:webvh:"@ + scid_holder() + seq![':'] + domain
}

/// The update keys of a genesis entry: the signer's key when the step names none.
pub open spec fn genesis_update_keys(params: StepParamsV, signer_pm: Seq<char>, keys: Seq<KeyView>) -> Result<Seq<Seq<char>>, Seq<char>> {
    if params.update_keys.len() == 0 {
        Ok(seq![signer_pm])
    } else {
        resolve_keys(params.update_keys, keys)
    }
}

/// A genesis entry built by hand, before its SCID is known.
pub open spec fn genesis_initial(domain: Seq<char>, ts: Seq<char>, params: StepParamsV, signer_pm: Seq<char>, keys: Seq<KeyView>) -> Result<JsonV, GenErrorV> {
    match genesis_update_keys(params, signer_pm, keys) {
        Err(id) => Err(GenErrorV::UnknownKey { id }),
        Ok(uks) => match resolve_keys(params.next_key_hashes, keys) {
            Err(id) => Err(GenErrorV::UnknownKey { id }),
            Ok(nks) => Ok(JsonV::Object(seq![
                ("versionId"@, JsonV::Str(scid_holder())),
                ("versionTime"@, JsonV::Str(ts)),
                ("parameters"@, JsonV::Object(seq![
                    ("method"@, JsonV::Str("did:webvh:1.0"@)),
                    ("scid"@, JsonV::Str(scid_holder())),
                    ("updateKeys"@, jstr_array(uks)),
                    ("portable"@, JsonV::Bool(match params.portable { Some(b) => b, None => false })),
                    ("nextKeyHashes"@, jstr_array(hash_all(nks))),
                    ("watchers"@, JsonV::Array(Seq::empty())),
                    ("witness"@, witness_value(params.witness, keys)),
                    ("deactivated"@, JsonV::Bool(false)),
                ])),
                ("state"@, document(placeholder_did(domain), params, keys)),
            ])),
        },
    }
}

/// Whether both texts hashed for a genesis entry can be canonicalized: that
/// of the initial entry, and that of the entry with the SCID in place.
pub open spec fn genesis_hashable(initial: JsonV) -> bool {
    &&& jcs_canonical(json_text(initial)) is Some
    &&& jcs_canonical(json_text(with_scid(initial, entry_hash(initial)))) is Some
}

/// The genesis entry to sign: the SCID is the hash of the initial entry, put
/// in place of its placeholder everywhere; the version identifier is then
/// `1-hash` of the result.
pub open spec fn genesis_entry(initial: JsonV) -> JsonV {
    let prelim = with_scid(initial, entry_hash(initial));
    with_str(prelim, "versionId"@, version_id(1, entry_hash(prelim)))
}

/// An update entry built by hand, before it is hashed, with its
/// version number.
pub open spec fn update_unsigned(previous: JsonV, ts: Seq<char>, params: StepParamsV, current: Seq<Seq<char>>, doc: JsonV, keys: Seq<KeyView>) -> Result<(JsonV, nat), GenErrorV> {
    match version_id_of(previous) {
        None => Err(GenErrorV::PreviousMissingVersionId),
        Some(pv) => match version_number(pv) {
            Err(e) => Err(GenErrorV::PreviousVersionNumber { error: e }),
            Ok(n) => if n == u32::MAX {
                Err(GenErrorV::VersionOverflow)
            } else {
                match update_parameters(params, current, keys) {
                    Err(e) => Err(e),
                    Ok(pj) => Ok((JsonV::Object(seq![
                        ("versionId"@, JsonV::Str(pv)),
                        ("versionTime"@, JsonV::Str(ts)),
                        ("parameters"@, pj),
                        ("state"@, doc),
                    ]), (n + 1) as nat)),
                }
            },
        },
    }
}

/// The version identifier a re-signed entry is hashed with: the SCID in its
/// parameters for the genesis entry, else that of the entry before it.
pub open spec fn resign_prev(entry: JsonV, idx: int, log: Seq<JsonV>) -> Option<Seq<char>> {
    if idx == 0 {
        match get(entry, "parameters"@) {
            Some(p) => match get(p, "scid"@) {
                Some(s) => as_str(s),
                None => None,
            },
            None => None,
        }
    } else if 0 <= idx - 1 < log.len() {
        version_id_of(log[idx - 1])
    } else {
        None
    }
}

/// What a re-signed entry is hashed from (the entry without its proof, its
/// version identifier that of the previous entry, or the SCID for the
/// genesis entry), with its version number.
pub open spec fn resign_unsigned(entry: JsonV, idx: int, log: Seq<JsonV>) -> Result<(JsonV, nat), GenErrorV> {
    match version_id_of(entry) {
        None => Err(GenErrorV::ResignMissingVersionId),
        Some(vid) => match version_number(vid) {
            Err(e) => Err(GenErrorV::ResignVersionNumber { error: e }),
            Ok(n) => {
                match resign_prev(entry, idx, log) {
                    None => if idx == 0 {
                        Err(GenErrorV::ResignMissingScid)
                    } else {
                        Err(GenErrorV::ResignMissingPreviousVersionId)
                    },
                    Some(pv) => Ok((with_str(remove(entry, "proof"@), "versionId"@, pv), n as nat)),
                }
            },
        },
    }
}

/// `expected_error_result`: the resolution result that reports `error`.
pub open spec fn error_result(error: Seq<char>) -> JsonV {
    JsonV::Object(seq![
        ("didDocument"@, JsonV::Null),
        ("didDocumentMetadata"@, JsonV::Object(Seq::empty())),
        ("didResolutionMetadata"@, JsonV::Object(seq![("error"@, JsonV::Str(error))])),
    ])
}

/// The version number of a version identifier.
pub fn parse_version_number(vid: &[char]) -> (r: Result<u32, NumberError>)
    ensures
        r == version_number(vid@),
{
    let parts = split_text(vid, '-');
    proof {
        crate::text::lemma_split_nonempty(vid@, '-');
    }
    parse_u32(parts[0].as_slice())
}

/// The version identifier `n-hash`.
pub fn make_version_id(n: u64, hash: &[char]) -> (r: Vec<char>)
    ensures
        r@ == version_id(n as nat, hash@),
{
    let mut r = decimal_text(n);
    r.push('-');
    concat(r.as_slice(), hash)
}

/// The version identifier of an entry, when it has a string one.
pub fn get_version_id(v: &Json) -> (r: Option<&Vec<char>>)
    ensures
        r matches Some(s) ==> version_id_of(v@) == Some(s@),
        r is None ==> version_id_of(v@) is None,
{
    let k = text("versionId");
    match v.get(k.as_slice()) {
        Some(x) => x.as_text(),
        None => None,
    }
}

/// `replace_scid_placeholder`: the SCID placeholder replaced by `scid` in
/// every string and object key. This is what replacing the placeholder in the
/// value's JSON text and reading the text back gives when `scid` needs no
/// escaping in a string literal (as a base58 SCID never does): a placeholder
/// can only occur inside a string literal. A `scid` holding a quote, a
/// backslash or a control character would change the text's structure
/// instead, so it is left out.
#[verifier::loop_isolation(false)]
pub fn replace_scid_placeholder(value: &Json, scid: &[char]) -> (r: Json)
    requires
        plain_json_text(scid@),
    ensures
        r@ == with_scid(value@, scid@),
    decreases value,
{
    let holder = text("{SCID}");
    proof {
        reveal_strlit("{SCID}");
        assert(holder@ =~= scid_holder());
    }
    match value {
        Json::Str(s) => Json::Str(replace_text(s.as_slice(), holder.as_slice(), scid)),
        Json::Array(items) => {
            let mut out: Vec<Json> = Vec::new();
            let mut i: usize = 0;
            while i < items.len()
                invariant
                    i <= items.len(),
                    out@.len() == i,
                    forall|j: int| 0 <= j < i ==> #[trigger] out@[j]@ == with_scid(items@[j]@, scid@),
                decreases items.len() - i,
            {
                proof {
                    assert(decreases_to!(*value => items[i as int]));
                }
                out.push(replace_scid_placeholder(&items[i], scid));
                i = i + 1;
            }
            proof {
                lemma_array_view(out);
                lemma_array_view(*items);
                assert(items_view(out@) =~= with_scid_items(items_view(items@), scid@));
            }
            Json::Array(out)
        },
        Json::Object(members) => {
            let ghost ms = members_view(members@);
            proof {
                lemma_object_view(*members);
            }
            let mut out = Json::empty_object();
            let mut i: usize = 0;
            assert(ms.take(0) =~= Seq::<(Seq<char>, JsonV)>::empty());
            while i < members.len()
                invariant
                    i <= members.len(),
                    ms == members_view(members@),
                    holder@ == scid_holder(),
                    out@ == JsonV::Object(with_scid_members(ms.take(i as int), scid@)),
                decreases members.len() - i,
            {
                assert(ms.take(i + 1).drop_last() =~= ms.take(i as int));
                assert(ms.take(i + 1).last() == ms[i as int]);
                let key = replace_text(members[i].0.as_slice(), holder.as_slice(), scid);
                let val = replace_scid_placeholder(&members[i].1, scid);
                out = out.with(key, val);
                i = i + 1;
            }
            assert(ms.take(members.len() as int) =~= ms);
            out
        },
        _ => value.deep_clone(),
    }
}

/// An entry with its proof set to the one given.
pub fn attach_proof(entry: Json, pf: Json) -> (r: Json)
    requires
        is_object_or_null(entry@),
    ensures
        r@ == with_proof(entry@, pf@),
{
    let mut items: Vec<Json> = Vec::new();
    items.push(pf);
    proof {
        lemma_array_view(items);
        assert(items_view(items@) =~= seq![pf@]);
    }
    entry.with(text("proof"), Json::Array(items))
}

/// An entry with its version identifier set to `n-hash`, hash being the hash
/// of the entry as it stands.
fn hash_into_version_id(u: Json, n: u64) -> (r: Result<Json, GenError>)
    requires
        u@ is Object,
    ensures
        r is Ok <==> jcs_canonical(json_text(u@)) is Some,
        r matches Ok(x) ==> x@ == hashed_entry(u@, n as nat),
        r matches Err(e) ==> e@ is Canonicalize,
{
    match compute_entry_hash(&u) {
        Ok(h) => {
            let vid = make_version_id(n, h.as_slice());
            Ok(u.with(text("versionId"), Json::Str(vid)))
        },
        Err(detail) => Err(GenError::Canonicalize { detail }),
    }
}

/// A genesis entry built by hand, up to its proof: update
/// keys (the signer's when the step names none), next-key hashes, witnesses
/// and the document of the placeholder DID; the SCID is the hash of that
/// entry, put in place of its placeholder everywhere; the version identifier
/// is `1-` and the hash of the result. `signer_pm` is the signer's public key
/// multibase.
pub fn prepare_genesis_entry(domain: &[char], ts: &[char], params: &StepParams, signer_pm: &[char], keys: &KeyRegistry) -> (r: Result<Json, GenError>)
    ensures
        match genesis_initial(domain@, ts@, params@, signer_pm@, keys.keys()) {
            Err(e) => r matches Err(f) && f@ == e,
            Ok(initial) => (r is Ok <==> genesis_hashable(initial))
                && (r matches Ok(x) ==> x@ == genesis_entry(initial))
                && (r matches Err(f) ==> f@ is Canonicalize),
        },
{
    let uks = if params.update_keys.len() == 0 {
        let mut v: Vec<Vec<char>> = Vec::new();
        v.push(copy_text(signer_pm));
        assert(texts_view(v@) =~= seq![signer_pm@]);
        v
    } else {
        match resolve_key_list(&params.update_keys, keys) {
            Ok(v) => v,
            Err(e) => return Err(e),
        }
    };
    let nks = match resolve_key_list(&params.next_key_hashes, keys) {
        Ok(v) => v,
        Err(e) => return Err(e),
    };
    let hashes = hash_list(&nks);
    let mut did = text("did:webvh:");
    did = concat(did.as_slice(), text("{SCID}").as_slice());
    did.push(':');
    did = concat(did.as_slice(), domain);
    proof {
        reveal_strlit("{SCID}");
        assert("{SCID}"@ =~= scid_holder());
        assert(did@ =~= placeholder_did(domain@));
    }
    let mut pms: Vec<(Vec<char>, Json)> = Vec::new();
    pms.push((text("method"), Json::string("did:webvh:1.0")));
    pms.push((text("scid"), Json::string("{SCID}")));
    pms.push((text("updateKeys"), Json::string_array(&uks)));
    let portable = match params.portable {
        Some(b) => b,
        None => false,
    };
    pms.push((text("portable"), Json::Bool(portable)));
    pms.push((text("nextKeyHashes"), Json::string_array(&hashes)));
    pms.push((text("watchers"), Json::empty_array()));
    pms.push((text("witness"), witness_json(&params.witness, keys)));
    pms.push((text("deactivated"), Json::Bool(false)));
    let mut ms: Vec<(Vec<char>, Json)> = Vec::new();
    ms.push((text("versionId"), Json::string("{SCID}")));
    ms.push((text("versionTime"), Json::Str(copy_text(ts))));
    proof {
        lemma_object_view(pms);
    }
    ms.push((text("parameters"), Json::Object(pms)));
    ms.push((text("state"), build_document(did.as_slice(), params, keys)));
    proof {
        lemma_object_view(ms);
        let init = genesis_initial(domain@, ts@, params@, signer_pm@, keys.keys());
        assert(members_view(pms@) =~= init->Ok_0->Object_0[2].1->Object_0);
        assert(members_view(ms@) =~= init->Ok_0->Object_0);
    }
    let initial = Json::Object(ms);
    let scid = match compute_entry_hash(&initial) {
        Ok(h) => h,
        Err(detail) => return Err(GenError::Canonicalize { detail }),
    };
    proof {
        crate::digest::lemma_base58_plain(scid@);
    }
    let prelim = replace_scid_placeholder(&initial, scid.as_slice());
    assert(prelim@ is Object);
    hash_into_version_id(prelim, 1)
}

/// An update entry built by hand, up to its proof: the previous
/// entry's version identifier, the timestamp, the update parameters and the
/// document; its version identifier then becomes `n-hash`, n one more than
/// the previous number and hash the hash of that entry.
pub fn prepare_update_entry(previous: &Json, ts: &[char], params: &StepParams, current: &Vec<Vec<char>>, doc: Json, keys: &KeyRegistry) -> (r: Result<Json, GenError>)
    ensures
        match update_unsigned(previous@, ts@, params@, texts_view(current@), doc@, keys.keys()) {
            Err(e) => r matches Err(f) && f@ == e,
            Ok((u, n)) => (r is Ok <==> jcs_canonical(json_text(u)) is Some)
                && (r matches Ok(x) ==> x@ == hashed_entry(u, n))
                && (r matches Err(f) ==> f@ is Canonicalize),
        },
{
    let pv = match get_version_id(previous) {
        Some(s) => s,
        None => return Err(GenError::PreviousMissingVersionId),
    };
    let n = match parse_version_number(pv.as_slice()) {
        Ok(n) => n,
        Err(error) => return Err(GenError::PreviousVersionNumber { error }),
    };
    if n == u32::MAX {
        return Err(GenError::VersionOverflow);
    }
    let pj = match build_update_parameters_json(params, current, keys) {
        Ok(j) => j,
        Err(e) => return Err(e),
    };
    let mut ms: Vec<(Vec<char>, Json)> = Vec::new();
    ms.push((text("versionId"), Json::Str(copy_text(pv.as_slice()))));
    ms.push((text("versionTime"), Json::Str(copy_text(ts))));
    ms.push((text("parameters"), pj));
    ms.push((text("state"), doc));
    proof {
        lemma_object_view(ms);
        let u = update_unsigned(previous@, ts@, params@, texts_view(current@), doc@, keys.keys());
        assert(members_view(ms@) =~= u->Ok_0.0->Object_0);
    }
    hash_into_version_id(Json::Object(ms), (n as u64) + 1)
}

/// The re-signed form of an entry, up to its proof: without its proof, its version identifier set to that of
/// the previous entry (the SCID for the genesis entry) and then to `n-hash`,
/// n its own version number and hash the hash of that entry.
pub fn prepare_resign(entry: &Json, idx: usize, log: &Vec<Json>) -> (r: Result<Json, GenError>)
    ensures
        match resign_unsigned(entry@, idx as int, items_view(log@)) {
            Err(e) => r matches Err(f) && f@ == e,
            Ok((u, n)) => (r is Ok <==> jcs_canonical(json_text(u)) is Some)
                && (r matches Ok(x) ==> x@ == hashed_entry(u, n))
                && (r matches Err(f) ==> f@ is Canonicalize),
        },
{
    let vid = match get_version_id(entry) {
        Some(s) => s,
        None => return Err(GenError::ResignMissingVersionId),
    };
    let n = match parse_version_number(vid.as_slice()) {
        Ok(n) => n,
        Err(error) => return Err(GenError::ResignVersionNumber { error }),
    };
    let prev: Vec<char> = if idx == 0 {
        let pk = text("parameters");
        let sk = text("scid");
        let found = match entry.get(pk.as_slice()) {
            Some(p) => match p.get(sk.as_slice()) {
                Some(s) => s.as_text(),
                None => None,
            },
            None => None,
        };
        match found {
            Some(s) => copy_text(s.as_slice()),
            None => return Err(GenError::ResignMissingScid),
        }
    } else {
        if idx - 1 >= log.len() {
            return Err(GenError::ResignMissingPreviousVersionId);
        }
        match get_version_id(&log[idx - 1]) {
            Some(s) => copy_text(s.as_slice()),
            None => return Err(GenError::ResignMissingPreviousVersionId),
        }
    };
    let signing = entry.deep_clone().without(text("proof").as_slice());
    let signing = signing.with(text("versionId"), Json::Str(prev));
    hash_into_version_id(signing, n as u64)
}

/// `expected_error_result`: the resolution result that reports `error`.
pub fn expected_error_result(error: &[char]) -> (r: Json)
    ensures
        r@ == error_result(error@),
{
    let mut meta: Vec<(Vec<char>, Json)> = Vec::new();
    meta.push((text("error"), Json::Str(copy_text(error))));
    let mut ms: Vec<(Vec<char>, Json)> = Vec::new();
    ms.push((text("didDocument"), Json::Null));
    ms.push((text("didDocumentMetadata"), Json::empty_object()));
    proof {
        lemma_object_view(meta);
    }
    ms.push((text("didResolutionMetadata"), Json::Object(meta)));
    proof {
        lemma_object_view(ms);
        assert(members_view(meta@) =~= error_result(error@)->Object_0[2].1->Object_0);
        assert(members_view(ms@) =~= error_result(error@)->Object_0);
    }
    Json::Object(ms)
}

} // verus!
