//! Properties of the generator that span its functions: what a genesis entry
//! binds, what each step of a scenario keeps and changes.
use vstd::prelude::*;
use crate::digest::entry_hash;
use crate::outputs::committed_hashes;
use crate::json::jstr_array;
use crate::document::{authentication, document, merged_document, verification_methods};
use crate::entries::{
    resign_prev, with_str, genesis_entry, genesis_initial, hashed_entry, placeholder_did, resign_unsigned, scid_holder, update_unsigned,
    version_id, version_id_of, version_number, with_proof, with_scid, with_scid_members,
};
use crate::error::UpdateOp;
use crate::json::{
    as_str, assign, get, has_key, index, is_first_key, lemma_lookup_first, lemma_lookup_push, lemma_lookup_set_other,
    lemma_lookup_set_same, lookup, remove, drop_member, lemma_lookup_drop_other, set_member, JsonV, Members,
};
use crate::keys::{find_key, ids_distinct, key_of, key_pos, put_key, registry_of, KeyDef, KeyView};
use crate::mutations::{entry_ok, mutated, opt_str};
use crate::placeholders::{ascii_placeholder, dashes_to_underscores, placeholder, placeholder_char, substitute_text, substituted, substitutions};
use crate::digest::{is_ascii_text, unicode_upper};
use crate::scenario::{
    begin_spec, corrupt_signer_id, corrupt_spec, create_spec, jsonl, reply_fits, resume_spec, scenario_ok, state_id,
    update_spec, witness_record, witness_spec, PendingV, ProgressV, ReplyV, ScenarioV,
};
use crate::script::{empty_params, step_params, StepParamsV, StepV};
use crate::text::{
    decimal, free_of, is_digit, join_on, lemma_decimal_digits, lemma_parse_decimal, lemma_split_first, lemma_split_join,
    lemma_split_pieces, replace_all, split_on, NumberError,
};

verus! {

/// Whether a text holds no `{`.
pub open spec fn brace_free(s: Seq<char>) -> bool {
    forall|i: int| 0 <= i < s.len() ==> s[i] != '{'
}

/// A text without `{` holds no SCID placeholder: replacing it changes nothing.
pub proof fn lemma_replace_brace_free(s: Seq<char>, r: Seq<char>)
    requires
        brace_free(s),
    ensures
        replace_all(s, scid_holder(), r) == s,
    decreases s.len(),
{
    let pat = scid_holder();
    if s.len() >= pat.len() {
        assert(s.take(pat.len() as int)[0] != pat[0]);
        assert(brace_free(s.skip(1)));
        lemma_replace_brace_free(s.skip(1), r);
        assert(seq![s[0]] + s.skip(1) =~= s);
    }
}

/// A prefix without `{` is kept as it is when the SCID placeholder is replaced.
pub proof fn lemma_replace_after_brace_free(a: Seq<char>, b: Seq<char>, r: Seq<char>)
    requires
        brace_free(a),
    ensures
        replace_all(a + b, scid_holder(), r) == a + replace_all(b, scid_holder(), r),
    decreases a.len(),
{
    let pat = scid_holder();
    let s = a + b;
    if a.len() > 0 {
        if s.len() >= pat.len() {
            assert(s.take(pat.len() as int)[0] != pat[0]);
            assert(s.skip(1) =~= a.skip(1) + b);
            assert(brace_free(a.skip(1)));
            lemma_replace_after_brace_free(a.skip(1), b, r);
            assert(seq![s[0]] + (a.skip(1) + replace_all(b, pat, r)) =~= a + replace_all(b, pat, r));
        } else {
            assert(b.len() < pat.len());
            assert(a + b == s);
        }
    } else {
        assert(a + b =~= b);
        assert(a + replace_all(b, pat, r) =~= replace_all(b, pat, r));
    }
}

/// The placeholder DID of a domain without `{`, with the SCID in place.
pub proof fn lemma_placeholder_did_scid(domain: Seq<char>, h: Seq<char>)
    requires
        brace_free(domain),
    ensures
        replace_all(placeholder_did(domain), scid_holder(), h) == "did:webvh:"@ + h + seq![':'] + domain,
{
    reveal_strlit("did:webvh:");
    let pat = scid_holder();
    let prefix = "did:webvh:"@;
    let tail = pat + seq![':'] + domain;
    assert(brace_free(prefix));
    assert(placeholder_did(domain) =~= prefix + tail);
    lemma_replace_after_brace_free(prefix, tail, h);
    assert(tail.take(pat.len() as int) =~= pat);
    assert(tail.skip(pat.len() as int) =~= seq![':'] + domain);
    assert(brace_free(seq![':']));
    lemma_replace_after_brace_free(seq![':'], domain, h);
    lemma_replace_brace_free(domain, h);
    assert(prefix + (h + (seq![':'] + domain)) =~= "did:webvh:"@ + h + seq![':'] + domain);
}

/// A text without `{` holds no pattern that starts with `{`: replacing one
/// changes nothing.
pub proof fn lemma_replace_brace_pattern(s: Seq<char>, pat: Seq<char>, r: Seq<char>)
    requires
        brace_free(s),
        pat.len() > 0,
        pat[0] == '{',
    ensures
        replace_all(s, pat, r) == s,
    decreases s.len(),
{
    if s.len() >= pat.len() {
        assert(s.take(pat.len() as int)[0] != pat[0]);
        assert(brace_free(s.skip(1)));
        lemma_replace_brace_pattern(s.skip(1), pat, r);
        assert(seq![s[0]] + s.skip(1) =~= s);
    }
}

/// The placeholder itself is replaced by the SCID.
pub proof fn lemma_replace_holder(r: Seq<char>)
    ensures
        replace_all(scid_holder(), scid_holder(), r) == r,
{
    let pat = scid_holder();
    assert(pat.take(pat.len() as int) =~= pat);
    assert(replace_all(pat.skip(pat.len() as int), pat, r) == Seq::<char>::empty());
    assert(r + Seq::<char>::empty() =~= r);
}

/// In an object whose keys hold no `{`, replacing the SCID placeholder
/// replaces it in the value found under a key that occurs once.
pub proof fn lemma_with_scid_lookup(ms: Members, scid: Seq<char>, k: Seq<char>)
    requires
        forall|i: int| 0 <= i < ms.len() ==> brace_free(#[trigger] ms[i].0),
        forall|i: int, j: int| 0 <= i < j < ms.len() && ms[i].0 == k ==> ms[j].0 != k,
    ensures
        lookup(with_scid_members(ms, scid), k) == match lookup(ms, k) {
            Some(v) => Some(with_scid(v, scid)),
            None => None::<JsonV>,
        },
    decreases ms.len(),
{
    if ms.len() > 0 {
        let init = ms.drop_last();
        let last = ms.last();
        assert(brace_free(ms[ms.len() - 1].0));
        lemma_replace_brace_free(last.0, scid);
        lemma_with_scid_lookup(init, scid, k);
        lemma_lookup_push(init, last, k);
        assert(init.push(last) =~= ms);
        if last.0 == k {
            lemma_lookup_set_same(with_scid_members(init, scid), k, with_scid(last.1, scid));
            assert(!has_key(init, k)) by {
                if has_key(init, k) {
                    let i = choose|i: int| 0 <= i < init.len() && init[i].0 == k;
                    assert(ms[i].0 == k);
                    assert(ms[ms.len() - 1].0 == k);
                }
            }
        } else {
            lemma_lookup_set_other(with_scid_members(init, scid), last.0, with_scid(last.1, scid), k);
            if !has_key(init, k) {
                assert(lookup(init, k) is None);
            }
        }
    }
}

/// The keys of a document hold no `{`, and `id` is its second member's key
/// and no other's.
proof fn lemma_document_keys(did: Seq<char>, params: StepParamsV, keys: Seq<KeyView>)
    ensures
        document(did, params, keys) is Object,
        forall|i: int| 0 <= i < document(did, params, keys)->Object_0.len()
            ==> brace_free(#[trigger] document(did, params, keys)->Object_0[i].0),
        is_first_key(document(did, params, keys)->Object_0, "id"@, 1),
        forall|i: int| 0 <= i < document(did, params, keys)->Object_0.len()
            && #[trigger] document(did, params, keys)->Object_0[i].0 == "id"@ ==> i == 1,
{
    reveal_strlit("@context");
    reveal_strlit("id");
    reveal_strlit("controller");
    reveal_strlit("verificationMethod");
    reveal_strlit("authentication");
    reveal_strlit("assertionMethod");
    reveal_strlit("keyAgreement");
    reveal_strlit("capabilityDelegation");
    reveal_strlit("capabilityInvocation");
    reveal_strlit("service");
    reveal_strlit("alsoKnownAs");
    let ms = document(did, params, keys)->Object_0;
    assert(brace_free("@context"@));
    assert(brace_free("id"@));
    assert(brace_free("controller"@));
    assert(brace_free("verificationMethod"@));
    assert(brace_free("authentication"@));
    assert(brace_free("assertionMethod"@));
    assert(brace_free("keyAgreement"@));
    assert(brace_free("capabilityDelegation"@));
    assert(brace_free("capabilityInvocation"@));
    assert(brace_free("service"@));
    assert(brace_free("alsoKnownAs"@));
    assert("id"@[0] == 'i');
    assert forall|i: int| 0 <= i < ms.len() && #[trigger] ms[i].0 == "id"@ implies i == 1 by {
        if i != 1 {
            assert(ms[i].0[0] != 'i');
        }
    }
}

/// The SCID binding of a genesis entry built by hand: its `parameters.scid`
/// is the hash of the entry as it was before the SCID was known, its DID is
/// the placeholder DID with that hash in place of the placeholder, and its
/// version identifier is `1-` and the hash of the entry with the SCID in place.
#[verifier::spinoff_prover]
pub proof fn lemma_genesis_binds_scid(domain: Seq<char>, ts: Seq<char>, params: StepParamsV, signer_pm: Seq<char>, keys: Seq<KeyView>)
    requires
        genesis_initial(domain, ts, params, signer_pm, keys) is Ok,
    ensures
        ({
            let init = genesis_initial(domain, ts, params, signer_pm, keys)->Ok_0;
            let e = genesis_entry(init);
            let h = entry_hash(init);
            &&& get(e, "parameters"@) matches Some(p) && get(p, "scid"@) == Some(JsonV::Str(h))
            &&& state_id(e) == Some(replace_all(placeholder_did(domain), scid_holder(), h))
            &&& brace_free(domain) ==> state_id(e) == Some("did:webvh:"@ + h + seq![':'] + domain)
            &&& version_id_of(e) == Some(version_id(1, entry_hash(with_scid(init, h))))
        }),
{
    let init = genesis_initial(domain, ts, params, signer_pm, keys)->Ok_0;
    let h = entry_hash(init);
    let top = init->Object_0;
    let pm = top[2].1->Object_0;
    let doc = top[3].1;
    reveal_strlit("versionId");
    reveal_strlit("versionTime");
    reveal_strlit("parameters");
    reveal_strlit("state");
    reveal_strlit("method");
    reveal_strlit("scid");
    reveal_strlit("updateKeys");
    reveal_strlit("portable");
    reveal_strlit("nextKeyHashes");
    reveal_strlit("watchers");
    reveal_strlit("witness");
    reveal_strlit("deactivated");
    reveal_strlit("id");
    assert(brace_free("versionId"@));
    assert(brace_free("versionTime"@));
    assert(brace_free("parameters"@));
    assert(brace_free("state"@));
    assert(brace_free("method"@));
    assert(brace_free("scid"@));
    assert(brace_free("updateKeys"@));
    assert(brace_free("portable"@));
    assert(brace_free("nextKeyHashes"@));
    assert(brace_free("watchers"@));
    assert(brace_free("witness"@));
    assert(brace_free("deactivated"@));
    assert("versionId"@.len() == 9 && "versionTime"@.len() == 11 && "parameters"@.len() == 10 && "state"@.len() == 5);
    assert("method"@.len() == 6 && "scid"@.len() == 4 && "updateKeys"@.len() == 10 && "portable"@.len() == 8);
    assert("nextKeyHashes"@.len() == 13 && "watchers"@.len() == 8 && "witness"@.len() == 7 && "deactivated"@.len() == 11);
    // the top-level members
    assert(is_first_key(top, "parameters"@, 2));
    assert(is_first_key(top, "state"@, 3));
    lemma_lookup_first(top, "parameters"@, 2);
    lemma_lookup_first(top, "state"@, 3);
    lemma_with_scid_lookup(top, h, "parameters"@);
    lemma_with_scid_lookup(top, h, "state"@);
    let wtop = with_scid_members(top, h);
    let vid = version_id(1, entry_hash(with_scid(init, h)));
    lemma_lookup_set_other(wtop, "versionId"@, JsonV::Str(vid), "parameters"@);
    lemma_lookup_set_other(wtop, "versionId"@, JsonV::Str(vid), "state"@);
    lemma_lookup_set_same(wtop, "versionId"@, JsonV::Str(vid));
    // the parameters
    assert(is_first_key(pm, "scid"@, 1));
    lemma_lookup_first(pm, "scid"@, 1);
    lemma_with_scid_lookup(pm, h, "scid"@);
    lemma_replace_holder(h);
    // the document
    lemma_document_keys(placeholder_did(domain), params, keys);
    let dm = doc->Object_0;
    lemma_lookup_first(dm, "id"@, 1);
    lemma_with_scid_lookup(dm, h, "id"@);
    if brace_free(domain) {
        lemma_placeholder_did_scid(domain, h);
    }
}

/// A genesis entry built by hand commits, as the `nextKeyHashes` of its
/// parameters, the hash of the public key of each key the step names in
/// `nextKeyHashes`, in order: the same hashes as the parameter plan and the
/// parameters of an update entry. They stand so both in the entry before its
/// SCID is known and in the entry to sign.
pub proof fn lemma_genesis_next_keys(domain: Seq<char>, ts: Seq<char>, params: StepParamsV, signer_pm: Seq<char>, keys: Seq<KeyView>)
    requires
        genesis_initial(domain, ts, params, signer_pm, keys) is Ok,
    ensures
        ({
            let init = genesis_initial(domain, ts, params, signer_pm, keys)->Ok_0;
            let hs = jstr_array(committed_hashes(params.next_key_hashes, keys));
            &&& get(index(init, "parameters"@), "nextKeyHashes"@) == Some(hs)
            &&& get(index(genesis_entry(init), "parameters"@), "nextKeyHashes"@) == Some(hs)
        }),
{
    let init = genesis_initial(domain, ts, params, signer_pm, keys)->Ok_0;
    let h = entry_hash(init);
    let top = init->Object_0;
    let pm = top[2].1->Object_0;
    let hashes = committed_hashes(params.next_key_hashes, keys);
    let hs = jstr_array(hashes);
    crate::outputs::lemma_resolve_keys(params.next_key_hashes, keys);
    let nks = crate::parameters::resolve_keys(params.next_key_hashes, keys)->Ok_0;
    assert(crate::parameters::hash_all(nks) =~= hashes);
    reveal_strlit("versionId");
    reveal_strlit("versionTime");
    reveal_strlit("parameters");
    reveal_strlit("state");
    reveal_strlit("method");
    reveal_strlit("scid");
    reveal_strlit("updateKeys");
    reveal_strlit("portable");
    reveal_strlit("nextKeyHashes");
    reveal_strlit("watchers");
    reveal_strlit("witness");
    reveal_strlit("deactivated");
    assert(brace_free("versionId"@));
    assert(brace_free("versionTime"@));
    assert(brace_free("parameters"@));
    assert(brace_free("state"@));
    assert(brace_free("method"@));
    assert(brace_free("scid"@));
    assert(brace_free("updateKeys"@));
    assert(brace_free("portable"@));
    assert(brace_free("nextKeyHashes"@));
    assert(brace_free("watchers"@));
    assert(brace_free("witness"@));
    assert(brace_free("deactivated"@));
    assert("versionId"@.len() == 9 && "versionTime"@.len() == 11 && "parameters"@.len() == 10 && "state"@.len() == 5);
    assert("method"@.len() == 6 && "scid"@.len() == 4 && "updateKeys"@.len() == 10 && "portable"@.len() == 8);
    assert("nextKeyHashes"@.len() == 13 && "watchers"@.len() == 8 && "witness"@.len() == 7 && "deactivated"@.len() == 11);
    assert(is_first_key(top, "parameters"@, 2));
    lemma_lookup_first(top, "parameters"@, 2);
    assert(is_first_key(pm, "nextKeyHashes"@, 4));
    lemma_lookup_first(pm, "nextKeyHashes"@, 4);
    assert(pm[4].1 == hs);
    // the entry to sign
    lemma_with_scid_lookup(top, h, "parameters"@);
    let wtop = with_scid_members(top, h);
    let vid = version_id(1, entry_hash(with_scid(init, h)));
    lemma_lookup_set_other(wtop, "versionId"@, JsonV::Str(vid), "parameters"@);
    lemma_with_scid_lookup(pm, h, "nextKeyHashes"@);
    assert(with_scid(hs, h) == hs) by {
        let items = hs->Array_0;
        assert forall|i: int| 0 <= i < items.len() implies with_scid(#[trigger] items[i], h) == items[i] by {
            crate::digest::lemma_base58_hash_text(crate::outputs::multibase_of(keys, params.next_key_hashes[i]));
            let t = hashes[i];
            assert(brace_free(t)) by {
                assert forall|j: int| 0 <= j < t.len() implies t[j] != '{' by {
                    assert(crate::digest::is_base58_char(t[j]));
                }
            }
            lemma_replace_brace_free(t, h);
        }
        assert(crate::entries::with_scid_items(items, h) =~= items);
    }
}

/// A built document of `did` has `did` as its `id` and controller; its
/// `verificationMethod` lists one method for each registered key among the
/// step's update keys, in order, then the step's own verification methods,
/// as given; its `authentication` lists those keys' references; its contexts
/// are the two base contexts, then the step's; the step's services and other
/// names, when it gives some. A merged document lists the same methods and
/// references when the step names update keys or verification methods.
pub proof fn lemma_document_methods(did: Seq<char>, params: StepParamsV, keys: Seq<KeyView>, base: JsonV)
    ensures
        get(document(did, params, keys), "id"@) == Some(JsonV::Str(did)),
        get(document(did, params, keys), "controller"@) == Some(JsonV::Str(did)),
        get(document(did, params, keys), "verificationMethod"@) matches Some(JsonV::Array(vms))
            && crate::outputs::lists_methods(vms, did, params, keys),
        get(document(did, params, keys), "authentication"@) matches Some(JsonV::Array(auth))
            && crate::outputs::lists_references(auth, did, params, keys),
        get(document(did, params, keys), "@context"@) == Some(jstr_array(
            seq!["https://www.w3.org/ns/did/v1"@, "https://w3id.org/security/multikey/v1"@] + params.context)),
        params.services.len() > 0 ==> get(document(did, params, keys), "service"@) == Some(JsonV::Array(params.services)),
        params.services.len() == 0 ==> get(document(did, params, keys), "service"@) is None,
        params.also_known_as.len() > 0 ==> get(document(did, params, keys), "alsoKnownAs"@) == Some(jstr_array(params.also_known_as)),
        base is Object && (params.update_keys.len() > 0 || params.verification_methods.len() > 0)
            ==> (get(merged_document(base, did, params, keys), "verificationMethod"@) matches Some(JsonV::Array(vms))
            && crate::outputs::lists_methods(vms, did, params, keys)),
        base is Object && (params.update_keys.len() > 0 || params.verification_methods.len() > 0)
            ==> (get(merged_document(base, did, params, keys), "authentication"@) matches Some(JsonV::Array(auth))
            && crate::outputs::lists_references(auth, did, params, keys)),
        base is Object ==> get(merged_document(base, did, params, keys), "id"@) == Some(JsonV::Str(did)),
{
    crate::outputs::lemma_methods_listed(did, params, keys);
    lemma_merge_keys();
    let ms = document(did, params, keys)->Object_0;
    reveal_strlit("@context");
    reveal_strlit("controller");
    reveal_strlit("assertionMethod");
    reveal_strlit("keyAgreement");
    reveal_strlit("capabilityDelegation");
    reveal_strlit("capabilityInvocation");
    assert("@context"@.len() == 8 && "controller"@.len() == 10);
    assert("assertionMethod"@.len() == 15 && "keyAgreement"@.len() == 12);
    assert("capabilityDelegation"@.len() == 20 && "capabilityInvocation"@.len() == 20);
    assert(is_first_key(ms, "@context"@, 0));
    lemma_lookup_first(ms, "@context"@, 0);
    assert(is_first_key(ms, "id"@, 1));
    lemma_lookup_first(ms, "id"@, 1);
    assert(is_first_key(ms, "controller"@, 2));
    lemma_lookup_first(ms, "controller"@, 2);
    assert(is_first_key(ms, "verificationMethod"@, 3));
    lemma_lookup_first(ms, "verificationMethod"@, 3);
    assert(is_first_key(ms, "authentication"@, 4));
    lemma_lookup_first(ms, "authentication"@, 4);
    if params.services.len() > 0 {
        assert(is_first_key(ms, "service"@, 9));
        lemma_lookup_first(ms, "service"@, 9);
    } else {
        assert(!has_key(ms, "service"@)) by {
            if has_key(ms, "service"@) {
                let i = choose|i: int| 0 <= i < ms.len() && ms[i].0 == "service"@;
            }
        }
    }
    if params.also_known_as.len() > 0 {
        let i = if params.services.len() > 0 { 10int } else { 9int };
        assert(is_first_key(ms, "alsoKnownAs"@, i));
        lemma_lookup_first(ms, "alsoKnownAs"@, i);
    }
    if base is Object {
        lemma_merged_members(base, did, params, keys);
    }
}

/// The version identifier `n-hash` reads back as version `n`.
pub proof fn lemma_version_id_number(n: u32, hash: Seq<char>)
    ensures
        version_number(version_id(n as nat, hash)) == Ok::<u32, NumberError>(n),
{
    lemma_decimal_digits(n as nat);
    let d = decimal(n as nat);
    assert(free_of(d, '-')) by {
        assert forall|i: int| 0 <= i < d.len() implies d[i] != '-' by {
            assert(is_digit(d[i]));
        }
    }
    lemma_split_first(d, hash, '-');
    lemma_parse_decimal(n);
}

/// An entry given the version identifier `n-hash` carries version `n`.
pub proof fn lemma_hashed_version(u: JsonV, n: nat)
    requires
        n <= u32::MAX,
    ensures
        version_id_of(hashed_entry(u, n)) == Some(version_id(n, entry_hash(u))),
        version_number(version_id(n, entry_hash(u))) == Ok::<u32, NumberError>(n as u32),
{
    match u {
        JsonV::Object(ms) => {
            lemma_lookup_set_same(ms, "versionId"@, JsonV::Str(version_id(n, entry_hash(u))));
        },
        _ => {
            let ms = seq![("versionId"@, JsonV::Str(version_id(n, entry_hash(u))))];
            assert(is_first_key(ms, "versionId"@, 0));
            lemma_lookup_first(ms, "versionId"@, 0);
        },
    }
    lemma_version_id_number(n as u32, entry_hash(u));
}

/// An update entry carries the version number after its predecessor's; it
/// is hashed with the predecessor's version identifier in place of its own.
pub proof fn lemma_update_version(previous: JsonV, ts: Seq<char>, params: StepParamsV, current: Seq<Seq<char>>, doc: JsonV, keys: Seq<KeyView>)
    requires
        update_unsigned(previous, ts, params, current, doc, keys) is Ok,
    ensures
        ({
            let (u, n) = update_unsigned(previous, ts, params, current, doc, keys)->Ok_0;
            &&& version_id_of(previous) matches Some(pv) && version_number(pv) matches Ok(m) && n == m + 1
                && version_id_of(u) == Some(pv)
            &&& version_id_of(hashed_entry(u, n)) matches Some(v) && version_number(v) == Ok::<u32, NumberError>(n as u32)
        }),
{
    let (u, n) = update_unsigned(previous, ts, params, current, doc, keys)->Ok_0;
    let ms = u->Object_0;
    reveal_strlit("versionId");
    assert(is_first_key(ms, "versionId"@, 0));
    lemma_lookup_first(ms, "versionId"@, 0);
    lemma_hashed_version(u, n);
}

/// Re-signing an entry keeps its version number.
pub proof fn lemma_resign_version(entry: JsonV, idx: int, log: Seq<JsonV>)
    requires
        resign_unsigned(entry, idx, log) is Ok,
    ensures
        ({
            let (u, n) = resign_unsigned(entry, idx, log)->Ok_0;
            &&& version_id_of(entry) matches Some(v) && version_number(v) == Ok::<u32, NumberError>(n as u32)
            &&& version_id_of(hashed_entry(u, n)) matches Some(w) && version_number(w) == Ok::<u32, NumberError>(n as u32)
        }),
{
    let (u, n) = resign_unsigned(entry, idx, log)->Ok_0;
    lemma_hashed_version(u, n);
}

/// The member of an entry a mutation changes.
pub open spec fn mutation_member(mutation: Seq<char>) -> Seq<char> {
    if mutation == "replace-state-id-scid"@ {
        "state"@
    } else if mutation == "replace-version-time"@ {
        "versionTime"@
    } else if mutation == "replace-proof-field"@ {
        "proof"@
    } else {
        "parameters"@
    }
}

/// Assigning a member of an object leaves the other members as they were.
proof fn lemma_get_assign_other(v: JsonV, k: Seq<char>, x: JsonV, k2: Seq<char>)
    requires
        v is Object,
        k2 != k,
    ensures
        get(assign(v, k, x), k2) == get(v, k2),
{
    lemma_lookup_set_other(v->Object_0, k, x, k2);
}

/// A mutation changes one member of the entry, the one it is about, and
/// leaves every other member as it was.
#[verifier::spinoff_prover]
pub proof fn lemma_mutation_scope(entry: JsonV, mutation: Seq<char>, field: Option<Seq<char>>, value: Option<JsonV>, keys: Seq<KeyView>, k: Seq<char>)
    requires
        entry_ok(entry),
        mutated(entry, mutation, field, value, keys) is Ok,
        k != mutation_member(mutation),
    ensures
        get(mutated(entry, mutation, field, value, keys)->Ok_0, k) == get(entry, k),
{
    reveal_strlit("replace-state-id-scid");
    reveal_strlit("replace-version-time");
    reveal_strlit("replace-parameter");
    reveal_strlit("drop-parameter");
    reveal_strlit("replace-proof-field");
    let x = mutated(entry, mutation, field, value, keys)->Ok_0;
    let t = mutation_member(mutation);
    assert("replace-parameter"@.len() == 17 && "drop-parameter"@.len() == 14 && "replace-proof-field"@.len() == 19
        && "replace-version-time"@.len() == 20 && "replace-state-id-scid"@.len() == 21);
    if mutation == "replace-state-id-scid"@ {
        if x != entry {
            lemma_get_assign_other(entry, t, index(x, t), k);
            let st = get(entry, "state"@)->Some_0;
            let id = as_str(get(st, "id"@)->Some_0)->Some_0;
            let r = opt_str(match value { Some(v) => Some(substituted(v, substitutions(keys))), None => None })->Some_0;
            let y = assign(st, "id"@, JsonV::Str(join_on(split_on(id, ':').update(2, r), ':')));
            assert(x == assign(entry, t, y));
            lemma_get_assign_other(entry, t, y, k);
            assert(get(x, k) == get(entry, k));
        }
    } else if mutation == "replace-version-time"@ {
        let r = opt_str(match value { Some(v) => Some(substituted(v, substitutions(keys))), None => None })->Some_0;
        lemma_get_assign_other(entry, t, JsonV::Str(r), k);
        assert(get(x, k) == get(entry, k));
    } else if mutation == "replace-parameter"@ {
        let e1 = if index(entry, "parameters"@) is Object {
            entry
        } else {
            assign(entry, "parameters"@, JsonV::Object(Seq::empty()))
        };
        let subst = match value {
            Some(v) => Some(substituted(v, substitutions(keys))),
            None => None,
        };
        let name = crate::mutations::mutation_name(field, subst)->Some_0;
        assert(name == mutation_name_of(field, value, keys));
        let p2 = assign(index(e1, "parameters"@), name, value_of(value, keys));
        assert(mutated(entry, mutation, field, value, keys) == Ok::<JsonV, crate::error::GenErrorV>(assign(e1, "parameters"@, p2)));
        lemma_get_assign_other(entry, t, JsonV::Object(Seq::empty()), k);
        assert(e1 is Object);
        lemma_get_assign_other(e1, t, p2, k);
        assert(get(x, k) == get(entry, k));
    } else if mutation == "drop-parameter"@ {
        match get(entry, "parameters"@) {
            Some(p) => {
                if p is Object {
                    lemma_get_assign_other(entry, t, remove(p, mutation_name_of(field, value, keys)), k);
                }
            },
            None => {
                lemma_get_assign_other(entry, t, JsonV::Null, k);
                let e1 = assign(entry, t, JsonV::Null);
                lemma_lookup_set_same(entry->Object_0, t, JsonV::Null);
                assert(index(e1, t) == JsonV::Null);
            },
        }
        assert(get(x, k) == get(entry, k));
    } else {
        let items = get(entry, "proof"@)->Some_0->Array_0;
        let kk = field->Some_0;
        lemma_get_assign_other(entry, t, JsonV::Array(items.update(0, assign(items[0], kk, value_of(value, keys)))), k);
        assert(get(x, k) == get(entry, k));
    }
}

/// The name a parameter mutation works on.
pub open spec fn mutation_name_of(field: Option<Seq<char>>, value: Option<JsonV>, keys: Seq<KeyView>) -> Seq<char> {
    crate::mutations::mutation_name(field, match value {
        Some(v) => Some(substituted(v, substitutions(keys))),
        None => None,
    })->Some_0
}

/// The value a mutation writes: the substituted value, or null.
pub open spec fn value_of(value: Option<JsonV>, keys: Seq<KeyView>) -> JsonV {
    match value {
        Some(v) => substituted(v, substitutions(keys)),
        None => JsonV::Null,
    }
}

/// `replace-state-id-scid` replaces the SCID segment (the third `:`-separated
/// segment) of the DID in `state.id` by the value, when the value holds no
/// `:`, and keeps the other segments.
#[verifier::spinoff_prover]
pub proof fn lemma_state_id_segment(entry: JsonV, field: Option<Seq<char>>, value: Option<JsonV>, keys: Seq<KeyView>)
    requires
        entry_ok(entry),
        mutated(entry, "replace-state-id-scid"@, field, value, keys) is Ok,
        get(entry, "state"@) matches Some(st) && get(st, "id"@) matches Some(JsonV::Str(id))
            && split_on(id, ':').len() >= 3,
        value matches Some(v) && substituted(v, substitutions(keys)) matches JsonV::Str(r) && free_of(r, ':'),
    ensures
        ({
            let x = mutated(entry, "replace-state-id-scid"@, field, value, keys)->Ok_0;
            let id = as_str(get(get(entry, "state"@)->Some_0, "id"@)->Some_0)->Some_0;
            let r = as_str(value_of(value, keys))->Some_0;
            get(x, "state"@) matches Some(st2) && get(st2, "id"@) matches Some(JsonV::Str(id2))
                && split_on(id2, ':') == split_on(id, ':').update(2, r)
        }),
{
    let st = get(entry, "state"@)->Some_0;
    let id = as_str(get(st, "id"@)->Some_0)->Some_0;
    let r = as_str(value_of(value, keys))->Some_0;
    let parts = split_on(id, ':').update(2, r);
    let y = assign(st, "id"@, JsonV::Str(join_on(parts, ':')));
    let x = mutated(entry, "replace-state-id-scid"@, field, value, keys)->Ok_0;
    assert(x == assign(entry, "state"@, y));
    lemma_lookup_set_same(entry->Object_0, "state"@, y);
    assert(st is Object);
    lemma_lookup_set_same(st->Object_0, "id"@, JsonV::Str(join_on(parts, ':')));
    lemma_split_pieces(id, ':');
    assert forall|i: int| 0 <= i < parts.len() implies free_of(#[trigger] parts[i], ':') by {
        if i != 2 {
            assert(parts[i] == split_on(id, ':')[i]);
        }
    }
    lemma_split_join(parts, ':');
}

/// Dropping a key that no member has changes nothing.
proof fn lemma_drop_absent(ms: Members, k: Seq<char>)
    requires
        !has_key(ms, k),
    ensures
        drop_member(ms, k) == ms,
    decreases ms.len(),
{
    if ms.len() > 0 {
        assert(!has_key(ms.drop_last(), k)) by {
            if has_key(ms.drop_last(), k) {
                let i = choose|i: int| 0 <= i < ms.drop_last().len() && ms.drop_last()[i].0 == k;
                assert(ms[i].0 == k);
            }
        }
        assert(ms[ms.len() - 1].0 != k);
        lemma_drop_absent(ms.drop_last(), k);
        assert(ms.drop_last().push(ms.last()) =~= ms);
    }
}

/// After dropping a key no member has it.
pub proof fn lemma_drop_removes(ms: Members, k: Seq<char>)
    ensures
        !has_key(drop_member(ms, k), k),
    decreases ms.len(),
{
    if ms.len() > 0 {
        lemma_drop_removes(ms.drop_last(), k);
        let d = drop_member(ms.drop_last(), k);
        if ms.last().0 != k {
            assert(!has_key(d.push(ms.last()), k)) by {
                if has_key(d.push(ms.last()), k) {
                    let i = choose|i: int| 0 <= i < d.push(ms.last()).len() && d.push(ms.last())[i].0 == k;
                    if i < d.len() {
                        assert(d[i].0 == k);
                    }
                }
            }
        }
    }
}

/// Removing the proof of an entry that had none before it was given one
/// gives the entry back.
proof fn lemma_strip_proof(w: JsonV, pf: JsonV)
    requires
        w is Object,
        get(w, "proof"@) is None,
    ensures
        remove(with_proof(w, pf), "proof"@) == w,
        get(with_proof(w, pf), "proof"@) == Some(JsonV::Array(seq![pf])),
{
    let ms = w->Object_0;
    let m = ("proof"@, JsonV::Array(seq![pf]));
    assert(!has_key(ms, "proof"@));
    assert(set_member(ms, "proof"@, m.1) == ms.push(m));
    assert(ms.push(m).drop_last() =~= ms);
    lemma_drop_absent(ms, "proof"@);
    lemma_lookup_set_same(ms, "proof"@, m.1);
}

/// Re-signing an entry that was hashed and signed from `u` (an object with no
/// proof whose version identifier is the one a re-signing takes) gives `u`
/// and its version number back: the re-signed entry is the same but for its
/// proof.
pub proof fn lemma_resign_signed(u: JsonV, n: nat, idx: int, log: Seq<JsonV>, pf: JsonV)
    requires
        u is Object,
        get(u, "proof"@) is None,
        n <= u32::MAX,
        resign_prev(u, idx, log) is Some,
        version_id_of(u) == resign_prev(u, idx, log),
        get(u, "versionId"@) == Some(JsonV::Str(resign_prev(u, idx, log)->Some_0)),
    ensures
        resign_unsigned(with_proof(hashed_entry(u, n), pf), idx, log) == Ok::<(JsonV, nat), crate::error::GenErrorV>((u, n)),
{
    reveal_strlit("proof");
    reveal_strlit("versionId");
    reveal_strlit("parameters");
    assert("proof"@.len() == 5 && "versionId"@.len() == 9 && "parameters"@.len() == 10);
    let pv = resign_prev(u, idx, log)->Some_0;
    let x = JsonV::Str(version_id(n, entry_hash(u)));
    let h = hashed_entry(u, n);
    lemma_hashed_version(u, n);
    lemma_get_assign_same(u, "versionId"@, x);
    lemma_get_assign_other(u, "versionId"@, x, "proof"@);
    lemma_get_assign_other(u, "versionId"@, x, "parameters"@);
    lemma_with_proof_version(h, pf);
    lemma_strip_proof(h, pf);
    let g = with_proof(h, pf);
    lemma_get_assign_other(h, "proof"@, JsonV::Array(seq![pf]), "parameters"@);
    assert(resign_prev(g, idx, log) == resign_prev(u, idx, log));
    crate::mutations::lemma_set_twice(u, "versionId"@, x, JsonV::Str(pv));
    lemma_assign_noop(u, "versionId"@, JsonV::Str(pv));
    assert(with_str(remove(g, "proof"@), "versionId"@, pv) == u);
}

/// Re-signing an entry twice gives the same entry but for its proof.
pub proof fn lemma_resign_twice(e: JsonV, idx: int, log: Seq<JsonV>, pf: JsonV)
    requires
        resign_unsigned(e, idx, log) is Ok,
    ensures
        ({
            let (u, n) = resign_unsigned(e, idx, log)->Ok_0;
            resign_unsigned(with_proof(hashed_entry(u, n), pf), idx, log) == Ok::<(JsonV, nat), crate::error::GenErrorV>((u, n))
        }),
{
    reveal_strlit("proof");
    reveal_strlit("versionId");
    reveal_strlit("parameters");
    assert("proof"@.len() == 5 && "versionId"@.len() == 9 && "parameters"@.len() == 10);
    let (u, n) = resign_unsigned(e, idx, log)->Ok_0;
    let pv = resign_prev(e, idx, log)->Some_0;
    let w = remove(e, "proof"@);
    let ms = e->Object_0;
    lemma_drop_removes(ms, "proof"@);
    lemma_lookup_drop_other(ms, "proof"@, "parameters"@);
    assert(w is Object);
    lemma_get_assign_same(w, "versionId"@, JsonV::Str(pv));
    lemma_get_assign_other(w, "versionId"@, JsonV::Str(pv), "proof"@);
    lemma_get_assign_other(w, "versionId"@, JsonV::Str(pv), "parameters"@);
    assert(get(u, "proof"@) is None);
    assert(resign_prev(u, idx, log) == resign_prev(e, idx, log));
    lemma_resign_signed(u, n, idx, log, pf);
}

/// What a re-signing hashes does not depend on the entry's proof, nor on the
/// text after the first `-` of its version identifier: the entry given any
/// other proof and a version identifier with the same number before its
/// first `-` is re-signed alike.
pub proof fn lemma_resign_ignores_proof_and_hash(e: JsonV, idx: int, log: Seq<JsonV>, pf: JsonV, v: Seq<char>)
    requires
        e is Object,
        version_id_of(e) matches Some(v0) && split_on(v, '-')[0] == split_on(v0, '-')[0],
    ensures
        resign_unsigned(assign(assign(e, "proof"@, pf), "versionId"@, JsonV::Str(v)), idx, log) == resign_unsigned(e, idx, log),
{
    reveal_strlit("proof");
    reveal_strlit("versionId");
    reveal_strlit("parameters");
    assert("proof"@.len() == 5 && "versionId"@.len() == 9 && "parameters"@.len() == 10);
    let ms = e->Object_0;
    let e1 = assign(e, "proof"@, pf);
    let e2 = assign(e1, "versionId"@, JsonV::Str(v));
    lemma_get_assign_same(e1, "versionId"@, JsonV::Str(v));
    lemma_get_assign_other(e, "proof"@, pf, "parameters"@);
    lemma_get_assign_other(e1, "versionId"@, JsonV::Str(v), "parameters"@);
    assert(version_id_of(e2) == Some(v));
    assert(resign_prev(e2, idx, log) == resign_prev(e, idx, log));
    let m1 = set_member(ms, "proof"@, pf);
    let m2 = set_member(m1, "versionId"@, JsonV::Str(v));
    crate::json::lemma_drop_set_other(m1, "versionId"@, JsonV::Str(v), "proof"@);
    crate::json::lemma_drop_set_same(ms, "proof"@, pf);
    assert(remove(e2, "proof"@) == assign(remove(e, "proof"@), "versionId"@, JsonV::Str(v)));
    match resign_prev(e, idx, log) {
        Some(pv) => {
            crate::mutations::lemma_set_twice(remove(e, "proof"@), "versionId"@, JsonV::Str(v), JsonV::Str(pv));
        },
        None => {},
    }
}

/// Re-signing an update entry built by hand, unchanged, reproduces it but for
/// its proof, version identifier included.
pub proof fn lemma_resign_update_entry(log: Seq<JsonV>, idx: int, ts: Seq<char>, params: StepParamsV, current: Seq<Seq<char>>, doc: JsonV, keys: Seq<KeyView>, pf: JsonV)
    requires
        0 < idx <= log.len(),
        update_unsigned(log[idx - 1], ts, params, current, doc, keys) is Ok,
    ensures
        ({
            let (u, n) = update_unsigned(log[idx - 1], ts, params, current, doc, keys)->Ok_0;
            resign_unsigned(with_proof(hashed_entry(u, n), pf), idx, log) == Ok::<(JsonV, nat), crate::error::GenErrorV>((u, n))
        }),
{
    let (u, n) = update_unsigned(log[idx - 1], ts, params, current, doc, keys)->Ok_0;
    let ms = u->Object_0;
    reveal_strlit("proof");
    reveal_strlit("versionId");
    reveal_strlit("versionTime");
    reveal_strlit("parameters");
    reveal_strlit("state");
    assert("proof"@.len() == 5 && "versionId"@.len() == 9 && "versionTime"@.len() == 11 && "parameters"@.len() == 10);
    assert("proof"@[0] != "state"@[0]);
    assert(!has_key(ms, "proof"@)) by {
        if has_key(ms, "proof"@) {
            let i = choose|i: int| 0 <= i < ms.len() && ms[i].0 == "proof"@;
        }
    }
    assert(is_first_key(ms, "versionId"@, 0));
    lemma_lookup_first(ms, "versionId"@, 0);
    lemma_resign_signed(u, n, idx, log, pf);
}

/// Re-signing a genesis entry built by hand, unchanged, reproduces it but for
/// its proof, version identifier included.
pub proof fn lemma_resign_genesis_entry(domain: Seq<char>, ts: Seq<char>, params: StepParamsV, signer_pm: Seq<char>, keys: Seq<KeyView>, log: Seq<JsonV>, pf: JsonV)
    requires
        genesis_initial(domain, ts, params, signer_pm, keys) is Ok,
    ensures
        ({
            let init = genesis_initial(domain, ts, params, signer_pm, keys)->Ok_0;
            let prelim = with_scid(init, entry_hash(init));
            &&& genesis_entry(init) == hashed_entry(prelim, 1)
            &&& resign_unsigned(with_proof(genesis_entry(init), pf), 0, log) == Ok::<(JsonV, nat), crate::error::GenErrorV>((prelim, 1))
        }),
{
    let init = genesis_initial(domain, ts, params, signer_pm, keys)->Ok_0;
    let h = entry_hash(init);
    let prelim = with_scid(init, h);
    let top = init->Object_0;
    lemma_genesis_binds_scid(domain, ts, params, signer_pm, keys);
    reveal_strlit("proof");
    reveal_strlit("versionId");
    reveal_strlit("versionTime");
    reveal_strlit("parameters");
    reveal_strlit("state");
    assert("proof"@.len() == 5 && "versionId"@.len() == 9 && "versionTime"@.len() == 11 && "parameters"@.len() == 10);
    assert("proof"@[0] != "state"@[0]);
    assert(brace_free("versionId"@));
    assert(brace_free("versionTime"@));
    assert(brace_free("parameters"@));
    assert(brace_free("state"@));
    assert(!has_key(top, "proof"@)) by {
        if has_key(top, "proof"@) {
            let i = choose|i: int| 0 <= i < top.len() && top[i].0 == "proof"@;
        }
    }
    lemma_with_scid_lookup(top, h, "proof"@);
    assert(is_first_key(top, "versionId"@, 0));
    lemma_lookup_first(top, "versionId"@, 0);
    lemma_with_scid_lookup(top, h, "versionId"@);
    lemma_replace_holder(h);
    let wtop = with_scid_members(top, h);
    let vid = version_id(1, entry_hash(prelim));
    lemma_lookup_set_other(wtop, "versionId"@, JsonV::Str(vid), "parameters"@);
    assert(get(prelim, "parameters"@) == get(genesis_entry(init), "parameters"@));
    lemma_resign_signed(prelim, 1, 0, log, pf);
}

/// The names of the operations differ from one another.
proof fn lemma_op_names()
    ensures
        "create"@ != "update"@,
        "create"@ != "migrate"@,
        "update"@ != "migrate"@,
        "create"@ != "corrupt"@,
        "update"@ != "corrupt"@,
        "migrate"@ != "corrupt"@,
        "create"@ != "sign-witness-proof"@,
        "update"@ != "sign-witness-proof"@,
        "migrate"@ != "sign-witness-proof"@,
        "corrupt"@ != "sign-witness-proof"@,
        "resolve"@ != "create"@,
        "resolve"@ != "update"@,
        "resolve"@ != "migrate"@,
        "resolve"@ != "corrupt"@,
        "resolve"@ != "sign-witness-proof"@,
        "resolve-did"@ != "create"@,
        "resolve-did"@ != "update"@,
        "resolve-did"@ != "migrate"@,
        "resolve-did"@ != "corrupt"@,
        "resolve-did"@ != "sign-witness-proof"@,
{
    reveal_strlit("create");
    reveal_strlit("update");
    reveal_strlit("migrate");
    reveal_strlit("corrupt");
    reveal_strlit("sign-witness-proof");
    reveal_strlit("resolve");
    reveal_strlit("resolve-did");
    assert("create"@.len() == 6 && "update"@.len() == 6 && "migrate"@.len() == 7 && "corrupt"@.len() == 7);
    assert("sign-witness-proof"@.len() == 18 && "resolve"@.len() == 7 && "resolve-did"@.len() == 11);
    assert("create"@[0] != "update"@[0]);
    assert("migrate"@[0] != "corrupt"@[0]);
    assert("resolve"@[0] != "migrate"@[0]);
    assert("resolve"@[0] != "corrupt"@[0]);
}

/// Giving an object a proof keeps its version identifier.
proof fn lemma_with_proof_version(entry: JsonV, pf: JsonV)
    requires
        entry is Object,
    ensures
        version_id_of(with_proof(entry, pf)) == version_id_of(entry),
        state_id(with_proof(entry, pf)) == state_id(entry),
{
    reveal_strlit("proof");
    reveal_strlit("versionId");
    reveal_strlit("state");
    assert("proof"@.len() != "versionId"@.len());
    assert("proof"@[0] != "state"@[0]);
    lemma_lookup_set_other(entry->Object_0, "proof"@, JsonV::Array(seq![pf]), "versionId"@);
    lemma_lookup_set_other(entry->Object_0, "proof"@, JsonV::Array(seq![pf]), "state"@);
}

/// The document of an update step: the current document merged with the
/// step's parameters, or a new one when there is none.
pub open spec fn step_document(s: ScenarioV, params: StepParamsV, keys: Seq<KeyView>) -> JsonV {
    match s.current_doc_state {
        Some(base) => merged_document(base, s.current_did->Some_0, params, keys),
        None => document(s.current_did->Some_0, params, keys),
    }
}

/// An `update` or `migrate` step that is signed appends one entry to the log:
/// the document it gave to sign, with the proof; that document is the update
/// entry built by hand from the last entry, the step's timestamp, parameters
/// and update keys, and the step's document. Its version number is one
/// more than that of the entry before it; the DID stays the current one (an
/// update's document carries it, a migrate keeps it), and the current update
/// keys become the step's, or stay when it names none.
#[verifier::spinoff_prover]
pub proof fn lemma_update_step(s: ScenarioV, step: StepV, keys: Seq<KeyView>, pf: JsonV)
    requires
        scenario_ok(s),
        s.pending is Idle,
        step.op == "update"@ || step.op == "migrate"@,
        begin_spec(s, step, keys).progress is Need,
    ensures
        ({
            let o = resume_spec(begin_spec(s, step, keys).state, ReplyV::Signed(pf), keys);
            &&& o.progress is Done
            &&& o.state.log.len() == s.log.len() + 1
            &&& o.state.log.drop_last() == s.log
            &&& version_id_of(s.log.last()) matches Some(pv) && (version_number(pv) matches Ok(m)
                && m < u32::MAX
                && (version_id_of(o.state.log.last()) matches Some(v)
                && version_number(v) == Ok::<u32, NumberError>((m + 1) as u32)))
            &&& o.state.current_did == s.current_did
            &&& o.state.current_update_key_ids == crate::scenario::next_update_key_ids(s, step_params(step))
            &&& begin_spec(s, step, keys).progress matches ProgressV::Need(crate::scenario::RequestV::Sign { document, .. })
                && o.state.log.last() == with_proof(document, pf)
            &&& update_unsigned(s.log.last(), step.timestamp->Some_0, step_params(step),
                crate::scenario::next_update_key_ids(s, step_params(step)), step_document(s, step_params(step), keys), keys)
                matches Ok((u, n)) && o.state.log.last() == with_proof(hashed_entry(u, n), pf)
        }),
{
    lemma_op_names();
    let op = if step.op == "update"@ { UpdateOp::Update } else { UpdateOp::Migrate };
    assert(begin_spec(s, step, keys) == update_spec(s, step, keys, op));
    let params = step_params(step);
    let sid = step.signer->Some_0;
    let signer = crate::keys::find_key(keys, sid)->Some_0;
    let s1 = ScenarioV { current_update_key_ids: crate::scenario::next_update_key_ids(s, params), ..s };
    let did = s.current_did->Some_0;
    let doc = match s.current_doc_state {
        Some(base) => crate::document::merged_document(base, did, params, keys),
        None => document(did, params, keys),
    };
    let ts = step.timestamp->Some_0;
    let (u, n) = update_unsigned(s.log.last(), ts, params, s1.current_update_key_ids, doc, keys)->Ok_0;
    lemma_update_version(s.log.last(), ts, params, s1.current_update_key_ids, doc, keys);
    let entry = hashed_entry(u, n);
    lemma_with_proof_version(entry, pf);
    lemma_document_id(doc, s.current_doc_state, did, params, keys);
    reveal_strlit("state");
    reveal_strlit("versionId");
    reveal_strlit("versionTime");
    reveal_strlit("parameters");
    assert("state"@.len() == 5 && "versionId"@.len() == 9 && "versionTime"@.len() == 11 && "parameters"@.len() == 10);
    assert(is_first_key(u->Object_0, "state"@, 3));
    lemma_lookup_first(u->Object_0, "state"@, 3);
    lemma_get_assign_other(u, "versionId"@, JsonV::Str(version_id(n, entry_hash(u))), "state"@);
    let e = with_proof(entry, pf);
    let o = resume_spec(begin_spec(s, step, keys).state, ReplyV::Signed(pf), keys);
    assert(o.state.log == s.log.push(e));
    assert(o.state.log.drop_last() =~= s.log);
}

/// The document of an update step carries the DID as its `id`.
proof fn lemma_document_id(doc: JsonV, current: Option<JsonV>, did: Seq<char>, params: StepParamsV, keys: Seq<KeyView>)
    requires
        doc == match current {
            Some(base) => merged_document(base, did, params, keys),
            None => document(did, params, keys),
        },
    ensures
        get(doc, "id"@) == Some(JsonV::Str(did)),
{
    let d = document(did, params, keys);
    lemma_merge_keys();
    assert(is_first_key(d->Object_0, "id"@, 1));
    lemma_lookup_first(d->Object_0, "id"@, 1);
    match current {
        Some(base) => {
            if base is Object {
                lemma_merged_members(base, did, params, keys);
            }
        },
        None => {},
    }
}

/// The current update keys after a `create` step: the step's, or its
/// signer's when it names none.
pub open spec fn create_update_key_ids(step: StepV) -> Seq<Seq<char>> {
    if step_params(step).update_keys.len() == 0 {
        seq![step.signer->Some_0]
    } else {
        step_params(step).update_keys
    }
}

/// A `create` step starts the log over: once it asks for work the log and
/// the witness proofs are empty, and when it completes, by the library's
/// entry or by the genesis entry built by hand and signed, the log holds
/// that one entry, and the current update keys are the step's (its signer's
/// when it names none); a signed genesis entry is the document given to
/// sign, with the proof. The library is asked to create the log, from the
/// document of the placeholder DID and the parameter plan, when the plan can
/// be made; else the document to sign is the genesis entry built by hand,
/// which needs the step's timestamp.
#[verifier::spinoff_prover]
pub proof fn lemma_create_step(s: ScenarioV, step: StepV, keys: Seq<KeyView>, r1: ReplyV, r2: ReplyV)
    requires
        scenario_ok(s),
        s.pending is Idle,
        step.op == "create"@,
    ensures
        ({
            let o1 = begin_spec(s, step, keys);
            let o2 = resume_spec(o1.state, r1, keys);
            let o3 = resume_spec(o2.state, r2, keys);
            &&& o1.progress is Need ==> o1.state.log.len() == 0 && o1.state.witness_entries.len() == 0
            &&& (o1.progress is Need && reply_fits(o1.state.pending, r1) && o2.progress is Done)
                ==> o2.state.log.len() == 1 && o2.state.witness_entries.len() == 0
                    && o2.state.current_did == state_id(o2.state.log[0])
                    && o2.state.current_update_key_ids == create_update_key_ids(step)
            &&& (o1.progress is Need && reply_fits(o1.state.pending, r1) && o2.progress is Need
                && reply_fits(o2.state.pending, r2) && o3.progress is Done)
                ==> o3.state.log.len() == 1 && o3.state.witness_entries.len() == 0
                    && o3.state.current_did == state_id(o3.state.log[0])
                    && o3.state.current_update_key_ids == create_update_key_ids(step)
                    && (o2.progress matches ProgressV::Need(crate::scenario::RequestV::Sign { document, .. })
                    && r2 matches ReplyV::Signed(pf) && o3.state.log[0] == with_proof(document, pf))
            &&& o1.progress matches ProgressV::Need(crate::scenario::RequestV::Sign { document, .. })
                ==> (r1 matches ReplyV::Signed(pf) ==> (o2.progress is Done ==> o2.state.log[0] == with_proof(document, pf)))
            &&& o1.progress matches ProgressV::Need(crate::scenario::RequestV::Sign { document: doc, .. })
                ==> (crate::parameters::parameter_plan(step_params(step), keys) is Err
                    && (step.domain matches Some(d) && (step.timestamp matches Some(ts)
                    && (find_key(keys, step.signer->Some_0) matches Some(k)
                    && (genesis_initial(d, ts, step_params(step), k.pub_multibase, keys) matches Ok(init)
                    && doc == genesis_entry(init))))))
            &&& (step.domain is Some && (step.signer matches Some(sid) && find_key(keys, sid) is Some)
                && crate::parameters::parameter_plan(step_params(step), keys) is Err && step.timestamp is None)
                ==> o1.progress == ProgressV::Failed(crate::error::GenErrorV::CreateNeedsTimestamp)
            &&& o1.progress matches ProgressV::Need(crate::scenario::RequestV::Create { document: doc, parameters, .. })
                ==> (crate::parameters::parameter_plan(step_params(step), keys) == Ok::<_, crate::error::GenErrorV>(parameters)
                    && (step.domain matches Some(d) && doc == document(placeholder_did(d), step_params(step), keys)))
        }),
{
    lemma_op_names();
    assert(begin_spec(s, step, keys) == create_spec(s, step, keys));
    let o1 = begin_spec(s, step, keys);
    let o2 = resume_spec(o1.state, r1, keys);
    if o1.progress is Need {
        assert(o1.state.log.len() == 0);
        if reply_fits(o1.state.pending, r1) {
            match o1.state.pending {
                PendingV::Create { .. } => {
                    match r1 {
                        ReplyV::Created(e) => {
                            assert(o2.state.log =~= seq![e]);
                        },
                        _ => {
                            if o2.progress is Need {
                                let pf = r2->Signed_0;
                                match o2.state.pending {
                                    PendingV::Genesis { entry } => {
                                        lemma_with_proof_version(entry, pf);
                                        if reply_fits(o2.state.pending, r2) && r2 is Signed {
                                            let o3 = resume_spec(o2.state, r2, keys);
                                            assert(o3.state.log =~= seq![with_proof(entry, pf)]);
                                        }
                                    },
                                    _ => {},
                                }
                            }
                        },
                    }
                },
                PendingV::Genesis { entry } => {
                    if r1 is Signed {
                        let pf = r1->Signed_0;
                        lemma_with_proof_version(entry, pf);
                        assert(o2.state.log =~= seq![with_proof(entry, pf)]);
                    }
                },
                _ => {},
            }
        }
    }
}

/// A `corrupt` step keeps the length of the log and every entry but the one
/// it names (later entries are not chained again); that entry is the mutated
/// one (after signing), or, for `before-sign`, the mutated one re-signed: its
/// proof dropped, its version identifier taken from the entry before it (the
/// SCID for the first), re-hashed with its version number kept, and signed by
/// the first current update key.
#[verifier::spinoff_prover]
pub proof fn lemma_corrupt_step(s: ScenarioV, step: StepV, keys: Seq<KeyView>, pf: JsonV)
    requires
        scenario_ok(s),
        s.pending is Idle,
        step.op == "corrupt"@,
        begin_spec(s, step, keys).progress is Done || begin_spec(s, step, keys).progress is Need,
    ensures
        ({
            let o1 = begin_spec(s, step, keys);
            let o = if o1.progress is Done { o1 } else { resume_spec(o1.state, ReplyV::Signed(pf), keys) };
            let idx = step.entry->Some_0 as int;
            &&& o.progress is Done
            &&& 0 <= idx < s.log.len()
            &&& o.state.log.len() == s.log.len()
            &&& forall|j: int| 0 <= j < s.log.len() && j != idx ==> o.state.log[j] == s.log[j]
            &&& o.state.witness_entries == s.witness_entries
            &&& o1.progress is Done ==> o.state.log[idx] == mutated(s.log[idx], step.mutation->Some_0, step.field, step.value, keys)->Ok_0
            &&& o1.progress is Need ==> (version_id_of(s.log[idx]) matches Some(v0) && version_id_of(o.state.log[idx]) matches Some(v1)
                && version_number(v1) == version_number(v0))
            &&& o1.progress is Need ==> o.state.log[idx] == with_proof(o1.state.pending->Resign_entry, pf)
            &&& o1.progress is Need ==> (resign_unsigned(mutated(s.log[idx], step.mutation->Some_0, step.field, step.value, keys)->Ok_0, idx, s.log)
                matches Ok((u, n)) && o.state.log[idx] == with_proof(hashed_entry(u, n), pf))
            &&& o1.progress is Need ==> s.current_update_key_ids.len() > 0
                && (find_key(keys, s.current_update_key_ids[0]) matches Some(k)
                && o1.progress == ProgressV::Need(crate::scenario::RequestV::Sign {
                    document: o1.state.pending->Resign_entry,
                    signer: crate::scenario::signer_of(k),
                }))
        }),
{
    lemma_op_names();
    assert(begin_spec(s, step, keys) == corrupt_spec(s, step, keys));
    let o1 = begin_spec(s, step, keys);
    let idx = step.entry->Some_0 as int;
    let x = mutated(s.log[idx], step.mutation->Some_0, step.field, step.value, keys)->Ok_0;
    if o1.progress is Done {
        assert(o1.state.log == s.log.update(idx, x));
    } else {
        let sid = corrupt_signer_id(s.current_update_key_ids, keys)->Some_0;
        let (u, n) = resign_unsigned(x, idx, s.log)->Ok_0;
        lemma_resign_version(x, idx, s.log);
        let entry = hashed_entry(u, n);
        lemma_with_proof_version(entry, pf);
        assert(version_id_of(s.log[idx]) == version_id_of(x)) by {
            assert(entry_ok(s.log[idx]));
            reveal_strlit("versionId");
            reveal_strlit("state");
            reveal_strlit("versionTime");
            reveal_strlit("proof");
            reveal_strlit("parameters");
            reveal_strlit("replace-state-id-scid");
            reveal_strlit("replace-version-time");
            reveal_strlit("replace-proof-field");
            assert("versionId"@.len() == 9 && "state"@.len() == 5 && "versionTime"@.len() == 11);
            assert("proof"@.len() == 5 && "parameters"@.len() == 10);
            lemma_mutation_scope(s.log[idx], step.mutation->Some_0, step.field, step.value, keys, "versionId"@);
        }
        let o = resume_spec(o1.state, ReplyV::Signed(pf), keys);
        assert(o.state.log == s.log.update(idx, with_proof(entry, pf)));
    }
}

/// A `sign-witness-proof` step that is signed records one witness proof, of
/// the version identifier of the entry it names, and leaves the log as it was.
pub proof fn lemma_witness_step(s: ScenarioV, step: StepV, keys: Seq<KeyView>, pf: JsonV)
    requires
        scenario_ok(s),
        s.pending is Idle,
        step.op == "sign-witness-proof"@,
        begin_spec(s, step, keys).progress is Need,
    ensures
        ({
            let o = resume_spec(begin_spec(s, step, keys).state, ReplyV::Signed(pf), keys);
            let idx = step.entry->Some_0 as int;
            &&& o.progress is Done
            &&& o.state.log == s.log
            &&& 0 <= idx < s.log.len()
            &&& version_id_of(s.log[idx]) matches Some(vid)
                && o.state.witness_entries == s.witness_entries.push(witness_record(vid, pf))
        }),
{
    lemma_op_names();
    assert(begin_spec(s, step, keys) == witness_spec(s, step, keys));
}

/// A `resolve` or `resolve-did` step records the error the resolution is
/// expected to report (or none) and changes nothing else.
pub proof fn lemma_resolve_step(s: ScenarioV, step: StepV, keys: Seq<KeyView>)
    requires
        s.pending is Idle,
        step.op == "resolve"@ || step.op == "resolve-did"@,
    ensures
        begin_spec(s, step, keys).progress is Done,
        begin_spec(s, step, keys).state == (ScenarioV { expect_error: step.expect_error, ..s }),
{
    lemma_op_names();
}

/// Substituting key placeholders leaves a text without `{` as it is.
pub proof fn lemma_substitute_brace_free(s: Seq<char>, keys: Seq<KeyView>)
    requires
        brace_free(s),
    ensures
        substitute_text(s, substitutions(keys)) == s,
{
    lemma_substitute_prefix(s, substitutions(keys));
}

proof fn lemma_substitute_prefix(s: Seq<char>, subs: Seq<(Seq<char>, Seq<char>)>)
    requires
        brace_free(s),
        forall|i: int| 0 <= i < subs.len() ==> (#[trigger] subs[i]).0.len() > 0 && subs[i].0[0] == '{',
    ensures
        substitute_text(s, subs) == s,
    decreases subs.len(),
{
    if subs.len() > 0 {
        let init = subs.drop_last();
        assert forall|i: int| 0 <= i < init.len() implies (#[trigger] init[i]).0.len() > 0 && init[i].0[0] == '{' by {
            assert(init[i] == subs[i]);
        }
        lemma_substitute_prefix(s, init);
        assert(subs.last() == subs[subs.len() - 1]);
        lemma_replace_brace_pattern(s, subs.last().0, subs.last().1);
    }
}

/// Registering a key makes it the one found under its identifier, and
/// leaves the keys found under other identifiers as they were (a later key
/// with the same identifier replaces the earlier one).
pub proof fn lemma_put_key_find(keys: Seq<KeyView>, k: KeyView, id: Seq<char>)
    ensures
        find_key(put_key(keys, k), id) == (if id == k.id { Some(k) } else { find_key(keys, id) }),
{
    crate::keys::lemma_key_pos_valid(keys, k.id);
    crate::keys::lemma_key_pos_valid(keys, id);
    match key_pos(keys, k.id) {
        Some(p) => {
            lemma_key_pos_update(keys, p, k, id);
        },
        None => {
            lemma_key_pos_push(keys, k, id);
        },
    }
}

proof fn lemma_key_pos_update(keys: Seq<KeyView>, p: int, k: KeyView, id: Seq<char>)
    requires
        key_pos(keys, k.id) == Some(p),
        0 <= p < keys.len(),
        keys[p].id == k.id,
    ensures
        key_pos(keys.update(p, k), id) == key_pos(keys, id),
    decreases keys.len(),
{
    let n = keys.len() - 1;
    let u = keys.update(p, k);
    if p < n {
        assert(u.drop_last() =~= keys.drop_last().update(p, k));
        assert(key_pos(keys.drop_last(), k.id) == Some(p));
        lemma_key_pos_update(keys.drop_last(), p, k, id);
    } else {
        assert(u.drop_last() =~= keys.drop_last());
        crate::keys::lemma_key_pos_valid(keys.drop_last(), k.id);
        assert(key_pos(keys.drop_last(), k.id) is None);
    }
}

proof fn lemma_key_pos_push(keys: Seq<KeyView>, k: KeyView, id: Seq<char>)
    requires
        key_pos(keys, k.id) is None,
    ensures
        key_pos(keys.push(k), id) == (if id == k.id { Some(keys.len() as int) } else { key_pos(keys, id) }),
{
    assert(keys.push(k).drop_last() =~= keys);
    crate::keys::lemma_key_pos_valid(keys, id);
}

/// Whether a text holds neither `{` nor `}`.
pub open spec fn plain(s: Seq<char>) -> bool {
    forall|i: int| 0 <= i < s.len() ==> s[i] != '{' && s[i] != '}'
}

/// A pattern replaced in itself gives the replacement.
proof fn lemma_replace_self(p: Seq<char>, r: Seq<char>)
    requires
        p.len() > 0,
    ensures
        replace_all(p, p, r) == r,
{
    assert(p.take(p.len() as int) =~= p);
    assert(replace_all(p.skip(p.len() as int), p, r) == Seq::<char>::empty());
    assert(r + Seq::<char>::empty() =~= r);
}

/// One placeholder does not occur in another: `{x}` in `{y}` with plain
/// and different `x` and `y`.
proof fn lemma_replace_other_placeholder(x: Seq<char>, y: Seq<char>, r: Seq<char>)
    requires
        plain(x),
        plain(y),
        x != y,
    ensures
        replace_all(seq!['{'] + x + seq!['}'], seq!['{'] + y + seq!['}'], r) == seq!['{'] + x + seq!['}'],
{
    let s = seq!['{'] + x + seq!['}'];
    let p = seq!['{'] + y + seq!['}'];
    if s.len() >= p.len() {
        assert(s.take(p.len() as int) != p) by {
            if s.len() == p.len() {
                if s.take(p.len() as int) == p {
                    assert(s.take(p.len() as int) =~= s);
                    assert forall|i: int| 0 <= i < x.len() implies x[i] == y[i] by {
                        assert(s[i + 1] == p[i + 1]);
                    }
                    assert(x =~= y);
                }
            } else {
                let k = p.len() - 1;
                assert(s.take(p.len() as int)[k] == x[k - 1]);
                assert(p[k] == '}');
            }
        }
        let rest = s.skip(1);
        assert(rest =~= x + seq!['}']);
        assert(brace_free(rest)) by {
            assert forall|i: int| 0 <= i < rest.len() implies rest[i] != '{' by {
                if i < x.len() {
                    assert(rest[i] == x[i]);
                }
            }
        }
        lemma_replace_brace_pattern(rest, p, r);
        assert(seq![s[0]] + rest =~= s);
    }
}

/// Substituting key placeholders turns the placeholder of a registered key
/// into that key's public key multibase, when no placeholder holds a brace
/// inside, no other key has the same placeholder, and no multibase holds `{`.
pub proof fn lemma_placeholder_substitution(keys: Seq<KeyView>, j: int)
    requires
        0 <= j < keys.len(),
        forall|i: int| 0 <= i < keys.len() ==> plain(#[trigger] unicode_upper(dashes_to_underscores(keys[i].id))),
        forall|i: int| 0 <= i < keys.len() ==> brace_free(#[trigger] keys[i].pub_multibase),
        forall|i: int| 0 <= i < keys.len() && i != j ==> #[trigger] placeholder(keys[i].id) != placeholder(keys[j].id),
    ensures
        substitute_text(placeholder(keys[j].id), substitutions(keys)) == keys[j].pub_multibase,
{
    lemma_substitution_prefix(keys, j, keys.len() as int);
    assert(substitutions(keys).take(keys.len() as int) =~= substitutions(keys));
}

proof fn lemma_substitution_prefix(keys: Seq<KeyView>, j: int, n: int)
    requires
        0 <= j < keys.len(),
        0 <= n <= keys.len(),
        forall|i: int| 0 <= i < keys.len() ==> plain(#[trigger] unicode_upper(dashes_to_underscores(keys[i].id))),
        forall|i: int| 0 <= i < keys.len() ==> brace_free(#[trigger] keys[i].pub_multibase),
        forall|i: int| 0 <= i < keys.len() && i != j ==> #[trigger] placeholder(keys[i].id) != placeholder(keys[j].id),
    ensures
        substitute_text(placeholder(keys[j].id), substitutions(keys).take(n))
            == if n <= j { placeholder(keys[j].id) } else { keys[j].pub_multibase },
    decreases n,
{
    let subs = substitutions(keys).take(n);
    let pj = placeholder(keys[j].id);
    if n > 0 {
        let i = n - 1;
        lemma_substitution_prefix(keys, j, i);
        assert(subs.drop_last() =~= substitutions(keys).take(i));
        assert(subs.last() == (placeholder(keys[i].id), keys[i].pub_multibase));
        let before = substitute_text(pj, subs.drop_last());
        let pi = placeholder(keys[i].id);
        assert(pi.len() > 0 && pi[0] == '{');
        if i < j {
            assert(before == pj);
            assert(pi != pj);
            let xi = unicode_upper(dashes_to_underscores(keys[i].id));
            let xj = unicode_upper(dashes_to_underscores(keys[j].id));
            assert(plain(xi));
            assert(plain(xj));
            assert(xi != xj);
            lemma_replace_other_placeholder(xj, xi, keys[i].pub_multibase);
        } else if i == j {
            assert(before == pj);
            lemma_replace_self(pj, keys[j].pub_multibase);
        } else {
            assert(before == keys[j].pub_multibase);
            assert(brace_free(keys[j].pub_multibase));
            lemma_replace_brace_pattern(keys[j].pub_multibase, pi, keys[i].pub_multibase);
        }
    }
}

/// Registering a key keeps every identifier naming at most one key.
pub proof fn lemma_put_key_distinct(keys: Seq<KeyView>, k: KeyView)
    requires
        ids_distinct(keys),
    ensures
        ids_distinct(put_key(keys, k)),
{
    crate::keys::lemma_key_pos_valid(keys, k.id);
    match key_pos(keys, k.id) {
        Some(p) => {
            assert forall|i: int, j: int| 0 <= i < j < keys.len() implies put_key(keys, k)[i].id != put_key(keys, k)[j].id by {
                if i == p {
                    assert(keys[j].id != keys[p].id);
                } else if j == p {
                    assert(keys[i].id != keys[p].id);
                }
            }
        },
        None => {
            assert forall|i: int| 0 <= i < keys.len() implies keys[i].id != k.id by {
                crate::keys::lemma_key_pos_absent(keys, k.id, i);
            }
        },
    }
}

/// A key registry names each key by one identifier only: no identifier names
/// two keys, however often the script declares it.
pub proof fn lemma_registry_ids_distinct(defs: Seq<KeyDef>)
    requires
        registry_of(defs) is Ok,
    ensures
        ids_distinct(registry_of(defs)->Ok_0),
    decreases defs.len(),
{
    if defs.len() > 0 {
        lemma_registry_ids_distinct(defs.drop_last());
        let keys = registry_of(defs.drop_last())->Ok_0;
        let k = key_of(defs.last())->Ok_0;
        lemma_put_key_distinct(keys, k);
    }
}

/// Each authentication reference of a document is the identifier of one of
/// its verification methods, the one of the same key.
pub proof fn lemma_authentication_refs(did: Seq<char>, params: StepParamsV, keys: Seq<KeyView>, i: int)
    requires
        0 <= i < authentication(did, params, keys).len(),
    ensures
        i < verification_methods(did, params, keys).len(),
        get(verification_methods(did, params, keys)[i], "id"@) == Some(authentication(did, params, keys)[i]),
{
    let pms = crate::document::param_multibases(params, keys);
    let vm = verification_methods(did, params, keys)[i];
    assert(vm == crate::document::verification_method(did, pms[i]));
    let ms = vm->Object_0;
    assert(is_first_key(ms, "id"@, 0));
    lemma_lookup_first(ms, "id"@, 0);
}

/// Setting a member of an object to the value it already has changes nothing.
proof fn lemma_assign_noop(v: JsonV, k: Seq<char>, x: JsonV)
    requires
        v is Object,
        get(v, k) == Some(x),
    ensures
        assign(v, k, x) == v,
{
    let ms = v->Object_0;
    crate::json::lemma_has_first(ms, k);
    let p = crate::json::first_key(ms, k);
    assert(crate::json::is_first_key(ms, k, p));
    assert(ms.update(p, (k, x)) =~= ms);
}

/// Setting a member of an object makes it the value found under its key.
proof fn lemma_get_assign_same(v: JsonV, k: Seq<char>, x: JsonV)
    requires
        v is Object,
    ensures
        get(assign(v, k, x), k) == Some(x),
        assign(v, k, x) is Object,
{
    lemma_lookup_set_same(v->Object_0, k, x);
}

/// The members a merge writes have names of different lengths, so differ.
proof fn lemma_merge_keys()
    ensures
        "id"@.len() == 2,
        "verificationMethod"@.len() == 18,
        "authentication"@.len() == 14,
        "service"@.len() == 7,
        "alsoKnownAs"@.len() == 11,
        "@context"@.len() == 8,
        "controller"@.len() == 10,
{
    reveal_strlit("id");
    reveal_strlit("verificationMethod");
    reveal_strlit("authentication");
    reveal_strlit("service");
    reveal_strlit("alsoKnownAs");
    reveal_strlit("@context");
    reveal_strlit("controller");
}

/// What a merge writes into an object: each member it sets holds the value
/// it set.
proof fn lemma_merged_members(base: JsonV, did: Seq<char>, params: StepParamsV, keys: Seq<KeyView>)
    requires
        base is Object,
    ensures
        merged_document(base, did, params, keys) is Object,
        get(merged_document(base, did, params, keys), "id"@) == Some(JsonV::Str(did)),
        params.update_keys.len() > 0 || params.verification_methods.len() > 0 ==> get(merged_document(base, did, params, keys), "verificationMethod"@) == Some(JsonV::Array(verification_methods(did, params, keys)))
            && get(merged_document(base, did, params, keys), "authentication"@) == Some(JsonV::Array(authentication(did, params, keys))),
        params.services.len() > 0 ==> get(merged_document(base, did, params, keys), "service"@) == Some(JsonV::Array(params.services)),
        params.also_known_as.len() > 0 ==> get(merged_document(base, did, params, keys), "alsoKnownAs"@) == Some(crate::json::jstr_array(params.also_known_as)),
        params.context.len() > 0 ==> get(merged_document(base, did, params, keys), "@context"@) == Some(crate::document::contexts(params)),
{
    lemma_merge_keys();
    let d1 = assign(base, "id"@, JsonV::Str(did));
    lemma_get_assign_same(base, "id"@, JsonV::Str(did));
    let vm = JsonV::Array(verification_methods(did, params, keys));
    let au = JsonV::Array(authentication(did, params, keys));
    let keyed = params.update_keys.len() > 0 || params.verification_methods.len() > 0;
    let d2 = if keyed { assign(assign(d1, "verificationMethod"@, vm), "authentication"@, au) } else { d1 };
    if keyed {
        lemma_get_assign_same(d1, "verificationMethod"@, vm);
        lemma_get_assign_other(d1, "verificationMethod"@, vm, "id"@);
        let d1b = assign(d1, "verificationMethod"@, vm);
        lemma_get_assign_same(d1b, "authentication"@, au);
        lemma_get_assign_other(d1b, "authentication"@, au, "id"@);
        lemma_get_assign_other(d1b, "authentication"@, au, "verificationMethod"@);
    }
    let sv = JsonV::Array(params.services);
    let d3 = if params.services.len() > 0 { assign(d2, "service"@, sv) } else { d2 };
    if params.services.len() > 0 {
        lemma_get_assign_same(d2, "service"@, sv);
        lemma_get_assign_other(d2, "service"@, sv, "id"@);
        lemma_get_assign_other(d2, "service"@, sv, "verificationMethod"@);
        lemma_get_assign_other(d2, "service"@, sv, "authentication"@);
    }
    let ak = crate::json::jstr_array(params.also_known_as);
    let d4 = if params.also_known_as.len() > 0 { assign(d3, "alsoKnownAs"@, ak) } else { d3 };
    if params.also_known_as.len() > 0 {
        lemma_get_assign_same(d3, "alsoKnownAs"@, ak);
        lemma_get_assign_other(d3, "alsoKnownAs"@, ak, "id"@);
        lemma_get_assign_other(d3, "alsoKnownAs"@, ak, "verificationMethod"@);
        lemma_get_assign_other(d3, "alsoKnownAs"@, ak, "authentication"@);
        lemma_get_assign_other(d3, "alsoKnownAs"@, ak, "service"@);
    }
    let cx = crate::document::contexts(params);
    if params.context.len() > 0 {
        lemma_get_assign_same(d4, "@context"@, cx);
        lemma_get_assign_other(d4, "@context"@, cx, "id"@);
        lemma_get_assign_other(d4, "@context"@, cx, "verificationMethod"@);
        lemma_get_assign_other(d4, "@context"@, cx, "authentication"@);
        lemma_get_assign_other(d4, "@context"@, cx, "service"@);
        lemma_get_assign_other(d4, "@context"@, cx, "alsoKnownAs"@);
    }
}

/// Merging an object that already holds every member the merge writes, with
/// the values it writes, gives it back.
proof fn lemma_merge_fixed(m: JsonV, did: Seq<char>, params: StepParamsV, keys: Seq<KeyView>)
    requires
        m is Object,
        get(m, "id"@) == Some(JsonV::Str(did)),
        params.update_keys.len() > 0 || params.verification_methods.len() > 0 ==> get(m, "verificationMethod"@) == Some(JsonV::Array(verification_methods(did, params, keys)))
            && get(m, "authentication"@) == Some(JsonV::Array(authentication(did, params, keys))),
        params.services.len() > 0 ==> get(m, "service"@) == Some(JsonV::Array(params.services)),
        params.also_known_as.len() > 0 ==> get(m, "alsoKnownAs"@) == Some(crate::json::jstr_array(params.also_known_as)),
        params.context.len() > 0 ==> get(m, "@context"@) == Some(crate::document::contexts(params)),
    ensures
        merged_document(m, did, params, keys) == m,
{
    lemma_assign_noop(m, "id"@, JsonV::Str(did));
    if params.update_keys.len() > 0 || params.verification_methods.len() > 0 {
        lemma_assign_noop(m, "verificationMethod"@, JsonV::Array(verification_methods(did, params, keys)));
        lemma_assign_noop(m, "authentication"@, JsonV::Array(authentication(did, params, keys)));
    }
    if params.services.len() > 0 {
        lemma_assign_noop(m, "service"@, JsonV::Array(params.services));
    }
    if params.also_known_as.len() > 0 {
        lemma_assign_noop(m, "alsoKnownAs"@, crate::json::jstr_array(params.also_known_as));
    }
    if params.context.len() > 0 {
        lemma_assign_noop(m, "@context"@, crate::document::contexts(params));
    }
}

/// Merging is idempotent: merging a document twice with the same DID and
/// parameters gives what merging it once gives.
pub proof fn lemma_merge_idempotent(base: JsonV, did: Seq<char>, params: StepParamsV, keys: Seq<KeyView>)
    ensures
        merged_document(merged_document(base, did, params, keys), did, params, keys)
            == merged_document(base, did, params, keys),
{
    lemma_merge_keys();
    if base is Object {
        lemma_merged_members(base, did, params, keys);
        lemma_merge_fixed(merged_document(base, did, params, keys), did, params, keys);
    } else {
        let d = document(did, params, keys);
        let ms = d->Object_0;
        reveal_strlit("assertionMethod");
        reveal_strlit("keyAgreement");
        reveal_strlit("capabilityDelegation");
        reveal_strlit("capabilityInvocation");
        assert("assertionMethod"@.len() == 15 && "keyAgreement"@.len() == 12);
        assert("capabilityDelegation"@.len() == 20 && "capabilityInvocation"@.len() == 20);
        assert(is_first_key(ms, "id"@, 1));
        lemma_lookup_first(ms, "id"@, 1);
        assert(is_first_key(ms, "@context"@, 0));
        lemma_lookup_first(ms, "@context"@, 0);
        assert(is_first_key(ms, "verificationMethod"@, 3));
        lemma_lookup_first(ms, "verificationMethod"@, 3);
        assert(is_first_key(ms, "authentication"@, 4));
        lemma_lookup_first(ms, "authentication"@, 4);
        if params.services.len() > 0 {
            assert(is_first_key(ms, "service"@, 9));
            lemma_lookup_first(ms, "service"@, 9);
        }
        if params.also_known_as.len() > 0 {
            let i = if params.services.len() > 0 { 10int } else { 9int };
            assert(is_first_key(ms, "alsoKnownAs"@, i));
            lemma_lookup_first(ms, "alsoKnownAs"@, i);
        }
        lemma_merge_fixed(d, did, params, keys);
    }
}

/// A step that gives no parameters keeps the current document, but for its
/// `id`, which becomes the DID.
pub proof fn lemma_merge_empty(base: JsonV, did: Seq<char>, keys: Seq<KeyView>)
    requires
        base is Object,
    ensures
        merged_document(base, did, empty_params(), keys) == assign(base, "id"@, JsonV::Str(did)),
{
}

/// Each entry of `did.jsonl` is on a line of its own: splitting the file on
/// newlines gives the entries' texts, then the empty text after the last
/// newline, when no entry's text holds a newline.
pub proof fn lemma_jsonl_lines(lines: Seq<Seq<char>>)
    requires
        lines.len() > 0,
        forall|i: int| 0 <= i < lines.len() ==> free_of(#[trigger] lines[i], '\n'),
    ensures
        split_on(jsonl(lines), '\n') == lines.push(Seq::<char>::empty()),
{
    let x = join_on(lines, '\n');
    lemma_split_join(lines, '\n');
    let y = x + seq!['\n'];
    assert(y.drop_last() =~= x);
}

/// Two ASCII key identifiers share a placeholder exactly when they have the
/// same length and agree character by character once `-` is made `_` and
/// `a`-`z` made `A`-`Z` (so `key-a`, `KEY_A` and `Key-A` share `{KEY_A}`).
pub proof fn lemma_ascii_placeholders_equal(a: Seq<char>, b: Seq<char>)
    requires
        is_ascii_text(a),
        is_ascii_text(b),
    ensures
        ascii_placeholder(a) == ascii_placeholder(b) <==> (a.len() == b.len()
            && forall|i: int| 0 <= i < a.len() ==> placeholder_char(#[trigger] a[i]) == placeholder_char(b[i])),
{
    let ma = Seq::new(a.len(), |i: int| placeholder_char(a[i]));
    let mb = Seq::new(b.len(), |i: int| placeholder_char(b[i]));
    if ascii_placeholder(a) == ascii_placeholder(b) {
        assert(ascii_placeholder(a).len() == a.len() + 2);
        assert(ascii_placeholder(b).len() == b.len() + 2);
        assert forall|i: int| 0 <= i < a.len() implies placeholder_char(#[trigger] a[i]) == placeholder_char(b[i]) by {
            assert(ascii_placeholder(a)[i + 1] == ma[i]);
            assert(ascii_placeholder(b)[i + 1] == mb[i]);
        }
    }
    if a.len() == b.len() && forall|i: int| 0 <= i < a.len() ==> placeholder_char(#[trigger] a[i]) == placeholder_char(b[i]) {
        assert(ma =~= mb);
        assert(ascii_placeholder(a) =~= ascii_placeholder(b));
    }
}

} // verus!
