use webvh_vectors::document::{build_document, merge_doc_with_params};
use webvh_vectors::entries::{expected_error_result, prepare_genesis_entry, prepare_resign, prepare_update_entry, replace_scid_placeholder};
use webvh_vectors::error::GenError;
use webvh_vectors::digest::compute_entry_hash;
use webvh_vectors::json::{to_json_text, Json};
use webvh_vectors::keys::{build_key_registry, KeyDef, KeyRegistry};
use webvh_vectors::parameters::{build_parameters, build_update_parameters_json};
use webvh_vectors::placeholders::substitute_placeholders;
use webvh_vectors::script::{StepParams, WitnessConfig};

fn t(s: &str) -> Vec<char> {
    s.chars().collect()
}

fn st(v: &[char]) -> String {
    v.iter().collect()
}

fn jstr(s: &str) -> Json {
    Json::Str(t(s))
}

fn obj(ms: Vec<(&str, Json)>) -> Json {
    Json::Object(ms.into_iter().map(|(k, v)| (t(k), v)).collect())
}

fn text_of(j: &Json) -> String {
    st(&to_json_text(j))
}

fn get<'a>(j: &'a Json, k: &str) -> Option<&'a Json> {
    match j {
        Json::Object(ms) => ms.iter().find(|(key, _)| st(key) == k).map(|(_, v)| v),
        _ => None,
    }
}

fn str_of(j: Option<&Json>) -> String {
    match j {
        Some(Json::Str(s)) => st(s),
        _ => panic!("not a string"),
    }
}

fn ok<T>(r: Result<T, GenError>) -> T {
    match r {
        Ok(v) => v,
        Err(e) => panic!("{}", e.message()),
    }
}

fn err<T>(r: Result<T, GenError>) -> GenError {
    match r {
        Ok(_) => panic!("expected an error"),
        Err(e) => e,
    }
}

const RFC_SEED: &str = "9d61b19deffd5a60ba844af492ec2cc44449c5697b326919703bac031cae7f60";
const ONES_SEED: &str = "0101010101010101010101010101010101010101010101010101010101010101";
const PM1: &str = "z6MktwupdmLXVVqTzCw4i46r4uGyosGXRnR3XjN4Zq7oMMsw";
const PM2: &str = "z6Mkon3Necd6NkkyfoGoHxid2znGc59LU3K7mubaRcFbLfLX";
const HASH1: &str = "QmSEpeEJ5xqhtg18zvfH7CwWWytCcFDuj2zeFsfvsmMaYX";

fn def(id: &str, ty: &str, seed: &str) -> KeyDef {
    KeyDef { id: t(id), key_type: t(ty), seed: t(seed) }
}

fn registry() -> KeyRegistry {
    ok(build_key_registry(&vec![def("key-1", "ed25519", RFC_SEED), def("key-2", "ed25519", ONES_SEED)]))
}

fn params_with_keys(ids: &[&str]) -> StepParams {
    let mut p = StepParams::empty();
    p.update_keys = ids.iter().map(|i| t(i)).collect();
    p
}

#[test]
fn registry_derives_public_keys() {
    let keys = registry();
    assert_eq!(keys.len(), 2);
    assert_eq!(st(&keys.lookup(&t("key-1")).unwrap().pub_multibase), PM1);
    assert_eq!(st(&keys.lookup(&t("key-2")).unwrap().pub_multibase), PM2);
    assert!(keys.lookup(&t("key-3")).is_none());
}

#[test]
fn registry_later_key_replaces_earlier() {
    let keys = ok(build_key_registry(&vec![def("key-1", "ed25519", RFC_SEED), def("key-1", "ed25519", ONES_SEED)]));
    assert_eq!(keys.len(), 1);
    assert_eq!(st(&keys.lookup(&t("key-1")).unwrap().pub_multibase), PM2);
}

#[test]
fn registry_refuses_other_key_types() {
    let e = err(build_key_registry(&vec![def("key-1", "ed25519", RFC_SEED), def("k", "rsa", RFC_SEED)]));
    assert!(matches!(e, GenError::UnsupportedKeyType { .. }));
    assert_eq!(e.message(), "unsupported key type 'rsa' for 'k'");
}

#[test]
fn registry_refuses_bad_hex() {
    let e = err(build_key_registry(&vec![def("k", "ed25519", "zz")]));
    assert!(matches!(e, GenError::BadSeedHex { .. }));
    assert!(e.message().starts_with("bad seed hex for 'k': "));
    let odd = err(build_key_registry(&vec![def("k", "ed25519", "abc")]));
    assert!(matches!(odd, GenError::BadSeedHex { .. }));
}

#[test]
fn registry_refuses_short_seeds() {
    let e = err(build_key_registry(&vec![def("k", "ed25519", &RFC_SEED[2..])]));
    assert!(matches!(e, GenError::SeedLength { .. }));
    assert_eq!(e.message(), "seed for 'k' must be 32 bytes");
}

#[test]
fn document_of_update_keys() {
    let keys = registry();
    let did = "did:webvh:{SCID}:example.com";
    let doc = build_document(&t(did), &params_with_keys(&["key-1", "unknown"]), &keys);
    let suffix = &PM1[PM1.len() - 8..];
    let expected = format!(
        "{{\"@context\":[\"https://www.w3.org/ns/did/v1\",\"https://w3id.org/security/multikey/v1\"],\"id\":\"{did}\",\"controller\":\"{did}\",\"verificationMethod\":[{{\"id\":\"{did}#{suffix}\",\"type\":\"Multikey\",\"controller\":\"{did}\",\"publicKeyMultibase\":\"{PM1}\"}}],\"authentication\":[\"{did}#{suffix}\"],\"assertionMethod\":[],\"keyAgreement\":[],\"capabilityDelegation\":[],\"capabilityInvocation\":[]}}"
    );
    assert_eq!(text_of(&doc), expected);
}

#[test]
fn document_optional_members() {
    let keys = registry();
    let mut p = StepParams::empty();
    p.services = vec![obj(vec![("id", jstr("#s"))])];
    p.also_known_as = vec![t("https://example.com/a")];
    p.context = vec![t("https://example.com/ctx")];
    let doc = build_document(&t("did:x"), &p, &keys);
    assert_eq!(text_of(get(&doc, "service").unwrap()), "[{\"id\":\"#s\"}]");
    assert_eq!(text_of(get(&doc, "alsoKnownAs").unwrap()), "[\"https://example.com/a\"]");
    assert_eq!(
        text_of(get(&doc, "@context").unwrap()),
        "[\"https://www.w3.org/ns/did/v1\",\"https://w3id.org/security/multikey/v1\",\"https://example.com/ctx\"]"
    );
    assert_eq!(text_of(get(&doc, "verificationMethod").unwrap()), "[]");
}

#[test]
fn authentication_names_verification_methods() {
    let keys = registry();
    let doc = build_document(&t("did:x"), &params_with_keys(&["key-1", "key-2"]), &keys);
    let vms = match get(&doc, "verificationMethod") {
        Some(Json::Array(items)) => items,
        _ => panic!("no methods"),
    };
    let auth = match get(&doc, "authentication") {
        Some(Json::Array(items)) => items,
        _ => panic!("no authentication"),
    };
    assert_eq!(auth.len(), 2);
    for i in 0..auth.len() {
        assert_eq!(text_of(&auth[i]), text_of(get(&vms[i], "id").unwrap()));
    }
}

#[test]
fn merge_with_no_parameters_changes_only_the_id() {
    let keys = registry();
    let base = obj(vec![("id", jstr("did:old")), ("service", Json::Array(vec![])), ("x", Json::Bool(true))]);
    let merged = merge_doc_with_params(&base, &t("did:new"), &StepParams::empty(), &keys);
    assert_eq!(text_of(&merged), "{\"id\":\"did:new\",\"service\":[],\"x\":true}");
}

#[test]
fn merge_with_keys_replaces_methods() {
    let keys = registry();
    let base = obj(vec![("id", jstr("did:old")), ("verificationMethod", Json::Array(vec![])), ("authentication", Json::Null)]);
    let merged = merge_doc_with_params(&base, &t("did:new"), &params_with_keys(&["key-2"]), &keys);
    let suffix = &PM2[PM2.len() - 8..];
    assert_eq!(text_of(get(&merged, "authentication").unwrap()), format!("[\"did:new#{suffix}\"]"));
}

#[test]
fn merge_onto_a_non_object_builds_a_document() {
    let keys = registry();
    let p = params_with_keys(&["key-1"]);
    let merged = merge_doc_with_params(&Json::Null, &t("did:new"), &p, &keys);
    assert_eq!(text_of(&merged), text_of(&build_document(&t("did:new"), &p, &keys)));
}

#[test]
fn parameter_plan_resolves_keys() {
    let keys = registry();
    let mut p = params_with_keys(&["key-1"]);
    p.next_key_hashes = vec![t("key-1")];
    p.portable = Some(true);
    p.witness = Some(WitnessConfig { threshold: 2, witnesses: vec![t("key-2"), t("z6MkOther")] });
    let plan = ok(build_parameters(&p, &keys));
    assert_eq!(plan.update_keys.unwrap().iter().map(|k| st(k)).collect::<Vec<_>>(), vec![PM1]);
    assert_eq!(plan.next_key_hashes.unwrap().iter().map(|k| st(k)).collect::<Vec<_>>(), vec![HASH1]);
    assert_eq!(plan.portable, Some(true));
    let (threshold, ids) = plan.witness.unwrap();
    assert_eq!(threshold, 2);
    assert_eq!(ids.iter().map(|k| st(k)).collect::<Vec<_>>(), vec![format!("did:key:{PM2}"), "z6MkOther".to_string()]);
}

#[test]
fn parameter_plan_refuses_unknown_keys() {
    let keys = registry();
    let e = err(build_parameters(&params_with_keys(&["key-1", "nope"]), &keys));
    assert!(matches!(e, GenError::UnknownKey { .. }));
    assert_eq!(e.message(), "unknown key 'nope'");
}

#[test]
fn parameter_plan_refuses_witnesses_the_library_refuses() {
    let keys = registry();
    let mut p = StepParams::empty();
    p.witness = Some(WitnessConfig { threshold: 0, witnesses: vec![t("key-1")] });
    assert!(matches!(err(build_parameters(&p, &keys)), GenError::WitnessesRejected));
    p.witness = Some(WitnessConfig { threshold: 2, witnesses: vec![t("key-1")] });
    assert!(matches!(err(build_parameters(&p, &keys)), GenError::WitnessesRejected));
    p.witness = Some(WitnessConfig { threshold: 1, witnesses: vec![t("key-1"), t("key-1")] });
    assert!(matches!(err(build_parameters(&p, &keys)), GenError::WitnessesRejected));
    p.witness = Some(WitnessConfig { threshold: 1, witnesses: vec![t(&format!("did:key:{PM1}")), t("key-1")] });
    assert!(matches!(err(build_parameters(&p, &keys)), GenError::WitnessesRejected));
    p.witness = Some(WitnessConfig { threshold: 1, witnesses: vec![t(PM1), t(&format!("did:key:{PM1}"))] });
    assert!(matches!(err(build_parameters(&p, &keys)), GenError::WitnessesRejected));
    p.witness = Some(WitnessConfig { threshold: 2, witnesses: vec![t("key-1"), t("key-2")] });
    assert!(build_parameters(&p, &keys).is_ok());
}

#[test]
fn update_parameters_object() {
    let keys = registry();
    let mut p = StepParams::empty();
    p.next_key_hashes = vec![t("key-1")];
    let current = vec![t("key-2")];
    let j = ok(build_update_parameters_json(&p, &current, &keys));
    assert_eq!(text_of(&j), format!("{{\"updateKeys\":[\"{PM2}\"],\"nextKeyHashes\":[\"{HASH1}\"],\"witness\":{{}},\"watchers\":[]}}"));
    p.update_keys = vec![t("key-1")];
    p.portable = Some(false);
    p.witness = Some(WitnessConfig { threshold: 1, witnesses: vec![t("key-2"), t("zRaw")] });
    let j = ok(build_update_parameters_json(&p, &current, &keys));
    assert_eq!(
        text_of(&j),
        format!("{{\"updateKeys\":[\"{PM1}\"],\"nextKeyHashes\":[\"{HASH1}\"],\"witness\":{{\"threshold\":1,\"witnesses\":[{{\"id\":\"did:key:{PM2}\"}},{{\"id\":\"did:key:zRaw\"}}]}},\"watchers\":[],\"portable\":false}}")
    );
}

#[test]
fn update_parameters_refuse_unknown_keys() {
    let keys = registry();
    let e = err(build_update_parameters_json(&StepParams::empty(), &vec![t("ghost")], &keys));
    assert_eq!(e.message(), "unknown key 'ghost'");
}

#[test]
fn placeholders_become_public_keys() {
    let keys = registry();
    let v = obj(vec![
        ("{KEY_1}", jstr("{KEY_1}#{KEY_2}")),
        ("list", Json::Array(vec![jstr("a{KEY_2}"), Json::Number(t("5"))])),
    ]);
    let out = substitute_placeholders(&v, &keys);
    assert_eq!(text_of(&out), format!("{{\"{{KEY_1}}\":\"{PM1}#{PM2}\",\"list\":[\"a{PM2}\",5]}}"));
}

#[test]
fn substitution_leaves_text_without_braces() {
    let keys = registry();
    let v = obj(vec![("a", jstr("plain text: key-1 KEY_1"))]);
    assert_eq!(text_of(&substitute_placeholders(&v, &keys)), text_of(&v));
}

#[test]
fn scid_placeholder_is_replaced_in_keys_and_strings() {
    let v = obj(vec![
        ("{SCID}", jstr("did:webvh:{SCID}:x")),
        ("list", Json::Array(vec![jstr("{SCID}{SCID}"), Json::Bool(false)])),
    ]);
    let out = replace_scid_placeholder(&v, &t("QmS"));
    assert_eq!(text_of(&out), "{\"QmS\":\"did:webvh:QmS:x\",\"list\":[\"QmSQmS\",false]}");
}

#[test]
fn error_result_object() {
    assert_eq!(
        text_of(&expected_error_result(&t("invalidDid"))),
        "{\"didDocument\":null,\"didDocumentMetadata\":{},\"didResolutionMetadata\":{\"error\":\"invalidDid\"}}"
    );
}

#[test]
fn genesis_entry_binds_its_scid() {
    let keys = registry();
    let e = ok(prepare_genesis_entry(&t("example.com"), &t("2024-01-01T00:00:00Z"), &StepParams::empty(), &t(PM1), &keys));
    let params = get(&e, "parameters").unwrap();
    let scid = str_of(get(params, "scid"));
    assert!(scid.starts_with("Qm"));
    let state = get(&e, "state").unwrap();
    assert_eq!(str_of(get(state, "id")), format!("did:webvh:{scid}:example.com"));
    assert_eq!(text_of(get(params, "updateKeys").unwrap()), format!("[\"{PM1}\"]"));
    let vid = str_of(get(&e, "versionId"));
    assert!(vid.starts_with("1-"));
    // the version hash is that of the entry with the SCID as its version identifier
    let mut with_scid = Vec::new();
    if let Json::Object(ms) = &e {
        for (k, v) in ms {
            if st(k) == "versionId" {
                with_scid.push((k.clone(), jstr(&scid)));
            } else {
                with_scid.push((k.clone(), v.deep_clone()));
            }
        }
    }
    let h = compute_entry_hash(&Json::Object(with_scid)).unwrap();
    assert_eq!(vid, format!("1-{}", st(&h)));
}

#[test]
fn genesis_entry_refuses_unknown_next_keys() {
    let keys = registry();
    let mut p = StepParams::empty();
    p.next_key_hashes = vec![t("nope")];
    let e = err(prepare_genesis_entry(&t("example.com"), &t("ts"), &p, &t(PM1), &keys));
    assert_eq!(e.message(), "unknown key 'nope'");
}

#[test]
fn update_entry_takes_the_next_version_number() {
    let keys = registry();
    let previous = obj(vec![("versionId", jstr("1-QmPrev"))]);
    let doc = obj(vec![("id", jstr("did:x"))]);
    let e = ok(prepare_update_entry(&previous, &t("2024-02-02T00:00:00Z"), &StepParams::empty(), &vec![t("key-1")], doc, &keys));
    let vid = str_of(get(&e, "versionId"));
    let unsigned = obj(vec![
        ("versionId", jstr("1-QmPrev")),
        ("versionTime", jstr("2024-02-02T00:00:00Z")),
        ("parameters", ok(build_update_parameters_json(&StepParams::empty(), &vec![t("key-1")], &keys))),
        ("state", obj(vec![("id", jstr("did:x"))])),
    ]);
    assert_eq!(vid, format!("2-{}", st(&compute_entry_hash(&unsigned).unwrap())));
}

#[test]
fn update_entry_needs_a_readable_previous_version() {
    let keys = registry();
    let doc = || obj(vec![]);
    let missing = err(prepare_update_entry(&obj(vec![]), &t("ts"), &StepParams::empty(), &vec![t("key-1")], doc(), &keys));
    assert_eq!(missing.message(), "update bypass: previous entry missing versionId");
    let bad = err(prepare_update_entry(&obj(vec![("versionId", jstr("x-1"))]), &t("ts"), &StepParams::empty(), &vec![t("key-1")], doc(), &keys));
    assert_eq!(bad.message(), "update bypass: parse previous version number: invalid digit found in string");
    let max = err(prepare_update_entry(&obj(vec![("versionId", jstr("4294967295-Qm"))]), &t("ts"), &StepParams::empty(), &vec![t("key-1")], doc(), &keys));
    assert!(matches!(max, GenError::VersionOverflow));
}

#[test]
fn resign_keeps_the_version_number() {
    let first = obj(vec![("versionId", jstr("1-QmA")), ("parameters", obj(vec![("scid", jstr("QmScid"))]))]);
    let second = obj(vec![("versionId", jstr("3-QmB")), ("proof", Json::Array(vec![obj(vec![])])), ("x", Json::Number(t("1")))]);
    let log = vec![first.deep_clone(), second.deep_clone()];
    let e = ok(prepare_resign(&second, 1, &log));
    let unsigned = obj(vec![("versionId", jstr("1-QmA")), ("x", Json::Number(t("1")))]);
    assert_eq!(str_of(get(&e, "versionId")), format!("3-{}", st(&compute_entry_hash(&unsigned).unwrap())));
    assert!(get(&e, "proof").is_none());
    let g = ok(prepare_resign(&first, 0, &log));
    let unsigned0 = obj(vec![("versionId", jstr("QmScid")), ("parameters", obj(vec![("scid", jstr("QmScid"))]))]);
    assert_eq!(str_of(get(&g, "versionId")), format!("1-{}", st(&compute_entry_hash(&unsigned0).unwrap())));
}

#[test]
fn resign_errors() {
    let log = vec![obj(vec![("versionId", jstr("1-QmA"))])];
    assert_eq!(err(prepare_resign(&obj(vec![]), 0, &log)).message(), "resign: missing versionId");
    assert_eq!(err(prepare_resign(&obj(vec![("versionId", jstr("1-QmA"))]), 0, &log)).message(), "resign: missing parameters.scid for genesis");
    assert_eq!(err(prepare_resign(&obj(vec![("versionId", jstr("-Q"))]), 0, &log)).message(), "resign: parse version number: cannot parse integer from empty string");
    assert_eq!(err(prepare_resign(&Json::Null, 0, &log)).message(), "resign: missing versionId");
    let bad_prev = vec![obj(vec![])];
    assert_eq!(err(prepare_resign(&obj(vec![("versionId", jstr("2-Q"))]), 1, &bad_prev)).message(), "resign: missing previous versionId");
}

#[test]
fn bad_hex_messages_are_the_decoders() {
    let e = err(build_key_registry(&vec![def("k", "ed25519", "zz")]));
    assert_eq!(e.message(), "bad seed hex for 'k': Invalid character 'z' at position 0");
    let e = err(build_key_registry(&vec![def("k", "ed25519", "0a1g")]));
    assert_eq!(e.message(), "bad seed hex for 'k': Invalid character 'g' at position 3");
    let odd = err(build_key_registry(&vec![def("k", "ed25519", "abc")]));
    assert_eq!(odd.message(), "bad seed hex for 'k': Odd number of digits");
}

#[test]
fn scid_placeholder_in_nested_values() {
    let v = obj(vec![("a", Json::Array(vec![jstr("x{SCID}y{SCID}"), Json::Bool(true)])), ("{SCID}", jstr("{SCI}"))]);
    let out = replace_scid_placeholder(&v, &t("Qm1"));
    assert_eq!(text_of(&out), "{\"a\":[\"xQm1yQm1\",true],\"Qm1\":\"{SCI}\"}");
}

#[test]
fn substitution_does_not_depend_on_key_order() {
    let forward = registry();
    let backward = ok(build_key_registry(&vec![def("key-2", "ed25519", ONES_SEED), def("key-1", "ed25519", RFC_SEED)]));
    let v = obj(vec![
        ("a", jstr("{KEY_1}{KEY_2}{KEY_{KEY_1}}{{KEY_2}}")),
        ("b", Json::Array(vec![jstr("x{KEY_2}y{KEY_1"), jstr("}{KEY_1}")])),
    ]);
    let one = substitute_placeholders(&v, &forward);
    let two = substitute_placeholders(&v, &backward);
    assert_eq!(text_of(&one), text_of(&two));
    assert_eq!(
        text_of(&one),
        format!("{{\"a\":\"{PM1}{PM2}{{KEY_{PM1}}}{{{PM2}}}\",\"b\":[\"x{PM2}y{{KEY_1\",\"}}{PM1}\"]}}")
    );
}

#[test]
fn merging_twice_is_merging_once() {
    let keys = registry();
    let base = obj(vec![("id", jstr("did:old")), ("x", Json::Bool(true))]);
    let p = params_with_keys(&["key-1", "key-2"]);
    let once = merge_doc_with_params(&base, &t("did:new"), &p, &keys);
    let twice = merge_doc_with_params(&once, &t("did:new"), &p, &keys);
    assert_eq!(text_of(&once), text_of(&twice));
}

#[test]
fn resign_ignores_proof_and_hash_suffix() {
    let first = obj(vec![("versionId", jstr("1-QmA")), ("parameters", obj(vec![("scid", jstr("QmScid"))]))]);
    let second = obj(vec![("versionId", jstr("3-QmB")), ("proof", Json::Array(vec![obj(vec![])])), ("x", Json::Number(t("1")))]);
    let other = obj(vec![("versionId", jstr("3-anything-else")), ("proof", jstr("p")), ("x", Json::Number(t("1")))]);
    let log = vec![first.deep_clone(), second.deep_clone()];
    let a = ok(prepare_resign(&second, 1, &log));
    let b = ok(prepare_resign(&other, 1, &log));
    assert_eq!(text_of(&a), text_of(&b));
    let c = ok(prepare_resign(&a, 1, &log));
    assert_eq!(text_of(&a), text_of(&c));
}
