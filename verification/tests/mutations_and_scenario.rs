use webvh_vectors::error::GenError;
use webvh_vectors::json::{to_json_text, Json};
use webvh_vectors::keys::{build_key_registry, KeyDef, KeyRegistry};
use webvh_vectors::mutations::{apply_mutation, entry_is_well_formed};
use webvh_vectors::scenario::{did_jsonl, Progress, Reply, Request, Scenario};
use webvh_vectors::script::{Step, StepParams, WitnessConfig};

fn t(s: &str) -> Vec<char> {
    s.chars().collect()
}

fn st(v: &[char]) -> String {
    v.iter().collect()
}

fn jstr(s: &str) -> Json {
    Json::Str(t(s))
}

fn obj(ms: Vec<(&str, Json)>) -> Json {
    Json::Object(ms.into_iter().map(|(k, v)| (t(k), v)).collect())
}

fn text_of(j: &Json) -> String {
    st(&to_json_text(j))
}

fn get<'a>(j: &'a Json, k: &str) -> Option<&'a Json> {
    match j {
        Json::Object(ms) => ms.iter().find(|(key, _)| st(key) == k).map(|(_, v)| v),
        _ => None,
    }
}

fn str_of(j: Option<&Json>) -> String {
    match j {
        Some(Json::Str(s)) => st(s),
        _ => panic!("not a string"),
    }
}

fn ok<T>(r: Result<T, GenError>) -> T {
    match r {
        Ok(v) => v,
        Err(e) => panic!("{}", e.message()),
    }
}

fn err<T>(r: Result<T, GenError>) -> GenError {
    match r {
        Ok(_) => panic!("expected an error"),
        Err(e) => e,
    }
}

const RFC_SEED: &str = "9d61b19deffd5a60ba844af492ec2cc44449c5697b326919703bac031cae7f60";
const ONES_SEED: &str = "0101010101010101010101010101010101010101010101010101010101010101";
const PM1: &str = "z6MktwupdmLXVVqTzCw4i46r4uGyosGXRnR3XjN4Zq7oMMsw";
const PM2: &str = "z6Mkon3Necd6NkkyfoGoHxid2znGc59LU3K7mubaRcFbLfLX";

fn registry() -> KeyRegistry {
    ok(build_key_registry(&vec![
        KeyDef { id: t("key-1"), key_type: t("ed25519"), seed: t(RFC_SEED) },
        KeyDef { id: t("key-2"), key_type: t("ed25519"), seed: t(ONES_SEED) },
    ]))
}

fn entry() -> Json {
    obj(vec![
        ("versionId", jstr("1-QmA")),
        ("versionTime", jstr("2024-01-01T00:00:00Z")),
        ("parameters", obj(vec![("scid", jstr("QmScid")), ("portable", Json::Bool(false))])),
        ("state", obj(vec![("id", jstr("did:webvh:QmScid:example.com"))])),
        ("proof", Json::Array(vec![obj(vec![("cryptosuite", jstr("eddsa-jcs-2022"))])])),
    ])
}

fn mutate(e: Json, m: &str, field: Option<&str>, value: Option<Json>) -> Result<Json, GenError> {
    let keys = registry();
    let f = field.map(t);
    apply_mutation(e, &t(m), f.as_ref(), value.as_ref(), &keys)
}

fn step(op: &str) -> Step {
    Step {
        op: t(op),
        domain: None,
        signer: None,
        timestamp: None,
        params: None,
        entry: None,
        mutation: None,
        field: None,
        value: None,
        when: None,
        did: None,
        expect_error: None,
    }
}

fn proof_object(tag: &str) -> Json {
    obj(vec![("type", jstr("DataIntegrityProof")), ("tag", jstr(tag))])
}

#[test]
fn replace_state_id_scid_replaces_the_third_segment() {
    let out = ok(mutate(entry(), "replace-state-id-scid", None, Some(jstr("QmAttacker"))));
    assert_eq!(str_of(get(get(&out, "state").unwrap(), "id")), "did:webvh:QmAttacker:example.com");
    // every other member is as it was
    for k in ["versionId", "versionTime", "parameters", "proof"] {
        assert_eq!(text_of(get(&out, k).unwrap()), text_of(get(&entry(), k).unwrap()));
    }
}

#[test]
fn replace_state_id_scid_substitutes_placeholders() {
    let out = ok(mutate(entry(), "replace-state-id-scid", None, Some(jstr("{KEY_1}"))));
    assert_eq!(str_of(get(get(&out, "state").unwrap(), "id")), format!("did:webvh:{PM1}:example.com"));
}

#[test]
fn replace_state_id_scid_keeps_short_ids() {
    let e = obj(vec![("state", obj(vec![("id", jstr("did:short"))]))]);
    let out = ok(mutate(e, "replace-state-id-scid", None, Some(Json::Number(t("1")))));
    assert_eq!(text_of(&out), "{\"state\":{\"id\":\"did:short\"}}");
}

#[test]
fn replace_state_id_scid_errors() {
    assert_eq!(err(mutate(obj(vec![]), "replace-state-id-scid", None, Some(jstr("x")))).message(), "replace-state-id-scid: missing state.id");
    assert_eq!(err(mutate(entry(), "replace-state-id-scid", None, Some(Json::Bool(true)))).message(), "replace-state-id-scid: value must be string");
    assert_eq!(err(mutate(entry(), "replace-state-id-scid", None, None)).message(), "replace-state-id-scid: value must be string");
}

#[test]
fn replace_version_time() {
    let out = ok(mutate(entry(), "replace-version-time", None, Some(jstr("1999-01-01T00:00:00Z"))));
    assert_eq!(str_of(get(&out, "versionTime")), "1999-01-01T00:00:00Z");
    assert_eq!(text_of(get(&out, "state").unwrap()), text_of(get(&entry(), "state").unwrap()));
    assert_eq!(err(mutate(entry(), "replace-version-time", None, None)).message(), "replace-version-time: value must be string");
}

#[test]
fn replace_parameter() {
    let out = ok(mutate(entry(), "replace-parameter", Some("method"), Some(jstr("did:webvh:9.9"))));
    assert_eq!(text_of(get(&out, "parameters").unwrap()), "{\"scid\":\"QmScid\",\"portable\":false,\"method\":\"did:webvh:9.9\"}");
    let nulled = ok(mutate(entry(), "replace-parameter", Some("portable"), None));
    assert_eq!(text_of(get(&nulled, "parameters").unwrap()), "{\"scid\":\"QmScid\",\"portable\":null}");
    let named_by_value = ok(mutate(entry(), "replace-parameter", None, Some(jstr("witness"))));
    assert_eq!(text_of(get(&named_by_value, "parameters").unwrap()), "{\"scid\":\"QmScid\",\"portable\":false,\"witness\":\"witness\"}");
    let fresh = ok(mutate(obj(vec![("parameters", Json::Null)]), "replace-parameter", Some("a"), Some(Json::Bool(true))));
    assert_eq!(text_of(&fresh), "{\"parameters\":{\"a\":true}}");
    assert_eq!(err(mutate(entry(), "replace-parameter", None, None)).message(), "replace-parameter: need field or string value");
}

#[test]
fn drop_parameter() {
    let out = ok(mutate(entry(), "drop-parameter", Some("portable"), None));
    assert_eq!(text_of(get(&out, "parameters").unwrap()), "{\"scid\":\"QmScid\"}");
    let absent = ok(mutate(obj(vec![("versionId", jstr("1-Q"))]), "drop-parameter", Some("scid"), None));
    assert_eq!(text_of(&absent), "{\"versionId\":\"1-Q\",\"parameters\":null}");
    let not_object = ok(mutate(obj(vec![("parameters", Json::Bool(true))]), "drop-parameter", Some("scid"), None));
    assert_eq!(text_of(&not_object), "{\"parameters\":true}");
    assert_eq!(err(mutate(entry(), "drop-parameter", None, Some(Json::Null))).message(), "drop-parameter: need field or string value");
}

#[test]
fn replace_proof_field() {
    let out = ok(mutate(entry(), "replace-proof-field", Some("cryptosuite"), Some(jstr("ecdsa-rdfc-2019"))));
    assert_eq!(text_of(get(&out, "proof").unwrap()), "[{\"cryptosuite\":\"ecdsa-rdfc-2019\"}]");
    assert_eq!(err(mutate(entry(), "replace-proof-field", None, Some(jstr("x")))).message(), "replace-proof-field: missing field");
    let no_proof = obj(vec![("proof", Json::Array(vec![]))]);
    assert_eq!(err(mutate(no_proof, "replace-proof-field", Some("a"), None)).message(), "replace-proof-field: missing proof[0]");
}

#[test]
fn unknown_mutation() {
    let e = err(mutate(entry(), "flip-bits", None, None));
    assert_eq!(e.message(), "unknown mutation: flip-bits");
}

#[test]
fn well_formed_entries() {
    assert!(entry_is_well_formed(&entry()));
    assert!(!entry_is_well_formed(&Json::Null));
    assert!(!entry_is_well_formed(&obj(vec![("proof", Json::Array(vec![jstr("x")]))])));
}

#[test]
fn jsonl_text() {
    assert_eq!(st(&did_jsonl(&vec![])), "");
    assert_eq!(st(&did_jsonl(&vec![t("{\"a\":1}"), t("[]")])), "{\"a\":1}\n[]\n");
    let text = st(&did_jsonl(&vec![t("{}"), t("{\"b\":2}")]));
    assert_eq!(text.split('\n').collect::<Vec<_>>(), vec!["{}", "{\"b\":2}", ""]);
}

/// Runs a `create` step that the library refuses, then signs the genesis
/// entry built by hand.
fn create_by_hand(sc: &mut Scenario, keys: &KeyRegistry) {
    let mut s = step("create");
    s.domain = Some(t("example.com"));
    s.signer = Some(t("key-1"));
    s.timestamp = Some(t("2024-01-01T00:00:00Z"));
    match sc.begin(&s, keys) {
        Progress::Need(Request::Create { document, parameters, signer, version_time }) => {
            assert_eq!(str_of(get(&document, "id")), "did:webvh:{SCID}:example.com");
            assert!(parameters.update_keys.is_none());
            assert!(parameters.next_key_hashes.is_none());
            assert_eq!(st(&signer.key_id), format!("did:key:{PM1}#{PM1}"));
            assert_eq!(signer.seed.len(), 32);
            assert_eq!(st(&version_time.unwrap()), "2024-01-01T00:00:00Z");
        },
        _ => panic!("create should ask the library"),
    }
    assert!(sc.log().is_empty());
    let genesis = match sc.resume(Reply::CreateFailed, keys) {
        Progress::Need(Request::Sign { document, signer }) => {
            assert_eq!(st(&signer.key_id), format!("did:key:{PM1}#{PM1}"));
            document
        },
        _ => panic!("a refused creation falls back to a genesis entry"),
    };
    let scid = str_of(get(get(&genesis, "parameters").unwrap(), "scid"));
    assert_eq!(str_of(get(get(&genesis, "state").unwrap(), "id")), format!("did:webvh:{scid}:example.com"));
    assert!(str_of(get(&genesis, "versionId")).starts_with("1-"));
    assert!(matches!(sc.resume(Reply::Signed(proof_object("g")), keys), Progress::Done));
    assert_eq!(sc.log().len(), 1);
    assert_eq!(text_of(get(&sc.log()[0], "proof").unwrap()), "[{\"type\":\"DataIntegrityProof\",\"tag\":\"g\"}]");
}

#[test]
fn create_with_the_library() {
    let keys = registry();
    let mut sc = Scenario::new();
    let mut s = step("create");
    s.domain = Some(t("example.com"));
    s.signer = Some(t("key-2"));
    assert!(matches!(sc.begin(&s, &keys), Progress::Need(Request::Create { .. })));
    let created = obj(vec![
        ("versionId", jstr("1-QmLib")),
        ("state", obj(vec![("id", jstr("did:webvh:QmLib:example.com"))])),
        ("proof", Json::Array(vec![proof_object("lib")])),
    ]);
    assert!(matches!(sc.resume(Reply::Created(created), &keys), Progress::Done));
    assert_eq!(sc.log().len(), 1);
    assert!(sc.is_idle());
}

#[test]
fn create_with_unknown_keys_goes_by_hand() {
    let keys = registry();
    let mut sc = Scenario::new();
    let mut s = step("create");
    s.domain = Some(t("example.com"));
    s.signer = Some(t("key-1"));
    s.timestamp = Some(t("2024-01-01T00:00:00Z"));
    let mut p = StepParams::empty();
    p.witness = Some(WitnessConfig { threshold: 1, witnesses: vec![t("key-2"), t("key-2")] });
    s.params = Some(p);
    match sc.begin(&s, &keys) {
        Progress::Need(Request::Sign { document, .. }) => {
            let w = get(get(&document, "parameters").unwrap(), "witness").unwrap();
            assert_eq!(text_of(w), format!("{{\"threshold\":1,\"witnesses\":[{{\"id\":\"did:key:{PM2}\"}},{{\"id\":\"did:key:{PM2}\"}}]}}"));
        },
        _ => panic!("a refused witness list is built by hand"),
    }
}

#[test]
fn create_step_errors() {
    let keys = registry();
    let mut sc = Scenario::new();
    let s = step("create");
    match sc.begin(&s, &keys) {
        Progress::Failed(e) => assert_eq!(e.message(), "create: missing domain"),
        _ => panic!(),
    }
    let mut s = step("create");
    s.domain = Some(t("d"));
    match sc.begin(&s, &keys) {
        Progress::Failed(e) => assert_eq!(e.message(), "create: missing signer"),
        _ => panic!(),
    }
    s.signer = Some(t("nobody"));
    match sc.begin(&s, &keys) {
        Progress::Failed(e) => assert_eq!(e.message(), "unknown signer 'nobody'"),
        _ => panic!(),
    }
    s.signer = Some(t("key-1"));
    assert!(matches!(sc.begin(&s, &keys), Progress::Need(Request::Create { .. })));
    match sc.resume(Reply::CreateFailed, &keys) {
        Progress::Failed(e) => assert_eq!(e.message(), "create fallback requires timestamp"),
        _ => panic!(),
    }
    assert!(sc.is_idle());
}

#[test]
fn update_appends_the_next_version() {
    let keys = registry();
    let mut sc = Scenario::new();
    create_by_hand(&mut sc, &keys);
    let mut s = step("update");
    s.signer = Some(t("key-1"));
    s.timestamp = Some(t("2024-02-01T00:00:00Z"));
    s.params = Some({
        let mut p = StepParams::empty();
        p.update_keys = vec![t("key-2")];
        p
    });
    let doc = match sc.begin(&s, &keys) {
        Progress::Need(Request::Sign { document, .. }) => document,
        _ => panic!("update asks for a signature"),
    };
    assert!(str_of(get(&doc, "versionId")).starts_with("2-"));
    assert_eq!(text_of(get(get(&doc, "parameters").unwrap(), "updateKeys").unwrap()), format!("[\"{PM2}\"]"));
    assert!(matches!(sc.resume(Reply::Signed(proof_object("u")), &keys), Progress::Done));
    assert_eq!(sc.log().len(), 2);
    let did0 = str_of(get(get(&sc.log()[0], "state").unwrap(), "id"));
    assert_eq!(str_of(get(get(&sc.log()[1], "state").unwrap(), "id")), did0);
    // a migrate keeps the DID and takes the version after
    let mut m = step("migrate");
    m.signer = Some(t("key-2"));
    m.timestamp = Some(t("2024-03-01T00:00:00Z"));
    let doc = match sc.begin(&m, &keys) {
        Progress::Need(Request::Sign { document, signer }) => {
            assert_eq!(st(&signer.key_id), format!("did:key:{PM2}#{PM2}"));
            document
        },
        _ => panic!("migrate asks for a signature"),
    };
    assert!(str_of(get(&doc, "versionId")).starts_with("3-"));
    assert_eq!(str_of(get(get(&doc, "state").unwrap(), "id")), did0);
    assert!(matches!(sc.resume(Reply::Signed(proof_object("m")), &keys), Progress::Done));
    assert_eq!(sc.log().len(), 3);
}

#[test]
fn update_step_errors() {
    let keys = registry();
    let mut sc = Scenario::new();
    let mut s = step("update");
    match sc.begin(&s, &keys) {
        Progress::Failed(e) => assert_eq!(e.message(), "update: missing signer"),
        _ => panic!(),
    }
    s.signer = Some(t("key-1"));
    match sc.begin(&s, &keys) {
        Progress::Failed(e) => assert_eq!(e.message(), "update before create: missing current DID"),
        _ => panic!(),
    }
    let mut m = step("migrate");
    m.signer = Some(t("key-1"));
    match sc.begin(&m, &keys) {
        Progress::Failed(e) => assert_eq!(e.message(), "migrate before create: missing current DID"),
        _ => panic!(),
    }
    create_by_hand(&mut sc, &keys);
    match sc.begin(&s, &keys) {
        Progress::Failed(e) => assert_eq!(e.message(), "update bypass: missing timestamp"),
        _ => panic!(),
    }
    m.timestamp = Some(t("ts"));
    match sc.begin(&m, &keys) {
        Progress::Need(Request::Sign { .. }) => {},
        _ => panic!(),
    }
    match sc.resume(Reply::SignFailed(t("no key")), &keys) {
        Progress::Failed(e) => assert_eq!(e.message(), "update bypass sign proof: no key"),
        _ => panic!(),
    }
    assert_eq!(sc.log().len(), 1);
}

#[test]
fn corrupt_after_sign_replaces_the_entry() {
    let keys = registry();
    let mut sc = Scenario::new();
    create_by_hand(&mut sc, &keys);
    let before = text_of(&sc.log()[0]);
    let mut s = step("corrupt");
    s.entry = Some(0);
    s.mutation = Some(t("replace-proof-field"));
    s.field = Some(t("cryptosuite"));
    s.value = Some(jstr("bogus"));
    s.when = Some(t("after-sign"));
    assert!(matches!(sc.begin(&s, &keys), Progress::Done));
    assert_eq!(sc.log().len(), 1);
    assert_ne!(text_of(&sc.log()[0]), before);
    assert_eq!(text_of(get(&sc.log()[0], "proof").unwrap()), "[{\"type\":\"DataIntegrityProof\",\"tag\":\"g\",\"cryptosuite\":\"bogus\"}]");
}

#[test]
fn corrupt_before_sign_resigns_with_the_same_version() {
    let keys = registry();
    let mut sc = Scenario::new();
    create_by_hand(&mut sc, &keys);
    let mut s = step("corrupt");
    s.entry = Some(0);
    s.mutation = Some(t("replace-state-id-scid"));
    s.value = Some(jstr("QmAttacker"));
    s.when = Some(t("before-sign"));
    let doc = match sc.begin(&s, &keys) {
        Progress::Need(Request::Sign { document, signer }) => {
            assert_eq!(st(&signer.key_id), format!("did:key:{PM1}#{PM1}"));
            document
        },
        _ => panic!("before-sign asks for a signature"),
    };
    assert!(str_of(get(&doc, "versionId")).starts_with("1-"));
    assert!(get(&doc, "proof").is_none());
    assert_eq!(str_of(get(get(&doc, "state").unwrap(), "id")), "did:webvh:QmAttacker:example.com");
    assert!(matches!(sc.resume(Reply::Signed(proof_object("r")), &keys), Progress::Done));
    assert_eq!(sc.log().len(), 1);
    assert_eq!(str_of(get(get(&sc.log()[0], "state").unwrap(), "id")), "did:webvh:QmAttacker:example.com");
}

#[test]
fn corrupt_step_errors() {
    let keys = registry();
    let mut sc = Scenario::new();
    let mut s = step("corrupt");
    match sc.begin(&s, &keys) {
        Progress::Failed(e) => assert_eq!(e.message(), "corrupt: missing entry"),
        _ => panic!(),
    }
    s.entry = Some(0);
    match sc.begin(&s, &keys) {
        Progress::Failed(e) => assert_eq!(e.message(), "corrupt: entry 0 out of range [0, 0]"),
        _ => panic!(),
    }
    create_by_hand(&mut sc, &keys);
    s.entry = Some(3);
    match sc.begin(&s, &keys) {
        Progress::Failed(e) => assert!(matches!(e, GenError::CorruptOutOfRange { entry: 3, last: 0 })),
        _ => panic!(),
    }
    s.entry = Some(0);
    match sc.begin(&s, &keys) {
        Progress::Failed(e) => assert_eq!(e.message(), "corrupt: missing mutation"),
        _ => panic!(),
    }
    s.mutation = Some(t("replace-version-time"));
    match sc.begin(&s, &keys) {
        Progress::Failed(e) => assert_eq!(e.message(), "corrupt: missing when"),
        _ => panic!(),
    }
    s.when = Some(t("after-sign"));
    match sc.begin(&s, &keys) {
        Progress::Failed(e) => assert_eq!(e.message(), "replace-version-time: value must be string"),
        _ => panic!(),
    }
}

#[test]
fn witness_proofs_are_recorded() {
    let keys = registry();
    let mut sc = Scenario::new();
    create_by_hand(&mut sc, &keys);
    let vid = str_of(get(&sc.log()[0], "versionId"));
    let log_before = text_of(&sc.log()[0]);
    let mut s = step("sign-witness-proof");
    s.signer = Some(t("key-2"));
    s.entry = Some(0);
    match sc.begin(&s, &keys) {
        Progress::Need(Request::Sign { document, signer }) => {
            assert_eq!(text_of(&document), format!("{{\"versionId\":\"{vid}\"}}"));
            assert_eq!(st(&signer.key_id), format!("did:key:{PM2}#{PM2}"));
        },
        _ => panic!("a witness proof is asked for"),
    }
    assert!(matches!(sc.resume(Reply::Signed(proof_object("w")), &keys), Progress::Done));
    assert_eq!(sc.witness_entries().len(), 1);
    assert_eq!(
        text_of(&sc.witness_entries()[0]),
        format!("{{\"versionId\":\"{vid}\",\"proof\":[{{\"type\":\"DataIntegrityProof\",\"tag\":\"w\"}}]}}")
    );
    assert_eq!(text_of(&sc.log()[0]), log_before);
}

#[test]
fn witness_step_errors() {
    let keys = registry();
    let mut sc = Scenario::new();
    let mut s = step("sign-witness-proof");
    match sc.begin(&s, &keys) {
        Progress::Failed(e) => assert_eq!(e.message(), "sign-witness-proof: missing signer"),
        _ => panic!(),
    }
    s.signer = Some(t("ghost"));
    match sc.begin(&s, &keys) {
        Progress::Failed(e) => assert_eq!(e.message(), "unknown witness signer 'ghost'"),
        _ => panic!(),
    }
    s.signer = Some(t("key-1"));
    match sc.begin(&s, &keys) {
        Progress::Failed(e) => assert_eq!(e.message(), "sign-witness-proof: missing entry"),
        _ => panic!(),
    }
    s.entry = Some(0);
    match sc.begin(&s, &keys) {
        Progress::Failed(e) => assert_eq!(e.message(), "sign-witness-proof: invalid entry/versionId"),
        _ => panic!(),
    }
    create_by_hand(&mut sc, &keys);
    assert!(matches!(sc.begin(&s, &keys), Progress::Need(_)));
    match sc.resume(Reply::SignFailed(t("offline")), &keys) {
        Progress::Failed(e) => assert_eq!(e.message(), "sign witness proof: offline"),
        _ => panic!(),
    }
    assert!(sc.witness_entries().is_empty());
}

#[test]
fn resolve_records_the_expected_error() {
    let keys = registry();
    let mut sc = Scenario::new();
    assert!(sc.resolution_result().is_none());
    let mut s = step("resolve-did");
    s.did = Some(t("did:webvh:Qm0:127%2E0%2E0%2E1"));
    s.expect_error = Some(t("invalidDid"));
    assert!(matches!(sc.begin(&s, &keys), Progress::Done));
    assert_eq!(st(sc.expect_error().unwrap()), "invalidDid");
    assert_eq!(
        text_of(&sc.resolution_result().unwrap()),
        "{\"didDocument\":null,\"didDocumentMetadata\":{},\"didResolutionMetadata\":{\"error\":\"invalidDid\"}}"
    );
    let r = step("resolve");
    assert!(matches!(sc.begin(&r, &keys), Progress::Done));
    assert!(sc.expect_error().is_none());
    assert!(sc.log().is_empty());
}

#[test]
fn unknown_operations_are_ignored() {
    let keys = registry();
    let mut sc = Scenario::new();
    create_by_hand(&mut sc, &keys);
    let before = text_of(&sc.log()[0]);
    assert!(matches!(sc.begin(&step("replay-witness-proof"), &keys), Progress::Done));
    assert_eq!(sc.log().len(), 1);
    assert_eq!(text_of(&sc.log()[0]), before);
}

#[test]
fn create_starts_the_log_over() {
    let keys = registry();
    let mut sc = Scenario::new();
    create_by_hand(&mut sc, &keys);
    let mut w = step("sign-witness-proof");
    w.signer = Some(t("key-2"));
    w.entry = Some(0);
    assert!(matches!(sc.begin(&w, &keys), Progress::Need(_)));
    assert!(matches!(sc.resume(Reply::Signed(proof_object("w")), &keys), Progress::Done));
    assert_eq!(sc.witness_entries().len(), 1);
    create_by_hand(&mut sc, &keys);
    assert_eq!(sc.log().len(), 1);
    assert!(sc.witness_entries().is_empty());
}

#[test]
fn mutations_of_null_entries() {
    let out = ok(mutate(Json::Null, "replace-version-time", None, Some(jstr("t"))));
    assert_eq!(text_of(&out), "{\"versionTime\":\"t\"}");
    let out = ok(mutate(Json::Null, "replace-parameter", Some("a"), Some(Json::Bool(false))));
    assert_eq!(text_of(&out), "{\"parameters\":{\"a\":false}}");
    let out = ok(mutate(Json::Null, "drop-parameter", Some("a"), None));
    assert_eq!(text_of(&out), "{\"parameters\":null}");
    let e = err(mutate(Json::Bool(true), "replace-state-id-scid", None, Some(jstr("x"))));
    assert_eq!(e.message(), "replace-state-id-scid: missing state.id");
    let e = err(mutate(Json::Null, "replace-proof-field", Some("a"), None));
    assert_eq!(e.message(), "replace-proof-field: missing proof[0]");
}
