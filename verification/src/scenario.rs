//! Running a scenario script, step by step. The scenario is a machine: each
//! step either completes at once or asks its driver for work that waits on
//! the did:webvh library or on a data-integrity signature, and the driver's
//! answer resumes it.
use vstd::prelude::*;
use crate::document::{build_document, document, merge_doc_with_params, merged_document};
use crate::digest::jcs_canonical;
use crate::entries::{
    genesis_hashable, attach_proof, error_result, expected_error_result, genesis_entry, genesis_initial, get_version_id, hashed_entry, placeholder_did, prepare_genesis_entry,
    prepare_resign, prepare_update_entry, resign_unsigned, scid_holder, update_unsigned, version_id_of, with_proof,
};
use crate::error::{GenError, GenErrorV, ProofPurpose, UpdateOp};
use crate::json::{
    json_text, as_str, get, items_view, lemma_array_view, lemma_object_view, members_view, opt_text, opt_view, texts_view, Json,
    JsonV,
};
use crate::keys::{find_key, KeyInfo, KeyRegistry, KeyView};
use crate::mutations::{apply_mutation, entry_ok, lemma_entry_ok_accepts, lemma_entry_ok_with_proof, mutated};
use crate::parameters::{build_parameters, parameter_plan, ParameterPlan, PlanV};
use crate::script::{step_params, Step, StepParams, StepParamsV, StepV};
use crate::text::{concat, copy_text, copy_texts, join_on, join_text, text, text_is};

verus! {

broadcast use vstd::std_specs::vec::group_vec_axioms;

// ---------------------------------------------------------------------------
// Signers, requests and replies
// ---------------------------------------------------------------------------

/// The verification method a `did:key` signer's proofs name: `did:key:pm#pm`.
pub open spec fn method_id(pm: Seq<char>) -> Seq<char> {
    "did:key:"@ + pm + "#"@ + pm
}

/// The key a signature is made with: its ed25519 seed and the verification
/// method its proofs name.
pub struct Signer {
    pub seed: Vec<u8>,
    pub key_id: Vec<char>,
}

/// The view of a signer.
pub struct SignerV {
    pub seed: Seq<u8>,
    pub key_id: Seq<char>,
}

impl View for Signer {
    type V = SignerV;

    open spec fn view(&self) -> SignerV {
        SignerV { seed: self.seed@, key_id: self.key_id@ }
    }
}

/// The signer of a registered key.
pub open spec fn signer_of(k: KeyView) -> SignerV {
    SignerV { seed: k.seed, key_id: method_id(k.pub_multibase) }
}

/// The signer of a registered key, its verification method `did:key:pm#pm`.
pub fn make_signer(k: &KeyInfo) -> (r: Signer)
    ensures
        r@ == signer_of(k.kv()),
{
    let copy = k.duplicate();
    let mut id = concat(text("did:key:").as_slice(), k.pub_multibase.as_slice());
    id = concat(id.as_slice(), text("#").as_slice());
    id = concat(id.as_slice(), k.pub_multibase.as_slice());
    Signer { seed: copy.seed, key_id: id }
}

/// The work a step waits on.
pub enum Request {
    /// Create a log with the did:webvh library: its genesis entry, for the
    /// document and parameters given, signed by the signer.
    Create { version_time: Option<Vec<char>>, document: Json, parameters: ParameterPlan, signer: Signer },
    /// A data-integrity proof of the document by the signer.
    Sign { document: Json, signer: Signer },
}

/// The view of a request.
pub enum RequestV {
    Create { version_time: Option<Seq<char>>, document: JsonV, parameters: PlanV, signer: SignerV },
    Sign { document: JsonV, signer: SignerV },
}

impl View for Request {
    type V = RequestV;

    open spec fn view(&self) -> RequestV {
        match self {
            Request::Create { version_time, document, parameters, signer } => RequestV::Create {
                version_time: opt_text(*version_time),
                document: document@,
                parameters: parameters@,
                signer: signer@,
            },
            Request::Sign { document, signer } => RequestV::Sign { document: document@, signer: signer@ },
        }
    }
}

/// The driver's answer to a request.
pub enum Reply {
    /// The genesis entry the library created.
    Created(Json),
    /// The library refused to create the log.
    CreateFailed,
    /// The proof that was made.
    Signed(Json),
    /// Signing failed, for the reason given.
    SignFailed(Vec<char>),
}

/// The view of a reply.
pub enum ReplyV {
    Created(JsonV),
    CreateFailed,
    Signed(JsonV),
    SignFailed(Seq<char>),
}

impl View for Reply {
    type V = ReplyV;

    open spec fn view(&self) -> ReplyV {
        match self {
            Reply::Created(e) => ReplyV::Created(e@),
            Reply::CreateFailed => ReplyV::CreateFailed,
            Reply::Signed(p) => ReplyV::Signed(p@),
            Reply::SignFailed(d) => ReplyV::SignFailed(d@),
        }
    }
}

/// Where a step stands: waiting on work, finished, or failed.
pub enum Progress {
    Need(Request),
    Done,
    Failed(GenError),
}

/// The view of a step's progress.
pub enum ProgressV {
    Need(RequestV),
    Done,
    Failed(GenErrorV),
}

impl View for Progress {
    type V = ProgressV;

    open spec fn view(&self) -> ProgressV {
        match self {
            Progress::Need(r) => ProgressV::Need(r@),
            Progress::Done => ProgressV::Done,
            Progress::Failed(e) => ProgressV::Failed(e@),
        }
    }
}

// ---------------------------------------------------------------------------
// The scenario and its view
// ---------------------------------------------------------------------------

/// The work a scenario waits on, with what it needs to go on.
pub enum Pending {
    Idle,
    /// A log creation by the library; the step's data, for the genesis entry
    /// built by hand should the library refuse.
    Create { domain: Vec<char>, timestamp: Option<Vec<char>>, params: StepParams, signer: KeyInfo },
    /// The proof of a genesis entry built by hand.
    Genesis { entry: Json },
    /// The proof of an update entry.
    Update { entry: Json, op: UpdateOp },
    /// The proof of a corrupted entry being re-signed.
    Resign { entry: Json, index: usize },
    /// A witness proof of a version.
    Witness { version_id: Vec<char> },
}

/// The view of pending work.
pub enum PendingV {
    Idle,
    Create { domain: Seq<char>, timestamp: Option<Seq<char>>, params: StepParamsV, signer: KeyView },
    Genesis { entry: JsonV },
    Update { entry: JsonV, op: UpdateOp },
    Resign { entry: JsonV, index: int },
    Witness { version_id: Seq<char> },
}

/// The view of pending work.
pub open spec fn pending_view(p: Pending) -> PendingV {
    match p {
        Pending::Idle => PendingV::Idle,
        Pending::Create { domain, timestamp, params, signer } => PendingV::Create {
            domain: domain@,
            timestamp: opt_text(timestamp),
            params: params@,
            signer: signer.kv(),
        },
        Pending::Genesis { entry } => PendingV::Genesis { entry: entry@ },
        Pending::Update { entry, op } => PendingV::Update { entry: entry@, op },
        Pending::Resign { entry, index } => PendingV::Resign { entry: entry@, index: index as int },
        Pending::Witness { version_id } => PendingV::Witness { version_id: version_id@ },
    }
}

/// A scenario being run: the log so far, the witness proofs, the error the
/// resolution is expected to report, the current DID, update keys and
/// document, and the work it waits on.
pub struct Scenario {
    log: Vec<Json>,
    witness_entries: Vec<Json>,
    expect_error: Option<Vec<char>>,
    current_did: Option<Vec<char>>,
    current_update_key_ids: Vec<Vec<char>>,
    current_doc_state: Option<Json>,
    pending: Pending,
}

/// The view of a scenario.
pub struct ScenarioV {
    pub log: Seq<JsonV>,
    pub witness_entries: Seq<JsonV>,
    pub expect_error: Option<Seq<char>>,
    pub current_did: Option<Seq<char>>,
    pub current_update_key_ids: Seq<Seq<char>>,
    pub current_doc_state: Option<JsonV>,
    pub pending: PendingV,
}

impl View for Scenario {
    type V = ScenarioV;

    closed spec fn view(&self) -> ScenarioV {
        ScenarioV {
            log: items_view(self.log@),
            witness_entries: items_view(self.witness_entries@),
            expect_error: opt_text(self.expect_error),
            current_did: opt_text(self.current_did),
            current_update_key_ids: texts_view(self.current_update_key_ids@),
            current_doc_state: opt_view(self.current_doc_state),
            pending: pending_view(self.pending),
        }
    }
}

/// A consistent scenario: every log entry is one the mutations accept; once
/// the log has an entry there are current update keys; pending entries are
/// objects, and a re-signed entry is one of the log.
pub open spec fn scenario_ok(s: ScenarioV) -> bool {
    &&& forall|i: int| 0 <= i < s.log.len() ==> #[trigger] entry_ok(s.log[i])
    &&& s.log.len() > 0 ==> s.current_update_key_ids.len() > 0
    &&& match s.pending {
        PendingV::Idle => true,
        PendingV::Create { .. } => s.current_update_key_ids.len() > 0,
        PendingV::Genesis { entry } => entry is Object && s.current_update_key_ids.len() > 0,
        PendingV::Update { entry, .. } => entry is Object && s.current_update_key_ids.len() > 0,
        PendingV::Resign { entry, index } => entry is Object && 0 <= index < s.log.len(),
        PendingV::Witness { .. } => true,
    }
}

/// A scenario that has run no step.
pub open spec fn fresh() -> ScenarioV {
    ScenarioV {
        log: Seq::empty(),
        witness_entries: Seq::empty(),
        expect_error: None,
        current_did: None,
        current_update_key_ids: Seq::empty(),
        current_doc_state: None,
        pending: PendingV::Idle,
    }
}

// ---------------------------------------------------------------------------
// What a step does
// ---------------------------------------------------------------------------

/// What a step does: the scenario after it and its progress, as they are
/// when every hash it takes succeeds, and whether the canonicalizer refuses
/// a text the step hashes (then the step fails with a canonicalization error
/// instead, and asks nothing).
pub struct Outcome {
    pub state: ScenarioV,
    pub progress: ProgressV,
    pub hash_fails: bool,
}

/// The scenario waiting on nothing.
pub open spec fn idle(s: ScenarioV) -> ScenarioV {
    ScenarioV { pending: PendingV::Idle, ..s }
}

/// A step that fails.
pub open spec fn fail(s: ScenarioV, e: GenErrorV) -> Outcome {
    Outcome { state: idle(s), progress: ProgressV::Failed(e), hash_fails: false }
}

/// A step that is finished.
pub open spec fn done(s: ScenarioV) -> Outcome {
    Outcome { state: idle(s), progress: ProgressV::Done, hash_fails: false }
}

/// A step that asks for work and waits on it; `hash_fails` tells whether
/// hashing the document it asks to sign is refused.
pub open spec fn ask(s: ScenarioV, p: PendingV, r: RequestV, hash_fails: bool) -> Outcome {
    Outcome { state: ScenarioV { pending: p, ..s }, progress: ProgressV::Need(r), hash_fails }
}

/// The scenario and progress a call leaves are those of the outcome; when
/// the canonicalizer refuses a text the step hashes, the step fails with a
/// canonicalization error instead, with nothing asked.
pub open spec fn settles(state: ScenarioV, progress: ProgressV, o: Outcome) -> bool {
    if o.hash_fails {
        progress matches ProgressV::Failed(GenErrorV::Canonicalize { .. }) && state == idle(o.state)
    } else {
        state == o.state && progress == o.progress
    }
}

/// The `id` of an entry's document, when it is a string.
pub open spec fn state_id(e: JsonV) -> Option<Seq<char>> {
    match get(e, "state"@) {
        Some(st) => match get(st, "id"@) {
            Some(x) => as_str(x),
            None => None,
        },
        None => None,
    }
}

/// The scenario with an entry appended to its log: the current DID becomes
/// the one given and the current document the entry's.
pub open spec fn appended(s: ScenarioV, e: JsonV, did: Option<Seq<char>>) -> ScenarioV {
    ScenarioV { log: s.log.push(e), current_did: did, current_doc_state: get(e, "state"@), pending: PendingV::Idle, ..s }
}

/// The document a witness signs: `{"versionId": vid}`.
pub open spec fn version_doc(vid: Seq<char>) -> JsonV {
    JsonV::Object(seq![("versionId"@, JsonV::Str(vid))])
}

/// A witness entry: `{"versionId": vid, "proof": [proof]}`.
pub open spec fn witness_record(vid: Seq<char>, pf: JsonV) -> JsonV {
    JsonV::Object(seq![("versionId"@, JsonV::Str(vid)), ("proof"@, JsonV::Array(seq![pf]))])
}

/// The genesis entry built by hand, to be signed:
/// it needs a timestamp.
pub open spec fn genesis_spec(s: ScenarioV, domain: Seq<char>, ts: Option<Seq<char>>, params: StepParamsV, signer: KeyView, keys: Seq<KeyView>) -> Outcome {
    match ts {
        None => fail(s, GenErrorV::CreateNeedsTimestamp),
        Some(t) => match genesis_initial(domain, t, params, signer.pub_multibase, keys) {
            Err(e) => fail(s, e),
            Ok(init) => ask(
                s,
                PendingV::Genesis { entry: genesis_entry(init) },
                RequestV::Sign { document: genesis_entry(init), signer: signer_of(signer) },
                !genesis_hashable(init),
            ),
        },
    }
}

/// The `create` step: a domain and a registered signer are needed. The log
/// starts over; the current update keys become the step's, or the signer's
/// when it names none. When every key the parameters name is registered, the
/// library is asked to create the log; else the genesis entry is built by hand.
pub open spec fn create_spec(s: ScenarioV, step: StepV, keys: Seq<KeyView>) -> Outcome {
    match step.domain {
        None => fail(s, GenErrorV::CreateMissingDomain),
        Some(domain) => match step.signer {
            None => fail(s, GenErrorV::CreateMissingSigner),
            Some(sid) => match find_key(keys, sid) {
                None => fail(s, GenErrorV::UnknownSigner { id: sid }),
                Some(signer) => {
                    let params = step_params(step);
                    let s1 = ScenarioV {
                        log: Seq::empty(),
                        witness_entries: Seq::empty(),
                        current_update_key_ids: if params.update_keys.len() == 0 {
                            seq![sid]
                        } else {
                            params.update_keys
                        },
                        ..s
                    };
                    match parameter_plan(params, keys) {
                        Ok(plan) => ask(
                            s1,
                            PendingV::Create { domain, timestamp: step.timestamp, params, signer },
                            RequestV::Create {
                                version_time: step.timestamp,
                                document: document(placeholder_did(domain), params, keys),
                                parameters: plan,
                                signer: signer_of(signer),
                            },
                            false,
                        ),
                        Err(_) => genesis_spec(s1, domain, step.timestamp, params, signer, keys),
                    }
                },
            },
        },
    }
}

/// The current update keys after an update step: the step's, or the current
/// ones when it names none.
pub open spec fn next_update_key_ids(s: ScenarioV, params: StepParamsV) -> Seq<Seq<char>> {
    if params.update_keys.len() > 0 {
        params.update_keys
    } else {
        s.current_update_key_ids
    }
}

/// The `update` and `migrate` steps: a registered signer, a current DID, a
/// timestamp and a previous entry are needed. The document is the current
/// one merged with the step's parameters (a new one when there is none); the
/// update entry built by hand is to be signed. `migrate` keeps the DID.
pub open spec fn update_spec(s: ScenarioV, step: StepV, keys: Seq<KeyView>, op: UpdateOp) -> Outcome {
    match step.signer {
        None => fail(s, GenErrorV::MissingSigner { op }),
        Some(sid) => match find_key(keys, sid) {
            None => fail(s, GenErrorV::UnknownSigner { id: sid }),
            Some(signer) => {
                let params = step_params(step);
                let s1 = ScenarioV { current_update_key_ids: next_update_key_ids(s, params), ..s };
                match s.current_did {
                    None => fail(if op == UpdateOp::Update { s1 } else { s }, GenErrorV::MissingCurrentDid { op }),
                    Some(did) => {
                        let doc = match s.current_doc_state {
                            Some(base) => merged_document(base, did, params, keys),
                            None => document(did, params, keys),
                        };
                        match step.timestamp {
                            None => fail(s1, GenErrorV::MissingTimestamp { op }),
                            Some(ts) => if s.log.len() == 0 {
                                fail(s1, GenErrorV::MissingPreviousEntry { op })
                            } else {
                                match update_unsigned(s.log.last(), ts, params, s1.current_update_key_ids, doc, keys) {
                                    Err(e) => fail(s1, e),
                                    Ok((u, n)) => ask(
                                        s1,
                                        PendingV::Update { entry: hashed_entry(u, n), op },
                                        RequestV::Sign { document: hashed_entry(u, n), signer: signer_of(signer) },
                                        jcs_canonical(json_text(u)) is None,
                                    ),
                                }
                            },
                        }
                    },
                }
            },
        },
    }
}

/// The identifier of the key a corrupted entry is re-signed with: the first
/// current update key, else the first registered key.
pub open spec fn corrupt_signer_id(ids: Seq<Seq<char>>, keys: Seq<KeyView>) -> Option<Seq<char>> {
    if ids.len() > 0 {
        Some(ids[0])
    } else if keys.len() > 0 {
        Some(keys[0].id)
    } else {
        None
    }
}

/// The largest index of a log of `len` entries (0 for an empty log).
pub open spec fn last_index(len: nat) -> usize {
    if len == 0 { 0 } else { (len - 1) as usize }
}

/// The `corrupt` step: an entry of the log, a mutation and a moment are
/// needed. The entry is mutated; `before-sign` has it re-signed (re-hashed,
/// then signed), any other moment puts the mutated entry in its place.
pub open spec fn corrupt_spec(s: ScenarioV, step: StepV, keys: Seq<KeyView>) -> Outcome {
    match step.entry {
        None => fail(s, GenErrorV::CorruptMissingEntry),
        Some(idx) => if idx >= s.log.len() {
            fail(s, GenErrorV::CorruptOutOfRange { entry: idx, last: last_index(s.log.len()) })
        } else {
            match step.mutation {
                None => fail(s, GenErrorV::CorruptMissingMutation),
                Some(m) => match step.when {
                    None => fail(s, GenErrorV::CorruptMissingWhen),
                    Some(w) => match mutated(s.log[idx as int], m, step.field, step.value, keys) {
                        Err(e) => fail(s, e),
                        Ok(x) => if w == "before-sign"@ {
                            match corrupt_signer_id(s.current_update_key_ids, keys) {
                                None => fail(s, GenErrorV::CorruptNoKeys),
                                Some(sid) => match find_key(keys, sid) {
                                    None => fail(s, GenErrorV::CorruptSignerNotFound { id: sid }),
                                    Some(signer) => match resign_unsigned(x, idx as int, s.log) {
                                        Err(e) => fail(s, e),
                                        Ok((u, n)) => ask(
                                            s,
                                            PendingV::Resign { entry: hashed_entry(u, n), index: idx as int },
                                            RequestV::Sign { document: hashed_entry(u, n), signer: signer_of(signer) },
                                            jcs_canonical(json_text(u)) is None,
                                        ),
                                    },
                                },
                            }
                        } else {
                            done(ScenarioV { log: s.log.update(idx as int, x), ..s })
                        },
                    },
                },
            }
        },
    }
}

/// The `sign-witness-proof` step: a registered signer and an entry of the log
/// with a version identifier are needed; the witness signs that version.
pub open spec fn witness_spec(s: ScenarioV, step: StepV, keys: Seq<KeyView>) -> Outcome {
    match step.signer {
        None => fail(s, GenErrorV::WitnessMissingSigner),
        Some(sid) => match find_key(keys, sid) {
            None => fail(s, GenErrorV::UnknownWitnessSigner { id: sid }),
            Some(signer) => match step.entry {
                None => fail(s, GenErrorV::WitnessMissingEntry),
                Some(idx) => match (if idx < s.log.len() { version_id_of(s.log[idx as int]) } else { None }) {
                    None => fail(s, GenErrorV::WitnessInvalidEntry),
                    Some(vid) => ask(
                        s,
                        PendingV::Witness { version_id: vid },
                        RequestV::Sign { document: version_doc(vid), signer: signer_of(signer) },
                        false,
                    ),
                },
            },
        },
    }
}

/// What a step does, by its operation. `resolve` and `resolve-did` record
/// the error the resolution is expected to report; other operations are
/// ignored.
pub open spec fn begin_spec(s: ScenarioV, step: StepV, keys: Seq<KeyView>) -> Outcome {
    if step.op == "create"@ {
        create_spec(s, step, keys)
    } else if step.op == "update"@ {
        update_spec(s, step, keys, UpdateOp::Update)
    } else if step.op == "migrate"@ {
        update_spec(s, step, keys, UpdateOp::Migrate)
    } else if step.op == "corrupt"@ {
        corrupt_spec(s, step, keys)
    } else if step.op == "sign-witness-proof"@ {
        witness_spec(s, step, keys)
    } else if step.op == "resolve"@ || step.op == "resolve-did"@ {
        done(ScenarioV { expect_error: step.expect_error, ..s })
    } else {
        done(s)
    }
}

/// The reason a failed signature gives (empty for other replies).
pub open spec fn sign_failure(r: ReplyV) -> Seq<char> {
    match r {
        ReplyV::SignFailed(d) => d,
        _ => Seq::empty(),
    }
}

/// The replies the pending work takes: the library's entry (one the
/// mutations accept) or its refusal for a creation; a proof (an object) or a
/// failure for a signature.
pub open spec fn reply_fits(p: PendingV, r: ReplyV) -> bool {
    match p {
        PendingV::Idle => false,
        PendingV::Create { .. } => (r matches ReplyV::Created(e) && entry_ok(e)) || r is CreateFailed,
        _ => (r matches ReplyV::Signed(pf) && pf is Object) || r is SignFailed,
    }
}

/// What a reply does to the scenario waiting on it. A created entry is
/// appended; a refused creation falls back to the genesis entry built by
/// hand. A proof completes the entry waiting on it, which is appended (its
/// DID and document become current), put in place of the corrupted one, or
/// recorded as a witness proof; a failed signature fails the step, with the
/// reason the signer gave.
pub open spec fn resume_spec(s: ScenarioV, r: ReplyV, keys: Seq<KeyView>) -> Outcome {
    match s.pending {
        PendingV::Idle => done(s),
        PendingV::Create { domain, timestamp, params, signer } => match r {
            ReplyV::Created(e) => done(appended(s, e, state_id(e))),
            _ => genesis_spec(idle(s), domain, timestamp, params, signer, keys),
        },
        PendingV::Genesis { entry } => match r {
            ReplyV::Signed(pf) => done(appended(s, with_proof(entry, pf), state_id(with_proof(entry, pf)))),
            _ => fail(s, GenErrorV::SignProof { purpose: ProofPurpose::Genesis, detail: sign_failure(r) }),
        },
        PendingV::Update { entry, op } => match r {
            ReplyV::Signed(pf) => {
                let e = with_proof(entry, pf);
                let did = if op == UpdateOp::Update {
                    match state_id(e) {
                        Some(d) => Some(d),
                        None => s.current_did,
                    }
                } else {
                    s.current_did
                };
                done(appended(s, e, did))
            },
            _ => fail(s, GenErrorV::SignProof { purpose: ProofPurpose::Update, detail: sign_failure(r) }),
        },
        PendingV::Resign { entry, index } => match r {
            ReplyV::Signed(pf) => done(ScenarioV { log: s.log.update(index, with_proof(entry, pf)), ..s }),
            _ => fail(s, GenErrorV::SignProof { purpose: ProofPurpose::Resign, detail: sign_failure(r) }),
        },
        PendingV::Witness { version_id } => match r {
            ReplyV::Signed(pf) => done(ScenarioV { witness_entries: s.witness_entries.push(witness_record(version_id, pf)), ..s }),
            _ => fail(s, GenErrorV::SignProof { purpose: ProofPurpose::Witness, detail: sign_failure(r) }),
        },
    }
}

/// The text of a JSON Lines file: each line followed by a newline; empty
/// when there is no line.
pub open spec fn jsonl(lines: Seq<Seq<char>>) -> Seq<char> {
    if lines.len() == 0 {
        Seq::empty()
    } else {
        join_on(lines, '\n') + seq!['\n']
    }
}

/// The text of `did.jsonl` from the JSON text of each log entry.
pub fn did_jsonl(lines: &Vec<Vec<char>>) -> (r: Vec<char>)
    ensures
        r@ == jsonl(texts_view(lines@)),
{
    if lines.len() == 0 {
        return Vec::new();
    }
    let mut r = join_text(lines, '\n');
    assert(lines@.map_values(|p: Vec<char>| p@) =~= texts_view(lines@));
    r.push('\n');
    r
}

// ---------------------------------------------------------------------------
// The machine
// ---------------------------------------------------------------------------

/// A copy of an optional text.
fn copy_opt_text(o: &Option<Vec<char>>) -> (r: Option<Vec<char>>)
    ensures
        opt_text(r) == opt_text(*o),
{
    match o {
        Some(t) => Some(copy_text(t.as_slice())),
        None => None,
    }
}

/// The `id` of an entry's document, when it is a string.
fn get_state_id(e: &Json) -> (r: Option<Vec<char>>)
    ensures
        opt_text(r) == state_id(e@),
{
    match e.get(text("state").as_slice()) {
        Some(st) => match st.get(text("id").as_slice()) {
            Some(x) => match x.as_text() {
                Some(t) => Some(copy_text(t.as_slice())),
                None => None,
            },
            None => None,
        },
        None => None,
    }
}

/// A copy of an entry's document.
fn get_state(e: &Json) -> (r: Option<Json>)
    ensures
        opt_view(r) == get(e@, "state"@),
{
    match e.get(text("state").as_slice()) {
        Some(st) => Some(st.deep_clone()),
        None => None,
    }
}

impl Scenario {
    /// Whether the scenario is consistent.
    pub open spec fn wf(&self) -> bool {
        scenario_ok(self@)
    }

    /// A scenario that has run no step.
    pub fn new() -> (r: Scenario)
        ensures
            r@ == fresh(),
            r.wf(),
    {
        let r = Scenario {
            log: Vec::new(),
            witness_entries: Vec::new(),
            expect_error: None,
            current_did: None,
            current_update_key_ids: Vec::new(),
            current_doc_state: None,
            pending: Pending::Idle,
        };
        assert(items_view(r.log@) =~= Seq::<JsonV>::empty());
        assert(texts_view(r.current_update_key_ids@) =~= Seq::<Seq<char>>::empty());
        r
    }

    /// The log entries, in order.
    pub fn log(&self) -> (r: &Vec<Json>)
        ensures
            items_view(r@) == self@.log,
    {
        &self.log
    }

    /// The witness proofs, in order.
    pub fn witness_entries(&self) -> (r: &Vec<Json>)
        ensures
            items_view(r@) == self@.witness_entries,
    {
        &self.witness_entries
    }

    /// The error the resolution is expected to report, when a step gave one.
    pub fn expect_error(&self) -> (r: Option<&Vec<char>>)
        ensures
            match r {
                Some(t) => self@.expect_error == Some(t@),
                None => self@.expect_error is None,
            },
    {
        match &self.expect_error {
            Some(t) => Some(t),
            None => None,
        }
    }

    /// The genesis entry built by hand, asked to be signed.
    fn genesis_fallback(&mut self, domain: &[char], ts: &Option<Vec<char>>, params: &StepParams, signer: &KeyInfo, keys: &KeyRegistry) -> (p: Progress)
        requires
            old(self).wf(),
            old(self)@.pending is Idle,
            old(self)@.current_update_key_ids.len() > 0,
        ensures
            final(self).wf(),
            settles(final(self)@, p@, genesis_spec(old(self)@, domain@, opt_text(*ts), params@, signer.kv(), keys.keys())),
    {
        let t = match ts {
            Some(t) => t,
            None => return Progress::Failed(GenError::CreateNeedsTimestamp),
        };
        match prepare_genesis_entry(domain, t.as_slice(), params, signer.pub_multibase.as_slice(), keys) {
            Ok(e) => {
                let document = e.deep_clone();
                self.pending = Pending::Genesis { entry: e };
                Progress::Need(Request::Sign { document, signer: make_signer(signer) })
            },
            Err(err) => Progress::Failed(err),
        }
    }

    /// The `create` step.
    fn begin_create(&mut self, step: &Step, keys: &KeyRegistry) -> (p: Progress)
        requires
            old(self).wf(),
            old(self)@.pending is Idle,
        ensures
            final(self).wf(),
            settles(final(self)@, p@, create_spec(old(self)@, step@, keys.keys())),
    {
        let domain = match &step.domain {
            Some(d) => d,
            None => return Progress::Failed(GenError::CreateMissingDomain),
        };
        let sid = match &step.signer {
            Some(s) => s,
            None => return Progress::Failed(GenError::CreateMissingSigner),
        };
        let signer = match keys.lookup(sid.as_slice()) {
            Some(k) => k,
            None => return Progress::Failed(GenError::UnknownSigner { id: copy_text(sid.as_slice()) }),
        };
        let params = match &step.params {
            Some(p) => p.duplicate(),
            None => StepParams::empty(),
        };
        assert(params@ == step_params(step@));
        if params.update_keys.len() == 0 {
            let mut ids: Vec<Vec<char>> = Vec::new();
            ids.push(copy_text(sid.as_slice()));
            self.current_update_key_ids = ids;
            assert(texts_view(self.current_update_key_ids@) =~= seq![sid@]);
        } else {
            self.current_update_key_ids = copy_texts(&params.update_keys);
            assert(texts_view(self.current_update_key_ids@) =~= params@.update_keys);
        }
        self.log = Vec::new();
        self.witness_entries = Vec::new();
        assert(items_view(self.log@) =~= Seq::<JsonV>::empty());
        assert(items_view(self.witness_entries@) =~= Seq::<JsonV>::empty());
        match build_parameters(&params, keys) {
            Ok(plan) => {
                let mut did = text("did:webvh:");
                did = concat(did.as_slice(), text("{SCID}").as_slice());
                did.push(':');
                did = concat(did.as_slice(), domain.as_slice());
                proof {
                    reveal_strlit("{SCID}");
                    assert("{SCID}"@ =~= scid_holder());
                    assert(did@ =~= placeholder_did(domain@));
                }
                let document = build_document(did.as_slice(), &params, keys);
                let request = Request::Create {
                    version_time: copy_opt_text(&step.timestamp),
                    document,
                    parameters: plan,
                    signer: make_signer(signer),
                };
                self.pending = Pending::Create {
                    domain: copy_text(domain.as_slice()),
                    timestamp: copy_opt_text(&step.timestamp),
                    params,
                    signer: signer.duplicate(),
                };
                Progress::Need(request)
            },
            Err(_) => self.genesis_fallback(domain.as_slice(), &step.timestamp, &params, signer, keys),
        }
    }

    /// The `update` and `migrate` steps.
    fn begin_update(&mut self, step: &Step, keys: &KeyRegistry, op: UpdateOp) -> (p: Progress)
        requires
            old(self).wf(),
            old(self)@.pending is Idle,
        ensures
            final(self).wf(),
            settles(final(self)@, p@, update_spec(old(self)@, step@, keys.keys(), op)),
    {
        let sid = match &step.signer {
            Some(s) => s,
            None => return Progress::Failed(GenError::MissingSigner { op }),
        };
        let signer = match keys.lookup(sid.as_slice()) {
            Some(k) => k,
            None => return Progress::Failed(GenError::UnknownSigner { id: copy_text(sid.as_slice()) }),
        };
        let none = StepParams::empty();
        let params: &StepParams = match &step.params {
            Some(p) => p,
            None => &none,
        };
        assert(params@ == step_params(step@));
        let new_ids = if params.update_keys.len() > 0 {
            let ids = copy_texts(&params.update_keys);
            assert(texts_view(ids@) =~= params@.update_keys);
            Some(ids)
        } else {
            None
        };
        if op == UpdateOp::Update {
            match new_ids {
                Some(ids) => {
                    self.current_update_key_ids = ids;
                },
                None => {},
            }
            let did = match &self.current_did {
                Some(d) => copy_text(d.as_slice()),
                None => return Progress::Failed(GenError::MissingCurrentDid { op }),
            };
            self.finish_update(step, keys, op, params, signer, did)
        } else {
            let did = match &self.current_did {
                Some(d) => copy_text(d.as_slice()),
                None => return Progress::Failed(GenError::MissingCurrentDid { op }),
            };
            match new_ids {
                Some(ids) => {
                    self.current_update_key_ids = ids;
                },
                None => {},
            }
            self.finish_update(step, keys, op, params, signer, did)
        }
    }

    /// The rest of an update step, once the current update keys are set and
    /// the DID is known.
    fn finish_update(&mut self, step: &Step, keys: &KeyRegistry, op: UpdateOp, params: &StepParams, signer: &KeyInfo, did: Vec<char>) -> (p: Progress)
        requires
            scenario_ok(old(self)@),
            old(self)@.pending is Idle,
            old(self)@.current_did == Some(did@),
            params@.update_keys.len() > 0 ==> old(self)@.current_update_key_ids == params@.update_keys,
        ensures
            final(self).wf(),
            ({
                let s = old(self)@;
                let doc = match s.current_doc_state {
                    Some(base) => merged_document(base, did@, params@, keys.keys()),
                    None => document(did@, params@, keys.keys()),
                };
                settles(final(self)@, p@, match step@.timestamp {
                    None => fail(s, GenErrorV::MissingTimestamp { op }),
                    Some(ts) => if s.log.len() == 0 {
                        fail(s, GenErrorV::MissingPreviousEntry { op })
                    } else {
                        match update_unsigned(s.log.last(), ts, params@, s.current_update_key_ids, doc, keys.keys()) {
                            Err(e) => fail(s, e),
                            Ok((u, n)) => ask(
                                s,
                                PendingV::Update { entry: hashed_entry(u, n), op },
                                RequestV::Sign { document: hashed_entry(u, n), signer: signer_of(signer.kv()) },
                                jcs_canonical(json_text(u)) is None,
                            ),
                        }
                    },
                })
            }),
    {
        let doc = match &self.current_doc_state {
            Some(base) => merge_doc_with_params(base, did.as_slice(), params, keys),
            None => build_document(did.as_slice(), params, keys),
        };
        let ts = match &step.timestamp {
            Some(t) => t,
            None => return Progress::Failed(GenError::MissingTimestamp { op }),
        };
        if self.log.len() == 0 {
            return Progress::Failed(GenError::MissingPreviousEntry { op });
        }
        let last = self.log.len() - 1;
        assert(self@.log.last() == self.log@[last as int]@);
        match prepare_update_entry(&self.log[last], ts.as_slice(), params, &self.current_update_key_ids, doc, keys) {
            Ok(e) => {
                let document = e.deep_clone();
                self.pending = Pending::Update { entry: e, op };
                Progress::Need(Request::Sign { document, signer: make_signer(signer) })
            },
            Err(err) => Progress::Failed(err),
        }
    }

    /// The `corrupt` step.
    fn begin_corrupt(&mut self, step: &Step, keys: &KeyRegistry) -> (p: Progress)
        requires
            old(self).wf(),
            old(self)@.pending is Idle,
        ensures
            final(self).wf(),
            settles(final(self)@, p@, corrupt_spec(old(self)@, step@, keys.keys())),
    {
        let idx = match step.entry {
            Some(i) => i,
            None => return Progress::Failed(GenError::CorruptMissingEntry),
        };
        if idx >= self.log.len() {
            let last = if self.log.len() == 0 { 0 } else { self.log.len() - 1 };
            return Progress::Failed(GenError::CorruptOutOfRange { entry: idx, last });
        }
        let m = match &step.mutation {
            Some(m) => m,
            None => return Progress::Failed(GenError::CorruptMissingMutation),
        };
        let w = match &step.when {
            Some(w) => w,
            None => return Progress::Failed(GenError::CorruptMissingWhen),
        };
        let field: Option<&Vec<char>> = match &step.field {
            Some(f) => Some(f),
            None => None,
        };
        let value: Option<&Json> = match &step.value {
            Some(v) => Some(v),
            None => None,
        };
        assert(self@.log[idx as int] == self.log@[idx as int]@);
        proof {
            lemma_entry_ok_accepts(self@.log[idx as int], m@, opt_text(step.field), step@.value, keys.keys());
        }
        let changed = match apply_mutation(self.log[idx].deep_clone(), m.as_slice(), field, value, keys) {
            Ok(x) => x,
            Err(e) => return Progress::Failed(e),
        };
        proof {
            reveal_strlit("before-sign");
        }
        if text_is(w.as_slice(), "before-sign") {
            let sid: Vec<char> = if self.current_update_key_ids.len() > 0 {
                copy_text(self.current_update_key_ids[0].as_slice())
            } else if keys.len() > 0 {
                copy_text(keys.entry(0).id.as_slice())
            } else {
                return Progress::Failed(GenError::CorruptNoKeys);
            };
            let signer = match keys.lookup(sid.as_slice()) {
                Some(k) => k,
                None => return Progress::Failed(GenError::CorruptSignerNotFound { id: sid }),
            };
            match prepare_resign(&changed, idx, &self.log) {
                Ok(e) => {
                    let document = e.deep_clone();
                    self.pending = Pending::Resign { entry: e, index: idx };
                    Progress::Need(Request::Sign { document, signer: make_signer(signer) })
                },
                Err(err) => Progress::Failed(err),
            }
        } else {
            let ghost before = self@.log;
            self.log.set(idx, changed);
            assert(self@.log =~= before.update(idx as int, changed@));
            Progress::Done
        }
    }

    /// The `sign-witness-proof` step.
    fn begin_witness(&mut self, step: &Step, keys: &KeyRegistry) -> (p: Progress)
        requires
            old(self).wf(),
            old(self)@.pending is Idle,
        ensures
            final(self).wf(),
            settles(final(self)@, p@, witness_spec(old(self)@, step@, keys.keys())),
    {
        let sid = match &step.signer {
            Some(s) => s,
            None => return Progress::Failed(GenError::WitnessMissingSigner),
        };
        let signer = match keys.lookup(sid.as_slice()) {
            Some(k) => k,
            None => return Progress::Failed(GenError::UnknownWitnessSigner { id: copy_text(sid.as_slice()) }),
        };
        let idx = match step.entry {
            Some(i) => i,
            None => return Progress::Failed(GenError::WitnessMissingEntry),
        };
        if idx >= self.log.len() {
            return Progress::Failed(GenError::WitnessInvalidEntry);
        }
        assert(self@.log[idx as int] == self.log@[idx as int]@);
        let vid = match get_version_id(&self.log[idx]) {
            Some(v) => copy_text(v.as_slice()),
            None => return Progress::Failed(GenError::WitnessInvalidEntry),
        };
        let mut ms: Vec<(Vec<char>, Json)> = Vec::new();
        ms.push((text("versionId"), Json::Str(copy_text(vid.as_slice()))));
        proof {
            lemma_object_view(ms);
            assert(members_view(ms@) =~= version_doc(vid@)->Object_0);
        }
        self.pending = Pending::Witness { version_id: vid };
        Progress::Need(Request::Sign { document: Json::Object(ms), signer: make_signer(signer) })
    }

    /// Runs a step: it completes, fails, or asks for work whose outcome
    /// [`Scenario::resume`] takes. The scenario must wait on nothing.
    pub fn begin(&mut self, step: &Step, keys: &KeyRegistry) -> (p: Progress)
        requires
            old(self).wf(),
            old(self)@.pending is Idle,
        ensures
            final(self).wf(),
            settles(final(self)@, p@, begin_spec(old(self)@, step@, keys.keys())),
    {
        proof {
            reveal_strlit("create");
            reveal_strlit("update");
            reveal_strlit("migrate");
            reveal_strlit("corrupt");
            reveal_strlit("sign-witness-proof");
            reveal_strlit("resolve");
            reveal_strlit("resolve-did");
        }
        let op = step.op.as_slice();
        if text_is(op, "create") {
            self.begin_create(step, keys)
        } else if text_is(op, "update") {
            self.begin_update(step, keys, UpdateOp::Update)
        } else if text_is(op, "migrate") {
            self.begin_update(step, keys, UpdateOp::Migrate)
        } else if text_is(op, "corrupt") {
            self.begin_corrupt(step, keys)
        } else if text_is(op, "sign-witness-proof") {
            self.begin_witness(step, keys)
        } else if text_is(op, "resolve") || text_is(op, "resolve-did") {
            self.expect_error = copy_opt_text(&step.expect_error);
            Progress::Done
        } else {
            Progress::Done
        }
    }

    /// Appends an entry to the log; its document becomes the current one and
    /// the DID given the current DID.
    fn append(&mut self, e: Json, did: Option<Vec<char>>)
        requires
            scenario_ok(old(self)@),
            old(self)@.pending is Idle,
            entry_ok(e@),
            old(self)@.log.len() > 0 || old(self)@.current_update_key_ids.len() > 0,
        ensures
            final(self).wf(),
            final(self)@ == appended(old(self)@, e@, opt_text(did)),
    {
        let state = get_state(&e);
        let ghost before = self@.log;
        self.log.push(e);
        assert(self@.log =~= before.push(e@));
        self.current_did = did;
        self.current_doc_state = state;
    }

    /// Takes the outcome of the work the scenario waits on, and goes on with
    /// the step.
    pub fn resume(&mut self, reply: Reply, keys: &KeyRegistry) -> (p: Progress)
        requires
            old(self).wf(),
            reply_fits(old(self)@.pending, reply@),
        ensures
            final(self).wf(),
            settles(final(self)@, p@, resume_spec(old(self)@, reply@, keys.keys())),
    {
        let mut pending = Pending::Idle;
        std::mem::swap(&mut pending, &mut self.pending);
        match pending {
            Pending::Idle => Progress::Done,
            Pending::Create { domain, timestamp, params, signer } => match reply {
                Reply::Created(e) => {
                    let did = get_state_id(&e);
                    self.append(e, did);
                    Progress::Done
                },
                _ => self.genesis_fallback(domain.as_slice(), &timestamp, &params, &signer, keys),
            },
            Pending::Genesis { entry } => match reply {
                Reply::Signed(pf) => {
                    let e = attach_proof(entry, pf);
                    proof {
                        lemma_entry_ok_with_proof(entry@, pf@);
                    }
                    let did = get_state_id(&e);
                    self.append(e, did);
                    Progress::Done
                },
                Reply::SignFailed(detail) => Progress::Failed(GenError::SignProof { purpose: ProofPurpose::Genesis, detail }),
                _ => Progress::Failed(GenError::SignProof { purpose: ProofPurpose::Genesis, detail: Vec::new() }),
            },
            Pending::Update { entry, op } => match reply {
                Reply::Signed(pf) => {
                    let e = attach_proof(entry, pf);
                    proof {
                        lemma_entry_ok_with_proof(entry@, pf@);
                    }
                    let did = if op == UpdateOp::Update {
                        match get_state_id(&e) {
                            Some(d) => Some(d),
                            None => copy_opt_text(&self.current_did),
                        }
                    } else {
                        copy_opt_text(&self.current_did)
                    };
                    self.append(e, did);
                    Progress::Done
                },
                Reply::SignFailed(detail) => Progress::Failed(GenError::SignProof { purpose: ProofPurpose::Update, detail }),
                _ => Progress::Failed(GenError::SignProof { purpose: ProofPurpose::Update, detail: Vec::new() }),
            },
            Pending::Resign { entry, index } => match reply {
                Reply::Signed(pf) => {
                    let e = attach_proof(entry, pf);
                    proof {
                        lemma_entry_ok_with_proof(entry@, pf@);
                    }
                    let ghost before = self@.log;
                    let ghost ev = e@;
                    self.log.set(index, e);
                    assert(self@.log =~= before.update(index as int, ev));
                    Progress::Done
                },
                Reply::SignFailed(detail) => Progress::Failed(GenError::SignProof { purpose: ProofPurpose::Resign, detail }),
                _ => Progress::Failed(GenError::SignProof { purpose: ProofPurpose::Resign, detail: Vec::new() }),
            },
            Pending::Witness { version_id } => match reply {
                Reply::Signed(pf) => {
                    let mut items: Vec<Json> = Vec::new();
                    items.push(pf);
                    proof {
                        lemma_array_view(items);
                        assert(items_view(items@) =~= seq![pf@]);
                    }
                    let mut ms: Vec<(Vec<char>, Json)> = Vec::new();
                    ms.push((text("versionId"), Json::Str(version_id)));
                    ms.push((text("proof"), Json::Array(items)));
                    proof {
                        lemma_object_view(ms);
                        assert(members_view(ms@) =~= witness_record(version_id@, pf@)->Object_0);
                    }
                    let ghost before = self@.witness_entries;
                    let record = Json::Object(ms);
                    let ghost rv = record@;
                    self.witness_entries.push(record);
                    assert(self@.witness_entries =~= before.push(rv));
                    Progress::Done
                },
                Reply::SignFailed(detail) => Progress::Failed(GenError::SignProof { purpose: ProofPurpose::Witness, detail }),
                _ => Progress::Failed(GenError::SignProof { purpose: ProofPurpose::Witness, detail: Vec::new() }),
            },
        }
    }

    /// The resolution result the scenario expects, when a step named the
    /// error the resolution should report.
    pub fn resolution_result(&self) -> (r: Option<Json>)
        ensures
            match self@.expect_error {
                Some(e) => r matches Some(j) && j@ == error_result(e),
                None => r is None,
            },
    {
        match &self.expect_error {
            Some(e) => Some(expected_error_result(e.as_slice())),
            None => None,
        }
    }

    /// Whether the scenario waits on nothing.
    pub fn is_idle(&self) -> (r: bool)
        ensures
            r == (self@.pending is Idle),
    {
        match self.pending {
            Pending::Idle => true,
            _ => false,
        }
    }
}

} // verus!
