//! The errors of the generator, one variant for each failure it reports.
use vstd::prelude::*;
use crate::text::{concat, copy_text, decimal, decimal_text, number_message, text, to_string, NumberError};

verus! {

/// The operation of a step that updates a log.
#[derive(PartialEq, Eq, Structural, Clone, Copy, Debug)]
pub enum UpdateOp {
    Update,
    Migrate,
}

/// What a data-integrity proof was being made for.
#[derive(PartialEq, Eq, Structural, Clone, Copy, Debug)]
pub enum ProofPurpose {
    Genesis,
    Update,
    Resign,
    Witness,
}

/// A failure of the generator.
#[derive(Debug)]
pub enum GenError {
    UnsupportedKeyType { key_type: Vec<char>, id: Vec<char> },
    BadSeedHex { id: Vec<char>, detail: Vec<char> },
    SeedLength { id: Vec<char> },
    UnknownKey { id: Vec<char> },
    Canonicalize { detail: Vec<char> },
    PreviousMissingVersionId,
    PreviousVersionNumber { error: NumberError },
    SignProof { purpose: ProofPurpose, detail: Vec<char> },
    StateIdMissing,
    StateIdValueNotString,
    VersionTimeValueNotString,
    ReplaceParameterNeedsName,
    DropParameterNeedsName,
    ProofFieldMissing,
    ProofMissing,
    UnknownMutation { mutation: Vec<char> },
    ResignMissingVersionId,
    ResignVersionNumber { error: NumberError },
    ResignMissingScid,
    ResignMissingPreviousVersionId,
    CreateMissingDomain,
    CreateMissingSigner,
    UnknownSigner { id: Vec<char> },
    CreateNeedsTimestamp,
    MissingSigner { op: UpdateOp },
    MissingCurrentDid { op: UpdateOp },
    MissingTimestamp { op: UpdateOp },
    MissingPreviousEntry { op: UpdateOp },
    CorruptMissingEntry,
    CorruptOutOfRange { entry: usize, last: usize },
    CorruptMissingMutation,
    CorruptMissingWhen,
    CorruptNoKeys,
    CorruptSignerNotFound { id: Vec<char> },
    WitnessMissingSigner,
    UnknownWitnessSigner { id: Vec<char> },
    WitnessMissingEntry,
    WitnessInvalidEntry,
    VersionOverflow,
    WitnessesRejected,
}

/// The view of an error.
pub enum GenErrorV {
    UnsupportedKeyType { key_type: Seq<char>, id: Seq<char> },
    BadSeedHex { id: Seq<char>, detail: Seq<char> },
    SeedLength { id: Seq<char> },
    UnknownKey { id: Seq<char> },
    Canonicalize { detail: Seq<char> },
    PreviousMissingVersionId,
    PreviousVersionNumber { error: NumberError },
    SignProof { purpose: ProofPurpose, detail: Seq<char> },
    StateIdMissing,
    StateIdValueNotString,
    VersionTimeValueNotString,
    ReplaceParameterNeedsName,
    DropParameterNeedsName,
    ProofFieldMissing,
    ProofMissing,
    UnknownMutation { mutation: Seq<char> },
    ResignMissingVersionId,
    ResignVersionNumber { error: NumberError },
    ResignMissingScid,
    ResignMissingPreviousVersionId,
    CreateMissingDomain,
    CreateMissingSigner,
    UnknownSigner { id: Seq<char> },
    CreateNeedsTimestamp,
    MissingSigner { op: UpdateOp },
    MissingCurrentDid { op: UpdateOp },
    MissingTimestamp { op: UpdateOp },
    MissingPreviousEntry { op: UpdateOp },
    CorruptMissingEntry,
    CorruptOutOfRange { entry: usize, last: usize },
    CorruptMissingMutation,
    CorruptMissingWhen,
    CorruptNoKeys,
    CorruptSignerNotFound { id: Seq<char> },
    WitnessMissingSigner,
    UnknownWitnessSigner { id: Seq<char> },
    WitnessMissingEntry,
    WitnessInvalidEntry,
    VersionOverflow,
    WitnessesRejected,
}

impl View for GenError {
    type V = GenErrorV;

    open spec fn view(&self) -> GenErrorV {
        match self {
            GenError::UnsupportedKeyType { key_type, id } => GenErrorV::UnsupportedKeyType { key_type: key_type@, id: id@ },
            GenError::BadSeedHex { id, detail } => GenErrorV::BadSeedHex { id: id@, detail: detail@ },
            GenError::SeedLength { id } => GenErrorV::SeedLength { id: id@ },
            GenError::UnknownKey { id } => GenErrorV::UnknownKey { id: id@ },
            GenError::Canonicalize { detail } => GenErrorV::Canonicalize { detail: detail@ },
            GenError::PreviousMissingVersionId => GenErrorV::PreviousMissingVersionId,
            GenError::PreviousVersionNumber { error } => GenErrorV::PreviousVersionNumber { error: *error },
            GenError::SignProof { purpose, detail } => GenErrorV::SignProof { purpose: *purpose, detail: detail@ },
            GenError::StateIdMissing => GenErrorV::StateIdMissing,
            GenError::StateIdValueNotString => GenErrorV::StateIdValueNotString,
            GenError::VersionTimeValueNotString => GenErrorV::VersionTimeValueNotString,
            GenError::ReplaceParameterNeedsName => GenErrorV::ReplaceParameterNeedsName,
            GenError::DropParameterNeedsName => GenErrorV::DropParameterNeedsName,
            GenError::ProofFieldMissing => GenErrorV::ProofFieldMissing,
            GenError::ProofMissing => GenErrorV::ProofMissing,
            GenError::UnknownMutation { mutation } => GenErrorV::UnknownMutation { mutation: mutation@ },
            GenError::ResignMissingVersionId => GenErrorV::ResignMissingVersionId,
            GenError::ResignVersionNumber { error } => GenErrorV::ResignVersionNumber { error: *error },
            GenError::ResignMissingScid => GenErrorV::ResignMissingScid,
            GenError::ResignMissingPreviousVersionId => GenErrorV::ResignMissingPreviousVersionId,
            GenError::CreateMissingDomain => GenErrorV::CreateMissingDomain,
            GenError::CreateMissingSigner => GenErrorV::CreateMissingSigner,
            GenError::UnknownSigner { id } => GenErrorV::UnknownSigner { id: id@ },
            GenError::CreateNeedsTimestamp => GenErrorV::CreateNeedsTimestamp,
            GenError::MissingSigner { op } => GenErrorV::MissingSigner { op: *op },
            GenError::MissingCurrentDid { op } => GenErrorV::MissingCurrentDid { op: *op },
            GenError::MissingTimestamp { op } => GenErrorV::MissingTimestamp { op: *op },
            GenError::MissingPreviousEntry { op } => GenErrorV::MissingPreviousEntry { op: *op },
            GenError::CorruptMissingEntry => GenErrorV::CorruptMissingEntry,
            GenError::CorruptOutOfRange { entry, last } => GenErrorV::CorruptOutOfRange { entry: *entry, last: *last },
            GenError::CorruptMissingMutation => GenErrorV::CorruptMissingMutation,
            GenError::CorruptMissingWhen => GenErrorV::CorruptMissingWhen,
            GenError::CorruptNoKeys => GenErrorV::CorruptNoKeys,
            GenError::CorruptSignerNotFound { id } => GenErrorV::CorruptSignerNotFound { id: id@ },
            GenError::WitnessMissingSigner => GenErrorV::WitnessMissingSigner,
            GenError::UnknownWitnessSigner { id } => GenErrorV::UnknownWitnessSigner { id: id@ },
            GenError::WitnessMissingEntry => GenErrorV::WitnessMissingEntry,
            GenError::WitnessInvalidEntry => GenErrorV::WitnessInvalidEntry,
            GenError::VersionOverflow => GenErrorV::VersionOverflow,
            GenError::WitnessesRejected => GenErrorV::WitnessesRejected,
        }
    }
}

/// The name of an update operation.
pub open spec fn op_name(op: UpdateOp) -> Seq<char> {
    match op {
        UpdateOp::Update => "update"@,
        UpdateOp::Migrate => "migrate"@,
    }
}

fn op_name_text(op: UpdateOp) -> (r: Vec<char>)
    ensures
        r@ == op_name(op),
{
    match op {
        UpdateOp::Update => text("update"),
        UpdateOp::Migrate => text("migrate"),
    }
}

/// How a failed signature is reported, by what it was for.
pub open spec fn purpose_prefix(p: ProofPurpose) -> Seq<char> {
    match p {
        ProofPurpose::Genesis => "sign genesis bypass proof: "@,
        ProofPurpose::Update => "update bypass sign proof: "@,
        ProofPurpose::Resign => "resign proof: "@,
        ProofPurpose::Witness => "sign witness proof: "@,
    }
}

fn purpose_prefix_text(p: ProofPurpose) -> (r: Vec<char>)
    ensures
        r@ == purpose_prefix(p),
{
    match p {
        ProofPurpose::Genesis => text("sign genesis bypass proof: "),
        ProofPurpose::Update => text("update bypass sign proof: "),
        ProofPurpose::Resign => text("resign proof: "),
        ProofPurpose::Witness => text("sign witness proof: "),
    }
}

/// The message of an error.
pub open spec fn error_message(e: GenError) -> Seq<char> {
    match e {
        GenError::UnsupportedKeyType { key_type, id } => "unsupported key type '"@ + key_type@ + "' for '"@ + id@ + "'"@,
        GenError::BadSeedHex { id, detail } => "bad seed hex for '"@ + id@ + "': "@ + detail@,
        GenError::SeedLength { id } => "seed for '"@ + id@ + "' must be 32 bytes"@,
        GenError::UnknownKey { id } => "unknown key '"@ + id@ + "'"@,
        GenError::Canonicalize { detail } => "canonicalize entry: "@ + detail@,
        GenError::PreviousMissingVersionId => "update bypass: previous entry missing versionId"@,
        GenError::PreviousVersionNumber { error } => "update bypass: parse previous version number: "@ + number_message(error),
        GenError::SignProof { purpose, detail } => purpose_prefix(purpose) + detail@,
        GenError::StateIdMissing => "replace-state-id-scid: missing state.id"@,
        GenError::StateIdValueNotString => "replace-state-id-scid: value must be string"@,
        GenError::VersionTimeValueNotString => "replace-version-time: value must be string"@,
        GenError::ReplaceParameterNeedsName => "replace-parameter: need field or string value"@,
        GenError::DropParameterNeedsName => "drop-parameter: need field or string value"@,
        GenError::ProofFieldMissing => "replace-proof-field: missing field"@,
        GenError::ProofMissing => "replace-proof-field: missing proof[0]"@,
        GenError::UnknownMutation { mutation } => "unknown mutation: "@ + mutation@,
        GenError::ResignMissingVersionId => "resign: missing versionId"@,
        GenError::ResignVersionNumber { error } => "resign: parse version number: "@ + number_message(error),
        GenError::ResignMissingScid => "resign: missing parameters.scid for genesis"@,
        GenError::ResignMissingPreviousVersionId => "resign: missing previous versionId"@,
        GenError::CreateMissingDomain => "create: missing domain"@,
        GenError::CreateMissingSigner => "create: missing signer"@,
        GenError::UnknownSigner { id } => "unknown signer '"@ + id@ + "'"@,
        GenError::CreateNeedsTimestamp => "create fallback requires timestamp"@,
        GenError::MissingSigner { op } => op_name(op) + ": missing signer"@,
        GenError::MissingCurrentDid { op } => op_name(op) + " before create: missing current DID"@,
        GenError::MissingTimestamp { op } => op_name(op) + " bypass: missing timestamp"@,
        GenError::MissingPreviousEntry { op } => op_name(op) + " bypass: missing previous entry"@,
        GenError::CorruptMissingEntry => "corrupt: missing entry"@,
        GenError::CorruptOutOfRange { entry, last } => "corrupt: entry "@ + decimal(entry as nat) + " out of range [0, "@ + decimal(last as nat) + "]"@,
        GenError::CorruptMissingMutation => "corrupt: missing mutation"@,
        GenError::CorruptMissingWhen => "corrupt: missing when"@,
        GenError::CorruptNoKeys => "corrupt before-sign: no keys available"@,
        GenError::CorruptSignerNotFound { id } => "corrupt signer key not found: "@ + id@,
        GenError::WitnessMissingSigner => "sign-witness-proof: missing signer"@,
        GenError::UnknownWitnessSigner { id } => "unknown witness signer '"@ + id@ + "'"@,
        GenError::WitnessMissingEntry => "sign-witness-proof: missing entry"@,
        GenError::WitnessInvalidEntry => "sign-witness-proof: invalid entry/versionId"@,
        GenError::VersionOverflow => "update bypass: version number overflow"@,
        GenError::WitnessesRejected => "build witnesses: the witness configuration is refused"@,
    }
}

impl GenError {
    /// The message of the error, as the generator reports it.
    pub fn message_chars(&self) -> (r: Vec<char>)
        ensures
            r@ == error_message(*self),
    {
        match self {
            GenError::UnsupportedKeyType { key_type, id } => {
                let mut out = text("unsupported key type '");
                out = concat(out.as_slice(), copy_text(key_type.as_slice()).as_slice());
                out = concat(out.as_slice(), text("' for '").as_slice());
                out = concat(out.as_slice(), copy_text(id.as_slice()).as_slice());
                out = concat(out.as_slice(), text("'").as_slice());
                out
            },
            GenError::BadSeedHex { id, detail } => {
                let mut out = text("bad seed hex for '");
                out = concat(out.as_slice(), copy_text(id.as_slice()).as_slice());
                out = concat(out.as_slice(), text("': ").as_slice());
                out = concat(out.as_slice(), copy_text(detail.as_slice()).as_slice());
                out
            },
            GenError::SeedLength { id } => {
                let mut out = text("seed for '");
                out = concat(out.as_slice(), copy_text(id.as_slice()).as_slice());
                out = concat(out.as_slice(), text("' must be 32 bytes").as_slice());
                out
            },
            GenError::UnknownKey { id } => {
                let mut out = text("unknown key '");
                out = concat(out.as_slice(), copy_text(id.as_slice()).as_slice());
                out = concat(out.as_slice(), text("'").as_slice());
                out
            },
            GenError::Canonicalize { detail } => {
                let mut out = text("canonicalize entry: ");
                out = concat(out.as_slice(), copy_text(detail.as_slice()).as_slice());
                out
            },
            GenError::PreviousMissingVersionId => text("update bypass: previous entry missing versionId"),
            GenError::PreviousVersionNumber { error } => {
                let mut out = text("update bypass: parse previous version number: ");
                out = concat(out.as_slice(), error.message_chars().as_slice());
                out
            },
            GenError::SignProof { purpose, detail } => {
                let mut out = purpose_prefix_text(*purpose);
                out = concat(out.as_slice(), copy_text(detail.as_slice()).as_slice());
                out
            },
            GenError::StateIdMissing => text("replace-state-id-scid: missing state.id"),
            GenError::StateIdValueNotString => text("replace-state-id-scid: value must be string"),
            GenError::VersionTimeValueNotString => text("replace-version-time: value must be string"),
            GenError::ReplaceParameterNeedsName => text("replace-parameter: need field or string value"),
            GenError::DropParameterNeedsName => text("drop-parameter: need field or string value"),
            GenError::ProofFieldMissing => text("replace-proof-field: missing field"),
            GenError::ProofMissing => text("replace-proof-field: missing proof[0]"),
            GenError::UnknownMutation { mutation } => {
                let mut out = text("unknown mutation: ");
                out = concat(out.as_slice(), copy_text(mutation.as_slice()).as_slice());
                out
            },
            GenError::ResignMissingVersionId => text("resign: missing versionId"),
            GenError::ResignVersionNumber { error } => {
                let mut out = text("resign: parse version number: ");
                out = concat(out.as_slice(), error.message_chars().as_slice());
                out
            },
            GenError::ResignMissingScid => text("resign: missing parameters.scid for genesis"),
            GenError::ResignMissingPreviousVersionId => text("resign: missing previous versionId"),
            GenError::CreateMissingDomain => text("create: missing domain"),
            GenError::CreateMissingSigner => text("create: missing signer"),
            GenError::UnknownSigner { id } => {
                let mut out = text("unknown signer '");
                out = concat(out.as_slice(), copy_text(id.as_slice()).as_slice());
                out = concat(out.as_slice(), text("'").as_slice());
                out
            },
            GenError::CreateNeedsTimestamp => text("create fallback requires timestamp"),
            GenError::MissingSigner { op } => {
                let mut out = op_name_text(*op);
                out = concat(out.as_slice(), text(": missing signer").as_slice());
                out
            },
            GenError::MissingCurrentDid { op } => {
                let mut out = op_name_text(*op);
                out = concat(out.as_slice(), text(" before create: missing current DID").as_slice());
                out
            },
            GenError::MissingTimestamp { op } => {
                let mut out = op_name_text(*op);
                out = concat(out.as_slice(), text(" bypass: missing timestamp").as_slice());
                out
            },
            GenError::MissingPreviousEntry { op } => {
                let mut out = op_name_text(*op);
                out = concat(out.as_slice(), text(" bypass: missing previous entry").as_slice());
                out
            },
            GenError::CorruptMissingEntry => text("corrupt: missing entry"),
            GenError::CorruptOutOfRange { entry, last } => {
                let mut out = text("corrupt: entry ");
                out = concat(out.as_slice(), decimal_text(*entry as u64).as_slice());
                out = concat(out.as_slice(), text(" out of range [0, ").as_slice());
                out = concat(out.as_slice(), decimal_text(*last as u64).as_slice());
                out = concat(out.as_slice(), text("]").as_slice());
                out
            },
            GenError::CorruptMissingMutation => text("corrupt: missing mutation"),
            GenError::CorruptMissingWhen => text("corrupt: missing when"),
            GenError::CorruptNoKeys => text("corrupt before-sign: no keys available"),
            GenError::CorruptSignerNotFound { id } => {
                let mut out = text("corrupt signer key not found: ");
                out = concat(out.as_slice(), copy_text(id.as_slice()).as_slice());
                out
            },
            GenError::WitnessMissingSigner => text("sign-witness-proof: missing signer"),
            GenError::UnknownWitnessSigner { id } => {
                let mut out = text("unknown witness signer '");
                out = concat(out.as_slice(), copy_text(id.as_slice()).as_slice());
                out = concat(out.as_slice(), text("'").as_slice());
                out
            },
            GenError::WitnessMissingEntry => text("sign-witness-proof: missing entry"),
            GenError::WitnessInvalidEntry => text("sign-witness-proof: invalid entry/versionId"),
            GenError::VersionOverflow => text("update bypass: version number overflow"),
            GenError::WitnessesRejected => text("build witnesses: the witness configuration is refused"),
        }
    }

    /// The message of the error, as the generator reports it.
    pub fn message(&self) -> (r: String)
        ensures
            r@ == error_message(*self),
    {
        to_string(self.message_chars().as_slice())
    }
}

} // verus!
