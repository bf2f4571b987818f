//! The steps of a scenario script, as plain data.
use vstd::prelude::*;
use crate::document::clone_items;
use crate::json::{items_view, opt_text, opt_view, texts_view, Json, JsonV};
use crate::text::{copy_texts};

verus! {

/// The witness configuration of a step.
pub struct WitnessConfig {
    pub threshold: u32,
    pub witnesses: Vec<Vec<char>>,
}

/// The parameters of a step.
pub struct StepParams {
    pub update_keys: Vec<Vec<char>>,
    pub next_key_hashes: Vec<Vec<char>>,
    pub portable: Option<bool>,
    pub witness: Option<WitnessConfig>,
    pub services: Vec<Json>,
    pub verification_methods: Vec<Json>,
    pub also_known_as: Vec<Vec<char>>,
    pub context: Vec<Vec<char>>,
}

impl StepParams {
    /// The parameters of a step that gives none.
    pub fn empty() -> (r: StepParams)
        ensures
            r@ == empty_params(),
    {
        let r = StepParams {
            update_keys: Vec::new(),
            next_key_hashes: Vec::new(),
            portable: None,
            witness: None,
            services: Vec::new(),
            verification_methods: Vec::new(),
            also_known_as: Vec::new(),
            context: Vec::new(),
        };
        assert(r@.update_keys =~= Seq::<Seq<char>>::empty());
        assert(r@.next_key_hashes =~= Seq::<Seq<char>>::empty());
        assert(r@.services =~= Seq::<JsonV>::empty());
        assert(r@.verification_methods =~= Seq::<JsonV>::empty());
        assert(r@.also_known_as =~= Seq::<Seq<char>>::empty());
        assert(r@.context =~= Seq::<Seq<char>>::empty());
        r
    }
}

impl WitnessConfig {
    /// A copy of the configuration.
    pub fn duplicate(&self) -> (r: WitnessConfig)
        ensures
            r@ == self@,
    {
        let witnesses = copy_texts(&self.witnesses);
        assert(texts_view(witnesses@) =~= texts_view(self.witnesses@));
        WitnessConfig { threshold: self.threshold, witnesses }
    }
}

impl StepParams {
    /// A copy of the parameters.
    pub fn duplicate(&self) -> (r: StepParams)
        ensures
            r@ == self@,
    {
        let update_keys = copy_texts(&self.update_keys);
        let next_key_hashes = copy_texts(&self.next_key_hashes);
        let also_known_as = copy_texts(&self.also_known_as);
        let context = copy_texts(&self.context);
        assert(texts_view(update_keys@) =~= texts_view(self.update_keys@));
        assert(texts_view(next_key_hashes@) =~= texts_view(self.next_key_hashes@));
        assert(texts_view(also_known_as@) =~= texts_view(self.also_known_as@));
        assert(texts_view(context@) =~= texts_view(self.context@));
        let witness = match &self.witness {
            Some(w) => Some(w.duplicate()),
            None => None,
        };
        StepParams {
            update_keys,
            next_key_hashes,
            portable: self.portable,
            witness,
            services: clone_items(&self.services),
            verification_methods: clone_items(&self.verification_methods),
            also_known_as,
            context,
        }
    }
}

/// One step of a scenario script.
pub struct Step {
    pub op: Vec<char>,
    pub domain: Option<Vec<char>>,
    pub signer: Option<Vec<char>>,
    pub timestamp: Option<Vec<char>>,
    pub params: Option<StepParams>,
    pub entry: Option<usize>,
    pub mutation: Option<Vec<char>>,
    pub field: Option<Vec<char>>,
    pub value: Option<Json>,
    pub when: Option<Vec<char>>,
    pub did: Option<Vec<char>>,
    pub expect_error: Option<Vec<char>>,
}

/// The view of a step.
pub struct StepV {
    pub op: Seq<char>,
    pub domain: Option<Seq<char>>,
    pub signer: Option<Seq<char>>,
    pub timestamp: Option<Seq<char>>,
    pub params: Option<StepParamsV>,
    pub entry: Option<usize>,
    pub mutation: Option<Seq<char>>,
    pub field: Option<Seq<char>>,
    pub value: Option<JsonV>,
    pub when: Option<Seq<char>>,
    pub did: Option<Seq<char>>,
    pub expect_error: Option<Seq<char>>,
}

impl View for Step {
    type V = StepV;

    open spec fn view(&self) -> StepV {
        StepV {
            op: self.op@,
            domain: opt_text(self.domain),
            signer: opt_text(self.signer),
            timestamp: opt_text(self.timestamp),
            params: match self.params {
                Some(p) => Some(p@),
                None => None,
            },
            entry: self.entry,
            mutation: opt_text(self.mutation),
            field: opt_text(self.field),
            value: opt_view(self.value),
            when: opt_text(self.when),
            did: opt_text(self.did),
            expect_error: opt_text(self.expect_error),
        }
    }
}

/// The parameters of a step: those it gives, or none.
pub open spec fn step_params(step: StepV) -> StepParamsV {
    match step.params {
        Some(p) => p,
        None => empty_params(),
    }
}

/// The view of a witness configuration.
pub struct WitnessV {
    pub threshold: u32,
    pub witnesses: Seq<Seq<char>>,
}

impl View for WitnessConfig {
    type V = WitnessV;

    open spec fn view(&self) -> WitnessV {
        WitnessV { threshold: self.threshold, witnesses: texts_view(self.witnesses@) }
    }
}

/// The view of the parameters of a step.
pub struct StepParamsV {
    pub update_keys: Seq<Seq<char>>,
    pub next_key_hashes: Seq<Seq<char>>,
    pub portable: Option<bool>,
    pub witness: Option<WitnessV>,
    pub services: Seq<JsonV>,
    pub verification_methods: Seq<JsonV>,
    pub also_known_as: Seq<Seq<char>>,
    pub context: Seq<Seq<char>>,
}

impl View for StepParams {
    type V = StepParamsV;

    open spec fn view(&self) -> StepParamsV {
        StepParamsV {
            update_keys: texts_view(self.update_keys@),
            next_key_hashes: texts_view(self.next_key_hashes@),
            portable: self.portable,
            witness: match self.witness {
                Some(w) => Some(w@),
                None => None,
            },
            services: items_view(self.services@),
            verification_methods: items_view(self.verification_methods@),
            also_known_as: texts_view(self.also_known_as@),
            context: texts_view(self.context@),
        }
    }
}

/// The view of an optional witness configuration.
pub open spec fn opt_witness_view(w: Option<WitnessConfig>) -> Option<WitnessV> {
    match w {
        Some(c) => Some(c@),
        None => None,
    }
}

/// The parameters of a step that gives none.
pub open spec fn empty_params() -> StepParamsV {
    StepParamsV {
        update_keys: Seq::empty(),
        next_key_hashes: Seq::empty(),
        portable: None,
        witness: None,
        services: Seq::empty(),
        verification_methods: Seq::empty(),
        also_known_as: Seq::empty(),
        context: Seq::empty(),
    }
}

} // verus!
