//! Verified core of a generator of negative did:webvh test vectors.
use vstd::prelude::*;

pub mod json;
pub mod text;

pub mod digest;
pub mod error;
pub mod keys;
pub mod script;
pub mod document;
pub mod placeholders;
pub mod parameters;
pub mod entries;
pub mod mutations;
pub mod scenario;
pub mod laws;
pub mod simultaneous;
pub mod outputs;
