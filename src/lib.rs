//! A small templating language: a source declares named parameters, with
//! optional defaults, followed by a template whose insertion markers are
//! replaced by values supplied at evaluation time.
use vstd::prelude::*;

mod chars;
pub mod data;
pub mod errors;
pub mod syntax;
pub mod parse;
pub mod semantics;
pub mod reduce;
pub mod laws;

pub use errors::VerifyError;
pub use reduce::Inputs;

use semantics::{eval_spec, matches_outcome};

verus! {

/// Evaluates a template source against `inputs`: parses it, checks that every
/// insert is declared, resolves the declarations and substitutes the values.
pub fn eval<I: Inputs>(s: &str, inputs: &I) -> (r: Result<String, VerifyError>)
    ensures
        matches_outcome(r, eval_spec(s@, inputs.input_map())),
{
    let body = match parse::parse(s) {
        Ok(b) => b,
        Err(e) => return Err(e),
    };
    let verified = match reduce::VerifiedTemplate::try_from_body_inputs(&body, inputs) {
        Ok(t) => t,
        Err(e) => return Err(e),
    };
    Ok(verified.reduce())
}

} // verus!
