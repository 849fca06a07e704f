//! What every middleware shares.
use vstd::prelude::*;
use crate::json::{Json, JsonValue};

verus! {

/// The priority of a middleware that does not choose one.
pub const DEFAULT_MIDDLEWARE_PRIORITY: u16 = 100;

/// The largest priority that a middleware may have.
pub const MAX_MIDDLEWARE_PRIORITY: u16 = 1000;

/// A request of a middleware to run the call again with these inputs.
#[derive(Debug)]
pub struct RetrySignal {
    pub inputs: JsonValue,
}

impl RetrySignal {
    /// A request to run the call again.
    pub fn new(inputs: JsonValue) -> (r: Self)
        ensures
            r.inputs == inputs,
    {
        RetrySignal { inputs }
    }
}

/// What a middleware makes of an error: an output in its place, or another
/// attempt.
#[derive(Debug)]
pub enum OnErrorOutcome {
    Recovery(JsonValue),
    Retry(RetrySignal),
}

/// The mathematical contents of an outcome.
#[verifier::ext_equal]
pub enum OutcomeView {
    Recovery(Json),
    Retry(Json),
}

impl View for OnErrorOutcome {
    type V = OutcomeView;

    open spec fn view(&self) -> OutcomeView {
        match self {
            OnErrorOutcome::Recovery(v) => OutcomeView::Recovery(v@),
            OnErrorOutcome::Retry(s) => OutcomeView::Retry(s.inputs@),
        }
    }
}

/// The outcome of a middleware that only recovers: its value, if any, stands in
/// place of the error.
pub fn recovery_outcome(value: Option<JsonValue>) -> (r: Option<OnErrorOutcome>)
    ensures
        match value {
            Some(v) => r matches Some(OnErrorOutcome::Recovery(x)) && x == v,
            None => r is None,
        },
{
    match value {
        Some(v) => Some(OnErrorOutcome::Recovery(v)),
        None => None,
    }
}

} // verus!
