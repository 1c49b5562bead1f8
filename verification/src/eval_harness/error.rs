use vstd::prelude::*;

use crate::text::owned;

verus! {

/// Errors of the evaluation harness.
#[derive(Debug, Clone, PartialEq, Eq)]
pub enum EvalError {
    /// Dataset loading error.
    Dataset(String),
    /// Evaluation error.
    Evaluation(String),
    /// Scoring error.
    Scoring(String),
    /// Configuration error.
    Config(String),
}

impl EvalError {
    /// The message that describes this error.
    pub fn message(&self) -> (r: String)
        ensures
            match self {
                EvalError::Dataset(m) => r@ == "dataset error: "@ + m@,
                EvalError::Evaluation(m) => r@ == "evaluation error: "@ + m@,
                EvalError::Scoring(m) => r@ == "scoring error: "@ + m@,
                EvalError::Config(m) => r@ == "config error: "@ + m@,
            },
    {
        let (mut r, m) = match self {
            EvalError::Dataset(m) => (owned("dataset error: "), m),
            EvalError::Evaluation(m) => (owned("evaluation error: "), m),
            EvalError::Scoring(m) => (owned("scoring error: "), m),
            EvalError::Config(m) => (owned("config error: "), m),
        };
        r.append(m.as_str());
        r
    }
}

}
