use vstd::prelude::*;

verus! {

/// Why a step failed. Either kind is handed back to the caller of the chain
/// unchanged.
#[derive(Clone, Debug, PartialEq, Eq)]
pub enum LLMError {
    /// The step's prompt refers to a field that the input data does not have.
    Templating(String),
    /// The backend call failed (network, authentication, bad response).
    Backend(String),
}

} // verus!
