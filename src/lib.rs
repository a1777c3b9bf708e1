//! Sequential composition of prompt-execution steps.
//!
//! A [`SequentialChain`] owns an ordered list of [`LLMChain`] steps. Running it
//! threads each step's text response into the next step's prompt as a
//! `"user"` message. The backend call of each step is outside work, so the
//! chain exposes its decisions as a small state machine ([`ChainRun`],
//! [`Action`]) that a driver steps through, performing each call in between.
//! [`execution`] models a whole execution and states what it guarantees.

pub mod chain;
pub mod error;
pub mod execution;
pub mod prompt;
pub mod sequential;

pub use chain::LLMChain;
pub use error::LLMError;
pub use prompt::PromptTemplate;
pub use sequential::{Action, ChainRun, SequentialChain};
