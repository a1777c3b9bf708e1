use crate::prompt::{MessageView, PromptTemplate};
use vstd::prelude::*;

verus! {

/// One executable step: the prompt that it renders and sends to the backend.
///
/// The backend client that runs the step is shared by all steps and lives
/// with whoever drives the chain; the step owns only its prompt.
pub struct LLMChain {
    prompt: PromptTemplate,
}

impl View for LLMChain {
    type V = Seq<MessageView>;

    closed spec fn view(&self) -> Seq<MessageView> {
        self.prompt@
    }
}

impl LLMChain {
    /// A step that will send `prompt`.
    pub fn new(prompt: PromptTemplate) -> (r: LLMChain)
        ensures
            r@ == prompt@,
    {
        LLMChain { prompt }
    }

    /// The step's prompt, to be changed in place before the step runs.
    pub fn get_prompt(&mut self) -> (r: &mut PromptTemplate)
        ensures
            r@ == old(self)@,
            final(self)@ == final(r)@,
    {
        &mut self.prompt
    }

    /// The step's prompt as it stands.
    pub fn prompt(&self) -> (r: &PromptTemplate)
        ensures
            r@ == self@,
    {
        &self.prompt
    }
}

} // verus!
