use crate::chain::LLMChain;
use crate::error::LLMError;
use crate::prompt::MessageView;
use vstd::prelude::*;

verus! {

/// The message that carries a prior step's output into the next step.
pub open spec fn user_message(text: Seq<char>) -> MessageView {
    ("user"@, text)
}

/// A step's prompt as it is sent, given the output of the step before it:
/// an empty prior output adds nothing.
pub open spec fn with_context(prompt: Seq<MessageView>, prior: Seq<char>) -> Seq<MessageView> {
    if prior.len() == 0 {
        prompt
    } else {
        prompt.push(user_message(prior))
    }
}

/// Where an execution stands: the index of the next step to run, and the
/// output of the last step that ran (empty before the first).
pub struct RunState {
    pub next: nat,
    pub response: Seq<char>,
}

/// The state in which every execution begins.
pub open spec fn initial_run() -> RunState {
    RunState { next: 0, response: Seq::empty() }
}

/// The steps after the driver has been told to run the next one: that step's
/// prompt has received the prior output.
pub open spec fn prepare(steps: Seq<Seq<MessageView>>, run: RunState) -> Seq<Seq<MessageView>> {
    if run.next < steps.len() {
        steps.update(run.next as int, with_context(steps[run.next as int], run.response))
    } else {
        steps
    }
}

/// The outcome of a step as the contracts see it.
pub open spec fn outcome_view(outcome: Result<String, LLMError>) -> Result<Seq<char>, LLMError> {
    match outcome {
        Ok(s) => Ok(s@),
        Err(e) => Err(e),
    }
}

/// What follows once the step at `run.next` has produced `outcome`: the next
/// step with that output on success; the step's error on failure.
pub open spec fn advance(run: RunState, outcome: Result<Seq<char>, LLMError>) -> Result<RunState, LLMError> {
    match outcome {
        Ok(s) => Ok(RunState { next: run.next + 1, response: s }),
        Err(e) => Err(e),
    }
}

/// An ordered list of steps, run one after another, each one's output handed
/// to the next as a `"user"` message.
pub struct SequentialChain {
    chains: Vec<LLMChain>,
}

impl View for SequentialChain {
    type V = Seq<Seq<MessageView>>;

    closed spec fn view(&self) -> Seq<Seq<MessageView>> {
        self.chains@.map_values(|c: LLMChain| c@)
    }
}

/// The progress of one execution of a [`SequentialChain`].
pub struct ChainRun {
    next: usize,
    response: String,
}

impl View for ChainRun {
    type V = RunState;

    closed spec fn view(&self) -> RunState {
        RunState { next: self.next as nat, response: self.response@ }
    }
}

/// What the driver of an execution does next.
pub enum Action {
    /// Run the step at this index with the input data, and report its outcome.
    Run(usize),
    /// Every step has run: this is the chain's result.
    Done(String),
}

impl ChainRun {
    /// The state before any step has run.
    pub fn new() -> (r: ChainRun)
        ensures
            r@ == initial_run(),
    {
        ChainRun { next: 0, response: String::new() }
    }

    /// The index of the next step to run.
    pub fn next_index(&self) -> (r: usize)
        ensures
            r == self@.next,
    {
        self.next
    }

    /// The output of the last step that ran, empty before the first.
    pub fn response(&self) -> (r: &String)
        ensures
            r@ == self@.response,
    {
        &self.response
    }
}

impl SequentialChain {
    /// A chain with no steps.
    pub fn new() -> (r: SequentialChain)
        ensures
            r@ == Seq::<Seq<MessageView>>::empty(),
    {
        let r = SequentialChain { chains: Vec::new() };
        assert(r@ =~= Seq::<Seq<MessageView>>::empty());
        r
    }

    /// Appends `chain` as the last step and hands the chain back.
    pub fn link(self, chain: LLMChain) -> (r: SequentialChain)
        ensures
            r@ == self@.push(chain@),
    {
        let mut s = self;
        s.chains.push(chain);
        assert(s@ =~= self@.push(chain@));
        s
    }

    /// The number of steps.
    pub fn len(&self) -> (r: usize)
        ensures
            r == self@.len(),
    {
        self.chains.len()
    }

    /// The step at `index`.
    pub fn step(&self, index: usize) -> (r: &LLMChain)
        requires
            index < self@.len(),
        ensures
            r@ == self@[index as int],
    {
        &self.chains[index]
    }

    /// Decides what comes next in the execution `run`. If a step is left, the
    /// output of the previous one, when not empty, is appended to that step's
    /// prompt as a `"user"` message, and the step is to run; otherwise the
    /// execution is done and its result is the last output.
    pub fn next_action(&mut self, run: &ChainRun) -> (a: Action)
        ensures
            final(self)@ == prepare(old(self)@, run@),
            run@.next < old(self)@.len() ==> a == Action::Run(run@.next as usize),
            run@.next >= old(self)@.len() ==> (match a {
                Action::Done(s) => s@ == run@.response,
                Action::Run(_) => false,
            }),
    {
        if run.next < self.chains.len() {
            let i = run.next;
            if !run.response.as_str().is_empty() {
                let step = &mut self.chains[i];
                step.get_prompt().add_prompt(("user", run.response.as_str()));
            }
            assert(self@ =~= prepare(old(self)@, run@));
            Action::Run(i)
        } else {
            Action::Done(run.response.clone())
        }
    }

    /// Takes the outcome of the step that `run` last handed out: on success the
    /// run moves to the following step with that output; a failure ends the
    /// execution with the step's error.
    pub fn record(&self, run: ChainRun, outcome: Result<String, LLMError>) -> (r: Result<ChainRun, LLMError>)
        requires
            run@.next < self@.len(),
        ensures
            match advance(run@, outcome_view(outcome)) {
                Ok(n) => r is Ok && r->Ok_0@ == n,
                Err(e) => r == Err::<ChainRun, LLMError>(e),
            },
    {
        proof {
            assert(self.chains.len() == self@.len());
        }
        match outcome {
            Ok(s) => Ok(ChainRun { next: run.next + 1, response: s }),
            Err(e) => Err(e),
        }
    }
}

} // verus!
