use crate::error::LLMError;
use crate::prompt::MessageView;
use crate::sequential::{advance, initial_run, prepare, user_message, with_context, RunState};
use vstd::prelude::*;

verus! {

/// What a whole execution amounts to: the steps as they stand afterwards, the
/// prompt of each step that ran, in the order it ran, and the result.
pub struct Trace {
    pub steps: Seq<Seq<MessageView>>,
    pub sent: Seq<Seq<MessageView>>,
    pub result: Result<Seq<char>, LLMError>,
}

/// The execution that a driver performs from `run` by alternating
/// `next_action` and `record`, when the step at index `i` produces
/// `outcomes[i]`.
pub open spec fn execution(
    steps: Seq<Seq<MessageView>>,
    run: RunState,
    outcomes: Seq<Result<Seq<char>, LLMError>>,
) -> Trace
    decreases steps.len() - run.next,
{
    if run.next >= steps.len() {
        Trace { steps, sent: Seq::empty(), result: Ok(run.response) }
    } else {
        let prepared = prepare(steps, run);
        let prompt = prepared[run.next as int];
        match advance(run, outcomes[run.next as int]) {
            Ok(after) => {
                let rest = execution(prepared, after, outcomes);
                Trace { steps: rest.steps, sent: seq![prompt] + rest.sent, result: rest.result }
            },
            Err(e) => Trace { steps: prepared, sent: seq![prompt], result: Err(e) },
        }
    }
}

/// The output that reaches the step at index `i`: nothing for the first step,
/// the previous step's output for the others.
pub open spec fn prior_output(outcomes: Seq<Result<Seq<char>, LLMError>>, i: int) -> Seq<char> {
    if i == 0 {
        Seq::empty()
    } else {
        match outcomes[i - 1] {
            Ok(s) => s,
            Err(_) => Seq::empty(),
        }
    }
}

/// Each step that runs does so in list order, with its own prompt plus the
/// output of the step before it; the steps after a run start are touched
/// only up to the last one that ran.
proof fn lemma_execution_from(
    steps: Seq<Seq<MessageView>>,
    run: RunState,
    outcomes: Seq<Result<Seq<char>, LLMError>>,
)
    requires
        run.next <= steps.len(),
        outcomes.len() >= steps.len(),
        run.next > 0 ==> outcomes[run.next - 1] == Ok::<Seq<char>, LLMError>(run.response),
        run.next == 0 ==> run.response.len() == 0,
    ensures
        ({
            let t = execution(steps, run, outcomes);
            &&& t.steps.len() == steps.len()
            &&& run.next + t.sent.len() <= steps.len()
            &&& forall|i: int| 0 <= i < run.next ==> t.steps[i] == steps[i]
            &&& forall|i: int| run.next + t.sent.len() <= i < steps.len() ==> t.steps[i] == steps[i]
            &&& forall|j: int|
                0 <= j < t.sent.len() ==> t.sent[j] == with_context(
                    steps[run.next + j],
                    prior_output(outcomes, run.next + j),
                ) && t.steps[run.next + j] == t.sent[j]
            &&& forall|i: int| run.next <= i < run.next + t.sent.len() - 1 ==> #[trigger] outcomes[i] is Ok
            &&& t.result is Ok ==> {
                &&& run.next + t.sent.len() == steps.len()
                &&& t.result == Ok::<Seq<char>, LLMError>(prior_output(outcomes, steps.len() as int))
                &&& forall|i: int| run.next <= i < steps.len() ==> #[trigger] outcomes[i] is Ok
            }
            &&& t.result is Err ==> {
                &&& t.sent.len() > 0
                &&& outcomes[run.next + t.sent.len() - 1] == Err::<Seq<char>, LLMError>(t.result->Err_0)
            }
        }),
    decreases steps.len() - run.next,
{
    if run.next >= steps.len() {
        assert(run.response == prior_output(outcomes, steps.len() as int));
    } else {
        let prepared = prepare(steps, run);
        assert(run.response == prior_output(outcomes, run.next as int));
        match outcomes[run.next as int] {
            Ok(s) => {
                let after = RunState { next: run.next + 1, response: s };
                lemma_execution_from(prepared, after, outcomes);
                let t = execution(steps, run, outcomes);
                let rest = execution(prepared, after, outcomes);
                assert(t.sent[0] == prepared[run.next as int]);
                assert forall|i: int| 0 <= i < run.next implies t.steps[i] == steps[i] by {
                    assert(rest.steps[i] == prepared[i]);
                }
                assert forall|i: int| run.next + t.sent.len() <= i < steps.len() implies t.steps[i]
                    == steps[i] by {
                    assert(rest.steps[i] == prepared[i]);
                }
                assert forall|j: int| 0 <= j < t.sent.len() implies t.sent[j] == with_context(
                    steps[run.next + j],
                    prior_output(outcomes, run.next + j),
                ) && t.steps[run.next + j] == t.sent[j] by {
                    if j > 0 {
                        assert(t.sent[j] == rest.sent[j - 1]);
                    }
                }
            },
            Err(_) => {
                assert(forall|i: int|
                    0 <= i < steps.len() && i != run.next ==> prepared[i] == steps[i]);
            },
        }
    }
}

/// A chain of one step that succeeds returns exactly that step's output,
/// and the step's prompt is sent and left as it was.
pub proof fn single_step_identity(
    prompt: Seq<MessageView>,
    outcomes: Seq<Result<Seq<char>, LLMError>>,
    output: Seq<char>,
)
    requires
        outcomes.len() >= 1,
        outcomes[0] == Ok::<Seq<char>, LLMError>(output),
    ensures
        execution(seq![prompt], initial_run(), outcomes) == (Trace {
            steps: seq![prompt],
            sent: seq![prompt],
            result: Ok::<Seq<char>, LLMError>(output),
        }),
{
    let steps = seq![prompt];
    let after = RunState { next: 1, response: output };
    assert(prepare(steps, initial_run()) =~= steps);
    assert(execution(steps, after, outcomes) == (Trace {
        steps,
        sent: Seq::empty(),
        result: Ok::<Seq<char>, LLMError>(output),
    }));
    assert(seq![prompt] + Seq::<Seq<MessageView>>::empty() =~= seq![prompt]);
}

/// In a chain of two steps, once the first has produced a non-empty output,
/// the second step's prompt ends with a `"user"` message holding that
/// output: it is sent so, and it stays so after the execution.
pub proof fn prior_output_is_injected(
    first: Seq<MessageView>,
    second: Seq<MessageView>,
    outcomes: Seq<Result<Seq<char>, LLMError>>,
    output: Seq<char>,
)
    requires
        outcomes.len() >= 2,
        outcomes[0] == Ok::<Seq<char>, LLMError>(output),
        output.len() > 0,
    ensures
        ({
            let t = execution(seq![first, second], initial_run(), outcomes);
            &&& t.steps[1] == second.push(user_message(output))
            &&& t.steps[1].last() == user_message(output)
            &&& t.sent.len() == 2
            &&& t.sent[1] == t.steps[1]
        }),
{
    let steps = seq![first, second];
    lemma_execution_from(steps, initial_run(), outcomes);
    let t = execution(steps, initial_run(), outcomes);
    assert(t.sent.len() == 2);
    assert(prior_output(outcomes, 1) == output);
    assert(steps[1] == second);
    assert(t.steps[1] == t.sent[1]);
}

/// When the step at index `k` fails after every earlier step succeeded, the
/// execution ends with that step's error: exactly `k + 1` steps run, and the
/// steps after `k` are left as they were.
pub proof fn failure_stops_the_chain(
    steps: Seq<Seq<MessageView>>,
    outcomes: Seq<Result<Seq<char>, LLMError>>,
    k: int,
    error: LLMError,
)
    requires
        0 <= k < steps.len(),
        outcomes.len() >= steps.len(),
        forall|j: int| 0 <= j < k ==> #[trigger] outcomes[j] is Ok,
        outcomes[k] == Err::<Seq<char>, LLMError>(error),
    ensures
        ({
            let t = execution(steps, initial_run(), outcomes);
            &&& t.result == Err::<Seq<char>, LLMError>(error)
            &&& t.sent.len() == k + 1
            &&& forall|i: int| k < i < steps.len() ==> t.steps[i] == steps[i]
        }),
{
    lemma_execution_from(steps, initial_run(), outcomes);
    let t = execution(steps, initial_run(), outcomes);
    if t.result is Ok {
        assert(outcomes[k] is Ok);
    } else {
        let last = t.sent.len() - 1;
        assert(outcomes[last] is Err);
        if last < k {
            assert(outcomes[last] is Ok);
        }
        if last > k {
            assert(outcomes[k] is Ok);
        }
    }
}

/// Steps run in the order in which they were linked: the `i`-th prompt sent
/// is the `i`-th step's own prompt, given the output of the step before it.
/// No more steps run than there are, and when every step succeeds the
/// result is the last step's output.
pub proof fn steps_run_in_link_order(
    steps: Seq<Seq<MessageView>>,
    outcomes: Seq<Result<Seq<char>, LLMError>>,
)
    requires
        outcomes.len() >= steps.len(),
    ensures
        ({
            let t = execution(steps, initial_run(), outcomes);
            &&& t.sent.len() <= steps.len()
            &&& forall|i: int|
                0 <= i < t.sent.len() ==> #[trigger] t.sent[i] == with_context(
                    steps[i],
                    prior_output(outcomes, i),
                )
            &&& (forall|i: int| 0 <= i < steps.len() ==> #[trigger] outcomes[i] is Ok) ==> {
                &&& t.sent.len() == steps.len()
                &&& t.result == Ok::<Seq<char>, LLMError>(prior_output(outcomes, steps.len() as int))
            }
        }),
{
    lemma_execution_from(steps, initial_run(), outcomes);
    let t = execution(steps, initial_run(), outcomes);
    if forall|i: int| 0 <= i < steps.len() ==> #[trigger] outcomes[i] is Ok {
        if t.result is Err {
            assert(outcomes[t.sent.len() - 1] is Ok);
        }
    }
}

/// A step that returns an empty string hands nothing on: the step after it
/// is sent its own prompt unchanged, and keeps it.
pub proof fn empty_output_is_not_injected(
    steps: Seq<Seq<MessageView>>,
    outcomes: Seq<Result<Seq<char>, LLMError>>,
    k: int,
)
    requires
        0 <= k,
        k + 1 < steps.len(),
        outcomes.len() >= steps.len(),
        forall|j: int| 0 <= j < k ==> #[trigger] outcomes[j] is Ok,
        outcomes[k] == Ok::<Seq<char>, LLMError>(Seq::empty()),
    ensures
        ({
            let t = execution(steps, initial_run(), outcomes);
            &&& t.sent.len() > k + 1
            &&& t.sent[k + 1] == steps[k + 1]
            &&& t.steps[k + 1] == steps[k + 1]
        }),
{
    lemma_execution_from(steps, initial_run(), outcomes);
    let t = execution(steps, initial_run(), outcomes);
    if t.result is Ok {
    } else {
        let last = t.sent.len() - 1;
        assert(outcomes[last] is Err);
        if last <= k {
            assert(outcomes[last] is Ok);
        }
    }
    assert(prior_output(outcomes, k + 1).len() == 0);
    assert(t.sent[k + 1] == with_context(steps[k + 1], prior_output(outcomes, k + 1)));
}

} // verus!
