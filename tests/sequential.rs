use llm_chain::{Action, ChainRun, LLMChain, LLMError, PromptTemplate, SequentialChain};

fn prompt_of(messages: &[(&str, &str)]) -> PromptTemplate {
    let mut p = PromptTemplate::new();
    for m in messages {
        p.add_prompt(*m);
    }
    p
}

fn pairs(p: &PromptTemplate) -> Vec<(String, String)> {
    p.messages().clone()
}

fn owned(messages: &[(&str, &str)]) -> Vec<(String, String)> {
    messages.iter().map(|(r, t)| (r.to_string(), t.to_string())).collect()
}

/// Drives an execution of `chain`, asking `backend` for each step's outcome.
/// Returns the result and the prompts sent, in order, with their step index.
fn drive(
    chain: &mut SequentialChain,
    backend: &mut dyn FnMut(usize, &PromptTemplate) -> Result<String, LLMError>,
) -> (Result<String, LLMError>, Vec<(usize, Vec<(String, String)>)>) {
    let mut run = ChainRun::new();
    let mut sent = Vec::new();
    loop {
        match chain.next_action(&run) {
            Action::Run(i) => {
                let prompt = chain.step(i).prompt();
                sent.push((i, pairs(prompt)));
                let outcome = backend(i, prompt);
                match chain.record(run, outcome) {
                    Ok(next) => run = next,
                    Err(e) => return (Err(e), sent),
                }
            }
            Action::Done(s) => return (Ok(s), sent),
        }
    }
}

fn scripted(outputs: Vec<Result<String, LLMError>>) -> impl FnMut(usize, &PromptTemplate) -> Result<String, LLMError> {
    move |i, _| outputs[i].clone()
}

#[test]
fn test_generate() {
    let mut chain = SequentialChain::new()
        .link(LLMChain::new(prompt_of(&[("user", "Give me a summary of {{play}}'s plot.")])))
        .link(LLMChain::new(prompt_of(&[(
            "ai",
            "You are a professional critic. When given a summary of a play, you must write a review of it. Here is a summary of {{play}}'s plot:",
        )])));
    let play = "Hamlet";
    let mut backend = |i: usize, _: &PromptTemplate| -> Result<String, LLMError> {
        Ok(format!("answer {} about {}", i, play))
    };
    let (res, _) = drive(&mut chain, &mut backend);
    assert!(res.is_ok());
}

#[test]
fn single_step_returns_its_output() {
    let mut chain = SequentialChain::new().link(LLMChain::new(prompt_of(&[("user", "Say hi.")])));
    let mut backend = scripted(vec![Ok("hi".to_string())]);
    let (res, sent) = drive(&mut chain, &mut backend);
    assert_eq!(res, Ok("hi".to_string()));
    assert_eq!(sent, vec![(0, owned(&[("user", "Say hi.")]))]);
    assert_eq!(pairs(chain.step(0).prompt()), owned(&[("user", "Say hi.")]));
}

#[test]
fn second_step_receives_first_output() {
    let mut chain = SequentialChain::new()
        .link(LLMChain::new(prompt_of(&[("user", "A")])))
        .link(LLMChain::new(prompt_of(&[("system", "B")])));
    let mut backend = scripted(vec![Ok("from A".to_string()), Ok("from B".to_string())]);
    let (res, sent) = drive(&mut chain, &mut backend);
    assert_eq!(res, Ok("from B".to_string()));
    let expected = owned(&[("system", "B"), ("user", "from A")]);
    assert_eq!(sent[1], (1, expected.clone()));
    assert_eq!(pairs(chain.step(1).prompt()), expected);
    assert_eq!(pairs(chain.step(0).prompt()), owned(&[("user", "A")]));
}

#[test]
fn failure_stops_later_steps() {
    let mut chain = SequentialChain::new()
        .link(LLMChain::new(prompt_of(&[("user", "one")])))
        .link(LLMChain::new(prompt_of(&[("user", "two")])))
        .link(LLMChain::new(prompt_of(&[("user", "three")])));
    let mut calls = vec![0usize; 3];
    let mut backend = |i: usize, _: &PromptTemplate| -> Result<String, LLMError> {
        calls[i] += 1;
        if i == 1 {
            Err(LLMError::Backend("connection reset".to_string()))
        } else {
            Ok(format!("out {}", i))
        }
    };
    let (res, sent) = drive(&mut chain, &mut backend);
    assert_eq!(res, Err(LLMError::Backend("connection reset".to_string())));
    assert_eq!(calls, vec![1, 1, 0]);
    assert_eq!(sent.len(), 2);
    assert_eq!(pairs(chain.step(2).prompt()), owned(&[("user", "three")]));
}

#[test]
fn templating_error_is_returned_unchanged() {
    let mut chain = SequentialChain::new()
        .link(LLMChain::new(prompt_of(&[("user", "{{missing}}")])))
        .link(LLMChain::new(prompt_of(&[("user", "next")])));
    let mut backend = scripted(vec![
        Err(LLMError::Templating("missing".to_string())),
        Ok("never".to_string()),
    ]);
    let (res, sent) = drive(&mut chain, &mut backend);
    assert_eq!(res, Err(LLMError::Templating("missing".to_string())));
    assert_eq!(sent.len(), 1);
}

#[test]
fn steps_run_in_link_order() {
    let mut chain = SequentialChain::new();
    chain = chain.link(LLMChain::new(prompt_of(&[("user", "A")])));
    assert_eq!(chain.len(), 1);
    chain = chain.link(LLMChain::new(prompt_of(&[("user", "B")])));
    chain = chain.link(LLMChain::new(prompt_of(&[("user", "C")])));
    let mut backend = |i: usize, p: &PromptTemplate| -> Result<String, LLMError> {
        Ok(format!("{}:{}", i, p.messages()[0].1))
    };
    let (res, sent) = drive(&mut chain, &mut backend);
    assert_eq!(res, Ok("2:C".to_string()));
    let order: Vec<usize> = sent.iter().map(|(i, _)| *i).collect();
    assert_eq!(order, vec![0, 1, 2]);
    assert_eq!(sent[0].1, owned(&[("user", "A")]));
    assert_eq!(sent[1].1, owned(&[("user", "B"), ("user", "0:A")]));
    assert_eq!(sent[2].1, owned(&[("user", "C"), ("user", "1:B")]));
}

#[test]
fn empty_output_skips_injection() {
    let mut chain = SequentialChain::new()
        .link(LLMChain::new(prompt_of(&[("user", "A")])))
        .link(LLMChain::new(prompt_of(&[("user", "B")])))
        .link(LLMChain::new(prompt_of(&[("user", "C")])));
    let mut backend = scripted(vec![Ok("a".to_string()), Ok(String::new()), Ok("c".to_string())]);
    let (res, sent) = drive(&mut chain, &mut backend);
    assert_eq!(res, Ok("c".to_string()));
    assert_eq!(sent[1].1, owned(&[("user", "B"), ("user", "a")]));
    assert_eq!(sent[2].1, owned(&[("user", "C")]));
    assert_eq!(pairs(chain.step(2).prompt()), owned(&[("user", "C")]));
}

#[test]
fn hamlet_summary_then_review() {
    let mut chain = SequentialChain::new()
        .link(LLMChain::new(prompt_of(&[("user", "Summarize {{topic}}.")])))
        .link(LLMChain::new(prompt_of(&[(
            "ai",
            "You are a critic. Given this summary of {{topic}}, write a review:",
        )])));
    let mut backend = scripted(vec![
        Ok("A prince seeks revenge.".to_string()),
        Ok("A moody but compelling tragedy.".to_string()),
    ]);
    let (res, _) = drive(&mut chain, &mut backend);
    assert_eq!(res, Ok("A moody but compelling tragedy.".to_string()));
    assert_eq!(
        pairs(chain.step(1).prompt()),
        owned(&[
            ("ai", "You are a critic. Given this summary of {{topic}}, write a review:"),
            ("user", "A prince seeks revenge."),
        ])
    );
}

#[test]
fn empty_chain_returns_empty_string() {
    let mut chain = SequentialChain::new();
    assert_eq!(chain.len(), 0);
    let mut backend = scripted(vec![]);
    let (res, sent) = drive(&mut chain, &mut backend);
    assert_eq!(res, Ok(String::new()));
    assert!(sent.is_empty());
}

#[test]
fn next_action_injects_then_record_advances() {
    let mut chain = SequentialChain::new()
        .link(LLMChain::new(prompt_of(&[("user", "A")])))
        .link(LLMChain::new(prompt_of(&[("user", "B")])));
    let run = ChainRun::new();
    assert_eq!(run.next_index(), 0);
    assert_eq!(run.response(), "");
    assert!(matches!(chain.next_action(&run), Action::Run(0)));
    assert_eq!(pairs(chain.step(0).prompt()), owned(&[("user", "A")]));
    let run = chain.record(run, Ok("x".to_string())).ok().unwrap();
    assert_eq!(run.next_index(), 1);
    assert_eq!(run.response(), "x");
    assert!(matches!(chain.next_action(&run), Action::Run(1)));
    assert_eq!(pairs(chain.step(1).prompt()), owned(&[("user", "B"), ("user", "x")]));
    let run = chain.record(run, Ok("y".to_string())).ok().unwrap();
    match chain.next_action(&run) {
        Action::Done(s) => assert_eq!(s, "y"),
        Action::Run(_) => panic!("no step is left"),
    }
    assert_eq!(pairs(chain.step(1).prompt()), owned(&[("user", "B"), ("user", "x")]));
}

#[test]
fn record_of_a_failure_returns_the_error() {
    let chain = SequentialChain::new().link(LLMChain::new(prompt_of(&[("user", "A")])));
    let run = ChainRun::new();
    let r = chain.record(run, Err(LLMError::Backend("rate limited".to_string())));
    assert!(matches!(r, Err(LLMError::Backend(ref m)) if m == "rate limited"));
}

#[test]
fn get_prompt_changes_the_step_in_place() {
    let mut step = LLMChain::new(PromptTemplate::new());
    assert_eq!(step.prompt().len(), 0);
    step.get_prompt().add_prompt(("system", "first"));
    step.get_prompt().add_prompt(("user", "second"));
    assert_eq!(pairs(step.prompt()), owned(&[("system", "first"), ("user", "second")]));
    assert_eq!(step.prompt().len(), 2);
}
