//! The chat-completion client's messages and its retry policy. The call
//! itself is made by the caller; this module says what to send, how to read
//! the reply, and what to do after each attempt.
use vstd::prelude::*;

verus! {

broadcast use vstd::string::group_string_axioms;

/// One chat message: a role (`system`, `user`, `assistant`) and its text.
#[derive(Clone, Debug)]
pub struct LLMMessage {
    pub role: String,
    pub content: String,
}

/// Token counts that the provider reports.
#[derive(Clone, Copy, Debug)]
pub struct LLMUsage {
    pub prompt_tokens: u32,
    pub completion_tokens: u32,
    pub total_tokens: u32,
}

/// One choice of a completion.
#[derive(Clone, Debug)]
pub struct LLMChoice {
    pub message: LLMMessage,
    pub finish_reason: Option<String>,
    pub index: u32,
}

/// A completion as the provider returns it.
#[derive(Clone, Debug)]
pub struct LLMResponse {
    pub choices: Vec<LLMChoice>,
    pub usage: Option<LLMUsage>,
}

/// The instruction sent ahead of every prompt.
pub open spec fn system_prompt() -> Seq<char> {
    "You are a helpful AI assistant that always responds with valid XML when requested. Be precise and accurate in your analysis."@
}

/// The messages for one prompt: the fixed system message, then the prompt
/// as the user's message.
pub fn build_messages(prompt: &str) -> (r: Vec<LLMMessage>)
    ensures
        r.len() == 2,
        r[0].role@ == "system"@,
        r[0].content@ == system_prompt(),
        r[1].role@ == "user"@,
        r[1].content@ == prompt@,
{
    let mut v: Vec<LLMMessage> = Vec::new();
    v.push(
        LLMMessage {
            role: String::from_str("system"),
            content: String::from_str(
                "You are a helpful AI assistant that always responds with valid XML when requested. Be precise and accurate in your analysis.",
            ),
        },
    );
    v.push(LLMMessage { role: String::from_str("user"), content: String::from_str(prompt) });
    v
}

/// Why a completion call gave no text.
#[derive(Clone, Copy, Debug, PartialEq, Eq, Structural)]
pub enum LlmError {
    /// A successful call's body did not parse as a completion.
    MalformedBody,
    /// The completion had no choice.
    NoChoices,
    /// Every allowed attempt failed in transport or with an error status.
    Exhausted,
}

/// The text of the first choice of a completion.
pub fn first_choice_text(resp: &LLMResponse) -> (r: Result<String, LlmError>)
    ensures
        resp.choices.len() == 0 ==> r == Err::<String, LlmError>(LlmError::NoChoices),
        resp.choices.len() > 0 ==> r is Ok && r->Ok_0@ == resp.choices[0].message.content@,
{
    if resp.choices.len() == 0 {
        Err(LlmError::NoChoices)
    } else {
        Ok(resp.choices[0].message.content.clone())
    }
}

/// The number of attempts a completion call is given.
pub const MAX_ATTEMPTS: u32 = 3;

/// How one attempt ended.
#[derive(Clone, Debug)]
pub enum AttemptOutcome {
    /// The provider answered with a success status and this completion text.
    Completed(String),
    /// The provider answered with a success status and no choice.
    Empty,
    /// The provider answered with a success status and a body that did not parse.
    Malformed,
    /// The provider answered with this error status.
    Status(u16),
    /// The request did not reach the provider or no answer came back.
    Transport,
}

/// What the caller does after an attempt.
#[derive(Clone, Debug)]
pub enum RetryStep {
    /// Hand this completion text back.
    Done(String),
    /// Wait this many seconds, then make the next attempt.
    RetryAfter(u64),
    /// Give up with this error.
    Fail(LlmError),
}

/// `2` to the power `n`.
pub open spec fn pow2(n: nat) -> nat
    decreases n,
{
    if n == 0 {
        1
    } else {
        2 * pow2((n - 1) as nat)
    }
}

/// The wait before the attempt that follows `made` failed attempts:
/// 2 seconds, then 4, doubling each time.
pub open spec fn backoff_secs(made: nat) -> nat {
    pow2(made)
}

/// What follows an attempt, given how many attempts had failed before it.
pub open spec fn retry_step(failed_before: nat, outcome: AttemptOutcome) -> RetryStep {
    match outcome {
        AttemptOutcome::Completed(t) => RetryStep::Done(t),
        AttemptOutcome::Empty => RetryStep::Fail(LlmError::NoChoices),
        AttemptOutcome::Malformed => RetryStep::Fail(LlmError::MalformedBody),
        _ => if failed_before + 1 < MAX_ATTEMPTS {
            RetryStep::RetryAfter(backoff_secs(failed_before + 1) as u64)
        } else {
            RetryStep::Fail(LlmError::Exhausted)
        },
    }
}

/// Decides what follows an attempt: a completion is handed back, a body
/// without choices or that does not parse fails at once, and a transport
/// failure or error status is retried after a doubling wait until
/// `MAX_ATTEMPTS` attempts have been made.
pub fn next_step(failed_before: u32, outcome: AttemptOutcome) -> (r: RetryStep)
    requires
        failed_before < MAX_ATTEMPTS,
    ensures
        r == retry_step(failed_before as nat, outcome),
{
    match outcome {
        AttemptOutcome::Completed(t) => RetryStep::Done(t),
        AttemptOutcome::Empty => RetryStep::Fail(LlmError::NoChoices),
        AttemptOutcome::Malformed => RetryStep::Fail(LlmError::MalformedBody),
        _ => {
            let made = failed_before + 1;
            if made < MAX_ATTEMPTS {
                let secs: u64 = if made == 1 {
                    2
                } else {
                    4
                };
                proof {
                    assert(pow2(0) == 1);
                    assert(pow2(1) == 2 * pow2(0));
                    assert(pow2(2) == 2 * pow2(1));
                }
                RetryStep::RetryAfter(secs)
            } else {
                RetryStep::Fail(LlmError::Exhausted)
            }
        },
    }
}

/// Whether an outcome is one that is retried.
pub open spec fn is_transient(o: AttemptOutcome) -> bool {
    o is Status || o is Transport
}

/// Three transient failures in a row end the call: the first two are each
/// followed by a wait, 2 seconds and then 4, and the third by the terminal
/// error, so exactly three attempts are made.
pub proof fn lemma_three_failures(a: AttemptOutcome, b: AttemptOutcome, c: AttemptOutcome)
    requires
        is_transient(a),
        is_transient(b),
        is_transient(c),
    ensures
        retry_step(0, a) == RetryStep::RetryAfter(2),
        retry_step(1, b) == RetryStep::RetryAfter(4),
        retry_step(2, c) == RetryStep::Fail(LlmError::Exhausted),
{
    assert(pow2(0) == 1);
    assert(pow2(1) == 2 * pow2(0));
    assert(pow2(2) == 2 * pow2(1));
}

/// Each wait is longer than the one before it.
pub proof fn lemma_backoff_grows(n: nat)
    ensures
        backoff_secs(n) < backoff_secs(n + 1),
{
    assert(pow2(n + 1) == 2 * pow2(n));
    lemma_pow2_positive(n);
}

proof fn lemma_pow2_positive(n: nat)
    ensures
        pow2(n) > 0,
    decreases n,
{
    if n > 0 {
        lemma_pow2_positive((n - 1) as nat);
    }
}

} // verus!
