//! The reliable handoff of a saga to another shard.
//!
//! A handoff is one remote call, repeated until the target shard has answered
//! it for good. Each answer is judged on its own: an empty acknowledgement
//! ends the handoff, a rejection by the target's own code aborts it, and every
//! other failure has the same call made once more.

use crate::shard::ShardId;
use vstd::prelude::*;

verus! {

/// The endpoint that every shard offers for taking over a saga.
pub const REDIRECT_METHOD_NAME: &'static str = "union_db_execute_redirected";

/// Why a remote call was rejected.
#[derive(Clone, Copy, Debug, PartialEq, Eq, Structural)]
pub enum RejectionCode {
    NoError,
    SysFatal,
    SysTransient,
    DestinationInvalid,
    CanisterReject,
    /// The target's own code failed on the call.
    CanisterError,
    Unknown,
}

/// The answer to one remote call: the bytes that came back, or the rejection
/// with its message.
pub type CallResult = Result<Vec<u8>, (RejectionCode, String)>;

/// The handoff message: the saga's remaining state as bytes, and the shard
/// that is to resume it.
#[derive(Debug, PartialEq, Eq)]
pub struct Handoff {
    pub target: ShardId,
    pub payload: Vec<u8>,
}

/// What one answer means for the handoff.
#[derive(Debug, PartialEq, Eq)]
pub enum Verdict {
    /// The target acknowledged the saga: the handoff is over.
    Delivered,
    /// The call failed in passing: the same call has to be made again.
    Retry,
    /// The target's own code rejected the saga: the task aborts with this
    /// message.
    Abort(String),
    /// The call succeeded with a body where none is allowed: the task aborts.
    Violation,
}

/// A verdict as a value of specifications.
pub enum Judgement {
    Delivered,
    Retry,
    Abort(Seq<char>),
    Violation,
}

impl View for Verdict {
    type V = Judgement;

    open spec fn view(&self) -> Judgement {
        match *self {
            Verdict::Delivered => Judgement::Delivered,
            Verdict::Retry => Judgement::Retry,
            Verdict::Abort(reason) => Judgement::Abort(reason@),
            Verdict::Violation => Judgement::Violation,
        }
    }
}

/// The meaning of one answer.
///
/// An empty acknowledgement delivers, any other acknowledgement violates the
/// endpoint's contract, `CanisterError` aborts with the rejection's message,
/// and every other rejection is retried.
pub open spec fn judge(reply: CallResult) -> Judgement {
    match reply {
        Ok(body) => if body@.len() == 0 {
            Judgement::Delivered
        } else {
            Judgement::Violation
        },
        Err((code, message)) => if code == RejectionCode::CanisterError {
            Judgement::Abort(message@)
        } else {
            Judgement::Retry
        },
    }
}

/// Judges one answer to the handoff call.
pub fn classify(reply: &CallResult) -> (verdict: Verdict)
    ensures
        verdict@ == judge(*reply),
{
    match reply {
        Ok(body) => {
            if body.len() == 0 {
                Verdict::Delivered
            } else {
                Verdict::Violation
            }
        },
        Err((code, message)) => {
            match code {
                RejectionCode::CanisterError => Verdict::Abort(message.clone()),
                _ => Verdict::Retry,
            }
        },
    }
}

impl Handoff {
    /// The message that hands `payload` over to `target`.
    pub fn new(target: ShardId, payload: Vec<u8>) -> (message: Handoff)
        ensures
            message.target == target,
            message.payload == payload,
    {
        Handoff { target, payload }
    }

    /// The endpoint to call on the target.
    pub fn method(&self) -> (name: &'static str)
        ensures
            name@ == REDIRECT_METHOD_NAME@,
    {
        REDIRECT_METHOD_NAME
    }

    /// The payment that goes with the call: none.
    pub fn payment(&self) -> (cycles: u64)
        ensures
            cycles == 0,
    {
        0
    }
}

/// The number of answers at the head of `replies` that ask for a retry.
pub open spec fn retries(replies: Seq<CallResult>) -> nat
    decreases replies.len(),
{
    if replies.len() > 0 && judge(replies[0]) is Retry {
        1 + retries(replies.drop_first())
    } else {
        0
    }
}

/// The number of calls that are answered when the successive calls of one
/// handoff get `replies`: every retried one, and the first that settles the
/// handoff. Answers after that one are never asked for.
pub open spec fn attempts(replies: Seq<CallResult>) -> nat {
    if retries(replies) < replies.len() {
        retries(replies) + 1
    } else {
        replies.len()
    }
}

/// Where the handoff stands after `replies`: the verdict on the first answer
/// that is not retried, or `Retry` where every answer was and the call is to
/// be made again.
pub open spec fn outcome(replies: Seq<CallResult>) -> Judgement {
    if retries(replies) < replies.len() {
        judge(replies[retries(replies) as int])
    } else {
        Judgement::Retry
    }
}

/// `retries` is the index of the first answer that is not retried, or the
/// length where there is none.
pub proof fn lemma_retries(replies: Seq<CallResult>, n: nat)
    requires
        n <= replies.len(),
        forall|j: int| 0 <= j < n ==> judge(#[trigger] replies[j]) is Retry,
        n < replies.len() ==> !(judge(replies[n as int]) is Retry),
    ensures
        retries(replies) == n,
    decreases n,
{
    if n > 0 {
        let rest = replies.drop_first();
        assert forall|j: int| 0 <= j < n - 1 implies judge(#[trigger] rest[j]) is Retry by {
            assert(rest[j] == replies[j + 1]);
        }
        if n < replies.len() {
            assert(rest[n - 1] == replies[n as int]);
        }
        lemma_retries(rest, (n - 1) as nat);
    }
}

/// The answers before the first that is not retried all ask for a retry.
pub proof fn lemma_retries_first(replies: Seq<CallResult>)
    ensures
        retries(replies) <= replies.len(),
        forall|j: int| 0 <= j < retries(replies) ==> judge(#[trigger] replies[j]) is Retry,
        retries(replies) < replies.len() ==> !(judge(replies[retries(replies) as int]) is Retry),
    decreases replies.len(),
{
    if replies.len() > 0 && judge(replies[0]) is Retry {
        let rest = replies.drop_first();
        lemma_retries_first(rest);
        assert forall|j: int| 0 <= j < retries(replies) implies judge(
            #[trigger] replies[j],
        ) is Retry by {
            if j > 0 {
                assert(rest[j - 1] == replies[j]);
            }
        }
        if retries(replies) < replies.len() {
            assert(rest[retries(rest) as int] == replies[retries(replies) as int]);
        }
    }
}

/// How one handoff went.
#[derive(Debug, PartialEq, Eq)]
pub struct HandoffReport {
    /// The message that every call carried.
    pub message: Handoff,
    /// The number of calls that were answered.
    pub attempts: usize,
    /// The verdict on the last answer; `Retry` where the handoff is still
    /// open and the call is to be made again.
    pub verdict: Verdict,
}

/// Hands `message` over, with `replies` as the answers that the successive
/// calls get.
///
/// The call is repeated, with the same message, for as long as the answers
/// ask for a retry. The first answer that does not settles the handoff, and
/// no answer after it is looked at.
pub fn redirect(message: Handoff, replies: &Vec<CallResult>) -> (report: HandoffReport)
    ensures
        report.message == message,
        report.attempts == attempts(replies@),
        report.verdict@ == outcome(replies@),
{
    let mut attempts: usize = 0;
    let mut verdict = Verdict::Retry;
    let mut open = true;
    while open && attempts < replies.len()
        invariant
            attempts <= replies.len(),
            open == (verdict@ is Retry),
            open ==> forall|j: int| 0 <= j < attempts ==> judge(#[trigger] replies@[j]) is Retry,
            !open ==> attempts >= 1 && verdict@ == judge(replies@[attempts - 1]) && forall|j: int|
                0 <= j < attempts - 1 ==> judge(#[trigger] replies@[j]) is Retry,
        decreases replies.len() - attempts + if open { 1int } else { 0int },
    {
        verdict = classify(&replies[attempts]);
        attempts = attempts + 1;
        open = match verdict {
            Verdict::Retry => true,
            _ => false,
        };
    }
    proof {
        if open {
            lemma_retries(replies@, attempts as nat);
        } else {
            lemma_retries(replies@, (attempts - 1) as nat);
        }
    }
    HandoffReport { message, attempts, verdict }
}

/// The calls of one handoff follow one another: each is made only after the
/// one before it was answered with a retry, so that no call follows an
/// acknowledgement and at most one call is acknowledged.
pub proof fn lemma_calls_in_sequence(replies: Seq<CallResult>)
    ensures
        attempts(replies) <= replies.len(),
        forall|j: int| 0 <= j < attempts(replies) - 1 ==> judge(#[trigger] replies[j]) is Retry,
        forall|j: int|
            0 <= j < attempts(replies) && judge(#[trigger] replies[j]) is Delivered ==> j
                == attempts(replies) - 1 && outcome(replies) is Delivered,
{
    lemma_retries_first(replies);
}

/// A given number of failures in passing, then an acknowledgement: the call
/// is made once more than it failed, and the handoff is delivered.
pub proof fn lemma_retried_until_delivered(replies: Seq<CallResult>, failures: nat)
    requires
        failures < replies.len(),
        forall|j: int| 0 <= j < failures ==> judge(#[trigger] replies[j]) is Retry,
        judge(replies[failures as int]) is Delivered,
    ensures
        attempts(replies) == failures + 1,
        outcome(replies) is Delivered,
{
    lemma_retries(replies, failures);
}

/// A rejection by the target's own code on the first call: that call is the
/// only one, and the handoff aborts with the rejection's message.
pub proof fn lemma_rejection_is_final(replies: Seq<CallResult>, message: String)
    requires
        replies.len() > 0,
        replies[0] matches Err((code, text)) && code == RejectionCode::CanisterError && text
            == message,
    ensures
        attempts(replies) == 1,
        outcome(replies) == Judgement::Abort(message@),
{
    lemma_retries(replies, 0);
}

} // verus!
