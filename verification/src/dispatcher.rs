//! The dispatcher: drives a saga on its own shard until the saga is complete
//! or has to go on elsewhere.

use crate::handoff::{
    attempts, judge, lemma_retries, outcome, redirect, CallResult, Handoff, HandoffReport,
};
use crate::shard::{same_shard, same_shard_spec, ShardId};
use vstd::prelude::*;

verus! {

/// A handle on the shard that it runs on. It holds nothing but that shard's
/// identity: two dispatchers of one shard decide alike.
#[derive(Clone, Copy, Debug)]
pub struct Dispatcher {
    current_shard_id: ShardId,
}

/// What the dispatcher does after a step.
#[derive(Clone, Copy, Debug, PartialEq, Eq)]
pub enum Next {
    /// The saga goes on here: step again.
    Step,
    /// The saga is complete: drop it.
    Complete,
    /// The saga goes on at the named shard: hand it over and step no more.
    Redirect(ShardId),
}

/// How the local part of a saga went.
#[derive(Clone, Copy, Debug, PartialEq, Eq)]
pub struct LocalReport {
    /// The number of steps that were taken.
    pub steps: usize,
    /// What the last step led to; `Step` where the saga is still under way
    /// here and the next step is to be taken.
    pub next: Next,
}

/// How a saga went on one shard.
#[derive(Debug, PartialEq, Eq)]
pub struct SagaReport {
    /// The number of steps that were taken.
    pub steps: usize,
    /// What the last step led to; `Step` where the saga is still under way
    /// here and the next step is to be taken.
    pub next: Next,
    /// The handoff, where the saga had to go on elsewhere.
    pub handoff: Option<HandoffReport>,
}

impl SagaReport {
    /// The number of remote calls that were answered.
    pub open spec fn remote_calls(self) -> nat {
        match self.handoff {
            Some(handoff) => handoff.attempts as nat,
            None => 0,
        }
    }
}

impl Dispatcher {
    /// The shard that the dispatcher runs on.
    pub closed spec fn shard(self) -> ShardId {
        self.current_shard_id
    }

    /// What follows a step that reported `reported`: nothing where it named
    /// no shard, one more step where it named this shard, and the handoff to
    /// the shard that it named otherwise.
    pub open spec fn next(self, reported: Option<ShardId>) -> Next {
        match reported {
            None => Next::Complete,
            Some(shard) => if same_shard_spec(shard, self.shard()) {
                Next::Step
            } else {
                Next::Redirect(shard)
            },
        }
    }

    /// The number of steps at the head of `reported` that named this shard.
    pub open spec fn local_steps(self, reported: Seq<Option<ShardId>>) -> nat
        decreases reported.len(),
    {
        if reported.len() > 0 && self.next(reported[0]) is Step {
            1 + self.local_steps(reported.drop_first())
        } else {
            0
        }
    }

    /// The number of steps that are taken of a saga whose successive steps
    /// report `reported`: every one that named this shard, and the first that
    /// did not. No step after that one is taken.
    pub open spec fn steps_taken(self, reported: Seq<Option<ShardId>>) -> nat {
        if self.local_steps(reported) < reported.len() {
            self.local_steps(reported) + 1
        } else {
            reported.len()
        }
    }

    /// What the steps of a saga lead to: what follows the first step that did
    /// not name this shard, or `Step` where every one did and the saga is
    /// still under way here.
    pub open spec fn local_end(self, reported: Seq<Option<ShardId>>) -> Next {
        if self.local_steps(reported) < reported.len() {
            self.next(reported[self.local_steps(reported) as int])
        } else {
            Next::Step
        }
    }

    /// The number of remote calls that are answered for a saga whose steps
    /// report `reported`, where the successive calls get `replies`: those of
    /// the handoff where the saga leaves this shard, and none otherwise.
    pub open spec fn remote_calls(
        self,
        reported: Seq<Option<ShardId>>,
        replies: Seq<CallResult>,
    ) -> nat {
        if self.local_end(reported) is Redirect {
            attempts(replies)
        } else {
            0
        }
    }

    /// `local_steps` is the index of the first step that did not name this
    /// shard, or the length where there is none.
    pub proof fn lemma_local_steps(self, reported: Seq<Option<ShardId>>, n: nat)
        requires
            n <= reported.len(),
            forall|i: int| 0 <= i < n ==> self.next(#[trigger] reported[i]) is Step,
            n < reported.len() ==> !(self.next(reported[n as int]) is Step),
        ensures
            self.local_steps(reported) == n,
        decreases n,
    {
        if n > 0 {
            let rest = reported.drop_first();
            assert forall|i: int| 0 <= i < n - 1 implies self.next(#[trigger] rest[i]) is Step by {
                assert(rest[i] == reported[i + 1]);
            }
            if n < reported.len() {
                assert(rest[n - 1] == reported[n as int]);
            }
            self.lemma_local_steps(rest, (n - 1) as nat);
        }
    }

    /// The steps before the first that does not name this shard all name it.
    pub proof fn lemma_local_steps_first(self, reported: Seq<Option<ShardId>>)
        ensures
            self.local_steps(reported) <= reported.len(),
            forall|i: int|
                0 <= i < self.local_steps(reported) ==> self.next(#[trigger] reported[i]) is Step,
            self.local_steps(reported) < reported.len() ==> !(self.next(
                reported[self.local_steps(reported) as int],
            ) is Step),
        decreases reported.len(),
    {
        if reported.len() > 0 && self.next(reported[0]) is Step {
            let rest = reported.drop_first();
            self.lemma_local_steps_first(rest);
            assert forall|i: int| 0 <= i < self.local_steps(reported) implies self.next(
                #[trigger] reported[i],
            ) is Step by {
                if i > 0 {
                    assert(rest[i - 1] == reported[i]);
                }
            }
            if self.local_steps(reported) < reported.len() {
                assert(rest[self.local_steps(rest) as int] == reported[self.local_steps(
                    reported,
                ) as int]);
            }
        }
    }

    /// The steps of one saga follow one another: each is taken only after
    /// the one before it has reported this shard, and a remote call is made
    /// only after a step has named another shard.
    pub proof fn lemma_steps_in_sequence(
        self,
        reported: Seq<Option<ShardId>>,
        replies: Seq<CallResult>,
    )
        ensures
            self.steps_taken(reported) <= reported.len(),
            forall|i: int|
                0 <= i < self.steps_taken(reported) - 1 ==> (#[trigger] reported[i] matches Some(
                    shard,
                ) && same_shard_spec(shard, self.shard())),
            self.remote_calls(reported, replies) > 0 ==> self.steps_taken(reported) >= 1 && (
            reported[self.steps_taken(reported) - 1] matches Some(target) && !same_shard_spec(
                target,
                self.shard(),
            )),
    {
        self.lemma_local_steps_first(reported);
    }

    /// Dispatchers of one shard are interchangeable: they take the same
    /// steps of a saga and come to the same end.
    pub proof fn lemma_interchangeable(self, other: Dispatcher, reported: Seq<Option<ShardId>>)
        requires
            same_shard_spec(self.shard(), other.shard()),
        ensures
            self.local_steps(reported) == other.local_steps(reported),
            self.steps_taken(reported) == other.steps_taken(reported),
            self.local_end(reported) == other.local_end(reported),
        decreases reported.len(),
    {
        if reported.len() > 0 {
            self.lemma_interchangeable(other, reported.drop_first());
        }
    }

    /// A saga that never leaves: where every step before the last names this
    /// shard and the last names none, every step is taken, the saga ends
    /// complete, and no remote call is made.
    pub proof fn lemma_local_saga_completes(
        self,
        reported: Seq<Option<ShardId>>,
        replies: Seq<CallResult>,
        last: nat,
    )
        requires
            last < reported.len(),
            forall|i: int|
                0 <= i < last ==> (#[trigger] reported[i] matches Some(shard) && same_shard_spec(
                    shard,
                    self.shard(),
                )),
            reported[last as int] is None,
        ensures
            self.steps_taken(reported) == last + 1,
            self.local_end(reported) is Complete,
            self.remote_calls(reported, replies) == 0,
    {
        self.lemma_local_steps(reported, last);
    }

    /// A saga that has not ended: where every step so far names this shard,
    /// every one is taken, the next is due, and no remote call is made.
    pub proof fn lemma_local_saga_goes_on(
        self,
        reported: Seq<Option<ShardId>>,
        replies: Seq<CallResult>,
    )
        requires
            forall|i: int|
                0 <= i < reported.len() ==> (#[trigger] reported[i] matches Some(shard)
                    && same_shard_spec(shard, self.shard())),
        ensures
            self.steps_taken(reported) == reported.len(),
            self.local_end(reported) is Step,
            self.remote_calls(reported, replies) == 0,
    {
        self.lemma_local_steps(reported, reported.len());
    }

    /// A saga that leaves once: where the first step that does not name this
    /// shard names `target`, that step is the last one taken here, whatever
    /// the later ones would report, and the saga is handed over to `target`.
    /// Where the handoff call then fails in passing `failures` times and is
    /// acknowledged after that, it is made `failures + 1` times and
    /// delivered.
    pub proof fn lemma_redirected_once(
        self,
        reported: Seq<Option<ShardId>>,
        replies: Seq<CallResult>,
        last: nat,
        target: ShardId,
        failures: nat,
    )
        requires
            last < reported.len(),
            forall|i: int|
                0 <= i < last ==> (#[trigger] reported[i] matches Some(shard) && same_shard_spec(
                    shard,
                    self.shard(),
                )),
            reported[last as int] == Some(target),
            !same_shard_spec(target, self.shard()),
            failures < replies.len(),
            forall|j: int| 0 <= j < failures ==> judge(#[trigger] replies[j]) is Retry,
            judge(replies[failures as int]) is Delivered,
        ensures
            self.steps_taken(reported) == last + 1,
            self.local_end(reported) == Next::Redirect(target),
            self.remote_calls(reported, replies) == failures + 1,
            outcome(replies) is Delivered,
    {
        self.lemma_local_steps(reported, last);
        lemma_retries(replies, failures);
    }

    /// A dispatcher for the shard `current_shard_id`.
    pub fn new(current_shard_id: ShardId) -> (dispatcher: Dispatcher)
        ensures
            dispatcher.shard() == current_shard_id,
    {
        Dispatcher { current_shard_id }
    }

    /// The shard that the dispatcher runs on.
    pub fn current_shard_id(&self) -> (shard: ShardId)
        ensures
            shard == self.shard(),
    {
        self.current_shard_id
    }

    /// Decides what follows a step that reported `reported`.
    pub fn after_step(&self, reported: Option<ShardId>) -> (next: Next)
        ensures
            next == self.next(reported),
    {
        match reported {
            None => Next::Complete,
            Some(shard) => {
                if same_shard(shard, self.current_shard_id) {
                    Next::Step
                } else {
                    Next::Redirect(shard)
                }
            },
        }
    }

    /// Drives a saga on this shard, with `reported` as what its successive
    /// steps report.
    ///
    /// Steps are taken for as long as they name this shard. The first that
    /// does not ends the saga's time here, and no step after it is taken.
    pub fn process_saga(&self, reported: &Vec<Option<ShardId>>) -> (report: LocalReport)
        ensures
            report.steps == self.steps_taken(reported@),
            report.next == self.local_end(reported@),
    {
        let mut steps: usize = 0;
        let mut next = Next::Step;
        let mut here = true;
        while here && steps < reported.len()
            invariant
                steps <= reported.len(),
                here == (next is Step),
                here ==> forall|i: int| 0 <= i < steps ==> self.next(#[trigger] reported@[i]) is Step,
                !here ==> steps >= 1 && next == self.next(reported@[steps - 1]) && forall|i: int|
                    0 <= i < steps - 1 ==> self.next(#[trigger] reported@[i]) is Step,
            decreases reported.len() - steps + if here { 1int } else { 0int },
        {
            next = self.after_step(reported[steps]);
            steps = steps + 1;
            here = match next {
                Next::Step => true,
                _ => false,
            };
        }
        proof {
            if here {
                self.lemma_local_steps(reported@, steps as nat);
            } else {
                self.lemma_local_steps(reported@, (steps - 1) as nat);
            }
        }
        LocalReport { steps, next }
    }

    /// Runs a saga on this shard: `reported` is what its successive steps
    /// report, `payload` its remaining state as bytes, and `replies` the
    /// answers that the successive remote calls get.
    ///
    /// The saga is stepped as `process_saga` says. Where it has to go on at
    /// another shard, it is handed over to that shard as `redirect` says, and
    /// otherwise no remote call is made.
    pub fn run_saga(
        &self,
        reported: &Vec<Option<ShardId>>,
        payload: Vec<u8>,
        replies: &Vec<CallResult>,
    ) -> (report: SagaReport)
        ensures
            report.steps == self.steps_taken(reported@),
            report.next == self.local_end(reported@),
            report.remote_calls() == self.remote_calls(reported@, replies@),
            match report.handoff {
                Some(handoff) => {
                    &&& report.next == Next::Redirect(handoff.message.target)
                    &&& handoff.message.payload == payload
                    &&& handoff.attempts == attempts(replies@)
                    &&& handoff.verdict@ == outcome(replies@)
                },
                None => !(report.next is Redirect),
            },
    {
        let local = self.process_saga(reported);
        let handoff = match local.next {
            Next::Redirect(target) => Some(redirect(Handoff::new(target, payload), replies)),
            _ => None,
        };
        SagaReport { steps: local.steps, next: local.next, handoff }
    }
}

} // verus!
