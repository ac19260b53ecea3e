use vstd::prelude::*;

verus! {

/// What the driver of a retry does after an attempt.
pub enum RetryAction<E> {
    /// The attempt succeeded: stop with success.
    Succeed,
    /// Attempt `attempt` failed with `error` and attempts remain: report the
    /// failure, wait the delay, then attempt again.
    ReportAndWait { attempt: usize, error: E },
    /// Attempt `attempt`, the last one allowed, failed with `error`: report the
    /// failure and stop with that error.
    ReportAndFail { attempt: usize, error: E },
}

impl<E> RetryAction<E> {
    /// The action emits one diagnostic line.
    pub open spec fn reports(&self) -> bool {
        !(self is Succeed)
    }

    /// The action ends the retry.
    pub open spec fn is_final(&self) -> bool {
        !(self is ReportAndWait)
    }
}

/// The decision taken when attempt `attempt` of at most `max_attempts` ends
/// with `outcome`.
pub open spec fn decide<E>(max_attempts: usize, attempt: usize, outcome: Result<(), E>) -> RetryAction<E> {
    match outcome {
        Ok(()) => RetryAction::Succeed,
        Err(error) => if attempt < max_attempts {
            RetryAction::ReportAndWait { attempt, error }
        } else {
            RetryAction::ReportAndFail { attempt, error }
        },
    }
}

/// The actions taken when the attempts, from attempt number `attempt` on,
/// end with `outcomes` in turn; the run stops at the first final action or
/// when the outcomes run out.
pub open spec fn run<E>(max_attempts: usize, attempt: usize, outcomes: Seq<Result<(), E>>) -> Seq<RetryAction<E>>
    decreases outcomes.len(),
{
    if outcomes.len() == 0 {
        Seq::empty()
    } else {
        let action = decide(max_attempts, attempt, outcomes[0]);
        if action.is_final() {
            seq![action]
        } else {
            seq![action] + run(max_attempts, (attempt + 1) as usize, outcomes.drop_first())
        }
    }
}

/// A retry with a fixed budget of attempts: the decisions of the
/// `attempting(k)` / `succeeded` / `failed` state machine. The driver makes
/// the attempts, prints the reports and sleeps.
pub struct RetryPolicy {
    max_attempts: usize,
    attempt: usize,
    finished: bool,
}

impl RetryPolicy {
    /// The budget of attempts.
    pub closed spec fn spec_max_attempts(&self) -> usize {
        self.max_attempts
    }

    /// The number of the attempt about to be made.
    pub closed spec fn spec_attempt(&self) -> usize {
        self.attempt
    }

    /// The retry has succeeded or failed.
    pub closed spec fn spec_finished(&self) -> bool {
        self.finished
    }

    /// Attempt numbers run from 1 to the budget.
    pub closed spec fn wf(&self) -> bool {
        1 <= self.attempt <= self.max_attempts
    }

    /// Starts at attempt 1; a budget of zero attempts is refused.
    pub fn new(max_attempts: usize) -> (r: Option<RetryPolicy>)
        ensures
            r is None <==> max_attempts == 0,
            r matches Some(p) ==> {
                &&& p.wf()
                &&& p.spec_max_attempts() == max_attempts
                &&& p.spec_attempt() == 1
                &&& !p.spec_finished()
            },
    {
        if max_attempts == 0 {
            None
        } else {
            Some(RetryPolicy { max_attempts, attempt: 1, finished: false })
        }
    }

    /// The number of the attempt about to be made.
    pub fn attempt(&self) -> (r: usize)
        ensures
            r == self.spec_attempt(),
    {
        self.attempt
    }

    /// The budget of attempts.
    pub fn max_attempts(&self) -> (r: usize)
        ensures
            r == self.spec_max_attempts(),
    {
        self.max_attempts
    }

    /// The retry has succeeded or failed.
    pub fn is_finished(&self) -> (r: bool)
        ensures
            r == self.spec_finished(),
    {
        self.finished
    }

    /// Records how the current attempt ended and says what to do next: stop
    /// on success; on failure report it, then wait and go on while attempts
    /// remain, or stop with this (the last) error.
    pub fn record<E>(&mut self, outcome: Result<(), E>) -> (action: RetryAction<E>)
        requires
            old(self).wf(),
            !old(self).spec_finished(),
        ensures
            final(self).wf(),
            action == decide(old(self).spec_max_attempts(), old(self).spec_attempt(), outcome),
            final(self).spec_max_attempts() == old(self).spec_max_attempts(),
            final(self).spec_finished() == action.is_final(),
            final(self).spec_attempt() == if action.is_final() {
                old(self).spec_attempt()
            } else {
                (old(self).spec_attempt() + 1) as usize
            },
    {
        match outcome {
            Ok(()) => {
                self.finished = true;
                RetryAction::Succeed
            },
            Err(error) => {
                let attempt = self.attempt;
                if attempt < self.max_attempts {
                    self.attempt = attempt + 1;
                    RetryAction::ReportAndWait { attempt, error }
                } else {
                    self.finished = true;
                    RetryAction::ReportAndFail { attempt, error }
                }
            },
        }
    }
}

/// From attempt `attempt` on, when every remaining attempt fails, the run
/// reports each remaining attempt, waits between them, and ends with the
/// failure of the last one.
pub proof fn lemma_run_all_failing<E>(max_attempts: usize, attempt: usize, outcomes: Seq<Result<(), E>>)
    requires
        1 <= attempt <= max_attempts,
        outcomes.len() >= max_attempts - attempt + 1,
        forall|i: int| 0 <= i < outcomes.len() ==> (#[trigger] outcomes[i]) is Err,
    ensures
        run(max_attempts, attempt, outcomes).len() == max_attempts - attempt + 1,
        forall|i: int|
            0 <= i < max_attempts - attempt ==> #[trigger] run(max_attempts, attempt, outcomes)[i]
                == (RetryAction::ReportAndWait { attempt: (attempt + i) as usize, error: outcomes[i]->Err_0 }),
        run(max_attempts, attempt, outcomes)[max_attempts - attempt] == (RetryAction::ReportAndFail {
            attempt: max_attempts,
            error: outcomes[max_attempts - attempt]->Err_0,
        }),
    decreases outcomes.len(),
{
    let rest = outcomes.drop_first();
    assert(outcomes[0] is Err);
    if attempt < max_attempts {
        lemma_run_all_failing(max_attempts, (attempt + 1) as usize, rest);
        let tail = run(max_attempts, (attempt + 1) as usize, rest);
        assert forall|i: int| 0 < i < max_attempts - attempt implies #[trigger] run(max_attempts, attempt, outcomes)[i]
            == (RetryAction::ReportAndWait { attempt: (attempt + i) as usize, error: outcomes[i]->Err_0 }) by {
            assert(run(max_attempts, attempt, outcomes)[i] == tail[i - 1]);
            assert(rest[i - 1] == outcomes[i]);
        }
    }
}

/// An action that fails every time is attempted `max_attempts` times: the
/// retry emits one report per attempt, waits only between attempts, and ends
/// with the last error.
pub proof fn lemma_always_failing<E>(max_attempts: usize, outcomes: Seq<Result<(), E>>)
    requires
        max_attempts >= 1,
        outcomes.len() >= max_attempts,
        forall|i: int| 0 <= i < outcomes.len() ==> (#[trigger] outcomes[i]) is Err,
    ensures
        run(max_attempts, 1, outcomes).len() == max_attempts,
        forall|i: int| 0 <= i < max_attempts ==> (#[trigger] run(max_attempts, 1, outcomes)[i]).reports(),
        forall|i: int| 0 <= i < max_attempts - 1 ==> (#[trigger] run(max_attempts, 1, outcomes)[i]) is ReportAndWait,
        run(max_attempts, 1, outcomes).last() == (RetryAction::ReportAndFail {
            attempt: max_attempts,
            error: outcomes[max_attempts - 1]->Err_0,
        }),
{
    lemma_run_all_failing(max_attempts, 1, outcomes);
}

/// From attempt `attempt` on, when the attempt `k` positions ahead is the
/// first to succeed and it is within the budget, the run reports and waits
/// after each of the `k` failures before it, then stops with success.
pub proof fn lemma_run_succeeding<E>(max_attempts: usize, attempt: usize, outcomes: Seq<Result<(), E>>, k: int)
    requires
        1 <= attempt <= max_attempts,
        0 <= k < outcomes.len(),
        attempt + k <= max_attempts,
        outcomes[k] is Ok,
        forall|i: int| 0 <= i < k ==> (#[trigger] outcomes[i]) is Err,
    ensures
        run(max_attempts, attempt, outcomes).len() == k + 1,
        forall|i: int|
            0 <= i < k ==> #[trigger] run(max_attempts, attempt, outcomes)[i]
                == (RetryAction::ReportAndWait { attempt: (attempt + i) as usize, error: outcomes[i]->Err_0 }),
        run(max_attempts, attempt, outcomes)[k] == RetryAction::<E>::Succeed,
    decreases outcomes.len(),
{
    if k > 0 {
        let rest = outcomes.drop_first();
        assert(outcomes[0] is Err);
        assert forall|i: int| 0 <= i < k - 1 implies (#[trigger] rest[i]) is Err by {
            assert(rest[i] == outcomes[i + 1]);
        }
        lemma_run_succeeding(max_attempts, (attempt + 1) as usize, rest, k - 1);
        let tail = run(max_attempts, (attempt + 1) as usize, rest);
        assert forall|i: int| 0 < i < k implies #[trigger] run(max_attempts, attempt, outcomes)[i]
            == (RetryAction::ReportAndWait { attempt: (attempt + i) as usize, error: outcomes[i]->Err_0 }) by {
            assert(run(max_attempts, attempt, outcomes)[i] == tail[i - 1]);
            assert(rest[i - 1] == outcomes[i]);
        }
        assert(run(max_attempts, attempt, outcomes)[k] == tail[k - 1]);
    }
}

/// An action that first succeeds on attempt `k`, within the budget, is
/// attempted `k` times: the retry emits `k - 1` reports, waits `k - 1` times,
/// and ends with success.
pub proof fn lemma_succeeds_on_attempt<E>(max_attempts: usize, outcomes: Seq<Result<(), E>>, k: int)
    requires
        1 <= k <= max_attempts,
        k <= outcomes.len(),
        outcomes[k - 1] is Ok,
        forall|i: int| 0 <= i < k - 1 ==> (#[trigger] outcomes[i]) is Err,
    ensures
        run(max_attempts, 1, outcomes).len() == k,
        forall|i: int| 0 <= i < k - 1 ==> (#[trigger] run(max_attempts, 1, outcomes)[i]) is ReportAndWait,
        forall|i: int| 0 <= i < k - 1 ==> (#[trigger] run(max_attempts, 1, outcomes)[i]).reports(),
        run(max_attempts, 1, outcomes).last() == RetryAction::<E>::Succeed,
        !run(max_attempts, 1, outcomes).last().reports(),
{
    lemma_run_succeeding(max_attempts, 1, outcomes, k - 1);
}

} // verus!
