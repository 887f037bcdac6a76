//! The attachment retrieval pipeline: a two-phase state machine. Phase one
//! triggers the download of a message attachment and either aborts or hands
//! over to phase two, a bounded polling loop that repeatedly asks the backend
//! for the resolved local path. The timeout is attempt-counted: the bound is
//! the maximum number of poll calls, with one fixed sleep interval after every
//! poll that saw an empty path.
//!
//! The backend calls and the sleeps themselves are outside work; the caller
//! runs the loop and feeds every reply into [`PollState::on_poll`], which
//! decides. [`run_retrieval`] is the same loop run against a pre-recorded
//! script of replies and is what the laws and tests exercise.

use vstd::prelude::*;
use vstd::string::StringExecFns;

verus! {

/// How one attachment retrieval ended.
#[derive(Debug, Clone, PartialEq, Eq)]
pub enum PipelineOutcome {
    /// The backend resolved the attachment to this non-empty local path.
    Resolved(String),
    /// The backend refused the download job (phase one returned `false`).
    DownloadRejected,
    /// A backend call itself failed, with its message.
    BackendFailure(String),
    /// Every permitted poll saw an empty path.
    TimedOut,
}

/// Mathematical model of a [`PipelineOutcome`].
pub enum PipelineOutcomeV {
    Resolved(Seq<char>),
    DownloadRejected,
    BackendFailure(Seq<char>),
    TimedOut,
}

impl View for PipelineOutcome {
    type V = PipelineOutcomeV;

    open spec fn view(&self) -> PipelineOutcomeV {
        match self {
            PipelineOutcome::Resolved(p) => PipelineOutcomeV::Resolved(p@),
            PipelineOutcome::DownloadRejected => PipelineOutcomeV::DownloadRejected,
            PipelineOutcome::BackendFailure(e) => PipelineOutcomeV::BackendFailure(e@),
            PipelineOutcome::TimedOut => PipelineOutcomeV::TimedOut,
        }
    }
}

impl PipelineOutcome {
    /// Turns the outcome into the value handed to the response envelope: the
    /// path on success, and a distinct message for each kind of failure.
    pub fn into_result(self) -> (r: Result<String, String>)
        ensures
            match self {
                PipelineOutcome::Resolved(p) => r == Ok::<String, String>(p),
                PipelineOutcome::DownloadRejected => r is Err && r->Err_0@ == "download failed"@,
                PipelineOutcome::BackendFailure(e) => r == Err::<String, String>(e),
                PipelineOutcome::TimedOut => r is Err && r->Err_0@ == "download timed out"@,
            },
    {
        match self {
            PipelineOutcome::Resolved(p) => Ok(p),
            PipelineOutcome::DownloadRejected => Err(String::from_str("download failed")),
            PipelineOutcome::BackendFailure(e) => Err(e),
            PipelineOutcome::TimedOut => Err(String::from_str("download timed out")),
        }
    }
}

/// Model of one poll reply: the resolved path, or the backend's error message.
pub open spec fn reply_view(reply: Result<String, String>) -> Result<Seq<char>, Seq<char>> {
    match reply {
        Ok(p) => Ok(p@),
        Err(e) => Err(e@),
    }
}

/// Model of the download reply: whether the backend accepted the job, or its
/// error message.
pub open spec fn download_view(download: Result<bool, String>) -> Result<bool, Seq<char>> {
    match download {
        Ok(accepted) => Ok(accepted),
        Err(e) => Err(e@),
    }
}

/// Model of a whole script of poll replies.
pub open spec fn replies_view(rs: Seq<Result<String, String>>) -> Seq<Result<Seq<char>, Seq<char>>> {
    rs.map_values(|x: Result<String, String>| reply_view(x))
}

/// What a run of the polling loop did: how it ended, how many poll calls it
/// made, and how many sleep intervals elapsed.
pub struct PollTrace {
    pub outcome: PipelineOutcomeV,
    pub polls: nat,
    pub sleeps: nat,
}

/// The polling loop as a function of the poll budget and the sequence of
/// replies the backend would give: a failed call or a non-empty path ends the
/// loop at once; an empty path costs one attempt and one sleep; an exhausted
/// budget times out. A script that runs out behaves as if the path were never
/// ready.
pub open spec fn run_polls(max: nat, replies: Seq<Result<Seq<char>, Seq<char>>>) -> PollTrace
    decreases max,
{
    if max == 0 || replies.len() == 0 {
        PollTrace { outcome: PipelineOutcomeV::TimedOut, polls: 0, sleeps: 0 }
    } else {
        match replies[0] {
            Err(e) => PollTrace { outcome: PipelineOutcomeV::BackendFailure(e), polls: 1, sleeps: 0 },
            Ok(p) => if p.len() > 0 {
                PollTrace { outcome: PipelineOutcomeV::Resolved(p), polls: 1, sleeps: 0 }
            } else {
                let rest = run_polls((max - 1) as nat, replies.drop_first());
                PollTrace { outcome: rest.outcome, polls: rest.polls + 1, sleeps: rest.sleeps + 1 }
            },
        }
    }
}

/// The whole pipeline as a function of the download reply, the poll budget
/// and the poll replies: phase one aborts on a failed or refused download and
/// otherwise hands over to the polling loop.
pub open spec fn pipeline_spec(
    download: Result<bool, Seq<char>>,
    max: nat,
    replies: Seq<Result<Seq<char>, Seq<char>>>,
) -> PollTrace {
    match download {
        Err(e) => PollTrace { outcome: PipelineOutcomeV::BackendFailure(e), polls: 0, sleeps: 0 },
        Ok(accepted) => if accepted {
            run_polls(max, replies)
        } else {
            PollTrace { outcome: PipelineOutcomeV::DownloadRejected, polls: 0, sleeps: 0 }
        },
    }
}

/// Phase one: the download reply either aborts the pipeline (backend error,
/// or the backend refused the job) or lets it proceed to polling (`None`).
pub fn download_step(download: &Result<bool, String>) -> (r: Option<PipelineOutcome>)
    ensures
        match download {
            Err(e) => r == Some(PipelineOutcome::BackendFailure(*e)),
            Ok(accepted) => if *accepted {
                r is None
            } else {
                r == Some(PipelineOutcome::DownloadRejected)
            },
        },
{
    match download {
        Err(e) => Some(PipelineOutcome::BackendFailure(e.clone())),
        Ok(true) => None,
        Ok(false) => Some(PipelineOutcome::DownloadRejected),
    }
}

/// Phase two's mutable state: how many poll attempts were spent out of the
/// caller-supplied budget.
pub struct PollState {
    pub attempts: u8,
    pub max_attempts: u8,
}

/// What the caller must do after feeding one poll reply in.
#[derive(Debug, Clone, PartialEq, Eq)]
pub enum PollStep {
    /// Not ready yet: sleep one interval, then poll again if budget remains.
    Sleep,
    /// The pipeline is over with this outcome.
    Finished(PipelineOutcome),
}

impl PollState {
    /// Attempts still left before the timeout.
    pub open spec fn budget_left(self) -> bool {
        self.attempts < self.max_attempts
    }

    /// Fresh polling state for an attempt-counted timeout of `timeout` polls.
    pub fn start(timeout: u8) -> (st: Self)
        ensures
            st.attempts == 0,
            st.max_attempts == timeout,
    {
        PollState { attempts: 0, max_attempts: timeout }
    }

    /// Whether another poll is permitted; when not, the pipeline has timed out.
    pub fn can_poll(&self) -> (b: bool)
        ensures
            b == self.budget_left(),
    {
        self.attempts < self.max_attempts
    }

    /// Feeds in one poll reply: a backend error or a non-empty path finishes
    /// the pipeline; an empty path costs one attempt and asks for one sleep.
    pub fn on_poll(&mut self, reply: &Result<String, String>) -> (step: PollStep)
        requires
            old(self).budget_left(),
        ensures
            final(self).max_attempts == old(self).max_attempts,
            match reply {
                Err(e) => step == PollStep::Finished(PipelineOutcome::BackendFailure(*e))
                    && final(self).attempts == old(self).attempts,
                Ok(p) => if p@.len() > 0 {
                    step == PollStep::Finished(PipelineOutcome::Resolved(*p))
                        && final(self).attempts == old(self).attempts
                } else {
                    step == PollStep::Sleep
                        && final(self).attempts == old(self).attempts + 1
                },
            },
    {
        match reply {
            Err(e) => PollStep::Finished(PipelineOutcome::BackendFailure(e.clone())),
            Ok(p) => {
                if p.as_str().unicode_len() > 0 {
                    PollStep::Finished(PipelineOutcome::Resolved(p.clone()))
                } else {
                    self.attempts = self.attempts + 1;
                    PollStep::Sleep
                }
            },
        }
    }
}

/// The pipeline run against a pre-recorded script of poll replies, counting
/// the poll calls made and the sleep intervals taken. This is exactly the
/// loop the gateway runs against the live backend, with the sleeps counted
/// instead of slept.
pub fn run_retrieval(
    download: Result<bool, String>,
    timeout: u8,
    replies: Vec<Result<String, String>>,
) -> (r: (PipelineOutcome, usize, usize))
    requires
        replies@.len() >= timeout,
    ensures
        ({
            let t = pipeline_spec(download_view(download), timeout as nat, replies_view(replies@));
            r.0@ == t.outcome && r.1 == t.polls && r.2 == t.sleeps
        }),
{
    let ghost all = replies_view(replies@);
    if let Some(outcome) = download_step(&download) {
        return (outcome, 0, 0);
    }
    let mut st = PollState::start(timeout);
    let mut i: usize = 0;
    proof {
        assert(all.skip(0) =~= all);
    }
    loop
        invariant
            download is Ok && download->Ok_0 == true,
            st.max_attempts == timeout,
            st.attempts <= st.max_attempts,
            i == st.attempts,
            replies@.len() >= timeout,
            all == replies_view(replies@),
            ({
                let rest = run_polls((st.max_attempts - st.attempts) as nat, all.skip(st.attempts as int));
                run_polls(timeout as nat, all) == (PollTrace {
                    outcome: rest.outcome,
                    polls: (rest.polls + i) as nat,
                    sleeps: (rest.sleeps + i) as nat,
                })
            }),
        decreases st.max_attempts - st.attempts,
    {
        if !st.can_poll() {
            return (PipelineOutcome::TimedOut, i, i);
        }
        let ghost k = st.attempts as int;
        let reply = &replies[i];
        let step = st.on_poll(reply);
        proof {
            assert(all[k] == reply_view(replies@[k]));
            assert(all.skip(k)[0] == all[k]);
            assert forall|j: int| 0 <= j < all.skip(k).drop_first().len() implies all.skip(
                k,
            ).drop_first()[j] == all.skip(k + 1)[j] by {
                assert(all.skip(k).drop_first()[j] == all.skip(k)[j + 1]);
                assert(all.skip(k)[j + 1] == all[k + 1 + j]);
                assert(all.skip(k + 1)[j] == all[k + 1 + j]);
            }
            assert(all.skip(k).drop_first() =~= all.skip(k + 1));
        }
        match step {
            PollStep::Finished(outcome) => {
                return (outcome, i + 1, i);
            },
            PollStep::Sleep => {
                i = i + 1;
            },
        }
    }
}

/// Law: when the first `k` polls see an empty path, `k` is within the budget,
/// and poll `k + 1` resolves a non-empty path, the pipeline returns that path
/// after exactly `k + 1` poll calls and `k` sleep intervals.
pub proof fn lemma_poll_success(max: nat, replies: Seq<Result<Seq<char>, Seq<char>>>, k: int)
    requires
        0 <= k < max,
        k < replies.len(),
        forall|j: int| 0 <= j < k ==> #[trigger] replies[j] is Ok && replies[j]->Ok_0.len() == 0,
        replies[k] is Ok,
        replies[k]->Ok_0.len() > 0,
    ensures
        run_polls(max, replies) == (PollTrace {
            outcome: PipelineOutcomeV::Resolved(replies[k]->Ok_0),
            polls: (k + 1) as nat,
            sleeps: k as nat,
        }),
    decreases k,
{
    if k == 0 {
    } else {
        assert(replies[0] is Ok && replies[0]->Ok_0.len() == 0);
        lemma_poll_success((max - 1) as nat, replies.drop_first(), k - 1);
        assert(replies.drop_first()[k - 1] == replies[k]);
    }
}

/// Law: whatever the backend replies, the pipeline never makes more poll
/// calls than the attempt-counted budget allows, and never sleeps more often
/// than it polls.
pub proof fn lemma_polls_within_budget(max: nat, replies: Seq<Result<Seq<char>, Seq<char>>>)
    ensures
        run_polls(max, replies).polls <= max,
        run_polls(max, replies).sleeps <= run_polls(max, replies).polls,
    decreases max,
{
    if max > 0 && replies.len() > 0 {
        match replies[0] {
            Err(_) => {},
            Ok(p) => {
                if p.len() == 0 {
                    lemma_polls_within_budget((max - 1) as nat, replies.drop_first());
                }
            },
        }
    }
}

/// Law: when every poll within the budget sees an empty path, the pipeline
/// times out after exactly `max` poll calls — never more — and `max` sleeps.
pub proof fn lemma_poll_timeout(max: nat, replies: Seq<Result<Seq<char>, Seq<char>>>)
    requires
        replies.len() >= max,
        forall|j: int| 0 <= j < max ==> #[trigger] replies[j] is Ok && replies[j]->Ok_0.len() == 0,
    ensures
        run_polls(max, replies) == (PollTrace {
            outcome: PipelineOutcomeV::TimedOut,
            polls: max,
            sleeps: max,
        }),
    decreases max,
{
    if max == 0 {
    } else {
        assert(replies[0] is Ok && replies[0]->Ok_0.len() == 0);
        lemma_poll_timeout((max - 1) as nat, replies.drop_first());
    }
}

} // verus!
