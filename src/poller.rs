//! The completion poller: a bounded-retry watcher of one remote job. It
//! decides, from each status it is shown, whether the job is over or whether
//! to wait and look again; the waiting itself is left to the caller.

use vstd::prelude::*;

verus! {

/// Attempts that a job is given before it is declared timed out.
pub const DEFAULT_MAX_ATTEMPTS: u32 = 1800;

/// Seconds between two status checks.
pub const DEFAULT_INTERVAL_SECS: u64 = 2;

/// What a status check reports of a job.
#[derive(Clone, Copy, Debug, PartialEq, Eq, Structural)]
pub enum JobState {
    Running,
    Succeeded,
    Failed,
}

/// What to do after a status check.
#[derive(Clone, Copy, Debug, PartialEq, Eq, Structural)]
pub enum PollDecision {
    Succeeded,
    Failed,
    Wait { seconds: u64 },
    TimedOut,
}

/// The state of the job that a status text reports: `succeeded` and `failed`
/// are terminal, anything else means the job goes on.
pub open spec fn state_of(status: Seq<char>) -> JobState {
    if status == seq!['s', 'u', 'c', 'c', 'e', 'e', 'd', 'e', 'd'] {
        JobState::Succeeded
    } else if status == seq!['f', 'a', 'i', 'l', 'e', 'd'] {
        JobState::Failed
    } else {
        JobState::Running
    }
}

/// Reads a status text.
pub fn job_state(status: &str) -> (r: JobState)
    ensures
        r == state_of(status@),
{
    let succeeded = String::from_str("succeeded");
    let failed = String::from_str("failed");
    let status = String::from_str(status);
    proof {
        reveal_strlit("succeeded");
        reveal_strlit("failed");
    }
    assert(succeeded@ =~= seq!['s', 'u', 'c', 'c', 'e', 'e', 'd', 'e', 'd']);
    assert(failed@ =~= seq!['f', 'a', 'i', 'l', 'e', 'd']);
    if status == succeeded {
        JobState::Succeeded
    } else if status == failed {
        JobState::Failed
    } else {
        JobState::Running
    }
}

/// How many waits have been spent on a job, out of how many it may take.
#[derive(Clone, Copy, Debug, PartialEq, Eq, Structural)]
pub struct Poller {
    /// Status checks that found the job running and were followed by a wait.
    pub attempts: u32,
    /// Status checks that the job may take in all.
    pub max_attempts: u32,
    pub interval_secs: u64,
}

/// One status check, which spends one attempt: a terminal state ends the
/// watch; a running job is waited on while this check leaves an attempt for
/// the next one, and times out on the check that spends the last attempt.
pub open spec fn poll_step(p: Poller, s: JobState) -> (Poller, PollDecision) {
    match s {
        JobState::Succeeded => (p, PollDecision::Succeeded),
        JobState::Failed => (p, PollDecision::Failed),
        JobState::Running => if p.attempts + 1 < p.max_attempts {
            (Poller { attempts: (p.attempts + 1) as u32, ..p }, PollDecision::Wait { seconds: p.interval_secs })
        } else {
            (p, PollDecision::TimedOut)
        },
    }
}

/// The waits and the final decision of a watch shown `states` one after the
/// other, or `None` if they run out while it still waits.
pub open spec fn poll_run(p: Poller, states: Seq<JobState>) -> Option<(nat, PollDecision)>
    decreases states.len(),
{
    if states.len() == 0 {
        None
    } else {
        let (q, d) = poll_step(p, states[0]);
        if d is Wait {
            match poll_run(q, states.skip(1)) {
                Some((w, o)) => Some((w + 1, o)),
                None => None,
            }
        } else {
            Some((0, d))
        }
    }
}

impl Poller {
    /// A watch that may check the job `max_attempts` times, `interval_secs`
    /// apart.
    pub fn new(max_attempts: u32, interval_secs: u64) -> (r: Poller)
        ensures
            r == (Poller { attempts: 0, max_attempts, interval_secs }),
    {
        Poller { attempts: 0, max_attempts, interval_secs }
    }

    /// The default watch: 1800 attempts two seconds apart, about an hour.
    pub fn standard() -> (r: Poller)
        ensures
            r == (Poller { attempts: 0, max_attempts: 1800, interval_secs: 2 }),
    {
        Poller::new(DEFAULT_MAX_ATTEMPTS, DEFAULT_INTERVAL_SECS)
    }

    /// Takes in the result of one status check and says what comes next.
    pub fn observe(&mut self, state: JobState) -> (r: PollDecision)
        ensures
            (*final(self), r) == poll_step(*old(self), state),
    {
        match state {
            JobState::Succeeded => PollDecision::Succeeded,
            JobState::Failed => PollDecision::Failed,
            JobState::Running => {
                if (self.attempts as u64) + 1 < self.max_attempts as u64 {
                    self.attempts = self.attempts + 1;
                    PollDecision::Wait { seconds: self.interval_secs }
                } else {
                    PollDecision::TimedOut
                }
            },
        }
    }
}

/// `k` checks that find the job running, then one that finds it finished.
pub open spec fn running_then(k: nat, last: JobState) -> Seq<JobState> {
    Seq::new(k, |i: int| JobState::Running).push(last)
}

/// A job seen running `k` times and then finished, within the attempts
/// left, is waited on exactly `k` times and ends as it finished.
pub proof fn lemma_finishes_after_k_waits(p: Poller, k: nat, last: JobState)
    requires
        k == 0 || p.attempts + k < p.max_attempts,
        last != JobState::Running,
    ensures
        poll_run(p, running_then(k, last)) == Some(
            (k, if last == JobState::Succeeded { PollDecision::Succeeded } else { PollDecision::Failed }),
        ),
    decreases k,
{
    let states = running_then(k, last);
    if k > 0 {
        let q = Poller { attempts: (p.attempts + 1) as u32, ..p };
        assert(states.skip(1) =~= running_then((k - 1) as nat, last));
        lemma_finishes_after_k_waits(q, (k - 1) as nat, last);
    }
}

/// A job that is always seen running is checked exactly once for each
/// attempt left: every check but the last is followed by a wait, and the
/// last one times out.
pub proof fn lemma_times_out_after_budget(p: Poller, states: Seq<JobState>)
    requires
        p.attempts < p.max_attempts,
        states.len() >= p.max_attempts - p.attempts,
        forall|i: int| 0 <= i < states.len() ==> states[i] == JobState::Running,
    ensures
        poll_run(p, states) == Some(((p.max_attempts - p.attempts - 1) as nat, PollDecision::TimedOut)),
    decreases p.max_attempts - p.attempts,
{
    if p.attempts + 1 < p.max_attempts {
        let q = Poller { attempts: (p.attempts + 1) as u32, ..p };
        lemma_times_out_after_budget(q, states.skip(1));
    }
}

/// Whatever the statuses, a watch with attempts left ends, with success,
/// failure or a timeout, within the attempts left: it makes at most that
/// many checks, and waits one time fewer than it checks.
pub proof fn lemma_ends_within_budget(p: Poller, states: Seq<JobState>)
    requires
        p.attempts < p.max_attempts,
        states.len() >= p.max_attempts - p.attempts,
    ensures
        poll_run(p, states) matches Some((waits, decision)) && waits + 1 <= p.max_attempts - p.attempts && !(
        decision is Wait),
    decreases p.max_attempts - p.attempts,
{
    if states[0] == JobState::Running && p.attempts + 1 < p.max_attempts {
        let q = Poller { attempts: (p.attempts + 1) as u32, ..p };
        lemma_ends_within_budget(q, states.skip(1));
    }
}

} // verus!
