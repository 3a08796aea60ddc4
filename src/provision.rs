//! Topic provisioning: what a create request's answer means, when broker
//! metadata shows a topic as converged, and the polling that waits for it.

use vstd::prelude::*;
use crate::backoff::{Backoff, delay_at, total_wait};

verus! {

/// Polling attempts made before convergence is given up.
pub const POLL_ATTEMPTS: u32 = 7;

/// Wait before the first poll, in milliseconds.
pub const POLL_BASE_DELAY_MS: u64 = 100;

/// Factor between the waits of two successive polls.
pub const POLL_MULTIPLIER: u64 = 2;

/// The broker's answer for one topic of a create request.
#[derive(Debug)]
pub enum CreateOutcome {
    Created,
    AlreadyExists,
    Failed(String),
}

/// What went wrong while provisioning a topic.
#[derive(Debug)]
pub enum ProvisionError {
    /// The create request returned this many per-topic results instead of one.
    UnexpectedResultCount(usize),
    /// The broker refused to create the topic.
    Creation(String),
    /// Metadata never agreed with the request; the partition count last
    /// observed for the topic, if it was seen at all.
    ConvergenceTimeout(Option<usize>),
}

/// One topic of a broker-wide metadata listing.
#[derive(Debug)]
pub struct TopicInfo {
    pub name: String,
    pub partitions: usize,
}

/// Why one metadata listing does not show the topic as converged.
#[derive(Debug)]
pub enum MetadataMismatch {
    /// The metadata request itself failed.
    FetchFailed(String),
    NoTopics,
    TopicMissing,
    NoPartitions,
    WrongPartitionCount(usize),
}

/// A create request succeeded when it answered for exactly one topic, and
/// that answer was success or "already exists".
pub open spec fn creation_accepted(results: Seq<CreateOutcome>) -> bool {
    results.len() == 1 && !(results[0] is Failed)
}

/// Turns the per-topic answers of a create request into the provisioning result.
pub fn creation_status(results: Vec<CreateOutcome>) -> (r: Result<(), ProvisionError>)
    ensures
        r is Ok <==> creation_accepted(results@),
        results@.len() != 1 ==> r == Err::<(), ProvisionError>(
            ProvisionError::UnexpectedResultCount(results@.len() as usize),
        ),
        results@.len() == 1 && results@[0] is Failed ==> r == Err::<(), ProvisionError>(
            ProvisionError::Creation(results@[0]->Failed_0),
        ),
{
    let n = results.len();
    if n != 1 {
        return Err(ProvisionError::UnexpectedResultCount(n));
    }
    let mut results = results;
    match results.pop() {
        Some(CreateOutcome::Failed(msg)) => Err(ProvisionError::Creation(msg)),
        _ => Ok(()),
    }
}

/// The index of the first topic named `name` in a listing, if any.
pub open spec fn first_named(topics: Seq<TopicInfo>, name: Seq<char>) -> Option<int> {
    if exists|i: int| 0 <= i < topics.len() && topics[i].name@ == name {
        let i = choose|i: int|
            0 <= i < topics.len() && topics[i].name@ == name && forall|j: int|
                0 <= j < i ==> topics[j].name@ != name;
        Some(i)
    } else {
        None
    }
}

/// What one metadata listing says about the requested topic.
pub open spec fn metadata_verdict(topics: Seq<TopicInfo>, name: Seq<char>, partitions: int) -> Result<
    (),
    MetadataMismatch,
> {
    if topics.len() == 0 {
        Err(MetadataMismatch::NoTopics)
    } else {
        match first_named(topics, name) {
            None => Err(MetadataMismatch::TopicMissing),
            Some(i) => if topics[i].partitions == 0 {
                Err(MetadataMismatch::NoPartitions)
            } else if topics[i].partitions != partitions {
                Err(MetadataMismatch::WrongPartitionCount(topics[i].partitions))
            } else {
                Ok(())
            },
        }
    }
}

pub(crate) fn str_eq(a: &str, b: &str) -> (r: bool)
    ensures
        r == (a@ == b@),
{
    let n = a.unicode_len();
    if n != b.unicode_len() {
        return false;
    }
    let mut i: usize = 0;
    while i < n
        invariant
            n == a@.len(),
            n == b@.len(),
            i <= n,
            forall|j: int| 0 <= j < i ==> a@[j] == b@[j],
        decreases n - i,
    {
        if a.get_char(i) != b.get_char(i) {
            return false;
        }
        i = i + 1;
    }
    assert(a@ =~= b@);
    true
}

/// Checks one broker-wide metadata listing against the requested topic.
pub fn check_metadata(topics: &Vec<TopicInfo>, name: &str, partitions: i32) -> (r: Result<
    (),
    MetadataMismatch,
>)
    ensures
        r == metadata_verdict(topics@, name@, partitions as int),
{
    if topics.len() == 0 {
        return Err(MetadataMismatch::NoTopics);
    }
    let mut i: usize = 0;
    while i < topics.len()
        invariant
            i <= topics@.len(),
            forall|j: int| 0 <= j < i ==> topics@[j].name@ != name@,
        decreases topics@.len() - i,
    {
        if str_eq(topics[i].name.as_str(), name) {
            let ghost k = first_named(topics@, name@);
            assert(k is Some && k->Some_0 == i as int) by {
                let c = choose|c: int|
                    0 <= c < topics@.len() && topics@[c].name@ == name@ && forall|j: int|
                        0 <= j < c ==> topics@[j].name@ != name@;
                assert(c == i as int) by {
                    if c < i {
                    } else if c > i {
                        assert(topics@[i as int].name@ == name@);
                    }
                }
            }
            let count = topics[i].partitions;
            if count == 0 {
                return Err(MetadataMismatch::NoPartitions);
            } else if partitions < 0 || count != partitions as usize {
                return Err(MetadataMismatch::WrongPartitionCount(count));
            } else {
                return Ok(());
            }
        }
        i = i + 1;
    }
    Err(MetadataMismatch::TopicMissing)
}

/// The partition count known for the topic after one more poll: what the
/// listing shows, where it shows the topic; else what was known before.
pub open spec fn observation(
    before: Option<usize>,
    fetched: Result<Vec<TopicInfo>, String>,
    name: Seq<char>,
    partitions: int,
) -> Option<usize> {
    match fetched {
        Err(_) => before,
        Ok(topics) => match metadata_verdict(topics@, name, partitions) {
            Ok(()) => Some(partitions as usize),
            Err(MetadataMismatch::WrongPartitionCount(n)) => Some(n),
            Err(MetadataMismatch::NoPartitions) => Some(0),
            Err(_) => before,
        },
    }
}

/// The next thing to do while waiting for a topic to converge.
#[derive(Debug)]
pub enum PollStep {
    /// Wait this many milliseconds, then fetch broker-wide metadata and record it.
    WaitThenFetch(u64),
    Converged,
    TimedOut,
}

/// Waits for a freshly created topic to show up in broker-wide metadata with
/// the requested partition count.
pub struct Provisioner {
    name: String,
    partitions: i32,
    backoff: Backoff,
    converged: bool,
    last_observed: Option<usize>,
}

impl Provisioner {
    /// The topic being provisioned.
    pub closed spec fn topic(&self) -> Seq<char> {
        self.name@
    }

    /// The partition count asked for.
    pub closed spec fn requested(&self) -> int {
        self.partitions as int
    }

    pub closed spec fn attempts(&self) -> nat {
        self.backoff.attempts_spec()
    }

    /// Time waited between polls so far, in milliseconds.
    pub closed spec fn waited(&self) -> nat {
        self.backoff.waited_spec()
    }

    pub closed spec fn is_converged(&self) -> bool {
        self.converged
    }

    pub closed spec fn observed(&self) -> Option<usize> {
        self.last_observed
    }

    pub closed spec fn wf(&self) -> bool {
        &&& self.backoff.wf()
        &&& self.backoff.max_attempts_spec() == POLL_ATTEMPTS
        &&& self.backoff.base_spec() == POLL_BASE_DELAY_MS
        &&& self.backoff.multiplier_spec() == POLL_MULTIPLIER
        &&& self.waited() == total_wait(
            POLL_BASE_DELAY_MS as nat,
            POLL_MULTIPLIER as nat,
            self.attempts(),
        )
    }

    /// A topic's partition count is positive.
    pub fn new(name: String, partitions: i32) -> (r: Provisioner)
        requires
            partitions >= 1,
        ensures
            r.wf(),
            r.topic() == name@,
            r.requested() == partitions,
            r.attempts() == 0,
            r.waited() == 0,
            !r.is_converged(),
            r.observed() is None,
    {
        proof {
            reveal_with_fuel(total_wait, 8);
            reveal_with_fuel(delay_at, 8);
        }
        Provisioner {
            name,
            partitions,
            backoff: Backoff::new(POLL_ATTEMPTS, POLL_BASE_DELAY_MS, POLL_MULTIPLIER),
            converged: false,
            last_observed: None,
        }
    }

    /// What to do next: converged topics are done, a spent budget times out,
    /// and otherwise the next poll comes after its backoff delay.
    pub fn next_step(&self) -> (r: PollStep)
        requires
            self.wf(),
        ensures
            self.is_converged() ==> r is Converged,
            !self.is_converged() && self.attempts() < POLL_ATTEMPTS ==> r == PollStep::WaitThenFetch(
                delay_at(POLL_BASE_DELAY_MS as nat, POLL_MULTIPLIER as nat, self.attempts()) as u64,
            ),
            !self.is_converged() && self.attempts() >= POLL_ATTEMPTS ==> r is TimedOut,
    {
        if self.converged {
            return PollStep::Converged;
        }
        match self.backoff.next_delay() {
            Some(ms) => PollStep::WaitThenFetch(ms),
            None => PollStep::TimedOut,
        }
    }

    /// Records the outcome of one poll, made after the wait that `next_step` asked for.
    pub fn record_poll(&mut self, fetched: Result<Vec<TopicInfo>, String>)
        requires
            old(self).wf(),
            !old(self).is_converged(),
            old(self).attempts() < POLL_ATTEMPTS,
        ensures
            final(self).wf(),
            final(self).topic() == old(self).topic(),
            final(self).requested() == old(self).requested(),
            final(self).attempts() == old(self).attempts() + 1,
            final(self).is_converged() <==> match fetched {
                Ok(topics) => metadata_verdict(topics@, old(self).topic(), old(self).requested())
                    is Ok,
                Err(_) => false,
            },
            final(self).observed() == observation(
                old(self).observed(),
                fetched,
                old(self).topic(),
                old(self).requested(),
            ),
    {
        self.backoff.record_attempt();
        match fetched {
            Ok(topics) => {
                match check_metadata(&topics, self.name.as_str(), self.partitions) {
                    Ok(()) => {
                        self.converged = true;
                        self.last_observed = Some(self.partitions as usize);
                    },
                    Err(MetadataMismatch::WrongPartitionCount(n)) => {
                        self.last_observed = Some(n);
                    },
                    Err(MetadataMismatch::NoPartitions) => {
                        self.last_observed = Some(0);
                    },
                    Err(_) => {},
                }
            },
            Err(_) => {},
        }
    }

    /// The error reported once the polling budget is spent.
    pub fn timeout_error(&self) -> (r: ProvisionError)
        ensures
            r == ProvisionError::ConvergenceTimeout(self.observed()),
    {
        ProvisionError::ConvergenceTimeout(self.last_observed)
    }
}

/// A topic that never converges times out only once all seven polls have
/// been made, after waiting 100 + 200 + 400 + 800 + 1600 + 3200 + 6400 ms.
pub proof fn lemma_timeout_after_full_budget(p: Provisioner)
    requires
        p.wf(),
        !p.is_converged(),
        p.attempts() >= POLL_ATTEMPTS,
    ensures
        p.attempts() == POLL_ATTEMPTS,
        p.waited() == 12700,
{
    p.backoff.lemma_wf();
    reveal_with_fuel(total_wait, 8);
    reveal_with_fuel(delay_at, 8);
}

} // verus!

verus! {

/// Provisioning the same topic again is accepted: the broker's "already
/// exists" answer to the repeated request counts as success, as a fresh
/// creation does.
pub proof fn lemma_repeat_creation_accepted()
    ensures
        creation_accepted(seq![CreateOutcome::Created]),
        creation_accepted(seq![CreateOutcome::AlreadyExists]),
{
}

} // verus!
