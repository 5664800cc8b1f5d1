//! The admission controller: a bounded pool of concurrency slots for remote
//! calls, and the retry policy for transient (rate-limit / forbidden class)
//! responses — up to three retries after the initial attempt, each preceded
//! by a uniformly random backoff below `1000 * 2^retry` milliseconds.

use vstd::prelude::*;

verus! {

/// Concurrency budget of the reference configuration.
pub const REQUEST_CONCURRENCY: u64 = 8;

/// Per-call timeout of the reference configuration, in seconds.
pub const REQUEST_TIMEOUT_SECS: u64 = 10;

/// Retries permitted after the initial attempt.
pub const MAX_RETRIES: u64 = 3;

/// A response status of the rate-limit / forbidden class is transient and
/// worth retrying; every other status ends the call.
pub open spec fn transient_status(status: u16) -> bool {
    status == 403
}

/// How many attempts a call may issue when `len` responses would come back:
/// one initial attempt plus up to `MAX_RETRIES` retries, but no more than
/// the responses available.
pub open spec fn min_attempts(len: int) -> int {
    if len < 4 {
        len
    } else {
        4
    }
}

/// The call is accepted on attempt `i` (counting from 0): every earlier
/// attempt came back transient, attempt `i` did not, and `i` is within the
/// attempt budget.
pub open spec fn accepts_at(statuses: Seq<u16>, i: int) -> bool {
    &&& 0 <= i < statuses.len()
    &&& i < 4
    &&& !transient_status(statuses[i])
    &&& forall|j: int| 0 <= j < i ==> transient_status(statuses[j])
}

/// What became of one call after the retry policy ran its course.
#[derive(Clone, Copy, Debug, PartialEq, Eq, Structural)]
pub enum CallOutcome {
    /// A non-transient response arrived; `attempts` were issued in total.
    Accepted { attempts: u64, status: u16 },
    /// Every attempt in the budget came back transient; the call fails.
    Exhausted { attempts: u64 },
}

/// Runs the retry policy against the responses the remote side would give,
/// in order: attempt `i` observes `statuses[i]`.  Issues at most four
/// attempts (one initial, three retries) and stops at the first
/// non-transient response.
pub fn drive_call(statuses: &Vec<u16>) -> (r: CallOutcome)
    ensures
        forall|i: int|
            accepts_at(statuses@, i) ==> r == (CallOutcome::Accepted {
                attempts: (i + 1) as u64,
                status: statuses@[i],
            }),
        (forall|j: int| 0 <= j < min_attempts(statuses@.len() as int) ==> transient_status(statuses@[j]))
            ==> r == (CallOutcome::Exhausted {
            attempts: min_attempts(statuses@.len() as int) as u64,
        }),
{
    let max: usize = if statuses.len() < 4 {
        statuses.len()
    } else {
        4
    };
    let mut i: usize = 0;
    while i < max
        invariant
            i <= max,
            max == min_attempts(statuses@.len() as int),
            forall|j: int| 0 <= j < i ==> transient_status(statuses@[j]),
        decreases max - i,
    {
        let status = statuses[i];
        if status != 403 {
            return CallOutcome::Accepted { attempts: (i as u64) + 1, status };
        }
        i += 1;
    }
    CallOutcome::Exhausted { attempts: max as u64 }
}

/// What the live retry loop does after attempt `attempt` (counting from 0)
/// came back with `status`.
#[derive(Clone, Copy, Debug, PartialEq, Eq, Structural)]
pub enum RetryDecision {
    /// Return this response to the caller.
    Accept,
    /// Sleep a random duration below `backoff_bound_millis(retry)`, then
    /// issue attempt `retry + 1`.
    Backoff { retry: u64 },
    /// The retry budget is spent; the call fails with a terminal error.
    GiveUp,
}

/// The retry rule: a non-transient response is accepted; a transient one is
/// retried with backoff until the budget of `MAX_RETRIES` retries is spent.
pub fn retry_decision(attempt: u64, status: u16) -> (d: RetryDecision)
    requires
        attempt <= MAX_RETRIES,
    ensures
        !transient_status(status) ==> d == RetryDecision::Accept,
        transient_status(status) && attempt < MAX_RETRIES ==> d == (RetryDecision::Backoff {
            retry: attempt,
        }),
        transient_status(status) && attempt == MAX_RETRIES ==> d == RetryDecision::GiveUp,
{
    if status != 403 {
        RetryDecision::Accept
    } else if attempt < MAX_RETRIES {
        RetryDecision::Backoff { retry: attempt }
    } else {
        RetryDecision::GiveUp
    }
}

/// The exclusive upper bound of the backoff before retry number `retry`
/// (counting from 0): `1000 * 2^retry` milliseconds.
pub fn backoff_bound_millis(retry: u64) -> (r: u64)
    requires
        retry < MAX_RETRIES,
    ensures
        retry == 0 ==> r == 1000,
        retry == 1 ==> r == 2000,
        retry == 2 ==> r == 4000,
        r >= 1000,
{
    if retry == 0 {
        1000
    } else if retry == 1 {
        2000
    } else {
        4000
    }
}

/// Relies on `rand::random_range` over `0..bound`: the sample lies in the
/// half-open range.  The call panics only on an empty range, which the
/// precondition excludes.
#[verifier::external_body]
fn random_below(bound: u64) -> (r: u64)
    requires
        bound > 0,
    ensures
        r < bound,
{
    rand::random_range(0..bound)
}

/// Draws the randomized exponential backoff before retry number `retry`:
/// uniform in `[0, 1000 * 2^retry)` milliseconds, no floor delay.
pub fn draw_backoff_millis(retry: u64) -> (r: u64)
    requires
        retry < MAX_RETRIES,
    ensures
        retry == 0 ==> r < 1000,
        retry == 1 ==> r < 2000,
        retry == 2 ==> r < 4000,
{
    let bound = backoff_bound_millis(retry);
    random_below(bound)
}

/// The admission controller's slot pool: at most `limit` remote calls run at
/// once, and a closed pool admits no further call.
pub struct Admission {
    pub limit: u64,
    pub in_flight: u64,
    pub closed: bool,
}

impl Admission {
    /// The pool never hands out more slots than its bound.
    pub open spec fn wf(self) -> bool {
        self.in_flight <= self.limit
    }

    pub fn new(limit: u64) -> (a: Admission)
        requires
            limit >= 1,
        ensures
            a.limit == limit,
            a.in_flight == 0,
            !a.closed,
            a.wf(),
    {
        Admission { limit, in_flight: 0, closed: false }
    }

    /// Takes one slot if any is free; a caller that is refused must wait and
    /// ask again.  Asking after `close` is a programming-invariant
    /// violation, excluded here and fatal in the driver.
    pub fn try_acquire(&mut self) -> (granted: bool)
        requires
            old(self).wf(),
            !old(self).closed,
        ensures
            granted == (old(self).in_flight < old(self).limit),
            granted ==> final(self).in_flight == old(self).in_flight + 1,
            !granted ==> final(self).in_flight == old(self).in_flight,
            final(self).limit == old(self).limit,
            final(self).closed == old(self).closed,
            final(self).wf(),
    {
        if self.in_flight < self.limit {
            self.in_flight = self.in_flight + 1;
            true
        } else {
            false
        }
    }

    /// Gives a slot back once the remote call has returned.
    pub fn release(&mut self)
        requires
            old(self).wf(),
            old(self).in_flight >= 1,
        ensures
            final(self).in_flight == old(self).in_flight - 1,
            final(self).limit == old(self).limit,
            final(self).closed == old(self).closed,
            final(self).wf(),
    {
        self.in_flight = self.in_flight - 1;
    }

    /// Closes the pool at the end of the download phase: every task has
    /// completed, so no call may follow.
    pub fn close(&mut self)
        requires
            old(self).wf(),
        ensures
            final(self).closed,
            final(self).in_flight == old(self).in_flight,
            final(self).limit == old(self).limit,
            final(self).wf(),
    {
        self.closed = true;
    }
}

/// One interaction with the slot pool, as seen from outside.
pub enum AdmissionOp {
    /// A task asked for a slot; it enters only if one was free.
    Acquire,
    /// A task gave its slot back.
    Release,
}

/// The occupancy of the pool after a sequence of interactions, starting
/// empty: an acquire enters only below the bound, a release leaves only
/// when someone is inside.
pub open spec fn occupancy_after(limit: nat, ops: Seq<AdmissionOp>) -> nat
    decreases ops.len(),
{
    if ops.len() == 0 {
        0
    } else {
        let prev = occupancy_after(limit, ops.drop_last());
        match ops.last() {
            AdmissionOp::Acquire => if prev < limit {
                prev + 1
            } else {
                prev
            },
            AdmissionOp::Release => if prev > 0 {
                (prev - 1) as nat
            } else {
                prev
            },
        }
    }
}

/// Admission bound: for any workload — any sequence of slot interactions —
/// the number of concurrently executing remote calls never exceeds the
/// pool's bound.
pub proof fn lemma_admission_bound(limit: nat, ops: Seq<AdmissionOp>)
    ensures
        occupancy_after(limit, ops) <= limit,
    decreases ops.len(),
{
    if ops.len() > 0 {
        lemma_admission_bound(limit, ops.drop_last());
    }
}

} // verus!
