//! The task-graph engine: one outstanding-work counter and one single-shot
//! wake signal detect quiescence of a dynamically growing tree of tasks.
//! A spawn increments the counter synchronously, before the new task starts;
//! a finishing task decrements it after it has issued all of its own spawns,
//! and fires the signal if the counter reached zero.  The crawl runs two
//! phases behind this barrier: discovery, which fills the candidate
//! accumulator, then one download task per accumulated candidate.
//!
//! The abstract law — a counter at zero means the transitive closure of
//! spawns is exhausted, and nothing can run afterwards — is stated and
//! proved over traces of spawn/complete events at the end of this module.

use vstd::prelude::*;

use crate::resources::File;

verus! {

/// The two barrier-separated phases of a crawl, and the state after both.
#[derive(Clone, Copy, Debug, PartialEq, Eq, Structural)]
pub enum Phase {
    Discovery,
    Download,
    Finished,
}

/// The engine's shared mutable state: the outstanding-work counter with its
/// wake signal, and the candidate accumulator that discovery tasks append
/// to.  `spawned` and `completed` are running totals over the whole crawl.
pub struct Engine {
    pub phase: Phase,
    pub active: u64,
    pub spawned: u64,
    pub completed: u64,
    pub notified: bool,
    pub candidates: Vec<File>,
}

impl Engine {
    /// The counter discipline: the counter is exactly the number of spawned
    /// and not yet completed units, and the wake signal only ever fires at
    /// zero.
    pub open spec fn wf(self) -> bool {
        &&& self.completed <= self.spawned
        &&& self.active == self.spawned - self.completed
        &&& self.notified ==> self.active == 0
    }

    pub fn new() -> (e: Engine)
        ensures
            e.wf(),
            e.phase == Phase::Discovery,
            e.active == 0,
            e.spawned == 0,
            e.completed == 0,
            !e.notified,
            e.candidates@ == Seq::<File>::empty(),
    {
        Engine {
            phase: Phase::Discovery,
            active: 0,
            spawned: 0,
            completed: 0,
            notified: false,
            candidates: Vec::new(),
        }
    }

    /// Registers one unit of work, synchronously, before the unit starts
    /// running.  A fired signal must be consumed by the barrier before any
    /// further spawn.
    pub fn spawn(&mut self)
        requires
            old(self).wf(),
            !old(self).notified,
            old(self).phase != Phase::Finished,
            old(self).spawned < u64::MAX,
        ensures
            final(self).wf(),
            final(self).spawned == old(self).spawned + 1,
            final(self).active == old(self).active + 1,
            final(self).completed == old(self).completed,
            !final(self).notified,
            final(self).phase == old(self).phase,
            final(self).candidates == old(self).candidates,
    {
        self.spawned = self.spawned + 1;
        self.active = self.active + 1;
    }

    /// A unit of work finished — success or failure alike — after issuing
    /// all of its own spawns.  Decrements the counter and fires the wake
    /// signal exactly when the counter reaches zero.
    pub fn complete(&mut self)
        requires
            old(self).wf(),
            old(self).active >= 1,
        ensures
            final(self).wf(),
            final(self).completed == old(self).completed + 1,
            final(self).active == old(self).active - 1,
            final(self).spawned == old(self).spawned,
            final(self).notified == (old(self).active == 1),
            final(self).phase == old(self).phase,
            final(self).candidates == old(self).candidates,
    {
        self.completed = self.completed + 1;
        self.active = self.active - 1;
        if self.active == 0 {
            self.notified = true;
        }
    }

    /// Appends the candidates one discovery task emitted.  The accumulator
    /// is append-only during discovery and frozen afterwards.
    pub fn add_candidates(&mut self, found: Vec<File>)
        requires
            old(self).wf(),
            old(self).phase == Phase::Discovery,
        ensures
            final(self).wf(),
            final(self).candidates@ == old(self).candidates@ + found@,
            final(self).phase == old(self).phase,
            final(self).active == old(self).active,
            final(self).spawned == old(self).spawned,
            final(self).completed == old(self).completed,
            final(self).notified == old(self).notified,
    {
        let mut rest = found;
        self.candidates.append(&mut rest);
    }

    /// The first barrier: consumes the wake signal once discovery is
    /// quiescent.  The accumulator is complete at this point and will not
    /// change again.
    pub fn await_discovery(&mut self)
        requires
            old(self).wf(),
            old(self).phase == Phase::Discovery,
            old(self).notified,
        ensures
            final(self).wf(),
            final(self).phase == Phase::Download,
            final(self).active == 0,
            !final(self).notified,
            final(self).candidates == old(self).candidates,
            final(self).spawned == old(self).spawned,
            final(self).completed == old(self).completed,
    {
        self.notified = false;
        self.phase = Phase::Download;
    }

    /// The second barrier: consumes the wake signal once every download
    /// task has completed.  The counter is exactly zero here; a nonzero
    /// counter cannot reach this point and would be a fatal scheduler bug.
    pub fn await_downloads(&mut self)
        requires
            old(self).wf(),
            old(self).phase == Phase::Download,
            old(self).notified,
        ensures
            final(self).wf(),
            final(self).phase == Phase::Finished,
            final(self).active == 0,
            final(self).spawned == final(self).completed,
            !final(self).notified,
            final(self).candidates == old(self).candidates,
            final(self).spawned == old(self).spawned,
            final(self).completed == old(self).completed,
    {
        self.notified = false;
        self.phase = Phase::Finished;
    }
}

/// One event of a crawl's history: a task was spawned (by a parent task, or
/// as a root by the main driver), or a task completed.
pub enum TaskEvent {
    Spawn { task: nat, parent: Option<nat> },
    Complete { task: nat },
}

pub open spec fn is_spawn(e: TaskEvent) -> bool {
    match e {
        TaskEvent::Spawn { .. } => true,
        TaskEvent::Complete { .. } => false,
    }
}

pub open spec fn ev_task(e: TaskEvent) -> nat {
    match e {
        TaskEvent::Spawn { task, .. } => task,
        TaskEvent::Complete { task } => task,
    }
}

/// Task `t` is spawned somewhere in `tr[0..n]`.
pub open spec fn spawned_in(tr: Seq<TaskEvent>, n: int, t: nat) -> bool {
    exists|k: int| 0 <= k < n && k < tr.len() && is_spawn(tr[k]) && ev_task(tr[k]) == t
}

/// Task `t` completes somewhere in `tr[0..n]`.
pub open spec fn completed_in(tr: Seq<TaskEvent>, n: int, t: nat) -> bool {
    exists|k: int| 0 <= k < n && k < tr.len() && !is_spawn(tr[k]) && ev_task(tr[k]) == t
}

/// A spawn by a parent happens while the parent runs: after the parent's
/// own spawn and before the parent's completion.
pub open spec fn parent_running_at(tr: Seq<TaskEvent>, k: int) -> bool {
    match tr[k] {
        TaskEvent::Spawn { parent: Some(p), .. } => spawned_in(tr, k, p) && !completed_in(tr, k, p),
        _ => true,
    }
}

/// A history the scheduler can produce: each task is spawned at most once
/// and completes at most once, only after its spawn, and every child spawn
/// happens while its parent runs.
pub open spec fn valid_trace(tr: Seq<TaskEvent>) -> bool {
    &&& forall|k1: int, k2: int|
        0 <= k1 < k2 < tr.len() && is_spawn(tr[k1]) && is_spawn(tr[k2]) ==> ev_task(tr[k1])
            != ev_task(tr[k2])
    &&& forall|k1: int, k2: int|
        0 <= k1 < k2 < tr.len() && !is_spawn(tr[k1]) && !is_spawn(tr[k2]) ==> ev_task(tr[k1])
            != ev_task(tr[k2])
    &&& forall|k: int|
        0 <= k < tr.len() && !is_spawn(tr[k]) ==> spawned_in(tr, k, ev_task(#[trigger] tr[k]))
    &&& forall|k: int| 0 <= k < tr.len() ==> #[trigger] parent_running_at(tr, k)
}

/// The outstanding-work counter after the first `n` events: spawns minus
/// completions.
pub open spec fn outstanding(tr: Seq<TaskEvent>, n: int) -> int
    decreases n,
{
    if n <= 0 {
        0
    } else {
        outstanding(tr, n - 1) + if is_spawn(tr[n - 1]) {
            1int
        } else {
            -1int
        }
    }
}

/// The tasks spawned but not yet completed after the first `n` events.
pub open spec fn pending(tr: Seq<TaskEvent>, n: int) -> Set<nat> {
    Set::new(|t: nat| spawned_in(tr, n, t) && !completed_in(tr, n, t))
}

/// The counter counts exactly the pending tasks.
proof fn lemma_outstanding_is_pending(tr: Seq<TaskEvent>, n: int)
    requires
        valid_trace(tr),
        0 <= n <= tr.len(),
    ensures
        pending(tr, n).finite(),
        pending(tr, n).len() == outstanding(tr, n),
    decreases n,
{
    broadcast use vstd::set::group_set_axioms;

    if n == 0 {
        assert(pending(tr, 0) =~= Set::<nat>::empty());
    } else {
        lemma_outstanding_is_pending(tr, n - 1);
        let e = tr[n - 1];
        let t = ev_task(e);
        if is_spawn(e) {
            // a second spawn of t earlier in the trace would break uniqueness
            assert(!spawned_in(tr, n - 1, t));
            // a completion of t earlier would itself need a spawn of t earlier
            assert(!completed_in(tr, n, t)) by {
                if completed_in(tr, n, t) {
                    let kc = choose|kc: int|
                        0 <= kc < n && kc < tr.len() && !is_spawn(tr[kc]) && ev_task(tr[kc]) == t;
                    assert(spawned_in(tr, kc, t));
                }
            }
            assert(pending(tr, n) =~= pending(tr, n - 1).insert(t)) by {
                assert forall|u: nat| pending(tr, n).contains(u) implies pending(
                    tr,
                    n - 1,
                ).insert(t).contains(u) by {
                    if u != t {
                        let ks = choose|ks: int|
                            0 <= ks < n && ks < tr.len() && is_spawn(tr[ks]) && ev_task(tr[ks])
                                == u;
                        assert(ks < n - 1);
                        assert(spawned_in(tr, n - 1, u));
                        assert(!completed_in(tr, n - 1, u));
                    }
                }
                assert forall|u: nat| pending(tr, n - 1).insert(t).contains(u) implies pending(
                    tr,
                    n,
                ).contains(u) by {
                    if u == t {
                        assert(spawned_in(tr, n, t));
                        assert(!completed_in(tr, n, t));
                    } else {
                        assert(spawned_in(tr, n - 1, u));
                        assert(spawned_in(tr, n, u));
                        assert(!completed_in(tr, n, u)) by {
                            if completed_in(tr, n, u) {
                                let kc = choose|kc: int|
                                    0 <= kc < n && kc < tr.len() && !is_spawn(tr[kc]) && ev_task(
                                        tr[kc],
                                    ) == u;
                                assert(kc < n - 1);
                            }
                        }
                    }
                }
            }
            assert(pending(tr, n).len() == pending(tr, n - 1).len() + 1);
        } else {
            assert(spawned_in(tr, n - 1, t));
            assert(!completed_in(tr, n - 1, t)) by {
                if completed_in(tr, n - 1, t) {
                    let kc = choose|kc: int|
                        0 <= kc < n - 1 && kc < tr.len() && !is_spawn(tr[kc]) && ev_task(tr[kc])
                            == t;
                    assert(ev_task(tr[kc]) != ev_task(tr[n - 1]));
                }
            }
            assert(pending(tr, n - 1).contains(t));
            assert(pending(tr, n) =~= pending(tr, n - 1).remove(t)) by {
                assert forall|u: nat| pending(tr, n).contains(u) implies pending(
                    tr,
                    n - 1,
                ).remove(t).contains(u) by {
                    assert(u != t);
                    let ks = choose|ks: int|
                        0 <= ks < n && ks < tr.len() && is_spawn(tr[ks]) && ev_task(tr[ks]) == u;
                    assert(ks < n - 1);
                    assert(spawned_in(tr, n - 1, u));
                    assert(!completed_in(tr, n - 1, u));
                }
                assert forall|u: nat| pending(tr, n - 1).remove(t).contains(u) implies pending(
                    tr,
                    n,
                ).contains(u) by {
                    assert(u != t);
                    assert(spawned_in(tr, n, u));
                    assert(!completed_in(tr, n, u)) by {
                        if completed_in(tr, n, u) {
                            let kc = choose|kc: int|
                                0 <= kc < n && kc < tr.len() && !is_spawn(tr[kc]) && ev_task(
                                    tr[kc],
                                ) == u;
                            assert(kc < n - 1);
                        }
                    }
                }
            }
            assert(pending(tr, n).len() == pending(tr, n - 1).len() - 1);
        }
    }
}

/// Quiescence soundness: whenever the outstanding-work counter is zero,
/// every task spawned so far has completed — the counter is never observed
/// at zero prematurely.
pub proof fn lemma_quiescence_sound(tr: Seq<TaskEvent>, n: int)
    requires
        valid_trace(tr),
        0 <= n <= tr.len(),
        outstanding(tr, n) == 0,
    ensures
        forall|t: nat| spawned_in(tr, n, t) ==> completed_in(tr, n, t),
{
    broadcast use vstd::set::group_set_axioms;

    lemma_outstanding_is_pending(tr, n);
    pending(tr, n).lemma_len0_is_empty();
    assert forall|t: nat| spawned_in(tr, n, t) implies completed_in(tr, n, t) by {
        if !completed_in(tr, n, t) {
            assert(pending(tr, n).contains(t));
        }
    }
}

/// Once every task spawned has completed, the counter reads zero: together
/// with soundness, the counter is zero exactly at quiescence.
pub proof fn lemma_quiescence_complete(tr: Seq<TaskEvent>, n: int)
    requires
        valid_trace(tr),
        0 <= n <= tr.len(),
        forall|t: nat| spawned_in(tr, n, t) ==> completed_in(tr, n, t),
    ensures
        outstanding(tr, n) == 0,
{
    broadcast use vstd::set::group_set_axioms;

    lemma_outstanding_is_pending(tr, n);
    assert(pending(tr, n) =~= Set::<nat>::empty());
}

/// Quiescence finality: after the counter reaches zero, and with no further
/// root spawns from the driver, nothing runs any more — position `k` of the
/// trace, for any `k` past the zero, does not exist.  A child can never be
/// missed by a premature zero, so the wake signal fires exactly once per
/// phase, after the transitive closure of spawns is exhausted.
pub proof fn lemma_quiescence_final(tr: Seq<TaskEvent>, n: int, k: int)
    requires
        valid_trace(tr),
        0 <= n <= tr.len(),
        outstanding(tr, n) == 0,
        forall|j: int|
            n <= j < tr.len() && is_spawn(#[trigger] tr[j]) ==> (match tr[j] {
                TaskEvent::Spawn { parent, .. } => parent is Some,
                TaskEvent::Complete { .. } => true,
            }),
        n <= k,
    ensures
        k >= tr.len(),
    decreases k,
{
    if k < tr.len() {
        let e = tr[k];
        if is_spawn(e) {
            assert(parent_running_at(tr, k));
            match e {
                TaskEvent::Spawn { parent: Some(p), .. } => {
                    assert(spawned_in(tr, k, p));
                    assert(!completed_in(tr, k, p));
                    let j = choose|j: int|
                        0 <= j < k && j < tr.len() && is_spawn(tr[j]) && ev_task(tr[j]) == p;
                    if j < n {
                        assert(spawned_in(tr, n, p));
                        lemma_quiescence_sound(tr, n);
                        assert(completed_in(tr, n, p));
                        let c = choose|c: int|
                            0 <= c < n && c < tr.len() && !is_spawn(tr[c]) && ev_task(tr[c]) == p;
                        assert(completed_in(tr, k, p));
                    } else {
                        // the parent was itself spawned after the zero
                        lemma_quiescence_final(tr, n, j);
                    }
                },
                _ => {},
            }
        } else {
            let t = ev_task(e);
            assert(spawned_in(tr, k, t));
            let j = choose|j: int|
                0 <= j < k && j < tr.len() && is_spawn(tr[j]) && ev_task(tr[j]) == t;
            if j < n {
                assert(spawned_in(tr, n, t));
                lemma_quiescence_sound(tr, n);
                assert(completed_in(tr, n, t));
                let c = choose|c: int|
                    0 <= c < n && c < tr.len() && !is_spawn(tr[c]) && ev_task(tr[c]) == t;
                // a second completion of t would stand at c < n <= k
                assert(ev_task(tr[c]) != ev_task(tr[k]));
            } else {
                lemma_quiescence_final(tr, n, j);
            }
        }
    }
}

} // verus!
