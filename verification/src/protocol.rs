//! A model of the dispatch protocol between the orchestrator and its
//! worker, and the two properties the protocol is designed for: at most one
//! probe is ever in flight, and a completed run records every candidate
//! exactly once, in dispatch order.
//!
//! The model is generic in the key that identifies a candidate; the
//! orchestrator instantiates it with one candidate list snapshot per run.
//! Requests and responses travel through two capacity-1 queues, each
//! represented by an `Option`; the worker holds at most one candidate and
//! answers every request with exactly one response carrying the same key.

use vstd::prelude::*;

verus! {

/// A snapshot of the whole protocol: the orchestrator's bookkeeping, the
/// two queues, and the worker's hands.
pub struct Protocol<K> {
    /// The candidate keys snapshotted when the run started.
    pub candidates: Seq<K>,
    /// The keys of the results recorded so far, in arrival order.
    pub recorded: Seq<K>,
    /// The content of the capacity-1 request queue.
    pub request: Option<K>,
    /// The candidate the worker is currently probing.
    pub working: Option<K>,
    /// The content of the capacity-1 response queue.
    pub response: Option<K>,
    /// Whether the run has ended.
    pub done: bool,
}

/// How many probes are outstanding: dispatched but not yet recorded.
pub open spec fn in_flight<K>(p: Protocol<K>) -> int {
    (if p.request is Some {
        1int
    } else {
        0int
    }) + (if p.working is Some {
        1int
    } else {
        0int
    }) + (if p.response is Some {
        1int
    } else {
        0int
    })
}

/// The state a run starts in: nothing recorded, the first candidate already
/// dispatched.
pub open spec fn protocol_init<K>(p: Protocol<K>, candidates: Seq<K>) -> bool {
    &&& candidates.len() > 0
    &&& p.candidates == candidates
    &&& p.recorded == Seq::<K>::empty()
    &&& p.request == Some(candidates[0])
    &&& p.working is None
    &&& p.response is None
    &&& p.done == false
}

/// The worker takes the queued request and begins probing it.
pub open spec fn step_worker_take<K>(pre: Protocol<K>, post: Protocol<K>) -> bool {
    &&& pre.request is Some
    &&& pre.working is None
    &&& post == Protocol { request: None, working: pre.request, ..pre }
}

/// The worker finishes its probe and queues exactly one response, carrying
/// the key of the candidate it took.
pub open spec fn step_worker_reply<K>(pre: Protocol<K>, post: Protocol<K>) -> bool {
    &&& pre.working is Some
    &&& pre.response is None
    &&& post == Protocol { working: None, response: pre.working, ..pre }
}

/// The orchestrator drains the queued response: it records the result, and
/// either dispatches the next candidate or ends the run.
pub open spec fn step_drain<K>(pre: Protocol<K>, post: Protocol<K>) -> bool {
    &&& pre.response is Some
    &&& {
        let taken = pre.recorded.push(pre.response->0);
        if taken.len() < pre.candidates.len() {
            post == Protocol {
                response: None,
                recorded: taken,
                request: Some(pre.candidates[taken.len() as int]),
                ..pre
            }
        } else {
            post == Protocol { response: None, recorded: taken, done: true, ..pre }
        }
    }
}

/// The protocol's invariant: the recorded results are exactly the dispatched
/// prefix of the candidates; while the run is live exactly one probe is
/// outstanding and it is the cursor's candidate; when the run is done
/// nothing is outstanding and every candidate has been recorded.
pub open spec fn protocol_inv<K>(p: Protocol<K>) -> bool {
    &&& p.recorded.len() <= p.candidates.len()
    &&& p.recorded == p.candidates.take(p.recorded.len() as int)
    &&& !p.done ==> {
        &&& p.recorded.len() < p.candidates.len()
        &&& in_flight(p) == 1
        &&& (p.request is Some ==> p.request->0 == p.candidates[p.recorded.len() as int])
        &&& (p.working is Some ==> p.working->0 == p.candidates[p.recorded.len() as int])
        &&& (p.response is Some ==> p.response->0 == p.candidates[p.recorded.len() as int])
    }
    &&& p.done ==> {
        &&& in_flight(p) == 0
        &&& p.recorded.len() == p.candidates.len()
    }
}

/// A fresh run satisfies the invariant.
pub proof fn lemma_init_inv<K>(p: Protocol<K>, candidates: Seq<K>)
    requires
        protocol_init(p, candidates),
    ensures
        protocol_inv(p),
{
    assert(p.recorded =~= p.candidates.take(0));
}

/// The worker taking a request preserves the invariant.
pub proof fn lemma_worker_take_preserves<K>(pre: Protocol<K>, post: Protocol<K>)
    requires
        protocol_inv(pre),
        step_worker_take(pre, post),
    ensures
        protocol_inv(post),
{
}

/// The worker replying preserves the invariant.
pub proof fn lemma_worker_reply_preserves<K>(pre: Protocol<K>, post: Protocol<K>)
    requires
        protocol_inv(pre),
        step_worker_reply(pre, post),
    ensures
        protocol_inv(post),
{
}

/// The orchestrator draining a response preserves the invariant.
pub proof fn lemma_drain_preserves<K>(pre: Protocol<K>, post: Protocol<K>)
    requires
        protocol_inv(pre),
        step_drain(pre, post),
    ensures
        protocol_inv(post),
{
    let taken = pre.recorded.push(pre.response->0);
    assert(taken =~= pre.candidates.take(taken.len() as int));
}

/// Law: the protocol never has more than one probe outstanding, in any
/// reachable state — the single-in-flight discipline.
pub proof fn lemma_single_in_flight<K>(p: Protocol<K>)
    requires
        protocol_inv(p),
    ensures
        in_flight(p) <= 1,
{
}

/// Law: when a run completes, the recorded keys are exactly the candidate
/// keys — the same length, every candidate exactly once, in dispatch order.
pub proof fn lemma_run_complete<K>(p: Protocol<K>)
    requires
        protocol_inv(p),
        p.done,
    ensures
        p.recorded == p.candidates,
{
    assert(p.candidates.take(p.candidates.len() as int) =~= p.candidates);
}

} // verus!
