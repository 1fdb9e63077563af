//! The call-side delivery model: cancellation tokens, the single-shot
//! delivery of a `Serialized` call, and the ordered delivery of a
//! streaming call or channel subscription.
//!
//! Envelopes travel as already-serialized byte buffers; what the bytes
//! hold is the serializer's business, not the channel's.

use vstd::prelude::*;

verus! {

/// Lifecycle of one spawned unit of asynchronous work.
#[derive(Clone, Copy, PartialEq, Eq, Structural, Debug)]
pub enum TaskState {
    Running,
    Completed,
    Cancelled,
}

/// The state a cancellation request leaves a task in: a running task is
/// aborted; a finished or already-cancelled task is left as it is.
pub open spec fn spec_cancel(s: TaskState) -> TaskState {
    match s {
        TaskState::Running => TaskState::Cancelled,
        other => other,
    }
}

/// Cancellation is idempotent: once a task is no longer running, further
/// cancellation requests change nothing.
pub proof fn lemma_cancel_idempotent(s: TaskState)
    ensures
        spec_cancel(spec_cancel(s)) == spec_cancel(s),
{
}

/// The opaque cancellation token returned by a bridge entry point.
pub struct TaskHandle {
    pub state: TaskState,
}

impl TaskHandle {
    /// A handle starts with its work in flight.
    pub fn new() -> (r: TaskHandle)
        ensures
            r.state == TaskState::Running,
    {
        TaskHandle { state: TaskState::Running }
    }

    /// Requests cancellation. Aborts the work exactly when it is still
    /// running; cancelling a completed or already-cancelled handle is a
    /// no-op, never an error.
    pub fn cancel(&mut self)
        ensures
            final(self).state == spec_cancel(old(self).state),
    {
        if matches!(self.state, TaskState::Running) {
            self.state = TaskState::Cancelled;
        }
    }

    /// The work finished on its own; the handle can no longer abort it.
    pub fn complete(&mut self)
        requires
            old(self).state == TaskState::Running,
        ensures
            final(self).state == TaskState::Completed,
    {
        self.state = TaskState::Completed;
    }
}

/// One `Serialized` call: a single future-like completion bound to one
/// delivery handle.
pub struct SerializedCall {
    pub handle: TaskHandle,
    /// How many envelopes were pushed through the delivery channel.
    pub delivered: u64,
}

impl SerializedCall {
    /// A `Serialized` call delivers exactly one envelope, exactly at
    /// completion: while the work runs nothing has been delivered, and
    /// nothing further is ever delivered after it.
    pub open spec fn wf(self) -> bool {
        &&& self.delivered <= 1
        &&& (self.delivered == 1 <==> self.handle.state == TaskState::Completed)
    }

    pub fn new() -> (r: SerializedCall)
        ensures
            r.wf(),
            r.handle.state == TaskState::Running,
            r.delivered == 0,
    {
        SerializedCall { handle: TaskHandle::new(), delivered: 0 }
    }

    /// The spawned work finished: its one envelope is delivered and the
    /// handle is invalidated. Only a still-running call can complete, so
    /// a second delivery on the same handle is impossible.
    pub fn complete(&mut self) -> (env_delivered: bool)
        requires
            old(self).wf(),
            old(self).handle.state == TaskState::Running,
        ensures
            final(self).wf(),
            final(self).handle.state == TaskState::Completed,
            final(self).delivered == 1,
            env_delivered,
    {
        self.handle.complete();
        self.delivered = 1;
        true
    }

    /// Cancels the call. Delivery stops where it stands: a cancelled call
    /// never reaches `complete`, so its envelope count stays below one.
    pub fn cancel(&mut self)
        requires
            old(self).wf(),
        ensures
            final(self).wf(),
            final(self).handle.state == spec_cancel(old(self).handle.state),
            final(self).delivered == old(self).delivered,
    {
        self.handle.cancel();
    }
}

/// One streaming call or channel subscription: a single-producer,
/// single-consumer delivery queue bound to one handle.
pub struct StreamSession {
    pub handle: TaskHandle,
    /// Produced but not yet received envelopes, oldest first.
    pub pending: Vec<Vec<u8>>,
    /// Envelopes received so far, in the order they arrived.
    pub received: Vec<Vec<u8>>,
}

impl StreamSession {
    /// Everything the underlying sequence has produced so far, in
    /// production order: what was received followed by what still waits.
    pub open spec fn produced(self) -> Seq<Seq<u8>> {
        self.received.deep_view() + self.pending.deep_view()
    }

    pub fn new() -> (r: StreamSession)
        ensures
            r.handle.state == TaskState::Running,
            r.produced() == Seq::<Seq<u8>>::empty(),
            r.received.deep_view().len() == 0,
    {
        let r = StreamSession { handle: TaskHandle::new(), pending: Vec::new(), received: Vec::new() };
        proof {
            assert(r.produced() =~= Seq::<Seq<u8>>::empty());
        }
        r
    }

    /// The underlying sequence produced one more envelope. Production
    /// appends at the end: nothing already produced moves.
    pub fn produce(&mut self, env: Vec<u8>)
        requires
            old(self).handle.state == TaskState::Running,
        ensures
            final(self).produced() == old(self).produced().push(env@),
            final(self).received.deep_view() == old(self).received.deep_view(),
            final(self).handle == old(self).handle,
    {
        self.pending.push(env);
        proof {
            assert(self.pending.deep_view() =~~= old(self).pending.deep_view().push(env@));
            assert(self.produced() =~~= old(self).produced().push(env@));
        }
    }

    /// Receives the next envelope, if one is waiting and the subscription
    /// still stands. Envelopes arrive in exactly the order they were
    /// produced: the received history is always a prefix of the produced
    /// history, and a cancelled session receives nothing further.
    pub fn receive(&mut self) -> (r: Option<Vec<u8>>)
        ensures
            final(self).produced() == old(self).produced(),
            final(self).handle == old(self).handle,
            old(self).handle.state == TaskState::Cancelled ==> r is None
                && *final(self) == *old(self),
            old(self).handle.state != TaskState::Cancelled && old(self).pending@.len() > 0
                ==> r is Some,
            match r {
                Some(env) => {
                    &&& old(self).handle.state != TaskState::Cancelled
                    &&& old(self).pending.deep_view().len() > 0
                    &&& env@ == old(self).pending.deep_view()[0]
                    &&& final(self).received.deep_view() == old(self).received.deep_view().push(
                        env@,
                    )
                },
                None => final(self).received.deep_view() == old(self).received.deep_view(),
            },
    {
        if matches!(self.handle.state, TaskState::Cancelled) {
            return None;
        }
        if self.pending.len() == 0 {
            return None;
        }
        let env = self.pending.remove(0);
        let env_copy = copy_bytes(&env);
        self.received.push(env_copy);
        proof {
            assert(self.received.deep_view() =~~= old(self).received.deep_view().push(env@));
            assert(self.pending.deep_view() =~~= old(self).pending.deep_view().skip(1));
            assert(self.produced() =~~= old(self).produced());
        }
        Some(env)
    }

    /// Cancels the subscription: the spawned work is aborted and nothing
    /// further is received, though the history of what was already
    /// received stands.
    pub fn cancel(&mut self)
        ensures
            final(self).handle.state == spec_cancel(old(self).handle.state),
            final(self).received.deep_view() == old(self).received.deep_view(),
            final(self).produced() == old(self).produced(),
    {
        self.handle.cancel();
    }

    /// The received history is a prefix of the produced history: delivery
    /// neither reorders nor skips.
    pub proof fn lemma_received_prefix_of_produced(self)
        ensures
            self.received.deep_view() == self.produced().take(
                self.received.deep_view().len() as int,
            ),
    {
        assert(self.received.deep_view() =~= self.produced().take(
            self.received.deep_view().len() as int,
        ));
    }
}

/// Copies one byte buffer.
fn copy_bytes(v: &Vec<u8>) -> (r: Vec<u8>)
    ensures
        r@ == v@,
{
    let mut out: Vec<u8> = Vec::new();
    let mut i: usize = 0;
    while i < v.len()
        invariant
            i <= v@.len(),
            out@ == v@.take(i as int),
        decreases v@.len() - i,
    {
        out.push(v[i]);
        proof {
            assert(v@.take(i + 1) =~= v@.take(i as int).push(v@[i as int]));
        }
        i = i + 1;
    }
    proof {
        assert(v@.take(v@.len() as int) =~= v@);
    }
    out
}

} // verus!
