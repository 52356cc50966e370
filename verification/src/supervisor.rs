//! The single slot that holds the running worker.
//!
//! A worker is used by one request at a time. Exclusivity comes from moving
//! the handle: a caller takes it out of the slot, uses it, and puts it back.
//! While it is out the slot is empty and every other caller finds nothing.
//! No lock is held while a request runs; a caller that shares a supervisor
//! between threads locks it only for the call that takes or stores.

use crate::handshake::{handshake_after, lemma_ready_needs_ready_line, reports_ready, HandshakeStep,
    HandshakeStepView, HANDSHAKE_LINE_LIMIT};
use crate::lifecycle::{state_after_handshake, WorkerState};
use crate::protocol::LineInputView;
use vstd::prelude::*;

verus! {

/// A running worker: the model it has loaded and the process that holds it.
///
/// `P` is whatever the caller needs to talk to the process: its pipes, its
/// child handle. The supervisor never looks inside.
#[derive(Debug)]
pub struct WorkerHandle<P> {
    /// The resolved path of the model file, which identifies the model.
    pub model: String,
    pub process: P,
}

impl<P> WorkerHandle<P> {
    /// Whether this worker can serve requests for `model`: only for exactly
    /// the model it has loaded.
    pub open spec fn serves(&self, model: Seq<char>) -> bool {
        self.model@ == model
    }

    pub fn new(model: String, process: P) -> (handle: WorkerHandle<P>)
        ensures
            handle.model == model,
            handle.process == process,
    {
        WorkerHandle { model, process }
    }

    /// Whether this worker has loaded `model`.
    pub fn has_model(&self, model: &str) -> (same: bool)
        ensures
            same == self.serves(model@),
    {
        self.model == model.to_owned()
    }
}

/// The slot: at most one stored worker.
#[derive(Debug)]
pub struct Supervisor<P> {
    slot: Option<WorkerHandle<P>>,
}

/// What `replace_with_new` did with the worker it was offered.
#[derive(Debug)]
pub enum Replacement<P> {
    /// The new worker is stored. The worker that was stored before, if any,
    /// is handed out to be shut down.
    Installed { displaced: Option<WorkerHandle<P>> },
    /// The new worker did not become ready and is handed back; the slot is
    /// as it was.
    Rejected { process: P },
}

/// What the callers of `callers` acquisitions get, one after the other with
/// no release in between, from a slot that holds `stored`.
pub open spec fn acquisitions<P>(stored: Option<WorkerHandle<P>>, callers: nat) -> Seq<
    Option<WorkerHandle<P>>,
>
    decreases callers,
{
    if callers == 0 {
        Seq::empty()
    } else {
        seq![stored] + acquisitions(None, (callers - 1) as nat)
    }
}

/// What the slot holds after `candidate` was offered with the handshake
/// `handshake`: the candidate if it became ready, else what it held before.
pub open spec fn after_replace<P>(
    stored: Option<WorkerHandle<P>>,
    candidate: WorkerHandle<P>,
    handshake: HandshakeStepView,
) -> Option<WorkerHandle<P>> {
    if handshake is Ready {
        Some(candidate)
    } else {
        stored
    }
}

impl<P> Supervisor<P> {
    /// The worker in the slot.
    pub closed spec fn stored(&self) -> Option<WorkerHandle<P>> {
        self.slot
    }

    /// A supervisor with an empty slot.
    pub fn new() -> (supervisor: Supervisor<P>)
        ensures
            supervisor.stored() is None,
    {
        Supervisor { slot: None }
    }

    /// Whether a worker is stored.
    pub fn is_occupied(&self) -> (occupied: bool)
        ensures
            occupied == self.stored() is Some,
    {
        self.slot.is_some()
    }

    /// The model of the stored worker.
    pub fn stored_model(&self) -> (model: Option<String>)
        ensures
            match model {
                Some(m) => self.stored() is Some && m == self.stored().unwrap().model,
                None => self.stored() is None,
            },
    {
        match &self.slot {
            Some(handle) => Some(handle.model.clone()),
            None => None,
        }
    }

    /// Takes the stored worker out of the slot, whatever model it has loaded.
    /// The slot is empty afterwards, so nobody else can get the same worker
    /// until it is released.
    #[allow(unused_variables)]
    pub fn acquire(&mut self, expected_model: &str) -> (handle: Option<WorkerHandle<P>>)
        ensures
            handle == old(self).stored(),
            final(self).stored() is None,
    {
        self.slot.take()
    }

    /// Stores `handle`, making it available to the next `acquire`. A worker
    /// that was stored in the meantime is handed out.
    pub fn release(&mut self, handle: WorkerHandle<P>) -> (displaced: Option<WorkerHandle<P>>)
        ensures
            final(self).stored() == Some(handle),
            displaced == old(self).stored(),
    {
        let displaced = self.slot.take();
        self.slot = Some(handle);
        displaced
    }

    /// Takes the stored worker out of the slot if it has loaded `model`.
    /// A worker with another model stays where it is, untouched.
    pub fn checkout(&mut self, model: &str) -> (handle: Option<WorkerHandle<P>>)
        ensures
            match old(self).stored() {
                Some(stored) if stored.serves(model@) => {
                    &&& handle == Some(stored)
                    &&& final(self).stored() is None
                },
                _ => handle is None && final(self).stored() == old(self).stored(),
            },
    {
        match self.acquire(model) {
            Some(handle) => {
                if handle.has_model(model) {
                    Some(handle)
                } else {
                    self.release(handle);
                    None
                }
            },
            None => None,
        }
    }

    /// Stores the freshly started worker `process` for `model_path` if its
    /// handshake ended in readiness. After any other handshake the slot is
    /// left exactly as it was: no half-started worker is ever stored.
    pub fn replace_with_new(
        &mut self,
        model_path: String,
        process: P,
        handshake: &HandshakeStep,
    ) -> (outcome: Replacement<P>)
        ensures
            final(self).stored() == after_replace(
                old(self).stored(),
                WorkerHandle { model: model_path, process },
                handshake@,
            ),
            outcome is Installed <==> state_after_handshake(handshake@) == WorkerState::Ready,
            match outcome {
                Replacement::Installed { displaced } => {
                    &&& handshake@ is Ready
                    &&& displaced == old(self).stored()
                },
                Replacement::Rejected { process: returned } => {
                    &&& !(handshake@ is Ready)
                    &&& returned == process
                },
            },
    {
        match handshake {
            HandshakeStep::Ready => {
                let displaced = self.release(WorkerHandle::new(model_path, process));
                Replacement::Installed { displaced }
            },
            _ => Replacement::Rejected { process },
        }
    }
}

/// Of any number of callers that acquire from the same slot with no release
/// in between, the first gets what the slot held and all others get nothing:
/// no worker is ever handed to two callers.
pub proof fn lemma_acquire_is_exclusive<P>(stored: Option<WorkerHandle<P>>, callers: nat)
    ensures
        acquisitions(stored, callers).len() == callers,
        callers > 0 ==> acquisitions(stored, callers)[0] == stored,
        forall|i: int| 1 <= i < callers ==> (#[trigger] acquisitions(stored, callers)[i]) is None,
    decreases callers,
{
    if callers > 0 {
        let rest = acquisitions::<P>(None, (callers - 1) as nat);
        lemma_acquire_is_exclusive::<P>(None, (callers - 1) as nat);
        assert forall|i: int| 1 <= i < callers implies (#[trigger] acquisitions(
            stored,
            callers,
        )[i]) is None by {
            assert(acquisitions(stored, callers)[i] == rest[i - 1]);
            if i - 1 >= 1 {
            } else if callers - 1 > 0 {
                assert(rest[0] == None::<WorkerHandle<P>>);
            }
        }
    }
}

/// A worker that does not report readiness within the first
/// `HANDSHAKE_LINE_LIMIT` lines of its output is never stored: whatever else
/// it writes, and however its handshake ends, the slot stays as it was.
pub proof fn lemma_unready_worker_is_never_stored<P>(
    stored: Option<WorkerHandle<P>>,
    candidate: WorkerHandle<P>,
    inputs: Seq<LineInputView>,
)
    requires
        forall|i: int|
            0 <= i < inputs.len() && i < HANDSHAKE_LINE_LIMIT ==> !reports_ready(
                #[trigger] inputs[i],
            ),
    ensures
        after_replace(stored, candidate, handshake_after(0, inputs)) == stored,
{
    if handshake_after(0, inputs) is Ready {
        lemma_ready_needs_ready_line(0, inputs);
    }
}

} // verus!
