//! Client-side prediction and server reconciliation.
//!
//! The predictor owns the local player's input buffer and the locally
//! advanced ("predicted") state. Each local tick applies the freshly
//! captured intent immediately, so the player's own entity never waits on
//! the network. When an authoritative snapshot arrives, the buffered
//! intents newer than the snapshot's tick are replayed on top of it; the
//! divergence between that server-corrected state and the locally advanced
//! state decides whether the prediction is kept (soft acceptance) or
//! snapped to the correction (hard correction). Before any snapshot has
//! arrived, the predicted state is simply used unmodified.

use vstd::prelude::*;
use crate::buffer::{
    TimestampedRingBuffer, Entry, Snapshot, InsertOutcome, entries_after, values_of,
    sorted_strict, admits,
};
use crate::sim::{
    Intent, StateVector, PlayerMovementParams, sim_step, replay, apply_step, replay_frontier,
    all_intents_valid, lemma_intents_valid_preserved, lemma_intents_valid_subset,
};
use crate::fixed::{dist_sq, distance_sq, MAX_DT};

verus! {

/// How a reconciliation resolved the divergence.
#[derive(Clone, Copy, Debug, PartialEq, Eq, Structural)]
pub enum ReconcileOutcome {
    /// The divergence exceeded the threshold: the advanced state was
    /// snapped to the server-corrected state (visible as a position pop).
    Corrected,
    /// The divergence was within the threshold: the locally advanced state
    /// was kept to avoid jitter.
    Accepted,
}

/// A divergence requires a hard correction only when it is strictly greater
/// than the threshold; at exactly the threshold the prediction is kept.
/// Both sides are squared, which decides the same predicate without a
/// square root.
pub open spec fn needs_correction(corrected: StateVector, advanced: StateVector, threshold: int) -> bool {
    dist_sq(corrected.translation, advanced.translation) > threshold * threshold
}

/// The server-corrected state: the authoritative snapshot with every
/// buffered intent newer than the snapshot's tick replayed on top, in key
/// order.
pub open spec fn corrected_state(
    buf: Seq<Entry<Intent>>,
    snap: Snapshot<StateVector>,
    dt: int,
    p: PlayerMovementParams,
) -> StateVector {
    replay(snap.value, values_of(entries_after(buf, snap.tick)), dt, p)
}

/// The state a reconciliation leaves in place: the correction when the
/// divergence is beyond the threshold, the unchanged prediction otherwise.
pub open spec fn reconcile_result(
    buf: Seq<Entry<Intent>>,
    snap: Snapshot<StateVector>,
    advanced: StateVector,
    dt: int,
    p: PlayerMovementParams,
) -> StateVector {
    let c = corrected_state(buf, snap, dt, p);
    if needs_correction(c, advanced, p.prediction_error_threshold as int) {
        c
    } else {
        advanced
    }
}

/// Reconciliation is idempotent: with no new intents between two
/// reconciliations against the same snapshot, the second run resolves to
/// the same state the first one produced.
pub proof fn lemma_reconcile_idempotent(
    buf: Seq<Entry<Intent>>,
    snap: Snapshot<StateVector>,
    advanced: StateVector,
    dt: int,
    p: PlayerMovementParams,
)
    ensures
        reconcile_result(buf, snap, reconcile_result(buf, snap, advanced, dt, p), dt, p)
            == reconcile_result(buf, snap, advanced, dt, p),
{
    let c = corrected_state(buf, snap, dt, p);
    let t = p.prediction_error_threshold as int;
    assert(dist_sq(c.translation, c.translation) == 0) by (nonlinear_arith);
    assert(t * t >= 0) by (nonlinear_arith);
}

/// At a divergence of exactly the threshold, reconciliation keeps the
/// prediction: the correction triggers only on a strictly greater error.
pub proof fn lemma_threshold_boundary(
    buf: Seq<Entry<Intent>>,
    snap: Snapshot<StateVector>,
    advanced: StateVector,
    dt: int,
    p: PlayerMovementParams,
)
    requires
        dist_sq(corrected_state(buf, snap, dt, p).translation, advanced.translation)
            == (p.prediction_error_threshold as int) * (p.prediction_error_threshold as int),
    ensures
        reconcile_result(buf, snap, advanced, dt, p) == advanced,
{
}

/// The local side's own network identity; the one piece of connection
/// state a client tracks.
#[derive(Clone, Copy, Debug)]
pub struct Client(u64);

impl Client {
    pub closed spec fn spec_id(self) -> u64 {
        self.0
    }

    pub fn new(id: u64) -> (r: Self)
        ensures
            r.spec_id() == id,
    {
        Client(id)
    }

    pub fn id(&self) -> (r: u64)
        ensures
            r == self.spec_id(),
    {
        self.0
    }

    /// Whether a spawned player entity is the one this client controls —
    /// the entity prediction owns, all others being interpolated.
    pub fn controls(&self, player: &crate::components::NetworkPlayer) -> (r: bool)
        ensures
            r == (player.spec_client_id() == self.spec_id()),
    {
        player.client_id() == self.0
    }
}

/// The local player's predictor: input history plus the locally advanced
/// state.
pub struct ClientPredictor {
    /// Intents captured locally, keyed by their sequence number. Pruned
    /// implicitly by ring-buffer eviction; no acknowledgment protocol.
    pub inputs: TimestampedRingBuffer<Intent>,
    /// The locally advanced (predicted) state that is rendered.
    pub advanced: StateVector,
}

impl ClientPredictor {
    pub open spec fn wf(self) -> bool {
        &&& self.inputs.wf()
        &&& self.advanced.valid()
        &&& all_intents_valid(self.inputs@)
    }

    pub fn new(capacity: usize, initial: StateVector) -> (r: Self)
        requires
            capacity >= 1,
            initial.valid(),
        ensures
            r.wf(),
            r.advanced == initial,
            r.inputs@ =~= Seq::<Entry<Intent>>::empty(),
            r.inputs.spec_capacity() == capacity,
    {
        ClientPredictor { inputs: TimestampedRingBuffer::new(capacity), advanced: initial }
    }

    /// The state to render right now. Before any authoritative snapshot has
    /// been reconciled, this is the unmodified prediction (cold start).
    pub fn current_state(&self) -> (r: StateVector)
        ensures
            r == self.advanced,
    {
        self.advanced
    }

    /// One local simulation tick: advance the predicted state by the fresh
    /// intent and buffer the intent for later reconciliation replays.
    pub fn predict(&mut self, intent: Intent, dt: i64, p: &PlayerMovementParams) -> (r: InsertOutcome)
        requires
            old(self).wf(),
            intent.valid(),
            p.valid(),
            0 <= dt <= MAX_DT,
        ensures
            final(self).wf(),
            final(self).inputs.spec_capacity() == old(self).inputs.spec_capacity(),
            final(self).advanced == sim_step(old(self).advanced, intent, dt as int, *p),
            (r == InsertOutcome::Inserted)
                <==> admits(old(self).inputs@, old(self).inputs.spec_capacity(), intent.sequence),
            r == InsertOutcome::StaleInsert ==> final(self).inputs@ == old(self).inputs@,
            r == InsertOutcome::Inserted ==>
                final(self).inputs@.contains((Entry { key: intent.sequence, value: intent })),
            r == InsertOutcome::Inserted
                && old(self).inputs@.len() < old(self).inputs.spec_capacity() ==>
                final(self).inputs@ == old(self).inputs@.push((Entry { key: intent.sequence, value: intent })),
            forall|e: Entry<Intent>| #[trigger] final(self).inputs@.contains(e) ==>
                old(self).inputs@.contains(e) || e == (Entry { key: intent.sequence, value: intent }),
    {
        self.advanced = apply_step(&self.advanced, &intent, dt, p);
        let r = self.inputs.insert(intent.sequence, intent);
        proof {
            lemma_intents_valid_preserved(
                old(self).inputs@,
                self.inputs@,
                (Entry { key: intent.sequence, value: intent }),
            );
        }
        r
    }

    /// Reconcile against a fresh authoritative snapshot: sort the input
    /// buffer, replay every intent newer than the snapshot's tick on top of
    /// the snapshot, and snap to that server-corrected state only when the
    /// divergence from the prediction strictly exceeds the threshold.
    pub fn reconcile(
        &mut self,
        snapshot: &Snapshot<StateVector>,
        dt: i64,
        p: &PlayerMovementParams,
    ) -> (r: ReconcileOutcome)
        requires
            old(self).wf(),
            snapshot.value.valid(),
            p.valid(),
            0 <= dt <= MAX_DT,
        ensures
            final(self).wf(),
            final(self).inputs.spec_capacity() == old(self).inputs.spec_capacity(),
            // the buffer is re-ordered, never changed in content
            sorted_strict(final(self).inputs@),
            final(self).inputs@.len() == old(self).inputs@.len(),
            forall|e: Entry<Intent>|
                final(self).inputs@.contains(e) <==> old(self).inputs@.contains(e),
            sorted_strict(old(self).inputs@) ==> final(self).inputs@ == old(self).inputs@,
            // the resolution, exactly
            final(self).advanced == reconcile_result(
                final(self).inputs@, *snapshot, old(self).advanced, dt as int, *p),
            (r == ReconcileOutcome::Corrected) <==> needs_correction(
                corrected_state(final(self).inputs@, *snapshot, dt as int, *p),
                old(self).advanced,
                p.prediction_error_threshold as int,
            ),
            r == ReconcileOutcome::Corrected ==>
                final(self).advanced == corrected_state(final(self).inputs@, *snapshot, dt as int, *p),
            r == ReconcileOutcome::Accepted ==> final(self).advanced == old(self).advanced,
    {
        self.inputs.sort();
        proof {
            lemma_intents_valid_subset(old(self).inputs@, self.inputs@);
        }
        let frontier = self.inputs.frontier(snapshot.tick);
        proof {
            lemma_intents_valid_subset(self.inputs@, frontier@);
        }
        let corrected = replay_frontier(&snapshot.value, &frontier, dt, p);
        let err_sq = distance_sq(&corrected.translation, &self.advanced.translation);
        let thr = p.prediction_error_threshold;
        proof {
            assert((thr as int) * (thr as int) <= 1_000_000_000_000_000_000
                && (thr as int) * (thr as int) >= 0) by (nonlinear_arith)
                requires
                    0 <= thr as int <= 1_000_000_000,
            ;
        }
        let thr_sq = thr * thr;
        if err_sq > thr_sq {
            self.advanced = corrected;
            ReconcileOutcome::Corrected
        } else {
            ReconcileOutcome::Accepted
        }
    }
}

} // verus!
