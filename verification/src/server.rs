//! The server authority.
//!
//! Applies each client's inbound intents — in sequence order, deduplicated
//! — to that client's authoritative state, stamps the result with the
//! current server tick, and exposes it for the replication layer to
//! transmit. The authority itself performs no network I/O; messages are
//! buffered as they arrive and drained at the tick boundary.

use vstd::prelude::*;
use crate::buffer::{
    Entry, Snapshot, InsertOutcome, entries_after, values_of, sorted_strict, admits,
};
use crate::sim::{
    Intent, StateVector, PlayerMovementParams, replay, replay_frontier,
    lemma_intents_valid_subset,
};
use crate::registry::{
    ConnectionRegistry, EntityRecord, slot_has_client, seeded,
    lemma_states_valid_preserved,
};
use crate::error::NetstackError;
use crate::fixed::MAX_DT;

verus! {

/// The entry of `s` with the greatest key at or before `t`.
pub open spec fn best_at_or_before(s: Seq<Entry<StateVector>>, t: u64, e: Entry<StateVector>) -> bool {
    &&& s.contains(e)
    &&& e.key <= t
    &&& forall|i: int| 0 <= i < s.len() && (#[trigger] s[i]).key <= t ==> s[i].key <= e.key
}

/// Server-side authoritative simulation: the connection registry (which
/// owns every entity and its buffers), the server's logical clock and the
/// movement tuning.
pub struct ServerAuthority {
    pub registry: ConnectionRegistry,
    /// The current server tick; a monotonic logical clock.
    pub tick: u64,
    pub params: PlayerMovementParams,
}

impl ServerAuthority {
    pub open spec fn wf(self) -> bool {
        &&& self.registry.wf()
        &&& self.params.valid()
    }

    pub fn new(buffer_capacity: usize, params: PlayerMovementParams) -> (r: Self)
        requires
            buffer_capacity >= 2,
            params.valid(),
        ensures
            r.wf(),
            r.tick == 0,
            r.registry@ =~= Seq::<Option<EntityRecord>>::empty(),
            r.registry.spec_buffer_capacity() == buffer_capacity,
            r.params == params,
    {
        ServerAuthority { registry: ConnectionRegistry::new(buffer_capacity), tick: 0, params }
    }

    /// Advance the logical clock by one tick.
    pub fn advance_tick(&mut self)
        requires
            old(self).tick < u64::MAX,
        ensures
            final(self).tick == old(self).tick + 1,
            final(self).registry == old(self).registry,
            final(self).params == old(self).params,
    {
        self.tick = self.tick + 1;
    }

    /// Connect a client at the current tick: its entity spawns at the
    /// origin with a seeded snapshot history. `DuplicateClient` if the
    /// identity is already mapped.
    pub fn connect(&mut self, client_id: u64) -> (r: Result<usize, NetstackError>)
        requires
            old(self).wf(),
        ensures
            final(self).wf(),
            final(self).tick == old(self).tick,
            final(self).params == old(self).params,
            (r is Err) <==> old(self).registry.mapped(client_id),
            r is Err ==> r == Result::<usize, NetstackError>::Err(NetstackError::DuplicateClient)
                && final(self).registry@ == old(self).registry@,
            r matches Ok(h) ==> {
                &&& (h as int) < final(self).registry@.len()
                &&& slot_has_client(final(self).registry@[h as int], client_id)
                &&& final(self).registry.mapped(client_id)
                &&& (final(self).registry@[h as int] matches Some(rec)
                    && rec.client_id == client_id
                    && rec.state.translation.is_zero()
                    && rec.state.yaw == 0
                    && rec.last_sequence == 0
                    && rec.inputs@ =~= Seq::<Entry<Intent>>::empty()
                    && seeded(rec.snapshots@, old(self).tick, rec.state))
                &&& forall|i: int| 0 <= i < old(self).registry@.len() && i != h as int ==>
                    final(self).registry@[i] == old(self).registry@[i]
            },
    {
        let initial = StateVector::origin();
        self.registry.on_connect(client_id, self.tick, initial)
    }

    /// Disconnect a client: its entity and buffers are destroyed at once;
    /// a later lookup of that identity finds nothing, and no other
    /// entity's buffers are touched. Returns whether a mapping existed.
    pub fn disconnect(&mut self, client_id: u64) -> (r: bool)
        requires
            old(self).wf(),
        ensures
            final(self).wf(),
            final(self).tick == old(self).tick,
            final(self).params == old(self).params,
            final(self).registry@.len() == old(self).registry@.len(),
            r == old(self).registry.mapped(client_id),
            !final(self).registry.mapped(client_id),
            forall|i: int| 0 <= i < old(self).registry@.len()
                && !slot_has_client(#[trigger] old(self).registry@[i], client_id) ==>
                final(self).registry@[i] == old(self).registry@[i],
            forall|i: int| 0 <= i < old(self).registry@.len()
                && slot_has_client(#[trigger] old(self).registry@[i], client_id) ==>
                final(self).registry@[i] is None,
    {
        self.registry.on_disconnect(client_id)
    }

    /// Take one inbound intent message: resolve the sender to its entity,
    /// reject anything not strictly newer than the last applied sequence,
    /// and buffer the rest until the tick boundary drains them.
    pub fn receive_intent(&mut self, client_id: u64, intent: Intent)
        -> (r: Result<InsertOutcome, NetstackError>)
        requires
            old(self).wf(),
            intent.valid(),
        ensures
            final(self).wf(),
            final(self).tick == old(self).tick,
            final(self).params == old(self).params,
            final(self).registry@.len() == old(self).registry@.len(),
            (r == Result::<InsertOutcome, NetstackError>::Err(NetstackError::UnmappedClient))
                <==> !old(self).registry.mapped(client_id),
            !old(self).registry.mapped(client_id) ==> final(self).registry@ == old(self).registry@,
            r == Result::<InsertOutcome, NetstackError>::Err(NetstackError::StaleInput) ==>
                final(self).registry@ == old(self).registry@,
            // slots of other clients are never touched
            forall|i: int| 0 <= i < old(self).registry@.len()
                && !slot_has_client(#[trigger] old(self).registry@[i], client_id) ==>
                final(self).registry@[i] == old(self).registry@[i],
            // what happened to the sender's entity, exactly
            forall|h: int| 0 <= h < old(self).registry@.len()
                && slot_has_client(#[trigger] old(self).registry@[h], client_id) ==>
                match (old(self).registry@[h], final(self).registry@[h]) {
                    (Some(pre), Some(post)) => {
                        &&& post.client_id == pre.client_id
                        &&& post.state == pre.state
                        &&& post.last_sequence == pre.last_sequence
                        &&& post.snapshots@ == pre.snapshots@
                        &&& (intent.sequence <= pre.last_sequence ==> {
                            &&& r == Result::<InsertOutcome, NetstackError>::Err(NetstackError::StaleInput)
                            &&& post.inputs@ == pre.inputs@
                        })
                        &&& (intent.sequence > pre.last_sequence ==> {
                            &&& (r == Result::<InsertOutcome, NetstackError>::Ok(InsertOutcome::Inserted))
                                <==> admits(pre.inputs@, pre.inputs.spec_capacity(), intent.sequence)
                            &&& r == Result::<InsertOutcome, NetstackError>::Ok(InsertOutcome::StaleInsert)
                                ==> post.inputs@ == pre.inputs@
                            &&& r == Result::<InsertOutcome, NetstackError>::Ok(InsertOutcome::Inserted)
                                ==> post.inputs@.contains((Entry { key: intent.sequence, value: intent }))
                            &&& forall|e: Entry<Intent>| #[trigger] post.inputs@.contains(e) ==>
                                pre.inputs@.contains(e) || e == (Entry { key: intent.sequence, value: intent })
                        })
                    },
                    _ => false,
                },
    {
        let handle = match self.registry.lookup(client_id) {
            Some(h) => h,
            None => {
                return Err(NetstackError::UnmappedClient);
            },
        };
        proof {
            assert forall|h: int| 0 <= h < self.registry@.len()
                && slot_has_client(#[trigger] self.registry@[h], client_id)
                implies h == handle as int by {
                if h != handle as int {
                    assert(slot_has_client(self.registry@[handle as int], client_id));
                }
            }
        }
        let ghost pre_view = self.registry@;
        let rec = self.registry.record_mut(handle);
        let ghost pre = *rec;
        if intent.sequence <= rec.last_sequence {
            assert(self.registry@ =~= pre_view);
            return Err(NetstackError::StaleInput);
        }
        let outcome = rec.inputs.insert(intent.sequence, intent);
        proof {
            crate::sim::lemma_intents_valid_preserved(
                pre.inputs@,
                rec.inputs@,
                (Entry { key: intent.sequence, value: intent }),
            );
        }
        Ok(outcome)
    }

    /// Drain one entity's intent frontier at the tick boundary: sort the
    /// inbound buffer, replay every intent newer than the last applied
    /// sequence onto the authoritative state in sequence order, record the
    /// new state as a snapshot at the current tick, and return it for
    /// replication. With no new intents, the entity is left as it was.
    pub fn apply_client_intents(&mut self, handle: usize, dt: i64)
        -> (r: Result<StateVector, NetstackError>)
        requires
            old(self).wf(),
            0 <= dt <= MAX_DT,
        ensures
            final(self).wf(),
            final(self).tick == old(self).tick,
            final(self).params == old(self).params,
            final(self).registry@.len() == old(self).registry@.len(),
            (r is Err) <==> !((handle as int) < old(self).registry@.len()
                && old(self).registry@[handle as int] is Some),
            r is Err ==> r == Result::<StateVector, NetstackError>::Err(NetstackError::UnmappedClient)
                && final(self).registry@ == old(self).registry@,
            forall|i: int| 0 <= i < old(self).registry@.len() && i != handle as int ==>
                final(self).registry@[i] == old(self).registry@[i],
            r matches Ok(s) ==>
                match (old(self).registry@[handle as int], final(self).registry@[handle as int]) {
                    (Some(pre), Some(post)) => {
                        &&& post.client_id == pre.client_id
                        &&& sorted_strict(post.inputs@)
                        &&& post.inputs@.len() == pre.inputs@.len()
                        &&& forall|e: Entry<Intent>|
                            post.inputs@.contains(e) <==> pre.inputs@.contains(e)
                        &&& s == replay(
                            pre.state,
                            values_of(entries_after(post.inputs@, pre.last_sequence)),
                            dt as int,
                            old(self).params,
                        )
                        &&& post.state == s
                        &&& (entries_after(post.inputs@, pre.last_sequence).len() == 0 ==> {
                            &&& s == pre.state
                            &&& post.last_sequence == pre.last_sequence
                            &&& post.snapshots@ == pre.snapshots@
                        })
                        &&& (entries_after(post.inputs@, pre.last_sequence).len() > 0 ==> {
                            &&& post.last_sequence ==
                                entries_after(post.inputs@, pre.last_sequence).last().key
                            &&& (admits(pre.snapshots@, pre.snapshots.spec_capacity(), old(self).tick)
                                ==> post.snapshots@.contains((Entry { key: old(self).tick, value: s })))
                            &&& forall|e: Entry<StateVector>| #[trigger] post.snapshots@.contains(e) ==>
                                pre.snapshots@.contains(e) || e == (Entry { key: old(self).tick, value: s })
                        })
                    },
                    _ => false,
                },
    {
        let present = match self.registry.record(handle) {
            Some(_) => true,
            None => false,
        };
        if !present {
            return Err(NetstackError::UnmappedClient);
        }
        let ghost pre_view = self.registry@;
        let params = self.params;
        let current_tick = self.tick;
        let rec = self.registry.record_mut(handle);
        let ghost pre = *rec;
        rec.inputs.sort();
        proof {
            lemma_intents_valid_subset(pre.inputs@, rec.inputs@);
        }
        let frontier = rec.inputs.frontier(rec.last_sequence);
        proof {
            lemma_intents_valid_subset(rec.inputs@, frontier@);
        }
        if frontier.len() == 0 {
            let s = rec.state;
            proof {
                assert(values_of(entries_after(rec.inputs@, pre.last_sequence))
                    =~= Seq::<Intent>::empty());
            }
            return Ok(s);
        }
        let new_state = replay_frontier(&rec.state, &frontier, dt, &params);
        let newest = frontier[frontier.len() - 1];
        rec.state = new_state;
        rec.last_sequence = newest.key;
        let ghost snaps_pre = rec.snapshots@;
        rec.snapshots.insert(current_tick, new_state);
        proof {
            lemma_states_valid_preserved(
                snaps_pre,
                rec.snapshots@,
                (Entry { key: current_tick, value: new_state }),
            );
        }
        Ok(new_state)
    }

    /// Resolve a fire event against the shooter's snapshot history: the
    /// translation and yaw the client saw, at the ticks the event names.
    /// `BufferStarvation` if a referenced tick is older than everything
    /// retained.
    pub fn resolve_fire(&self, handle: usize, translation_tick: u64, yaw_tick: u64)
        -> (r: Result<(Snapshot<StateVector>, Snapshot<StateVector>), NetstackError>)
        ensures
            (r == Result::<(Snapshot<StateVector>, Snapshot<StateVector>), NetstackError>::Err(
                NetstackError::UnmappedClient))
                <==> !((handle as int) < self.registry@.len()
                    && self.registry@[handle as int] is Some),
            r matches Ok(pair) ==>
                match self.registry@[handle as int] {
                    Some(rec) => {
                        &&& best_at_or_before(rec.snapshots@, translation_tick,
                            (Entry { key: pair.0.tick, value: pair.0.value }))
                        &&& best_at_or_before(rec.snapshots@, yaw_tick,
                            (Entry { key: pair.1.tick, value: pair.1.value }))
                    },
                    None => false,
                },
            r == Result::<(Snapshot<StateVector>, Snapshot<StateVector>), NetstackError>::Err(
                NetstackError::BufferStarvation) ==>
                match self.registry@[handle as int] {
                    Some(rec) =>
                        (forall|i: int| 0 <= i < rec.snapshots@.len() ==>
                            (#[trigger] rec.snapshots@[i]).key > translation_tick)
                        || (forall|i: int| 0 <= i < rec.snapshots@.len() ==>
                            (#[trigger] rec.snapshots@[i]).key > yaw_tick),
                    None => false,
                },
            r is Ok || r == Result::<(Snapshot<StateVector>, Snapshot<StateVector>), NetstackError>::Err(
                NetstackError::UnmappedClient)
                || r == Result::<(Snapshot<StateVector>, Snapshot<StateVector>), NetstackError>::Err(
                    NetstackError::BufferStarvation),
    {
        let rec = match self.registry.record(handle) {
            Some(rec) => rec,
            None => {
                return Err(NetstackError::UnmappedClient);
            },
        };
        let t_entry = match rec.snapshots.find_at_or_before(translation_tick) {
            Some(e) => e,
            None => {
                return Err(NetstackError::BufferStarvation);
            },
        };
        let y_entry = match rec.snapshots.find_at_or_before(yaw_tick) {
            Some(e) => e,
            None => {
                return Err(NetstackError::BufferStarvation);
            },
        };
        Ok((
            Snapshot { tick: t_entry.key, value: t_entry.value },
            Snapshot { tick: y_entry.key, value: y_entry.value },
        ))
    }
}

} // verus!
