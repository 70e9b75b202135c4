//! The connection registry: client identity to entity, one to one.
//!
//! Entities live in a dense arena and are addressed by handle (index).
//! Each entity owns its buffer pair — an intent buffer and a state-snapshot
//! buffer — created at spawn and destroyed with the entity, so tearing one
//! connection down can never touch another entity's buffers. On connect,
//! the snapshot buffer is seeded with a floor snapshot at tick 0 (and one
//! at the connecting tick), so that a lookup for any tick at or before now
//! always resolves to a defined value instead of starving.

use vstd::prelude::*;
use crate::buffer::{TimestampedRingBuffer, Entry, has_key};
use crate::sim::{Intent, StateVector, all_intents_valid};
use crate::error::NetstackError;

verus! {

/// Every buffered state snapshot is a valid pose.
pub open spec fn all_states_valid(s: Seq<Entry<StateVector>>) -> bool {
    forall|i: int| 0 <= i < s.len() ==> (#[trigger] s[i]).value.valid()
}

/// Snapshot validity survives any operation that only drops entries or
/// adds one valid entry.
pub proof fn lemma_states_valid_preserved(
    pre: Seq<Entry<StateVector>>,
    post: Seq<Entry<StateVector>>,
    e: Entry<StateVector>,
)
    requires
        all_states_valid(pre),
        e.value.valid(),
        forall|x: Entry<StateVector>| #[trigger] post.contains(x) ==> pre.contains(x) || x == e,
    ensures
        all_states_valid(post),
{
    assert forall|i: int| 0 <= i < post.len() implies (#[trigger] post[i]).value.valid() by {
        assert(post.contains(post[i]));
        if post[i] != e {
            assert(pre.contains(post[i]));
            let k = choose|k: int| 0 <= k < pre.len() && pre[k] == post[i];
            assert(pre[k].value.valid());
        }
    }
}

/// One networked entity: its authoritative state and its buffer pair.
pub struct EntityRecord {
    /// The owning client identity.
    pub client_id: u64,
    /// The entity's authoritative pose (server side).
    pub state: StateVector,
    /// The greatest intent sequence number applied so far; anything not
    /// strictly greater is stale.
    pub last_sequence: u64,
    /// Inbound intents, keyed by sequence number.
    pub inputs: TimestampedRingBuffer<Intent>,
    /// Authoritative state history, keyed by server tick.
    pub snapshots: TimestampedRingBuffer<StateVector>,
}

impl EntityRecord {
    pub open spec fn wf(self) -> bool {
        &&& self.state.valid()
        &&& self.inputs.wf()
        &&& self.snapshots.wf()
        &&& all_intents_valid(self.inputs@)
        &&& all_states_valid(self.snapshots@)
    }
}

/// The slot holds an entity owned by `client`.
pub open spec fn slot_has_client(s: Option<EntityRecord>, client: u64) -> bool {
    match s {
        Some(rec) => rec.client_id == client,
        None => false,
    }
}

/// The slot, if occupied, holds a well-formed entity.
pub open spec fn slot_wf(s: Option<EntityRecord>) -> bool {
    match s {
        Some(rec) => rec.wf(),
        None => true,
    }
}

/// A freshly seeded snapshot history: a floor snapshot at tick 0, one at
/// the spawn tick, and nothing else; every seeded value is the initial
/// state.
pub open spec fn seeded(snaps: Seq<Entry<StateVector>>, spawn_tick: u64, initial: StateVector) -> bool {
    &&& has_key(snaps, 0)
    &&& (spawn_tick > 0 ==> has_key(snaps, spawn_tick))
    &&& forall|i: int| 0 <= i < snaps.len() ==>
        ((#[trigger] snaps[i]).key == 0 || snaps[i].key == spawn_tick)
        && snaps[i].value == initial
}

/// A seeded snapshot history can never starve a lookup: whatever tick a
/// late event references, the floor snapshot at tick 0 is at or before it.
pub proof fn lemma_seeded_never_starves(
    snaps: Seq<Entry<StateVector>>,
    spawn_tick: u64,
    initial: StateVector,
    t: u64,
)
    requires
        seeded(snaps, spawn_tick, initial),
    ensures
        exists|i: int| 0 <= i < snaps.len() && (#[trigger] snaps[i]).key <= t,
{
    let i = choose|i: int| 0 <= i < snaps.len() && (#[trigger] snaps[i]).key == 0;
    assert(snaps[i].key <= t);
}

/// Bidirectional `client identity <-> entity` mapping plus the entity
/// arena, authoritative on the server side.
pub struct ConnectionRegistry {
    slots: Vec<Option<EntityRecord>>,
    buffer_capacity: usize,
}

impl View for ConnectionRegistry {
    type V = Seq<Option<EntityRecord>>;

    closed spec fn view(&self) -> Seq<Option<EntityRecord>> {
        self.slots@
    }
}

impl ConnectionRegistry {
    /// Capacity every spawned buffer pair is created with.
    pub closed spec fn spec_buffer_capacity(self) -> int {
        self.buffer_capacity as int
    }

    /// A client is mapped when some slot holds its entity.
    pub open spec fn mapped(self, client: u64) -> bool {
        exists|h: int| 0 <= h < self@.len() && slot_has_client(#[trigger] self@[h], client)
    }

    pub open spec fn wf(self) -> bool {
        &&& forall|h: int| 0 <= h < self@.len() ==> slot_wf(#[trigger] self@[h])
        &&& forall|h1: int, h2: int| 0 <= h1 < h2 < self@.len() ==>
            match (#[trigger] self@[h1], #[trigger] self@[h2]) {
                (Some(a), Some(b)) => a.client_id != b.client_id,
                _ => true,
            }
        &&& self.spec_buffer_capacity() >= 2
    }

    /// `buffer_capacity` is what every per-entity buffer is created with;
    /// it must at least hold the two seed snapshots.
    pub fn new(buffer_capacity: usize) -> (r: Self)
        requires
            buffer_capacity >= 2,
        ensures
            r.wf(),
            r@ =~= Seq::<Option<EntityRecord>>::empty(),
            r.spec_buffer_capacity() == buffer_capacity,
    {
        ConnectionRegistry { slots: Vec::new(), buffer_capacity }
    }

    pub fn buffer_capacity(&self) -> (r: usize)
        ensures
            r == self.spec_buffer_capacity(),
    {
        self.buffer_capacity
    }

    pub fn len(&self) -> (r: usize)
        ensures
            r == self@.len(),
    {
        self.slots.len()
    }

    /// The handle mapped to `client_id`, if any.
    pub fn lookup(&self, client_id: u64) -> (r: Option<usize>)
        ensures
            match r {
                Some(h) => h < self@.len() && slot_has_client(self@[h as int], client_id),
                None => !self.mapped(client_id),
            },
    {
        let mut i: usize = 0;
        while i < self.slots.len()
            invariant
                i <= self@.len(),
                forall|k: int| 0 <= k < i ==> !slot_has_client(#[trigger] self@[k], client_id),
            decreases self@.len() - i,
        {
            match &self.slots[i] {
                Some(rec) => {
                    if rec.client_id == client_id {
                        return Some(i);
                    }
                },
                None => {},
            }
            i = i + 1;
        }
        None
    }

    /// Read an entity by handle.
    pub fn record(&self, handle: usize) -> (r: Option<&EntityRecord>)
        ensures
            match r {
                Some(rec) => handle < self@.len() && self@[handle as int] == Some(*rec),
                None => !(handle < self@.len() && self@[handle as int] is Some),
            },
    {
        if handle < self.slots.len() {
            match &self.slots[handle] {
                Some(rec) => Some(rec),
                None => None,
            }
        } else {
            None
        }
    }

    /// Mutable access to an entity by handle; the registry afterwards holds
    /// exactly what the caller left behind the reference.
    pub fn record_mut(&mut self, handle: usize) -> (r: &mut EntityRecord)
        requires
            handle < old(self)@.len(),
            old(self)@[handle as int] is Some,
        ensures
            old(self)@[handle as int] == Some(*r),
            final(self)@ == old(self)@.update(handle as int, Some(*final(r))),
            final(self).spec_buffer_capacity() == old(self).spec_buffer_capacity(),
    {
        match &mut self.slots[handle] {
            Some(rec) => rec,
            None => vstd::pervasive::unreached(),
        }
    }

    /// Connect a client: create its entity with a fresh buffer pair, the
    /// snapshot history seeded at tick 0 and at the connecting tick.
    /// Signals `DuplicateClient` (and changes nothing) if the identity is
    /// already mapped.
    pub fn on_connect(&mut self, client_id: u64, spawn_tick: u64, initial: StateVector)
        -> (r: Result<usize, NetstackError>)
        requires
            old(self).wf(),
            initial.valid(),
        ensures
            final(self).wf(),
            final(self).spec_buffer_capacity() == old(self).spec_buffer_capacity(),
            (r is Err) <==> old(self).mapped(client_id),
            r is Err ==> r == Result::<usize, NetstackError>::Err(NetstackError::DuplicateClient)
                && final(self)@ == old(self)@,
            r matches Ok(h) ==> {
                &&& (h as int) < final(self)@.len()
                &&& slot_has_client(final(self)@[h as int], client_id)
                &&& final(self).mapped(client_id)
                &&& (final(self)@[h as int] matches Some(rec)
                    && rec.client_id == client_id
                    && rec.state == initial
                    && rec.last_sequence == 0
                    && rec.inputs@ =~= Seq::<Entry<Intent>>::empty()
                    && rec.inputs.spec_capacity() == old(self).spec_buffer_capacity()
                    && rec.snapshots.spec_capacity() == old(self).spec_buffer_capacity()
                    && seeded(rec.snapshots@, spawn_tick, initial))
                &&& forall|i: int| 0 <= i < old(self)@.len() && i != h as int ==>
                    final(self)@[i] == old(self)@[i]
                &&& ((h as int) < old(self)@.len() && final(self)@.len() == old(self)@.len()
                    || h as int == old(self)@.len() && final(self)@.len() == old(self)@.len() + 1)
                &&& (h as int) < old(self)@.len() ==> old(self)@[h as int] is None
            },
    {
        if let Some(_) = self.lookup(client_id) {
            return Err(NetstackError::DuplicateClient);
        }
        let mut snapshots: TimestampedRingBuffer<StateVector> =
            TimestampedRingBuffer::new(self.buffer_capacity);
        snapshots.insert(0, initial);
        proof {
            assert(snapshots@ =~= Seq::<Entry<StateVector>>::empty().push(
                (Entry { key: 0u64, value: initial })));
            assert(snapshots@[0] == (Entry { key: 0u64, value: initial }));
        }
        if spawn_tick > 0 {
            let ghost pre = snapshots@;
            snapshots.insert(spawn_tick, initial);
            proof {
                assert(!has_key(pre, spawn_tick));
                assert(snapshots@ =~= pre.push((Entry { key: spawn_tick, value: initial })));
                assert(snapshots@[0] == (Entry { key: 0u64, value: initial }));
                assert(snapshots@[1] == (Entry { key: spawn_tick, value: initial }));
            }
        }
        assert(seeded(snapshots@, spawn_tick, initial));
        assert(all_states_valid(snapshots@));
        let record = EntityRecord {
            client_id,
            state: initial,
            last_sequence: 0,
            inputs: TimestampedRingBuffer::new(self.buffer_capacity),
            snapshots,
        };
        // reuse a free slot if there is one, else grow the arena
        let mut free: Option<usize> = None;
        let mut i: usize = 0;
        while i < self.slots.len()
            invariant
                i <= self@.len(),
                match free {
                    Some(f) => f < i && self@[f as int] is None,
                    None => true,
                },
            decreases self@.len() - i,
        {
            if free.is_none() {
                let is_free = match &self.slots[i] {
                    Some(_) => false,
                    None => true,
                };
                if is_free {
                    free = Some(i);
                }
            }
            i = i + 1;
        }
        match free {
            Some(f) => {
                self.slots[f] = Some(record);
                Ok(f)
            },
            None => {
                let h = self.slots.len();
                self.slots.push(Some(record));
                Ok(h)
            },
        }
    }

    /// Disconnect a client: the entity and both of its buffers are
    /// destroyed at once, the mapping removed, every other entity left
    /// untouched. Returns whether a mapping existed.
    pub fn on_disconnect(&mut self, client_id: u64) -> (r: bool)
        requires
            old(self).wf(),
        ensures
            final(self).wf(),
            final(self).spec_buffer_capacity() == old(self).spec_buffer_capacity(),
            final(self)@.len() == old(self)@.len(),
            r == old(self).mapped(client_id),
            !final(self).mapped(client_id),
            forall|i: int| 0 <= i < old(self)@.len()
                && !slot_has_client(#[trigger] old(self)@[i], client_id) ==>
                final(self)@[i] == old(self)@[i],
            forall|i: int| 0 <= i < old(self)@.len()
                && slot_has_client(#[trigger] old(self)@[i], client_id) ==>
                final(self)@[i] is None,
    {
        let mut removed = false;
        let mut i: usize = 0;
        while i < self.slots.len()
            invariant
                i <= self@.len(),
                self@.len() == old(self)@.len(),
                self.spec_buffer_capacity() == old(self).spec_buffer_capacity(),
                forall|k: int| 0 <= k < self@.len() ==> slot_wf(#[trigger] self@[k]),
                forall|h1: int, h2: int| 0 <= h1 < h2 < self@.len() ==>
                    match (#[trigger] self@[h1], #[trigger] self@[h2]) {
                        (Some(a), Some(b)) => a.client_id != b.client_id,
                        _ => true,
                    },
                forall|k: int| 0 <= k < i ==> !slot_has_client(#[trigger] self@[k], client_id),
                forall|k: int| 0 <= k < old(self)@.len()
                    && !slot_has_client(#[trigger] old(self)@[k], client_id) ==>
                    self@[k] == old(self)@[k],
                forall|k: int| 0 <= k < old(self)@.len()
                    && slot_has_client(#[trigger] old(self)@[k], client_id) ==>
                    self@[k] is None || self@[k] == old(self)@[k],
                forall|k: int| i <= k < old(self)@.len() ==> self@[k] == old(self)@[k],
                removed == exists|k: int| 0 <= k < i
                    && slot_has_client(#[trigger] old(self)@[k], client_id),
                removed ==> forall|k: int| 0 <= k < old(self)@.len()
                    && slot_has_client(#[trigger] old(self)@[k], client_id) ==>
                    self@[k] is None,
            decreases self@.len() - i,
        {
            let is_match = match &self.slots[i] {
                Some(rec) => rec.client_id == client_id,
                None => false,
            };
            if is_match {
                self.slots[i] = None;
                removed = true;
            }
            i = i + 1;
        }
        removed
    }
}

} // verus!
