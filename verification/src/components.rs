//! The replicated component model.
//!
//! Replication is re-expressed as a fixed, explicit set of field kinds: a
//! 2D translation, a yaw angle and a presentation — not an open-ended
//! generic mechanism. 3D poses exist only at the rendering edge; here a 3D
//! vector is `(x, y, z)` in milli-units and the networked translation
//! carries `(x, z)` of it, the vertical axis being fixed by the ground
//! plane.

use vstd::prelude::*;
use crate::fixed::{Vec2Milli, FULL_TURN};
use crate::buffer::{TimestampedRingBuffer, Entry};

verus! {

/// A 3D vector in milli-units, as the rendering side uses it.
#[derive(Clone, Copy, Debug, PartialEq, Eq, Structural)]
pub struct Vec3Milli {
    pub x: i64,
    pub y: i64,
    pub z: i64,
}

/// The networked 2D translation of an entity.
#[derive(Clone, Copy, Debug, PartialEq, Eq, Structural)]
pub struct NetworkTranslation2D(pub Vec2Milli);

impl NetworkTranslation2D {
    pub open spec fn valid(self) -> bool {
        self.0.valid_coords()
    }

    /// Project a 3D position onto the networked plane: `x` stays, `z`
    /// becomes the planar `y`.
    pub fn from_3d(v: Vec3Milli) -> (r: Self)
        ensures
            r.0.x == v.x,
            r.0.y == v.z,
    {
        NetworkTranslation2D(Vec2Milli { x: v.x, y: v.z })
    }

    /// Lift the planar position back into 3D on the ground plane.
    pub fn to_3d(&self) -> (r: Vec3Milli)
        ensures
            r.x == self.0.x,
            r.y == 0,
            r.z == self.0.y,
    {
        Vec3Milli { x: self.0.x, y: 0, z: self.0.y }
    }
}

/// The networked yaw of an entity, in milli-degrees, normalized into
/// `[0, FULL_TURN)`. The conversion to and from a rendering rotation is a
/// floating-point concern of the presentation edge, not of the core.
#[derive(Clone, Copy, Debug, PartialEq, Eq, Structural)]
pub struct NetworkYaw(pub i64);

impl NetworkYaw {
    pub open spec fn valid(self) -> bool {
        0 <= self.0 < FULL_TURN
    }
}

/// The player component: one per connected client identity.
#[derive(Clone, Copy, Debug)]
pub struct NetworkPlayer {
    client_id: u64,
}

impl NetworkPlayer {
    pub closed spec fn spec_client_id(self) -> u64 {
        self.client_id
    }

    pub fn new(client_id: u64) -> (r: Self)
        ensures
            r.spec_client_id() == client_id,
    {
        NetworkPlayer { client_id }
    }

    pub fn client_id(&self) -> (r: u64)
        ensures
            r == self.spec_client_id(),
    {
        self.client_id
    }

    pub fn get(&self) -> (r: u64)
        ensures
            r == self.spec_client_id(),
    {
        self.client_id
    }
}

/// Server-only player info: the session identity the client connected
/// with, as the 16 bytes of its session payload.
#[derive(Clone, Copy, Debug)]
pub struct ServerNetworkPlayerInfo {
    uuid: [u8; 16],
}

impl ServerNetworkPlayerInfo {
    pub closed spec fn spec_uuid(self) -> Seq<u8> {
        self.uuid@
    }

    pub fn new(uuid: [u8; 16]) -> (r: Self)
        ensures
            r.spec_uuid() == uuid@,
    {
        ServerNetworkPlayerInfo { uuid }
    }

    pub fn uuid(&self) -> (r: [u8; 16])
        ensures
            r@ == self.spec_uuid(),
    {
        self.uuid
    }
}

/// Ownership marker for a player-controlled entity.
#[derive(Clone, Copy, Debug)]
pub struct Owner {
    pub owner: u64,
}

impl Owner {
    pub fn new(id: u64) -> (r: Self)
        ensures
            r.owner == id,
    {
        Owner { owner: id }
    }
}

/// The minimal networked transform: translation plus yaw.
#[derive(Clone, Copy, Debug, PartialEq, Eq, Structural)]
pub struct MinimalNetworkTransform {
    pub translation: NetworkTranslation2D,
    pub rotation: NetworkYaw,
}

impl Default for MinimalNetworkTransform {
    fn default() -> (r: Self)
        ensures
            r.translation.0.is_zero(),
            r.rotation.0 == 0,
    {
        MinimalNetworkTransform {
            translation: NetworkTranslation2D(Vec2Milli { x: 0, y: 0 }),
            rotation: NetworkYaw(0),
        }
    }
}

/// The client-side snapshot histories of one remote entity's transform,
/// keyed by the server tick each value was received for.
pub struct MinimalNetworkTransformSnapshots {
    pub translation_snaps: TimestampedRingBuffer<NetworkTranslation2D>,
    pub rotation_snaps: TimestampedRingBuffer<NetworkYaw>,
}

/// Every buffered translation is in range.
pub open spec fn all_translations_valid(s: Seq<Entry<NetworkTranslation2D>>) -> bool {
    forall|i: int| 0 <= i < s.len() ==> (#[trigger] s[i]).value.valid()
}

/// Every buffered yaw is a normalized angle.
pub open spec fn all_yaws_valid(s: Seq<Entry<NetworkYaw>>) -> bool {
    forall|i: int| 0 <= i < s.len() ==> (#[trigger] s[i]).value.valid()
}

/// A freshly seeded history: a floor entry at tick 0, one at the spawn
/// tick, nothing else, every value the given one. Late events from peers
/// whose last received tick is far in the past then still resolve.
pub open spec fn seeded_with<T>(snaps: Seq<Entry<T>>, spawn_tick: u64, value: T) -> bool {
    &&& crate::buffer::has_key(snaps, 0)
    &&& (spawn_tick > 0 ==> crate::buffer::has_key(snaps, spawn_tick))
    &&& forall|i: int| 0 <= i < snaps.len() ==>
        ((#[trigger] snaps[i]).key == 0 || snaps[i].key == spawn_tick)
        && snaps[i].value == value
}

impl MinimalNetworkTransformSnapshots {
    pub open spec fn wf(self) -> bool {
        &&& self.translation_snaps.wf()
        &&& self.rotation_snaps.wf()
        &&& all_translations_valid(self.translation_snaps@)
        &&& all_yaws_valid(self.rotation_snaps@)
    }

    /// Seed both histories with the entity's current transform, at the
    /// floor tick 0 and at the tick the server spawned it: the safety
    /// entries that keep late-arriving events from other clients
    /// resolvable. Needs room for both.
    pub fn seed(&mut self, translation: NetworkTranslation2D, rotation: NetworkYaw, spawn_tick: u64)
        requires
            old(self).wf(),
            old(self).translation_snaps@.len() == 0,
            old(self).rotation_snaps@.len() == 0,
            old(self).translation_snaps.spec_capacity() >= 2,
            old(self).rotation_snaps.spec_capacity() >= 2,
            translation.valid(),
            rotation.valid(),
        ensures
            final(self).wf(),
            seeded_with(final(self).translation_snaps@, spawn_tick, translation),
            seeded_with(final(self).rotation_snaps@, spawn_tick, rotation),
            final(self).translation_snaps.spec_capacity()
                == old(self).translation_snaps.spec_capacity(),
            final(self).rotation_snaps.spec_capacity()
                == old(self).rotation_snaps.spec_capacity(),
    {
        let ghost t0 = self.translation_snaps@;
        self.translation_snaps.insert(0, translation);
        proof {
            assert(self.translation_snaps@ =~= t0.push(
                (Entry { key: 0u64, value: translation })));
            assert(self.translation_snaps@[0] == (Entry { key: 0u64, value: translation }));
        }
        let ghost r0 = self.rotation_snaps@;
        self.rotation_snaps.insert(0, rotation);
        proof {
            assert(self.rotation_snaps@ =~= r0.push((Entry { key: 0u64, value: rotation })));
            assert(self.rotation_snaps@[0] == (Entry { key: 0u64, value: rotation }));
        }
        if spawn_tick > 0 {
            let ghost t1 = self.translation_snaps@;
            self.translation_snaps.insert(spawn_tick, translation);
            proof {
                assert(!crate::buffer::has_key(t1, spawn_tick));
                assert(self.translation_snaps@ =~= t1.push(
                    (Entry { key: spawn_tick, value: translation })));
                assert(self.translation_snaps@[0] == (Entry { key: 0u64, value: translation }));
                assert(self.translation_snaps@[1] == (Entry { key: spawn_tick, value: translation }));
            }
            let ghost r1 = self.rotation_snaps@;
            self.rotation_snaps.insert(spawn_tick, rotation);
            proof {
                assert(!crate::buffer::has_key(r1, spawn_tick));
                assert(self.rotation_snaps@ =~= r1.push(
                    (Entry { key: spawn_tick, value: rotation })));
                assert(self.rotation_snaps@[0] == (Entry { key: 0u64, value: rotation }));
                assert(self.rotation_snaps@[1] == (Entry { key: spawn_tick, value: rotation }));
            }
        }
    }

    pub fn new(capacity: usize) -> (r: Self)
        requires
            capacity >= 1,
        ensures
            r.wf(),
            r.translation_snaps@ =~= Seq::<Entry<NetworkTranslation2D>>::empty(),
            r.rotation_snaps@ =~= Seq::<Entry<NetworkYaw>>::empty(),
            r.translation_snaps.spec_capacity() == capacity,
            r.rotation_snaps.spec_capacity() == capacity,
    {
        MinimalNetworkTransformSnapshots {
            translation_snaps: TimestampedRingBuffer::new(capacity),
            rotation_snaps: TimestampedRingBuffer::new(capacity),
        }
    }
}

} // verus!
