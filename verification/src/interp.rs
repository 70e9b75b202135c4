//! Remote-entity interpolation.
//!
//! Entities not locally controlled are rendered between the two most
//! recent authoritative snapshots: the interpolation factor is the wall
//! time elapsed since the latest snapshot over the network tick interval,
//! clamped to one. Translation blends linearly per component; yaw blends
//! along the shortest angular path. With a single snapshot it is used
//! unmodified — there is no extrapolation.

use vstd::prelude::*;
use crate::fixed::{
    Vec2Milli, FULL_TURN, HALF_TURN, abs_i, in_coord_range, scale_div, scale_div_i64,
    lemma_scale_div_bounded,
};
use crate::components::{
    NetworkTranslation2D, NetworkYaw, MinimalNetworkTransform, MinimalNetworkTransformSnapshots,
    all_translations_valid, all_yaws_valid,
};
use crate::buffer::{TimestampedRingBuffer, sorted_strict};

verus! {

/// Largest representable network tick interval, in milliseconds: the
/// factor computation `elapsed * 1000` must fit in 64 bits.
pub const MAX_TICK_INTERVAL_MS: u64 = 18_000_000_000_000_000;

/// The interpolation factor in milli-units: elapsed time over the tick
/// interval, clamped into `[0, 1]`.
pub open spec fn interp_t(elapsed: int, interval: int) -> int {
    if interval <= 0 || elapsed >= interval {
        1000
    } else if elapsed < 0 {
        0
    } else {
        (elapsed * 1000) / interval
    }
}

/// Linear interpolation in milli-units: `a + (b - a) * t / 1000`.
pub open spec fn lerp_milli(a: int, b: int, t: int) -> int {
    a + scale_div(b - a, t, 1000)
}

/// Normalize an angle into `[0, FULL_TURN)`, for values one turn off.
pub open spec fn wrap_turn(v: int) -> int {
    if v < 0 {
        v + FULL_TURN
    } else if v >= FULL_TURN {
        v - FULL_TURN
    } else {
        v
    }
}

/// The signed shortest angular way from `a` to `b`, in milli-degrees.
pub open spec fn yaw_delta(a: int, b: int) -> int {
    let d = b - a;
    if d > HALF_TURN {
        d - FULL_TURN
    } else if d < -HALF_TURN {
        d + FULL_TURN
    } else {
        d
    }
}

/// Shortest-path angular interpolation.
pub open spec fn lerp_yaw(a: int, b: int, t: int) -> int {
    wrap_turn(a + scale_div(yaw_delta(a, b), t, 1000))
}

/// The executable interpolation factor.
pub fn interp_factor(elapsed_ms: u64, interval_ms: u64) -> (t: i64)
    requires
        1 <= interval_ms <= MAX_TICK_INTERVAL_MS,
    ensures
        t as int == interp_t(elapsed_ms as int, interval_ms as int),
        0 <= t <= 1000,
{
    if elapsed_ms >= interval_ms {
        1000
    } else {
        proof {
            assert((elapsed_ms as int) * 1000 <= 18_000_000_000_000_000_000) by (nonlinear_arith)
                requires
                    elapsed_ms as int <= 18_000_000_000_000_000,
            ;
            vstd::arithmetic::mul::lemma_mul_inequality(
                elapsed_ms as int, interval_ms as int, 1000);
            vstd::arithmetic::div_mod::lemma_div_is_ordered(
                (elapsed_ms as int) * 1000, (interval_ms as int) * 1000, interval_ms as int);
            vstd::arithmetic::mul::lemma_mul_is_commutative(interval_ms as int, 1000);
            vstd::arithmetic::div_mod::lemma_div_multiples_vanish(1000, interval_ms as int);
            vstd::arithmetic::div_mod::lemma_div_is_ordered(
                0, (elapsed_ms as int) * 1000, interval_ms as int);
            vstd::arithmetic::div_mod::lemma_div_basics(interval_ms as int);
        }
        let q = elapsed_ms * 1000 / interval_ms;
        q as i64
    }
}

/// Linear blend of one coordinate; the result lies between the endpoints.
fn lerp_component(a: i64, b: i64, t: i64) -> (r: i64)
    requires
        in_coord_range(a as int),
        in_coord_range(b as int),
        0 <= t <= 1000,
    ensures
        r as int == lerp_milli(a as int, b as int, t as int),
        in_coord_range(r as int),
{
    let d = b - a;
    proof {
        assert(abs_i(d as int) * (t as int) <= i64::MAX) by (nonlinear_arith)
            requires
                abs_i(d as int) <= 2_000_000_000,
                0 <= t as int <= 1000,
        ;
    }
    let delta = scale_div_i64(d, t as u64, 1000);
    proof {
        lemma_scale_div_bounded(d as int, t as int, 1000);
    }
    a + delta
}

impl NetworkTranslation2D {
    /// Blend toward `other` by the factor `t` (milli-units of one).
    pub fn interpolate(&self, other: &Self, t: i64) -> (r: Self)
        requires
            self.valid(),
            other.valid(),
            0 <= t <= 1000,
        ensures
            r.0.x as int == lerp_milli(self.0.x as int, other.0.x as int, t as int),
            r.0.y as int == lerp_milli(self.0.y as int, other.0.y as int, t as int),
            r.valid(),
    {
        NetworkTranslation2D(Vec2Milli {
            x: lerp_component(self.0.x, other.0.x, t),
            y: lerp_component(self.0.y, other.0.y, t),
        })
    }
}

impl NetworkYaw {
    /// Blend toward `other` along the shortest angular path.
    pub fn interpolate(&self, other: &Self, t: i64) -> (r: Self)
        requires
            self.valid(),
            other.valid(),
            0 <= t <= 1000,
        ensures
            r.0 as int == lerp_yaw(self.0 as int, other.0 as int, t as int),
            r.valid(),
    {
        let a = self.0;
        let b = other.0;
        let d0 = b - a;
        let d = if d0 > HALF_TURN {
            d0 - FULL_TURN
        } else if d0 < -HALF_TURN {
            d0 + FULL_TURN
        } else {
            d0
        };
        proof {
            assert(d as int == yaw_delta(a as int, b as int));
            assert(abs_i(d as int) * (t as int) <= i64::MAX) by (nonlinear_arith)
                requires
                    abs_i(d as int) <= HALF_TURN,
                    0 <= t as int <= 1000,
            ;
        }
        let delta = scale_div_i64(d, t as u64, 1000);
        proof {
            lemma_scale_div_bounded(d as int, t as int, 1000);
        }
        let sum = a + delta;
        let w = if sum < 0 {
            sum + FULL_TURN
        } else if sum >= FULL_TURN {
            sum - FULL_TURN
        } else {
            sum
        };
        NetworkYaw(w)
    }
}

/// Interpolated translation for a remote entity: the latest two buffered
/// snapshots blended by the elapsed time, the single snapshot unmodified,
/// or the current value when nothing has been received.
pub fn interpolate_translation(
    buffer: &TimestampedRingBuffer<NetworkTranslation2D>,
    current: &NetworkTranslation2D,
    elapsed_ms: u64,
    interval_ms: u64,
) -> (r: NetworkTranslation2D)
    requires
        sorted_strict(buffer@),
        all_translations_valid(buffer@),
        current.valid(),
        1 <= interval_ms <= MAX_TICK_INTERVAL_MS,
    ensures
        buffer@.len() == 0 ==> r == *current,
        buffer@.len() == 1 ==> r == buffer@[0].value,
        buffer@.len() >= 2 ==> {
            let n = buffer@.len() as int;
            let t = interp_t(elapsed_ms as int, interval_ms as int);
            &&& r.0.x as int == lerp_milli(
                buffer@[n - 2].value.0.x as int, buffer@[n - 1].value.0.x as int, t)
            &&& r.0.y as int == lerp_milli(
                buffer@[n - 2].value.0.y as int, buffer@[n - 1].value.0.y as int, t)
        },
        r.valid(),
{
    let n = buffer.len();
    if n == 0 {
        return *current;
    }
    let latest = match buffer.get(n - 1) {
        Some(e) => e,
        None => vstd::pervasive::unreached(),
    };
    if n == 1 {
        return latest.value;
    }
    let prev = match buffer.get(n - 2) {
        Some(e) => e,
        None => vstd::pervasive::unreached(),
    };
    let t = interp_factor(elapsed_ms, interval_ms);
    prev.value.interpolate(&latest.value, t)
}

/// Interpolated yaw for a remote entity; the same policy as translation,
/// along the shortest angular path.
pub fn interpolate_yaw(
    buffer: &TimestampedRingBuffer<NetworkYaw>,
    current: &NetworkYaw,
    elapsed_ms: u64,
    interval_ms: u64,
) -> (r: NetworkYaw)
    requires
        sorted_strict(buffer@),
        all_yaws_valid(buffer@),
        current.valid(),
        1 <= interval_ms <= MAX_TICK_INTERVAL_MS,
    ensures
        buffer@.len() == 0 ==> r == *current,
        buffer@.len() == 1 ==> r == buffer@[0].value,
        buffer@.len() >= 2 ==> r.0 as int == lerp_yaw(
            buffer@[buffer@.len() - 2].value.0 as int,
            buffer@[buffer@.len() - 1].value.0 as int,
            interp_t(elapsed_ms as int, interval_ms as int),
        ),
        r.valid(),
{
    let n = buffer.len();
    if n == 0 {
        return *current;
    }
    let latest = match buffer.get(n - 1) {
        Some(e) => e,
        None => vstd::pervasive::unreached(),
    };
    if n == 1 {
        return latest.value;
    }
    let prev = match buffer.get(n - 2) {
        Some(e) => e,
        None => vstd::pervasive::unreached(),
    };
    let t = interp_factor(elapsed_ms, interval_ms);
    prev.value.interpolate(&latest.value, t)
}

/// One render-frame interpolation pass over a remote entity's transform:
/// both components are blended from their snapshot histories.
pub fn apply_network_transform(
    transform: &mut MinimalNetworkTransform,
    snaps: &MinimalNetworkTransformSnapshots,
    elapsed_ms: u64,
    interval_ms: u64,
)
    requires
        old(transform).translation.valid(),
        old(transform).rotation.valid(),
        snaps.wf(),
        sorted_strict(snaps.translation_snaps@),
        sorted_strict(snaps.rotation_snaps@),
        1 <= interval_ms <= MAX_TICK_INTERVAL_MS,
    ensures
        final(transform).translation.valid(),
        final(transform).rotation.valid(),
        snaps.translation_snaps@.len() == 0 ==>
            final(transform).translation == old(transform).translation,
        snaps.translation_snaps@.len() == 1 ==>
            final(transform).translation == snaps.translation_snaps@[0].value,
        snaps.rotation_snaps@.len() == 0 ==>
            final(transform).rotation == old(transform).rotation,
        snaps.rotation_snaps@.len() == 1 ==>
            final(transform).rotation == snaps.rotation_snaps@[0].value,
        snaps.translation_snaps@.len() >= 2 ==> {
            let n = snaps.translation_snaps@.len() as int;
            let t = interp_t(elapsed_ms as int, interval_ms as int);
            &&& final(transform).translation.0.x as int == lerp_milli(
                snaps.translation_snaps@[n - 2].value.0.x as int,
                snaps.translation_snaps@[n - 1].value.0.x as int, t)
            &&& final(transform).translation.0.y as int == lerp_milli(
                snaps.translation_snaps@[n - 2].value.0.y as int,
                snaps.translation_snaps@[n - 1].value.0.y as int, t)
        },
        snaps.rotation_snaps@.len() >= 2 ==>
            final(transform).rotation.0 as int == lerp_yaw(
                snaps.rotation_snaps@[snaps.rotation_snaps@.len() - 2].value.0 as int,
                snaps.rotation_snaps@[snaps.rotation_snaps@.len() - 1].value.0 as int,
                interp_t(elapsed_ms as int, interval_ms as int),
            ),
{
    let t2d = interpolate_translation(
        &snaps.translation_snaps, &transform.translation, elapsed_ms, interval_ms);
    let yaw = interpolate_yaw(&snaps.rotation_snaps, &transform.rotation, elapsed_ms, interval_ms);
    transform.translation = t2d;
    transform.rotation = yaw;
}

} // verus!
