//! The deterministic simulation step.
//!
//! `sim_step` is the one function that advances an entity's pose from an
//! intent and a delta-time. It is pure integer arithmetic, so the client's
//! prediction and the server's authoritative application of the very same
//! intents produce bit-identical states — the property reconciliation
//! relies on. The movement policy: the axis is normalized to a unit
//! direction, the y component is sign-flipped into the world's coordinate
//! convention, the direction is scaled by `base_speed * dt`, and the result
//! saturates at the world bound.

use vstd::prelude::*;
use crate::fixed::{
    Vec2Milli, MILLI, MAX_AXIS, MAX_SPEED, MAX_DT, MAX_COORD, FULL_TURN, abs_i,
    sqrt_floor, is_sqrt_floor, scale_div, clamp_coord, lemma_sqrt_floor_monotone,
    lemma_scale_div_le, isqrt, abs_u64, scale_div_i64, clamp_coord_i64,
};
use crate::buffer::{Entry, values_of};

verus! {

/// A discrete movement intent: the sampled input axis and the per-client
/// monotonic sequence number assigned when it was captured.
#[derive(Clone, Copy, Debug, PartialEq, Eq, Structural)]
pub struct Intent {
    pub axis: Vec2Milli,
    pub sequence: u64,
}

impl Intent {
    /// The axis components are within the input bound.
    pub open spec fn valid(self) -> bool {
        self.axis.valid_axis()
    }
}

/// One entity's pose: a 2D translation in milli-units and a yaw angle in
/// milli-degrees. Mutated only by the simulation step.
#[derive(Clone, Copy, Debug, PartialEq, Eq, Structural)]
pub struct StateVector {
    pub translation: Vec2Milli,
    pub yaw: i64,
}

impl StateVector {
    /// Coordinates are inside the world bound and the yaw is a normalized
    /// angle.
    pub open spec fn valid(self) -> bool {
        self.translation.valid_coords() && 0 <= self.yaw < FULL_TURN
    }

    /// The pose every entity starts from.
    pub fn origin() -> (r: Self)
        ensures
            r.translation.is_zero(),
            r.yaw == 0,
            r.valid(),
    {
        StateVector { translation: Vec2Milli { x: 0, y: 0 }, yaw: 0 }
    }
}

/// Movement tuning shared by client prediction and server authority.
#[derive(Clone, Copy, Debug)]
pub struct PlayerMovementParams {
    /// Speed of a unit-length input, in milli-units per second.
    pub base_speed: i64,
    /// Divergence (in milli-units) beyond which a reconciliation snaps the
    /// predicted state to the server-corrected state.
    pub prediction_error_threshold: i64,
}

impl PlayerMovementParams {
    pub open spec fn valid(self) -> bool {
        &&& 0 <= self.base_speed <= MAX_SPEED
        &&& 0 <= self.prediction_error_threshold <= MAX_COORD
    }
}

/// The position change of one step, before clamping: the axis normalized to
/// a unit direction (y sign-flipped), scaled by `speed * dt`.
pub open spec fn step_delta(ax: int, ay: int, speed: int, dt: int) -> (int, int) {
    if ax == 0 && ay == 0 {
        (0, 0)
    } else {
        let n = sqrt_floor(ax * ax + ay * ay);
        let m = (speed * dt) / (MILLI as int);
        (
            scale_div(scale_div(ax, MILLI as int, n), m, MILLI as int),
            scale_div(-scale_div(ay, MILLI as int, n), m, MILLI as int),
        )
    }
}

/// One simulation step: `apply(state, intent, dt)`. Deterministic and total;
/// a zero axis moves nothing, and the yaw is not touched by movement.
pub open spec fn sim_step(s: StateVector, intent: Intent, dt: int, p: PlayerMovementParams) -> StateVector {
    let d = step_delta(intent.axis.x as int, intent.axis.y as int, p.base_speed as int, dt);
    StateVector {
        translation: Vec2Milli {
            x: clamp_coord(s.translation.x + d.0) as i64,
            y: clamp_coord(s.translation.y + d.1) as i64,
        },
        yaw: s.yaw,
    }
}

/// Folding a whole sequence of intents over a base state, oldest first:
/// what a replay during reconciliation and the server's in-order
/// application both compute.
pub open spec fn replay(s: StateVector, intents: Seq<Intent>, dt: int, p: PlayerMovementParams) -> StateVector
    decreases intents.len(),
{
    if intents.len() == 0 {
        s
    } else {
        sim_step(replay(s, intents.drop_last(), dt, p), intents.last(), dt, p)
    }
}

/// The simulation step is a mathematical function of the `(state, intent,
/// delta-time)` triple: equal inputs give bit-identical outputs, on any
/// machine and on either side of the network.
pub proof fn lemma_step_deterministic(
    s1: StateVector, s2: StateVector,
    i1: Intent, i2: Intent,
    dt1: int, dt2: int,
    p1: PlayerMovementParams, p2: PlayerMovementParams,
)
    requires
        s1 == s2,
        i1 == i2,
        dt1 == dt2,
        p1 == p2,
    ensures
        sim_step(s1, i1, dt1, p1) == sim_step(s2, i2, dt2, p2),
{
}

/// Client-side replay and server-side application of the same intent
/// sequence from the same base state converge to the same state exactly.
pub proof fn lemma_replay_converges(
    base: StateVector,
    intents: Seq<Intent>,
    dt: int,
    p: PlayerMovementParams,
    client: StateVector,
    server: StateVector,
)
    requires
        client == replay(base, intents, dt, p),
        server == replay(base, intents, dt, p),
    ensures
        client == server,
{
}

/// Every intent buffered in `s` is within the input bounds.
pub open spec fn all_intents_valid(s: Seq<Entry<Intent>>) -> bool {
    forall|i: int| 0 <= i < s.len() ==> (#[trigger] s[i]).value.valid()
}

/// Intent validity survives any operation that only drops entries or adds
/// one valid entry.
pub proof fn lemma_intents_valid_preserved(
    pre: Seq<Entry<Intent>>,
    post: Seq<Entry<Intent>>,
    e: Entry<Intent>,
)
    requires
        all_intents_valid(pre),
        e.value.valid(),
        forall|x: Entry<Intent>| #[trigger] post.contains(x) ==> pre.contains(x) || x == e,
    ensures
        all_intents_valid(post),
{
    assert forall|i: int| 0 <= i < post.len() implies (#[trigger] post[i]).value.valid() by {
        assert(post.contains(post[i]));
        if post[i] != e {
            assert(pre.contains(post[i]));
            let k = choose|k: int| 0 <= k < pre.len() && pre[k] == post[i];
            assert(pre[k].value.valid());
        }
    }
}

/// Intent validity survives re-ordering and dropping.
pub proof fn lemma_intents_valid_subset(pre: Seq<Entry<Intent>>, post: Seq<Entry<Intent>>)
    requires
        all_intents_valid(pre),
        forall|x: Entry<Intent>| #[trigger] post.contains(x) ==> pre.contains(x),
    ensures
        all_intents_valid(post),
{
    assert forall|i: int| 0 <= i < post.len() implies (#[trigger] post[i]).value.valid() by {
        assert(post.contains(post[i]));
        assert(pre.contains(post[i]));
        let k = choose|k: int| 0 <= k < pre.len() && pre[k] == post[i];
        assert(pre[k].value.valid());
    }
}

/// Executable simulation step, proved equal to `sim_step`.
pub fn apply_step(s: &StateVector, intent: &Intent, dt: i64, p: &PlayerMovementParams) -> (r: StateVector)
    requires
        s.valid(),
        intent.valid(),
        p.valid(),
        0 <= dt <= MAX_DT,
    ensures
        r == sim_step(*s, *intent, dt as int, *p),
        r.valid(),
        r.yaw == s.yaw,
{
    let ax = intent.axis.x;
    let ay = intent.axis.y;
    if ax == 0 && ay == 0 {
        proof {
            assert(clamp_coord(s.translation.x + 0) == s.translation.x as int);
            assert(clamp_coord(s.translation.y + 0) == s.translation.y as int);
        }
        return StateVector { translation: Vec2Milli { x: s.translation.x, y: s.translation.y }, yaw: s.yaw };
    }
    let axm = abs_u64(ax);
    let aym = abs_u64(ay);
    proof {
        assert((axm as int) * (axm as int) == (ax as int) * (ax as int)
            && (axm as int) * (axm as int) <= 1_000_000_000_000) by (nonlinear_arith)
            requires
                axm as int == abs_i(ax as int),
                abs_i(ax as int) <= MAX_AXIS,
        ;
        assert((aym as int) * (aym as int) == (ay as int) * (ay as int)
            && (aym as int) * (aym as int) <= 1_000_000_000_000) by (nonlinear_arith)
            requires
                aym as int == abs_i(ay as int),
                abs_i(ay as int) <= MAX_AXIS,
        ;
    }
    let nsq = axm * axm + aym * aym;
    let n = isqrt(nsq);
    proof {
        assert(nsq as int == (ax as int) * (ax as int) + (ay as int) * (ay as int));
        // the normalization denominator dominates each component
        assert(is_sqrt_floor((axm as int) * (axm as int), axm as int)) by (nonlinear_arith)
            requires
                axm >= 0,
        ;
        assert(is_sqrt_floor((aym as int) * (aym as int), aym as int)) by (nonlinear_arith)
            requires
                aym >= 0,
        ;
        lemma_sqrt_floor_monotone(
            (axm as int) * (axm as int), nsq as int, axm as int, n as int);
        lemma_sqrt_floor_monotone(
            (aym as int) * (aym as int), nsq as int, aym as int, n as int);
        assert(n >= 1) by {
            if n == 0 {
                assert((nsq as int) < 1);
                assert(axm == 0 && aym == 0);
                assert(ax as int == 0 && ay as int == 0);
            }
        }
        assert(abs_i(ax as int) * 1000 <= i64::MAX) by (nonlinear_arith)
            requires
                abs_i(ax as int) <= MAX_AXIS,
        ;
        assert(abs_i(ay as int) * 1000 <= i64::MAX) by (nonlinear_arith)
            requires
                abs_i(ay as int) <= MAX_AXIS,
        ;
    }
    let dirx = scale_div_i64(ax, 1000, n);
    let diry0 = scale_div_i64(ay, 1000, n);
    proof {
        lemma_scale_div_le(ax as int, 1000, n as int);
        lemma_scale_div_le(ay as int, 1000, n as int);
    }
    let diry = -diry0;
    // speed * dt, brought back to milli-units
    let sp = p.base_speed as u64;
    let dtu = dt as u64;
    proof {
        assert((sp as int) * (dtu as int) <= 1_000_000_000_000) by (nonlinear_arith)
            requires
                0 <= sp as int <= MAX_SPEED,
                0 <= dtu as int <= MAX_DT,
        ;
        vstd::arithmetic::div_mod::lemma_div_is_ordered(
            (sp as int) * (dtu as int), 1_000_000_000_000, 1000);
        vstd::arithmetic::div_mod::lemma_div_multiples_vanish(1_000_000_000, 1000);
    }
    let m = sp * dtu / 1000;
    proof {
        assert(m as int == ((p.base_speed as int) * (dt as int)) / (MILLI as int));
        assert(m <= 1_000_000_000);
        assert(abs_i(dirx as int) * (m as int) <= i64::MAX) by (nonlinear_arith)
            requires
                abs_i(dirx as int) <= 1000,
                0 <= m as int <= 1_000_000_000,
        ;
        assert(abs_i(diry as int) * (m as int) <= i64::MAX) by (nonlinear_arith)
            requires
                abs_i(diry as int) <= 1000,
                0 <= m as int <= 1_000_000_000,
        ;
    }
    let dx = scale_div_i64(dirx, m, 1000);
    let dy = scale_div_i64(diry, m, 1000);
    proof {
        lemma_scale_div_le(dirx as int, m as int, 1000);
        lemma_scale_div_le(diry as int, m as int, 1000);
        assert(abs_i(dx as int) <= 1_000_000_000);
        assert(abs_i(dy as int) <= 1_000_000_000);
        assert(diry as int == -(scale_div(ay as int, MILLI as int, n as int)));
        assert(dx as int == step_delta(ax as int, ay as int, p.base_speed as int, dt as int).0);
        assert(dy as int == step_delta(ax as int, ay as int, p.base_speed as int, dt as int).1);
    }
    let tx = clamp_coord_i64(s.translation.x + dx);
    let ty = clamp_coord_i64(s.translation.y + dy);
    StateVector { translation: Vec2Milli { x: tx, y: ty }, yaw: s.yaw }
}

/// Replay a run of buffered intents over a base state, oldest first; the
/// executable counterpart of `replay`.
pub fn replay_frontier(
    base: &StateVector,
    intents: &Vec<Entry<Intent>>,
    dt: i64,
    p: &PlayerMovementParams,
) -> (r: StateVector)
    requires
        base.valid(),
        p.valid(),
        0 <= dt <= MAX_DT,
        all_intents_valid(intents@),
    ensures
        r == replay(*base, values_of(intents@), dt as int, *p),
        r.valid(),
{
    let mut cur = *base;
    let mut i: usize = 0;
    while i < intents.len()
        invariant
            i <= intents@.len(),
            p.valid(),
            0 <= dt <= MAX_DT,
            all_intents_valid(intents@),
            cur.valid(),
            cur == replay(*base, values_of(intents@.subrange(0, i as int)), dt as int, *p),
        decreases intents@.len() - i,
    {
        let e = intents[i];
        let ghost pre = values_of(intents@.subrange(0, i as int));
        cur = apply_step(&cur, &e.value, dt, p);
        proof {
            let nxt = values_of(intents@.subrange(0, i + 1 as int));
            assert(nxt =~= pre.push(intents@[i as int].value)) by {
                assert(forall|k: int| 0 <= k < i ==>
                    intents@.subrange(0, i + 1 as int)[k] == #[trigger] intents@.subrange(0, i as int)[k]);
            }
            assert(nxt.drop_last() =~= pre);
            assert(nxt.last() == e.value);
            assert(cur == replay(*base, nxt, dt as int, *p));
        }
        i = i + 1;
    }
    proof {
        assert(intents@.subrange(0, intents@.len() as int) =~= intents@);
    }
    cur
}

} // verus!
