//! What the host does to the store between ticks.
//!
//! The pointer picks a particle up, drags it along and throws it when it is
//! let go; a key drops a new particle at the pointer; the density of a
//! particle gives it its hue. The state of a drag is a value that the host
//! keeps and hands in with every event.

use vstd::prelude::*;
use crate::fixed::{fits, magnitude, narrow, quot, wide_mul, wide_quot, SCALE};
use crate::particle::Particle;
use crate::vec2::{distance, distance_spec, Vec2};

verus! {

/// The particle that the pointer holds, and where the pointer was last seen
/// on the screen while it held one.
#[derive(Clone, Copy, Debug, PartialEq, Eq, Structural)]
pub struct DragState {
    pub selected: Option<u64>,
    pub last_cursor: Option<Vec2>,
}

/// What the button of the pointer did in a frame.
#[derive(Clone, Copy, Debug, PartialEq, Eq, Structural)]
pub enum PointerEvent {
    /// The button went down.
    Pressed,
    /// The button went up.
    Released,
    /// The button did not change.
    Held,
}

/// The speed of a thrown particle per unit of pointer movement in the last frame.
pub const THROW_GAIN: i64 = 10;

/// The particle lies within `radius` of the point.
pub open spec fn reaches(p: Particle, point: Vec2, radius: i64) -> bool {
    match distance_spec(p.position, point) {
        Some(d) => d <= radius,
        None => false,
    }
}

/// Particle `i` is the first of the store within `radius` of the point.
pub open spec fn picks(particles: Seq<Particle>, point: Vec2, radius: i64, i: int) -> bool {
    &&& 0 <= i < particles.len()
    &&& reaches(particles[i], point, radius)
    &&& forall|j: int| 0 <= j < i ==> !reaches(#[trigger] particles[j], point, radius)
}

/// Particle `i` is the first of the store with the given handle.
pub open spec fn holds(particles: Seq<Particle>, handle: u64, i: int) -> bool {
    &&& 0 <= i < particles.len()
    &&& particles[i].handle == handle
    &&& forall|j: int| 0 <= j < i ==> (#[trigger] particles[j]).handle != handle
}

/// No particle of the store has the given handle.
pub open spec fn absent(particles: Seq<Particle>, handle: u64) -> bool {
    forall|j: int| 0 <= j < particles.len() ==> (#[trigger] particles[j]).handle != handle
}

/// The velocity of a particle thrown by a pointer that moved from `last` to
/// `cursor`, `None` when it is not finite.
pub open spec fn throw_spec(last: Vec2, cursor: Vec2) -> Option<Vec2> {
    if fits((cursor.x - last.x) * THROW_GAIN) && fits((cursor.y - last.y) * THROW_GAIN) {
        Some(
            Vec2 {
                x: ((cursor.x - last.x) * THROW_GAIN) as i64,
                y: ((cursor.y - last.y) * THROW_GAIN) as i64,
            },
        )
    } else {
        None
    }
}

/// The hue of a particle of the given density, in degrees: the turns that
/// the density counts, without the whole turns.
pub open spec fn hue_spec(density: int) -> int {
    density * 360 - quot(density * 360, 360 * SCALE) * (360 * SCALE)
}

/// The first particle of the store within `radius` of the point.
pub fn pick(particles: &Vec<Particle>, point: Vec2, radius: i64) -> (r: Option<usize>)
    ensures
        match r {
            Some(i) => picks(particles@, point, radius, i as int),
            None => forall|j: int| 0 <= j < particles@.len() ==> !reaches(#[trigger] particles@[j], point, radius),
        },
{
    let mut i: usize = 0;
    while i < particles.len()
        invariant
            i <= particles@.len(),
            forall|j: int| 0 <= j < i ==> !reaches(#[trigger] particles@[j], point, radius),
        decreases particles@.len() - i,
    {
        match distance(particles[i].position, point) {
            Some(d) => {
                if d <= radius {
                    return Some(i);
                }
            },
            None => {},
        }
        i += 1;
    }
    None
}

/// The first particle of the store with the given handle.
pub fn index_of(particles: &Vec<Particle>, handle: u64) -> (r: Option<usize>)
    ensures
        match r {
            Some(i) => holds(particles@, handle, i as int),
            None => absent(particles@, handle),
        },
{
    let mut i: usize = 0;
    while i < particles.len()
        invariant
            i <= particles@.len(),
            forall|j: int| 0 <= j < i ==> (#[trigger] particles@[j]).handle != handle,
        decreases particles@.len() - i,
    {
        if particles[i].handle == handle {
            return Some(i);
        }
        i += 1;
    }
    None
}

/// The velocity of a particle thrown by a pointer that moved from `last` to `cursor`.
pub fn throw_velocity(last: Vec2, cursor: Vec2) -> (r: Option<Vec2>)
    ensures
        r == throw_spec(last, cursor),
{
    let dx: i128 = (cursor.x as i128 - last.x as i128) * 10;
    let dy: i128 = (cursor.y as i128 - last.y as i128) * 10;
    match (narrow(dx), narrow(dy)) {
        (Some(x), Some(y)) => Some(Vec2 { x, y }),
        _ => None,
    }
}

/// Adds a particle at rest to the end of the store.
pub fn spawn(particles: &mut Vec<Particle>, handle: u64, position: Vec2)
    ensures
        final(particles)@ == old(particles)@.push(
            Particle { handle, position, velocity: Vec2 { x: 0, y: 0 } },
        ),
{
    particles.push(Particle { handle, position, velocity: Vec2 { x: 0, y: 0 } });
}

/// The state of the drag after the button went down: the first particle
/// within `radius` of the pointer is held; nothing changes when there is
/// none, or when the place of the pointer in the plane is not known.
pub open spec fn after_press(
    state: DragState,
    particles: Seq<Particle>,
    cursor: Vec2,
    world: Option<Vec2>,
    radius: i64,
) -> DragState {
    match world {
        Some(w) => if exists|i: int| picks(particles, w, radius, i) {
            DragState {
                selected: Some(particles[choose|i: int| picks(particles, w, radius, i)].handle),
                last_cursor: Some(cursor),
            }
        } else {
            state
        },
        None => state,
    }
}

/// Particle `i` after the button went up: the first particle with the handle
/// that was held flies off with the last movement of the pointer, if that
/// velocity is finite.
pub open spec fn released(state: DragState, particles: Seq<Particle>, cursor: Vec2, i: int) -> Particle {
    match (state.selected, state.last_cursor) {
        (Some(h), Some(last)) => match throw_spec(last, cursor) {
            Some(v) => if holds(particles, h, i) {
                Particle { handle: h, position: particles[i].position, velocity: v }
            } else {
                particles[i]
            },
            None => particles[i],
        },
        _ => particles[i],
    }
}

/// The store after the button went up.
pub open spec fn after_release(state: DragState, particles: Seq<Particle>, cursor: Vec2) -> Seq<Particle> {
    Seq::new(particles.len(), |i: int| released(state, particles, cursor, i))
}

/// Particle `i` after the pointer moved with the button unchanged: the first
/// particle with the handle that is held goes where the pointer is.
pub open spec fn dragged(state: DragState, particles: Seq<Particle>, world: Option<Vec2>, i: int) -> Particle {
    match (state.selected, world) {
        (Some(h), Some(w)) => if holds(particles, h, i) {
            Particle { handle: h, position: w, velocity: particles[i].velocity }
        } else {
            particles[i]
        },
        _ => particles[i],
    }
}

/// The store after the pointer moved with the button unchanged.
pub open spec fn after_drag(state: DragState, particles: Seq<Particle>, world: Option<Vec2>) -> Seq<Particle> {
    Seq::new(particles.len(), |i: int| dragged(state, particles, world, i))
}

/// The state of the drag after the pointer moved with the button unchanged:
/// the place of the pointer on the screen is noted when a particle was moved.
pub open spec fn drag_state_after(
    state: DragState,
    particles: Seq<Particle>,
    cursor: Vec2,
    world: Option<Vec2>,
) -> DragState {
    match (state.selected, world) {
        (Some(h), Some(w)) => if absent(particles, h) {
            state
        } else {
            DragState { selected: state.selected, last_cursor: Some(cursor) }
        },
        _ => state,
    }
}

/// At most one particle is the first within reach.
pub proof fn lemma_pick_unique(particles: Seq<Particle>, point: Vec2, radius: i64, i: int, k: int)
    requires
        picks(particles, point, radius, i),
        picks(particles, point, radius, k),
    ensures
        i == k,
{
    if k < i {
        assert(!reaches(particles[k], point, radius));
    }
    if i < k {
        assert(!reaches(particles[i], point, radius));
    }
}

/// The button went down with the pointer at `cursor` on the screen and, if
/// it could be told, at `world` in the plane.
pub fn press(state: &mut DragState, particles: &Vec<Particle>, cursor: Vec2, world: Option<Vec2>, radius: i64)
    ensures
        *final(state) == after_press(*old(state), particles@, cursor, world, radius),
{
    match world {
        Some(w) => match pick(particles, w, radius) {
            Some(i) => {
                proof {
                    let k = choose|k: int| picks(particles@, w, radius, k);
                    lemma_pick_unique(particles@, w, radius, i as int, k);
                }
                state.selected = Some(particles[i].handle);
                state.last_cursor = Some(cursor);
            },
            None => {
                assert forall|k: int| !picks(particles@, w, radius, k) by {
                    if 0 <= k < particles@.len() {
                        assert(!reaches(particles@[k], w, radius));
                    }
                }
            },
        },
        None => {},
    }
}

/// The button went up with the pointer at `cursor` on the screen; the
/// pointer holds nothing any more.
pub fn release(state: &mut DragState, particles: &mut Vec<Particle>, cursor: Vec2)
    ensures
        *final(state) == (DragState { selected: None, last_cursor: None }),
        final(particles)@ == after_release(*old(state), old(particles)@, cursor),
{
    let ghost before = particles@;
    match (state.selected, state.last_cursor) {
        (Some(h), Some(last)) => match index_of(particles, h) {
            Some(i) => match throw_velocity(last, cursor) {
                Some(v) => {
                    let p = particles[i];
                    particles.set(i, Particle { handle: p.handle, position: p.position, velocity: v });
                },
                None => {},
            },
            None => {},
        },
        _ => {},
    }
    assert(particles@ =~= after_release(*state, before, cursor));
    state.selected = None;
    state.last_cursor = None;
}

/// The pointer moved to `cursor` on the screen and, if it could be told, to
/// `world` in the plane, with the button unchanged.
pub fn drag(state: &mut DragState, particles: &mut Vec<Particle>, cursor: Vec2, world: Option<Vec2>)
    ensures
        *final(state) == drag_state_after(*old(state), old(particles)@, cursor, world),
        final(particles)@ == after_drag(*old(state), old(particles)@, world),
{
    let ghost before = particles@;
    let ghost held = *state;
    match (state.selected, world) {
        (Some(h), Some(w)) => match index_of(particles, h) {
            Some(i) => {
                let p = particles[i];
                particles.set(i, Particle { handle: p.handle, position: w, velocity: p.velocity });
                state.last_cursor = Some(cursor);
                assert(!absent(before, h)) by {
                    assert(before[i as int].handle == h);
                }
            },
            None => {},
        },
        _ => {},
    }
    assert(particles@ =~= after_drag(held, before, world));
}

/// Handles one frame of the pointer.
pub fn pointer_event(
    state: &mut DragState,
    particles: &mut Vec<Particle>,
    event: PointerEvent,
    cursor: Vec2,
    world: Option<Vec2>,
    radius: i64,
)
    ensures
        *final(state) == (match event {
            PointerEvent::Pressed => after_press(*old(state), old(particles)@, cursor, world, radius),
            PointerEvent::Released => (DragState { selected: None, last_cursor: None }),
            PointerEvent::Held => drag_state_after(*old(state), old(particles)@, cursor, world),
        }),
        final(particles)@ == (match event {
            PointerEvent::Pressed => old(particles)@,
            PointerEvent::Released => after_release(*old(state), old(particles)@, cursor),
            PointerEvent::Held => after_drag(*old(state), old(particles)@, world),
        }),
{
    match event {
        PointerEvent::Pressed => press(state, particles, cursor, world, radius),
        PointerEvent::Released => release(state, particles, cursor),
        PointerEvent::Held => drag(state, particles, cursor, world),
    }
}

/// The hue of a particle of the given density, in degrees.
pub fn density_hue(density: i64) -> (hue: i64)
    ensures
        hue == hue_spec(density as int),
        -360 * SCALE < hue < 360 * SCALE,
{
    let turns: i128 = wide_mul(density, 360);
    let whole: i128 = wide_quot(turns, 360_000_000);
    proof {
        let t = turns as int;
        let m = magnitude(t);
        assert(0 <= m - (m / 360_000_000) * 360_000_000 < 360_000_000 && m / 360_000_000 <= m) by (nonlinear_arith)
            requires
                m >= 0,
        ;
    }
    (turns - whole * 360_000_000) as i64
}

} // verus!
