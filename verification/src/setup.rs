//! The initial arrangement of the particles.

use vstd::prelude::*;
use crate::fixed::{fits, narrow, quot, wide_quot};
use crate::particle::Particle;
use crate::vec2::Vec2;

verus! {

/// Coordinate of row or column `k` of a square lattice of `side` rows with
/// the given spacing, centred on the origin:
/// `k * spacing - side * spacing / 2 + spacing / 2`.
pub open spec fn lattice_coordinate(k: int, side: int, spacing: int) -> int {
    k * spacing - quot(side * spacing, 2) + quot(spacing, 2)
}

/// Every coordinate of the lattice is finite.
pub open spec fn lattice_fits(side: int, spacing: int) -> bool {
    forall|k: int| 0 <= k < side ==> fits(#[trigger] lattice_coordinate(k, side, spacing))
}

/// The particle in column `x` and row `y` of the lattice, at rest; its
/// handle counts the particles column by column.
pub open spec fn lattice_particle(x: int, y: int, side: int, spacing: int) -> Particle {
    Particle {
        handle: (x * side + y) as u64,
        position: Vec2 {
            x: lattice_coordinate(x, side, spacing) as i64,
            y: lattice_coordinate(y, side, spacing) as i64,
        },
        velocity: Vec2 { x: 0, y: 0 },
    }
}

/// The lattice as a store.
pub open spec fn lattice_spec(side: int, spacing: int) -> Seq<Particle> {
    Seq::new((side * side) as nat, |i: int| lattice_particle(i / side, i % side, side, spacing))
}

proof fn lemma_index_bound(x: int, y: int, side: int)
    by (nonlinear_arith)
    requires
        0 <= x < side,
        0 <= y < side,
        side <= 0xFFFF_FFFF,
    ensures
        0 <= x * side + y < side * side,
        side * side <= 0xFFFF_FFFE_0000_0001,
        (x * side + y) / side == x,
        (x * side + y) % side == y,
        x * side + side <= side * side,
{
}

proof fn lemma_coordinate_bound(k: int, side: int, spacing: int)
    by (nonlinear_arith)
    requires
        0 <= k <= side <= 0xFFFF_FFFF,
        i64::MIN <= spacing <= i64::MAX,
    ensures
        -0x8000_0000_0000_0000_0000_0000 <= k * spacing <= 0x8000_0000_0000_0000_0000_0000,
{
}

/// The coordinates of the rows of a lattice, `None` when one is not finite.
pub fn lattice_coordinates(side: u32, spacing: i64) -> (r: Option<Vec<i64>>)
    ensures
        r.is_some() <==> lattice_fits(side as int, spacing as int),
        match r {
            Some(c) => c@.len() == side && forall|k: int|
                0 <= k < side ==> #[trigger] c@[k] == lattice_coordinate(k, side as int, spacing as int),
            None => true,
        },
{
    proof {
        lemma_coordinate_bound(side as int, side as int, spacing as int);
    }
    let half_span: i128 = wide_quot((side as i128) * (spacing as i128), 2);
    let half_step: i128 = wide_quot(spacing as i128, 2);
    let mut out: Vec<i64> = Vec::new();
    let mut k: u32 = 0;
    while k < side
        invariant
            k <= side,
            half_span == quot(side * spacing, 2),
            half_step == quot(spacing as int, 2),
            -0x8000_0000_0000_0000_0000_0000 <= half_span <= 0x8000_0000_0000_0000_0000_0000,
            out@.len() == k,
            forall|j: int| 0 <= j < k ==> #[trigger] out@[j] == lattice_coordinate(j, side as int, spacing as int),
            forall|j: int| 0 <= j < k ==> fits(#[trigger] lattice_coordinate(j, side as int, spacing as int)),
        decreases side - k,
    {
        proof {
            lemma_coordinate_bound(k as int, side as int, spacing as int);
        }
        match narrow((k as i128) * (spacing as i128) - half_span + half_step) {
            Some(c) => {
                out.push(c);
            },
            None => {
                assert(!fits(lattice_coordinate(k as int, side as int, spacing as int)));
                return None;
            },
        }
        k += 1;
    }
    Some(out)
}

/// A square lattice of `side` by `side` particles at rest, centred on the
/// origin, or `None` when a coordinate would not be finite.
pub fn lattice(side: u32, spacing: i64) -> (r: Option<Vec<Particle>>)
    ensures
        r.is_some() <==> lattice_fits(side as int, spacing as int),
        match r {
            Some(particles) => particles@ == lattice_spec(side as int, spacing as int),
            None => true,
        },
{
    let coordinates = match lattice_coordinates(side, spacing) {
        Some(c) => c,
        None => {
            return None;
        },
    };
    let ghost n = side as int;
    let mut out: Vec<Particle> = Vec::new();
    let mut x: u32 = 0;
    while x < side
        invariant
            x <= side,
            n == side,
            coordinates@.len() == side,
            forall|k: int| 0 <= k < side ==> #[trigger] coordinates@[k] == lattice_coordinate(k, n, spacing as int),
            out@.len() == x * n,
            forall|i: int| 0 <= i < x * n ==> #[trigger] out@[i] == lattice_particle(i / n, i % n, n, spacing as int),
        decreases side - x,
    {
        let mut y: u32 = 0;
        while y < side
            invariant
                x < side,
                y <= side,
                n == side,
                coordinates@.len() == side,
                forall|k: int| 0 <= k < side ==> #[trigger] coordinates@[k] == lattice_coordinate(k, n, spacing as int),
                out@.len() == x * n + y,
                forall|i: int| 0 <= i < x * n + y ==> #[trigger] out@[i] == lattice_particle(i / n, i % n, n, spacing as int),
            decreases side - y,
        {
            proof {
                lemma_index_bound(x as int, y as int, n);
            }
            let handle: u64 = (x as u64) * (side as u64) + (y as u64);
            out.push(
                Particle {
                    handle,
                    position: Vec2 { x: coordinates[x as usize], y: coordinates[y as usize] },
                    velocity: Vec2 { x: 0, y: 0 },
                },
            );
            y += 1;
        }
        proof {
            assert((x + 1) * n == x * n + n) by (nonlinear_arith);
        }
        x += 1;
    }
    assert(out@ =~= lattice_spec(n, spacing as int));
    Some(out)
}

} // verus!
