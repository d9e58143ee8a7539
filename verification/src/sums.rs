//! Sums over neighbours.
//!
//! A quantity at a particle is a sum of contributions of the other particles.
//! The grid lets the simulation add up only what lies in the block of cells
//! around the particle; the lemmas here show that nothing is lost as long as
//! everything outside the block contributes nothing, that the search within
//! the block is complete, and that it yields no particle twice.

use vstd::prelude::*;
use crate::fixed::lemma_square_le;
use crate::grid::{block_cell, bucket, cell_of, entry_of, in_block, GridEntry, SpatialGrid};
use crate::particle::Particle;
use crate::vec2::{closer_than, lemma_closer_than, lemma_square_nonneg, Vec2};

verus! {

/// Sum of a contribution over a sequence of entries.
pub open spec fn sum_over(entries: Seq<GridEntry>, f: spec_fn(GridEntry) -> int) -> int
    decreases entries.len(),
{
    if entries.len() == 0 {
        0
    } else {
        sum_over(entries.drop_last(), f) + f(entries.last())
    }
}

/// Sum of a contribution over all particles of a store.
pub open spec fn total(particles: Seq<Particle>, f: spec_fn(GridEntry) -> int) -> int
    decreases particles.len(),
{
    if particles.len() == 0 {
        0
    } else {
        total(particles.drop_last(), f) + f(entry_of(particles.last()))
    }
}

/// Sum of a contribution over the particles of a store that lie in one cell.
pub open spec fn cell_total(
    particles: Seq<Particle>,
    cell_size: int,
    cell: (int, int),
    f: spec_fn(GridEntry) -> int,
) -> int
    decreases particles.len(),
{
    if particles.len() == 0 {
        0
    } else {
        cell_total(particles.drop_last(), cell_size, cell, f) + if cell_of(
            particles.last().position,
            cell_size,
        ) == cell {
            f(entry_of(particles.last()))
        } else {
            0
        }
    }
}

/// Sum of a contribution over the particles in the first `k` cells of a block.
pub open spec fn cells_total(
    particles: Seq<Particle>,
    cell_size: int,
    center: (int, int),
    f: spec_fn(GridEntry) -> int,
    k: int,
) -> int
    decreases k,
{
    if k <= 0 {
        0
    } else {
        cells_total(particles, cell_size, center, f, k - 1) + cell_total(
            particles,
            cell_size,
            block_cell(center, k - 1),
            f,
        )
    }
}

/// Sum of a contribution over the particles of a store that lie in a block.
pub open spec fn block_total(
    particles: Seq<Particle>,
    cell_size: int,
    center: (int, int),
    f: spec_fn(GridEntry) -> int,
) -> int
    decreases particles.len(),
{
    if particles.len() == 0 {
        0
    } else {
        block_total(particles.drop_last(), cell_size, center, f) + if in_block(
            cell_of(particles.last().position, cell_size),
            center,
        ) {
            f(entry_of(particles.last()))
        } else {
            0
        }
    }
}

/// Everything outside the block around `center` contributes nothing.
pub open spec fn vanishes_outside(
    particles: Seq<Particle>,
    cell_size: int,
    center: (int, int),
    f: spec_fn(GridEntry) -> int,
) -> bool {
    forall|j: int|
        0 <= j < particles.len() && !in_block(cell_of((#[trigger] particles[j]).position, cell_size), center)
            ==> f(entry_of(particles[j])) == 0
}

/// Adding an entry to a sequence adds its contribution to the sum.
pub proof fn lemma_sum_push(entries: Seq<GridEntry>, e: GridEntry, f: spec_fn(GridEntry) -> int)
    ensures
        sum_over(entries.push(e), f) == sum_over(entries, f) + f(e),
{
    assert(entries.push(e).drop_last() == entries);
    assert(entries.push(e).last() == e);
}

/// The sum over a prefix, extended by the next entry.
pub proof fn lemma_sum_take(entries: Seq<GridEntry>, k: int, f: spec_fn(GridEntry) -> int)
    requires
        0 <= k < entries.len(),
    ensures
        sum_over(entries.take(k + 1), f) == sum_over(entries.take(k), f) + f(entries[k]),
{
    assert(entries.take(k + 1).drop_last() == entries.take(k));
    assert(entries.take(k + 1).last() == entries[k]);
}

/// The sum over a concatenation is the sum of the sums.
pub proof fn lemma_sum_concat(a: Seq<GridEntry>, b: Seq<GridEntry>, f: spec_fn(GridEntry) -> int)
    ensures
        sum_over(a + b, f) == sum_over(a, f) + sum_over(b, f),
    decreases b.len(),
{
    if b.len() == 0 {
        assert(a + b == a);
    } else {
        lemma_sum_concat(a, b.drop_last(), f);
        assert((a + b).drop_last() == a + b.drop_last());
        assert((a + b).last() == b.last());
    }
}

/// The sum over the bucket of a cell is the sum over the particles in that cell.
pub proof fn lemma_bucket_sum(
    particles: Seq<Particle>,
    cell_size: int,
    cell: (int, int),
    f: spec_fn(GridEntry) -> int,
)
    ensures
        sum_over(bucket(particles, cell_size, cell), f) == cell_total(particles, cell_size, cell, f),
    decreases particles.len(),
{
    if particles.len() > 0 {
        lemma_bucket_sum(particles.drop_last(), cell_size, cell, f);
        if cell_of(particles.last().position, cell_size) == cell {
            lemma_sum_push(
                bucket(particles.drop_last(), cell_size, cell),
                entry_of(particles.last()),
                f,
            );
        }
    }
}

/// The nine cells of a block are distinct and make up the block.
pub proof fn lemma_nine_cells(
    particles: Seq<Particle>,
    cell_size: int,
    center: (int, int),
    f: spec_fn(GridEntry) -> int,
)
    ensures
        cells_total(particles, cell_size, center, f, 9) == block_total(particles, cell_size, center, f),
    decreases particles.len(),
{
    reveal_with_fuel(cells_total, 10);
    if particles.len() > 0 {
        lemma_nine_cells(particles.drop_last(), cell_size, center, f);
        let c = cell_of(particles.last().position, cell_size);
        assert(in_block(c, center) <==> (exists|k: int| 0 <= k < 9 && c == block_cell(center, k))) by {
            if in_block(c, center) {
                let k = (c.0 - center.0 + 1) * 3 + (c.1 - center.1 + 1);
                assert(c == block_cell(center, k));
            }
        }
    }
}

/// The sum over what a grid holds in the first `k` cells of a block.
pub proof fn lemma_cells_sum(
    grid: SpatialGrid,
    particles: Seq<Particle>,
    center: (int, int),
    f: spec_fn(GridEntry) -> int,
    k: int,
)
    requires
        grid.indexes(particles),
        0 <= k,
    ensures
        sum_over(grid.block_upto(center, k), f) == cells_total(particles, grid.cell_size(), center, f, k),
    decreases k,
{
    if k > 0 {
        lemma_cells_sum(grid, particles, center, f, k - 1);
        let cell = block_cell(center, k - 1);
        assert(grid.entries(cell) == bucket(particles, grid.cell_size(), cell));
        lemma_bucket_sum(particles, grid.cell_size(), cell, f);
        lemma_sum_concat(grid.block_upto(center, k - 1), grid.entries(cell), f);
    }
}

/// What lies outside the block may be left out of a sum that vanishes there.
pub proof fn lemma_block_covers(
    particles: Seq<Particle>,
    cell_size: int,
    center: (int, int),
    f: spec_fn(GridEntry) -> int,
)
    requires
        vanishes_outside(particles, cell_size, center, f),
    ensures
        block_total(particles, cell_size, center, f) == total(particles, f),
    decreases particles.len(),
{
    if particles.len() > 0 {
        let rest = particles.drop_last();
        assert forall|j: int|
            0 <= j < rest.len() && !in_block(cell_of((#[trigger] rest[j]).position, cell_size), center)
            implies f(entry_of(rest[j])) == 0 by {
            assert(rest[j] == particles[j]);
        }
        lemma_block_covers(rest, cell_size, center, f);
        assert(particles.last() == particles[particles.len() - 1]);
    }
}

/// The sum over the neighbours that a grid yields equals the sum over the
/// whole store, for a contribution that vanishes outside the block.
pub proof fn lemma_neighbor_sum(
    grid: SpatialGrid,
    particles: Seq<Particle>,
    center: (int, int),
    f: spec_fn(GridEntry) -> int,
)
    requires
        grid.indexes(particles),
        vanishes_outside(particles, grid.cell_size(), center, f),
    ensures
        sum_over(grid.block(center), f) == total(particles, f),
{
    lemma_cells_sum(grid, particles, center, f, 9);
    lemma_nine_cells(particles, grid.cell_size(), center, f);
    lemma_block_covers(particles, grid.cell_size(), center, f);
}

/// The particle at index `j` of a store is in the bucket of its cell.
pub proof fn lemma_bucket_holds(particles: Seq<Particle>, cell_size: int, j: int)
    requires
        0 <= j < particles.len(),
    ensures
        bucket(particles, cell_size, cell_of(particles[j].position, cell_size)).contains(
            entry_of(particles[j]),
        ),
    decreases particles.len(),
{
    let cell = cell_of(particles[j].position, cell_size);
    let rest = bucket(particles.drop_last(), cell_size, cell);
    if j == particles.len() - 1 {
        assert(rest.push(entry_of(particles[j]))[rest.len() as int] == entry_of(particles[j]));
    } else {
        lemma_bucket_holds(particles.drop_last(), cell_size, j);
        assert(particles.drop_last()[j] == particles[j]);
        let i = choose|i: int| 0 <= i < rest.len() && rest[i] == entry_of(particles[j]);
        if cell_of(particles.last().position, cell_size) == cell {
            assert(rest.push(entry_of(particles.last()))[i] == entry_of(particles[j]));
        }
    }
}

/// What a cell of the block holds is among the neighbours.
pub proof fn lemma_block_holds(grid: SpatialGrid, center: (int, int), k: int, upto: int, e: GridEntry)
    requires
        0 <= k < upto,
        grid.entries(block_cell(center, k)).contains(e),
    ensures
        grid.block_upto(center, upto).contains(e),
    decreases upto,
{
    let before = grid.block_upto(center, upto - 1);
    let last = grid.entries(block_cell(center, upto - 1));
    if k == upto - 1 {
        let i = choose|i: int| 0 <= i < last.len() && last[i] == e;
        assert((before + last)[before.len() + i] == e);
    } else {
        lemma_block_holds(grid, center, k, upto - 1, e);
        let i = choose|i: int| 0 <= i < before.len() && before[i] == e;
        assert((before + last)[i] == e);
    }
}

/// The bounded search is complete: with cells at least as wide as the
/// radius, every particle closer than the radius to a point is among the
/// neighbours that the grid yields for the cell of the point.
pub proof fn lemma_neighbors_complete(
    grid: SpatialGrid,
    particles: Seq<Particle>,
    point: Vec2,
    radius: int,
    j: int,
)
    requires
        grid.indexes(particles),
        0 < radius <= grid.cell_size(),
        radius <= i64::MAX,
        0 <= j < particles.len(),
        closer_than(particles[j].position, point, radius),
    ensures
        grid.block(cell_of(point, grid.cell_size())).contains(entry_of(particles[j])),
{
    let w = grid.cell_size();
    let center = cell_of(point, w);
    let cell = cell_of(particles[j].position, w);
    lemma_near_in_block(point, particles[j].position, w, radius);
    lemma_bucket_holds(particles, w, j);
    let k = (cell.0 - center.0 + 1) * 3 + (cell.1 - center.1 + 1);
    assert(cell == block_cell(center, k));
    assert(grid.entries(cell) == bucket(particles, w, cell));
    lemma_block_holds(grid, center, k, 9, entry_of(particles[j]));
}

/// The contribution that counts an entry.
pub open spec fn unit_weight() -> spec_fn(GridEntry) -> int {
    |e: GridEntry| 1
}

/// Counting the entries of a sequence gives its length.
pub proof fn lemma_count(entries: Seq<GridEntry>)
    ensures
        sum_over(entries, unit_weight()) == entries.len(),
    decreases entries.len(),
{
    if entries.len() > 0 {
        lemma_count(entries.drop_last());
    }
}

/// A block holds no more particles than the store.
pub proof fn lemma_block_count(particles: Seq<Particle>, cell_size: int, center: (int, int))
    ensures
        0 <= block_total(particles, cell_size, center, unit_weight()) <= particles.len(),
    decreases particles.len(),
{
    if particles.len() > 0 {
        lemma_block_count(particles.drop_last(), cell_size, center);
    }
}

/// The grid yields every particle of the block once: the neighbours are as
/// many as the particles of the store that lie in the block.
pub proof fn lemma_neighbors_counted(grid: SpatialGrid, particles: Seq<Particle>, center: (int, int))
    requires
        grid.indexes(particles),
    ensures
        grid.block(center).len() == block_total(particles, grid.cell_size(), center, unit_weight()),
        grid.block(center).len() <= particles.len(),
{
    lemma_count(grid.block(center));
    lemma_cells_sum(grid, particles, center, unit_weight(), 9);
    lemma_nine_cells(particles, grid.cell_size(), center, unit_weight());
    lemma_block_count(particles, grid.cell_size(), center);
}

/// Two coordinates less than a cell width apart lie in the same or in adjacent cells.
pub proof fn lemma_adjacent(a: int, b: int, w: int)
    by (nonlinear_arith)
    requires
        w >= 1,
        -w < b - a < w,
    ensures
        a / w - 1 <= b / w <= a / w + 1,
{
}

/// The correctness condition of the bounded neighbour search: with cells at
/// least as wide as the radius, a point closer than the radius to another lies
/// in the block around the cell of the other.
pub proof fn lemma_near_in_block(p: Vec2, q: Vec2, cell_size: int, radius: int)
    requires
        0 < radius <= cell_size,
        radius <= i64::MAX,
        closer_than(q, p, radius),
    ensures
        in_block(cell_of(q, cell_size), cell_of(p, cell_size)),
{
    lemma_closer_than(q, p, radius);
    let dx = p.x - q.x;
    let dy = p.y - q.y;
    lemma_square_nonneg(dx);
    lemma_square_nonneg(dy);
    assert(-radius < dx < radius) by {
        if dx >= radius {
            lemma_square_le(radius, dx);
        }
        if -dx >= radius {
            lemma_square_le(radius, -dx);
            assert((-dx) * (-dx) == dx * dx) by (nonlinear_arith);
        }
    }
    assert(-radius < dy < radius) by {
        if dy >= radius {
            lemma_square_le(radius, dy);
        }
        if -dy >= radius {
            lemma_square_le(radius, -dy);
            assert((-dy) * (-dy) == dy * dy) by (nonlinear_arith);
        }
    }
    lemma_adjacent(p.x as int, q.x as int, cell_size);
    lemma_adjacent(p.y as int, q.y as int, cell_size);
}

} // verus!
