//! The spatial hash grid.
//!
//! The plane is cut into square cells. The grid maps the coordinates of a cell
//! to the particles in it, in the order of the store, and is built afresh from
//! the positions on every tick. When the cells are at least as wide as the
//! smoothing radius, everything within that radius of a point lies in the
//! three-by-three block of cells around the cell of the point.

use vstd::prelude::*;
use vstd::arithmetic::div_mod::lemma_fundamental_div_mod_converse;
use bevy::utils::HashMap;
use crate::particle::Particle;
use crate::vec2::Vec2;

verus! {

/// What the grid keeps of a particle.
#[derive(Clone, Copy, Debug, PartialEq, Eq, Structural)]
pub struct GridEntry {
    pub handle: u64,
    pub position: Vec2,
}

/// The grid entry of a particle.
pub open spec fn entry_of(p: Particle) -> GridEntry {
    GridEntry { handle: p.handle, position: p.position }
}

/// The width of the cells of a grid asked to have cells of width `cell_size`:
/// never below the smallest positive scalar.
pub open spec fn cell_width(cell_size: int) -> int {
    if cell_size < 1 { 1 } else { cell_size }
}

/// The cell that holds a position: both coordinates divided by the width of
/// the cells and rounded down.
pub open spec fn cell_of(position: Vec2, cell_size: int) -> (int, int) {
    if cell_size < 1 {
        (position.x as int, position.y as int)
    } else {
        ((position.x as int) / cell_size, (position.y as int) / cell_size)
    }
}

/// The particles of a store that lie in one cell, in the order of the store.
pub open spec fn bucket(particles: Seq<Particle>, cell_size: int, cell: (int, int)) -> Seq<GridEntry>
    decreases particles.len(),
{
    if particles.len() == 0 {
        Seq::empty()
    } else {
        let rest = bucket(particles.drop_last(), cell_size, cell);
        if cell_of(particles.last().position, cell_size) == cell {
            rest.push(entry_of(particles.last()))
        } else {
            rest
        }
    }
}

/// The `k`-th cell of the block around `center`, column by column.
pub open spec fn block_cell(center: (int, int), k: int) -> (int, int) {
    (center.0 + k / 3 - 1, center.1 + k % 3 - 1)
}

/// The cell belongs to the three-by-three block around `center`.
pub open spec fn in_block(cell: (int, int), center: (int, int)) -> bool {
    &&& center.0 - 1 <= cell.0 <= center.0 + 1
    &&& center.1 - 1 <= cell.1 <= center.1 + 1
}

/// A hash map from the coordinates of a cell to the entries in that cell:
/// `bevy::utils::HashMap`, which is hashbrown's map with a fixed hasher.
/// Nothing is proved of the map; the functions below state what its
/// methods are taken to do.
#[verifier::external_body]
pub struct CellTable {
    map: HashMap<(i64, i64), Vec<GridEntry>>,
}

/// The cells that a table holds, each with its entries in order.
pub uninterp spec fn table_cells(t: CellTable) -> Map<(i64, i64), Seq<GridEntry>>;

/// The entries that a table holds for a cell; none for a cell it does not hold.
pub open spec fn table_entries(t: CellTable, cell: (int, int)) -> Seq<GridEntry> {
    if i64::MIN <= cell.0 <= i64::MAX && i64::MIN <= cell.1 <= i64::MAX && table_cells(t).contains_key(
        (cell.0 as i64, cell.1 as i64),
    ) {
        table_cells(t)[(cell.0 as i64, cell.1 as i64)]
    } else {
        Seq::empty()
    }
}

/// `HashMap::new` of hashbrown: the new map holds no key.
#[verifier::external_body]
fn table_new() -> (t: CellTable)
    ensures
        table_cells(t) == (Map::<(i64, i64), Seq<GridEntry>>::empty()),
{
    CellTable { map: HashMap::new() }
}

/// A bucket without entries.
pub fn empty_bucket() -> (v: Vec<GridEntry>)
    ensures
        v@ == Seq::<GridEntry>::empty(),
{
    Vec::new()
}

/// `HashMap::entry` followed by `Entry::or_insert_with` of hashbrown: hands
/// out the vector stored under the key, after storing an empty one if the key
/// was absent. No other key is touched, and what the caller leaves in the
/// vector is what the map holds under the key afterwards.
#[verifier::external_body]
fn table_slot(t: &mut CellTable, cell: (i64, i64)) -> (slot: &mut Vec<GridEntry>)
    ensures
        (*slot)@ == (if table_cells(*old(t)).contains_key(cell) {
            table_cells(*old(t))[cell]
        } else {
            Seq::empty()
        }),
        table_cells(*final(t)) == table_cells(*old(t)).insert(cell, (*final(slot))@),
{
    t.map.entry(cell).or_insert_with(empty_bucket)
}

/// `HashMap::get` of hashbrown: the vector stored under the key, if any.
#[verifier::external_body]
fn table_bucket(t: &CellTable, cell: (i64, i64)) -> (r: Option<&Vec<GridEntry>>)
    ensures
        match r {
            Some(v) => table_cells(*t).contains_key(cell) && v@ == table_cells(*t)[cell],
            None => !table_cells(*t).contains_key(cell),
        },
{
    t.map.get(&cell)
}

/// Quotient rounded down, for a positive divisor.
pub fn floor_div(x: i64, w: i64) -> (q: i64)
    requires
        w >= 1,
    ensures
        q == (x as int) / (w as int),
{
    if x >= 0 {
        proof {
            assert(0 <= (x as int) / (w as int) <= x) by (nonlinear_arith)
                requires
                    x >= 0,
                    w >= 1,
            ;
        }
        x / w
    } else {
        let m: i128 = -(x as i128);
        let wide: i128 = w as i128;
        let c: i128 = (m + wide - 1) / wide;
        proof {
            let r = (m + wide - 1) % (wide as int);
            assert(c * wide + r == m + wide - 1 && 0 <= r < wide && 0 < c <= m) by (nonlinear_arith)
                requires
                    c == (m + wide - 1) / (wide as int),
                    r == (m + wide - 1) % (wide as int),
                    wide >= 1,
                    m >= 1,
            ;
            assert((-c) * wide == -(c * wide)) by (nonlinear_arith);
            lemma_fundamental_div_mod_converse(x as int, w as int, -c as int, wide - 1 - r);
        }
        (-c) as i64
    }
}

/// The cell that holds a position in a grid asked to have cells of width
/// `cell_size`.
pub fn hash_position(position: Vec2, cell_size: i64) -> (cell: (i64, i64))
    ensures
        (cell.0 as int, cell.1 as int) == cell_of(position, cell_size as int),
{
    let w = if cell_size < 1 { 1 } else { cell_size };
    (floor_div(position.x, w), floor_div(position.y, w))
}

/// The spatial index of one tick.
pub struct SpatialGrid {
    table: CellTable,
    width: i64,
}

impl SpatialGrid {
    /// The width of the cells.
    pub closed spec fn cell_size(self) -> int {
        self.width as int
    }

    /// The entries registered in a cell, in the order in which they were registered.
    pub closed spec fn entries(self, cell: (int, int)) -> Seq<GridEntry> {
        table_entries(self.table, cell)
    }

    /// The entries of the first `k` cells of the block around `center`.
    pub open spec fn block_upto(self, center: (int, int), k: int) -> Seq<GridEntry>
        decreases k,
    {
        if k <= 0 {
            Seq::empty()
        } else {
            self.block_upto(center, k - 1) + self.entries(block_cell(center, k - 1))
        }
    }

    /// The entries of the block of nine cells around `center`.
    pub open spec fn block(self, center: (int, int)) -> Seq<GridEntry> {
        self.block_upto(center, 9)
    }

    /// The grid registers exactly the particles of the store, each in the cell
    /// of its position.
    pub open spec fn indexes(self, particles: Seq<Particle>) -> bool {
        &&& self.cell_size() >= 1
        &&& forall|cell: (int, int)| #[trigger]
            self.entries(cell) == bucket(particles, self.cell_size(), cell)
    }

    /// The width of the cells.
    pub fn width(&self) -> (w: i64)
        ensures
            w == self.cell_size(),
    {
        self.width
    }

    /// Builds the grid of a store. A cell size below the smallest positive
    /// scalar is raised to it.
    pub fn build(particles: &Vec<Particle>, cell_size: i64) -> (grid: SpatialGrid)
        ensures
            grid.cell_size() == cell_width(cell_size as int),
            grid.indexes(particles@),
    {
        let w: i64 = if cell_size < 1 { 1 } else { cell_size };
        let mut table = table_new();
        let mut k: usize = 0;
        while k < particles.len()
            invariant
                k <= particles@.len(),
                w >= 1,
                forall|cell: (int, int)| #[trigger]
                    table_entries(table, cell) == bucket(particles@.take(k as int), w as int, cell),
            decreases particles@.len() - k,
        {
            let p = particles[k];
            let cell = hash_position(p.position, w);
            let ghost before = table;
            let slot = table_slot(&mut table, cell);
            slot.push(GridEntry { handle: p.handle, position: p.position });
            proof {
                let grown = particles@.take(k + 1);
                assert(grown.drop_last() == particles@.take(k as int));
                assert(grown.last() == p);
                assert forall|c: (int, int)| #[trigger]
                    table_entries(table, c) == bucket(grown, w as int, c) by {
                    assert(table_entries(before, c) == bucket(particles@.take(k as int), w as int, c));
                }
            }
            k += 1;
        }
        assert(particles@.take(k as int) == particles@);
        SpatialGrid { table, width: w }
    }

    /// The entries of a cell, or `None` for a cell without entries.
    pub fn cell_entries(&self, cell: (i64, i64)) -> (r: Option<&Vec<GridEntry>>)
        ensures
            match r {
                Some(v) => v@ == self.entries((cell.0 as int, cell.1 as int)),
                None => self.entries((cell.0 as int, cell.1 as int)) == Seq::<GridEntry>::empty(),
            },
    {
        table_bucket(&self.table, cell)
    }

    /// Every entry of the block of nine cells around `center`, column by
    /// column and within a cell in the order of the store.
    pub fn neighbors(&self, center: (i64, i64)) -> (out: Vec<GridEntry>)
        ensures
            out@ == self.block((center.0 as int, center.1 as int)),
    {
        let ghost c = (center.0 as int, center.1 as int);
        let mut out: Vec<GridEntry> = Vec::new();
        let mut k: i64 = 0;
        while k < 9
            invariant
                0 <= k <= 9,
                c == (center.0 as int, center.1 as int),
                out@ == self.block_upto(c, k as int),
            decreases 9 - k,
        {
            let ghost prefix = out@;
            let dx: i64 = k / 3 - 1;
            let dy: i64 = k % 3 - 1;
            match (center.0.checked_add(dx), center.1.checked_add(dy)) {
                (Some(cx), Some(cy)) => {
                    match table_bucket(&self.table, (cx, cy)) {
                        Some(found) => {
                            let mut m: usize = 0;
                            while m < found.len()
                                invariant
                                    m <= found@.len(),
                                    out@ == prefix + found@.take(m as int),
                                decreases found@.len() - m,
                            {
                                out.push(found[m]);
                                m += 1;
                            }
                            assert(found@.take(m as int) == found@);
                        },
                        None => {
                            assert(out@ == prefix + Seq::<GridEntry>::empty());
                        },
                    }
                },
                _ => {
                    assert(out@ == prefix + Seq::<GridEntry>::empty());
                },
            }
            k += 1;
        }
        out
    }
}

} // verus!
