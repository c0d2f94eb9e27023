//! The grid map: a rectangular array of cell codes, with bounds-checked
//! access, pickup counting and a first-occurrence search. Cell codes are
//! 0 = empty, 1 = wall, 2 = pickup of the first kind, 3 = exit and
//! 4 = pickup of the second kind; no other code ever occurs in a
//! well-formed map.

use vstd::prelude::*;

verus! {

pub const CELL_EMPTY: u8 = 0;

pub const CELL_WALL: u8 = 1;

pub const CELL_PICKUP_A: u8 = 2;

pub const CELL_EXIT: u8 = 3;

pub const CELL_PICKUP_B: u8 = 4;

/// Largest accepted map side, chosen so that every fixed-point coordinate
/// arithmetic in the crate stays far away from overflow.
pub const MAX_DIM: usize = 64;

/// A rectangular grid of cell codes, stored row-major.
pub struct GridMap {
    pub width: usize,
    pub height: usize,
    pub cells: Vec<u8>,
}

/// A cell code that blocks movement and rays: a wall always, the exit only
/// while pickups remain to be collected.
pub open spec fn spec_blocking(cell: u8, pickups: u32) -> bool {
    cell == CELL_WALL || (cell == CELL_EXIT && pickups > 0)
}

/// A cell code that can be collected.
pub open spec fn spec_pickup(cell: u8) -> bool {
    cell == CELL_PICKUP_A || cell == CELL_PICKUP_B
}

/// How many cells of a row-major cell sequence hold a pickup.
pub open spec fn pickup_count(s: Seq<u8>) -> int
    decreases s.len(),
{
    if s.len() == 0 {
        0
    } else {
        pickup_count(s.drop_last()) + if spec_pickup(s.last()) {
            1int
        } else {
            0int
        }
    }
}

pub proof fn lemma_pickup_count_bounds(s: Seq<u8>)
    ensures
        0 <= pickup_count(s) <= s.len(),
    decreases s.len(),
{
    if s.len() > 0 {
        lemma_pickup_count_bounds(s.drop_last());
    }
}

pub proof fn lemma_pickup_count_take_step(s: Seq<u8>, i: int)
    requires
        0 <= i < s.len(),
    ensures
        pickup_count(s.take(i + 1)) == pickup_count(s.take(i)) + if spec_pickup(s[i]) {
            1int
        } else {
            0int
        },
{
    assert(s.take(i + 1).drop_last() =~= s.take(i));
    assert(s.take(i + 1).last() == s[i]);
}

/// Replacing a pickup cell by a non-pickup code lowers the pickup count by
/// exactly one.
pub proof fn lemma_pickup_count_update(s: Seq<u8>, i: int, v: u8)
    requires
        0 <= i < s.len(),
        spec_pickup(s[i]),
        !spec_pickup(v),
    ensures
        pickup_count(s.update(i, v)) == pickup_count(s) - 1,
    decreases s.len(),
{
    let t = s.update(i, v);
    if i == s.len() - 1 {
        assert(t.drop_last() =~= s.drop_last());
        assert(t.last() == v);
    } else {
        assert(t.drop_last() =~= s.drop_last().update(i, v));
        assert(t.last() == s.last());
        lemma_pickup_count_update(s.drop_last(), i, v);
    }
}

impl GridMap {
    /// A valid map: sides between 1 and `MAX_DIM`, a cell for every grid
    /// position, and only the five known cell codes.
    pub open spec fn wf(self) -> bool {
        &&& 1 <= self.width <= MAX_DIM
        &&& 1 <= self.height <= MAX_DIM
        &&& self.cells@.len() == self.width * self.height
        &&& forall|i: int|
            0 <= i < self.cells@.len() ==> self.cells@[i] <= CELL_PICKUP_B
    }

    pub open spec fn in_bounds(self, x: int, y: int) -> bool {
        0 <= x < self.width && 0 <= y < self.height
    }

    pub open spec fn spec_cell(self, x: int, y: int) -> u8 {
        self.cells@[y * self.width + x]
    }

    /// Every cell of the outermost ring is a wall, so no ray can leave the
    /// map without first meeting a blocking cell.
    pub open spec fn has_wall_border(self) -> bool {
        forall|x: int, y: int|
            self.in_bounds(x, y) && (x == 0 || x == self.width - 1 || y == 0 || y == self.height
                - 1) ==> #[trigger] self.spec_cell(x, y) == CELL_WALL
    }

    /// Builds a map from row-major cell codes; rejects wrong dimensions, a
    /// wrong number of cells, or an unknown cell code.
    pub fn from_cells(width: usize, height: usize, cells: Vec<u8>) -> (r: Option<GridMap>)
        ensures
            match r {
                Some(m) => m.wf() && m.width == width && m.height == height && m.cells@ == cells@,
                None => !(1 <= width <= MAX_DIM && 1 <= height <= MAX_DIM && cells@.len() == width
                    * height && forall|i: int|
                    0 <= i < cells@.len() ==> cells@[i] <= CELL_PICKUP_B),
            },
    {
        if width < 1 || width > MAX_DIM || height < 1 || height > MAX_DIM {
            return None;
        }
        if cells.len() / width != height || cells.len() % width != 0 {
            proof {
                if cells@.len() == width * height {
                    vstd::arithmetic::div_mod::lemma_fundamental_div_mod_converse(
                        cells@.len() as int,
                        width as int,
                        height as int,
                        0,
                    );
                }
            }
            return None;
        }
        proof {
            vstd::arithmetic::div_mod::lemma_fundamental_div_mod(
                cells@.len() as int,
                width as int,
            );
        }
        let mut i: usize = 0;
        while i < cells.len()
            invariant
                0 <= i <= cells@.len(),
                forall|j: int| 0 <= j < i ==> cells@[j] <= CELL_PICKUP_B,
            decreases cells@.len() - i,
        {
            if cells[i] > CELL_PICKUP_B {
                return None;
            }
            i = i + 1;
        }
        Some(GridMap { width, height, cells })
    }

    /// Bounds-checked read of one cell.
    pub fn cell_at(&self, x: usize, y: usize) -> (r: Option<u8>)
        requires
            self.wf(),
        ensures
            self.in_bounds(x as int, y as int) ==> r == Some(self.spec_cell(x as int, y as int)),
            !self.in_bounds(x as int, y as int) ==> r is None,
    {
        if x < self.width && y < self.height {
            proof {
                assert(y * self.width + x < self.width * self.height <= 4096) by (nonlinear_arith)
                    requires
                        0 <= x < self.width,
                        0 <= y < self.height,
                        self.width <= 64,
                        self.height <= 64,
                ;
            }
            Some(self.cells[y * self.width + x])
        } else {
            None
        }
    }
}

/// A cell code blocks rays and movement exactly when it is a wall, or the
/// exit while pickups remain.
pub fn is_blocking(cell: u8, pickups: u32) -> (r: bool)
    ensures
        r == spec_blocking(cell, pickups),
{
    cell == CELL_WALL || (cell == CELL_EXIT && pickups > 0)
}

/// A cell code is a wall exactly when it is `CELL_WALL`.
pub fn is_wall(cell: u8) -> (r: bool)
    ensures
        r == (cell == CELL_WALL),
{
    cell == CELL_WALL
}

/// A cell code is collectable exactly when it is one of the two pickups.
pub fn is_pickup(cell: u8) -> (r: bool)
    ensures
        r == spec_pickup(cell),
{
    cell == CELL_PICKUP_A || cell == CELL_PICKUP_B
}

/// Counts the pickups still present on the map.
pub fn count_coins(map: &GridMap) -> (r: u32)
    requires
        map.wf(),
    ensures
        r as int == pickup_count(map.cells@),
{
    let mut c: u32 = 0;
    let mut i: usize = 0;
    while i < map.cells.len()
        invariant
            map.wf(),
            0 <= i <= map.cells@.len(),
            c as int == pickup_count(map.cells@.take(i as int)),
            c <= i,
        decreases map.cells@.len() - i,
    {
        proof {
            lemma_pickup_count_take_step(map.cells@, i as int);
            lemma_pickup_count_bounds(map.cells@.take(i as int));
            assert(map.cells@.len() <= 4096) by (nonlinear_arith)
                requires
                    map.cells@.len() == map.width * map.height,
                    map.width <= 64,
                    map.height <= 64,
            ;
        }
        if is_pickup(map.cells[i]) {
            c = c + 1;
        }
        i = i + 1;
    }
    proof {
        assert(map.cells@.take(map.cells@.len() as int) =~= map.cells@);
    }
    c
}

/// Finds the first cell, in row-major order, holding the given code, and
/// returns its column and row.
pub fn find_first_cell(map: &GridMap, val: u8) -> (r: Option<(usize, usize)>)
    requires
        map.wf(),
    ensures
        match r {
            Some(p) => map.in_bounds(p.0 as int, p.1 as int) && map.spec_cell(
                p.0 as int,
                p.1 as int,
            ) == val && forall|j: int|
                0 <= j < p.1 * map.width + p.0 ==> map.cells@[j] != val,
            None => forall|j: int| 0 <= j < map.cells@.len() ==> map.cells@[j] != val,
        },
{
    let mut i: usize = 0;
    while i < map.cells.len()
        invariant
            map.wf(),
            0 <= i <= map.cells@.len(),
            forall|j: int| 0 <= j < i ==> map.cells@[j] != val,
        decreases map.cells@.len() - i,
    {
        if map.cells[i] == val {
            let x = i % map.width;
            let y = i / map.width;
            proof {
                vstd::arithmetic::div_mod::lemma_fundamental_div_mod(i as int, map.width as int);
                assert(y < map.height) by (nonlinear_arith)
                    requires
                        i as int == map.width * y + x,
                        0 <= x < map.width,
                        i < map.width * map.height,
                        map.width >= 1,
                        y >= 0,
                ;
                assert(y * map.width + x == i);
            }
            return Some((x, y));
        }
        i = i + 1;
    }
    None
}

} // verus!
