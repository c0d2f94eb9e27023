//! The built-in level: a fixed 16 x 12 maze with a full wall border, one
//! pickup of each kind and one exit, and the placeholder texture pattern
//! used when an image asset fails to load. The grid's exact contents are
//! stated as a specification sequence, so a caller knows every cell of the
//! map it receives.

use vstd::prelude::*;

verus! {

use crate::grid::GridMap;

/// The level spawn point, in half-cell units: the center of cell (1, 10).
pub const SPAWN_HALF_X: i64 = 3;

pub const SPAWN_HALF_Y: i64 = 21;

/// One row of the level grid: 0 empty, 1 wall, 2 and 4 the two pickups,
/// 3 the exit.
pub open spec fn level_row(y: int) -> Seq<u8> {
    if y == 0 {
        seq![1u8, 1, 1, 1, 1, 1, 1, 1, 1, 1, 1, 1, 1, 1, 1, 1]
    } else if y == 1 {
        seq![1u8, 2, 0, 0, 0, 0, 0, 1, 0, 0, 0, 0, 0, 0, 0, 1]
    } else if y == 2 {
        seq![1u8, 0, 1, 1, 1, 1, 0, 1, 0, 1, 1, 1, 1, 1, 3, 1]
    } else if y == 3 {
        seq![1u8, 0, 1, 0, 0, 0, 0, 1, 0, 0, 0, 0, 0, 1, 1, 1]
    } else if y == 4 {
        seq![1u8, 0, 1, 0, 1, 1, 0, 1, 1, 1, 0, 1, 0, 0, 0, 1]
    } else if y == 5 {
        seq![1u8, 0, 0, 0, 1, 0, 0, 0, 0, 1, 0, 0, 0, 1, 0, 1]
    } else if y == 6 {
        seq![1u8, 1, 1, 0, 1, 0, 1, 1, 0, 1, 1, 1, 0, 1, 0, 1]
    } else if y == 7 {
        seq![1u8, 0, 0, 0, 0, 0, 1, 4, 0, 0, 0, 1, 0, 0, 0, 1]
    } else if y == 8 {
        seq![1u8, 0, 1, 1, 1, 0, 1, 1, 1, 1, 0, 1, 1, 1, 0, 1]
    } else if y == 9 {
        seq![1u8, 0, 0, 0, 1, 0, 0, 0, 0, 0, 0, 0, 0, 1, 0, 1]
    } else if y == 10 {
        seq![1u8, 0, 1, 0, 1, 1, 1, 1, 1, 1, 1, 1, 0, 0, 0, 1]
    } else {
        seq![1u8, 1, 1, 1, 1, 1, 1, 1, 1, 1, 1, 1, 1, 1, 1, 1]
    }
}

/// The whole level grid, row-major.
pub open spec fn level_cells() -> Seq<u8> {
    level_row(0) + level_row(1) + level_row(2) + level_row(3) + level_row(4) + level_row(5)
        + level_row(6) + level_row(7) + level_row(8) + level_row(9) + level_row(10) + level_row(11)
}

/// Appends sixteen cells: one row of the level grid.
fn push_row(
    v: &mut Vec<u8>,
    c0: u8,
    c1: u8,
    c2: u8,
    c3: u8,
    c4: u8,
    c5: u8,
    c6: u8,
    c7: u8,
    c8: u8,
    c9: u8,
    c10: u8,
    c11: u8,
    c12: u8,
    c13: u8,
    c14: u8,
    c15: u8,
)
    ensures
        final(v)@ == old(v)@ + seq![
            c0, c1, c2, c3, c4, c5, c6, c7, c8, c9, c10, c11, c12, c13, c14, c15,
        ],
{
    v.push(c0);
    v.push(c1);
    v.push(c2);
    v.push(c3);
    v.push(c4);
    v.push(c5);
    v.push(c6);
    v.push(c7);
    v.push(c8);
    v.push(c9);
    v.push(c10);
    v.push(c11);
    v.push(c12);
    v.push(c13);
    v.push(c14);
    v.push(c15);
    proof {
        assert(v@ =~= old(v)@ + seq![
            c0, c1, c2, c3, c4, c5, c6, c7, c8, c9, c10, c11, c12, c13, c14, c15,
        ]);
    }
}

/// Every code of the level grid is one of the five known cell codes.
proof fn lemma_level_cells_valid()
    ensures
        level_cells().len() == 192,
        forall|i: int| 0 <= i < 192 ==> level_cells()[i] <= 4,
{
    assert forall|i: int| 0 <= i < 192 implies level_cells()[i] <= 4 by {
        let y = i / 16;
        let x = i % 16;
        assert(level_cells()[i] == level_row(y)[x]);
        assert(level_row(y)[x] <= 4);
    }
}

/// The level grid, 16 columns by 12 rows, with its exact contents.
pub fn level_map() -> (m: GridMap)
    ensures
        m.wf(),
        m.width == 16,
        m.height == 12,
        m.cells@ == level_cells(),
{
    let mut cells: Vec<u8> = Vec::new();
    push_row(&mut cells, 1, 1, 1, 1, 1, 1, 1, 1, 1, 1, 1, 1, 1, 1, 1, 1);
    proof {
        assert(cells@ =~= level_row(0));
    }
    push_row(&mut cells, 1, 2, 0, 0, 0, 0, 0, 1, 0, 0, 0, 0, 0, 0, 0, 1);
    proof {
        assert(cells@ =~= level_row(0) + level_row(1));
    }
    push_row(&mut cells, 1, 0, 1, 1, 1, 1, 0, 1, 0, 1, 1, 1, 1, 1, 3, 1);
    proof {
        assert(cells@ =~= level_row(0) + level_row(1) + level_row(2));
    }
    push_row(&mut cells, 1, 0, 1, 0, 0, 0, 0, 1, 0, 0, 0, 0, 0, 1, 1, 1);
    push_row(&mut cells, 1, 0, 1, 0, 1, 1, 0, 1, 1, 1, 0, 1, 0, 0, 0, 1);
    push_row(&mut cells, 1, 0, 0, 0, 1, 0, 0, 0, 0, 1, 0, 0, 0, 1, 0, 1);
    push_row(&mut cells, 1, 1, 1, 0, 1, 0, 1, 1, 0, 1, 1, 1, 0, 1, 0, 1);
    push_row(&mut cells, 1, 0, 0, 0, 0, 0, 1, 4, 0, 0, 0, 1, 0, 0, 0, 1);
    push_row(&mut cells, 1, 0, 1, 1, 1, 0, 1, 1, 1, 1, 0, 1, 1, 1, 0, 1);
    push_row(&mut cells, 1, 0, 0, 0, 1, 0, 0, 0, 0, 0, 0, 0, 0, 1, 0, 1);
    push_row(&mut cells, 1, 0, 1, 0, 1, 1, 1, 1, 1, 1, 1, 1, 0, 0, 0, 1);
    push_row(&mut cells, 1, 1, 1, 1, 1, 1, 1, 1, 1, 1, 1, 1, 1, 1, 1, 1);
    proof {
        assert(cells@ =~= level_cells()) by {
            assert(cells@ =~= level_row(0) + level_row(1) + level_row(2) + level_row(3)
                + level_row(4) + level_row(5) + level_row(6) + level_row(7) + level_row(8)
                + level_row(9) + level_row(10) + level_row(11));
        }
        lemma_level_cells_valid();
    }
    GridMap { width: 16, height: 12, cells }
}

/// The pixel bytes of the 2 x 2 RGBA placeholder texture generated when an
/// image asset cannot be loaded: four pixels of the given solid color.
pub fn placeholder_pixels(r: u8, g: u8, b: u8) -> (v: Vec<u8>)
    ensures
        v@.len() == 16,
        forall|i: int|
            0 <= i < 16 ==> v@[i] == (if i % 4 == 3 {
                255u8
            } else if i % 4 == 0 {
                r
            } else if i % 4 == 1 {
                g
            } else {
                b
            }),
{
    let mut v: Vec<u8> = Vec::new();
    let mut p: usize = 0;
    while p < 4
        invariant
            0 <= p <= 4,
            v@.len() == 4 * p,
            forall|i: int|
                0 <= i < v@.len() ==> v@[i] == (if i % 4 == 3 {
                    255u8
                } else if i % 4 == 0 {
                    r
                } else if i % 4 == 1 {
                    g
                } else {
                    b
                }),
        decreases 4 - p,
    {
        v.push(r);
        v.push(g);
        v.push(b);
        v.push(255);
        p = p + 1;
    }
    v
}

} // verus!
