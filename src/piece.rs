use vstd::prelude::*;

verus! {

/// A 4x4 occupancy mask: `0` marks an empty cell, `2` an active one.
pub type Shape = [[u8; 4]; 4];

/// A piece position: `x` is the row offset, `y` the column offset.
#[derive(Clone, Copy, Debug, PartialEq, Eq, Structural)]
pub struct Point {
    pub x: usize,
    pub y: usize,
}

/// The falling piece: a position and the mask it carries.
#[derive(Clone, Copy, Debug)]
pub struct Piece {
    pub position: Point,
    pub shape: Shape,
}

/// A valid mask holds only the empty and active tags, and occupies its anchor:
/// the leftmost cell of the row above the bottom one. The anchor makes every
/// piece meet the floor before it can leave the grid.
pub open spec fn shape_ok(s: Shape) -> bool {
    &&& forall|i: int, j: int|
        0 <= i < 4 && 0 <= j < 4 ==> (#[trigger] s@[i]@[j] == 0 || s@[i]@[j] == 2)
    &&& s@[2]@[0] == 2
}

/// The cell of the square shape at mask row `i`, mask column `j`.
pub open spec fn square_cell(i: int, j: int) -> u8 {
    if 2 <= i && j < 2 {
        2
    } else {
        0
    }
}

/// The mask value that a piece lays on grid cell `(r, c)`, or `0` where its mask
/// does not reach. Mask cell `(i, j)` lands on row `i + x - 4`, column `j + y`.
pub open spec fn mask_at(p: Piece, r: int, c: int) -> int {
    let i = r + 4 - p.position.x;
    let j = c - p.position.y;
    if 0 <= i < 4 && 0 <= j < 4 {
        p.shape@[i]@[j] as int
    } else {
        0
    }
}

/// The row offset at which pieces appear.
pub open spec fn spawn_row() -> usize {
    4
}

/// Which shape of the table a new piece takes: always the first one.
pub open spec fn spawn_index(n: int) -> int {
    0
}

/// The piece that appears at the top, with the shape the spawn policy picks.
pub open spec fn spawned(shapes: Seq<Shape>) -> Piece {
    Piece {
        position: Point { x: spawn_row(), y: 0 },
        shape: shapes[spawn_index(shapes.len() as int)],
    }
}

/// The same piece one row further down.
pub open spec fn advanced(p: Piece) -> Piece {
    Piece { position: Point { x: (p.position.x + 1) as usize, y: p.position.y }, shape: p.shape }
}

/// The shape table of the game: a single 2x2 square in the lower-left quarter.
pub fn default_shapes() -> (r: Vec<Shape>)
    ensures
        r@.len() == 1,
        forall|i: int, j: int| 0 <= i < 4 && 0 <= j < 4 ==> #[trigger] r@[0]@[i]@[j] == square_cell(i, j),
{
    let square: Shape = [[0, 0, 0, 0], [0, 0, 0, 0], [2, 2, 0, 0], [2, 2, 0, 0]];
    let mut r: Vec<Shape> = Vec::new();
    r.push(square);
    r
}

/// A new piece at the top of the grid, with the first shape of the table.
pub fn generate_new_piece(shapes: &Vec<Shape>) -> (p: Piece)
    requires
        shapes@.len() >= 1,
    ensures
        p == spawned(shapes@),
{
    Piece { position: Point { x: 4, y: 0 }, shape: shapes[0] }
}

} // verus!
