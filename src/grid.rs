use vstd::prelude::*;
use crate::piece::{mask_at, Piece};

verus! {

/// How a cell is displayed.
#[derive(Clone, Copy, Debug, PartialEq, Eq, Structural)]
pub enum CellKind {
    Empty,
    Inactive,
    Active,
}

/// The display category of a tag: `0` empty, `1` inactive (settled), and active
/// for `2` and any other value.
pub open spec fn kind_of(tag: u8) -> CellKind {
    if tag == 0 {
        CellKind::Empty
    } else if tag == 1 {
        CellKind::Inactive
    } else {
        CellKind::Active
    }
}

/// Classifies a cell's tag for display.
pub fn cell_kind(tag: u8) -> (k: CellKind)
    ensures
        k == kind_of(tag),
{
    match tag {
        0 => CellKind::Empty,
        1 => CellKind::Inactive,
        _ => CellKind::Active,
    }
}

/// The tags of a table, row by row.
pub open spec fn cells(t: Seq<Vec<u8>>) -> Seq<Seq<u8>> {
    t.map_values(|row: Vec<u8>| row@)
}

/// A grid of `h` rows of `w` cells each.
pub open spec fn has_dims(g: Seq<Seq<u8>>, h: int, w: int) -> bool {
    &&& g.len() == h
    &&& forall|r: int| 0 <= r < h ==> #[trigger] g[r].len() == w
}

/// The grid with every active tag reset to empty.
pub open spec fn cleared(g: Seq<Seq<u8>>) -> Seq<Seq<u8>> {
    Seq::new(g.len(), |r: int| Seq::new(g[r].len(), |c: int| if g[r][c] == 2 { 0u8 } else { g[r][c] }))
}

/// The tag that stamping writes for a mask value: the value itself, or its half
/// when the piece is frozen.
pub open spec fn stamp_tag(m: int, halve: bool) -> u8 {
    if halve {
        (m / 2) as u8
    } else {
        m as u8
    }
}

/// The grid with the piece's occupied cells written onto it. Cells above the
/// grid, below it, or right of column `w - 1` are dropped.
pub open spec fn stamped(g: Seq<Seq<u8>>, p: Piece, w: int, halve: bool) -> Seq<Seq<u8>> {
    Seq::new(
        g.len(),
        |r: int|
            Seq::new(
                g[r].len(),
                |c: int|
                    if c < w && mask_at(p, r, c) != 0 {
                        stamp_tag(mask_at(p, r, c), halve)
                    } else {
                        g[r][c]
                    },
            ),
    )
}

/// Occupied mask cell `(i, j)` of the piece meets the floor or a settled block
/// on its next row: its row plus one is the last row of the grid, or the cell
/// just below it holds a settled block.
pub open spec fn hits(g: Seq<Seq<u8>>, p: Piece, w: int, i: int, j: int) -> bool {
    let r = i + p.position.x - 4;
    let c = j + p.position.y;
    &&& p.shape@[i]@[j] != 0
    &&& 0 <= r
    &&& c < w
    &&& (r + 1 == g.len() - 1 || (r + 1 < g.len() && g[r + 1][c] == 1))
}

/// The piece cannot go one row further down.
pub open spec fn collides(g: Seq<Seq<u8>>, p: Piece, w: int) -> bool {
    exists|i: int, j: int| 0 <= i < 4 && 0 <= j < 4 && #[trigger] hits(g, p, w, i, j)
}

/// Each row of the table has `w` cells.
pub open spec fn rows_have_len(t: Seq<Vec<u8>>, w: int) -> bool {
    forall|k: int| 0 <= k < t.len() ==> #[trigger] t[k]@.len() == w
}

proof fn lemma_dims_rows(t: Seq<Vec<u8>>, w: int)
    requires
        has_dims(cells(t), t.len() as int, w),
    ensures
        rows_have_len(t, w),
{
    assert forall|k: int| 0 <= k < t.len() implies #[trigger] t[k]@.len() == w by {
        assert(cells(t)[k] == t[k]@);
    }
}

/// Writes tag `v` into cell `(r, c)`.
fn put(table: &mut Vec<Vec<u8>>, r: usize, c: usize, v: u8)
    requires
        r < old(table)@.len(),
        c < old(table)@[r as int]@.len(),
    ensures
        final(table)@.len() == old(table)@.len(),
        forall|k: int| 0 <= k < old(table)@.len() && k != r ==> #[trigger] final(table)@[k]@ == old(table)@[k]@,
        final(table)@[r as int]@ == old(table)@[r as int]@.update(c as int, v),
{
    let mut row: Vec<u8> = Vec::new();
    table.set_and_swap(r, &mut row);
    row.set(c, v);
    table.set_and_swap(r, &mut row);
}

/// Resets every active tag of the table to empty.
pub fn clear_table(table: &mut Vec<Vec<u8>>)
    ensures
        cells(final(table)@) == cleared(cells(old(table)@)),
{
    let ghost t0 = table@;
    let mut r: usize = 0;
    while r < table.len()
        invariant
            r <= table@.len(),
            table@.len() == t0.len(),
            forall|k: int| 0 <= k < t0.len() ==> #[trigger] table@[k]@.len() == t0[k]@.len(),
            forall|k: int, c: int|
                0 <= k < r && 0 <= c < t0[k]@.len() ==> #[trigger] table@[k]@[c] == (
                if t0[k]@[c] == 2 { 0u8 } else { t0[k]@[c] }),
            forall|k: int| r <= k < t0.len() ==> #[trigger] table@[k]@ == t0[k]@,
        decreases table@.len() - r,
    {
        let mut row: Vec<u8> = Vec::new();
        table.set_and_swap(r, &mut row);
        let ghost before = row@;
        let mut c: usize = 0;
        while c < row.len()
            invariant
                c <= row@.len(),
                row@.len() == before.len(),
                forall|j: int| 0 <= j < c ==> #[trigger] row@[j] == (if before[j] == 2 { 0u8 } else { before[j] }),
                forall|j: int| c <= j < row@.len() ==> #[trigger] row@[j] == before[j],
            decreases row@.len() - c,
        {
            if row[c] == 2 {
                row.set(c, 0);
            }
            c = c + 1;
        }
        table.set_and_swap(r, &mut row);
        r = r + 1;
    }
    assert(cells(table@) =~~= cleared(cells(t0)));
}

/// Whether the piece meets the floor or a settled block on its next row.
pub fn collision_detection(table: &Vec<Vec<u8>>, piece: &Piece, width: usize) -> (b: bool)
    requires
        has_dims(cells(table@), table@.len() as int, width as int),
    ensures
        b == collides(cells(table@), *piece, width as int),
{
    let ghost g = cells(table@);
    proof {
        lemma_dims_rows(table@, width as int);
    }
    let h = table.len();
    let px = piece.position.x;
    let py = piece.position.y;
    let mut i: usize = 0;
    while i < 4
        invariant
            g == cells(table@),
            h == g.len(),
            rows_have_len(table@, width as int),
            i <= 4,
            px == piece.position.x,
            py == piece.position.y,
            forall|a: int, b: int| 0 <= a < i && 0 <= b < 4 ==> !#[trigger] hits(g, *piece, width as int, a, b),
        decreases 4 - i,
    {
        if px >= 4 - i {
            let r = px - (4 - i);
            let mut j: usize = 0;
            while j < 4
                invariant
                    g == cells(table@),
                    h == g.len(),
                    rows_have_len(table@, width as int),
                    i < 4,
                    j <= 4,
                    px == piece.position.x,
                    py == piece.position.y,
                    r == i + px - 4,
                    forall|a: int, b: int| 0 <= a < i && 0 <= b < 4 ==> !#[trigger] hits(g, *piece, width as int, a, b),
                    forall|b: int| 0 <= b < j ==> !#[trigger] hits(g, *piece, width as int, i as int, b),
                decreases 4 - j,
            {
                if piece.shape[i][j] != 0 && py < width && j < width - py {
                    let c = py + j;
                    if h >= 1 && r + 1 == h - 1 {
                        assert(hits(g, *piece, width as int, i as int, j as int));
                        return true;
                    }
                    if r + 1 < h {
                        assert(g[r + 1] == table@[r + 1]@);
                        if table[r + 1][c] == 1 {
                            assert(hits(g, *piece, width as int, i as int, j as int));
                            return true;
                        }
                    }
                }
                j = j + 1;
            }
        }
        i = i + 1;
    }
    false
}

/// Writes the piece's occupied cells onto the table: the mask value itself, or
/// its half when `halve` is set (active `2` becomes settled `1`). Cells outside
/// the table are dropped.
pub fn stamp_piece(table: &mut Vec<Vec<u8>>, piece: &Piece, width: usize, halve: bool)
    requires
        has_dims(cells(old(table)@), old(table)@.len() as int, width as int),
    ensures
        cells(final(table)@) == stamped(cells(old(table)@), *piece, width as int, halve),
{
    let ghost t0 = table@;
    proof {
        lemma_dims_rows(table@, width as int);
    }
    let h = table.len();
    let px = piece.position.x;
    let py = piece.position.y;
    let mut i: usize = 0;
    while i < 4
        invariant
            h == t0.len(),
            table@.len() == h,
            rows_have_len(t0, width as int),
            rows_have_len(table@, width as int),
            i <= 4,
            px == piece.position.x,
            py == piece.position.y,
            forall|r: int, c: int|
                0 <= r < h && 0 <= c < width ==> #[trigger] table@[r]@[c] == (
                if r + 4 - px < i && mask_at(*piece, r, c) != 0 {
                    stamp_tag(mask_at(*piece, r, c), halve)
                } else {
                    t0[r]@[c]
                }),
        decreases 4 - i,
    {
        if px >= 4 - i && px - (4 - i) < h {
            let r = px - (4 - i);
            let mut j: usize = 0;
            while j < 4
                invariant
                    h == t0.len(),
                    table@.len() == h,
                    rows_have_len(t0, width as int),
                    rows_have_len(table@, width as int),
                    i < 4,
                    j <= 4,
                    px == piece.position.x,
                    py == piece.position.y,
                    r == i + px - 4,
                    r < h,
                    forall|rr: int, c: int|
                        0 <= rr < h && 0 <= c < width ==> #[trigger] table@[rr]@[c] == (
                        if (rr + 4 - px < i || (rr == r && c - py < j)) && mask_at(*piece, rr, c) != 0 {
                            stamp_tag(mask_at(*piece, rr, c), halve)
                        } else {
                            t0[rr]@[c]
                        }),
                decreases 4 - j,
            {
                if py < width && j < width - py {
                    let c = py + j;
                    let m = piece.shape[i][j];
                    assert(mask_at(*piece, r as int, c as int) == m);
                    if m != 0 {
                        let v = if halve { m / 2 } else { m };
                        put(table, r, c, v);
                    }
                }
                j = j + 1;
            }
        }
        i = i + 1;
    }
    assert(cells(table@) =~~= stamped(cells(t0), *piece, width as int, halve));
}

} // verus!
