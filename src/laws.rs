use vstd::prelude::*;
use vstd::relations::injective_on;
use vstd::set_lib::{lemma_int_range, lemma_map_size, lemma_set_subset_finite, set_int_range};
use crate::game::{shifted, step, Direction};
use crate::grid::{cleared, collides, has_dims, stamped};
use crate::piece::{advanced, mask_at, shape_ok, Piece};

verus! {

/// The cells of a grid that hold the active tag, as `(row, column)` pairs.
pub open spec fn active_cells(g: Seq<Seq<u8>>) -> Set<(int, int)> {
    Set::new(|rc: (int, int)| 0 <= rc.0 < g.len() && 0 <= rc.1 < g[rc.0].len() && g[rc.0][rc.1] == 2)
}

/// The occupied cells `(i, j)` of the piece's mask that land inside a grid of `h`
/// rows and `w` columns.
pub open spec fn shown_mask_cells(p: Piece, h: int, w: int) -> Set<(int, int)> {
    Set::new(
        |ij: (int, int)|
            0 <= ij.0 < 4 && 0 <= ij.1 < 4 && p.shape@[ij.0]@[ij.1] != 0 && 0 <= ij.0 + p.position.x - 4 < h
                && ij.1 + p.position.y < w,
    )
}

/// Where mask cell `(i, j)` of the piece lands on the grid.
pub open spec fn landing(p: Piece) -> spec_fn((int, int)) -> (int, int) {
    |ij: (int, int)| (ij.0 + p.position.x - 4, ij.1 + p.position.y)
}

/// All sixteen cells of a 4x4 mask.
spec fn mask_frame() -> Set<(int, int)> {
    set_int_range(0, 16).map(|k: int| (k / 4, k % 4))
}

proof fn lemma_shown_finite(p: Piece, h: int, w: int)
    ensures
        shown_mask_cells(p, h, w).finite(),
{
    lemma_int_range(0, 16);
    set_int_range(0, 16).lemma_map_finite(|k: int| (k / 4, k % 4));
    assert forall|ij: (int, int)| shown_mask_cells(p, h, w).contains(ij) implies mask_frame().contains(ij) by {
        let k = ij.0 * 4 + ij.1;
        assert(set_int_range(0, 16).contains(k));
        assert((k / 4, k % 4) == ij);
    }
    lemma_set_subset_finite(mask_frame(), shown_mask_cells(p, h, w));
}

/// Shifting left and then right gives back the piece, unless the left shift was
/// pinned at column `0`; there the piece ends one column right of where it was
/// (when the grid has room for it). Shifting right and then left from the right
/// bound `w - 2` ends one column left of it: the bounds do not invert.
pub proof fn lemma_left_then_right(p: Piece, h: int, w: int)
    requires
        2 <= w,
        p.position.y + 2 <= w,
    ensures
        1 <= p.position.y ==> shifted(shifted(p, Direction::Left, h, w), Direction::Right, h, w) == p,
        p.position.y == 0 ==> shifted(p, Direction::Left, h, w) == p,
        p.position.y == 0 && 3 <= w ==> shifted(
            shifted(p, Direction::Left, h, w),
            Direction::Right,
            h,
            w,
        ).position.y == 1,
        p.position.y + 2 == w && 3 <= w ==> shifted(
            shifted(p, Direction::Right, h, w),
            Direction::Left,
            h,
            w,
        ).position.y == w - 3,
{
}

/// A piece that cannot fall is frozen within the same tick: the tick ends with
/// the fresh piece (moved one row down unless the game ends), and every cell the
/// blocked piece covered holds a settled block, unless the fresh piece is drawn
/// over it.
pub proof fn lemma_blocked_piece_freezes(g: Seq<Seq<u8>>, p: Piece, w: int, fresh: Piece)
    requires
        collides(cleared(g), p, w),
        shape_ok(p.shape),
    ensures
        step(g, p, w, fresh).2 ==> step(g, p, w, fresh).1 == fresh,
        !step(g, p, w, fresh).2 ==> step(g, p, w, fresh).1 == advanced(fresh),
        forall|r: int, c: int|
            0 <= r < g.len() && 0 <= c < g[r].len() && c < w && mask_at(p, r, c) != 0 && (step(
                g,
                p,
                w,
                fresh,
            ).2 || mask_at(step(g, p, w, fresh).1, r, c) == 0) ==> #[trigger] step(g, p, w, fresh).0[r][c] == 1,
{
    assert forall|r: int, c: int|
        0 <= r < g.len() && 0 <= c < g[r].len() && c < w && mask_at(p, r, c) != 0 implies #[trigger] stamped(
        cleared(g),
        p,
        w,
        true,
    )[r][c] == 1 by {
        let i = r + 4 - p.position.x;
        let j = c - p.position.y;
        assert(p.shape@[i]@[j] == 0 || p.shape@[i]@[j] == 2);
    }
}

/// After a tick that leaves the game running, the active cells of the grid are
/// exactly where the piece's occupied mask cells land inside the grid, so there
/// are as many of them as such mask cells.
pub proof fn lemma_active_cells_after_tick(g: Seq<Seq<u8>>, p: Piece, h: int, w: int, fresh: Piece)
    requires
        has_dims(g, h, w),
        shape_ok(p.shape),
        shape_ok(fresh.shape),
        !step(g, p, w, fresh).2,
    ensures
        active_cells(step(g, p, w, fresh).0) == shown_mask_cells(step(g, p, w, fresh).1, h, w).map(
            landing(step(g, p, w, fresh).1),
        ),
        active_cells(step(g, p, w, fresh).0).finite(),
        active_cells(step(g, p, w, fresh).0).len() == shown_mask_cells(step(g, p, w, fresh).1, h, w).len(),
{
    let g0 = cleared(g);
    let base = if collides(g0, p, w) {
        stamped(g0, p, w, true)
    } else {
        g0
    };
    let q = step(g, p, w, fresh).1;
    let g2 = step(g, p, w, fresh).0;
    assert(shape_ok(q.shape));
    assert forall|r: int, c: int| 0 <= r < h && 0 <= c < w implies #[trigger] base[r][c] != 2 by {
        if collides(g0, p, w) && mask_at(p, r, c) != 0 {
            let i = r + 4 - p.position.x;
            let j = c - p.position.y;
            assert(p.shape@[i]@[j] == 0 || p.shape@[i]@[j] == 2);
        }
    }
    assert(g2 == stamped(base, q, w, false));
    let shown = shown_mask_cells(q, h, w);
    let f = landing(q);
    assert forall|rc: (int, int)| active_cells(g2).contains(rc) implies shown.map(f).contains(rc) by {
        let ij = (rc.0 + 4 - q.position.x, rc.1 - q.position.y);
        assert(base[rc.0][rc.1] != 2);
        assert(shown.contains(ij));
        assert(f(ij) == rc);
    }
    assert forall|rc: (int, int)| shown.map(f).contains(rc) implies active_cells(g2).contains(rc) by {
        let ij = choose|ij: (int, int)| shown.contains(ij) && f(ij) == rc;
        assert(q.shape@[ij.0]@[ij.1] == 0 || q.shape@[ij.0]@[ij.1] == 2);
        assert(mask_at(q, rc.0, rc.1) == 2);
    }
    assert(active_cells(g2) =~= shown.map(f));
    lemma_shown_finite(q, h, w);
    assert(injective_on(f, shown));
    lemma_map_size(shown, shown.map(f), f);
}

} // verus!
