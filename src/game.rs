use vstd::prelude::*;
use vstd::string::StrSliceExecFns;
use crate::clamp::{add_in_range, clamp_spec};
use crate::grid::{
    cells, clear_table, cleared, collides, collision_detection, has_dims, hits, stamp_piece,
    stamped,
};
use crate::piece::{
    advanced, default_shapes, generate_new_piece, mask_at, shape_ok, spawned, square_cell, Piece,
    Point, Shape,
};

verus! {

/// A horizontal move or a soft drop.
#[derive(Clone, Copy, Debug, PartialEq, Eq, Structural)]
pub enum Direction {
    Left,
    Right,
    Down,
}

/// The move a key code asks for; any other code asks for none.
pub open spec fn key_direction(code: Seq<char>) -> Option<Direction> {
    if code == "ArrowLeft"@ {
        Some(Direction::Left)
    } else if code == "ArrowRight"@ {
        Some(Direction::Right)
    } else if code == "ArrowDown"@ {
        Some(Direction::Down)
    } else {
        None
    }
}

/// Whether two strings hold the same characters.
fn same_text(a: &str, b: &str) -> (r: bool)
    ensures
        r == (a@ == b@),
{
    let n = a.unicode_len();
    if n != b.unicode_len() {
        return false;
    }
    let mut i: usize = 0;
    while i < n
        invariant
            n == a@.len(),
            n == b@.len(),
            i <= n,
            forall|k: int| 0 <= k < i ==> a@[k] == b@[k],
        decreases n - i,
    {
        if a.get_char(i) != b.get_char(i) {
            return false;
        }
        i = i + 1;
    }
    assert(a@ =~= b@);
    true
}

/// Maps a key code (`"ArrowLeft"`, `"ArrowRight"`, `"ArrowDown"`) to its move.
pub fn direction_of(code: &str) -> (r: Option<Direction>)
    ensures
        r == key_direction(code@),
{
    if same_text(code, "ArrowLeft") {
        Some(Direction::Left)
    } else if same_text(code, "ArrowRight") {
        Some(Direction::Right)
    } else if same_text(code, "ArrowDown") {
        Some(Direction::Down)
    } else {
        None
    }
}

/// What the host delivers: a timer tick, or a key press already mapped to a move.
#[derive(Clone, Copy, Debug, PartialEq, Eq, Structural)]
pub enum Msg {
    Tick,
    Key(Direction),
}

/// The grid, the falling piece and whether the game is lost.
pub struct GameState {
    pub table: Vec<Vec<u8>>,
    pub piece: Piece,
    pub end: bool,
    pub width: usize,
    pub height: usize,
    pub shapes: Vec<Shape>,
}

/// Every tag of the grid is empty, settled or active.
pub open spec fn tags_ok(g: Seq<Seq<u8>>) -> bool {
    forall|r: int, c: int| 0 <= r < g.len() && 0 <= c < g[r].len() ==> #[trigger] g[r][c] <= 2
}

/// What one tick does to the grid `g` and the piece `p` of a running game, where
/// `fresh` is the piece that would spawn: clear the active tags; if the piece
/// cannot fall, freeze it and spawn `fresh`, and end the game if that one cannot
/// fall either; otherwise move the piece one row down and draw it.
pub open spec fn step(g: Seq<Seq<u8>>, p: Piece, w: int, fresh: Piece) -> (Seq<Seq<u8>>, Piece, bool) {
    let g0 = cleared(g);
    if collides(g0, p, w) {
        let g1 = stamped(g0, p, w, true);
        if collides(g1, fresh, w) {
            (g1, fresh, true)
        } else {
            (stamped(g1, advanced(fresh), w, false), advanced(fresh), false)
        }
    } else {
        (stamped(g0, advanced(p), w, false), advanced(p), false)
    }
}

/// The piece after a key press; columns stay in `[0, w - 2]`, rows in `[0, h]`.
pub open spec fn shifted(p: Piece, d: Direction, h: int, w: int) -> Piece {
    match d {
        Direction::Left => Piece {
            position: Point {
                x: p.position.x,
                y: clamp_spec(p.position.y as int, -1, 0, w - 2) as usize,
            },
            shape: p.shape,
        },
        Direction::Right => Piece {
            position: Point {
                x: p.position.x,
                y: clamp_spec(p.position.y as int, 1, 0, w - 2) as usize,
            },
            shape: p.shape,
        },
        Direction::Down => Piece {
            position: Point {
                x: clamp_spec(p.position.x as int, 1, 0, h) as usize,
                y: p.position.y,
            },
            shape: p.shape,
        },
    }
}

proof fn lemma_cleared_ok(g: Seq<Seq<u8>>, h: int, w: int)
    requires
        has_dims(g, h, w),
        tags_ok(g),
    ensures
        has_dims(cleared(g), h, w),
        tags_ok(cleared(g)),
{
}

proof fn lemma_stamped_ok(g: Seq<Seq<u8>>, p: Piece, h: int, w: int, halve: bool)
    requires
        has_dims(g, h, w),
        tags_ok(g),
        shape_ok(p.shape),
    ensures
        has_dims(stamped(g, p, w, halve), h, w),
        tags_ok(stamped(g, p, w, halve)),
{
    let s = stamped(g, p, w, halve);
    assert forall|r: int, c: int| 0 <= r < s.len() && 0 <= c < s[r].len() implies #[trigger] s[r][c] <= 2 by {
        if c < w && mask_at(p, r, c) != 0 {
            let i = r + 4 - p.position.x;
            let j = c - p.position.y;
            assert(p.shape@[i]@[j] == 0 || p.shape@[i]@[j] == 2);
        }
    }
}

/// A piece whose anchor lies inside the grid cannot fall past the floor: if it
/// can still fall, its row offset is below the grid's height.
proof fn lemma_free_piece_above_floor(g: Seq<Seq<u8>>, p: Piece, h: int, w: int)
    requires
        has_dims(g, h, w),
        2 <= h,
        shape_ok(p.shape),
        p.position.x <= h,
        p.position.y + 2 <= w,
        !collides(g, p, w),
    ensures
        p.position.x < h,
{
    if p.position.x == h {
        assert(hits(g, p, w, 2, 0));
    }
}

impl GameState {
    /// The tags of the grid, row by row.
    pub open spec fn grid(&self) -> Seq<Seq<u8>> {
        cells(self.table@)
    }

    /// The grid has the configured size and holds only known tags, every mask is
    /// valid, and the piece stays within the bounds that moves keep it in.
    pub open spec fn wf(&self) -> bool {
        &&& 4 <= self.height
        &&& 2 <= self.width
        &&& has_dims(self.grid(), self.height as int, self.width as int)
        &&& tags_ok(self.grid())
        &&& 1 <= self.shapes@.len()
        &&& forall|k: int| 0 <= k < self.shapes@.len() ==> shape_ok(#[trigger] self.shapes@[k])
        &&& shape_ok(self.piece.shape)
        &&& self.piece.position.x <= self.height
        &&& self.piece.position.y + 2 <= self.width
    }

    /// A running game on an empty grid of `height` rows and `width` columns, with
    /// a fresh piece at the top.
    pub fn new(width: usize, height: usize) -> (s: Self)
        requires
            2 <= width,
            4 <= height,
        ensures
            s.wf(),
            s.width == width,
            s.height == height,
            !s.end,
            s.shapes@.len() == 1,
            forall|i: int, j: int| 0 <= i < 4 && 0 <= j < 4 ==> #[trigger] s.shapes@[0]@[i]@[j] == square_cell(i, j),
            s.piece == spawned(s.shapes@),
            forall|r: int, c: int| 0 <= r < height && 0 <= c < width ==> #[trigger] s.grid()[r][c] == 0,
    {
        let mut table: Vec<Vec<u8>> = Vec::new();
        let mut r: usize = 0;
        while r < height
            invariant
                r <= height,
                table@.len() == r,
                forall|k: int| 0 <= k < r ==> #[trigger] table@[k]@.len() == width,
                forall|k: int, c: int| 0 <= k < r && 0 <= c < width ==> #[trigger] table@[k]@[c] == 0,
            decreases height - r,
        {
            let mut row: Vec<u8> = Vec::new();
            let mut c: usize = 0;
            while c < width
                invariant
                    c <= width,
                    row@.len() == c,
                    forall|j: int| 0 <= j < c ==> #[trigger] row@[j] == 0,
                decreases width - c,
            {
                row.push(0);
                c = c + 1;
            }
            table.push(row);
            r = r + 1;
        }
        let shapes = default_shapes();
        let piece = generate_new_piece(&shapes);
        let s = GameState { table, piece, end: false, width, height, shapes };
        assert forall|k: int| 0 <= k < s.shapes@.len() implies shape_ok(#[trigger] s.shapes@[k]) by {
            assert forall|i: int, j: int| 0 <= i < 4 && 0 <= j < 4 implies
                (#[trigger] s.shapes@[k]@[i]@[j] == 0 || s.shapes@[k]@[i]@[j] == 2) by {
                assert(s.shapes@[0]@[i]@[j] == square_cell(i, j));
            }
            assert(s.shapes@[0]@[2]@[0] == square_cell(2, 0));
        }
        assert forall|k: int| 0 <= k < height implies #[trigger] s.grid()[k].len() == width by {
            assert(s.grid()[k] == s.table@[k]@);
        }
        assert forall|k: int, c: int| 0 <= k < height && 0 <= c < width implies #[trigger] s.grid()[k][c] == 0 by {
            assert(s.grid()[k] == s.table@[k]@);
        }
        s
    }
    /// One timer tick. A lost game stays as it is; a running one takes one
    /// `step`: the active tags are cleared, then the piece either falls one row
    /// and is drawn, or is frozen and a new piece spawns, which ends the game if
    /// it cannot fall either.
    pub fn advance(&mut self)
        requires
            old(self).wf(),
        ensures
            final(self).wf(),
            final(self).width == old(self).width,
            final(self).height == old(self).height,
            final(self).shapes@ == old(self).shapes@,
            old(self).end ==> *final(self) == *old(self),
            !old(self).end ==> (final(self).grid(), final(self).piece, final(self).end) == step(
                old(self).grid(),
                old(self).piece,
                old(self).width as int,
                spawned(old(self).shapes@),
            ),
    {
        if self.end {
            return;
        }
        let ghost g = self.grid();
        let h = self.height;
        let w = self.width;
        proof {
            lemma_cleared_ok(g, h as int, w as int);
        }
        clear_table(&mut self.table);
        let ghost g0 = self.grid();
        if collision_detection(&self.table, &self.piece, w) {
            let old_piece = self.piece;
            proof {
                lemma_stamped_ok(g0, old_piece, h as int, w as int, true);
            }
            stamp_piece(&mut self.table, &old_piece, w, true);
            let ghost g1 = self.grid();
            self.piece = generate_new_piece(&self.shapes);
            assert(shape_ok(self.shapes@[0]));
            if collision_detection(&self.table, &self.piece, w) {
                self.end = true;
                return;
            }
            proof {
                lemma_free_piece_above_floor(g1, self.piece, h as int, w as int);
            }
        } else {
            proof {
                lemma_free_piece_above_floor(g0, self.piece, h as int, w as int);
            }
        }
        self.piece.position.x = self.piece.position.x + 1;
        let p = self.piece;
        proof {
            lemma_stamped_ok(self.grid(), p, h as int, w as int, false);
        }
        stamp_piece(&mut self.table, &p, w, false);
    }

    /// A key press: moves the piece one column left or right, or one row down,
    /// pinned into the allowed range. Nothing else changes, and nothing is checked
    /// for collision until the next tick.
    pub fn shift(&mut self, d: Direction)
        requires
            old(self).wf(),
        ensures
            final(self).wf(),
            final(self).piece == shifted(old(self).piece, d, old(self).height as int, old(self).width as int),
            final(self).table == old(self).table,
            final(self).end == old(self).end,
            final(self).width == old(self).width,
            final(self).height == old(self).height,
            final(self).shapes == old(self).shapes,
    {
        let offset: usize = 2;
        match d {
            Direction::Right => {
                self.piece.position.y = add_in_range(self.piece.position.y, 1, 0, self.width - offset);
            },
            Direction::Left => {
                self.piece.position.y = add_in_range(self.piece.position.y, -1, 0, self.width - offset);
            },
            Direction::Down => {
                self.piece.position.x = add_in_range(self.piece.position.x, 1, 0, self.height);
            },
        }
    }
    /// Handles one event and says whether the grid must be drawn again: a tick
    /// of a lost game changes nothing and asks for no redraw; any other event
    /// asks for one.
    pub fn update(&mut self, msg: Msg) -> (render: bool)
        requires
            old(self).wf(),
        ensures
            final(self).wf(),
            final(self).width == old(self).width,
            final(self).height == old(self).height,
            final(self).shapes@ == old(self).shapes@,
            msg == Msg::Tick ==> render == !old(self).end,
            msg == Msg::Tick && old(self).end ==> *final(self) == *old(self),
            msg == Msg::Tick && !old(self).end ==> (final(self).grid(), final(self).piece, final(self).end)
                == step(old(self).grid(), old(self).piece, old(self).width as int, spawned(old(self).shapes@)),
            forall|d: Direction| msg == Msg::Key(d) ==> {
                &&& render
                &&& final(self).piece == shifted(old(self).piece, d, old(self).height as int, old(self).width as int)
                &&& final(self).table == old(self).table
                &&& final(self).end == old(self).end
            },
    {
        match msg {
            Msg::Tick => {
                if self.end {
                    return false;
                }
                self.advance();
            },
            Msg::Key(d) => {
                self.shift(d);
            },
        }
        true
    }
}

} // verus!
