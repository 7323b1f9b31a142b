//! The playing field and the rules of the falling-block game: collision
//! checks, solidifying a landed piece, clearing full lines and the
//! moves the player can make.

use vstd::prelude::*;

use crate::level::{ClearedLines, Level};
use crate::monitor::Color;
use crate::tetromino::{spec_piece_wf, spec_rotated, Tetromino};

verus! {

/// Height of the playing field in rows.
pub const FIELD_HEIGHT: usize = 20;

/// Width of the playing field in columns.
pub const FIELD_WIDTH: usize = 10;

/// One cell of the playing field.
#[derive(Debug, Clone, Copy, PartialEq, Eq, Structural)]
pub enum Square {
    /// The cell is empty.
    Empty,
    /// The cell holds a landed block of the given colour.
    Occupied(Color),
}

/// The playing field: rows of cells, top row first.
pub type Field = Vec<Vec<Square>>;

/// What a piece collided with.
#[derive(Debug, Clone, Copy, PartialEq, Eq, Structural)]
pub enum Collision {
    /// The piece left the playing field.
    OutOfBounds,
    /// The piece overlapped a landed block.
    WithBlock,
}

/// The field shape invariant: exactly the field's height in rows, each
/// exactly the field's width wide.
pub open spec fn spec_field_wf(f: Seq<Seq<Square>>) -> bool {
    f.len() == FIELD_HEIGHT && forall|y: int| 0 <= y < f.len() ==> (#[trigger] f[y]).len()
        == FIELD_WIDTH
}

/// The view of a field: its rows as sequences.
pub open spec fn field_view(f: &Field) -> Seq<Seq<Square>> {
    Seq::new(f@.len(), |y: int| f@[y]@)
}

/// Field position of the `i`-th block of a piece.
pub open spec fn spec_block_x(t: Tetromino, i: int) -> int {
    t.blocks[i].vec.x + t.coords.x
}

/// Field position of the `i`-th block of a piece.
pub open spec fn spec_block_y(t: Tetromino, i: int) -> int {
    t.blocks[i].vec.y + t.coords.y
}

/// Some block of the piece lies outside the playing field.
pub open spec fn spec_out_of_bounds(t: Tetromino) -> bool {
    exists|i: int|
        0 <= i < 4 && !(0 <= #[trigger] spec_block_x(t, i) < FIELD_WIDTH && 0 <= spec_block_y(
            t,
            i,
        ) < FIELD_HEIGHT)
}

/// Some block of the piece overlaps a landed block.  Meaningful only
/// for a piece whose blocks are all inside the field.
pub open spec fn spec_hits_block(t: Tetromino, f: Seq<Seq<Square>>) -> bool {
    exists|i: int|
        0 <= i < 4 && f[spec_block_y(t, i)][#[trigger] spec_block_x(t, i)] is Occupied
}

/// What the piece collides with, if anything: leaving the field is
/// checked before overlapping landed blocks.
pub open spec fn spec_collision(t: Tetromino, f: Seq<Seq<Square>>) -> Option<Collision> {
    if spec_out_of_bounds(t) {
        Some(Collision::OutOfBounds)
    } else if spec_hits_block(t, f) {
        Some(Collision::WithBlock)
    } else {
        None
    }
}

/// The piece moved one row down, all else equal.
pub open spec fn spec_moved_down(t: Tetromino) -> Tetromino {
    Tetromino {
        coords: crate::math::Vector2D { x: t.coords.x, y: (t.coords.y + 1) as i32 },
        ..t
    }
}

/// The cell `(x, y)` is covered by one of the piece's blocks.
pub open spec fn spec_covers(t: Tetromino, x: int, y: int) -> bool {
    exists|i: int| 0 <= i < 4 && #[trigger] spec_block_x(t, i) == x && spec_block_y(t, i) == y
}

/// A row with no empty cell.
pub open spec fn spec_row_full(row: Seq<Square>) -> bool {
    forall|x: int| 0 <= x < row.len() ==> !(#[trigger] row[x] is Empty)
}

/// No row of the field is full.  This holds between rounds: full rows
/// are cleared as soon as a piece lands.
pub open spec fn spec_no_full_rows(f: Seq<Seq<Square>>) -> bool {
    forall|y: int| 0 <= y < f.len() ==> !spec_row_full(#[trigger] f[y])
}

/// The row `y` holds one of the piece's blocks.
pub open spec fn spec_is_block_row(t: Tetromino, y: int) -> bool {
    exists|k: int| 0 <= k < 4 && #[trigger] spec_block_y(t, k) == y
}

/// A piece fit for play: well shaped, and close enough to the field
/// that its position arithmetic cannot overflow.
pub open spec fn spec_piece_ok(t: Tetromino) -> bool {
    spec_piece_wf(t) && -100 <= t.coords.x <= 100 && -100 <= t.coords.y <= 100
}

/// The game state: progress, the falling piece, the piece after it, a
/// preview of where the falling piece would land, the tick counter and
/// the field of landed blocks.
#[derive(Debug, Clone, PartialEq)]
pub struct GameState {
    /// The player's progress.
    pub level: Level,
    /// The falling piece.
    pub current: Tetromino,
    /// The piece that comes after it.
    pub next: Tetromino,
    /// Where the falling piece would land, when that is visible.
    pub preview: Option<Tetromino>,
    /// Ticks since the falling piece last moved down automatically.
    pub ticks: u32,
    /// The field of landed blocks.
    pub field: Field,
}

impl GameState {
    /// The game state invariant: the field has its full shape and both
    /// pieces are fit for play.
    pub open spec fn wf(&self) -> bool {
        &&& spec_field_wf(field_view(&self.field))
        &&& spec_piece_ok(self.current)
        &&& spec_piece_ok(self.next)
    }

    /// Start a game at the given level with the given first two pieces
    /// and an empty field.  The landing preview is computed for the
    /// first piece.
    pub fn new(level: u32, first: Tetromino, second: Tetromino) -> (r: Self)
        requires
            spec_piece_ok(first),
            spec_piece_ok(second),
        ensures
            r.wf(),
            r.level.current == level && r.level.score == 0 && r.level.cleared_lines == 0,
            r.current == first,
            r.next == second,
            r.ticks == 0,
            forall|y: int, x: int|
                0 <= y < FIELD_HEIGHT && 0 <= x < FIELD_WIDTH ==> field_view(&r.field)[y][x]
                    is Empty,
            spec_no_full_rows(field_view(&r.field)),
    {
        let mut field: Field = Vec::new();
        let mut y: usize = 0;
        while y < FIELD_HEIGHT
            invariant
                y <= FIELD_HEIGHT,
                field@.len() == y,
                forall|yi: int|
                    0 <= yi < y ==> (#[trigger] field@[yi])@.len() == FIELD_WIDTH,
                forall|yi: int, xi: int|
                    0 <= yi < y && 0 <= xi < FIELD_WIDTH ==> #[trigger] field@[yi]@[xi] is Empty,
            decreases FIELD_HEIGHT - y,
        {
            let mut row: Vec<Square> = Vec::new();
            let mut x: usize = 0;
            while x < FIELD_WIDTH
                invariant
                    x <= FIELD_WIDTH,
                    row@.len() == x,
                    forall|xi: int| 0 <= xi < x ==> #[trigger] row@[xi] is Empty,
                decreases FIELD_WIDTH - x,
            {
                row.push(Square::Empty);
                x = x + 1;
            }
            field.push(row);
            y = y + 1;
        }
        let mut state = Self {
            level: Level::new(level),
            current: first,
            next: second,
            preview: None,
            ticks: 0,
            field,
        };
        let preview = state.determine_preview();
        state.preview = preview;
        proof {
            assert forall|y: int|
                0 <= y < FIELD_HEIGHT implies !spec_row_full(
                #[trigger] field_view(&state.field)[y],
            ) by {
                assert(field_view(&state.field)[y][0] is Empty);
            }
        }
        state
    }

    /// Where the falling piece would land: the piece moved down until
    /// just before it collides.  Nothing is shown when it would collide
    /// after a single step.
    pub fn determine_preview(&self) -> (r: Option<Tetromino>)
        requires
            self.wf(),
        ensures
            r matches Some(p) ==> spec_collision(p, field_view(&self.field)) is None
                && spec_collision(spec_moved_down(p), field_view(&self.field)) is Some,
    {
        let mut preview = self.current;

        preview.move_down();

        if self.check_collision(&preview).is_some() {
            return None;
        }

        let ghost f = field_view(&self.field);
        proof {
            lemma_no_collision_bounds(preview, f);
        }
        while self.check_collision_step(&preview)
            invariant
                self.wf(),
                spec_piece_wf(preview),
                -100 <= preview.coords.x <= 100,
                -101 <= preview.coords.y <= FIELD_HEIGHT + 2,
                spec_collision(preview, f) is None,
                f == field_view(&self.field),
            decreases FIELD_HEIGHT + 3 - preview.coords.y,
        {
            proof {
                lemma_no_collision_bounds(preview, f);
            }
            preview.move_down();
            proof {
                lemma_no_collision_bounds(preview, f);
            }
        }

        Some(preview)
    }

    /// One step of the landing search: can the piece move down without
    /// colliding?
    fn check_collision_step(&self, preview: &Tetromino) -> (r: bool)
        requires
            self.wf(),
            spec_piece_wf(*preview),
            -1000 <= preview.coords.x <= 1000,
            -1000 <= preview.coords.y <= 1000,
        ensures
            r == (spec_collision(spec_moved_down(*preview), field_view(&self.field)) is None),
    {
        let mut copy = *preview;
        copy.move_down();
        self.check_collision(&copy).is_none()
    }

    /// Try to move the falling piece down: when it would collide it is
    /// solidified into the field instead; otherwise it moves.  Reports
    /// whether the piece landed.
    pub fn try_move_down(&mut self) -> (r: bool)
        requires
            old(self).wf(),
            spec_collision(old(self).current, field_view(&old(self).field)) is None,
        ensures
            final(self).wf(),
            final(self).level == old(self).level,
            final(self).next == old(self).next,
            final(self).preview == old(self).preview,
            final(self).ticks == old(self).ticks,
            r == (spec_collision(spec_moved_down(old(self).current), field_view(&old(self).field))
                is Some),
            r ==> final(self).current == old(self).current && solidified_into(
                field_view(&final(self).field),
                field_view(&old(self).field),
                old(self).current,
            ),
            !r ==> final(self).current == spec_moved_down(old(self).current) && final(self).field
                == old(self).field,
    {
        if self.try_solidify() {
            true
        } else {
            self.current.move_down();
            proof {
                lemma_no_collision_bounds(self.current, field_view(&self.field));
            }
            false
        }
    }

    /// Solidify the falling piece when it cannot move down: its four
    /// blocks become landed blocks of its colour.
    fn try_solidify(&mut self) -> (r: bool)
        requires
            old(self).wf(),
            spec_collision(old(self).current, field_view(&old(self).field)) is None,
        ensures
            final(self).wf(),
            final(self).level == old(self).level,
            final(self).current == old(self).current,
            final(self).next == old(self).next,
            final(self).preview == old(self).preview,
            final(self).ticks == old(self).ticks,
            r == (spec_collision(spec_moved_down(old(self).current), field_view(&old(self).field))
                is Some),
            r ==> solidified_into(
                field_view(&final(self).field),
                field_view(&old(self).field),
                old(self).current,
            ),
            !r ==> final(self).field == old(self).field,
    {
        let mut copy = self.current;
        copy.move_down();

        if self.check_collision(&copy).is_some() {
            let ghost f0 = field_view(&self.field);
            let blocks = self.current.offset_blocks();
            proof {
                let t = self.current;
                assert forall|k: int| 0 <= k < 4 implies #[trigger] blocks[k].vec.x
                    == spec_block_x(t, k) && blocks[k].vec.y == spec_block_y(t, k) by {
                    assert(blocks[k].vec.x == t.blocks[k].vec.x + t.coords.x);
                    assert(blocks[k].vec.y == t.blocks[k].vec.y + t.coords.y);
                }
            }
            let color = self.current.color;
            let mut i: usize = 0;
            while i < 4
                invariant
                    spec_field_wf(field_view(&self.field)),
                    spec_piece_ok(self.current),
                    spec_piece_ok(self.next),
                    spec_collision(self.current, f0) is None,
                    self.level == old(self).level,
                    self.current == old(self).current,
                    self.next == old(self).next,
                    self.preview == old(self).preview,
                    self.ticks == old(self).ticks,
                    f0 == field_view(&old(self).field),
                    i <= 4,
                    forall|k: int|
                        0 <= k < 4 ==> #[trigger] blocks[k].vec.x == spec_block_x(self.current, k)
                            && blocks[k].vec.y == spec_block_y(self.current, k),
                    color == self.current.color,
                    forall|y: int, x: int|
                        0 <= y < FIELD_HEIGHT && 0 <= x < FIELD_WIDTH ==> #[trigger] field_view(
                            &self.field,
                        )[y][x] == (if exists|k: int|
                            0 <= k < i && #[trigger] spec_block_x(self.current, k) == x
                                && spec_block_y(self.current, k) == y {
                            Square::Occupied(color)
                        } else {
                            f0[y][x]
                        }),
                decreases 4 - i,
            {
                let ghost t = self.current;
                let ghost fprev = field_view(&self.field);
                proof {
                    assert(blocks[i as int].vec.x == spec_block_x(t, i as int));
                    assert(blocks[i as int].vec.y == spec_block_y(t, i as int));
                    assert(!spec_out_of_bounds(t));
                    assert(0 <= spec_block_x(t, i as int) < FIELD_WIDTH);
                    assert(0 <= spec_block_y(t, i as int) < FIELD_HEIGHT);
                }
                let bx = blocks[i].vec.x;
                let by = blocks[i].vec.y;
                field_set(&mut self.field, bx as usize, by as usize, Square::Occupied(color));
                proof {
                    assert forall|y: int, x: int|
                        0 <= y < FIELD_HEIGHT && 0 <= x < FIELD_WIDTH implies #[trigger] field_view(
                        &self.field,
                    )[y][x] == (if exists|k: int|
                        0 <= k < i + 1 && #[trigger] spec_block_x(t, k) == x && spec_block_y(t, k)
                            == y {
                        Square::Occupied(color)
                    } else {
                        f0[y][x]
                    }) by {
                        if x == spec_block_x(t, i as int) && y == spec_block_y(t, i as int) {
                            assert(0 <= (i as int) < i + 1 && spec_block_x(t, i as int) == x
                                && spec_block_y(t, i as int) == y);
                        } else {
                            assert(field_view(&self.field)[y][x] == fprev[y][x]);
                        }
                    }
                }
                i = i + 1;
            }
            true
        } else {
            false
        }
    }

    /// What the given piece collides with on this field, if anything.
    pub fn check_collision(&self, tetromino: &Tetromino) -> (r: Option<Collision>)
        requires
            self.wf(),
            spec_piece_wf(*tetromino),
            -1001 <= tetromino.coords.x <= 1001,
            -1001 <= tetromino.coords.y <= 1001,
        ensures
            r == spec_collision(*tetromino, field_view(&self.field)),
    {
        if Self::is_out_of_bounds(tetromino) {
            return Some(Collision::OutOfBounds);
        }

        if self.has_collision_with_block(tetromino) {
            return Some(Collision::WithBlock);
        }

        None
    }

    /// Does some block of the piece overlap a landed block?  The piece
    /// must lie inside the field.
    fn has_collision_with_block(&self, tetromino: &Tetromino) -> (r: bool)
        requires
            self.wf(),
            spec_piece_wf(*tetromino),
            !spec_out_of_bounds(*tetromino),
            -1001 <= tetromino.coords.x <= 1001,
            -1001 <= tetromino.coords.y <= 1001,
        ensures
            r == spec_hits_block(*tetromino, field_view(&self.field)),
    {
        let blocks = tetromino.offset_blocks();
        proof {
            assert forall|k: int| 0 <= k < 4 implies #[trigger] blocks[k].vec.x == spec_block_x(
                *tetromino,
                k,
            ) && blocks[k].vec.y == spec_block_y(*tetromino, k) by {
                assert(blocks[k].vec.x == tetromino.blocks[k].vec.x + tetromino.coords.x);
                assert(blocks[k].vec.y == tetromino.blocks[k].vec.y + tetromino.coords.y);
            }
        }
        let mut i: usize = 0;
        let mut hit = false;
        while i < 4
            invariant
                self.wf(),
                i <= 4,
                forall|k: int|
                    0 <= k < 4 ==> #[trigger] blocks[k].vec.x == spec_block_x(*tetromino, k)
                        && blocks[k].vec.y == spec_block_y(*tetromino, k),
                !spec_out_of_bounds(*tetromino),
                spec_piece_wf(*tetromino),
                hit == exists|k: int|
                    0 <= k < i && field_view(&self.field)[spec_block_y(*tetromino, k)][
                        #[trigger] spec_block_x(*tetromino, k)
                    ] is Occupied,
            decreases 4 - i,
        {
            proof {
                assert(blocks[i as int].vec.x == spec_block_x(*tetromino, i as int));
                assert(blocks[i as int].vec.y == spec_block_y(*tetromino, i as int));
                assert(0 <= spec_block_x(*tetromino, i as int) < FIELD_WIDTH);
                assert(0 <= spec_block_y(*tetromino, i as int) < FIELD_HEIGHT);
            }
            let bx = blocks[i].vec.x as usize;
            let by = blocks[i].vec.y as usize;
            proof {
                assert(field_view(&self.field)[by as int].len() == FIELD_WIDTH);
                assert(self.field@[by as int]@ == field_view(&self.field)[by as int]);
            }
            let occupied = match self.field[by][bx] {
                Square::Empty => false,
                Square::Occupied(_) => true,
            };
            proof {
                if occupied {
                    assert(field_view(&self.field)[spec_block_y(*tetromino, i as int)][
                        spec_block_x(*tetromino, i as int)
                    ] is Occupied);
                }
            }
            hit = hit || occupied;
            i = i + 1;
        }
        hit
    }


    /// Rows of the first `n` rows of the field that stay after
    /// clearing: those with at least one empty cell, in order.
    pub open spec fn spec_kept_rows(f: Seq<Seq<Square>>, n: int) -> Seq<Seq<Square>>
        decreases n,
    {
        if n <= 0 {
            Seq::empty()
        } else {
            Self::spec_kept_rows(f, n - 1) + if spec_row_full(f[n - 1]) {
                Seq::empty()
            } else {
                seq![f[n - 1]]
            }
        }
    }

    /// How many of the field's rows are full.
    pub open spec fn spec_cleared_count(f: Seq<Seq<Square>>) -> int {
        FIELD_HEIGHT - Self::spec_kept_rows(f, FIELD_HEIGHT as int).len()
    }

    /// Remove every full row, pushing as many empty rows in from the
    /// top, and report how many lines were cleared.  At most four rows
    /// can be full, as only one four-block piece lands between clears.
    pub fn clear_lines(&mut self) -> (r: ClearedLines)
        requires
            old(self).wf(),
            Self::spec_cleared_count(field_view(&old(self).field)) <= 4,
        ensures
            final(self).wf(),
            final(self).level == old(self).level,
            final(self).current == old(self).current,
            final(self).next == old(self).next,
            final(self).preview == old(self).preview,
            final(self).ticks == old(self).ticks,
            ({
                let f = field_view(&old(self).field);
                let kept = Self::spec_kept_rows(f, FIELD_HEIGHT as int);
                let cleared = Self::spec_cleared_count(f);
                &&& crate::level::spec_cleared_value(r) == cleared
                &&& field_view(&final(self).field).skip(cleared) == kept
                &&& forall|y: int, x: int|
                    0 <= y < cleared && 0 <= x < FIELD_WIDTH ==> #[trigger] field_view(
                        &final(self).field,
                    )[y][x] is Empty
            }),
            spec_no_full_rows(field_view(&final(self).field)),
    {
        let ghost f = field_view(&self.field);
        let mut kept: Field = Vec::new();
        let mut y: usize = 0;
        while y < FIELD_HEIGHT
            invariant
                self.wf(),
                f == field_view(&self.field),
                y <= FIELD_HEIGHT,
                field_view(&kept) == Self::spec_kept_rows(f, y as int),
            decreases FIELD_HEIGHT - y,
        {
            let full = self.row_full(y);
            if !full {
                let row = self.row_copy(y);
                kept.push(row);
                proof {
                    assert(field_view(&kept) =~= Self::spec_kept_rows(f, y as int + 1));
                }
            } else {
                proof {
                    assert(field_view(&kept) =~= Self::spec_kept_rows(f, y as int + 1));
                }
            }
            y = y + 1;
        }
        proof {
            lemma_kept_rows_bounds(f, FIELD_HEIGHT as int);
        }
        let cleared = FIELD_HEIGHT - kept.len();
        let mut field: Field = Vec::new();
        let mut k: usize = 0;
        while k < cleared
            invariant
                k <= cleared,
                cleared <= FIELD_HEIGHT,
                field@.len() == k,
                forall|yi: int|
                    0 <= yi < k ==> (#[trigger] field@[yi])@.len() == FIELD_WIDTH,
                forall|yi: int, xi: int|
                    0 <= yi < k && 0 <= xi < FIELD_WIDTH ==> #[trigger] field@[yi]@[xi] is Empty,
            decreases cleared - k,
        {
            let mut row: Vec<Square> = Vec::new();
            let mut x: usize = 0;
            while x < FIELD_WIDTH
                invariant
                    x <= FIELD_WIDTH,
                    row@.len() == x,
                    forall|xi: int| 0 <= xi < x ==> #[trigger] row@[xi] is Empty,
                decreases FIELD_WIDTH - x,
            {
                row.push(Square::Empty);
                x = x + 1;
            }
            field.push(row);
            k = k + 1;
        }
        let ghost n_empty = field@.len() as int;
        let mut i: usize = 0;
        let kept_len = kept.len();
        while i < kept_len
            invariant
                i <= kept_len,
                kept_len == kept@.len(),
                field_view(&kept) == Self::spec_kept_rows(f, FIELD_HEIGHT as int),
                field@.len() == n_empty + i,
                n_empty == FIELD_HEIGHT - kept_len,
                0 <= n_empty,
                forall|j: int|
                    0 <= j < n_empty ==> (#[trigger] field@[j])@.len() == FIELD_WIDTH,
                forall|j: int, xi: int|
                    0 <= j < n_empty && 0 <= xi < FIELD_WIDTH ==> #[trigger] field@[j]@[xi]
                        is Empty,
                forall|j: int|
                    0 <= j < i ==> (#[trigger] field@[n_empty + j])@ == field_view(&kept)[j],
            decreases kept_len - i,
        {
            let row = self.kept_row(&kept, i);
            proof {
                assert(field_view(&kept)[i as int] == kept@[i as int]@);
            }
            field.push(row);
            i = i + 1;
        }
        self.field = field;
        proof {
            let kv = Self::spec_kept_rows(f, FIELD_HEIGHT as int);
            let cl = Self::spec_cleared_count(f);
            assert(forall|j: int|
                0 <= j < field@.len() ==> #[trigger] field_view(&self.field)[j] == field@[j]@);
            assert forall|j: int|
                0 <= j < kv.len() implies #[trigger] field_view(&self.field).skip(n_empty)[j]
                == kv[j] by {
                assert((#[trigger] field@[n_empty + j])@ == field_view(&kept)[j]);
            }
            assert(field_view(&self.field).skip(n_empty) =~= kv);
            assert(cl == n_empty);
            lemma_kept_rows_wf(f, FIELD_HEIGHT as int);
            assert forall|yy: int|
                0 <= yy < field@.len() implies (#[trigger] field_view(&self.field)[yy]).len()
                == FIELD_WIDTH by {
                if yy >= n_empty {
                    assert((#[trigger] field@[n_empty + (yy - n_empty)])@ == field_view(&kept)[
                        yy - n_empty
                    ]);
                    assert(kv[yy - n_empty].len() == FIELD_WIDTH);
                }
            }
            lemma_kept_rows_not_full(f, FIELD_HEIGHT as int);
            assert forall|yy: int|
                0 <= yy < field@.len() implies !spec_row_full(
                #[trigger] field_view(&self.field)[yy],
            ) by {
                if yy < n_empty {
                    assert(field_view(&self.field)[yy][0] is Empty);
                } else {
                    assert((#[trigger] field@[n_empty + (yy - n_empty)])@ == field_view(&kept)[
                        yy - n_empty
                    ]);
                    assert(!spec_row_full(kv[yy - n_empty]));
                }
            }
        }
        ClearedLines::from_count(cleared)
    }

    /// One row of the kept rows, copied out.
    fn kept_row(&self, kept: &Field, i: usize) -> (r: Vec<Square>)
        requires
            i < kept@.len(),
        ensures
            r@ == kept@[i as int]@,
    {
        let src = &kept[i];
        let mut row: Vec<Square> = Vec::new();
        let mut x: usize = 0;
        let w = src.len();
        while x < w
            invariant
                x <= w,
                w == src@.len(),
                row@ =~= src@.subrange(0, x as int),
            decreases w - x,
        {
            row.push(src[x]);
            x = x + 1;
        }
        proof {
            assert(row@ =~= src@);
        }
        row
    }

    /// Is the given row of the field full?
    fn row_full(&self, y: usize) -> (r: bool)
        requires
            self.wf(),
            y < FIELD_HEIGHT,
        ensures
            r == spec_row_full(field_view(&self.field)[y as int]),
    {
        let mut x: usize = 0;
        let mut full = true;
        while x < FIELD_WIDTH
            invariant
                self.wf(),
                y < FIELD_HEIGHT,
                x <= FIELD_WIDTH,
                full == forall|xi: int|
                    0 <= xi < x ==> !(#[trigger] field_view(&self.field)[y as int][xi] is Empty),
            decreases FIELD_WIDTH - x,
        {
            let empty = match self.field[y][x] {
                Square::Empty => true,
                Square::Occupied(_) => false,
            };
            full = full && !empty;
            x = x + 1;
        }
        full
    }

    /// A copy of one row of the field.
    fn row_copy(&self, y: usize) -> (r: Vec<Square>)
        requires
            self.wf(),
            y < FIELD_HEIGHT,
        ensures
            r@ == field_view(&self.field)[y as int],
    {
        let src = &self.field[y];
        proof {
            assert(src@ == field_view(&self.field)[y as int]);
            assert(field_view(&self.field)[y as int].len() == FIELD_WIDTH);
        }
        let mut row: Vec<Square> = Vec::new();
        let mut x: usize = 0;
        while x < FIELD_WIDTH
            invariant
                x <= FIELD_WIDTH,
                src@.len() == FIELD_WIDTH,
                src@ == field_view(&self.field)[y as int],
                row@ =~= src@.subrange(0, x as int),
            decreases FIELD_WIDTH - x,
        {
            row.push(src[x]);
            x = x + 1;
        }
        proof {
            assert(row@ =~= src@);
        }
        row
    }

    /// Turn the falling piece, taking the turn back when it would
    /// collide.
    pub fn rotate(&mut self)
        requires
            old(self).wf(),
        ensures
            final(self).wf(),
            final(self).field == old(self).field,
            final(self).level == old(self).level,
            final(self).next == old(self).next,
            final(self).preview == old(self).preview,
            final(self).ticks == old(self).ticks,
            final(self).current == (if spec_collision(
                spec_rotated(old(self).current),
                field_view(&old(self).field),
            ) is Some {
                old(self).current
            } else {
                spec_rotated(old(self).current)
            }),
    {
        let original = self.current;
        self.current.rotate();

        self.kickback(original);
    }

    /// Move the falling piece one column right, taking the move back
    /// when it would collide.
    pub fn move_right(&mut self)
        requires
            old(self).wf(),
        ensures
            final(self).wf(),
            final(self).field == old(self).field,
            final(self).level == old(self).level,
            final(self).next == old(self).next,
            final(self).preview == old(self).preview,
            final(self).ticks == old(self).ticks,
            final(self).current == (if spec_collision(
                spec_shifted(old(self).current, 1),
                field_view(&old(self).field),
            ) is Some {
                old(self).current
            } else {
                spec_shifted(old(self).current, 1)
            }),
    {
        let original = self.current;
        self.current.move_right();

        self.kickback(original);
    }

    /// Move the falling piece one column left, taking the move back
    /// when it would collide.
    pub fn move_left(&mut self)
        requires
            old(self).wf(),
        ensures
            final(self).wf(),
            final(self).field == old(self).field,
            final(self).level == old(self).level,
            final(self).next == old(self).next,
            final(self).preview == old(self).preview,
            final(self).ticks == old(self).ticks,
            final(self).current == (if spec_collision(
                spec_shifted(old(self).current, -1),
                field_view(&old(self).field),
            ) is Some {
                old(self).current
            } else {
                spec_shifted(old(self).current, -1)
            }),
    {
        let original = self.current;
        self.current.move_left();

        self.kickback(original);
    }

    /// Try to move the falling piece down; it lands when it cannot.
    pub fn move_down(&mut self) -> (r: bool)
        requires
            old(self).wf(),
            spec_collision(old(self).current, field_view(&old(self).field)) is None,
        ensures
            final(self).wf(),
            final(self).level == old(self).level,
            final(self).next == old(self).next,
            final(self).preview == old(self).preview,
            final(self).ticks == old(self).ticks,
            r == (spec_collision(spec_moved_down(old(self).current), field_view(&old(self).field))
                is Some),
            r ==> final(self).current == old(self).current && solidified_into(
                field_view(&final(self).field),
                field_view(&old(self).field),
                old(self).current,
            ),
            !r ==> final(self).current == spec_moved_down(old(self).current) && final(self).field
                == old(self).field,
    {
        self.try_move_down()
    }

    /// Drop the falling piece to the bottom: move it down until it
    /// lands, then solidify it.
    pub fn drop(&mut self) -> (r: bool)
        requires
            old(self).wf(),
            spec_collision(old(self).current, field_view(&old(self).field)) is None,
        ensures
            final(self).wf(),
            final(self).level == old(self).level,
            final(self).next == old(self).next,
            final(self).preview == old(self).preview,
            final(self).ticks == old(self).ticks,
            r == true,
            spec_collision(final(self).current, field_view(&old(self).field)) is None,
            spec_collision(spec_moved_down(final(self).current), field_view(&old(self).field))
                is Some,
            final(self).current.coords.x == old(self).current.coords.x,
            final(self).current.coords.y >= old(self).current.coords.y,
            final(self).current.blocks == old(self).current.blocks,
            final(self).current.rotation == old(self).current.rotation,
            final(self).current.origin == old(self).current.origin,
            final(self).current.color == old(self).current.color,
            solidified_into(
                field_view(&final(self).field),
                field_view(&old(self).field),
                final(self).current,
            ),
    {
        let ghost f = field_view(&self.field);
        proof {
            lemma_no_collision_bounds(self.current, f);
        }
        loop
            invariant_except_break
                f == field_view(&self.field),
            invariant
                self.wf(),
                self.level == old(self).level,
                self.next == old(self).next,
                self.preview == old(self).preview,
                self.ticks == old(self).ticks,
                spec_collision(self.current, f) is None,
                self.current.coords.x == old(self).current.coords.x,
                self.current.coords.y >= old(self).current.coords.y,
                self.current.blocks == old(self).current.blocks,
                self.current.rotation == old(self).current.rotation,
                self.current.origin == old(self).current.origin,
                self.current.color == old(self).current.color,
                -8 <= self.current.coords.y <= FIELD_HEIGHT + 1,
            ensures
                self.level == old(self).level,
                self.next == old(self).next,
                self.preview == old(self).preview,
                self.ticks == old(self).ticks,
                spec_field_wf(field_view(&self.field)),
                spec_piece_ok(self.current),
                spec_piece_ok(self.next),
                spec_collision(self.current, f) is None,
                spec_collision(spec_moved_down(self.current), f) is Some,
                self.current.coords.x == old(self).current.coords.x,
                self.current.coords.y >= old(self).current.coords.y,
                self.current.blocks == old(self).current.blocks,
                self.current.rotation == old(self).current.rotation,
                self.current.origin == old(self).current.origin,
                self.current.color == old(self).current.color,
                solidified_into(field_view(&self.field), f, self.current),
            decreases FIELD_HEIGHT + 2 - self.current.coords.y,
        {
            if self.try_move_down() {
                break;
            }
            proof {
                lemma_no_collision_bounds(self.current, f);
            }
        }

        true
    }

    /// Take the last change to the falling piece back when it now
    /// collides.
    fn kickback(&mut self, original: Tetromino)
        requires
            spec_field_wf(field_view(&old(self).field)),
            spec_piece_ok(old(self).next),
            spec_piece_ok(original),
            spec_piece_wf(old(self).current),
            -101 <= old(self).current.coords.x <= 101,
            -101 <= old(self).current.coords.y <= 101,
        ensures
            final(self).wf(),
            final(self).field == old(self).field,
            final(self).level == old(self).level,
            final(self).next == old(self).next,
            final(self).preview == old(self).preview,
            final(self).ticks == old(self).ticks,
            final(self).current == (if spec_collision(
                old(self).current,
                field_view(&old(self).field),
            ) is Some {
                original
            } else {
                old(self).current
            }),
    {
        let collides = {
            let c = self.check_collision_of_current();
            c.is_some()
        };
        if collides {
            self.current = original;
        } else {
            proof {
                lemma_no_collision_bounds(self.current, field_view(&self.field));
            }
        }
    }

    /// What the falling piece itself collides with, if anything.
    fn check_collision_of_current(&self) -> (r: Option<Collision>)
        requires
            spec_field_wf(field_view(&self.field)),
            spec_piece_wf(self.current),
            -101 <= self.current.coords.x <= 101,
            -101 <= self.current.coords.y <= 101,
        ensures
            r == spec_collision(self.current, field_view(&self.field)),
    {
        let current = self.current;
        if Self::is_out_of_bounds(&current) {
            return Some(Collision::OutOfBounds);
        }
        if self.has_collision_with_block_of(&current) {
            return Some(Collision::WithBlock);
        }
        None
    }

    /// Does some block of the piece overlap a landed block?  Identical
    /// to the main check, with a weaker shape premise on the state.
    fn has_collision_with_block_of(&self, tetromino: &Tetromino) -> (r: bool)
        requires
            spec_field_wf(field_view(&self.field)),
            spec_piece_wf(*tetromino),
            !spec_out_of_bounds(*tetromino),
            -1001 <= tetromino.coords.x <= 1001,
            -1001 <= tetromino.coords.y <= 1001,
        ensures
            r == spec_hits_block(*tetromino, field_view(&self.field)),
    {
        let blocks = tetromino.offset_blocks();
        proof {
            assert forall|k: int| 0 <= k < 4 implies #[trigger] blocks[k].vec.x == spec_block_x(
                *tetromino,
                k,
            ) && blocks[k].vec.y == spec_block_y(*tetromino, k) by {
                assert(blocks[k].vec.x == tetromino.blocks[k].vec.x + tetromino.coords.x);
                assert(blocks[k].vec.y == tetromino.blocks[k].vec.y + tetromino.coords.y);
            }
        }
        let mut i: usize = 0;
        let mut hit = false;
        while i < 4
            invariant
                spec_field_wf(field_view(&self.field)),
                i <= 4,
                forall|k: int|
                    0 <= k < 4 ==> #[trigger] blocks[k].vec.x == spec_block_x(*tetromino, k)
                        && blocks[k].vec.y == spec_block_y(*tetromino, k),
                !spec_out_of_bounds(*tetromino),
                spec_piece_wf(*tetromino),
                hit == exists|k: int|
                    0 <= k < i && field_view(&self.field)[spec_block_y(*tetromino, k)][
                        #[trigger] spec_block_x(*tetromino, k)
                    ] is Occupied,
            decreases 4 - i,
        {
            proof {
                assert(blocks[i as int].vec.x == spec_block_x(*tetromino, i as int));
                assert(blocks[i as int].vec.y == spec_block_y(*tetromino, i as int));
                assert(0 <= spec_block_x(*tetromino, i as int) < FIELD_WIDTH);
                assert(0 <= spec_block_y(*tetromino, i as int) < FIELD_HEIGHT);
            }
            let bx = blocks[i].vec.x as usize;
            let by = blocks[i].vec.y as usize;
            proof {
                assert(field_view(&self.field)[by as int].len() == FIELD_WIDTH);
                assert(self.field@[by as int]@ == field_view(&self.field)[by as int]);
            }
            let occupied = match self.field[by][bx] {
                Square::Empty => false,
                Square::Occupied(_) => true,
            };
            proof {
                if occupied {
                    assert(field_view(&self.field)[spec_block_y(*tetromino, i as int)][
                        spec_block_x(*tetromino, i as int)
                    ] is Occupied);
                }
            }
            hit = hit || occupied;
            i = i + 1;
        }
        hit
    }

    /// Count one tick.  Once more ticks passed than the level allows,
    /// the counter resets and the piece moves down automatically —
    /// unless it landed already this round.
    pub fn advance_game(&mut self, already_solidified: bool) -> (r: bool)
        requires
            old(self).wf(),
            old(self).ticks < u32::MAX,
            already_solidified || spec_collision(old(self).current, field_view(&old(self).field))
                is None,
        ensures
            final(self).wf(),
            final(self).level == old(self).level,
            final(self).next == old(self).next,
            final(self).preview == old(self).preview,
            ({
                let fired = old(self).ticks + 1 > crate::level::spec_required_ticks(
                    old(self).level.current,
                );
                if !fired {
                    &&& final(self).ticks == old(self).ticks + 1
                    &&& r == already_solidified
                    &&& final(self).current == old(self).current
                    &&& final(self).field == old(self).field
                } else {
                    &&& final(self).ticks == 0
                    &&& if already_solidified {
                        r && final(self).current == old(self).current && final(self).field
                            == old(self).field
                    } else {
                        &&& r == (spec_collision(
                            spec_moved_down(old(self).current),
                            field_view(&old(self).field),
                        ) is Some)
                        &&& r ==> final(self).current == old(self).current && solidified_into(
                            field_view(&final(self).field),
                            field_view(&old(self).field),
                            old(self).current,
                        )
                        &&& !r ==> final(self).current == spec_moved_down(old(self).current)
                            && final(self).field == old(self).field
                    }
                }
            }),
    {
        self.ticks = self.ticks + 1;

        if self.ticks > self.level.required_ticks() {
            self.ticks = 0;
            if already_solidified {
                true
            } else {
                self.try_move_down()
            }
        } else {
            already_solidified
        }
    }

    /// The game is over when the falling piece collides where it
    /// stands.
    pub fn is_finished(&self) -> (r: bool)
        requires
            self.wf(),
        ensures
            r == (spec_collision(self.current, field_view(&self.field)) is Some),
    {
        let current = self.current;
        self.check_collision(&current).is_some()
    }
}

/// The piece shifted `dx` columns, all else equal.
pub open spec fn spec_shifted(t: Tetromino, dx: int) -> Tetromino {
    Tetromino {
        coords: crate::math::Vector2D { x: (t.coords.x + dx) as i32, y: t.coords.y },
        ..t
    }
}

/// Every prefix of kept rows is no longer than the prefix it came from.
pub proof fn lemma_kept_rows_bounds(f: Seq<Seq<Square>>, n: int)
    requires
        0 <= n,
    ensures
        GameState::spec_kept_rows(f, n).len() <= n,
    decreases n,
{
    if n > 0 {
        lemma_kept_rows_bounds(f, n - 1);
    }
}

/// No kept row is full: full rows are exactly the ones dropped.
pub proof fn lemma_kept_rows_not_full(f: Seq<Seq<Square>>, n: int)
    requires
        0 <= n,
    ensures
        forall|j: int|
            0 <= j < GameState::spec_kept_rows(f, n).len() ==> !spec_row_full(
                #[trigger] GameState::spec_kept_rows(f, n)[j],
            ),
    decreases n,
{
    if n > 0 {
        lemma_kept_rows_not_full(f, n - 1);
        let prev = GameState::spec_kept_rows(f, n - 1);
        let cur = GameState::spec_kept_rows(f, n);
        assert forall|j: int| 0 <= j < cur.len() implies !spec_row_full(#[trigger] cur[j]) by {
            if j < prev.len() {
                assert(cur[j] == prev[j]);
            } else {
                assert(cur[j] == f[n - 1]);
            }
        }
    }
}

/// When every full row among the first `n` is one of four given rows,
/// at most four of those rows are dropped.
proof fn lemma_kept_at_least(f: Seq<Seq<Square>>, n: int, y0: int, y1: int, y2: int, y3: int)
    requires
        0 <= n,
        forall|j: int|
            0 <= j < n && spec_row_full(#[trigger] f[j]) ==> j == y0 || j == y1 || j == y2 || j
                == y3,
    ensures
        GameState::spec_kept_rows(f, n).len() + (if 0 <= y0 < n {
            1int
        } else {
            0int
        }) + (if 0 <= y1 < n {
            1int
        } else {
            0int
        }) + (if 0 <= y2 < n {
            1int
        } else {
            0int
        }) + (if 0 <= y3 < n {
            1int
        } else {
            0int
        }) >= n,
    decreases n,
{
    if n > 0 {
        lemma_kept_at_least(f, n - 1, y0, y1, y2, y3);
    }
}

/// Landing one piece on a field with no full row can fill at most four
/// rows: every newly full row holds one of the piece's four blocks.
pub proof fn lemma_solidified_cleared_bound(
    nf: Seq<Seq<Square>>,
    of: Seq<Seq<Square>>,
    t: Tetromino,
)
    requires
        spec_field_wf(of),
        spec_field_wf(nf),
        solidified_into(nf, of, t),
        spec_no_full_rows(of),
    ensures
        GameState::spec_cleared_count(nf) <= 4,
{
    let y0 = spec_block_y(t, 0);
    let y1 = spec_block_y(t, 1);
    let y2 = spec_block_y(t, 2);
    let y3 = spec_block_y(t, 3);
    assert forall|j: int|
        0 <= j < FIELD_HEIGHT && spec_row_full(#[trigger] nf[j]) implies j == y0 || j == y1 || j
        == y2 || j == y3 by {
        if !(j == y0 || j == y1 || j == y2 || j == y3) {
            assert(!spec_row_full(of[j]));
            assert(exists|x: int| 0 <= x < of[j].len() && of[j][x] is Empty) by {
                if forall|x: int| 0 <= x < of[j].len() ==> !(#[trigger] of[j][x] is Empty) {
                    assert(spec_row_full(of[j]));
                }
            }
            let x = choose|x: int| 0 <= x < of[j].len() && of[j][x] is Empty;
            assert(!spec_covers(t, x, j));
            assert(nf[j][x] == of[j][x]);
            assert(nf[j][x] is Empty);
            assert(!spec_row_full(nf[j]));
        }
    }
    lemma_kept_at_least(nf, FIELD_HEIGHT as int, y0, y1, y2, y3);
}

/// Every kept row is a row of the field, so it keeps the field's width.
pub proof fn lemma_kept_rows_wf(f: Seq<Seq<Square>>, n: int)
    requires
        0 <= n <= f.len(),
        spec_field_wf(f),
    ensures
        forall|j: int|
            0 <= j < GameState::spec_kept_rows(f, n).len()
                ==> (#[trigger] GameState::spec_kept_rows(f, n)[j]).len() == FIELD_WIDTH,
    decreases n,
{
    if n > 0 {
        lemma_kept_rows_wf(f, n - 1);
        let prev = GameState::spec_kept_rows(f, n - 1);
        let cur = GameState::spec_kept_rows(f, n);
        assert forall|j: int| 0 <= j < cur.len() implies (#[trigger] cur[j]).len()
            == FIELD_WIDTH by {
            if j < prev.len() {
                assert(cur[j] == prev[j]);
            } else {
                assert(cur[j] == f[n - 1]);
            }
        }
    }
}

impl GameState {
    /// Does some block of the piece lie outside the playing field?
    fn is_out_of_bounds(tetromino: &Tetromino) -> (r: bool)
        requires
            spec_piece_wf(*tetromino),
            -1001 <= tetromino.coords.x <= 1001,
            -1001 <= tetromino.coords.y <= 1001,
        ensures
            r == spec_out_of_bounds(*tetromino),
    {
        let blocks = tetromino.offset_blocks();
        proof {
            assert forall|k: int| 0 <= k < 4 implies #[trigger] blocks[k].vec.x == spec_block_x(
                *tetromino,
                k,
            ) && blocks[k].vec.y == spec_block_y(*tetromino, k) by {
                assert(blocks[k].vec.x == tetromino.blocks[k].vec.x + tetromino.coords.x);
                assert(blocks[k].vec.y == tetromino.blocks[k].vec.y + tetromino.coords.y);
            }
        }
        let mut i: usize = 0;
        let mut out = false;
        while i < 4
            invariant
                i <= 4,
                forall|k: int|
                    0 <= k < 4 ==> #[trigger] blocks[k].vec.x == spec_block_x(*tetromino, k)
                        && blocks[k].vec.y == spec_block_y(*tetromino, k),
                out == exists|k: int|
                    0 <= k < i && !(0 <= #[trigger] spec_block_x(*tetromino, k) < FIELD_WIDTH && 0
                        <= spec_block_y(*tetromino, k) < FIELD_HEIGHT),
            decreases 4 - i,
        {
            proof {
                assert(blocks[i as int].vec.x == spec_block_x(*tetromino, i as int));
                assert(blocks[i as int].vec.y == spec_block_y(*tetromino, i as int));
            }
            let bx = blocks[i].vec.x;
            let by = blocks[i].vec.y;
            let bad = bx < 0 || bx >= FIELD_WIDTH as i32 || by < 0 || by >= FIELD_HEIGHT as i32;
            proof {
                if bad {
                    assert(!(0 <= spec_block_x(*tetromino, i as int) < FIELD_WIDTH && 0
                        <= spec_block_y(*tetromino, i as int) < FIELD_HEIGHT));
                }
            }
            out = out || bad;
            i = i + 1;
        }
        out
    }
}

/// Replace one cell of the field.
fn field_set(field: &mut Field, x: usize, y: usize, v: Square)
    requires
        spec_field_wf(field_view(old(field))),
        x < FIELD_WIDTH,
        y < FIELD_HEIGHT,
    ensures
        spec_field_wf(field_view(final(field))),
        forall|y2: int, x2: int|
            0 <= y2 < FIELD_HEIGHT && 0 <= x2 < FIELD_WIDTH ==> #[trigger] field_view(
                final(field),
            )[y2][x2] == (if y2 == y && x2 == x {
                v
            } else {
                field_view(old(field))[y2][x2]
            }),
{
    let mut new_row: Vec<Square> = Vec::new();
    let mut k: usize = 0;
    while k < FIELD_WIDTH
        invariant
            spec_field_wf(field_view(field)),
            field_view(field) == field_view(old(field)),
            x < FIELD_WIDTH,
            y < FIELD_HEIGHT,
            k <= FIELD_WIDTH,
            new_row@.len() == k,
            forall|x2: int|
                0 <= x2 < k ==> #[trigger] new_row@[x2] == (if x2 == x {
                    v
                } else {
                    field_view(field)[y as int][x2]
                }),
        decreases FIELD_WIDTH - k,
    {
        if k == x {
            new_row.push(v);
        } else {
            new_row.push(field[y][k]);
        }
        k = k + 1;
    }
    field.set(y, new_row);
    proof {
        assert(forall|y2: int|
            0 <= y2 < FIELD_HEIGHT && y2 != y ==> #[trigger] field_view(final(field))[y2]
                == field_view(old(field))[y2]);
    }
}

/// A piece that does not collide lies wholly inside the field, which
/// bounds its position.
pub proof fn lemma_no_collision_bounds(t: Tetromino, f: Seq<Seq<Square>>)
    requires
        spec_piece_wf(t),
        spec_collision(t, f) is None,
    ensures
        forall|i: int|
            0 <= i < 4 ==> 0 <= #[trigger] spec_block_x(t, i) < FIELD_WIDTH && 0 <= spec_block_y(
                t,
                i,
            ) < FIELD_HEIGHT,
        -8 <= t.coords.x <= FIELD_WIDTH + 1,
        -8 <= t.coords.y <= FIELD_HEIGHT + 1,
{
    assert forall|i: int|
        0 <= i < 4 implies 0 <= #[trigger] spec_block_x(t, i) < FIELD_WIDTH && 0 <= spec_block_y(
        t,
        i,
    ) < FIELD_HEIGHT by {
        if !(0 <= spec_block_x(t, i) < FIELD_WIDTH && 0 <= spec_block_y(t, i) < FIELD_HEIGHT) {
            assert(spec_out_of_bounds(t));
        }
    }
    assert(0 <= spec_block_x(t, 0) < FIELD_WIDTH);
    assert(0 <= spec_block_y(t, 0) < FIELD_HEIGHT);
    assert(-2 <= t.blocks[0].vec.x - t.origin.vec.x <= 2);
}

/// The field `nf` is `of` with the four blocks of the piece landed: each
/// covered cell carries the piece's colour, every other cell is
/// unchanged.
pub open spec fn solidified_into(
    nf: Seq<Seq<Square>>,
    of: Seq<Seq<Square>>,
    t: Tetromino,
) -> bool {
    forall|y: int, x: int|
        0 <= y < FIELD_HEIGHT && 0 <= x < FIELD_WIDTH ==> #[trigger] nf[y][x] == (if spec_covers(
            t,
            x,
            y,
        ) {
            Square::Occupied(t.color)
        } else {
            of[y][x]
        })
}

} // verus!
