//! The seven game pieces: their block layouts, colours, movement and
//! quarter-turn rotation about their origin block.  Which piece comes
//! next is drawn from the board's random source by the embedding
//! program, which hands the draw to [`Tetromino::from_index`].

use vstd::prelude::*;

use crate::math::{rotate_ccw, rotate_cw, spec_rotate_x, spec_rotate_y, Matrix2D, Vector2D};
use crate::monitor::Color;

verus! {

/// The rotation behaviour and current orientation of a piece.
#[derive(Debug, Clone, Copy, PartialEq, Eq, Structural)]
pub enum Rotation {
    /// The piece looks the same from every side and never turns.
    Fixed,
    /// The piece alternates between two orientations.
    Two(Two),
    /// The piece cycles through four orientations.
    Four(Four),
}

/// Orientation of a piece that alternates between two.
#[derive(Debug, Clone, Copy, PartialEq, Eq, Structural)]
pub enum Two {
    /// The base orientation.
    Right,
    /// The turned orientation.
    Up,
}

/// Orientation of a piece that cycles through four.
#[derive(Debug, Clone, Copy, PartialEq, Eq, Structural)]
pub enum Four {
    /// The base orientation.
    Right,
    /// One quarter turn.
    Up,
    /// Two quarter turns.
    Left,
    /// Three quarter turns.
    Down,
}

/// One of the four blocks a piece is made of.
#[derive(Debug, Clone, Copy, PartialEq, Eq, Structural)]
pub struct Block {
    /// The block's position relative to the piece.
    pub vec: Vector2D,
}

impl Block {
    /// A block at the given piece-relative position.
    pub fn new(x: i32, y: i32) -> (r: Self)
        ensures
            r.vec.x == x && r.vec.y == y,
    {
        Self { vec: Vector2D { x, y } }
    }
}

/// A game piece: four blocks in piece-relative coordinates, the block
/// they rotate about, the piece's position on the field, its colour and
/// its rotation state.
#[derive(Debug, Clone, Copy, PartialEq, Eq)]
pub struct Tetromino {
    /// The four blocks, relative to the piece.
    pub blocks: [Block; 4],
    /// How the piece rotates and which orientation it is in.
    pub rotation: Rotation,
    /// The block the others rotate about.
    pub origin: Block,
    /// Position of the piece on the field.
    pub coords: Vector2D,
    /// The colour the piece is drawn in.
    pub color: Color,
}

/// A piece is well shaped when its origin sits near the piece's corner
/// and every block lies within two cells of the origin — which every
/// construction below satisfies and every quarter turn preserves.
pub open spec fn spec_piece_wf(t: Tetromino) -> bool {
    &&& 0 <= t.origin.vec.x <= 3
    &&& 0 <= t.origin.vec.y <= 3
    &&& forall|i: int|
        0 <= i < 4 ==> {
            let b = #[trigger] t.blocks[i];
            -2 <= b.vec.x - t.origin.vec.x <= 2 && -2 <= b.vec.y - t.origin.vec.y <= 2
        }
}

/// The piece spanning a whole row.
pub open spec fn spec_piece_i() -> Tetromino {
    Tetromino {
        blocks: [
            Block { vec: Vector2D { x: 0, y: 1 } },
            Block { vec: Vector2D { x: 1, y: 1 } },
            Block { vec: Vector2D { x: 2, y: 1 } },
            Block { vec: Vector2D { x: 3, y: 1 } },
        ],
        rotation: Rotation::Two(Two::Right),
        origin: Block { vec: Vector2D { x: 2, y: 1 } },
        color: Color::Cyan,
        coords: Vector2D { x: 3, y: 0 },
    }
}

/// The square piece.
pub open spec fn spec_piece_o() -> Tetromino {
    Tetromino {
        blocks: [
            Block { vec: Vector2D { x: 1, y: 1 } },
            Block { vec: Vector2D { x: 2, y: 1 } },
            Block { vec: Vector2D { x: 1, y: 2 } },
            Block { vec: Vector2D { x: 2, y: 2 } },
        ],
        rotation: Rotation::Fixed,
        origin: Block { vec: Vector2D { x: 2, y: 1 } },
        color: Color::Yellow,
        coords: Vector2D { x: 3, y: 0 },
    }
}

/// The T-shaped piece.
pub open spec fn spec_piece_t() -> Tetromino {
    Tetromino {
        blocks: [
            Block { vec: Vector2D { x: 0, y: 1 } },
            Block { vec: Vector2D { x: 1, y: 1 } },
            Block { vec: Vector2D { x: 2, y: 1 } },
            Block { vec: Vector2D { x: 1, y: 2 } },
        ],
        rotation: Rotation::Four(Four::Right),
        origin: Block { vec: Vector2D { x: 1, y: 1 } },
        color: Color::Magenta,
        coords: Vector2D { x: 3, y: 0 },
    }
}

/// The S-shaped piece.
pub open spec fn spec_piece_s() -> Tetromino {
    Tetromino {
        blocks: [
            Block { vec: Vector2D { x: 1, y: 1 } },
            Block { vec: Vector2D { x: 2, y: 1 } },
            Block { vec: Vector2D { x: 0, y: 2 } },
            Block { vec: Vector2D { x: 1, y: 2 } },
        ],
        rotation: Rotation::Two(Two::Right),
        origin: Block { vec: Vector2D { x: 1, y: 1 } },
        color: Color::Green,
        coords: Vector2D { x: 3, y: 0 },
    }
}

/// The Z-shaped piece.
pub open spec fn spec_piece_z() -> Tetromino {
    Tetromino {
        blocks: [
            Block { vec: Vector2D { x: 0, y: 1 } },
            Block { vec: Vector2D { x: 1, y: 1 } },
            Block { vec: Vector2D { x: 1, y: 2 } },
            Block { vec: Vector2D { x: 2, y: 2 } },
        ],
        rotation: Rotation::Two(Two::Right),
        origin: Block { vec: Vector2D { x: 1, y: 1 } },
        color: Color::Red,
        coords: Vector2D { x: 3, y: 0 },
    }
}

/// The J-shaped piece.
pub open spec fn spec_piece_j() -> Tetromino {
    Tetromino {
        blocks: [
            Block { vec: Vector2D { x: 0, y: 1 } },
            Block { vec: Vector2D { x: 1, y: 1 } },
            Block { vec: Vector2D { x: 2, y: 1 } },
            Block { vec: Vector2D { x: 2, y: 2 } },
        ],
        rotation: Rotation::Four(Four::Right),
        origin: Block { vec: Vector2D { x: 1, y: 1 } },
        color: Color::Blue,
        coords: Vector2D { x: 3, y: 0 },
    }
}

/// The L-shaped piece.
pub open spec fn spec_piece_l() -> Tetromino {
    Tetromino {
        blocks: [
            Block { vec: Vector2D { x: 0, y: 1 } },
            Block { vec: Vector2D { x: 1, y: 1 } },
            Block { vec: Vector2D { x: 2, y: 1 } },
            Block { vec: Vector2D { x: 0, y: 2 } },
        ],
        rotation: Rotation::Four(Four::Right),
        origin: Block { vec: Vector2D { x: 1, y: 1 } },
        color: Color::White,
        coords: Vector2D { x: 3, y: 0 },
    }
}

/// The piece a random draw in `0..7` stands for.
pub open spec fn spec_piece(index: u32) -> Tetromino {
    if index == 0 {
        spec_piece_i()
    } else if index == 1 {
        spec_piece_o()
    } else if index == 2 {
        spec_piece_t()
    } else if index == 3 {
        spec_piece_s()
    } else if index == 4 {
        spec_piece_z()
    } else if index == 5 {
        spec_piece_j()
    } else {
        spec_piece_l()
    }
}

impl Tetromino {
    /// The piece spanning a whole row.
    pub fn i() -> (r: Tetromino)
        ensures
            r == spec_piece_i(),
            spec_piece_wf(r),
    {
        Tetromino {
            blocks: [Block::new(0, 1), Block::new(1, 1), Block::new(2, 1), Block::new(3, 1)],
            rotation: Rotation::Two(Two::Right),
            origin: Block::new(2, 1),
            color: Color::Cyan,
            coords: Vector2D::default(),
        }
    }

    /// The square piece.
    pub fn o() -> (r: Tetromino)
        ensures
            r == spec_piece_o(),
            spec_piece_wf(r),
    {
        Tetromino {
            blocks: [Block::new(1, 1), Block::new(2, 1), Block::new(1, 2), Block::new(2, 2)],
            rotation: Rotation::Fixed,
            origin: Block::new(2, 1),
            color: Color::Yellow,
            coords: Vector2D::default(),
        }
    }

    /// The T-shaped piece.
    pub fn t() -> (r: Tetromino)
        ensures
            r == spec_piece_t(),
            spec_piece_wf(r),
    {
        Tetromino {
            blocks: [Block::new(0, 1), Block::new(1, 1), Block::new(2, 1), Block::new(1, 2)],
            rotation: Rotation::Four(Four::Right),
            origin: Block::new(1, 1),
            color: Color::Magenta,
            coords: Vector2D::default(),
        }
    }

    /// The S-shaped piece.
    pub fn s() -> (r: Tetromino)
        ensures
            r == spec_piece_s(),
            spec_piece_wf(r),
    {
        Tetromino {
            blocks: [Block::new(1, 1), Block::new(2, 1), Block::new(0, 2), Block::new(1, 2)],
            rotation: Rotation::Two(Two::Right),
            origin: Block::new(1, 1),
            color: Color::Green,
            coords: Vector2D::default(),
        }
    }

    /// The Z-shaped piece.
    pub fn z() -> (r: Tetromino)
        ensures
            r == spec_piece_z(),
            spec_piece_wf(r),
    {
        Tetromino {
            blocks: [Block::new(0, 1), Block::new(1, 1), Block::new(1, 2), Block::new(2, 2)],
            rotation: Rotation::Two(Two::Right),
            origin: Block::new(1, 1),
            color: Color::Red,
            coords: Vector2D::default(),
        }
    }

    /// The J-shaped piece.
    pub fn j() -> (r: Tetromino)
        ensures
            r == spec_piece_j(),
            spec_piece_wf(r),
    {
        Tetromino {
            blocks: [Block::new(0, 1), Block::new(1, 1), Block::new(2, 1), Block::new(2, 2)],
            rotation: Rotation::Four(Four::Right),
            origin: Block::new(1, 1),
            color: Color::Blue,
            coords: Vector2D::default(),
        }
    }

    /// The L-shaped piece.
    pub fn l() -> (r: Tetromino)
        ensures
            r == spec_piece_l(),
            spec_piece_wf(r),
    {
        Tetromino {
            blocks: [Block::new(0, 1), Block::new(1, 1), Block::new(2, 1), Block::new(0, 2)],
            rotation: Rotation::Four(Four::Right),
            origin: Block::new(1, 1),
            color: Color::White,
            coords: Vector2D::default(),
        }
    }

    /// The piece a random draw in `0..7` stands for.
    pub fn from_index(index: u32) -> (r: Tetromino)
        requires
            index < 7,
        ensures
            r == spec_piece(index),
            spec_piece_wf(r),
    {
        match index {
            0 => Tetromino::i(),
            1 => Tetromino::o(),
            2 => Tetromino::t(),
            3 => Tetromino::s(),
            4 => Tetromino::z(),
            5 => Tetromino::j(),
            _ => Tetromino::l(),
        }
    }

    /// Move the piece one column to the right.
    pub fn move_right(&mut self)
        requires
            old(self).coords.x < i32::MAX,
        ensures
            final(self).coords.x == old(self).coords.x + 1,
            final(self).coords.y == old(self).coords.y,
            final(self).blocks == old(self).blocks,
            final(self).rotation == old(self).rotation,
            final(self).origin == old(self).origin,
            final(self).color == old(self).color,
    {
        self.coords.x = self.coords.x + 1;
    }

    /// Move the piece one column to the left.
    pub fn move_left(&mut self)
        requires
            old(self).coords.x > i32::MIN,
        ensures
            final(self).coords.x == old(self).coords.x - 1,
            final(self).coords.y == old(self).coords.y,
            final(self).blocks == old(self).blocks,
            final(self).rotation == old(self).rotation,
            final(self).origin == old(self).origin,
            final(self).color == old(self).color,
    {
        self.coords.x = self.coords.x - 1;
    }

    /// Move the piece one row down.
    pub fn move_down(&mut self)
        requires
            old(self).coords.y < i32::MAX,
        ensures
            final(self).coords.y == old(self).coords.y + 1,
            final(self).coords.x == old(self).coords.x,
            final(self).blocks == old(self).blocks,
            final(self).rotation == old(self).rotation,
            final(self).origin == old(self).origin,
            final(self).color == old(self).color,
    {
        self.coords.y = self.coords.y + 1;
    }

    /// Move the piece one row up.
    pub fn move_up(&mut self)
        requires
            old(self).coords.y > i32::MIN,
        ensures
            final(self).coords.y == old(self).coords.y - 1,
            final(self).coords.x == old(self).coords.x,
            final(self).blocks == old(self).blocks,
            final(self).rotation == old(self).rotation,
            final(self).origin == old(self).origin,
            final(self).color == old(self).color,
    {
        self.coords.y = self.coords.y - 1;
    }

    /// Turn the piece one step: pieces with two orientations alternate
    /// between a counter-clockwise and a clockwise quarter turn, pieces
    /// with four orientations keep turning counter-clockwise, and the
    /// square piece never turns.  The turn is about the origin block
    /// and keeps the piece well shaped.
    pub fn rotate(&mut self)
        requires
            spec_piece_wf(*old(self)),
        ensures
            spec_piece_wf(*final(self)),
            *final(self) == spec_rotated(*old(self)),
            final(self).origin == old(self).origin,
            final(self).coords == old(self).coords,
            final(self).color == old(self).color,
            match old(self).rotation {
                Rotation::Fixed => *final(self) == *old(self),
                Rotation::Two(two) => {
                    let m = if two is Right {
                        Matrix2D { x0: 0i32, x1: 1i32, y0: -1i32, y1: 0i32 }
                    } else {
                        Matrix2D { x0: 0i32, x1: -1i32, y0: 1i32, y1: 0i32 }
                    };
                    &&& final(self).rotation == Rotation::Two(
                        if two is Right {
                            Two::Up
                        } else {
                            Two::Right
                        },
                    )
                    &&& blocks_rotated(final(self).blocks, old(self).blocks, old(self).origin, m)
                },
                Rotation::Four(four) => {
                    &&& final(self).rotation == Rotation::Four(
                        match four {
                            Four::Down => Four::Right,
                            Four::Right => Four::Up,
                            Four::Up => Four::Left,
                            Four::Left => Four::Down,
                        },
                    )
                    &&& blocks_rotated(
                        final(self).blocks,
                        old(self).blocks,
                        old(self).origin,
                        Matrix2D { x0: 0i32, x1: 1i32, y0: -1i32, y1: 0i32 },
                    )
                },
            },
    {
        match self.rotation {
            Rotation::Fixed => (),
            Rotation::Two(two) => match two {
                Two::Right => {
                    let m = rotate_ccw();
                    self.rotate_by(&m);
                    self.rotation = Rotation::Two(Two::Up);
                },
                Two::Up => {
                    let m = rotate_cw();
                    self.rotate_by(&m);
                    self.rotation = Rotation::Two(Two::Right);
                },
            },
            Rotation::Four(four) => {
                self.rotation = Rotation::Four(
                    match four {
                        Four::Down => Four::Right,
                        Four::Right => Four::Up,
                        Four::Up => Four::Left,
                        Four::Left => Four::Down,
                    },
                );
                let m = rotate_ccw();
                self.rotate_by(&m);
            },
        }
        proof {
            if !(old(self).rotation is Fixed) {
                assert(self.blocks =~= spec_rotated(*old(self)).blocks);
            }
        }
    }

    /// Rotate every block about the origin block with the given
    /// quarter-turn matrix.
    fn rotate_by(&mut self, rotation: &Matrix2D)
        requires
            spec_piece_wf(*old(self)),
            rotation.x0 == 0 && rotation.y1 == 0,
            (rotation.x1 == 1 && rotation.y0 == -1) || (rotation.x1 == -1 && rotation.y0 == 1),
        ensures
            spec_piece_wf(*final(self)),
            final(self).rotation == old(self).rotation,
            final(self).origin == old(self).origin,
            final(self).coords == old(self).coords,
            final(self).color == old(self).color,
            blocks_rotated(final(self).blocks, old(self).blocks, old(self).origin, *rotation),
    {
        let b0 = Block { vec: self.blocks[0].vec.rotate(&self.origin.vec, rotation) };
        let b1 = Block { vec: self.blocks[1].vec.rotate(&self.origin.vec, rotation) };
        let b2 = Block { vec: self.blocks[2].vec.rotate(&self.origin.vec, rotation) };
        let b3 = Block { vec: self.blocks[3].vec.rotate(&self.origin.vec, rotation) };
        self.blocks = [b0, b1, b2, b3];
    }

    /// The piece's blocks in field coordinates: each block's position
    /// offset by the piece's position.
    pub fn offset_blocks(&self) -> (r: [Block; 4])
        requires
            spec_piece_wf(*self),
            -1000000 <= self.coords.x <= 1000000,
            -1000000 <= self.coords.y <= 1000000,
        ensures
            forall|i: int|
                0 <= i < 4 ==> #[trigger] r[i].vec.x == self.blocks[i].vec.x + self.coords.x
                    && r[i].vec.y == self.blocks[i].vec.y + self.coords.y,
    {
        [self.offset_block(0), self.offset_block(1), self.offset_block(2), self.offset_block(3)]
    }

    /// One block of the piece in field coordinates.
    fn offset_block(&self, index: usize) -> (r: Block)
        requires
            spec_piece_wf(*self),
            index < 4,
            -1000000 <= self.coords.x <= 1000000,
            -1000000 <= self.coords.y <= 1000000,
        ensures
            r.vec.x == self.blocks[index as int].vec.x + self.coords.x,
            r.vec.y == self.blocks[index as int].vec.y + self.coords.y,
    {
        Block {
            vec: Vector2D {
                x: self.blocks[index].vec.x + self.coords.x,
                y: self.blocks[index].vec.y + self.coords.y,
            },
        }
    }
}

/// One block rotated about the origin block with the matrix `m`.
pub open spec fn spec_rotated_block(b: Block, origin: Block, m: Matrix2D) -> Block {
    Block {
        vec: Vector2D {
            x: spec_rotate_x(b.vec, origin.vec, m) as i32,
            y: spec_rotate_y(b.vec, origin.vec, m) as i32,
        },
    }
}

/// The quarter-turn matrix a piece in the given rotation state turns
/// with next.
pub open spec fn spec_turn_matrix(r: Rotation) -> Matrix2D {
    match r {
        Rotation::Two(Two::Up) => Matrix2D { x0: 0i32, x1: -1i32, y0: 1i32, y1: 0i32 },
        _ => Matrix2D { x0: 0i32, x1: 1i32, y0: -1i32, y1: 0i32 },
    }
}

/// The rotation state a piece is in after one turn.
pub open spec fn spec_next_rotation(r: Rotation) -> Rotation {
    match r {
        Rotation::Fixed => Rotation::Fixed,
        Rotation::Two(Two::Right) => Rotation::Two(Two::Up),
        Rotation::Two(Two::Up) => Rotation::Two(Two::Right),
        Rotation::Four(Four::Down) => Rotation::Four(Four::Right),
        Rotation::Four(Four::Right) => Rotation::Four(Four::Up),
        Rotation::Four(Four::Up) => Rotation::Four(Four::Left),
        Rotation::Four(Four::Left) => Rotation::Four(Four::Down),
    }
}

/// The piece after one turn: every block rotated about the origin with
/// the turn matrix, and the rotation state advanced.  A piece that
/// never turns is unchanged.
pub open spec fn spec_rotated(t: Tetromino) -> Tetromino {
    if t.rotation is Fixed {
        t
    } else {
        let m = spec_turn_matrix(t.rotation);
        Tetromino {
            blocks: [
                spec_rotated_block(t.blocks[0], t.origin, m),
                spec_rotated_block(t.blocks[1], t.origin, m),
                spec_rotated_block(t.blocks[2], t.origin, m),
                spec_rotated_block(t.blocks[3], t.origin, m),
            ],
            rotation: spec_next_rotation(t.rotation),
            ..t
        }
    }
}

/// The blocks `nb` are the blocks `ob` rotated about the origin block
/// with the matrix `m`.
pub open spec fn blocks_rotated(nb: [Block; 4], ob: [Block; 4], origin: Block, m: Matrix2D) -> bool {
    forall|i: int|
        0 <= i < 4 ==> #[trigger] nb[i].vec.x == spec_rotate_x(ob[i].vec, origin.vec, m)
            && nb[i].vec.y == spec_rotate_y(ob[i].vec, origin.vec, m)
}

} // verus!
