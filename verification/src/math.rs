//! Integer 2D vectors and the two quarter-turn rotation matrices used to
//! rotate game pieces about their origin block.

use vstd::prelude::*;

verus! {

/// A 2x2 integer matrix, row by row.
pub struct Matrix2D {
    /// Top-left entry.
    pub x0: i32,
    /// Top-right entry.
    pub x1: i32,
    /// Bottom-left entry.
    pub y0: i32,
    /// Bottom-right entry.
    pub y1: i32,
}

/// The quarter turn counter-clockwise.
pub fn rotate_ccw() -> (r: Matrix2D)
    ensures
        r.x0 == 0 && r.x1 == 1 && r.y0 == -1 && r.y1 == 0,
{
    Matrix2D { x0: 0, x1: 1, y0: -1, y1: 0 }
}

/// The quarter turn clockwise.
pub fn rotate_cw() -> (r: Matrix2D)
    ensures
        r.x0 == 0 && r.x1 == -1 && r.y0 == 1 && r.y1 == 0,
{
    Matrix2D { x0: 0, x1: -1, y0: 1, y1: 0 }
}

/// An integer position or displacement on the playing field.
#[derive(Debug, Clone, Copy, PartialEq, Eq, Structural, Hash)]
pub struct Vector2D {
    /// Horizontal component, growing rightwards.
    pub x: i32,
    /// Vertical component, growing downwards.
    pub y: i32,
}

/// Where the rotation `m` about `c` carries the point `v`, horizontally.
pub open spec fn spec_rotate_x(v: Vector2D, c: Vector2D, m: Matrix2D) -> int {
    m.x0 * v.x + m.x1 * v.y + c.x - m.x0 * c.x - m.x1 * c.y
}

/// Where the rotation `m` about `c` carries the point `v`, vertically.
pub open spec fn spec_rotate_y(v: Vector2D, c: Vector2D, m: Matrix2D) -> int {
    m.y0 * v.x + m.y1 * v.y + c.y - m.y0 * c.x - m.y1 * c.y
}

impl Vector2D {
    /// The spawn position of a game piece.  This is deliberately an
    /// inherent function, not the std trait of the same name.
    pub fn default() -> (r: Self)
        ensures
            r.x == 3 && r.y == 0,
    {
        Self { x: 3, y: 0 }
    }

    /// Rotate this point about `center` with the rotation matrix `rot`,
    /// whose entries are at most one in magnitude.
    pub fn rotate(&self, center: &Vector2D, rot: &Matrix2D) -> (r: Vector2D)
        requires
            -1 <= rot.x0 <= 1,
            -1 <= rot.x1 <= 1,
            -1 <= rot.y0 <= 1,
            -1 <= rot.y1 <= 1,
            -1000000 <= self.x <= 1000000,
            -1000000 <= self.y <= 1000000,
            -1000000 <= center.x <= 1000000,
            -1000000 <= center.y <= 1000000,
        ensures
            r.x == spec_rotate_x(*self, *center, *rot),
            r.y == spec_rotate_y(*self, *center, *rot),
    {
        proof {
            lemma_small_products(rot.x0 as int, self.x as int);
            lemma_small_products(rot.x1 as int, self.y as int);
            lemma_small_products(rot.x0 as int, center.x as int);
            lemma_small_products(rot.x1 as int, center.y as int);
            lemma_small_products(rot.y0 as int, self.x as int);
            lemma_small_products(rot.y1 as int, self.y as int);
            lemma_small_products(rot.y0 as int, center.x as int);
            lemma_small_products(rot.y1 as int, center.y as int);
        }
        Vector2D {
            x: rot.x0 * self.x + rot.x1 * self.y + center.x - rot.x0 * center.x - rot.x1
                * center.y,
            y: rot.y0 * self.x + rot.y1 * self.y + center.y - rot.y0 * center.x - rot.y1
                * center.y,
        }
    }
}

/// A product of a factor of magnitude at most one and a bounded factor
/// is bounded the same way.
proof fn lemma_small_products(m: int, v: int)
    requires
        -1 <= m <= 1,
        -1000000 <= v <= 1000000,
    ensures
        -1000000 <= m * v <= 1000000,
{
    assert(-1000000 <= m * v <= 1000000) by (nonlinear_arith)
        requires
            -1 <= m <= 1,
            -1000000 <= v <= 1000000,
    ;
}

} // verus!
