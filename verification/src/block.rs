use vstd::prelude::*;

use crate::color::Color;

verus! {

pub const BOARD_WIDTH: usize = 10;

pub const BOARD_HEIGHT: usize = 20;

/// A grid position; `y` grows downward, so row 0 is the top of the board.
#[derive(Copy, Clone, Debug, PartialEq, Eq, Structural)]
pub struct Coord {
    pub x: usize,
    pub y: usize,
}

/// A four-cell piece. The four coordinates are labelled: the rotation
/// transform recognises the current orientation by comparing them, so their
/// roles are fixed per shape. The color tag identifies the shape.
#[derive(Copy, Clone, Debug, PartialEq, Eq, Structural)]
pub struct Block {
    pub a: Coord,
    pub b: Coord,
    pub c: Coord,
    pub d: Coord,
    pub color: Color,
}

/// The four labelled cells sit at the given coordinates.
pub open spec fn cells_at(
    blk: Block,
    ax: int,
    ay: int,
    bx: int,
    by: int,
    cx: int,
    cy: int,
    dx: int,
    dy: int,
) -> bool {
    &&& blk.a.x == ax
    &&& blk.a.y == ay
    &&& blk.b.x == bx
    &&& blk.b.y == by
    &&& blk.c.x == cx
    &&& blk.c.y == cy
    &&& blk.d.x == dx
    &&& blk.d.y == dy
}

// Each orientation predicate fixes the silhouette relative to cell `a` and
// bounds the anchor so that every cell is on the board. Some carry a lower
// bound on `y` that is tighter than the board edge: it holds of every
// position reachable from the spawn points (rotation only ever produces the
// orientation that far down), and the rotation transform needs it to stay on
// the board.

/// I piece standing upright.
pub open spec fn i_vertical(blk: Block) -> bool {
    let x = blk.a.x as int;
    let y = blk.a.y as int;
    &&& cells_at(blk, x, y, x, y + 1, x, y + 2, x, y + 3)
    &&& x <= 9
    &&& y + 3 <= 19
}

/// I piece lying flat; rotation carved it out of the upright form, which
/// keeps it at least two rows down.
pub open spec fn i_horizontal(blk: Block) -> bool {
    let x = blk.a.x as int;
    let y = blk.a.y as int;
    &&& cells_at(blk, x, y, x + 1, y, x + 2, y, x + 3, y)
    &&& x + 3 <= 9
    &&& 2 <= y <= 19
}

/// O piece; its rotation is the identity.
pub open spec fn o_square(blk: Block) -> bool {
    let x = blk.a.x as int;
    let y = blk.a.y as int;
    &&& cells_at(blk, x, y, x, y + 1, x + 1, y, x + 1, y + 1)
    &&& x + 1 <= 9
    &&& y + 1 <= 19
}

/// S piece standing upright.
pub open spec fn s_vertical(blk: Block) -> bool {
    let x = blk.a.x as int;
    let y = blk.a.y as int;
    &&& cells_at(blk, x, y, x, y + 1, x + 1, y + 1, x + 1, y + 2)
    &&& x + 1 <= 9
    &&& y + 2 <= 19
}

/// S piece lying flat, at least two rows down.
pub open spec fn s_horizontal(blk: Block) -> bool {
    let x = blk.a.x as int;
    let y = blk.a.y as int;
    &&& cells_at(blk, x, y, x + 1, y - 1, x + 2, y - 1, x + 1, y)
    &&& x + 2 <= 9
    &&& 2 <= y <= 19
}

/// Z piece standing upright.
pub open spec fn z_vertical(blk: Block) -> bool {
    let x = blk.a.x as int;
    let y = blk.a.y as int;
    &&& cells_at(blk, x, y, x - 1, y + 1, x, y + 1, x - 1, y + 2)
    &&& 1 <= x <= 9
    &&& y + 2 <= 19
}

/// Z piece lying flat, at least two rows down.
pub open spec fn z_horizontal(blk: Block) -> bool {
    let x = blk.a.x as int;
    let y = blk.a.y as int;
    &&& cells_at(blk, x, y, x - 1, y - 1, x, y - 1, x + 1, y)
    &&& 1 <= x <= 8
    &&& 2 <= y <= 19
}

/// L piece: bar down, foot to the bottom right.
pub open spec fn l_down(blk: Block) -> bool {
    let x = blk.a.x as int;
    let y = blk.a.y as int;
    &&& cells_at(blk, x, y, x, y + 1, x, y + 2, x + 1, y + 2)
    &&& x + 1 <= 9
    &&& y + 2 <= 19
}

/// L piece: bar flat, corner at the top right; at least two rows down.
pub open spec fn l_left(blk: Block) -> bool {
    let x = blk.a.x as int;
    let y = blk.a.y as int;
    &&& cells_at(blk, x, y, x + 1, y, x + 2, y, x + 2, y - 1)
    &&& x + 2 <= 9
    &&& 2 <= y <= 19
}

/// L piece: bar up, foot to the top left; at least two rows down.
pub open spec fn l_up(blk: Block) -> bool {
    let x = blk.a.x as int;
    let y = blk.a.y as int;
    &&& cells_at(blk, x, y, x, y - 1, x, y - 2, x - 1, y - 2)
    &&& 1 <= x <= 9
    &&& 2 <= y <= 19
}

/// L piece: bar flat, corner at the bottom left; at least one row down.
pub open spec fn l_right(blk: Block) -> bool {
    let x = blk.a.x as int;
    let y = blk.a.y as int;
    &&& cells_at(blk, x, y, x - 1, y, x - 2, y, x - 2, y + 1)
    &&& 2 <= x <= 9
    &&& 1 <= y <= 18
}

/// J piece: bar down, foot to the top right.
pub open spec fn j_down(blk: Block) -> bool {
    let x = blk.a.x as int;
    let y = blk.a.y as int;
    &&& cells_at(blk, x, y, x, y + 1, x, y + 2, x + 1, y)
    &&& x + 1 <= 9
    &&& y + 2 <= 19
}

/// J piece: bar flat, corner at the top left; at least two rows down.
pub open spec fn j_left(blk: Block) -> bool {
    let x = blk.a.x as int;
    let y = blk.a.y as int;
    &&& cells_at(blk, x, y, x + 1, y, x + 2, y, x, y - 1)
    &&& x + 2 <= 9
    &&& 2 <= y <= 19
}

/// J piece: bar up, foot to the bottom left; at least two rows down.
pub open spec fn j_up(blk: Block) -> bool {
    let x = blk.a.x as int;
    let y = blk.a.y as int;
    &&& cells_at(blk, x, y, x, y - 1, x, y - 2, x - 1, y)
    &&& 1 <= x <= 9
    &&& 2 <= y <= 19
}

/// J piece: bar flat, corner at the bottom right; at least one row down.
pub open spec fn j_right(blk: Block) -> bool {
    let x = blk.a.x as int;
    let y = blk.a.y as int;
    &&& cells_at(blk, x, y, x - 1, y, x - 2, y, x, y + 1)
    &&& 2 <= x <= 9
    &&& 1 <= y <= 18
}

/// T piece: bar down, nub to the west.
pub open spec fn t_west(blk: Block) -> bool {
    let x = blk.a.x as int;
    let y = blk.a.y as int;
    &&& cells_at(blk, x, y, x, y + 1, x, y + 2, x - 1, y + 1)
    &&& 1 <= x <= 9
    &&& y + 2 <= 19
}

/// T piece: bar flat, nub to the south; at least one row down.
pub open spec fn t_south(blk: Block) -> bool {
    let x = blk.a.x as int;
    let y = blk.a.y as int;
    &&& cells_at(blk, x, y, x + 1, y, x + 2, y, x + 1, y + 1)
    &&& x + 2 <= 9
    &&& 1 <= y <= 18
}

/// T piece: bar down, nub to the east.
pub open spec fn t_east(blk: Block) -> bool {
    let x = blk.a.x as int;
    let y = blk.a.y as int;
    &&& cells_at(blk, x, y, x, y + 1, x, y + 2, x + 1, y + 1)
    &&& x + 1 <= 9
    &&& y + 2 <= 19
}

/// T piece: bar flat, nub to the north; at least two rows down.
pub open spec fn t_north(blk: Block) -> bool {
    let x = blk.a.x as int;
    let y = blk.a.y as int;
    &&& cells_at(blk, x, y, x + 1, y, x + 2, y, x + 1, y - 1)
    &&& x + 2 <= 9
    &&& 2 <= y <= 19
}

/// The block sits in one of its shape's reachable orientations, wholly on
/// the board. This is the invariant every engine-held block maintains.
pub open spec fn valid_block(blk: Block) -> bool {
    match blk.color {
        Color::GREEN => i_vertical(blk) || i_horizontal(blk),
        Color::BLUE => o_square(blk),
        Color::RED => s_vertical(blk) || s_horizontal(blk),
        Color::YELLOW => z_vertical(blk) || z_horizontal(blk),
        Color::MAGENTA => l_down(blk) || l_left(blk) || l_up(blk) || l_right(blk),
        Color::CYAN => j_down(blk) || j_left(blk) || j_up(blk) || j_right(blk),
        Color::WHITE => t_west(blk) || t_south(blk) || t_east(blk) || t_north(blk),
        _ => false,
    }
}

/// Every cell of the block lies within the 10x20 board.
pub open spec fn block_in_bounds(blk: Block) -> bool {
    &&& blk.a.x < 10 && blk.a.y < 20
    &&& blk.b.x < 10 && blk.b.y < 20
    &&& blk.c.x < 10 && blk.c.y < 20
    &&& blk.d.x < 10 && blk.d.y < 20
}

pub proof fn lemma_valid_in_bounds(blk: Block)
    requires
        valid_block(blk),
    ensures
        block_in_bounds(blk),
{
}

/// The four cells of a block in a reachable orientation are pairwise
/// distinct: a silhouette never folds onto itself.
pub proof fn lemma_valid_cells_distinct(blk: Block)
    requires
        valid_block(blk),
    ensures
        blk.a != blk.b,
        blk.a != blk.c,
        blk.a != blk.d,
        blk.b != blk.c,
        blk.b != blk.d,
        blk.c != blk.d,
{
}

/// The block translated by (dx, dy).
pub open spec fn shifted(blk: Block, dx: int, dy: int) -> Block {
    Block {
        a: Coord { x: (blk.a.x + dx) as usize, y: (blk.a.y + dy) as usize },
        b: Coord { x: (blk.b.x + dx) as usize, y: (blk.b.y + dy) as usize },
        c: Coord { x: (blk.c.x + dx) as usize, y: (blk.c.y + dy) as usize },
        d: Coord { x: (blk.d.x + dx) as usize, y: (blk.d.y + dy) as usize },
        color: blk.color,
    }
}

/// A block literal from eight coordinates; the arguments are mathematical
/// integers so that callers can write offsets freely.
pub open spec fn block_at(
    ax: int,
    ay: int,
    bx: int,
    by: int,
    cx: int,
    cy: int,
    dx: int,
    dy: int,
    color: Color,
) -> Block {
    Block {
        a: Coord { x: ax as usize, y: ay as usize },
        b: Coord { x: bx as usize, y: by as usize },
        c: Coord { x: cx as usize, y: cy as usize },
        d: Coord { x: dx as usize, y: dy as usize },
        color,
    }
}

/// One quarter rotation of the block, as the engine performs it: each shape
/// recognises its current orientation by comparing its labelled cells, then
/// moves to the next orientation of its cycle. When the rotated silhouette
/// would cross the right board edge, the whole result is shifted one column
/// left in the same step (the I piece also corrects at the left and bottom
/// edges). The square, and a block wearing a color no shape owns, is left
/// unchanged.
pub open spec fn turned(blk: Block) -> Block {
    let ax = blk.a.x as int;
    let ay = blk.a.y as int;
    match blk.color {
        Color::GREEN => {
            if blk.a.x != blk.b.x {
                // lying flat -> upright (corrects at the bottom edge)
                let x = ax + 2;
                let y: int = if blk.a.y == 19 {
                    16
                } else {
                    ay - 2
                };
                block_at(x, y, x, y + 1, x, y + 2, x, y + 3, blk.color)
            } else {
                // upright -> lying flat (corrects at both side edges)
                let x: int = if blk.a.x == 9 {
                    6
                } else if blk.a.x < 2 {
                    0
                } else {
                    ax - 2
                };
                let y = ay + 2;
                block_at(x, y, x + 1, y, x + 2, y, x + 3, y, blk.color)
            }
        },
        Color::RED => {
            if blk.a.x != blk.b.x {
                // lying flat -> upright
                block_at(ax, ay - 2, ax, ay - 1, ax + 1, ay - 1, ax + 1, ay, blk.color)
            } else {
                // upright -> lying flat
                let x: int = if blk.d.x == 9 {
                    ax - 1
                } else {
                    ax
                };
                let y = ay + 2;
                block_at(x, y, x + 1, y - 1, x + 2, y - 1, x + 1, y, blk.color)
            }
        },
        Color::YELLOW => {
            if blk.a.y == blk.d.y {
                // lying flat -> upright
                block_at(ax, ay - 2, ax - 1, ay - 1, ax, ay - 1, ax - 1, ay, blk.color)
            } else {
                // upright -> lying flat
                let x: int = if blk.c.x == 9 {
                    ax - 2
                } else {
                    ax - 1
                };
                block_at(x + 1, ay + 2, x, ay + 1, x + 1, ay + 1, x + 2, ay + 2, blk.color)
            }
        },
        Color::MAGENTA => {
            if blk.c.x + 1 == blk.d.x {
                // bar down -> bar flat, corner top right
                let x: int = if blk.d.x == 9 {
                    ax - 1
                } else {
                    ax
                };
                block_at(x, ay + 2, x + 1, ay + 2, x + 2, ay + 2, x + 2, ay + 1, blk.color)
            } else if blk.d.y + 1 == blk.a.y {
                // bar flat, corner top right -> bar up
                block_at(ax + 1, ay, ax + 1, ay - 1, ax + 1, ay - 2, ax, ay - 2, blk.color)
            } else if blk.d.x + 1 == blk.c.x {
                // bar up -> bar flat, corner bottom left
                let x: int = if blk.c.x == 9 {
                    ax - 2
                } else {
                    ax - 1
                };
                block_at(x + 2, ay - 1, x + 1, ay - 1, x, ay - 1, x, ay, blk.color)
            } else {
                // bar flat, corner bottom left -> bar down
                block_at(ax - 2, ay - 1, ax - 2, ay, ax - 2, ay + 1, ax - 1, ay + 1, blk.color)
            }
        },
        Color::CYAN => {
            if blk.a.x + 1 == blk.d.x {
                // bar down -> bar flat, corner top left
                let x: int = if blk.d.x == 9 {
                    ax - 1
                } else {
                    ax
                };
                block_at(x, ay + 2, x + 1, ay + 2, x + 2, ay + 2, x, ay + 1, blk.color)
            } else if blk.a.y == blk.d.y + 1 {
                // bar flat, corner top left -> bar up
                block_at(ax + 1, ay, ax + 1, ay - 1, ax + 1, ay - 2, ax, ay, blk.color)
            } else if blk.a.x == blk.d.x + 1 {
                // bar up -> bar flat, corner bottom right
                let x: int = if blk.c.x == 9 {
                    ax - 2
                } else {
                    ax - 1
                };
                block_at(x + 2, ay - 1, x + 1, ay - 1, x, ay - 1, x + 2, ay, blk.color)
            } else {
                // bar flat, corner bottom right -> bar down
                block_at(ax - 2, ay - 1, ax - 2, ay, ax - 2, ay + 1, ax - 1, ay - 1, blk.color)
            }
        },
        Color::WHITE => {
            if blk.d.x + 1 == blk.a.x {
                // nub west -> nub south
                let x: int = if blk.a.x == 9 {
                    ax - 2
                } else {
                    ax - 1
                };
                let y = ay + 1;
                block_at(x, y, x + 1, y, x + 2, y, x + 1, y + 1, blk.color)
            } else if blk.d.y == blk.c.y + 1 {
                // nub south -> nub east
                block_at(ax, ay - 1, ax, ay, ax, ay + 1, ax + 1, ay, blk.color)
            } else if blk.b.x + 1 == blk.d.x {
                // nub east -> nub north
                let x: int = if blk.d.x == 9 {
                    ax - 1
                } else {
                    ax
                };
                block_at(x, ay + 2, x + 1, ay + 2, x + 2, ay + 2, x + 1, ay + 1, blk.color)
            } else {
                // nub north -> nub west
                block_at(ax + 1, ay - 2, ax + 1, ay - 1, ax + 1, ay, ax, ay - 1, blk.color)
            }
        },
        _ => blk,
    }
}

/// The edge correction fires on this block: `turned` does not purely rotate
/// it but also shifts it sideways (or, for the flat I piece at the bottom
/// row, upward) to keep it on the board.
pub open spec fn turn_kicks(blk: Block) -> bool {
    match blk.color {
        Color::GREEN => if blk.a.x != blk.b.x {
            blk.d.y == 19
        } else {
            blk.d.x == 9 || blk.d.x < 2
        },
        Color::RED => if blk.a.x != blk.b.x {
            false
        } else {
            blk.d.x == 9
        },
        Color::YELLOW => if blk.a.y == blk.d.y {
            false
        } else {
            blk.c.x == 9
        },
        Color::MAGENTA => if blk.c.x + 1 == blk.d.x {
            blk.d.x == 9
        } else if blk.d.y + 1 == blk.a.y {
            false
        } else if blk.d.x + 1 == blk.c.x {
            blk.c.x == 9
        } else {
            false
        },
        Color::CYAN => if blk.a.x + 1 == blk.d.x {
            blk.d.x == 9
        } else if blk.a.y == blk.d.y + 1 {
            false
        } else if blk.a.x == blk.d.x + 1 {
            blk.c.x == 9
        } else {
            false
        },
        Color::WHITE => if blk.d.x + 1 == blk.a.x {
            blk.a.x == 9
        } else if blk.d.y == blk.c.y + 1 {
            false
        } else if blk.b.x + 1 == blk.d.x {
            blk.d.x == 9
        } else {
            false
        },
        _ => false,
    }
}

/// Every shape's orientation cycle has length 1, 2 or 4, so four forward
/// rotations restore the block exactly — provided the edge correction fires
/// in none of the four steps. The proviso is why the engine reverts a
/// rejected rotation by restoring the saved coordinates rather than by
/// rotating three more times: a correction in the cycle leaves the piece a
/// column over.
#[verifier::rlimit(100)]
pub proof fn lemma_turn_four_identity(blk: Block)
    requires
        valid_block(blk),
        !turn_kicks(blk),
        !turn_kicks(turned(blk)),
        !turn_kicks(turned(turned(blk))),
        !turn_kicks(turned(turned(turned(blk)))),
    ensures
        turned(turned(turned(turned(blk)))) == blk,
{
    let b1 = turned(blk);
    let b2 = turned(b1);
    let b3 = turned(b2);
    match blk.color {
        Color::GREEN => {
            if i_vertical(blk) {
                assert(i_horizontal(b1));
                assert(b2 == blk);
            } else {
                assert(i_vertical(b1));
                assert(b2 == blk);
            }
        },
        Color::BLUE => {
            assert(b1 == blk);
        },
        Color::RED => {
            if s_vertical(blk) {
                assert(s_horizontal(b1));
                assert(b2 == blk);
            } else {
                assert(s_vertical(b1));
                assert(b2 == blk);
            }
        },
        Color::YELLOW => {
            if z_vertical(blk) {
                assert(z_horizontal(b1));
                assert(b2 == blk);
            } else {
                assert(z_vertical(b1));
                assert(b2 == blk);
            }
        },
        Color::MAGENTA => {
            if l_down(blk) {
                assert(l_left(b1));
                assert(l_up(b2));
                assert(l_right(b3));
                assert(turned(b3) == blk);
            } else if l_left(blk) {
                assert(l_up(b1));
                assert(l_right(b2));
                assert(l_down(b3));
                assert(turned(b3) == blk);
            } else if l_up(blk) {
                assert(l_right(b1));
                assert(l_down(b2));
                assert(l_left(b3));
                assert(turned(b3) == blk);
            } else {
                assert(l_down(b1));
                assert(l_left(b2));
                assert(l_up(b3));
                assert(turned(b3) == blk);
            }
        },
        Color::CYAN => {
            if j_down(blk) {
                assert(j_left(b1));
                assert(j_up(b2));
                assert(j_right(b3));
                assert(turned(b3) == blk);
            } else if j_left(blk) {
                assert(j_up(b1));
                assert(j_right(b2));
                assert(j_down(b3));
                assert(turned(b3) == blk);
            } else if j_up(blk) {
                assert(j_right(b1));
                assert(j_down(b2));
                assert(j_left(b3));
                assert(turned(b3) == blk);
            } else {
                assert(j_down(b1));
                assert(j_left(b2));
                assert(j_up(b3));
                assert(turned(b3) == blk);
            }
        },
        Color::WHITE => {
            if t_west(blk) {
                assert(t_south(b1));
                assert(t_east(b2));
                assert(t_north(b3));
                assert(turned(b3) == blk);
            } else if t_south(blk) {
                assert(t_east(b1));
                assert(t_north(b2));
                assert(t_west(b3));
                assert(turned(b3) == blk);
            } else if t_east(blk) {
                assert(t_north(b1));
                assert(t_west(b2));
                assert(t_south(b3));
                assert(turned(b3) == blk);
            } else {
                assert(t_west(b1));
                assert(t_south(b2));
                assert(t_east(b3));
                assert(turned(b3) == blk);
            }
        },
        _ => {
            assert(false);
        },
    }
}

/// No cell is on the bottom row, so the block may shift down.
pub open spec fn can_shift_down(blk: Block) -> bool {
    blk.a.y <= 18 && blk.b.y <= 18 && blk.c.y <= 18 && blk.d.y <= 18
}

/// No cell is on the rightmost column, so the block may shift right.
pub open spec fn can_shift_right(blk: Block) -> bool {
    blk.a.x <= 8 && blk.b.x <= 8 && blk.c.x <= 8 && blk.d.x <= 8
}

/// No cell is on the leftmost column, so the block may shift left.
pub open spec fn can_shift_left(blk: Block) -> bool {
    blk.a.x >= 1 && blk.b.x >= 1 && blk.c.x >= 1 && blk.d.x >= 1
}

impl Block {
    /// Rotates the block a quarter turn in place, with the edge correction
    /// described at `turned`. The caller checks board legality afterwards
    /// and, on rejection, restores the coordinates it saved beforehand.
    pub fn turn(&mut self)
        requires
            valid_block(*old(self)),
        ensures
            *final(self) == turned(*old(self)),
            valid_block(*final(self)),
    {
        match self.color {
            Color::GREEN => {
                if self.a.x != self.b.x {
                    let x = self.a.x + 2;
                    let y = if self.a.y == BOARD_HEIGHT - 1 {
                        16
                    } else {
                        self.a.y - 2
                    };
                    self.a = Coord { x, y };
                    self.b = Coord { x, y: y + 1 };
                    self.c = Coord { x, y: y + 2 };
                    self.d = Coord { x, y: y + 3 };
                } else {
                    let x = if self.a.x == BOARD_WIDTH - 1 {
                        6
                    } else if self.a.x < 2 {
                        0
                    } else {
                        self.a.x - 2
                    };
                    let y = self.a.y + 2;
                    self.a = Coord { x, y };
                    self.b = Coord { x: x + 1, y };
                    self.c = Coord { x: x + 2, y };
                    self.d = Coord { x: x + 3, y };
                }
            },
            Color::RED => {
                if self.a.x != self.b.x {
                    let x = self.a.x;
                    let y = self.a.y - 2;
                    self.a = Coord { x, y };
                    self.b = Coord { x, y: y + 1 };
                    self.c = Coord { x: x + 1, y: y + 1 };
                    self.d = Coord { x: x + 1, y: y + 2 };
                } else {
                    let x = if self.d.x == BOARD_WIDTH - 1 {
                        self.a.x - 1
                    } else {
                        self.a.x
                    };
                    let y = self.a.y + 2;
                    self.a = Coord { x, y };
                    self.b = Coord { x: x + 1, y: y - 1 };
                    self.c = Coord { x: x + 2, y: y - 1 };
                    self.d = Coord { x: x + 1, y };
                }
            },
            Color::YELLOW => {
                if self.a.y == self.d.y {
                    let x = self.a.x;
                    let y = self.a.y - 2;
                    self.a = Coord { x, y };
                    self.b = Coord { x: x - 1, y: y + 1 };
                    self.c = Coord { x, y: y + 1 };
                    self.d = Coord { x: x - 1, y: y + 2 };
                } else {
                    let x = if self.c.x == BOARD_WIDTH - 1 {
                        self.a.x - 2
                    } else {
                        self.a.x - 1
                    };
                    let y = self.a.y;
                    self.a = Coord { x: x + 1, y: y + 2 };
                    self.b = Coord { x, y: y + 1 };
                    self.c = Coord { x: x + 1, y: y + 1 };
                    self.d = Coord { x: x + 2, y: y + 2 };
                }
            },
            Color::MAGENTA => {
                if self.c.x + 1 == self.d.x {
                    let x = if self.d.x == BOARD_WIDTH - 1 {
                        self.a.x - 1
                    } else {
                        self.a.x
                    };
                    let y = self.a.y;
                    self.a = Coord { x, y: y + 2 };
                    self.b = Coord { x: x + 1, y: y + 2 };
                    self.c = Coord { x: x + 2, y: y + 2 };
                    self.d = Coord { x: x + 2, y: y + 1 };
                } else if self.d.y + 1 == self.a.y {
                    let x = self.a.x;
                    let y = self.a.y;
                    self.a = Coord { x: x + 1, y };
                    self.b = Coord { x: x + 1, y: y - 1 };
                    self.c = Coord { x: x + 1, y: y - 2 };
                    self.d = Coord { x, y: y - 2 };
                } else if self.d.x + 1 == self.c.x {
                    let x = if self.c.x == BOARD_WIDTH - 1 {
                        self.a.x - 2
                    } else {
                        self.a.x - 1
                    };
                    let y = self.a.y;
                    self.a = Coord { x: x + 2, y: y - 1 };
                    self.b = Coord { x: x + 1, y: y - 1 };
                    self.c = Coord { x, y: y - 1 };
                    self.d = Coord { x, y };
                } else {
                    let x = self.a.x;
                    let y = self.a.y;
                    self.a = Coord { x: x - 2, y: y - 1 };
                    self.b = Coord { x: x - 2, y };
                    self.c = Coord { x: x - 2, y: y + 1 };
                    self.d = Coord { x: x - 1, y: y + 1 };
                }
            },
            Color::CYAN => {
                if self.a.x + 1 == self.d.x {
                    let x = if self.d.x == BOARD_WIDTH - 1 {
                        self.a.x - 1
                    } else {
                        self.a.x
                    };
                    let y = self.a.y;
                    self.a = Coord { x, y: y + 2 };
                    self.b = Coord { x: x + 1, y: y + 2 };
                    self.c = Coord { x: x + 2, y: y + 2 };
                    self.d = Coord { x, y: y + 1 };
                } else if self.a.y == self.d.y + 1 {
                    let x = self.a.x;
                    let y = self.a.y;
                    self.a = Coord { x: x + 1, y };
                    self.b = Coord { x: x + 1, y: y - 1 };
                    self.c = Coord { x: x + 1, y: y - 2 };
                    self.d = Coord { x, y };
                } else if self.a.x == self.d.x + 1 {
                    let x = if self.c.x == BOARD_WIDTH - 1 {
                        self.a.x - 2
                    } else {
                        self.a.x - 1
                    };
                    let y = self.a.y;
                    self.a = Coord { x: x + 2, y: y - 1 };
                    self.b = Coord { x: x + 1, y: y - 1 };
                    self.c = Coord { x, y: y - 1 };
                    self.d = Coord { x: x + 2, y };
                } else {
                    let x = self.a.x;
                    let y = self.a.y;
                    self.a = Coord { x: x - 2, y: y - 1 };
                    self.b = Coord { x: x - 2, y };
                    self.c = Coord { x: x - 2, y: y + 1 };
                    self.d = Coord { x: x - 1, y: y - 1 };
                }
            },
            Color::WHITE => {
                if self.d.x + 1 == self.a.x {
                    let x = if self.a.x == BOARD_WIDTH - 1 {
                        self.a.x - 2
                    } else {
                        self.a.x - 1
                    };
                    let y = self.a.y + 1;
                    self.a = Coord { x, y };
                    self.b = Coord { x: x + 1, y };
                    self.c = Coord { x: x + 2, y };
                    self.d = Coord { x: x + 1, y: y + 1 };
                } else if self.d.y == self.c.y + 1 {
                    let x = self.a.x;
                    let y = self.a.y;
                    self.a = Coord { x, y: y - 1 };
                    self.b = Coord { x, y };
                    self.c = Coord { x, y: y + 1 };
                    self.d = Coord { x: x + 1, y };
                } else if self.b.x + 1 == self.d.x {
                    let x = if self.d.x == BOARD_WIDTH - 1 {
                        self.a.x - 1
                    } else {
                        self.a.x
                    };
                    let y = self.a.y;
                    self.a = Coord { x, y: y + 2 };
                    self.b = Coord { x: x + 1, y: y + 2 };
                    self.c = Coord { x: x + 2, y: y + 2 };
                    self.d = Coord { x: x + 1, y: y + 1 };
                } else {
                    let x = self.a.x;
                    let y = self.a.y;
                    self.a = Coord { x: x + 1, y: y - 2 };
                    self.b = Coord { x: x + 1, y: y - 1 };
                    self.c = Coord { x: x + 1, y };
                    self.d = Coord { x, y: y - 1 };
                }
            },
            _ => {
                // the square: rotation is the identity
            },
        }
    }

    /// Raises the block one row. Only ever used to undo a just-validated
    /// downward shift, so it performs no edge check of its own.
    pub fn move_up(&mut self)
        requires
            old(self).a.y >= 1,
            old(self).b.y >= 1,
            old(self).c.y >= 1,
            old(self).d.y >= 1,
        ensures
            *final(self) == shifted(*old(self), 0, -1),
    {
        self.a.y -= 1;
        self.b.y -= 1;
        self.c.y -= 1;
        self.d.y -= 1;
    }

    /// Lowers the block one row unless a cell would leave the board.
    pub fn move_down(&mut self) -> (moved: bool)
        ensures
            moved == can_shift_down(*old(self)),
            moved ==> *final(self) == shifted(*old(self), 0, 1),
            !moved ==> *final(self) == *old(self),
            moved && valid_block(*old(self)) ==> valid_block(*final(self)),
    {
        if self.a.y > 18 || self.b.y > 18 || self.c.y > 18 || self.d.y > 18 {
            return false;
        }
        self.a.y += 1;
        self.b.y += 1;
        self.c.y += 1;
        self.d.y += 1;
        true
    }

    /// Shifts the block one column right unless a cell would leave the board.
    pub fn move_right(&mut self) -> (moved: bool)
        ensures
            moved == can_shift_right(*old(self)),
            moved ==> *final(self) == shifted(*old(self), 1, 0),
            !moved ==> *final(self) == *old(self),
            moved && valid_block(*old(self)) ==> valid_block(*final(self)),
    {
        if self.a.x > 8 || self.b.x > 8 || self.c.x > 8 || self.d.x > 8 {
            return false;
        }
        self.a.x += 1;
        self.b.x += 1;
        self.c.x += 1;
        self.d.x += 1;
        true
    }

    /// Shifts the block one column left unless a cell would leave the board.
    pub fn move_left(&mut self) -> (moved: bool)
        ensures
            moved == can_shift_left(*old(self)),
            moved ==> *final(self) == shifted(*old(self), -1, 0),
            !moved ==> *final(self) == *old(self),
            moved && valid_block(*old(self)) ==> valid_block(*final(self)),
    {
        if self.a.x < 1 || self.b.x < 1 || self.c.x < 1 || self.d.x < 1 {
            return false;
        }
        self.a.x -= 1;
        self.b.x -= 1;
        self.c.x -= 1;
        self.d.x -= 1;
        true
    }
}

} // verus!
