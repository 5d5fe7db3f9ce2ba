use vstd::prelude::*;

use rand::Rng;

use crate::block::{
    block_at, block_in_bounds, can_shift_down, can_shift_left, can_shift_right, i_vertical,
    j_down, l_down, lemma_valid_in_bounds, o_square, s_vertical, shifted, t_west, turned,
    valid_block, z_vertical, Block, Coord,
};
use crate::color::Color;

verus! {

// The board is a 10x20 occupancy matrix, stored flat in row-major order:
// cell (x, y) lives at index y * 10 + x, and holds 0 when empty or the
// color code of the piece that settled there.

/// The cell value at (x, y).
pub open spec fn grid_cell(g: Seq<u8>, x: int, y: int) -> u8 {
    g[y * 10 + x]
}

/// Every column of row `y` is occupied.
pub open spec fn row_complete(g: Seq<u8>, y: int) -> bool {
    forall|x: int| 0 <= x < 10 ==> grid_cell(g, x, y) != 0
}

/// No row of the board is complete; this holds between commits, because
/// clearing removes every complete row.
pub open spec fn no_complete_row(g: Seq<u8>) -> bool {
    forall|y: int| 0 <= y < 20 ==> !row_complete(g, y)
}

/// The board after clearing row `yy` and collapsing: every row above `yy`
/// moves down one row, the top row becomes empty, rows below `yy` keep their
/// contents.
pub open spec fn collapse_at(g: Seq<u8>, yy: int) -> Seq<u8> {
    Seq::new(10, |i: int| 0u8) + g.subrange(0, 10 * yy) + g.subrange(10 * yy + 10, 200)
}

/// Cellwise reading of `collapse_at`: the top row is empty, rows 1..=yy hold
/// what stood one row higher, rows below are untouched.
pub proof fn lemma_collapse_cell(g: Seq<u8>, yy: int)
    requires
        g.len() == 200,
        0 <= yy < 20,
    ensures
        collapse_at(g, yy).len() == 200,
        forall|i: int|
            0 <= i < 200 ==> collapse_at(g, yy)[i] == (if i < 10 {
                0u8
            } else if i < 10 * yy + 10 {
                g[i - 10]
            } else {
                g[i]
            }),
{
}

/// The single top-to-bottom clearing pass, from row `y` to the bottom: each
/// complete row is collapsed the moment the scan reaches it. Collapsing moves
/// content only toward rows the scan has not visited yet, so every row that
/// is complete when the pass starts is found without rewinding. Yields the
/// final board and the number of rows cleared.
pub open spec fn cascade(g: Seq<u8>, y: int) -> (Seq<u8>, nat)
    decreases 20 - y,
{
    if y < 0 || y >= 20 {
        (g, 0nat)
    } else if row_complete(g, y) {
        let rest = cascade(collapse_at(g, y), y + 1);
        (rest.0, (rest.1 + 1) as nat)
    } else {
        cascade(g, y + 1)
    }
}

/// Rows the pass has not reached are untouched by a collapse, so skipping a
/// stretch of incomplete rows does not change its outcome.
proof fn lemma_cascade_skip(g: Seq<u8>, y: int, z: int)
    requires
        g.len() == 200,
        0 <= y <= z <= 20,
        forall|r: int| y <= r < z ==> !row_complete(g, r),
    ensures
        cascade(g, y) == cascade(g, z),
    decreases z - y,
{
    if y < z {
        lemma_cascade_skip(g, y + 1, z);
    }
}

/// The board a clearing pass leaves behind has no complete row: cleared rows
/// are empty, shifted rows keep their cells, and untouched rows were already
/// checked.
proof fn lemma_cascade_clean(g: Seq<u8>, y: int)
    requires
        g.len() == 200,
        0 <= y <= 20,
        forall|r: int| 0 <= r < y ==> !row_complete(g, r),
    ensures
        cascade(g, y).0.len() == 200,
        no_complete_row(cascade(g, y).0),
    decreases 20 - y,
{
    if y >= 20 {
    } else if row_complete(g, y) {
        let g2 = collapse_at(g, y);
        lemma_collapse_cell(g, y);
        assert forall|r: int| 0 <= r < y + 1 implies !row_complete(g2, r) by {
            if r == 0 {
                assert(grid_cell(g2, 0, 0) == 0);
            } else {
                let rm = r - 1;
                assert(!row_complete(g, rm));
                let wx = choose|x: int| 0 <= x < 10 && grid_cell(g, x, rm) == 0;
                assert(grid_cell(g2, wx, r) == g[(r - 1) * 10 + wx]);
                assert(grid_cell(g2, wx, r) == 0);
            }
        }
        lemma_cascade_clean(g2, y + 1);
    } else {
        lemma_cascade_clean(g, y + 1);
    }
}

/// 1 when the condition holds, 0 otherwise; used to count cleared rows.
pub open spec fn one_if(cond: bool) -> nat {
    if cond {
        1nat
    } else {
        0nat
    }
}

/// If every complete row at or below row `y` is one of the four given rows,
/// the pass from `y` clears at most those rows that lie at or below `y`.
proof fn lemma_cascade_count_le(g: Seq<u8>, y: int, r1: int, r2: int, r3: int, r4: int)
    requires
        g.len() == 200,
        0 <= y <= 20,
        forall|r: int|
            y <= r < 20 && row_complete(g, r) ==> r == r1 || r == r2 || r == r3 || r == r4,
    ensures
        cascade(g, y).1 <= one_if(y <= r1) + one_if(y <= r2) + one_if(y <= r3) + one_if(y <= r4),
    decreases 20 - y,
{
    if y >= 20 {
    } else if row_complete(g, y) {
        let g2 = collapse_at(g, y);
        lemma_collapse_cell(g, y);
        assert forall|r: int|
            y + 1 <= r < 20 && row_complete(g2, r) implies r == r1 || r == r2 || r == r3 || r
            == r4 by {
            assert forall|x: int| 0 <= x < 10 implies grid_cell(g, x, r) != 0 by {
                assert(grid_cell(g2, x, r) == g[r * 10 + x]);
            }
            assert(row_complete(g, r));
        }
        lemma_cascade_count_le(g2, y + 1, r1, r2, r3, r4);
        assert(y == r1 || y == r2 || y == r3 || y == r4);
    } else {
        lemma_cascade_count_le(g, y + 1, r1, r2, r3, r4);
    }
}

/// Clearing the one complete row `yy` shifts every row above it down by
/// exactly one, empties the top row, and leaves every row below `yy`
/// untouched.
pub proof fn lemma_single_row_clear(g: Seq<u8>, yy: int)
    requires
        g.len() == 200,
        0 <= yy < 20,
        row_complete(g, yy),
        forall|r: int| 0 <= r < 20 && r != yy ==> !row_complete(g, r),
    ensures
        cascade(g, 0).1 == 1,
        cascade(g, 0).0 == collapse_at(g, yy),
        forall|x: int| 0 <= x < 10 ==> grid_cell(cascade(g, 0).0, x, 0) == 0,
        forall|x: int, y: int|
            0 <= x < 10 && 1 <= y <= yy ==> grid_cell(cascade(g, 0).0, x, y) == grid_cell(
                g,
                x,
                y - 1,
            ),
        forall|x: int, y: int|
            0 <= x < 10 && yy < y < 20 ==> grid_cell(cascade(g, 0).0, x, y) == grid_cell(g, x, y),
{
    lemma_cascade_skip(g, 0, yy);
    let g2 = collapse_at(g, yy);
    lemma_collapse_cell(g, yy);
    assert forall|r: int| yy + 1 <= r < 20 implies !row_complete(g2, r) by {
        assert(!row_complete(g, r));
        let wx = choose|x: int| 0 <= x < 10 && grid_cell(g, x, r) == 0;
        assert(grid_cell(g2, wx, r) == g[r * 10 + wx]);
        assert(grid_cell(g2, wx, r) == 0);
    }
    lemma_cascade_skip(g2, yy + 1, 20);
    assert(cascade(g, 0) == (g2, 1nat));
}

/// Two collapses commute in the sense a single pass needs: collapsing the
/// upper complete row `y1` first and then the (non-adjacent) lower row `y2`
/// leaves the same board as collapsing `y2` first and then the upper row,
/// which the first collapse has pushed down to `y1 + 1`.
pub proof fn lemma_collapse_commutes(g: Seq<u8>, y1: int, y2: int)
    requires
        g.len() == 200,
        0 <= y1,
        y1 + 1 < y2 < 20,
    ensures
        collapse_at(collapse_at(g, y1), y2) == collapse_at(collapse_at(g, y2), y1 + 1),
{
    lemma_collapse_cell(g, y1);
    lemma_collapse_cell(g, y2);
    lemma_collapse_cell(collapse_at(g, y1), y2);
    lemma_collapse_cell(collapse_at(g, y2), y1 + 1);
    assert(collapse_at(collapse_at(g, y1), y2) =~= collapse_at(collapse_at(g, y2), y1 + 1));
}

/// A pass over a board whose only complete rows are `y1` and `y2` clears
/// exactly those two, upper row first.
pub proof fn lemma_double_row_clear(g: Seq<u8>, y1: int, y2: int)
    requires
        g.len() == 200,
        0 <= y1 < y2 < 20,
        row_complete(g, y1),
        row_complete(g, y2),
        forall|r: int| 0 <= r < 20 && r != y1 && r != y2 ==> !row_complete(g, r),
    ensures
        cascade(g, 0).1 == 2,
        cascade(g, 0).0 == collapse_at(collapse_at(g, y1), y2),
{
    lemma_cascade_skip(g, 0, y1);
    let g2 = collapse_at(g, y1);
    lemma_collapse_cell(g, y1);
    assert forall|r: int| y1 + 1 <= r < 20 implies row_complete(g2, r) == row_complete(g, r) by {
        assert forall|x: int| 0 <= x < 10 implies grid_cell(g2, x, r) == grid_cell(g, x, r) by {
            assert(grid_cell(g2, x, r) == g[r * 10 + x]);
        }
    }
    assert forall|r: int| y1 + 1 <= r < y2 implies !row_complete(g2, r) by {
        assert(!row_complete(g, r));
    }
    lemma_cascade_skip(g2, y1 + 1, y2);
    assert(row_complete(g2, y2));
    let g3 = collapse_at(g2, y2);
    lemma_collapse_cell(g2, y2);
    assert forall|r: int| y2 + 1 <= r < 20 implies !row_complete(g3, r) by {
        assert(!row_complete(g2, r));
        let wx = choose|x: int| 0 <= x < 10 && grid_cell(g2, x, r) == 0;
        assert(grid_cell(g3, wx, r) == g2[r * 10 + wx]);
        assert(grid_cell(g3, wx, r) == 0);
    }
    lemma_cascade_skip(g3, y2 + 1, 20);
    assert(cascade(g, 0) == (g3, 2nat));
}

/// Cementing changes only the block's four cells, so on a board with no
/// complete row, a row can become complete only where the block touched it.
proof fn lemma_cemented_rows(g: Seq<u8>, blk: Block)
    requires
        g.len() == 200,
        no_complete_row(g),
        block_in_bounds(blk),
    ensures
        forall|r: int|
            0 <= r < 20 && row_complete(cemented(g, blk), r) ==> r == blk.a.y || r == blk.b.y || r
                == blk.c.y || r == blk.d.y,
{
    let g1 = cemented(g, blk);
    assert forall|r: int|
        0 <= r < 20 && r != blk.a.y && r != blk.b.y && r != blk.c.y && r
            != blk.d.y implies !row_complete(g1, r) by {
        assert(!row_complete(g, r));
        let wx = choose|x: int| 0 <= x < 10 && grid_cell(g, x, r) == 0;
        assert(grid_cell(g1, wx, r) == 0);
    }
}

/// The per-commit score bonus for simultaneously cleared rows.
pub open spec fn line_bonus(lines: int) -> int {
    if lines == 1 {
        100
    } else if lines == 2 {
        250
    } else if lines == 3 {
        500
    } else if lines == 4 {
        800
    } else {
        0
    }
}

/// The block's four cells written into the board with its color code.
pub open spec fn cemented(g: Seq<u8>, blk: Block) -> Seq<u8> {
    g.update(blk.a.y * 10 + blk.a.x, blk.color.spec_code()).update(
        blk.b.y * 10 + blk.b.x,
        blk.color.spec_code(),
    ).update(blk.c.y * 10 + blk.c.x, blk.color.spec_code()).update(
        blk.d.y * 10 + blk.d.x,
        blk.color.spec_code(),
    )
}

/// All four cells of the block sit on the board over empty grid cells; the
/// engine accepts a speculative move exactly when this holds.
pub open spec fn spec_legal(blk: Block, g: Seq<u8>) -> bool {
    &&& blk.a.x < 10 && blk.a.y < 20 && grid_cell(g, blk.a.x as int, blk.a.y as int) == 0
    &&& blk.b.x < 10 && blk.b.y < 20 && grid_cell(g, blk.b.x as int, blk.b.y as int) == 0
    &&& blk.c.x < 10 && blk.c.y < 20 && grid_cell(g, blk.c.x as int, blk.c.y as int) == 0
    &&& blk.d.x < 10 && blk.d.y < 20 && grid_cell(g, blk.d.x as int, blk.d.y as int) == 0
}

/// The fixed spawn position of each of the 7 shapes, in the order the
/// random draw indexes them.
pub open spec fn spec_spawn_block(i: int) -> Block {
    if i == 0 {
        block_at(4, 0, 4, 1, 4, 2, 4, 3, Color::GREEN)
    } else if i == 1 {
        block_at(4, 0, 4, 1, 5, 0, 5, 1, Color::BLUE)
    } else if i == 2 {
        block_at(4, 0, 4, 1, 5, 1, 5, 2, Color::RED)
    } else if i == 3 {
        block_at(5, 0, 4, 1, 5, 1, 4, 2, Color::YELLOW)
    } else if i == 4 {
        block_at(4, 0, 4, 1, 4, 2, 5, 2, Color::MAGENTA)
    } else if i == 5 {
        block_at(4, 0, 4, 1, 4, 2, 5, 0, Color::CYAN)
    } else {
        block_at(5, 0, 5, 1, 5, 2, 4, 1, Color::WHITE)
    }
}

/// The block stands at one of the 7 spawn positions.
pub open spec fn is_spawn_block(blk: Block) -> bool {
    exists|i: int| 0 <= i < 7 && blk == spec_spawn_block(i)
}

pub proof fn lemma_spawn_block_valid(blk: Block)
    requires
        is_spawn_block(blk),
    ensures
        valid_block(blk),
{
    let i = choose|i: int| 0 <= i < 7 && blk == spec_spawn_block(i);
    if i == 0 {
        assert(i_vertical(blk));
    } else if i == 1 {
        assert(o_square(blk));
    } else if i == 2 {
        assert(s_vertical(blk));
    } else if i == 3 {
        assert(z_vertical(blk));
    } else if i == 4 {
        assert(l_down(blk));
    } else if i == 5 {
        assert(j_down(blk));
    } else {
        assert(t_west(blk));
    }
}

/// The spawn position of shape `i`.
pub fn spawn_block(i: usize) -> (blk: Block)
    requires
        i < 7,
    ensures
        blk == spec_spawn_block(i as int),
        is_spawn_block(blk),
        valid_block(blk),
{
    let blk = if i == 0 {
        Block {
            a: Coord { x: 4, y: 0 },
            b: Coord { x: 4, y: 1 },
            c: Coord { x: 4, y: 2 },
            d: Coord { x: 4, y: 3 },
            color: Color::GREEN,
        }
    } else if i == 1 {
        Block {
            a: Coord { x: 4, y: 0 },
            b: Coord { x: 4, y: 1 },
            c: Coord { x: 5, y: 0 },
            d: Coord { x: 5, y: 1 },
            color: Color::BLUE,
        }
    } else if i == 2 {
        Block {
            a: Coord { x: 4, y: 0 },
            b: Coord { x: 4, y: 1 },
            c: Coord { x: 5, y: 1 },
            d: Coord { x: 5, y: 2 },
            color: Color::RED,
        }
    } else if i == 3 {
        Block {
            a: Coord { x: 5, y: 0 },
            b: Coord { x: 4, y: 1 },
            c: Coord { x: 5, y: 1 },
            d: Coord { x: 4, y: 2 },
            color: Color::YELLOW,
        }
    } else if i == 4 {
        Block {
            a: Coord { x: 4, y: 0 },
            b: Coord { x: 4, y: 1 },
            c: Coord { x: 4, y: 2 },
            d: Coord { x: 5, y: 2 },
            color: Color::MAGENTA,
        }
    } else if i == 5 {
        Block {
            a: Coord { x: 4, y: 0 },
            b: Coord { x: 4, y: 1 },
            c: Coord { x: 4, y: 2 },
            d: Coord { x: 5, y: 0 },
            color: Color::CYAN,
        }
    } else {
        Block {
            a: Coord { x: 5, y: 0 },
            b: Coord { x: 5, y: 1 },
            c: Coord { x: 5, y: 2 },
            d: Coord { x: 4, y: 1 },
            color: Color::WHITE,
        }
    };
    proof {
        assert(blk == spec_spawn_block(i as int));
        lemma_spawn_block_valid(blk);
    }
    blk
}

/// Relies on rand: `Rng::gen_range(0..7)` returns a value drawn from that
/// range, so the result is always below 7; the range is nonempty, so the
/// call does not panic. Nothing else is assumed of the draw.
#[verifier::external_body]
fn random_shape_index() -> (r: usize)
    ensures
        r < 7,
{
    rand::thread_rng().gen_range(0..7)
}

/// A uniformly drawn shape at its spawn position.
fn random_block() -> (blk: Block)
    ensures
        is_spawn_block(blk),
        valid_block(blk),
{
    spawn_block(random_shape_index())
}

/// The engine: the settled board, the falling block, the queued block, and
/// the derived statistics.
pub struct Game {
    pub board: Vec<u8>,
    pub block: Block,
    pub next_block: Block,
    pub lines_cleared: u32,
    pub level: usize,
    pub score: u32,
}

impl Game {
    /// The engine invariant: the board has its fixed size and no complete
    /// row (clearing removed every one), the falling block sits in a
    /// reachable orientation on the board, the queued block waits at its
    /// spawn position, and the level is within the speed table.
    pub open spec fn wf(self) -> bool {
        &&& self.board@.len() == 200
        &&& valid_block(self.block)
        &&& is_spawn_block(self.next_block)
        &&& no_complete_row(self.board@)
        &&& self.level <= 10
    }

    /// A fresh game: empty board, zeroed statistics, and two randomly drawn
    /// blocks.
    pub fn new() -> (game: Game)
        ensures
            game.wf(),
            forall|i: int| 0 <= i < 200 ==> game.board@[i] == 0,
            is_spawn_block(game.block),
            is_spawn_block(game.next_block),
            game.lines_cleared == 0,
            game.level == 0,
            game.score == 0,
    {
        let mut board: Vec<u8> = Vec::new();
        let mut i: usize = 0;
        while i < 200
            invariant
                i <= 200,
                board@.len() == i,
                forall|j: int| 0 <= j < i ==> board@[j] == 0,
            decreases 200 - i,
        {
            board.push(0u8);
            i += 1;
        }
        let game = Game {
            board,
            block: random_block(),
            next_block: random_block(),
            lines_cleared: 0,
            level: 0,
            score: 0,
        };
        proof {
            assert forall|y: int| 0 <= y < 20 implies !row_complete(game.board@, y) by {
                assert(grid_cell(game.board@, 0, y) == 0);
            }
        }
        game
    }

    /// The grid cell under `coord` is empty.
    pub fn check_free(&self, coord: &Coord) -> (free: bool)
        requires
            self.board@.len() == 200,
            coord.x < 10,
            coord.y < 20,
        ensures
            free == (grid_cell(self.board@, coord.x as int, coord.y as int) == 0),
    {
        self.board[coord.y * 10 + coord.x] == 0
    }

    /// The falling block stands wholly on the board over empty cells.
    pub fn legal_move(&self) -> (legal: bool)
        requires
            self.board@.len() == 200,
        ensures
            legal == spec_legal(self.block, self.board@),
    {
        let blk = self.block;
        (blk.a.x < 10 && blk.a.y < 20 && self.check_free(&blk.a)) && (blk.b.x < 10 && blk.b.y < 20
            && self.check_free(&blk.b)) && (blk.c.x < 10 && blk.c.y < 20 && self.check_free(
            &blk.c,
        )) && (blk.d.x < 10 && blk.d.y < 20 && self.check_free(&blk.d))
    }

    /// One of the block's four cells sits at (x, y); a renderer uses this to
    /// paint the falling block over the settled board.
    pub fn match_block(block: Block, x: usize, y: usize) -> (covers: bool)
        ensures
            covers == ((block.a.x == x && block.a.y == y) || (block.b.x == x && block.b.y == y) || (
            block.c.x == x && block.c.y == y) || (block.d.x == x && block.d.y == y)),
    {
        block.a.x == x && block.a.y == y || block.b.x == x && block.b.y == y || block.c.x == x
            && block.c.y == y || block.d.x == x && block.d.y == y
    }

    /// Every column of row `line` is occupied.
    pub fn line_complete(&self, line: usize) -> (complete: bool)
        requires
            self.board@.len() == 200,
            line < 20,
        ensures
            complete == row_complete(self.board@, line as int),
    {
        let mut x: usize = 0;
        while x < 10
            invariant
                self.board@.len() == 200,
                line < 20,
                x <= 10,
                forall|k: int| 0 <= k < x ==> grid_cell(self.board@, k, line as int) != 0,
            decreases 10 - x,
        {
            if self.board[line * 10 + x] == 0 {
                assert(grid_cell(self.board@, x as int, line as int) == 0);
                return false;
            }
            x += 1;
        }
        true
    }

    /// Empties row `line`.
    pub fn clear_line(&mut self, line: usize)
        requires
            old(self).board@.len() == 200,
            line < 20,
        ensures
            final(self).board@.len() == 200,
            forall|i: int|
                0 <= i < 200 ==> final(self).board@[i] == (if 10 * line <= i < 10 * line + 10 {
                    0u8
                } else {
                    old(self).board@[i]
                }),
            final(self).block == old(self).block,
            final(self).next_block == old(self).next_block,
            final(self).lines_cleared == old(self).lines_cleared,
            final(self).level == old(self).level,
            final(self).score == old(self).score,
    {
        let mut x: usize = 0;
        while x < 10
            invariant
                self.board@.len() == 200,
                line < 20,
                x <= 10,
                forall|i: int|
                    0 <= i < 200 ==> self.board@[i] == (if 10 * line <= i < 10 * line + x {
                        0u8
                    } else {
                        old(self).board@[i]
                    }),
                self.block == old(self).block,
                self.next_block == old(self).next_block,
                self.lines_cleared == old(self).lines_cleared,
                self.level == old(self).level,
                self.score == old(self).score,
            decreases 10 - x,
        {
            self.board.set(line * 10 + x, 0u8);
            x += 1;
        }
    }

    /// Copies every row above `start_above_line` one row downward, from the
    /// row just above it up to the top; the top row keeps its old contents
    /// (the caller clears it).
    pub fn move_lines_down(&mut self, start_above_line: usize)
        requires
            old(self).board@.len() == 200,
            start_above_line < 20,
        ensures
            final(self).board@.len() == 200,
            forall|i: int|
                0 <= i < 200 ==> final(self).board@[i] == (if 10 <= i < 10 * start_above_line
                    + 10 {
                    old(self).board@[i - 10]
                } else {
                    old(self).board@[i]
                }),
            final(self).block == old(self).block,
            final(self).next_block == old(self).next_block,
            final(self).lines_cleared == old(self).lines_cleared,
            final(self).level == old(self).level,
            final(self).score == old(self).score,
    {
        let mut j: usize = 0;
        while j < start_above_line
            invariant
                self.board@.len() == 200,
                start_above_line < 20,
                j <= start_above_line,
                forall|i: int|
                    0 <= i < 200 ==> self.board@[i] == (if 10 * (start_above_line - j) + 10 <= i
                        < 10 * start_above_line + 10 {
                        old(self).board@[i - 10]
                    } else {
                        old(self).board@[i]
                    }),
                self.block == old(self).block,
                self.next_block == old(self).next_block,
                self.lines_cleared == old(self).lines_cleared,
                self.level == old(self).level,
                self.score == old(self).score,
            decreases start_above_line - j,
        {
            let src_row = start_above_line - 1 - j;
            let mut x: usize = 0;
            while x < 10
                invariant
                    self.board@.len() == 200,
                    start_above_line < 20,
                    j < start_above_line,
                    src_row == start_above_line - 1 - j,
                    x <= 10,
                    forall|i: int|
                        0 <= i < 200 ==> self.board@[i] == (if 10 * src_row + 10 <= i < 10 * src_row
                            + 10 + x || 10 * (start_above_line - j) + 10 <= i < 10
                            * start_above_line + 10 {
                            old(self).board@[i - 10]
                        } else {
                            old(self).board@[i]
                        }),
                    self.block == old(self).block,
                    self.next_block == old(self).next_block,
                    self.lines_cleared == old(self).lines_cleared,
                    self.level == old(self).level,
                    self.score == old(self).score,
                decreases 10 - x,
            {
                let value = self.board[src_row * 10 + x];
                self.board.set(src_row * 10 + 10 + x, value);
                x += 1;
            }
            j += 1;
        }
    }

    /// Runs one clearing pass over the whole board and adds the number of
    /// cleared rows to the cumulative count. Afterwards no complete row
    /// remains.
    pub fn clear_lines(&mut self) -> (lines: u32)
        requires
            old(self).board@.len() == 200,
            old(self).lines_cleared <= u32::MAX - 20,
        ensures
            final(self).board@ == cascade(old(self).board@, 0).0,
            lines as nat == cascade(old(self).board@, 0).1,
            lines <= 20,
            final(self).board@.len() == 200,
            no_complete_row(final(self).board@),
            final(self).lines_cleared == old(self).lines_cleared + lines,
            final(self).block == old(self).block,
            final(self).next_block == old(self).next_block,
            final(self).level == old(self).level,
            final(self).score == old(self).score,
    {
        let ghost g0 = self.board@;
        let mut lines: u32 = 0;
        let mut y: usize = 0;
        while y < 20
            invariant
                self.board@.len() == 200,
                y <= 20,
                lines <= y,
                cascade(g0, 0).0 == cascade(self.board@, y as int).0,
                cascade(g0, 0).1 == lines + cascade(self.board@, y as int).1,
                self.block == old(self).block,
                self.next_block == old(self).next_block,
                self.lines_cleared == old(self).lines_cleared,
                self.level == old(self).level,
                self.score == old(self).score,
            decreases 20 - y,
        {
            if self.line_complete(y) {
                lines += 1;
                let ghost gprev = self.board@;
                self.clear_line(y);
                self.move_lines_down(y);
                self.clear_line(0);
                proof {
                    lemma_collapse_cell(gprev, y as int);
                    assert(self.board@ =~= collapse_at(gprev, y as int));
                }
            }
            y += 1;
        }
        proof {
            lemma_cascade_clean(g0, 0);
        }
        self.lines_cleared = self.lines_cleared + lines;
        lines
    }

    /// Adds the bonus for `lines` simultaneously cleared rows. The board
    /// geometry admits at most four rows per commit; any other count would
    /// signal an engine defect and is excluded rather than clamped.
    pub fn add_lines_to_score(&mut self, lines: u32)
        requires
            1 <= lines <= 4,
            old(self).score <= u32::MAX - 800,
        ensures
            final(self).score == old(self).score + line_bonus(lines as int),
            final(self).board == old(self).board,
            final(self).block == old(self).block,
            final(self).next_block == old(self).next_block,
            final(self).lines_cleared == old(self).lines_cleared,
            final(self).level == old(self).level,
    {
        match lines {
            1 => self.score += 100,
            2 => self.score += 250,
            3 => self.score += 500,
            _ => self.score += 800,
        }
    }

    /// Settles the falling block into the board, awards the placement bonus,
    /// runs the clearing pass, scores the cleared rows, and advances the
    /// level once the cumulative count reaches ten rows per level step.
    /// Returns the number of rows this commit cleared; four of them is the
    /// distinguished celebration the caller may signal.
    pub fn cement_block(&mut self) -> (lines: u32)
        requires
            old(self).wf(),
            old(self).score <= u32::MAX - 810,
            old(self).lines_cleared <= u32::MAX - 20,
        ensures
            final(self).wf(),
            final(self).board@ == cascade(cemented(old(self).board@, old(self).block), 0).0,
            lines as nat == cascade(cemented(old(self).board@, old(self).block), 0).1,
            lines <= 4,
            final(self).score == old(self).score + 10 + line_bonus(lines as int),
            final(self).lines_cleared == old(self).lines_cleared + lines,
            final(self).block == old(self).block,
            final(self).next_block == old(self).next_block,
            lines == 0 ==> final(self).level == old(self).level,
            lines > 0 ==> final(self).level == (if old(self).lines_cleared + lines >= (old(
                self,
            ).level + 1) * 10 {
                if old(self).level < 10 {
                    (old(self).level + 1) as usize
                } else {
                    10usize
                }
            } else {
                old(self).level
            }),
            old(self).level <= final(self).level <= 10,
    {
        proof {
            lemma_valid_in_bounds(self.block);
        }
        let blk = self.block;
        let code = blk.color.code();
        self.board.set(blk.a.y * 10 + blk.a.x, code);
        self.board.set(blk.b.y * 10 + blk.b.x, code);
        self.board.set(blk.c.y * 10 + blk.c.x, code);
        self.board.set(blk.d.y * 10 + blk.d.x, code);
        self.score += 10;
        proof {
            assert(self.board@ == cemented(old(self).board@, blk));
            lemma_cemented_rows(old(self).board@, blk);
            lemma_cascade_count_le(
                self.board@,
                0,
                blk.a.y as int,
                blk.b.y as int,
                blk.c.y as int,
                blk.d.y as int,
            );
        }
        let lines = self.clear_lines();
        if lines > 0 {
            self.add_lines_to_score(lines);
            if self.lines_cleared >= ((self.level + 1) * 10) as u32 {
                self.level = if self.level < 10 {
                    self.level + 1
                } else {
                    10
                };
            }
        }
        lines
    }

    /// Promotes the queued block to the falling one at its spawn position and
    /// draws a fresh queued block. Returns false — game over — exactly when
    /// one of the four spawn cells is already occupied; the promoted block is
    /// left in place either way, and the caller must stop driving the engine.
    pub fn next_block(&mut self) -> (alive: bool)
        requires
            old(self).wf(),
        ensures
            final(self).wf(),
            final(self).block == old(self).next_block,
            is_spawn_block(final(self).next_block),
            final(self).board == old(self).board,
            final(self).lines_cleared == old(self).lines_cleared,
            final(self).level == old(self).level,
            final(self).score == old(self).score,
            alive == spec_legal(old(self).next_block, old(self).board@),
    {
        proof {
            lemma_spawn_block_valid(self.next_block);
            lemma_valid_in_bounds(self.next_block);
        }
        self.block = self.next_block;
        self.next_block = random_block();
        if self.board[self.block.a.y * 10 + self.block.a.x] != 0 || self.board[self.block.b.y * 10
            + self.block.b.x] != 0 || self.board[self.block.c.y * 10 + self.block.c.x] != 0
            || self.board[self.block.d.y * 10 + self.block.d.x] != 0 {
            return false;
        }
        true
    }

    /// Rotates the falling block, keeping the result only if it is legal on
    /// the board. A rejected rotation restores the stored pre-attempt
    /// coordinates directly, so the block is left bit-identical: rotating
    /// three more times would not do, because an edge correction in the
    /// cycle shifts the piece sideways (`lemma_turn_four_identity` holds
    /// only where no correction fires).
    pub fn turn_block(&mut self) -> (turned_ok: bool)
        requires
            old(self).wf(),
        ensures
            final(self).wf(),
            final(self).board == old(self).board,
            final(self).next_block == old(self).next_block,
            final(self).lines_cleared == old(self).lines_cleared,
            final(self).level == old(self).level,
            final(self).score == old(self).score,
            turned_ok == spec_legal(turned(old(self).block), old(self).board@),
            turned_ok ==> final(self).block == turned(old(self).block),
            !turned_ok ==> final(self).block == old(self).block,
    {
        let before = self.block;
        self.block.turn();
        if !self.legal_move() {
            self.block = before;
            return false;
        }
        true
    }

    /// Lowers the falling block one row if the board edge and occupancy
    /// allow; a rejected shift leaves the block exactly as it was.
    pub fn move_block_down(&mut self) -> (moved: bool)
        requires
            old(self).wf(),
        ensures
            final(self).wf(),
            final(self).board == old(self).board,
            final(self).next_block == old(self).next_block,
            final(self).lines_cleared == old(self).lines_cleared,
            final(self).level == old(self).level,
            final(self).score == old(self).score,
            moved == (can_shift_down(old(self).block) && spec_legal(
                shifted(old(self).block, 0, 1),
                old(self).board@,
            )),
            moved ==> final(self).block == shifted(old(self).block, 0, 1),
            !moved ==> final(self).block == old(self).block,
    {
        if !self.block.move_down() {
            return false;
        }
        if !self.legal_move() {
            self.block.move_up();
            return false;
        }
        true
    }

    /// Shifts the falling block one column right if the board edge and
    /// occupancy allow; a rejected shift leaves the block exactly as it was.
    pub fn move_block_right(&mut self) -> (moved: bool)
        requires
            old(self).wf(),
        ensures
            final(self).wf(),
            final(self).board == old(self).board,
            final(self).next_block == old(self).next_block,
            final(self).lines_cleared == old(self).lines_cleared,
            final(self).level == old(self).level,
            final(self).score == old(self).score,
            moved == (can_shift_right(old(self).block) && spec_legal(
                shifted(old(self).block, 1, 0),
                old(self).board@,
            )),
            moved ==> final(self).block == shifted(old(self).block, 1, 0),
            !moved ==> final(self).block == old(self).block,
    {
        if !self.block.move_right() {
            return false;
        }
        if !self.legal_move() {
            self.block.move_left();
            return false;
        }
        true
    }

    /// Shifts the falling block one column left if the board edge and
    /// occupancy allow; a rejected shift leaves the block exactly as it was.
    pub fn move_block_left(&mut self) -> (moved: bool)
        requires
            old(self).wf(),
        ensures
            final(self).wf(),
            final(self).board == old(self).board,
            final(self).next_block == old(self).next_block,
            final(self).lines_cleared == old(self).lines_cleared,
            final(self).level == old(self).level,
            final(self).score == old(self).score,
            moved == (can_shift_left(old(self).block) && spec_legal(
                shifted(old(self).block, -1, 0),
                old(self).board@,
            )),
            moved ==> final(self).block == shifted(old(self).block, -1, 0),
            !moved ==> final(self).block == old(self).block,
    {
        if !self.block.move_left() {
            return false;
        }
        if !self.legal_move() {
            self.block.move_right();
            return false;
        }
        true
    }
}

} // verus!
