//! What the board shows: the cell grid, glyphs and colours, and where the board
//! and the game-over box sit in the terminal.
use vstd::prelude::*;

use crate::components::GridPos;
use crate::config::{GRID_CELLS, GRID_HEIGHT, GRID_HEIGHT_U16, GRID_WIDTH, GRID_WIDTH_U16};
use crate::game::{in_grid, Game, GameView};
use crate::resources::TerminalSize;

verus! {

/// Width of the game-over overlay box in terminal columns.
pub const OVERLAY_W: u16 = 26;

/// Height of the game-over overlay box in terminal rows.
pub const OVERLAY_H: u16 = 5;

/// What one cell of the board shows.
#[derive(Clone, Copy, Debug, PartialEq, Eq, Structural)]
pub enum Cell {
    Empty,
    Head,
    Body,
    Food,
}

/// The colour a cell is drawn in.
#[derive(Clone, Copy, Debug, PartialEq, Eq, Structural)]
pub enum Tint {
    /// The terminal's default colour.
    Plain,
    LightGreen,
    Green,
    LightRed,
}

impl Cell {
    /// The character drawn for the cell: `@` head, `O` body, `*` food, blank otherwise.
    pub fn glyph(self) -> (s: &'static str)
        ensures
            self == Cell::Head ==> s@ == "@"@,
            self == Cell::Body ==> s@ == "O"@,
            self == Cell::Food ==> s@ == "*"@,
            self == Cell::Empty ==> s@ == " "@,
    {
        match self {
            Cell::Head => "@",
            Cell::Body => "O",
            Cell::Food => "*",
            Cell::Empty => " ",
        }
    }

    /// The colour of the cell: bright green head, green body, bright red food.
    pub fn tint(self) -> (t: Tint)
        ensures
            t == match self {
                Cell::Head => Tint::LightGreen,
                Cell::Body => Tint::Green,
                Cell::Food => Tint::LightRed,
                Cell::Empty => Tint::Plain,
            },
    {
        match self {
            Cell::Head => Tint::LightGreen,
            Cell::Body => Tint::Green,
            Cell::Food => Tint::LightRed,
            Cell::Empty => Tint::Plain,
        }
    }
}

/// The row-major index of a cell of the board.
pub open spec fn board_index(p: GridPos) -> int {
    p.y * GRID_WIDTH + p.x
}

/// The entry of `cells` for position `p`.
pub open spec fn board_at(cells: Seq<Cell>, p: GridPos) -> Cell {
    cells[board_index(p)]
}

/// What the board shows at `p`: the head over food over body segments.
pub open spec fn cell_for(g: GameView, p: GridPos) -> Cell {
    if g.has_head() && g.head() == p {
        Cell::Head
    } else if g.food.contains(p) {
        Cell::Food
    } else if g.segments().contains(p) {
        Cell::Body
    } else {
        Cell::Empty
    }
}

/// The board: one cell per grid position, row by row.
pub struct Board {
    pub cells: Vec<Cell>,
}

impl Board {
    /// A board with every cell empty.
    pub fn empty() -> (b: Board)
        ensures
            b.cells@.len() == GRID_CELLS,
            forall|p: GridPos| in_grid(p) ==> #[trigger] board_at(b.cells@, p) == Cell::Empty,
    {
        let mut cells: Vec<Cell> = Vec::new();
        let mut i: usize = 0;
        while i < GRID_CELLS
            invariant
                i <= GRID_CELLS,
                cells@.len() == i,
                forall|k: int| 0 <= k < i ==> cells@[k] == Cell::Empty,
            decreases GRID_CELLS - i,
        {
            cells.push(Cell::Empty);
            i = i + 1;
        }
        Board { cells }
    }

    /// The cell at column `x`, row `y`.
    pub fn cell(&self, x: usize, y: usize) -> (c: Cell)
        requires
            self.cells@.len() == GRID_CELLS,
            x < GRID_WIDTH,
            y < GRID_HEIGHT,
        ensures
            c == board_at(self.cells@, GridPos { x: x as i32, y: y as i32 }),
    {
        self.cells[y * (GRID_WIDTH as usize) + x]
    }
}

/// Writes `value` at `pos`, ignoring positions off the board.
pub fn set_cell(board: &mut Board, pos: GridPos, value: Cell)
    requires
        old(board).cells@.len() == GRID_CELLS,
    ensures
        final(board).cells@.len() == GRID_CELLS,
        forall|p: GridPos|
            in_grid(p) ==> #[trigger] board_at(final(board).cells@, p) == if p == pos {
                value
            } else {
                board_at(old(board).cells@, p)
            },
{
    if 0 <= pos.x && pos.x < GRID_WIDTH && 0 <= pos.y && pos.y < GRID_HEIGHT {
        let x = pos.x as usize;
        let y = pos.y as usize;
        let w = GRID_WIDTH as usize;
        assert(y < 60 && w == 60);
        board.cells.set(y * w + x, value);
        assert forall|p: GridPos| in_grid(p) implies #[trigger] board_at(board.cells@, p) == if p
            == pos {
            value
        } else {
            board_at(old(board).cells@, p)
        } by {
            if p != pos {
                assert(board_index(p) != board_index(pos));
            }
        }
    }
}

impl Game {
    /// The board for the current world: body segments, then food, then the head,
    /// each drawn over what came before.
    pub fn board(&self) -> (b: Board)
        ensures
            b.cells@.len() == GRID_CELLS,
            forall|p: GridPos| in_grid(p) ==> #[trigger] board_at(b.cells@, p) == cell_for(self@, p),
    {
        let mut b = Board::empty();
        let last = if self.body.len() == 0 {
            0
        } else {
            self.body.len() - 1
        };
        let mut i: usize = 0;
        while i < last
            invariant
                last == self@.segments().len(),
                i <= last,
                b.cells@.len() == GRID_CELLS,
                forall|p: GridPos|
                    in_grid(p) ==> #[trigger] board_at(b.cells@, p) == if self@.segments().take(
                        i as int,
                    ).contains(p) {
                        Cell::Body
                    } else {
                        Cell::Empty
                    },
            decreases last - i,
        {
            let ghost before = b.cells@;
            set_cell(&mut b, self.body[i], Cell::Body);
            assert forall|p: GridPos| in_grid(p) implies #[trigger] board_at(b.cells@, p) == if self@.segments().take(
                i + 1,
            ).contains(p) {
                Cell::Body
            } else {
                Cell::Empty
            } by {
                let seg = self@.segments();
                assert(seg.take(i + 1) =~= seg.take(i as int).push(seg[i as int]));
                assert(board_at(before, p) == if seg.take(i as int).contains(p) {
                    Cell::Body
                } else {
                    Cell::Empty
                });
                if seg.take(i as int).contains(p) {
                    let k = choose|k: int| 0 <= k < i && seg.take(i as int)[k] == p;
                    assert(seg.take(i + 1)[k] == p);
                }
                let s1 = seg.take(i + 1);
                if s1.contains(p) && p != seg[i as int] {
                    let k = choose|k: int| 0 <= k < s1.len() && s1[k] == p;
                    assert(seg.take(i as int)[k] == p);
                }
                if p == seg[i as int] {
                    assert(seg.take(i + 1)[i as int] == p);
                }
            }
            i = i + 1;
        }
        assert(self@.segments().take(last as int) =~= self@.segments());
        let mut j: usize = 0;
        while j < self.food.len()
            invariant
                last == self@.segments().len(),
                j <= self@.food.len(),
                b.cells@.len() == GRID_CELLS,
                forall|p: GridPos|
                    in_grid(p) ==> #[trigger] board_at(b.cells@, p) == if self@.food.take(
                        j as int,
                    ).contains(p) {
                        Cell::Food
                    } else if self@.segments().contains(p) {
                        Cell::Body
                    } else {
                        Cell::Empty
                    },
            decreases self@.food.len() - j,
        {
            let ghost before = b.cells@;
            set_cell(&mut b, self.food[j], Cell::Food);
            assert forall|p: GridPos| in_grid(p) implies #[trigger] board_at(b.cells@, p) == if self@.food.take(
                j + 1,
            ).contains(p) {
                Cell::Food
            } else if self@.segments().contains(p) {
                Cell::Body
            } else {
                Cell::Empty
            } by {
                let fs = self@.food;
                assert(fs.take(j + 1) =~= fs.take(j as int).push(fs[j as int]));
                assert(board_at(before, p) == if fs.take(j as int).contains(p) {
                    Cell::Food
                } else if self@.segments().contains(p) {
                    Cell::Body
                } else {
                    Cell::Empty
                });
                if fs.take(j as int).contains(p) {
                    let k = choose|k: int| 0 <= k < j && fs.take(j as int)[k] == p;
                    assert(fs.take(j + 1)[k] == p);
                }
                let f1 = fs.take(j + 1);
                if f1.contains(p) && p != fs[j as int] {
                    let k = choose|k: int| 0 <= k < f1.len() && f1[k] == p;
                    assert(fs.take(j as int)[k] == p);
                }
                if p == fs[j as int] {
                    assert(fs.take(j + 1)[j as int] == p);
                }
            }
            j = j + 1;
        }
        assert(self@.food.take(self@.food.len() as int) =~= self@.food);
        if self.body.len() > 0 {
            set_cell(&mut b, self.body[last], Cell::Head);
        }
        b
    }
}

/// The top-left corner of the bordered board (the grid plus a one-cell border),
/// centred in the terminal and pinned to the top-left edge when the terminal is
/// too small.
pub fn board_origin(size: TerminalSize) -> (origin: (u16, u16))
    ensures
        origin.0 == (if size.cols >= GRID_WIDTH_U16 + 2 {
            size.cols - (GRID_WIDTH_U16 + 2)
        } else {
            0
        }) / 2,
        origin.1 == (if size.rows >= GRID_HEIGHT_U16 + 2 {
            size.rows - (GRID_HEIGHT_U16 + 2)
        } else {
            0
        }) / 2,
{
    let board_w = GRID_WIDTH_U16 + 2;
    let board_h = GRID_HEIGHT_U16 + 2;
    (size.cols.saturating_sub(board_w) / 2, size.rows.saturating_sub(board_h) / 2)
}

/// The top-left corner of the game-over box, centred within the board's inner
/// area (pinned to its top-left edge when the area is too small).
pub fn overlay_origin(inner_x: u16, inner_y: u16, inner_w: u16, inner_h: u16) -> (origin: (
    u16,
    u16,
))
    requires
        inner_x + inner_w <= u16::MAX,
        inner_y + inner_h <= u16::MAX,
    ensures
        origin.0 == inner_x + (if inner_w >= OVERLAY_W {
            inner_w - OVERLAY_W
        } else {
            0
        }) / 2,
        origin.1 == inner_y + (if inner_h >= OVERLAY_H {
            inner_h - OVERLAY_H
        } else {
            0
        }) / 2,
{
    (inner_x + inner_w.saturating_sub(OVERLAY_W) / 2, inner_y + inner_h.saturating_sub(OVERLAY_H) / 2)
}

} // verus!
