//! The game world: the snake, the food, the score and the game phase.
use vstd::prelude::*;

use crate::components::{opposite_of, Direction, GridPos};
use crate::config::{GRID_HEIGHT, GRID_WIDTH};
use crate::resources::TerminalSize;
use crate::state::GameState;
use crate::systems::scoring::interval_for;

verus! {

/// Whether a position lies on the playfield.
pub open spec fn in_grid(p: GridPos) -> bool {
    0 <= p.x < GRID_WIDTH && 0 <= p.y < GRID_HEIGHT
}

/// Whether a position lies on the playfield or on the ring of cells around it,
/// where a head that hits a wall ends up.
pub open spec fn near_grid(p: GridPos) -> bool {
    -1 <= p.x <= GRID_WIDTH && -1 <= p.y <= GRID_HEIGHT
}

/// Whether two cells share a side.
pub open spec fn adjacent(a: GridPos, b: GridPos) -> bool {
    (a.x == b.x && (a.y == b.y + 1 || b.y == a.y + 1)) || (a.y == b.y && (a.x == b.x + 1 || b.x
        == a.x + 1))
}

/// Whether entries `i` and `i + 1` of `s` share a side.
pub open spec fn linked(s: Seq<GridPos>, i: int) -> bool {
    adjacent(s[i], s[i + 1])
}

/// Whether no cell occurs twice in `s`.
pub open spec fn no_repeats(s: Seq<GridPos>) -> bool {
    forall|i: int, j: int| 0 <= i < j < s.len() ==> s[i] != s[j]
}

/// The mathematical model of a [`Game`].
#[verifier::ext_equal]
pub struct GameView {
    /// The snake, tail first: `body[0]` is the furthest segment, the last entry is the head.
    pub body: Seq<GridPos>,
    /// The direction the head travels in.
    pub direction: Direction,
    /// A turn requested by the player, applied at the next move.
    pub pending: Option<Direction>,
    /// The food on the board.
    pub food: Seq<GridPos>,
    /// Food eaten since the game (re)started.
    pub score: u32,
    /// Where the tail was before the last move; a grown segment goes there.
    pub tail_pos: Option<GridPos>,
    /// The current phase.
    pub state: GameState,
    /// The phase to switch to at the start of the next frame, if any.
    pub next_state: Option<GameState>,
    /// Milliseconds between two moves.
    pub move_interval_ms: u64,
    /// The terminal the board is drawn in.
    pub terminal: TerminalSize,
}

impl GameView {
    /// Whether there is a snake at all.
    pub open spec fn has_head(self) -> bool {
        self.body.len() > 0
    }

    /// The head of the snake (meaningful when there is a snake).
    pub open spec fn head(self) -> GridPos {
        self.body.last()
    }

    /// The snake without its head.
    pub open spec fn segments(self) -> Seq<GridPos> {
        if self.body.len() == 0 {
            self.body
        } else {
            self.body.drop_last()
        }
    }

    /// Whether the snake is confined to the playfield at this point.
    pub open spec fn body_in_grid(self) -> bool {
        forall|i: int| 0 <= i < self.body.len() ==> #[trigger] in_grid(self.body[i])
    }

    /// Whether each segment shares a side with the next one: the snake has no gaps.
    pub open spec fn connected(self) -> bool {
        forall|i: int| 0 <= i < self.body.len() - 1 ==> #[trigger] linked(self.body, i)
    }

    /// Whether the game is being played now or is about to be: the phase is
    /// playing and no game over is scheduled, or a switch to playing is scheduled.
    pub open spec fn in_play(self) -> bool {
        (self.state == GameState::Playing && self.next_state != Some(GameState::GameOver))
            || self.next_state == Some(GameState::Playing)
    }

    /// Whether every cell of the playfield holds part of the snake or food.
    pub open spec fn board_full(self) -> bool {
        forall|p: GridPos| in_grid(p) ==> #[trigger] self.body.contains(p) || self.food.contains(p)
    }

    /// What holds of every game reachable by play.
    pub open spec fn wf(self) -> bool {
        &&& self.wf_shape()
        &&& (self.in_play() ==> self.food.len() == 1 || self.board_full())
    }

    /// The invariant of play apart from the count of food.
    pub open spec fn wf_shape(self) -> bool {
        &&& self.body.len() >= 1
        &&& forall|i: int| 0 <= i < self.body.len() ==> #[trigger] near_grid(self.body[i])
        &&& self.connected()
        &&& (self.tail_pos matches Some(t) ==> adjacent(t, self.body[0]) || t == self.body[0])
        &&& forall|i: int|
            0 <= i < self.food.len() ==> in_grid(#[trigger] self.food[i]) && !self.body.contains(
                self.food[i],
            )
        &&& no_repeats(self.food)
        &&& self.food.len() <= 1
        &&& (self.pending matches Some(p) ==> p != opposite_of(self.direction))
        &&& (self.in_play() ==> self.body_in_grid() && no_repeats(self.body))
        &&& self.move_interval_ms == interval_for(self.score)
        &&& self.body.len() == self.score + 3
    }
}

/// The game world.
pub struct Game {
    /// The snake, tail first; the last entry is the head.
    pub body: Vec<GridPos>,
    /// The direction the head travels in.
    pub direction: Direction,
    /// A turn requested by the player, applied at the next move.
    pub pending: Option<Direction>,
    /// The food on the board.
    pub food: Vec<GridPos>,
    /// Food eaten since the game (re)started.
    pub score: u32,
    /// Where the tail was before the last move.
    pub tail_pos: Option<GridPos>,
    /// The current phase.
    pub state: GameState,
    /// The phase to switch to at the start of the next frame, if any.
    pub next_state: Option<GameState>,
    /// Milliseconds between two moves.
    pub move_interval_ms: u64,
    /// The terminal the board is drawn in.
    pub terminal: TerminalSize,
}

impl View for Game {
    type V = GameView;

    open spec fn view(&self) -> GameView {
        GameView {
            body: self.body@,
            direction: self.direction,
            pending: self.pending,
            food: self.food@,
            score: self.score,
            tail_pos: self.tail_pos,
            state: self.state,
            next_state: self.next_state,
            move_interval_ms: self.move_interval_ms,
            terminal: self.terminal,
        }
    }
}

} // verus!
