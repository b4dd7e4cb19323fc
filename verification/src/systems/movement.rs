//! Snake spawning and movement.
use vstd::prelude::*;

use crate::components::{Direction, GridPos};
use crate::config::{GRID_CENTRE_X, GRID_CENTRE_Y, SPEED_INITIAL_MS};
use crate::game::{Game, GameView};
use crate::resources::TerminalSize;
use crate::state::GameState;

verus! {

/// The cell one step from `p` in direction `d` (Up decreases `y`, Left decreases `x`).
pub open spec fn step_from(p: GridPos, d: Direction) -> GridPos {
    match d {
        Direction::Up => GridPos { x: p.x, y: (p.y - 1) as i32 },
        Direction::Down => GridPos { x: p.x, y: (p.y + 1) as i32 },
        Direction::Left => GridPos { x: (p.x - 1) as i32, y: p.y },
        Direction::Right => GridPos { x: (p.x + 1) as i32, y: p.y },
    }
}

/// Whether a step in any direction from `p` stays within `i32`.
pub open spec fn can_step(p: GridPos) -> bool {
    i32::MIN < p.x < i32::MAX && i32::MIN < p.y < i32::MAX
}

/// The three cells of a fresh snake at the grid centre, tail first, facing right.
pub open spec fn initial_body() -> Seq<GridPos> {
    seq![
        GridPos { x: (GRID_CENTRE_X - 2) as i32, y: GRID_CENTRE_Y },
        GridPos { x: (GRID_CENTRE_X - 1) as i32, y: GRID_CENTRE_Y },
        GridPos { x: GRID_CENTRE_X, y: GRID_CENTRE_Y },
    ]
}

impl GameView {
    /// A fresh game without food: the three-cell snake at the centre moving right,
    /// nothing pending, score zero, initial speed, playing.
    pub open spec fn initial(terminal: TerminalSize) -> GameView {
        GameView {
            body: initial_body(),
            direction: Direction::Right,
            pending: None,
            food: Seq::empty(),
            score: 0,
            tail_pos: None,
            state: GameState::Playing,
            next_state: None,
            move_interval_ms: SPEED_INITIAL_MS,
            terminal,
        }
    }

    /// The direction the head takes at the next move: the pending turn if there is one.
    pub open spec fn applied_direction(self) -> Direction {
        match self.pending {
            Some(d) => d,
            None => self.direction,
        }
    }

    /// The world after one move: the pending turn is taken, the old tail cell is
    /// remembered, every segment takes the cell of the one in front of it and the
    /// head advances one cell.
    pub open spec fn moved(self) -> GameView {
        let dir = self.applied_direction();
        if self.has_head() {
            GameView {
                body: self.body.drop_first().push(step_from(self.head(), dir)),
                direction: dir,
                pending: None,
                tail_pos: Some(self.body[0]),
                ..self
            }
        } else {
            GameView { direction: dir, pending: None, ..self }
        }
    }
}

/// Shifts every entry of `body` one place towards the front and puts `new_head` last.
fn cascade(body: &mut Vec<GridPos>, new_head: GridPos)
    requires
        old(body)@.len() >= 1,
    ensures
        final(body)@ == old(body)@.drop_first().push(new_head),
{
    let len = body.len();
    let mut i: usize = 0;
    while i + 1 < len
        invariant
            len == old(body)@.len(),
            body@.len() == len,
            i < len,
            forall|j: int| 0 <= j < i ==> body@[j] == old(body)@[j + 1],
            forall|j: int| i <= j < len ==> body@[j] == old(body)@[j],
        decreases len - i,
    {
        let next = body[i + 1];
        body.set(i, next);
        i = i + 1;
    }
    body.set(len - 1, new_head);
    assert(body@ =~= old(body)@.drop_first().push(new_head));
}

impl Game {
    /// Startup: the initial three-cell snake at the grid centre, facing right,
    /// with no food yet.
    pub fn spawn_initial_snake(terminal: TerminalSize) -> (g: Game)
        ensures
            g@ == GameView::initial(terminal),
    {
        let head = GridPos { x: GRID_CENTRE_X, y: GRID_CENTRE_Y };
        let seg0 = GridPos { x: GRID_CENTRE_X - 1, y: GRID_CENTRE_Y };
        let seg1 = GridPos { x: GRID_CENTRE_X - 2, y: GRID_CENTRE_Y };
        let g = Game {
            body: vec![seg1, seg0, head],
            direction: Direction::Right,
            pending: None,
            food: Vec::new(),
            score: 0,
            tail_pos: None,
            state: GameState::Playing,
            next_state: None,
            move_interval_ms: SPEED_INITIAL_MS,
            terminal,
        };
        assert(g@.body =~= initial_body());
        g
    }

    /// Startup: sets the move interval to its initial value.
    pub fn init_timer(&mut self)
        ensures
            final(self)@ == (GameView { move_interval_ms: SPEED_INITIAL_MS, ..old(self)@ }),
    {
        self.move_interval_ms = SPEED_INITIAL_MS;
    }

    /// One move of the snake, made each time the move timer fires.
    pub fn move_snake(&mut self)
        requires
            old(self)@.has_head() ==> can_step(old(self)@.head()),
        ensures
            final(self)@ == old(self)@.moved(),
    {
        match self.pending {
            Some(dir) => {
                self.direction = dir;
                self.pending = None;
            },
            None => {},
        }
        let dir = self.direction;
        if self.body.len() == 0 {
            return;
        }
        self.tail_pos = Some(self.body[0]);
        let head = self.body[self.body.len() - 1];
        let new_head = match dir {
            Direction::Up => GridPos { x: head.x, y: head.y - 1 },
            Direction::Down => GridPos { x: head.x, y: head.y + 1 },
            Direction::Left => GridPos { x: head.x - 1, y: head.y },
            Direction::Right => GridPos { x: head.x + 1, y: head.y },
        };
        cascade(&mut self.body, new_head);
    }
}

} // verus!
