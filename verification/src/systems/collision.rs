//! Collision detection.
use vstd::prelude::*;

use crate::config::{GRID_HEIGHT, GRID_WIDTH};
use crate::game::{in_grid, Game, GameView};
use crate::state::GameState;

verus! {

impl GameView {
    /// The world after `events` game-over notifications: any one of them schedules
    /// the switch to the game-over phase for the next frame.
    pub open spec fn game_over_handled(self, events: nat) -> GameView {
        if events > 0 {
            GameView { next_state: Some(GameState::GameOver), ..self }
        } else {
            self
        }
    }
}

impl Game {
    /// Whether the head has left the playfield (a game-over notification is due).
    pub fn check_wall_collision(&self) -> (hit: bool)
        ensures
            hit == (self@.has_head() && !in_grid(self@.head())),
    {
        if self.body.len() == 0 {
            return false;
        }
        let pos = self.body[self.body.len() - 1];
        pos.x < 0 || pos.x >= GRID_WIDTH || pos.y < 0 || pos.y >= GRID_HEIGHT
    }

    /// Whether the head lies on one of the other segments (a game-over notification is due).
    pub fn check_self_collision(&self) -> (hit: bool)
        ensures
            hit == (self@.has_head() && self@.segments().contains(self@.head())),
    {
        if self.body.len() == 0 {
            return false;
        }
        let last = self.body.len() - 1;
        let head = self.body[last];
        let mut i: usize = 0;
        while i < last
            invariant
                last == self@.body.len() - 1,
                head == self@.head(),
                i <= last,
                forall|j: int| 0 <= j < i ==> self@.body[j] != head,
            decreases last - i,
        {
            if self.body[i] == head {
                assert(self@.segments()[i as int] == head);
                return true;
            }
            i = i + 1;
        }
        assert(!self@.segments().contains(head)) by {
            if self@.segments().contains(head) {
                let k = choose|k: int| 0 <= k < self@.segments().len() && self@.segments()[k] == head;
                assert(self@.body[k] == head);
            }
        }
        false
    }

    /// Switches to the game-over phase (at the next frame) when any game-over
    /// notification arrived.
    pub fn handle_game_over(&mut self, events: usize)
        ensures
            final(self)@ == old(self)@.game_over_handled(events as nat),
    {
        if events > 0 {
            self.next_state = Some(GameState::GameOver);
        }
    }
}

} // verus!
