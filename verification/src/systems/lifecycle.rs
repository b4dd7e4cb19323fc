//! Quitting and restarting.
use vstd::prelude::*;

use crate::game::{Game, GameView};
use crate::resources::{KeyCode, KeyEventKind, KeyMessage};
use crate::state::GameState;

verus! {

/// Whether some event in `msgs` is a press of `q` or `Esc`.
pub open spec fn quit_pressed(msgs: Seq<KeyMessage>) -> bool {
    exists|i: int|
        0 <= i < msgs.len() && msgs[i].kind == KeyEventKind::Press && (msgs[i].code
            == KeyCode::Char('q') || msgs[i].code == KeyCode::Esc)
}

/// Whether some event in `msgs` is a press of `r`.
pub open spec fn restart_pressed(msgs: Seq<KeyMessage>) -> bool {
    exists|i: int|
        0 <= i < msgs.len() && msgs[i].kind == KeyEventKind::Press && msgs[i].code
            == KeyCode::Char('r')
}

impl GameView {
    /// The world right after a restart, before new food is placed: a fresh snake,
    /// no food, score zero, initial speed, and the switch to playing scheduled for
    /// the next frame. The terminal size and the current phase are kept.
    pub open spec fn reset(self) -> GameView {
        GameView {
            state: self.state,
            next_state: Some(GameState::Playing),
            ..GameView::initial(self.terminal)
        }
    }
}

/// Whether the player asked to quit: some event is a press of `q` or `Esc`.
pub fn handle_quit(msgs: &Vec<KeyMessage>) -> (quit: bool)
    ensures
        quit == quit_pressed(msgs@),
{
    let mut i: usize = 0;
    while i < msgs.len()
        invariant
            i <= msgs@.len(),
            forall|j: int|
                0 <= j < i ==> !(msgs@[j].kind == KeyEventKind::Press && (msgs@[j].code
                    == KeyCode::Char('q') || msgs@[j].code == KeyCode::Esc)),
        decreases msgs.len() - i,
    {
        let msg = msgs[i];
        if msg.kind == KeyEventKind::Press {
            match msg.code {
                KeyCode::Char('q') | KeyCode::Esc => {
                    assert(msgs@[i as int] == msg);
                    return true;
                },
                _ => {},
            }
        }
        i = i + 1;
    }
    false
}

/// Whether some event is a press of `r`.
pub fn restart_requested(msgs: &Vec<KeyMessage>) -> (r: bool)
    ensures
        r == restart_pressed(msgs@),
{
    let mut i: usize = 0;
    while i < msgs.len()
        invariant
            i <= msgs@.len(),
            forall|j: int|
                0 <= j < i ==> !(msgs@[j].kind == KeyEventKind::Press && msgs@[j].code
                    == KeyCode::Char('r')),
        decreases msgs.len() - i,
    {
        let msg = msgs[i];
        if msg.kind == KeyEventKind::Press && msg.code == KeyCode::Char('r') {
            assert(msgs@[i as int] == msg);
            return true;
        }
        i = i + 1;
    }
    false
}

impl Game {
    /// Puts the game back to its initial state, without food, and schedules the
    /// switch to playing.
    pub fn reset(&mut self)
        ensures
            final(self)@ == old(self)@.reset(),
    {
        let fresh = Game::spawn_initial_snake(self.terminal);
        let state = self.state;
        *self = fresh;
        self.state = state;
        self.next_state = Some(GameState::Playing);
    }

    /// On a press of `r`: resets the snake, score, speed and pending turn, replaces
    /// the food by one new food at a random free cell, and schedules the switch to
    /// playing. Returns whether it restarted.
    pub fn handle_restart(&mut self, msgs: &Vec<KeyMessage>) -> (restarted: bool)
        ensures
            restarted == restart_pressed(msgs@),
            restarted ==> exists|pick: nat| final(self)@ == old(self)@.reset().food_spawned(pick),
            !restarted ==> final(self)@ == old(self)@,
    {
        if !restart_requested(msgs) {
            return false;
        }
        self.reset();
        self.spawn_food();
        true
    }
}

} // verus!
