//! One frame of the game, with its systems run in schedule order:
//! input, state switch, move, collision, food, score, game-over, quit, restart.
use vstd::prelude::*;

use crate::game::{in_grid, Game, GameView};
use crate::laws::{lemma_frame_keeps_wf, lemma_start_keeps_wf};
use crate::resources::{KeyMessage, Resize, TerminalSize};
use crate::state::GameState;
use crate::systems::lifecycle::{handle_quit, quit_pressed, restart_pressed};
use crate::systems::movement::can_step;

verus! {

/// What the outside world delivers for one frame.
pub struct FrameInput {
    /// The key events of this frame, in order.
    pub keys: Vec<KeyMessage>,
    /// The terminal resize notifications of this frame, in order.
    pub resizes: Vec<Resize>,
    /// Whether the move timer fired during this frame.
    pub move_due: bool,
}

/// What the outside world must do after a frame.
#[derive(Clone, Copy, Debug, PartialEq, Eq, Structural)]
pub struct FrameOutput {
    /// The player asked to quit.
    pub quit: bool,
    /// The move timer must be restarted with the world's current move interval.
    pub restart_timer: bool,
}

impl GameView {
    /// The world after the phase switch scheduled in the previous frame, if any.
    pub open spec fn transitioned(self) -> GameView {
        match self.next_state {
            Some(s) => GameView { state: s, next_state: None, ..self },
            None => self,
        }
    }

    /// Whether, after moving, the head has left the playfield or run into the body.
    pub open spec fn collided(self) -> bool {
        self.has_head() && (!in_grid(self.head()) || self.segments().contains(self.head()))
    }

    /// Whether food lies on the head's cell.
    pub open spec fn on_food(self) -> bool {
        self.has_head() && self.food.contains(self.head())
    }

    /// The playing-phase systems of one frame: move (when the timer fired), check
    /// collisions, eat, grow, score, place new food (on free cell `pick`), and
    /// schedule game over on a collision.
    pub open spec fn played(self, move_due: bool, pick: nat) -> GameView {
        let m = if move_due {
            self.moved()
        } else {
            self
        };
        let events: nat = if m.on_food() {
            1
        } else {
            0
        };
        let e = m.food_eaten().grown(events).scored(events);
        let f = if m.on_food() {
            e.food_spawned(pick)
        } else {
            e
        };
        f.game_over_handled(
            if m.collided() {
                1
            } else {
                0
            },
        )
    }

    /// The whole world after one frame, where `pick` is the free cell that any new
    /// food goes on.
    pub open spec fn after_frame(
        self,
        keys: Seq<KeyMessage>,
        resizes: Seq<Resize>,
        move_due: bool,
        pick: nat,
    ) -> GameView {
        let a = self.input_read(keys).resized(resizes).transitioned();
        if a.state == GameState::Playing {
            a.played(move_due, pick)
        } else if restart_pressed(keys) {
            a.reset().food_spawned(pick)
        } else {
            a
        }
    }

    /// Whether the move timer must be restarted after that frame: food was eaten
    /// while playing, or the game was restarted.
    pub open spec fn timer_restarted(
        self,
        keys: Seq<KeyMessage>,
        resizes: Seq<Resize>,
        move_due: bool,
    ) -> bool {
        let a = self.input_read(keys).resized(resizes).transitioned();
        if a.state == GameState::Playing {
            (if move_due {
                a.moved()
            } else {
                a
            }).on_food()
        } else {
            restart_pressed(keys)
        }
    }

    /// Whether a frame can run without overflowing a machine integer.
    pub open spec fn frame_ready(self) -> bool {
        &&& (self.has_head() ==> can_step(self.head()))
        &&& self.score < u32::MAX
    }
}

impl Game {
    /// Startup: the initial snake at the grid centre, one food on a random free
    /// cell, and the initial move interval.
    pub fn new(terminal: TerminalSize) -> (g: Game)
        ensures
            exists|pick: nat| g@ == GameView::initial(terminal).food_spawned(pick),
            g@.wf(),
    {
        let mut g = Game::spawn_initial_snake(terminal);
        g.spawn_food();
        g.init_timer();
        proof {
            let pick = choose|pick: nat| g@ == GameView::initial(terminal).food_spawned(pick);
            lemma_start_keeps_wf(terminal, pick);
        }
        g
    }

    /// Whether a frame can run without overflowing a machine integer: the head
    /// (if any) can step without leaving `i32`, and the score can grow.
    pub fn frame_ready(&self) -> (b: bool)
        ensures
            b == self@.frame_ready(),
    {
        if self.body.len() == 0 {
            return self.score < u32::MAX;
        }
        let head = self.body[self.body.len() - 1];
        head.x > i32::MIN && head.x < i32::MAX && head.y > i32::MIN && head.y < i32::MAX
            && self.score < u32::MAX
    }

    /// Applies the phase switch scheduled in the previous frame.
    pub fn apply_state_transition(&mut self)
        ensures
            final(self)@ == old(self)@.transitioned(),
    {
        match self.next_state {
            Some(s) => {
                self.state = s;
                self.next_state = None;
            },
            None => {},
        }
    }

    /// Runs one frame: steering and resize input, the scheduled phase switch, then
    /// either the playing systems or (after game over) the restart key, and the quit
    /// key. Food is placed on a random free cell.
    pub fn frame(&mut self, input: &FrameInput) -> (out: FrameOutput)
        requires
            old(self)@.frame_ready(),
        ensures
            exists|pick: nat|
                final(self)@ == old(self)@.after_frame(
                    input.keys@,
                    input.resizes@,
                    input.move_due,
                    pick,
                ),
            old(self)@.wf() ==> final(self)@.wf(),
            out.quit == quit_pressed(input.keys@),
            out.restart_timer == old(self)@.timer_restarted(
                input.keys@,
                input.resizes@,
                input.move_due,
            ),
    {
        self.read_input(&input.keys);
        self.handle_resize(&input.resizes);
        self.apply_state_transition();
        let ghost a = self@;
        let ghost mut witness: nat = 0;
        let restart_timer;
        if self.state == GameState::Playing {
            if input.move_due {
                self.move_snake();
            }
            let wall = self.check_wall_collision();
            let hit = self.check_self_collision();
            let eaten = self.check_food_eaten();
            let events: usize = if eaten {
                1
            } else {
                0
            };
            self.grow_snake(events);
            restart_timer = self.update_score(events);
            let ghost e = self@;
            self.spawn_new_food(events);
            proof {
                let picks = choose|picks: Seq<nat>|
                    picks.len() == events && self@ == e.foods_spawned(picks);
                let fr = e.free_cells();
                if eaten {
                    witness = picks[0];
                    if fr.len() > 0 {
                        assert(self@.food =~= e.food.push(fr[(witness % fr.len()) as int]));
                    }
                } else if fr.len() > 0 {
                    assert(self@.food =~= e.food);
                }
            }
            let game_over_events: usize = if wall || hit {
                1
            } else {
                0
            };
            self.handle_game_over(game_over_events);
            assert(self@ == a.played(input.move_due, witness));
        } else {
            restart_timer = self.handle_restart(&input.keys);
            proof {
                if restart_timer {
                    witness = choose|pick: nat| self@ == a.reset().food_spawned(pick);
                }
            }
        }
        assert(self@ == old(self)@.after_frame(
            input.keys@,
            input.resizes@,
            input.move_due,
            witness,
        ));
        proof {
            if old(self)@.wf() {
                lemma_frame_keeps_wf(
                    old(self)@,
                    input.keys@,
                    input.resizes@,
                    input.move_due,
                    witness,
                );
            }
        }
        let quit = handle_quit(&input.keys);
        FrameOutput { quit, restart_timer }
    }
}

} // verus!
