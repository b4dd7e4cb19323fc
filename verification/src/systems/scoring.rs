//! Scoring and speed.
use vstd::prelude::*;

use crate::config::{SPEED_DECREMENT_PER_FOOD, SPEED_INITIAL_MS, SPEED_MIN_MS};
use crate::game::{Game, GameView};

verus! {

/// The move interval for a score: the initial interval less a fixed amount per
/// food eaten, but never below the floor.
pub open spec fn interval_for(score: u32) -> u64 {
    let shaved = SPEED_INITIAL_MS - score * SPEED_DECREMENT_PER_FOOD;
    if shaved < SPEED_MIN_MS {
        SPEED_MIN_MS
    } else {
        shaved as u64
    }
}

/// Computes the move interval for a score.
pub fn move_interval_ms(score: u32) -> (ms: u64)
    ensures
        ms == interval_for(score),
{
    let shaved = SPEED_INITIAL_MS.saturating_sub(score as u64 * SPEED_DECREMENT_PER_FOOD);
    if shaved < SPEED_MIN_MS {
        SPEED_MIN_MS
    } else {
        shaved
    }
}

/// The speed stays between the floor and the initial interval, it never slows down
/// as the score grows, and it reaches the floor exactly from a score of 20 on.
pub proof fn lemma_interval_bounds(a: u32, b: u32)
    ensures
        SPEED_MIN_MS <= interval_for(a) <= SPEED_INITIAL_MS,
        a <= b ==> interval_for(b) <= interval_for(a),
        interval_for(0) == SPEED_INITIAL_MS,
        interval_for(a) == SPEED_MIN_MS <==> a >= 20,
{
}

impl GameView {
    /// The world after `events` food-eaten notifications have been scored.
    pub open spec fn scored(self, events: nat) -> GameView {
        if events == 0 {
            self
        } else {
            let score = (self.score + events) as u32;
            GameView { score, move_interval_ms: interval_for(score), ..self }
        }
    }
}

/// Across two score updates that each score at least one food, the second interval
/// is no longer than the first, both lie between the floor and the initial interval,
/// and each is at the floor exactly when its score is at least 20.
pub proof fn lemma_score_updates_speed_up(g: GameView, k1: nat, k2: nat)
    requires
        g.score + k1 + k2 <= u32::MAX,
        k1 >= 1,
        k2 >= 1,
    ensures
        ({
            let s1 = g.scored(k1);
            let s2 = s1.scored(k2);
            &&& s1.score <= s2.score
            &&& s2.move_interval_ms <= s1.move_interval_ms
            &&& SPEED_MIN_MS <= s1.move_interval_ms <= SPEED_INITIAL_MS
            &&& SPEED_MIN_MS <= s2.move_interval_ms <= SPEED_INITIAL_MS
            &&& (s1.move_interval_ms == SPEED_MIN_MS <==> s1.score >= 20)
            &&& (s2.move_interval_ms == SPEED_MIN_MS <==> s2.score >= 20)
        }),
{
    let s1 = g.scored(k1);
    let s2 = s1.scored(k2);
    lemma_interval_bounds(s1.score, s2.score);
    lemma_interval_bounds(s2.score, s2.score);
}

impl Game {
    /// Adds one point per food eaten and speeds the snake up accordingly.
    /// Returns whether the move timer must be restarted with the new interval.
    pub fn update_score(&mut self, events: usize) -> (restart_timer: bool)
        requires
            old(self).score + events <= u32::MAX,
        ensures
            final(self)@ == old(self)@.scored(events as nat),
            restart_timer == (events > 0),
    {
        let mut k: usize = 0;
        while k < events
            invariant
                k <= events,
                old(self).score + events <= u32::MAX,
                k == 0 ==> self@ == old(self)@,
                k > 0 ==> self@ == old(self)@.scored(k as nat),
            decreases events - k,
        {
            self.score = self.score + 1;
            self.move_interval_ms = move_interval_ms(self.score);
            k = k + 1;
        }
        events > 0
    }
}

} // verus!
