//! What each operation of the game does, stated over its inputs and results.
use vstd::prelude::*;

use crate::components::{opposite_of, Direction, GridPos};
use crate::game::{in_grid, GameView};
use crate::laws::{lemma_all_cells_in_grid, lemma_restart_is_fresh};
use crate::resources::{KeyCode, KeyEventKind, KeyMessage, Resize, TerminalSize};
use crate::state::GameState;
use crate::systems::food::{
    all_cells,
    lemma_remove_first_absent,
    lemma_remove_first_at,
};
use crate::systems::render::{cell_for, Cell};
use crate::systems::input::{key_direction, pending_after};
use crate::systems::lifecycle::{quit_pressed, restart_pressed};
use crate::systems::movement::can_step;
use crate::systems::scoring::interval_for;

verus! {

/// Reversing keeps a direction on its axis (vertical or horizontal) and changes it.
pub proof fn lemma_opposite_same_axis(d: Direction)
    ensures
        (d == Direction::Up || d == Direction::Down) <==> (opposite_of(d) == Direction::Up
            || opposite_of(d) == Direction::Down),
        opposite_of(d) != d,
{
}

/// A move takes the pending turn, if any, and advances the head exactly one cell
/// in that direction: Up lowers `y`, Down raises `y`, Left lowers `x`, Right raises
/// `x`. Every other segment takes the cell of the one in front of it, the old tail
/// cell is remembered, and the food, score and phase are untouched.
pub proof fn lemma_move_steps_one_cell(g: GameView)
    requires
        g.has_head(),
        can_step(g.head()),
    ensures
        ({
            let d = match g.pending {
                Some(p) => p,
                None => g.direction,
            };
            let h = g.head();
            let r = g.moved();
            let n = r.head();
            &&& r.direction == d
            &&& r.pending is None
            &&& r.body.len() == g.body.len()
            &&& forall|i: int| 0 <= i < g.body.len() - 1 ==> r.body[i] == g.body[i + 1]
            &&& r.tail_pos == Some(g.body[0])
            &&& (d == Direction::Up ==> n.x == h.x && n.y == h.y - 1)
            &&& (d == Direction::Down ==> n.x == h.x && n.y == h.y + 1)
            &&& (d == Direction::Left ==> n.x == h.x - 1 && n.y == h.y)
            &&& (d == Direction::Right ==> n.x == h.x + 1 && n.y == h.y)
            &&& r.food == g.food
            &&& r.score == g.score
            &&& r.state == g.state
            &&& r.next_state == g.next_state
            &&& r.move_interval_ms == g.move_interval_ms
        }),
{
}

/// The player quits exactly when some key event is a press of `q` or of `Esc`.
pub proof fn lemma_quit_keys(msgs: Seq<KeyMessage>)
    ensures
        quit_pressed(msgs) <==> exists|i: int|
            0 <= i < msgs.len() && msgs[i].kind == KeyEventKind::Press && (msgs[i].code
                == KeyCode::Char('q') || msgs[i].code == KeyCode::Esc),
{
}

/// The game restarts exactly when some key event is a press of `r`.
pub proof fn lemma_restart_key(msgs: Seq<KeyMessage>)
    ensures
        restart_pressed(msgs) <==> exists|i: int|
            0 <= i < msgs.len() && msgs[i].kind == KeyEventKind::Press && msgs[i].code
                == KeyCode::Char('r'),
{
}

/// The move interval is 150 ms less 4 ms per point, never below 70 ms: each point
/// below 20 shortens it by exactly 4 ms, and from 20 points on it stays at 70 ms.
pub proof fn lemma_interval_formula(s: u32)
    ensures
        s <= 20 ==> interval_for(s) == 150 - 4 * s,
        s >= 20 ==> interval_for(s) == 70,
        s < 20 ==> interval_for((s + 1) as u32) + 4 == interval_for(s),
        s >= 20 && s < u32::MAX ==> interval_for((s + 1) as u32) == interval_for(s),
{
}

/// Exactly sixteen keys steer: arrow Up, `w`, `W` and `k` steer up; arrow Down,
/// `s`, `S` and `j` down; arrow Left, `a`, `A` and `h` left; arrow Right, `d`, `D`
/// and `l` right. Every other key steers nowhere.
pub proof fn lemma_steering_keys(code: KeyCode)
    ensures
        key_direction(code) == Some(Direction::Up) <==> (code == KeyCode::Up || code
            == KeyCode::Char('w') || code == KeyCode::Char('W') || code == KeyCode::Char('k')),
        key_direction(code) == Some(Direction::Down) <==> (code == KeyCode::Down || code
            == KeyCode::Char('s') || code == KeyCode::Char('S') || code == KeyCode::Char('j')),
        key_direction(code) == Some(Direction::Left) <==> (code == KeyCode::Left || code
            == KeyCode::Char('a') || code == KeyCode::Char('A') || code == KeyCode::Char('h')),
        key_direction(code) == Some(Direction::Right) <==> (code == KeyCode::Right || code
            == KeyCode::Char('d') || code == KeyCode::Char('D') || code == KeyCode::Char('l')),
{
}

/// Key events that are not presses of a steering key leave the pending turn as it
/// was.
pub proof fn lemma_other_keys_keep_turn(
    pending: Option<Direction>,
    current: Direction,
    msgs: Seq<KeyMessage>,
)
    requires
        forall|i: int|
            0 <= i < msgs.len() ==> msgs[i].kind != KeyEventKind::Press || key_direction(
                #[trigger] msgs[i].code,
            ) is None,
    ensures
        pending_after(pending, current, msgs) == pending,
    decreases msgs.len(),
{
    if msgs.len() > 0 {
        let rest = msgs.drop_last();
        assert forall|i: int| 0 <= i < rest.len() implies rest[i].kind != KeyEventKind::Press
            || key_direction(#[trigger] rest[i].code) is None by {
            assert(rest[i] == msgs[i]);
        }
        lemma_other_keys_keep_turn(pending, current, rest);
        assert(msgs.last() == msgs[msgs.len() - 1]);
    }
}

/// A press of a steering key that does not reverse the current direction, when it
/// is the last key event, sets the pending turn to that key's direction, whatever
/// came before.
pub proof fn lemma_last_turn_wins(
    pending: Option<Direction>,
    current: Direction,
    msgs: Seq<KeyMessage>,
    d: Direction,
)
    requires
        msgs.len() > 0,
        msgs.last().kind == KeyEventKind::Press,
        key_direction(msgs.last().code) == Some(d),
        d != opposite_of(current),
    ensures
        pending_after(pending, current, msgs) == Some(d),
{
}

/// A key press that would reverse the current direction, when it is the last key
/// event, changes nothing.
pub proof fn lemma_reversal_ignored(
    pending: Option<Direction>,
    current: Direction,
    msgs: Seq<KeyMessage>,
)
    requires
        msgs.len() > 0,
        key_direction(msgs.last().code) == Some(opposite_of(current)),
    ensures
        pending_after(pending, current, msgs) == pending_after(
            pending,
            current,
            msgs.drop_last(),
        ),
{
}

/// The playfield is the 60 by 60 square of cells with both coordinates in `0..60`.
pub proof fn lemma_playfield(p: GridPos)
    ensures
        in_grid(p) <==> 0 <= p.x < 60 && 0 <= p.y < 60,
{
}

/// The head runs into the body exactly when some other segment lies on its cell.
pub proof fn lemma_self_collision(g: GameView)
    requires
        g.has_head(),
    ensures
        g.segments().contains(g.head()) <==> exists|i: int|
            0 <= i < g.body.len() - 1 && g.body[i] == g.head(),
{
    if g.segments().contains(g.head()) {
        let k = choose|k: int| 0 <= k < g.segments().len() && g.segments()[k] == g.head();
        assert(g.body[k] == g.head());
    }
    if exists|i: int| 0 <= i < g.body.len() - 1 && g.body[i] == g.head() {
        let i = choose|i: int| 0 <= i < g.body.len() - 1 && g.body[i] == g.head();
        assert(g.segments()[i] == g.head());
    }
}

/// A new game: three cells (28, 30), (29, 30), (30, 30), tail first, with the head
/// at the centre (30, 30) moving right; no food yet, nothing pending, no tail cell
/// remembered, score 0, 150 ms per move, playing, nothing scheduled.
pub proof fn lemma_new_game(terminal: TerminalSize)
    ensures
        ({
            let g = GameView::initial(terminal);
            &&& g.body.len() == 3
            &&& g.body[0] == GridPos { x: 28, y: 30 }
            &&& g.body[1] == GridPos { x: 29, y: 30 }
            &&& g.body[2] == GridPos { x: 30, y: 30 }
            &&& g.direction == Direction::Right
            &&& g.food.len() == 0
            &&& g.pending is None
            &&& g.tail_pos is None
            &&& g.score == 0
            &&& g.move_interval_ms == 150
            &&& g.state == GameState::Playing
            &&& g.next_state is None
            &&& g.terminal == terminal
        }),
{
}

/// A restart puts back the new game's snake, score, speed and pending turn, keeps
/// the terminal size and the current phase, drops all food, and schedules playing.
pub proof fn lemma_reset_state(g: GameView)
    ensures
        ({
            let r = g.reset();
            let n = GameView::initial(g.terminal);
            &&& r.body == n.body
            &&& r.direction == Direction::Right
            &&& r.food.len() == 0
            &&& r.pending is None
            &&& r.tail_pos is None
            &&& r.score == 0
            &&& r.move_interval_ms == 150
            &&& r.state == g.state
            &&& r.next_state == Some(GameState::Playing)
            &&& r.terminal == g.terminal
        }),
{
}

/// Checking for food removes exactly one food from the head's cell when there is
/// one there, namely the first in the list, and keeps the rest in order; otherwise
/// nothing changes. Nothing but the food changes.
pub proof fn lemma_eat_removes_one(g: GameView)
    requires
        g.has_head(),
    ensures
        ({
            let r = g.food_eaten();
            &&& r.body == g.body && r.score == g.score && r.tail_pos == g.tail_pos
            &&& !g.food.contains(g.head()) ==> r.food == g.food
            &&& g.food.contains(g.head()) ==> exists|i: int|
                0 <= i < g.food.len() && g.food[i] == g.head() && (forall|j: int|
                    0 <= j < i ==> g.food[j] != g.head()) && r.food == g.food.remove(i)
        }),
{
    let h = g.head();
    if g.food.contains(h) {
        lemma_first_index(g.food, h);
        let i = choose|i: int|
            0 <= i < g.food.len() && g.food[i] == h && (forall|j: int|
                0 <= j < i ==> g.food[j] != h);
        lemma_remove_first_at(g.food, h, i);
    } else {
        lemma_remove_first_absent(g.food, h);
    }
}

/// A cell that occurs in a list occurs somewhere for the first time.
pub proof fn lemma_first_index(s: Seq<GridPos>, p: GridPos)
    requires
        s.contains(p),
    ensures
        exists|i: int|
            0 <= i < s.len() && s[i] == p && (forall|j: int| 0 <= j < i ==> s[j] != p),
    decreases s.len(),
{
    if s[0] == p {
        assert(s[0] == p && (forall|j: int| 0 <= j < 0 ==> s[j] != p));
    } else {
        let t = s.drop_first();
        let k = choose|k: int| 0 <= k < s.len() && s[k] == p;
        assert(t[k - 1] == p);
        lemma_first_index(t, p);
        let i = choose|i: int|
            0 <= i < t.len() && t[i] == p && (forall|j: int| 0 <= j < i ==> t[j] != p);
        assert forall|j: int| 0 <= j < i + 1 implies s[j] != p by {
            if j > 0 {
                assert(s[j] == t[j - 1]);
            }
        }
        assert(s[i + 1] == p);
    }
}

/// Growing by `n` puts `n` new segments in front of the tail, all on the cell the
/// tail left at the last move, and keeps the rest of the snake; without a
/// remembered cell nothing grows. Nothing but the body changes.
pub proof fn lemma_growth(g: GameView, n: nat)
    ensures
        ({
            let r = g.grown(n);
            &&& r.food == g.food && r.score == g.score && r.tail_pos == g.tail_pos
            &&& g.tail_pos is None ==> r.body == g.body
            &&& g.tail_pos matches Some(t) ==> {
                &&& r.body.len() == g.body.len() + n
                &&& forall|i: int| 0 <= i < n ==> r.body[i] == t
                &&& forall|i: int| 0 <= i < g.body.len() ==> r.body[i + n] == g.body[i]
            }
        }),
{
}

/// Scoring `n` foods adds `n` points and sets the interval to 150 ms less 4 ms per
/// point, at least 70 ms; scoring none changes nothing. Nothing but the score and
/// the interval changes.
pub proof fn lemma_scoring(g: GameView, n: nat)
    requires
        g.score + n <= u32::MAX,
    ensures
        ({
            let r = g.scored(n);
            &&& r.body == g.body && r.food == g.food && r.state == g.state
            &&& r.score == g.score + n
            &&& n > 0 ==> r.move_interval_ms == (if 150 - 4 * r.score < 70 {
                70
            } else {
                150 - 4 * r.score
            })
            &&& n == 0 ==> r.move_interval_ms == g.move_interval_ms
        }),
{
}

/// A game-over notification schedules game over; without one nothing changes.
/// Either way the world itself is untouched.
pub proof fn lemma_game_over_notice(g: GameView, events: nat)
    ensures
        events > 0 ==> g.game_over_handled(events).next_state == Some(GameState::GameOver),
        events == 0 ==> g.game_over_handled(events) == g,
        g.game_over_handled(events).state == g.state,
        g.game_over_handled(events).body == g.body,
        g.game_over_handled(events).score == g.score,
{
}

/// The scheduled phase switch takes effect and clears the schedule; without one
/// nothing changes.
pub proof fn lemma_phase_switch(g: GameView)
    ensures
        g.next_state matches Some(s) ==> g.transitioned().state == s
            && g.transitioned().next_state is None,
        g.next_state is None ==> g.transitioned() == g,
        g.transitioned().body == g.body && g.transitioned().score == g.score,
{
}

/// After resize notifications the terminal has the size of the last one; without
/// any it keeps its size. Nothing else changes.
pub proof fn lemma_resize(g: GameView, msgs: Seq<Resize>)
    ensures
        msgs.len() > 0 ==> g.resized(msgs).terminal.cols == msgs[msgs.len() - 1].width
            && g.resized(msgs).terminal.rows == msgs[msgs.len() - 1].height,
        msgs.len() == 0 ==> g.resized(msgs) == g,
        g.resized(msgs).body == g.body && g.resized(msgs).pending == g.pending,
{
}

/// A cell is listed as free exactly when it is on the playfield and holds neither
/// part of the snake nor food, and no free cell is listed twice.
pub proof fn lemma_free_cells(g: GameView, p: GridPos)
    ensures
        g.free_cells().contains(p) <==> in_grid(p) && !g.body.contains(p) && !g.food.contains(p),
{
    let pred = |q: GridPos| g.is_free(q);
    if g.free_cells().contains(p) {
        all_cells().lemma_filter_contains_rev(pred, p);
        lemma_all_cells_in_grid(p);
        let k = choose|k: int| 0 <= k < g.free_cells().len() && g.free_cells()[k] == p;
        all_cells().lemma_filter_pred(pred, k);
    }
    if in_grid(p) && !g.body.contains(p) && !g.food.contains(p) {
        let i = p.y * 60 + p.x;
        assert(all_cells()[i] == p);
        all_cells().lemma_filter_contains(pred, i);
    }
}

/// What the board shows at a cell of the playfield: the head if it is there, else
/// food if there is some, else a body segment if one is there, else nothing.
pub proof fn lemma_board_cell(g: GameView, p: GridPos)
    ensures
        (cell_for(g, p) == Cell::Head) <==> (g.has_head() && g.head() == p),
        (cell_for(g, p) == Cell::Food) <==> (!(g.has_head() && g.head() == p) && g.food.contains(
            p,
        )),
        (cell_for(g, p) == Cell::Body) <==> (!(g.has_head() && g.head() == p)
            && !g.food.contains(p) && exists|i: int| 0 <= i < g.body.len() - 1 && g.body[i] == p),
{
    if g.has_head() {
        if g.segments().contains(p) {
            let k = choose|k: int| 0 <= k < g.segments().len() && g.segments()[k] == p;
            assert(g.body[k] == p);
        }
        if exists|i: int| 0 <= i < g.body.len() - 1 && g.body[i] == p {
            let i = choose|i: int| 0 <= i < g.body.len() - 1 && g.body[i] == p;
            assert(g.segments()[i] == p);
        }
    }
}

/// While playing, the restart key does nothing: a frame never lowers the score or
/// shortens the snake, and the timer restarts exactly when a point was scored.
pub proof fn lemma_no_restart_while_playing(
    g: GameView,
    keys: Seq<KeyMessage>,
    resizes: Seq<Resize>,
    move_due: bool,
    pick: nat,
)
    requires
        g.input_read(keys).resized(resizes).transitioned().state == GameState::Playing,
        g.score < u32::MAX,
    ensures
        ({
            let a = g.input_read(keys).resized(resizes).transitioned();
            let r = g.after_frame(keys, resizes, move_due, pick);
            &&& r.score == a.score || r.score == a.score + 1
            &&& r.body.len() >= a.body.len()
            &&& g.timer_restarted(keys, resizes, move_due) <==> r.score == a.score + 1
        }),
{
}

/// After game over, a frame restarts the game exactly when `r` is pressed: the
/// fresh snake, score 0, 150 ms per move, one food if the board has room, and
/// playing from the next frame. Without `r` nothing but the pending turn and the
/// terminal size changes.
pub proof fn lemma_restart_after_game_over(
    g: GameView,
    keys: Seq<KeyMessage>,
    resizes: Seq<Resize>,
    move_due: bool,
    pick: nat,
)
    requires
        g.input_read(keys).resized(resizes).transitioned().state == GameState::GameOver,
    ensures
        ({
            let a = g.input_read(keys).resized(resizes).transitioned();
            let r = g.after_frame(keys, resizes, move_due, pick);
            &&& restart_pressed(keys) ==> {
                &&& r.body == GameView::initial(g.terminal).body
                &&& r.score == 0
                &&& r.move_interval_ms == 150
                &&& r.food.len() == 1
                &&& r.next_state == Some(GameState::Playing)
                &&& g.timer_restarted(keys, resizes, move_due)
            }
            &&& !restart_pressed(keys) ==> r == a && !g.timer_restarted(keys, resizes, move_due)
        }),
{
    let a = g.input_read(keys).resized(resizes).transitioned();
    if restart_pressed(keys) {
        lemma_restart_is_fresh(a, pick);
    }
}

/// The position of a cell in row-major order: row by row, left to right.
pub open spec fn row_major(p: GridPos) -> int {
    p.y * 60 + p.x
}

/// Whether `s` lists its cells in strictly increasing row-major order.
pub open spec fn row_major_sorted(s: Seq<GridPos>) -> bool {
    forall|i: int, j: int| 0 <= i < j < s.len() ==> row_major(s[i]) < row_major(s[j])
}

/// Keeping some entries of a list sorted in row-major order keeps it sorted.
pub proof fn lemma_filter_keeps_order(s: Seq<GridPos>, pred: spec_fn(GridPos) -> bool)
    requires
        row_major_sorted(s),
    ensures
        row_major_sorted(s.filter(pred)),
    decreases s.len(),
{
    reveal(Seq::filter);
    if s.len() > 0 {
        let rest = s.drop_last();
        assert(row_major_sorted(rest)) by {
            assert forall|i: int, j: int| 0 <= i < j < rest.len() implies row_major(rest[i])
                < row_major(rest[j]) by {
                assert(rest[i] == s[i] && rest[j] == s[j]);
            }
        }
        lemma_filter_keeps_order(rest, pred);
        let fr = rest.filter(pred);
        if pred(s.last()) {
            let f = fr.push(s.last());
            assert(s.filter(pred) == f);
            assert forall|i: int, j: int| 0 <= i < j < f.len() implies row_major(f[i])
                < row_major(f[j]) by {
                if j == f.len() - 1 {
                    assert(fr.contains(f[i])) by {
                        assert(fr[i] == f[i]);
                    }
                    rest.lemma_filter_contains_rev(pred, f[i]);
                    let k = choose|k: int| 0 <= k < rest.len() && rest[k] == f[i];
                    assert(s[k] == f[i]);
                    assert(s[s.len() - 1] == s.last());
                } else {
                    assert(f[i] == fr[i] && f[j] == fr[j]);
                }
            }
        }
    }
}

/// Free cells are listed row by row, left to right, so `spawn_food_at` with pick
/// `k` takes the `k`-th free cell in reading order.
pub proof fn lemma_free_cells_in_reading_order(g: GameView)
    ensures
        row_major_sorted(g.free_cells()),
{
    assert forall|i: int, j: int| 0 <= i < j < all_cells().len() implies row_major(
        all_cells()[i],
    ) < row_major(all_cells()[j]) by {
        assert(row_major(all_cells()[i]) == i);
        assert(row_major(all_cells()[j]) == j);
    }
    lemma_filter_keeps_order(all_cells(), |p: GridPos| g.is_free(p));
}

/// Placing one food adds exactly one food, on a free cell, when there is room, and
/// every free cell is the outcome of some pick; with no free cell nothing changes.
pub proof fn lemma_food_placement(g: GameView, pick: nat, c: GridPos)
    ensures
        g.free_cells().len() > 0 ==> exists|q: GridPos|
            g.food_spawned(pick).food == g.food.push(q) && in_grid(q) && !g.body.contains(q)
                && !g.food.contains(q),
        g.free_cells().contains(c) ==> exists|k: nat| g.food_spawned(k).food == g.food.push(c),
        g.free_cells().len() == 0 ==> g.food_spawned(pick) == g,
        g.food_spawned(pick).body == g.body,
{
    let free = g.free_cells();
    if free.len() > 0 {
        let q = free[(pick % free.len()) as int];
        assert(free.contains(q));
        lemma_free_cells(g, q);
    }
    if free.contains(c) {
        let k = choose|k: int| 0 <= k < free.len() && free[k] == c;
        assert((k as nat) % free.len() == k as nat) by {
            vstd::arithmetic::div_mod::lemma_small_mod(k as nat, free.len());
        }
        assert(g.food_spawned(k as nat).food == g.food.push(c));
    }
}

/// Placing food for several notifications adds one food per notification, each on
/// a cell that was free before any of them was placed; with no free cell nothing
/// changes.
pub proof fn lemma_foods_placement(g: GameView, picks: Seq<nat>)
    ensures
        g.free_cells().len() > 0 ==> {
            let r = g.foods_spawned(picks);
            &&& r.food.len() == g.food.len() + picks.len()
            &&& forall|i: int| 0 <= i < g.food.len() ==> r.food[i] == g.food[i]
            &&& forall|j: int|
                0 <= j < picks.len() ==> #[trigger] g.free_cells().contains(r.food[g.food.len() + j])
        },
        g.free_cells().len() == 0 ==> g.foods_spawned(picks) == g,
        g.foods_spawned(picks).body == g.body,
{
    let free = g.free_cells();
    if free.len() > 0 {
        let r = g.foods_spawned(picks);
        assert forall|j: int| 0 <= j < picks.len() implies #[trigger] free.contains(
            r.food[g.food.len() + j],
        ) by {
            let k = (picks[j] % free.len()) as int;
            assert(r.food[g.food.len() + j] == free[k]);
        }
    }
}

} // verus!
