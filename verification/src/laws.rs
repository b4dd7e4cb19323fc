//! Properties of the game that hold across its systems and frames.
use vstd::prelude::*;

use crate::components::{lemma_opposite_involution, opposite_of, Direction, GridPos};
use crate::config::{GRID_CELLS, SPEED_INITIAL_MS};
use crate::game::{adjacent, in_grid, linked, near_grid, no_repeats, GameView};
use crate::resources::{KeyMessage, Resize, TerminalSize};
use crate::state::GameState;
use crate::systems::food::{all_cells, lemma_remove_first_absent, remove_first};
use crate::systems::input::pending_after;
use crate::systems::lifecycle::restart_pressed;
use crate::systems::movement::initial_body;
use crate::systems::scoring::interval_for;

verus! {

broadcast use vstd::seq_lib::group_filter_ensures;

/// A steering key is only taken when it does not reverse the current direction:
/// whatever the key events, the pending turn afterwards is the old one or not the
/// reverse of the current direction.
pub proof fn lemma_turn_never_reverses(
    pending: Option<Direction>,
    current: Direction,
    msgs: Seq<KeyMessage>,
)
    ensures
        pending_after(pending, current, msgs) == pending || (pending_after(
            pending,
            current,
            msgs,
        ) matches Some(d) && d != opposite_of(current)),
    decreases msgs.len(),
{
    if msgs.len() > 0 {
        lemma_turn_never_reverses(pending, current, msgs.drop_last());
    }
}

/// Every cell of the playfield list lies on the playfield.
pub proof fn lemma_all_cells_in_grid(p: GridPos)
    requires
        all_cells().contains(p),
    ensures
        in_grid(p),
{
    let i = choose|i: int| 0 <= i < all_cells().len() && all_cells()[i] == p;
    assert(0 <= i < GRID_CELLS);
}

/// Food is always placed on a free cell of the playfield.
pub proof fn lemma_food_lands_free(g: GameView, pick: nat)
    requires
        g.free_cells().len() > 0,
    ensures
        g.food_spawned(pick).food == g.food.push(g.free_cells()[(pick % g.free_cells().len()) as int]),
        in_grid(g.free_cells()[(pick % g.free_cells().len()) as int]),
        g.is_free(g.free_cells()[(pick % g.free_cells().len()) as int]),
{
    let free = g.free_cells();
    let k = (pick % free.len()) as int;
    let pred = |p: GridPos| g.is_free(p);
    assert(free.contains(free[k]));
    all_cells().lemma_filter_contains_rev(pred, free[k]);
    lemma_all_cells_in_grid(free[k]);
}

/// Removing the first occurrence of `p` from a list without repeats leaves a list
/// without repeats, without `p`, and with nothing new.
pub proof fn lemma_remove_first_distinct(s: Seq<GridPos>, p: GridPos)
    requires
        forall|i: int, j: int| 0 <= i < j < s.len() ==> s[i] != s[j],
    ensures
        forall|i: int, j: int|
            0 <= i < j < remove_first(s, p).len() ==> remove_first(s, p)[i] != remove_first(
                s,
                p,
            )[j],
        !remove_first(s, p).contains(p),
        forall|q: GridPos| #[trigger] remove_first(s, p).contains(q) ==> s.contains(q),
        s.contains(p) ==> remove_first(s, p).len() + 1 == s.len(),
        !s.contains(p) ==> remove_first(s, p) == s,
    decreases s.len(),
{
    if s.len() > 0 {
        let t = s.drop_first();
        lemma_remove_first_distinct(t, p);
        let r = remove_first(s, p);
        if s[0] == p {
            assert(r == t);
            assert(!t.contains(p)) by {
                if t.contains(p) {
                    let k = choose|k: int| 0 <= k < t.len() && t[k] == p;
                    assert(s[k + 1] == s[0]);
                }
            }
            assert forall|q: GridPos| r.contains(q) implies s.contains(q) by {
                let k = choose|k: int| 0 <= k < r.len() && r[k] == q;
                assert(s[k + 1] == q);
            }
        } else {
            let rt = remove_first(t, p);
            assert(r == seq![s[0]] + rt);
            assert forall|q: GridPos| r.contains(q) implies s.contains(q) by {
                let k = choose|k: int| 0 <= k < r.len() && r[k] == q;
                if k == 0 {
                    assert(s[0] == q);
                } else {
                    assert(rt[k - 1] == q);
                    assert(rt.contains(q));
                    let m = choose|m: int| 0 <= m < t.len() && t[m] == q;
                    assert(s[m + 1] == q);
                }
            }
            assert(!r.contains(p)) by {
                if r.contains(p) {
                    let k = choose|k: int| 0 <= k < r.len() && r[k] == p;
                    if k > 0 {
                        assert(rt[k - 1] == p);
                    }
                }
            }
            assert forall|i: int, j: int| 0 <= i < j < r.len() implies r[i] != r[j] by {
                if i == 0 {
                    assert(rt.contains(r[j])) by {
                        assert(rt[j - 1] == r[j]);
                    }
                    if r[0] == r[j] {
                        let m = choose|m: int| 0 <= m < t.len() && t[m] == r[j];
                        assert(s[m + 1] == s[0]);
                    }
                } else {
                    assert(rt[i - 1] == r[i]);
                    assert(rt[j - 1] == r[j]);
                }
            }
            if s.contains(p) {
                let k = choose|k: int| 0 <= k < s.len() && s[k] == p;
                assert(t[k - 1] == p);
            } else {
                assert(!t.contains(p)) by {
                    if t.contains(p) {
                        let k = choose|k: int| 0 <= k < t.len() && t[k] == p;
                        assert(s[k + 1] == p);
                    }
                }
                assert(r =~= s);
            }
        }
    }
}

/// No cell is free exactly when every cell holds part of the snake or food.
pub proof fn lemma_no_free_cell_iff_full(g: GameView)
    ensures
        g.free_cells().len() == 0 <==> g.board_full(),
{
    let pred = |p: GridPos| g.is_free(p);
    if g.free_cells().len() > 0 {
        let c = g.free_cells()[0];
        all_cells().lemma_filter_pred(pred, 0);
        assert(g.free_cells().contains(c));
        all_cells().lemma_filter_contains_rev(pred, c);
        lemma_all_cells_in_grid(c);
        assert(!(g.body.contains(c) || g.food.contains(c)));
    }
    if !g.board_full() {
        let p = choose|p: GridPos| in_grid(p) && !(#[trigger] g.body.contains(p) || g.food.contains(p));
        let i = p.y * 60 + p.x;
        assert(all_cells()[i] == p);
        all_cells().lemma_filter_contains(pred, i);
    }
}

/// A fresh snake without food leaves room for food.
pub proof fn lemma_fresh_has_room(g: GameView)
    requires
        g.body == initial_body(),
        g.food.len() == 0,
    ensures
        g.free_cells().len() > 0,
{
    let c = GridPos { x: 0, y: 0 };
    assert(all_cells()[0] == c);
    assert(g.is_free(c)) by {
        if g.body.contains(c) {
            let k = choose|k: int| 0 <= k < g.body.len() && g.body[k] == c;
        }
    }
    all_cells().lemma_filter_contains(|p: GridPos| g.is_free(p), 0);
}

/// Placing food where there is none keeps every invariant: afterwards there is
/// exactly one food, or the board is full.
pub proof fn lemma_spawn_keeps_wf(g: GameView, pick: nat)
    requires
        g.wf_shape(),
        g.food.len() == 0,
    ensures
        g.food_spawned(pick).wf(),
        g.food_spawned(pick).body == g.body,
{
    let free = g.free_cells();
    lemma_no_free_cell_iff_full(g);
    if free.len() > 0 {
        lemma_food_lands_free(g, pick);
        let c = free[(pick % free.len()) as int];
        let f = g.food_spawned(pick);
        assert forall|i: int| 0 <= i < f.food.len() implies in_grid(#[trigger] f.food[i])
            && !f.body.contains(f.food[i]) by {
            if i < g.food.len() {
                assert(f.food[i] == g.food[i]);
            }
        }
        assert forall|i: int, j: int| 0 <= i < j < f.food.len() implies f.food[i] != f.food[j] by {
            if j == g.food.len() {
                assert(f.food[i] == g.food[i]);
                assert(g.food.contains(g.food[i]));
            }
        }
    }
}

/// A restart leads to a world that keeps every invariant.
pub proof fn lemma_reset_keeps_wf(g: GameView, pick: nat)
    ensures
        g.reset().wf_shape(),
        g.reset().food_spawned(pick).wf(),
{
    let r = g.reset();
    assert(r.body_in_grid()) by {
        assert forall|i: int| 0 <= i < r.body.len() implies #[trigger] in_grid(r.body[i]) by {}
    }
    assert forall|i: int| 0 <= i < r.body.len() implies #[trigger] near_grid(r.body[i]) by {}
    assert(interval_for(0) == 150);
    lemma_spawn_keeps_wf(r, pick);
}

/// A new game keeps every invariant.
pub proof fn lemma_start_keeps_wf(terminal: TerminalSize, pick: nat)
    ensures
        GameView::initial(terminal).wf_shape(),
        GameView::initial(terminal).food_spawned(pick).wf(),
{
    let g = GameView::initial(terminal);
    assert(g.body_in_grid()) by {
        assert forall|i: int| 0 <= i < g.body.len() implies #[trigger] in_grid(g.body[i]) by {}
    }
    assert forall|i: int| 0 <= i < g.body.len() implies #[trigger] near_grid(g.body[i]) by {}
    assert(interval_for(0) == 150);
    lemma_spawn_keeps_wf(g, pick);
}

/// Reading input and the scheduled phase switch keep every invariant; afterwards
/// nothing is scheduled, and a playing snake lies on the playfield.
pub proof fn lemma_input_keeps_wf(g: GameView, keys: Seq<KeyMessage>, resizes: Seq<Resize>)
    requires
        g.wf(),
    ensures
        g.input_read(keys).resized(resizes).transitioned().wf(),
        g.input_read(keys).resized(resizes).transitioned().next_state is None,
        g.input_read(keys).resized(resizes).transitioned().state == GameState::Playing
            ==> g.input_read(keys).resized(resizes).transitioned().body_in_grid(),
{
    lemma_turn_never_reverses(g.pending, g.direction, keys);
}

/// The playing systems of a frame keep every invariant: the snake stays on or next
/// to the playfield, no food lies on the snake, the score counts the segments
/// gained, the speed follows the score, and a snake that did not collide lies on
/// the playfield.
pub proof fn lemma_play_keeps_wf(a: GameView, move_due: bool, pick: nat)
    requires
        a.wf(),
        a.state == GameState::Playing,
        a.next_state is None,
        a.body_in_grid(),
        a.score < u32::MAX,
    ensures
        a.played(move_due, pick).wf(),
{
    let m = if move_due {
        a.moved()
    } else {
        a
    };
    let len = a.body.len();
    assert(m.body.len() == len);
    // Every cell of `m` but its head is a cell of `a`.
    assert forall|i: int| 0 <= i < len - 1 implies #[trigger] a.body.contains(m.body[i]) by {
        if move_due {
            assert(m.body[i] == a.body[i + 1]);
        } else {
            assert(m.body[i] == a.body[i]);
        }
    }
    assert(in_grid(a.head())) by {
        assert(in_grid(a.body[len - 1]));
    }
    assert(near_grid(m.head()));
    // Food can only be on the head after a move.
    assert(!a.food.contains(a.head())) by {
        if a.food.contains(a.head()) {
            let k = choose|k: int| 0 <= k < a.food.len() && a.food[k] == a.head();
            assert(!a.body.contains(a.food[k]));
            assert(a.body[len - 1] == a.head());
        }
    }
    assert(m.food == a.food);
    let eaten = m.on_food();
    let n: nat = if eaten {
        1
    } else {
        0
    };
    assert(eaten ==> move_due && m.tail_pos == Some(a.body[0]));
    lemma_remove_first_distinct(m.food, m.head());
    let e0 = m.food_eaten();
    let e1 = e0.grown(n);
    let e = e1.scored(n);
    let f = if eaten {
        e.food_spawned(pick)
    } else {
        e
    };
    let c = m.collided();
    let r = f.game_over_handled(
        if c {
            1
        } else {
            0
        },
    );
    assert(r == a.played(move_due, pick));
    assert(e.body.len() == len + n);
    assert(e.score == a.score + n);
    // The cells of the new body: the regrown tail, the old cells and the head.
    assert forall|k: int| 0 <= k < e.body.len() implies (k < e.body.len() - 1 ==> a.body.contains(
        #[trigger] e.body[k],
    )) && (k == e.body.len() - 1 ==> e.body[k] == m.head()) by {
        if eaten {
            if k == 0 {
                assert(e.body[k] == a.body[0]);
                assert(a.body.contains(a.body[0]));
            } else {
                assert(e.body[k] == m.body[k - 1]);
            }
        } else {
            assert(e.body[k] == m.body[k]);
        }
    }
    assert forall|k: int| 0 <= k < e.body.len() implies #[trigger] near_grid(e.body[k]) by {
        if k < e.body.len() - 1 {
            let j = choose|j: int| 0 <= j < len && a.body[j] == e.body[k];
            assert(in_grid(a.body[j]));
        }
    }
    // The food left after eating is old food other than the head's cell.
    assert forall|q: GridPos| e.food.contains(q) implies a.food.contains(q) && q != m.head() && !e.body.contains(q) by {
        assert(remove_first(m.food, m.head()).contains(q));
        let j = choose|j: int| 0 <= j < a.food.len() && a.food[j] == q;
        assert(!a.body.contains(a.food[j]));
        if e.body.contains(q) {
            let k = choose|k: int| 0 <= k < e.body.len() && e.body[k] == q;
            if k < e.body.len() - 1 {
                assert(a.body.contains(e.body[k]));
            }
        }
    }
    assert forall|i: int| 0 <= i < r.food.len() implies in_grid(#[trigger] r.food[i])
        && !r.body.contains(r.food[i]) by {
        if i < e.food.len() {
            assert(r.food[i] == e.food[i]);
            assert(e.food.contains(e.food[i]));
            let j = choose|j: int| 0 <= j < a.food.len() && a.food[j] == e.food[i];
            assert(in_grid(a.food[j]));
        } else {
            lemma_food_lands_free(e, pick);
        }
    }
    assert forall|i: int, j: int| 0 <= i < j < r.food.len() implies r.food[i] != r.food[j] by {
        if j >= e.food.len() {
            lemma_food_lands_free(e, pick);
            assert(r.food[i] == e.food[i]);
            assert(e.food.contains(e.food[i]));
        } else {
            assert(r.food[i] == e.food[i]);
            assert(r.food[j] == e.food[j]);
        }
    }
    if !c {
        assert forall|k: int| 0 <= k < r.body.len() implies #[trigger] in_grid(r.body[k]) by {
            if k < e.body.len() - 1 {
                let j = choose|j: int| 0 <= j < len && a.body[j] == e.body[k];
                assert(in_grid(a.body[j]));
            } else {
                assert(e.body[k] == m.head());
            }
        }
    }
    assert(r.pending matches Some(p) ==> p != opposite_of(r.direction));
    // No gaps: the moved body is linked, and so is the regrown tail.
    assert(move_due ==> adjacent(a.head(), m.head()));
    assert forall|i: int| 0 <= i < len - 1 implies #[trigger] linked(m.body, i) by {
        if move_due {
            if i < len - 2 {
                assert(linked(a.body, i + 1));
            } else {
                assert(m.body[i] == a.body[len - 1]);
            }
        } else {
            assert(linked(a.body, i));
        }
    }
    assert(move_due ==> adjacent(a.body[0], m.body[0])) by {
        if move_due {
            if len >= 2 {
                assert(linked(a.body, 0));
            } else {
                assert(m.body[0] == m.head());
            }
        }
    }
    assert forall|k: int| 0 <= k < e.body.len() - 1 implies #[trigger] linked(e.body, k) by {
        if eaten {
            if k > 0 {
                assert(linked(m.body, k - 1));
                assert(e.body[k] == m.body[k - 1]);
                assert(e.body[k + 1] == m.body[k]);
            } else {
                assert(e.body[0] == a.body[0]);
                assert(e.body[1] == m.body[0]);
            }
        } else {
            assert(linked(m.body, k));
        }
    }
    assert(r.connected());
    // No overlaps unless the snake ran into itself.
    if !c {
        assert(no_repeats(a.body));
        assert forall|i: int, j: int| 0 <= i < j < len implies m.body[i] != m.body[j] by {
            if move_due {
                if j == len - 1 {
                    assert(m.segments()[i] == m.body[i]);
                    assert(m.segments().contains(m.body[i]));
                } else {
                    assert(m.body[i] == a.body[i + 1]);
                    assert(m.body[j] == a.body[j + 1]);
                }
            }
        }
        assert forall|i: int, j: int| 0 <= i < j < e.body.len() implies e.body[i] != e.body[j] by {
            if eaten {
                if i == 0 {
                    assert(e.body[j] == m.body[j - 1]);
                    if j - 1 < len - 1 {
                        assert(m.body[j - 1] == a.body[j]);
                    } else {
                        assert(m.body[j - 1] == m.head());
                        assert(m.food.contains(m.head()));
                        let q = choose|q: int| 0 <= q < a.food.len() && a.food[q] == m.head();
                        assert(!a.body.contains(a.food[q]));
                        assert(a.body.contains(a.body[0]));
                    }
                } else {
                    assert(e.body[i] == m.body[i - 1]);
                    assert(e.body[j] == m.body[j - 1]);
                }
            }
        }
        assert(no_repeats(r.body));
        // Exactly one food, unless the board is full.
        if eaten {
            assert(a.food.len() == 1);
            assert(e.food.len() == 0);
            lemma_no_free_cell_iff_full(e);
            if e.free_cells().len() > 0 {
                lemma_food_lands_free(e, pick);
            } else {
                assert(r.body == e.body && r.food == e.food);
            }
        } else {
            if m.has_head() {
                lemma_remove_first_absent(m.food, m.head());
            }
            assert(r.food == a.food);
            assert(r.body == m.body);
            if a.food.len() != 1 {
                assert(a.food.len() == 0);
                assert forall|p: GridPos| in_grid(p) implies #[trigger] r.body.contains(p)
                    || r.food.contains(p) by {
                    assert(a.body.contains(p) || a.food.contains(p));
                    let k = choose|k: int| 0 <= k < len && a.body[k] == p;
                    if move_due {
                        if k >= 1 {
                            assert(m.body[k - 1] == p);
                        } else {
                            assert(in_grid(m.head()));
                            assert(a.body.contains(m.head()) || a.food.contains(m.head()));
                            let j = choose|j: int| 0 <= j < len && a.body[j] == m.head();
                            if j >= 1 {
                                assert(m.segments()[j - 1] == m.head());
                                assert(m.segments().contains(m.head()));
                            }
                            assert(m.body[len - 1] == p);
                        }
                    } else {
                        assert(m.body[k] == p);
                    }
                }
            }
        }
    }
}

/// Every frame keeps the invariants of play (as long as the score can still grow).
pub proof fn lemma_frame_keeps_wf(
    g: GameView,
    keys: Seq<KeyMessage>,
    resizes: Seq<Resize>,
    move_due: bool,
    pick: nat,
)
    requires
        g.wf(),
        g.score < u32::MAX,
    ensures
        g.after_frame(keys, resizes, move_due, pick).wf(),
{
    lemma_input_keeps_wf(g, keys, resizes);
    let a = g.input_read(keys).resized(resizes).transitioned();
    if a.state == GameState::Playing {
        lemma_play_keeps_wf(a, move_due, pick);
    } else if restart_pressed(keys) {
        lemma_reset_keeps_wf(a, pick);
    }
}

/// A world that keeps the invariants can always run its next frame, unless the
/// score is at its maximum.
pub proof fn lemma_wf_frame_ready(g: GameView)
    requires
        g.wf(),
        g.score < u32::MAX,
    ensures
        g.frame_ready(),
{
    assert(near_grid(g.body[g.body.len() - 1]));
}

/// The snake never reverses onto itself in one move.
pub proof fn lemma_move_never_reverses(g: GameView)
    requires
        g.wf(),
    ensures
        g.moved().direction != opposite_of(g.direction),
{
    lemma_opposite_involution(g.direction);
}

/// A collision ends the game: the switch to game over is scheduled, takes effect
/// at the start of the next frame, and from then on the snake no longer moves.
pub proof fn lemma_collision_ends_game(
    g: GameView,
    keys: Seq<KeyMessage>,
    resizes: Seq<Resize>,
    move_due: bool,
    pick: nat,
    keys2: Seq<KeyMessage>,
    resizes2: Seq<Resize>,
    move_due2: bool,
    pick2: nat,
)
    requires
        g.input_read(keys).resized(resizes).transitioned().state == GameState::Playing,
        ({
            let a = g.input_read(keys).resized(resizes).transitioned();
            if move_due {
                a.moved()
            } else {
                a
            }
        }).collided(),
        !restart_pressed(keys2),
    ensures
        g.after_frame(keys, resizes, move_due, pick).next_state == Some(GameState::GameOver),
        ({
            let r = g.after_frame(keys, resizes, move_due, pick);
            let r2 = r.after_frame(keys2, resizes2, move_due2, pick2);
            &&& r2.state == GameState::GameOver
            &&& r2.body == r.body
            &&& r2.food == r.food
            &&& r2.score == r.score
        }),
{
}

/// A restart brings back the initial game: the centre snake moving right, score
/// zero, initial speed, nothing pending, one food on a free cell, and playing from
/// the next frame on.
pub proof fn lemma_restart_is_fresh(g: GameView, pick: nat)
    ensures
        ({
            let r = g.reset().food_spawned(pick);
            &&& r.body == initial_body()
            &&& r.direction == Direction::Right
            &&& r.score == 0
            &&& r.move_interval_ms == SPEED_INITIAL_MS
            &&& r.pending is None
            &&& r.tail_pos is None
            &&& r.food.len() == 1
            &&& in_grid(r.food[0]) && !r.body.contains(r.food[0])
            &&& r.transitioned().state == GameState::Playing
        }),
{
    let z = g.reset();
    lemma_fresh_has_room(z);
    lemma_food_lands_free(z, pick);
}

/// Eating scores exactly one point, grows the snake by one segment on the cell its
/// tail just left, and sets the speed for the new score; a frame without eating
/// keeps the score, the length and the food.
pub proof fn lemma_eating_scores_and_grows(a: GameView, move_due: bool, pick: nat)
    requires
        a.wf(),
        a.state == GameState::Playing,
        a.next_state is None,
        a.score < u32::MAX,
    ensures
        ({
            let m = if move_due {
                a.moved()
            } else {
                a
            };
            let r = a.played(move_due, pick);
            if m.on_food() {
                &&& move_due
                &&& r.score == a.score + 1
                &&& r.body.len() == a.body.len() + 1
                &&& r.body[0] == a.body[0]
                &&& r.body.drop_first() == m.body
                &&& r.move_interval_ms == interval_for(r.score)
            } else {
                &&& r.score == a.score
                &&& r.body == m.body
                &&& r.food == m.food
                &&& r.move_interval_ms == a.move_interval_ms
            }
        }),
{
    let m = if move_due {
        a.moved()
    } else {
        a
    };
    assert(!a.food.contains(a.head())) by {
        if a.food.contains(a.head()) {
            let k = choose|k: int| 0 <= k < a.food.len() && a.food[k] == a.head();
            assert(!a.body.contains(a.food[k]));
            assert(a.body[a.body.len() - 1] == a.head());
        }
    }
    if m.on_food() {
        let e = m.food_eaten().grown(1);
        assert(e.body.drop_first() =~= m.body);
    } else {
        if m.has_head() {
            lemma_remove_first_absent(m.food, m.head());
        }
    }
}

} // verus!
