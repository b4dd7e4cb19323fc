//! Food placement, eating and growth.
use vstd::prelude::*;

use crate::components::GridPos;
use crate::config::{GRID_CELLS, GRID_WIDTH};
use crate::game::{Game, GameView};

verus! {

/// The cell with row-major index `i` (row `i / GRID_WIDTH`, column `i % GRID_WIDTH`).
pub open spec fn cell_at(i: int) -> GridPos {
    GridPos { x: (i % (GRID_WIDTH as int)) as i32, y: (i / (GRID_WIDTH as int)) as i32 }
}

/// Every cell of the playfield, row by row.
pub open spec fn all_cells() -> Seq<GridPos> {
    Seq::new(GRID_CELLS as nat, |i: int| cell_at(i))
}

/// `s` without its first occurrence of `p`.
pub open spec fn remove_first(s: Seq<GridPos>, p: GridPos) -> Seq<GridPos>
    decreases s.len(),
{
    if s.len() == 0 {
        s
    } else if s[0] == p {
        s.drop_first()
    } else {
        seq![s[0]] + remove_first(s.drop_first(), p)
    }
}

/// Removing the first occurrence is removing at the first index that holds it.
pub proof fn lemma_remove_first_at(s: Seq<GridPos>, p: GridPos, i: int)
    requires
        0 <= i < s.len(),
        s[i] == p,
        forall|j: int| 0 <= j < i ==> s[j] != p,
    ensures
        remove_first(s, p) == s.remove(i),
    decreases i,
{
    if i == 0 {
        assert(s.drop_first() =~= s.remove(0));
    } else {
        lemma_remove_first_at(s.drop_first(), p, i - 1);
        assert(seq![s[0]] + s.drop_first().remove(i - 1) =~= s.remove(i));
    }
}

impl GameView {
    /// Whether no part of the snake and no food lies on `p`.
    pub open spec fn is_free(self, p: GridPos) -> bool {
        !self.body.contains(p) && !self.food.contains(p)
    }

    /// The free cells of the playfield, row by row.
    pub open spec fn free_cells(self) -> Seq<GridPos> {
        all_cells().filter(|p: GridPos| self.is_free(p))
    }

    /// The world after food was put on free cell number `pick` (counted modulo the
    /// number of free cells); unchanged when no cell is free.
    pub open spec fn food_spawned(self, pick: nat) -> GameView {
        let free = self.free_cells();
        if free.len() == 0 {
            self
        } else {
            GameView { food: self.food.push(free[(pick % free.len()) as int]), ..self }
        }
    }

    /// The world after one new food per entry of `picks`: the free cells are taken
    /// once, before any of them is placed, and entry `j` puts food on free cell
    /// number `picks[j]` (modulo their number). Unchanged when no cell is free.
    pub open spec fn foods_spawned(self, picks: Seq<nat>) -> GameView {
        let free = self.free_cells();
        if free.len() == 0 {
            self
        } else {
            GameView {
                food: self.food + picks.map_values(|p: nat| free[(p % free.len()) as int]),
                ..self
            }
        }
    }

    /// The world after the head's check for food: the first food on the head's cell
    /// is gone.
    pub open spec fn food_eaten(self) -> GameView {
        if self.has_head() {
            GameView { food: remove_first(self.food, self.head()), ..self }
        } else {
            self
        }
    }

    /// The world after `events` food-eaten notifications: each puts a new segment on
    /// the cell the tail left at the last move, in front of the tail.
    pub open spec fn grown(self, events: nat) -> GameView {
        match self.tail_pos {
            Some(p) => GameView {
                body: Seq::new(events, |i: int| p) + self.body,
                ..self
            },
            None => self,
        }
    }
}

#[verifier::external_type_specification]
#[verifier::external_body]
pub struct ExStdRng(rand::rngs::StdRng);

/// A generator seeded from the operating system's random source, or `None` when that
/// source fails.
///
/// Calls `rand::SeedableRng::try_from_os_rng` for `rand::rngs::StdRng`, which returns
/// the source's error instead of panicking; the error is dropped. Nothing is claimed
/// of the generator.
#[verifier::external_body]
fn os_seeded_rng() -> (rng: Option<rand::rngs::StdRng>) {
    <rand::rngs::StdRng as rand::SeedableRng>::try_from_os_rng().ok()
}

/// Draws an index below `n` from `rng`.
///
/// Calls `rand::Rng::random_range(0..n)`. The contract claims only that the result lies
/// in the range; which index comes back is left open, as is the generator's new state.
/// `random_range` panics on an empty range, hence `n > 0`.
#[verifier::external_body]
fn random_below(rng: &mut rand::rngs::StdRng, n: usize) -> (r: usize)
    requires
        n > 0,
    ensures
        r < n,
{
    rand::Rng::random_range(rng, 0..n)
}

/// Draws an index below `n`: uniformly at random when a generator could be seeded,
/// otherwise index `0`.
fn draw_index(rng: &mut Option<rand::rngs::StdRng>, n: usize) -> (r: usize)
    requires
        n > 0,
    ensures
        r < n,
{
    match rng {
        Some(g) => random_below(g, n),
        None => 0,
    }
}

/// Whether `p` is among `cells`.
pub fn contains_pos(cells: &Vec<GridPos>, p: GridPos) -> (b: bool)
    ensures
        b == cells@.contains(p),
{
    let mut i: usize = 0;
    while i < cells.len()
        invariant
            i <= cells@.len(),
            forall|j: int| 0 <= j < i ==> cells@[j] != p,
        decreases cells.len() - i,
    {
        if cells[i] == p {
            assert(cells@[i as int] == p);
            return true;
        }
        i = i + 1;
    }
    false
}

impl Game {
    /// Whether no part of the snake and no food lies on `p`.
    pub fn is_free(&self, p: GridPos) -> (b: bool)
        ensures
            b == self@.is_free(p),
    {
        !contains_pos(&self.body, p) && !contains_pos(&self.food, p)
    }

    /// The free cells of the playfield, row by row.
    pub fn free_cells(&self) -> (cells: Vec<GridPos>)
        ensures
            cells@ == self@.free_cells(),
    {
        let ghost pred = |p: GridPos| self@.is_free(p);
        let mut cells: Vec<GridPos> = Vec::new();
        let mut i: usize = 0;
        while i < GRID_CELLS
            invariant
                i <= GRID_CELLS,
                pred == (|p: GridPos| self@.is_free(p)),
                cells@ == all_cells().take(i as int).filter(pred),
            decreases GRID_CELLS - i,
        {
            let w = GRID_WIDTH as usize;
            let cell = GridPos { x: (i % w) as i32, y: (i / w) as i32 };
            assert(cell == all_cells()[i as int]);
            assert(all_cells().take(i + 1).drop_last() =~= all_cells().take(i as int));
            reveal_with_fuel(Seq::filter, 1);
            if self.is_free(cell) {
                cells.push(cell);
            }
            i = i + 1;
        }
        assert(all_cells().take(GRID_CELLS as int) =~= all_cells());
        cells
    }

    /// Puts food on free cell number `pick` (modulo the number of free cells);
    /// does nothing when no cell is free.
    pub fn spawn_food_at(&mut self, pick: usize)
        ensures
            final(self)@ == old(self)@.food_spawned(pick as nat),
    {
        let free = self.free_cells();
        if free.len() > 0 {
            let cell = free[pick % free.len()];
            self.food.push(cell);
        }
    }

    /// Puts food on a free cell chosen uniformly at random, the same distribution as
    /// drawing cells until a free one comes up. When no cell is free (the snake fills
    /// the board) no food is placed. When the operating system's random source cannot
    /// seed a generator, the first free cell is taken.
    pub fn spawn_food(&mut self)
        ensures
            exists|pick: nat| final(self)@ == old(self)@.food_spawned(pick),
    {
        let n = self.free_cells().len();
        if n > 0 {
            let mut rng = os_seeded_rng();
            let pick = draw_index(&mut rng, n);
            self.spawn_food_at(pick);
            assert(final(self)@ == old(self)@.food_spawned(pick as nat));
        } else {
            assert(final(self)@ == old(self)@.food_spawned(0));
        }
    }

    /// When food lies on the head's cell, removes (the first) such food and reports
    /// that food was eaten.
    pub fn check_food_eaten(&mut self) -> (eaten: bool)
        ensures
            eaten == (old(self)@.has_head() && old(self)@.food.contains(old(self)@.head())),
            final(self)@ == old(self)@.food_eaten(),
    {
        if self.body.len() == 0 {
            return false;
        }
        let head = self.body[self.body.len() - 1];
        let mut i: usize = 0;
        while i < self.food.len()
            invariant
                self@ == old(self)@,
                self@.has_head(),
                head == self@.head(),
                i <= self@.food.len(),
                forall|j: int| 0 <= j < i ==> self@.food[j] != head,
            decreases self@.food.len() - i,
        {
            if self.food[i] == head {
                proof {
                    lemma_remove_first_at(self@.food, head, i as int);
                }
                self.food.remove(i);
                return true;
            }
            i = i + 1;
        }
        proof {
            lemma_remove_first_absent(self@.food, head);
        }
        false
    }

    /// Adds one segment per food-eaten notification, at the cell the tail left at
    /// the last move, in front of the tail; nothing when no move happened yet.
    pub fn grow_snake(&mut self, events: usize)
        ensures
            final(self)@ == old(self)@.grown(events as nat),
    {
        match self.tail_pos {
            Some(pos) => {
                let mut k: usize = 0;
                while k < events
                    invariant
                        k <= events,
                        self.tail_pos == Some(pos),
                        self@ == old(self)@.grown(k as nat),
                    decreases events - k,
                {
                    self.body.insert(0, pos);
                    k = k + 1;
                    assert(self@.body =~= Seq::new(k as nat, |i: int| pos) + old(self)@.body);
                }
            },
            None => {},
        }
    }

    /// Places one new food per food-eaten notification, each on a random cell that
    /// was free when the call started (the new foods do not see each other). When no
    /// cell is free no food is placed; when the operating system's random source
    /// cannot seed a generator, the first free cell is taken.
    pub fn spawn_new_food(&mut self, events: usize)
        ensures
            exists|picks: Seq<nat>|
                picks.len() == events && final(self)@ == old(self)@.foods_spawned(picks),
    {
        let free = self.free_cells();
        let n = free.len();
        if n == 0 {
            assert(self@ == old(self)@.foods_spawned(Seq::new(events as nat, |j: int| 0nat)));
            return;
        }
        let mut rng = os_seeded_rng();
        let ghost mut picks: Seq<nat> = Seq::empty();
        let mut k: usize = 0;
        while k < events
            invariant
                k <= events,
                n == free@.len(),
                n > 0,
                free@ == old(self)@.free_cells(),
                picks.len() == k,
                self@ == old(self)@.foods_spawned(picks),
            decreases events - k,
        {
            let pick = draw_index(&mut rng, n);
            let cell = free[pick % n];
            self.food.push(cell);
            proof {
                let f = |p: nat| free@[(p % (n as nat)) as int];
                assert(picks.push(pick as nat).map_values(f) =~= picks.map_values(f).push(cell));
                picks = picks.push(pick as nat);
            }
            k = k + 1;
        }
    }
}

/// Removing an absent cell changes nothing.
pub proof fn lemma_remove_first_absent(s: Seq<GridPos>, p: GridPos)
    requires
        !s.contains(p),
    ensures
        remove_first(s, p) == s,
    decreases s.len(),
{
    if s.len() > 0 {
        assert(!s.drop_first().contains(p)) by {
            if s.drop_first().contains(p) {
                let k = choose|k: int| 0 <= k < s.drop_first().len() && s.drop_first()[k] == p;
                assert(s[k + 1] == p);
            }
        }
        lemma_remove_first_absent(s.drop_first(), p);
        assert(s[0] != p) by {
            if s[0] == p {
                assert(s.contains(p));
            }
        }
        assert(seq![s[0]] + s.drop_first() =~= s);
    }
}

} // verus!
