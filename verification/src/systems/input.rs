//! Keyboard and terminal input.
use vstd::prelude::*;

use crate::components::{opposite_of, Direction};
use crate::game::{Game, GameView};
use crate::resources::{KeyCode, KeyEventKind, KeyMessage, Resize, TerminalSize};

verus! {

/// The direction a key steers to, under all three control schemes: arrow keys,
/// WASD (either case) and vim's hjkl.
pub open spec fn key_direction(code: KeyCode) -> Option<Direction> {
    match code {
        KeyCode::Up => Some(Direction::Up),
        KeyCode::Down => Some(Direction::Down),
        KeyCode::Left => Some(Direction::Left),
        KeyCode::Right => Some(Direction::Right),
        KeyCode::Char(c) => if c == 'w' || c == 'W' || c == 'k' {
            Some(Direction::Up)
        } else if c == 's' || c == 'S' || c == 'j' {
            Some(Direction::Down)
        } else if c == 'a' || c == 'A' || c == 'h' {
            Some(Direction::Left)
        } else if c == 'd' || c == 'D' || c == 'l' {
            Some(Direction::Right)
        } else {
            None
        },
        _ => None,
    }
}

/// The pending turn after the key events `msgs`, read in order, starting from
/// `pending`: each press of a steering key replaces it, unless the key would
/// reverse the snake's current direction `current`.
pub open spec fn pending_after(
    pending: Option<Direction>,
    current: Direction,
    msgs: Seq<KeyMessage>,
) -> Option<Direction>
    decreases msgs.len(),
{
    if msgs.len() == 0 {
        pending
    } else {
        let before = pending_after(pending, current, msgs.drop_last());
        let m = msgs.last();
        if m.kind != KeyEventKind::Press {
            before
        } else {
            match key_direction(m.code) {
                Some(c) => if c == opposite_of(current) {
                    before
                } else {
                    Some(c)
                },
                None => before,
            }
        }
    }
}

/// The terminal size after the resize notifications `msgs`: the last one wins.
pub open spec fn size_after(size: TerminalSize, msgs: Seq<Resize>) -> TerminalSize {
    if msgs.len() == 0 {
        size
    } else {
        TerminalSize { cols: msgs.last().width, rows: msgs.last().height }
    }
}

impl GameView {
    /// The world after the key events `msgs` were read for steering.
    pub open spec fn input_read(self, msgs: Seq<KeyMessage>) -> GameView {
        GameView { pending: pending_after(self.pending, self.direction, msgs), ..self }
    }

    /// The world after the resize notifications `msgs`.
    pub open spec fn resized(self, msgs: Seq<Resize>) -> GameView {
        GameView { terminal: size_after(self.terminal, msgs), ..self }
    }
}

/// The direction a key steers to, if any.
pub fn direction_for_key(code: KeyCode) -> (d: Option<Direction>)
    ensures
        d == key_direction(code),
{
    match code {
        KeyCode::Up | KeyCode::Char('w') | KeyCode::Char('W') | KeyCode::Char('k') => Some(
            Direction::Up,
        ),
        KeyCode::Down | KeyCode::Char('s') | KeyCode::Char('S') | KeyCode::Char('j') => Some(
            Direction::Down,
        ),
        KeyCode::Left | KeyCode::Char('a') | KeyCode::Char('A') | KeyCode::Char('h') => Some(
            Direction::Left,
        ),
        KeyCode::Right | KeyCode::Char('d') | KeyCode::Char('D') | KeyCode::Char('l') => Some(
            Direction::Right,
        ),
        _ => None,
    }
}

impl Game {
    /// Turns key presses into a pending turn, ignoring presses that would reverse
    /// the snake.
    pub fn read_input(&mut self, msgs: &Vec<KeyMessage>)
        ensures
            final(self)@ == old(self)@.input_read(msgs@),
    {
        let current = self.direction;
        let mut i: usize = 0;
        while i < msgs.len()
            invariant
                i <= msgs@.len(),
                current == old(self)@.direction,
                self@ == (GameView {
                    pending: pending_after(old(self)@.pending, current, msgs@.take(i as int)),
                    ..old(self)@
                }),
            decreases msgs.len() - i,
        {
            let msg = msgs[i];
            assert(msgs@.take(i + 1).drop_last() =~= msgs@.take(i as int));
            assert(msgs@.take(i + 1).last() == msg);
            if msg.kind == KeyEventKind::Press {
                match direction_for_key(msg.code) {
                    Some(candidate) => {
                        if candidate != current.opposite() {
                            self.pending = Some(candidate);
                        }
                    },
                    None => {},
                }
            }
            i = i + 1;
        }
        assert(msgs@.take(msgs@.len() as int) =~= msgs@);
    }

    /// Takes the terminal size from the last resize notification, if any.
    pub fn handle_resize(&mut self, msgs: &Vec<Resize>)
        ensures
            final(self)@ == old(self)@.resized(msgs@),
    {
        if msgs.len() > 0 {
            let last = msgs[msgs.len() - 1];
            self.terminal = TerminalSize { cols: last.width, rows: last.height };
        }
    }
}

} // verus!
