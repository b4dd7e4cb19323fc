use snake::components::GridPos;
use snake::game::Game;
use snake::resources::TerminalSize;
use snake::systems::render::{board_origin, overlay_origin, set_cell, Board, Cell, Tint};

#[test]
fn board_shows_head_food_and_body() {
    let mut game = Game::new(TerminalSize::default());
    game.food = vec![GridPos { x: 5, y: 7 }];
    let board = game.board();
    assert_eq!(board.cell(30, 30), Cell::Head);
    assert_eq!(board.cell(29, 30), Cell::Body);
    assert_eq!(board.cell(28, 30), Cell::Body);
    assert_eq!(board.cell(5, 7), Cell::Food);
    assert_eq!(board.cell(0, 0), Cell::Empty);
    let count = board.cells.iter().filter(|c| **c != Cell::Empty).count();
    assert_eq!(count, 4);
}

#[test]
fn head_is_drawn_over_food_and_body() {
    let mut game = Game::new(TerminalSize::default());
    game.food = vec![GridPos { x: 30, y: 30 }, GridPos { x: 29, y: 30 }];
    let board = game.board();
    assert_eq!(board.cell(30, 30), Cell::Head);
    assert_eq!(board.cell(29, 30), Cell::Food);
}

#[test]
fn off_board_positions_are_ignored() {
    let mut board = Board::empty();
    set_cell(&mut board, GridPos { x: -1, y: 0 }, Cell::Head);
    set_cell(&mut board, GridPos { x: 60, y: 0 }, Cell::Head);
    set_cell(&mut board, GridPos { x: 0, y: 60 }, Cell::Head);
    assert!(board.cells.iter().all(|c| *c == Cell::Empty));
    set_cell(&mut board, GridPos { x: 59, y: 59 }, Cell::Food);
    assert_eq!(board.cell(59, 59), Cell::Food);
}

#[test]
fn glyphs_and_tints() {
    assert_eq!(Cell::Head.glyph(), "@");
    assert_eq!(Cell::Body.glyph(), "O");
    assert_eq!(Cell::Food.glyph(), "*");
    assert_eq!(Cell::Empty.glyph(), " ");
    assert_eq!(Cell::Head.tint(), Tint::LightGreen);
    assert_eq!(Cell::Body.tint(), Tint::Green);
    assert_eq!(Cell::Food.tint(), Tint::LightRed);
    assert_eq!(Cell::Empty.tint(), Tint::Plain);
}

#[test]
fn board_is_centred_in_the_terminal() {
    assert_eq!(board_origin(TerminalSize { cols: 80, rows: 24 }), (9, 0));
    assert_eq!(board_origin(TerminalSize { cols: 200, rows: 100 }), (69, 19));
    assert_eq!(board_origin(TerminalSize { cols: 63, rows: 63 }), (0, 0));
    assert_eq!(board_origin(TerminalSize { cols: 10, rows: 10 }), (0, 0));
}

#[test]
fn overlay_is_centred_in_the_board() {
    assert_eq!(overlay_origin(1, 1, 60, 60), (1 + 17, 1 + 27));
    assert_eq!(overlay_origin(5, 5, 10, 3), (5, 5));
}
