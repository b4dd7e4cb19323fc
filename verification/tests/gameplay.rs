use snake::components::{Direction, GridPos};
use snake::config::{GRID_HEIGHT, GRID_WIDTH, SPEED_INITIAL_MS};
use snake::game::Game;
use snake::resources::{KeyCode, KeyEventKind, KeyMessage, Resize, TerminalSize};
use snake::schedule::{FrameInput, FrameOutput};
use snake::state::GameState;
use snake::systems::input::direction_for_key;
use snake::systems::lifecycle::handle_quit;
use snake::systems::scoring::move_interval_ms;

fn press(code: KeyCode) -> KeyMessage {
    KeyMessage { code, kind: KeyEventKind::Press }
}

fn frame(game: &mut Game, keys: Vec<KeyMessage>, move_due: bool) -> FrameOutput {
    assert!(game.frame_ready());
    game.frame(&FrameInput { keys, resizes: Vec::new(), move_due })
}

fn head(game: &Game) -> GridPos {
    *game.body.last().unwrap()
}

fn on_snake(game: &Game, p: GridPos) -> bool {
    game.body.contains(&p)
}

fn in_grid(p: GridPos) -> bool {
    p.x >= 0 && p.x < GRID_WIDTH && p.y >= 0 && p.y < GRID_HEIGHT
}

/// A game with the single food moved to `p`.
fn with_food_at(mut game: Game, p: GridPos) -> Game {
    game.food = vec![p];
    game
}

#[test]
fn new_game_has_centre_snake_and_one_free_food() {
    let game = Game::new(TerminalSize::default());
    assert_eq!(
        game.body,
        vec![GridPos { x: 28, y: 30 }, GridPos { x: 29, y: 30 }, GridPos { x: 30, y: 30 }]
    );
    assert_eq!(game.direction, Direction::Right);
    assert_eq!(game.score, 0);
    assert_eq!(game.move_interval_ms, 150);
    assert_eq!(game.state, GameState::Playing);
    assert_eq!(game.food.len(), 1);
    assert!(in_grid(game.food[0]));
    assert!(!on_snake(&game, game.food[0]));
}

#[test]
fn all_three_control_schemes_steer_alike() {
    let up = [KeyCode::Up, KeyCode::Char('w'), KeyCode::Char('W'), KeyCode::Char('k')];
    let down = [KeyCode::Down, KeyCode::Char('s'), KeyCode::Char('S'), KeyCode::Char('j')];
    let left = [KeyCode::Left, KeyCode::Char('a'), KeyCode::Char('A'), KeyCode::Char('h')];
    let right = [KeyCode::Right, KeyCode::Char('d'), KeyCode::Char('D'), KeyCode::Char('l')];
    for k in up {
        assert_eq!(direction_for_key(k), Some(Direction::Up));
    }
    for k in down {
        assert_eq!(direction_for_key(k), Some(Direction::Down));
    }
    for k in left {
        assert_eq!(direction_for_key(k), Some(Direction::Left));
    }
    for k in right {
        assert_eq!(direction_for_key(k), Some(Direction::Right));
    }
    for k in [KeyCode::Char('x'), KeyCode::Char('q'), KeyCode::Esc, KeyCode::Other, KeyCode::Char('K')] {
        assert_eq!(direction_for_key(k), None);
    }
}

#[test]
fn reversing_key_is_ignored() {
    let mut game = Game::new(TerminalSize::default());
    for k in [KeyCode::Left, KeyCode::Char('h'), KeyCode::Char('a'), KeyCode::Char('A')] {
        game.read_input(&vec![press(k)]);
        assert_eq!(game.pending, None);
    }
    game.read_input(&vec![press(KeyCode::Char('k'))]);
    assert_eq!(game.pending, Some(Direction::Up));
}

#[test]
fn key_releases_and_repeats_do_not_steer() {
    let mut game = Game::new(TerminalSize::default());
    game.read_input(&vec![
        KeyMessage { code: KeyCode::Up, kind: KeyEventKind::Release },
        KeyMessage { code: KeyCode::Down, kind: KeyEventKind::Repeat },
    ]);
    assert_eq!(game.pending, None);
}

#[test]
fn last_steering_press_wins() {
    let mut game = Game::new(TerminalSize::default());
    game.read_input(&vec![press(KeyCode::Up), press(KeyCode::Left), press(KeyCode::Down)]);
    assert_eq!(game.pending, Some(Direction::Down));
}

#[test]
fn move_advances_head_and_segments_follow() {
    let mut game = Game::new(TerminalSize::default());
    game.food = vec![GridPos { x: 0, y: 0 }];
    game.move_snake();
    assert_eq!(
        game.body,
        vec![GridPos { x: 29, y: 30 }, GridPos { x: 30, y: 30 }, GridPos { x: 31, y: 30 }]
    );
    assert_eq!(game.tail_pos, Some(GridPos { x: 28, y: 30 }));
}

#[test]
fn pending_turn_is_taken_at_the_next_move() {
    let mut game = with_food_at(Game::new(TerminalSize::default()), GridPos { x: 0, y: 0 });
    frame(&mut game, vec![press(KeyCode::Char('k'))], false);
    assert_eq!(head(&game), GridPos { x: 30, y: 30 });
    assert_eq!(game.pending, Some(Direction::Up));
    frame(&mut game, Vec::new(), true);
    assert_eq!(head(&game), GridPos { x: 30, y: 29 });
    assert_eq!(game.direction, Direction::Up);
    assert_eq!(game.pending, None);
}

#[test]
fn eating_food_grows_scores_and_speeds_up() {
    let mut game = with_food_at(Game::new(TerminalSize::default()), GridPos { x: 31, y: 30 });
    let out = frame(&mut game, Vec::new(), true);
    assert!(out.restart_timer);
    assert!(!out.quit);
    assert_eq!(game.score, 1);
    assert_eq!(game.move_interval_ms, 146);
    assert_eq!(
        game.body,
        vec![
            GridPos { x: 28, y: 30 },
            GridPos { x: 29, y: 30 },
            GridPos { x: 30, y: 30 },
            GridPos { x: 31, y: 30 },
        ]
    );
    assert_eq!(game.food.len(), 1);
    assert!(!on_snake(&game, game.food[0]));
    assert!(in_grid(game.food[0]));
}

#[test]
fn five_foods_make_an_eight_cell_snake() {
    let mut game = Game::new(TerminalSize::default());
    for i in 0..5 {
        let h = head(&game);
        game.food = vec![GridPos { x: h.x + 1, y: h.y }];
        let out = frame(&mut game, Vec::new(), true);
        assert!(out.restart_timer);
        assert_eq!(game.score, i + 1);
    }
    assert_eq!(game.body.len(), 8);
    assert_eq!(head(&game), GridPos { x: 35, y: 30 });
}

#[test]
fn no_move_without_timer() {
    let mut game = with_food_at(Game::new(TerminalSize::default()), GridPos { x: 0, y: 0 });
    let before = game.body.clone();
    let out = frame(&mut game, Vec::new(), false);
    assert_eq!(game.body, before);
    assert_eq!(out, FrameOutput { quit: false, restart_timer: false });
}

#[test]
fn speed_follows_score_down_to_the_floor() {
    assert_eq!(move_interval_ms(0), 150);
    assert_eq!(move_interval_ms(1), 146);
    assert_eq!(move_interval_ms(10), 110);
    assert_eq!(move_interval_ms(20), 70);
    assert_eq!(move_interval_ms(21), 70);
    assert_eq!(move_interval_ms(u32::MAX), 70);
}

#[test]
fn hitting_the_wall_ends_the_game_next_frame() {
    let mut game = with_food_at(Game::new(TerminalSize::default()), GridPos { x: 0, y: 0 });
    game.body = vec![GridPos { x: 57, y: 5 }, GridPos { x: 58, y: 5 }, GridPos { x: 59, y: 5 }];
    frame(&mut game, Vec::new(), true);
    assert_eq!(head(&game), GridPos { x: 60, y: 5 });
    assert!(game.check_wall_collision());
    assert_eq!(game.state, GameState::Playing);
    assert_eq!(game.next_state, Some(GameState::GameOver));
    frame(&mut game, Vec::new(), true);
    assert_eq!(game.state, GameState::GameOver);
    assert_eq!(head(&game), GridPos { x: 60, y: 5 });
}

#[test]
fn walls_on_every_side() {
    let mut game = Game::new(TerminalSize::default());
    for (p, hit) in [
        (GridPos { x: -1, y: 3 }, true),
        (GridPos { x: 60, y: 3 }, true),
        (GridPos { x: 3, y: -1 }, true),
        (GridPos { x: 3, y: 60 }, true),
        (GridPos { x: 0, y: 0 }, false),
        (GridPos { x: 59, y: 59 }, false),
    ] {
        game.body = vec![p];
        assert_eq!(game.check_wall_collision(), hit);
    }
}

#[test]
fn running_into_the_body_ends_the_game() {
    let mut game = with_food_at(Game::new(TerminalSize::default()), GridPos { x: 0, y: 0 });
    // A snake bent so that moving up enters its own segment.
    game.body = vec![
        GridPos { x: 9, y: 9 },
        GridPos { x: 10, y: 9 },
        GridPos { x: 11, y: 9 },
        GridPos { x: 11, y: 10 },
        GridPos { x: 10, y: 10 },
    ];
    game.direction = Direction::Left;
    game.score = 2;
    game.move_interval_ms = 142;
    game.read_input(&vec![press(KeyCode::Up)]);
    frame(&mut game, Vec::new(), true);
    assert_eq!(head(&game), GridPos { x: 10, y: 9 });
    assert!(game.check_self_collision());
    assert_eq!(game.next_state, Some(GameState::GameOver));
}

#[test]
fn open_space_has_no_collision() {
    let game = Game::new(TerminalSize::default());
    assert!(!game.check_self_collision());
    assert!(!game.check_wall_collision());
}

#[test]
fn restart_resets_everything() {
    let mut game = with_food_at(Game::new(TerminalSize::default()), GridPos { x: 0, y: 0 });
    game.body = vec![
        GridPos { x: 55, y: 5 },
        GridPos { x: 56, y: 5 },
        GridPos { x: 57, y: 5 },
        GridPos { x: 58, y: 5 },
        GridPos { x: 59, y: 5 },
    ];
    game.score = 2;
    game.move_interval_ms = 142;
    frame(&mut game, Vec::new(), true);
    frame(&mut game, Vec::new(), false);
    assert_eq!(game.state, GameState::GameOver);
    // `r` in the game-over phase restarts.
    let out = frame(&mut game, vec![press(KeyCode::Char('r'))], false);
    assert!(out.restart_timer);
    assert_eq!(game.score, 0);
    assert_eq!(game.move_interval_ms, SPEED_INITIAL_MS);
    assert_eq!(
        game.body,
        vec![GridPos { x: 28, y: 30 }, GridPos { x: 29, y: 30 }, GridPos { x: 30, y: 30 }]
    );
    assert_eq!(game.direction, Direction::Right);
    assert_eq!(game.pending, None);
    assert_eq!(game.tail_pos, None);
    assert_eq!(game.food.len(), 1);
    assert!(!on_snake(&game, game.food[0]));
    assert_eq!(game.state, GameState::GameOver);
    frame(&mut game, Vec::new(), false);
    assert_eq!(game.state, GameState::Playing);
}

#[test]
fn r_while_playing_does_nothing() {
    let mut game = with_food_at(Game::new(TerminalSize::default()), GridPos { x: 0, y: 0 });
    game.score = 0;
    let out = frame(&mut game, vec![press(KeyCode::Char('r'))], false);
    assert!(!out.restart_timer);
    assert_eq!(game.food, vec![GridPos { x: 0, y: 0 }]);
}

#[test]
fn q_or_esc_quits() {
    assert!(handle_quit(&vec![press(KeyCode::Char('q'))]));
    assert!(handle_quit(&vec![press(KeyCode::Esc)]));
    assert!(!handle_quit(&vec![KeyMessage { code: KeyCode::Char('q'), kind: KeyEventKind::Release }]));
    assert!(!handle_quit(&vec![press(KeyCode::Char('Q')), press(KeyCode::Up)]));
    let mut game = Game::new(TerminalSize::default());
    assert!(frame(&mut game, vec![press(KeyCode::Esc)], false).quit);
}

#[test]
fn last_resize_wins() {
    let mut game = Game::new(TerminalSize::default());
    game.handle_resize(&vec![Resize { width: 100, height: 40 }, Resize { width: 120, height: 50 }]);
    assert_eq!(game.terminal, TerminalSize { cols: 120, rows: 50 });
    game.handle_resize(&Vec::new());
    assert_eq!(game.terminal, TerminalSize { cols: 120, rows: 50 });
}

#[test]
fn grow_without_a_move_adds_nothing() {
    let mut game = Game::new(TerminalSize::default());
    game.grow_snake(1);
    assert_eq!(game.body.len(), 3);
    game.tail_pos = Some(GridPos { x: 1, y: 2 });
    game.grow_snake(2);
    assert_eq!(game.body[0], GridPos { x: 1, y: 2 });
    assert_eq!(game.body[1], GridPos { x: 1, y: 2 });
    assert_eq!(game.body.len(), 5);
}

#[test]
fn update_score_counts_each_food() {
    let mut game = Game::new(TerminalSize::default());
    assert!(!game.update_score(0));
    assert_eq!(game.score, 0);
    assert!(game.update_score(3));
    assert_eq!(game.score, 3);
    assert_eq!(game.move_interval_ms, 138);
}

#[test]
fn food_is_placed_on_a_free_cell_in_row_order() {
    let mut game = Game::new(TerminalSize::default());
    game.food = Vec::new();
    game.body = vec![GridPos { x: 0, y: 0 }, GridPos { x: 1, y: 0 }];
    game.spawn_food_at(0);
    assert_eq!(game.food, vec![GridPos { x: 2, y: 0 }]);
    game.spawn_food_at(57);
    assert_eq!(game.food[1], GridPos { x: 0, y: 1 });
    assert_eq!(game.free_cells().len(), 3600 - 4);
}

#[test]
fn eating_removes_only_the_food_under_the_head() {
    let mut game = Game::new(TerminalSize::default());
    game.food = vec![GridPos { x: 1, y: 1 }];
    assert!(!game.check_food_eaten());
    assert_eq!(game.food.len(), 1);
    game.food = vec![GridPos { x: 30, y: 30 }];
    assert!(game.check_food_eaten());
    assert!(game.food.is_empty());
}

#[test]
fn game_over_waits_for_a_notification() {
    let mut game = Game::new(TerminalSize::default());
    game.handle_game_over(0);
    assert_eq!(game.next_state, None);
    game.handle_game_over(2);
    assert_eq!(game.next_state, Some(GameState::GameOver));
    game.apply_state_transition();
    assert_eq!(game.state, GameState::GameOver);
    assert_eq!(game.next_state, None);
}

#[test]
fn frame_ready_refuses_an_overflowing_head() {
    let mut game = Game::new(TerminalSize::default());
    assert!(game.frame_ready());
    game.body = vec![GridPos { x: i32::MAX, y: 0 }];
    assert!(!game.frame_ready());
    game.body = Vec::new();
    assert!(game.frame_ready());
    game.score = u32::MAX;
    assert!(!game.frame_ready());
}

fn adjacent(a: GridPos, b: GridPos) -> bool {
    (a.x - b.x).abs() + (a.y - b.y).abs() == 1
}

fn no_gaps_no_overlaps(game: &Game) -> bool {
    let linked = game.body.windows(2).all(|w| adjacent(w[0], w[1]));
    let mut cells = game.body.clone();
    cells.sort_by_key(|p| (p.x, p.y));
    cells.dedup();
    linked && cells.len() == game.body.len()
}

#[test]
fn segments_follow_without_gaps_or_overlaps() {
    let mut game = Game::new(TerminalSize::default());
    let turns = [KeyCode::Up, KeyCode::Left, KeyCode::Down, KeyCode::Right];
    for step in 0..40 {
        if step % 5 == 0 {
            let k = turns[(step / 5) % 4];
            frame(&mut game, vec![press(k)], false);
        }
        let h = head(&game);
        let ahead = match game.pending.unwrap_or(game.direction) {
            Direction::Up => GridPos { x: h.x, y: h.y - 1 },
            Direction::Down => GridPos { x: h.x, y: h.y + 1 },
            Direction::Left => GridPos { x: h.x - 1, y: h.y },
            Direction::Right => GridPos { x: h.x + 1, y: h.y },
        };
        if step % 3 == 0 && in_grid(ahead) && !on_snake(&game, ahead) {
            game.food = vec![ahead];
        }
        frame(&mut game, Vec::new(), true);
        if game.next_state.is_some() {
            break;
        }
        assert!(no_gaps_no_overlaps(&game));
        assert_eq!(game.body.len(), game.score as usize + 3);
        assert!(game.food.iter().all(|f| !on_snake(&game, *f) && in_grid(*f)));
        assert_eq!(game.food.len(), 1);
    }
}

#[test]
fn without_a_snake_systems_do_nothing() {
    let mut game = Game::new(TerminalSize::default());
    game.body = Vec::new();
    assert!(!game.check_wall_collision());
    assert!(!game.check_self_collision());
    assert!(!game.check_food_eaten());
    game.pending = Some(Direction::Up);
    game.move_snake();
    assert!(game.body.is_empty());
    assert_eq!(game.direction, Direction::Up);
    assert_eq!(game.pending, None);
    let board = game.board();
    assert_eq!(board.cell(game.food[0].x as usize, game.food[0].y as usize), snake::systems::render::Cell::Food);
}

#[test]
fn food_lands_on_varying_free_cells() {
    let mut seen = Vec::new();
    for _ in 0..20 {
        let mut game = Game::new(TerminalSize::default());
        game.food = Vec::new();
        game.spawn_food();
        assert_eq!(game.food.len(), 1);
        assert!(in_grid(game.food[0]));
        assert!(!on_snake(&game, game.food[0]));
        if !seen.contains(&game.food[0]) {
            seen.push(game.food[0]);
        }
    }
    assert!(seen.len() > 1);
}

#[test]
fn a_full_board_gets_no_food() {
    let mut game = Game::new(TerminalSize::default());
    game.food = Vec::new();
    game.body = (0..3600).map(|i| GridPos { x: i % 60, y: i / 60 }).collect();
    assert!(game.free_cells().is_empty());
    game.spawn_food();
    assert!(game.food.is_empty());
    game.spawn_food_at(7);
    assert!(game.food.is_empty());
}

#[test]
fn each_notification_places_a_food_on_a_cell_free_at_the_start() {
    let mut game = Game::new(TerminalSize::default());
    game.food = Vec::new();
    // Every cell but (59, 59) is taken by the snake.
    game.body = (0..3599).map(|i| GridPos { x: i % 60, y: i / 60 }).collect();
    game.spawn_new_food(2);
    assert_eq!(game.food, vec![GridPos { x: 59, y: 59 }, GridPos { x: 59, y: 59 }]);
    game.spawn_new_food(0);
    assert_eq!(game.food.len(), 2);
}

#[test]
fn new_food_per_notification_lands_on_free_cells() {
    let mut game = Game::new(TerminalSize::default());
    let before = game.food.clone();
    game.spawn_new_food(3);
    assert_eq!(game.food.len(), before.len() + 3);
    for f in &game.food[before.len()..] {
        assert!(in_grid(*f));
        assert!(!on_snake(&game, *f));
        assert!(!before.contains(f));
    }
}
