use snake::resources::TerminalSize;
use snake::state::GameState;

#[test]
fn terminal_size_default_is_80x24() {
    let sut = TerminalSize::default();
    assert_eq!((sut.cols, sut.rows), (80, 24));
}

#[test]
fn game_state_default_is_playing() {
    assert_eq!(GameState::default(), GameState::Playing);
}
