use tetris::block::Block;
use tetris::coords::Coordinates;
use tetris::game::{GameEvent, GameState, KeyEvent, StepAction, Tetris};
use tetris::pieces::{Color, Piece};
use tetris::square::Square;
use tetris::{COLS, ROWS};

fn empty_board() -> Vec<Vec<Square>> {
    vec![vec![Square::Empty; COLS]; ROWS]
}

fn block_at(cells: [(usize, usize); 4]) -> Block {
    Block {
        position: cells.map(|(row, col)| Coordinates { row, col }),
        color: Color::Yellow,
        piece: Piece::O,
        rotation_pos: 0,
    }
}

fn session_in(state: GameState) -> Tetris {
    let mut board = empty_board();
    board[22][0] = Square::Occupied(Color::Blue);
    Tetris {
        board,
        current_block: block_at([(10, 4), (10, 5), (9, 4), (9, 5)]),
        next_block: block_at([(1, 4), (1, 5), (2, 4), (2, 5)]),
        points: 5,
        state,
    }
}

#[test]
fn endscreen_play_resets_the_session() {
    let mut t = session_in(GameState::EndScreen);
    let a = t.step(GameEvent::Key(KeyEvent::Play));
    assert_eq!(a, StepAction::Redraw);
    assert_eq!(t.state, GameState::Playing);
    assert_eq!(t.points, 0);
    assert_eq!(t.board.len(), ROWS);
    for row in &t.board {
        assert_eq!(row.len(), COLS);
        assert!(row.iter().all(|sq| *sq == Square::Empty));
    }
}

#[test]
fn pause_down_key_is_a_no_op() {
    let mut t = session_in(GameState::Pause);
    let before = t.clone();
    let a = t.step(GameEvent::Key(KeyEvent::Down));
    assert_eq!(a, StepAction::Redraw);
    assert_eq!(t.current_block, before.current_block);
    assert_eq!(t.board, before.board);
    assert_eq!(t, before);
}

#[test]
fn pause_toggles_with_the_pause_key() {
    let mut t = session_in(GameState::Playing);
    assert_eq!(t.step(GameEvent::Key(KeyEvent::Pause)), StepAction::Redraw);
    assert_eq!(t.state, GameState::Pause);
    assert_eq!(t.step(GameEvent::Key(KeyEvent::Pause)), StepAction::Redraw);
    assert_eq!(t.state, GameState::Playing);
}

#[test]
fn ticks_are_ignored_outside_playing() {
    for state in [GameState::Menu, GameState::Pause, GameState::EndScreen] {
        let mut t = session_in(state);
        let before = t.clone();
        let a = t.step(GameEvent::Tick);
        assert_eq!(t, before);
        if state == GameState::Menu {
            assert_eq!(a, StepAction::Nothing);
        } else {
            assert_eq!(a, StepAction::Redraw);
        }
    }
}

#[test]
fn quit_works_from_every_state() {
    for state in [
        GameState::Menu,
        GameState::Playing,
        GameState::Pause,
        GameState::EndScreen,
    ] {
        let mut t = session_in(state);
        assert_eq!(t.step(GameEvent::Key(KeyEvent::Quit)), StepAction::Quit);
    }
}

#[test]
fn menu_play_starts_without_resetting_the_board() {
    let mut t = session_in(GameState::Menu);
    let a = t.step(GameEvent::Key(KeyEvent::Play));
    assert_eq!(a, StepAction::ClearAndRedraw);
    assert_eq!(t.state, GameState::Playing);
    assert_eq!(t.points, 5);
    assert_eq!(t.board[22][0], Square::Occupied(Color::Blue));
}

#[test]
fn tick_moves_the_block_down_one_row() {
    let mut t = session_in(GameState::Playing);
    let a = t.step(GameEvent::Tick);
    assert_eq!(a, StepAction::Redraw);
    assert_eq!(t.state, GameState::Playing);
    assert_eq!(
        t.current_block.position,
        [
            Coordinates { row: 11, col: 4 },
            Coordinates { row: 11, col: 5 },
            Coordinates { row: 10, col: 4 },
            Coordinates { row: 10, col: 5 },
        ]
    );
}

#[test]
fn tick_settles_a_grounded_block_and_promotes_the_preview() {
    let mut t = session_in(GameState::Playing);
    t.current_block = block_at([(22, 4), (22, 5), (21, 4), (21, 5)]);
    let next = t.next_block;
    let a = t.step(GameEvent::Tick);
    assert_eq!(a, StepAction::Redraw);
    assert_eq!(t.state, GameState::Playing);
    // The old block settled in its color.
    assert_eq!(t.board[22][4], Square::Occupied(Color::Yellow));
    assert_eq!(t.board[21][5], Square::Occupied(Color::Yellow));
    // The preview block was promoted; a fresh preview was spawned.
    assert_eq!(t.current_block, next);
    assert!(t.next_block.rotation_pos < 4);
}

#[test]
fn tick_ends_the_game_when_the_stack_reaches_the_buffer() {
    let mut t = session_in(GameState::Playing);
    // A tall column under the block: settling it puts a cell in row 1.
    for row in 3..ROWS {
        t.board[row][7] = Square::Occupied(Color::Blue);
    }
    t.current_block = block_at([(2, 7), (2, 8), (1, 7), (1, 8)]);
    let a = t.step(GameEvent::Tick);
    assert_eq!(a, StepAction::Redraw);
    assert_eq!(t.state, GameState::EndScreen);
}

#[test]
fn tick_ends_the_game_when_the_promoted_block_collides() {
    let mut t = session_in(GameState::Playing);
    // The preview block's spawn cells are already settled.
    t.board[10][4] = Square::Occupied(Color::Blue);
    t.next_block = block_at([(10, 4), (10, 5), (9, 4), (9, 5)]);
    // The current block is grounded on the floor.
    t.current_block = block_at([(22, 2), (22, 3), (21, 2), (21, 3)]);
    let a = t.step(GameEvent::Tick);
    assert_eq!(a, StepAction::Redraw);
    assert_eq!(t.state, GameState::EndScreen);
}

#[test]
fn movement_keys_follow_the_move_contract() {
    let mut t = session_in(GameState::Playing);
    let start = t.current_block.position;
    t.step(GameEvent::Key(KeyEvent::Left));
    assert_eq!(t.current_block.position[0], Coordinates { row: 10, col: 3 });
    t.step(GameEvent::Key(KeyEvent::Right));
    assert_eq!(t.current_block.position, start);
    t.step(GameEvent::Key(KeyEvent::Down));
    assert_eq!(t.current_block.position[0], Coordinates { row: 11, col: 4 });
    // A blocked Left or Right leaves everything unchanged.
    let mut t = session_in(GameState::Playing);
    t.current_block = block_at([(11, 0), (11, 1), (10, 0), (10, 1)]);
    let before = t.clone();
    t.step(GameEvent::Key(KeyEvent::Left));
    assert_eq!(t, before);
}

#[test]
fn down_key_settles_a_grounded_block() {
    // For Down a collision means settle, exactly as under a gravity tick:
    // the block locks, lines are cleared, and the preview is promoted.
    let mut t = session_in(GameState::Playing);
    t.current_block = block_at([(22, 4), (22, 5), (21, 4), (21, 5)]);
    let next = t.next_block;
    let a = t.step(GameEvent::Key(KeyEvent::Down));
    assert_eq!(a, StepAction::Redraw);
    assert_eq!(t.state, GameState::Playing);
    assert_eq!(t.board[22][4], Square::Occupied(Color::Yellow));
    assert_eq!(t.board[21][5], Square::Occupied(Color::Yellow));
    assert_eq!(t.current_block, next);
}

#[test]
fn down_key_can_end_the_game() {
    let mut t = session_in(GameState::Playing);
    for row in 3..ROWS {
        t.board[row][7] = Square::Occupied(Color::Blue);
    }
    t.current_block = block_at([(2, 7), (2, 8), (1, 7), (1, 8)]);
    let a = t.step(GameEvent::Key(KeyEvent::Down));
    assert_eq!(a, StepAction::Redraw);
    assert_eq!(t.state, GameState::EndScreen);
}

#[test]
fn rotate_key_rederives_cells_from_the_anchor() {
    let mut t = session_in(GameState::Playing);
    // A vertical I in mid-board; rotating it gives the horizontal form.
    t.current_block = Block {
        position: [
            Coordinates { row: 10, col: 4 },
            Coordinates { row: 9, col: 4 },
            Coordinates { row: 8, col: 4 },
            Coordinates { row: 11, col: 4 },
        ],
        color: Color::Red,
        piece: Piece::I,
        rotation_pos: 1,
    };
    let a = t.step(GameEvent::Key(KeyEvent::Rotate));
    assert_eq!(a, StepAction::Redraw);
    assert_eq!(t.current_block.rotation_pos, 2);
    assert_eq!(
        t.current_block.position,
        [
            Coordinates { row: 10, col: 4 },
            Coordinates { row: 10, col: 5 },
            Coordinates { row: 10, col: 6 },
            Coordinates { row: 10, col: 3 },
        ]
    );
}
