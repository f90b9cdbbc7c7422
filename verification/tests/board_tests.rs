use tetris::block::Block;
use tetris::coords::Coordinates;
use tetris::game::{GameState, KeyEvent, Tetris};
use tetris::pieces::{Color, Piece};
use tetris::square::Square;
use tetris::{COLS, ROWS};

fn empty_board() -> Vec<Vec<Square>> {
    vec![vec![Square::Empty; COLS]; ROWS]
}

fn block_at(cells: [(usize, usize); 4]) -> Block {
    Block {
        position: cells.map(|(row, col)| Coordinates { row, col }),
        color: Color::Red,
        piece: Piece::O,
        rotation_pos: 0,
    }
}

fn session(board: Vec<Vec<Square>>, current: Block) -> Tetris {
    Tetris {
        board,
        current_block: current,
        next_block: block_at([(1, 4), (1, 5), (2, 4), (2, 5)]),
        points: 0,
        state: GameState::Playing,
    }
}

#[test]
fn lock_fills_last_gap_and_clears_exactly_that_row() {
    // A 10-column, 23-row board whose row 20 is fully occupied except
    // column 9; a marker sits at (19, 0). Locking a piece that fills
    // (20, 9) removes exactly row 20, shifts the rows above down by one,
    // inserts one empty row at the top, and scores one point.
    let mut board = empty_board();
    for col in 0..9 {
        board[20][col] = Square::Occupied(Color::Blue);
    }
    board[19][0] = Square::Occupied(Color::Green);
    // The piece fills (20, 9); its other cells sit in empty columns above.
    let piece = block_at([(20, 9), (19, 9), (18, 9), (17, 9)]);
    let mut t = session(board, piece);
    t.add_current_block();
    t.remove_lines_completed();

    assert_eq!(t.points, 1);
    assert_eq!(t.board.len(), ROWS);
    // The top row is freshly empty.
    assert!(t.board[0].iter().all(|sq| *sq == Square::Empty));
    // The marker moved from row 19 to row 20.
    assert_eq!(t.board[20][0], Square::Occupied(Color::Green));
    // The piece's surviving cells moved down one row each.
    assert_eq!(t.board[20][9], Square::Occupied(Color::Red));
    assert_eq!(t.board[19][9], Square::Occupied(Color::Red));
    assert_eq!(t.board[18][9], Square::Occupied(Color::Red));
    // The completed row is gone: no fully occupied row remains.
    for row in &t.board {
        assert!(row.iter().any(|sq| *sq == Square::Empty));
    }
}

#[test]
fn clearing_two_rows_scores_two_points() {
    let mut board = empty_board();
    for col in 0..COLS {
        board[21][col] = Square::Occupied(Color::Blue);
        board[22][col] = Square::Occupied(Color::Violet);
    }
    board[20][3] = Square::Occupied(Color::Green);
    let mut t = session(board, block_at([(1, 1), (1, 2), (2, 1), (2, 2)]));
    t.points = 7;
    t.remove_lines_completed();
    assert_eq!(t.points, 9);
    assert_eq!(t.board.len(), ROWS);
    assert_eq!(t.board[22][3], Square::Occupied(Color::Green));
    assert!(t.board[21].iter().all(|sq| *sq == Square::Empty));
}

#[test]
fn clearing_nothing_changes_nothing() {
    let mut board = empty_board();
    board[22][0] = Square::Occupied(Color::Blue);
    let before = board.clone();
    let mut t = session(board, block_at([(1, 1), (1, 2), (2, 1), (2, 2)]));
    t.points = 3;
    t.remove_lines_completed();
    assert_eq!(t.board, before);
    assert_eq!(t.points, 3);
}

#[test]
fn collision_cases_exact() {
    let mut board = empty_board();
    board[10][4] = Square::Occupied(Color::Blue);
    let t = session(board, block_at([(1, 1), (1, 2), (2, 1), (2, 2)]));
    // A cell at column == COLS collides.
    assert!(t.is_collision(&block_at([(5, COLS), (5, 5), (6, 5), (6, 6)])));
    // A cell at row == ROWS collides.
    assert!(t.is_collision(&block_at([(ROWS, 5), (5, 5), (6, 5), (6, 6)])));
    // A cell on a settled cell collides.
    assert!(t.is_collision(&block_at([(10, 4), (5, 5), (6, 5), (6, 6)])));
    // Otherwise no collision.
    assert!(!t.is_collision(&block_at([(10, 5), (5, 5), (6, 5), (6, 6)])));
}

#[test]
fn game_ends_only_when_top_buffer_rows_are_reached() {
    let mut board = empty_board();
    board[2][4] = Square::Occupied(Color::Blue);
    let t = session(board, block_at([(10, 5), (5, 5), (6, 5), (6, 6)]));
    assert!(!t.is_end());

    let mut board = empty_board();
    board[1][4] = Square::Occupied(Color::Blue);
    let t = session(board, block_at([(10, 5), (5, 5), (6, 5), (6, 6)]));
    assert!(t.is_end());

    let mut board = empty_board();
    board[0][9] = Square::Occupied(Color::Blue);
    let t = session(board, block_at([(10, 5), (5, 5), (6, 5), (6, 6)]));
    assert!(t.is_end());
}

#[test]
fn can_block_move_respects_walls_and_stacks() {
    let mut board = empty_board();
    board[12][5] = Square::Occupied(Color::Blue);
    let t = session(
        board,
        block_at([(11, 5), (11, 6), (10, 5), (10, 6)]),
    );
    // Down is blocked by the settled cell at (12, 5).
    assert!(!t.can_block_move(KeyEvent::Down));
    assert!(t.can_block_move(KeyEvent::Left));
    assert!(t.can_block_move(KeyEvent::Right));
    // A non-movement key can never "move".
    assert!(!t.can_block_move(KeyEvent::Rotate));

    // Against the left wall, Left is refused.
    let t = session(empty_board(), block_at([(11, 0), (11, 1), (10, 0), (10, 1)]));
    assert!(!t.can_block_move(KeyEvent::Left));
    // Against the right wall, Right is refused.
    let t = session(empty_board(), block_at([(11, 8), (11, 9), (10, 8), (10, 9)]));
    assert!(!t.can_block_move(KeyEvent::Right));
    // On the floor, Down is refused.
    let t = session(empty_board(), block_at([(22, 4), (22, 5), (21, 4), (21, 5)]));
    assert!(!t.can_block_move(KeyEvent::Down));
}

#[test]
fn left_at_column_zero_is_a_no_op() {
    let mut b = block_at([(11, 0), (11, 1), (10, 0), (10, 1)]);
    let before = b;
    b.left();
    assert_eq!(b, before);

    // Away from the wall the whole block moves one column left.
    let mut b = block_at([(11, 3), (11, 4), (10, 3), (10, 4)]);
    b.left();
    assert_eq!(b, block_at([(11, 2), (11, 3), (10, 2), (10, 3)]));
}

#[test]
fn block_down_falls_or_settles() {
    // Free below: the block falls one row and nothing settles.
    let mut t = session(empty_board(), block_at([(10, 4), (10, 5), (9, 4), (9, 5)]));
    assert_eq!(t.block_down(), Ok(()));
    assert_eq!(t.current_block.position[0], Coordinates { row: 11, col: 4 });
    assert!(t.board[10][4] == Square::Empty);

    // Grounded: the block settles and the preview block is promoted.
    let mut t = session(empty_board(), block_at([(22, 4), (22, 5), (21, 4), (21, 5)]));
    let next = t.next_block;
    assert_eq!(t.block_down(), Ok(()));
    assert_eq!(t.board[22][4], Square::Occupied(Color::Red));
    assert_eq!(t.current_block, next);

    // Grounded with the stack at the buffer: settling reports game over.
    let mut board = empty_board();
    for row in 3..ROWS {
        board[row][7] = Square::Occupied(Color::Blue);
    }
    let mut t = session(board, block_at([(2, 7), (2, 8), (1, 7), (1, 8)]));
    assert_eq!(t.block_down(), Err(()));
}

#[test]
fn is_wf_accepts_fresh_sessions_and_rejects_malformed_grids() {
    assert!(Tetris::new().is_wf());
    let mut t = session(empty_board(), block_at([(1, 1), (1, 2), (2, 1), (2, 2)]));
    t.board.pop();
    assert!(!t.is_wf());
}
