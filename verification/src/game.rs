//! The game session and its state machine: Menu, Playing, Pause and
//! EndScreen, driven by decoded key events and gravity ticks. The session
//! owns the settled grid, the falling and preview blocks, the score and
//! the state tag; `step` consumes one event and reports what the
//! surrounding program must do next.

use vstd::prelude::*;
use vstd::string::{StringExecFns, StrSliceExecFns};
use crate::block::{
    Block, block_translated, rotate_block_post, spawned,
};
use crate::board::{
    block_covers, block_in_bounds, cell_blocked, cell_free, cleared_grid, collides, empty_row,
    grid_wf, kept_rows, lemma_cleared_grid_wf, lemma_kept_rows_len, locked_grid, row_full,
    row_occupied, top_rows_occupied,
};
use crate::coords::Coordinates;
use crate::square::Square;
use crate::{COLS, ROWS};

verus! {

#[derive(Clone, Copy, Debug, PartialEq, Eq, Structural)]
pub enum GameState {
    Playing,
    Pause,
    Menu,
    EndScreen,
}

/// A decoded player input.
#[derive(Clone, Copy, Debug, PartialEq, Eq, Structural)]
pub enum KeyEvent {
    Down,
    Left,
    Right,
    Rotate,
    Quit,
    Play,
    Pause,
}

/// One entry of the session's event queue: a gravity tick or a key.
#[derive(Clone, Copy, Debug, PartialEq, Eq, Structural)]
pub enum GameEvent {
    Tick,
    Key(KeyEvent),
}

/// What the surrounding program must do after a step: stop the session,
/// clear the screen and redraw, redraw, or nothing.
#[derive(Clone, Copy, Debug, PartialEq, Eq, Structural)]
pub enum StepAction {
    Quit,
    ClearAndRedraw,
    Redraw,
    Nothing,
}

/// A message padded with spaces to the width of the longest message, 31
/// characters.
pub open spec fn padded(s: Seq<char>) -> Seq<char> {
    s + Seq::new((31 - s.len()) as nat, |i: int| ' ')
}

/// The two fixed-width message lines shown beside the board in a state.
pub open spec fn message_line(s: GameState, i: int) -> Seq<char> {
    match s {
        GameState::Pause => if i == 0 {
            padded("GAME PAUSED"@)
        } else {
            padded(""@)
        },
        GameState::EndScreen => if i == 0 {
            padded("YOU LOST!"@)
        } else {
            padded("Press p to restart or q to quit"@)
        },
        GameState::Playing | GameState::Menu => padded(""@),
    }
}

/// Appends spaces until the line is 31 characters wide.
fn pad_line(s: &str) -> (r: String)
    requires
        s@.len() <= 31,
    ensures
        r@ == padded(s@),
{
    let mut out = String::from_str(s);
    let mut k = s.unicode_len();
    while k < 31
        invariant
            s@.len() <= k == out@.len() <= 31,
            out@ == s@ + Seq::new((k - s@.len()) as nat, |i: int| ' '),
        decreases 31 - k,
    {
        out.append(" ");
        k = k + 1;
        proof {
            reveal_strlit(" ");
            assert(out@ =~= s@ + Seq::new((k - s@.len()) as nat, |i: int| ' '));
        }
    }
    proof {
        assert(out@ =~= padded(s@));
    }
    out
}

impl GameState {
    /// The two message lines for the side panel, each padded with spaces
    /// to a fixed width so that a redraw overwrites the previous message.
    pub fn print_message(&self) -> (r: Vec<String>)
        ensures
            r@.len() == 2,
            r@[0]@ == message_line(*self, 0),
            r@[1]@ == message_line(*self, 1),
    {
        proof {
            reveal_strlit("GAME PAUSED");
            reveal_strlit("YOU LOST!");
            reveal_strlit("Press p to restart or q to quit");
            reveal_strlit("");
        }
        let (m0, m1): (&str, &str) = match self {
            GameState::Pause => ("GAME PAUSED", ""),
            GameState::EndScreen => ("YOU LOST!", "Press p to restart or q to quit"),
            GameState::Playing | GameState::Menu => ("", ""),
        };
        let mut r: Vec<String> = Vec::new();
        r.push(pad_line(m0));
        r.push(pad_line(m1));
        r
    }
}

/// The game session: the sole root of mutable game state.
#[derive(Clone, Debug, PartialEq, Eq)]
pub struct Tetris {
    pub board: Vec<Vec<Square>>,
    pub current_block: Block,
    pub next_block: Block,
    pub points: usize,
    pub state: GameState,
}

impl Tetris {
    /// The mathematical view of the settled grid.
    pub open spec fn grid(self) -> Seq<Seq<Square>> {
        self.board@.map_values(|row: Vec<Square>| row@)
    }

    /// The session invariant: the grid has its fixed dimensions and both
    /// blocks lie inside it. Established by `new` and preserved by every
    /// step.
    pub open spec fn wf(self) -> bool {
        &&& grid_wf(self.grid())
        &&& block_in_bounds(self.current_block)
        &&& block_in_bounds(self.next_block)
        &&& self.current_block.rotation_pos < 4
        &&& self.next_block.rotation_pos < 4
    }

    /// Runtime check of the session invariant, for callers that assemble
    /// a session by hand.
    pub fn is_wf(&self) -> (r: bool)
        ensures
            r == self.wf(),
    {
        let dims = self.check_grid_dims();
        let cur = check_block_in_bounds(&self.current_block);
        let next = check_block_in_bounds(&self.next_block);
        dims && cur && next && self.current_block.rotation_pos < 4
            && self.next_block.rotation_pos < 4
    }

    fn check_grid_dims(&self) -> (r: bool)
        ensures
            r == grid_wf(self.grid()),
    {
        if self.board.len() != ROWS {
            return false;
        }
        let mut i: usize = 0;
        while i < self.board.len()
            invariant
                i <= self.board@.len() == ROWS,
                forall|k: int| 0 <= k < i ==> (#[trigger] self.grid()[k]).len() == COLS,
            decreases self.board@.len() - i,
        {
            if self.board[i].len() != COLS {
                assert(self.grid()[i as int].len() != COLS);
                return false;
            }
            assert(self.grid()[i as int].len() == COLS);
            i = i + 1;
        }
        true
    }

    /// A fresh session: an empty grid, score 0, the menu showing, and a
    /// random current and preview block.
    pub fn new() -> (t: Tetris)
        ensures
            t.wf(),
            t.grid().len() == ROWS,
            forall|r: int, c: int|
                0 <= r < ROWS && 0 <= c < COLS ==> #[trigger] t.grid()[r][c] == Square::Empty,
            t.points == 0,
            t.state == GameState::Menu,
            spawned(t.current_block),
            spawned(t.next_block),
    {
        let mut board: Vec<Vec<Square>> = Vec::new();
        let mut i: usize = 0;
        while i < ROWS
            invariant
                i <= ROWS,
                board@.len() == i,
                forall|k: int| 0 <= k < i ==> (#[trigger] board@[k])@ =~= empty_row(),
            decreases ROWS - i,
        {
            board.push(empty_row_vec());
            i = i + 1;
        }
        let t = Tetris {
            board,
            current_block: Block::new(),
            next_block: Block::new(),
            points: 0,
            state: GameState::Menu,
        };
        proof {
            assert(forall|k: int| 0 <= k < ROWS ==> #[trigger] t.grid()[k] =~= empty_row());
        }
        t
    }

    /// Replaces the state tag; everything else is kept. The surrounding
    /// program mirrors the new tag into the flag the gravity ticker reads.
    pub fn change_state(&mut self, new_state: GameState)
        ensures
            final(self).state == new_state,
            final(self).board == old(self).board,
            final(self).current_block == old(self).current_block,
            final(self).next_block == old(self).next_block,
            final(self).points == old(self).points,
    {
        self.state = new_state;
    }

    /// Whether the cell at coor is settled. The caller bounds-checks; the
    /// grid does not clamp.
    pub fn is_occupied(&self, coor: Coordinates) -> (r: bool)
        requires
            grid_wf(self.grid()),
            coor.row < ROWS,
            coor.col < COLS,
        ensures
            r == (self.grid()[coor.row as int][coor.col as int] != Square::Empty),
    {
        let sq = self.board[coor.row][coor.col];
        proof {
            assert(self.grid()[coor.row as int] == self.board@[coor.row as int]@);
        }
        sq != Square::Empty
    }

    /// Whether the block, at its tentative position, leaves the grid's
    /// columns or rows or lands on a settled cell.
    pub fn is_collision(&self, block: &Block) -> (r: bool)
        requires
            grid_wf(self.grid()),
        ensures
            r == collides(self.grid(), *block),
    {
        let c0 = self.cell_is_blocked(block.position[0]);
        let c1 = self.cell_is_blocked(block.position[1]);
        let c2 = self.cell_is_blocked(block.position[2]);
        let c3 = self.cell_is_blocked(block.position[3]);
        c0 || c1 || c2 || c3
    }

    fn cell_is_blocked(&self, sq: Coordinates) -> (r: bool)
        requires
            grid_wf(self.grid()),
        ensures
            r == cell_blocked(self.grid(), sq.row as int, sq.col as int),
    {
        sq.col >= COLS || sq.row >= ROWS || self.is_occupied(sq)
    }

    /// Whether a settled cell has reached the top two spawn-buffer rows:
    /// the end-of-game condition, checked once per lock.
    pub fn is_end(&self) -> (r: bool)
        requires
            grid_wf(self.grid()),
        ensures
            r == top_rows_occupied(self.grid()),
    {
        let r0 = self.row_is_occupied(0);
        let r1 = self.row_is_occupied(1);
        r0 || r1
    }

    fn row_is_occupied(&self, r: usize) -> (res: bool)
        requires
            grid_wf(self.grid()),
            r < ROWS,
        ensures
            res == row_occupied(self.grid(), r as int),
    {
        let mut c: usize = 0;
        while c < COLS
            invariant
                c <= COLS,
                grid_wf(self.grid()),
                r < ROWS,
                forall|k: int| 0 <= k < c ==> #[trigger] self.grid()[r as int][k] == Square::Empty,
            decreases COLS - c,
        {
            if self.is_occupied(Coordinates::new(r, c)) {
                return true;
            }
            c = c + 1;
        }
        false
    }

    /// Marks the block's four cells settled in its color. The caller must
    /// have confirmed the position is in bounds: locking outside the grid
    /// is a programming error, not a runtime condition.
    pub fn add_current_block(&mut self)
        requires
            grid_wf(old(self).grid()),
            block_in_bounds(old(self).current_block),
        ensures
            final(self).grid() == locked_grid(old(self).grid(), old(self).current_block),
            final(self).current_block == old(self).current_block,
            final(self).next_block == old(self).next_block,
            final(self).points == old(self).points,
            final(self).state == old(self).state,
            grid_wf(final(self).grid()),
    {
        let ghost g0 = self.grid();
        let ghost b = self.current_block;
        let mut i: usize = 0;
        while i < 4
            invariant
                i <= 4,
                grid_wf(self.grid()),
                block_in_bounds(b),
                self.current_block == b,
                self.next_block == old(self).next_block,
                self.points == old(self).points,
                self.state == old(self).state,
                self.grid().len() == g0.len(),
                forall|k: int| 0 <= k < g0.len() ==> (#[trigger] self.grid()[k]).len()
                    == g0[k].len(),
                forall|r: int, c: int|
                    0 <= r < g0.len() && 0 <= c < g0[r].len() ==> #[trigger] self.grid()[r][c] == (
                    if covers_upto(b, r, c, i as int) {
                        Square::Occupied(b.color)
                    } else {
                        g0[r][c]
                    }),
            decreases 4 - i,
        {
            let row = self.current_block.position[i].row;
            let col = self.current_block.position[i].col;
            let ghost mid = self.grid();
            let color = self.current_block.color;
            proof {
                assert(self.grid()[row as int] == self.board@[row as int]@);
            }
            self.board[row][col] = Square::Occupied(color);
            proof {
                assert(self.grid()[row as int] =~= mid[row as int].update(
                    col as int,
                    Square::Occupied(b.color),
                ));
                assert forall|k: int| 0 <= k < g0.len() && k != row implies #[trigger] self.grid()[k]
                    == mid[k] by {}
            }
            i = i + 1;
        }
        proof {
            assert forall|r: int, c: int|
                0 <= r < g0.len() && 0 <= c < g0[r].len() implies #[trigger] self.grid()[r][c]
                == locked_grid(g0, b)[r][c] by {
                assert(covers_upto(b, r, c, 4) == block_covers(b, r, c));
            }
            assert forall|r: int| 0 <= r < g0.len() implies #[trigger] self.grid()[r]
                =~= locked_grid(g0, b)[r] by {}
            assert(self.grid() =~= locked_grid(g0, b));
        }
    }
}

/// Whether one of the block's first n cells lies on (r, c): the part of
/// the block already settled while locking cell by cell.
pub open spec fn covers_upto(b: Block, r: int, c: int, n: int) -> bool {
    exists|i: int|
        0 <= i < n && (#[trigger] b.position@[i]).row == r && b.position@[i].col == c
}

/// Runtime check that all four block cells lie inside the grid.
fn check_block_in_bounds(b: &Block) -> (r: bool)
    ensures
        r == block_in_bounds(*b),
{
    let r0 = b.position[0].row < ROWS && b.position[0].col < COLS;
    let r1 = b.position[1].row < ROWS && b.position[1].col < COLS;
    let r2 = b.position[2].row < ROWS && b.position[2].col < COLS;
    let r3 = b.position[3].row < ROWS && b.position[3].col < COLS;
    let all = r0 && r1 && r2 && r3;
    proof {
        if all {
            assert forall|i: int| 0 <= i < 4 implies (#[trigger] b.position@[i]).row < ROWS
                && b.position@[i].col < COLS by {
                if i == 0 {
                } else if i == 1 {
                } else if i == 2 {
                } else {
                    assert(i == 3);
                }
            }
        }
    }
    all
}

/// The cell translation a movement key asks for, if it is a movement key.
pub open spec fn move_delta(movement: KeyEvent) -> Option<(int, int)> {
    match movement {
        KeyEvent::Down => Some((1int, 0int)),
        KeyEvent::Right => Some((0int, 1int)),
        KeyEvent::Left => Some((0int, -1int)),
        _ => None,
    }
}

/// Whether the current block may take the tentative position one movement
/// away: every translated cell must be inside the grid and unsettled.
/// False for a key that is not a movement.
pub open spec fn can_move_spec(g: Seq<Seq<Square>>, b: Block, movement: KeyEvent) -> bool {
    match move_delta(movement) {
        Some(d) => {
            &&& cell_free(g, b.position@[0].row + d.0, b.position@[0].col + d.1)
            &&& cell_free(g, b.position@[1].row + d.0, b.position@[1].col + d.1)
            &&& cell_free(g, b.position@[2].row + d.0, b.position@[2].col + d.1)
            &&& cell_free(g, b.position@[3].row + d.0, b.position@[3].col + d.1)
        },
        None => false,
    }
}

/// Everything of the session but the current block is kept.
pub open spec fn session_others_equal(pre: Tetris, post: Tetris) -> bool {
    &&& post.board == pre.board
    &&& post.next_block == pre.next_block
    &&& post.points == pre.points
    &&& post.state == pre.state
}

/// Everything of the session is kept except the state tag, which becomes s.
pub open spec fn same_but_state(pre: Tetris, post: Tetris, s: GameState) -> bool {
    &&& post.board == pre.board
    &&& post.current_block == pre.current_block
    &&& post.next_block == pre.next_block
    &&& post.points == pre.points
    &&& post.state == s
}

/// The move contract for the sideways keys: the tentative position is
/// taken when it is free, otherwise the session is unchanged. (For Down a
/// blocked move settles instead: see `gravity_step_post`.)
pub open spec fn move_session_post(pre: Tetris, post: Tetris, movement: KeyEvent) -> bool {
    if can_move_spec(pre.grid(), pre.current_block, movement) {
        &&& session_others_equal(pre, post)
        &&& block_translated(
            pre.current_block,
            post.current_block,
            (move_delta(movement)->Some_0).0,
            (move_delta(movement)->Some_0).1,
        )
    } else {
        post == pre
    }
}

/// The rotation contract: the current block's rotation attempt is
/// committed when its result does not collide, otherwise the session is
/// unchanged.
pub open spec fn rotate_session_post(pre: Tetris, post: Tetris) -> bool {
    exists|nb: Block|
        #[trigger] rotate_block_post(pre.current_block, nb) && if collides(pre.grid(), nb) {
            post == pre
        } else {
            session_others_equal(pre, post) && post.current_block == nb
        }
}

/// What one gravity tick does. While the block can fall it falls. When it
/// cannot, it settles: its cells are locked, completed lines are cleared
/// and scored, and the game ends (Err) when the settled stack reaches the
/// top two buffer rows or the preview block already collides; otherwise
/// the preview block is promoted and a fresh one is spawned.
pub open spec fn tick_post(pre: Tetris, post: Tetris, r: Result<(), ()>) -> bool {
    if can_move_spec(pre.grid(), pre.current_block, KeyEvent::Down) {
        &&& r is Ok
        &&& session_others_equal(pre, post)
        &&& block_translated(pre.current_block, post.current_block, 1, 0)
    } else {
        let locked = locked_grid(pre.grid(), pre.current_block);
        let g2 = cleared_grid(locked);
        &&& post.grid() == g2
        &&& post.points == pre.points + locked.len() - kept_rows(locked).len()
        &&& post.state == pre.state
        &&& if top_rows_occupied(g2) || collides(g2, pre.next_block) {
            &&& r is Err
            &&& post.current_block == pre.current_block
            &&& post.next_block == pre.next_block
        } else {
            &&& r is Ok
            &&& post.current_block == pre.next_block
            &&& spawned(post.next_block)
        }
    }
}

/// A spawned block lies inside the grid and carries a rotation index
/// below 4.
pub proof fn lemma_spawned_in_bounds(b: Block)
    requires
        spawned(b),
    ensures
        block_in_bounds(b),
        b.rotation_pos < 4,
{
}

/// A block translated to an all-free position lies inside the grid.
proof fn lemma_moved_in_bounds(g: Seq<Seq<Square>>, b: Block, nb: Block, movement: KeyEvent)
    requires
        can_move_spec(g, b, movement),
        block_translated(
            b,
            nb,
            (move_delta(movement)->Some_0).0,
            (move_delta(movement)->Some_0).1,
        ),
    ensures
        block_in_bounds(nb),
        nb.rotation_pos == b.rotation_pos,
{
    let d = move_delta(movement)->Some_0;
    assert forall|i: int| 0 <= i < 4 implies (#[trigger] nb.position@[i]).row < ROWS
        && nb.position@[i].col < COLS by {
        if i == 0 {
        } else if i == 1 {
        } else if i == 2 {
        } else {
            assert(i == 3);
        }
    }
}

/// A block that does not collide lies inside the grid.
proof fn lemma_no_collision_in_bounds(g: Seq<Seq<Square>>, b: Block)
    requires
        !collides(g, b),
    ensures
        block_in_bounds(b),
{
    assert forall|i: int| 0 <= i < 4 implies (#[trigger] b.position@[i]).row < ROWS
        && b.position@[i].col < COLS by {
        if i == 0 {
        } else if i == 1 {
        } else if i == 2 {
        } else {
            assert(i == 3);
        }
    }
}

impl Tetris {
    /// Whether the current block can make the given movement: the
    /// tentative cells one step away must all be inside the grid and
    /// unsettled. False for a key that is not a movement.
    pub fn can_block_move(&self, movement: KeyEvent) -> (r: bool)
        requires
            grid_wf(self.grid()),
            block_in_bounds(self.current_block),
        ensures
            r == can_move_spec(self.grid(), self.current_block, movement),
    {
        let p = self.current_block.position;
        match movement {
            KeyEvent::Down => {
                let f0 = self.cell_is_free(p[0].row + 1, p[0].col);
                let f1 = self.cell_is_free(p[1].row + 1, p[1].col);
                let f2 = self.cell_is_free(p[2].row + 1, p[2].col);
                let f3 = self.cell_is_free(p[3].row + 1, p[3].col);
                f0 && f1 && f2 && f3
            },
            KeyEvent::Right => {
                let f0 = self.cell_is_free(p[0].row, p[0].col + 1);
                let f1 = self.cell_is_free(p[1].row, p[1].col + 1);
                let f2 = self.cell_is_free(p[2].row, p[2].col + 1);
                let f3 = self.cell_is_free(p[3].row, p[3].col + 1);
                f0 && f1 && f2 && f3
            },
            KeyEvent::Left => {
                let f0 = p[0].col >= 1 && self.cell_is_free(p[0].row, p[0].col - 1);
                let f1 = p[1].col >= 1 && self.cell_is_free(p[1].row, p[1].col - 1);
                let f2 = p[2].col >= 1 && self.cell_is_free(p[2].row, p[2].col - 1);
                let f3 = p[3].col >= 1 && self.cell_is_free(p[3].row, p[3].col - 1);
                f0 && f1 && f2 && f3
            },
            _ => false,
        }
    }

    fn cell_is_free(&self, r: usize, c: usize) -> (res: bool)
        requires
            grid_wf(self.grid()),
        ensures
            res == cell_free(self.grid(), r as int, c as int),
    {
        c < COLS && r < ROWS && !self.is_occupied(Coordinates::new(r, c))
    }

    /// The Down key's effect: the current block falls one row when the
    /// position below is free; when it is not, a downward collision means
    /// settle, exactly as under a gravity tick — lock, clear and score
    /// completed lines, check for game over (Err), promote the preview
    /// block and spawn a fresh one.
    pub fn block_down(&mut self) -> (r: Result<(), ()>)
        requires
            old(self).wf(),
            old(self).points + ROWS <= usize::MAX,
        ensures
            tick_post(*old(self), *final(self), r),
            final(self).wf(),
    {
        self.tick()
    }

    /// Moves the current block one column left when the position is free.
    pub fn block_left(&mut self)
        requires
            old(self).wf(),
        ensures
            move_session_post(*old(self), *final(self), KeyEvent::Left),
            final(self).wf(),
    {
        if self.can_block_move(KeyEvent::Left) {
            let ghost pre = *self;
            self.current_block.left();
            proof {
                assert(forall|i: int|
                    0 <= i < 4 ==> (#[trigger] pre.current_block.position@[i]).col >= 1) by {
                    assert(cell_free(
                        pre.grid(),
                        pre.current_block.position@[0].row as int,
                        pre.current_block.position@[0].col - 1,
                    ));
                }
                lemma_moved_in_bounds(
                    pre.grid(),
                    pre.current_block,
                    self.current_block,
                    KeyEvent::Left,
                );
            }
        }
    }

    /// Moves the current block one column right when the position is free.
    pub fn block_right(&mut self)
        requires
            old(self).wf(),
        ensures
            move_session_post(*old(self), *final(self), KeyEvent::Right),
            final(self).wf(),
    {
        if self.can_block_move(KeyEvent::Right) {
            let ghost pre = *self;
            self.current_block.right();
            proof {
                lemma_moved_in_bounds(
                    pre.grid(),
                    pre.current_block,
                    self.current_block,
                    KeyEvent::Right,
                );
            }
        }
    }

    /// Rotates the current block when the rotated position neither leaves
    /// the boundary (the table's veto) nor collides; otherwise does
    /// nothing.
    pub fn block_rotate(&mut self)
        requires
            old(self).wf(),
        ensures
            rotate_session_post(*old(self), *final(self)),
            final(self).wf(),
    {
        let ghost pre = *self;
        let mut block = self.current_block;
        block.rotate();
        let coll = self.is_collision(&block);
        if !coll {
            self.current_block = block;
            proof {
                lemma_no_collision_in_bounds(pre.grid(), block);
            }
        }
        proof {
            assert(rotate_block_post(pre.current_block, block));
        }
    }

    /// Removes every completed row, inserts as many empty rows at the
    /// top, and scores one point per removed row. Atomic: one pass
    /// settles the whole grid.
    #[verifier::loop_isolation(false)]
    pub fn remove_lines_completed(&mut self)
        requires
            grid_wf(old(self).grid()),
            old(self).points + ROWS <= usize::MAX,
        ensures
            final(self).grid() == cleared_grid(old(self).grid()),
            final(self).points == old(self).points + (old(self).grid().len() - kept_rows(
                old(self).grid(),
            ).len()),
            final(self).current_block == old(self).current_block,
            final(self).next_block == old(self).next_block,
            final(self).state == old(self).state,
            grid_wf(final(self).grid()),
            forall|i: int|
                0 <= i < final(self).grid().len() ==> !row_full(#[trigger] final(self).grid()[i]),
    {
        let ghost orig = self.grid();
        let mut kept: Vec<Vec<Square>> = Vec::new();
        let mut i: usize = 0;
        while i < ROWS
            invariant
                i <= ROWS,
                kept@.map_values(|row: Vec<Square>| row@) =~= kept_rows(orig.take(i as int)),
            decreases ROWS - i,
        {
            proof {
                assert(orig[i as int] == self.board@[i as int]@);
                assert(orig.take(i + 1).drop_last() =~= orig.take(i as int));
                assert(orig.take(i + 1).last() == orig[i as int]);
            }
            let keep = row_has_empty(&self.board[i]);
            if keep {
                kept.push(copy_row(&self.board[i]));
            }
            proof {
                assert(kept@.map_values(|r: Vec<Square>| r@) =~= kept_rows(orig.take(i + 1)));
            }
            i = i + 1;
        }
        proof {
            assert(orig.take(orig.len() as int) =~= orig);
            lemma_kept_rows_len(orig);
        }
        let deleted = ROWS - kept.len();
        let mut new_board: Vec<Vec<Square>> = Vec::new();
        let mut i: usize = 0;
        while i < deleted
            invariant
                i <= deleted,
                new_board@.len() == i,
                forall|k: int| 0 <= k < i ==> (#[trigger] new_board@[k])@ == empty_row(),
            decreases deleted - i,
        {
            new_board.push(empty_row_vec());
            i = i + 1;
        }
        new_board.append(&mut kept);
        self.board = new_board;
        if deleted > 0 {
            self.points = self.points + deleted;
        }
        proof {
            lemma_cleared_grid_wf(orig);
            let cg = cleared_grid(orig);
            assert forall|r: int| 0 <= r < self.grid().len() implies #[trigger] self.grid()[r]
                == cg[r] by {
                assert(self.grid()[r] == self.board@[r]@);
                if r < deleted {
                    assert(self.board@[r]@ == empty_row());
                } else {
                    assert(self.board@[r]@ == kept_rows(orig)[r - deleted]);
                }
            }
            assert(self.grid() =~= cg);
        }
    }

    /// One gravity tick: the current block falls one row, or settles when
    /// it cannot — locking its cells, clearing and scoring completed
    /// lines, then promoting the preview block and spawning a fresh one.
    /// Err means the game is over: the settled stack reached the top two
    /// buffer rows, or the promoted block immediately collides.
    pub fn tick(&mut self) -> (r: Result<(), ()>)
        requires
            old(self).wf(),
            old(self).points + ROWS <= usize::MAX,
        ensures
            tick_post(*old(self), *final(self), r),
            final(self).wf(),
    {
        let ghost pre = *self;
        if !self.can_block_move(KeyEvent::Down) {
            self.add_current_block();
            self.remove_lines_completed();
            let over = self.is_end();
            let coll = self.is_collision(&self.next_block);
            if over || coll {
                return Err(());
            }
            proof {
                lemma_no_collision_in_bounds(self.grid(), self.next_block);
            }
            self.current_block = self.next_block;
            self.next_block = Block::new();
            proof {
                lemma_spawned_in_bounds(self.next_block);
            }
        } else {
            let ghost pre2 = *self;
            self.current_block.down();
            proof {
                lemma_moved_in_bounds(
                    pre.grid(),
                    pre.current_block,
                    self.current_block,
                    KeyEvent::Down,
                );
            }
        }
        Ok(())
    }
}

/// What a downward step does to the whole session, gravity tick and Down
/// key alike: the block falls or settles as `tick_post` says, and a
/// settle that ends the game moves the state to EndScreen.
pub open spec fn gravity_step_post(pre: Tetris, post: Tetris) -> bool {
    exists|mid: Tetris|
        #![trigger tick_post(pre, mid, Ok(()))]
        #![trigger tick_post(pre, mid, Err(()))]
        {
            ||| tick_post(pre, mid, Ok(())) && post == mid
            ||| tick_post(pre, mid, Err(())) && same_but_state(mid, post, GameState::EndScreen)
        }
}

/// The state machine's transition relation: what one event does to the
/// session in each state, and what the surrounding program must do next.
/// Movement keys and gravity ticks are ignored in Menu, Pause and
/// EndScreen; Quit stops the session from any state.
pub open spec fn step_post(pre: Tetris, event: GameEvent, post: Tetris, a: StepAction) -> bool {
    match pre.state {
        GameState::Menu => match event {
            GameEvent::Key(KeyEvent::Play) => {
                &&& a == StepAction::ClearAndRedraw
                &&& post.state == GameState::Playing
                &&& post.board == pre.board
                &&& post.points == pre.points
                &&& spawned(post.current_block)
                &&& spawned(post.next_block)
            },
            GameEvent::Key(KeyEvent::Quit) => a == StepAction::Quit && post == pre,
            _ => a == StepAction::Nothing && post == pre,
        },
        GameState::Playing => match event {
            GameEvent::Key(KeyEvent::Quit) => a == StepAction::Quit && post == pre,
            GameEvent::Key(KeyEvent::Left) => a == StepAction::Redraw && move_session_post(
                pre,
                post,
                KeyEvent::Left,
            ),
            GameEvent::Key(KeyEvent::Right) => a == StepAction::Redraw && move_session_post(
                pre,
                post,
                KeyEvent::Right,
            ),
            GameEvent::Key(KeyEvent::Down) => a == StepAction::Redraw && gravity_step_post(
                pre,
                post,
            ),
            GameEvent::Key(KeyEvent::Rotate) => a == StepAction::Redraw && rotate_session_post(
                pre,
                post,
            ),
            GameEvent::Key(KeyEvent::Play) => a == StepAction::Redraw && post == pre,
            GameEvent::Key(KeyEvent::Pause) => a == StepAction::Redraw && same_but_state(
                pre,
                post,
                GameState::Pause,
            ),
            GameEvent::Tick => a == StepAction::Redraw && gravity_step_post(pre, post),
        },
        GameState::Pause => match event {
            GameEvent::Key(KeyEvent::Quit) => a == StepAction::Quit && post == pre,
            GameEvent::Key(KeyEvent::Pause) => a == StepAction::Redraw && same_but_state(
                pre,
                post,
                GameState::Playing,
            ),
            _ => a == StepAction::Redraw && post == pre,
        },
        GameState::EndScreen => match event {
            GameEvent::Key(KeyEvent::Quit) => a == StepAction::Quit && post == pre,
            GameEvent::Key(KeyEvent::Play) => {
                &&& a == StepAction::Redraw
                &&& post.state == GameState::Playing
                &&& post.grid().len() == ROWS
                &&& forall|r: int, c: int|
                    0 <= r < ROWS && 0 <= c < COLS ==> #[trigger] post.grid()[r][c]
                        == Square::Empty
                &&& post.points == 0
                &&& spawned(post.current_block)
                &&& spawned(post.next_block)
            },
            _ => a == StepAction::Redraw && post == pre,
        },
    }
}

impl Tetris {
    /// One downward step while playing, shared by the gravity tick and
    /// the Down key: the block falls or settles, and a settle that ends
    /// the game moves the state to EndScreen.
    fn fall_step(&mut self)
        requires
            old(self).wf(),
            old(self).points + ROWS <= usize::MAX,
        ensures
            gravity_step_post(*old(self), *final(self)),
            final(self).wf(),
    {
        let ghost pre = *old(self);
        let r = self.tick();
        let ghost mid = *self;
        match r {
            Err(_) => {
                self.change_state(GameState::EndScreen);
                proof {
                    assert(tick_post(pre, mid, Err(())));
                    assert(same_but_state(mid, *self, GameState::EndScreen));
                }
            },
            Ok(_) => {
                proof {
                    assert(tick_post(pre, mid, Ok(())));
                }
            },
        }
    }

    /// Consumes one event: the whole decision logic of the consumer loop.
    /// The returned action tells the surrounding program whether to stop,
    /// clear the screen and redraw, redraw, or do nothing; the session is
    /// updated as `step_post` states.
    pub fn step(&mut self, event: GameEvent) -> (a: StepAction)
        requires
            old(self).wf(),
            old(self).points + ROWS <= usize::MAX,
        ensures
            step_post(*old(self), event, *final(self), a),
            final(self).wf(),
    {
        match self.state {
            GameState::Menu => match event {
                GameEvent::Key(key) => match key {
                    KeyEvent::Play => {
                        self.change_state(GameState::Playing);
                        self.current_block = Block::new();
                        self.next_block = Block::new();
                        proof {
                            lemma_spawned_in_bounds(self.current_block);
                            lemma_spawned_in_bounds(self.next_block);
                        }
                        StepAction::ClearAndRedraw
                    },
                    KeyEvent::Quit => StepAction::Quit,
                    _ => StepAction::Nothing,
                },
                GameEvent::Tick => StepAction::Nothing,
            },
            GameState::Playing => match event {
                GameEvent::Key(key) => match key {
                    KeyEvent::Quit => StepAction::Quit,
                    KeyEvent::Left => {
                        self.block_left();
                        StepAction::Redraw
                    },
                    KeyEvent::Right => {
                        self.block_right();
                        StepAction::Redraw
                    },
                    KeyEvent::Down => {
                        self.fall_step();
                        StepAction::Redraw
                    },
                    KeyEvent::Rotate => {
                        self.block_rotate();
                        StepAction::Redraw
                    },
                    KeyEvent::Play => StepAction::Redraw,
                    KeyEvent::Pause => {
                        self.change_state(GameState::Pause);
                        StepAction::Redraw
                    },
                },
                GameEvent::Tick => {
                    self.fall_step();
                    StepAction::Redraw
                },
            },
            GameState::Pause => match event {
                GameEvent::Key(key) => match key {
                    KeyEvent::Quit => StepAction::Quit,
                    KeyEvent::Pause => {
                        self.change_state(GameState::Playing);
                        StepAction::Redraw
                    },
                    _ => StepAction::Redraw,
                },
                GameEvent::Tick => StepAction::Redraw,
            },
            GameState::EndScreen => match event {
                GameEvent::Key(key) => match key {
                    KeyEvent::Quit => StepAction::Quit,
                    KeyEvent::Play => {
                        *self = Tetris::new();
                        self.change_state(GameState::Playing);
                        self.current_block = Block::new();
                        proof {
                            lemma_spawned_in_bounds(self.current_block);
                        }
                        StepAction::Redraw
                    },
                    _ => StepAction::Redraw,
                },
                GameEvent::Tick => StepAction::Redraw,
            },
        }
    }
}

/// A cell-by-cell copy of a row.
fn copy_row(row: &Vec<Square>) -> (out: Vec<Square>)
    ensures
        out@ == row@,
{
    let mut out: Vec<Square> = Vec::new();
    let mut j: usize = 0;
    while j < row.len()
        invariant
            j <= row@.len(),
            out@ =~= row@.take(j as int),
        decreases row@.len() - j,
    {
        out.push(row[j]);
        proof {
            assert(out@ =~= row@.take(j + 1));
        }
        j = j + 1;
    }
    proof {
        assert(row@.take(row@.len() as int) =~= row@);
    }
    out
}

/// Checks whether a row holds at least one empty cell, so that a line
/// clear keeps it.
fn row_has_empty(row: &Vec<Square>) -> (r: bool)
    ensures
        r == !row_full(row@),
{
    let mut j: usize = 0;
    while j < row.len()
        invariant
            j <= row@.len(),
            forall|k: int| 0 <= k < j ==> #[trigger] row@[k] != Square::Empty,
        decreases row@.len() - j,
    {
        if row[j] == Square::Empty {
            return true;
        }
        j = j + 1;
    }
    false
}

/// One fully empty row, as a vector.
fn empty_row_vec() -> (v: Vec<Square>)
    ensures
        v@ =~= empty_row(),
{
    let mut v: Vec<Square> = Vec::new();
    let mut j: usize = 0;
    while j < COLS
        invariant
            j <= COLS,
            v@.len() == j,
            forall|k: int| 0 <= k < j ==> #[trigger] v@[k] == Square::Empty,
        decreases COLS - j,
    {
        v.push(Square::Empty);
        j = j + 1;
    }
    v
}

} // verus!
