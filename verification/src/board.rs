//! The mathematical model of the settled grid: a sequence of rows, each a
//! sequence of cells, with the collision, locking, line-clear and
//! end-of-game conditions stated over it.

use vstd::prelude::*;
use crate::square::Square;
use crate::block::Block;
use crate::{COLS, ROWS};

verus! {

/// The grid has its fixed dimensions: ROWS rows of COLS cells each.
pub open spec fn grid_wf(g: Seq<Seq<Square>>) -> bool {
    &&& g.len() == ROWS
    &&& forall|i: int| 0 <= i < g.len() ==> (#[trigger] g[i]).len() == COLS
}

/// A row is completed when it holds no empty cell.
pub open spec fn row_full(row: Seq<Square>) -> bool {
    forall|j: int| 0 <= j < row.len() ==> #[trigger] row[j] != Square::Empty
}

/// The rows of g that are not completed, in their original order.
pub open spec fn kept_rows(g: Seq<Seq<Square>>) -> Seq<Seq<Square>>
    decreases g.len(),
{
    if g.len() == 0 {
        Seq::empty()
    } else if row_full(g.last()) {
        kept_rows(g.drop_last())
    } else {
        kept_rows(g.drop_last()).push(g.last())
    }
}

/// A fully empty row.
pub open spec fn empty_row() -> Seq<Square> {
    Seq::new(COLS as nat, |j: int| Square::Empty)
}

/// n fully empty rows.
pub open spec fn empty_rows(n: int) -> Seq<Seq<Square>> {
    Seq::new(n as nat, |i: int| empty_row())
}

/// The grid after a line clear: the completed rows are removed and as
/// many empty rows are inserted at the top, the other rows keeping their
/// relative order.
pub open spec fn cleared_grid(g: Seq<Seq<Square>>) -> Seq<Seq<Square>> {
    empty_rows(g.len() - kept_rows(g).len()) + kept_rows(g)
}

/// Whether one of the block's four cells lies on (r, c).
pub open spec fn block_covers(b: Block, r: int, c: int) -> bool {
    ||| b.position@[0].row == r && b.position@[0].col == c
    ||| b.position@[1].row == r && b.position@[1].col == c
    ||| b.position@[2].row == r && b.position@[2].col == c
    ||| b.position@[3].row == r && b.position@[3].col == c
}

/// The grid after the block's cells are settled in its color.
pub open spec fn locked_grid(g: Seq<Seq<Square>>, b: Block) -> Seq<Seq<Square>> {
    Seq::new(
        g.len(),
        |r: int|
            Seq::new(
                g[r].len(),
                |c: int|
                    if block_covers(b, r, c) {
                        Square::Occupied(b.color)
                    } else {
                        g[r][c]
                    },
            ),
    )
}

/// All four block cells lie inside the grid.
pub open spec fn block_in_bounds(b: Block) -> bool {
    forall|i: int|
        0 <= i < 4 ==> (#[trigger] b.position@[i]).row < ROWS && b.position@[i].col < COLS
}

/// A cell position that a tentative block may not take: outside the
/// grid's columns or rows, or already settled.
pub open spec fn cell_blocked(g: Seq<Seq<Square>>, r: int, c: int) -> bool {
    ||| c >= COLS
    ||| r >= ROWS
    ||| g[r][c] != Square::Empty
}

/// A cell position a block may move onto: inside the grid and not settled.
pub open spec fn cell_free(g: Seq<Seq<Square>>, r: int, c: int) -> bool {
    0 <= r < ROWS && 0 <= c < COLS && g[r][c] == Square::Empty
}

/// A tentative block collides when any of its four cells is blocked.
/// Evaluated against tentative positions; the grid is never changed by it.
pub open spec fn collides(g: Seq<Seq<Square>>, b: Block) -> bool {
    ||| cell_blocked(g, b.position@[0].row as int, b.position@[0].col as int)
    ||| cell_blocked(g, b.position@[1].row as int, b.position@[1].col as int)
    ||| cell_blocked(g, b.position@[2].row as int, b.position@[2].col as int)
    ||| cell_blocked(g, b.position@[3].row as int, b.position@[3].col as int)
}

/// Whether some cell of row r is settled.
pub open spec fn row_occupied(g: Seq<Seq<Square>>, r: int) -> bool {
    exists|c: int| 0 <= c < COLS && #[trigger] g[r][c] != Square::Empty
}

/// The end-of-game condition, checked once per lock: a settled cell has
/// reached the top two spawn-buffer rows.
pub open spec fn top_rows_occupied(g: Seq<Seq<Square>>) -> bool {
    row_occupied(g, 0) || row_occupied(g, 1)
}

/// No more rows are kept by a line clear than the grid had.
pub proof fn lemma_kept_rows_len(g: Seq<Seq<Square>>)
    ensures
        kept_rows(g).len() <= g.len(),
    decreases g.len(),
{
    if g.len() > 0 {
        lemma_kept_rows_len(g.drop_last());
    }
}

/// No kept row is completed.
pub proof fn lemma_kept_rows_not_full(g: Seq<Seq<Square>>)
    ensures
        forall|i: int| 0 <= i < kept_rows(g).len() ==> !row_full(#[trigger] kept_rows(g)[i]),
    decreases g.len(),
{
    if g.len() > 0 {
        lemma_kept_rows_not_full(g.drop_last());
        let kd = kept_rows(g.drop_last());
        assert forall|i: int| 0 <= i < kept_rows(g).len() implies !row_full(
            #[trigger] kept_rows(g)[i],
        ) by {
            if !row_full(g.last()) && i == kept_rows(g).len() - 1 {
                assert(kept_rows(g)[i] == g.last());
            } else {
                assert(kept_rows(g)[i] == kd[i]);
            }
        }
    }
}

/// Kept rows keep their width.
pub proof fn lemma_kept_rows_widths(g: Seq<Seq<Square>>)
    requires
        forall|i: int| 0 <= i < g.len() ==> (#[trigger] g[i]).len() == COLS,
    ensures
        forall|i: int| 0 <= i < kept_rows(g).len() ==> (#[trigger] kept_rows(g)[i]).len() == COLS,
    decreases g.len(),
{
    if g.len() > 0 {
        assert(forall|i: int|
            0 <= i < g.drop_last().len() ==> (#[trigger] g.drop_last()[i]).len() == COLS);
        lemma_kept_rows_widths(g.drop_last());
        let kd = kept_rows(g.drop_last());
        assert forall|i: int| 0 <= i < kept_rows(g).len() implies (#[trigger] kept_rows(
            g,
        )[i]).len() == COLS by {
            if !row_full(g.last()) && i == kept_rows(g).len() - 1 {
                assert(kept_rows(g)[i] == g.last());
                assert(g.last() == g[g.len() - 1]);
            } else {
                assert(kept_rows(g)[i] == kd[i]);
            }
        }
    }
}

/// After a line clear the grid keeps its height and width and no row is
/// completed.
pub proof fn lemma_cleared_grid_wf(g: Seq<Seq<Square>>)
    requires
        grid_wf(g),
    ensures
        grid_wf(cleared_grid(g)),
        forall|i: int| 0 <= i < cleared_grid(g).len() ==> !row_full(#[trigger] cleared_grid(g)[i]),
{
    lemma_kept_rows_len(g);
    lemma_kept_rows_not_full(g);
    lemma_kept_rows_widths(g);
    let cg = cleared_grid(g);
    let deleted = g.len() - kept_rows(g).len();
    assert forall|i: int| 0 <= i < cg.len() implies !row_full(#[trigger] cg[i]) by {
        if i < deleted {
            assert(cg[i] == empty_row());
            assert(empty_row()[0] == Square::Empty);
        } else {
            assert(cg[i] == kept_rows(g)[i - deleted]);
        }
    }
    assert forall|i: int| 0 <= i < cg.len() implies (#[trigger] cg[i]).len() == COLS by {
        if i < deleted {
            assert(cg[i] == empty_row());
        } else {
            assert(cg[i] == kept_rows(g)[i - deleted]);
        }
    }
}

} // verus!
