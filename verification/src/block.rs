//! The falling block: four cell coordinates kept consistent with its
//! kind, rotation index and anchor, plus a color. Movement translates all
//! four cells together; rotation re-derives them from the rotation table
//! and silently does nothing when the table rejects the new placement.

use vstd::prelude::*;
use vstd::string::StringExecFns;
use crate::coords::Coordinates;
use crate::pieces::{
    Piece, Color, piece_cells_at, coords_match, get_piece_position, piece_from_index,
    color_from_index, lemma_offsets_in_range,
};
use crate::square::{Square, square_chars};
use crate::rng::rand_below;
use crate::COLS;

verus! {

#[derive(Clone, Copy, Debug, PartialEq, Eq)]
pub struct Block {
    pub position: [Coordinates; 4],
    pub color: Color,
    pub piece: Piece,
    pub rotation_pos: usize,
}

/// The block's anchor: its first cell, from which the rotation table
/// derives the other three.
pub open spec fn anchor_row(b: Block) -> int {
    b.position@[0].row as int
}

pub open spec fn anchor_col(b: Block) -> int {
    b.position@[0].col as int
}

/// A block is well formed when its four cells are exactly the rotation
/// table's output for its kind, rotation index and anchor.
pub open spec fn block_wf(b: Block) -> bool {
    &&& b.rotation_pos < 4
    &&& piece_cells_at(b.piece, b.rotation_pos as int, anchor_row(b), anchor_col(b)) is Some
    &&& coords_match(
        b.position@,
        piece_cells_at(b.piece, b.rotation_pos as int, anchor_row(b), anchor_col(b))->Some_0,
    )
}

/// Whether the rotation table's output at the fixed spawn anchor —
/// row 3, the middle column — already has a cell on row 4, the top of
/// the visible field.
pub open spec fn spawn_cells_reach_row4(piece: Piece, rot: int) -> bool {
    exists|i: int|
        0 <= i < 4 && (#[trigger] piece_cells_at(piece, rot, 3, 4)->Some_0[i]).0 == 4
}

/// What holds of every freshly spawned block, whatever the random draws
/// were. The kind, color and rotation index are random; everything else
/// is fixed: the cells are the rotation table's output at the spawn
/// anchor (row 3, column 4), shifted one row down exactly when that
/// output has no cell on row 4 — so the anchor sits on row 3 or row 4,
/// at least one cell lands exactly on row 4, and all cells stay in
/// rows 1 through 4 and columns 3 through 6.
pub open spec fn spawned(b: Block) -> bool {
    &&& block_wf(b)
    &&& anchor_col(b) == 4
    &&& anchor_row(b) == (if spawn_cells_reach_row4(b.piece, b.rotation_pos as int) {
        3int
    } else {
        4int
    })
    &&& exists|i: int| 0 <= i < 4 && (#[trigger] b.position@[i]).row == 4
    &&& forall|i: int|
        0 <= i < 4 ==> 1 <= (#[trigger] b.position@[i]).row <= 4 && 3 <= b.position@[i].col <= 6
}

/// The new block's cells are the old block's, each moved by (dr, dc);
/// kind, color and rotation index are kept.
pub open spec fn block_translated(b: Block, nb: Block, dr: int, dc: int) -> bool {
    &&& nb.piece == b.piece
    &&& nb.color == b.color
    &&& nb.rotation_pos == b.rotation_pos
    &&& forall|i: int|
        0 <= i < 4 ==> (#[trigger] nb.position@[i]).row == b.position@[i].row + dr
            && nb.position@[i].col == b.position@[i].col + dc
}

/// What one rotation attempt does: the rotation index advances cyclically
/// and the cells are re-derived from the table at the current anchor;
/// when the table rejects the new placement the block is left unchanged.
pub open spec fn rotate_block_post(b: Block, nb: Block) -> bool {
    let nrot = (b.rotation_pos as int + 1) % 4;
    match piece_cells_at(b.piece, nrot, anchor_row(b), anchor_col(b)) {
        Some(cells) => {
            &&& nb.piece == b.piece
            &&& nb.color == b.color
            &&& nb.rotation_pos as int == nrot
            &&& coords_match(nb.position@, cells)
        },
        None => nb == b,
    }
}

impl Block {
    /// Spawns a block of a uniformly random kind, color and rotation
    /// index, anchored at row 3, the middle column, then shifted one row
    /// down unless a cell already sits on row 4 — the top of the visible
    /// field. Placement legality is the caller's business.
    pub fn new() -> (b: Block)
        ensures
            spawned(b),
    {
        let color = color_from_index(rand_below(7));
        let coor = Coordinates::new(3, COLS / 2 - 1);
        let piece = piece_from_index(rand_below(7));
        let rotation_pos = rand_below(4);
        proof {
            lemma_offsets_in_range(piece, rotation_pos as int);
        }
        let mut position: [Coordinates; 4] = match get_piece_position(piece, rotation_pos, coor) {
            Ok(p) => p,
            Err(()) => {
                proof {
                    assert(false);
                }
                [coor, coor, coor, coor]
            },
        };
        let ghost cells = piece_cells_at(piece, rotation_pos as int, 3, 4)->Some_0;
        if position[0].row != 4 && position[1].row != 4 && position[2].row != 4
            && position[3].row != 4 {
            proof {
                assert forall|i: int| 0 <= i < 4 implies (#[trigger] cells[i]).0 != 4 by {
                    if i == 0 {
                    } else if i == 1 {
                    } else if i == 2 {
                    } else {
                        assert(i == 3);
                    }
                }
                assert(!spawn_cells_reach_row4(piece, rotation_pos as int));
                lemma_offsets_in_range(piece, rotation_pos as int);
            }
            position = [
                position[0].down(1),
                position[1].down(1),
                position[2].down(1),
                position[3].down(1),
            ];
            proof {
                assert(position@[0].row == 4);
            }
        } else {
            proof {
                if position@[0].row == 4 {
                    assert(cells[0].0 == 4);
                } else if position@[1].row == 4 {
                    assert(cells[1].0 == 4);
                } else if position@[2].row == 4 {
                    assert(cells[2].0 == 4);
                } else {
                    assert(position@[3].row == 4);
                    assert(cells[3].0 == 4);
                }
                assert(spawn_cells_reach_row4(piece, rotation_pos as int));
            }
        }
        Block { position, color, piece, rotation_pos }
    }

    /// Translates all four cells one row down. No boundary check here:
    /// collision testing is the board's business, done by the caller
    /// before committing.
    pub fn down(&mut self)
        requires
            forall|i: int| 0 <= i < 4 ==> (#[trigger] old(self).position@[i]).row + 1 <= usize::MAX,
        ensures
            block_translated(*old(self), *final(self), 1, 0),
    {
        self.position = [
            self.position[0].down(1),
            self.position[1].down(1),
            self.position[2].down(1),
            self.position[3].down(1),
        ];
    }

    /// Translates all four cells one column left, but only when every
    /// cell has a column above 0; otherwise the block is left unchanged,
    /// since a column cannot go below 0.
    pub fn left(&mut self)
        ensures
            (forall|i: int| 0 <= i < 4 ==> (#[trigger] old(self).position@[i]).col >= 1)
                ==> block_translated(*old(self), *final(self), 0, -1),
            (exists|i: int| 0 <= i < 4 && (#[trigger] old(self).position@[i]).col == 0)
                ==> *final(self) == *old(self),
    {
        if self.position[0].col >= 1 && self.position[1].col >= 1 && self.position[2].col >= 1
            && self.position[3].col >= 1 {
            let p0 = match self.position[0].left(1) {
                Ok(c) => c,
                Err(()) => self.position[0],
            };
            let p1 = match self.position[1].left(1) {
                Ok(c) => c,
                Err(()) => self.position[1],
            };
            let p2 = match self.position[2].left(1) {
                Ok(c) => c,
                Err(()) => self.position[2],
            };
            let p3 = match self.position[3].left(1) {
                Ok(c) => c,
                Err(()) => self.position[3],
            };
            self.position = [p0, p1, p2, p3];
        }
    }

    /// Translates all four cells one column right. No boundary check, as
    /// with `down`.
    pub fn right(&mut self)
        requires
            forall|i: int| 0 <= i < 4 ==> (#[trigger] old(self).position@[i]).col + 1 <= usize::MAX,
        ensures
            block_translated(*old(self), *final(self), 0, 1),
    {
        self.position = [
            self.position[0].right(1),
            self.position[1].right(1),
            self.position[2].right(1),
            self.position[3].right(1),
        ];
    }

    /// Advances the rotation index cyclically and re-derives the cells
    /// from the table, pivoting on the current anchor. When the table
    /// rejects the new placement the block is left unchanged.
    pub fn rotate(&mut self)
        requires
            old(self).rotation_pos + 1 <= usize::MAX,
            old(self).position@[0].row + 1 <= usize::MAX,
            old(self).position@[0].col + 2 <= usize::MAX,
        ensures
            rotate_block_post(*old(self), *final(self)),
    {
        let rotation_pos = (self.rotation_pos + 1) % 4;
        let position = get_piece_position(self.piece, rotation_pos, self.position[0]);
        if let Ok(pos) = position {
            self.rotation_pos = rotation_pos;
            self.position = pos;
        }
    }
}

/// Whether the block, drawn into the 4-row preview matrix (each cell one
/// row above its board row), covers the matrix cell (r, c).
pub open spec fn covers_preview(b: Block, r: int, c: int) -> bool {
    exists|i: int|
        0 <= i < 4 && (#[trigger] b.position@[i]).row - 1 == r && b.position@[i].col == c
}

/// The preview matrix cell (r, c): the block's color where the block
/// covers it, empty elsewhere.
pub open spec fn preview_cell(b: Block, r: int, c: int) -> Square {
    if covers_preview(b, r, c) {
        Square::Occupied(b.color)
    } else {
        Square::Empty
    }
}

/// The first n cells of preview row r, rendered as characters.
pub open spec fn preview_prefix(b: Block, r: int, n: int) -> Seq<char>
    decreases n,
{
    if n <= 0 {
        Seq::empty()
    } else {
        preview_prefix(b, r, n - 1) + square_chars(preview_cell(b, r, n - 1))
    }
}

/// One full rendered preview row: 7 cells.
pub open spec fn preview_line(b: Block, r: int) -> Seq<char> {
    preview_prefix(b, r, 7)
}

impl Block {
    /// Renders the block into a 4-row, 7-column preview matrix, one string
    /// per row — the "next block" panel. The cells must sit in rows 1
    /// through 4 and columns 0 through 6, as spawned blocks do.
    #[verifier::loop_isolation(false)]
    pub fn display(&self) -> (r: Vec<String>)
        requires
            forall|i: int|
                0 <= i < 4 ==> 1 <= (#[trigger] self.position@[i]).row <= 4 && self.position@[i].col
                    < 7,
        ensures
            r@.len() == 4,
            forall|i: int| 0 <= i < 4 ==> (#[trigger] r@[i])@ == preview_line(*self, i),
    {
        let mut rows: Vec<String> = Vec::new();
        let mut r: usize = 0;
        while r < 4
            invariant
                r <= 4,
                rows@.len() == r,
                forall|k: int| 0 <= k < r ==> (#[trigger] rows@[k])@ == preview_line(*self, k),
            decreases 4 - r,
        {
            let mut line = String::new();
            let mut c: usize = 0;
            while c < 7
                invariant
                    c <= 7,
                    line@ == preview_prefix(*self, r as int, c as int),
                decreases 7 - c,
            {
                let occ = (self.position[0].row == r + 1 && self.position[0].col == c) || (
                self.position[1].row == r + 1 && self.position[1].col == c) || (self.position[2].row
                    == r + 1 && self.position[2].col == c) || (self.position[3].row == r + 1
                    && self.position[3].col == c);
                let sq = if occ {
                    Square::Occupied(self.color)
                } else {
                    Square::Empty
                };
                proof {
                    if occ {
                        assert(covers_preview(*self, r as int, c as int));
                    } else {
                        assert(!covers_preview(*self, r as int, c as int));
                    }
                }
                line.append(sq.text());
                c = c + 1;
            }
            rows.push(line);
            r = r + 1;
        }
        rows
    }
}

/// Four rotation attempts return a well-formed block to exactly its
/// original cell set. Either the first attempt is rejected — then every
/// later attempt retries the same placement and is rejected too, and the
/// block never moves — or the first attempt is accepted, and then the
/// table accepts the whole cycle and the fourth attempt lands back on the
/// original rotation index and cells.
pub proof fn lemma_rotate_four_restores(b0: Block, b1: Block, b2: Block, b3: Block, b4: Block)
    requires
        block_wf(b0),
        rotate_block_post(b0, b1),
        rotate_block_post(b1, b2),
        rotate_block_post(b2, b3),
        rotate_block_post(b3, b4),
    ensures
        b4 == b0,
{
    let ar = anchor_row(b0);
    let ac = anchor_col(b0);
    let r0 = b0.rotation_pos as int;
    if piece_cells_at(b0.piece, (r0 + 1) % 4, ar, ac) is None {
        assert(b1 == b0);
        assert(b2 == b1);
        assert(b3 == b2);
        assert(b4 == b3);
    } else {
        lemma_adjacent_orientations_give_all(b0.piece, r0, ar, ac);
        lemma_rotate_step(b0, b1, ar, ac);
        lemma_rotate_step(b1, b2, ar, ac);
        lemma_rotate_step(b2, b3, ar, ac);
        lemma_rotate_step(b3, b4, ar, ac);
        assert(b4.rotation_pos == b0.rotation_pos);
        let cells = piece_cells_at(b0.piece, b0.rotation_pos as int, ar, ac)->Some_0;
        assert(coords_match(b4.position@, cells));
        assert(coords_match(b0.position@, cells));
        assert forall|i: int| 0 <= i < 4 implies b4.position@[i] == b0.position@[i] by {
            assert(b4.position@[i].row as int == cells[i].0);
            assert(b0.position@[i].row as int == cells[i].0);
            assert(b4.position@[i].col as int == cells[i].1);
            assert(b0.position@[i].col as int == cells[i].1);
        }
        assert(b4.position@ =~= b0.position@);
        assert(b4.position =~= b0.position);
    }
}

/// When the table accepts two adjacent rotation indices of a kind at an
/// anchor, it accepts all four there. For I, S, Z and O this is parity:
/// index and index + 2 ask for the same placement. For J, L and T each
/// orientation needs at most "a row above" and "a column to the left" of
/// the anchor, and two adjacent orientations between them already demand
/// everything any orientation demands.
proof fn lemma_adjacent_orientations_give_all(piece: Piece, r0: int, ar: int, ac: int)
    requires
        0 <= r0 < 4,
        piece_cells_at(piece, r0, ar, ac) is Some,
        piece_cells_at(piece, (r0 + 1) % 4, ar, ac) is Some,
    ensures
        forall|r: int| 0 <= r < 4 ==> piece_cells_at(piece, r, ar, ac) is Some,
{
    assert forall|r: int| 0 <= r < 4 implies piece_cells_at(piece, r, ar, ac) is Some by {
        assert((r0 + 1) % 4 == if r0 == 3 {
            0int
        } else {
            r0 + 1
        });
    }
}

/// One rotation step from a block anchored at (ar, ac), at which every
/// rotation index is accepted: the anchor and kind are kept, the cells
/// follow the table, and the rotation index advances by one, modulo 4.
proof fn lemma_rotate_step(b: Block, nb: Block, ar: int, ac: int)
    requires
        b.rotation_pos < 4,
        anchor_row(b) == ar,
        anchor_col(b) == ac,
        forall|r: int| 0 <= r < 4 ==> piece_cells_at(b.piece, r, ar, ac) is Some,
        rotate_block_post(b, nb),
    ensures
        nb.piece == b.piece,
        nb.color == b.color,
        nb.rotation_pos as int == (b.rotation_pos as int + 1) % 4,
        nb.rotation_pos < 4,
        anchor_row(nb) == ar,
        anchor_col(nb) == ac,
        coords_match(nb.position@, piece_cells_at(b.piece, nb.rotation_pos as int, ar, ac)->Some_0),
{
    let nrot = (b.rotation_pos as int + 1) % 4;
    assert(0 <= nrot < 4);
    let cells = piece_cells_at(b.piece, nrot, ar, ac)->Some_0;
    lemma_offsets_in_range(b.piece, nrot);
    assert(cells[0].0 == ar && cells[0].1 == ac);
    assert(nb.position@[0].row as int == ar && nb.position@[0].col as int == ac);
}

} // verus!
