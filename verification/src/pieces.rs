//! Piece kinds, colors, and the geometry provider: a fixed offset table
//! maps (kind, rotation index) to the four cells of a piece relative to
//! its anchor. A placement that would push a cell above row 0 or left of
//! column 0 is rejected outright rather than clamped or wall-kicked.

use vstd::prelude::*;
use crate::coords::Coordinates;

verus! {

/// The seven tetromino kinds.
#[derive(Clone, Copy, Debug, PartialEq, Eq, Structural)]
pub enum Piece {
    I,
    J,
    L,
    O,
    S,
    T,
    Z,
}

/// Purely cosmetic cell colors, chosen once per block at spawn.
#[derive(Clone, Copy, Debug, PartialEq, Eq, Structural)]
pub enum Color {
    Red,
    Blue,
    Orange,
    Yellow,
    Green,
    Violet,
    Brown,
}

/// The rotation table: the offsets (row delta, column delta) of the four
/// cells of a piece relative to its anchor, for a kind and a rotation
/// index. The first entry is always the anchor itself. I, S and Z have
/// only two geometrically distinct orientations and dispatch on the
/// index's parity, so they accept every index; J, L and T accept exactly
/// the indices 0 through 3 and yield `None` elsewhere. O looks the same
/// in every orientation.
pub open spec fn piece_offsets(piece: Piece, pos: int) -> Option<Seq<(int, int)>> {
    match piece {
        Piece::I => if pos % 2 == 1 {
            Some(seq![(0int, 0int), (-1, 0), (-2, 0), (1, 0)])
        } else {
            Some(seq![(0int, 0int), (0, 1), (0, 2), (0, -1)])
        },
        Piece::J => if pos == 0 {
            Some(seq![(0int, 0int), (0, -1), (0, 1), (1, 1)])
        } else if pos == 1 {
            Some(seq![(0int, 0int), (-1, 0), (1, 0), (1, -1)])
        } else if pos == 2 {
            Some(seq![(0int, 0int), (0, 1), (0, -1), (-1, -1)])
        } else if pos == 3 {
            Some(seq![(0int, 0int), (-1, 0), (-1, 1), (1, 0)])
        } else {
            None
        },
        Piece::L => if pos == 0 {
            Some(seq![(0int, 0int), (0, 1), (0, -1), (-1, 1)])
        } else if pos == 1 {
            Some(seq![(0int, 0int), (-1, 0), (1, 0), (1, 1)])
        } else if pos == 2 {
            Some(seq![(0int, 0int), (0, 1), (0, -1), (1, -1)])
        } else if pos == 3 {
            Some(seq![(0int, 0int), (1, 0), (-1, 0), (-1, -1)])
        } else {
            None
        },
        Piece::O => Some(seq![(0int, 0int), (0, 1), (-1, 0), (-1, 1)]),
        Piece::S => if pos % 2 == 1 {
            Some(seq![(0int, 0int), (-1, 0), (0, 1), (1, 1)])
        } else {
            Some(seq![(0int, 0int), (0, -1), (-1, 0), (-1, 1)])
        },
        Piece::T => if pos == 0 {
            Some(seq![(0int, 0int), (0, -1), (0, 1), (1, 0)])
        } else if pos == 1 {
            Some(seq![(0int, 0int), (1, 0), (-1, 0), (0, -1)])
        } else if pos == 2 {
            Some(seq![(0int, 0int), (0, 1), (0, -1), (-1, 0)])
        } else if pos == 3 {
            Some(seq![(0int, 0int), (-1, 0), (1, 0), (0, 1)])
        } else {
            None
        },
        Piece::Z => if pos % 2 == 1 {
            Some(seq![(0int, 0int), (1, 0), (0, 1), (-1, 1)])
        } else {
            Some(seq![(0int, 0int), (0, -1), (1, 0), (1, 1)])
        },
    }
}

/// Whether each of the four offsets applied to the anchor stays at or
/// right of column 0 and at or below row 0.
pub open spec fn piece_fits(offs: Seq<(int, int)>, row: int, col: int) -> bool {
    &&& row + offs[0].0 >= 0 && col + offs[0].1 >= 0
    &&& row + offs[1].0 >= 0 && col + offs[1].1 >= 0
    &&& row + offs[2].0 >= 0 && col + offs[2].1 >= 0
    &&& row + offs[3].0 >= 0 && col + offs[3].1 >= 0
}

/// The absolute cells obtained by applying each offset to the anchor.
pub open spec fn cells_from(offs: Seq<(int, int)>, row: int, col: int) -> Seq<(int, int)> {
    Seq::new(offs.len(), |i: int| (row + offs[i].0, col + offs[i].1))
}

/// The geometry provider's mathematical contract: the four absolute cells
/// of a piece anchored at (row, col), or `None` when the kind refuses the
/// rotation index or a cell would land outside the top or left boundary.
pub open spec fn piece_cells_at(piece: Piece, pos: int, row: int, col: int) -> Option<
    Seq<(int, int)>,
> {
    match piece_offsets(piece, pos) {
        Some(offs) => if piece_fits(offs, row, col) {
            Some(cells_from(offs, row, col))
        } else {
            None
        },
        None => None,
    }
}

/// Whether a list of concrete coordinates equals a list of mathematical cells.
pub open spec fn coords_match(ps: Seq<Coordinates>, cells: Seq<(int, int)>) -> bool {
    &&& ps.len() == cells.len()
    &&& forall|i: int|
        0 <= i < ps.len() ==> (#[trigger] ps[i]).row as int == cells[i].0 && ps[i].col as int
            == cells[i].1
}

/// Maps (piece kind, rotation index, anchor) to the four absolute cell
/// coordinates of the piece, or fails when a cell would need a negative
/// row or column. A pure function of its arguments: the board plays no part.
pub fn get_piece_position(piece: Piece, pos: usize, coor: Coordinates) -> (r: Result<
    [Coordinates; 4],
    (),
>)
    requires
        coor.row + 1 <= usize::MAX,
        coor.col + 2 <= usize::MAX,
    ensures
        (r is Ok) == (piece_cells_at(piece, pos as int, coor.row as int, coor.col as int)
            is Some),
        r matches Ok(cs) ==> coords_match(
            cs@,
            piece_cells_at(piece, pos as int, coor.row as int, coor.col as int)->Some_0,
        ),
{
    match piece {
        Piece::I => if pos % 2 == 1 {
            Ok([coor, coor.up(1)?, coor.up(2)?, coor.down(1)])
        } else {
            Ok([coor, coor.right(1), coor.right(2), coor.left(1)?])
        },
        Piece::J => match pos {
            0 => Ok([coor, coor.left(1)?, coor.right(1), coor.down(1).right(1)]),
            1 => Ok([coor, coor.up(1)?, coor.down(1), coor.down(1).left(1)?]),
            2 => Ok([coor, coor.right(1), coor.left(1)?, coor.left(1)?.up(1)?]),
            3 => Ok([coor, coor.up(1)?, coor.right(1).up(1)?, coor.down(1)]),
            _ => Err(()),
        },
        Piece::L => match pos {
            0 => Ok([coor, coor.right(1), coor.left(1)?, coor.right(1).up(1)?]),
            1 => Ok([coor, coor.up(1)?, coor.down(1), coor.down(1).right(1)]),
            2 => Ok([coor, coor.right(1), coor.left(1)?, coor.down(1).left(1)?]),
            3 => Ok([coor, coor.down(1), coor.up(1)?, coor.up(1)?.left(1)?]),
            _ => Err(()),
        },
        Piece::O => Ok([coor, coor.right(1), coor.up(1)?, coor.right(1).up(1)?]),
        Piece::S => if pos % 2 == 1 {
            Ok([coor, coor.up(1)?, coor.right(1), coor.down(1).right(1)])
        } else {
            Ok([coor, coor.left(1)?, coor.up(1)?, coor.right(1).up(1)?])
        },
        Piece::T => match pos {
            0 => Ok([coor, coor.left(1)?, coor.right(1), coor.down(1)]),
            1 => Ok([coor, coor.down(1), coor.up(1)?, coor.left(1)?]),
            2 => Ok([coor, coor.right(1), coor.left(1)?, coor.up(1)?]),
            3 => Ok([coor, coor.up(1)?, coor.down(1), coor.right(1)]),
            _ => Err(()),
        },
        Piece::Z => if pos % 2 == 1 {
            Ok([coor, coor.down(1), coor.right(1), coor.right(1).up(1)?])
        } else {
            Ok([coor, coor.left(1)?, coor.down(1), coor.down(1).right(1)])
        },
    }
}

/// The kind selected by an index below 7, in the fixed order I, J, L, O,
/// S, T, Z. The executable counterpart of a uniformly random draw.
pub open spec fn piece_of_index(i: int) -> Piece {
    if i == 0 {
        Piece::I
    } else if i == 1 {
        Piece::J
    } else if i == 2 {
        Piece::L
    } else if i == 3 {
        Piece::O
    } else if i == 4 {
        Piece::S
    } else if i == 5 {
        Piece::T
    } else {
        Piece::Z
    }
}

pub fn piece_from_index(i: usize) -> (p: Piece)
    ensures
        p == piece_of_index(i as int),
{
    match i {
        0 => Piece::I,
        1 => Piece::J,
        2 => Piece::L,
        3 => Piece::O,
        4 => Piece::S,
        5 => Piece::T,
        _ => Piece::Z,
    }
}

/// The color selected by an index below 7.
pub open spec fn color_of_index(i: int) -> Color {
    if i == 0 {
        Color::Red
    } else if i == 1 {
        Color::Blue
    } else if i == 2 {
        Color::Orange
    } else if i == 3 {
        Color::Yellow
    } else if i == 4 {
        Color::Green
    } else if i == 5 {
        Color::Violet
    } else {
        Color::Brown
    }
}

pub fn color_from_index(i: usize) -> (c: Color)
    ensures
        c == color_of_index(i as int),
{
    match i {
        0 => Color::Red,
        1 => Color::Blue,
        2 => Color::Orange,
        3 => Color::Yellow,
        4 => Color::Green,
        5 => Color::Violet,
        _ => Color::Brown,
    }
}

/// Every row of the offset table has four entries, the anchor first, and
/// offsets within a small fixed window: rows from -2 to 1, columns from
/// -1 to 2.
pub proof fn lemma_offsets_in_range(piece: Piece, pos: int)
    ensures
        piece_offsets(piece, pos) matches Some(offs) ==> {
            &&& offs.len() == 4
            &&& offs[0] == (0int, 0int)
            &&& forall|i: int|
                0 <= i < 4 ==> -2 <= (#[trigger] offs[i]).0 <= 1 && -1 <= offs[i].1 <= 2
        },
{
}

/// The four cells of a successfully placed piece are pairwise distinct.
pub proof fn lemma_piece_cells_distinct(piece: Piece, pos: int, row: int, col: int)
    requires
        piece_cells_at(piece, pos, row, col) is Some,
    ensures
        piece_cells_at(piece, pos, row, col)->Some_0.len() == 4,
        forall|i: int, j: int|
            0 <= i < j < 4 ==> #[trigger] piece_cells_at(piece, pos, row, col)->Some_0[i]
                != #[trigger] piece_cells_at(piece, pos, row, col)->Some_0[j],
{
    let offs = piece_offsets(piece, pos)->Some_0;
    let cells = piece_cells_at(piece, pos, row, col)->Some_0;
    assert forall|i: int, j: int|
        0 <= i < j < 4 implies #[trigger] cells[i] != #[trigger] cells[j] by {
        assert(offs[i] != offs[j]);
        assert(cells[i].0 == row + offs[i].0 && cells[i].1 == col + offs[i].1);
        assert(cells[j].0 == row + offs[j].0 && cells[j].1 == col + offs[j].1);
    }
}

} // verus!
