//! The roulette animation: one lit cell travels clockwise around the border
//! of the 5×5 LED matrix, starting next to the top-left corner.
use vstd::prelude::*;

verus! {

/// Side length of the LED matrix.
pub const SIDE: usize = 5;

/// Number of positions on the border path; after that many steps it repeats.
pub const PATH_LEN: usize = 16;

/// How long each frame stays on the display, in milliseconds.
pub const HOLD_MS: u32 = 50;

/// A frame of the LED matrix, by row then column; 1 is lit, 0 is dark.
pub type Matrix = [[u8; 5]; 5];

/// Brightness of cell (`r`, `c`) in `m`.
pub open spec fn cell(m: Matrix, r: int, c: int) -> u8 {
    m@[r]@[c]
}

/// Whether (`r`, `c`) is a cell of the outer ring of the matrix.
pub open spec fn on_border(r: int, c: int) -> bool {
    0 <= r < 5 && 0 <= c < 5 && (r == 0 || r == 4 || c == 0 || c == 4)
}

/// Cell at position `k` of the path: along the top row to the right, down
/// the right column, back along the bottom row, and up the left column.
pub open spec fn path_cell(k: int) -> (int, int) {
    if k < 4 {
        (0, k + 1)
    } else if k < 8 {
        (k - 3, 4)
    } else if k < 12 {
        (4, 11 - k)
    } else {
        (15 - k, 0)
    }
}

/// Every cell of `m` is dark.
pub open spec fn all_dark(m: Matrix) -> bool {
    forall|r: int, c: int| 0 <= r < 5 && 0 <= c < 5 ==> cell(m, r, c) == 0
}

/// Cell (`r`, `c`) is lit in `m` and every other cell is dark.
pub open spec fn only_lit(m: Matrix, r: int, c: int) -> bool {
    forall|i: int, j: int|
        0 <= i < 5 && 0 <= j < 5 ==> cell(m, i, j) == (if i == r && j == c { 1u8 } else { 0u8 })
}

/// Cell at position `k` of the border path.
pub fn path_position(k: usize) -> (rc: (usize, usize))
    requires
        k < PATH_LEN,
    ensures
        rc.0 as int == path_cell(k as int).0,
        rc.1 as int == path_cell(k as int).1,
{
    if k < 4 {
        (0, k + 1)
    } else if k < 8 {
        (k - 3, 4)
    } else if k < 12 {
        (4, 11 - k)
    } else {
        (15 - k, 0)
    }
}

/// The animation state: the frame shown and the path position of its lit cell.
pub struct Roulette {
    pub matrix: Matrix,
    pub cursor: usize,
}

impl Roulette {
    /// The cursor is on the path, and the frame is dark (before the first
    /// step) or lights exactly the cell under the cursor.
    pub open spec fn wf(&self) -> bool {
        &&& self.cursor < PATH_LEN
        &&& (all_dark(self.matrix) || only_lit(
            self.matrix,
            path_cell(self.cursor as int).0,
            path_cell(self.cursor as int).1,
        ))
    }

    /// A dark matrix with the cursor on the top-left corner, so that the
    /// first step lights the cell to its right.
    pub fn new() -> (s: Self)
        ensures
            s.wf(),
            all_dark(s.matrix),
            s.cursor == PATH_LEN - 1,
    {
        let s = Roulette { matrix: [[0u8; 5]; 5], cursor: PATH_LEN - 1 };
        assert(all_dark(s.matrix));
        s
    }

    /// Turns off the lit cell, moves one position along the path and lights
    /// the new cell.
    pub fn step(&mut self)
        requires
            old(self).wf(),
        ensures
            final(self).wf(),
            final(self).cursor == (old(self).cursor + 1) % (PATH_LEN as int),
            only_lit(
                final(self).matrix,
                path_cell(final(self).cursor as int).0,
                path_cell(final(self).cursor as int).1,
            ),
    {
        let (r, c) = path_position(self.cursor);
        let mut row = self.matrix[r];
        row[c] = 0;
        self.matrix[r] = row;
        assert(all_dark(self.matrix)) by {
            assert forall|i: int, j: int| 0 <= i < 5 && 0 <= j < 5 implies cell(
                self.matrix,
                i,
                j,
            ) == 0 by {
                if i == r as int && j == c as int {
                } else {
                    assert(cell(self.matrix, i, j) == cell(old(self).matrix, i, j));
                }
            }
        }
        let next = if self.cursor + 1 == PATH_LEN { 0 } else { self.cursor + 1 };
        let (nr, nc) = path_position(next);
        let ghost dark = self.matrix;
        let mut row = self.matrix[nr];
        row[nc] = 1;
        self.matrix[nr] = row;
        assert forall|i: int, j: int| 0 <= i < 5 && 0 <= j < 5 implies cell(self.matrix, i, j) == (
        if i == nr as int && j == nc as int {
            1u8
        } else {
            0u8
        }) by {
            if i == nr as int && j == nc as int {
            } else {
                assert(cell(self.matrix, i, j) == cell(dark, i, j));
            }
        }
        self.cursor = next;
    }

    /// The frame to hand to the display.
    pub fn frame(&self) -> (m: Matrix)
        ensures
            m == self.matrix,
    {
        self.matrix
    }
}

/// Over one cycle the path visits sixteen distinct border cells, which are
/// all the cells of the border, and the cycle then starts over.
pub proof fn lemma_path_covers_border()
    ensures
        forall|i: int, j: int|
            0 <= i < j < PATH_LEN ==> #[trigger] path_cell(i) != #[trigger] path_cell(j),
        forall|k: int| 0 <= k < PATH_LEN ==> on_border(#[trigger] path_cell(k).0, path_cell(k).1),
        forall|r: int, c: int|
            #[trigger] on_border(r, c) ==> exists|k: int| 0 <= k < PATH_LEN && path_cell(k) == (r, c),
{
    assert forall|r: int, c: int| #[trigger] on_border(r, c) implies exists|k: int|
        0 <= k < PATH_LEN && path_cell(k) == (r, c) by {
        let k = if r == 0 && c > 0 {
            c - 1
        } else if c == 4 {
            r + 3
        } else if r == 4 {
            11 - c
        } else {
            15 - r
        };
        assert(path_cell(k) == (r, c));
    }
}

/// Cell lit `n` steps after the cursor stood at position `c`.
pub open spec fn lit_after(c: int, n: int) -> (int, int) {
    path_cell((c + n) % (PATH_LEN as int))
}

/// From any position, sixteen steps light sixteen distinct cells, each alone
/// in its frame, and the seventeenth lights the first of them again.
pub proof fn lemma_cycle_from(start: Roulette)
    requires
        start.wf(),
    ensures
        forall|i: int, j: int|
            1 <= i < j <= PATH_LEN ==> #[trigger] lit_after(start.cursor as int, i)
                != #[trigger] lit_after(start.cursor as int, j),
        lit_after(start.cursor as int, PATH_LEN + 1) == lit_after(start.cursor as int, 1),
{
    lemma_path_covers_border();
    let c = start.cursor as int;
    assert forall|i: int, j: int| 1 <= i < j <= PATH_LEN implies #[trigger] lit_after(c, i)
        != #[trigger] lit_after(c, j) by {
        let a = (c + i) % 16;
        let b = (c + j) % 16;
        assert(a != b);
        if a < b {
            assert(path_cell(a) != path_cell(b));
        } else {
            assert(path_cell(b) != path_cell(a));
        }
    }
    assert((c + 17) % 16 == (c + 1) % 16);
}

} // verus!
