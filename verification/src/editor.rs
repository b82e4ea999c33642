//! The pattern editor: a cursor over a rectangular pattern grid, cell
//! editing by column kind, and the row-by-row pull interface an external
//! player drives.

use crate::sequence::{Command, Field, Note};
use vstd::prelude::*;

verus! {

/// The kind of grid column the cursor stands in: each field spans a note
/// column and three command columns (identifier, high nibble, low nibble).
#[derive(Clone, Copy, PartialEq, Eq, Structural, Debug)]
pub enum Column {
    Note,
    CommandId,
    CommandHi,
    CommandLo,
}

/// The column kind of a cursor position.
pub open spec fn spec_col_type(col: int) -> Column {
    if col % 4 == 0 {
        Column::Note
    } else if col % 4 == 1 {
        Column::CommandId
    } else if col % 4 == 2 {
        Column::CommandHi
    } else {
        Column::CommandLo
    }
}

impl Column {
    /// The width of the column in grid cells: a note is drawn three cells
    /// wide, everything else one.
    pub fn width(&self) -> (r: u32)
        ensures
            r == (if self is Note {
                3u32
            } else {
                1u32
            }),
    {
        match *self {
            Column::Note => 3,
            _ => 1,
        }
    }
}

/// The editing surface: a rectangular pattern, a cursor given as a row and
/// a column in quarter-field steps, and the play flag.
pub struct Sequence {
    pub pattern: Vec<Vec<Field>>,
    pub row: usize,
    pub col: usize,
    pub play: bool,
}

fn replace_in_row(row: &Vec<Field>, c: usize, f: Field) -> (r: Vec<Field>)
    requires
        c < row@.len(),
    ensures
        r@ == row@.update(c as int, f),
{
    let mut out: Vec<Field> = Vec::new();
    let mut i: usize = 0;
    while i < row.len()
        invariant
            i <= row@.len(),
            c < row@.len(),
            out@.len() == i,
            forall|j: int|
                0 <= j < i ==> out@[j] == (if j == c {
                    f
                } else {
                    row@[j]
                }),
        decreases row@.len() - i,
    {
        if i == c {
            out.push(f);
        } else {
            out.push(row[i]);
        }
        i += 1;
    }
    proof {
        assert(out@ =~= row@.update(c as int, f));
    }
    out
}

fn copy_row(row: &Vec<Field>) -> (r: Vec<Field>)
    ensures
        r@ == row@,
{
    let mut out: Vec<Field> = Vec::new();
    let mut i: usize = 0;
    while i < row.len()
        invariant
            i <= row@.len(),
            out@.len() == i,
            forall|j: int| 0 <= j < i ==> out@[j] == row@[j],
        decreases row@.len() - i,
    {
        out.push(row[i]);
        i += 1;
    }
    proof {
        assert(out@ =~= row@);
    }
    out
}

impl Sequence {
    /// The grid is rectangular and nonempty, the cursor stands inside it,
    /// and both dimensions are small enough for the 32-bit geometry the
    /// drawing side works in.
    pub open spec fn wf(&self) -> bool {
        &&& self.pattern@.len() >= 1
        &&& self.pattern@[0]@.len() >= 1
        &&& forall|r: int|
            0 <= r < self.pattern@.len() ==> (#[trigger] self.pattern@[r])@.len()
                == self.pattern@[0]@.len()
        &&& self.row < self.pattern@.len()
        &&& self.col < 4 * self.pattern@[0]@.len()
        &&& self.pattern@.len() <= 0x0FFF_FFFF
        &&& self.pattern@[0]@.len() <= 0x0FFF_FFFF
    }

    /// Builds an editor over a pattern, with the cursor at the top left and
    /// playback stopped.
    pub fn new(seq: Vec<Vec<Field>>) -> (r: Self)
        requires
            seq@.len() >= 1,
            seq@[0]@.len() >= 1,
            forall|r: int| 0 <= r < seq@.len() ==> (#[trigger] seq@[r])@.len() == seq@[0]@.len(),
            seq@.len() <= 0x0FFF_FFFF,
            seq@[0]@.len() <= 0x0FFF_FFFF,
        ensures
            r.pattern == seq,
            r.row == 0,
            r.col == 0,
            r.play == false,
            r.wf(),
    {
        Sequence { play: false, pattern: seq, row: 0, col: 0 }
    }

    /// The cursor's row.
    pub fn row(&self) -> (r: usize)
        ensures
            r == self.row,
    {
        self.row
    }

    /// The cursor's column, in quarter-field steps.
    pub fn col(&self) -> (r: usize)
        ensures
            r == self.col,
    {
        self.col
    }

    /// The drawn width of one field in grid cells.
    pub fn field_w(&self) -> (r: u32)
        ensures
            r == 6,
    {
        6
    }

    /// The drawn width of the whole pattern in grid cells.
    pub fn width(&self) -> (r: u32)
        requires
            self.wf(),
        ensures
            r == self.pattern@[0]@.len() * 6,
    {
        self.pattern[0].len() as u32 * self.field_w()
    }

    /// The number of rows.
    pub fn height(&self) -> (r: u32)
        requires
            self.wf(),
        ensures
            r == self.pattern@.len(),
    {
        self.pattern.len() as u32
    }

    /// The number of cursor columns: four per field.
    pub fn num_cols(&self) -> (r: u32)
        requires
            self.wf(),
        ensures
            r == self.pattern@[0]@.len() * 4,
    {
        self.pattern[0].len() as u32 * 4
    }

    /// The kind of column the cursor stands in.
    pub fn col_type(&self) -> (r: Column)
        ensures
            r == spec_col_type(self.col as int),
    {
        match self.col % 4 {
            0 => Column::Note,
            1 => Column::CommandId,
            2 => Column::CommandHi,
            _ => Column::CommandLo,
        }
    }

    /// The cursor rectangle in grid cells: fields are six cells wide (a
    /// two-cell gap after each), and the cursor is as wide as its column
    /// kind.
    pub fn cursor(&self) -> (r: (i32, i32, u32, u32))
        requires
            self.wf(),
        ensures
            r.0 == self.col + ((self.col + 3) / 4) * 2,
            r.1 == self.row,
            r.2 == (if spec_col_type(self.col as int) is Note {
                3u32
            } else {
                1u32
            }),
            r.3 == 1,
    {
        let x = (self.col + ((self.col + 3) / 4) * 2) as i32;
        let y = self.row as i32;
        let w = self.col_type().width();
        let h: u32 = 1;
        (x, y, w, h)
    }

    /// Replaces the note of the field under the cursor.
    pub fn set_note(&mut self, note: Note)
        requires
            old(self).wf(),
        ensures
            final (self).pattern@.len() == old(self).pattern@.len(),
            forall|r: int|
                0 <= r < old(self).pattern@.len() && r != old(self).row ==> final (
                self).pattern@[r] == old(self).pattern@[r],
            final (self).pattern@[old(self).row as int]@ == old(self).pattern@[old(
                self,
            ).row as int]@.update(
                old(self).col as int / 4,
                (Field {
                    note,
                    cmd: old(self).pattern@[old(self).row as int]@[old(self).col as int / 4].cmd,
                }),
            ),
            final (self).row == old(self).row,
            final (self).col == old(self).col,
            final (self).play == old(self).play,
            final (self).wf(),
    {
        let c = self.col / 4;
        let cell = self.pattern[self.row][c];
        let f = Field { note, cmd: cell.cmd };
        let newrow = replace_in_row(&self.pattern[self.row], c, f);
        self.pattern[self.row] = newrow;
    }

    /// Replaces the command identifier of the field under the cursor,
    /// keeping its data.
    pub fn set_cmd_id(&mut self, id: u8)
        requires
            old(self).wf(),
        ensures
            final (self).pattern@.len() == old(self).pattern@.len(),
            forall|r: int|
                0 <= r < old(self).pattern@.len() && r != old(self).row ==> final (
                self).pattern@[r] == old(self).pattern@[r],
            final (self).pattern@[old(self).row as int]@ == old(self).pattern@[old(
                self,
            ).row as int]@.update(
                old(self).col as int / 4,
                (Field {
                    note: old(self).pattern@[old(self).row as int]@[old(self).col as int
                        / 4].note,
                    cmd: Command {
                        id,
                        data: old(self).pattern@[old(self).row as int]@[old(self).col as int
                            / 4].cmd.data,
                    },
                }),
            ),
            final (self).row == old(self).row,
            final (self).col == old(self).col,
            final (self).play == old(self).play,
            final (self).wf(),
    {
        let c = self.col / 4;
        let cell = self.pattern[self.row][c];
        let f = Field { note: cell.note, cmd: Command { id, data: cell.cmd.data } };
        let newrow = replace_in_row(&self.pattern[self.row], c, f);
        self.pattern[self.row] = newrow;
    }

    /// Moves the cursor by the given deltas, wrapping around both edges of
    /// the grid.
    pub fn move_cursor(&mut self, dx: i32, dy: i32)
        requires
            old(self).wf(),
        ensures
            final (self).row == (old(self).row + dy) % (old(self).pattern@.len() as int),
            final (self).col == (old(self).col + dx) % (4 * old(self).pattern@[0]@.len() as int),
            final (self).pattern == old(self).pattern,
            final (self).play == old(self).play,
            final (self).wf(),
    {
        let h = self.pattern.len() as i64;
        let nc = (self.pattern[0].len() * 4) as i64;
        let r = modulus(self.row as i64 + dy as i64, h);
        let c = modulus(self.col as i64 + dx as i64, nc);
        self.row = r as usize;
        self.col = c as usize;
    }

    /// Inserts a blank row (all holds, no-op commands) after the cursor's
    /// row and moves the cursor onto it.
    pub fn insert(&mut self)
        requires
            old(self).wf(),
            old(self).pattern@.len() < 0x0FFF_FFFF,
        ensures
            final (self).pattern@.len() == old(self).pattern@.len() + 1,
            forall|r: int|
                0 <= r <= old(self).row ==> final (self).pattern@[r] == old(self).pattern@[r],
            forall|r: int|
                old(self).row + 1 < r < final (self).pattern@.len() ==> final (self).pattern@[r]
                    == old(self).pattern@[r - 1],
            final (self).pattern@[old(self).row + 1]@.len() == old(self).pattern@[0]@.len(),
            forall|j: int|
                0 <= j < old(self).pattern@[0]@.len() ==> (#[trigger] final (self).pattern@[old(
                    self,
                ).row + 1]@[j]) == (Field { note: Note::Hold, cmd: Command { id: 48, data: 0 } }),
            final (self).row == old(self).row + 1,
            final (self).col == old(self).col,
            final (self).play == old(self).play,
            final (self).wf(),
    {
        let w = self.pattern[0].len();
        let mut blank_row: Vec<Field> = Vec::new();
        while blank_row.len() < w
            invariant
                blank_row@.len() <= w,
                forall|j: int|
                    0 <= j < blank_row@.len() ==> blank_row@[j] == (Field {
                        note: Note::Hold,
                        cmd: Command { id: 48, data: 0 },
                    }),
            decreases w - blank_row@.len(),
        {
            blank_row.push(Field { note: Note::Hold, cmd: Command::zero() });
        }
        self.pattern.insert(self.row + 1, blank_row);
        self.row += 1;
    }

    /// Removes the cursor's row, unless it is the pattern's last remaining
    /// row, and moves the cursor up.
    pub fn remove(&mut self)
        requires
            old(self).wf(),
        ensures
            old(self).pattern@.len() > 1 ==> final (self).pattern@ == old(self).pattern@.remove(
                old(self).row as int,
            ) && final (self).row == (if old(self).row == 0 {
                0int
            } else {
                old(self).row - 1
            }),
            old(self).pattern@.len() == 1 ==> final (self).pattern == old(self).pattern && final (
            self).row == old(self).row,
            final (self).col == old(self).col,
            final (self).play == old(self).play,
            final (self).wf(),
    {
        if self.pattern.len() > 1 {
            self.pattern.remove(self.row);
            self.row = if self.row == 0 {
                0
            } else {
                self.row - 1
            };
        }
    }

    /// Hands out the cursor's row for playback; while playing, the cursor
    /// then advances to the next row, wrapping at the bottom.
    pub fn next(&mut self) -> (r: Vec<Field>)
        requires
            old(self).wf(),
        ensures
            r@ == old(self).pattern@[old(self).row as int]@,
            final (self).pattern == old(self).pattern,
            final (self).play == old(self).play,
            final (self).col == old(self).col,
            final (self).row == (if old(self).play {
                (old(self).row + 1) % (old(self).pattern@.len() as int)
            } else {
                old(self).row as int
            }),
            final (self).wf(),
    {
        let ret = copy_row(&self.pattern[self.row]);
        if self.play {
            self.move_cursor(0, 1);
            proof {
                vstd::arithmetic::div_mod::lemma_small_mod(
                    old(self).col as nat,
                    (4 * old(self).pattern@[0]@.len()) as nat,
                );
            }
        }
        ret
    }

    /// Jumps the playback row to the given row; a row beyond the pattern is
    /// rejected with no effect.
    pub fn jump_pos(&mut self, row: u8)
        requires
            old(self).wf(),
        ensures
            (row as int) < old(self).pattern@.len() ==> final (self).row == row,
            (row as int) >= old(self).pattern@.len() ==> final (self).row == old(self).row,
            final (self).pattern == old(self).pattern,
            final (self).col == old(self).col,
            final (self).play == old(self).play,
            final (self).wf(),
    {
        if (row as usize) < self.pattern.len() {
            self.row = row as usize;
        }
        // an out-of-range jump is rejected with no effect
    }
}

fn modulus(a: i64, b: i64) -> (r: i64)
    requires
        1 <= b <= 0x1_0000_0000,
        -0x1_0000_0000 <= a <= 0x1_0000_0000,
    ensures
        r == a as int % b as int,
{
    if a >= 0 {
        a % b
    } else {
        let m = (-a) % b;
        proof {
            let n = (-a) as int;
            let bb = b as int;
            vstd::arithmetic::div_mod::lemma_fundamental_div_mod(n, bb);
            let q = n / bb;
            if m == 0 {
                assert(a as int == (-q) * bb + 0) by (nonlinear_arith)
                    requires
                        a as int == -n,
                        n == bb * q + 0,
                ;
                vstd::arithmetic::div_mod::lemma_fundamental_div_mod_converse_mod(
                    a as int,
                    bb,
                    -q,
                    0,
                );
            } else {
                assert(a as int == (-q - 1) * bb + (bb - m)) by (nonlinear_arith)
                    requires
                        a as int == -n,
                        n == bb * q + m as int,
                ;
                vstd::arithmetic::div_mod::lemma_fundamental_div_mod_converse_mod(
                    a as int,
                    bb,
                    -q - 1,
                    bb - m,
                );
            }
        }
        if m == 0 {
            0
        } else {
            b - m
        }
    }
}

} // verus!
