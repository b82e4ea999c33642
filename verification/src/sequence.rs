//! The pattern store and its cell types: a row-major table of authored
//! (note, command) pairs that the sequencer reads by row and column.

use crate::base32;
use vstd::prelude::*;

verus! {

/// Relies on `String::push`: appends exactly the given character at the end
/// of the string.
pub assume_specification[ String::push ](s: &mut String, c: char)
    ensures
        final (s)@ == old(s)@.push(c),
;

/// The highest semitone index a note may carry; the fixed-point note range
/// of a channel is `[0, MAX_PITCH << 8]`.
pub const MAX_PITCH: u8 = 120;

/// A note event: start a pitch (a semitone index), silence the channel, or
/// leave the previous state untouched.
#[derive(Clone, Copy, PartialEq, Eq, Structural, Debug)]
pub enum Note {
    On(u8),
    Off,
    Hold,
}

/// An effect command: an identifier drawn from the command alphabet and one
/// byte of data.
#[derive(Clone, Copy, PartialEq, Eq, Structural, Debug)]
pub struct Command {
    pub id: u8,
    pub data: u8,
}

/// One authored cell of the pattern: a note event and an effect command.
#[derive(Clone, Copy, PartialEq, Eq, Structural, Debug)]
pub struct Field {
    pub note: Note,
    pub cmd: Command,
}

impl Note {
    /// Transposes a pitch upward by the given number of semitones; a
    /// release or a hold is unchanged.
    pub fn add(self, with: u8) -> (r: Note)
        requires
            self matches Note::On(n) ==> n + with <= 255,
        ensures
            r == (match self {
                Note::On(n) => Note::On((n + with) as u8),
                _ => self,
            }),
    {
        match self {
            Note::On(v) => Note::On(v + with),
            _ => self,
        }
    }
}

/// The pattern store: one `Vec<Field>` per row, indexed from the top.
pub struct Sequence {
    pub fields: Vec<Vec<Field>>,
}

/// A playable pattern: at least one row, and a positive width read from the
/// top row. A later row may be narrower or empty; the sequencer simply runs
/// that many channels there.
pub open spec fn pattern_wf(fields: Seq<Vec<Field>>) -> bool {
    &&& fields.len() >= 1
    &&& fields[0]@.len() >= 1
}

impl Sequence {
    /// The pattern has at least one row and a positive top-row width.
    pub open spec fn wf(&self) -> bool {
        pattern_wf(self.fields@)
    }

    pub fn new(fields: Vec<Vec<Field>>) -> (r: Self)
        ensures
            r.fields == fields,
    {
        Sequence { fields }
    }

    pub fn get_field(&self, row: usize, col: usize) -> (r: &Field)
        requires
            row < self.fields@.len(),
            col < self.fields@[row as int]@.len(),
        ensures
            *r == self.fields@[row as int]@[col as int],
    {
        &self.fields[row][col]
    }

    /// The channel count of the top row.
    pub fn width(&self) -> (r: usize)
        requires
            self.fields@.len() >= 1,
        ensures
            r == self.fields@[0]@.len(),
    {
        self.fields[0].len()
    }

    /// The number of rows.
    pub fn len(&self) -> (r: usize)
        ensures
            r == self.fields@.len(),
    {
        self.fields.len()
    }
}

impl Command {
    /// The explicit no-op command: identifier `'0'` with zero data.
    pub fn zero() -> (r: Command)
        ensures
            r.id == 48,
            r.data == 0,
    {
        Command { id: 48, data: 0 }
    }

    /// The high nibble of the data byte.
    pub fn hi(&self) -> (r: u8)
        ensures
            r == self.data / 16,
    {
        self.data / 16
    }

    /// The low nibble of the data byte.
    pub fn lo(&self) -> (r: u8)
        ensures
            r == self.data % 16,
    {
        self.data % 16
    }

    /// Replaces the high nibble of the data byte.
    pub fn set_hi(&mut self, v: u8)
        ensures
            final(self).data == old(self).data % 16 + (v % 16) * 16,
            final(self).id == old(self).id,
    {
        self.data = self.data % 16 + (v % 16) * 16;
    }

    /// Replaces the low nibble of the data byte.
    pub fn set_lo(&mut self, v: u8)
        ensures
            final(self).data == (old(self).data / 16) * 16 + v % 16,
            final(self).id == old(self).id,
    {
        self.data = (self.data / 16) * 16 + v % 16;
    }
}

/// Whether a character is a hexadecimal digit, in either letter case.
pub open spec fn is_hex_digit(c: char) -> bool {
    ||| 48 <= c as int <= 57
    ||| 97 <= c as int <= 102
    ||| 65 <= c as int <= 70
}

/// The value of one hexadecimal digit.
pub open spec fn hex_digit_value(c: char) -> int {
    if 48 <= c as int <= 57 {
        c as int - 48
    } else if 97 <= c as int <= 102 {
        c as int - 87
    } else {
        c as int - 55
    }
}

/// The value of a big-endian string of hexadecimal digits.
pub open spec fn hex_value(s: Seq<char>) -> int
    decreases s.len(),
{
    if s.len() == 0 {
        0
    } else {
        hex_value(s.drop_last()) * 16 + hex_digit_value(s.last())
    }
}

/// Whether every character of the string is a hexadecimal digit.
pub open spec fn all_hex(s: Seq<char>) -> bool {
    forall|i: int| 0 <= i < s.len() ==> is_hex_digit(#[trigger] s[i])
}

/// A string of hexadecimal digits has a non-negative value.
pub proof fn lemma_hex_value_nonneg(s: Seq<char>)
    requires
        all_hex(s),
    ensures
        hex_value(s) >= 0,
    decreases s.len(),
{
    if s.len() > 0 {
        assert(all_hex(s.drop_last()));
        lemma_hex_value_nonneg(s.drop_last());
        assert(is_hex_digit(s.last()));
    }
}

/// The value of a prefix of a hexadecimal string never exceeds the value of
/// the whole string.
pub proof fn lemma_hex_value_prefix(s: Seq<char>, i: int)
    requires
        all_hex(s),
        0 <= i <= s.len(),
    ensures
        0 <= hex_value(s.subrange(0, i)) <= hex_value(s),
    decreases s.len() - i,
{
    assert(all_hex(s.subrange(0, i)));
    lemma_hex_value_nonneg(s.subrange(0, i));
    if i < s.len() {
        lemma_hex_value_prefix(s, i + 1);
        let t = s.subrange(0, i + 1);
        assert(t.drop_last() =~= s.subrange(0, i));
        assert(t.last() == s[i]);
        assert(is_hex_digit(s[i]));
        assert(hex_value(t) == hex_value(s.subrange(0, i)) * 16 + hex_digit_value(s[i]));
    } else {
        assert(s.subrange(0, i) =~= s);
    }
}

fn hex_digit_to_val(c: char) -> (r: u8)
    requires
        is_hex_digit(c),
    ensures
        r == hex_digit_value(c),
        r < 16,
{
    let u = c as u32;
    if u >= 48 && u <= 57 {
        (u - 48) as u8
    } else if u >= 97 && u <= 102 {
        (u - 87) as u8
    } else {
        (u - 55) as u8
    }
}

/// The upper-case character for one hexadecimal digit value.
pub open spec fn hex_char_of(d: int) -> char {
    if d < 10 {
        (48 + d) as char
    } else {
        (55 + d) as char
    }
}

fn hex_char(d: u8) -> (r: char)
    requires
        d < 16,
    ensures
        r == hex_char_of(d as int),
{
    if d < 10 {
        (48 + d) as char
    } else {
        (55 + d) as char
    }
}

impl Command {
    /// Parses a command from one alphabet symbol followed by the data byte
    /// in hexadecimal.
    pub fn from_str(raw: &str) -> (r: Command)
        requires
            raw@.len() >= 2,
            raw@[0] as int <= 127,
            base32::symbol_value(raw@[0] as int) != 0,
            all_hex(raw@.subrange(1, raw@.len() as int)),
            hex_value(raw@.subrange(1, raw@.len() as int)) <= 255,
        ensures
            r.id == base32::symbol_value(raw@[0] as int),
            r.data == hex_value(raw@.subrange(1, raw@.len() as int)),
    {
        let len = raw.unicode_len();
        let c0 = raw.get_char(0);
        let id = match base32::from_char(c0) {
            Ok(v) => v,
            Err(_) => 0,
        };
        let ghost digits = raw@.subrange(1, raw@.len() as int);
        let mut data: u8 = 0;
        let mut i: usize = 1;
        while i < len
            invariant
                1 <= i <= len,
                len == raw@.len(),
                all_hex(digits),
                hex_value(digits) <= 255,
                digits == raw@.subrange(1, len as int),
                data == hex_value(digits.subrange(0, i - 1)),
            decreases len - i,
        {
            let c = raw.get_char(i);
            assert(digits[i - 1] == c);
            let d = hex_digit_to_val(c);
            proof {
                lemma_hex_value_prefix(digits, i as int);
                let t = digits.subrange(0, i as int);
                assert(t.drop_last() =~= digits.subrange(0, i - 1));
                assert(t.last() == digits[i - 1]);
            }
            data = data * 16 + d;
            i += 1;
        }
        proof {
            assert(digits.subrange(0, len - 1) =~= digits);
        }
        Command { id, data }
    }

    /// The text form of the command: its identifier character followed by
    /// the data byte in upper-case hexadecimal without leading zeros.
    pub open spec fn spec_string(self) -> Seq<char> {
        if self.data < 16 {
            seq![self.id as char, hex_char_of(self.data as int)]
        } else {
            seq![
                self.id as char,
                hex_char_of(self.data as int / 16),
                hex_char_of(self.data as int % 16),
            ]
        }
    }

    pub fn string(&self) -> (r: String)
        ensures
            r@ == self.spec_string(),
    {
        let mut out = String::new();
        out.push(self.id as char);
        if self.data >= 16 {
            out.push(hex_char(self.data / 16));
        }
        out.push(hex_char(self.data % 16));
        proof {
            assert(out@ =~= self.spec_string());
        }
        out
    }
}

/// The two-character name of a pitch class, `0` standing for C.
pub open spec fn note_name(pc: int) -> Seq<char> {
    if pc == 0 {
        seq!['C', '-']
    } else if pc == 1 {
        seq!['C', '#']
    } else if pc == 2 {
        seq!['D', '-']
    } else if pc == 3 {
        seq!['D', '#']
    } else if pc == 4 {
        seq!['E', '-']
    } else if pc == 5 {
        seq!['F', '-']
    } else if pc == 6 {
        seq!['F', '#']
    } else if pc == 7 {
        seq!['G', '-']
    } else if pc == 8 {
        seq!['G', '#']
    } else if pc == 9 {
        seq!['A', '-']
    } else if pc == 10 {
        seq!['A', '#']
    } else {
        seq!['B', '-']
    }
}

fn note_name_chars(pc: u8) -> (r: (char, char))
    requires
        pc < 12,
    ensures
        seq![r.0, r.1] == note_name(pc as int),
{
    if pc == 0 {
        ('C', '-')
    } else if pc == 1 {
        ('C', '#')
    } else if pc == 2 {
        ('D', '-')
    } else if pc == 3 {
        ('D', '#')
    } else if pc == 4 {
        ('E', '-')
    } else if pc == 5 {
        ('F', '-')
    } else if pc == 6 {
        ('F', '#')
    } else if pc == 7 {
        ('G', '-')
    } else if pc == 8 {
        ('G', '#')
    } else if pc == 9 {
        ('A', '-')
    } else if pc == 10 {
        ('A', '#')
    } else {
        ('B', '-')
    }
}

/// The text form of a note event: name and decimal octave for a pitch,
/// dashes for a release, blanks for a hold.
pub open spec fn note_string(n: Note) -> Seq<char> {
    match n {
        Note::On(v) => note_name(v as int % 12) + (if v as int / 12 < 10 {
            seq![hex_char_of(v as int / 12)]
        } else {
            seq![hex_char_of(v as int / 12 / 10), hex_char_of(v as int / 12 % 10)]
        }),
        Note::Off => seq!['-', '-', '-'],
        Note::Hold => seq![' ', ' ', ' '],
    }
}

impl Field {
    /// The text form of a cell: the note followed by the command identifier
    /// and the data byte as two upper-case hexadecimal digits.
    pub open spec fn spec_string(self) -> Seq<char> {
        note_string(self.note) + seq![
            self.cmd.id as char,
            hex_char_of(self.cmd.data as int / 16),
            hex_char_of(self.cmd.data as int % 16),
        ]
    }

    pub fn string(&self) -> (r: String)
        ensures
            r@ == self.spec_string(),
    {
        let mut out = String::new();
        match self.note {
            Note::On(v) => {
                let (a, b) = note_name_chars(v % 12);
                out.push(a);
                out.push(b);
                let oct = v / 12;
                if oct < 10 {
                    out.push(hex_char(oct));
                } else {
                    out.push(hex_char(oct / 10));
                    out.push(hex_char(oct % 10));
                }
            },
            Note::Off => {
                out.push('-');
                out.push('-');
                out.push('-');
            },
            Note::Hold => {
                out.push(' ');
                out.push(' ');
                out.push(' ');
            },
        }
        out.push(self.cmd.id as char);
        out.push(hex_char(self.cmd.data / 16));
        out.push(hex_char(self.cmd.data % 16));
        proof {
            assert(out@ =~= self.spec_string());
        }
        out
    }
}

} // verus!
