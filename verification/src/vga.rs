//! A writer to a VGA text screen: characters go to the bottom row, one cell each, from left to
//! right.
use vstd::prelude::*;

verus! {

/// Number of rows of the text screen.
pub const BUFFER_HEIGHT: usize = 25;
/// Number of columns of the text screen.
pub const BUFFER_WIDTH: usize = 80;

/// The attribute byte of a screen cell: foreground and background colour.
#[derive(Debug, Clone, Copy, PartialEq, Eq)]
pub struct ColorCode(pub u8);

/// One cell of the text screen.
#[derive(Debug, Clone, Copy, PartialEq, Eq)]
pub struct ScreenChar {
    pub ascii_character: u8,
    pub color_code: ColorCode,
}

/// The cells of the screen, row after row.
struct Buffer {
    chars: Vec<ScreenChar>,
}

/// A writer to the bottom row of the text screen.
pub struct Writer {
    column_position: usize,
    color_code: ColorCode,
    buffer: Buffer,
}

/// The byte a character is stored as: its low eight bits; a newline is stored as a carriage
/// return.
pub open spec fn screen_byte(c: char) -> u8 {
    if c == '\n' {
        '\r' as u8
    } else {
        c as u8
    }
}

/// The screen cells and the column after writing `s` in `color` from column `col` on.
pub open spec fn after_text(cells: Seq<ScreenChar>, col: nat, color: ColorCode, s: Seq<char>) -> (
    Seq<ScreenChar>,
    nat,
)
    decreases s.len(),
{
    if s.len() == 0 {
        (cells, col)
    } else {
        let (c, k) = after_text(cells, col, color, s.drop_last());
        (
            c.update(
                ((BUFFER_HEIGHT - 1) * BUFFER_WIDTH + k) as int,
                ScreenChar { ascii_character: screen_byte(s.last()), color_code: color },
            ),
            k + 1,
        )
    }
}

impl Writer {
    /// The column the next character goes to.
    pub closed spec fn column(&self) -> nat {
        self.column_position as nat
    }

    /// The colour characters are written in.
    pub closed spec fn color(&self) -> ColorCode {
        self.color_code
    }

    /// The cells of the screen, row after row.
    pub closed spec fn cells(&self) -> Seq<ScreenChar> {
        self.buffer.chars@
    }

    /// The screen holds its 25 rows of 80 cells.
    pub closed spec fn wf(&self) -> bool {
        self.buffer.chars@.len() == BUFFER_HEIGHT * BUFFER_WIDTH
    }

    /// A well-formed writer's screen has 25 rows of 80 cells.
    pub proof fn lemma_wf_cells(&self)
        requires
            self.wf(),
        ensures
            self.cells().len() == BUFFER_HEIGHT * BUFFER_WIDTH,
    {
    }

    /// A writer in `color_code` over a screen that holds `screen`, starting at the first
    /// column.
    pub fn new(color_code: ColorCode, screen: Vec<ScreenChar>) -> (w: Writer)
        requires
            screen@.len() == BUFFER_HEIGHT * BUFFER_WIDTH,
        ensures
            w.wf(),
            w.column() == 0,
            w.color() == color_code,
            w.cells() == screen@,
    {
        Writer { column_position: 0, color_code, buffer: Buffer { chars: screen } }
    }

    /// The column the next character goes to.
    pub fn column_position(&self) -> (c: usize)
        ensures
            c == self.column(),
    {
        self.column_position
    }

    /// The cell at `row`, `col`.
    pub fn screen_char(&self, row: usize, col: usize) -> (c: ScreenChar)
        requires
            self.wf(),
            row < BUFFER_HEIGHT,
            col < BUFFER_WIDTH,
        ensures
            c == self.cells()[row * BUFFER_WIDTH + col],
    {
        self.buffer.chars[row * BUFFER_WIDTH + col]
    }

    /// Writes `character` to the next cell of the bottom row. The column must be inside the
    /// row: at the end of the row a character is never written (the line break that would make
    /// room asks for room itself).
    pub fn write_char(&mut self, character: char)
        requires
            old(self).wf(),
            old(self).column() < BUFFER_WIDTH,
        ensures
            final(self).wf(),
            final(self).color() == old(self).color(),
            (final(self).cells(), final(self).column()) == after_text(
                old(self).cells(),
                old(self).column(),
                old(self).color(),
                seq![character],
            ),
    {
        let byte: u8 = if character == '\n' {
            '\r' as u8
        } else {
            #[verifier::truncate] (character as u8)
        };
        assert(byte == screen_byte(character));
        let row = BUFFER_HEIGHT - 1;
        let col = self.column_position;
        let color_code = self.color_code;
        self.buffer.chars.set(row * BUFFER_WIDTH + col, ScreenChar { ascii_character: byte, color_code });
        self.column_position += 1;
        proof {
            let s = seq![character];
            assert(s.drop_last() =~= Seq::<char>::empty());
            assert(after_text(old(self).cells(), old(self).column(), old(self).color(), s.drop_last())
                == (old(self).cells(), old(self).column()));
            assert(s.last() == character);
        }
    }

    /// Writes the characters of `s` one after the other; they must all fit in the rest of the
    /// row.
    pub fn write_str(&mut self, s: &str)
        requires
            old(self).wf(),
            old(self).column() + s@.len() <= BUFFER_WIDTH,
        ensures
            final(self).wf(),
            final(self).color() == old(self).color(),
            (final(self).cells(), final(self).column()) == after_text(
                old(self).cells(),
                old(self).column(),
                old(self).color(),
                s@,
            ),
    {
        let n = s.unicode_len();
        let mut i: usize = 0;
        while i < n
            invariant
                n == s@.len(),
                i <= n,
                self.wf(),
                old(self).wf(),
                self.color() == old(self).color(),
                old(self).column() + n <= BUFFER_WIDTH,
                (self.cells(), self.column()) == after_text(
                    old(self).cells(),
                    old(self).column(),
                    old(self).color(),
                    s@.take(i as int),
                ),
            decreases n - i,
        {
            proof {
                lemma_after_text_column(old(self).cells(), old(self).column(), old(self).color(), s@.take(i as int));
            }
            let c = s.get_char(i);
            self.write_char(c);
            proof {
                let t = s@.take(i as int);
                let t1 = s@.take(i + 1);
                assert(t1.drop_last() =~= t);
                assert(t1.last() == c);
                lemma_after_text_concat(old(self).cells(), old(self).column(), old(self).color(), t, seq![c]);
                assert(t + seq![c] =~= t1);
            }
            i = i + 1;
        }
        assert(s@.take(n as int) =~= s@);
    }
}

/// Writing text moves the column on by one per character.
pub proof fn lemma_after_text_column(cells: Seq<ScreenChar>, col: nat, color: ColorCode, s: Seq<char>)
    requires
        cells.len() == BUFFER_HEIGHT * BUFFER_WIDTH,
        col + s.len() <= BUFFER_WIDTH,
    ensures
        after_text(cells, col, color, s).1 == col + s.len(),
        after_text(cells, col, color, s).0.len() == cells.len(),
    decreases s.len(),
{
    if s.len() > 0 {
        lemma_after_text_column(cells, col, color, s.drop_last());
    }
}

/// Writing `a` and then `b` leaves the screen and the column as writing `a + b` does.
pub proof fn lemma_after_text_concat(cells: Seq<ScreenChar>, col: nat, color: ColorCode, a: Seq<char>, b: Seq<char>)
    ensures
        after_text(after_text(cells, col, color, a).0, after_text(cells, col, color, a).1, color, b)
            == after_text(cells, col, color, a + b),
    decreases b.len(),
{
    if b.len() == 0 {
        assert(a + b =~= a);
    } else {
        lemma_after_text_concat(cells, col, color, a, b.drop_last());
        assert((a + b).drop_last() =~= a + b.drop_last());
        assert((a + b).last() == b.last());
    }
}

/// Writing `s` from column `col` stores its characters in the cells of the bottom row from
/// `col` on, one each, leaves every other cell as it was, and ends `s.len()` columns further.
pub proof fn lemma_after_text_cells(cells: Seq<ScreenChar>, col: nat, color: ColorCode, s: Seq<char>)
    requires
        cells.len() == BUFFER_HEIGHT * BUFFER_WIDTH,
        col + s.len() <= BUFFER_WIDTH,
    ensures
        after_text(cells, col, color, s).1 == col + s.len(),
        after_text(cells, col, color, s).0.len() == cells.len(),
        forall|k: int| 0 <= k < s.len() ==> #[trigger] after_text(cells, col, color, s).0[1920 + col + k]
            == (ScreenChar { ascii_character: screen_byte(s[k]), color_code: color }),
        forall|i: int| 0 <= i < cells.len() && !(1920 + col <= i < 1920 + col + s.len())
            ==> #[trigger] after_text(cells, col, color, s).0[i] == cells[i],
    decreases s.len(),
{
    lemma_after_text_column(cells, col, color, s);
    if s.len() > 0 {
        lemma_after_text_cells(cells, col, color, s.drop_last());
        lemma_after_text_column(cells, col, color, s.drop_last());
    }
}

/// A newline is stored as a carriage return (13); any other character as its code modulo 256.
pub proof fn lemma_screen_byte(c: char)
    ensures
        screen_byte('\n') == 13,
        c != '\n' ==> screen_byte(c) as int == (c as u32) % 256,
{
    let v = c as u32;
    assert(v as u8 == v % 256) by (bit_vector);
}

} // verus!
