//! The VGA text-mode console: colours, screen cells, the 25x80 text buffer and
//! the cursor-driven writer that prints bytes onto it.
use vstd::prelude::*;

verus! {

/// Number of character cells in one row of the VGA text buffer.
pub const VGA_WIDTH: usize = 80;

/// Number of rows in the VGA text buffer.
pub const VGA_HEIGHT: usize = 25;

/// The sixteen VGA text-mode colours, in hardware order.
#[derive(Debug, Clone, Copy, PartialEq, Eq, Structural)]
pub enum Colour {
    Black,
    Blue,
    Green,
    Cyan,
    Red,
    Magenta,
    Brown,
    LightGray,
    DarkGray,
    LightBlue,
    LightGreen,
    LightCyan,
    LightRed,
    LightMagenta,
    Yellow,
    White,
}

/// The hardware number of a colour (its position in the VGA palette).
pub open spec fn colour_number(c: Colour) -> u8 {
    match c {
        Colour::Black => 0,
        Colour::Blue => 1,
        Colour::Green => 2,
        Colour::Cyan => 3,
        Colour::Red => 4,
        Colour::Magenta => 5,
        Colour::Brown => 6,
        Colour::LightGray => 7,
        Colour::DarkGray => 8,
        Colour::LightBlue => 9,
        Colour::LightGreen => 10,
        Colour::LightCyan => 11,
        Colour::LightRed => 12,
        Colour::LightMagenta => 13,
        Colour::Yellow => 14,
        Colour::White => 15,
    }
}

impl Colour {
    /// The palette number of the colour, 0 to 15.
    pub fn as_u8(self) -> (n: u8)
        ensures
            n == colour_number(self),
            n < 16,
    {
        match self {
            Colour::Black => 0,
            Colour::Blue => 1,
            Colour::Green => 2,
            Colour::Cyan => 3,
            Colour::Red => 4,
            Colour::Magenta => 5,
            Colour::Brown => 6,
            Colour::LightGray => 7,
            Colour::DarkGray => 8,
            Colour::LightBlue => 9,
            Colour::LightGreen => 10,
            Colour::LightCyan => 11,
            Colour::LightRed => 12,
            Colour::LightMagenta => 13,
            Colour::Yellow => 14,
            Colour::White => 15,
        }
    }
}

/// A VGA attribute byte: background colour in the high nibble, foreground
/// colour in the low nibble.
#[derive(Debug, Clone, Copy, PartialEq, Eq, Structural)]
pub struct ColourCode(u8);

impl View for ColourCode {
    type V = u8;

    closed spec fn view(&self) -> u8 {
        self.0
    }
}

/// The attribute byte for foreground `fg` on background `bg`.
pub closed spec fn colour_code_of(fg: Colour, bg: Colour) -> ColourCode {
    ColourCode(((colour_number(bg) << 4u8) | colour_number(fg)) as u8)
}

impl ColourCode {
    /// The attribute byte for foreground `fg` on background `bg`.
    pub fn new(fg: Colour, bg: Colour) -> (code: ColourCode)
        ensures
            code == colour_code_of(fg, bg),
            code@ == ((colour_number(bg) << 4u8) | colour_number(fg)),
            code@ == colour_number(bg) * 16 + colour_number(fg),
            code@ % 16 == colour_number(fg),
            code@ / 16 == colour_number(bg),
    {
        let b = bg.as_u8();
        let f = fg.as_u8();
        assert(((b << 4u8) | f) == b * 16 + f) by (bit_vector)
            requires
                b < 16,
                f < 16,
        ;
        ColourCode((b << 4u8) | f)
    }

    /// The attribute byte itself.
    pub fn value(&self) -> (v: u8)
        ensures
            v == self@,
    {
        self.0
    }
}

/// One cell of the text buffer: a code-page-437 byte and its attribute.
#[derive(Debug, Clone, Copy, PartialEq, Eq, Structural)]
pub struct ScreenChar {
    pub ascii_char: u8,
    pub colour_code: ColourCode,
}

/// The blank cell (a space) drawn in the given colour.
pub open spec fn blank(c: ColourCode) -> ScreenChar {
    ScreenChar { ascii_char: 32u8, colour_code: c }
}

/// The VGA text buffer: `VGA_HEIGHT` rows of `VGA_WIDTH` cells.
pub struct Buffer {
    pub chars: [[ScreenChar; VGA_WIDTH]; VGA_HEIGHT],
}

impl View for Buffer {
    type V = Seq<Seq<ScreenChar>>;

    /// The screen as a sequence of rows, each a sequence of cells.
    open spec fn view(&self) -> Seq<Seq<ScreenChar>> {
        Seq::new(VGA_HEIGHT as nat, |r: int| self.chars@[r]@)
    }
}

impl Buffer {
    /// A buffer whose every cell holds `fill`.
    pub fn filled(fill: ScreenChar) -> (b: Buffer)
        ensures
            forall|r: int, c: int|
                0 <= r < VGA_HEIGHT && 0 <= c < VGA_WIDTH ==> #[trigger] b@[r][c] == fill,
    {
        let row = [fill; VGA_WIDTH];
        Buffer { chars: [row; VGA_HEIGHT] }
    }
}

/// The abstract state of a writer: its cursor, its colour and the screen it
/// draws on.
pub struct WriterModel {
    pub row: int,
    pub column: int,
    pub colour: ColourCode,
    pub screen: Seq<Seq<ScreenChar>>,
}

/// The screen with the cell at (`r`, `c`) replaced by `x`.
pub open spec fn set_cell(screen: Seq<Seq<ScreenChar>>, r: int, c: int, x: ScreenChar) -> Seq<Seq<ScreenChar>> {
    screen.update(r, screen[r].update(c, x))
}

/// The screen with row `r` replaced by blanks of colour `col`.
pub open spec fn cleared_row(screen: Seq<Seq<ScreenChar>>, r: int, col: ColourCode) -> Seq<Seq<ScreenChar>> {
    screen.update(r, Seq::new(VGA_WIDTH as nat, |j: int| blank(col)))
}

/// The screen scrolled up by one line: row 0 is lost, every other row moves
/// up one place, and the bottom row is blank.
pub open spec fn scrolled(screen: Seq<Seq<ScreenChar>>, col: ColourCode) -> Seq<Seq<ScreenChar>> {
    Seq::new(
        VGA_HEIGHT as nat,
        |i: int|
            if i < VGA_HEIGHT - 1 {
                screen[i + 1]
            } else {
                Seq::new(VGA_WIDTH as nat, |j: int| blank(col))
            },
    )
}

/// A well-formed screen: `VGA_HEIGHT` rows of `VGA_WIDTH` cells.
pub open spec fn screen_shape(screen: Seq<Seq<ScreenChar>>) -> bool {
    &&& screen.len() == VGA_HEIGHT
    &&& forall|i: int| 0 <= i < VGA_HEIGHT ==> (#[trigger] screen[i]).len() == VGA_WIDTH
}

impl WriterModel {
    /// The cursor lies on the screen (the column may be one past the last
    /// cell, meaning the line is full).
    pub open spec fn wf(self) -> bool {
        &&& 0 <= self.row < VGA_HEIGHT
        &&& 0 <= self.column <= VGA_WIDTH
        &&& screen_shape(self.screen)
    }

    /// The effect of a line feed: scroll up and return to column 0; the row
    /// stays where it is.
    pub open spec fn newline(self) -> WriterModel {
        WriterModel { column: 0, screen: scrolled(self.screen, self.colour), ..self }
    }

    /// Whether printing `byte` stays within the buffer: a line feed always
    /// does; a backspace needs a cell to step back to (from column 0, a row
    /// above; otherwise the cell before the cursor on a row of the screen); any
    /// other byte needs the cursor on a row of the screen.
    pub open spec fn can_put(self, byte: u8) -> bool {
        if byte == 8 {
            if self.column == 0 {
                1 <= self.row <= VGA_HEIGHT
            } else {
                self.column <= VGA_WIDTH && 0 <= self.row < VGA_HEIGHT
            }
        } else if byte == 10 {
            true
        } else {
            0 <= self.row < VGA_HEIGHT
        }
    }

    /// The effect of printing one byte.
    ///
    /// A backspace steps the cursor back one cell (to the end of the previous
    /// row from column 0) and blanks that cell; a line feed scrolls; any other
    /// byte first scrolls if the line is full, then is drawn at the cursor,
    /// which advances.
    pub open spec fn put(self, byte: u8) -> WriterModel {
        if byte == 8 {
            let r = if self.column == 0 { self.row - 1 } else { self.row };
            let c = if self.column == 0 { VGA_WIDTH - 1 } else { self.column - 1 };
            WriterModel {
                row: r,
                column: c,
                screen: set_cell(self.screen, r, c, blank(self.colour)),
                ..self
            }
        } else if byte == 10 {
            self.newline()
        } else {
            let m = if self.column >= VGA_WIDTH { self.newline() } else { self };
            WriterModel {
                column: m.column + 1,
                screen: set_cell(m.screen, m.row, m.column, ScreenChar { ascii_char: byte, colour_code: m.colour }),
                ..m
            }
        }
    }
}

/// The byte that is drawn for `b` in a string: printable ASCII, line feed and
/// backspace stand for themselves, anything else becomes the block glyph 0xfe.
pub open spec fn shown_byte(b: u8) -> u8 {
    if (0x20 <= b && b <= 0x7e) || b == 10 || b == 8 {
        b
    } else {
        0xfe
    }
}

/// The writer state after printing the bytes `bs` one after another.
pub open spec fn write_bytes(m: WriterModel, bs: Seq<u8>) -> WriterModel
    decreases bs.len(),
{
    if bs.len() == 0 {
        m
    } else {
        write_bytes(m, bs.drop_last()).put(shown_byte(bs.last()))
    }
}

/// Every byte of `bs`, printed in turn, stays within the buffer.
pub open spec fn bytes_ok(m: WriterModel, bs: Seq<u8>) -> bool
    decreases bs.len(),
{
    if bs.len() == 0 {
        true
    } else {
        bytes_ok(m, bs.drop_last()) && write_bytes(m, bs.drop_last()).can_put(shown_byte(bs.last()))
    }
}

/// A prefix of a printable byte string is printable.
pub proof fn lemma_bytes_ok_prefix(m: WriterModel, bs: Seq<u8>, n: int)
    requires
        bytes_ok(m, bs),
        0 <= n <= bs.len(),
    ensures
        bytes_ok(m, bs.take(n)),
    decreases bs.len() - n,
{
    if n == bs.len() {
        assert(bs.take(n) =~= bs);
    } else {
        assert(bs.drop_last().take(n) =~= bs.take(n));
        lemma_bytes_ok_prefix(m, bs.drop_last(), n);
    }
}

/// The UTF-8 encoding of one character.
pub fn encode_char(c: char) -> (bytes: Vec<u8>)
    ensures
        bytes@ == vstd::utf8::encode_utf8(seq![c]),
{
    proof {
        reveal_with_fuel(vstd::utf8::encode_utf8, 2);
        assert(seq![c].drop_first() =~= Seq::<char>::empty());
    }
    let v = c as u32;
    if v <= 0x7F {
        vec![(v & 0x7F) as u8]
    } else if v <= 0x7FF {
        vec![0xC0u8 | ((v >> 6u32) & 0x1F) as u8, 0x80u8 | (v & 0x3F) as u8]
    } else if v <= 0xFFFF {
        vec![0xE0u8 | ((v >> 12u32) & 0x0F) as u8, 0x80u8 | ((v >> 6u32) & 0x3F) as u8, 0x80u8 | (v & 0x3F) as u8]
    } else {
        vec![
            0xF0u8 | ((v >> 18u32) & 0x7) as u8,
            0x80u8 | ((v >> 12u32) & 0x3F) as u8,
            0x80u8 | ((v >> 6u32) & 0x3F) as u8,
            0x80u8 | (v & 0x3F) as u8,
        ]
    }
}

/// Printing `a` and then `b` is printing `a + b`, and the concatenation is
/// printable exactly when `a` is and `b` is from where `a` leaves the cursor.
pub proof fn lemma_write_bytes_concat(m: WriterModel, a: Seq<u8>, b: Seq<u8>)
    ensures
        write_bytes(m, a + b) == write_bytes(write_bytes(m, a), b),
        bytes_ok(m, a + b) <==> (bytes_ok(m, a) && bytes_ok(write_bytes(m, a), b)),
    decreases b.len(),
{
    if b.len() == 0 {
        assert(a + b =~= a);
    } else {
        assert((a + b).drop_last() =~= a + b.drop_last());
        assert((a + b).last() == b.last());
        lemma_write_bytes_concat(m, a, b.drop_last());
    }
}

/// Every byte keeps a well-formed writer well-formed, in its colour.
pub proof fn lemma_put_wf(m: WriterModel, byte: u8)
    requires
        m.wf(),
        m.can_put(byte),
    ensures
        m.put(byte).wf(),
        m.put(byte).colour == m.colour,
{
    assert(screen_shape(scrolled(m.screen, m.colour)));
    let n = m.newline();
    assert forall|i: int| 0 <= i < VGA_HEIGHT implies (#[trigger] m.put(byte).screen[i]).len() == VGA_WIDTH by {
        if byte != 8 && byte != 10 && m.column >= VGA_WIDTH {
            assert(n.screen[i].len() == VGA_WIDTH);
        }
    }
}

/// Printing any printable byte string keeps a well-formed writer
/// well-formed, in its colour.
pub proof fn lemma_write_bytes_wf(m: WriterModel, bs: Seq<u8>)
    requires
        m.wf(),
        bytes_ok(m, bs),
    ensures
        write_bytes(m, bs).wf(),
        write_bytes(m, bs).colour == m.colour,
    decreases bs.len(),
{
    if bs.len() > 0 {
        lemma_write_bytes_wf(m, bs.drop_last());
        lemma_put_wf(write_bytes(m, bs.drop_last()), shown_byte(bs.last()));
    }
}

/// A backspace right after a character that fitted on the line takes the
/// cursor back to where it was and leaves a blank where the character was.
pub proof fn lemma_backspace_erases(m: WriterModel, byte: u8)
    requires
        m.wf(),
        m.column < VGA_WIDTH,
        byte != 8,
        byte != 10,
    ensures
        m.put(byte).can_put(8),
        m.put(byte).put(8) == (WriterModel {
            screen: set_cell(m.screen, m.row, m.column, blank(m.colour)),
            ..m
        }),
{
    let after = m.put(byte);
    assert(after.screen[m.row].update(m.column, blank(m.colour)) =~= m.screen[m.row].update(m.column, blank(m.colour)));
    assert(set_cell(after.screen, m.row, m.column, blank(m.colour)) =~= set_cell(m.screen, m.row, m.column, blank(m.colour)));
}

/// Printable ASCII text that fits on the rest of the line appears on the
/// screen, cell by cell, from the cursor on, in the writer's colour; the
/// cursor ends just after it and nothing scrolls.
pub proof fn lemma_text_appears(m: WriterModel, bs: Seq<u8>)
    requires
        m.wf(),
        m.column + bs.len() <= VGA_WIDTH,
        forall|i: int| 0 <= i < bs.len() ==> 0x20 <= #[trigger] bs[i] <= 0x7e,
    ensures
        bytes_ok(m, bs),
        write_bytes(m, bs).row == m.row,
        write_bytes(m, bs).column == m.column + bs.len(),
        forall|i: int| 0 <= i < bs.len() ==> #[trigger] write_bytes(m, bs).screen[m.row][m.column + i] == (ScreenChar { ascii_char: bs[i], colour_code: m.colour }),
        forall|r: int, c: int|
            0 <= r < VGA_HEIGHT && 0 <= c < VGA_WIDTH && !(r == m.row && m.column <= c < m.column + bs.len())
                ==> #[trigger] write_bytes(m, bs).screen[r][c] == m.screen[r][c],
    decreases bs.len(),
{
    if bs.len() > 0 {
        let p = bs.drop_last();
        lemma_text_appears(m, p);
        lemma_write_bytes_wf(m, p);
        let w = write_bytes(m, p);
        assert(shown_byte(bs.last()) == bs.last());
        assert forall|i: int| 0 <= i < bs.len() implies #[trigger] write_bytes(m, bs).screen[m.row][m.column + i] == (ScreenChar { ascii_char: bs[i], colour_code: m.colour }) by {
            if i < p.len() {
                assert(p[i] == bs[i]);
                assert(w.screen[m.row][m.column + i] == (ScreenChar { ascii_char: p[i], colour_code: m.colour }));
            }
        }
        assert forall|r: int, c: int|
            0 <= r < VGA_HEIGHT && 0 <= c < VGA_WIDTH && !(r == m.row && m.column <= c < m.column + bs.len())
                implies #[trigger] write_bytes(m, bs).screen[r][c] == m.screen[r][c] by {
            assert(w.screen[r][c] == m.screen[r][c]);
        }
    }
}

/// A cursor that prints onto a text buffer in one colour.
pub struct Writer {
    pub row: usize,
    pub column: usize,
    pub colourc: ColourCode,
    pub buffer: Buffer,
}

impl View for Writer {
    type V = WriterModel;

    open spec fn view(&self) -> WriterModel {
        WriterModel {
            row: self.row as int,
            column: self.column as int,
            colour: self.colourc,
            screen: self.buffer@,
        }
    }
}

impl Writer {
    /// The cursor lies on the screen.
    pub open spec fn wf(&self) -> bool {
        &&& self.row < VGA_HEIGHT
        &&& self.column <= VGA_WIDTH
    }

    /// A writer whose cursor lies on the screen has a well-formed model.
    pub proof fn lemma_view_wf(&self)
        requires
            self.wf(),
        ensures
            self@.wf(),
    {
        assert forall|i: int| 0 <= i < VGA_HEIGHT implies (#[trigger] self@.screen[i]).len() == VGA_WIDTH by {
            assert(self.buffer.chars@[i]@.len() == VGA_WIDTH);
        }
    }

    /// Draws `x` at (`r`, `c`), leaving every other cell as it was.
    fn put_cell(&mut self, r: usize, c: usize, x: ScreenChar)
        requires
            r < VGA_HEIGHT,
            c < VGA_WIDTH,
        ensures
            final(self)@ == (WriterModel { screen: set_cell(old(self)@.screen, r as int, c as int, x), ..old(self)@ }),
    {
        self.buffer.chars[r][c] = x;
        assert forall|i: int| 0 <= i < VGA_HEIGHT && i != r implies #[trigger] self.buffer@[i] == old(self)@.screen[i] by {
            assert(self.buffer.chars@[i] == old(self).buffer.chars@[i]);
        }
        assert(self.buffer@[r as int] =~= old(self)@.screen[r as int].update(c as int, x));
        assert(self.buffer@ =~= set_cell(old(self)@.screen, r as int, c as int, x));
    }

    /// Prints one byte at the cursor.
    ///
    /// A backspace (0x08) moves the cursor back one cell, to the last cell of
    /// the previous row when it is in column 0, and blanks that cell. A line
    /// feed scrolls the screen. Any other byte is drawn at the cursor, after a
    /// scroll if the line is full, and the cursor advances.
    pub fn write_char(&mut self, byte: u8)
        requires
            old(self)@.can_put(byte),
        ensures
            final(self)@ == old(self)@.put(byte),
            old(self).wf() ==> final(self).wf(),
    {
        match byte {
            8u8 => {
                if self.column == 0 {
                    self.column = VGA_WIDTH - 1;
                    self.row -= 1;
                } else {
                    self.column -= 1;
                }
                let r = self.row;
                let c = self.column;
                let blank_char = ScreenChar { ascii_char: 32u8, colour_code: self.colourc };
                self.put_cell(r, c, blank_char);
            },
            10u8 => self.add_newline(),
            byte => {
                if self.column >= VGA_WIDTH {
                    self.add_newline();
                }
                let row = self.row;
                let col = self.column;
                self.put_cell(row, col, ScreenChar { ascii_char: byte, colour_code: self.colourc });
                self.column += 1;
            },
        }
    }

    /// Prints the bytes of `bs` one by one, each through `shown_byte`.
    pub fn print_bytes(&mut self, bs: &[u8])
        requires
            bytes_ok(old(self)@, bs@),
        ensures
            final(self)@ == write_bytes(old(self)@, bs@),
            old(self).wf() ==> final(self).wf(),
    {
        let mut i: usize = 0;
        while i < bs.len()
            invariant
                old(self).wf() ==> self.wf(),
                i <= bs@.len(),
                bytes_ok(old(self)@, bs@),
                self@ == write_bytes(old(self)@, bs@.take(i as int)),
            decreases bs@.len() - i,
        {
            let byte = bs[i];
            proof {
                lemma_bytes_ok_prefix(old(self)@, bs@, i + 1);
                assert(bs@.take(i + 1).drop_last() =~= bs@.take(i as int));
            }
            match byte {
                0x20u8..=0x7eu8 | 10u8 | 8u8 => self.write_char(byte),
                _ => self.write_char(0xfeu8),
            }
            i += 1;
        }
        assert(bs@.take(i as int) =~= bs@);
    }

    /// Prints the UTF-8 bytes of `s`. Printable ASCII, line feeds and
    /// backspaces are printed as themselves; every other byte is shown as the
    /// block glyph 0xfe.
    pub fn write_str(&mut self, s: &str)
        requires
            bytes_ok(old(self)@, vstd::utf8::encode_utf8(s@)),
        ensures
            final(self)@ == write_bytes(old(self)@, vstd::utf8::encode_utf8(s@)),
            old(self).wf() ==> final(self).wf(),
    {
        let bytes = s.as_bytes();
        self.print_bytes(bytes);
    }

    /// Scrolls the screen up one line, blanks the bottom row and returns the
    /// cursor to column 0 (the row is kept).
    pub fn add_newline(&mut self)
        ensures
            final(self)@ == old(self)@.newline(),
    {
        let ghost start = self.buffer.chars@;
        for i in 1..VGA_HEIGHT
            invariant
                self.row == old(self).row,
                self.column == old(self).column,
                self.colourc == old(self).colourc,
                self.buffer.chars@.len() == VGA_HEIGHT,
                start.len() == VGA_HEIGHT,
                start == old(self).buffer.chars@,
                forall|k: int| 0 <= k < i - 1 ==> #[trigger] self.buffer.chars@[k]@ == start[k + 1]@,
                forall|k: int| i - 1 <= k < VGA_HEIGHT ==> #[trigger] self.buffer.chars@[k] == start[k],
        {
            let ghost before = self.buffer.chars@;
            for j in 0..VGA_WIDTH
                invariant
                    1 <= i < VGA_HEIGHT,
                    self.row == old(self).row,
                    self.column == old(self).column,
                    self.colourc == old(self).colourc,
                    self.buffer.chars@.len() == VGA_HEIGHT,
                    before.len() == VGA_HEIGHT,
                    forall|k: int| 0 <= k < VGA_HEIGHT && k != i - 1 ==> self.buffer.chars@[k] == before[k],
                    forall|c: int| 0 <= c < j ==> #[trigger] self.buffer.chars@[i - 1]@[c] == before[i as int]@[c],
                    forall|c: int| j <= c < VGA_WIDTH ==> #[trigger] self.buffer.chars@[i - 1]@[c] == before[i - 1]@[c],
            {
                let character = self.buffer.chars[i][j];
                self.buffer.chars[i - 1][j] = character;
            }
            assert(self.buffer.chars@[i - 1]@ =~= before[i as int]@);
            assert forall|k: int| 0 <= k < i implies #[trigger] self.buffer.chars@[k]@ == start[k + 1]@ by {
                if k < i - 1 {
                    assert(before[k]@ == start[k + 1]@);
                } else {
                    assert(before[i as int] == start[i as int]);
                }
            }
            assert forall|k: int| i <= k < VGA_HEIGHT implies #[trigger] self.buffer.chars@[k] == start[k] by {
                assert(before[k] == start[k]);
            }
        }
        let ghost mid = self.buffer@;
        assert forall|k: int| 0 <= k < VGA_HEIGHT - 1 implies #[trigger] mid[k] == old(self)@.screen[k + 1] by {
            assert(self.buffer.chars@[k]@ == start[k + 1]@);
        }
        self.clear_row(VGA_HEIGHT - 1);
        self.column = 0;
        assert(self.buffer@ =~= scrolled(old(self)@.screen, self.colourc));
    }

    /// Fills row `r` with blanks in the writer's colour.
    pub fn clear_row(&mut self, r: usize)
        requires
            r < VGA_HEIGHT,
        ensures
            final(self)@ == (WriterModel { screen: cleared_row(old(self)@.screen, r as int, old(self).colourc), ..old(self)@ }),
    {
        let blank_char = ScreenChar { ascii_char: 32u8, colour_code: self.colourc };
        let ghost start = self.buffer.chars@;
        for col in 0..VGA_WIDTH
            invariant
                r < VGA_HEIGHT,
                blank_char == blank(self.colourc),
                self.row == old(self).row,
                self.column == old(self).column,
                self.colourc == old(self).colourc,
                self.buffer.chars@.len() == VGA_HEIGHT,
                forall|i: int| 0 <= i < VGA_HEIGHT && i != r ==> self.buffer.chars@[i] == start[i],
                forall|j: int| 0 <= j < col ==> self.buffer.chars@[r as int]@[j] == blank_char,
                forall|j: int| col <= j < VGA_WIDTH ==> self.buffer.chars@[r as int]@[j] == start[r as int]@[j],
        {
            self.buffer.chars[r][col] = blank_char;
        }
        assert(self.buffer.chars@[r as int]@ =~= Seq::new(VGA_WIDTH as nat, |j: int| blank(self.colourc)));
        assert forall|i: int| 0 <= i < VGA_HEIGHT && i != r implies #[trigger] self.buffer@[i] == old(self)@.screen[i] by {
            assert(self.buffer.chars@[i] == start[i]);
        }
        assert(self.buffer@ =~= cleared_row(old(self)@.screen, r as int, old(self).colourc));
    }
}

/// The writer that `k_puts` uses: bottom row, column 0, the given colours.
pub open spec fn k_puts_writer(screen: Seq<Seq<ScreenChar>>, fg: Colour, bg: Colour) -> WriterModel {
    WriterModel {
        row: VGA_HEIGHT - 1,
        column: 0,
        colour: colour_code_of(fg, bg),
        screen,
    }
}

/// Prints `s` onto `screen` in foreground `fg` on background `bg`, with a
/// fresh cursor at the start of the bottom row.
pub fn k_puts(screen: &mut Buffer, s: &str, fg: Colour, bg: Colour)
    requires
        bytes_ok(k_puts_writer(old(screen)@, fg, bg), vstd::utf8::encode_utf8(s@)),
    ensures
        final(screen)@ == write_bytes(k_puts_writer(old(screen)@, fg, bg), vstd::utf8::encode_utf8(s@)).screen,
{
    let colourc = ColourCode::new(fg, bg);
    let placeholder = Buffer::filled(ScreenChar { ascii_char: 32u8, colour_code: colourc });
    let mut writer = Writer { row: VGA_HEIGHT - 1, column: 0, colourc, buffer: placeholder };
    std::mem::swap(&mut writer.buffer, screen);
    writer.write_str(s);
    std::mem::swap(&mut writer.buffer, screen);
}


/// `k_puts` shows its text: printable ASCII text of at most one line appears
/// at the start of the bottom row in the requested colours, and no other cell
/// changes.
pub proof fn lemma_k_puts_shows_text(screen: Seq<Seq<ScreenChar>>, s: Seq<char>, fg: Colour, bg: Colour)
    requires
        screen_shape(screen),
        s.len() <= VGA_WIDTH,
        forall|i: int| 0 <= i < s.len() ==> ' ' <= #[trigger] s[i] <= '~',
    ensures
        bytes_ok(k_puts_writer(screen, fg, bg), vstd::utf8::encode_utf8(s)),
        forall|i: int|
            0 <= i < s.len() ==> #[trigger] write_bytes(k_puts_writer(screen, fg, bg), vstd::utf8::encode_utf8(s)).screen[VGA_HEIGHT - 1][i]
                == (ScreenChar { ascii_char: s[i] as u8, colour_code: colour_code_of(fg, bg) }),
        forall|r: int, c: int|
            0 <= r < VGA_HEIGHT && 0 <= c < VGA_WIDTH && !(r == VGA_HEIGHT - 1 && c < s.len())
                ==> #[trigger] write_bytes(k_puts_writer(screen, fg, bg), vstd::utf8::encode_utf8(s)).screen[r][c] == screen[r][c],
{
    assert(vstd::utf8::is_ascii_chars(s));
    vstd::utf8::is_ascii_chars_encode_utf8(s);
    let bs = vstd::utf8::encode_utf8(s);
    assert forall|i: int| 0 <= i < bs.len() implies 0x20 <= #[trigger] bs[i] <= 0x7e by {
        assert(bs[i] == s[i] as u8);
    }
    lemma_text_appears(k_puts_writer(screen, fg, bg), bs);
    assert forall|i: int| 0 <= i < s.len() implies #[trigger] write_bytes(k_puts_writer(screen, fg, bg), bs).screen[VGA_HEIGHT - 1][i]
        == (ScreenChar { ascii_char: s[i] as u8, colour_code: colour_code_of(fg, bg) }) by {
        assert(bs[i] == s[i] as u8);
        assert(write_bytes(k_puts_writer(screen, fg, bg), bs).screen[VGA_HEIGHT - 1][0 + i] == (ScreenChar { ascii_char: bs[i], colour_code: colour_code_of(fg, bg) }));
    }
}

/// The writer after `k` line feeds in a row.
pub open spec fn newline_times(m: WriterModel, k: nat) -> WriterModel
    decreases k,
{
    if k == 0 {
        m
    } else {
        newline_times(m, (k - 1) as nat).newline()
    }
}

/// `k` line feeds in a row scroll the screen up by `k` rows: row `i` shows
/// what row `i + k` showed, the bottom `k` rows are blank, the cursor is in
/// column 0 of the same row. After `VGA_HEIGHT` of them the screen is blank.
pub proof fn lemma_newlines_scroll(m: WriterModel, k: nat)
    requires
        screen_shape(m.screen),
        k <= VGA_HEIGHT,
    ensures
        screen_shape(newline_times(m, k).screen),
        newline_times(m, k).row == m.row,
        newline_times(m, k).colour == m.colour,
        k > 0 ==> newline_times(m, k).column == 0,
        forall|i: int| 0 <= i < VGA_HEIGHT - k ==> #[trigger] newline_times(m, k).screen[i] == m.screen[i + k],
        forall|i: int, j: int|
            VGA_HEIGHT - k <= i < VGA_HEIGHT && 0 <= j < VGA_WIDTH ==> #[trigger] newline_times(m, k).screen[i][j] == blank(m.colour),
    decreases k,
{
    if k > 0 {
        lemma_newlines_scroll(m, (k - 1) as nat);
        let p = newline_times(m, (k - 1) as nat);
        let q = newline_times(m, k);
        assert(q == p.newline());
        assert forall|i: int| 0 <= i < VGA_HEIGHT - k implies #[trigger] q.screen[i] == m.screen[i + k] by {
            assert(q.screen[i] == p.screen[i + 1]);
        }
        assert forall|i: int, j: int|
            VGA_HEIGHT - k <= i < VGA_HEIGHT && 0 <= j < VGA_WIDTH implies #[trigger] q.screen[i][j] == blank(m.colour) by {
            if i < VGA_HEIGHT - 1 {
                assert(q.screen[i] == p.screen[i + 1]);
                assert(p.screen[i + 1][j] == blank(m.colour));
            }
        }
    }
}

/// The UTF-8 encoding of two strings one after the other is the encoding of
/// the first followed by that of the second.
pub proof fn lemma_encode_concat(a: Seq<char>, b: Seq<char>)
    ensures
        vstd::utf8::encode_utf8(a + b) == vstd::utf8::encode_utf8(a) + vstd::utf8::encode_utf8(b),
    decreases a.len(),
{
    if a.len() == 0 {
        assert(a + b =~= b);
        assert(vstd::utf8::encode_utf8(a) =~= Seq::<u8>::empty());
        assert(Seq::<u8>::empty() + vstd::utf8::encode_utf8(b) =~= vstd::utf8::encode_utf8(b));
    } else {
        assert((a + b).drop_first() =~= a.drop_first() + b);
        assert((a + b)[0] == a[0]);
        lemma_encode_concat(a.drop_first(), b);
        let h = vstd::utf8::encode_scalar(a[0] as u32);
        let t = vstd::utf8::encode_utf8(a.drop_first());
        let e = vstd::utf8::encode_utf8(b);
        assert(h + (t + e) =~= (h + t) + e);
    }
}

/// `write_str` of two strings in turn equals `write_str` of their
/// concatenation, and the concatenation can be written exactly when the first
/// can, and the second from where the first leaves the writer; writing the
/// empty string changes nothing.
pub proof fn lemma_write_str_concat(m: WriterModel, a: Seq<char>, b: Seq<char>)
    ensures
        write_bytes(m, vstd::utf8::encode_utf8(a + b))
            == write_bytes(write_bytes(m, vstd::utf8::encode_utf8(a)), vstd::utf8::encode_utf8(b)),
        bytes_ok(m, vstd::utf8::encode_utf8(a + b)) <==> (bytes_ok(m, vstd::utf8::encode_utf8(a))
            && bytes_ok(write_bytes(m, vstd::utf8::encode_utf8(a)), vstd::utf8::encode_utf8(b))),
        write_bytes(m, vstd::utf8::encode_utf8(Seq::<char>::empty())) == m,
{
    lemma_encode_concat(a, b);
    lemma_write_bytes_concat(m, vstd::utf8::encode_utf8(a), vstd::utf8::encode_utf8(b));
    assert(vstd::utf8::encode_utf8(Seq::<char>::empty()) =~= Seq::<u8>::empty());
}

/// Writing bytes is writing the first byte, as `shown_byte` shows it, and
/// then the rest.
pub proof fn lemma_write_bytes_first(m: WriterModel, b: u8, rest: Seq<u8>)
    ensures
        write_bytes(m, seq![b] + rest) == write_bytes(m.put(shown_byte(b)), rest),
        bytes_ok(m, seq![b] + rest) <==> (m.can_put(shown_byte(b)) && bytes_ok(m.put(shown_byte(b)), rest)),
{
    lemma_write_bytes_concat(m, seq![b], rest);
    assert(seq![b].drop_last() =~= Seq::<u8>::empty());
    assert(seq![b].last() == b);
    assert(write_bytes(m, seq![b].drop_last()) == m);
    assert(bytes_ok(m, seq![b].drop_last()));
    assert(write_bytes(m, seq![b]) == m.put(shown_byte(b)));
}

/// The palette numbers of the colours are the VGA text-mode indices.
pub proof fn lemma_palette_numbers()
    ensures
        colour_number(Colour::Black) == 0,
        colour_number(Colour::Blue) == 1,
        colour_number(Colour::Green) == 2,
        colour_number(Colour::Cyan) == 3,
        colour_number(Colour::Red) == 4,
        colour_number(Colour::Magenta) == 5,
        colour_number(Colour::Brown) == 6,
        colour_number(Colour::LightGray) == 7,
        colour_number(Colour::DarkGray) == 8,
        colour_number(Colour::LightBlue) == 9,
        colour_number(Colour::LightGreen) == 10,
        colour_number(Colour::LightCyan) == 11,
        colour_number(Colour::LightRed) == 12,
        colour_number(Colour::LightMagenta) == 13,
        colour_number(Colour::Yellow) == 14,
        colour_number(Colour::White) == 15,
{
}

/// A line feed scrolls the whole screen up one row: row 0 is lost, every
/// other row moves up one place, the bottom row becomes spaces in the
/// writer's colour; the cursor goes to column 0 of the same row.
pub proof fn lemma_line_feed_scrolls(m: WriterModel)
    requires
        screen_shape(m.screen),
    ensures
        m.put(10).row == m.row,
        m.put(10).column == 0,
        m.put(10).colour == m.colour,
        screen_shape(m.put(10).screen),
        forall|r: int, c: int|
            0 <= r < VGA_HEIGHT && 0 <= c < VGA_WIDTH ==> #[trigger] m.put(10).screen[r][c] == (if r < VGA_HEIGHT - 1 {
                m.screen[r + 1][c]
            } else {
                ScreenChar { ascii_char: 32u8, colour_code: m.colour }
            }),
{
}

/// Printing a byte other than a line feed or a backspace on a full line
/// (the cursor past the last column) first scrolls the whole screen up one
/// row, then draws the byte in column 0 of the cursor's row: every row but the
/// first moves up one place, the bottom row is spaces apart from the drawn
/// byte, and the cursor ends in column 1.
pub proof fn lemma_full_line_wraps(m: WriterModel, byte: u8)
    requires
        m.wf(),
        m.column == VGA_WIDTH,
        byte != 8,
        byte != 10,
    ensures
        m.put(byte).row == m.row,
        m.put(byte).column == 1,
        m.put(byte).colour == m.colour,
        forall|r: int, c: int|
            0 <= r < VGA_HEIGHT && 0 <= c < VGA_WIDTH ==> #[trigger] m.put(byte).screen[r][c] == (if r == m.row && c == 0 {
                ScreenChar { ascii_char: byte, colour_code: m.colour }
            } else if r < VGA_HEIGHT - 1 {
                m.screen[r + 1][c]
            } else {
                ScreenChar { ascii_char: 32u8, colour_code: m.colour }
            }),
{
    lemma_line_feed_scrolls(m);
}

/// Bytes outside printable ASCII, other than line feed and backspace, are
/// shown as the block glyph 0xfe; the others as themselves.
pub proof fn lemma_shown_bytes(b: u8)
    ensures
        ((b < 0x20 && b != 8 && b != 10) || b > 0x7e) ==> shown_byte(b) == 0xfe,
        (0x20 <= b <= 0x7e || b == 8 || b == 10) ==> shown_byte(b) == b,
{
}

/// A backspace steps the cursor back one cell, to the last column of the
/// row above when it stands in column 0, and turns that cell into a space in
/// the writer's colour; no other cell changes.
pub proof fn lemma_backspace_steps_back(m: WriterModel)
    requires
        m.wf(),
        m.can_put(8),
    ensures
        m.column > 0 ==> m.put(8).row == m.row && m.put(8).column == m.column - 1,
        m.column == 0 ==> m.put(8).row == m.row - 1 && m.put(8).column == VGA_WIDTH - 1,
        m.put(8).colour == m.colour,
        forall|r: int, c: int|
            0 <= r < VGA_HEIGHT && 0 <= c < VGA_WIDTH ==> #[trigger] m.put(8).screen[r][c] == (if r == m.put(8).row
                && c == m.put(8).column {
                ScreenChar { ascii_char: 32u8, colour_code: m.colour }
            } else {
                m.screen[r][c]
            }),
{
}

/// Clearing a row turns every cell of that row into a space in the given
/// colour and leaves the other rows alone.
pub proof fn lemma_cleared_row_cells(screen: Seq<Seq<ScreenChar>>, row: int, col: ColourCode)
    requires
        screen_shape(screen),
        0 <= row < VGA_HEIGHT,
    ensures
        screen_shape(cleared_row(screen, row, col)),
        forall|r: int, c: int|
            0 <= r < VGA_HEIGHT && 0 <= c < VGA_WIDTH ==> #[trigger] cleared_row(screen, row, col)[r][c] == (if r == row {
                ScreenChar { ascii_char: 32u8, colour_code: col }
            } else {
                screen[r][c]
            }),
{
}

/// The attribute byte of foreground `fg` on background `bg` is the
/// background's palette number times 16 plus the foreground's.
pub proof fn lemma_colour_code_value(fg: Colour, bg: Colour)
    ensures
        colour_code_of(fg, bg)@ == colour_number(bg) * 16 + colour_number(fg),
{
    let b = colour_number(bg);
    let f = colour_number(fg);
    assert(((b << 4u8) | f) == b * 16 + f) by (bit_vector)
        requires
            b < 16,
            f < 16,
    ;
}

} // verus!
