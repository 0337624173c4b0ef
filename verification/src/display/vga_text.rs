//! The VGA text screen: 25 rows of 80 characters, each with a color, and a
//! writer that fills it from the top and scrolls it when it is full.
use vstd::prelude::*;

verus! {

/// Physical address of the text screen's memory.
pub const VGA_BUFFER: u64 = 0xb8000;

/// Characters in a row.
pub const BUFFER_WIDTH: usize = 80;

/// Rows of the screen.
pub const BUFFER_HEIGHT: usize = 25;

/// Characters of the screen.
pub const BUFFER_CELLS: usize = 2000;

/// The colors of the text screen.
#[derive(Debug, Clone, Copy, PartialEq, Eq, Structural)]
pub enum Color {
    Black,
    Blue,
    Green,
    Cyan,
    Red,
    Magenta,
    Brown,
    LightGray,
    DarkGray,
    LightBlue,
    LightGreen,
    LightCyan,
    LightRed,
    Pink,
    Yellow,
    White,
}

impl Color {
    /// The number of the color, from 0 for black to 15 for white.
    pub open spec fn spec_value(self) -> u8 {
        match self {
            Color::Black => 0,
            Color::Blue => 1,
            Color::Green => 2,
            Color::Cyan => 3,
            Color::Red => 4,
            Color::Magenta => 5,
            Color::Brown => 6,
            Color::LightGray => 7,
            Color::DarkGray => 8,
            Color::LightBlue => 9,
            Color::LightGreen => 10,
            Color::LightCyan => 11,
            Color::LightRed => 12,
            Color::Pink => 13,
            Color::Yellow => 14,
            Color::White => 15,
        }
    }

    /// The number of the color.
    pub fn value(self) -> (r: u8)
        ensures
            r == self.spec_value(),
    {
        match self {
            Color::Black => 0,
            Color::Blue => 1,
            Color::Green => 2,
            Color::Cyan => 3,
            Color::Red => 4,
            Color::Magenta => 5,
            Color::Brown => 6,
            Color::LightGray => 7,
            Color::DarkGray => 8,
            Color::LightBlue => 9,
            Color::LightGreen => 10,
            Color::LightCyan => 11,
            Color::LightRed => 12,
            Color::Pink => 13,
            Color::Yellow => 14,
            Color::White => 15,
        }
    }
}

/// The color byte of a character: the foreground in the low four bits, the
/// background in the next three, blinking in the top bit.
#[derive(Debug, Clone, Copy, PartialEq, Eq, Structural)]
pub struct ColorCode(pub u8);

impl ColorCode {
    /// The color byte for the colors and the blinking given. A background from
    /// dark gray on reaches into the blink bit.
    pub open spec fn spec_new(foreground: Color, background: Color, blink: bool) -> ColorCode {
        ColorCode(
            (background.spec_value() << 4) | foreground.spec_value() | ((if blink {
                1u8
            } else {
                0u8
            }) << 7),
        )
    }

    /// The color byte for the colors and the blinking given.
    pub fn new(foreground: Color, background: Color, blink: bool) -> (r: ColorCode)
        ensures
            r == Self::spec_new(foreground, background, blink),
    {
        let b: u8 = if blink {
            1
        } else {
            0
        };
        ColorCode((background.value() << 4) | foreground.value() | (b << 7))
    }
}

/// A character of the screen: a byte of code page 437 and its color.
#[derive(Debug, Clone, Copy, PartialEq, Eq, Structural)]
pub struct ScreenChar {
    pub char: u8,
    pub color: ColorCode,
}

impl ScreenChar {
    pub fn get_char(&self) -> (r: u8)
        ensures
            r == self.char,
    {
        self.char
    }

    pub fn get_color(&self) -> (r: ColorCode)
        ensures
            r == self.color,
    {
        self.color
    }
}

/// The writer as plain values.
pub struct WriterView {
    pub row: int,
    pub col: int,
    pub default_color: ColorCode,
    /// The characters of the screen, row after row.
    pub buffer: Seq<ScreenChar>,
}

impl WriterView {
    /// The position is on the screen, and the screen has all its characters.
    pub open spec fn wf(self) -> bool {
        &&& 0 <= self.row < BUFFER_HEIGHT
        &&& 0 <= self.col < BUFFER_WIDTH
        &&& self.buffer.len() == BUFFER_CELLS
    }

    /// A blank in the writer's color.
    pub open spec fn spec_blank(self) -> ScreenChar {
        ScreenChar { char: 0x20, color: self.default_color }
    }

    /// The writer at the start of the next row. From the last row it stays there
    /// and the screen scrolls: every row moves up by one, the first is lost, and
    /// the last is blank.
    pub open spec fn spec_new_line(self) -> WriterView {
        if self.row + 1 < BUFFER_HEIGHT {
            WriterView { row: self.row + 1, col: 0, ..self }
        } else {
            WriterView {
                row: BUFFER_HEIGHT - 1,
                col: 0,
                default_color: self.default_color,
                buffer: Seq::new(
                    BUFFER_CELLS as nat,
                    |i: int|
                        if i < BUFFER_CELLS - BUFFER_WIDTH {
                            self.buffer[i + BUFFER_WIDTH]
                        } else {
                            self.spec_blank()
                        },
                ),
            }
        }
    }

    /// The writer after a byte was written: a line feed starts a new line; any
    /// other byte is put at the position in the writer's color, and the position
    /// moves right, to a new line behind the last column.
    pub open spec fn spec_write_byte(self, byte: u8) -> WriterView {
        if byte == 0x0A {
            self.spec_new_line()
        } else {
            let put = WriterView {
                col: self.col + 1,
                buffer: self.buffer.update(
                    self.row * BUFFER_WIDTH + self.col,
                    ScreenChar { char: byte, color: self.default_color },
                ),
                ..self
            };
            if self.col + 1 >= BUFFER_WIDTH {
                put.spec_new_line()
            } else {
                put
            }
        }
    }

    /// The byte that is written for a byte of a string: the byte itself where it
    /// is printable ASCII or a line feed, a question mark for any other.
    pub open spec fn spec_printable(byte: u8) -> u8 {
        if (0x20 <= byte <= 0x7e) || byte == 0x0A {
            byte
        } else {
            0x3F
        }
    }

    /// The writer after the bytes of a string were written, one after another.
    pub open spec fn spec_write_bytes(self, bytes: Seq<u8>) -> WriterView
        decreases bytes.len(),
    {
        if bytes.len() == 0 {
            self
        } else {
            self.spec_write_byte(Self::spec_printable(bytes[0])).spec_write_bytes(
                bytes.drop_first(),
            )
        }
    }

    /// The writer with row `row` blank.
    pub open spec fn spec_clear_row(self, row: int) -> WriterView {
        WriterView {
            buffer: Seq::new(
                BUFFER_CELLS as nat,
                |i: int|
                    if row * BUFFER_WIDTH <= i < (row + 1) * BUFFER_WIDTH {
                        self.spec_blank()
                    } else {
                        self.buffer[i]
                    },
            ),
            ..self
        }
    }
}

/// Writing keeps the writer on the screen.
pub proof fn lemma_write_byte_wf(v: WriterView, byte: u8)
    requires
        v.wf(),
    ensures
        v.spec_write_byte(byte).wf(),
        v.spec_new_line().wf(),
        v.spec_write_byte(byte).default_color == v.default_color,
{
}

/// The writer of the text screen.
pub struct Writer {
    pub row: usize,
    pub col: usize,
    pub default_color: ColorCode,
    /// The characters of the screen, row after row.
    pub buffer: Vec<ScreenChar>,
}

impl Writer {
    /// The writer as plain values.
    pub open spec fn model(self) -> WriterView {
        WriterView {
            row: self.row as int,
            col: self.col as int,
            default_color: self.default_color,
            buffer: self.buffer@,
        }
    }

    /// The writer is well formed.
    pub open spec fn wf(self) -> bool {
        self.model().wf()
    }

    /// A writer at the top left of a screen of `buffer`'s characters, white on
    /// black. `buffer` holds the characters of the screen, row after row.
    pub fn new(buffer: Vec<ScreenChar>) -> (r: Writer)
        requires
            buffer@.len() == BUFFER_CELLS,
        ensures
            r.wf(),
            r.model() == (WriterView {
                row: 0,
                col: 0,
                default_color: ColorCode::spec_new(Color::White, Color::Black, false),
                buffer: buffer@,
            }),
    {
        Writer {
            row: 0,
            col: 0,
            default_color: ColorCode::new(Color::White, Color::Black, false),
            buffer,
        }
    }

    /// Makes row `row` blank.
    pub fn clear_row(&mut self, row: usize)
        requires
            old(self).wf(),
            row < BUFFER_HEIGHT,
        ensures
            final(self).wf(),
            final(self).model() == old(self).model().spec_clear_row(row as int),
    {
        let empty = ScreenChar { char: 0x20, color: self.default_color };
        let mut col: usize = 0;
        while col < BUFFER_WIDTH
            invariant
                col <= BUFFER_WIDTH,
                row < BUFFER_HEIGHT,
                self.row == old(self).row,
                self.col == old(self).col,
                self.default_color == old(self).default_color,
                empty == old(self).model().spec_blank(),
                self.buffer@.len() == BUFFER_CELLS,
                forall|i: int|
                    0 <= i < BUFFER_CELLS ==> #[trigger] self.buffer@[i] == if row * BUFFER_WIDTH
                        <= i < row * BUFFER_WIDTH + col {
                        empty
                    } else {
                        old(self).buffer@[i]
                    },
            decreases BUFFER_WIDTH - col,
        {
            self.buffer[row * BUFFER_WIDTH + col] = empty;
            col += 1;
        }
        assert(self.buffer@ =~= old(self).model().spec_clear_row(row as int).buffer);
    }

    /// Makes the screen blank.
    pub fn clear_screen(&mut self)
        requires
            old(self).wf(),
        ensures
            final(self).wf(),
            final(self).row == old(self).row,
            final(self).col == old(self).col,
            final(self).default_color == old(self).default_color,
            forall|i: int|
                0 <= i < BUFFER_CELLS ==> #[trigger] final(self).buffer@[i] == old(
                    self,
                ).model().spec_blank(),
    {
        let mut row: usize = 0;
        while row < BUFFER_HEIGHT
            invariant
                row <= BUFFER_HEIGHT,
                self.wf(),
                self.row == old(self).row,
                self.col == old(self).col,
                self.default_color == old(self).default_color,
                forall|i: int|
                    0 <= i < row * BUFFER_WIDTH ==> #[trigger] self.buffer@[i] == old(
                        self,
                    ).model().spec_blank(),
            decreases BUFFER_HEIGHT - row,
        {
            self.clear_row(row);
            row += 1;
        }
    }

    /// Starts a new line, and scrolls the screen from the last row.
    pub fn new_line(&mut self)
        requires
            old(self).wf(),
        ensures
            final(self).wf(),
            final(self).model() == old(self).model().spec_new_line(),
    {
        if self.row + 1 < BUFFER_HEIGHT {
            self.row += 1;
            self.col = 0;
            return;
        }
        self.row = BUFFER_HEIGHT - 1;
        self.col = 0;
        let mut i: usize = 0;
        while i < BUFFER_CELLS - BUFFER_WIDTH
            invariant
                i <= BUFFER_CELLS - BUFFER_WIDTH,
                self.row == BUFFER_HEIGHT - 1,
                self.col == 0,
                self.default_color == old(self).default_color,
                self.buffer@.len() == BUFFER_CELLS,
                forall|j: int| 0 <= j < i ==> #[trigger] self.buffer@[j] == old(self).buffer@[j + 80],
                forall|j: int| i <= j < BUFFER_CELLS ==> #[trigger] self.buffer@[j] == old(self).buffer@[j],
            decreases BUFFER_CELLS - BUFFER_WIDTH - i,
        {
            let character = self.buffer[i + BUFFER_WIDTH];
            self.buffer[i] = character;
            i += 1;
        }
        let ghost scrolled = self.model();
        self.clear_row(BUFFER_HEIGHT - 1);
        assert(self.buffer@ =~= old(self).model().spec_new_line().buffer);
    }

    /// Writes a byte at the position: see `WriterView::spec_write_byte`.
    pub fn write_byte(&mut self, byte: u8)
        requires
            old(self).wf(),
        ensures
            final(self).wf(),
            final(self).model() == old(self).model().spec_write_byte(byte),
    {
        if byte == 0x0A {
            self.new_line();
        } else {
            let character = ScreenChar { char: byte, color: self.default_color };
            self.buffer[self.row * BUFFER_WIDTH + self.col] = character;
            self.col += 1;
            if self.col >= BUFFER_WIDTH {
                self.col = BUFFER_WIDTH - 1;
                let ghost put = self.model();
                self.new_line();
                assert(self.model() == (WriterView {
                    col: BUFFER_WIDTH as int,
                    ..put
                }).spec_new_line());
            }
        }
    }

    /// Writes the bytes of a string, a question mark in place of every byte that
    /// is neither printable ASCII nor a line feed.
    pub fn write_bytes(&mut self, bytes: &[u8])
        requires
            old(self).wf(),
        ensures
            final(self).wf(),
            final(self).model() == old(self).model().spec_write_bytes(bytes@),
    {
        let mut i: usize = 0;
        assert(bytes@.subrange(0, bytes@.len() as int) =~= bytes@);
        while i < bytes.len()
            invariant
                i <= bytes@.len(),
                self.wf(),
                old(self).model().spec_write_bytes(bytes@) == self.model().spec_write_bytes(
                    bytes@.subrange(i as int, bytes@.len() as int),
                ),
            decreases bytes@.len() - i,
        {
            let ghost rest = bytes@.subrange(i as int, bytes@.len() as int);
            assert(rest[0] == bytes@[i as int]);
            assert(rest.drop_first() =~= bytes@.subrange(i + 1, bytes@.len() as int));
            let byte = bytes[i];
            if (0x20 <= byte && byte <= 0x7e) || byte == 0x0A {
                self.write_byte(byte);
            } else {
                self.write_byte(0x3F);
            }
            i += 1;
        }
    }

    /// Writes a string: its bytes in UTF-8, as `write_bytes` writes them.
    pub fn write_string(&mut self, string: &str)
        requires
            old(self).wf(),
        ensures
            final(self).wf(),
            final(self).model() == old(self).model().spec_write_bytes(
                vstd::utf8::encode_utf8(string@),
            ),
    {
        self.write_bytes(string.as_bytes());
    }

    /// Sets the color in which the writer writes from now on.
    pub fn set_color(&mut self, color: ColorCode)
        ensures
            final(self).model() == (WriterView { default_color: color, ..old(self).model() }),
    {
        self.default_color = color;
    }
}

} // verus!
