use vstd::prelude::*;
use vstd::string::StringSliceAdditionalSpecFns;

verus! {

/// Number of text rows on the screen.
pub const BUFFER_HEIGHT: usize = 25;

/// Number of text columns on the screen.
pub const BUFFER_WIDTH: usize = 80;

/// Number of cells on the screen.
pub const BUFFER_CELLS: usize = 2000;

/// The glyph that stands for a byte outside printable ASCII.
pub const UNPRINTABLE: u8 = 0xfe;

/// The sixteen text-mode colors.
#[derive(Debug, Clone, Copy, PartialEq, Eq, Structural)]
pub enum Color {
    Black,
    Blue,
    Green,
    Cyan,
    Red,
    Magenta,
    Brown,
    LightGray,
    DarkGray,
    LightBlue,
    LightGreen,
    LightCyan,
    LightRed,
    Pink,
    Yellow,
    White,
}

pub open spec fn color_value(c: Color) -> u8 {
    match c {
        Color::Black => 0,
        Color::Blue => 1,
        Color::Green => 2,
        Color::Cyan => 3,
        Color::Red => 4,
        Color::Magenta => 5,
        Color::Brown => 6,
        Color::LightGray => 7,
        Color::DarkGray => 8,
        Color::LightBlue => 9,
        Color::LightGreen => 10,
        Color::LightCyan => 11,
        Color::LightRed => 12,
        Color::Pink => 13,
        Color::Yellow => 14,
        Color::White => 15,
    }
}

impl Color {
    /// The hardware number of the color.
    pub fn as_u8(self) -> (r: u8)
        ensures
            r == color_value(self),
            r < 16,
    {
        match self {
            Color::Black => 0,
            Color::Blue => 1,
            Color::Green => 2,
            Color::Cyan => 3,
            Color::Red => 4,
            Color::Magenta => 5,
            Color::Brown => 6,
            Color::LightGray => 7,
            Color::DarkGray => 8,
            Color::LightBlue => 9,
            Color::LightGreen => 10,
            Color::LightCyan => 11,
            Color::LightRed => 12,
            Color::Pink => 13,
            Color::Yellow => 14,
            Color::White => 15,
        }
    }
}

impl Default for Color {
    fn default() -> (r: Color)
        ensures
            r == Color::Black,
    {
        Color::Black
    }
}

/// A foreground and a background color packed in one attribute byte:
/// the background in the high nibble, the foreground in the low one.
#[derive(Debug, Clone, Copy, PartialEq, Eq, Structural)]
pub struct ColorCode(pub u8);

pub open spec fn color_code_of(foreground: Color, background: Color) -> ColorCode {
    ColorCode((color_value(background) * 16 + color_value(foreground)) as u8)
}

impl ColorCode {
    pub fn new(foreground: Color, background: Color) -> (r: ColorCode)
        ensures
            r == color_code_of(foreground, background),
    {
        let b = background.as_u8();
        let f = foreground.as_u8();
        ColorCode(b * 16 + f)
    }
}

/// One cell of the text grid.
#[derive(Debug, Clone, Copy, PartialEq, Eq, Structural)]
pub struct ScreenChar {
    pub ascii_character: u8,
    pub color_code: ColorCode,
}

/// The grid as the contracts see it: the cells row by row, and the cursor column
/// of the bottom row.
pub struct ScreenView {
    pub cells: Seq<ScreenChar>,
    pub col: nat,
}

pub open spec fn blank(color: ColorCode) -> ScreenChar {
    ScreenChar { ascii_character: 0x20, color_code: color }
}

/// Index of the cell at `row`, `col`.
pub open spec fn cell_index(row: int, col: int) -> int {
    row * BUFFER_WIDTH + col
}

/// Every row moves up by one; the top row is lost and the bottom row is blank.
pub open spec fn scroll(cells: Seq<ScreenChar>, color: ColorCode) -> Seq<ScreenChar> {
    Seq::new(
        BUFFER_CELLS as nat,
        |i: int|
            if i < BUFFER_CELLS - BUFFER_WIDTH {
                cells[i + BUFFER_WIDTH]
            } else {
                blank(color)
            },
    )
}

/// The effect of one raw byte: a newline scrolls; any other byte is placed at the
/// cursor of the bottom row, after a scroll when that row is full.
pub open spec fn put_byte(v: ScreenView, color: ColorCode, byte: u8) -> ScreenView {
    if byte == 0x0a {
        ScreenView { cells: scroll(v.cells, color), col: 0 }
    } else {
        let (cells, col) = if v.col >= BUFFER_WIDTH {
            (scroll(v.cells, color), 0nat)
        } else {
            (v.cells, v.col)
        };
        ScreenView {
            cells: cells.update(
                cell_index(BUFFER_HEIGHT - 1, col as int),
                ScreenChar { ascii_character: byte, color_code: color },
            ),
            col: col + 1,
        }
    }
}

pub open spec fn is_printable(b: u8) -> bool {
    0x20 <= b <= 0x7e
}

/// What is written for a byte of text: printable ASCII and newline stand for
/// themselves, any other byte for the placeholder glyph.
pub open spec fn sanitize(b: u8) -> u8 {
    if is_printable(b) || b == 0x0a {
        b
    } else {
        UNPRINTABLE
    }
}

/// The effect of writing `bytes` as text, one byte after the other.
pub open spec fn put_text(v: ScreenView, color: ColorCode, bytes: Seq<u8>) -> ScreenView
    decreases bytes.len(),
{
    if bytes.len() == 0 {
        v
    } else {
        put_byte(put_text(v, color, bytes.drop_last()), color, sanitize(bytes.last()))
    }
}

/// Number of bytes in the UTF-8 form of `c`.
pub open spec fn utf8_len(c: char) -> nat {
    if (c as u32) < 0x80 {
        1
    } else if (c as u32) < 0x800 {
        2
    } else if (c as u32) < 0x10000 {
        3
    } else {
        4
    }
}

pub open spec fn placeholders(n: nat) -> Seq<u8> {
    Seq::new(n, |i: int| UNPRINTABLE)
}

/// The bytes that stand for `c` on the grid: an ASCII character is its own
/// byte; every byte of a longer UTF-8 form lies outside ASCII and is shown as
/// the placeholder glyph.
pub open spec fn char_shown(c: char) -> Seq<u8> {
    if (c as u32) < 0x80 {
        seq![(c as u32) as u8]
    } else {
        placeholders(utf8_len(c))
    }
}

/// A text writer over a fixed grid of `BUFFER_HEIGHT` rows and `BUFFER_WIDTH`
/// columns, which writes on the bottom row and scrolls upwards.
pub struct Writer {
    column_position: usize,
    color_code: ColorCode,
    chars: Vec<ScreenChar>,
}

impl View for Writer {
    type V = ScreenView;

    closed spec fn view(&self) -> ScreenView {
        ScreenView { cells: self.chars@, col: self.column_position as nat }
    }
}

impl Writer {
    /// The grid holds every cell, and the cursor is at most one past the last
    /// column.
    pub open spec fn wf(&self) -> bool {
        &&& self@.cells.len() == BUFFER_CELLS
        &&& self@.col <= BUFFER_WIDTH
    }

    pub closed spec fn color(&self) -> ColorCode {
        self.color_code
    }

    /// A blank grid in the given colors, with the cursor at the left edge.
    pub fn with_colors(foreground: Color, background: Color) -> (r: Writer)
        ensures
            r.wf(),
            r.color() == color_code_of(foreground, background),
            r@.col == 0,
            r@.cells == Seq::new(BUFFER_CELLS as nat, |i: int| blank(r.color())),
    {
        let color_code = ColorCode::new(foreground, background);
        let mut chars: Vec<ScreenChar> = Vec::new();
        let mut i: usize = 0;
        while i < BUFFER_CELLS
            invariant
                i <= BUFFER_CELLS,
                chars@ == Seq::new(i as nat, |j: int| blank(color_code)),
            decreases BUFFER_CELLS - i,
        {
            chars.push(ScreenChar { ascii_character: 0x20u8, color_code });
            i += 1;
        }
        Writer { column_position: 0, color_code, chars }
    }
    /// Yellow text on black, the console's usual colors.
    pub fn new() -> (r: Writer)
        ensures
            r.wf(),
            r.color() == color_code_of(Color::Yellow, Color::Black),
            r@.col == 0,
            r@.cells == Seq::new(BUFFER_CELLS as nat, |i: int| blank(r.color())),
    {
        Writer::with_colors(Color::Yellow, Color::Black)
    }

    /// Blanks one row in the writer's colors.
    fn clear_row(&mut self, row: usize)
        requires
            old(self).wf(),
            row < BUFFER_HEIGHT,
        ensures
            final(self).wf(),
            final(self).color_code == old(self).color_code,
            final(self).column_position == old(self).column_position,
            forall|i: int|
                0 <= i < BUFFER_CELLS ==> #[trigger] final(self).chars@[i] == if row * BUFFER_WIDTH
                    <= i < row * BUFFER_WIDTH + BUFFER_WIDTH {
                    blank(old(self).color_code)
                } else {
                    old(self).chars@[i]
                },
    {
        let space = ScreenChar { ascii_character: 0x20u8, color_code: self.color_code };
        let start: usize = row * BUFFER_WIDTH;
        let mut col: usize = 0;
        while col < BUFFER_WIDTH
            invariant
                start == row * BUFFER_WIDTH,
                row < BUFFER_HEIGHT,
                col <= BUFFER_WIDTH,
                self.chars@.len() == BUFFER_CELLS,
                self.color_code == old(self).color_code,
                self.column_position == old(self).column_position,
                space == blank(self.color_code),
                forall|i: int|
                    0 <= i < BUFFER_CELLS ==> #[trigger] self.chars@[i] == if start <= i < start
                        + col {
                        blank(old(self).color_code)
                    } else {
                        old(self).chars@[i]
                    },
            decreases BUFFER_WIDTH - col,
        {
            self.chars.set(start + col, space);
            col += 1;
        }
    }

    /// Moves every row up by one, blanks the bottom row and returns the cursor
    /// to the left edge.
    fn new_line(&mut self)
        requires
            old(self).wf(),
        ensures
            final(self).wf(),
            final(self).color_code == old(self).color_code,
            final(self)@ == (ScreenView { cells: scroll(old(self).chars@, old(self).color_code), col: 0 }),
    {
        let mut i: usize = BUFFER_WIDTH;
        while i < BUFFER_CELLS
            invariant
                BUFFER_WIDTH <= i <= BUFFER_CELLS,
                self.chars@.len() == BUFFER_CELLS,
                self.color_code == old(self).color_code,
                self.column_position == old(self).column_position,
                forall|j: int| 0 <= j < i - BUFFER_WIDTH ==> #[trigger] self.chars@[j] == old(self).chars@[j + BUFFER_WIDTH],
                forall|j: int| i - BUFFER_WIDTH <= j < BUFFER_CELLS ==> #[trigger] self.chars@[j] == old(self).chars@[j],
            decreases BUFFER_CELLS - i,
        {
            let c = self.chars[i];
            self.chars.set(i - BUFFER_WIDTH, c);
            i += 1;
        }
        self.clear_row(BUFFER_HEIGHT - 1);
        self.column_position = 0;
        assert(self.chars@ =~= scroll(old(self).chars@, old(self).color_code));
    }

    /// Writes one raw byte: a newline scrolls, any other byte is placed at the
    /// cursor, after a scroll when the bottom row is full.
    pub fn write_byte(&mut self, byte: u8)
        requires
            old(self).wf(),
        ensures
            final(self).wf(),
            final(self).color() == old(self).color(),
            final(self)@ == put_byte(old(self)@, old(self).color(), byte),
    {
        if byte == 0x0a {
            self.new_line();
        } else {
            if self.column_position >= BUFFER_WIDTH {
                self.new_line();
            }
            let row: usize = BUFFER_HEIGHT - 1;
            let col = self.column_position;
            let color_code = self.color_code;
            self.chars.set(row * BUFFER_WIDTH + col, ScreenChar { ascii_character: byte, color_code });
            self.column_position = col + 1;
        }
    }

    /// Writes text byte by byte; a byte that is neither printable ASCII nor a
    /// newline is shown as the placeholder glyph. Writing never fails.
    pub fn write(&mut self, s: &str)
        requires
            old(self).wf(),
        ensures
            final(self).wf(),
            final(self).color() == old(self).color(),
            final(self)@ == put_text(old(self)@, old(self).color(), s.spec_bytes()),
    {
        let bytes = s.as_bytes();
        let mut i: usize = 0;
        while i < bytes.len()
            invariant
                bytes@ == s.spec_bytes(),
                i <= bytes@.len(),
                self.wf(),
                self.color() == old(self).color(),
                self@ == put_text(old(self)@, old(self).color(), bytes@.subrange(0, i as int)),
            decreases bytes@.len() - i,
        {
            let byte = bytes[i];
            let shown = if (0x20u8 <= byte && byte <= 0x7eu8) || byte == 0x0au8 {
                byte
            } else {
                UNPRINTABLE
            };
            self.write_byte(shown);
            proof {
                let next = bytes@.subrange(0, i + 1);
                assert(next.drop_last() =~= bytes@.subrange(0, i as int));
            }
            i += 1;
        }
        assert(bytes@.subrange(0, bytes@.len() as int) =~= bytes@);
    }

    /// Writes one character as text: an ASCII character as its byte, any other
    /// as one placeholder glyph for each byte of its UTF-8 form.
    pub fn write_char(&mut self, c: char)
        requires
            old(self).wf(),
        ensures
            final(self).wf(),
            final(self).color() == old(self).color(),
            final(self)@ == put_text(old(self)@, old(self).color(), char_shown(c)),
    {
        let code = c as u32;
        if code < 0x80 {
            let byte = code as u8;
            let shown = if (0x20u8 <= byte && byte <= 0x7eu8) || byte == 0x0au8 {
                byte
            } else {
                UNPRINTABLE
            };
            self.write_byte(shown);
            proof {
                assert(seq![byte].drop_last() =~= Seq::<u8>::empty());
                assert(seq![byte].last() == byte);
                assert(char_shown(c) == seq![byte]);
                assert(put_text(old(self)@, old(self).color(), Seq::<u8>::empty()) == old(self)@);
            }
        } else {
            let n: usize = if code < 0x800 {
                2
            } else if code < 0x10000 {
                3
            } else {
                4
            };
            let mut i: usize = 0;
            while i < n
                invariant
                    i <= n,
                    n == utf8_len(c),
                    self.wf(),
                    self.color() == old(self).color(),
                    self@ == put_text(old(self)@, old(self).color(), placeholders(i as nat)),
                decreases n - i,
            {
                self.write_byte(UNPRINTABLE);
                proof {
                    assert(placeholders((i + 1) as nat).drop_last() =~= placeholders(i as nat));
                }
                i += 1;
            }
        }
    }

    /// The cell at `row`, `col`.
    pub fn cell(&self, row: usize, col: usize) -> (r: ScreenChar)
        requires
            self.wf(),
            row < BUFFER_HEIGHT,
            col < BUFFER_WIDTH,
        ensures
            r == self@.cells[cell_index(row as int, col as int)],
    {
        self.chars[row * BUFFER_WIDTH + col]
    }

    /// The cursor column of the bottom row.
    pub fn column_position(&self) -> (r: usize)
        ensures
            r == self@.col,
    {
        self.column_position
    }
}

impl Default for Writer {
    fn default() -> (r: Writer)
        ensures
            r.wf(),
            r.color() == color_code_of(Color::Yellow, Color::Black),
            r@.col == 0,
            r@.cells == Seq::new(BUFFER_CELLS as nat, |i: int| blank(r.color())),
    {
        Writer::new()
    }
}

/// Printable text that fits in the rest of the bottom row lands there cell by cell,
/// starting at the cursor; the cursor moves past it and no other cell changes.
pub proof fn lemma_write_within_row(v: ScreenView, color: ColorCode, bytes: Seq<u8>)
    requires
        v.cells.len() == BUFFER_CELLS,
        v.col + bytes.len() <= BUFFER_WIDTH,
        forall|i: int| 0 <= i < bytes.len() ==> is_printable(#[trigger] bytes[i]),
    ensures
        put_text(v, color, bytes).col == v.col + bytes.len(),
        put_text(v, color, bytes).cells.len() == BUFFER_CELLS,
        forall|j: int|
            0 <= j < bytes.len() ==> #[trigger] put_text(v, color, bytes).cells[cell_index(
                BUFFER_HEIGHT - 1,
                v.col + j,
            )] == (ScreenChar { ascii_character: bytes[j], color_code: color }),
        forall|i: int|
            0 <= i < BUFFER_CELLS && !(cell_index(BUFFER_HEIGHT - 1, v.col as int) <= i
                < cell_index(BUFFER_HEIGHT - 1, (v.col + bytes.len()) as int)) ==> #[trigger] put_text(
                v,
                color,
                bytes,
            ).cells[i] == v.cells[i],
    decreases bytes.len(),
{
    if bytes.len() > 0 {
        let prefix = bytes.drop_last();
        assert forall|i: int| 0 <= i < prefix.len() implies is_printable(#[trigger] prefix[i]) by {
            assert(prefix[i] == bytes[i]);
        }
        lemma_write_within_row(v, color, prefix);
        let last = bytes.last();
        assert(sanitize(last) == last);
        let j = bytes.len() - 1;
        assert forall|k: int| 0 <= k < bytes.len() implies #[trigger] put_text(v, color, bytes).cells[cell_index(
                BUFFER_HEIGHT - 1,
                v.col + k,
            )] == (ScreenChar { ascii_character: bytes[k], color_code: color }) by {
            if k < j {
                assert(prefix[k] == bytes[k]);
                assert(put_text(v, color, prefix).cells[cell_index(BUFFER_HEIGHT - 1, v.col + k)] ==
                    (ScreenChar { ascii_character: prefix[k], color_code: color }));
            }
        }
    }
}

/// A printable byte written when the bottom row is full wraps: the grid scrolls
/// up by one row and the byte lands in the first column of the new bottom row.
pub proof fn lemma_full_row_wraps(v: ScreenView, color: ColorCode, b: u8)
    requires
        v.cells.len() == BUFFER_CELLS,
        v.col == BUFFER_WIDTH,
        is_printable(b),
    ensures
        put_text(v, color, seq![b]) == (ScreenView {
            cells: scroll(v.cells, color).update(
                cell_index(BUFFER_HEIGHT - 1, 0),
                ScreenChar { ascii_character: b, color_code: color },
            ),
            col: 1,
        }),
{
    assert(seq![b].drop_last() =~= Seq::<u8>::empty());
    assert(put_text(v, color, Seq::<u8>::empty()) == v);
    assert(seq![b].last() == b);
}

/// A newline scrolls the whole grid up by one row, blanks the bottom row and
/// returns the cursor to the left edge.
pub proof fn lemma_newline_scrolls(v: ScreenView, color: ColorCode)
    requires
        v.cells.len() == BUFFER_CELLS,
    ensures
        put_text(v, color, seq![0x0au8]) == (ScreenView { cells: scroll(v.cells, color), col: 0 }),
{
    assert(seq![0x0au8].drop_last() =~= Seq::<u8>::empty());
    assert(put_text(v, color, Seq::<u8>::empty()) == v);
    assert(seq![0x0au8].last() == 0x0au8);
}

/// A printable line written from the left edge and ended by a newline stands in
/// the row just above the bottom one; the bottom row is blank and the cursor is
/// back at the left edge.
pub proof fn lemma_line_then_newline(v: ScreenView, color: ColorCode, line: Seq<u8>)
    requires
        v.cells.len() == BUFFER_CELLS,
        v.col == 0,
        line.len() <= BUFFER_WIDTH,
        forall|i: int| 0 <= i < line.len() ==> is_printable(#[trigger] line[i]),
    ensures
        put_text(v, color, line.push(0x0au8)).col == 0,
        forall|j: int|
            0 <= j < line.len() ==> #[trigger] put_text(v, color, line.push(0x0au8)).cells[cell_index(
                BUFFER_HEIGHT - 2,
                j,
            )] == (ScreenChar { ascii_character: line[j], color_code: color }),
        forall|j: int|
            0 <= j < BUFFER_WIDTH ==> #[trigger] put_text(v, color, line.push(0x0au8)).cells[cell_index(
                BUFFER_HEIGHT - 1,
                j,
            )] == blank(color),
{
    let text = line.push(0x0au8);
    assert(text.drop_last() =~= line);
    lemma_write_within_row(v, color, line);
    let w = put_text(v, color, line);
    assert forall|j: int| 0 <= j < line.len() implies #[trigger] put_text(v, color, text).cells[cell_index(
            BUFFER_HEIGHT - 2,
            j,
        )] == (ScreenChar { ascii_character: line[j], color_code: color }) by {
        assert(w.cells[cell_index(BUFFER_HEIGHT - 1, v.col + j)] == (ScreenChar {
            ascii_character: line[j],
            color_code: color,
        }));
    }
}

pub open spec fn newlines(k: nat) -> Seq<u8> {
    Seq::new(k, |i: int| 0x0au8)
}

/// After `k` newlines every row has moved up by `k`: a cell `k` rows below
/// is now at index `i`, and the bottom `k` rows are blank. Once `k` reaches
/// the grid's height, nothing written before is left on the screen.
pub proof fn lemma_newlines_scroll_off(v: ScreenView, color: ColorCode, k: nat)
    requires
        v.cells.len() == BUFFER_CELLS,
    ensures
        put_text(v, color, newlines(k)).col == (if k == 0 { v.col } else { 0 }),
        put_text(v, color, newlines(k)).cells.len() == BUFFER_CELLS,
        forall|i: int|
            0 <= i < BUFFER_CELLS ==> #[trigger] put_text(v, color, newlines(k)).cells[i] == if i + k
                * BUFFER_WIDTH < BUFFER_CELLS {
                v.cells[i + k * BUFFER_WIDTH]
            } else {
                blank(color)
            },
        k >= BUFFER_HEIGHT ==> forall|i: int|
            0 <= i < BUFFER_CELLS ==> #[trigger] put_text(v, color, newlines(k)).cells[i] == blank(color),
    decreases k,
{
    if k > 0 {
        let km1 = (k - 1) as nat;
        assert(newlines(k).drop_last() =~= newlines(km1));
        lemma_newlines_scroll_off(v, color, km1);
        assert(k * BUFFER_WIDTH == km1 * BUFFER_WIDTH + BUFFER_WIDTH) by (nonlinear_arith)
            requires k == km1 + 1;
        assert forall|i: int| 0 <= i < BUFFER_CELLS implies #[trigger] put_text(v, color, newlines(k)).cells[i] == if i + k
                * BUFFER_WIDTH < BUFFER_CELLS {
                v.cells[i + k * BUFFER_WIDTH]
            } else {
                blank(color)
            } by {
            if i < BUFFER_CELLS - BUFFER_WIDTH {
                assert(put_text(v, color, newlines(km1)).cells[i + BUFFER_WIDTH] == if i + BUFFER_WIDTH + km1 * BUFFER_WIDTH < BUFFER_CELLS {
                    v.cells[i + BUFFER_WIDTH + km1 * BUFFER_WIDTH]
                } else {
                    blank(color)
                });
            }
        }
        if k >= BUFFER_HEIGHT {
            assert(k * BUFFER_WIDTH >= BUFFER_HEIGHT * BUFFER_WIDTH) by (nonlinear_arith)
                requires k >= BUFFER_HEIGHT;
        }
    } else {
        assert(newlines(0) =~= Seq::<u8>::empty());
    }
}

/// A byte that is neither printable ASCII nor a newline becomes exactly one
/// placeholder glyph at the cursor, after a scroll when the bottom row is full.
pub proof fn lemma_unprintable_placeholder(v: ScreenView, color: ColorCode, b: u8)
    requires
        v.cells.len() == BUFFER_CELLS,
        v.col <= BUFFER_WIDTH,
        !is_printable(b),
        b != 0x0a,
    ensures
        put_text(v, color, seq![b]) == put_byte(v, color, UNPRINTABLE),
        put_text(v, color, seq![b]).col == (if v.col >= BUFFER_WIDTH { 1 } else { v.col + 1 }),
        put_text(v, color, seq![b]).cells[cell_index(
            BUFFER_HEIGHT - 1,
            if v.col >= BUFFER_WIDTH { 0 } else { v.col as int },
        )] == (ScreenChar { ascii_character: UNPRINTABLE, color_code: color }),
{
    assert(seq![b].drop_last() =~= Seq::<u8>::empty());
    assert(put_text(v, color, Seq::<u8>::empty()) == v);
    assert(seq![b].last() == b);
}

/// Writing keeps the grid's size, and the cursor at most one past the last
/// column.
pub proof fn lemma_put_text_wf(v: ScreenView, color: ColorCode, bytes: Seq<u8>)
    requires
        v.cells.len() == BUFFER_CELLS,
        v.col <= BUFFER_WIDTH,
    ensures
        put_text(v, color, bytes).cells.len() == BUFFER_CELLS,
        put_text(v, color, bytes).col <= BUFFER_WIDTH,
    decreases bytes.len(),
{
    if bytes.len() > 0 {
        lemma_put_text_wf(v, color, bytes.drop_last());
    }
}

/// Writing `a` and then `b` is writing `a + b`.
pub proof fn lemma_put_text_append(v: ScreenView, color: ColorCode, a: Seq<u8>, b: Seq<u8>)
    ensures
        put_text(v, color, a + b) == put_text(put_text(v, color, a), color, b),
    decreases b.len(),
{
    if b.len() == 0 {
        assert(a + b =~= a);
    } else {
        assert((a + b).drop_last() =~= a + b.drop_last());
        assert((a + b).last() == b.last());
        lemma_put_text_append(v, color, a, b.drop_last());
    }
}

/// After text that ends with a newline, a printable line that fits in a row
/// stands alone on the bottom row: its bytes from the left edge, blanks after
/// them, and the cursor just past it. Whatever came before has moved up.
pub proof fn lemma_last_line_on_bottom(v: ScreenView, color: ColorCode, t: Seq<u8>, line: Seq<u8>)
    requires
        v.cells.len() == BUFFER_CELLS,
        v.col <= BUFFER_WIDTH,
        t.len() > 0,
        t.last() == 0x0au8,
        line.len() <= BUFFER_WIDTH,
        forall|i: int| 0 <= i < line.len() ==> is_printable(#[trigger] line[i]),
    ensures
        put_text(v, color, t + line).col == line.len(),
        forall|j: int|
            0 <= j < BUFFER_WIDTH ==> #[trigger] put_text(v, color, t + line).cells[cell_index(
                BUFFER_HEIGHT - 1,
                j,
            )] == if j < line.len() {
                ScreenChar { ascii_character: line[j], color_code: color }
            } else {
                blank(color)
            },
{
    lemma_put_text_append(v, color, t, line);
    lemma_put_text_wf(v, color, t.drop_last());
    let w = put_text(v, color, t);
    assert(sanitize(t.last()) == 0x0au8);
    assert(w.col == 0);
    assert(w.cells.len() == BUFFER_CELLS);
    lemma_write_within_row(w, color, line);
    assert forall|j: int| 0 <= j < BUFFER_WIDTH implies #[trigger] put_text(v, color, t + line).cells[cell_index(
            BUFFER_HEIGHT - 1,
            j,
        )] == if j < line.len() {
            ScreenChar { ascii_character: line[j], color_code: color }
        } else {
            blank(color)
        } by {
        if j < line.len() {
            assert(put_text(w, color, line).cells[cell_index(BUFFER_HEIGHT - 1, w.col + j)] == (
            ScreenChar { ascii_character: line[j], color_code: color }));
        } else {
            assert(w.cells[cell_index(BUFFER_HEIGHT - 1, j)] == blank(color));
        }
    }
}

/// A printable line written from the left edge that is longer than a row, but
/// no longer than two, wraps once: its first `BUFFER_WIDTH` bytes fill the row
/// above the bottom one, the rest starts the bottom row, followed by blanks,
/// and the rows above have moved up by one.
pub proof fn lemma_long_line_wraps_once(v: ScreenView, color: ColorCode, line: Seq<u8>)
    requires
        v.cells.len() == BUFFER_CELLS,
        v.col == 0,
        BUFFER_WIDTH < line.len() <= 2 * BUFFER_WIDTH,
        forall|i: int| 0 <= i < line.len() ==> is_printable(#[trigger] line[i]),
    ensures
        put_text(v, color, line).col == line.len() - BUFFER_WIDTH,
        forall|i: int|
            0 <= i < cell_index(BUFFER_HEIGHT - 2, 0) ==> #[trigger] put_text(v, color, line).cells[i]
                == v.cells[i + BUFFER_WIDTH],
        forall|j: int|
            0 <= j < BUFFER_WIDTH ==> #[trigger] put_text(v, color, line).cells[cell_index(
                BUFFER_HEIGHT - 2,
                j,
            )] == (ScreenChar { ascii_character: line[j], color_code: color }),
        forall|j: int|
            0 <= j < BUFFER_WIDTH ==> #[trigger] put_text(v, color, line).cells[cell_index(
                BUFFER_HEIGHT - 1,
                j,
            )] == if j < line.len() - BUFFER_WIDTH {
                ScreenChar { ascii_character: line[BUFFER_WIDTH + j], color_code: color }
            } else {
                blank(color)
            },
{
    let w = BUFFER_WIDTH as int;
    let a = line.subrange(0, w);
    let b0 = line[w];
    let rest = line.subrange(w + 1, line.len() as int);
    assert(line =~= a + (seq![b0] + rest));
    lemma_put_text_append(v, color, a, seq![b0] + rest);
    assert forall|i: int| 0 <= i < a.len() implies is_printable(#[trigger] a[i]) by {
        assert(a[i] == line[i]);
    }
    lemma_write_within_row(v, color, a);
    let w1 = put_text(v, color, a);
    lemma_put_text_append(w1, color, seq![b0], rest);
    lemma_full_row_wraps(w1, color, b0);
    let w2 = put_text(w1, color, seq![b0]);
    assert forall|i: int| 0 <= i < rest.len() implies is_printable(#[trigger] rest[i]) by {
        assert(rest[i] == line[w + 1 + i]);
    }
    lemma_write_within_row(w2, color, rest);
    let w3 = put_text(w2, color, rest);
    assert(put_text(v, color, line) == w3);
    assert forall|i: int| 0 <= i < cell_index(BUFFER_HEIGHT - 2, 0) implies #[trigger] w3.cells[i]
        == v.cells[i + BUFFER_WIDTH] by {
        assert(w3.cells[i] == w2.cells[i]);
        assert(w1.cells[i + BUFFER_WIDTH] == v.cells[i + BUFFER_WIDTH]);
    }
    assert forall|j: int| 0 <= j < BUFFER_WIDTH implies #[trigger] w3.cells[cell_index(
        BUFFER_HEIGHT - 2,
        j,
    )] == (ScreenChar { ascii_character: line[j], color_code: color }) by {
        assert(w3.cells[cell_index(BUFFER_HEIGHT - 2, j)] == w2.cells[cell_index(BUFFER_HEIGHT - 2, j)]);
        assert(w1.cells[cell_index(BUFFER_HEIGHT - 1, v.col + j)] == (ScreenChar {
            ascii_character: a[j],
            color_code: color,
        }));
        assert(a[j] == line[j]);
    }
    assert forall|j: int| 0 <= j < BUFFER_WIDTH implies #[trigger] w3.cells[cell_index(
        BUFFER_HEIGHT - 1,
        j,
    )] == if j < line.len() - BUFFER_WIDTH {
        ScreenChar { ascii_character: line[BUFFER_WIDTH + j], color_code: color }
    } else {
        blank(color)
    } by {
        if j == 0 {
        } else if j < line.len() - BUFFER_WIDTH {
            assert(w3.cells[cell_index(BUFFER_HEIGHT - 1, w2.col + (j - 1))] == (ScreenChar {
                ascii_character: rest[j - 1],
                color_code: color,
            }));
            assert(rest[j - 1] == line[BUFFER_WIDTH + j]);
        } else {
            assert(w3.cells[cell_index(BUFFER_HEIGHT - 1, j)] == w2.cells[cell_index(BUFFER_HEIGHT - 1, j)]);
        }
    }
}

/// The cell in column `j` of a row that holds `line`, padded with blanks.
pub open spec fn padded_cell(line: Seq<u8>, j: int, color: ColorCode) -> ScreenChar {
    if j < line.len() {
        ScreenChar { ascii_character: line[j], color_code: color }
    } else {
        blank(color)
    }
}

pub open spec fn bottom_row_blank(v: ScreenView, color: ColorCode) -> bool {
    forall|j: int| 0 <= j < BUFFER_WIDTH ==> #[trigger] v.cells[cell_index(BUFFER_HEIGHT - 1, j)] == blank(color)
}

pub open spec fn fits_printable(line: Seq<u8>) -> bool {
    &&& line.len() <= BUFFER_WIDTH
    &&& forall|i: int| 0 <= i < line.len() ==> is_printable(#[trigger] line[i])
}

/// The lines, each followed by a newline.
pub open spec fn lines_text(lines: Seq<Seq<u8>>) -> Seq<u8>
    decreases lines.len(),
{
    if lines.len() == 0 {
        Seq::empty()
    } else {
        lines_text(lines.drop_last()) + lines.last().push(0x0au8)
    }
}

/// From the left edge of a blank bottom row, a printable line and a newline
/// move every row up by one and leave the line, padded with blanks, in the
/// row above a blank bottom row.
pub proof fn lemma_line_shifts_rows(v: ScreenView, color: ColorCode, line: Seq<u8>)
    requires
        v.cells.len() == BUFFER_CELLS,
        v.col == 0,
        bottom_row_blank(v, color),
        fits_printable(line),
    ensures
        put_text(v, color, line.push(0x0au8)).col == 0,
        put_text(v, color, line.push(0x0au8)).cells.len() == BUFFER_CELLS,
        bottom_row_blank(put_text(v, color, line.push(0x0au8)), color),
        forall|j: int|
            0 <= j < BUFFER_WIDTH ==> #[trigger] put_text(v, color, line.push(0x0au8)).cells[cell_index(
                BUFFER_HEIGHT - 2,
                j,
            )] == padded_cell(line, j, color),
        forall|i: int|
            0 <= i < cell_index(BUFFER_HEIGHT - 2, 0) ==> #[trigger] put_text(v, color, line.push(0x0au8)).cells[i]
                == v.cells[i + BUFFER_WIDTH],
{
    let text = line.push(0x0au8);
    assert(text.drop_last() =~= line);
    lemma_write_within_row(v, color, line);
    let w = put_text(v, color, line);
    assert forall|j: int| 0 <= j < BUFFER_WIDTH implies #[trigger] put_text(v, color, text).cells[cell_index(
        BUFFER_HEIGHT - 2,
        j,
    )] == padded_cell(line, j, color) by {
        if j < line.len() {
            assert(w.cells[cell_index(BUFFER_HEIGHT - 1, v.col + j)] == (ScreenChar {
                ascii_character: line[j],
                color_code: color,
            }));
        } else {
            assert(w.cells[cell_index(BUFFER_HEIGHT - 1, j)] == v.cells[cell_index(BUFFER_HEIGHT - 1, j)]);
        }
    }
    assert forall|j: int| 0 <= j < BUFFER_WIDTH implies #[trigger] put_text(v, color, text).cells[cell_index(
        BUFFER_HEIGHT - 1,
        j,
    )] == blank(color) by {}
}

/// Writing `k` printable lines, each ended by a newline, from the left edge of
/// a blank bottom row: the bottom row is blank, the row `m` above it holds the
/// `m`-th line from the end, padded with blanks, for every `m` up to the
/// number of lines, and the rows above those are the old rows moved up by `k`.
/// Once `k` reaches `BUFFER_HEIGHT - 1`, the last lines fill every row above
/// the bottom one, and the earlier lines have scrolled off the top.
pub proof fn lemma_many_lines(v: ScreenView, color: ColorCode, lines: Seq<Seq<u8>>)
    requires
        v.cells.len() == BUFFER_CELLS,
        v.col == 0,
        bottom_row_blank(v, color),
        forall|l: int| 0 <= l < lines.len() ==> fits_printable(#[trigger] lines[l]),
    ensures
        put_text(v, color, lines_text(lines)).col == 0,
        put_text(v, color, lines_text(lines)).cells.len() == BUFFER_CELLS,
        bottom_row_blank(put_text(v, color, lines_text(lines)), color),
        forall|m: int, j: int|
            1 <= m <= lines.len() && m < BUFFER_HEIGHT && 0 <= j < BUFFER_WIDTH ==> #[trigger] put_text(
                v,
                color,
                lines_text(lines),
            ).cells[cell_index(BUFFER_HEIGHT - 1 - m, j)] == padded_cell(lines[lines.len() - m], j, color),
        forall|i: int|
            0 <= i && i + lines.len() * BUFFER_WIDTH < cell_index(BUFFER_HEIGHT - 1, 0) ==> #[trigger] put_text(
                v,
                color,
                lines_text(lines),
            ).cells[i] == v.cells[i + lines.len() * BUFFER_WIDTH],
    decreases lines.len(),
{
    if lines.len() == 0 {
        assert(put_text(v, color, Seq::<u8>::empty()) == v);
    } else {
        let init = lines.drop_last();
        let k = lines.len() as int;
        assert forall|l: int| 0 <= l < init.len() implies fits_printable(#[trigger] init[l]) by {
            assert(init[l] == lines[l]);
        }
        lemma_many_lines(v, color, init);
        let w = put_text(v, color, lines_text(init));
        let last = lines.last();
        assert(fits_printable(lines[k - 1]));
        lemma_line_shifts_rows(w, color, last);
        lemma_put_text_append(v, color, lines_text(init), last.push(0x0au8));
        let r = put_text(v, color, lines_text(lines));
        assert(r == put_text(w, color, last.push(0x0au8)));
        assert forall|m: int, j: int|
            1 <= m <= lines.len() && m < BUFFER_HEIGHT && 0 <= j < BUFFER_WIDTH implies #[trigger] r.cells[cell_index(
                BUFFER_HEIGHT - 1 - m,
                j,
            )] == padded_cell(lines[lines.len() - m], j, color) by {
            if m == 1 {
            } else {
                assert(cell_index(BUFFER_HEIGHT - 1 - m, j) < cell_index(BUFFER_HEIGHT - 2, 0));
                assert(cell_index(BUFFER_HEIGHT - 1 - m, j) + BUFFER_WIDTH == cell_index(
                    BUFFER_HEIGHT - 1 - (m - 1),
                    j,
                ));
                assert(w.cells[cell_index(BUFFER_HEIGHT - 1 - (m - 1), j)] == padded_cell(
                    init[init.len() - (m - 1)],
                    j,
                    color,
                ));
                assert(init[init.len() - (m - 1)] == lines[lines.len() - m]);
            }
        }
        assert forall|i: int|
            0 <= i && i + lines.len() * BUFFER_WIDTH < cell_index(BUFFER_HEIGHT - 1, 0) implies #[trigger] r.cells[i]
                == v.cells[i + lines.len() * BUFFER_WIDTH] by {
            assert(lines.len() * BUFFER_WIDTH == init.len() * BUFFER_WIDTH + BUFFER_WIDTH) by (nonlinear_arith)
                requires lines.len() == init.len() + 1;
            assert(i < cell_index(BUFFER_HEIGHT - 2, 0));
            assert(w.cells[i + BUFFER_WIDTH] == v.cells[i + BUFFER_WIDTH + init.len() * BUFFER_WIDTH]);
        }
    }
}

} // verus!
