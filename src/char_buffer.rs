//! The text grid: glyph drawing, the cursor, and scrolling by one row of cells.
use vstd::prelude::*;
use crate::font::{
    bit_of_glyph, glyph, glyph_bit, CharBit, PrintableChar, CHAR_HEIGHT, CHAR_WIDTH,
};
use crate::graphics::{FrameBuffer, Pixel, PixelPosition, Resolution};

verus! {

/// The pair of colors with which glyph bits are drawn.
#[derive(Clone, Copy, Debug, PartialEq, Eq, Structural)]
pub struct CharColors {
    pub foreground: Pixel,
    pub background: Pixel,
}

impl CharColors {
    pub open spec fn apply_spec(self, bit: CharBit) -> Pixel {
        match bit {
            CharBit::Foreground => self.foreground,
            CharBit::Background => self.background,
        }
    }

    /// White on black.
    pub fn default_colors() -> (r: CharColors)
        ensures
            r == (CharColors {
                foreground: Pixel { red: 255, green: 255, blue: 255 },
                background: Pixel { red: 0, green: 0, blue: 0 },
            }),
    {
        CharColors { foreground: Pixel::white(), background: Pixel::black() }
    }

    pub fn apply(&self, bit: CharBit) -> (r: Pixel)
        ensures
            r == self.apply_spec(bit),
    {
        match bit {
            CharBit::Foreground => self.foreground,
            CharBit::Background => self.background,
        }
    }
}

/// The cursor: a cell of a grid of `columns` by `rows` cells.
#[derive(Clone, Copy, Debug, PartialEq, Eq, Structural)]
pub struct CharPosition {
    pub columns: usize,
    pub rows: usize,
    pub row: usize,
    pub column: usize,
}

impl CharPosition {
    pub fn initial(columns: usize, rows: usize) -> (r: CharPosition)
        ensures
            r == (CharPosition { columns, rows, row: 0, column: 0 }),
    {
        CharPosition { columns, rows, row: 0, column: 0 }
    }

    pub fn the_whole_char_can_be_drawn_vertically(&self) -> (r: bool)
        ensures
            r == (self.row < self.rows),
    {
        self.row < self.rows
    }

    /// Moves to the cell at `row_index` and `column_index`, which the caller knows to be on the grid.
    pub fn go_to_unchecked(&mut self, row_index: usize, column_index: usize)
        ensures
            *final(self) == (CharPosition { row: row_index, column: column_index, ..*old(self) }),
    {
        self.row = row_index;
        self.column = column_index;
    }

    /// Moves one cell right, or to the start of the next row after the last column.
    pub fn go_right_or_start_new_line(&mut self)
        requires
            old(self).column < old(self).columns,
            old(self).row < old(self).rows,
        ensures
            old(self).column + 1 < old(self).columns ==> *final(self) == (CharPosition {
                column: (old(self).column + 1) as usize,
                ..*old(self)
            }),
            old(self).column + 1 >= old(self).columns ==> *final(self) == (CharPosition {
                column: 0,
                row: (old(self).row + 1) as usize,
                ..*old(self)
            }),
    {
        if self.column + 1 < self.columns {
            self.column = self.column + 1;
        } else {
            self.go_down();
            self.go_back_to_start_of_line();
        }
    }

    pub fn go_down(&mut self)
        requires
            old(self).row < old(self).rows,
        ensures
            *final(self) == (CharPosition { row: (old(self).row + 1) as usize, ..*old(self) }),
    {
        self.row = self.row + 1;
    }

    pub fn go_back_to_start_of_line(&mut self)
        ensures
            *final(self) == (CharPosition { column: 0, ..*old(self) }),
    {
        self.column = 0;
    }

    /// The upper left pixel of the cursor's cell.
    pub fn pixel_position(&self) -> (r: PixelPosition)
        requires
            self.row <= self.rows,
            self.column < self.columns,
            self.rows <= crate::graphics::MAX_VERTICAL_RESOLUTION,
            self.columns <= crate::graphics::MAX_HORIZONTAL_RESOLUTION,
        ensures
            r == (PixelPosition {
                horizontal: (self.column * CHAR_WIDTH) as usize,
                vertical: (self.row * CHAR_HEIGHT) as usize,
            }),
    {
        PixelPosition { horizontal: self.column * CHAR_WIDTH, vertical: self.row * CHAR_HEIGHT }
    }
}

/// A printable character with the colors to draw it in, or none.
#[derive(Clone, Copy, Debug)]
pub struct OptionalColoredChar {
    pub printable_char: Option<PrintableChar>,
    pub colors: CharColors,
}

impl OptionalColoredChar {
    pub fn is_none(&self) -> (r: bool)
        ensures
            r == self.printable_char is None,
    {
        self.printable_char.is_none()
    }
}

/// What the contracts see of a text grid: the visible pixels, the cursor cell, the
/// grid's size in cells and the colors of the next glyph.
pub struct TextState {
    pub screen: Seq<Seq<Pixel>>,
    pub row: int,
    pub column: int,
    pub width: int,
    pub height: int,
    pub colors: CharColors,
}

impl TextState {
    /// The grid fits on the rectangular screen and the cursor is on the grid.
    pub open spec fn wf(self) -> bool {
        &&& grid_fits(self.screen, self.width, self.height)
        &&& 0 <= self.row < self.height
        &&& 0 <= self.column < self.width
    }

    /// The cursor has left the grid by at most one row at the bottom.
    pub open spec fn wf_unsettled(self) -> bool {
        &&& grid_fits(self.screen, self.width, self.height)
        &&& 0 <= self.row <= self.height
        &&& 0 <= self.column < self.width
    }
}

/// A grid of `width` by `height` cells, at least one of each, fits on `screen`, whose rows
/// all have the same length.
pub open spec fn grid_fits(screen: Seq<Seq<Pixel>>, width: int, height: int) -> bool {
    &&& 1 <= width
    &&& 1 <= height
    &&& height * CHAR_HEIGHT <= screen.len()
    &&& forall|v: int|
        0 <= v < screen.len() ==> #[trigger] screen[v].len() == screen[0].len()
    &&& width * CHAR_WIDTH <= screen[0].len()
}

/// Whether the pixel at `v`, `h` is among the first `n` pixels, in raster order, of the
/// cell whose upper left pixel is at `top`, `left`.
pub open spec fn in_cell_prefix(top: int, left: int, n: int, v: int, h: int) -> bool {
    &&& top <= v < top + CHAR_HEIGHT
    &&& left <= h < left + CHAR_WIDTH
    &&& (v - top) * CHAR_WIDTH + (h - left) < n
}

/// `screen` with the first `n` pixels of the glyph of `code` drawn in `colors` in the cell
/// whose upper left pixel is at `top`, `left`.
pub open spec fn glyph_drawn(
    screen: Seq<Seq<Pixel>>,
    top: int,
    left: int,
    code: u8,
    colors: CharColors,
    n: int,
) -> Seq<Seq<Pixel>> {
    Seq::new(
        screen.len(),
        |v: int|
            Seq::new(
                screen[v].len(),
                |h: int|
                    if in_cell_prefix(top, left, n, v, h) {
                        colors.apply_spec(glyph_bit(code, v - top, h - left))
                    } else {
                        screen[v][h]
                    },
            ),
    )
}

/// `screen` with the glyph of `code` drawn in `colors` in the cell at `row`, `column`.
pub open spec fn cell_drawn(
    screen: Seq<Seq<Pixel>>,
    row: int,
    column: int,
    code: u8,
    colors: CharColors,
) -> Seq<Seq<Pixel>> {
    glyph_drawn(
        screen,
        row * CHAR_HEIGHT,
        column * CHAR_WIDTH,
        code,
        colors,
        (CHAR_WIDTH * CHAR_HEIGHT) as int,
    )
}

/// `screen` with the first `n` pixels of the cell at `dest` copied from the cell at `src`.
pub open spec fn cell_copied(
    screen: Seq<Seq<Pixel>>,
    dest: PixelPosition,
    src: PixelPosition,
    n: int,
) -> Seq<Seq<Pixel>> {
    Seq::new(
        screen.len(),
        |v: int|
            Seq::new(
                screen[v].len(),
                |h: int|
                    if in_cell_prefix(dest.vertical as int, dest.horizontal as int, n, v, h) {
                        screen[src.vertical + (v - dest.vertical)][src.horizontal + (h
                            - dest.horizontal)]
                    } else {
                        screen[v][h]
                    },
            ),
    )
}

/// `screen` with the first `n` pixels of the cell at `at` set to `pixel`.
pub open spec fn cell_filled(screen: Seq<Seq<Pixel>>, at: PixelPosition, pixel: Pixel, n: int) -> Seq<
    Seq<Pixel>,
> {
    Seq::new(
        screen.len(),
        |v: int|
            Seq::new(
                screen[v].len(),
                |h: int|
                    if in_cell_prefix(at.vertical as int, at.horizontal as int, n, v, h) {
                        pixel
                    } else {
                        screen[v][h]
                    },
            ),
    )
}

/// `screen` with the cell rows `1 .. height` of a grid `width` cells wide moved up by one
/// row, and the last row painted `background`; pixels off the grid are kept.
pub open spec fn scrolled(screen: Seq<Seq<Pixel>>, width: int, height: int, background: Pixel) -> Seq<
    Seq<Pixel>,
> {
    Seq::new(
        screen.len(),
        |v: int|
            Seq::new(
                screen[v].len(),
                |h: int|
                    if h < width * CHAR_WIDTH && v < (height - 1) * CHAR_HEIGHT {
                        screen[v + CHAR_HEIGHT][h]
                    } else if h < width * CHAR_WIDTH && (height - 1) * CHAR_HEIGHT <= v < height
                        * CHAR_HEIGHT {
                        background
                    } else {
                        screen[v][h]
                    },
            ),
    )
}

/// A cursor that has left the grid at the bottom scrolls the grid by one row and lands at
/// the start of the last row; any other state stays.
pub open spec fn settle(s: TextState) -> TextState {
    if s.row < s.height {
        s
    } else {
        TextState {
            screen: scrolled(s.screen, s.width, s.height, s.colors.background),
            row: s.height - 1,
            column: 0,
            ..s
        }
    }
}

/// Draws the glyph of `code` at the cursor, then moves one cell right, wrapping to the next
/// row after the last column.
pub open spec fn put(s: TextState, code: u8) -> TextState {
    let drawn = TextState {
        screen: cell_drawn(s.screen, s.row, s.column, code, s.colors),
        ..s
    };
    if s.column + 1 < s.width {
        TextState { column: s.column + 1, ..drawn }
    } else {
        settle(TextState { row: s.row + 1, column: 0, ..drawn })
    }
}

/// Moves the cursor one row down.
pub open spec fn down(s: TextState) -> TextState {
    settle(TextState { row: s.row + 1, ..s })
}

/// Moves the cursor to the start of its row.
pub open spec fn line_start(s: TextState) -> TextState {
    settle(TextState { column: 0, ..s })
}

/// `screen` scrolled `n` times.
pub open spec fn scrolled_times(
    screen: Seq<Seq<Pixel>>,
    width: int,
    height: int,
    background: Pixel,
    n: nat,
) -> Seq<Seq<Pixel>>
    decreases n,
{
    if n == 0 {
        screen
    } else {
        scrolled(scrolled_times(screen, width, height, background, (n - 1) as nat), width, height, background)
    }
}

/// Scrolling keeps the order of the rows: after `n` scrolls the text of cell row `k` stands
/// on row `k - n`, and the last `n` rows hold the background.
pub proof fn lemma_scroll_keeps_order(
    screen: Seq<Seq<Pixel>>,
    width: int,
    height: int,
    background: Pixel,
    n: nat,
    k: int,
    dy: int,
    h: int,
)
    requires
        grid_fits(screen, width, height),
        0 <= dy < CHAR_HEIGHT,
        0 <= h < width * CHAR_WIDTH,
    ensures
        scrolled_times(screen, width, height, background, n).len() == screen.len(),
        n <= k < height ==> scrolled_times(screen, width, height, background, n)[(k - n) * CHAR_HEIGHT + dy][h]
            == screen[k * CHAR_HEIGHT + dy][h],
        height - n <= k < height && 0 <= k ==> scrolled_times(screen, width, height, background, n)[k * CHAR_HEIGHT + dy][h]
            == background,
    decreases n,
{
    if n > 0 {
        lemma_scrolled_times_shape(screen, width, height, background, (n - 1) as nat);
        lemma_scroll_keeps_order(screen, width, height, background, (n - 1) as nat, k, dy, h);
        if height - n <= k < height - 1 && 0 <= k {
            lemma_scroll_keeps_order(screen, width, height, background, (n - 1) as nat, k + 1, dy, h);
        }
    }
}

/// Scrolling keeps the number of pixel rows and the length of each.
pub proof fn lemma_scrolled_times_shape(
    screen: Seq<Seq<Pixel>>,
    width: int,
    height: int,
    background: Pixel,
    n: nat,
)
    ensures
        scrolled_times(screen, width, height, background, n).len() == screen.len(),
        forall|v: int|
            0 <= v < screen.len() ==> (#[trigger] scrolled_times(screen, width, height, background, n)[v]).len()
                == screen[v].len(),
    decreases n,
{
    if n > 0 {
        lemma_scrolled_times_shape(screen, width, height, background, (n - 1) as nat);
    }
}

/// `screen` with the pixels of the first `rows` cell rows of a grid `width` cells wide, and
/// of the first `columns` cells of the next row, taken from one cell row lower.
pub open spec fn shifted_prefix(screen: Seq<Seq<Pixel>>, width: int, rows: int, columns: int) -> Seq<
    Seq<Pixel>,
> {
    Seq::new(
        screen.len(),
        |v: int|
            Seq::new(
                screen[v].len(),
                |h: int|
                    if h < width * CHAR_WIDTH && v < rows * CHAR_HEIGHT {
                        screen[v + CHAR_HEIGHT][h]
                    } else if rows * CHAR_HEIGHT <= v < rows * CHAR_HEIGHT + CHAR_HEIGHT && h
                        < columns * CHAR_WIDTH {
                        screen[v + CHAR_HEIGHT][h]
                    } else {
                        screen[v][h]
                    },
            ),
    )
}

/// `screen` with all but the last cell row of a grid `width` by `height` cells shifted up,
/// and the first `columns` cells of the last row painted `background`.
pub open spec fn cleared_prefix(
    screen: Seq<Seq<Pixel>>,
    width: int,
    height: int,
    background: Pixel,
    columns: int,
) -> Seq<Seq<Pixel>> {
    Seq::new(
        screen.len(),
        |v: int|
            Seq::new(
                screen[v].len(),
                |h: int|
                    if h < width * CHAR_WIDTH && v < (height - 1) * CHAR_HEIGHT {
                        screen[v + CHAR_HEIGHT][h]
                    } else if (height - 1) * CHAR_HEIGHT <= v < height * CHAR_HEIGHT && h < columns
                        * CHAR_WIDTH {
                        background
                    } else {
                        screen[v][h]
                    },
            ),
    )
}

/// `screen` has one row per vertical pixel of `res`, each of one pixel per horizontal pixel.
pub open spec fn screen_shaped(screen: Seq<Seq<Pixel>>, res: Resolution) -> bool {
    &&& screen.len() == res.vertical
    &&& forall|v: int| 0 <= v < screen.len() ==> (#[trigger] screen[v]).len() == res.horizontal
}

/// The text grid drawn on a frame buffer, with a cursor and the current colors.
pub struct CharBuffer {
    frame_buffer: FrameBuffer,
    char_colors: CharColors,
    cursor_position: CharPosition,
    width: usize,
    height: usize,
}

impl CharBuffer {
    pub closed spec fn wf_unsettled(&self) -> bool {
        &&& self.frame_buffer.wf()
        &&& self.width == self.frame_buffer.resolution_spec().horizontal / CHAR_WIDTH
        &&& self.height == self.frame_buffer.resolution_spec().vertical / CHAR_HEIGHT
        &&& self.cursor_position.columns == self.width
        &&& self.cursor_position.rows == self.height
        &&& self.cursor_position.row <= self.height
        &&& self.cursor_position.column < self.width
    }

    /// The frame buffer is well formed and keeps the resolution of `before`, and the grid,
    /// cursor and colors are those of `before`.
    closed spec fn keeps_grid(&self, before: CharBuffer) -> bool {
        &&& self.frame_buffer.wf()
        &&& self.frame_buffer.resolution_spec() == before.frame_buffer.resolution_spec()
        &&& self.width == before.width
        &&& self.height == before.height
        &&& self.cursor_position == before.cursor_position
        &&& self.char_colors == before.char_colors
    }

    pub closed spec fn wf(&self) -> bool {
        &&& self.wf_unsettled()
        &&& self.cursor_position.row < self.height
    }

    pub closed spec fn resolution_spec(&self) -> Resolution {
        self.frame_buffer.resolution_spec()
    }

    pub closed spec fn state(&self) -> TextState {
        TextState {
            screen: self.frame_buffer.screen(),
            row: self.cursor_position.row as int,
            column: self.cursor_position.column as int,
            width: self.width as int,
            height: self.height as int,
            colors: self.char_colors,
        }
    }

    proof fn lemma_state_wf(&self)
        requires
            self.wf_unsettled(),
        ensures
            self.state().wf_unsettled(),
            self.wf() ==> self.state().wf(),
            self.state().screen.len() == self.frame_buffer.resolution_spec().vertical,
            self.state().screen[0].len() == self.frame_buffer.resolution_spec().horizontal,
            self.width * CHAR_WIDTH <= self.frame_buffer.resolution_spec().horizontal,
            self.height * CHAR_HEIGHT <= self.frame_buffer.resolution_spec().vertical,
            self.width <= crate::graphics::MAX_HORIZONTAL_RESOLUTION,
            self.height <= crate::graphics::MAX_VERTICAL_RESOLUTION,
    {
        self.frame_buffer.lemma_screen_shape();
    }

    /// A well-formed grid has its cursor on the grid, which fits on the screen.
    pub proof fn lemma_wf_state(&self)
        requires
            self.wf(),
        ensures
            self.state().wf(),
    {
        self.lemma_state_wf();
    }

    /// A grid that fills `frame_buffer` with whole cells, the cursor in its first cell.
    pub fn new(frame_buffer: FrameBuffer) -> (r: CharBuffer)
        requires
            frame_buffer.wf(),
        ensures
            r.wf(),
            r.state().wf(),
            r.resolution_spec() == frame_buffer.resolution_spec(),
            r.state() == (TextState {
                screen: frame_buffer.screen(),
                row: 0,
                column: 0,
                width: (frame_buffer.resolution_spec().horizontal / CHAR_WIDTH) as int,
                height: (frame_buffer.resolution_spec().vertical / CHAR_HEIGHT) as int,
                colors: CharColors {
                    foreground: Pixel { red: 255, green: 255, blue: 255 },
                    background: Pixel { red: 0, green: 0, blue: 0 },
                },
            }),
    {
        proof {
            frame_buffer.lemma_screen_shape();
        }
        let resolution = frame_buffer.resolution();
        let width = resolution.horizontal / CHAR_WIDTH;
        let height = resolution.vertical / CHAR_HEIGHT;
        let r = CharBuffer {
            frame_buffer,
            char_colors: CharColors::default_colors(),
            cursor_position: CharPosition::initial(width, height),
            width,
            height,
        };
        proof {
            r.lemma_state_wf();
        }
        r
    }

    pub fn set_char_colors(&mut self, char_colors: CharColors)
        requires
            old(self).wf(),
        ensures
            final(self).wf(),
            final(self).resolution_spec() == old(self).resolution_spec(),
            final(self).state() == (TextState { colors: char_colors, ..old(self).state() }),
    {
        self.char_colors = char_colors;
    }

    pub fn frame_buffer(&self) -> (r: &FrameBuffer)
        requires
            self.wf(),
        ensures
            r.wf(),
            r.screen() == self.state().screen,
            r.resolution_spec() == self.resolution_spec(),
    {
        &self.frame_buffer
    }

    /// The cursor's row and column.
    pub fn cursor(&self) -> (r: (usize, usize))
        ensures
            r.0 == self.state().row,
            r.1 == self.state().column,
    {
        (self.cursor_position.row, self.cursor_position.column)
    }

    /// The number of cells in a row and of rows.
    pub fn grid_size(&self) -> (r: (usize, usize))
        ensures
            r.0 == self.state().width,
            r.1 == self.state().height,
    {
        (self.width, self.height)
    }

    pub fn colors(&self) -> (r: CharColors)
        ensures
            r == self.state().colors,
    {
        self.char_colors
    }

    /// Draws `printable_char` at the cursor and moves the cursor one cell on, scrolling
    /// when it leaves the last row.
    pub fn put_char(&mut self, printable_char: PrintableChar)
        requires
            old(self).wf(),
        ensures
            final(self).wf(),
            final(self).state().wf(),
            final(self).resolution_spec() == old(self).resolution_spec(),
            final(self).state() == put(old(self).state(), printable_char.code_spec()),
            final(self).state().colors == old(self).state().colors,
    {
        self.draw_printable_char(printable_char);
        self.cursor_position.go_right_or_start_new_line();
        self.scroll_if_needed();
    }

    pub fn go_down(&mut self)
        requires
            old(self).wf(),
        ensures
            final(self).wf(),
            final(self).state().wf(),
            final(self).resolution_spec() == old(self).resolution_spec(),
            final(self).state() == down(old(self).state()),
            final(self).state().colors == old(self).state().colors,
    {
        self.cursor_position.go_down();
        self.scroll_if_needed();
    }

    pub fn go_to_line_start(&mut self)
        requires
            old(self).wf(),
        ensures
            final(self).wf(),
            final(self).state().wf(),
            final(self).resolution_spec() == old(self).resolution_spec(),
            final(self).state() == line_start(old(self).state()),
            final(self).state().colors == old(self).state().colors,
    {
        self.cursor_position.go_back_to_start_of_line();
        self.scroll_if_needed();
    }

    /// Draws the glyph of `printable_char` in the colors of the grid at the cursor.
    pub fn draw_printable_char(&mut self, printable_char: PrintableChar)
        requires
            old(self).wf(),
        ensures
            final(self).wf(),
            final(self).resolution_spec() == old(self).resolution_spec(),
            final(self).state() == (TextState {
                screen: cell_drawn(
                    old(self).state().screen,
                    old(self).state().row,
                    old(self).state().column,
                    printable_char.code_spec(),
                    old(self).state().colors,
                ),
                ..old(self).state()
            }),
    {
        let colors = self.char_colors;
        self.draw_glyph(printable_char, colors);
    }

    /// Draws the character of `optional_char`, if it has one, at the cursor in the colors of
    /// the grid.
    pub fn draw_char_if_some(&mut self, optional_char: OptionalColoredChar)
        requires
            old(self).wf(),
        ensures
            final(self).wf(),
            final(self).resolution_spec() == old(self).resolution_spec(),
            optional_char.printable_char is None ==> final(self).state() == old(self).state(),
            optional_char.printable_char matches Some(c) ==> final(self).state() == (TextState {
                screen: cell_drawn(
                    old(self).state().screen,
                    old(self).state().row,
                    old(self).state().column,
                    c.code_spec(),
                    old(self).state().colors,
                ),
                ..old(self).state()
            }),
    {
        if optional_char.is_none() {
            return;
        }
        match optional_char.printable_char {
            Some(c) => self.draw_printable_char(c),
            None => {},
        }
    }

    fn draw_glyph(&mut self, printable_char: PrintableChar, colors: CharColors)
        requires
            old(self).wf(),
        ensures
            final(self).wf(),
            final(self).resolution_spec() == old(self).resolution_spec(),
            final(self).state() == (TextState {
                screen: cell_drawn(
                    old(self).state().screen,
                    old(self).state().row,
                    old(self).state().column,
                    printable_char.code_spec(),
                    colors,
                ),
                ..old(self).state()
            }),
    {
        proof {
            self.lemma_state_wf();
        }
        let ghost s0 = self.frame_buffer.screen();
        let ghost res = self.frame_buffer.resolution_spec();
        let ghost code = printable_char.code_spec();
        let top_left = self.cursor_position.pixel_position();
        let ghost top = top_left.vertical as int;
        let ghost left = top_left.horizontal as int;
        let rows = glyph(printable_char.get_index_from_first_printable_char());
        assert(s0 =~~= glyph_drawn(s0, top, left, code, colors, 0));
        let mut dy: usize = 0;
        while dy < CHAR_HEIGHT
            invariant
                res == old(self).resolution_spec(),
                self.keeps_grid(*old(self)),
                self.wf(),
                top + CHAR_HEIGHT <= res.vertical,
                left + CHAR_WIDTH <= res.horizontal,
                screen_shaped(s0, res),
                top == top_left.vertical,
                left == top_left.horizontal,
                rows == crate::font::glyph_rows((code - crate::font::FIRST_PRINTABLE_CHAR) as u8),
                dy <= CHAR_HEIGHT,
                self.frame_buffer.screen() == glyph_drawn(s0, top, left, code, colors, dy * CHAR_WIDTH),
            decreases CHAR_HEIGHT - dy,
        {
            let mut dx: usize = 0;
            while dx < CHAR_WIDTH
                invariant
                    res == old(self).resolution_spec(),
                    self.keeps_grid(*old(self)),
                    self.wf(),
                    top + CHAR_HEIGHT <= res.vertical,
                    left + CHAR_WIDTH <= res.horizontal,
                    screen_shaped(s0, res),
                    top == top_left.vertical,
                    left == top_left.horizontal,
                    rows == crate::font::glyph_rows((code - crate::font::FIRST_PRINTABLE_CHAR) as u8),
                    dy < CHAR_HEIGHT,
                    dx <= CHAR_WIDTH,
                    self.frame_buffer.screen() == glyph_drawn(
                        s0,
                        top,
                        left,
                        code,
                        colors,
                        dy * CHAR_WIDTH + dx,
                    ),
                decreases CHAR_WIDTH - dx,
            {
                let bit = bit_of_glyph(rows, dy, dx);
                let pixel = colors.apply(bit);
                let position = PixelPosition {
                    horizontal: top_left.horizontal + dx,
                    vertical: top_left.vertical + dy,
                };
                self.frame_buffer.draw_pixel_if_visible(position, pixel);
                proof {
                    assert(pixel == colors.apply_spec(glyph_bit(code, dy as int, dx as int)));
                    assert(self.frame_buffer.screen() =~~= glyph_drawn(
                        s0,
                        top,
                        left,
                        code,
                        colors,
                        dy * CHAR_WIDTH + dx + 1,
                    ));
                }
                dx += 1;
            }
            dy += 1;
        }
    }

    /// Moves the cursor to the cell at `row_index`, `column_index` and gives its upper left pixel.
    pub fn get_pixel_position_moving_cursor(&mut self, row_index: usize, column_index: usize) -> (r:
        PixelPosition)
        requires
            old(self).wf_unsettled(),
            row_index < old(self).state().height,
            column_index < old(self).state().width,
        ensures
            final(self).wf(),
            final(self).resolution_spec() == old(self).resolution_spec(),
            final(self).state() == (TextState {
                row: row_index as int,
                column: column_index as int,
                ..old(self).state()
            }),
            r == (PixelPosition {
                horizontal: (column_index * CHAR_WIDTH) as usize,
                vertical: (row_index * CHAR_HEIGHT) as usize,
            }),
    {
        proof {
            self.lemma_state_wf();
        }
        self.cursor_position.go_to_unchecked(row_index, column_index);
        self.cursor_position.pixel_position()
    }

    /// Copies the cell at `src` onto the cell at `dest`, pixel by pixel, without converting.
    pub fn copy_char(&mut self, dest: PixelPosition, src: PixelPosition)
        requires
            old(self).wf_unsettled(),
            dest.vertical + CHAR_HEIGHT <= old(self).resolution_spec().vertical,
            dest.horizontal + CHAR_WIDTH <= old(self).resolution_spec().horizontal,
            src.vertical + CHAR_HEIGHT <= old(self).resolution_spec().vertical,
            src.horizontal + CHAR_WIDTH <= old(self).resolution_spec().horizontal,
            dest.vertical + CHAR_HEIGHT <= src.vertical || src.vertical + CHAR_HEIGHT
                <= dest.vertical || dest.horizontal + CHAR_WIDTH <= src.horizontal
                || src.horizontal + CHAR_WIDTH <= dest.horizontal,
        ensures
            final(self).wf_unsettled(),
            old(self).wf() ==> final(self).wf(),
            final(self).resolution_spec() == old(self).resolution_spec(),
            final(self).state() == (TextState {
                screen: cell_copied(
                    old(self).state().screen,
                    dest,
                    src,
                    (CHAR_WIDTH * CHAR_HEIGHT) as int,
                ),
                ..old(self).state()
            }),
    {
        proof {
            self.frame_buffer.lemma_screen_shape();
        }
        let ghost s0 = self.frame_buffer.screen();
        let ghost res = self.frame_buffer.resolution_spec();
        assert(s0 =~~= cell_copied(s0, dest, src, 0));
        let mut dy: usize = 0;
        while dy < CHAR_HEIGHT
            invariant
                res == old(self).resolution_spec(),
                self.keeps_grid(*old(self)),
                self.wf_unsettled(),
                s0 == old(self).frame_buffer.screen(),
                dest.vertical + CHAR_HEIGHT <= res.vertical,
                dest.horizontal + CHAR_WIDTH <= res.horizontal,
                src.vertical + CHAR_HEIGHT <= res.vertical,
                src.horizontal + CHAR_WIDTH <= res.horizontal,
                dest.vertical + CHAR_HEIGHT <= src.vertical || src.vertical + CHAR_HEIGHT
                    <= dest.vertical || dest.horizontal + CHAR_WIDTH <= src.horizontal
                    || src.horizontal + CHAR_WIDTH <= dest.horizontal,
                screen_shaped(s0, res),
                dy <= CHAR_HEIGHT,
                self.frame_buffer.screen() == cell_copied(s0, dest, src, dy * CHAR_WIDTH),
            decreases CHAR_HEIGHT - dy,
        {
            let mut dx: usize = 0;
            while dx < CHAR_WIDTH
                invariant
                    res == old(self).resolution_spec(),
                    self.keeps_grid(*old(self)),
                    self.wf_unsettled(),
                    s0 == old(self).frame_buffer.screen(),
                    dest.vertical + CHAR_HEIGHT <= res.vertical,
                    dest.horizontal + CHAR_WIDTH <= res.horizontal,
                    src.vertical + CHAR_HEIGHT <= res.vertical,
                    src.horizontal + CHAR_WIDTH <= res.horizontal,
                    dest.vertical + CHAR_HEIGHT <= src.vertical || src.vertical + CHAR_HEIGHT
                        <= dest.vertical || dest.horizontal + CHAR_WIDTH <= src.horizontal
                        || src.horizontal + CHAR_WIDTH <= dest.horizontal,
                    screen_shaped(s0, res),
                    dy < CHAR_HEIGHT,
                    dx <= CHAR_WIDTH,
                    self.frame_buffer.screen() == cell_copied(s0, dest, src, dy * CHAR_WIDTH + dx),
                decreases CHAR_WIDTH - dx,
            {
                let from = PixelPosition {
                    horizontal: src.horizontal + dx,
                    vertical: src.vertical + dy,
                };
                let to = PixelPosition { horizontal: dest.horizontal + dx, vertical: dest.vertical + dy };
                self.frame_buffer.copy_one_pixel(to, from);
                proof {
                    assert(self.frame_buffer.screen() =~~= cell_copied(
                        s0,
                        dest,
                        src,
                        dy * CHAR_WIDTH + dx + 1,
                    ));
                }
                dx += 1;
            }
            dy += 1;
        }
    }

    /// Paints the cell at `at` in the background color.
    pub fn clear_char(&mut self, at: PixelPosition)
        requires
            old(self).wf_unsettled(),
            at.vertical + CHAR_HEIGHT <= old(self).resolution_spec().vertical,
            at.horizontal + CHAR_WIDTH <= old(self).resolution_spec().horizontal,
        ensures
            final(self).wf_unsettled(),
            old(self).wf() ==> final(self).wf(),
            final(self).resolution_spec() == old(self).resolution_spec(),
            final(self).state() == (TextState {
                screen: cell_filled(
                    old(self).state().screen,
                    at,
                    old(self).state().colors.background,
                    (CHAR_WIDTH * CHAR_HEIGHT) as int,
                ),
                ..old(self).state()
            }),
    {
        proof {
            self.frame_buffer.lemma_screen_shape();
        }
        let ghost s0 = self.frame_buffer.screen();
        let ghost res = self.frame_buffer.resolution_spec();
        let ghost char_colors = self.char_colors;
        let background = self.char_colors.background;
        assert(s0 =~~= cell_filled(s0, at, background, 0));
        let mut dy: usize = 0;
        while dy < CHAR_HEIGHT
            invariant
                res == old(self).resolution_spec(),
                self.keeps_grid(*old(self)),
                background == char_colors.background,
                at.vertical + CHAR_HEIGHT <= res.vertical,
                at.horizontal + CHAR_WIDTH <= res.horizontal,
                self.wf_unsettled(),
                screen_shaped(s0, res),
                dy <= CHAR_HEIGHT,
                self.frame_buffer.screen() == cell_filled(s0, at, background, dy * CHAR_WIDTH),
            decreases CHAR_HEIGHT - dy,
        {
            let mut dx: usize = 0;
            while dx < CHAR_WIDTH
                invariant
                    res == old(self).resolution_spec(),
                    self.keeps_grid(*old(self)),
                    background == char_colors.background,
                    at.vertical + CHAR_HEIGHT <= res.vertical,
                    at.horizontal + CHAR_WIDTH <= res.horizontal,
                    self.wf_unsettled(),
                    screen_shaped(s0, res),
                    dy < CHAR_HEIGHT,
                    dx <= CHAR_WIDTH,
                    self.frame_buffer.screen() == cell_filled(s0, at, background, dy * CHAR_WIDTH + dx),
                decreases CHAR_WIDTH - dx,
            {
                let position = PixelPosition { horizontal: at.horizontal + dx, vertical: at.vertical + dy };
                self.frame_buffer.draw_pixel_if_visible(position, background);
                proof {
                    assert(self.frame_buffer.screen() =~~= cell_filled(
                        s0,
                        at,
                        background,
                        dy * CHAR_WIDTH + dx + 1,
                    ));
                }
                dx += 1;
            }
            dy += 1;
        }
    }

    /// Where the cursor has left the last row, moves every row but the first up by one
    /// row, clears the last row and puts the cursor at its start.
    pub fn scroll_if_needed(&mut self)
        requires
            old(self).wf_unsettled(),
        ensures
            final(self).wf(),
            final(self).state().wf(),
            final(self).resolution_spec() == old(self).resolution_spec(),
            final(self).state() == settle(old(self).state()),
    {
        proof {
            self.lemma_state_wf();
        }
        if self.cursor_position.the_whole_char_can_be_drawn_vertically() {
            return;
        }
        let ghost s0 = self.frame_buffer.screen();
        let ghost res = self.frame_buffer.resolution_spec();
        let ghost w = self.width as int;
        let ghost char_colors = self.char_colors;
        assert(s0 =~~= shifted_prefix(s0, w, 0, 0));
        let mut row_index: usize = 1;
        while row_index < self.height
            invariant
                self.wf_unsettled(),
                self.frame_buffer.resolution_spec() == res,
                self.width == old(self).width,
                self.height == old(self).height,
                self.char_colors == char_colors,
                w == self.width,
                screen_shaped(s0, res),
                self.width * CHAR_WIDTH <= res.horizontal,
                self.height * CHAR_HEIGHT <= res.vertical,
                1 <= row_index <= self.height,
                self.frame_buffer.screen() == shifted_prefix(s0, w, row_index - 1, 0),
            decreases self.height - row_index,
        {
            let mut column_index: usize = 0;
            while column_index < self.width
                invariant
                    self.wf_unsettled(),
                    self.frame_buffer.resolution_spec() == res,
                    self.width == old(self).width,
                    self.height == old(self).height,
                    self.char_colors == char_colors,
                    w == self.width,
                    screen_shaped(s0, res),
                    self.width * CHAR_WIDTH <= res.horizontal,
                    self.height * CHAR_HEIGHT <= res.vertical,
                    1 <= row_index < self.height,
                    column_index <= self.width,
                    self.frame_buffer.screen() == shifted_prefix(
                        s0,
                        w,
                        row_index - 1,
                        column_index as int,
                    ),
                decreases self.width - column_index,
            {
                let src = self.get_pixel_position_moving_cursor(row_index, column_index);
                let dest = self.get_pixel_position_moving_cursor(row_index - 1, column_index);
                self.copy_char(dest, src);
                proof {
                    assert(self.frame_buffer.screen() =~~= shifted_prefix(
                        s0,
                        w,
                        row_index - 1,
                        column_index + 1,
                    ));
                }
                column_index += 1;
            }
            proof {
                assert(self.frame_buffer.screen() =~~= shifted_prefix(s0, w, row_index as int, 0));
            }
            row_index += 1;
        }
        let last_row_index = self.height - 1;
        proof {
            assert(self.frame_buffer.screen() =~~= cleared_prefix(
                s0,
                w,
                self.height as int,
                char_colors.background,
                0,
            ));
        }
        let mut column_index: usize = 0;
        while column_index < self.width
            invariant
                self.wf_unsettled(),
                self.frame_buffer.resolution_spec() == res,
                self.width == old(self).width,
                self.height == old(self).height,
                self.char_colors == char_colors,
                w == self.width,
                last_row_index == self.height - 1,
                screen_shaped(s0, res),
                self.width * CHAR_WIDTH <= res.horizontal,
                self.height * CHAR_HEIGHT <= res.vertical,
                column_index <= self.width,
                self.frame_buffer.screen() == cleared_prefix(
                    s0,
                    w,
                    self.height as int,
                    char_colors.background,
                    column_index as int,
                ),
            decreases self.width - column_index,
        {
            let at = self.get_pixel_position_moving_cursor(last_row_index, column_index);
            self.clear_char(at);
            proof {
                assert(self.frame_buffer.screen() =~~= cleared_prefix(
                    s0,
                    w,
                    self.height as int,
                    char_colors.background,
                    column_index + 1,
                ));
            }
            column_index += 1;
        }
        self.cursor_position.go_to_unchecked(last_row_index, 0);
        proof {
            assert(self.frame_buffer.screen() =~~= scrolled(
                s0,
                w,
                self.height as int,
                char_colors.background,
            ));
            self.lemma_state_wf();
        }
    }
}

} // verus!
