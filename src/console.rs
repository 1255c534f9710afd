//! The console: turns text into glyphs, line breaks and tabs on the text grid.
use vstd::prelude::*;
use vstd::string::StrSliceExecFns;
use vstd::utf8::encode_scalar;
use crate::char_buffer::{
    cell_drawn, down, grid_fits, lemma_scroll_keeps_order, lemma_scrolled_times_shape, line_start, put,
    scrolled, scrolled_times, CharBuffer, CharColors, TextState,
};
use crate::font::{glyph_bit, is_printable, PrintableChar, CHAR_HEIGHT, CHAR_WIDTH};
use crate::graphics::{FrameBuffer, Pixel, Resolution};

verus! {

/// The number of spaces that a tab stands for.
pub const TAB_SIZE: usize = 4;

/// Light grey on dark grey, for ordinary output.
pub open spec fn output_colors() -> CharColors {
    CharColors {
        foreground: Pixel { red: 223, green: 223, blue: 223 },
        background: Pixel { red: 32, green: 32, blue: 32 },
    }
}

/// Light grey on red, for the report of a fault.
pub open spec fn panic_colors() -> CharColors {
    CharColors {
        foreground: Pixel { red: 223, green: 223, blue: 223 },
        background: Pixel { red: 223, green: 0, blue: 0 },
    }
}

impl CharColors {
    pub fn output() -> (r: CharColors)
        ensures
            r == output_colors(),
    {
        CharColors { foreground: Pixel::rgb(223, 223, 223), background: Pixel::rgb(32, 32, 32) }
    }

    pub fn panic_mode() -> (r: CharColors)
        ensures
            r == panic_colors(),
    {
        CharColors { foreground: Pixel::rgb(223, 223, 223), background: Pixel::rgb(223, 0, 0) }
    }
}

/// Whether the console writes ordinary output or the report of a fault.
#[derive(Clone, Copy, Debug, PartialEq, Eq, Structural)]
pub enum ConsoleMode {
    Normal,
    Panic,
}

/// A line break: one row down, then back to the start of the row.
pub open spec fn newline(s: TextState) -> TextState {
    line_start(down(s))
}

/// A tab: as many spaces as `TAB_SIZE`.
pub open spec fn tab(s: TextState) -> TextState {
    put(put(put(put(s, 0x20), 0x20), 0x20), 0x20)
}

/// Each printable byte of `bytes` drawn in turn; the other bytes are dropped.
pub open spec fn put_bytes(s: TextState, bytes: Seq<u8>) -> TextState
    decreases bytes.len(),
{
    if bytes.len() == 0 {
        s
    } else {
        let before = put_bytes(s, bytes.drop_last());
        if is_printable(bytes.last()) {
            put(before, bytes.last())
        } else {
            before
        }
    }
}

/// What printing the character `c` does.
pub open spec fn print_char_spec(s: TextState, c: char) -> TextState {
    if c == '\n' {
        newline(s)
    } else if c == '\r' {
        line_start(s)
    } else if c == '\t' {
        tab(s)
    } else {
        put_bytes(s, encode_scalar(c as u32))
    }
}

/// What printing the characters `text` in order does.
pub open spec fn print_chars(s: TextState, text: Seq<char>) -> TextState
    decreases text.len(),
{
    if text.len() == 0 {
        s
    } else {
        print_char_spec(print_chars(s, text.drop_last()), text.last())
    }
}

/// The UTF-8 encoding of `c`: the first `r.1` bytes of `r.0`.
pub fn encode_utf8(c: char) -> (r: ([u8; 4], usize))
    ensures
        1 <= r.1 <= 4,
        r.0@.take(r.1 as int) == encode_scalar(c as u32),
{
    let v = c as u32;
    let r = if v <= 0x7f {
        ([(v & 0x7f) as u8, 0, 0, 0], 1)
    } else if v <= 0x7ff {
        ([0xC0 | ((v >> 6) & 0x1F) as u8, 0x80 | (v & 0x3F) as u8, 0, 0], 2)
    } else if v <= 0xffff && !(0xD800 <= v && v <= 0xDFFF) {
        (
            [
                0xE0 | ((v >> 12) & 0x0F) as u8,
                0x80 | ((v >> 6) & 0x3F) as u8,
                0x80 | (v & 0x3F) as u8,
                0,
            ],
            3,
        )
    } else {
        (
            [
                0xF0 | ((v >> 18) & 0x7) as u8,
                0x80 | ((v >> 12) & 0x3F) as u8,
                0x80 | ((v >> 6) & 0x3F) as u8,
                0x80 | (v & 0x3F) as u8,
            ],
            4,
        )
    };
    assert(r.0@.take(r.1 as int) =~= encode_scalar(v));
    r
}

/// The console: a text grid and the mode that picks its colors.
pub struct Console {
    char_buffer: CharBuffer,
    mode: ConsoleMode,
}

impl Console {
    /// The grid is well formed and the mode picks its colors.
    pub closed spec fn wf(&self) -> bool {
        &&& self.char_buffer.wf()
        &&& self.mode == ConsoleMode::Normal ==> self.char_buffer.state().colors == output_colors()
        &&& self.mode == ConsoleMode::Panic ==> self.char_buffer.state().colors == panic_colors()
    }

    /// Ordinary output is drawn in the output colors, a fault report in the fault colors.
    pub proof fn lemma_mode_colors(&self)
        requires
            self.wf(),
        ensures
            self.mode_spec() == ConsoleMode::Normal ==> self.state().colors == output_colors(),
            self.mode_spec() == ConsoleMode::Panic ==> self.state().colors == panic_colors(),
    {
    }

    pub closed spec fn state(&self) -> TextState {
        self.char_buffer.state()
    }

    pub closed spec fn mode_spec(&self) -> ConsoleMode {
        self.mode
    }

    pub closed spec fn resolution_spec(&self) -> Resolution {
        self.char_buffer.resolution_spec()
    }

    /// A console on the whole of `frame_buffer`, in ordinary output colors, the cursor in
    /// the first cell.
    pub fn new(frame_buffer: FrameBuffer) -> (r: Console)
        requires
            frame_buffer.wf(),
        ensures
            r.wf(),
            r.state().wf(),
            r.mode_spec() == ConsoleMode::Normal,
            r.resolution_spec() == frame_buffer.resolution_spec(),
            r.state() == (TextState {
                screen: frame_buffer.screen(),
                row: 0,
                column: 0,
                width: (frame_buffer.resolution_spec().horizontal / CHAR_WIDTH) as int,
                height: (frame_buffer.resolution_spec().vertical / CHAR_HEIGHT) as int,
                colors: output_colors(),
            }),
    {
        let mut char_buffer = CharBuffer::new(frame_buffer);
        char_buffer.set_char_colors(CharColors::output());
        Console { char_buffer, mode: ConsoleMode::Normal }
    }

    pub fn mode(&self) -> (r: ConsoleMode)
        ensures
            r == self.mode_spec(),
    {
        self.mode
    }

    pub fn char_buffer(&self) -> (r: &CharBuffer)
        ensures
            r.state() == self.state(),
            self.wf() ==> r.wf(),
    {
        &self.char_buffer
    }

    /// Switches for good to the colors of a fault report; what is drawn stays.
    pub fn enter_panic_mode(&mut self)
        requires
            old(self).wf(),
        ensures
            final(self).wf(),
            final(self).state().wf(),
            final(self).mode_spec() == ConsoleMode::Panic,
            final(self).resolution_spec() == old(self).resolution_spec(),
            final(self).state() == (TextState { colors: panic_colors(), ..old(self).state() }),
    {
        self.char_buffer.set_char_colors(CharColors::panic_mode());
        self.mode = ConsoleMode::Panic;
        proof {
            self.char_buffer.lemma_wf_state();
        }
    }

    /// Prints `s` character by character.
    pub fn print(&mut self, s: &str)
        requires
            old(self).wf(),
        ensures
            final(self).wf(),
            final(self).state().wf(),
            final(self).mode_spec() == old(self).mode_spec(),
            final(self).resolution_spec() == old(self).resolution_spec(),
            final(self).state() == print_chars(old(self).state(), s@),
    {
        let n = s.unicode_len();
        let mut i: usize = 0;
        while i < n
            invariant
                self.wf(),
                self.mode == old(self).mode,
                self.resolution_spec() == old(self).resolution_spec(),
                n == s@.len(),
                i <= n,
                self.state() == print_chars(old(self).state(), s@.take(i as int)),
            decreases n - i,
        {
            let c = s.get_char(i);
            match c {
                '\n' => self.wrap_line(),
                '\r' => self.go_to_line_start(),
                '\t' => self.insert_tab(),
                _ => self.print_char(c),
            }
            assert(s@.take(i + 1).drop_last() =~= s@.take(i as int));
            i += 1;
        }
        assert(s@.take(n as int) =~= s@);
        proof {
            self.char_buffer.lemma_wf_state();
        }
    }

    /// Moves to the start of the next row, scrolling on the last row.
    pub fn wrap_line(&mut self)
        requires
            old(self).wf(),
        ensures
            final(self).wf(),
            final(self).mode_spec() == old(self).mode_spec(),
            final(self).resolution_spec() == old(self).resolution_spec(),
            final(self).state() == newline(old(self).state()),
    {
        self.char_buffer.go_down();
        self.char_buffer.go_to_line_start();
    }

    pub fn go_to_line_start(&mut self)
        requires
            old(self).wf(),
        ensures
            final(self).wf(),
            final(self).mode_spec() == old(self).mode_spec(),
            final(self).resolution_spec() == old(self).resolution_spec(),
            final(self).state() == line_start(old(self).state()),
    {
        self.char_buffer.go_to_line_start();
    }

    /// Prints `TAB_SIZE` spaces.
    pub fn insert_tab(&mut self)
        requires
            old(self).wf(),
        ensures
            final(self).wf(),
            final(self).mode_spec() == old(self).mode_spec(),
            final(self).resolution_spec() == old(self).resolution_spec(),
            final(self).state() == tab(old(self).state()),
    {
        let ghost s0 = self.state();
        let mut k: usize = 0;
        while k < TAB_SIZE
            invariant
                self.wf(),
                self.mode == old(self).mode,
                self.resolution_spec() == old(self).resolution_spec(),
                k <= TAB_SIZE,
                k == 0 ==> self.state() == s0,
                k == 1 ==> self.state() == put(s0, 0x20),
                k == 2 ==> self.state() == put(put(s0, 0x20), 0x20),
                k == 3 ==> self.state() == put(put(put(s0, 0x20), 0x20), 0x20),
                k == 4 ==> self.state() == tab(s0),
            decreases TAB_SIZE - k,
        {
            self.char_buffer.put_char(PrintableChar::space());
            k += 1;
        }
    }

    /// Prints the printable bytes of the UTF-8 encoding of `c` and drops the others.
    pub fn print_char(&mut self, c: char)
        requires
            old(self).wf(),
        ensures
            final(self).wf(),
            final(self).mode_spec() == old(self).mode_spec(),
            final(self).resolution_spec() == old(self).resolution_spec(),
            final(self).state() == put_bytes(old(self).state(), encode_scalar(c as u32)),
    {
        let (bytes, len) = encode_utf8(c);
        let ghost encoded = bytes@.take(len as int);
        let mut i: usize = 0;
        while i < len
            invariant
                self.wf(),
                self.mode == old(self).mode,
                self.resolution_spec() == old(self).resolution_spec(),
                1 <= len <= 4,
                encoded == bytes@.take(len as int),
                encoded == encode_scalar(c as u32),
                i <= len,
                self.state() == put_bytes(old(self).state(), encoded.take(i as int)),
            decreases len - i,
        {
            let byte = bytes[i];
            match PrintableChar::try_from(byte) {
                Ok(printable_char) => self.char_buffer.put_char(printable_char),
                Err(()) => {},
            }
            assert(encoded.take(i + 1).drop_last() =~= encoded.take(i as int));
            i += 1;
        }
        assert(encoded.take(len as int) =~= encoded);
    }

    /// Reports a fault: switches to the fault colors, breaks the line and prints `report`.
    pub fn render_fault_report(&mut self, report: &str)
        requires
            old(self).wf(),
        ensures
            final(self).wf(),
            final(self).mode_spec() == ConsoleMode::Panic,
            final(self).resolution_spec() == old(self).resolution_spec(),
            final(self).state() == print_chars(
                newline(TextState { colors: panic_colors(), ..old(self).state() }),
                report@,
            ),
    {
        self.enter_panic_mode();
        self.wrap_line();
        self.print(report);
    }
}

/// A console taken over to report a fault, once.
pub struct DisposablePanicWriter {
    console: Console,
}

impl DisposablePanicWriter {
    pub closed spec fn console_spec(&self) -> Console {
        self.console
    }

    pub fn new(console: Console) -> (r: DisposablePanicWriter)
        ensures
            r.console_spec() == console,
    {
        DisposablePanicWriter { console }
    }

    /// Reports the fault described by `report` and hands back the console it was drawn on.
    pub fn panic(self, report: &str) -> (r: Console)
        requires
            self.console_spec().wf(),
        ensures
            r.wf(),
            r.mode_spec() == ConsoleMode::Panic,
            r.state() == print_chars(
                newline(TextState { colors: panic_colors(), ..self.console_spec().state() }),
                report@,
            ),
    {
        let mut console = self.console;
        console.render_fault_report(report);
        console
    }
}

proof fn lemma_ascii_encoding(v: u32)
    by (bit_vector)
    requires
        v <= 0x7f,
    ensures
        (v & 0x7f) as u8 == v as u8,
{
}

proof fn lemma_marked_byte(x: u8)
    by (bit_vector)
    ensures
        (0x80u8 | x) >= 0x80u8,
        (0xC0u8 | x) >= 0x80u8,
        (0xE0u8 | x) >= 0x80u8,
        (0xF0u8 | x) >= 0x80u8,
{
}

/// Bytes that are not printable draw nothing and leave the cursor where it is.
pub proof fn lemma_unprintable_bytes(s: TextState, bytes: Seq<u8>)
    requires
        forall|i: int| 0 <= i < bytes.len() ==> !is_printable(#[trigger] bytes[i]),
    ensures
        put_bytes(s, bytes) == s,
    decreases bytes.len(),
{
    if bytes.len() > 0 {
        lemma_unprintable_bytes(s, bytes.drop_last());
    }
}

/// A character other than a line break, a carriage return or a tab draws its glyph where
/// it is printable ASCII, and otherwise draws nothing and leaves the cursor in place: every
/// byte of its UTF-8 encoding outside the printable range is dropped.
pub proof fn lemma_print_plain_char(s: TextState, c: char)
    requires
        c != '\n',
        c != '\r',
        c != '\t',
    ensures
        print_char_spec(s, c) == (if (c as u32) <= 0x7f && is_printable((c as u32) as u8) {
            put(s, (c as u32) as u8)
        } else {
            s
        }),
{
    let v = c as u32;
    let enc = encode_scalar(v);
    if v <= 0x7f {
        lemma_ascii_encoding(v);
        assert(enc == seq![v as u8]);
        assert(enc.drop_last() =~= Seq::<u8>::empty());
        assert(put_bytes(s, enc.drop_last()) == s);
    } else {
        lemma_marked_byte(((v >> 6) & 0x1F) as u8);
        lemma_marked_byte((v & 0x3F) as u8);
        lemma_marked_byte(((v >> 12) & 0x0F) as u8);
        lemma_marked_byte(((v >> 6) & 0x3F) as u8);
        lemma_marked_byte(((v >> 18) & 0x7) as u8);
        lemma_marked_byte(((v >> 12) & 0x3F) as u8);
        assert forall|i: int| 0 <= i < enc.len() implies !is_printable(#[trigger] enc[i]) by {
            assert(enc[i] >= 0x80);
        }
        lemma_unprintable_bytes(s, enc);
    }
}

/// A tab draws and moves exactly as four spaces do.
pub proof fn lemma_tab_is_four_spaces(s: TextState)
    ensures
        print_char_spec(s, '\t') == print_chars(s, seq![' ', ' ', ' ', ' ']),
{
    let spaces = seq![' ', ' ', ' ', ' '];
    let t1 = put(s, 0x20);
    let t2 = put(t1, 0x20);
    let t3 = put(t2, 0x20);
    assert(spaces.take(0) =~= Seq::<char>::empty());
    assert(spaces.take(1).drop_last() =~= spaces.take(0));
    assert(spaces.take(2).drop_last() =~= spaces.take(1));
    assert(spaces.take(3).drop_last() =~= spaces.take(2));
    assert(spaces.take(4).drop_last() =~= spaces.take(3));
    assert(spaces.take(1).last() == ' ' && spaces.take(2).last() == ' ');
    assert(spaces.take(3).last() == ' ' && spaces.take(4).last() == ' ');
    assert((' ' as u32) == 0x20);
    assert(print_chars(s, spaces.take(0)) == s);
    lemma_print_plain_char(s, ' ');
    lemma_print_plain_char(t1, ' ');
    lemma_print_plain_char(t2, ' ');
    lemma_print_plain_char(t3, ' ');
    assert(print_chars(s, spaces.take(1)) == t1);
    assert(print_chars(s, spaces.take(2)) == t2);
    assert(print_chars(s, spaces.take(3)) == t3);
    assert(spaces.take(4) =~= spaces);
}

/// A line break moves the cursor to the start of the next row; on the last row it scrolls
/// the grid up by one row, clears the last row and stays there.
pub proof fn lemma_newline(s: TextState)
    requires
        s.wf(),
    ensures
        print_char_spec(s, '\n') == newline(s),
        newline(s).column == 0,
        newline(s).width == s.width && newline(s).height == s.height,
        newline(s).colors == s.colors,
        s.row + 1 < s.height ==> newline(s).row == s.row + 1 && newline(s).screen == s.screen,
        s.row + 1 == s.height ==> newline(s).row == s.height - 1 && newline(s).screen == scrolled(
            s.screen,
            s.width,
            s.height,
            s.colors.background,
        ),
{
}

/// Printing `k` printable ASCII characters from the start of a row, `k` under the width,
/// moves the cursor to column `k` of that row.
proof fn lemma_row_prefix(s: TextState, text: Seq<char>, k: int)
    requires
        s.wf(),
        s.column == 0,
        text.len() == s.width,
        forall|i: int| 0 <= i < text.len() ==> 0x20 <= #[trigger] (text[i] as u32) <= 0x7e,
        0 <= k < text.len(),
    ensures
        print_chars(s, text.take(k)).row == s.row,
        print_chars(s, text.take(k)).column == k,
        print_chars(s, text.take(k)).width == s.width,
        print_chars(s, text.take(k)).height == s.height,
    decreases k,
{
    if k == 0 {
        assert(text.take(0) =~= Seq::<char>::empty());
    } else {
        lemma_row_prefix(s, text, k - 1);
        lemma_step(s, text, k - 1);
    }
}

proof fn lemma_step(s: TextState, text: Seq<char>, k: int)
    requires
        forall|i: int| 0 <= i < text.len() ==> 0x20 <= #[trigger] (text[i] as u32) <= 0x7e,
        0 <= k < text.len(),
    ensures
        print_chars(s, text.take(k + 1)) == put(print_chars(s, text.take(k)), (text[k] as u32) as u8),
{
    assert(text.take(k + 1).drop_last() =~= text.take(k));
    assert(text.take(k + 1).last() == text[k]);
    let c = text[k];
    assert(0x20 <= (c as u32) <= 0x7e);
    assert(c != '\n' && c != '\r' && c != '\t');
    lemma_print_plain_char(print_chars(s, text.take(k)), c);
}

/// Printing as many printable ASCII characters as a row holds, from the start of a row,
/// moves the cursor along that row, never past its last column, and then to the start of
/// the next row, or of the last row after a scroll.
pub proof fn lemma_full_row(s: TextState, text: Seq<char>)
    requires
        s.wf(),
        s.column == 0,
        text.len() == s.width,
        forall|i: int| 0 <= i < text.len() ==> 0x20 <= #[trigger] (text[i] as u32) <= 0x7e,
    ensures
        forall|k: int|
            0 <= k < text.len() ==> (#[trigger] print_chars(s, text.take(k))).row == s.row
                && print_chars(s, text.take(k)).column == k,
        print_chars(s, text).column == 0,
        print_chars(s, text).row == (if s.row + 1 < s.height {
            s.row + 1
        } else {
            s.height - 1
        }),
{
    assert forall|k: int| 0 <= k < text.len() implies (#[trigger] print_chars(
        s,
        text.take(k),
    )).row == s.row && print_chars(s, text.take(k)).column == k by {
        lemma_row_prefix(s, text, k);
    }
    let last = text.len() - 1;
    lemma_row_prefix(s, text, last);
    lemma_step(s, text, last);
    assert(text.take(last + 1) =~= text);
}

/// `n` line breaks in a row.
pub open spec fn newlines(s: TextState, n: nat) -> TextState
    decreases n,
{
    if n == 0 {
        s
    } else {
        newline(newlines(s, (n - 1) as nat))
    }
}

/// Line breaks given on the last row each scroll the grid once and leave the cursor at the
/// start of the last row.
proof fn lemma_newlines_scroll(s: TextState, n: nat)
    requires
        s.wf(),
        s.row == s.height - 1,
    ensures
        newlines(s, n).width == s.width,
        newlines(s, n).height == s.height,
        newlines(s, n).colors == s.colors,
        newlines(s, n).screen == scrolled_times(s.screen, s.width, s.height, s.colors.background, n),
        n >= 1 ==> newlines(s, n).row == s.height - 1 && newlines(s, n).column == 0,
        newlines(s, n).wf(),
    decreases n,
{
    if n > 0 {
        let prev = newlines(s, (n - 1) as nat);
        lemma_newlines_scroll(s, (n - 1) as nat);
        lemma_scrolled_times_shape(s.screen, s.width, s.height, s.colors.background, (n - 1) as nat);
        lemma_scrolled_times_shape(s.screen, s.width, s.height, s.colors.background, n);
        assert(prev.row == s.height - 1);
        lemma_newline(prev);
        let next = newlines(s, n);
        assert(grid_fits(next.screen, s.width, s.height));
    }
}

/// After `n >= 1` line breaks given with the cursor on the last row, the text of cell row
/// `k >= n` stands on row `k - n`, the last `n` rows hold the background, the first `n`
/// rows' text is gone, and the cursor is at the start of the last row.
pub proof fn lemma_newlines_keep_order(s: TextState, n: nat, k: int, dy: int, h: int)
    requires
        s.wf(),
        s.row == s.height - 1,
        1 <= n,
        0 <= dy < CHAR_HEIGHT,
        0 <= h < s.width * CHAR_WIDTH,
    ensures
        newlines(s, n).row == s.height - 1,
        newlines(s, n).column == 0,
        n <= k < s.height ==> newlines(s, n).screen[(k - n) * CHAR_HEIGHT + dy][h]
            == s.screen[k * CHAR_HEIGHT + dy][h],
        s.height - n <= k < s.height && 0 <= k ==> newlines(s, n).screen[k * CHAR_HEIGHT + dy][h]
            == s.colors.background,
{
    lemma_newlines_scroll(s, n);
    lemma_scroll_keeps_order(s.screen, s.width, s.height, s.colors.background, n, k, dy, h);
}

/// The first `k` characters of a row's worth of printable ASCII `text`, printed from the start
/// of a row that is not the last, stand in the first `k` cells of that row; no other pixel
/// changes.
proof fn lemma_row_glyphs(s: TextState, text: Seq<char>, k: int)
    requires
        s.wf(),
        s.column == 0,
        s.row + 1 < s.height,
        text.len() == s.width,
        forall|i: int| 0 <= i < text.len() ==> 0x20 <= #[trigger] (text[i] as u32) <= 0x7e,
        0 <= k <= text.len(),
    ensures
        print_chars(s, text.take(k)).screen.len() == s.screen.len(),
        forall|v: int|
            0 <= v < s.screen.len() ==> (#[trigger] print_chars(s, text.take(k)).screen[v]).len()
                == s.screen[v].len(),
        print_chars(s, text.take(k)).colors == s.colors,
        forall|i: int, dy: int, dx: int|
            0 <= i < k && 0 <= dy < CHAR_HEIGHT && 0 <= dx < CHAR_WIDTH ==> print_chars(
                s,
                text.take(k),
            ).screen[s.row * CHAR_HEIGHT + dy][i * CHAR_WIDTH + dx] == s.colors.apply_spec(
                #[trigger] glyph_bit((text[i] as u32) as u8, dy, dx),
            ),
        forall|v: int, h: int|
            0 <= v < s.screen.len() && 0 <= h < s.screen[v].len() && !(s.row * CHAR_HEIGHT <= v
                < s.row * CHAR_HEIGHT + CHAR_HEIGHT && h < k * CHAR_WIDTH) ==> #[trigger] (print_chars(
                s,
                text.take(k),
            ).screen[v][h]) == s.screen[v][h],
    decreases k,
{
    if k == 0 {
        assert(text.take(0) =~= Seq::<char>::empty());
    } else {
        let j = k - 1;
        lemma_row_glyphs(s, text, j);
        lemma_row_prefix(s, text, j);
        lemma_step(s, text, j);
        let prev = print_chars(s, text.take(j));
        let code = (text[j] as u32) as u8;
        let next = print_chars(s, text.take(k));
        assert(next.screen == cell_drawn(prev.screen, s.row, j, code, s.colors));
        assert forall|i: int, dy: int, dx: int|
            0 <= i < k && 0 <= dy < CHAR_HEIGHT && 0 <= dx < CHAR_WIDTH implies next.screen[s.row
            * CHAR_HEIGHT + dy][i * CHAR_WIDTH + dx] == s.colors.apply_spec(
            #[trigger] glyph_bit((text[i] as u32) as u8, dy, dx),
        ) by {
            if i < j {
                assert(prev.screen[s.row * CHAR_HEIGHT + dy][i * CHAR_WIDTH + dx] == s.colors.apply_spec(
                    glyph_bit((text[i] as u32) as u8, dy, dx),
                ));
            }
        }
    }
}

/// Printing a row's worth of printable ASCII characters from the start of a row that is not
/// the last draws the glyph of character `i`, in the current colors, in cell `i` of that row;
/// no pixel of another row, nor right of the grid, changes.
pub proof fn lemma_full_row_glyphs(s: TextState, text: Seq<char>)
    requires
        s.wf(),
        s.column == 0,
        s.row + 1 < s.height,
        text.len() == s.width,
        forall|i: int| 0 <= i < text.len() ==> 0x20 <= #[trigger] (text[i] as u32) <= 0x7e,
    ensures
        forall|i: int, dy: int, dx: int|
            0 <= i < text.len() && 0 <= dy < CHAR_HEIGHT && 0 <= dx < CHAR_WIDTH ==> print_chars(
                s,
                text,
            ).screen[s.row * CHAR_HEIGHT + dy][i * CHAR_WIDTH + dx] == s.colors.apply_spec(
                #[trigger] glyph_bit((text[i] as u32) as u8, dy, dx),
            ),
        forall|v: int, h: int|
            0 <= v < s.screen.len() && 0 <= h < s.screen[v].len() && !(s.row * CHAR_HEIGHT <= v
                < s.row * CHAR_HEIGHT + CHAR_HEIGHT && h < s.width * CHAR_WIDTH) ==> #[trigger] (print_chars(
                s,
                text,
            ).screen[v][h]) == s.screen[v][h],
{
    lemma_row_glyphs(s, text, text.len() as int);
    assert(text.take(text.len() as int) =~= text);
}

} // verus!
