use early_console::char_buffer::{CharBuffer, CharColors, CharPosition, OptionalColoredChar};
use early_console::console::{encode_utf8, Console, ConsoleMode, DisposablePanicWriter};
use early_console::font::{bit_of_glyph, glyph, CharBit, PrintableChar};
use early_console::graphics::{FrameBuffer, HardwarePixelFormat, Pixel, PixelPosition, Resolution};

const FG: Pixel = Pixel { red: 223, green: 223, blue: 223 };
const BG: Pixel = Pixel { red: 32, green: 32, blue: 32 };

/// An 80 by 25 grid.
fn console() -> Console {
    let res = Resolution { horizontal: 640, vertical: 200 };
    Console::new(FrameBuffer::new(vec![0; 640 * 200], HardwarePixelFormat::Bgr, 640, res).unwrap())
}

fn pixel(console: &Console, row: usize, column: usize, dy: usize, dx: usize) -> Pixel {
    let position = PixelPosition { horizontal: column * 8 + dx, vertical: row * 8 + dy };
    console.char_buffer().frame_buffer().get_pixel_if_visible(position).unwrap()
}

/// Whether the cell at `row`, `column` shows the glyph of `c` in `fg` on `bg`.
fn shows(console: &Console, row: usize, column: usize, c: u8, fg: Pixel, bg: Pixel) -> bool {
    let rows = glyph((c - 0x20) as usize);
    (0..8).all(|dy| {
        (0..8).all(|dx| {
            let expected = match bit_of_glyph(rows, dy, dx) {
                CharBit::Foreground => fg,
                CharBit::Background => bg,
            };
            pixel(console, row, column, dy, dx) == expected
        })
    })
}

fn cell_is(console: &Console, row: usize, column: usize, color: Pixel) -> bool {
    (0..8).all(|dy| (0..8).all(|dx| pixel(console, row, column, dy, dx) == color))
}

fn cursor(console: &Console) -> (usize, usize) {
    console.char_buffer().cursor()
}

#[test]
fn print_ab_newline() {
    let mut c = console();
    assert_eq!(c.char_buffer().grid_size(), (80, 25));
    c.print("AB\n");
    assert!(shows(&c, 0, 0, b'A', FG, BG));
    assert!(shows(&c, 0, 1, b'B', FG, BG));
    assert!(!shows(&c, 0, 0, b'B', FG, BG));
    assert_eq!(cursor(&c), (1, 0));
    assert!(cell_is(&c, 0, 2, Pixel::black()));
}

#[test]
fn glyph_a_has_its_bitmap() {
    let mut c = console();
    c.print("A");
    assert_eq!(pixel(&c, 0, 0, 0, 2), FG);
    assert_eq!(pixel(&c, 0, 0, 0, 3), FG);
    assert_eq!(pixel(&c, 0, 0, 0, 0), BG);
    assert_eq!(pixel(&c, 0, 0, 7, 3), BG);
    assert_eq!(pixel(&c, 0, 0, 4, 0), FG);
    assert_eq!(pixel(&c, 0, 0, 4, 5), FG);
}

#[test]
fn full_row_moves_to_next_row() {
    let mut c = console();
    let row: String = std::iter::repeat('x').take(79).collect();
    c.print(&row);
    assert_eq!(cursor(&c), (0, 79));
    c.print("y");
    assert_eq!(cursor(&c), (1, 0));
    assert!(shows(&c, 0, 79, b'y', FG, BG));
    assert!(cell_is(&c, 1, 0, Pixel::black()));
}

#[test]
fn newline_moves_down_without_scrolling() {
    let mut c = console();
    c.print("Q\n");
    assert_eq!(cursor(&c), (1, 0));
    assert!(shows(&c, 0, 0, b'Q', FG, BG));
}

#[test]
fn newline_on_last_row_scrolls() {
    let mut c = console();
    let down: String = std::iter::repeat('\n').take(24).collect();
    c.print(&down);
    c.print("Q");
    assert_eq!(cursor(&c), (24, 1));
    c.print("\n");
    assert_eq!(cursor(&c), (24, 0));
    assert!(shows(&c, 23, 0, b'Q', FG, BG));
    assert!(cell_is(&c, 24, 0, BG));
    assert!(cell_is(&c, 24, 79, BG));
}

#[test]
fn twenty_six_newlines_end_on_last_row() {
    let mut c = console();
    let first: String = std::iter::repeat('\n').take(24).collect();
    c.print(&first);
    assert_eq!(cursor(&c), (24, 0));
    // no scroll yet: the last row is still as the frame buffer held it
    assert!(cell_is(&c, 24, 0, Pixel::black()));
    c.print("\n");
    assert_eq!(cursor(&c), (24, 0));
    assert!(cell_is(&c, 24, 0, BG));
    c.print("\n");
    assert_eq!(cursor(&c), (24, 0));
}

#[test]
fn scrolling_keeps_row_order() {
    let mut c = console();
    c.print("A\nB\nC");
    let down: String = std::iter::repeat('\n').take(22).collect();
    c.print(&down);
    assert_eq!(cursor(&c), (24, 0));
    assert!(shows(&c, 0, 0, b'A', FG, BG));
    c.print("\n");
    assert!(shows(&c, 0, 0, b'B', FG, BG));
    assert!(shows(&c, 1, 0, b'C', FG, BG));
    c.print("\n");
    assert!(shows(&c, 0, 0, b'C', FG, BG));
    assert!(cell_is(&c, 24, 0, BG));
}

#[test]
fn wrapping_on_last_row_scrolls() {
    let mut c = console();
    let down: String = std::iter::repeat('\n').take(24).collect();
    c.print(&down);
    let row: String = std::iter::repeat('z').take(80).collect();
    c.print(&row);
    assert_eq!(cursor(&c), (24, 0));
    assert!(shows(&c, 23, 0, b'z', FG, BG));
    assert!(shows(&c, 23, 79, b'z', FG, BG));
    assert!(cell_is(&c, 24, 5, BG));
}

#[test]
fn tab_is_four_spaces() {
    let mut a = console();
    let mut b = console();
    a.print("\tX");
    b.print("    X");
    assert_eq!(cursor(&a), (0, 5));
    assert_eq!(cursor(&a), cursor(&b));
    assert_eq!(
        a.char_buffer().frame_buffer().memory(),
        b.char_buffer().frame_buffer().memory()
    );
    assert!(cell_is(&a, 0, 3, BG));
}

#[test]
fn unprintable_chars_draw_nothing() {
    let mut c = console();
    let before = c.char_buffer().frame_buffer().memory().clone();
    c.print("\u{1f}\u{7f}é€😀");
    assert_eq!(cursor(&c), (0, 0));
    assert_eq!(c.char_buffer().frame_buffer().memory(), &before);
    c.print("aéb");
    assert_eq!(cursor(&c), (0, 2));
    assert!(shows(&c, 0, 1, b'b', FG, BG));
}

#[test]
fn carriage_return_goes_to_line_start() {
    let mut c = console();
    c.print("abc\rX");
    assert_eq!(cursor(&c), (0, 1));
    assert!(shows(&c, 0, 0, b'X', FG, BG));
    assert!(shows(&c, 0, 1, b'b', FG, BG));
}

#[test]
fn panic_mode_changes_colors_for_later_output() {
    let mut c = console();
    c.print("a");
    assert_eq!(c.mode(), ConsoleMode::Normal);
    c.enter_panic_mode();
    assert_eq!(c.mode(), ConsoleMode::Panic);
    c.print("b");
    let red = Pixel::rgb(223, 0, 0);
    assert!(shows(&c, 0, 0, b'a', FG, BG));
    assert!(shows(&c, 0, 1, b'b', FG, red));
    assert_eq!(c.char_buffer().colors(), CharColors::panic_mode());
}

#[test]
fn fault_report_starts_on_a_new_line() {
    let mut c = console();
    c.print("ok");
    c.render_fault_report("E");
    assert_eq!(c.mode(), ConsoleMode::Panic);
    assert!(shows(&c, 1, 0, b'E', FG, Pixel::rgb(223, 0, 0)));
    assert_eq!(cursor(&c), (1, 1));
    let report = DisposablePanicWriter::new(console()).panic("F");
    assert!(shows(&report, 1, 0, b'F', FG, Pixel::rgb(223, 0, 0)));
    assert_eq!(report.char_buffer().cursor(), (1, 1));
}

fn utf8(c: char) -> Vec<u8> {
    let (bytes, len) = encode_utf8(c);
    bytes[..len].to_vec()
}

#[test]
fn utf8_encoding() {
    assert_eq!(utf8('A'), vec![0x41]);
    assert_eq!(utf8('\u{1f}'), vec![0x1f]);
    assert_eq!(utf8('é'), vec![0xC3, 0xA9]);
    assert_eq!(utf8('€'), vec![0xE2, 0x82, 0xAC]);
    assert_eq!(utf8('😀'), vec![0xF0, 0x9F, 0x98, 0x80]);
}

#[test]
fn printable_chars() {
    assert!(PrintableChar::try_from(0x1f).is_err());
    assert!(PrintableChar::try_from(0x7f).is_err());
    assert!(PrintableChar::try_from(0xc3).is_err());
    assert_eq!(PrintableChar::try_from(0x20).unwrap().code(), 0x20);
    assert_eq!(PrintableChar::try_from(0x7e).unwrap().get_index_from_first_printable_char(), 94);
    assert_eq!(PrintableChar::space().code(), b' ');
    assert_eq!(glyph(0), 0);
    assert_eq!(glyph(33) & 0xff, 0x0c);
}

#[test]
fn cursor_moves() {
    let mut p = CharPosition::initial(80, 25);
    assert!(p.the_whole_char_can_be_drawn_vertically());
    p.go_right_or_start_new_line();
    assert_eq!((p.row, p.column), (0, 1));
    p.go_to_unchecked(3, 79);
    p.go_right_or_start_new_line();
    assert_eq!((p.row, p.column), (4, 0));
    assert_eq!(p.pixel_position(), PixelPosition { horizontal: 0, vertical: 32 });
    p.go_to_unchecked(24, 7);
    p.go_down();
    assert!(!p.the_whole_char_can_be_drawn_vertically());
    p.go_back_to_start_of_line();
    assert_eq!((p.row, p.column), (25, 0));
}

#[test]
fn char_buffer_operations() {
    let res = Resolution { horizontal: 644, vertical: 203 };
    let fb = FrameBuffer::new(vec![0; 644 * 203], HardwarePixelFormat::Rgb, 644, res).unwrap();
    let mut b = CharBuffer::new(fb);
    assert_eq!(b.grid_size(), (80, 25));
    assert_eq!(b.colors(), CharColors::default_colors());
    let green = CharColors { foreground: Pixel::rgb(0, 255, 0), background: Pixel::rgb(0, 0, 9) };
    b.draw_char_if_some(OptionalColoredChar { printable_char: None, colors: green });
    assert!(b.frame_buffer().memory().iter().all(|w| *w == 0));
    let bang = PrintableChar::try_from(b'!').unwrap();
    b.draw_char_if_some(OptionalColoredChar { printable_char: Some(bang), colors: green });
    // drawn in the grid's colors, not in those the character carries
    let top = b.frame_buffer().get_pixel_if_visible(PixelPosition { horizontal: 3, vertical: 0 });
    assert_eq!(top, Some(Pixel::rgb(255, 255, 255)));
    let side = b.frame_buffer().get_pixel_if_visible(PixelPosition { horizontal: 0, vertical: 0 });
    assert_eq!(side, Some(Pixel::black()));
    assert_eq!(b.cursor(), (0, 0));
    b.put_char(bang);
    assert_eq!(b.cursor(), (0, 1));
    b.go_down();
    assert_eq!(b.cursor(), (1, 1));
    b.go_to_line_start();
    assert_eq!(b.cursor(), (1, 0));
    let pos = b.get_pixel_position_moving_cursor(2, 3);
    assert_eq!(pos, PixelPosition { horizontal: 24, vertical: 16 });
    assert_eq!(b.cursor(), (2, 3));
    b.copy_char(PixelPosition { horizontal: 80, vertical: 80 }, PixelPosition { horizontal: 0, vertical: 0 });
    let copied = b.frame_buffer().get_pixel_if_visible(PixelPosition { horizontal: 83, vertical: 80 });
    assert_eq!(copied, Some(Pixel::rgb(255, 255, 255)));
    b.clear_char(PixelPosition { horizontal: 80, vertical: 80 });
    let cleared = b.frame_buffer().get_pixel_if_visible(PixelPosition { horizontal: 83, vertical: 80 });
    assert_eq!(cleared, Some(Pixel::black()));
    b.set_char_colors(green);
    b.draw_printable_char(bang);
    let drawn = b.frame_buffer().get_pixel_if_visible(PixelPosition { horizontal: 27, vertical: 16 });
    assert_eq!(drawn, Some(Pixel::rgb(0, 255, 0)));
    // the margins right of and below the grid are never drawn on
    let margin = b.frame_buffer().get_pixel_if_visible(PixelPosition { horizontal: 641, vertical: 201 });
    assert_eq!(margin, Some(Pixel::black()));
}
