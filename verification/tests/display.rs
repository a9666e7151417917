//! The display side: attribute bytes, the interval timer arithmetic, the
//! writer with its ANSI escapes, and the strict escape interpreter.

use ticktock::ansi::{AnsiEvent, parse_ansi};
use ticktock::pit::{Chan, divider_bytes, set_frequency};
use ticktock::text::{Attribute, Char};
use ticktock::vga::{
    Color, ScreenAttribute, ScreenChar, Writer, display, parse_u8, split,
};
use ticktock::vga_buffer::{TextAttribute, set_text_attr};

#[test]
fn attribute_byte_layout() {
    assert_eq!(ScreenAttribute::new(Color::LightCyan, Color::Black).0, 11);
    assert_eq!(ScreenAttribute::new(Color::White, Color::Blue).0, 0x1f);
    assert_eq!(ScreenAttribute::new(Color::Yellow, Color::Red).0, 0x4e);
}

#[test]
fn attribute_reads_back_its_colors() {
    let a = ScreenAttribute::new(Color::LightCyan, Color::Black);
    assert_eq!(a.foreground(), Color::LightCyan);
    assert_eq!(a.background(), Color::Black);
    // On a non-black background the byte leaves the palette, and the
    // foreground has always read back as black.
    let b = ScreenAttribute::new(Color::White, Color::Blue);
    assert_eq!(b.background(), Color::Blue);
    assert_eq!(b.foreground(), Color::Black);
}

#[test]
fn text_attribute_constructors() {
    assert_eq!(Attribute::default().0, 7);
    assert_eq!(Attribute::error().0, 15);
    let a = Attribute::new(Color::Green, Color::Black);
    assert_eq!(a.0, 2);
    assert_eq!(a.foreground(), Color::Green);
    assert_eq!(a.background(), Color::Black);
    let c = Char::new(b'x', a);
    assert_eq!(c.code, b'x');
    assert_eq!(c.attr, a);
}

#[test]
fn ansi_color_order_differs_from_palette_order() {
    assert_eq!(Color::from_ansi(0), Color::Black);
    assert_eq!(Color::from_ansi(1), Color::Red);
    assert_eq!(Color::from_ansi(2), Color::Green);
    assert_eq!(Color::from_ansi(3), Color::Yellow);
    assert_eq!(Color::from_ansi(4), Color::Blue);
    assert_eq!(Color::from_ansi(5), Color::Magenta);
    assert_eq!(Color::from_ansi(6), Color::Cyan);
    assert_eq!(Color::from_ansi(7), Color::White);
    assert_eq!(Color::from_ansi(8), Color::Black);
}

#[test]
fn interval_timer_divider() {
    assert_eq!(set_frequency(Chan::CH0, 100), 11931);
    assert_eq!(set_frequency(Chan::CH0, 1193182), 1);
    assert_eq!(set_frequency(Chan::CH1, 19), 62799);
    assert_eq!(divider_bytes(0xabcd), (0xcd, 0xab));
    assert_eq!(Chan::CH0.data_port(), 0x40);
    assert_eq!(Chan::CH1.data_port(), 0x41);
    assert_eq!(Chan::CH2.data_port(), 0x42);
}

#[test]
fn parse_u8_accepts_decimal_and_rejects_the_rest() {
    assert_eq!(parse_u8(b"37", 0, 2), Some(37));
    assert_eq!(parse_u8(b"+25", 0, 3), Some(25));
    assert_eq!(parse_u8(b"255", 0, 3), Some(255));
    assert_eq!(parse_u8(b"256", 0, 3), None);
    assert_eq!(parse_u8(b"", 0, 0), None);
    assert_eq!(parse_u8(b"+", 0, 1), None);
    assert_eq!(parse_u8(b"1a", 0, 2), None);
    assert_eq!(parse_u8(b"007", 0, 3), Some(7));
    assert_eq!(parse_u8(b"x42y", 1, 3), Some(42));
}

#[test]
fn split_parses_each_piece() {
    assert_eq!(split(b"32;40", 0, 5, b';'), vec![Some(32), Some(40)]);
    assert_eq!(split(b"5;x;7", 0, 5, b';'), vec![Some(5), None, Some(7)]);
    assert_eq!(split(b"", 0, 0, b';'), vec![None]);
    assert_eq!(split(b"8;", 0, 2, b';'), vec![Some(8), None]);
    assert_eq!(split(b"12", 0, 2, b';'), vec![Some(12)]);
}

#[test]
fn writer_starts_blank_on_the_bottom_row() {
    let w = Writer::new();
    assert_eq!(w.row(), 24);
    assert_eq!(w.column(), 0);
    assert_eq!(w.attribute().0, 7);
    assert_eq!(w.char_at(0, 0).code, b' ');
    assert_eq!(w.char_at(24, 79).code, b' ');
}

#[test]
fn writer_writes_plain_text() {
    let mut w = Writer::new();
    w.write_string(b"hi");
    assert_eq!(w.char_at(24, 0).code, b'h');
    assert_eq!(w.char_at(24, 1).code, b'i');
    assert_eq!(w.char_at(24, 0).attr.0, 7);
    assert_eq!(w.column(), 2);
}

#[test]
fn writer_replaces_unprintable_bytes() {
    let mut w = Writer::new();
    w.write_byte(0x01);
    assert_eq!(w.char_at(24, 0).code, 0xfe);
}

#[test]
fn writer_scrolls_on_line_feed_at_the_bottom() {
    let mut w = Writer::new();
    w.write_string(b"ab\ncd");
    // The bottom row scrolled up once: "ab" now stands one row higher.
    assert_eq!(w.char_at(23, 0).code, b'a');
    assert_eq!(w.char_at(23, 1).code, b'b');
    assert_eq!(w.char_at(24, 0).code, b'c');
    assert_eq!(w.char_at(24, 1).code, b'd');
    assert_eq!(w.row(), 24);
    assert_eq!(w.column(), 2);
}

#[test]
fn writer_wraps_a_full_row() {
    let mut w = Writer::new();
    let mut line = [b'.'; 81];
    line[80] = b'!';
    w.write_string(&line);
    // Eighty dots fill the bottom row, which then scrolls up for the bang.
    assert_eq!(w.char_at(23, 0).code, b'.');
    assert_eq!(w.char_at(23, 79).code, b'.');
    assert_eq!(w.char_at(24, 0).code, b'!');
    assert_eq!(w.column(), 1);
}

#[test]
fn writer_takes_sgr_colors() {
    let mut w = Writer::new();
    w.write_string(b"\x1b[32mg\x1b[0mn");
    // 'g' lands green on black, 'n' in the reset default.
    assert_eq!(w.char_at(24, 0).code, b'g');
    assert_eq!(w.char_at(24, 0).attr.0, 2);
    assert_eq!(w.char_at(24, 1).code, b'n');
    assert_eq!(w.char_at(24, 1).attr.0, 7);
}

#[test]
fn writer_takes_sgr_background() {
    let mut w = Writer::new();
    w.write_string(b"\x1b[31;44mr");
    // Red on blue: foreground digit 1, background digit 4.
    assert_eq!(w.char_at(24, 0).attr.0, (1 << 4) | 4);
}

#[test]
fn writer_moves_the_cursor_on_cup() {
    let mut w = Writer::new();
    w.write_string(b"\x1b[5;10Hx");
    assert_eq!(w.char_at(4, 9).code, b'x');
    assert_eq!(w.row(), 4);
    assert_eq!(w.column(), 10);
}

#[test]
fn writer_marks_bad_sequences() {
    let mut w = Writer::new();
    // An unsupported SGR code shows as the error marker cell.
    w.write_string(b"\x1b[99m");
    assert_eq!(w.char_at(24, 0).code, 13);
    assert_eq!(w.char_at(24, 0).attr.0, 15);
    // A stray escape does too.
    let mut v = Writer::new();
    v.write_string(b"\x1bzq");
    assert_eq!(v.char_at(24, 0).code, 13);
    assert_eq!(v.char_at(24, 1).code, b'q');
    // A cursor position off the screen is refused the same way.
    let mut u = Writer::new();
    u.write_string(b"\x1b[0;5Hx");
    assert_eq!(u.char_at(24, 0).code, 13);
    assert_eq!(u.char_at(24, 1).code, b'x');
}

#[test]
fn writer_clear_screen_homes_the_cursor() {
    let mut w = Writer::new();
    w.write_string(b"junk");
    let attr = ScreenAttribute::new(Color::Yellow, Color::Blue);
    w.clear_screen(attr);
    assert_eq!(w.row(), 0);
    assert_eq!(w.column(), 0);
    assert_eq!(w.char_at(24, 0).code, b' ');
    assert_eq!(w.char_at(24, 0).attr, attr);
    assert_eq!(w.attribute(), attr);
}

#[test]
fn display_writes_at_a_fixed_position() {
    let mut w = Writer::new();
    let cyan = ScreenAttribute::new(Color::LightCyan, Color::Black);
    display(&mut w, b"  42", (1, 3), cyan);
    assert_eq!(w.char_at(0, 2).code, b' ');
    assert_eq!(w.char_at(0, 4).code, b'4');
    assert_eq!(w.char_at(0, 5).code, b'2');
    assert_eq!(w.char_at(0, 5).attr, cyan);
    // The cursor did not move.
    assert_eq!(w.row(), 24);
    assert_eq!(w.column(), 0);
}

#[test]
fn set_text_attr_retargets_the_writer() {
    let mut w = Writer::new();
    set_text_attr(&mut w, TextAttribute::new(Color::LightCyan, Color::Black));
    w.write_string(b"t");
    assert_eq!(w.char_at(24, 0).attr.0, 11);
}

#[test]
fn screen_char_holds_its_parts() {
    let attr = ScreenAttribute::new(Color::Pink, Color::Black);
    let c = ScreenChar::new(b'z', attr);
    assert_eq!(c.code, b'z');
    assert_eq!(c.attr, attr);
}

#[test]
fn interpreter_reads_text_and_sequences() {
    let events = parse_ansi(b"ab\x1b[32mc").unwrap();
    assert_eq!(
        events,
        vec![
            AnsiEvent::Text(b'a'),
            AnsiEvent::Text(b'b'),
            AnsiEvent::Foreground(2),
            AnsiEvent::Text(b'c'),
        ]
    );
}

#[test]
fn interpreter_reads_cursor_updates() {
    assert_eq!(parse_ansi(b"\x1b[5;7H").unwrap(), vec![AnsiEvent::CursorTo(5, 7)]);
    assert_eq!(parse_ansi(b"\x1b[20;1H").unwrap(), vec![AnsiEvent::CursorTo(20, 1)]);
}

#[test]
fn interpreter_reads_resets_and_intensity() {
    assert_eq!(parse_ansi(b"\x1b[m").unwrap(), vec![AnsiEvent::Reset]);
    assert_eq!(parse_ansi(b"\x1b[0m").unwrap(), vec![AnsiEvent::Reset]);
    assert_eq!(
        parse_ansi(b"\x1b[1;31;40m").unwrap(),
        vec![AnsiEvent::Intensity, AnsiEvent::Foreground(1), AnsiEvent::Background(0)]
    );
}

#[test]
fn interpreter_refuses_malformed_strings() {
    // A stray escape, an unsupported final byte, an unsupported SGR code,
    // a bad CUP argument list: each one fails the whole string.
    assert!(parse_ansi(b"\x1bx").is_none());
    assert!(parse_ansi(b"\x1b[9q").is_none());
    assert!(parse_ansi(b"\x1b[38m").is_none());
    assert!(parse_ansi(b"\x1b[5H").is_none());
    assert!(parse_ansi(b"\x1b[a;bH").is_none());
}

#[test]
fn interpreter_drops_an_unfinished_sequence() {
    assert_eq!(parse_ansi(b"a\x1b[32").unwrap(), vec![AnsiEvent::Text(b'a')]);
}
