use vga_text::buffer::{read_char, write_char, Buffer, ScreenChar, BUFFER_HEIGHT, BUFFER_WIDTH};
use vga_text::color::{Color, ColorCode};
use vga_text::writer::Writer;
use volatile::Volatile;

const ALL_COLORS: [Color; 16] = [
    Color::Black,
    Color::Blue,
    Color::Green,
    Color::Cyan,
    Color::Red,
    Color::Magenta,
    Color::Brown,
    Color::LightGray,
    Color::DarkGray,
    Color::LightBlue,
    Color::LightGreen,
    Color::LightCyan,
    Color::LightRed,
    Color::Pink,
    Color::Yellow,
    Color::White,
];

fn grid_of(word: u16) -> &'static mut Buffer {
    Box::leak(Box::new(core::array::from_fn(|_| core::array::from_fn(|_| Volatile::new(word)))))
}

fn yellow() -> ColorCode {
    ColorCode::new(Color::Yellow, Color::Black)
}

fn cell(b: u8, color: ColorCode) -> ScreenChar {
    ScreenChar { ascii_character: b, color_code: color }
}

/// A writer over a grid whose rows are marked by their row number.
fn marked_writer() -> Writer {
    let buffer = grid_of(0);
    for row in 0..BUFFER_HEIGHT {
        for col in 0..BUFFER_WIDTH {
            write_char(buffer, row, col, cell(b'A' + row as u8, ColorCode(0x07)));
        }
    }
    Writer::new(yellow(), buffer)
}

#[test]
fn color_indices_follow_palette_order() {
    for (i, c) in ALL_COLORS.iter().enumerate() {
        assert_eq!(c.value() as usize, i);
    }
}

#[test]
fn color_code_packs_every_pair() {
    for fg in ALL_COLORS {
        for bg in ALL_COLORS {
            let code = ColorCode::new(fg, bg);
            assert_eq!(code.0, (bg.value() << 4) | fg.value());
            assert_eq!(code.0 & 0x0f, fg.value());
            assert_eq!(code.0 >> 4, bg.value());
        }
    }
}

#[test]
fn color_code_examples() {
    assert_eq!(ColorCode::new(Color::Yellow, Color::Black).0, 0x0e);
    assert_eq!(ColorCode::new(Color::White, Color::Blue).0, 0x1f);
    assert_eq!(ColorCode::new(Color::Black, Color::White).0, 0xf0);
}

#[test]
fn cells_round_trip_through_the_grid() {
    let buffer = grid_of(0);
    let c = cell(b'z', ColorCode(0x4e));
    write_char(buffer, 3, 7, c);
    assert_eq!(read_char(buffer, 3, 7), c);
    assert_eq!(read_char(buffer, 3, 8), cell(0, ColorCode(0)));
    assert_eq!(buffer[3][7].read(), 0x4e7a);
}

#[test]
fn printable_byte_lands_at_cursor() {
    let mut w = Writer::new(yellow(), grid_of(0));
    for c in 0..5usize {
        w.write_byte(b'x');
        assert_eq!(w.column_position(), c + 1);
        assert_eq!(w.read_cell(24, c), cell(b'x', yellow()));
    }
    assert_eq!(w.read_cell(24, 5), cell(0, ColorCode(0)));
    w.write_byte(b'~');
    assert_eq!(w.read_cell(24, 5), cell(b'~', yellow()));
    assert_eq!(w.column_position(), 6);
}

#[test]
fn unprintable_bytes_become_placeholder() {
    let mut a = Writer::new(yellow(), grid_of(0));
    let mut b = Writer::new(yellow(), grid_of(0));
    a.write_string("\u{1}\t\u{7f}");
    for _ in 0..3 {
        b.write_byte(0xfe);
    }
    assert_eq!(a.column_position(), 3);
    for col in 0..BUFFER_WIDTH {
        assert_eq!(a.read_cell(24, col), b.read_cell(24, col));
    }
    assert_eq!(a.read_cell(24, 0), cell(0xfe, yellow()));
}

#[test]
fn multibyte_character_gives_one_placeholder_per_byte() {
    let mut w = Writer::new(yellow(), grid_of(0));
    w.write_string("a\u{e9}b");
    assert_eq!(w.column_position(), 4);
    assert_eq!(w.read_cell(24, 0), cell(b'a', yellow()));
    assert_eq!(w.read_cell(24, 1), cell(0xfe, yellow()));
    assert_eq!(w.read_cell(24, 2), cell(0xfe, yellow()));
    assert_eq!(w.read_cell(24, 3), cell(b'b', yellow()));
}

#[test]
fn full_row_fills_without_scroll_then_wraps() {
    let mut w = marked_writer();
    let line: String = (0..80).map(|i| (b'a' + (i % 26) as u8) as char).collect();
    w.write_string(&line);
    assert_eq!(w.column_position(), 80);
    for col in 0..BUFFER_WIDTH {
        assert_eq!(w.read_cell(24, col), cell(b'a' + (col % 26) as u8, yellow()));
        assert_eq!(w.read_cell(23, col), cell(b'A' + 23, ColorCode(0x07)));
    }
    w.write_byte(b'#');
    assert_eq!(w.column_position(), 1);
    for col in 0..BUFFER_WIDTH {
        assert_eq!(w.read_cell(23, col), cell(b'a' + (col % 26) as u8, yellow()));
        assert_eq!(w.read_cell(22, col), cell(b'A' + 23, ColorCode(0x07)));
    }
    assert_eq!(w.read_cell(24, 0), cell(b'#', yellow()));
    for col in 1..BUFFER_WIDTH {
        assert_eq!(w.read_cell(24, col), cell(b' ', yellow()));
    }
}

#[test]
fn new_line_scrolls_every_row() {
    let mut w = marked_writer();
    w.write_string("abc");
    w.new_line();
    assert_eq!(w.column_position(), 0);
    for row in 0..23 {
        for col in 0..BUFFER_WIDTH {
            assert_eq!(w.read_cell(row, col), cell(b'A' + row as u8 + 1, ColorCode(0x07)));
        }
    }
    assert_eq!(w.read_cell(23, 0), cell(b'a', yellow()));
    assert_eq!(w.read_cell(23, 2), cell(b'c', yellow()));
    assert_eq!(w.read_cell(23, 3), cell(b'A' + 24, ColorCode(0x07)));
    for col in 0..BUFFER_WIDTH {
        assert_eq!(w.read_cell(24, col), cell(b' ', yellow()));
    }
}

#[test]
fn new_line_at_column_zero_scrolls_the_same() {
    let mut w = marked_writer();
    w.new_line();
    w.new_line();
    assert_eq!(w.column_position(), 0);
    assert_eq!(w.read_cell(0, 0), cell(b'C', ColorCode(0x07)));
    assert_eq!(w.read_cell(22, 79), cell(b'A' + 24, ColorCode(0x07)));
    assert_eq!(w.read_cell(23, 40), cell(b' ', yellow()));
    assert_eq!(w.read_cell(24, 79), cell(b' ', yellow()));
}

#[test]
fn hello_line_reads_back_after_scroll() {
    let blank = cell(b' ', yellow());
    let buffer = grid_of(0);
    for row in 0..BUFFER_HEIGHT {
        for col in 0..BUFFER_WIDTH {
            write_char(buffer, row, col, blank);
        }
    }
    let mut w = Writer::new(yellow(), buffer);
    w.write_string("Hello\n");
    assert_eq!(w.column_position(), 0);
    let expected = b"Hello";
    for col in 0..BUFFER_WIDTH {
        let want = if col < 5 { cell(expected[col], yellow()) } else { blank };
        assert_eq!(w.read_cell(23, col), want);
        assert_eq!(w.read_cell(24, col), blank);
    }
}

#[test]
fn color_code_of_writer_is_kept() {
    let mut w = Writer::new(ColorCode::new(Color::Pink, Color::Cyan), grid_of(0));
    w.write_string("q\n");
    assert_eq!(w.color_code(), ColorCode(0x3d));
    assert_eq!(w.read_cell(23, 0), cell(b'q', ColorCode(0x3d)));
}

#[test]
fn write_byte_shows_unprintable_as_placeholder() {
    for b in [0x00u8, 0x01, 0x09, 0x0d, 0x1b, 0x7f, 0x80, 0xc3, 0xff] {
        let mut a = marked_writer();
        let mut p = marked_writer();
        a.write_string("ab");
        p.write_string("ab");
        a.write_byte(b);
        p.write_byte(0xfe);
        assert_eq!(a.column_position(), 3);
        assert_eq!(a.column_position(), p.column_position());
        assert_eq!(a.read_cell(24, 2), cell(0xfe, yellow()));
        for row in 0..BUFFER_HEIGHT {
            for col in 0..BUFFER_WIDTH {
                assert_eq!(a.read_cell(row, col), p.read_cell(row, col));
            }
        }
    }
}

#[test]
fn write_byte_wraps_unprintable_like_placeholder() {
    let mut w = Writer::new(yellow(), grid_of(0));
    for _ in 0..80 {
        w.write_byte(b'.');
    }
    w.write_byte(0x07);
    assert_eq!(w.column_position(), 1);
    assert_eq!(w.read_cell(24, 0), cell(0xfe, yellow()));
    assert_eq!(w.read_cell(23, 79), cell(b'.', yellow()));
}
