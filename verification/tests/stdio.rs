use kentos::kentos_stdio::{encode_char, k_puts, Buffer, Colour, ColourCode, ScreenChar, Writer, VGA_HEIGHT, VGA_WIDTH};

fn blank_screen(code: ColourCode) -> Buffer {
    Buffer::filled(ScreenChar { ascii_char: b' ', colour_code: code })
}

fn writer(fg: Colour) -> Writer {
    let code = ColourCode::new(fg, Colour::Black);
    Writer { row: VGA_HEIGHT - 1, column: 0, colourc: code, buffer: blank_screen(code) }
}

fn row_text(b: &Buffer, r: usize, from: usize, to: usize) -> String {
    b.chars[r][from..to].iter().map(|c| c.ascii_char as char).collect()
}

#[test]
fn colour_code_packs_background_high_nibble() {
    assert_eq!(ColourCode::new(Colour::Yellow, Colour::Black).value(), 0x0e);
    assert_eq!(ColourCode::new(Colour::White, Colour::Blue).value(), 0x1f);
    assert_eq!(ColourCode::new(Colour::LightRed, Colour::Black).value(), 0x0c);
    assert_eq!(ColourCode::new(Colour::Black, Colour::White).value(), 0xf0);
    assert_eq!(ColourCode::new(Colour::LightGreen, Colour::Red).value(), 0x4a);
}

#[test]
fn colour_numbers_follow_the_palette() {
    assert_eq!(Colour::Black.as_u8(), 0);
    assert_eq!(Colour::Cyan.as_u8(), 3);
    assert_eq!(Colour::DarkGray.as_u8(), 8);
    assert_eq!(Colour::Yellow.as_u8(), 14);
    assert_eq!(Colour::White.as_u8(), 15);
}

#[test]
fn printable_byte_is_drawn_and_cursor_advances() {
    let mut w = writer(Colour::Yellow);
    w.write_char(b'A');
    assert_eq!(w.column, 1);
    assert_eq!(w.row, VGA_HEIGHT - 1);
    assert_eq!(w.buffer.chars[VGA_HEIGHT - 1][0], ScreenChar { ascii_char: b'A', colour_code: w.colourc });
}

#[test]
fn newline_scrolls_and_returns_to_column_zero() {
    let mut w = writer(Colour::Yellow);
    w.write_str("top");
    w.write_char(b'\n');
    assert_eq!(w.column, 0);
    assert_eq!(w.row, VGA_HEIGHT - 1);
    assert_eq!(row_text(&w.buffer, VGA_HEIGHT - 2, 0, 3), "top");
    assert_eq!(row_text(&w.buffer, VGA_HEIGHT - 1, 0, VGA_WIDTH), " ".repeat(VGA_WIDTH));
}

#[test]
fn add_newline_moves_every_row_up() {
    let mut w = writer(Colour::White);
    w.buffer.chars[0][0].ascii_char = b'x';
    w.buffer.chars[5][7].ascii_char = b'y';
    w.column = 12;
    w.add_newline();
    assert_eq!(w.buffer.chars[4][7].ascii_char, b'y');
    assert_eq!(w.buffer.chars[0][0].ascii_char, b' ');
    assert_eq!(w.column, 0);
}

#[test]
fn full_line_wraps_before_the_next_byte() {
    let mut w = writer(Colour::Yellow);
    let line = "x".repeat(VGA_WIDTH);
    w.write_str(&line);
    assert_eq!(w.column, VGA_WIDTH);
    w.write_char(b'z');
    assert_eq!(w.column, 1);
    assert_eq!(row_text(&w.buffer, VGA_HEIGHT - 2, 0, VGA_WIDTH), line);
    assert_eq!(w.buffer.chars[VGA_HEIGHT - 1][0].ascii_char, b'z');
}

#[test]
fn backspace_erases_the_last_character() {
    let mut w = writer(Colour::Yellow);
    w.write_str("ab");
    w.write_char(0x08);
    assert_eq!(w.column, 1);
    assert_eq!(row_text(&w.buffer, VGA_HEIGHT - 1, 0, 2), "a ");
}

#[test]
fn backspace_at_column_zero_goes_to_previous_row_end() {
    let mut w = writer(Colour::Yellow);
    w.buffer.chars[VGA_HEIGHT - 2][VGA_WIDTH - 1].ascii_char = b'q';
    w.write_char(0x08);
    assert_eq!(w.row, VGA_HEIGHT - 2);
    assert_eq!(w.column, VGA_WIDTH - 1);
    assert_eq!(w.buffer.chars[VGA_HEIGHT - 2][VGA_WIDTH - 1].ascii_char, b' ');
}

#[test]
fn unprintable_bytes_show_as_block() {
    let mut w = writer(Colour::Yellow);
    w.write_str("a\té");
    // 'a', then the tab as 0xfe, then the two UTF-8 bytes of 'é' as 0xfe each
    assert_eq!(w.column, 4);
    let row: Vec<u8> = w.buffer.chars[VGA_HEIGHT - 1][0..4].iter().map(|c| c.ascii_char).collect();
    assert_eq!(row, vec![b'a', 0xfe, 0xfe, 0xfe]);
}

#[test]
fn writing_in_pieces_equals_writing_whole() {
    let mut a = writer(Colour::Yellow);
    let mut b = writer(Colour::Yellow);
    a.write_str("hello, ");
    a.write_str("world\nnext");
    b.write_str("hello, world\nnext");
    assert_eq!(a.row, b.row);
    assert_eq!(a.column, b.column);
    assert_eq!(a.buffer.chars, b.buffer.chars);
}

#[test]
fn clear_row_blanks_one_row_only() {
    let code = ColourCode::new(Colour::Green, Colour::Black);
    let mut w = Writer {
        row: 3,
        column: 4,
        colourc: code,
        buffer: Buffer::filled(ScreenChar { ascii_char: b'#', colour_code: code }),
    };
    w.clear_row(7);
    assert!(w.buffer.chars[7].iter().all(|c| *c == ScreenChar { ascii_char: b' ', colour_code: code }));
    assert!(w.buffer.chars[6].iter().all(|c| c.ascii_char == b'#'));
    assert_eq!((w.row, w.column), (3, 4));
}

#[test]
fn utf8_text_is_written_byte_by_byte() {
    let mut w = writer(Colour::Yellow);
    w.write_str("k€");
    assert_eq!(w.column, 4);
    assert_eq!(w.buffer.chars[VGA_HEIGHT - 1][0].ascii_char, b'k');
    assert_eq!(w.buffer.chars[VGA_HEIGHT - 1][3].ascii_char, 0xfe);
}

#[test]
fn encode_char_matches_std() {
    for c in ['a', '\n', 'é', '€', '𝄞', '\u{7f}', '\u{80}', '\u{7ff}', '\u{800}', '\u{ffff}', '\u{10000}'] {
        let mut buf = [0u8; 4];
        assert_eq!(encode_char(c), c.encode_utf8(&mut buf).as_bytes().to_vec());
    }
}

#[test]
fn k_puts_writes_on_the_bottom_row() {
    let mut screen = blank_screen(ColourCode::new(Colour::Black, Colour::Black));
    k_puts(&mut screen, "kernel", Colour::LightCyan, Colour::Blue);
    assert_eq!(row_text(&screen, VGA_HEIGHT - 1, 0, 6), "kernel");
    assert_eq!(screen.chars[VGA_HEIGHT - 1][0].colour_code.value(), 0x1b);
    assert_eq!(screen.chars[VGA_HEIGHT - 1][6].ascii_char, b' ');
}

#[test]
fn k_newlines_shift_the_screen_by_k_rows() {
    let code = ColourCode::new(Colour::Yellow, Colour::Black);
    let mut w = writer(Colour::Yellow);
    for r in 0..VGA_HEIGHT {
        w.buffer.chars[r][0].ascii_char = b'a' + r as u8;
    }
    for _ in 0..3 {
        w.add_newline();
    }
    for r in 0..VGA_HEIGHT - 3 {
        assert_eq!(w.buffer.chars[r][0].ascii_char, b'a' + (r + 3) as u8);
    }
    for r in VGA_HEIGHT - 3..VGA_HEIGHT {
        assert!(w.buffer.chars[r].iter().all(|c| *c == ScreenChar { ascii_char: b' ', colour_code: code }));
    }
    for _ in 3..VGA_HEIGHT {
        w.add_newline();
    }
    assert!(w.buffer.chars.iter().flatten().all(|c| *c == ScreenChar { ascii_char: b' ', colour_code: code }));
}

#[test]
fn writing_the_empty_string_changes_nothing() {
    let mut w = writer(Colour::Yellow);
    w.write_str("x");
    let (r, c, cells) = (w.row, w.column, w.buffer.chars);
    w.write_str("");
    assert_eq!((w.row, w.column), (r, c));
    assert_eq!(w.buffer.chars, cells);
}
