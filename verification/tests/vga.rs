use crafty_os::vga_buffer::colour::{Colour, ColourCode};
use crafty_os::vga_buffer::writer::{Buffer, ScreenChar, Writer, MAPPED_CELLS};
use crafty_os::vga_buffer::{BUFFER_HEIGHT, BUFFER_WIDTH};

fn blank_writer() -> Writer {
    Writer::new(Buffer {
        chars: vec![ScreenChar { ascii_character: 0, colour_code: ColourCode(0) }; MAPPED_CELLS],
    })
}

fn text_at(w: &Writer, x: usize, y: usize, len: usize) -> Vec<u8> {
    (0..len).map(|i| w.buffer.chars[y * BUFFER_WIDTH + x + i].ascii_character).collect()
}

#[test]
fn colour_code_packs_background_high() {
    assert_eq!(ColourCode::new(Colour::Yellow, Colour::Blue).0, 0x1E);
    assert_eq!(ColourCode::from_fg(Colour::LightRed).0, 12);
    assert_eq!(ColourCode::from_u8(15, 4).0, 0x4F);
    assert_eq!(Colour::Pink.as_u8(), 13);
}

#[test]
fn colour_flip_swaps_and_twice_restores() {
    let mut c = ColourCode::new(Colour::Green, Colour::Red);
    assert_eq!(c.0, 0x42);
    c.flip();
    assert_eq!(c.0, 0x24);
    c.flip();
    assert_eq!(c.0, 0x42);
}

#[test]
fn new_writer_blanks_screen_and_starts_on_row_one() {
    let w = blank_writer();
    assert_eq!(w.get_pos(), (0, 1));
    assert_eq!(w.colour_code.0, 15);
    for i in 0..(BUFFER_HEIGHT * BUFFER_WIDTH) {
        assert_eq!(w.buffer.chars[i].ascii_character, b' ');
        assert_eq!(w.buffer.chars[i].colour_code.0, 15);
    }
    assert_eq!(w.buffer.chars.len(), BUFFER_HEIGHT * BUFFER_WIDTH);
}

#[test]
fn write_str_places_text_and_moves_cursor() {
    let mut w = blank_writer();
    w.write_str("Hi");
    assert_eq!(text_at(&w, 0, 1, 2), b"Hi".to_vec());
    assert_eq!(w.get_pos(), (2, 1));
    assert_eq!(w.cursor, Some(82));
}

#[test]
fn newline_goes_to_next_row_start() {
    let mut w = blank_writer();
    w.write_str("a\nbc");
    assert_eq!(text_at(&w, 0, 2, 2), b"bc".to_vec());
    assert_eq!(w.get_pos(), (2, 2));
}

#[test]
fn backspace_blanks_previous_cell() {
    let mut w = blank_writer();
    w.write_str("ab\x08");
    assert_eq!(text_at(&w, 0, 1, 2), b"a ".to_vec());
    assert_eq!(w.get_pos(), (1, 1));
}

#[test]
fn backspace_at_line_start_goes_to_previous_line_end() {
    let mut w = blank_writer();
    w.write_str("x\n\x08");
    assert_eq!(w.get_pos(), (79, 1));
}

#[test]
fn backspace_at_line_start_erases_last_character_of_previous_line() {
    let mut w = blank_writer();
    w.set_pos(79, 1);
    w.write_byte(b'a', false);
    w.set_pos(0, 2);
    w.write_byte(b'k', false);
    w.set_pos(0, 2);
    w.write_byte(0x08, false);
    assert_eq!(text_at(&w, 79, 1, 1), b" ".to_vec());
    assert_eq!(text_at(&w, 0, 2, 1), b"k".to_vec());
    assert_eq!(w.get_pos(), (79, 1));
    assert_eq!(w.cursor, Some(159));
}

#[test]
fn long_line_wraps() {
    let mut w = blank_writer();
    let line: String = std::iter::repeat('z').take(81).collect();
    w.write_str(&line);
    assert_eq!(w.get_pos(), (1, 2));
    assert_eq!(text_at(&w, 0, 2, 1), b"z".to_vec());
}

#[test]
fn scroll_moves_rows_up_and_keeps_status_line() {
    let mut w = blank_writer();
    w.write_first_line("status", ColourCode::from_fg(Colour::Green));
    w.write_str("top\nsecond");
    for _ in 0..22 {
        w.write_str("\n");
    }
    assert_eq!(w.get_pos(), (0, 24));
    assert_eq!(text_at(&w, 0, 1, 3), b"top".to_vec());
    w.write_str("\n");
    assert_eq!(w.get_pos(), (0, 24));
    assert_eq!(text_at(&w, 0, 1, 6), b"second".to_vec());
    assert_eq!(text_at(&w, 0, 0, 6), b"status".to_vec());
    w.write_str("bottom");
    w.write_str("\n");
    assert_eq!(text_at(&w, 0, 23, 6), b"bottom".to_vec());
    assert_eq!(text_at(&w, 0, 24, 6), b"      ".to_vec());
    assert_eq!(w.buffer.chars[24 * BUFFER_WIDTH].colour_code.0, 15);
}

#[test]
fn first_line_is_padded_and_position_restored() {
    let mut w = blank_writer();
    w.write_str("ab");
    w.write_first_line("Ready", ColourCode::from_fg(Colour::Green));
    assert_eq!(text_at(&w, 0, 0, 7), b"Ready  ".to_vec());
    assert_eq!(text_at(&w, 79, 0, 1), b" ".to_vec());
    assert_eq!(w.buffer.chars[1].colour_code.0, 2);
    assert_eq!(w.get_pos(), (2, 1));
    assert_eq!(w.colour_code.0, 15);
    assert_eq!(w.cursor, Some(82));
}

#[test]
fn flip_bit_swaps_cell_colours() {
    let mut w = blank_writer();
    w.set_colour(ColourCode::new(Colour::White, Colour::Blue));
    w.write_str("q");
    w.flip_bit(0, 1);
    assert_eq!(w.buffer.chars[80].colour_code.0, 0x1F_u8.rotate_left(4));
    assert_eq!(w.flipped.x, 0);
    assert_eq!(w.flipped.y, 1);
}

#[test]
fn dump_screen_reads_rows_one_to_twenty_four() {
    let mut w = blank_writer();
    w.write_str("dump");
    let d = w.dump_screen();
    assert_eq!(d.len(), 1920);
    assert_eq!(&d[0..4], b"dump");
    assert_eq!(d[4], b' ');
}

#[test]
fn write_screen_fills_from_the_end() {
    let mut w = blank_writer();
    let mut screen = vec![b'.'; 1920];
    screen[1919] = b'A';
    screen[1918] = b'B';
    w.write_screen(screen);
    assert_eq!(text_at(&w, 0, 1, 3), b"AB.".to_vec());
}

#[test]
fn dump_then_write_back_reverses_text() {
    let mut w = blank_writer();
    w.write_str("xy");
    let d = w.dump_screen();
    w.write_screen(d);
    assert_eq!(text_at(&w, 78, 24, 2), b"yx".to_vec());
    assert_eq!(text_at(&w, 0, 1, 2), b"  ".to_vec());
}

#[test]
fn fill_row_and_fill_screen_blank_with_current_colour() {
    let mut w = blank_writer();
    w.write_str("abc");
    w.set_colour(ColourCode(0x20));
    w.fill_screen();
    assert_eq!(text_at(&w, 0, 1, 3), b"   ".to_vec());
    assert_eq!(w.buffer.chars[80].colour_code.0, 0x20);
    w.write_first_line("s", ColourCode(2));
    w.fill_row(0);
    assert_eq!(text_at(&w, 0, 0, 1), b" ".to_vec());
}

#[test]
fn set_pos_moves_cursor_register() {
    let mut w = blank_writer();
    w.set_pos(5, 3);
    assert_eq!(w.get_pos(), (5, 3));
    assert_eq!(w.cursor, Some(245));
}

#[test]
fn test_println() {
    let mut w = blank_writer();
    w.write_str("Testing println!\n");
    assert_eq!(text_at(&w, 0, 1, 16), b"Testing println!".to_vec());
}

#[test]
fn test_println_200() {
    let mut w = blank_writer();
    for _ in 0..200 {
        w.write_str("Testing println!\n");
    }
    assert_eq!(w.get_pos(), (0, 24));
    assert_eq!(text_at(&w, 0, 23, 16), b"Testing println!".to_vec());
}

#[test]
fn test_println_output() {
    let mut w = blank_writer();
    let s = "Some test string that fits on a single line";
    w.set_pos(0, 0);
    w.write_str(s);
    w.write_str("\n");
    for (i, c) in s.chars().enumerate() {
        assert_eq!(char::from(w.buffer.chars[i].ascii_character), c);
    }
}
