use crafty_os::keyboard::decoder::{to_console_key, KeyDecoder, ScancodeOutcome};
use crafty_os::keyboard::scancode::{add_scancode, ScancodeStream, QUEUE_CAPACITY};
use crafty_os::keyboard::{encode_utf8, parse_decimal, DecodedKey, KeyAction, KeyCode, KeyConsole};
use crafty_os::vga_buffer::colour::ColourCode;
use crafty_os::vga_buffer::writer::{Buffer, ScreenChar, Writer, MAPPED_CELLS};

fn blank_writer() -> Writer {
    Writer::new(Buffer {
        chars: vec![ScreenChar { ascii_character: 0, colour_code: ColourCode(0) }; MAPPED_CELLS],
    })
}

fn row_text(w: &Writer, y: usize) -> String {
    (0..80).map(|x| w.buffer.chars[y * 80 + x].ascii_character as char).collect::<String>()
}

fn status(w: &Writer) -> String {
    row_text(w, 0).trim_end().to_string()
}

fn ch(c: char) -> DecodedKey {
    DecodedKey::Unicode(c)
}

fn alt() -> DecodedKey {
    DecodedKey::RawKey(KeyCode::AltLeft)
}

fn start() -> (KeyConsole, Writer) {
    let mut w = blank_writer();
    let c = KeyConsole::new(&mut w);
    (c, w)
}

fn press(c: &mut KeyConsole, w: &mut Writer, keys: &str) -> Vec<KeyAction> {
    keys.chars().map(|k| c.handle_key(ch(k), w)).collect()
}

#[test]
fn console_start_announces_and_prompts() {
    let (c, w) = start();
    assert!(row_text(&w, 1).starts_with("Starting keyboard handler..."));
    assert_eq!(status(&w), "Ready For Command:");
    assert_eq!(w.buffer.chars[1].colour_code.0, 2);
    assert_eq!(w.get_pos(), (0, 2));
    assert!(!c.alt);
    assert_eq!(c.stage, 0);
}

#[test]
fn plain_characters_are_echoed() {
    let (mut c, mut w) = start();
    let acts = press(&mut c, &mut w, "hi");
    assert!(acts.iter().all(|a| matches!(a, KeyAction::Nothing)));
    assert!(row_text(&w, 2).starts_with("hi"));
    assert_eq!(w.get_pos(), (2, 2));
}

#[test]
fn other_raw_keys_print_their_name() {
    let (mut c, mut w) = start();
    c.handle_key(DecodedKey::RawKey(KeyCode::Other(b"F1".to_vec())), &mut w);
    assert!(row_text(&w, 2).starts_with("F1"));
}

#[test]
fn arrows_move_within_screen() {
    let (mut c, mut w) = start();
    c.handle_key(DecodedKey::RawKey(KeyCode::ArrowDown), &mut w);
    assert_eq!(w.get_pos(), (0, 3));
    c.handle_key(DecodedKey::RawKey(KeyCode::ArrowRight), &mut w);
    assert_eq!(w.get_pos(), (1, 3));
    c.handle_key(DecodedKey::RawKey(KeyCode::ArrowLeft), &mut w);
    c.handle_key(DecodedKey::RawKey(KeyCode::ArrowLeft), &mut w);
    assert_eq!(w.get_pos(), (0, 3));
    c.handle_key(DecodedKey::RawKey(KeyCode::ArrowUp), &mut w);
    c.handle_key(DecodedKey::RawKey(KeyCode::ArrowUp), &mut w);
    c.handle_key(DecodedKey::RawKey(KeyCode::ArrowUp), &mut w);
    assert_eq!(w.get_pos(), (0, 1));
}

#[test]
fn alt_shows_prompt_and_unknown_code_is_reported() {
    let (mut c, mut w) = start();
    c.handle_key(alt(), &mut w);
    assert!(c.alt);
    assert_eq!(status(&w), "Alt:");
    c.handle_key(ch('q'), &mut w);
    assert!(!c.alt);
    assert_eq!(status(&w), "Unknown Alt code :(");
    assert_eq!(w.buffer.chars[1].colour_code.0, 12);
}

#[test]
fn read_command_collects_drive_and_section() {
    let (mut c, mut w) = start();
    c.handle_key(alt(), &mut w);
    c.handle_key(ch('r'), &mut w);
    assert_eq!(status(&w), "Alt: Read from disk:");
    press(&mut c, &mut w, "1");
    assert_eq!(status(&w), "Alt: Read from disk: 1");
    press(&mut c, &mut w, "\n");
    assert_eq!(status(&w), "Alt: Read from disk: 1, section:");
    assert_eq!(c.stage, 1);
    let acts = press(&mut c, &mut w, "42\n");
    match &acts[2] {
        KeyAction::ReadScreen { drive, section } => assert_eq!((*drive, *section), (1, 42)),
        _ => panic!("expected a read"),
    }
    assert_eq!(status(&w), "Success read from disk: 1, section: 42 :)");
    assert_eq!(w.get_pos(), (0, 1));
    assert!(!c.alt);
    assert!(c.task.is_none());
    assert!(c.arg1.is_empty() && c.arg2.is_empty());
}

#[test]
fn backspace_and_enter_on_empty_argument() {
    let (mut c, mut w) = start();
    c.handle_key(alt(), &mut w);
    c.handle_key(ch('r'), &mut w);
    press(&mut c, &mut w, "7\x08");
    assert!(c.arg1.is_empty());
    assert_eq!(status(&w), "Alt: Read from disk:");
    press(&mut c, &mut w, "\n");
    assert_eq!(c.stage, 0);
    press(&mut c, &mut w, "x");
    assert!(c.arg1.is_empty());
}

#[test]
fn write_command_hands_out_screen_text() {
    let (mut c, mut w) = start();
    c.handle_key(alt(), &mut w);
    c.handle_key(ch('w'), &mut w);
    let acts = press(&mut c, &mut w, "0\n3\n");
    match &acts[3] {
        KeyAction::WriteScreen { drive, section, screen } => {
            assert_eq!((*drive, *section), (0, 3));
            assert_eq!(screen.len(), 1920);
            assert!(screen.starts_with(b"Starting keyboard handler..."));
        }
        _ => panic!("expected a write"),
    }
    assert_eq!(status(&w), "Success wrote to disk: 0, section: 3 :)");
}

#[test]
fn colour_command_changes_colour() {
    let (mut c, mut w) = start();
    c.handle_key(alt(), &mut w);
    c.handle_key(ch('c'), &mut w);
    assert!(row_text(&w, 1).starts_with("Colour options..."));
    press(&mut c, &mut w, "14\n1\n");
    assert_eq!(status(&w), "Successfully changed colour :)");
    assert_eq!(w.colour_code.0, 0x1E);
    assert_eq!(w.buffer.chars[80].colour_code.0, 0x1E);
    assert_eq!(w.get_pos(), (0, 1));
}

#[test]
fn colour_command_rejects_large_numbers() {
    let (mut c, mut w) = start();
    c.handle_key(alt(), &mut w);
    c.handle_key(ch('c'), &mut w);
    press(&mut c, &mut w, "16\n1\n");
    assert_eq!(status(&w), "Failed to change colour, fg was greater than 15 :(");
    assert_eq!(w.colour_code.0, 15);
    c.handle_key(alt(), &mut w);
    c.handle_key(ch('c'), &mut w);
    press(&mut c, &mut w, "1\n99\n");
    assert_eq!(status(&w), "Failed to change colour, bg was greater than 15 :(");
}

#[test]
fn menu_listing_commands() {
    let (mut c, mut w) = start();
    c.handle_key(alt(), &mut w);
    assert!(matches!(c.handle_key(ch('d'), &mut w), KeyAction::ShowDisks));
    assert_eq!(status(&w), "Success: displayed all the ATA disks :)");
    assert!(row_text(&w, 1).starts_with("ATA Disks found..."));
    c.handle_key(alt(), &mut w);
    assert!(matches!(c.handle_key(ch('p'), &mut w), KeyAction::ShowPciDevices));
    assert!(row_text(&w, 1).starts_with("PCI Devices..."));
    c.handle_key(alt(), &mut w);
    c.handle_key(ch('h'), &mut w);
    assert_eq!(status(&w), "Success: displayed help :)");
    assert!(row_text(&w, 1).starts_with("Alt key HELP"));
    assert!(row_text(&w, 3).starts_with("r: Read from disk"));
    c.handle_key(alt(), &mut w);
    c.handle_key(ch('x'), &mut w);
    assert_eq!(status(&w), "Success: cleared screen :)");
    assert_eq!(row_text(&w, 1).trim_end(), "");
}

#[test]
fn key_ok_refuses_overlong_argument_and_big_drive() {
    let (mut c, mut w) = start();
    c.handle_key(alt(), &mut w);
    c.handle_key(ch('r'), &mut w);
    for _ in 0..59 {
        assert!(c.key_ok(&ch('5'), &w));
        c.handle_key(ch('5'), &mut w);
    }
    assert!(!c.key_ok(&ch('5'), &w));
    let (mut c, mut w) = start();
    c.handle_key(alt(), &mut w);
    c.handle_key(ch('r'), &mut w);
    press(&mut c, &mut w, "300\n1");
    assert!(!c.key_ok(&ch('\n'), &w));
    assert!(c.key_ok(&ch('2'), &w));
}

#[test]
fn scancodes_decode_through_keyboard_layout() {
    let (mut c, mut w) = start();
    assert!(matches!(c.handle_scancode(0x1E, &mut w), ScancodeOutcome::Handled(KeyAction::Nothing)));
    assert!(matches!(c.handle_scancode(0x9E, &mut w), ScancodeOutcome::NoKey));
    assert!(row_text(&w, 2).starts_with("a"));
    assert!(matches!(c.handle_scancode(0x38, &mut w), ScancodeOutcome::Handled(KeyAction::Nothing)));
    assert!(c.alt);
    assert_eq!(status(&w), "Alt:");
}

fn is_char(d: Option<Option<DecodedKey>>, want: char) -> bool {
    matches!(d, Some(Some(DecodedKey::Unicode(c))) if c == want)
}

#[test]
fn decoder_follows_prefixes_and_modifiers_of_earlier_bytes() {
    let mut d = KeyDecoder::new();
    assert!(is_char(d.feed(0x1E), 'a'));
    assert!(matches!(d.feed(0x9E), Some(None)));
    // left shift held: the next letter is upper case
    match d.feed(0x2A) {
        Some(Some(DecodedKey::RawKey(KeyCode::Other(n)))) => assert_eq!(n, b"LShift".to_vec()),
        _ => panic!("left shift is a raw key"),
    }
    assert!(is_char(d.feed(0x1E), 'A'));
    assert!(matches!(d.feed(0xAA), Some(None)));
    assert!(is_char(d.feed(0x1E), 'a'));
    // an extended prefix completes nothing; with it 0x48 is the up arrow
    assert!(d.feed(0xE0).is_none());
    assert!(matches!(d.feed(0x48), Some(Some(DecodedKey::RawKey(KeyCode::ArrowUp)))));
    assert!(matches!(d.feed(0x38), Some(Some(DecodedKey::RawKey(KeyCode::AltLeft)))));
}

#[test]
fn raw_keys_get_console_names() {
    let named = |n: &str| to_console_key(DecodedKey::RawKey(KeyCode::Other(n.as_bytes().to_vec())));
    assert!(matches!(named("LAlt"), DecodedKey::RawKey(KeyCode::AltLeft)));
    assert!(matches!(named("RAltGr"), DecodedKey::RawKey(KeyCode::AltRight)));
    assert!(matches!(named("ArrowLeft"), DecodedKey::RawKey(KeyCode::ArrowLeft)));
    assert!(matches!(named("ArrowRight"), DecodedKey::RawKey(KeyCode::ArrowRight)));
    assert!(matches!(named("ArrowDown"), DecodedKey::RawKey(KeyCode::ArrowDown)));
    match named("F1") {
        DecodedKey::RawKey(KeyCode::Other(n)) => assert_eq!(n, b"F1".to_vec()),
        _ => panic!("F1 keeps its name"),
    }
    assert!(matches!(to_console_key(DecodedKey::Unicode('x')), DecodedKey::Unicode('x')));
}

#[test]
fn handle_decoded_without_key_changes_nothing() {
    let (mut c, mut w) = start();
    let before = row_text(&w, 1);
    assert!(matches!(c.handle_decoded(None, &mut w), ScancodeOutcome::NoKey));
    assert!(matches!(c.handle_decoded(Some(None), &mut w), ScancodeOutcome::NoKey));
    assert_eq!(row_text(&w, 1), before);
    assert!(matches!(
        c.handle_decoded(Some(Some(DecodedKey::Unicode('z'))), &mut w),
        ScancodeOutcome::Handled(KeyAction::Nothing)
    ));
}

#[test]
fn parse_decimal_values_and_limits() {
    assert_eq!(parse_decimal(&b"42".to_vec(), 255), Some(42));
    assert_eq!(parse_decimal(&b"0".to_vec(), 0), Some(0));
    assert_eq!(parse_decimal(&b"256".to_vec(), 255), None);
    assert_eq!(parse_decimal(&Vec::new(), 255), None);
    assert_eq!(parse_decimal(&b"18446744073709551616".to_vec(), u64::MAX), None);
    assert_eq!(parse_decimal(&b"18446744073709551615".to_vec(), u64::MAX), Some(u64::MAX));
}

#[test]
fn encode_utf8_matches_std() {
    for c in ['a', '\n', 'é', '€', '😀'] {
        let mut buf = [0u8; 4];
        assert_eq!(encode_utf8(c), c.encode_utf8(&mut buf).as_bytes().to_vec());
    }
}

#[test]
fn scancode_stream_is_first_in_first_out() {
    let mut s = ScancodeStream::new();
    assert_eq!(s.poll_next(), None);
    assert!(add_scancode(&mut s, 1));
    assert!(add_scancode(&mut s, 2));
    assert_eq!(s.poll_next(), Some(1));
    assert_eq!(s.poll_next(), Some(2));
    assert_eq!(s.poll_next(), None);
}

#[test]
fn scancode_stream_drops_bytes_when_full() {
    let mut s = ScancodeStream::new();
    for i in 0..QUEUE_CAPACITY {
        assert!(add_scancode(&mut s, i as u8));
    }
    assert!(!add_scancode(&mut s, 200));
    assert_eq!(s.poll_next(), Some(0));
    assert!(add_scancode(&mut s, 201));
}

#[test]
fn scancode_for_key_that_does_not_fit_is_refused() {
    let (mut c, mut w) = start();
    c.handle_key(alt(), &mut w);
    c.handle_key(ch('r'), &mut w);
    for _ in 0..59 {
        c.handle_key(ch('5'), &mut w);
    }
    let before = row_text(&w, 0);
    assert!(matches!(c.handle_scancode(0x06, &mut w), ScancodeOutcome::Refused));
    assert_eq!(c.arg1.len(), 59);
    assert_eq!(row_text(&w, 0), before);
}
