//! The keyboard command console: plain keys are echoed to the screen,
//! arrow keys move the write position, and Alt starts a command (help,
//! read/write a screen from/to disk, list disks or PCI devices, clear the
//! screen, change colours) whose numeric arguments are typed in on the
//! status line.

use vstd::prelude::*;
use vstd::string::StringSliceAdditionalSpecFns;
use crate::vga_buffer::colour::{Colour, ColourCode, attribute, colour_value};
use crate::vga_buffer::writer::{
    ScreenState, Writer, st_first_line, st_fill_screen, st_ok, st_set_pos, st_update_cursor,
    st_write_bytes, screen_text, MAPPED_CELLS,
};
use crate::vga_buffer::{BUFFER_HEIGHT, BUFFER_WIDTH};

pub mod scancode;
pub mod decoder;

use decoder::KeyDecoder;

verus! {

/// The non-character keys the console reacts to; any other key carries the
/// name it is printed with.
pub enum KeyCode {
    AltLeft,
    AltRight,
    ArrowUp,
    ArrowDown,
    ArrowLeft,
    ArrowRight,
    Other(Vec<u8>),
}

/// A decoded key press: a character or a raw key.
pub enum DecodedKey {
    Unicode(char),
    RawKey(KeyCode),
}

/// The command an Alt sequence is collecting arguments for.
#[derive(Debug, Clone, Copy, PartialEq, Eq, Structural)]
pub enum Task {
    Read,
    Write,
    Colour,
}

/// What the caller has to do after a key: nothing; read a screen section
/// from a drive (its text goes to the screen) and then put the write
/// position back to (0, 1); write the dumped screen to a drive section; list
/// the ATA disks; list the PCI devices.
pub enum KeyAction {
    Nothing,
    ReadScreen { drive: u8, section: u32 },
    WriteScreen { drive: u8, section: u32, screen: Vec<u8> },
    ShowDisks,
    ShowPciDevices,
}

/// The abstract form of a `KeyAction`.
pub enum Act {
    Nothing,
    Read(u8, u32),
    Write(u8, u32, Seq<u8>),
    Disks,
    Pci,
}

/// `a` is the action `s` describes.
pub open spec fn action_is(a: KeyAction, s: Act) -> bool {
    match (a, s) {
        (KeyAction::Nothing, Act::Nothing) => true,
        (KeyAction::ReadScreen { drive, section }, Act::Read(d, sec)) => drive == d && section == sec,
        (KeyAction::WriteScreen { drive, section, screen }, Act::Write(d, sec, text)) => drive == d
            && section == sec && screen@ == text,
        (KeyAction::ShowDisks, Act::Disks) => true,
        (KeyAction::ShowPciDevices, Act::Pci) => true,
        _ => false,
    }
}

/// The state of the console, and the decoder of the keyboard it reads.
pub struct KeyConsole {
    pub alt: bool,
    pub task: Option<Task>,
    pub stage: u8,
    pub arg1: Vec<u8>,
    pub arg2: Vec<u8>,
    pub decoder: KeyDecoder,
}

/// The abstract state of the console: whether Alt was pressed, the command
/// being collected, which argument is being typed, and the two arguments'
/// digits.
pub struct ConsoleState {
    pub alt: bool,
    pub task: Option<Task>,
    pub stage: int,
    pub arg1: Seq<u8>,
    pub arg2: Seq<u8>,
}

impl View for KeyConsole {
    type V = ConsoleState;

    open spec fn view(&self) -> ConsoleState {
        ConsoleState {
            alt: self.alt,
            task: self.task,
            stage: self.stage as int,
            arg1: self.arg1@,
            arg2: self.arg2@,
        }
    }
}

/// The value of a string of decimal digits.
pub open spec fn dec_value(d: Seq<u8>) -> int
    decreases d.len(),
{
    if d.len() == 0 {
        0
    } else {
        dec_value(d.drop_last()) * 10 + (d.last() - 48)
    }
}

/// Every byte is an ASCII decimal digit.
pub open spec fn all_digits(d: Seq<u8>) -> bool {
    forall|i: int| 0 <= i < d.len() ==> 48 <= #[trigger] d[i] <= 57
}

proof fn lemma_dec_value_nonneg(d: Seq<u8>)
    requires
        all_digits(d),
    ensures
        dec_value(d) >= 0,
    decreases d.len(),
{
    if d.len() > 0 {
        assert(all_digits(d.drop_last()));
        lemma_dec_value_nonneg(d.drop_last());
    }
}

proof fn lemma_dec_value_prefix(d: Seq<u8>, i: int)
    requires
        all_digits(d),
        0 <= i <= d.len(),
    ensures
        dec_value(d.subrange(0, i)) <= dec_value(d),
    decreases d.len() - i,
{
    if i < d.len() {
        lemma_dec_value_prefix(d, i + 1);
        let p = d.subrange(0, i + 1);
        assert(p.drop_last() =~= d.subrange(0, i));
        assert(all_digits(d.subrange(0, i)));
        lemma_dec_value_nonneg(d.subrange(0, i));
    } else {
        assert(d.subrange(0, i) =~= d);
    }
}

/// Parses a string of decimal digits as a number no larger than `max`;
/// `None` when it is empty or its value is larger.
pub fn parse_decimal(digits: &Vec<u8>, max: u64) -> (r: Option<u64>)
    requires
        all_digits(digits@),
    ensures
        match r {
            Some(v) => digits@.len() > 0 && v == dec_value(digits@) && v <= max,
            None => digits@.len() == 0 || dec_value(digits@) > max,
        },
{
    if digits.len() == 0 {
        return None;
    }
    let mut v: u64 = 0;
    let mut i: usize = 0;
    while i < digits.len()
        invariant
            all_digits(digits@),
            i <= digits@.len(),
            v == dec_value(digits@.subrange(0, i as int)),
            v <= max,
        decreases digits@.len() - i,
    {
        let d = (digits[i] - 48) as u64;
        proof {
            assert(digits@.subrange(0, i + 1).drop_last() =~= digits@.subrange(0, i as int));
        }
        if d > max || v > (max - d) / 10 {
            proof {
                assert(v * 10 + d > max) by (nonlinear_arith)
                    requires
                        d > max || v > (max - d) / 10,
                        v >= 0,
                ;
                lemma_dec_value_prefix(digits@, i + 1);
            }
            return None;
        }
        proof {
            assert(v * 10 + d <= max) by (nonlinear_arith)
                requires
                    v <= (max - d) / 10,
                    d <= max,
            ;
        }
        v = v * 10 + d;
        i = i + 1;
    }
    assert(digits@.subrange(0, digits@.len() as int) =~= digits@);
    Some(v)
}

/// The attribute of a foreground colour on black.
pub open spec fn fg(c: Colour) -> ColourCode {
    ColourCode(colour_value(c))
}


/// Appends `bytes` to `v`.
fn append_bytes(v: &mut Vec<u8>, bytes: &[u8])
    ensures
        final(v)@ == old(v)@ + bytes@,
{
    let mut i: usize = 0;
    while i < bytes.len()
        invariant
            i <= bytes@.len(),
            v@ == old(v)@ + bytes@.subrange(0, i as int),
        decreases bytes@.len() - i,
    {
        v.push(bytes[i]);
        i = i + 1;
        proof {
            assert(v@ =~= old(v)@ + bytes@.subrange(0, i as int));
        }
    }
    assert(bytes@.subrange(0, bytes@.len() as int) =~= bytes@);
}

/// The UTF-8 encoding of a character.
pub open spec fn utf8(c: char) -> Seq<u8> {
    let v = c as u32 as int;
    if v < 0x80 {
        seq![v as u8]
    } else if v < 0x800 {
        seq![(0xC0 + v / 64) as u8, (0x80 + v % 64) as u8]
    } else if v < 0x10000 {
        seq![(0xE0 + v / 4096) as u8, (0x80 + (v / 64) % 64) as u8, (0x80 + v % 64) as u8]
    } else {
        seq![
            (0xF0 + v / 262144) as u8,
            (0x80 + (v / 4096) % 64) as u8,
            (0x80 + (v / 64) % 64) as u8,
            (0x80 + v % 64) as u8,
        ]
    }
}

/// Encodes a character in UTF-8.
pub fn encode_utf8(c: char) -> (b: Vec<u8>)
    ensures
        b@ == utf8(c),
{
    let v: u32 = c as u32;
    let mut b: Vec<u8> = Vec::new();
    if v < 0x80 {
        b.push(v as u8);
    } else if v < 0x800 {
        b.push((0xC0 + v / 64) as u8);
        b.push((0x80 + v % 64) as u8);
    } else if v < 0x10000 {
        b.push((0xE0 + v / 4096) as u8);
        b.push((0x80 + (v / 64) % 64) as u8);
        b.push((0x80 + v % 64) as u8);
    } else {
        b.push((0xF0 + v / 262144) as u8);
        b.push((0x80 + (v / 4096) % 64) as u8);
        b.push((0x80 + (v / 64) % 64) as u8);
        b.push((0x80 + v % 64) as u8);
    }
    assert(b@ =~= utf8(c));
    b
}

/// Writing a byte string the way `print!` does.
pub open spec fn st_print(w: ScreenState, bytes: Seq<u8>) -> ScreenState {
    st_update_cursor(st_write_bytes(w, bytes))
}

/// A decimal digit character.
pub open spec fn is_digit(c: char) -> bool {
    '0' <= c <= '9'
}

/// The effect of a key on an argument being typed on the status line: a
/// digit is appended, a backspace removes the last digit, Enter on a
/// non-empty argument finishes it (`true`); the status line then shows
/// `current`, the argument, and on Enter `success`. Other keys do nothing.
pub open spec fn arg_step(arg: Seq<u8>, key: DecodedKey, current: Seq<u8>, success: Seq<u8>, w: ScreenState) -> (
    Seq<u8>,
    ScreenState,
    bool,
) {
    match key {
        DecodedKey::Unicode(c) => if is_digit(c) {
            let a = arg.push(c as u8);
            (a, st_first_line(w, current + a, fg(Colour::Yellow)), false)
        } else if c == '\x08' {
            let a = if arg.len() == 0 { arg } else { arg.drop_last() };
            (a, st_first_line(w, current + a, fg(Colour::Yellow)), false)
        } else if c == '\n' && arg.len() != 0 {
            (arg, st_first_line(w, current + arg + success, fg(Colour::Yellow)), true)
        } else {
            (arg, w, false)
        },
        DecodedKey::RawKey(_) => (arg, w, false),
    }
}

/// The key finishes the argument: Enter on a non-empty argument.
pub open spec fn arg_done(arg: Seq<u8>, key: DecodedKey) -> bool {
    key matches DecodedKey::Unicode(c) && c == '\n' && arg.len() != 0
}

/// The status lines `arg_step` writes fit on the line.
pub open spec fn arg_step_ok(arg: Seq<u8>, key: DecodedKey, current: Seq<u8>, success: Seq<u8>) -> bool {
    match key {
        DecodedKey::Unicode(c) => if is_digit(c) {
            (current + arg.push(c as u8)).len() <= 80
        } else if c == '\x08' {
            (current + (if arg.len() == 0 { arg } else { arg.drop_last() })).len() <= 80
        } else if c == '\n' && arg.len() != 0 {
            (current + arg + success).len() <= 80
        } else {
            true
        },
        DecodedKey::RawKey(_) => true,
    }
}

/// Handles a key for an argument being typed (see `arg_step`).
fn handle_arg_int(arg: &mut Vec<u8>, key: &DecodedKey, current: &[u8], success: &[u8], writer: &mut Writer) -> (done: bool)
    requires
        old(writer).wf(),
        st_ok(old(writer)@),
        all_digits(old(arg)@),
        old(arg)@.len() <= 80,
        arg_step_ok(old(arg)@, *key, current@, success@),
    ensures
        final(writer).wf(),
        st_ok(final(writer)@),
        all_digits(final(arg)@),
        final(arg)@.len() <= 80,
        (final(arg)@, final(writer)@, done) == arg_step(old(arg)@, *key, current@, success@, old(writer)@),
{
    match key {
        DecodedKey::Unicode(num) => {
            let num = *num;
            if '0' <= num && num <= '9' {
                arg.push(num as u8);
                let mut line: Vec<u8> = Vec::new();
                append_bytes(&mut line, current);
                append_bytes(&mut line, arg.as_slice());
                writer.first_line_bytes(line.as_slice(), ColourCode::from_fg(Colour::Yellow));
                false
            } else if num == '\x08' {
                if arg.len() > 0 {
                    arg.pop();
                }
                let mut line: Vec<u8> = Vec::new();
                append_bytes(&mut line, current);
                append_bytes(&mut line, arg.as_slice());
                writer.first_line_bytes(line.as_slice(), ColourCode::from_fg(Colour::Yellow));
                false
            } else if num == '\n' && arg.len() != 0 {
                let mut line: Vec<u8> = Vec::new();
                append_bytes(&mut line, current);
                append_bytes(&mut line, arg.as_slice());
                append_bytes(&mut line, success);
                writer.first_line_bytes(line.as_slice(), ColourCode::from_fg(Colour::Yellow));
                true
            } else {
                false
            }
        },
        DecodedKey::RawKey(_) => false,
    }
}


/// The lengths of the status messages.
proof fn lemma_message_lengths()
    ensures
        "Alt: ".spec_bytes().len() == 5,
        "Alt: Read from disk: ".spec_bytes().len() == 21,
        "Alt: Write to disk: ".spec_bytes().len() == 20,
        "Alt: Change colour, fg: ".spec_bytes().len() == 24,
        "Success: displayed help :)".spec_bytes().len() == 26,
        "Success: cleared screen :)".spec_bytes().len() == 26,
        "Success: displayed all the ATA disks :)".spec_bytes().len() == 39,
        "Success: displayed all the PCI devices :)".spec_bytes().len() == 41,
        "Unknown Alt code :(".spec_bytes().len() == 19,
        "Failed to change colour, fg was greater than 15 :(".spec_bytes().len() == 50,
        "Failed to change colour, bg was greater than 15 :(".spec_bytes().len() == 50,
        "Successfully changed colour :)".spec_bytes().len() == 30,
        "Ready For Command: ".spec_bytes().len() == 19,
{
    reveal_strlit("Alt: ");
    vstd::string::is_ascii_spec_bytes("Alt: ");
    assert(vstd::string::is_ascii("Alt: "));
    reveal_strlit("Alt: Read from disk: ");
    vstd::string::is_ascii_spec_bytes("Alt: Read from disk: ");
    assert(vstd::string::is_ascii("Alt: Read from disk: "));
    reveal_strlit("Alt: Write to disk: ");
    vstd::string::is_ascii_spec_bytes("Alt: Write to disk: ");
    assert(vstd::string::is_ascii("Alt: Write to disk: "));
    reveal_strlit("Alt: Change colour, fg: ");
    vstd::string::is_ascii_spec_bytes("Alt: Change colour, fg: ");
    assert(vstd::string::is_ascii("Alt: Change colour, fg: "));
    reveal_strlit("Success: displayed help :)");
    vstd::string::is_ascii_spec_bytes("Success: displayed help :)");
    assert(vstd::string::is_ascii("Success: displayed help :)"));
    reveal_strlit("Success: cleared screen :)");
    vstd::string::is_ascii_spec_bytes("Success: cleared screen :)");
    assert(vstd::string::is_ascii("Success: cleared screen :)"));
    reveal_strlit("Success: displayed all the ATA disks :)");
    vstd::string::is_ascii_spec_bytes("Success: displayed all the ATA disks :)");
    assert(vstd::string::is_ascii("Success: displayed all the ATA disks :)"));
    reveal_strlit("Success: displayed all the PCI devices :)");
    vstd::string::is_ascii_spec_bytes("Success: displayed all the PCI devices :)");
    assert(vstd::string::is_ascii("Success: displayed all the PCI devices :)"));
    reveal_strlit("Unknown Alt code :(");
    vstd::string::is_ascii_spec_bytes("Unknown Alt code :(");
    assert(vstd::string::is_ascii("Unknown Alt code :("));
    reveal_strlit("Failed to change colour, fg was greater than 15 :(");
    vstd::string::is_ascii_spec_bytes("Failed to change colour, fg was greater than 15 :(");
    assert(vstd::string::is_ascii("Failed to change colour, fg was greater than 15 :("));
    reveal_strlit("Failed to change colour, bg was greater than 15 :(");
    vstd::string::is_ascii_spec_bytes("Failed to change colour, bg was greater than 15 :(");
    assert(vstd::string::is_ascii("Failed to change colour, bg was greater than 15 :("));
    reveal_strlit("Successfully changed colour :)");
    vstd::string::is_ascii_spec_bytes("Successfully changed colour :)");
    assert(vstd::string::is_ascii("Successfully changed colour :)"));
    reveal_strlit("Ready For Command: ");
    vstd::string::is_ascii_spec_bytes("Ready For Command: ");
    assert(vstd::string::is_ascii("Ready For Command: "));
}


/// The console after a command finished: no Alt, no command, empty
/// arguments.
pub open spec fn reset() -> ConsoleState {
    ConsoleState { alt: false, task: None, stage: 0, arg1: seq![], arg2: seq![] }
}

/// The status-line prefix of a command.
pub open spec fn task_prefix(t: Task) -> Seq<u8> {
    match t {
        Task::Read => "Alt: Read from disk: ".spec_bytes(),
        Task::Write => "Alt: Write to disk: ".spec_bytes(),
        Task::Colour => "Alt: Change colour, fg: ".spec_bytes(),
    }
}

/// What the status line shows between a command's two arguments.
pub open spec fn task_sep(t: Task) -> Seq<u8> {
    match t {
        Task::Read => ", section: ".spec_bytes(),
        Task::Write => ", section: ".spec_bytes(),
        Task::Colour => ", bg: ".spec_bytes(),
    }
}

/// The confirmation of a finished disk command.
pub open spec fn success_line(t: Task, arg1: Seq<u8>, arg2: Seq<u8>) -> Seq<u8> {
    let head = if t is Read {
        "Success read from disk: ".spec_bytes()
    } else {
        "Success wrote to disk: ".spec_bytes()
    };
    head + arg1 + ", section: ".spec_bytes() + arg2 + " :)".spec_bytes()
}

/// A key while a command collects its arguments. When the second argument
/// is finished: a read confirms, moves the position to (0, 1) and asks for
/// the read; a write confirms and asks for the screen text to be written; a
/// colour change either reports a number above 15 or confirms and switches
/// to the new colours, then blanks the screen and moves to (0, 1).
pub open spec fn task_step(c: ConsoleState, t: Task, key: DecodedKey, w: ScreenState) -> (
    ConsoleState,
    ScreenState,
    Act,
) {
    if c.stage == 0 {
        let (a, w1, done) = arg_step(c.arg1, key, task_prefix(t), task_sep(t), w);
        (ConsoleState { arg1: a, stage: if done { 1 } else { 0 }, ..c }, w1, Act::Nothing)
    } else {
        let (a, w1, done) = arg_step(c.arg2, key, task_prefix(t) + c.arg1 + task_sep(t), seq![], w);
        if !done {
            (ConsoleState { arg2: a, ..c }, w1, Act::Nothing)
        } else {
            match t {
                Task::Read => {
                    let w2 = st_first_line(w1, success_line(t, c.arg1, a), fg(Colour::Green));
                    (reset(), st_set_pos(w2, 0, 1), Act::Read(dec_value(c.arg1) as u8, dec_value(a) as u32))
                },
                Task::Write => {
                    let w2 = st_first_line(w1, success_line(t, c.arg1, a), fg(Colour::Green));
                    (reset(), w2, Act::Write(dec_value(c.arg1) as u8, dec_value(a) as u32, screen_text(w2.cells)))
                },
                Task::Colour => {
                    let f = dec_value(c.arg1);
                    let b = dec_value(a);
                    let w2 = if f > 15 {
                        st_first_line(w1, "Failed to change colour, fg was greater than 15 :(".spec_bytes(), fg(Colour::LightRed))
                    } else if b > 15 {
                        st_first_line(w1, "Failed to change colour, bg was greater than 15 :(".spec_bytes(), fg(Colour::LightRed))
                    } else {
                        let w3 = st_first_line(w1, "Successfully changed colour :)".spec_bytes(), fg(Colour::Green));
                        ScreenState { colour: ColourCode(attribute(f, b) as u8), ..w3 }
                    };
                    (reset(), st_set_pos(st_fill_screen(w2), 0, 1), Act::Nothing)
                },
            }
        }
    }
}

/// The key does not make the command panic: status lines fit and the
/// finished arguments are in range for the numbers they are read as (a
/// drive fits a `u8`, a section a `u32`, a colour a `usize`).
pub open spec fn task_step_ok(c: ConsoleState, t: Task, key: DecodedKey) -> bool {
    if c.stage == 0 {
        arg_step_ok(c.arg1, key, task_prefix(t), task_sep(t))
    } else {
        let cur = task_prefix(t) + c.arg1 + task_sep(t);
        &&& arg_step_ok(c.arg2, key, cur, seq![])
        &&& arg_done(c.arg2, key) ==> {
            let a = c.arg2;
            match t {
                Task::Read => success_line(t, c.arg1, a).len() <= 80 && dec_value(c.arg1) <= u8::MAX
                    && dec_value(a) <= u32::MAX,
                Task::Write => success_line(t, c.arg1, a).len() <= 80 && dec_value(c.arg1) <= u8::MAX
                    && dec_value(a) <= u32::MAX,
                Task::Colour => dec_value(c.arg1) <= usize::MAX && dec_value(a) <= usize::MAX,
            }
        }
    }
}

/// The help text.
pub open spec fn help_text() -> Seq<u8> {
    "Alt key HELP \n\nr: Read from disk\nw: Write to disk\nd: Show disks\np: List out PCI devices\nx: Clear screen\nc: Change display colour\n".spec_bytes()
}

/// The list of colour numbers.
pub open spec fn colour_list() -> Seq<u8> {
    "Colour options...\n0: Black\n1: Blue\n2: Green\n3: Cyan\n4: Red\n5: Magenta\n6: Brown\n7: LightGray\n8: DarkGray\n9: LightBlue\n10: LightGreen\n11: LightCyan\n12: LightRed\n13: Pink\n14: Yellow\n15: White\n".spec_bytes()
}

/// A key after Alt, before a command is chosen.
pub open spec fn menu_step(c: ConsoleState, key: DecodedKey, w: ScreenState) -> (ConsoleState, ScreenState, Act) {
    let green = fg(Colour::Green);
    let yellow = fg(Colour::Yellow);
    let unknown = (
        ConsoleState { alt: false, ..c },
        st_first_line(w, "Unknown Alt code :(".spec_bytes(), fg(Colour::LightRed)),
        Act::Nothing,
    );
    match key {
        DecodedKey::Unicode(ch) => if ch == 'h' {
            let w1 = st_first_line(w, "Success: displayed help :)".spec_bytes(), green);
            (ConsoleState { alt: false, ..c }, st_print(st_set_pos(st_fill_screen(w1), 0, 1), help_text()), Act::Nothing)
        } else if ch == 'r' {
            (ConsoleState { task: Some(Task::Read), ..c }, st_first_line(w, "Alt: Read from disk: ".spec_bytes(), yellow), Act::Nothing)
        } else if ch == 'w' {
            (ConsoleState { task: Some(Task::Write), ..c }, st_first_line(w, "Alt: Write to disk: ".spec_bytes(), yellow), Act::Nothing)
        } else if ch == 'x' {
            let w1 = st_first_line(st_fill_screen(w), "Success: cleared screen :)".spec_bytes(), green);
            (ConsoleState { alt: false, ..c }, st_set_pos(w1, 0, 1), Act::Nothing)
        } else if ch == 'c' {
            let w1 = st_fill_screen(st_first_line(w, "Alt: Change colour, fg: ".spec_bytes(), yellow));
            (ConsoleState { task: Some(Task::Colour), ..c }, st_print(st_set_pos(w1, 0, 1), colour_list()), Act::Nothing)
        } else if ch == 'd' {
            let w1 = st_first_line(st_fill_screen(w), "Success: displayed all the ATA disks :)".spec_bytes(), green);
            (ConsoleState { alt: false, ..c }, st_print(st_set_pos(w1, 0, 1), "ATA Disks found...\n\n".spec_bytes()), Act::Disks)
        } else if ch == 'p' {
            let w1 = st_first_line(st_fill_screen(w), "Success: displayed all the PCI devices :)".spec_bytes(), green);
            (ConsoleState { alt: false, ..c }, st_print(st_set_pos(w1, 0, 1), "PCI Devices...\n\n".spec_bytes()), Act::Pci)
        } else {
            unknown
        },
        DecodedKey::RawKey(_) => unknown,
    }
}

/// A key without Alt: characters are echoed, Alt starts a command, arrows
/// move the write position within the screen (not onto the status line),
/// other keys print their name.
pub open spec fn plain_step(c: ConsoleState, key: DecodedKey, w: ScreenState) -> (ConsoleState, ScreenState, Act) {
    match key {
        DecodedKey::Unicode(ch) => (c, st_print(w, utf8(ch)), Act::Nothing),
        DecodedKey::RawKey(code) => match code {
            KeyCode::AltLeft => (ConsoleState { alt: true, ..c }, st_first_line(w, "Alt: ".spec_bytes(), fg(Colour::Yellow)), Act::Nothing),
            KeyCode::AltRight => (ConsoleState { alt: true, ..c }, st_first_line(w, "Alt: ".spec_bytes(), fg(Colour::Yellow)), Act::Nothing),
            KeyCode::ArrowDown => (c, if w.y + 1 < 25 { st_set_pos(w, w.x, w.y + 1) } else { w }, Act::Nothing),
            KeyCode::ArrowUp => (c, if w.y > 1 { st_set_pos(w, w.x, w.y - 1) } else { w }, Act::Nothing),
            KeyCode::ArrowLeft => (c, if w.x > 0 { st_set_pos(w, w.x - 1, w.y) } else { w }, Act::Nothing),
            KeyCode::ArrowRight => (c, if w.x + 1 < 80 { st_set_pos(w, w.x + 1, w.y) } else { w }, Act::Nothing),
            KeyCode::Other(name) => (c, st_print(w, name@), Act::Nothing),
        },
    }
}

/// The effect of a key on the console and the screen, and what is left for
/// the caller to do.
pub open spec fn console_step(c: ConsoleState, key: DecodedKey, w: ScreenState) -> (ConsoleState, ScreenState, Act) {
    if c.alt {
        match c.task {
            Some(t) => task_step(c, t, key, w),
            None => menu_step(c, key, w),
        }
    } else {
        plain_step(c, key, w)
    }
}

/// The key can be handled without a panic.
pub open spec fn console_step_ok(c: ConsoleState, key: DecodedKey, w: ScreenState) -> bool {
    if c.alt {
        match c.task {
            Some(t) => task_step_ok(c, t, key),
            None => true,
        }
    } else {
        match key {
            DecodedKey::RawKey(KeyCode::ArrowDown) => w.y + 1 < 25 ==> (w.y + 1) * 80 + w.x <= usize::MAX,
            DecodedKey::RawKey(KeyCode::ArrowRight) => w.x < usize::MAX,
            _ => true,
        }
    }
}


impl KeyConsole {
    /// The arguments hold digits only, and the second one is typed only
    /// after the first one was finished.
    pub open spec fn wf(&self) -> bool {
        &&& all_digits(self.arg1@)
        &&& all_digits(self.arg2@)
        &&& self.stage <= 1
        &&& self.stage == 1 ==> self.arg1@.len() > 0
        &&& self.arg1@.len() <= 80
        &&& self.arg2@.len() <= 80
    }

    /// Starts the console: announces it and shows the command prompt on the
    /// status line.
    pub fn new(writer: &mut Writer) -> (c: KeyConsole)
        requires
            old(writer).wf(),
            st_ok(old(writer)@),
        ensures
            c.wf(),
            c@ == reset(),
            c.decoder.fed() == Seq::<u8>::empty(),
            final(writer).wf(),
            st_ok(final(writer)@),
            final(writer)@ == st_first_line(
                st_print(old(writer)@, "Starting keyboard handler...\n".spec_bytes()),
                "Ready For Command: ".spec_bytes(),
                fg(Colour::Green),
            ),
    {
        writer.write_str("Starting keyboard handler...\n");
        proof {
            lemma_message_lengths();
        }
        writer.write_first_line("Ready For Command: ", ColourCode::from_fg(Colour::Green));
        let c = KeyConsole { alt: false, task: None, stage: 0, arg1: Vec::new(), arg2: Vec::new(), decoder: KeyDecoder::new() };
        assert(c@.arg1 =~= seq![]);
        assert(c@.arg2 =~= seq![]);
        c
    }

    fn reset_state(&mut self)
        ensures
            final(self).decoder == old(self).decoder,
            final(self)@ == reset(),
            final(self).wf(),
    {
        self.stage = 0;
        self.task = None;
        self.alt = false;
        self.arg1.clear();
        self.arg2.clear();
        assert(self@.arg1 =~= seq![]);
        assert(self@.arg2 =~= seq![]);
    }

    /// Handles a key while a command collects its arguments.
    fn task_key(&mut self, t: Task, key: DecodedKey, writer: &mut Writer) -> (a: KeyAction)
        requires
            old(self).wf(),
            old(writer).wf(),
            st_ok(old(writer)@),
            task_step_ok(old(self)@, t, key),
        ensures
            final(self).decoder == old(self).decoder,
            final(self).wf(),
            final(writer).wf(),
            st_ok(final(writer)@),
            final(self)@ == task_step(old(self)@, t, key, old(writer)@).0,
            final(writer)@ == task_step(old(self)@, t, key, old(writer)@).1,
            action_is(a, task_step(old(self)@, t, key, old(writer)@).2),
    {
        proof {
            lemma_message_lengths();
        }
        let prefix: &[u8] = match t {
            Task::Read => "Alt: Read from disk: ".as_bytes(),
            Task::Write => "Alt: Write to disk: ".as_bytes(),
            Task::Colour => "Alt: Change colour, fg: ".as_bytes(),
        };
        let sep: &[u8] = match t {
            Task::Read => ", section: ".as_bytes(),
            Task::Write => ", section: ".as_bytes(),
            Task::Colour => ", bg: ".as_bytes(),
        };
        if self.stage == 0 {
            let done = handle_arg_int(&mut self.arg1, &key, prefix, sep, writer);
            if done {
                self.stage = 1;
            }
            return KeyAction::Nothing;
        }
        let mut current: Vec<u8> = Vec::new();
        append_bytes(&mut current, prefix);
        append_bytes(&mut current, self.arg1.as_slice());
        append_bytes(&mut current, sep);
        let empty: Vec<u8> = Vec::new();
        let done = handle_arg_int(&mut self.arg2, &key, current.as_slice(), empty.as_slice(), writer);
        assert(current@ + empty@ =~= current@);
        if !done {
            return KeyAction::Nothing;
        }
        match t {
            Task::Read | Task::Write => {
                let mut line: Vec<u8> = Vec::new();
                match t {
                    Task::Read => append_bytes(&mut line, "Success read from disk: ".as_bytes()),
                    _ => append_bytes(&mut line, "Success wrote to disk: ".as_bytes()),
                }
                append_bytes(&mut line, self.arg1.as_slice());
                append_bytes(&mut line, ", section: ".as_bytes());
                append_bytes(&mut line, self.arg2.as_slice());
                append_bytes(&mut line, " :)".as_bytes());
                writer.first_line_bytes(line.as_slice(), ColourCode::from_fg(Colour::Green));
                let drive = parse_decimal(&self.arg1, 255).unwrap();
                let section = parse_decimal(&self.arg2, 0xFFFF_FFFF).unwrap();
                match t {
                    Task::Read => {
                        writer.set_pos(0, 1);
                        self.reset_state();
                        KeyAction::ReadScreen { drive: drive as u8, section: section as u32 }
                    },
                    _ => {
                        let screen = writer.dump_screen();
                        self.reset_state();
                        KeyAction::WriteScreen { drive: drive as u8, section: section as u32, screen }
                    },
                }
            },
            Task::Colour => {
                let f = parse_decimal(&self.arg1, usize::MAX as u64).unwrap();
                let b = parse_decimal(&self.arg2, usize::MAX as u64).unwrap();
                if f > 15 {
                    writer.write_first_line(
                        "Failed to change colour, fg was greater than 15 :(",
                        ColourCode::from_fg(Colour::LightRed),
                    );
                } else if b > 15 {
                    writer.write_first_line(
                        "Failed to change colour, bg was greater than 15 :(",
                        ColourCode::from_fg(Colour::LightRed),
                    );
                } else {
                    writer.write_first_line("Successfully changed colour :)", ColourCode::from_fg(Colour::Green));
                    let new_colour = ColourCode::from_u8(f as u8, b as u8);
                    writer.set_colour(new_colour);
                }
                writer.fill_screen();
                writer.set_pos(0, 1);
                self.reset_state();
                KeyAction::Nothing
            },
        }
    }

    /// Handles a key after Alt, before a command is chosen.
    fn menu_key(&mut self, key: DecodedKey, writer: &mut Writer) -> (a: KeyAction)
        requires
            old(self).wf(),
            old(writer).wf(),
            st_ok(old(writer)@),
        ensures
            final(self).decoder == old(self).decoder,
            final(self).wf(),
            final(writer).wf(),
            st_ok(final(writer)@),
            final(self)@ == menu_step(old(self)@, key, old(writer)@).0,
            final(writer)@ == menu_step(old(self)@, key, old(writer)@).1,
            action_is(a, menu_step(old(self)@, key, old(writer)@).2),
    {
        proof {
            lemma_message_lengths();
        }
        let green = ColourCode::from_fg(Colour::Green);
        let yellow = ColourCode::from_fg(Colour::Yellow);
        let ch = match key {
            DecodedKey::Unicode(ch) => ch,
            DecodedKey::RawKey(_) => '\0',
        };
        if ch == 'h' {
            writer.write_first_line("Success: displayed help :)", green);
            writer.fill_screen();
            writer.set_pos(0, 1);
            writer.write_str(
                "Alt key HELP \n\nr: Read from disk\nw: Write to disk\nd: Show disks\np: List out PCI devices\nx: Clear screen\nc: Change display colour\n",
            );
            self.alt = false;
            KeyAction::Nothing
        } else if ch == 'r' {
            writer.write_first_line("Alt: Read from disk: ", yellow);
            self.task = Some(Task::Read);
            KeyAction::Nothing
        } else if ch == 'w' {
            writer.write_first_line("Alt: Write to disk: ", yellow);
            self.task = Some(Task::Write);
            KeyAction::Nothing
        } else if ch == 'x' {
            writer.fill_screen();
            writer.write_first_line("Success: cleared screen :)", green);
            writer.set_pos(0, 1);
            self.alt = false;
            KeyAction::Nothing
        } else if ch == 'c' {
            writer.write_first_line("Alt: Change colour, fg: ", yellow);
            writer.fill_screen();
            writer.set_pos(0, 1);
            writer.write_str(
                "Colour options...\n0: Black\n1: Blue\n2: Green\n3: Cyan\n4: Red\n5: Magenta\n6: Brown\n7: LightGray\n8: DarkGray\n9: LightBlue\n10: LightGreen\n11: LightCyan\n12: LightRed\n13: Pink\n14: Yellow\n15: White\n",
            );
            self.task = Some(Task::Colour);
            KeyAction::Nothing
        } else if ch == 'd' {
            writer.fill_screen();
            writer.write_first_line("Success: displayed all the ATA disks :)", green);
            writer.set_pos(0, 1);
            writer.write_str("ATA Disks found...\n\n");
            self.alt = false;
            KeyAction::ShowDisks
        } else if ch == 'p' {
            writer.fill_screen();
            writer.write_first_line("Success: displayed all the PCI devices :)", green);
            writer.set_pos(0, 1);
            writer.write_str("PCI Devices...\n\n");
            self.alt = false;
            KeyAction::ShowPciDevices
        } else {
            writer.write_first_line("Unknown Alt code :(", ColourCode::from_fg(Colour::LightRed));
            self.alt = false;
            KeyAction::Nothing
        }
    }

    /// Handles a key without Alt.
    fn plain_key(&mut self, key: DecodedKey, writer: &mut Writer) -> (a: KeyAction)
        requires
            old(self).wf(),
            old(writer).wf(),
            st_ok(old(writer)@),
            console_step_ok(old(self)@, key, old(writer)@),
            !old(self).alt,
        ensures
            final(self).decoder == old(self).decoder,
            final(self).wf(),
            final(writer).wf(),
            st_ok(final(writer)@),
            final(self)@ == plain_step(old(self)@, key, old(writer)@).0,
            final(writer)@ == plain_step(old(self)@, key, old(writer)@).1,
            action_is(a, plain_step(old(self)@, key, old(writer)@).2),
    {
        proof {
            lemma_message_lengths();
        }
        match key {
            DecodedKey::Unicode(character) => {
                let bytes = encode_utf8(character);
                writer.print_bytes(bytes.as_slice());
            },
            DecodedKey::RawKey(code) => match code {
                KeyCode::AltLeft | KeyCode::AltRight => {
                    self.alt = true;
                    writer.write_first_line("Alt: ", ColourCode::from_fg(Colour::Yellow));
                },
                KeyCode::ArrowDown => {
                    let (x, y) = writer.get_pos();
                    if (y + 1) < BUFFER_HEIGHT {
                        writer.set_pos(x, y + 1);
                    }
                },
                KeyCode::ArrowUp => {
                    let (x, y) = writer.get_pos();
                    if y > 1 {
                        writer.set_pos(x, y - 1);
                    }
                },
                KeyCode::ArrowLeft => {
                    let (x, y) = writer.get_pos();
                    if x > 0 {
                        writer.set_pos(x - 1, y);
                    }
                },
                KeyCode::ArrowRight => {
                    let (x, y) = writer.get_pos();
                    if (x + 1) < BUFFER_WIDTH {
                        writer.set_pos(x + 1, y);
                    }
                },
                KeyCode::Other(name) => {
                    writer.print_bytes(name.as_slice());
                },
            },
        }
        KeyAction::Nothing
    }

    /// Handles one key press (see `console_step`).
    pub fn handle_key(&mut self, key: DecodedKey, writer: &mut Writer) -> (a: KeyAction)
        requires
            old(self).wf(),
            old(writer).wf(),
            st_ok(old(writer)@),
            console_step_ok(old(self)@, key, old(writer)@),
        ensures
            final(self).decoder == old(self).decoder,
            final(self).wf(),
            final(writer).wf(),
            st_ok(final(writer)@),
            final(self)@ == console_step(old(self)@, key, old(writer)@).0,
            final(writer)@ == console_step(old(self)@, key, old(writer)@).1,
            action_is(a, console_step(old(self)@, key, old(writer)@).2),
    {
        if self.alt {
            match self.task {
                Some(t) => self.task_key(t, key, writer),
                None => self.menu_key(key, writer),
            }
        } else {
            self.plain_key(key, writer)
        }
    }
}


/// Whether `arg_step_ok` holds, computed.
fn arg_key_ok(arg: &Vec<u8>, key: &DecodedKey, current_len: usize, success_len: usize) -> (ok: bool)
    requires
        current_len + success_len + arg@.len() + 1 <= usize::MAX,
    ensures
        forall|current: Seq<u8>, success: Seq<u8>|
            current.len() == current_len && success.len() == success_len ==> (ok == arg_step_ok(
                arg@,
                *key,
                current,
                success,
            )),
{
    match key {
        DecodedKey::Unicode(c) => {
            let c = *c;
            if '0' <= c && c <= '9' {
                current_len + arg.len() + 1 <= 80
            } else if c == '\x08' {
                if arg.len() == 0 {
                    current_len <= 80
                } else {
                    current_len + arg.len() - 1 <= 80
                }
            } else if c == '\n' && arg.len() != 0 {
                current_len + arg.len() + success_len <= 80
            } else {
                true
            }
        },
        DecodedKey::RawKey(_) => true,
    }
}

impl KeyConsole {
    /// Whether `handle_key` can take this key without a panic (see
    /// `console_step_ok`); a caller checks this before handing the key on.
    pub fn key_ok(&self, key: &DecodedKey, writer: &Writer) -> (ok: bool)
        requires
            self.wf(),
        ensures
            ok == console_step_ok(self@, *key, writer@),
    {
        if self.alt {
            match self.task {
                Some(t) => {
                    let prefix: &[u8] = match t {
                        Task::Read => "Alt: Read from disk: ".as_bytes(),
                        Task::Write => "Alt: Write to disk: ".as_bytes(),
                        Task::Colour => "Alt: Change colour, fg: ".as_bytes(),
                    };
                    let sep: &[u8] = match t {
                        Task::Read => ", section: ".as_bytes(),
                        Task::Write => ", section: ".as_bytes(),
                        Task::Colour => ", bg: ".as_bytes(),
                    };
                    proof {
                        lemma_message_lengths();
                        reveal_strlit(", section: ");
                        vstd::string::is_ascii_spec_bytes(", section: ");
                        assert(vstd::string::is_ascii(", section: "));
                        reveal_strlit(", bg: ");
                        vstd::string::is_ascii_spec_bytes(", bg: ");
                        assert(vstd::string::is_ascii(", bg: "));
                    }
                    if self.stage == 0 {
                        return arg_key_ok(&self.arg1, key, prefix.len(), sep.len());
                    }
                    let cur_len = prefix.len() + self.arg1.len() + sep.len();
                    if !arg_key_ok(&self.arg2, key, cur_len, 0) {
                        return false;
                    }
                    let done = match key {
                        DecodedKey::Unicode(c) => *c == '\n' && self.arg2.len() != 0,
                        DecodedKey::RawKey(_) => false,
                    };
                    if !done {
                        return true;
                    }
                    match t {
                        Task::Colour => {
                            parse_decimal(&self.arg1, usize::MAX as u64).is_some() && parse_decimal(
                                &self.arg2,
                                usize::MAX as u64,
                            ).is_some()
                        },
                        _ => {
                            proof {
                                lemma_success_lengths();
                            }
                            let head: usize = match t {
                                Task::Read => 38,
                                _ => 37,
                            };
                            let line_len = self.arg1.len() + self.arg2.len() + head;
                            line_len <= 80 && parse_decimal(&self.arg1, 255).is_some()
                                && parse_decimal(&self.arg2, 0xFFFF_FFFF).is_some()
                        },
                    }
                },
                None => true,
            }
        } else {
            match key {
                DecodedKey::RawKey(KeyCode::ArrowDown) => {
                    let (x, y) = writer.get_pos();
                    y >= 24 || (y + 1 <= usize::MAX / 80 && x <= usize::MAX - (y + 1) * 80)
                },
                DecodedKey::RawKey(KeyCode::ArrowRight) => writer.pos.x < usize::MAX,
                _ => true,
            }
        }
    }
}

proof fn lemma_success_lengths()
    ensures
        "Success read from disk: ".spec_bytes().len() == 24,
        "Success wrote to disk: ".spec_bytes().len() == 23,
        ", section: ".spec_bytes().len() == 11,
        " :)".spec_bytes().len() == 3,
        forall|a: Seq<u8>, b: Seq<u8>| #[trigger] success_line(Task::Read, a, b).len() == a.len() + b.len() + 38,
        forall|a: Seq<u8>, b: Seq<u8>| #[trigger] success_line(Task::Write, a, b).len() == a.len() + b.len() + 37,
{
    reveal_strlit("Success read from disk: ");
    vstd::string::is_ascii_spec_bytes("Success read from disk: ");
    assert(vstd::string::is_ascii("Success read from disk: "));
    reveal_strlit("Success wrote to disk: ");
    vstd::string::is_ascii_spec_bytes("Success wrote to disk: ");
    assert(vstd::string::is_ascii("Success wrote to disk: "));
    reveal_strlit(", section: ");
    vstd::string::is_ascii_spec_bytes(", section: ");
    assert(vstd::string::is_ascii(", section: "));
    reveal_strlit(" :)");
    vstd::string::is_ascii_spec_bytes(" :)");
    assert(vstd::string::is_ascii(" :)"));
}

/// Typing a digit and then a backspace leaves the argument as it was.
pub proof fn law_digit_then_backspace(arg: Seq<u8>, c: char, current: Seq<u8>, success: Seq<u8>, w: ScreenState)
    requires
        is_digit(c),
    ensures
        ({
            let (a1, w1, d1) = arg_step(arg, DecodedKey::Unicode(c), current, success, w);
            let (a2, w2, d2) = arg_step(a1, DecodedKey::Unicode('\x08'), current, success, w1);
            a2 == arg && !d1 && !d2 && w2 == st_first_line(w1, current + arg, fg(Colour::Yellow))
        }),
{
    let a1 = arg.push(c as u8);
    assert(a1.drop_last() =~= arg);
}

} // verus!
