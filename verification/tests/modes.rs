use modal_edit::buffer::{Buffer, Position, Register, IDLE_TIMEOUT_MS};
use modal_edit::event::Event;
use modal_edit::mode::{Key, Mode};
use modal_edit::motion::Motion;

fn lorem() -> String {
    [
        "Lorem ipsum odor amet, ",
        "consectetuer adipiscing elit. ",
        "Ridiculus nulla consectetur proin purus ad justo nullam. ",
        "Mauris vitae semper varius eros morbi.",
        "porta.metus",
        "",
        "nulla",
    ]
    .join("\n")
}

fn line(buf: &Buffer, row: usize) -> String {
    buf.content[row].iter().collect()
}

fn input_keys(buf: &mut Buffer, reg: &mut Register, text: &str) {
    for c in text.chars() {
        let now = buf.last_key_ms;
        buf.handle_keys(reg, Key::Char(c), now);
    }
}

#[test]
fn switch_to_insert() {
    let mut buf = Buffer::test(&lorem());
    let mut reg = Register::new();
    input_keys(&mut buf, &mut reg, "i");

    assert_eq!(buf.mode, Mode::Insert);
    assert_eq!(buf.cursor, Position { row: 0, col: 0 });

    buf.mode = Mode::Normal;
    input_keys(&mut buf, &mut reg, "a");

    assert_eq!(buf.mode, Mode::Insert);
    assert_eq!(buf.cursor, Position { row: 0, col: 1 });

    assert!(buf.keys.is_empty());
}

#[test]
fn switch_to_command() {
    let mut buf = Buffer::test("");
    let mut reg = Register::new();
    input_keys(&mut buf, &mut reg, ":");

    assert_eq!(buf.mode, Mode::Command);
    assert!(buf.keys.is_empty());
}

#[test]
fn motion_executed() {
    let mut buf = Buffer::test(&lorem());
    let mut reg = Register::new();
    input_keys(&mut buf, &mut reg, "h");

    assert_eq!(buf.events.len(), 1);
    assert!(buf.events.contains(&Event::Motion(Motion::Left)));
    assert!(buf.keys.is_empty());
}

#[test]
fn added_to_keys() {
    let mut buf = Buffer::test("");
    let mut reg = Register::new();
    input_keys(&mut buf, &mut reg, "d");

    assert_eq!(buf.keys, vec!['d']);
}

#[test]
fn deletes_char() {
    let mut buf = Buffer::test(&lorem());
    let mut reg = Register::new();
    buf.cursor = Position { row: 0, col: 4 };
    input_keys(&mut buf, &mut reg, "x");

    assert_eq!(line(&buf, 0), "Lore ipsum odor amet, ");
    assert_eq!(buf.cursor, Position { row: 0, col: 4 });

    buf.cursor = Position { row: 5, col: 0 };
    input_keys(&mut buf, &mut reg, "x");
    assert_eq!(line(&buf, 5), "");

    buf.cursor = Position { row: 0, col: 21 };
    input_keys(&mut buf, &mut reg, "x");
    assert_eq!(line(&buf, 0), "Lore ipsum odor amet,");
}

#[test]
fn command_exit() {
    let mut buf = Buffer::test("");
    let mut reg = Register::new();
    buf.mode = Mode::Command;

    input_keys(&mut buf, &mut reg, "q");
    buf.handle_keys(&mut reg, Key::Enter, 0);

    assert!(buf.exit);
}

#[test]
fn write_requested() {
    let mut buf = Buffer::test("abc");
    let mut reg = Register::new();
    buf.mode = Mode::Command;

    input_keys(&mut buf, &mut reg, "w");
    buf.handle_keys(&mut reg, Key::Enter, 0);

    assert!(buf.pending_write);
    assert!(!buf.exit);
    assert_eq!(buf.serialize(), "abc");
}

#[test]
fn write_and_exit_requested() {
    let mut buf = Buffer::test("abc");
    let mut reg = Register::new();
    buf.mode = Mode::Command;

    input_keys(&mut buf, &mut reg, "wq");
    buf.handle_keys(&mut reg, Key::Enter, 0);

    assert!(buf.pending_write);
    assert!(buf.exit);
}

#[test]
fn insert_exit() {
    let mut buf = Buffer::test("");
    let mut reg = Register::new();
    buf.mode = Mode::Insert;

    buf.handle_keys(&mut reg, Key::Esc, 0);
    assert_eq!(buf.mode, Mode::Normal);
}

#[test]
fn add_char() {
    let mut buf = Buffer::test("");
    let mut reg = Register::new();
    buf.mode = Mode::Insert;

    input_keys(&mut buf, &mut reg, "hi");
    assert_eq!(line(&buf, 0), "hi");
}

#[test]
fn pop_char() {
    let mut buf = Buffer::test("");
    let mut reg = Register::new();
    buf.mode = Mode::Insert;
    input_keys(&mut buf, &mut reg, "test");

    buf.handle_keys(&mut reg, Key::Backspace, 0);
    assert_eq!(line(&buf, 0), "tes");

    buf.handle_keys(&mut reg, Key::Enter, 0);
    input_keys(&mut buf, &mut reg, "test2");
    buf.cursor = Position { row: 1, col: 0 };
    buf.handle_keys(&mut reg, Key::Backspace, 0);
    assert_eq!(line(&buf, 0), "testest2");
}

#[test]
fn new_line() {
    let mut buf = Buffer::test("");
    let mut reg = Register::new();
    buf.mode = Mode::Insert;
    input_keys(&mut buf, &mut reg, "test");

    buf.handle_keys(&mut reg, Key::Enter, 0);
    input_keys(&mut buf, &mut reg, "test2");

    assert_eq!(buf.content.len(), 2);
    assert_eq!(line(&buf, 0), "test");
    assert_eq!(line(&buf, 1), "test2");
}

#[test]
fn create_multi_char_motions() {
    let motion = Motion::new(&['f', 'a']);
    assert_eq!(motion, Some(Motion::Find { char: 'a' }))
}

#[test]
fn idle_timeout_restarts_accumulation() {
    let mut buf = Buffer::test("abc\ndef");
    let mut reg = Register::new();

    buf.handle_keys(&mut reg, Key::Char('d'), 0);
    assert_eq!(buf.keys, vec!['d']);

    buf.handle_keys(&mut reg, Key::Char('d'), IDLE_TIMEOUT_MS + 1);
    assert_eq!(buf.keys, vec!['d']);
    assert_eq!(buf.content.len(), 2);

    let mut quick = Buffer::test("abc\ndef");
    let mut quick_reg = Register::new();
    quick.handle_keys(&mut quick_reg, Key::Char('d'), 0);
    quick.handle_keys(&mut quick_reg, Key::Char('d'), IDLE_TIMEOUT_MS);
    assert_eq!(quick.content.len(), 1);
    assert_eq!(line(&quick, 0), "def");
}

#[test]
fn delete_then_end_of_line_sequence() {
    let mut buf = Buffer::test("abc def\nghi");
    let mut reg = Register::new();
    input_keys(&mut buf, &mut reg, "d$");

    assert_eq!(line(&buf, 0), "");
    assert_eq!(reg.get_default(), "abc def");
    assert_eq!(buf.cursor, Position { row: 0, col: 0 });
}

#[test]
fn delete_line_twice_by_keys() {
    let mut buf = Buffer::test("abc\ndef\nghi");
    let mut reg = Register::new();
    input_keys(&mut buf, &mut reg, "dddd");

    assert_eq!(buf.content.len(), 1);
    assert_eq!(line(&buf, 0), "ghi");
    assert_eq!(buf.cursor.row, 0);
}

#[test]
fn escape_clears_pending_keys() {
    let mut buf = Buffer::test("abc");
    let mut reg = Register::new();
    input_keys(&mut buf, &mut reg, "d");
    assert_eq!(buf.keys, vec!['d']);

    buf.handle_keys(&mut reg, Key::Esc, 0);
    assert!(buf.keys.is_empty());
}

#[test]
fn command_backspace_edits_command_line() {
    let mut buf = Buffer::test("");
    let mut reg = Register::new();
    buf.mode = Mode::Command;
    input_keys(&mut buf, &mut reg, "wq");
    buf.handle_keys(&mut reg, Key::Backspace, 0);
    assert_eq!(buf.keys, vec!['w']);

    buf.handle_keys(&mut reg, Key::Backspace, 0);
    assert!(buf.keys.is_empty());
    assert_eq!(buf.mode, Mode::Command);

    buf.handle_keys(&mut reg, Key::Backspace, 0);
    assert_eq!(buf.mode, Mode::Normal);
}

#[test]
fn delete_through_find_motion() {
    let mut buf = Buffer::test("abc,def");
    let mut reg = Register::new();
    input_keys(&mut buf, &mut reg, "d");
    input_keys(&mut buf, &mut reg, "f");
    assert_eq!(buf.keys, vec!['d', 'f']);

    input_keys(&mut buf, &mut reg, ",");
    assert_eq!(line(&buf, 0), "def");
    assert_eq!(reg.get_default(), "abc,");
    assert!(buf.keys.is_empty());
}

#[test]
fn find_missing_char_is_a_no_op() {
    let mut buf = Buffer::test("abc def");
    let mut reg = Register::new();
    input_keys(&mut buf, &mut reg, "fz");
    assert_eq!(buf.cursor, Position { row: 0, col: 0 });

    input_keys(&mut buf, &mut reg, "fd");
    assert_eq!(buf.cursor, Position { row: 0, col: 4 });
}
