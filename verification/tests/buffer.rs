use modal_edit::app::App;
use modal_edit::buffer::{Buffer, Position, Register};
use modal_edit::mode::{Key, Mode};

fn line(buf: &Buffer, row: usize) -> String {
    buf.content[row].iter().collect()
}

#[test]
fn register_set_and_get() {
    let mut reg = Register::new();
    assert_eq!(reg.get('a'), "");

    assert_eq!(reg.set('a', String::from("one")), None);
    assert_eq!(reg.get('a'), "one");

    let prev = reg.set('a', String::from("two"));
    assert_eq!(prev, Some(String::from("one")));
    assert_eq!(reg.get('a'), "two");

    assert_eq!(reg.set_default(String::from("yanked")), None);
    assert_eq!(reg.get_default(), "yanked");
    assert_eq!(reg.get('a'), "two");
}

#[test]
fn session_register_is_shared() {
    let mut app = App::new(String::from("notes.txt"), "abc\ndef");

    app.handle_keys(Key::Char('d'), 0);
    app.handle_keys(Key::Char('d'), 0);

    assert_eq!(app.register.get_default(), "\nabc\n");
    assert_eq!(app.buffers[0].content.len(), 1);

    app.handle_keys(Key::Char('x'), 0);
    assert_eq!(app.register.get_default(), "\nabc\n");
}

#[test]
fn load_splits_lines() {
    let buf = Buffer::test("abc\ndef");
    assert_eq!(buf.content.len(), 2);
    assert_eq!(line(&buf, 0), "abc");
    assert_eq!(line(&buf, 1), "def");

    let empty = Buffer::test("");
    assert_eq!(empty.content.len(), 1);
    assert_eq!(line(&empty, 0), "");

    let trailing = Buffer::test("abc\n");
    assert_eq!(trailing.content.len(), 1);
    assert_eq!(line(&trailing, 0), "abc");

    let crlf = Buffer::test("abc\r\ndef\r\n");
    assert_eq!(crlf.content.len(), 2);
    assert_eq!(line(&crlf, 0), "abc");
    assert_eq!(line(&crlf, 1), "def");

    let blank_between = Buffer::test("a\n\nb");
    assert_eq!(blank_between.content.len(), 3);
    assert_eq!(line(&blank_between, 1), "");
}

#[test]
fn serialize_joins_lines() {
    let buf = Buffer::test("abc\ndef");
    assert_eq!(buf.serialize(), "abc\ndef");

    let empty = Buffer::test("");
    assert_eq!(empty.serialize(), "");
}

#[test]
fn buffer_new_records_filename() {
    let buf = Buffer::new(String::from("notes.txt"), "abc");
    assert_eq!(buf.filename, "notes.txt");
    assert_eq!(buf.mode, Mode::Normal);
    assert!(!buf.exit);
}

#[test]
fn message_reports_errors() {
    let mut buf = Buffer::test("");
    assert_eq!(buf.message().as_str(), "");
    assert!(!buf.message_error());

    buf.set_message(String::from("could not open the file"), true);
    assert_eq!(buf.message().as_str(), "could not open the file");
    assert!(buf.message_error());
}

#[test]
fn buffer_row_returns_line() {
    let buf = Buffer::test("abc\ndef");
    let row: String = buf.row(1).iter().collect();
    assert_eq!(row, "def");
}

#[test]
fn change_mode_clears_keys() {
    let mut buf = Buffer::test("abc");
    let mut reg = Register::new();
    buf.handle_keys(&mut reg, Key::Char('d'), 0);
    assert_eq!(buf.keys, vec!['d']);

    buf.change_mode(Mode::Insert);
    assert_eq!(buf.mode, Mode::Insert);
    assert!(buf.keys.is_empty());
}

#[test]
fn app_owns_one_buffer() {
    let mut app = App::new(String::from("notes.txt"), "abc\ndef");
    {
        let buf = app.get_active_buffer();
        assert_eq!(buf.content.len(), 2);
        assert_eq!(buf.filename, "notes.txt");
    }

    app.handle_keys(Key::Char('j'), 0);
    assert_eq!(app.buffers[0].cursor, Position { row: 1, col: 0 });
}
