use modal_edit::actions::Action;
use modal_edit::actions::delete::{delete_end, delete_line, delete_motion};
use modal_edit::buffer::{Buffer, Position, Register};
use modal_edit::motion::Motion;

fn lorem() -> String {
    [
        "Lorem ipsum odor amet, ",
        "consectetuer adipiscing elit. ",
        "Ridiculus nulla consectetur proin purus ad justo nullam. ",
        "Mauris vitae semper varius eros morbi.",
        "porta.metus",
        "",
        "nulla",
    ]
    .join("\n")
}

fn line(buf: &Buffer, row: usize) -> String {
    buf.content[row].iter().collect()
}

#[test]
fn check_executed() {
    let mut buf = Buffer::test(&lorem());
    let mut reg = Register::new();

    Action::new(&['d', '$']).unwrap().execute(&mut buf, &mut reg);
    assert_eq!(line(&buf, 0), String::new());
}

#[test]
fn creates_multiple_char_action() {
    let action = Action::new(&['d', 'd']);
    assert_eq!(action, Some(Action::DeleteLine));
}

#[test]
fn test_delete_motion() {
    let mut buf = Buffer::test(&lorem());
    let mut reg = Register::new();

    delete_motion(&mut buf, &mut reg, Motion::LineEnd);
    assert_eq!(line(&buf, 0), String::new());
    assert_eq!(
        reg.get_default(),
        String::from("Lorem ipsum odor amet, ")
    );

    buf.cursor = Position { row: 1, col: 0 };
    delete_motion(&mut buf, &mut reg, Motion::StartWord);
    assert_eq!(line(&buf, 1), String::from("adipiscing elit. "));
    assert_eq!(reg.get_default(), String::from("consectetuer "));

    buf.cursor = Position { row: 3, col: 13 };
    delete_motion(&mut buf, &mut reg, Motion::PrevWordStart);
    assert_eq!(line(&buf, 3), String::from("Mauris semper varius eros morbi."));
    assert_eq!(reg.get_default(), String::from("vitae "));

    assert_eq!(buf.content.len(), 7);

    buf.cursor = Position { row: 2, col: 0 };
    delete_motion(&mut buf, &mut reg, Motion::Down);

    assert_eq!(buf.content.len(), 5);
    assert_eq!(
        reg.get_default(),
        String::from(
            "\nRidiculus nulla consectetur proin purus ad justo nullam. \nMauris semper varius eros morbi.\n",
        )
    );
}

#[test]
fn test_delete_line() {
    let mut buf = Buffer::test(&lorem());
    let mut reg = Register::new();

    delete_line(&mut buf, &mut reg);
    assert_eq!(buf.content.len(), 6);
    assert_eq!(line(&buf, 0), String::from("consectetuer adipiscing elit. "));
    assert_eq!(
        reg.get_default(),
        String::from("\nLorem ipsum odor amet, \n")
    );

    buf.cursor.row = buf.content.len() - 1;
    delete_line(&mut buf, &mut reg);
    assert_eq!(buf.content.len(), 5);
    assert_eq!(buf.cursor.row, 4);
    assert_eq!(reg.get_default(), String::from("\nnulla\n"));
}

#[test]
fn test_delete_end() {
    let mut buf = Buffer::test(&lorem());
    let mut reg = Register::new();

    delete_end(&mut buf, &mut reg);
    assert_eq!(line(&buf, 0), String::new());

    buf.cursor = Position { row: 1, col: 13 };
    delete_end(&mut buf, &mut reg);
    assert_eq!(line(&buf, 1), String::from("consectetuer "));
    assert_eq!(
        reg.get_default(),
        String::from("adipiscing elit. ")
    )
}

#[test]
fn delete_to_line_end_writes_register() {
    let mut buf = Buffer::test("abc def\nghi");
    let mut reg = Register::new();

    delete_motion(&mut buf, &mut reg, Motion::LineEnd);
    assert_eq!(line(&buf, 0), "");
    assert_eq!(reg.get_default(), "abc def");
    assert_eq!(buf.cursor, Position { row: 0, col: 0 });
}

#[test]
fn delete_line_never_empties_the_buffer() {
    let mut buf = Buffer::test("abc\ndef\nghi");
    let mut reg = Register::new();

    delete_line(&mut buf, &mut reg);
    delete_line(&mut buf, &mut reg);
    assert_eq!(buf.content.len(), 1);
    assert_eq!(line(&buf, 0), "ghi");
    assert_eq!(buf.cursor.row, 0);

    delete_line(&mut buf, &mut reg);
    assert_eq!(buf.content.len(), 1);
    assert_eq!(line(&buf, 0), "");
}

#[test]
fn same_row_delete_round_trips() {
    let mut buf = Buffer::test("abc def");
    let mut reg = Register::new();

    delete_motion(&mut buf, &mut reg, Motion::WordEnd);
    assert_eq!(line(&buf, 0), " def");
    assert_eq!(reg.get_default(), "abc");
    assert_eq!(buf.cursor, Position { row: 0, col: 0 });

    let col = buf.cursor.col;
    let restored: String = {
        let rest: String = line(&buf, 0);
        let mut s = String::new();
        s.push_str(&rest[..col]);
        s.push_str(&reg.get_default());
        s.push_str(&rest[col..]);
        s
    };
    assert_eq!(restored, "abc def");
}

#[test]
fn change_enters_insert_mode() {
    let mut buf = Buffer::test("abc def");
    let mut reg = Register::new();

    Action::new(&['c', 'w']).unwrap().execute(&mut buf, &mut reg);
    assert_eq!(line(&buf, 0), "def");
    assert_eq!(reg.get_default(), "abc ");
    assert!(matches!(buf.mode, modal_edit::mode::Mode::Insert));
}

#[test]
fn delete_end_resolves_from_single_key() {
    let action = Action::new(&['D']);
    assert_eq!(action, Some(Action::DeleteEnd));
    assert_eq!(Action::new(&['q']), None);
    assert_eq!(Action::new(&['d', 'q']), None);
}
