use modal_edit::buffer::{Buffer, Position};
use modal_edit::navigation::{
    down, end_line, find_char, find_prev_char, first_not_whitespace, last_not_whitespace, left,
    prev_word_start, right, start_line, up, word_end, word_start,
};

fn lorem() -> String {
    [
        "Lorem ipsum odor amet, ",
        "consectetuer adipiscing elit. ",
        "Ridiculus nulla consectetur proin purus ad justo nullam. ",
        "Mauris vitae semper varius eros morbi.",
        "porta.metus",
        "",
        "nulla",
    ]
    .join("\n")
}

fn chars(text: &str) -> Vec<char> {
    text.chars().collect()
}

#[test]
fn cursor_down() {
    let mut buf = Buffer::test(&lorem());
    assert_eq!(down(&buf), Position { row: 1, col: 0 });

    buf.cursor = Position { row: 2, col: 56 };
    assert_eq!(down(&buf), Position { row: 3, col: 37 });

    buf.cursor = Position { row: 6, col: 0 };
    assert_eq!(down(&buf), buf.cursor);
}

#[test]
fn cursor_up() {
    let mut buf = Buffer::test(&lorem());

    buf.cursor = Position { row: 1, col: 28 };
    assert_eq!(up(&buf), Position { row: 0, col: 22 });

    buf.cursor = Position { row: 0, col: 0 };
    assert_eq!(up(&buf), buf.cursor);
}

#[test]
fn cursor_left() {
    let mut buf = Buffer::test(&lorem());

    buf.cursor = Position { row: 0, col: 1 };
    assert_eq!(left(&buf), Position { row: 0, col: 0 });

    buf.cursor = Position { row: 1, col: 0 };
    assert_eq!(left(&buf), buf.cursor);
}

#[test]
fn cursor_right() {
    let mut buf = Buffer::test(&lorem());

    assert_eq!(right(&buf), Position { row: 0, col: 1 });

    buf.cursor = Position { row: 0, col: 22 };
    assert_eq!(right(&buf), buf.cursor);
}

#[test]
fn cursor_end() {
    let buf = Buffer::test(&lorem());

    assert_eq!(end_line(&buf), Position { row: 0, col: 22 });
}

#[test]
fn cursor_start() {
    let mut buf = Buffer::test(&lorem());
    buf.cursor = Position { row: 0, col: 15 };

    assert_eq!(start_line(&buf), Position { row: 0, col: 0 });
}

#[test]
fn cursor_word_end() {
    let mut buf = Buffer::test(&lorem());
    assert_eq!(word_end(&buf), Position { row: 0, col: 4 });

    buf.cursor = Position { row: 0, col: 17 };
    buf.cursor = word_end(&buf);
    assert_eq!(buf.cursor, Position { row: 0, col: 20 });

    buf.cursor = Position { row: 3, col: 36 };
    buf.cursor = word_end(&buf);
    assert_eq!(buf.cursor, Position { row: 3, col: 37 });
    assert_eq!(word_end(&buf), Position { row: 4, col: 4 });

    buf.cursor = Position { row: 4, col: 0 };
    buf.cursor = word_end(&buf);
    assert_eq!(buf.cursor, Position { row: 4, col: 4 });
    buf.cursor = word_end(&buf);
    assert_eq!(buf.cursor, Position { row: 4, col: 5 });
    buf.cursor = word_end(&buf);
    assert_eq!(buf.cursor, Position { row: 4, col: 10 });

    buf.cursor = Position { row: 4, col: 10 };
    assert_eq!(word_end(&buf), Position { row: 6, col: 4 })
}

#[test]
fn cursor_prev_word_start() {
    let mut buf = Buffer::test(&lorem());
    assert_eq!(prev_word_start(&buf), Position { row: 0, col: 0 });

    buf.cursor = Position { row: 0, col: 6 };
    assert_eq!(prev_word_start(&buf), Position { row: 0, col: 0 });

    buf.cursor = Position { row: 0, col: 14 };
    assert_eq!(prev_word_start(&buf), Position { row: 0, col: 12 });

    buf.cursor = Position { row: 1, col: 0 };
    assert_eq!(prev_word_start(&buf), Position { row: 0, col: 21 });

    buf.cursor = Position { row: 4, col: 10 };
    buf.cursor = prev_word_start(&buf);
    assert_eq!(buf.cursor, Position { row: 4, col: 6 });
    buf.cursor = prev_word_start(&buf);
    assert_eq!(buf.cursor, Position { row: 4, col: 5 });
    assert_eq!(prev_word_start(&buf), Position { row: 4, col: 0 });

    buf.cursor = Position { row: 6, col: 0 };
    buf.cursor = prev_word_start(&buf);
    assert_eq!(buf.cursor, Position { row: 5, col: 0 });
    assert_eq!(prev_word_start(&buf), Position { row: 4, col: 6 });
}

#[test]
fn cursor_word_start() {
    let mut buf = Buffer::test(&lorem());
    assert_eq!(word_start(&buf), Position { row: 0, col: 6 });

    buf.cursor = Position { row: 0, col: 17 };
    assert_eq!(word_start(&buf), Position { row: 0, col: 21 });

    buf.cursor = Position { row: 0, col: 21 };
    assert_eq!(word_start(&buf), Position { row: 1, col: 0 });

    buf.cursor = Position { row: 4, col: 0 };
    buf.cursor = word_start(&buf);
    assert_eq!(buf.cursor, Position { row: 4, col: 5 });

    buf.cursor = Position { row: 4, col: 5 };
    buf.cursor = word_start(&buf);
    assert_eq!(buf.cursor, Position { row: 4, col: 6 });
    buf.cursor = word_start(&buf);
    assert_eq!(buf.cursor, Position { row: 5, col: 0 });
    buf.cursor = word_start(&buf);
    assert_eq!(buf.cursor, Position { row: 6, col: 0 });
    assert_eq!(word_start(&buf), Position { row: 6, col: 4 });
}

#[test]
fn first_not_whitespace_test() {
    let line = chars(" This is a string");
    assert_eq!(first_not_whitespace(&line), 1);
}

#[test]
fn last_not_whitespace_test() {
    let line = chars("This is a string ");
    assert_eq!(last_not_whitespace(&line), 15);
}

#[test]
fn word_start_two_lines() {
    let mut buf = Buffer::test("abc def\nghi");
    assert_eq!(word_start(&buf), Position { row: 0, col: 4 });
    assert_eq!(word_end(&buf), Position { row: 0, col: 2 });

    buf.cursor = Position { row: 0, col: 4 };
    assert_eq!(word_start(&buf), Position { row: 1, col: 0 });
}

#[test]
fn find_fail_soft() {
    let mut buf = Buffer::test(&lorem());
    assert_eq!(find_char(&buf, 'z'), buf.cursor);

    assert_eq!(find_char(&buf, 'd'), Position { row: 0, col: 13 });

    buf.cursor = Position { row: 0, col: 13 };
    assert_eq!(find_prev_char(&buf, 'L'), Position { row: 0, col: 0 });
    assert_eq!(find_prev_char(&buf, 'z'), buf.cursor);
}

#[test]
fn boundary_motions_are_no_ops() {
    let mut buf = Buffer::test("abc\nde");
    assert_eq!(left(&buf), buf.cursor);
    assert_eq!(up(&buf), buf.cursor);

    buf.cursor = Position { row: 0, col: 2 };
    assert_eq!(right(&buf), buf.cursor);

    buf.cursor = Position { row: 1, col: 0 };
    assert_eq!(down(&buf), buf.cursor);
}

#[test]
fn motions_stay_clamped_on_empty_line() {
    let buf = Buffer::test("");
    assert_eq!(right(&buf), Position { row: 0, col: 0 });
    assert_eq!(left(&buf), Position { row: 0, col: 0 });
    assert_eq!(end_line(&buf), Position { row: 0, col: 0 });
    assert_eq!(word_start(&buf), Position { row: 0, col: 0 });
    assert_eq!(word_end(&buf), Position { row: 0, col: 0 });
    assert_eq!(prev_word_start(&buf), Position { row: 0, col: 0 });
}
