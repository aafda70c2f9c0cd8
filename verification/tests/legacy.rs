use modal_edit::context::{Context, Position};
use modal_edit::insert::{insert_char, pop_char};
use modal_edit::mode::{Key, Mode};
use modal_edit::mode::normal::command_resolver::CommandResolver;
use modal_edit::state::{BufferState, Cursor, Dirty};
use modal_edit::textobjects::word::Word as TextWord;
use modal_edit::words::{parse_words, Word};
use modal_edit::buffer::Buffer;

fn lorem() -> String {
    [
        "Lorem ipsum odor amet, ",
        "consectetuer adipiscing elit. ",
        "Ridiculus nulla consectetur proin purus ad justo nullam. ",
        "Mauris vitae semper varius eros morbi.",
        "porta.metus",
        "",
        "nulla",
    ]
    .join("\n")
}

fn state_line(state: &BufferState, row: usize) -> String {
    state.content.data[row].iter().collect()
}

#[test]
fn parses_words() {
    let buf = Buffer::test(&lorem());

    assert_eq!(
        parse_words(&buf),
        vec![
            Word::new(String::from("Lorem"), 0, 4, 0),
            Word::new(String::from("ipsum"), 6, 10, 0),
            Word::new(String::from("odor"), 12, 15, 0),
            Word::new(String::from("amet"), 17, 20, 0),
            Word::new(String::from(","), 21, 21, 0),
        ]
    );
}

#[test]
fn context_loads_and_edits() {
    let mut cx = Context::new(String::from("abc"));
    assert_eq!(cx.mode, Mode::Normal);
    assert_eq!(cx.cursor, Position { col: 0, row: 0 });

    insert_char(&mut cx, 'x');
    let first: String = cx.content[0].iter().collect();
    assert_eq!(first, "xabc");
    assert_eq!(cx.cursor.col, 1);

    pop_char(&mut cx);
    let first: String = cx.content[0].iter().collect();
    assert_eq!(first, "abc");
    assert_eq!(cx.cursor.col, 0);

    pop_char(&mut cx);
    let first: String = cx.content[0].iter().collect();
    assert_eq!(first, "abc");

    cx.change_mode(Mode::Insert);
    assert_eq!(cx.mode, Mode::Insert);

    let row: String = cx.row(0).iter().collect();
    assert_eq!(row, "abc");
    cx.row_mut(0).push('!');
    let row: String = cx.row(0).iter().collect();
    assert_eq!(row, "abc!");
}

#[test]
fn buffer_state_moves_and_splits() {
    let mut state = BufferState::new(String::from("abc\nde"));
    assert_eq!(state.content.data.len(), 2);
    assert!(!state.content.dirty);

    state.right();
    state.right();
    state.right();
    assert_eq!(state.cursor, Cursor { row: 0, col: 3 });
    state.right();
    assert_eq!(state.cursor, Cursor { row: 1, col: 0 });

    state.left();
    assert_eq!(state.cursor, Cursor { row: 0, col: 2 });

    state.down();
    assert_eq!(state.cursor, Cursor { row: 1, col: 2 });
    state.down();
    assert_eq!(state.cursor, Cursor { row: 1, col: 2 });

    state.up();
    assert_eq!(state.cursor, Cursor { row: 0, col: 2 });
    state.up();
    assert_eq!(state.cursor, Cursor { row: 0, col: 2 });

    state.end();
    assert_eq!(state.cursor.col, 2);
    state.start();
    assert_eq!(state.cursor.col, 0);
}

#[test]
fn buffer_state_trailing_split_keeps_empty_piece() {
    let state = BufferState::new(String::from("abc\n"));
    assert_eq!(state.content.data.len(), 2);
    assert_eq!(state_line(&state, 0), "abc");
    assert_eq!(state_line(&state, 1), "");
}

#[test]
fn buffer_state_new_line_splits_current_row() {
    let mut state = BufferState::new(String::from("abcdef"));
    state.cursor.col = 3;
    state.new_line();

    assert_eq!(state.content.data.len(), 2);
    assert_eq!(state_line(&state, 0), "abc");
    assert_eq!(state_line(&state, 1), "def");
    assert_eq!(state.cursor, Cursor { row: 1, col: 0 });
}

#[test]
fn dirty_starts_clean() {
    let wrapped = Dirty::new(7usize);
    assert_eq!(wrapped.data, 7);
    assert!(!wrapped.dirty);
}

#[test]
fn command_resolver_moves_and_switches() {
    let mut resolver = CommandResolver::new();
    let mut state = BufferState::new(String::from("abc\nde"));

    resolver.handle(Key::Char('l'), &mut state);
    assert_eq!(state.cursor, Cursor { row: 0, col: 1 });

    resolver.handle(Key::Down, &mut state);
    assert_eq!(state.cursor, Cursor { row: 1, col: 2 });

    let mut ins = CommandResolver::new();
    ins.handle(Key::Char('i'), &mut state);
    assert_eq!(ins.mode, "insert");
}

#[test]
fn command_resolver_removes_char() {
    let mut resolver = CommandResolver::new();
    let mut state = BufferState::new(String::from("abc"));

    resolver.remove_char(&mut state);
    assert_eq!(state_line(&state, 0), "bc");

    state.cursor.col = 1;
    resolver.remove_char(&mut state);
    assert_eq!(state_line(&state, 0), "b");
    assert_eq!(state.cursor.col, 0);
}

#[test]
fn text_object_word_extent() {
    let mut state = BufferState::new(String::from("Hello brave world"));
    state.cursor.col = 7;

    let word = TextWord::new(&state);
    let start = word.start();
    let end = word.end();
    assert_eq!((start.x, start.y), (6, 0));
    assert_eq!((end.x, end.y), (10, 0));
}

#[test]
fn text_object_word_at_start_takes_previous_word() {
    let mut state = BufferState::new(String::from("Hello brave world"));
    state.cursor.col = 6;

    let word = TextWord::new(&state);
    assert_eq!(word.start().x, 0);
}

#[test]
fn parse_words_with_delimiters() {
    let buf = Buffer::test("one.two three");
    let words = parse_words(&buf);
    assert_eq!(
        words,
        vec![
            Word::new(String::from("one"), 0, 2, 0),
            Word::new(String::from(".two"), 3, 6, 0),
            Word::new(String::from("three"), 8, 12, 0),
        ]
    );
}
