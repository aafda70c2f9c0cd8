use vstd::prelude::*;

use crate::buffer::Buffer;
use crate::buffer::Position;
use crate::mode::Key;
use crate::mode::Mode;
use crate::utils::append_chars;
use crate::utils::copy_range;

verus! {

/// The state after typing `c` in insert mode: the character enters the
/// current line at the cursor column and the cursor moves right past
/// it.
pub open spec fn insert_char_rel(pre: Buffer, post: Buffer, c: char) -> bool {
    let row = pre.cursor.row as int;
    let col = pre.cursor.col as int;
    &&& post.lines() == pre.lines().update(row, pre.cur_line().insert(col, c))
    &&& post.cursor == (Position { row: pre.cursor.row, col: (col + 1) as usize })
}

/// The state after a backspace in insert mode: the character before the
/// cursor leaves the line and the cursor moves left; at column zero of
/// a later row, the current line is joined onto the previous one and
/// the cursor stands at the join; at the origin nothing changes.
pub open spec fn pop_char_rel(pre: Buffer, post: Buffer) -> bool {
    let row = pre.cursor.row as int;
    let col = pre.cursor.col as int;
    if col == 0 {
        if row == 0 {
            post.lines() == pre.lines() && post.cursor == pre.cursor
        } else {
            &&& post.lines() == pre.lines().remove(row).update(
                row - 1,
                pre.lines()[row - 1] + pre.lines()[row],
            )
            &&& post.cursor == (Position {
                row: (row - 1) as usize,
                col: pre.lines()[row - 1].len() as usize,
            })
        }
    } else {
        &&& post.lines() == pre.lines().update(row, pre.cur_line().remove(col - 1))
        &&& post.cursor == (Position { row: pre.cursor.row, col: (col - 1) as usize })
    }
}

/// The state after a line break in insert mode: the current line is cut
/// at the cursor, the tail becomes a new following line, and the cursor
/// moves to its start.
pub open spec fn new_line_rel(pre: Buffer, post: Buffer) -> bool {
    let row = pre.cursor.row as int;
    let col = pre.cursor.col as int;
    let line = pre.cur_line();
    &&& post.lines() == pre.lines().update(row, line.subrange(0, col)).insert(
        row + 1,
        line.subrange(col, line.len() as int),
    )
    &&& post.cursor == (Position { row: (row + 1) as usize, col: 0 })
}

/// The state after one key in insert mode: characters are written,
/// backspace and the line break edit the lines, and escape returns to
/// normal mode one column to the left.
pub open spec fn insert_key_rel(pre: Buffer, post: Buffer, key: Key) -> bool {
    match key {
        Key::Char(c) => {
            &&& post.same_host_fields(&pre)
            &&& post.keys == pre.keys
            &&& post.mode == pre.mode
            &&& insert_char_rel(pre, post, c)
        },
        Key::Backspace => {
            &&& post.same_host_fields(&pre)
            &&& post.keys == pre.keys
            &&& post.mode == pre.mode
            &&& pop_char_rel(pre, post)
        },
        Key::Enter => {
            &&& post.same_host_fields(&pre)
            &&& post.keys == pre.keys
            &&& post.mode == pre.mode
            &&& new_line_rel(pre, post)
        },
        Key::Esc => {
            &&& post.same_host_fields(&pre)
            &&& post.content == pre.content
            &&& post.mode == Mode::Normal
            &&& post.keys@ == Seq::<char>::empty()
            &&& post.cursor == (Position {
                row: pre.cursor.row,
                col: if pre.cursor.col == 0 {
                    0
                } else {
                    (pre.cursor.col - 1) as usize
                },
            })
        },
        _ => post == pre,
    }
}

/// Routes one key in insert mode.
pub fn handle_insert_keys(buf: &mut Buffer, key: Key)
    requires
        old(buf).wf(),
    ensures
        final(buf).wf(),
        insert_key_rel(*old(buf), *final(buf), key),
{
    match key {
        Key::Char(c) => insert_char(buf, c),
        Key::Backspace => pop_char(buf),
        Key::Enter => new_line(buf),
        Key::Esc => {
            buf.change_mode(Mode::Normal);
            let pos = crate::navigation::left(buf);
            buf.cursor = pos;
        },
        _ => {},
    }
}

/// Writes `c` at the cursor and advances the cursor past it.
fn insert_char(buf: &mut Buffer, c: char)
    requires
        old(buf).wf(),
    ensures
        final(buf).wf(),
        final(buf).same_except_edit(old(buf)),
        insert_char_rel(*old(buf), *final(buf), c),
{
    let row = buf.cursor.row;
    let col = buf.cursor.col;
    let line = &mut buf.content[row];
    line.insert(col, c);
    let new_len = buf.content[row].len();
    proof {
        assert(col < new_len);
    }
    buf.cursor.col = col + 1;
    proof {
        assert(final(buf).lines() =~= old(buf).lines().update(
            row as int,
            old(buf).cur_line().insert(col as int, c),
        ));
    }
}

/// Removes the character before the cursor, joining the line onto the
/// previous one when the cursor stands at column zero.
fn pop_char(buf: &mut Buffer)
    requires
        old(buf).wf(),
    ensures
        final(buf).wf(),
        final(buf).same_except_edit(old(buf)),
        pop_char_rel(*old(buf), *final(buf)),
{
    let row = buf.cursor.row;
    let col = buf.cursor.col;
    if col == 0 {
        if row != 0 {
            let removed = buf.content.remove(row);
            let prev_len = buf.content[row - 1].len();
            append_chars(&mut buf.content[row - 1], &removed);
            buf.cursor.row = row - 1;
            buf.cursor.col = prev_len;
            proof {
                assert(final(buf).lines() =~= old(buf).lines().remove(row as int).update(
                    row as int - 1,
                    old(buf).lines()[row as int - 1] + old(buf).lines()[row as int],
                ));
            }
        }
    } else {
        let line = &mut buf.content[row];
        line.remove(col - 1);
        buf.cursor.col = col - 1;
        proof {
            assert(final(buf).lines() =~= old(buf).lines().update(
                row as int,
                old(buf).cur_line().remove(col as int - 1),
            ));
        }
    }
}

/// Splits the current line at the cursor, the tail becoming a new line
/// below, and moves the cursor to its start.
fn new_line(buf: &mut Buffer)
    requires
        old(buf).wf(),
    ensures
        final(buf).wf(),
        final(buf).same_except_edit(old(buf)),
        new_line_rel(*old(buf), *final(buf)),
{
    let row = buf.cursor.row;
    let col = buf.cursor.col;
    let nrows = buf.content.len();
    proof {
        assert(row < nrows);
    }
    let line_len = buf.content[row].len();
    let line = &buf.content[row];
    let head = copy_range(line, 0, col);
    let tail = copy_range(line, col, line_len);
    buf.content[row] = head;
    buf.content.insert(row + 1, tail);
    buf.cursor = Position { row: row + 1, col: 0 };
    proof {
        assert(final(buf).lines() =~= old(buf).lines().update(
            row as int,
            old(buf).cur_line().subrange(0, col as int),
        ).insert(row as int + 1, old(buf).cur_line().subrange(
            col as int,
            old(buf).cur_line().len() as int,
        )));
    }
}

} // verus!
