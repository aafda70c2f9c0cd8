use vstd::prelude::*;

use crate::context::Context;
use crate::context::Position;

verus! {

/// Writes `c` into the context's current line at the cursor and
/// advances the cursor past it.
pub fn insert_char(cx: &mut Context, c: char)
    requires
        old(cx).wf(),
    ensures
        final(cx).wf(),
        final(cx).lines() == old(cx).lines().update(
            old(cx).cursor.row as int,
            old(cx).cur_line().insert(old(cx).cursor.col as int, c),
        ),
        final(cx).cursor == (Position {
            row: old(cx).cursor.row,
            col: (old(cx).cursor.col + 1) as usize,
        }),
        final(cx).keys == old(cx).keys,
        final(cx).mode == old(cx).mode,
        final(cx).exit == old(cx).exit,
{
    let row = cx.cursor.row;
    let col = cx.cursor.col;
    let line = &mut cx.content[row];
    line.insert(col, c);
    let new_len = cx.content[row].len();
    proof {
        assert(col < new_len);
    }
    cx.cursor.col = col + 1;
    proof {
        assert(final(cx).lines() =~= old(cx).lines().update(
            row as int,
            old(cx).cur_line().insert(col as int, c),
        ));
    }
}

/// Removes the character before the cursor and moves the cursor left;
/// a no-op at column zero.
pub fn pop_char(cx: &mut Context)
    requires
        old(cx).wf(),
    ensures
        final(cx).wf(),
        old(cx).cursor.col == 0 ==> *final(cx) == *old(cx),
        old(cx).cursor.col > 0 ==> {
            &&& final(cx).lines() == old(cx).lines().update(
                old(cx).cursor.row as int,
                old(cx).cur_line().remove(old(cx).cursor.col - 1),
            )
            &&& final(cx).cursor == (Position {
                row: old(cx).cursor.row,
                col: (old(cx).cursor.col - 1) as usize,
            })
            &&& final(cx).keys == old(cx).keys
            &&& final(cx).mode == old(cx).mode
            &&& final(cx).exit == old(cx).exit
        },
{
    let row = cx.cursor.row;
    let col = cx.cursor.col;
    if col == 0 {
        return ;
    }
    let line = &mut cx.content[row];
    line.remove(col - 1);
    cx.cursor.col = col - 1;
    proof {
        assert(final(cx).lines() =~= old(cx).lines().update(
            row as int,
            old(cx).cur_line().remove(col as int - 1),
        ));
    }
}

} // verus!
