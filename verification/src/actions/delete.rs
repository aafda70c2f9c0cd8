use vstd::prelude::*;

use crate::buffer::Buffer;
use crate::buffer::Register;
use crate::buffer::Position;
use crate::buffer::last_normal_col;
use crate::buffer::spec_last_normal_col;
use crate::motion::Motion;
use crate::navigation::wf_pos;
use crate::utils::append_chars;
use crate::utils::chars_to_string;
use crate::utils::copy_range;

verus! {

/// Each line followed by a newline, concatenated; together with the
/// leading newline of `linewise_register` this brackets a line-wise
/// yank in line-break markers.
pub open spec fn join_ln_term(ls: Seq<Seq<char>>) -> Seq<char>
    decreases ls.len(),
{
    if ls.len() == 0 {
        Seq::empty()
    } else {
        ls[0] + seq!['\n'] + join_ln_term(ls.skip(1))
    }
}

/// The register text of a line-wise delete: a leading newline, then
/// every removed line terminated by a newline.
pub open spec fn linewise_register(ls: Seq<Seq<char>>) -> Seq<char> {
    seq!['\n'] + join_ln_term(ls)
}

proof fn lemma_join_ln_term_push(s: Seq<Seq<char>>, x: Seq<char>)
    ensures
        join_ln_term(s.push(x)) == join_ln_term(s) + x + seq!['\n'],
    decreases s.len(),
{
    if s.len() == 0 {
        assert(s.push(x)[0] == x);
        assert(s.push(x).skip(1) =~= Seq::<Seq<char>>::empty());
        assert(join_ln_term(Seq::<Seq<char>>::empty()) == Seq::<char>::empty());
        assert(join_ln_term(s.push(x)) =~= x + seq!['\n']);
        assert(join_ln_term(s) + x + seq!['\n'] =~= x + seq!['\n']);
    } else {
        lemma_join_ln_term_push(s.skip(1), x);
        assert(s.push(x).skip(1) =~= s.skip(1).push(x));
        assert(s.push(x)[0] == s[0]);
        assert(join_ln_term(s.push(x)) == s[0] + seq!['\n'] + (join_ln_term(s.skip(1)) + x
            + seq!['\n']));
        assert(s[0] + seq!['\n'] + (join_ln_term(s.skip(1)) + x + seq!['\n']) =~= (s[0]
            + seq!['\n'] + join_ln_term(s.skip(1))) + x + seq!['\n']);
    }
}

/// The edited state after a same-row motion delete: with `lo` and `hi`
/// the ordered cursor and target columns, the range from `lo` up to and
/// including `hi` leaves the line -- one column less at the top for a
/// motion marked inclusive, and never past the end of the line -- the
/// removed text is stored in the default slot of the session register,
/// taking it from `reg0` to `reg1`, and the cursor column moves to
/// `lo`.
pub open spec fn delete_same_row(
    pre: Buffer,
    post: Buffer,
    reg0: Map<char, Seq<char>>,
    reg1: Map<char, Seq<char>>,
    motion: Motion,
) -> bool {
    let lines = pre.lines();
    let from = pre.cursor;
    let t = motion.target(pre);
    let line = lines[from.row as int];
    let lo: int = if from.col as int <= t.1 {
        from.col as int
    } else {
        t.1
    };
    let hi: int = if from.col as int <= t.1 {
        t.1
    } else {
        from.col as int
    };
    let hi_ex0: int = if motion.spec_inclusive() {
        hi
    } else {
        hi + 1
    };
    let hi_ex: int = if hi_ex0 <= line.len() {
        hi_ex0
    } else {
        line.len() as int
    };
    &&& post.lines() == lines.update(
        from.row as int,
        line.subrange(0, lo) + line.subrange(hi_ex, line.len() as int),
    )
    &&& reg1 == reg0.insert('*', line.subrange(lo, hi_ex))
    &&& post.cursor == (Position { row: from.row, col: lo as usize })
}

/// The edited state after a cross-row motion delete: every line from
/// the lower to the higher of the cursor and target rows leaves the
/// buffer -- an emptied buffer becomes one empty line -- the removed
/// lines are stored line-wise in the default slot of the session
/// register, taking it from `reg0` to `reg1`, and the cursor moves to
/// the row before the removed block, clamped to a valid row and
/// column.
pub open spec fn delete_cross_row(
    pre: Buffer,
    post: Buffer,
    reg0: Map<char, Seq<char>>,
    reg1: Map<char, Seq<char>>,
    motion: Motion,
) -> bool {
    let lines = pre.lines();
    let from = pre.cursor;
    let t = motion.target(pre);
    let lo_r: int = if from.row as int <= t.0 {
        from.row as int
    } else {
        t.0
    };
    let hi_r: int = if from.row as int <= t.0 {
        t.0
    } else {
        from.row as int
    };
    let remaining = lines.subrange(0, lo_r) + lines.subrange(hi_r + 1, lines.len() as int);
    let newlines: Seq<Seq<char>> = if remaining.len() == 0 {
        seq![Seq::<char>::empty()]
    } else {
        remaining
    };
    let new_row: int = if lo_r > 0 {
        lo_r - 1
    } else {
        0
    };
    let new_col: int = if from.col as int <= spec_last_normal_col(newlines[new_row]) {
        from.col as int
    } else {
        spec_last_normal_col(newlines[new_row])
    };
    &&& post.lines() == newlines
    &&& reg1 == reg0.insert('*', linewise_register(lines.subrange(lo_r, hi_r + 1)))
    &&& post.cursor == (Position { row: new_row as usize, col: new_col as usize })
}

/// The edited state after a motion delete: the same-row or the
/// cross-row case, according to the row the motion lands on.
pub open spec fn delete_motion_rel(
    pre: Buffer,
    post: Buffer,
    reg0: Map<char, Seq<char>>,
    reg1: Map<char, Seq<char>>,
    motion: Motion,
) -> bool {
    if motion.target(pre).0 == pre.cursor.row as int {
        delete_same_row(pre, post, reg0, reg1, motion)
    } else {
        delete_cross_row(pre, post, reg0, reg1, motion)
    }
}

/// Deletes the range the motion spans from the cursor: within one line
/// the column range between cursor and target, across lines every row
/// between them, writing the removed text to the default slot of the
/// session register.
pub fn delete_motion(buf: &mut Buffer, register: &mut Register, motion: Motion)
    requires
        old(buf).wf(),
        old(register).wf(),
    ensures
        final(buf).wf(),
        final(register).wf(),
        final(buf).same_except_edit(old(buf)),
        delete_motion_rel(*old(buf), *final(buf), old(register)@, final(register)@, motion),
{
    let from = buf.cursor;
    let end = motion.execute(buf);
    if from.row == end.row {
        delete_within_row(buf, register, motion, end);
    } else {
        delete_across_rows(buf, register, motion, end);
    }
}

/// The same-row case of `delete_motion`: removes the column range the
/// motion spans on the cursor's line.
fn delete_within_row(buf: &mut Buffer, register: &mut Register, motion: Motion, end: Position)
    requires
        old(buf).wf(),
        old(register).wf(),
        end.row as int == motion.target(*old(buf)).0,
        end.col as int == motion.target(*old(buf)).1,
        wf_pos(old(buf).lines(), end),
        end.row == old(buf).cursor.row,
    ensures
        final(buf).wf(),
        final(register).wf(),
        final(buf).same_except_edit(old(buf)),
        delete_same_row(*old(buf), *final(buf), old(register)@, final(register)@, motion),
{
    let from = buf.cursor;
    let lo = if from.col <= end.col {
        from.col
    } else {
        end.col
    };
    let hi = if from.col <= end.col {
        end.col
    } else {
        from.col
    };
    let line_len = buf.content[from.row].len();
    let hi_ex = if motion.inclusive() {
        if hi > line_len {
            line_len
        } else {
            hi
        }
    } else {
        if hi >= line_len {
            line_len
        } else {
            hi + 1
        }
    };
    let line = &buf.content[from.row];
    let deleted = copy_range(line, lo, hi_ex);
    let mut new_line = copy_range(line, 0, lo);
    let tail = copy_range(line, hi_ex, line_len);
    append_chars(&mut new_line, &tail);
    buf.content[from.row] = new_line;
    let text = chars_to_string(&deleted);
    register.set_default(text);
    buf.cursor = Position { row: from.row, col: lo };
    proof {
        assert(final(buf).lines() =~= old(buf).lines().update(
            from.row as int,
            old(buf).cur_line().subrange(0, lo as int) + old(buf).cur_line().subrange(
                hi_ex as int,
                old(buf).cur_line().len() as int,
            ),
        ));
    }
}

/// The cross-row case of `delete_motion`: removes every line between
/// the cursor's row and the motion's row, both included.
#[verifier::rlimit(60)]
fn delete_across_rows(buf: &mut Buffer, register: &mut Register, motion: Motion, end: Position)
    requires
        old(buf).wf(),
        old(register).wf(),
        end.row as int == motion.target(*old(buf)).0,
        end.col as int == motion.target(*old(buf)).1,
        wf_pos(old(buf).lines(), end),
        end.row != old(buf).cursor.row,
    ensures
        final(buf).wf(),
        final(register).wf(),
        final(buf).same_except_edit(old(buf)),
        delete_cross_row(*old(buf), *final(buf), old(register)@, final(register)@, motion),
{
    let from = buf.cursor;
    let lo_r = if from.row <= end.row {
        from.row
    } else {
        end.row
    };
    let hi_r = if from.row <= end.row {
        end.row
    } else {
        from.row
    };
    let total = buf.content.len();
    proof {
        assert(old(buf).lines().len() == old(buf).content@.len());
        assert((end.row as int) < old(buf).content@.len());
        assert(hi_r < total);
    }
    let count = hi_r - lo_r + 1;
    let ghost lines0 = old(buf).lines();
    let ghost len0 = old(buf).content@.len();
    let mut data: Vec<char> = Vec::new();
    data.push('\n');
    let mut n: usize = 0;
    proof {
        assert(data@ =~= seq!['\n'] + join_ln_term(lines0.subrange(lo_r as int, lo_r as int)));
    }
    #[verifier::loop_isolation(false)]
    while n < count
        invariant
            n <= count,
            buf.content@ =~= old(buf).content@.subrange(0, lo_r as int) + old(
                buf,
            ).content@.subrange(lo_r + n, len0 as int),
            data@ == seq!['\n'] + join_ln_term(lines0.subrange(lo_r as int, lo_r + n)),
            buf.cursor == old(buf).cursor,
            *register == *old(register),
            buf.same_except_edit(old(buf)),
        decreases count - n,
    {
        let removed = buf.content.remove(lo_r);
        proof {
            assert(removed@ == lines0[lo_r + n]);
            assert(buf.content@ =~= old(buf).content@.subrange(0, lo_r as int) + old(
                buf,
            ).content@.subrange(lo_r + n + 1, len0 as int));
        }
        append_chars(&mut data, &removed);
        data.push('\n');
        proof {
            lemma_join_ln_term_push(lines0.subrange(lo_r as int, lo_r + n), removed@);
            assert(lines0.subrange(lo_r as int, lo_r + n + 1) =~= lines0.subrange(
                lo_r as int,
                lo_r + n,
            ).push(removed@));
            assert(data@ =~= seq!['\n'] + join_ln_term(lines0.subrange(
                lo_r as int,
                lo_r + n + 1,
            )));
        }
        n += 1;
    }
    if buf.content.len() == 0 {
        buf.content.push(Vec::new());
    }
    let new_row = if lo_r > 0 {
        lo_r - 1
    } else {
        0
    };
    let bound = last_normal_col(&buf.content[new_row]);
    let new_col = if from.col <= bound {
        from.col
    } else {
        bound
    };
    buf.cursor = Position { row: new_row, col: new_col };
    let text = chars_to_string(&data);
    register.set_default(text);
    proof {
        let remaining = lines0.subrange(0, lo_r as int) + lines0.subrange(
            hi_r + 1,
            lines0.len() as int,
        );
        let newlines: Seq<Seq<char>> = if remaining.len() == 0 {
            seq![Seq::<char>::empty()]
        } else {
            remaining
        };
        assert(final(buf).lines() =~= newlines);
    }
}

/// `text` spliced into `line` at column `col`.
pub open spec fn spec_insert_text(line: Seq<char>, col: int, text: Seq<char>) -> Seq<char> {
    line.subrange(0, col) + text + line.subrange(col, line.len() as int)
}

/// Law: a same-row delete is undone by re-insertion.  After any
/// motion delete that stays on the cursor's row, splicing the default
/// register's content back into the shortened line at the post-delete
/// cursor column reproduces the original line exactly.
pub proof fn lemma_delete_insert_round_trip(
    pre: Buffer,
    post: Buffer,
    reg0: Map<char, Seq<char>>,
    reg1: Map<char, Seq<char>>,
    motion: Motion,
)
    requires
        pre.wf(),
        motion.target(pre).0 == pre.cursor.row as int,
        0 <= motion.target(pre).1 <= pre.cur_line().len(),
        delete_same_row(pre, post, reg0, reg1, motion),
    ensures
        post.cursor.row == pre.cursor.row,
        spec_insert_text(
            post.lines()[post.cursor.row as int],
            post.cursor.col as int,
            reg1['*'],
        ) == pre.cur_line(),
{
    let lines = pre.lines();
    let from = pre.cursor;
    let t = motion.target(pre);
    let line = lines[from.row as int];
    let lo: int = if from.col as int <= t.1 {
        from.col as int
    } else {
        t.1
    };
    let hi: int = if from.col as int <= t.1 {
        t.1
    } else {
        from.col as int
    };
    let hi_ex0: int = if motion.spec_inclusive() {
        hi
    } else {
        hi + 1
    };
    let hi_ex: int = if hi_ex0 <= line.len() {
        hi_ex0
    } else {
        line.len() as int
    };
    let new_line = line.subrange(0, lo) + line.subrange(hi_ex, line.len() as int);
    assert(post.lines()[post.cursor.row as int] == new_line);
    assert(reg1['*'] == line.subrange(lo, hi_ex));
    assert(new_line.subrange(0, lo) =~= line.subrange(0, lo));
    assert(new_line.subrange(lo, new_line.len() as int) =~= line.subrange(
        hi_ex,
        line.len() as int,
    ));
    assert(line.subrange(0, lo) + line.subrange(lo, hi_ex) + line.subrange(
        hi_ex,
        line.len() as int,
    ) =~= line);
}

/// The edited state after a line-wise delete: the cursor's row leaves
/// the buffer -- deleting the sole line empties it instead, so the
/// buffer never drops below one line -- the removed line is stored in
/// the default register bracketed by newlines, and the cursor row is
/// clamped to the shrunken buffer, the column to its line.
pub open spec fn delete_line_rel(
    pre: Buffer,
    post: Buffer,
    reg0: Map<char, Seq<char>>,
    reg1: Map<char, Seq<char>>,
) -> bool {
    let lines = pre.lines();
    let row = pre.cursor.row as int;
    let remaining = lines.remove(row);
    let newlines: Seq<Seq<char>> = if remaining.len() == 0 {
        seq![Seq::<char>::empty()]
    } else {
        remaining
    };
    let new_row: int = if row < newlines.len() {
        row
    } else {
        newlines.len() - 1
    };
    let new_col: int = if pre.cursor.col as int <= spec_last_normal_col(newlines[new_row]) {
        pre.cursor.col as int
    } else {
        spec_last_normal_col(newlines[new_row])
    };
    &&& post.lines() == newlines
    &&& reg1 == reg0.insert('*', seq!['\n'] + lines[row] + seq!['\n'])
    &&& post.cursor == (Position { row: new_row as usize, col: new_col as usize })
}

/// Removes the cursor's entire row, storing it in the default register
/// bracketed by line-break markers; the buffer never drops below one
/// line.
pub fn delete_line(buf: &mut Buffer, register: &mut Register)
    requires
        old(buf).wf(),
        old(register).wf(),
    ensures
        final(buf).wf(),
        final(register).wf(),
        final(buf).same_except_edit(old(buf)),
        delete_line_rel(*old(buf), *final(buf), old(register)@, final(register)@),
{
    let row = buf.cursor.row;
    let mut data: Vec<char> = Vec::new();
    data.push('\n');
    let line_ref = &buf.content[row];
    append_chars(&mut data, line_ref);
    data.push('\n');
    proof {
        assert(data@ =~= seq!['\n'] + old(buf).lines()[row as int] + seq!['\n']);
    }
    buf.content.remove(row);
    if buf.content.len() == 0 {
        buf.content.push(Vec::new());
    }
    let new_row = if row < buf.content.len() {
        row
    } else {
        buf.content.len() - 1
    };
    let bound = last_normal_col(&buf.content[new_row]);
    let new_col = if buf.cursor.col <= bound {
        buf.cursor.col
    } else {
        bound
    };
    buf.cursor = Position { row: new_row, col: new_col };
    let text = chars_to_string(&data);
    register.set_default(text);
    proof {
        let lines = old(buf).lines();
        let remaining = lines.remove(row as int);
        let newlines: Seq<Seq<char>> = if remaining.len() == 0 {
            seq![Seq::<char>::empty()]
        } else {
            remaining
        };
        assert(final(buf).lines() =~= newlines);
    }
}

/// The edited state after deleting to the end of the line: the tail of
/// the cursor's line from the cursor column leaves the buffer and is
/// stored in the default register, and the cursor column is clamped to
/// the last normal column of the shortened line.
pub open spec fn delete_end_rel(
    pre: Buffer,
    post: Buffer,
    reg0: Map<char, Seq<char>>,
    reg1: Map<char, Seq<char>>,
) -> bool {
    let lines = pre.lines();
    let row = pre.cursor.row as int;
    let col = pre.cursor.col as int;
    let line = lines[row];
    &&& post.lines() == lines.update(row, line.subrange(0, col))
    &&& reg1 == reg0.insert('*', line.subrange(col, line.len() as int))
    &&& post.cursor == (Position {
        row: pre.cursor.row,
        col: if col == 0 {
            0
        } else {
            (col - 1) as usize
        },
    })
}

/// Removes everything from the cursor column to the end of the line,
/// storing it in the default register.
pub fn delete_end(buf: &mut Buffer, register: &mut Register)
    requires
        old(buf).wf(),
        old(register).wf(),
    ensures
        final(buf).wf(),
        final(register).wf(),
        final(buf).same_except_edit(old(buf)),
        delete_end_rel(*old(buf), *final(buf), old(register)@, final(register)@),
{
    let row = buf.cursor.row;
    let col = buf.cursor.col;
    let line_len = buf.content[row].len();
    let line = &buf.content[row];
    let deleted = copy_range(line, col, line_len);
    let new_line = copy_range(line, 0, col);
    buf.content[row] = new_line;
    let text = chars_to_string(&deleted);
    register.set_default(text);
    buf.cursor = Position {
        row,
        col: if col == 0 {
            0
        } else {
            col - 1
        },
    };
    proof {
        assert(final(buf).lines() =~= old(buf).lines().update(
            row as int,
            old(buf).cur_line().subrange(0, col as int),
        ));
    }
}

} // verus!
