use vstd::prelude::*;

use crate::buffer::Buffer;
use crate::buffer::Position;
use crate::buffer::last_normal_col;
use crate::buffer::spec_last_normal_col;
use crate::mode::Mode;

verus! {

/// A position the normal-mode cursor may occupy in a buffer with the
/// given lines: the row exists and the column does not pass the last
/// normal column of its line.
pub open spec fn valid_pos(lines: Seq<Seq<char>>, p: Position) -> bool {
    &&& (p.row as int) < lines.len()
    &&& (p.col as int) <= spec_last_normal_col(lines[p.row as int])
}

/// A position that a well-formed buffer's cursor may hold: the row
/// exists and the column is at most the line's length.
pub open spec fn wf_pos(lines: Seq<Seq<char>>, p: Position) -> bool {
    &&& (p.row as int) < lines.len()
    &&& (p.col as int) <= lines[p.row as int].len()
}

/// How far right of column zero the cursor may move on `line`: in
/// normal mode the last normal column, elsewhere the line length.
pub open spec fn right_bound(line: Seq<char>, mode: Mode) -> int {
    if mode is Normal {
        spec_last_normal_col(line)
    } else {
        line.len() as int
    }
}

/// One column right, stopping at the right bound of the current mode.
pub fn right(buf: &Buffer) -> (r: Position)
    requires
        buf.wf(),
    ensures
        r.row == buf.cursor.row,
        (buf.cursor.col as int) < right_bound(buf.cur_line(), buf.mode) ==> r.col
            == buf.cursor.col + 1,
        (buf.cursor.col as int) >= right_bound(buf.cur_line(), buf.mode) ==> r == buf.cursor,
        (r.col as int) <= right_bound(buf.cur_line(), buf.mode) || r == buf.cursor,
{
    let line = &buf.content[buf.cursor.row];
    let row_len = if matches!(buf.mode, Mode::Normal) {
        last_normal_col(line)
    } else {
        line.len()
    };
    if buf.cursor.col >= row_len {
        buf.cursor
    } else {
        Position { row: buf.cursor.row, col: buf.cursor.col + 1 }
    }
}

/// One column left, stopping at column zero; never leaves the line.
pub fn left(buf: &Buffer) -> (r: Position)
    ensures
        r.row == buf.cursor.row,
        buf.cursor.col == 0 ==> r == buf.cursor,
        buf.cursor.col > 0 ==> r.col == buf.cursor.col - 1,
{
    if buf.cursor.col == 0 {
        buf.cursor
    } else {
        Position { row: buf.cursor.row, col: buf.cursor.col - 1 }
    }
}

/// One row up, stopping at the first row; the column is clamped to the
/// last normal column of the target line.
pub fn up(buf: &Buffer) -> (r: Position)
    requires
        buf.wf(),
    ensures
        buf.cursor.row == 0 ==> r == buf.cursor,
        buf.cursor.row > 0 ==> {
            &&& r.row == buf.cursor.row - 1
            &&& r.col == if (buf.cursor.col as int) <= spec_last_normal_col(
                buf.lines()[buf.cursor.row - 1],
            ) {
                buf.cursor.col as int
            } else {
                spec_last_normal_col(buf.lines()[buf.cursor.row - 1])
            }
        },
        buf.cursor.row > 0 ==> valid_pos(buf.lines(), r),
{
    if buf.cursor.row == 0 {
        return buf.cursor;
    }
    let prev_row = &buf.content[buf.cursor.row - 1];
    let bound = last_normal_col(prev_row);
    Position {
        row: buf.cursor.row - 1,
        col: if buf.cursor.col <= bound {
            buf.cursor.col
        } else {
            bound
        },
    }
}

/// One row down, stopping at the last row; the column is clamped to the
/// last normal column of the target line.
pub fn down(buf: &Buffer) -> (r: Position)
    requires
        buf.wf(),
    ensures
        (buf.cursor.row as int) >= buf.lines().len() - 1 ==> r == buf.cursor,
        (buf.cursor.row as int) < buf.lines().len() - 1 ==> {
            &&& r.row == buf.cursor.row + 1
            &&& r.col == if (buf.cursor.col as int) <= spec_last_normal_col(
                buf.lines()[buf.cursor.row + 1],
            ) {
                buf.cursor.col as int
            } else {
                spec_last_normal_col(buf.lines()[buf.cursor.row + 1])
            }
            &&& valid_pos(buf.lines(), r)
        },
{
    if buf.cursor.row >= buf.content.len() - 1 {
        return buf.cursor;
    }
    let next_row = &buf.content[buf.cursor.row + 1];
    let bound = last_normal_col(next_row);
    Position {
        row: buf.cursor.row + 1,
        col: if buf.cursor.col <= bound {
            buf.cursor.col
        } else {
            bound
        },
    }
}

/// Column zero of the current row.
pub fn start_line(buf: &Buffer) -> (r: Position)
    ensures
        r.row == buf.cursor.row,
        r.col == 0,
{
    Position { row: buf.cursor.row, col: 0 }
}

/// The last normal column of the current row.
pub fn end_line(buf: &Buffer) -> (r: Position)
    requires
        buf.wf(),
    ensures
        r.row == buf.cursor.row,
        r.col as int == spec_last_normal_col(buf.cur_line()),
        valid_pos(buf.lines(), r),
{
    let line = &buf.content[buf.cursor.row];
    Position { row: buf.cursor.row, col: last_normal_col(line) }
}

/// The first index at or after `i` holding the character `c`.
pub open spec fn char_from(line: Seq<char>, c: char, i: int) -> Option<int>
    decreases line.len() - i,
{
    if i < 0 || i >= line.len() {
        None
    } else if line[i] == c {
        Some(i)
    } else {
        char_from(line, c, i + 1)
    }
}

/// The last index at or before `i` holding the character `c`.
pub open spec fn char_before(line: Seq<char>, c: char, i: int) -> Option<int>
    decreases i + 1,
{
    if i < 0 || i >= line.len() {
        None
    } else if line[i] == c {
        Some(i)
    } else {
        char_before(line, c, i - 1)
    }
}

/// The column the `f` motion lands on: the first occurrence of `c`
/// right of `col`, or `col` itself when there is none.
pub open spec fn spec_find_col(line: Seq<char>, c: char, col: int) -> int {
    match char_from(line, c, col + 1) {
        Some(j) => j,
        None => col,
    }
}

/// The column the `F` motion lands on: the last occurrence of `c` left
/// of `col`, or `col` itself when there is none.
pub open spec fn spec_find_prev_col(line: Seq<char>, c: char, col: int) -> int {
    match char_before(line, c, col - 1) {
        Some(j) => j,
        None => col,
    }
}

/// The next occurrence of `c` strictly right of the cursor on the
/// current line, or the cursor itself when the line holds none: a
/// fail-soft motion, never an error.
pub fn find_char(buf: &Buffer, c: char) -> (r: Position)
    requires
        buf.wf(),
    ensures
        r.row == buf.cursor.row,
        r.col as int == spec_find_col(buf.cur_line(), c, buf.cursor.col as int),
        (exists|i: int|
            buf.cursor.col < i < buf.cur_line().len() && buf.cur_line()[i] == c) ==> {
            &&& buf.cursor.col < r.col
            &&& (r.col as int) < buf.cur_line().len()
            &&& buf.cur_line()[r.col as int] == c
            &&& forall|j: int| buf.cursor.col < j < r.col ==> buf.cur_line()[j] != c
        },
        !(exists|i: int|
            buf.cursor.col < i < buf.cur_line().len() && buf.cur_line()[i] == c) ==> r
            == buf.cursor,
        valid_pos(buf.lines(), r) || r == buf.cursor,
{
    let line = &buf.content[buf.cursor.row];
    if buf.cursor.col >= line.len() {
        return buf.cursor;
    }
    let mut i: usize = buf.cursor.col + 1;
    #[verifier::loop_isolation(false)]
    while i < line.len()
        invariant
            buf.cursor.col < i,
            forall|j: int| buf.cursor.col < j < i ==> buf.cur_line()[j] != c,
            char_from(buf.cur_line(), c, buf.cursor.col + 1) == char_from(
                buf.cur_line(),
                c,
                i as int,
            ),
        decreases line@.len() - i,
    {
        if line[i] == c {
            return Position { row: buf.cursor.row, col: i };
        }
        i += 1;
    }
    buf.cursor
}

/// The closest occurrence of `c` strictly left of the cursor on the
/// current line, or the cursor itself when the line holds none: a
/// fail-soft motion, never an error.
pub fn find_prev_char(buf: &Buffer, c: char) -> (r: Position)
    requires
        buf.wf(),
    ensures
        r.row == buf.cursor.row,
        r.col as int == spec_find_prev_col(buf.cur_line(), c, buf.cursor.col as int),
        (exists|i: int| 0 <= i < buf.cursor.col && buf.cur_line()[i] == c) ==> {
            &&& (r.col as int) < buf.cursor.col
            &&& buf.cur_line()[r.col as int] == c
            &&& forall|j: int| r.col < j < buf.cursor.col ==> buf.cur_line()[j] != c
        },
        !(exists|i: int| 0 <= i < buf.cursor.col && buf.cur_line()[i] == c) ==> r == buf.cursor,
        valid_pos(buf.lines(), r) || r == buf.cursor,
{
    let line = &buf.content[buf.cursor.row];
    let mut i: usize = buf.cursor.col;
    #[verifier::loop_isolation(false)]
    while i > 0
        invariant
            i <= buf.cursor.col,
            forall|j: int| i <= j < buf.cursor.col ==> buf.cur_line()[j] != c,
            char_before(buf.cur_line(), c, buf.cursor.col - 1) == char_before(
                buf.cur_line(),
                c,
                i as int - 1,
            ),
        decreases i,
    {
        i -= 1;
        if line[i] == c {
            return Position { row: buf.cursor.row, col: i };
        }
    }
    buf.cursor
}

/// The fixed punctuation set that delimits words.
pub open spec fn spec_is_word_delimiter(c: char) -> bool {
    c == '(' || c == ')' || c == '[' || c == ']' || c == '{' || c == '}' || c == '$' || c == '^'
        || c == '!' || c == '.' || c == ','
}

/// Whether `c` belongs to the fixed punctuation set that delimits words.
pub fn is_word_delimiter(c: char) -> (r: bool)
    ensures
        r == spec_is_word_delimiter(c),
{
    c == '(' || c == ')' || c == '[' || c == ']' || c == '{' || c == '}' || c == '$' || c == '^'
        || c == '!' || c == '.' || c == ','
}

/// The character a scan sees before index `i`: the previous character of
/// the line, or a space at the start of a line, so that a line break
/// acts like whitespace.
pub open spec fn prev_char(line: Seq<char>, i: int) -> char {
    if i == 0 {
        ' '
    } else {
        line[i - 1]
    }
}

/// A new classification run for `w` starts at a character `c` preceded
/// by `p`: punctuation after non-punctuation, a word character directly
/// after punctuation, or a non-space after a space.
pub open spec fn w_boundary(p: char, c: char) -> bool {
    (spec_is_word_delimiter(c) && !spec_is_word_delimiter(p)) || (spec_is_word_delimiter(p)
        && !spec_is_word_delimiter(c) && c != ' ') || (c != ' ' && p == ' ')
}

/// A classification run for `e` ends before a character `c` preceded by
/// `p`: punctuation after non-punctuation, a word character directly
/// after punctuation, or a space ending a run.
pub open spec fn e_boundary(p: char, c: char) -> bool {
    (spec_is_word_delimiter(c) && !spec_is_word_delimiter(p)) || (spec_is_word_delimiter(p)
        && !spec_is_word_delimiter(c) && c != ' ') || (c == ' ' && p != ' ')
}

/// A word starts at index `i + 1` for the backward scan of `b` when the
/// character `c` at `i` and its successor `p` change classification:
/// punctuation before a non-space non-punctuation, a punctuation run
/// starting after `i`, or a space before a non-space.
pub open spec fn b_boundary(c: char, p: char) -> bool {
    (spec_is_word_delimiter(c) && !spec_is_word_delimiter(p) && p != ' ') || (
    !spec_is_word_delimiter(c) && spec_is_word_delimiter(p)) || (c == ' ' && p != ' ')
}

/// The first index at or after `i` where a `w` boundary occurs.
pub open spec fn ws_scan(line: Seq<char>, i: int) -> Option<int>
    decreases line.len() - i,
{
    if i < 0 || i >= line.len() {
        None
    } else if w_boundary(prev_char(line, i), line[i]) {
        Some(i)
    } else {
        ws_scan(line, i + 1)
    }
}

/// The first index at or after `i` where an `e` boundary occurs.
pub open spec fn e_scan(line: Seq<char>, i: int) -> Option<int>
    decreases line.len() - i,
{
    if i < 0 || i >= line.len() {
        None
    } else if e_boundary(prev_char(line, i), line[i]) {
        Some(i)
    } else {
        e_scan(line, i + 1)
    }
}

/// The last index at or before `i` where a `b` boundary occurs; the
/// index `i + 1` must stay inside the line.
pub open spec fn b_scan(line: Seq<char>, i: int) -> Option<int>
    decreases i + 1,
{
    if i < 0 || i + 1 >= line.len() {
        None
    } else if b_boundary(line[i], line[i + 1]) {
        Some(i)
    } else {
        b_scan(line, i - 1)
    }
}

/// The last index at or before `i` holding a non-space character.
pub open spec fn last_non_ws_from(line: Seq<char>, i: int) -> Option<int>
    decreases i + 1,
{
    if i < 0 || i >= line.len() {
        None
    } else if line[i] != ' ' {
        Some(i)
    } else {
        last_non_ws_from(line, i - 1)
    }
}

/// The index of the last non-space character of `line`, or the last
/// normal column when the line is empty or all spaces.
pub open spec fn spec_last_not_ws(line: Seq<char>) -> int {
    match last_non_ws_from(line, line.len() - 1) {
        Some(i) => i,
        None => spec_last_normal_col(line),
    }
}

/// The first index at or after `i` holding a non-space character.
pub open spec fn first_non_ws_from(line: Seq<char>, i: int) -> Option<int>
    decreases line.len() - i,
{
    if i < 0 || i >= line.len() {
        None
    } else if line[i] != ' ' {
        Some(i)
    } else {
        first_non_ws_from(line, i + 1)
    }
}

/// The index of the first non-space character of `line`, or zero when
/// there is none.
pub open spec fn spec_first_not_ws(line: Seq<char>) -> int {
    match first_non_ws_from(line, 0) {
        Some(i) => i,
        None => 0,
    }
}

/// The index of the last non-space character, or the last normal column
/// of an empty or all-space line.
pub fn last_not_whitespace(line: &Vec<char>) -> (r: usize)
    ensures
        r as int == spec_last_not_ws(line@),
        r as int <= spec_last_normal_col(line@),
{
    let mut i: usize = line.len();
    #[verifier::loop_isolation(false)]
    while i > 0
        invariant
            i <= line@.len(),
            last_non_ws_from(line@, line@.len() - 1) == last_non_ws_from(line@, i - 1),
        decreases i,
    {
        if line[i - 1] != ' ' {
            return i - 1;
        }
        i -= 1;
    }
    last_normal_col(line)
}

/// The index of the first non-space character, or zero for an empty or
/// all-space line.
pub fn first_not_whitespace(line: &Vec<char>) -> (r: usize)
    ensures
        r as int == spec_first_not_ws(line@),
        r as int <= spec_last_normal_col(line@),
{
    let mut i: usize = 0;
    #[verifier::loop_isolation(false)]
    while i < line.len()
        invariant
            i <= line@.len(),
            first_non_ws_from(line@, 0) == first_non_ws_from(line@, i as int),
        decreases line@.len() - i,
    {
        if line[i] != ' ' {
            return i;
        }
        i += 1;
    }
    0
}

proof fn lemma_last_non_ws_from_bound(line: Seq<char>, i: int)
    ensures
        last_non_ws_from(line, i) matches Some(j) ==> 0 <= j <= i && j < line.len(),
    decreases i + 1,
{
    if !(i < 0 || i >= line.len()) && line[i] == ' ' {
        lemma_last_non_ws_from_bound(line, i - 1);
    }
}

/// The last non-space column never passes the last normal column.
pub proof fn lemma_last_not_ws_bound(line: Seq<char>)
    ensures
        0 <= spec_last_not_ws(line) <= spec_last_normal_col(line),
{
    lemma_last_non_ws_from_bound(line, line.len() - 1);
}

proof fn lemma_first_non_ws_from_bound(line: Seq<char>, i: int)
    ensures
        first_non_ws_from(line, i) matches Some(j) ==> i <= j < line.len() && 0 <= j,
    decreases line.len() - i,
{
    if !(i < 0 || i >= line.len()) && line[i] == ' ' {
        lemma_first_non_ws_from_bound(line, i + 1);
    }
}

/// The first non-space column never passes the last normal column.
pub proof fn lemma_first_not_ws_bound(line: Seq<char>)
    ensures
        0 <= spec_first_not_ws(line) <= spec_last_normal_col(line),
{
    lemma_first_non_ws_from_bound(line, 0);
}

proof fn lemma_ws_scan_bound(line: Seq<char>, i: int)
    ensures
        ws_scan(line, i) matches Some(j) ==> i <= j < line.len() && 0 <= j,
    decreases line.len() - i,
{
    if !(i < 0 || i >= line.len()) && !w_boundary(prev_char(line, i), line[i]) {
        lemma_ws_scan_bound(line, i + 1);
    }
}

proof fn lemma_e_scan_bound(line: Seq<char>, i: int)
    ensures
        e_scan(line, i) matches Some(j) ==> i <= j < line.len() && 0 <= j,
    decreases line.len() - i,
{
    if !(i < 0 || i >= line.len()) && !e_boundary(prev_char(line, i), line[i]) {
        lemma_e_scan_bound(line, i + 1);
    }
}

proof fn lemma_b_scan_bound(line: Seq<char>, i: int)
    ensures
        b_scan(line, i) matches Some(j) ==> 0 <= j <= i && j + 1 < line.len(),
    decreases i + 1,
{
    if !(i < 0 || i + 1 >= line.len()) && !b_boundary(line[i], line[i + 1]) {
        lemma_b_scan_bound(line, i - 1);
    }
}

proof fn lemma_char_from_bound(line: Seq<char>, c: char, i: int)
    ensures
        char_from(line, c, i) matches Some(j) ==> i <= j < line.len() && 0 <= j,
    decreases line.len() - i,
{
    if !(i < 0 || i >= line.len()) && line[i] != c {
        lemma_char_from_bound(line, c, i + 1);
    }
}

proof fn lemma_char_before_bound(line: Seq<char>, c: char, i: int)
    ensures
        char_before(line, c, i) matches Some(j) ==> 0 <= j <= i && j < line.len(),
    decreases i + 1,
{
    if !(i < 0 || i >= line.len()) && line[i] != c {
        lemma_char_before_bound(line, c, i - 1);
    }
}

/// Every stop of the forward `w` scan is a valid normal-mode position.
proof fn lemma_ws_from_valid(lines: Seq<Seq<char>>, crow: int, ccol: int, r: int)
    ensures
        ws_from(lines, crow, ccol, r) matches Some(p) ==> r <= p.0 < lines.len() && 0 <= p.1
            <= spec_last_normal_col(lines[p.0]),
    decreases lines.len() - r,
{
    if !(r < 0 || r >= lines.len()) {
        let line = lines[r];
        let start: int = if r == crow {
            ccol + 1
        } else {
            0
        };
        lemma_ws_scan_bound(line, start);
        if ws_scan(line, start) is None && !(line.len() == 0 && r != crow) {
            lemma_ws_from_valid(lines, crow, ccol, r + 1);
        }
    }
}

/// Every stop of the forward `e` scan is a valid normal-mode position.
proof fn lemma_we_from_valid(lines: Seq<Seq<char>>, crow: int, ccol: int, r: int)
    ensures
        we_from(lines, crow, ccol, r) matches Some(p) ==> r <= p.0 < lines.len() && 0 <= p.1
            <= spec_last_normal_col(lines[p.0]),
    decreases lines.len() - r,
{
    if !(r < 0 || r >= lines.len()) {
        let line = lines[r];
        let start: int = if r == crow {
            ccol + 2
        } else {
            0
        };
        lemma_e_scan_bound(line, start);
        lemma_last_not_ws_bound(line);
        if e_scan(line, start) is None && !(ccol != spec_last_not_ws(line) && line.len() > 0) {
            lemma_we_from_valid(lines, crow, ccol, r + 1);
        }
    }
}

/// Every stop of the backward `b` scan is a valid normal-mode position.
proof fn lemma_pb_from_valid(lines: Seq<Seq<char>>, crow: int, ccol: int, r: int)
    requires
        r < lines.len(),
    ensures
        pb_from(lines, crow, ccol, r) matches Some(p) ==> 0 <= p.0 <= r && 0 <= p.1
            <= spec_last_normal_col(lines[p.0]),
    decreases r + 1,
{
    if r >= 0 {
        let line = lines[r];
        let start: int = if r == crow {
            ccol - 2
        } else {
            line.len() - 2
        };
        lemma_b_scan_bound(line, start);
        lemma_first_not_ws_bound(line);
        if b_scan(line, start) is None && ccol == spec_first_not_ws(line) && !(line.len() == 0 && r
            != crow) {
            lemma_pb_from_valid(lines, crow, ccol, r - 1);
        }
    }
}

/// Law: the word motions clamp.  Wherever the cursor stands, the
/// targets of the three word motions are valid normal-mode positions of
/// the buffer.
pub proof fn lemma_word_motions_clamped(lines: Seq<Seq<char>>, crow: int, ccol: int)
    requires
        lines.len() >= 1,
        0 <= crow < lines.len(),
    ensures
        ({
            let p = spec_word_start(lines, crow, ccol);
            0 <= p.0 < lines.len() && 0 <= p.1 <= spec_last_normal_col(lines[p.0])
        }),
        ({
            let p = spec_word_end(lines, crow, ccol);
            0 <= p.0 < lines.len() && 0 <= p.1 <= spec_last_normal_col(lines[p.0])
        }),
        ({
            let p = spec_prev_word_start(lines, crow, ccol);
            0 <= p.0 < lines.len() && 0 <= p.1 <= spec_last_normal_col(lines[p.0])
        }),
{
    lemma_ws_from_valid(lines, crow, ccol, crow);
    lemma_we_from_valid(lines, crow, ccol, crow);
    lemma_pb_from_valid(lines, crow, ccol, crow);
    lemma_last_not_ws_bound(lines.last());
}

/// Law: the find motions clamp.  The column a find motion lands on is
/// either the cursor column itself or the column of an occurrence
/// inside the line.
pub proof fn lemma_find_clamped(line: Seq<char>, c: char, col: int)
    ensures
        spec_find_col(line, c, col) == col || (0 <= spec_find_col(line, c, col) < line.len()),
        spec_find_prev_col(line, c, col) == col || (0 <= spec_find_prev_col(line, c, col)
            < line.len()),
{
    lemma_char_from_bound(line, c, col + 1);
    lemma_char_before_bound(line, c, col - 1);
}

/// Where the forward scan for `w` stops, examining row `r` onward: the
/// first `w` boundary, scanning the cursor row from the column after the
/// cursor and later rows in full, with an empty later row a stop of its
/// own; `None` when the scan exhausts the buffer.
pub open spec fn ws_from(lines: Seq<Seq<char>>, crow: int, ccol: int, r: int) -> Option<(int, int)>
    decreases lines.len() - r,
{
    if r < 0 || r >= lines.len() {
        None
    } else {
        let line = lines[r];
        let start: int = if r == crow {
            ccol + 1
        } else {
            0
        };
        match ws_scan(line, start) {
            Some(i) => Some((r, i)),
            None => if line.len() == 0 && r != crow {
                Some((r, 0))
            } else {
                ws_from(lines, crow, ccol, r + 1)
            },
        }
    }
}

/// The target of the `w` motion: the first stop of the forward scan, or
/// the last non-space character of the last line when there is none.
pub open spec fn spec_word_start(lines: Seq<Seq<char>>, crow: int, ccol: int) -> (int, int) {
    match ws_from(lines, crow, ccol, crow) {
        Some(p) => p,
        None => (lines.len() - 1, spec_last_not_ws(lines.last())),
    }
}

/// The start of the next word: the next change of character class after
/// the cursor, skipping runs of spaces, continuing onto later lines, and
/// clamping to the last non-space character of the buffer.
pub fn word_start(buf: &Buffer) -> (res: Position)
    requires
        buf.wf(),
    ensures
        res.row as int == spec_word_start(buf.lines(), buf.cursor.row as int, buf.cursor.col as int).0,
        res.col as int == spec_word_start(buf.lines(), buf.cursor.row as int, buf.cursor.col as int).1,
        valid_pos(buf.lines(), res),
{
    let crow = buf.cursor.row;
    let ccol = buf.cursor.col;
    let ghost lines = buf.lines();
    let mut r: usize = crow;
    #[verifier::loop_isolation(false)]
    while r < buf.content.len()
        invariant
            crow <= r <= lines.len(),
            ws_from(lines, crow as int, ccol as int, crow as int) == ws_from(
                lines,
                crow as int,
                ccol as int,
                r as int,
            ),
        decreases lines.len() - r,
    {
        let line = &buf.content[r];
        proof {
            assert(line@ == lines[r as int]);
        }
        let ghost sstart: int = if r == crow {
            ccol + 1
        } else {
            0
        };
        let mut i: usize = if r == crow {
            if ccol >= line.len() {
                line.len()
            } else {
                ccol + 1
            }
        } else {
            0
        };
        proof {
            assert(ws_scan(line@, sstart) == ws_scan(line@, i as int));
        }
        #[verifier::loop_isolation(false)]
        while i < line.len()
            invariant
                0 <= i,
                ws_scan(line@, sstart) == ws_scan(line@, i as int),
            decreases line@.len() - i,
        {
            let c = line[i];
            let prev = if i == 0 {
                ' '
            } else {
                line[i - 1]
            };
            proof {
                assert(prev == prev_char(line@, i as int));
            }
            let dc = is_word_delimiter(c);
            let dp = is_word_delimiter(prev);
            if (dc && !dp) || (dp && !dc && c != ' ') || (c != ' ' && prev == ' ') {
                proof {
                    assert(ws_scan(line@, i as int) == Some(i as int));
                }
                return Position { row: r, col: i };
            }
            i += 1;
        }
        proof {
            assert(ws_scan(line@, sstart) is None);
        }
        if line.len() == 0 && r != crow {
            return Position { row: r, col: 0 };
        }
        r += 1;
    }
    let last = buf.content.len() - 1;
    let line = &buf.content[last];
    proof {
        assert(lines.last() == line@);
    }
    Position { row: last, col: last_not_whitespace(line) }
}

/// Where the forward scan for `e` stops, examining row `r` onward: the
/// column before the first `e` boundary, scanning the cursor row from
/// two columns after the cursor and later rows in full; a row whose last
/// non-space column differs from the cursor column stops the scan at
/// that column; `None` when the scan exhausts the buffer.
pub open spec fn we_from(lines: Seq<Seq<char>>, crow: int, ccol: int, r: int) -> Option<(int, int)>
    decreases lines.len() - r,
{
    if r < 0 || r >= lines.len() {
        None
    } else {
        let line = lines[r];
        let start: int = if r == crow {
            ccol + 2
        } else {
            0
        };
        match e_scan(line, start) {
            Some(i) => Some((r, if i == 0 { 0 } else { i - 1 })),
            None => if ccol != spec_last_not_ws(line) && line.len() > 0 {
                Some((r, spec_last_not_ws(line)))
            } else {
                we_from(lines, crow, ccol, r + 1)
            },
        }
    }
}

/// The target of the `e` motion: the first stop of the forward scan, or
/// the last non-space character of the last line when there is none.
pub open spec fn spec_word_end(lines: Seq<Seq<char>>, crow: int, ccol: int) -> (int, int) {
    match we_from(lines, crow, ccol, crow) {
        Some(p) => p,
        None => (lines.len() - 1, spec_last_not_ws(lines.last())),
    }
}

/// The end of the current or next word: the column before the next
/// change of character class, skipping the end of a space run, crossing
/// onto later lines, and clamping to the last non-space character of the
/// buffer.
pub fn word_end(buf: &Buffer) -> (res: Position)
    requires
        buf.wf(),
    ensures
        res.row as int == spec_word_end(buf.lines(), buf.cursor.row as int, buf.cursor.col as int).0,
        res.col as int == spec_word_end(buf.lines(), buf.cursor.row as int, buf.cursor.col as int).1,
        valid_pos(buf.lines(), res),
{
    let crow = buf.cursor.row;
    let ccol = buf.cursor.col;
    let ghost lines = buf.lines();
    let mut r: usize = crow;
    #[verifier::loop_isolation(false)]
    while r < buf.content.len()
        invariant
            crow <= r <= lines.len(),
            we_from(lines, crow as int, ccol as int, crow as int) == we_from(
                lines,
                crow as int,
                ccol as int,
                r as int,
            ),
        decreases lines.len() - r,
    {
        let line = &buf.content[r];
        proof {
            assert(line@ == lines[r as int]);
        }
        let ghost sstart: int = if r == crow {
            ccol + 2
        } else {
            0
        };
        let mut i: usize = if r == crow {
            if ccol < line.len() && line.len() - ccol > 1 {
                ccol + 2
            } else {
                line.len()
            }
        } else {
            0
        };
        proof {
            assert(e_scan(line@, sstart) == e_scan(line@, i as int));
        }
        #[verifier::loop_isolation(false)]
        while i < line.len()
            invariant
                0 <= i,
                e_scan(line@, sstart) == e_scan(line@, i as int),
            decreases line@.len() - i,
        {
            let c = line[i];
            let prev = if i == 0 {
                ' '
            } else {
                line[i - 1]
            };
            proof {
                assert(prev == prev_char(line@, i as int));
            }
            let dc = is_word_delimiter(c);
            let dp = is_word_delimiter(prev);
            if (dc && !dp) || (dp && !dc && c != ' ') || (c == ' ' && prev != ' ') {
                proof {
                    assert(e_scan(line@, i as int) == Some(i as int));
                }
                let col = if i == 0 {
                    0
                } else {
                    i - 1
                };
                return Position { row: r, col };
            }
            i += 1;
        }
        proof {
            assert(e_scan(line@, sstart) is None);
        }
        let lnw = last_not_whitespace(line);
        if ccol != lnw && line.len() > 0 {
            return Position { row: r, col: lnw };
        }
        r += 1;
    }
    let last = buf.content.len() - 1;
    let line = &buf.content[last];
    proof {
        assert(lines.last() == line@);
    }
    Position { row: last, col: last_not_whitespace(line) }
}

/// Where the backward scan for `b` stops, examining row `r` and earlier:
/// the column after the last `b` boundary, scanning the cursor row from
/// two columns before the cursor and earlier rows from their ends; a row
/// whose first non-space column differs from the cursor column stops the
/// scan there, and an empty earlier row stops it at column zero; `None`
/// when the scan exhausts the buffer.
pub open spec fn pb_from(lines: Seq<Seq<char>>, crow: int, ccol: int, r: int) -> Option<(int, int)>
    decreases r + 1,
{
    if r < 0 {
        None
    } else {
        let line = lines[r];
        let start: int = if r == crow {
            ccol - 2
        } else {
            line.len() - 2
        };
        match b_scan(line, start) {
            Some(i) => Some((r, i + 1)),
            None => if ccol != spec_first_not_ws(line) {
                Some((r, spec_first_not_ws(line)))
            } else if line.len() == 0 && r != crow {
                Some((r, 0))
            } else {
                pb_from(lines, crow, ccol, r - 1)
            },
        }
    }
}

/// The target of the `b` motion: the first stop of the backward scan,
/// or the origin when the scan exhausts the buffer -- the motion clamps
/// to row 0, column 0 at the start of the buffer.
pub open spec fn spec_prev_word_start(lines: Seq<Seq<char>>, crow: int, ccol: int) -> (int, int) {
    match pb_from(lines, crow, ccol, crow) {
        Some(p) => p,
        None => (0, 0),
    }
}

/// The start of the previous word: the previous change of character
/// class before the cursor, skipping runs of spaces, continuing onto
/// earlier lines, and clamping to the origin at the start of the
/// buffer.
pub fn prev_word_start(buf: &Buffer) -> (res: Position)
    requires
        buf.wf(),
    ensures
        res.row as int == spec_prev_word_start(
            buf.lines(),
            buf.cursor.row as int,
            buf.cursor.col as int,
        ).0,
        res.col as int == spec_prev_word_start(
            buf.lines(),
            buf.cursor.row as int,
            buf.cursor.col as int,
        ).1,
        valid_pos(buf.lines(), res),
{
    let crow = buf.cursor.row;
    let ccol = buf.cursor.col;
    let ghost lines = buf.lines();
    let mut r: usize = crow;
    #[verifier::loop_isolation(false)]
    loop
        invariant
            r <= crow,
            pb_from(lines, crow as int, ccol as int, crow as int) == pb_from(
                lines,
                crow as int,
                ccol as int,
                r as int,
            ),
        decreases r,
    {
        let line = &buf.content[r];
        proof {
            assert(line@ == lines[r as int]);
        }
        let ghost sstart: int = if r == crow {
            ccol - 2
        } else {
            line@.len() - 2
        };
        let mut k: usize = if r == crow {
            if ccol == 0 {
                0
            } else {
                ccol - 1
            }
        } else {
            if line.len() <= 1 {
                0
            } else {
                line.len() - 1
            }
        };
        proof {
            assert(sstart <= line@.len() - 2);
            assert(b_scan(line@, sstart) == b_scan(line@, k as int - 1));
        }
        #[verifier::loop_isolation(false)]
        while k > 0
            invariant
                k == 0 || k as int - 1 <= sstart,
                b_scan(line@, sstart) == b_scan(line@, k as int - 1),
            decreases k,
        {
            let c = line[k - 1];
            let p = line[k];
            let dc = is_word_delimiter(c);
            let dp = is_word_delimiter(p);
            if (dc && !dp && p != ' ') || (!dc && dp) || (c == ' ' && p != ' ') {
                proof {
                    assert(b_scan(line@, k as int - 1) == Some(k as int - 1));
                }
                return Position { row: r, col: k };
            }
            k -= 1;
        }
        proof {
            assert(b_scan(line@, sstart) is None);
        }
        let fnw = first_not_whitespace(line);
        if ccol != fnw {
            return Position { row: r, col: fnw };
        }
        if line.len() == 0 && r != crow {
            return Position { row: r, col: 0 };
        }
        if r == 0 {
            proof {
                assert(pb_from(lines, crow as int, ccol as int, -1) is None);
            }
            return Position { row: 0, col: 0 };
        }
        r -= 1;
    }
}

} // verus!
