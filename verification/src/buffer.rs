use vstd::prelude::*;

use crate::event::Event;
use crate::mode::Key;
use crate::mode::Mode;
use crate::utils::append_chars;
use crate::utils::chars_to_string;

verus! {

/// A location in a buffer: `row` indexes a line, `col` a character of
/// that line.  Validity is relative to a buffer; see `Buffer::inv`.
#[derive(Clone, Copy, Debug, PartialEq, Eq, Structural)]
pub struct Position {
    pub col: usize,
    pub row: usize,
}

impl Default for Position {
    /// The origin, row 0 column 0.
    fn default() -> (r: Self)
        ensures
            r == (Position { col: 0, row: 0 }),
    {
        Position { col: 0, row: 0 }
    }
}

/// The status line shown to the user: a text and whether it reports an
/// error.
pub struct Output {
    pub message: String,
    pub error: bool,
}

/// The view of a register file: a map from one-character register names
/// to the stored text.
pub open spec fn reg_model(s: Seq<(char, String)>) -> Map<char, Seq<char>>
    decreases s.len(),
{
    if s.len() == 0 {
        Map::empty()
    } else {
        reg_model(s.drop_last()).insert(s.last().0, s.last().1@)
    }
}

/// No register name occurs twice in the slot list.
pub open spec fn distinct_keys(s: Seq<(char, String)>) -> bool {
    forall|i: int, j: int| 0 <= i < j < s.len() ==> (#[trigger] s[i]).0 != (#[trigger] s[j]).0
}

proof fn lemma_reg_model_lookup(s: Seq<(char, String)>, c: char)
    requires
        distinct_keys(s),
    ensures
        reg_model(s).contains_key(c) <==> exists|i: int| 0 <= i < s.len() && (#[trigger] s[i]).0 == c,
        forall|i: int| 0 <= i < s.len() && (#[trigger] s[i]).0 == c ==> reg_model(s)[c] == s[i].1@,
    decreases s.len(),
{
    if s.len() > 0 {
        let d = s.drop_last();
        assert(distinct_keys(d)) by {
            assert(forall|i: int, j: int|
                0 <= i < j < d.len() ==> (#[trigger] d[i]).0 != (#[trigger] d[j]).0) by {
                assert(forall|i: int| 0 <= i < d.len() ==> d[i] == s[i]);
            }
        }
        lemma_reg_model_lookup(d, c);
        if s.last().0 == c {
            assert(s[s.len() - 1].0 == c);
        } else {
            if reg_model(s).contains_key(c) {
                let i = choose|i: int| 0 <= i < d.len() && (#[trigger] d[i]).0 == c;
                assert(s[i].0 == c);
            }
            if exists|i: int| 0 <= i < s.len() && (#[trigger] s[i]).0 == c {
                let i = choose|i: int| 0 <= i < s.len() && (#[trigger] s[i]).0 == c;
                assert(i < s.len() - 1 || s[i].0 != c);
                assert(d[i] == s[i]);
            }
        }
    }
}

/// A register file: named one-character slots holding the most recently
/// deleted text.  The slot `'*'` is the default register, written by
/// every delete unless a named register is targeted.  One register file
/// serves a whole editing session: the host owns it and passes it by
/// mutable reference into every key dispatch, so every buffer of the
/// session reads and writes the same slots and the last write wins.
/// The engine is single-threaded; a host that shares one register file
/// across threads must add its own mutual exclusion.
pub struct Register {
    slots: Vec<(char, String)>,
}

impl View for Register {
    type V = Map<char, Seq<char>>;

    closed spec fn view(&self) -> Map<char, Seq<char>> {
        reg_model(self.slots@)
    }
}

impl Register {
    /// Slot names are distinct, so the map view determines each slot.
    pub closed spec fn wf(&self) -> bool {
        distinct_keys(self.slots@)
    }

    /// An empty register file.
    pub fn new() -> (r: Register)
        ensures
            r@ == Map::<char, Seq<char>>::empty(),
            r.wf(),
    {
        Register { slots: Vec::new() }
    }

    /// The text stored under `c`, or the empty string when the slot was
    /// never written.
    #[verifier::loop_isolation(false)]
    pub fn get(&self, c: char) -> (r: String)
        requires
            self.wf(),
        ensures
            self@.contains_key(c) ==> r@ == self@[c],
            !self@.contains_key(c) ==> r@ == Seq::<char>::empty(),
    {
        proof {
            lemma_reg_model_lookup(self.slots@, c);
        }
        let mut i: usize = 0;
        while i < self.slots.len()
            invariant
                i <= self.slots@.len(),
                forall|j: int| 0 <= j < i ==> (#[trigger] self.slots@[j]).0 != c,
            decreases self.slots@.len() - i,
        {
            let p = &self.slots[i];
            if p.0 == c {
                return p.1.clone();
            }
            i += 1;
        }
        String::new()
    }

    /// Stores `value` under `c`, returning the previous text of that
    /// slot if there was one.  The last write wins; there is no capacity
    /// limit and no eviction.
    #[verifier::loop_isolation(false)]
    pub fn set(&mut self, c: char, value: String) -> (prev: Option<String>)
        requires
            old(self).wf(),
        ensures
            final(self).wf(),
            final(self)@ == old(self)@.insert(c, value@),
            old(self)@.contains_key(c) ==> (prev matches Some(p) && p@ == old(self)@[c]),
            !old(self)@.contains_key(c) ==> prev is None,
    {
        proof {
            lemma_reg_model_lookup(self.slots@, c);
        }
        let mut i: usize = 0;
        while i < self.slots.len()
            invariant
                i <= self.slots@.len(),
                self.slots@ == old(self).slots@,
                forall|j: int| 0 <= j < i ==> (#[trigger] self.slots@[j]).0 != c,
            decreases self.slots@.len() - i,
        {
            let p = &self.slots[i];
            if p.0 == c {
                let previous = p.1.clone();
                self.slots[i] = (c, value);
                proof {
                    lemma_reg_model_update(old(self).slots@, i as int, c, self.slots@[i as int].1);
                }
                return Some(previous);
            }
            i += 1;
        }
        self.slots.push((c, value));
        proof {
            assert(self.slots@.drop_last() =~= old(self).slots@);
            assert(self@ == old(self)@.insert(c, value@));
        }
        None
    }

    /// The default slot, `'*'`.
    pub fn get_default(&self) -> (r: String)
        requires
            self.wf(),
        ensures
            self@.contains_key('*') ==> r@ == self@['*'],
            !self@.contains_key('*') ==> r@ == Seq::<char>::empty(),
    {
        self.get('*')
    }

    /// Stores `value` in the default slot, `'*'`.
    pub fn set_default(&mut self, value: String) -> (prev: Option<String>)
        requires
            old(self).wf(),
        ensures
            final(self).wf(),
            final(self)@ == old(self)@.insert('*', value@),
            old(self)@.contains_key('*') ==> (prev matches Some(p) && p@ == old(self)@['*']),
            !old(self)@.contains_key('*') ==> prev is None,
    {
        self.set('*', value)
    }
}

proof fn lemma_reg_model_update(s: Seq<(char, String)>, i: int, c: char, value: String)
    requires
        distinct_keys(s),
        0 <= i < s.len(),
        s[i].0 == c,
    ensures
        distinct_keys(s.update(i, (c, value))),
        reg_model(s.update(i, (c, value))) == reg_model(s).insert(c, value@),
    decreases s.len(),
{
    let u = s.update(i, (c, value));
    assert(distinct_keys(u)) by {
        assert(forall|k: int| 0 <= k < s.len() ==> (#[trigger] u[k]).0 == s[k].0);
    }
    if i == s.len() - 1 {
        assert(u.drop_last() =~= s.drop_last());
        assert(reg_model(u) == reg_model(s.drop_last()).insert(c, value@));
        assert(reg_model(s) == reg_model(s.drop_last()).insert(c, s[i].1@));
        assert(reg_model(s).insert(c, value@) =~= reg_model(s.drop_last()).insert(c, value@));
    } else {
        let d = s.drop_last();
        assert(distinct_keys(d)) by {
            assert(forall|k: int| 0 <= k < d.len() ==> d[k] == s[k]);
        }
        assert(d[i] == s[i]);
        lemma_reg_model_update(d, i, c, value);
        assert(u.drop_last() =~= d.update(i, (c, value)));
        assert(u.last() == s.last());
        assert(reg_model(u) == reg_model(d).insert(c, value@).insert(s.last().0, s.last().1@));
        assert(s.last().0 != c);
        assert(reg_model(d).insert(c, value@).insert(s.last().0, s.last().1@) =~= reg_model(
            d,
        ).insert(s.last().0, s.last().1@).insert(c, value@));
    }
}

/// The views of a sequence of line vectors.
pub open spec fn line_views(v: Vec<Vec<char>>) -> Seq<Seq<char>> {
    v@.map_values(|l: Vec<char>| l@)
}

/// The rightmost column a normal-mode cursor may occupy on `line`:
/// length minus one, or zero on an empty line.
pub open spec fn spec_last_normal_col(line: Seq<char>) -> int {
    if line.len() == 0 {
        0
    } else {
        line.len() - 1
    }
}

/// The inclusive upper bound of the cursor column under `mode`: insert
/// mode may stand one past the end of the line, every other mode is
/// confined to the last normal column.
pub open spec fn cursor_col_bound(line: Seq<char>, mode: Mode) -> int {
    match mode {
        Mode::Insert => line.len() as int,
        _ => spec_last_normal_col(line),
    }
}

/// The rightmost normal-mode column of `line`, executable form.
pub fn last_normal_col(line: &Vec<char>) -> (c: usize)
    ensures
        c as int == spec_last_normal_col(line@),
{
    if line.len() == 0 {
        0
    } else {
        line.len() - 1
    }
}

/// Splitting `text` on newlines, accumulating the current piece.
pub open spec fn split_acc(text: Seq<char>, cur: Seq<char>) -> Seq<Seq<char>>
    decreases text.len(),
{
    if text.len() == 0 {
        seq![cur]
    } else if text[0] == '\n' {
        seq![cur] + split_acc(text.skip(1), Seq::empty())
    } else {
        split_acc(text.skip(1), cur.push(text[0]))
    }
}

/// The pieces of `text` between newlines, including a final (possibly
/// empty) piece after the last newline.
pub open spec fn raw_lines(text: Seq<char>) -> Seq<Seq<char>> {
    split_acc(text, Seq::empty())
}

/// Drops one carriage return at the end of a piece, so that a CRLF line
/// break leaves no `'\r'` behind.
pub open spec fn strip_cr(line: Seq<char>) -> Seq<char> {
    if line.len() > 0 && line.last() == '\r' {
        line.drop_last()
    } else {
        line
    }
}

/// The line sequence a text loads as: pieces split at `'\n'`, each piece
/// that was terminated by a newline stripped of a trailing `'\r'`, and
/// no empty final piece for a text that ends in a newline.  The empty
/// text loads as one empty line, so a loaded buffer never has zero
/// lines.
pub open spec fn spec_lines_of(text: Seq<char>) -> Seq<Seq<char>> {
    let raw = raw_lines(text);
    if text.len() > 0 && text.last() == '\n' {
        raw.drop_last().map_values(|l: Seq<char>| strip_cr(l))
    } else {
        raw.drop_last().map_values(|l: Seq<char>| strip_cr(l)).push(raw.last())
    }
}

proof fn lemma_split_acc_len(text: Seq<char>, cur: Seq<char>)
    ensures
        split_acc(text, cur).len() >= 1,
        text.len() > 0 && text.last() == '\n' ==> split_acc(text, cur).len() >= 2,
    decreases text.len(),
{
    if text.len() > 0 {
        if text[0] == '\n' {
            lemma_split_acc_len(text.skip(1), Seq::empty());
        } else {
            lemma_split_acc_len(text.skip(1), cur.push(text[0]));
            if text.last() == '\n' {
                assert(text.len() >= 2);
                assert(text.skip(1).last() == text.last());
            }
        }
    }
}

/// Splits a text into its lines; the result always has at least one
/// line, the empty text yielding one empty line.
#[verifier::loop_isolation(false)]
pub fn load_lines(text: &str) -> (lines: Vec<Vec<char>>)
    ensures
        line_views(lines) == spec_lines_of(text@),
        lines@.len() >= 1,
{
    let n = text.unicode_len();
    let mut raw: Vec<Vec<char>> = Vec::new();
    let mut cur: Vec<char> = Vec::new();
    let ghost mut done: Seq<Seq<char>> = Seq::empty();
    let mut last_was_nl = false;
    let mut i: usize = 0;
    proof {
        assert(text@.skip(0) =~= text@);
        assert(done + split_acc(text@, Seq::empty()) =~= split_acc(text@, Seq::empty()));
    }
    while i < n
        invariant
            i <= n,
            n == text@.len(),
            raw_lines(text@) == done + split_acc(text@.skip(i as int), cur@),
            done.len() == raw@.len(),
            forall|j: int| 0 <= j < done.len() ==> done[j] == (#[trigger] raw@[j])@,
            i > 0 ==> last_was_nl == (text@[i as int - 1] == '\n'),
            i == 0 ==> !last_was_nl,
            last_was_nl ==> cur@.len() == 0,
        decreases n - i,
    {
        let c = text.get_char(i);
        proof {
            assert(text@.skip(i as int)[0] == c);
            assert(text@.skip(i as int).skip(1) =~= text@.skip(i as int + 1));
        }
        if c == '\n' {
            proof {
                assert(done + split_acc(text@.skip(i as int), cur@) =~= (done + seq![cur@])
                    + split_acc(text@.skip(i as int + 1), Seq::empty()));
                done = done + seq![cur@];
            }
            raw.push(cur);
            cur = Vec::new();
            last_was_nl = true;
        } else {
            cur.push(c);
            last_was_nl = false;
        }
        i += 1;
    }
    proof {
        assert(text@.skip(n as int) =~= Seq::<char>::empty());
        assert(raw_lines(text@) =~= done.push(cur@));
        lemma_split_acc_len(text@, Seq::empty());
        if n > 0 {
            assert(text@.last() == text@[n as int - 1]);
        }
    }
    let ghost orig = raw@;
    let mut k: usize = 0;
    while k < raw.len()
        invariant
            k <= raw@.len(),
            raw@.len() == orig.len(),
            forall|j: int| 0 <= j < k ==> (#[trigger] raw@[j])@ == strip_cr(orig[j]@),
            forall|j: int| k <= j < orig.len() ==> #[trigger] raw@[j] == orig[j],
        decreases raw@.len() - k,
    {
        let len_k = raw[k].len();
        if len_k > 0 {
            let last = raw[k][len_k - 1];
            if last == '\r' {
                let piece = &mut raw[k];
                piece.pop();
                proof {
                    assert(raw@[k as int]@ =~= orig[k as int]@.drop_last());
                }
            }
        }
        k += 1;
    }
    if n == 0 || !last_was_nl {
        raw.push(cur);
        proof {
            assert(line_views(raw) =~= spec_lines_of(text@)) by {
                assert(raw_lines(text@).drop_last() =~= done);
                assert forall|j: int| 0 <= j < raw@.len() implies line_views(raw)[j]
                    == spec_lines_of(text@)[j] by {
                    if j < raw@.len() - 1 {
                        assert(raw@[j]@ == strip_cr(orig[j]@));
                        assert(orig[j]@ == done[j]);
                    } else {
                        assert(raw@[j]@ == cur@);
                    }
                }
            }
        }
    } else {
        proof {
            assert(cur@.len() == 0);
            assert(line_views(raw) =~= spec_lines_of(text@)) by {
                assert(raw_lines(text@).drop_last() =~= done);
                assert forall|j: int| 0 <= j < raw@.len() implies line_views(raw)[j]
                    == spec_lines_of(text@)[j] by {
                    assert(raw@[j]@ == strip_cr(orig[j]@));
                    assert(orig[j]@ == done[j]);
                }
            }
            assert(raw@.len() >= 1);
        }
    }
    raw
}

/// Joining lines with a newline between each pair; the inverse of
/// loading for texts without carriage returns or a trailing newline.
pub open spec fn join_nl(lines: Seq<Seq<char>>) -> Seq<char>
    decreases lines.len(),
{
    if lines.len() == 0 {
        Seq::empty()
    } else if lines.len() == 1 {
        lines[0]
    } else {
        lines[0] + seq!['\n'] + join_nl(lines.skip(1))
    }
}

/// How long a lone `d` (or other partial key sequence) survives in the
/// normal-mode accumulator: a later key arriving more than this many
/// milliseconds after the previous one starts a fresh sequence.
pub const IDLE_TIMEOUT_MS: u64 = 1000;

/// A line-oriented text buffer with its cursor and editing state.
///
/// Invariants (see `inv`): the line list is never empty -- an empty
/// document is one empty line; the cursor row indexes an existing line;
/// the cursor column stays within the bound of the current mode.
///
/// The buffer performs no input or output itself: the host delivers
/// resolved keys to `handle_keys` together with the session's register
/// file and a clock reading, writes the file when `pending_write` is
/// set (using `serialize`), and reports failures back through
/// `set_message`.
pub struct Buffer {
    pub filename: String,
    pub content: Vec<Vec<char>>,
    pub cursor: Position,
    pub keys: Vec<char>,
    pub mode: Mode,
    pub exit: bool,
    pub events: Vec<Event>,
    pub pending_write: bool,
    pub last_key_ms: u64,
    pub message: Output,
}

impl Buffer {
    /// The mathematical contents: one character sequence per line.
    pub open spec fn lines(&self) -> Seq<Seq<char>> {
        line_views(self.content)
    }

    /// The line under the cursor.
    pub open spec fn cur_line(&self) -> Seq<char> {
        self.lines()[self.cursor.row as int]
    }

    /// Basic well-formedness: at least one line, the cursor row in
    /// range, and the cursor column at most the current line's length.
    /// Every operation of the engine keeps this; a delete may leave the
    /// normal-mode cursor one past the last normal column, which the
    /// next motion clamps away.
    pub open spec fn wf(&self) -> bool {
        &&& self.content@.len() >= 1
        &&& (self.cursor.row as int) < self.content@.len()
        &&& (self.cursor.col as int) <= self.cur_line().len()
    }

    /// The full buffer invariant: well-formed, and the cursor column
    /// within the bound of the current mode.
    pub open spec fn inv(&self) -> bool {
        &&& self.wf()
        &&& (self.cursor.col as int) <= cursor_col_bound(self.cur_line(), self.mode)
    }

    /// The fields owned by the host's view of the session agree between
    /// `self` and `other`: everything but the contents, the cursor, the
    /// mode and the key accumulator.
    pub open spec fn same_host_fields(&self, other: &Buffer) -> bool {
        &&& self.filename == other.filename
        &&& self.exit == other.exit
        &&& self.events == other.events
        &&& self.pending_write == other.pending_write
        &&& self.last_key_ms == other.last_key_ms
        &&& self.spec_message() == other.spec_message()
        &&& self.spec_message_error() == other.spec_message_error()
    }

    /// Everything outside the edited state agrees between `self` and
    /// `other`: all fields but the contents and the cursor.  The delete
    /// engine changes only those and the session register.
    pub open spec fn same_except_edit(&self, other: &Buffer) -> bool {
        &&& self.same_host_fields(other)
        &&& self.keys == other.keys
        &&& self.mode == other.mode
    }

    /// The edited state agrees between `self` and `other`: the
    /// contents and the cursor.
    pub open spec fn same_edit_fields(&self, other: &Buffer) -> bool {
        &&& self.content == other.content
        &&& self.cursor == other.cursor
    }

    /// The current status text.
    pub open spec fn spec_message(&self) -> Seq<char> {
        self.message.message@
    }

    /// Whether the status text reports an error.
    pub open spec fn spec_message_error(&self) -> bool {
        self.message.error
    }

    /// A buffer over the given text.  The host reads the file; the
    /// buffer only splits the text into lines.  The session register
    /// stays with the host and accompanies every call of
    /// `handle_keys`.
    pub fn new(filename: String, text: &str) -> (buf: Buffer)
        ensures
            buf.inv(),
            buf.filename == filename,
            buf.lines() == spec_lines_of(text@),
            buf.cursor == (Position { col: 0, row: 0 }),
            buf.keys@ == Seq::<char>::empty(),
            buf.mode == Mode::Normal,
            !buf.exit,
            !buf.pending_write,
            buf.events@ == Seq::<Event>::empty(),
            buf.last_key_ms == 0,
            buf.spec_message() == Seq::<char>::empty(),
            !buf.spec_message_error(),
    {
        let content = load_lines(text);
        Buffer {
            filename,
            content,
            cursor: Position { col: 0, row: 0 },
            keys: Vec::new(),
            mode: Mode::Normal,
            exit: false,
            events: Vec::new(),
            pending_write: false,
            last_key_ms: 0,
            message: Output { message: String::new(), error: false },
        }
    }

    /// A buffer over the given text without a file name.
    pub fn test(text: &str) -> (buf: Buffer)
        ensures
            buf.inv(),
            buf.filename@ == Seq::<char>::empty(),
            buf.lines() == spec_lines_of(text@),
            buf.cursor == (Position { col: 0, row: 0 }),
            buf.keys@ == Seq::<char>::empty(),
            buf.mode == Mode::Normal,
            !buf.exit,
            !buf.pending_write,
            buf.events@ == Seq::<Event>::empty(),
            buf.last_key_ms == 0,
    {
        Buffer::new(String::new(), text)
    }

    /// The joined text of the buffer, lines separated by newlines; what
    /// the host writes back to the file.
    #[verifier::loop_isolation(false)]
    pub fn serialize(&self) -> (r: String)
        ensures
            r@ == join_nl(self.lines()),
    {
        let mut acc: Vec<char> = Vec::new();
        let mut r: usize = 0;
        proof {
            assert(acc@ + join_nl(self.lines().skip(0)) =~= join_nl(self.lines().skip(0)));
            assert(self.lines().skip(0) =~= self.lines());
        }
        while r < self.content.len()
            invariant
                r <= self.content@.len(),
                self.content@.len() == self.lines().len(),
                join_nl(self.lines()) == acc@ + join_nl(self.lines().skip(r as int)),
            decreases self.content@.len() - r,
        {
            let ghost rest = self.lines().skip(r as int);
            let ghost acc0 = acc@;
            proof {
                assert(rest[0] == self.lines()[r as int]);
                assert(rest.len() == self.lines().len() - r);
            }
            let line = &self.content[r];
            proof {
                assert(line@ == self.lines()[r as int]);
            }
            append_chars(&mut acc, line);
            if r + 1 < self.content.len() {
                acc.push('\n');
                proof {
                    assert(rest.skip(1) =~= self.lines().skip(r as int + 1));
                    assert(join_nl(rest) == rest[0] + seq!['\n'] + join_nl(rest.skip(1)));
                    assert(acc@ + join_nl(self.lines().skip(r as int + 1)) =~= acc0 + join_nl(
                        rest,
                    ));
                }
            } else {
                proof {
                    assert(rest.len() == 1);
                    assert(join_nl(rest) == rest[0]);
                    assert(self.lines().skip(r as int + 1) =~= Seq::<Seq<char>>::empty());
                    assert(acc@ + join_nl(self.lines().skip(r as int + 1)) =~= acc0 + join_nl(
                        rest,
                    ));
                }
            }
            r += 1;
        }
        proof {
            assert(join_nl(self.lines().skip(self.content@.len() as int)) =~= Seq::<char>::empty());
            assert(acc@ + Seq::<char>::empty() =~= acc@);
        }
        chars_to_string(&acc)
    }

    /// Switches to `mode` and clears the key accumulator; every other
    /// part of the state is kept.
    pub fn change_mode(&mut self, mode: Mode)
        ensures
            final(self).mode == mode,
            final(self).keys@ == Seq::<char>::empty(),
            final(self).filename == old(self).filename,
            final(self).content == old(self).content,
            final(self).cursor == old(self).cursor,
            final(self).exit == old(self).exit,
            final(self).events == old(self).events,
            final(self).pending_write == old(self).pending_write,
            final(self).last_key_ms == old(self).last_key_ms,
            final(self).spec_message() == old(self).spec_message(),
            final(self).spec_message_error() == old(self).spec_message_error(),
    {
        self.mode = mode;
        self.keys = Vec::new();
    }

    /// The line at index `row`; the row must exist.
    pub fn row(&self, row: usize) -> (line: &Vec<char>)
        requires
            (row as int) < self.content@.len(),
        ensures
            line@ == self.lines()[row as int],
    {
        &self.content[row]
    }

    /// The current status text.
    pub fn message(&self) -> (r: &String)
        ensures
            r@ == self.spec_message(),
    {
        &self.message.message
    }

    /// Whether the status text reports an error.
    pub fn message_error(&self) -> (r: bool)
        ensures
            r == self.spec_message_error(),
    {
        self.message.error
    }

    /// Routes one input key through the current mode's handler.  The
    /// host passes the session's register file, which a delete writes,
    /// and its clock reading in `now_ms`, which drives the normal-mode
    /// idle timeout.
    pub fn handle_keys(&mut self, register: &mut Register, key: Key, now_ms: u64)
        requires
            old(self).wf(),
            old(register).wf(),
        ensures
            final(self).wf(),
            final(register).wf(),
            old(self).mode is Normal ==> crate::mode::normal::normal_key_rel(
                *old(self),
                *final(self),
                old(register)@,
                final(register)@,
                key,
                now_ms,
            ),
            old(self).mode is Insert ==> crate::mode::insert::insert_key_rel(
                *old(self),
                *final(self),
                key,
            ) && final(register)@ == old(register)@,
            old(self).mode is Command ==> crate::mode::command::command_key_rel(
                *old(self),
                *final(self),
                key,
            ) && final(register)@ == old(register)@,
    {
        let mode = self.mode;
        mode.handle_keys(self, register, key, now_ms);
    }

    /// Replaces the status text; the host reports file failures here.
    pub fn set_message(&mut self, text: String, error: bool)
        ensures
            final(self).spec_message() == text@,
            final(self).spec_message_error() == error,
            final(self).filename == old(self).filename,
            final(self).content == old(self).content,
            final(self).cursor == old(self).cursor,
            final(self).keys == old(self).keys,
            final(self).mode == old(self).mode,
            final(self).exit == old(self).exit,
            final(self).events == old(self).events,
            final(self).pending_write == old(self).pending_write,
            final(self).last_key_ms == old(self).last_key_ms,
    {
        self.message = Output { message: text, error };
    }
}

} // verus!
