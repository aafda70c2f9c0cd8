use vstd::prelude::*;

use crate::buffer::Buffer;
use crate::utils::chars_to_string;

verus! {

/// The delimiters of the word parser; a wider set than the navigation
/// engine's, covering quoting and arithmetic punctuation as well.
pub open spec fn spec_is_parse_delimiter(c: char) -> bool {
    c == '(' || c == ')' || c == '[' || c == ']' || c == '{' || c == '}' || c == '$' || c == '?'
        || c == '^' || c == '&' || c == '=' || c == '-' || c == '/' || c == '\\' || c == ','
        || c == '.' || c == '\'' || c == '"' || c == '>' || c == '<'
}

/// Whether `c` is one of the word parser's delimiters.
pub fn is_parse_delimiter(c: char) -> (r: bool)
    ensures
        r == spec_is_parse_delimiter(c),
{
    c == '(' || c == ')' || c == '[' || c == ']' || c == '{' || c == '}' || c == '$' || c == '?'
        || c == '^' || c == '&' || c == '=' || c == '-' || c == '/' || c == '\\' || c == ','
        || c == '.' || c == '\'' || c == '"' || c == '>' || c == '<'
}

/// A word found on a line: its text and the inclusive column range it
/// spans.
#[derive(Debug, PartialEq)]
pub struct Word {
    content: String,
    start: usize,
    end: usize,
    row: usize,
}

impl Word {
    /// The word's text.
    pub closed spec fn spec_content(&self) -> Seq<char> {
        self.content@
    }

    /// The column of the word's first character.
    pub closed spec fn spec_start(&self) -> int {
        self.start as int
    }

    /// The column of the word's last character.
    pub closed spec fn spec_end(&self) -> int {
        self.end as int
    }

    /// The row the word stands on.
    pub closed spec fn spec_row(&self) -> int {
        self.row as int
    }

    /// A word with the given text and extent.
    pub fn new(content: String, start: usize, end: usize, row: usize) -> (w: Word)
        ensures
            w.spec_content() == content@,
            w.spec_start() == start as int,
            w.spec_end() == end as int,
            w.spec_row() == row as int,
    {
        Word { content, start, end, row }
    }
}

/// The words of `line` from index `i` on, continuing a run that began
/// at `start` with the characters `chars`, appended to `acc`: a space
/// ends a non-empty run, a delimiter ends the run and starts a new one
/// of its own, and any remaining run ends at the last column.
pub open spec fn words_fold(
    line: Seq<char>,
    i: int,
    start: int,
    chars: Seq<char>,
    acc: Seq<(Seq<char>, int, int)>,
) -> Seq<(Seq<char>, int, int)>
    decreases line.len() - i,
{
    if i < 0 || i >= line.len() {
        if chars.len() > 0 {
            acc.push((chars, start, line.len() - 1))
        } else {
            acc
        }
    } else {
        let c = line[i];
        if c == ' ' && chars.len() > 0 {
            words_fold(line, i + 1, start, Seq::empty(), acc.push((chars, start, i - 1)))
        } else if spec_is_parse_delimiter(c) {
            words_fold(line, i + 1, i, seq![c], acc.push((chars, start, i - 1)))
        } else if chars.len() == 0 {
            words_fold(line, i + 1, i, seq![c], acc)
        } else {
            words_fold(line, i + 1, start, chars.push(c), acc)
        }
    }
}

/// The words of a whole line.
pub open spec fn spec_parse_words(line: Seq<char>) -> Seq<(Seq<char>, int, int)> {
    words_fold(line, 0, 0, Seq::empty(), Seq::empty())
}

/// Splits the cursor's line into words: runs separated by spaces, each
/// delimiter character opening a run of its own.  The line must not
/// open with a delimiter, which would leave the first run without a
/// preceding column to end at.
pub fn parse_words(buf: &Buffer) -> (words: Vec<Word>)
    requires
        buf.wf(),
        buf.cur_line().len() > 0 ==> !spec_is_parse_delimiter(buf.cur_line()[0]),
    ensures
        words@.len() == spec_parse_words(buf.cur_line()).len(),
        forall|k: int|
            0 <= k < words@.len() ==> {
                &&& (#[trigger] words@[k]).spec_content() == spec_parse_words(buf.cur_line())[k].0
                &&& words@[k].spec_start() == spec_parse_words(buf.cur_line())[k].1
                &&& words@[k].spec_end() == spec_parse_words(buf.cur_line())[k].2
                &&& words@[k].spec_row() == buf.cursor.row as int
            },
{
    let row = buf.cursor.row;
    let line = &buf.content[row];
    let ghost lv = buf.cur_line();
    let mut words: Vec<Word> = Vec::new();
    let ghost mut acc: Seq<(Seq<char>, int, int)> = Seq::empty();
    let mut start: usize = 0;
    let mut chars: Vec<char> = Vec::new();
    let mut i: usize = 0;
    #[verifier::loop_isolation(false)]
    while i < line.len()
        invariant
            i <= lv.len(),
            chars@.len() > 0 ==> start < i,
            spec_parse_words(lv) == words_fold(lv, i as int, start as int, chars@, acc),
            acc.len() == words@.len(),
            forall|k: int|
                0 <= k < words@.len() ==> {
                    &&& (#[trigger] words@[k]).spec_content() == acc[k].0
                    &&& words@[k].spec_start() == acc[k].1
                    &&& words@[k].spec_end() == acc[k].2
                    &&& words@[k].spec_row() == row as int
                },
        decreases lv.len() - i,
    {
        let c = line[i];
        if c == ' ' && chars.len() > 0 {
            let text = chars_to_string(&chars);
            proof {
                acc = acc.push((chars@, start as int, i as int - 1));
            }
            words.push(Word { content: text, row, start, end: i - 1 });
            chars = Vec::new();
        } else if is_parse_delimiter(c) {
            let text = chars_to_string(&chars);
            proof {
                acc = acc.push((chars@, start as int, i as int - 1));
            }
            words.push(Word { content: text, row, start, end: i - 1 });
            chars = Vec::new();
            chars.push(c);
            proof {
                assert(chars@ =~= seq![c]);
            }
            start = i;
        } else if chars.len() == 0 {
            start = i;
            chars.push(c);
            proof {
                assert(chars@ =~= seq![c]);
            }
        } else {
            chars.push(c);
        }
        i += 1;
    }
    if chars.len() > 0 {
        let text = chars_to_string(&chars);
        proof {
            acc = acc.push((chars@, start as int, lv.len() - 1));
        }
        let end = line.len() - 1;
        words.push(Word { content: text, row, start, end });
    }
    words
}

} // verus!
