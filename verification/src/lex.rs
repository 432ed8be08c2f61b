//! The lexer: from the text of a program to labels and words, line by line.

use crate::text::{chars_of, push_char, spec_lines, split_lines, texts, to_upper, uppercase};
use vstd::prelude::*;

verus! {

/// How many characters of a line are read.
pub const NUM_CHARS: usize = 18;

/// How many lines of a program are read.
pub const NUM_LINES: usize = 16;

/// A label, with the index of the instruction that it stands before.
#[derive(Debug, PartialEq)]
pub struct Label(pub String, pub usize);

/// A line of a program: its number, its label if it has one, and its words.
#[derive(Debug, PartialEq)]
pub struct Line(pub usize, pub Option<Label>, pub Vec<String>);

/// A line of a program as a mathematical value.
#[verifier::ext_equal]
pub ghost struct LineModel {
    /// The number of the line, from 0.
    pub num: usize,
    /// The label, with the index of the instruction that it stands before.
    pub label: Option<(Seq<char>, usize)>,
    /// The words: an opcode and its operands.
    pub words: Seq<Seq<char>>,
}

impl View for Line {
    type V = LineModel;

    open spec fn view(&self) -> LineModel {
        LineModel {
            num: self.0,
            label: match self.1 {
                Some(label) => Some((label.0@, label.1)),
                None => None,
            },
            words: texts(self.2@),
        }
    }
}

/// The views of the lines in `lines`.
pub open spec fn line_models(lines: Seq<Line>) -> Seq<LineModel> {
    Seq::new(lines.len(), |i: int| lines[i]@)
}

/// Tells whether a character separates words: a blank or a comma.
pub fn is_whitespace(c: char) -> (r: bool)
    ensures
        r == (c == ' ' || c == ','),
{
    c == ' ' || c == ','
}

/// Tells whether a character starts a comment: a hash sign.
pub fn is_comment_delimiter(c: char) -> (r: bool)
    ensures
        r == (c == '#'),
{
    c == '#'
}

/// Tells whether a character ends a label: a colon.
pub fn is_label_delimiter(c: char) -> (r: bool)
    ensures
        r == (c == ':'),
{
    c == ':'
}

/// How far the reading of a line has come.
#[verifier::ext_equal]
pub ghost struct Scan {
    /// The label, once its colon has been read.
    pub label: Option<Seq<char>>,
    /// The words that are complete.
    pub words: Seq<Seq<char>>,
    /// The word that is not.
    pub word: Seq<char>,
    /// Whether a comment has begun.
    pub done: bool,
}

/// The reading after one more character. Nothing is read after a hash sign.
/// A blank or a comma completes the word, if there is one. The first colon
/// makes a label of the word before it. Any other character, and any later
/// colon, joins the word.
pub open spec fn scan_char(st: Scan, c: char) -> Scan {
    if st.done {
        st
    } else if c == '#' {
        Scan { done: true, ..st }
    } else if c == ' ' || c == ',' {
        if st.word.len() > 0 {
            Scan { words: st.words.push(st.word), word: Seq::empty(), ..st }
        } else {
            st
        }
    } else if st.label is Some || c != ':' {
        Scan { word: st.word.push(c), ..st }
    } else {
        Scan { label: Some(st.word), word: Seq::empty(), ..st }
    }
}

/// The reading of a whole text.
pub open spec fn scan(chars: Seq<char>) -> Scan
    decreases chars.len(),
{
    if chars.len() == 0 {
        Scan { label: None, words: Seq::empty(), word: Seq::empty(), done: false }
    } else {
        scan_char(scan(chars.drop_last()), chars.last())
    }
}

/// The part of a line that is read: its first eighteen characters.
pub open spec fn read_part(line: Seq<char>) -> Seq<char> {
    if line.len() > NUM_CHARS {
        line.take(NUM_CHARS as int)
    } else {
        line
    }
}

/// The label and the words of a line that is in upper case already.
pub open spec fn spec_lex_upper(upper: Seq<char>) -> (Option<Seq<char>>, Seq<Seq<char>>) {
    let st = scan(read_part(upper));
    (
        st.label,
        if st.word.len() > 0 {
            st.words.push(st.word)
        } else {
            st.words
        },
    )
}

/// The label and the words of a line: those of its upper-case form.
pub open spec fn spec_lex_line(line: Seq<char>) -> (Option<Seq<char>>, Seq<Seq<char>>) {
    spec_lex_upper(uppercase(line))
}

/// Reads the label and the words of a line that is in upper case already.
pub fn lex_upper(upper: &str) -> (r: (Option<String>, Vec<String>))
    ensures
        r.0 is Some <==> spec_lex_upper(upper@).0 is Some,
        r.0 is Some ==> r.0->0@ == spec_lex_upper(upper@).0->0,
        texts(r.1@) == spec_lex_upper(upper@).1,
{
    let chars = chars_of(upper);
    let n = if chars.len() > NUM_CHARS {
        NUM_CHARS
    } else {
        chars.len()
    };
    let ghost part = read_part(upper@);
    assert(part == chars@.take(n as int));
    let mut label: Option<String> = None;
    let mut words: Vec<String> = Vec::new();
    let mut word = String::new();
    let mut done = false;
    let mut i: usize = 0;
    while i < n && !done
        invariant
            i <= n <= chars.len(),
            part == chars@.take(n as int),
            done == scan(part.take(i as int)).done,
            word@ == scan(part.take(i as int)).word,
            texts(words@) == scan(part.take(i as int)).words,
            label is Some <==> scan(part.take(i as int)).label is Some,
            label is Some ==> label->0@ == scan(part.take(i as int)).label->0,
        decreases n - i + (if done { 0int } else { 1int }),
    {
        let c = chars[i];
        assert(part.take(i + 1).drop_last() == part.take(i as int));
        assert(part.take(i + 1).last() == c);
        let ghost before = scan(part.take(i as int));
        if is_comment_delimiter(c) {
            done = true;
        } else if is_whitespace(c) {
            if word.as_str().unicode_len() > 0 {
                words.push(word.clone());
                assert(texts(words@) == before.words.push(before.word));
                word = String::new();
            }
        } else if label.is_some() || !is_label_delimiter(c) {
            push_char(&mut word, c);
        } else {
            label = Some(word.clone());
            word = String::new();
        }
        i += 1;
    }
    proof {
        lemma_scan_done(part, i as int);
        assert(part.take(part.len() as int) == part);
    }
    if word.as_str().unicode_len() > 0 {
        words.push(word.clone());
        assert(texts(words@) == scan(part).words.push(scan(part).word));
    }
    (label, words)
}

/// Once a comment has begun, the rest of the line changes nothing.
pub proof fn lemma_scan_done(chars: Seq<char>, i: int)
    requires
        0 <= i <= chars.len(),
        scan(chars.take(i)).done || i == chars.len(),
    ensures
        scan(chars) == scan(chars.take(i)),
    decreases chars.len() - i,
{
    if i < chars.len() {
        assert(chars.take(i + 1).drop_last() == chars.take(i));
        lemma_scan_done(chars, i + 1);
    } else {
        assert(chars.take(i) == chars);
    }
}

/// Reads the label and the words of a line.
pub fn lex_line(line: &str) -> (r: (Option<String>, Vec<String>))
    ensures
        r.0 is Some <==> spec_lex_line(line@).0 is Some,
        r.0 is Some ==> r.0->0@ == spec_lex_line(line@).0->0,
        texts(r.1@) == spec_lex_line(line@).1,
{
    let upper = to_upper(line);
    lex_upper(upper.as_str())
}

/// How many of the first `upto` lines hold an instruction.
pub open spec fn ops_before(lines: Seq<Seq<char>>, upto: nat) -> nat
    decreases upto,
{
    if upto == 0 {
        0
    } else {
        ops_before(lines, (upto - 1) as nat) + (if spec_lex_line(lines[upto - 1]).1.len() > 0 {
            1nat
        } else {
            0nat
        })
    }
}

/// How many lines of a text are read: the first sixteen.
pub open spec fn lines_read(lines: Seq<Seq<char>>) -> nat {
    if lines.len() > NUM_LINES {
        NUM_LINES as nat
    } else {
        lines.len()
    }
}

/// The line with the number `i` among the lines `lines`, read: its label
/// stands before the instruction that comes after all the instructions on
/// the lines above it.
pub open spec fn spec_lex_nth(lines: Seq<Seq<char>>, i: int) -> LineModel {
    LineModel {
        num: i as usize,
        label: match spec_lex_line(lines[i]).0 {
            Some(name) => Some((name, ops_before(lines, i as nat) as usize)),
            None => None,
        },
        words: spec_lex_line(lines[i]).1,
    }
}

/// The lines of a program, read: the first sixteen lines of the text.
pub open spec fn spec_lex_program(src: Seq<char>) -> Seq<LineModel> {
    let lines = spec_lines(src);
    Seq::new(lines_read(lines), |i: int| spec_lex_nth(lines, i))
}

/// Splits the text of a program into lines, and each line into its label
/// and its words.
pub fn lex_program(src: &str) -> (r: Vec<Line>)
    ensures
        line_models(r@) == spec_lex_program(src@),
{
    let chars = chars_of(src);
    let raw = split_lines(&chars);
    let n = if raw.len() > NUM_LINES {
        NUM_LINES
    } else {
        raw.len()
    };
    let ghost all = spec_lines(src@);
    let mut next_op: usize = 0;
    let mut lines: Vec<Line> = Vec::new();
    let mut index: usize = 0;
    while index < n
        invariant
            index <= n <= raw.len(),
            n <= NUM_LINES,
            texts(raw@) == all,
            next_op == ops_before(all, index as nat),
            next_op <= index,
            lines@.len() == index,
            forall|k: int| 0 <= k < index ==> (#[trigger] lines@[k])@ == spec_lex_nth(all, k),
        decreases n - index,
    {
        assert(texts(raw@)[index as int] == raw@[index as int]@);
        let (maybe_label, words) = lex_line(raw[index].as_str());
        let label = if let Some(label) = maybe_label {
            Some(Label(label, next_op))
        } else {
            None
        };
        let ghost had = next_op;
        if words.len() > 0 {
            next_op += 1;
        }
        let line = Line(index, label, words);
        assert(line@ == spec_lex_nth(all, index as int));
        lines.push(line);
        index += 1;
    }
    assert(line_models(lines@) =~= spec_lex_program(src@));
    lines
}

} // verus!
