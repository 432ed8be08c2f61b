//! Strings as sequences of characters, and the few things the standard
//! library is asked to do with them.

use vstd::prelude::*;

verus! {

/// The upper-case form of a text, as `str::to_uppercase` gives it.
pub uninterp spec fn uppercase(s: Seq<char>) -> Seq<char>;

/// `str::to_uppercase`: the upper-case form of `s`.
#[verifier::external_body]
pub(crate) fn to_upper(s: &str) -> (res: String)
    ensures
        res@ == uppercase(s@),
{
    s.to_uppercase()
}

/// The number that a text spells, as `str::parse::<isize>` reads it, if it
/// spells one.
pub uninterp spec fn signed_number(s: Seq<char>) -> Option<isize>;

/// `str::parse::<isize>`: the number that `s` spells, if it spells one.
#[verifier::external_body]
pub(crate) fn parse_signed(s: &str) -> (res: Option<isize>)
    ensures
        res == signed_number(s@),
{
    s.parse::<isize>().ok()
}

/// The number that a text spells, as `str::parse::<usize>` reads it, if it
/// spells one.
pub uninterp spec fn unsigned_number(s: Seq<char>) -> Option<usize>;

/// `str::parse::<usize>`: the number that `s` spells, if it spells one.
#[verifier::external_body]
pub(crate) fn parse_unsigned(s: &str) -> (res: Option<usize>)
    ensures
        res == unsigned_number(s@),
{
    s.parse::<usize>().ok()
}

/// Whether a character is numeric, as `char::is_numeric` tells it.
pub uninterp spec fn numeric(c: char) -> bool;

/// `char::is_numeric`: whether `c` is numeric.
#[verifier::external_body]
pub(crate) fn is_numeric(c: char) -> (res: bool)
    ensures
        res == numeric(c),
{
    c.is_numeric()
}

/// `String::push`: puts `c` at the end of `s`.
#[verifier::external_body]
pub(crate) fn push_char(s: &mut String, c: char)
    ensures
        final(s)@ == old(s)@.push(c),
{
    s.push(c)
}

/// The characters of a text, in a vector.
pub fn chars_of(s: &str) -> (r: Vec<char>)
    ensures
        r@ == s@,
{
    let mut out: Vec<char> = Vec::new();
    for c in it: s.chars()
        invariant
            out@ == it.seq().take(it.index() as int),
            it.seq() == s@,
    {
        out.push(c);
        assert(it.seq().take(it.index() + 1) == it.seq().take(it.index() as int).push(c));
    }
    assert(s@.take(s@.len() as int) == s@);
    out
}

/// The text made of the characters `chars[from..to]`.
pub fn string_of(chars: &Vec<char>, from: usize, to: usize) -> (r: String)
    requires
        from <= to <= chars@.len(),
    ensures
        r@ == chars@.subrange(from as int, to as int),
{
    let mut out = String::new();
    let mut i = from;
    while i < to
        invariant
            from <= i <= to <= chars@.len(),
            out@ == chars@.subrange(from as int, i as int),
        decreases to - i,
    {
        push_char(&mut out, chars[i]);
        assert(chars@.subrange(from as int, i + 1) == chars@.subrange(from as int, i as int).push(
            chars@[i as int],
        ));
        i += 1;
    }
    out
}

/// Tells whether two texts are the same.
pub fn same_text(a: &str, b: &str) -> (r: bool)
    ensures
        r == (a@ == b@),
{
    a.to_owned() == b.to_owned()
}

/// The views of the texts in `v`.
pub open spec fn texts(v: Seq<String>) -> Seq<Seq<char>> {
    Seq::new(v.len(), |i: int| v[i]@)
}

/// A line without the carriage return at its end, if it has one there.
pub open spec fn strip_cr(line: Seq<char>) -> Seq<char> {
    if line.len() > 0 && line.last() == '\r' {
        line.drop_last()
    } else {
        line
    }
}

/// How far the splitting of a text into lines has come: the lines that are
/// complete, and the one that is not.
#[verifier::ext_equal]
pub ghost struct Split {
    pub lines: Seq<Seq<char>>,
    pub cur: Seq<char>,
}

/// The splitting after one more character: a line feed completes the line,
/// which loses the carriage return before it, if there is one; any other
/// character joins the line.
pub open spec fn split_char(st: Split, c: char) -> Split {
    if c == '\n' {
        Split { lines: st.lines.push(strip_cr(st.cur)), cur: Seq::empty() }
    } else {
        Split { cur: st.cur.push(c), ..st }
    }
}

/// The splitting of a whole text.
pub open spec fn split(chars: Seq<char>) -> Split
    decreases chars.len(),
{
    if chars.len() == 0 {
        Split { lines: Seq::empty(), cur: Seq::empty() }
    } else {
        split_char(split(chars.drop_last()), chars.last())
    }
}

/// The lines of a text. A line ends at a line feed or at the end of the
/// text; the line feed, and a carriage return just before it, are not part
/// of the line. Nothing follows the last line feed of a text that ends in
/// one.
pub open spec fn spec_lines(chars: Seq<char>) -> Seq<Seq<char>> {
    let st = split(chars);
    if st.cur.len() > 0 {
        st.lines.push(st.cur)
    } else {
        st.lines
    }
}

/// Splits a text into its lines.
pub fn split_lines(chars: &Vec<char>) -> (r: Vec<String>)
    ensures
        texts(r@) == spec_lines(chars@),
{
    let mut lines: Vec<String> = Vec::new();
    let mut start: usize = 0;
    let mut i: usize = 0;
    while i < chars.len()
        invariant
            start <= i <= chars.len(),
            texts(lines@) == split(chars@.take(i as int)).lines,
            chars@.subrange(start as int, i as int) == split(chars@.take(i as int)).cur,
        decreases chars.len() - i,
    {
        let ghost before = split(chars@.take(i as int));
        assert(chars@.take(i + 1).drop_last() == chars@.take(i as int));
        assert(chars@.take(i + 1).last() == chars@[i as int]);
        if chars[i] == '\n' {
            let mut end = i;
            if end > start && chars[end - 1] == '\r' {
                end = end - 1;
            }
            let line = string_of(chars, start, end);
            assert(line@ == strip_cr(before.cur));
            lines.push(line);
            assert(texts(lines@) == before.lines.push(strip_cr(before.cur)));
            start = i + 1;
            assert(chars@.subrange(start as int, i + 1) == Seq::<char>::empty());
        } else {
            assert(chars@.subrange(start as int, i + 1) == chars@.subrange(
                start as int,
                i as int,
            ).push(chars@[i as int]));
        }
        i += 1;
    }
    assert(chars@.take(chars@.len() as int) == chars@);
    if start < chars.len() {
        let line = string_of(chars, start, chars.len());
        lines.push(line);
        assert(texts(lines@) == split(chars@).lines.push(split(chars@).cur));
    }
    lines
}

} // verus!
