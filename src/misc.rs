//! Character classes and the text helpers behind streams and traces.
use vstd::prelude::*;
use vstd::std_specs::iter::IteratorSpec;
use crate::types::EOT;

verus! {

pub open spec fn spec_is_print(ch: char) -> bool {
    ' ' <= ch <= '~'
}

pub open spec fn spec_is_digit(ch: char) -> bool {
    '0' <= ch <= '9'
}

pub open spec fn spec_is_alpha(ch: char) -> bool {
    ('a' <= ch <= 'z') || ('A' <= ch <= 'Z')
}

pub open spec fn spec_is_whitespace(ch: char) -> bool {
    ch == ' ' || ch == '\t' || ch == '\r' || ch == '\n'
}

/// Printable ASCII, space included.
pub fn is_print(ch: char) -> (r: bool)
    ensures
        r == spec_is_print(ch),
{
    ch >= ' ' && ch <= '~'
}

/// An ASCII decimal digit.
pub fn is_digit(ch: char) -> (r: bool)
    ensures
        r == spec_is_digit(ch),
{
    ch >= '0' && ch <= '9'
}

/// An ASCII letter.
pub fn is_alpha(ch: char) -> (r: bool)
    ensures
        r == spec_is_alpha(ch),
{
    (ch >= 'a' && ch <= 'z') || (ch >= 'A' && ch <= 'Z')
}

/// An ASCII letter or digit.
pub fn is_alphanum(ch: char) -> (r: bool)
    ensures
        r == (spec_is_alpha(ch) || spec_is_digit(ch)),
{
    is_alpha(ch) || is_digit(ch)
}

/// Space, tab, carriage return or line feed.
pub fn is_whitespace(ch: char) -> (r: bool)
    ensures
        r == spec_is_whitespace(ch),
{
    ch == ' ' || ch == '\t' || ch == '\r' || ch == '\n'
}

pub open spec fn spec_lower_char(ch: char) -> char {
    if 'A' <= ch <= 'Z' {
        (ch as u32 + 32) as char
    } else {
        ch
    }
}

/// Returns `ch` as lower case (ASCII letters only).
pub fn lower_char(ch: char) -> (r: char)
    ensures
        r == spec_lower_char(ch),
{
    if ch >= 'A' && ch <= 'Z' {
        ((ch as u8) + 32) as char
    } else {
        ch
    }
}

/// Relies on String::push: appends one character to the string.
#[verifier::external_body]
pub(crate) fn push_char(s: &mut String, c: char)
    ensures
        final(s)@ == old(s)@.push(c),
{
    s.push(c)
}

/// A string of `count` copies of `ch`.
pub fn repeat_char(ch: char, count: usize) -> (r: String)
    ensures
        r@ == Seq::new(count as nat, |_i: int| ch),
{
    let mut value = String::new();
    let mut i: usize = 0;
    while i < count
        invariant
            i <= count,
            value@ == Seq::new(i as nat, |_j: int| ch),
        decreases count - i,
    {
        push_char(&mut value, ch);
        i = i + 1;
        assert(value@ =~= Seq::new(i as nat, |_j: int| ch));
    }
    value
}

/// Converts a string to its characters followed by `EOT`.
pub fn chars_with_eot(s: &str) -> (r: Vec<char>)
    ensures
        r@ == s@.push(EOT),
{
    broadcast use vstd::string::group_string_axioms;

    let mut it = s.chars();
    let mut out: Vec<char> = Vec::new();
    loop
        invariant
            out@ + it.remaining() == s@,
        decreases s@.len() - out@.len(),
    {
        match it.next() {
            Some(c) => {
                out.push(c);
                assert(out@ + it.remaining() =~= s@);
            },
            None => {
                assert(out@ =~= s@);
                out.push(EOT);
                return out;
            },
        }
    }
}

/// The first index at or before `index` that starts a line.
pub open spec fn line_start(text: Seq<char>, index: int) -> int
    decreases index,
{
    if index <= 0 {
        0
    } else if text[index - 1] == '\n' || text[index - 1] == '\r' {
        index
    } else {
        line_start(text, index - 1)
    }
}

/// The 1-based column of `index`: its distance from the start of its line,
/// plus one.
pub open spec fn column(text: Seq<char>, index: int) -> int {
    index - line_start(text, index) + 1
}

/// Returns the 1-based column of `index` in `text`.
pub fn get_col(text: &Vec<char>, index: usize) -> (r: usize)
    requires
        index <= text@.len(),
        text@.len() < usize::MAX,
    ensures
        r == column(text@, index as int),
{
    let mut i = index;
    while i > 0 && text[i - 1] != '\n' && text[i - 1] != '\r'
        invariant
            i <= index <= text@.len() < usize::MAX,
            line_start(text@, i as int) == line_start(text@, index as int),
        decreases i,
    {
        i = i - 1;
    }
    index - i + 1
}

/// The characters of `chars` with each one that is not printable replaced by
/// a dot, so that each character stands in one column.
pub open spec fn munged(chars: Seq<char>) -> Seq<char> {
    Seq::new(chars.len(), |i: int| shown_char(chars[i]))
}

/// A character as a trace line shows it.
pub open spec fn shown_char(c: char) -> char {
    if spec_is_print(c) {
        c
    } else {
        '.'
    }
}

/// Replaces the characters that are not printable with '.'.
pub fn munge_chars(chars: &Vec<char>) -> (r: String)
    ensures
        r@ == munged(chars@),
{
    let mut value = String::new();
    let mut i: usize = 0;
    while i < chars.len()
        invariant
            i <= chars@.len(),
            value@ == munged(chars@.subrange(0, i as int)),
        decreases chars@.len() - i,
    {
        let ch = chars[i];
        let ghost prev = chars@.subrange(0, i as int);
        let shown = if is_print(ch) { ch } else { '.' };
        push_char(&mut value, shown);
        i = i + 1;
        assert(chars@.subrange(0, i as int) =~= prev.push(ch));
        assert(munged(prev.push(ch)) =~= munged(prev).push(shown));
    }
    assert(chars@.subrange(0, i as int) =~= chars@);
    value
}

/// The strings of `v` joined, with `sep` between each two.
pub open spec fn joined(v: Seq<Seq<char>>, sep: Seq<char>) -> Seq<char>
    decreases v.len(),
{
    if v.len() == 0 {
        Seq::empty()
    } else if v.len() == 1 {
        v[0]
    } else {
        joined(v.drop_last(), sep) + sep + v.last()
    }
}

/// Joins the strings of `v` with `sep` between each two.
pub fn at_connect(v: &Vec<String>, sep: &str) -> (r: String)
    ensures
        r@ == joined(v@.map_values(|s: String| s@), sep@),
{
    let ghost views = v@.map_values(|s: String| s@);
    let mut s = String::new();
    let mut first = true;
    let mut i: usize = 0;
    while i < v.len()
        invariant
            i <= v@.len(),
            views == v@.map_values(|s: String| s@),
            first == (i == 0),
            s@ == joined(views.subrange(0, i as int), sep@),
        decreases v@.len() - i,
    {
        if first {
            first = false;
        } else {
            s.append(sep);
        }
        s.append(v[i].as_str());
        i = i + 1;
        assert(views.subrange(0, i as int).drop_last() =~= views.subrange(0, i - 1));
    }
    assert(views.subrange(0, i as int) =~= views);
    s
}

} // verus!
