//! Atomic parsers: one character of a class, and a decimal integer.
use vstd::prelude::*;
use crate::types::{State, Stream, Succeeded, Failed, Status, Outcome, Log, Parser};
use crate::misc::{
    spec_is_alpha, spec_is_digit, spec_is_print, spec_is_whitespace, is_alpha, is_digit,
    is_print, is_whitespace,
};

verus! {

/// A class of characters.
#[derive(Clone, Copy, Debug, PartialEq, Eq, Structural)]
pub enum CharClass {
    Digit,
    Alpha,
    AlphaNum,
    Whitespace,
    Print,
    Exactly(char),
}

impl CharClass {
    pub open spec fn spec_matches(self, c: char) -> bool {
        match self {
            CharClass::Digit => spec_is_digit(c),
            CharClass::Alpha => spec_is_alpha(c),
            CharClass::AlphaNum => spec_is_alpha(c) || spec_is_digit(c),
            CharClass::Whitespace => spec_is_whitespace(c),
            CharClass::Print => spec_is_print(c),
            CharClass::Exactly(e) => c == e,
        }
    }

    pub fn matches(&self, c: char) -> (r: bool)
        ensures
            r == self.spec_matches(c),
    {
        match self {
            CharClass::Digit => is_digit(c),
            CharClass::Alpha => is_alpha(c),
            CharClass::AlphaNum => is_alpha(c) || is_digit(c),
            CharClass::Whitespace => is_whitespace(c),
            CharClass::Print => is_print(c),
            CharClass::Exactly(e) => c == *e,
        }
    }
}

/// Matches one character of a class, never the sentinel's position.
pub struct CharIf {
    pub class: CharClass,
}

/// Returns a parser which matches one character of `class` and yields it.
pub fn match_char(class: CharClass) -> (r: CharIf)
    ensures
        r.class == class,
{
    CharIf { class }
}

/// The state after consuming `c` at `s`: a line feed starts a new line.
pub open spec fn step(s: State, c: char) -> State {
    State {
        index: (s.index + 1) as usize,
        line: if c == '\n' {
            (s.line + 1) as usize
        } else {
            s.line
        },
    }
}

impl Parser for CharIf {
    type Value = char;

    open spec fn outcome(&self, text: Seq<char>, s: State) -> Outcome<char> {
        if s.index + 1 < text.len() && self.class.spec_matches(text[s.index as int]) {
            Outcome::Pass { new_state: step(s, text[s.index as int]), value: text[s.index as int] }
        } else {
            Outcome::Fail { old_state: s, err_state: s, mesg: Seq::empty() }
        }
    }

    proof fn lemma_well_behaved(&self, text: Seq<char>, s: State) {
    }

    fn parse(&self, stream: &Stream, s: State, log: &mut Log) -> (r: Status<char>) {
        if s.index + 1 < stream.text.len() && self.class.matches(stream.text[s.index]) {
            let c = stream.text[s.index];
            let line = if c == '\n' { s.line + 1 } else { s.line };
            Ok(Succeeded { new_state: State { index: s.index + 1, line }, value: c })
        } else {
            Err(Failed { old_state: s, err_state: s, mesg: String::new() })
        }
    }
}

/// The end of the run of digits that starts at `i`.
pub open spec fn digits_end(text: Seq<char>, i: int) -> int
    decreases text.len() - i,
{
    if 0 <= i < text.len() && spec_is_digit(text[i]) {
        digits_end(text, i + 1)
    } else {
        i
    }
}

/// The number that a sequence of decimal digits writes.
pub open spec fn num_of(ds: Seq<char>) -> int
    decreases ds.len(),
{
    if ds.len() == 0 {
        0
    } else {
        num_of(ds.drop_last()) * 10 + (ds.last() as int - '0' as int)
    }
}

proof fn lemma_digits_end(text: Seq<char>, i: int)
    requires
        0 <= i <= text.len(),
    ensures
        i <= digits_end(text, i) <= text.len(),
        forall|j: int| i <= j < digits_end(text, i) ==> spec_is_digit(#[trigger] text[j]),
    decreases text.len() - i,
{
    if i < text.len() && spec_is_digit(text[i]) {
        lemma_digits_end(text, i + 1);
    }
}


/// A decimal integer: one or more digits, as an `i64`.
pub struct Decimal;

/// Returns a parser of decimal integers that fit an `i64`.
pub fn decimal_number() -> (r: Decimal) {
    Decimal
}

impl Parser for Decimal {
    type Value = i64;

    open spec fn outcome(&self, text: Seq<char>, s: State) -> Outcome<i64> {
        let end = digits_end(text, s.index as int);
        if end == s.index {
            Outcome::Fail { old_state: s, err_state: s, mesg: Seq::empty() }
        } else if num_of(text.subrange(s.index as int, end)) > i64::MAX {
            Outcome::Fail { old_state: s, err_state: s, mesg: seq!['o', 'v', 'e', 'r', 'f', 'l', 'o', 'w'] }
        } else {
            Outcome::Pass {
                new_state: State { index: end as usize, line: s.line },
                value: num_of(text.subrange(s.index as int, end)) as i64,
            }
        }
    }

    proof fn lemma_well_behaved(&self, text: Seq<char>, s: State) {
        lemma_digits_end(text, s.index as int);
    }

    fn parse(&self, stream: &Stream, s: State, log: &mut Log) -> (r: Status<i64>) {
        let ghost text = stream.text@;
        let ghost start = s.index as int;
        proof {
            lemma_digits_end(text, start);
        }
        let mut i = s.index;
        let mut acc: i64 = 0;
        let mut over = false;
        while i < stream.text.len() && is_digit(stream.text[i])
            invariant
                text == stream.text@,
                start == s.index as int,
                start <= i <= text.len(),
                digits_end(text, i as int) == digits_end(text, start),
                forall|j: int| start <= j < i ==> spec_is_digit(#[trigger] text[j]),
                num_of(text.subrange(start, i as int)) >= 0,
                !over ==> acc == num_of(text.subrange(start, i as int)),
                over ==> num_of(text.subrange(start, i as int)) > i64::MAX,
            decreases text.len() - i,
        {
            let c = stream.text[i];
            let d = (c as u32 - '0' as u32) as i64;
            let ghost prev = text.subrange(start, i as int);
            let ghost n = num_of(prev);
            assert(text.subrange(start, i + 1).drop_last() =~= prev);
            assert(num_of(text.subrange(start, i + 1)) == n * 10 + d);
            if !over {
                if acc > (i64::MAX - d) / 10 {
                    over = true;
                    assert(n * 10 + d > i64::MAX) by (nonlinear_arith)
                        requires
                            n == acc,
                            acc > (i64::MAX - d) / 10,
                            0 <= d <= 9,
                    ;
                } else {
                    assert(acc * 10 + d <= i64::MAX) by (nonlinear_arith)
                        requires
                            0 <= acc <= (i64::MAX - d) / 10,
                            0 <= d <= 9,
                    ;
                    acc = acc * 10 + d;
                }
            } else {
                assert(n * 10 + d > i64::MAX) by (nonlinear_arith)
                    requires
                        n > i64::MAX,
                        0 <= d,
                ;
            }
            i = i + 1;
        }
        if i == s.index {
            Err(Failed { old_state: s, err_state: s, mesg: String::new() })
        } else if over {
            proof {
                reveal_strlit("overflow");
            }
            let mesg = String::from_str("overflow");
            proof {
                assert(mesg@ =~= seq!['o', 'v', 'e', 'r', 'f', 'l', 'o', 'w']);
            }
            Err(Failed { old_state: s, err_state: s, mesg })
        } else {
            Ok(Succeeded { new_state: State { index: i, line: s.line }, value: acc })
        }
    }
}

} // verus!
