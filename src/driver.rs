//! End of input, whole-input parsing and the top-level entry point.
use vstd::prelude::*;
use crate::types::{EOT, State, Stream, Succeeded, Failed, Status, Outcome, Log, Parser};
use crate::combinators::{Left, Then, seq3_ret1};
use crate::repetition::{Rep, r0, UNBOUNDED};
use crate::misc::{chars_with_eot, get_col, column};

verus! {

/// Matches the `EOT` sentinel and steps over it.
pub struct Eot;

/// Returns a parser which matches the end of the input.
pub fn eot() -> (r: Eot) {
    Eot
}

impl Parser for Eot {
    type Value = ();

    open spec fn outcome(&self, text: Seq<char>, s: State) -> Outcome<()> {
        if s.index < text.len() && text[s.index as int] == EOT {
            Outcome::Pass { new_state: State { index: (s.index + 1) as usize, line: s.line }, value: () }
        } else {
            Outcome::Fail { old_state: s, err_state: s, mesg: seq!['E', 'O', 'T'] }
        }
    }

    proof fn lemma_well_behaved(&self, text: Seq<char>, s: State) {
    }

    fn parse(&self, stream: &Stream, s: State, log: &mut Log) -> (r: Status<()>) {
        if s.index < stream.text.len() && stream.text[s.index] == EOT {
            Ok(Succeeded { new_state: State { index: s.index + 1, line: s.line }, value: () })
        } else {
            proof {
                reveal_strlit("EOT");
            }
            let mesg = String::from_str("EOT");
            proof {
                assert(mesg@ =~= seq!['E', 'O', 'T']);
            }
            Err(Failed { old_state: s, err_state: s, mesg })
        }
    }
}

/// Leading `space`, then `p`, then the end of the input.
pub type Everything<P, S> = Left<Then<Rep<S>, P>, Eot>;

/// Parses `space*`, then `p`, then the end of the input, yielding the value of
/// `p`: the whole input must be consumed.
pub fn everything<P: Parser, S: Parser>(p: P, space: S) -> (r: Everything<P, S>)
    ensures
        r.p.p.p == space,
        r.p.p.min == 0,
        r.p.p.max == UNBOUNDED,
        r.p.q == p,
        r.q == Eot,
{
    seq3_ret1(r0(space), p, eot())
}

/// The error of a parse: where it failed (line and column are 1-based) and why.
pub struct ParseFailed {
    pub file: String,
    pub line: usize,
    pub col: usize,
    pub mesg: String,
}

/// What `parse` returns.
pub type ParseStatus<T> = Result<T, ParseFailed>;

/// The stream `parse` builds from `text`.
pub open spec fn stream_text(text: Seq<char>) -> Seq<char> {
    text.push(EOT)
}

/// What `parse` returns, over models: the value, or where and why the parse
/// failed.
pub open spec fn parse_result_ok<P: Parser>(
    parser: P,
    file: Seq<char>,
    text: Seq<char>,
    r: ParseStatus<P::Value>,
) -> bool {
    match parser.outcome(stream_text(text), State::start()) {
        Outcome::Pass { value, .. } => r is Ok && r->Ok_0.deep_view() == value,
        Outcome::Fail { err_state, mesg, .. } => {
            &&& r is Err
            &&& r->Err_0.file@ == file
            &&& r->Err_0.line == err_state.line
            &&& r->Err_0.col == column(stream_text(text), err_state.index as int)
            &&& r->Err_0.mesg@ == mesg
        },
    }
}

/// Uses `parser` to parse `text`, named `file`. On failure, the line and the
/// column of the farthest position reached are reported with the message.
pub fn parse<P: Parser>(parser: &P, file: String, text: &str, log: &mut Log) -> (r: ParseStatus<
    P::Value,
>)
    requires
        text@.len() + 1 < usize::MAX,
    ensures
        final(log).extends(old(log)),
        parse_result_ok(*parser, file@, text@, r),
{
    let chars = chars_with_eot(text);
    let stream = Stream { file, text: chars };
    let input = State { index: 0, line: 1 };
    proof {
        parser.lemma_well_behaved(stream.text@, input);
    }
    match parser.parse(&stream, input, log) {
        Ok(pass) => Ok(pass.value),
        Err(failure) => {
            let col = get_col(&stream.text, failure.err_state.index);
            Err(
                ParseFailed {
                    file: stream.file,
                    line: failure.err_state.line,
                    col,
                    mesg: failure.mesg,
                },
            )
        },
    }
}

} // verus!
