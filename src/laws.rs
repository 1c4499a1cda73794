//! Properties that hold of every parser and of the main combinators.
use vstd::prelude::*;
use crate::types::{EOT, State, Outcome, Parser};
use crate::combinators::Or;
use crate::repetition::{Rep, UNBOUNDED};
use crate::diagnostics::Labelled;
use crate::driver::{Eot, Everything};

verus! {

/// A parser that succeeds never ends before the state it was called with.
pub proof fn lemma_monotonic<P: Parser>(p: &P, text: Seq<char>, s: State)
    requires
        s.valid_in(text),
    ensures
        p.outcome(text, s) is Pass ==> s.index <= p.outcome(text, s)->Pass_new_state.index,
{
    p.lemma_well_behaved(text, s);
}

/// A parser that fails reports exactly the state it was called with, and an
/// error position at or after it.
pub proof fn lemma_failure_local<P: Parser>(p: &P, text: Seq<char>, s: State)
    requires
        s.valid_in(text),
    ensures
        p.outcome(text, s) is Fail ==> {
            &&& p.outcome(text, s)->Fail_old_state == s
            &&& s.index <= p.outcome(text, s)->Fail_err_state.index
        },
{
    p.lemma_well_behaved(text, s);
}

/// `or(p, q)` succeeds exactly when `p` or `q` succeeds from the same state;
/// when `p` fails, the result is what `q` gives from that state.
pub proof fn lemma_or_total<P: Parser, Q: Parser<Value = P::Value>>(
    p: P,
    q: Q,
    text: Seq<char>,
    s: State,
)
    ensures
        (Or { p, q }).outcome(text, s) is Pass <==> (p.outcome(text, s) is Pass || q.outcome(
            text,
            s,
        ) is Pass),
        p.outcome(text, s) is Pass ==> (Or { p, q }).outcome(text, s) == p.outcome(text, s),
        p.outcome(text, s) is Fail && q.outcome(text, s) is Pass ==> (Or { p, q }).outcome(text, s)
            == q.outcome(text, s),
{
}

/// When both alternatives fail, the one that got strictly farther is reported;
/// on a tie the second one is.
pub proof fn lemma_or_longest_failure<P: Parser, Q: Parser<Value = P::Value>>(
    p: P,
    q: Q,
    text: Seq<char>,
    s: State,
)
    requires
        p.outcome(text, s) is Fail,
        q.outcome(text, s) is Fail,
    ensures
        (Or { p, q }).outcome(text, s) is Fail,
        (Or { p, q }).outcome(text, s)->Fail_old_state == s,
        p.outcome(text, s)->Fail_err_state.index > q.outcome(text, s)->Fail_err_state.index ==> (Or {
            p,
            q,
        }).outcome(text, s)->Fail_err_state == p.outcome(text, s)->Fail_err_state,
        p.outcome(text, s)->Fail_err_state.index <= q.outcome(text, s)->Fail_err_state.index ==> (Or {
            p,
            q,
        }).outcome(text, s)->Fail_err_state == q.outcome(text, s)->Fail_err_state,
{
}

/// One or more `p` fails where `p` fails at once.
pub proof fn lemma_r1_needs_one<P: Parser>(rep: Rep<P>, text: Seq<char>, s: State)
    requires
        rep.min == 1,
        rep.max == UNBOUNDED,
        s.index <= text.len(),
        rep.p.outcome(text, s) is Fail,
    ensures
        rep.outcome(text, s) is Fail,
        rep.outcome(text, s)->Fail_err_state == rep.p.outcome(text, s)->Fail_err_state,
{
}

/// On a stream made of text without `EOT` followed by one `EOT`, the end of
/// input is found at the sentinel's index, stepping over it, and at no real
/// character.
pub proof fn lemma_eot_at_sentinel(chars: Seq<char>, s: State)
    requires
        !chars.contains(EOT),
        s.index <= chars.len() < usize::MAX,
    ensures
        s.index < chars.len() ==> Eot.outcome(chars.push(EOT), s) is Fail,
        s.index == chars.len() ==> Eot.outcome(chars.push(EOT), s) is Pass,
        s.index == chars.len() ==> Eot.outcome(chars.push(EOT), s)->Pass_new_state.index
            == s.index + 1,
{
    if s.index < chars.len() {
        assert(chars.push(EOT)[s.index as int] == chars[s.index as int]);
    }
}

/// An empty label clears the failure's message, so that an enclosing label
/// takes its place; a label replaces the message of a failure that made no
/// progress; and a failure that made progress with a message keeps it.
pub proof fn lemma_label_policy<P: Parser>(p: Labelled<P>, text: Seq<char>, s: State)
    requires
        p.note.p.outcome(text, s) is Fail,
    ensures
        p.outcome(text, s) is Fail,
        p.note.label@.len() == 0 ==> p.outcome(text, s)->Fail_mesg.len() == 0,
        p.note.label@.len() > 0 && p.note.p.outcome(text, s)->Fail_err_state.index == s.index
            ==> p.outcome(text, s)->Fail_mesg == p.note.label@,
        p.note.label@.len() > 0 && p.note.p.outcome(text, s)->Fail_err_state.index != s.index
            && p.note.p.outcome(text, s)->Fail_mesg.len() > 0 ==> p.outcome(text, s)->Fail_mesg
            == p.note.p.outcome(text, s)->Fail_mesg,
{
}

/// Under an unbounded cap, a repeated parser that succeeds without moving
/// ends the repetition after its second such match, with both counted.
pub proof fn lemma_zero_width_repetition<P: Parser>(
    rep: Rep<P>,
    text: Seq<char>,
    s: State,
    v: <P::Value as DeepView>::V,
)
    requires
        rep.max == UNBOUNDED,
        rep.min <= 2,
        s.index <= text.len(),
        rep.p.outcome(text, s) == (Outcome::Pass { new_state: s, value: v }),
    ensures
        rep.outcome(text, s) == (Outcome::Pass { new_state: s, value: seq![v, v] }),
{
    let one = Seq::<<P::Value as DeepView>::V>::empty().push(v);
    assert(rep.run(text, s, s, one, 1) == rep.stop(s, s, one.push(v)));
    assert(one.push(v) =~= seq![v, v]);
}

/// Parsing everything of a stream made of text without `EOT` and one `EOT`
/// succeeds only by consuming the whole stream, sentinel included.
pub proof fn lemma_everything_consumes_all<P: Parser, S: Parser>(
    e: Everything<P, S>,
    chars: Seq<char>,
    s: State,
)
    requires
        !chars.contains(EOT),
        chars.len() + 1 < usize::MAX,
    ensures
        e.outcome(chars.push(EOT), s) is Pass ==> e.outcome(chars.push(EOT), s)->Pass_new_state.index
            == chars.len() + 1,
{
    let text = chars.push(EOT);
    if let Outcome::Pass { new_state, .. } = e.p.outcome(text, s) {
        if new_state.index < chars.len() {
            assert(text[new_state.index as int] == chars[new_state.index as int]);
        }
    }
}

} // verus!
