//! Sequencing and alternation of parsers.
use vstd::prelude::*;
use crate::types::{State, Stream, Succeeded, Failed, Status, Outcome, Log, Parser, model};

verus! {

/// A failure rewritten to start from `s`.
pub open spec fn fail_from<V>(s: State, err_state: State, mesg: Seq<char>) -> Outcome<V> {
    Outcome::Fail { old_state: s, err_state, mesg }
}

/// A borrowed parser parses as the parser itself, so one parser can stand at
/// several places of a grammar.
impl<'a, P: Parser> Parser for &'a P {
    type Value = P::Value;

    open spec fn outcome(&self, text: Seq<char>, s: State) -> Outcome<<P::Value as DeepView>::V> {
        (**self).outcome(text, s)
    }

    proof fn lemma_well_behaved(&self, text: Seq<char>, s: State) {
        (**self).lemma_well_behaved(text, s);
    }

    fn parse(&self, stream: &Stream, s: State, log: &mut Log) -> (r: Status<P::Value>) {
        (**self).parse(stream, s, log)
    }
}

/// `p` then `q`, yielding `q`'s value.
pub struct Then<P, Q> {
    pub p: P,
    pub q: Q,
}

/// Runs `p`, then `q` from where `p` stopped; a failure of `q` is reported as
/// starting from the state `p` was called with.
pub fn then<P: Parser, Q: Parser>(p: P, q: Q) -> (r: Then<P, Q>)
    ensures
        r.p == p,
        r.q == q,
{
    Then { p, q }
}

impl<P: Parser, Q: Parser> Parser for Then<P, Q> {
    type Value = Q::Value;

    open spec fn outcome(&self, text: Seq<char>, s: State) -> Outcome<<Q::Value as DeepView>::V> {
        match self.p.outcome(text, s) {
            Outcome::Fail { err_state, mesg, .. } => fail_from(s, err_state, mesg),
            Outcome::Pass { new_state, .. } => match self.q.outcome(text, new_state) {
                Outcome::Fail { err_state, mesg, .. } => fail_from(s, err_state, mesg),
                Outcome::Pass { new_state: end, value } => Outcome::Pass { new_state: end, value },
            },
        }
    }

    proof fn lemma_well_behaved(&self, text: Seq<char>, s: State) {
        self.p.lemma_well_behaved(text, s);
        if let Outcome::Pass { new_state, .. } = self.p.outcome(text, s) {
            self.q.lemma_well_behaved(text, new_state);
        }
    }

    fn parse(&self, stream: &Stream, s: State, log: &mut Log) -> (r: Status<Q::Value>) {
        proof {
            self.p.lemma_well_behaved(stream.text@, s);
        }
        match self.p.parse(stream, s, log) {
            Err(f) => Err(Failed { old_state: s, err_state: f.err_state, mesg: f.mesg }),
            Ok(pass) => match self.q.parse(stream, pass.new_state, log) {
                Err(f) => Err(Failed { old_state: s, err_state: f.err_state, mesg: f.mesg }),
                Ok(end) => Ok(end),
            },
        }
    }
}

/// `p` then `q`, yielding both values.
pub struct Seq2<P, Q> {
    pub p: P,
    pub q: Q,
}

/// Runs `p` then `q`, yielding the pair of their values.
pub fn seq2<P: Parser, Q: Parser>(p: P, q: Q) -> (r: Seq2<P, Q>)
    ensures
        r.p == p,
        r.q == q,
{
    Seq2 { p, q }
}

impl<P: Parser, Q: Parser> Parser for Seq2<P, Q> {
    type Value = (P::Value, Q::Value);

    open spec fn outcome(&self, text: Seq<char>, s: State) -> Outcome<
        (<P::Value as DeepView>::V, <Q::Value as DeepView>::V),
    > {
        match self.p.outcome(text, s) {
            Outcome::Fail { err_state, mesg, .. } => fail_from(s, err_state, mesg),
            Outcome::Pass { new_state, value: a } => match self.q.outcome(text, new_state) {
                Outcome::Fail { err_state, mesg, .. } => fail_from(s, err_state, mesg),
                Outcome::Pass { new_state: end, value: b } => Outcome::Pass {
                    new_state: end,
                    value: (a, b),
                },
            },
        }
    }

    proof fn lemma_well_behaved(&self, text: Seq<char>, s: State) {
        self.p.lemma_well_behaved(text, s);
        if let Outcome::Pass { new_state, .. } = self.p.outcome(text, s) {
            self.q.lemma_well_behaved(text, new_state);
        }
    }

    fn parse(&self, stream: &Stream, s: State, log: &mut Log) -> (r: Status<
        (P::Value, Q::Value),
    >) {
        proof {
            self.p.lemma_well_behaved(stream.text@, s);
        }
        match self.p.parse(stream, s, log) {
            Err(f) => Err(Failed { old_state: s, err_state: f.err_state, mesg: f.mesg }),
            Ok(a) => match self.q.parse(stream, a.new_state, log) {
                Err(f) => Err(Failed { old_state: s, err_state: f.err_state, mesg: f.mesg }),
                Ok(b) => Ok(Succeeded { new_state: b.new_state, value: (a.value, b.value) }),
            },
        }
    }
}

/// `p` then `q`, yielding `p`'s value.
pub struct Left<P, Q> {
    pub p: P,
    pub q: Q,
}

/// Runs `p` then `q`, yielding the value of `p`.
pub fn seq2_ret0<P: Parser, Q: Parser>(p: P, q: Q) -> (r: Left<P, Q>)
    ensures
        r.p == p,
        r.q == q,
{
    Left { p, q }
}

/// Runs `p` then `q`, yielding the value of `q`.
pub fn seq2_ret1<P: Parser, Q: Parser>(p: P, q: Q) -> (r: Then<P, Q>)
    ensures
        r.p == p,
        r.q == q,
{
    Then { p, q }
}

/// Runs `p`, `q` and `u` in turn, yielding the value of `q`.
pub fn seq3_ret1<P: Parser, Q: Parser, U: Parser>(p: P, q: Q, u: U) -> (r: Left<Then<P, Q>, U>)
    ensures
        r.p.p == p,
        r.p.q == q,
        r.q == u,
{
    Left { p: Then { p, q }, q: u }
}

/// Runs `p`, `q` and `u` in turn, yielding the value of `p`.
pub fn seq3_ret0<P: Parser, Q: Parser, U: Parser>(p: P, q: Q, u: U) -> (r: Left<Left<P, Q>, U>)
    ensures
        r.p.p == p,
        r.p.q == q,
        r.q == u,
{
    Left { p: Left { p, q }, q: u }
}

/// Runs `p`, `q` and `u` in turn, yielding the value of `u`.
pub fn seq3_ret2<P: Parser, Q: Parser, U: Parser>(p: P, q: Q, u: U) -> (r: Then<Then<P, Q>, U>)
    ensures
        r.p.p == p,
        r.p.q == q,
        r.q == u,
{
    Then { p: Then { p, q }, q: u }
}

/// Runs `p`, `q` and `u` in turn, yielding their values nested as
/// `((p, q), u)`.
pub fn seq3<P: Parser, Q: Parser, U: Parser>(p: P, q: Q, u: U) -> (r: Seq2<Seq2<P, Q>, U>)
    ensures
        r.p.p == p,
        r.p.q == q,
        r.q == u,
{
    Seq2 { p: Seq2 { p, q }, q: u }
}

impl<P: Parser, Q: Parser> Parser for Left<P, Q> {
    type Value = P::Value;

    open spec fn outcome(&self, text: Seq<char>, s: State) -> Outcome<<P::Value as DeepView>::V> {
        match self.p.outcome(text, s) {
            Outcome::Fail { err_state, mesg, .. } => fail_from(s, err_state, mesg),
            Outcome::Pass { new_state, value } => match self.q.outcome(text, new_state) {
                Outcome::Fail { err_state, mesg, .. } => fail_from(s, err_state, mesg),
                Outcome::Pass { new_state: end, .. } => Outcome::Pass { new_state: end, value },
            },
        }
    }

    proof fn lemma_well_behaved(&self, text: Seq<char>, s: State) {
        self.p.lemma_well_behaved(text, s);
        if let Outcome::Pass { new_state, .. } = self.p.outcome(text, s) {
            self.q.lemma_well_behaved(text, new_state);
        }
    }

    fn parse(&self, stream: &Stream, s: State, log: &mut Log) -> (r: Status<P::Value>) {
        proof {
            self.p.lemma_well_behaved(stream.text@, s);
        }
        match self.p.parse(stream, s, log) {
            Err(f) => Err(Failed { old_state: s, err_state: f.err_state, mesg: f.mesg }),
            Ok(a) => match self.q.parse(stream, a.new_state, log) {
                Err(f) => Err(Failed { old_state: s, err_state: f.err_state, mesg: f.mesg }),
                Ok(b) => Ok(Succeeded { new_state: b.new_state, value: a.value }),
            },
        }
    }
}

/// `p`, or else `q` from the same state.
pub struct Or<P, Q> {
    pub p: P,
    pub q: Q,
}

/// Tries `p`; if it fails, tries `q` from the same state. When both fail the
/// failure that got farther is reported, `q`'s on a tie.
pub fn or<P: Parser, Q: Parser<Value = P::Value>>(p: P, q: Q) -> (r: Or<P, Q>)
    ensures
        r.p == p,
        r.q == q,
{
    Or { p, q }
}

impl<P: Parser, Q: Parser<Value = P::Value>> Parser for Or<P, Q> {
    type Value = P::Value;

    open spec fn outcome(&self, text: Seq<char>, s: State) -> Outcome<<P::Value as DeepView>::V> {
        match self.p.outcome(text, s) {
            Outcome::Pass { new_state, value } => Outcome::Pass { new_state, value },
            Outcome::Fail { err_state: e1, mesg: m1, .. } => match self.q.outcome(text, s) {
                Outcome::Pass { new_state, value } => Outcome::Pass { new_state, value },
                Outcome::Fail { err_state: e2, mesg: m2, .. } => if e1.index > e2.index {
                    fail_from(s, e1, m1)
                } else {
                    fail_from(s, e2, m2)
                },
            },
        }
    }

    proof fn lemma_well_behaved(&self, text: Seq<char>, s: State) {
        self.p.lemma_well_behaved(text, s);
        self.q.lemma_well_behaved(text, s);
    }

    fn parse(&self, stream: &Stream, s: State, log: &mut Log) -> (r: Status<P::Value>) {
        match self.p.parse(stream, s, log) {
            Ok(pass) => Ok(pass),
            Err(f1) => match self.q.parse(stream, s, log) {
                Ok(pass) => Ok(pass),
                Err(f2) => if f1.err_state.index > f2.err_state.index {
                    Err(Failed { old_state: s, err_state: f1.err_state, mesg: f1.mesg })
                } else {
                    Err(Failed { old_state: s, err_state: f2.err_state, mesg: f2.mesg })
                },
            },
        }
    }
}

/// The first alternative of a list that succeeds.
pub struct OrV<P> {
    pub alts: Vec<P>,
}

/// Tries each parser of `alts` in order from the same state, as `or` does
/// for two: the first success is returned; when all fail, the failure that
/// got farthest, the later one on a tie. With no alternative it fails where
/// it was called, with an empty message.
pub fn or_v<P: Parser>(alts: Vec<P>) -> (r: OrV<P>)
    ensures
        r.alts == alts,
{
    OrV { alts }
}

impl<P: Parser> OrV<P> {
    /// The alternatives from `i` on, `best` being the failure kept so far.
    pub open spec fn run(
        &self,
        text: Seq<char>,
        s: State,
        i: int,
        best: Outcome<<P::Value as DeepView>::V>,
    ) -> Outcome<<P::Value as DeepView>::V>
        decreases self.alts@.len() - i,
    {
        if i < 0 || i >= self.alts@.len() {
            best
        } else {
            match self.alts@[i].outcome(text, s) {
                Outcome::Pass { new_state, value } => Outcome::Pass { new_state, value },
                Outcome::Fail { err_state, mesg, .. } => if best is Fail
                    && best->Fail_err_state.index > err_state.index {
                    self.run(text, s, i + 1, best)
                } else {
                    self.run(text, s, i + 1, fail_from(s, err_state, mesg))
                },
            }
        }
    }

    proof fn lemma_run(
        &self,
        text: Seq<char>,
        s: State,
        i: int,
        best: Outcome<<P::Value as DeepView>::V>,
    )
        requires
            s.valid_in(text),
            best is Fail,
            best.well_behaved(text, s),
        ensures
            self.run(text, s, i, best).well_behaved(text, s),
        decreases self.alts@.len() - i,
    {
        if 0 <= i < self.alts@.len() {
            self.alts@[i].lemma_well_behaved(text, s);
            match self.alts@[i].outcome(text, s) {
                Outcome::Pass { .. } => {},
                Outcome::Fail { err_state, mesg, .. } => {
                    if best->Fail_err_state.index > err_state.index {
                        self.lemma_run(text, s, i + 1, best);
                    } else {
                        self.lemma_run(text, s, i + 1, fail_from(s, err_state, mesg));
                    }
                },
            }
        }
    }
}

impl<P: Parser> Parser for OrV<P> {
    type Value = P::Value;

    open spec fn outcome(&self, text: Seq<char>, s: State) -> Outcome<<P::Value as DeepView>::V> {
        self.run(text, s, 0, fail_from(s, s, Seq::empty()))
    }

    proof fn lemma_well_behaved(&self, text: Seq<char>, s: State) {
        self.lemma_run(text, s, 0, fail_from(s, s, Seq::empty()));
    }

    fn parse(&self, stream: &Stream, s: State, log: &mut Log) -> (r: Status<P::Value>) {
        let mut best = Failed { old_state: s, err_state: s, mesg: String::new() };
        let mut i: usize = 0;
        while i < self.alts.len()
            invariant
                stream.wf(),
                s.valid_in(stream.text@),
                i <= self.alts@.len(),
                log.extends(old(log)),
                self.run(stream.text@, s, i as int, model::<P::Value>(Err(best))) == self.outcome(
                    stream.text@,
                    s,
                ),
            decreases self.alts@.len() - i,
        {
            match self.alts[i].parse(stream, s, log) {
                Ok(pass) => {
                    return Ok(pass);
                },
                Err(f) => {
                    if best.err_state.index <= f.err_state.index {
                        best = Failed { old_state: s, err_state: f.err_state, mesg: f.mesg };
                    }
                },
            }
            i = i + 1;
        }
        Err(best)
    }
}

} // verus!
