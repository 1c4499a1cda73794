//! Optional parsers and bounded or unbounded repetition.
use vstd::prelude::*;
use crate::types::{State, Stream, Succeeded, Failed, Status, Outcome, Log, Parser};
use crate::combinators::{Left, fail_from};
use crate::leaves::{CharIf, CharClass};

verus! {

/// The cap of a repetition with no upper bound.
pub const UNBOUNDED: usize = usize::MAX;

/// `p` or nothing.
pub struct Optional<P> {
    pub p: P,
}

/// Runs `p`; when it fails, succeeds at the same state with `None`.
pub fn optional<P: Parser>(p: P) -> (r: Optional<P>)
    ensures
        r.p == p,
{
    Optional { p }
}

impl<P: Parser> Parser for Optional<P> {
    type Value = Option<P::Value>;

    open spec fn outcome(&self, text: Seq<char>, s: State) -> Outcome<
        Option<<P::Value as DeepView>::V>,
    > {
        match self.p.outcome(text, s) {
            Outcome::Pass { new_state, value } => Outcome::Pass { new_state, value: Some(value) },
            Outcome::Fail { .. } => Outcome::Pass { new_state: s, value: None },
        }
    }

    proof fn lemma_well_behaved(&self, text: Seq<char>, s: State) {
        self.p.lemma_well_behaved(text, s);
    }

    fn parse(&self, stream: &Stream, s: State, log: &mut Log) -> (r: Status<Option<P::Value>>) {
        match self.p.parse(stream, s, log) {
            Ok(pass) => Ok(Succeeded { new_state: pass.new_state, value: Some(pass.value) }),
            Err(_) => Ok(Succeeded { new_state: s, value: None }),
        }
    }
}

/// `p` repeated between `min` and `max` times.
pub struct Rep<P> {
    pub p: P,
    pub min: usize,
    pub max: usize,
}

/// Applies `p` as often as it succeeds, `m` times at most, and fails unless it
/// succeeded `n` times.
pub fn r<P: Parser>(p: P, n: usize, m: usize) -> (res: Rep<P>)
    ensures
        res.p == p,
        res.min == n,
        res.max == m,
{
    Rep { p, min: n, max: m }
}

/// Zero or more `p`.
pub fn r0<P: Parser>(p: P) -> (res: Rep<P>)
    ensures
        res.p == p,
        res.min == 0,
        res.max == UNBOUNDED,
{
    Rep { p, min: 0, max: UNBOUNDED }
}

/// One or more `p`.
pub fn r1<P: Parser>(p: P) -> (res: Rep<P>)
    ensures
        res.p == p,
        res.min == 1,
        res.max == UNBOUNDED,
{
    Rep { p, min: 1, max: UNBOUNDED }
}

/// `p` followed by whitespace.
pub type Spaced<P> = Left<P, Rep<CharIf>>;

/// Runs `p`, then skips zero or more whitespace characters after it,
/// yielding the value of `p`.
pub fn s0<P: Parser>(p: P) -> (res: Spaced<P>)
    ensures
        res.p == p,
        res.q.p.class == CharClass::Whitespace,
        res.q.min == 0,
        res.q.max == UNBOUNDED,
{
    Left { p, q: Rep { p: CharIf { class: CharClass::Whitespace }, min: 0, max: UNBOUNDED } }
}

/// Runs `p`, then skips one or more whitespace characters after it, yielding
/// the value of `p`.
pub fn s1<P: Parser>(p: P) -> (res: Spaced<P>)
    ensures
        res.p == p,
        res.q.p.class == CharClass::Whitespace,
        res.q.min == 1,
        res.q.max == UNBOUNDED,
{
    Left { p, q: Rep { p: CharIf { class: CharClass::Whitespace }, min: 1, max: UNBOUNDED } }
}

impl<P: Parser> Rep<P> {
    /// The end of a repetition that stopped at `cur` with `vals` collected
    /// (because the cap was reached or a zero-width match repeated).
    pub open spec fn stop(
        &self,
        start: State,
        cur: State,
        vals: Seq<<P::Value as DeepView>::V>,
    ) -> Outcome<Seq<<P::Value as DeepView>::V>> {
        if vals.len() >= self.min {
            Outcome::Pass { new_state: cur, value: vals }
        } else {
            fail_from(start, cur, Seq::empty())
        }
    }

    /// The repetition started at `start`, now at `cur` with `vals` collected and
    /// `zeros` zero-width matches in a row just before.
    pub open spec fn run(
        &self,
        text: Seq<char>,
        start: State,
        cur: State,
        vals: Seq<<P::Value as DeepView>::V>,
        zeros: nat,
    ) -> Outcome<Seq<<P::Value as DeepView>::V>>
        decreases text.len() - cur.index, self.max - vals.len(),
    {
        if vals.len() >= self.max || cur.index > text.len() {
            self.stop(start, cur, vals)
        } else {
            match self.p.outcome(text, cur) {
                Outcome::Fail { err_state, mesg, .. } => if vals.len() >= self.min {
                    Outcome::Pass { new_state: cur, value: vals }
                } else {
                    fail_from(start, err_state, mesg)
                },
                Outcome::Pass { new_state, value } => {
                    let next = vals.push(value);
                    if cur.index < new_state.index && new_state.index <= text.len() {
                        self.run(text, start, new_state, next, 0)
                    } else if new_state.index == cur.index {
                        if self.max == UNBOUNDED && zeros >= 1 {
                            self.stop(start, new_state, next)
                        } else {
                            self.run(text, start, new_state, next, 1)
                        }
                    } else {
                        self.stop(start, new_state, next)
                    }
                },
            }
        }
    }

    proof fn lemma_run(
        &self,
        text: Seq<char>,
        start: State,
        cur: State,
        vals: Seq<<P::Value as DeepView>::V>,
        zeros: nat,
    )
        requires
            cur.valid_in(text),
            start.index <= cur.index,
        ensures
            self.run(text, start, cur, vals, zeros).well_behaved(text, start),
        decreases text.len() - cur.index, self.max - vals.len(),
    {
        if vals.len() < self.max {
            self.p.lemma_well_behaved(text, cur);
            match self.p.outcome(text, cur) {
                Outcome::Fail { .. } => {},
                Outcome::Pass { new_state, value } => {
                    let next = vals.push(value);
                    if cur.index < new_state.index && new_state.index <= text.len() {
                        self.lemma_run(text, start, new_state, next, 0);
                    } else if new_state.index == cur.index {
                        if !(self.max == UNBOUNDED && zeros >= 1) {
                            self.lemma_run(text, start, new_state, next, 1);
                        }
                    }
                },
            }
        }
    }
}

impl<P: Parser> Parser for Rep<P> {
    type Value = Vec<P::Value>;

    open spec fn outcome(&self, text: Seq<char>, s: State) -> Outcome<
        Seq<<P::Value as DeepView>::V>,
    > {
        self.run(text, s, s, Seq::empty(), 0)
    }

    proof fn lemma_well_behaved(&self, text: Seq<char>, s: State) {
        self.lemma_run(text, s, s, Seq::empty(), 0);
    }

    fn parse(&self, stream: &Stream, s: State, log: &mut Log) -> (res: Status<Vec<P::Value>>) {
        let ghost text = stream.text@;
        let mut cur = s;
        let mut vals: Vec<P::Value> = Vec::new();
        let mut zeros: usize = 0;
        proof {
            assert(vals.deep_view() =~= Seq::<<P::Value as DeepView>::V>::empty());
        }
        loop
            invariant
                stream.wf(),
                text == stream.text@,
                cur.valid_in(text),
                s.index <= cur.index,
                zeros <= 1,
                vals@.len() <= self.max,
                log.extends(old(log)),
                self.run(text, s, cur, vals.deep_view(), zeros as nat) == self.outcome(text, s),
            decreases text.len() - cur.index, self.max - vals@.len(),
        {
            if vals.len() >= self.max {
                if vals.len() >= self.min {
                    return Ok(Succeeded { new_state: cur, value: vals });
                } else {
                    return Err(Failed { old_state: s, err_state: cur, mesg: String::new() });
                }
            }
            proof {
                self.p.lemma_well_behaved(text, cur);
            }
            match self.p.parse(stream, cur, log) {
                Err(f) => {
                    if vals.len() >= self.min {
                        return Ok(Succeeded { new_state: cur, value: vals });
                    } else {
                        return Err(Failed { old_state: s, err_state: f.err_state, mesg: f.mesg });
                    }
                },
                Ok(pass) => {
                    let ghost old_vals = vals.deep_view();
                    let ghost v = pass.value.deep_view();
                    let new_state = pass.new_state;
                    vals.push(pass.value);
                    proof {
                        assert(vals.deep_view() =~= old_vals.push(v));
                    }
                    if cur.index < new_state.index {
                        cur = new_state;
                        zeros = 0;
                    } else if self.max == UNBOUNDED && zeros >= 1 {
                        if vals.len() >= self.min {
                            return Ok(Succeeded { new_state, value: vals });
                        } else {
                            return Err(
                                Failed { old_state: s, err_state: new_state, mesg: String::new() },
                            );
                        }
                    } else {
                        cur = new_state;
                        zeros = 1;
                    }
                },
            }
        }
    }
}

} // verus!
