//! Separated lists, operator chains folded left or right, and binding a
//! parser to the value of another.
use vstd::prelude::*;
use crate::types::{State, Stream, Succeeded, Failed, Status, Outcome, Log, Parser};
use crate::combinators::{Seq2, Then, fail_from};
use crate::repetition::{Rep, UNBOUNDED};

verus! {

/// How an operator chain combines a left operand, an operator and a right
/// operand.
pub trait Fold<T: DeepView, U: DeepView> {
    spec fn spec_fold(&self, a: T::V, op: U::V, b: T::V) -> T::V;

    fn fold(&self, a: T, op: U, b: T) -> (r: T)
        ensures
            r.deep_view() == self.spec_fold(a.deep_view(), op.deep_view(), b.deep_view()),
    ;
}

/// Integer arithmetic on `i64` with the operator given as a character:
/// `+`, `-` and `*`, wrapping on overflow; any other operator keeps the left
/// operand.
pub struct Arith;

impl Fold<i64, char> for Arith {
    open spec fn spec_fold(&self, a: i64, op: char, b: i64) -> i64 {
        if op == '+' {
            a.wrapping_add(b)
        } else if op == '-' {
            a.wrapping_sub(b)
        } else if op == '*' {
            a.wrapping_mul(b)
        } else {
            a
        }
    }

    fn fold(&self, a: i64, op: char, b: i64) -> (r: i64) {
        if op == '+' {
            a.wrapping_add(b)
        } else if op == '-' {
            a.wrapping_sub(b)
        } else if op == '*' {
            a.wrapping_mul(b)
        } else {
            a
        }
    }
}

/// `((first op1 v1) op2 v2) ...`
pub open spec fn fold_left<T: DeepView, U: DeepView, F: Fold<T, U>>(
    f: F,
    acc: T::V,
    pairs: Seq<(U::V, T::V)>,
) -> T::V
    decreases pairs.len(),
{
    if pairs.len() == 0 {
        acc
    } else {
        fold_left::<T, U, F>(f, f.spec_fold(acc, pairs[0].0, pairs[0].1), pairs.drop_first())
    }
}

/// `first op1 (v1 op2 (v2 ...))`
pub open spec fn fold_right<T: DeepView, U: DeepView, F: Fold<T, U>>(
    f: F,
    first: T::V,
    pairs: Seq<(U::V, T::V)>,
) -> T::V
    decreases pairs.len(),
{
    if pairs.len() == 0 {
        first
    } else {
        f.spec_fold(first, pairs[0].0, fold_right::<T, U, F>(f, pairs[0].1, pairs.drop_first()))
    }
}

/// `(op p)*`, the tail of an operator chain.
pub type ChainSuffix<P, O> = Rep<Seq2<O, P>>;

/// Zero or more pairs of an operator and an operand.
pub fn chain_suffix<P: Parser, O: Parser>(p: P, op: O) -> (r: ChainSuffix<P, O>)
    ensures
        r.p.p == op,
        r.p.q == p,
        r.min == 0,
        r.max == UNBOUNDED,
{
    Rep { p: Seq2 { p: op, q: p }, min: 0, max: UNBOUNDED }
}

/// `p (op p)*` folded with `f`, to the left or to the right.
pub struct Chain<P, O, F> {
    pub p: P,
    pub op: O,
    pub f: F,
    pub left: bool,
}

/// Parses `p (op p)*` and folds the operands left to right with `f`, so that
/// `f` builds a left-associative result.
pub fn chainl1<P: Parser, O: Parser, F: Fold<P::Value, O::Value>>(p: P, op: O, f: F) -> (r: Chain<
    P,
    O,
    F,
>)
    ensures
        r.p == p,
        r.op == op,
        r.f == f,
        r.left,
{
    Chain { p, op, f, left: true }
}

/// Parses `p (op p)*` and folds the operands right to left with `f`, so that
/// `f` builds a right-associative result.
pub fn chainr1<P: Parser, O: Parser, F: Fold<P::Value, O::Value>>(p: P, op: O, f: F) -> (r: Chain<
    P,
    O,
    F,
>)
    ensures
        r.p == p,
        r.op == op,
        r.f == f,
        !r.left,
{
    Chain { p, op, f, left: false }
}

impl<P: Parser, O: Parser, F: Fold<P::Value, O::Value>> Chain<P, O, F> {
    /// The parser of the operands and operators.
    pub open spec fn body(&self) -> Seq2<&P, Rep<Seq2<&O, &P>>> {
        Seq2 { p: &self.p, q: Rep { p: Seq2 { p: &self.op, q: &self.p }, min: 0, max: UNBOUNDED } }
    }

    fn fold_from_right(&self, first: P::Value, pairs: Vec<(O::Value, P::Value)>) -> (r: P::Value)
        ensures
            r.deep_view() == fold_right::<P::Value, O::Value, F>(
                self.f,
                first.deep_view(),
                pairs.deep_view(),
            ),
        decreases pairs@.len(),
    {
        if pairs.len() == 0 {
            first
        } else {
            let ghost all = pairs.deep_view();
            let mut rest = pairs;
            let (op, next) = rest.remove(0);
            proof {
                assert(rest.deep_view() =~= all.drop_first());
            }
            let tail = self.fold_from_right(next, rest);
            self.f.fold(first, op, tail)
        }
    }

    fn fold_from_left(&self, first: P::Value, pairs: Vec<(O::Value, P::Value)>) -> (r: P::Value)
        ensures
            r.deep_view() == fold_left::<P::Value, O::Value, F>(
                self.f,
                first.deep_view(),
                pairs.deep_view(),
            ),
    {
        let mut acc = first;
        let mut rest = pairs;
        while rest.len() > 0
            invariant
                fold_left::<P::Value, O::Value, F>(self.f, acc.deep_view(), rest.deep_view())
                    == fold_left::<P::Value, O::Value, F>(
                    self.f,
                    first.deep_view(),
                    pairs.deep_view(),
                ),
            decreases rest@.len(),
        {
            let ghost before = rest.deep_view();
            let (op, b) = rest.remove(0);
            proof {
                assert(rest.deep_view() =~= before.drop_first());
            }
            acc = self.f.fold(acc, op, b);
        }
        proof {
            assert(rest.deep_view() =~= Seq::<(<O::Value as DeepView>::V, <P::Value as DeepView>::V)>::empty());
        }
        acc
    }
}

impl<P: Parser, O: Parser, F: Fold<P::Value, O::Value>> Parser for Chain<P, O, F> {
    type Value = P::Value;

    open spec fn outcome(&self, text: Seq<char>, s: State) -> Outcome<<P::Value as DeepView>::V> {
        match self.body().outcome(text, s) {
            Outcome::Pass { new_state, value } => Outcome::Pass {
                new_state,
                value: if self.left {
                    fold_left::<P::Value, O::Value, F>(self.f, value.0, value.1)
                } else {
                    fold_right::<P::Value, O::Value, F>(self.f, value.0, value.1)
                },
            },
            Outcome::Fail { err_state, mesg, .. } => fail_from(s, err_state, mesg),
        }
    }

    proof fn lemma_well_behaved(&self, text: Seq<char>, s: State) {
        self.body().lemma_well_behaved(text, s);
    }

    fn parse(&self, stream: &Stream, s: State, log: &mut Log) -> (r: Status<P::Value>) {
        let body = Seq2 {
            p: &self.p,
            q: Rep { p: Seq2 { p: &self.op, q: &self.p }, min: 0, max: UNBOUNDED },
        };
        assert(body == self.body());
        match body.parse(stream, s, log) {
            Ok(pass) => {
                let (first, pairs) = pass.value;
                let value = if self.left {
                    self.fold_from_left(first, pairs)
                } else {
                    self.fold_from_right(first, pairs)
                };
                Ok(Succeeded { new_state: pass.new_state, value })
            },
            Err(f) => Err(Failed { old_state: s, err_state: f.err_state, mesg: f.mesg }),
        }
    }
}

/// One or more `p` separated by `sep`.
pub struct List<P, S> {
    pub p: P,
    pub sep: S,
}

/// Parses `p (sep p)*`, yielding the values of `p`. It fails where the first
/// `p` fails.
pub fn list<P: Parser, S: Parser>(p: P, sep: S) -> (r: List<P, S>)
    ensures
        r.p == p,
        r.sep == sep,
{
    List { p, sep }
}

impl<P: Parser, S: Parser> List<P, S> {
    pub open spec fn body(&self) -> Seq2<&P, Rep<Then<&S, &P>>> {
        Seq2 { p: &self.p, q: Rep { p: Then { p: &self.sep, q: &self.p }, min: 0, max: UNBOUNDED } }
    }
}

impl<P: Parser, S: Parser> Parser for List<P, S> {
    type Value = Vec<P::Value>;

    open spec fn outcome(&self, text: Seq<char>, s: State) -> Outcome<
        Seq<<P::Value as DeepView>::V>,
    > {
        match self.body().outcome(text, s) {
            Outcome::Pass { new_state, value } => Outcome::Pass {
                new_state,
                value: seq![value.0] + value.1,
            },
            Outcome::Fail { err_state, mesg, .. } => fail_from(s, err_state, mesg),
        }
    }

    proof fn lemma_well_behaved(&self, text: Seq<char>, s: State) {
        self.body().lemma_well_behaved(text, s);
    }

    fn parse(&self, stream: &Stream, s: State, log: &mut Log) -> (r: Status<Vec<P::Value>>) {
        let body = Seq2 {
            p: &self.p,
            q: Rep { p: Then { p: &self.sep, q: &self.p }, min: 0, max: UNBOUNDED },
        };
        assert(body == self.body());
        match body.parse(stream, s, log) {
            Ok(pass) => {
                let (first, mut rest) = pass.value;
                let ghost first_v = first.deep_view();
                let ghost rest_v = rest.deep_view();
                rest.insert(0, first);
                proof {
                    assert(rest.deep_view() =~= seq![first_v] + rest_v);
                }
                Ok(Succeeded { new_state: pass.new_state, value: rest })
            },
            Err(f) => Err(Failed { old_state: s, err_state: f.err_state, mesg: f.mesg }),
        }
    }
}

/// Chooses the parser that follows from the value of the one before.
pub trait Bind<T: DeepView> {
    type Next: Parser;

    spec fn spec_next(&self, v: T::V) -> Self::Next;

    fn next(&self, v: T) -> (r: Self::Next)
        ensures
            r == self.spec_next(v.deep_view()),
    ;
}

/// Makes of a count the parser of exactly that many `p` (none for a negative
/// count).
pub struct Counted<'a, P> {
    pub p: &'a P,
}

impl<'a, P: Parser> Bind<i64> for Counted<'a, P> {
    type Next = Rep<&'a P>;

    open spec fn spec_next(&self, v: i64) -> Rep<&'a P> {
        let n: usize = if v < 0 {
            0
        } else {
            v as usize
        };
        Rep { p: self.p, min: n, max: n }
    }

    fn next(&self, v: i64) -> (r: Rep<&'a P>) {
        let n: usize = if v < 0 {
            0
        } else {
            v as usize
        };
        Rep { p: self.p, min: n, max: n }
    }
}

/// `p`, then the parser that `b` makes of its value.
pub struct ThenE<P, B> {
    pub p: P,
    pub b: B,
}

/// Runs `p`, then the parser that `eval` makes of `p`'s value, from where `p`
/// stopped.
pub fn thene<P: Parser, B: Bind<P::Value>>(p: P, eval: B) -> (r: ThenE<P, B>)
    ensures
        r.p == p,
        r.b == eval,
{
    ThenE { p, b: eval }
}

impl<P: Parser, B: Bind<P::Value>> Parser for ThenE<P, B> {
    type Value = <B::Next as Parser>::Value;

    open spec fn outcome(&self, text: Seq<char>, s: State) -> Outcome<
        <<B::Next as Parser>::Value as DeepView>::V,
    > {
        match self.p.outcome(text, s) {
            Outcome::Fail { err_state, mesg, .. } => fail_from(s, err_state, mesg),
            Outcome::Pass { new_state, value } => match self.b.spec_next(value).outcome(
                text,
                new_state,
            ) {
                Outcome::Fail { err_state, mesg, .. } => fail_from(s, err_state, mesg),
                Outcome::Pass { new_state: end, value } => Outcome::Pass { new_state: end, value },
            },
        }
    }

    proof fn lemma_well_behaved(&self, text: Seq<char>, s: State) {
        self.p.lemma_well_behaved(text, s);
        if let Outcome::Pass { new_state, value } = self.p.outcome(text, s) {
            self.b.spec_next(value).lemma_well_behaved(text, new_state);
        }
    }

    fn parse(&self, stream: &Stream, s: State, log: &mut Log) -> (r: Status<
        <B::Next as Parser>::Value,
    >) {
        proof {
            self.p.lemma_well_behaved(stream.text@, s);
        }
        match self.p.parse(stream, s, log) {
            Err(f) => Err(Failed { old_state: s, err_state: f.err_state, mesg: f.mesg }),
            Ok(pass) => {
                let q = self.b.next(pass.value);
                match q.parse(stream, pass.new_state, log) {
                    Err(f) => Err(Failed { old_state: s, err_state: f.err_state, mesg: f.mesg }),
                    Ok(end) => Ok(end),
                }
            },
        }
    }
}

} // verus!
