//! Types used by all parsers: positions, outcomes and the parser trait.
use vstd::prelude::*;

verus! {

/// The end-of-text marker appended to every input stream.
pub const EOT: char = '\u{3}';

/// Position of a parser in its input. The index is 0-based, the line 1-based.
#[derive(Clone, Copy, Debug, PartialEq, Eq, Structural)]
pub struct State {
    pub index: usize,
    pub line: usize,
}

impl State {
    /// The state every parse starts from.
    pub open spec fn start() -> State {
        State { index: 0, line: 1 }
    }

    /// A state lies inside `text` (the sentinel's index plus one at most), and
    /// its line count cannot run ahead of the characters consumed.
    pub open spec fn valid_in(self, text: Seq<char>) -> bool {
        &&& self.index <= text.len() < usize::MAX
        &&& 1 <= self.line <= self.index + 1
    }
}

/// The input of a parse: a source name that is not interpreted and the
/// characters of the text followed by one `EOT`.
pub struct Stream {
    pub file: String,
    pub text: Vec<char>,
}

impl Stream {
    pub open spec fn wf(&self) -> bool {
        &&& self.text@.len() >= 1
        &&& self.text@.len() < usize::MAX
        &&& self.text@.last() == EOT
    }
}

/// A successful parse: where it ended and the value it produced.
pub struct Succeeded<T> {
    pub new_state: State,
    pub value: T,
}

/// A failed parse: the state the parser was called with, the farthest state
/// it reached, and a message.
pub struct Failed {
    pub old_state: State,
    pub err_state: State,
    pub mesg: String,
}

/// What a parser returns.
pub type Status<T> = Result<Succeeded<T>, Failed>;

/// The mathematical model of a `Status`: values are seen through `deep_view`
/// and messages as character sequences.
pub enum Outcome<V> {
    Pass { new_state: State, value: V },
    Fail { old_state: State, err_state: State, mesg: Seq<char> },
}

impl<V> Outcome<V> {
    /// The laws every parser obeys: a success never moves backwards, and a
    /// failure reports the state it was called with and an error position at
    /// or after it.
    pub open spec fn well_behaved(self, text: Seq<char>, s: State) -> bool {
        match self {
            Outcome::Pass { new_state, .. } => {
                &&& s.index <= new_state.index
                &&& new_state.valid_in(text)
            },
            Outcome::Fail { old_state, err_state, .. } => {
                &&& old_state == s
                &&& s.index <= err_state.index
                &&& err_state.valid_in(text)
            },
        }
    }
}

/// The model of a status.
pub open spec fn model<T: DeepView>(r: Status<T>) -> Outcome<T::V> {
    match r {
        Ok(p) => Outcome::Pass { new_state: p.new_state, value: p.value.deep_view() },
        Err(f) => Outcome::Fail { old_state: f.old_state, err_state: f.err_state, mesg: f.mesg@ },
    }
}

/// Severity of a trace line.
#[derive(Clone, Copy, Debug, PartialEq, Eq, Structural)]
pub enum Level {
    Debug,
    Info,
    Off,
}

impl Level {
    pub open spec fn rank(self) -> int {
        match self {
            Level::Debug => 0,
            Level::Info => 1,
            Level::Off => 2,
        }
    }
}

/// A trace sink: lines at or above `level` are kept, others are never built.
pub struct Log {
    pub level: Level,
    pub lines: Vec<String>,
}

impl Log {
    /// The lines kept so far.
    pub open spec fn texts(&self) -> Seq<Seq<char>> {
        self.lines@.map_values(|s: String| s@)
    }

    /// `self` is `before` with lines added after its own, at the same level.
    pub open spec fn extends(&self, before: &Log) -> bool {
        &&& self.level == before.level
        &&& before.texts().len() <= self.texts().len()
        &&& forall|i: int| 0 <= i < before.texts().len() ==> #[trigger] self.texts()[i] == before.texts()[i]
    }
}

/// A parser: a function from a state of a stream to an outcome, the same
/// outcome for the same state.
pub trait Parser {
    type Value: DeepView;

    /// What the parser returns on `text` from state `s`.
    spec fn outcome(&self, text: Seq<char>, s: State) -> Outcome<<Self::Value as DeepView>::V>;

    /// Every parser obeys the laws of `Outcome::well_behaved`.
    proof fn lemma_well_behaved(&self, text: Seq<char>, s: State)
        requires
            s.valid_in(text),
        ensures
            self.outcome(text, s).well_behaved(text, s),
    ;

    fn parse(&self, stream: &Stream, s: State, log: &mut Log) -> (r: Status<Self::Value>)
        requires
            stream.wf(),
            s.valid_in(stream.text@),
        ensures
            model(r) == self.outcome(stream.text@, s),
            final(log).extends(old(log)),
    ;
}

} // verus!
