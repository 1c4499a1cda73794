//! Tracing of parser results and the labelling of failures.
use vstd::prelude::*;
use crate::types::{State, Stream, Failed, Status, Outcome, Log, Level, Parser};
use crate::misc::{munged, repeat_char, is_print};

verus! {

impl Level {
    pub fn code(&self) -> (r: u8)
        ensures
            r == self.rank(),
    {
        match self {
            Level::Debug => 0,
            Level::Info => 1,
            Level::Off => 2,
        }
    }
}

/// A line of `n` copies of `c`.
pub open spec fn run_of(c: char, n: int) -> Seq<char> {
    Seq::new(n as nat, |_i: int| c)
}

/// The caret line traced when a parser labelled `label` succeeded from
/// `start` to `end`.
pub open spec fn pass_line(text: Seq<char>, start: int, end: int, label: Seq<char>) -> Seq<char> {
    run_of(' ', end) + "^ "@ + label + if end > start {
        " parsed '"@ + munged(text.subrange(start, end)) + "'"@
    } else {
        " passed"@
    }
}

/// The caret line traced when a parser labelled `label` called at `start`
/// failed at `err`.
pub open spec fn fail_line(start: int, err: int, label: Seq<char>) -> Seq<char> {
    run_of('-', start) + "^"@ + if err > start {
        run_of(' ', err - start) + "! "@
    } else {
        " "@
    } + label + " failed"@
}

/// The level of the trace of a success from `start` to `end`.
pub open spec fn pass_level(start: int, end: int) -> Level {
    if end > start {
        Level::Info
    } else {
        Level::Debug
    }
}

impl Log {
    /// Lines of `level` are kept.
    pub open spec fn active(&self, level: Level) -> bool {
        level != Level::Off && self.level.rank() <= level.rank()
    }

    /// A sink that keeps the lines of `level` and above.
    pub fn new(level: Level) -> (r: Log)
        ensures
            r.level == level,
            r.texts() == Seq::<Seq<char>>::empty(),
    {
        let r = Log { level, lines: Vec::new() };
        assert(r.texts() =~= Seq::<Seq<char>>::empty());
        r
    }

    pub fn is_active(&self, level: Level) -> (r: bool)
        ensures
            r == self.active(level),
    {
        level != Level::Off && self.level.code() <= level.code()
    }

    /// Keeps `line` if `level` is active.
    pub fn emit(&mut self, level: Level, line: String)
        ensures
            final(self).level == old(self).level,
            final(self).texts() == if old(self).active(level) {
                old(self).texts().push(line@)
            } else {
                old(self).texts()
            },
    {
        if self.is_active(level) {
            let ghost before = self.texts();
            self.lines.push(line);
            assert(self.texts() =~= before.push(line@));
        }
    }

    /// Traces a success of the parser labelled `label` from `start` to `end`:
    /// the input, then a caret under `end`, at info level when the parser
    /// made progress and at debug level when it did not. Nothing is rendered
    /// unless that level is kept.
    pub fn note_pass(&mut self, text: &Vec<char>, start: usize, end: usize, label: &String)
        requires
            start <= end <= text@.len(),
        ensures
            final(self).level == old(self).level,
            final(self).texts() == if old(self).active(pass_level(start as int, end as int)) {
                old(self).texts().push(munged(text@)).push(
                    pass_line(text@, start as int, end as int, label@),
                )
            } else {
                old(self).texts()
            },
    {
        let level = if end > start { Level::Info } else { Level::Debug };
        if self.is_active(level) {
            self.emit(level, crate::misc::munge_chars(text));
            let mut line = repeat_char(' ', end);
            line.append("^ ");
            line.append(label.as_str());
            if end > start {
                line.append(" parsed '");
                let slice = munge_range(text, start, end);
                line.append(slice.as_str());
                line.append("'");
            } else {
                line.append(" passed");
            }
            assert(line@ =~= pass_line(text@, start as int, end as int, label@));
            self.emit(level, line);
        }
    }

    /// Traces a failure of the parser labelled `label` called at `start` and
    /// failing at `err`, at debug level.
    pub fn note_fail(&mut self, text: &Vec<char>, start: usize, err: usize, label: &String)
        requires
            start <= err,
        ensures
            final(self).level == old(self).level,
            final(self).texts() == if old(self).active(Level::Debug) {
                old(self).texts().push(munged(text@)).push(
                    fail_line(start as int, err as int, label@),
                )
            } else {
                old(self).texts()
            },
    {
        if self.is_active(Level::Debug) {
            self.emit(Level::Debug, crate::misc::munge_chars(text));
            let mut line = repeat_char('-', start);
            line.append("^");
            if err > start {
                let gap = repeat_char(' ', err - start);
                line.append(gap.as_str());
                line.append("! ");
            } else {
                line.append(" ");
            }
            line.append(label.as_str());
            line.append(" failed");
            assert(line@ =~= fail_line(start as int, err as int, label@));
            self.emit(Level::Debug, line);
        }
    }
}

/// The characters of `text` from `start` to `end`, made printable.
fn munge_range(text: &Vec<char>, start: usize, end: usize) -> (r: String)
    requires
        start <= end <= text@.len(),
    ensures
        r@ == munged(text@.subrange(start as int, end as int)),
{
    let mut value = String::new();
    let mut i = start;
    while i < end
        invariant
            start <= i <= end <= text@.len(),
            value@ == munged(text@.subrange(start as int, i as int)),
        decreases end - i,
    {
        let ch = text[i];
        let ghost prev = text@.subrange(start as int, i as int);
        let shown = if is_print(ch) { ch } else { '.' };
        crate::misc::push_char(&mut value, shown);
        i = i + 1;
        assert(text@.subrange(start as int, i as int) =~= prev.push(ch));
        assert(munged(prev.push(ch)) =~= munged(prev).push(shown));
    }
    value
}

/// `p`, traced.
pub struct Note<P> {
    pub p: P,
    pub label: String,
}

/// Traces the result of `p` under `label`: info lines on a success that made
/// progress, debug lines on one that did not and on a failure.
pub fn note<P: Parser>(p: P, label: String) -> (r: Note<P>)
    ensures
        r.p == p,
        r.label == label,
{
    Note { p, label }
}

impl<P: Parser> Parser for Note<P> {
    type Value = P::Value;

    open spec fn outcome(&self, text: Seq<char>, s: State) -> Outcome<<P::Value as DeepView>::V> {
        self.p.outcome(text, s)
    }

    proof fn lemma_well_behaved(&self, text: Seq<char>, s: State) {
        self.p.lemma_well_behaved(text, s);
    }

    fn parse(&self, stream: &Stream, s: State, log: &mut Log) -> (r: Status<P::Value>) {
        proof {
            self.p.lemma_well_behaved(stream.text@, s);
        }
        let r = self.p.parse(stream, s, log);
        match &r {
            Ok(pass) => log.note_pass(&stream.text, s.index, pass.new_state.index, &self.label),
            Err(f) => log.note_fail(&stream.text, s.index, f.err_state.index, &self.label),
        }
        r
    }
}

/// `p`, traced, with its failures labelled.
pub struct Labelled<P> {
    pub note: Note<P>,
}

/// Like `note`, and `label` is also used for error reporting: an empty label
/// clears the message (leaving it to an enclosing label); another replaces it
/// when `p` failed where it was called or its message is empty, and leaves
/// the deeper message otherwise.
pub fn err<P: Parser>(p: P, label: String) -> (r: Labelled<P>)
    ensures
        r.note.p == p,
        r.note.label == label,
{
    Labelled { note: Note { p, label } }
}

/// The message of a failure labelled `label`, called at `s`, failing at `e`
/// with message `mesg`.
pub open spec fn labelled(label: Seq<char>, s: State, e: State, mesg: Seq<char>) -> Seq<char> {
    if label.len() == 0 {
        Seq::empty()
    } else if e.index == s.index || mesg.len() == 0 {
        label
    } else {
        mesg
    }
}

impl<P: Parser> Parser for Labelled<P> {
    type Value = P::Value;

    open spec fn outcome(&self, text: Seq<char>, s: State) -> Outcome<<P::Value as DeepView>::V> {
        match self.note.p.outcome(text, s) {
            Outcome::Pass { new_state, value } => Outcome::Pass { new_state, value },
            Outcome::Fail { old_state, err_state, mesg } => Outcome::Fail {
                old_state,
                err_state,
                mesg: labelled(self.note.label@, s, err_state, mesg),
            },
        }
    }

    proof fn lemma_well_behaved(&self, text: Seq<char>, s: State) {
        self.note.p.lemma_well_behaved(text, s);
    }

    fn parse(&self, stream: &Stream, s: State, log: &mut Log) -> (r: Status<P::Value>) {
        match self.note.parse(stream, s, log) {
            Ok(pass) => Ok(pass),
            Err(f) => {
                let mesg = if self.note.label.as_str().is_empty() {
                    String::new()
                } else if f.err_state.index == s.index || f.mesg.as_str().is_empty() {
                    self.note.label.clone()
                } else {
                    f.mesg
                };
                Err(Failed { old_state: f.old_state, err_state: f.err_state, mesg })
            },
        }
    }
}

} // verus!
