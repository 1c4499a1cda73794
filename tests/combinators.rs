use rparse::combinators::{or, or_v, seq2, seq2_ret0, seq2_ret1, seq3, seq3_ret0, seq3_ret1, seq3_ret2, then};
use rparse::diagnostics::{err, note};
use rparse::driver::{eot, everything, parse, ParseStatus};
use rparse::folding::{chain_suffix, chainl1, chainr1, list, thene, Arith, Counted, Fold};
use rparse::leaves::{decimal_number, match_char, CharClass};
use rparse::misc::{at_connect, chars_with_eot, get_col, is_print, lower_char, munge_chars, repeat_char};
use rparse::repetition::{optional, r, r0, r1, s0, s1};
use rparse::types::{Level, Log, Parser, State, Stream, EOT};

fn run<P: Parser>(p: &P, text: &str) -> ParseStatus<P::Value> {
    let mut log = Log::new(Level::Off);
    parse(p, "test.txt".to_string(), text, &mut log)
}

fn stream(text: &str) -> Stream {
    Stream { file: "test.txt".to_string(), text: chars_with_eot(text) }
}

fn lit(c: char) -> rparse::leaves::CharIf {
    match_char(CharClass::Exactly(c))
}

#[test]
fn chainl1_folds_left() {
    let p = chainl1(decimal_number(), lit('-'), Arith);
    assert_eq!(run(&p, "9-3-2").ok(), Some(4));
}

#[test]
fn chainr1_folds_right() {
    let p = chainr1(decimal_number(), lit('-'), Arith);
    assert_eq!(run(&p, "9-3-2").ok(), Some(8));
}

#[test]
fn chain_of_one_operand() {
    let p = chainl1(decimal_number(), lit('+'), Arith);
    assert_eq!(run(&p, "17").ok(), Some(17));
}

#[test]
fn chain_suffix_collects_pairs() {
    let p = chain_suffix(decimal_number(), lit('*'));
    let v = run(&p, "*2*3").ok().unwrap();
    assert_eq!(v, vec![('*', 2), ('*', 3)]);
}

#[test]
fn everything_rejects_trailing_input() {
    let p = everything(decimal_number(), r0(match_char(CharClass::Whitespace)));
    let e = run(&p, "42x").err().unwrap();
    assert_eq!(e.col, 3);
    assert_eq!(e.line, 1);
    assert_eq!(e.mesg, "EOT");
    assert_eq!(e.file, "test.txt");
}

#[test]
fn everything_accepts_leading_space() {
    let p = everything(decimal_number(), match_char(CharClass::Whitespace));
    assert_eq!(run(&p, "  42").ok(), Some(42));
}

#[test]
fn failure_reports_line_and_column() {
    let p = everything(s0(decimal_number()), match_char(CharClass::Whitespace));
    let e = run(&p, "1\n x").err().unwrap();
    assert_eq!(e.line, 2);
    assert_eq!(e.col, 2);
}

#[test]
fn column_of_index() {
    let text = chars_with_eot("ab\ncd");
    assert_eq!(get_col(&text, 3), 1);
    assert_eq!(get_col(&text, 1), 2);
    assert_eq!(get_col(&text, 0), 1);
    assert_eq!(get_col(&text, 4), 2);
}

#[test]
fn eot_only_at_sentinel() {
    let st = stream("ab");
    let mut log = Log::new(Level::Off);
    let at_last = eot().parse(&st, State { index: 1, line: 1 }, &mut log);
    let f = at_last.err().unwrap();
    assert_eq!(f.mesg, "EOT");
    assert_eq!(f.old_state, State { index: 1, line: 1 });
    let at_end = eot().parse(&st, State { index: 2, line: 1 }, &mut log);
    assert_eq!(at_end.ok().unwrap().new_state, State { index: 3, line: 1 });
}

#[test]
fn or_tries_second_from_same_state() {
    let p = or(then(lit('a'), lit('b')), then(lit('a'), lit('c')));
    assert_eq!(run(&p, "ac").ok(), Some('c'));
    assert_eq!(run(&p, "ab").ok(), Some('b'));
}

#[test]
fn or_fails_when_both_fail() {
    let p = or(lit('a'), lit('b'));
    assert!(run(&p, "c").is_err());
}

#[test]
fn or_reports_longest_failure() {
    let p = or(err(then(lit('a'), lit('b')), "ab".to_string()), err(lit('x'), "x".to_string()));
    let st = stream("ac");
    let mut log = Log::new(Level::Off);
    let f = p.parse(&st, State { index: 0, line: 1 }, &mut log).err().unwrap();
    assert_eq!(f.err_state.index, 1);
    assert_eq!(f.old_state.index, 0);
}

#[test]
fn or_tie_goes_to_second() {
    let p = or(err(lit('a'), "first".to_string()), err(lit('b'), "second".to_string()));
    let e = run(&p, "c").err().unwrap();
    assert_eq!(e.mesg, "second");
}

#[test]
fn then_failure_starts_at_call() {
    let p = then(lit('a'), lit('b'));
    let st = stream("xac");
    let mut log = Log::new(Level::Off);
    let f = p.parse(&st, State { index: 1, line: 1 }, &mut log).err().unwrap();
    assert_eq!(f.old_state, State { index: 1, line: 1 });
    assert_eq!(f.err_state.index, 2);
}

#[test]
fn success_never_moves_back() {
    let p = r0(match_char(CharClass::Alpha));
    let st = stream("abc1");
    let mut log = Log::new(Level::Off);
    let ok = p.parse(&st, State { index: 1, line: 1 }, &mut log).ok().unwrap();
    assert_eq!(ok.new_state.index, 3);
    assert_eq!(ok.value, vec!['b', 'c']);
}

#[test]
fn r1_needs_one_match() {
    let p = r1(match_char(CharClass::Digit));
    assert!(run(&p, "x").is_err());
    let q = r0(match_char(CharClass::Digit));
    assert_eq!(run(&q, "x").ok(), Some(vec![]));
}

#[test]
fn r_respects_bounds() {
    let p = r(match_char(CharClass::Digit), 2, 3);
    assert_eq!(run(&p, "12345").ok(), Some(vec!['1', '2', '3']));
    assert!(run(&p, "1x").is_err());
}

#[test]
fn zero_width_repetition_stops() {
    let p = r0(optional(lit('a')));
    assert_eq!(run(&p, "b").ok(), Some(vec![None, None]));
    assert_eq!(run(&p, "aab").ok(), Some(vec![Some('a'), Some('a'), None, None]));
}

#[test]
fn spaced_parsers() {
    let p = seq2(s0(lit('a')), s1(lit('b')));
    assert_eq!(run(&p, "a  b ").ok(), Some(('a', 'b')));
    let q = seq2(lit('a'), s1(lit('b')));
    assert!(run(&q, "ab").is_err());
}

#[test]
fn seq_selects_values() {
    let p = seq3_ret1(lit('('), decimal_number(), lit(')'));
    assert_eq!(run(&p, "(12)").ok(), Some(12));
    let q = seq2_ret0(decimal_number(), lit(';'));
    assert_eq!(run(&q, "7;").ok(), Some(7));
    assert!(run(&q, "7").is_err());
}

#[test]
fn list_of_numbers() {
    let p = list(decimal_number(), lit(','));
    assert_eq!(run(&p, "1,2,3").ok(), Some(vec![1, 2, 3]));
    assert!(run(&p, "").is_err());
}

#[test]
fn decimal_overflow() {
    let e = run(&decimal_number(), "99999999999999999999").err().unwrap();
    assert_eq!(e.mesg, "overflow");
    assert_eq!(run(&decimal_number(), "9223372036854775807").ok(), Some(i64::MAX));
}

#[test]
fn empty_label_clears_message() {
    let p = err(lit('a'), "".to_string());
    assert_eq!(run(&p, "x").err().unwrap().mesg, "");
}

#[test]
fn label_without_progress() {
    let p = err(lit('a'), "expr".to_string());
    assert_eq!(run(&p, "x").err().unwrap().mesg, "expr");
}

#[test]
fn deeper_message_kept() {
    let p = err(then(lit('a'), err(lit('b'), "b".to_string())), "ab".to_string());
    let e = run(&p, "ac").err().unwrap();
    assert_eq!(e.mesg, "b");
    let q = err(then(lit('a'), err(lit('b'), "".to_string())), "ab".to_string());
    assert_eq!(run(&q, "ac").err().unwrap().mesg, "ab");
}

#[test]
fn note_traces_success() {
    let p = note(lit('a'), "letter".to_string());
    let st = stream("ab");
    let mut log = Log::new(Level::Info);
    assert!(p.parse(&st, State { index: 0, line: 1 }, &mut log).is_ok());
    assert_eq!(log.lines, vec!["ab.".to_string(), " ^ letter parsed 'a'".to_string()]);
}

#[test]
fn note_traces_failure_at_debug() {
    let p = note(then(lit('a'), lit('c')), "pair".to_string());
    let st = stream("xab");
    let mut log = Log::new(Level::Debug);
    assert!(p.parse(&st, State { index: 1, line: 1 }, &mut log).is_err());
    assert_eq!(log.lines, vec!["xab.".to_string(), "-^ ! pair failed".to_string()]);
    let mut quiet = Log::new(Level::Info);
    assert!(p.parse(&st, State { index: 1, line: 1 }, &mut quiet).is_err());
    assert!(quiet.lines.is_empty());
}

#[test]
fn note_traces_zero_width() {
    let p = note(optional(lit('z')), "opt".to_string());
    let st = stream("ab");
    let mut log = Log::new(Level::Debug);
    assert!(p.parse(&st, State { index: 1, line: 1 }, &mut log).is_ok());
    assert_eq!(log.lines[1], " ^ opt passed");
}

#[test]
fn text_helpers() {
    assert!(is_print('~'));
    assert!(!is_print('\n'));
    assert_eq!(lower_char('Q'), 'q');
    assert_eq!(lower_char('3'), '3');
    assert_eq!(repeat_char('-', 3), "---");
    assert_eq!(munge_chars(&vec!['a', '\t', 'b']), "a.b");
    assert_eq!(chars_with_eot("hé"), vec!['h', 'é', EOT]);
    let parts = vec!["a".to_string(), "bc".to_string(), "d".to_string()];
    assert_eq!(at_connect(&parts, ", "), "a, bc, d");
    assert_eq!(at_connect(&vec![], ", "), "");
}

#[test]
fn newline_advances_line() {
    let p = r0(match_char(CharClass::Whitespace));
    let st = stream(" \n\n x");
    let mut log = Log::new(Level::Off);
    let ok = p.parse(&st, State { index: 0, line: 1 }, &mut log).ok().unwrap();
    assert_eq!(ok.new_state, State { index: 4, line: 3 });
}

#[test]
fn or_v_picks_first_success() {
    let p = or_v(vec![then(lit('a'), lit('b')), then(lit('a'), lit('c')), then(lit('a'), lit('d'))]);
    assert_eq!(run(&p, "ac").ok(), Some('c'));
    assert_eq!(run(&p, "ad").ok(), Some('d'));
}

#[test]
fn or_v_failures() {
    let p = or_v(vec![
        err(then(lit('a'), lit('z')), "az".to_string()),
        err(then(lit('b'), lit('c')), "bc".to_string()),
        err(then(lit('x'), lit('y')), "xy".to_string()),
    ]);
    let st = stream("bx");
    let mut log = Log::new(Level::Off);
    let f = p.parse(&st, State { index: 0, line: 1 }, &mut log).err().unwrap();
    assert_eq!(f.err_state.index, 1);
    assert_eq!(f.mesg, "bc");
    let none: Vec<rparse::leaves::CharIf> = vec![];
    let e = run(&or_v(none), "a").err().unwrap();
    assert_eq!(e.col, 1);
    assert_eq!(e.mesg, "");
}

#[test]
fn seq3_variants() {
    assert_eq!(run(&seq3_ret0(lit('a'), lit('b'), lit('c')), "abc").ok(), Some('a'));
    assert_eq!(run(&seq3_ret2(lit('a'), lit('b'), lit('c')), "abc").ok(), Some('c'));
    assert_eq!(run(&seq2_ret1(lit('a'), lit('b')), "ab").ok(), Some('b'));
    assert_eq!(run(&seq3(lit('a'), lit('b'), lit('c')), "abc").ok(), Some((('a', 'b'), 'c')));
    let e = run(&seq3(lit('a'), lit('b'), lit('c')), "abx").err().unwrap();
    assert_eq!(e.col, 3);
}

#[test]
fn thene_uses_value() {
    let letter = match_char(CharClass::Alpha);
    let p = thene(decimal_number(), Counted { p: &letter });
    assert_eq!(run(&p, "3abc").ok(), Some(vec!['a', 'b', 'c']));
    assert_eq!(run(&p, "0").ok(), Some(vec![]));
    assert!(run(&p, "3ab").is_err());
}

#[test]
fn arith_operators() {
    assert_eq!(Arith.fold(6, '+', 7), 13);
    assert_eq!(Arith.fold(6, '-', 7), -1);
    assert_eq!(Arith.fold(6, '*', 7), 42);
    assert_eq!(Arith.fold(6, '/', 7), 6);
    assert_eq!(Arith.fold(i64::MAX, '+', 1), i64::MIN);
}
