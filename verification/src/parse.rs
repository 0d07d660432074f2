//! The draft parser: one pass over the statement list, dispatching on each
//! statement's first non-space character, followed by a compile pass that
//! substitutes classes into every rule pattern and compiles it. Classes may
//! be referenced before their definition: the statement pass builds the full
//! class table before any rule is compiled.

use vstd::prelude::*;
use vstd::string::*;

use crate::draft::{
    count_tests, mode_of, msgs_view, note_view, raw_rules_view, rules_view, Draft, DraftV, Message,
    MessageV, Mode, Note, RawRule, RawRuleV, Rule, RuleV, TestDraft, TestDraftV,
};
use crate::engine::{is_word, is_word_str, regex_new, regex_new_ok, regex_source};
use crate::error::{ErrV, Error, PErr, ParseError};
use crate::statements::{split_spec, split_statements, stmts_view};
use crate::substitute::{
    classes_map, classes_view, fuel_for, lookup_class, replace_classes, subst_spec, ClassDef,
    ClassV,
};
use crate::text::{
    chars_of, extend_chars, find_char, find_from, leading_spaces, skip_spaces, split_ws,
    split_ws_spec, string_from_chars, strip_spaces, strip_spaces_spec, subvec, trim_chars,
    trim_spec, vec_skip,
};

verus! {

/// State of the statement pass after some prefix of the statements: the
/// messages emitted, the mode (if one was set), the raw rules and classes
/// collected, and the most recent note.
pub struct PState {
    pub messages: Seq<MessageV<TestDraftV>>,
    pub mode: Option<Mode>,
    pub raw_rules: Seq<RawRuleV>,
    pub classes: Seq<ClassV>,
    pub last_note: Option<Seq<char>>,
}

pub open spec fn pstate_init() -> PState {
    PState {
        messages: Seq::<MessageV<TestDraftV>>::empty(),
        mode: None,
        raw_rules: Seq::<RawRuleV>::empty(),
        classes: Seq::<ClassV>::empty(),
        last_note: None,
    }
}

/// A mode statement: fails if a mode is already set; otherwise the first and
/// last of the remaining characters (after leading spaces) must form a
/// recognized bracket pair.
pub open spec fn mode_step(st: PState, rest: Seq<char>, line: usize) -> Result<
    PState,
    (PErr, usize),
> {
    if st.mode is Some {
        Err((PErr::ModeAlreadyDefined, line))
    } else {
        let r2 = rest.skip(leading_spaces(rest));
        if r2.len() < 2 {
            Err((PErr::InvalidModeSpecifier, line))
        } else {
            match mode_of(r2.first(), r2.last()) {
                Some(m) => Ok(PState { mode: Some(m), ..st }),
                None => Err((PErr::InvalidModeSpecifier, line)),
            }
        }
    }
}

/// A class definition: the name is the text before the first `=` (trimmed),
/// which must be a legal identifier and not yet defined; the pattern is the
/// text between the first and second `=`, with spaces stripped, stored
/// wrapped in a non-capturing group so that inlining it into a larger
/// pattern does not shift numbered back-reference indices.
pub open spec fn class_step(st: PState, rest: Seq<char>, line: usize) -> Result<
    PState,
    (PErr, usize),
> {
    let e1 = find_from(rest, 0, '=');
    let name = trim_spec(rest.take(e1));
    if !is_word(name) {
        Err((PErr::InvalidClassName(name), line))
    } else if classes_map(st.classes).contains_key(name) {
        Err((PErr::ClassAlreadyExists(name), line))
    } else if e1 == rest.len() {
        Err((PErr::NoClassPattern(name), line))
    } else {
        let e2 = find_from(rest, e1 + 1, '=');
        let stored = seq!['(', '?', ':'] + trim_spec(strip_spaces_spec(rest.subrange(e1 + 1, e2)))
            + seq![')'];
        Ok(PState { classes: st.classes.push(ClassV { name: name, pattern: stored, line: line }), ..st })
    }
}

/// The test messages for a list of words, all with one intent.
pub open spec fn tests_of(words: Seq<Seq<char>>, intent: bool) -> Seq<MessageV<TestDraftV>> {
    words.map_values(|w: Seq<char>| MessageV::Test(TestDraftV { word: w, intent: intent }))
}

/// A test statement: after leading spaces, `+` or `!` states the intent, and
/// each whitespace-separated word that follows becomes one test message.
pub open spec fn test_step(st: PState, rest: Seq<char>, line: usize) -> Result<
    PState,
    (PErr, usize),
> {
    let r2 = rest.skip(leading_spaces(rest));
    if r2.len() == 0 {
        Err((PErr::InvalidTestIntent, line))
    } else if r2.first() == '+' || r2.first() == '!' {
        Ok(
            PState {
                messages: st.messages + tests_of(split_ws_spec(r2.drop_first()), r2.first() == '+'),
                ..st
            },
        )
    } else {
        Err((PErr::InvalidTestIntent, line))
    }
}

/// A note statement: the trimmed text becomes the most recent note and is
/// emitted as a message, unless it begins with the quiet marker `:`, in
/// which case the text after the marker becomes the most recent note with no
/// message emitted.
pub open spec fn note_step(st: PState, rest: Seq<char>, line: usize) -> Result<
    PState,
    (PErr, usize),
> {
    let note = trim_spec(rest);
    if note.len() == 0 {
        Err((PErr::EmptyNote, line))
    } else if note.first() == ':' {
        Ok(PState { last_note: Some(trim_spec(rest.drop_first())), ..st })
    } else {
        Ok(PState { messages: st.messages.push(MessageV::Info(note)), last_note: Some(note), ..st })
    }
}

/// One statement of the statement pass: dispatch on the first non-space
/// character. Blank statements and comments are dropped; a rule statement
/// collects a raw rule carrying the most recent note.
pub open spec fn parse_step(st: PState, stmt: Seq<char>, line: usize) -> Result<
    PState,
    (PErr, usize),
> {
    let t = trim_spec(stmt);
    if t.len() == 0 {
        Ok(st)
    } else {
        let op = t.first();
        let rest = t.drop_first();
        if op == '#' {
            Ok(st)
        } else if op == '~' {
            mode_step(st, rest, line)
        } else if op == '$' {
            class_step(st, rest, line)
        } else if op == '+' || op == '!' {
            Ok(
                PState {
                    raw_rules: st.raw_rules.push(
                        RawRuleV {
                            intent: op == '+',
                            pattern: strip_spaces_spec(rest),
                            note: st.last_note,
                            line: line,
                        },
                    ),
                    ..st
                },
            )
        } else if op == '?' {
            test_step(st, rest, line)
        } else if op == '*' {
            note_step(st, rest, line)
        } else {
            Err((PErr::UnknownStatementOperator(op), line))
        }
    }
}

/// The statement pass over a statement list, stopping at the first error.
pub open spec fn parse_fold(stmts: Seq<(Seq<char>, usize)>) -> Result<PState, (PErr, usize)>
    decreases stmts.len(),
{
    if stmts.len() == 0 {
        Ok(pstate_init())
    } else {
        match parse_fold(stmts.drop_last()) {
            Err(e) => Err(e),
            Ok(st) => parse_step(st, stmts.last().0, stmts.last().1),
        }
    }
}

proof fn lemma_parse_fold_err(stmts: Seq<(Seq<char>, usize)>, k: int)
    requires
        0 <= k <= stmts.len(),
        parse_fold(stmts.take(k)) is Err,
    ensures
        parse_fold(stmts) == parse_fold(stmts.take(k)),
    decreases stmts.len() - k,
{
    if k < stmts.len() {
        assert(stmts.take(k + 1).drop_last() =~= stmts.take(k));
        lemma_parse_fold_err(stmts, k + 1);
    } else {
        assert(stmts.take(k) =~= stmts);
    }
}

/// The compile pass: each raw rule's pattern has classes substituted and is
/// compiled, in declaration order, stopping at the first failure, which is
/// reported at the rule's own line.
pub open spec fn compile_rules_spec(rules: Seq<RawRuleV>, classes: Seq<ClassV>) -> Result<
    Seq<RuleV>,
    (PErr, usize),
>
    decreases rules.len(),
{
    if rules.len() == 0 {
        Ok(Seq::<RuleV>::empty())
    } else {
        match compile_rules_spec(rules.drop_last(), classes) {
            Err(e) => Err(e),
            Ok(rs) => {
                let rr = rules.last();
                match subst_spec(rr.pattern, classes, fuel_for(classes)) {
                    Err(pe) => Err((pe, rr.line)),
                    Ok(src) => if regex_new_ok(src) {
                        Ok(rs.push(RuleV { source: src, intent: rr.intent, note: rr.note }))
                    } else {
                        Err((PErr::RegexParseFail, rr.line))
                    },
                }
            },
        }
    }
}

/// What parsing a whole source file yields: the statement pass over its
/// statements, then the compile pass; the mode defaults to `Romanized`, and
/// the test count is the number of test messages.
pub open spec fn parse_spec(file: Seq<char>) -> Result<DraftV, (PErr, usize)> {
    match parse_fold(split_spec(file)) {
        Err(e) => Err(e),
        Ok(st) => match compile_rules_spec(st.raw_rules, st.classes) {
            Err(e) => Err(e),
            Ok(rules) => Ok(
                DraftV {
                    rules: rules,
                    messages: st.messages,
                    mode: match st.mode {
                        Some(m) => m,
                        None => Mode::Romanized,
                    },
                    test_count: count_tests(st.messages),
                    raw_rules: st.raw_rules,
                    raw_classes: st.classes,
                },
            ),
        },
    }
}

/// Substitutes class references into a rule pattern and compiles it,
/// reporting substitution errors and engine rejections at `line`.
pub fn parse_regex(pattern: &str, classes: &Vec<ClassDef>, line: usize) -> (r: Result<
    fancy_regex::Regex,
    Error,
>)
    ensures
        r matches Ok(re) ==> (subst_spec(
            pattern@,
            classes_view(classes@),
            fuel_for(classes_view(classes@)),
        ) matches Ok(src) && regex_new_ok(src) && regex_source(re) == src),
        r matches Err(e) ==> match subst_spec(
            pattern@,
            classes_view(classes@),
            fuel_for(classes_view(classes@)),
        ) {
            Err(pe) => e@ == ErrV::Parse(pe, line),
            Ok(src) => !regex_new_ok(src) && e@ == ErrV::Parse(PErr::RegexParseFail, line),
        },
{
    match replace_classes(pattern, classes, line) {
        Err(e) => Err(e),
        Ok(src) => match regex_new(src.as_str()) {
            Ok(re) => Ok(re),
            Err(en) => Err(Error::Parse(ParseError::RegexParseFail(en), line)),
        },
    }
}

/// Compiles every raw rule against the class table, in declaration order,
/// stopping at the first failure.
pub fn parse_rules(rules: &Vec<RawRule>, classes: &Vec<ClassDef>) -> (r: Result<Vec<Rule>, Error>)
    ensures
        r matches Ok(v) ==> compile_rules_spec(raw_rules_view(rules@), classes_view(classes@))
            == Ok::<Seq<RuleV>, (PErr, usize)>(rules_view(v@)),
        r matches Err(e) ==> (compile_rules_spec(raw_rules_view(rules@), classes_view(classes@))
            matches Err(pe) && e@ == ErrV::Parse(pe.0, pe.1)),
{
    let ghost rv = raw_rules_view(rules@);
    let mut new: Vec<Rule> = Vec::new();
    let mut i: usize = 0;
    proof {
        assert(rv.take(0) =~= Seq::<RawRuleV>::empty());
        assert(rules_view(new@) =~= Seq::<RuleV>::empty());
    }
    while i < rules.len()
        invariant
            0 <= i <= rules@.len(),
            rv == raw_rules_view(rules@),
            compile_rules_spec(rv.take(i as int), classes_view(classes@)) == Ok::<
                Seq<RuleV>,
                (PErr, usize),
            >(rules_view(new@)),
        decreases rules@.len() - i,
    {
        proof {
            assert(rv.take(i + 1).drop_last() =~= rv.take(i as int));
            assert(rv.take(i + 1).last() == rules@[i as int]@);
        }
        match parse_regex(rules[i].pattern.as_str(), classes, rules[i].line) {
            Err(e) => {
                proof {
                    assert(compile_rules_spec(rv.take(i + 1), classes_view(classes@)) is Err);
                    lemma_compile_err(rv, classes_view(classes@), i + 1);
                    assert(rv.take(rv.len() as int) =~= rv);
                }
                return Err(e);
            },
            Ok(re) => {
                let ghost pre = rules_view(new@);
                new.push(
                    Rule {
                        pattern: re,
                        intent: rules[i].intent,
                        note: crate::draft::clone_note(&rules[i].note),
                    },
                );
                proof {
                    assert(rules_view(new@) =~= pre.push(
                        RuleV {
                            source: regex_source(re),
                            intent: rules@[i as int].intent,
                            note: note_view(rules@[i as int].note),
                        },
                    ));
                }
            },
        }
        i = i + 1;
    }
    proof {
        assert(rv.take(rules@.len() as int) =~= rv);
    }
    Ok(new)
}

proof fn lemma_compile_err(rules: Seq<RawRuleV>, classes: Seq<ClassV>, k: int)
    requires
        0 <= k <= rules.len(),
        compile_rules_spec(rules.take(k), classes) is Err,
    ensures
        compile_rules_spec(rules, classes) == compile_rules_spec(rules.take(k), classes),
    decreases rules.len() - k,
{
    if k < rules.len() {
        assert(rules.take(k + 1).drop_last() =~= rules.take(k));
        lemma_compile_err(rules, classes, k + 1);
    } else {
        assert(rules.take(k) =~= rules);
    }
}

/// The number of test messages in a list.
pub fn count_test_messages(messages: &Vec<Message<TestDraft>>) -> (r: usize)
    ensures
        r as int == count_tests(msgs_view(messages@)),
{
    let mut c: usize = 0;
    let mut k: usize = 0;
    proof {
        assert(msgs_view(messages@).take(0) =~= Seq::<MessageV<TestDraftV>>::empty());
    }
    while k < messages.len()
        invariant
            0 <= k <= messages@.len(),
            c <= k,
            c as int == count_tests(msgs_view(messages@).take(k as int)),
        decreases messages@.len() - k,
    {
        proof {
            assert(msgs_view(messages@).take(k + 1).drop_last() =~= msgs_view(messages@).take(
                k as int,
            ));
            assert(msgs_view(messages@).take(k + 1).last() == messages@[k as int]@);
        }
        if messages[k].is_test() {
            c = c + 1;
        }
        k = k + 1;
    }
    proof {
        assert(msgs_view(messages@).take(messages@.len() as int) =~= msgs_view(messages@));
    }
    c
}

impl Draft {
    /// Parses a whole source file into a `Draft`, or reports the first error
    /// with the line it arose on.
    pub fn from(file: &str) -> (r: Result<Draft, Error>)
        ensures
            r matches Ok(d) ==> parse_spec(file@) == Ok::<DraftV, (PErr, usize)>(d@),
            r matches Err(e) ==> (parse_spec(file@) matches Err(pe) && e@ == ErrV::Parse(
                pe.0,
                pe.1,
            )),
    {
        let statements = split_statements(file);
        let ghost sv = split_spec(file@);
        let mut messages: Vec<Message<TestDraft>> = Vec::new();
        let mut mode: Option<Mode> = None;
        let mut raw_rules: Vec<RawRule> = Vec::new();
        let mut raw_classes: Vec<ClassDef> = Vec::new();
        let mut last_note: Option<Note> = None;
        let mut i: usize = 0;
        proof {
            assert(sv.take(0) =~= Seq::<(Seq<char>, usize)>::empty());
            assert(msgs_view(messages@) =~= pstate_init().messages);
            assert(raw_rules_view(raw_rules@) =~= pstate_init().raw_rules);
            assert(classes_view(raw_classes@) =~= pstate_init().classes);
        }
        while i < statements.len()
            invariant
                0 <= i <= statements@.len(),
                sv == split_spec(file@),
                stmts_view(statements@) == sv,
                parse_fold(sv.take(i as int)) matches Ok(st) && st.messages == msgs_view(
                    messages@,
                ) && st.mode == mode && st.raw_rules == raw_rules_view(raw_rules@) && st.classes
                    == classes_view(raw_classes@) && st.last_note == note_view(last_note),
            decreases statements@.len() - i,
        {
            proof {
                assert(sv.take(i + 1).drop_last() =~= sv.take(i as int));
                assert(sv.take(i + 1).last() == sv[i as int]);
                assert(sv[i as int] == (statements@[i as int].0@, statements@[i as int].1));
            }
            let line = statements[i].1;
            let stmt_chars = chars_of(statements[i].0.as_str());
            let t = trim_chars(&stmt_chars);
            if t.len() > 0 {
                let op = t[0];
                let rest = vec_skip(&t, 1);
                proof {
                    assert(t@.skip(1) =~= t@.drop_first());
                    assert(op == t@.first());
                }
                if op == '#' {
                    // comment: statement discarded
                } else if op == '~' {
                    if mode.is_some() {
                        proof {
                            lemma_parse_fold_err(sv, i + 1);
                            assert(sv.take(sv.len() as int) =~= sv);
                        }
                        return Err(Error::Parse(ParseError::ModeAlreadyDefined, line));
                    }
                    let a = skip_spaces(&rest);
                    let ghost r2 = rest@.skip(leading_spaces(rest@));
                    proof {
                        assert(r2.len() == rest@.len() - a);
                    }
                    if rest.len() - a < 2 {
                        proof {
                            lemma_parse_fold_err(sv, i + 1);
                            assert(sv.take(sv.len() as int) =~= sv);
                        }
                        return Err(Error::Parse(ParseError::InvalidModeSpecifier, line));
                    }
                    proof {
                        assert(r2.first() == rest@[a as int]);
                        assert(r2.last() == rest@[rest@.len() - 1]);
                    }
                    match Mode::from(rest[a], rest[rest.len() - 1]) {
                        Some(md) => {
                            mode = Some(md);
                        },
                        None => {
                            proof {
                                lemma_parse_fold_err(sv, i + 1);
                                assert(sv.take(sv.len() as int) =~= sv);
                            }
                            return Err(Error::Parse(ParseError::InvalidModeSpecifier, line));
                        },
                    }
                } else if op == '$' {
                    let e1 = find_char(&rest, 0, '=');
                    let name_chars = subvec(&rest, 0, e1);
                    proof {
                        assert(rest@.subrange(0, e1 as int) =~= rest@.take(e1 as int));
                    }
                    let name_trimmed = trim_chars(&name_chars);
                    let name_s = string_from_chars(&name_trimmed);
                    if !is_word_str(name_s.as_str()) {
                        proof {
                            lemma_parse_fold_err(sv, i + 1);
                            assert(sv.take(sv.len() as int) =~= sv);
                        }
                        return Err(Error::Parse(ParseError::InvalidClassName(name_s), line));
                    }
                    if lookup_class(&raw_classes, &name_s).is_some() {
                        proof {
                            lemma_parse_fold_err(sv, i + 1);
                            assert(sv.take(sv.len() as int) =~= sv);
                        }
                        return Err(Error::Parse(ParseError::ClassAlreadyExists(name_s), line));
                    }
                    if e1 == rest.len() {
                        proof {
                            lemma_parse_fold_err(sv, i + 1);
                            assert(sv.take(sv.len() as int) =~= sv);
                        }
                        return Err(Error::Parse(ParseError::NoClassPattern(name_s), line));
                    }
                    let e2 = find_char(&rest, e1 + 1, '=');
                    let seg = subvec(&rest, e1 + 1, e2);
                    let stripped = strip_spaces(&seg);
                    let pat = trim_chars(&stripped);
                    let mut stored: Vec<char> = Vec::new();
                    stored.push('(');
                    stored.push('?');
                    stored.push(':');
                    extend_chars(&mut stored, &pat);
                    stored.push(')');
                    proof {
                        assert(stored@ =~= seq!['(', '?', ':'] + pat@ + seq![')']);
                    }
                    let ghost pre_classes = classes_view(raw_classes@);
                    let stored_s = string_from_chars(&stored);
                    raw_classes.push(ClassDef { name: name_s, pattern: stored_s, line: line });
                    proof {
                        assert(classes_view(raw_classes@) =~= pre_classes.push(
                            ClassV {
                                name: trim_spec(rest@.take(e1 as int)),
                                pattern: stored@,
                                line: line,
                            },
                        ));
                    }
                } else if op == '+' || op == '!' {
                    let intent = op == '+';
                    let pat = strip_spaces(&rest);
                    let note = crate::draft::clone_note(&last_note);
                    let ghost pre_rules = raw_rules_view(raw_rules@);
                    let pat_s = string_from_chars(&pat);
                    raw_rules.push(
                        RawRule { intent: intent, pattern: pat_s, note: note, line: line },
                    );
                    proof {
                        assert(raw_rules_view(raw_rules@) =~= pre_rules.push(
                            RawRuleV {
                                intent: intent,
                                pattern: strip_spaces_spec(rest@),
                                note: note_view(last_note),
                                line: line,
                            },
                        ));
                    }
                } else if op == '?' {
                    let a = skip_spaces(&rest);
                    let ghost r2 = rest@.skip(leading_spaces(rest@));
                    proof {
                        assert(r2.len() == rest@.len() - a);
                    }
                    if a == rest.len() {
                        proof {
                            lemma_parse_fold_err(sv, i + 1);
                            assert(sv.take(sv.len() as int) =~= sv);
                        }
                        return Err(Error::Parse(ParseError::InvalidTestIntent, line));
                    }
                    proof {
                        assert(r2.first() == rest@[a as int]);
                    }
                    let ic = rest[a];
                    if ic != '+' && ic != '!' {
                        proof {
                            lemma_parse_fold_err(sv, i + 1);
                            assert(sv.take(sv.len() as int) =~= sv);
                        }
                        return Err(Error::Parse(ParseError::InvalidTestIntent, line));
                    }
                    let intent = ic == '+';
                    let tail = subvec(&rest, a + 1, rest.len());
                    proof {
                        assert(tail@ =~= r2.drop_first());
                    }
                    let words = split_ws(&tail);
                    let ghost wv = split_ws_spec(tail@);
                    let ghost pre_msgs = msgs_view(messages@);
                    let mut k: usize = 0;
                    proof {
                        assert(pre_msgs + tests_of(wv.take(0), intent) =~= pre_msgs);
                    }
                    while k < words.len()
                        invariant
                            0 <= k <= words@.len(),
                            words@.map_values(|w: String| w@) == wv,
                            msgs_view(messages@) == pre_msgs + tests_of(wv.take(k as int), intent),
                        decreases words@.len() - k,
                    {
                        let ghost cur = msgs_view(messages@);
                        let w = words[k].clone();
                        messages.push(Message::Test(TestDraft { word: w, intent: intent }));
                        proof {
                            assert(msgs_view(messages@) =~= cur.push(
                                MessageV::Test(TestDraftV { word: wv[k as int], intent: intent }),
                            ));
                            assert(msgs_view(messages@) =~= pre_msgs + tests_of(
                                wv.take(k + 1),
                                intent,
                            ));
                        }
                        k = k + 1;
                    }
                    proof {
                        assert(wv.take(words@.len() as int) =~= wv);
                    }
                } else if op == '*' {
                    let note_t = trim_chars(&rest);
                    if note_t.len() == 0 {
                        proof {
                            lemma_parse_fold_err(sv, i + 1);
                            assert(sv.take(sv.len() as int) =~= sv);
                        }
                        return Err(Error::Parse(ParseError::EmptyNote, line));
                    }
                    if note_t[0] == ':' {
                        let dropped = vec_skip(&rest, 1);
                        let q = trim_chars(&dropped);
                        proof {
                            assert(rest@.skip(1) =~= rest@.drop_first());
                        }
                        last_note = Some(Note(string_from_chars(&q)));
                    } else {
                        let n_s = string_from_chars(&note_t);
                        let ghost pre_msgs = msgs_view(messages@);
                        let note_for_msg = Note(n_s.clone());
                        messages.push(Message::Info(note_for_msg));
                        proof {
                            assert(msgs_view(messages@) =~= pre_msgs.push(
                                MessageV::Info(trim_spec(rest@)),
                            ));
                        }
                        last_note = Some(Note(n_s));
                    }
                } else {
                    proof {
                        lemma_parse_fold_err(sv, i + 1);
                        assert(sv.take(sv.len() as int) =~= sv);
                    }
                    return Err(Error::Parse(ParseError::UnknownStatementOperator(op), line));
                }
            }
            i = i + 1;
            proof {
                assert(parse_fold(sv.take(i as int)) matches Ok(st2) && st2.messages =~~=
                msgs_view(messages@) && st2.mode == mode && st2.raw_rules =~~= raw_rules_view(
                    raw_rules@,
                ) && st2.classes =~~= classes_view(raw_classes@) && st2.last_note =~~= note_view(
                    last_note,
                ));
            }
        }
        proof {
            assert(sv.take(statements@.len() as int) =~= sv);
        }
        let test_count = count_test_messages(&messages);
        let final_mode = match mode {
            Some(m) => m,
            None => Mode::Romanized,
        };
        match parse_rules(&raw_rules, &raw_classes) {
            Err(e) => Err(e),
            Ok(rules) => {
                let d = Draft {
                    rules: rules,
                    messages: messages,
                    mode: final_mode,
                    test_count: test_count,
                    raw_rules: raw_rules,
                    raw_classes: raw_classes,
                };
                proof {
                    assert(parse_spec(file@) matches Ok(dv) && dv.rules =~~= d@.rules
                        && dv.messages =~~= d@.messages && dv.mode == d@.mode && dv.test_count
                        == d@.test_count && dv.raw_rules =~~= d@.raw_rules && dv.raw_classes =~~=
                    d@.raw_classes);
                }
                Ok(d)
            },
        }
    }
}

} // verus!
