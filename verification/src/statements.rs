//! The statement splitter: turns raw source text into a sequence of logical
//! statements with their line numbers. Statements are separated by newline or
//! semicolon; a `&` marker suppresses both separators until the next
//! semicolon or the end of input, joining several physical lines into one
//! statement (interior line breaks removed). A `&` seen while already joining
//! is kept as literal text. Statements that are blank after trimming are
//! dropped (the text of a kept statement is not trimmed). A joined
//! statement carries the line the marker appeared on; a single-line statement
//! carries the line it ends on.

use vstd::prelude::*;

use crate::text::{chars_of, sat_inc, string_from_chars, trim_chars, trim_spec};

verus! {

/// State of the splitter after some prefix of the input: the statements
/// emitted so far, the statement text being built, the line the current join
/// began on (if one is active), and the current line number.
pub struct SplitState {
    pub stmts: Seq<(Seq<char>, usize)>,
    pub build: Seq<char>,
    pub multi: Option<usize>,
    pub line: usize,
}

/// `st.stmts` with `st.build` appended as a statement at line `ln`, unless
/// the build is blank after trimming.
pub open spec fn flush(stmts: Seq<(Seq<char>, usize)>, build: Seq<char>, ln: usize) -> Seq<
    (Seq<char>, usize),
> {
    if trim_spec(build).len() > 0 {
        stmts.push((build, ln))
    } else {
        stmts
    }
}

/// One splitter step, for one character of input.
pub open spec fn split_step(st: SplitState, c: char) -> SplitState {
    if c == '\n' && st.multi is None {
        SplitState {
            stmts: flush(st.stmts, st.build, st.line),
            build: Seq::<char>::empty(),
            multi: None,
            line: sat_inc(st.line),
        }
    } else if c == '\n' {
        SplitState { line: sat_inc(st.line), ..st }
    } else if c == ';' && st.multi is None {
        SplitState { stmts: flush(st.stmts, st.build, st.line), build: Seq::<char>::empty(), ..st }
    } else if c == ';' {
        SplitState {
            stmts: flush(st.stmts, st.build, st.multi->0),
            build: Seq::<char>::empty(),
            multi: None,
            ..st
        }
    } else if c == '&' && st.multi is None {
        SplitState { multi: Some(st.line), ..st }
    } else {
        SplitState { build: st.build.push(c), ..st }
    }
}

pub open spec fn split_init() -> SplitState {
    SplitState { stmts: Seq::<(Seq<char>, usize)>::empty(), build: Seq::<char>::empty(), multi: None, line: 1 }
}

pub open spec fn split_fold(cs: Seq<char>) -> SplitState
    decreases cs.len(),
{
    if cs.len() == 0 {
        split_init()
    } else {
        split_step(split_fold(cs.drop_last()), cs.last())
    }
}

/// The statements of a whole source text: the fold over its characters, with
/// any unterminated statement flushed at the line it belongs to.
pub open spec fn split_spec(cs: Seq<char>) -> Seq<(Seq<char>, usize)> {
    let st = split_fold(cs);
    let ln = match st.multi {
        Option::None => st.line,
        Option::Some(n) => n,
    };
    flush(st.stmts, st.build, ln)
}

/// The view of a built statement list.
pub open spec fn stmts_view(v: Seq<(String, usize)>) -> Seq<(Seq<char>, usize)> {
    v.map_values(|p: (String, usize)| (p.0@, p.1))
}

/// Splits a source file into its logical statements, each with the line
/// number it belongs to.
pub fn split_statements(file: &str) -> (r: Vec<(String, usize)>)
    ensures
        stmts_view(r@) == split_spec(file@),
{
    let cs = chars_of(file);
    let n = cs.len();
    let mut out: Vec<(String, usize)> = Vec::new();
    let mut build: Vec<char> = Vec::new();
    let mut multi: Option<usize> = None;
    let mut line: usize = 1;
    let mut i: usize = 0;
    while i < n
        invariant
            0 <= i <= n,
            n == cs@.len(),
            cs@ == file@,
            split_fold(file@.take(i as int)).stmts =~~= stmts_view(out@),
            split_fold(file@.take(i as int)).build =~= build@,
            split_fold(file@.take(i as int)).multi == multi,
            split_fold(file@.take(i as int)).line == line,
        decreases n - i,
    {
        proof {
            assert(file@.take(i + 1).drop_last() =~= file@.take(i as int));
            assert(file@.take(i + 1).last() == file@[i as int]);
        }
        let c = cs[i];
        let ghost pre = stmts_view(out@);
        if c == '\n' && multi.is_none() {
            let trimmed = trim_chars(&build);
            if trimmed.len() > 0 {
                let s = string_from_chars(&build);
                out.push((s, line));
                proof {
                    assert(stmts_view(out@) =~= pre.push((s@, line)));
                }
            }
            build = Vec::new();
            if line < usize::MAX {
                line = line + 1;
            }
        } else if c == '\n' {
            if line < usize::MAX {
                line = line + 1;
            }
        } else if c == ';' && multi.is_none() {
            let trimmed = trim_chars(&build);
            if trimmed.len() > 0 {
                let s = string_from_chars(&build);
                out.push((s, line));
                proof {
                    assert(stmts_view(out@) =~= pre.push((s@, line)));
                }
            }
            build = Vec::new();
        } else if c == ';' {
            let ln = match multi {
                Some(x) => x,
                None => line,
            };
            let trimmed = trim_chars(&build);
            if trimmed.len() > 0 {
                let s = string_from_chars(&build);
                out.push((s, ln));
                proof {
                    assert(stmts_view(out@) =~= pre.push((s@, ln)));
                }
            }
            build = Vec::new();
            multi = None;
        } else if c == '&' && multi.is_none() {
            multi = Some(line);
        } else {
            build.push(c);
        }
        i = i + 1;
        proof {
            assert(split_fold(file@.take(i as int)).stmts =~~= stmts_view(out@));
            assert(split_fold(file@.take(i as int)).build =~= build@);
        }
    }
    proof {
        assert(file@.take(n as int) =~= file@);
    }
    let ln = match multi {
        Some(x) => x,
        None => line,
    };
    let trimmed = trim_chars(&build);
    if trimmed.len() > 0 {
        let s = string_from_chars(&build);
        let ghost pre = stmts_view(out@);
        out.push((s, ln));
        proof {
            assert(stmts_view(out@) =~= pre.push((s@, ln)));
        }
    }
    proof {
        assert(stmts_view(out@) =~~= split_spec(file@));
    }
    out
}

/// The statements of a text with one statement per physical line: the fold
/// over its characters where only newlines separate.
pub open spec fn lines_fold(cs: Seq<char>) -> SplitState
    decreases cs.len(),
{
    if cs.len() == 0 {
        split_init()
    } else {
        let st = lines_fold(cs.drop_last());
        let c = cs.last();
        if c == '\n' {
            SplitState {
                stmts: flush(st.stmts, st.build, st.line),
                build: Seq::<char>::empty(),
                multi: None,
                line: sat_inc(st.line),
            }
        } else {
            SplitState { build: st.build.push(c), ..st }
        }
    }
}

/// One entry per physical line that is not blank, each carrying its line
/// number and the line's untrimmed text.
pub open spec fn lines_spec(cs: Seq<char>) -> Seq<(Seq<char>, usize)> {
    let st = lines_fold(cs);
    flush(st.stmts, st.build, st.line)
}

proof fn lemma_fold_lines(cs: Seq<char>)
    requires
        forall|k: int| 0 <= k < cs.len() ==> cs[k] != '&' && cs[k] != ';',
    ensures
        split_fold(cs).stmts =~~= lines_fold(cs).stmts,
        split_fold(cs).build =~= lines_fold(cs).build,
        split_fold(cs).multi is None,
        split_fold(cs).line == lines_fold(cs).line,
    decreases cs.len(),
{
    if cs.len() > 0 {
        lemma_fold_lines(cs.drop_last());
        assert(cs.last() == cs[cs.len() - 1]);
    }
}

/// For source texts with no continuation marker and no semicolon, the
/// splitter returns one entry per physical line that is not blank after
/// trimming, and each entry carries the number of the line it came from.
pub proof fn lemma_split_one_statement_per_line(cs: Seq<char>)
    requires
        forall|k: int| 0 <= k < cs.len() ==> cs[k] != '&' && cs[k] != ';',
    ensures
        split_spec(cs) == lines_spec(cs),
        split_fold(cs).multi is None,
{
    lemma_fold_lines(cs);
    assert(split_spec(cs) =~~= lines_spec(cs));
}

/// The splitter's fold, started from a given state.
pub open spec fn split_fold_from(st: SplitState, cs: Seq<char>) -> SplitState
    decreases cs.len(),
{
    if cs.len() == 0 {
        st
    } else {
        split_step(split_fold_from(st, cs.drop_last()), cs.last())
    }
}

proof fn lemma_split_fold_concat(a: Seq<char>, b: Seq<char>)
    ensures
        split_fold(a + b) == split_fold_from(split_fold(a), b),
    decreases b.len(),
{
    if b.len() == 0 {
        assert(a + b =~= a);
    } else {
        lemma_split_fold_concat(a, b.drop_last());
        assert((a + b).drop_last() =~= a + b.drop_last());
        assert((a + b).last() == b.last());
    }
}

/// `s` with every line break removed.
pub open spec fn drop_newlines(s: Seq<char>) -> Seq<char>
    decreases s.len(),
{
    if s.len() == 0 {
        Seq::<char>::empty()
    } else if s.last() == '\n' {
        drop_newlines(s.drop_last())
    } else {
        drop_newlines(s.drop_last()).push(s.last())
    }
}

proof fn lemma_fold_plain_text(st: SplitState, cs: Seq<char>)
    requires
        forall|k: int| 0 <= k < cs.len() ==> cs[k] != '&' && cs[k] != ';' && cs[k] != '\n',
    ensures
        split_fold_from(st, cs) == (SplitState { build: st.build + cs, ..st }),
    decreases cs.len(),
{
    if cs.len() == 0 {
        assert(st.build + cs =~= st.build);
        assert(split_fold_from(st, cs) == st);
        assert((SplitState { build: st.build + cs, ..st }) == st);
    } else {
        lemma_fold_plain_text(st, cs.drop_last());
        assert(cs.last() == cs[cs.len() - 1]);
        assert((st.build + cs.drop_last()).push(cs.last()) =~= st.build + cs);
    }
}

proof fn lemma_fold_joined_text(st: SplitState, cs: Seq<char>)
    requires
        st.multi is Some,
        forall|k: int| 0 <= k < cs.len() ==> cs[k] != '&' && cs[k] != ';',
    ensures
        split_fold_from(st, cs).stmts == st.stmts,
        split_fold_from(st, cs).build == st.build + drop_newlines(cs),
        split_fold_from(st, cs).multi == st.multi,
    decreases cs.len(),
{
    if cs.len() == 0 {
        assert(st.build + drop_newlines(cs) =~= st.build);
    } else {
        lemma_fold_joined_text(st, cs.drop_last());
        assert(cs.last() == cs[cs.len() - 1]);
        if cs.last() != '\n' {
            assert((st.build + drop_newlines(cs.drop_last())).push(cs.last()) =~= st.build
                + drop_newlines(cs));
        }
    }
}

/// A statement begun with the continuation marker and terminated by a
/// semicolon collapses its interior line breaks: for a single-statement text
/// `s & t ;` on the first line, where `s` holds no separator or marker and
/// `t` holds no semicolon or marker, the splitter yields the one statement
/// `s` followed by `t` without its line breaks, at line 1.
pub proof fn lemma_continuation_collapses_line_breaks(s: Seq<char>, t: Seq<char>)
    requires
        forall|k: int| 0 <= k < s.len() ==> s[k] != '&' && s[k] != ';' && s[k] != '\n',
        forall|k: int| 0 <= k < t.len() ==> t[k] != '&' && t[k] != ';',
        trim_spec(s + drop_newlines(t)).len() > 0,
    ensures
        split_spec(s + seq!['&'] + t + seq![';']) == seq![(s + drop_newlines(t), 1usize)],
{
    let a = s + seq!['&'];
    let b = a + t;
    lemma_split_fold_concat(s, seq!['&']);
    lemma_fold_plain_text(split_init(), s);
    assert(split_fold(s + Seq::<char>::empty()) == split_fold_from(split_fold(s), Seq::<char>::empty()));
    assert(split_fold(s) == (SplitState {
        stmts: Seq::<(Seq<char>, usize)>::empty(),
        build: Seq::<char>::empty() + s,
        multi: None,
        line: 1,
    })) by {
        lemma_split_fold_concat(Seq::<char>::empty(), s);
        assert(Seq::<char>::empty() + s =~= s);
    }
    let st1 = split_fold(a);
    assert(seq!['&'].drop_last() =~= Seq::<char>::empty());
    assert(seq!['&'].last() == '&');
    assert(split_fold_from(split_fold(s), seq!['&']) == split_step(split_fold(s), '&'));
    assert(st1.multi == Some(1usize));
    assert(st1.build == Seq::<char>::empty() + s);
    lemma_split_fold_concat(a, t);
    lemma_fold_joined_text(st1, t);
    let st2 = split_fold(b);
    assert(st2.build == (Seq::<char>::empty() + s) + drop_newlines(t));
    lemma_split_fold_concat(b, seq![';']);
    assert(seq![';'].drop_last() =~= Seq::<char>::empty());
    assert(seq![';'].last() == ';');
    let mid = split_fold_from(st2, seq![';'].drop_last());
    assert(mid == st2);
    assert(split_fold_from(st2, seq![';']) == split_step(mid, ';'));
    let st3 = split_fold(b + seq![';']);
    assert((Seq::<char>::empty() + s) + drop_newlines(t) =~= s + drop_newlines(t));
    assert(st3.stmts =~= seq![(s + drop_newlines(t), 1usize)]);
    assert(s + seq!['&'] + t + seq![';'] =~= b + seq![';']);
    assert(split_spec(b + seq![';']) =~= seq![(s + drop_newlines(t), 1usize)]);
}

} // verus!
