//! The compact one-line form of a draft: the mode marker, then each rule
//! with its intent prefix and classes fully substituted, joined by
//! semicolons; optionally followed by the positive and negative test words.

use vstd::prelude::*;
use vstd::string::*;

use crate::draft::{
    mode_str, msgs_view, raw_rules_view, Draft, Message, MessageV, Mode, RawRule, RawRuleV,
    TestDraft, TestDraftV,
};
use crate::error::{ErrV, Error, PErr};
use crate::substitute::{classes_view, fuel_for, replace_classes, subst_spec, ClassDef, ClassV};
use crate::text::{chars_of, extend_chars, string_from_chars};

verus! {

/// `parts` joined by `sep`.
pub open spec fn join_with(parts: Seq<Seq<char>>, sep: Seq<char>) -> Seq<char>
    decreases parts.len(),
{
    if parts.len() == 0 {
        Seq::<char>::empty()
    } else if parts.len() == 1 {
        parts[0]
    } else {
        join_with(parts.drop_last(), sep) + sep + parts.last()
    }
}

/// The view of a string list.
pub open spec fn strs_view(v: Seq<String>) -> Seq<Seq<char>> {
    v.map_values(|s: String| s@)
}

/// Joins strings with a one-character separator.
fn join_strings(parts: &Vec<String>, sep: char) -> (r: Vec<char>)
    ensures
        r@ == join_with(strs_view(parts@), seq![sep]),
{
    let ghost pv = strs_view(parts@);
    let mut out: Vec<char> = Vec::new();
    let mut k: usize = 0;
    proof {
        assert(pv.take(0) =~= Seq::<Seq<char>>::empty());
        assert(out@ =~= join_with(pv.take(0), seq![sep]));
    }
    while k < parts.len()
        invariant
            0 <= k <= parts@.len(),
            pv == strs_view(parts@),
            out@ == join_with(pv.take(k as int), seq![sep]),
        decreases parts@.len() - k,
    {
        proof {
            assert(pv.take(k + 1).drop_last() =~= pv.take(k as int));
            assert(pv.take(k + 1).last() == parts@[k as int]@);
        }
        if k > 0 {
            out.push(sep);
        }
        let cs = chars_of(parts[k].as_str());
        extend_chars(&mut out, &cs);
        proof {
            if k == 0 {
                assert(out@ =~= join_with(pv.take(1), seq![sep]));
            } else {
                assert(out@ =~= join_with(pv.take(k + 1), seq![sep]));
            }
        }
        k = k + 1;
    }
    proof {
        assert(pv.take(parts@.len() as int) =~= pv);
    }
    out
}

/// The test words of a message list, split into those expected invalid
/// (positive intent) and those expected valid, in order.
pub open spec fn tests_split(msgs: Seq<MessageV<TestDraftV>>) -> (Seq<Seq<char>>, Seq<Seq<char>>)
    decreases msgs.len(),
{
    if msgs.len() == 0 {
        (Seq::<Seq<char>>::empty(), Seq::<Seq<char>>::empty())
    } else {
        let p = tests_split(msgs.drop_last());
        match msgs.last() {
            MessageV::Test(t) => if t.intent {
                (p.0.push(t.word), p.1)
            } else {
                (p.0, p.1.push(t.word))
            },
            MessageV::Info(_) => p,
        }
    }
}

/// Splits the test words of a message list by intent.
pub fn minify_tests(messages: &Vec<Message<TestDraft>>) -> (r: (Vec<String>, Vec<String>))
    ensures
        strs_view(r.0@) == tests_split(msgs_view(messages@)).0,
        strs_view(r.1@) == tests_split(msgs_view(messages@)).1,
{
    let ghost mv = msgs_view(messages@);
    let mut positive: Vec<String> = Vec::new();
    let mut negative: Vec<String> = Vec::new();
    let mut k: usize = 0;
    proof {
        assert(mv.take(0) =~= Seq::<MessageV<TestDraftV>>::empty());
        assert(strs_view(positive@) =~= tests_split(mv.take(0)).0);
        assert(strs_view(negative@) =~= tests_split(mv.take(0)).1);
    }
    while k < messages.len()
        invariant
            0 <= k <= messages@.len(),
            mv == msgs_view(messages@),
            strs_view(positive@) == tests_split(mv.take(k as int)).0,
            strs_view(negative@) == tests_split(mv.take(k as int)).1,
        decreases messages@.len() - k,
    {
        proof {
            assert(mv.take(k + 1).drop_last() =~= mv.take(k as int));
            assert(mv.take(k + 1).last() == messages@[k as int]@);
        }
        let ghost p0 = strs_view(positive@);
        let ghost p1 = strs_view(negative@);
        match &messages[k] {
            Message::Test(t) => {
                if t.intent {
                    positive.push(t.word.clone());
                    proof {
                        assert(strs_view(positive@) =~= p0.push(t.word@));
                    }
                } else {
                    negative.push(t.word.clone());
                    proof {
                        assert(strs_view(negative@) =~= p1.push(t.word@));
                    }
                }
            },
            Message::Info(_) => {},
        }
        k = k + 1;
    }
    proof {
        assert(mv.take(messages@.len() as int) =~= mv);
    }
    (positive, negative)
}

/// Each raw rule as compact text: its intent prefix, then its pattern with
/// every class substituted; stopping at the first substitution failure.
pub open spec fn minify_rules_spec(rules: Seq<RawRuleV>, classes: Seq<ClassV>) -> Result<
    Seq<Seq<char>>,
    (PErr, usize),
>
    decreases rules.len(),
{
    if rules.len() == 0 {
        Ok(Seq::<Seq<char>>::empty())
    } else {
        match minify_rules_spec(rules.drop_last(), classes) {
            Err(e) => Err(e),
            Ok(rs) => {
                let rr = rules.last();
                match subst_spec(rr.pattern, classes, fuel_for(classes)) {
                    Err(pe) => Err((pe, rr.line)),
                    Ok(src) => Ok(
                        rs.push(
                            seq![
                                if rr.intent {
                                    '+'
                                } else {
                                    '!'
                                },
                            ] + src,
                        ),
                    ),
                }
            },
        }
    }
}

proof fn lemma_minify_rules_err(rules: Seq<RawRuleV>, classes: Seq<ClassV>, k: int)
    requires
        0 <= k <= rules.len(),
        minify_rules_spec(rules.take(k), classes) is Err,
    ensures
        minify_rules_spec(rules, classes) == minify_rules_spec(rules.take(k), classes),
    decreases rules.len() - k,
{
    if k < rules.len() {
        assert(rules.take(k + 1).drop_last() =~= rules.take(k));
        lemma_minify_rules_err(rules, classes, k + 1);
    } else {
        assert(rules.take(k) =~= rules);
    }
}

/// Renders every raw rule in compact form, in order, stopping at the first
/// substitution failure.
pub fn minify_rules(rules: &Vec<RawRule>, classes: &Vec<ClassDef>) -> (r: Result<
    Vec<String>,
    Error,
>)
    ensures
        r matches Ok(v) ==> minify_rules_spec(raw_rules_view(rules@), classes_view(classes@))
            == Ok::<Seq<Seq<char>>, (PErr, usize)>(strs_view(v@)),
        r matches Err(e) ==> (minify_rules_spec(raw_rules_view(rules@), classes_view(classes@))
            matches Err(pe) && e@ == ErrV::Parse(pe.0, pe.1)),
{
    let ghost rv = raw_rules_view(rules@);
    let mut strings: Vec<String> = Vec::new();
    let mut i: usize = 0;
    proof {
        assert(rv.take(0) =~= Seq::<RawRuleV>::empty());
        assert(strs_view(strings@) =~= Seq::<Seq<char>>::empty());
    }
    while i < rules.len()
        invariant
            0 <= i <= rules@.len(),
            rv == raw_rules_view(rules@),
            minify_rules_spec(rv.take(i as int), classes_view(classes@)) == Ok::<
                Seq<Seq<char>>,
                (PErr, usize),
            >(strs_view(strings@)),
        decreases rules@.len() - i,
    {
        proof {
            assert(rv.take(i + 1).drop_last() =~= rv.take(i as int));
            assert(rv.take(i + 1).last() == rules@[i as int]@);
        }
        match replace_classes(rules[i].pattern.as_str(), classes, rules[i].line) {
            Err(e) => {
                proof {
                    assert(minify_rules_spec(rv.take(i + 1), classes_view(classes@)) is Err);
                    lemma_minify_rules_err(rv, classes_view(classes@), i + 1);
                    assert(rv.take(rv.len() as int) =~= rv);
                }
                return Err(e);
            },
            Ok(src) => {
                let ghost pre = strs_view(strings@);
                let mut line: Vec<char> = Vec::new();
                line.push(if rules[i].intent {
                    '+'
                } else {
                    '!'
                });
                let src_chars = chars_of(src.as_str());
                extend_chars(&mut line, &src_chars);
                let s = string_from_chars(&line);
                proof {
                    assert(s@ =~= seq![
                        if rules@[i as int].intent {
                            '+'
                        } else {
                            '!'
                        },
                    ] + src@);
                }
                strings.push(s);
                proof {
                    assert(strs_view(strings@) =~= pre.push(s@));
                }
            },
        }
        i = i + 1;
    }
    proof {
        assert(rv.take(rules@.len() as int) =~= rv);
    }
    Ok(strings)
}

/// The compact form of a draft: the mode marker and the rules, joined by
/// semicolons; with tests included, the positive and the negative word lists
/// follow, each only if non-empty.
pub open spec fn minify_spec(
    mode: Mode,
    classes: Seq<ClassV>,
    rules: Seq<RawRuleV>,
    msgs: Seq<MessageV<TestDraftV>>,
    with_tests: bool,
) -> Result<Seq<char>, (PErr, usize)> {
    match minify_rules_spec(rules, classes) {
        Err(e) => Err(e),
        Ok(rs) => {
            let base = seq!['~'] + mode_str(mode) + seq![';'] + join_with(rs, seq![';']);
            let sp = tests_split(msgs);
            let t1 = if with_tests && sp.0.len() > 0 {
                base + seq![';', '?', '+'] + join_with(sp.0, seq![' '])
            } else {
                base
            };
            let t2 = if with_tests && sp.1.len() > 0 {
                t1 + seq![';', '?', '!'] + join_with(sp.1, seq![' '])
            } else {
                t1
            };
            Ok(t2)
        },
    }
}

/// Renders a draft's parts in the compact one-line form. With `with_tests`,
/// the test words follow the rules, split by intent.
pub fn minify(
    mode: Mode,
    classes: &Vec<ClassDef>,
    rules: &Vec<RawRule>,
    messages: &Vec<Message<TestDraft>>,
    with_tests: bool,
) -> (r: Result<String, Error>)
    ensures
        r matches Ok(s) ==> minify_spec(
            mode,
            classes_view(classes@),
            raw_rules_view(rules@),
            msgs_view(messages@),
            with_tests,
        ) == Ok::<Seq<char>, (PErr, usize)>(s@),
        r matches Err(e) ==> (minify_spec(
            mode,
            classes_view(classes@),
            raw_rules_view(rules@),
            msgs_view(messages@),
            with_tests,
        ) matches Err(pe) && e@ == ErrV::Parse(pe.0, pe.1)),
{
    let rule_strings = match minify_rules(rules, classes) {
        Err(e) => {
            return Err(e);
        },
        Ok(v) => v,
    };
    let (positive, negative) = minify_tests(messages);
    let mut out: Vec<char> = Vec::new();
    out.push('~');
    let mode_chars = chars_of(mode.as_str());
    extend_chars(&mut out, &mode_chars);
    out.push(';');
    let joined_rules = join_strings(&rule_strings, ';');
    extend_chars(&mut out, &joined_rules);
    proof {
        assert(out@ =~= seq!['~'] + mode_str(mode) + seq![';'] + joined_rules@);
    }
    if with_tests && positive.len() > 0 {
        let ghost pre = out@;
        out.push(';');
        out.push('?');
        out.push('+');
        let joined = join_strings(&positive, ' ');
        extend_chars(&mut out, &joined);
        proof {
            assert(out@ =~= pre + seq![';', '?', '+'] + joined@);
        }
    }
    if with_tests && negative.len() > 0 {
        let ghost pre = out@;
        out.push(';');
        out.push('?');
        out.push('!');
        let joined = join_strings(&negative, ' ');
        extend_chars(&mut out, &joined);
        proof {
            assert(out@ =~= pre + seq![';', '?', '!'] + joined@);
        }
    }
    Ok(string_from_chars(&out))
}

impl Draft {
    /// The compact one-line form of this draft; with `with_tests`, its test
    /// words are included.
    pub fn minify(&self, with_tests: bool) -> (r: Result<String, Error>)
        ensures
            r matches Ok(s) ==> minify_spec(
                self.mode,
                classes_view(self.raw_classes@),
                raw_rules_view(self.raw_rules@),
                msgs_view(self.messages@),
                with_tests,
            ) == Ok::<Seq<char>, (PErr, usize)>(s@),
            r matches Err(e) ==> (minify_spec(
                self.mode,
                classes_view(self.raw_classes@),
                raw_rules_view(self.raw_rules@),
                msgs_view(self.messages@),
                with_tests,
            ) matches Err(pe) && e@ == ErrV::Parse(pe.0, pe.1)),
    {
        minify(self.mode, &self.raw_classes, &self.raw_rules, &self.messages, with_tests)
    }
}

} // verus!
