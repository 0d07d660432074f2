//! Random word generation by rejection sampling: the alphabet is the fully
//! substituted value of the reserved class `_` with regex punctuation
//! stripped; a candidate word of random length is drawn from it and kept only
//! if it is valid against every rule. A rule set may admit no word at all, so
//! sampling is capped: a round of attempts that all fail yields nothing,
//! instead of retrying forever.

use core::ops::RangeInclusive;
use rand::seq::IndexedRandom;
use rand::RngExt;
use vstd::prelude::*;
use vstd::string::*;

use crate::draft::{clone_rules, rules_view, Draft, Rule, RuleV};
use crate::error::{ErrV, Error, PErr};
use crate::outcome::{validate_test, validity_spec, Validity};
use crate::substitute::{
    classes_map, classes_view, fuel_for, lookup_class, replace_classes, subst_spec, ClassDef,
    ClassV,
};
use crate::text::{chars_of, string_from_chars};

verus! {

#[verifier::external_type_specification]
#[verifier::external_body]
pub struct ExThreadRng(rand::rngs::ThreadRng);

/// Relies on `rand::rng`: a handle to the thread-local random generator.
#[verifier::external_body]
fn new_rng() -> rand::rngs::ThreadRng {
    rand::rng()
}

/// Relies on `rand::Rng::random_range`: a value drawn uniformly from the
/// inclusive range. It panics on an empty range, so the bounds must be
/// ordered; nothing more is promised of a random value.
#[verifier::external_body]
fn rng_range(rng: &mut rand::rngs::ThreadRng, min: usize, max: usize) -> (r: usize)
    requires
        min <= max,
    ensures
        min <= r <= max,
{
    rng.random_range(min..=max)
}

/// Relies on `rand::seq::IndexedRandom::choose`: `Some` exactly when the
/// slice is non-empty, and the chosen value is an element of it.
#[verifier::external_body]
fn rng_choose(rng: &mut rand::rngs::ThreadRng, letters: &Vec<char>) -> (r: char)
    requires
        letters@.len() > 0,
    ensures
        letters@.contains(r),
{
    *letters.as_slice().choose(rng).unwrap()
}

/// Relies on `core::ops::RangeInclusive::start`: the lower bound the range
/// was created with.
pub assume_specification<Idx>[ RangeInclusive::<Idx>::start ](r: &RangeInclusive<Idx>) -> (ret:
    &Idx)
    ensures
        *ret == r@.start,
;

/// Relies on `core::ops::RangeInclusive::end`: the upper bound the range was
/// created with.
pub assume_specification<Idx>[ RangeInclusive::<Idx>::end ](r: &RangeInclusive<Idx>) -> (ret: &Idx)
    ensures
        *ret == r@.end,
;

/// The regex punctuation stripped from the alphabet class's expansion.
pub open spec fn is_regex_symbol(c: char) -> bool {
    ||| c == '['
    ||| c == ']'
    ||| c == '|'
    ||| c == '?'
    ||| c == '*'
    ||| c == '+'
    ||| c == '{'
    ||| c == '}'
    ||| c == '('
    ||| c == ')'
    ||| c == ':'
}

/// `s` with every regex symbol removed.
pub open spec fn remove_symbols_spec(s: Seq<char>) -> Seq<char>
    decreases s.len(),
{
    if s.len() == 0 {
        Seq::<char>::empty()
    } else if is_regex_symbol(s.last()) {
        remove_symbols_spec(s.drop_last())
    } else {
        remove_symbols_spec(s.drop_last()).push(s.last())
    }
}

/// Removes regex punctuation — brackets, quantifiers, alternation and
/// grouping — from a pattern, leaving its literal characters.
pub fn remove_regex_symbols(pattern: &str) -> (r: String)
    ensures
        r@ == remove_symbols_spec(pattern@),
{
    let cs = chars_of(pattern);
    let n = cs.len();
    let mut out: Vec<char> = Vec::new();
    let mut i: usize = 0;
    proof {
        assert(out@ =~= remove_symbols_spec(pattern@.take(0)));
    }
    while i < n
        invariant
            0 <= i <= n,
            n == cs@.len(),
            cs@ == pattern@,
            out@ == remove_symbols_spec(pattern@.take(i as int)),
        decreases n - i,
    {
        proof {
            assert(pattern@.take(i + 1).drop_last() =~= pattern@.take(i as int));
            assert(pattern@.take(i + 1).last() == pattern@[i as int]);
        }
        let c = cs[i];
        let symbol = c == '[' || c == ']' || c == '|' || c == '?' || c == '*' || c == '+' || c
            == '{' || c == '}' || c == '(' || c == ')' || c == ':';
        if !symbol {
            out.push(c);
        }
        i = i + 1;
    }
    proof {
        assert(pattern@.take(n as int) =~= pattern@);
    }
    string_from_chars(&out)
}

/// Whether a class list defines the reserved alphabet class `_`.
pub open spec fn has_any_class(classes: Seq<ClassV>) -> bool {
    classes_map(classes).contains_key("_"@)
}

/// The unresolved pattern of the alphabet class.
pub open spec fn any_class_pattern(classes: Seq<ClassV>) -> Seq<char> {
    classes_map(classes)["_"@].0
}

/// The line the alphabet class was defined on.
pub open spec fn any_class_line(classes: Seq<ClassV>) -> usize {
    classes_map(classes)["_"@].1
}

/// The alphabet a class list yields: the full substitution of its `_` class
/// with regex punctuation stripped, or the substitution failure.
pub open spec fn alphabet_spec(classes: Seq<ClassV>) -> Result<Seq<char>, PErr> {
    match subst_spec(any_class_pattern(classes), classes, fuel_for(classes)) {
        Ok(p) => Ok(remove_symbols_spec(p)),
        Err(pe) => Err(pe),
    }
}

/// Looks up the reserved alphabet class `_` and fully substitutes its value.
/// A missing alphabet class is its own error, distinct from parse errors.
pub fn get_any_class(classes: &Vec<ClassDef>) -> (r: Result<String, Error>)
    ensures
        !has_any_class(classes_view(classes@)) ==> (r matches Err(e) && e@
            == ErrV::MissingAnyClass),
        has_any_class(classes_view(classes@)) ==> match r {
            Ok(s) => subst_spec(
                any_class_pattern(classes_view(classes@)),
                classes_view(classes@),
                fuel_for(classes_view(classes@)),
            ) == Ok::<Seq<char>, PErr>(s@),
            Err(e) => (subst_spec(
                any_class_pattern(classes_view(classes@)),
                classes_view(classes@),
                fuel_for(classes_view(classes@)),
            ) matches Err(pe) && e@ == ErrV::Parse(pe, any_class_line(classes_view(classes@)))),
        },
{
    let name = String::from_str("_");
    let found = lookup_class(classes, &name);
    match found {
        None => Err(Error::MissingAnyClass),
        Some(cd) => {
            let pattern = cd.pattern.clone();
            let line = cd.line;
            replace_classes(pattern.as_str(), classes, line)
        },
    }
}

/// The alphabet of the reserved class `_`: its full substitution with regex
/// punctuation stripped.
pub fn get_letters(classes: &Vec<ClassDef>) -> (r: Result<String, Error>)
    ensures
        !has_any_class(classes_view(classes@)) ==> (r matches Err(e) && e@
            == ErrV::MissingAnyClass),
        has_any_class(classes_view(classes@)) ==> match r {
            Ok(s) => alphabet_spec(classes_view(classes@)) == Ok::<Seq<char>, PErr>(s@),
            Err(e) => (alphabet_spec(classes_view(classes@)) matches Err(pe) && e@ == ErrV::Parse(
                pe,
                any_class_line(classes_view(classes@)),
            )),
        },
{
    match get_any_class(classes) {
        Err(e) => Err(e),
        Ok(p) => Ok(remove_regex_symbols(p.as_str())),
    }
}

/// How many candidate words one generation call will draw before giving up:
/// the rule set may admit no word at all, and an unbounded retry would then
/// never return.
pub const GENERATION_ATTEMPTS: usize = 1000;

/// Specification-level model of a generator: its alphabet, its length
/// bounds, and the rules a word must satisfy.
pub struct GeneratorV {
    pub letters: Seq<char>,
    pub min_len: usize,
    pub max_len: usize,
    pub rules: Seq<RuleV>,
}

/// A generator of random valid words.
pub struct Generator {
    rng: rand::rngs::ThreadRng,
    min_len: usize,
    max_len: usize,
    letters: Vec<char>,
    rules: Vec<Rule>,
}

impl View for Generator {
    type V = GeneratorV;

    closed spec fn view(&self) -> GeneratorV {
        GeneratorV {
            letters: self.letters@,
            min_len: self.min_len,
            max_len: self.max_len,
            rules: rules_view(self.rules@),
        }
    }
}

impl Generator {
    /// A generator with a usable alphabet and an ordered length range.
    pub open spec fn wf(&self) -> bool {
        &&& self@.letters.len() > 0
        &&& self@.min_len <= self@.max_len
    }

    /// Whether the alphabet holds at least one character: a generator
    /// without one can yield no words, and `next` may not be called on it.
    pub fn has_alphabet(&self) -> (r: bool)
        ensures
            r == (self@.letters.len() > 0),
    {
        self.letters.len() > 0
    }

    /// Creates a word generator from a draft, with an inclusive word length
    /// range. `MissingAnyClass` comes exactly when the alphabet class `_` is
    /// undefined, and a substitution failure inside it propagates as a parse
    /// error; otherwise the generator holds the stripped substitution as its
    /// alphabet, the draft's rules and the given bounds, and is usable
    /// exactly when that alphabet has at least one character.
    pub fn new(draft: &Draft, length: RangeInclusive<usize>) -> (r: Result<Generator, Error>)
        requires
            length@.start <= length@.end,
        ensures
            match r {
                Ok(g) => has_any_class(classes_view(draft.raw_classes@)) && (alphabet_spec(
                    classes_view(draft.raw_classes@),
                ) matches Ok(l) && g@.letters == l && (g.wf() <==> l.len() > 0)) && g@.rules
                    == rules_view(draft.rules@) && g@.min_len == length@.start && g@.max_len
                    == length@.end,
                Err(e) => match e@ {
                    ErrV::MissingAnyClass => !has_any_class(classes_view(draft.raw_classes@)),
                    ErrV::Parse(pe, ln) => has_any_class(classes_view(draft.raw_classes@))
                        && alphabet_spec(classes_view(draft.raw_classes@)) == Err::<
                        Seq<char>,
                        PErr,
                    >(pe) && ln == any_class_line(classes_view(draft.raw_classes@)),
                },
            },
    {
        let letters_s = match get_letters(&draft.raw_classes) {
            Err(e) => {
                return Err(e);
            },
            Ok(s) => s,
        };
        let letters = chars_of(letters_s.as_str());
        let min_len = *length.start();
        let max_len = *length.end();
        Ok(
            Generator {
                rng: new_rng(),
                min_len: min_len,
                max_len: max_len,
                letters: letters,
                rules: clone_rules(&draft.rules),
            },
        )
    }

    /// Generates a random word, of a random length within the range, that is
    /// valid against the rules: a returned word is `Valid` by construction.
    /// Candidates that fail validation are rejected and redrawn, up to the
    /// attempt cap; `None` means every attempt of this call was rejected.
    pub fn next(&mut self) -> (r: Option<String>)
        requires
            old(self).wf(),
        ensures
            final(self).wf(),
            final(self)@ == old(self)@,
            r matches Some(w) ==> validity_spec(w@, old(self)@.rules) is Valid && old(
                self,
            )@.min_len <= w@.len() <= old(self)@.max_len && (forall|k: int|
                0 <= k < w@.len() ==> old(self)@.letters.contains(#[trigger] w@[k])),
    {
        let mut attempts: usize = 0;
        while attempts < GENERATION_ATTEMPTS
            invariant
                self.wf(),
                self@ == old(self)@,
            decreases GENERATION_ATTEMPTS - attempts,
        {
            let length = rng_range(&mut self.rng, self.min_len, self.max_len);
            let word = random_word(&self.letters, length, &mut self.rng);
            let verdict = validate_test(word.as_str(), &self.rules);
            if matches!(verdict, Validity::Valid) {
                proof {
                    assert(verdict@ is Valid);
                }
                return Some(word);
            }
            attempts = attempts + 1;
        }
        None
    }
}

impl Draft {
    /// Creates a word generator for this draft, with an inclusive word
    /// length range: `MissingAnyClass` comes exactly when the draft has no
    /// alphabet class `_`; otherwise the generator draws from the stripped
    /// substitution of that class, and is usable exactly when it is
    /// non-empty.
    pub fn generator(&self, length: RangeInclusive<usize>) -> (r: Result<Generator, Error>)
        requires
            length@.start <= length@.end,
        ensures
            match r {
                Ok(g) => has_any_class(classes_view(self.raw_classes@)) && (alphabet_spec(
                    classes_view(self.raw_classes@),
                ) matches Ok(l) && g@.letters == l && (g.wf() <==> l.len() > 0)) && g@.rules
                    == rules_view(self.rules@) && g@.min_len == length@.start && g@.max_len
                    == length@.end,
                Err(e) => match e@ {
                    ErrV::MissingAnyClass => !has_any_class(classes_view(self.raw_classes@)),
                    ErrV::Parse(pe, ln) => has_any_class(classes_view(self.raw_classes@))
                        && alphabet_spec(classes_view(self.raw_classes@)) == Err::<
                        Seq<char>,
                        PErr,
                    >(pe) && ln == any_class_line(classes_view(self.raw_classes@)),
                },
            },
    {
        Generator::new(self, length)
    }

    /// Generates up to `count` random words, each valid against this draft's
    /// rules, of a length within the range, and drawn from the draft's
    /// alphabet. Fewer than `count` words come back only when some draw
    /// exhausted its attempt cap; an empty alphabet yields no words at all.
    /// It fails exactly as `generator` does.
    pub fn generate(&self, count: usize, length: RangeInclusive<usize>) -> (r: Result<
        Vec<String>,
        Error,
    >)
        requires
            length@.start <= length@.end,
        ensures
            match r {
                Ok(words) => has_any_class(classes_view(self.raw_classes@)) && (alphabet_spec(
                    classes_view(self.raw_classes@),
                ) matches Ok(l) && words@.len() <= count && (l.len() == 0 ==> words@.len() == 0)
                    && (forall|k: int|
                    0 <= k < words@.len() ==> {
                        &&& validity_spec(#[trigger] words@[k]@, rules_view(self.rules@)) is Valid
                        &&& length@.start <= words@[k]@.len() <= length@.end
                        &&& forall|j: int|
                            0 <= j < words@[k]@.len() ==> l.contains(#[trigger] words@[k]@[j])
                    })),
                Err(e) => match e@ {
                    ErrV::MissingAnyClass => !has_any_class(classes_view(self.raw_classes@)),
                    ErrV::Parse(pe, ln) => has_any_class(classes_view(self.raw_classes@))
                        && alphabet_spec(classes_view(self.raw_classes@)) == Err::<
                        Seq<char>,
                        PErr,
                    >(pe) && ln == any_class_line(classes_view(self.raw_classes@)),
                },
            },
    {
        let mut generator = match Generator::new(self, length) {
            Err(e) => {
                return Err(e);
            },
            Ok(g) => g,
        };
        if !generator.has_alphabet() {
            // A generator without an alphabet character can yield no words.
            return Ok(Vec::new());
        }
        let mut words: Vec<String> = Vec::new();
        let mut i: usize = 0;
        while i < count
            invariant
                0 <= i <= count,
                generator.wf(),
                generator@.rules == rules_view(self.rules@),
                generator@.min_len == length@.start,
                generator@.max_len == length@.end,
                has_any_class(classes_view(self.raw_classes@)),
                alphabet_spec(classes_view(self.raw_classes@)) matches Ok(l) && l.len() > 0
                    && generator@.letters == l,
                words@.len() <= i,
                forall|k: int|
                    0 <= k < words@.len() ==> {
                        &&& validity_spec(#[trigger] words@[k]@, rules_view(self.rules@)) is Valid
                        &&& generator@.min_len <= words@[k]@.len() <= generator@.max_len
                        &&& forall|j: int|
                            0 <= j < words@[k]@.len() ==> generator@.letters.contains(
                                #[trigger] words@[k]@[j],
                            )
                    },
            decreases count - i,
        {
            match generator.next() {
                Some(word) => {
                    words.push(word);
                },
                None => {
                    return Ok(words);
                },
            }
            i = i + 1;
        }
        Ok(words)
    }
}

/// Draws `length` characters from `letters`, with replacement; the word may
/// not be valid against any rules.
pub fn random_word(letters: &Vec<char>, length: usize, rng: &mut rand::rngs::ThreadRng) -> (r:
    String)
    requires
        letters@.len() > 0,
    ensures
        r@.len() == length,
        forall|k: int| 0 <= k < r@.len() ==> letters@.contains(r@[k]),
{
    let mut word: Vec<char> = Vec::new();
    let mut i: usize = 0;
    while i < length
        invariant
            0 <= i <= length,
            letters@.len() > 0,
            word@.len() == i,
            forall|k: int| 0 <= k < word@.len() ==> letters@.contains(word@[k]),
        decreases length - i,
    {
        word.push(rng_choose(rng, letters));
        i = i + 1;
    }
    string_from_chars(&word)
}

} // verus!
