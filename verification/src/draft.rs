//! The data model of a parsed source file: compiled rules, messages (notes
//! and drafted tests), the transcription mode, and the raw class table and
//! rule list the file defined.

use vstd::prelude::*;
use vstd::string::*;

use crate::engine::{regex_source, regex_as_str};
use crate::substitute::{ClassV, ClassDef};

verus! {

/// Transcription mode of a file: purely descriptive metadata, shown by the
/// bracket pair of its mode statement.
#[derive(Debug, PartialEq, Eq, Structural, Clone, Copy)]
pub enum Mode {
    /// Written `~<>`
    Romanized,
    /// Written `~//`
    Broad,
    /// Written `~[]`
    Narrow,
}

/// The mode named by a pair of bracket characters, if any.
pub open spec fn mode_of(first: char, last: char) -> Option<Mode> {
    if first == '<' && last == '>' {
        Some(Mode::Romanized)
    } else if first == '/' && last == '/' {
        Some(Mode::Broad)
    } else if first == '[' && last == ']' {
        Some(Mode::Narrow)
    } else {
        None
    }
}

/// The mode named by a pair of optional bracket characters, if both are
/// present and recognized.
pub open spec fn mode_of_options(first: Option<char>, last: Option<char>) -> Option<Mode> {
    match (first, last) {
        (Some(a), Some(b)) => mode_of(a, b),
        _ => None,
    }
}

impl Mode {
    /// The `Mode` denoted by two bracket characters, or `None` if the pair is
    /// not recognized.
    pub fn from(first: char, last: char) -> (r: Option<Self>)
        ensures
            r == mode_of(first, last),
    {
        if first == '<' && last == '>' {
            Some(Mode::Romanized)
        } else if first == '/' && last == '/' {
            Some(Mode::Broad)
        } else if first == '[' && last == ']' {
            Some(Mode::Narrow)
        } else {
            None
        }
    }

    /// The `Mode` denoted by two optional bracket characters, or `None` if
    /// either is missing or the pair is not recognized.
    pub fn from_options(first: Option<char>, last: Option<char>) -> (r: Option<Self>)
        ensures
            r == mode_of_options(first, last),
    {
        match (first, last) {
            (Some(a), Some(b)) => Self::from(a, b),
            _ => None,
        }
    }

    /// The bracket pair that denotes this mode.
    pub fn as_str(self) -> (r: &'static str)
        ensures
            r@ == mode_str(self),
    {
        match self {
            Mode::Romanized => "<>",
            Mode::Broad => "//",
            Mode::Narrow => "[]",
        }
    }
}

/// The bracket pair that denotes a mode, as text.
pub open spec fn mode_str(m: Mode) -> Seq<char> {
    match m {
        Mode::Romanized => "<>"@,
        Mode::Broad => "//"@,
        Mode::Narrow => "[]"@,
    }
}

impl Default for Mode {
    /// The mode of a file with no mode statement.
    fn default() -> (r: Self)
        ensures
            r == Mode::Romanized,
    {
        Mode::Romanized
    }
}

/// A single-line descriptive string; the most recent note before a rule is
/// attached to it as the rule's failure explanation.
#[derive(Debug, PartialEq)]
pub struct Note(pub String);

impl View for Note {
    type V = Seq<char>;

    open spec fn view(&self) -> Seq<char> {
        self.0@
    }
}

impl Clone for Note {
    fn clone(&self) -> (r: Self)
        ensures
            r@ == self@,
    {
        Note(self.0.clone())
    }
}

/// The view of an optional note.
pub open spec fn note_view(o: Option<Note>) -> Option<Seq<char>> {
    match o {
        Option::Some(n) => Option::Some(n@),
        Option::None => Option::None,
    }
}

/// Clones an optional note.
pub fn clone_note(o: &Option<Note>) -> (r: Option<Note>)
    ensures
        note_view(r) == note_view(*o),
{
    match o {
        Some(n) => Some(n.clone()),
        None => None,
    }
}

/// Whether two optional notes hold the same text.
pub fn eq_note(a: &Option<Note>, b: &Option<Note>) -> (r: bool)
    ensures
        r == (note_view(*a) == note_view(*b)),
{
    match (a, b) {
        (Some(x), Some(y)) => x.0.eq(&y.0),
        (None, None) => true,
        _ => false,
    }
}

/// Specification-level model of a drafted test.
pub struct TestDraftV {
    pub word: Seq<char>,
    pub intent: bool,
}

/// A test that has not yet been run: a word, and whether the word must be
/// valid for the test to pass.
#[derive(Debug, PartialEq, Clone)]
pub struct TestDraft {
    /// String to test
    pub word: String,
    /// Whether the test should be valid or not, to pass
    pub intent: bool,
}

impl View for TestDraft {
    type V = TestDraftV;

    open spec fn view(&self) -> TestDraftV {
        TestDraftV { word: self.word@, intent: self.intent }
    }
}

/// Specification-level model of a message.
pub enum MessageV<TV> {
    Info(Seq<char>),
    Test(TV),
}

/// A single message to be displayed: either a plain note, or a test. The
/// test type is generic so the same message shape holds a drafted test and
/// its evaluated outcome.
#[derive(Debug, PartialEq)]
pub enum Message<T> {
    /// Plain text note
    Info(Note),
    /// Test of the generic type
    Test(T),
}

impl<T: View> View for Message<T> {
    type V = MessageV<T::V>;

    open spec fn view(&self) -> MessageV<T::V> {
        match self {
            Message::Info(n) => MessageV::Info(n@),
            Message::Test(t) => MessageV::Test(t@),
        }
    }
}

impl<T> Message<T> {
    /// Whether this message is a plain note.
    pub fn is_note(&self) -> (r: bool)
        ensures
            r == (self is Info),
    {
        matches!(self, Message::Info(_))
    }

    /// Whether this message is a test.
    pub fn is_test(&self) -> (r: bool)
        ensures
            r == (self is Test),
    {
        matches!(self, Message::Test(_))
    }
}

/// Specification-level model of a raw rule.
pub struct RawRuleV {
    pub intent: bool,
    pub pattern: Seq<char>,
    pub note: Option<Seq<char>>,
    pub line: usize,
}

/// A rule as written in the source: intent, unresolved pattern text, the
/// note attached to it (if any), and the line it was defined on.
#[derive(Debug, PartialEq)]
pub struct RawRule {
    /// Whether the pattern must match for a word to be valid
    pub intent: bool,
    /// Unresolved pattern text
    pub pattern: String,
    /// Reason given if a test fails against this rule
    pub note: Option<Note>,
    /// The line the rule was defined on
    pub line: usize,
}

impl View for RawRule {
    type V = RawRuleV;

    open spec fn view(&self) -> RawRuleV {
        RawRuleV {
            intent: self.intent,
            pattern: self.pattern@,
            note: note_view(self.note),
            line: self.line,
        }
    }
}

/// Specification-level model of a compiled rule: the substituted pattern the
/// matcher was compiled from, the intent, and the attached note.
pub struct RuleV {
    pub source: Seq<char>,
    pub intent: bool,
    pub note: Option<Seq<char>>,
}

/// A compiled rule: an executable matcher, whether a match signifies
/// validity, and the note attached to the rule.
#[derive(Debug)]
pub struct Rule {
    /// The compiled matcher. The contracts over rules describe matchers
    /// compiled from their source text with the engine's default options, as
    /// `fancy_regex::Regex::new` and this library build them; a matcher built
    /// with other engine options is outside what they state.
    pub pattern: fancy_regex::Regex,
    /// Whether the pattern must match for a word to be valid
    pub intent: bool,
    /// Reason given if a test fails against this rule
    pub note: Option<Note>,
}

impl View for Rule {
    type V = RuleV;

    open spec fn view(&self) -> RuleV {
        RuleV {
            source: regex_source(self.pattern),
            intent: self.intent,
            note: note_view(self.note),
        }
    }
}

impl vstd::std_specs::cmp::PartialEqSpecImpl for Rule {
    open spec fn obeys_eq_spec() -> bool {
        true
    }

    open spec fn eq_spec(&self, other: &Rule) -> bool {
        self@ == other@
    }
}

// Rules are compared by intent, note, and the matcher's source text: the
// compiled form has no other canonical equality.
impl PartialEq for Rule {
    fn eq(&self, other: &Self) -> (r: bool)
        ensures
            r == (self@ == other@),
    {
        let src_a = String::from_str(regex_as_str(&self.pattern));
        let src_b = String::from_str(regex_as_str(&other.pattern));
        let r = self.intent == other.intent && eq_note(&self.note, &other.note) && src_a.eq(&src_b);
        proof {
            if r {
                assert(self@ == other@);
            } else {
                assert(self@ != other@);
            }
        }
        r
    }
}

impl Clone for Rule {
    fn clone(&self) -> (r: Self)
        ensures
            r@ == self@,
    {
        clone_rule(self)
    }
}

/// Clones a rule; the clone's matcher is compiled from the same source.
pub fn clone_rule(r: &Rule) -> (c: Rule)
    ensures
        c@ == r@,
{
    Rule {
        pattern: crate::engine::regex_clone(&r.pattern),
        intent: r.intent,
        note: clone_note(&r.note),
    }
}

/// Clones a rule list, keeping every rule's model.
pub fn clone_rules(rules: &Vec<Rule>) -> (c: Vec<Rule>)
    ensures
        rules_view(c@) == rules_view(rules@),
{
    let mut c: Vec<Rule> = Vec::new();
    let mut i: usize = 0;
    while i < rules.len()
        invariant
            0 <= i <= rules@.len(),
            c@.len() == i,
            forall|k: int| 0 <= k < i ==> c@[k]@ == rules@[k]@,
        decreases rules@.len() - i,
    {
        c.push(clone_rule(&rules[i]));
        i = i + 1;
    }
    proof {
        assert(rules_view(c@) =~= rules_view(rules@));
    }
    c
}

/// The view of a rule list.
pub open spec fn rules_view(v: Seq<Rule>) -> Seq<RuleV> {
    v.map_values(|r: Rule| r@)
}

/// The view of a raw rule list.
pub open spec fn raw_rules_view(v: Seq<RawRule>) -> Seq<RawRuleV> {
    v.map_values(|r: RawRule| r@)
}

/// The view of a message list.
pub open spec fn msgs_view(v: Seq<Message<TestDraft>>) -> Seq<MessageV<TestDraftV>> {
    v.map_values(|m: Message<TestDraft>| m@)
}

/// Specification-level model of a parsed draft.
pub struct DraftV {
    pub rules: Seq<RuleV>,
    pub messages: Seq<MessageV<TestDraftV>>,
    pub mode: Mode,
    pub test_count: int,
    pub raw_rules: Seq<RawRuleV>,
    pub raw_classes: Seq<ClassV>,
}

/// A parsed source file: compiled rules, messages (notes and drafted tests)
/// in source order, the transcription mode, the number of tests among the
/// messages, and the raw class table and rule list as written.
#[derive(Debug)]
pub struct Draft {
    /// The compiled rules, in declaration order
    pub rules: Vec<Rule>,
    /// The messages to display, in source order
    pub messages: Vec<Message<TestDraft>>,
    /// Transcription mode of the file
    pub mode: Mode,
    /// The number of tests among `messages`
    pub test_count: usize,
    /// The rules as written, with classes unresolved
    pub raw_rules: Vec<RawRule>,
    /// The classes as written, unresolved
    pub raw_classes: Vec<ClassDef>,
}

impl View for Draft {
    type V = DraftV;

    open spec fn view(&self) -> DraftV {
        DraftV {
            rules: rules_view(self.rules@),
            messages: msgs_view(self.messages@),
            mode: self.mode,
            test_count: self.test_count as int,
            raw_rules: raw_rules_view(self.raw_rules@),
            raw_classes: crate::substitute::classes_view(self.raw_classes@),
        }
    }
}

/// The number of tests among a message list.
pub open spec fn count_tests<TV>(msgs: Seq<MessageV<TV>>) -> int
    decreases msgs.len(),
{
    if msgs.len() == 0 {
        0int
    } else {
        count_tests(msgs.drop_last()) + if msgs.last() is Test {
            1int
        } else {
            0int
        }
    }
}

} // verus!
