//! Running a draft's tests: evaluating a word against the compiled rules in
//! declaration order, classifying the verdict against the test's declared
//! intent, and collecting the outcomes.

use vstd::prelude::*;
use vstd::string::*;

use crate::draft::{
    count_tests, msgs_view, note_view, rules_view, clone_note, Draft, Message, MessageV, Note,
    Rule, RuleV, TestDraft, TestDraftV,
};
use crate::engine::{regex_is_match, regex_match};

verus! {

/// Specification-level model of a validity verdict.
pub enum ValidityV {
    Valid,
    Invalid(Option<Seq<char>>),
}

/// Whether a word matches the rule set: `Valid`, or `Invalid` carrying the
/// note of the first violated rule (none if that rule had no note).
///
/// This is different from whether a test passes (see `PassStatus`).
#[derive(Debug, PartialEq)]
pub enum Validity {
    Valid,
    Invalid(Option<Note>),
}

impl View for Validity {
    type V = ValidityV;

    open spec fn view(&self) -> ValidityV {
        match self {
            Validity::Valid => ValidityV::Valid,
            Validity::Invalid(n) => ValidityV::Invalid(note_view(*n)),
        }
    }
}

/// The verdict on `word`: rules are tried in order, and a rule is violated
/// when whether it matches differs from its intent; the first violated rule
/// decides, and its note is carried as the reason.
pub open spec fn validity_spec(word: Seq<char>, rules: Seq<RuleV>) -> ValidityV
    decreases rules.len(),
{
    if rules.len() == 0 {
        ValidityV::Valid
    } else if rules.first().intent != regex_match(rules.first().source, word) {
        ValidityV::Invalid(rules.first().note)
    } else {
        validity_spec(word, rules.drop_first())
    }
}

/// Checks `word` against every rule in declaration order, stopping at the
/// first violated rule and reporting its note.
pub fn validate_test(word: &str, rules: &Vec<Rule>) -> (r: Validity)
    ensures
        r@ == validity_spec(word@, rules_view(rules@)),
{
    let ghost rv = rules_view(rules@);
    let n = rules.len();
    let mut i: usize = 0;
    proof {
        assert(rv.skip(0) =~= rv);
    }
    while i < n
        invariant
            0 <= i <= n,
            n == rules@.len(),
            rv == rules_view(rules@),
            validity_spec(word@, rv) == validity_spec(word@, rv.skip(i as int)),
        decreases n - i,
    {
        proof {
            assert(rv.skip(i as int).first() == rules@[i as int]@);
            assert(rv.skip(i as int).drop_first() =~= rv.skip(i + 1));
        }
        let matched = regex_is_match(&rules[i].pattern, word);
        if rules[i].intent ^ matched {
            return Validity::Invalid(clone_note(&rules[i].note));
        }
        i = i + 1;
    }
    proof {
        assert(rv.skip(n as int) =~= Seq::<RuleV>::empty());
    }
    Validity::Valid
}

/// Specification-level model of how a test failed.
pub enum FailKindV {
    ShouldBeInvalid,
    NoReasonGiven,
    CustomReason(Seq<char>),
}

/// The manner in which a test failed.
#[derive(Debug, PartialEq)]
pub enum FailKind {
    /// The word was valid, but the test expected it to be invalid
    ShouldBeInvalid,
    /// The word was invalid although the test expected it to be valid, and
    /// the violated rule gave no reason
    NoReasonGiven,
    /// The word was invalid although the test expected it to be valid, with
    /// the violated rule's note as the reason
    CustomReason(Note),
}

impl View for FailKind {
    type V = FailKindV;

    open spec fn view(&self) -> FailKindV {
        match self {
            FailKind::ShouldBeInvalid => FailKindV::ShouldBeInvalid,
            FailKind::NoReasonGiven => FailKindV::NoReasonGiven,
            FailKind::CustomReason(n) => FailKindV::CustomReason(n@),
        }
    }
}

/// Specification-level model of a test's status.
pub enum PassStatusV {
    Pass,
    Fail(FailKindV),
}

/// Status of a test that was run.
#[derive(Debug, PartialEq)]
pub enum PassStatus {
    /// Intent and validity matched
    Pass,
    /// Intent and validity did not match
    Fail(FailKind),
}

impl View for PassStatus {
    type V = PassStatusV;

    open spec fn view(&self) -> PassStatusV {
        match self {
            PassStatus::Pass => PassStatusV::Pass,
            PassStatus::Fail(k) => PassStatusV::Fail(k@),
        }
    }
}

impl PassStatus {
    /// Whether the test passed.
    pub fn is_pass(&self) -> (r: bool)
        ensures
            r == (self is Pass),
    {
        matches!(self, PassStatus::Pass)
    }

    /// Whether the test failed.
    pub fn is_fail(&self) -> (r: bool)
        ensures
            r == (self is Fail),
    {
        matches!(self, PassStatus::Fail(_))
    }
}

/// A test passes exactly when its declared intent matches whether the word
/// was valid. A failing test's kind is: `ShouldBeInvalid` when the word was
/// unexpectedly valid; otherwise `CustomReason` with the violated rule's
/// note, or `NoReasonGiven` when that rule had none.
pub open spec fn status_spec(v: ValidityV, intent: bool) -> PassStatusV {
    if (v is Valid) == intent {
        PassStatusV::Pass
    } else {
        match v {
            ValidityV::Valid => PassStatusV::Fail(FailKindV::ShouldBeInvalid),
            ValidityV::Invalid(reason) => match reason {
                Some(n) => PassStatusV::Fail(FailKindV::CustomReason(n)),
                None => PassStatusV::Fail(FailKindV::NoReasonGiven),
            },
        }
    }
}

/// Classifies a verdict against a test's declared intent.
pub fn get_status(validity: Validity, intent: bool) -> (r: PassStatus)
    ensures
        r@ == status_spec(validity@, intent),
{
    let is_pass = !(matches!(validity, Validity::Valid) ^ intent);
    if is_pass {
        PassStatus::Pass
    } else {
        PassStatus::Fail(
            match validity {
                Validity::Valid => FailKind::ShouldBeInvalid,
                Validity::Invalid(reason) => match reason {
                    Some(reason) => FailKind::CustomReason(reason),
                    None => FailKind::NoReasonGiven,
                },
            },
        )
    }
}

/// Specification-level model of a test outcome.
pub struct TestOutcomeV {
    pub word: Seq<char>,
    pub intent: bool,
    pub status: PassStatusV,
}

/// Outcome of one drafted test that was run.
#[derive(Debug, PartialEq)]
pub struct TestOutcome {
    /// The word that was tested
    pub word: String,
    /// Whether the word had to be valid for the test to pass
    pub intent: bool,
    /// Whether the test passed
    pub status: PassStatus,
}

impl View for TestOutcome {
    type V = TestOutcomeV;

    open spec fn view(&self) -> TestOutcomeV {
        TestOutcomeV { word: self.word@, intent: self.intent, status: self.status@ }
    }
}

/// What running one drafted test yields.
pub open spec fn run_test_spec(t: TestDraftV, rules: Seq<RuleV>) -> TestOutcomeV {
    TestOutcomeV {
        word: t.word,
        intent: t.intent,
        status: status_spec(validity_spec(t.word, rules), t.intent),
    }
}

/// Runs one drafted test against the rules.
pub fn run_test(test: TestDraft, rules: &Vec<Rule>) -> (r: TestOutcome)
    ensures
        r@ == run_test_spec(test@, rules_view(rules@)),
{
    let validity = validate_test(test.word.as_str(), rules);
    let status = get_status(validity, test.intent);
    TestOutcome { intent: test.intent, word: test.word, status: status }
}

/// What running a whole message list yields: notes pass through, each test
/// becomes its outcome.
pub open spec fn run_msgs_spec(msgs: Seq<MessageV<TestDraftV>>, rules: Seq<RuleV>) -> Seq<
    MessageV<TestOutcomeV>,
> {
    msgs.map_values(
        |m: MessageV<TestDraftV>|
            match m {
                MessageV::Info(n) => MessageV::Info(n),
                MessageV::Test(t) => MessageV::Test(run_test_spec(t, rules)),
            },
    )
}

/// The number of failing tests in a message list.
pub open spec fn fail_count_spec(msgs: Seq<MessageV<TestDraftV>>, rules: Seq<RuleV>) -> int
    decreases msgs.len(),
{
    if msgs.len() == 0 {
        0int
    } else {
        fail_count_spec(msgs.drop_last(), rules) + match msgs.last() {
            MessageV::Test(t) => if run_test_spec(t, rules).status is Fail {
                1int
            } else {
                0int
            },
            MessageV::Info(_) => 0int,
        }
    }
}

/// The view of an outcome message list.
pub open spec fn omsgs_view(v: Seq<Message<TestOutcome>>) -> Seq<MessageV<TestOutcomeV>> {
    v.map_values(|m: Message<TestOutcome>| m@)
}

/// Specification-level model of an outcome.
pub struct OutcomeV {
    pub messages: Seq<MessageV<TestOutcomeV>>,
    pub fail_count: int,
}

/// Outcome of the tests of a draft: every message with its tests evaluated,
/// and the number of failed tests.
#[derive(Debug)]
pub struct Outcome {
    /// The messages to display, with each test's outcome
    pub messages: Vec<Message<TestOutcome>>,
    /// How many tests failed
    pub fail_count: usize,
}

impl View for Outcome {
    type V = OutcomeV;

    open spec fn view(&self) -> OutcomeV {
        OutcomeV { messages: omsgs_view(self.messages@), fail_count: self.fail_count as int }
    }
}

impl Outcome {
    /// Runs every drafted test of `draft` against its rules, keeping notes
    /// and message order, and counts the failures.
    pub fn run(draft: &Draft) -> (r: Outcome)
        ensures
            r@.messages == run_msgs_spec(msgs_view(draft.messages@), rules_view(draft.rules@)),
            r@.fail_count == fail_count_spec(
                msgs_view(draft.messages@),
                rules_view(draft.rules@),
            ),
    {
        let ghost mv = msgs_view(draft.messages@);
        let ghost rv = rules_view(draft.rules@);
        let mut list: Vec<Message<TestOutcome>> = Vec::new();
        let mut fail_count: usize = 0;
        let n = draft.messages.len();
        let mut i: usize = 0;
        proof {
            assert(mv.take(0) =~= Seq::<MessageV<TestDraftV>>::empty());
            assert(omsgs_view(list@) =~= run_msgs_spec(mv.take(0), rv));
        }
        while i < n
            invariant
                0 <= i <= n,
                n == draft.messages@.len(),
                mv == msgs_view(draft.messages@),
                rv == rules_view(draft.rules@),
                fail_count <= i,
                omsgs_view(list@) == run_msgs_spec(mv.take(i as int), rv),
                fail_count as int == fail_count_spec(mv.take(i as int), rv),
            decreases n - i,
        {
            proof {
                assert(mv.take(i + 1).drop_last() =~= mv.take(i as int));
                assert(mv.take(i + 1).last() == draft.messages@[i as int]@);
            }
            let ghost pre = omsgs_view(list@);
            match &draft.messages[i] {
                Message::Info(note) => {
                    list.push(Message::Info(note.clone()));
                    proof {
                        assert(omsgs_view(list@) =~= pre.push(MessageV::Info(note@)));
                        assert(omsgs_view(list@) =~= run_msgs_spec(mv.take(i + 1), rv));
                    }
                },
                Message::Test(test) => {
                    let t = TestDraft { word: test.word.clone(), intent: test.intent };
                    proof {
                        assert(t@ == test@);
                    }
                    let outcome = run_test(t, &draft.rules);
                    if outcome.status.is_fail() {
                        fail_count = fail_count + 1;
                    }
                    list.push(Message::Test(outcome));
                    proof {
                        assert(omsgs_view(list@) =~= pre.push(MessageV::Test(outcome@)));
                        assert(omsgs_view(list@) =~= run_msgs_spec(mv.take(i + 1), rv));
                    }
                },
            }
            i = i + 1;
        }
        proof {
            assert(mv.take(n as int) =~= mv);
        }
        Outcome { messages: list, fail_count: fail_count }
    }
}

impl Draft {
    /// Runs the drafted tests of this draft.
    pub fn run(&self) -> (r: Outcome)
        ensures
            r@.messages == run_msgs_spec(msgs_view(self.messages@), rules_view(self.rules@)),
            r@.fail_count == fail_count_spec(msgs_view(self.messages@), rules_view(self.rules@)),
    {
        Outcome::run(self)
    }
}

/// The kinds of messages to show when an outcome is displayed.
#[derive(Debug, Clone, Copy, PartialEq, Eq, Structural)]
pub enum DisplayLevel {
    /// Show everything: passed and failed tests, and notes
    ShowAll,
    /// Show failed tests and notes, but not passes
    IgnorePasses,
    /// Show only failed tests, not passed tests or notes
    OnlyFails,
    /// Show nothing
    HideAll,
}

impl Default for DisplayLevel {
    /// The level used when none is chosen.
    fn default() -> (r: Self)
        ensures
            r == DisplayLevel::ShowAll,
    {
        DisplayLevel::ShowAll
    }
}

/// How many characters of a message's word are shown at a display level: a
/// test word counts when it is always shown, or when it failed and failures
/// are shown; notes and hidden tests count zero.
pub open spec fn shown_len(m: MessageV<TestOutcomeV>, level: DisplayLevel) -> int {
    match m {
        MessageV::Info(_) => 0int,
        MessageV::Test(t) => match level {
            DisplayLevel::ShowAll => t.word.len() as int,
            DisplayLevel::IgnorePasses | DisplayLevel::OnlyFails => if t.status is Fail {
                t.word.len() as int
            } else {
                0int
            },
            DisplayLevel::HideAll => 0int,
        },
    }
}

/// The longest word shown at a display level, or zero if none is shown.
pub open spec fn max_word_len_spec(msgs: Seq<MessageV<TestOutcomeV>>, level: DisplayLevel) -> int
    decreases msgs.len(),
{
    if msgs.len() == 0 {
        0int
    } else {
        let rest = max_word_len_spec(msgs.drop_last(), level);
        let last = shown_len(msgs.last(), level);
        if last > rest {
            last
        } else {
            rest
        }
    }
}

impl Outcome {
    /// The length of the longest test word that the display level shows; for
    /// aligning the output.
    pub fn max_word_len(&self, display_level: DisplayLevel) -> (r: usize)
        ensures
            r as int == max_word_len_spec(omsgs_view(self.messages@), display_level),
    {
        let ghost mv = omsgs_view(self.messages@);
        let n = self.messages.len();
        let mut m: usize = 0;
        let mut i: usize = 0;
        proof {
            assert(mv.take(0) =~= Seq::<MessageV<TestOutcomeV>>::empty());
        }
        while i < n
            invariant
                0 <= i <= n,
                n == self.messages@.len(),
                mv == omsgs_view(self.messages@),
                m as int == max_word_len_spec(mv.take(i as int), display_level),
            decreases n - i,
        {
            proof {
                assert(mv.take(i + 1).drop_last() =~= mv.take(i as int));
                assert(mv.take(i + 1).last() == self.messages@[i as int]@);
            }
            match &self.messages[i] {
                Message::Test(t) => {
                    let shown = match display_level {
                        DisplayLevel::ShowAll => true,
                        DisplayLevel::IgnorePasses | DisplayLevel::OnlyFails => t.status.is_fail(),
                        DisplayLevel::HideAll => false,
                    };
                    if shown {
                        let len = t.word.as_str().unicode_len();
                        if len > m {
                            m = len;
                        }
                    }
                },
                Message::Info(_) => {},
            }
            i = i + 1;
        }
        proof {
            assert(mv.take(n as int) =~= mv);
        }
        m
    }

    /// The number of tests among the outcome's messages.
    pub fn test_count(&self) -> (r: usize)
        ensures
            r as int == count_tests(omsgs_view(self.messages@)),
    {
        let ghost mv = omsgs_view(self.messages@);
        let mut c: usize = 0;
        let mut k: usize = 0;
        proof {
            assert(mv.take(0) =~= Seq::<MessageV<TestOutcomeV>>::empty());
        }
        while k < self.messages.len()
            invariant
                0 <= k <= self.messages@.len(),
                c <= k,
                mv == omsgs_view(self.messages@),
                c as int == count_tests(mv.take(k as int)),
            decreases self.messages@.len() - k,
        {
            proof {
                assert(mv.take(k + 1).drop_last() =~= mv.take(k as int));
                assert(mv.take(k + 1).last() == self.messages@[k as int]@);
            }
            if self.messages[k].is_test() {
                c = c + 1;
            }
            k = k + 1;
        }
        proof {
            assert(mv.take(self.messages@.len() as int) =~= mv);
        }
        c
    }
}

/// The plural suffix for a count: empty for one, `s` otherwise.
pub fn pluralize(number: usize) -> (r: &'static str)
    ensures
        number == 1 ==> r@ == ""@,
        number != 1 ==> r@ == "s"@,
{
    if number == 1 {
        ""
    } else {
        "s"
    }
}

} // verus!
