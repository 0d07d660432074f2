use phonet::draft::{Message, Note};
use phonet::outcome::{PassStatus, TestOutcome};
use phonet::Draft;

// End to end: classes are defined and referenced, the rule carries the most
// recent note, the declared tests run against the compiled rule, and the
// verdicts follow the intents: `kato` (all letters in the alphabet) is valid
// and expected valid, so it passes; `x10` (digits) is invalid and expected
// invalid, so it passes too.
#[test]
fn end_to_end_pipeline() {
    let file = "
$C=[ptk]
$V=[aeiou]
$_=[<C><V>]
*only C/V
+^<_>+$
?+kato
?!x10
";

    let draft = Draft::from(file).expect("Failed to parse");

    assert_eq!(draft.rules.len(), 1);
    assert_eq!(draft.test_count, 2);
    assert_eq!(draft.rules[0].note, Some(Note("only C/V".to_string())));
    assert_eq!(
        draft.rules[0].pattern.as_str(),
        "^(?:[(?:[ptk])(?:[aeiou])])+$"
    );

    let outcome = draft.run();

    let mut statuses = outcome.messages.iter().filter_map(|m| match m {
        Message::Test(TestOutcome { word, status, .. }) => Some((word.as_str(), status)),
        Message::Info(_) => None,
    });

    assert_eq!(statuses.next(), Some(("kato", &PassStatus::Pass)));
    assert_eq!(statuses.next(), Some(("x10", &PassStatus::Pass)));
    assert_eq!(statuses.next(), None);
    assert_eq!(outcome.fail_count, 0);
}

// The same source with the intents swapped: a valid word where invalidity
// was declared fails as `ShouldBeInvalid`, and an invalid word where
// validity was declared fails with the violated rule's note.
#[test]
fn end_to_end_failures_carry_reasons() {
    let file = "
$C=[ptk]
$V=[aeiou]
$_=[<C><V>]
*only C/V
+^<_>+$
?!kato
?+x10
";

    let draft = Draft::from(file).expect("Failed to parse");
    let outcome = draft.run();

    assert_eq!(outcome.fail_count, 2);

    let mut statuses = outcome.messages.iter().filter_map(|m| match m {
        Message::Test(TestOutcome { word, status, .. }) => Some((word.as_str(), status)),
        Message::Info(_) => None,
    });

    assert_eq!(
        statuses.next(),
        Some((
            "kato",
            &PassStatus::Fail(phonet::outcome::FailKind::ShouldBeInvalid)
        ))
    );
    assert_eq!(
        statuses.next(),
        Some((
            "x10",
            &PassStatus::Fail(phonet::outcome::FailKind::CustomReason(Note(
                "only C/V".to_string()
            )))
        ))
    );
}
