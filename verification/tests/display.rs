use fancy_regex::Regex;
use phonet::draft::{Draft, Message, Note, Rule, TestDraft};
use phonet::outcome::pluralize;
use phonet::DisplayLevel;

use Message::{Info, Test};

#[test]
fn max_word_len_works() {
    let outcome = Draft {
        rules: vec![Rule {
            pattern: Regex::new("a").unwrap(),
            intent: false,
            note: Some(Note("Should not contain ⟨a⟩".to_string())),
        }],
        messages: vec![
            Info(Note("This is a really really long note".to_string())),
            // Passing test
            Test(TestDraft { word: "hello".to_string(), intent: true }),
            // Failing test
            Test(TestDraft { word: "abc".to_string(), intent: true }),
        ],
        mode: Default::default(),
        test_count: 2,
        raw_rules: vec![],
        raw_classes: vec![],
    }
    .run();

    assert_eq!(outcome.max_word_len(DisplayLevel::ShowAll), 5); // hello
    assert_eq!(outcome.max_word_len(DisplayLevel::IgnorePasses), 3); // abc
    assert_eq!(outcome.max_word_len(DisplayLevel::OnlyFails), 3); // abc
    assert_eq!(outcome.max_word_len(DisplayLevel::HideAll), 0); // [none]
}

#[test]
fn test_count_counts_tests_only() {
    let outcome = Draft {
        rules: vec![],
        messages: vec![
            Info(Note("a note".to_string())),
            Test(TestDraft { word: "abc".to_string(), intent: true }),
            Test(TestDraft { word: "de".to_string(), intent: false }),
        ],
        mode: Default::default(),
        test_count: 2,
        raw_rules: vec![],
        raw_classes: vec![],
    }
    .run();

    assert_eq!(outcome.test_count(), 2);
}

#[test]
fn pluralize_works() {
    assert_eq!(pluralize(0), "s");
    assert_eq!(pluralize(1), "");
    assert_eq!(pluralize(2), "s");
}
