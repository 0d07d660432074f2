use fancy_regex::Regex;
use phonet::draft::{Message, Mode, Note, RawRule, Rule, TestDraft};
use phonet::error::{Error, ParseError};
use phonet::parse::{parse_regex, parse_rules};
use phonet::substitute::ClassDef;
use phonet::Draft;

fn class(name: &str, pattern: &str, line: usize) -> ClassDef {
    ClassDef { name: name.to_string(), pattern: pattern.to_string(), line }
}

fn example_classes() -> Vec<ClassDef> {
    vec![
        class("C", "[ptk]", 0),
        class("V", "[aeiou]", 0),
        class("_", "[⟨C⟩⟨V⟩]", 0),
    ]
}

#[test]
fn parse_rules_works() {
    let classes = example_classes();

    let raw_rules = vec![
        RawRule {
            pattern: "^⟨_⟩+$".to_string(),
            intent: true,
            note: Some(Note("Should contain ⟨a⟩".to_string())),
            line: 0,
        },
        RawRule {
            pattern: "⟨V⟩⟨V⟩".to_string(),
            intent: false,
            note: None,
            line: 0,
        },
    ];

    let rules = vec![
        Rule {
            pattern: Regex::new("^[[ptk][aeiou]]+$").unwrap(),
            intent: true,
            note: Some(Note("Should contain ⟨a⟩".to_string())),
        },
        Rule {
            pattern: Regex::new("[aeiou][aeiou]").unwrap(),
            intent: false,
            note: None,
        },
    ];

    assert_eq!(parse_rules(&raw_rules, &classes).unwrap(), rules);
}

#[test]
fn parse_regex_works() {
    let classes = example_classes();

    assert_eq!(
        parse_regex("⟨V⟩", &classes, 0).unwrap().to_string(),
        "[aeiou]"
    );
    assert_eq!(
        parse_regex("⟨C⟩", &classes, 0).unwrap().to_string(),
        "[ptk]"
    );
    assert_eq!(
        parse_regex("⟨_⟩", &classes, 0).unwrap().to_string(),
        "[[ptk][aeiou]]"
    );

    assert_eq!(
        parse_regex("⟨V⟩|<C>⟨C⟩", &classes, 0).unwrap().to_string(),
        "[aeiou]|[ptk][ptk]"
    );

    assert_eq!(
        parse_regex("^⟨_⟩+$", &classes, 0).unwrap().to_string(),
        "^[[ptk][aeiou]]+$"
    );

    assert_eq!(
        parse_regex(r"(?<a>a)\k<a>|(?P<b><C>)", &classes, 0)
            .unwrap()
            .to_string(),
        r"(?<a>a)\k<a>|(?P<b>[ptk])"
    );
}

#[test]
fn parse_regex_returns_error() {
    let classes = example_classes();

    // Unknown class
    assert!(matches!(
        parse_regex("⟨E⟩", &classes, 0),
        Err(Error::Parse(ParseError::ClassNotFound(..), _))
    ));

    // Invalid regex
    assert!(matches!(
        parse_regex(r"*\", &classes, 0),
        Err(Error::Parse(ParseError::RegexParseFail(..), _))
    ));
}

#[test]
fn draft_from_collects_every_statement_kind() {
    let file = "
  ~<>
  $_ = [ptkaeiou]
  * Some note
    + ^ <_>+ $
      ?+ kato
      ?! x10
";

    let draft = Draft::from(file).unwrap();

    assert_eq!(draft.rules.len(), 1);
    assert_eq!(draft.messages.len(), 3);
    assert_eq!(draft.mode, Mode::Romanized);
    assert_eq!(draft.test_count, 2);

    assert_eq!(
        draft.messages[0],
        Message::Info(Note("Some note".to_string()))
    );
    assert_eq!(
        draft.messages[1],
        Message::Test(TestDraft { word: "kato".to_string(), intent: true })
    );
    assert_eq!(
        draft.messages[2],
        Message::Test(TestDraft { word: "x10".to_string(), intent: false })
    );

    assert_eq!(draft.rules[0].pattern.as_str(), "^(?:[ptkaeiou])+$");
    assert_eq!(draft.rules[0].intent, true);
    assert_eq!(draft.rules[0].note, Some(Note("Some note".to_string())));

    assert_eq!(draft.raw_classes.len(), 1);
    assert_eq!(draft.raw_classes[0].name, "_");
    assert_eq!(draft.raw_classes[0].pattern, "(?:[ptkaeiou])");
}

#[test]
fn draft_from_quiet_note_is_attached_but_not_shown() {
    let draft = Draft::from("*:quiet reason\n+a").unwrap();
    assert_eq!(draft.messages.len(), 0);
    assert_eq!(draft.rules[0].note, Some(Note("quiet reason".to_string())));
}

#[test]
fn draft_from_reports_mode_already_defined() {
    assert!(matches!(
        Draft::from("~<>\n~//"),
        Err(Error::Parse(ParseError::ModeAlreadyDefined, 2))
    ));
}

#[test]
fn draft_from_reports_invalid_mode_specifier() {
    assert!(matches!(
        Draft::from("~x"),
        Err(Error::Parse(ParseError::InvalidModeSpecifier, 1))
    ));
    assert!(matches!(
        Draft::from("~<]"),
        Err(Error::Parse(ParseError::InvalidModeSpecifier, 1))
    ));
}

#[test]
fn draft_from_reports_invalid_class_name() {
    assert!(matches!(
        Draft::from("$a b=[x]"),
        Err(Error::Parse(ParseError::InvalidClassName(..), 1))
    ));
}

#[test]
fn draft_from_reports_class_already_exists() {
    assert!(matches!(
        Draft::from("$C=[p]\n$C=[t]"),
        Err(Error::Parse(ParseError::ClassAlreadyExists(..), 2))
    ));
}

#[test]
fn draft_from_reports_no_class_pattern() {
    assert!(matches!(
        Draft::from("$C"),
        Err(Error::Parse(ParseError::NoClassPattern(..), 1))
    ));
}

#[test]
fn draft_from_reports_invalid_test_intent() {
    assert!(matches!(
        Draft::from("?kato"),
        Err(Error::Parse(ParseError::InvalidTestIntent, 1))
    ));
    assert!(matches!(
        Draft::from("?"),
        Err(Error::Parse(ParseError::InvalidTestIntent, 1))
    ));
}

#[test]
fn draft_from_reports_empty_note() {
    assert!(matches!(
        Draft::from("*"),
        Err(Error::Parse(ParseError::EmptyNote, 1))
    ));
}

#[test]
fn draft_from_reports_unknown_statement_operator() {
    assert!(matches!(
        Draft::from("@"),
        Err(Error::Parse(ParseError::UnknownStatementOperator('@'), 1))
    ));
}

#[test]
fn draft_from_reports_class_not_found() {
    assert!(matches!(
        Draft::from("+<X>"),
        Err(Error::Parse(ParseError::ClassNotFound(..), 1))
    ));
}

#[test]
fn draft_from_reports_recursive_class_reference() {
    assert!(matches!(
        Draft::from("$a=x<a>\n+<a>"),
        Err(Error::Parse(ParseError::RecursiveClassReference, 2))
    ));
}

#[test]
fn draft_from_reports_regex_parse_fail() {
    assert!(matches!(
        Draft::from("+("),
        Err(Error::Parse(ParseError::RegexParseFail(..), 1))
    ));
}

#[test]
fn draft_from_class_pattern_stops_at_second_equals() {
    let draft = Draft::from("$a=b=c\n+<a>").unwrap();
    assert_eq!(draft.raw_classes[0].pattern, "(?:b)");
    assert_eq!(draft.rules[0].pattern.as_str(), "(?:b)");
}

#[test]
fn draft_from_mode_reads_first_and_last_character() {
    let draft = Draft::from("~ <junk>").unwrap();
    assert_eq!(draft.mode, Mode::Romanized);
}

#[test]
fn draft_from_quiet_marker_after_space_stays_in_note() {
    // The quiet marker is recognized on the trimmed note, but only the first
    // character after the operator is dropped: with a space between `*` and
    // `:`, the colon stays in the remembered note.
    let draft = Draft::from("* : note\n+a").unwrap();
    assert_eq!(draft.messages.len(), 0);
    assert_eq!(draft.rules[0].note, Some(Note(": note".to_string())));
}
