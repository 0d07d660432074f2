use fancy_regex::Regex;
use phonet::draft::{Draft, Note, Rule};
use phonet::error::Error;
use phonet::generate::{get_any_class, get_letters, remove_regex_symbols};
use phonet::outcome::{validate_test, Validity};
use phonet::substitute::ClassDef;

use Validity::Valid;

fn class(name: &str, pattern: &str, line: usize) -> ClassDef {
    ClassDef { name: name.to_string(), pattern: pattern.to_string(), line }
}

fn example_classes() -> Vec<ClassDef> {
    vec![
        class("C", "[ptk]", 0),
        class("V", "[aeiou]", 0),
        class("_", "[⟨C⟩⟨V⟩]", 0),
    ]
}

#[test]
fn get_letters_works() {
    let classes = example_classes();

    assert_eq!(get_any_class(&classes).unwrap(), "[[ptk][aeiou]]");

    assert_eq!(remove_regex_symbols("[[ptk][aeiou]]"), "ptkaeiou");

    assert_eq!(get_letters(&classes).unwrap(), "ptkaeiou");
}

#[test]
fn generate_works() {
    let classes = example_classes();

    let rules = vec![
        Rule {
            pattern: Regex::new("^[[ptk][aeiou]]+$").unwrap(),
            intent: true,
            note: Some(Note("Should contain ⟨a⟩".to_string())),
        },
        Rule {
            pattern: Regex::new("[aeiou][aeiou]").unwrap(),
            intent: false,
            note: None,
        },
    ];

    let length = 4..=6;

    let draft = Draft {
        messages: vec![],
        rules: rules.clone(),
        mode: Default::default(),
        test_count: 0,
        raw_rules: vec![],
        raw_classes: classes,
    };

    // Generate some random valid words
    let mut words = draft.generator(length.clone()).unwrap();

    // Check some words are valid
    assert!(matches!(
        validate_test(&words.next().unwrap(), &rules),
        Valid
    ));
    assert!(matches!(
        validate_test(&words.next().unwrap(), &rules),
        Valid
    ));
    assert!(matches!(
        validate_test(&words.next().unwrap(), &rules),
        Valid
    ));
    assert!(matches!(
        validate_test(&words.next().unwrap(), &rules),
        Valid
    ));
    assert!(matches!(
        validate_test(&words.next().unwrap(), &rules),
        Valid
    ));
}

// Every generated word validates against the rules it was generated from,
// and its length stays within the requested range.
#[test]
fn generated_words_are_valid_and_sized() {
    let draft = Draft::from("$_=[ptkaeiou]\n+^<_>+$\n![aeiou][aeiou]").unwrap();
    let mut words = draft.generator(2..=5).unwrap();
    for _ in 0..20 {
        let w = words.next().unwrap();
        let n = w.chars().count();
        assert!(2 <= n && n <= 5);
        assert!(matches!(validate_test(&w, &draft.rules), Valid));
    }
}

#[test]
fn generator_without_alphabet_class_fails() {
    let draft = Draft::from("+a").unwrap();
    assert!(matches!(
        draft.generator(1..=3),
        Err(Error::MissingAnyClass)
    ));
}

#[test]
fn generate_returns_counted_valid_words() {
    let draft = Draft::from("$_=[ptkaeiou]\n+^<_>+$").unwrap();
    let words = draft.generate(4, 3..=8).unwrap();
    assert_eq!(words.len(), 4);
    for w in &words {
        let n = w.chars().count();
        assert!(3 <= n && n <= 8);
        assert!(matches!(validate_test(w, &draft.rules), Valid));
    }
}

// An alphabet class whose expansion strips to nothing still constructs a
// generator: `MissingAnyClass` is reserved for an absent class. Such a
// generator has no usable alphabet and bulk generation yields no words.
#[test]
fn empty_alphabet_is_not_a_missing_class() {
    let draft = Draft::from("$_=[]").unwrap();
    let generator = draft.generator(1..=3).unwrap();
    assert!(!generator.has_alphabet());
    assert_eq!(draft.generate(5, 1..=3).unwrap(), Vec::<String>::new());

    let draft = Draft::from("$_=()").unwrap();
    let generator = draft.generator(1..=3).unwrap();
    assert!(!generator.has_alphabet());
}
