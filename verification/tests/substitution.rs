use phonet::error::{Error, ParseError};
use phonet::substitute::{replace_angle_brackets, replace_classes, substitute_classes, ClassDef};

fn class(name: &str, pattern: &str, line: usize) -> ClassDef {
    ClassDef { name: name.to_string(), pattern: pattern.to_string(), line }
}

fn example_classes() -> Vec<ClassDef> {
    vec![
        class("C", "[ptk]", 0),
        class("V", "[aeiou]", 0),
        class("_", "[⟨C⟩⟨V⟩]", 0),
    ]
}

#[test]
fn tests_swap_angle_brackets_works() {
    assert_eq!(replace_angle_brackets("<abc>"), "⟨abc⟩");
    assert_eq!(replace_angle_brackets("(?<=abc)"), "(?<=abc)");
    assert_eq!(replace_angle_brackets("(?<!abc)"), "(?<!abc)");
    assert_eq!(replace_angle_brackets("(?<abc>)"), "(?<abc>)");
    assert_eq!(replace_angle_brackets("(?P<abc>)"), "(?P<abc>)");
    assert_eq!(replace_angle_brackets(r"\k<abc>"), r"\k<abc>");
    assert_eq!(replace_angle_brackets(r"(?<a>.)\k<a>"), r"(?<a>.)\k<a>");
    assert_eq!(replace_angle_brackets("(?:<abc>)"), "(?:⟨abc⟩)");
    assert_eq!(replace_angle_brackets("?<abc>"), "?⟨abc⟩");
    assert_eq!(replace_angle_brackets("<abc><def>"), "⟨abc⟩⟨def⟩");
    assert_eq!(replace_angle_brackets("<abc><"), "⟨abc⟩<");
    assert_eq!(replace_angle_brackets("<abc>>"), "⟨abc⟩>");
}

#[test]
fn substitute_swap_angle_brackets_works() {
    assert_eq!(replace_angle_brackets("<abc>"), "⟨abc⟩");
    assert_eq!(replace_angle_brackets("(?<=abc)"), "(?<=abc)");
    assert_eq!(replace_angle_brackets("(?<!abc)"), "(?<!abc)");
    assert_eq!(replace_angle_brackets("(?<abc>)"), "(?<abc>)");
    assert_eq!(replace_angle_brackets("(?P<abc>)"), "(?P<abc>)");
    assert_eq!(replace_angle_brackets(r"\k<abc>"), r"\k<abc>");
    assert_eq!(replace_angle_brackets(r"(?<a>.)\k<a>"), r"(?<a>.)\k<a>");
    assert_eq!(replace_angle_brackets("(?:<abc>)"), "(?:⟨abc⟩)");
    assert_eq!(replace_angle_brackets("?<abc>"), "?⟨abc⟩");
    assert_eq!(replace_angle_brackets("<abc><def>"), "⟨abc⟩⟨def⟩");
    assert_eq!(replace_angle_brackets("<abc><"), "⟨abc⟩<");
    assert_eq!(replace_angle_brackets("<abc>>"), "⟨abc⟩>");
}

#[test]
fn substitute_classes_works() {
    let classes = vec![
        class("C", "[ptk]", 0),
        class("Vowels", "[aio]", 0),
        class("_", "[<C><Vowels>]", 0),
    ];

    assert_eq!(
        substitute_classes("<C>", &classes).unwrap(),
        "[ptk]".to_string()
    );

    assert_eq!(
        substitute_classes("<C>-<Vowels>", &classes).unwrap(),
        "[ptk]-[aio]".to_string()
    );

    assert_eq!(
        substitute_classes("<_>", &classes).unwrap(),
        "[[ptk][aio]]".to_string()
    );

    assert_eq!(
        substitute_classes("(?<=1)", &classes).unwrap(),
        "(?<=1)".to_string()
    );

    assert_eq!(
        substitute_classes("(?<abc><C>)", &classes).unwrap(),
        "(?<abc>[ptk])".to_string()
    );

    assert_eq!(substitute_classes("a>b", &classes).unwrap(), "a>b");
    assert_eq!(substitute_classes("a<b", &classes).unwrap(), "a<b");
}

#[test]
fn replace_classes_works() {
    let classes = example_classes();

    assert_eq!(
        replace_classes("<C>", &classes, 0).unwrap(),
        "[ptk]".to_string()
    );

    assert_eq!(
        replace_classes("<C>-<V>", &classes, 0).unwrap(),
        "[ptk]-[aeiou]".to_string()
    );

    assert_eq!(
        replace_classes("<_>", &classes, 0).unwrap(),
        "[[ptk][aeiou]]".to_string()
    );

    assert_eq!(
        replace_classes("(?<=1)", &classes, 0).unwrap(),
        "(?<=1)".to_string()
    );

    assert_eq!(
        replace_classes("(?<abc><C>)", &classes, 0).unwrap(),
        "(?<abc>[ptk])".to_string()
    );

    assert_eq!(replace_classes("a>b", &classes, 0).unwrap(), "a>b");
    assert_eq!(replace_classes("a<b", &classes, 0).unwrap(), "a<b");
}

#[test]
fn replace_classes_returns_error() {
    let classes = example_classes();

    assert!(matches!(
        replace_classes("<c>", &classes, 0),
        Err(Error::Parse(ParseError::ClassNotFound(..), _))
    ));

    assert!(matches!(
        replace_classes("<a<b>c>", &classes, 0),
        Err(Error::Parse(ParseError::InvalidClassName(..), _))
    ));
}

// Substitution is idempotent on already-flat text, and an acyclic class
// table of any nesting depth fully flattens.
#[test]
fn substitution_idempotent_on_flat_text() {
    let classes = example_classes();
    let once = replace_classes("<_>", &classes, 0).unwrap();
    assert_eq!(once, "[[ptk][aeiou]]");
    let twice = replace_classes(&once, &classes, 0).unwrap();
    assert_eq!(twice, once);
}

// A self-referential class cannot be flattened; the recursive reference is
// reported instead of diverging.
#[test]
fn recursive_class_reference_is_reported() {
    let classes = vec![class("a", "x<a>", 1)];
    assert!(matches!(
        replace_classes("<a>", &classes, 1),
        Err(Error::Parse(ParseError::RecursiveClassReference, 1))
    ));
}

#[test]
fn substitution_errors_on_unbalanced_references() {
    let classes = example_classes();
    assert!(matches!(
        replace_classes("⟨C⟩⟩", &classes, 3),
        Err(Error::Parse(ParseError::UnexpectedClassNameClose, 3))
    ));
    assert!(matches!(
        replace_classes("⟨C⟨V⟩⟩", &classes, 4),
        Err(Error::Parse(ParseError::UnexpectedClassNameOpen, 4))
    ));
    assert!(matches!(
        replace_classes("⟨C", &classes, 5),
        Err(Error::Parse(ParseError::UnexpectedPatternEnd, 5))
    ));
}
