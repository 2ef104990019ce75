use kcd_bilingual_generator_rust::bilingual_generator_errors::BilingualGeneratorError;
use kcd_bilingual_generator_rust::bilingual_set::{
    add_language, read_bilingual_set, read_pair_line, ParsedLine, PAIR_SEPARATOR,
};
use kcd_bilingual_generator_rust::text::names_contain;

fn lines(items: &[&str]) -> Vec<String> {
    items.iter().map(|line| line.to_string()).collect()
}

fn pair(primary: &str, secondary: &str) -> (String, String) {
    (primary.to_string(), secondary.to_string())
}

#[test]
fn line_with_one_separator_is_a_pair() {
    assert_eq!(PAIR_SEPARATOR, "+");
    assert!(matches!(read_pair_line("Chineses+English"), ParsedLine::Pair(p, s) if p == "Chineses" && s == "English"));
    assert!(matches!(read_pair_line("  Chineses  +  French \r"), ParsedLine::Pair(p, s) if p == "Chineses" && s == "French"));
    assert!(matches!(read_pair_line("+English"), ParsedLine::Pair(p, s) if p.is_empty() && s == "English"));
    assert!(matches!(read_pair_line("Czech+"), ParsedLine::Pair(p, s) if p == "Czech" && s.is_empty()));
    assert!(matches!(read_pair_line("+"), ParsedLine::Pair(p, s) if p.is_empty() && s.is_empty()));
}

#[test]
fn blank_line_is_blank() {
    assert!(matches!(read_pair_line(""), ParsedLine::Blank));
    assert!(matches!(read_pair_line("   \t "), ParsedLine::Blank));
}

#[test]
fn line_without_exactly_one_separator_is_invalid() {
    assert!(matches!(read_pair_line("Chineses"), ParsedLine::Invalid));
    assert!(matches!(read_pair_line("Chineses English"), ParsedLine::Invalid));
    assert!(matches!(read_pair_line("a+b+c"), ParsedLine::Invalid));
    assert!(matches!(read_pair_line("a++b"), ParsedLine::Invalid));
}

#[test]
fn set_is_read_in_order_and_languages_are_added_once() {
    let mut languages = lines(&["Chineses", "English"]);
    let set = read_bilingual_set(
        &lines(&["Chineses+English", "", "  ", "Chineses + French", "German+Chineses", "German+French"]),
        &mut languages,
    )
    .unwrap();
    assert_eq!(
        set,
        vec![
            pair("Chineses", "English"),
            pair("Chineses", "French"),
            pair("German", "Chineses"),
            pair("German", "French")
        ]
    );
    assert_eq!(languages, lines(&["Chineses", "English", "French", "German"]));
}

#[test]
fn empty_set_is_accepted() {
    let mut languages = lines(&["Chineses", "English"]);
    assert_eq!(read_bilingual_set(&lines(&[]), &mut languages).unwrap(), Vec::new());
    assert_eq!(read_bilingual_set(&lines(&["", " "]), &mut languages).unwrap(), Vec::new());
    assert_eq!(languages, lines(&["Chineses", "English"]));
}

#[test]
fn first_invalid_line_is_reported_as_it_stands() {
    let mut languages = lines(&["English"]);
    let outcome = read_bilingual_set(
        &lines(&["Czech+English", "  Chineses English  ", "German+French", "also bad"]),
        &mut languages,
    );
    match outcome {
        Err(BilingualGeneratorError::InvalidBilingualSet(line)) => assert_eq!(line, "  Chineses English  "),
        other => panic!("unexpected {:?}", other),
    }
    // The pair before the refused line has added its language, the pair after it has not.
    assert_eq!(languages, lines(&["English", "Czech"]));
}

#[test]
fn languages_are_looked_up_and_added_by_name() {
    let mut languages = lines(&["English"]);
    assert!(names_contain(&languages, "English"));
    assert!(!names_contain(&languages, "english"));
    add_language(&mut languages, "Czech");
    add_language(&mut languages, "English");
    add_language(&mut languages, "Czech");
    assert_eq!(languages, lines(&["English", "Czech"]));
}
