use kcd_bilingual_generator_rust::bilingual_generator_errors::BilingualGeneratorError;
use kcd_bilingual_generator_rust::pipeline::{
    missing_data_message_of, pair_is_ready, remove_name, required_languages_of, success_message_of,
    unnamed_success_message_of, Phase, Pipeline, ENGLISH,
};

fn pair(primary: &str, secondary: &str) -> (String, String) {
    (primary.to_string(), secondary.to_string())
}

fn names(items: &[&str]) -> Vec<String> {
    items.iter().map(|name| name.to_string()).collect()
}

#[test]
fn english_is_always_required() {
    assert_eq!(ENGLISH, "English");
    assert_eq!(required_languages_of(&vec![]), names(&["English"]));
    assert_eq!(
        required_languages_of(&vec![pair("Chineses", "French"), pair("German", "Chineses"), pair("English", "French")]),
        names(&["English", "Chineses", "French", "German"])
    );
}

#[test]
fn pair_is_ready_with_its_languages_and_english() {
    assert!(pair_is_ready("Czech", "French", &names(&["French", "English", "Czech"])));
    assert!(!pair_is_ready("Czech", "French", &names(&["French", "Czech"])));
    assert!(!pair_is_ready("Czech", "French", &names(&["English", "Czech"])));
    assert!(!pair_is_ready("Czech", "French", &names(&["English", "French"])));
    assert!(pair_is_ready("English", "English", &names(&["English"])));
}

#[test]
fn names_are_removed_wherever_they_stand() {
    assert_eq!(remove_name(&names(&["a", "b", "a", "c"]), "a"), names(&["b", "c"]));
    assert_eq!(remove_name(&names(&["a"]), "x"), names(&["a"]));
}

#[test]
fn labels_are_made_from_folder_names() {
    assert_eq!(
        success_message_of("Chineses + English"),
        "primary_language = Chineses, secondary_language = English"
    );
    assert_eq!(success_message_of("Chineses"), "Successfully processed pair (dir: Chineses)");
    assert_eq!(success_message_of("A + B + C"), "Successfully processed pair (dir: A + B + C)");
    assert_eq!(success_message_of(" + "), "primary_language = , secondary_language = ");
    assert_eq!(
        unnamed_success_message_of("out\\Localization"),
        "Successfully processed pair (path: out\\Localization)"
    );
}

#[test]
fn waiting_pairs_are_named_in_the_failure() {
    assert_eq!(
        missing_data_message_of(&vec![pair("Czech", "French")]),
        "Failed to process pairs due to missing data: [(\"Czech\", \"French\")]"
    );
    assert_eq!(
        missing_data_message_of(&vec![pair("Czech", "French"), pair("German", "English")]),
        "Failed to process pairs due to missing data: [(\"Czech\", \"French\"), (\"German\", \"English\")]"
    );
    assert_eq!(missing_data_message_of(&vec![]), "Failed to process pairs due to missing data: []");
}

#[test]
fn run_without_pairs_reads_nothing_and_ends_well() {
    let run = Pipeline::new(Vec::new());
    assert!(run.awaited_languages().is_empty());
    assert_eq!(run.phase(), Phase::Terminal);
    let outcome = run.finish();
    assert!(outcome.processed.is_empty());
    assert!(outcome.failures.is_empty());
    assert_eq!(outcome.into_result().unwrap(), Vec::<String>::new());
}

#[test]
fn pairs_are_handed_out_as_soon_as_their_languages_are_read() {
    let mut run = Pipeline::new(vec![pair("Czech", "French"), pair("Czech", "English"), pair("German", "Czech")]);
    assert_eq!(run.awaited_languages(), names(&["English", "Czech", "French", "German"]));
    assert_eq!(run.phase(), Phase::Reading);

    assert_eq!(run.language_finished("Czech", None), Vec::new());
    assert_eq!(run.awaited_languages(), names(&["English", "French", "German"]));
    assert_eq!(
        run.pending_pairs(),
        vec![pair("Czech", "French"), pair("Czech", "English"), pair("German", "Czech")]
    );
    assert_eq!(run.language_finished("English", None), vec![pair("Czech", "English")]);
    assert_eq!(run.phase(), Phase::Reading);
    run.pair_finished(Ok(success_message_of("Czech + English")));
    assert_eq!(run.language_finished("German", None), vec![pair("German", "Czech")]);
    assert_eq!(run.pending_pairs(), vec![pair("Czech", "French")]);
    assert_eq!(run.language_finished("French", None), vec![pair("Czech", "French")]);
    assert!(run.pending_pairs().is_empty());
    assert_eq!(run.phase(), Phase::Draining);
    run.pair_finished(Ok(success_message_of("German + Czech")));
    assert_eq!(run.phase(), Phase::Draining);
    run.pair_finished(Ok(success_message_of("Czech + French")));
    assert_eq!(run.phase(), Phase::Terminal);

    let outcome = run.finish();
    assert!(outcome.failures.is_empty());
    assert_eq!(
        outcome.into_result().unwrap(),
        names(&[
            "primary_language = Czech, secondary_language = English",
            "primary_language = German, secondary_language = Czech",
            "primary_language = Czech, secondary_language = French"
        ])
    );
}

#[test]
fn language_that_cannot_be_read_holds_back_its_pairs_only() {
    let mut run = Pipeline::new(vec![pair("Czech", "French"), pair("German", "English"), pair("French", "German")]);
    assert_eq!(run.language_finished("English", None), Vec::new());
    assert_eq!(run.language_finished("French", Some(BilingualGeneratorError::PakExtractionFailed)), Vec::new());
    assert_eq!(run.language_finished("Czech", None), Vec::new());
    assert_eq!(run.language_finished("German", None), vec![pair("German", "English")]);
    assert_eq!(run.phase(), Phase::Draining);
    run.pair_finished(Ok(success_message_of("German + English")));
    assert_eq!(run.phase(), Phase::Terminal);

    let outcome = run.finish();
    // The pair that did not need the language is reported as processed.
    assert_eq!(outcome.processed, names(&["primary_language = German, secondary_language = English"]));
    // The first failure is that of the language; the pairs left waiting come last.
    assert_eq!(outcome.failures.len(), 2);
    assert!(matches!(&outcome.failures[0], BilingualGeneratorError::PakExtractionFailed));
    match &outcome.failures[1] {
        BilingualGeneratorError::XmlProcessingFailed(message) => assert_eq!(
            message,
            "Failed to process pairs due to missing data: [(\"Czech\", \"French\"), (\"French\", \"German\")]"
        ),
        other => panic!("unexpected {:?}", other),
    }
    assert!(matches!(outcome.into_result(), Err(BilingualGeneratorError::PakExtractionFailed)));
}

#[test]
fn failure_of_english_holds_back_every_pair() {
    let mut run = Pipeline::new(vec![pair("Czech", "French")]);
    assert_eq!(run.language_finished("Czech", None), Vec::new());
    assert_eq!(run.language_finished("French", None), Vec::new());
    assert_eq!(
        run.language_finished("English", Some(BilingualGeneratorError::XmlProcessingFailed("bad".to_string()))),
        Vec::new()
    );
    assert_eq!(run.phase(), Phase::Terminal);
    let outcome = run.finish();
    assert_eq!(outcome.failures.len(), 2);
    assert!(matches!(outcome.into_result(), Err(BilingualGeneratorError::XmlProcessingFailed(ref message)) if message == "bad"));
}

#[test]
fn failures_of_pairs_come_in_the_order_reported() {
    let mut run = Pipeline::new(vec![pair("Czech", "English"), pair("German", "English")]);
    run.language_finished("English", None);
    assert_eq!(run.language_finished("Czech", None), vec![pair("Czech", "English")]);
    assert_eq!(run.language_finished("German", None), vec![pair("German", "English")]);
    run.pair_finished(Err(BilingualGeneratorError::PakCreationFailed));
    run.pair_finished(Ok(success_message_of("German + English")));
    run.pair_finished(Err(BilingualGeneratorError::TaskJoinError("late".to_string())));
    let outcome = run.finish();
    assert_eq!(outcome.processed, names(&["primary_language = German, secondary_language = English"]));
    assert_eq!(outcome.failures.len(), 2);
    assert!(matches!(&outcome.failures[0], BilingualGeneratorError::PakCreationFailed));
    assert!(matches!(&outcome.failures[1], BilingualGeneratorError::TaskJoinError(detail) if detail == "late"));
    assert!(matches!(outcome.into_result(), Err(BilingualGeneratorError::PakCreationFailed)));
}

#[test]
fn run_ended_early_reports_the_pairs_left_waiting() {
    let run = Pipeline::new(vec![pair("Czech", "English")]);
    let outcome = run.finish();
    assert_eq!(outcome.failures.len(), 1);
    match outcome.into_result() {
        Err(BilingualGeneratorError::XmlProcessingFailed(message)) => assert_eq!(
            message,
            "Failed to process pairs due to missing data: [(\"Czech\", \"English\")]"
        ),
        other => panic!("unexpected {:?}", other),
    }
}

#[test]
fn language_read_twice_is_available_once() {
    let mut run = Pipeline::new(vec![pair("English", "English"), pair("English", "Czech")]);
    assert_eq!(run.language_finished("English", None), vec![pair("English", "English")]);
    assert_eq!(run.language_finished("English", None), Vec::new());
    assert_eq!(run.awaited_languages(), names(&["Czech"]));
    assert_eq!(run.language_finished("Czech", None), vec![pair("English", "Czech")]);
}
