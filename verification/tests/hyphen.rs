use karyll::hyphen::dictionary_for;
use karyll::language::Language;

/// The CJK languages have no dictionary.
#[test]
fn a_language_that_does_not_hyphenate_has_no_dictionary() {
    for language in [
        Language::Chinese,
        Language::ChineseTraditional,
        Language::Japanese,
        Language::Korean,
    ] {
        assert!(
            dictionary_for(language).is_none(),
            "{language:?} is offered a dictionary"
        );
    }
}
