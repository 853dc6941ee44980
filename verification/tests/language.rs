use karyll::font::Group;
use karyll::ime::Script;
use karyll::keymap::Layout;
use karyll::language::{font_groups, read_languages, toggle, write_languages, Language};
use karyll::script::Region;

/// A language names its keyboard. Pinyin and romaji are both defined
/// against the QWERTY letter arrangement: Chinese and Japanese are US
/// however the last prose was typed.
#[test]
fn each_language_names_its_own_layout() {
    assert_eq!(Language::English.layout(), Layout::Us);
    assert_eq!(Language::German.layout(), Layout::German);
    assert_eq!(Language::Chinese.layout(), Layout::Us);
    assert_eq!(Language::Japanese.layout(), Layout::Us);
}

#[test]
fn cycling_visits_every_enabled_language_and_returns() {
    let all = Language::ALL;
    let mut seen = Vec::new();
    let mut language = Language::default();
    for _ in 0..all.len() {
        seen.push(language);
        language = language.next(&all);
    }
    assert_eq!(language, Language::default(), "the cycle does not close");
    let mut sorted = seen.clone();
    sorted.dedup();
    assert_eq!(sorted.len(), all.len(), "a language is skipped");
}

#[test]
fn cycling_skips_the_ones_that_are_switched_off() {
    // Two enabled sources cycle in two presses.
    let two = [Language::English, Language::Japanese];
    assert_eq!(Language::English.next(&two), Language::Japanese);
    assert_eq!(Language::Japanese.next(&two), Language::English);
}

#[test]
fn one_language_on_its_own_cycles_to_itself() {
    let one = [Language::German];
    assert_eq!(Language::German.next(&one), Language::German);
}

#[test]
fn a_language_switched_off_still_has_somewhere_to_go() {
    // Turning off the source in use leaves the keyboard somewhere the
    // cycle reaches, moving forward from where that source sat.
    let rest = [Language::English, Language::Japanese];
    assert_eq!(Language::German.next(&rest), Language::Japanese);
    assert_eq!(Language::ChineseTraditional.next(&rest), Language::Japanese);
}

/// Only the CJK languages load an engine; the Latin ones must not pay
/// for one, and must keep working if every plugin is missing.
#[test]
fn only_the_cjk_languages_want_an_input_method() {
    assert_eq!(Language::Chinese.script(), Some(Script::Chinese));
    assert_eq!(
        Language::ChineseTraditional.script(),
        Some(Script::Chinese)
    );
    assert_eq!(Language::Japanese.script(), Some(Script::Japanese));
    assert_eq!(Language::English.script(), None);
    assert_eq!(Language::German.script(), None);
}

/// Both Chinese entries share an engine — one plugin, one dictionary —
/// while Japanese is a separate one. The failures are loading the
/// plugin twice and asking XT9 for kana.
#[test]
fn the_chinese_entries_share_an_engine_and_japanese_does_not() {
    assert_eq!(
        Language::Chinese.script(),
        Language::ChineseTraditional.script()
    );
    assert_ne!(Language::Japanese.script(), Language::Chinese.script());
}

/// The Han faces follow the language, and the Latin languages leave
/// them alone: switching to English to type one word in the middle of a
/// Japanese paragraph must not re-cut the kanji around it.
#[test]
fn each_cjk_language_names_its_own_han_convention() {
    assert_eq!(Language::Chinese.region(), Some(Region::Simplified));
    assert_eq!(
        Language::ChineseTraditional.region(),
        Some(Region::Traditional)
    );
    assert_eq!(Language::Japanese.region(), Some(Region::Japanese));
    assert_eq!(Language::English.region(), None);
    assert_eq!(Language::German.region(), None);
}

/// Both Chinese entries are the same pinyin engine on the same QWERTY
/// arrangement — they differ only in whether the candidates are
/// converted: the device has exactly one Chinese dictionary.
#[test]
fn the_two_chinese_entries_differ_only_in_script() {
    assert_eq!(
        Language::Chinese.layout(),
        Language::ChineseTraditional.layout()
    );
    assert!(!Language::Chinese.traditional());
    assert!(Language::ChineseTraditional.traditional());
}

/// Nothing but Traditional asks for conversion. A Latin language
/// reaching the converter is the engine consulted for text it never
/// produced.
#[test]
fn only_traditional_converts() {
    assert_eq!(Language::ALL.iter().filter(|l| l.traditional()).count(), 1);
}

/// The remembered letter survives a round trip.
#[test]
fn every_language_survives_being_written_down() {
    for language in Language::ALL {
        let letter = language.letter().to_string();
        assert_eq!(Language::from_letter(&letter), language);
    }
}

#[test]
fn a_letter_is_read_without_the_line_it_is_on() {
    assert_eq!(Language::from_letter(" k\n"), Language::Korean);
    assert_eq!(Language::from_letter("kk"), Language::English);
    assert_eq!(Language::from_letter(""), Language::English);
}

#[test]
fn two_latin_languages_are_one_font_row() {
    assert_eq!(
        font_groups(&[Language::English, Language::German]),
        vec![Group::Latin],
        "one setting, so one row"
    );
    assert_eq!(
        font_groups(&[Language::German, Language::Japanese]),
        vec![Group::Latin, Group::Han(Region::Japanese)]
    );
    // Turned off is not offered: the panel is built from the enabled set.
    assert_eq!(
        font_groups(&[Language::Chinese]),
        vec![Group::Han(Region::Simplified)]
    );
    // The two conventions are separate settings: Han unification gives
    // them one code point and two correct glyphs.
    assert_eq!(
        font_groups(&[Language::Chinese, Language::ChineseTraditional]),
        vec![
            Group::Han(Region::Simplified),
            Group::Han(Region::Traditional)
        ]
    );
    // Korean is a row of its own: the Korean faces carry no Hanja and the
    // Han faces carry no Hangul.
    assert_eq!(font_groups(&[Language::Korean]), vec![Group::Hangul]);
    assert_eq!(
        font_groups(&[Language::English, Language::Japanese, Language::Korean]),
        vec![
            Group::Latin,
            Group::Han(Region::Japanese),
            Group::Hangul
        ]
    );
}

#[test]
fn the_enabled_set_survives_being_written_down() {
    let some = vec![Language::English, Language::Chinese, Language::Korean];
    assert_eq!(write_languages(&some), "eck");
    assert_eq!(read_languages("eck"), some);
    assert_eq!(read_languages("kce"), some, "the cycle's order, not the file's");
    assert_eq!(read_languages(""), Language::ALL.to_vec());
    assert_eq!(read_languages("xyz"), Language::ALL.to_vec());
}

#[test]
fn the_last_language_cannot_be_switched_off() {
    let mut enabled = vec![Language::German];
    assert!(!toggle(&mut enabled, Language::German));
    assert_eq!(enabled, vec![Language::German]);
    assert!(toggle(&mut enabled, Language::English));
    assert_eq!(enabled, vec![Language::English, Language::German]);
    assert!(toggle(&mut enabled, Language::German));
    assert_eq!(enabled, vec![Language::English]);
}

#[test]
fn each_language_is_labelled_in_its_own_script() {
    let labels: Vec<&str> = Language::ALL.iter().map(|l| l.label()).collect();
    assert_eq!(labels, vec!["EN", "DE", "简", "繁", "日", "한"]);
}
