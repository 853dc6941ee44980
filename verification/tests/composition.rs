use karyll::composition::{
    candidate_page, display, document_index, overlay, page_composition, sink_for, Composed,
    Composition, Overlay, Sink,
};
use karyll::ime::{Compose, Ime, KanaStub, Rest, Script, Stub};
use karyll::keymap::Action;
use karyll::language::Language;

fn list() -> Vec<String> {
    "你好吗我们".chars().map(|c| c.to_string()).collect()
}

#[test]
fn a_page_is_the_run_between_its_start_and_the_next_ones() {
    let list = list();
    let pages = vec![0, 2];
    assert_eq!(candidate_page(&list, &pages, 0), &list[0..2]);
    assert_eq!(
        candidate_page(&list, &pages, 1),
        &list[2..5],
        "the last page runs to the end of the list"
    );
}

/// **A page that is not there is empty, not a panic.** The list is
/// replaced on every keystroke and can be shorter than it was, and a
/// slice past the end of it takes the editor down mid-word.
#[test]
fn a_page_past_the_end_is_empty() {
    assert!(candidate_page(&list(), &[0, 2], 2).is_empty());
    assert!(candidate_page(&list(), &[], 0).is_empty());
    assert!(candidate_page(&[], &[0], 0).is_empty());
    assert!(candidate_page(&list(), &[0, 99], 1).is_empty());
}

#[test]
fn text_before_the_preedit_is_at_the_same_index_in_both_spaces() {
    // Cursor at 5 with three characters composing. Everything up to the
    // cursor is untouched by the splice.
    assert_eq!(document_index(0, 5, 3), 0);
    assert_eq!(document_index(5, 5, 3), 5);
}

#[test]
fn text_after_the_preedit_is_that_much_further_along_on_screen() {
    // Display 8 is the first character after a three-long preedit, and it
    // is document 5 — the character the cursor is sitting before.
    assert_eq!(document_index(8, 5, 3), 5);
    assert_eq!(document_index(12, 5, 3), 9);
}

#[test]
fn the_preedit_itself_collapses_onto_the_cursor() {
    // Its characters are in no document position at all — tapping one has
    // to mean the place the word is being written into.
    for display in 6..=8 {
        assert_eq!(document_index(display, 5, 3), 5, "display {display}");
    }
}

#[test]
fn with_nothing_composing_the_two_spaces_are_the_same() {
    for display in 0..12 {
        assert_eq!(document_index(display, 5, 0), display);
    }
}

#[test]
fn a_field_over_the_page_takes_the_keystrokes() {
    assert_eq!(sink_for(false, false), Sink::Page);
    assert_eq!(sink_for(false, true), Sink::Find);
    assert_eq!(sink_for(true, false), Sink::Name);
    // A panel covers the page, and a bar under a panel is not reachable.
    // The two cannot both be open — the find bar takes the strip — and the
    // precedence is stated, not left to a branch order.
    assert_eq!(sink_for(true, true), Sink::Name);
}

#[test]
fn a_composition_bound_elsewhere_is_not_in_the_document() {
    // The page splices its composition into the text, which moves every
    // index after the cursor. A word typed into the find bar moves nothing:
    // the hits are document indices.
    assert_eq!(page_composition("にほん", Sink::Page), "にほん");
    assert_eq!(page_composition("にほん", Sink::Find), "");
    assert_eq!(page_composition("にほん", Sink::Name), "");

    let composing = page_composition("にほん", Sink::Find).chars().count();
    for display in 0..12 {
        assert_eq!(document_index(display, 5, composing), display);
    }
}

#[test]
fn the_screen_shows_the_word_at_the_cursor() {
    let chars: Vec<char> = "ab\ncd".chars().collect();
    let (shown, span) = display(chars.clone(), 2, "にほ");
    assert_eq!(shown.iter().collect::<String>(), "abにほ\ncd");
    assert_eq!(span, Some((2, 4)));
    assert_eq!(display(chars.clone(), 2, ""), (chars.clone(), None));
    assert_eq!(display(chars, 99, "x").1, Some((5, 6)));
}

#[test]
fn candidates_outrank_a_notice() {
    let list = list();
    assert!(matches!(
        overlay(&list, Some("AB")),
        Overlay::Candidates(c) if c.len() == 5
    ));
    assert!(matches!(overlay(&[], Some("AB")), Overlay::Notice("AB")));
    assert!(matches!(overlay(&[], None), Overlay::Nothing));
}

/// Pages of two.
fn in_twos(candidates: &Vec<String>) -> Vec<usize> {
    (0..candidates.len()).step_by(2).collect()
}

/// Type keys towards a word.
fn type_keys(word: &mut Composition, engine: &mut Option<Stub>, keys: &str) -> Vec<String> {
    let mut out = Vec::new();
    for c in keys.chars() {
        let took = word.key(
            engine,
            &Action::Insert(c),
            Language::Chinese,
            true,
            &in_twos,
            &mut out,
        );
        assert_eq!(took, Composed::Took);
    }
    out
}

#[test]
fn pinyin_is_composed_and_a_digit_takes_a_candidate() {
    let mut word = Composition::new();
    let mut engine = Some(Stub::new());
    assert!(type_keys(&mut word, &mut engine, "ni").is_empty());
    assert!(word.composing());
    assert_eq!(word.typed, "ni");
    assert_eq!(word.preedit, "ni");
    assert_eq!(word.candidates.len(), 5);
    assert_eq!(word.pages, vec![0, 2, 4]);
    // The third page holds one, and its second place nothing.
    let mut out = Vec::new();
    for _ in 0..5 {
        word.key(&mut engine, &Action::Right, Language::Chinese, true, &in_twos, &mut out);
    }
    assert_eq!(word.page, 2, "the pages end where they end");
    assert!(type_keys(&mut word, &mut engine, "2").is_empty());
    assert_eq!(word.page, 2);
    assert_eq!(type_keys(&mut word, &mut engine, "1"), vec!["逆"]);
    assert!(!word.composing());
    assert_eq!(word.typed, "");
}

#[test]
fn a_candidate_that_covers_the_front_leaves_the_rest_composing() {
    let mut word = Composition::new();
    let mut engine = Some(Stub::new());
    type_keys(&mut word, &mut engine, "shijie");
    word.page = 1;
    assert_eq!(type_keys(&mut word, &mut engine, "2"), vec!["十"]);
    assert!(word.composing());
    assert_eq!(word.preedit, "jie");
    assert_eq!(word.candidates[0], "界");
    // A mark takes the best of what is left, and follows it.
    assert_eq!(type_keys(&mut word, &mut engine, ","), vec!["界", "，"]);
    assert!(!word.composing());
}

#[test]
fn a_capital_ends_the_word_and_lands_on_the_page() {
    let mut word = Composition::new();
    let mut engine = Some(Stub::new());
    type_keys(&mut word, &mut engine, "nihao");
    assert_eq!(type_keys(&mut word, &mut engine, "N"), vec!["你好", "N"]);
}

#[test]
fn the_letters_or_the_composition_are_taken_as_they_stand() {
    let mut out = Vec::new();
    let mut word = Composition::new();
    let mut engine = Some(KanaStub::new());
    for c in "nihon".chars() {
        word.plugin(&mut engine, Compose::Feed(c), Script::Japanese, &in_twos, &mut out);
    }
    assert_eq!(word.preedit, "にほん");
    word.plugin(&mut engine, Compose::CommitRaw, Script::Japanese, &in_twos, &mut out);
    assert_eq!(out, vec!["にほん"]);
    for c in "nihon".chars() {
        word.plugin(&mut engine, Compose::Feed(c), Script::Japanese, &in_twos, &mut out);
    }
    word.plugin(&mut engine, Compose::CommitTyped, Script::Japanese, &in_twos, &mut out);
    assert_eq!(out, vec!["にほん", "nihon"]);
    assert!(!word.composing());
    assert_eq!(engine.as_ref().unwrap().typed, "");
}

#[test]
fn backspace_shortens_the_word_until_it_is_gone() {
    let mut out = Vec::new();
    let mut word = Composition::new();
    let mut engine = Some(Stub::new());
    type_keys(&mut word, &mut engine, "ni");
    for (typed, offered) in [("n", 5), ("", 0)] {
        word.key(&mut engine, &Action::Backspace, Language::Chinese, true, &in_twos, &mut out);
        assert_eq!(word.typed, typed);
        assert_eq!(word.candidates.len(), offered);
    }
    assert!(out.is_empty());
    // With nothing offered an arrow drops the word.
    type_keys(&mut word, &mut engine, "zz");
    assert!(word.composing());
    word.key(&mut engine, &Action::Left, Language::Chinese, true, &in_twos, &mut out);
    assert!(!word.composing());
    let esc = word.key(&mut engine, &Action::Escape, Language::Chinese, true, &in_twos, &mut out);
    assert_eq!(esc, Composed::Passed);
}

#[test]
fn hangul_is_composed_without_an_engine() {
    let mut out = Vec::new();
    let mut word = Composition::new();
    let mut none: Option<Stub> = None;
    for c in "gksk".chars() {
        word.key(&mut none, &Action::Insert(c), Language::Korean, true, &in_twos, &mut out);
    }
    assert_eq!(out, vec!["하"]);
    assert_eq!(word.preedit, "나");
    word.key(&mut none, &Action::Backspace, Language::Korean, true, &in_twos, &mut out);
    assert_eq!(word.preedit, "ㄴ");
    let space = word.key(
        &mut none,
        &Action::Insert(' '),
        Language::Korean,
        true,
        &in_twos,
        &mut out,
    );
    assert_eq!(space, Composed::Finished);
    assert_eq!(out, vec!["하", "ㄴ"]);
    assert!(!word.composing());
}

#[test]
fn a_latin_language_passes_every_key() {
    let mut out = Vec::new();
    let mut word = Composition::new();
    let mut engine = Some(Stub::new());
    for (language, on) in [(Language::English, true), (Language::Chinese, false)] {
        let r = word.key(&mut engine, &Action::Insert('n'), language, on, &in_twos, &mut out);
        assert_eq!(r, Composed::Passed);
    }
    assert_eq!(engine.as_mut().unwrap().key('n').len(), 5);
}

/// An engine that hands back what it was given.
struct Stuck;

impl Ime for Stuck {
    fn key(&mut self, _key: char) -> Vec<String> {
        vec!["再".into()]
    }
    fn commit(&mut self, _index: usize) -> Option<Rest> {
        Some(Rest {
            reading: "zai".into(),
            candidates: vec!["再".into()],
        })
    }
    fn clear(&mut self) {}
    fn set_traditional(&mut self, _traditional: bool) {}
    fn preedit(&self) -> Option<String> {
        None
    }
}

#[test]
fn an_engine_that_never_finishes_is_given_up_on() {
    let mut out = Vec::new();
    let mut word = Composition::new();
    let mut engine = Some(Stuck);
    for c in "zai".chars() {
        word.plugin(&mut engine, Compose::Feed(c), Script::Chinese, &in_twos, &mut out);
    }
    word.commit(&mut engine, Script::Chinese, &in_twos, &mut out);
    assert_eq!(out, vec!["再", "再", "再", "再", "zai"]);
    assert!(!word.composing());
}

#[test]
fn the_pages_joined_are_the_list() {
    let list = list();
    for pages in [vec![0], vec![0, 2], vec![0, 2, 2, 5], vec![0, 9]] {
        let joined: Vec<String> = (0..pages.len())
            .flat_map(|at| candidate_page(&list, &pages, at).to_vec())
            .collect();
        assert_eq!(joined, list, "{pages:?}");
        assert!(candidate_page(&list, &pages, pages.len()).is_empty());
        assert!(candidate_page(&list, &pages, usize::MAX).is_empty());
    }
}

/// An engine that keeps what it was told: the candidates, the keys, and how often it
/// was emptied.
struct Told(Vec<usize>, String, usize);

impl Ime for Told {
    fn key(&mut self, key: char) -> Vec<String> {
        self.1.push(key);
        list()
    }
    fn commit(&mut self, index: usize) -> Option<Rest> {
        self.0.push(index);
        None
    }
    fn clear(&mut self) {
        self.2 += 1;
    }
    fn set_traditional(&mut self, _traditional: bool) {}
    fn preedit(&self) -> Option<String> {
        None
    }
}

#[test]
fn the_engine_is_told_which_candidate_was_taken() {
    let mut word = Composition::new();
    let mut out = Vec::new();
    let mut engine = Some(Told(Vec::new(), String::new(), 0));
    word.feed(&mut engine, 'n', &in_twos);
    assert_eq!(word.pages, vec![0, 2, 4]);
    word.page = 1;
    assert_eq!((word.index_of(0), word.index_of(1)), (Some(2), Some(3)));
    assert_eq!(word.index_of(2), None);
    word.select(&mut engine, 1, &in_twos, &mut out);
    assert_eq!(out, vec!["我"]);
    assert_eq!(engine.unwrap().0, vec![3]);
    word.page = usize::MAX;
    assert_eq!(word.index_of(0), None);
}

fn rest(reading: &str, candidates: &[&str]) -> Option<Rest> {
    Some(Rest {
        reading: reading.into(),
        candidates: candidates.iter().map(|c| c.to_string()).collect(),
    })
}

/// A word with some candidates, on their pages.
fn offered(candidates: &[&str]) -> Composition {
    let mut word = Composition::new();
    word.typed = "nihaoma".into();
    word.preedit = "nihaoma".into();
    word.set_candidates(candidates.iter().map(|c| c.to_string()).collect(), &in_twos);
    word
}

#[test]
fn finishing_goes_on_while_something_is_offered() {
    let mut out = Vec::new();
    let mut word = offered(&["你", "泥"]);
    assert!(word.finishing(rest("haoma", &["好", "号", "毫"]), 0, 7, &in_twos, &mut out));
    assert_eq!(out, vec!["你"]);
    assert_eq!((word.typed.as_str(), word.preedit.as_str()), ("haoma", "haoma"));
    assert_eq!(word.pages, vec![0, 2]);
    // Nothing is offered for what is left: it goes as it is composed.
    assert!(!word.finishing(rest("ma", &[]), 1, 7, &in_twos, &mut out));
    assert_eq!(out, vec!["你", "好", "ma"]);
    assert!(!word.composing() && word.typed.is_empty());
}

#[test]
fn finishing_ends_with_the_last_pass_or_with_the_word() {
    let mut out = Vec::new();
    let mut word = offered(&["你"]);
    assert!(!word.finishing(rest("hao", &["好"]), 7, 7, &in_twos, &mut out));
    assert_eq!(out, vec!["你", "hao"]);
    assert!(!word.composing());
    let mut word = offered(&["你好吗"]);
    assert!(!word.finishing(None, 0, 7, &in_twos, &mut out));
    assert_eq!(out, vec!["你", "hao", "你好吗"]);
    assert!(!word.composing());
    // With no candidate on the bar there is none to commit.
    let mut word = offered(&[]);
    assert!(!word.finishing(None, 0, 7, &in_twos, &mut out));
    assert_eq!(out.len(), 3);
}

#[test]
fn a_mark_follows_the_whole_word() {
    let mut word = Composition::new();
    let mut engine = Some(Stub::new());
    assert_eq!(type_keys(&mut word, &mut engine, "nihao,"), vec!["你好", "，"]);
}

#[test]
fn what_the_engine_offers_is_on_the_bar() {
    let mut word = Composition::new();
    word.fed(list(), Some("ni".into()), &in_twos);
    assert_eq!(candidate_page(&word.candidates, &word.pages, word.page), &list()[0..2]);
    word.took(rest("hao", &["好", "号", "毫"]), &in_twos);
    assert_eq!(word.pages, vec![0, 2]);
}

#[test]
fn the_engine_is_given_the_keys_that_were_struck() {
    let mut word = Composition::new();
    let mut out = Vec::new();
    let mut engine = Some(Told(Vec::new(), String::new(), 0));
    for action in [
        Action::Insert('n'),
        Action::Insert('i'),
        Action::Backspace,
        Action::Right,
        Action::Insert('3'),
        Action::Insert('h'),
        Action::Insert(','),
        Action::Insert('m'),
        Action::Escape,
    ] {
        word.key(&mut engine, &action, Language::Chinese, true, &in_twos, &mut out);
    }
    let Told(taken, keys, emptied) = engine.unwrap();
    assert_eq!(keys, "ni\u{8}hm");
    // The bar held two, so the third place took none; the mark took the first.
    assert_eq!(taken, vec![0]);
    assert_eq!(emptied, 1);
    assert_eq!(out, vec!["你", "，"]);
}
