use karyll::hangul::{initial_place, medial_place, split_coda};
use karyll::ime::{
    compose, compose_syllable, cstr, jamo_for, Compose, Ime, KanaStub, Korean, Punctuation, Script,
    Stub, CHOONPU,
};
use karyll::keymap::Action;
use karyll::maps::{locate, row};
use karyll::plugin::PLUGIN_ZH;

const CODAS: [char; 27] = [
    'ㄱ', 'ㄲ', 'ㄳ', 'ㄴ', 'ㄵ', 'ㄶ', 'ㄷ', 'ㄹ', 'ㄺ', 'ㄻ', 'ㄼ', 'ㄽ', 'ㄾ', 'ㄿ', 'ㅀ', 'ㅁ',
    'ㅂ', 'ㅄ', 'ㅅ', 'ㅆ', 'ㅇ', 'ㅈ', 'ㅊ', 'ㅋ', 'ㅌ', 'ㅍ', 'ㅎ',
];

/// Type `keys` as they are struck on a 두벌식 keyboard, and hand back what
/// is on the page: everything committed, with [`Korean::preedit`] after it.
fn typed(keys: &str) -> String {
    let mut korean = Korean::default();
    let mut page: String = keys.chars().map(|key| korean.key(key)).collect();
    page.push_str(&korean.preedit());
    page
}

#[test]
fn a_syllable_is_its_three_slots() {
    assert_eq!(compose_syllable('ㄱ', 'ㅏ', None), Some('가'));
    assert_eq!(compose_syllable('ㅎ', 'ㅏ', Some('ㄴ')), Some('한'));
    assert_eq!(compose_syllable('ㅇ', 'ㅏ', Some('ㄵ')), Some('앉'));
    // The last syllable of the block.
    assert_eq!(compose_syllable('ㅎ', 'ㅣ', Some('ㅎ')), Some('힣'));
}

/// The 받침 belongs to the syllable it was typed into until a vowel
/// arrives, and to the next one after that.
#[test]
fn a_vowel_takes_the_final_away() {
    assert_eq!(typed("gks"), "한");
    assert_eq!(typed("gksk"), "하나");
    assert_eq!(typed("dksw"), "앉");
    assert_eq!(typed("dkswk"), "안자");
}

/// A compound sends its tail and keeps its head as the 받침.
#[test]
fn a_compound_final_splits_rather_than_migrating_whole() {
    assert_eq!(typed("dlfg"), "잃");
    assert_eq!(typed("dlfgj"), "일허");
    assert_eq!(typed("dhkfrh"), "왈고");
}

#[test]
fn two_keys_make_one_vowel() {
    assert_eq!(typed("rhk"), "과");
    assert_eq!(typed("rho"), "괘");
    assert_eq!(typed("rhl"), "괴");
    assert_eq!(typed("rnj"), "궈");
    assert_eq!(typed("rnp"), "궤");
    assert_eq!(typed("rnl"), "귀");
    assert_eq!(typed("rml"), "긔");
    // A compound vowel composes with an empty 초성 in front of it.
    assert_eq!(typed("hk"), "ㅘ");
}

#[test]
fn two_keys_make_one_final() {
    assert_eq!(typed("ahrt"), "몫");
    assert_eq!(typed("djqt"), "없");
    assert_eq!(typed("ekfr"), "닭");
}

/// The consonants absent from [`CODAS`] open a syllable of their own.
#[test]
fn a_final_korean_never_writes_starts_a_syllable() {
    // ㄸ, ㅃ and ㅉ are initials only, so 가 followed by one is two
    // syllables.
    assert_eq!(typed("rkE"), "가ㄸ");
    assert_eq!(typed("rkEk"), "가따");
    // ㄲ and ㅆ are in CODAS, and stay put.
    assert_eq!(typed("dlT"), "있");
}

/// Whole words, typed the way they are typed.
///
/// 반갑습니다 carries a compound 받침 through one word: ㅂ takes ㅅ as ㅄ,
/// and the ㅡ after it splits the pair, leaving 갑 and carrying ㅅ into 스.
#[test]
fn words_come_out_as_words() {
    assert_eq!(typed("gksrmf"), "한글");
    assert_eq!(typed("dkssud"), "안녕");
    assert_eq!(typed("gksrnrdj"), "한국어");
    assert_eq!(typed("qksrkqtmqslek"), "반갑습니다");
}

/// A lone consonant and a lone vowel are correct text, and are what
/// [`Korean::preedit`] carries while a syllable is half typed.
#[test]
fn a_half_typed_syllable_shows_as_its_jamo() {
    assert_eq!(typed("r"), "ㄱ");
    assert_eq!(typed("k"), "ㅏ");
    assert_eq!(typed("rr"), "ㄱㄱ");
    assert_eq!(typed("kk"), "ㅏㅏ");
}

/// 앉 → 안 → 아 → ㅇ → nothing, one jamo at a time.
#[test]
fn backspace_decomposes_a_syllable() {
    let mut korean = Korean::default();
    for key in "dksw".chars() {
        korean.key(key);
    }
    for expected in ["앉", "안", "아", "ㅇ", ""] {
        assert_eq!(korean.preedit(), expected);
        assert_eq!(korean.backspace(), !expected.is_empty());
    }
    // Empty, and the keystroke is the document's.
    assert!(!korean.backspace());
    assert_eq!(korean.preedit(), "");
}

/// A compound falls back to its head.
#[test]
fn backspace_undoes_one_half_of_a_compound() {
    let mut korean = Korean::default();
    for key in "rhk".chars() {
        korean.key(key);
    }
    assert_eq!(korean.preedit(), "과");
    korean.backspace();
    assert_eq!(korean.preedit(), "고");
}

/// Every tail a 받침 can send is in [`INITIALS`], so the migration in
/// `Korean::vowel` always has a slot to land in.
#[test]
fn every_final_can_become_an_initial() {
    for coda in CODAS {
        let moves = split_coda(coda).map_or(coda, |(_, tail)| tail);
        assert!(
            initial_place(moves).is_some(),
            "{coda} would migrate as {moves}, which is no initial"
        );
    }
}

/// The layout covers every letter and touches nothing else, leaving
/// Korean's ASCII punctuation, digits and space to the editor.
#[test]
fn the_layout_is_the_letters_and_only_the_letters() {
    for key in 'a'..='z' {
        assert!(jamo_for(key).is_some(), "{key} writes no jamo");
    }
    for key in ['1', '0', '.', ',', ' ', '-', '/', '\'', ';', '\n'] {
        assert_eq!(jamo_for(key), None, "{key:?} should stay itself");
    }
}

/// Shift carries the tense consonants and the two iotised vowels. Every
/// other capital writes the jamo under the finger.
#[test]
fn the_shifted_row_is_the_tense_consonants_and_two_vowels() {
    for (key, jamo) in [
        ('Q', 'ㅃ'),
        ('W', 'ㅉ'),
        ('E', 'ㄸ'),
        ('R', 'ㄲ'),
        ('T', 'ㅆ'),
        ('O', 'ㅒ'),
        ('P', 'ㅖ'),
    ] {
        assert_eq!(jamo_for(key), Some(jamo));
    }
    for key in ('A'..='Z').filter(|c| !"QWERTOP".contains(*c)) {
        assert_eq!(
            jamo_for(key),
            jamo_for(key.to_ascii_lowercase()),
            "{key} is not on the shifted row"
        );
    }
}

/// Every jamo [`jamo_for`] produces is in [`INITIALS`] or [`MEDIALS`], so
/// [`Korean::key`] has an arm for all of them.
#[test]
fn every_key_writes_a_jamo_the_composer_knows() {
    for key in ('a'..='z').chain('A'..='Z') {
        let jamo = jamo_for(key).unwrap();
        assert!(
            initial_place(jamo).is_some() || medial_place(jamo).is_some(),
            "{key} writes {jamo}, which is neither an initial nor a vowel"
        );
    }
}

/// **A Korean keyboard types Korean**, capitals included: a capital is the
/// tense consonant on the shifted row. Latin is reached by switching
/// source.
#[test]
fn every_letter_is_a_jamo_while_korean_is_on() {
    for composing in [false, true] {
        for key in ('a'..='z').chain('A'..='Z') {
            assert_eq!(
                compose(&Action::Insert(key), composing, Script::Korean),
                Compose::Jamo(key),
                "{key} while {}composing",
                if composing { "" } else { "not " }
            );
        }
    }
    // [`Script::Chinese`] and [`Script::Japanese`] send a capital straight
    // to the page.
    assert_eq!(
        compose(&Action::Insert('N'), true, Script::Chinese),
        Compose::Latin('N')
    );
}

/// **Every key that is not a letter finishes the syllable and goes on to
/// mean what it always means.** No candidate to number, no page to turn,
/// and no CJK punctuation: Korean writes ASCII marks.
#[test]
fn a_key_that_is_not_a_jamo_ends_the_syllable_without_being_eaten() {
    for action in [
        Action::Insert(' '),
        Action::Insert('.'),
        Action::Insert('1'),
        Action::Insert('\''),
        Action::Newline,
        Action::Right,
        Action::Escape,
        Action::Undo,
    ] {
        assert_eq!(
            compose(&action, true, Script::Korean),
            Compose::Finish,
            "{action:?}"
        );
        // With nothing under construction the key passes straight through.
        assert_eq!(
            compose(&action, false, Script::Korean),
            Compose::Pass,
            "{action:?}"
        );
    }
}

/// Backspace decomposes while a syllable holds a jamo, and passes to the
/// document past the last one.
#[test]
fn korean_backspace_reaches_the_composer_only_while_it_holds_one() {
    assert_eq!(
        compose(&Action::Backspace, true, Script::Korean),
        Compose::Decompose
    );
    assert_eq!(
        compose(&Action::Backspace, false, Script::Korean),
        Compose::Pass
    );
}

#[test]
fn the_stub_grows_a_preedit_and_narrows_the_candidates() {
    let mut ime = Stub::new();
    assert_eq!(ime.key('n').first().map(String::as_str), Some("你"));
    assert_eq!(ime.key('i').len(), 5);
    assert_eq!(ime.key('h').first().map(String::as_str), Some("你好"));
}

/// Backspace and space are handled inside `prv_key_handler` — `0x08`
/// clears one symbol, `0x20` clears all — so the editor forwards them,
/// and the stub agrees.
#[test]
fn backspace_and_space_are_the_engines_job() {
    let mut ime = Stub::new();
    ime.key('n');
    ime.key('i');
    assert_eq!(ime.key('\u{8}').first().map(String::as_str), Some("你"));
    assert!(ime.key(' ').is_empty());
}

#[test]
fn an_unknown_syllable_offers_nothing_rather_than_guessing() {
    let mut ime = Stub::new();
    assert!(ime.key('q').is_empty());
}

#[test]
fn committing_clears_the_composition() {
    let mut ime = Stub::new();
    ime.key('n');
    assert_eq!(ime.commit(0), None);
    assert_eq!(ime.key('h').first().map(String::as_str), Some("和"));
}

/// **A candidate does not have to cover the whole reading**, and the
/// word is not over when one that does not is taken: it carries on with
/// what is left, and the next keystroke belongs to that.
#[test]
fn a_candidate_covering_part_of_the_reading_leaves_the_rest() {
    let mut ime = Stub::new();
    for c in "shijie".chars() {
        ime.key(c);
    }
    let rest = ime
        .commit(3)
        .expect("the fourth covers one syllable of two");
    assert_eq!(rest.reading, "jie");
    assert_eq!(rest.candidates.first().map(String::as_str), Some("界"));
}

/// One that covers all of it finishes the word.
#[test]
fn a_candidate_covering_the_reading_finishes_the_word() {
    let mut ime = Stub::new();
    for c in "shijie".chars() {
        ime.key(c);
    }
    assert_eq!(ime.commit(0), None);
    assert_eq!(ime.key('h').first().map(String::as_str), Some("和"));
}

/// Pinyin *is* the letters typed: the Chinese engine reports no
/// composition of its own — [`Ime::preedit`]'s default arm.
#[test]
fn chinese_keeps_no_composition_of_its_own() {
    let mut ime = Stub::new();
    ime.key('n');
    ime.key('i');
    assert_eq!(ime.preedit(), None);
}

/// The Japanese composition is not the letters typed: にほん from
/// `nihon`.
#[test]
fn japanese_composes_kana_from_the_romaji_it_was_sent() {
    let mut ime = KanaStub::new();
    for c in "nihon".chars() {
        ime.key(c);
    }
    assert_eq!(ime.preedit().as_deref(), Some("にほん"));
    assert_eq!(ime.key(' ').first().map(String::as_str), Some("日本"));
}

/// Backspace reaches the engine, and the composition shortens by a
/// *kana*.
#[test]
fn backspace_shortens_the_japanese_composition_by_a_syllable() {
    let mut ime = KanaStub::new();
    for c in "niho".chars() {
        ime.key(c);
    }
    assert_eq!(ime.preedit().as_deref(), Some("にほ"));
    ime.key('\u{8}');
    ime.key('\u{8}');
    assert_eq!(ime.preedit().as_deref(), Some("に"));
}

/// Finding a plugin in memory, which is everything about the discovery that
/// can be tested without one. What is left over — the magic scan, the
/// pending-key search, the Japanese engine answering a letter — is a
/// conversation with a proprietary library and happens on the device.

/// An armv7 Kindle's `/proc/self/maps`, cut to karyll, the Chinese
/// plugin, the XT9 engine it pulled in, and the neighbours that make
/// the rules matter. The columns are the kernel's: range, permissions,
/// file offset, device, inode, and the path if there is one.
const KINDLE: &str = "\
00010000-000d4000 r-xp 00000000 b3:0c 2101       /mnt/us/extensions/karyll/bin/karyll
000e3000-000e5000 rw-p 000c3000 b3:0c 2101       /mnt/us/extensions/karyll/bin/karyll
000e5000-00107000 rw-p 00000000 00:00 0          [heap]
b6a1c000-b6a3f000 r-xp 00000000 b3:0c 1190       /usr/lib/libxt9a.so.1.0
b6a3f000-b6a4e000 ---p 00023000 b3:0c 1190       /usr/lib/libxt9a.so.1.0
b6a4e000-b6a4f000 rw-p 00022000 b3:0c 1190       /usr/lib/libxt9a.so.1.0
b6d2a000-b6d2f000 r-xp 00000000 b3:0c 1187       /usr/share/keyboard/zh_CN/libpredictor.so.1.0
b6d2f000-b6d3e000 ---p 00005000 b3:0c 1187       /usr/share/keyboard/zh_CN/libpredictor.so.1.0
b6d3e000-b6d3f000 r--p 00004000 b3:0c 1187       /usr/share/keyboard/zh_CN/libpredictor.so.1.0
b6d3f000-b6d40000 rw-p 00005000 b3:0c 1187       /usr/share/keyboard/zh_CN/libpredictor.so.1.0
b6d40000-b6d78000 rw-p 00000000 00:00 0
b6e00000-b6e21000 rw-p 00000000 00:00 0
b6f00000-b6f20000 r-xp 00000000 b3:0c 1044       /lib/libc-2.20.so
";

/// Somewhere in the Chinese plugin's code, which is the only sort of
/// address karyll has to start from: a vtable slot.
const A_SLOT: usize = 0xb6d2_a3c4;

/// **The path karyll opens is not the path the kernel reports.**
/// `libpredictor.so.1` is a symlink, `/proc/self/maps` names what it
/// resolves to, and a lookup by the opened name finds nothing.
#[test]
fn the_plugin_is_found_from_its_own_pointer_rather_than_from_a_path() {
    assert!(KINDLE.lines().filter_map(row).all(|r| r.path != PLUGIN_ZH));
    let map = locate(KINDLE, A_SLOT).expect("a slot lands in the plugin");
    assert_eq!(map.path, "/usr/share/keyboard/zh_CN/libpredictor.so.1.0");
    assert_eq!(map.base, 0xb6d2_a000);
}

/// `.bss` is a few hundred kilobytes against a file of eighteen, so
/// almost all of it is the anonymous mapping the loader puts on the end
/// — and every address karyll goes looking for is in there.
#[test]
fn the_bss_past_the_end_of_the_file_belongs_to_the_object() {
    let map = locate(KINDLE, A_SLOT).unwrap();
    assert_eq!(map.data, vec![0xb6d3_f000..0xb6d7_8000]);
}

/// Writable anonymous memory that is *not* butted against the object is
/// somebody else's, and neither is a heap, whatever it is next to.
#[test]
fn the_neighbours_are_left_alone() {
    let plugin = locate(KINDLE, A_SLOT).unwrap();
    assert_eq!(plugin.words_from(0xb6e0_0000), 0);
    let karyll = locate(KINDLE, 0x0001_0100).unwrap();
    assert_eq!(karyll.data, vec![0x000e_3000..0x000e_5000]);
}

/// The check that a vtable is still the vtable: eight pointers into
/// this plugin's own code. The engine's code is not this plugin's, and
/// neither is the plugin's own data.
#[test]
fn only_this_objects_code_counts_as_a_slot() {
    let map = locate(KINDLE, A_SLOT).unwrap();
    assert!(map.holds_code(A_SLOT));
    assert!(!map.holds_code(0xb6d3_f100));
    assert!(!map.holds_code(0xb6a1_c100));
    assert!(!map.holds_code(0xb6f0_0100));
}

/// A code pointer in anonymous memory names no file, and an address in
/// nothing at all names nothing. Either way there is no object to check
/// the rest of the table against, so there is no plugin.
#[test]
fn a_pointer_into_no_file_locates_nothing() {
    assert!(locate(KINDLE, 0xb6e0_0100).is_none());
    assert!(locate(KINDLE, 0xdead_0000).is_none());
}

/// Two writable segments with a gap between them, which is what the
/// word indexing has to survive: the words are contiguous and the
/// addresses are not.
const SPLIT: &str = "\
00010000-00011000 r-xp 00000000 00:01 7          /a/plugin.so
00011000-00012000 rw-p 00001000 00:01 7          /a/plugin.so
00013000-00014000 rw-p 00002000 00:01 7          /a/plugin.so
";

#[test]
fn a_word_knows_which_address_it_came_from() {
    let map = locate(SPLIT, 0x0001_0100).unwrap();
    assert_eq!(map.words(), 2048);
    assert_eq!(map.address(0), Some(0x0001_1000));
    assert_eq!(map.address(1023), Some(0x0001_1ffc));
    assert_eq!(map.address(1024), Some(0x0001_3000));
    assert_eq!(map.address(2047), Some(0x0001_3ffc));
    assert_eq!(map.address(2048), None);
}

/// **Two words next to each other in a snapshot need not be next to
/// each other in memory**, and the pending-key search reads a pair,
/// so it asks.
#[test]
fn the_last_word_of_a_segment_has_no_neighbour() {
    let map = locate(SPLIT, 0x0001_0100).unwrap();
    assert!(map.adjacent(0));
    assert!(!map.adjacent(1023));
    assert!(map.adjacent(1024));
    assert!(!map.adjacent(2047));
}

/// What stops a misread count from walking off the end of the mapping.
#[test]
fn there_is_only_so_much_room_after_an_address() {
    let map = locate(SPLIT, 0x0001_0100).unwrap();
    assert_eq!(map.words_from(0x0001_3000), 1024);
    assert_eq!(map.words_from(0x0001_3ff0), 4);
    assert_eq!(map.words_from(0x0001_2000), 0);
}

const BOTH: [Script; 2] = [Script::Chinese, Script::Japanese];

#[test]
fn lower_case_letters_start_and_continue_a_word() {
    for script in BOTH {
        assert_eq!(
            compose(&Action::Insert('n'), false, script),
            Compose::Feed('n')
        );
        assert_eq!(
            compose(&Action::Insert('i'), true, script),
            Compose::Feed('i')
        );
    }
}

#[test]
fn a_capital_is_latin_and_never_reaches_the_engine() {
    // Pinyin and romaji are written in lower case; a capital is
    // Latin for the page.
    for script in BOTH {
        assert_eq!(
            compose(&Action::Insert('N'), true, script),
            Compose::Latin('N')
        );
        // And with nothing composing, so that a capital lands on the
        // page rather than opening a word.
        assert_eq!(
            compose(&Action::Insert('N'), false, script),
            Compose::Latin('N')
        );
    }
}

#[test]
fn the_letters_as_struck_can_be_had_back() {
    // `F10` inserts the letters as struck, in both languages.
    for script in BOTH {
        assert_eq!(
            compose(&Action::CommitTyped, true, script),
            Compose::CommitTyped
        );
    }
}

/// With nothing composed, everything except letters and punctuation
/// behaves as it does in English.
#[test]
fn editing_keys_are_untouched_before_a_word_starts() {
    for script in BOTH {
        for action in [
            Action::Insert('1'),
            Action::Insert(' '),
            Action::Newline,
            Action::Backspace,
            Action::Left,
            Action::Save,
        ] {
            assert_eq!(
                compose(&action, false, script),
                Compose::Pass,
                "{action:?} {script:?}"
            );
        }
    }
}

#[test]
fn the_number_row_picks_a_candidate_and_zero_is_the_tenth() {
    for script in BOTH {
        assert_eq!(
            compose(&Action::Insert('1'), true, script),
            Compose::Select(0)
        );
        assert_eq!(
            compose(&Action::Insert('9'), true, script),
            Compose::Select(8)
        );
        assert_eq!(
            compose(&Action::Insert('0'), true, script),
            Compose::Select(9)
        );
    }
}

/// Space accepts the best candidate in Chinese and asks the engine
/// for the conversion in Japanese.
#[test]
fn space_accepts_in_chinese_and_converts_in_japanese() {
    assert_eq!(
        compose(&Action::Insert(' '), true, Script::Chinese),
        Compose::Select(0)
    );
    assert_eq!(
        compose(&Action::Insert(' '), true, Script::Japanese),
        Compose::Feed(' ')
    );
}

/// Backspace belongs to the engine while composing — it drops one unit
/// and re-predicts — not to the document.
#[test]
fn backspace_goes_to_the_engine() {
    for script in BOTH {
        assert_eq!(
            compose(&Action::Backspace, true, script),
            Compose::Feed('\u{8}')
        );
    }
}

#[test]
fn enter_keeps_the_composition_as_it_stands() {
    for script in BOTH {
        assert_eq!(compose(&Action::Newline, true, script), Compose::CommitRaw);
    }
}

#[test]
fn escape_and_anything_unexpected_abandon_the_word() {
    for script in BOTH {
        assert_eq!(compose(&Action::Escape, true, script), Compose::Cancel);
        assert_eq!(compose(&Action::LineStart, true, script), Compose::Cancel);
        assert_eq!(compose(&Action::Undo, true, script), Compose::Cancel);
    }
}

/// The arrows page the candidates; the word stays composing.
#[test]
fn the_arrows_page_the_candidates_rather_than_abandoning_the_word() {
    for script in BOTH {
        for action in [Action::Right, Action::Down, Action::PageDown] {
            assert_eq!(
                compose(&action, true, script),
                Compose::NextPage,
                "{action:?} {script:?}"
            );
        }
        for action in [Action::Left, Action::Up, Action::PageUp] {
            assert_eq!(
                compose(&action, true, script),
                Compose::PreviousPage,
                "{action:?} {script:?}"
            );
        }
    }
}

/// The syllable separator is only a separator once there is something
/// to separate; before that it is a quotation mark. Japanese romaji has
/// no separator at all, so there it is always the quotation mark.
#[test]
fn the_apostrophe_separates_syllables_only_in_chinese_and_only_mid_word() {
    assert_eq!(
        compose(&Action::Insert('\''), true, Script::Chinese),
        Compose::Feed('\'')
    );
    assert_eq!(
        compose(&Action::Insert('\''), false, Script::Chinese),
        Compose::Punctuate('\'')
    );
    assert_eq!(
        compose(&Action::Insert('\''), true, Script::Japanese),
        Compose::Punctuate('\'')
    );
}

/// カレー and コーヒー need it, so mid-word a hyphen is the prolonged
/// sound mark rather than punctuation — and it goes to the engine as
/// that character, which `prv_key_handler` tests for by code point.
#[test]
fn a_hyphen_mid_word_is_the_japanese_prolonged_sound_mark() {
    assert_eq!(
        compose(&Action::Insert('-'), true, Script::Japanese),
        Compose::Feed('ー')
    );
    // Outside a word it is an ordinary hyphen, and in Chinese it always
    // is: arithmetic and dashes stay ASCII in both scripts.
    assert_eq!(
        compose(&Action::Insert('-'), false, Script::Japanese),
        Compose::Pass
    );
    assert_eq!(
        compose(&Action::Insert('-'), true, Script::Chinese),
        Compose::Cancel
    );
}

/// Punctuation is CJK whether or not a word is under way — unlike
/// digits and space, which mean one thing mid-word and another outside.
#[test]
fn punctuation_is_cjk_in_both_states() {
    for script in BOTH {
        for composing in [true, false] {
            assert_eq!(
                compose(&Action::Insert('.'), composing, script),
                Compose::Punctuate('.'),
                "composing={composing} {script:?}"
            );
        }
    }
}

const ZH: Script = Script::Chinese;
const JA: Script = Script::Japanese;

#[test]
fn sentence_marks_are_full_width() {
    let mut p = Punctuation::default();
    for (ascii, chinese) in [
        (',', "，"),
        ('.', "。"),
        ('?', "？"),
        ('!', "！"),
        (':', "："),
        (';', "；"),
        ('\\', "、"),
    ] {
        assert_eq!(p.resolve(ZH, ascii), Some(chinese), "{ascii}");
    }
}

/// **The comma is the one sentence mark that differs**: Chinese sets
/// ， and Japanese sets 、 on the same key.
#[test]
fn japanese_takes_the_reading_comma_and_shares_the_rest() {
    let mut p = Punctuation::default();
    assert_eq!(p.resolve(JA, ','), Some("、"));
    for (ascii, mark) in [
        ('.', "。"),
        ('?', "？"),
        ('!', "！"),
        (':', "："),
        (';', "；"),
        ('(', "（"),
        (')', "）"),
    ] {
        assert_eq!(p.resolve(JA, ascii), Some(mark), "{ascii}");
        assert_eq!(p.resolve(ZH, ascii), Some(mark), "{ascii}");
    }
}

/// Both are doubled in Chinese typography — a lone dash is a hyphen and
/// three dots are half an ellipsis. Japanese doubles neither.
#[test]
fn the_ellipsis_and_dash_are_doubled_in_chinese_only() {
    let mut p = Punctuation::default();
    assert_eq!(p.resolve(ZH, '^'), Some("……"));
    assert_eq!(p.resolve(ZH, '_'), Some("——"));
    assert_eq!(p.resolve(JA, '^'), None);
    assert_eq!(p.resolve(JA, '_'), None);
}

/// Both bracket pairs, matching macOS's Simplified Chinese input.
#[test]
fn both_bracket_pairs_are_on_the_bracket_keys() {
    let mut p = Punctuation::default();
    assert_eq!(p.resolve(ZH, '['), Some("【"));
    assert_eq!(p.resolve(ZH, ']'), Some("】"));
    assert_eq!(p.resolve(ZH, '{'), Some("「"));
    assert_eq!(p.resolve(ZH, '}'), Some("」"));
}

/// Japanese quotes with 「」 far more than Chinese does, so they take
/// the unshifted keys — where a JIS keyboard has them, and where macOS
/// puts them — and 『』 takes the shifted pair.
#[test]
fn japanese_puts_the_corner_brackets_on_the_unshifted_keys() {
    let mut p = Punctuation::default();
    assert_eq!(p.resolve(JA, '['), Some("「"));
    assert_eq!(p.resolve(JA, ']'), Some("」"));
    assert_eq!(p.resolve(JA, '{'), Some("『"));
    assert_eq!(p.resolve(JA, '}'), Some("』"));
}

/// Unlike the quotation marks, the brackets are fixed: each has its own
/// key, so neither has to alternate.
#[test]
fn brackets_do_not_alternate() {
    let mut p = Punctuation::default();
    assert_eq!(p.resolve(ZH, '{'), Some("「"));
    assert_eq!(p.resolve(ZH, '{'), Some("「"));
}

#[test]
fn quotes_alternate_open_and_closed() {
    let mut p = Punctuation::default();
    assert_eq!(p.resolve(ZH, '"'), Some("“"));
    assert_eq!(p.resolve(ZH, '"'), Some("”"));
    assert_eq!(p.resolve(ZH, '"'), Some("“"));
}

/// The two pairs alternate independently.
#[test]
fn the_two_quote_pairs_do_not_share_state() {
    let mut p = Punctuation::default();
    assert_eq!(p.resolve(ZH, '"'), Some("“"));
    assert_eq!(p.resolve(ZH, '\''), Some("‘"));
    assert_eq!(p.resolve(ZH, '\''), Some("’"));
    assert_eq!(p.resolve(ZH, '"'), Some("”"));
}

/// Their CJK forms are rare in prose; the keys stay ASCII.
#[test]
fn arithmetic_and_currency_stay_ascii() {
    let mut p = Punctuation::default();
    for script in [ZH, JA] {
        for key in ['-', '/', '=', '+', '%', '#', '&', '$', '*'] {
            assert_eq!(p.resolve(script, key), None, "{key} {script:?}");
        }
    }
}
