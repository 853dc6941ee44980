use karyll::keymap::{action, character, code, Action, Convention, Layout, Mods};

fn plain() -> Mods {
    Mods::default()
}

fn shift() -> Mods {
    Mods {
        shift: true,
        ..Mods::default()
    }
}

fn ctrl() -> Mods {
    Mods {
        ctrl: true,
        ..Mods::default()
    }
}

fn meta() -> Mods {
    Mods {
        meta: true,
        ..Mods::default()
    }
}

#[test]
fn hello_decodes_from_the_codes_the_device_reported() {
    // The key codes captured on the Scribe when "hello" was typed.
    let typed: String = [35u16, 18, 38, 38, 24]
        .iter()
        .filter_map(|c| character(*c, plain(), Layout::Us))
        .collect();
    assert_eq!(typed, "hello");
}

#[test]
fn shift_selects_the_upper_register() {
    assert_eq!(character(30, plain(), Layout::Us), Some('a'));
    assert_eq!(character(30, shift(), Layout::Us), Some('A'));
    assert_eq!(character(2, plain(), Layout::Us), Some('1'));
    assert_eq!(character(2, shift(), Layout::Us), Some('!'));
}

/// Every character the Markdown parser treats as markup is typeable on
/// every layout. On `German` most of them are AltGr legends.
#[test]
fn the_markdown_characters_are_reachable_on_every_layout() {
    let wanted = "#*_`[]()->.";
    for layout in [Layout::Us, Layout::German] {
        for want in wanted.chars() {
            let found = layout.table().iter().any(|(_, plain, shifted, altgr)| {
                *plain == want || *shifted == want || *altgr == Some(want)
            });
            assert!(found, "{} has no key for {want:?}", layout.name());
        }
    }
}

#[test]
fn space_is_not_in_the_layout_table_but_still_types() {
    assert_eq!(character(code::SPACE, plain(), Layout::Us), Some(' '));
    assert_eq!(character(code::SPACE, shift(), Layout::Us), Some(' '));
}

#[test]
fn named_keys_map_to_actions_not_characters() {
    assert_eq!(
        action(code::ENTER, plain(), Layout::Us),
        Some(Action::Newline)
    );
    assert_eq!(
        action(code::BACKSPACE, plain(), Layout::Us),
        Some(Action::Backspace)
    );
    assert_eq!(action(code::LEFT, plain(), Layout::Us), Some(Action::Left));
    assert_eq!(
        action(code::HOME, plain(), Layout::Us),
        Some(Action::LineStart)
    );
    assert_eq!(character(code::ENTER, plain(), Layout::Us), None);
}

#[test]
fn a_chord_beats_the_character_it_would_otherwise_type() {
    assert_eq!(action(31, ctrl(), Layout::Us), Some(Action::Save));
    assert_eq!(action(31, plain(), Layout::Us), Some(Action::Insert('s')));
    assert_eq!(action(44, ctrl(), Layout::Us), Some(Action::Undo));
    assert_eq!(
        action(
            44,
            Mods {
                ctrl: true,
                shift: true,
                ..Mods::default()
            },
            Layout::Us
        ),
        Some(Action::Redo)
    );
}

#[test]
fn an_unbound_chord_does_nothing_rather_than_typing() {
    // Code 17 carries `w`, and `Ctrl+W` binds nothing.
    assert_eq!(action(17, ctrl(), Layout::Us), None);
}

/// The shifted forms of Find and Open, on both layouts.
#[test]
fn shift_deepens_find_and_open_rather_than_repeating_them() {
    for layout in [Layout::Us, Layout::German] {
        for mods in [ctrl(), meta()] {
            let shifted = Mods {
                shift: true,
                ..mods
            };
            assert_eq!(action(33, mods, layout), Some(Action::Find));
            assert_eq!(action(33, shifted, layout), Some(Action::Replace));
            assert_eq!(action(24, mods, layout), Some(Action::Files));
            assert_eq!(action(24, shifted, layout), Some(Action::Outline));
        }
    }
}

/// `Enter` under a chord is the replace bar's own command. With no chord,
/// a line break; with `Shift`, the letters as typed.
#[test]
fn enter_only_changes_things_when_a_chord_is_held() {
    let shift = Mods {
        shift: true,
        ..Mods::default()
    };
    assert_eq!(
        action(code::ENTER, plain(), Layout::Us),
        Some(Action::Newline)
    );
    assert_eq!(
        action(code::ENTER, shift, Layout::Us),
        Some(Action::CommitTyped)
    );
    for mods in [ctrl(), meta()] {
        assert_eq!(action(code::ENTER, mods, Layout::Us), Some(Action::Change));
        assert_eq!(
            action(
                code::ENTER,
                Mods {
                    shift: true,
                    ..mods
                },
                Layout::Us
            ),
            Some(Action::ChangeAll)
        );
    }
}

/// Every button on the strip has a key, on both layouts. The chord arm
/// resolves the code with shift forced off, and a binding needing `Shift`
/// on QWERTZ is dead there.
#[test]
fn every_panel_has_a_key_and_it_works_on_both_layouts() {
    let bindings = [
        (35, Action::Help),        // H
        (24, Action::Files),       // O
        (49, Action::NewDocument), // N
        (51, Action::Config),      // comma
        (19, Action::Refresh),     // R
    ];
    for (code, expected) in bindings {
        for layout in [Layout::Us, Layout::German] {
            for mods in [ctrl(), meta()] {
                assert_eq!(
                    action(code, mods, layout),
                    Some(expected),
                    "code {code} on {}",
                    layout.name()
                );
            }
        }
        // And types its letter with no chord held.
        assert!(matches!(
            action(code, plain(), Layout::Us),
            Some(Action::Insert(_))
        ));
    }
}

/// `M` is unshifted and in one place on either layout.
#[test]
fn the_margins_cycle_from_either_chord_on_either_layout() {
    for layout in [Layout::Us, Layout::German] {
        for mods in [ctrl(), meta()] {
            assert_eq!(action(50, mods, layout), Some(Action::CycleMargins));
        }
        // And types its letter with no chord held.
        assert!(matches!(
            action(50, plain(), layout),
            Some(Action::Insert('m'))
        ));
    }
}

/// `ctrl` and `meta` resolve to one action for every letter code, which
/// covers a binding added later without naming it.
#[test]
fn command_does_everything_control_does() {
    // Save, undo, quit, select all — and `w`, unbound under both.
    for code in [31, 44, 16, 30, 17] {
        assert_eq!(
            action(code, meta(), Layout::Us),
            action(code, ctrl(), Layout::Us),
            "code {code} means different things under Ctrl and ⌘"
        );
    }
    assert_eq!(action(31, meta(), Layout::Us), Some(Action::Save));
}

fn with(mods: Mods, shift: bool) -> Mods {
    Mods { shift, ..mods }
}

fn alt() -> Mods {
    Mods {
        alt: true,
        ..Mods::default()
    }
}

fn altgr() -> Mods {
    Mods {
        altgr: true,
        ..Mods::default()
    }
}

/// Both conventions at once: `alt` and `ctrl` are one grain.
#[test]
fn option_and_control_both_move_by_word() {
    for mods in [ctrl(), alt()] {
        assert_eq!(
            action(code::RIGHT, mods, Layout::Us),
            Some(Action::WordRight)
        );
        assert_eq!(action(code::LEFT, mods, Layout::Us), Some(Action::WordLeft));
    }
}

/// The right-hand ⌥ key sends the code `German` uses for AltGr.
#[test]
fn the_right_option_key_moves_by_word_too() {
    assert_eq!(
        action(code::RIGHT, altgr(), Layout::Us),
        Some(Action::WordRight)
    );
}

/// `altgr` reaches a third legend on printable keys; no movement key
/// is one.
#[test]
fn treating_altgr_as_option_does_not_cost_german_its_third_legend() {
    assert_eq!(
        action(16, altgr(), Layout::German),
        Some(Action::Insert('@'))
    );
    assert_eq!(
        action(9, altgr(), Layout::German),
        Some(Action::Insert('['))
    );
}

/// `meta` is the one modifier `movement` reads apart from `ctrl`.
#[test]
fn command_moves_by_line_where_control_moves_by_word() {
    assert_eq!(
        action(code::LEFT, meta(), Layout::Us),
        Some(Action::LineStart)
    );
    assert_eq!(
        action(code::RIGHT, meta(), Layout::Us),
        Some(Action::LineEnd)
    );
    assert_ne!(
        action(code::LEFT, meta(), Layout::Us),
        action(code::LEFT, ctrl(), Layout::Us)
    );
}

#[test]
fn shift_extends_every_grain_of_movement() {
    for (mods, want) in [
        (plain(), Action::ExtendLeft),
        (ctrl(), Action::ExtendWordLeft),
        (alt(), Action::ExtendWordLeft),
        (meta(), Action::ExtendLineStart),
    ] {
        assert_eq!(
            action(code::LEFT, with(mods, true), Layout::Us),
            Some(want),
            "{mods:?}"
        );
    }
    assert_eq!(
        action(code::HOME, with(plain(), true), Layout::Us),
        Some(Action::ExtendLineStart)
    );
    assert_eq!(
        action(code::UP, with(plain(), true), Layout::Us),
        Some(Action::ExtendUp)
    );
}

#[test]
fn backspace_deletes_a_character_a_word_or_a_line() {
    assert_eq!(
        action(code::BACKSPACE, plain(), Layout::Us),
        Some(Action::Backspace)
    );
    assert_eq!(
        action(code::BACKSPACE, alt(), Layout::Us),
        Some(Action::DeleteWordBack)
    );
    assert_eq!(
        action(code::BACKSPACE, meta(), Layout::Us),
        Some(Action::DeleteToLineStart)
    );
    assert_eq!(
        action(code::DELETE, ctrl(), Layout::Us),
        Some(Action::DeleteWordForward)
    );
}

/// `Ctrl+A` selects all; the line start is `Home`.
#[test]
fn control_a_selects_all_and_home_still_goes_to_the_line_start() {
    assert_eq!(action(30, ctrl(), Layout::Us), Some(Action::SelectAll));
    assert_eq!(action(30, meta(), Layout::Us), Some(Action::SelectAll));
    assert_eq!(
        action(code::HOME, plain(), Layout::Us),
        Some(Action::LineStart)
    );
    // `Ctrl+E` is unbound.
    assert_eq!(action(18, ctrl(), Layout::Us), None);
}

/// `Home` and `End` under any modifier reach the whole document.
#[test]
fn any_modifier_on_home_or_end_means_the_whole_document() {
    for mods in [ctrl(), alt(), meta()] {
        assert_eq!(action(code::HOME, mods, Layout::Us), Some(Action::DocStart));
        assert_eq!(action(code::END, mods, Layout::Us), Some(Action::DocEnd));
    }
    // ⌘↑ and ⌘↓ spell the same pair.
    assert_eq!(action(code::UP, meta(), Layout::Us), Some(Action::DocStart));
    assert_eq!(action(code::DOWN, meta(), Layout::Us), Some(Action::DocEnd));
    // Bare, they are the line; ⌥↑ is a line up.
    assert_eq!(
        action(code::HOME, plain(), Layout::Us),
        Some(Action::LineStart)
    );
    assert_eq!(action(code::UP, alt(), Layout::Us), Some(Action::Up));
}

/// The clipboard chords, under both modifiers and both layouts. X, C
/// and V hold their positions on `German`; the lookup runs the table.
#[test]
fn cut_copy_and_paste_are_bound_on_both_modifiers_and_layouts() {
    for layout in [Layout::Us, Layout::German] {
        for mods in [ctrl(), meta()] {
            assert_eq!(action(45, mods, layout), Some(Action::Cut));
            assert_eq!(action(46, mods, layout), Some(Action::Copy));
            assert_eq!(action(47, mods, layout), Some(Action::Paste));
        }
        // And unmodified they type.
        assert_eq!(action(46, plain(), layout), Some(Action::Insert('c')));
    }
}

/// ⌘Space puts no space in the draft.
#[test]
fn command_space_is_not_the_language_switch() {
    assert_eq!(
        action(code::SPACE, ctrl(), Layout::Us),
        Some(Action::CycleLanguage)
    );
    assert_eq!(action(code::SPACE, meta(), Layout::Us), None);
    assert_eq!(
        action(code::SPACE, plain(), Layout::Us),
        Some(Action::Insert(' '))
    );
}

#[test]
fn modifiers_are_tracked_on_press_and_release() {
    let mut mods = Mods::default();
    assert!(mods.track(code::LEFTSHIFT, true));
    assert!(mods.shift);
    assert!(mods.track(code::LEFTSHIFT, false));
    assert!(!mods.shift);
    // Both sides of the keyboard.
    assert!(mods.track(code::RIGHTCTRL, true));
    assert!(mods.ctrl);
    // ⌘ tracks as a modifier, not as an ordinary key.
    assert!(mods.track(code::LEFTMETA, true));
    assert!(mods.meta);
    assert!(mods.track(code::RIGHTMETA, false));
    assert!(!mods.meta);
    // A normal key is not a modifier.
    assert!(!mods.track(30, true));
}

#[test]
fn alt_alone_types_the_plain_character() {
    // `alt` binds nothing and swallows no keystroke.
    let alt = Mods {
        alt: true,
        ..Mods::default()
    };
    assert_eq!(action(30, alt, Layout::Us), Some(Action::Insert('a')));
}

/// `caps` latches on the press and the release leaves it.
#[test]
fn caps_lock_latches_and_the_next_press_lets_it_go() {
    let mut mods = Mods::default();
    assert!(mods.track(code::CAPSLOCK, true));
    assert!(mods.caps);
    assert!(mods.track(code::CAPSLOCK, false));
    assert!(mods.caps);
    assert!(mods.track(code::CAPSLOCK, true));
    assert!(!mods.caps);
}

#[test]
fn caps_lock_reaches_the_letters_and_leaves_the_rest_alone() {
    let caps = Mods {
        caps: true,
        ..Mods::default()
    };
    let both = Mods {
        shift: true,
        ..caps
    };
    for layout in [Layout::Us, Layout::German] {
        assert_eq!(character(30, caps, layout), Some('A'));
        // `shift` and `caps` together cancel.
        assert_eq!(character(30, both, layout), Some('a'));
        // A digit under Caps Lock is the digit.
        assert_eq!(character(2, caps, layout), Some('1'));
    }
    // `ß` capitalises to two letters, and stays itself.
    assert_eq!(character(12, caps, Layout::German), Some('ß'));
    assert_eq!(character(26, caps, Layout::German), Some('Ü'));
}

/// `caps` left on does not shift a chord.
#[test]
fn a_chord_under_caps_lock_is_the_chord_it_is_under_neither() {
    let caps = Mods {
        caps: true,
        ctrl: true,
        ..Mods::default()
    };
    assert_eq!(action(31, caps, Layout::Us), Some(Action::Save));
    assert_eq!(action(24, caps, Layout::Us), Some(Action::Files));
}

/// `KEYPAD` answers the same on every `Layout`.
#[test]
fn the_numeric_keypad_types_its_own_legends() {
    for layout in [Layout::Us, Layout::German] {
        for (code, key) in [
            (55u16, '*'),
            (71, '7'),
            (74, '-'),
            (78, '+'),
            (82, '0'),
            (83, '.'),
            (98, '/'),
        ] {
            assert_eq!(
                action(code, plain(), layout),
                Some(Action::Insert(key)),
                "code {code} on {}",
                layout.name()
            );
        }
        // `shift` and `caps` leave `KEYPAD` alone.
        assert_eq!(action(79, shift(), layout), Some(Action::Insert('1')));
    }
}

#[test]
fn the_keypads_enter_is_enter() {
    assert_eq!(
        action(code::KPENTER, plain(), Layout::Us),
        Some(Action::Newline)
    );
    assert_eq!(
        action(code::KPENTER, shift(), Layout::Us),
        Some(Action::CommitTyped)
    );
    assert_eq!(
        action(code::KPENTER, ctrl(), Layout::Us),
        Some(Action::Change)
    );
}

#[test]
fn the_magnifier_opens_find() {
    assert_eq!(
        action(code::SEARCH, plain(), Layout::Us),
        Some(Action::Find)
    );
}

/// The digit `Heading` leaves, beside the two that step the size.
#[test]
fn the_zero_key_sets_the_type_back() {
    for layout in [Layout::Us, Layout::German] {
        for mods in [ctrl(), meta()] {
            assert_eq!(action(11, mods, layout), Some(Action::ResetSize));
        }
        assert_eq!(action(11, plain(), layout), Some(Action::Insert('0')));
    }
}

/// `Mac` and `Pc` reach the same three bindings from the key against the
/// space bar.
#[test]
fn the_key_beside_the_space_bar_reaches_the_same_bindings_either_way() {
    let alt = Mods {
        alt: true,
        ..Mods::default()
    };
    for (beside, outside, convention) in [
        (meta(), alt, Convention::Mac),
        (alt, meta(), Convention::Pc),
    ] {
        let beside = convention.resolve(beside);
        let outside = convention.resolve(outside);
        let at = convention.name();
        // Save, off the key against the space bar.
        assert_eq!(action(31, beside, Layout::Us), Some(Action::Save), "{at}");
        // The line grain there, the word grain outside it.
        assert_eq!(
            action(code::LEFT, beside, Layout::Us),
            Some(Action::LineStart),
            "{at}"
        );
        assert_eq!(
            action(code::LEFT, outside, Layout::Us),
            Some(Action::WordLeft),
            "{at}"
        );
    }
}

/// `resolve` leaves `altgr` where it arrived under both.
#[test]
fn the_third_legend_survives_the_swap() {
    let altgr = Mods {
        altgr: true,
        ..Mods::default()
    };
    for convention in [Convention::Mac, Convention::Pc] {
        let mods = convention.resolve(altgr);
        assert!(mods.altgr, "{}", convention.name());
        assert!(!mods.alt && !mods.meta, "{}", convention.name());
        assert_eq!(
            action(16, mods, Layout::German),
            Some(Action::Insert('@')),
            "{}",
            convention.name()
        );
    }
}

/// `resolve` leaves `ctrl` alone under both.
#[test]
fn control_reaches_config_under_either_convention() {
    for convention in [Convention::Mac, Convention::Pc] {
        let mods = convention.resolve(ctrl());
        assert_eq!(
            action(51, mods, Layout::Us),
            Some(Action::Config),
            "{}",
            convention.name()
        );
    }
}

#[test]
fn a_convention_survives_the_round_trip_through_its_name() {
    for convention in [Convention::Mac, Convention::Pc] {
        assert_eq!(Convention::from_name(convention.name()), convention);
    }
    assert_eq!(Convention::from_name(""), Convention::Mac);
}

#[test]
fn every_layout_code_is_listed_once() {
    for layout in [Layout::Us, Layout::German] {
        let mut codes: Vec<u16> = layout.table().iter().map(|(c, ..)| *c).collect();
        codes.sort_unstable();
        let before = codes.len();
        codes.dedup();
        assert_eq!(codes.len(), before, "{} binds a code twice", layout.name());
    }
}

/// Codes 21 and 44 carry `y` and `z` in opposite order per layout.
#[test]
fn y_and_z_trade_places() {
    assert_eq!(character(21, plain(), Layout::Us), Some('y'));
    assert_eq!(character(21, plain(), Layout::German), Some('z'));
    assert_eq!(character(44, plain(), Layout::Us), Some('z'));
    assert_eq!(character(44, plain(), Layout::German), Some('y'));
}

#[test]
fn the_umlauts_and_eszett_are_where_the_keycaps_say() {
    for (code, want) in [(39, 'ö'), (40, 'ä'), (26, 'ü'), (12, 'ß')] {
        assert_eq!(character(code, plain(), Layout::German), Some(want));
    }
    assert_eq!(character(39, shift(), Layout::German), Some('Ö'));
}

/// `altgr` carries the characters Markdown is written with on `German`.
#[test]
fn altgr_reaches_the_third_legend() {
    let altgr = Mods {
        altgr: true,
        ..Mods::default()
    };
    for (code, want) in [
        (9, '['),
        (10, ']'),
        (8, '{'),
        (11, '}'),
        (16, '@'),
        (18, '€'),
    ] {
        assert_eq!(character(code, altgr, Layout::German), Some(want));
    }
}

/// A key with no third legend produces nothing under `altgr`.
#[test]
fn altgr_on_a_key_without_one_types_nothing() {
    let altgr = Mods {
        altgr: true,
        ..Mods::default()
    };
    assert_eq!(character(30, altgr, Layout::German), None);
}

/// Code 86, the key beside the left shift, carries `<`, `>` and `|` on
/// `German`. An ISO board reading `Us` finds `\` and `|` there.
#[test]
fn the_key_us_boards_lack_is_bound() {
    assert_eq!(character(86, plain(), Layout::German), Some('<'));
    assert_eq!(character(86, shift(), Layout::German), Some('>'));
    assert_eq!(character(86, plain(), Layout::Us), Some('\\'));
    assert_eq!(character(86, shift(), Layout::Us), Some('|'));
}

/// Punctuation moves position and arrives as the same character, which
/// is what `ime::punctuation` keys on.
#[test]
fn punctuation_moves_but_still_arrives_as_itself() {
    assert_eq!(character(51, plain(), Layout::German), Some(','));
    assert_eq!(character(52, plain(), Layout::German), Some('.'));
    // Semicolon and colon are shifted on `German`, unshifted on `Us`.
    assert_eq!(character(51, shift(), Layout::German), Some(';'));
    assert_eq!(character(52, shift(), Layout::German), Some(':'));
    // The question mark sits on the ß key.
    assert_eq!(character(12, shift(), Layout::German), Some('?'));
}

/// On the US arrangement the right-hand Alt key is the left-hand one.
#[test]
fn on_us_the_right_hand_alt_key_is_alt() {
    for code in 0..=255u16 {
        for held in 0..16u8 {
            let mods = Mods {
                shift: held & 1 != 0,
                ctrl: held & 2 != 0,
                meta: held & 4 != 0,
                caps: held & 8 != 0,
                ..Mods::default()
            };
            let right = Mods { altgr: true, ..mods };
            let left = Mods { alt: true, ..mods };
            assert_eq!(
                action(code, right, Layout::Us),
                action(code, left, Layout::Us),
                "{code} with {mods:?}"
            );
        }
    }
    assert_eq!(action(30, altgr(), Layout::Us), Some(Action::Insert('a')));
    assert_eq!(character(30, altgr(), Layout::Us), Some('a'));
}
