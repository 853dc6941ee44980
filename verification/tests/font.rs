use karyll::font::{
    available_by, chain_of, families, groups, index_in, latin_row, measured_slots, path_for, probe,
    slot_of, Choices, Faces, Family, Group, CHROME_AT, FALLBACK_AT,
};
use karyll::font::vertical_in;
use karyll::script::{Region, Role};

const REGIONS: [Region; 3] = [Region::Simplified, Region::Traditional, Region::Japanese];

const LATIN_ROLES: [Role; 4] = [
    Role::Body,
    Role::BodyItalic,
    Role::BodyBold,
    Role::BodyBoldItalic,
];

const CHROME_ROLES: [Role; 2] = [Role::Chrome, Role::ChromeBold];

const CHROME_FACES: [&str; 2] = [
    "/usr/java/lib/fonts/Amazon-Ember-Regular.ttf",
    "/usr/java/lib/fonts/Amazon-Ember-Bold.ttf",
];

fn all_roles() -> impl Iterator<Item = Role> {
    LATIN_ROLES
        .into_iter()
        .chain([Role::Han, Role::HanBold, Role::Hangul, Role::HangulBold])
        .chain(CHROME_ROLES)
}

fn all_families() -> Vec<(Group, Family)> {
    groups()
        .into_iter()
        .flat_map(|group| families(group).into_iter().map(move |family| (group, family)))
        .collect()
}

/// A measure in ems.
fn em(n: i16, units: u16) -> f32 {
    n as f32 / units as f32
}

// These run on a development machine, where none of the device's faces
// exist. They cover the parts that do not need the files.

#[test]
fn every_role_and_region_maps_to_a_face_and_its_own_slot() {
    let mut taken = std::collections::HashSet::new();
    for role in all_roles() {
        for region in REGIONS {
            assert!(!path_for(role, region, Choices::default()).is_empty());
            let slot = slot_of(role, region);
            assert!(slot < FALLBACK_AT, "{role:?} is past the fallbacks");
            // A Latin role is one slot across all three conventions; a Han
            // role is three. The advance cache is keyed on this index.
            if role.is_han() {
                assert!(taken.insert(slot), "{role:?}/{region:?} shares a slot");
            }
        }
    }
    let own: std::collections::HashSet<usize> = LATIN_ROLES
        .iter()
        .chain(&CHROME_ROLES)
        .map(|r| slot_of(*r, Region::Simplified))
        .collect();
    assert_eq!(own.len(), LATIN_ROLES.len() + CHROME_ROLES.len());
    assert!(own.iter().all(|i| !taken.contains(i)));
}

/// Chrome draws from its own slots, and no setting reaches them. A chrome
/// role sharing the body's slot restyles the app on every document face.
#[test]
fn chrome_is_pinned_and_no_setting_can_move_it() {
    for (at, role) in CHROME_ROLES.into_iter().enumerate() {
        assert!(role.is_chrome());
        assert!(!role.is_han());
        for region in REGIONS {
            // Whatever any group is set to, chrome answers Ember.
            let mut choices = Choices::default();
            for group in groups() {
                choices.set(group, families(group).len() - 1);
            }
            assert_eq!(path_for(role, region, choices), CHROME_FACES[at]);
            assert!(CHROME_FACES[at].contains("Amazon-Ember"));
            // One slot across every convention, as a Latin role is.
            assert_eq!(slot_of(role, region), CHROME_AT + at);
        }
    }
    // The document's Latin body is a different face and a different slot,
    // which is the whole separation.
    assert_ne!(
        slot_of(Role::Chrome, Region::default()),
        slot_of(Role::Body, Region::default())
    );
    assert_ne!(
        path_for(Role::Chrome, Region::default(), Choices::default()),
        path_for(Role::Body, Region::default(), Choices::default())
    );
    // And no group lists a chrome role, so `set_family` never re-points one.
    for group in groups() {
        assert!(group.roles().iter().all(|r| !r.is_chrome()), "{group:?}");
    }
}

/// A panel row is measured against Ember, a page row against the document's
/// face. Sharing the anchor put the writer's face back into the panel's
/// arithmetic, so a settings row changed height as faces were tried on.
#[test]
fn a_panel_row_is_not_measured_against_the_document_face() {
    assert_eq!(latin_row(), vec![Role::Chrome]);
    assert!(latin_row().iter().all(|r| r.is_chrome()));
}

/// A font file carrying nothing but a `head` and an `hhea`, which is all
/// the row box reads.
fn synthetic(units: u16, ascender: i16, descender: i16, gap: i16) -> Vec<u8> {
    let head_at = 12u32 + 32;
    let hhea_at = head_at + 54;
    let mut out = Vec::new();
    out.extend_from_slice(&0x0001_0000u32.to_be_bytes());
    out.extend_from_slice(&2u16.to_be_bytes()); // numTables
    out.extend_from_slice(&[0; 6]); // searchRange, entrySelector, rangeShift
    for (tag, at, len) in [(b"head", head_at, 54u32), (b"hhea", hhea_at, 36)] {
        out.extend_from_slice(tag);
        out.extend_from_slice(&[0; 4]); // checksum
        out.extend_from_slice(&at.to_be_bytes());
        out.extend_from_slice(&len.to_be_bytes());
    }
    let mut head = vec![0u8; 54];
    head[18..20].copy_from_slice(&units.to_be_bytes());
    out.extend_from_slice(&head);
    let mut hhea = vec![0u8; 36];
    hhea[4..6].copy_from_slice(&ascender.to_be_bytes());
    hhea[6..8].copy_from_slice(&descender.to_be_bytes());
    hhea[8..10].copy_from_slice(&gap.to_be_bytes());
    out.extend_from_slice(&hhea);
    out
}

#[test]
fn vertical_metrics_come_out_of_the_tables_in_ems() {
    let font = synthetic(1000, 880, -120, 50);
    let got = vertical_in(&font).expect("a parseable font");
    assert_eq!(em(got.ascent, got.units), 0.88);
    assert_eq!(
        em(got.descent, got.units), -0.12,
        "descent stays negative, as the file has it"
    );
    assert_eq!(em(got.gap, got.units), 0.05);

    // 2048 units per em is as common as 1000. `head` carries the number,
    // which is what opens that table.
    let font = synthetic(2048, 1024, -512, 0);
    let got = vertical_in(&font).expect("a parseable font");
    assert_eq!(em(got.ascent, got.units), 0.5);
    assert_eq!(em(got.descent, got.units), -0.25);
}

#[test]
fn something_that_is_not_a_font_measures_nothing() {
    assert_eq!(vertical_in(&b"".to_vec()), None);
    assert_eq!(
        vertical_in(&b"ttcf\0\0\0\0\0\0\0\0".to_vec()),
        None,
        "a collection has another header and would give a nonsense count"
    );
    let mut truncated = synthetic(1000, 880, -120, 0);
    truncated.truncate(40);
    assert_eq!(vertical_in(&truncated), None);
}

#[test]
fn a_han_role_can_reach_every_convention_preferred_one_first() {
    for region in REGIONS {
        let chain = chain_of(Role::Han, region);
        assert_eq!(
            chain[0],
            slot_of(Role::Han, region),
            "{region:?} comes first"
        );
        let reachable: std::collections::HashSet<usize> = chain.into_iter().collect();
        for other in REGIONS {
            assert!(
                reachable.contains(&slot_of(Role::Han, other)),
                "{region:?} cannot reach {other:?}, so its characters vanish"
            );
        }
    }
}

#[test]
fn a_latin_role_is_one_face_whatever_the_convention() {
    for region in REGIONS {
        assert_eq!(chain_of(Role::Body, region).len(), 1);
    }
}

/// In every Latin family, not only the default: a synthetic slant is not
/// emphasis, and an entry that cannot supply four faces does not belong on
/// the list.
#[test]
fn latin_roles_are_four_distinct_files() {
    for family in families(Group::Latin) {
        let paths: std::collections::HashSet<&str> = family.faces.iter().copied().collect();
        assert_eq!(
            paths.len(),
            4,
            "{}: emphasis must be a real face, not a synthetic slant",
            family.name
        );
    }
}

/// The Latin faces are the same whatever the Han convention: Amazon Ember
/// does not have regional cuts and should not be re-read on a switch.
#[test]
fn only_the_han_roles_depend_on_the_region() {
    for role in all_roles() {
        let paths: std::collections::HashSet<&str> = REGIONS
            .iter()
            .map(|r| path_for(role, *r, Choices::default()))
            .collect();
        assert_eq!(paths.len(), if role.is_han() { 3 } else { 1 }, "{role:?}");
    }
}

/// A CJK family is one design at two weights. Emphasis is a mark against
/// the character, and an entry reaching outside its own design for the bold
/// sets a bold word in a family [`Choices`] never named.
#[test]
fn a_cjk_family_is_one_design_bodied_and_bolded() {
    for (group, family) in all_families() {
        let roles = group.roles();
        let [body, bold] = roles.as_slice() else {
            assert!(
                matches!(group, Group::Latin),
                "{} is no pair",
                group.label()
            );
            continue;
        };
        assert_ne!(
            family.faces[index_in(group, *body)],
            family.faces[index_in(group, *bold)],
            "{} sets bold in its own body face",
            family.name
        );
        assert_eq!(family.faces.len(), 2, "{} is not a pair", family.name);
    }
    // The sans by default in every writing system — 黑体 for Chinese,
    // ゴシック for Japanese, 고딕 for Korean.
    let default = Choices::default();
    let ko = Region::default();
    assert!(path_for(Role::Han, Region::Simplified, default).contains("STHeiti"));
    assert!(path_for(Role::HanBold, Region::Simplified, default).contains("STHeitiBold"));
    assert!(path_for(Role::Han, Region::Japanese, default).contains("TBGothic"));
    assert!(path_for(Role::HanBold, Region::Japanese, default).contains("TBGothicBold"));
    assert!(path_for(Role::Hangul, ko, default).contains("NotoSansKR-Regular"));
    assert!(path_for(Role::HangulBold, ko, default).contains("NotoSansKR-Black"));
}

/// Traditional Chinese and Japanese must not be drawn from the Simplified
/// faces: Han unification gives them the same code points, and the failure
/// is the wrong glyph. No entry on a list may reach another's faces.
#[test]
fn each_convention_gets_its_own_han_faces() {
    let faces = |group| -> std::collections::HashSet<&str> {
        families(group)
            .into_iter()
            .flat_map(|f| f.faces)
            .collect()
    };
    for one in REGIONS {
        for other in REGIONS.iter().filter(|r| **r != one) {
            let shared: Vec<&str> = faces(Group::Han(one))
                .intersection(&faces(Group::Han(*other)))
                .copied()
                .collect();
            assert!(
                shared.is_empty(),
                "{one:?} draws {other:?}'s faces: {shared:?}"
            );
        }
    }
    assert!(path_for(Role::Han, Region::Traditional, Choices::default()).contains("TC"));
}

/// Every group has something to offer, which [`family`] indexes into
/// without checking, and every entry supplies exactly the roles its group
/// covers.
#[test]
fn every_group_has_families_and_every_family_is_complete() {
    for group in groups() {
        assert!(!families(group).is_empty(), "{group:?}");
    }
    for (group, family) in all_families() {
        assert_eq!(
            family.faces.len(),
            group.roles().len(),
            "{} has the wrong number of faces",
            family.name
        );
    }
}

/// Names are the key a choice is stored under, and one group holds each
/// once. Across groups they repeat: 黑体 and 黑體 in two conventions.
#[test]
fn family_names_are_unique_within_a_group() {
    for group in groups() {
        let names: std::collections::HashSet<&str> =
            families(group).iter().map(|f| f.name).collect();
        assert_eq!(names.len(), families(group).len(), "{group:?}");
    }
}

/// The head of each list is what the app shipped with, so a writer who
/// never opens the panel is exactly where they were.
#[test]
fn the_default_choice_is_the_face_this_module_argues_for() {
    let default = Choices::default();
    for group in groups() {
        assert_eq!(default.get(group), 0, "{group:?}");
    }
    assert_eq!(
        path_for(Role::Body, Region::Simplified, default),
        "/mnt/us/extensions/karyll/fonts/iAWriterDuoS-Regular.ttf",
        "a page opens in the face iA Writer itself defaults to"
    );
    assert_eq!(
        path_for(Role::Chrome, Region::Simplified, default),
        "/usr/java/lib/fonts/Amazon-Ember-Regular.ttf",
        "the app stays in the Kindle's own face"
    );
    assert_eq!(
        path_for(Role::Han, Region::Simplified, default),
        "/usr/java/lib/fonts/STHeitiMedium.ttf"
    );
    assert_eq!(
        path_for(Role::Han, Region::Traditional, default),
        "/usr/java/lib/fonts/STHeitiTC.ttf"
    );
    assert_eq!(
        path_for(Role::Han, Region::Japanese, default),
        "/usr/java/lib/fonts/TBGothicMed_213.ttf"
    );
}

#[test]
fn a_choice_survives_the_round_trip_through_the_file() {
    let mut choices = Choices::default();
    choices.set(Group::Latin, 1);
    choices.set(Group::Han(Region::Japanese), 2);
    assert_eq!(Choices::parse(&choices.render()), choices);
    // By name. An index is a position in a list that gets edited.
    assert!(choices.render().contains("latin Mono"));
    assert!(choices.render().contains("ja 筑紫明朝"));
}

#[test]
fn a_stored_line_this_build_does_not_know_leaves_the_default() {
    let stored = "latin Quattro\nkr 바탕\nja Helvetica\nsc\n\ntc 楷體 and more\n";
    let got = Choices::parse(stored);
    assert_eq!(got.get(Group::Latin), 2, "a line it knows still applies");
    assert_eq!(got.get(Group::Han(Region::Japanese)), 0, "unknown name");
    assert_eq!(got.get(Group::Han(Region::Simplified)), 0, "no name at all");
    assert_eq!(
        got.get(Group::Han(Region::Traditional)),
        1,
        "trailing words are ignored rather than failing the line"
    );
}

/// A family removed by a later build leaves a stored index past the end.
/// The head of the list is the answer; a panic is not.
#[test]
fn a_choice_past_the_end_of_the_list_falls_back() {
    let mut choices = Choices::default();
    choices.set(Group::Latin, 99);
    assert_eq!(
        path_for(Role::Body, Region::Simplified, choices),
        path_for(Role::Body, Region::Simplified, Choices::default())
    );
}

/// Every face a document can be set in ships under the extension. The
/// chrome does not: a page falls through to [`FALLBACK`] and the panels
/// stay in Ember while the storage is away being read over USB.
#[test]
fn the_bundled_families_are_the_ones_karyll_ships() {
    const BUNDLED: &str = "/mnt/us/extensions/karyll/fonts/";
    let latin = families(Group::Latin);
    let shipped: Vec<&str> = latin
        .iter()
        .filter(|f| f.faces.iter().all(|p| p.starts_with(BUNDLED)))
        .map(|f| f.name)
        .collect();
    assert_eq!(shipped, vec!["Duo", "Mono", "Quattro"]);
    // Chrome is never bundled: the app has to draw itself on a device whose
    // storage is away being read over USB.
    assert!(CHROME_FACES.iter().all(|p| !p.starts_with(BUNDLED)));
    // No entry may straddle the two. A family half on the firmware and half
    // in the extension passes `available` with /mnt/us unmounted, with half
    // its faces gone.
    for family in families(Group::Latin) {
        let bundled = family.faces.iter().filter(|p| p.starts_with(BUNDLED));
        assert!(
            bundled.clone().count() == 0 || bundled.count() == family.faces.len(),
            "{} draws from both the firmware and the extension",
            family.name
        );
    }
    assert!(
        available_by(Group::Latin, |path| !path.starts_with(BUNDLED)).is_empty(),
        "the writing faces are the extension's, all of them"
    );
}

#[test]
fn only_families_whose_every_face_is_installed_are_offered() {
    let all = available_by(Group::Latin, |_| true);
    assert_eq!(all, vec![0, 1, 2]);
    assert!(available_by(Group::Latin, |_| false).is_empty());
    // One missing italic is enough: a Latin role has no second face to fall
    // back to, and emphasis comes out of the pan-Unicode fallback.
    let no_italic = available_by(Group::Latin, |path| !path.contains("Italic"));
    assert!(!no_italic.contains(&0), "Duo offered without its italic");
}

/// The advance cache is keyed on the slot index, and a family change is the
/// one thing that puts a different face in a slot. Left behind, the cached
/// widths lays Mono out to Duo's metrics.
#[test]
fn changing_a_family_drops_the_widths_measured_with_the_old_one() {
    let mut fonts = Faces::new(Choices::default());
    let mut advances = std::collections::HashMap::new();
    let latin = slot_of(Role::Body, Region::Simplified);
    let han = slot_of(Role::Han, Region::Simplified);
    let chrome = slot_of(Role::Chrome, Region::Simplified);
    for face in [latin, han, chrome] {
        advances.insert((face, 46, 'a'), 12.0);
    }

    let changed = fonts.set_family(Group::Latin, 1);
    advances.retain(|key, _| !changed.contains(&key.0));

    assert_eq!(fonts.choices.get(Group::Latin), 1);
    assert_eq!(fonts.family(Group::Latin).name, "Mono");
    assert!(fonts.paths[latin].contains("iAWriterMonoS"));
    assert!(
        !advances.keys().any(|key| key.0 == latin),
        "Duo's widths outlived Duo"
    );
    assert!(
        advances.keys().any(|key| key.0 == han),
        "a group nobody touched lost its cache"
    );
    assert!(
        advances.keys().any(|key| key.0 == chrome),
        "the panel was re-measured for a change it does not follow"
    );
    assert!(fonts.paths[chrome].contains("Amazon-Ember"));
}

/// Every role of the group moves, not the body alone. Emphasis moves to
/// the sans, which is what the pairing turns into under a serif body.
#[test]
fn changing_a_family_re_points_every_role_it_covers() {
    let mut fonts = Faces::new(Choices::default());
    fonts.set_family(Group::Han(Region::Japanese), 1);
    for role in Group::Han(Region::Japanese).roles() {
        let slot = slot_of(role, Region::Japanese);
        assert_ne!(
            fonts.paths[slot],
            path_for(role, Region::Japanese, Choices::default()),
            "{role:?} still draws from ゴシック's face"
        );
    }
    assert!(
        fonts.paths[slot_of(Role::Han, Region::Japanese)]
            .contains("TBMincho")
    );
    assert!(
        fonts.paths[slot_of(Role::HanBold, Region::Japanese)]
            .contains("TBMinchoBold")
    );
    // And the other conventions are untouched: they are chosen separately.
    assert!(
        fonts.paths[slot_of(Role::Han, Region::Simplified)]
            .contains("STHeiti")
    );
}

/// A row is measured by every convention of its Han roles, by the fallbacks of
/// none, and by the face it stands on.
#[test]
fn a_row_is_measured_by_the_faces_it_can_be_drawn_in() {
    let han = |region| slot_of(Role::Han, region);
    let body = slot_of(Role::Body, Region::Simplified);
    assert_eq!(
        measured_slots(&vec![Role::Han]),
        vec![
            han(Region::Simplified),
            han(Region::Traditional),
            han(Region::Japanese),
            body
        ]
    );
    assert_eq!(
        measured_slots(&vec![Role::Chrome]),
        vec![CHROME_AT, CHROME_AT]
    );
    assert_eq!(measured_slots(&Vec::new()), vec![body]);
}

#[test]
fn a_character_is_looked_for_in_its_own_faces_before_the_fallbacks() {
    let mut faces = Faces::new(Choices::default());
    faces.set_region(Region::Japanese);
    let order = faces.search_order(Role::Han);
    assert_eq!(order[0], slot_of(Role::Han, Region::Japanese));
    assert_eq!(&order[3..], &[FALLBACK_AT, FALLBACK_AT + 1]);
    assert_eq!(faces.search_order(Role::Body).len(), 3);
}

#[test]
fn ink_is_measured_on_a_character_of_the_script() {
    assert_eq!(probe(Role::Hangul), '한');
    assert_eq!(probe(Role::HanBold), '中');
    assert_eq!(probe(Role::ChromeBold), 'H');
}

#[test]
fn an_em_without_units_measures_nothing() {
    assert_eq!(vertical_in(&synthetic(0, 880, -120, 0)), None);
    let got = vertical_in(&synthetic(1000, -1, -32768, 32767)).expect("a font");
    assert_eq!((got.ascent, got.descent, got.gap), (-1, -32768, 32767));
}

/// A choice that the list has no place for is written as the first family.
#[test]
fn a_choice_past_the_end_is_written_as_the_first() {
    let mut choices = Choices::default();
    choices.set(Group::Hangul, 7);
    assert_eq!(Choices::parse(&choices.render()).get(Group::Hangul), 0);
    assert!(choices.render().ends_with("ko 고딕\n"));
}
