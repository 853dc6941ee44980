use karyll::maps::{check_table, locate, Fault, Mapping};
use karyll::osk::{close, height, open};
use karyll::ime::Script;
use karyll::plugin::{
    before_nul, came_up, context_of, converts, engine_for, find_converter, kept, left_by, produced,
    reading_of, units_of, Behind, Left, Readings, MARK, TRADITIONAL,
};

/// A library with two data ranges that do not touch.
fn mapping() -> Mapping {
    Mapping {
        path: "/a/plugin.so".into(),
        base: 0x1000,
        code: vec![0x1000..0x2000],
        data: vec![0x2000..0x2010, 0x3000..0x3010],
    }
}

#[test]
fn the_pending_keys_are_found_by_what_moved() {
    // Words 0 to 3 lie together, and 4 to 7. A counter at 4 with the keys
    // behind it, and another counter before them.
    let readings = Readings {
        quiet: vec![0, 9, 0, 0, 0, 0, 0, 0],
        one: vec![1, 9, 0, 97, 1, 97, 0, 0],
        two: vec![2, 9, 0, 97, 2, 97, 98, 0],
        emptied: vec![0, 9, 0, 0, 0, 97, 98, 0],
    };
    let pending = readings.find_pending(&mapping()).expect("a record");
    assert_eq!((pending.count, pending.keys), (0x3000, 0x3004));
    assert_eq!(pending.room, 3);
    assert!(pending.believes(3));
    assert!(!pending.believes(4));
}

#[test]
fn the_first_counter_serves_where_none_is_beside_the_keys() {
    let readings = Readings {
        quiet: vec![0, 0, 0, 0],
        one: vec![1, 0, 97, 0],
        two: vec![2, 0, 97, 98],
        emptied: vec![0, 0, 0, 0],
    };
    let pending = readings.find_pending(&mapping()).expect("a record");
    assert_eq!((pending.count, pending.keys, pending.room), (0x2000, 0x2008, 2));
    // A pair that a gap divides is no array.
    let gap = Readings {
        quiet: vec![0; 5],
        one: vec![1, 0, 0, 97, 0],
        two: vec![2, 0, 0, 97, 98],
        emptied: vec![0; 5],
    };
    assert!(gap.find_pending(&mapping()).is_none());
    let none = Readings {
        quiet: Vec::new(),
        one: Vec::new(),
        two: Vec::new(),
        emptied: Vec::new(),
    };
    assert!(none.find_pending(&mapping()).is_none());
}

#[test]
fn a_reading_is_letters_and_apostrophes() {
    assert_eq!(reading_of(&vec![120, 39, 97]).as_deref(), Some("x'a"));
    assert_eq!(reading_of(&Vec::new()).as_deref(), Some(""));
    assert_eq!(reading_of(&vec![120, 32]), None);
    assert_eq!(reading_of(&vec![0xd800]), None);
    assert_eq!(left_by(None), Left::Unknown);
    assert_eq!(left_by(Some(String::new())), Left::Nothing);
    assert_eq!(left_by(Some("jie".into())), Left::Reading("jie".into()));
}

#[test]
fn only_a_text_of_single_units_is_converted() {
    assert_eq!(units_of("国a"), Some(vec![0x56fd, 97]));
    assert_eq!(units_of("😀"), None);
    assert!(units_of(&"国".repeat(0xffff)).is_some());
    assert!(units_of(&"国".repeat(0x1_0000)).is_none());
    assert!(converts(0, TRADITIONAL));
    assert!(!converts(1, TRADITIONAL));
    assert!(!converts(0, 0x56fd));
    assert_eq!(context_of(0x88), Some(0));
    assert_eq!(context_of(0x87), None);
}

#[test]
fn a_c_string_ends_at_its_nul() {
    assert_eq!(before_nul(&vec![65, 66, 0, 67], 64), vec![65, 66]);
    assert_eq!(before_nul(&vec![65, 66, 67], 2), vec![65, 66]);
    assert_eq!(before_nul(&Vec::new(), 2), Vec::<u8>::new());
    assert_eq!(produced(12), 12);
    assert_eq!(produced(900), 500);
    assert!(came_up(1, false) && came_up(0, true) && !came_up(0, false));
}

const MAPS: &str = "\
00010000-00011000 r-xp 00000000 00:01 7    /a/my plugin.so
00011000-00012000 rw-p 00001000 00:01 7    /a/my plugin.so
00012000-00013000 rw-p 00000000 00:00 0
00020000-00021000 r-xp 00000000 00:01 8    /b/other.so
not a row
";

#[test]
fn a_table_is_checked_slot_by_slot() {
    let slots = vec![0x10004, 0x10008, 0x10ff0];
    let mapping = check_table(MAPS, &slots).expect("every slot is code");
    assert_eq!(mapping.path, "/a/my plugin.so");
    assert_eq!(mapping.data, vec![0x11000..0x13000]);
    assert_eq!(mapping.offset_of(0x11004), 0x1004);
    assert_eq!(mapping.offset_of(4), 0);
    assert_eq!(
        check_table(MAPS, &vec![0x10004, 0x10008, 0x20004]).err(),
        Some(Fault::Stray(2, 0x20004))
    );
    assert_eq!(
        check_table(MAPS, &vec![0x10004, 0x12004]).err(),
        Some(Fault::Unmapped(0x12004))
    );
    assert!(locate(MAPS, 0x99999).is_none());
    let words = vec![0, MARK, 7, MARK];
    let small = Mapping {
        path: String::new(),
        base: 0,
        code: Vec::new(),
        data: vec![0x100..0x108, 0x200..0x208],
    };
    assert_eq!(small.marked(&words, MARK), vec![0x104, 0x204]);
}

#[test]
fn the_keyboard_takes_what_its_service_says() {
    assert_eq!(open(), ("open", "com.karyll.editor:abc:1"));
    assert_eq!(close(), ("close", "com.karyll.editor"));
    assert_eq!(height(2480, None), 808);
    assert_eq!(height(900, Some("{}")), 300);
    assert_eq!(height(900, Some("{\"portrait_height\" : 412,")), 412);
    let far_away = format!("{}\"portrait_height\": 412", " ".repeat(2048));
    assert_eq!(height(900, Some(&far_away)), 300);
}

#[test]
fn the_first_context_that_converts_is_taken() {
    let marked = vec![0x10, 0x188, 0x288, 0x388];
    assert_eq!(find_converter(&marked, |c| c >= 0x200), Some(0x200));
    assert_eq!(find_converter(&marked, |c| c == 0x100), Some(0x100));
    assert_eq!(find_converter(&marked, |_| false), None);
    assert_eq!(find_converter(&vec![0x10], |_| true), None);
}

#[test]
fn candidates_that_cannot_be_read_are_left_out() {
    let list = vec![Some("a".to_string()), None, Some("b".to_string())];
    assert_eq!(kept(&list), vec!["a", "b"]);
    let many: Vec<Option<String>> = (0..60).map(|i| Some(i.to_string())).collect();
    assert_eq!(kept(&many).len(), 50);
    assert_eq!(kept(&many)[49], "49");
}

#[test]
fn an_engine_is_loaded_once() {
    let loaded = vec![Script::Japanese];
    assert_eq!(engine_for(None, &loaded), Behind::Keys);
    assert_eq!(engine_for(Some(Script::Korean), &loaded), Behind::Hangul);
    assert_eq!(engine_for(Some(Script::Japanese), &loaded), Behind::Loaded(0));
    assert_eq!(
        engine_for(Some(Script::Chinese), &loaded),
        Behind::Load(Script::Chinese)
    );
}
