use karyll::faces::{drawn, Cover, Face, Found, Shelf};

/// A font that draws some characters, its glyphs numbered from one: the tables that
/// every font has, and a map of groups of one character each, in ascending order.
fn font(chars: &[char]) -> Vec<u8> {
    let mut cmap = Vec::new();
    for word in [0u16, 1, 3, 10] {
        cmap.extend(word.to_be_bytes());
    }
    cmap.extend(12u32.to_be_bytes());
    cmap.extend(12u16.to_be_bytes());
    cmap.extend(0u16.to_be_bytes());
    cmap.extend((16 + 12 * chars.len() as u32).to_be_bytes());
    cmap.extend(0u32.to_be_bytes());
    cmap.extend((chars.len() as u32).to_be_bytes());
    for (i, &c) in chars.iter().enumerate() {
        for word in [c as u32, c as u32, i as u32 + 1] {
            cmap.extend(word.to_be_bytes());
        }
    }
    let mut head = vec![0u8; 54];
    head[18..20].copy_from_slice(&1000u16.to_be_bytes());
    let mut hhea = vec![0u8; 36];
    hhea[34..36].copy_from_slice(&1u16.to_be_bytes());
    let mut maxp = 0x0000_5000u32.to_be_bytes().to_vec();
    maxp.extend((chars.len() as u16 + 1).to_be_bytes());

    let tables = [(b"cmap", cmap), (b"head", head), (b"hhea", hhea), (b"maxp", maxp)];
    let mut out = 0x0001_0000u32.to_be_bytes().to_vec();
    for word in [tables.len() as u16, 0, 0, 0] {
        out.extend(word.to_be_bytes());
    }
    let mut at = 12 + 16 * tables.len();
    for (tag, table) in &tables {
        out.extend(*tag);
        for word in [0, at as u32, table.len() as u32] {
            out.extend(word.to_be_bytes());
        }
        at += table.len();
    }
    for (_, table) in &tables {
        out.extend(table);
    }
    out
}

#[test]
fn a_face_draws_what_its_font_maps() {
    let face = Face::of(Some(font(&['H', '中'])));
    assert!(matches!(face, Face::Loaded(_)));
    assert_eq!(face.cover('H'), Cover::Draws);
    assert_eq!(face.cover('中'), Cover::Draws);
    assert_eq!(face.cover('한'), Cover::Lacks);
    assert_eq!(Face::Pending.cover('H'), Cover::Unknown);
    assert_eq!(Face::Absent.cover('H'), Cover::Lacks);
    assert_eq!(drawn(0), Cover::Lacks);
    assert_eq!(drawn(7), Cover::Draws);
}

#[test]
fn what_is_not_a_font_is_absent() {
    assert!(matches!(Face::of(None), Face::Absent));
    assert!(matches!(Face::of(Some(Vec::new())), Face::Absent));
    assert!(matches!(Face::of(Some(b"not a font at all".to_vec())), Face::Absent));
}

#[test]
fn a_character_is_looked_for_in_order() {
    let mut shelf = Shelf::new(3);
    let order = vec![9, 2, 0, 1];
    assert_eq!(shelf.resolve(&order, '한'), Found::Load(2));
    shelf.load(2, None);
    assert_eq!(shelf.resolve(&order, '한'), Found::Load(0));
    shelf.load(0, Some(font(&['H'])));
    // A face is read only once the search comes to it.
    assert_eq!(shelf.resolve(&order, 'H'), Found::At(0));
    assert!(matches!(shelf.faces[1], Face::Pending));
    assert_eq!(shelf.resolve(&order, '한'), Found::Load(1));
    shelf.load(1, Some(font(&['H', '한'])));
    assert_eq!(shelf.resolve(&order, '한'), Found::At(1));
    assert_eq!(shelf.resolve(&order, '字'), Found::Nowhere);
    // One that was read stays.
    shelf.load(0, Some(font(&['字'])));
    assert_eq!(shelf.resolve(&order, '字'), Found::Nowhere);
    // Another family in its slot is read again.
    shelf.forget(&vec![0, 7]);
    assert_eq!(shelf.resolve(&order, '字'), Found::Load(0));
    shelf.load(0, Some(font(&['字'])));
    assert_eq!(shelf.resolve(&order, '字'), Found::At(0));
}
