//! Documents and their headings as the panels list them, and what the screens say
//! of themselves.

use vstd::prelude::*;

use crate::panel::{Item, ItemText, Listing, Mode, Section};
use crate::text::{
    chars_of, decimal, decimal_of, lemma_until, number, number_reads_what_decimal_writes, same_text,
    until,
};

verus! {

/// Where documents live.
pub fn documents() -> (r: &'static str)
    ensures
        r@ == "/mnt/us/karyll"@,
{
    "/mnt/us/karyll"
}

// ---------------------------------------------------------------------------
// Names
// ---------------------------------------------------------------------------

/// Whether a character may stand in a file's name: all but the three that make a
/// path of it.
pub open spec fn nameable(c: char) -> bool {
    c != '/' && c != '\\' && c != '\0'
}

pub fn in_filename(c: char) -> (r: bool)
    ensures
        r == nameable(c),
{
    !(c == '/' || c == '\\' || c == '\0')
}

/// What may stand in a file's name, of a text.
pub open spec fn nameable_part(s: Seq<char>) -> Seq<char>
    decreases s.len(),
{
    if s.len() == 0 {
        seq![]
    } else if nameable(s.last()) {
        nameable_part(s.drop_last()).push(s.last())
    } else {
        nameable_part(s.drop_last())
    }
}

/// Put what may stand in a name at the end of one.
pub fn extend_name(name: &mut String, text: &str)
    ensures
        final(name)@ == old(name)@ + nameable_part(text@),
{
    let chars = chars_of(text);
    let mut i: usize = 0;
    assert(name@ =~= old(name)@ + nameable_part(chars@.take(0)));
    while i < chars.len()
        invariant
            i <= chars.len(),
            name@ == old(name)@ + nameable_part(chars@.take(i as int)),
        decreases chars.len() - i,
    {
        let ghost before = name@;
        assert(chars@.take(i + 1).drop_last() =~= chars@.take(i as int));
        if in_filename(chars[i]) {
            name.push(chars[i]);
            assert(name@ =~= old(name)@ + nameable_part(chars@.take(i + 1)));
        }
        i = i + 1;
    }
    assert(chars@.take(i as int) =~= chars@);
}

/// A name never comes to hold a character that makes a path of it.
pub proof fn a_name_never_becomes_a_path(s: Seq<char>)
    ensures
        forall|i: int| 0 <= i < nameable_part(s).len() ==> nameable(#[trigger] nameable_part(s)[i]),
    decreases s.len(),
{
    if s.len() > 0 {
        let before = nameable_part(s.drop_last());
        a_name_never_becomes_a_path(s.drop_last());
        assert forall|i: int| 0 <= i < nameable_part(s).len() implies nameable(
            #[trigger] nameable_part(s)[i],
        ) by {
            if i < before.len() {
                assert(nameable_part(s)[i] == before[i]);
            }
        }
    }
}

/// The path of a document of a name.
pub open spec fn path_named(name: Seq<char>) -> Seq<char> {
    "/mnt/us/karyll/"@ + name + ".md"@
}

pub fn path_for(name: &str) -> (r: String)
    ensures
        r@ == path_named(name@),
{
    let mut s = String::from_str("/mnt/us/karyll/");
    s.append(name);
    s.append(".md");
    s
}

/// The path of a numbered draft.
pub open spec fn draft(n: nat) -> Seq<char> {
    "/mnt/us/karyll/draft-"@ + decimal(n) + ".md"@
}

/// How far drafts are numbered.
pub const DRAFTS: u64 = 1000;

/// Whether `taken` can have said `answer` of a path.
pub open spec fn said<T: Fn(&String) -> bool>(taken: T, path: Seq<char>, answer: bool) -> bool {
    exists|p: &String| p@ == path && #[trigger] taken.ensures((p,), answer)
}

/// Whether a path is the first numbered draft that is not taken, or the one without
/// a number where all are.
pub open spec fn first_free<T: Fn(&String) -> bool>(taken: T, path: Seq<char>) -> bool {
    ||| exists|n: nat|
        {
            &&& 1 <= n < DRAFTS
            &&& path == #[trigger] draft(n)
            &&& said(taken, draft(n), false)
            &&& forall|k: nat| 1 <= k < n ==> said(taken, #[trigger] draft(k), true)
        }
    ||| path == "/mnt/us/karyll/draft.md"@ && forall|k: nat|
        1 <= k < DRAFTS ==> said(taken, #[trigger] draft(k), true)
}

/// A path for a new document: the first numbered draft that is not taken, and the
/// one without a number where all are. Whether a path is taken is asked of
/// `taken`.
pub fn new_document<T: Fn(&String) -> bool>(taken: T) -> (r: String)
    requires
        forall|p: &String| taken.requires((p,)),
    ensures
        first_free(taken, r@),
{
    let mut n: u64 = 1;
    while n < DRAFTS
        invariant
            1 <= n <= DRAFTS,
            forall|p: &String| taken.requires((p,)),
            forall|k: nat| 1 <= k < n ==> said(taken, #[trigger] draft(k), true),
        decreases DRAFTS - n,
    {
        let mut path = String::from_str("/mnt/us/karyll/draft-");
        path.append(decimal_of(n).as_str());
        path.append(".md");
        assert(path@ == draft(n as nat));
        if !taken(&path) {
            assert(said(taken, draft(n as nat), false));
            return path;
        }
        assert(said(taken, draft(n as nat), true));
        n = n + 1;
    }
    "/mnt/us/karyll/draft.md".to_owned()
}

/// What is to be opened once the open document was deleted: the newest of those that
/// are left, and a new draft, to be made first, where none is. `true` is that it is
/// to be made.
pub fn next_open<T: Fn(&String) -> bool>(files: &Vec<Listing>, taken: T) -> (r: (String, bool))
    requires
        forall|p: &String| taken.requires((p,)),
    ensures
        r.1 == (files@.len() == 0),
        files@.len() > 0 ==> r.0@ == files@[0].path@,
        files@.len() == 0 ==> first_free(taken, r.0@),
{
    if files.len() > 0 {
        (files[0].path.clone(), false)
    } else {
        (new_document(taken), true)
    }
}

/// How a document comes to be at the path of its new name.
#[derive(Debug, Clone, Copy, PartialEq, Eq, Structural)]
pub enum Renaming {
    /// It is saved where it is, and moved.
    Move,
    /// It is saved where it is, which is where it is to be.
    Stay,
    /// It had no path, and is written there.
    Write,
}

/// What becomes of a document that is given a path.
pub open spec fn renamed(open: Option<String>, path: Seq<char>) -> Renaming {
    if open is None {
        Renaming::Write
    } else if is_path(open, path) {
        Renaming::Stay
    } else {
        Renaming::Move
    }
}

pub fn renaming(open: &Option<String>, path: &str) -> (r: Renaming)
    ensures
        r == renamed(*open, path@),
{
    if open.is_none() {
        Renaming::Write
    } else if at_path(open, path) {
        Renaming::Stay
    } else {
        Renaming::Move
    }
}

// ---------------------------------------------------------------------------
// Ages and lengths
// ---------------------------------------------------------------------------

pub const MINUTE: u64 = 60;

pub const HOUR: u64 = 3_600;

pub const DAY: u64 = 86_400;

pub const MONTH: u64 = 2_592_000;

pub const YEAR: u64 = 31_536_000;

/// A number of units, ago.
pub open spec fn units_ago(n: nat, unit: Seq<char>) -> Seq<char> {
    if n == 1 {
        "1 "@ + unit + " ago"@
    } else {
        decimal(n) + " "@ + unit + "s ago"@
    }
}

/// How long ago, in the coarsest unit that says something.
pub open spec fn age(s: u64) -> Seq<char> {
    if s < MINUTE {
        "just now"@
    } else if s < HOUR {
        units_ago((s / MINUTE) as nat, "minute"@)
    } else if s < DAY {
        units_ago((s / HOUR) as nat, "hour"@)
    } else if s < 2 * DAY {
        "yesterday"@
    } else if s < MONTH {
        units_ago((s / DAY) as nat, "day"@)
    } else if s < YEAR {
        units_ago((s / MONTH) as nat, "month"@)
    } else {
        units_ago((s / YEAR) as nat, "year"@)
    }
}

fn plural(n: u64, unit: &str) -> (r: String)
    ensures
        r@ == units_ago(n as nat, unit@),
{
    if n == 1 {
        let mut s = String::from_str("1 ");
        s.append(unit);
        s.append(" ago");
        s
    } else {
        let mut s = decimal_of(n);
        s.append(" ");
        s.append(unit);
        s.append("s ago");
        s
    }
}

/// How long ago a number of seconds was.
pub fn ago(s: u64) -> (r: String)
    ensures
        r@ == age(s),
{
    if s < MINUTE {
        "just now".to_owned()
    } else if s < HOUR {
        plural(s / MINUTE, "minute")
    } else if s < DAY {
        plural(s / HOUR, "hour")
    } else if s < 2 * DAY {
        "yesterday".to_owned()
    } else if s < MONTH {
        plural(s / DAY, "day")
    } else if s < YEAR {
        plural(s / MONTH, "month")
    } else {
        plural(s / YEAR, "year")
    }
}

/// What the list says of a document: how long it is and how lately it was written,
/// a stamp in the future being just now, and that it is the open one.
pub open spec fn described(words: Seq<char>, since: Option<u64>, open: bool) -> Seq<char> {
    let when = match since {
        Some(s) => age(s),
        None => "just now"@,
    };
    if open {
        "open  ·  "@ + words + "  ·  "@ + when
    } else {
        words + "  ·  "@ + when
    }
}

pub fn describe_listing(words: &str, since: Option<u64>, open: bool) -> (r: String)
    ensures
        r@ == described(words@, since, open),
{
    let when = match since {
        Some(s) => ago(s),
        None => "just now".to_owned(),
    };
    let mut s = if open {
        String::from_str("open  ·  ").concat(words)
    } else {
        words.to_owned()
    };
    s.append("  ·  ");
    s.append(when.as_str());
    s
}

// ---------------------------------------------------------------------------
// The lists
// ---------------------------------------------------------------------------

/// Whether a path is the one there is.
pub open spec fn is_path(held: Option<String>, path: Seq<char>) -> bool {
    held is Some && held->0@ == path
}

pub fn at_path(held: &Option<String>, path: &str) -> (r: bool)
    ensures
        r == is_path(*held, path@),
{
    match held {
        Some(p) => same_text(p.as_str(), path),
        None => false,
    }
}

/// One document's line: the open one by the words in hand, and its chip by
/// whether it was tapped once.
pub open spec fn file_line(
    listing: Listing,
    open: Option<String>,
    arming: Option<String>,
    words: Seq<char>,
) -> ItemText {
    let here = is_path(open, listing.path@);
    ItemText::Row {
        label: listing.name@,
        detail: described(
            if here {
                words
            } else {
                listing.words@
            },
            listing.age,
            here,
        ),
        on: here,
        action: Some(
            if is_path(arming, listing.path@) {
                "Delete?"@
            } else {
                "Delete"@
            },
        ),
    }
}

/// The lines of the Files panel.
pub fn file_items(
    files: &Vec<Listing>,
    open: &Option<String>,
    arming: &Option<String>,
    words: &str,
) -> (r: Vec<Item>)
    ensures
        r.len() == files.len(),
        forall|i: int|
            0 <= i < files.len() ==> (#[trigger] r[i])@ == file_line(files[i], *open, *arming, words@),
{
    let mut out: Vec<Item> = Vec::new();
    let mut i: usize = 0;
    while i < files.len()
        invariant
            i <= files.len(),
            out.len() == i,
            forall|k: int|
                0 <= k < i ==> (#[trigger] out[k])@ == file_line(files[k], *open, *arming, words@),
        decreases files.len() - i,
    {
        let listing = &files[i];
        let here = at_path(open, listing.path.as_str());
        let armed = at_path(arming, listing.path.as_str());
        let detail = if here {
            describe_listing(words, listing.age, true)
        } else {
            describe_listing(listing.words.as_str(), listing.age, false)
        };
        out.push(
            Item::Row {
                label: listing.name.clone(),
                detail,
                on: here,
                action: Some(
                    if armed {
                        "Delete?".to_owned()
                    } else {
                        "Delete".to_owned()
                    },
                ),
            },
        );
        i = i + 1;
    }
    out
}

/// A heading as the document's analysis gives it.
#[derive(Debug, Clone, Copy, PartialEq, Eq, Structural)]
pub struct Head {
    pub start: usize,
    pub end: usize,
}

/// The prose under a heading: from its end to the next, or to the end of the document.
pub open spec fn prose_of(heads: Seq<Head>, i: int, len: usize) -> (usize, usize) {
    let until = if i + 1 < heads.len() {
        heads[i + 1].start
    } else {
        len
    };
    (
        if heads[i].end <= until {
            heads[i].end
        } else {
            until
        },
        until,
    )
}

/// The prose under each heading: from the end of its line to the next heading of
/// any level, or to the end of the document.
pub fn prose_under(heads: &Vec<Head>, len: usize) -> (r: Vec<(usize, usize)>)
    ensures
        r.len() == heads.len(),
        forall|i: int|
            0 <= i < heads.len() ==> (#[trigger] r[i]) == prose_of(heads@, i, len),
{
    let mut out: Vec<(usize, usize)> = Vec::new();
    let mut i: usize = 0;
    while i < heads.len()
        invariant
            i <= heads.len(),
            out.len() == i,
            forall|k: int|
                0 <= k < i ==> ({
                    let until = if k + 1 < heads.len() {
                        heads[k + 1].start
                    } else {
                        len
                    };
                    (#[trigger] out[k]) == (
                        if heads[k].end <= until {
                            heads[k].end
                        } else {
                            until
                        },
                        until,
                    )
                }),
        decreases heads.len() - i,
    {
        let until: usize = if i + 1 < heads.len() {
            heads[i + 1].start
        } else {
            len
        };
        let from: usize = if heads[i].end <= until {
            heads[i].end
        } else {
            until
        };
        out.push((from, until));
        i = i + 1;
    }
    out
}

/// The section a place is in: the last whose heading is at or before it.
pub open spec fn section_at(sections: Seq<Section>, cursor: usize) -> Option<int>
    decreases sections.len(),
{
    if sections.len() == 0 {
        None
    } else if sections.last().at <= cursor {
        Some(sections.len() - 1)
    } else {
        section_at(sections.drop_last(), cursor)
    }
}

pub fn section_of(sections: &Vec<Section>, cursor: usize) -> (r: Option<usize>)
    ensures
        match r {
            Some(i) => section_at(sections@, cursor) == Some(i as int) && i < sections.len(),
            None => section_at(sections@, cursor) is None,
        },
{
    let mut i: usize = sections.len();
    assert(sections@.take(i as int) =~= sections@);
    while i > 0
        invariant
            i <= sections.len(),
            section_at(sections@, cursor) == section_at(sections@.take(i as int), cursor),
        decreases i,
    {
        assert(sections@.take(i as int).last() == sections@[i - 1]);
        assert(sections@.take(i as int).drop_last() =~= sections@.take(i - 1));
        if sections[i - 1].at <= cursor {
            return Some(i - 1);
        }
        i = i - 1;
    }
    None
}

/// The page of the outline that holds the section the cursor is in.
pub fn opening_page(sections: &Vec<Section>, cursor: usize, capacity: usize) -> (r: usize)
    ensures
        r == (match section_at(sections@, cursor) {
            Some(i) => i,
            None => 0,
        }) / (if capacity < 1 {
            1int
        } else {
            capacity as int
        }),
{
    let here: usize = match section_of(sections, cursor) {
        Some(i) => i,
        None => 0,
    };
    let cap: usize = if capacity < 1 {
        1
    } else {
        capacity
    };
    here / cap
}

/// So many steps of the outline's indent.
pub open spec fn indent(steps: nat) -> Seq<char> {
    Seq::new(4 * steps, |i: int| ' ')
}

/// A heading's line: indented by its level, named even where it has no name, and
/// marked where the cursor is in its section.
pub open spec fn outline_line(section: Section, here: bool) -> ItemText {
    ItemText::Row {
        label: indent(
            if section.level >= 1 {
                (section.level - 1) as nat
            } else {
                0
            },
        ) + (if section.text@.len() == 0 {
            "(untitled)"@
        } else {
            section.text@
        }),
        detail: section.words@,
        on: here,
        action: None,
    }
}

pub fn outline_items(sections: &Vec<Section>, cursor: usize) -> (r: Vec<Item>)
    ensures
        r.len() == sections.len(),
        forall|i: int|
            0 <= i < sections.len() ==> (#[trigger] r[i])@ == outline_line(
                sections[i],
                section_at(sections@, cursor) == Some(i),
            ),
{
    let here: Option<usize> = section_of(sections, cursor);
    let mut out: Vec<Item> = Vec::new();
    let mut i: usize = 0;
    while i < sections.len()
        invariant
            i <= sections.len(),
            out.len() == i,
            match here {
                Some(h) => section_at(sections@, cursor) == Some(h as int),
                None => section_at(sections@, cursor) is None,
            },
            forall|k: int|
                0 <= k < i ==> (#[trigger] out[k])@ == outline_line(
                    sections[k],
                    section_at(sections@, cursor) == Some(k),
                ),
        decreases sections.len() - i,
    {
        let section = &sections[i];
        let steps: u8 = if section.level >= 1 {
            section.level - 1
        } else {
            0
        };
        let mut label = String::new();
        let mut k: u8 = 0;
        assert(label@ =~= indent(0));
        while k < steps
            invariant
                k <= steps,
                label@ == indent(k as nat),
            decreases steps - k,
        {
            label.push(' ');
            label.push(' ');
            label.push(' ');
            label.push(' ');
            assert(label@ =~= indent((k + 1) as nat));
            k = k + 1;
        }
        let text = chars_of(section.text.as_str());
        label.append(
            if text.len() == 0 {
                "(untitled)"
            } else {
                section.text.as_str()
            },
        );
        let on = match here {
            Some(h) => h == i,
            None => false,
        };
        out.push(Item::Row { label, detail: section.words.clone(), on, action: None });
        i = i + 1;
    }
    out
}

/// At most one section is marked, and it is the last that begins at or before the
/// cursor.
pub proof fn the_marked_section_is_the_one_the_cursor_is_in(sections: Seq<Section>, cursor: usize)
    ensures
        match section_at(sections, cursor) {
            Some(i) => 0 <= i < sections.len() && sections[i].at <= cursor && forall|k: int|
                i < k < sections.len() ==> (#[trigger] sections[k]).at > cursor,
            None => forall|k: int| 0 <= k < sections.len() ==> (#[trigger] sections[k]).at > cursor,
        },
    decreases sections.len(),
{
    if sections.len() > 0 && sections.last().at > cursor {
        let front = sections.drop_last();
        the_marked_section_is_the_one_the_cursor_is_in(front, cursor);
        match section_at(sections, cursor) {
            Some(i) => {
                assert(front[i] == sections[i]);
                assert forall|k: int| i < k < sections.len() implies (#[trigger] sections[k]).at
                    > cursor by {
                    if k < sections.len() - 1 {
                        assert(front[k] == sections[k]);
                    }
                }
            },
            None => {
                assert forall|k: int| 0 <= k < sections.len() implies (#[trigger] sections[k]).at
                    > cursor by {
                    if k < sections.len() - 1 {
                        assert(front[k] == sections[k]);
                    }
                }
            },
        }
    }
}

/// Whether one of two documents comes before the other in the list: the newer, and
/// of two of one moment the one that was read first.
pub open spec fn comes_before(stamps: Seq<u64>, a: int, b: int) -> bool {
    stamps[a] > stamps[b] || (stamps[a] == stamps[b] && a < b)
}

/// The order in which documents are listed, by when each was written: newest
/// first.
pub fn newest_first(stamps: &Vec<u64>) -> (r: Vec<usize>)
    ensures
        r.len() == stamps.len(),
        forall|i: int| 0 <= i < r.len() ==> (#[trigger] r[i]) < stamps.len(),
        forall|i: int, j: int|
            0 <= i < j < r.len() ==> comes_before(
                stamps@,
                #[trigger] r[i] as int,
                #[trigger] r[j] as int,
            ),
{
    let mut out: Vec<usize> = Vec::new();
    let mut n: usize = 0;
    while n < stamps.len()
        invariant
            n <= stamps.len(),
            out.len() == n,
            forall|i: int| 0 <= i < out.len() ==> (#[trigger] out[i]) < n,
            forall|i: int, j: int|
                0 <= i < j < out.len() ==> comes_before(
                    stamps@,
                    #[trigger] out[i] as int,
                    #[trigger] out[j] as int,
                ),
        decreases stamps.len() - n,
    {
        let mut at: usize = 0;
        while at < out.len() && stamps[out[at]] >= stamps[n]
            invariant
                at <= out.len() == n,
                n < stamps.len(),
                forall|i: int| 0 <= i < out.len() ==> (#[trigger] out[i]) < n,
                forall|i: int| 0 <= i < at ==> stamps@[(#[trigger] out[i]) as int] >= stamps@[n as int],
            decreases out.len() - at,
        {
            at = at + 1;
        }
        let ghost before = out@;
        out.insert(at, n);
        proof {
            assert(out@ =~= before.insert(at as int, n));
            assert forall|i: int, j: int| 0 <= i < j < out.len() implies comes_before(
                stamps@,
                #[trigger] out[i] as int,
                #[trigger] out[j] as int,
            ) by {
                if j < at {
                    assert(out@[i] == before[i] && out@[j] == before[j]);
                } else if i > at {
                    assert(out@[i] == before[i - 1] && out@[j] == before[j - 1]);
                } else if i < at && j > at {
                    assert(out@[i] == before[i] && out@[j] == before[j - 1]);
                } else if j == at {
                    assert(out@[i] == before[i]);
                } else {
                    assert(out@[j] == before[j - 1]);
                    if j - 1 > at {
                        assert(comes_before(stamps@, before[at as int] as int, before[j - 1] as int));
                    }
                }
            }
            assert forall|i: int| 0 <= i < out.len() implies (#[trigger] out[i]) < n + 1 by {
                if i < at {
                    assert(out@[i] == before[i]);
                } else if i > at {
                    assert(out@[i] == before[i - 1]);
                }
            }
        }
        n = n + 1;
    }
    out
}

/// Every document is listed once: an order in which each comes before the next
/// names none twice.
pub proof fn every_document_is_listed_once(stamps: Seq<u64>, order: Seq<usize>, i: int, j: int)
    requires
        0 <= i < order.len(),
        0 <= j < order.len(),
        i != j,
        forall|a: int, b: int|
            0 <= a < b < order.len() ==> comes_before(
                stamps,
                #[trigger] order[a] as int,
                #[trigger] order[b] as int,
            ),
    ensures
        order[i] != order[j],
{
    if i < j {
        assert(comes_before(stamps, order[i] as int, order[j] as int));
    } else {
        assert(comes_before(stamps, order[j] as int, order[i] as int));
    }
}

/// Whether a file is a document, by its name: something, and `.md` behind it.
pub open spec fn is_document_name(name: Seq<char>) -> bool {
    name.len() > 3 && name.skip(name.len() - 3) == seq!['.', 'm', 'd']
}

pub fn is_document(name: &str) -> (r: bool)
    ensures
        r == is_document_name(name@),
{
    let chars = chars_of(name);
    let n: usize = chars.len();
    if n <= 3 {
        return false;
    }
    let r = chars[n - 3] == '.' && chars[n - 2] == 'm' && chars[n - 1] == 'd';
    proof {
        let tail = chars@.skip(n - 3);
        let md = seq!['.', 'm', 'd'];
        assert(tail[0] == chars@[n - 3] && tail[1] == chars@[n - 2] && tail[2] == chars@[n - 1]);
        assert(md[0] == '.' && md[1] == 'm' && md[2] == 'd');
        if r {
            assert(tail =~= md);
        }
    }
    r
}

// ---------------------------------------------------------------------------
// What the screens say
// ---------------------------------------------------------------------------

/// What a panel is headed by.
pub open spec fn titled(mode: Mode) -> Seq<char> {
    match mode {
        Mode::Files(_) => "Files"@,
        Mode::Config => "Config"@,
        Mode::Naming { for_new, .. } => if for_new {
            "New document"@
        } else {
            "Rename"@
        },
        Mode::Help => "Help"@,
        Mode::Outline(_) => "Outline"@,
        Mode::Writing => "Karyll"@,
    }
}

pub fn title(mode: &Mode) -> (r: &'static str)
    ensures
        r@ == titled(*mode),
{
    match mode {
        Mode::Files(_) => "Files",
        Mode::Config => "Config",
        Mode::Naming { for_new, name: _ } => if *for_new {
            "New document"
        } else {
            "Rename"
        },
        Mode::Help => "Help",
        Mode::Outline(_) => "Outline",
        Mode::Writing => "Karyll",
    }
}

/// Which of a list are on screen: the first and the last by number, of how many.
pub open spec fn span_text(start: int, end: int, total: int) -> Seq<char> {
    decimal((start + 1) as nat) + "–"@ + decimal(
        (if end < total {
            end
        } else {
            total
        }) as nat,
    ) + " of "@ + decimal(total as nat)
}

fn span(start: usize, end: usize, total: usize) -> (r: String)
    requires
        start < usize::MAX,
    ensures
        r@ == span_text(start as int, end as int, total as int),
{
    let mut s = decimal_of((start + 1) as u64);
    s.append("–");
    let to: usize = if end < total {
        end
    } else {
        total
    };
    s.append(decimal_of(to as u64).as_str());
    s.append(" of ");
    s.append(decimal_of(total as u64).as_str());
    s
}

/// What a panel says under its title, with the lines from `start` to `end` of its
/// list on screen.
pub open spec fn status_text(mode: Mode, preedit: Seq<char>, start: int, end: int) -> Seq<char> {
    match mode {
        Mode::Naming { name, .. } => if name@.len() == 0 && preedit.len() == 0 {
            "Type a name, then Enter. Esc cancels."@
        } else {
            name@ + preedit + ".md"@
        },
        Mode::Files(files) => {
            let n = files.len() as int;
            if n == 0 {
                "Nothing in /mnt/us/karyll yet."@
            } else if n == 1 {
                "1 document in /mnt/us/karyll"@
            } else if n > end - start {
                span_text(start, end, n) + " documents in /mnt/us/karyll"@
            } else {
                decimal(n as nat) + " documents in /mnt/us/karyll"@
            }
        },
        Mode::Config => "Changes apply at once."@,
        Mode::Help => "Ctrl/⌘ + H opens this page.  Esc closes it."@,
        Mode::Outline(sections) => {
            let n = sections.len() as int;
            if n == 0 {
                "Ctrl/⌘ + 1 … 6 makes a heading."@
            } else if n > end - start {
                span_text(start, end, n) + " sections. Tap one to go there."@
            } else if n == 1 {
                "1 section. Tap it to go there."@
            } else {
                decimal(n as nat) + " sections. Tap one to go there."@
            }
        },
        Mode::Writing => seq![],
    }
}

pub fn panel_status(mode: &Mode, preedit: &str, start: usize, end: usize) -> (r: String)
    requires
        start < usize::MAX,
        start <= end,
    ensures
        r@ == status_text(*mode, preedit@, start as int, end as int),
{
    match mode {
        Mode::Naming { for_new: _, name } => {
            let typed = chars_of(name.as_str());
            let more = chars_of(preedit);
            if typed.len() == 0 && more.len() == 0 {
                "Type a name, then Enter. Esc cancels.".to_owned()
            } else {
                let mut s = name.clone();
                s.append(preedit);
                s.append(".md");
                s
            }
        },
        Mode::Files(files) => {
            let n: usize = files.len();
            if n == 0 {
                "Nothing in /mnt/us/karyll yet.".to_owned()
            } else if n == 1 {
                "1 document in /mnt/us/karyll".to_owned()
            } else {
                let mut s = if n > end - start {
                    span(start, end, n)
                } else {
                    decimal_of(n as u64)
                };
                s.append(" documents in /mnt/us/karyll");
                s
            }
        },
        Mode::Config => "Changes apply at once.".to_owned(),
        Mode::Help => "Ctrl/⌘ + H opens this page.  Esc closes it.".to_owned(),
        Mode::Outline(sections) => {
            let n: usize = sections.len();
            if n == 0 {
                "Ctrl/⌘ + 1 … 6 makes a heading.".to_owned()
            } else if n > end - start {
                let mut s = span(start, end, n);
                s.append(" sections. Tap one to go there.");
                s
            } else if n == 1 {
                "1 section. Tap it to go there.".to_owned()
            } else {
                let mut s = decimal_of(n as u64);
                s.append(" sections. Tap one to go there.");
                s
            }
        },
        Mode::Writing => {
            let s = String::new();
            assert(s@ =~= seq![]);
            s
        },
    }
}

/// What the status line says of the document on the page: its name, its length
/// and whether it is on disk. Nothing on a panel or under the find bar.
pub open spec fn page_status(
    writing: bool,
    finding: bool,
    name: Option<Seq<char>>,
    words: Seq<char>,
    dirty: bool,
) -> Seq<char> {
    if !writing || finding {
        seq![]
    } else {
        (match name {
            Some(name) => name,
            None => "Untitled"@,
        }) + "  ·  "@ + words + "  ·  "@ + (if dirty {
            "not yet saved"@
        } else {
            "saved"@
        })
    }
}

pub fn status_line(
    writing: bool,
    finding: bool,
    name: Option<&str>,
    words: &str,
    dirty: bool,
) -> (r: String)
    ensures
        r@ == page_status(
            writing,
            finding,
            match name {
                Some(s) => Some(s@),
                None => None,
            },
            words@,
            dirty,
        ),
{
    if !writing || finding {
        let s = String::new();
        assert(s@ =~= seq![]);
        return s;
    }
    let mut s = match name {
        Some(name) => name.to_owned(),
        None => "Untitled".to_owned(),
    };
    s.append("  ·  ");
    s.append(words);
    s.append("  ·  ");
    s.append(
        if dirty {
            "not yet saved"
        } else {
            "saved"
        },
    );
    s
}

proof fn lemma_whole_units(n: nat, unit: nat, over: nat)
    requires
        over < unit,
    ensures
        (unit * n + over) / unit == n,
{
    assert(unit * n == n * unit) by (nonlinear_arith);
    vstd::arithmetic::div_mod::lemma_fundamental_div_mod_converse(
        (unit * n + over) as int,
        unit as int,
        n as int,
        over as int,
    );
}

/// An age is told in the greatest unit that it fills, and in whole ones of it: of sixty
/// seconds, sixty minutes, twenty-four hours, thirty days and three hundred and sixty-five.
/// The day before this one is told by its name.
pub proof fn an_age_is_told_in_whole_units(n: nat, over: nat)
    ensures
        over < 60 ==> age(over as u64) == "just now"@,
        over < 86400 ==> age((86400 + over) as u64) == "yesterday"@,
        2 <= n < 60 && over < 60 ==> age((60 * n + over) as u64) == decimal(n) + " minutes ago"@,
        over < 60 ==> age((60 + over) as u64) == "1 minute ago"@,
        2 <= n < 24 && over < 3600 ==> age((3600 * n + over) as u64) == decimal(n) + " hours ago"@,
        over < 3600 ==> age((3600 + over) as u64) == "1 hour ago"@,
        2 <= n < 30 && over < 86400 ==> age((86400 * n + over) as u64) == decimal(n) + " days ago"@,
        2 <= n && over < 2592000 && 2592000 * n + over < 31536000 ==> age((2592000 * n + over) as u64) == decimal(n) + " months ago"@,
        over < 2592000 ==> age((2592000 + over) as u64) == "1 month ago"@,
        2 <= n && over < 31536000 && 31536000 * n + over <= u64::MAX ==> age((31536000 * n + over) as u64) == decimal(n) + " years ago"@,
        over < 31536000 ==> age((31536000 + over) as u64) == "1 year ago"@,
{
    reveal_strlit("1 ");
    reveal_strlit(" ");
    reveal_strlit(" ago");
    reveal_strlit("s ago");
    reveal_strlit(" minutes ago");
    reveal_strlit("1 minute ago");
    reveal_strlit("minute");
    reveal_strlit(" hours ago");
    reveal_strlit("1 hour ago");
    reveal_strlit("hour");
    reveal_strlit(" days ago");
    reveal_strlit("1 day ago");
    reveal_strlit("day");
    reveal_strlit(" months ago");
    reveal_strlit("1 month ago");
    reveal_strlit("month");
    reveal_strlit(" years ago");
    reveal_strlit("1 year ago");
    reveal_strlit("year");
    if over < 60 {
        lemma_whole_units(n, 60, over);
        lemma_whole_units(1, 60, over);
    }
    assert(units_ago(n, "minute"@) =~= (if n == 1 {
        "1 minute ago"@
    } else {
        decimal(n) + " minutes ago"@
    }));
    assert(units_ago(1, "minute"@) =~= "1 minute ago"@);
    if over < 3600 {
        lemma_whole_units(n, 3600, over);
        lemma_whole_units(1, 3600, over);
    }
    assert(units_ago(n, "hour"@) =~= (if n == 1 {
        "1 hour ago"@
    } else {
        decimal(n) + " hours ago"@
    }));
    assert(units_ago(1, "hour"@) =~= "1 hour ago"@);
    if over < 86400 {
        lemma_whole_units(n, 86400, over);
        lemma_whole_units(1, 86400, over);
    }
    assert(units_ago(n, "day"@) =~= (if n == 1 {
        "1 day ago"@
    } else {
        decimal(n) + " days ago"@
    }));
    assert(units_ago(1, "day"@) =~= "1 day ago"@);
    if over < 2592000 {
        lemma_whole_units(n, 2592000, over);
        lemma_whole_units(1, 2592000, over);
    }
    assert(units_ago(n, "month"@) =~= (if n == 1 {
        "1 month ago"@
    } else {
        decimal(n) + " months ago"@
    }));
    assert(units_ago(1, "month"@) =~= "1 month ago"@);
    if over < 31536000 {
        lemma_whole_units(n, 31536000, over);
        lemma_whole_units(1, 31536000, over);
    }
    assert(units_ago(n, "year"@) =~= (if n == 1 {
        "1 year ago"@
    } else {
        decimal(n) + " years ago"@
    }));
    assert(units_ago(1, "year"@) =~= "1 year ago"@);
}

/// A document's file is its name in the directory of the documents: its path gives the name
/// back, and is the path of no other.
pub proof fn a_path_gives_its_name_back(name: Seq<char>, other: Seq<char>)
    ensures
        path_named(name).len() == name.len() + 18,
        path_named(name).subrange(15, 15 + name.len() as int) == name,
        path_named(name).take(15) == seq![
            '/', 'm', 'n', 't', '/', 'u', 's', '/', 'k', 'a', 'r', 'y', 'l', 'l', '/',
        ],
        path_named(name).skip(15 + name.len() as int) == seq!['.', 'm', 'd'],
        path_named(name) == path_named(other) ==> name == other,
        name.len() > 0 ==> is_document_name(path_named(name).skip(15)),
{
    reveal_strlit("/mnt/us/karyll/");
    reveal_strlit(".md");
    let path = path_named(name);
    assert(path.subrange(15, 15 + name.len() as int) =~= name);
    assert(path.take(15) =~= seq![
        '/', 'm', 'n', 't', '/', 'u', 's', '/', 'k', 'a', 'r', 'y', 'l', 'l', '/',
    ]);
    assert(path.skip(15 + name.len() as int) =~= seq!['.', 'm', 'd']);
    assert(path_named(other).subrange(15, 15 + other.len() as int) =~= other);
    let file = path.skip(15);
    assert(file.skip(file.len() - 3) =~= seq!['.', 'm', 'd']);
}

/// A draft is the document named by its number, so that no two share a file.
pub proof fn a_draft_is_named_by_its_number(n: nat, other: nat)
    ensures
        draft(n) == path_named(seq!['d', 'r', 'a', 'f', 't', '-'] + decimal(n)),
        draft(n) == draft(other) ==> n == other,
{
    reveal_strlit("/mnt/us/karyll/");
    reveal_strlit("/mnt/us/karyll/draft-");
    reveal_strlit(".md");
    let word = seq!['d', 'r', 'a', 'f', 't', '-'];
    assert(draft(n) =~= path_named(word + decimal(n)));
    assert(draft(other) =~= path_named(word + decimal(other)));
    if draft(n) == draft(other) {
        a_path_gives_its_name_back(word + decimal(n), word + decimal(other));
        assert((word + decimal(n)).skip(6) =~= decimal(n));
        assert((word + decimal(other)).skip(6) =~= decimal(other));
        number_reads_what_decimal_writes(n, (n + other) as int);
        number_reads_what_decimal_writes(other, (n + other) as int);
    }
}

/// The part of a text that can stand in a name is that of its pieces, and all of one that
/// holds no slash of either kind and no null character.
pub proof fn a_name_keeps_what_it_can(a: Seq<char>, b: Seq<char>)
    ensures
        nameable_part(a + b) == nameable_part(a) + nameable_part(b),
        (forall|i: int| 0 <= i < b.len() ==> #[trigger] b[i] != '/' && b[i] != '\\' && b[i] != '\0')
            ==> nameable_part(b) == b,
        nameable_part(seq!['/']).len() == 0,
        nameable_part(seq!['\\']).len() == 0,
        nameable_part(seq!['\0']).len() == 0,
    decreases b.len(),
{
    assert(forall|c: char| #[trigger] seq![c].drop_last() =~= Seq::<char>::empty());
    assert(seq!['/'].drop_last() =~= Seq::<char>::empty());
    assert(seq!['\\'].drop_last() =~= Seq::<char>::empty());
    assert(seq!['\0'].drop_last() =~= Seq::<char>::empty());
    assert(nameable_part(Seq::<char>::empty()) =~= Seq::<char>::empty());
    if b.len() == 0 {
        assert(a + b =~= a);
        assert(nameable_part(a) + nameable_part(b) =~= nameable_part(a));
        assert(nameable_part(b) =~= b);
    } else {
        a_name_keeps_what_it_can(a, b.drop_last());
        assert((a + b).drop_last() =~= a + b.drop_last());
        assert((a + b).last() == b.last());
        assert(nameable_part(a + b) =~= nameable_part(a) + nameable_part(b));
        if forall|i: int| 0 <= i < b.len() ==> #[trigger] b[i] != '/' && b[i] != '\\' && b[i] != '\0' {
            assert(b.drop_last().push(b.last()) =~= b);
        }
    }
}

/// A document is a file whose name goes on before its ending.
pub proof fn a_document_is_named_before_its_ending(name: Seq<char>)
    ensures
        is_document_name(name + seq!['.', 'm', 'd']) <==> name.len() > 0,
        is_document_name(name) ==> name == name.take(name.len() - 3) + seq!['.', 'm', 'd'],
{
    let whole = name + seq!['.', 'm', 'd'];
    assert(whole.skip(whole.len() - 3) =~= seq!['.', 'm', 'd']);
    if is_document_name(name) {
        assert(name =~= name.take(name.len() - 3) + name.skip(name.len() - 3));
    }
}

/// The newer of two documents comes first, and of two as new the one that was found first;
/// of any two one does.
pub proof fn the_newest_document_comes_first(stamps: Seq<u64>, a: int, b: int, c: int)
    requires
        0 <= a < stamps.len(),
        0 <= b < stamps.len(),
        0 <= c < stamps.len(),
    ensures
        stamps[a] > stamps[b] ==> comes_before(stamps, a, b) && !comes_before(stamps, b, a),
        stamps[a] == stamps[b] && a < b ==> comes_before(stamps, a, b) && !comes_before(stamps, b, a),
        !comes_before(stamps, a, a),
        comes_before(stamps, a, b) && comes_before(stamps, b, c) ==> comes_before(stamps, a, c),
{
}

/// The line of a document has its name, is marked where it is the open one, and asks again
/// exactly where its Delete was taken once.
pub proof fn the_line_of_a_document(
    listing: Listing,
    open: Option<String>,
    arming: Option<String>,
    words: Seq<char>,
)
    ensures
        match file_line(listing, open, arming, words) {
            ItemText::Row { label, detail, on, action } => {
                &&& label == listing.name@
                &&& on <==> open is Some && open->0@ == listing.path@
                &&& action is Some
                &&& action->0.len() == (if arming is Some && arming->0@ == listing.path@ {
                    7nat
                } else {
                    6nat
                })
                &&& action->0.take(6) == seq!['D', 'e', 'l', 'e', 't', 'e']
                &&& action->0.len() == 7 ==> action->0[6] == '?'
                &&& on ==> detail.take(4) == seq!['o', 'p', 'e', 'n'] && detail.subrange(
                    9,
                    9 + words.len() as int,
                ) == words
                &&& !on ==> detail.take(listing.words@.len() as int) == listing.words@
                &&& listing.age is Some ==> detail.skip(
                    detail.len() - age(listing.age->0).len(),
                ) == age(listing.age->0)
                &&& listing.age is None ==> detail.skip(detail.len() - 8) == age(0)
            },
            _ => false,
        },
{
    reveal_strlit("Delete?");
    reveal_strlit("Delete");
    reveal_strlit("open  ·  ");
    reveal_strlit("  ·  ");
    reveal_strlit("just now");
    let here = is_path(open, listing.path@);
    let said = if here {
        words
    } else {
        listing.words@
    };
    let when = match listing.age {
        Some(s) => age(s),
        None => "just now"@,
    };
    let detail = described(said, listing.age, here);
    assert("Delete?"@.take(6) =~= seq!['D', 'e', 'l', 'e', 't', 'e']);
    assert("Delete"@.take(6) =~= seq!['D', 'e', 'l', 'e', 't', 'e']);
    if here {
        assert(detail.take(4) =~= seq!['o', 'p', 'e', 'n']);
        assert(detail.subrange(9, 9 + words.len() as int) =~= words);
    } else {
        assert(detail.take(listing.words@.len() as int) =~= listing.words@);
    }
    assert(detail.skip(detail.len() - when.len()) =~= when);
}

/// A heading of the outline stands four blanks further in for every level below the first.
pub proof fn an_outline_is_indented_by_level(section: Section, here: bool)
    requires
        section.level >= 1,
        section.text@.len() > 0,
    ensures
        match outline_line(section, here) {
            ItemText::Row { label, detail, on, action } => {
                let inset = 4 * (section.level - 1);
                &&& label.len() == inset + section.text@.len()
                &&& label.skip(inset) == section.text@
                &&& forall|i: int| 0 <= i < inset ==> label[i] == ' '
                &&& detail == section.words@
                &&& on == here
                &&& action is None
            },
            _ => false,
        },
{
    let inset = 4 * (section.level - 1);
    let label = indent((section.level - 1) as nat) + section.text@;
    assert(label.skip(inset) =~= section.text@);
}

/// The status of a page says which document is open and whether it is saved, and gives way
/// to a panel and to the find bar.
pub proof fn a_page_says_whether_it_is_saved(name: Seq<char>, words: Seq<char>, dirty: bool, other: bool)
    ensures
        page_status(false, other, Some(name), words, dirty).len() == 0,
        page_status(other, true, Some(name), words, dirty).len() == 0,
        ({
            let says = page_status(true, false, Some(name), words, dirty);
            let saved = page_status(true, false, Some(name), words, false);
            &&& says.take(name.len() as int) == name
            &&& says.subrange(name.len() as int + 5, name.len() as int + 5 + words.len()) == words
            &&& saved.skip(saved.len() - 5) == seq!['s', 'a', 'v', 'e', 'd']
            &&& saved.len() == name.len() + words.len() + 15
            &&& dirty ==> says == saved.take(saved.len() - 5) + seq!['n', 'o', 't', ' ', 'y', 'e', 't', ' ']
                + seq!['s', 'a', 'v', 'e', 'd']
        }),
        page_status(true, false, None, words, dirty) == page_status(
            true,
            false,
            Some(seq!['U', 'n', 't', 'i', 't', 'l', 'e', 'd']),
            words,
            dirty,
        ),
{
    reveal_strlit("  ·  ");
    reveal_strlit("saved");
    reveal_strlit("not yet saved");
    reveal_strlit("Untitled");
    let says = page_status(true, false, Some(name), words, dirty);
    let saved = page_status(true, false, Some(name), words, false);
    assert(says.take(name.len() as int) =~= name);
    assert(says.subrange(name.len() as int + 5, name.len() as int + 5 + words.len()) =~= words);
    assert(saved.skip(saved.len() - 5) =~= seq!['s', 'a', 'v', 'e', 'd']);
    if dirty {
        assert(says =~= saved.take(saved.len() - 5) + seq!['n', 'o', 't', ' ', 'y', 'e', 't', ' ']
            + seq!['s', 'a', 'v', 'e', 'd']);
    }
    assert("Untitled"@ =~= seq!['U', 'n', 't', 'i', 't', 'l', 'e', 'd']);
}

/// The status of a list that runs over its page counts from one and never past its end.
pub proof fn a_span_counts_from_one(start: int, end: int, total: int)
    requires
        0 <= start < end,
        start < total,
    ensures
        ({
            let says = span_text(start, end, total);
            let first = until(says, '–') as int;
            let second = until(says.skip(first + 1), ' ') as int;
            let last = if end < total {
                end
            } else {
                total
            };
            &&& number(says.take(first), 10, total) == Some(start + 1)
            &&& number(says.subrange(first + 1, first + 1 + second), 10, total) == Some(last)
            &&& number(says.skip(first + 1 + second + 4), 10, total) == Some(total)
        }),
{
    reveal_strlit("–");
    reveal_strlit(" of ");
    let says = span_text(start, end, total);
    let last = if end < total {
        end
    } else {
        total
    };
    let a = decimal((start + 1) as nat);
    let b = decimal(last as nat);
    let c = decimal(total as nat);
    number_reads_what_decimal_writes((start + 1) as nat, total);
    number_reads_what_decimal_writes(last as nat, total);
    number_reads_what_decimal_writes(total as nat, total);
    assert(says =~= a + "–"@ + b + " of "@ + c);
    assert forall|i: int| 0 <= i < a.len() implies says[i] != '–' by {
        assert(says[i] == a[i]);
    }
    lemma_until(says, '–', a.len());
    let rest = says.skip(a.len() as int + 1);
    assert(rest =~= b + " of "@ + c);
    assert forall|i: int| 0 <= i < b.len() implies rest[i] != ' ' by {
        assert(rest[i] == b[i]);
    }
    lemma_until(rest, ' ', b.len());
    assert(says.take(a.len() as int) =~= a);
    assert(says.subrange(a.len() as int + 1, a.len() as int + 1 + b.len()) =~= b);
    assert(says.skip(a.len() as int + 1 + b.len() + 4) =~= c);
}

/// The title of every surface is its own.
pub proof fn every_surface_has_its_own_title(mode: Mode, other: Mode)
    ensures
        mode is Files && !(other is Files) ==> titled(mode) != titled(other),
        mode is Config && !(other is Config) ==> titled(mode) != titled(other),
        mode is Help && !(other is Help) ==> titled(mode) != titled(other),
        mode is Outline && !(other is Outline) ==> titled(mode) != titled(other),
        mode is Writing && !(other is Writing) ==> titled(mode) != titled(other),
        mode is Naming && !(other is Naming) ==> titled(mode) != titled(other),
        titled(mode)[0] == (match mode {
            Mode::Files(_) => 'F',
            Mode::Config => 'C',
            Mode::Naming { for_new, .. } => if for_new {
                'N'
            } else {
                'R'
            },
            Mode::Help => 'H',
            Mode::Outline(_) => 'O',
            Mode::Writing => 'K',
        }),
{
    reveal_strlit("Files");
    reveal_strlit("Config");
    reveal_strlit("New document");
    reveal_strlit("Rename");
    reveal_strlit("Help");
    reveal_strlit("Outline");
    reveal_strlit("Karyll");
    assert(titled(mode) == titled(other) ==> titled(mode)[0] == titled(other)[0]);
}

/// A document is moved exactly where it has a path and that is another.
pub proof fn a_document_is_moved_to_another_path(held: String, path: Seq<char>)
    ensures
        renamed(None, path) == Renaming::Write,
        renamed(Some(held), held@) == Renaming::Stay,
        held@ != path ==> renamed(Some(held), path) == Renaming::Move,
{
}

/// The prose under the headings of a document lies between them: each begins where its
/// heading ends, and ends where the next heading starts, the last with the document.
pub proof fn prose_lies_between_the_headings(heads: Seq<Head>, i: int, len: usize)
    requires
        0 <= i < heads.len(),
        forall|k: int| 0 <= k < heads.len() ==> (#[trigger] heads[k]).start <= heads[k].end <= len,
        forall|k: int, m: int| 0 <= k < m < heads.len() ==> heads[k].end <= heads[m].start,
    ensures
        prose_of(heads, i, len).0 == heads[i].end,
        prose_of(heads, i, len).0 <= prose_of(heads, i, len).1 <= len,
        i + 1 < heads.len() ==> prose_of(heads, i, len).1 == heads[i + 1].start,
        i + 1 == heads.len() ==> prose_of(heads, i, len).1 == len,
{
    if i + 1 < heads.len() {
        assert(heads[i].end <= heads[i + 1].start);
        assert(heads[i + 1].start <= heads[i + 1].end <= len);
    }
}

/// The status of a list of documents says how many there are, in the singular for one, and
/// which of them show where not all do.
pub proof fn the_status_counts_the_documents(files: Vec<Listing>, preedit: Seq<char>, start: int, end: int)
    requires
        0 <= start < end,
        start < files@.len() || files@.len() == 0,
    ensures
        ({
            let says = status_text(Mode::Files(files), preedit, start, end);
            let n = files@.len();
            &&& n == 0 ==> says[0] == 'N'
            &&& n == 1 ==> says.take(11) == seq!['1', ' ', 'd', 'o', 'c', 'u', 'm', 'e', 'n', 't', ' ']
            &&& n > 1 && n <= end - start ==> number(says.take(until(says, ' ') as int), 10, n as int)
                == Some(n as int) && says.subrange(
                until(says, ' ') as int + 1,
                until(says, ' ') as int + 10,
            ) == seq!['d', 'o', 'c', 'u', 'm', 'e', 'n', 't', 's']
            &&& n > 1 && n > end - start ==> says.take(span_text(start, end, n as int).len() as int)
                == span_text(start, end, n as int)
        }),
{
    reveal_strlit("Nothing in /mnt/us/karyll yet.");
    reveal_strlit("1 document in /mnt/us/karyll");
    reveal_strlit(" documents in /mnt/us/karyll");
    let says = status_text(Mode::Files(files), preedit, start, end);
    let n = files@.len();
    assert("1 document in /mnt/us/karyll"@.take(11) =~= seq![
        '1', ' ', 'd', 'o', 'c', 'u', 'm', 'e', 'n', 't', ' ',
    ]);
    if n > 1 {
        if n > end - start {
            let span = span_text(start, end, n as int);
            assert(says.take(span.len() as int) =~= span);
        } else {
            let digits = decimal(n);
            number_reads_what_decimal_writes(n, n as int);
            assert forall|i: int| 0 <= i < digits.len() implies says[i] != ' ' by {
                assert(says[i] == digits[i]);
            }
            assert(says[digits.len() as int] == ' ');
            lemma_until(says, ' ', digits.len());
            assert(says.take(digits.len() as int) =~= digits);
            assert(says.subrange(digits.len() as int + 1, digits.len() as int + 10) =~= seq![
                'd', 'o', 'c', 'u', 'm', 'e', 'n', 't', 's',
            ]);
        }
    }
}

/// The status of an outline counts its headings in the same way, and says how to make one
/// where there is none.
pub proof fn the_status_counts_the_sections(
    sections: Vec<Section>,
    preedit: Seq<char>,
    start: int,
    end: int,
)
    requires
        0 <= start < end,
        start < sections@.len() || sections@.len() == 0,
    ensures
        ({
            let says = status_text(Mode::Outline(sections), preedit, start, end);
            let n = sections@.len();
            &&& n == 0 ==> says[0] == 'C'
            &&& n == 1 ==> says.take(10) == seq!['1', ' ', 's', 'e', 'c', 't', 'i', 'o', 'n', '.']
            &&& n > 1 && n <= end - start ==> number(says.take(until(says, ' ') as int), 10, n as int)
                == Some(n as int) && says.subrange(
                until(says, ' ') as int + 1,
                until(says, ' ') as int + 9,
            ) == seq!['s', 'e', 'c', 't', 'i', 'o', 'n', 's']
            &&& n > end - start ==> says.take(span_text(start, end, n as int).len() as int) == span_text(
                start,
                end,
                n as int,
            )
        }),
{
    reveal_strlit("Ctrl/⌘ + 1 … 6 makes a heading.");
    reveal_strlit("1 section. Tap it to go there.");
    reveal_strlit(" sections. Tap one to go there.");
    let says = status_text(Mode::Outline(sections), preedit, start, end);
    let n = sections@.len();
    assert("1 section. Tap it to go there."@.take(10) =~= seq![
        '1', ' ', 's', 'e', 'c', 't', 'i', 'o', 'n', '.',
    ]);
    if n > end - start {
        let span = span_text(start, end, n as int);
        assert(says.take(span.len() as int) =~= span);
    } else if n > 1 {
        let digits = decimal(n);
        number_reads_what_decimal_writes(n, n as int);
        assert forall|i: int| 0 <= i < digits.len() implies says[i] != ' ' by {
            assert(says[i] == digits[i]);
        }
        assert(says[digits.len() as int] == ' ');
        lemma_until(says, ' ', digits.len());
        assert(says.take(digits.len() as int) =~= digits);
        assert(says.subrange(digits.len() as int + 1, digits.len() as int + 9) =~= seq![
            's', 'e', 'c', 't', 'i', 'o', 'n', 's',
        ]);
    }
}

/// A name that is typed shows as the file that it will be, with what is being composed at its
/// end; nothing typed asks for one.
pub proof fn a_name_shows_as_its_file(for_new: bool, name: String, preedit: Seq<char>, start: int, end: int)
    ensures
        ({
            let says = status_text(Mode::Naming { for_new, name }, preedit, start, end);
            &&& name@.len() + preedit.len() > 0 ==> path_named(name@ + preedit).skip(15) == says
            &&& name@.len() + preedit.len() == 0 ==> says[0] == 'T'
        }),
{
    reveal_strlit("/mnt/us/karyll/");
    reveal_strlit(".md");
    reveal_strlit("Type a name, then Enter. Esc cancels.");
    let says = status_text(Mode::Naming { for_new, name }, preedit, start, end);
    if name@.len() + preedit.len() > 0 {
        assert(path_named(name@ + preedit).skip(15) =~= says);
    }
}

} // verus!
