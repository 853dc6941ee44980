//! Where each document was left: a list of character indices and paths, the most
//! recent first.

use vstd::prelude::*;

use crate::text::{
    chars_of,
    decimal,
    decimal_of,
    lemma_until,
    lines,
    lines_of,
    next_at,
    number,
    number_of,
    number_reads_what_decimal_writes,
    part,
    same_text,
    string_of,
    trim,
    trimmed,
    until,
    views,
};

verus! {

/// How many documents are remembered.
pub const POSITIONS_KEPT: usize = 64;

/// A place and the document it is in.
pub type Place = (usize, Seq<char>);

/// The places that a list of entries holds.
pub open spec fn places(list: Seq<(usize, String)>) -> Seq<Place> {
    list.map_values(|e: (usize, String)| (e.0, e.1@))
}

/// What one line remembers: the index before the first tab, and all that follows
/// it as the path. Nothing where there is no tab or no index before it.
pub open spec fn place_in(line: Seq<char>) -> Option<Place> {
    let k = until(line, '\t') as int;
    if k >= line.len() {
        None
    } else {
        match number(trim(line.take(k)), 10, usize::MAX as int) {
            Some(n) => Some((n as usize, line.skip(k + 1))),
            None => None,
        }
    }
}

/// What some lines remember, in order; a damaged line is passed over.
pub open spec fn places_in(list: Seq<Seq<char>>) -> Seq<Place>
    decreases list.len(),
{
    if list.len() == 0 {
        seq![]
    } else {
        match place_in(list.last()) {
            Some(place) => places_in(list.drop_last()).push(place),
            None => places_in(list.drop_last()),
        }
    }
}

/// The line that remembers a place.
pub open spec fn line_for(place: Place) -> Seq<char> {
    decimal(place.0 as nat) + seq!['\t'] + place.1
}

/// The lines that remember some places.
pub open spec fn rendered(list: Seq<Place>) -> Seq<char>
    decreases list.len(),
{
    if list.len() == 0 {
        seq![]
    } else {
        line_for(list[0]) + seq!['\n'] + rendered(list.drop_first())
    }
}

/// The places in other documents.
pub open spec fn others(list: Seq<Place>, path: Seq<char>) -> Seq<Place>
    decreases list.len(),
{
    if list.len() == 0 {
        seq![]
    } else if list.last().1 == path {
        others(list.drop_last(), path)
    } else {
        others(list.drop_last(), path).push(list.last())
    }
}

/// The places after a document was left at `cursor`: it comes first, once, and
/// the list is cut to what is kept.
pub open spec fn updated(list: Seq<Place>, path: Seq<char>, cursor: usize) -> Seq<Place> {
    let all = seq![(cursor, path)] + others(list, path);
    if all.len() > POSITIONS_KEPT {
        all.take(POSITIONS_KEPT as int)
    } else {
        all
    }
}

/// Where a document was left: the first place in it, from `from` on.
pub open spec fn position_from(list: Seq<Place>, path: Seq<char>, from: int) -> Option<usize>
    decreases list.len() - from,
{
    if from < 0 || from >= list.len() {
        None
    } else if list[from].1 == path {
        Some(list[from].0)
    } else {
        position_from(list, path, from + 1)
    }
}

pub open spec fn position(list: Seq<Place>, path: Seq<char>) -> Option<usize> {
    position_from(list, path, 0)
}

pub fn parse_positions(body: &str) -> (r: Vec<(usize, String)>)
    ensures
        places(r@) == places_in(lines(body@)),
{
    let text = chars_of(body);
    let list = lines_of(&text);
    let ghost all = lines(body@);
    let mut out: Vec<(usize, String)> = Vec::new();
    let mut i: usize = 0;
    assert(places(out@) =~= seq![]);
    assert(all.take(0) =~= seq![]);
    while i < list.len()
        invariant
            i <= list.len(),
            views(list@) == all,
            places(out@) == places_in(all.take(i as int)),
        decreases list.len() - i,
    {
        let ghost before = out@;
        assert(all.take(i + 1).drop_last() =~= all.take(i as int));
        assert(all.take(i + 1).last() == views(list@)[i as int]);
        assert(views(list@)[i as int] == list@[i as int]@);
        let line = &list[i];
        assert(line@.skip(0) =~= line@);
        let k: usize = next_at(line, 0, '\t');
        if k < line.len() {
            let index = part(line, 0, k);
            assert(index@ =~= line@.take(k as int));
            let index = trimmed(&index);
            if let Some(n) = number_of(&index, 10, usize::MAX as u64) {
                let path = part(line, k + 1, line.len());
                assert(path@ =~= line@.skip(k + 1));
                out.push((n as usize, string_of(&path)));
                assert(places(out@) =~= places(before).push((n as usize, path@)));
            }
        }
        i = i + 1;
    }
    assert(all.take(i as int) =~= all);
    out
}

fn drop_path(entries: Vec<(usize, String)>, path: &str) -> (r: Vec<(usize, String)>)
    ensures
        places(r@) == others(places(entries@), path@),
{
    let ghost all = places(entries@);
    let mut out: Vec<(usize, String)> = Vec::new();
    let mut i: usize = 0;
    assert(places(out@) =~= seq![]);
    assert(all.take(0) =~= seq![]);
    while i < entries.len()
        invariant
            i <= entries.len(),
            all == places(entries@),
            places(out@) == others(all.take(i as int), path@),
        decreases entries.len() - i,
    {
        let ghost before = out@;
        assert(all.take(i + 1).drop_last() =~= all.take(i as int));
        assert(all.take(i + 1).last() == (entries@[i as int].0, entries@[i as int].1@));
        if !same_text(entries[i].1.as_str(), path) {
            let index: usize = entries[i].0;
            out.push((index, entries[i].1.clone()));
            assert(places(out@) =~= places(before).push(all[i as int]));
        }
        i = i + 1;
    }
    assert(all.take(i as int) =~= all);
    out
}

pub fn updated_positions(entries: Vec<(usize, String)>, path: &str, cursor: usize) -> (r: Vec<
    (usize, String),
>)
    ensures
        places(r@) == updated(places(entries@), path@, cursor),
{
    let kept = drop_path(entries, path);
    let mut out: Vec<(usize, String)> = Vec::new();
    out.push((cursor, path.to_owned()));
    let ghost all = seq![(cursor, path@)] + places(kept@);
    assert(places(out@) =~= all.take(1));
    let mut i: usize = 0;
    while i < kept.len() && out.len() < POSITIONS_KEPT
        invariant
            i <= kept.len(),
            out.len() == i + 1,
            out.len() <= POSITIONS_KEPT,
            all == seq![(cursor, path@)] + places(kept@),
            places(out@) == all.take(i + 1),
        decreases kept.len() - i,
    {
        let ghost before = out@;
        let index: usize = kept[i].0;
        out.push((index, kept[i].1.clone()));
        assert(all[i + 1] == (kept@[i as int].0, kept@[i as int].1@));
        assert(places(out@) =~= places(before).push(all[i + 1]));
        assert(all.take(i + 2) =~= all.take(i + 1).push(all[i + 1]));
        i = i + 1;
    }
    assert(all.len() == kept.len() + 1);
    assert(i == kept.len() ==> all.take(i + 1) =~= all);
    out
}

/// What is left of the places once a document is gone.
pub fn forget_position(entries: Vec<(usize, String)>, path: &str) -> (r: Vec<(usize, String)>)
    ensures
        places(r@) == others(places(entries@), path@),
{
    drop_path(entries, path)
}

pub fn render_positions(entries: &Vec<(usize, String)>) -> (r: String)
    ensures
        r@ == rendered(places(entries@)),
{
    let ghost all = places(entries@);
    let mut out = String::new();
    let mut i: usize = 0;
    assert(all.skip(0) =~= all);
    assert(out@ + rendered(all) =~= rendered(all));
    while i < entries.len()
        invariant
            i <= entries.len(),
            all == places(entries@),
            out@ + rendered(all.skip(i as int)) == rendered(all),
        decreases entries.len() - i,
    {
        let ghost before = out@;
        let index: usize = entries[i].0;
        out.append(decimal_of(index as u64).as_str());
        out.push('\t');
        out.append(entries[i].1.as_str());
        out.push('\n');
        proof {
            let rest = all.skip(i as int);
            assert(rest[0] == (entries@[i as int].0, entries@[i as int].1@));
            assert(rest.drop_first() =~= all.skip(i + 1));
            assert(out@ =~= before + (line_for(rest[0]) + seq!['\n']));
            assert(out@ + rendered(all.skip(i + 1)) =~= before + (line_for(rest[0]) + seq!['\n']
                + rendered(all.skip(i + 1))));
        }
        i = i + 1;
    }
    assert(out@ + rendered(all.skip(i as int)) =~= out@);
    out
}

/// Where a document was left, if it is remembered.
pub fn read_position(entries: &Vec<(usize, String)>, path: &str) -> (r: Option<usize>)
    ensures
        r == position(places(entries@), path@),
{
    let ghost all = places(entries@);
    let mut i: usize = 0;
    while i < entries.len()
        invariant
            i <= entries.len(),
            all == places(entries@),
            position(all, path@) == position_from(all, path@, i as int),
        decreases entries.len() - i,
    {
        assert(all[i as int] == (entries@[i as int].0, entries@[i as int].1@));
        if same_text(entries[i].1.as_str(), path) {
            return Some(entries[i].0);
        }
        i = i + 1;
    }
    None
}

/// Where the cursor goes when a document opens: where it was left, or the end
/// where the document has become shorter, or the top where nothing is remembered.
pub fn opening_cursor_from(stored: Option<usize>, len: usize) -> (r: usize)
    ensures
        r == (match stored {
            None => 0,
            Some(at) => if at <= len {
                at
            } else {
                len
            },
        }),
        r <= len,
{
    match stored {
        None => 0,
        Some(at) => if at <= len {
            at
        } else {
            len
        },
    }
}

/// Where the cursor goes when a document opens, by the places remembered.
pub fn opening_cursor(entries: &Vec<(usize, String)>, path: &str, len: usize) -> (r: usize)
    ensures
        r == (match position(places(entries@), path@) {
            None => 0,
            Some(at) => if at <= len {
                at
            } else {
                len
            },
        }),
{
    opening_cursor_from(read_position(entries, path), len)
}

// ---------------------------------------------------------------------------
// What holds of every list of places
// ---------------------------------------------------------------------------

/// A path that a line can hold: it has no line feed in it, and does not end as a
/// line feed's carriage return would.
pub open spec fn fits_a_line(path: Seq<char>) -> bool {
    &&& forall|i: int| 0 <= i < path.len() ==> path[i] != '\n'
    &&& path.len() > 0 ==> path.last() != '\r'
}

proof fn lemma_line(place: Place)
    requires
        fits_a_line(place.1),
    ensures
        place_in(line_for(place)) == Some(place),
        forall|i: int| 0 <= i < line_for(place).len() ==> line_for(place)[i] != '\n',
        line_for(place).len() > 0,
        line_for(place).last() != '\r',
{
    let digits = decimal(place.0 as nat);
    let line = line_for(place);
    number_reads_what_decimal_writes(place.0 as nat, usize::MAX as int);
    assert forall|i: int| 0 <= i < line.len() implies line[i] != '\n' by {
        if i < digits.len() {
            assert(line[i] == digits[i]);
        } else if i > digits.len() {
            assert(line[i] == place.1[i - digits.len() - 1]);
        }
    }
    assert forall|i: int| 0 <= i < digits.len() implies line[i] != '\t' by {
        assert(line[i] == digits[i]);
    }
    assert(line[digits.len() as int] == '\t');
    lemma_until(line, '\t', digits.len());
    assert(line.take(digits.len() as int) =~= digits);
    assert(line.skip((digits.len() + 1) as int) =~= place.1);
    if place.1.len() > 0 {
        assert(line.last() == place.1.last());
    } else {
        assert(line.last() == '\t');
    }
}

/// The first place of a list is read before the rest of it.
proof fn lemma_places_first(first: Seq<char>, rest: Seq<Seq<char>>, place: Place)
    requires
        place_in(first) == Some(place),
    ensures
        places_in(seq![first] + rest) == seq![place] + places_in(rest),
    decreases rest.len(),
{
    let all = seq![first] + rest;
    if rest.len() == 0 {
        assert(all =~= seq![first]);
        assert(all.drop_last() =~= seq![]);
        assert(all.last() == first);
        assert(places_in(all.drop_last()) =~= seq![]);
        assert(places_in(rest) =~= seq![]);
        assert(places_in(all) =~= seq![place] + places_in(rest));
    } else {
        assert(all.drop_last() =~= seq![first] + rest.drop_last());
        assert(all.last() == rest.last());
        lemma_places_first(first, rest.drop_last(), place);
        assert(places_in(all) =~= seq![place] + places_in(rest));
    }
}

/// Places that are written down and read back are the places that were written.
/// A path may hold anything but a line feed, a tab with the rest.
pub proof fn positions_survive_a_round_trip(list: Seq<Place>)
    requires
        forall|i: int| 0 <= i < list.len() ==> fits_a_line((#[trigger] list[i]).1),
    ensures
        places_in(lines(rendered(list))) == list,
    decreases list.len(),
{
    if list.len() > 0 {
        let first = list[0];
        let line = line_for(first);
        let rest = rendered(list.drop_first());
        let all = rendered(list);
        lemma_line(first);
        assert forall|i: int| 0 <= i < list.drop_first().len() implies fits_a_line(
            (#[trigger] list.drop_first()[i]).1,
        ) by {
            assert(list.drop_first()[i] == list[i + 1]);
        }
        positions_survive_a_round_trip(list.drop_first());
        assert(all =~= line + seq!['\n'] + rest);
        assert(all[line.len() as int] == '\n');
        assert forall|i: int| 0 <= i < line.len() implies all[i] != '\n' by {
            assert(all[i] == line[i]);
        }
        lemma_until(all, '\n', line.len());
        assert(all.take(line.len() as int) =~= line);
        assert(all.skip((line.len() + 1) as int) =~= rest);
        assert(lines(all) =~= seq![line] + lines(rest));
        lemma_places_first(line, lines(rest), first);
        assert(seq![first] + list.drop_first() =~= list);
    }
}

proof fn lemma_others(list: Seq<Place>, path: Seq<char>)
    ensures
        forall|i: int| 0 <= i < others(list, path).len() ==> (#[trigger] others(list, path)[i]).1 != path,
        others(list, path).len() <= list.len(),
    decreases list.len(),
{
    if list.len() > 0 {
        lemma_others(list.drop_last(), path);
    }
}

/// A document that was left is found where it was left.
pub proof fn a_place_is_found_where_it_was_left(list: Seq<Place>, path: Seq<char>, cursor: usize)
    ensures
        position(updated(list, path, cursor), path) == Some(cursor),
        updated(list, path, cursor)[0] == (cursor, path),
{
    assert(updated(list, path, cursor)[0] == (cursor, path));
}

/// A document is remembered once, and no more documents than are kept.
pub proof fn a_document_is_remembered_once(list: Seq<Place>, path: Seq<char>, cursor: usize)
    ensures
        updated(list, path, cursor).len() <= POSITIONS_KEPT,
        forall|i: int|
            0 < i < updated(list, path, cursor).len() ==> (#[trigger] updated(list, path, cursor)[i]).1
                != path,
{
    lemma_others(list, path);
    assert forall|i: int| 0 < i < updated(list, path, cursor).len() implies (
    #[trigger] updated(list, path, cursor)[i]).1 != path by {
        assert(updated(list, path, cursor)[i] == others(list, path)[i - 1]);
    }
}

proof fn lemma_position_none(list: Seq<Place>, path: Seq<char>, from: int)
    requires
        0 <= from,
        forall|i: int| from <= i < list.len() ==> (#[trigger] list[i]).1 != path,
    ensures
        position_from(list, path, from) is None,
    decreases list.len() - from,
{
    if from < list.len() {
        lemma_position_none(list, path, from + 1);
    }
}

/// A document that is forgotten is not found.
pub proof fn a_forgotten_document_is_not_found(list: Seq<Place>, path: Seq<char>)
    ensures
        position(others(list, path), path) is None,
{
    lemma_others(list, path);
    lemma_position_none(others(list, path), path, 0);
}

/// The first place of a document, told from the front or from the back.
proof fn lemma_position_last(list: Seq<Place>, path: Seq<char>, from: int)
    requires
        list.len() > 0,
        0 <= from <= list.len(),
    ensures
        position_from(list, path, from) == (if position_from(list.drop_last(), path, from) is Some {
            position_from(list.drop_last(), path, from)
        } else if from < list.len() && list.last().1 == path {
            Some(list.last().0)
        } else {
            None
        }),
    decreases list.len() - from,
{
    if from < list.len() - 1 {
        if list[from].1 != path {
            lemma_position_last(list, path, from + 1);
        }
    } else if from == list.len() - 1 {
        assert(position_from(list, path, from + 1) is None);
    }
}

/// Forgetting one document leaves the others where they were.
pub proof fn the_others_stay_where_they_were(list: Seq<Place>, path: Seq<char>, other: Seq<char>)
    requires
        other != path,
    ensures
        position(others(list, path), other) == position(list, other),
    decreases list.len(),
{
    if list.len() > 0 {
        the_others_stay_where_they_were(list.drop_last(), path, other);
        lemma_position_last(list, other, 0);
        let kept = others(list, path);
        if list.last().1 != path {
            assert(kept.drop_last() =~= others(list.drop_last(), path));
            lemma_position_last(kept, other, 0);
        }
    }
}

proof fn lemma_position_shift(head: Place, list: Seq<Place>, path: Seq<char>, from: int)
    requires
        0 <= from <= list.len(),
    ensures
        position_from(seq![head] + list, path, from + 1) == position_from(list, path, from),
    decreases list.len() - from,
{
    if from < list.len() {
        assert((seq![head] + list)[from + 1] == list[from]);
        lemma_position_shift(head, list, path, from + 1);
    }
}

/// Leaving one document changes no other's place while there is room for all of
/// them.
pub proof fn leaving_one_document_keeps_the_others(
    list: Seq<Place>,
    path: Seq<char>,
    other: Seq<char>,
    cursor: usize,
)
    requires
        other != path,
        list.len() < POSITIONS_KEPT,
    ensures
        position(updated(list, path, cursor), other) == position(list, other),
{
    lemma_others(list, path);
    the_others_stay_where_they_were(list, path, other);
    let head = (cursor, path);
    assert((seq![head] + others(list, path))[0] == head);
    lemma_position_shift(head, others(list, path), other, 0);
}

/// Of the documents that were left the last sixty-four are remembered, the last first.
pub proof fn sixty_four_documents_are_remembered(list: Seq<Place>, path: Seq<char>, cursor: usize)
    ensures
        updated(list, path, cursor).len() <= 64,
        others(list, path).len() >= 63 ==> updated(list, path, cursor).len() == 64,
        others(list, path).len() < 63 ==> updated(list, path, cursor).len() == others(list, path).len() + 1,
        forall|i: int|
            0 < i < updated(list, path, cursor).len() ==> (#[trigger] updated(list, path, cursor)[i])
                == others(list, path)[i - 1],
{
}

} // verus!
