//! The strip along the foot of the screen: which cells it carries, what each
//! says, and what it gives up on a narrow panel.

use vstd::prelude::*;

use crate::files::titled;
use crate::panel::Mode;
use crate::text::{
    chars_of, decimal, decimal_of, lemma_texts_push, lemma_until, number,
    number_reads_what_decimal_writes, part, string_of, texts, until,
};

verus! {

/// A cell of the strip.
#[derive(Debug, Clone, Copy, PartialEq, Eq, Structural)]
pub enum Bar {
    Files,
    Config,
    Exit,
    Help,
    Outline,
    /// Leave a panel, or close the find bar.
    Done,
    /// Abandon a name being typed.
    Cancel,
    /// Paging a list too long for the panel: back, where you are, and on.
    PageBack,
    PageAt,
    PageOn,
    /// The find bar: the field, the count, and the two steps.
    Query,
    Count,
    Previous,
    Next,
    /// Ask for the second field as well.
    Replace,
    /// The second field, and what can be done with it.
    With,
    Change,
    All,
    New,
    Rename,
}

impl Bar {
    pub open spec fn worded(self) -> Seq<char> {
        match self {
            Bar::Files => "Files"@,
            Bar::Config => "Config"@,
            Bar::Exit => "Exit"@,
            Bar::Help => "Help"@,
            Bar::Outline => "Outline"@,
            Bar::Done => "Done"@,
            Bar::Cancel => "Cancel"@,
            Bar::PageBack => "Previous"@,
            Bar::PageOn => "Next"@,
            Bar::PageAt => ""@,
            Bar::New => "New document"@,
            Bar::Rename => "Rename"@,
            Bar::Query => "Find:"@,
            Bar::Count => ""@,
            Bar::Previous => "Previous"@,
            Bar::Next => "Next"@,
            Bar::Replace => "Replace"@,
            Bar::With => "With:"@,
            Bar::Change => "Change"@,
            Bar::All => "All"@,
        }
    }

    /// The shorter word of a cell, where one means the same.
    pub open spec fn shortened(self) -> Seq<char> {
        match self {
            Bar::New => "New"@,
            Bar::Previous => "Prev"@,
            Bar::PageBack => "Prev"@,
            _ => self.worded(),
        }
    }

    pub open spec fn reports(self) -> bool {
        self == Bar::Count || self == Bar::PageAt
    }

    pub fn label(self) -> (r: &'static str)
        ensures
            r@ == self.worded(),
    {
        match self {
            Bar::Files => "Files",
            Bar::Config => "Config",
            Bar::Exit => "Exit",
            Bar::Help => "Help",
            Bar::Outline => "Outline",
            Bar::Done => "Done",
            Bar::Cancel => "Cancel",
            Bar::PageBack => "Previous",
            Bar::PageOn => "Next",
            Bar::PageAt => "",
            Bar::New => "New document",
            Bar::Rename => "Rename",
            Bar::Query => "Find:",
            Bar::Count => "",
            Bar::Previous => "Previous",
            Bar::Next => "Next",
            Bar::Replace => "Replace",
            Bar::With => "With:",
            Bar::Change => "Change",
            Bar::All => "All",
        }
    }

    pub fn short(self) -> (r: &'static str)
        ensures
            r@ == self.shortened(),
    {
        match self {
            Bar::New => "New",
            Bar::Previous => "Prev",
            Bar::PageBack => "Prev",
            other => other.label(),
        }
    }

    /// Whether a cell reports something, and does nothing.
    pub fn is_readout(self) -> (r: bool)
        ensures
            r == self.reports(),
    {
        matches!(self, Bar::Count | Bar::PageAt)
    }
}

/// Which of the find bar's two fields the keys go into.
#[derive(Debug, Clone, Copy, PartialEq, Eq, Structural)]
pub enum Field {
    Query,
    With,
}

impl Default for Field {
    fn default() -> (r: Self)
        ensures
            r == Field::Query,
    {
        Field::Query
    }
}

impl Field {
    pub open spec fn drawn_in(self) -> Bar {
        match self {
            Field::Query => Bar::Query,
            Field::With => Bar::With,
        }
    }

    pub open spec fn of_cell(cell: Bar) -> Option<Field> {
        match cell {
            Bar::Query => Some(Field::Query),
            Bar::With => Some(Field::With),
            _ => None,
        }
    }

    /// The cell a field is drawn in.
    pub fn cell(self) -> (r: Bar)
        ensures
            r == self.drawn_in(),
    {
        match self {
            Field::Query => Bar::Query,
            Field::With => Bar::With,
        }
    }

    /// The field that a cell draws.
    pub fn of(cell: Bar) -> (r: Option<Field>)
        ensures
            r == Field::of_cell(cell),
    {
        match cell {
            Bar::Query => Some(Field::Query),
            Bar::With => Some(Field::With),
            _ => None,
        }
    }
}

/// A field and its cell name each other, and no other cell is a field.
pub proof fn a_field_has_its_own_cell(field: Field, cell: Bar)
    ensures
        Field::of_cell(field.drawn_in()) == Some(field),
        Field::of_cell(cell) == Some(field) <==> cell == field.drawn_in(),
{
}

/// The places of the fields among the first `n` cells.
pub open spec fn stretching(bars: Seq<Bar>, n: int) -> Seq<usize>
    decreases n,
{
    if n <= 0 {
        seq![]
    } else if Field::of_cell(bars[n - 1]) is Some {
        stretching(bars, n - 1).push((n - 1) as usize)
    } else {
        stretching(bars, n - 1)
    }
}

/// The cells that take whatever width the others leave.
pub fn stretch_cells(bars: &[Bar]) -> (r: Vec<usize>)
    ensures
        r@ == stretching(bars@, bars@.len() as int),
{
    let mut out: Vec<usize> = Vec::new();
    let mut i: usize = 0;
    while i < bars.len()
        invariant
            i <= bars@.len(),
            out@ == stretching(bars@, i as int),
        decreases bars@.len() - i,
    {
        if Field::of(bars[i]).is_some() {
            out.push(i);
        }
        i = i + 1;
    }
    out
}

/// A cell stretches exactly where it is a field.
pub proof fn the_fields_are_the_cells_that_stretch(bars: Seq<Bar>, n: int)
    requires
        0 <= n <= bars.len(),
        bars.len() <= usize::MAX,
    ensures
        forall|i: int|
            0 <= i < n ==> (#[trigger] stretching(bars, n).contains(i as usize) <==> Field::of_cell(bars[i]) is Some),
        forall|k: int|
            0 <= k < stretching(bars, n).len() ==> (#[trigger] stretching(bars, n)[k]) < n,
    decreases n,
{
    if n > 0 {
        the_fields_are_the_cells_that_stretch(bars, n - 1);
        let before = stretching(bars, n - 1);
        let all = stretching(bars, n);
        assert forall|i: int| 0 <= i < n implies (#[trigger] all.contains(i as usize)
            <==> Field::of_cell(bars[i]) is Some) by {
            if before.contains(i as usize) {
                let k = choose|k: int| 0 <= k < before.len() && before[k] == i as usize;
                assert(all[k] == i as usize);
            }
            if i == n - 1 && Field::of_cell(bars[i]) is Some {
                assert(all[all.len() - 1] == i as usize);
            }
            if all.contains(i as usize) {
                let k = choose|k: int| 0 <= k < all.len() && all[k] == i as usize;
                if k < before.len() {
                    assert(before[k] == i as usize);
                    assert(before[k] < n - 1);
                    assert(before.contains(i as usize));
                }
            }
        }
    }
}

/// A label as it is drawn: nothing stays nothing.
pub open spec fn bracketed(label: Seq<char>) -> Seq<char> {
    if label.len() == 0 {
        seq![]
    } else {
        "[ "@ + label + " ]"@
    }
}

pub fn bracket(label: &str) -> (r: String)
    ensures
        r@ == bracketed(label@),
{
    let chars = chars_of(label);
    if chars.len() == 0 {
        let s = String::new();
        assert(s@ =~= seq![]);
        s
    } else {
        let mut s = String::from_str("[ ");
        s.append(label);
        s.append(" ]");
        s
    }
}

/// What the editor knows that the strip has to say.
#[derive(Debug, Clone, Copy, PartialEq, Eq)]
pub struct Readouts {
    /// Whether the query is empty, which match shows, and how many there are.
    pub count: Option<(bool, usize, usize)>,
    /// A word is being composed into the query.
    pub composing: bool,
    /// The cell for every match waits for a second tap.
    pub armed: bool,
    /// Which page of a list shows, and how many there are.
    pub page: (usize, usize),
}

/// What the find bar says of its matches: nothing until there is something to
/// count, and nothing while the query is not what is shown.
pub open spec fn count_text(query_empty: bool, composing_query: bool, short: bool, at: nat, total: nat) -> Seq<
    char,
> {
    if query_empty || composing_query {
        seq![]
    } else if total == 0 {
        if short {
            "none"@
        } else {
            "not found"@
        }
    } else if short {
        decimal(at + 1) + "/"@ + decimal(total)
    } else {
        decimal(at + 1) + " of "@ + decimal(total)
    }
}

pub fn find_count(
    query_empty: bool,
    composing_query: bool,
    short: bool,
    at: usize,
    total: usize,
) -> (r: String)
    requires
        at < usize::MAX,
    ensures
        r@ == count_text(query_empty, composing_query, short, at as nat, total as nat),
{
    if query_empty || composing_query {
        let s = String::new();
        assert(s@ =~= seq![]);
        return s;
    }
    if total == 0 {
        return if short {
            "none".to_owned()
        } else {
            "not found".to_owned()
        };
    }
    let mut s = decimal_of((at + 1) as u64);
    s.append(
        if short {
            "/"
        } else {
            " of "
        },
    );
    s.append(decimal_of(total as u64).as_str());
    s
}

/// What a cell says. The fields are left blank here: a field is sized by what the
/// other cells leave.
pub open spec fn cell_word(bar: Bar, short: bool, readouts: Readouts) -> Seq<char> {
    match bar {
        Bar::PageAt => decimal(readouts.page.0 as nat) + (if short {
            "/"@
        } else {
            " of "@
        }) + decimal(readouts.page.1 as nat),
        Bar::Query => seq![],
        Bar::With => seq![],
        Bar::Count => match readouts.count {
            Some((empty, at, total)) => count_text(
                empty,
                readouts.composing,
                short,
                at as nat,
                total as nat,
            ),
            None => seq![],
        },
        _ => if bar == Bar::All && readouts.armed {
            "All?"@
        } else if short {
            bar.shortened()
        } else {
            bar.worded()
        },
    }
}

/// What each cell says.
pub open spec fn words_for(bars: Seq<Bar>, short: bool, readouts: Readouts) -> Seq<Seq<char>> {
    bars.map_values(|b: Bar| cell_word(b, short, readouts))
}

fn word_for(bar: Bar, short: bool, readouts: &Readouts) -> (r: String)
    requires
        readouts.count matches Some((_, at, _)) ==> at < usize::MAX,
    ensures
        r@ == cell_word(bar, short, *readouts),
{
    match bar {
        Bar::PageAt => {
            let mut s = decimal_of(readouts.page.0 as u64);
            s.append(
                if short {
                    "/"
                } else {
                    " of "
                },
            );
            s.append(decimal_of(readouts.page.1 as u64).as_str());
            s
        },
        Bar::Query => {
            let s = String::new();
            assert(s@ =~= seq![]);
            s
        },
        Bar::With => {
            let s = String::new();
            assert(s@ =~= seq![]);
            s
        },
        Bar::Count => match readouts.count {
            Some((empty, at, total)) => find_count(empty, readouts.composing, short, at, total),
            None => {
                let s = String::new();
                assert(s@ =~= seq![]);
                s
            },
        },
        _ => if bar == Bar::All && readouts.armed {
            "All?".to_owned()
        } else if short {
            bar.short().to_owned()
        } else {
            bar.label().to_owned()
        },
    }
}

pub fn cell_words(bars: &[Bar], short: bool, readouts: &Readouts) -> (r: Vec<String>)
    requires
        readouts.count matches Some((_, at, _)) ==> at < usize::MAX,
    ensures
        texts(r@) == words_for(bars@, short, *readouts),
{
    let mut out: Vec<String> = Vec::new();
    let mut i: usize = 0;
    while i < bars.len()
        invariant
            i <= bars@.len(),
            readouts.count matches Some((_, at, _)) ==> at < usize::MAX,
            out.len() == i,
            forall|k: int|
                0 <= k < i ==> (#[trigger] out@[k])@ == cell_word(bars@[k], short, *readouts),
        decreases bars@.len() - i,
    {
        out.push(word_for(bars[i], short, readouts));
        i = i + 1;
    }
    assert(texts(out@) =~= words_for(bars@, short, *readouts));
    out
}

/// The cells that do something.
pub open spec fn controls(bars: Seq<Bar>) -> Seq<Bar>
    decreases bars.len(),
{
    if bars.len() == 0 {
        seq![]
    } else if bars.last().reports() {
        controls(bars.drop_last())
    } else {
        controls(bars.drop_last()).push(bars.last())
    }
}

/// Whether `holds` can have said `answer` of a strip of some cells and words.
pub open spec fn held<H: Fn(&Vec<Bar>, &Vec<String>) -> bool>(
    holds: H,
    bars: Seq<Bar>,
    words: Seq<Seq<char>>,
    answer: bool,
) -> bool {
    exists|b: &Vec<Bar>, w: &Vec<String>|
        b@ == bars && texts(w@) == words && #[trigger] holds.ensures((b, w), answer)
}

/// Cut a strip to what the panel holds: first with its words as they are, then
/// with the shorter ones, and last without the cells that only report. Whether a
/// strip holds is asked of `holds`.
pub fn fit_strip<H: Fn(&Vec<Bar>, &Vec<String>) -> bool>(
    wanted: Vec<Bar>,
    readouts: &Readouts,
    holds: H,
) -> (r: (Vec<Bar>, Vec<String>))
    requires
        readouts.count matches Some((_, at, _)) ==> at < usize::MAX,
        forall|b: &Vec<Bar>, w: &Vec<String>| holds.requires((b, w)),
    ensures
        ({
            let long = words_for(wanted@, false, *readouts);
            let short = words_for(wanted@, true, *readouts);
            ||| r.0@ == wanted@ && texts(r.1@) == long && held(holds, wanted@, long, true)
            ||| r.0@ == wanted@ && texts(r.1@) == short && held(holds, wanted@, long, false)
                && held(holds, wanted@, short, true)
            ||| r.0@ == controls(wanted@) && texts(r.1@) == words_for(
                controls(wanted@),
                true,
                *readouts,
            ) && held(holds, wanted@, long, false) && held(holds, wanted@, short, false)
        }),
{
    let long = cell_words(wanted.as_slice(), false, readouts);
    if holds(&wanted, &long) {
        assert(held(holds, wanted@, texts(long@), true));
        return (wanted, long);
    }
    assert(held(holds, wanted@, texts(long@), false));
    let short = cell_words(wanted.as_slice(), true, readouts);
    if holds(&wanted, &short) {
        assert(held(holds, wanted@, texts(short@), true));
        return (wanted, short);
    }
    assert(held(holds, wanted@, texts(short@), false));
    let mut bare: Vec<Bar> = Vec::new();
    let mut i: usize = 0;
    while i < wanted.len()
        invariant
            i <= wanted.len(),
            bare@ == controls(wanted@.take(i as int)),
        decreases wanted.len() - i,
    {
        assert(wanted@.take(i + 1).drop_last() =~= wanted@.take(i as int));
        if !wanted[i].is_readout() {
            bare.push(wanted[i]);
        }
        i = i + 1;
    }
    assert(wanted@.take(i as int) =~= wanted@);
    let words = cell_words(bare.as_slice(), true, readouts);
    (bare, words)
}

/// A strip that is cut loses no control.
pub proof fn no_strip_drops_a_control(wanted: Seq<Bar>, bar: Bar)
    requires
        wanted.contains(bar),
        !bar.reports(),
    ensures
        controls(wanted).contains(bar),
    decreases wanted.len(),
{
    let i = choose|i: int| 0 <= i < wanted.len() && wanted[i] == bar;
    let front = wanted.drop_last();
    if i == wanted.len() - 1 {
        assert(controls(wanted).last() == bar);
    } else {
        assert(front[i] == bar);
        no_strip_drops_a_control(front, bar);
        let k = choose|k: int| 0 <= k < controls(front).len() && controls(front)[k] == bar;
        assert(controls(wanted)[k] == bar);
    }
}

/// Whether a strip fits: every cell was drawn, and every field is wide enough to
/// read.
pub fn strip_holds(drawn: usize, cells: usize, fields: usize, room: u16, least: u16) -> (r: bool)
    ensures
        r == (drawn >= cells && (fields == 0 || room >= least)),
{
    if drawn < cells {
        return false;
    }
    if fields == 0 {
        return true;
    }
    room >= least
}

/// The labels of the cells that are no fields, as they are drawn.
pub open spec fn others(labels: Seq<Seq<char>>, fields: Seq<usize>, n: int) -> Seq<Seq<char>>
    decreases n,
{
    if n <= 0 {
        seq![]
    } else if fields.contains((n - 1) as usize) {
        others(labels, fields, n - 1)
    } else {
        others(labels, fields, n - 1).push(bracketed(labels[n - 1]))
    }
}

pub fn other_labels(labels: &Vec<String>, fields: &Vec<usize>) -> (r: Vec<String>)
    ensures
        texts(r@) == others(texts(labels@), fields@, labels.len() as int),
{
    let mut out: Vec<String> = Vec::new();
    let mut i: usize = 0;
    assert(texts(out@) =~= seq![]);
    while i < labels.len()
        invariant
            i <= labels.len(),
            texts(out@) == others(texts(labels@), fields@, i as int),
        decreases labels.len() - i,
    {
        let mut is_field = false;
        let mut k: usize = 0;
        while k < fields.len()
            invariant
                k <= fields.len(),
                is_field == exists|j: int| 0 <= j < k && fields@[j] == i,
            decreases fields.len() - k,
        {
            if fields[k] == i {
                is_field = true;
            }
            k = k + 1;
        }
        assert(is_field == fields@.contains(i));
        if !is_field {
            let label = bracket(labels[i].as_str());
            proof {
                lemma_texts_push(out@, label);
                assert(texts(labels@)[i as int] == labels@[i as int]@);
            }
            out.push(label);
        }
        i = i + 1;
    }
    out
}

/// What a field says: its name, what was typed with the front of it cut off where
/// it did not fit, and a rule for the caret where it takes the keys.
pub open spec fn field_text(name: Seq<char>, typed: Seq<char>, cut: bool, focused: bool) -> Seq<char> {
    name + ": "@ + (if cut {
        "…"@
    } else {
        ""@
    }) + typed + (if focused {
        "_"@
    } else {
        ""@
    })
}

/// What a field says with so many characters cut off its front.
pub open spec fn cut_text(field: Field, typed: Seq<char>, cut: int, focused: bool) -> Seq<char> {
    field_text(field_name(field), typed.skip(cut), cut > 0, focused)
}

/// The name a field goes by.
pub open spec fn field_name(field: Field) -> Seq<char> {
    match field {
        Field::Query => "Find"@,
        Field::With => "With"@,
    }
}

/// Whether `measure` can have said that a label is this wide.
pub open spec fn measured<M: Fn(&String) -> u16>(measure: M, label: Seq<char>, wide: u16) -> bool {
    exists|s: &String| s@ == label && #[trigger] measure.ensures((s,), wide)
}

/// What a field holds: what was typed into it, with the word being composed where
/// it takes the keys.
pub open spec fn held_in(typed: Seq<char>, preedit: Seq<char>, focused: bool) -> Seq<char> {
    if focused {
        typed + preedit
    } else {
        typed
    }
}

/// A label that is cut as little as its room allows: it fits or has nothing left
/// to cut, and with less cut off it was too wide.
pub open spec fn cut_to_fit<M: Fn(&String) -> u16>(
    measure: M,
    field: Field,
    held: Seq<char>,
    cut: int,
    focused: bool,
    room: u16,
    label: Seq<char>,
) -> bool {
    &&& 0 <= cut <= held.len()
    &&& label == cut_text(field, held, cut, focused)
    &&& cut < held.len() ==> exists|wide: u16|
        wide <= room && #[trigger] measured(measure, bracketed(label), wide)
    &&& forall|j: int|
        0 <= j < cut ==> too_wide(measure, #[trigger] cut_text(field, held, j, focused), room)
}

/// A label that is cut as little as its room allows, however much that is.
pub open spec fn cut_somewhere<M: Fn(&String) -> u16>(
    measure: M,
    field: Field,
    held: Seq<char>,
    focused: bool,
    room: u16,
    label: Seq<char>,
) -> bool {
    exists|k: int| #[trigger] cut_to_fit(measure, field, held, k, focused, room, label)
}

fn field_label(field: Field, typed: &Vec<char>, from: usize, focused: bool) -> (r: String)
    requires
        from <= typed.len(),
    ensures
        r@ == cut_text(field, typed@, from as int, focused),
{
    let mut s = match field {
        Field::Query => String::from_str("Find"),
        Field::With => String::from_str("With"),
    };
    s.append(": ");
    s.append(
        if from > 0 {
            "…"
        } else {
            ""
        },
    );
    let rest = part(typed, from, typed.len());
    assert(rest@ =~= typed@.skip(from as int));
    let rest = string_of(&rest);
    s.append(rest.as_str());
    s.append(
        if focused {
            "_"
        } else {
            ""
        },
    );
    s
}

/// What a field of the find bar says, cut from the front until it fits its room
/// as it is drawn. How wide a label is is asked of `measure`.
pub fn find_field<M: Fn(&String) -> u16>(
    field: Field,
    typed: &str,
    preedit: &str,
    focused: bool,
    room: u16,
    measure: M,
) -> (r: String)
    requires
        forall|s: &String| measure.requires((s,)),
    ensures
        cut_somewhere(measure, field, held_in(typed@, preedit@, focused), focused, room, r@),
{
    let mut all: Vec<char> = chars_of(typed);
    if focused {
        let mut more = chars_of(preedit);
        all.append(&mut more);
    }
    let mut from: usize = 0;
    loop
        invariant
            from <= all.len(),
            all@ == held_in(typed@, preedit@, focused),
            forall|s: &String| measure.requires((s,)),
            forall|j: int|
                0 <= j < from ==> too_wide(
                    measure,
                    #[trigger] cut_text(field, all@, j, focused),
                    room,
                ),
        decreases all.len() - from,
    {
        let text = field_label(field, &all, from, focused);
        if from == all.len() {
            assert(cut_to_fit(measure, field, all@, from as int, focused, room, text@));
            return text;
        }
        let drawn = bracket(text.as_str());
        let wide: u16 = measure(&drawn);
        assert(measured(measure, bracketed(text@), wide));
        if wide <= room {
            assert(cut_to_fit(measure, field, all@, from as int, focused, room, text@));
            return text;
        }
        assert(too_wide(measure, text@, room));
        from = from + 1;
    }
}

/// Whether a label was found too wide for its room, as it is drawn.
pub open spec fn too_wide<M: Fn(&String) -> u16>(measure: M, label: Seq<char>, room: u16) -> bool {
    exists|wide: u16| wide > room && #[trigger] measured(measure, bracketed(label), wide)
}

/// The cells a strip carries: the find bar's while it is open, with both fields
/// while it replaces, and else the mode's own, with the paging where the list
/// runs over the page.
pub open spec fn wanted(find: Option<bool>, mode: Mode, pages: int) -> Seq<Bar> {
    match find {
        Some(true) => seq![
            Bar::Query,
            Bar::With,
            Bar::Count,
            Bar::Previous,
            Bar::Next,
            Bar::Change,
            Bar::All,
            Bar::Done,
        ],
        Some(false) => seq![
            Bar::Query,
            Bar::Count,
            Bar::Previous,
            Bar::Next,
            Bar::Replace,
            Bar::Done,
        ],
        None => {
            let own = match mode {
                Mode::Writing => seq![Bar::Exit, Bar::Files, Bar::Config, Bar::Help],
                Mode::Naming { .. } => seq![Bar::Cancel],
                Mode::Files(_) => seq![Bar::Done, Bar::New, Bar::Rename],
                _ => seq![Bar::Done],
            };
            if pages > 1 {
                own + seq![Bar::PageBack, Bar::PageAt, Bar::PageOn]
            } else {
                own
            }
        },
    }
}

pub fn strip_wanted(find: Option<bool>, mode: &Mode, pages: usize) -> (r: Vec<Bar>)
    ensures
        r@ == wanted(find, *mode, pages as int),
{
    match find {
        Some(true) => {
            let r = vec![
                Bar::Query,
                Bar::With,
                Bar::Count,
                Bar::Previous,
                Bar::Next,
                Bar::Change,
                Bar::All,
                Bar::Done,
            ];
            assert(r@ =~= wanted(find, *mode, pages as int));
            r
        },
        Some(false) => {
            let r = vec![
                Bar::Query,
                Bar::Count,
                Bar::Previous,
                Bar::Next,
                Bar::Replace,
                Bar::Done,
            ];
            assert(r@ =~= wanted(find, *mode, pages as int));
            r
        },
        None => {
            let mut cells = match mode {
                Mode::Writing => vec![Bar::Exit, Bar::Files, Bar::Config, Bar::Help],
                Mode::Naming { .. } => vec![Bar::Cancel],
                Mode::Files(_) => vec![Bar::Done, Bar::New, Bar::Rename],
                _ => vec![Bar::Done],
            };
            if pages > 1 {
                cells.push(Bar::PageBack);
                cells.push(Bar::PageAt);
                cells.push(Bar::PageOn);
            }
            assert(cells@ =~= wanted(find, *mode, pages as int));
            cells
        },
    }
}

/// Every strip but the page's has a way out on it that is no page.
pub proof fn every_strip_has_a_way_out(find: Option<bool>, mode: Mode, pages: int)
    ensures
        wanted(find, mode, pages).contains(Bar::Done) || wanted(find, mode, pages).contains(
            Bar::Cancel,
        ) || wanted(find, mode, pages).contains(Bar::Exit),
{
    let w = wanted(find, mode, pages);
    match find {
        Some(true) => {
            assert(w[7] == Bar::Done);
        },
        Some(false) => {
            assert(w[5] == Bar::Done);
        },
        None => {
            assert(w[0] == Bar::Done || w[0] == Bar::Cancel || w[0] == Bar::Exit);
        },
    }
}

/// Whether the strip is on screen: always on a panel and under the find bar, and
/// on the page unless it was put away with a keyboard there to bring it back.
pub open spec fn visible(hidden: bool, keyboard_present: bool, finding: bool, writing: bool) -> bool {
    !writing || finding || !hidden || !keyboard_present
}

pub fn strip_visible(hidden: bool, keyboard_present: bool, finding: bool, writing: bool) -> (r: bool)
    ensures
        r == visible(hidden, keyboard_present, finding, writing),
{
    !writing || finding || !hidden || !keyboard_present
}

/// Without a keyboard the strip never hides: it is the only way out.
pub proof fn the_strip_never_hides_without_a_keyboard(hidden: bool, finding: bool, writing: bool)
    ensures
        visible(hidden, false, finding, writing),
{
}

/// Whether the chrome was hidden, and whether the page has to be laid out afresh
/// for it. It is touched only while writing.
pub fn set_chrome_hidden(
    hidden: &mut bool,
    want: bool,
    keyboard_present: bool,
    finding: bool,
    writing: bool,
) -> (r: bool)
    ensures
        *final(hidden) == (if writing {
            want
        } else {
            *old(hidden)
        }),
        r == (writing && visible(*old(hidden), keyboard_present, finding, writing) != visible(
            want,
            keyboard_present,
            finding,
            writing,
        )),
{
    if *hidden == want || !writing {
        return false;
    }
    let was = strip_visible(*hidden, keyboard_present, finding, writing);
    *hidden = want;
    was != strip_visible(want, keyboard_present, finding, writing)
}

/// What the cells say, as they are drawn.
pub fn strip_cells(labels: &Vec<String>) -> (r: Vec<String>)
    ensures
        texts(r@) == texts(labels@).map_values(|l: Seq<char>| bracketed(l)),
{
    let mut out: Vec<String> = Vec::new();
    let mut i: usize = 0;
    while i < labels.len()
        invariant
            i <= labels.len(),
            out.len() == i,
            forall|k: int| 0 <= k < i ==> (#[trigger] out@[k])@ == bracketed(labels@[k]@),
        decreases labels.len() - i,
    {
        out.push(bracket(labels[i].as_str()));
        i = i + 1;
    }
    assert(texts(out@) =~= texts(labels@).map_values(|l: Seq<char>| bracketed(l)));
    out
}

/// Where the page ends: above the strip, or at the foot of the panel where the
/// strip is out of the way.
pub fn page_bottom(shown: bool, strip_top: u16, height: u16) -> (r: u16)
    ensures
        r == (if shown {
            strip_top
        } else {
            height
        }),
{
    if shown {
        strip_top
    } else {
        height
    }
}

/// The place of a field's cell on a bar, from `from` on.
pub open spec fn cell_from(bars: Seq<Bar>, cell: Bar, from: int) -> Option<int>
    decreases bars.len() - from,
{
    if from < 0 || from >= bars.len() {
        None
    } else if bars[from] == cell {
        Some(from)
    } else {
        cell_from(bars, cell, from + 1)
    }
}

/// The cell that the candidates hang off while a word is composed into a field:
/// the field's own, wherever the bar puts it.
pub fn anchor_cell(bars: &Vec<Bar>, field: Field) -> (r: usize)
    ensures
        r == (match cell_from(bars@, field.drawn_in(), 0) {
            Some(at) => at,
            None => 0,
        }),
{
    let cell = field.cell();
    let mut i: usize = 0;
    while i < bars.len()
        invariant
            i <= bars.len(),
            cell == field.drawn_in(),
            cell_from(bars@, cell, 0) == cell_from(bars@, cell, i as int),
        decreases bars.len() - i,
    {
        if bars[i] == cell {
            return i;
        }
        i = i + 1;
    }
    0
}

/// A cell is in the strip exactly where what it does can be done.
pub proof fn a_cell_is_there_where_it_is_of_use(find: Option<bool>, mode: Mode, pages: int)
    ensures
        ({
            let bars = wanted(find, mode, pages);
            &&& bars.contains(Bar::Exit) <==> find is None && mode is Writing
            &&& bars.contains(Bar::Files) <==> find is None && mode is Writing
            &&& bars.contains(Bar::Config) <==> find is None && mode is Writing
            &&& bars.contains(Bar::Help) <==> find is None && mode is Writing
            &&& !bars.contains(Bar::Outline)
            &&& bars.contains(Bar::Cancel) <==> find is None && mode is Naming
            &&& bars.contains(Bar::New) <==> find is None && mode is Files
            &&& bars.contains(Bar::Rename) <==> find is None && mode is Files
            &&& bars.contains(Bar::Done) <==> find is Some || !(mode is Writing || mode is Naming)
            &&& bars.contains(Bar::Query) <==> find is Some
            &&& bars.contains(Bar::Count) <==> find is Some
            &&& bars.contains(Bar::Previous) <==> find is Some
            &&& bars.contains(Bar::Next) <==> find is Some
            &&& bars.contains(Bar::Replace) <==> find == Some(false)
            &&& bars.contains(Bar::With) <==> find == Some(true)
            &&& bars.contains(Bar::Change) <==> find == Some(true)
            &&& bars.contains(Bar::All) <==> find == Some(true)
            &&& bars.contains(Bar::PageBack) <==> find is None && pages > 1
            &&& bars.contains(Bar::PageAt) <==> find is None && pages > 1
            &&& bars.contains(Bar::PageOn) <==> find is None && pages > 1
        }),
{
    let bars = wanted(find, mode, pages);
    match find {
        Some(true) => {
            assert(bars[0] == Bar::Query && bars[1] == Bar::With && bars[2] == Bar::Count && bars[3]
                == Bar::Previous && bars[4] == Bar::Next && bars[5] == Bar::Change && bars[6]
                == Bar::All && bars[7] == Bar::Done);
        },
        Some(false) => {
            assert(bars[0] == Bar::Query && bars[1] == Bar::Count && bars[2] == Bar::Previous
                && bars[3] == Bar::Next && bars[4] == Bar::Replace && bars[5] == Bar::Done);
        },
        None => {
            let n: int = match mode {
                Mode::Writing => 4,
                Mode::Naming { .. } => 1,
                Mode::Files(_) => 3,
                _ => 1,
            };
            match mode {
                Mode::Writing => {
                    assert(bars[0] == Bar::Exit && bars[1] == Bar::Files && bars[2] == Bar::Config
                        && bars[3] == Bar::Help);
                },
                Mode::Naming { .. } => {
                    assert(bars[0] == Bar::Cancel);
                },
                Mode::Files(_) => {
                    assert(bars[0] == Bar::Done && bars[1] == Bar::New && bars[2] == Bar::Rename);
                },
                _ => {
                    assert(bars[0] == Bar::Done);
                },
            }
            if pages > 1 {
                assert(bars[n] == Bar::PageBack && bars[n + 1] == Bar::PageAt && bars[n + 2]
                    == Bar::PageOn);
            }
        },
    }
}

/// The step back stands before the step on, with the number of the page between them, and
/// no cell stands in a strip twice.
pub proof fn the_cells_stand_in_reading_order(find: Option<bool>, mode: Mode, pages: int, i: int, j: int)
    requires
        0 <= i < j < wanted(find, mode, pages).len(),
    ensures
        wanted(find, mode, pages)[i] != wanted(find, mode, pages)[j],
        wanted(find, mode, pages)[j] != Bar::Query,
        wanted(find, mode, pages)[j] != Bar::Exit,
        wanted(find, mode, pages)[i] == Bar::Previous || wanted(find, mode, pages)[j] != Bar::Next
            || wanted(find, mode, pages)[j - 1] == Bar::Previous,
        wanted(find, mode, pages)[j] == Bar::PageOn ==> wanted(find, mode, pages)[j - 1]
            == Bar::PageAt,
        wanted(find, mode, pages)[j] == Bar::PageAt ==> wanted(find, mode, pages)[j - 1]
            == Bar::PageBack,
{
}

/// The shorter word of a cell is no longer than its longer one, and begins as it does.
pub proof fn a_short_word_begins_the_long_one(bar: Bar)
    ensures
        bar.shortened().len() <= bar.worded().len(),
        bar.shortened() == bar.worded().take(bar.shortened().len() as int),
        bar.shortened().len() == 0 <==> bar.reports(),
        bar.shortened().len() < bar.worded().len() <==> bar == Bar::New || bar == Bar::Previous || bar
            == Bar::PageBack,
{
    reveal_strlit("Files");
    reveal_strlit("Config");
    reveal_strlit("Exit");
    reveal_strlit("Help");
    reveal_strlit("Outline");
    reveal_strlit("Done");
    reveal_strlit("Cancel");
    reveal_strlit("Previous");
    reveal_strlit("Next");
    reveal_strlit("");
    reveal_strlit("New document");
    reveal_strlit("Rename");
    reveal_strlit("Find:");
    reveal_strlit("Replace");
    reveal_strlit("With:");
    reveal_strlit("Change");
    reveal_strlit("All");
    reveal_strlit("New");
    reveal_strlit("Prev");
    assert(bar.shortened() =~= bar.worded().take(bar.shortened().len() as int));
}

/// The readout counts from one: what it says first is a number one past the place of the
/// match that shows, and what it says last is how many there are. It says neither before
/// there is a query, nor while a word of it is composed.
pub proof fn the_readout_counts_from_one(short: bool, at: nat, total: nat)
    requires
        0 < total,
        at < usize::MAX,
        total <= usize::MAX,
    ensures
        count_text(true, false, short, at, total).len() == 0,
        count_text(false, true, short, at, total).len() == 0,
        ({
            let says = count_text(false, false, short, at, total);
            let first = until(says, if short {
                '/'
            } else {
                ' '
            }) as int;
            let between = if short {
                1int
            } else {
                4int
            };
            &&& number(says.take(first), 10, usize::MAX as int) == Some(at as int + 1)
            &&& number(says.skip(first + between), 10, usize::MAX as int) == Some(
                total as int,
            )
            &&& short ==> says[first] == '/'
            &&& !short ==> says[first] == ' ' && says[first + 1] == 'o' && says[first + 2] == 'f'
                && says[first + 3] == ' '
        }),
{
    reveal_strlit(" of ");
    reveal_strlit("/");
    let says = count_text(false, false, short, at, total);
    let front = decimal(at + 1);
    let back = decimal(total);
    let between = if short {
        "/"@
    } else {
        " of "@
    };
    number_reads_what_decimal_writes(at + 1, usize::MAX as int);
    number_reads_what_decimal_writes(total, usize::MAX as int);
    assert(says =~= front + between + back);
    assert forall|i: int| 0 <= i < front.len() implies says[i] != between[0] by {
        assert(says[i] == front[i]);
    }
    assert(says[front.len() as int] == between[0]);
    lemma_until(says, between[0], front.len());
    assert(says.take(front.len() as int) =~= front);
    assert(says.skip(front.len() as int + between.len()) =~= back);
    assert(forall|k: int| 0 <= k < between.len() ==> says[front.len() as int + k] == between[k]);
}

/// The controls of a strip are its cells but for those that only report, in their order.
pub proof fn the_controls_keep_their_order(bars: Seq<Bar>, more: Seq<Bar>)
    ensures
        controls(bars + more) == controls(bars) + controls(more),
        forall|bar: Bar| controls(bars).contains(bar) ==> bars.contains(bar) && bar != Bar::Count
            && bar != Bar::PageAt,
        controls(bars).len() <= bars.len(),
    decreases bars.len() + more.len(),
{
    if more.len() > 0 {
        the_controls_keep_their_order(bars, more.drop_last());
        assert((bars + more).drop_last() =~= bars + more.drop_last());
        assert((bars + more).last() == more.last());
        assert(controls(bars + more) =~= controls(bars) + controls(more));
    } else {
        assert(bars + more =~= bars);
        assert(controls(bars) + controls(more) =~= controls(bars));
        if bars.len() > 0 {
            the_controls_keep_their_order(bars.drop_last(), more);
            assert forall|bar: Bar| controls(bars).contains(bar) implies bars.contains(bar) && bar
                != Bar::Count && bar != Bar::PageAt by {
                let k = choose|k: int| 0 <= k < controls(bars).len() && controls(bars)[k] == bar;
                if k < controls(bars.drop_last()).len() {
                    assert(controls(bars.drop_last())[k] == bar);
                    assert(controls(bars.drop_last()).contains(bar));
                    assert(bars.drop_last().contains(bar));
                } else {
                    assert(bars.last() == bar);
                }
            }
        }
    }
}

/// The strip hides only while writing, where it was asked to, with a keyboard there and no
/// find bar open.
pub proof fn when_the_strip_hides(hidden: bool, keyboard: bool, finding: bool, writing: bool)
    ensures
        visible(hidden, keyboard, finding, false),
        visible(hidden, keyboard, true, writing),
        visible(false, keyboard, finding, writing),
        !visible(true, true, false, true),
{
}

/// A field shows its name and the end of what was typed: no character of the end is ever
/// cut, and a cut is marked.
pub proof fn a_field_shows_the_end_of_its_text(field: Field, typed: Seq<char>, cut: int)
    requires
        0 <= cut <= typed.len(),
    ensures
        ({
            let label = cut_text(field, typed, cut, true);
            let plain = cut_text(field, typed, cut, false);
            &&& label == plain.push('_')
            &&& plain.skip(plain.len() - (typed.len() - cut)) == typed.skip(cut)
            &&& plain.take(6) == (if field == Field::Query {
                seq!['F', 'i', 'n', 'd', ':', ' ']
            } else {
                seq!['W', 'i', 't', 'h', ':', ' ']
            })
            &&& plain.len() == 6 + (if cut > 0 {
                1int
            } else {
                0int
            }) + typed.len() - cut
            &&& cut > 0 ==> plain[6] == '…'
        }),
{
    reveal_strlit("Find");
    reveal_strlit("With");
    reveal_strlit(": ");
    reveal_strlit("…");
    reveal_strlit("");
    reveal_strlit("_");
    let label = cut_text(field, typed, cut, true);
    let plain = cut_text(field, typed, cut, false);
    assert(label =~= plain.push('_'));
    assert(plain.skip(plain.len() - (typed.len() - cut)) =~= typed.skip(cut));
    assert(plain.take(6) =~= (if field == Field::Query {
        seq!['F', 'i', 'n', 'd', ':', ' ']
    } else {
        seq!['W', 'i', 't', 'h', ':', ' ']
    }));
}

/// A cell that opens a surface goes by the surface's title, and the one that changes every
/// match asks again by a question mark.
pub proof fn a_cell_goes_by_what_it_opens(readouts: Readouts, mode: Mode, short: bool)
    ensures
        mode is Files ==> Bar::Files.worded() == titled(mode),
        mode is Config ==> Bar::Config.worded() == titled(mode),
        mode is Help ==> Bar::Help.worded() == titled(mode),
        mode is Outline ==> Bar::Outline.worded() == titled(mode),
        mode matches Mode::Naming { for_new, .. } ==> titled(mode) == (if for_new {
            Bar::New.worded()
        } else {
            Bar::Rename.worded()
        }),
        readouts.armed ==> cell_word(Bar::All, short, readouts) == Bar::All.worded().push('?'),
        !readouts.armed ==> cell_word(Bar::All, short, readouts) == Bar::All.worded(),
{
    reveal_strlit("All");
    reveal_strlit("All?");
    assert("All?"@ =~= "All"@.push('?'));
}

/// The words of the cells that open nothing.
pub proof fn the_words_of_the_other_cells()
    ensures
        Bar::Exit.worded() == seq!['E', 'x', 'i', 't'],
        Bar::Done.worded() == seq!['D', 'o', 'n', 'e'],
        Bar::Cancel.worded() == seq!['C', 'a', 'n', 'c', 'e', 'l'],
        Bar::Change.worded() == seq!['C', 'h', 'a', 'n', 'g', 'e'],
        Bar::All.worded() == seq!['A', 'l', 'l'],
        Bar::Replace.worded() == seq!['R', 'e', 'p', 'l', 'a', 'c', 'e'],
        Bar::Next.worded() == seq!['N', 'e', 'x', 't'],
        Bar::PageOn.worded() == Bar::Next.worded(),
        Bar::Previous.worded() == seq!['P', 'r', 'e', 'v', 'i', 'o', 'u', 's'],
        Bar::PageBack.worded() == Bar::Previous.worded(),
        Bar::Query.worded() == field_name(Field::Query).push(':'),
        Bar::With.worded() == field_name(Field::With).push(':'),
{
    reveal_strlit("Exit");
    reveal_strlit("Done");
    reveal_strlit("Cancel");
    reveal_strlit("Change");
    reveal_strlit("All");
    reveal_strlit("Replace");
    reveal_strlit("Next");
    reveal_strlit("Previous");
    reveal_strlit("Find:");
    reveal_strlit("With:");
    reveal_strlit("Find");
    reveal_strlit("With");
    assert("Exit"@ =~= seq!['E', 'x', 'i', 't']);
    assert("Done"@ =~= seq!['D', 'o', 'n', 'e']);
    assert("Cancel"@ =~= seq!['C', 'a', 'n', 'c', 'e', 'l']);
    assert("Change"@ =~= seq!['C', 'h', 'a', 'n', 'g', 'e']);
    assert("All"@ =~= seq!['A', 'l', 'l']);
    assert("Replace"@ =~= seq!['R', 'e', 'p', 'l', 'a', 'c', 'e']);
    assert("Next"@ =~= seq!['N', 'e', 'x', 't']);
    assert("Previous"@ =~= seq!['P', 'r', 'e', 'v', 'i', 'o', 'u', 's']);
    assert("Find:"@ =~= "Find"@.push(':'));
    assert("With:"@ =~= "With"@.push(':'));
}

} // verus!
