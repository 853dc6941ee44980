//! The panels: what a line of one is, which page of it shows, and where the
//! keyboard is on it.

use vstd::prelude::*;

use crate::text::texts;

verus! {

/// A document as the Files panel knows it: its path, its name, how long it is in
/// words, and how many seconds ago it was written. A stamp in the future has no
/// age.
#[derive(Debug)]
pub struct Listing {
    pub path: String,
    pub name: String,
    pub words: String,
    pub age: Option<u64>,
}

/// One heading of a document: its level, its text, where its line starts, and how
/// long the prose under it is in words.
#[derive(Debug)]
pub struct Section {
    pub level: u8,
    pub text: String,
    pub at: usize,
    pub words: String,
}

/// What the screen is showing.
#[derive(Debug)]
pub enum Mode {
    Writing,
    /// The list of documents.
    Files(Vec<Listing>),
    /// Typing a name, for a new document or for the open one.
    Naming { for_new: bool, name: String },
    Config,
    Help,
    /// The headings of the document.
    Outline(Vec<Section>),
}

/// One line of a panel.
#[allow(inconsistent_fields)]
#[derive(Debug)]
pub enum Item {
    Heading(String),
    Row { label: String, detail: String, on: bool, action: Option<String> },
    /// A setting: its name, its values, which stand and which cannot be taken.
    Choice { label: String, options: Vec<String>, on: Vec<bool>, inert: Vec<bool> },
    /// A setting whose values are colours, by their places.
    Swatches { label: String, inks: Vec<usize>, on: Vec<bool> },
}

/// A line's parts as plain values.
#[allow(inconsistent_fields)]
pub enum ItemText {
    Heading(Seq<char>),
    Row { label: Seq<char>, detail: Seq<char>, on: bool, action: Option<Seq<char>> },
    Choice { label: Seq<char>, options: Seq<Seq<char>>, on: Seq<bool>, inert: Seq<bool> },
    Swatches { label: Seq<char>, inks: Seq<usize>, on: Seq<bool> },
}

impl View for Item {
    type V = ItemText;

    open spec fn view(&self) -> ItemText {
        match *self {
            Item::Heading(s) => ItemText::Heading(s@),
            Item::Row { label, detail, on, action } => ItemText::Row {
                label: label@,
                detail: detail@,
                on,
                action: match action {
                    Some(s) => Some(s@),
                    None => None,
                },
            },
            Item::Choice { label, options, on, inert } => ItemText::Choice {
                label: label@,
                options: texts(options@),
                on: on@,
                inert: inert@,
            },
            Item::Swatches { label, inks, on } => ItemText::Swatches {
                label: label@,
                inks: inks@,
                on: on@,
            },
        }
    }
}

/// The parts of a list of lines.
pub open spec fn item_texts(list: Seq<Item>) -> Seq<ItemText> {
    list.map_values(|i: Item| i@)
}

/// Where the keyboard is in a panel: which line of the whole list, and which of
/// its chips.
#[derive(Debug, Clone, Copy, PartialEq, Eq, Structural)]
pub struct PanelFocus {
    pub row: usize,
    pub chip: usize,
}

pub fn heading(text: &str) -> (r: Item)
    ensures
        r@ == ItemText::Heading(text@),
{
    Item::Heading(text.to_owned())
}

/// A line that only tells something.
pub fn fact(label: &str, detail: &str) -> (r: Item)
    ensures
        r@ == (ItemText::Row { label: label@, detail: detail@, on: false, action: None }),
{
    Item::Row { label: label.to_owned(), detail: detail.to_owned(), on: false, action: None }
}

// ---------------------------------------------------------------------------
// Which lines take the keyboard
// ---------------------------------------------------------------------------

/// Whether a line of a panel does something when it is taken: a row of the two
/// lists, and on Config a line with a chip that can be taken.
pub open spec fn line_takes(mode: Mode, item: Item) -> bool {
    match mode {
        Mode::Files(_) => item is Row,
        Mode::Outline(_) => item is Row,
        Mode::Config => chips_of(item@, chip_count(item@)).len() > 0,
        _ => false,
    }
}

pub fn line_takes_focus(mode: &Mode, item: &Item) -> (r: bool)
    ensures
        r == line_takes(*mode, *item),
{
    match mode {
        Mode::Files(_) => matches!(item, Item::Row { .. }),
        Mode::Outline(_) => matches!(item, Item::Row { .. }),
        Mode::Config => takeable(item).len() > 0,
        _ => false,
    }
}

/// The chips of a line that can be taken: the values of a setting that are not
/// inert, and the colours of one.
pub open spec fn chips_of(item: ItemText, n: int) -> Seq<usize>
    decreases n,
{
    match item {
        ItemText::Choice { options, inert, .. } => if n <= 0 {
            seq![]
        } else if n - 1 < inert.len() && inert[n - 1] {
            chips_of(item, n - 1)
        } else {
            chips_of(item, n - 1).push((n - 1) as usize)
        },
        ItemText::Swatches { inks, .. } => if n <= 0 {
            seq![]
        } else {
            chips_of(item, n - 1).push((n - 1) as usize)
        },
        _ => seq![],
    }
}

/// How many chips a line has.
pub open spec fn chip_count(item: ItemText) -> int {
    match item {
        ItemText::Choice { options, .. } => options.len() as int,
        ItemText::Swatches { inks, .. } => inks.len() as int,
        _ => 0,
    }
}

pub fn takeable(item: &Item) -> (r: Vec<usize>)
    ensures
        r@ == chips_of(item@, chip_count(item@)),
{
    let mut out: Vec<usize> = Vec::new();
    match item {
        Item::Choice { label: _, options, on: _, inert } => {
            let mut i: usize = 0;
            while i < options.len()
                invariant
                    i <= options.len(),
                    item@ matches ItemText::Choice { options: o, inert: n, .. } && o == texts(
                        options@,
                    ) && n == inert@,
                    out@ == chips_of(item@, i as int),
                decreases options.len() - i,
            {
                if !(i < inert.len() && inert[i]) {
                    out.push(i);
                }
                i = i + 1;
            }
        },
        Item::Swatches { label: _, inks, on: _ } => {
            let mut i: usize = 0;
            while i < inks.len()
                invariant
                    i <= inks.len(),
                    item@ matches ItemText::Swatches { inks: k, .. } && k == inks@,
                    out@ == chips_of(item@, i as int),
                decreases inks.len() - i,
            {
                out.push(i);
                i = i + 1;
            }
        },
        _ => {},
    }
    out
}

/// The first value of a setting that stands, from `from` on.
pub open spec fn first_on(on: Seq<bool>, from: int) -> Option<usize>
    decreases on.len() - from,
{
    if from < 0 || from >= on.len() {
        None
    } else if on[from] {
        Some(from as usize)
    } else {
        first_on(on, from + 1)
    }
}

/// The value a setting stands on.
pub open spec fn standing(item: ItemText) -> Option<usize> {
    match item {
        ItemText::Choice { on, .. } => first_on(on, 0),
        ItemText::Swatches { on, .. } => first_on(on, 0),
        _ => None,
    }
}

pub fn current(item: &Item) -> (r: Option<usize>)
    ensures
        r == standing(item@),
{
    match item {
        Item::Choice { label: _, options: _, on, inert: _ } => find_on(on),
        Item::Swatches { label: _, inks: _, on } => find_on(on),
        _ => None,
    }
}

fn find_on(on: &Vec<bool>) -> (r: Option<usize>)
    ensures
        r == first_on(on@, 0),
{
    let mut i: usize = 0;
    while i < on.len()
        invariant
            i <= on.len(),
            first_on(on@, 0) == first_on(on@, i as int),
        decreases on.len() - i,
    {
        if on[i] {
            return Some(i);
        }
        i = i + 1;
    }
    None
}

/// The chip the keyboard sits on when it arrives at a line: the value the setting
/// stands on where it can be taken, else the first that can.
pub open spec fn arrival_chip(takeable: Seq<usize>, standing: Option<usize>) -> usize {
    if standing is Some && takeable.contains(standing->0) {
        standing->0
    } else if takeable.len() > 0 {
        takeable[0]
    } else {
        0
    }
}

pub fn chip_on(takeable: &Vec<usize>, standing: Option<usize>) -> (r: usize)
    ensures
        r == arrival_chip(takeable@, standing),
{
    if let Some(at) = standing {
        let mut i: usize = 0;
        while i < takeable.len()
            invariant
                i <= takeable.len(),
                standing == Some(at),
                forall|k: int| 0 <= k < i ==> takeable@[k] != at,
            decreases takeable.len() - i,
        {
            if takeable[i] == at {
                assert(takeable@.contains(at));
                return at;
            }
            i = i + 1;
        }
    }
    if takeable.len() > 0 {
        takeable[0]
    } else {
        0
    }
}

// ---------------------------------------------------------------------------
// Walking the lines
// ---------------------------------------------------------------------------

/// The line `step` steps away, down or up, going round at the ends.
pub open spec fn line_at(n: int, start: int, step: int, down: bool) -> int {
    if down {
        (start + step) % n
    } else {
        (start + n - step % n) % n
    }
}

/// The nearest line that takes the keyboard, from `step` steps away to once round.
pub open spec fn focusable_from(takes: Seq<bool>, start: int, step: int, down: bool) -> Option<int>
    decreases takes.len() - step + 1,
{
    if step > takes.len() {
        None
    } else if takes[line_at(takes.len() as int, start, step, down)] {
        Some(line_at(takes.len() as int, start, step, down))
    } else {
        focusable_from(takes, start, step + 1, down)
    }
}

/// Where a walk starts: at the line the keyboard is on, or before the first going
/// down and after the first going up.
pub open spec fn walk_start(n: int, from: Option<usize>, down: bool) -> int {
    match from {
        Some(at) => at as int,
        None => if down {
            n - 1
        } else {
            0
        },
    }
}

/// The next line that takes the keyboard.
pub open spec fn next_of(takes: Seq<bool>, from: Option<usize>, down: bool) -> Option<int> {
    if takes.len() == 0 {
        None
    } else {
        focusable_from(takes, walk_start(takes.len() as int, from, down), 1, down)
    }
}

pub fn next_focusable(takes: &[bool], from: Option<usize>, down: bool) -> (r: Option<usize>)
    requires
        walk_start(takes@.len() as int, from, down) + takes@.len() <= usize::MAX,
    ensures
        match r {
            Some(at) => next_of(takes@, from, down) == Some(at as int) && at < takes@.len()
                && takes@[at as int],
            None => next_of(takes@, from, down) is None,
        },
{
    let n: usize = takes.len();
    if n == 0 {
        return None;
    }
    let start: usize = match from {
        Some(at) => at,
        None => if down {
            n - 1
        } else {
            0
        },
    };
    let mut step: usize = 1;
    while step <= n
        invariant
            n == takes@.len(),
            0 < n,
            1 <= step,
            step <= n || step == n + 1,
            start + n <= usize::MAX,
            start == walk_start(n as int, from, down),
            next_of(takes@, from, down) == focusable_from(takes@, start as int, step as int, down),
        decreases n + 1 - step,
    {
        proof {
            lemma_remainder(n as int, step as int);
        }
        let at: usize = if down {
            (start + step) % n
        } else {
            (start + (n - step % n)) % n
        };
        if takes[at] {
            return Some(at);
        }
        if step == n {
            assert(focusable_from(takes@, start as int, n + 1, down) is None);
            return None;
        }
        step = step + 1;
    }
    None
}

proof fn lemma_remainder(n: int, step: int)
    requires
        n > 0,
    ensures
        0 <= step % n < n,
{
    assert(0 <= step % n < n) by (nonlinear_arith)
        requires
            n > 0,
    ;
}

/// A walk ends on a line that takes the keyboard, and finds none only where no
/// line does.
pub proof fn a_walk_finds_a_line_where_there_is_one(takes: Seq<bool>, from: Option<usize>, down: bool)
    ensures
        next_of(takes, from, down) matches Some(at) ==> 0 <= at < takes.len() && takes[at],
        next_of(takes, from, down) is None ==> forall|i: int| 0 <= i < takes.len() ==> !takes[i],
{
    if takes.len() > 0 {
        let n = takes.len() as int;
        let start = walk_start(n, from, down);
        lemma_focusable(takes, start, 1, down);
        if next_of(takes, from, down) is None {
            assert forall|i: int| 0 <= i < n implies !takes[i] by {
                let step = if down {
                    lemma_mod_step(n, start, i);
                    if (i - start) % n == 0 {
                        n
                    } else {
                        (i - start) % n
                    }
                } else {
                    lemma_mod_step(n, i, start);
                    lemma_mod_back(n, start, i);
                    if (start - i) % n == 0 {
                        n
                    } else {
                        (start - i) % n
                    }
                };
                assert(1 <= step <= n);
                assert(line_at(n, start, step, down) == i);
            }
        }
    }
}

proof fn lemma_focusable(takes: Seq<bool>, start: int, step: int, down: bool)
    requires
        takes.len() > 0,
        1 <= step,
        0 <= start,
    ensures
        focusable_from(takes, start, step, down) matches Some(at) ==> 0 <= at < takes.len()
            && takes[at],
        focusable_from(takes, start, step, down) is None ==> forall|k: int|
            step <= k <= takes.len() ==> !takes[#[trigger] line_at(
                takes.len() as int,
                start,
                k,
                down,
            )],
    decreases takes.len() - step + 1,
{
    if step <= takes.len() {
        let n = takes.len() as int;
        let at = line_at(n, start, step, down);
        assert(0 <= at < n) by (nonlinear_arith)
            requires
                n > 0,
                at == (start + step) % n || at == (start + n - step % n) % n,
        ;
        lemma_focusable(takes, start, step + 1, down);
    }
}

/// A number that is so many rounds past another has it as its remainder.
proof fn lemma_rounds(x: int, n: int, rounds: int, r: int)
    requires
        n > 0,
        0 <= r < n,
        x == r + n * rounds,
    ensures
        x % n == r,
{
    assert(n * rounds == rounds * n) by (nonlinear_arith);
    vstd::arithmetic::div_mod::lemma_fundamental_div_mod_converse(x, n, rounds, r);
}

/// Going the distance between two lines arrives at the second.
proof fn lemma_mod_step(n: int, start: int, i: int)
    requires
        n > 0,
    ensures
        0 <= (i - start) % n < n,
        0 <= i < n ==> (start + (i - start) % n) % n == i,
        0 <= i < n && (i - start) % n == 0 ==> (start + n) % n == i,
{
    let q = (i - start) / n;
    let d = (i - start) % n;
    vstd::arithmetic::div_mod::lemma_fundamental_div_mod(i - start, n);
    lemma_remainder(n, i - start);
    if 0 <= i < n {
        assert(n * (-q) == -(n * q)) by (nonlinear_arith);
        lemma_rounds(start + d, n, -q, i);
        if d == 0 {
            assert(n * (1 - q) == n - n * q) by (nonlinear_arith);
            lemma_rounds(start + n, n, 1 - q, i);
        }
    }
}

/// Going the distance back from a line arrives at the one it was measured to.
proof fn lemma_mod_back(n: int, start: int, i: int)
    requires
        n > 0,
        0 <= i < n,
    ensures
        0 < (start - i) % n ==> (start + n - ((start - i) % n) % n) % n == i,
        (start - i) % n == 0 ==> (start + n - n % n) % n == i,
{
    let q = (start - i) / n;
    let d = (start - i) % n;
    vstd::arithmetic::div_mod::lemma_fundamental_div_mod(start - i, n);
    lemma_remainder(n, start - i);
    lemma_rounds(d, n, 0, d);
    lemma_rounds(n, n, 1, 0);
    assert(n * (q + 1) == n * q + n) by (nonlinear_arith);
    lemma_rounds(start + n - d, n, q + 1, i);
}

/// Which lines of a panel take the keyboard.
pub fn takes_focus(mode: &Mode, items: &Vec<Item>) -> (r: Vec<bool>)
    ensures
        r.len() == items.len(),
        forall|i: int|
            0 <= i < items.len() ==> (#[trigger] r[i]) == line_takes(*mode, items[i]),
{
    let mut out: Vec<bool> = Vec::new();
    let mut i: usize = 0;
    while i < items.len()
        invariant
            i <= items.len(),
            out.len() == i,
            forall|k: int|
                0 <= k < i ==> (#[trigger] out[k]) == line_takes(*mode, items[k]),
        decreases items.len() - i,
    {
        out.push(line_takes_focus(mode, &items[i]));
        i = i + 1;
    }
    out
}

/// The chip the keyboard arrives at on each line of a panel.
pub fn arrival_chips(items: &Vec<Item>) -> (r: Vec<usize>)
    ensures
        r.len() == items.len(),
        forall|i: int|
            0 <= i < items.len() ==> (#[trigger] r[i]) == arrival_chip(
                chips_of(items[i]@, chip_count(items[i]@)),
                standing(items[i]@),
            ),
{
    let mut out: Vec<usize> = Vec::new();
    let mut i: usize = 0;
    while i < items.len()
        invariant
            i <= items.len(),
            out.len() == i,
            forall|k: int|
                0 <= k < i ==> (#[trigger] out[k]) == arrival_chip(
                    chips_of(items[k]@, chip_count(items[k]@)),
                    standing(items[k]@),
                ),
        decreases items.len() - i,
    {
        let chips = takeable(&items[i]);
        out.push(chip_on(&chips, current(&items[i])));
        i = i + 1;
    }
    out
}

/// What Enter takes on a panel: a chip where the line has any that can be taken,
/// and the line itself where it has none.
#[derive(Debug, Clone, Copy, PartialEq, Eq, Structural)]
pub enum Enter {
    Nothing,
    Row(usize),
    Chip(usize, usize),
}

pub fn take_focus(focus: Option<PanelFocus>, items: &Vec<Item>) -> (r: Enter)
    ensures
        r == (match focus {
            None => Enter::Nothing,
            Some(f) => if f.row >= items.len() {
                Enter::Nothing
            } else if chips_of(items[f.row as int]@, chip_count(items[f.row as int]@)).len() == 0 {
                Enter::Row(f.row)
            } else {
                Enter::Chip(f.row, f.chip)
            },
        }),
{
    match focus {
        None => Enter::Nothing,
        Some(f) => if f.row >= items.len() {
            Enter::Nothing
        } else if takeable(&items[f.row]).len() == 0 {
            Enter::Row(f.row)
        } else {
            Enter::Chip(f.row, f.chip)
        },
    }
}

/// How many lines a panel has, with so many on Config and on Help. An outline with
/// no headings has the one line that says so.
pub open spec fn length_of(mode: Mode, config: int, help: int) -> int {
    match mode {
        Mode::Files(files) => files@.len() as int,
        Mode::Config => config,
        Mode::Help => help,
        Mode::Outline(sections) => if sections@.len() > 0 {
            sections@.len() as int
        } else {
            1
        },
        _ => 0,
    }
}

pub fn panel_len(mode: &Mode, config: usize, help: usize) -> (r: usize)
    ensures
        r == length_of(*mode, config as int, help as int),
{
    match mode {
        Mode::Files(files) => files.len(),
        Mode::Config => config,
        Mode::Help => help,
        Mode::Outline(sections) => if sections.len() > 0 {
            sections.len()
        } else {
            1
        },
        _ => 0,
    }
}

// ---------------------------------------------------------------------------
// Pages
// ---------------------------------------------------------------------------

/// How many pages some lines take.
pub open spec fn page_count(len: int, capacity: int) -> int {
    let cap = if capacity < 1 {
        1
    } else {
        capacity
    };
    if len <= 0 {
        1
    } else {
        (len + cap - 1) / cap
    }
}

pub fn pages_of(len: usize, capacity: usize) -> (r: usize)
    ensures
        r == page_count(len as int, capacity as int),
        r >= 1,
{
    let cap: usize = if capacity < 1 {
        1
    } else {
        capacity
    };
    if len == 0 {
        return 1;
    }
    let whole: usize = len / cap;
    let left: usize = len % cap;
    proof {
        lemma_ceiling(len as int, cap as int);
    }
    if left == 0 {
        whole
    } else {
        whole + 1
    }
}

proof fn lemma_ceiling(len: int, cap: int)
    requires
        len > 0,
        cap > 0,
    ensures
        len % cap == 0 ==> (len + cap - 1) / cap == len / cap && len / cap >= 1,
        len % cap != 0 ==> (len + cap - 1) / cap == len / cap + 1,
        len / cap <= len,
        cap > 1 ==> len / cap < len,
        cap == 1 ==> len % cap == 0,
{
    let q = len / cap;
    let d = len % cap;
    assert(len == cap * q + d && 0 <= d < cap) by (nonlinear_arith)
        requires
            cap > 0,
            q == len / cap,
            d == len % cap,
    ;
    if d == 0 {
        assert((len + cap - 1) / cap == q) by (nonlinear_arith)
            requires
                cap > 0,
                len == cap * q,
        ;
        assert(q >= 1) by (nonlinear_arith)
            requires
                len == cap * q,
                len > 0,
                cap > 0,
        ;
    } else {
        assert((len + cap - 1) / cap == q + 1) by (nonlinear_arith)
            requires
                cap > 0,
                len == cap * q + d,
                1 <= d < cap,
        ;
    }
    assert(q <= len) by (nonlinear_arith)
        requires
            cap > 0,
            len > 0,
            len == cap * q + d,
            0 <= d,
    ;
    if cap > 1 {
        assert(q < len) by (nonlinear_arith)
            requires
                cap > 1,
                len > 0,
                len == cap * q + d,
                0 <= d,
        ;
    }
}

/// Which page of a panel shows, and where the keyboard is on it.
#[derive(Debug, Clone, Copy, PartialEq, Eq, Structural)]
pub struct Paging {
    pub page: usize,
    pub focus: Option<PanelFocus>,
}

/// What a move of the keyboard asks for.
#[derive(Debug, Clone, Copy, PartialEq, Eq, Structural)]
pub enum Moved {
    /// Nothing to draw.
    Nothing,
    /// Draw the panel again.
    Page,
    /// Draw the line that was left, where there was one, and the line arrived at.
    Lines(Option<PanelFocus>),
}

/// The one after a page, or before it going back, round at either end.
pub open spec fn turned(page: int, pages: int, back: bool) -> int {
    if back {
        (page + pages - 1) % pages
    } else {
        (page + 1) % pages
    }
}

impl Paging {
    pub fn opened() -> (r: Paging)
        ensures
            r == (Paging { page: 0, focus: None }),
    {
        Paging { page: 0, focus: None }
    }

    /// The page that shows: the last, where there are no longer so many.
    pub open spec fn shown(self, len: int, capacity: int) -> int {
        let pages = page_count(len, capacity);
        if self.page < pages {
            self.page as int
        } else {
            pages - 1
        }
    }

    /// The lines of the page that shows, by the first and the one past the last.
    /// The page number is brought back to what there is.
    pub fn window(&mut self, len: usize, capacity: usize) -> (r: (usize, usize))
        requires
            len + capacity < usize::MAX,
        ensures
            final(self).page == old(self).shown(len as int, capacity as int),
            final(self).focus == old(self).focus,
            ({
                let cap = if capacity < 1 {
                    1int
                } else {
                    capacity as int
                };
                r.0 == final(self).page * cap && r.1 == r.0 + cap
            }),
    {
        let cap: usize = if capacity < 1 {
            1
        } else {
            capacity
        };
        let pages: usize = pages_of(len, capacity);
        if self.page >= pages {
            self.page = pages - 1;
        }
        proof {
            lemma_page_fits(len as int, cap as int, self.page as int, pages as int);
        }
        let start: usize = self.page * cap;
        (start, start + cap)
    }

    /// Turn a page, going round at either end.
    pub fn turn(&mut self, back: bool, pages: usize)
        requires
            pages >= 1,
            old(self).page + pages <= usize::MAX,
        ensures
            final(self).focus == old(self).focus,
            final(self).page == turned(old(self).page as int, pages as int, back),
    {
        self.page = if back {
            (self.page + (pages - 1)) % pages
        } else {
            (self.page + 1) % pages
        };
    }

    /// Turn a page where there is another. `true` where the page was turned.
    pub fn turn_if_any(&mut self, back: bool, pages: usize) -> (r: bool)
        requires
            old(self).page + pages <= usize::MAX,
        ensures
            r == (pages > 1),
            !r ==> *final(self) == *old(self),
            r ==> final(self).focus == old(self).focus && final(self).page == turned(
                old(self).page as int,
                pages as int,
                back,
            ),
    {
        if pages > 1 {
            self.turn(back, pages);
            true
        } else {
            false
        }
    }

    /// Where the keyboard lands the first time it is used on a panel: the nearest
    /// line of the page that shows, or of the whole list where the page has none.
    pub open spec fn landing(takes: Seq<bool>, start: int, end: int, down: bool) -> Option<int> {
        let to = if end < takes.len() {
            end
        } else {
            takes.len() as int
        };
        match if down {
            first_taking(takes, start, to)
        } else {
            last_taking(takes, start, to)
        } {
            Some(at) => Some(at),
            None => next_of(takes, None, down),
        }
    }

    pub fn first_focus(takes: &Vec<bool>, start: usize, end: usize, down: bool) -> (r: Option<usize>)
        requires
            2 * takes.len() <= usize::MAX,
        ensures
            match r {
                Some(at) => Paging::landing(takes@, start as int, end as int, down) == Some(
                    at as int,
                ) && at < takes.len(),
                None => Paging::landing(takes@, start as int, end as int, down) is None,
            },
    {
        let to: usize = if end < takes.len() {
            end
        } else {
            takes.len()
        };
        if down {
            let mut i: usize = start;
            while i < to
                invariant
                    start <= i,
                    to <= takes.len(),
                    down,
                    to == (if end < takes.len() {
                        end as int
                    } else {
                        takes.len() as int
                    }),
                    first_taking(takes@, start as int, to as int) == first_taking(
                        takes@,
                        i as int,
                        to as int,
                    ),
                decreases to - i,
            {
                if takes[i] {
                    return Some(i);
                }
                i = i + 1;
            }
        } else {
            let mut i: usize = to;
            while i > start
                invariant
                    i <= to <= takes.len(),
                    !down,
                    to == (if end < takes.len() {
                        end as int
                    } else {
                        takes.len() as int
                    }),
                    last_taking(takes@, start as int, to as int) == last_taking(
                        takes@,
                        start as int,
                        i as int,
                    ),
                decreases i,
            {
                if takes[i - 1] {
                    return Some(i - 1);
                }
                i = i - 1;
            }
        }
        next_focusable(takes.as_slice(), None, down)
    }

    /// Move the keyboard to the next line that takes it, onto the chip it arrives
    /// at. The page follows. Where no line takes it, the page is turned: on for a
    /// move down, and back for a move up.
    pub fn move_focus(
        &mut self,
        takes: &Vec<bool>,
        chips: &Vec<usize>,
        capacity: usize,
        down: bool,
    ) -> (r: Moved)
        requires
            takes.len() + capacity < usize::MAX,
            2 * takes.len() <= usize::MAX,
            chips.len() == takes.len(),
            old(self).focus is Some ==> old(self).focus->0.row + takes.len() <= usize::MAX,
            old(self).page + takes.len() + 1 <= usize::MAX,
        ensures
            ({
                let cap = if capacity < 1 {
                    1int
                } else {
                    capacity as int
                };
                let shown = old(self).shown(takes.len() as int, capacity as int);
                let next = match old(self).focus {
                    Some(focus) => next_of(takes@, Some(focus.row), down),
                    None => Paging::landing(takes@, shown * cap, shown * cap + cap, down),
                };
                match next {
                    Some(row) => {
                        &&& final(self).focus == Some(
                            PanelFocus { row: row as usize, chip: chips[row] },
                        )
                        &&& final(self).page == row / cap
                        &&& r == (if row / cap != (if old(self).focus is Some {
                            old(self).page as int
                        } else {
                            shown
                        }) {
                            Moved::Page
                        } else {
                            Moved::Lines(old(self).focus)
                        })
                    },
                    None => {
                        let pages = page_count(takes.len() as int, capacity as int);
                        let from = if old(self).focus is Some {
                            old(self).page as int
                        } else {
                            shown
                        };
                        &&& final(self).focus == old(self).focus
                        &&& r == (if pages > 1 {
                            Moved::Page
                        } else {
                            Moved::Nothing
                        })
                        &&& final(self).page == (if pages > 1 {
                            turned(from, pages, !down)
                        } else {
                            from
                        })
                    },
                }
            }),
    {
        let cap: usize = if capacity < 1 {
            1
        } else {
            capacity
        };
        let was = self.focus;
        let next: Option<usize> = match self.focus {
            Some(focus) => next_focusable(takes.as_slice(), Some(focus.row), down),
            None => {
                let (start, end) = self.window(takes.len(), capacity);
                Paging::first_focus(takes, start, end, down)
            },
        };
        match next {
            None => {
                let pages: usize = pages_of(takes.len(), capacity);
                proof {
                    lemma_pages_bounded(takes.len() as int, cap as int);
                }
                if self.turn_if_any(!down, pages) {
                    Moved::Page
                } else {
                    Moved::Nothing
                }
            },
            Some(row) => {
                self.focus = Some(PanelFocus { row, chip: chips[row] });
                let page: usize = row / cap;
                if page != self.page {
                    self.page = page;
                    Moved::Page
                } else {
                    Moved::Lines(was)
                }
            },
        }
    }

    /// Move along the chips of the line the keyboard is on, going round. A line
    /// with none, and no line at all, turn the page: back for a move to the left.
    pub fn move_chip(&mut self, takeable: &Vec<usize>, pages: usize, right: bool) -> (r: Moved)
        requires
            old(self).page + pages <= usize::MAX,
            pages >= 1,
        ensures
            match old(self).focus {
                Some(focus) => takeable.len() > 0 ==> ({
                    let n = takeable.len() as int;
                    let at = chip_place(takeable@, focus.chip);
                    let next = turned(at, n, !right);
                    &&& final(self).focus == Some(
                        PanelFocus { row: focus.row, chip: takeable[next] },
                    )
                    &&& final(self).page == old(self).page
                    &&& r == Moved::Lines(old(self).focus)
                }),
                None => true,
            },
            old(self).focus is None || takeable.len() == 0 ==> ({
                &&& final(self).focus == old(self).focus
                &&& r == (if pages > 1 {
                    Moved::Page
                } else {
                    Moved::Nothing
                })
                &&& final(self).page == (if pages > 1 {
                    if right {
                        (old(self).page + 1) % (pages as int)
                    } else {
                        (old(self).page + pages - 1) % (pages as int)
                    }
                } else {
                    old(self).page as int
                })
            }),
    {
        let was = self.focus;
        if let Some(focus) = self.focus {
            let n: usize = takeable.len();
            if n > 0 {
                let mut at: usize = 0;
                let mut i: usize = 0;
                let mut found = false;
                while i < n && !found
                    invariant
                        i <= n,
                        n == takeable.len(),
                        at < n,
                        !found ==> at == 0 && chip_from(takeable@, focus.chip, 0) == chip_from(
                            takeable@,
                            focus.chip,
                            i as int,
                        ),
                        found ==> chip_from(takeable@, focus.chip, 0) == Some(at as int),
                    decreases n - i, !found as int,
                {
                    if takeable[i] == focus.chip {
                        at = i;
                        found = true;
                    } else {
                        i = i + 1;
                    }
                }
                let next: usize = if right {
                    if at + 1 == n {
                        0
                    } else {
                        at + 1
                    }
                } else if at == 0 {
                    n - 1
                } else {
                    at - 1
                };
                proof {
                    lemma_round(at as int, n as int);
                }
                self.focus = Some(PanelFocus { row: focus.row, chip: takeable[next] });
                return Moved::Lines(was);
            }
        }
        if self.turn_if_any(!right, pages) {
            Moved::Page
        } else {
            Moved::Nothing
        }
    }

    /// Put the keyboard where a finger was, where the line takes it.
    pub fn focus_at(&mut self, takes: &Vec<bool>, row: usize, chip: usize)
        ensures
            *final(self) == (if row < takes.len() && takes[row as int] {
                Paging { focus: Some(PanelFocus { row, chip }), ..*old(self) }
            } else {
                *old(self)
            }),
    {
        if row < takes.len() && takes[row] {
            self.focus = Some(PanelFocus { row, chip });
        }
    }

    /// Where the keyboard is on the page that shows, by the line's place on it.
    pub fn visible_focus(&self, start: usize, end: usize) -> (r: Option<PanelFocus>)
        ensures
            r == (match self.focus {
                Some(focus) => if start <= focus.row < end {
                    Some(PanelFocus { row: (focus.row - start) as usize, chip: focus.chip })
                } else {
                    None
                },
                None => None,
            }),
    {
        match self.focus {
            Some(focus) => if start <= focus.row && focus.row < end {
                Some(PanelFocus { row: focus.row - start, chip: focus.chip })
            } else {
                None
            },
            None => None,
        }
    }

    /// Which lines of the page to draw again after the keyboard moved: the one it
    /// left, bare, unless it is the one it arrived at, and the one it arrived at
    /// with its chip.
    pub fn repaint(&self, was: Option<PanelFocus>, start: usize, end: usize) -> (r: Vec<
        (usize, Option<usize>),
    >)
        ensures
            r@ == left_line(was, self.focus, start, end) + arrived_line(self.focus, start, end),
    {
        let mut plan: Vec<(usize, Option<usize>)> = Vec::new();
        let now: Option<usize> = match self.focus {
            Some(focus) => if start <= focus.row && focus.row < end {
                Some(focus.row - start)
            } else {
                None
            },
            None => None,
        };
        if let Some(focus) = was {
            if start <= focus.row && focus.row < end {
                let row: usize = focus.row - start;
                let same = match now {
                    Some(at) => at == row,
                    None => false,
                };
                if !same {
                    plan.push((row, None));
                }
            }
        }
        assert(plan@ =~= left_line(was, self.focus, start, end));
        if let Some(row) = now {
            if let Some(focus) = self.focus {
                plan.push((row, Some(focus.chip)));
            }
        }
        assert(plan@ =~= left_line(was, self.focus, start, end) + arrived_line(
            self.focus,
            start,
            end,
        ));
        plan
    }
}

/// Whether a focus is on a page.
pub open spec fn on_page(focus: Option<PanelFocus>, start: usize, end: usize) -> bool {
    focus is Some && start <= focus->0.row < end
}

pub open spec fn left_line(
    was: Option<PanelFocus>,
    now: Option<PanelFocus>,
    start: usize,
    end: usize,
) -> Seq<(usize, Option<usize>)> {
    if on_page(was, start, end) && !(on_page(now, start, end) && now->0.row == was->0.row) {
        seq![((was->0.row - start) as usize, None::<usize>)]
    } else {
        seq![]
    }
}

pub open spec fn arrived_line(now: Option<PanelFocus>, start: usize, end: usize) -> Seq<
    (usize, Option<usize>),
> {
    if on_page(now, start, end) {
        seq![((now->0.row - start) as usize, Some(now->0.chip))]
    } else {
        seq![]
    }
}

/// The first line of a stretch that takes the keyboard.
pub open spec fn first_taking(takes: Seq<bool>, start: int, end: int) -> Option<int>
    decreases end - start,
{
    if start >= end {
        None
    } else if takes[start] {
        Some(start)
    } else {
        first_taking(takes, start + 1, end)
    }
}

/// The last line of a stretch that takes the keyboard.
pub open spec fn last_taking(takes: Seq<bool>, start: int, end: int) -> Option<int>
    decreases end - start,
{
    if start >= end {
        None
    } else if takes[end - 1] {
        Some(end - 1)
    } else {
        last_taking(takes, start, end - 1)
    }
}

/// The place of a chip among those that can be taken, from `from` on.
pub open spec fn chip_from(takeable: Seq<usize>, chip: usize, from: int) -> Option<int>
    decreases takeable.len() - from,
{
    if from < 0 || from >= takeable.len() {
        None
    } else if takeable[from] == chip {
        Some(from)
    } else {
        chip_from(takeable, chip, from + 1)
    }
}

/// The place of a chip among those that can be taken, the first where it is not
/// one of them.
pub open spec fn chip_place(takeable: Seq<usize>, chip: usize) -> int {
    match chip_from(takeable, chip, 0) {
        Some(at) => at,
        None => 0,
    }
}

proof fn lemma_round(at: int, n: int)
    requires
        0 <= at < n,
    ensures
        (at + 1) % n == (if at + 1 == n {
            0
        } else {
            at + 1
        }),
        (at + n - 1) % n == (if at == 0 {
            n - 1
        } else {
            at - 1
        }),
{
    if at + 1 == n {
        assert((at + 1) % n == 0) by (nonlinear_arith)
            requires
                at + 1 == n,
                n > 0,
        ;
    } else {
        assert((at + 1) % n == at + 1) by (nonlinear_arith)
            requires
                0 <= at + 1 < n,
        ;
    }
    if at == 0 {
        assert((at + n - 1) % n == n - 1) by (nonlinear_arith)
            requires
                at == 0,
                n > 0,
        ;
    } else {
        assert((at + n - 1) % n == at - 1) by (nonlinear_arith)
            requires
                1 <= at < n,
        ;
    }
}

proof fn lemma_page_fits(len: int, cap: int, page: int, pages: int)
    requires
        cap > 0,
        0 <= len,
        0 <= page < pages,
        pages == page_count(len, cap),
    ensures
        0 <= page * cap <= len,
{
    if len == 0 {
        assert(page * cap == 0) by (nonlinear_arith)
            requires
                page == 0,
        ;
    } else {
        lemma_ceiling(len, cap);
        let q = len / cap;
        assert(len == cap * q + len % cap && 0 <= len % cap) by (nonlinear_arith)
            requires
                cap > 0,
                q == len / cap,
        ;
        assert(page <= q);
        assert(0 <= page * cap <= cap * q) by (nonlinear_arith)
            requires
                0 <= page <= q,
                cap > 0,
        ;
    }
}

proof fn lemma_pages_bounded(len: int, cap: int)
    requires
        0 <= len,
        cap > 0,
    ensures
        page_count(len, cap) <= len + 1,
{
    if len > 0 {
        lemma_ceiling(len, cap);
    }
}

/// Turning on and back again, or back and on, is the page it was.
pub proof fn a_page_turned_back_is_the_page_it_was(page: int, pages: int)
    requires
        0 <= page < pages,
    ensures
        ((page + 1) % pages + pages - 1) % pages == page,
        ((page + pages - 1) % pages + 1) % pages == page,
{
    lemma_round(page, pages);
    let on = (page + 1) % pages;
    let back = (page + pages - 1) % pages;
    lemma_round(on, pages);
    lemma_round(back, pages);
}

/// Every line of a list is on one page, and the pages are no more than it takes.
pub proof fn every_line_is_on_a_page(row: int, len: int, capacity: int)
    requires
        0 <= row < len,
        capacity >= 1,
    ensures
        0 <= row / capacity < page_count(len, capacity),
        (row / capacity) * capacity <= row < (row / capacity) * capacity + capacity,
{
    lemma_ceiling(len, capacity);
    let p = row / capacity;
    assert(row == capacity * p + row % capacity && 0 <= row % capacity < capacity) by (nonlinear_arith)
        requires
            capacity >= 1,
            p == row / capacity,
    ;
    assert(p * capacity == capacity * p) by (nonlinear_arith);
    assert(p >= 0) by (nonlinear_arith)
        requires
            row >= 0,
            capacity >= 1,
            p == row / capacity,
    ;
    let q = len / capacity;
    assert(len == capacity * q + len % capacity && 0 <= len % capacity < capacity) by (nonlinear_arith)
        requires
            capacity >= 1,
            q == len / capacity,
    ;
    assert(p <= q) by (nonlinear_arith)
        requires
            capacity >= 1,
            capacity * p <= row,
            row < len,
            len < capacity * q + capacity,
    ;
    if len % capacity == 0 {
        assert(p < q) by (nonlinear_arith)
            requires
                capacity >= 1,
                capacity * p <= row,
                row < len,
                len == capacity * q,
        ;
    }
}

/// How far a walk goes: the lines after the first, going round.
proof fn lemma_line_at(n: int, start: int, step: int, down: bool)
    requires
        0 <= start < n,
        1 <= step <= n,
    ensures
        down ==> line_at(n, start, step, down) == (if start + step < n {
            start + step
        } else {
            start + step - n
        }),
        !down ==> line_at(n, start, step, down) == (if start - step >= 0 {
            start - step
        } else {
            start - step + n
        }),
{
    if down {
        if start + step < n {
            lemma_rounds(start + step, n, 0, start + step);
        } else {
            lemma_rounds(start + step, n, 1, start + step - n);
        }
    } else {
        if step == n {
            lemma_rounds(step, n, 1, 0);
            lemma_rounds(start + n, n, 1, start);
        } else {
            lemma_rounds(step, n, 0, step);
            if start - step >= 0 {
                lemma_rounds(start + n - step, n, 1, start - step);
            } else {
                lemma_rounds(start + n - step, n, 0, start + n - step);
            }
        }
    }
}

/// The step at which a walk ends, before which it passed no line that takes the keyboard.
proof fn lemma_walk(takes: Seq<bool>, start: int, step: int, down: bool) -> (end: int)
    requires
        0 <= start < takes.len(),
        1 <= step,
        focusable_from(takes, start, step, down) is Some,
    ensures
        step <= end <= takes.len(),
        focusable_from(takes, start, step, down) == Some(
            line_at(takes.len() as int, start, end, down),
        ),
        forall|k: int|
            step <= k < end ==> !takes[#[trigger] line_at(takes.len() as int, start, k, down)],
    decreases takes.len() - step + 1,
{
    if takes[line_at(takes.len() as int, start, step, down)] {
        step
    } else {
        lemma_walk(takes, start, step + 1, down)
    }
}

/// A walk down ends on the nearest line below that takes the keyboard, going round at the
/// bottom; a walk up on the nearest above, going round at the top.
pub proof fn a_walk_ends_on_the_nearest_line(takes: Seq<bool>, at: usize, down: bool, line: int)
    requires
        at < takes.len(),
        0 <= line < takes.len(),
        takes[line],
    ensures
        next_of(takes, Some(at), down) is Some,
        ({
            let to = next_of(takes, Some(at), down)->0;
            &&& down && line > at ==> at < to <= line
            &&& down && line <= at ==> at < to || to <= line
            &&& !down && line < at ==> line <= to < at
            &&& !down && line >= at ==> to < at || line <= to
        }),
{
    let n = takes.len() as int;
    let start = at as int;
    a_walk_finds_a_line_where_there_is_one(takes, Some(at), down);
    let end = lemma_walk(takes, start, 1, down);
    lemma_line_at(n, start, end, down);
    let step = if down {
        if line > at {
            line - start
        } else {
            line - start + n
        }
    } else {
        if line < at {
            start - line
        } else {
            start - line + n
        }
    };
    lemma_line_at(n, start, step, down);
    if step < end {
        assert(!takes[line_at(n, start, step, down)]);
    }
}

/// With the keyboard on no line, a walk down ends on the first line that takes it, and a
/// walk up on the last.
pub proof fn a_walk_begins_at_an_end(takes: Seq<bool>, down: bool, line: int)
    requires
        0 <= line < takes.len(),
        takes[line],
    ensures
        next_of(takes, None, down) is Some,
        down ==> next_of(takes, None, down)->0 <= line,
        !down ==> next_of(takes, None, down)->0 >= line,
{
    let n = takes.len() as int;
    let start = walk_start(n, None, down);
    a_walk_finds_a_line_where_there_is_one(takes, None, down);
    let end = lemma_walk(takes, start, 1, down);
    lemma_line_at(n, start, end, down);
    let step = if down {
        line + 1
    } else {
        n - line
    };
    lemma_line_at(n, start, step, down);
    if step < end {
        assert(!takes[line_at(n, start, step, down)]);
    }
}

/// The way down and the way up are inverse: between two lines that both take the keyboard,
/// with none between them that does, one step leads there and the other back.
pub proof fn a_walk_down_and_up_is_where_it_was(takes: Seq<bool>, at: usize)
    requires
        at < takes.len(),
        takes[at as int],
        takes.len() <= usize::MAX,
    ensures
        next_of(takes, Some(at), true) matches Some(to) && next_of(takes, Some(to as usize), false)
            == Some(at as int),
        next_of(takes, Some(at), false) matches Some(to) && next_of(takes, Some(to as usize), true)
            == Some(at as int),
{
    a_walk_ends_on_the_nearest_line(takes, at, true, at as int);
    a_walk_ends_on_the_nearest_line(takes, at, false, at as int);
    a_walk_finds_a_line_where_there_is_one(takes, Some(at), true);
    a_walk_finds_a_line_where_there_is_one(takes, Some(at), false);
    let below = next_of(takes, Some(at), true)->0;
    let above = next_of(takes, Some(at), false)->0;
    a_walk_ends_on_the_nearest_line(takes, below as usize, false, at as int);
    a_walk_ends_on_the_nearest_line(takes, above as usize, true, at as int);
    a_walk_finds_a_line_where_there_is_one(takes, Some(below as usize), false);
    a_walk_finds_a_line_where_there_is_one(takes, Some(above as usize), true);
    let back = next_of(takes, Some(below as usize), false)->0;
    let on = next_of(takes, Some(above as usize), true)->0;
    a_walk_ends_on_the_nearest_line(takes, at, true, back);
    a_walk_ends_on_the_nearest_line(takes, at, false, on);
}

/// The chips that can be taken are those of the line that are not inert, from left to
/// right, each once.
pub proof fn every_chip_that_is_not_inert_can_be_taken(item: ItemText, n: int)
    requires
        0 <= n <= chip_count(item),
        chip_count(item) <= usize::MAX,
    ensures
        forall|i: int, j: int|
            0 <= i < j < chips_of(item, n).len() ==> chips_of(item, n)[i] < chips_of(item, n)[j],
        forall|i: int| 0 <= i < chips_of(item, n).len() ==> chips_of(item, n)[i] < n,
        item matches ItemText::Choice { inert, .. } ==> forall|chip: usize|
            chip < n ==> (#[trigger] chips_of(item, n).contains(chip) <==> !(chip < inert.len()
                && inert[chip as int])),
        item is Swatches ==> forall|chip: usize|
            chip < n ==> #[trigger] chips_of(item, n).contains(chip),
        item is Heading || item is Row ==> chips_of(item, n).len() == 0,
    decreases n,
{
    if n > 0 && (item is Choice || item is Swatches) {
        every_chip_that_is_not_inert_can_be_taken(item, n - 1);
        let before = chips_of(item, n - 1);
        let now = chips_of(item, n);
        let last = (n - 1) as usize;
        assert forall|chip: usize| chip < n - 1 implies (now.contains(chip) <==> before.contains(chip)) by {
            if before.contains(chip) {
                let k = choose|k: int| 0 <= k < before.len() && before[k] == chip;
                assert(now[k] == chip);
            }
            if now.contains(chip) {
                let k = choose|k: int| 0 <= k < now.len() && now[k] == chip;
                if k < before.len() {
                    assert(before[k] == chip);
                }
            }
        }
        if now.len() > before.len() {
            assert(now[before.len() as int] == last);
        } else {
            assert(now =~= before);
            assert(forall|k: int| 0 <= k < before.len() ==> before[k] < last);
            assert(!now.contains(last));
        }
    }
}

/// The keyboard arrives on the value that stands, where that can be taken, and otherwise on
/// the first that can.
pub proof fn the_keyboard_arrives_on_what_stands(on: Seq<bool>, takeable: Seq<usize>, chip: usize)
    requires
        chip < on.len(),
        on[chip as int],
        on.len() <= usize::MAX,
    ensures
        first_on(on, 0) is Some,
        first_on(on, 0)->0 <= chip,
        on[first_on(on, 0)->0 as int],
        takeable.contains(first_on(on, 0)->0) ==> arrival_chip(takeable, first_on(on, 0))
            == first_on(on, 0)->0,
        takeable.len() > 0 ==> takeable.contains(arrival_chip(takeable, first_on(on, 0))),
        takeable.len() > 0 ==> arrival_chip(takeable, None) == takeable[0],
{
    lemma_first_on(on, 0, chip as int);
}

proof fn lemma_first_on(on: Seq<bool>, from: int, at: int)
    requires
        0 <= from <= at < on.len(),
        on[at],
        on.len() <= usize::MAX,
    ensures
        first_on(on, from) matches Some(first) && from <= first <= at && on[first as int],
    decreases on.len() - from,
{
    if !on[from] {
        lemma_first_on(on, from + 1, at);
    }
}

/// A list has as many pages as hold it all, and the last is not empty.
pub proof fn there_are_no_more_pages_than_it_takes(len: int, capacity: int)
    requires
        0 < len,
        0 < capacity,
    ensures
        len <= page_count(len, capacity) * capacity,
        (page_count(len, capacity) - 1) * capacity < len,
        page_count(0, capacity) == 1,
        page_count(len, 0) == len,
{
    lemma_ceiling(len, capacity);
    lemma_ceiling(len, 1);
    let q = len / capacity;
    let d = len % capacity;
    assert(len == capacity * q + d && 0 <= d < capacity) by (nonlinear_arith)
        requires
            capacity > 0,
            q == len / capacity,
            d == len % capacity,
    ;
    assert(q * capacity == capacity * q) by (nonlinear_arith);
    assert((q - 1) * capacity == capacity * q - capacity) by (nonlinear_arith);
    assert((q + 1) * capacity == capacity * q + capacity) by (nonlinear_arith);
    assert(len / 1 == len);
}

proof fn lemma_first_taking(takes: Seq<bool>, start: int, end: int, line: int)
    requires
        0 <= start <= line < end <= takes.len(),
        takes[line],
    ensures
        first_taking(takes, start, end) matches Some(at) && start <= at <= line && takes[at],
        last_taking(takes, start, end) matches Some(at) && line <= at < end && takes[at],
    decreases end - start,
{
    if !takes[start] {
        lemma_first_taking(takes, start + 1, end, line);
    }
    if !takes[end - 1] {
        lemma_first_taking(takes, start, end - 1, line);
    }
    lemma_taking_within(takes, start, end);
}

proof fn lemma_taking_within(takes: Seq<bool>, start: int, end: int)
    requires
        0 <= start,
        end <= takes.len(),
    ensures
        first_taking(takes, start, end) matches Some(at) ==> start <= at < end && takes[at],
        last_taking(takes, start, end) matches Some(at) ==> start <= at < end && takes[at],
    decreases end - start,
{
    if start < end {
        lemma_taking_within(takes, start + 1, end);
        lemma_taking_within(takes, start, end - 1);
    }
}

/// The keyboard lands on the page that shows, where any line of it takes the keyboard: on
/// the first such line for a move down, and on the last for a move up.
pub proof fn the_keyboard_lands_on_the_page_that_shows(
    takes: Seq<bool>,
    start: int,
    end: int,
    down: bool,
    line: int,
)
    requires
        0 <= start <= line < end,
        line < takes.len(),
        takes[line],
    ensures
        Paging::landing(takes, start, end, down) matches Some(at) && start <= at < end && takes[at] && (
        down ==> at <= line) && (!down ==> line <= at),
{
    let to = if end < takes.len() {
        end
    } else {
        takes.len() as int
    };
    lemma_first_taking(takes, start, to, line);
}

/// The page that shows is the one that was turned to, as long as there is one such.
pub proof fn the_page_that_shows_is_there(paging: Paging, len: int, capacity: int)
    requires
        0 <= len,
    ensures
        0 <= paging.shown(len, capacity) < page_count(len, capacity),
        paging.page < page_count(len, capacity) ==> paging.shown(len, capacity) == paging.page,
        page_count(len, capacity) <= paging.page ==> paging.shown(len, capacity) + 1 == page_count(
            len,
            capacity,
        ),
{
    if len > 0 {
        lemma_ceiling(
            len,
            if capacity < 1 {
                1
            } else {
                capacity
            },
        );
        assert(len / 1 == len);
        if capacity >= 1 {
            assert(len / capacity >= 0) by (nonlinear_arith)
                requires
                    len > 0,
                    capacity >= 1,
            ;
        }
    }
}

/// What is drawn again is the line that the keyboard left and the line that it is on, each
/// counted from the top of the page, and no line that is not on it.
pub proof fn what_moved_is_drawn_again(was: PanelFocus, now: PanelFocus, start: usize, end: usize)
    requires
        start <= was.row < end,
        start <= now.row < end,
    ensures
        arrived_line(Some(now), start, end).len() == 1,
        arrived_line(Some(now), start, end)[0].0 + start == now.row,
        arrived_line(Some(now), start, end)[0].1 == Some(now.chip),
        left_line(Some(was), Some(now), start, end).len() == (if was.row == now.row {
            0nat
        } else {
            1nat
        }),
        was.row != now.row ==> left_line(Some(was), Some(now), start, end)[0].0 + start == was.row,
        was.row != now.row ==> left_line(Some(was), Some(now), start, end)[0].1 is None,
        arrived_line(None, start, end).len() == 0,
        left_line(None, Some(now), start, end).len() == 0,
{
}

/// The chip that the keyboard is on is found at its place, and one that cannot be taken
/// counts as the first.
pub proof fn a_chip_is_found_at_its_place(takeable: Seq<usize>, place: int)
    requires
        0 <= place < takeable.len(),
        forall|i: int, j: int| 0 <= i < j < takeable.len() ==> takeable[i] < takeable[j],
    ensures
        chip_place(takeable, takeable[place]) == place,
        forall|chip: usize| !takeable.contains(chip) ==> chip_place(takeable, chip) == 0,
{
    lemma_chip_from(takeable, takeable[place], 0);
    assert forall|chip: usize| !takeable.contains(chip) implies chip_place(takeable, chip) == 0 by {
        lemma_chip_from(takeable, chip, 0);
    }
}

proof fn lemma_chip_from(takeable: Seq<usize>, chip: usize, from: int)
    requires
        0 <= from,
    ensures
        match chip_from(takeable, chip, from) {
            Some(at) => from <= at < takeable.len() && takeable[at] == chip,
            None => forall|i: int| from <= i < takeable.len() ==> takeable[i] != chip,
        },
    decreases takeable.len() - from,
{
    if from < takeable.len() && takeable[from] != chip {
        lemma_chip_from(takeable, chip, from + 1);
    }
}

/// A turn on leads to the page after, and from the last to the first; a turn back leads to
/// the page before, and from the first to the last.
pub proof fn a_turn_leads_to_the_page_beside(page: int, pages: int)
    requires
        0 <= page < pages,
    ensures
        page + 1 < pages ==> turned(page, pages, false) == page + 1,
        turned(pages - 1, pages, false) == 0,
        page > 0 ==> turned(page, pages, true) == page - 1,
        turned(0, pages, true) == pages - 1,
        turned(turned(page, pages, false), pages, true) == page,
        turned(turned(page, pages, true), pages, false) == page,
{
    lemma_round(page, pages);
    lemma_round(pages - 1, pages);
    lemma_round(0, pages);
    a_page_turned_back_is_the_page_it_was(page, pages);
}

} // verus!
