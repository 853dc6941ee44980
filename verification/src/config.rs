//! The Config panel: its lines, and what a chip on one of them does.

use vstd::prelude::*;

use crate::font::{
    families,
    family_count,
    family_name,
    Choices,
    Group,
};
use crate::hid::{any_at, copy_of, has_address, device_texts, same_address, same_device, Device, DeviceText, Ready};
use crate::keymap::Convention;
use crate::language::{font_groups, groups_of, lists, every_language, Language, LANGUAGES};
use crate::orientation::Orientation;
use crate::panel::{heading, Item, ItemText};
use crate::text::{decimal, decimal_of, number, number_reads_what_decimal_writes, texts};

verus! {

// ---------------------------------------------------------------------------
// Rows of chips
// ---------------------------------------------------------------------------

/// The most chips one line carries.
pub const CHIPS_PER_ROW: usize = 3;

/// How many lines hold so many chips: as few as do.
pub open spec fn rows_for(n: int) -> int {
    (n + 2) / 3
}

/// How many chips a line carries, of so many in all: even shares, with one more on
/// each of the first lines for what is over.
pub open spec fn share(n: int, row: int) -> int {
    n / rows_for(n) + (if row < n % rows_for(n) {
        1int
    } else {
        0int
    })
}

/// How many chips stand on the lines before one.
pub open spec fn before_row(n: int, row: int) -> int
    decreases row,
{
    if row <= 0 {
        0
    } else {
        before_row(n, row - 1) + share(n, row - 1)
    }
}

/// The lines that some chips take.
pub open spec fn chip_lines(options: Seq<usize>) -> Seq<Seq<usize>> {
    let n = options.len() as int;
    Seq::new(
        rows_for(n) as nat,
        |row: int| options.subrange(before_row(n, row), before_row(n, row + 1)),
    )
}

/// What a list of lists holds.
pub open spec fn lists_of(rows: Seq<Vec<usize>>) -> Seq<Seq<usize>> {
    rows.map_values(|r: Vec<usize>| r@)
}

proof fn lemma_share(n: int, row: int)
    requires
        n > 0,
        row >= 0,
    ensures
        1 <= rows_for(n) <= n,
        0 <= n % rows_for(n) < rows_for(n),
        1 <= n / rows_for(n) <= 3,
        1 <= share(n, row) <= 3,
{
    let rows = rows_for(n);
    let whole = n / rows;
    let over = n % rows;
    vstd::arithmetic::div_mod::lemma_fundamental_div_mod(n, rows);
    assert(rows >= 1 && rows <= n && n <= 3 * rows);
    assert(0 <= over < rows) by (nonlinear_arith)
        requires
            rows >= 1,
            over == n % rows,
    ;
    assert(whole >= 1) by (nonlinear_arith)
        requires
            rows >= 1,
            rows <= n,
            whole == n / rows,
    ;
    assert(whole < 3 || (whole == 3 && over == 0)) by (nonlinear_arith)
        requires
            n == rows * whole + over,
            rows >= 1,
            over >= 0,
            n <= 3 * rows,
    ;
}

/// The chips before a line: a whole share for each, and what is over for the first.
proof fn lemma_before_row(n: int, row: int)
    requires
        n > 0,
        0 <= row <= rows_for(n),
    ensures
        before_row(n, row) == row * (n / rows_for(n)) + (if row < n % rows_for(n) {
            row
        } else {
            n % rows_for(n)
        }),
    decreases row,
{
    lemma_share(n, row);
    if row > 0 {
        lemma_before_row(n, row - 1);
        let whole = n / rows_for(n);
        assert((row - 1) * whole + whole == row * whole) by (nonlinear_arith);
    } else {
        assert(0 * (n / rows_for(n)) == 0);
    }
}

/// The last line ends with the last chip.
proof fn lemma_rows_end(n: int)
    requires
        n > 0,
    ensures
        before_row(n, rows_for(n)) == n,
{
    lemma_share(n, 0);
    lemma_before_row(n, rows_for(n));
    vstd::arithmetic::div_mod::lemma_fundamental_div_mod(n, rows_for(n));
}

/// A line begins no later than any after it.
proof fn lemma_rows_follow(n: int, a: int, b: int)
    requires
        n > 0,
        0 <= a <= b,
    ensures
        0 <= before_row(n, a) <= before_row(n, b),
    decreases b,
{
    if a < b {
        lemma_share(n, b - 1);
        lemma_rows_follow(n, a, b - 1);
    } else if a > 0 {
        lemma_share(n, a - 1);
        lemma_rows_follow(n, a - 1, a - 1);
    }
}

/// Where a line begins and ends among the chips.
proof fn lemma_row_bounds(n: int, row: int)
    requires
        n > 0,
        0 <= row < rows_for(n),
    ensures
        0 <= before_row(n, row) < before_row(n, row + 1) <= n,
        before_row(n, row + 1) - before_row(n, row) == share(n, row),
{
    lemma_share(n, row);
    lemma_rows_end(n);
    lemma_rows_follow(n, 0, row);
    lemma_rows_follow(n, row + 1, rows_for(n));
}

/// Split a row's chips over as many lines as they need, in even shares.
pub fn chip_rows(options: &Vec<usize>) -> (r: Vec<Vec<usize>>)
    ensures
        lists_of(r@) == chip_lines(options@),
{
    let mut out: Vec<Vec<usize>> = Vec::new();
    let n: usize = options.len();
    if n == 0 {
        assert(lists_of(out@) =~= chip_lines(options@));
        return out;
    }
    proof {
        lemma_share(n as int, 0);
    }
    let rows: usize = n / 3 + (if n % 3 == 0 {
        0
    } else {
        1
    });
    assert(rows == rows_for(n as int));
    let whole: usize = n / rows;
    let over: usize = n % rows;
    let mut at: usize = 0;
    let mut k: usize = 0;
    while k < rows
        invariant
            0 < n == options.len(),
            k <= rows == rows_for(n as int),
            whole == n as int / rows_for(n as int),
            whole <= 3,
            over == n as int % rows_for(n as int),
            at == before_row(n as int, k as int),
            at <= n,
            out.len() == k,
            forall|j: int| 0 <= j < k ==> (#[trigger] out@[j])@ == chip_lines(options@)[j],
        decreases rows - k,
    {
        proof {
            lemma_row_bounds(n as int, k as int);
        }
        let end: usize = at + whole + (if k < over {
            1
        } else {
            0
        });
        let mut row: Vec<usize> = Vec::new();
        let mut i: usize = at;
        while i < end
            invariant
                at <= i <= end <= options.len(),
                row@ == options@.subrange(at as int, i as int),
            decreases end - i,
        {
            row.push(options[i]);
            i = i + 1;
        }
        assert(row@ =~= chip_lines(options@)[k as int]);
        out.push(row);
        at = end;
        k = k + 1;
    }
    assert(lists_of(out@) =~= chip_lines(options@));
    out
}

/// The lines put end to end.
pub open spec fn end_to_end(rows: Seq<Seq<usize>>) -> Seq<usize>
    decreases rows.len(),
{
    if rows.len() == 0 {
        seq![]
    } else {
        rows[0] + end_to_end(rows.drop_first())
    }
}

/// Lists put end to end are what the first ones are, and then the last.
proof fn lemma_end_to_end(rows: Seq<Seq<usize>>)
    requires
        rows.len() > 0,
    ensures
        end_to_end(rows) == end_to_end(rows.drop_last()) + rows.last(),
    decreases rows.len(),
{
    if rows.len() > 1 {
        lemma_end_to_end(rows.drop_first());
        assert(rows.drop_first().drop_last() =~= rows.drop_last().drop_first());
        assert(end_to_end(rows) =~= end_to_end(rows.drop_last()) + rows.last());
    } else {
        assert(rows.drop_first() =~= seq![]);
        assert(rows.drop_last() =~= seq![]);
        assert(end_to_end(rows) =~= end_to_end(rows.drop_last()) + rows.last());
    }
}

proof fn lemma_lines_so_far(options: Seq<usize>, row: int)
    requires
        options.len() > 0,
        0 <= row <= rows_for(options.len() as int),
    ensures
        0 <= before_row(options.len() as int, row) <= options.len(),
        end_to_end(chip_lines(options).take(row)) == options.take(
            before_row(options.len() as int, row),
        ),
    decreases row,
{
    let n = options.len() as int;
    let lines = chip_lines(options);
    lemma_share(n, 0);
    lemma_rows_end(n);
    lemma_rows_follow(n, row, rows_for(n));
    if row > 0 {
        lemma_lines_so_far(options, row - 1);
        lemma_row_bounds(n, row - 1);
        lemma_end_to_end(lines.take(row));
        assert(lines.take(row).drop_last() =~= lines.take(row - 1));
        assert(lines.take(row).last() == lines[row - 1]);
        assert(end_to_end(lines.take(row)) =~= options.take(before_row(n, row)));
    } else {
        assert(lines.take(0) =~= seq![]);
        assert(options.take(0) =~= seq![]);
    }
}

/// Splitting a row keeps every chip in order, puts no more on a line than it
/// carries, takes as few lines as do, and shares evenly: no line carries two chips
/// more than another.
pub proof fn a_split_row_keeps_every_chip(options: Seq<usize>)
    ensures
        end_to_end(chip_lines(options)) == options,
        chip_lines(options).len() == rows_for(options.len() as int),
        forall|i: int|
            0 <= i < chip_lines(options).len() ==> 0 < (#[trigger] chip_lines(options)[i]).len()
                <= CHIPS_PER_ROW,
        forall|i: int, j: int|
            0 <= i < chip_lines(options).len() && 0 <= j < chip_lines(options).len() ==> (
            #[trigger] chip_lines(options)[i]).len() <= (#[trigger] chip_lines(options)[j]).len() + 1,
{
    let n = options.len() as int;
    let lines = chip_lines(options);
    if n > 0 {
        lemma_share(n, 0);
        lemma_rows_end(n);
        lemma_lines_so_far(options, rows_for(n));
        assert(lines.take(rows_for(n)) =~= lines);
        assert(options.take(n) =~= options);
        assert forall|i: int| 0 <= i < lines.len() implies (#[trigger] lines[i]).len() == share(
            n,
            i,
        ) && 0 < lines[i].len() <= CHIPS_PER_ROW by {
            lemma_row_bounds(n, i);
            lemma_share(n, i);
        }
    } else {
        assert(lines =~= seq![]);
        assert(end_to_end(lines) =~= options);
    }
}

// ---------------------------------------------------------------------------
// What a line does
// ---------------------------------------------------------------------------

/// What a chip of the Keyboard section does.
#[derive(Debug)]
pub enum KeyAction {
    /// Drop the link, keeping the pairing.
    Disconnect(Device),
    /// Remove it and its link key.
    Forget(Device),
    Pair(Device),
    Scan,
}

pub enum KeyText {
    Disconnect(DeviceText),
    Forget(DeviceText),
    Pair(DeviceText),
    Scan,
}

impl View for KeyAction {
    type V = KeyText;

    open spec fn view(&self) -> KeyText {
        match *self {
            KeyAction::Disconnect(d) => KeyText::Disconnect(d@),
            KeyAction::Forget(d) => KeyText::Forget(d@),
            KeyAction::Pair(d) => KeyText::Pair(d@),
            KeyAction::Scan => KeyText::Scan,
        }
    }
}

/// What a line of the panel does. Those with a list carry the list the chips were
/// drawn from.
#[derive(Debug)]
pub enum ConfigRow {
    /// A heading: it does nothing.
    Bare,
    Languages(Vec<Language>),
    /// A writing system, and which of its families each chip is.
    Font(Group, Vec<usize>),
    Size,
    Margins,
    Hanging,
    Hyphenation,
    Keyboard(Vec<KeyAction>),
    Modifiers,
    KeepBluetooth,
    Screen,
    Colour,
    CaretColour,
    HighlightColour,
}

pub enum RowText {
    Bare,
    Languages(Seq<Language>),
    Font(Group, Seq<usize>),
    Size,
    Margins,
    Hanging,
    Hyphenation,
    Keyboard(Seq<KeyText>),
    Modifiers,
    KeepBluetooth,
    Screen,
    Colour,
    CaretColour,
    HighlightColour,
}

impl View for ConfigRow {
    type V = RowText;

    open spec fn view(&self) -> RowText {
        match *self {
            ConfigRow::Bare => RowText::Bare,
            ConfigRow::Languages(list) => RowText::Languages(list@),
            ConfigRow::Font(group, list) => RowText::Font(group, list@),
            ConfigRow::Size => RowText::Size,
            ConfigRow::Margins => RowText::Margins,
            ConfigRow::Hanging => RowText::Hanging,
            ConfigRow::Hyphenation => RowText::Hyphenation,
            ConfigRow::Keyboard(list) => RowText::Keyboard(
                list@.map_values(|a: KeyAction| a@),
            ),
            ConfigRow::Modifiers => RowText::Modifiers,
            ConfigRow::KeepBluetooth => RowText::KeepBluetooth,
            ConfigRow::Screen => RowText::Screen,
            ConfigRow::Colour => RowText::Colour,
            ConfigRow::CaretColour => RowText::CaretColour,
            ConfigRow::HighlightColour => RowText::HighlightColour,
        }
    }
}

/// A line of the panel: what it says, and what it does.
pub type Line = (ItemText, RowText);

pub open spec fn lines_of(list: Seq<(Item, ConfigRow)>) -> Seq<Line> {
    list.map_values(|p: (Item, ConfigRow)| (p.0@, p.1@))
}

proof fn lemma_line_push(list: Seq<(Item, ConfigRow)>, item: Item, row: ConfigRow)
    ensures
        lines_of(list.push((item, row))) == lines_of(list).push((item@, row@)),
{
    assert(lines_of(list.push((item, row))) =~= lines_of(list).push((item@, row@)));
}

/// How a colour panel is set: whether it is used as one, and the colours of the
/// caret and the highlighter among so many.
#[derive(Debug, Clone, Copy, PartialEq, Eq, Structural)]
pub struct Colours {
    pub on: bool,
    pub caret: usize,
    pub highlight: usize,
    pub count: usize,
}

/// Everything the panel is drawn from.
pub struct Config {
    pub paired: Vec<Device>,
    pub found: Vec<Device>,
    pub connected: Option<String>,
    pub keyboard_present: bool,
    pub convention: Convention,
    pub ready: Ready,
    /// How many seconds a scan has been running.
    pub scanning: Option<u64>,
    pub keep_alive: bool,
    pub enabled: Vec<Language>,
    pub choices: Choices,
    /// For each writing system, which of its families are installed.
    pub installed: Vec<Vec<usize>>,
    pub sizes: Vec<String>,
    pub size: Option<usize>,
    pub margins: Vec<String>,
    pub margin: Option<usize>,
    pub hang: bool,
    /// Whether words are divided, where there is a dictionary to divide them by.
    pub hyphenate: Option<bool>,
    /// Nothing on a panel with no colour.
    pub colour: Option<Colours>,
    /// Nothing on a device that turns its own page.
    pub way: Option<Orientation>,
}

/// A setting with nothing inert among its values.
pub open spec fn choice(label: Seq<char>, options: Seq<Seq<char>>, on: Seq<bool>) -> ItemText {
    ItemText::Choice { label, options, on, inert: seq![] }
}

/// A setting that is off or on, by two words.
pub open spec fn switch(label: Seq<char>, off: Seq<char>, on_text: Seq<char>, on: bool) -> ItemText {
    choice(label, seq![off, on_text], seq![!on, on])
}

/// The places of so many colours.
pub open spec fn ink_places(count: usize) -> Seq<usize> {
    Seq::new(count as nat, |i: int| i as usize)
}

/// Which of `n` values stands.
pub open spec fn standing_at(n: nat, at: Option<usize>) -> Seq<bool> {
    Seq::new(n, |i: int| at is Some && at->0 == i)
}

impl Config {
    /// Every writing system has its list, and no list names a family that is not
    /// there.
    pub open spec fn wf(&self) -> bool {
        &&& self.installed.len() == 5
        &&& forall|g: Group, i: int|
            0 <= i < (#[trigger] self.installed[g.index()]).len() ==> (
            #[trigger] self.installed[g.index()][i]) < family_count(g)
    }

    /// Whether a device is the keyboard being typed on.
    pub open spec fn linked(&self, device: DeviceText) -> bool {
        self.keyboard_present && self.connected is Some && same_device(
            self.connected->0@,
            device.address,
        )
    }

    /// A remembered keyboard's line.
    pub open spec fn paired_line(&self, device: DeviceText) -> Line {
        let connected = self.linked(device);
        (
            ItemText::Choice {
                label: device.name,
                options: seq![
                    if connected {
                        "Disconnect"@
                    } else {
                        "Connect"@
                    },
                    "Forget"@,
                ],
                on: seq![connected, false],
                inert: seq![!connected, false],
            },
            RowText::Keyboard(seq![KeyText::Disconnect(device), KeyText::Forget(device)]),
        )
    }

    /// A keyboard that a scan turned up.
    pub open spec fn found_line(device: DeviceText) -> Line {
        (
            choice(
                device.name + "  ("@ + device.protocol + ")"@,
                seq!["Pair"@],
                seq![false],
            ),
            RowText::Keyboard(seq![KeyText::Pair(device)]),
        )
    }

    /// The lines of the first `n` keyboards a scan turned up, those that are
    /// remembered left out.
    pub open spec fn found_lines(&self, n: int) -> Seq<Line>
        decreases n,
    {
        if n <= 0 {
            seq![]
        } else {
            let device = self.found[n - 1]@;
            if has_address(device_texts(self.paired@), device.address) {
                self.found_lines(n - 1)
            } else {
                self.found_lines(n - 1).push(Config::found_line(device))
            }
        }
    }

    /// What the chip for scanning says.
    pub open spec fn scan_text(&self) -> Seq<char> {
        match self.ready {
            Ready::Starting => "Starting…"@,
            Ready::Unavailable => "Unavailable"@,
            Ready::Up => match self.scanning {
                Some(s) => "Scanning… "@ + decimal(s as nat) + "s"@,
                None => "Scan for keyboards"@,
            },
        }
    }

    /// The lines of the Keyboard section that are there however many keyboards
    /// are.
    pub open spec fn keyboard_tail(&self) -> Seq<Line> {
        let mac = self.convention == Convention::Mac;
        seq![
            (
                choice("Beside the space bar"@, seq!["⌘"@, "Alt"@], seq![mac, !mac]),
                RowText::Modifiers,
            ),
            (
                choice("Bluetooth"@, seq![self.scan_text()], seq![self.scanning is Some]),
                RowText::Keyboard(seq![KeyText::Scan]),
            ),
            (
                switch(
                    "When karyll closes"@,
                    "Turn Bluetooth off"@,
                    "Keep it on"@,
                    self.keep_alive,
                ),
                RowText::KeepBluetooth,
            ),
        ]
    }

    /// The Keyboard section: the keyboards remembered, those found, and the rest.
    pub open spec fn keyboard_lines(&self) -> Seq<Line> {
        Seq::new(self.paired.len() as nat, |i: int| self.paired_line(self.paired[i]@))
            + self.found_lines(self.found.len() as int) + self.keyboard_tail()
    }

    /// One line of a writing system's chips. Only the first is named.
    pub open spec fn font_line(&self, group: Group, first: bool, part: Seq<usize>) -> Line {
        (
            choice(
                if first {
                    group.labelled()
                } else {
                    ""@
                },
                part.map_values(|at: usize| family_name(group, at as int)),
                part.map_values(|at: usize| at == self.choices.chosen(group)),
            ),
            RowText::Font(group, part),
        )
    }

    /// A writing system's lines.
    pub open spec fn group_lines(&self, group: Group) -> Seq<Line> {
        let rows = chip_lines(self.installed[group.index()]@);
        Seq::new(rows.len(), |i: int| self.font_line(group, i == 0, rows[i]))
    }

    /// The lines of some writing systems.
    pub open spec fn font_lines(&self, groups: Seq<Group>) -> Seq<Line>
        decreases groups.len(),
    {
        if groups.len() == 0 {
            seq![]
        } else {
            self.font_lines(groups.drop_last()) + self.group_lines(groups.last())
        }
    }

    /// The lines between the Keyboard section and the faces.
    pub open spec fn middle_lines(&self) -> Seq<Line> {
        seq![
            (ItemText::Heading("Input"@), RowText::Bare),
            (
                choice(
                    "Languages"@,
                    every_language().map_values(|l: Language| l.labelled()),
                    every_language().map_values(|l: Language| self.enabled@.contains(l)),
                ),
                RowText::Languages(every_language()),
            ),
            (ItemText::Heading("Type"@), RowText::Bare),
            (
                choice("Size"@, texts(self.sizes@), standing_at(self.sizes@.len(), self.size)),
                RowText::Size,
            ),
            (
                choice(
                    "Margins"@,
                    texts(self.margins@),
                    standing_at(self.margins@.len(), self.margin),
                ),
                RowText::Margins,
            ),
            (switch("Hanging"@, "Off"@, "On"@, self.hang), RowText::Hanging),
        ]
    }

    pub open spec fn hyphen_lines(&self) -> Seq<Line> {
        match self.hyphenate {
            Some(on) => seq![(switch("Hyphenation"@, "Off"@, "On"@, on), RowText::Hyphenation)],
            None => seq![],
        }
    }

    pub open spec fn swatches(label: Seq<char>, count: usize, chosen: usize) -> ItemText {
        ItemText::Swatches {
            label,
            inks: ink_places(count),
            on: standing_at(count as nat, Some(chosen)),
        }
    }

    /// The Colour section, where the panel has colour; the colours themselves only
    /// while it is used.
    pub open spec fn colour_lines(&self) -> Seq<Line> {
        match self.colour {
            None => seq![],
            Some(c) => {
                let head = seq![
                    (ItemText::Heading("Colour"@), RowText::Bare),
                    (switch("Caret and highlights"@, "Grey"@, "Colour"@, c.on), RowText::Colour),
                ];
                if c.on {
                    head + seq![
                        (Config::swatches("Caret"@, c.count, c.caret), RowText::CaretColour),
                        (
                            Config::swatches("Highlight"@, c.count, c.highlight),
                            RowText::HighlightColour,
                        ),
                    ]
                } else {
                    head
                }
            },
        }
    }

    /// The Screen section, where the device cannot tell which way up it is.
    pub open spec fn screen_lines(&self) -> Seq<Line> {
        match self.way {
            None => seq![],
            Some(now) => seq![
                (ItemText::Heading("Screen"@), RowText::Bare),
                (
                    choice(
                        "Hold it"@,
                        seq!["Portrait"@, "Landscape"@],
                        seq![now == Orientation::Up, now == Orientation::Right],
                    ),
                    RowText::Screen,
                ),
            ],
        }
    }

    /// The whole panel, from the top.
    pub open spec fn all_lines(&self) -> Seq<Line> {
        seq![(ItemText::Heading("Keyboard"@), RowText::Bare)] + self.keyboard_lines()
            + self.middle_lines() + self.hyphen_lines() + self.font_lines(
            groups_of(self.enabled@, LANGUAGES as int),
        ) + self.colour_lines() + self.screen_lines()
    }

    pub fn is_connected(&self, device: &Device) -> (r: bool)
        ensures
            r == self.linked(device@),
    {
        if !self.keyboard_present {
            return false;
        }
        match &self.connected {
            Some(address) => same_address(address.as_str(), device.address.as_str()),
            None => false,
        }
    }

    fn paired_item(&self, device: &Device) -> (r: (Item, ConfigRow))
        ensures
            (r.0@, r.1@) == self.paired_line(device@),
    {
        let connected = self.is_connected(device);
        let options = two(
            if connected {
                "Disconnect"
            } else {
                "Connect"
            },
            "Forget",
        );
        let actions = vec![
            KeyAction::Disconnect(copy_of(device)),
            KeyAction::Forget(copy_of(device)),
        ];
        assert(actions@.map_values(|a: KeyAction| a@) =~= seq![
            KeyText::Disconnect(device@),
            KeyText::Forget(device@),
        ]);
        let on = vec![connected, false];
        let inert = vec![!connected, false];
        assert(on@ =~= seq![connected, false]);
        assert(inert@ =~= seq![!connected, false]);
        (
            Item::Choice { label: device.name.clone(), options, on, inert },
            ConfigRow::Keyboard(actions),
        )
    }

    fn found_item(device: &Device) -> (r: (Item, ConfigRow))
        ensures
            (r.0@, r.1@) == Config::found_line(device@),
    {
        let mut label = device.name.clone();
        label.append("  (");
        label.append(device.protocol.as_str());
        label.append(")");
        let actions = vec![KeyAction::Pair(copy_of(device))];
        assert(actions@.map_values(|a: KeyAction| a@) =~= seq![KeyText::Pair(device@)]);
        let on = vec![false];
        assert(on@ =~= seq![false]);
        (chips(label.as_str(), one("Pair"), on), ConfigRow::Keyboard(actions))
    }

    fn scan_label(&self) -> (r: String)
        ensures
            r@ == self.scan_text(),
    {
        match self.ready {
            Ready::Starting => "Starting…".to_owned(),
            Ready::Unavailable => "Unavailable".to_owned(),
            Ready::Up => match self.scanning {
                Some(s) => {
                    let mut t = String::from_str("Scanning… ");
                    t.append(decimal_of(s).as_str());
                    t.append("s");
                    t
                },
                None => "Scan for keyboards".to_owned(),
            },
        }
    }

    /// The Keyboard section.
    pub fn keyboard_items(&self) -> (r: Vec<(Item, ConfigRow)>)
        ensures
            lines_of(r@) == self.keyboard_lines(),
    {
        let ghost first = Seq::new(
            self.paired.len() as nat,
            |i: int| self.paired_line(self.paired[i]@),
        );
        let mut out: Vec<(Item, ConfigRow)> = Vec::new();
        let mut i: usize = 0;
        assert(lines_of(out@) =~= first.take(0));
        while i < self.paired.len()
            invariant
                i <= self.paired.len(),
                first == Seq::new(
                    self.paired.len() as nat,
                    |i: int| self.paired_line(self.paired[i]@),
                ),
                lines_of(out@) == first.take(i as int),
            decreases self.paired.len() - i,
        {
            let (item, row) = self.paired_item(&self.paired[i]);
            proof {
                lemma_line_push(out@, item, row);
                assert(first.take(i + 1) =~= first.take(i as int).push(first[i as int]));
            }
            out.push((item, row));
            i = i + 1;
        }
        assert(first.take(i as int) =~= first);
        let mut k: usize = 0;
        assert(first + self.found_lines(0) =~= first);
        while k < self.found.len()
            invariant
                k <= self.found.len(),
                lines_of(out@) == first + self.found_lines(k as int),
            decreases self.found.len() - k,
        {
            let ghost before = self.found_lines(k as int);
            if !any_at(&self.paired, self.found[k].address.as_str()) {
                let (item, row) = Config::found_item(&self.found[k]);
                proof {
                    lemma_line_push(out@, item, row);
                    assert(first + before.push((item@, row@)) =~= (first + before).push(
                        (item@, row@),
                    ));
                }
                out.push((item, row));
            }
            k = k + 1;
        }
        let ghost lead = lines_of(out@);
        let mac = self.convention == Convention::Mac;
        let keys = chips("Beside the space bar", two("⌘", "Alt"), vec![mac, !mac]);
        assert(keys@ == choice("Beside the space bar"@, seq!["⌘"@, "Alt"@], seq![mac, !mac]));
        proof {
            lemma_line_push(out@, keys, ConfigRow::Modifiers);
        }
        out.push((keys, ConfigRow::Modifiers));
        let label = self.scan_label();
        let mut options: Vec<String> = Vec::new();
        options.push(label);
        assert(texts(options@) =~= seq![self.scan_text()]);
        let running = vec![self.scanning.is_some()];
        assert(running@ =~= seq![self.scanning is Some]);
        let scan = chips("Bluetooth", options, running);
        assert(scan@ == choice("Bluetooth"@, seq![self.scan_text()], seq![self.scanning is Some]));
        let actions = vec![KeyAction::Scan];
        assert(actions@.map_values(|a: KeyAction| a@) =~= seq![KeyText::Scan]);
        let row = ConfigRow::Keyboard(actions);
        proof {
            lemma_line_push(out@, scan, row);
        }
        out.push((scan, row));
        let keep = either(
            "When karyll closes",
            "Turn Bluetooth off",
            "Keep it on",
            self.keep_alive,
        );
        proof {
            lemma_line_push(out@, keep, ConfigRow::KeepBluetooth);
        }
        out.push((keep, ConfigRow::KeepBluetooth));
        assert(lines_of(out@) =~= lead + self.keyboard_tail());
        out
    }

    fn font_items(&self, group: Group, out: &mut Vec<(Item, ConfigRow)>)
        requires
            self.wf(),
        ensures
            lines_of(final(out)@) == lines_of(old(out)@) + self.group_lines(group),
    {
        let installed = &self.installed[crate::font::group_at(group)];
        let chosen: usize = self.choices.get(group);
        let list = families(group);
        let rows = chip_rows(installed);
        let ghost lead = lines_of(out@);
        let ghost mine = self.group_lines(group);
        let mut i: usize = 0;
        assert(lead + mine.take(0) =~= lead);
        proof {
            a_split_row_keeps_every_chip(installed@);
            assert forall|a: int, b: int|
                0 <= a < rows.len() && 0 <= b < rows[a].len() implies (#[trigger] rows[a][b])
                < family_count(group) by {
                lemma_in_row(installed@, a, b);
                assert(lists_of(rows@)[a] == rows@[a]@);
                let k = choose|k: int|
                    0 <= k < installed@.len() && installed@[k] == chip_lines(installed@)[a][b];
                assert(self.installed[group.index()][k] < family_count(group));
            }
        }
        while i < rows.len()
            invariant
                i <= rows.len(),
                lists_of(rows@) == chip_lines(self.installed[group.index()]@),
                mine == self.group_lines(group),
                chosen == self.choices.chosen(group),
                list.len() == family_count(group),
                forall|k: int|
                    0 <= k < list.len() ==> (#[trigger] list[k]).name@ == family_name(group, k),
                forall|a: int, b: int|
                    0 <= a < rows.len() && 0 <= b < rows[a].len() ==> (#[trigger] rows[a][b])
                        < family_count(group),
                lines_of(out@) == lead + mine.take(i as int),
            decreases rows.len() - i,
        {
            let part = &rows[i];
            assert(lists_of(rows@)[i as int] == part@);
            let mut names: Vec<String> = Vec::new();
            let mut on: Vec<bool> = Vec::new();
            let mut copy: Vec<usize> = Vec::new();
            let mut k: usize = 0;
            while k < part.len()
                invariant
                    k <= part.len(),
                    part@ == rows@[i as int]@,
                    0 <= i < rows.len(),
                    list.len() == family_count(group),
                    forall|j: int|
                        0 <= j < list.len() ==> (#[trigger] list[j]).name@ == family_name(group, j),
                    forall|a: int, b: int|
                        0 <= a < rows.len() && 0 <= b < rows[a].len() ==> (#[trigger] rows[a][b])
                            < family_count(group),
                    names.len() == k,
                    on.len() == k,
                    copy@ == part@.take(k as int),
                    forall|j: int|
                        0 <= j < k ==> (#[trigger] names@[j])@ == family_name(group, part@[j] as int),
                    forall|j: int| 0 <= j < k ==> (#[trigger] on@[j]) == (part@[j] == chosen),
                decreases part.len() - k,
            {
                let at: usize = part[k];
                assert(rows[i as int][k as int] < family_count(group));
                names.push(list[at].name.to_owned());
                on.push(at == chosen);
                copy.push(at);
                k = k + 1;
            }
            assert(copy@ =~= part@);
            assert(texts(names@) =~= part@.map_values(|at: usize| family_name(group, at as int)));
            assert(on@ =~= part@.map_values(|at: usize| at == self.choices.chosen(group)));
            let item = chips(
                if i == 0 {
                    group.label()
                } else {
                    ""
                },
                names,
                on,
            );
            let row = ConfigRow::Font(group, copy);
            proof {
                assert((item@, row@) == self.font_line(group, i == 0, part@));
                assert(mine[i as int] == self.font_line(group, i == 0, part@));
                lemma_line_push(out@, item, row);
                assert(lead + mine.take(i + 1) =~= (lead + mine.take(i as int)).push(mine[i as int]));
            }
            out.push((item, row));
            i = i + 1;
        }
        assert(rows.len() == mine.len());
        assert(mine.take(i as int) =~= mine);
    }

    fn middle_items(&self) -> (r: Vec<(Item, ConfigRow)>)
        ensures
            lines_of(r@) == self.middle_lines(),
    {
        let mut labels: Vec<String> = Vec::new();
        let mut on: Vec<bool> = Vec::new();
        let mut all: Vec<Language> = Vec::new();
        let mut i: usize = 0;
        while i < LANGUAGES
            invariant
                i <= LANGUAGES,
                labels.len() == i,
                on.len() == i,
                all.len() == i,
                forall|k: int| 0 <= k < i ==> (#[trigger] labels@[k])@ == Language::nth(k).labelled(),
                forall|k: int|
                    0 <= k < i ==> (#[trigger] on@[k]) == self.enabled@.contains(Language::nth(k)),
                forall|k: int| 0 <= k < i ==> (#[trigger] all@[k]) == Language::nth(k),
            decreases LANGUAGES - i,
        {
            let language = Language::at(i);
            labels.push(language.label().to_owned());
            on.push(lists(self.enabled.as_slice(), language));
            all.push(language);
            i = i + 1;
        }
        assert(texts(labels@) =~= every_language().map_values(|l: Language| l.labelled()));
        assert(on@ =~= every_language().map_values(|l: Language| self.enabled@.contains(l)));
        assert(all@ =~= every_language());
        let languages = chips("Languages", labels, on);
        let size = chips("Size", copied(&self.sizes), stands(self.sizes.len(), self.size));
        let margins = chips("Margins", copied(&self.margins), stands(self.margins.len(), self.margin));
        let hanging = either("Hanging", "Off", "On", self.hang);
        let input = heading("Input");
        let type_head = heading("Type");
        let out = vec![
            (input, ConfigRow::Bare),
            (languages, ConfigRow::Languages(all)),
            (type_head, ConfigRow::Bare),
            (size, ConfigRow::Size),
            (margins, ConfigRow::Margins),
            (hanging, ConfigRow::Hanging),
        ];
        assert(lines_of(out@) =~= self.middle_lines());
        out
    }

    fn colour_items(&self) -> (r: Vec<(Item, ConfigRow)>)
        ensures
            lines_of(r@) == self.colour_lines(),
    {
        let mut out: Vec<(Item, ConfigRow)> = Vec::new();
        if let Some(c) = self.colour {
            let head = heading("Colour");
            let what = either("Caret and highlights", "Grey", "Colour", c.on);
            proof {
                lemma_line_push(out@, head, ConfigRow::Bare);
            }
            out.push((head, ConfigRow::Bare));
            proof {
                lemma_line_push(out@, what, ConfigRow::Colour);
            }
            out.push((what, ConfigRow::Colour));
            if c.on {
                let caret = swatch_row("Caret", c.count, c.caret);
                let mark = swatch_row("Highlight", c.count, c.highlight);
                proof {
                    lemma_line_push(out@, caret, ConfigRow::CaretColour);
                }
                out.push((caret, ConfigRow::CaretColour));
                proof {
                    lemma_line_push(out@, mark, ConfigRow::HighlightColour);
                }
                out.push((mark, ConfigRow::HighlightColour));
            }
        }
        assert(lines_of(out@) =~= self.colour_lines());
        out
    }

    fn screen_items(&self) -> (r: Vec<(Item, ConfigRow)>)
        ensures
            lines_of(r@) == self.screen_lines(),
    {
        let mut out: Vec<(Item, ConfigRow)> = Vec::new();
        if let Some(now) = self.way {
            let head = heading("Screen");
            let hold = chips(
                "Hold it",
                two("Portrait", "Landscape"),
                vec![now == Orientation::Up, now == Orientation::Right],
            );
            proof {
                lemma_line_push(out@, head, ConfigRow::Bare);
            }
            out.push((head, ConfigRow::Bare));
            proof {
                lemma_line_push(out@, hold, ConfigRow::Screen);
            }
            out.push((hold, ConfigRow::Screen));
        }
        assert(lines_of(out@) =~= self.screen_lines());
        out
    }

    /// The whole panel. Drawing it and taking a tap on it both come from here.
    pub fn config_items(&self) -> (r: Vec<(Item, ConfigRow)>)
        requires
            self.wf(),
        ensures
            lines_of(r@) == self.all_lines(),
    {
        let mut out: Vec<(Item, ConfigRow)> = Vec::new();
        let head = heading("Keyboard");
        proof {
            lemma_line_push(out@, head, ConfigRow::Bare);
        }
        out.push((head, ConfigRow::Bare));
        assert(lines_of(out@) =~= seq![(ItemText::Heading("Keyboard"@), RowText::Bare)]);
        let mut keyboard = self.keyboard_items();
        append_lines(&mut out, &mut keyboard);
        let mut middle = self.middle_items();
        append_lines(&mut out, &mut middle);
        if let Some(on) = self.hyphenate {
            let item = either("Hyphenation", "Off", "On", on);
            proof {
                lemma_line_push(out@, item, ConfigRow::Hyphenation);
            }
            let ghost before = lines_of(out@);
            out.push((item, ConfigRow::Hyphenation));
            assert(lines_of(out@) =~= before + self.hyphen_lines());
        } else {
            assert(lines_of(out@) + self.hyphen_lines() =~= lines_of(out@));
        }
        let ghost lead = lines_of(out@);
        let groups = font_groups(self.enabled.as_slice());
        let mut i: usize = 0;
        assert(lead + self.font_lines(groups@.take(0)) =~= lead);
        while i < groups.len()
            invariant
                self.wf(),
                i <= groups.len(),
                lines_of(out@) == lead + self.font_lines(groups@.take(i as int)),
            decreases groups.len() - i,
        {
            let group = groups[i];
            proof {
                assert(groups@.take(i + 1).drop_last() =~= groups@.take(i as int));
                assert(groups@.take(i + 1).last() == group);
                assert((lead + self.font_lines(groups@.take(i as int))) + self.group_lines(group)
                    =~= lead + (self.font_lines(groups@.take(i as int)) + self.group_lines(group)));
            }
            self.font_items(group, &mut out);
            i = i + 1;
        }
        assert(groups@.take(i as int) =~= groups@);
        let mut colour = self.colour_items();
        append_lines(&mut out, &mut colour);
        let mut screen = self.screen_items();
        append_lines(&mut out, &mut screen);
        out
    }

    /// What the chip at a place does: by the line it was drawn on.
    pub fn config_action(&self, item: usize, option: usize) -> (r: Command)
        requires
            self.wf(),
        ensures
            r@ == (if item < self.all_lines().len() {
                command_of(
                    self.all_lines()[item as int].1,
                    option as int,
                    self.sizes.len() as int,
                    self.margins.len() as int,
                    self.colour,
                )
            } else {
                CommandText::Nothing
            }),
    {
        let list = self.config_items();
        if item >= list.len() {
            return Command::Nothing;
        }
        assert(lines_of(list@)[item as int] == (list@[item as int].0@, list@[item as int].1@));
        act(&list[item].1, option, self.sizes.len(), self.margins.len(), self.colour)
    }
}

/// Every chip of a line is one of the chips there were.
proof fn lemma_in_row(options: Seq<usize>, a: int, b: int)
    requires
        0 <= a < chip_lines(options).len(),
        0 <= b < chip_lines(options)[a].len(),
    ensures
        exists|k: int| 0 <= k < options.len() && options[k] == chip_lines(options)[a][b],
{
    let n = options.len() as int;
    lemma_row_bounds(n, a);
    assert(options[before_row(n, a) + b] == chip_lines(options)[a][b]);
}

fn append_lines(out: &mut Vec<(Item, ConfigRow)>, more: &mut Vec<(Item, ConfigRow)>)
    ensures
        lines_of(final(out)@) == lines_of(old(out)@) + lines_of(old(more)@),
{
    out.append(more);
    assert(lines_of(out@) =~= lines_of(old(out)@) + lines_of(old(more)@));
}

fn chips(label: &str, options: Vec<String>, on: Vec<bool>) -> (r: Item)
    ensures
        r@ == choice(label@, texts(options@), on@),
{
    let inert: Vec<bool> = Vec::new();
    assert(inert@ =~= seq![]);
    Item::Choice { label: label.to_owned(), options, on, inert }
}

fn one(a: &str) -> (r: Vec<String>)
    ensures
        texts(r@) == seq![a@],
{
    let mut out: Vec<String> = Vec::new();
    out.push(a.to_owned());
    assert(texts(out@) =~= seq![a@]);
    out
}

fn two(a: &str, b: &str) -> (r: Vec<String>)
    ensures
        texts(r@) == seq![a@, b@],
{
    let mut out: Vec<String> = Vec::new();
    out.push(a.to_owned());
    out.push(b.to_owned());
    assert(texts(out@) =~= seq![a@, b@]);
    out
}

fn either(label: &str, off: &str, on_text: &str, on: bool) -> (r: Item)
    ensures
        r@ == switch(label@, off@, on_text@, on),
{
    let flags = vec![!on, on];
    assert(flags@ =~= seq![!on, on]);
    chips(label, two(off, on_text), flags)
}

fn copied(list: &Vec<String>) -> (r: Vec<String>)
    ensures
        texts(r@) == texts(list@),
{
    let mut out: Vec<String> = Vec::new();
    let mut i: usize = 0;
    while i < list.len()
        invariant
            i <= list.len(),
            out.len() == i,
            forall|k: int| 0 <= k < i ==> (#[trigger] out@[k])@ == list@[k]@,
        decreases list.len() - i,
    {
        out.push(list[i].clone());
        i = i + 1;
    }
    assert(texts(out@) =~= texts(list@));
    out
}

fn stands(n: usize, at: Option<usize>) -> (r: Vec<bool>)
    ensures
        r@ == standing_at(n as nat, at),
{
    let mut out: Vec<bool> = Vec::new();
    let mut i: usize = 0;
    while i < n
        invariant
            i <= n,
            out.len() == i,
            forall|k: int| 0 <= k < i ==> (#[trigger] out@[k]) == (at is Some && at->0 == k),
        decreases n - i,
    {
        out.push(
            match at {
                Some(a) => a == i,
                None => false,
            },
        );
        i = i + 1;
    }
    assert(out@ =~= standing_at(n as nat, at));
    out
}

fn swatch_row(label: &str, count: usize, chosen: usize) -> (r: Item)
    ensures
        r@ == Config::swatches(label@, count, chosen),
{
    let mut inks: Vec<usize> = Vec::new();
    let mut on: Vec<bool> = Vec::new();
    let mut i: usize = 0;
    while i < count
        invariant
            i <= count,
            inks.len() == i,
            on.len() == i,
            forall|k: int| 0 <= k < i ==> (#[trigger] inks@[k]) == k,
            forall|k: int| 0 <= k < i ==> (#[trigger] on@[k]) == (k == chosen),
        decreases count - i,
    {
        inks.push(i);
        on.push(i == chosen);
        i = i + 1;
    }
    assert(inks@ =~= ink_places(count));
    assert(on@ =~= standing_at(count as nat, Some(chosen)));
    Item::Swatches { label: label.to_owned(), inks, on }
}

// ---------------------------------------------------------------------------
// Taking a chip
// ---------------------------------------------------------------------------

/// What a chip asks for.
#[derive(Debug)]
pub enum Command {
    Nothing,
    ToggleLanguage(Language),
    SetFamily(Group, usize),
    /// By its place among the sizes.
    SetSize(usize),
    /// By its place among the margins.
    SetMargin(usize),
    SetHanging(bool),
    SetHyphenate(bool),
    Disconnect(Device),
    Forget(Device),
    Pair(Device),
    Scan,
    SetConvention(Convention),
    KeepBluetooth(bool),
    Turn(Orientation),
    SetColour(bool),
    SetCaret(usize),
    SetHighlight(usize),
}

pub enum CommandText {
    Nothing,
    ToggleLanguage(Language),
    SetFamily(Group, usize),
    SetSize(usize),
    SetMargin(usize),
    SetHanging(bool),
    SetHyphenate(bool),
    Disconnect(DeviceText),
    Forget(DeviceText),
    Pair(DeviceText),
    Scan,
    SetConvention(Convention),
    KeepBluetooth(bool),
    Turn(Orientation),
    SetColour(bool),
    SetCaret(usize),
    SetHighlight(usize),
}

impl View for Command {
    type V = CommandText;

    open spec fn view(&self) -> CommandText {
        match *self {
            Command::Nothing => CommandText::Nothing,
            Command::ToggleLanguage(l) => CommandText::ToggleLanguage(l),
            Command::SetFamily(g, at) => CommandText::SetFamily(g, at),
            Command::SetSize(at) => CommandText::SetSize(at),
            Command::SetMargin(at) => CommandText::SetMargin(at),
            Command::SetHanging(on) => CommandText::SetHanging(on),
            Command::SetHyphenate(on) => CommandText::SetHyphenate(on),
            Command::Disconnect(d) => CommandText::Disconnect(d@),
            Command::Forget(d) => CommandText::Forget(d@),
            Command::Pair(d) => CommandText::Pair(d@),
            Command::Scan => CommandText::Scan,
            Command::SetConvention(c) => CommandText::SetConvention(c),
            Command::KeepBluetooth(on) => CommandText::KeepBluetooth(on),
            Command::Turn(way) => CommandText::Turn(way),
            Command::SetColour(on) => CommandText::SetColour(on),
            Command::SetCaret(at) => CommandText::SetCaret(at),
            Command::SetHighlight(at) => CommandText::SetHighlight(at),
        }
    }
}

/// Whether both colours are among those there are.
pub open spec fn are_colours(colour: Option<Colours>, caret: int, highlight: int) -> bool {
    colour is Some && caret < colour->0.count && highlight < colour->0.count
}

/// What a chip of a line asks for: nothing past the last chip.
pub open spec fn command_of(
    row: RowText,
    option: int,
    sizes: int,
    margins: int,
    colour: Option<Colours>,
) -> CommandText {
    match row {
        RowText::Bare => CommandText::Nothing,
        RowText::Languages(list) => if option < list.len() {
            CommandText::ToggleLanguage(list[option])
        } else {
            CommandText::Nothing
        },
        RowText::Font(group, list) => if option < list.len() {
            CommandText::SetFamily(group, list[option])
        } else {
            CommandText::Nothing
        },
        RowText::Size => if option < sizes {
            CommandText::SetSize(option as usize)
        } else {
            CommandText::Nothing
        },
        RowText::Margins => if option < margins {
            CommandText::SetMargin(option as usize)
        } else {
            CommandText::Nothing
        },
        RowText::Hanging => CommandText::SetHanging(option == 1),
        RowText::Hyphenation => CommandText::SetHyphenate(option == 1),
        RowText::Keyboard(list) => if option < list.len() {
            match list[option] {
                KeyText::Disconnect(d) => CommandText::Disconnect(d),
                KeyText::Forget(d) => CommandText::Forget(d),
                KeyText::Pair(d) => CommandText::Pair(d),
                KeyText::Scan => CommandText::Scan,
            }
        } else {
            CommandText::Nothing
        },
        RowText::Modifiers => CommandText::SetConvention(
            if option == 1 {
                Convention::Pc
            } else {
                Convention::Mac
            },
        ),
        RowText::KeepBluetooth => CommandText::KeepBluetooth(option == 1),
        RowText::Screen => if option == 0 {
            CommandText::Turn(Orientation::Up)
        } else if option == 1 {
            CommandText::Turn(Orientation::Right)
        } else {
            CommandText::Nothing
        },
        RowText::Colour => CommandText::SetColour(option == 1),
        RowText::CaretColour => if are_colours(colour, option, colour->0.highlight as int) {
            CommandText::SetCaret(option as usize)
        } else {
            CommandText::Nothing
        },
        RowText::HighlightColour => if are_colours(colour, colour->0.caret as int, option) {
            CommandText::SetHighlight(option as usize)
        } else {
            CommandText::Nothing
        },
    }
}

/// What a chip of a line asks for.
pub fn act(
    row: &ConfigRow,
    option: usize,
    sizes: usize,
    margins: usize,
    colour: Option<Colours>,
) -> (r: Command)
    ensures
        r@ == command_of(row@, option as int, sizes as int, margins as int, colour),
{
    match row {
        ConfigRow::Bare => Command::Nothing,
        ConfigRow::Languages(list) => if option < list.len() {
            Command::ToggleLanguage(list[option])
        } else {
            Command::Nothing
        },
        ConfigRow::Font(group, list) => if option < list.len() {
            Command::SetFamily(*group, list[option])
        } else {
            Command::Nothing
        },
        ConfigRow::Size => if option < sizes {
            Command::SetSize(option)
        } else {
            Command::Nothing
        },
        ConfigRow::Margins => if option < margins {
            Command::SetMargin(option)
        } else {
            Command::Nothing
        },
        ConfigRow::Hanging => Command::SetHanging(option == 1),
        ConfigRow::Hyphenation => Command::SetHyphenate(option == 1),
        ConfigRow::Keyboard(list) => if option < list.len() {
            match &list[option] {
                KeyAction::Disconnect(d) => Command::Disconnect(copy_of(d)),
                KeyAction::Forget(d) => Command::Forget(copy_of(d)),
                KeyAction::Pair(d) => Command::Pair(copy_of(d)),
                KeyAction::Scan => Command::Scan,
            }
        } else {
            Command::Nothing
        },
        ConfigRow::Modifiers => Command::SetConvention(
            if option == 1 {
                Convention::Pc
            } else {
                Convention::Mac
            },
        ),
        ConfigRow::KeepBluetooth => Command::KeepBluetooth(option == 1),
        ConfigRow::Screen => if option == 0 {
            Command::Turn(Orientation::Up)
        } else if option == 1 {
            Command::Turn(Orientation::Right)
        } else {
            Command::Nothing
        },
        ConfigRow::Colour => Command::SetColour(option == 1),
        ConfigRow::CaretColour => match colour {
            Some(c) => if option < c.count && c.highlight < c.count {
                Command::SetCaret(option)
            } else {
                Command::Nothing
            },
            None => Command::Nothing,
        },
        ConfigRow::HighlightColour => match colour {
            Some(c) => if c.caret < c.count && option < c.count {
                Command::SetHighlight(option)
            } else {
                Command::Nothing
            },
            None => Command::Nothing,
        },
    }
}

impl Config {
    /// Whether a command asks for what stands.
    pub open spec fn stands_by(&self, command: CommandText) -> bool {
        match command {
            CommandText::SetFamily(group, at) => self.choices.chosen(group) == at,
            CommandText::SetSize(at) => self.size == Some(at),
            CommandText::SetMargin(at) => self.margin == Some(at),
            CommandText::SetHanging(on) => self.hang == on,
            CommandText::SetHyphenate(on) => self.hyphenate == Some(on),
            CommandText::SetConvention(convention) => self.convention == convention,
            CommandText::KeepBluetooth(on) => self.keep_alive == on,
            CommandText::Turn(way) => self.way == Some(way),
            CommandText::SetColour(on) => self.colour is Some && self.colour->0.on == on,
            CommandText::SetCaret(at) => self.colour is Some && self.colour->0.caret == at,
            CommandText::SetHighlight(at) => self.colour is Some && self.colour->0.highlight == at,
            _ => false,
        }
    }

    /// Whether a command asks for what stands, and is to be left alone: nothing is
    /// written and nothing drawn for it.
    pub fn unchanged(&self, command: &Command) -> (r: bool)
        ensures
            r == self.stands_by(command@),
    {
        match command {
            Command::SetFamily(group, at) => self.choices.get(*group) == *at,
            Command::SetSize(at) => holds_at(self.size, *at),
            Command::SetMargin(at) => holds_at(self.margin, *at),
            Command::SetHanging(on) => self.hang == *on,
            Command::SetHyphenate(on) => match self.hyphenate {
                Some(now) => now == *on,
                None => false,
            },
            Command::SetConvention(convention) => self.convention == *convention,
            Command::KeepBluetooth(on) => self.keep_alive == *on,
            Command::Turn(way) => match self.way {
                Some(now) => now == *way,
                None => false,
            },
            Command::SetColour(on) => match self.colour {
                Some(c) => c.on == *on,
                None => false,
            },
            Command::SetCaret(at) => match self.colour {
                Some(c) => c.caret == *at,
                None => false,
            },
            Command::SetHighlight(at) => match self.colour {
                Some(c) => c.highlight == *at,
                None => false,
            },
            _ => false,
        }
    }

    /// What a chip of a line asks for.
    pub open spec fn asked(&self, row: RowText, option: int) -> CommandText {
        command_of(
            row,
            option,
            self.sizes@.len() as int,
            self.margins@.len() as int,
            self.colour,
        )
    }

    /// Whether every chip of a line that holds one value is drawn as standing
    /// exactly where it asks for what stands.
    pub open spec fn honest(&self, line: Line) -> bool {
        holds_one(line.1) ==> forall|option: int|
            0 <= option < chips_on(line.0).len() ==> #[trigger] chips_on(line.0)[option]
                == self.stands_by(self.asked(line.1, option))
    }

    pub open spec fn all_honest(&self, lines: Seq<Line>) -> bool {
        forall|i: int| 0 <= i < lines.len() ==> self.honest(#[trigger] lines[i])
    }

    proof fn lemma_honest_adds(&self, a: Seq<Line>, b: Seq<Line>)
        requires
            self.all_honest(a),
            self.all_honest(b),
        ensures
            self.all_honest(a + b),
    {
        assert forall|i: int| 0 <= i < (a + b).len() implies self.honest(#[trigger] (a + b)[i]) by {
            if i < a.len() {
                assert((a + b)[i] == a[i]);
            } else {
                assert((a + b)[i] == b[i - a.len()]);
            }
        }
    }

    proof fn lemma_found_are_honest(&self, n: int)
        requires
            n <= self.found.len(),
        ensures
            self.all_honest(self.found_lines(n)),
        decreases n,
    {
        if n > 0 {
            self.lemma_found_are_honest(n - 1);
            let line = Config::found_line(self.found[n - 1]@);
            let before = self.found_lines(n - 1);
            assert(self.honest(line));
            assert forall|i: int| 0 <= i < before.push(line).len() implies self.honest(
                #[trigger] before.push(line)[i],
            ) by {
                if i < before.len() {
                    assert(before.push(line)[i] == before[i]);
                }
            }
        }
    }

    proof fn lemma_fonts_are_honest(&self, groups: Seq<Group>)
        ensures
            self.all_honest(self.font_lines(groups)),
        decreases groups.len(),
    {
        if groups.len() > 0 {
            let group = groups.last();
            self.lemma_fonts_are_honest(groups.drop_last());
            let rows = chip_lines(self.installed[group.index()]@);
            assert forall|i: int| 0 <= i < self.group_lines(group).len() implies self.honest(
                #[trigger] self.group_lines(group)[i],
            ) by {
                let line = self.font_line(group, i == 0, rows[i]);
                assert(self.group_lines(group)[i] == line);
                assert forall|option: int|
                    0 <= option < chips_on(line.0).len() implies #[trigger] chips_on(line.0)[option]
                    == self.stands_by(self.asked(line.1, option)) by {
                    assert(chips_on(line.0)[option] == (rows[i][option] == self.choices.chosen(
                        group,
                    )));
                }
            }
            self.lemma_honest_adds(self.font_lines(groups.drop_last()), self.group_lines(group));
        }
    }

    proof fn lemma_keyboards_are_honest(&self)
        ensures
            self.all_honest(self.keyboard_lines()),
    {
        let paired = Seq::new(
            self.paired.len() as nat,
            |i: int| self.paired_line(self.paired[i]@),
        );
        assert(self.all_honest(paired));
        self.lemma_found_are_honest(self.found.len() as int);
        let tail = self.keyboard_tail();
        assert(self.honest(tail[0]));
        assert(self.honest(tail[1]));
        assert(self.honest(tail[2]));
        assert(self.all_honest(tail));
        self.lemma_honest_adds(paired, self.found_lines(self.found.len() as int));
        self.lemma_honest_adds(paired + self.found_lines(self.found.len() as int), tail);
    }

    proof fn lemma_middle_is_honest(&self)
        ensures
            self.all_honest(self.middle_lines()),
    {
        let lines = self.middle_lines();
        assert(self.sizes.len() == self.sizes@.len());
        assert(self.margins.len() == self.margins@.len());
        assert(self.honest(lines[0]));
        assert(self.honest(lines[1]));
        assert(self.honest(lines[2]));
        assert(self.honest(lines[3]));
        assert(self.honest(lines[4]));
        assert(self.honest(lines[5]));
        assert(lines.len() == 6);
    }

    proof fn lemma_colours_are_honest(&self)
        requires
            self.colour is Some ==> are_colours(
                self.colour,
                self.colour->0.caret as int,
                self.colour->0.highlight as int,
            ),
        ensures
            self.all_honest(self.colour_lines()),
    {
        let lines = self.colour_lines();
        if self.colour is Some {
            assert(self.honest(lines[0]));
            assert(self.honest(lines[1]));
            if self.colour->0.on {
                assert(self.honest(lines[2]));
                assert(self.honest(lines[3]));
            }
        }
    }
}

fn holds_at(held: Option<usize>, at: usize) -> (r: bool)
    ensures
        r == (held == Some(at)),
{
    match held {
        Some(now) => now == at,
        None => false,
    }
}

/// Which chips of a line are drawn as standing.
pub open spec fn chips_on(item: ItemText) -> Seq<bool> {
    match item {
        ItemText::Choice { label: _, options: _, on, inert: _ } => on,
        ItemText::Swatches { label: _, inks: _, on } => on,
        _ => seq![],
    }
}

/// Whether a line is a setting that holds one value. The languages are each on or
/// off by themselves, and a keyboard's chips are things to do.
pub open spec fn holds_one(row: RowText) -> bool {
    !(row is Bare) && !(row is Languages) && !(row is Keyboard)
}

/// The chip that is drawn as standing is the one that asks for what stands, on every
/// setting that holds one value: what is drawn and what a tap does come from the
/// same lines.
pub proof fn the_chip_that_stands_changes_nothing(config: Config, item: int, option: int)
    requires
        config.colour is Some ==> are_colours(
            config.colour,
            config.colour->0.caret as int,
            config.colour->0.highlight as int,
        ),
        0 <= item < config.all_lines().len(),
        holds_one(config.all_lines()[item].1),
        0 <= option < chips_on(config.all_lines()[item].0).len(),
    ensures
        chips_on(config.all_lines()[item].0)[option] == config.stands_by(
            config.asked(config.all_lines()[item].1, option),
        ),
{
    let head = seq![(ItemText::Heading("Keyboard"@), RowText::Bare)];
    let groups = groups_of(config.enabled@, LANGUAGES as int);
    assert(config.all_honest(head));
    config.lemma_keyboards_are_honest();
    config.lemma_middle_is_honest();
    assert(config.all_honest(config.hyphen_lines()));
    config.lemma_fonts_are_honest(groups);
    config.lemma_colours_are_honest();
    let screen = config.screen_lines();
    assert(config.all_honest(screen)) by {
        if config.way is Some {
            assert(config.honest(screen[0]));
            assert(config.honest(screen[1]));
        }
    }
    let a = head + config.keyboard_lines();
    let b = a + config.middle_lines();
    let c = b + config.hyphen_lines();
    let d = c + config.font_lines(groups);
    let e = d + config.colour_lines();
    config.lemma_honest_adds(head, config.keyboard_lines());
    config.lemma_honest_adds(a, config.middle_lines());
    config.lemma_honest_adds(b, config.hyphen_lines());
    config.lemma_honest_adds(c, config.font_lines(groups));
    config.lemma_honest_adds(d, config.colour_lines());
    config.lemma_honest_adds(e, screen);
    assert(config.honest(config.all_lines()[item]));
}

/// A line that only names a section does nothing, whichever chip is taken.
pub proof fn a_heading_does_nothing(option: int, sizes: int, margins: int, colour: Option<Colours>)
    ensures
        command_of(RowText::Bare, option, sizes, margins, colour) == CommandText::Nothing,
{
}

/// Where the two chips of a switch say so, taking the second turns it on and taking the
/// first turns it off, and the one that holds is the one that stands.
pub proof fn a_switch_does_what_its_chips_say(config: Config)
    ensures
        ({
            let (item, row) = config.middle_lines()[5];
            item matches ItemText::Choice { options, on, .. } && options.len() == 2 && on.len() == 2
                && options[0] == "Off"@ && options[1] == "On"@ && config.asked(row, 0)
                == CommandText::SetHanging(false) && config.asked(row, 1) == CommandText::SetHanging(true)
                && on[1] == config.hang && on[0] == !config.hang
        }),
        config.hyphenate matches Some(divides) ==> ({
            let (item, row) = config.hyphen_lines()[0];
            item matches ItemText::Choice { options, on, .. } && options.len() == 2 && on.len() == 2
                && options[0] == "Off"@ && options[1] == "On"@ && config.asked(row, 0)
                == CommandText::SetHyphenate(false) && config.asked(row, 1)
                == CommandText::SetHyphenate(true) && on[1] == divides && on[0] == !divides
        }),
        config.hyphenate is None <==> config.hyphen_lines().len() == 0,
        ({
            let (item, row) = config.keyboard_tail()[0];
            item matches ItemText::Choice { options, on, .. } && options.len() == 2 && on.len() == 2
                && options[0] == "⌘"@ && options[1] == "Alt"@ && config.asked(row, 0)
                == CommandText::SetConvention(Convention::Mac) && config.asked(row, 1)
                == CommandText::SetConvention(Convention::Pc) && on[0] == (config.convention
                == Convention::Mac) && on[1] == (config.convention == Convention::Pc)
        }),
        ({
            let (item, row) = config.keyboard_tail()[2];
            item matches ItemText::Choice { options, on, .. } && options.len() == 2 && on.len() == 2
                && options[0] == "Turn Bluetooth off"@ && options[1] == "Keep it on"@ && config.asked(
                row,
                0,
            ) == CommandText::KeepBluetooth(false) && config.asked(row, 1)
                == CommandText::KeepBluetooth(true) && on[1] == config.keep_alive && on[0]
                == !config.keep_alive
        }),
        config.way matches Some(way) ==> ({
            let (item, row) = config.screen_lines()[1];
            item matches ItemText::Choice { options, on, .. } && options.len() == 2 && on.len() == 2
                && options[0] == "Portrait"@ && options[1] == "Landscape"@ && config.asked(row, 0)
                == CommandText::Turn(Orientation::Up) && config.asked(row, 1) == CommandText::Turn(
                Orientation::Right,
            ) && on[0] == (way == Orientation::Up) && on[1] == (way == Orientation::Right)
        }),
        config.colour matches Some(c) ==> ({
            let (item, row) = config.colour_lines()[1];
            item matches ItemText::Choice { options, on, .. } && options.len() == 2 && on.len() == 2
                && options[0] == "Grey"@ && options[1] == "Colour"@ && config.asked(row, 0)
                == CommandText::SetColour(false) && config.asked(row, 1) == CommandText::SetColour(true)
                && on[1] == c.on && on[0] == !c.on
        }),
{
}

/// The chip of an input source has its label, stands where it is enabled, and switches that
/// one.
pub proof fn a_language_chip_switches_its_language(config: Config, language: Language)
    ensures
        ({
            let (item, row) = config.middle_lines()[1];
            item matches ItemText::Choice { options, on, .. } && options.len() == 6 && on.len() == 6
                && options[language.index()] == language.labelled() && on[language.index()]
                == config.enabled@.contains(language) && config.asked(row, language.index())
                == CommandText::ToggleLanguage(language) && config.asked(row, 6) == CommandText::Nothing
        }),
{
    let all = every_language();
    assert(all.len() == 6);
    assert(all[language.index()] == language);
}

/// The chip of a family has its name, stands where it was chosen, and chooses it.
pub proof fn a_family_chip_chooses_its_family(
    config: Config,
    group: Group,
    first: bool,
    part: Seq<usize>,
    i: int,
)
    requires
        0 <= i < part.len(),
    ensures
        ({
            let (item, row) = config.font_line(group, first, part);
            item matches ItemText::Choice { label, options, on, .. } && options.len() == part.len()
                && on.len() == part.len() && options[i] == family_name(group, part[i] as int) && on[i]
                == (config.choices.chosen(group) == part[i]) && config.asked(row, i)
                == CommandText::SetFamily(group, part[i]) && (first ==> label == group.labelled()) && (
            !first ==> label.len() == 0) && config.asked(row, part.len() as int) == CommandText::Nothing
        }),
{
    reveal_strlit("");
}

/// The chips of a size, a margin or a colour take the one that they stand for, and there is
/// none past the last.
pub proof fn a_place_among_the_chips_is_what_is_taken(config: Config, i: int, at: usize)
    requires
        config.colour is Some,
        are_colours(
            config.colour,
            config.colour->0.caret as int,
            config.colour->0.highlight as int,
        ),
        0 <= i,
        i == at as int,
    ensures
        i < config.sizes@.len() ==> config.asked(RowText::Size, i) == CommandText::SetSize(at),
        i >= config.sizes@.len() ==> config.asked(RowText::Size, i) == CommandText::Nothing,
        i < config.margins@.len() ==> config.asked(RowText::Margins, i) == CommandText::SetMargin(at),
        i >= config.margins@.len() ==> config.asked(RowText::Margins, i) == CommandText::Nothing,
        i < config.colour->0.count ==> config.asked(RowText::CaretColour, i) == CommandText::SetCaret(at),
        i < config.colour->0.count ==> config.asked(RowText::HighlightColour, i)
            == CommandText::SetHighlight(at),
        i >= config.colour->0.count ==> config.asked(RowText::CaretColour, i) == CommandText::Nothing
            && config.asked(RowText::HighlightColour, i) == CommandText::Nothing,
        i < config.sizes@.len() ==> (standing_at(config.sizes@.len(), config.size)[i] <==> config.size
            == Some(at)),
        i < config.margins@.len() ==> (standing_at(config.margins@.len(), config.margin)[i]
            <==> config.margin == Some(at)),
{
}

/// A known keyboard can be forgotten, and let go of where it holds the link: each chip is for
/// the keyboard of its line, and the first can be taken only where it does something.
pub proof fn a_known_keyboard_has_its_two_chips(config: Config, device: DeviceText)
    ensures
        ({
            let (item, row) = config.paired_line(device);
            &&& item matches ItemText::Choice { label, options, on, inert } && label == device.name
                && options.len() == 2 && on.len() == 2 && inert.len() == 2 && options[1] == "Forget"@
                && !inert[1] && !on[1] && (inert[0] <==> !on[0]) && (on[0] ==> options[0]
                == "Disconnect"@) && (!on[0] ==> options[0] == "Connect"@) && (on[0]
                ==> config.keyboard_present && config.connected is Some)
            &&& config.asked(row, 0) == CommandText::Disconnect(device)
            &&& config.asked(row, 1) == CommandText::Forget(device)
            &&& config.asked(row, 2) == CommandText::Nothing
        }),
{
}

/// A keyboard that was found is shown with its name and, in brackets, how it is spoken to;
/// its one chip pairs it.
pub proof fn a_found_keyboard_can_be_paired(config: Config, device: DeviceText)
    ensures
        ({
            let (item, row) = Config::found_line(device);
            &&& item matches ItemText::Choice { label, options, on, .. } && options.len() == 1
                && options[0] == "Pair"@ && on == seq![false] && label.take(device.name.len() as int)
                == device.name && label.subrange(
                device.name.len() as int + 3,
                device.name.len() as int + 3 + device.protocol.len(),
            ) == device.protocol && label[device.name.len() as int + 2] == '(' && label.last() == ')'
                && label.len() == device.name.len() + device.protocol.len() + 4
            &&& config.asked(row, 0) == CommandText::Pair(device)
            &&& config.asked(row, 1) == CommandText::Nothing
        }),
        config.asked(config.keyboard_tail()[1].1, 0) == CommandText::Scan,
{
    reveal_strlit("  (");
    reveal_strlit(")");
    let label = device.name + "  ("@ + device.protocol + ")"@;
    assert(label.take(device.name.len() as int) =~= device.name);
    assert(label.subrange(
        device.name.len() as int + 3,
        device.name.len() as int + 3 + device.protocol.len(),
    ) =~= device.protocol);
}

/// The chip that scans says how long a scan has run, and otherwise whether one can be asked
/// for.
pub proof fn the_scan_says_how_long_it_has_run(config: Config, s: u64)
    ensures
        config.ready == Ready::Up && config.scanning == Some(s) ==> ({
            let says = config.scan_text();
            &&& says.last() == 's'
            &&& number(says.subrange(10, says.len() - 1), 10, u64::MAX as int) == Some(s as int)
        }),
        config.ready == Ready::Up && config.scanning is None ==> config.scan_text()
            == "Scan for keyboards"@,
        config.ready == Ready::Starting ==> config.scan_text() == "Starting…"@,
        config.ready == Ready::Unavailable ==> config.scan_text() == "Unavailable"@,
        config.scanning is Some <==> chips_on(config.keyboard_tail()[1].0)[0],
{
    reveal_strlit("Scanning… ");
    reveal_strlit("s");
    number_reads_what_decimal_writes(s as nat, u64::MAX as int);
    if config.ready == Ready::Up && config.scanning == Some(s) {
        let says = config.scan_text();
        assert(says.subrange(10, says.len() - 1) =~= decimal(s as nat));
    }
}

/// A line takes three chips and no more, and a setting as many lines as it needs.
pub proof fn a_line_takes_three_chips(n: int)
    requires
        0 < n,
    ensures
        3 * (rows_for(n) - 1) < n <= 3 * rows_for(n),
        CHIPS_PER_ROW == 3,
{
}

} // verus!
