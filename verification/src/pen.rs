//! The pen: contacts from its events, and finding it among the devices.

use vstd::prelude::*;

use crate::evdev::{event_node, find_event, text_of, ABS_X, ABS_Y, EV_ABS, EV_KEY, EV_SYN};
use crate::text::{
    a_prefix_is_stripped, after_prefix, chars_of, contains, find_from, holds, lemma_find_from,
    lines, lines_of, lower, lower_of, part, place_of, stands_at, strip_prefix, views, words,
    words_of,
};

verus! {

pub const SYN_REPORT: u16 = 0;

pub const BTN_TOUCH: u16 = 0x14a;

/// A contact with the glass, in the device's own coordinates.
#[derive(Debug, Clone, Copy, PartialEq, Eq, Structural)]
pub enum Touch {
    Down { x: i32, y: i32 },
    Up { x: i32, y: i32 },
}

/// Where the pen is, whether it is down, and what the report being read has said
/// of it so far.
#[derive(Debug, Clone, Copy, PartialEq, Eq, Structural)]
pub struct Pen {
    pub x: i32,
    pub y: i32,
    pub down: bool,
    pub began: bool,
    pub ended: bool,
}

impl Default for Pen {
    fn default() -> (r: Self)
        ensures
            r == (Pen { x: 0, y: 0, down: false, began: false, ended: false }),
    {
        Pen { x: 0, y: 0, down: false, began: false, ended: false }
    }
}

impl Pen {
    /// The pen after an event. A position and a press are held until the report
    /// ends.
    pub open spec fn after(self, kind: u16, code: u16, value: i32) -> Pen {
        if kind == EV_ABS && code == ABS_X {
            Pen { x: value, ..self }
        } else if kind == EV_ABS && code == ABS_Y {
            Pen { y: value, ..self }
        } else if kind == EV_KEY && code == BTN_TOUCH {
            if value != 0 {
                Pen { began: true, ..self }
            } else {
                Pen { ended: true, ..self }
            }
        } else if kind == EV_SYN && code == SYN_REPORT {
            Pen {
                down: (self.down || self.began) && !self.ended,
                began: false,
                ended: false,
                ..self
            }
        } else {
            self
        }
    }

    /// The contacts an event completes: at the end of a report, the press where
    /// there was one, and the lift where there was one of a pen that was down.
    pub open spec fn contacts(self, kind: u16, code: u16) -> Seq<Touch> {
        if kind == EV_SYN && code == SYN_REPORT {
            let press = if self.began {
                seq![Touch::Down { x: self.x, y: self.y }]
            } else {
                seq![]
            };
            let lift = if self.ended && (self.down || self.began) {
                seq![Touch::Up { x: self.x, y: self.y }]
            } else {
                seq![]
            };
            press + lift
        } else {
            seq![]
        }
    }

    pub fn feed(&mut self, kind: u16, code: u16, value: i32, out: &mut Vec<Touch>)
        ensures
            *final(self) == old(self).after(kind, code, value),
            final(out)@ == old(out)@ + old(self).contacts(kind, code),
    {
        let ghost before = out@;
        if kind == EV_ABS && code == ABS_X {
            self.x = value;
        } else if kind == EV_ABS && code == ABS_Y {
            self.y = value;
        } else if kind == EV_KEY && code == BTN_TOUCH {
            if value != 0 {
                self.began = true;
            } else {
                self.ended = true;
            }
        } else if kind == EV_SYN && code == SYN_REPORT {
            if self.began {
                self.began = false;
                self.down = true;
                out.push(Touch::Down { x: self.x, y: self.y });
            }
            if self.ended {
                self.ended = false;
                if self.down {
                    self.down = false;
                    out.push(Touch::Up { x: self.x, y: self.y });
                }
            }
        }
        assert(out@ =~= before + old(self).contacts(kind, code));
    }
}

/// A lift is reported of a pen that went down and of no other, and it leaves the
/// pen up.
pub proof fn a_lift_follows_a_press(pen: Pen, kind: u16, code: u16, value: i32)
    ensures
        pen.contacts(kind, code).contains(Touch::Up { x: pen.x, y: pen.y }) ==> (pen.down
            || pen.contacts(kind, code)[0] == Touch::Down { x: pen.x, y: pen.y }) && !pen.after(
            kind,
            code,
            value,
        ).down,
        pen.contacts(kind, code).len() <= 2,
{
}

/// A pen that only hovers makes no contact.
pub proof fn hovering_makes_no_contact(pen: Pen, kind: u16, code: u16)
    requires
        !pen.began,
        !pen.ended,
    ensures
        pen.contacts(kind, code) == Seq::<Touch>::empty(),
{
}

/// `s` without the quotation marks at either end.
pub open spec fn unquoted(s: Seq<char>) -> Seq<char>
    decreases s.len(),
{
    if s.len() > 0 && s[0] == '"' {
        unquoted(s.drop_first())
    } else if s.len() > 0 && s.last() == '"' {
        unquoted(s.drop_last())
    } else {
        s
    }
}

fn unquote(v: &Vec<char>) -> (r: Vec<char>)
    ensures
        r@ == unquoted(v@),
{
    let mut from: usize = 0;
    let mut to: usize = v.len();
    assert(v@.subrange(0, to as int) =~= v@);
    while from < to && v[from] == '"'
        invariant
            from <= to == v.len(),
            unquoted(v@) == unquoted(v@.subrange(from as int, to as int)),
        decreases to - from,
    {
        assert(v@.subrange(from as int, to as int).drop_first() =~= v@.subrange(
            from + 1,
            to as int,
        ));
        from = from + 1;
    }
    while from < to && v[to - 1] == '"'
        invariant
            from <= to <= v.len(),
            from < to ==> v@[from as int] != '"',
            unquoted(v@) == unquoted(v@.subrange(from as int, to as int)),
        decreases to - from,
    {
        assert(v@.subrange(from as int, to as int).drop_last() =~= v@.subrange(
            from as int,
            to - 1,
        ));
        to = to - 1;
    }
    part(v, from, to)
}

/// How good a device's name is for a pen: the lower the better, and nothing where
/// it does not sound like one.
pub open spec fn rank(name: Seq<char>) -> Option<int> {
    if holds(name, "wacom"@) {
        Some(0)
    } else if holds(name, "digitizer"@) {
        Some(1)
    } else if holds(name, "stylus"@) {
        Some(2)
    } else {
        None
    }
}

fn rank_of(name: &Vec<char>) -> (r: Option<usize>)
    ensures
        match r {
            Some(n) => rank(name@) == Some(n as int),
            None => rank(name@) is None,
        },
{
    if contains(name, "wacom") {
        Some(0)
    } else if contains(name, "digitizer") {
        Some(1)
    } else if contains(name, "stylus") {
        Some(2)
    } else {
        None
    }
}

/// The parts of a text between its empty lines.
pub open spec fn stanzas(s: Seq<char>, from: int) -> Seq<Seq<char>>
    decreases s.len() - from + 1,
{
    if from < 0 || from > s.len() {
        seq![]
    } else {
        match find_from(s, seq!['\n', '\n'], from) {
            Some(at) => if from <= at && at + 2 <= s.len() {
                seq![s.subrange(from, at)] + stanzas(s, at + 2)
            } else {
                seq![]
            },
            None => seq![s.skip(from)],
        }
    }
}

/// The name that some lines of a stanza give: the last one, in small letters, and an
/// empty one where none does.
pub open spec fn name_after(list: Seq<Seq<char>>) -> Seq<char>
    decreases list.len(),
{
    if list.len() == 0 {
        seq![]
    } else {
        match strip_prefix(list.last(), "N: Name="@) {
            Some(rest) => lower(unquoted(rest)),
            None => name_after(list.drop_last()),
        }
    }
}

/// The event node that some lines of a stanza give.
pub open spec fn node_after(list: Seq<Seq<char>>) -> Option<Seq<char>>
    decreases list.len(),
{
    if list.len() == 0 {
        None
    } else if strip_prefix(list.last(), "N: Name="@) is Some {
        node_after(list.drop_last())
    } else {
        match strip_prefix(list.last(), "H: Handlers="@) {
            Some(rest) => event_node(words(rest), 0),
            None => node_after(list.drop_last()),
        }
    }
}

/// The best pen among some stanzas, with its rank: the first of the best.
pub open spec fn best_pen(list: Seq<Seq<char>>) -> Option<(int, Seq<char>)>
    decreases list.len(),
{
    if list.len() == 0 {
        None
    } else {
        let before = best_pen(list.drop_last());
        match (rank(name_after(lines(list.last()))), node_after(lines(list.last()))) {
            (Some(n), Some(node)) => if before is Some && (before->0).0 <= n {
                before
            } else {
                Some((n, node))
            },
            _ => before,
        }
    }
}

/// The event node of the pen that a listing of devices tells of.
pub open spec fn pen_of(raw: Seq<char>) -> Option<Seq<char>> {
    match best_pen(stanzas(raw, 0)) {
        Some((_, node)) => Some(node),
        None => None,
    }
}

fn stanzas_of(v: &Vec<char>) -> (r: Vec<Vec<char>>)
    ensures
        views(r@) == stanzas(v@, 0),
{
    let mut gap: Vec<char> = Vec::new();
    gap.push('\n');
    gap.push('\n');
    assert(gap@ =~= seq!['\n', '\n']);
    let mut out: Vec<Vec<char>> = Vec::new();
    let mut from: usize = 0;
    assert(views(out@) + stanzas(v@, 0) =~= stanzas(v@, 0));
    loop
        invariant
            from <= v.len(),
            gap@ == seq!['\n', '\n'],
            views(out@) + stanzas(v@, from as int) == stanzas(v@, 0),
        decreases v.len() - from,
    {
        let ghost before = out@;
        proof {
            lemma_find_from(v@, gap@, from as int);
        }
        match place_of(v, &gap, from) {
            Some(at) => {
                let piece = part(v, from, at);
                out.push(piece);
                proof {
                    assert(views(out@) =~= views(before).push(piece@));
                    assert(views(before) + (seq![piece@] + stanzas(v@, at + 2)) =~= views(out@)
                        + stanzas(v@, at + 2));
                }
                from = at + 2;
            },
            None => {
                let piece = part(v, from, v.len());
                out.push(piece);
                proof {
                    assert(piece@ =~= v@.skip(from as int));
                    assert(views(out@) =~= views(before).push(piece@));
                    assert(views(before) + seq![piece@] =~= views(out@));
                }
                return out;
            },
        }
    }
}

pub fn pick_pen(raw: &str) -> (r: Option<String>)
    ensures
        text_of(r) == pen_of(raw@),
{
    let text = chars_of(raw);
    let list = stanzas_of(&text);
    let mut best: Option<(usize, String)> = None;
    let mut i: usize = 0;
    while i < list.len()
        invariant
            i <= list.len(),
            match best {
                Some((n, node)) => best_pen(views(list@).take(i as int)) == Some((n as int, node@)),
                None => best_pen(views(list@).take(i as int)) is None,
            },
        decreases list.len() - i,
    {
        let ghost done = views(list@).take(i + 1);
        assert(done.drop_last() =~= views(list@).take(i as int));
        assert(done.last() == list@[i as int]@);
        let rows = lines_of(&list[i]);
        let ghost all = views(rows@);
        let mut name: Vec<char> = Vec::new();
        let mut node: Option<String> = None;
        let mut k: usize = 0;
        assert(all.take(0) =~= seq![]);
        assert(name@ =~= seq![]);
        while k < rows.len()
            invariant
                k <= rows.len(),
                all == views(rows@),
                name@ == name_after(all.take(k as int)),
                text_of(node) == node_after(all.take(k as int)),
            decreases rows.len() - k,
        {
            assert(all.take(k + 1).drop_last() =~= all.take(k as int));
            assert(all.take(k + 1).last() == rows@[k as int]@);
            if let Some(rest) = after_prefix(&rows[k], "N: Name=") {
                let bare = unquote(&rest);
                name = lower_of(&bare);
            } else if let Some(rest) = after_prefix(&rows[k], "H: Handlers=") {
                let parts = words_of(&rest);
                node = find_event(&parts);
            }
            k = k + 1;
        }
        assert(all.take(k as int) =~= all);
        if let Some(n) = rank_of(&name) {
            if let Some(node) = node {
                let better = match &best {
                    Some((held, _)) => n < *held,
                    None => true,
                };
                if better {
                    best = Some((n, node));
                }
            }
        }
        i = i + 1;
    }
    assert(views(list@).take(i as int) =~= views(list@));
    match best {
        Some((_, node)) => Some(node),
        None => None,
    }
}

/// A pen that goes down touches where it is, is down from then on, and lifts where it is
/// when it goes up: the press is told before the lift, and each once.
pub proof fn a_pen_touches_where_it_is(pen: Pen, x: i32, y: i32, to_x: i32, to_y: i32)
    requires
        !pen.began,
        !pen.ended,
        !pen.down,
    ensures
        ({
            let pressed = pen.after(3, 0, x).after(3, 1, y).after(1, 330, 1);
            let held = pressed.after(0, 0, 0);
            let lifted = held.after(3, 0, to_x).after(3, 1, to_y).after(1, 330, 0);
            let over = lifted.after(0, 0, 0);
            let both = pressed.after(1, 330, 0);
            &&& pressed.contacts(0, 0) == seq![Touch::Down { x, y }]
            &&& held.down && held.contacts(0, 0).len() == 0
            &&& lifted.contacts(0, 0) == seq![Touch::Up { x: to_x, y: to_y }]
            &&& !over.down && over.contacts(0, 0).len() == 0
            &&& both.contacts(0, 0) == seq![Touch::Down { x, y }, Touch::Up { x, y }]
            &&& !both.after(0, 0, 0).down
            &&& pen.after(1, 330, 0).contacts(0, 0).len() == 0
        }),
{
    let pressed = pen.after(3, 0, x).after(3, 1, y).after(1, 330, 1);
    let held = pressed.after(0, 0, 0);
    let lifted = held.after(3, 0, to_x).after(3, 1, to_y).after(1, 330, 0);
    let both = pressed.after(1, 330, 0);
    assert(pressed.contacts(0, 0) =~= seq![Touch::Down { x, y }]);
    assert(lifted.contacts(0, 0) =~= seq![Touch::Up { x: to_x, y: to_y }]);
    assert(both.contacts(0, 0) =~= seq![Touch::Down { x, y }, Touch::Up { x, y }]);
}

/// Each axis has its own code, and an event of another kind or code changes nothing.
pub proof fn each_event_of_a_pen_has_its_code(pen: Pen, kind: u16, code: u16, value: i32)
    ensures
        pen.after(3, 0, value) == (Pen { x: value, ..pen }),
        pen.after(3, 1, value) == (Pen { y: value, ..pen }),
        pen.after(kind, code, value) != pen ==> (kind == 3 && code <= 1) || (kind == 1 && code == 330) || (
        kind == 0 && code == 0),
        pen.contacts(kind, code).len() > 0 ==> kind == 0 && code == 0,
{
}

/// The quotation marks round a name come off, and none within it.
pub proof fn a_name_loses_its_quotation_marks(name: Seq<char>)
    requires
        name.len() > 0 ==> name[0] != '"' && name.last() != '"',
    ensures
        unquoted(seq!['"'] + name + seq!['"']) == name,
        unquoted(name) == name,
{
    let quoted = seq!['"'] + name + seq!['"'];
    assert(quoted.drop_first() =~= name + seq!['"']);
    let rest = name + seq!['"'];
    assert(unquoted(name) == name);
    if name.len() > 0 {
        assert(rest[0] == name[0]);
        assert(rest.last() == '"');
        assert(rest.drop_last() =~= name);
    } else {
        assert(rest.drop_first() =~= name);
    }
    assert(unquoted(rest) == name);
}

/// The name of a device is what its last such line says, in small letters and without
/// quotation marks; its node is of its handlers, and neither line disturbs the other.
pub proof fn a_stanza_names_a_pen(before: Seq<Seq<char>>, name: Seq<char>, handlers: Seq<char>)
    requires
        name.len() > 0 ==> name[0] != '"' && name.last() != '"',
    ensures
        name_after(before.push("N: Name="@ + (seq!['"'] + name + seq!['"']))) == lower(name),
        node_after(before.push("N: Name="@ + (seq!['"'] + name + seq!['"']))) == node_after(before),
        node_after(before.push("H: Handlers="@ + handlers)) == event_node(words(handlers), 0),
        name_after(before.push("H: Handlers="@ + handlers)) == name_after(before),
{
    reveal_strlit("N: Name=");
    reveal_strlit("H: Handlers=");
    let quoted = seq!['"'] + name + seq!['"'];
    let named = "N: Name="@ + quoted;
    let handled = "H: Handlers="@ + handlers;
    a_name_loses_its_quotation_marks(name);
    a_prefix_is_stripped("N: Name="@, quoted, named);
    a_prefix_is_stripped("H: Handlers="@, handlers, handled);
    assert(before.push(named).drop_last() =~= before);
    assert(before.push(handled).drop_last() =~= before);
    if stands_at(handled, "N: Name="@, 0) {
        assert(handled.subrange(0, "N: Name="@.len() as int)[0] == handled[0]);
    }
}

/// The names that pens go by, the surest first.
pub proof fn the_names_that_pens_go_by(front: Seq<char>, rest: Seq<char>, name: Seq<char>)
    ensures
        rank(front + "wacom"@ + rest) == Some(0int),
        rank(front + "digitizer"@ + rest) matches Some(n) && n <= 1,
        rank(front + "stylus"@ + rest) matches Some(n) && n <= 2,
        rank(name) == Some(1int) ==> !holds(name, "wacom"@) && holds(name, "digitizer"@),
        rank(name) == Some(2int) ==> !holds(name, "digitizer"@) && holds(name, "stylus"@),
        rank(name) is None ==> !holds(name, "wacom"@) && !holds(name, "digitizer"@) && !holds(
            name,
            "stylus"@,
        ),
{
    lemma_holds(front, "wacom"@, rest);
    lemma_holds(front, "digitizer"@, rest);
    lemma_holds(front, "stylus"@, rest);
}

proof fn lemma_holds(front: Seq<char>, word: Seq<char>, rest: Seq<char>)
    ensures
        holds(front + word + rest, word),
{
    let all = front + word + rest;
    assert(all.subrange(front.len() as int, front.len() as int + word.len()) =~= word);
    assert(stands_at(all, word, front.len() as int));
    lemma_find_from(all, word, 0);
}

/// Of all devices that go by the name of a pen the surest is taken.
pub proof fn the_surest_pen_is_taken(list: Seq<Seq<char>>, i: int)
    requires
        0 <= i < list.len(),
        rank(name_after(lines(list[i]))) is Some,
        node_after(lines(list[i])) is Some,
    ensures
        best_pen(list) matches Some((n, node)) && n <= rank(name_after(lines(list[i])))->0,
        best_pen(list) matches Some((n, node)) && exists|k: int|
            0 <= k < list.len() && rank(name_after(lines(#[trigger] list[k]))) == Some(n) && node_after(
                lines(list[k]),
            ) == Some(node),
    decreases list.len(),
{
    lemma_best_is_listed(list);
    if i < list.len() - 1 {
        assert(list.drop_last()[i] == list[i]);
        the_surest_pen_is_taken(list.drop_last(), i);
    }
}

proof fn lemma_best_is_listed(list: Seq<Seq<char>>)
    ensures
        best_pen(list) matches Some((n, node)) ==> exists|k: int|
            0 <= k < list.len() && rank(name_after(lines(#[trigger] list[k]))) == Some(n) && node_after(
                lines(list[k]),
            ) == Some(node),
    decreases list.len(),
{
    if list.len() > 0 {
        let less = list.drop_last();
        lemma_best_is_listed(less);
        if best_pen(list) is Some {
            let (n, node) = best_pen(list)->0;
            if best_pen(less) == best_pen(list) {
                let k = choose|k: int|
                    0 <= k < less.len() && rank(name_after(lines(#[trigger] less[k]))) == Some(n)
                        && node_after(lines(less[k])) == Some(node);
                assert(list[k] == less[k]);
            } else {
                assert(rank(name_after(lines(list[list.len() - 1]))) == Some(n));
            }
        }
    }
}

/// Of devices as sure as each other the first is taken.
pub proof fn the_first_of_equals_is_taken(list: Seq<Seq<char>>, more: Seq<char>)
    requires
        best_pen(list) is Some,
        rank(name_after(lines(more))) is Some,
        (best_pen(list)->0).0 <= rank(name_after(lines(more)))->0,
    ensures
        best_pen(list.push(more)) == best_pen(list),
{
    assert(list.push(more).drop_last() =~= list);
}

} // verus!
