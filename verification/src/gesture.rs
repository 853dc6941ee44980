//! What a finger or the pen means: where on the window a contact is, and what a
//! lift does.

use vstd::prelude::*;

use crate::keymap::Action;
use crate::orientation::Orientation;
use crate::panel::Mode;

verus! {

/// How far a finger may wander and count as having stayed.
pub const TOUCH_SLOP: u16 = 40;

/// How long the second tap of a double tap may take, in milliseconds.
pub const DOUBLE_TAP: u64 = 400;

/// How long a pressed control stays inverted, in milliseconds.
pub const FEEDBACK: u64 = 300;

/// Whether two points are apart, on either axis, by more than a finger wanders.
pub open spec fn apart(a: (u16, u16), b: (u16, u16)) -> bool {
    a.0 - b.0 > TOUCH_SLOP || b.0 - a.0 > TOUCH_SLOP || a.1 - b.1 > TOUCH_SLOP || b.1 - a.1
        > TOUCH_SLOP
}

pub fn far(a: (u16, u16), b: (u16, u16)) -> (r: bool)
    ensures
        r == apart(a, b),
{
    let dx: u16 = if a.0 >= b.0 {
        a.0 - b.0
    } else {
        b.0 - a.0
    };
    let dy: u16 = if a.1 >= b.1 {
        a.1 - b.1
    } else {
        b.1 - a.1
    };
    dx > TOUCH_SLOP || dy > TOUCH_SLOP
}

/// Being apart does not depend on which point came first.
pub proof fn apart_both_ways(a: (u16, u16), b: (u16, u16))
    ensures
        apart(a, b) == apart(b, a),
        !apart(a, a),
{
}

/// The sides of the panel, upright: the shorter across.
pub open spec fn upright(size: (u16, u16)) -> (u16, u16) {
    if size.0 <= size.1 {
        size
    } else {
        (size.1, size.0)
    }
}

pub fn panel_size(size: (u16, u16)) -> (r: (u16, u16))
    ensures
        r == upright(size),
{
    if size.0 <= size.1 {
        size
    } else {
        (size.1, size.0)
    }
}

/// A number brought between nought and a limit.
pub open spec fn between(n: int, limit: u16) -> int {
    if n < 0 {
        0
    } else if n > limit {
        limit as int
    } else {
        n
    }
}

/// A point of the panel, in its own upright pixels, as a point of the window, and
/// never outside it.
pub fn point(x: i32, y: i32, way: Orientation, size: (u16, u16)) -> (r: (u16, u16))
    requires
        i32::MIN + 65536 < x,
        i32::MIN + 65536 < y,
    ensures
        ({
            let (a, b) = way.turned(x as int, y as int, size.0 as int, size.1 as int);
            r.0 == between(a, size.0) && r.1 == between(b, size.1)
        }),
{
    let (a, b) = way.apply(x, y, size);
    let px: u16 = if a < 0 {
        0
    } else if a > size.0 as i32 {
        size.0
    } else {
        a as u16
    };
    let py: u16 = if b < 0 {
        0
    } else if b > size.1 as i32 {
        size.1
    } else {
        b as u16
    };
    (px, py)
}

/// Which margin of the page a point is in.
#[derive(Debug, Clone, Copy, PartialEq, Eq, Structural)]
pub enum Edge {
    Back,
    On,
    Start,
    End,
}

/// The move that a margin stands for.
pub open spec fn moves_by(edge: Edge) -> Action {
    match edge {
        Edge::Back => Action::PageUp,
        Edge::On => Action::PageDown,
        Edge::Start => Action::DocStart,
        Edge::End => Action::DocEnd,
    }
}

/// The key that a margin stands in for.
pub fn edge_action(edge: Edge) -> (r: Action)
    ensures
        r == moves_by(edge),
{
    match edge {
        Edge::Back => Action::PageUp,
        Edge::On => Action::PageDown,
        Edge::Start => Action::DocStart,
        Edge::End => Action::DocEnd,
    }
}

/// Where a finger went down, and when and where the page was last tapped.
#[derive(Debug, Clone, Copy, PartialEq, Eq)]
pub struct Taps {
    pub down: Option<(u16, u16)>,
    pub last: Option<(u64, (u16, u16))>,
}

/// What a lift on the page does.
#[derive(Debug, Clone, Copy, PartialEq, Eq, Structural)]
pub enum Lift {
    /// A tap in a margin moves the page.
    Margin(Edge),
    /// A lift on no character does nothing.
    Nothing,
    /// A drag selects from one character to another.
    Select { from: usize, to: usize },
    /// With Shift held, extend the selection to a character.
    Extend(usize),
    /// The second tap in one place selects the word.
    Word(usize),
    /// A tap puts the cursor at a character.
    Cursor(usize),
}

impl Taps {
    /// Whether a lift at a point ends a drag.
    pub open spec fn dragged(self, at: (u16, u16)) -> bool {
        self.down is Some && apart(self.down->0, at)
    }

    /// Whether a tap at a point is the second of two.
    pub open spec fn again(self, at: (u16, u16), now: u64) -> bool {
        self.last is Some && now - (self.last->0).0 < DOUBLE_TAP && now >= (self.last->0).0 && !apart(
            (self.last->0).1,
            at,
        )
    }

    /// What a lift does, by the margin it is in, the character it is on, and the
    /// character the finger went down on.
    pub open spec fn lift_of(
        self,
        at: (u16, u16),
        edge: Option<Edge>,
        index: Option<usize>,
        start: Option<usize>,
        shift: bool,
        now: u64,
    ) -> Lift {
        if !self.dragged(at) && edge is Some {
            Lift::Margin(edge->0)
        } else if index is None {
            Lift::Nothing
        } else if self.dragged(at) && start is Some {
            Lift::Select {
                from: if start->0 <= index->0 {
                    start->0
                } else {
                    index->0
                },
                to: if start->0 <= index->0 {
                    index->0
                } else {
                    start->0
                },
            }
        } else if shift {
            Lift::Extend(index->0)
        } else if self.again(at, now) {
            Lift::Word(index->0)
        } else {
            Lift::Cursor(index->0)
        }
    }

    /// The tap that a later one can be the second of: only one that placed the
    /// cursor.
    pub open spec fn last_after(self, lift: Lift, at: (u16, u16), now: u64) -> Option<
        (u64, (u16, u16)),
    > {
        match lift {
            Lift::Nothing => self.last,
            Lift::Cursor(_) => Some((now, at)),
            _ => None,
        }
    }

    /// A lift on the page. The press is spent; only a tap that placed the cursor
    /// can be the first of two.
    pub fn lift(
        &mut self,
        at: (u16, u16),
        edge: Option<Edge>,
        index: Option<usize>,
        start: Option<usize>,
        shift: bool,
        now: u64,
    ) -> (r: Lift)
        ensures
            r == old(self).lift_of(at, edge, index, start, shift, now),
            final(self).down is None,
            final(self).last == old(self).last_after(r, at, now),
    {
        let down = self.down;
        self.down = None;
        let dragged = match down {
            Some(from) => far(from, at),
            None => false,
        };
        if !dragged {
            if let Some(edge) = edge {
                self.last = None;
                return Lift::Margin(edge);
            }
        }
        let index: usize = match index {
            Some(index) => index,
            None => return Lift::Nothing,
        };
        if dragged {
            if let Some(start) = start {
                self.last = None;
                return if start <= index {
                    Lift::Select { from: start, to: index }
                } else {
                    Lift::Select { from: index, to: start }
                };
            }
        }
        if shift {
            self.last = None;
            return Lift::Extend(index);
        }
        let again = match self.last {
            Some((when, place)) => now >= when && now - when < DOUBLE_TAP && !far(place, at),
            None => false,
        };
        if again {
            self.last = None;
            Lift::Word(index)
        } else {
            self.last = Some((now, at));
            Lift::Cursor(index)
        }
    }

    /// A contact began: on the page it is remembered, anywhere else it is not.
    pub fn press(&mut self, at: (u16, u16), on_page: bool)
        ensures
            *final(self) == (Taps {
                down: if on_page {
                    Some(at)
                } else {
                    None
                },
                ..*old(self)
            }),
    {
        self.down = if on_page {
            Some(at)
        } else {
            None
        };
    }
}

/// A third tap is no second tap: two that selected a word are spent.
pub proof fn a_double_tap_is_spent(taps: Taps, lift: Lift, at: (u16, u16), now: u64)
    requires
        lift is Word,
    ensures
        forall|p: (u16, u16), t: u64|
            !(#[trigger] (Taps { down: None, last: taps.last_after(lift, at, now) }).again(p, t)),
{
}

/// A drag never moves the page and never places the cursor by itself.
pub proof fn a_drag_selects(
    taps: Taps,
    at: (u16, u16),
    edge: Option<Edge>,
    index: usize,
    start: usize,
    shift: bool,
    now: u64,
)
    requires
        taps.dragged(at),
    ensures
        taps.lift_of(at, edge, Some(index), Some(start), shift, now) is Select,
{
}

/// Whether a point is on the page: only while writing, and above its foot.
pub fn writing_area(mode: &Mode, y: u16, bottom: u16) -> (r: bool)
    ensures
        r == (*mode is Writing && y < bottom),
{
    matches!(mode, Mode::Writing) && y < bottom
}

/// What a tap is for, before anything else is asked of it.
#[derive(Debug, Clone, Copy, PartialEq, Eq, Structural)]
pub enum Tap {
    /// It is spent on showing the strip.
    Reveal,
    /// It takes a candidate.
    Candidate(usize),
    /// It is on the page.
    Page,
    /// It may be on a control.
    Control,
}

/// What a tap is for: the strip that it brings back, a candidate, the page, or a control.
pub open spec fn tap_of(
    waking: bool,
    changed: bool,
    y: u16,
    strip_top: u16,
    candidate: Option<usize>,
    on_page: bool,
) -> Tap {
    if (waking || changed) && y >= strip_top {
        Tap::Reveal
    } else {
        match candidate {
            Some(n) => Tap::Candidate(n),
            None => if on_page {
                Tap::Page
            } else {
                Tap::Control
            },
        }
    }
}

/// A tap where the strip is about to appear, or has just changed, is spent on
/// looking; the candidates float over the page and are asked before it.
pub fn tapped(
    waking: bool,
    changed: bool,
    y: u16,
    strip_top: u16,
    candidate: Option<usize>,
    on_page: bool,
) -> (r: Tap)
    ensures
        r == tap_of(waking, changed, y, strip_top, candidate, on_page),
{
    if (waking || changed) && y >= strip_top {
        return Tap::Reveal;
    }
    match candidate {
        Some(n) => Tap::Candidate(n),
        None => if on_page {
            Tap::Page
        } else {
            Tap::Control
        },
    }
}

/// Something a finger can be on: a cell of the strip, a line of the page that
/// shows, or a chip of one.
#[derive(Debug, Clone, Copy, PartialEq, Eq, Structural)]
pub enum Target {
    Strip(usize),
    Row(usize),
    Option(usize, usize),
}

/// Whether a point is on the strip: below the page, and no higher than where the
/// strip begins.
pub fn on_strip(y: u16, bottom: u16, strip_top: u16) -> (r: bool)
    ensures
        r == (y >= bottom && y >= strip_top),
{
    y >= bottom && y >= strip_top
}

/// What is under a finger, its line counted through the list that begins so far above.
pub open spec fn from_line(target: Target, start: usize) -> Target {
    match target {
        Target::Strip(cell) => Target::Strip(cell),
        Target::Row(row) => Target::Row((row + start) as usize),
        Target::Option(row, option) => Target::Option((row + start) as usize, option),
    }
}

/// A target on the page that shows as one of the whole list.
pub fn absolute(target: Target, start: usize) -> (r: Target)
    requires
        match target {
            Target::Strip(_) => true,
            Target::Row(row) => row + start <= usize::MAX,
            Target::Option(row, _) => row + start <= usize::MAX,
        },
    ensures
        r == from_line(target, start),
{
    match target {
        Target::Strip(cell) => Target::Strip(cell),
        Target::Row(row) => Target::Row(start + row),
        Target::Option(row, option) => Target::Option(start + row, option),
    }
}

/// Whether a press on a target is shown: rows and chips only exist on a panel.
pub fn shows_press(target: Target, mode: &Mode) -> (r: bool)
    ensures
        r == (target is Strip || !(*mode is Writing)),
{
    match target {
        Target::Strip(_) => true,
        _ => !matches!(mode, Mode::Writing),
    }
}

/// How much longer a control that was shown inverted stays so.
pub fn hold_left(shown_for: u64) -> (r: Option<u64>)
    ensures
        r == (if shown_for <= FEEDBACK {
            Some((FEEDBACK - shown_for) as u64)
        } else {
            None
        }),
        r matches Some(left) ==> shown_for + left == 300,
        r is None <==> shown_for > 300,
{
    if shown_for <= FEEDBACK {
        Some(FEEDBACK - shown_for)
    } else {
        None
    }
}

/// Whether a point is inside a rectangle.
pub fn inside(x: u16, y: u16, left: u16, top: u16, width: u16, height: u16) -> (r: bool)
    requires
        left + width <= u16::MAX,
        top + height <= u16::MAX,
    ensures
        r == (left <= x < left + width && top <= y < top + height),
{
    !(x < left || x >= left + width || y < top || y >= top + height)
}

/// A drag selects what lies between the character the finger went down on and the one
/// it was lifted on, and so the same run whichever way it went.
pub proof fn a_drag_selects_what_lies_between(
    taps: Taps,
    at: (u16, u16),
    edge: Option<Edge>,
    index: usize,
    start: usize,
    shift: bool,
    now: u64,
)
    requires
        taps.dragged(at),
    ensures
        match taps.lift_of(at, edge, Some(index), Some(start), shift, now) {
            Lift::Select { from, to } => {
                &&& from <= to
                &&& (from == start && to == index) || (from == index && to == start)
            },
            _ => false,
        },
        taps.lift_of(at, edge, Some(index), Some(start), shift, now) == taps.lift_of(
            at,
            edge,
            Some(start),
            Some(index),
            shift,
            now,
        ),
{
}

/// A finger has dragged exactly where it is lifted more than forty pixels from where it
/// went down, along either axis.
pub proof fn a_drag_is_more_than_forty_pixels(down: (u16, u16), at: (u16, u16), last: Option<(u64, (u16, u16))>)
    ensures
        (Taps { down: Some(down), last }).dragged(at) <==> !(-40 <= down.0 - at.0 <= 40 && -40
            <= down.1 - at.1 <= 40),
        !(Taps { down: None, last }).dragged(at),
{
}

/// What a tap does: in a margin it moves by it, off every character it does nothing,
/// and on one it reaches that character: with Shift the selection is extended to it.
pub proof fn a_tap_reaches_the_character_under_it(
    taps: Taps,
    at: (u16, u16),
    edge: Edge,
    index: usize,
    start: Option<usize>,
    now: u64,
)
    requires
        !taps.dragged(at),
    ensures
        forall|index: Option<usize>, shift: bool|
            #[trigger] taps.lift_of(at, Some(edge), index, start, shift, now) == Lift::Margin(edge),
        forall|shift: bool| #[trigger] taps.lift_of(at, None, None, start, shift, now) == Lift::Nothing,
        taps.lift_of(at, None, Some(index), start, true, now) == Lift::Extend(index),
        taps.lift_of(at, None, Some(index), start, false, now) == Lift::Cursor(index) || taps.lift_of(
            at,
            None,
            Some(index),
            start,
            false,
            now,
        ) == Lift::Word(index),
        taps.last is None ==> taps.lift_of(at, None, Some(index), start, false, now) == Lift::Cursor(
            index,
        ),
{
}

/// Two taps on the page: the first puts the cursor down, and the second selects the word
/// where it comes less than four hundred milliseconds later and no more than forty
/// pixels away; otherwise it puts the cursor down again.
pub proof fn the_second_of_two_taps_selects_the_word(
    taps: Taps,
    first: (u16, u16),
    one: usize,
    then_at: u64,
    second: (u16, u16),
    two: usize,
    start: Option<usize>,
    now: u64,
)
    requires
        taps.last is None,
        !taps.dragged(first),
        then_at <= now,
    ensures
        ({
            let lift = taps.lift_of(first, None, Some(one), start, false, then_at);
            let next = Taps { down: Some(second), last: taps.last_after(lift, first, then_at) };
            let near = -40 <= first.0 - second.0 <= 40 && -40 <= first.1 - second.1 <= 40;
            &&& lift == Lift::Cursor(one)
            &&& next.lift_of(second, None, Some(two), start, false, now) == (if near && now - then_at
                < 400 {
                Lift::Word(two)
            } else {
                Lift::Cursor(two)
            })
        }),
{
}

/// Only a tap that put the cursor down can be the first of two; a lift on nothing
/// leaves the one before it standing.
pub proof fn only_a_placed_cursor_is_a_first_tap(taps: Taps, lift: Lift, at: (u16, u16), now: u64)
    ensures
        lift is Cursor ==> taps.last_after(lift, at, now) == Some((now, at)),
        lift is Nothing ==> taps.last_after(lift, at, now) == taps.last,
        !(lift is Cursor) && !(lift is Nothing) ==> taps.last_after(lift, at, now) is None,
{
}

/// The panel is upright whichever way it is held: the shorter side across, the longer
/// one down.
pub proof fn the_panel_is_upright(size: (u16, u16))
    ensures
        upright(size).0 <= upright(size).1,
        upright(size) == size || upright(size) == (size.1, size.0),
{
}

/// A point beyond an edge is on it, and one within stays where it is.
pub proof fn a_point_is_brought_onto_the_screen(n: int, limit: u16)
    ensures
        0 <= n <= limit ==> between(n, limit) == n,
        n < 0 ==> between(n, limit) == 0,
        n > limit ==> between(n, limit) == limit,
{
}

/// The two side margins go a screen back and a screen on, and the two corners to the ends of
/// the document: each has a mirror image.
pub proof fn the_margins_are_mirror_images(edge: Edge)
    ensures
        crate::editor::deed_of(moves_by(Edge::Back)) == (crate::editor::Deed::Vertical {
            up: true,
            page: true,
            extend: false,
        }),
        crate::editor::deed_of(moves_by(Edge::On)) == (crate::editor::Deed::Vertical {
            up: false,
            page: true,
            extend: false,
        }),
        moves_by(edge) is DocStart <==> edge is Start,
        moves_by(edge) is DocEnd <==> edge is End,
{
}

/// A tap where the strip is to come back brings it back and does nothing else; elsewhere it
/// takes the candidate under it, and with none it is for what it lies on.
pub proof fn what_a_tap_is_for(y: u16, strip_top: u16, n: usize, on_page: bool, other: bool)
    ensures
        y >= strip_top ==> tap_of(true, other, y, strip_top, Some(n), on_page) == Tap::Reveal,
        y >= strip_top ==> tap_of(other, true, y, strip_top, None, on_page) == Tap::Reveal,
        y < strip_top ==> tap_of(true, true, y, strip_top, Some(n), on_page) == Tap::Candidate(n),
        tap_of(false, false, y, strip_top, Some(n), on_page) == Tap::Candidate(n),
        tap_of(false, false, y, strip_top, None, true) == Tap::Page,
        tap_of(false, false, y, strip_top, None, false) == Tap::Control,
{
}

/// A line of the page that shows is so far down the list as the page begins, and the strip
/// is no line of it.
pub proof fn a_line_is_counted_through_the_list(row: usize, option: usize, start: usize, target: Target)
    requires
        row + start <= usize::MAX,
    ensures
        from_line(Target::Row(row), start) matches Target::Row(line) && line - start == row,
        from_line(Target::Option(row, option), start) matches Target::Option(line, chip) && line - start
            == row && chip == option,
        target is Strip ==> from_line(target, start) == target,
{
}

} // verus!
