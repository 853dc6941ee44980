//! The find bar: what is looked for and put in its place, which match shows, and
//! what a key means while it is open.

use vstd::prelude::*;

use crate::keymap::Action;
use crate::strip::{cut_somewhere, find_field, held_in, Bar, Field, Readouts};
use crate::text::{chars_of, next_at, lemma_until_is};

verus! {

/// A search in progress.
#[derive(Debug)]
pub struct Find {
    pub query: String,
    /// Every place it occurs, by the first character and the one past the last.
    pub hits: Vec<(usize, usize)>,
    /// Which of them the page is showing.
    pub at: usize,
    /// Whether the bar has its second field.
    pub replacing: bool,
    /// What to put in place of a match.
    pub with: String,
    /// Which field the keys go into.
    pub field: Field,
    /// Whether changing every match was asked for once.
    pub arming_all: bool,
}

/// What a key that the input method did not take does to the open bar.
#[derive(Debug, Clone, Copy, PartialEq, Eq, Structural)]
pub enum Step {
    /// Nothing, and nothing is drawn.
    Nothing,
    /// The bar closes.
    Close,
    /// Go to the next match, or the previous one going back.
    Match { back: bool },
    ChangeOne,
    ChangeAll,
    /// Put the keys in a field.
    Focus(Field),
    /// Show the second field.
    Reveal,
    /// A field was edited; the search is run again where it was the query.
    Edited { query: bool },
    CycleLanguage,
    Refresh,
}

/// What a tap on the cell for every match does.
#[derive(Debug, Clone, Copy, PartialEq, Eq, Structural)]
pub enum All {
    Armed,
    Change,
}

/// A text that is one line.
pub open spec fn one_line(s: Seq<char>) -> bool {
    !s.contains('\n')
}

impl Find {
    /// The bar as it opens: on what was selected, unless that runs over a line,
    /// with the keys in the field that was asked for.
    pub fn open(selected: Option<String>, replacing: bool) -> (r: Find)
        ensures
            r.query@ == (match selected {
                Some(s) => if one_line(s@) {
                    s@
                } else {
                    seq![]
                },
                None => seq![],
            }),
            r.replacing == replacing,
            r.field == (if replacing {
                Field::With
            } else {
                Field::Query
            }),
            r.hits@.len() == 0,
            r.at == 0,
            r.with@.len() == 0,
            !r.arming_all,
    {
        let empty = String::new();
        assert(empty@ =~= seq![]);
        let query = match selected {
            Some(s) => {
                let chars = chars_of(s.as_str());
                let at: usize = next_at(&chars, 0, '\n');
                proof {
                    assert(chars@.skip(0) =~= chars@);
                    lemma_until_is(chars@, '\n');
                    if at < chars.len() {
                        assert(chars@[at as int] == '\n');
                    }
                }
                if at == chars.len() {
                    s
                } else {
                    empty
                }
            },
            None => empty,
        };
        Find {
            query,
            hits: Vec::new(),
            at: 0,
            replacing,
            with: String::new(),
            field: if replacing {
                Field::With
            } else {
                Field::Query
            },
            arming_all: false,
        }
    }

    /// Show the second field and put the keys in it. What was typed stays.
    pub fn show_second(&mut self)
        ensures
            *final(self) == (Find {
                replacing: true,
                field: Field::With,
                arming_all: false,
                ..*old(self)
            }),
    {
        self.replacing = true;
        self.field = Field::With;
        self.arming_all = false;
    }

    /// Put the keys in a field. `true` where they were in the other: the word
    /// being composed belongs to the field it was begun in.
    pub fn focus(&mut self, which: Field) -> (r: bool)
        ensures
            r == (old(self).field != which),
            *final(self) == (Find { field: which, ..*old(self) }),
    {
        if self.field == which {
            return false;
        }
        self.field = which;
        true
    }

    /// The other field, where both show.
    pub fn other(&self) -> (r: Option<Field>)
        ensures
            r == (if !self.replacing {
                None
            } else {
                Some(
                    match self.field {
                        Field::Query => Field::With,
                        Field::With => Field::Query,
                    },
                )
            }),
    {
        if !self.replacing {
            return None;
        }
        Some(
            match self.field {
                Field::Query => Field::With,
                Field::With => Field::Query,
            },
        )
    }

    /// Take the arm off, and tell whether it was on.
    pub fn disarm_all(&mut self) -> (r: bool)
        ensures
            r == old(self).arming_all,
            *final(self) == (Find { arming_all: false, ..*old(self) }),
    {
        let was = self.arming_all;
        self.arming_all = false;
        was
    }

    /// The cell for every match was taken: what comes of it, and the bar after.
    pub open spec fn all_taken(self) -> (All, Find) {
        (
            if self.arming_all {
                All::Change
            } else {
                All::Armed
            },
            Find { arming_all: true, ..self },
        )
    }

    /// A tap on the cell for every match: the first arms it, the second carries it
    /// out.
    pub fn tap_all(&mut self) -> (r: All)
        ensures
            r == old(self).all_taken().0,
            *final(self) == old(self).all_taken().1,
    {
        let was = self.arming_all;
        self.arming_all = true;
        if was {
            All::Change
        } else {
            All::Armed
        }
    }

    /// The match to change: the one that shows, where something is looked for.
    pub open spec fn target(&self) -> Option<(usize, usize)> {
        if self.query@.len() > 0 && self.at < self.hits@.len() {
            Some(self.hits@[self.at as int])
        } else {
            None
        }
    }

    pub fn change_one(&self) -> (r: Option<(usize, usize)>)
        ensures
            r == self.target(),
    {
        let query = chars_of(self.query.as_str());
        if query.len() == 0 || self.at >= self.hits.len() {
            return None;
        }
        Some(self.hits[self.at])
    }

    /// The matches to change, all of them, where something is looked for. They are
    /// out of date from here on, and so is the arm.
    pub fn change_all(&mut self) -> (r: Option<Vec<(usize, usize)>>)
        ensures
            match r {
                Some(hits) => old(self).query@.len() > 0 && hits@ == old(self).hits@ && *final(self) == (
                Find { arming_all: false, hits: final(self).hits, ..*old(self) }) && final(self).hits@.len() == 0,
                None => old(self).query@.len() == 0 && *final(self) == (Find {
                    arming_all: false,
                    ..*old(self)
                }),
            },
    {
        self.arming_all = false;
        let query = chars_of(self.query.as_str());
        if query.len() == 0 {
            return None;
        }
        let mut taken: Vec<(usize, usize)> = Vec::new();
        taken.append(&mut self.hits);
        Some(taken)
    }

    /// Take the matches of a search, and which is nearest; the first where none is
    /// said to be.
    pub fn found(&mut self, hits: Vec<(usize, usize)>, nearest: Option<usize>)
        ensures
            *final(self) == (Find {
                hits,
                at: match nearest {
                    Some(at) => at,
                    None => 0,
                },
                ..*old(self)
            }),
    {
        self.hits = hits;
        self.at = match nearest {
            Some(at) => at,
            None => 0,
        };
    }

    /// Go to a match, where there is one to go to.
    pub fn step_to(&mut self, at: Option<usize>)
        ensures
            *final(self) == (Find {
                at: match at {
                    Some(at) => at,
                    None => old(self).at,
                },
                ..*old(self)
            }),
    {
        if let Some(at) = at {
            self.at = at;
        }
    }

    /// What the page selects: the match that shows, and nothing where there is
    /// none.
    pub fn shown(&self) -> (r: Option<(usize, usize)>)
        ensures
            r == (if self.at < self.hits@.len() {
                Some(self.hits@[self.at as int])
            } else {
                None
            }),
    {
        if self.at < self.hits.len() {
            Some(self.hits[self.at])
        } else {
            None
        }
    }

    /// The text of the field that takes the keys.
    pub open spec fn edited(&self) -> Seq<char> {
        match self.field {
            Field::Query => self.query@,
            Field::With => self.with@,
        }
    }

    /// Nothing but the field that takes the keys differs.
    pub open spec fn same_but_edited(&self, other: &Find) -> bool {
        match self.field {
            Field::Query => *self == (Find { query: self.query, ..*other }),
            Field::With => *self == (Find { with: self.with, ..*other }),
        }
    }

    /// Put text at the end of the field that takes the keys. `true` where it is
    /// the query.
    pub fn append(&mut self, text: &str) -> (r: bool)
        ensures
            r == (old(self).field == Field::Query),
            final(self).edited() == old(self).edited() + text@,
            final(self).same_but_edited(old(self)),
    {
        match self.field {
            Field::Query => {
                let mut s = self.query.clone();
                s.append(text);
                self.query = s;
                true
            },
            Field::With => {
                let mut s = self.with.clone();
                s.append(text);
                self.with = s;
                false
            },
        }
    }

    /// Take the last character off that field.
    pub fn shorten(&mut self) -> (r: bool)
        ensures
            r == (old(self).field == Field::Query),
            final(self).edited() == (if old(self).edited().len() == 0 {
                old(self).edited()
            } else {
                old(self).edited().drop_last()
            }),
            final(self).same_but_edited(old(self)),
    {
        match self.field {
            Field::Query => {
                let mut s = self.query.clone();
                let _ = s.pop();
                self.query = s;
                true
            },
            Field::With => {
                let mut s = self.with.clone();
                let _ = s.pop();
                self.with = s;
                false
            },
        }
    }

    /// What a key does, edits aside.
    pub open spec fn step_of(&self, action: Action, shift: bool) -> Step {
        match action {
            Action::Escape => Step::Close,
            Action::Find => Step::Close,
            Action::Replace => if self.replacing {
                Step::Close
            } else {
                Step::Reveal
            },
            Action::Newline => Step::Match { back: shift },
            Action::CommitTyped => Step::Match { back: shift },
            Action::Change => Step::ChangeOne,
            Action::ChangeAll => Step::ChangeAll,
            Action::Indent => if !self.replacing {
                Step::Nothing
            } else {
                Step::Focus(
                    match self.field {
                        Field::Query => Field::With,
                        Field::With => Field::Query,
                    },
                )
            },
            Action::Backspace => Step::Edited { query: self.field == Field::Query },
            Action::CycleLanguage => Step::CycleLanguage,
            Action::Refresh => Step::Refresh,
            Action::Insert(_) => Step::Edited { query: self.field == Field::Query },
            _ => Step::Nothing,
        }
    }

    /// Whether the arm is on after a key: only the key that carries it out leaves
    /// it.
    pub open spec fn armed_after(&self, action: Action) -> bool {
        self.arming_all && action is ChangeAll
    }

    /// The bar once a key was typed into it: the field that takes the keys, and the
    /// arm.
    pub open spec fn keyed(&self, after: Find, action: Action) -> bool {
        &&& after.arming_all == self.armed_after(action)
        &&& after.edited() == (match action {
            Action::Insert(c) => self.edited().push(c),
            Action::Backspace => if self.edited().len() == 0 {
                self.edited()
            } else {
                self.edited().drop_last()
            },
            _ => self.edited(),
        })
        &&& match self.field {
            Field::Query => after == (Find {
                query: after.query,
                arming_all: after.arming_all,
                ..*self
            }),
            Field::With => after == (Find {
                with: after.with,
                arming_all: after.arming_all,
                ..*self
            }),
        }
        &&& !(action is Insert) && !(action is Backspace) ==> after == (Find {
            arming_all: after.arming_all,
            ..*self
        })
    }

    /// A key that the input method did not take. The arm comes off, unless the key
    /// is the one that carries it out; whether it was on is the first answer.
    pub fn typed(&mut self, action: &Action, shift: bool) -> (r: (bool, Step))
        ensures
            r.0 == (old(self).arming_all && !(*action is ChangeAll)),
            r.1 == old(self).step_of(*action, shift),
            old(self).keyed(*final(self), *action),
    {
        let disarmed = match *action {
            Action::ChangeAll => false,
            _ => self.disarm_all(),
        };
        let step = match *action {
            Action::Escape => Step::Close,
            Action::Find => Step::Close,
            Action::Replace => if self.replacing {
                Step::Close
            } else {
                Step::Reveal
            },
            Action::Newline => Step::Match { back: shift },
            Action::CommitTyped => Step::Match { back: shift },
            Action::Change => Step::ChangeOne,
            Action::ChangeAll => Step::ChangeAll,
            Action::Indent => match self.other() {
                Some(field) => Step::Focus(field),
                None => Step::Nothing,
            },
            Action::Backspace => Step::Edited { query: self.shorten() },
            Action::CycleLanguage => Step::CycleLanguage,
            Action::Refresh => Step::Refresh,
            Action::Insert(c) => {
                let mut s = String::new();
                s.push(c);
                let query = self.append(s.as_str());
                assert(self.edited() =~= old(self).edited().push(c));
                Step::Edited { query }
            },
            _ => Step::Nothing,
        };
        (disarmed, step)
    }
}

/// What the strip has to say of a search and of the page of a list: the numbers of
/// the search, whether a word is being composed into its query, and whether a
/// change of every match is armed.
pub fn readouts(find: &Option<Find>, composing: bool, page: usize, pages: usize) -> (r: Readouts)
    requires
        page < usize::MAX,
    ensures
        r == (Readouts {
            count: match *find {
                Some(f) => Some((f.query@.len() == 0, f.at, f.hits.len())),
                None => None,
            },
            composing: composing && *find is Some && find->0.field == Field::Query,
            armed: *find is Some && find->0.arming_all,
            page: ((page + 1) as usize, pages),
        }),
{
    match find {
        Some(f) => {
            let query = chars_of(f.query.as_str());
            Readouts {
                count: Some((query.len() == 0, f.at, f.hits.len())),
                composing: composing && f.field == Field::Query,
                armed: f.arming_all,
                page: (page + 1, pages),
            }
        },
        None => Readouts { count: None, composing: false, armed: false, page: (page + 1, pages) },
    }
}

/// What a field of the bar holds.
pub open spec fn field_typed(find: Find, field: Field) -> Seq<char> {
    match field {
        Field::Query => find.query@,
        Field::With => find.with@,
    }
}

/// Write into the labels what the fields of the bar say, each cut to its room. How
/// wide a label is is asked of `measure`.
pub fn with_fields<M: Fn(&String) -> u16 + Copy>(
    bars: &Vec<Bar>,
    labels: &mut Vec<String>,
    find: &Find,
    preedit: &str,
    room: u16,
    measure: M,
)
    requires
        bars.len() == old(labels).len(),
        forall|s: &String| measure.requires((s,)),
    ensures
        final(labels).len() == old(labels).len(),
        forall|i: int|
            0 <= i < bars.len() ==> match Field::of_cell(#[trigger] bars[i]) {
                Some(field) => cut_somewhere(
                    measure,
                    field,
                    held_in(field_typed(*find, field), preedit@, find.field == field),
                    find.field == field,
                    room,
                    final(labels)[i]@,
                ),
                None => final(labels)[i] == old(labels)[i],
            },
{
    let mut i: usize = 0;
    while i < bars.len()
        invariant
            i <= bars.len(),
            labels.len() == bars.len(),
            bars.len() == old(labels).len(),
            forall|s: &String| measure.requires((s,)),
            forall|k: int| i <= k < bars.len() ==> labels[k] == old(labels)[k],
            forall|j: int|
                0 <= j < i ==> match Field::of_cell(#[trigger] bars[j]) {
                    Some(field) => cut_somewhere(
                    measure,
                    field,
                    held_in(field_typed(*find, field), preedit@, find.field == field),
                    find.field == field,
                    room,
                    labels[j]@,
                ),
                    None => labels[j] == old(labels)[j],
                },
        decreases bars.len() - i,
    {
        if let Some(field) = Field::of(bars[i]) {
            let focused = find.field == field;
            let typed = match field {
                Field::Query => find.query.as_str(),
                Field::With => find.with.as_str(),
            };
            let label = find_field(field, typed, preedit, focused, room, measure);
            labels[i] = label;
        }
        i = i + 1;
    }
}

/// The arm is off after every key but the one that carries it out: a change of
/// every match is confirmed at once or not at all.
pub proof fn the_arm_does_not_outlive_another_key(find: Find, action: Action, shift: bool)
    requires
        !(action is ChangeAll),
    ensures
        !find.armed_after(action),
        find.step_of(action, shift) != Step::ChangeAll,
{
}

/// The shortcut that opened the bar closes it, and so does the one for its second
/// field once that shows.
pub proof fn the_shortcut_that_opened_the_bar_closes_it(find: Find, shift: bool)
    ensures
        find.step_of(Action::Find, shift) == Step::Close,
        find.step_of(Action::Replace, shift) == (if find.replacing {
            Step::Close
        } else {
            Step::Reveal
        }),
        find.step_of(Action::Escape, shift) == Step::Close,
{
}

/// Tab goes to the field that does not have the keys, and from there back; with one
/// field it goes nowhere.
pub proof fn tab_goes_to_the_other_field_and_back(find: Find, shift: bool)
    ensures
        !find.replacing ==> find.step_of(Action::Indent, shift) == Step::Nothing,
        find.replacing ==> match find.step_of(Action::Indent, shift) {
            Step::Focus(field) => field != find.field && (Find { field, ..find }).step_of(
                Action::Indent,
                shift,
            ) == Step::Focus(find.field),
            _ => false,
        },
{
}

/// Enter alone goes from match to match: on by itself, back with Shift held.
pub proof fn enter_goes_on_and_with_shift_back(find: Find, action: Action, shift: bool)
    ensures
        find.step_of(action, shift) is Match <==> action is Newline || action is CommitTyped,
        find.step_of(action, true) is Match ==> find.step_of(action, true) == (Step::Match {
            back: true,
        }) && find.step_of(action, false) == (Step::Match { back: false }),
{
}

/// No key closes the bar but Esc and a shortcut that asks for what already shows.
pub proof fn what_closes_the_bar(find: Find, action: Action, shift: bool)
    ensures
        find.step_of(action, shift) == Step::Close <==> {
            ||| action is Escape
            ||| action is Find
            ||| action is Replace && find.replacing
        },
        find.step_of(action, shift) == Step::Reveal <==> action is Replace && !find.replacing,
        find.step_of(action, shift) == Step::ChangeOne <==> action is Change,
        find.step_of(action, shift) == Step::ChangeAll <==> action is ChangeAll,
        find.step_of(action, shift) == Step::CycleLanguage <==> action is CycleLanguage,
        find.step_of(action, shift) == Step::Refresh <==> action is Refresh,
        action is Quit || action is Save || action is Left || action is Up || action is Files
            ==> find.step_of(action, shift) == Step::Nothing,
{
}

/// The search is run again exactly where the query is what a key edited.
pub proof fn only_an_edited_query_is_searched_for_again(find: Find, action: Action, shift: bool)
    ensures
        find.step_of(action, shift) is Edited <==> action is Insert || action is Backspace,
        find.step_of(action, shift) == (Step::Edited { query: true }) ==> find.field == Field::Query,
        find.step_of(action, shift) == (Step::Edited { query: false }) ==> find.field == Field::With,
{
}

/// A character that was typed is at the end of the field that has the keys, and the next
/// Backspace takes it off: both fields are what they were.
pub proof fn a_character_typed_is_taken_off_again(find: Find, typed: Find, back: Find, c: char)
    requires
        find.keyed(typed, Action::Insert(c)),
        typed.keyed(back, Action::Backspace),
    ensures
        typed.edited().len() == find.edited().len() + 1,
        typed.edited().last() == c,
        back.query@ == find.query@,
        back.with@ == find.with@,
        find.field == Field::Query ==> typed.with == find.with && typed.query@.last() == c,
        find.field == Field::With ==> typed.query == find.query && typed.with@.last() == c,
        typed.hits == find.hits && typed.at == find.at && typed.field == find.field,
{
    assert(find.edited().push(c).drop_last() =~= find.edited());
}

/// No other key changes what either field holds.
pub proof fn other_keys_leave_the_fields(find: Find, after: Find, action: Action)
    requires
        find.keyed(after, action),
        !(action is Insert),
        !(action is Backspace),
    ensures
        after.query@ == find.query@,
        after.with@ == find.with@,
        after.hits@ == find.hits@,
        after.at == find.at,
{
}

/// The match that is changed is one of those that were found, the one that shows; with
/// nothing looked for there is none.
pub proof fn what_shows_is_what_is_changed(find: Find)
    ensures
        find.target() matches Some(hit) ==> find.hits@.contains(hit) && find.query@.len() > 0,
        find.target() is None <==> find.query@.len() == 0 || find.hits@.len() <= find.at,
        forall|at: usize|
            find.query@.len() > 0 && at < find.hits@.len() ==> #[trigger] (Find { at, ..find }).target()
                == Some(find.hits@[at as int]),
{
}

/// Every match is changed by the second take of the cell and not by the first, and what is
/// looked for stays as it is.
pub proof fn every_match_is_changed_by_the_second_take(find: Find)
    requires
        !find.arming_all,
    ensures
        find.all_taken().0 == All::Armed,
        find.all_taken().1.all_taken().0 == All::Change,
        find.all_taken().1.query == find.query,
        find.all_taken().1.hits == find.hits,
        find.all_taken().1.at == find.at,
{
}

} // verus!
