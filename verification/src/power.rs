//! Keeping the device awake while it is written on.

use vstd::prelude::*;

use crate::text::{
    a_prefix_is_stripped, after_prefix, chars_of, is_text, lemma_trim_nothing, lines, lines_of,
    strip_prefix, trim, trimmed, views, white,
};

verus! {

/// How long without input before the device may sleep, in milliseconds.
pub const IDLE_SLEEP: u64 = 900_000;

/// What the power daemon says of the latch: whether it is held, by the first line
/// that speaks of it from `from` on.
pub open spec fn latch(list: Seq<Seq<char>>, from: int) -> Option<bool>
    decreases list.len() - from,
{
    if from < 0 || from >= list.len() {
        None
    } else {
        match strip_prefix(trim(list[from]), "prevent_screen_saver:"@) {
            Some(value) => Some(trim(value) != "0"@),
            None => latch(list, from + 1),
        }
    }
}

pub fn latched(status: &str) -> (r: Option<bool>)
    ensures
        r == latch(lines(status@), 0),
{
    let text = chars_of(status);
    let list = lines_of(&text);
    let mut i: usize = 0;
    while i < list.len()
        invariant
            i <= list.len(),
            views(list@) == lines(status@),
            latch(lines(status@), 0) == latch(lines(status@), i as int),
        decreases list.len() - i,
    {
        assert(views(list@)[i as int] == list@[i as int]@);
        let line = trimmed(&list[i]);
        if let Some(value) = after_prefix(&line, "prevent_screen_saver:") {
            let value = trimmed(&value);
            return Some(!is_text(&value, "0"));
        }
        i = i + 1;
    }
    None
}

/// Whether the screensaver is being held off, and what is to be asked of the
/// power daemon about it.
#[derive(Debug, Clone, Copy, PartialEq, Eq, Structural)]
pub struct Wake {
    pub holding: bool,
}

impl Wake {
    /// Input arrived. `true` where the latch is to be taken: only when it was not
    /// held.
    pub fn note_input(&mut self) -> (r: bool)
        ensures
            final(self).holding,
            r == !old(self).holding,
    {
        let take = !self.holding;
        self.holding = true;
        take
    }

    /// Time passed with no input. `true` where the latch is to be let go: once,
    /// when it was held and the writer has been away long enough.
    pub fn poll_sleep(&mut self, idle: u64) -> (r: bool)
        ensures
            r == (old(self).holding && idle >= IDLE_SLEEP),
            r ==> idle >= 15 * 60 * 1000,
            old(self).holding && idle >= 15 * 60 * 1000 ==> r,
            final(self).holding == (old(self).holding && !r),
    {
        if !self.holding || idle < IDLE_SLEEP {
            return false;
        }
        self.holding = false;
        true
    }
}

/// The screen saver is held off where the first line that speaks of it says anything but
/// nought; other lines before it and what follows it do not matter.
pub proof fn the_first_line_that_speaks_of_it_decides(
    before: Seq<Seq<char>>,
    value: Seq<char>,
    more: Seq<Seq<char>>,
    from: int,
)
    requires
        0 <= from <= before.len(),
        forall|i: int|
            0 <= i < before.len() ==> strip_prefix(
                trim(#[trigger] before[i]),
                "prevent_screen_saver:"@,
            ) is None,
        value.len() > 0,
        !white(value.last()),
    ensures
        latch(before.push("prevent_screen_saver:"@ + value) + more, from) == Some(
            trim(value) != seq!['0'],
        ),
        latch(before, from) is None,
    decreases before.len() - from,
{
    let line = "prevent_screen_saver:"@ + value;
    let list = before.push(line) + more;
    if from < before.len() {
        assert(list[from] == before[from]);
        the_first_line_that_speaks_of_it_decides(before, value, more, from + 1);
    } else {
        reveal_strlit("prevent_screen_saver:");
        reveal_strlit("0");
        assert("0"@ =~= seq!['0']);
        assert(list[from] == line);
        assert(line[0] == 'p');
        assert(line.last() == value.last());
        lemma_trim_nothing(line);
        a_prefix_is_stripped("prevent_screen_saver:"@, value, line);
    }
}

} // verus!
