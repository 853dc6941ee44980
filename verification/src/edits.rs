//! The edits that are made around what the document's own analysis says: breaking
//! a line, marking a word, ticking a task, setting a heading, and the clipboard.

use vstd::prelude::*;

use crate::text::{chars_of, starts_at, starts_with};

verus! {

/// What Tab inserts.
pub fn indent() -> (r: &'static str)
    ensures
        r@ == "  "@,
{
    "  "
}

/// How a line that is broken goes on.
#[derive(Debug)]
pub enum Continue {
    /// With nothing.
    Break,
    /// With the marker of its list or quotation.
    Marker(String),
    /// The marker it has is empty and goes, so many characters back.
    End(usize),
}

/// How many characters a line break takes back.
pub open spec fn taken_back(how: Continue) -> usize {
    match how {
        Continue::End(back) => back,
        _ => 0,
    }
}

/// What a line break puts in.
pub open spec fn put_in(how: Continue) -> Seq<char> {
    match how {
        Continue::Marker(marker) => seq!['\n'] + marker@,
        _ => seq!['\n'],
    }
}

/// What breaking a line deletes before the cursor, and what it inserts.
pub fn newline(how: Continue) -> (r: (usize, String))
    ensures
        r.0 == taken_back(how),
        r.1@ == put_in(how),
{
    let mut s = String::new();
    s.push('\n');
    match how {
        Continue::Break => {
            assert(s@ =~= seq!['\n']);
            (0, s)
        },
        Continue::Marker(marker) => {
            s.append(marker.as_str());
            assert(s@ =~= seq!['\n'] + marker@);
            (0, s)
        },
        Continue::End(back) => {
            assert(s@ =~= seq!['\n']);
            (back, s)
        },
    }
}

/// What the box of a task is to hold once it was ticked or unticked.
pub open spec fn ticked(done: bool) -> Seq<char> {
    if done {
        " "@
    } else {
        "x"@
    }
}

/// Which character a task's box is, and what goes into it: ticked where it was
/// not, and empty where it was.
pub fn toggle_task(line: usize, task: Option<(usize, bool)>) -> (r: Option<
    (usize, usize, &'static str),
>)
    requires
        task matches Some((at, _)) ==> line + at + 1 <= usize::MAX,
    ensures
        match (task, r) {
            (Some((at, done)), Some((from, to, text))) => from == line + at && to == line + at + 1
                && text@ == ticked(done),
            (None, None) => true,
            _ => false,
        },
{
    match task {
        Some((at, done)) => Some(
            (
                line + at,
                line + at + 1,
                if done {
                    " "
                } else {
                    "x"
                },
            ),
        ),
        None => None,
    }
}

/// Where a text that was wrapped or unwrapped lands, its markers left out.
pub open spec fn inner(start: int, text: Seq<char>, marker: Seq<char>) -> (int, int) {
    if starts_with(text, marker) {
        (start + marker.len(), start + text.len() - marker.len())
    } else {
        (start, start + text.len())
    }
}

/// The span to leave selected, for the next press to undo.
pub fn emphasised(start: usize, text: &str, marker: &str) -> (r: (usize, usize))
    requires
        start + text@.len() <= usize::MAX,
    ensures
        (r.0 as int, r.1 as int) == inner(start as int, text@, marker@),
{
    let text = chars_of(text);
    let marker = chars_of(marker);
    let long: usize = text.len();
    let wide: usize = marker.len();
    if starts_at(&text, &marker, 0) {
        (start + wide, start + long - wide)
    } else {
        (start, start + long)
    }
}

/// Where the cursor goes when a line becomes a heading or stops being one: it
/// keeps its place in the words, no further back than the line's start.
pub open spec fn heading_place(cursor: int, start: int, line: int, replacement: int, len: int) -> int {
    let moved = if cursor + replacement - line < start {
        start
    } else {
        cursor + replacement - line
    };
    if moved < len {
        moved
    } else {
        len
    }
}

pub fn heading_cursor(cursor: usize, start: usize, line: usize, replacement: usize, len: usize) -> (r:
    usize)
    requires
        cursor + replacement <= usize::MAX,
    ensures
        r == heading_place(
            cursor as int,
            start as int,
            line as int,
            replacement as int,
            len as int,
        ),
{
    let ahead: usize = cursor + replacement;
    let moved: usize = if ahead < line || ahead - line < start {
        start
    } else {
        ahead - line
    };
    if moved < len {
        moved
    } else {
        len
    }
}

/// Copying nothing leaves the clipboard alone. `true` where something was copied.
pub fn copy(clipboard: &mut String, selected: Option<String>) -> (r: bool)
    ensures
        r == selected is Some,
        final(clipboard)@ == (match selected {
            Some(text) => text@,
            None => old(clipboard)@,
        }),
{
    match selected {
        Some(text) => {
            *clipboard = text;
            true
        },
        None => false,
    }
}

/// Between two markers stands what was put there, and where there is none it is the whole.
pub proof fn what_stands_between_markers(start: int, text: Seq<char>, marker: Seq<char>)
    ensures
        inner(start, marker + text + marker, marker) == (
            start + marker.len(),
            start + marker.len() + text.len(),
        ),
        !starts_with(text, marker) ==> inner(start, text, marker) == (start, start + text.len()),
        ({
            let wrapped = marker + text + marker;
            let (from, to) = inner(0, wrapped, marker);
            wrapped.subrange(from, to) == text
        }),
{
    let wrapped = marker + text + marker;
    assert(wrapped.subrange(0, marker.len() as int) =~= marker);
    assert(wrapped.subrange(marker.len() as int, marker.len() as int + text.len()) =~= text);
}

/// The cursor stays on its character while the marker before it changes: it is as far from
/// the end of the line as it was. On a character that went, it goes to the start of the line.
pub proof fn the_cursor_stays_on_its_character(
    cursor: int,
    start: int,
    line: int,
    replacement: int,
    len: int,
)
    requires
        0 <= start <= cursor <= start + line,
        0 <= replacement,
        start + replacement <= len,
    ensures
        start <= heading_place(cursor, start, line, replacement, len) <= len,
        start + line - cursor <= replacement ==> start + replacement - heading_place(
            cursor,
            start,
            line,
            replacement,
            len,
        ) == start + line - cursor,
        start + line - cursor > replacement ==> heading_place(cursor, start, line, replacement, len)
            == start,
{
}

/// Every line break breaks the line. One that goes on with a list puts its marker first on
/// the next line, and only one that ends a list takes anything back.
pub proof fn a_line_break_breaks_the_line(how: Continue)
    ensures
        put_in(how).len() > 0 && put_in(how)[0] == '\n',
        how matches Continue::Marker(marker) ==> put_in(how).skip(1) == marker@ && taken_back(how) == 0,
        how is Break ==> put_in(how).len() == 1 && taken_back(how) == 0,
        how matches Continue::End(back) ==> put_in(how).len() == 1 && taken_back(how) == back,
{
    assert(put_in(how).skip(1) =~= (match how {
        Continue::Marker(marker) => marker@,
        _ => seq![],
    }));
}

/// A box holds one character: a cross where the task was open, and a blank where it was done.
pub proof fn a_task_is_ticked_and_unticked()
    ensures
        ticked(false) == seq!['x'],
        ticked(true) == seq![' '],
{
    reveal_strlit("x");
    reveal_strlit(" ");
    assert("x"@ =~= seq!['x']);
    assert(" "@ =~= seq![' ']);
}

} // verus!
