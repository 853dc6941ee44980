//! The page of what the keys and the glass do.

use vstd::prelude::*;

use crate::panel::{fact, heading, Item, ItemText};

verus! {

/// How many lines the page has.
pub const HELP_LINES: usize = 67;

/// What a line is about.
pub open spec fn help_label(i: int) -> Seq<char> {
    if i == 0 {
        "Writing"@
    } else if i == 1 {
        "Save now"@
    } else if i == 2 {
        "Undo, redo"@
    } else if i == 3 {
        "Bold, italic"@
    } else if i == 4 {
        "Highlight"@
    } else if i == 5 {
        "Heading level"@
    } else if i == 6 {
        "Focus on this sentence"@
    } else if i == 7 {
        "Larger, smaller type"@
    } else if i == 8 {
        "Back to the usual size"@
    } else if i == 9 {
        "Margins"@
    } else if i == 10 {
        "Getting around"@
    } else if i == 11 {
        "Find, then step through"@
    } else if i == 12 {
        "Step back through matches"@
    } else if i == 13 {
        "Find and replace"@
    } else if i == 14 {
        "Move between the two fields"@
    } else if i == 15 {
        "Change this match, change all"@
    } else if i == 16 {
        "Sections of this document"@
    } else if i == 17 {
        "Word, line, document"@
    } else if i == 18 {
        "Select as you go"@
    } else if i == 19 {
        "Documents, new document"@
    } else if i == 20 {
        "Settings"@
    } else if i == 21 {
        "Through a list, and take one"@
    } else if i == 22 {
        "Values on a setting, pages on a list"@
    } else if i == 23 {
        "Delete the document you are on"@
    } else if i == 24 {
        "Clear the screen"@
    } else if i == 25 {
        "Close it again"@
    } else if i == 26 {
        "Leave karyll"@
    } else if i == 27 {
        "Writing in Chinese, Japanese and Korean"@
    } else if i == 28 {
        "Switch input source"@
    } else if i == 29 {
        "Take a candidate"@
    } else if i == 30 {
        "Take the letters as typed"@
    } else if i == 31 {
        "Drop the half-typed word"@
    } else if i == 32 {
        "Take one jamo back, in Korean"@
    } else if i == 33 {
        "Emphasis, marked not slanted"@
    } else if i == 34 {
        "Your keyboard"@
    } else if i == 35 {
        "Ctrl and ⌘"@
    } else if i == 36 {
        "Find"@
    } else if i == 37 {
        "The reading light"@
    } else if i == 38 {
        "Caps Lock"@
    } else if i == 39 {
        "Beside the space bar"@
    } else if i == 40 {
        "Both printed on that key"@
    } else if i == 41 {
        "Changing what it sends"@
    } else if i == 42 {
        "Settings, from any keyboard"@
    } else if i == 43 {
        "Touch and pen"@
    } else if i == 44 {
        "Back a screen, on a screen"@
    } else if i == 45 {
        "Start, end of the document"@
    } else if i == 46 {
        "Bring the buttons back"@
    } else if i == 47 {
        "Select a word"@
    } else if i == 48 {
        "Select a run"@
    } else if i == 49 {
        "Extend a selection"@
    } else if i == 50 {
        "The pen"@
    } else if i == 51 {
        "Delete a document"@
    } else if i == 52 {
        "Replace every match"@
    } else if i == 53 {
        "Markdown it understands"@
    } else if i == 54 {
        "Headings"@
    } else if i == 55 {
        "Bold, italic"@
    } else if i == 56 {
        "Highlighted"@
    } else if i == 57 {
        "Struck out"@
    } else if i == 58 {
        "Lists"@
    } else if i == 59 {
        "Things to do"@
    } else if i == 60 {
        "Tick the one you are on"@
    } else if i == 61 {
        "Quote, rule"@
    } else if i == 62 {
        "Link, code"@
    } else if i == 63 {
        "Your writing"@
    } else if i == 64 {
        "Documents are kept in"@
    } else if i == 65 {
        "Saved by itself"@
    } else {
        "Version"@
    }
}

/// What does it; nothing for a heading.
pub open spec fn help_detail(i: int, version: Seq<char>) -> Option<Seq<char>> {
    if i == 0 {
        None
    } else if i == 1 {
        Some("Ctrl/⌘ + S"@)
    } else if i == 2 {
        Some("Ctrl/⌘ + Z,  Shift + Z"@)
    } else if i == 3 {
        Some("Ctrl/⌘ + B,  I"@)
    } else if i == 4 {
        Some("Ctrl/⌘ + Shift + H"@)
    } else if i == 5 {
        Some("Ctrl/⌘ + 1 … 6"@)
    } else if i == 6 {
        Some("Ctrl/⌘ + D"@)
    } else if i == 7 {
        Some("Ctrl/⌘ + +,  Ctrl/⌘ + -"@)
    } else if i == 8 {
        Some("Ctrl/⌘ + 0"@)
    } else if i == 9 {
        Some("Ctrl/⌘ + M"@)
    } else if i == 10 {
        None
    } else if i == 11 {
        Some("Ctrl/⌘ + F,  Enter"@)
    } else if i == 12 {
        Some("Shift + Enter"@)
    } else if i == 13 {
        Some("Ctrl/⌘ + Shift + F"@)
    } else if i == 14 {
        Some("Tab"@)
    } else if i == 15 {
        Some("Ctrl/⌘ + Enter,  + Shift"@)
    } else if i == 16 {
        Some("Ctrl/⌘ + Shift + O"@)
    } else if i == 17 {
        Some("Ctrl + ←,  ⌘ + ←,  ⌘ + ↑"@)
    } else if i == 18 {
        Some("Shift + any move"@)
    } else if i == 19 {
        Some("Ctrl/⌘ + O,  Ctrl/⌘ + N"@)
    } else if i == 20 {
        Some("Ctrl/⌘ + ,"@)
    } else if i == 21 {
        Some("↑ ↓,  Enter"@)
    } else if i == 22 {
        Some("← →"@)
    } else if i == 23 {
        Some("Backspace, twice"@)
    } else if i == 24 {
        Some("Ctrl/⌘ + R"@)
    } else if i == 25 {
        Some("The same shortcut, or Esc"@)
    } else if i == 26 {
        Some("Ctrl/⌘ + Q"@)
    } else if i == 27 {
        None
    } else if i == 28 {
        Some("Ctrl/⌘ + Space"@)
    } else if i == 29 {
        Some("Space, or 1 … 0"@)
    } else if i == 30 {
        Some("Shift + Enter"@)
    } else if i == 31 {
        Some("Esc"@)
    } else if i == 32 {
        Some("Backspace"@)
    } else if i == 33 {
        Some("Ctrl/⌘ + I"@)
    } else if i == 34 {
        None
    } else if i == 35 {
        Some("The same. Every shortcut takes either"@)
    } else if i == 36 {
        Some("The magnifier key"@)
    } else if i == 37 {
        Some("The sun keys"@)
    } else if i == 38 {
        Some("AB or ab, beside the cursor"@)
    } else if i == 39 {
        Some("Settings says which it sends"@)
    } else if i == 40 {
        Some("The keyboard chooses which"@)
    } else if i == 41 {
        Some("The keyboard's own shortcut"@)
    } else if i == 42 {
        Some("Ctrl + ,"@)
    } else if i == 43 {
        None
    } else if i == 44 {
        Some("Tap the left, right margin"@)
    } else if i == 45 {
        Some("Tap the top, the foot"@)
    } else if i == 46 {
        Some("Tap the foot of the page"@)
    } else if i == 47 {
        Some("Tap it twice"@)
    } else if i == 48 {
        Some("Press at one end, lift at the other"@)
    } else if i == 49 {
        Some("Shift + tap"@)
    } else if i == 50 {
        Some("Places the cursor. It does not write."@)
    } else if i == 51 {
        Some("Its Delete chip, twice"@)
    } else if i == 52 {
        Some("Its All chip, twice"@)
    } else if i == 53 {
        None
    } else if i == 54 {
        Some("# … ######"@)
    } else if i == 55 {
        Some("**bold**  *italic*"@)
    } else if i == 56 {
        Some("==mark this=="@)
    } else if i == 57 {
        Some("~~cut this~~"@)
    } else if i == 58 {
        Some("-  *  1."@)
    } else if i == 59 {
        Some("- [ ]   done: - [x]"@)
    } else if i == 60 {
        Some("Ctrl/⌘ + Enter"@)
    } else if i == 61 {
        Some(">  ---"@)
    } else if i == 62 {
        Some("[text](url)  `code`"@)
    } else if i == 63 {
        None
    } else if i == 64 {
        Some("/mnt/us/karyll"@)
    } else if i == 65 {
        Some("A few seconds after you stop typing"@)
    } else {
        Some(version)
    }
}

/// A line of the page.
pub open spec fn help_line(i: int, version: Seq<char>) -> ItemText {
    match help_detail(i, version) {
        None => ItemText::Heading(help_label(i)),
        Some(detail) => ItemText::Row { label: help_label(i), detail, on: false, action: None },
    }
}

fn label(i: usize) -> (r: &'static str)
    ensures
        r@ == help_label(i as int),
{
    if i == 0 {
        "Writing"
    } else if i == 1 {
        "Save now"
    } else if i == 2 {
        "Undo, redo"
    } else if i == 3 {
        "Bold, italic"
    } else if i == 4 {
        "Highlight"
    } else if i == 5 {
        "Heading level"
    } else if i == 6 {
        "Focus on this sentence"
    } else if i == 7 {
        "Larger, smaller type"
    } else if i == 8 {
        "Back to the usual size"
    } else if i == 9 {
        "Margins"
    } else if i == 10 {
        "Getting around"
    } else if i == 11 {
        "Find, then step through"
    } else if i == 12 {
        "Step back through matches"
    } else if i == 13 {
        "Find and replace"
    } else if i == 14 {
        "Move between the two fields"
    } else if i == 15 {
        "Change this match, change all"
    } else if i == 16 {
        "Sections of this document"
    } else if i == 17 {
        "Word, line, document"
    } else if i == 18 {
        "Select as you go"
    } else if i == 19 {
        "Documents, new document"
    } else if i == 20 {
        "Settings"
    } else if i == 21 {
        "Through a list, and take one"
    } else if i == 22 {
        "Values on a setting, pages on a list"
    } else if i == 23 {
        "Delete the document you are on"
    } else if i == 24 {
        "Clear the screen"
    } else if i == 25 {
        "Close it again"
    } else if i == 26 {
        "Leave karyll"
    } else if i == 27 {
        "Writing in Chinese, Japanese and Korean"
    } else if i == 28 {
        "Switch input source"
    } else if i == 29 {
        "Take a candidate"
    } else if i == 30 {
        "Take the letters as typed"
    } else if i == 31 {
        "Drop the half-typed word"
    } else if i == 32 {
        "Take one jamo back, in Korean"
    } else if i == 33 {
        "Emphasis, marked not slanted"
    } else if i == 34 {
        "Your keyboard"
    } else if i == 35 {
        "Ctrl and ⌘"
    } else if i == 36 {
        "Find"
    } else if i == 37 {
        "The reading light"
    } else if i == 38 {
        "Caps Lock"
    } else if i == 39 {
        "Beside the space bar"
    } else if i == 40 {
        "Both printed on that key"
    } else if i == 41 {
        "Changing what it sends"
    } else if i == 42 {
        "Settings, from any keyboard"
    } else if i == 43 {
        "Touch and pen"
    } else if i == 44 {
        "Back a screen, on a screen"
    } else if i == 45 {
        "Start, end of the document"
    } else if i == 46 {
        "Bring the buttons back"
    } else if i == 47 {
        "Select a word"
    } else if i == 48 {
        "Select a run"
    } else if i == 49 {
        "Extend a selection"
    } else if i == 50 {
        "The pen"
    } else if i == 51 {
        "Delete a document"
    } else if i == 52 {
        "Replace every match"
    } else if i == 53 {
        "Markdown it understands"
    } else if i == 54 {
        "Headings"
    } else if i == 55 {
        "Bold, italic"
    } else if i == 56 {
        "Highlighted"
    } else if i == 57 {
        "Struck out"
    } else if i == 58 {
        "Lists"
    } else if i == 59 {
        "Things to do"
    } else if i == 60 {
        "Tick the one you are on"
    } else if i == 61 {
        "Quote, rule"
    } else if i == 62 {
        "Link, code"
    } else if i == 63 {
        "Your writing"
    } else if i == 64 {
        "Documents are kept in"
    } else if i == 65 {
        "Saved by itself"
    } else {
        "Version"
    }
}

fn detail<'a>(i: usize, version: &'a str) -> (r: Option<&'a str>)
    ensures
        match r {
            Some(s) => help_detail(i as int, version@) == Some(s@),
            None => help_detail(i as int, version@) is None,
        },
{
    if i == 0 {
        None
    } else if i == 1 {
        Some("Ctrl/⌘ + S")
    } else if i == 2 {
        Some("Ctrl/⌘ + Z,  Shift + Z")
    } else if i == 3 {
        Some("Ctrl/⌘ + B,  I")
    } else if i == 4 {
        Some("Ctrl/⌘ + Shift + H")
    } else if i == 5 {
        Some("Ctrl/⌘ + 1 … 6")
    } else if i == 6 {
        Some("Ctrl/⌘ + D")
    } else if i == 7 {
        Some("Ctrl/⌘ + +,  Ctrl/⌘ + -")
    } else if i == 8 {
        Some("Ctrl/⌘ + 0")
    } else if i == 9 {
        Some("Ctrl/⌘ + M")
    } else if i == 10 {
        None
    } else if i == 11 {
        Some("Ctrl/⌘ + F,  Enter")
    } else if i == 12 {
        Some("Shift + Enter")
    } else if i == 13 {
        Some("Ctrl/⌘ + Shift + F")
    } else if i == 14 {
        Some("Tab")
    } else if i == 15 {
        Some("Ctrl/⌘ + Enter,  + Shift")
    } else if i == 16 {
        Some("Ctrl/⌘ + Shift + O")
    } else if i == 17 {
        Some("Ctrl + ←,  ⌘ + ←,  ⌘ + ↑")
    } else if i == 18 {
        Some("Shift + any move")
    } else if i == 19 {
        Some("Ctrl/⌘ + O,  Ctrl/⌘ + N")
    } else if i == 20 {
        Some("Ctrl/⌘ + ,")
    } else if i == 21 {
        Some("↑ ↓,  Enter")
    } else if i == 22 {
        Some("← →")
    } else if i == 23 {
        Some("Backspace, twice")
    } else if i == 24 {
        Some("Ctrl/⌘ + R")
    } else if i == 25 {
        Some("The same shortcut, or Esc")
    } else if i == 26 {
        Some("Ctrl/⌘ + Q")
    } else if i == 27 {
        None
    } else if i == 28 {
        Some("Ctrl/⌘ + Space")
    } else if i == 29 {
        Some("Space, or 1 … 0")
    } else if i == 30 {
        Some("Shift + Enter")
    } else if i == 31 {
        Some("Esc")
    } else if i == 32 {
        Some("Backspace")
    } else if i == 33 {
        Some("Ctrl/⌘ + I")
    } else if i == 34 {
        None
    } else if i == 35 {
        Some("The same. Every shortcut takes either")
    } else if i == 36 {
        Some("The magnifier key")
    } else if i == 37 {
        Some("The sun keys")
    } else if i == 38 {
        Some("AB or ab, beside the cursor")
    } else if i == 39 {
        Some("Settings says which it sends")
    } else if i == 40 {
        Some("The keyboard chooses which")
    } else if i == 41 {
        Some("The keyboard's own shortcut")
    } else if i == 42 {
        Some("Ctrl + ,")
    } else if i == 43 {
        None
    } else if i == 44 {
        Some("Tap the left, right margin")
    } else if i == 45 {
        Some("Tap the top, the foot")
    } else if i == 46 {
        Some("Tap the foot of the page")
    } else if i == 47 {
        Some("Tap it twice")
    } else if i == 48 {
        Some("Press at one end, lift at the other")
    } else if i == 49 {
        Some("Shift + tap")
    } else if i == 50 {
        Some("Places the cursor. It does not write.")
    } else if i == 51 {
        Some("Its Delete chip, twice")
    } else if i == 52 {
        Some("Its All chip, twice")
    } else if i == 53 {
        None
    } else if i == 54 {
        Some("# … ######")
    } else if i == 55 {
        Some("**bold**  *italic*")
    } else if i == 56 {
        Some("==mark this==")
    } else if i == 57 {
        Some("~~cut this~~")
    } else if i == 58 {
        Some("-  *  1.")
    } else if i == 59 {
        Some("- [ ]   done: - [x]")
    } else if i == 60 {
        Some("Ctrl/⌘ + Enter")
    } else if i == 61 {
        Some(">  ---")
    } else if i == 62 {
        Some("[text](url)  `code`")
    } else if i == 63 {
        None
    } else if i == 64 {
        Some("/mnt/us/karyll")
    } else if i == 65 {
        Some("A few seconds after you stop typing")
    } else {
        Some(version)
    }
}

/// The lines of the page, the last of which is the version of the editor.
pub fn help_items(version: &str) -> (r: Vec<Item>)
    ensures
        r.len() == HELP_LINES,
        forall|i: int| 0 <= i < HELP_LINES ==> (#[trigger] r[i])@ == help_line(i, version@),
{
    let mut out: Vec<Item> = Vec::new();
    let mut i: usize = 0;
    while i < HELP_LINES
        invariant
            i <= HELP_LINES,
            out.len() == i,
            forall|k: int| 0 <= k < i ==> (#[trigger] out[k])@ == help_line(k, version@),
        decreases HELP_LINES - i,
    {
        match detail(i, version) {
            None => out.push(heading(label(i))),
            Some(detail) => out.push(fact(label(i), detail)),
        }
        i = i + 1;
    }
    out
}

} // verus!
