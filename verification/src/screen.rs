//! What is on the screen: the lines of the panel that shows, and the page with the
//! word being composed in it.

use vstd::prelude::*;

use crate::composition::{display, document_index, in_document, page_composition, spliced, Composition, Sink};
use crate::config::{lines_of, Config, Line};
use crate::editor::Editor;
use crate::files::{
    file_items, file_line, outline_items, outline_line, panel_status, section_at, status_text,
    title, titled,
};
use crate::help::{help_items, help_line, HELP_LINES};
use crate::panel::{
    heading, item_texts, length_of, Item, ItemText, Mode, Paging, PanelFocus,
};
use crate::strip::{strip_visible, visible};
use crate::text::chars_of;

verus! {

/// A panel as it is drawn.
#[derive(Debug)]
pub struct PanelPicture {
    pub title: &'static str,
    pub status: String,
    /// The lines of the page that shows.
    pub items: Vec<Item>,
    /// Where the keyboard is on that page.
    pub focus: Option<PanelFocus>,
}

/// The page as it is drawn.
#[derive(Debug)]
pub struct PagePicture {
    /// The document with the word being composed in it.
    pub chars: Vec<char>,
    /// Where that word stands.
    pub span: Option<(usize, usize)>,
    pub cursor: usize,
    pub selection: Option<(usize, usize)>,
    /// The page lands somewhere chosen from the outline.
    pub landing: bool,
    /// Nothing that was drawn stands.
    pub fresh: bool,
    /// The strip is on the screen.
    pub strip: bool,
}

/// The lines of a list that a page shows.
pub open spec fn on_screen(list: Seq<ItemText>, start: int, end: int) -> Seq<ItemText> {
    let to = if end < list.len() {
        end
    } else {
        list.len() as int
    };
    if start < to {
        list.subrange(start, to)
    } else {
        seq![]
    }
}

/// The lines of a list that a page shows.
pub fn visible_items(items: Vec<Item>, start: usize, end: usize) -> (r: Vec<Item>)
    ensures
        item_texts(r@) == on_screen(item_texts(items@), start as int, end as int),
{
    let ghost all = items@;
    if start >= items.len() || start >= end {
        let none: Vec<Item> = Vec::new();
        assert(item_texts(none@) =~= seq![]);
        return none;
    }
    let mut items = items;
    let mut shown = items.split_off(start);
    shown.truncate(end - start);
    assert(item_texts(shown@) =~= on_screen(item_texts(all), start as int, end as int));
    shown
}

impl Editor {
    /// Every line of the panel that shows. `words` is how long the open document
    /// is.
    pub open spec fn lines(
        &self,
        config: Config,
        words: Seq<char>,
        cursor: usize,
        version: Seq<char>,
    ) -> Seq<ItemText> {
        match self.mode {
            Mode::Files(files) => Seq::new(
                files@.len(),
                |i: int| file_line(files@[i], self.path, self.arming, words),
            ),
            Mode::Config => config.all_lines().map_values(|l: Line| l.0),
            Mode::Help => Seq::new(HELP_LINES as nat, |i: int| help_line(i, version)),
            Mode::Outline(sections) => if sections@.len() == 0 {
                seq![ItemText::Heading("No headings in this document"@)]
            } else {
                Seq::new(
                    sections@.len(),
                    |i: int| outline_line(sections@[i], section_at(sections@, cursor) == Some(i)),
                )
            },
            Mode::Writing => seq![],
            Mode::Naming { .. } => seq![],
        }
    }

    /// The lines of the panel that shows.
    pub fn panel_items(&self, config: &Config, words: &str, cursor: usize, version: &str) -> (r: Vec<
        Item,
    >)
        requires
            config.wf(),
        ensures
            item_texts(r@) == self.lines(*config, words@, cursor, version@),
    {
        let ghost want = self.lines(*config, words@, cursor, version@);
        match &self.mode {
            Mode::Files(files) => {
                let list = file_items(files, &self.path, &self.arming, words);
                assert(item_texts(list@) =~= want);
                list
            },
            Mode::Config => first_parts(config.config_items()),
            Mode::Help => {
                let list = help_items(version);
                assert(item_texts(list@) =~= want);
                list
            },
            Mode::Outline(sections) => if sections.len() == 0 {
                let mut list: Vec<Item> = Vec::new();
                list.push(heading("No headings in this document"));
                assert(item_texts(list@) =~= want);
                list
            } else {
                let list = outline_items(sections, cursor);
                assert(item_texts(list@) =~= want);
                list
            },
            _ => {
                let list: Vec<Item> = Vec::new();
                assert(item_texts(list@) =~= want);
                list
            },
        }
    }

    /// The word being composed as far as the page is concerned.
    pub open spec fn on_the_page(&self, word: Composition) -> Seq<char> {
        if self.sinks() == Sink::Page {
            word.preedit@
        } else {
            seq![]
        }
    }

    /// The place in the document of a place on the screen.
    pub fn document_index(&self, word: &Composition, display: usize, cursor: usize) -> (r: usize)
        ensures
            r == in_document(display as int, cursor as int, self.on_the_page(*word).len() as int),
    {
        let preedit = chars_of(page_composition(word.preedit.as_str(), self.sink()));
        document_index(display, cursor, preedit.len())
    }

    /// The panel that shows, page by page. What it says at the top is what was just
    /// reported, or else what the panel says of itself. Drawing it covers the page.
    pub fn panel_picture(
        &mut self,
        word: &Composition,
        config: &Config,
        words: &str,
        cursor: usize,
        version: &str,
        capacity: usize,
        status: Option<&str>,
    ) -> (r: PanelPicture)
        requires
            config.wf(),
            old(self).lines(*config, words@, cursor, version@).len() + capacity < usize::MAX,
        ensures
            ({
                let lines = old(self).lines(*config, words@, cursor, version@);
                let cap = if capacity < 1 {
                    1int
                } else {
                    capacity as int
                };
                let page = old(self).paging.shown(lines.len() as int, capacity as int);
                let start = page * cap;
                &&& *final(self) == (Editor {
                    paging: Paging { page: page as usize, ..old(self).paging },
                    stale: true,
                    ..*old(self)
                })
                &&& r.title@ == titled(old(self).mode)
                &&& r.status@ == (match status {
                    Some(text) => text@,
                    None => status_text(old(self).mode, word.preedit@, start, start + cap),
                })
                &&& item_texts(r.items@) == on_screen(lines, start, start + cap)
                &&& r.focus == (match old(self).paging.focus {
                    Some(focus) => if start <= focus.row < start + cap {
                        Some(PanelFocus { row: (focus.row - start) as usize, chip: focus.chip })
                    } else {
                        None
                    },
                    None => None,
                })
            }),
    {
        let items = self.panel_items(config, words, cursor, version);
        assert(item_texts(items@).len() == items@.len());
        let (start, end) = self.paging.window(items.len(), capacity);
        self.stale = true;
        let said = match status {
            Some(text) => text.to_owned(),
            None => panel_status(&self.mode, word.preedit.as_str(), start, end),
        };
        let focus = self.paging.visible_focus(start, end);
        PanelPicture {
            title: title(&self.mode),
            status: said,
            items: visible_items(items, start, end),
            focus,
        }
    }

    /// The page that is to be drawn. A word being composed into it stands at the
    /// cursor, moves what follows, and hides the selection. Drawing it leaves
    /// nothing stale.
    pub fn page_picture(
        &mut self,
        word: &Composition,
        chars: Vec<char>,
        cursor: usize,
        selection: Option<(usize, usize)>,
    ) -> (r: PagePicture)
        requires
            chars.len() + word.preedit@.len() <= usize::MAX,
            cursor <= chars.len(),
        ensures
            ({
                let preedit = old(self).on_the_page(*word);
                &&& r.chars@ == spliced(chars@, cursor as int, preedit)
                &&& r.span == (if preedit.len() == 0 {
                    None
                } else {
                    Some((cursor, (cursor + preedit.len()) as usize))
                })
                &&& r.cursor == cursor + preedit.len()
                &&& r.selection == (if preedit.len() == 0 {
                    selection
                } else {
                    None
                })
                &&& r.landing == old(self).landing
                &&& r.fresh == old(self).stale
                &&& r.strip == visible(
                    old(self).chrome_hidden,
                    old(self).keyboard_present,
                    old(self).finding(),
                    old(self).mode is Writing,
                )
                &&& *final(self) == (Editor { landing: false, stale: false, ..*old(self) })
            }),
    {
        let preedit = page_composition(word.preedit.as_str(), self.sink());
        let typed = chars_of(preedit);
        let composing: usize = typed.len();
        let (shown, span) = display(chars, cursor, preedit);
        let landing = self.landing;
        let fresh = self.stale;
        self.landing = false;
        self.stale = false;
        let strip = strip_visible(
            self.chrome_hidden,
            self.keyboard_present,
            self.find.is_some(),
            matches!(self.mode, Mode::Writing),
        );
        PagePicture {
            chars: shown,
            span,
            cursor: cursor + composing,
            selection: if composing == 0 {
                selection
            } else {
                None
            },
            landing,
            fresh,
            strip,
        }
    }
}

fn first_parts(list: Vec<(Item, crate::config::ConfigRow)>) -> (r: Vec<Item>)
    ensures
        item_texts(r@) == lines_of(list@).map_values(|l: Line| l.0),
{
    let mut list = list;
    let ghost all = list@;
    let mut out: Vec<Item> = Vec::new();
    let mut left: usize = list.len();
    while left > 0
        invariant
            left == list.len(),
            left + out.len() == all.len(),
            list@ == all.take(left as int),
            forall|k: int|
                0 <= k < out.len() ==> (#[trigger] out@[k])@ == all[all.len() - 1 - k].0@,
        decreases left,
    {
        if let Some((item, _row)) = list.pop() {
            out.push(item);
        }
        left = left - 1;
        assert(list@ =~= all.take(left as int));
    }
    let r = reversed(out);
    assert(item_texts(r@) =~= lines_of(all).map_values(|l: Line| l.0));
    r
}

fn reversed(list: Vec<Item>) -> (r: Vec<Item>)
    ensures
        r.len() == list.len(),
        forall|k: int| 0 <= k < r.len() ==> #[trigger] r@[k] == list@[list.len() - 1 - k],
{
    let mut list = list;
    let ghost all = list@;
    let mut out: Vec<Item> = Vec::new();
    let mut left: usize = list.len();
    while left > 0
        invariant
            left == list.len(),
            left + out.len() == all.len(),
            list@ == all.take(left as int),
            forall|k: int| 0 <= k < out.len() ==> #[trigger] out@[k] == all[all.len() - 1 - k],
        decreases left,
    {
        if let Some(item) = list.pop() {
            out.push(item);
        }
        left = left - 1;
        assert(list@ =~= all.take(left as int));
    }
    out
}

/// The pages of a panel are counted by the lines that are drawn on them.
pub proof fn the_pages_hold_the_lines(
    editor: Editor,
    config: Config,
    words: Seq<char>,
    cursor: usize,
    version: Seq<char>,
)
    ensures
        editor.lines(config, words, cursor, version).len() == length_of(
            editor.mode,
            config.all_lines().len() as int,
            HELP_LINES as int,
        ),
{
}

/// What shows of a list is its lines from the first of the page to the last that there is.
pub proof fn what_shows_of_a_list(list: Seq<ItemText>, start: int, end: int, i: int)
    requires
        0 <= start <= end,
    ensures
        0 <= i < on_screen(list, start, end).len() ==> on_screen(list, start, end)[i] == list[start + i],
        start <= i < end && i < list.len() ==> i - start < on_screen(list, start, end).len(),
        on_screen(list, start, end).len() <= end - start,
        on_screen(list, 0, list.len() as int) == list,
{
    assert(on_screen(list, 0, list.len() as int) =~= list);
}

} // verus!
