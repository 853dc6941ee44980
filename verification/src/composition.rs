//! The word being composed: what an input method has made of the keys so far,
//! what it offers, and where finished text goes.

use vstd::prelude::*;
use vstd::slice::slice_subrange;

use crate::hangul::Korean;
use crate::ime::{
    compose, compose_of, left_of, Compose, Ime, Punctuation, Rest, RestText, Script, BACK,
};
use crate::keymap::Action;
use crate::language::Language;
use crate::text::{chars_of, texts};

verus! {

// ---------------------------------------------------------------------------
// Where text goes
// ---------------------------------------------------------------------------

/// Where typed text lands.
#[derive(Debug, Clone, Copy, PartialEq, Eq, Structural)]
pub enum Sink {
    /// The document.
    Page,
    /// The find bar's field.
    Find,
    /// The name being typed.
    Name,
}

/// A name outranks the find bar, which outranks the page.
pub open spec fn sink_of(naming: bool, finding: bool) -> Sink {
    if naming {
        Sink::Name
    } else if finding {
        Sink::Find
    } else {
        Sink::Page
    }
}

pub fn sink_for(naming: bool, finding: bool) -> (r: Sink)
    ensures
        r == sink_of(naming, finding),
{
    if naming {
        Sink::Name
    } else if finding {
        Sink::Find
    } else {
        Sink::Page
    }
}

/// The word being composed as far as the document is concerned: only the page
/// splices it into the text.
pub fn page_composition(preedit: &str, sink: Sink) -> (r: &str)
    ensures
        r@ == (if sink == Sink::Page {
            preedit@
        } else {
            seq![]
        }),
{
    proof {
        reveal_strlit("");
    }
    if sink == Sink::Page {
        preedit
    } else {
        assert(""@ =~= seq![]);
        ""
    }
}

/// A place on the screen as a place in the document, with so many characters
/// composed at the cursor. Those characters themselves are at the cursor.
pub open spec fn in_document(display: int, cursor: int, preedit: int) -> int {
    if display <= cursor {
        display
    } else if display - preedit < cursor {
        cursor
    } else {
        display - preedit
    }
}

pub fn document_index(display: usize, cursor: usize, preedit: usize) -> (r: usize)
    ensures
        r == in_document(display as int, cursor as int, preedit as int),
{
    if display <= cursor {
        display
    } else {
        let back: usize = if display >= preedit {
            display - preedit
        } else {
            0
        };
        if back < cursor {
            cursor
        } else {
            back
        }
    }
}

/// The document as it appears, with a word composed at the cursor.
pub open spec fn spliced(chars: Seq<char>, cursor: int, preedit: Seq<char>) -> Seq<char> {
    let at = if cursor < chars.len() {
        cursor
    } else {
        chars.len() as int
    };
    chars.take(at) + preedit + chars.skip(at)
}

/// The document as it appears, and where the word being composed stands in it.
pub fn display(chars: Vec<char>, cursor: usize, preedit: &str) -> (r: (
    Vec<char>,
    Option<(usize, usize)>,
))
    requires
        chars.len() + preedit@.len() <= usize::MAX,
    ensures
        r.0@ == spliced(chars@, cursor as int, preedit@),
        r.1 == (if preedit@.len() == 0 {
            None
        } else {
            let at = if cursor < chars.len() {
                cursor as int
            } else {
                chars.len() as int
            };
            Some((at as usize, (at + preedit@.len()) as usize))
        }),
{
    let word = chars_of(preedit);
    if word.len() == 0 {
        assert(spliced(chars@, cursor as int, preedit@) =~= chars@);
        return (chars, None);
    }
    let at: usize = if cursor < chars.len() {
        cursor
    } else {
        chars.len()
    };
    let mut out: Vec<char> = crate::text::part(&chars, 0, at);
    let mut middle = chars_of(preedit);
    let mut tail = crate::text::part(&chars, at, chars.len());
    out.append(&mut middle);
    out.append(&mut tail);
    assert(out@ =~= spliced(chars@, cursor as int, preedit@));
    (out, Some((at, at + word.len())))
}

/// Going back from the screen to the document finds the character that is shown,
/// but for the word being composed, which is at the cursor.
pub proof fn the_screen_shows_the_document(
    chars: Seq<char>,
    cursor: int,
    preedit: Seq<char>,
    display: int,
)
    requires
        0 <= cursor <= chars.len(),
        0 <= display < spliced(chars, cursor, preedit).len(),
    ensures
        display < cursor || display >= cursor + preedit.len() ==> spliced(
            chars,
            cursor,
            preedit,
        )[display] == chars[in_document(display, cursor, preedit.len() as int)],
        cursor <= display < cursor + preedit.len() ==> in_document(
            display,
            cursor,
            preedit.len() as int,
        ) == cursor,
        0 <= in_document(display, cursor, preedit.len() as int) <= chars.len(),
{
}

/// With nothing composed, a place on the screen is a place in the document.
pub proof fn with_nothing_composed_the_two_are_one(display: int, cursor: int)
    requires
        0 <= display,
    ensures
        in_document(display, cursor, 0) == display,
{
}

// ---------------------------------------------------------------------------
// Pages of candidates
// ---------------------------------------------------------------------------

/// Pages begin one after the other.
pub open spec fn ascending(pages: Seq<usize>) -> bool {
    forall|i: int, j: int| 0 <= i <= j < pages.len() ==> pages[i] <= pages[j]
}

/// Where a page begins, and where the next does, within so many candidates.
pub open spec fn page_bounds(pages: Seq<usize>, page: int, len: int) -> (int, int) {
    let from = pages[page] as int;
    let to = if page + 1 < pages.len() {
        pages[page + 1] as int
    } else {
        len
    };
    (
        if from < len {
            from
        } else {
            len
        },
        if to < len {
            to
        } else {
            len
        },
    )
}

/// The candidates on a page; none on a page that is not there.
pub open spec fn on_page<T>(candidates: Seq<T>, pages: Seq<usize>, page: int) -> Seq<T> {
    if page < pages.len() {
        let (from, to) = page_bounds(pages, page, candidates.len() as int);
        candidates.subrange(from, to)
    } else {
        Seq::empty()
    }
}

pub fn candidate_page<'a>(candidates: &'a [String], pages: &[usize], page: usize) -> (r: &'a [String])
    requires
        ascending(pages@),
    ensures
        r@ == on_page(candidates@, pages@, page as int),
{
    let n: usize = candidates.len();
    if page >= pages.len() {
        let none = slice_subrange(candidates, n, n);
        assert(none@ =~= Seq::<String>::empty());
        return none;
    }
    let first: usize = pages[page];
    let from: usize = if first < n {
        first
    } else {
        n
    };
    let next: usize = if page + 1 < pages.len() {
        pages[page + 1]
    } else {
        n
    };
    let to: usize = if next < n {
        next
    } else {
        n
    };
    slice_subrange(candidates, from, to)
}

/// The candidates on the first `n` pages, one page after the other.
pub open spec fn on_pages<T>(candidates: Seq<T>, pages: Seq<usize>, n: int) -> Seq<T>
    decreases n,
{
    if n <= 0 {
        seq![]
    } else {
        on_pages(candidates, pages, n - 1) + on_page(candidates, pages, n - 1)
    }
}

/// The pages before one hold what comes before its first candidate.
proof fn lemma_pages_so_far<T>(candidates: Seq<T>, pages: Seq<usize>, n: int)
    requires
        ascending(pages),
        pages.len() > 0,
        pages[0] == 0,
        0 <= n < pages.len(),
    ensures
        on_pages(candidates, pages, n) == candidates.take(
            page_bounds(pages, n, candidates.len() as int).0,
        ),
    decreases n,
{
    if n > 0 {
        lemma_pages_so_far(candidates, pages, n - 1);
        let (from, to) = page_bounds(pages, n - 1, candidates.len() as int);
        assert(pages[n - 1] <= pages[n]);
        assert(candidates.take(from) + candidates.subrange(from, to) =~= candidates.take(to));
    } else {
        assert(candidates.take(0) =~= seq![]);
    }
}

/// Every candidate is on one page, in order, where the first page begins with the
/// first; and a page past the last is empty.
pub proof fn the_pages_hold_every_candidate<T>(candidates: Seq<T>, pages: Seq<usize>, past: int)
    requires
        ascending(pages),
        pages.len() > 0 ==> pages[0] == 0,
        past >= pages.len(),
    ensures
        pages.len() > 0 ==> on_pages(candidates, pages, pages.len() as int) == candidates,
        on_page(candidates, pages, past) == Seq::<T>::empty(),
{
    if pages.len() > 0 {
        let last = pages.len() - 1;
        let (from, to) = page_bounds(pages, last, candidates.len() as int);
        lemma_pages_so_far(candidates, pages, last);
        assert(candidates.take(from) + candidates.subrange(from, to) =~= candidates);
    }
}

/// What floats beside the caret.
pub enum Overlay<'a> {
    Candidates(&'a [String]),
    Notice(&'a str),
    Nothing,
}

/// Candidates outrank a notice.
pub fn overlay<'a>(candidates: &'a [String], notice: Option<&'a str>) -> (r: Overlay<'a>)
    ensures
        r == (if candidates@.len() > 0 {
            Overlay::Candidates(candidates)
        } else {
            match notice {
                Some(text) => Overlay::Notice(text),
                None => Overlay::Nothing,
            }
        }),
{
    if candidates.len() > 0 {
        Overlay::Candidates(candidates)
    } else {
        match notice {
            Some(text) => Overlay::Notice(text),
            None => Overlay::Nothing,
        }
    }
}

// ---------------------------------------------------------------------------
// The word
// ---------------------------------------------------------------------------

/// What offering a key to an input method did with it.
#[derive(Debug, Clone, Copy, PartialEq, Eq, Structural)]
pub enum Composed {
    /// The editor is not to see this key.
    Took,
    /// The editor is to see it, after the word it ended.
    Finished,
    /// Untouched.
    Passed,
}

/// The word being composed.
pub struct Composition {
    /// The keys that went towards it.
    pub typed: String,
    /// What they compose.
    pub preedit: String,
    pub candidates: Vec<String>,
    /// Which page of them shows, and where each begins.
    pub page: usize,
    pub pages: Vec<usize>,
    pub korean: Korean,
    pub punctuation: Punctuation,
}

/// A list of committed texts with one more, unless it is empty.
pub open spec fn committed(list: Seq<Seq<char>>, text: Seq<char>) -> Seq<Seq<char>> {
    if text.len() == 0 {
        list
    } else {
        list.push(text)
    }
}

/// Whether a pager gives pages that begin one after the other.
pub open spec fn pages_in_order<P: Fn(&Vec<String>) -> Vec<usize>>(pager: P) -> bool {
    &&& forall|c: &Vec<String>| pager.requires((c,))
    &&& forall|c: &Vec<String>, p: Vec<usize>| #[trigger] pager.ensures((c,), p) ==> ascending(p@)
}

/// Whether an engine's answer leaves something to compose or to choose.
fn leaves_some(rest: &Option<Rest>) -> (r: bool)
    ensures
        r == (reading_left(*rest).len() > 0 || offered_for(*rest).len() > 0),
{
    match rest {
        Some(rest) => {
            let reading = chars_of(rest.reading.as_str());
            reading.len() > 0 || rest.candidates.len() > 0
        },
        None => false,
    }
}

fn commit_text(out: &mut Vec<String>, text: String)
    ensures
        texts(final(out)@) == committed(texts(old(out)@), text@),
{
    let chars = chars_of(text.as_str());
    if chars.len() > 0 {
        proof {
            crate::text::lemma_texts_push(out@, text);
        }
        out.push(text);
    }
}

/// What finishing a word adds to the texts that were committed. A word with
/// nothing to choose from, and all of Japanese, goes as it is composed; in Chinese
/// the first candidate of the bar goes first, and without an engine to say what is
/// left, alone. With one, what follows is what `finishing` makes of each answer, and
/// there are no more answers than the reading has letters, and one.
pub open spec fn ended(
    before: Composition,
    out: Seq<Seq<char>>,
    held: Seq<Seq<char>>,
    script: Script,
    bare: bool,
) -> bool {
    if !before.under_way() {
        held == out
    } else if script != Script::Chinese || before.bar().len() == 0 {
        held == committed(out, before.preedit@)
    } else {
        &&& out.is_prefix_of(held)
        &&& before.bar()[0]@.len() > 0 ==> held.len() > out.len() && held[out.len() as int]
            == before.bar()[0]@
        &&& bare ==> held == committed(out, before.bar()[0]@)
        &&& held.len() <= out.len() + before.typed@.len() + 2
    }
}

/// What finishing a word leaves of it: nothing typed, composed or offered. Where none
/// was under way it stays as it was, but for the pairs of marks.
pub open spec fn closed(before: Composition, after: Composition, script: Script) -> bool {
    if !before.under_way() {
        after == (Composition { punctuation: after.punctuation, ..before })
    } else {
        &&& after.spent()
        &&& after.korean == before.korean || after.idle()
        &&& script != Script::Chinese || before.bar().len() == 0 ==> after.idle()
    }
}

/// The reading that an engine's answer leaves, and what it offers for it.
pub open spec fn reading_left(rest: Option<Rest>) -> Seq<char> {
    match rest {
        Some(rest) => rest.reading@,
        None => seq![],
    }
}

pub open spec fn offered_for(rest: Option<Rest>) -> Seq<String> {
    match rest {
        Some(rest) => rest.candidates@,
        None => seq![],
    }
}

/// The word once an engine answered for a candidate that was chosen: the reading that
/// is left goes on being composed, with what is offered for it on pages of their own.
pub open spec fn taken<P: Fn(&Vec<String>) -> Vec<usize>>(
    before: Composition,
    after: Composition,
    rest: Option<Rest>,
    pager: P,
) -> bool {
    &&& after.typed@ == reading_left(rest)
    &&& after.preedit@ == reading_left(rest)
    &&& after.candidates@ == offered_for(rest)
    &&& rest matches Some(rest) ==> after.candidates == rest.candidates
    &&& pager.ensures((&after.candidates,), after.pages)
    &&& after.page == 0
    &&& after.korean == before.korean
    &&& after.punctuation == before.punctuation
}

/// What an engine's answer for the first candidate of the bar makes of a word that is
/// being finished, and of the texts that were committed. The candidate is committed.
/// Where the engine offers more for what is left, and it was not the last pass, the
/// first of that is taken in turn, which is `again`; otherwise what is still composed
/// is committed, and the word is over.
pub open spec fn finished_by<P: Fn(&Vec<String>) -> Vec<usize>>(
    before: Composition,
    after: Composition,
    out: Seq<Seq<char>>,
    now: Seq<Seq<char>>,
    rest: Option<Rest>,
    last: bool,
    again: bool,
    pager: P,
) -> bool {
    let held = if before.bar().len() > 0 {
        committed(out, before.bar()[0]@)
    } else {
        out
    };
    &&& again == (offered_for(rest).len() > 0 && !last)
    &&& if again || (reading_left(rest).len() == 0 && offered_for(rest).len() == 0) {
        taken(before, after, rest, pager) && now == held
    } else {
        &&& after.idle()
        &&& after.punctuation == before.punctuation
        &&& pager.ensures((&after.candidates,), after.pages)
        &&& now == committed(held, reading_left(rest))
    }
}

// What the engine is told, and what it answered. Where there is none, nothing is.

/// The engine was emptied.
pub open spec fn clears<E: Ime>(before: Option<E>, after: Option<E>) -> bool {
    match (before, after) {
        (Some(a), Some(b)) => E::emptied(a, b),
        (None, None) => true,
        _ => false,
    }
}

/// The engine was given a key, and with it a word stands so: with this offered, and
/// composed as the engine says, or as it was typed where it does not say.
pub open spec fn strikes<E: Ime>(
    before: Option<E>,
    after: Option<E>,
    key: char,
    typed: Seq<char>,
    preedit: Seq<char>,
    offered: Seq<Seq<char>>,
) -> bool {
    match (before, after) {
        (Some(a), Some(b)) => {
            &&& E::keyed(a, key, b, offered)
            &&& exists|composed: Option<Seq<char>>| #[trigger]
                b.composes(composed) && preedit == (match composed {
                    Some(s) => s,
                    None => typed,
                })
        },
        (None, None) => true,
        _ => false,
    }
}

/// The engine was told of the candidate that was chosen, and left this of the word.
/// Where there is no engine nothing is left.
pub open spec fn chooses<E: Ime>(
    before: Option<E>,
    after: Option<E>,
    index: int,
    left: Option<RestText>,
) -> bool {
    match (before, after) {
        (Some(a), Some(b)) => E::chosen(a, index, b, left),
        (None, None) => left is None,
        _ => false,
    }
}

/// A word that stands as an engine's answer left it.
pub open spec fn left_as(after: Composition, left: Option<RestText>) -> bool {
    match left {
        Some((reading, offered)) => after.typed@ == reading && after.preedit@ == reading && texts(
            after.candidates@,
        ) == offered,
        None => after.spent(),
    }
}

/// One answer while a word is being finished: to the first candidate of the bar, and
/// what it made of the word and of the texts that were committed.
pub open spec fn one_answer<E: Ime, P: Fn(&Vec<String>) -> Vec<usize>>(
    before: Composition,
    engine: Option<E>,
    mid: Composition,
    told: Option<E>,
    out: Seq<Seq<char>>,
    held: Seq<Seq<char>>,
    rest: Option<Rest>,
    pass: int,
    limit: int,
    again: bool,
    pager: P,
) -> bool {
    &&& chooses(engine, told, before.listed_at(0), left_of(rest))
    &&& finished_by(before, mid, out, held, rest, pass >= limit, again, pager)
}

/// A word that goes as it is composed, and is dropped in the engine.
pub open spec fn goes_raw<E: Ime, P: Fn(&Vec<String>) -> Vec<usize>>(
    before: Composition,
    engine: Option<E>,
    after: Composition,
    told: Option<E>,
    out: Seq<Seq<char>>,
    now: Seq<Seq<char>>,
    pager: P,
) -> bool {
    &&& clears(engine, told)
    &&& after.idle()
    &&& after.punctuation == before.punctuation
    &&& pager.ensures((&after.candidates,), after.pages)
    &&& now == committed(out, before.preedit@)
}

/// The run of answers that finishes a word, from a pass on: the first candidate of the
/// bar is taken, and so again as long as the engine offers more and passes are left;
/// where nothing of that is on the bar, what is left goes as it is composed.
pub open spec fn run_of_answers<E: Ime, P: Fn(&Vec<String>) -> Vec<usize>>(
    before: Composition,
    engine: Option<E>,
    after: Composition,
    told: Option<E>,
    out: Seq<Seq<char>>,
    now: Seq<Seq<char>>,
    pass: int,
    limit: int,
    pager: P,
) -> bool
    decreases limit - pass,
{
    exists|
        mid: Composition,
        next: Option<E>,
        held: Seq<Seq<char>>,
        rest: Option<Rest>,
        again: bool,
    |
        #[trigger] one_answer(
            before,
            engine,
            mid,
            next,
            out,
            held,
            rest,
            pass,
            limit,
            again,
            pager,
        ) && (if again && pass < limit {
            if mid.bar().len() > 0 {
                run_of_answers(mid, next, after, told, held, now, pass + 1, limit, pager)
            } else {
                goes_raw(mid, next, after, told, held, now, pager)
            }
        } else {
            &&& after == mid
            &&& now == held
            &&& if reading_left(rest).len() > 0 || offered_for(rest).len() > 0 {
                clears(next, told)
            } else {
                told == next
            }
        })
}

/// What finishing a word tells the engine, and what it makes of the word and of the
/// texts that were committed.
pub open spec fn finished_with<E: Ime, P: Fn(&Vec<String>) -> Vec<usize>>(
    before: Composition,
    engine: Option<E>,
    after: Composition,
    told: Option<E>,
    out: Seq<Seq<char>>,
    now: Seq<Seq<char>>,
    script: Script,
    pager: P,
) -> bool {
    if !before.under_way() {
        after == before && told == engine && now == out
    } else if script != Script::Chinese || before.bar().len() == 0 {
        goes_raw(before, engine, after, told, out, now, pager)
    } else {
        run_of_answers(
            before,
            engine,
            after,
            told,
            out,
            now,
            0,
            before.typed@.len() as int,
            pager,
        )
    }
}

/// What a keystroke tells the engine of a word, and what the word and the texts that
/// were committed have of its answer.
pub open spec fn engine_step<E: Ime, P: Fn(&Vec<String>) -> Vec<usize>>(
    before: Composition,
    engine: Option<E>,
    after: Composition,
    told: Option<E>,
    out: Seq<Seq<char>>,
    now: Seq<Seq<char>>,
    compose: Compose,
    script: Script,
    pager: P,
) -> bool {
    match compose {
        Compose::Feed(c) => exists|offered: Seq<Seq<char>>| #[trigger]
            strikes(engine, told, c, after.typed@, after.preedit@, offered) && (engine is Some && !(
            c == BACK && after.typed@.len() == 0) ==> texts(after.candidates@) == offered),
        Compose::Select(n) => if n < before.bar().len() {
            exists|left: Option<RestText>| #[trigger]
                chooses(engine, told, before.listed_at(n as int), left) && left_as(
                    after,
                    left,
                )
        } else {
            told == engine
        },
        Compose::NextPage => if before.candidates@.len() == 0 {
            clears(engine, told)
        } else {
            told == engine
        },
        Compose::PreviousPage => if before.candidates@.len() == 0 {
            clears(engine, told)
        } else {
            told == engine
        },
        Compose::Latin(c) => exists|held: Seq<Seq<char>>| #[trigger]
            finished_with(before, engine, after, told, out, held, script, pager) && now == committed(
                held,
                seq![c],
            ),
        Compose::Punctuate(key) => exists|mid: Composition, held: Seq<Seq<char>>| #[trigger]
            finished_with(before, engine, mid, told, out, held, script, pager) && after == (
            Composition { punctuation: after.punctuation, ..mid }) && now == (
            match before.punctuation.written(script, key) {
                Some(mark) => committed(held, mark),
                None => held,
            }),
        Compose::CommitTyped => clears(engine, told),
        Compose::CommitRaw => clears(engine, told),
        Compose::Cancel => clears(engine, told),
        Compose::Pass => told == engine,
        Compose::Jamo(_) => told == engine,
        Compose::Decompose => told == engine,
        Compose::Finish => told == engine,
    }
}

/// What offering a key tells the engine: nothing where the language has none, or it is
/// off.
pub open spec fn key_engine_step<E: Ime, P: Fn(&Vec<String>) -> Vec<usize>>(
    before: Composition,
    engine: Option<E>,
    after: Composition,
    told: Option<E>,
    out: Seq<Seq<char>>,
    now: Seq<Seq<char>>,
    action: Action,
    language: Language,
    on: bool,
    pager: P,
) -> bool {
    match language.typed_through() {
        Some(script) => if on && script != Script::Korean {
            engine_step(
                before,
                engine,
                after,
                told,
                out,
                now,
                compose_of(action, before.under_way(), script),
                script,
                pager,
            )
        } else {
            told == engine
        },
        None => told == engine,
    }
}

/// Whether a keystroke has the candidates laid out on pages anew. Where it has not,
/// the pages stand as they were.
pub open spec fn repages(before: Composition, compose: Compose, bare: bool) -> bool {
    match compose {
        Compose::Feed(c) => !bare || (c == BACK && before.typed@.len() <= 1),
        Compose::Select(n) => n < before.bar().len(),
        Compose::NextPage => before.candidates@.len() == 0,
        Compose::PreviousPage => before.candidates@.len() == 0,
        Compose::Latin(_) => before.under_way(),
        Compose::Punctuate(_) => before.under_way(),
        Compose::CommitTyped => true,
        Compose::CommitRaw => true,
        Compose::Cancel => true,
        _ => false,
    }
}

/// Whether offering a key has the candidates laid out on pages anew.
pub open spec fn key_repages(
    before: Composition,
    action: Action,
    language: Language,
    on: bool,
    bare: bool,
) -> bool {
    match language.typed_through() {
        Some(script) => on && script != Script::Korean && repages(
            before,
            compose_of(action, before.under_way(), script),
            bare,
        ),
        None => false,
    }
}

/// What a keystroke makes of a word with an engine behind it, and of the texts that
/// were committed. `bare` is that there is no engine after all.
pub open spec fn plugin_step(
    before: Composition,
    after: Composition,
    out: Seq<Seq<char>>,
    now: Seq<Seq<char>>,
    compose: Compose,
    script: Script,
    bare: bool,
) -> bool {
    match compose {
        // A key for the engine: the keys grow or shrink by it, and an engine that is
        // emptied offers nothing.
        Compose::Feed(c) => {
            &&& now == out
            &&& after.typed@ == (if c == BACK {
                if before.typed@.len() == 0 {
                    before.typed@
                } else {
                    before.typed@.drop_last()
                }
            } else {
                before.typed@.push(c)
            })
            &&& c == BACK && after.typed@.len() == 0 ==> after.candidates@.len() == 0
            &&& bare ==> after.preedit == before.preedit
            &&& bare && !(c == BACK && after.typed@.len() == 0) ==> after.candidates
                == before.candidates && after.page == before.page && after.pages == before.pages
            &&& !bare ==> after.page == 0
            &&& after.korean == before.korean
            &&& after.punctuation == before.punctuation
        },
        // A candidate by its place: its text is committed, where it is there.
        Compose::Select(n) => if n >= before.bar().len() {
            after == before && now == out
        } else {
            &&& now == committed(out, before.bar()[n as int]@)
            &&& after.page == 0
            &&& after.korean == before.korean
            &&& after.punctuation == before.punctuation
            &&& bare ==> after.typed@.len() == 0 && !after.under_way()
        },
        // The pages end where they end; with nothing offered the word is dropped.
        Compose::NextPage => {
            &&& now == out
            &&& after.punctuation == before.punctuation
            &&& before.candidates@.len() == 0 ==> after.idle()
            &&& before.candidates@.len() > 0 ==> after == (Composition {
                page: if before.page + 1 < before.pages@.len() {
                    (before.page + 1) as usize
                } else {
                    before.page
                },
                ..before
            })
        },
        Compose::PreviousPage => {
            &&& now == out
            &&& after.punctuation == before.punctuation
            &&& before.candidates@.len() == 0 ==> after.idle()
            &&& before.candidates@.len() > 0 ==> after == (Composition {
                page: if before.page > 0 {
                    (before.page - 1) as usize
                } else {
                    0
                },
                ..before
            })
        },
        // A capital ends the word and lands on the page.
        Compose::Latin(c) => {
            &&& !after.under_way()
            &&& closed(before, after, script)
            &&& after.punctuation == before.punctuation
            &&& exists|held: Seq<Seq<char>>| #[trigger]
                ended(before, out, held, script, bare) && now == committed(held, seq![c])
        },
        // A mark ends the word and follows it.
        Compose::Punctuate(key) => {
            &&& !after.under_way()
            &&& closed(before, after, script)
            &&& after.punctuation == before.punctuation.after(script, key)
            &&& exists|held: Seq<Seq<char>>| #[trigger]
                ended(before, out, held, script, bare) && now == (
                match before.punctuation.written(script, key) {
                    Some(mark) => committed(held, mark),
                    None => held,
                })
        },
        // The letters as they were struck, and what they compose.
        Compose::CommitTyped => {
            &&& after.idle()
            &&& after.punctuation == before.punctuation
            &&& now == committed(out, before.typed@)
        },
        Compose::CommitRaw => {
            &&& after.idle()
            &&& after.punctuation == before.punctuation
            &&& now == committed(out, before.preedit@)
        },
        Compose::Cancel => after.idle() && after.punctuation == before.punctuation && now == out,
        Compose::Pass => after == before && now == out,
        Compose::Jamo(_) => after == before && now == out,
        Compose::Decompose => after == before && now == out,
        Compose::Finish => after == before && now == out,
    }
}

/// What a keystroke makes of a syllable, and of the texts that were committed.
pub open spec fn hangul_step(
    before: Composition,
    after: Composition,
    out: Seq<Seq<char>>,
    now: Seq<Seq<char>>,
    compose: Compose,
) -> bool {
    &&& after == (Composition { korean: after.korean, preedit: after.preedit, ..before })
    &&& match compose {
        Compose::Jamo(key) => {
            &&& after.korean == before.korean.pressed(key).0
            &&& after.preedit@ == before.korean.pressed(key).0.shown()
            &&& now == committed(out, before.korean.pressed(key).1.shown())
        },
        Compose::Decompose => {
            &&& after.korean == before.korean.shortened()
            &&& after.preedit@ == before.korean.shortened().shown()
            &&& now == out
        },
        Compose::Finish => {
            &&& after.korean == Korean::empty()
            &&& after.preedit@.len() == 0
            &&& now == committed(out, before.korean.shown())
        },
        _ => after == before && now == out,
    }
}

/// What offering a key to the input method of a language makes of the word, and of
/// the texts that were committed.
pub open spec fn key_step(
    before: Composition,
    after: Composition,
    out: Seq<Seq<char>>,
    now: Seq<Seq<char>>,
    action: Action,
    language: Language,
    on: bool,
    bare: bool,
) -> bool {
    match language.typed_through() {
        Some(script) => if !on {
            after == before && now == out
        } else if script == Script::Korean {
            hangul_step(before, after, out, now, compose_of(action, before.under_way(), script))
        } else {
            plugin_step(
                before,
                after,
                out,
                now,
                compose_of(action, before.under_way(), script),
                script,
                bare,
            )
        },
        None => after == before && now == out,
    }
}

/// What becomes of a key that is offered.
pub open spec fn composed_by(before: Composition, action: Action, language: Language, on: bool) -> Composed {
    match language.typed_through() {
        Some(script) => if !on {
            Composed::Passed
        } else {
            match compose_of(action, before.under_way(), script) {
                Compose::Pass => Composed::Passed,
                Compose::Finish => Composed::Finished,
                _ => Composed::Took,
            }
        },
        None => Composed::Passed,
    }
}

impl Composition {
    /// The pages begin one after the other.
    pub open spec fn wf(&self) -> bool {
        ascending(self.pages@)
    }

    pub open spec fn under_way(&self) -> bool {
        self.preedit@.len() > 0 || self.candidates@.len() > 0
    }

    /// Nothing typed, composed or offered.
    pub open spec fn idle(&self) -> bool {
        &&& self.typed@.len() == 0
        &&& self.preedit@.len() == 0
        &&& self.candidates@.len() == 0
        &&& self.page == 0
        &&& self.korean == Korean::empty()
    }

    /// Nothing typed, composed or offered, whatever stands of a syllable.
    pub open spec fn spent(&self) -> bool {
        &&& self.typed@.len() == 0
        &&& self.preedit@.len() == 0
        &&& self.candidates@.len() == 0
        &&& self.page == 0
    }

    pub fn new() -> (r: Composition)
        ensures
            r.idle(),
            r.wf(),
            r.pages@.len() == 0,
            r.punctuation == (Punctuation { double_open: false, single_open: false }),
    {
        Composition {
            typed: String::new(),
            preedit: String::new(),
            candidates: Vec::new(),
            page: 0,
            pages: Vec::new(),
            korean: Korean::default(),
            punctuation: Punctuation::default(),
        }
    }

    /// Whether a word is being composed. One with no candidates counts.
    pub fn composing(&self) -> (r: bool)
        ensures
            r == self.under_way(),
    {
        let preedit = chars_of(self.preedit.as_str());
        preedit.len() > 0 || self.candidates.len() > 0
    }

    /// Take a new list of candidates, read from its first page.
    pub fn set_candidates<P: Fn(&Vec<String>) -> Vec<usize>>(
        &mut self,
        candidates: Vec<String>,
        pager: &P,
    )
        requires
            pages_in_order(*pager),
        ensures
            final(self).wf(),
            pager.ensures((&candidates,), final(self).pages),
            *final(self) == (Composition {
                candidates,
                pages: final(self).pages,
                page: 0,
                ..*old(self)
            }),
    {
        self.pages = pager(&candidates);
        self.candidates = candidates;
        self.page = 0;
    }

    /// Drop the word here.
    fn drop_word<P: Fn(&Vec<String>) -> Vec<usize>>(&mut self, pager: &P)
        requires
            pages_in_order(*pager),
        ensures
            final(self).wf(),
            final(self).idle(),
            pager.ensures((&final(self).candidates,), final(self).pages),
            final(self).punctuation == old(self).punctuation,
    {
        self.korean.clear();
        self.typed = String::new();
        self.preedit = String::new();
        let none: Vec<String> = Vec::new();
        self.set_candidates(none, pager);
    }

    /// Drop the word, in the engine as well.
    pub fn abandon<E: Ime, P: Fn(&Vec<String>) -> Vec<usize>>(
        &mut self,
        engine: &mut Option<E>,
        pager: &P,
    )
        requires
            pages_in_order(*pager),
        ensures
            final(self).wf(),
            final(self).idle(),
            pager.ensures((&final(self).candidates,), final(self).pages),
            final(self).punctuation == old(self).punctuation,
            clears(*old(engine), *final(engine)),
    {
        match engine {
            Some(e) => e.clear(),
            None => {},
        }
        self.drop_word(pager);
    }

    /// Take what the engine made of a key: the candidates it offers, and what it
    /// composes, or the keys themselves where it does not say.
    pub fn fed<P: Fn(&Vec<String>) -> Vec<usize>>(
        &mut self,
        candidates: Vec<String>,
        composed: Option<String>,
        pager: &P,
    )
        requires
            pages_in_order(*pager),
        ensures
            final(self).wf(),
            final(self).typed@ == old(self).typed@,
            final(self).preedit@ == (match composed {
                Some(s) => s@,
                None => old(self).typed@,
            }),
            final(self).candidates == candidates,
            pager.ensures((&candidates,), final(self).pages),
            final(self).page == 0,
            final(self).korean == old(self).korean,
            final(self).punctuation == old(self).punctuation,
    {
        self.preedit = match composed {
            Some(s) => s,
            None => self.typed.clone(),
        };
        self.set_candidates(candidates, pager);
    }

    /// Send one key to the engine. Nothing happens where there is none.
    pub fn feed<E: Ime, P: Fn(&Vec<String>) -> Vec<usize>>(
        &mut self,
        engine: &mut Option<E>,
        key: char,
        pager: &P,
    )
        requires
            pages_in_order(*pager),
            old(self).wf(),
        ensures
            final(self).wf(),
            final(self).typed@ == old(self).typed@,
            final(self).korean == old(self).korean,
            final(self).punctuation == old(self).punctuation,
            strikes(
                *old(engine),
                *final(engine),
                key,
                final(self).typed@,
                final(self).preedit@,
                texts(final(self).candidates@),
            ),
            (*old(engine)) is None ==> *final(self) == *old(self),
            (*old(engine)) is Some ==> final(self).page == 0 && pager.ensures(
                (&final(self).candidates,),
                final(self).pages,
            ),
    {
        let (candidates, composed) = match engine {
            Some(e) => {
                let candidates = e.key(key);
                let composed = e.preedit();
                (candidates, composed)
            },
            None => return ,
        };
        let ghost said = if composed is Some {
            Some((composed->0)@)
        } else {
            None
        };
        self.fed(candidates, composed, pager);
        assert(((*engine)->0).composes(said));
    }

    /// Take what the engine said of a candidate that was chosen: what is left to
    /// convert goes on being composed, and where nothing is, the word is over.
    pub fn took<P: Fn(&Vec<String>) -> Vec<usize>>(&mut self, rest: Option<Rest>, pager: &P)
        requires
            pages_in_order(*pager),
        ensures
            final(self).wf(),
            rest matches Some(rest) ==> pager.ensures((&rest.candidates,), final(self).pages),
            taken(*old(self), *final(self), rest, *pager),
    {
        match rest {
            Some(rest) => {
                self.typed = rest.reading.clone();
                self.preedit = rest.reading;
                self.set_candidates(rest.candidates, pager);
            },
            None => {
                self.typed = String::new();
                self.preedit = String::new();
                let none: Vec<String> = Vec::new();
                self.set_candidates(none, pager);
            },
        }
    }

    /// The candidates on the bar.
    pub open spec fn bar(&self) -> Seq<String> {
        on_page(self.candidates@, self.pages@, self.page as int)
    }

    /// Where a place on the bar stands in the whole list.
    pub open spec fn listed_at(&self, n: int) -> int {
        self.pages@[self.page as int] + n
    }

    /// Where a candidate stands in the whole list, by its place on the bar: what an
    /// engine is told of the one that was chosen. Nothing past the last one.
    pub fn index_of(&self, n: usize) -> (r: Option<usize>)
        requires
            self.wf(),
        ensures
            r == (if n < self.bar().len() {
                Some((self.pages@[self.page as int] + n) as usize)
            } else {
                None
            }),
            r matches Some(at) ==> at == self.listed_at(n as int) && at < self.candidates@.len()
                && self.candidates@[at as int] == self.bar()[n as int],
    {
        let bar = candidate_page(self.candidates.as_slice(), self.pages.as_slice(), self.page);
        if n >= bar.len() {
            return None;
        }
        let from: usize = self.pages[self.page];
        let count: usize = self.candidates.len();
        assert(from + n < count);
        Some(from + n)
    }

    /// Choose a candidate by its place on the bar. Past the last one nothing
    /// happens.
    pub fn select<E: Ime, P: Fn(&Vec<String>) -> Vec<usize>>(
        &mut self,
        engine: &mut Option<E>,
        n: usize,
        pager: &P,
        out: &mut Vec<String>,
    )
        requires
            pages_in_order(*pager),
            old(self).wf(),
        ensures
            final(self).wf(),
            final(self).korean == old(self).korean,
            final(self).punctuation == old(self).punctuation,
            n >= old(self).bar().len() ==> *final(self) == *old(self) && texts(final(out)@) == texts(
                old(out)@,
            ) && *final(engine) == *old(engine),
            n < old(self).bar().len() ==> exists|left: Option<RestText>| #[trigger]
                chooses(
                    *old(engine),
                    *final(engine),
                    old(self).listed_at(n as int),
                    left,
                ) && left_as(*final(self), left),
            n < old(self).bar().len() ==> texts(final(out)@) == committed(
                texts(old(out)@),
                old(self).bar()[n as int]@,
            ) && final(self).page == 0 && pager.ensures(
                (&final(self).candidates,),
                final(self).pages,
            ),
            n < old(self).bar().len() && (*old(engine)) is None ==> final(self).typed@.len() == 0
                && !final(self).under_way(),
    {
        let at: usize = match self.index_of(n) {
            Some(at) => at,
            None => return ,
        };
        let text = self.candidates[at].clone();
        let rest = match engine {
            Some(e) => e.commit(at),
            None => None,
        };
        let ghost left = left_of(rest);
        self.took(rest, pager);
        commit_text(out, text);
        assert(texts(Seq::<String>::empty()) =~= seq![]);
        assert(chooses(*old(engine), *engine, old(self).listed_at(n as int), left));
        assert(left_as(*self, left));
    }

    /// Take the engine's answer for the first candidate of the bar, while the word is
    /// being finished: the pass of so many at most that this is, counted from nought.
    /// `true` where the first of what it offers next is to be taken in turn.
    pub fn finishing<P: Fn(&Vec<String>) -> Vec<usize>>(
        &mut self,
        rest: Option<Rest>,
        pass: usize,
        limit: usize,
        pager: &P,
        out: &mut Vec<String>,
    ) -> (r: bool)
        requires
            pages_in_order(*pager),
            old(self).wf(),
        ensures
            final(self).wf(),
            finished_by(
                *old(self),
                *final(self),
                texts(old(out)@),
                texts(final(out)@),
                rest,
                pass >= limit,
                r,
                *pager,
            ),
    {
        let first = match self.index_of(0) {
            Some(at) => self.candidates[at].clone(),
            None => String::new(),
        };
        commit_text(out, first);
        self.took(rest, pager);
        if self.candidates.len() > 0 && pass < limit {
            return true;
        }
        if self.composing() {
            let text = self.preedit.clone();
            self.drop_word(pager);
            commit_text(out, text);
        }
        false
    }

    /// Finish a word of which a candidate is on the bar, from a pass on.
    fn finish<E: Ime, P: Fn(&Vec<String>) -> Vec<usize>>(
        &mut self,
        engine: &mut Option<E>,
        pass: usize,
        limit: usize,
        pager: &P,
        out: &mut Vec<String>,
    )
        requires
            pages_in_order(*pager),
            old(self).wf(),
            old(self).bar().len() > 0,
            pass <= limit,
        ensures
            final(self).wf(),
            run_of_answers(
                *old(self),
                *old(engine),
                *final(self),
                *final(engine),
                texts(old(out)@),
                texts(final(out)@),
                pass as int,
                limit as int,
                *pager,
            ),
            final(self).spent(),
            final(self).punctuation == old(self).punctuation,
            final(self).korean == old(self).korean || final(self).idle(),
            pager.ensures((&final(self).candidates,), final(self).pages),
            committed(texts(old(out)@), old(self).bar()[0]@).is_prefix_of(texts(final(out)@)),
            (*old(engine)) is None ==> texts(final(out)@) == committed(
                texts(old(out)@),
                old(self).bar()[0]@,
            ),
            texts(final(out)@).len() <= old(out)@.len() + (limit - pass) + 2,
        decreases limit - pass,
    {
        let ghost start = texts(out@);
        let ghost before = *self;
        let ghost asked = *engine;
        let at: usize = match self.index_of(0) {
            Some(at) => at,
            None => return ,
        };
        let rest = match engine {
            Some(e) => e.commit(at),
            None => None,
        };
        let ghost answer = rest;
        let ghost told = *engine;
        let left = leaves_some(&rest);
        let again = self.finishing(rest, pass, limit, pager, out);
        let ghost mid = *self;
        let ghost held = texts(out@);
        assert(one_answer(
            before,
            asked,
            mid,
            told,
            start,
            held,
            answer,
            pass as int,
            limit as int,
            again,
            *pager,
        ));
        if again {
            if self.index_of(0).is_some() {
                self.finish(engine, pass + 1, limit, pager, out);
            } else {
                let text = self.preedit.clone();
                self.abandon(engine, pager);
                commit_text(out, text);
            }
            proof {
                lemma_prefix(committed(start, before.bar()[0]@), held, texts(out@));
            }
        } else if left {
            match engine {
                Some(e) => e.clear(),
                None => {},
            }
        }
    }

    /// Finish the word under way. Chinese takes the first candidate, and again
    /// while one covers only the front of the reading, but no more often than the
    /// reading is long; what is left, and all of Japanese, is taken as it is
    /// composed.
    pub fn commit<E: Ime, P: Fn(&Vec<String>) -> Vec<usize>>(
        &mut self,
        engine: &mut Option<E>,
        script: Script,
        pager: &P,
        out: &mut Vec<String>,
    )
        requires
            pages_in_order(*pager),
            old(self).wf(),
        ensures
            final(self).wf(),
            !final(self).under_way(),
            final(self).punctuation == old(self).punctuation,
            finished_with(
                *old(self),
                *old(engine),
                *final(self),
                *final(engine),
                texts(old(out)@),
                texts(final(out)@),
                script,
                *pager,
            ),
            closed(*old(self), *final(self), script),
            old(self).under_way() ==> pager.ensures((&final(self).candidates,), final(self).pages),
            ended(*old(self), texts(old(out)@), texts(final(out)@), script, (*old(engine)) is None),
    {
        if !self.composing() {
            return ;
        }
        if script == Script::Chinese && self.index_of(0).is_some() {
            let reading = chars_of(self.typed.as_str());
            self.finish(engine, 0, reading.len(), pager, out);
            proof {
                let first = committed(texts(old(out)@), old(self).bar()[0]@);
                lemma_prefix(texts(old(out)@), first, texts(out@));
                if old(self).bar()[0]@.len() > 0 {
                    assert(texts(out@)[old(out)@.len() as int] == first[old(out)@.len() as int]);
                }
                assert(texts(old(out)@).len() == old(out)@.len());
            }
            return ;
        }
        let text = self.preedit.clone();
        self.abandon(engine, pager);
        commit_text(out, text);
    }

    /// A Hangul keystroke.
    pub fn hangul(&mut self, compose: Compose, out: &mut Vec<String>) -> (r: Composed)
        ensures
            r == (match compose {
                Compose::Jamo(_) => Composed::Took,
                Compose::Decompose => Composed::Took,
                Compose::Finish => Composed::Finished,
                _ => Composed::Passed,
            }),
            hangul_step(*old(self), *final(self), texts(old(out)@), texts(final(out)@), compose),
    {
        match compose {
            Compose::Jamo(key) => {
                let done = self.korean.key(key);
                self.preedit = self.korean.preedit();
                commit_text(out, done);
                Composed::Took
            },
            Compose::Decompose => {
                let _ = self.korean.backspace();
                self.preedit = self.korean.preedit();
                Composed::Took
            },
            Compose::Finish => {
                let text = self.korean.take();
                self.preedit = String::new();
                commit_text(out, text);
                Composed::Finished
            },
            _ => Composed::Passed,
        }
    }

    /// A keystroke for a session with an engine.
    pub fn plugin<E: Ime, P: Fn(&Vec<String>) -> Vec<usize>>(
        &mut self,
        engine: &mut Option<E>,
        compose: Compose,
        script: Script,
        pager: &P,
        out: &mut Vec<String>,
    ) -> (r: Composed)
        requires
            pages_in_order(*pager),
            old(self).wf(),
        ensures
            final(self).wf(),
            engine_step(
                *old(self),
                *old(engine),
                *final(self),
                *final(engine),
                texts(old(out)@),
                texts(final(out)@),
                compose,
                script,
                *pager,
            ),
            r == (match compose {
                Compose::Pass => Composed::Passed,
                Compose::Jamo(_) => Composed::Passed,
                Compose::Decompose => Composed::Passed,
                Compose::Finish => Composed::Passed,
                _ => Composed::Took,
            }),
            plugin_step(
                *old(self),
                *final(self),
                texts(old(out)@),
                texts(final(out)@),
                compose,
                script,
                (*old(engine)) is None,
            ),
            repages(*old(self), compose, (*old(engine)) is None) ==> pager.ensures(
                (&final(self).candidates,),
                final(self).pages,
            ),
    {
        match compose {
            Compose::Pass => return Composed::Passed,
            Compose::Jamo(_) => return Composed::Passed,
            Compose::Decompose => return Composed::Passed,
            Compose::Finish => return Composed::Passed,
            Compose::Feed(c) => if c == BACK {
                let _ = self.typed.pop();
                self.feed(engine, BACK, pager);
                let ghost offered = texts(self.candidates@);
                let left = chars_of(self.typed.as_str());
                if left.len() == 0 {
                    let none: Vec<String> = Vec::new();
                    self.set_candidates(none, pager);
                }
                assert(strikes(*old(engine), *engine, c, self.typed@, self.preedit@, offered));
            } else {
                self.typed.push(c);
                self.feed(engine, c, pager);
                assert(strikes(
                    *old(engine),
                    *engine,
                    c,
                    self.typed@,
                    self.preedit@,
                    texts(self.candidates@),
                ));
            },
            Compose::Select(n) => self.select(engine, n, pager, out),
            Compose::NextPage => if self.candidates.len() == 0 {
                self.abandon(engine, pager);
            } else if self.page < self.pages.len() && self.page + 1 < self.pages.len() {
                self.page = self.page + 1;
            },
            Compose::PreviousPage => if self.candidates.len() == 0 {
                self.abandon(engine, pager);
            } else if self.page > 0 {
                self.page = self.page - 1;
            },
            Compose::Latin(c) => {
                self.commit(engine, script, pager, out);
                let mut s = String::new();
                s.push(c);
                assert(s@ =~= seq![c]);
                let ghost held = texts(out@);
                commit_text(out, s);
                assert(ended(*old(self), texts(old(out)@), held, script, (*old(engine)) is None));
            },
            Compose::CommitTyped => {
                let text = self.typed.clone();
                self.abandon(engine, pager);
                commit_text(out, text);
            },
            Compose::CommitRaw => {
                let text = self.preedit.clone();
                self.abandon(engine, pager);
                commit_text(out, text);
            },
            Compose::Punctuate(key) => {
                self.commit(engine, script, pager, out);
                let ghost held = texts(out@);
                let ghost mid = *self;
                assert(finished_with(
                    *old(self),
                    *old(engine),
                    mid,
                    *engine,
                    texts(old(out)@),
                    held,
                    script,
                    *pager,
                ));
                if let Some(mark) = self.punctuation.resolve(script, key) {
                    commit_text(out, mark.to_owned());
                }
                assert(ended(*old(self), texts(old(out)@), held, script, (*old(engine)) is None));
            },
            Compose::Cancel => self.abandon(engine, pager),
        }
        Composed::Took
    }

    /// Offer a keystroke to the input method of a language, where it has one and
    /// it is on.
    pub fn key<E: Ime, P: Fn(&Vec<String>) -> Vec<usize>>(
        &mut self,
        engine: &mut Option<E>,
        action: &Action,
        language: Language,
        on: bool,
        pager: &P,
        out: &mut Vec<String>,
    ) -> (r: Composed)
        requires
            pages_in_order(*pager),
            old(self).wf(),
        ensures
            final(self).wf(),
            key_engine_step(
                *old(self),
                *old(engine),
                *final(self),
                *final(engine),
                texts(old(out)@),
                texts(final(out)@),
                *action,
                language,
                on,
                *pager,
            ),
            r == composed_by(*old(self), *action, language, on),
            key_step(
                *old(self),
                *final(self),
                texts(old(out)@),
                texts(final(out)@),
                *action,
                language,
                on,
                (*old(engine)) is None,
            ),
            key_repages(*old(self), *action, language, on, (*old(engine)) is None)
                ==> pager.ensures((&final(self).candidates,), final(self).pages),
    {
        if !on {
            return Composed::Passed;
        }
        let script = match language.script() {
            Some(script) => script,
            None => return Composed::Passed,
        };
        let compose = compose(action, self.composing(), script);
        proof {
            crate::ime::hangul_is_composed_apart(*action, self.under_way(), script);
        }
        if script == Script::Korean {
            self.hangul(compose, out)
        } else {
            self.plugin(engine, compose, script, pager, out)
        }
    }
}

/// The keys of a word are not text: feeding them, turning the page of what is offered,
/// and dropping the word all leave what was committed as it was.
pub proof fn a_word_under_way_is_not_in_the_document(
    before: Composition,
    after: Composition,
    out: Seq<Seq<char>>,
    now: Seq<Seq<char>>,
    compose: Compose,
    script: Script,
    bare: bool,
)
    requires
        plugin_step(before, after, out, now, compose, script, bare),
        compose is Feed || compose is NextPage || compose is PreviousPage || compose is Cancel,
    ensures
        now == out,
{
}

/// A key that is passed leaves the word and what was committed as they were.
pub proof fn a_key_that_passes_changes_nothing(
    before: Composition,
    after: Composition,
    out: Seq<Seq<char>>,
    now: Seq<Seq<char>>,
    action: Action,
    language: Language,
    on: bool,
    bare: bool,
)
    requires
        key_step(before, after, out, now, action, language, on, bare),
        composed_by(before, action, language, on) == Composed::Passed,
    ensures
        after == before,
        now == out,
{
}

/// A capital is the last text that is committed, after whatever the word came to.
pub proof fn a_capital_follows_the_word(
    before: Composition,
    after: Composition,
    out: Seq<Seq<char>>,
    now: Seq<Seq<char>>,
    c: char,
    script: Script,
    bare: bool,
)
    requires
        plugin_step(before, after, out, now, Compose::Latin(c), script, bare),
    ensures
        now.len() > out.len(),
        now.last() == seq![c],
        out.is_prefix_of(now),
        !before.under_way() ==> now == out.push(seq![c]),
{
    let held = choose|held: Seq<Seq<char>>| #[trigger]
        ended(before, out, held, script, bare) && now == committed(held, seq![c]);
    assert(ended(before, out, held, script, bare));
    assert(out.is_prefix_of(held));
    assert(now == held.push(seq![c]));
}

proof fn lemma_prefix(a: Seq<Seq<char>>, b: Seq<Seq<char>>, c: Seq<Seq<char>>)
    requires
        a.is_prefix_of(b),
        b.is_prefix_of(c),
    ensures
        a.is_prefix_of(c),
{
    assert(a =~= c.subrange(0, a.len() as int)) by {
        assert(a == b.subrange(0, a.len() as int));
        assert(b == c.subrange(0, b.len() as int));
        assert forall|i: int| 0 <= i < a.len() implies a[i] == c[i] by {
            assert(b.subrange(0, a.len() as int)[i] == b[i]);
            assert(c.subrange(0, b.len() as int)[i] == c[i]);
        }
    }
}

// ---------------------------------------------------------------------------
// What one keystroke undoes of another, and what a word comes to
// ---------------------------------------------------------------------------

/// While candidates are offered, turning to the previous page from any page after the
/// first shows the page just before it, and stays on the first.
pub proof fn the_previous_page_is_the_one_before(
    before: Composition,
    after: Composition,
    out: Seq<Seq<char>>,
    now: Seq<Seq<char>>,
    script: Script,
    bare: bool,
)
    requires
        before.candidates@.len() > 0,
        plugin_step(before, after, out, now, Compose::PreviousPage, script, bare),
    ensures
        before.page > 0 ==> after.page + 1 == before.page,
        before.page == 0 ==> after.page == 0,
        after.bar() == on_page(before.candidates@, before.pages@, after.page as int),
        after.candidates == before.candidates,
        after.preedit == before.preedit,
{
}

/// Turning to the next page shows the page just after, and stays on the last.
pub proof fn the_next_page_is_the_one_after(
    before: Composition,
    after: Composition,
    out: Seq<Seq<char>>,
    now: Seq<Seq<char>>,
    script: Script,
    bare: bool,
)
    requires
        before.candidates@.len() > 0,
        before.page < before.pages@.len(),
        plugin_step(before, after, out, now, Compose::NextPage, script, bare),
    ensures
        before.page + 1 < before.pages@.len() ==> after.page == before.page + 1,
        before.page + 1 == before.pages@.len() ==> after.page == before.page,
        after.bar() == on_page(before.candidates@, before.pages@, after.page as int),
        after.candidates == before.candidates,
        after.preedit == before.preedit,
{
    assert(before.pages.len() == before.pages@.len());
}

/// A page turned on and then back is the page it was, with the bar that was shown.
pub proof fn a_page_turned_on_and_back_is_where_it_was(
    before: Composition,
    there: Composition,
    back: Composition,
    out: Seq<Seq<char>>,
    now: Seq<Seq<char>>,
    last: Seq<Seq<char>>,
    script: Script,
    bare: bool,
)
    requires
        before.candidates@.len() > 0,
        plugin_step(before, there, out, now, Compose::NextPage, script, bare),
        there.page != before.page,
        plugin_step(there, back, now, last, Compose::PreviousPage, script, bare),
    ensures
        back == before,
        back.bar() == before.bar(),
        last == out,
{
    assert(before.pages.len() == before.pages@.len());
}

/// The candidate that is taken is the one at its place on the bar: that far past where
/// the page begins in the list. Past the last one nothing is taken.
pub proof fn the_candidate_at_its_place_is_taken(
    before: Composition,
    after: Composition,
    out: Seq<Seq<char>>,
    now: Seq<Seq<char>>,
    n: usize,
    script: Script,
    bare: bool,
)
    requires
        before.wf(),
        plugin_step(before, after, out, now, Compose::Select(n), script, bare),
    ensures
        ({
            let from = before.pages@[before.page as int] as int;
            let to = if before.page + 1 < before.pages@.len() {
                before.pages@[before.page + 1] as int
            } else {
                before.candidates@.len() as int
            };
            if before.page < before.pages@.len() && from + n < to && from + n
                < before.candidates@.len() {
                now == committed(out, before.candidates@[from + n]@)
            } else {
                now == out && after == before
            }
        }),
{
}

/// The letters of a word come out as they were struck: each goes to the end, Backspace
/// takes the last one off, and taking the letters commits them all.
pub proof fn letters_come_out_as_they_were_struck(
    before: Composition,
    struck: Composition,
    back: Composition,
    taken: Composition,
    out: Seq<Seq<char>>,
    now: Seq<Seq<char>>,
    then_out: Seq<Seq<char>>,
    last: Seq<Seq<char>>,
    c: char,
    script: Script,
    bare: bool,
)
    requires
        c != BACK,
        plugin_step(before, struck, out, now, Compose::Feed(c), script, bare),
        plugin_step(struck, back, now, then_out, Compose::Feed(BACK), script, bare),
        plugin_step(struck, taken, now, last, Compose::CommitTyped, script, bare),
    ensures
        back.typed@ == before.typed@,
        then_out == out,
        last == out.push(before.typed@.push(c)),
        taken.typed@.len() == 0 && !taken.under_way(),
{
    assert(before.typed@.push(c).drop_last() =~= before.typed@);
}

/// Taking a word as it is composed commits what was shown of it, and dropping it commits
/// nothing; either way nothing of it is left.
pub proof fn a_word_goes_as_it_is_shown_or_not_at_all(
    before: Composition,
    taken: Composition,
    dropped: Composition,
    out: Seq<Seq<char>>,
    now: Seq<Seq<char>>,
    then_out: Seq<Seq<char>>,
    script: Script,
    bare: bool,
)
    requires
        before.preedit@.len() > 0,
        plugin_step(before, taken, out, now, Compose::CommitRaw, script, bare),
        plugin_step(before, dropped, out, then_out, Compose::Cancel, script, bare),
    ensures
        now == out.push(before.preedit@),
        then_out == out,
        taken.idle() && dropped.idle(),
{
}

/// A mark comes after the word that it ends, and no text is lost before it. Where
/// nothing is being composed it comes alone.
pub proof fn a_mark_follows_the_word(
    before: Composition,
    after: Composition,
    out: Seq<Seq<char>>,
    now: Seq<Seq<char>>,
    key: char,
    mark: Seq<char>,
    script: Script,
    bare: bool,
)
    requires
        plugin_step(before, after, out, now, Compose::Punctuate(key), script, bare),
        before.punctuation.written(script, key) == Some(mark),
        mark.len() > 0,
    ensures
        now.len() > out.len(),
        now.last() == mark,
        out.is_prefix_of(now),
        !before.under_way() ==> now == out.push(mark),
        before.under_way() && script == Script::Japanese && before.preedit@.len() > 0 ==> now
            == out.push(before.preedit@).push(mark),
        before.under_way() && script == Script::Chinese && before.bar().len() > 0
            && before.bar()[0]@.len() > 0 ==> now[out.len() as int] == before.bar()[0]@,
{
    let held = choose|held: Seq<Seq<char>>| #[trigger]
        ended(before, out, held, script, bare) && now == (
        match before.punctuation.written(script, key) {
            Some(mark) => committed(held, mark),
            None => held,
        });
    assert(ended(before, out, held, script, bare));
    assert(out.is_prefix_of(held));
    assert(now == held.push(mark));
}

/// What an engine leaves of a word goes on being composed: its reading is what is typed
/// and shown, its candidates are offered, and where it leaves nothing the word is over.
pub proof fn what_is_left_goes_on_being_composed<P: Fn(&Vec<String>) -> Vec<usize>>(
    before: Composition,
    after: Composition,
    rest: Rest,
    pager: P,
)
    requires
        taken(before, after, Some(rest), pager),
    ensures
        after.typed@ == rest.reading@,
        after.preedit@ == rest.reading@,
        after.candidates == rest.candidates,
        after.page == 0,
        !after.under_way() <==> rest.reading@.len() == 0 && rest.candidates@.len() == 0,
{
}

/// While a word is finished, the candidate on the bar is committed, and after it what is
/// left of the reading where nothing more is to be taken for it.
pub proof fn finishing_loses_no_reading<P: Fn(&Vec<String>) -> Vec<usize>>(
    before: Composition,
    after: Composition,
    out: Seq<Seq<char>>,
    now: Seq<Seq<char>>,
    rest: Option<Rest>,
    last: bool,
    again: bool,
    pager: P,
)
    requires
        before.bar().len() > 0,
        before.bar()[0]@.len() > 0,
        finished_by(before, after, out, now, rest, last, again, pager),
    ensures
        now.len() > out.len(),
        now[out.len() as int] == before.bar()[0]@,
        again ==> now == out.push(before.bar()[0]@) && after.typed@ == rest->0.reading@,
        !again && rest is Some && rest->0.reading@.len() > 0 ==> now == out.push(
            before.bar()[0]@,
        ).push(rest->0.reading@) && !after.under_way(),
        !again && rest is None ==> now == out.push(before.bar()[0]@) && !after.under_way(),
        again <==> !last && rest is Some && rest->0.candidates@.len() > 0,
{
}

/// Hangul: a key that finishes nothing shows the syllable it went into, one that
/// finishes a syllable commits it, and a key that is no jamo ends the syllable with
/// what it showed.
pub proof fn a_syllable_is_committed_as_it_showed(
    before: Composition,
    after: Composition,
    out: Seq<Seq<char>>,
    now: Seq<Seq<char>>,
)
    requires
        hangul_step(before, after, out, now, Compose::Finish),
    ensures
        after.preedit@.len() == 0,
        after.korean == Korean::empty(),
        before.korean.shown().len() > 0 ==> now == out.push(before.korean.shown()),
{
}

/// Hangul: what was committed and what is shown hold every jamo that was struck.
pub proof fn no_jamo_is_lost(
    before: Composition,
    after: Composition,
    out: Seq<Seq<char>>,
    now: Seq<Seq<char>>,
    key: char,
)
    requires
        before.korean.wf(),
        crate::hangul::jamo_of(key) is Some,
        hangul_step(before, after, out, now, Compose::Jamo(key)),
    ensures
        after.preedit@ == after.korean.shown(),
        exists|done: Korean| #[trigger]
            done.wf() && now == committed(out, done.shown()) && done.jamo() + after.korean.jamo()
                == before.korean.jamo().push(crate::hangul::jamo_of(key)->0),
{
    crate::hangul::every_keystroke_is_kept(before.korean, key);
    crate::hangul::a_finished_syllable_is_well_formed(before.korean, key);
    let done = before.korean.pressed(key).1;
    assert(done.wf());
}

/// Text is written on the page unless a name or the find bar is open, and into a name
/// before the find bar.
pub proof fn text_goes_to_what_is_on_top(naming: bool, finding: bool)
    ensures
        sink_of(naming, finding) == Sink::Page <==> !naming && !finding,
        sink_of(naming, finding) == Sink::Name <==> naming,
{
}

} // verus!
