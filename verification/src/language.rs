//! The input sources: what each is called, what it is typed with, and which
//! comes after which.

use vstd::prelude::*;

use crate::font::Group;
use crate::ime::Script;
use crate::keymap::Layout;
use crate::script::Region;
use crate::text::{chars_of, is_text, trim, trimmed};

verus! {

/// An input source.
#[derive(Debug, Clone, Copy, PartialEq, Eq, Structural)]
pub enum Language {
    English,
    German,
    Chinese,
    /// Traditional Chinese: the Simplified engine, with its candidates converted.
    ChineseTraditional,
    Japanese,
    Korean,
}

impl Default for Language {
    fn default() -> (r: Self)
        ensures
            r == Language::English,
    {
        Language::English
    }
}

/// How many input sources there are.
pub const LANGUAGES: usize = 6;

impl Language {
    /// Every input source, in the order they are cycled through.
    pub const ALL: [Language; 6] = [
        Language::English,
        Language::German,
        Language::Chinese,
        Language::ChineseTraditional,
        Language::Japanese,
        Language::Korean,
    ];

    pub open spec fn index(self) -> int {
        match self {
            Language::English => 0,
            Language::German => 1,
            Language::Chinese => 2,
            Language::ChineseTraditional => 3,
            Language::Japanese => 4,
            Language::Korean => 5,
        }
    }

    pub open spec fn nth(i: int) -> Language {
        if i == 0 {
            Language::English
        } else if i == 1 {
            Language::German
        } else if i == 2 {
            Language::Chinese
        } else if i == 3 {
            Language::ChineseTraditional
        } else if i == 4 {
            Language::Japanese
        } else {
            Language::Korean
        }
    }

    pub fn at(i: usize) -> (r: Language)
        ensures
            r == Language::nth(i as int),
    {
        if i == 0 {
            Language::English
        } else if i == 1 {
            Language::German
        } else if i == 2 {
            Language::Chinese
        } else if i == 3 {
            Language::ChineseTraditional
        } else if i == 4 {
            Language::Japanese
        } else {
            Language::Korean
        }
    }

    pub fn place(self) -> (r: usize)
        ensures
            r == self.index(),
            r < LANGUAGES,
    {
        match self {
            Language::English => 0,
            Language::German => 1,
            Language::Chinese => 2,
            Language::ChineseTraditional => 3,
            Language::Japanese => 4,
            Language::Korean => 5,
        }
    }

    pub open spec fn labelled(self) -> Seq<char> {
        match self {
            Language::English => "EN"@,
            Language::German => "DE"@,
            Language::Chinese => "简"@,
            Language::ChineseTraditional => "繁"@,
            Language::Japanese => "日"@,
            Language::Korean => "한"@,
        }
    }

    pub open spec fn lettered(self) -> char {
        match self {
            Language::English => 'e',
            Language::German => 'd',
            Language::Chinese => 'c',
            Language::ChineseTraditional => 't',
            Language::Japanese => 'j',
            Language::Korean => 'k',
        }
    }

    pub open spec fn of_letter(s: Seq<char>) -> Language {
        let s = trim(s);
        if s == "d"@ {
            Language::German
        } else if s == "c"@ {
            Language::Chinese
        } else if s == "t"@ {
            Language::ChineseTraditional
        } else if s == "j"@ {
            Language::Japanese
        } else if s == "k"@ {
            Language::Korean
        } else {
            Language::English
        }
    }

    pub open spec fn converts(self) -> bool {
        self == Language::ChineseTraditional
    }

    pub open spec fn typed_through(self) -> Option<Script> {
        match self {
            Language::Chinese => Some(Script::Chinese),
            Language::ChineseTraditional => Some(Script::Chinese),
            Language::Japanese => Some(Script::Japanese),
            Language::Korean => Some(Script::Korean),
            _ => None,
        }
    }

    pub open spec fn convention(self) -> Option<Region> {
        match self {
            Language::Chinese => Some(Region::Simplified),
            Language::ChineseTraditional => Some(Region::Traditional),
            Language::Japanese => Some(Region::Japanese),
            _ => None,
        }
    }

    pub open spec fn set_in(self) -> Group {
        match self {
            Language::Chinese => Group::Han(Region::Simplified),
            Language::ChineseTraditional => Group::Han(Region::Traditional),
            Language::Japanese => Group::Han(Region::Japanese),
            Language::Korean => Group::Hangul,
            _ => Group::Latin,
        }
    }

    pub open spec fn written_on(self) -> Layout {
        if self == Language::German {
            Layout::German
        } else {
            Layout::Us
        }
    }

    /// The source `step` places further round the cycle.
    pub open spec fn further(self, step: int) -> Language {
        Language::nth((self.index() + step) % (LANGUAGES as int))
    }

    /// The first enabled source, from `step` places further on to once round.
    pub open spec fn next_from(self, enabled: Seq<Language>, step: int) -> Language
        decreases LANGUAGES - step + 1,
    {
        if step > LANGUAGES {
            self
        } else if enabled.contains(self.further(step)) {
            self.further(step)
        } else {
            self.next_from(enabled, step + 1)
        }
    }

    /// What the button says: the language in its own script.
    pub fn label(self) -> (r: &'static str)
        ensures
            r@ == self.labelled(),
    {
        match self {
            Language::English => "EN",
            Language::German => "DE",
            Language::Chinese => "简",
            Language::ChineseTraditional => "繁",
            Language::Japanese => "日",
            Language::Korean => "한",
        }
    }

    /// The letter a source is remembered by.
    pub fn letter(self) -> (r: char)
        ensures
            r == self.lettered(),
    {
        match self {
            Language::English => 'e',
            Language::German => 'd',
            Language::Chinese => 'c',
            Language::ChineseTraditional => 't',
            Language::Japanese => 'j',
            Language::Korean => 'k',
        }
    }

    /// The source of a letter; English for any other text.
    pub fn from_letter(s: &str) -> (r: Language)
        ensures
            r == Language::of_letter(s@),
    {
        let s = chars_of(s);
        let s = trimmed(&s);
        if is_text(&s, "d") {
            Language::German
        } else if is_text(&s, "c") {
            Language::Chinese
        } else if is_text(&s, "t") {
            Language::ChineseTraditional
        } else if is_text(&s, "j") {
            Language::Japanese
        } else if is_text(&s, "k") {
            Language::Korean
        } else {
            Language::English
        }
    }

    /// Whether the engine converts its candidates to Traditional.
    pub fn traditional(self) -> (r: bool)
        ensures
            r == self.converts(),
    {
        matches!(self, Language::ChineseTraditional)
    }

    /// Which input method's rules apply; none for what is typed straight onto the
    /// page.
    pub fn script(self) -> (r: Option<Script>)
        ensures
            r == self.typed_through(),
    {
        match self {
            Language::Chinese => Some(Script::Chinese),
            Language::ChineseTraditional => Some(Script::Chinese),
            Language::Japanese => Some(Script::Japanese),
            Language::Korean => Some(Script::Korean),
            _ => None,
        }
    }

    /// Which regional convention the Han faces follow; none holds the one there
    /// is.
    pub fn region(self) -> (r: Option<Region>)
        ensures
            r == self.convention(),
    {
        match self {
            Language::Chinese => Some(Region::Simplified),
            Language::ChineseTraditional => Some(Region::Traditional),
            Language::Japanese => Some(Region::Japanese),
            _ => None,
        }
    }

    /// Which writing system's faces this source is set from.
    pub fn font_group(self) -> (r: Group)
        ensures
            r == self.set_in(),
    {
        match self.region() {
            Some(region) => Group::Han(region),
            None => if self == Language::Korean {
                Group::Hangul
            } else {
                Group::Latin
            },
        }
    }

    /// The next enabled source in the cycle, or this one where none is.
    pub fn next(self, enabled: &[Language]) -> (r: Language)
        ensures
            r == self.next_from(enabled@, 1),
    {
        let from: usize = self.place();
        let mut step: usize = 1;
        while step <= LANGUAGES
            invariant
                1 <= step <= LANGUAGES + 1,
                from == self.index(),
                from < LANGUAGES,
                self.next_from(enabled@, 1) == self.next_from(enabled@, step as int),
            decreases LANGUAGES + 1 - step,
        {
            let candidate = Language::at((from + step) % LANGUAGES);
            if lists(enabled, candidate) {
                return candidate;
            }
            step = step + 1;
        }
        self
    }

    /// The keyboard arrangement this source is written on.
    pub fn layout(self) -> (r: Layout)
        ensures
            r == self.written_on(),
    {
        match self {
            Language::German => Layout::German,
            _ => Layout::Us,
        }
    }
}

/// Whether a list has a source in it.
pub fn lists(list: &[Language], language: Language) -> (r: bool)
    ensures
        r == list@.contains(language),
{
    let mut i: usize = 0;
    while i < list.len()
        invariant
            i <= list.len(),
            forall|k: int| 0 <= k < i ==> list@[k] != language,
        decreases list.len() - i,
    {
        if list[i] == language {
            assert(list@[i as int] == language);
            return true;
        }
        i = i + 1;
    }
    false
}

/// The first `n` sources of the cycle that a list has, in the order of the cycle.
pub open spec fn members(list: Seq<Language>, n: int) -> Seq<Language>
    decreases n,
{
    if n <= 0 {
        seq![]
    } else if list.contains(Language::nth(n - 1)) {
        members(list, n - 1).push(Language::nth(n - 1))
    } else {
        members(list, n - 1)
    }
}

/// The first `n` sources of the cycle whose letter is in a text.
pub open spec fn lettered_in(stored: Seq<char>, n: int) -> Seq<Language>
    decreases n,
{
    if n <= 0 {
        seq![]
    } else if stored.contains(Language::nth(n - 1).lettered()) {
        lettered_in(stored, n - 1).push(Language::nth(n - 1))
    } else {
        lettered_in(stored, n - 1)
    }
}

/// Every source, in the order of the cycle.
pub open spec fn every_language() -> Seq<Language> {
    Seq::new(LANGUAGES as nat, |i: int| Language::nth(i))
}

/// The enabled sources that a text of letters remembers: those whose letter is in
/// it, and all of them where none is.
pub open spec fn remembered(stored: Seq<char>) -> Seq<Language> {
    let chosen = lettered_in(stored, LANGUAGES as int);
    if chosen.len() == 0 {
        every_language()
    } else {
        chosen
    }
}

pub fn read_languages(stored: &str) -> (r: Vec<Language>)
    ensures
        r@ == remembered(stored@),
        r.len() > 0,
{
    let chars = chars_of(stored);
    let mut chosen: Vec<Language> = Vec::new();
    let mut all: Vec<Language> = Vec::new();
    let mut i: usize = 0;
    while i < LANGUAGES
        invariant
            i <= LANGUAGES,
            chars@ == stored@,
            chosen@ == lettered_in(stored@, i as int),
            all@ == every_language().take(i as int),
        decreases LANGUAGES - i,
    {
        let language = Language::at(i);
        let at: usize = crate::text::next_at(&chars, 0, language.letter());
        proof {
            assert(chars@.skip(0) =~= chars@);
            crate::text::lemma_until_is(chars@, language.lettered());
            if at < chars.len() {
                assert(chars@[at as int] == language.lettered());
            }
        }
        if at < chars.len() {
            chosen.push(language);
        }
        all.push(language);
        assert(all@ =~= every_language().take(i + 1));
        i = i + 1;
    }
    assert(every_language().take(i as int) =~= every_language());
    if chosen.len() == 0 {
        all
    } else {
        chosen
    }
}

/// The letters of some sources, in order.
pub fn write_languages(enabled: &[Language]) -> (r: String)
    ensures
        r@ == enabled@.map_values(|l: Language| l.lettered()),
{
    let mut out = String::new();
    let mut i: usize = 0;
    while i < enabled.len()
        invariant
            i <= enabled.len(),
            out@.len() == i,
            forall|k: int| 0 <= k < i ==> (#[trigger] out@[k]) == enabled@[k].lettered(),
        decreases enabled.len() - i,
    {
        out.push(enabled[i].letter());
        i = i + 1;
    }
    assert(out@ =~= enabled@.map_values(|l: Language| l.lettered()));
    out
}

/// A list without a source.
pub open spec fn without(list: Seq<Language>, language: Language) -> Seq<Language>
    decreases list.len(),
{
    if list.len() == 0 {
        seq![]
    } else if list.last() == language {
        without(list.drop_last(), language)
    } else {
        without(list.drop_last(), language).push(list.last())
    }
}

/// The enabled sources after one was switched: off where it was on, unless it is
/// the last, and on in its place in the cycle where it was off.
pub open spec fn switched(enabled: Seq<Language>, language: Language) -> Seq<Language> {
    if enabled.contains(language) {
        if enabled.len() == 1 {
            enabled
        } else {
            without(enabled, language)
        }
    } else {
        members(enabled.push(language), LANGUAGES as int)
    }
}

/// Whether sources stand in the order of the cycle, each once.
pub open spec fn in_order(enabled: Seq<Language>) -> bool {
    forall|i: int, j: int|
        0 <= i < j < enabled.len() ==> (#[trigger] enabled[i]).index() < (
        #[trigger] enabled[j]).index()
}

/// Switch a source on or off. The last one stays on, which is told by `false`.
pub fn toggle(enabled: &mut Vec<Language>, language: Language) -> (r: bool)
    requires
        in_order(old(enabled)@),
    ensures
        final(enabled)@ == switched(old(enabled)@, language),
        r == !(old(enabled)@.contains(language) && old(enabled).len() == 1),
{
    if lists(enabled.as_slice(), language) {
        if enabled.len() == 1 {
            return false;
        }
        let mut kept: Vec<Language> = Vec::new();
        let mut i: usize = 0;
        while i < enabled.len()
            invariant
                i <= enabled.len(),
                enabled@ == old(enabled)@,
                kept@ == without(enabled@.take(i as int), language),
            decreases enabled.len() - i,
        {
            let held = enabled[i];
            assert(enabled@.take(i + 1).drop_last() =~= enabled@.take(i as int));
            if held != language {
                kept.push(held);
            }
            i = i + 1;
        }
        assert(enabled@.take(i as int) =~= enabled@);
        *enabled = kept;
    } else {
        enabled.push(language);
        let mut all: Vec<Language> = Vec::new();
        let mut i: usize = 0;
        while i < LANGUAGES
            invariant
                i <= LANGUAGES,
                enabled@ == old(enabled)@.push(language),
                all@ == members(enabled@, i as int),
            decreases LANGUAGES - i,
        {
            let candidate = Language::at(i);
            if lists(enabled.as_slice(), candidate) {
                all.push(candidate);
            }
            i = i + 1;
        }
        *enabled = all;
    }
    true
}

/// The writing systems that some sources are set in, each once, in the order of
/// the cycle.
pub open spec fn groups_of(enabled: Seq<Language>, n: int) -> Seq<Group>
    decreases n,
{
    if n <= 0 {
        seq![]
    } else {
        let before = groups_of(enabled, n - 1);
        let language = Language::nth(n - 1);
        if enabled.contains(language) && !before.contains(language.set_in()) {
            before.push(language.set_in())
        } else {
            before
        }
    }
}

pub fn font_groups(enabled: &[Language]) -> (r: Vec<Group>)
    ensures
        r@ == groups_of(enabled@, LANGUAGES as int),
{
    let mut groups: Vec<Group> = Vec::new();
    let mut i: usize = 0;
    while i < LANGUAGES
        invariant
            i <= LANGUAGES,
            groups@ == groups_of(enabled@, i as int),
        decreases LANGUAGES - i,
    {
        let language = Language::at(i);
        if lists(enabled, language) {
            let group = language.font_group();
            let mut known = false;
            let mut k: usize = 0;
            while k < groups.len()
                invariant
                    k <= groups.len(),
                    known == exists|j: int| 0 <= j < k && groups@[j] == group,
                decreases groups.len() - k,
            {
                if groups[k] == group {
                    known = true;
                }
                k = k + 1;
            }
            assert(known == groups@.contains(group));
            if !known {
                groups.push(group);
            }
        }
        i = i + 1;
    }
    groups
}

// ---------------------------------------------------------------------------
// What holds of every source
// ---------------------------------------------------------------------------

/// A source written as its letter reads back as itself.
pub proof fn a_language_survives_being_written_down(language: Language)
    ensures
        Language::of_letter(seq![language.lettered()]) == language,
{
    reveal_strlit("d");
    reveal_strlit("c");
    reveal_strlit("t");
    reveal_strlit("j");
    reveal_strlit("k");
    let s = seq![language.lettered()];
    crate::text::lemma_trim_nothing(s);
    assert(s[0] == language.lettered());
    assert("d"@ =~= seq!['d']);
    assert("c"@ =~= seq!['c']);
    assert("t"@ =~= seq!['t']);
    assert("j"@ =~= seq!['j']);
    assert("k"@ =~= seq!['k']);
    assert(seq!['d'][0] == 'd');
    assert(seq!['c'][0] == 'c');
    assert(seq!['t'][0] == 't');
    assert(seq!['j'][0] == 'j');
    assert(seq!['k'][0] == 'k');
}

/// Where any source is enabled, the next one is; where only this one is, it is
/// the next.
pub proof fn the_next_language_is_enabled(language: Language, enabled: Seq<Language>)
    requires
        enabled.len() > 0,
    ensures
        enabled.contains(language.next_from(enabled, 1)),
{
    let some = enabled[0];
    let step = if some.index() > language.index() {
        some.index() - language.index()
    } else {
        some.index() - language.index() + 6
    };
    assert(language.further(step) == some);
    lemma_next_reaches(language, enabled, 1, step);
}

proof fn lemma_next_reaches(language: Language, enabled: Seq<Language>, from: int, step: int)
    requires
        1 <= from <= step <= LANGUAGES,
        enabled.contains(language.further(step)),
    ensures
        enabled.contains(language.next_from(enabled, from)),
    decreases step - from,
{
    if !enabled.contains(language.further(from)) {
        lemma_next_reaches(language, enabled, from + 1, step);
    }
}

/// The next source is the nearest: no enabled one comes before it in the cycle.
pub proof fn the_next_language_is_the_nearest(language: Language, enabled: Seq<Language>, step: int)
    requires
        1 <= step <= LANGUAGES,
        language.further(step) == language.next_from(enabled, 1),
        forall|k: int| 1 <= k < step ==> #[trigger] language.further(k) != language.next_from(enabled, 1),
    ensures
        forall|k: int| 1 <= k < step ==> !enabled.contains(#[trigger] language.further(k)),
{
    assert forall|k: int| 1 <= k < step implies !enabled.contains(#[trigger] language.further(k)) by {
        lemma_nothing_nearer(language, enabled, 1, k);
    }
}

proof fn lemma_nothing_nearer(language: Language, enabled: Seq<Language>, from: int, k: int)
    requires
        1 <= from <= k <= LANGUAGES,
        forall|j: int| from <= j <= k ==> #[trigger] language.further(j) != language.next_from(enabled, from),
    ensures
        !enabled.contains(language.further(k)),
    decreases k - from,
{
    assert(language.further(from) != language.next_from(enabled, from));
    if from < k {
        assert(language.next_from(enabled, from) == language.next_from(enabled, from + 1));
        lemma_nothing_nearer(language, enabled, from + 1, k);
    }
}

proof fn lemma_members(list: Seq<Language>, n: int)
    requires
        0 <= n <= LANGUAGES,
    ensures
        in_order(members(list, n)),
        forall|i: int|
            0 <= i < members(list, n).len() ==> (#[trigger] members(list, n)[i]).index() < n,
        forall|l: Language|
            #[trigger] members(list, n).contains(l) == (l.index() < n && list.contains(l)),
    decreases n,
{
    if n > 0 {
        lemma_members(list, n - 1);
        let s = members(list, n);
        let before = members(list, n - 1);
        let last = Language::nth(n - 1);
        assert forall|l: Language| #[trigger] s.contains(l) == (l.index() < n && list.contains(
            l,
        )) by {
            if before.contains(l) {
                let i = choose|i: int| 0 <= i < before.len() && before[i] == l;
                assert(s[i] == l);
            }
            if l == last && list.contains(l) {
                assert(s[s.len() - 1] == l);
            }
            if s.contains(l) {
                let i = choose|i: int| 0 <= i < s.len() && s[i] == l;
                if i < before.len() {
                    assert(before[i] == l);
                    assert(before.contains(l));
                }
            }
        }
    }
}

proof fn lemma_without(list: Seq<Language>, language: Language)
    requires
        in_order(list),
    ensures
        in_order(without(list, language)),
        forall|l: Language|
            #[trigger] without(list, language).contains(l) == (l != language && list.contains(l)),
    decreases list.len(),
{
    if list.len() > 0 {
        let front = list.drop_last();
        lemma_without(front, language);
        let kept = without(list, language);
        let before = without(front, language);
        assert forall|l: Language| #[trigger] kept.contains(l) == (l != language && list.contains(
            l,
        )) by {
            if kept.contains(l) {
                let i = choose|i: int| 0 <= i < kept.len() && kept[i] == l;
                if i < before.len() {
                    assert(before[i] == l);
                    assert(before.contains(l));
                    let k = choose|k: int| 0 <= k < front.len() && front[k] == l;
                    assert(list[k] == l);
                } else {
                    assert(list[list.len() - 1] == l);
                }
            }
            if list.contains(l) && l != language {
                let k = choose|k: int| 0 <= k < list.len() && list[k] == l;
                if k < list.len() - 1 {
                    assert(front[k] == l);
                    assert(before.contains(l));
                    let i = choose|i: int| 0 <= i < before.len() && before[i] == l;
                    assert(kept[i] == l);
                } else {
                    assert(kept[kept.len() - 1] == l);
                }
            }
        }
        assert forall|i: int, j: int| 0 <= i < j < kept.len() implies (#[trigger] kept[i]).index() < (
        #[trigger] kept[j]).index() by {
            assert(before[i] == kept[i]);
            if j < before.len() {
                assert(before[j] == kept[j]);
            } else {
                assert(before.contains(kept[i]));
                let k = choose|k: int| 0 <= k < front.len() && front[k] == kept[i];
                assert(list[k].index() < list[list.len() - 1].index());
            }
        }
    }
}

/// Switching a source keeps the order, never leaves none, and changes no other
/// source.
pub proof fn switching_keeps_the_order(enabled: Seq<Language>, language: Language)
    requires
        in_order(enabled),
        enabled.len() > 0,
    ensures
        in_order(switched(enabled, language)),
        switched(enabled, language).len() > 0,
        forall|l: Language|
            l != language ==> (#[trigger] switched(enabled, language).contains(l) == enabled.contains(l)),
        enabled.len() > 1 || !enabled.contains(language) ==> switched(enabled, language).contains(
            language,
        ) == !enabled.contains(language),
{
    let s = switched(enabled, language);
    if enabled.contains(language) {
        if enabled.len() > 1 {
            lemma_without(enabled, language);
            assert(enabled[0].index() < enabled[1].index());
            let other = if enabled[0] == language {
                enabled[1]
            } else {
                enabled[0]
            };
            assert(enabled.contains(other));
            assert(s.contains(other));
        }
    } else {
        let more = enabled.push(language);
        lemma_members(more, LANGUAGES as int);
        assert(more[enabled.len() as int] == language);
        assert(s.contains(language));
        assert forall|l: Language| l != language implies (#[trigger] s.contains(l)
            == enabled.contains(l)) by {
            if more.contains(l) {
                let i = choose|i: int| 0 <= i < more.len() && more[i] == l;
                assert(enabled[i] == l);
            }
            if enabled.contains(l) {
                let i = choose|i: int| 0 <= i < enabled.len() && enabled[i] == l;
                assert(more[i] == l);
            }
        }
    }
}

/// The sources that are read back are those that were written, where any was:
/// a set in the order of the cycle survives.
pub proof fn enabled_languages_survive_being_written_down(enabled: Seq<Language>)
    requires
        in_order(enabled),
        enabled.len() > 0,
    ensures
        remembered(enabled.map_values(|l: Language| l.lettered())) == enabled,
{
    let stored = enabled.map_values(|l: Language| l.lettered());
    assert forall|l: Language| #[trigger] stored.contains(l.lettered()) == enabled.contains(l) by {
        if stored.contains(l.lettered()) {
            let i = choose|i: int| 0 <= i < stored.len() && stored[i] == l.lettered();
            assert(enabled[i].lettered() == l.lettered());
            assert(enabled[i] == l);
        }
        if enabled.contains(l) {
            let i = choose|i: int| 0 <= i < enabled.len() && enabled[i] == l;
            assert(stored[i] == l.lettered());
        }
    }
    lemma_lettered(stored, enabled, LANGUAGES as int);
    lemma_members(enabled, LANGUAGES as int);
    lemma_same_order(members(enabled, LANGUAGES as int), enabled);
}

proof fn lemma_lettered(stored: Seq<char>, list: Seq<Language>, n: int)
    requires
        forall|l: Language| #[trigger] stored.contains(l.lettered()) == list.contains(l),
    ensures
        lettered_in(stored, n) == members(list, n),
    decreases n,
{
    if n > 0 {
        lemma_lettered(stored, list, n - 1);
        assert(stored.contains(Language::nth(n - 1).lettered()) == list.contains(
            Language::nth(n - 1),
        ));
    }
}

/// Two lists in order with the same members are the same.
proof fn lemma_same_order(a: Seq<Language>, b: Seq<Language>)
    requires
        in_order(a),
        in_order(b),
        forall|l: Language| #[trigger] a.contains(l) == b.contains(l),
    ensures
        a == b,
    decreases a.len(),
{
    if a.len() == 0 {
        if b.len() > 0 {
            assert(b.contains(b[0]));
            assert(a.contains(b[0]));
        }
        assert(a =~= b);
    } else {
        assert(a.contains(a.last()));
        assert(b.contains(a.last()));
        let i = choose|i: int| 0 <= i < b.len() && b[i] == a.last();
        assert(b.contains(b.last()));
        assert(a.contains(b.last()));
        let j = choose|j: int| 0 <= j < a.len() && a[j] == b.last();
        assert(a.last() == b.last());
        let x = a.drop_last();
        let y = b.drop_last();
        assert forall|l: Language| #[trigger] x.contains(l) == y.contains(l) by {
            if x.contains(l) {
                let k = choose|k: int| 0 <= k < x.len() && x[k] == l;
                assert(a[k] == l);
                assert(a.contains(l));
                let m = choose|m: int| 0 <= m < b.len() && b[m] == l;
                assert(m < b.len() - 1);
                assert(y[m] == l);
            }
            if y.contains(l) {
                let k = choose|k: int| 0 <= k < y.len() && y[k] == l;
                assert(b[k] == l);
                assert(b.contains(l));
                assert(a.contains(l));
                let m = choose|m: int| 0 <= m < a.len() && a[m] == l;
                assert(m < a.len() - 1);
                assert(x[m] == l);
            }
        }
        lemma_same_order(x, y);
        assert(a =~= x.push(a.last()));
        assert(b =~= y.push(b.last()));
    }
}

/// With every input source enabled they are gone through in the order of the list, each once,
/// and round.
pub proof fn every_language_has_its_turn(language: Language)
    ensures
        ({
            let all = every_language();
            &&& Language::English.next_from(all, 1) == Language::German
            &&& Language::German.next_from(all, 1) == Language::Chinese
            &&& Language::Chinese.next_from(all, 1) == Language::ChineseTraditional
            &&& Language::ChineseTraditional.next_from(all, 1) == Language::Japanese
            &&& Language::Japanese.next_from(all, 1) == Language::Korean
            &&& Language::Korean.next_from(all, 1) == Language::English
        }),
        Language::nth(language.index()) == language,
        0 <= language.index() < 6,
        language.further(6) == language,
{
    let all = every_language();
    assert(all[0] == Language::English && all[1] == Language::German && all[2] == Language::Chinese
        && all[3] == Language::ChineseTraditional && all[4] == Language::Japanese && all[5]
        == Language::Korean);
    assert(all.contains(Language::English) && all.contains(Language::German) && all.contains(
        Language::Chinese,
    ) && all.contains(Language::ChineseTraditional) && all.contains(Language::Japanese)
        && all.contains(Language::Korean));
}

/// With two input sources enabled the shortcut goes to and fro.
pub proof fn two_languages_alternate(a: Language, b: Language)
    requires
        a != b,
    ensures
        a.next_from(seq![a, b], 1) == b,
        b.next_from(seq![a, b], 1) == a,
        a.next_from(seq![a], 1) == a,
{
    let both = seq![a, b];
    assert(both[0] == a && both[1] == b);
    assert(seq![a][0] == a);
    assert(forall|l: Language| both.contains(l) <==> l == a || l == b);
    assert(forall|l: Language| seq![a].contains(l) <==> l == a);
    the_next_language_is_enabled(a, both);
    the_next_language_is_enabled(b, both);
    the_next_language_is_enabled(a, seq![a]);
    let there = lemma_a_step_reaches(a, b);
    let back = lemma_a_step_reaches(b, a);
    if a.next_from(both, 1) == a {
        lemma_nothing_before(a, both, 1, there);
    }
    if b.next_from(both, 1) == b {
        lemma_nothing_before(b, both, 1, back);
    }
}

/// How many steps lead from one input source to another.
proof fn lemma_a_step_reaches(from: Language, to: Language) -> (step: int)
    requires
        from != to,
    ensures
        1 <= step < 6,
        from.further(step) == to,
        forall|k: int| 1 <= k < 6 ==> #[trigger] from.further(k) != from,
{
    let step = if to.index() > from.index() {
        to.index() - from.index()
    } else {
        to.index() - from.index() + 6
    };
    assert((from.index() + step) % 6 == to.index());
    step
}

proof fn lemma_nothing_before(language: Language, enabled: Seq<Language>, from: int, step: int)
    requires
        1 <= from <= step < 6,
        enabled.contains(language.further(step)),
        forall|k: int| 1 <= k < 6 ==> #[trigger] language.further(k) != language,
    ensures
        language.next_from(enabled, from) != language,
    decreases step - from,
{
    if !enabled.contains(language.further(from)) {
        lemma_nothing_before(language, enabled, from + 1, step);
    } else {
        assert(language.further(from) != language);
    }
}

/// What an input source is typed on, through and set in agree: the Chinese and Japanese ones
/// are set in Han by the convention that they draw it by, Korean in Hangul, and those that go
/// through no engine in Latin. German alone has a keyboard of its own.
pub proof fn what_a_language_needs_agrees(language: Language)
    ensures
        language.convention() matches Some(region) ==> language.set_in() == Group::Han(region),
        language.set_in() matches Group::Han(region) ==> language.convention() == Some(region),
        language.typed_through() is None <==> language.set_in() == Group::Latin,
        language.typed_through() == Some(Script::Korean) <==> language.set_in() == Group::Hangul,
        language.typed_through() == Some(Script::Japanese) <==> language.convention() == Some(
            Region::Japanese,
        ),
        language.typed_through() == Some(Script::Chinese) <==> language.convention() == Some(
            Region::Simplified,
        ) || language.convention() == Some(Region::Traditional),
        language.converts() <==> language.convention() == Some(Region::Traditional),
        language.written_on() == Layout::German <==> language.lettered() == 'd',
        language.lettered() == 'e' || language.lettered() == 'd' <==> language.typed_through() is None,
        language.lettered() == 'j' <==> language.typed_through() == Some(Script::Japanese),
        language.lettered() == 'k' <==> language.typed_through() == Some(Script::Korean),
        language.lettered() == 't' <==> language.converts(),
{
}

/// The name that an input source goes by on the page: two Latin letters, or one character of
/// its own script.
pub proof fn a_language_is_labelled_in_its_script(language: Language)
    ensures
        language.typed_through() is None ==> language.labelled().len() == 2 && 'A' as int
            <= language.labelled()[0] as int <= 'Z' as int,
        language.convention() is Some ==> language.labelled().len() == 1 && 0x4e00
            <= language.labelled()[0] as int <= 0x9fff,
        language.set_in() == Group::Hangul ==> language.labelled().len() == 1 && 0xac00
            <= language.labelled()[0] as int <= 0xd7a3,
        language.converts() ==> language.labelled()[0] == '繁',
        language.convention() == Some(Region::Simplified) ==> language.labelled()[0] == '简',
        language.convention() == Some(Region::Japanese) ==> language.labelled()[0] == '日',
        language.written_on() == Layout::German ==> language.labelled() == seq!['D', 'E'],
        language.lettered() == 'e' ==> language.labelled() == seq!['E', 'N'],
{
    reveal_strlit("EN");
    reveal_strlit("DE");
    reveal_strlit("简");
    reveal_strlit("繁");
    reveal_strlit("日");
    reveal_strlit("한");
    assert("DE"@ =~= seq!['D', 'E']);
    assert("EN"@ =~= seq!['E', 'N']);
}

/// The groups of letters that are needed are those of the enabled input sources, each once.
pub proof fn each_group_is_needed_once(enabled: Seq<Language>, n: int)
    requires
        0 <= n <= 6,
    ensures
        forall|i: int, j: int|
            0 <= i < j < groups_of(enabled, n).len() ==> groups_of(enabled, n)[i] != groups_of(enabled, n)[j],
        forall|l: Language|
            enabled.contains(l) && l.index() < n ==> groups_of(enabled, n).contains(
                #[trigger] l.set_in(),
            ),
        forall|i: int|
            #![trigger groups_of(enabled, n)[i]]
            0 <= i < groups_of(enabled, n).len() ==> exists|l: Language|
                enabled.contains(l) && #[trigger] l.set_in() == groups_of(enabled, n)[i],
    decreases n,
{
    if n > 0 {
        each_group_is_needed_once(enabled, n - 1);
        let before = groups_of(enabled, n - 1);
        let now = groups_of(enabled, n);
        let language = Language::nth(n - 1);
        assert forall|l: Language| enabled.contains(l) && l.index() < n implies now.contains(
            #[trigger] l.set_in(),
        ) by {
            if l.index() == n - 1 {
                assert(l == language);
                if now.len() > before.len() {
                    assert(now[before.len() as int] == l.set_in());
                }
            } else {
                let k = choose|k: int| 0 <= k < before.len() && before[k] == l.set_in();
                assert(before.contains(l.set_in()));
                assert(now[k] == l.set_in());
            }
        }
        assert forall|i: int|
            #![trigger now[i]]
            0 <= i < now.len() implies exists|l: Language|
            enabled.contains(l) && #[trigger] l.set_in() == now[i] by {
            if i < before.len() {
                assert(now[i] == before[i]);
            } else {
                assert(language.set_in() == now[i]);
            }
        }
    }
}

} // verus!
