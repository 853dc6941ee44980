//! What is learned of a predictor plugin from outside it: where it keeps the
//! keys it is composing, what they read as, and what may be handed to its
//! converter.

use vstd::prelude::*;

use crate::ime::{Script, KEPT};
use crate::maps::{address_in, ordered, within, Mapping};
use crate::text::{chars_of, code, lemma_texts_push, texts};

verus! {

/// The predictor plugins, by the path each is opened by.
pub const PLUGIN_ZH: &'static str = "/usr/share/keyboard/zh_CN/libpredictor.so.1";

pub const PLUGIN_JA: &'static str = "/usr/share/keyboard/ja/libpredictor.so.1";

/// The keys that are struck to see what moves, by their code points.
pub const FIRST_KEY: u32 = 97;

pub const SECOND_KEY: u32 = 98;

/// The most keys a plugin is believed to be holding.
pub const PENDING_MAX: usize = 512;

/// The most candidates a plugin has room to hand over.
pub const MAX_CANDIDATES: usize = 500;

/// How far into the converter's context its mark lies.
pub const MARK_OFFSET: usize = 0x88;

/// The mark a converter's context carries.
pub const MARK: u32 = 0x1428_1428;

/// A character that Traditional writes otherwise, and how it writes it.
pub const SIMPLIFIED: u16 = 0x56fd;

pub const TRADITIONAL: u16 = 0x570b;

/// The first number from `from` up to `n` of which something holds.
pub open spec fn first_from(n: int, f: spec_fn(int) -> bool, from: int) -> Option<int>
    decreases n - from,
{
    if from >= n {
        None
    } else if f(from) {
        Some(from)
    } else {
        first_from(n, f, from + 1)
    }
}

/// The data of a plugin, read four times over: at rest, after one key, after two
/// and after it was emptied.
pub struct Readings {
    pub quiet: Vec<u32>,
    pub one: Vec<u32>,
    pub two: Vec<u32>,
    pub emptied: Vec<u32>,
}

impl Readings {
    /// The four readings are of the same words.
    pub open spec fn wf(&self) -> bool {
        &&& self.one.len() == self.quiet.len()
        &&& self.two.len() == self.quiet.len()
        &&& self.emptied.len() == self.quiet.len()
    }

    /// A word that counted the keys: nought, one, two and nought again.
    pub open spec fn counts(&self, i: int) -> bool {
        &&& self.quiet[i] == 0
        &&& self.one[i] == 1
        &&& self.two[i] == 2
        &&& self.emptied[i] == 0
    }

    /// A word where the first key came to lie, with the second right behind it.
    pub open spec fn holds_keys(&self, map: &Mapping, i: int) -> bool {
        &&& self.quiet[i] == 0
        &&& self.quiet[i + 1] == 0
        &&& self.one[i] == FIRST_KEY
        &&& self.two[i] == FIRST_KEY
        &&& self.two[i + 1] == SECOND_KEY
        &&& map.next_to(i)
    }

    /// Where the keys lie: the first such word.
    pub open spec fn keys_at(&self, map: &Mapping) -> Option<int> {
        first_from(self.quiet.len() - 1, |i: int| self.holds_keys(map, i), 0)
    }

    /// The counter for the keys at a word: the one right before it in memory, or
    /// else the first counter there is.
    pub open spec fn counter_for(&self, map: &Mapping, keys: int) -> Option<int> {
        if keys > 0 && self.counts(keys - 1) && map.next_to(keys - 1) {
            Some(keys - 1)
        } else {
            first_from(self.quiet.len() as int, |i: int| self.counts(i), 0)
        }
    }

    fn first_counter(&self) -> (r: Option<usize>)
        requires
            self.wf(),
        ensures
            match r {
                Some(i) => first_from(self.quiet.len() as int, |i: int| self.counts(i), 0) == Some(
                    i as int,
                ) && i < self.quiet.len(),
                None => first_from(self.quiet.len() as int, |i: int| self.counts(i), 0) is None,
            },
    {
        let ghost f = |i: int| self.counts(i);
        let mut i: usize = 0;
        while i < self.quiet.len()
            invariant
                self.wf(),
                i <= self.quiet.len(),
                f == (|i: int| self.counts(i)),
                first_from(self.quiet.len() as int, f, 0) == first_from(
                    self.quiet.len() as int,
                    f,
                    i as int,
                ),
            decreases self.quiet.len() - i,
        {
            if self.is_counter(i) {
                return Some(i);
            }
            i = i + 1;
        }
        None
    }

    fn is_counter(&self, i: usize) -> (r: bool)
        requires
            self.wf(),
            i < self.quiet.len(),
        ensures
            r == self.counts(i as int),
    {
        self.quiet[i] == 0 && self.one[i] == 1 && self.two[i] == 2 && self.emptied[i] == 0
    }

    fn first_keys(&self, map: &Mapping) -> (r: Option<usize>)
        requires
            self.wf(),
            ordered(map.data@),
        ensures
            match r {
                Some(i) => self.keys_at(map) == Some(i as int) && i + 1 < self.quiet.len(),
                None => self.keys_at(map) is None,
            },
    {
        let ghost f = |i: int| self.holds_keys(map, i);
        let n: usize = self.quiet.len();
        let mut i: usize = 0;
        while n > 0 && i < n - 1
            invariant
                self.wf(),
                ordered(map.data@),
                n == self.quiet.len(),
                n > 0 ==> i < n,
                f == (|i: int| self.holds_keys(map, i)),
                first_from(n - 1, f, 0) == first_from(n - 1, f, i as int),
            decreases n - i,
        {
            if self.quiet[i] == 0 && self.quiet[i + 1] == 0 && self.one[i] == FIRST_KEY
                && self.two[i] == FIRST_KEY && self.two[i + 1] == SECOND_KEY && map.adjacent(i) {
                return Some(i);
            }
            i = i + 1;
        }
        None
    }

    /// Where the plugin keeps the keys it is composing, from what moved. Nothing
    /// where no word counted them, none held them, or either has no address.
    pub fn find_pending(&self, map: &Mapping) -> (r: Option<Pending>)
        requires
            self.wf(),
            ordered(map.data@),
        ensures
            match self.keys_at(map) {
                None => r is None,
                Some(keys) => match self.counter_for(map, keys) {
                    None => r is None,
                    Some(count) => match (
                        address_in(map.data@, count),
                        address_in(map.data@, keys),
                    ) {
                        (Some(a), Some(b)) => r matches Some(p) && p.count == a && p.keys == b
                            && p.roomy(map),
                        _ => r is None,
                    },
                },
            },
    {
        let keys: usize = match self.first_keys(map) {
            Some(i) => i,
            None => return None,
        };
        let count: usize = if keys > 0 && self.is_counter(keys - 1) && map.adjacent(keys - 1) {
            keys - 1
        } else {
            match self.first_counter() {
                Some(i) => i,
                None => return None,
            }
        };
        match (map.address(count), map.address(keys)) {
            (Some(count), Some(keys)) => Some(
                Pending { count, keys, room: map.words_from(keys) },
            ),
            _ => None,
        }
    }
}

/// Where a plugin counts and keeps the keys it is composing, and how many it has
/// room for.
#[derive(Debug, Clone, Copy, PartialEq, Eq, Structural)]
pub struct Pending {
    pub count: usize,
    pub keys: usize,
    pub room: usize,
}

impl Pending {
    /// The room is what is left of the data range that the keys lie in.
    pub open spec fn roomy(self, map: &Mapping) -> bool {
        &&& (forall|i: int|
            0 <= i < map.data.len() ==> !within(#[trigger] map.data[i], self.keys as int)) ==> self.room
            == 0
        &&& forall|i: int|
            0 <= i < map.data.len() && within(#[trigger] map.data[i], self.keys as int) && (forall|k: int|
                0 <= k < i ==> !within(#[trigger] map.data[k], self.keys as int)) ==> self.room == (
            map.data[i].end - self.keys) / 4
    }

    /// Whether a count is one that can be believed.
    pub fn believes(&self, count: usize) -> (r: bool)
        ensures
            r == (count <= PENDING_MAX && count <= self.room),
            r ==> count <= 512,
            count <= 512 && count <= self.room ==> r,
    {
        !(count > PENDING_MAX || count > self.room)
    }
}

/// Whether a word is a key of a pinyin reading: a letter or the apostrophe.
pub open spec fn reading_key(word: u32) -> bool {
    65 <= word <= 90 || 97 <= word <= 122 || word == 39
}

/// The reading that some words are; nothing where one of them is no key of it.
pub fn reading_of(words: &Vec<u32>) -> (r: Option<String>)
    ensures
        match r {
            Some(s) => {
                &&& s@.len() == words.len()
                &&& forall|i: int|
                    0 <= i < words.len() ==> reading_key(#[trigger] words[i]) && s@[i] as int
                        == words[i] as int
            },
            None => exists|i: int| 0 <= i < words.len() && !reading_key(#[trigger] words[i]),
        },
{
    let mut out = String::new();
    let mut i: usize = 0;
    while i < words.len()
        invariant
            i <= words.len(),
            out@.len() == i,
            forall|k: int|
                0 <= k < i ==> reading_key(#[trigger] words[k]) && out@[k] as int == words[k] as int,
        decreases words.len() - i,
    {
        let word: u32 = words[i];
        let key = (65 <= word && word <= 90) || (97 <= word && word <= 122) || word == 39;
        if !key {
            assert(!reading_key(words[i as int]));
            return None;
        }
        match char::from_u32(word) {
            Some(c) => out.push(c),
            None => return None,
        }
        i = i + 1;
    }
    Some(out)
}

/// What taking a candidate left.
#[derive(Debug, PartialEq, Eq)]
pub enum Left {
    /// The word is over.
    Nothing,
    /// This is still to be converted.
    Reading(String),
    /// What is left cannot be told; the session begins again.
    Unknown,
}

/// What a reading found after a commit says of the word.
pub fn left_by(reading: Option<String>) -> (r: Left)
    ensures
        match reading {
            None => r is Unknown,
            Some(s) => if s@.len() == 0 {
                r is Nothing
            } else {
                r == Left::Reading(s)
            },
        },
{
    match reading {
        None => Left::Unknown,
        Some(s) => {
            let chars = chars_of(s.as_str());
            if chars.len() == 0 {
                Left::Nothing
            } else {
                Left::Reading(s)
            }
        },
    }
}

/// Whether a text is one that the converter can be handed: each character is one
/// unit, and the units can be counted in sixteen bits.
pub open spec fn convertible(text: Seq<char>) -> bool {
    &&& text.len() <= 0xffff
    &&& forall|i: int| 0 <= i < text.len() ==> (#[trigger] text[i]) as int <= 0xffff
}

/// A text as the units a converter takes.
pub fn units_of(text: &str) -> (r: Option<Vec<u16>>)
    ensures
        match r {
            Some(units) => {
                &&& convertible(text@)
                &&& units.len() == text@.len()
                &&& forall|i: int|
                    0 <= i < units.len() ==> (#[trigger] units[i]) as int == text@[i] as int
            },
            None => !convertible(text@),
        },
{
    let chars = chars_of(text);
    if chars.len() > 0xffff {
        return None;
    }
    let mut units: Vec<u16> = Vec::new();
    let mut i: usize = 0;
    while i < chars.len()
        invariant
            i <= chars.len(),
            chars@ == text@,
            units.len() == i,
            forall|k: int| 0 <= k < i ==> (#[trigger] text@[k]) as int <= 0xffff,
            forall|k: int| 0 <= k < i ==> (#[trigger] units@[k]) as int == text@[k] as int,
        decreases chars.len() - i,
    {
        let n: u32 = code(chars[i]);
        if n > 0xffff {
            assert(text@[i as int] as int > 0xffff);
            return None;
        }
        units.push(n as u16);
        i = i + 1;
    }
    Some(units)
}

/// Whether a converter did its work on the character it was tried on.
pub fn converts(status: i32, unit: u16) -> (r: bool)
    ensures
        r == (status == 0 && unit == TRADITIONAL),
{
    status == 0 && unit == TRADITIONAL
}

/// Where the context lies whose mark was found.
pub open spec fn context_at(mark: usize) -> Option<usize> {
    if mark >= MARK_OFFSET {
        Some((mark - MARK_OFFSET) as usize)
    } else {
        None
    }
}

pub fn context_of(mark: usize) -> (r: Option<usize>)
    ensures
        r == context_at(mark),
{
    if mark >= MARK_OFFSET {
        Some(mark - MARK_OFFSET)
    } else {
        None
    }
}

/// Whether the context of a mark was tried and did not convert, or there is none.
pub open spec fn passed_over<T: Fn(usize) -> bool>(tried: T, mark: usize) -> bool {
    context_at(mark) matches Some(context) ==> tried.ensures((context,), false)
}

/// The context that converts: of the first mark whose context does its work when
/// it is tried.
pub fn find_converter<T: Fn(usize) -> bool>(marked: &Vec<usize>, tried: T) -> (r: Option<usize>)
    requires
        forall|context: usize| tried.requires((context,)),
    ensures
        match r {
            Some(context) => exists|i: int|
                {
                    &&& 0 <= i < marked@.len()
                    &&& context_at(#[trigger] marked@[i]) == Some(context)
                    &&& tried.ensures((context,), true)
                    &&& forall|k: int| 0 <= k < i ==> passed_over(tried, #[trigger] marked@[k])
                },
            None => forall|k: int|
                0 <= k < marked@.len() ==> passed_over(tried, #[trigger] marked@[k]),
        },
{
    let mut i: usize = 0;
    while i < marked.len()
        invariant
            i <= marked.len(),
            forall|context: usize| tried.requires((context,)),
            forall|k: int| 0 <= k < i ==> passed_over(tried, #[trigger] marked@[k]),
        decreases marked.len() - i,
    {
        if let Some(context) = context_of(marked[i]) {
            if tried(context) {
                assert(context_at(marked@[i as int]) == Some(context));
                return Some(context);
            }
        }
        assert(passed_over(tried, marked@[i as int]));
        i = i + 1;
    }
    None
}

/// The texts that could be read, of a list with gaps.
pub open spec fn readable(list: Seq<Option<String>>) -> Seq<Seq<char>>
    decreases list.len(),
{
    if list.len() == 0 {
        seq![]
    } else {
        match list.last() {
            Some(text) => readable(list.drop_last()).push(text@),
            None => readable(list.drop_last()),
        }
    }
}

/// The candidates that are kept: those that could be read, as far as so many are
/// wanted.
pub fn kept(list: &Vec<Option<String>>) -> (r: Vec<String>)
    ensures
        texts(r@) == (if readable(list@).len() <= KEPT {
            readable(list@)
        } else {
            readable(list@).take(KEPT as int)
        }),
        r@.len() <= 50,
        readable(list@).len() >= 50 ==> r@.len() == 50,
{
    let mut out: Vec<String> = Vec::new();
    let mut i: usize = 0;
    assert(list@.take(0) =~= seq![]);
    assert(texts(out@) =~= seq![]);
    while i < list.len() && out.len() < KEPT
        invariant
            i <= list.len(),
            out.len() <= KEPT,
            texts(out@) == readable(list@.take(i as int)),
        decreases list.len() - i,
    {
        assert(list@.take(i + 1).drop_last() =~= list@.take(i as int));
        if let Some(text) = &list[i] {
            let text = text.clone();
            proof {
                lemma_texts_push(out@, text);
            }
            out.push(text);
        }
        i = i + 1;
    }
    proof {
        lemma_readable_grows(list@, i as int);
        assert(list@.take(list@.len() as int) =~= list@);
        assert(texts(out@).len() == out@.len());
        assert(readable(list@).take(texts(out@).len() as int) =~= texts(out@));
        if i == list@.len() {
            assert(readable(list@) == texts(out@));
            assert(readable(list@).take(KEPT as int) =~= texts(out@) || out@.len() < KEPT);
        }
    }
    out
}

/// What could be read of the front stands at the front of what could be read.
proof fn lemma_readable_grows(list: Seq<Option<String>>, n: int)
    requires
        0 <= n <= list.len(),
    ensures
        readable(list.take(n)).is_prefix_of(readable(list)),
    decreases list.len(),
{
    if n < list.len() {
        lemma_readable_grows(list.drop_last(), n);
        assert(list.drop_last().take(n) =~= list.take(n));
    } else {
        assert(list.take(n) =~= list);
    }
}

/// The bytes before the first nul, and no more than `limit` of them.
pub fn before_nul(bytes: &Vec<u8>, limit: usize) -> (r: Vec<u8>)
    ensures
        r.len() <= limit,
        r.len() <= bytes.len(),
        r@ == bytes@.take(r.len() as int),
        forall|i: int| 0 <= i < r.len() ==> (#[trigger] bytes[i]) != 0,
        r.len() < limit && r.len() < bytes.len() ==> bytes[r.len() as int] == 0,
{
    let mut out: Vec<u8> = Vec::new();
    let mut i: usize = 0;
    while i < bytes.len() && i < limit && bytes[i] != 0
        invariant
            i <= bytes.len(),
            i <= limit,
            out@ == bytes@.take(i as int),
            forall|k: int| 0 <= k < i ==> (#[trigger] bytes[k]) != 0,
        decreases bytes.len() - i,
    {
        out.push(bytes[i]);
        i = i + 1;
    }
    out
}

/// How many of the candidates that a plugin says it made can be read.
pub fn produced(count: u32) -> (r: usize)
    ensures
        r == (if count <= MAX_CANDIDATES {
            count as int
        } else {
            MAX_CANDIDATES as int
        }),
        r <= 500 && r <= count,
        r == 500 || r == count,
{
    if count as usize <= MAX_CANDIDATES {
        count as usize
    } else {
        MAX_CANDIDATES
    }
}

/// Whether an engine came up: a key gave it something to offer or to compose.
pub fn came_up(candidates: usize, composed: bool) -> (r: bool)
    ensures
        r == (candidates > 0 || composed),
{
    !(candidates == 0 && !composed)
}

/// What stands behind a language.
#[derive(Debug, Clone, Copy, PartialEq, Eq, Structural)]
pub enum Behind {
    /// The keyboard alone.
    Keys,
    /// Composition that needs no plugin.
    Hangul,
    /// An engine that was loaded, by its place.
    Loaded(usize),
    /// An engine that is still to be loaded.
    Load(Script),
}

/// The place of a script among those whose engines were loaded.
pub open spec fn loaded_at(loaded: Seq<Script>, script: Script, from: int) -> Option<int>
    decreases loaded.len() - from,
{
    if from < 0 || from >= loaded.len() {
        None
    } else if loaded[from] == script {
        Some(from)
    } else {
        loaded_at(loaded, script, from + 1)
    }
}

/// What stands behind a script: an engine is loaded once, and found again after
/// that.
pub fn engine_for(script: Option<Script>, loaded: &Vec<Script>) -> (r: Behind)
    ensures
        r == (match script {
            None => Behind::Keys,
            Some(Script::Korean) => Behind::Hangul,
            Some(script) => match loaded_at(loaded@, script, 0) {
                Some(at) => Behind::Loaded(at as usize),
                None => Behind::Load(script),
            },
        }),
{
    let wanted = match script {
        None => return Behind::Keys,
        Some(wanted) => wanted,
    };
    if wanted == Script::Korean {
        return Behind::Hangul;
    }
    let mut i: usize = 0;
    while i < loaded.len()
        invariant
            i <= loaded.len(),
            script == Some(wanted),
            wanted != Script::Korean,
            loaded_at(loaded@, wanted, 0) == loaded_at(loaded@, wanted, i as int),
        decreases loaded.len() - i,
    {
        if loaded[i] == wanted {
            return Behind::Loaded(i);
        }
        i = i + 1;
    }
    Behind::Load(wanted)
}

/// The key buffer is told by what two keys leave in it, next to each other, and the counter
/// by how many there are; both are empty before and after.
pub proof fn what_two_keys_leave(readings: Readings, map: &Mapping, i: int)
    requires
        readings.wf(),
        0 <= i,
        i + 1 < readings.quiet.len(),
    ensures
        readings.holds_keys(map, i) ==> readings.two[i] as char == 'a' && readings.two[i + 1] as char
            == 'b' && readings.one[i] as char == 'a' && readings.quiet[i] == 0 && readings.quiet[i + 1]
            == 0 && map.next_to(i),
        readings.counts(i) <==> readings.quiet[i] == 0 && readings.one[i] == 1 && readings.two[i] == 2
            && readings.emptied[i] == 0,
        !(readings.counts(i) && readings.holds_keys(map, i)),
{
}

/// The first place that fits is taken.
pub proof fn the_first_place_that_fits(n: int, f: spec_fn(int) -> bool, from: int, at: int)
    ensures
        from <= at < n && f(at) ==> (first_from(n, f, from) matches Some(first) && from <= first
            <= at && f(first)),
        first_from(n, f, from) matches Some(first) ==> from <= first < n && f(first),
        first_from(n, f, from) is None ==> !(from <= at < n && f(at)),
    decreases n - from,
{
    if from < n && !f(from) {
        the_first_place_that_fits(n, f, from + 1, at);
    }
}

/// What a reading is made of: the letters and the apostrophe.
pub proof fn what_a_reading_is_made_of(i: int, word: u32)
    requires
        0 <= i < 53,
    ensures
        reading_key("abcdefghijklmnopqrstuvwxyzABCDEFGHIJKLMNOPQRSTUVWXYZ'"@[i] as u32),
        reading_key(word) ==> word as char == '\'' || ('a' as u32 <= word <= 'z' as u32) || ('A' as u32
            <= word <= 'Z' as u32),
        !reading_key(0),
{
    reveal_strlit("abcdefghijklmnopqrstuvwxyzABCDEFGHIJKLMNOPQRSTUVWXYZ'");
}

/// A mark stands at its distance into the context that it marks.
pub proof fn a_mark_stands_in_its_context(context: usize, mark: usize)
    requires
        context + 136 <= usize::MAX,
    ensures
        context_at((context + 136) as usize) == Some(context),
        mark < 136 ==> context_at(mark) is None,
{
}

/// What can be read is kept, in its order.
pub proof fn what_can_be_read_is_kept(a: Seq<Option<String>>, b: Seq<Option<String>>, text: String)
    ensures
        readable(a + b) == readable(a) + readable(b),
        readable(seq![Some(text)]) == seq![text@],
        readable(seq![None]).len() == 0,
    decreases b.len(),
{
    let some = seq![Some(text)];
    let none = seq![None::<String>];
    assert(some.drop_last() =~= Seq::<Option<String>>::empty());
    assert(none.drop_last() =~= Seq::<Option<String>>::empty());
    assert(readable(Seq::<Option<String>>::empty()) =~= Seq::<Seq<char>>::empty());
    assert(some.last() == Some(text) && none.last() is None);
    assert(readable(some) =~= seq![text@]);
    if b.len() == 0 {
        assert(a + b =~= a);
        assert(readable(a) + readable(b) =~= readable(a));
    } else {
        what_can_be_read_is_kept(a, b.drop_last(), text);
        assert((a + b).drop_last() =~= a + b.drop_last());
        assert((a + b).last() == b.last());
        assert(readable(a + b) =~= readable(a) + readable(b));
    }
}

/// An engine that was loaded is found, at a place that holds it.
pub proof fn an_engine_that_was_loaded_is_found(loaded: Seq<Script>, script: Script, from: int)
    requires
        0 <= from,
    ensures
        match loaded_at(loaded, script, from) {
            Some(at) => from <= at < loaded.len() && loaded[at] == script,
            None => forall|i: int| from <= i < loaded.len() ==> loaded[i] != script,
        },
    decreases loaded.len() - from,
{
    if from < loaded.len() && loaded[from] != script {
        an_engine_that_was_loaded_is_found(loaded, script, from + 1);
    }
}

} // verus!
