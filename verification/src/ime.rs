//! What a keystroke means to an input method, the marks it types in its own
//! script, and the engines that can stand behind one.

use vstd::prelude::*;
use vstd::slice::slice_to_vec;
use vstd::utf8::encode_utf8;

use crate::keymap::Action;
use crate::text::{same_text, string_of, chars_of, texts};

pub use crate::hangul::{compose_syllable, jamo_for, jamo_of, Korean};

verus! {

/// `String::pop` of std: the last character comes off the end, where there is
/// one.
pub assume_specification[ String::pop ](s: &mut String) -> (r: Option<char>)
    ensures
        old(s)@.len() == 0 ==> r is None && final(s)@ == old(s)@,
        old(s)@.len() > 0 ==> r == Some(old(s)@.last()) && final(s)@ == old(s)@.drop_last(),
;

/// The scripts that are typed through an input method.
#[derive(Debug, Clone, Copy, PartialEq, Eq, Structural)]
pub enum Script {
    Chinese,
    Japanese,
    Korean,
}

/// An engine that turns keys into candidates. What it makes of a key, of a choice and
/// of being emptied is its own, and each engine says it in a relation between the
/// engine before, the engine after, and what it answered. One that says nothing of
/// itself may answer anything.
pub trait Ime: Sized {
    /// Whether a key takes the engine from one state to another, with this offered.
    open spec fn keyed(before: Self, key: char, after: Self, offered: Seq<Seq<char>>) -> bool {
        true
    }

    /// Whether taking a candidate does, with this left of the reading.
    open spec fn chosen(before: Self, index: int, after: Self, left: Option<RestText>) -> bool {
        true
    }

    /// Whether dropping what has been typed does.
    open spec fn emptied(before: Self, after: Self) -> bool {
        true
    }

    /// Whether this is what the engine says that its keys compose.
    open spec fn composes(self, composed: Option<Seq<char>>) -> bool {
        true
    }

    /// Take a key, and give what it now offers.
    fn key(&mut self, key: char) -> (r: Vec<String>)
        ensures
            Self::keyed(*old(self), key, *final(self), texts(r@)),
    ;

    /// Take the candidate at an index. What is left of the reading, where the
    /// candidate covered only the front of it.
    fn commit(&mut self, index: usize) -> (r: Option<Rest>)
        ensures
            Self::chosen(*old(self), index as int, *final(self), left_of(r)),
    ;

    /// Drop what has been typed.
    fn clear(&mut self)
        ensures
            Self::emptied(*old(self), *final(self)),
    ;

    /// Offer Traditional characters, where the engine can.
    fn set_traditional(&mut self, traditional: bool);

    /// What the keys compose, where that is not the keys themselves.
    fn preedit(&self) -> (r: Option<String>)
        ensures
            self.composes(match r {
                Some(s) => Some(s@),
                None => None,
            }),
    ;
}

/// A word that a candidate did not finish, by its reading and what is offered for it.
pub type RestText = (Seq<char>, Seq<Seq<char>>);

pub open spec fn left_of(rest: Option<Rest>) -> Option<RestText> {
    match rest {
        Some(rest) => Some((rest.reading@, texts(rest.candidates@))),
        None => None,
    }
}

/// A word that a candidate did not finish.
#[derive(Debug, PartialEq, Eq)]
pub struct Rest {
    pub reading: String,
    pub candidates: Vec<String>,
}

/// The most candidates one page of the bar holds: one for each digit.
pub const WANTED: usize = 10;

/// The most candidates that are kept of what an engine offers.
pub const KEPT: usize = 50;

// ---------------------------------------------------------------------------
// Punctuation
// ---------------------------------------------------------------------------

/// What a key types in a script's own punctuation.
#[derive(Debug, Clone, Copy, PartialEq, Eq)]
pub enum Punct {
    Fixed(&'static str),
    /// A mark that opens and closes by turns.
    Paired(&'static str, &'static str),
}

/// The marks Chinese and Japanese share.
pub open spec fn shared_mark(key: char) -> Option<Punct> {
    match key {
        '.' => Some(Punct::Fixed("。")),
        '?' => Some(Punct::Fixed("？")),
        '!' => Some(Punct::Fixed("！")),
        ':' => Some(Punct::Fixed("：")),
        ';' => Some(Punct::Fixed("；")),
        '(' => Some(Punct::Fixed("（")),
        ')' => Some(Punct::Fixed("）")),
        '"' => Some(Punct::Paired("“", "”")),
        '\'' => Some(Punct::Paired("‘", "’")),
        _ => None,
    }
}

/// The mark a key types in a script; Korean writes Latin marks.
pub open spec fn mark_of(script: Script, key: char) -> Option<Punct> {
    match script {
        Script::Korean => None,
        Script::Chinese => match key {
            ',' => Some(Punct::Fixed("，")),
            '\\' => Some(Punct::Fixed("、")),
            '^' => Some(Punct::Fixed("……")),
            '_' => Some(Punct::Fixed("——")),
            '<' => Some(Punct::Fixed("《")),
            '>' => Some(Punct::Fixed("》")),
            '[' => Some(Punct::Fixed("【")),
            ']' => Some(Punct::Fixed("】")),
            '{' => Some(Punct::Fixed("「")),
            '}' => Some(Punct::Fixed("」")),
            _ => shared_mark(key),
        },
        Script::Japanese => match key {
            ',' => Some(Punct::Fixed("、")),
            '[' => Some(Punct::Fixed("「")),
            ']' => Some(Punct::Fixed("」")),
            '{' => Some(Punct::Fixed("『")),
            '}' => Some(Punct::Fixed("』")),
            '<' => Some(Punct::Fixed("〈")),
            '>' => Some(Punct::Fixed("〉")),
            '~' => Some(Punct::Fixed("〜")),
            _ => shared_mark(key),
        },
    }
}

fn shared(key: char) -> (r: Option<Punct>)
    ensures
        r == shared_mark(key),
{
    match key {
        '.' => Some(Punct::Fixed("。")),
        '?' => Some(Punct::Fixed("？")),
        '!' => Some(Punct::Fixed("！")),
        ':' => Some(Punct::Fixed("：")),
        ';' => Some(Punct::Fixed("；")),
        '(' => Some(Punct::Fixed("（")),
        ')' => Some(Punct::Fixed("）")),
        '"' => Some(Punct::Paired("“", "”")),
        '\'' => Some(Punct::Paired("‘", "’")),
        _ => None,
    }
}

pub fn punctuation(script: Script, key: char) -> (r: Option<Punct>)
    ensures
        r == mark_of(script, key),
{
    match script {
        Script::Korean => None,
        Script::Chinese => match key {
            ',' => Some(Punct::Fixed("，")),
            '\\' => Some(Punct::Fixed("、")),
            '^' => Some(Punct::Fixed("……")),
            '_' => Some(Punct::Fixed("——")),
            '<' => Some(Punct::Fixed("《")),
            '>' => Some(Punct::Fixed("》")),
            '[' => Some(Punct::Fixed("【")),
            ']' => Some(Punct::Fixed("】")),
            '{' => Some(Punct::Fixed("「")),
            '}' => Some(Punct::Fixed("」")),
            _ => shared(key),
        },
        Script::Japanese => match key {
            ',' => Some(Punct::Fixed("、")),
            '[' => Some(Punct::Fixed("「")),
            ']' => Some(Punct::Fixed("」")),
            '{' => Some(Punct::Fixed("『")),
            '}' => Some(Punct::Fixed("』")),
            '<' => Some(Punct::Fixed("〈")),
            '>' => Some(Punct::Fixed("〉")),
            '~' => Some(Punct::Fixed("〜")),
            _ => shared(key),
        },
    }
}

/// Which of the two pairs of quotation marks stand open.
#[derive(Debug, Clone, Copy, PartialEq, Eq, Structural)]
pub struct Punctuation {
    pub double_open: bool,
    pub single_open: bool,
}

impl Default for Punctuation {
    fn default() -> (r: Self)
        ensures
            r == (Punctuation { double_open: false, single_open: false }),
    {
        Punctuation { double_open: false, single_open: false }
    }
}

impl Punctuation {
    /// Whether the pair on a key stands open.
    pub open spec fn open(self, key: char) -> bool {
        if key == '"' {
            self.double_open
        } else {
            self.single_open
        }
    }

    /// The state after a key: a paired mark turns its own pair over, and nothing
    /// else changes anything.
    pub open spec fn after(self, script: Script, key: char) -> Punctuation {
        match mark_of(script, key) {
            Some(Punct::Paired(_, _)) => if key == '"' {
                Punctuation { double_open: !self.double_open, ..self }
            } else {
                Punctuation { single_open: !self.single_open, ..self }
            },
            _ => self,
        }
    }

    /// The text a key types: a pair's opening mark where the pair was closed and
    /// its closing mark where it was open.
    pub open spec fn written(self, script: Script, key: char) -> Option<Seq<char>> {
        match mark_of(script, key) {
            None => None,
            Some(Punct::Fixed(s)) => Some(s@),
            Some(Punct::Paired(open, close)) => Some(
                if self.open(key) {
                    close@
                } else {
                    open@
                },
            ),
        }
    }

    pub fn resolve(&mut self, script: Script, key: char) -> (r: Option<&'static str>)
        ensures
            *final(self) == old(self).after(script, key),
            match r {
                Some(s) => old(self).written(script, key) == Some(s@),
                None => old(self).written(script, key) is None,
            },
    {
        match punctuation(script, key) {
            None => None,
            Some(Punct::Fixed(s)) => Some(s),
            Some(Punct::Paired(open, close)) => {
                let opens = if key == '"' {
                    self.double_open = !self.double_open;
                    self.double_open
                } else {
                    self.single_open = !self.single_open;
                    self.single_open
                };
                Some(
                    if opens {
                        open
                    } else {
                        close
                    },
                )
            },
        }
    }
}

/// A paired mark opens and closes by turns, and the two pairs do not disturb
/// each other.
pub proof fn quotation_marks_pair_up(state: Punctuation, script: Script)
    requires
        script != Script::Korean,
    ensures
        state.after(script, '"').open('"') == !state.open('"'),
        state.after(script, '"').open('\'') == state.open('\''),
        state.after(script, '\'').open('\'') == !state.open('\''),
        state.after(script, '\'').open('"') == state.open('"'),
        state.after(script, '"').after(script, '"') == state,
        state.after(script, '\'').after(script, '\'') == state,
{
}

/// A mark that is not one of a pair leaves the pairs as they stand.
pub proof fn other_marks_leave_the_pairs_alone(state: Punctuation, script: Script, key: char)
    requires
        key != '"',
        key != '\'',
    ensures
        state.after(script, key) == state,
{
}

/// Korean has no marks of its own.
pub proof fn korean_writes_latin_marks(state: Punctuation, key: char)
    ensures
        state.written(Script::Korean, key) is None,
        state.after(Script::Korean, key) == state,
{
}

// ---------------------------------------------------------------------------
// Keystrokes
// ---------------------------------------------------------------------------

/// What a keystroke is to an input method.
#[derive(Debug, Clone, Copy, PartialEq, Eq, Structural)]
pub enum Compose {
    /// For the engine.
    Feed(char),
    /// For the Hangul syllable.
    Jamo(char),
    /// Take one jamo back.
    Decompose,
    /// Finish the syllable; the key goes on to the editor.
    Finish,
    /// Take a candidate by its place on the bar.
    Select(usize),
    NextPage,
    PreviousPage,
    /// A mark in the script's own punctuation.
    Punctuate(char),
    /// What is composed, as it stands.
    CommitRaw,
    /// A letter that goes to the page as it is.
    Latin(char),
    /// The letters as they were struck.
    CommitTyped,
    Cancel,
    /// Not for the input method.
    Pass,
}

/// The long-vowel mark.
pub const CHOONPU: char = 'ー';

pub const BACK: char = '\u{8}';

pub open spec fn is_upper(c: char) -> bool {
    'A' as int <= c as int <= 'Z' as int
}

pub open spec fn is_lower(c: char) -> bool {
    'a' as int <= c as int <= 'z' as int
}

/// What a keystroke is in Korean: a jamo key always, Backspace while there is a
/// syllable to take from, and any other key the end of the syllable.
pub open spec fn korean_compose(action: Action, composing: bool) -> Compose {
    match action {
        Action::Insert(c) => if jamo_of(c) is Some {
            Compose::Jamo(c)
        } else if composing {
            Compose::Finish
        } else {
            Compose::Pass
        },
        Action::Backspace => if composing {
            Compose::Decompose
        } else {
            Compose::Pass
        },
        _ => if composing {
            Compose::Finish
        } else {
            Compose::Pass
        },
    }
}

/// What a typed character is to Chinese or Japanese.
pub open spec fn insert_compose(c: char, composing: bool, script: Script) -> Compose {
    if is_upper(c) {
        Compose::Latin(c)
    } else if is_lower(c) {
        Compose::Feed(c)
    } else if c == '\'' && composing && script == Script::Chinese {
        Compose::Feed('\'')
    } else if c == '-' && composing && script == Script::Japanese {
        Compose::Feed(CHOONPU)
    } else if mark_of(script, c) is Some {
        Compose::Punctuate(c)
    } else if !composing {
        Compose::Pass
    } else if '1' as int <= c as int <= '9' as int {
        Compose::Select((c as int - '1' as int) as usize)
    } else if c == '0' {
        Compose::Select(9)
    } else if c == ' ' {
        match script {
            Script::Chinese => Compose::Select(0),
            Script::Japanese => Compose::Feed(' '),
            Script::Korean => Compose::Finish,
        }
    } else {
        Compose::Cancel
    }
}

/// What any other key is to Chinese or Japanese while a word is being composed.
pub open spec fn key_compose(action: Action) -> Compose {
    match action {
        Action::Backspace => Compose::Feed(BACK),
        Action::Right => Compose::NextPage,
        Action::Down => Compose::NextPage,
        Action::PageDown => Compose::NextPage,
        Action::Left => Compose::PreviousPage,
        Action::Up => Compose::PreviousPage,
        Action::PageUp => Compose::PreviousPage,
        Action::Newline => Compose::CommitRaw,
        Action::CommitTyped => Compose::CommitTyped,
        _ => Compose::Cancel,
    }
}

/// What a keystroke is to an input method.
pub open spec fn compose_of(action: Action, composing: bool, script: Script) -> Compose {
    if script == Script::Korean {
        korean_compose(action, composing)
    } else {
        match action {
            Action::Insert(c) => insert_compose(c, composing, script),
            _ => if composing {
                key_compose(action)
            } else {
                Compose::Pass
            },
        }
    }
}

pub fn compose(action: &Action, composing: bool, script: Script) -> (r: Compose)
    ensures
        r == compose_of(*action, composing, script),
{
    if script == Script::Korean {
        return match *action {
            Action::Insert(c) => if jamo_for(c).is_some() {
                Compose::Jamo(c)
            } else if composing {
                Compose::Finish
            } else {
                Compose::Pass
            },
            Action::Backspace => if composing {
                Compose::Decompose
            } else {
                Compose::Pass
            },
            _ => if composing {
                Compose::Finish
            } else {
                Compose::Pass
            },
        };
    }
    match *action {
        Action::Insert(c) => {
            let n: u32 = c as u32;
            if 65 <= n && n <= 90 {
                Compose::Latin(c)
            } else if 97 <= n && n <= 122 {
                Compose::Feed(c)
            } else if c == '\'' && composing && script == Script::Chinese {
                Compose::Feed('\'')
            } else if c == '-' && composing && script == Script::Japanese {
                Compose::Feed(CHOONPU)
            } else if punctuation(script, c).is_some() {
                Compose::Punctuate(c)
            } else if !composing {
                Compose::Pass
            } else if 49 <= n && n <= 57 {
                Compose::Select((n - 49) as usize)
            } else if c == '0' {
                Compose::Select(9)
            } else if c == ' ' {
                match script {
                    Script::Chinese => Compose::Select(0),
                    Script::Japanese => Compose::Feed(' '),
                    Script::Korean => Compose::Finish,
                }
            } else {
                Compose::Cancel
            }
        },
        _ => {
            if !composing {
                return Compose::Pass;
            }
            match *action {
                Action::Backspace => Compose::Feed(BACK),
                Action::Right => Compose::NextPage,
                Action::Down => Compose::NextPage,
                Action::PageDown => Compose::NextPage,
                Action::Left => Compose::PreviousPage,
                Action::Up => Compose::PreviousPage,
                Action::PageUp => Compose::PreviousPage,
                Action::Newline => Compose::CommitRaw,
                Action::CommitTyped => Compose::CommitTyped,
                _ => Compose::Cancel,
            }
        },
    }
}

/// With nothing being composed, the keys that are not characters are left to the
/// editor.
pub proof fn an_idle_input_method_leaves_the_other_keys_alone(action: Action, script: Script)
    requires
        !(action is Insert),
    ensures
        compose_of(action, false, script) == Compose::Pass,
{
}

/// While a word is being composed, no key passes the input method by.
pub proof fn a_word_under_way_takes_every_key(action: Action, script: Script)
    ensures
        compose_of(action, true, script) != Compose::Pass,
{
}

/// The digits take the ten places on the bar, and no key takes one past them.
pub proof fn a_digit_takes_a_place_on_the_bar(action: Action, composing: bool, script: Script)
    ensures
        match compose_of(action, composing, script) {
            Compose::Select(n) => n < WANTED,
            _ => true,
        },
        script != Script::Korean ==> forall|n: int|
            0 <= n < 9 ==> compose_of(
                Action::Insert(#[trigger] ((49 + n) as char)),
                true,
                script,
            ) == Compose::Select(n as usize),
        script != Script::Korean ==> compose_of(Action::Insert('0'), true, script)
            == Compose::Select(9),
{
}

/// A capital is never input for an engine, whether or not a word is under way, and a
/// small letter always is.
pub proof fn capitals_are_latin_and_letters_are_fed(c: char, composing: bool, script: Script)
    requires
        script != Script::Korean,
    ensures
        'A' <= c <= 'Z' ==> compose_of(Action::Insert(c), composing, script) == Compose::Latin(c),
        'a' <= c <= 'z' ==> compose_of(Action::Insert(c), composing, script) == Compose::Feed(c),
{
}

/// Korean is composed here and never by an engine; the other two never as
/// Hangul.
pub proof fn hangul_is_composed_apart(action: Action, composing: bool, script: Script)
    ensures
        ({
            let c = compose_of(action, composing, script);
            let hangul = c is Jamo || c == Compose::Decompose || c == Compose::Finish;
            &&& script == Script::Korean ==> hangul || c == Compose::Pass
            &&& script != Script::Korean ==> !hangul
        }),
{
}

/// A name of a file or a symbol as C wants it: its bytes, and a nul.
pub fn cstr(s: &str) -> (r: Vec<u8>)
    ensures
        r@ == encode_utf8(s@).push(0),
{
    let mut v = slice_to_vec(s.as_bytes());
    v.push(0);
    v
}

// ---------------------------------------------------------------------------
// Engines with a handful of words in them
// ---------------------------------------------------------------------------

/// The texts of a list of string slices.
pub open spec fn slices(list: Seq<&'static str>) -> Seq<Seq<char>> {
    list.map_values(|s: &'static str| s@)
}

fn strings(list: &[&'static str]) -> (r: Vec<String>)
    ensures
        texts(r@) == slices(list@),
{
    let mut out: Vec<String> = Vec::new();
    let mut i: usize = 0;
    while i < list.len()
        invariant
            i <= list.len(),
            out.len() == i,
            forall|k: int| 0 <= k < i ==> (#[trigger] out@[k])@ == list@[k]@,
        decreases list.len() - i,
    {
        out.push(list[i].to_owned());
        i = i + 1;
    }
    assert(texts(out@) =~= slices(list@));
    out
}

/// A pinyin engine that knows a few words.
#[derive(Debug)]
pub struct Stub {
    pub typed: String,
}

impl Stub {
    /// What a reading offers.
    pub open spec fn offers(typed: Seq<char>) -> Seq<Seq<char>> {
        if typed == "n"@ {
            seq!["你"@, "年"@, "呢"@, "能"@, "那"@]
        } else if typed == "ni"@ {
            seq!["你"@, "拟"@, "泥"@, "腻"@, "逆"@]
        } else if typed == "nih"@ {
            seq!["你好"@, "你会"@, "你还"@]
        } else if typed == "niha"@ {
            seq!["你哈"@]
        } else if typed == "nihao"@ {
            seq!["你好"@]
        } else if typed == "h"@ {
            seq!["和"@, "很"@, "会"@]
        } else if typed == "ha"@ {
            seq!["哈"@, "还"@]
        } else if typed == "hao"@ {
            seq!["好"@, "号"@, "毫"@]
        } else if typed == "shijie"@ {
            seq!["世界"@, "时节"@, "使节"@, "十"@]
        } else if typed == "jie"@ {
            seq!["界"@, "节"@, "结"@, "接"@]
        } else {
            seq![]
        }
    }

    /// What a candidate leaves of a reading.
    pub open spec fn leaves(typed: Seq<char>, candidate: Seq<char>) -> Seq<char> {
        if typed == "shijie"@ && candidate == "十"@ {
            "jie"@
        } else {
            seq![]
        }
    }

    /// What taking the candidate at `index` leaves of a reading.
    pub open spec fn left_by(typed: Seq<char>, index: int) -> Seq<char> {
        if index < Stub::offers(typed).len() {
            Stub::leaves(typed, Stub::offers(typed)[index])
        } else {
            seq![]
        }
    }

    pub fn new() -> (r: Stub)
        ensures
            r.typed@ == Seq::<char>::empty(),
    {
        Stub { typed: String::new() }
    }

    pub fn lookup(&self) -> (r: Vec<String>)
        ensures
            texts(r@) == Stub::offers(self.typed@),
    {
        let typed = self.typed.as_str();
        if same_text(typed, "n") {
            let words = strings(&["你", "年", "呢", "能", "那"]);
            assert(texts(words@) =~= seq!["你"@, "年"@, "呢"@, "能"@, "那"@]);
            words
        } else if same_text(typed, "ni") {
            let words = strings(&["你", "拟", "泥", "腻", "逆"]);
            assert(texts(words@) =~= seq!["你"@, "拟"@, "泥"@, "腻"@, "逆"@]);
            words
        } else if same_text(typed, "nih") {
            let words = strings(&["你好", "你会", "你还"]);
            assert(texts(words@) =~= seq!["你好"@, "你会"@, "你还"@]);
            words
        } else if same_text(typed, "niha") {
            let words = strings(&["你哈"]);
            assert(texts(words@) =~= seq!["你哈"@]);
            words
        } else if same_text(typed, "nihao") {
            let words = strings(&["你好"]);
            assert(texts(words@) =~= seq!["你好"@]);
            words
        } else if same_text(typed, "h") {
            let words = strings(&["和", "很", "会"]);
            assert(texts(words@) =~= seq!["和"@, "很"@, "会"@]);
            words
        } else if same_text(typed, "ha") {
            let words = strings(&["哈", "还"]);
            assert(texts(words@) =~= seq!["哈"@, "还"@]);
            words
        } else if same_text(typed, "hao") {
            let words = strings(&["好", "号", "毫"]);
            assert(texts(words@) =~= seq!["好"@, "号"@, "毫"@]);
            words
        } else if same_text(typed, "shijie") {
            let words = strings(&["世界", "时节", "使节", "十"]);
            assert(texts(words@) =~= seq!["世界"@, "时节"@, "使节"@, "十"@]);
            words
        } else if same_text(typed, "jie") {
            let words = strings(&["界", "节", "结", "接"]);
            assert(texts(words@) =~= seq!["界"@, "节"@, "结"@, "接"@]);
            words
        } else {
            let none: Vec<String> = Vec::new();
            assert(texts(none@) =~= seq![]);
            none
        }
    }

    pub fn rest(&self, candidate: &str) -> (r: Option<&'static str>)
        ensures
            match r {
                Some(s) => s@ == Stub::leaves(self.typed@, candidate@) && self.typed@ == "shijie"@
                    && candidate@ == "十"@,
                None => !(self.typed@ == "shijie"@ && candidate@ == "十"@),
            },
    {
        if same_text(self.typed.as_str(), "shijie") && same_text(candidate, "十") {
            Some("jie")
        } else {
            None
        }
    }
}

impl Default for Stub {
    fn default() -> (r: Self)
        ensures
            r.typed@ == Seq::<char>::empty(),
    {
        Stub::new()
    }
}

impl Ime for Stub {
    open spec fn keyed(before: Stub, key: char, after: Stub, offered: Seq<Seq<char>>) -> bool {
        &&& after.typed@ == (if key == BACK {
            if before.typed@.len() == 0 {
                before.typed@
            } else {
                before.typed@.drop_last()
            }
        } else if key == ' ' {
            seq![]
        } else {
            before.typed@.push(key)
        })
        &&& offered == Stub::offers(after.typed@)
    }

    open spec fn chosen(before: Stub, index: int, after: Stub, left: Option<RestText>) -> bool {
        &&& after.typed@ == Stub::left_by(before.typed@, index)
        &&& left == (if after.typed@.len() == 0 {
            None
        } else {
            Some((after.typed@, Stub::offers(after.typed@)))
        })
    }

    open spec fn emptied(before: Stub, after: Stub) -> bool {
        after.typed@ == Seq::<char>::empty()
    }

    open spec fn composes(self, composed: Option<Seq<char>>) -> bool {
        composed is None
    }

    fn key(&mut self, key: char) -> (r: Vec<String>)
    {
        if key == BACK {
            let _ = self.typed.pop();
        } else if key == ' ' {
            self.typed = String::new();
        } else {
            self.typed.push(key);
        }
        self.lookup()
    }

    fn commit(&mut self, index: usize) -> (r: Option<Rest>)
    {
        let offered = self.lookup();
        if index < offered.len() {
            assert(texts(offered@)[index as int] == offered@[index as int]@);
            if let Some(rest) = self.rest(offered[index].as_str()) {
                proof {
                    reveal_strlit("jie");
                }
                self.typed = rest.to_owned();
                let candidates = self.lookup();
                return Some(Rest { reading: rest.to_owned(), candidates });
            }
        }
        self.typed = String::new();
        assert(self.typed@ =~= seq![]);
        None
    }

    fn clear(&mut self)
    {
        self.typed = String::new();
    }

    fn set_traditional(&mut self, _traditional: bool)
        ensures
            *final(self) == *old(self),
    {
    }

    fn preedit(&self) -> (r: Option<String>)
    {
        None
    }
}

/// A romaji engine that knows a few kana and one word.
#[derive(Debug)]
pub struct KanaStub {
    pub typed: String,
}

impl KanaStub {
    /// The kana a run of letters spells, with what spells none left as letters.
    pub open spec fn spelled(s: Seq<char>) -> Seq<char>
        decreases s.len(),
    {
        if s.len() == 0 {
            seq![]
        } else if s.len() > 1 && s[0] == 'n' && s[1] == 'i' {
            seq!['に'] + KanaStub::spelled(s.skip(2))
        } else if s.len() > 1 && s[0] == 'h' && s[1] == 'o' {
            seq!['ほ'] + KanaStub::spelled(s.skip(2))
        } else if s.len() == 1 && s[0] == 'n' {
            seq!['ん']
        } else if s.len() > 1 && s[0] == 'k' && s[1] == 'a' {
            seq!['か'] + KanaStub::spelled(s.skip(2))
        } else if s.len() > 1 && s[0] == 'n' && s[1] == 'a' {
            seq!['な'] + KanaStub::spelled(s.skip(2))
        } else {
            seq![s[0]] + KanaStub::spelled(s.skip(1))
        }
    }

    /// What the letters offer once they spell the one word it knows.
    pub open spec fn offers(typed: Seq<char>) -> Seq<Seq<char>> {
        if typed == "nihon"@ {
            seq!["日本"@, "にほん"@, "ニホン"@]
        } else {
            seq![]
        }
    }

    pub fn new() -> (r: KanaStub)
        ensures
            r.typed@ == Seq::<char>::empty(),
    {
        KanaStub { typed: String::new() }
    }

    pub fn kana(&self) -> (r: String)
        ensures
            r@ == KanaStub::spelled(self.typed@),
    {
        let s = chars_of(self.typed.as_str());
        let mut out: Vec<char> = Vec::new();
        let mut at: usize = 0;
        assert(s@.skip(0) =~= s@);
        assert(out@ + KanaStub::spelled(s@) =~= KanaStub::spelled(s@));
        while at < s.len()
            invariant
                at <= s.len(),
                out@ + KanaStub::spelled(s@.skip(at as int)) == KanaStub::spelled(s@),
            decreases s.len() - at,
        {
            let ghost rest = s@.skip(at as int);
            let ghost before = out@;
            let two = s.len() - at > 1;
            let (c, n): (char, usize) = if two && s[at] == 'n' && s[at + 1] == 'i' {
                ('に', 2)
            } else if two && s[at] == 'h' && s[at + 1] == 'o' {
                ('ほ', 2)
            } else if !two && s[at] == 'n' {
                ('ん', 1)
            } else if two && s[at] == 'k' && s[at + 1] == 'a' {
                ('か', 2)
            } else if two && s[at] == 'n' && s[at + 1] == 'a' {
                ('な', 2)
            } else {
                (s[at], 1)
            };
            out.push(c);
            proof {
                assert(rest.skip(n as int) =~= s@.skip(at + n));
                assert(rest.len() == 1 ==> KanaStub::spelled(rest.skip(1)) =~= seq![]);
                assert(KanaStub::spelled(rest) =~= seq![c] + KanaStub::spelled(s@.skip(at + n)));
                assert(out@ + KanaStub::spelled(s@.skip(at + n)) =~= before + (seq![c]
                    + KanaStub::spelled(s@.skip(at + n))));
            }
            at = at + n;
        }
        assert(out@ + KanaStub::spelled(s@.skip(at as int)) =~= out@);
        string_of(&out)
    }
}

impl Ime for KanaStub {
    open spec fn keyed(before: KanaStub, key: char, after: KanaStub, offered: Seq<Seq<char>>) -> bool {
        &&& after.typed@ == (if key == BACK {
            if before.typed@.len() == 0 {
                before.typed@
            } else {
                before.typed@.drop_last()
            }
        } else if key == ' ' {
            before.typed@
        } else {
            before.typed@.push(key)
        })
        &&& offered == KanaStub::offers(after.typed@)
    }

    open spec fn chosen(before: KanaStub, index: int, after: KanaStub, left: Option<RestText>) -> bool {
        after.typed@ == Seq::<char>::empty() && left is None
    }

    open spec fn emptied(before: KanaStub, after: KanaStub) -> bool {
        after.typed@ == Seq::<char>::empty()
    }

    open spec fn composes(self, composed: Option<Seq<char>>) -> bool {
        composed == (if self.typed@.len() == 0 {
            None
        } else {
            Some(KanaStub::spelled(self.typed@))
        })
    }

    fn key(&mut self, key: char) -> (r: Vec<String>)
    {
        if key == BACK {
            let _ = self.typed.pop();
        } else if key != ' ' {
            self.typed.push(key);
        }
        if same_text(self.typed.as_str(), "nihon") {
            let words = strings(&["日本", "にほん", "ニホン"]);
            assert(texts(words@) =~= seq!["日本"@, "にほん"@, "ニホン"@]);
            words
        } else {
            let none: Vec<String> = Vec::new();
            assert(texts(none@) =~= seq![]);
            none
        }
    }

    fn commit(&mut self, _index: usize) -> (r: Option<Rest>)
    {
        self.typed = String::new();
        None
    }

    fn clear(&mut self)
    {
        self.typed = String::new();
    }

    fn set_traditional(&mut self, _traditional: bool)
        ensures
            *final(self) == *old(self),
    {
    }

    fn preedit(&self) -> (r: Option<String>)
    {
        if self.typed.as_str().is_empty() {
            None
        } else {
            Some(self.kana())
        }
    }
}

/// The marks of Chinese, key by key, and that no other key writes one.
pub proof fn the_marks_of_chinese(state: Punctuation, key: char)
    ensures
        state.written(Script::Chinese, '.') == Some("。"@),
        state.written(Script::Chinese, '?') == Some("？"@),
        state.written(Script::Chinese, '!') == Some("！"@),
        state.written(Script::Chinese, ':') == Some("："@),
        state.written(Script::Chinese, ';') == Some("；"@),
        state.written(Script::Chinese, '(') == Some("（"@),
        state.written(Script::Chinese, ')') == Some("）"@),
        state.written(Script::Chinese, ',') == Some("，"@),
        state.written(Script::Chinese, '\\') == Some("、"@),
        state.written(Script::Chinese, '^') == Some("……"@),
        state.written(Script::Chinese, '_') == Some("——"@),
        state.written(Script::Chinese, '<') == Some("《"@),
        state.written(Script::Chinese, '>') == Some("》"@),
        state.written(Script::Chinese, '[') == Some("【"@),
        state.written(Script::Chinese, ']') == Some("】"@),
        state.written(Script::Chinese, '{') == Some("「"@),
        state.written(Script::Chinese, '}') == Some("」"@),
        state.written(Script::Chinese, key) is Some ==> ".?!:;(),\\^_<>[]{}\"'"@.contains(key),
{
    reveal_strlit(".?!:;(),\\^_<>[]{}\"'");
    if state.written(Script::Chinese, key) is Some {
        if key == '.' {
            assert(".?!:;(),\\^_<>[]{}\"'"@[0] == key);
        }
        if key == '?' {
            assert(".?!:;(),\\^_<>[]{}\"'"@[1] == key);
        }
        if key == '!' {
            assert(".?!:;(),\\^_<>[]{}\"'"@[2] == key);
        }
        if key == ':' {
            assert(".?!:;(),\\^_<>[]{}\"'"@[3] == key);
        }
        if key == ';' {
            assert(".?!:;(),\\^_<>[]{}\"'"@[4] == key);
        }
        if key == '(' {
            assert(".?!:;(),\\^_<>[]{}\"'"@[5] == key);
        }
        if key == ')' {
            assert(".?!:;(),\\^_<>[]{}\"'"@[6] == key);
        }
        if key == ',' {
            assert(".?!:;(),\\^_<>[]{}\"'"@[7] == key);
        }
        if key == '\\' {
            assert(".?!:;(),\\^_<>[]{}\"'"@[8] == key);
        }
        if key == '^' {
            assert(".?!:;(),\\^_<>[]{}\"'"@[9] == key);
        }
        if key == '_' {
            assert(".?!:;(),\\^_<>[]{}\"'"@[10] == key);
        }
        if key == '<' {
            assert(".?!:;(),\\^_<>[]{}\"'"@[11] == key);
        }
        if key == '>' {
            assert(".?!:;(),\\^_<>[]{}\"'"@[12] == key);
        }
        if key == '[' {
            assert(".?!:;(),\\^_<>[]{}\"'"@[13] == key);
        }
        if key == ']' {
            assert(".?!:;(),\\^_<>[]{}\"'"@[14] == key);
        }
        if key == '{' {
            assert(".?!:;(),\\^_<>[]{}\"'"@[15] == key);
        }
        if key == '}' {
            assert(".?!:;(),\\^_<>[]{}\"'"@[16] == key);
        }
        if key == '"' {
            assert(".?!:;(),\\^_<>[]{}\"'"@[17] == key);
        }
        if key == '\'' {
            assert(".?!:;(),\\^_<>[]{}\"'"@[18] == key);
        }
    }
}

/// The marks of Japanese, key by key, and that no other key writes one.
pub proof fn the_marks_of_japanese(state: Punctuation, key: char)
    ensures
        state.written(Script::Japanese, '.') == Some("。"@),
        state.written(Script::Japanese, '?') == Some("？"@),
        state.written(Script::Japanese, '!') == Some("！"@),
        state.written(Script::Japanese, ':') == Some("："@),
        state.written(Script::Japanese, ';') == Some("；"@),
        state.written(Script::Japanese, '(') == Some("（"@),
        state.written(Script::Japanese, ')') == Some("）"@),
        state.written(Script::Japanese, ',') == Some("、"@),
        state.written(Script::Japanese, '[') == Some("「"@),
        state.written(Script::Japanese, ']') == Some("」"@),
        state.written(Script::Japanese, '{') == Some("『"@),
        state.written(Script::Japanese, '}') == Some("』"@),
        state.written(Script::Japanese, '<') == Some("〈"@),
        state.written(Script::Japanese, '>') == Some("〉"@),
        state.written(Script::Japanese, '~') == Some("〜"@),
        state.written(Script::Japanese, key) is Some ==> ".?!:;(),[]{}<>~\"'"@.contains(key),
{
    reveal_strlit(".?!:;(),[]{}<>~\"'");
    if state.written(Script::Japanese, key) is Some {
        if key == '.' {
            assert(".?!:;(),[]{}<>~\"'"@[0] == key);
        }
        if key == '?' {
            assert(".?!:;(),[]{}<>~\"'"@[1] == key);
        }
        if key == '!' {
            assert(".?!:;(),[]{}<>~\"'"@[2] == key);
        }
        if key == ':' {
            assert(".?!:;(),[]{}<>~\"'"@[3] == key);
        }
        if key == ';' {
            assert(".?!:;(),[]{}<>~\"'"@[4] == key);
        }
        if key == '(' {
            assert(".?!:;(),[]{}<>~\"'"@[5] == key);
        }
        if key == ')' {
            assert(".?!:;(),[]{}<>~\"'"@[6] == key);
        }
        if key == ',' {
            assert(".?!:;(),[]{}<>~\"'"@[7] == key);
        }
        if key == '[' {
            assert(".?!:;(),[]{}<>~\"'"@[8] == key);
        }
        if key == ']' {
            assert(".?!:;(),[]{}<>~\"'"@[9] == key);
        }
        if key == '{' {
            assert(".?!:;(),[]{}<>~\"'"@[10] == key);
        }
        if key == '}' {
            assert(".?!:;(),[]{}<>~\"'"@[11] == key);
        }
        if key == '<' {
            assert(".?!:;(),[]{}<>~\"'"@[12] == key);
        }
        if key == '>' {
            assert(".?!:;(),[]{}<>~\"'"@[13] == key);
        }
        if key == '~' {
            assert(".?!:;(),[]{}<>~\"'"@[14] == key);
        }
        if key == '"' {
            assert(".?!:;(),[]{}<>~\"'"@[15] == key);
        }
        if key == '\'' {
            assert(".?!:;(),[]{}<>~\"'"@[16] == key);
        }
    }
}

/// Quotation marks open and close by turns: the first opens, the next closes, and so
/// on, the double and the single each for themselves.
pub proof fn quotation_marks_open_first(state: Punctuation, script: Script)
    requires
        script != Script::Korean,
    ensures
        state.double_open ==> state.written(script, '"') == Some("”"@),
        !state.double_open ==> state.written(script, '"') == Some("“"@),
        state.single_open ==> state.written(script, '\'') == Some("’"@),
        !state.single_open ==> state.written(script, '\'') == Some("‘"@),
        state.after(script, '"') == (Punctuation { double_open: !state.double_open, ..state }),
        state.after(script, '\'') == (Punctuation { single_open: !state.single_open, ..state }),
{
}

/// What each key does to a word that is being composed in Chinese or Japanese: Backspace
/// goes to the engine, the arrows and page keys turn the page the way they point, Enter
/// takes what is composed, F10 and Shift with Enter the letters, and every other key that
/// types nothing drops the word.
pub proof fn the_keys_of_a_word_under_way(action: Action, script: Script)
    requires
        script != Script::Korean,
    ensures
        compose_of(Action::Backspace, true, script) == Compose::Feed('\u{8}'),
        compose_of(Action::Right, true, script) == Compose::NextPage,
        compose_of(Action::Down, true, script) == Compose::NextPage,
        compose_of(Action::PageDown, true, script) == Compose::NextPage,
        compose_of(Action::Left, true, script) == Compose::PreviousPage,
        compose_of(Action::Up, true, script) == Compose::PreviousPage,
        compose_of(Action::PageUp, true, script) == Compose::PreviousPage,
        compose_of(Action::Newline, true, script) == Compose::CommitRaw,
        compose_of(Action::CommitTyped, true, script) == Compose::CommitTyped,
        compose_of(Action::Escape, true, script) == Compose::Cancel,
        !(action is Insert) && compose_of(action, true, script) != Compose::Cancel ==> action
            is Backspace || action is Right || action is Down || action is PageDown || action is Left
            || action is Up || action is PageUp || action is Newline || action is CommitTyped,
{
}

/// The space bar takes the first candidate in Chinese and asks the engine in Japanese;
/// within a word the apostrophe parts syllables in Chinese and the hyphen lengthens a
/// vowel in Japanese; and a key that writes a mark writes it, word or no word.
pub proof fn the_other_keys_of_a_word(c: char, composing: bool)
    ensures
        compose_of(Action::Insert(' '), true, Script::Chinese) == Compose::Select(0),
        compose_of(Action::Insert(' '), true, Script::Japanese) == Compose::Feed(' '),
        compose_of(Action::Insert('\''), true, Script::Chinese) == Compose::Feed('\''),
        compose_of(Action::Insert('\''), false, Script::Chinese) == Compose::Punctuate('\''),
        compose_of(Action::Insert('\''), composing, Script::Japanese) == Compose::Punctuate('\''),
        compose_of(Action::Insert('-'), true, Script::Japanese) == Compose::Feed('ー'),
        compose_of(Action::Insert('-'), false, Script::Japanese) == Compose::Pass,
        compose_of(Action::Insert(' '), false, Script::Chinese) == Compose::Pass,
        compose_of(Action::Insert(' '), false, Script::Japanese) == Compose::Pass,
        mark_of(Script::Japanese, c) is Some ==> compose_of(
            Action::Insert(c),
            composing,
            Script::Japanese,
        ) == Compose::Punctuate(c),
        mark_of(Script::Chinese, c) is Some && c != '\'' ==> compose_of(
            Action::Insert(c),
            composing,
            Script::Chinese,
        ) == Compose::Punctuate(c),
{
}

/// In Korean a letter key is always a jamo; Backspace takes one off where there is one;
/// and any other key ends the syllable and goes on to the editor.
pub proof fn the_keys_of_a_syllable(action: Action, c: char)
    ensures
        'a' <= c <= 'z' || 'A' <= c <= 'Z' ==> forall|composing: bool|
            #[trigger] compose_of(Action::Insert(c), composing, Script::Korean) == Compose::Jamo(c),
        compose_of(Action::Backspace, true, Script::Korean) == Compose::Decompose,
        compose_of(Action::Backspace, false, Script::Korean) == Compose::Pass,
        !(action is Insert) && !(action is Backspace) ==> compose_of(action, true, Script::Korean)
            == Compose::Finish && compose_of(action, false, Script::Korean) == Compose::Pass,
        !('a' <= c <= 'z' || 'A' <= c <= 'Z') ==> compose_of(Action::Insert(c), true, Script::Korean)
            == Compose::Finish && compose_of(Action::Insert(c), false, Script::Korean)
            == Compose::Pass,
{
}

} // verus!
