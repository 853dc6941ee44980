//! Hangul, composed a jamo at a time: the syllable being typed is at most an
//! initial, a medial and a coda, and a finished one is one code point.

use vstd::prelude::*;

verus! {

/// `char::from_u32` of std: the character at a code point, and nothing for a
/// surrogate or past the last one.
pub assume_specification[ char::from_u32 ](i: u32) -> (r: Option<char>)
    ensures
        i < 0xd800 || 0xe000 <= i <= 0x10ffff ==> r == Some(i as char),
        !(i < 0xd800 || 0xe000 <= i <= 0x10ffff) ==> r is None,
;

/// Where the composed syllables begin.
pub const FIRST_SYLLABLE: u32 = 0xAC00;

pub const MEDIAL_COUNT: u32 = 21;

/// Every coda, and none.
pub const CODA_COUNT: u32 = 28;

/// The place of a consonant among the initials, in the order the syllables count them.
pub open spec fn initial_index(c: char) -> Option<int> {
    match c {
        'ㄱ' => Some(0),
        'ㄲ' => Some(1),
        'ㄴ' => Some(2),
        'ㄷ' => Some(3),
        'ㄸ' => Some(4),
        'ㄹ' => Some(5),
        'ㅁ' => Some(6),
        'ㅂ' => Some(7),
        'ㅃ' => Some(8),
        'ㅅ' => Some(9),
        'ㅆ' => Some(10),
        'ㅇ' => Some(11),
        'ㅈ' => Some(12),
        'ㅉ' => Some(13),
        'ㅊ' => Some(14),
        'ㅋ' => Some(15),
        'ㅌ' => Some(16),
        'ㅍ' => Some(17),
        'ㅎ' => Some(18),
        _ => None,
    }
}

pub fn initial_place(c: char) -> (r: Option<u32>)
    ensures
        match r {
            Some(i) => initial_index(c) == Some(i as int) && i < 19,
            None => initial_index(c) is None,
        },
{
    match c {
        'ㄱ' => Some(0),
        'ㄲ' => Some(1),
        'ㄴ' => Some(2),
        'ㄷ' => Some(3),
        'ㄸ' => Some(4),
        'ㄹ' => Some(5),
        'ㅁ' => Some(6),
        'ㅂ' => Some(7),
        'ㅃ' => Some(8),
        'ㅅ' => Some(9),
        'ㅆ' => Some(10),
        'ㅇ' => Some(11),
        'ㅈ' => Some(12),
        'ㅉ' => Some(13),
        'ㅊ' => Some(14),
        'ㅋ' => Some(15),
        'ㅌ' => Some(16),
        'ㅍ' => Some(17),
        'ㅎ' => Some(18),
        _ => None,
    }
}

/// The place of a vowel among the medials, in the order the syllables count them.
pub open spec fn medial_index(c: char) -> Option<int> {
    match c {
        'ㅏ' => Some(0),
        'ㅐ' => Some(1),
        'ㅑ' => Some(2),
        'ㅒ' => Some(3),
        'ㅓ' => Some(4),
        'ㅔ' => Some(5),
        'ㅕ' => Some(6),
        'ㅖ' => Some(7),
        'ㅗ' => Some(8),
        'ㅘ' => Some(9),
        'ㅙ' => Some(10),
        'ㅚ' => Some(11),
        'ㅛ' => Some(12),
        'ㅜ' => Some(13),
        'ㅝ' => Some(14),
        'ㅞ' => Some(15),
        'ㅟ' => Some(16),
        'ㅠ' => Some(17),
        'ㅡ' => Some(18),
        'ㅢ' => Some(19),
        'ㅣ' => Some(20),
        _ => None,
    }
}

pub fn medial_place(c: char) -> (r: Option<u32>)
    ensures
        match r {
            Some(i) => medial_index(c) == Some(i as int) && i < 21,
            None => medial_index(c) is None,
        },
{
    match c {
        'ㅏ' => Some(0),
        'ㅐ' => Some(1),
        'ㅑ' => Some(2),
        'ㅒ' => Some(3),
        'ㅓ' => Some(4),
        'ㅔ' => Some(5),
        'ㅕ' => Some(6),
        'ㅖ' => Some(7),
        'ㅗ' => Some(8),
        'ㅘ' => Some(9),
        'ㅙ' => Some(10),
        'ㅚ' => Some(11),
        'ㅛ' => Some(12),
        'ㅜ' => Some(13),
        'ㅝ' => Some(14),
        'ㅞ' => Some(15),
        'ㅟ' => Some(16),
        'ㅠ' => Some(17),
        'ㅡ' => Some(18),
        'ㅢ' => Some(19),
        'ㅣ' => Some(20),
        _ => None,
    }
}

/// The place of a consonant among the codas, in the order the syllables count them.
pub open spec fn coda_index(c: char) -> Option<int> {
    match c {
        'ㄱ' => Some(0),
        'ㄲ' => Some(1),
        'ㄳ' => Some(2),
        'ㄴ' => Some(3),
        'ㄵ' => Some(4),
        'ㄶ' => Some(5),
        'ㄷ' => Some(6),
        'ㄹ' => Some(7),
        'ㄺ' => Some(8),
        'ㄻ' => Some(9),
        'ㄼ' => Some(10),
        'ㄽ' => Some(11),
        'ㄾ' => Some(12),
        'ㄿ' => Some(13),
        'ㅀ' => Some(14),
        'ㅁ' => Some(15),
        'ㅂ' => Some(16),
        'ㅄ' => Some(17),
        'ㅅ' => Some(18),
        'ㅆ' => Some(19),
        'ㅇ' => Some(20),
        'ㅈ' => Some(21),
        'ㅊ' => Some(22),
        'ㅋ' => Some(23),
        'ㅌ' => Some(24),
        'ㅍ' => Some(25),
        'ㅎ' => Some(26),
        _ => None,
    }
}

pub fn coda_place(c: char) -> (r: Option<u32>)
    ensures
        match r {
            Some(i) => coda_index(c) == Some(i as int) && i < 27,
            None => coda_index(c) is None,
        },
{
    match c {
        'ㄱ' => Some(0),
        'ㄲ' => Some(1),
        'ㄳ' => Some(2),
        'ㄴ' => Some(3),
        'ㄵ' => Some(4),
        'ㄶ' => Some(5),
        'ㄷ' => Some(6),
        'ㄹ' => Some(7),
        'ㄺ' => Some(8),
        'ㄻ' => Some(9),
        'ㄼ' => Some(10),
        'ㄽ' => Some(11),
        'ㄾ' => Some(12),
        'ㄿ' => Some(13),
        'ㅀ' => Some(14),
        'ㅁ' => Some(15),
        'ㅂ' => Some(16),
        'ㅄ' => Some(17),
        'ㅅ' => Some(18),
        'ㅆ' => Some(19),
        'ㅇ' => Some(20),
        'ㅈ' => Some(21),
        'ㅊ' => Some(22),
        'ㅋ' => Some(23),
        'ㅌ' => Some(24),
        'ㅍ' => Some(25),
        'ㅎ' => Some(26),
        _ => None,
    }
}

/// The medial that two keystrokes make together.
pub open spec fn joined_medial(a: char, b: char) -> Option<char> {
    match (a, b) {
        ('ㅗ', 'ㅏ') => Some('ㅘ'),
        ('ㅗ', 'ㅐ') => Some('ㅙ'),
        ('ㅗ', 'ㅣ') => Some('ㅚ'),
        ('ㅜ', 'ㅓ') => Some('ㅝ'),
        ('ㅜ', 'ㅔ') => Some('ㅞ'),
        ('ㅜ', 'ㅣ') => Some('ㅟ'),
        ('ㅡ', 'ㅣ') => Some('ㅢ'),
        _ => None,
    }
}

pub fn join_medial(a: char, b: char) -> (r: Option<char>)
    ensures
        r == joined_medial(a, b),
{
    match (a, b) {
        ('ㅗ', 'ㅏ') => Some('ㅘ'),
        ('ㅗ', 'ㅐ') => Some('ㅙ'),
        ('ㅗ', 'ㅣ') => Some('ㅚ'),
        ('ㅜ', 'ㅓ') => Some('ㅝ'),
        ('ㅜ', 'ㅔ') => Some('ㅞ'),
        ('ㅜ', 'ㅣ') => Some('ㅟ'),
        ('ㅡ', 'ㅣ') => Some('ㅢ'),
        _ => None,
    }
}

/// The two keystrokes a medial is made of, where it is made of two.
pub open spec fn medial_halves(c: char) -> Option<(char, char)> {
    match c {
        'ㅘ' => Some(('ㅗ', 'ㅏ')),
        'ㅙ' => Some(('ㅗ', 'ㅐ')),
        'ㅚ' => Some(('ㅗ', 'ㅣ')),
        'ㅝ' => Some(('ㅜ', 'ㅓ')),
        'ㅞ' => Some(('ㅜ', 'ㅔ')),
        'ㅟ' => Some(('ㅜ', 'ㅣ')),
        'ㅢ' => Some(('ㅡ', 'ㅣ')),
        _ => None,
    }
}

pub fn split_medial(c: char) -> (r: Option<(char, char)>)
    ensures
        r == medial_halves(c),
{
    match c {
        'ㅘ' => Some(('ㅗ', 'ㅏ')),
        'ㅙ' => Some(('ㅗ', 'ㅐ')),
        'ㅚ' => Some(('ㅗ', 'ㅣ')),
        'ㅝ' => Some(('ㅜ', 'ㅓ')),
        'ㅞ' => Some(('ㅜ', 'ㅔ')),
        'ㅟ' => Some(('ㅜ', 'ㅣ')),
        'ㅢ' => Some(('ㅡ', 'ㅣ')),
        _ => None,
    }
}

/// The coda that two keystrokes make together.
pub open spec fn joined_coda(a: char, b: char) -> Option<char> {
    match (a, b) {
        ('ㄱ', 'ㅅ') => Some('ㄳ'),
        ('ㄴ', 'ㅈ') => Some('ㄵ'),
        ('ㄴ', 'ㅎ') => Some('ㄶ'),
        ('ㄹ', 'ㄱ') => Some('ㄺ'),
        ('ㄹ', 'ㅁ') => Some('ㄻ'),
        ('ㄹ', 'ㅂ') => Some('ㄼ'),
        ('ㄹ', 'ㅅ') => Some('ㄽ'),
        ('ㄹ', 'ㅌ') => Some('ㄾ'),
        ('ㄹ', 'ㅍ') => Some('ㄿ'),
        ('ㄹ', 'ㅎ') => Some('ㅀ'),
        ('ㅂ', 'ㅅ') => Some('ㅄ'),
        _ => None,
    }
}

pub fn join_coda(a: char, b: char) -> (r: Option<char>)
    ensures
        r == joined_coda(a, b),
{
    match (a, b) {
        ('ㄱ', 'ㅅ') => Some('ㄳ'),
        ('ㄴ', 'ㅈ') => Some('ㄵ'),
        ('ㄴ', 'ㅎ') => Some('ㄶ'),
        ('ㄹ', 'ㄱ') => Some('ㄺ'),
        ('ㄹ', 'ㅁ') => Some('ㄻ'),
        ('ㄹ', 'ㅂ') => Some('ㄼ'),
        ('ㄹ', 'ㅅ') => Some('ㄽ'),
        ('ㄹ', 'ㅌ') => Some('ㄾ'),
        ('ㄹ', 'ㅍ') => Some('ㄿ'),
        ('ㄹ', 'ㅎ') => Some('ㅀ'),
        ('ㅂ', 'ㅅ') => Some('ㅄ'),
        _ => None,
    }
}

/// The two keystrokes a coda is made of, where it is made of two.
pub open spec fn coda_halves(c: char) -> Option<(char, char)> {
    match c {
        'ㄳ' => Some(('ㄱ', 'ㅅ')),
        'ㄵ' => Some(('ㄴ', 'ㅈ')),
        'ㄶ' => Some(('ㄴ', 'ㅎ')),
        'ㄺ' => Some(('ㄹ', 'ㄱ')),
        'ㄻ' => Some(('ㄹ', 'ㅁ')),
        'ㄼ' => Some(('ㄹ', 'ㅂ')),
        'ㄽ' => Some(('ㄹ', 'ㅅ')),
        'ㄾ' => Some(('ㄹ', 'ㅌ')),
        'ㄿ' => Some(('ㄹ', 'ㅍ')),
        'ㅀ' => Some(('ㄹ', 'ㅎ')),
        'ㅄ' => Some(('ㅂ', 'ㅅ')),
        _ => None,
    }
}

pub fn split_coda(c: char) -> (r: Option<(char, char)>)
    ensures
        r == coda_halves(c),
{
    match c {
        'ㄳ' => Some(('ㄱ', 'ㅅ')),
        'ㄵ' => Some(('ㄴ', 'ㅈ')),
        'ㄶ' => Some(('ㄴ', 'ㅎ')),
        'ㄺ' => Some(('ㄹ', 'ㄱ')),
        'ㄻ' => Some(('ㄹ', 'ㅁ')),
        'ㄼ' => Some(('ㄹ', 'ㅂ')),
        'ㄽ' => Some(('ㄹ', 'ㅅ')),
        'ㄾ' => Some(('ㄹ', 'ㅌ')),
        'ㄿ' => Some(('ㄹ', 'ㅍ')),
        'ㅀ' => Some(('ㄹ', 'ㅎ')),
        'ㅄ' => Some(('ㅂ', 'ㅅ')),
        _ => None,
    }
}

/// The halves of a medial or of a coda.
pub open spec fn halves_of(jamo: Option<char>, medial: bool) -> Option<(char, char)> {
    match jamo {
        None => None,
        Some(c) => if medial {
            medial_halves(c)
        } else {
            coda_halves(c)
        },
    }
}

/// The jamo on a key of the two-set arrangement. A capital with no jamo of its
/// own is the key's small letter.
pub open spec fn jamo_of(key: char) -> Option<char> {
    match struck(key) {
        Some(jamo) => Some(jamo),
        None => if 'A' as int <= key as int <= 'Z' as int {
            struck((key as int + 32) as char)
        } else {
            None
        },
    }
}

/// The jamo printed on a key, with Shift and without.
pub open spec fn struck(key: char) -> Option<char> {
    match key {
        'q' => Some('ㅂ'),
        'w' => Some('ㅈ'),
        'e' => Some('ㄷ'),
        'r' => Some('ㄱ'),
        't' => Some('ㅅ'),
        'y' => Some('ㅛ'),
        'u' => Some('ㅕ'),
        'i' => Some('ㅑ'),
        'o' => Some('ㅐ'),
        'p' => Some('ㅔ'),
        'a' => Some('ㅁ'),
        's' => Some('ㄴ'),
        'd' => Some('ㅇ'),
        'f' => Some('ㄹ'),
        'g' => Some('ㅎ'),
        'h' => Some('ㅗ'),
        'j' => Some('ㅓ'),
        'k' => Some('ㅏ'),
        'l' => Some('ㅣ'),
        'z' => Some('ㅋ'),
        'x' => Some('ㅌ'),
        'c' => Some('ㅊ'),
        'v' => Some('ㅍ'),
        'b' => Some('ㅠ'),
        'n' => Some('ㅜ'),
        'm' => Some('ㅡ'),
        'Q' => Some('ㅃ'),
        'W' => Some('ㅉ'),
        'E' => Some('ㄸ'),
        'R' => Some('ㄲ'),
        'T' => Some('ㅆ'),
        'O' => Some('ㅒ'),
        'P' => Some('ㅖ'),
        _ => None,
    }
}

fn printed(key: char) -> (r: Option<char>)
    ensures
        r == struck(key),
{
    match key {
        'q' => Some('ㅂ'),
        'w' => Some('ㅈ'),
        'e' => Some('ㄷ'),
        'r' => Some('ㄱ'),
        't' => Some('ㅅ'),
        'y' => Some('ㅛ'),
        'u' => Some('ㅕ'),
        'i' => Some('ㅑ'),
        'o' => Some('ㅐ'),
        'p' => Some('ㅔ'),
        'a' => Some('ㅁ'),
        's' => Some('ㄴ'),
        'd' => Some('ㅇ'),
        'f' => Some('ㄹ'),
        'g' => Some('ㅎ'),
        'h' => Some('ㅗ'),
        'j' => Some('ㅓ'),
        'k' => Some('ㅏ'),
        'l' => Some('ㅣ'),
        'z' => Some('ㅋ'),
        'x' => Some('ㅌ'),
        'c' => Some('ㅊ'),
        'v' => Some('ㅍ'),
        'b' => Some('ㅠ'),
        'n' => Some('ㅜ'),
        'm' => Some('ㅡ'),
        'Q' => Some('ㅃ'),
        'W' => Some('ㅉ'),
        'E' => Some('ㄸ'),
        'R' => Some('ㄲ'),
        'T' => Some('ㅆ'),
        'O' => Some('ㅒ'),
        'P' => Some('ㅖ'),
        _ => None,
    }
}

fn lower(key: char) -> (r: char)
    ensures
        'A' as int <= key as int <= 'Z' as int ==> r as int == key as int + 32,
        !('A' as int <= key as int <= 'Z' as int) ==> r == key,
{
    match key {
        'A' => 'a',
        'B' => 'b',
        'C' => 'c',
        'D' => 'd',
        'E' => 'e',
        'F' => 'f',
        'G' => 'g',
        'H' => 'h',
        'I' => 'i',
        'J' => 'j',
        'K' => 'k',
        'L' => 'l',
        'M' => 'm',
        'N' => 'n',
        'O' => 'o',
        'P' => 'p',
        'Q' => 'q',
        'R' => 'r',
        'S' => 's',
        'T' => 't',
        'U' => 'u',
        'V' => 'v',
        'W' => 'w',
        'X' => 'x',
        'Y' => 'y',
        'Z' => 'z',
        _ => key,
    }
}

pub fn jamo_for(key: char) -> (r: Option<char>)
    ensures
        r == jamo_of(key),
{
    match printed(key) {
        Some(jamo) => Some(jamo),
        None => {
            let n: u32 = key as u32;
            if 65 <= n && n <= 90 {
                printed(lower(key))
            } else {
                None
            }
        },
    }
}

/// Whether a jamo is a vowel.
pub open spec fn is_medial(jamo: char) -> bool {
    medial_index(jamo) is Some
}

/// The two keystrokes a jamo of one was: itself, or its halves in order.
pub open spec fn strokes(jamo: Option<char>, halves: Option<(char, char)>) -> Seq<char> {
    match (jamo, halves) {
        (None, _) => seq![],
        (Some(_), Some((head, tail))) => seq![head, tail],
        (Some(c), None) => seq![c],
    }
}

/// The syllable these jamo make, where each is one that can stand in its place.
pub open spec fn syllable(initial: char, medial: char, coda: Option<char>) -> Option<char> {
    match (initial_index(initial), medial_index(medial), coda) {
        (Some(i), Some(m), None) => Some(
            (FIRST_SYLLABLE + (i * MEDIAL_COUNT + m) * CODA_COUNT) as char,
        ),
        (Some(i), Some(m), Some(c)) => match coda_index(c) {
            Some(k) => Some(
                (FIRST_SYLLABLE + (i * MEDIAL_COUNT + m) * CODA_COUNT + k + 1) as char,
            ),
            None => None,
        },
        _ => None,
    }
}

pub fn compose_syllable(initial: char, medial: char, coda: Option<char>) -> (r: Option<char>)
    ensures
        r == syllable(initial, medial, coda),
{
    let i: u32 = match initial_place(initial) {
        Some(i) => i,
        None => return None,
    };
    let m: u32 = match medial_place(medial) {
        Some(m) => m,
        None => return None,
    };
    let k: u32 = match coda {
        Some(coda) => match coda_place(coda) {
            Some(k) => k + 1,
            None => return None,
        },
        None => 0,
    };
    let index: u32 = (i * MEDIAL_COUNT + m) * CODA_COUNT + k;
    char::from_u32(FIRST_SYLLABLE + index)
}

/// The syllable being typed.
#[derive(Debug, Clone, Copy, PartialEq, Eq, Structural)]
pub struct Korean {
    pub initial: Option<char>,
    pub medial: Option<char>,
    pub coda: Option<char>,
}

impl Default for Korean {
    fn default() -> (r: Self)
        ensures
            r == Korean::empty(),
    {
        Korean { initial: None, medial: None, coda: None }
    }
}

impl Korean {
    pub open spec fn empty() -> Korean {
        Korean { initial: None, medial: None, coda: None }
    }

    /// Every jamo is one that can stand where it stands, and a coda stands only
    /// under an initial and a medial.
    pub open spec fn wf(self) -> bool {
        &&& self.initial is Some ==> initial_index(self.initial->0) is Some
        &&& self.medial is Some ==> medial_index(self.medial->0) is Some
        &&& self.coda is Some ==> coda_index(self.coda->0) is Some && self.initial is Some
            && self.medial is Some
    }

    /// What the syllable shows: one code point where it has an initial and a
    /// medial, and its jamo side by side where it has not.
    pub open spec fn shown(self) -> Seq<char> {
        if self.initial is Some && self.medial is Some && syllable(
            self.initial->0,
            self.medial->0,
            self.coda,
        ) is Some {
            seq![syllable(self.initial->0, self.medial->0, self.coda)->0]
        } else {
            Self::one(self.initial) + Self::one(self.medial) + Self::one(self.coda)
        }
    }

    pub open spec fn one(jamo: Option<char>) -> Seq<char> {
        match jamo {
            Some(c) => seq![c],
            None => seq![],
        }
    }

    /// The jamo keys that went into the syllable, in the order they were struck.
    pub open spec fn jamo(self) -> Seq<char> {
        strokes(self.initial, None) + strokes(self.medial, halves_of(self.medial, true)) + strokes(
            self.coda,
            halves_of(self.coda, false),
        )
    }

    /// A consonant joins the syllable as its coda, or doubles the coda it has,
    /// and finishes the syllable where it can do neither. The syllable after it,
    /// and the one that it finished.
    pub open spec fn with_consonant(self, c: char) -> (Korean, Korean) {
        let open = self.initial is Some && self.medial is Some;
        if open && self.coda is None && coda_index(c) is Some {
            (Korean { coda: Some(c), ..self }, Korean::empty())
        } else if open && self.coda is Some && joined_coda(self.coda->0, c) is Some {
            (Korean { coda: joined_coda(self.coda->0, c), ..self }, Korean::empty())
        } else {
            (Korean { initial: Some(c), ..Korean::empty() }, self)
        }
    }

    /// A vowel takes the coda, or the second half of it, to begin a syllable of
    /// its own; with no coda it becomes the medial, or doubles it, and finishes
    /// the syllable where it can do neither.
    pub open spec fn with_vowel(self, v: char) -> (Korean, Korean) {
        if self.coda is Some {
            match halves_of(self.coda, false) {
                Some((head, tail)) => (
                    Korean { initial: Some(tail), medial: Some(v), coda: None },
                    Korean { coda: Some(head), ..self },
                ),
                None => (
                    Korean { initial: self.coda, medial: Some(v), coda: None },
                    Korean { coda: None, ..self },
                ),
            }
        } else if self.medial is None {
            (Korean { medial: Some(v), ..self }, Korean::empty())
        } else if joined_medial(self.medial->0, v) is Some {
            (Korean { medial: joined_medial(self.medial->0, v), ..self }, Korean::empty())
        } else {
            (Korean { medial: Some(v), ..Korean::empty() }, self)
        }
    }

    /// The syllable after a key, and the one that the key finished; a key that is
    /// no jamo does nothing.
    pub open spec fn pressed(self, key: char) -> (Korean, Korean) {
        match jamo_of(key) {
            None => (self, Korean::empty()),
            Some(jamo) => if is_medial(jamo) {
                self.with_vowel(jamo)
            } else {
                self.with_consonant(jamo)
            },
        }
    }

    /// The syllable without the last jamo that went into it.
    pub open spec fn shortened(self) -> Korean {
        if self.coda is Some {
            Korean {
                coda: match halves_of(self.coda, false) {
                    Some((head, _)) => Some(head),
                    None => None,
                },
                ..self
            }
        } else if self.medial is Some {
            Korean {
                medial: match halves_of(self.medial, true) {
                    Some((head, _)) => Some(head),
                    None => None,
                },
                ..self
            }
        } else {
            Korean { initial: None, ..self }
        }
    }

    /// Take a key. What comes back is the text that the key finished, which is
    /// nothing for most.
    pub fn key(&mut self, key: char) -> (r: String)
        ensures
            *final(self) == old(self).pressed(key).0,
            r@ == old(self).pressed(key).1.shown(),
            old(self).wf() ==> final(self).wf(),
    {
        let jamo: char = match jamo_for(key) {
            None => {
                let s = String::new();
                assert(s@ =~= Korean::empty().shown());
                return s;
            },
            Some(jamo) => jamo,
        };
        proof {
            lemma_jamo(key);
        }
        if medial_place(jamo).is_some() {
            self.vowel(jamo)
        } else {
            self.consonant(jamo)
        }
    }

    /// Take the last jamo back. `false` where there was none.
    pub fn backspace(&mut self) -> (r: bool)
        ensures
            r == (*old(self) != Korean::empty()),
            *final(self) == old(self).shortened(),
            old(self).wf() ==> final(self).wf(),
    {
        if let Some(coda) = self.coda {
            self.coda = match split_coda(coda) {
                Some((head, _)) => Some(head),
                None => None,
            };
        } else if let Some(medial) = self.medial {
            self.medial = match split_medial(medial) {
                Some((head, _)) => Some(head),
                None => None,
            };
        } else if self.initial.is_some() {
            self.initial = None;
        } else {
            return false;
        }
        true
    }

    /// What the syllable shows while it is being typed.
    pub fn preedit(&self) -> (r: String)
        ensures
            r@ == self.shown(),
    {
        let mut s = String::new();
        if let Some(initial) = self.initial {
            if let Some(medial) = self.medial {
                if let Some(c) = compose_syllable(initial, medial, self.coda) {
                    s.push(c);
                    assert(s@ =~= self.shown());
                    return s;
                }
            }
        }
        if let Some(c) = self.initial {
            s.push(c);
        }
        if let Some(c) = self.medial {
            s.push(c);
        }
        if let Some(c) = self.coda {
            s.push(c);
        }
        assert(s@ =~= self.shown());
        s
    }

    /// Finish the syllable: its text, and nothing left.
    pub fn take(&mut self) -> (r: String)
        ensures
            *final(self) == Korean::empty(),
            r@ == old(self).shown(),
    {
        let text = self.preedit();
        self.clear();
        text
    }

    /// Drop the syllable.
    pub fn clear(&mut self)
        ensures
            *final(self) == Korean::empty(),
    {
        self.initial = None;
        self.medial = None;
        self.coda = None;
    }

    /// A consonant key.
    pub fn consonant(&mut self, c: char) -> (r: String)
        ensures
            *final(self) == old(self).with_consonant(c).0,
            r@ == old(self).with_consonant(c).1.shown(),
            old(self).wf() && initial_index(c) is Some ==> final(self).wf(),
    {
        if self.initial.is_some() && self.medial.is_some() {
            match self.coda {
                None => {
                    if coda_place(c).is_some() {
                        self.coda = Some(c);
                        let s = String::new();
                        assert(s@ =~= Korean::empty().shown());
                        return s;
                    }
                },
                Some(held) => {
                    if let Some(joined) = join_coda(held, c) {
                        self.coda = Some(joined);
                        let s = String::new();
                        assert(s@ =~= Korean::empty().shown());
                        return s;
                    }
                },
            }
        }
        let done = self.take();
        self.initial = Some(c);
        done
    }

    /// A vowel key.
    pub fn vowel(&mut self, v: char) -> (r: String)
        ensures
            *final(self) == old(self).with_vowel(v).0,
            r@ == old(self).with_vowel(v).1.shown(),
            old(self).wf() && medial_index(v) is Some ==> final(self).wf(),
    {
        if let Some(coda) = self.coda {
            let (stays, moves) = match split_coda(coda) {
                Some((head, tail)) => (Some(head), tail),
                None => (None, coda),
            };
            self.coda = stays;
            let done = self.take();
            self.initial = Some(moves);
            self.medial = Some(v);
            return done;
        }
        let held: char = match self.medial {
            Some(held) => held,
            None => {
                self.medial = Some(v);
                let s = String::new();
                assert(s@ =~= Korean::empty().shown());
                return s;
            },
        };
        if let Some(joined) = join_medial(held, v) {
            self.medial = Some(joined);
            let s = String::new();
            assert(s@ =~= Korean::empty().shown());
            return s;
        }
        let done = self.take();
        self.medial = Some(v);
        done
    }
}

// ---------------------------------------------------------------------------
// What holds of every syllable
// ---------------------------------------------------------------------------

/// A jamo key is an initial or a medial, and no jamo key is a compound: a
/// compound is two keystrokes.
proof fn lemma_jamo(key: char)
    ensures
        jamo_of(key) is Some ==> (initial_index(jamo_of(key)->0) is Some) != (medial_index(
            jamo_of(key)->0,
        ) is Some),
        jamo_of(key) is Some ==> halves_of(jamo_of(key), true) is None && halves_of(
            jamo_of(key),
            false,
        ) is None,
{
}

/// No keystroke is lost: the jamo of the syllable that a key finished and of the
/// one it left are the jamo before it and the key's own, in order.
pub proof fn every_keystroke_is_kept(before: Korean, key: char)
    requires
        before.wf(),
        jamo_of(key) is Some,
    ensures
        ({
            let (next, done) = before.pressed(key);
            done.jamo() + next.jamo() == before.jamo().push(jamo_of(key)->0)
        }),
{
    lemma_jamo(key);
    let (next, done) = before.pressed(key);
    assert(done.jamo() + next.jamo() =~= before.jamo().push(jamo_of(key)->0));
}

/// What a key leaves being typed is well formed, and so is what it finished.
pub proof fn a_finished_syllable_is_well_formed(before: Korean, key: char)
    requires
        before.wf(),
    ensures
        before.pressed(key).0.wf(),
        before.pressed(key).1.wf(),
{
    lemma_jamo(key);
}

/// What is being typed shows as one character, from the first jamo on.
pub proof fn a_syllable_shows_as_one_character(k: Korean)
    requires
        k.wf(),
        k != Korean::empty(),
    ensures
        k.shown().len() == 1,
{
}

/// Two syllables that show the same hold the same jamo.
pub proof fn a_syllable_can_be_read_back(a: Korean, b: Korean)
    requires
        a.wf(),
        b.wf(),
        a.shown() == b.shown(),
    ensures
        a == b,
{
    if a == Korean::empty() || b == Korean::empty() {
        assert(Korean::empty().shown().len() == 0);
        if a != Korean::empty() {
            a_syllable_shows_as_one_character(a);
        }
        if b != Korean::empty() {
            a_syllable_shows_as_one_character(b);
        }
    } else {
        assert(a.shown()[0] == b.shown()[0]);
        lemma_code(a);
        lemma_code(b);
        lemma_indices();
    }
}

/// Which of the codas stands under a syllable, counting none as the first.
spec fn coda_number(k: Korean) -> int {
    match k.coda {
        Some(c) => coda_index(c)->0 + 1,
        None => 0,
    }
}

proof fn lemma_code(k: Korean)
    requires
        k.wf(),
        k != Korean::empty(),
    ensures
        k.initial is Some ==> 0x3131 <= k.initial->0 as int <= 0x314e,
        k.medial is Some ==> 0x314f <= k.medial->0 as int <= 0x3163,
        k.initial is Some ==> 0 <= initial_index(k.initial->0)->0 < 19,
        k.medial is Some ==> 0 <= medial_index(k.medial->0)->0 < 21,
        0 <= coda_number(k) < 28,
        k.initial is Some && k.medial is Some ==> k.shown()[0] as int == 0xac00 + 588
            * initial_index(k.initial->0)->0 + 28 * medial_index(k.medial->0)->0 + coda_number(k),
        k.initial is Some && k.medial is None ==> k.shown()[0] == k.initial->0,
        k.initial is None && k.medial is Some ==> k.shown()[0] == k.medial->0,
{
    lemma_index_bounds(k);
    if k.initial is Some && k.medial is Some {
        let i = initial_index(k.initial->0)->0;
        let m = medial_index(k.medial->0)->0;
        let code = 0xac00 + 588 * i + 28 * m + coda_number(k);
        assert(syllable(k.initial->0, k.medial->0, k.coda) == Some(code as char));
        assert(0xac00 <= code <= 0xd7a3);
    }
}

proof fn lemma_index_bounds(k: Korean)
    requires
        k.wf(),
    ensures
        k.initial is Some ==> 0x3131 <= k.initial->0 as int <= 0x314e,
        k.medial is Some ==> 0x314f <= k.medial->0 as int <= 0x3163,
        k.initial is Some ==> 0 <= initial_index(k.initial->0)->0 < 19,
        k.medial is Some ==> 0 <= medial_index(k.medial->0)->0 < 21,
        k.coda is Some ==> 0 <= coda_index(k.coda->0)->0 < 27,
{
}

/// Each place in a table is one jamo's.
proof fn lemma_indices()
    ensures
        forall|a: char, b: char|
            (#[trigger] initial_index(a)) is Some && initial_index(a) == #[trigger] initial_index(b)
                ==> a == b,
        forall|a: char, b: char|
            (#[trigger] medial_index(a)) is Some && medial_index(a) == #[trigger] medial_index(b)
                ==> a == b,
        forall|a: char, b: char|
            (#[trigger] coda_index(a)) is Some && coda_index(a) == #[trigger] coda_index(b) ==> a
                == b,
{
}

/// Where a key finished nothing, taking one jamo back undoes it.
pub proof fn backspace_undoes_a_key(before: Korean, key: char)
    requires
        before.wf(),
        jamo_of(key) is Some,
        before.pressed(key).1 == Korean::empty(),
    ensures
        before.pressed(key).0.shortened() == before,
{
    lemma_jamo(key);
}

/// Taking a jamo back takes the last keystroke and leaves the others.
pub proof fn backspace_takes_one_keystroke(before: Korean)
    requires
        before.wf(),
        before != Korean::empty(),
    ensures
        before.shortened().wf(),
        before.jamo().len() > 0,
        before.shortened().jamo() == before.jamo().drop_last(),
{
    assert(before.shortened().jamo() =~= before.jamo().drop_last());
}

/// The number of a final among the twenty-seven of Unicode, by its own code point: the
/// letters stand in that order, but for three that no syllable ends in.
pub open spec fn trailing_number(c: char) -> int {
    let n = c as int;
    n - 0x3130 - (if n > 0x3138 {
        1int
    } else {
        0int
    }) - (if n > 0x3143 {
        1int
    } else {
        0int
    }) - (if n > 0x3149 {
        1int
    } else {
        0int
    })
}

/// Whether a letter is a consonant, by its code point, and whether it is one of the
/// eleven that two keystrokes make.
pub open spec fn consonant_letter(c: char) -> bool {
    0x3131 <= c as int <= 0x314e
}

pub open spec fn two_strokes(c: char) -> bool {
    let n = c as int;
    n == 0x3133 || n == 0x3135 || n == 0x3136 || 0x313a <= n <= 0x3140 || n == 0x3144
}

/// Which letters can stand where: the vowels in the middle, every consonant that one
/// key makes at the front, and every consonant but three at the end.
pub proof fn each_letter_has_its_places(c: char, m: char, i: char)
    requires
        syllable(i, m, None) is Some,
    ensures
        syllable(c, m, None) is Some <==> consonant_letter(c) && !two_strokes(c),
        syllable(i, c, None) is Some <==> 0x314f <= c as int <= 0x3163,
        syllable(i, m, Some(c)) is Some <==> consonant_letter(c) && c != 'ㄸ' && c != 'ㅃ' && c
            != 'ㅉ',
{
}

/// A syllable is the character that Unicode counts for its letters: a final moves it on
/// by its own number, a vowel by twenty-eight for each vowel before it, and what an
/// initial adds does not depend on the other two.
pub proof fn a_syllable_is_its_unicode_character(i: char, m: char, c: char)
    requires
        syllable(i, m, None) is Some,
    ensures
        syllable(i, m, None)->0 as int == syllable(i, 'ㅏ', None)->0 as int + 28 * (m as int
            - 0x314f),
        syllable(i, m, None)->0 as int - syllable('ㄱ', m, None)->0 as int == syllable(
            i,
            'ㅏ',
            None,
        )->0 as int - 0xac00,
        syllable(i, m, Some(c)) is Some ==> syllable(i, m, Some(c))->0 as int == syllable(
            i,
            m,
            None,
        )->0 as int + trailing_number(c),
{
}

/// The first syllable of each initial, of each vowel, and of each final.
pub proof fn the_syllables_begin_where_unicode_has_them()
    ensures
        syllable('ㄱ', 'ㅏ', None) == Some('가'),
        syllable('ㄲ', 'ㅏ', None) == Some('까'),
        syllable('ㄴ', 'ㅏ', None) == Some('나'),
        syllable('ㄷ', 'ㅏ', None) == Some('다'),
        syllable('ㄸ', 'ㅏ', None) == Some('따'),
        syllable('ㄹ', 'ㅏ', None) == Some('라'),
        syllable('ㅁ', 'ㅏ', None) == Some('마'),
        syllable('ㅂ', 'ㅏ', None) == Some('바'),
        syllable('ㅃ', 'ㅏ', None) == Some('빠'),
        syllable('ㅅ', 'ㅏ', None) == Some('사'),
        syllable('ㅆ', 'ㅏ', None) == Some('싸'),
        syllable('ㅇ', 'ㅏ', None) == Some('아'),
        syllable('ㅈ', 'ㅏ', None) == Some('자'),
        syllable('ㅉ', 'ㅏ', None) == Some('짜'),
        syllable('ㅊ', 'ㅏ', None) == Some('차'),
        syllable('ㅋ', 'ㅏ', None) == Some('카'),
        syllable('ㅌ', 'ㅏ', None) == Some('타'),
        syllable('ㅍ', 'ㅏ', None) == Some('파'),
        syllable('ㅎ', 'ㅏ', None) == Some('하'),
        syllable('ㄱ', 'ㅏ', None) == Some('가'),
        syllable('ㄱ', 'ㅐ', None) == Some('개'),
        syllable('ㄱ', 'ㅑ', None) == Some('갸'),
        syllable('ㄱ', 'ㅒ', None) == Some('걔'),
        syllable('ㄱ', 'ㅓ', None) == Some('거'),
        syllable('ㄱ', 'ㅔ', None) == Some('게'),
        syllable('ㄱ', 'ㅕ', None) == Some('겨'),
        syllable('ㄱ', 'ㅖ', None) == Some('계'),
        syllable('ㄱ', 'ㅗ', None) == Some('고'),
        syllable('ㄱ', 'ㅘ', None) == Some('과'),
        syllable('ㄱ', 'ㅙ', None) == Some('괘'),
        syllable('ㄱ', 'ㅚ', None) == Some('괴'),
        syllable('ㄱ', 'ㅛ', None) == Some('교'),
        syllable('ㄱ', 'ㅜ', None) == Some('구'),
        syllable('ㄱ', 'ㅝ', None) == Some('궈'),
        syllable('ㄱ', 'ㅞ', None) == Some('궤'),
        syllable('ㄱ', 'ㅟ', None) == Some('귀'),
        syllable('ㄱ', 'ㅠ', None) == Some('규'),
        syllable('ㄱ', 'ㅡ', None) == Some('그'),
        syllable('ㄱ', 'ㅢ', None) == Some('긔'),
        syllable('ㄱ', 'ㅣ', None) == Some('기'),
        syllable('ㄱ', 'ㅏ', Some('ㄱ')) == Some('각'),
        syllable('ㄱ', 'ㅏ', Some('ㄲ')) == Some('갂'),
        syllable('ㄱ', 'ㅏ', Some('ㄳ')) == Some('갃'),
        syllable('ㄱ', 'ㅏ', Some('ㄴ')) == Some('간'),
        syllable('ㄱ', 'ㅏ', Some('ㄵ')) == Some('갅'),
        syllable('ㄱ', 'ㅏ', Some('ㄶ')) == Some('갆'),
        syllable('ㄱ', 'ㅏ', Some('ㄷ')) == Some('갇'),
        syllable('ㄱ', 'ㅏ', Some('ㄹ')) == Some('갈'),
        syllable('ㄱ', 'ㅏ', Some('ㄺ')) == Some('갉'),
        syllable('ㄱ', 'ㅏ', Some('ㄻ')) == Some('갊'),
        syllable('ㄱ', 'ㅏ', Some('ㄼ')) == Some('갋'),
        syllable('ㄱ', 'ㅏ', Some('ㄽ')) == Some('갌'),
        syllable('ㄱ', 'ㅏ', Some('ㄾ')) == Some('갍'),
        syllable('ㄱ', 'ㅏ', Some('ㄿ')) == Some('갎'),
        syllable('ㄱ', 'ㅏ', Some('ㅀ')) == Some('갏'),
        syllable('ㄱ', 'ㅏ', Some('ㅁ')) == Some('감'),
        syllable('ㄱ', 'ㅏ', Some('ㅂ')) == Some('갑'),
        syllable('ㄱ', 'ㅏ', Some('ㅄ')) == Some('값'),
        syllable('ㄱ', 'ㅏ', Some('ㅅ')) == Some('갓'),
        syllable('ㄱ', 'ㅏ', Some('ㅆ')) == Some('갔'),
        syllable('ㄱ', 'ㅏ', Some('ㅇ')) == Some('강'),
        syllable('ㄱ', 'ㅏ', Some('ㅈ')) == Some('갖'),
        syllable('ㄱ', 'ㅏ', Some('ㅊ')) == Some('갗'),
        syllable('ㄱ', 'ㅏ', Some('ㅋ')) == Some('갘'),
        syllable('ㄱ', 'ㅏ', Some('ㅌ')) == Some('같'),
        syllable('ㄱ', 'ㅏ', Some('ㅍ')) == Some('갚'),
        syllable('ㄱ', 'ㅏ', Some('ㅎ')) == Some('갛'),
{
}

/// Two keys make one vowel exactly for these pairs, and taking it apart gives them back.
pub proof fn the_vowels_that_two_keys_make(a: char, b: char, c: char)
    ensures
        joined_medial(a, b) == Some(c) <==> exists|k: int|
            0 <= k < 7 && a == #[trigger] "ㅗㅗㅗㅜㅜㅜㅡ"@[k] && b == "ㅏㅐㅣㅓㅔㅣㅣ"@[k] && c
                == "ㅘㅙㅚㅝㅞㅟㅢ"@[k],
        joined_medial(a, b) == Some(c) <==> medial_halves(c) == Some((a, b)),
{
    reveal_strlit("ㅗㅗㅗㅜㅜㅜㅡ");
    reveal_strlit("ㅏㅐㅣㅓㅔㅣㅣ");
    reveal_strlit("ㅘㅙㅚㅝㅞㅟㅢ");
    assert("ㅗㅗㅗㅜㅜㅜㅡ"@[0] == 'ㅗ' && "ㅏㅐㅣㅓㅔㅣㅣ"@[0] == 'ㅏ' && "ㅘㅙㅚㅝㅞㅟㅢ"@[0] == 'ㅘ');
    assert("ㅗㅗㅗㅜㅜㅜㅡ"@[1] == 'ㅗ' && "ㅏㅐㅣㅓㅔㅣㅣ"@[1] == 'ㅐ' && "ㅘㅙㅚㅝㅞㅟㅢ"@[1] == 'ㅙ');
    assert("ㅗㅗㅗㅜㅜㅜㅡ"@[2] == 'ㅗ' && "ㅏㅐㅣㅓㅔㅣㅣ"@[2] == 'ㅣ' && "ㅘㅙㅚㅝㅞㅟㅢ"@[2] == 'ㅚ');
    assert("ㅗㅗㅗㅜㅜㅜㅡ"@[3] == 'ㅜ' && "ㅏㅐㅣㅓㅔㅣㅣ"@[3] == 'ㅓ' && "ㅘㅙㅚㅝㅞㅟㅢ"@[3] == 'ㅝ');
    assert("ㅗㅗㅗㅜㅜㅜㅡ"@[4] == 'ㅜ' && "ㅏㅐㅣㅓㅔㅣㅣ"@[4] == 'ㅔ' && "ㅘㅙㅚㅝㅞㅟㅢ"@[4] == 'ㅞ');
    assert("ㅗㅗㅗㅜㅜㅜㅡ"@[5] == 'ㅜ' && "ㅏㅐㅣㅓㅔㅣㅣ"@[5] == 'ㅣ' && "ㅘㅙㅚㅝㅞㅟㅢ"@[5] == 'ㅟ');
    assert("ㅗㅗㅗㅜㅜㅜㅡ"@[6] == 'ㅡ' && "ㅏㅐㅣㅓㅔㅣㅣ"@[6] == 'ㅣ' && "ㅘㅙㅚㅝㅞㅟㅢ"@[6] == 'ㅢ');
}

/// Two keys make one final exactly for these pairs, and taking it apart gives them back.
pub proof fn the_finals_that_two_keys_make(a: char, b: char, c: char)
    ensures
        joined_coda(a, b) == Some(c) <==> exists|k: int|
            0 <= k < 11 && a == #[trigger] "ㄱㄴㄴㄹㄹㄹㄹㄹㄹㄹㅂ"@[k] && b == "ㅅㅈㅎㄱㅁㅂㅅㅌㅍㅎㅅ"@[k] && c
                == "ㄳㄵㄶㄺㄻㄼㄽㄾㄿㅀㅄ"@[k],
        joined_coda(a, b) == Some(c) <==> coda_halves(c) == Some((a, b)),
{
    reveal_strlit("ㄱㄴㄴㄹㄹㄹㄹㄹㄹㄹㅂ");
    reveal_strlit("ㅅㅈㅎㄱㅁㅂㅅㅌㅍㅎㅅ");
    reveal_strlit("ㄳㄵㄶㄺㄻㄼㄽㄾㄿㅀㅄ");
    assert("ㄱㄴㄴㄹㄹㄹㄹㄹㄹㄹㅂ"@[0] == 'ㄱ' && "ㅅㅈㅎㄱㅁㅂㅅㅌㅍㅎㅅ"@[0] == 'ㅅ' && "ㄳㄵㄶㄺㄻㄼㄽㄾㄿㅀㅄ"@[0] == 'ㄳ');
    assert("ㄱㄴㄴㄹㄹㄹㄹㄹㄹㄹㅂ"@[1] == 'ㄴ' && "ㅅㅈㅎㄱㅁㅂㅅㅌㅍㅎㅅ"@[1] == 'ㅈ' && "ㄳㄵㄶㄺㄻㄼㄽㄾㄿㅀㅄ"@[1] == 'ㄵ');
    assert("ㄱㄴㄴㄹㄹㄹㄹㄹㄹㄹㅂ"@[2] == 'ㄴ' && "ㅅㅈㅎㄱㅁㅂㅅㅌㅍㅎㅅ"@[2] == 'ㅎ' && "ㄳㄵㄶㄺㄻㄼㄽㄾㄿㅀㅄ"@[2] == 'ㄶ');
    assert("ㄱㄴㄴㄹㄹㄹㄹㄹㄹㄹㅂ"@[3] == 'ㄹ' && "ㅅㅈㅎㄱㅁㅂㅅㅌㅍㅎㅅ"@[3] == 'ㄱ' && "ㄳㄵㄶㄺㄻㄼㄽㄾㄿㅀㅄ"@[3] == 'ㄺ');
    assert("ㄱㄴㄴㄹㄹㄹㄹㄹㄹㄹㅂ"@[4] == 'ㄹ' && "ㅅㅈㅎㄱㅁㅂㅅㅌㅍㅎㅅ"@[4] == 'ㅁ' && "ㄳㄵㄶㄺㄻㄼㄽㄾㄿㅀㅄ"@[4] == 'ㄻ');
    assert("ㄱㄴㄴㄹㄹㄹㄹㄹㄹㄹㅂ"@[5] == 'ㄹ' && "ㅅㅈㅎㄱㅁㅂㅅㅌㅍㅎㅅ"@[5] == 'ㅂ' && "ㄳㄵㄶㄺㄻㄼㄽㄾㄿㅀㅄ"@[5] == 'ㄼ');
    assert("ㄱㄴㄴㄹㄹㄹㄹㄹㄹㄹㅂ"@[6] == 'ㄹ' && "ㅅㅈㅎㄱㅁㅂㅅㅌㅍㅎㅅ"@[6] == 'ㅅ' && "ㄳㄵㄶㄺㄻㄼㄽㄾㄿㅀㅄ"@[6] == 'ㄽ');
    assert("ㄱㄴㄴㄹㄹㄹㄹㄹㄹㄹㅂ"@[7] == 'ㄹ' && "ㅅㅈㅎㄱㅁㅂㅅㅌㅍㅎㅅ"@[7] == 'ㅌ' && "ㄳㄵㄶㄺㄻㄼㄽㄾㄿㅀㅄ"@[7] == 'ㄾ');
    assert("ㄱㄴㄴㄹㄹㄹㄹㄹㄹㄹㅂ"@[8] == 'ㄹ' && "ㅅㅈㅎㄱㅁㅂㅅㅌㅍㅎㅅ"@[8] == 'ㅍ' && "ㄳㄵㄶㄺㄻㄼㄽㄾㄿㅀㅄ"@[8] == 'ㄿ');
    assert("ㄱㄴㄴㄹㄹㄹㄹㄹㄹㄹㅂ"@[9] == 'ㄹ' && "ㅅㅈㅎㄱㅁㅂㅅㅌㅍㅎㅅ"@[9] == 'ㅎ' && "ㄳㄵㄶㄺㄻㄼㄽㄾㄿㅀㅄ"@[9] == 'ㅀ');
    assert("ㄱㄴㄴㄹㄹㄹㄹㄹㄹㄹㅂ"@[10] == 'ㅂ' && "ㅅㅈㅎㄱㅁㅂㅅㅌㅍㅎㅅ"@[10] == 'ㅅ' && "ㄳㄵㄶㄺㄻㄼㄽㄾㄿㅀㅄ"@[10] == 'ㅄ');
}

/// The two-set arrangement, key by key along the rows; with Shift seven keys type
/// another letter, and the rest what they type without.
pub proof fn the_two_set_arrangement(k: int)
    requires
        0 <= k < 26,
    ensures
        jamo_of("qwertyuiopasdfghjklzxcvbnm"@[k]) == Some("ㅂㅈㄷㄱㅅㅛㅕㅑㅐㅔㅁㄴㅇㄹㅎㅗㅓㅏㅣㅋㅌㅊㅍㅠㅜㅡ"@[k]),
        jamo_of("QWERTYUIOPASDFGHJKLZXCVBNM"@[k]) == Some("ㅃㅉㄸㄲㅆㅛㅕㅑㅒㅖㅁㄴㅇㄹㅎㅗㅓㅏㅣㅋㅌㅊㅍㅠㅜㅡ"@[k]),
{
    reveal_strlit("qwertyuiopasdfghjklzxcvbnm");
    reveal_strlit("ㅂㅈㄷㄱㅅㅛㅕㅑㅐㅔㅁㄴㅇㄹㅎㅗㅓㅏㅣㅋㅌㅊㅍㅠㅜㅡ");
    reveal_strlit("QWERTYUIOPASDFGHJKLZXCVBNM");
    reveal_strlit("ㅃㅉㄸㄲㅆㅛㅕㅑㅒㅖㅁㄴㅇㄹㅎㅗㅓㅏㅣㅋㅌㅊㅍㅠㅜㅡ");
}

/// Only the letters of the Latin alphabet are jamo keys.
pub proof fn no_other_key_is_a_jamo(key: char)
    ensures
        jamo_of(key) is Some <==> 'a' <= key <= 'z' || 'A' <= key <= 'Z',
{
}

/// A key stays in the syllable where there is a syllable of all the keys so far: then
/// that is what is being typed, and nothing is finished.
pub proof fn a_syllable_takes_every_key_it_can(before: Korean, key: char, whole: Korean)
    requires
        before.wf(),
        whole.wf(),
        jamo_of(key) is Some,
        whole.jamo() == before.jamo().push(jamo_of(key)->0),
    ensures
        before.pressed(key) == (whole, Korean::empty()),
{
    lemma_jamo(key);
    let j = jamo_of(key)->0;
    let all = before.jamo().push(j);
    assert(all.last() == j);
    assert(all.drop_last() =~= before.jamo());
    assert(whole != Korean::empty()) by {
        assert(Korean::empty().jamo() =~= seq![]);
    }
    backspace_takes_one_keystroke(whole);
    lemma_same_strokes(before, whole.shortened());
    lemma_shape(whole);
    lemma_halves();
}

/// Where there is none, the key begins a syllable of its own, and a vowel takes the
/// consonant before it along: what is finished is the syllable without that.
pub proof fn a_vowel_takes_the_consonant_before_it(before: Korean, key: char)
    requires
        before.wf(),
        jamo_of(key) is Some,
        before.pressed(key).1 != Korean::empty(),
    ensures
        ({
            let (next, done) = before.pressed(key);
            let j = jamo_of(key)->0;
            if is_medial(j) && before.coda is Some {
                next.jamo() == seq![before.jamo().last(), j] && done.jamo()
                    == before.jamo().drop_last()
            } else {
                next.jamo() == seq![j] && done == before
            }
        }),
{
    lemma_jamo(key);
    let (next, done) = before.pressed(key);
    let j = jamo_of(key)->0;
    if is_medial(j) && before.coda is Some {
        assert(next.jamo() =~= seq![before.jamo().last(), j]);
        assert(done.jamo() =~= before.jamo().drop_last());
    } else {
        assert(next.jamo() =~= seq![j]);
    }
}

/// How many keystrokes a part of a syllable is.
spec fn count_of(jamo: Option<char>, halves: Option<(char, char)>) -> int {
    if jamo is None {
        0
    } else if halves is Some {
        2
    } else {
        1
    }
}

/// Where each keystroke of a syllable stands.
proof fn lemma_shape(k: Korean)
    requires
        k.wf(),
    ensures
        ({
            let front = count_of(k.initial, None);
            let middle = halves_of(k.medial, true);
            let end = halves_of(k.coda, false);
            let at = front + count_of(k.medial, middle);
            &&& k.jamo().len() == at + count_of(k.coda, end)
            &&& k.initial is Some ==> k.jamo()[0] == k.initial->0
            &&& k.medial is Some && middle is None ==> k.jamo()[front] == k.medial->0
            &&& k.medial is Some && middle is Some ==> k.jamo()[front] == (middle->0).0 && k.jamo()[
                front + 1] == (middle->0).1
            &&& k.coda is Some && end is None ==> k.jamo()[at] == k.coda->0
            &&& k.coda is Some && end is Some ==> k.jamo()[at] == (end->0).0 && k.jamo()[at + 1] == (
            end->0).1
        }),
{
}

/// The halves of a vowel are vowels, those of a final consonants, and a letter is what
/// its halves make.
proof fn lemma_halves()
    ensures
        forall|c: char| #[trigger] medial_halves(c) matches Some((a, b)) ==> is_medial(a) && is_medial(
            b,
        ) && joined_medial(a, b) == Some(c),
        forall|c: char| #[trigger] coda_halves(c) matches Some((a, b)) ==> initial_index(a) is Some
            && initial_index(b) is Some && coda_index(a) is Some && joined_coda(a, b) == Some(c),
        forall|c: char| #[trigger] coda_index(c) is Some && coda_halves(c) is None ==> initial_index(c) is Some,
        forall|c: char| #[trigger] initial_index(c) is Some ==> medial_index(c) is None,
{
}

/// Two syllables of the same keystrokes are one.
proof fn lemma_same_strokes(a: Korean, b: Korean)
    requires
        a.wf(),
        b.wf(),
        a.jamo() == b.jamo(),
    ensures
        a == b,
{
    lemma_shape(a);
    lemma_shape(b);
    lemma_halves();
    if a.initial is Some {
        assert(initial_index(a.jamo()[0]) is Some);
    }
    if b.initial is Some {
        assert(initial_index(b.jamo()[0]) is Some);
    }
}

} // verus!
