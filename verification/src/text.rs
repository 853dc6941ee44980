//! Text as sequences of characters: the line, word and number rules that the
//! parsers and the labels of the rest of the library are stated over.

use vstd::prelude::*;

verus! {

/// `String::push` of std: the character goes to the end of the text, and the
/// text before it stays as it was.
pub assume_specification[ String::push ](s: &mut String, c: char)
    ensures
        final(s)@ == old(s)@.push(c),
;

// ---------------------------------------------------------------------------
// White space, and taking it off the ends
// ---------------------------------------------------------------------------

/// The characters Unicode lists as `White_Space`.
pub open spec fn white(c: char) -> bool {
    let n = c as int;
    ||| 0x9 <= n <= 0xd
    ||| n == 0x20
    ||| n == 0x85
    ||| n == 0xa0
    ||| n == 0x1680
    ||| 0x2000 <= n <= 0x200a
    ||| n == 0x2028
    ||| n == 0x2029
    ||| n == 0x202f
    ||| n == 0x205f
    ||| n == 0x3000
}

/// `s` from its first character that is not white space.
pub open spec fn trim_start(s: Seq<char>) -> Seq<char>
    decreases s.len(),
{
    if s.len() > 0 && white(s[0]) {
        trim_start(s.drop_first())
    } else {
        s
    }
}

/// `s` up to its last character that is not white space.
pub open spec fn trim_end(s: Seq<char>) -> Seq<char>
    decreases s.len(),
{
    if s.len() > 0 && white(s.last()) {
        trim_end(s.drop_last())
    } else {
        s
    }
}

/// `s` without the white space at either end.
pub open spec fn trim(s: Seq<char>) -> Seq<char> {
    trim_end(trim_start(s))
}

/// The code point of a character.
pub fn code(c: char) -> (r: u32)
    ensures
        r as int == c as int,
{
    c as u32
}

pub fn is_white(c: char) -> (r: bool)
    ensures
        r == white(c),
{
    let n: u32 = c as u32;
    (0x9 <= n && n <= 0xd) || n == 0x20 || n == 0x85 || n == 0xa0 || n == 0x1680 || (0x2000 <= n
        && n <= 0x200a) || n == 0x2028 || n == 0x2029 || n == 0x202f || n == 0x205f || n == 0x3000
}

/// Where the text that `trim_start` keeps begins.
fn trim_from(v: &Vec<char>) -> (r: usize)
    ensures
        r <= v.len(),
        trim_start(v@) == v@.skip(r as int),
{
    let mut i: usize = 0;
    assert(v@.skip(0) =~= v@);
    while i < v.len() && is_white(v[i])
        invariant
            i <= v.len(),
            trim_start(v@) == trim_start(v@.skip(i as int)),
        decreases v.len() - i,
    {
        assert(v@.skip(i as int).drop_first() =~= v@.skip(i + 1));
        i = i + 1;
    }
    i
}

pub fn trimmed_start(v: &Vec<char>) -> (r: Vec<char>)
    ensures
        r@ == trim_start(v@),
{
    let from: usize = trim_from(v);
    let r = part(v, from, v.len());
    assert(v@.subrange(from as int, v.len() as int) =~= v@.skip(from as int));
    r
}

pub fn trimmed(v: &Vec<char>) -> (r: Vec<char>)
    ensures
        r@ == trim(v@),
{
    let from: usize = trim_from(v);
    let mut to: usize = v.len();
    assert(v@.subrange(from as int, to as int) =~= v@.skip(from as int));
    while to > from && is_white(v[to - 1])
        invariant
            from <= to <= v.len(),
            trim(v@) == trim_end(v@.subrange(from as int, to as int)),
        decreases to,
    {
        assert(v@.subrange(from as int, to as int).drop_last() =~= v@.subrange(
            from as int,
            to - 1,
        ));
        to = to - 1;
    }
    part(v, from, to)
}

/// Text with nothing but white space at neither end is what trimming leaves.
pub proof fn lemma_trim_nothing(s: Seq<char>)
    requires
        s.len() > 0,
        !white(s[0]),
        !white(s.last()),
    ensures
        trim(s) == s,
{
}

// ---------------------------------------------------------------------------
// Between `str`, `String` and characters
// ---------------------------------------------------------------------------

pub fn chars_of(s: &str) -> (r: Vec<char>)
    ensures
        r@ == s@,
{
    let mut out: Vec<char> = Vec::new();
    for c in it: s.chars()
        invariant
            it.seq() == s@,
            out@ == s@.take(it.index() as int),
    {
        out.push(c);
    }
    out
}

pub fn string_of(v: &Vec<char>) -> (r: String)
    ensures
        r@ == v@,
{
    let mut out = String::new();
    let mut i: usize = 0;
    while i < v.len()
        invariant
            i <= v.len(),
            out@ == v@.take(i as int),
        decreases v.len() - i,
    {
        out.push(v[i]);
        i = i + 1;
    }
    out
}

/// The characters of `v` from `from` up to `to`.
pub fn part(v: &Vec<char>, from: usize, to: usize) -> (r: Vec<char>)
    requires
        from <= to <= v.len(),
    ensures
        r@ == v@.subrange(from as int, to as int),
{
    let mut out: Vec<char> = Vec::new();
    let mut i: usize = from;
    while i < to
        invariant
            from <= i <= to <= v.len(),
            out@ == v@.subrange(from as int, i as int),
        decreases to - i,
    {
        out.push(v[i]);
        i = i + 1;
    }
    out
}

pub fn same(a: &Vec<char>, b: &Vec<char>) -> (r: bool)
    ensures
        r == (a@ == b@),
{
    if a.len() != b.len() {
        return false;
    }
    let mut i: usize = 0;
    while i < a.len()
        invariant
            i <= a.len(),
            a.len() == b.len(),
            forall|k: int| 0 <= k < i ==> a@[k] == b@[k],
        decreases a.len() - i,
    {
        if a[i] != b[i] {
            return false;
        }
        i = i + 1;
    }
    assert(a@ =~= b@);
    true
}

pub fn same_text(a: &str, b: &str) -> (r: bool)
    ensures
        r == (a@ == b@),
{
    let a = chars_of(a);
    let b = chars_of(b);
    same(&a, &b)
}

/// Whether `v` is the text of a literal.
pub fn is_text(v: &Vec<char>, literal: &str) -> (r: bool)
    ensures
        r == (v@ == literal@),
{
    let b = chars_of(literal);
    same(v, &b)
}

// ---------------------------------------------------------------------------
// Finding
// ---------------------------------------------------------------------------

/// How many characters stand before the first `c`; all of them where there is
/// none.
pub open spec fn until(s: Seq<char>, c: char) -> nat
    decreases s.len(),
{
    if s.len() == 0 || s[0] == c {
        0
    } else {
        1 + until(s.drop_first(), c)
    }
}

/// `until` is the one length that has no `c` before it and ends at a `c` or at
/// the end.
pub proof fn lemma_until(s: Seq<char>, c: char, k: nat)
    requires
        k <= s.len(),
        forall|i: int| 0 <= i < k ==> s[i] != c,
        k < s.len() ==> s[k as int] == c,
    ensures
        until(s, c) == k,
    decreases s.len(),
{
    if s.len() > 0 && s[0] != c {
        assert forall|i: int| 0 <= i < k - 1 implies s.drop_first()[i] != c by {
            assert(s.drop_first()[i] == s[i + 1]);
        }
        lemma_until(s.drop_first(), c, (k - 1) as nat);
    }
}

pub proof fn lemma_until_is(s: Seq<char>, c: char)
    ensures
        until(s, c) <= s.len(),
        forall|i: int| 0 <= i < until(s, c) ==> s[i] != c,
        until(s, c) < s.len() ==> s[until(s, c) as int] == c,
    decreases s.len(),
{
    if s.len() > 0 && s[0] != c {
        lemma_until_is(s.drop_first(), c);
        assert forall|i: int| 0 <= i < until(s, c) implies s[i] != c by {
            if i > 0 {
                assert(s.drop_first()[i - 1] == s[i]);
            }
        }
    }
}

/// The place of the first `c` at or after `from`, or the length.
pub fn next_at(v: &Vec<char>, from: usize, c: char) -> (r: usize)
    requires
        from <= v.len(),
    ensures
        from <= r <= v.len(),
        r == from + until(v@.skip(from as int), c),
{
    let mut i: usize = from;
    while i < v.len() && v[i] != c
        invariant
            from <= i <= v.len(),
            forall|k: int| from <= k < i ==> v@[k] != c,
        decreases v.len() - i,
    {
        i = i + 1;
    }
    proof {
        lemma_until(v@.skip(from as int), c, (i - from) as nat);
    }
    i
}

/// Whether `word` stands in `s` at `at`.
pub open spec fn stands_at(s: Seq<char>, word: Seq<char>, at: int) -> bool {
    0 <= at && at + word.len() <= s.len() && s.subrange(at, at + word.len()) == word
}

/// The first place at or after `from` where `word` stands in `s`.
pub open spec fn find_from(s: Seq<char>, word: Seq<char>, from: int) -> Option<int>
    decreases s.len() - from + 1,
{
    if from + word.len() > s.len() {
        None
    } else if stands_at(s, word, from) {
        Some(from)
    } else {
        find_from(s, word, from + 1)
    }
}

/// The first place where `word` stands in `s`.
pub open spec fn find(s: Seq<char>, word: Seq<char>) -> Option<int> {
    find_from(s, word, 0)
}

/// Whether `word` stands anywhere in `s`.
pub open spec fn holds(s: Seq<char>, word: Seq<char>) -> bool {
    find(s, word) is Some
}

/// `find_from` finds the first place, and finds none only where there is none.
pub proof fn lemma_find_from(s: Seq<char>, word: Seq<char>, from: int)
    requires
        0 <= from,
    ensures
        match find_from(s, word, from) {
            Some(at) => from <= at && stands_at(s, word, at) && forall|k: int|
                from <= k < at ==> !stands_at(s, word, k),
            None => forall|k: int| from <= k ==> !stands_at(s, word, k),
        },
    decreases s.len() - from + 1,
{
    if from + word.len() <= s.len() && !stands_at(s, word, from) {
        lemma_find_from(s, word, from + 1);
    }
}

pub fn starts_at(v: &Vec<char>, word: &Vec<char>, at: usize) -> (r: bool)
    ensures
        r == stands_at(v@, word@, at as int),
{
    if at > v.len() || word.len() > v.len() - at {
        return false;
    }
    let mut i: usize = 0;
    while i < word.len()
        invariant
            i <= word.len(),
            at + word.len() <= v.len(),
            forall|k: int| 0 <= k < i ==> v@[at + k] == word@[k],
        decreases word.len() - i,
    {
        if v[at + i] != word[i] {
            assert(v@.subrange(at as int, at + word.len())[i as int] != word@[i as int]);
            return false;
        }
        i = i + 1;
    }
    assert(v@.subrange(at as int, at + word.len()) =~= word@);
    true
}

/// The first place at or after `from` where `word` stands.
pub fn place_of(v: &Vec<char>, word: &Vec<char>, from: usize) -> (r: Option<usize>)
    requires
        from <= v.len(),
    ensures
        match r {
            Some(at) => find_from(v@, word@, from as int) == Some(at as int),
            None => find_from(v@, word@, from as int) is None,
        },
{
    if word.len() > v.len() {
        return None;
    }
    let last: usize = v.len() - word.len();
    let mut i: usize = from;
    while i <= last
        invariant
            from <= i,
            last + word.len() == v.len(),
            i <= last + 1 || i == from,
            find_from(v@, word@, from as int) == find_from(v@, word@, i as int),
        decreases last + 1 - i,
    {
        if starts_at(v, word, i) {
            return Some(i);
        }
        if i == last {
            assert(find_from(v@, word@, i + 1) is None);
            return None;
        }
        i = i + 1;
    }
    None
}

/// `s` without `word` at its front, where it starts with it.
pub open spec fn strip_prefix(s: Seq<char>, word: Seq<char>) -> Option<Seq<char>> {
    if stands_at(s, word, 0) {
        Some(s.skip(word.len() as int))
    } else {
        None
    }
}

pub fn after_prefix(v: &Vec<char>, word: &str) -> (r: Option<Vec<char>>)
    ensures
        match r {
            Some(rest) => strip_prefix(v@, word@) == Some(rest@),
            None => strip_prefix(v@, word@) is None,
        },
{
    let word = chars_of(word);
    if starts_at(v, &word, 0) {
        let rest = part(v, word.len(), v.len());
        assert(v@.subrange(word.len() as int, v.len() as int) =~= v@.skip(word.len() as int));
        Some(rest)
    } else {
        None
    }
}

/// Whether `s` starts with `word`.
pub open spec fn starts_with(s: Seq<char>, word: Seq<char>) -> bool {
    stands_at(s, word, 0)
}

// ---------------------------------------------------------------------------
// Lines and words
// ---------------------------------------------------------------------------

/// A line without the carriage return that its line feed came with.
pub open spec fn chomp(s: Seq<char>) -> Seq<char> {
    if s.len() > 0 && s.last() == '\r' {
        s.drop_last()
    } else {
        s
    }
}

/// The lines of `s`: what each line feed ends, and what follows the last one
/// where anything does.
pub open spec fn lines(s: Seq<char>) -> Seq<Seq<char>>
    decreases s.len(),
{
    if s.len() == 0 {
        seq![]
    } else {
        let k = until(s, '\n');
        if k >= s.len() {
            seq![s]
        } else {
            seq![chomp(s.take(k as int))] + lines(s.skip((k + 1) as int))
        }
    }
}

/// The texts that a list of character lists holds.
pub open spec fn views(v: Seq<Vec<char>>) -> Seq<Seq<char>> {
    v.map_values(|line: Vec<char>| line@)
}

/// The texts that a list of strings holds.
pub open spec fn texts(v: Seq<String>) -> Seq<Seq<char>> {
    v.map_values(|s: String| s@)
}

pub fn lines_of(v: &Vec<char>) -> (r: Vec<Vec<char>>)
    ensures
        views(r@) == lines(v@),
{
    let mut out: Vec<Vec<char>> = Vec::new();
    let mut at: usize = 0;
    assert(v@.skip(0) =~= v@);
    assert(views(out@) + lines(v@) =~= lines(v@));
    while at < v.len()
        invariant
            at <= v.len(),
            views(out@) + lines(v@.skip(at as int)) == lines(v@),
        decreases v.len() - at,
    {
        let ghost rest = v@.skip(at as int);
        let end: usize = next_at(v, at, '\n');
        let ghost before = out@;
        if end == v.len() {
            let line = part(v, at, end);
            assert(line@ =~= rest);
            out.push(line);
            assert(views(out@) =~= views(before).push(line@));
            assert(views(before) + seq![rest] =~= views(out@));
            return out;
        }
        let to: usize = if end > at && v[end - 1] == '\r' {
            end - 1
        } else {
            end
        };
        let line = part(v, at, to);
        assert(v@.subrange(at as int, to as int) =~= chomp(rest.take(end - at)));
        out.push(line);
        assert(views(out@) =~= views(before).push(line@));
        assert(rest.skip(end - at + 1) =~= v@.skip(end + 1));
        assert(views(before) + (seq![line@] + lines(v@.skip(end + 1))) =~= views(out@) + lines(
            v@.skip(end + 1),
        ));
        at = end + 1;
    }
    assert(lines(v@.skip(at as int)) =~= seq![]);
    assert(views(out@) + lines(v@.skip(at as int)) =~= views(out@));
    out
}

/// How many characters stand before the first white space.
pub open spec fn word_len(s: Seq<char>) -> nat
    decreases s.len(),
{
    if s.len() == 0 || white(s[0]) {
        0
    } else {
        1 + word_len(s.drop_first())
    }
}

/// The runs of `s` that hold no white space, in order.
pub open spec fn words(s: Seq<char>) -> Seq<Seq<char>>
    decreases s.len(),
{
    if s.len() == 0 {
        seq![]
    } else if white(s[0]) {
        words(s.drop_first())
    } else {
        let k = word_len(s);
        if k == 0 || k >= s.len() {
            seq![s]
        } else {
            seq![s.take(k as int)] + words(s.skip(k as int))
        }
    }
}

pub proof fn lemma_word_len(s: Seq<char>, k: nat)
    requires
        k <= s.len(),
        forall|i: int| 0 <= i < k ==> !white(#[trigger] s[i]),
        k < s.len() ==> white(s[k as int]),
    ensures
        word_len(s) == k,
    decreases s.len(),
{
    if s.len() > 0 && !white(s[0]) {
        assert forall|i: int| 0 <= i < k - 1 implies !white(#[trigger] s.drop_first()[i]) by {
            assert(s.drop_first()[i] == s[i + 1]);
        }
        lemma_word_len(s.drop_first(), (k - 1) as nat);
    }
}

pub fn words_of(v: &Vec<char>) -> (r: Vec<Vec<char>>)
    ensures
        views(r@) == words(v@),
{
    let mut out: Vec<Vec<char>> = Vec::new();
    let mut at: usize = 0;
    assert(v@.skip(0) =~= v@);
    assert(views(out@) + words(v@) =~= words(v@));
    while at < v.len()
        invariant
            at <= v.len(),
            views(out@) + words(v@.skip(at as int)) == words(v@),
        decreases v.len() - at,
    {
        let ghost rest = v@.skip(at as int);
        if is_white(v[at]) {
            assert(rest.drop_first() =~= v@.skip(at + 1));
            at = at + 1;
        } else {
            let mut end: usize = at + 1;
            while end < v.len() && !is_white(v[end])
                invariant
                    at < end <= v.len(),
                    forall|k: int| at <= k < end ==> !white(#[trigger] v@[k]),
                decreases v.len() - end,
            {
                end = end + 1;
            }
            let ghost before = out@;
            let word = part(v, at, end);
            proof {
                assert forall|i: int| 0 <= i < end - at implies !white(#[trigger] rest[i]) by {
                    assert(rest[i] == v@[at + i]);
                }
                lemma_word_len(rest, (end - at) as nat);
                assert(word@ =~= rest.take(end - at));
                assert(rest.skip(end - at) =~= v@.skip(end as int));
                if end == v.len() {
                    assert(rest.take(end - at) =~= rest);
                    assert(words(v@.skip(end as int)) =~= seq![]);
                }
            }
            out.push(word);
            proof {
                assert(views(out@) =~= views(before).push(word@));
                assert(views(before) + (seq![word@] + words(v@.skip(end as int))) =~= views(out@)
                    + words(v@.skip(end as int)));
                assert(seq![word@] + words(v@.skip(end as int)) =~= words(rest));
            }
            at = end;
        }
    }
    assert(words(v@.skip(at as int)) =~= seq![]);
    assert(views(out@) + words(v@.skip(at as int)) =~= views(out@));
    out
}

// ---------------------------------------------------------------------------
// Cutting
// ---------------------------------------------------------------------------

/// The parts of `s` between the places where `c` stands.
pub open spec fn split(s: Seq<char>, c: char) -> Seq<Seq<char>>
    decreases s.len(),
{
    let k = until(s, c);
    if k >= s.len() {
        seq![s]
    } else {
        seq![s.take(k as int)] + split(s.skip((k + 1) as int), c)
    }
}

pub fn split_of(v: &Vec<char>, c: char) -> (r: Vec<Vec<char>>)
    ensures
        views(r@) == split(v@, c),
{
    let mut out: Vec<Vec<char>> = Vec::new();
    let mut at: usize = 0;
    assert(v@.skip(0) =~= v@);
    assert(views(out@) + split(v@, c) =~= split(v@, c));
    loop
        invariant
            at <= v.len(),
            views(out@) + split(v@.skip(at as int), c) == split(v@, c),
        decreases v.len() - at,
    {
        let ghost rest = v@.skip(at as int);
        let ghost before = out@;
        let end: usize = next_at(v, at, c);
        let piece = part(v, at, end);
        out.push(piece);
        proof {
            assert(views(out@) =~= views(before).push(piece@));
            assert(piece@ =~= rest.take(end - at));
        }
        if end == v.len() {
            assert(rest.take(end - at) =~= rest);
            assert(views(before) + seq![rest] =~= views(out@));
            return out;
        }
        proof {
            assert(rest.skip(end - at + 1) =~= v@.skip(end + 1));
            assert(views(before) + (seq![piece@] + split(v@.skip(end + 1), c)) =~= views(out@)
                + split(v@.skip(end + 1), c));
        }
        at = end + 1;
    }
}

/// What follows the first place where `word` stands.
pub open spec fn following(s: Seq<char>, word: Seq<char>) -> Option<Seq<char>> {
    match find(s, word) {
        Some(at) => Some(s.skip(at + word.len())),
        None => None,
    }
}

pub fn after_first(v: &Vec<char>, word: &Vec<char>) -> (r: Option<Vec<char>>)
    ensures
        match r {
            Some(rest) => following(v@, word@) == Some(rest@),
            None => following(v@, word@) is None,
        },
{
    match place_of(v, word, 0) {
        Some(at) => {
            proof {
                lemma_find_from(v@, word@, 0);
                assert(find_from(v@, word@, 0) == Some(at as int));
                assert(stands_at(v@, word@, at as int));
            }
            let width: usize = word.len();
            let end: usize = v.len();
            let rest = part(v, at + width, end);
            assert(rest@ =~= v@.skip(at + width));
            Some(rest)
        },
        None => None,
    }
}

pub fn contains(v: &Vec<char>, word: &str) -> (r: bool)
    ensures
        r == holds(v@, word@),
{
    let word = chars_of(word);
    place_of(v, &word, 0).is_some()
}

/// Whether a character is a decimal digit.
pub open spec fn is_digit(c: char) -> bool {
    48 <= c as int <= 57
}

/// The digits that `s` begins with.
pub open spec fn leading_digits(s: Seq<char>) -> Seq<char>
    decreases s.len(),
{
    if s.len() == 0 || !is_digit(s[0]) {
        seq![]
    } else {
        seq![s[0]] + leading_digits(s.drop_first())
    }
}

pub fn digits_first(v: &Vec<char>) -> (r: Vec<char>)
    ensures
        r@ == leading_digits(v@),
{
    let mut out: Vec<char> = Vec::new();
    let mut i: usize = 0;
    assert(v@.skip(0) =~= v@);
    assert(out@ + leading_digits(v@) =~= leading_digits(v@));
    while i < v.len()
        invariant
            i <= v.len(),
            out@ + leading_digits(v@.skip(i as int)) == leading_digits(v@),
        decreases v.len() - i,
    {
        let ghost before = out@;
        let ghost rest = v@.skip(i as int);
        let n: u32 = code(v[i]);
        assert(rest[0] == v@[i as int]);
        if !(48 <= n && n <= 57) {
            assert(out@ + leading_digits(rest) =~= out@);
            return out;
        }
        out.push(v[i]);
        proof {
            assert(rest.drop_first() =~= v@.skip(i + 1));
            assert(out@ + leading_digits(v@.skip(i + 1)) =~= before + (seq![v@[i as int]]
                + leading_digits(v@.skip(i + 1))));
        }
        i = i + 1;
    }
    assert(out@ + leading_digits(v@.skip(i as int)) =~= out@);
    out
}

/// A letter's small form, among the letters of ASCII.
pub open spec fn lowered(c: char) -> char {
    if 65 <= c as int <= 90 {
        (c as int + 32) as char
    } else {
        c
    }
}

/// A text in small letters, among the letters of ASCII.
pub open spec fn lower(s: Seq<char>) -> Seq<char> {
    s.map_values(|c: char| lowered(c))
}

pub fn lower_char(c: char) -> (r: char)
    ensures
        r == lowered(c),
{
    match c {
        'A' => 'a',
        'B' => 'b',
        'C' => 'c',
        'D' => 'd',
        'E' => 'e',
        'F' => 'f',
        'G' => 'g',
        'H' => 'h',
        'I' => 'i',
        'J' => 'j',
        'K' => 'k',
        'L' => 'l',
        'M' => 'm',
        'N' => 'n',
        'O' => 'o',
        'P' => 'p',
        'Q' => 'q',
        'R' => 'r',
        'S' => 's',
        'T' => 't',
        'U' => 'u',
        'V' => 'v',
        'W' => 'w',
        'X' => 'x',
        'Y' => 'y',
        'Z' => 'z',
        _ => c,
    }
}

pub fn lower_of(v: &Vec<char>) -> (r: Vec<char>)
    ensures
        r@ == lower(v@),
{
    let mut out: Vec<char> = Vec::new();
    let mut i: usize = 0;
    while i < v.len()
        invariant
            i <= v.len(),
            out.len() == i,
            forall|k: int| 0 <= k < i ==> (#[trigger] out@[k]) == lowered(v@[k]),
        decreases v.len() - i,
    {
        out.push(lower_char(v[i]));
        i = i + 1;
    }
    assert(out@ =~= lower(v@));
    out
}

/// Take a list of strings apart into texts.
pub proof fn lemma_texts_push(list: Seq<String>, s: String)
    ensures
        texts(list.push(s)) == texts(list).push(s@),
{
    assert(texts(list.push(s)) =~= texts(list).push(s@));
}

// ---------------------------------------------------------------------------
// Numbers
// ---------------------------------------------------------------------------

/// What a character counts for in a number written in `radix`.
pub open spec fn digit_value(c: char, radix: int) -> Option<int> {
    let n = c as int;
    let d = if 48 <= n <= 57 {
        n - 48
    } else if 97 <= n <= 122 {
        n - 87
    } else if 65 <= n <= 90 {
        n - 55
    } else {
        99
    };
    if d < radix {
        Some(d)
    } else {
        None
    }
}

/// What a run of digits counts for; nothing where a character is not a digit.
pub open spec fn digits_value(s: Seq<char>, radix: int) -> Option<int>
    decreases s.len(),
{
    if s.len() == 0 {
        Some(0)
    } else {
        match (digits_value(s.drop_last(), radix), digit_value(s.last(), radix)) {
            (Some(v), Some(d)) => Some(v * radix + d),
            _ => None,
        }
    }
}

/// A written number: an optional plus sign and at least one digit, no larger
/// than `max`.
pub open spec fn number(s: Seq<char>, radix: int, max: int) -> Option<int> {
    let digits = if s.len() > 0 && s[0] == '+' {
        s.skip(1)
    } else {
        s
    };
    if digits.len() == 0 {
        None
    } else {
        match digits_value(digits, radix) {
            Some(v) => if v <= max {
                Some(v)
            } else {
                None
            },
            None => None,
        }
    }
}

pub fn digit_of(c: char, radix: u64) -> (r: Option<u64>)
    ensures
        match r {
            Some(d) => digit_value(c, radix as int) == Some(d as int) && d < 36,
            None => digit_value(c, radix as int) is None || radix > 99,
        },
{
    let n: u32 = c as u32;
    let d: u64 = if 48 <= n && n <= 57 {
        (n - 48) as u64
    } else if 97 <= n && n <= 122 {
        (n - 87) as u64
    } else if 65 <= n && n <= 90 {
        (n - 55) as u64
    } else {
        return None;
    };
    if d < radix {
        Some(d)
    } else {
        None
    }
}

/// Reads a number in radix 10 or 16.
pub fn number_of(v: &Vec<char>, radix: u64, max: u64) -> (r: Option<u64>)
    requires
        radix == 10 || radix == 16,
    ensures
        match r {
            Some(n) => number(v@, radix as int, max as int) == Some(n as int),
            None => number(v@, radix as int, max as int) is None,
        },
{
    let start: usize = if v.len() > 0 && v[0] == '+' {
        1
    } else {
        0
    };
    let ghost digits = v@.skip(start as int);
    assert(start == 0 ==> v@.skip(0) =~= v@);
    if start == v.len() {
        return None;
    }
    let mut total: u64 = 0;
    let mut over = false;
    let mut i: usize = start;
    while i < v.len()
        invariant
            radix == 10 || radix == 16,
            start <= i <= v.len(),
            digits == v@.skip(start as int),
            v@.len() > 0 && v@[0] == '+' ==> digits == v@.skip(1),
            !(v@.len() > 0 && v@[0] == '+') ==> digits == v@,
            digits_value(digits.take(i - start), radix as int) is Some,
            digits_value(digits.take(i - start), radix as int)->0 >= 0,
            !over ==> total <= max && digits_value(digits.take(i - start), radix as int) == Some(
                total as int,
            ),
            over ==> digits_value(digits.take(i - start), radix as int)->0 > max,
        decreases v.len() - i,
    {
        let ghost done = digits.take(i - start);
        let ghost next = digits.take(i + 1 - start);
        assert(next.drop_last() =~= done);
        assert(next.last() == v@[i as int]);
        match digit_of(v[i], radix) {
            Some(d) => {
                if !over {
                    let bigger: u128 = if radix == 10 {
                        (total as u128) * 10 + (d as u128)
                    } else {
                        (total as u128) * 16 + (d as u128)
                    };
                    if bigger > max as u128 {
                        over = true;
                    } else {
                        total = bigger as u64;
                    }
                }
            },
            None => {
                proof {
                    assert(digits_value(next, radix as int) is None);
                    lemma_digits_prefix(digits, radix as int, i + 1 - start);
                }
                return None;
            },
        }
        i = i + 1;
    }
    assert(digits.take(i - start) =~= digits);
    if over {
        None
    } else {
        Some(total)
    }
}

/// A run of digits is one whose every front part is one.
proof fn lemma_digits_prefix(s: Seq<char>, radix: int, k: int)
    requires
        0 <= k <= s.len(),
        digits_value(s.take(k), radix) is None,
    ensures
        digits_value(s, radix) is None,
    decreases s.len(),
{
    if k == s.len() {
        assert(s.take(k) =~= s);
    } else {
        assert(s.drop_last().take(k) =~= s.take(k));
        lemma_digits_prefix(s.drop_last(), radix, k);
    }
}

/// The digit written for a value below ten.
pub open spec fn digit_char(d: int) -> char {
    (48 + d) as char
}

/// A number written in decimal, with no leading zero.
pub open spec fn decimal(n: nat) -> Seq<char>
    decreases n,
{
    if n < 10 {
        seq![digit_char(n as int)]
    } else {
        decimal(n / 10).push(digit_char((n % 10) as int))
    }
}

fn char_of_digit(d: u64) -> (r: char)
    requires
        d < 10,
    ensures
        r == digit_char(d as int),
{
    match d {
        0 => '0',
        1 => '1',
        2 => '2',
        3 => '3',
        4 => '4',
        5 => '5',
        6 => '6',
        7 => '7',
        8 => '8',
        _ => '9',
    }
}

pub fn decimal_of(n: u64) -> (r: String)
    ensures
        r@ == decimal(n as nat),
    decreases n,
{
    if n < 10 {
        let mut s = String::new();
        s.push(char_of_digit(n));
        assert(s@ =~= decimal(n as nat));
        s
    } else {
        let mut s = decimal_of(n / 10);
        s.push(char_of_digit(n % 10));
        s
    }
}

proof fn lemma_decimal(n: nat)
    ensures
        decimal(n).len() > 0,
        forall|i: int| 0 <= i < decimal(n).len() ==> 48 <= (#[trigger] decimal(n)[i]) as int <= 57,
        digits_value(decimal(n), 10) == Some(n as int),
    decreases n,
{
    reveal_with_fuel(digits_value, 2);
    if n < 10 {
        assert(decimal(n).drop_last() =~= seq![]);
    } else {
        lemma_decimal(n / 10);
        assert(decimal(n).drop_last() =~= decimal(n / 10));
    }
}

/// Reading a number back gives the number that was written.
pub proof fn number_reads_what_decimal_writes(n: nat, max: int)
    requires
        n <= max,
    ensures
        number(decimal(n), 10, max) == Some(n as int),
        trim(decimal(n)) == decimal(n),
        forall|i: int| 0 <= i < decimal(n).len() ==> 48 <= (#[trigger] decimal(n)[i]) as int <= 57,
{
    lemma_decimal(n);
    let s = decimal(n);
    assert(48 <= s[0] as int <= 57);
    assert(48 <= s[s.len() - 1] as int <= 57);
    assert(s[0] != '+');
    lemma_trim_nothing(s);
}

/// A text of white space only.
pub open spec fn all_white(s: Seq<char>) -> bool {
    forall|i: int| 0 <= i < s.len() ==> white(#[trigger] s[i])
}

/// Trimming takes the white space off both ends and nothing from between.
pub proof fn trimming_takes_the_ends_off(before: Seq<char>, s: Seq<char>, after: Seq<char>)
    requires
        all_white(before),
        all_white(after),
        s.len() > 0 ==> !white(s[0]) && !white(s.last()),
    ensures
        trim(before + s + after) == s,
    decreases before.len() + after.len(),
{
    let all = before + s + after;
    if before.len() > 0 {
        assert(all[0] == before[0]);
        assert(all.drop_first() =~= before.drop_first() + s + after);
        trimming_takes_the_ends_off(before.drop_first(), s, after);
    } else if s.len() == 0 {
        assert(all =~= after);
        if after.len() > 0 {
            assert(all.drop_first() =~= before + s + after.drop_first());
            trimming_takes_the_ends_off(before, s, after.drop_first());
        } else {
            assert(all =~= s);
        }
    } else {
        assert(all[0] == s[0]);
        lemma_trim_end(s, after);
        assert(all =~= s + after);
    }
}

proof fn lemma_trim_end(s: Seq<char>, after: Seq<char>)
    requires
        all_white(after),
        s.len() > 0,
        !white(s.last()),
    ensures
        trim_end(s + after) == s,
    decreases after.len(),
{
    if after.len() > 0 {
        assert((s + after).last() == after.last());
        assert((s + after).drop_last() =~= s + after.drop_last());
        lemma_trim_end(s, after.drop_last());
    } else {
        assert(s + after =~= s);
    }
}

/// The blank and the tab are white, with the breaks of a line and the wide blank of
/// Chinese and Japanese; no letter, digit or mark is.
pub proof fn what_is_white(c: char)
    ensures
        white(' ') && white('\t') && white('\n') && white('\r') && white('\u{3000}'),
        33 <= c as int <= 126 ==> !white(c),
        0x3001 <= c as int ==> !white(c),
{
}

/// A text without a given character.
pub open spec fn lacks(s: Seq<char>, c: char) -> bool {
    forall|i: int| 0 <= i < s.len() ==> #[trigger] s[i] != c
}

/// A line ends where it is broken, with or without a carriage return before the break, and
/// what follows is the next.
pub proof fn a_line_ends_at_its_break(line: Seq<char>, rest: Seq<char>)
    requires
        lacks(line, '\n'),
        line.len() > 0 ==> line.last() != '\r',
    ensures
        lines(line + seq!['\n'] + rest) == seq![line] + lines(rest),
        lines(line + seq!['\r', '\n'] + rest) == seq![line] + lines(rest),
        line.len() > 0 ==> lines(line) == seq![line],
{
    let plain = line + seq!['\n'] + rest;
    lemma_until(plain, '\n', line.len());
    assert(plain.take(line.len() as int) =~= line);
    assert(plain.skip(line.len() as int + 1) =~= rest);
    let carried = line + seq!['\r', '\n'] + rest;
    lemma_until(carried, '\n', line.len() + 1);
    assert(carried.take(line.len() as int + 1) =~= line.push('\r'));
    assert(line.push('\r').drop_last() =~= line);
    assert(carried.skip(line.len() as int + 2) =~= rest);
    lemma_until(line, '\n', line.len());
}

/// White space parts words and is no part of any.
pub proof fn white_space_parts_words(word: Seq<char>, c: char, rest: Seq<char>)
    requires
        word.len() > 0,
        forall|i: int| 0 <= i < word.len() ==> !white(#[trigger] word[i]),
        white(c),
    ensures
        words(word + seq![c] + rest) == seq![word] + words(rest),
        words(seq![c] + rest) == words(rest),
        words(word) == seq![word],
{
    let all = word + seq![c] + rest;
    assert(all[0] == word[0]);
    assert forall|i: int| 0 <= i < word.len() implies !white(#[trigger] all[i]) by {
        assert(all[i] == word[i]);
    }
    lemma_word_len(all, word.len());
    assert(all.take(word.len() as int) =~= word);
    assert(all.skip(word.len() as int) =~= seq![c] + rest);
    assert((seq![c] + rest).drop_first() =~= rest);
    assert(words(seq![c] + rest) == words(rest));
    lemma_word_len(word, word.len());
}

/// A text is split at every place of a character, and the pieces are what stands between.
pub proof fn a_text_is_split_at_the_character(piece: Seq<char>, c: char, rest: Seq<char>)
    requires
        lacks(piece, c),
    ensures
        split(piece + seq![c] + rest, c) == seq![piece] + split(rest, c),
        split(piece, c) == seq![piece],
{
    let all = piece + seq![c] + rest;
    lemma_until(all, c, piece.len());
    assert(all.take(piece.len() as int) =~= piece);
    assert(all.skip(piece.len() as int + 1) =~= rest);
    lemma_until(piece, c, piece.len());
}

/// The capitals become their small letters, and nothing else becomes anything.
pub proof fn the_capitals_are_lowered(i: int, c: char)
    requires
        0 <= i < 26,
    ensures
        lowered("ABCDEFGHIJKLMNOPQRSTUVWXYZ"@[i]) == "abcdefghijklmnopqrstuvwxyz"@[i],
        !('A' as int <= c as int && c as int <= 'Z' as int) ==> lowered(c) == c,
        lowered(lowered(c)) == lowered(c),
{
    reveal_strlit("ABCDEFGHIJKLMNOPQRSTUVWXYZ");
    reveal_strlit("abcdefghijklmnopqrstuvwxyz");
}

/// The digits are worth what they are, to the base of ten and of sixteen, in either case.
pub proof fn the_digits_are_worth_what_they_are(d: int)
    requires
        0 <= d < 16,
    ensures
        digit_value("0123456789abcdef"@[d], 16) == Some(d),
        digit_value("0123456789ABCDEF"@[d], 16) == Some(d),
        d < 10 ==> digit_value("0123456789abcdef"@[d], 10) == Some(d),
        d >= 10 ==> digit_value("0123456789abcdef"@[d], 10) is None,
        d < 10 ==> digit_char(d) == "0123456789abcdef"@[d],
        is_digit("0123456789abcdef"@[d]) <==> d < 10,
        digit_value('g', 16) is None && digit_value('G', 16) is None && digit_value('-', 16) is None
            && digit_value(' ', 16) is None,
{
    reveal_strlit("0123456789abcdef");
    reveal_strlit("0123456789ABCDEF");
}

/// What so many digits to a base can count to.
pub open spec fn raised(radix: int, n: nat) -> int
    decreases n,
{
    if n == 0 {
        1
    } else {
        radix * raised(radix, (n - 1) as nat)
    }
}

/// A digit is worth as much more as it stands further to the left.
pub proof fn a_digit_is_worth_its_place(high: Seq<char>, low: Seq<char>, radix: int)
    ensures
        digits_value(high + low, radix) == (match (
            digits_value(high, radix),
            digits_value(low, radix),
        ) {
            (Some(h), Some(l)) => Some(h * raised(radix, low.len()) + l),
            _ => None,
        }),
    decreases low.len(),
{
    if low.len() == 0 {
        assert(high + low =~= high);
    } else {
        let less = low.drop_last();
        a_digit_is_worth_its_place(high, less, radix);
        assert((high + low).drop_last() =~= high + less);
        assert((high + low).last() == low.last());
        if let (Some(h), Some(l)) = (digits_value(high, radix), digits_value(less, radix)) {
            let scale = raised(radix, less.len());
            assert((h * scale + l) * radix == h * (radix * scale) + l * radix) by (nonlinear_arith);
        }
    }
}

/// A sign before a number changes nothing, a number too great is none, and nothing is none.
pub proof fn what_is_no_number(s: Seq<char>, radix: int, max: int, c: char)
    ensures
        number(seq![], radix, max) is None,
        number(seq!['+'], radix, max) is None,
        s.len() > 0 && s[0] != '+' ==> number(seq!['+'] + s, radix, max) == number(s, radix, max),
        number(s, radix, max) matches Some(v) ==> v <= max,
        digit_value(c, radix) is None && s.len() > 0 && s[0] != '+' ==> number(s.push(c), radix, max) is None,
{
    assert((seq!['+'] + s).skip(1) =~= s);
    assert(s.push(c).drop_last() =~= s);
}

/// The digits that a text begins with end where another character stands.
pub proof fn the_leading_digits_end_at_another_character(digits: Seq<char>, rest: Seq<char>)
    requires
        forall|i: int| 0 <= i < digits.len() ==> is_digit(#[trigger] digits[i]),
        rest.len() > 0 ==> !is_digit(rest[0]),
    ensures
        leading_digits(digits + rest) == digits,
    decreases digits.len(),
{
    if digits.len() == 0 {
        assert(digits + rest =~= rest);
        assert(leading_digits(rest) =~= digits);
    } else {
        assert((digits + rest)[0] == digits[0]);
        assert((digits + rest).drop_first() =~= digits.drop_first() + rest);
        the_leading_digits_end_at_another_character(digits.drop_first(), rest);
        assert(seq![digits[0]] + digits.drop_first() =~= digits);
    }
}

/// A prefix is stripped off what it stands before, and off nothing else.
pub proof fn a_prefix_is_stripped(word: Seq<char>, rest: Seq<char>, s: Seq<char>)
    ensures
        strip_prefix(word + rest, word) == Some(rest),
        starts_with(word + rest, word),
        strip_prefix(s, word) matches Some(left) ==> s == word + left,
{
    assert((word + rest).subrange(0, word.len() as int) =~= word);
    assert((word + rest).skip(word.len() as int) =~= rest);
    if let Some(left) = strip_prefix(s, word) {
        assert(s =~= s.subrange(0, word.len() as int) + s.skip(word.len() as int));
    }
}

/// What follows a word is what stands behind the first place where it stands.
pub proof fn what_follows_a_word(front: Seq<char>, word: Seq<char>, rest: Seq<char>)
    requires
        forall|p: int| 0 <= p < front.len() ==> !stands_at(front + word + rest, word, p),
    ensures
        find(front + word + rest, word) == Some(front.len() as int),
        following(front + word + rest, word) == Some(rest),
{
    let all = front + word + rest;
    let at = front.len() as int;
    assert(all.subrange(at, at + word.len()) =~= word);
    assert(stands_at(all, word, at));
    lemma_find_from(all, word, 0);
    assert(all.skip(at + word.len()) =~= rest);
}

} // verus!
