//! The on-screen keyboard: what is said to its service, and how much of the
//! panel it takes.

use vstd::prelude::*;

use crate::text::{
    after_first, chars_of, decimal, digits_first, find, following, is_digit, leading_digits,
    lemma_find_from, number, number_of, number_reads_what_decimal_writes, part, stands_at,
    the_leading_digits_end_at_another_character, trim_start, trimmed_start, white,
};

verus! {

/// How much of what the service wrote down is read.
pub const HEAD: usize = 2048;

/// The name the service knows the editor by.
pub const CLIENT: &'static str = "com.karyll.editor";

/// What asks the service to open the keyboard: the property, and its value.
pub fn open() -> (r: (&'static str, &'static str))
    ensures
        r.0@ == "open"@,
        r.1@ == "com.karyll.editor:abc:1"@,
{
    ("open", "com.karyll.editor:abc:1")
}

/// What asks the service to close it.
pub fn close() -> (r: (&'static str, &'static str))
    ensures
        r.0@ == "close"@,
        r.1@ == CLIENT@,
{
    ("close", CLIENT)
}

/// The height of the keyboard on a panel of a height: as measured on the panels
/// that were, and a third of any other.
pub open spec fn band(panel: i32) -> int {
    if panel == 2480 {
        808
    } else if panel == 1696 {
        578
    } else if panel == 1680 {
        578
    } else if panel >= 0 {
        panel as int / 3
    } else {
        -((-(panel as int)) / 3)
    }
}

pub fn of_panel(panel: i32) -> (r: i32)
    ensures
        r == band(panel),
{
    if panel == 2480 {
        808
    } else if panel == 1696 {
        578
    } else if panel == 1680 {
        578
    } else {
        let wide: i64 = panel as i64;
        let third: i64 = if wide >= 0 {
            wide / 3
        } else {
            -((-wide) / 3)
        };
        third as i32
    }
}

/// The height the service wrote down: the number after the field of that name
/// and its colon, where it is a height.
pub open spec fn said_height(said: Seq<char>) -> Option<i32> {
    match following(said, "\"portrait_height\""@) {
        None => None,
        Some(rest) => match following(rest, seq![':']) {
            None => None,
            Some(rest) => match number(leading_digits(trim_start(rest)), 10, i32::MAX as int) {
                Some(n) => if n > 0 {
                    Some(n as i32)
                } else {
                    None
                },
                None => None,
            },
        },
    }
}

pub fn of_keymap(said: &str) -> (r: Option<i32>)
    ensures
        r == said_height(said@),
{
    let said = chars_of(said);
    let name = chars_of("\"portrait_height\"");
    let rest = match after_first(&said, &name) {
        Some(rest) => rest,
        None => return None,
    };
    let mut colon: Vec<char> = Vec::new();
    colon.push(':');
    assert(colon@ =~= seq![':']);
    let rest = match after_first(&rest, &colon) {
        Some(rest) => rest,
        None => return None,
    };
    let rest = trimmed_start(&rest);
    let digits = digits_first(&rest);
    match number_of(&digits, 10, i32::MAX as u64) {
        Some(n) => if n > 0 {
            Some(n as i32)
        } else {
            None
        },
        None => None,
    }
}

/// How much of a panel the keyboard takes: what the service wrote down, of which
/// the head is read, or else what the panel says.
pub fn height(panel: i32, said: Option<&str>) -> (r: i32)
    ensures
        r == (match said {
            Some(text) => match said_height(
                if text@.len() <= HEAD {
                    text@
                } else {
                    text@.take(HEAD as int)
                },
            ) {
                Some(n) => n as int,
                None => band(panel),
            },
            None => band(panel),
        }),
{
    if let Some(text) = said {
        let chars = chars_of(text);
        let to: usize = if chars.len() <= HEAD {
            chars.len()
        } else {
            HEAD
        };
        let head = crate::text::string_of(&part(&chars, 0, to));
        assert(to == chars.len() ==> head@ =~= text@);
        assert(head@ =~= text@.take(to as int));
        if let Some(n) = of_keymap(head.as_str()) {
            return n;
        }
    }
    of_panel(panel)
}

/// The keyboard takes a third of a panel that nothing is known of.
pub proof fn the_keyboard_takes_a_third(panel: i32)
    requires
        panel != 2480,
        panel != 1696,
        panel != 1680,
    ensures
        panel >= 0 ==> 3 * band(panel) <= panel < 3 * band(panel) + 3,
        panel < 0 ==> 3 * band(panel) - 3 < panel <= 3 * band(panel),
{
}

/// The panels whose keyboard was measured: it takes less than a half of each and more than a
/// quarter, and as much of two that differ by less than a line.
pub proof fn the_panels_that_were_measured()
    ensures
        band(2480) == 808,
        band(1696) == 578,
        band(1680) == band(1696),
        forall|panel: i32| 0 <= panel ==> #[trigger] band(panel) <= panel,
{
}

/// The height that the keyboard says is the number after its word, whatever stands before
/// and behind it.
pub proof fn the_height_is_the_number_that_was_said(front: Seq<char>, n: nat, rest: Seq<char>)
    requires
        0 < n <= i32::MAX,
        rest.len() > 0 ==> !is_digit(rest[0]),
        forall|p: int|
            0 <= p < front.len() ==> !stands_at(
                front + ("\"portrait_height\""@ + seq![':', ' '] + decimal(n) + rest),
                "\"portrait_height\""@,
                p,
            ),
    ensures
        said_height(front + ("\"portrait_height\""@ + seq![':', ' '] + decimal(n) + rest)) == Some(
            n as i32,
        ),
{
    let word = "\"portrait_height\""@;
    let tail = word + seq![':', ' '] + decimal(n) + rest;
    let said = front + tail;
    let at = front.len() as int;
    assert(said.subrange(at, at + word.len()) =~= word);
    assert(stands_at(said, word, at));
    lemma_find_from(said, word, 0);
    assert(find(said, word) == Some(at));
    let after = said.skip(at + word.len());
    assert(after =~= seq![':', ' '] + decimal(n) + rest);
    let colon = seq![':'];
    assert(after.subrange(0, 1) =~= colon);
    assert(stands_at(after, colon, 0));
    assert(find(after, colon) == Some(0int));
    let value = after.skip(1);
    assert(value =~= seq![' '] + decimal(n) + rest);
    number_reads_what_decimal_writes(n, i32::MAX as int);
    let digits = decimal(n);
    assert(value.drop_first() =~= digits + rest);
    assert forall|i: int| 0 <= i < digits.len() implies is_digit(#[trigger] digits[i]) by {}
    the_leading_digits_end_at_another_character(digits, rest);
    assert((digits + rest)[0] == digits[0]);
    assert(!white(digits[0]));
    assert(trim_start(digits + rest) == digits + rest);
    assert(white(' '));
    assert(trim_start(value) == trim_start(value.drop_first()));
}

/// Nothing is said where the word is missing.
pub proof fn no_height_is_said_without_its_word(said: Seq<char>)
    requires
        forall|p: int| 0 <= p ==> !stands_at(said, "\"portrait_height\""@, p),
    ensures
        said_height(said) is None,
{
    lemma_find_from(said, "\"portrait_height\""@, 0);
}

} // verus!
