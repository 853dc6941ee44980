//! The Bluetooth daemon: what is asked of it, what its answers say, and where
//! its start and its end stand.

use vstd::prelude::*;

use crate::evdev::text_of;
use crate::text::{
    a_digit_is_worth_its_place, after_first, chars_of, code, contains, digits_first,
    digits_value, find, following, holds, is_digit, is_text, leading_digits, lemma_find_from,
    lemma_until, lines, lines_of, lower, lower_char, lowered, next_at, number, number_of, part,
    place_of, raised, split, split_of, stands_at, string_of,
    the_leading_digits_end_at_another_character, trim, trim_end, trim_start, trimmed,
    trimmed_start, until, views, what_follows_a_word, white,
};

verus! {

/// A keyboard as the daemon knows it.
#[derive(Debug, Clone, PartialEq, Eq)]
pub struct Device {
    pub address: String,
    pub name: String,
    pub protocol: String,
}

/// A device's parts as texts.
pub struct DeviceText {
    pub address: Seq<char>,
    pub name: Seq<char>,
    pub protocol: Seq<char>,
}

impl View for Device {
    type V = DeviceText;

    open spec fn view(&self) -> DeviceText {
        DeviceText { address: self.address@, name: self.name@, protocol: self.protocol@ }
    }
}

/// A copy of a device.
pub fn copy_of(device: &Device) -> (r: Device)
    ensures
        r@ == device@,
{
    Device {
        address: device.address.clone(),
        name: device.name.clone(),
        protocol: device.protocol.clone(),
    }
}

/// The parts of a list of devices.
pub open spec fn device_texts(list: Seq<Device>) -> Seq<DeviceText> {
    list.map_values(|d: Device| d@)
}

/// How a scan stands.
#[derive(Debug, Clone, PartialEq, Eq)]
pub enum Scan {
    /// Asked for and not begun.
    Starting,
    Running(Vec<Device>),
    Done(Vec<Device>),
}

/// What a pairing asks for or says.
#[derive(Debug, Clone, PartialEq, Eq)]
pub enum Prompt {
    Passkey(String),
    Failed(String),
}

/// Whether the daemon can be asked anything.
#[derive(Debug, Clone, Copy, PartialEq, Eq, Structural)]
pub enum Ready {
    Starting,
    Up,
    Unavailable,
}

// ---------------------------------------------------------------------------
// Addresses
// ---------------------------------------------------------------------------

/// An address without what follows its first slash.
pub open spec fn bare_of(address: Seq<char>) -> Seq<char> {
    address.take(until(address, '/') as int)
}

/// Whether two addresses are of one device: their bare parts, whatever the case
/// of the letters.
pub open spec fn same_device(a: Seq<char>, b: Seq<char>) -> bool {
    let x = bare_of(a);
    let y = bare_of(b);
    x.len() == y.len() && forall|i: int|
        0 <= i < x.len() ==> lowered(#[trigger] x[i]) == lowered(y[i])
}

/// An address without the kind of address that may follow it.
pub fn bare(address: &str) -> (r: &str)
    ensures
        r@ == bare_of(address@),
{
    let chars = chars_of(address);
    let k: usize = next_at(&chars, 0, '/');
    assert(chars@.skip(0) =~= chars@);
    let r = address.substring_char(0, k);
    assert(r@ =~= chars@.take(k as int));
    r
}

pub fn same_address(a: &str, b: &str) -> (r: bool)
    ensures
        r == same_device(a@, b@),
{
    let x = chars_of(bare(a));
    let y = chars_of(bare(b));
    if x.len() != y.len() {
        return false;
    }
    let mut i: usize = 0;
    while i < x.len()
        invariant
            i <= x.len(),
            x.len() == y.len(),
            x@ == bare_of(a@),
            y@ == bare_of(b@),
            forall|k: int| 0 <= k < i ==> lowered(#[trigger] x@[k]) == lowered(y@[k]),
        decreases x.len() - i,
    {
        if lower_char(x[i]) != lower_char(y[i]) {
            assert(lowered(x@[i as int]) != lowered(y@[i as int]));
            return false;
        }
        i = i + 1;
    }
    true
}

/// Being of one device is an equivalence.
pub proof fn one_device_is_an_equivalence(a: Seq<char>, b: Seq<char>, c: Seq<char>)
    ensures
        same_device(a, a),
        same_device(a, b) == same_device(b, a),
        same_device(a, b) && same_device(b, c) ==> same_device(a, c),
{
    let (x, y, z) = (bare_of(a), bare_of(b), bare_of(c));
    if same_device(a, b) {
        assert forall|i: int| 0 <= i < y.len() implies lowered(#[trigger] y[i]) == lowered(x[i]) by {
            assert(lowered(x[i]) == lowered(y[i]));
        }
        if same_device(b, c) {
            assert forall|i: int| 0 <= i < x.len() implies lowered(#[trigger] x[i]) == lowered(
                z[i],
            ) by {
                assert(lowered(y[i]) == lowered(z[i]));
            }
        }
    }
    if same_device(b, a) {
        assert forall|i: int| 0 <= i < x.len() implies lowered(#[trigger] x[i]) == lowered(y[i]) by {
            assert(lowered(y[i]) == lowered(x[i]));
        }
    }
}

/// Whether one of some devices has an address.
pub open spec fn has_address(list: Seq<DeviceText>, address: Seq<char>) -> bool {
    exists|i: int| 0 <= i < list.len() && same_device((#[trigger] list[i]).address, address)
}

pub fn any_at(list: &Vec<Device>, address: &str) -> (r: bool)
    ensures
        r == has_address(device_texts(list@), address@),
{
    let mut i: usize = 0;
    while i < list.len()
        invariant
            i <= list.len(),
            forall|k: int|
                0 <= k < i ==> !same_device((#[trigger] device_texts(list@)[k]).address, address@),
        decreases list.len() - i,
    {
        assert(device_texts(list@)[i as int] == list@[i as int]@);
        if same_address(list[i].address.as_str(), address) {
            return true;
        }
        i = i + 1;
    }
    false
}

// ---------------------------------------------------------------------------
// What is asked
// ---------------------------------------------------------------------------

/// A digit of a number in base sixteen.
pub open spec fn hex_digit(d: int) -> char {
    if d < 10 {
        (48 + d) as char
    } else {
        (55 + d) as char
    }
}

/// A number in base sixteen.
pub open spec fn hex(n: int) -> Seq<char>
    decreases n,
{
    if n < 16 {
        seq![hex_digit(n)]
    } else {
        hex(n / 16).push(hex_digit(n % 16))
    }
}

/// Whether a character stands in a request as it is.
pub open spec fn stands(c: char) -> bool {
    let n = c as int;
    ||| 65 <= n <= 90
    ||| 97 <= n <= 122
    ||| 48 <= n <= 57
    ||| c == '-'
    ||| c == '_'
    ||| c == '.'
    ||| c == ':'
    ||| c == '/'
}

/// A character as a request carries it: itself, a plus for a space, and else its
/// code point behind a percent sign, in two digits at least.
pub open spec fn escaped_char(c: char) -> Seq<char> {
    if stands(c) {
        seq![c]
    } else if c == ' ' {
        seq!['+']
    } else if (c as int) < 16 {
        seq!['%', '0'] + hex(c as int)
    } else {
        seq!['%'] + hex(c as int)
    }
}

/// A text as a request carries it.
pub open spec fn escaped(s: Seq<char>) -> Seq<char>
    decreases s.len(),
{
    if s.len() == 0 {
        seq![]
    } else {
        escaped(s.drop_last()) + escaped_char(s.last())
    }
}

fn hex_char(d: u32) -> (r: char)
    requires
        d < 16,
    ensures
        r == hex_digit(d as int),
{
    match d {
        0 => '0',
        1 => '1',
        2 => '2',
        3 => '3',
        4 => '4',
        5 => '5',
        6 => '6',
        7 => '7',
        8 => '8',
        9 => '9',
        10 => 'A',
        11 => 'B',
        12 => 'C',
        13 => 'D',
        14 => 'E',
        _ => 'F',
    }
}

fn push_hex(out: &mut String, n: u32)
    ensures
        final(out)@ == old(out)@ + hex(n as int),
    decreases n,
{
    if n < 16 {
        out.push(hex_char(n));
        assert(out@ =~= old(out)@ + hex(n as int));
    } else {
        push_hex(out, n / 16);
        out.push(hex_char(n % 16));
        assert(out@ =~= old(out)@ + hex(n as int));
    }
}

pub fn escape(value: &str) -> (r: String)
    ensures
        r@ == escaped(value@),
{
    let chars = chars_of(value);
    let mut out = String::new();
    let mut i: usize = 0;
    while i < chars.len()
        invariant
            i <= chars.len(),
            out@ == escaped(chars@.take(i as int)),
        decreases chars.len() - i,
    {
        let c = chars[i];
        let n: u32 = code(c);
        let ghost before = out@;
        assert(chars@.take(i + 1).drop_last() =~= chars@.take(i as int));
        if (65 <= n && n <= 90) || (97 <= n && n <= 122) || (48 <= n && n <= 57) || c == '-' || c
            == '_' || c == '.' || c == ':' || c == '/' {
            out.push(c);
            assert(out@ =~= before + escaped_char(c));
        } else if c == ' ' {
            out.push('+');
            assert(out@ =~= before + escaped_char(c));
        } else {
            out.push('%');
            if n < 16 {
                out.push('0');
            }
            push_hex(&mut out, n);
            assert(out@ =~= before + escaped_char(c));
        }
        i = i + 1;
    }
    assert(chars@.take(i as int) =~= chars@);
    out
}

/// A text of the characters that stand as they are is carried as it is.
pub proof fn a_plain_text_is_carried_as_it_is(s: Seq<char>)
    requires
        forall|i: int| 0 <= i < s.len() ==> stands(#[trigger] s[i]),
    ensures
        escaped(s) == s,
    decreases s.len(),
{
    if s.len() > 0 {
        a_plain_text_is_carried_as_it_is(s.drop_last());
        assert(stands(s[s.len() - 1]));
        assert(s =~= s.drop_last() + seq![s.last()]);
    }
}

/// The request to pair with a device.
pub open spec fn asks_to_pair(device: DeviceText) -> Seq<char> {
    "/pair?addr="@ + escaped(device.address) + "&protocol="@ + escaped(device.protocol) + "&name="@
        + escaped(device.name)
}

/// The request to drop the link to a device.
pub open spec fn asks_to_drop(device: DeviceText) -> Seq<char> {
    "/disconnect?addr="@ + escaped(device.address) + "&protocol="@ + escaped(device.protocol)
}

/// The request to forget the device of an address.
pub open spec fn asks_to_forget(address: Seq<char>) -> Seq<char> {
    "/remove?addr="@ + escaped(address)
}

/// Asks to pair with a device.
pub fn pair_request(device: &Device) -> (r: String)
    ensures
        r@ == asks_to_pair(device@),
{
    let mut s = String::from_str("/pair?addr=");
    s.append(escape(device.address.as_str()).as_str());
    s.append("&protocol=");
    s.append(escape(device.protocol.as_str()).as_str());
    s.append("&name=");
    s.append(escape(device.name.as_str()).as_str());
    s
}

/// Asks to drop the link to a device.
pub fn disconnect_request(device: &Device) -> (r: String)
    ensures
        r@ == asks_to_drop(device@),
{
    let mut s = String::from_str("/disconnect?addr=");
    s.append(escape(device.address.as_str()).as_str());
    s.append("&protocol=");
    s.append(escape(device.protocol.as_str()).as_str());
    s
}

/// Asks to forget a device.
pub fn remove_request(address: &str) -> (r: String)
    ensures
        r@ == asks_to_forget(address@),
{
    let mut s = String::from_str("/remove?addr=");
    s.append(escape(address).as_str());
    s
}

// ---------------------------------------------------------------------------
// What is answered
// ---------------------------------------------------------------------------

/// What follows the head of an answer: the first empty line, in either form.
pub open spec fn body_of(raw: Seq<char>) -> Option<Seq<char>> {
    match following(raw, seq!['\r', '\n', '\r', '\n']) {
        Some(body) => Some(body),
        None => following(raw, seq!['\n', '\n']),
    }
}

pub fn body_in(raw: &str) -> (r: Option<String>)
    ensures
        text_of(r) == body_of(raw@),
{
    let raw = chars_of(raw);
    let mut long: Vec<char> = Vec::new();
    long.push('\r');
    long.push('\n');
    long.push('\r');
    long.push('\n');
    assert(long@ =~= seq!['\r', '\n', '\r', '\n']);
    if let Some(body) = after_first(&raw, &long) {
        return Some(string_of(&body));
    }
    let mut short: Vec<char> = Vec::new();
    short.push('\n');
    short.push('\n');
    assert(short@ =~= seq!['\n', '\n']);
    match after_first(&raw, &short) {
        Some(body) => Some(string_of(&body)),
        None => None,
    }
}

/// The value of a digit of base sixteen.
pub open spec fn hex_value(c: char) -> Option<int> {
    if '0' <= c <= '9' {
        Some(c as int - 48)
    } else if 'a' <= c <= 'f' {
        Some(c as int - 87)
    } else if 'A' <= c <= 'F' {
        Some(c as int - 55)
    } else {
        None
    }
}

/// The number that four digits of base sixteen are, where they stand at a place.
pub open spec fn unit_at(s: Seq<char>, at: int) -> Option<int> {
    if 0 <= at && at + 4 <= s.len() {
        match (hex_value(s[at]), hex_value(s[at + 1]), hex_value(s[at + 2]), hex_value(s[at + 3])) {
            (Some(a), Some(b), Some(c), Some(d)) => Some(a * 4096 + b * 256 + c * 16 + d),
            _ => None,
        }
    } else {
        None
    }
}

/// The number of a unit that is written out at a place: a backslash, `u` and four
/// digits.
pub open spec fn escaped_unit(s: Seq<char>, at: int) -> Option<int> {
    if 0 <= at && at + 2 <= s.len() && s[at] == '\\' && s[at + 1] == 'u' {
        unit_at(s, at + 2)
    } else {
        None
    }
}

/// The first half of a pair that stands for one character, and the second.
pub open spec fn leads(unit: int) -> bool {
    0xd800 <= unit < 0xdc00
}

pub open spec fn trails(unit: int) -> bool {
    0xdc00 <= unit < 0xe000
}

/// What one character after a backslash stands for: a control character by its
/// letter, and every other for itself.
pub open spec fn lettered(c: char) -> char {
    if c == 'b' {
        '\u{8}'
    } else if c == 'f' {
        '\u{c}'
    } else if c == 'n' {
        '\n'
    } else if c == 'r' {
        '\r'
    } else if c == 't' {
        '\t'
    } else {
        c
    }
}

/// What a text that begins with a backslash stands for there, and how many
/// characters that takes: a unit, a pair of units, or one character after the
/// backslash. Half a pair alone is no character, and U+FFFD stands for it.
pub open spec fn unescaped(s: Seq<char>) -> (char, int) {
    match escaped_unit(s, 0) {
        Some(unit) => if leads(unit) {
            match escaped_unit(s, 6) {
                Some(next) => if trails(next) {
                    ((0x10000 + (unit - 0xd800) * 0x400 + (next - 0xdc00)) as char, 12)
                } else {
                    ('\u{fffd}', 6)
                },
                None => ('\u{fffd}', 6),
            }
        } else if trails(unit) {
            ('\u{fffd}', 6)
        } else {
            (unit as char, 6)
        },
        None => (lettered(s[1]), 2),
    }
}

/// A quoted text, up to the quotation mark that ends it, with what is escaped in it
/// as the characters it stands for. Nothing where no mark ends it.
pub open spec fn quoted(s: Seq<char>) -> Option<Seq<char>>
    decreases s.len(),
{
    if s.len() == 0 {
        None
    } else if s[0] == '"' {
        Some(seq![])
    } else if s[0] == '\\' {
        if s.len() < 2 {
            None
        } else {
            match quoted(s.skip(unescaped(s).1)) {
                Some(rest) => Some(seq![unescaped(s).0] + rest),
                None => None,
            }
        }
    } else {
        match quoted(s.skip(1)) {
            Some(rest) => Some(seq![s[0]] + rest),
            None => None,
        }
    }
}

/// A digit of base sixteen, as the daemon writes one.
pub open spec fn low_hex(d: int) -> char {
    if d < 10 {
        (48 + d) as char
    } else {
        (87 + d) as char
    }
}

/// A unit written out: a backslash, `u` and four digits.
pub open spec fn dumped_unit(n: int) -> Seq<char> {
    seq![
        '\\',
        'u',
        low_hex(n / 4096 % 16),
        low_hex(n / 256 % 16),
        low_hex(n / 16 % 16),
        low_hex(n % 16),
    ]
}

/// A character as the daemon writes it into a quoted text: what is printable in
/// ASCII as it is, the mark, the backslash and five control characters by a letter,
/// and the rest in units.
pub open spec fn dumped_char(c: char) -> Seq<char> {
    let n = c as int;
    if c == '"' || c == '\\' {
        seq!['\\', c]
    } else if c == '\n' {
        seq!['\\', 'n']
    } else if c == '\r' {
        seq!['\\', 'r']
    } else if c == '\t' {
        seq!['\\', 't']
    } else if c == '\u{8}' {
        seq!['\\', 'b']
    } else if c == '\u{c}' {
        seq!['\\', 'f']
    } else if 0x20 <= n < 0x7f {
        seq![c]
    } else if n < 0x10000 {
        dumped_unit(n)
    } else {
        dumped_unit(0xd800 + (n - 0x10000) / 0x400) + dumped_unit(0xdc00 + (n - 0x10000) % 0x400)
    }
}

/// A text as the daemon writes it between quotation marks.
pub open spec fn dumped(s: Seq<char>) -> Seq<char>
    decreases s.len(),
{
    if s.len() == 0 {
        seq![]
    } else {
        dumped_char(s[0]) + dumped(s.skip(1))
    }
}

proof fn lemma_low_hex(d: int)
    requires
        0 <= d < 16,
    ensures
        hex_value(low_hex(d)) == Some(d),
{
}

/// A unit that is written out reads as its number.
proof fn lemma_dumped_unit(s: Seq<char>, at: int, n: int)
    requires
        0 <= n < 0x10000,
        0 <= at,
        at + 6 <= s.len(),
        s.subrange(at, at + 6) == dumped_unit(n),
    ensures
        escaped_unit(s, at) == Some(n),
{
    let unit = s.subrange(at, at + 6);
    lemma_low_hex(n / 4096 % 16);
    lemma_low_hex(n / 256 % 16);
    lemma_low_hex(n / 16 % 16);
    lemma_low_hex(n % 16);
    assert(unit[0] == s[at]);
    assert(unit[1] == s[at + 1]);
    assert(unit[2] == s[at + 2]);
    assert(unit[3] == s[at + 3]);
    assert(unit[4] == s[at + 4]);
    assert(unit[5] == s[at + 5]);
    lemma_hex_parts(n);
}

/// A number below 65536 is its four digits of base sixteen.
proof fn lemma_hex_parts(n: int)
    requires
        0 <= n < 0x10000,
    ensures
        n == (n / 4096 % 16) * 4096 + (n / 256 % 16) * 256 + (n / 16 % 16) * 16 + n % 16,
{
    let tens = n / 16;
    let hundreds = tens / 16;
    assert(n == 16 * tens + n % 16);
    assert(n / 256 == hundreds);
    assert(tens == 16 * hundreds + tens % 16);
    assert(n / 4096 == hundreds / 16);
    assert(hundreds == 16 * (hundreds / 16) + hundreds % 16);
    assert(hundreds / 16 < 16);
}

proof fn lemma_dumped_char(c: char, more: Seq<char>)
    requires
        !(0x20 <= c as int <= 0x7e) || c == '"' || c == '\\',
    ensures
        ({
            let s = dumped_char(c) + more;
            s.len() >= 2 && s[0] == '\\' && unescaped(s) == (c, dumped_char(c).len() as int)
        }),
{
    let n = c as int;
    let s = dumped_char(c) + more;
    if c == '"' || c == '\\' || c == '\n' || c == '\r' || c == '\t' || c == '\u{8}' || c == '\u{c}' {
        assert(s[1] == dumped_char(c)[1]);
        assert(escaped_unit(s, 0) is None);
    } else if n < 0x10000 {
        assert(s.subrange(0, 6) =~= dumped_unit(n));
        lemma_dumped_unit(s, 0, n);
    } else {
        let high = 0xd800 + (n - 0x10000) / 0x400;
        let low = 0xdc00 + (n - 0x10000) % 0x400;
        assert(s.subrange(0, 6) =~= dumped_unit(high));
        assert(s.subrange(6, 12) =~= dumped_unit(low));
        lemma_dumped_unit(s, 0, high);
        lemma_dumped_unit(s, 6, low);
        assert(0x10000 + (high - 0xd800) * 0x400 + (low - 0xdc00) == n);
    }
}

/// A text comes back as it was before the daemon wrote it down, whatever follows it.
pub proof fn a_quoted_text_comes_back(s: Seq<char>, more: Seq<char>)
    ensures
        quoted(dumped(s) + seq!['"'] + more) == Some(s),
    decreases s.len(),
{
    let all = dumped(s) + seq!['"'] + more;
    if s.len() == 0 {
        assert(all[0] == '"');
        assert(s =~= seq![]);
    } else {
        let c = s[0];
        let rest = dumped(s.skip(1)) + seq!['"'] + more;
        a_quoted_text_comes_back(s.skip(1), more);
        assert(all =~= dumped_char(c) + rest);
        assert(all.skip(dumped_char(c).len() as int) =~= rest);
        assert(seq![c] + s.skip(1) =~= s);
        if !(0x20 <= c as int <= 0x7e) || c == '"' || c == '\\' {
            lemma_dumped_char(c, rest);
        } else {
            assert(all[0] == c);
        }
    }
}

/// How many characters stand before the end of an unquoted value.
pub open spec fn value_len(s: Seq<char>) -> nat
    decreases s.len(),
{
    if s.len() == 0 || s[0] == ',' || s[0] == '}' || s[0] == ']' {
        0
    } else {
        1 + value_len(s.skip(1))
    }
}

/// The value that begins a text: what is quoted, or what stands up to the comma
/// or the bracket after it.
pub open spec fn value_of(s: Seq<char>) -> Option<Seq<char>> {
    if s.len() > 0 && s[0] == '"' {
        quoted(s.skip(1))
    } else {
        Some(trim(s.take(value_len(s) as int)))
    }
}

/// The value that follows the first place a key stands at.
pub open spec fn field_of(body: Seq<char>, key: Seq<char>) -> Option<Seq<char>> {
    match following(body, seq!['"'] + key + seq!['"', ':']) {
        Some(rest) => value_of(trim_start(rest)),
        None => None,
    }
}

fn hex_digit_of(c: char) -> (r: Option<u32>)
    ensures
        match r {
            Some(n) => hex_value(c) == Some(n as int) && n < 16,
            None => hex_value(c) is None,
        },
{
    let n: u32 = c as u32;
    if 48 <= n && n <= 57 {
        Some(n - 48)
    } else if 97 <= n && n <= 102 {
        Some(n - 87)
    } else if 65 <= n && n <= 70 {
        Some(n - 55)
    } else {
        None
    }
}

fn escaped_unit_in(v: &Vec<char>, at: usize) -> (r: Option<u32>)
    ensures
        match r {
            Some(n) => escaped_unit(v@, at as int) == Some(n as int) && n < 0x10000,
            None => escaped_unit(v@, at as int) is None,
        },
{
    if at > v.len() || v.len() - at < 6 {
        return None;
    }
    if v[at] != '\\' || v[at + 1] != 'u' {
        return None;
    }
    match (
        hex_digit_of(v[at + 2]),
        hex_digit_of(v[at + 3]),
        hex_digit_of(v[at + 4]),
        hex_digit_of(v[at + 5]),
    ) {
        (Some(a), Some(b), Some(c), Some(d)) => Some(a * 4096 + b * 256 + c * 16 + d),
        _ => None,
    }
}

fn lettered_as(c: char) -> (r: char)
    ensures
        r == lettered(c),
{
    if c == 'b' {
        '\u{8}'
    } else if c == 'f' {
        '\u{c}'
    } else if c == 'n' {
        '\n'
    } else if c == 'r' {
        '\r'
    } else if c == 't' {
        '\t'
    } else {
        c
    }
}

fn char_at(code: u32) -> (r: char)
    requires
        code < 0xd800 || 0xe000 <= code <= 0x10ffff,
    ensures
        r == code as char,
{
    match char::from_u32(code) {
        Some(c) => c,
        None => '\u{fffd}',
    }
}

/// A unit stands in the rest of a text where it stands in the whole.
proof fn lemma_unit_in_rest(s: Seq<char>, from: int, at: int)
    requires
        0 <= from <= s.len(),
        0 <= at,
    ensures
        escaped_unit(s.skip(from), at) == escaped_unit(s, from + at),
{
}

fn unescape_at(v: &Vec<char>, at: usize) -> (r: (char, usize))
    requires
        at + 2 <= v.len(),
        v@[at as int] == '\\',
    ensures
        r.0 == unescaped(v@.skip(at as int)).0,
        r.1 == unescaped(v@.skip(at as int)).1,
        2 <= r.1,
        at + r.1 <= v.len(),
{
    proof {
        lemma_unit_in_rest(v@, at as int, 0);
        lemma_unit_in_rest(v@, at as int, 6);
    }
    let unit: u32 = match escaped_unit_in(v, at) {
        Some(unit) => unit,
        None => return (lettered_as(v[at + 1]), 2),
    };
    if unit < 0xd800 || unit >= 0xe000 {
        return (char_at(unit), 6);
    }
    if unit < 0xdc00 {
        if let Some(next) = escaped_unit_in(v, at + 6) {
            if 0xdc00 <= next && next < 0xe000 {
                return (char_at(0x10000 + (unit - 0xd800) * 0x400 + (next - 0xdc00)), 12);
            }
        }
    }
    ('\u{fffd}', 6)
}

fn quoted_in(v: &Vec<char>, from: usize) -> (r: Option<Vec<char>>)
    requires
        from <= v.len(),
    ensures
        match r {
            Some(s) => quoted(v@.skip(from as int)) == Some(s@),
            None => quoted(v@.skip(from as int)) is None,
        },
{
    let mut out: Vec<char> = Vec::new();
    let mut i: usize = from;
    while i < v.len()
        invariant
            from <= i <= v.len(),
            match (quoted(v@.skip(i as int)), quoted(v@.skip(from as int))) {
                (Some(rest), Some(all)) => all == out@ + rest,
                (None, None) => true,
                _ => false,
            },
        decreases v.len() - i,
    {
        let ghost rest = v@.skip(i as int);
        let ghost before = out@;
        let c = v[i];
        if c == '"' {
            assert(quoted(rest) == Some(Seq::<char>::empty()));
            assert(out@ + Seq::<char>::empty() =~= out@);
            return Some(out);
        }
        if c == '\\' {
            if v.len() - i < 2 {
                return None;
            }
            let (meant, taken) = unescape_at(v, i);
            out.push(meant);
            proof {
                assert(rest.skip(taken as int) =~= v@.skip(i + taken));
                if let Some(tail) = quoted(v@.skip(i + taken)) {
                    assert(before + (seq![meant] + tail) =~= out@ + tail);
                }
            }
            i = i + taken;
        } else {
            out.push(c);
            proof {
                assert(rest.skip(1) =~= v@.skip(i + 1));
                if let Some(tail) = quoted(v@.skip(i + 1)) {
                    assert(before + (seq![c] + tail) =~= out@ + tail);
                }
            }
            i = i + 1;
        }
    }
    None
}

proof fn lemma_value_len(s: Seq<char>, k: nat)
    requires
        k <= s.len(),
        forall|i: int| 0 <= i < k ==> s[i] != ',' && s[i] != '}' && s[i] != ']',
        k < s.len() ==> s[k as int] == ',' || s[k as int] == '}' || s[k as int] == ']',
    ensures
        value_len(s) == k,
    decreases s.len(),
{
    if k > 0 {
        assert forall|i: int| 0 <= i < k - 1 implies s.skip(1)[i] != ',' && s.skip(1)[i] != '}'
            && s.skip(1)[i] != ']' by {
            assert(s.skip(1)[i] == s[i + 1]);
        }
        lemma_value_len(s.skip(1), (k - 1) as nat);
    }
}

/// The value of a field of an answer, as text.
pub fn field(body: &str, key: &str) -> (r: Option<String>)
    ensures
        text_of(r) == field_of(body@, key@),
{
    let body = chars_of(body);
    field_in(&body, key)
}

fn field_in(body: &Vec<char>, key: &str) -> (r: Option<String>)
    ensures
        text_of(r) == field_of(body@, key@),
{
    let mut needle: Vec<char> = Vec::new();
    needle.push('"');
    let mut name = chars_of(key);
    needle.append(&mut name);
    needle.push('"');
    needle.push(':');
    assert(needle@ =~= seq!['"'] + key@ + seq!['"', ':']);
    let rest = match after_first(body, &needle) {
        Some(rest) => trimmed_start(&rest),
        None => return None,
    };
    if rest.len() > 0 && rest[0] == '"' {
        match quoted_in(&rest, 1) {
            Some(s) => Some(string_of(&s)),
            None => None,
        }
    } else {
        let mut end: usize = 0;
        while end < rest.len() && rest[end] != ',' && rest[end] != '}' && rest[end] != ']'
            invariant
                end <= rest.len(),
                forall|i: int|
                    0 <= i < end ==> rest@[i] != ',' && rest@[i] != '}' && rest@[i] != ']',
            decreases rest.len() - end,
        {
            end = end + 1;
        }
        proof {
            lemma_value_len(rest@, end as nat);
        }
        let value = part(&rest, 0, end);
        assert(value@ =~= rest@.take(end as int));
        let value = trimmed(&value);
        Some(string_of(&value))
    }
}

/// The device an object tells of, where it has an address. It is named by its
/// address where it has no name.
pub open spec fn device_of(object: Seq<char>) -> Option<DeviceText> {
    let address = match field_of(object, "address"@) {
        Some(a) => Some(a),
        None => field_of(object, "addr"@),
    };
    match address {
        None => None,
        Some(address) => Some(
            DeviceText {
                address,
                name: match field_of(object, "name"@) {
                    Some(name) => name,
                    None => address,
                },
                protocol: match field_of(object, "protocol"@) {
                    Some(protocol) => protocol,
                    None => "ble"@,
                },
            },
        ),
    }
}

/// Where the list of devices begins in an answer.
pub open spec fn list_at(body: Seq<char>) -> Option<int> {
    match find(body, "\"devices\""@) {
        None => None,
        Some(i) => {
            let j = until(body.skip(i), '[');
            if i + j < body.len() {
                Some(i + j + 1)
            } else {
                None
            }
        },
    }
}

/// The text of that list, up to the bracket that closes it.
pub open spec fn list_text(body: Seq<char>, start: int) -> Seq<char> {
    let rest = body.skip(start);
    rest.take(until(rest, ']') as int)
}

/// The devices of the parts that the opening braces cut a list into.
pub open spec fn devices_of(chunks: Seq<Seq<char>>) -> Seq<DeviceText>
    decreases chunks.len(),
{
    if chunks.len() == 0 {
        seq![]
    } else {
        let chunk = chunks.last();
        match device_of(chunk.take(until(chunk, '}') as int)) {
            Some(device) => devices_of(chunks.drop_last()).push(device),
            None => devices_of(chunks.drop_last()),
        }
    }
}

/// The devices an answer lists; none where it has no list.
pub open spec fn listed(body: Seq<char>) -> Seq<DeviceText> {
    match list_at(body) {
        None => seq![],
        Some(start) => devices_of(split(list_text(body, start), '{').skip(1)),
    }
}

fn device_in(object: &Vec<char>) -> (r: Option<Device>)
    ensures
        match r {
            Some(d) => device_of(object@) == Some(d@),
            None => device_of(object@) is None,
        },
{
    let address = match field_in(object, "address") {
        Some(a) => a,
        None => match field_in(object, "addr") {
            Some(a) => a,
            None => return None,
        },
    };
    let name = match field_in(object, "name") {
        Some(name) => name,
        None => address.clone(),
    };
    let protocol = match field_in(object, "protocol") {
        Some(protocol) => protocol,
        None => "ble".to_owned(),
    };
    Some(Device { address, name, protocol })
}

pub fn parse_devices(body: &str) -> (r: Vec<Device>)
    ensures
        device_texts(r@) == listed(body@),
{
    let body = chars_of(body);
    let word = chars_of("\"devices\"");
    let mut out: Vec<Device> = Vec::new();
    assert(device_texts(out@) =~= seq![]);
    let from: usize = match place_of(&body, &word, 0) {
        Some(i) => i,
        None => return out,
    };
    proof {
        crate::text::lemma_find_from(body@, word@, 0);
    }
    let at: usize = next_at(&body, from, '[');
    if at == body.len() {
        return out;
    }
    let start: usize = at + 1;
    let end: usize = next_at(&body, start, ']');
    let text = part(&body, start, end);
    assert(text@ =~= list_text(body@, start as int));
    let chunks = split_of(&text, '{');
    let ghost all = split(text@, '{').skip(1);
    let mut i: usize = 1;
    assert(all.take(0) =~= seq![]);
    proof {
        assert(split(text@, '{').len() >= 1);
    }
    while i < chunks.len()
        invariant
            1 <= i <= chunks.len(),
            views(chunks@) == split(text@, '{'),
            all == split(text@, '{').skip(1),
            device_texts(out@) == devices_of(all.take(i - 1)),
        decreases chunks.len() - i,
    {
        let ghost done = all.take(i as int);
        let ghost before = out@;
        assert(done.drop_last() =~= all.take(i - 1));
        assert(done.last() == views(chunks@)[i as int]);
        assert(views(chunks@)[i as int] == chunks@[i as int]@);
        let chunk = &chunks[i];
        assert(chunk@.skip(0) =~= chunk@);
        let k: usize = next_at(chunk, 0, '}');
        let object = part(chunk, 0, k);
        assert(object@ =~= chunk@.take(k as int));
        if let Some(device) = device_in(&object) {
            out.push(device);
            assert(device_texts(out@) =~= device_texts(before).push(device@));
        }
        i = i + 1;
    }
    assert(all.take(i - 1) =~= all);
    out
}

/// Which keyboard an answer says holds the link: none where it names none.
pub open spec fn connected_in(body: Seq<char>) -> Option<Seq<char>> {
    match field_of(body, "connected_device"@) {
        Some(address) => if address.len() > 0 && address != "null"@ {
            Some(address)
        } else {
            None
        },
        None => None,
    }
}

pub fn connected(body: &str) -> (r: Option<String>)
    ensures
        text_of(r) == connected_in(body@),
{
    let body = chars_of(body);
    match field_in(&body, "connected_device") {
        Some(address) => {
            let chars = chars_of(address.as_str());
            if chars.len() > 0 && !is_text(&chars, "null") {
                Some(address)
            } else {
                None
            }
        },
        None => None,
    }
}

/// Whether a field of an answer is a text.
pub open spec fn says(body: Seq<char>, key: Seq<char>, value: Seq<char>) -> bool {
    field_of(body, key) == Some(value)
}

fn field_says(body: &Vec<char>, key: &str, value: &str) -> (r: bool)
    ensures
        r == says(body@, key@, value@),
{
    match field_in(body, key) {
        Some(s) => crate::text::same_text(s.as_str(), value),
        None => false,
    }
}

/// How the scan that an answer tells of stands: running while it says so, not
/// begun where it says there is none, and done otherwise.
pub fn scan_results(body: &str) -> (r: Scan)
    ensures
        match r {
            Scan::Running(list) => says(body@, "scanning"@, "true"@) && device_texts(list@) == listed(
                body@,
            ),
            Scan::Starting => !says(body@, "scanning"@, "true"@) && says(body@, "ok"@, "false"@),
            Scan::Done(list) => !says(body@, "scanning"@, "true"@) && !says(
                body@,
                "ok"@,
                "false"@,
            ) && device_texts(list@) == listed(body@),
        },
{
    let chars = chars_of(body);
    if field_says(&chars, "scanning", "true") {
        return Scan::Running(parse_devices(body));
    }
    if field_says(&chars, "ok", "false") {
        return Scan::Starting;
    }
    Scan::Done(parse_devices(body))
}

/// What an answer says of a pairing.
#[derive(Debug, Clone, Copy, PartialEq, Eq, Structural)]
pub enum Pairing {
    Pending,
    Paired,
    /// It reports no success; the devices it remembers settle it.
    Unsure,
}

pub open spec fn pairing_in(body: Seq<char>) -> Pairing {
    if says(body, "pairing"@, "true"@) {
        Pairing::Pending
    } else if says(body, "ok"@, "true"@) {
        Pairing::Paired
    } else {
        Pairing::Unsure
    }
}

pub fn pair_status(body: &str) -> (r: Pairing)
    ensures
        r == pairing_in(body@),
{
    let chars = chars_of(body);
    if field_says(&chars, "pairing", "true") {
        Pairing::Pending
    } else if field_says(&chars, "ok", "true") {
        Pairing::Paired
    } else {
        Pairing::Unsure
    }
}

/// Whether a pairing ended, and well; one that the daemon reports no success of did where
/// the device is known.
pub open spec fn paired_by(pairing: Pairing, known: Seq<DeviceText>, address: Seq<char>) -> Option<bool> {
    match pairing {
        Pairing::Pending => None,
        Pairing::Paired => Some(true),
        Pairing::Unsure => Some(has_address(known, address)),
    }
}

/// Whether a pairing is done, and whether it succeeded: nothing while it runs. A
/// device that is remembered is paired, whatever the report says.
pub fn pair_done(body: &str, known: &Vec<Device>, address: &str) -> (r: Option<bool>)
    ensures
        r == paired_by(pairing_in(body@), device_texts(known@), address@),
{
    match pair_status(body) {
        Pairing::Pending => None,
        Pairing::Paired => Some(true),
        Pairing::Unsure => Some(any_at(known, address)),
    }
}

// ---------------------------------------------------------------------------
// What the log says
// ---------------------------------------------------------------------------

/// Why a pairing failed, in words a writer can act on.
pub open spec fn reason(raw: Seq<char>) -> Seq<char> {
    let raw = trim(raw);
    if holds(raw, "CONFIRM_VALUE_FAILED"@) {
        "That code was not right — try again."@
    } else if holds(raw, "TIMEOUT"@) {
        "It stopped answering. Try again."@
    } else if holds(raw, "AUTHENTICATION_REQUIREMENTS"@) || holds(raw, "PAIRING_NOT_SUPPORTED"@) {
        "It refused to pair. Forget it on its other host first."@
    } else {
        raw
    }
}

/// What one line of the log prompts: whether it is a passkey, and the text.
pub open spec fn line_prompt(line: Seq<char>) -> Option<(bool, Seq<char>)> {
    let digits = match following(line, "Display PIN:"@) {
        Some(rest) => leading_digits(trim_start(rest)),
        None => seq![],
    };
    if digits.len() > 0 {
        Some((true, digits))
    } else {
        match following(line, "Pairing failed:"@) {
            Some(rest) => Some((false, reason(rest))),
            None => None,
        }
    }
}

/// What the last line that prompts anything prompts.
pub open spec fn last_prompt(list: Seq<Seq<char>>) -> Option<(bool, Seq<char>)>
    decreases list.len(),
{
    if list.len() == 0 {
        None
    } else {
        match line_prompt(list.last()) {
            Some(prompt) => Some(prompt),
            None => last_prompt(list.drop_last()),
        }
    }
}

/// What comes after a marker in a line.
pub fn after<'a>(line: &'a str, marker: &str) -> (r: Option<&'a str>)
    ensures
        match r {
            Some(rest) => following(line@, marker@) == Some(rest@),
            None => following(line@, marker@) is None,
        },
{
    let chars = chars_of(line);
    let word = chars_of(marker);
    match place_of(&chars, &word, 0) {
        Some(at) => {
            proof {
                crate::text::lemma_find_from(chars@, word@, 0);
                assert(find(chars@, word@) == Some(at as int));
                assert(crate::text::stands_at(chars@, word@, at as int));
            }
            let width: usize = word.len();
            let end: usize = chars.len();
            let rest = line.substring_char(at + width, end);
            assert(rest@ =~= line@.skip(at + width));
            Some(rest)
        },
        None => None,
    }
}

fn after_in(line: &Vec<char>, marker: &str) -> (r: Option<Vec<char>>)
    ensures
        match r {
            Some(rest) => following(line@, marker@) == Some(rest@),
            None => following(line@, marker@) is None,
        },
{
    let marker = chars_of(marker);
    after_first(line, &marker)
}

/// The daemon's words for a failure as the thing to do about it.
pub fn why(raw: &str) -> (r: String)
    ensures
        r@ == reason(raw@),
{
    let chars = chars_of(raw);
    why_in(&chars)
}

fn why_in(raw: &Vec<char>) -> (r: String)
    ensures
        r@ == reason(raw@),
{
    let raw = trimmed(raw);
    if contains(&raw, "CONFIRM_VALUE_FAILED") {
        "That code was not right — try again.".to_owned()
    } else if contains(&raw, "TIMEOUT") {
        "It stopped answering. Try again.".to_owned()
    } else if contains(&raw, "AUTHENTICATION_REQUIREMENTS") || contains(
        &raw,
        "PAIRING_NOT_SUPPORTED",
    ) {
        "It refused to pair. Forget it on its other host first.".to_owned()
    } else {
        string_of(&raw)
    }
}

pub open spec fn prompt_text(p: Prompt) -> (bool, Seq<char>) {
    match p {
        Prompt::Passkey(s) => (true, s@),
        Prompt::Failed(s) => (false, s@),
    }
}

pub fn prompt_in(log: &str) -> (r: Option<Prompt>)
    ensures
        match r {
            Some(p) => last_prompt(lines(log@)) == Some(prompt_text(p)),
            None => last_prompt(lines(log@)) is None,
        },
{
    let text = chars_of(log);
    let list = lines_of(&text);
    let ghost all = lines(log@);
    let mut i: usize = list.len();
    assert(all.take(i as int) =~= all);
    while i > 0
        invariant
            i <= list.len(),
            views(list@) == all,
            all == lines(log@),
            last_prompt(all) == last_prompt(all.take(i as int)),
        decreases i,
    {
        let line = &list[i - 1];
        assert(all.take(i as int).last() == views(list@)[i - 1]);
        assert(views(list@)[i - 1] == list@[i - 1]@);
        assert(all.take(i as int).drop_last() =~= all.take(i - 1));
        if let Some(rest) = after_in(line, "Display PIN:") {
            let rest = trimmed_start(&rest);
            let digits = digits_first(&rest);
            if digits.len() > 0 {
                return Some(Prompt::Passkey(string_of(&digits)));
            }
        }
        if let Some(rest) = after_in(line, "Pairing failed:") {
            return Some(Prompt::Failed(why_in(&rest)));
        }
        i = i - 1;
    }
    None
}

// ---------------------------------------------------------------------------
// The process
// ---------------------------------------------------------------------------

/// How long the daemon is given to answer before it is complained of, in
/// milliseconds.
pub const START_TIMEOUT: u64 = 25_000;

/// Whether a process is one of the daemon's: its command line names the place the
/// daemon is run from.
pub fn is_daemon(cmdline: &str, base: &str) -> (r: bool)
    ensures
        r == holds(cmdline@, base@),
{
    let line = chars_of(cmdline);
    contains(&line, base)
}

/// Whether a process is a daemon to be stopped: one that is not this process, run
/// from the same place or by hand.
pub fn is_stale(pid: u32, me: u32, cmdline: &str, base: &str) -> (r: bool)
    ensures
        r == (pid != me && (holds(cmdline@, base@) || holds(cmdline@, "main.py --daemon"@))),
{
    if pid == me {
        return false;
    }
    let line = chars_of(cmdline);
    contains(&line, base) || contains(&line, "main.py --daemon")
}

/// The process number that was written down, where it is one.
pub fn left_pid(text: &str) -> (r: Option<u32>)
    ensures
        match r {
            Some(n) => number(trim(text@), 10, u32::MAX as int) == Some(n as int),
            None => number(trim(text@), 10, u32::MAX as int) is None,
        },
{
    let chars = chars_of(text);
    let digits = trimmed(&chars);
    match number_of(&digits, 10, u32::MAX as u64) {
        Some(n) => Some(n as u32),
        None => None,
    }
}

/// What to do to bring the daemon up.
#[derive(Debug, Clone, Copy, PartialEq, Eq, Structural)]
pub enum Start {
    /// There is none to run.
    NoStack,
    /// Take up the one that was left running.
    Adopt,
    /// Stop the one that is running, and see whether it went.
    Replace,
    Spawn,
    /// One is holding the radio and will not stop.
    Stuck,
}

/// What became of asking whether the daemon came up.
#[derive(Debug, Clone, Copy, PartialEq, Eq, Structural)]
pub enum Poll {
    Nothing,
    /// It answered.
    Up,
    /// It has not answered in time.
    Late,
}

/// What to do as the editor closes.
#[derive(Debug, Clone, Copy, PartialEq, Eq, Structural)]
pub enum Stop {
    /// Leave the daemon that was spawned running.
    Leave,
    /// Leave the one that was taken up running.
    LeaveAdopted,
    /// Forget its process number, and end the one that was spawned.
    End,
    /// Forget its process number, and end any that is still up.
    EndAdopted,
}

/// How the daemon stands: whether it was spawned here, has answered or is known
/// to be up, has been complained of, and is to outlive the editor.
#[derive(Debug, Clone, Copy, PartialEq, Eq, Structural)]
pub struct Daemon {
    pub child: bool,
    pub keep_alive: bool,
    pub answered: bool,
    pub up: bool,
    pub complained: bool,
}

impl Daemon {
    pub fn new() -> (r: Daemon)
        ensures
            r == (Daemon {
                child: false,
                keep_alive: false,
                answered: true,
                up: false,
                complained: false,
            }),
    {
        Daemon { child: false, keep_alive: false, answered: true, up: false, complained: false }
    }

    pub open spec fn readiness(self) -> Ready {
        if self.up {
            Ready::Up
        } else if self.child {
            Ready::Starting
        } else {
            Ready::Unavailable
        }
    }

    pub fn ready(&self) -> (r: Ready)
        ensures
            r == self.readiness(),
    {
        if self.up {
            Ready::Up
        } else if self.child {
            Ready::Starting
        } else {
            Ready::Unavailable
        }
    }

    /// What starting takes.
    pub open spec fn starting(self, installed: bool, answers: bool, left: bool) -> Start {
        if !installed {
            Start::NoStack
        } else if answers && self.keep_alive && left {
            Start::Adopt
        } else if answers {
            Start::Replace
        } else {
            Start::Spawn
        }
    }

    /// What asking the daemon tells, so long after it was spawned.
    pub open spec fn told(self, answers: bool, waited: u64) -> Poll {
        if self.answered || !self.child {
            Poll::Nothing
        } else if answers {
            Poll::Up
        } else if !self.complained && waited > START_TIMEOUT {
            Poll::Late
        } else {
            Poll::Nothing
        }
    }

    /// The daemon once that was told.
    pub open spec fn knowing(self, poll: Poll) -> Daemon {
        match poll {
            Poll::Nothing => self,
            Poll::Up => Daemon { answered: true, up: true, ..self },
            Poll::Late => Daemon { complained: true, ..self },
        }
    }

    /// What closing the editor does to it.
    pub open spec fn stopping(self) -> Stop {
        match (self.keep_alive, self.child) {
            (true, true) => Stop::Leave,
            (true, false) => Stop::LeaveAdopted,
            (false, true) => Stop::End,
            (false, false) => Stop::EndAdopted,
        }
    }

    /// What starting takes, from whether the daemon is installed, whether one
    /// answers, and whether it is the one that was left running.
    pub fn start(&mut self, installed: bool, answers: bool, left: bool) -> (r: Start)
        ensures
            r == old(self).starting(installed, answers, left),
            *final(self) == (if r == Start::Adopt {
                Daemon { up: true, ..*old(self) }
            } else {
                *old(self)
            }),
    {
        if !installed {
            return Start::NoStack;
        }
        if answers && self.keep_alive && left {
            self.up = true;
            return Start::Adopt;
        }
        if answers {
            Start::Replace
        } else {
            Start::Spawn
        }
    }

    /// What is next once the running one was told to stop and was waited for.
    pub fn replaced(&self, answers: bool) -> (r: Start)
        ensures
            r == (if answers {
                Start::Stuck
            } else {
                Start::Spawn
            }),
    {
        if answers {
            Start::Stuck
        } else {
            Start::Spawn
        }
    }

    /// A daemon was spawned: it has yet to answer.
    pub fn spawned(&mut self)
        ensures
            *final(self) == (Daemon {
                child: true,
                answered: false,
                up: false,
                complained: false,
                ..*old(self)
            }),
    {
        self.child = true;
        self.answered = false;
        self.up = false;
        self.complained = false;
    }

    /// Whether the daemon is still to be asked if it is up.
    pub fn awaited(&self) -> (r: bool)
        ensures
            r == (!self.answered && self.child),
    {
        !self.answered && self.child
    }

    /// Take what asking gave, `waited` milliseconds after it was spawned. It is
    /// up once, and late once.
    pub fn poll_up(&mut self, answers: bool, waited: u64) -> (r: Poll)
        ensures
            r == old(self).told(answers, waited),
            *final(self) == old(self).knowing(r),
    {
        if self.answered || !self.child {
            return Poll::Nothing;
        }
        if answers {
            self.answered = true;
            self.up = true;
            return Poll::Up;
        }
        if !self.complained && waited > START_TIMEOUT {
            self.complained = true;
            return Poll::Late;
        }
        Poll::Nothing
    }

    /// What closing the editor does to the daemon.
    pub fn stop(&mut self) -> (r: Stop)
        ensures
            r == old(self).stopping(),
            *final(self) == (Daemon { child: false, ..*old(self) }),
    {
        let child = self.child;
        self.child = false;
        match (self.keep_alive, child) {
            (true, true) => Stop::Leave,
            (true, false) => Stop::LeaveAdopted,
            (false, true) => Stop::End,
            (false, false) => Stop::EndAdopted,
        }
    }
}

// ---------------------------------------------------------------------------
// What the daemon writes reads as what it wrote
// ---------------------------------------------------------------------------

/// A value that the daemon writes: a text, or a bare word or number.
pub enum Written {
    Text(Seq<char>),
    Bare(Seq<char>),
}

/// A character of a field's name, or of a bare value.
pub open spec fn named_with(c: char) -> bool {
    'a' <= c <= 'z' || 'A' <= c <= 'Z' || '0' <= c <= '9' || c == '_'
}

pub open spec fn is_name(s: Seq<char>) -> bool {
    s.len() > 0 && forall|i: int| 0 <= i < s.len() ==> named_with(#[trigger] s[i])
}

/// A field of an object: its name, and what it holds.
pub type Field = (Seq<char>, Written);

pub open spec fn well_named(field: Field) -> bool {
    &&& is_name(field.0)
    &&& field.1 matches Written::Bare(word) ==> is_name(word)
}

pub open spec fn all_named(fields: Seq<Field>) -> bool {
    forall|i: int| 0 <= i < fields.len() ==> well_named(#[trigger] fields[i])
}

/// What a value holds.
pub open spec fn held_by(value: Written) -> Seq<char> {
    match value {
        Written::Text(text) => text,
        Written::Bare(word) => word,
    }
}

/// How the daemon writes a value down.
pub open spec fn value_text(value: Written) -> Seq<char> {
    match value {
        Written::Text(text) => seq!['"'] + dumped(text) + seq!['"'],
        Written::Bare(word) => word,
    }
}

/// How it writes a field down.
pub open spec fn field_text(field: Field) -> Seq<char> {
    seq!['"'] + field.0 + seq!['"', ':', ' '] + value_text(field.1)
}

/// How it writes the fields of an object down, one after the other.
pub open spec fn object_text(fields: Seq<Field>) -> Seq<char>
    decreases fields.len(),
{
    if fields.len() == 0 {
        seq![]
    } else if fields.len() == 1 {
        field_text(fields[0])
    } else {
        field_text(fields[0]) + seq![',', ' '] + object_text(fields.skip(1))
    }
}

/// What the first field of a name holds.
pub open spec fn first_held(fields: Seq<Field>, key: Seq<char>) -> Option<Seq<char>>
    decreases fields.len(),
{
    if fields.len() == 0 {
        None
    } else if fields[0].0 == key {
        Some(held_by(fields[0].1))
    } else {
        first_held(fields.skip(1), key)
    }
}

/// The text that the name of a field is found by.
spec fn needle_of(key: Seq<char>) -> Seq<char> {
    seq!['"'] + key + seq!['"', ':']
}

/// In a text as the daemon writes it, a backslash stands before every quotation mark.
proof fn lemma_dumped_quotes(s: Seq<char>, i: int)
    requires
        0 <= i < dumped(s).len(),
        dumped(s)[i] == '"',
    ensures
        i > 0,
        dumped(s)[i - 1] == '\\',
    decreases s.len(),
{
    let first = dumped_char(s[0]);
    let rest = dumped(s.skip(1));
    lemma_char_quotes(s[0]);
    assert(dumped(s) == first + rest);
    if i >= first.len() {
        lemma_dumped_quotes(s.skip(1), i - first.len());
    }
}

proof fn lemma_char_quotes(c: char)
    ensures
        dumped_char(c).len() > 0,
        forall|i: int| 0 <= i < dumped_char(c).len() && #[trigger] dumped_char(c)[i] == '"' ==> i > 0
            && dumped_char(c)[i - 1] == '\\',
{
    let n = c as int;
    let d = dumped_char(c);
    if !(0x20 <= n < 0x7f) {
        assert forall|k: int| 0 <= k < 16 implies low_hex(k) != '"' by {}
        if n >= 0x10000 {
            let a = dumped_unit(0xd800 + (n - 0x10000) / 0x400);
            let b = dumped_unit(0xdc00 + (n - 0x10000) % 0x400);
            assert(d =~= a + b);
            assert(forall|i: int| 0 <= i < 6 ==> a[i] != '"' && b[i] != '"');
        }
    }
}

/// A name stands nowhere in a field of another name, nor across its end.
proof fn lemma_no_name_within(field: Field, rest: Seq<char>, key: Seq<char>, p: int)
    requires
        well_named(field),
        is_name(key),
        field.0 != key,
        rest.len() == 0 || rest == seq!['}'] || (rest.len() >= 2 && rest[0] == ',' && rest[1]
            == ' '),
        0 <= p < field_text(field).len() + (if rest.len() < 2 {
            0int
        } else {
            2int
        }),
    ensures
        !stands_at(field_text(field) + rest, needle_of(key), p),
{
    let k = field.0;
    let chunk = field_text(field);
    let all = chunk + rest;
    let needle = needle_of(key);
    let width = key.len() as int;
    if stands_at(all, needle, p) {
        let q = p + width + 1;
        let found = all.subrange(p, p + needle.len());
        assert(found == needle);
        assert(all[p] == needle[0]) by {
            assert(found[0] == all[p]);
        }
        assert(all[q] == '"') by {
            assert(found[width + 1] == all[q]);
            assert(needle[width + 1] == '"');
        }
        assert(all[q + 1] == ':') by {
            assert(found[width + 2] == all[q + 1]);
            assert(needle[width + 2] == ':');
        }
        assert forall|j: int| p < j < q implies named_with(#[trigger] all[j]) by {
            assert(found[j - p] == all[j]);
            assert(needle[j - p] == key[j - p - 1]);
        }
        assert(named_with(all[q - 1]));
        let start = k.len() + 4;
        assert(chunk[0] == '"');
        assert(forall|j: int| 1 <= j < k.len() + 1 ==> chunk[j] == k[j - 1]);
        assert(chunk[k.len() as int + 1] == '"');
        assert(chunk[k.len() as int + 2] == ':');
        assert(chunk[k.len() as int + 3] == ' ');
        assert(forall|j: int| 0 <= j < value_text(field.1).len() ==> chunk[start + j] == value_text(
            field.1,
        )[j]);
        assert(forall|j: int| 0 <= j < chunk.len() ==> all[j] == chunk[j]);
        assert(rest.len() > 1 ==> all[chunk.len() as int] == ',' && all[chunk.len() as int + 1]
            == ' ');
        assert(rest.len() == 1 ==> all[chunk.len() as int] == '}');
        if q >= start {
            // The mark is in the value, or past the field.
            if q >= chunk.len() {
                if p < chunk.len() < q {
                    assert(named_with(all[chunk.len() as int]));
                }
            } else {
                let j = q - start;
                match field.1 {
                    Written::Bare(word) => {
                        assert(named_with(word[j]));
                    },
                    Written::Text(text) => {
                        let value = value_text(field.1);
                        assert(value[0] == '"');
                        assert(forall|i: int| 0 <= i < dumped(text).len() ==> value[i + 1] == dumped(
                            text,
                        )[i]);
                        if j == 0 {
                            assert(all[q - 1] == ' ');
                        } else if j == dumped(text).len() + 1 {
                            assert(q + 1 == chunk.len());
                        } else {
                            lemma_dumped_quotes(text, j - 1);
                            assert(all[q - 1] == dumped(text)[j - 2]);
                        }
                    },
                }
            }
        } else if q == k.len() + 1 {
            if p > 0 {
                assert(all[p] == k[p - 1]);
                assert(named_with(k[p - 1]));
            } else {
                assert(key =~= k) by {
                    assert forall|j: int| 0 <= j < k.len() implies key[j] == k[j] by {
                        assert(found[j + 1] == all[j + 1]);
                        assert(needle[j + 1] == key[j]);
                    }
                }
            }
        } else if q <= k.len() {
            assert(all[q] == k[q - 1]);
            assert(named_with(k[q - 1]));
        } else {
            assert(q == k.len() + 2 || q == k.len() + 3);
        }
    }
}

/// Past a part that a word does not stand in, it is found where it is in the rest.
proof fn lemma_following_past(front: Seq<char>, rest: Seq<char>, word: Seq<char>)
    requires
        forall|p: int| 0 <= p < front.len() ==> !stands_at(front + rest, word, p),
    ensures
        following(front + rest, word) == following(rest, word),
{
    let all = front + rest;
    lemma_find_from(all, word, 0);
    lemma_find_from(rest, word, 0);
    assert forall|p: int| 0 <= p implies stands_at(rest, word, p) == stands_at(
        all,
        word,
        p + front.len(),
    ) by {
        if p + word.len() <= rest.len() {
            assert(rest.subrange(p, p + word.len()) =~= all.subrange(
                p + front.len(),
                p + front.len() + word.len(),
            ));
        }
    }
    match find(rest, word) {
        Some(at) => {
            assert(stands_at(all, word, at + front.len()));
            match find(all, word) {
                Some(b) => {
                    assert(b >= front.len());
                    assert(stands_at(rest, word, b - front.len()));
                    assert(b == at + front.len());
                    assert(all.skip(b + word.len()) =~= rest.skip(at + word.len()));
                },
                None => {},
            }
        },
        None => {
            match find(all, word) {
                Some(b) => {
                    assert(stands_at(rest, word, b - front.len()));
                },
                None => {},
            }
        },
    }
}

/// The field that an object begins with reads as what it holds.
proof fn lemma_first_field(field: Field, rest: Seq<char>)
    requires
        well_named(field),
        rest.len() == 0 || rest[0] == ',' || rest[0] == '}',
    ensures
        field_of(field_text(field) + rest, field.0) == Some(held_by(field.1)),
{
    let all = field_text(field) + rest;
    let needle = needle_of(field.0);
    let k = field.0.len() as int;
    assert(needle =~= seq!['"'] + field.0 + seq!['"', ':']);
    assert(all.subrange(0, needle.len() as int) =~= needle);
    assert(stands_at(all, needle, 0));
    assert(find(all, needle) == Some(0int));
    let after = all.skip(needle.len() as int);
    let value = value_text(field.1) + rest;
    assert(after =~= seq![' '] + value);
    assert(white(after[0]));
    assert(after.drop_first() =~= value);
    assert(trim_start(after) == trim_start(value));
    match field.1 {
        Written::Text(text) => {
            assert(value[0] == '"');
            assert(trim_start(value) == value);
            assert(value.skip(1) =~= dumped(text) + seq!['"'] + rest);
            a_quoted_text_comes_back(text, rest);
        },
        Written::Bare(word) => {
            assert(named_with(word[0]));
            assert(value[0] == word[0]);
            assert(!white(value[0]));
            assert(trim_start(value) == value);
            assert forall|i: int| 0 <= i < word.len() implies value[i] != ',' && value[i] != '}'
                && value[i] != ']' by {
                assert(value[i] == word[i]);
                assert(named_with(word[i]));
            }
            lemma_value_len(value, word.len());
            assert(value.take(word.len() as int) =~= word);
            assert(named_with(word.last()));
            assert(trim_start(word) == word);
            assert(trim_end(word) == word);
        },
    }
}

proof fn lemma_fields(fields: Seq<Field>, key: Seq<char>, end: Seq<char>)
    requires
        all_named(fields),
        is_name(key),
        end.len() == 0 || end == seq!['}'],
    ensures
        field_of(object_text(fields) + end, key) == first_held(fields, key),
    decreases fields.len(),
{
    let needle = needle_of(key);
    assert(needle =~= seq!['"'] + key + seq!['"', ':']);
    if fields.len() == 0 {
        assert(object_text(fields) + end =~= end);
        lemma_find_from(end, needle, 0);
    } else {
        let field = fields[0];
        let more = object_text(fields.skip(1)) + end;
        let rest = if fields.len() == 1 {
            end
        } else {
            seq![',', ' '] + more
        };
        assert(object_text(fields) + end =~= field_text(field) + rest);
        if field.0 == key {
            lemma_first_field(field, rest);
        } else {
            assert(all_named(fields.skip(1)));
            lemma_fields(fields.skip(1), key, end);
            let all = field_text(field) + rest;
            if fields.len() == 1 {
                assert forall|p: int| 0 <= p < field_text(field).len() implies !stands_at(
                    all,
                    needle,
                    p,
                ) by {
                    lemma_no_name_within(field, rest, key, p);
                }
                lemma_following_past(field_text(field), rest, needle);
                lemma_find_from(rest, needle, 0);
                assert(fields.skip(1).len() == 0);
            } else {
                let front = field_text(field) + seq![',', ' '];
                assert(all =~= front + more);
                assert forall|p: int| 0 <= p < front.len() implies !stands_at(front + more, needle, p) by {
                    lemma_no_name_within(field, rest, key, p);
                }
                lemma_following_past(front, more, needle);
            }
        }
    }
}

/// A whole answer: the fields, between braces.
pub open spec fn answer_text(fields: Seq<Field>) -> Seq<char> {
    seq!['{'] + object_text(fields) + seq!['}']
}

/// A field reads as what the daemon wrote into it, whatever the other fields hold, and
/// one that it did not write is not there; in an object and in a whole answer alike.
pub proof fn a_field_reads_as_it_was_written(fields: Seq<Field>, key: Seq<char>)
    requires
        all_named(fields),
        is_name(key),
    ensures
        field_of(object_text(fields), key) == first_held(fields, key),
        field_of(answer_text(fields), key) == first_held(fields, key),
{
    let needle = needle_of(key);
    let inside = object_text(fields) + seq!['}'];
    assert(needle =~= seq!['"'] + key + seq!['"', ':']);
    lemma_fields(fields, key, seq![]);
    assert(object_text(fields) + Seq::<char>::empty() =~= object_text(fields));
    lemma_fields(fields, key, seq!['}']);
    assert(answer_text(fields) =~= seq!['{'] + inside);
    assert forall|p: int| 0 <= p < 1 implies !stands_at(seq!['{'] + inside, needle, p) by {
        if stands_at(seq!['{'] + inside, needle, p) {
            assert((seq!['{'] + inside).subrange(0, needle.len() as int)[0] == '{');
        }
    }
    lemma_following_past(seq!['{'], inside, needle);
}

/// A device comes back as the daemon wrote it: the address, the name and the protocol
/// that its object gives, in whichever order and beside whichever other fields. Without
/// a name it goes by its address, without a protocol it is a low-energy one, and without
/// an address it is no device.
pub proof fn a_device_comes_back_as_it_was_written(fields: Seq<Field>, address: Seq<char>)
    requires
        all_named(fields),
        first_held(fields, "address"@) == Some(address) || (first_held(fields, "address"@) is None
            && first_held(fields, "addr"@) == Some(address)),
    ensures
        device_of(object_text(fields)) is Some,
        device_of(object_text(fields))->0.address == address,
        first_held(fields, "name"@) matches Some(name) ==> device_of(object_text(fields))->0.name == name,
        first_held(fields, "name"@) is None ==> device_of(object_text(fields))->0.name == address,
        first_held(fields, "protocol"@) matches Some(protocol) ==> device_of(
            object_text(fields),
        )->0.protocol == protocol,
        first_held(fields, "protocol"@) is None ==> device_of(object_text(fields))->0.protocol
            == "ble"@,
{
    lemma_keys_are_names();
    a_field_reads_as_it_was_written(fields, "address"@);
    a_field_reads_as_it_was_written(fields, "addr"@);
    a_field_reads_as_it_was_written(fields, "name"@);
    a_field_reads_as_it_was_written(fields, "protocol"@);
}

/// The object that writes three texts reads as the device of those three.
pub proof fn three_texts_are_a_device(address: Seq<char>, name: Seq<char>, protocol: Seq<char>)
    ensures
        device_of(
            object_text(
                seq![
                    ("address"@, Written::Text(address)),
                    ("name"@, Written::Text(name)),
                    ("protocol"@, Written::Text(protocol)),
                ],
            ),
        ) == Some(DeviceText { address, name, protocol }),
{
    let fields = seq![
        ("address"@, Written::Text(address)),
        ("name"@, Written::Text(name)),
        ("protocol"@, Written::Text(protocol)),
    ];
    lemma_keys_are_names();
    assert(all_named(fields));
    assert(fields.skip(1)[0] == fields[1]);
    assert(fields.skip(1).skip(1)[0] == fields[2]);
    assert(fields[0].0 == "address"@);
    reveal_strlit("address");
    reveal_strlit("name");
    reveal_strlit("protocol");
    assert("address"@.len() == 7 && "name"@.len() == 4 && "protocol"@.len() == 8);
    assert(first_held(fields, "address"@) == Some(address));
    assert(first_held(fields.skip(1), "name"@) == Some(name));
    assert(first_held(fields, "name"@) == Some(name));
    assert(first_held(fields.skip(1).skip(1), "protocol"@) == Some(protocol));
    assert(first_held(fields.skip(1), "protocol"@) == Some(protocol));
    assert(first_held(fields, "protocol"@) == Some(protocol));
    a_device_comes_back_as_it_was_written(fields, address);
}

proof fn lemma_keys_are_names()
    ensures
        is_name("address"@),
        is_name("addr"@),
        is_name("name"@),
        is_name("protocol"@),
        is_name("ok"@),
        is_name("scanning"@),
        is_name("pairing"@),
        is_name("connected_device"@),
{
    reveal_strlit("address");
    reveal_strlit("addr");
    reveal_strlit("name");
    reveal_strlit("protocol");
    reveal_strlit("ok");
    reveal_strlit("scanning");
    reveal_strlit("pairing");
    reveal_strlit("connected_device");
}

/// The keyboard that an answer says holds the link is the one that the daemon wrote,
/// unless it wrote none or `null`.
pub proof fn the_link_is_the_one_that_was_written(fields: Seq<Field>)
    requires
        all_named(fields),
    ensures
        match first_held(fields, "connected_device"@) {
            Some(address) => connected_in(answer_text(fields)) == (if address.len() == 0 || address
                == "null"@ {
                None
            } else {
                Some(address)
            }),
            None => connected_in(answer_text(fields)) is None,
        },
{
    lemma_keys_are_names();
    a_field_reads_as_it_was_written(fields, "connected_device"@);
}

/// A pairing runs as long as the daemon says that it does; then it succeeded where the
/// daemon says so, and otherwise what it remembers decides.
pub proof fn a_pairing_is_what_the_daemon_says(fields: Seq<Field>)
    requires
        all_named(fields),
    ensures
        ({
            let running = first_held(fields, "pairing"@) == Some("true"@);
            let well = first_held(fields, "ok"@) == Some("true"@);
            &&& pairing_in(answer_text(fields)) == Pairing::Pending <==> running
            &&& pairing_in(answer_text(fields)) == Pairing::Paired <==> !running && well
        }),
{
    lemma_keys_are_names();
    a_field_reads_as_it_was_written(fields, "pairing"@);
    a_field_reads_as_it_was_written(fields, "ok"@);
}

/// A field of an answer is said to be a value exactly where the daemon wrote it so.
pub proof fn an_answer_says_what_was_written(fields: Seq<Field>, key: Seq<char>, value: Seq<char>)
    requires
        all_named(fields),
        is_name(key),
    ensures
        says(answer_text(fields), key, value) <==> first_held(fields, key) == Some(value),
{
    a_field_reads_as_it_was_written(fields, key);
}

/// How the daemon writes a list of objects down.
pub open spec fn list_of(objects: Seq<Seq<char>>) -> Seq<char>
    decreases objects.len(),
{
    if objects.len() == 0 {
        seq![]
    } else if objects.len() == 1 {
        seq!['{'] + objects[0] + seq!['}']
    } else {
        seq!['{'] + objects[0] + seq!['}', ',', ' '] + list_of(objects.skip(1))
    }
}

/// A text with no brace and no closing bracket in it.
pub open spec fn unbraced(s: Seq<char>) -> bool {
    forall|i: int| 0 <= i < s.len() ==> #[trigger] s[i] != '{' && s[i] != '}' && s[i] != ']'
}

pub open spec fn all_unbraced(objects: Seq<Seq<char>>) -> bool {
    forall|i: int| 0 <= i < objects.len() ==> unbraced(#[trigger] objects[i])
}

/// The devices of some objects, those that are none left out.
pub open spec fn devices_among(objects: Seq<Seq<char>>) -> Seq<DeviceText>
    decreases objects.len(),
{
    if objects.len() == 0 {
        seq![]
    } else {
        match device_of(objects.last()) {
            Some(device) => devices_among(objects.drop_last()).push(device),
            None => devices_among(objects.drop_last()),
        }
    }
}

/// The pieces that the opening braces cut a list into, past the first.
proof fn lemma_pieces(objects: Seq<Seq<char>>)
    requires
        all_unbraced(objects),
        objects.len() > 0,
    ensures
        ({
            let text = list_of(objects);
            let pieces = split(text.skip(1), '{');
            &&& text.len() > 0 && text[0] == '{'
            &&& forall|i: int| 0 <= i < text.len() ==> #[trigger] text[i] != ']'
            &&& pieces.len() == objects.len()
            &&& forall|i: int|
                0 <= i < objects.len() ==> (#[trigger] pieces[i]).take(until(pieces[i], '}') as int)
                    == objects[i]
        }),
    decreases objects.len(),
{
    let first = objects[0];
    let text = list_of(objects);
    assert(unbraced(first));
    if objects.len() == 1 {
        let piece = first + seq!['}'];
        assert(text.skip(1) =~= piece);
        lemma_until(piece, '{', piece.len());
        assert(split(piece, '{') =~= seq![piece]);
        lemma_until(piece, '}', first.len());
        assert(piece.take(first.len() as int) =~= first);
    } else {
        let more = list_of(objects.skip(1));
        assert(all_unbraced(objects.skip(1))) by {
            assert forall|i: int| 0 <= i < objects.skip(1).len() implies unbraced(
                #[trigger] objects.skip(1)[i],
            ) by {
                assert(objects.skip(1)[i] == objects[i + 1]);
            }
        }
        lemma_pieces(objects.skip(1));
        let piece = first + seq!['}', ',', ' '];
        assert(text.skip(1) =~= piece + more);
        assert forall|i: int| 0 <= i < text.len() implies #[trigger] text[i] != ']' by {
            if i == 0 {
            } else if i <= piece.len() {
                assert(text[i] == piece[i - 1]);
            } else {
                assert(text[i] == more[i - 1 - piece.len()]);
            }
        }
        lemma_until(piece + more, '{', piece.len());
        assert((piece + more).take(piece.len() as int) =~= piece);
        assert((piece + more).skip(piece.len() as int + 1) =~= more.skip(1));
        let pieces = split(text.skip(1), '{');
        let rest = split(more.skip(1), '{');
        assert(pieces =~= seq![piece] + rest);
        lemma_until(piece, '}', first.len());
        assert(piece.take(first.len() as int) =~= first);
        assert forall|i: int| 0 <= i < objects.len() implies (#[trigger] pieces[i]).take(
            until(pieces[i], '}') as int,
        ) == objects[i] by {
            if i > 0 {
                assert(pieces[i] == rest[i - 1]);
                assert(objects.skip(1)[i - 1] == objects[i]);
            }
        }
    }
}

proof fn lemma_devices_of_pieces(pieces: Seq<Seq<char>>, objects: Seq<Seq<char>>)
    requires
        pieces.len() == objects.len(),
        forall|i: int|
            0 <= i < objects.len() ==> (#[trigger] pieces[i]).take(until(pieces[i], '}') as int)
                == objects[i],
    ensures
        devices_of(pieces) == devices_among(objects),
    decreases objects.len(),
{
    if objects.len() > 0 {
        assert(pieces.last() == pieces[objects.len() - 1]);
        assert forall|i: int| 0 <= i < objects.len() - 1 implies (#[trigger] pieces.drop_last()[i]).take(
            until(pieces.drop_last()[i], '}') as int,
        ) == objects.drop_last()[i] by {
            assert(pieces.drop_last()[i] == pieces[i]);
        }
        lemma_devices_of_pieces(pieces.drop_last(), objects.drop_last());
    }
}

/// Every device that the daemon lists comes back, in order, whatever stands around the
/// list, as long as no text of it holds a brace or a closing bracket.
pub proof fn every_listed_device_comes_back(
    front: Seq<char>,
    objects: Seq<Seq<char>>,
    more: Seq<char>,
)
    requires
        all_unbraced(objects),
        forall|p: int|
            0 <= p < front.len() ==> !stands_at(
                front + ("\"devices\": ["@ + list_of(objects) + seq![']'] + more),
                "\"devices\""@,
                p,
            ),
    ensures
        listed(front + ("\"devices\": ["@ + list_of(objects) + seq![']'] + more)) == devices_among(
            objects,
        ),
{
    reveal_strlit("\"devices\": [");
    reveal_strlit("\"devices\"");
    let word = "\"devices\""@;
    let opening = "\"devices\": ["@;
    let list = list_of(objects);
    let tail = opening + list + seq![']'] + more;
    let body = front + tail;
    let at = front.len() as int;
    assert(body.subrange(at, at + word.len()) =~= word) by {
        assert forall|i: int| 0 <= i < word.len() implies body[at + i] == word[i] by {
            assert(body[at + i] == tail[i]);
            assert(tail[i] == opening[i]);
        }
    }
    assert(stands_at(body, word, at));
    lemma_find_from(body, word, 0);
    assert(find(body, word) == Some(at));
    assert(body.skip(at) =~= tail);
    assert(opening.len() == 12);
    assert forall|i: int| 0 <= i < 11 implies tail[i] != '[' by {
        assert(tail[i] == opening[i]);
    }
    assert(tail[11] == opening[11]);
    lemma_until(tail, '[', 11);
    assert(list_at(body) == Some(at + 12));
    let rest = body.skip(at + 12);
    assert(rest =~= list + seq![']'] + more);
    if objects.len() > 0 {
        lemma_pieces(objects);
    }
    assert forall|i: int| 0 <= i < list.len() implies rest[i] != ']' by {
        assert(rest[i] == list[i]);
    }
    lemma_until(rest, ']', list.len());
    assert(rest.take(list.len() as int) =~= list);
    if objects.len() == 0 {
        assert(split(list, '{') =~= seq![list]);
        assert(split(list, '{').skip(1) =~= seq![]);
    } else {
        lemma_until(list, '{', 0);
        assert(split(list, '{') =~= seq![list.take(0)] + split(list.skip(1), '{'));
        assert(split(list, '{').skip(1) =~= split(list.skip(1), '{'));
        lemma_devices_of_pieces(split(list.skip(1), '{'), objects);
    }
}

/// The last line of the log that prompts anything decides, and lines that prompt nothing
/// do not matter.
pub proof fn the_last_prompt_wins(before: Seq<Seq<char>>, line: Seq<char>)
    ensures
        line_prompt(line) is Some ==> last_prompt(before.push(line)) == line_prompt(line),
        line_prompt(line) is None ==> last_prompt(before.push(line)) == last_prompt(before),
{
    assert(before.push(line).drop_last() =~= before);
}

/// The digits of a code point are those of the number that they are read as, to the base of
/// sixteen and in capitals.
pub proof fn a_code_point_is_written_in_sixteens(n: nat, max: int)
    requires
        n <= max,
    ensures
        number(hex(n as int), 16, max) == Some(n as int),
        hex(n as int).len() > 0,
        forall|i: int| 0 <= i < hex(n as int).len() ==> is_hex_capital(#[trigger] hex(n as int)[i]),
        16 <= n ==> hex(n as int).len() >= 2,
        16 <= n < 256 ==> hex(n as int).len() == 2,
        n < 16 ==> hex(n as int).len() == 1,
{
    lemma_hex_digits(n);
    let s = hex(n as int);
    assert(is_hex_capital(s[0]));
}

/// A digit to the base of sixteen, in capitals.
pub open spec fn is_hex_capital(c: char) -> bool {
    '0' <= c <= '9' || 'A' <= c <= 'F'
}

proof fn lemma_hex_digits(n: nat)
    ensures
        digits_value(hex(n as int), 16) == Some(n as int),
        hex(n as int).len() > 0,
        forall|i: int| 0 <= i < hex(n as int).len() ==> is_hex_capital(#[trigger] hex(n as int)[i]),
        16 <= n ==> hex(n as int).len() >= 2,
        16 <= n < 256 ==> hex(n as int).len() == 2,
        n < 16 ==> hex(n as int).len() == 1,
    decreases n,
{
    let s = hex(n as int);
    if n < 16 {
        assert(s.drop_last() =~= Seq::<char>::empty());
        assert(digits_value(s.drop_last(), 16) == Some(0int));
        assert(s.last() == hex_digit(n as int));
    } else {
        lemma_hex_digits(n / 16);
        let before = hex((n / 16) as int);
        assert(s =~= before.push(hex_digit((n % 16) as int)));
        assert(s.drop_last() =~= before);
        assert(s.last() == hex_digit((n % 16) as int));
        assert forall|i: int| 0 <= i < s.len() implies is_hex_capital(#[trigger] s[i]) by {
            if i < before.len() {
                assert(s[i] == before[i]);
            }
        }
    }
}

/// What a request carries as it is: the letters, the digits and five marks. A blank becomes a
/// plus, and any other character a percent sign with its code point behind it.
pub proof fn what_a_request_carries(i: int, c: char, a: Seq<char>, b: Seq<char>)
    requires
        0 <= i < 67,
    ensures
        ({
            let plain =
                "abcdefghijklmnopqrstuvwxyzABCDEFGHIJKLMNOPQRSTUVWXYZ0123456789-_.:/"@[i];
            escaped_char(plain) == seq![plain]
        }),
        escaped_char(' ') == seq!['+'],
        !stands(c) && c != ' ' ==> {
            &&& escaped_char(c).len() >= 3
            &&& escaped_char(c)[0] == '%'
            &&& number(escaped_char(c).skip(1), 16, u32::MAX as int) == Some(c as int)
            &&& (c as int) < 256 ==> escaped_char(c).len() == 3
        },
        !stands('%') && !stands('+') && !stands('&') && !stands('=') && !stands('?') && !stands('#')
            && !stands('\r') && !stands('\n') && !stands('"'),
        escaped(a + b) == escaped(a) + escaped(b),
        escaped(seq![c]) == escaped_char(c),
    decreases b.len(),
{
    reveal_strlit("abcdefghijklmnopqrstuvwxyzABCDEFGHIJKLMNOPQRSTUVWXYZ0123456789-_.:/");
    let n = c as nat;
    a_code_point_is_written_in_sixteens(n, u32::MAX as int);
    lemma_hex_digits(n);
    if !stands(c) && c != ' ' {
        let rest = escaped_char(c).skip(1);
        if n < 16 {
            assert(rest =~= seq!['0'] + hex(n as int));
            let nought = seq!['0'];
            assert(nought.drop_last() =~= Seq::<char>::empty());
            assert(digits_value(nought.drop_last(), 16) == Some(0int));
            assert(nought.last() == '0');
            assert(digits_value(nought, 16) == Some(0int));
            a_digit_is_worth_its_place(nought, hex(n as int), 16);
            assert(0 * raised(16, hex(n as int).len()) == 0) by (nonlinear_arith);
            assert(rest[0] == '0');
        } else {
            assert(rest =~= hex(n as int));
        }
    }
    let one = seq![c];
    assert(one.drop_last() =~= Seq::<char>::empty());
    assert(escaped(one.drop_last()) =~= Seq::<char>::empty());
    assert(one.last() == c);
    assert(escaped(one) =~= escaped_char(c));
    if b.len() == 0 {
        assert(a + b =~= a);
        assert(escaped(a) + escaped(b) =~= escaped(a));
    } else {
        what_a_request_carries(i, c, a, b.drop_last());
        assert((a + b).drop_last() =~= a + b.drop_last());
        assert((a + b).last() == b.last());
        assert(escaped(a + b) =~= escaped(a) + escaped(b));
    }
}

/// A request names the device by its address first, then how it is spoken to, and where it is
/// to be paired its name; and each kind of request is its own.
pub proof fn a_request_names_the_device(device: DeviceText)
    ensures
        ({
            let address = escaped(device.address);
            let protocol = escaped(device.protocol);
            let pair = asks_to_pair(device);
            let drop = asks_to_drop(device);
            let forget = asks_to_forget(device.address);
            &&& pair.take(11) == "/pair?addr="@
            &&& pair.subrange(11, 11 + address.len() as int) == address
            &&& pair.subrange(
                21 + address.len() as int,
                21 + address.len() as int + protocol.len(),
            ) == protocol
            &&& pair.skip(27 + address.len() as int + protocol.len()) == escaped(device.name)
            &&& drop.take(17) == "/disconnect?addr="@
            &&& drop.subrange(17, 17 + address.len() as int) == address
            &&& drop.skip(27 + address.len() as int) == protocol
            &&& forget.take(13) == "/remove?addr="@
            &&& forget.skip(13) == address
            &&& pair[1] == 'p' && drop[1] == 'd' && forget[1] == 'r'
        }),
{
    reveal_strlit("/pair?addr=");
    reveal_strlit("/disconnect?addr=");
    reveal_strlit("/remove?addr=");
    reveal_strlit("&protocol=");
    reveal_strlit("&name=");
    let address = escaped(device.address);
    let protocol = escaped(device.protocol);
    let pair = asks_to_pair(device);
    let drop = asks_to_drop(device);
    let forget = asks_to_forget(device.address);
    assert(pair.take(11) =~= "/pair?addr="@);
    assert(pair.subrange(11, 11 + address.len() as int) =~= address);
    assert(pair.subrange(21 + address.len() as int, 21 + address.len() as int + protocol.len())
        =~= protocol);
    assert(pair.skip(27 + address.len() as int + protocol.len()) =~= escaped(device.name));
    assert(drop.take(17) =~= "/disconnect?addr="@);
    assert(drop.subrange(17, 17 + address.len() as int) =~= address);
    assert(drop.skip(27 + address.len() as int) =~= protocol);
    assert(forget.take(13) =~= "/remove?addr="@);
    assert(forget.skip(13) =~= address);
}

/// What follows the empty line after the head of an answer is its body, whole.
pub proof fn the_body_follows_the_head(head: Seq<char>, body: Seq<char>)
    requires
        forall|p: int|
            0 <= p < head.len() ==> !stands_at(
                head + seq!['\r', '\n', '\r', '\n'] + body,
                seq!['\r', '\n', '\r', '\n'],
                p,
            ),
    ensures
        body_of(head + seq!['\r', '\n', '\r', '\n'] + body) == Some(body),
{
    what_follows_a_word(head, seq!['\r', '\n', '\r', '\n'], body);
}

/// The code to be typed is the digits that the daemon shows, and a pairing that failed is
/// told with its reason; a line that says neither prompts nothing.
pub proof fn the_code_is_the_digits_that_were_shown(
    front: Seq<char>,
    digits: Seq<char>,
    rest: Seq<char>,
    line: Seq<char>,
)
    requires
        digits.len() > 0,
        forall|i: int| 0 <= i < digits.len() ==> is_digit(#[trigger] digits[i]),
        rest.len() > 0 ==> !is_digit(rest[0]),
        forall|p: int|
            0 <= p < front.len() ==> !stands_at(
                front + ("Display PIN:"@ + seq![' '] + digits + rest),
                "Display PIN:"@,
                p,
            ),
    ensures
        line_prompt(front + ("Display PIN:"@ + seq![' '] + digits + rest)) == Some((true, digits)),
        !holds(line, "Display PIN:"@) && !holds(line, "Pairing failed:"@) ==> line_prompt(line) is None,
        line_prompt(line) matches Some((code, text)) ==> (code ==> holds(line, "Display PIN:"@)) && (!code
            ==> holds(line, "Pairing failed:"@)),
{
    let word = "Display PIN:"@;
    let tail = word + seq![' '] + digits + rest;
    let said = front + tail;
    let at = front.len() as int;
    assert(said.subrange(at, at + word.len()) =~= word);
    assert(stands_at(said, word, at));
    lemma_find_from(said, word, 0);
    assert(find(said, word) == Some(at));
    let after = said.skip(at + word.len());
    assert(after =~= seq![' '] + digits + rest);
    assert(after.drop_first() =~= digits + rest);
    assert((digits + rest)[0] == digits[0]);
    assert(is_digit(digits[0]));
    assert(!white(digits[0]));
    assert(trim_start(digits + rest) == digits + rest);
    assert(white(' '));
    assert(trim_start(after) == trim_start(after.drop_first()));
    the_leading_digits_end_at_another_character(digits, rest);
}

/// One keyboard is one whichever way its address is written: with capitals or without, and
/// with what follows a slash or without.
pub proof fn an_address_is_one_however_it_is_written(
    address: Seq<char>,
    kind: Seq<char>,
    other: Seq<char>,
)
    requires
        forall|i: int| 0 <= i < address.len() ==> #[trigger] address[i] != '/',
        forall|i: int| 0 <= i < other.len() ==> #[trigger] other[i] != '/',
    ensures
        bare_of(address + seq!['/'] + kind) == address,
        bare_of(address) == address,
        same_device(address + seq!['/'] + kind, address),
        same_device(address, other) <==> lower(address) == lower(other),
{
    let whole = address + seq!['/'] + kind;
    lemma_until(whole, '/', address.len());
    assert(whole.take(address.len() as int) =~= address);
    lemma_until(address, '/', address.len());
    assert(address.take(address.len() as int) =~= address);
    lemma_until(other, '/', other.len());
    assert(other.take(other.len() as int) =~= other);
    if lower(address) == lower(other) {
        assert(lower(address).len() == lower(other).len());
        assert forall|i: int| 0 <= i < address.len() implies lowered(#[trigger] address[i]) == lowered(
            other[i],
        ) by {
            assert(lower(address)[i] == lower(other)[i]);
        }
    }
    if same_device(address, other) {
        assert(lower(address) =~= lower(other));
    }
}

/// A daemon that was spawned is awaited until it answers; then it is up and is told so once.
/// One that is late is complained of once, after twenty-five seconds, and may still answer.
pub proof fn a_daemon_is_told_of_once(daemon: Daemon, answers: bool, waited: u64, later: u64)
    requires
        daemon.child,
        !daemon.answered,
        !daemon.complained,
        !daemon.up,
        later >= waited,
    ensures
        daemon.told(true, waited) == Poll::Up,
        daemon.knowing(Poll::Up).readiness() == Ready::Up,
        daemon.knowing(Poll::Up).told(answers, later) == Poll::Nothing,
        waited <= 25000 ==> daemon.told(false, waited) == Poll::Nothing,
        waited > 25000 ==> daemon.told(false, waited) == Poll::Late,
        daemon.knowing(Poll::Late).told(false, later) == Poll::Nothing,
        daemon.knowing(Poll::Late).told(true, later) == Poll::Up,
        daemon.knowing(Poll::Late).readiness() == Ready::Starting,
        daemon.knowing(Poll::Nothing) == daemon,
        daemon.readiness() == Ready::Starting,
        (Daemon { child: false, ..daemon }).readiness() == Ready::Unavailable,
        (Daemon { child: false, ..daemon }).told(answers, waited) == Poll::Nothing,
{
}

/// A daemon that answers is taken up only where it was left running to be taken up, and is
/// replaced otherwise; nothing is started where none is installed.
pub proof fn when_a_daemon_is_taken_up(daemon: Daemon, answers: bool, left: bool)
    ensures
        daemon.starting(false, answers, left) == Start::NoStack,
        daemon.starting(true, false, left) == Start::Spawn,
        daemon.starting(true, true, left) == Start::Adopt <==> daemon.keep_alive && left,
        daemon.starting(true, true, left) == Start::Replace <==> !(daemon.keep_alive && left),
{
}

/// Closing the editor leaves the daemon running exactly where it is to be kept, and one that
/// it did not spawn is told apart from its own.
pub proof fn a_daemon_is_left_where_it_is_kept(daemon: Daemon)
    ensures
        daemon.keep_alive <==> daemon.stopping() == Stop::Leave || daemon.stopping()
            == Stop::LeaveAdopted,
        daemon.child <==> daemon.stopping() == Stop::Leave || daemon.stopping() == Stop::End,
{
}

/// A pairing goes on as long as it is pending, and failed only where the daemon neither
/// reports success nor remembers the device.
pub proof fn a_pairing_fails_where_the_device_is_unknown(
    pairing: Pairing,
    known: Seq<DeviceText>,
    address: Seq<char>,
)
    ensures
        paired_by(pairing, known, address) is None <==> pairing == Pairing::Pending,
        paired_by(pairing, known, address) == Some(false) <==> pairing == Pairing::Unsure
            && forall|i: int|
            0 <= i < known.len() ==> !same_device((#[trigger] known[i]).address, address),
{
}

} // verus!
