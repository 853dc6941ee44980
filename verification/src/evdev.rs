//! The kernel's input events: taking them out of the bytes of a device, and
//! telling the devices apart by what they say they can report.

use vstd::prelude::*;

use crate::keymap::code;
use crate::text::{
    a_prefix_is_stripped, after_prefix, chars_of, lines, lines_of, number, number_of, stands_at,
    starts_at, starts_with, string_of, strip_prefix, trim, trimmed, views, white,
    white_space_parts_words, word_len, words, words_of,
};

verus! {

/// `u16::from_ne_bytes` of std: two bytes in the machine's own order, which is
/// one of the two orders there are.
#[verifier::external_body]
fn native16(first: u8, second: u8) -> (r: u16)
    ensures
        r == first as int + 256 * (second as int) || r == second as int + 256 * (first as int),
{
    u16::from_ne_bytes([first, second])
}

pub const EV_SYN: u16 = 0;

pub const EV_KEY: u16 = 1;

pub const EV_ABS: u16 = 3;

/// The bits that say a device reports keys, and that it reports positions.
pub const EV_KEY_BIT: u32 = 2;

pub const EV_ABS_BIT: u32 = 8;

pub const ABS_X: u16 = 0x00;

pub const ABS_Y: u16 = 0x01;

pub const ABS_Z: u16 = 0x02;

pub const ABS_TILT: u16 = 0x18;

pub const ABS_MT_TRACKING_ID: u16 = 0x39;

/// How many bytes the time of an event takes: two words of the machine.
pub const TIME_BYTES: usize = 2 * (usize::BITS as usize / 8);

/// How many bytes an event takes.
pub const EVENT_BYTES: usize = TIME_BYTES + 8;

/// A key that went down, was held or came up.
#[derive(Debug, Clone, Copy, PartialEq, Eq, Structural)]
pub struct KeyEvent {
    pub code: u16,
    pub pressed: bool,
    pub repeat: bool,
}

// ---------------------------------------------------------------------------
// Bytes
// ---------------------------------------------------------------------------

/// The number that two bytes are, the low one first or last.
pub open spec fn word16(s: Seq<u8>, at: int, little: bool) -> int {
    if little {
        s[at] as int + 256 * (s[at + 1] as int)
    } else {
        s[at + 1] as int + 256 * (s[at] as int)
    }
}

/// The number that four bytes are, in either order, with the top bit as a sign.
pub open spec fn signed32(s: Seq<u8>, at: int, little: bool) -> int {
    let n = if little {
        word16(s, at, true) + 65536 * word16(s, at + 2, true)
    } else {
        word16(s, at + 2, false) + 65536 * word16(s, at, false)
    };
    if n < 0x8000_0000 {
        n
    } else {
        n - 0x1_0000_0000
    }
}

/// The kind, code and value of the event that some bytes begin with; nothing
/// where they are too few.
pub open spec fn raw_of(s: Seq<u8>, little: bool) -> Option<(u16, u16, i32)> {
    if s.len() < EVENT_BYTES {
        None
    } else {
        Some(
            (
                word16(s, TIME_BYTES as int, little) as u16,
                word16(s, TIME_BYTES + 2, little) as u16,
                signed32(s, TIME_BYTES + 4, little) as i32,
            ),
        )
    }
}

/// What an event says of a key, where it is of the kind that speaks of keys.
pub open spec fn key_of(raw: (u16, u16, i32)) -> Option<KeyEvent> {
    if raw.0 != EV_KEY {
        None
    } else {
        Some(KeyEvent { code: raw.1, pressed: raw.2 != 0, repeat: raw.2 == 2 })
    }
}

/// Whether this machine puts the low byte first.
fn low_byte_first() -> bool {
    native16(1, 0) == 1
}

fn join16(first: u8, second: u8, little: bool) -> (r: u16)
    ensures
        little ==> r == first as int + 256 * (second as int),
        !little ==> r == second as int + 256 * (first as int),
{
    if little {
        first as u16 + 256 * (second as u16)
    } else {
        second as u16 + 256 * (first as u16)
    }
}

/// The event that some bytes begin with, read in the order given.
pub fn decode_in(buf: &[u8], little: bool) -> (r: Option<(u16, u16, i32)>)
    ensures
        r == raw_of(buf@, little),
{
    if buf.len() < EVENT_BYTES {
        return None;
    }
    let t: usize = TIME_BYTES;
    let kind: u16 = join16(buf[t], buf[t + 1], little);
    let code: u16 = join16(buf[t + 2], buf[t + 3], little);
    let a: u16 = join16(buf[t + 4], buf[t + 5], little);
    let b: u16 = join16(buf[t + 6], buf[t + 7], little);
    let n: i64 = if little {
        a as i64 + 65536 * (b as i64)
    } else {
        b as i64 + 65536 * (a as i64)
    };
    let value: i32 = if n < 0x8000_0000 {
        n as i32
    } else {
        (n - 0x1_0000_0000) as i32
    };
    Some((kind, code, value))
}

/// The event that some bytes begin with, read in this machine's order.
pub fn decode_raw(buf: &[u8]) -> (r: Option<(u16, u16, i32)>)
    ensures
        r == raw_of(buf@, true) || r == raw_of(buf@, false),
        r is Some <==> buf@.len() >= EVENT_BYTES,
{
    decode_in(buf, low_byte_first())
}

/// The key event that some bytes begin with.
pub fn decode(buf: &[u8]) -> (r: Option<KeyEvent>)
    ensures
        buf@.len() < EVENT_BYTES ==> r is None,
        buf@.len() >= EVENT_BYTES ==> r == key_of(raw_of(buf@, true)->0) || r == key_of(
            raw_of(buf@, false)->0,
        ),
{
    match decode_raw(buf) {
        None => None,
        Some(raw) => key_in(raw),
    }
}

/// What an event says of a key.
pub fn key_in(raw: (u16, u16, i32)) -> (r: Option<KeyEvent>)
    ensures
        r == key_of(raw),
{
    let (kind, code, value) = raw;
    if kind != EV_KEY {
        return None;
    }
    Some(KeyEvent { code, pressed: value != 0, repeat: value == 2 })
}

/// The whole events in some bytes, in order.
pub open spec fn events_of(s: Seq<u8>, little: bool) -> Seq<(u16, u16, i32)>
    decreases s.len(),
{
    if s.len() < EVENT_BYTES {
        seq![]
    } else {
        seq![raw_of(s, little)->0] + events_of(s.skip(EVENT_BYTES as int), little)
    }
}

/// The bytes after the last whole event.
pub open spec fn left_over(s: Seq<u8>) -> Seq<u8>
    decreases s.len(),
{
    if s.len() < EVENT_BYTES {
        s
    } else {
        left_over(s.skip(EVENT_BYTES as int))
    }
}

/// Take the bytes of a read after those left from the last, and give the whole
/// events in them. What is left of an event that was cut stays for the next
/// read.
pub fn take_events(pending: &mut Vec<u8>, more: &Vec<u8>, little: bool) -> (r: Vec<
    (u16, u16, i32),
>)
    ensures
        r@ == events_of(old(pending)@ + more@, little),
        final(pending)@ == left_over(old(pending)@ + more@),
{
    let mut all: Vec<u8> = Vec::new();
    let mut i: usize = 0;
    while i < pending.len()
        invariant
            i <= pending.len(),
            all@ == pending@.take(i as int),
        decreases pending.len() - i,
    {
        all.push(pending[i]);
        i = i + 1;
    }
    let mut k: usize = 0;
    while k < more.len()
        invariant
            k <= more.len(),
            all@ == pending@ + more@.take(k as int),
        decreases more.len() - k,
    {
        all.push(more[k]);
        assert(all@ =~= pending@ + more@.take(k + 1));
        k = k + 1;
    }
    assert(more@.take(k as int) =~= more@);
    let mut out: Vec<(u16, u16, i32)> = Vec::new();
    let mut at: usize = 0;
    assert(all@.skip(0) =~= all@);
    assert(out@ + events_of(all@, little) =~= events_of(all@, little));
    while all.len() - at >= EVENT_BYTES
        invariant
            at <= all.len(),
            out@ + events_of(all@.skip(at as int), little) == events_of(all@, little),
            left_over(all@.skip(at as int)) == left_over(all@),
        decreases all.len() - at,
    {
        let ghost before = out@;
        let ghost rest = all@.skip(at as int);
        let event = vstd::slice::slice_subrange(all.as_slice(), at, at + EVENT_BYTES);
        assert(event@ =~= rest.take(EVENT_BYTES as int));
        match decode_in(event, little) {
            Some(raw) => {
                assert(raw_of(rest.take(EVENT_BYTES as int), little) == raw_of(rest, little));
                out.push(raw);
                assert(rest.skip(EVENT_BYTES as int) =~= all@.skip(at + EVENT_BYTES));
                assert(out@ + events_of(all@.skip(at + EVENT_BYTES), little) =~= before + (seq![raw]
                    + events_of(all@.skip(at + EVENT_BYTES), little)));
            },
            None => {},
        }
        at = at + EVENT_BYTES;
    }
    let mut rest: Vec<u8> = Vec::new();
    let mut j: usize = at;
    while j < all.len()
        invariant
            at <= j <= all.len(),
            rest@ == all@.subrange(at as int, j as int),
        decreases all.len() - j,
    {
        rest.push(all[j]);
        j = j + 1;
    }
    assert(rest@ =~= all@.skip(at as int));
    assert(out@ + events_of(all@.skip(at as int), little) =~= out@);
    *pending = rest;
    out
}

/// However the bytes of a device are cut into reads, the events are the same:
/// two reads give what one read of both would.
pub proof fn a_read_can_be_cut_anywhere(first: Seq<u8>, second: Seq<u8>, little: bool)
    ensures
        events_of(first + second, little) == events_of(first, little) + events_of(
            left_over(first) + second,
            little,
        ),
        left_over(first + second) == left_over(left_over(first) + second),
    decreases first.len(),
{
    let all = first + second;
    if first.len() < EVENT_BYTES {
        assert(events_of(first, little) + events_of(all, little) =~= events_of(all, little));
    } else {
        let rest = first.skip(EVENT_BYTES as int);
        assert(all.skip(EVENT_BYTES as int) =~= rest + second);
        assert(raw_of(all, little) == raw_of(first, little));
        a_read_can_be_cut_anywhere(rest, second, little);
        assert(events_of(all, little) =~= events_of(first, little) + events_of(
            left_over(first) + second,
            little,
        ));
    }
}

/// Fewer bytes than an event takes are ever left.
pub proof fn less_than_an_event_is_left(s: Seq<u8>)
    ensures
        left_over(s).len() < EVENT_BYTES,
    decreases s.len(),
{
    if s.len() >= EVENT_BYTES {
        less_than_an_event_is_left(s.skip(EVENT_BYTES as int));
    }
}

/// The key events among some events, in order.
pub open spec fn keys_of(events: Seq<(u16, u16, i32)>) -> Seq<KeyEvent>
    decreases events.len(),
{
    if events.len() == 0 {
        seq![]
    } else {
        match key_of(events.last()) {
            Some(key) => keys_of(events.drop_last()).push(key),
            None => keys_of(events.drop_last()),
        }
    }
}

pub fn keys_in(events: &Vec<(u16, u16, i32)>) -> (r: Vec<KeyEvent>)
    ensures
        r@ == keys_of(events@),
{
    let mut out: Vec<KeyEvent> = Vec::new();
    let mut i: usize = 0;
    while i < events.len()
        invariant
            i <= events.len(),
            out@ == keys_of(events@.take(i as int)),
        decreases events.len() - i,
    {
        assert(events@.take(i + 1).drop_last() =~= events@.take(i as int));
        if let Some(key) = key_in(events[i]) {
            out.push(key);
        }
        i = i + 1;
    }
    assert(events@.take(i as int) =~= events@);
    out
}

/// One report of the accelerometer: three axes, and the position code.
#[derive(Debug, Clone, Copy, PartialEq, Eq, Structural)]
pub struct Sample {
    pub x: i32,
    pub y: i32,
    pub z: i32,
    pub tilt: i32,
}

impl Default for Sample {
    fn default() -> (r: Self)
        ensures
            r == (Sample { x: 0, y: 0, z: 0, tilt: 0 }),
    {
        Sample { x: 0, y: 0, z: 0, tilt: 0 }
    }
}

impl Sample {
    /// The report being built, after an event.
    pub open spec fn after(self, raw: (u16, u16, i32)) -> Sample {
        let (kind, code, value) = raw;
        if kind == EV_ABS && code == ABS_X {
            Sample { x: value, ..self }
        } else if kind == EV_ABS && code == ABS_Y {
            Sample { y: value, ..self }
        } else if kind == EV_ABS && code == ABS_Z {
            Sample { z: value, ..self }
        } else if kind == EV_ABS && code == ABS_TILT {
            Sample { tilt: value, ..self }
        } else {
            self
        }
    }

    /// The report being built, after some events.
    pub open spec fn after_all(self, events: Seq<(u16, u16, i32)>) -> Sample
        decreases events.len(),
    {
        if events.len() == 0 {
            self
        } else {
            self.after_all(events.drop_last()).after(events.last())
        }
    }

    /// The reports some events complete: what has been built at each one that
    /// ends a report.
    pub open spec fn completed(self, events: Seq<(u16, u16, i32)>) -> Seq<Sample>
        decreases events.len(),
    {
        if events.len() == 0 {
            seq![]
        } else if events.last().0 == EV_SYN {
            self.completed(events.drop_last()).push(self.after_all(events))
        } else {
            self.completed(events.drop_last())
        }
    }

    /// Build reports from events. A report holds what each axis last said.
    pub fn feed(&mut self, events: &Vec<(u16, u16, i32)>) -> (r: Vec<Sample>)
        ensures
            *final(self) == old(self).after_all(events@),
            r@ == old(self).completed(events@),
    {
        let mut out: Vec<Sample> = Vec::new();
        let mut i: usize = 0;
        while i < events.len()
            invariant
                i <= events.len(),
                *self == old(self).after_all(events@.take(i as int)),
                out@ == old(self).completed(events@.take(i as int)),
            decreases events.len() - i,
        {
            let (kind, code, value) = events[i];
            assert(events@.take(i + 1).drop_last() =~= events@.take(i as int));
            if kind == EV_ABS && code == ABS_X {
                self.x = value;
            } else if kind == EV_ABS && code == ABS_Y {
                self.y = value;
            } else if kind == EV_ABS && code == ABS_Z {
                self.z = value;
            } else if kind == EV_ABS && code == ABS_TILT {
                self.tilt = value;
            } else if kind == EV_SYN {
                out.push(*self);
            }
            i = i + 1;
        }
        assert(events@.take(i as int) =~= events@);
        out
    }
}

// ---------------------------------------------------------------------------
// Devices
// ---------------------------------------------------------------------------

/// Whether a bitmap, written as hexadecimal words with the lowest last, has a
/// bit set.
pub open spec fn has_bit(bitmap: Seq<char>, bit: u16) -> bool {
    let w = words(bitmap);
    let word = bit as int / 32;
    w.len() > word && match number(w[w.len() - 1 - word], 16, u32::MAX as int) {
        Some(n) => (n as u32) & (1u32 << ((bit % 32) as u32)) != 0,
        None => false,
    }
}

pub fn advertises(bitmap: &str, bit: u16) -> (r: bool)
    ensures
        r == has_bit(bitmap@, bit),
{
    let bitmap = chars_of(bitmap);
    let list = words_of(&bitmap);
    assert(views(list@) == words(bitmap@));
    let word: usize = bit as usize / 32;
    let shift: u32 = (bit % 32) as u32;
    if list.len() <= word {
        return false;
    }
    let at: usize = list.len() - 1 - word;
    assert(views(list@)[at as int] == list@[at as int]@);
    match number_of(&list[at], 16, u32::MAX as u64) {
        Some(n) => (n as u32) & (1u32 << shift) != 0,
        None => false,
    }
}

/// What the kernel says of one device: the event node that reports it, and what
/// it can report.
#[derive(Debug)]
pub struct Block {
    pub handler: Option<String>,
    pub ev: u32,
    pub keys: String,
    pub abs: String,
}

/// A block's parts as plain values.
pub type Device = (Option<Seq<char>>, u32, Seq<char>, Seq<char>);

/// A text that may not be there.
pub open spec fn text_of(s: Option<String>) -> Option<Seq<char>> {
    match s {
        Some(s) => Some(s@),
        None => None,
    }
}

impl View for Block {
    type V = Device;

    open spec fn view(&self) -> Device {
        (text_of(self.handler), self.ev, self.keys@, self.abs@)
    }
}

pub open spec fn no_device() -> Device {
    (None, 0, seq![], seq![])
}

/// The first word, from `from` on, that names an event node.
pub open spec fn event_node(list: Seq<Seq<char>>, from: int) -> Option<Seq<char>>
    decreases list.len() - from,
{
    if from < 0 || from >= list.len() {
        None
    } else if starts_with(list[from], "event"@) {
        Some(list[from])
    } else {
        event_node(list, from + 1)
    }
}

/// A device that is being read, after one line of it.
pub open spec fn after_line(device: Device, line: Seq<char>) -> Device {
    match strip_prefix(line, "H: Handlers="@) {
        Some(rest) => (event_node(words(rest), 0), device.1, device.2, device.3),
        None => match strip_prefix(line, "B: KEY="@) {
            Some(rest) => (device.0, device.1, rest, device.3),
            None => match strip_prefix(line, "B: ABS="@) {
                Some(rest) => (device.0, device.1, device.2, rest),
                None => match strip_prefix(line, "B: EV="@) {
                    Some(rest) => (
                        device.0,
                        match number(trim(rest), 16, u32::MAX as int) {
                            Some(n) => n as u32,
                            None => 0,
                        },
                        device.2,
                        device.3,
                    ),
                    None => if line.len() == 0 {
                        no_device()
                    } else {
                        device
                    },
                },
            },
        },
    }
}

/// The device being read after some lines.
pub open spec fn device_after(list: Seq<Seq<char>>) -> Device
    decreases list.len(),
{
    if list.len() == 0 {
        no_device()
    } else {
        after_line(device_after(list.drop_last()), list.last())
    }
}

/// The devices that some lines complete. An empty line ends one, and one with no
/// event node is passed over.
pub open spec fn devices_in(list: Seq<Seq<char>>) -> Seq<Device>
    decreases list.len(),
{
    if list.len() == 0 {
        seq![]
    } else {
        let before = device_after(list.drop_last());
        let done = devices_in(list.drop_last());
        if list.last().len() == 0 && before.0 is Some {
            done.push(before)
        } else {
            done
        }
    }
}

/// The devices a listing tells of: its end ends the last one.
pub open spec fn devices_of(raw: Seq<char>) -> Seq<Device> {
    devices_in(lines(raw).push(seq![]))
}

/// What is read of one device never reaches the next: past an empty line, lines tell
/// of what they tell of alone.
pub proof fn an_empty_line_keeps_devices_apart(before: Seq<Seq<char>>, after: Seq<Seq<char>>)
    ensures
        devices_in(before.push(seq![]) + after) == devices_in(before.push(seq![])) + devices_in(after),
        device_after(before.push(seq![]) + after) == device_after(after),
    decreases after.len(),
{
    let ended = before.push(seq![]);
    if after.len() == 0 {
        assert(ended + after =~= ended);
        assert(ended.drop_last() =~= before);
        lemma_prefixes(ended.last());
        assert(devices_in(ended) + devices_in(after) =~= devices_in(ended));
    } else {
        an_empty_line_keeps_devices_apart(before, after.drop_last());
        assert((ended + after).drop_last() =~= ended + after.drop_last());
        assert((ended + after).last() == after.last());
        let last = device_after(after.drop_last());
        if after.last().len() == 0 && last.0 is Some {
            assert(devices_in(ended) + devices_in(after.drop_last()).push(last) =~= (devices_in(ended)
                + devices_in(after.drop_last())).push(last));
        }
    }
}

/// The parts of a list of blocks.
pub open spec fn block_views(list: Seq<Block>) -> Seq<Device> {
    list.map_values(|b: Block| b@)
}

pub fn find_event(list: &Vec<Vec<char>>) -> (r: Option<String>)
    ensures
        text_of(r) == event_node(views(list@), 0),
{
    let word = chars_of("event");
    let mut i: usize = 0;
    while i < list.len()
        invariant
            i <= list.len(),
            word@ == "event"@,
            event_node(views(list@), 0) == event_node(views(list@), i as int),
        decreases list.len() - i,
    {
        assert(views(list@)[i as int] == list@[i as int]@);
        if starts_at(&list[i], &word, 0) {
            return Some(string_of(&list[i]));
        }
        i = i + 1;
    }
    None
}

fn empty_block() -> (r: Block)
    ensures
        r@ == no_device(),
{
    let r = Block { handler: None, ev: 0, keys: String::new(), abs: String::new() };
    assert(r.keys@ =~= seq![]);
    assert(r.abs@ =~= seq![]);
    r
}

/// The prefixes of a line exclude each other and are not empty.
proof fn lemma_prefixes(line: Seq<char>)
    ensures
        line.len() == 0 ==> strip_prefix(line, "H: Handlers="@) is None && strip_prefix(
            line,
            "B: KEY="@,
        ) is None && strip_prefix(line, "B: ABS="@) is None && strip_prefix(line, "B: EV="@) is None,
{
    reveal_strlit("H: Handlers=");
    reveal_strlit("B: KEY=");
    reveal_strlit("B: ABS=");
    reveal_strlit("B: EV=");
}

pub fn blocks(raw: &str) -> (r: Vec<Block>)
    ensures
        block_views(r@) == devices_of(raw@),
{
    let text = chars_of(raw);
    let mut list = lines_of(&text);
    let ghost body = views(list@);
    let none: Vec<char> = Vec::new();
    let ghost listed = list@;
    list.push(none);
    let ghost all = lines(raw@).push(seq![]);
    assert(views(list@) =~= all) by {
        assert(none@ =~= seq![]);
        assert(views(list@) =~= views(listed).push(none@));
    }
    let mut out: Vec<Block> = Vec::new();
    let mut current = empty_block();
    let mut i: usize = 0;
    assert(block_views(out@) =~= seq![]);
    while i < list.len()
        invariant
            i <= list.len(),
            views(list@) == all,
            current@ == device_after(all.take(i as int)),
            block_views(out@) == devices_in(all.take(i as int)),
        decreases list.len() - i,
    {
        let ghost done = all.take(i + 1);
        proof {
            assert(done.drop_last() =~= all.take(i as int));
            assert(done.last() == all[i as int]);
            assert(all[i as int] == list@[i as int]@);
            lemma_prefixes(all[i as int]);
        }
        let line = &list[i];
        if let Some(rest) = after_prefix(line, "H: Handlers=") {
            let parts = words_of(&rest);
            current.handler = find_event(&parts);
        } else if let Some(rest) = after_prefix(line, "B: KEY=") {
            current.keys = string_of(&rest);
        } else if let Some(rest) = after_prefix(line, "B: ABS=") {
            current.abs = string_of(&rest);
        } else if let Some(rest) = after_prefix(line, "B: EV=") {
            let digits = trimmed(&rest);
            current.ev = match number_of(&digits, 16, u32::MAX as u64) {
                Some(n) => n as u32,
                None => 0,
            };
        } else if line.len() == 0 {
            if current.handler.is_some() {
                let ghost before = out@;
                let ghost ended = current@;
                out.push(current);
                assert(block_views(out@) =~= block_views(before).push(ended));
            }
            current = empty_block();
        }
        i = i + 1;
    }
    assert(all.take(i as int) =~= all);
    out
}

/// The node of the first device, from `from` on, of which something holds.
pub open spec fn first_node(list: Seq<Device>, f: spec_fn(Device) -> bool, from: int) -> Option<
    Seq<char>,
>
    decreases list.len() - from,
{
    if from < 0 || from >= list.len() {
        None
    } else if f(list[from]) {
        list[from].0
    } else {
        first_node(list, f, from + 1)
    }
}

/// A keyboard is a device with a `Q` on it.
pub open spec fn is_keyboard(device: Device) -> bool {
    has_bit(device.2, code::Q)
}

/// A touchscreen is a device that follows fingers.
pub open spec fn is_touchscreen(device: Device) -> bool {
    has_bit(device.3, ABS_MT_TRACKING_ID)
}

/// An accelerometer reports three axes and no keys.
pub open spec fn is_accelerometer(device: Device) -> bool {
    &&& device.1 & EV_ABS_BIT != 0
    &&& device.1 & EV_KEY_BIT == 0
    &&& has_bit(device.3, ABS_X)
    &&& has_bit(device.3, ABS_Y)
    &&& has_bit(device.3, ABS_Z)
}

fn node_of(block: &Block) -> (r: Option<String>)
    ensures
        text_of(r) == block@.0,
{
    match &block.handler {
        Some(s) => Some(s.clone()),
        None => None,
    }
}

pub fn pick_keyboard(raw: &str) -> (r: Option<String>)
    ensures
        text_of(r) == first_node(devices_of(raw@), |d: Device| is_keyboard(d), 0),
{
    let list = blocks(raw);
    let ghost f = |d: Device| is_keyboard(d);
    let mut i: usize = 0;
    while i < list.len()
        invariant
            i <= list.len(),
            block_views(list@) == devices_of(raw@),
            f == (|d: Device| is_keyboard(d)),
            first_node(devices_of(raw@), f, 0) == first_node(devices_of(raw@), f, i as int),
        decreases list.len() - i,
    {
        assert(block_views(list@)[i as int] == list@[i as int]@);
        if advertises(list[i].keys.as_str(), code::Q) {
            return node_of(&list[i]);
        }
        i = i + 1;
    }
    None
}

pub fn pick_touchscreen(raw: &str) -> (r: Option<String>)
    ensures
        text_of(r) == first_node(devices_of(raw@), |d: Device| is_touchscreen(d), 0),
{
    let list = blocks(raw);
    let ghost f = |d: Device| is_touchscreen(d);
    let mut i: usize = 0;
    while i < list.len()
        invariant
            i <= list.len(),
            block_views(list@) == devices_of(raw@),
            f == (|d: Device| is_touchscreen(d)),
            first_node(devices_of(raw@), f, 0) == first_node(devices_of(raw@), f, i as int),
        decreases list.len() - i,
    {
        assert(block_views(list@)[i as int] == list@[i as int]@);
        if advertises(list[i].abs.as_str(), ABS_MT_TRACKING_ID) {
            return node_of(&list[i]);
        }
        i = i + 1;
    }
    None
}

pub fn pick_accelerometer(raw: &str) -> (r: Option<String>)
    ensures
        text_of(r) == first_node(devices_of(raw@), |d: Device| is_accelerometer(d), 0),
{
    let list = blocks(raw);
    let ghost f = |d: Device| is_accelerometer(d);
    let mut i: usize = 0;
    while i < list.len()
        invariant
            i <= list.len(),
            block_views(list@) == devices_of(raw@),
            f == (|d: Device| is_accelerometer(d)),
            first_node(devices_of(raw@), f, 0) == first_node(devices_of(raw@), f, i as int),
        decreases list.len() - i,
    {
        assert(block_views(list@)[i as int] == list@[i as int]@);
        let b = &list[i];
        if b.ev & EV_ABS_BIT != 0 && b.ev & EV_KEY_BIT == 0 && advertises(b.abs.as_str(), ABS_X)
            && advertises(b.abs.as_str(), ABS_Y) && advertises(b.abs.as_str(), ABS_Z) {
            return node_of(b);
        }
        i = i + 1;
    }
    None
}

/// Every device that was read has an event node.
pub proof fn every_device_has_a_node(list: Seq<Seq<char>>)
    ensures
        forall|i: int| 0 <= i < devices_in(list).len() ==> (#[trigger] devices_in(list)[i]).0 is Some,
    decreases list.len(),
{
    if list.len() > 0 {
        every_device_has_a_node(list.drop_last());
    }
}

/// The major and minor numbers of a device node, as the kernel packs them.
pub fn device_numbers(rdev: u64) -> (r: (u64, u64))
    ensures
        r.0 == ((rdev >> 8) & 0xfff) | ((rdev >> 32) & !0xfff_u64),
        r.1 == (rdev & 0xff) | ((rdev >> 12) & !0xff_u64),
{
    (((rdev >> 8) & 0xfff) | ((rdev >> 32) & !0xfff_u64), (rdev & 0xff) | ((rdev >> 12) & !0xff_u64))
}

/// Whether a record of the device manager tags the node as a keyboard.
pub open spec fn tagged(list: Seq<Seq<char>>) -> bool {
    list.contains("E:ID_INPUT_KEYBOARD=1"@)
}

pub fn tagged_for_x(record: &str) -> (r: bool)
    ensures
        r == tagged(lines(record@)),
{
    let text = chars_of(record);
    let list = lines_of(&text);
    let mut i: usize = 0;
    while i < list.len()
        invariant
            i <= list.len(),
            views(list@) == lines(record@),
            forall|k: int| 0 <= k < i ==> (#[trigger] views(list@)[k]) != "E:ID_INPUT_KEYBOARD=1"@,
        decreases list.len() - i,
    {
        assert(views(list@)[i as int] == list@[i as int]@);
        if crate::text::is_text(&list[i], "E:ID_INPUT_KEYBOARD=1") {
            assert(lines(record@)[i as int] == "E:ID_INPUT_KEYBOARD=1"@);
            return true;
        }
        i = i + 1;
    }
    false
}

/// How the kernel writes an event: when, then its kind, its code and its value, in the order
/// of the machine's bytes.
pub open spec fn pair_bytes(n: int, little: bool) -> Seq<u8> {
    if little {
        seq![(n % 256) as u8, (n / 256) as u8]
    } else {
        seq![(n / 256) as u8, (n % 256) as u8]
    }
}

/// The two's complement of a number, in four bytes.
pub open spec fn value_bytes(value: int, little: bool) -> Seq<u8> {
    let n = if value < 0 {
        value + 4294967296
    } else {
        value
    };
    if little {
        pair_bytes(n % 65536, true) + pair_bytes(n / 65536, true)
    } else {
        pair_bytes(n / 65536, false) + pair_bytes(n % 65536, false)
    }
}

pub open spec fn event_bytes(time: Seq<u8>, kind: u16, code: u16, value: i32, little: bool) -> Seq<u8> {
    time + pair_bytes(kind as int, little) + pair_bytes(code as int, little) + value_bytes(
        value as int,
        little,
    )
}

proof fn lemma_pair(n: int, little: bool)
    requires
        0 <= n < 65536,
    ensures
        pair_bytes(n, little).len() == 2,
        word16(pair_bytes(n, little), 0, little) == n,
{
    let low = n % 256;
    let high = n / 256;
    assert(n == 256 * high + low && 0 <= low < 256 && 0 <= high < 256);
    assert(low as u8 as int == low);
    assert(high as u8 as int == high);
}

proof fn lemma_value(value: int, little: bool)
    requires
        -2147483648 <= value < 2147483648,
    ensures
        value_bytes(value, little).len() == 4,
        signed32(value_bytes(value, little), 0, little) == value,
{
    let n = if value < 0 {
        value + 4294967296
    } else {
        value
    };
    let low = n % 65536;
    let high = n / 65536;
    assert(n == 65536 * high + low && 0 <= low < 65536 && 0 <= high < 65536);
    lemma_pair(low, little);
    lemma_pair(high, little);
    let s = value_bytes(value, little);
    if little {
        assert(word16(s, 0, true) == word16(pair_bytes(low, true), 0, true));
        assert(word16(s, 2, true) == word16(pair_bytes(high, true), 0, true));
    } else {
        assert(word16(s, 0, false) == word16(pair_bytes(high, false), 0, false));
        assert(word16(s, 2, false) == word16(pair_bytes(low, false), 0, false));
    }
}

/// An event comes back as the kernel wrote it, whenever it was and whatever follows it, in
/// either order of the bytes.
pub proof fn an_event_comes_back_as_it_was_written(
    time: Seq<u8>,
    kind: u16,
    code: u16,
    value: i32,
    little: bool,
    more: Seq<u8>,
)
    requires
        time.len() == TIME_BYTES,
    ensures
        raw_of(event_bytes(time, kind, code, value, little) + more, little) == Some((kind, code, value)),
        events_of(event_bytes(time, kind, code, value, little) + more, little) == seq![
            (kind, code, value),
        ] + events_of(more, little),
        left_over(event_bytes(time, kind, code, value, little) + more) == left_over(more),
{
    let event = event_bytes(time, kind, code, value, little);
    let s = event + more;
    let at = TIME_BYTES as int;
    lemma_pair(kind as int, little);
    lemma_pair(code as int, little);
    lemma_value(value as int, little);
    let a = pair_bytes(kind as int, little);
    let b = pair_bytes(code as int, little);
    let c = value_bytes(value as int, little);
    assert(event.len() == EVENT_BYTES);
    assert(s[at] == a[0] && s[at + 1] == a[1]);
    assert(s[at + 2] == b[0] && s[at + 3] == b[1]);
    assert(s[at + 4] == c[0] && s[at + 5] == c[1] && s[at + 6] == c[2] && s[at + 7] == c[3]);
    assert(s.skip(EVENT_BYTES as int) =~= more);
    assert(raw_of(s, little) == Some((kind, code, value)));
}

/// A key is down, held down long enough to repeat, or up; an event that is no key's is none
/// of these.
pub proof fn what_a_key_event_says(code: u16, kind: u16, value: i32)
    ensures
        key_of((1, code, 0)) == Some(KeyEvent { code, pressed: false, repeat: false }),
        key_of((1, code, 1)) == Some(KeyEvent { code, pressed: true, repeat: false }),
        key_of((1, code, 2)) == Some(KeyEvent { code, pressed: true, repeat: true }),
        kind != 1 ==> key_of((kind, code, value)) is None,
        key_of((1, code, value)) matches Some(key) && key.code == code && (key.repeat ==> key.pressed),
{
}

/// The keys of a read come in the order in which they were struck.
pub proof fn keys_come_in_order(a: Seq<(u16, u16, i32)>, b: Seq<(u16, u16, i32)>)
    ensures
        keys_of(a + b) == keys_of(a) + keys_of(b),
    decreases b.len(),
{
    if b.len() == 0 {
        assert(a + b =~= a);
        assert(keys_of(a) + keys_of(b) =~= keys_of(a));
    } else {
        keys_come_in_order(a, b.drop_last());
        assert((a + b).drop_last() =~= a + b.drop_last());
        assert((a + b).last() == b.last());
        assert(keys_of(a + b) =~= keys_of(a) + keys_of(b));
    }
}

/// Each axis of the sensor has its own code and changes no other's reading.
pub proof fn each_axis_has_its_own_code(sample: Sample, value: i32, code: u16, kind: u16)
    ensures
        sample.after((3, 0, value)) == (Sample { x: value, ..sample }),
        sample.after((3, 1, value)) == (Sample { y: value, ..sample }),
        sample.after((3, 2, value)) == (Sample { z: value, ..sample }),
        sample.after((3, 24, value)) == (Sample { tilt: value, ..sample }),
        code > 2 && code != 24 ==> sample.after((3, code, value)) == sample,
        kind != 3 ==> sample.after((kind, code, value)) == sample,
{
}

/// Events can be read in any portions: what was sensed before goes on into the next.
pub proof fn samples_can_be_read_in_portions(
    sample: Sample,
    a: Seq<(u16, u16, i32)>,
    b: Seq<(u16, u16, i32)>,
)
    ensures
        sample.after_all(a + b) == sample.after_all(a).after_all(b),
        sample.completed(a + b) == sample.completed(a) + sample.after_all(a).completed(b),
    decreases b.len(),
{
    if b.len() == 0 {
        assert(a + b =~= a);
        assert(sample.completed(a) + sample.after_all(a).completed(b) =~= sample.completed(a));
    } else {
        samples_can_be_read_in_portions(sample, a, b.drop_last());
        assert((a + b).drop_last() =~= a + b.drop_last());
        assert((a + b).last() == b.last());
        assert(sample.completed(a + b) =~= sample.completed(a) + sample.after_all(a).completed(b));
    }
}

/// A sample is complete where the kernel says so, as it stands there, and nowhere else.
pub proof fn a_sample_is_complete_where_the_kernel_says_so(
    sample: Sample,
    kind: u16,
    code: u16,
    value: i32,
)
    ensures
        sample.after_all(seq![(kind, code, value)]) == sample.after((kind, code, value)),
        kind == 0 ==> sample.completed(seq![(kind, code, value)]) == seq![sample],
        kind != 0 ==> sample.completed(seq![(kind, code, value)]).len() == 0,
{
    let one = seq![(kind, code, value)];
    assert(one.drop_last() =~= Seq::<(u16, u16, i32)>::empty());
    assert(one.last() == (kind, code, value));
    assert(sample.after_all(one.drop_last()) == sample);
    assert(sample.completed(one.drop_last()) =~= Seq::<Sample>::empty());
    if kind == 0 {
        assert(sample.after_all(one) == sample);
        assert(sample.completed(one) =~= seq![sample]);
    }
}

proof fn lemma_words_push(front: Seq<char>, word: Seq<char>)
    requires
        word.len() > 0,
        forall|i: int| 0 <= i < word.len() ==> !white(#[trigger] word[i]),
    ensures
        words(front + seq![' '] + word) == words(front).push(word),
    decreases front.len(),
{
    let all = front + seq![' '] + word;
    white_space_parts_words(word, ' ', seq![]);
    if front.len() == 0 {
        assert(all =~= seq![' '] + word);
        white_space_parts_words(word, ' ', word);
        assert(words(front).push(word) =~= seq![word]);
    } else if white(front[0]) {
        assert(all[0] == front[0]);
        assert(all.drop_first() =~= front.drop_first() + seq![' '] + word);
        lemma_words_push(front.drop_first(), word);
    } else {
        let k = word_len(front);
        lemma_word_len_is(front);
        if k == front.len() {
            white_space_parts_words(front, ' ', word);
            assert(words(all) =~= seq![front] + seq![word]);
            assert(words(front).push(word) =~= seq![front] + seq![word]);
        } else {
            let first = front.take(k as int);
            let left = front.skip(k as int + 1);
            assert(front =~= first + seq![front[k as int]] + left);
            assert forall|i: int| 0 <= i < first.len() implies !white(#[trigger] first[i]) by {
                assert(first[i] == front[i]);
            }
            white_space_parts_words(first, front[k as int], left);
            white_space_parts_words(first, front[k as int], left + seq![' '] + word);
            assert(all =~= first + seq![front[k as int]] + (left + seq![' '] + word));
            lemma_words_push(left, word);
            assert(words(all) =~= words(front).push(word));
        }
    }
}

proof fn lemma_word_len_is(s: Seq<char>)
    ensures
        word_len(s) <= s.len(),
        forall|i: int| 0 <= i < word_len(s) ==> !white(#[trigger] s[i]),
        word_len(s) < s.len() ==> white(s[word_len(s) as int]),
        s.len() > 0 && !white(s[0]) ==> word_len(s) > 0,
    decreases s.len(),
{
    if s.len() > 0 && !white(s[0]) {
        lemma_word_len_is(s.drop_first());
        assert forall|i: int| 0 <= i < word_len(s) implies !white(#[trigger] s[i]) by {
            if i > 0 {
                assert(s[i] == s.drop_first()[i - 1]);
            }
        }
    }
}

/// The words of a bitmap hold thirty-two bits each, the last of them the lowest.
pub proof fn the_last_word_holds_the_lowest_bits(front: Seq<char>, word: Seq<char>, bit: u16)
    requires
        word.len() > 0,
        forall|i: int| 0 <= i < word.len() ==> !white(#[trigger] word[i]),
    ensures
        bit < 32 ==> has_bit(front + seq![' '] + word, bit) == has_bit(word, bit),
        bit >= 32 ==> has_bit(front + seq![' '] + word, bit) == has_bit(front, (bit - 32) as u16),
        bit >= 32 ==> !has_bit(word, bit),
{
    lemma_words_push(front, word);
    white_space_parts_words(word, ' ', seq![]);
    let before = words(front);
    let w = before.push(word);
    assert(words(front + seq![' '] + word) == w);
    assert(words(word)[0] == word);
    if bit >= 32 {
        let low = (bit - 32) as u16;
        assert(low as int / 32 == bit as int / 32 - 1);
        assert((bit % 32) as u32 == (low % 32) as u32);
        let place = bit as int / 32;
        if w.len() > place {
            assert(w[w.len() - 1 - place] == before[before.len() - 1 - (place - 1)]);
        }
    }
}

/// The bits of a word are those of the number that its hexadecimal digits make.
pub proof fn a_word_holds_the_bits_of_its_number(word: Seq<char>, bit: u16, n: u32)
    requires
        word.len() > 0,
        forall|i: int| 0 <= i < word.len() ==> !white(#[trigger] word[i]),
        number(word, 16, u32::MAX as int) == Some(n as int),
        bit < 32,
    ensures
        has_bit(word, bit) <==> (n >> (bit as u32)) % 2 == 1,
{
    white_space_parts_words(word, ' ', seq![]);
    assert(words(word)[0] == word);
    let b = bit as u32;
    assert((n & (1u32 << b) != 0) <==> ((n >> b) % 2 == 1)) by (bit_vector)
        requires
            b < 32,
    ;
    assert((bit % 32) as u32 == b);
}

/// A device is listed by what its stanza says: the first of its handlers that is an event
/// node, its kinds of event, its keys and its axes; another line says nothing of it.
pub proof fn a_stanza_says_what_a_device_is(
    before: Seq<Seq<char>>,
    node: Seq<char>,
    keys: Seq<char>,
    abs: Seq<char>,
    other: Seq<char>,
)
    requires
        node.len() > 0,
        forall|i: int| 0 <= i < node.len() ==> !white(#[trigger] node[i]),
        other.len() > 0,
        other[0] != 'H',
        other[0] != 'B',
    ensures
        ({
            let was = device_after(before);
            let named = device_after(before.push("H: Handlers=event"@ + node));
            &&& named.0 == Some("event"@ + node)
            &&& named.1 == was.1 && named.2 == was.2 && named.3 == was.3
            &&& device_after(before.push("B: KEY="@ + keys)) == (was.0, was.1, keys, was.3)
            &&& device_after(before.push("B: ABS="@ + abs)) == (was.0, was.1, was.2, abs)
            &&& device_after(before.push(other)) == was
            &&& device_after(before.push(seq![])) == no_device()
            &&& devices_in(before.push(seq![])) == (if was.0 is Some {
                devices_in(before).push(was)
            } else {
                devices_in(before)
            })
            &&& devices_in(before.push(other)) == devices_in(before)
        }),
{
    reveal_strlit("H: Handlers=event");
    reveal_strlit("H: Handlers=");
    reveal_strlit("B: KEY=");
    reveal_strlit("B: ABS=");
    reveal_strlit("B: EV=");
    reveal_strlit("event");
    let handler = "event"@ + node;
    let line = "H: Handlers=event"@ + node;
    assert(before.push(line).drop_last() =~= before);
    assert(line =~= "H: Handlers="@ + handler);
    a_prefix_is_stripped("H: Handlers="@, handler, line);
    assert forall|i: int| 0 <= i < handler.len() implies !white(#[trigger] handler[i]) by {
        if i >= 5 {
            assert(handler[i] == node[i - 5]);
        }
    }
    white_space_parts_words(handler, ' ', seq![]);
    assert(words(handler) == seq![handler]);
    a_prefix_is_stripped("event"@, node, handler);
    assert(event_node(words(handler), 0) == Some(handler));
    let k = "B: KEY="@ + keys;
    assert(before.push(k).drop_last() =~= before);
    a_prefix_is_stripped("B: KEY="@, keys, k);
    lemma_other_start(k, "H: Handlers="@, 0);
    let a = "B: ABS="@ + abs;
    assert(before.push(a).drop_last() =~= before);
    a_prefix_is_stripped("B: ABS="@, abs, a);
    lemma_other_start(a, "H: Handlers="@, 0);
    lemma_other_start(a, "B: KEY="@, 3);
    assert(before.push(other).drop_last() =~= before);
    lemma_other_start(other, "H: Handlers="@, 0);
    lemma_other_start(other, "B: KEY="@, 0);
    lemma_other_start(other, "B: ABS="@, 0);
    lemma_other_start(other, "B: EV="@, 0);
    let none = Seq::<char>::empty();
    assert(before.push(none).drop_last() =~= before);
}

/// A text that differs from a word in one place does not begin with it.
proof fn lemma_other_start(s: Seq<char>, word: Seq<char>, at: int)
    requires
        0 <= at < word.len(),
        at < s.len() ==> s[at] != word[at],
    ensures
        strip_prefix(s, word) is None,
{
    if stands_at(s, word, 0) {
        assert(s.subrange(0, word.len() as int)[at] == s[at]);
    }
}

/// Of the handlers of a device the first that is an event node is taken, and one that is
/// none is passed over.
pub proof fn a_handler_that_is_no_node_is_passed_over(list: Seq<Seq<char>>, from: int)
    requires
        0 <= from < list.len(),
    ensures
        starts_with(list[from], "event"@) ==> event_node(list, from) == Some(list[from]),
        !starts_with(list[from], "event"@) ==> event_node(list, from) == event_node(list, from + 1),
        event_node(list, list.len() as int) is None,
{
}

/// What tells the devices apart: a keyboard has a key for the letter Q, a touchscreen tells
/// its fingers apart, and the sensor has three axes and no key.
pub proof fn what_tells_devices_apart(device: Device)
    ensures
        is_keyboard(device) <==> has_bit(device.2, 16),
        is_touchscreen(device) <==> has_bit(device.3, 57),
        is_accelerometer(device) ==> has_bit(device.3, 0) && has_bit(device.3, 1) && has_bit(
            device.3,
            2,
        ) && device.1 & 8 != 0 && device.1 & 2 == 0,
        has_bit(device.3, 0) && has_bit(device.3, 1) && has_bit(device.3, 2) && device.1 & 8 != 0
            && device.1 & 2 == 0 ==> is_accelerometer(device),
{
}

/// The first device that is wanted is taken, whatever comes after it.
pub proof fn the_first_device_that_fits_is_taken(
    before: Seq<Device>,
    device: Device,
    after: Seq<Device>,
    f: spec_fn(Device) -> bool,
    from: int,
)
    requires
        forall|i: int| 0 <= i < before.len() ==> !f(#[trigger] before[i]),
        f(device),
        0 <= from <= before.len(),
    ensures
        first_node(before.push(device) + after, f, from) == device.0,
    decreases before.len() - from,
{
    let list = before.push(device) + after;
    if from < before.len() {
        assert(list[from] == before[from]);
        the_first_device_that_fits_is_taken(before, device, after, f, from + 1);
    } else {
        assert(list[from] == device);
    }
}

} // verus!
