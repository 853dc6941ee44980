//! Scanning for keyboards and pairing with one, a second at a time.

use vstd::prelude::*;

use crate::hid::{device_texts, Device, Prompt, Ready, Scan};
use crate::text::{
    chars_of, decimal, decimal_of, number, number_of, number_reads_what_decimal_writes,
    same_text, trim, trimmed,
};

verus! {

/// How long a scan is waited for, in seconds.
pub const SCAN_SECONDS: u64 = 14;

/// How long a pairing is waited for, in seconds.
pub const PAIR_TICKS: usize = 45;

/// How often the daemon is asked about a scan, in milliseconds.
pub const POLL: u64 = 1000;

// ---------------------------------------------------------------------------
// Scanning
// ---------------------------------------------------------------------------

/// What asking for a scan does.
#[derive(Debug, Clone, Copy, PartialEq, Eq, Structural)]
pub enum Ask {
    /// One is running.
    Nothing,
    /// The daemon is on its way.
    Starting,
    /// There is none: start it.
    Start,
    Scan,
}

/// What asking for a scan comes to.
pub open spec fn asked_for(scanning: bool, ready: Ready) -> Ask {
    if scanning {
        Ask::Nothing
    } else {
        match ready {
            Ready::Starting => Ask::Starting,
            Ready::Unavailable => Ask::Start,
            Ready::Up => Ask::Scan,
        }
    }
}

/// Asking for a scan: nothing while one runs, and else by what the daemon can do.
pub fn ask_scan(scanning: bool, ready: Ready) -> (r: Ask)
    ensures
        r == asked_for(scanning, ready),
{
    if scanning {
        return Ask::Nothing;
    }
    match ready {
        Ready::Starting => Ask::Starting,
        Ready::Unavailable => Ask::Start,
        Ready::Up => Ask::Scan,
    }
}

/// What the panel says as it asks.
pub fn ask_status(ask: Ask) -> (r: Option<&'static str>)
    ensures
        match r {
            Some(s) => s@ == (match ask {
                Ask::Nothing => ""@,
                Ask::Starting => "Bluetooth is still starting — try again in a moment."@,
                Ask::Start => "Starting Bluetooth…"@,
                Ask::Scan => "Scanning…"@,
            }) && ask != Ask::Nothing,
            None => ask == Ask::Nothing,
        },
{
    match ask {
        Ask::Nothing => None,
        Ask::Starting => Some("Bluetooth is still starting — try again in a moment."),
        Ask::Start => Some("Starting Bluetooth…"),
        Ask::Scan => Some("Scanning…"),
    }
}

/// When the running scan began, when the daemon was last asked, and what was
/// found.
pub struct Scanning {
    pub began: Option<u64>,
    pub polled: Option<u64>,
    pub found: Vec<Device>,
}

/// What a tick does to a scan.
#[derive(Debug, Clone, Copy, PartialEq, Eq, Structural)]
pub enum Tick {
    Nothing,
    /// Ask the daemon; the scan has run so many seconds.
    Poll(u64),
}

/// What the panel is to show of a scan.
#[derive(Debug)]
pub enum Show {
    Status(String),
    /// The list changed, or the scan is over.
    List,
}

/// Whether two lists of devices are the same.
pub fn same_devices(a: &Vec<Device>, b: &Vec<Device>) -> (r: bool)
    ensures
        r == (device_texts(a@) == device_texts(b@)),
{
    if a.len() != b.len() {
        assert(device_texts(a@).len() != device_texts(b@).len());
        return false;
    }
    let mut i: usize = 0;
    while i < a.len()
        invariant
            i <= a.len(),
            a.len() == b.len(),
            forall|k: int| 0 <= k < i ==> (#[trigger] a@[k])@ == b@[k]@,
        decreases a.len() - i,
    {
        let same = same_text(a[i].address.as_str(), b[i].address.as_str()) && same_text(
            a[i].name.as_str(),
            b[i].name.as_str(),
        ) && same_text(a[i].protocol.as_str(), b[i].protocol.as_str());
        if !same {
            assert(device_texts(a@)[i as int] == a@[i as int]@);
            assert(device_texts(b@)[i as int] == b@[i as int]@);
            return false;
        }
        i = i + 1;
    }
    assert(device_texts(a@) =~= device_texts(b@));
    true
}

/// A status with the seconds a scan has run.
pub open spec fn seconds_text(what: Seq<char>, s: u64) -> Seq<char> {
    what + decimal(s as nat) + "s"@
}

fn with_seconds(what: &str, s: u64) -> (r: String)
    ensures
        r@ == seconds_text(what@, s),
{
    let mut t = String::from_str(what);
    t.append(decimal_of(s).as_str());
    t.append("s");
    t
}

impl Scanning {
    pub fn new() -> (r: Scanning)
        ensures
            r.began is None,
            r.polled is None,
            r.found@.len() == 0,
    {
        Scanning { began: None, polled: None, found: Vec::new() }
    }

    /// A scan was begun.
    pub fn begin(&mut self, now: u64)
        ensures
            *final(self) == (Scanning { began: Some(now), polled: Some(now), ..*old(self) }),
    {
        self.began = Some(now);
        self.polled = Some(now);
    }

    /// Whether the daemon is to be asked now.
    pub open spec fn asks_at(&self, now: u64) -> bool {
        self.began is Some && (self.polled is None || (now >= self.polled->0 && now - self.polled->0
            >= POLL))
    }

    /// How many whole seconds the scan has run.
    pub open spec fn seconds_at(&self, now: u64) -> u64 {
        if now >= self.began->0 {
            ((now - self.began->0) / 1000) as u64
        } else {
            0
        }
    }

    /// A tick of the loop. A scan ends with the panel that asked for it, and the
    /// daemon is asked once a second.
    pub fn tick(&mut self, on_config: bool, now: u64) -> (r: Tick)
        ensures
            !on_config ==> r == Tick::Nothing && *final(self) == (Scanning {
                began: None,
                ..*old(self)
            }),
            on_config ==> ({
                let due = old(self).asks_at(now);
                &&& !due ==> r == Tick::Nothing && *final(self) == *old(self)
                &&& due ==> *final(self) == (Scanning { polled: Some(now), ..*old(self) }) && r
                    == Tick::Poll(old(self).seconds_at(now))
            }),
    {
        if !on_config {
            self.began = None;
            return Tick::Nothing;
        }
        let began: u64 = match self.began {
            Some(at) => at,
            None => return Tick::Nothing,
        };
        let due = match self.polled {
            Some(last) => now >= last && now - last >= POLL,
            None => true,
        };
        if !due {
            return Tick::Nothing;
        }
        self.polled = Some(now);
        Tick::Poll(
            if now >= began {
                (now - began) / 1000
            } else {
                0
            },
        )
    }

    /// What the daemon's answer does. A scan that has not begun is waited for, and
    /// given up after its time; one that runs is over when it says so, or after
    /// its time.
    pub fn answered(&mut self, scan: Scan, elapsed: u64) -> (r: Show)
        ensures
            match scan {
                Scan::Starting => {
                    &&& final(self).found@ == old(self).found@
                    &&& final(self).began == (if elapsed >= SCAN_SECONDS {
                        None
                    } else {
                        old(self).began
                    })
                    &&& r matches Show::Status(s) && s@ == (if elapsed >= SCAN_SECONDS {
                        "The scan never started. Try again."@
                    } else {
                        seconds_text("Starting the scan… "@, elapsed)
                    })
                },
                Scan::Running(list) => {
                    let done = elapsed >= SCAN_SECONDS;
                    let changed = device_texts(old(self).found@) != device_texts(list@);
                    &&& device_texts(final(self).found@) == device_texts(list@)
                    &&& final(self).began == (if done {
                        None
                    } else {
                        old(self).began
                    })
                    &&& if changed || done {
                        r is List
                    } else {
                        r matches Show::Status(s) && s@ == seconds_text("Scanning… "@, elapsed)
                    }
                },
                Scan::Done(list) => {
                    &&& device_texts(final(self).found@) == device_texts(list@)
                    &&& final(self).began is None
                    &&& r is List
                },
            },
            final(self).polled == old(self).polled,
    {
        let (devices, done) = match scan {
            Scan::Starting => {
                return if elapsed >= SCAN_SECONDS {
                    self.began = None;
                    Show::Status("The scan never started. Try again.".to_owned())
                } else {
                    Show::Status(with_seconds("Starting the scan… ", elapsed))
                };
            },
            Scan::Running(list) => (list, elapsed >= SCAN_SECONDS),
            Scan::Done(list) => (list, true),
        };
        let changed = !same_devices(&self.found, &devices);
        if done {
            self.began = None;
        }
        if changed || done {
            self.found = devices;
            return Show::List;
        }
        Show::Status(with_seconds("Scanning… ", elapsed))
    }

    /// The daemon could not be asked: the scan is over.
    pub fn failed(&mut self)
        ensures
            *final(self) == (Scanning { began: None, ..*old(self) }),
    {
        self.began = None;
    }
}

/// One second of a scan from a terminal: what has been found, and whether the scan
/// is over.
pub fn scan_second(found: &mut Vec<Device>, scan: Scan) -> (r: bool)
    ensures
        r == scan is Done,
        final(found)@ == (match scan {
            Scan::Starting => old(found)@,
            Scan::Running(list) => list@,
            Scan::Done(list) => list@,
        }),
{
    match scan {
        Scan::Starting => false,
        Scan::Running(list) => {
            *found = list;
            false
        },
        Scan::Done(list) => {
            *found = list;
            true
        },
    }
}

/// The place of what was chosen by its number, counted from one.
pub open spec fn choice_of(choice: Seq<char>, count: usize) -> Option<usize> {
    match number(trim(choice), 10, usize::MAX as int) {
        Some(n) => if 1 <= n <= count {
            Some((n - 1) as usize)
        } else {
            None
        },
        None => None,
    }
}

/// The device a number picks, counting from one; nothing for any other text.
pub fn picked(choice: &str, count: usize) -> (r: Option<usize>)
    ensures
        r == choice_of(choice@, count),
{
    let chars = chars_of(choice);
    let digits = trimmed(&chars);
    match number_of(&digits, 10, usize::MAX as u64) {
        Some(n) => {
            let n: usize = n as usize;
            if 1 <= n && n <= count {
                Some(n - 1)
            } else {
                None
            }
        },
        None => None,
    }
}

// ---------------------------------------------------------------------------
// Pairing
// ---------------------------------------------------------------------------

/// A pairing that is being waited for: whether the passkey was shown, and how many
/// seconds have passed.
#[derive(Debug, Clone, Copy, PartialEq, Eq, Structural)]
pub struct Pairing {
    pub asked: bool,
    pub ticks: usize,
}

/// How a second of it ended.
#[derive(Debug, Clone, Copy, PartialEq, Eq, Structural)]
pub enum Second {
    Wait,
    Paired,
    Failed,
    TimedOut,
}

impl Pairing {
    pub fn new() -> (r: Pairing)
        ensures
            r == (Pairing { asked: false, ticks: 0 }),
    {
        Pairing { asked: false, ticks: 0 }
    }

    /// Whether the log is to be looked at for a passkey.
    pub fn wants_prompt(&self) -> (r: bool)
        ensures
            r == !self.asked,
    {
        !self.asked
    }

    /// What the log prompts. A passkey is shown once.
    pub fn prompted(&mut self, prompt: Option<Prompt>) -> (r: Option<String>)
        ensures
            match (old(self).asked, prompt) {
                (false, Some(Prompt::Passkey(key))) => r == Some(key) && *final(self) == (Pairing {
                    asked: true,
                    ..*old(self)
                }),
                _ => r is None && *final(self) == *old(self),
            },
    {
        if self.asked {
            return None;
        }
        match prompt {
            Some(Prompt::Passkey(key)) => {
                self.asked = true;
                Some(key)
            },
            _ => None,
        }
    }

    /// What a second of waiting comes to.
    pub open spec fn told(self, done: Option<bool>) -> Second {
        match done {
            Some(true) => Second::Paired,
            Some(false) => Second::Failed,
            None => if self.ticks + 1 >= PAIR_TICKS {
                Second::TimedOut
            } else {
                Second::Wait
            },
        }
    }

    /// What the daemon says of it after a second: nothing while it runs, until the
    /// time is up.
    pub fn second(&mut self, done: Option<bool>) -> (r: Second)
        requires
            old(self).ticks < PAIR_TICKS,
        ensures
            final(self).asked == old(self).asked,
            final(self).ticks == old(self).ticks + 1,
            r == old(self).told(done),
    {
        self.ticks = self.ticks + 1;
        match done {
            Some(true) => Second::Paired,
            Some(false) => Second::Failed,
            None => if self.ticks >= PAIR_TICKS {
                Second::TimedOut
            } else {
                Second::Wait
            },
        }
    }

    /// Why it failed: what the log says, or else by whether a passkey was shown.
    pub open spec fn reason(self, prompt: Option<Prompt>, untyped: Seq<char>, unready: Seq<char>) -> Seq<
        char,
    > {
        match prompt {
            Some(Prompt::Failed(reason)) => reason@,
            _ => if self.asked {
                untyped
            } else {
                unready
            },
        }
    }

    /// Why it failed, as the panel says it.
    pub fn panel_reason(&self, prompt: Option<Prompt>) -> (r: String)
        ensures
            r@ == "Pairing failed. "@ + self.reason(
                prompt,
                "The code was not typed in time."@,
                "Put it in pairing mode and try again."@,
            ),
    {
        let mut s = String::from_str("Pairing failed. ");
        match prompt {
            Some(Prompt::Failed(reason)) => s.append(reason.as_str()),
            _ => s.append(
                if self.asked {
                    "The code was not typed in time."
                } else {
                    "Put it in pairing mode and try again."
                },
            ),
        }
        s
    }

    /// Why it failed, as a terminal says it.
    pub fn terminal_reason(&self, prompt: Option<Prompt>) -> (r: String)
        ensures
            r@ == "pairing failed — "@ + self.reason(
                prompt,
                "the code was not typed in time"@,
                "try again with the keyboard in pairing mode"@,
            ),
    {
        let mut s = String::from_str("pairing failed — ");
        match prompt {
            Some(Prompt::Failed(reason)) => s.append(reason.as_str()),
            _ => s.append(
                if self.asked {
                    "the code was not typed in time"
                } else {
                    "try again with the keyboard in pairing mode"
                },
            ),
        }
        s
    }

    /// What the panel says to have a passkey typed.
    pub fn passkey_status(key: &str) -> (r: String)
        ensures
            r@ == "Type "@ + key@ + " on the keyboard, then Enter."@,
    {
        let mut s = String::from_str("Type ");
        s.append(key);
        s.append(" on the keyboard, then Enter.");
        s
    }
}

/// What the panel says once a link was dropped: where others are remembered, that
/// one of them can be switched on.
pub fn dropped_status(name: &str, others: bool) -> (r: String)
    ensures
        r@ == "Dropped "@ + name@ + (if others {
            ". Switch on the keyboard you want — it reconnects in a few seconds."@
        } else {
            ". It reconnects in a few seconds."@
        }),
{
    let mut s = String::from_str("Dropped ");
    s.append(name);
    s.append(
        if others {
            ". Switch on the keyboard you want — it reconnects in a few seconds."
        } else {
            ". It reconnects in a few seconds."
        },
    );
    s
}

/// What the panel says of keeping the radio on.
pub fn keep_status(on: bool) -> (r: &'static str)
    ensures
        r@ == (if on {
            "Kept on — so is the keyboard. Audible and VoiceView have no radio until this is off."@
        } else {
            "Off with karyll — the keyboard goes too, and Audible and VoiceView get the radio."@
        }),
{
    if on {
        "Kept on — so is the keyboard. Audible and VoiceView have no radio until this is off."
    } else {
        "Off with karyll — the keyboard goes too, and Audible and VoiceView get the radio."
    }
}

/// The daemon's own reason is told before any other; without one it is what was asked of the
/// writer that failed, or of the keyboard.
pub proof fn the_daemons_reason_comes_first(
    pairing: Pairing,
    prompt: Option<Prompt>,
    untyped: Seq<char>,
    unready: Seq<char>,
)
    ensures
        prompt matches Some(Prompt::Failed(reason)) ==> pairing.reason(prompt, untyped, unready) == reason@,
        !(prompt matches Some(Prompt::Failed(_))) && pairing.asked ==> pairing.reason(
            prompt,
            untyped,
            unready,
        ) == untyped,
        !(prompt matches Some(Prompt::Failed(_))) && !pairing.asked ==> pairing.reason(
            prompt,
            untyped,
            unready,
        ) == unready,
{
}

/// The seconds that are told are a number that reads back as they are.
pub proof fn the_seconds_read_back(what: Seq<char>, s: u64)
    ensures
        ({
            let says = seconds_text(what, s);
            &&& says.take(what.len() as int) == what
            &&& says.last() == 's'
            &&& number(says.subrange(what.len() as int, says.len() - 1), 10, u64::MAX as int) == Some(
                s as int,
            )
        }),
{
    reveal_strlit("s");
    number_reads_what_decimal_writes(s as nat, u64::MAX as int);
    let says = seconds_text(what, s);
    assert(says.take(what.len() as int) =~= what);
    assert(says.subrange(what.len() as int, says.len() - 1) =~= decimal(s as nat));
}

/// A scan is asked for once, and of a daemon that is up; one that is missing is started.
pub proof fn a_scan_is_asked_for_once(ready: Ready)
    ensures
        asked_for(true, ready) == Ask::Nothing,
        asked_for(false, ready) == Ask::Scan <==> ready == Ready::Up,
        asked_for(false, ready) == Ask::Start <==> ready == Ready::Unavailable,
        asked_for(false, ready) == Ask::Starting <==> ready == Ready::Starting,
{
}

/// A choice is made by the number that stands before it, counted from one, with white space
/// round it or none.
pub proof fn a_choice_is_made_by_its_number(place: usize, count: usize, choice: Seq<char>)
    requires
        count < usize::MAX,
    ensures
        place < count ==> choice_of(decimal((place + 1) as nat), count) == Some(place),
        place >= count && place < usize::MAX ==> choice_of(decimal((place + 1) as nat), count) is None,
        choice_of(decimal(0), count) is None,
        choice_of(choice, count) matches Some(at) ==> at < count,
{
    if place < usize::MAX {
        number_reads_what_decimal_writes((place + 1) as nat, usize::MAX as int);
    }
    number_reads_what_decimal_writes(0, usize::MAX as int);
}

/// A pairing is waited for until the forty-fifth second, unless the daemon says before how it
/// ended.
pub proof fn a_pairing_is_given_its_time(pairing: Pairing)
    requires
        pairing.ticks < 45,
    ensures
        pairing.told(None) == Second::TimedOut <==> pairing.ticks == 44,
        pairing.told(None) == Second::Wait <==> pairing.ticks < 44,
        pairing.told(Some(true)) == Second::Paired,
        pairing.told(Some(false)) == Second::Failed,
{
}

/// The daemon is asked at once and from then on once a second, as long as the scan runs, and
/// the seconds that are told are whole ones.
pub proof fn a_scan_is_polled_once_a_second(scanning: Scanning, began: u64, polled: u64, now: u64)
    requires
        began <= polled <= now,
    ensures
        (Scanning { began: Some(began), polled: None, ..scanning }).asks_at(now),
        (Scanning { began: Some(began), polled: Some(polled), ..scanning }).asks_at(now) <==> now - polled
            >= 1000,
        !(Scanning { began: None, ..scanning }).asks_at(now),
        ({
            let told = (Scanning { began: Some(began), ..scanning }).seconds_at(now);
            began + 1000 * told <= now < began + 1000 * told + 1000
        }),
{
}

/// A scan runs for fourteen seconds.
pub proof fn a_scan_runs_for_fourteen_seconds(elapsed: u64)
    ensures
        elapsed >= SCAN_SECONDS <==> elapsed >= 14,
{
}

} // verus!
