//! The operation history and status line of the shell: time-stamped,
//! trimmed entries, of which only the most recent `MAX_HISTORY` are kept.

use vstd::prelude::*;
use crate::text::{decimal, decimal_chars, chars_of, trim, trim_chars, string_of};

verus! {

/// The number of history entries that are kept.
pub const MAX_HISTORY: usize = 200;

/// One history line: `[<seconds>] <trimmed message>`.
pub open spec fn history_entry(secs: nat, message: Seq<char>) -> Seq<char> {
    seq!['['] + decimal(secs) + seq![']', ' '] + trim(message)
}

/// The most recent `MAX_HISTORY` entries of `h`.
pub open spec fn kept_history(h: Seq<Seq<char>>) -> Seq<Seq<char>> {
    if h.len() > MAX_HISTORY {
        h.skip(h.len() - MAX_HISTORY)
    } else {
        h
    }
}

pub open spec fn texts(v: Seq<String>) -> Seq<Seq<char>> {
    v.map_values(|s: String| s@)
}

/// The seconds since the Unix epoch by the system clock, or 0 for a clock set
/// before the epoch (`SystemTime::now().duration_since(UNIX_EPOCH)`). Nothing
/// is stated of the value: it is the time of the call.
#[verifier::external_body]
fn unix_time_secs() -> (r: u64) {
    match std::time::SystemTime::now().duration_since(std::time::UNIX_EPOCH) {
        Ok(d) => d.as_secs(),
        Err(_) => 0,
    }
}

/// The history line for `message` at `secs`.
pub fn history_line(secs: u64, message: &str) -> (r: String)
    ensures
        r@ == history_entry(secs as nat, message@),
{
    let mut v: Vec<char> = Vec::new();
    v.push('[');
    let mut d = decimal_chars(secs);
    v.append(&mut d);
    v.push(']');
    v.push(' ');
    let m = chars_of(message);
    let mut t = trim_chars(m.as_slice());
    v.append(&mut t);
    let r = string_of(v.as_slice());
    assert(r@ =~= history_entry(secs as nat, message@));
    r
}

/// The status line and the history of the shell.
pub struct ShellLog {
    pub status_message: String,
    pub history: Vec<String>,
}

impl ShellLog {
    pub open spec fn entries(&self) -> Seq<Seq<char>> {
        texts(self.history@)
    }

    pub fn new() -> (r: Self)
        ensures
            r.status_message@ == Seq::<char>::empty(),
            r.entries() == Seq::<Seq<char>>::empty(),
    {
        let r = ShellLog { status_message: String::new(), history: Vec::new() };
        assert(r.entries() =~= Seq::<Seq<char>>::empty());
        r
    }

    /// Replaces the status line.
    pub fn update_status(&mut self, message: String)
        ensures
            final(self).status_message@ == message@,
            final(self).entries() == old(self).entries(),
    {
        self.status_message = message;
    }

    /// Appends the entry for `message` at time `secs`, dropping the oldest
    /// entries beyond `MAX_HISTORY`.
    pub fn push_history_at(&mut self, secs: u64, message: &str)
        ensures
            final(self).entries() == kept_history(old(self).entries().push(history_entry(secs as nat, message@))),
            final(self).entries().len() <= MAX_HISTORY,
            final(self).entries().last() == history_entry(secs as nat, message@),
            final(self).status_message == old(self).status_message,
    {
        proof {
            lemma_history_bounded(self.entries(), history_entry(secs as nat, message@));
        }
        let line = history_line(secs, message);
        let ghost full = self.entries().push(history_entry(secs as nat, message@));
        let ghost status = self.status_message;
        self.history.push(line);
        assert(self.entries() =~= full);
        let ghost mut dropped: int = 0;
        while self.history.len() > MAX_HISTORY
            invariant
                0 <= dropped <= full.len(),
                self.entries() == full.skip(dropped),
                self.history@.len() > MAX_HISTORY ==> full.len() - dropped > MAX_HISTORY,
                full.len() > MAX_HISTORY ==> dropped <= full.len() - MAX_HISTORY,
                full.len() <= MAX_HISTORY ==> dropped == 0,
                self.status_message == status,
            decreases self.history.len(),
        {
            let ghost before = self.history@;
            let ghost d0 = dropped;
            assert(texts(before) == full.skip(d0));
            self.history.remove(0);
            assert(self.history@ == before.remove(0));
            proof {
                dropped = d0 + 1;
                assert forall|k: int| 0 <= k < self.history@.len() implies #[trigger] texts(self.history@)[k]
                    == full.skip(d0 + 1)[k] by {
                    assert(self.history@[k] == before[k + 1]);
                    assert(texts(before)[k + 1] == full.skip(d0)[k + 1]);
                }
                assert(texts(self.history@) =~= full.skip(d0 + 1));
            }
        }
        assert(self.entries() =~= kept_history(full));
    }

    /// Appends the entry for `message` at the current time.
    pub fn push_history(&mut self, message: &str)
        ensures
            exists|secs: u64| final(self).entries() == kept_history(
                old(self).entries().push(history_entry(secs as nat, message@)),
            ),
            final(self).status_message == old(self).status_message,
    {
        let secs = unix_time_secs();
        self.push_history_at(secs, message);
    }
}

/// The history never holds more than `MAX_HISTORY` entries, and after a push
/// its last entry is the one pushed.
pub proof fn lemma_history_bounded(h: Seq<Seq<char>>, entry: Seq<char>)
    ensures
        kept_history(h.push(entry)).len() <= MAX_HISTORY,
        kept_history(h.push(entry)).last() == entry,
        h.len() < MAX_HISTORY ==> kept_history(h.push(entry)) == h.push(entry),
{
}

/// A number in at least two digits, with a leading zero below ten (`{:02}`).
pub open spec fn two_digits(n: nat) -> Seq<char> {
    if n < 10 {
        seq!['0'] + decimal(n)
    } else {
        decimal(n)
    }
}

/// `hh:mm`.
pub open spec fn clock(hour: nat, minute: nat) -> Seq<char> {
    two_digits(hour) + seq![':'] + two_digits(minute)
}

fn two_digit_chars(n: u64) -> (r: Vec<char>)
    ensures
        r@ == two_digits(n as nat),
{
    let mut r: Vec<char> = Vec::new();
    if n < 10 {
        r.push('0');
    }
    let mut d = decimal_chars(n);
    r.append(&mut d);
    r
}

/// `hh:mm` for an hour and a minute given by the clock.
pub fn clock_text(hour: u64, minute: u64) -> (r: String)
    ensures
        r@ == clock(hour as nat, minute as nat),
{
    let mut v = two_digit_chars(hour);
    v.push(':');
    let mut m = two_digit_chars(minute);
    v.append(&mut m);
    let r = string_of(v.as_slice());
    assert(r@ =~= clock(hour as nat, minute as nat));
    r
}

/// The UTC time of day, `hh:mm`, of a moment `secs` seconds after the Unix
/// epoch.
pub fn utc_clock_text(secs: u64) -> (r: String)
    ensures
        r@ == clock((secs / 60 % 1440) as nat / 60, (secs / 60 % 1440) as nat % 60),
{
    let total_minutes = (secs / 60) % (24 * 60);
    clock_text(total_minutes / 60, total_minutes % 60)
}

} // verus!
