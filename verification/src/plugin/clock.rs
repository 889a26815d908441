use std::fmt::Write;
use vstd::prelude::*;
use crate::model::{Entry, Message, Plugin, copy_entries, entries_view};
use crate::search::{search, search_message};
use crate::model::EntryView;
use crate::text::opt_view;

verus! {

/// Reads the clock (`chrono::Local::now`): seconds and nanoseconds since
/// the Unix epoch, and the local offset from UTC in seconds. The result
/// depends on the clock and the local time zone, so nothing is claimed of it.
#[verifier::external_body]
fn read_clock() -> (r: (i64, u32, i32)) {
    let now = chrono::Local::now();
    (now.timestamp(), now.timestamp_subsec_nanos(), now.offset().local_minus_utc())
}

/// The text that chrono writes for an instant (seconds and nanoseconds
/// since the Unix epoch, offset from UTC in seconds) under a `strftime`
/// pattern, or `None` where the instant or offset is out of range or the
/// pattern is refused while formatting.
pub uninterp spec fn chrono_rendering(instant: (i64, u32, i32), pattern: Seq<char>) -> Option<Seq<char>>;

/// Formats an instant at its offset (`chrono::FixedOffset::east_opt`,
/// `DateTime::from_timestamp`, `with_timezone`, `format`). The result is
/// named, not spelled out.
#[verifier::external_body]
fn render(instant: (i64, u32, i32), pattern: &str) -> (r: Option<String>)
    ensures
        opt_view(r) == chrono_rendering(instant, pattern@),
{
    let (secs, nanos, offset) = instant;
    let zone = chrono::FixedOffset::east_opt(offset)?;
    let at = chrono::DateTime::from_timestamp(secs, nanos)?.with_timezone(&zone);
    let mut text = String::new();
    match write!(text, "{}", at.format(pattern)) {
        Ok(()) => Some(text),
        Err(_) => None,
    }
}

/// The clock shows the instant `t`: both entries where both patterns render
/// it, else none and an error.
pub open spec fn shows_instant(r: Result<(), ClockFormatError>, entries: Seq<Entry>, t: (i64, u32, i32)) -> bool {
    let time = chrono_rendering(t, "%H:%M:%S"@);
    let date = chrono_rendering(t, "%A, %_d. %B %Y"@);
    &&& (time is Some && date is Some) ==> (r is Ok && entries_view(entries) == clock_entries(time->0, date->0))
    &&& (time is None || date is None) ==> (r is Err && entries.len() == 0)
}

/// The current time and date.
#[derive(Debug)]
pub struct ClockPlugin {
    pub entries: Vec<Entry>,
}

impl ClockPlugin {
    /// The plugin's id.
    pub fn id() -> (r: &'static str)
        ensures
            r@ == "clock"@,
    {
        "clock"
    }

    /// Where the plugin is listed: higher priorities come first.
    pub fn priority() -> (r: u32)
        ensures
            r == 10,
    {
        10
    }

    /// The heading shown above the plugin's entries.
    pub fn title() -> (r: &'static str)
        ensures
            r@ == "󰅐 Clock"@,
    {
        "󰅐 Clock"
    }

    /// Copies of the plugin's entries.
    pub fn entries(&self) -> (r: Vec<Entry>)
        ensures
            entries_view(r@) == entries_view(self.entries@),
    {
        copy_entries(&self.entries)
    }

    /// Replaces the plugin's entries.
    pub fn set_entries(&mut self, entries: Vec<Entry>)
        ensures
            final(self).entries == entries,
    {
        self.entries = entries;
    }

    /// The plugin as the launcher lists it.
    pub fn plugin(&self) -> (r: Plugin)
        ensures
            r.id@ == "clock"@,
            r.priority == 10,
            r.title@ == "󰅐 Clock"@,
            entries_view(r.entries@) == entries_view(self.entries@),
    {
        Plugin {
            id: String::from_str(Self::id()),
            priority: Self::priority(),
            title: String::from_str(Self::title()),
            entries: self.entries(),
        }
    }

    /// The message that answers a search for `query` among the entries.
    pub fn search(&self, query: &String) -> (r: Message)
        ensures
            search_message(r, "clock"@, entries_view(self.entries@), query@),
    {
        let shown = self.entries();
        let ghost src = shown@;
        let found = search(shown, query);
        let r = Message::UpdateEntries(String::from_str(Self::id()), found);
        assert(entries_view(src) == entries_view(self.entries@));
        r
    }
}

/// The two clock entries for the given time and date texts.
pub open spec fn clock_entries(time: Seq<char>, date: Seq<char>) -> Seq<EntryView> {
    seq![
        EntryView { id: "time-entry"@, title: time, action: ""@, meta: "Clock Time"@, command: None },
        EntryView { id: "date"@, title: date, action: ""@, meta: "Clock Date"@, command: None },
    ]
}

/// The clock shows two entries: first the time, then the date, each as
/// its text was written.
pub proof fn lemma_clock_entries(time: Seq<char>, date: Seq<char>)
    ensures
        clock_entries(time, date).len() == 2,
        clock_entries(time, date)[0].title == time,
        clock_entries(time, date)[0].meta == "Clock Time"@,
        clock_entries(time, date)[1].title == date,
        clock_entries(time, date)[1].meta == "Clock Date"@,
{
}

/// The clock could not format the time.
#[derive(Debug, Clone, Copy, PartialEq, Eq)]
pub struct ClockFormatError;

impl ClockPlugin {
    /// A plugin with no entries yet.
    pub fn new() -> (r: Self)
        ensures
            r.entries@.len() == 0,
    {
        Self { entries: Vec::new() }
    }

    /// How often the entries are refreshed, in seconds.
    pub fn update_timeout() -> (r: Option<u64>)
        ensures
            r == Some(1u64),
    {
        Some(1)
    }

    /// The entries for a time such as "14:03:59" and a date such as
    /// "Monday,  5. May 2025".
    pub fn entries_for(time: String, date: String) -> (r: Vec<Entry>)
        ensures
            entries_view(r@) == clock_entries(time@, date@),
    {
        let mut r: Vec<Entry> = Vec::new();
        r.push(Entry {
            id: String::from_str("time-entry"),
            title: time,
            action: String::from_str(""),
            meta: String::from_str("Clock Time"),
            command: None,
        });
        r.push(Entry {
            id: String::from_str("date"),
            title: date,
            action: String::from_str(""),
            meta: String::from_str("Clock Date"),
            command: None,
        });
        assert(entries_view(r@) =~= clock_entries(time@, date@));
        r
    }

    /// Shows the instant `now` (seconds and nanoseconds since the Unix
    /// epoch, offset from UTC in seconds) as a time ("%H:%M:%S") and a date
    /// ("%A, %_d. %B %Y"); fails, with no entries, where either cannot be
    /// written.
    pub fn entries_at(&mut self, now: (i64, u32, i32)) -> (r: Result<(), ClockFormatError>)
        ensures
            shows_instant(r, final(self).entries@, now),
    {
        self.entries = Vec::new();
        let time = render(now, "%H:%M:%S");
        let date = render(now, "%A, %_d. %B %Y");
        match (time, date) {
            (Some(time), Some(date)) => {
                self.entries = Self::entries_for(time, date);
                Ok(())
            },
            _ => Err(ClockFormatError),
        }
    }

    /// Shows the current local time and date, both of one reading of the
    /// clock.
    pub fn update_entries(&mut self) -> (r: Result<(), ClockFormatError>)
        ensures
            exists|t: (i64, u32, i32)| #[trigger] shows_instant(r, final(self).entries@, t),
    {
        let now = read_clock();
        let r = self.entries_at(now);
        assert(shows_instant(r, self.entries@, now));
        r
    }
}

} // verus!
