//! Stages: the windows in which a repository is polled and judged.
use chrono::{DateTime, Local, MappedLocalTime, NaiveDateTime, TimeZone};
use vstd::prelude::*;

use crate::pipeline::judge::{arg_texts, DockerJudge, GitTarget, Invocation};
use crate::text::{decode_text, utf8_text};
use vstd::utf8::{decode_utf8, valid_utf8};

verus! {

/// An instant: whole seconds since the Unix epoch and the nanoseconds past them.
#[derive(Debug, Clone, Copy, PartialEq, Eq, Structural)]
pub struct Moment {
    pub secs: i64,
    pub nanos: u32,
}

/// Whether `a` comes strictly before `b`.
pub open spec fn earlier(a: Moment, b: Moment) -> bool {
    a.secs < b.secs || (a.secs == b.secs && a.nanos < b.nanos)
}

impl Moment {
    /// Whether this instant comes strictly before `other`.
    pub fn is_before(&self, other: &Moment) -> (r: bool)
        ensures
            r == earlier(*self, *other),
    {
        self.secs < other.secs || (self.secs == other.secs && self.nanos < other.nanos)
    }
}

/// `earlier` is transitive.
pub proof fn lemma_earlier_transitive(a: Moment, b: Moment, c: Moment)
    requires
        earlier(a, b),
        earlier(b, c),
    ensures
        earlier(a, c),
{
}

/// The latest instant chrono can represent: the last second of year 262142, in
/// seconds since the Unix epoch.
pub open spec fn latest_representable_secs() -> int {
    8_210_266_876_799
}

/// What a reading of the system clock can be: at or after the Unix epoch, no
/// later than chrono can represent, with fewer than a billion nanoseconds.
pub open spec fn clock_reading(m: Moment) -> bool {
    &&& 0 <= m.secs <= latest_representable_secs()
    &&& m.nanos < 1_000_000_000
}

/// Calls `chrono::Local::now` and gives the instant it reads from the system
/// clock. Nothing ties the reading to anything else; chrono's source shows that
/// a reading it returns lies between the Unix epoch and the latest instant it
/// can represent, with fewer than a billion nanoseconds (it panics where the
/// system clock is outside that range, which no argument can exclude).
#[verifier::external_body]
fn local_now() -> (r: Moment)
    ensures
        clock_reading(r),
{
    let now = Local::now();
    Moment { secs: now.timestamp(), nanos: now.timestamp_subsec_nanos() }
}

/// The date and time that `NaiveDateTime::parse_from_str` reads from `s` by the
/// strftime format `fmt`, as seconds and nanoseconds counted as if it were UTC.
pub uninterp spec fn naive_datetime(s: Seq<char>, fmt: Seq<char>) -> Option<(i64, u32)>;

/// Calls `chrono::NaiveDateTime::parse_from_str`, which reads a date and time
/// without a time zone; its result depends on the text and the format alone.
/// The date and time is handed back as its timestamp counted as if it were UTC.
#[verifier::external_body]
fn naive_datetime_from_str(s: &str, fmt: &str) -> (r: Option<(i64, u32)>)
    ensures
        r == naive_datetime(s@, fmt@),
{
    match NaiveDateTime::parse_from_str(s, fmt) {
        Ok(d) => Some((d.and_utc().timestamp(), d.and_utc().timestamp_subsec_nanos())),
        Err(_) => None,
    }
}

/// Whether `m` is the local date and time `(secs, nanos)` (counted as if it were
/// UTC) moved by a time-zone offset: the nanoseconds are kept and the seconds
/// move by less than a day.
pub open spec fn within_a_day_of(m: Moment, secs: i64, nanos: u32) -> bool {
    &&& m.nanos == nanos
    &&& secs - 86_400 < m.secs < secs + 86_400
}

/// The instants that a local date and time stands for: none (it falls in a
/// gap of the time zone), one, or two (it is repeated).
#[derive(Debug, Clone, Copy, PartialEq, Eq, Structural)]
pub enum LocalMapping {
    Impossible,
    Single(Moment),
    Ambiguous(Moment, Moment),
}

/// The instant a local date and time stands for, where there is exactly one.
pub open spec fn unique_instant(mapping: LocalMapping) -> Option<Moment> {
    match mapping {
        LocalMapping::Single(m) => Some(m),
        _ => None,
    }
}

/// Whether every instant of `mapping` lies within a day of the local date and
/// time `(secs, nanos)` counted as if it were UTC.
pub open spec fn mapping_within_a_day_of(mapping: LocalMapping, secs: i64, nanos: u32) -> bool {
    match mapping {
        LocalMapping::Impossible => true,
        LocalMapping::Single(m) => within_a_day_of(m, secs, nanos),
        LocalMapping::Ambiguous(a, b) => within_a_day_of(a, secs, nanos) && within_a_day_of(
            b,
            secs,
            nanos,
        ),
    }
}

impl LocalMapping {
    /// The instant, where there is exactly one.
    pub fn unique(self) -> (r: Option<Moment>)
        ensures
            r == unique_instant(self),
    {
        match self {
            LocalMapping::Single(m) => Some(m),
            _ => None,
        }
    }
}

/// Calls `chrono::TimeZone::from_local_datetime` on the local time zone, for the
/// local date and time whose timestamp counted as if it were UTC is `(secs,
/// nanos)`. Which instants come back depends on the machine's time zone; chrono's
/// source shows that each is the local time less an offset of under a day, with
/// the nanoseconds kept.
#[verifier::external_body]
fn local_from_naive(secs: i64, nanos: u32) -> (r: LocalMapping)
    ensures
        r matches LocalMapping::Single(m) ==> within_a_day_of(m, secs, nanos),
        r matches LocalMapping::Ambiguous(a, b) ==> within_a_day_of(a, secs, nanos)
            && within_a_day_of(b, secs, nanos),
{
    let naive = match DateTime::from_timestamp(secs, nanos) {
        Some(d) => d.naive_utc(),
        None => return LocalMapping::Impossible,
    };
    match Local.from_local_datetime(&naive) {
        MappedLocalTime::Single(t) => LocalMapping::Single(Moment { secs: t.timestamp(), nanos: t.timestamp_subsec_nanos() }),
        MappedLocalTime::Ambiguous(a, b) => LocalMapping::Ambiguous(Moment { secs: a.timestamp(), nanos: a.timestamp_subsec_nanos() }, Moment { secs: b.timestamp(), nanos: b.timestamp_subsec_nanos() }),
        MappedLocalTime::None => LocalMapping::Impossible,
    }
}

/// Reads a deadline bound written as `YYYY_MM_DD-HH:MM:SS` in local time. The
/// text is read as a local date and time, and the local time zone maps it to
/// instants (handed back, as a ghost value, beside the result). The bound is
/// that instant where there is exactly one; a time skipped or repeated by the
/// time zone, or text not in that format, gives `None`. Every instant lies less
/// than a day from the same date and time read as UTC.
pub fn parse_deadline(s: &str) -> (r: (Option<Moment>, Ghost<LocalMapping>))
    ensures
        r.0 == unique_instant(r.1@),
        naive_datetime(s@, "%Y_%m_%d-%H:%M:%S"@) is None ==> r.1@ == LocalMapping::Impossible,
        naive_datetime(s@, "%Y_%m_%d-%H:%M:%S"@) matches Some(n) ==> mapping_within_a_day_of(
            r.1@,
            n.0,
            n.1,
        ),
        naive_datetime(s@, "%Y_%m_%d-%H:%M:%S"@) is None ==> r.0 is None,
        r.0 matches Some(m) ==> (naive_datetime(s@, "%Y_%m_%d-%H:%M:%S"@) matches Some(n)
            && within_a_day_of(m, n.0, n.1)),
{
    match naive_datetime_from_str(s, "%Y_%m_%d-%H:%M:%S") {
        None => (None, Ghost(LocalMapping::Impossible)),
        Some((secs, nanos)) => {
            let mapping = local_from_naive(secs, nanos);
            (mapping.unique(), Ghost(mapping))
        },
    }
}

/// The window in which a stage accepts work.
#[derive(Debug, Clone, Copy, PartialEq, Eq, Structural)]
pub struct Deadline {
    pub from: Moment,
    pub to: Moment,
}

impl Deadline {
    /// Whether a stage is open, given a first reading of the clock, compared
    /// with the start, and a second one, compared with the end: both bounds
    /// are exclusive.
    pub fn admits(&self, first: Moment, second: Moment) -> (r: bool)
        ensures
            r == (earlier(self.from, first) && earlier(second, self.to)),
    {
        self.from.is_before(&first) && second.is_before(&self.to)
    }

    /// Whether the window is open now. The clock is read once for the start
    /// and, only where that passes, again for the end: the answer is the
    /// window's test on two readings of the clock. So a window that ends by
    /// the Unix epoch is never open, and one that starts before the epoch and
    /// ends after the latest instant chrono can represent is always open.
    pub fn is_open_now(&self) -> (r: bool)
        ensures
            exists|first: Moment, second: Moment|
                clock_reading(first) && clock_reading(second) && r == (earlier(self.from, first)
                    && earlier(second, self.to)),
            !earlier(Moment { secs: 0, nanos: 0 }, self.to) ==> !r,
    {
        let first = local_now();
        if !self.from.is_before(&first) {
            assert(clock_reading(first) && clock_reading(first) && false == (earlier(self.from, first)
                && earlier(first, self.to)));
            return false;
        }
        let second = local_now();
        let r = self.admits(first, second);
        assert(clock_reading(first) && clock_reading(second) && r == (earlier(self.from, first)
            && earlier(second, self.to)));
        r
    }
}

/// A window admits two clock readings that do not go backwards only where its
/// start comes before its end.
pub proof fn lemma_window_needs_order(d: Deadline, first: Moment, second: Moment)
    requires
        earlier(d.from, first),
        earlier(second, d.to),
        !earlier(second, first),
    ensures
        earlier(d.from, d.to),
{
}

/// A stage of the assignment: its window, its judge, and the path it grades.
pub struct Stage {
    pub name: String,
    pub deadline: Deadline,
    pub judge: DockerJudge,
    pub path: String,
}

impl Stage {
    /// The polling script's command line, which asks for a new commit of `target` under this stage's path.
    pub fn polling_command(&self, target: &GitTarget) -> (r: Invocation)
        ensures
            r.program@ == "./scripts/retard_polling.sh"@,
            arg_texts(r.args@) == seq![target.url@, self.path@],
    {
        let mut args: Vec<String> = Vec::new();
        args.push(target.url.clone());
        args.push(self.path.clone());
        let r = Invocation { program: "./scripts/retard_polling.sh".to_owned(), args };
        assert(arg_texts(r.args@) =~= seq![target.url@, self.path@]);
        r
    }

    /// What to run to poll `target` now: nothing where the window is closed,
    /// the polling script's command line where it is open. The window is
    /// tested on two readings of the clock, as `Deadline::is_open_now` does.
    pub fn poll_command(&self, target: &GitTarget) -> (r: Option<Invocation>)
        ensures
            exists|first: Moment, second: Moment|
                clock_reading(first) && clock_reading(second) && (r is Some <==> (earlier(
                    self.deadline.from,
                    first,
                ) && earlier(second, self.deadline.to))),
            r matches Some(inv) ==> inv.program@ == "./scripts/retard_polling.sh"@ && arg_texts(
                inv.args@,
            ) == seq![target.url@, self.path@],
    {
        if self.deadline.is_open_now() {
            Some(self.polling_command(target))
        } else {
            None
        }
    }

    /// Reads the polling script's result: where it succeeded and printed UTF-8
    /// text, that text is the commit to judge; otherwise there is none.
    pub fn poll_outcome(target: GitTarget, success: bool, stdout: Vec<u8>) -> (r: Option<GitTarget>)
        ensures
            !success ==> r is None,
            success && utf8_text(stdout@) is None ==> r is None,
            success && utf8_text(stdout@) is Some ==> r is Some && r->0.url == target.url
                && r->0.commit@ == utf8_text(stdout@)->0,
            success && valid_utf8(stdout@) ==> r is Some && r->0.url == target.url
                && r->0.commit@ == decode_utf8(stdout@),
            r is Some <==> success && valid_utf8(stdout@),
    {
        if !success {
            return None;
        }
        match decode_text(stdout) {
            Some(commit) => Some(target.on_commit(commit)),
            None => None,
        }
    }

    /// The judge script's command line for `target` under this stage's path.
    pub fn trigger_command(&self, target: &GitTarget) -> (r: Invocation)
        ensures
            r.program@ == "./scripts/judge.sh"@,
            arg_texts(r.args@) == seq![
                self.judge.image@,
                target.url@,
                self.path@,
                self.judge.copy_to@,
                self.judge.result_path@,
                target.commit@,
            ],
    {
        self.judge.judge_command(target, self.path.as_str())
    }
}

} // verus!
