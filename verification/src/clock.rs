//! Calendar arithmetic: what `chrono` reads, writes and knows of the local
//! time zone, over plain integers. An instant is a number of milliseconds since
//! 1970-01-01 00:00 UTC; a wall-clock reading is the instant at which UTC clocks
//! show it; a day is its number in the proleptic Gregorian calendar (day 1 is
//! January 1 of year 1).
use vstd::prelude::*;
use crate::text;
use chrono::{Datelike, Offset, TimeZone};

verus! {

/// First and last instant of `chrono`'s calendar.
pub const FIRST_MS: i64 = -8_334_601_228_800_000;

pub const LAST_MS: i64 = 8_210_266_876_799_999;

/// Milliseconds of a day.
pub const DAY_MS: i64 = 86_400_000;

/// First and last day of `chrono`'s calendar.
pub const FIRST_DAY: i32 = -95_746_129;

pub const LAST_DAY: i32 = 95_745_399;

/// The day on which the Unix epoch begins.
pub const EPOCH_DAY: i64 = 719_163;

/// The wall-clock reading that `chrono::NaiveDateTime::parse_from_str` finds in
/// a text by a format: its seconds, and the nanoseconds beyond them, a billion or
/// more in a leap second.
pub uninterp spec fn reading_of_text(text: Seq<char>, format: Seq<char>) -> Option<(i64, u32)>;

/// `chrono::NaiveDateTime::parse_from_str`: the wall-clock reading spelled by
/// the text in that format; it lies within the calendar, and a leap second is the
/// second before it with a billion nanoseconds more.
#[verifier::external_body]
fn parse_reading(text: &str, format: &str) -> (r: Option<(i64, u32)>)
    ensures
        r == reading_of_text(text@, format@),
        r matches Some(p) ==> FIRST_MS <= p.0 * 1000 && p.0 * 1000 + 999 <= LAST_MS && p.1 < 2_000_000_000,
{
    match chrono::NaiveDateTime::parse_from_str(text, format) {
        Ok(wall) => Some((wall.and_utc().timestamp(), wall.and_utc().timestamp_subsec_nanos())),
        Err(_) => None,
    }
}

/// A wall-clock reading: what clocks show, and whether that is a leap second; of one,
/// `ms` is what clocks show in the second before it.
#[derive(Debug, Clone, Copy, PartialEq, Eq, Structural)]
pub struct Wall {
    pub ms: i64,
    pub leap: bool,
}

impl Wall {
    /// The reading as plain milliseconds; a leap second counts as the second after it.
    pub open spec fn flat(self) -> int {
        if self.leap {
            self.ms + 1000
        } else {
            self.ms as int
        }
    }

    /// The day that the reading is on.
    pub open spec fn day(self) -> int {
        self.ms as int / (DAY_MS as int) + EPOCH_DAY
    }

    /// A reading within the calendar.
    pub open spec fn valid(self) -> bool {
        FIRST_MS <= self.ms <= LAST_MS
    }

    /// The day that the reading is on.
    pub fn written_day(self) -> (d: i32)
        requires
            self.valid(),
        ensures
            d == self.day(),
            FIRST_DAY <= d <= LAST_DAY,
    {
        let rest: i64 = self.ms % DAY_MS;
        let whole: i64 = self.ms / DAY_MS;
        let days: i64 = if rest < 0 {
            whole - 1
        } else {
            whole
        };
        (days + EPOCH_DAY) as i32
    }
}

/// The reading at a time of a day, given in milliseconds.
pub open spec fn wall_on(day: i32, time: int) -> Wall {
    Wall { ms: ((day - EPOCH_DAY) * DAY_MS + time) as i64, leap: false }
}

/// The reading at a time of a day, given in milliseconds.
pub(crate) fn wall_at_time(day: i32, time: i64) -> (w: Wall)
    requires
        FIRST_DAY <= day <= LAST_DAY,
        0 <= time < DAY_MS,
    ensures
        w == wall_on(day, time as int),
        w.valid(),
        w.day() == day,
{
    Wall { ms: (day as i64 - EPOCH_DAY) * DAY_MS + time, leap: false }
}

/// The wall-clock reading that a text spells in a format, to the millisecond.
pub open spec fn wall_of_text(text: Seq<char>, format: Seq<char>) -> Option<Wall> {
    match reading_of_text(text, format) {
        Some(p) => Some(
            Wall {
                ms: (p.0 * 1000 + (p.1 % 1_000_000_000) / 1_000_000) as i64,
                leap: p.1 >= 1_000_000_000,
            },
        ),
        None => None,
    }
}

/// The wall-clock reading that a text spells in a format, to the millisecond.
pub(crate) fn parse_wall(text: &str, format: &str) -> (r: Option<Wall>)
    ensures
        r == wall_of_text(text@, format@),
        r matches Some(w) ==> w.valid(),
{
    match parse_reading(text, format) {
        Some((secs, nanos)) => {
            let beyond: i64 = ((nanos % 1_000_000_000) / 1_000_000) as i64;
            Some(Wall { ms: secs * 1000 + beyond, leap: nanos >= 1_000_000_000 })
        },
        None => None,
    }
}

/// The instant that `chrono::DateTime::parse_from_rfc3339` finds in a text.
pub uninterp spec fn instant_of_rfc3339(text: Seq<char>) -> Option<i64>;

/// `chrono::DateTime::parse_from_rfc3339`: the instant that the text spells.
#[verifier::external_body]
pub(crate) fn parse_rfc3339(text: &str) -> (r: Option<i64>)
    ensures
        r == instant_of_rfc3339(text@),
{
    match chrono::DateTime::parse_from_rfc3339(text) {
        Ok(date) => Some(date.timestamp_millis()),
        Err(_) => None,
    }
}

/// The instant at which a clock `offset` seconds east of UTC shows `wall`: none
/// for an offset of a day or more, or outside the calendar.
pub open spec fn instant_at(wall: int, offset: int) -> Option<int> {
    if -86_400 < offset < 86_400 && FIRST_MS <= wall <= LAST_MS && FIRST_MS <= wall - offset * 1000 <= LAST_MS {
        Some(wall - offset * 1000)
    } else {
        None
    }
}

/// `chrono::FixedOffset::east_opt` with `from_local_datetime`: the instant is
/// the wall-clock reading less the offset, where offset and date are in range.
#[verifier::external_body]
pub(crate) fn at_offset(wall: i64, offset: i32) -> (r: Option<i64>)
    ensures
        r matches Some(ms) ==> instant_at(wall as int, offset as int) == Some(ms as int),
        r is None ==> instant_at(wall as int, offset as int) is None,
{
    let wall = chrono::DateTime::from_timestamp_millis(wall)?.naive_utc();
    let zone = chrono::FixedOffset::east_opt(offset)?;
    Some(zone.from_local_datetime(&wall).single()?.timestamp_millis())
}

/// The instant at which a clock `offset` seconds east of UTC shows a reading; a leap
/// second is a second behind the second before it.
pub open spec fn zoned(wall: Wall, offset: int) -> Option<int> {
    match instant_at(wall.ms as int, offset) {
        Some(t) => Some(t + wall.flat() - wall.ms),
        None => None,
    }
}

/// The instant at which a clock `offset` seconds east of UTC shows a reading.
pub fn zone_time(wall: Wall, offset: i32) -> (r: Option<i64>)
    ensures
        match r {
            Some(t) => zoned(wall, offset as int) == Some(t as int),
            None => zoned(wall, offset as int) is None,
        },
{
    match at_offset(wall.ms, offset) {
        Some(t) => Some(
            if wall.leap {
                t + 1000
            } else {
                t
            },
        ),
        None => None,
    }
}

/// Local clocks can show `wall` at an instant, in whatever time zone: they are less
/// than a day ahead of Greenwich or behind it.
pub open spec fn may_show(ms: int, wall: int) -> bool {
    -DAY_MS < wall - ms < DAY_MS
}

/// `chrono::Local` with `from_local_datetime`: the instant at which local clocks show
/// `wall`, the first of the two that are named where there are two, and whether only
/// one is. Which it is, and
/// whether there is one, depends on the machine's time zone; that it is less than
/// a day away, and that there is none outside the calendar, is claimed.
#[verifier::external_body]
pub(crate) fn local_instant(wall: i64) -> (r: Option<(i64, bool)>)
    ensures
        r matches Some(p) ==> FIRST_MS <= wall <= LAST_MS && may_show(p.0 as int, wall as int),
{
    let wall = chrono::DateTime::from_timestamp_millis(wall)?.naive_utc();
    match chrono::Local.from_local_datetime(&wall) {
        chrono::MappedLocalTime::Single(t) => Some((t.timestamp_millis(), true)),
        chrono::MappedLocalTime::Ambiguous(t, _) => Some((t.timestamp_millis(), false)),
        chrono::MappedLocalTime::None => None,
    }
}

/// Local clocks can show a reading at an instant, in whatever time zone; a leap
/// second goes by the second before it.
pub open spec fn may_read(ms: int, wall: Wall) -> bool {
    may_show(ms + wall.ms - wall.flat(), wall.ms as int)
}

/// The instant of a reading, given what a time zone finds for its milliseconds: the
/// first instant, or the only one where there must be just one; a second later in a
/// leap second.
pub open spec fn instant_found(wall: Wall, found: Option<(i64, bool)>, alone: bool) -> Option<int> {
    match found {
        Some(p) => if alone && !p.1 {
            None
        } else {
            Some(p.0 + wall.flat() - wall.ms)
        },
        None => None,
    }
}

/// The instant of a reading, given what a time zone finds for its milliseconds.
pub fn found_time(wall: Wall, found: Option<(i64, bool)>, alone: bool) -> (r: Option<i64>)
    requires
        found matches Some(p) ==> p.0 <= i64::MAX - 1000,
    ensures
        match r {
            Some(t) => instant_found(wall, found, alone) == Some(t as int),
            None => instant_found(wall, found, alone) is None,
        },
{
    match found {
        Some((t, only)) => {
            if alone && !only {
                None
            } else if wall.leap {
                Some(t + 1000)
            } else {
                Some(t)
            }
        },
        None => None,
    }
}

/// The first instant at which local clocks show a reading.
pub fn first_local_time(wall: Wall) -> (r: Option<i64>)
    ensures
        r matches Some(t) ==> may_read(t as int, wall),
{
    found_time(wall, local_instant(wall.ms), false)
}

/// The instant at which local clocks show a reading, where there is just one.
pub fn local_time(wall: Wall) -> (r: Option<i64>)
    ensures
        r matches Some(t) ==> may_read(t as int, wall),
{
    found_time(wall, local_instant(wall.ms), true)
}

/// `chrono::Local` with `timestamp_millis_opt`: what local clocks show at an instant
/// at least a day away from the ends of the calendar. It depends on the machine's
/// time zone; that it is less than a day away is claimed.
#[verifier::external_body]
pub(crate) fn local_wall(ms: i64) -> (r: i64)
    requires
        has_day(ms as int),
    ensures
        may_show(ms as int, r as int),
{
    chrono::Local.timestamp_millis_opt(ms).single().unwrap().naive_local().and_utc().timestamp_millis()
}

/// How `chrono::NaiveDateTime` writes a wall-clock reading as date and time of day.
pub uninterp spec fn text_of_wall(wall: i64) -> Seq<char>;

/// `chrono::NaiveDateTime::format` with `%Y-%m-%d %H:%M:%S`: the reading in writing.
#[verifier::external_body]
pub(crate) fn wall_text(wall: i64) -> (r: String)
    requires
        FIRST_MS <= wall <= LAST_MS,
    ensures
        r@ == text_of_wall(wall),
{
    chrono::DateTime::from_timestamp_millis(wall).unwrap().naive_utc().format("%Y-%m-%d %H:%M:%S").to_string()
}

/// An instant at least a day away from the ends of the calendar.
pub open spec fn has_day(ms: int) -> bool {
    FIRST_MS + DAY_MS <= ms <= LAST_MS - DAY_MS
}

/// A day can be the local one at an instant, in whatever time zone: clocks are
/// less than a day ahead of Greenwich or behind it.
pub open spec fn may_be_day(ms: int, day: i32) -> bool {
    &&& FIRST_DAY <= day <= LAST_DAY
    &&& -1 <= day - (ms / (DAY_MS as int) + EPOCH_DAY) <= 1
}

/// An instant of the calendar.
pub open spec fn in_calendar(ms: int) -> bool {
    FIRST_MS <= ms <= LAST_MS
}

/// `chrono::Local` with `timestamp_millis_opt`: the local day at an instant of the
/// calendar, where that is a day of the calendar. Which day it is, and whether there
/// is one at the ends of the calendar, depends on the machine's time zone; that it is
/// at most one away from Greenwich's is claimed.
#[verifier::external_body]
fn local_day_shown(ms: i64) -> (r: Option<i32>)
    ensures
        r matches Some(day) ==> in_calendar(ms as int) && may_be_day(ms as int, day),
        has_day(ms as int) ==> r is Some,
{
    let at = chrono::Local.timestamp_millis_opt(ms).single()?;
    let wall = at.naive_utc().checked_add_offset(at.offset().fix())?;
    Some(wall.date().num_days_from_ce())
}

/// The local day at an instant; none outside the calendar. Within a day of its ends
/// the time zone decides whether there is one.
pub fn local_day(ms: i64) -> (r: Option<i32>)
    ensures
        match r {
            Some(day) => in_calendar(ms as int) && may_be_day(ms as int, day),
            None => !has_day(ms as int),
        },
{
    local_day_shown(ms)
}

/// A year, and behind it month, day, hour, minute and second as two digits each.
pub open spec fn time_in_writing(s: Seq<char>) -> bool {
    let n = s.len();
    &&& n >= 19
    &&& s[n - 15] == '-' && s[n - 12] == '-' && s[n - 9] == 'T' && s[n - 6] == '-' && s[n - 3] == '-'
    &&& forall|i: int| n - 14 <= i < n && i != n - 12 && i != n - 9 && i != n - 6 && i != n - 3 ==> text::digit(#[trigger] s[i])
}

/// `chrono::Utc::now` written by `%Y-%m-%dT%H-%M-%S`: the present time of the world,
/// in that form. Nothing is said of which time it is.
#[verifier::external_body]
pub(crate) fn utc_wall_text() -> (r: String)
    ensures
        time_in_writing(r@),
{
    chrono::Utc::now().format("%Y-%m-%dT%H-%M-%S").to_string()
}

/// Two digits, a colon, two digits.
pub open spec fn hour_and_minute(s: Seq<char>) -> bool {
    &&& s.len() == 5
    &&& s[2] == ':'
    &&& text::digit(s[0]) && text::digit(s[1]) && text::digit(s[3]) && text::digit(s[4])
}

/// `chrono::Local::now` written by `%H:%M`: the present local time, hour and minute
/// as two digits each. Nothing is said of which time it is.
#[verifier::external_body]
pub(crate) fn local_clock_text() -> (r: String)
    ensures
        hour_and_minute(r@),
{
    chrono::Local::now().format("%H:%M").to_string()
}

/// How `chrono::NaiveDate` writes a day as year, month and day.
pub uninterp spec fn text_of_day(day: i32) -> Seq<char>;

/// `chrono::NaiveDate::format` with `%Y-%m-%d`: the day's date in writing.
#[verifier::external_body]
pub(crate) fn day_text(day: i32) -> (r: String)
    requires
        FIRST_DAY <= day <= LAST_DAY,
    ensures
        r@ == text_of_day(day),
{
    chrono::NaiveDate::from_num_days_from_ce_opt(day).unwrap().format("%Y-%m-%d").to_string()
}

/// The day that `chrono::NaiveDate::parse_from_str` finds in a text by `%Y-%m-%d`.
pub uninterp spec fn day_of_text(text: Seq<char>) -> Option<i32>;

/// `chrono::NaiveDate::parse_from_str` with `%Y-%m-%d`: the day that the text spells.
#[verifier::external_body]
pub(crate) fn parse_day(text: &str) -> (r: Option<i32>)
    ensures
        r == day_of_text(text@),
        r matches Some(day) ==> FIRST_DAY <= day <= LAST_DAY,
{
    match chrono::NaiveDate::parse_from_str(text, "%Y-%m-%d") {
        Ok(date) => Some(date.num_days_from_ce()),
        Err(_) => None,
    }
}

/// The year and the month that a day belongs to, by `chrono::Datelike`.
pub uninterp spec fn month_of_day(day: i32) -> (i32, u32);

/// `chrono::Datelike::year` and `month`: the calendar month of the day.
#[verifier::external_body]
pub(crate) fn day_month(day: i32) -> (r: (i32, u32))
    requires
        FIRST_DAY <= day <= LAST_DAY,
    ensures
        r == month_of_day(day),
        1 <= r.1 <= 12,
{
    let date = chrono::NaiveDate::from_num_days_from_ce_opt(day).unwrap();
    (date.year(), date.month())
}

/// Local days of instants, as far as they were looked up.
pub struct LocalDays {
    rows: Vec<(i64, i32)>,
}

/// The days that a list of rows gives; of two rows for one instant the later counts.
pub closed spec fn days_view(s: Seq<(i64, i32)>) -> Map<int, i32>
    decreases s.len(),
{
    if s.len() == 0 {
        Map::empty()
    } else {
        days_view(s.subrange(0, s.len() - 1)).insert(s[s.len() - 1].0 as int, s[s.len() - 1].1)
    }
}

/// Every day lies within the calendar.
pub open spec fn days_valid(m: Map<int, i32>) -> bool {
    forall|t: int| #[trigger] m.contains_key(t) ==> FIRST_DAY <= m[t] <= LAST_DAY
}

/// The days could be looked up so in some time zone.
pub open spec fn days_looked_up(m: Map<int, i32>) -> bool {
    forall|t: int| #[trigger] m.contains_key(t) ==> in_calendar(t) && may_be_day(t, m[t])
}

/// Where two maps agree beside an instant, they know the same other instants.
pub(crate) proof fn others_stay(before: Map<int, i32>, after: Map<int, i32>, t: int)
    requires
        before.remove(t) == after.remove(t),
    ensures
        forall|u: int| u != t ==> (#[trigger] after.contains_key(u) <==> before.contains_key(u)),
{
    assert forall|u: int| u != t implies (#[trigger] after.contains_key(u) <==> before.contains_key(u)) by {
        assert(after.remove(t).contains_key(u) == after.contains_key(u));
        assert(before.remove(t).contains_key(u) == before.contains_key(u));
    }
}

/// The day of an instant.
pub open spec fn day_at(m: Map<int, i32>, t: int) -> Option<i32> {
    if m.contains_key(t) {
        Some(m[t])
    } else {
        None
    }
}

proof fn days_lookup(s: Seq<(i64, i32)>, t: i64, from: int)
    requires
        0 <= from <= s.len(),
        forall|j: int| from <= j < s.len() ==> (#[trigger] s[j]).0 != t,
    ensures
        from == 0 ==> !days_view(s).contains_key(t as int),
        from > 0 && s[from - 1].0 == t ==> days_view(s).contains_key(t as int) && days_view(s)[t as int] == s[from
            - 1].1,
    decreases s.len(),
{
    if s.len() > from {
        assert(s[s.len() - 1].0 != t);
        days_lookup(s.subrange(0, s.len() - 1), t, from);
    }
}

impl LocalDays {
    pub closed spec fn view(&self) -> Map<int, i32> {
        days_view(self.rows@)
    }

    /// No instant looked up yet.
    pub fn new() -> (d: LocalDays)
        ensures
            d@ == Map::<int, i32>::empty(),
    {
        LocalDays { rows: Vec::new() }
    }

    /// The day of an instant, where one was given.
    pub fn get(&self, t: i64) -> (r: Option<i32>)
        ensures
            r == day_at(self@, t as int),
    {
        let mut i: usize = self.rows.len();
        while i > 0
            invariant
                i <= self.rows@.len(),
                forall|j: int| i <= j < self.rows@.len() ==> (#[trigger] self.rows@[j]).0 != t,
            decreases i,
        {
            if self.rows[i - 1].0 == t {
                proof {
                    days_lookup(self.rows@, t, i as int);
                }
                return Some(self.rows[i - 1].1);
            }
            i -= 1;
        }
        proof {
            days_lookup(self.rows@, t, 0);
        }
        None
    }

    /// Gives the day of an instant.
    pub fn insert(&mut self, t: i64, day: i32)
        ensures
            final(self)@ == old(self)@.insert(t as int, day),
    {
        let ghost before = self.rows@;
        self.rows.push((t, day));
        assert(self.rows@.subrange(0, self.rows@.len() - 1) =~= before);
    }

    /// Looks up the local day of an instant, once: it is known afterwards, where the
    /// instant has one, and the other days are those that were known.
    pub fn look_up(&mut self, t: i64)
        requires
            days_looked_up(old(self)@),
        ensures
            days_looked_up(final(self)@),
            has_day(t as int) ==> final(self)@.contains_key(t as int),
            old(self)@.contains_key(t as int) || !in_calendar(t as int) ==> final(self)@ == old(self)@,
            final(self)@.remove(t as int) == old(self)@.remove(t as int),
    {
        if self.get(t).is_none() {
            match local_day(t) {
                Some(day) => {
                    self.insert(t, day);
                },
                None => {},
            }
        }
        assert(self@.remove(t as int) =~= old(self)@.remove(t as int));
    }
}

/// `std::time::SystemTime` against the Unix epoch: whole seconds and the
/// nanoseconds beyond, or nothing before the epoch. Only the bound of the
/// nanoseconds is claimed.
#[verifier::external_body]
pub(crate) fn since_epoch() -> (r: Option<(u64, u32)>)
    ensures
        r matches Some(t) ==> t.1 < 1_000_000_000,
{
    let since = std::time::SystemTime::now().duration_since(std::time::UNIX_EPOCH).ok()?;
    Some((since.as_secs(), since.subsec_nanos()))
}

/// Milliseconds of a time since the epoch, in 64 bits; 0 before the epoch.
pub open spec fn epoch_millis(t: Option<(u64, u32)>) -> i64 {
    match t {
        Some(p) => (p.0 * 1000 + p.1 / 1_000_000) as i64,
        None => 0,
    }
}

/// Seconds of a time since the epoch, in 64 bits; 0 before the epoch.
pub open spec fn epoch_seconds(t: Option<(u64, u32)>) -> i64 {
    match t {
        Some(p) => p.0 as i64,
        None => 0,
    }
}

/// Milliseconds of a time since the epoch, in 64 bits; 0 before the epoch.
pub fn millis_since(t: Option<(u64, u32)>) -> (ms: i64)
    ensures
        ms == epoch_millis(t),
{
    match t {
        Some((secs, nanos)) => (secs as u128 * 1000 + (nanos / 1_000_000) as u128) as i64,
        None => 0,
    }
}

/// Seconds of a time since the epoch, in 64 bits; 0 before the epoch.
pub fn seconds_since(t: Option<(u64, u32)>) -> (s: i64)
    ensures
        s == epoch_seconds(t),
{
    match t {
        Some((secs, _)) => secs as i64,
        None => 0,
    }
}

/// A number cut to the bounds of `i64`.
pub open spec fn clamped(n: int) -> int {
    if n < i64::MIN {
        i64::MIN as int
    } else if n > i64::MAX {
        i64::MAX as int
    } else {
        n
    }
}

/// The difference of two times, cut to the bounds of `i64`.
pub fn minus(a: i64, b: i64) -> (r: i64)
    ensures
        r == clamped(a - b),
{
    let d: i128 = a as i128 - b as i128;
    if d < -0x8000_0000_0000_0000 {
        i64::MIN
    } else if d > 0x7fff_ffff_ffff_ffff {
        i64::MAX
    } else {
        d as i64
    }
}

} // verus!
