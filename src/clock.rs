//! Fixed-offset timestamps, the wall clock, and 12/24-hour rendering.

use vstd::prelude::*;
use crate::text::{two_digits, push_two_digits};
use chrono::Timelike;

verus! {

/// Seconds in a day.
pub const DAY_SECS: i64 = 86400;

/// Bound on the magnitude of a timestamp's seconds; wider than the range of
/// dates chrono can represent.
pub const MAX_SECS: i64 = 9_000_000_000_000;

/// A point in time (`secs` since the Unix epoch, UTC) paired with a fixed UTC
/// offset (`offset` seconds east of UTC) that decides its local wall-clock time.
#[derive(Clone, Copy, Debug, PartialEq, Eq, Structural)]
pub struct Timestamp {
    pub secs: i64,
    pub offset: i32,
}

/// Display options shared by all formatting operations.
#[derive(Clone, Copy, Debug, PartialEq, Eq, Structural)]
pub struct RenderOptions {
    pub use_arabic: bool,
    pub use_12_hour: bool,
}

impl Timestamp {
    /// Offset strictly within one day, seconds within the representable range.
    pub open spec fn wf(self) -> bool {
        -DAY_SECS < self.offset < DAY_SECS && -MAX_SECS <= self.secs <= MAX_SECS
    }

    /// A well-formed timestamp at least two days inside the bound on seconds,
    /// so that every time of day on its date stays well-formed.
    pub open spec fn is_reading(self) -> bool {
        self.wf() && -(MAX_SECS - 2 * DAY_SECS) <= self.secs <= MAX_SECS - 2 * DAY_SECS
    }

    /// Local wall-clock seconds since the epoch.
    pub open spec fn local_secs(self) -> int {
        self.secs + self.offset
    }

    /// Seconds since local midnight.
    pub open spec fn second_of_day(self) -> int {
        self.local_secs() % (DAY_SECS as int)
    }

    /// Local hour, 0 to 23.
    pub open spec fn hour(self) -> int {
        self.second_of_day() / 3600
    }

    /// Local minute of the hour, 0 to 59.
    pub open spec fn minute(self) -> int {
        (self.second_of_day() % 3600) / 60
    }

    /// The instant on the same local day as `self`, at `hour:minute`, same offset.
    pub open spec fn at_time_of_day(self, hour: int, minute: int) -> Timestamp {
        Timestamp {
            secs: (self.local_secs() - self.second_of_day() + hour * 3600 + minute * 60
                - self.offset) as i64,
            offset: self.offset,
        }
    }
}

/// Shift that makes any local time of a well-formed timestamp non-negative;
/// a whole number of days.
const DAY_BIAS: i64 = 86400 * 200_000_000;

/// Seconds since local midnight of `t`.
pub fn second_of_day(t: Timestamp) -> (r: i64)
    requires
        t.wf(),
    ensures
        r == t.second_of_day(),
        0 <= r < DAY_SECS,
{
    let shifted: i64 = t.secs + t.offset as i64 + DAY_BIAS;
    let r = shifted % DAY_SECS;
    proof {
        vstd::arithmetic::div_mod::lemma_mod_multiples_vanish(
            200_000_000,
            t.local_secs(),
            DAY_SECS as int,
        );
        assert(shifted == DAY_SECS * 200_000_000 + t.local_secs());
    }
    r
}

/// A time of day on the date of a clock reading is well-formed.
pub proof fn lemma_time_of_day_wf(now: Timestamp, hour: int, minute: int)
    requires
        now.is_reading(),
        0 <= hour < 24,
        0 <= minute < 60,
    ensures
        now.at_time_of_day(hour, minute).wf(),
{
    let d = DAY_SECS as int;
    vstd::arithmetic::div_mod::lemma_mod_bound(now.local_secs(), d);
}

/// The timestamp at `hour:minute` on the local day of `now`, in `now`'s offset.
pub fn at_time_of_day(now: Timestamp, hour: u32, minute: u32) -> (r: Timestamp)
    requires
        now.is_reading(),
        hour < 24,
        minute < 60,
    ensures
        r == now.at_time_of_day(hour as int, minute as int),
        r.wf(),
        r.offset == now.offset,
        r.at_time_of_day(hour as int, minute as int) == r,
        r.hour() == hour,
        r.minute() == minute,
{
    let sod = second_of_day(now);
    let local = now.secs + now.offset as i64;
    let secs = local - sod + hour as i64 * 3600 + minute as i64 * 60 - now.offset as i64;
    let r = Timestamp { secs, offset: now.offset };
    proof {
        lemma_time_of_day_wf(now, hour as int, minute as int);
        let d = DAY_SECS as int;
        let base = now.local_secs() - now.second_of_day();
        let k = now.local_secs() / d;
        vstd::arithmetic::div_mod::lemma_fundamental_div_mod(now.local_secs(), d);
        assert(base == d * k);
        let tod = hour * 3600 + minute * 60;
        assert(r.local_secs() == d * k + tod);
        vstd::arithmetic::div_mod::lemma_mod_multiples_vanish(k, tod, d);
        vstd::arithmetic::div_mod::lemma_small_mod(tod as nat, d as nat);
        assert(r.second_of_day() == tod);
        assert((tod / 3600) == hour as int) by (nonlinear_arith)
            requires tod == hour * 3600 + minute * 60, minute < 60, hour < 24;
        assert(tod % 3600 == minute * 60) by (nonlinear_arith)
            requires tod == hour * 3600 + minute * 60, minute < 60, hour < 24;
        assert((minute * 60) / 60 == minute as int) by (nonlinear_arith);
    }
    r
}

/// The 12-hour clock reading of hour `h` (0 to 23): 12, 1, ..., 11.
pub open spec fn hour12(h: int) -> int {
    if h % 12 == 0 { 12 } else { h % 12 }
}

/// The meridiem marker for hour `h`, in English or Arabic.
pub open spec fn meridiem(h: int, arabic: bool) -> Seq<char> {
    if h < 12 {
        if arabic { seq!['ص'] } else { seq!['A', 'M'] }
    } else {
        if arabic { seq!['م'] } else { seq!['P', 'M'] }
    }
}

/// How `t` reads under `opts`: zero-padded `HH:MM`, or in 12-hour mode
/// zero-padded `hh:mm` followed by a space and the meridiem marker.
pub open spec fn time_text(t: Timestamp, opts: RenderOptions) -> Seq<char> {
    if opts.use_12_hour {
        two_digits(hour12(t.hour()) as nat) + seq![':'] + two_digits(t.minute() as nat)
            + seq![' '] + meridiem(t.hour(), opts.use_arabic)
    } else {
        two_digits(t.hour() as nat) + seq![':'] + two_digits(t.minute() as nat)
    }
}

/// Renders the local time of `t` as 24-hour `HH:MM` or 12-hour `hh:mm AM`,
/// with the Arabic meridiem markers when both 12-hour and Arabic are requested.
pub fn format_time(t: Timestamp, opts: RenderOptions) -> (r: String)
    requires
        t.wf(),
    ensures
        r@ == time_text(t, opts),
{
    let sod = second_of_day(t);
    let h = sod / 3600;
    let m = (sod % 3600) / 60;
    assert(0 <= h < 24);
    assert(0 <= m < 60);
    let mut out = String::new();
    proof {
        reveal_strlit(":");
        reveal_strlit(" ");
        reveal_strlit("AM");
        reveal_strlit("PM");
        reveal_strlit("ص");
        reveal_strlit("م");
    }
    if opts.use_12_hour {
        let h12 = if h % 12 == 0 { 12 } else { h % 12 };
        push_two_digits(&mut out, h12 as u64);
        out.append(":");
        push_two_digits(&mut out, m as u64);
        out.append(" ");
        let marker = if h < 12 {
            if opts.use_arabic { "ص" } else { "AM" }
        } else {
            if opts.use_arabic { "م" } else { "PM" }
        };
        out.append(marker);
    } else {
        push_two_digits(&mut out, h as u64);
        out.append(":");
        push_two_digits(&mut out, m as u64);
    }
    assert(out@ =~= time_text(t, opts));
    out
}

/// The hour and minute that chrono reads from `s` with the format `%H:%M`.
pub uninterp spec fn parsed_hour_minute(s: Seq<char>) -> Option<(u32, u32)>;

/// Relies on chrono's `NaiveTime::parse_from_str(s, "%H:%M")` and the
/// `hour` and `minute` of its result, which are below 24 and 60.
#[verifier::external_body]
pub(crate) fn parse_hour_minute(s: &str) -> (r: Option<(u32, u32)>)
    ensures
        r == parsed_hour_minute(s@),
        r matches Some((h, m)) ==> h < 24 && m < 60,
{
    chrono::NaiveTime::parse_from_str(s, "%H:%M").ok().map(|t| (t.hour(), t.minute()))
}

} // verus!
