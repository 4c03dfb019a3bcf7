//! Assembling the status text and the tooltip from a payload.

use vstd::prelude::*;
use crate::clock::{RenderOptions, Timestamp, format_time, time_text};
use crate::hijri::{HijriDate, format_hijri_date, hijri_text};
use crate::prayer::label_of;
use crate::schedule::{
    PrayerEntry, TimingField, all_wf, countdown, countdown_hours, countdown_minutes, current_ok,
    is_current, is_next, next_ok, parse_schedule, resolve, schedule_of,
};
use crate::text::{decimal, padded, push_decimal, push_padded};

verus! {

/// The status-bar text shown in place of the tooltip.
pub const STATUS_ICON: &'static str = "󱠧";

/// Width, in characters, to which labels and times are padded in the tooltip.
pub const COLUMN_WIDTH: usize = 20;

/// What a fetched or cached payload holds for rendering: the members of its
/// timings object (absent when there is no such object) and its Hijri date.
#[derive(Clone, Debug)]
pub struct Payload {
    pub timings: Option<Vec<TimingField>>,
    pub hijri: HijriDate,
}

/// The rendered display: a short status text and a multi-line tooltip.
#[derive(Clone, Debug)]
pub struct OutputRecord {
    pub text: String,
    pub tooltip: String,
}

/// Why no display can be rendered from a payload.
#[derive(Clone, Copy, Debug, PartialEq, Eq, Structural)]
pub enum PayloadError {
    /// The payload has no timings object.
    MissingTimings,
}

/// The index of the current prayer at `now`, if there is one.
pub open spec fn current_of(s: Seq<PrayerEntry>, now: Timestamp) -> Option<int> {
    if exists|i: int| is_current(s, now, i) {
        Some(choose|i: int| is_current(s, now, i))
    } else {
        None
    }
}

/// The index of the next prayer at `now`, if there is one.
pub open spec fn next_of(s: Seq<PrayerEntry>, now: Timestamp) -> Option<int> {
    if exists|i: int| is_next(s, now, i) {
        Some(choose|i: int| is_next(s, now, i))
    } else {
        None
    }
}

/// The tooltip header naming the city.
pub open spec fn header_text(city: Seq<char>, arabic: bool) -> Seq<char> {
    if arabic {
        "مواقيت الصلاة في "@ + city
    } else {
        "Prayer Times in "@ + city
    }
}

/// The countdown `in <h>h <m>m`, or its Arabic form.
pub open spec fn countdown_text(hours: nat, minutes: nat, arabic: bool) -> Seq<char> {
    if arabic {
        "بعد "@ + decimal(hours) + " ساعة و "@ + decimal(minutes) + " دقيقة"@
    } else {
        "in "@ + decimal(hours) + "h "@ + decimal(minutes) + "m"@
    }
}

/// The line announcing the current prayer.
pub open spec fn current_line(e: PrayerEntry, opts: RenderOptions) -> Seq<char> {
    "الآن "@ + label_of(e.prayer, opts.use_arabic) + " "@ + padded(
        time_text(e.time, opts),
        COLUMN_WIDTH as nat,
    ) + "\n"@
}

/// The line announcing the next prayer and the time left until it.
pub open spec fn next_line(e: PrayerEntry, now: Timestamp, opts: RenderOptions) -> Seq<char> {
    let d = e.time.secs - now.secs;
    label_of(e.prayer, opts.use_arabic) + " "@ + countdown_text(
        countdown_hours(d) as nat,
        countdown_minutes(d) as nat,
        opts.use_arabic,
    ) + "\n\n"@
}

/// One line of the full schedule.
pub open spec fn schedule_line(e: PrayerEntry, opts: RenderOptions) -> Seq<char> {
    padded(label_of(e.prayer, opts.use_arabic), COLUMN_WIDTH as nat) + " "@ + time_text(e.time, opts)
        + "\n"@
}

/// The lines of the full schedule, in order.
pub open spec fn schedule_lines(s: Seq<PrayerEntry>, opts: RenderOptions) -> Seq<char>
    decreases s.len(),
{
    if s.len() == 0 {
        Seq::empty()
    } else {
        schedule_lines(s.drop_last(), opts) + schedule_line(s.last(), opts)
    }
}

/// The whole tooltip for schedule `s`: Hijri date, header, the current and
/// next prayer lines where they exist, and the full schedule, with blank
/// lines between the sections.
pub open spec fn tooltip_text(
    hijri: HijriDate,
    city: Seq<char>,
    s: Seq<PrayerEntry>,
    now: Timestamp,
    opts: RenderOptions,
) -> Seq<char> {
    let current = match current_of(s, now) {
        Some(i) => current_line(s[i], opts),
        None => Seq::empty(),
    };
    let next = match next_of(s, now) {
        Some(i) => next_line(s[i], now, opts),
        None => Seq::empty(),
    };
    hijri_text(hijri, opts.use_arabic) + "\n\n"@ + header_text(city, opts.use_arabic) + "\n\n"@
        + current + next + "\n"@ + schedule_lines(s, opts)
}

/// What rendering `payload` for `city` at `now` gives: the output when the
/// payload has a timings object, else the missing-timings error.
pub open spec fn rendered(
    payload: Payload,
    city: Seq<char>,
    opts: RenderOptions,
    now: Timestamp,
    r: Result<OutputRecord, PayloadError>,
) -> bool {
    match payload.timings {
        Some(fields) => r matches Ok(o) && o.text@ == STATUS_ICON@ && o.tooltip@ == tooltip_text(
            payload.hijri,
            city,
            schedule_of(fields@, now),
            now,
            opts,
        ),
        None => r == Err::<OutputRecord, PayloadError>(PayloadError::MissingTimings),
    }
}

proof fn lemma_current_unique(s: Seq<PrayerEntry>, now: Timestamp, r: Option<usize>)
    requires
        current_ok(s, now, r),
    ensures
        match r {
            Some(i) => current_of(s, now) == Some(i as int),
            None => current_of(s, now) is None,
        },
{
    if let Some(i) = r {
        let c = choose|k: int| is_current(s, now, k);
        assert(is_current(s, now, i as int));
        if c < i {
        } else if c > i {
        }
    }
}

proof fn lemma_next_unique(s: Seq<PrayerEntry>, now: Timestamp, r: Option<usize>)
    requires
        next_ok(s, now, r),
    ensures
        match r {
            Some(i) => next_of(s, now) == Some(i as int),
            None => next_of(s, now) is None,
        },
{
    if let Some(i) = r {
        let c = choose|k: int| is_next(s, now, k);
        assert(is_next(s, now, i as int));
        if c < i {
        } else if c > i {
        }
    }
}

/// The countdown text for `hours` and `minutes`: `in 2h 30m`, or the Arabic
/// `بعد 2 ساعة و 30 دقيقة`.
pub fn format_countdown(hours: u64, minutes: u64, use_arabic: bool) -> (r: String)
    ensures
        r@ == countdown_text(hours as nat, minutes as nat, use_arabic),
{
    let mut out = String::new();
    if use_arabic {
        out.append("بعد ");
        push_decimal(&mut out, hours);
        out.append(" ساعة و ");
        push_decimal(&mut out, minutes);
        out.append(" دقيقة");
    } else {
        out.append("in ");
        push_decimal(&mut out, hours);
        out.append("h ");
        push_decimal(&mut out, minutes);
        out.append("m");
    }
    assert(out@ =~= countdown_text(hours as nat, minutes as nat, use_arabic));
    out
}

fn push_schedule_lines(out: &mut String, s: &Vec<PrayerEntry>, opts: RenderOptions)
    requires
        all_wf(s@),
    ensures
        final(out)@ == old(out)@ + schedule_lines(s@, opts),
{
    let mut i: usize = 0;
    while i < s.len()
        invariant
            i <= s@.len(),
            all_wf(s@),
            out@ == old(out)@ + schedule_lines(s@.subrange(0, i as int), opts),
        decreases s.len() - i,
    {
        let e = s[i];
        assert(e.time.wf());
        let ghost before = out@;
        push_padded(out, e.prayer.label(opts.use_arabic), COLUMN_WIDTH);
        out.append(" ");
        let t = format_time(e.time, opts);
        out.append(t.as_str());
        out.append("\n");
        assert(s@.subrange(0, i + 1).drop_last() =~= s@.subrange(0, i as int));
        assert(out@ =~= before + schedule_line(e, opts));
        i = i + 1;
    }
    assert(s@.subrange(0, i as int) =~= s@);
}

fn push_current_line(out: &mut String, e: PrayerEntry, opts: RenderOptions)
    requires
        e.time.wf(),
    ensures
        final(out)@ == old(out)@ + current_line(e, opts),
{
    out.append("الآن ");
    out.append(e.prayer.label(opts.use_arabic));
    out.append(" ");
    let t = format_time(e.time, opts);
    push_padded(out, t.as_str(), COLUMN_WIDTH);
    out.append("\n");
    assert(final(out)@ =~= old(out)@ + current_line(e, opts));
}

fn push_next_line(out: &mut String, e: PrayerEntry, now: Timestamp, opts: RenderOptions)
    requires
        e.time.wf(),
        now.wf(),
        e.time.secs > now.secs,
    ensures
        final(out)@ == old(out)@ + next_line(e, now, opts),
{
    let (hours, minutes) = countdown(e.time, now);
    out.append(e.prayer.label(opts.use_arabic));
    out.append(" ");
    let c = format_countdown(hours, minutes, opts.use_arabic);
    out.append(c.as_str());
    out.append("\n\n");
    assert(final(out)@ =~= old(out)@ + next_line(e, now, opts));
}

/// The tooltip for schedule `s` at `now`.
pub fn render_tooltip(
    hijri: &HijriDate,
    city: &str,
    s: &Vec<PrayerEntry>,
    now: Timestamp,
    opts: RenderOptions,
) -> (r: String)
    requires
        all_wf(s@),
        now.wf(),
    ensures
        r@ == tooltip_text(*hijri, city@, s@, now, opts),
{
    let (current, next) = resolve(s, now);
    proof {
        lemma_current_unique(s@, now, current);
        lemma_next_unique(s@, now, next);
    }
    let mut tooltip = format_hijri_date(hijri, opts.use_arabic);
    tooltip.append("\n\n");
    if opts.use_arabic {
        tooltip.append("مواقيت الصلاة في ");
    } else {
        tooltip.append("Prayer Times in ");
    }
    tooltip.append(city);
    tooltip.append("\n\n");
    let ghost before_current = tooltip@;
    if let Some(i) = current {
        push_current_line(&mut tooltip, s[i], opts);
    }
    let ghost before_next = tooltip@;
    if let Some(i) = next {
        push_next_line(&mut tooltip, s[i], now, opts);
    }
    let ghost before_lines = tooltip@;
    tooltip.append("\n");
    push_schedule_lines(&mut tooltip, s, opts);
    let ghost cur_part = match current_of(s@, now) {
        Some(i) => current_line(s@[i], opts),
        None => Seq::empty(),
    };
    let ghost next_part = match next_of(s@, now) {
        Some(i) => next_line(s@[i], now, opts),
        None => Seq::empty(),
    };
    assert(before_current =~= hijri_text(*hijri, opts.use_arabic) + "\n\n"@ + header_text(
        city@,
        opts.use_arabic,
    ) + "\n\n"@);
    assert(before_next =~= before_current + cur_part);
    assert(before_lines =~= before_next + next_part);
    assert(tooltip@ =~= before_lines + "\n"@ + schedule_lines(s@, opts));
    tooltip
}

/// Renders the display for `payload` in `city` at `now`: the status icon, and
/// a tooltip with the Hijri date, a header, the current prayer, the next
/// prayer with a countdown, and the day's schedule in chronological order.
/// Fails exactly when the payload has no timings object.
pub fn build_output(payload: &Payload, city: &str, opts: RenderOptions, now: Timestamp) -> (r:
    Result<OutputRecord, PayloadError>)
    requires
        now.is_reading(),
    ensures
        rendered(*payload, city@, opts, now, r),
{
    let fields = match &payload.timings {
        Some(f) => f,
        None => {
            return Err(PayloadError::MissingTimings);
        },
    };
    let s = parse_schedule(fields, now);
    let tooltip = render_tooltip(&payload.hijri, city, &s, now, opts);
    Ok(OutputRecord { text: String::from_str(STATUS_ICON), tooltip })
}

/// Rendering is deterministic: two renderings of the same payload, city,
/// options and instant give the same text and tooltip.
pub proof fn lemma_render_idempotent(
    payload: Payload,
    city: Seq<char>,
    opts: RenderOptions,
    now: Timestamp,
    r1: Result<OutputRecord, PayloadError>,
    r2: Result<OutputRecord, PayloadError>,
)
    requires
        rendered(payload, city, opts, now, r1),
        rendered(payload, city, opts, now, r2),
    ensures
        match (r1, r2) {
            (Ok(a), Ok(b)) => a.text@ == b.text@ && a.tooltip@ == b.tooltip@,
            (Err(a), Err(b)) => a == b,
            _ => false,
        },
{
}

/// A payload without a timings object yields the missing-timings error and
/// no output.
pub proof fn lemma_missing_timings_fatal(
    payload: Payload,
    city: Seq<char>,
    opts: RenderOptions,
    now: Timestamp,
    r: Result<OutputRecord, PayloadError>,
)
    requires
        payload.timings is None,
        rendered(payload, city, opts, now, r),
    ensures
        r == Err::<OutputRecord, PayloadError>(PayloadError::MissingTimings),
{
}

} // verus!
