//! Building a day's schedule from the payload's timings and finding the
//! current and next prayer.

use vstd::prelude::*;
use crate::clock::{Timestamp, at_time_of_day, parse_hour_minute, parsed_hour_minute};
use crate::prayer::{Prayer, prayer_from_key, prayer_named};

verus! {

/// One prayer of the day at its instant.
#[derive(Clone, Copy, Debug, PartialEq, Eq, Structural)]
pub struct PrayerEntry {
    pub prayer: Prayer,
    pub time: Timestamp,
}

/// One member of the payload's timings object: its key and, when the value
/// is a string, that string.
#[derive(Clone, Debug)]
pub struct TimingField {
    pub key: String,
    pub value: Option<String>,
}

/// The entry a timings member yields: a canonical key with a time of day that
/// parses, placed on the local day of `now`.
pub open spec fn entry_of(key: Seq<char>, value: Option<Seq<char>>, now: Timestamp) -> Option<
    PrayerEntry,
> {
    match (prayer_named(key), value) {
        (Some(p), Some(v)) => match parsed_hour_minute(v) {
            Some((h, m)) => if h < 24 && m < 60 {
                Some(PrayerEntry { prayer: p, time: now.at_time_of_day(h as int, m as int) })
            } else {
                None
            },
            None => None,
        },
        _ => None,
    }
}

/// The view of an optional string.
pub open spec fn opt_view(v: Option<String>) -> Option<Seq<char>> {
    match v {
        Some(s) => Some(s@),
        None => None,
    }
}

/// The entries yielded by `fields`, in payload order; members with an
/// unrecognized key or without a readable time are dropped.
pub open spec fn collected(fields: Seq<TimingField>, now: Timestamp) -> Seq<PrayerEntry>
    decreases fields.len(),
{
    if fields.len() == 0 {
        Seq::empty()
    } else {
        let rest = collected(fields.drop_last(), now);
        match entry_of(fields.last().key@, opt_view(fields.last().value), now) {
            Some(e) => rest.push(e),
            None => rest,
        }
    }
}

/// Entries ascending by instant.
pub open spec fn is_sorted(s: Seq<PrayerEntry>) -> bool {
    forall|i: int, j: int| 0 <= i < j < s.len() ==> s[i].time.secs <= s[j].time.secs
}

/// Every entry's timestamp is well-formed.
pub open spec fn all_wf(s: Seq<PrayerEntry>) -> bool {
    forall|i: int| 0 <= i < s.len() ==> (#[trigger] s[i]).time.wf()
}

/// Where an entry at `t` goes in `s` so that the order stays ascending and it
/// comes after every entry at the same instant: after the last entry at or
/// before `t`.
pub open spec fn insert_pos(s: Seq<PrayerEntry>, t: int) -> int
    decreases s.len(),
{
    if s.len() == 0 {
        0
    } else if s.last().time.secs <= t {
        s.len() as int
    } else {
        insert_pos(s.drop_last(), t)
    }
}

/// `s` ordered ascending by instant; entries at equal instants keep their order.
pub open spec fn sorted_schedule(s: Seq<PrayerEntry>) -> Seq<PrayerEntry>
    decreases s.len(),
{
    if s.len() == 0 {
        Seq::empty()
    } else {
        let r = sorted_schedule(s.drop_last());
        r.insert(insert_pos(r, s.last().time.secs as int), s.last())
    }
}

/// The schedule of the day of `now` that a timings object describes.
pub open spec fn schedule_of(fields: Seq<TimingField>, now: Timestamp) -> Seq<PrayerEntry> {
    sorted_schedule(collected(fields, now))
}

/// Index `i` is the current prayer at `now`: at or before `now`, and every
/// later entry is after `now`.
pub open spec fn is_current(s: Seq<PrayerEntry>, now: Timestamp, i: int) -> bool {
    0 <= i < s.len() && s[i].time.secs <= now.secs && forall|j: int|
        i < j < s.len() ==> s[j].time.secs > now.secs
}

/// Index `i` is the next prayer at `now`: after `now`, and every earlier
/// entry is at or before `now`.
pub open spec fn is_next(s: Seq<PrayerEntry>, now: Timestamp, i: int) -> bool {
    0 <= i < s.len() && s[i].time.secs > now.secs && forall|j: int|
        0 <= j < i ==> s[j].time.secs <= now.secs
}

/// What `resolve` returns for the current prayer.
pub open spec fn current_ok(s: Seq<PrayerEntry>, now: Timestamp, r: Option<usize>) -> bool {
    match r {
        Some(i) => is_current(s, now, i as int),
        None => forall|j: int| 0 <= j < s.len() ==> s[j].time.secs > now.secs,
    }
}

/// What `resolve` returns for the next prayer.
pub open spec fn next_ok(s: Seq<PrayerEntry>, now: Timestamp, r: Option<usize>) -> bool {
    match r {
        Some(i) => is_next(s, now, i as int),
        None => forall|j: int| 0 <= j < s.len() ==> s[j].time.secs <= now.secs,
    }
}

proof fn lemma_entry_wf(key: Seq<char>, value: Option<Seq<char>>, now: Timestamp)
    requires
        now.is_reading(),
    ensures
        entry_of(key, value, now) matches Some(e) ==> e.time.wf(),
{
    if let (Some(p), Some(v)) = (prayer_named(key), value) {
        if let Some((h, m)) = parsed_hour_minute(v) {
            if h < 24 && m < 60 {
                crate::clock::lemma_time_of_day_wf(now, h as int, m as int);
            }
        }
    }
}

proof fn lemma_insert_pos(s: Seq<PrayerEntry>, t: int)
    requires
        is_sorted(s),
    ensures
        0 <= insert_pos(s, t) <= s.len(),
        forall|i: int| 0 <= i < insert_pos(s, t) ==> s[i].time.secs <= t,
        forall|i: int| insert_pos(s, t) <= i < s.len() ==> s[i].time.secs > t,
    decreases s.len(),
{
    if s.len() > 0 {
        let d = s.drop_last();
        assert(is_sorted(d));
        if s.last().time.secs > t {
            lemma_insert_pos(d, t);
            assert forall|i: int| insert_pos(s, t) <= i < s.len() implies s[i].time.secs > t by {
                if i < s.len() - 1 {
                    assert(s[i] == d[i]);
                }
            }
            assert forall|i: int| 0 <= i < insert_pos(s, t) implies s[i].time.secs <= t by {
                assert(s[i] == d[i]);
            }
        } else {
            assert forall|i: int| 0 <= i < insert_pos(s, t) implies s[i].time.secs <= t by {
                if i < s.len() - 1 {
                    assert(s[i].time.secs <= s[s.len() - 1].time.secs);
                }
            }
        }
    }
}

/// Ordering a schedule yields ascending order, keeps its length, and keeps
/// well-formed timestamps well-formed.
pub proof fn lemma_sorted_schedule(s: Seq<PrayerEntry>)
    ensures
        is_sorted(sorted_schedule(s)),
        sorted_schedule(s).len() == s.len(),
        all_wf(s) ==> all_wf(sorted_schedule(s)),
    decreases s.len(),
{
    if s.len() > 0 {
        let r = sorted_schedule(s.drop_last());
        lemma_sorted_schedule(s.drop_last());
        let e = s.last();
        let p = insert_pos(r, e.time.secs as int);
        lemma_insert_pos(r, e.time.secs as int);
        r.insert_ensures(p, e);
        let q = r.insert(p, e);
        assert forall|i: int, j: int| 0 <= i < j < q.len() implies q[i].time.secs
            <= q[j].time.secs by {
            if j < p {
            } else if j == p {
            } else if i < p {
                assert(q[j] == r[j - 1]);
            } else if i == p {
                assert(q[j] == r[j - 1]);
            } else {
                assert(q[i] == r[i - 1]);
                assert(q[j] == r[j - 1]);
            }
        }
        if all_wf(s) {
            assert(all_wf(s.drop_last()));
            assert forall|i: int| 0 <= i < q.len() implies (#[trigger] q[i]).time.wf() by {
                if i < p {
                } else if i == p {
                } else {
                    assert(q[i] == r[i - 1]);
                }
            }
        }
    }
}

/// Every entry collected from a timings object is well-formed.
pub proof fn lemma_collected_wf(fields: Seq<TimingField>, now: Timestamp)
    requires
        now.is_reading(),
    ensures
        all_wf(collected(fields, now)),
    decreases fields.len(),
{
    if fields.len() > 0 {
        lemma_collected_wf(fields.drop_last(), now);
        lemma_entry_wf(fields.last().key@, opt_view(fields.last().value), now);
    }
}

/// The schedule of a timings object is ascending and well-formed.
pub proof fn lemma_schedule_of(fields: Seq<TimingField>, now: Timestamp)
    requires
        now.is_reading(),
    ensures
        is_sorted(schedule_of(fields, now)),
        all_wf(schedule_of(fields, now)),
{
    lemma_collected_wf(fields, now);
    lemma_sorted_schedule(collected(fields, now));
}

/// The entries of the canonical prayers among `fields`, each at its time of
/// day on the local date of `now`, in payload order.
pub fn collect_entries(fields: &Vec<TimingField>, now: Timestamp) -> (r: Vec<PrayerEntry>)
    requires
        now.is_reading(),
    ensures
        r@ == collected(fields@, now),
{
    let mut out: Vec<PrayerEntry> = Vec::new();
    let mut i: usize = 0;
    while i < fields.len()
        invariant
            i <= fields@.len(),
            now.is_reading(),
            out@ == collected(fields@.subrange(0, i as int), now),
        decreases fields.len() - i,
    {
        let f = &fields[i];
        let ghost pre = fields@.subrange(0, i as int);
        assert(fields@.subrange(0, i + 1).drop_last() =~= pre);
        match prayer_from_key(f.key.as_str()) {
            Some(p) => {
                match &f.value {
                    Some(v) => {
                        match parse_hour_minute(v.as_str()) {
                            Some((h, m)) => {
                                out.push(PrayerEntry { prayer: p, time: at_time_of_day(now, h, m) });
                            },
                            None => {},
                        }
                    },
                    None => {},
                }
            },
            None => {},
        }
        i = i + 1;
    }
    assert(fields@.subrange(0, i as int) =~= fields@);
    out
}

/// Orders entries ascending by instant; entries at equal instants keep their
/// relative order.
pub fn sort_schedule(entries: Vec<PrayerEntry>) -> (r: Vec<PrayerEntry>)
    ensures
        r@ == sorted_schedule(entries@),
        is_sorted(r@),
        r@.len() == entries@.len(),
{
    let mut out: Vec<PrayerEntry> = Vec::new();
    let mut i: usize = 0;
    while i < entries.len()
        invariant
            i <= entries@.len(),
            out@ == sorted_schedule(entries@.subrange(0, i as int)),
        decreases entries.len() - i,
    {
        let e = entries[i];
        let t = e.time.secs;
        let mut j: usize = out.len();
        assert(out@.subrange(0, j as int) =~= out@);
        while j > 0 && out[j - 1].time.secs > t
            invariant
                j <= out@.len(),
                insert_pos(out@.subrange(0, j as int), t as int) == insert_pos(out@, t as int),
            decreases j,
        {
            assert(out@.subrange(0, j as int).drop_last() =~= out@.subrange(0, j - 1));
            j = j - 1;
        }
        assert(insert_pos(out@.subrange(0, j as int), t as int) == j) by {
            if j > 0 {
                assert(out@.subrange(0, j as int).last() == out@[j - 1]);
            }
        }
        assert(entries@.subrange(0, i + 1).drop_last() =~= entries@.subrange(0, i as int));
        out.insert(j, e);
        i = i + 1;
    }
    assert(entries@.subrange(0, i as int) =~= entries@);
    proof {
        lemma_sorted_schedule(entries@);
    }
    out
}

/// The day's schedule from the timings object, ascending by instant.
pub fn parse_schedule(fields: &Vec<TimingField>, now: Timestamp) -> (r: Vec<PrayerEntry>)
    requires
        now.is_reading(),
    ensures
        r@ == schedule_of(fields@, now),
        is_sorted(r@),
        all_wf(r@),
{
    let entries = collect_entries(fields, now);
    proof {
        lemma_schedule_of(fields@, now);
    }
    sort_schedule(entries)
}

fn find_current(schedule: &Vec<PrayerEntry>, now: Timestamp) -> (r: Option<usize>)
    ensures
        current_ok(schedule@, now, r),
{
    let n = schedule.len();
    let mut k: usize = n;
    while k > 0
        invariant
            k <= n == schedule@.len(),
            forall|j: int| k <= j < n ==> schedule@[j].time.secs > now.secs,
        decreases k,
    {
        if schedule[k - 1].time.secs <= now.secs {
            return Some(k - 1);
        }
        k = k - 1;
    }
    None
}

fn find_next(schedule: &Vec<PrayerEntry>, now: Timestamp) -> (r: Option<usize>)
    ensures
        next_ok(schedule@, now, r),
{
    let n = schedule.len();
    let mut i: usize = 0;
    while i < n
        invariant
            i <= n == schedule@.len(),
            forall|j: int| 0 <= j < i ==> schedule@[j].time.secs <= now.secs,
        decreases n - i,
    {
        if schedule[i].time.secs > now.secs {
            return Some(i);
        }
        i = i + 1;
    }
    None
}

/// The indices of the current prayer (the last entry at or before `now`) and
/// of the next prayer (the first entry after `now`), if any.
pub fn resolve(schedule: &Vec<PrayerEntry>, now: Timestamp) -> (r: (Option<usize>, Option<usize>))
    ensures
        current_ok(schedule@, now, r.0),
        next_ok(schedule@, now, r.1),
{
    (find_current(schedule, now), find_next(schedule, now))
}

/// Over an ascending schedule, the current prayer is the latest entry at or
/// before `now` and the next prayer is the earliest entry after `now`; each is
/// absent only when no entry lies on its side of `now`.
pub proof fn lemma_resolution_extremal(
    s: Seq<PrayerEntry>,
    now: Timestamp,
    current: Option<usize>,
    next: Option<usize>,
)
    requires
        is_sorted(s),
        current_ok(s, now, current),
        next_ok(s, now, next),
    ensures
        current matches Some(i) ==> s[i as int].time.secs <= now.secs && forall|j: int|
            0 <= j < s.len() && s[j].time.secs <= now.secs ==> s[j].time.secs
                <= s[i as int].time.secs,
        current is None ==> forall|j: int| 0 <= j < s.len() ==> s[j].time.secs > now.secs,
        next matches Some(i) ==> s[i as int].time.secs > now.secs && forall|j: int|
            0 <= j < s.len() && s[j].time.secs > now.secs ==> s[i as int].time.secs
                <= s[j].time.secs,
        next is None ==> forall|j: int| 0 <= j < s.len() ==> s[j].time.secs <= now.secs,
{
    if let Some(i) = current {
        assert forall|j: int| 0 <= j < s.len() && s[j].time.secs <= now.secs implies s[j].time.secs
            <= s[i as int].time.secs by {
            if j > i {
            } else if j < i {
            }
        }
    }
    if let Some(i) = next {
        assert forall|j: int| 0 <= j < s.len() && s[j].time.secs > now.secs implies s[i as int].time.secs
            <= s[j].time.secs by {
            if j < i {
            } else if j > i {
            }
        }
    }
}

/// Two timings objects with the same keys and values, member by member.
pub open spec fn same_fields(a: Seq<TimingField>, b: Seq<TimingField>) -> bool {
    a.len() == b.len() && forall|i: int|
        0 <= i < a.len() ==> a[i].key@ == b[i].key@ && opt_view(a[i].value) == opt_view(
            b[i].value,
        )
}

/// The schedule depends only on the text of the timings members.
pub proof fn lemma_schedule_same_fields(a: Seq<TimingField>, b: Seq<TimingField>, now: Timestamp)
    requires
        same_fields(a, b),
    ensures
        collected(a, now) == collected(b, now),
        schedule_of(a, now) == schedule_of(b, now),
    decreases a.len(),
{
    if a.len() > 0 {
        assert(same_fields(a.drop_last(), b.drop_last()));
        lemma_schedule_same_fields(a.drop_last(), b.drop_last(), now);
    }
}

/// Whole hours in `d` seconds.
pub open spec fn countdown_hours(d: int) -> int {
    d / 3600
}

/// Whole minutes in `d` seconds beyond the whole hours.
pub open spec fn countdown_minutes(d: int) -> int {
    (d % 3600) / 60
}

/// Time from `now` until `next`, as whole hours and remaining whole minutes
/// (both rounded down).
pub fn countdown(next: Timestamp, now: Timestamp) -> (r: (u64, u64))
    requires
        next.wf(),
        now.wf(),
        next.secs > now.secs,
    ensures
        r.0 == countdown_hours(next.secs - now.secs),
        r.1 == countdown_minutes(next.secs - now.secs),
{
    let d = (next.secs - now.secs) as u64;
    (d / 3600, (d % 3600) / 60)
}

} // verus!
