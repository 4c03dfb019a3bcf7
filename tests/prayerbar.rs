use prayerbar::cache::{is_fresh, CACHE_TTL_SECS};
use prayerbar::clock::{at_time_of_day, format_time, second_of_day, RenderOptions, Timestamp};
use prayerbar::hijri::{format_hijri_date, HijriDate};
use prayerbar::prayer::{prayer_from_key, translate_prayer_name, Prayer};
use prayerbar::render::{build_output, format_countdown, render_tooltip, Payload, PayloadError, STATUS_ICON};
use prayerbar::schedule::{collect_entries, countdown, parse_schedule, resolve, sort_schedule, PrayerEntry, TimingField};
use prayerbar::text::same_text;

const DAY: i64 = 86400;
const BASE_DAY: i64 = 20000;

fn local(hour: i64, minute: i64, offset: i32) -> Timestamp {
    Timestamp { secs: BASE_DAY * DAY + hour * 3600 + minute * 60 - offset as i64, offset }
}

fn opts(use_arabic: bool, use_12_hour: bool) -> RenderOptions {
    RenderOptions { use_arabic, use_12_hour }
}

fn field(key: &str, value: &str) -> TimingField {
    TimingField { key: key.to_string(), value: Some(value.to_string()) }
}

fn day_fields() -> Vec<TimingField> {
    vec![
        field("Asr", "15:30"),
        field("Dhuhr", "12:00"),
        field("Fajr", "05:00"),
        field("Imsak", "04:50"),
        field("Isha", "19:30"),
        field("Maghrib", "18:00"),
    ]
}

fn hijri_full() -> HijriDate {
    HijriDate {
        weekday_en: Some("Al Juma'a".to_string()),
        weekday_ar: Some("الجمعة".to_string()),
        day: Some("14".to_string()),
        month_en: Some("Ramaḍān".to_string()),
        month_ar: Some("رمضان".to_string()),
        year: Some("1446".to_string()),
    }
}

fn hijri_empty() -> HijriDate {
    HijriDate { weekday_en: None, weekday_ar: None, day: None, month_en: None, month_ar: None, year: None }
}

#[test]
fn format_time_twelve_hour_pm() {
    let t = local(13, 0, 0);
    assert_eq!(format_time(t, opts(false, true)), "01:00 PM");
}

#[test]
fn format_time_twelve_hour_arabic() {
    let t = local(13, 0, 0);
    assert_eq!(format_time(t, opts(true, true)), "01:00 م");
    assert_eq!(format_time(local(9, 5, 0), opts(true, true)), "09:05 ص");
}

#[test]
fn format_time_twenty_four_hour() {
    assert_eq!(format_time(local(13, 0, 0), opts(false, false)), "13:00");
    assert_eq!(format_time(local(13, 0, 0), opts(true, false)), "13:00");
    assert_eq!(format_time(local(0, 7, 0), opts(false, false)), "00:07");
}

#[test]
fn format_time_midnight_and_noon_twelve_hour() {
    assert_eq!(format_time(local(0, 0, 0), opts(false, true)), "12:00 AM");
    assert_eq!(format_time(local(12, 30, 0), opts(false, true)), "12:30 PM");
}

#[test]
fn format_time_uses_the_offset() {
    let t = Timestamp { secs: BASE_DAY * DAY + 22 * 3600, offset: 3 * 3600 };
    assert_eq!(format_time(t, opts(false, false)), "01:00");
    let west = Timestamp { secs: BASE_DAY * DAY + 2 * 3600, offset: -5 * 3600 };
    assert_eq!(format_time(west, opts(false, false)), "21:00");
}

#[test]
fn second_of_day_before_epoch() {
    let t = Timestamp { secs: -3600, offset: 0 };
    assert_eq!(second_of_day(t), 23 * 3600);
}

#[test]
fn translate_known_and_unknown() {
    assert_eq!(translate_prayer_name("Fajr", true), "الفجر");
    assert_eq!(translate_prayer_name("Fajr", false), "Fajr");
    assert_eq!(translate_prayer_name("Unknown", true), "Unknown");
    assert_eq!(translate_prayer_name("Unknown", false), "Unknown");
    assert_eq!(translate_prayer_name("Last Third of the Night", true), "الثلث الأخير من الليل");
}

#[test]
fn prayer_keys_are_recognized() {
    assert_eq!(prayer_from_key("Maghrib"), Some(Prayer::Maghrib));
    assert_eq!(prayer_from_key("maghrib"), None);
    assert_eq!(prayer_from_key("Imsak"), None);
    assert_eq!(Prayer::Isha.label(true), "العشاء");
}

#[test]
fn same_text_compares_characters() {
    assert!(same_text("Asr", "Asr"));
    assert!(!same_text("Asr", "Asx"));
    assert!(!same_text("Asr", "As"));
}

#[test]
fn freshness_window() {
    let now = 1_000_000;
    assert!(!is_fresh(None, now, CACHE_TTL_SECS));
    assert!(is_fresh(Some(now - 10799), now, CACHE_TTL_SECS));
    assert!(!is_fresh(Some(now - 10800), now, CACHE_TTL_SECS));
    assert!(is_fresh(Some(now + 50), now, CACHE_TTL_SECS));
}

#[test]
fn freshness_is_monotonic_in_age() {
    let modified = 500_000;
    let mut age = 10799;
    while age >= -10 {
        assert!(is_fresh(Some(modified), modified + age, CACHE_TTL_SECS));
        age -= 1;
    }
    assert!(!is_fresh(Some(i64::MIN), i64::MAX, CACHE_TTL_SECS));
}

#[test]
fn collect_reads_times_of_day() {
    let now = local(13, 0, 0);
    let fields = vec![
        field("Fajr", "05:12"),
        field("Isha", "23:59"),
        field("Asr", "24:00"),
        field("Maghrib", "noon"),
    ];
    let entries = collect_entries(&fields, now);
    assert_eq!(
        entries,
        vec![
            PrayerEntry { prayer: Prayer::Fajr, time: local(5, 12, 0) },
            PrayerEntry { prayer: Prayer::Isha, time: local(23, 59, 0) },
        ]
    );
}

#[test]
fn at_time_of_day_keeps_the_local_date() {
    let now = local(13, 0, 7200);
    let t = at_time_of_day(now, 5, 0);
    assert_eq!(t, local(5, 0, 7200));
}

#[test]
fn collect_drops_unknown_and_unreadable() {
    let now = local(13, 0, 0);
    let fields = vec![
        field("Imsak", "04:50"),
        field("Fajr", "05:00"),
        TimingField { key: "Sunrise".to_string(), value: None },
        field("Dhuhr", "not a time"),
        field("Asr", "15:30"),
    ];
    let entries = collect_entries(&fields, now);
    assert_eq!(
        entries,
        vec![
            PrayerEntry { prayer: Prayer::Fajr, time: local(5, 0, 0) },
            PrayerEntry { prayer: Prayer::Asr, time: local(15, 30, 0) },
        ]
    );
}

#[test]
fn sort_is_ascending_and_stable() {
    let a = PrayerEntry { prayer: Prayer::Asr, time: local(15, 0, 0) };
    let b = PrayerEntry { prayer: Prayer::Fajr, time: local(5, 0, 0) };
    let c = PrayerEntry { prayer: Prayer::Isha, time: local(15, 0, 0) };
    let sorted = sort_schedule(vec![a, b, c]);
    assert_eq!(sorted, vec![b, a, c]);
    assert_eq!(sort_schedule(Vec::new()), Vec::new());
}

#[test]
fn scenario_current_next_countdown() {
    let now = local(13, 0, 10800);
    let s = parse_schedule(&day_fields(), now);
    let names: Vec<Prayer> = s.iter().map(|e| e.prayer).collect();
    assert_eq!(names, vec![Prayer::Fajr, Prayer::Dhuhr, Prayer::Asr, Prayer::Maghrib, Prayer::Isha]);
    let (current, next) = resolve(&s, now);
    assert_eq!(s[current.unwrap()].prayer, Prayer::Dhuhr);
    assert_eq!(s[next.unwrap()].prayer, Prayer::Asr);
    let (h, m) = countdown(s[next.unwrap()].time, now);
    assert_eq!((h, m), (2, 30));
    assert_eq!(format_countdown(h, m, false), "in 2h 30m");
    assert_eq!(format_countdown(h, m, true), "بعد 2 ساعة و 30 دقيقة");
}

#[test]
fn resolve_at_the_edges() {
    let s = parse_schedule(&day_fields(), local(4, 0, 0));
    assert_eq!(resolve(&s, local(4, 0, 0)), (None, Some(0)));
    assert_eq!(resolve(&s, local(5, 0, 0)), (Some(0), Some(1)));
    assert_eq!(resolve(&s, local(23, 0, 0)), (Some(4), None));
    assert_eq!(resolve(&Vec::new(), local(23, 0, 0)), (None, None));
}

#[test]
fn resolve_returns_extremal_entries() {
    let s = parse_schedule(&day_fields(), local(0, 0, 0));
    let mut minute = 0;
    while minute < 24 * 60 {
        let t = local(minute / 60, minute % 60, 0);
        let (current, next) = resolve(&s, t);
        let before: Vec<&PrayerEntry> = s.iter().filter(|e| e.time.secs <= t.secs).collect();
        let after: Vec<&PrayerEntry> = s.iter().filter(|e| e.time.secs > t.secs).collect();
        assert_eq!(current.map(|i| s[i]), before.last().map(|e| **e));
        assert_eq!(next.map(|i| s[i]), after.first().map(|e| **e));
        minute += 7;
    }
}

#[test]
fn countdown_rounds_down() {
    let now = Timestamp { secs: 1000, offset: 0 };
    let next = Timestamp { secs: 1000 + 12 * 3600 + 5 * 60 + 59, offset: 0 };
    assert_eq!(countdown(next, now), (12, 5));
    assert_eq!(format_countdown(12, 5, false), "in 12h 5m");
    assert_eq!(format_countdown(0, 0, false), "in 0h 0m");
}

#[test]
fn hijri_date_formats() {
    assert_eq!(format_hijri_date(&hijri_full(), false), "Al Juma'a 14 Ramaḍān 1446");
    assert_eq!(format_hijri_date(&hijri_full(), true), "الجمعة 14 رمضان 1446");
    assert_eq!(format_hijri_date(&hijri_empty(), false), "N/A N/A N/A N/A");
    let mut partial = hijri_full();
    partial.month_ar = None;
    assert_eq!(format_hijri_date(&partial, true), "الجمعة 14 N/A 1446");
}

#[test]
fn missing_timings_is_fatal() {
    let payload = Payload { timings: None, hijri: hijri_full() };
    let r = build_output(&payload, "Cairo", opts(false, false), local(13, 0, 0));
    assert_eq!(r.err(), Some(PayloadError::MissingTimings));
}

#[test]
fn rendering_twice_is_identical() {
    let payload = Payload { timings: Some(day_fields()), hijri: hijri_full() };
    let now = local(13, 0, 0);
    let a = build_output(&payload, "Cairo", opts(true, true), now).unwrap();
    let b = build_output(&payload, "Cairo", opts(true, true), now).unwrap();
    assert_eq!(a.text, b.text);
    assert_eq!(a.tooltip, b.tooltip);
}

#[test]
fn full_tooltip_in_english() {
    let payload = Payload {
        timings: Some(vec![field("Dhuhr", "12:00"), field("Asr", "15:30"), field("Fajr", "05:00")]),
        hijri: hijri_empty(),
    };
    let r = build_output(&payload, "Cairo", opts(false, false), local(13, 0, 0)).unwrap();
    assert_eq!(r.text, STATUS_ICON);
    let expected = "N/A N/A N/A N/A\n\nPrayer Times in Cairo\n\n\
الآن Dhuhr 12:00               \n\
Asr in 2h 30m\n\n\n\
Fajr                 05:00\n\
Dhuhr                12:00\n\
Asr                  15:30\n";
    assert_eq!(r.tooltip, expected);
}

#[test]
fn full_tooltip_without_current_or_next() {
    let s = vec![PrayerEntry { prayer: Prayer::Fajr, time: local(5, 0, 0) }];
    let t = render_tooltip(&hijri_empty(), "Rabat", &s, local(6, 0, 0), opts(true, true));
    assert_eq!(
        t,
        "N/A N/A N/A N/A\n\nمواقيت الصلاة في Rabat\n\nالآن الفجر 05:00 ص             \n\nالفجر                05:00 ص\n"
    );
    let empty = render_tooltip(&hijri_empty(), "Rabat", &Vec::new(), local(6, 0, 0), opts(false, false));
    assert_eq!(empty, "N/A N/A N/A N/A\n\nPrayer Times in Rabat\n\n\n");
}
