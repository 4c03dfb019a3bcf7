//! The Hijri date line of the tooltip.

use vstd::prelude::*;

verus! {

/// The Hijri date fields of a payload; each is absent when the payload lacks
/// it or holds something other than a string there.
#[derive(Clone, Debug)]
pub struct HijriDate {
    pub weekday_en: Option<String>,
    pub weekday_ar: Option<String>,
    pub day: Option<String>,
    pub month_en: Option<String>,
    pub month_ar: Option<String>,
    pub year: Option<String>,
}

/// A field's text, or the placeholder `N/A` when it is absent.
pub open spec fn or_placeholder(v: Option<String>) -> Seq<char> {
    match v {
        Some(s) => s@,
        None => "N/A"@,
    }
}

/// `<weekday> <day> <month> <year>`, with weekday and month in the chosen
/// language.
pub open spec fn hijri_text(h: HijriDate, arabic: bool) -> Seq<char> {
    let weekday = if arabic { h.weekday_ar } else { h.weekday_en };
    let month = if arabic { h.month_ar } else { h.month_en };
    or_placeholder(weekday) + " "@ + or_placeholder(h.day) + " "@ + or_placeholder(month) + " "@
        + or_placeholder(h.year)
}

fn push_field(out: &mut String, v: &Option<String>)
    ensures
        final(out)@ == old(out)@ + or_placeholder(*v),
{
    match v {
        Some(s) => out.append(s.as_str()),
        None => out.append("N/A"),
    }
}

/// The Hijri date as `<weekday> <day> <month> <year>`, in Arabic or English;
/// each missing field reads `N/A`.
pub fn format_hijri_date(h: &HijriDate, use_arabic: bool) -> (r: String)
    ensures
        r@ == hijri_text(*h, use_arabic),
{
    let mut out = String::new();
    push_field(&mut out, if use_arabic { &h.weekday_ar } else { &h.weekday_en });
    out.append(" ");
    push_field(&mut out, &h.day);
    out.append(" ");
    push_field(&mut out, if use_arabic { &h.month_ar } else { &h.month_en });
    out.append(" ");
    push_field(&mut out, &h.year);
    assert(out@ =~= hijri_text(*h, use_arabic));
    out
}

} // verus!
