//! The seven canonical prayers and their English and Arabic labels.

use vstd::prelude::*;
use crate::text::same_text;

verus! {

/// A canonical prayer identifier.
#[derive(Clone, Copy, Debug, PartialEq, Eq, Structural)]
pub enum Prayer {
    Fajr,
    Sunrise,
    Dhuhr,
    Asr,
    Maghrib,
    Isha,
    LastThird,
}

/// The key under which a prayer appears in the timings payload, which is also
/// its English label.
pub open spec fn key_of(p: Prayer) -> Seq<char> {
    match p {
        Prayer::Fajr => "Fajr"@,
        Prayer::Sunrise => "Sunrise"@,
        Prayer::Dhuhr => "Dhuhr"@,
        Prayer::Asr => "Asr"@,
        Prayer::Maghrib => "Maghrib"@,
        Prayer::Isha => "Isha"@,
        Prayer::LastThird => "Last Third of the Night"@,
    }
}

/// The Arabic label of a prayer.
pub open spec fn arabic_of(p: Prayer) -> Seq<char> {
    match p {
        Prayer::Fajr => "الفجر"@,
        Prayer::Sunrise => "الشروق"@,
        Prayer::Dhuhr => "الظهر"@,
        Prayer::Asr => "العصر"@,
        Prayer::Maghrib => "المغرب"@,
        Prayer::Isha => "العشاء"@,
        Prayer::LastThird => "الثلث الأخير من الليل"@,
    }
}

/// The label shown for `p`.
pub open spec fn label_of(p: Prayer, arabic: bool) -> Seq<char> {
    if arabic { arabic_of(p) } else { key_of(p) }
}

/// The prayer whose key is `s`, in canonical order of the table.
pub open spec fn prayer_named(s: Seq<char>) -> Option<Prayer> {
    if s == key_of(Prayer::Fajr) {
        Some(Prayer::Fajr)
    } else if s == key_of(Prayer::Sunrise) {
        Some(Prayer::Sunrise)
    } else if s == key_of(Prayer::Dhuhr) {
        Some(Prayer::Dhuhr)
    } else if s == key_of(Prayer::Asr) {
        Some(Prayer::Asr)
    } else if s == key_of(Prayer::Maghrib) {
        Some(Prayer::Maghrib)
    } else if s == key_of(Prayer::Isha) {
        Some(Prayer::Isha)
    } else if s == key_of(Prayer::LastThird) {
        Some(Prayer::LastThird)
    } else {
        None
    }
}

/// What `translate_prayer_name` shows for `name`: the label of a known
/// prayer, or the name itself.
pub open spec fn translated(name: Seq<char>, arabic: bool) -> Seq<char> {
    match prayer_named(name) {
        Some(p) => label_of(p, arabic),
        None => name,
    }
}

impl Prayer {
    /// The payload key, which is also the English label.
    pub fn key(self) -> (r: &'static str)
        ensures
            r@ == key_of(self),
    {
        match self {
            Prayer::Fajr => "Fajr",
            Prayer::Sunrise => "Sunrise",
            Prayer::Dhuhr => "Dhuhr",
            Prayer::Asr => "Asr",
            Prayer::Maghrib => "Maghrib",
            Prayer::Isha => "Isha",
            Prayer::LastThird => "Last Third of the Night",
        }
    }

    /// The label in English or Arabic.
    pub fn label(self, use_arabic: bool) -> (r: &'static str)
        ensures
            r@ == label_of(self, use_arabic),
    {
        if !use_arabic {
            return self.key();
        }
        match self {
            Prayer::Fajr => "الفجر",
            Prayer::Sunrise => "الشروق",
            Prayer::Dhuhr => "الظهر",
            Prayer::Asr => "العصر",
            Prayer::Maghrib => "المغرب",
            Prayer::Isha => "العشاء",
            Prayer::LastThird => "الثلث الأخير من الليل",
        }
    }
}

/// Recognizes a canonical prayer by its payload key.
pub fn prayer_from_key(name: &str) -> (r: Option<Prayer>)
    ensures
        r == prayer_named(name@),
{
    if same_text(name, "Fajr") {
        Some(Prayer::Fajr)
    } else if same_text(name, "Sunrise") {
        Some(Prayer::Sunrise)
    } else if same_text(name, "Dhuhr") {
        Some(Prayer::Dhuhr)
    } else if same_text(name, "Asr") {
        Some(Prayer::Asr)
    } else if same_text(name, "Maghrib") {
        Some(Prayer::Maghrib)
    } else if same_text(name, "Isha") {
        Some(Prayer::Isha)
    } else if same_text(name, "Last Third of the Night") {
        Some(Prayer::LastThird)
    } else {
        None
    }
}

/// The display label of `name` in English or Arabic; names outside the
/// canonical table pass through unchanged.
pub fn translate_prayer_name(name: &str, use_arabic: bool) -> (r: String)
    ensures
        r@ == translated(name@, use_arabic),
{
    match prayer_from_key(name) {
        Some(p) => String::from_str(p.label(use_arabic)),
        None => String::from_str(name),
    }
}

} // verus!
