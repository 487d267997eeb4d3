use vstd::prelude::*;

use lunar_rust::{lunar::LunarRefHelper, solar::{self, SolarRefHelper}};

use crate::date::CalendarDate;
use crate::text::append_str;

verus! {

/// The lunar month of a solar date in lunar_rust's numbering: 1 to 12, negated for a leap month.
pub uninterp spec fn lunar_month_of(y: int, m: int, d: int) -> int;

/// The day of the lunar month of a solar date, as lunar_rust computes it.
pub uninterp spec fn lunar_day_of(y: int, m: int, d: int) -> int;

/// The sexagenary (gan-zhi) name of the lunar year of a solar date, as lunar_rust writes it.
pub uninterp spec fn lunar_year_ganzhi_of(y: int, m: int, d: int) -> Seq<char>;

/// lunar_rust's names of the lunar months, indexed by month number.
pub open spec fn month_names() -> Seq<Seq<char>> {
    seq!["", "正", "二", "三", "四", "五", "六", "七", "八", "九", "十", "冬", "腊"].map_values(
        |s: &str| s@,
    )
}

/// lunar_rust's names of the days of a lunar month, indexed by day.
pub open spec fn day_names() -> Seq<Seq<char>> {
    seq![
        "", "初一", "初二", "初三", "初四", "初五", "初六", "初七", "初八", "初九", "初十",
        "十一", "十二", "十三", "十四", "十五", "十六", "十七", "十八", "十九", "二十",
        "廿一", "廿二", "廿三", "廿四", "廿五", "廿六", "廿七", "廿八", "廿九", "三十",
    ].map_values(|s: &str| s@)
}

/// The Chinese name of lunar month number `m` ("闰" first for a leap month).
pub open spec fn lunar_month_name(m: int) -> Seq<char> {
    if m < 0 {
        "闰"@ + month_names()[-m]
    } else {
        month_names()[m]
    }
}

/// The Chinese name of lunar day `d`.
pub open spec fn lunar_day_name(d: int) -> Seq<char> {
    day_names()[d]
}

/// The short label under a day number: the month's name with "月" on the
/// first day of a lunar month, the day's name otherwise.
pub open spec fn short_label_text(lunar_day: int, month_name: Seq<char>, day_name: Seq<char>) -> Seq<char> {
    if lunar_day == 1 {
        month_name + "月"@
    } else {
        day_name
    }
}

/// The short lunar label of a solar date.
pub open spec fn lunar_label_of(y: int, m: int, d: int) -> Seq<char> {
    short_label_text(
        lunar_day_of(y, m, d),
        lunar_month_name(lunar_month_of(y, m, d)),
        lunar_day_name(lunar_day_of(y, m, d)),
    )
}

/// The label under a date names the lunar month, with "月", on the first day
/// of a lunar month and names the lunar day on every other day.
pub proof fn lemma_label_names_the_day(y: int, m: int, d: int, lunar_day: int, month_name: Seq<char>, day_name: Seq<char>)
    ensures
        lunar_day != 1 ==> short_label_text(lunar_day, month_name, day_name) == day_name,
        lunar_day == 1 ==> short_label_text(lunar_day, month_name, day_name) == month_name + "月"@,
        lunar_day_of(y, m, d) != 1 ==> lunar_label_of(y, m, d) == lunar_day_name(lunar_day_of(y, m, d)),
        lunar_day_of(y, m, d) == 1 ==> lunar_label_of(y, m, d) == lunar_month_name(
            lunar_month_of(y, m, d),
        ) + "月"@,
{
}

/// The lunar dates that the calendar shows: valid solar dates of years 1900 to 2100.
pub open spec fn lunar_supported(date: CalendarDate) -> bool {
    date.valid() && 1900 <= date.year <= 2100
}

/// lunar_rust's lunar day of a solar date
/// (`solar::from_ymd(..).get_lunar().get_day()`), left to the named result `lunar_day_of`.
#[verifier::external_body]
fn lunar_day_number(year: i32, month: u32, day: u32) -> (r: i64)
    requires
        lunar_supported(CalendarDate { year, month, day }),
    ensures
        r == lunar_day_of(year as int, month as int, day as int),
{
    solar::from_ymd(year as i64, month as i64, day as i64).get_lunar().get_day()
}

/// lunar_rust's `get_month_in_chinese` of the lunar date of a solar date:
/// its source looks the month number up in its table of month names, with
/// "闰" in front for a leap month.
#[verifier::external_body]
fn lunar_month_chinese(year: i32, month: u32, day: u32) -> (r: String)
    requires
        lunar_supported(CalendarDate { year, month, day }),
    ensures
        r@ == lunar_month_name(lunar_month_of(year as int, month as int, day as int)),
{
    solar::from_ymd(year as i64, month as i64, day as i64).get_lunar().get_month_in_chinese()
}

/// lunar_rust's `get_day_in_chinese` of the lunar date of a solar date: its
/// source looks the day up in its table of day names.
#[verifier::external_body]
fn lunar_day_chinese(year: i32, month: u32, day: u32) -> (r: String)
    requires
        lunar_supported(CalendarDate { year, month, day }),
    ensures
        r@ == lunar_day_name(lunar_day_of(year as int, month as int, day as int)),
{
    solar::from_ymd(year as i64, month as i64, day as i64).get_lunar().get_day_in_chinese()
}

/// lunar_rust's `get_year_in_gan_zhi` of the lunar date of a solar date, left
/// to the named result `lunar_year_ganzhi_of`.
#[verifier::external_body]
fn lunar_year_ganzhi(year: i32, month: u32, day: u32) -> (r: String)
    requires
        lunar_supported(CalendarDate { year, month, day }),
    ensures
        r@ == lunar_year_ganzhi_of(year as int, month as int, day as int),
{
    solar::from_ymd(year as i64, month as i64, day as i64).get_lunar().get_year_in_gan_zhi()
}

/// The short label from the lunar day and the two names.
pub fn short_label_from(lunar_day: i64, month_name: &str, day_name: &str) -> (r: String)
    ensures
        r@ == short_label_text(lunar_day as int, month_name@, day_name@),
{
    if lunar_day == 1 {
        let mut s = month_name.to_owned();
        append_str(&mut s, "月");
        s
    } else {
        day_name.to_owned()
    }
}

/// The short lunar label shown under a solar date.
pub fn lunar_short_label(date: CalendarDate) -> (r: String)
    requires
        lunar_supported(date),
    ensures
        r@ == lunar_label_of(date.year as int, date.month as int, date.day as int),
{
    let lunar_day = lunar_day_number(date.year, date.month, date.day);
    let month_name = lunar_month_chinese(date.year, date.month, date.day);
    let day_name = lunar_day_chinese(date.year, date.month, date.day);
    short_label_from(lunar_day, month_name.as_str(), day_name.as_str())
}

/// The gan-zhi name of the lunar year of a solar date.
pub fn year_ganzhi(date: CalendarDate) -> (r: String)
    requires
        lunar_supported(date),
    ensures
        r@ == lunar_year_ganzhi_of(date.year as int, date.month as int, date.day as int),
{
    lunar_year_ganzhi(date.year, date.month, date.day)
}

} // verus!
