use yuexu::calendar::{escape_xml, focus_date, footer_caption, month_plan, wallpaper_plan};
use yuexu::date::{days_in_month, parse_date, CalendarDate};
use yuexu::lunar::lunar_short_label;
use yuexu::theme::Theme;

fn date(y: i32, m: u32, d: u32) -> CalendarDate {
    CalendarDate::from_ymd_opt(y, m, d).unwrap()
}

#[test]
fn converts_known_lunar_new_year() {
    assert_eq!(lunar_short_label(date(2025, 1, 29)), "正月");
    assert_eq!(lunar_short_label(date(2025, 1, 30)), "初二");
}

#[test]
fn labels_a_leap_lunar_month() {
    assert_eq!(lunar_short_label(date(2023, 3, 22)), "闰二月");
}

#[test]
fn accepts_expected_date_format() {
    assert_eq!(parse_date("2026-08-04").unwrap(), date(2026, 8, 4));
    assert!(parse_date("2026/08/04").is_err());
}

#[test]
fn rejects_dates_that_do_not_exist() {
    assert!(CalendarDate::from_ymd_opt(2026, 2, 29).is_none());
    assert!(CalendarDate::from_ymd_opt(2024, 2, 29).is_some());
    assert!(CalendarDate::from_ymd_opt(2026, 13, 1).is_none());
    assert!(CalendarDate::from_ymd_opt(2026, 4, 31).is_none());
    assert_eq!(parse_date("2026-02-30").unwrap_err(), "当天日期格式应为 YYYY-MM-DD");
}

#[test]
fn counts_days_of_months() {
    assert_eq!(days_in_month(2026, 1), 31);
    assert_eq!(days_in_month(2026, 2), 28);
    assert_eq!(days_in_month(2024, 2), 29);
    assert_eq!(days_in_month(1900, 2), 28);
    assert_eq!(days_in_month(2000, 2), 29);
    assert_eq!(days_in_month(2026, 4), 30);
    assert_eq!(days_in_month(2026, 12), 31);
}

#[test]
fn knows_weekdays_and_weekends() {
    // 2026-08-04 is a Tuesday; 2026-08-08 a Saturday.
    assert_eq!(date(2026, 8, 4).weekday_from_monday(), 1);
    assert!(!date(2026, 8, 4).is_weekend());
    assert!(date(2026, 8, 8).is_weekend());
    assert!(date(2026, 8, 9).is_weekend());
}

#[test]
fn escapes_xml_special_characters() {
    assert_eq!(escape_xml("a<b>&\"c'"), "a&lt;b&gt;&amp;&quot;c&apos;");
    assert_eq!(escape_xml("月序"), "月序");
    assert_eq!(escape_xml("&amp;"), "&amp;amp;");
}

#[test]
fn plans_a_month_grid() {
    let palette = Theme::Dark.palette();
    // August 2026 starts on a Saturday.
    let plan = month_plan(2026, 8, date(2026, 8, 4), &palette);
    assert!(plan.is_current_month);
    assert_eq!(plan.number_text, "08");
    assert_eq!(plan.name, "八月");
    assert_eq!(plan.english_name, "AUGUST");
    assert_eq!(plan.card_fill, "#28362D");
    assert_eq!(plan.card_stroke, "#DF6B54");
    assert_eq!(plan.days.len(), 31);
    assert_eq!(plan.weekdays.len(), 7);
    assert_eq!(plan.weekdays[6].label, "日");
    assert_eq!(plan.weekdays[6].fill, "#E3A294");
    assert_eq!(plan.weekdays[0].fill, "#9FAAA1");
    let first = &plan.days[0];
    assert_eq!((first.day, first.column, first.row), (1, 5, 0));
    assert!(first.is_weekend);
    assert_eq!(first.number_fill, "#E3A294");
    let today = &plan.days[3];
    assert!(today.is_today);
    assert_eq!(today.number_text, "4");
    assert_eq!(today.number_fill, "#FFF8EE");
    assert_eq!(today.lunar_fill, "#FFF8EE");
    assert_eq!(plan.days.iter().filter(|c| c.is_today).count(), 1);
    let last = &plan.days[30];
    assert_eq!((last.day, last.column, last.row), (31, 0, 5));
    assert_eq!(last.number_fill, "#F1EADF");
}

#[test]
fn other_months_are_not_current() {
    let palette = Theme::Light.palette();
    let plan = month_plan(2026, 2, date(2026, 8, 4), &palette);
    assert!(!plan.is_current_month);
    assert_eq!(plan.card_fill, "#FBF7EF");
    assert_eq!(plan.card_stroke, "#CFC6B8");
    assert_eq!(plan.days.len(), 28);
    assert!(plan.days.iter().all(|c| !c.is_today && c.row < 6));
}

#[test]
fn builds_a_wallpaper_plan_of_twelve_months() {
    let plan = wallpaper_plan(2026, &Theme::Dark, date(2026, 8, 4));
    assert_eq!(plan.months.len(), 12);
    assert_eq!(plan.months[11].name, "十二月");
    assert_eq!(plan.months[11].number_text, "12");
    assert!(plan.footer.starts_with("2026 · "));
    assert!(plan.footer.ends_with("年 · 月序 / LUNAR ALMANAC"));
    assert_eq!(plan.footer, "2026 · 丙午年 · 月序 / LUNAR ALMANAC");
    assert_eq!(plan.palette.paper, "#19211C");
}

#[test]
fn writes_the_footer_caption() {
    assert_eq!(footer_caption(2025, "乙巳"), "2025 · 乙巳年 · 月序 / LUNAR ALMANAC");
}

#[test]
fn focuses_mid_june_of_another_year() {
    assert_eq!(focus_date(2030, date(2026, 8, 4)), date(2030, 6, 15));
    assert_eq!(focus_date(2026, date(2026, 8, 4)), date(2026, 8, 4));
}

/// Undoes the five entities, left to right, as XML readers do.
fn unescape(s: &str) -> String {
    let mut out = String::new();
    let mut rest = s;
    while !rest.is_empty() {
        let mut matched = false;
        for (entity, c) in [("&amp;", '&'), ("&lt;", '<'), ("&gt;", '>'), ("&quot;", '"'), ("&apos;", '\'')] {
            if let Some(after) = rest.strip_prefix(entity) {
                out.push(c);
                rest = after;
                matched = true;
                break;
            }
        }
        if !matched {
            let c = rest.chars().next().unwrap();
            out.push(c);
            rest = &rest[c.len_utf8()..];
        }
    }
    out
}

#[test]
fn escaping_round_trips_and_leaves_clean_text() {
    for s in ["a<b>&\"c'", "&amp;", "&&lt;", "月序 · LUNAR", "", "'\"'"] {
        let e = escape_xml(s);
        assert_eq!(unescape(&e), s);
        for (i, _) in e.match_indices('&') {
            let tail = &e[i..];
            assert!(["&amp;", "&lt;", "&gt;", "&quot;", "&apos;"].iter().any(|x| tail.starts_with(x)));
        }
    }
    assert_eq!(escape_xml("2026 · 丙午年"), "2026 · 丙午年");
}

#[test]
fn first_of_february_2026_is_a_sunday() {
    assert_eq!(date(2026, 2, 1).weekday_from_monday(), 6);
    assert_eq!(date(1970, 1, 1).weekday_from_monday(), 3);
    let plan = month_plan(2026, 2, date(2026, 8, 4), &Theme::Dark.palette());
    assert_eq!((plan.days[0].column, plan.days[0].row), (6, 0));
    assert_eq!((plan.days[1].column, plan.days[1].row), (0, 1));
}
