use vstd::prelude::*;

use crate::date::{CalendarDate, days_in_month, weekday_of, days_in_month_spec};
use crate::lunar::{lunar_label_of, lunar_short_label, lunar_supported, lunar_year_ganzhi_of, year_ganzhi};
use crate::text::{append_str, has_prefix, decimal, decimal2, decimal2_string, decimal_string, push_char, signed_decimal};
use crate::theme::{Palette, Theme, theme_colors};
use crate::ui::{PaletteField, field_index};

verus! {

/// Chinese month names, January first.
pub const MONTH_NAMES: [&'static str; 12] = [
    "一月", "二月", "三月", "四月", "五月", "六月", "七月", "八月", "九月", "十月", "十一月", "十二月",
];

/// English month names, January first.
pub const MONTH_EN: [&'static str; 12] = [
    "JANUARY", "FEBRUARY", "MARCH", "APRIL", "MAY", "JUNE", "JULY", "AUGUST", "SEPTEMBER",
    "OCTOBER", "NOVEMBER", "DECEMBER",
];

/// Column headers of the day grid, Monday first.
pub const WEEK_NAMES: [&'static str; 7] = ["一", "二", "三", "四", "五", "六", "日"];

/// Fill of the day number and label of today, drawn on the accent circle.
pub open spec fn today_text_fill() -> Seq<char> {
    "#FFF8EE"@
}

/// One day of a month card: where it sits and how it is painted.
pub struct DayCell {
    /// Day of the month, from 1.
    pub day: u32,
    /// Column in the grid, Monday = 0.
    pub column: u32,
    /// Row in the grid, from 0.
    pub row: u32,
    pub is_today: bool,
    pub is_weekend: bool,
    /// The day number as text.
    pub number_text: String,
    pub number_fill: String,
    /// The short lunar label.
    pub lunar_label: String,
    pub lunar_fill: String,
}

/// One weekday header of a month card.
pub struct WeekdayHeader {
    pub label: String,
    pub fill: String,
}

/// Everything a month card shows, apart from where on the wallpaper it is drawn.
pub struct MonthPlan {
    pub month: u32,
    pub is_current_month: bool,
    pub card_fill: String,
    pub card_stroke: String,
    /// The month number as two digits.
    pub number_text: String,
    pub name: String,
    pub english_name: String,
    pub weekdays: Vec<WeekdayHeader>,
    pub days: Vec<DayCell>,
}

/// Everything the wallpaper shows, apart from geometry.
pub struct WallpaperPlan {
    pub palette: Palette,
    pub months: Vec<MonthPlan>,
    /// The caption at the bottom left.
    pub footer: String,
}

// ---------------------------------------------------------------------------
// Specifications
/// The day of the first day of a month (Monday = 0): the number of empty cells before it.
pub open spec fn first_offset(year: int, month: int) -> int {
    weekday_of(year, month, 1)
}

/// The color of palette field `f` in `p`.
pub open spec fn color(p: Palette, f: PaletteField) -> Seq<char> {
    p@[field_index(f)]
}

/// Cell `i` (day `i + 1`) of a month of `year` painted with `p`, seen from `today`.
pub open spec fn day_cell_ok(c: DayCell, year: int, month: int, i: int, today: CalendarDate, p: Palette) -> bool {
    let day = i + 1;
    let position = first_offset(year, month) + i;
    let is_today = today.year == year && today.month == month && today.day == day;
    let is_weekend = weekday_of(year, month, day) >= 5;
    &&& c.day == day
    &&& c.column == position % 7
    &&& c.column == weekday_of(year, month, day)
    &&& c.row == position / 7
    &&& c.is_today == is_today
    &&& c.is_weekend == is_weekend
    &&& c.number_text@ == decimal(day as nat)
    &&& c.number_fill@ == (if is_today {
        today_text_fill()
    } else if is_weekend {
        color(p, PaletteField::AccentSoft)
    } else {
        color(p, PaletteField::Ink)
    })
    &&& c.lunar_label@ == lunar_label_of(year, month, day)
    &&& c.lunar_fill@ == (if is_today {
        today_text_fill()
    } else {
        color(p, PaletteField::Soft)
    })
}

/// The weekday header `i` painted with `p`: weekend columns in the soft accent.
pub open spec fn weekday_header_ok(h: WeekdayHeader, i: int, p: Palette) -> bool {
    &&& h.label@ == WEEK_NAMES@[i]@
    &&& h.fill@ == (if i >= 5 {
        color(p, PaletteField::AccentSoft)
    } else {
        color(p, PaletteField::Soft)
    })
}

/// The card of `month` of `year` painted with `p`, seen from `today`.
pub open spec fn month_plan_ok(m: MonthPlan, year: int, month: int, today: CalendarDate, p: Palette) -> bool {
    let current = today.year == year && today.month == month;
    &&& m.month == month
    &&& m.is_current_month == current
    &&& m.card_fill@ == (if current {
        color(p, PaletteField::CurrentCard)
    } else {
        color(p, PaletteField::Card)
    })
    &&& m.card_stroke@ == (if current {
        color(p, PaletteField::Accent)
    } else {
        color(p, PaletteField::Line)
    })
    &&& m.number_text@ == decimal2(month as nat)
    &&& m.name@ == MONTH_NAMES@[month - 1]@
    &&& m.english_name@ == MONTH_EN@[month - 1]@
    &&& m.weekdays@.len() == 7
    &&& forall|i: int| 0 <= i < 7 ==> weekday_header_ok(#[trigger] m.weekdays@[i], i, p)
    &&& m.days@.len() == days_in_month_spec(year, month)
    &&& forall|i: int|
        0 <= i < m.days@.len() ==> day_cell_ok(#[trigger] m.days@[i], year, month, i, today, p)
}

/// The day whose lunar year names the wallpaper: today in the current year,
/// mid-June otherwise.
pub open spec fn focus_date_spec(year: int, today: CalendarDate) -> CalendarDate {
    if today.year == year {
        today
    } else {
        CalendarDate { year: year as i32, month: 6, day: 15 }
    }
}

/// The caption at the bottom of the wallpaper.
pub open spec fn footer_text(year: int, ganzhi: Seq<char>) -> Seq<char> {
    signed_decimal(year) + " · "@ + ganzhi + "年 · 月序 / LUNAR ALMANAC"@
}

/// A year the wallpaper can show.
pub open spec fn supported_year(year: int) -> bool {
    1900 <= year <= 2100
}

// ---------------------------------------------------------------------------
// Plans
/// A copy of a string.
fn copy_string(s: &String) -> (r: String)
    ensures
        r@ == s@,
{
    s.clone()
}

/// The header of weekday column `i`.
fn weekday_header(i: usize, palette: &Palette) -> (r: WeekdayHeader)
    requires
        i < 7,
    ensures
        weekday_header_ok(r, i as int, *palette),
{
    let fill = if i >= 5 {
        copy_string(&palette.accent_soft)
    } else {
        copy_string(&palette.soft)
    };
    WeekdayHeader { label: WEEK_NAMES[i].to_owned(), fill }
}

/// The cell of day `i + 1` of a month.
fn day_cell(year: i32, month: u32, i: u32, first: u32, today: CalendarDate, palette: &Palette) -> (r: DayCell)
    requires
        supported_year(year as int),
        1 <= month <= 12,
        i < days_in_month_spec(year as int, month as int),
        first == first_offset(year as int, month as int),
        first < 7,
    ensures
        day_cell_ok(r, year as int, month as int, i as int, today, *palette),
{
    let day = i + 1;
    let date = CalendarDate { year, month, day };
    let position = first + i;
    let is_today = today.year == year && today.month == month && today.day == day;
    let is_weekend = date.is_weekend();
    let number_fill = if is_today {
        "#FFF8EE".to_owned()
    } else if is_weekend {
        copy_string(&palette.accent_soft)
    } else {
        copy_string(&palette.ink)
    };
    let lunar_fill = if is_today {
        "#FFF8EE".to_owned()
    } else {
        copy_string(&palette.soft)
    };
    DayCell {
        day,
        column: position % 7,
        row: position / 7,
        is_today,
        is_weekend,
        number_text: decimal_string(day as u64),
        number_fill,
        lunar_label: lunar_short_label(date),
        lunar_fill,
    }
}

/// The card of one month: its colors, titles, weekday headers and day cells.
pub fn month_plan(year: i32, month: u32, today: CalendarDate, palette: &Palette) -> (r: MonthPlan)
    requires
        supported_year(year as int),
        1 <= month <= 12,
    ensures
        month_plan_ok(r, year as int, month as int, today, *palette),
{
    let is_current_month = today.year == year && today.month == month;
    let card_fill = if is_current_month {
        copy_string(&palette.current_card)
    } else {
        copy_string(&palette.card)
    };
    let card_stroke = if is_current_month {
        copy_string(&palette.accent)
    } else {
        copy_string(&palette.line)
    };
    let mut weekdays: Vec<WeekdayHeader> = Vec::new();
    let mut w: usize = 0;
    while w < 7
        invariant
            w <= 7,
            weekdays@.len() == w,
            forall|i: int| 0 <= i < w ==> weekday_header_ok(#[trigger] weekdays@[i], i, *palette),
        decreases 7 - w,
    {
        weekdays.push(weekday_header(w, palette));
        w = w + 1;
    }
    let first_date = CalendarDate { year, month, day: 1 };
    let first = first_date.weekday_from_monday();
    let days = days_in_month(year, month);
    let mut cells: Vec<DayCell> = Vec::new();
    let mut i: u32 = 0;
    while i < days
        invariant
            supported_year(year as int),
            1 <= month <= 12,
            days == days_in_month_spec(year as int, month as int),
            first == first_offset(year as int, month as int),
            first < 7,
            i <= days,
            cells@.len() == i,
            forall|j: int|
                0 <= j < i ==> day_cell_ok(#[trigger] cells@[j], year as int, month as int, j, today, *palette),
        decreases days - i,
    {
        cells.push(day_cell(year, month, i, first, today, palette));
        i = i + 1;
    }
    MonthPlan {
        month,
        is_current_month,
        card_fill,
        card_stroke,
        number_text: decimal2_string(month as u64),
        name: MONTH_NAMES[(month - 1) as usize].to_owned(),
        english_name: MONTH_EN[(month - 1) as usize].to_owned(),
        weekdays,
        days: cells,
    }
}

/// The day whose lunar year names the wallpaper.
pub fn focus_date(year: i32, today: CalendarDate) -> (r: CalendarDate)
    requires
        supported_year(year as int),
        today.valid(),
    ensures
        r == focus_date_spec(year as int, today),
        lunar_supported(r),
{
    if today.year == year {
        today
    } else {
        CalendarDate { year, month: 6, day: 15 }
    }
}

/// The footer caption: the year, its gan-zhi name and the almanac title.
pub fn footer_caption(year: i32, ganzhi: &str) -> (r: String)
    ensures
        r@ == footer_text(year as int, ganzhi@),
{
    let mut s = crate::text::signed_decimal_string(year as i64);
    append_str(&mut s, " · ");
    append_str(&mut s, ganzhi);
    append_str(&mut s, "年 · 月序 / LUNAR ALMANAC");
    s
}

/// The whole wallpaper of `year` in `theme`, seen from `today`: the palette,
/// the twelve month cards and the footer.
pub fn wallpaper_plan(year: i32, theme: &Theme, today: CalendarDate) -> (r: WallpaperPlan)
    requires
        supported_year(year as int),
        today.valid(),
    ensures
        r.palette@ == theme_colors(*theme),
        r.months@.len() == 12,
        forall|i: int| 0 <= i < 12 ==> month_plan_ok(#[trigger] r.months@[i], year as int, i + 1, today, r.palette),
        ({
            let f = focus_date_spec(year as int, today);
            r.footer@ == footer_text(year as int, lunar_year_ganzhi_of(f.year as int, f.month as int, f.day as int))
        }),
{
    let palette = theme.palette();
    let mut months: Vec<MonthPlan> = Vec::new();
    let mut m: u32 = 1;
    while m <= 12
        invariant
            supported_year(year as int),
            1 <= m <= 13,
            months@.len() == m - 1,
            forall|i: int| 0 <= i < m - 1 ==> month_plan_ok(#[trigger] months@[i], year as int, i + 1, today, palette),
        decreases 13 - m,
    {
        months.push(month_plan(year, m, today, &palette));
        m = m + 1;
    }
    let focus = focus_date(year, today);
    let ganzhi = year_ganzhi(focus);
    let footer = footer_caption(year, ganzhi.as_str());
    WallpaperPlan { palette, months, footer }
}

/// The footer names the lunar year of a day of the shown year: the focus date
/// always lies in the shown year, it is today exactly when today is in that
/// year, and otherwise it is June 15 of the shown year.
pub proof fn lemma_focus_date_in_shown_year(year: int, today: CalendarDate)
    requires
        supported_year(year),
    ensures
        focus_date_spec(year, today).year == year,
        (focus_date_spec(year, today) == today) <==> today.year == year,
        today.year != year ==> focus_date_spec(year, today).month == 6 && focus_date_spec(
            year,
            today,
        ).day == 15,
        today.valid() ==> lunar_supported(focus_date_spec(year, today)),
{
}

// ---------------------------------------------------------------------------
// Laws of the month grid
/// Every day of a month fits in a grid of seven columns and six rows.
pub proof fn lemma_days_fit_six_rows(m: MonthPlan, year: int, month: int, today: CalendarDate, p: Palette, i: int)
    requires
        month_plan_ok(m, year, month, today, p),
        1 <= month <= 12,
        0 <= first_offset(year, month) < 7,
        0 <= i < m.days@.len(),
    ensures
        m.days@[i].column < 7,
        m.days@[i].row < 6,
{
    assert(day_cell_ok(m.days@[i], year, month, i, today, p));
}

/// The last two columns are the weekend: a day is drawn as a weekend day
/// exactly when it sits in the Saturday or Sunday column, and the header of
/// its column is painted in the weekend color exactly then.
pub proof fn lemma_weekend_columns(m: MonthPlan, year: int, month: int, today: CalendarDate, p: Palette, i: int)
    requires
        month_plan_ok(m, year, month, today, p),
        0 <= i < m.days@.len(),
    ensures
        m.days@[i].column < 7,
        m.days@[i].is_weekend == (m.days@[i].column >= 5),
        m.weekdays@[m.days@[i].column as int].fill@ == (if m.days@[i].is_weekend {
            color(p, PaletteField::AccentSoft)
        } else {
            color(p, PaletteField::Soft)
        }),
{
    assert(day_cell_ok(m.days@[i], year, month, i, today, p));
    assert(weekday_header_ok(m.weekdays@[m.days@[i].column as int], m.days@[i].column as int, p));
}

/// Of the twelve month cards, only the card of today's month in today's year
/// is drawn as current, with the current-card fill (palette color 3) and the
/// accent outline (color 7); every other card has the card fill (color 2)
/// and the line outline (color 9).
pub proof fn lemma_only_todays_month_is_current(months: Seq<MonthPlan>, year: int, today: CalendarDate, p: Palette, i: int)
    requires
        months.len() == 12,
        forall|j: int| 0 <= j < 12 ==> month_plan_ok(#[trigger] months[j], year, j + 1, today, p),
        0 <= i < 12,
    ensures
        months[i].is_current_month <==> (today.year == year && today.month == i + 1),
        months[i].is_current_month ==> months[i].card_fill@ == p@[3] && months[i].card_stroke@ == p@[7],
        !months[i].is_current_month ==> months[i].card_fill@ == p@[2] && months[i].card_stroke@ == p@[9],
        months[i].month == i + 1,
{
    assert(month_plan_ok(months[i], year, i + 1, today, p));
}

/// Two different days of a month never share a cell.
pub proof fn lemma_days_distinct_cells(m: MonthPlan, year: int, month: int, today: CalendarDate, p: Palette, i: int, j: int)
    requires
        month_plan_ok(m, year, month, today, p),
        0 <= first_offset(year, month),
        0 <= i < m.days@.len(),
        0 <= j < m.days@.len(),
        i != j,
    ensures
        m.days@[i].column != m.days@[j].column || m.days@[i].row != m.days@[j].row,
{
    assert(day_cell_ok(m.days@[i], year, month, i, today, p));
    assert(day_cell_ok(m.days@[j], year, month, j, today, p));
    let f = first_offset(year, month);
    assert((f + i) == 7 * ((f + i) / 7) + (f + i) % 7);
    assert((f + j) == 7 * ((f + j) / 7) + (f + j) % 7);
}

/// Today is highlighted in exactly one cell of its own month and in none of the others.
pub proof fn lemma_today_highlighted_once(m: MonthPlan, year: int, month: int, today: CalendarDate, p: Palette)
    requires
        month_plan_ok(m, year, month, today, p),
        today.valid(),
    ensures
        (today.year == year && today.month == month) ==> (m.days@[today.day - 1].is_today && forall|
            i: int,
        | 0 <= i < m.days@.len() && #[trigger] m.days@[i].is_today ==> i == today.day - 1),
        !(today.year == year && today.month == month) ==> forall|i: int|
            0 <= i < m.days@.len() ==> !(#[trigger] m.days@[i].is_today),
{
    if today.year == year && today.month == month {
        assert(day_cell_ok(m.days@[today.day - 1], year, month, today.day - 1, today, p));
        assert forall|i: int| 0 <= i < m.days@.len() && #[trigger] m.days@[i].is_today implies i
            == today.day - 1 by {
            assert(day_cell_ok(m.days@[i], year, month, i, today, p));
        }
    } else {
        assert forall|i: int| 0 <= i < m.days@.len() implies !(#[trigger] m.days@[i].is_today) by {
            assert(day_cell_ok(m.days@[i], year, month, i, today, p));
        }
    }
}

// ---------------------------------------------------------------------------
// XML text
/// The XML escape of one character: the five predefined entities for
/// `&`, `<`, `>`, `"` and `'`, the character itself otherwise.
pub open spec fn xml_escape_char(c: char) -> Seq<char> {
    if c == '&' {
        "&amp;"@
    } else if c == '<' {
        "&lt;"@
    } else if c == '>' {
        "&gt;"@
    } else if c == '"' {
        "&quot;"@
    } else if c == '\'' {
        "&apos;"@
    } else {
        seq![c]
    }
}

/// The XML escape of a text, character by character.
pub open spec fn xml_escaped(s: Seq<char>) -> Seq<char>
    decreases s.len(),
{
    if s.len() == 0 {
        Seq::empty()
    } else {
        xml_escaped(s.drop_last()) + xml_escape_char(s.last())
    }
}

/// `value` with `&`, `<`, `>`, `"` and `'` replaced by their XML entities.
pub fn escape_xml(value: &str) -> (r: String)
    ensures
        r@ == xml_escaped(value@),
{
    let chars = crate::text::chars_of(value);
    let mut out = String::new();
    let mut i: usize = 0;
    while i < chars.len()
        invariant
            chars@ == value@,
            i <= chars@.len(),
            out@ == xml_escaped(value@.take(i as int)),
        decreases chars.len() - i,
    {
        let c = chars[i];
        assert(value@.take(i + 1).drop_last() =~= value@.take(i as int));
        if c == '&' {
            append_str(&mut out, "&amp;");
        } else if c == '<' {
            append_str(&mut out, "&lt;");
        } else if c == '>' {
            append_str(&mut out, "&gt;");
        } else if c == '"' {
            append_str(&mut out, "&quot;");
        } else if c == '\'' {
            append_str(&mut out, "&apos;");
        } else {
            push_char(&mut out, c);
        }
        i = i + 1;
    }
    assert(value@.take(chars@.len() as int) =~= value@);
    out
}

/// Whether `c` would break XML text or an attribute value.
pub open spec fn is_markup_char(c: char) -> bool {
    c == '<' || c == '>' || c == '"' || c == '\''
}

/// Escaped text holds no `<`, `>`, `"` or `'`, so it cannot open a tag or end
/// an attribute.
pub proof fn lemma_escaped_has_no_markup(s: Seq<char>)
    ensures
        forall|i: int| 0 <= i < xml_escaped(s).len() ==> !is_markup_char(#[trigger] xml_escaped(s)[i]),
    decreases s.len(),
{
    if s.len() > 0 {
        lemma_escaped_has_no_markup(s.drop_last());
        reveal_strlit("&amp;");
        reveal_strlit("&lt;");
        reveal_strlit("&gt;");
        reveal_strlit("&quot;");
        reveal_strlit("&apos;");
        let a = xml_escaped(s.drop_last());
        let b = xml_escape_char(s.last());
        assert forall|i: int| 0 <= i < xml_escaped(s).len() implies !is_markup_char(
            #[trigger] xml_escaped(s)[i],
        ) by {
            if i < a.len() {
                assert(xml_escaped(s)[i] == a[i]);
            } else {
                assert(xml_escaped(s)[i] == b[i - a.len()]);
            }
        }
    }
}

/// The five XML entities that escaping writes.
pub open spec fn amp_entity() -> Seq<char> {
    seq!['&', 'a', 'm', 'p', ';']
}

pub open spec fn lt_entity() -> Seq<char> {
    seq!['&', 'l', 't', ';']
}

pub open spec fn gt_entity() -> Seq<char> {
    seq!['&', 'g', 't', ';']
}

pub open spec fn quot_entity() -> Seq<char> {
    seq!['&', 'q', 'u', 'o', 't', ';']
}

pub open spec fn apos_entity() -> Seq<char> {
    seq!['&', 'a', 'p', 'o', 's', ';']
}

/// Whether `t` begins with one of the five entities.
pub open spec fn starts_with_entity(t: Seq<char>) -> bool {
    ||| has_prefix(t, amp_entity())
    ||| has_prefix(t, lt_entity())
    ||| has_prefix(t, gt_entity())
    ||| has_prefix(t, quot_entity())
    ||| has_prefix(t, apos_entity())
}

/// Reading XML text back: each of the five entities becomes its character,
/// every other character stays.
pub open spec fn xml_unescaped(s: Seq<char>) -> Seq<char>
    decreases s.len(),
{
    if s.len() == 0 {
        Seq::empty()
    } else if has_prefix(s, amp_entity()) {
        seq!['&'] + xml_unescaped(s.skip(5))
    } else if has_prefix(s, lt_entity()) {
        seq!['<'] + xml_unescaped(s.skip(4))
    } else if has_prefix(s, gt_entity()) {
        seq!['>'] + xml_unescaped(s.skip(4))
    } else if has_prefix(s, quot_entity()) {
        seq!['"'] + xml_unescaped(s.skip(6))
    } else if has_prefix(s, apos_entity()) {
        seq!['\''] + xml_unescaped(s.skip(6))
    } else {
        seq![s[0]] + xml_unescaped(s.drop_first())
    }
}

/// Whether `c` is one of the characters that escaping replaces.
pub open spec fn is_escaped_char(c: char) -> bool {
    c == '&' || c == '<' || c == '>' || c == '"' || c == '\''
}

/// The escape of one character is the entity of its kind, or the character itself.
proof fn lemma_escape_char_shape(c: char)
    ensures
        c == '&' ==> xml_escape_char(c) == amp_entity(),
        c == '<' ==> xml_escape_char(c) == lt_entity(),
        c == '>' ==> xml_escape_char(c) == gt_entity(),
        c == '"' ==> xml_escape_char(c) == quot_entity(),
        c == '\'' ==> xml_escape_char(c) == apos_entity(),
        !is_escaped_char(c) ==> xml_escape_char(c) == seq![c],
{
    reveal_strlit("&amp;");
    reveal_strlit("&lt;");
    reveal_strlit("&gt;");
    reveal_strlit("&quot;");
    reveal_strlit("&apos;");
    assert("&amp;"@ =~= amp_entity());
    assert("&lt;"@ =~= lt_entity());
    assert("&gt;"@ =~= gt_entity());
    assert("&quot;"@ =~= quot_entity());
    assert("&apos;"@ =~= apos_entity());
}

/// Escaping a concatenation escapes each part.
proof fn lemma_escaped_concat(a: Seq<char>, b: Seq<char>)
    ensures
        xml_escaped(a + b) == xml_escaped(a) + xml_escaped(b),
    decreases b.len(),
{
    if b.len() == 0 {
        assert(a + b =~= a);
        assert(xml_escaped(a) + xml_escaped(b) =~= xml_escaped(a));
    } else {
        assert((a + b).drop_last() =~= a + b.drop_last());
        assert((a + b).last() == b.last());
        lemma_escaped_concat(a, b.drop_last());
        assert(xml_escaped(a + b) =~= xml_escaped(a) + xml_escaped(b));
    }
}

/// Escaping, read from the front: the first character's escape, then the rest's.
proof fn lemma_escaped_front(s: Seq<char>)
    requires
        s.len() > 0,
    ensures
        xml_escaped(s) == xml_escape_char(s[0]) + xml_escaped(s.drop_first()),
{
    assert(s =~= seq![s[0]] + s.drop_first());
    lemma_escaped_concat(seq![s[0]], s.drop_first());
    assert(seq![s[0]].drop_last() =~= Seq::<char>::empty());
    assert(seq![s[0]].last() == s[0]);
    assert(xml_escaped(Seq::<char>::empty()) =~= Seq::<char>::empty());
    assert(xml_escaped(seq![s[0]]) =~= xml_escape_char(s[0]));
}

/// Reading back the escape of `c` followed by escaped text `x` gives `c`
/// and then the reading of `x`.
proof fn lemma_unescape_front(c: char, x: Seq<char>)
    ensures
        xml_unescaped(xml_escape_char(c) + x) == seq![c] + xml_unescaped(x),
        xml_escape_char(c).len() >= 1,
        is_escaped_char(c) ==> starts_with_entity(xml_escape_char(c) + x),
        !is_escaped_char(c) ==> xml_escape_char(c) == seq![c],
{
    lemma_escape_char_shape(c);
    let e = xml_escape_char(c);
    let r = e + x;
    assert(r.len() > 0);
    if c == '&' {
        assert(r.take(5) =~= amp_entity());
        assert(r.skip(5) =~= x);
    } else if c == '<' {
        assert(!has_prefix(r, amp_entity())) by {
            if r.len() >= 5 {
                assert(r.take(5)[1] != amp_entity()[1]);
            }
        }
        assert(r.take(4) =~= lt_entity());
        assert(r.skip(4) =~= x);
    } else if c == '>' {
        assert(!has_prefix(r, amp_entity())) by {
            if r.len() >= 5 {
                assert(r.take(5)[1] != amp_entity()[1]);
            }
        }
        assert(!has_prefix(r, lt_entity())) by {
            assert(r.take(4)[1] != lt_entity()[1]);
        }
        assert(r.take(4) =~= gt_entity());
        assert(r.skip(4) =~= x);
    } else if c == '"' {
        assert(!has_prefix(r, amp_entity())) by {
            assert(r.take(5)[1] != amp_entity()[1]);
        }
        assert(!has_prefix(r, lt_entity())) by {
            assert(r.take(4)[1] != lt_entity()[1]);
        }
        assert(!has_prefix(r, gt_entity())) by {
            assert(r.take(4)[1] != gt_entity()[1]);
        }
        assert(r.take(6) =~= quot_entity());
        assert(r.skip(6) =~= x);
    } else if c == '\'' {
        assert(!has_prefix(r, amp_entity())) by {
            assert(r.take(5)[2] != amp_entity()[2]);
        }
        assert(!has_prefix(r, lt_entity())) by {
            assert(r.take(4)[1] != lt_entity()[1]);
        }
        assert(!has_prefix(r, gt_entity())) by {
            assert(r.take(4)[1] != gt_entity()[1]);
        }
        assert(!has_prefix(r, quot_entity())) by {
            assert(r.take(6)[1] != quot_entity()[1]);
        }
        assert(r.take(6) =~= apos_entity());
        assert(r.skip(6) =~= x);
    } else {
        assert(r[0] == c);
        assert(!has_prefix(r, amp_entity())) by {
            if r.len() >= 5 {
                assert(r.take(5)[0] != amp_entity()[0]);
            }
        }
        assert(!has_prefix(r, lt_entity())) by {
            if r.len() >= 4 {
                assert(r.take(4)[0] != lt_entity()[0]);
            }
        }
        assert(!has_prefix(r, gt_entity())) by {
            if r.len() >= 4 {
                assert(r.take(4)[0] != gt_entity()[0]);
            }
        }
        assert(!has_prefix(r, quot_entity())) by {
            if r.len() >= 6 {
                assert(r.take(6)[0] != quot_entity()[0]);
            }
        }
        assert(!has_prefix(r, apos_entity())) by {
            if r.len() >= 6 {
                assert(r.take(6)[0] != apos_entity()[0]);
            }
        }
        assert(r.drop_first() =~= x);
    }
}

/// Escaping can be undone, every '&' it leaves starts an entity, and text
/// without `&`, `<`, `>`, `"` or `'` is left as it is.
pub proof fn lemma_xml_escape_round_trip(s: Seq<char>)
    ensures
        xml_unescaped(xml_escaped(s)) == s,
        forall|i: int|
            0 <= i < xml_escaped(s).len() && #[trigger] xml_escaped(s)[i] == '&' ==> starts_with_entity(
                xml_escaped(s).skip(i),
            ),
        (forall|i: int| 0 <= i < s.len() ==> !is_escaped_char(#[trigger] s[i])) ==> xml_escaped(s)
            == s,
    decreases s.len(),
{
    if s.len() == 0 {
        assert(xml_unescaped(xml_escaped(s)) =~= s);
    } else {
        let c = s[0];
        let rest = s.drop_first();
        lemma_xml_escape_round_trip(rest);
        lemma_escaped_front(s);
        lemma_unescape_front(c, xml_escaped(rest));
        let e = xml_escape_char(c);
        let x = xml_escaped(rest);
        let r = xml_escaped(s);
        assert(seq![c] + rest =~= s);
        assert forall|i: int| 0 <= i < r.len() && #[trigger] r[i] == '&' implies starts_with_entity(
            r.skip(i),
        ) by {
            if i < e.len() {
                if !is_escaped_char(c) {
                    assert(r[0] == c);
                }
                lemma_escape_char_shape(c);
                assert(i == 0);
                assert(r.skip(0) =~= r);
            } else {
                let j = i - e.len();
                assert(r[i] == x[j]);
                assert(r.skip(i) =~= x.skip(j));
            }
        }
        if forall|i: int| 0 <= i < s.len() ==> !is_escaped_char(#[trigger] s[i]) {
            assert(!is_escaped_char(s[0]));
            assert forall|i: int| 0 <= i < rest.len() implies !is_escaped_char(#[trigger] rest[i]) by {
                assert(rest[i] == s[i + 1]);
            }
            assert(r =~= s);
        }
    }
}

} // verus!
