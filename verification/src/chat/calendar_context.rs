//! The companion calendar: traditional Chinese festivals, solar terms and Western holidays in
//! the days ahead, rendered into the system prompt.
use vstd::prelude::*;

use super::civil_date::{
    add_days, date_exists, date_ok, date_plus_days, iso_date, iso_date_string, lunar_date,
    lemma_date_plus_days_add, lemma_date_plus_days_ok, lunar_date_of, lunar_range, window_in_lunar_range, term_day, term_day_of, valid_date, weekday_from_monday,
    weekday_number, CivilDate,
};
use super::types::Session;
use crate::json::{opt_view, string_items, views, Json, JsonNumber, JsonV};
use crate::text::{
    chars_of, contains, contains_exec, string_views, decimal, decimal_string, push_str, signed_decimal, signed_decimal_string, replace, replace_all,
    str_eq,
};

verus! {

pub const DEFAULT_LOOKAHEAD_DAYS: u32 = 30;

pub const MAX_LOOKAHEAD_DAYS: u32 = 90;

pub const PROMPT_ENTRY_ID: &'static str = "companion_calendar";

pub const DATE_PLACEHOLDER: &'static str = "{{calendar_date}}";

pub const LOOKAHEAD_DAYS_PLACEHOLDER: &'static str = "{{calendar_lookahead_days}}";

pub const EVENTS_PLACEHOLDER: &'static str = "{{calendar_events}}";

pub const DEFAULT_PROMPT_TEMPLATE: &'static str = "# 日历上下文\n当前日期：{{calendar_date}}\n未来{{calendar_lookahead_days}}天的节日或节气信息：\n{{calendar_events}}\n\n这些日期用于建立时间与季节背景，不代表用户一定庆祝。仅在日期临近、当天到来或当前话题自然相关时使用，不要主动反复提及。";

#[derive(Debug, Clone, Copy, PartialEq, Eq, Structural)]
pub enum CalendarEventCategory {
    TraditionalFestival,
    SolarTerm,
    WesternHoliday,
}

/// Mathematical model of a calendar event.
pub struct CalendarEventV {
    pub id: Seq<char>,
    pub name: Seq<char>,
    pub date: Seq<char>,
    pub weekday: u32,
    pub category: CalendarEventCategory,
    pub days_until: u32,
    pub date_value: CivilDate,
}

#[derive(Debug, Clone)]
pub struct CalendarEvent {
    pub id: String,
    pub name: String,
    /// `YYYY-MM-DD`.
    pub date: String,
    /// ISO weekday, Monday = 1.
    pub weekday: u32,
    pub category: CalendarEventCategory,
    pub days_until: u32,
    pub date_value: CivilDate,
}

impl View for CalendarEvent {
    type V = CalendarEventV;

    open spec fn view(&self) -> CalendarEventV {
        CalendarEventV {
            id: self.id@,
            name: self.name@,
            date: self.date@,
            weekday: self.weekday,
            category: self.category,
            days_until: self.days_until,
            date_value: self.date_value,
        }
    }
}

#[derive(Debug, Clone, PartialEq, Eq)]
pub struct CalendarPromptData {
    pub current_date: String,
    pub lookahead_days: u32,
    pub events: String,
}

// ---------------------------------------------------------------------------
// The model
// ---------------------------------------------------------------------------

pub open spec fn event_views(v: Seq<CalendarEvent>) -> Seq<CalendarEventV> {
    Seq::new(v.len(), |i: int| v[i]@)
}

/// The event with the given name on `date`, `days_until` days ahead.
pub open spec fn event_on(
    id: Seq<char>,
    name: Seq<char>,
    date: CivilDate,
    category: CalendarEventCategory,
    days_until: u32,
) -> CalendarEventV {
    CalendarEventV {
        id,
        name,
        date: iso_date(date),
        weekday: weekday_number(date.year, date.month, date.day),
        category,
        days_until,
        date_value: date,
    }
}

/// Every event falls on a date the lunar calendar is consulted for.
pub open spec fn dated_in_range(v: Seq<CalendarEventV>) -> bool {
    forall|i: int| 0 <= i < v.len() ==> date_ok(#[trigger] v[i].date_value) && lunar_range(v[i].date_value)
}

pub open spec fn pair_view(p: Option<(&str, &str)>) -> Option<(Seq<char>, Seq<char>)> {
    match p {
        Some((a, b)) => Some((a@, b@)),
        None => None,
    }
}

/// Festivals of the (non-leap) lunar month and day.
pub open spec fn festival_names(month: int, day: int) -> Option<(Seq<char>, Seq<char>)> {
    if month == 1 && day == 1 {
        Some(("traditional.springFestival"@, "春节"@))
    } else if month == 1 && day == 15 {
        Some(("traditional.lanternFestival"@, "元宵节"@))
    } else if month == 5 && day == 5 {
        Some(("traditional.dragonBoatFestival"@, "端午节"@))
    } else if month == 7 && day == 7 {
        Some(("traditional.qixiFestival"@, "七夕"@))
    } else if month == 8 && day == 15 {
        Some(("traditional.midAutumnFestival"@, "中秋节"@))
    } else if month == 9 && day == 9 {
        Some(("traditional.doubleNinthFestival"@, "重阳节"@))
    } else if month == 12 && day == 8 {
        Some(("traditional.labaFestival"@, "腊八节"@))
    } else {
        None
    }
}

/// The twenty-four solar terms, from the winter solstice on.
pub open spec fn solar_term_names(index: int) -> Option<(Seq<char>, Seq<char>)> {
    if index == 0 {
        Some(("solarTerm.winterSolstice"@, "冬至"@))
    } else if index == 1 {
        Some(("solarTerm.minorCold"@, "小寒"@))
    } else if index == 2 {
        Some(("solarTerm.majorCold"@, "大寒"@))
    } else if index == 3 {
        Some(("solarTerm.startOfSpring"@, "立春"@))
    } else if index == 4 {
        Some(("solarTerm.rainWater"@, "雨水"@))
    } else if index == 5 {
        Some(("solarTerm.awakeningOfInsects"@, "惊蛰"@))
    } else if index == 6 {
        Some(("solarTerm.springEquinox"@, "春分"@))
    } else if index == 7 {
        Some(("solarTerm.clearAndBright"@, "清明"@))
    } else if index == 8 {
        Some(("solarTerm.grainRain"@, "谷雨"@))
    } else if index == 9 {
        Some(("solarTerm.startOfSummer"@, "立夏"@))
    } else if index == 10 {
        Some(("solarTerm.grainBuds"@, "小满"@))
    } else if index == 11 {
        Some(("solarTerm.grainInEar"@, "芒种"@))
    } else if index == 12 {
        Some(("solarTerm.summerSolstice"@, "夏至"@))
    } else if index == 13 {
        Some(("solarTerm.minorHeat"@, "小暑"@))
    } else if index == 14 {
        Some(("solarTerm.majorHeat"@, "大暑"@))
    } else if index == 15 {
        Some(("solarTerm.startOfAutumn"@, "立秋"@))
    } else if index == 16 {
        Some(("solarTerm.endOfHeat"@, "处暑"@))
    } else if index == 17 {
        Some(("solarTerm.whiteDew"@, "白露"@))
    } else if index == 18 {
        Some(("solarTerm.autumnEquinox"@, "秋分"@))
    } else if index == 19 {
        Some(("solarTerm.coldDew"@, "寒露"@))
    } else if index == 20 {
        Some(("solarTerm.frostDescent"@, "霜降"@))
    } else if index == 21 {
        Some(("solarTerm.startOfWinter"@, "立冬"@))
    } else if index == 22 {
        Some(("solarTerm.minorSnow"@, "小雪"@))
    } else if index == 23 {
        Some(("solarTerm.majorSnow"@, "大雪"@))
    } else {
        None
    }
}

/// Western holidays on a fixed Gregorian month and day.
pub open spec fn fixed_holiday_names(month: int, day: int) -> Option<(Seq<char>, Seq<char>)> {
    if month == 2 && day == 14 {
        Some(("western.valentinesDay"@, "情人节"@))
    } else if month == 10 && day == 31 {
        Some(("western.halloween"@, "万圣夜"@))
    } else if month == 12 && day == 24 {
        Some(("western.christmasEve"@, "平安夜"@))
    } else if month == 12 && day == 25 {
        Some(("western.christmas"@, "圣诞节"@))
    } else {
        None
    }
}

/// Month and day of Easter Sunday (the Meeus/Jones/Butcher Gregorian computus).
pub open spec fn easter_month_day(year: int) -> (int, int) {
    let a = year % 19;
    let b = year / 100;
    let c = year % 100;
    let d = b / 4;
    let e = b % 4;
    let f = (b + 8) / 25;
    let g = (b - f + 1) / 3;
    let h = (19 * a + b - d - g + 15) % 30;
    let i = c / 4;
    let k = c % 4;
    let l = (32 + 2 * e + 2 * i - h - k) % 7;
    let m = (a + 11 * h + 22 * l) / 451;
    ((h + l - 7 * m + 114) / 31, (h + l - 7 * m + 114) % 31 + 1)
}

/// Easter Sunday of a year, when that date is representable.
pub open spec fn easter(year: int) -> Option<CivilDate> {
    let (month, day) = easter_month_day(year);
    if valid_date(year, month, day) {
        Some(CivilDate { year: year as i32, month: month as u32, day: day as u32 })
    } else {
        None
    }
}

/// Traditional festivals on `date`: the festival of its lunar day, and New Year's Eve when
/// the next day is the first day of the first lunar month.
pub open spec fn traditional_events(date: CivilDate, days_until: u32) -> Seq<CalendarEventV> {
    let (lunar_month, lunar_day) = lunar_date_of(date.year, date.month, date.day);
    let festival = if lunar_month > 0 {
        match festival_names(lunar_month as int, lunar_day as int) {
            Some((id, name)) => seq![
                event_on(id, name, date, CalendarEventCategory::TraditionalFestival, days_until),
            ],
            None => Seq::empty(),
        }
    } else {
        Seq::empty()
    };
    let eve = match date_plus_days(date.year, date.month, date.day, 1) {
        Some(next) => if lunar_date_of(next.year, next.month, next.day) == (1isize, 1usize) {
            seq![
                event_on(
                    "traditional.newYearsEve"@,
                    "除夕"@,
                    date,
                    CalendarEventCategory::TraditionalFestival,
                    days_until,
                ),
            ]
        } else {
            Seq::empty()
        },
        None => Seq::empty(),
    };
    festival + eve
}

/// The solar term beginning on `date`, if one does.
pub open spec fn solar_term_events(date: CivilDate, days_until: u32) -> Seq<CalendarEventV> {
    let (day_index, term) = term_day_of(date.year, date.month, date.day);
    if day_index == 0 {
        match solar_term_names(term as int) {
            Some((id, name)) => seq![
                event_on(id, name, date, CalendarEventCategory::SolarTerm, days_until),
            ],
            None => Seq::empty(),
        }
    } else {
        Seq::empty()
    }
}

/// Western holidays on `date`: the fixed ones, then Easter.
pub open spec fn western_events(date: CivilDate, days_until: u32) -> Seq<CalendarEventV> {
    let fixed = match fixed_holiday_names(date.month as int, date.day as int) {
        Some((id, name)) => seq![
            event_on(id, name, date, CalendarEventCategory::WesternHoliday, days_until),
        ],
        None => Seq::empty(),
    };
    let easter_day = if easter(date.year as int) == Some(date) {
        seq![
            event_on(
                "western.easter"@,
                "复活节"@,
                date,
                CalendarEventCategory::WesternHoliday,
                days_until,
            ),
        ]
    } else {
        Seq::empty()
    };
    fixed + easter_day
}

pub open spec fn day_events(date: CivilDate, days_until: u32) -> Seq<CalendarEventV> {
    traditional_events(date, days_until) + solar_term_events(date, days_until) + western_events(
        date,
        days_until,
    )
}

/// Events of the first `days` days starting at `start`, day by day.
pub open spec fn upcoming(start: CivilDate, days: nat) -> Seq<CalendarEventV>
    decreases days,
{
    if days == 0 {
        Seq::empty()
    } else {
        let offset = (days - 1) as nat;
        upcoming(start, offset) + match date_plus_days(
            start.year,
            start.month,
            start.day,
            offset as i64,
        ) {
            Some(date) => day_events(date, offset as u32),
            None => Seq::empty(),
        }
    }
}

/// Whether the events of a day list the traditional festival with the given id and name.
pub open spec fn lists_festival(date: CivilDate, days_until: u32, id: Seq<char>, name: Seq<char>) -> bool {
    day_events(date, days_until).contains(
        event_on(id, name, date, CalendarEventCategory::TraditionalFestival, days_until),
    )
}

/// Whether the events of a day list the Western holiday with the given id and name.
pub open spec fn lists_holiday(date: CivilDate, days_until: u32, id: Seq<char>, name: Seq<char>) -> bool {
    day_events(date, days_until).contains(
        event_on(id, name, date, CalendarEventCategory::WesternHoliday, days_until),
    )
}

proof fn lemma_festival_names_distinct()
    ensures
        "春节"@[0] == '春' && "元宵节"@[0] == '元' && "端午节"@[0] == '端' && "七夕"@[0] == '七'
            && "中秋节"@[0] == '中' && "重阳节"@[0] == '重' && "腊八节"@[0] == '腊' && "除夕"@[0]
            == '除',
        "情人节"@[0] == '情' && "万圣夜"@[0] == '万' && "平安夜"@[0] == '平' && "圣诞节"@[0] == '圣'
            && "复活节"@[0] == '复',
{
    reveal_strlit("春节");
    reveal_strlit("元宵节");
    reveal_strlit("端午节");
    reveal_strlit("七夕");
    reveal_strlit("中秋节");
    reveal_strlit("重阳节");
    reveal_strlit("腊八节");
    reveal_strlit("除夕");
    reveal_strlit("情人节");
    reveal_strlit("万圣夜");
    reveal_strlit("平安夜");
    reveal_strlit("圣诞节");
    reveal_strlit("复活节");
}

/// A day's events are its traditional festivals, then its solar term, then its Western
/// holidays; only the first are traditional festivals and only the last Western holidays.
proof fn lemma_day_event_parts(date: CivilDate, days_until: u32, x: CalendarEventV)
    ensures
        x.category == CalendarEventCategory::TraditionalFestival ==> (day_events(date, days_until).contains(x)
            <==> traditional_events(date, days_until).contains(x)),
        x.category == CalendarEventCategory::WesternHoliday ==> (day_events(date, days_until).contains(x)
            <==> western_events(date, days_until).contains(x)),
        x.category == CalendarEventCategory::SolarTerm ==> (day_events(date, days_until).contains(x)
            <==> solar_term_events(date, days_until).contains(x)),
{
    let t = traditional_events(date, days_until);
    let st = solar_term_events(date, days_until);
    let w = western_events(date, days_until);
    let all = day_events(date, days_until);
    assert(all == t + st + w);
    assert forall|i: int| 0 <= i < st.len() implies (#[trigger] st[i]).category
        == CalendarEventCategory::SolarTerm by {}
    assert forall|i: int| 0 <= i < t.len() implies (#[trigger] t[i]).category
        == CalendarEventCategory::TraditionalFestival by {}
    assert forall|i: int| 0 <= i < w.len() implies (#[trigger] w[i]).category
        == CalendarEventCategory::WesternHoliday by {}
    if all.contains(x) {
        let i = choose|i: int| 0 <= i < all.len() && all[i] == x;
        if i < t.len() {
            assert(t[i] == x);
        } else if i < t.len() + st.len() {
            assert(st[i - t.len()] == x);
        } else {
            assert(w[i - t.len() - st.len()] == x);
        }
    }
    if t.contains(x) {
        let i = choose|i: int| 0 <= i < t.len() && t[i] == x;
        assert(all[i] == x);
    }
    if w.contains(x) {
        let i = choose|i: int| 0 <= i < w.len() && w[i] == x;
        assert(all[t.len() + st.len() + i] == x);
    }
    if st.contains(x) {
        let i = choose|i: int| 0 <= i < st.len() && st[i] == x;
        assert(all[t.len() + i] == x);
    }
}

proof fn lemma_festival_day(date: CivilDate, days_until: u32, id: Seq<char>, name: Seq<char>, month: isize, day: usize)
    requires
        month > 0,
        festival_names(month as int, day as int) == Some((id, name)),
        forall|m: int, d: int|
            #[trigger] festival_names(m, d) matches Some((i2, n2)) && n2 == name ==> m == month && d == day,
        name != "除夕"@,
    ensures
        lists_festival(date, days_until, id, name) <==> lunar_date_of(date.year, date.month, date.day) == (
            month,
            day,
        ),
{
    let x = event_on(id, name, date, CalendarEventCategory::TraditionalFestival, days_until);
    lemma_day_event_parts(date, days_until, x);
    let t = traditional_events(date, days_until);
    let (m, d) = lunar_date_of(date.year, date.month, date.day);
    if (m, d) == (month, day) {
        assert(t[0] == x);
    }
    if t.contains(x) {
        let i = choose|i: int| 0 <= i < t.len() && t[i] == x;
        if m > 0 {
            match festival_names(m as int, d as int) {
                Some((i2, n2)) => {
                    if i == 0 {
                        assert(n2 == name);
                    } else {
                        assert(t[i].name == "除夕"@);
                    }
                },
                None => {
                    assert(t[i].name == "除夕"@);
                },
            }
        } else {
            assert(t[i].name == "除夕"@);
        }
    }
}

proof fn lemma_holiday_day(date: CivilDate, days_until: u32, id: Seq<char>, name: Seq<char>, month: u32, day: u32)
    requires
        fixed_holiday_names(month as int, day as int) == Some((id, name)),
        forall|m: int, d: int|
            #[trigger] fixed_holiday_names(m, d) matches Some((i2, n2)) && n2 == name ==> m == month && d == day,
        name != "复活节"@,
    ensures
        lists_holiday(date, days_until, id, name) <==> date.month == month && date.day == day,
{
    let x = event_on(id, name, date, CalendarEventCategory::WesternHoliday, days_until);
    lemma_day_event_parts(date, days_until, x);
    let w = western_events(date, days_until);
    if date.month == month && date.day == day {
        assert(w[0] == x);
    }
    if w.contains(x) {
        let i = choose|i: int| 0 <= i < w.len() && w[i] == x;
        match fixed_holiday_names(date.month as int, date.day as int) {
            Some((i2, n2)) => {
                if i == 0 {
                    assert(n2 == name);
                } else {
                    assert(w[i].name == "复活节"@);
                }
            },
            None => {
                assert(w[i].name == "复活节"@);
            },
        }
    }
}

/// Each Western holiday is listed on exactly its days: Valentine's Day on 14 February,
/// Halloween on 31 October, Christmas Eve on 24 December, Christmas on 25 December, and Easter
/// on the Sunday the Gregorian computus gives for the year.
pub proof fn law_western_holidays_fall_on_their_days(date: CivilDate, days_until: u32)
    ensures
        lists_holiday(date, days_until, "western.valentinesDay"@, "情人节"@) <==> date.month == 2
            && date.day == 14,
        lists_holiday(date, days_until, "western.halloween"@, "万圣夜"@) <==> date.month == 10 && date.day
            == 31,
        lists_holiday(date, days_until, "western.christmasEve"@, "平安夜"@) <==> date.month == 12
            && date.day == 24,
        lists_holiday(date, days_until, "western.christmas"@, "圣诞节"@) <==> date.month == 12 && date.day
            == 25,
        lists_holiday(date, days_until, "western.easter"@, "复活节"@) <==> easter(date.year as int)
            == Some(date),
{
    lemma_festival_names_distinct();
    lemma_holiday_day(date, days_until, "western.valentinesDay"@, "情人节"@, 2, 14);
    lemma_holiday_day(date, days_until, "western.halloween"@, "万圣夜"@, 10, 31);
    lemma_holiday_day(date, days_until, "western.christmasEve"@, "平安夜"@, 12, 24);
    lemma_holiday_day(date, days_until, "western.christmas"@, "圣诞节"@, 12, 25);
    let x = event_on("western.easter"@, "复活节"@, date, CalendarEventCategory::WesternHoliday, days_until);
    lemma_day_event_parts(date, days_until, x);
    let w = western_events(date, days_until);
    let fixed_len: int = if fixed_holiday_names(date.month as int, date.day as int) is Some { 1 } else { 0 };
    if easter(date.year as int) == Some(date) {
        assert(w[fixed_len] == x);
    }
    if w.contains(x) {
        let i = choose|i: int| 0 <= i < w.len() && w[i] == x;
        if i < fixed_len {
            assert(w[i].name != "复活节"@);
        }
    }
}

/// Whether the events of a day list the solar term with the given id and name.
pub open spec fn lists_solar_term(date: CivilDate, days_until: u32, id: Seq<char>, name: Seq<char>) -> bool {
    day_events(date, days_until).contains(event_on(id, name, date, CalendarEventCategory::SolarTerm, days_until))
}

proof fn lemma_solar_term_names_distinct()
    ensures
        "冬至"@[0] == '冬' && "冬至"@[1] == '至',
        "小寒"@[0] == '小' && "小寒"@[1] == '寒',
        "大寒"@[0] == '大' && "大寒"@[1] == '寒',
        "立春"@[0] == '立' && "立春"@[1] == '春',
        "雨水"@[0] == '雨' && "雨水"@[1] == '水',
        "惊蛰"@[0] == '惊' && "惊蛰"@[1] == '蛰',
        "春分"@[0] == '春' && "春分"@[1] == '分',
        "清明"@[0] == '清' && "清明"@[1] == '明',
        "谷雨"@[0] == '谷' && "谷雨"@[1] == '雨',
        "立夏"@[0] == '立' && "立夏"@[1] == '夏',
        "小满"@[0] == '小' && "小满"@[1] == '满',
        "芒种"@[0] == '芒' && "芒种"@[1] == '种',
        "夏至"@[0] == '夏' && "夏至"@[1] == '至',
        "小暑"@[0] == '小' && "小暑"@[1] == '暑',
        "大暑"@[0] == '大' && "大暑"@[1] == '暑',
        "立秋"@[0] == '立' && "立秋"@[1] == '秋',
        "处暑"@[0] == '处' && "处暑"@[1] == '暑',
        "白露"@[0] == '白' && "白露"@[1] == '露',
        "秋分"@[0] == '秋' && "秋分"@[1] == '分',
        "寒露"@[0] == '寒' && "寒露"@[1] == '露',
        "霜降"@[0] == '霜' && "霜降"@[1] == '降',
        "立冬"@[0] == '立' && "立冬"@[1] == '冬',
        "小雪"@[0] == '小' && "小雪"@[1] == '雪',
        "大雪"@[0] == '大' && "大雪"@[1] == '雪',
{
    reveal_strlit("冬至");
    reveal_strlit("小寒");
    reveal_strlit("大寒");
    reveal_strlit("立春");
    reveal_strlit("雨水");
    reveal_strlit("惊蛰");
    reveal_strlit("春分");
    reveal_strlit("清明");
    reveal_strlit("谷雨");
    reveal_strlit("立夏");
    reveal_strlit("小满");
    reveal_strlit("芒种");
    reveal_strlit("夏至");
    reveal_strlit("小暑");
    reveal_strlit("大暑");
    reveal_strlit("立秋");
    reveal_strlit("处暑");
    reveal_strlit("白露");
    reveal_strlit("秋分");
    reveal_strlit("寒露");
    reveal_strlit("霜降");
    reveal_strlit("立冬");
    reveal_strlit("小雪");
    reveal_strlit("大雪");
}

proof fn lemma_term_day(date: CivilDate, days_until: u32, id: Seq<char>, name: Seq<char>, index: usize)
    requires
        solar_term_names(index as int) == Some((id, name)),
        forall|i: int| #[trigger] solar_term_names(i) matches Some((i2, n2)) && n2 == name ==> i == index,
    ensures
        lists_solar_term(date, days_until, id, name) <==> term_day_of(date.year, date.month, date.day) == (
            0usize,
            index,
        ),
{
    let x = event_on(id, name, date, CalendarEventCategory::SolarTerm, days_until);
    lemma_day_event_parts(date, days_until, x);
    let st = solar_term_events(date, days_until);
    let (day_index, term) = term_day_of(date.year, date.month, date.day);
    if day_index == 0 && term == index {
        assert(st[0] == x);
    }
    if st.contains(x) {
        let i = choose|i: int| 0 <= i < st.len() && st[i] == x;
        assert(i == 0);
        match solar_term_names(term as int) {
            Some((i2, n2)) => {
                assert(n2 == name);
            },
            None => {},
        }
    }
}

/// Each solar term is listed on exactly the day it begins, by its place in the year counted
/// from the winter solstice: 冬至, 小寒, 大寒, 立春, 雨水, 惊蛰, 春分, 清明, 谷雨, 立夏, 小满, 芒种,
/// 夏至, 小暑, 大暑, 立秋, 处暑, 白露, 秋分, 寒露, 霜降, 立冬, 小雪, 大雪.
pub proof fn law_solar_terms_fall_on_their_first_days(date: CivilDate, days_until: u32)
    ensures
        lists_solar_term(date, days_until, "solarTerm.winterSolstice"@, "冬至"@) <==> term_day_of(date.year, date.month, date.day)
            == (0usize, 0usize),
        lists_solar_term(date, days_until, "solarTerm.minorCold"@, "小寒"@) <==> term_day_of(date.year, date.month, date.day)
            == (0usize, 1usize),
        lists_solar_term(date, days_until, "solarTerm.majorCold"@, "大寒"@) <==> term_day_of(date.year, date.month, date.day)
            == (0usize, 2usize),
        lists_solar_term(date, days_until, "solarTerm.startOfSpring"@, "立春"@) <==> term_day_of(date.year, date.month, date.day)
            == (0usize, 3usize),
        lists_solar_term(date, days_until, "solarTerm.rainWater"@, "雨水"@) <==> term_day_of(date.year, date.month, date.day)
            == (0usize, 4usize),
        lists_solar_term(date, days_until, "solarTerm.awakeningOfInsects"@, "惊蛰"@) <==> term_day_of(date.year, date.month, date.day)
            == (0usize, 5usize),
        lists_solar_term(date, days_until, "solarTerm.springEquinox"@, "春分"@) <==> term_day_of(date.year, date.month, date.day)
            == (0usize, 6usize),
        lists_solar_term(date, days_until, "solarTerm.clearAndBright"@, "清明"@) <==> term_day_of(date.year, date.month, date.day)
            == (0usize, 7usize),
        lists_solar_term(date, days_until, "solarTerm.grainRain"@, "谷雨"@) <==> term_day_of(date.year, date.month, date.day)
            == (0usize, 8usize),
        lists_solar_term(date, days_until, "solarTerm.startOfSummer"@, "立夏"@) <==> term_day_of(date.year, date.month, date.day)
            == (0usize, 9usize),
        lists_solar_term(date, days_until, "solarTerm.grainBuds"@, "小满"@) <==> term_day_of(date.year, date.month, date.day)
            == (0usize, 10usize),
        lists_solar_term(date, days_until, "solarTerm.grainInEar"@, "芒种"@) <==> term_day_of(date.year, date.month, date.day)
            == (0usize, 11usize),
        lists_solar_term(date, days_until, "solarTerm.summerSolstice"@, "夏至"@) <==> term_day_of(date.year, date.month, date.day)
            == (0usize, 12usize),
        lists_solar_term(date, days_until, "solarTerm.minorHeat"@, "小暑"@) <==> term_day_of(date.year, date.month, date.day)
            == (0usize, 13usize),
        lists_solar_term(date, days_until, "solarTerm.majorHeat"@, "大暑"@) <==> term_day_of(date.year, date.month, date.day)
            == (0usize, 14usize),
        lists_solar_term(date, days_until, "solarTerm.startOfAutumn"@, "立秋"@) <==> term_day_of(date.year, date.month, date.day)
            == (0usize, 15usize),
        lists_solar_term(date, days_until, "solarTerm.endOfHeat"@, "处暑"@) <==> term_day_of(date.year, date.month, date.day)
            == (0usize, 16usize),
        lists_solar_term(date, days_until, "solarTerm.whiteDew"@, "白露"@) <==> term_day_of(date.year, date.month, date.day)
            == (0usize, 17usize),
        lists_solar_term(date, days_until, "solarTerm.autumnEquinox"@, "秋分"@) <==> term_day_of(date.year, date.month, date.day)
            == (0usize, 18usize),
        lists_solar_term(date, days_until, "solarTerm.coldDew"@, "寒露"@) <==> term_day_of(date.year, date.month, date.day)
            == (0usize, 19usize),
        lists_solar_term(date, days_until, "solarTerm.frostDescent"@, "霜降"@) <==> term_day_of(date.year, date.month, date.day)
            == (0usize, 20usize),
        lists_solar_term(date, days_until, "solarTerm.startOfWinter"@, "立冬"@) <==> term_day_of(date.year, date.month, date.day)
            == (0usize, 21usize),
        lists_solar_term(date, days_until, "solarTerm.minorSnow"@, "小雪"@) <==> term_day_of(date.year, date.month, date.day)
            == (0usize, 22usize),
        lists_solar_term(date, days_until, "solarTerm.majorSnow"@, "大雪"@) <==> term_day_of(date.year, date.month, date.day)
            == (0usize, 23usize),
{
    lemma_solar_term_names_distinct();
    lemma_term_day(date, days_until, "solarTerm.winterSolstice"@, "冬至"@, 0);
    lemma_term_day(date, days_until, "solarTerm.minorCold"@, "小寒"@, 1);
    lemma_term_day(date, days_until, "solarTerm.majorCold"@, "大寒"@, 2);
    lemma_term_day(date, days_until, "solarTerm.startOfSpring"@, "立春"@, 3);
    lemma_term_day(date, days_until, "solarTerm.rainWater"@, "雨水"@, 4);
    lemma_term_day(date, days_until, "solarTerm.awakeningOfInsects"@, "惊蛰"@, 5);
    lemma_term_day(date, days_until, "solarTerm.springEquinox"@, "春分"@, 6);
    lemma_term_day(date, days_until, "solarTerm.clearAndBright"@, "清明"@, 7);
    lemma_term_day(date, days_until, "solarTerm.grainRain"@, "谷雨"@, 8);
    lemma_term_day(date, days_until, "solarTerm.startOfSummer"@, "立夏"@, 9);
    lemma_term_day(date, days_until, "solarTerm.grainBuds"@, "小满"@, 10);
    lemma_term_day(date, days_until, "solarTerm.grainInEar"@, "芒种"@, 11);
    lemma_term_day(date, days_until, "solarTerm.summerSolstice"@, "夏至"@, 12);
    lemma_term_day(date, days_until, "solarTerm.minorHeat"@, "小暑"@, 13);
    lemma_term_day(date, days_until, "solarTerm.majorHeat"@, "大暑"@, 14);
    lemma_term_day(date, days_until, "solarTerm.startOfAutumn"@, "立秋"@, 15);
    lemma_term_day(date, days_until, "solarTerm.endOfHeat"@, "处暑"@, 16);
    lemma_term_day(date, days_until, "solarTerm.whiteDew"@, "白露"@, 17);
    lemma_term_day(date, days_until, "solarTerm.autumnEquinox"@, "秋分"@, 18);
    lemma_term_day(date, days_until, "solarTerm.coldDew"@, "寒露"@, 19);
    lemma_term_day(date, days_until, "solarTerm.frostDescent"@, "霜降"@, 20);
    lemma_term_day(date, days_until, "solarTerm.startOfWinter"@, "立冬"@, 21);
    lemma_term_day(date, days_until, "solarTerm.minorSnow"@, "小雪"@, 22);
    lemma_term_day(date, days_until, "solarTerm.majorSnow"@, "大雪"@, 23);
}

/// Each traditional festival is listed on exactly the days of its lunar date: the Spring
/// Festival on the first day of the first month, the Lantern Festival on its fifteenth, the
/// Dragon Boat Festival on 5/5, Qixi on 7/7, Mid-Autumn on 8/15, the Double Ninth on 9/9 and
/// Laba on 12/8; New Year's Eve on the day before a first day of the first month.
pub proof fn law_festivals_fall_on_their_lunar_days(date: CivilDate, days_until: u32)
    ensures
        ({
            let lunar = lunar_date_of(date.year, date.month, date.day);
            &&& lists_festival(date, days_until, "traditional.springFestival"@, "春节"@) <==> lunar == (
                1isize,
                1usize,
            )
            &&& lists_festival(date, days_until, "traditional.lanternFestival"@, "元宵节"@) <==> lunar == (
                1isize,
                15usize,
            )
            &&& lists_festival(date, days_until, "traditional.dragonBoatFestival"@, "端午节"@) <==> lunar
                == (5isize, 5usize)
            &&& lists_festival(date, days_until, "traditional.qixiFestival"@, "七夕"@) <==> lunar == (
                7isize,
                7usize,
            )
            &&& lists_festival(date, days_until, "traditional.midAutumnFestival"@, "中秋节"@) <==> lunar
                == (8isize, 15usize)
            &&& lists_festival(date, days_until, "traditional.doubleNinthFestival"@, "重阳节"@) <==> lunar
                == (9isize, 9usize)
            &&& lists_festival(date, days_until, "traditional.labaFestival"@, "腊八节"@) <==> lunar == (
                12isize,
                8usize,
            )
            &&& lists_festival(date, days_until, "traditional.newYearsEve"@, "除夕"@) <==> match date_plus_days(
                date.year,
                date.month,
                date.day,
                1,
            ) {
                Some(next) => lunar_date_of(next.year, next.month, next.day) == (1isize, 1usize),
                None => false,
            }
        }),
{
    lemma_festival_names_distinct();
    lemma_festival_day(date, days_until, "traditional.springFestival"@, "春节"@, 1, 1);
    lemma_festival_day(date, days_until, "traditional.lanternFestival"@, "元宵节"@, 1, 15);
    lemma_festival_day(date, days_until, "traditional.dragonBoatFestival"@, "端午节"@, 5, 5);
    lemma_festival_day(date, days_until, "traditional.qixiFestival"@, "七夕"@, 7, 7);
    lemma_festival_day(date, days_until, "traditional.midAutumnFestival"@, "中秋节"@, 8, 15);
    lemma_festival_day(date, days_until, "traditional.doubleNinthFestival"@, "重阳节"@, 9, 9);
    lemma_festival_day(date, days_until, "traditional.labaFestival"@, "腊八节"@, 12, 8);
    let x = event_on(
        "traditional.newYearsEve"@,
        "除夕"@,
        date,
        CalendarEventCategory::TraditionalFestival,
        days_until,
    );
    lemma_day_event_parts(date, days_until, x);
    let t = traditional_events(date, days_until);
    let (m, d) = lunar_date_of(date.year, date.month, date.day);
    let festival_len: int = if m > 0 && festival_names(m as int, d as int) is Some { 1 } else { 0 };
    match date_plus_days(date.year, date.month, date.day, 1) {
        Some(next) => {
            if lunar_date_of(next.year, next.month, next.day) == (1isize, 1usize) {
                assert(t[festival_len] == x);
            }
        },
        None => {},
    }
    if t.contains(x) {
        let i = choose|i: int| 0 <= i < t.len() && t[i] == x;
        if i < festival_len {
            assert(t[i].name != "除夕"@);
        }
    }
}

pub open spec fn weekday_label(n: u32) -> Seq<char> {
    if n == 1 {
        "星期一"@
    } else if n == 2 {
        "星期二"@
    } else if n == 3 {
        "星期三"@
    } else if n == 4 {
        "星期四"@
    } else if n == 5 {
        "星期五"@
    } else if n == 6 {
        "星期六"@
    } else {
        "星期日"@
    }
}

pub open spec fn category_label(category: CalendarEventCategory) -> Seq<char> {
    match category {
        CalendarEventCategory::TraditionalFestival => "中国传统节日"@,
        CalendarEventCategory::SolarTerm => "节气"@,
        CalendarEventCategory::WesternHoliday => "西方节日"@,
    }
}

/// `2026年2月17日 星期二`.
pub open spec fn chinese_date(d: CivilDate) -> Seq<char> {
    signed_decimal(d.year as int) + "年"@ + decimal(d.month as nat) + "月"@ + decimal(d.day as nat) + "日 "@
        + weekday_label(weekday_number(d.year, d.month, d.day))
}

pub open spec fn timing_label(days_until: u32) -> Seq<char> {
    if days_until == 0 {
        "今天"@
    } else {
        decimal(days_until as nat) + "天后"@
    }
}

/// One line of the event list: `- 2026年8月23日 星期日：处暑（节气，11天后）`.
pub open spec fn event_line(e: CalendarEventV) -> Seq<char> {
    "- "@ + chinese_date(e.date_value) + "："@ + e.name + "（"@ + category_label(e.category) + "，"@
        + timing_label(e.days_until) + "）"@
}

/// Lines of the events, joined by newlines.
pub open spec fn event_lines(es: Seq<CalendarEventV>) -> Seq<char>
    decreases es.len(),
{
    if es.len() == 0 {
        Seq::empty()
    } else if es.len() == 1 {
        event_line(es[0])
    } else {
        event_lines(es.drop_last()) + "\n"@ + event_line(es.last())
    }
}

/// The events whose id is not disabled, in order.
pub open spec fn enabled_events(es: Seq<CalendarEventV>, disabled: Seq<Seq<char>>) -> Seq<
    CalendarEventV,
>
    decreases es.len(),
{
    if es.len() == 0 {
        Seq::empty()
    } else {
        let rest = enabled_events(es.drop_last(), disabled);
        if disabled.contains(es.last().id) {
            rest
        } else {
            rest.push(es.last())
        }
    }
}

/// The companion state document of a session.
pub open spec fn companion_state(session: &Session) -> Option<JsonV> {
    match session.companion_state {
        Some(state) => Some(state@),
        None => None,
    }
}

/// A calendar preference: the camelCase key of `preferences`, else its snake_case key.
pub open spec fn preference(state: Option<JsonV>, camel: Seq<char>, snake: Seq<char>) -> Option<
    JsonV,
> {
    match state {
        Some(s) => match s.get("preferences"@) {
            Some(prefs) => match prefs.get(camel) {
                Some(v) => Some(v),
                None => prefs.get(snake),
            },
            None => None,
        },
        None => None,
    }
}

/// The calendar looks ahead between 1 and 90 days: 30 unless the preferences set a count (one
/// that fits a `u32`), a set count kept within those bounds.
pub proof fn law_lookahead_days(state: Option<JsonV>, n: u64)
    ensures
        1 <= lookahead_days(state) <= 90,
        preference(state, "calendarLookaheadDays"@, "calendar_lookahead_days"@) is None
            ==> lookahead_days(state) == 30,
        state is None ==> lookahead_days(state) == 30,
        preference(state, "calendarLookaheadDays"@, "calendar_lookahead_days"@) == Some(
            JsonV::Number(JsonNumber::PosInt(n)),
        ) ==> lookahead_days(state) == if n > u32::MAX {
            30
        } else if n < 1 {
            1
        } else if n > 90 {
            90
        } else {
            n
        },
{
}

pub open spec fn awareness_enabled(state: Option<JsonV>) -> bool {
    match preference(state, "calendarAwarenessEnabled"@, "calendar_awareness_enabled"@) {
        Some(v) => match v.as_bool() {
            Some(b) => b,
            None => true,
        },
        None => true,
    }
}

pub open spec fn clamp_days(n: u32) -> u32 {
    if n < 1 {
        1
    } else if n > MAX_LOOKAHEAD_DAYS {
        MAX_LOOKAHEAD_DAYS
    } else {
        n
    }
}

pub open spec fn lookahead_days(state: Option<JsonV>) -> u32 {
    let configured = match preference(state, "calendarLookaheadDays"@, "calendar_lookahead_days"@) {
        Some(v) => match v.as_u64() {
            Some(n) => if n <= u32::MAX {
                n as u32
            } else {
                DEFAULT_LOOKAHEAD_DAYS
            },
            None => DEFAULT_LOOKAHEAD_DAYS,
        },
        None => DEFAULT_LOOKAHEAD_DAYS,
    };
    clamp_days(configured)
}

pub open spec fn disabled_ids(state: Option<JsonV>) -> Seq<Seq<char>> {
    match preference(state, "calendarDisabledEventIds"@, "calendar_disabled_event_ids"@) {
        Some(v) => match v.as_array() {
            Some(a) => string_items(a),
            None => Seq::empty(),
        },
        None => Seq::empty(),
    }
}

/// A template with the three placeholders replaced, in order.
pub open spec fn rendered(
    template: Seq<char>,
    date: Seq<char>,
    days: Seq<char>,
    events: Seq<char>,
) -> Seq<char> {
    replace_all(
        replace_all(replace_all(template, DATE_PLACEHOLDER@, date), LOOKAHEAD_DAYS_PLACEHOLDER@, days),
        EVENTS_PLACEHOLDER@,
        events,
    )
}

pub open spec fn rendered_with(template: Seq<char>, data: Option<&CalendarPromptData>) -> Seq<char> {
    match data {
        Some(d) => rendered(template, d.current_date@, decimal(d.lookahead_days as nat), d.events@),
        None => rendered(template, Seq::empty(), Seq::empty(), Seq::empty()),
    }
}

// ---------------------------------------------------------------------------
// Lookup tables
// ---------------------------------------------------------------------------

fn festival(month: isize, day: usize) -> (r: Option<(&'static str, &'static str)>)
    ensures
        pair_view(r) == festival_names(month as int, day as int),
{
    if month == 1 && day == 1 {
        Some(("traditional.springFestival", "春节"))
    } else if month == 1 && day == 15 {
        Some(("traditional.lanternFestival", "元宵节"))
    } else if month == 5 && day == 5 {
        Some(("traditional.dragonBoatFestival", "端午节"))
    } else if month == 7 && day == 7 {
        Some(("traditional.qixiFestival", "七夕"))
    } else if month == 8 && day == 15 {
        Some(("traditional.midAutumnFestival", "中秋节"))
    } else if month == 9 && day == 9 {
        Some(("traditional.doubleNinthFestival", "重阳节"))
    } else if month == 12 && day == 8 {
        Some(("traditional.labaFestival", "腊八节"))
    } else {
        None
    }
}

fn solar_term(index: usize) -> (r: Option<(&'static str, &'static str)>)
    ensures
        pair_view(r) == solar_term_names(index as int),
{
    match index {
        0 => Some(("solarTerm.winterSolstice", "冬至")),
        1 => Some(("solarTerm.minorCold", "小寒")),
        2 => Some(("solarTerm.majorCold", "大寒")),
        3 => Some(("solarTerm.startOfSpring", "立春")),
        4 => Some(("solarTerm.rainWater", "雨水")),
        5 => Some(("solarTerm.awakeningOfInsects", "惊蛰")),
        6 => Some(("solarTerm.springEquinox", "春分")),
        7 => Some(("solarTerm.clearAndBright", "清明")),
        8 => Some(("solarTerm.grainRain", "谷雨")),
        9 => Some(("solarTerm.startOfSummer", "立夏")),
        10 => Some(("solarTerm.grainBuds", "小满")),
        11 => Some(("solarTerm.grainInEar", "芒种")),
        12 => Some(("solarTerm.summerSolstice", "夏至")),
        13 => Some(("solarTerm.minorHeat", "小暑")),
        14 => Some(("solarTerm.majorHeat", "大暑")),
        15 => Some(("solarTerm.startOfAutumn", "立秋")),
        16 => Some(("solarTerm.endOfHeat", "处暑")),
        17 => Some(("solarTerm.whiteDew", "白露")),
        18 => Some(("solarTerm.autumnEquinox", "秋分")),
        19 => Some(("solarTerm.coldDew", "寒露")),
        20 => Some(("solarTerm.frostDescent", "霜降")),
        21 => Some(("solarTerm.startOfWinter", "立冬")),
        22 => Some(("solarTerm.minorSnow", "小雪")),
        23 => Some(("solarTerm.majorSnow", "大雪")),
        _ => None,
    }
}

fn fixed_holiday(month: u32, day: u32) -> (r: Option<(&'static str, &'static str)>)
    ensures
        pair_view(r) == fixed_holiday_names(month as int, day as int),
{
    if month == 2 && day == 14 {
        Some(("western.valentinesDay", "情人节"))
    } else if month == 10 && day == 31 {
        Some(("western.halloween", "万圣夜"))
    } else if month == 12 && day == 24 {
        Some(("western.christmasEve", "平安夜"))
    } else if month == 12 && day == 25 {
        Some(("western.christmas", "圣诞节"))
    } else {
        None
    }
}

/// Chinese name of an ISO weekday number.
pub fn chinese_weekday_name(weekday: u32) -> (r: &'static str)
    requires
        1 <= weekday <= 7,
    ensures
        r@ == weekday_label(weekday),
{
    match weekday {
        1 => "星期一",
        2 => "星期二",
        3 => "星期三",
        4 => "星期四",
        5 => "星期五",
        6 => "星期六",
        _ => "星期日",
    }
}

pub fn category_name(category: CalendarEventCategory) -> (r: &'static str)
    ensures
        r@ == category_label(category),
{
    match category {
        CalendarEventCategory::TraditionalFestival => "中国传统节日",
        CalendarEventCategory::SolarTerm => "节气",
        CalendarEventCategory::WesternHoliday => "西方节日",
    }
}

/// `2026年2月17日 星期二`.
pub fn format_chinese_date(date: CivilDate) -> (r: String)
    requires
        date_ok(date),
    ensures
        r@ == chinese_date(date),
{
    let mut r = signed_decimal_string(date.year);
    push_str(&mut r, "年");
    let month = decimal_string(date.month as u64);
    push_str(&mut r, month.as_str());
    push_str(&mut r, "月");
    let day = decimal_string(date.day as u64);
    push_str(&mut r, day.as_str());
    push_str(&mut r, "日 ");
    let weekday = weekday_from_monday(date);
    push_str(&mut r, chinese_weekday_name(weekday));
    r
}

impl CalendarEvent {
    fn new(
        id: &str,
        name: &str,
        date: CivilDate,
        category: CalendarEventCategory,
        days_until: u32,
    ) -> (r: Self)
        requires
            date_ok(date),
            lunar_range(date),
        ensures
            r@ == event_on(id@, name@, date, category, days_until),
    {
        CalendarEvent {
            id: id.to_owned(),
            name: name.to_owned(),
            date: iso_date_string(date),
            weekday: weekday_from_monday(date),
            category,
            days_until,
            date_value: date,
        }
    }
}

fn push_event(events: &mut Vec<CalendarEvent>, event: CalendarEvent)
    ensures
        event_views(final(events)@) == event_views(old(events)@).push(event@),
{
    events.push(event);
    assert(event_views(events@) =~= event_views(old(events)@).push(event@));
}

// ---------------------------------------------------------------------------
// Events
// ---------------------------------------------------------------------------

fn div_euclid(a: i64, b: i64) -> (r: i64)
    requires
        0 < b <= 1000,
        -1_000_000_000_000 < a < 1_000_000_000_000,
    ensures
        r == a / b,
{
    assert(-1_000_000_000_000 <= a / b <= 1_000_000_000_000) by (nonlinear_arith)
        requires
            0 < b <= 1000,
            -1_000_000_000_000 < a < 1_000_000_000_000,
    ;
    match a.checked_div_euclid(b) {
        Some(q) => q,
        None => 0,
    }
}

fn rem_euclid(a: i64, b: i64) -> (r: i64)
    requires
        0 < b <= 1000,
    ensures
        r == a % b,
{
    assert(0 <= a % b < b) by (nonlinear_arith)
        requires
            0 < b <= 1000,
    ;
    match a.checked_rem_euclid(b) {
        Some(m) => m,
        None => 0,
    }
}

/// Easter Sunday (Meeus/Jones/Butcher Gregorian computus); `None` outside the dates
/// `chrono` represents.
pub fn easter_date(year: i32) -> (r: Option<CivilDate>)
    ensures
        r == easter(year as int),
{
    let y = year as i64;
    let a = rem_euclid(y, 19);
    let b = div_euclid(y, 100);
    let c = rem_euclid(y, 100);
    let d = div_euclid(b, 4);
    let e = rem_euclid(b, 4);
    let f = div_euclid(b + 8, 25);
    let g = div_euclid(b - f + 1, 3);
    let h = rem_euclid(19 * a + b - d - g + 15, 30);
    let i = div_euclid(c, 4);
    let k = rem_euclid(c, 4);
    let l = rem_euclid(32 + 2 * e + 2 * i - h - k, 7);
    let m = div_euclid(a + 11 * h + 22 * l, 451);
    let month = div_euclid(h + l - 7 * m + 114, 31);
    let day = rem_euclid(h + l - 7 * m + 114, 31) + 1;
    proof {
        lemma_easter_in_spring(year as int);
    }
    if date_exists(year, month as u32, day as u32) {
        Some(CivilDate { year, month: month as u32, day: day as u32 })
    } else {
        None
    }
}

/// Easter falls on a day of March or April.
pub proof fn lemma_easter_in_spring(year: int)
    ensures
        3 <= easter_month_day(year).0 <= 4,
        1 <= easter_month_day(year).1 <= 31,
        easter_month_day(year).0 == 3 ==> 22 <= easter_month_day(year).1,
        easter_month_day(year).0 == 4 ==> easter_month_day(year).1 <= 25,
{
    let a = year % 19;
    let b = year / 100;
    let c = year % 100;
    let d = b / 4;
    let e = b % 4;
    let f = (b + 8) / 25;
    let g = (b - f + 1) / 3;
    let h = (19 * a + b - d - g + 15) % 30;
    let i = c / 4;
    let k = c % 4;
    let l = (32 + 2 * e + 2 * i - h - k) % 7;
    let m = (a + 11 * h + 22 * l) / 451;
    assert(0 <= a < 19 && 0 <= h < 30 && 0 <= l < 7);
    assert(0 <= m <= 1);
    assert(m == 1 ==> h + l >= 26);
}

fn append_traditional_festivals(events: &mut Vec<CalendarEvent>, date: CivilDate, days_until: u32)
    requires
        date_ok(date),
        lunar_range(date),
        date_plus_days(date.year, date.month, date.day, 1) matches Some(next) ==> lunar_range(next),
    ensures
        event_views(final(events)@) == event_views(old(events)@) + traditional_events(date, days_until),
{
    let ghost start = event_views(events@);
    let (lunar_month, lunar_day) = lunar_date(date);
    if lunar_month > 0 {
        if let Some((id, name)) = festival(lunar_month, lunar_day) {
            push_event(
                events,
                CalendarEvent::new(id, name, date, CalendarEventCategory::TraditionalFestival, days_until),
            );
        }
    }
    let ghost middle = event_views(events@);
    proof {
        lemma_date_plus_days_ok(date.year, date.month, date.day, 1);
    }
    match add_days(date, 1) {
        Some(next) => {
            let (next_month, next_day) = lunar_date(next);
            if next_month == 1 && next_day == 1 {
                push_event(
                    events,
                    CalendarEvent::new(
                        "traditional.newYearsEve",
                        "除夕",
                        date,
                        CalendarEventCategory::TraditionalFestival,
                        days_until,
                    ),
                );
            }
        },
        None => {},
    }
    assert(event_views(events@) =~= start + traditional_events(date, days_until));
}

fn append_solar_term(events: &mut Vec<CalendarEvent>, date: CivilDate, days_until: u32)
    requires
        date_ok(date),
        lunar_range(date),
    ensures
        event_views(final(events)@) == event_views(old(events)@) + solar_term_events(date, days_until),
{
    let (day_index, term) = term_day(date);
    if day_index != 0 {
        assert(event_views(events@) =~= event_views(old(events)@) + solar_term_events(date, days_until));
        return;
    }
    if let Some((id, name)) = solar_term(term) {
        push_event(events, CalendarEvent::new(id, name, date, CalendarEventCategory::SolarTerm, days_until));
    }
    assert(event_views(events@) =~= event_views(old(events)@) + solar_term_events(date, days_until));
}

fn append_western_holidays(events: &mut Vec<CalendarEvent>, date: CivilDate, days_until: u32)
    requires
        date_ok(date),
        lunar_range(date),
    ensures
        event_views(final(events)@) == event_views(old(events)@) + western_events(date, days_until),
{
    let ghost start = event_views(events@);
    if let Some((id, name)) = fixed_holiday(date.month, date.day) {
        push_event(events, CalendarEvent::new(id, name, date, CalendarEventCategory::WesternHoliday, days_until));
    }
    let is_easter = match easter_date(date.year) {
        Some(easter_day) => easter_day == date,
        None => false,
    };
    if is_easter {
        push_event(
            events,
            CalendarEvent::new("western.easter", "复活节", date, CalendarEventCategory::WesternHoliday, days_until),
        );
    }
    assert(event_views(events@) =~= start + western_events(date, days_until));
}

/// The festivals, solar terms and holidays of the `days` days from `start` on (day 0 is
/// `start`), in date order.
pub fn upcoming_events(start: CivilDate, days: u32) -> (r: Vec<CalendarEvent>)
    requires
        date_ok(start),
        window_in_lunar_range(start, days as nat),
    ensures
        event_views(r@) == upcoming(start, days as nat),
        dated_in_range(event_views(r@)),
{
    let mut events: Vec<CalendarEvent> = Vec::new();
    let mut offset: u32 = 0;
    assert(event_views(events@) =~= upcoming(start, 0));
    while offset < days
        invariant
            date_ok(start),
            window_in_lunar_range(start, days as nat),
            offset <= days,
            event_views(events@) == upcoming(start, offset as nat),
            dated_in_range(event_views(events@)),
        decreases days - offset,
    {
        let ghost before = event_views(events@);
        proof {
            lemma_date_plus_days_ok(start.year, start.month, start.day, offset as i64);
        }
        match add_days(start, offset as i64) {
            Some(date) => {
                proof {
                    lemma_date_plus_days_add(start, offset as i64, 1);
                    assert(date_plus_days(start.year, start.month, start.day, (offset + 1) as i64)
                        == date_plus_days(date.year, date.month, date.day, 1));
                }
                append_traditional_festivals(&mut events, date, offset);
                append_solar_term(&mut events, date, offset);
                append_western_holidays(&mut events, date, offset);
                assert(event_views(events@) =~= before + day_events(date, offset));
                assert(dated_in_range(day_events(date, offset)));
            },
            None => {},
        }
        offset += 1;
    }
    events
}

/// Upcoming events for a session, `days` clamped to 1..=90; `reference_day` is the session's
/// effective current day.
pub fn upcoming_events_for_session(reference_day: CivilDate, days: u32) -> (r: Vec<CalendarEvent>)
    requires
        date_ok(reference_day),
        window_in_lunar_range(reference_day, clamp_days(days) as nat),
    ensures
        event_views(r@) == upcoming(reference_day, clamp_days(days) as nat),
{
    let clamped = if days < 1 {
        1
    } else if days > MAX_LOOKAHEAD_DAYS {
        MAX_LOOKAHEAD_DAYS
    } else {
        days
    };
    upcoming_events(reference_day, clamped)
}

// ---------------------------------------------------------------------------
// Preferences
// ---------------------------------------------------------------------------

fn preference_value<'a>(session: &'a Session, camel: &str, snake: &str) -> (r: Option<&'a Json>)
    ensures
        opt_view(r) == preference(companion_state(session), camel@, snake@),
{
    match &session.companion_state {
        Some(state) => match state.get("preferences") {
            Some(prefs) => match prefs.get(camel) {
                Some(v) => Some(v),
                None => prefs.get(snake),
            },
            None => None,
        },
        None => None,
    }
}

/// Whether the calendar is on for a session (on unless its preferences turn it off).
pub fn calendar_awareness_enabled(session: &Session) -> (r: bool)
    ensures
        r == awareness_enabled(companion_state(session)),
{
    match preference_value(session, "calendarAwarenessEnabled", "calendar_awareness_enabled") {
        Some(v) => match v.as_bool() {
            Some(b) => b,
            None => true,
        },
        None => true,
    }
}

/// The ids of the events a session's preferences turn off.
pub fn disabled_event_ids(session: &Session) -> (r: Vec<String>)
    ensures
        string_views(r@) == disabled_ids(companion_state(session)),
{
    match preference_value(session, "calendarDisabledEventIds", "calendar_disabled_event_ids") {
        Some(v) => match v.as_array() {
            Some(items) => Json::string_items_of(items),
            None => {
                let ids: Vec<String> = Vec::new();
                assert(string_views(ids@) =~= Seq::<Seq<char>>::empty());
                ids
            },
        },
        None => {
            let ids: Vec<String> = Vec::new();
            assert(string_views(ids@) =~= Seq::<Seq<char>>::empty());
            ids
        },
    }
}

/// The number of days the calendar looks ahead: the session's preference, else 30, clamped
/// to 1..=90.
pub fn calendar_lookahead_days(session: &Session) -> (r: u32)
    ensures
        r == lookahead_days(companion_state(session)),
        1 <= r <= MAX_LOOKAHEAD_DAYS,
{
    let configured = match preference_value(session, "calendarLookaheadDays", "calendar_lookahead_days") {
        Some(v) => match v.as_u64() {
            Some(n) => if n <= 4294967295u64 {
                n as u32
            } else {
                DEFAULT_LOOKAHEAD_DAYS
            },
            None => DEFAULT_LOOKAHEAD_DAYS,
        },
        None => DEFAULT_LOOKAHEAD_DAYS,
    };
    if configured < 1 {
        1
    } else if configured > MAX_LOOKAHEAD_DAYS {
        MAX_LOOKAHEAD_DAYS
    } else {
        configured
    }
}

// ---------------------------------------------------------------------------
// Prompt text
// ---------------------------------------------------------------------------

fn is_disabled(ids: &Vec<String>, id: &String) -> (r: bool)
    ensures
        r == string_views(ids@).contains(id@),
{
    let mut i: usize = 0;
    while i < ids.len()
        invariant
            i <= ids.len(),
            forall|j: int| 0 <= j < i ==> ids@[j]@ != id@,
        decreases ids.len() - i,
    {
        if str_eq(ids[i].as_str(), id.as_str()) {
            assert(string_views(ids@)[i as int] == id@);
            return true;
        }
        i += 1;
    }
    assert forall|j: int| 0 <= j < ids@.len() implies #[trigger] string_views(ids@)[j]
        != id@ by {}
    false
}

fn push_event_line(out: &mut String, event: &CalendarEvent)
    requires
        date_ok(event.date_value),
        lunar_range(event.date_value),
    ensures
        final(out)@ == old(out)@ + event_line(event@),
{
    push_str(out, "- ");
    let date = format_chinese_date(event.date_value);
    push_str(out, date.as_str());
    push_str(out, "：");
    push_str(out, event.name.as_str());
    push_str(out, "（");
    push_str(out, category_name(event.category));
    push_str(out, "，");
    if event.days_until == 0 {
        push_str(out, "今天");
    } else {
        let n = decimal_string(event.days_until as u64);
        push_str(out, n.as_str());
        push_str(out, "天后");
    }
    push_str(out, "）");
    assert(out@ =~= old(out)@ + event_line(event@));
}

/// The calendar section of the prompt for a session whose effective current day is `today`:
/// `None` when the calendar is off or no enabled event falls in the window.
#[verifier::rlimit(40)]
pub fn prompt_data(session: &Session, today: CivilDate) -> (r: Option<CalendarPromptData>)
    requires
        date_ok(today),
        window_in_lunar_range(today, lookahead_days(companion_state(session)) as nat),
    ensures
        ({
            let state = companion_state(session);
            let shown = enabled_events(
                upcoming(today, lookahead_days(state) as nat),
                disabled_ids(state),
            );
            match r {
                None => !awareness_enabled(state) || shown.len() == 0,
                Some(d) => awareness_enabled(state) && shown.len() > 0 && d.current_date@
                    == chinese_date(today) && d.lookahead_days == lookahead_days(state) && d.events@
                    == event_lines(shown),
            }
        }),
{
    if !calendar_awareness_enabled(session) {
        return None;
    }
    let lookahead = calendar_lookahead_days(session);
    let disabled = disabled_event_ids(session);
    let events = upcoming_events(today, lookahead);
    let ghost all = event_views(events@);
    let ghost off = string_views(disabled@);
    let mut lines = String::new();
    let mut shown: usize = 0;
    let mut i: usize = 0;
    while i < events.len()
        invariant
            i <= events.len(),
            all == event_views(events@),
            all == upcoming(today, lookahead as nat),
            off == string_views(disabled@),
            dated_in_range(all),
            shown <= i,
            shown == enabled_events(all.take(i as int), off).len(),
            lines@ == event_lines(enabled_events(all.take(i as int), off)),
        decreases events.len() - i,
    {
        let ghost prev = enabled_events(all.take(i as int), off);
        assert(all.take(i + 1).drop_last() =~= all.take(i as int));
        let event = &events[i];
        assert(all[i as int] == event@);
        assert(date_ok(all[i as int].date_value));
        if !is_disabled(&disabled, &event.id) {
            if shown > 0 {
                push_str(&mut lines, "\n");
            }
            push_event_line(&mut lines, event);
            shown += 1;
            assert(prev.push(event@).drop_last() =~= prev);
        }
        i += 1;
    }
    assert(all.take(events.len() as int) =~= all);
    if shown == 0 {
        return None;
    }
    Some(
        CalendarPromptData {
            current_date: format_chinese_date(today),
            lookahead_days: lookahead,
            events: lines,
        },
    )
}

/// Whether a prompt holds any of the calendar placeholders.
pub fn contains_prompt_placeholder(content: &str) -> (r: bool)
    ensures
        r == (contains(content@, DATE_PLACEHOLDER@) || contains(content@, LOOKAHEAD_DAYS_PLACEHOLDER@)
            || contains(content@, EVENTS_PLACEHOLDER@)),
{
    let hay = chars_of(content);
    contains_exec(&hay, &chars_of(DATE_PLACEHOLDER)) || contains_exec(
        &hay,
        &chars_of(LOOKAHEAD_DAYS_PLACEHOLDER),
    ) || contains_exec(&hay, &chars_of(EVENTS_PLACEHOLDER))
}

/// Replaces the calendar placeholders of a template with the prompt data (with nothing when
/// there is none).
pub fn render_prompt_variables(template: &str, data: Option<&CalendarPromptData>) -> (r: String)
    ensures
        r@ == rendered_with(template@, data),
{
    proof {
        reveal_strlit("{{calendar_date}}");
        reveal_strlit("{{calendar_lookahead_days}}");
        reveal_strlit("{{calendar_events}}");
    }
    let (date, days, events) = match data {
        Some(d) => (d.current_date.clone(), decimal_string(d.lookahead_days as u64), d.events.clone()),
        None => (String::new(), String::new(), String::new()),
    };
    let with_date = replace(template, DATE_PLACEHOLDER, date.as_str());
    let with_days = replace(with_date.as_str(), LOOKAHEAD_DAYS_PLACEHOLDER, days.as_str());
    replace(with_days.as_str(), EVENTS_PLACEHOLDER, events.as_str())
}

impl CalendarPromptData {
    /// The default calendar section filled with this data.
    pub fn render_default_context(&self) -> (r: String)
        ensures
            r@ == rendered_with(DEFAULT_PROMPT_TEMPLATE@, Some(self)),
    {
        render_prompt_variables(DEFAULT_PROMPT_TEMPLATE, Some(self))
    }
}

} // verus!
