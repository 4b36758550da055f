//! Gregorian calendar arithmetic, holiday lists and text layouts of month grids.
use vstd::prelude::*;
use crate::time::{tdiv, tmod, lemma_tdiv_bounds};
use crate::text::{
    align_center, align_left, align_right, char_count, push_align_left, join_seqs, join_strings, repeat_char, int_text, nat_digits, push_align_center,
    push_align_right, push_char, push_int, push_nat, push_prefix, push_repeat, push_str, same_text,
    spaces, string_views, trim_end_seq, trim_seq, trimmed, trimmed_end,
};

verus! {

/// Where a holiday comes from.
#[derive(Clone, Copy, Debug, PartialEq, Eq, Structural)]
pub enum HolidayCategory {
    American,
    Chinese,
    Custom,
}

impl HolidayCategory {
    /// Display label of the category.
    pub fn label(&self) -> (r: &'static str)
        ensures
            r == match *self {
                HolidayCategory::American => "[US] American Holidays",
                HolidayCategory::Chinese => "[CN] Chinese Festivals",
                HolidayCategory::Custom => "[Event] Custom / Family Events",
            },
    {
        match self {
            HolidayCategory::American => "[US] American Holidays",
            HolidayCategory::Chinese => "[CN] Chinese Festivals",
            HolidayCategory::Custom => "[Event] Custom / Family Events",
        }
    }
}

/// Visual style of the calendar on slides and printable sheets.
#[derive(Clone, Copy, Debug, PartialEq, Eq, Structural)]
pub enum CalendarStyle {
    /// Classic wall calendar with individual day boxes and holiday badges.
    BoxedGrid,
    /// Simple monospace table.
    SimpleGrid,
}

impl Default for CalendarStyle {
    fn default() -> (s: CalendarStyle)
        ensures
            s == CalendarStyle::BoxedGrid,
    {
        CalendarStyle::BoxedGrid
    }
}

impl CalendarStyle {
    /// Display label of the style.
    pub fn label(&self) -> (r: &'static str)
        ensures
            r == match *self {
                CalendarStyle::BoxedGrid => "🧱 Boxed Wall Calendar",
                CalendarStyle::SimpleGrid => "📋 Simple Grid",
            },
    {
        match self {
            CalendarStyle::BoxedGrid => "🧱 Boxed Wall Calendar",
            CalendarStyle::SimpleGrid => "📋 Simple Grid",
        }
    }
}

/// A configurable holiday or cultural event with its own RGBA color.
#[derive(Clone, Debug)]
pub struct HolidayItem {
    pub id: String,
    pub name: String,
    pub month: u32,
    pub day: u32,
    pub category: HolidayCategory,
    pub enabled: bool,
    pub color: [u8; 4],
}

/// The color a holiday gets when none is recorded (gold).
pub fn default_holiday_color() -> (c: [u8; 4])
    ensures
        c@ == seq![255u8, 215u8, 0u8, 255u8],
{
    [255, 215, 0, 255]
}

/// Short badge text shown in a day box for a holiday id.
pub open spec fn badge_for_id(id: Seq<char>) -> Seq<char> {
    if id == "us_new_year"@ { "NewYr"@ }
    else if id == "us_mlk"@ { "MLK"@ }
    else if id == "us_valentines"@ { "V-Day"@ }
    else if id == "us_presidents"@ { "Pres"@ }
    else if id == "us_st_patrick"@ { "StPat"@ }
    else if id == "us_easter"@ { "Easter"@ }
    else if id == "us_earth_day"@ { "Earth"@ }
    else if id == "us_mothers_day"@ { "Moms"@ }
    else if id == "us_memorial"@ { "Mem"@ }
    else if id == "us_juneteenth"@ { "June19"@ }
    else if id == "us_fathers_day"@ { "Dads"@ }
    else if id == "us_independence"@ { "July4"@ }
    else if id == "us_labor"@ { "Labor"@ }
    else if id == "us_columbus"@ { "Columb"@ }
    else if id == "us_halloween"@ { "Spooky"@ }
    else if id == "us_veterans"@ { "Vets"@ }
    else if id == "us_thanksgiving"@ { "Thanks"@ }
    else if id == "us_christmas_eve"@ { "XmEve"@ }
    else if id == "us_christmas"@ { "Xmas"@ }
    else if id == "us_new_years_eve"@ { "NYE"@ }
    else if id == "cn_cny"@ { "CNY"@ }
    else if id == "cn_lantern"@ { "Lantern"@ }
    else if id == "cn_qingming"@ { "QingM"@ }
    else if id == "cn_dragon_boat"@ { "Dragon"@ }
    else if id == "cn_qixi"@ { "Qixi"@ }
    else if id == "cn_mid_autumn"@ { "Moon"@ }
    else if id == "cn_double_ninth"@ { "9-9th"@ }
    else if id == "cn_dongzhi"@ { "DongZ"@ }
    else { "Event"@ }
}

fn badge_lookup(id: &str) -> (r: &'static str)
    ensures
        r@ == badge_for_id(id@),
{
    if same_text(id, "us_new_year") { "NewYr" }
    else if same_text(id, "us_mlk") { "MLK" }
    else if same_text(id, "us_valentines") { "V-Day" }
    else if same_text(id, "us_presidents") { "Pres" }
    else if same_text(id, "us_st_patrick") { "StPat" }
    else if same_text(id, "us_easter") { "Easter" }
    else if same_text(id, "us_earth_day") { "Earth" }
    else if same_text(id, "us_mothers_day") { "Moms" }
    else if same_text(id, "us_memorial") { "Mem" }
    else if same_text(id, "us_juneteenth") { "June19" }
    else if same_text(id, "us_fathers_day") { "Dads" }
    else if same_text(id, "us_independence") { "July4" }
    else if same_text(id, "us_labor") { "Labor" }
    else if same_text(id, "us_columbus") { "Columb" }
    else if same_text(id, "us_halloween") { "Spooky" }
    else if same_text(id, "us_veterans") { "Vets" }
    else if same_text(id, "us_thanksgiving") { "Thanks" }
    else if same_text(id, "us_christmas_eve") { "XmEve" }
    else if same_text(id, "us_christmas") { "Xmas" }
    else if same_text(id, "us_new_years_eve") { "NYE" }
    else if same_text(id, "cn_cny") { "CNY" }
    else if same_text(id, "cn_lantern") { "Lantern" }
    else if same_text(id, "cn_qingming") { "QingM" }
    else if same_text(id, "cn_dragon_boat") { "Dragon" }
    else if same_text(id, "cn_qixi") { "Qixi" }
    else if same_text(id, "cn_mid_autumn") { "Moon" }
    else if same_text(id, "cn_double_ninth") { "9-9th" }
    else if same_text(id, "cn_dongzhi") { "DongZ" }
    else { "Event" }
}

impl HolidayItem {
    /// A new, enabled holiday with the given RGBA color.
    pub fn new(id: &str, name: &str, month: u32, day: u32, category: HolidayCategory, color: [u8; 4]) -> (h: HolidayItem)
        ensures
            h.id@ == id@,
            h.name@ == name@,
            h.month == month,
            h.day == day,
            h.category == category,
            h.enabled,
            h.color == color,
    {
        HolidayItem {
            id: id.to_owned(),
            name: name.to_owned(),
            month,
            day,
            category,
            enabled: true,
            color,
        }
    }

    /// Short label displayed inside the day box (bottom-right).
    pub fn short_badge(&self) -> (r: &'static str)
        ensures
            r@ == badge_for_id(self.id@),
    {
        badge_lookup(self.id.as_str())
    }
}

/// A custom event or family holiday (e.g. a birthday).
#[derive(Clone, Debug)]
pub struct CustomCalendarEvent {
    pub month: u32,
    pub day: u32,
    pub label: String,
    pub color: [u8; 4],
}

/// Badge of a custom event: a star, then the trimmed label, cut to five characters
/// when the trimmed label is longer than six.
pub open spec fn event_badge(label: Seq<char>) -> Seq<char> {
    let clean = trim_seq(label);
    if clean.len() <= 6 { seq!['★'] + clean } else { seq!['★'] + clean.take(5) }
}

impl Default for CustomCalendarEvent {
    fn default() -> (e: CustomCalendarEvent)
        ensures
            e.month == 1,
            e.day == 1,
            e.label@ == "Family Birthday"@,
            e.color@ == seq![255u8, 105u8, 180u8, 255u8],
    {
        CustomCalendarEvent {
            month: 1,
            day: 1,
            label: "Family Birthday".to_owned(),
            color: [255, 105, 180, 255],
        }
    }
}

impl CustomCalendarEvent {
    /// Badge text: a star followed by the (possibly shortened) trimmed label.
    pub fn short_badge(&self) -> (r: String)
        ensures
            r@ == event_badge(self.label@),
    {
        let clean = trimmed(self.label.as_str());
        let mut r = String::new();
        push_char(&mut r, '★');
        let n = char_count(clean.as_str());
        if n <= 6 {
            push_str(&mut r, clean.as_str());
        } else {
            push_prefix(&mut r, clean.as_str(), 5);
        }
        assert(r@ =~= event_badge(self.label@));
        r
    }
}

// ---------------------------------------------------------------------------
// Date arithmetic
// ---------------------------------------------------------------------------

/// Whether a year is a Gregorian leap year.
pub open spec fn leap_year(year: int) -> bool {
    (year % 4 == 0 && year % 100 != 0) || year % 400 == 0
}

/// Days in a month; months outside 1..=12 count as 30 days.
pub open spec fn month_days(year: int, month: int) -> int {
    if month == 1 || month == 3 || month == 5 || month == 7 || month == 8 || month == 10
        || month == 12 {
        31
    } else if month == 4 || month == 6 || month == 9 || month == 11 {
        30
    } else if month == 2 {
        if leap_year(year) { 29 } else { 28 }
    } else {
        30
    }
}

/// The year and month that Zeller's congruence works on: January and February count as
/// months 13 and 14 of the previous year; other months are read as a signed 32-bit value.
pub open spec fn zeller_year(year: int, month: u32) -> int {
    if month < 3 { year - 1 } else { year }
}

pub open spec fn zeller_month(month: u32) -> int {
    if month < 3 { month + 12 } else { (month as i32) as int }
}

/// Zeller's congruence as evaluated with 32-bit truncating arithmetic.
pub open spec fn zeller_h(year: int, month: u32) -> int {
    let y = zeller_year(year, month);
    let m = zeller_month(month);
    let k = tmod(y, 100);
    let j = tdiv(y, 100);
    tmod(1 + tdiv(13 * (m + 1), 5) + k + tdiv(k, 4) + tdiv(j, 4) + 5 * j, 7)
}

/// Weekday of the first day of the month, 0 = Sunday .. 6 = Saturday (for years from 1 on;
/// earlier years can give a negative value).
pub open spec fn first_weekday_value(year: int, month: u32) -> int {
    tmod(zeller_h(year, month) + 6, 7)
}

/// The inputs for which the weekday computation stays within 32-bit arithmetic.
pub open spec fn weekday_inputs_ok(year: i32, month: u32) -> bool {
    &&& month < 3 ==> year > i32::MIN
    &&& -165191049 <= zeller_month(month) + 1 <= 165191049
}

/// The inputs whose first weekday lies in 0..7 (the month can then be laid out in weeks).
pub open spec fn month_layout_ok(year: i32, month: u32) -> bool {
    &&& weekday_inputs_ok(year, month)
    &&& first_weekday_value(year as int, month) >= 0
}

/// Zeller's result lies in -6..=6; from year 1 on (and for months up to 12) it is in 0..7.
pub proof fn lemma_first_weekday_range(year: i32, month: u32)
    requires
        weekday_inputs_ok(year, month),
    ensures
        -7 < first_weekday_value(year as int, month) < 7,
        (year >= 1 && month <= 12) ==> 0 <= first_weekday_value(year as int, month),
{
}

/// Day of the `n`-th occurrence (from 1) of weekday `target` in a month whose first day
/// falls on weekday `first_w` and that has `num_days` days; 1 when there is none.
pub open spec fn nth_weekday_day(first_w: int, num_days: int, target: int, n: int) -> int {
    if 0 <= target < 7 && n >= 1 {
        let d = 1 + (target - first_w + 7) % 7 + 7 * (n - 1);
        if d <= num_days { d } else { 1 }
    } else {
        1
    }
}

/// Day of the last occurrence of weekday `target`; 1 when there is none.
pub open spec fn last_weekday_day(first_w: int, num_days: int, target: int) -> int {
    if 0 <= target < 7 {
        let off = (target - first_w + 7) % 7;
        if 1 + off <= num_days { 1 + off + 7 * ((num_days - 1 - off) / 7) } else { 1 }
    } else {
        1
    }
}

/// Easter Sunday (month, day) by the anonymous Gregorian algorithm, evaluated with
/// truncating 32-bit arithmetic and cast to unsigned.
pub open spec fn easter_date(year: int) -> (u32, u32) {
    let a = tmod(year, 19);
    let b = tdiv(year, 100);
    let c = tmod(year, 100);
    let d = tdiv(b, 4);
    let e = tmod(b, 4);
    let f = tdiv(b + 8, 25);
    let g = tdiv(b - f + 1, 3);
    let h = tmod(19 * a + b - d - g + 15, 30);
    let i = tdiv(c, 4);
    let k = tmod(c, 4);
    let l = tmod(32 + 2 * e + 2 * i - h - k, 7);
    let m = tdiv(a + 11 * h + 22 * l, 451);
    let month = tdiv(h + l - 7 * m + 114, 31);
    let day = tmod(h + l - 7 * m + 114, 31) + 1;
    (month as u32, day as u32)
}


/// Quotient and remainder of a division of a natural number.
proof fn lemma_div_rem(x: int, n: int)
    requires
        0 <= x,
        0 < n,
    ensures
        x == n * (x / n) + x % n,
        0 <= x % n < n,
        0 <= x / n,
        tdiv(x, n) == x / n,
        tmod(x, n) == x % n,
{
    vstd::arithmetic::div_mod::lemma_fundamental_div_mod(x, n);
    vstd::arithmetic::div_mod::lemma_mod_pos_bound(x, n);
    vstd::arithmetic::div_mod::lemma_div_pos_is_pos(x, n);
}

/// The linear core of the Easter computation: the offset from 22 March stays within
/// 0..=34, and with the weekday term it sums to a multiple of seven.
proof fn lemma_easter_core(a: int, b: int, c: int, d: int, e: int, h: int, i: int, k: int, l: int, ql: int, m: int)
    requires
        0 <= a < 19,
        0 <= h < 30,
        0 <= l < 7,
        0 <= k < 4,
        0 <= e < 4,
        c == 4 * i + k,
        b == 4 * d + e,
        32 + 2 * e + 2 * i - h - k == 7 * ql + l,
        0 <= a + 11 * h + 22 * l - 451 * m < 451,
    ensures
        0 <= h + l - 7 * m <= 34,
        11 + c + i + d + 5 * b + (h + l - 7 * m) + 6 == 7 * (7 + i + 3 * d + e - ql - m),
{
}

/// Easter falls between 22 March and 25 April, and on a Sunday: the weekday of its date,
/// counted from the first weekday of its month, is 0.
pub proof fn lemma_easter_is_a_spring_sunday(year: i32)
    requires
        1 <= year,
    ensures
        ({
            let (mo, dd) = easter_date(year as int);
            &&& (mo == 3 && 22 <= dd <= 31) || (mo == 4 && 1 <= dd <= 25)
            &&& (first_weekday_value(year as int, mo) + dd - 1) % 7 == 0
        }),
{
    let y = year as int;
    lemma_div_rem(y, 19);
    lemma_div_rem(y, 100);
    let a = y % 19;
    let b = y / 100;
    let c = y % 100;
    lemma_div_rem(b, 4);
    let d = b / 4;
    let e = b % 4;
    lemma_div_rem(b + 8, 25);
    let f = (b + 8) / 25;
    lemma_div_rem(b - f + 1, 3);
    let g = (b - f + 1) / 3;
    let hv = 19 * a + b - d - g + 15;
    lemma_div_rem(hv, 30);
    let h = hv % 30;
    lemma_div_rem(c, 4);
    let i = c / 4;
    let k = c % 4;
    let lv = 32 + 2 * e + 2 * i - h - k;
    lemma_div_rem(lv, 7);
    let l = lv % 7;
    let ql = lv / 7;
    let mv = a + 11 * h + 22 * l;
    lemma_div_rem(mv, 451);
    let m = mv / 451;
    lemma_easter_core(a, b, c, d, e, h, i, k, l, ql, m);
    let x = h + l - 7 * m;
    lemma_div_rem(x + 114, 31);
    let q = 7 + i + 3 * d + e - ql - m;
    let s = 11 + c + i + d + 5 * b;
    if x <= 9 {
        vstd::arithmetic::div_mod::lemma_fundamental_div_mod_converse(x + 114, 31, 3, x + 21);
    } else {
        vstd::arithmetic::div_mod::lemma_fundamental_div_mod_converse(x + 114, 31, 4, x - 10);
    }
    assert(easter_date(y) == (((x + 114) / 31) as u32, ((x + 114) % 31 + 1) as u32));
    let mo: u32 = ((x + 114) / 31) as u32;
    let dd = (x + 114) % 31 + 1;
    let s_mo = if mo == 3 { s } else { s + 3 };
    assert(tdiv(13 * (mo + 1), 5) == if mo == 3 { 10int } else { 13int });
    assert(zeller_h(y, mo) == tmod(s_mo, 7));
    lemma_div_rem(s_mo, 7);
    let zh = s_mo % 7;
    lemma_div_rem(zh + 6, 7);
    let fw = (zh + 6) % 7;
    assert(first_weekday_value(y, mo) == fw);
    let t = fw + dd - 1;
    let qt = q + (if mo == 3 { 3int } else { -1int }) - s_mo / 7 - (zh + 6) / 7;
    assert(t == 7 * qt);
    vstd::arithmetic::div_mod::lemma_fundamental_div_mod_converse(t, 7, qt, 0);
}

/// Rust's truncating `/` on 32-bit values.
fn div_t(a: i32, b: i32) -> (r: i32)
    requires
        b > 0,
    ensures
        r == tdiv(a as int, b as int),
{
    a / b
}

/// Rust's truncating `%` on 32-bit values.
fn rem_t(a: i32, b: i32) -> (r: i32)
    requires
        b > 0,
    ensures
        r == tmod(a as int, b as int),
{
    let q = div_t(a, b);
    proof {
        lemma_tdiv_bounds(a as int, b as int);
    }
    a - b * q
}


proof fn lemma_tmod_zero(a: int, b: int)
    requires
        b > 0,
    ensures
        (tmod(a, b) == 0) == (a % b == 0),
{
    let n = if a >= 0 { a } else { -a };
    vstd::arithmetic::div_mod::lemma_fundamental_div_mod(n, b);
    vstd::arithmetic::div_mod::lemma_fundamental_div_mod(a, b);
    vstd::arithmetic::div_mod::lemma_mod_pos_bound(n, b);
    if a < 0 {
        if n % b == 0 {
            assert(a == (-(n / b)) * b) by (nonlinear_arith)
                requires n == b * (n / b) + n % b, n % b == 0, a == -n;
            vstd::arithmetic::div_mod::lemma_mod_multiples_basic(-(n / b), b);
        }
        if a % b == 0 {
            assert(n == (-(a / b)) * b) by (nonlinear_arith)
                requires a == b * (a / b) + a % b, a % b == 0, a == -n;
            vstd::arithmetic::div_mod::lemma_mod_multiples_basic(-(a / b), b);
        }
        assert(tmod(a, b) == -(n % b)) by (nonlinear_arith)
            requires n == b * (n / b) + n % b, a == -n, tmod(a, b) == a - b * (-(n / b));
    } else {
        assert(tmod(a, b) == a % b);
    }
}

/// Matching days before `d`: how many of the days `1..d` fall on the weekday whose first
/// occurrence is day `1 + off`.
pub open spec fn matches_before(d: int, off: int) -> int {
    if d - 1 >= 1 + off { (d - 2 - off) / 7 + 1 } else { 0 }
}

proof fn lemma_match_step(fw: int, t: int, d: int)
    requires
        0 <= fw < 7,
        0 <= t < 7,
        d >= 1,
    ensures
        ((fw + d - 1) % 7 == t) <==> (d - 1 >= (t - fw + 7) % 7 && (d - 1 - (t - fw + 7) % 7) % 7 == 0),
        matches_before(d + 1, (t - fw + 7) % 7) == matches_before(d, (t - fw + 7) % 7) + if (fw + d - 1) % 7 == t { 1int } else { 0 },
        ((fw + d - 1) % 7 == t) ==> d == 1 + (t - fw + 7) % 7 + 7 * matches_before(d, (t - fw + 7) % 7),
{
}


// ---------------------------------------------------------------------------
// Chinese festivals
// ---------------------------------------------------------------------------

/// Index of a festival id among the eight known ones, or -1.
pub open spec fn festival_index(id: Seq<char>) -> int {
    if id == "cny"@ { 0 }
    else if id == "lantern"@ { 1 }
    else if id == "qingming"@ { 2 }
    else if id == "dragon_boat"@ { 3 }
    else if id == "qixi"@ { 4 }
    else if id == "mid_autumn"@ { 5 }
    else if id == "double_ninth"@ { 6 }
    else if id == "dongzhi"@ { 7 }
    else { -1 }
}

/// The recorded dates for 2024..=2030, festival by festival.
pub open spec fn festival_table(year: int, f: int) -> (u32, u32) {
    if year == 2024 {
        if f == 0 { (2, 10) } else if f == 1 { (2, 24) } else if f == 2 { (4, 4) }
        else if f == 3 { (6, 10) } else if f == 4 { (8, 10) } else if f == 5 { (9, 17) }
        else if f == 6 { (10, 11) } else { (12, 21) }
    } else if year == 2025 {
        if f == 0 { (1, 29) } else if f == 1 { (2, 12) } else if f == 2 { (4, 4) }
        else if f == 3 { (5, 31) } else if f == 4 { (8, 29) } else if f == 5 { (10, 6) }
        else if f == 6 { (10, 29) } else { (12, 21) }
    } else if year == 2026 {
        if f == 0 { (2, 17) } else if f == 1 { (3, 3) } else if f == 2 { (4, 5) }
        else if f == 3 { (6, 19) } else if f == 4 { (8, 19) } else if f == 5 { (9, 25) }
        else if f == 6 { (10, 18) } else { (12, 21) }
    } else if year == 2027 {
        if f == 0 { (2, 6) } else if f == 1 { (2, 20) } else if f == 2 { (4, 5) }
        else if f == 3 { (6, 9) } else if f == 4 { (8, 8) } else if f == 5 { (9, 15) }
        else if f == 6 { (10, 8) } else { (12, 22) }
    } else if year == 2028 {
        if f == 0 { (1, 26) } else if f == 1 { (2, 9) } else if f == 2 { (4, 4) }
        else if f == 3 { (5, 28) } else if f == 4 { (8, 26) } else if f == 5 { (10, 3) }
        else if f == 6 { (10, 26) } else { (12, 21) }
    } else if year == 2029 {
        if f == 0 { (2, 13) } else if f == 1 { (2, 27) } else if f == 2 { (4, 4) }
        else if f == 3 { (6, 16) } else if f == 4 { (8, 16) } else if f == 5 { (9, 22) }
        else if f == 6 { (10, 16) } else { (12, 21) }
    } else {
        if f == 0 { (2, 3) } else if f == 1 { (2, 17) } else if f == 2 { (4, 5) }
        else if f == 3 { (6, 5) } else if f == 4 { (8, 5) } else if f == 5 { (9, 12) }
        else if f == 6 { (10, 5) } else { (12, 22) }
    }
}

/// The day estimate used outside the recorded years, as an unsigned value.
pub open spec fn approx_festival_day(year: int) -> u32 {
    (tmod(year * 11, 25) + 1) as u32
}

/// `x` clamped to `lo..=hi`.
pub open spec fn clamp_u32(x: int, lo: int, hi: int) -> int {
    if x < lo { lo } else if x > hi { hi } else { x }
}

/// Amount added to the estimate for each festival whose day is estimated.
pub open spec fn festival_shift(f: int) -> int {
    if f == 1 { 14 } else if f == 3 || f == 4 || f == 6 { 5 } else if f == 5 { 10 } else { 0 }
}

/// Whether the year is one of the recorded years.
pub open spec fn festival_year_recorded(year: int) -> bool {
    2024 <= year <= 2030
}

/// Date of a Chinese festival: the recorded date in 2024..=2030, otherwise an estimate;
/// `None` for an unknown id.
pub open spec fn festival_date(year: int, id: Seq<char>) -> Option<(u32, u32)> {
    let f = festival_index(id);
    if f < 0 {
        None
    } else if festival_year_recorded(year) {
        Some(festival_table(year, f))
    } else {
        let a = approx_festival_day(year) as int;
        if f == 0 { Some((2, clamp_u32(a, 1, 20) as u32)) }
        else if f == 2 { Some((4, 5)) }
        else if f == 7 { Some((12, 21)) }
        else {
            let m: u32 = if f == 1 { 2 } else if f == 3 { 6 } else if f == 4 { 8 } else if f == 5 { 9 } else { 10 };
            Some((m, clamp_u32(a + festival_shift(f), 1, 28) as u32))
        }
    }
}

/// Inputs for which the festival lookup stays within 32-bit arithmetic: the estimate
/// needs `year * 11` to fit, and the shifted estimate must not pass `u32::MAX`.
pub open spec fn festival_inputs_ok(year: i32, id: Seq<char>) -> bool {
    (festival_year_recorded(year as int) && festival_index(id) >= 0) || {
        &&& i32::MIN <= year * 11 <= i32::MAX
        &&& approx_festival_day(year as int) + festival_shift(festival_index(id)) <= u32::MAX
    }
}

fn festival_index_of(id: &str) -> (f: i32)
    ensures
        f == festival_index(id@),
{
    if same_text(id, "cny") { 0 }
    else if same_text(id, "lantern") { 1 }
    else if same_text(id, "qingming") { 2 }
    else if same_text(id, "dragon_boat") { 3 }
    else if same_text(id, "qixi") { 4 }
    else if same_text(id, "mid_autumn") { 5 }
    else if same_text(id, "double_ninth") { 6 }
    else if same_text(id, "dongzhi") { 7 }
    else { -1 }
}

fn clamp_u32_exec(x: u32, lo: u32, hi: u32) -> (r: u32)
    requires
        lo <= hi,
    ensures
        r == clamp_u32(x as int, lo as int, hi as int),
{
    if x < lo { lo } else if x > hi { hi } else { x }
}

fn recorded_festival(year: i32, f: i32) -> (r: (u32, u32))
    requires
        festival_year_recorded(year as int),
        0 <= f < 8,
    ensures
        r == festival_table(year as int, f as int),
{
    let t: [(u32, u32); 8] = if year == 2024 {
        [(2, 10), (2, 24), (4, 4), (6, 10), (8, 10), (9, 17), (10, 11), (12, 21)]
    } else if year == 2025 {
        [(1, 29), (2, 12), (4, 4), (5, 31), (8, 29), (10, 6), (10, 29), (12, 21)]
    } else if year == 2026 {
        [(2, 17), (3, 3), (4, 5), (6, 19), (8, 19), (9, 25), (10, 18), (12, 21)]
    } else if year == 2027 {
        [(2, 6), (2, 20), (4, 5), (6, 9), (8, 8), (9, 15), (10, 8), (12, 22)]
    } else if year == 2028 {
        [(1, 26), (2, 9), (4, 4), (5, 28), (8, 26), (10, 3), (10, 26), (12, 21)]
    } else if year == 2029 {
        [(2, 13), (2, 27), (4, 4), (6, 16), (8, 16), (9, 22), (10, 16), (12, 21)]
    } else {
        [(2, 3), (2, 17), (4, 5), (6, 5), (8, 5), (9, 12), (10, 5), (12, 22)]
    };
    t[f as usize]
}


// ---------------------------------------------------------------------------
// Simple month grid
// ---------------------------------------------------------------------------

/// "<Month name> <year>".
pub open spec fn month_title(year: int, month: int) -> Seq<char> {
    month_full_name(month)@ + seq![' '] + int_text(year)
}

/// Text of one day in the simple grid: the number right-aligned, then the gap.
pub open spec fn simple_day_cell(d: int, compact: bool) -> Seq<char> {
    if compact {
        align_right(nat_digits(d as nat), 2) + seq![' ']
    } else {
        align_right(nat_digits(d as nat), 3) + seq![' ', ' ']
    }
}

/// The day cells for days `from..=to`, laid end to end.
pub open spec fn simple_day_cells(from: int, to: int, compact: bool) -> Seq<char>
    decreases to - from + 1,
{
    if to < from || to < 1 { seq![] } else { simple_day_cells(from, to - 1, compact) + simple_day_cell(to, compact) }
}

/// First day shown in week `k` (0-based) when day 1 falls on weekday `fw`.
pub open spec fn week_first_day(fw: int, k: int) -> int {
    if 7 * k - fw + 1 < 1 { 1 } else { 7 * k - fw + 1 }
}

/// Last day of the month shown in week `k`.
pub open spec fn week_last_day(fw: int, nd: int, k: int) -> int {
    if 7 * k + 7 - fw < nd { 7 * k + 7 - fw } else { nd }
}

/// Number of week rows a month needs.
pub open spec fn week_count(fw: int, nd: int) -> int {
    (fw + nd + 6) / 7
}

/// Leading blank of week `k`: one empty cell per weekday before day 1 (first week only).
pub open spec fn simple_lead(fw: int, k: int, compact: bool) -> Seq<char> {
    if k == 0 { spaces((fw * if compact { 3int } else { 5int }) as nat) } else { seq![] }
}

/// Week row `k` before trailing spaces are trimmed, holding the days up to `upto`.
pub open spec fn simple_row_upto(fw: int, k: int, upto: int, compact: bool) -> Seq<char> {
    simple_lead(fw, k, compact) + simple_day_cells(week_first_day(fw, k), upto, compact)
}

/// Week row `k` of the simple grid, trailing spaces trimmed.
pub open spec fn simple_week_row(fw: int, nd: int, k: int, compact: bool) -> Seq<char> {
    trim_end_seq(simple_row_upto(fw, k, week_last_day(fw, nd, k), compact))
}

/// The lines of the simple grid before padding: title, weekday header, week rows.
pub open spec fn simple_grid_body(year: int, month: u32, compact: bool) -> Seq<Seq<char>> {
    let fw = first_weekday_value(year, month);
    let nd = month_days(year, month as int);
    let title = align_center(month_title(year, month as int), if compact { 27nat } else { 35nat });
    let header = if compact { "Su Mo Tu We Th Fr Sa"@ } else { "Sun  Mon  Tue  Wed  Thu  Fri  Sat"@ };
    seq![title, header] + Seq::new(week_count(fw, nd) as nat, |k: int| simple_week_row(fw, nd, k, compact))
}

/// `lines` padded with empty lines to at least `n` lines.
pub open spec fn pad_lines(lines: Seq<Seq<char>>, n: nat) -> Seq<Seq<char>> {
    if lines.len() < n { lines + Seq::new((n - lines.len()) as nat, |i: int| Seq::<char>::empty()) } else { lines }
}

/// The simple grid of a month: title, header, week rows, padded to 8 lines.
pub open spec fn simple_grid_lines(year: int, month: u32, compact: bool) -> Seq<Seq<char>> {
    pad_lines(simple_grid_body(year, month, compact), 8)
}

proof fn lemma_week_bounds(fw: int, nd: int)
    requires
        0 <= fw < 7,
        28 <= nd <= 31,
    ensures
        4 <= week_count(fw, nd) <= 6,
{
}

proof fn lemma_simple_row_step(fw: int, d: int, compact: bool)
    requires
        0 <= fw < 7,
        d >= 1,
    ensures
        simple_row_upto(fw, (fw + d - 1) / 7, d, compact)
            == simple_row_upto(fw, (fw + d - 1) / 7, d - 1, compact) + simple_day_cell(d, compact),
{
    let k = (fw + d - 1) / 7;
    assert(week_first_day(fw, k) <= d);
    assert(simple_day_cells(week_first_day(fw, k), d, compact)
        == simple_day_cells(week_first_day(fw, k), d - 1, compact) + simple_day_cell(d, compact));
}

proof fn lemma_simple_week_close(fw: int, nd: int, d: int, compact: bool)
    requires
        0 <= fw < 7,
        28 <= nd <= 31,
        1 <= d <= nd,
        (fw + d) % 7 == 0,
    ensures
        week_last_day(fw, nd, (fw + d - 1) / 7) == d,
        (fw + d - 1) / 7 + 1 == (fw + d) / 7,
        (fw + d - 1) / 7 < week_count(fw, nd),
        simple_row_upto(fw, (fw + d) / 7, d, compact) == Seq::<char>::empty(),
{
    let k = (fw + d) / 7;
    assert(week_first_day(fw, k) == d + 1);
    assert(simple_day_cells(d + 1, d, compact) == Seq::<char>::empty());
    assert(simple_lead(fw, k, compact) == Seq::<char>::empty());
    assert(simple_row_upto(fw, k, d, compact) =~= Seq::<char>::empty());
}

proof fn lemma_simple_last_week(fw: int, nd: int)
    requires
        0 <= fw < 7,
        28 <= nd <= 31,
        (fw + nd) % 7 != 0,
    ensures
        week_last_day(fw, nd, (fw + nd) / 7) == nd,
        (fw + nd) / 7 + 1 == week_count(fw, nd),
{
}

proof fn lemma_views_push(v: Seq<String>, x: String)
    ensures
        string_views(v.push(x)) == string_views(v).push(x@),
{
    assert(string_views(v.push(x)) =~= string_views(v).push(x@));
}

fn push_simple_day_cell(s: &mut String, d: u32, compact: bool)
    requires
        1 <= d <= 31,
    ensures
        final(s)@ == old(s)@ + simple_day_cell(d as int, compact),
{
    let mut num = String::new();
    push_nat(&mut num, d as u64);
    if compact {
        push_align_right(s, num.as_str(), 2);
        push_char(s, ' ');
    } else {
        push_align_right(s, num.as_str(), 3);
        push_char(s, ' ');
        push_char(s, ' ');
    }
    assert(final(s)@ =~= old(s)@ + simple_day_cell(d as int, compact));
}


// ---------------------------------------------------------------------------
// Fixed-width cells (cut when too long)
// ---------------------------------------------------------------------------

/// `s` right-aligned in exactly `w` characters, cut to its first `w` characters when longer.
pub open spec fn visual_right(s: Seq<char>, w: nat) -> Seq<char> {
    if s.len() >= w { s.take(w as int) } else { spaces((w - s.len()) as nat) + s }
}

/// `s` left-aligned in exactly `w` characters, cut to its first `w` characters when longer.
pub open spec fn visual_left(s: Seq<char>, w: nat) -> Seq<char> {
    if s.len() >= w { s.take(w as int) } else { s + spaces((w - s.len()) as nat) }
}

/// `s` centered in exactly `w` characters (odd leftover space on the right), cut to its
/// first `w` characters when longer.
pub open spec fn visual_center(s: Seq<char>, w: nat) -> Seq<char> {
    if s.len() >= w {
        s.take(w as int)
    } else {
        let p = (w - s.len()) as nat;
        spaces(p / 2) + s + spaces((p - p / 2) as nat)
    }
}

/// Right-aligns `s` in exactly `target_width` characters, cutting it when longer.
pub fn pad_visual_right(s: &str, target_width: usize) -> (r: String)
    ensures
        r@ == visual_right(s@, target_width as nat),
        r@.len() == target_width,
{
    let char_count = char_count(s);
    let mut r = String::new();
    if char_count >= target_width {
        push_prefix(&mut r, s, target_width);
    } else {
        push_repeat(&mut r, ' ', target_width - char_count);
        push_str(&mut r, s);
    }
    assert(r@ =~= visual_right(s@, target_width as nat));
    r
}

/// Left-aligns `s` in exactly `target_width` characters, cutting it when longer.
pub fn pad_visual_left(s: &str, target_width: usize) -> (r: String)
    ensures
        r@ == visual_left(s@, target_width as nat),
        r@.len() == target_width,
{
    let char_count = char_count(s);
    let mut r = String::new();
    if char_count >= target_width {
        push_prefix(&mut r, s, target_width);
    } else {
        push_str(&mut r, s);
        push_repeat(&mut r, ' ', target_width - char_count);
    }
    assert(r@ =~= visual_left(s@, target_width as nat));
    r
}

/// Centers `s` in exactly `target_width` characters, cutting it when longer.
pub fn pad_visual_center(s: &str, target_width: usize) -> (r: String)
    ensures
        r@ == visual_center(s@, target_width as nat),
        r@.len() == target_width,
{
    let char_count = char_count(s);
    let mut r = String::new();
    if char_count >= target_width {
        push_prefix(&mut r, s, target_width);
    } else {
        let total_pad = target_width - char_count;
        let left_pad = total_pad / 2;
        let right_pad = total_pad - left_pad;
        push_repeat(&mut r, ' ', left_pad);
        push_str(&mut r, s);
        push_repeat(&mut r, ' ', right_pad);
    }
    assert(r@ =~= visual_center(s@, target_width as nat));
    r
}

// ---------------------------------------------------------------------------
// Boxed month grid
// ---------------------------------------------------------------------------

/// Inner width of a day box: 8 for one month, 5 for two, 4 otherwise.
pub open spec fn box_inner_width(month_count: u32) -> nat {
    if month_count == 1 { 8 } else if month_count == 2 { 5 } else { 4 }
}

/// A horizontal border: `left`, then seven runs of `─` of width `c` separated by `mid`, then `right`.
pub open spec fn box_border(left: char, mid: char, right: char, c: nat) -> Seq<char> {
    seq![left] + join_seqs(Seq::new(7, |i: int| repeat_char('─', c)), seq![mid]) + seq![right]
}

/// A row of seven boxes with the given contents.
pub open spec fn box_row(cells: Seq<Seq<char>>) -> Seq<char> {
    seq!['│'] + join_seqs(cells, seq!['│']) + seq!['│']
}

/// Weekday names for the header, by month count.
pub open spec fn weekday_names(month_count: u32) -> Seq<Seq<char>> {
    if month_count == 1 {
        seq!["Sun"@, "Mon"@, "Tue"@, "Wed"@, "Thu"@, "Fri"@, "Sat"@]
    } else if month_count == 2 {
        seq!["Su"@, "Mo"@, "Tu"@, "We"@, "Th"@, "Fr"@, "Sa"@]
    } else {
        seq!["S"@, "M"@, "T"@, "W"@, "T"@, "F"@, "S"@]
    }
}

/// Badge a day gets from the holiday list: the badge of the first enabled holiday on that
/// day, with the badges of later ones appended after `/` while they still fit the box.
pub open spec fn holiday_badge(hs: Seq<HolidayItem>, month: u32, day: u32, c: nat) -> Option<Seq<char>>
    decreases hs.len(),
{
    if hs.len() == 0 {
        None
    } else {
        let prev = holiday_badge(hs.drop_last(), month, day, c);
        let h = hs.last();
        if h.enabled && h.month == month && h.day == day {
            let b = badge_for_id(h.id@);
            match prev {
                None => Some(b),
                Some(e) => if e.len() + b.len() + 1 <= c { Some(e + seq!['/'] + b) } else { Some(e) },
            }
        } else {
            prev
        }
    }
}

/// Badge a day gets from the custom events: the last event on that day wins.
pub open spec fn event_day_badge(evs: Seq<CustomCalendarEvent>, month: u32, day: u32) -> Option<Seq<char>>
    decreases evs.len(),
{
    if evs.len() == 0 {
        None
    } else {
        let e = evs.last();
        if e.month == month && e.day == day {
            Some(event_badge(e.label@))
        } else {
            event_day_badge(evs.drop_last(), month, day)
        }
    }
}

/// The badge text of a day (empty when none): a custom event's badge takes the place of
/// the holiday badges; nothing is shown when holidays are switched off.
pub open spec fn day_badge(
    hs: Seq<HolidayItem>,
    evs: Seq<CustomCalendarEvent>,
    month: u32,
    day: u32,
    c: nat,
    show: bool,
) -> Seq<char> {
    if !show {
        seq![]
    } else {
        match event_day_badge(evs, month, day) {
            Some(b) => b,
            None => match holiday_badge(hs, month, day, c) {
                Some(b) => b,
                None => seq![],
            },
        }
    }
}

/// Day shown in column `col` of week `w`, when day 1 is on weekday `fw`.
pub open spec fn cell_day(fw: int, w: int, col: int) -> int {
    7 * w + col - fw + 1
}

/// Top line of week `w`: day numbers at the left of their boxes.
pub open spec fn boxed_number_row(fw: int, nd: int, w: int, c: nat) -> Seq<char> {
    box_row(Seq::new(7, |col: int| {
        let d = cell_day(fw, w, col);
        if d < 1 || d > nd { spaces(c) } else { visual_left(nat_digits(d as nat), c) }
    }))
}

/// Bottom line of week `w`: badges at the right of their boxes.
pub open spec fn boxed_badge_row(
    fw: int,
    nd: int,
    w: int,
    c: nat,
    hs: Seq<HolidayItem>,
    evs: Seq<CustomCalendarEvent>,
    month: u32,
    show: bool,
) -> Seq<char> {
    box_row(Seq::new(7, |col: int| {
        let d = cell_day(fw, w, col);
        if d < 1 || d > nd { spaces(c) } else { visual_right(day_badge(hs, evs, month, d as u32, c, show), c) }
    }))
}

/// The boxed grid before padding: centered title, top border, weekday header, then per
/// week a number line, a badge line and a separator (the bottom border after the last week).
pub open spec fn boxed_body(
    year: int,
    month: u32,
    month_count: u32,
    show: bool,
    hs: Seq<HolidayItem>,
    evs: Seq<CustomCalendarEvent>,
) -> Seq<Seq<char>> {
    let fw = first_weekday_value(year, month);
    let nd = month_days(year, month as int);
    let c = box_inner_width(month_count);
    let wc = week_count(fw, nd);
    let head = seq![
        visual_center(month_title(year, month as int), box_border('┌', '┬', '┐', c).len()),
        box_border('┌', '┬', '┐', c),
        box_row(Seq::new(7, |i: int| visual_center(weekday_names(month_count)[i], c))),
        box_border('├', '┼', '┤', c),
    ];
    head + Seq::new((3 * wc) as nat, |i: int| {
        let w = i / 3;
        if i % 3 == 0 {
            boxed_number_row(fw, nd, w, c)
        } else if i % 3 == 1 {
            boxed_badge_row(fw, nd, w, c, hs, evs, month, show)
        } else if 7 * w + 7 - fw < nd {
            box_border('├', '┼', '┤', c)
        } else {
            box_border('└', '┴', '┘', c)
        }
    })
}

/// The boxed grid of a month, padded with empty lines to 17 lines.
pub open spec fn boxed_month_lines(
    year: int,
    month: u32,
    month_count: u32,
    show: bool,
    hs: Seq<HolidayItem>,
    evs: Seq<CustomCalendarEvent>,
) -> Seq<Seq<char>> {
    pad_lines(boxed_body(year, month, month_count, show, hs, evs), 17)
}

/// A string joined from parts of one common length `c` has the length of the parts plus
/// one separator between each two.
proof fn lemma_join_uniform_len(parts: Seq<Seq<char>>, sep: Seq<char>, c: nat)
    requires
        parts.len() >= 1,
        forall|i: int| 0 <= i < parts.len() ==> #[trigger] parts[i].len() == c,
    ensures
        join_seqs(parts, sep).len() == parts.len() * c + (parts.len() - 1) * sep.len(),
    decreases parts.len(),
{
    if parts.len() > 1 {
        let front = parts.drop_last();
        assert forall|i: int| 0 <= i < front.len() implies #[trigger] front[i].len() == c by {
            assert(front[i] == parts[i]);
        }
        lemma_join_uniform_len(front, sep, c);
        assert(parts.last() == parts[parts.len() - 1]);
        let n = parts.len() as int;
        let s = sep.len() as int;
        assert(join_seqs(parts, sep) == join_seqs(front, sep) + sep + parts.last());
        assert(front.len() == n - 1);
        assert(n * c == (n - 1) * c + c) by (nonlinear_arith);
        assert((n - 1) * s == (n - 2) * s + s) by (nonlinear_arith);
    } else {
        assert(join_seqs(parts, sep) == parts[0]);
        assert(parts.len() * c == c) by (nonlinear_arith)
            requires parts.len() == 1;
    }
}

/// A row of seven boxes of inner width `c` is `7c + 8` characters wide.
proof fn lemma_box_row_len(cells: Seq<Seq<char>>, c: nat)
    requires
        cells.len() == 7,
        forall|i: int| 0 <= i < 7 ==> #[trigger] cells[i].len() == c,
    ensures
        box_row(cells).len() == 7 * c + 8,
{
    lemma_join_uniform_len(cells, seq!['│'], c);
}

/// A border of seven boxes of inner width `c` is `7c + 8` characters wide.
proof fn lemma_box_border_len(left: char, mid: char, right: char, c: nat)
    ensures
        box_border(left, mid, right, c).len() == 7 * c + 8,
{
    let runs = Seq::new(7, |i: int| repeat_char('─', c));
    assert forall|i: int| 0 <= i < 7 implies #[trigger] runs[i].len() == c by {}
    lemma_join_uniform_len(runs, seq![mid], c);
    let j = join_seqs(runs, seq![mid]);
    assert(runs.len() == 7);
    assert(seq![mid].len() == 1);
    assert(j.len() == runs.len() * c + (runs.len() - 1) * seq![mid].len());
    assert(runs.len() * c == 7 * c) by (nonlinear_arith)
        requires runs.len() == 7;
    let sl: int = seq![mid].len() as int;
    assert((runs.len() - 1) * sl == 6) by (nonlinear_arith)
        requires runs.len() == 7, sl == 1;
    assert(j.len() == 7 * c + 6);
    assert(box_border(left, mid, right, c) == seq![left] + j + seq![right]);
    assert((seq![left] + j + seq![right]).len() == j.len() + 2);
}

/// The simple month grid always has 8 lines: the title, the weekday header, one row per
/// week (4 to 6 of them), then empty lines.
pub proof fn lemma_simple_grid_shape(year: i32, month: u32, compact: bool)
    requires
        month_layout_ok(year, month),
    ensures
        ({
            let lines = simple_grid_lines(year as int, month, compact);
            let wc = week_count(first_weekday_value(year as int, month), month_days(year as int, month as int));
            &&& lines.len() == 8
            &&& 4 <= wc <= 6
            &&& lines[1] == if compact { "Su Mo Tu We Th Fr Sa"@ } else { "Sun  Mon  Tue  Wed  Thu  Fri  Sat"@ }
            &&& forall|k: int| 0 <= k < wc ==> #[trigger] lines[2 + k] == simple_week_row(
                first_weekday_value(year as int, month),
                month_days(year as int, month as int),
                k,
                compact,
            )
            &&& forall|i: int| 2 + wc <= i < 8 ==> #[trigger] lines[i].len() == 0
        }),
{
    let fw = first_weekday_value(year as int, month);
    let nd = month_days(year as int, month as int);
    lemma_first_weekday_range(year, month);
    lemma_week_bounds(fw, nd);
    let body = simple_grid_body(year as int, month, compact);
    let lines = simple_grid_lines(year as int, month, compact);
    assert(body.len() == 2 + week_count(fw, nd));
    assert forall|k: int| 0 <= k < week_count(fw, nd) implies #[trigger] lines[2 + k]
        == simple_week_row(fw, nd, k, compact) by {
        assert(lines[2 + k] == body[2 + k]);
    }
}

/// Every line of the boxed month grid is `7c + 8` characters wide, `c` being the box
/// width for the month count, and the grid has `max(17, 4 + 3 * weeks)` lines: title,
/// top border, weekday header, separator, three lines per week, then empty lines up to 17.
pub proof fn lemma_boxed_grid_shape(
    year: i32,
    month: u32,
    month_count: u32,
    show: bool,
    hs: Seq<HolidayItem>,
    evs: Seq<CustomCalendarEvent>,
)
    requires
        month_layout_ok(year, month),
    ensures
        ({
            let lines = boxed_month_lines(year as int, month, month_count, show, hs, evs);
            let wc = week_count(first_weekday_value(year as int, month), month_days(year as int, month as int));
            let c = box_inner_width(month_count);
            &&& 4 <= wc <= 6
            &&& lines.len() == if 4 + 3 * wc < 17 { 17 } else { 4 + 3 * wc }
            &&& forall|i: int| 0 <= i < 4 + 3 * wc ==> #[trigger] lines[i].len() == 7 * c + 8
            &&& forall|i: int| 4 + 3 * wc <= i < lines.len() ==> #[trigger] lines[i].len() == 0
        }),
{
    let fw = first_weekday_value(year as int, month);
    let nd = month_days(year as int, month as int);
    let c = box_inner_width(month_count);
    let wc = week_count(fw, nd);
    lemma_first_weekday_range(year, month);
    lemma_week_bounds(fw, nd);
    let body = boxed_body(year as int, month, month_count, show, hs, evs);
    let lines = boxed_month_lines(year as int, month, month_count, show, hs, evs);
    lemma_box_border_len('┌', '┬', '┐', c);
    lemma_box_border_len('├', '┼', '┤', c);
    lemma_box_border_len('└', '┴', '┘', c);
    let names = Seq::new(7, |i: int| visual_center(weekday_names(month_count)[i], c));
    assert forall|i: int| 0 <= i < 7 implies #[trigger] names[i].len() == c by {}
    lemma_box_row_len(names, c);
    assert(body.len() == 4 + 3 * wc);
    assert forall|i: int| 0 <= i < 4 + 3 * wc implies #[trigger] lines[i].len() == 7 * c + 8 by {
        assert(lines[i] == body[i]);
        if i >= 4 {
            let j = i - 4;
            let w = j / 3;
            if j % 3 == 0 {
                let cells = Seq::new(7, |col: int| {
                    let d = cell_day(fw, w, col);
                    if d < 1 || d > nd { spaces(c) } else { visual_left(nat_digits(d as nat), c) }
                });
                assert forall|k: int| 0 <= k < 7 implies #[trigger] cells[k].len() == c by {}
                lemma_box_row_len(cells, c);
            } else if j % 3 == 1 {
                let cells = Seq::new(7, |col: int| {
                    let d = cell_day(fw, w, col);
                    if d < 1 || d > nd {
                        spaces(c)
                    } else {
                        visual_right(day_badge(hs, evs, month, d as u32, c, show), c)
                    }
                });
                assert forall|k: int| 0 <= k < 7 implies #[trigger] cells[k].len() == c by {}
                lemma_box_row_len(cells, c);
            }
        }
    }
}

fn weekday_name(month_count: u32, i: usize) -> (r: &'static str)
    requires
        i < 7,
    ensures
        r@ == weekday_names(month_count)[i as int],
{
    let names: [&'static str; 7] = if month_count == 1 {
        ["Sun", "Mon", "Tue", "Wed", "Thu", "Fri", "Sat"]
    } else if month_count == 2 {
        ["Su", "Mo", "Tu", "We", "Th", "Fr", "Sa"]
    } else {
        ["S", "M", "T", "W", "T", "F", "S"]
    };
    names[i]
}

/// Spec of the number cell in column `col` of week `w`.
pub open spec fn number_cell(fw: int, nd: int, w: int, col: int, c: nat) -> Seq<char> {
    let d = cell_day(fw, w, col);
    if d < 1 || d > nd { spaces(c) } else { visual_left(nat_digits(d as nat), c) }
}

/// Spec of the badge cell in column `col` of week `w`.
pub open spec fn badge_cell(
    fw: int,
    nd: int,
    w: int,
    col: int,
    c: nat,
    hs: Seq<HolidayItem>,
    evs: Seq<CustomCalendarEvent>,
    month: u32,
    show: bool,
) -> Seq<char> {
    let d = cell_day(fw, w, col);
    if d < 1 || d > nd { spaces(c) } else { visual_right(day_badge(hs, evs, month, d as u32, c, show), c) }
}

/// `x` clamped to `lo..=hi`.
pub open spec fn clamp_int(x: int, lo: int, hi: int) -> int {
    if x < lo { lo } else if x > hi { hi } else { x }
}

fn make_border(left: char, mid: char, right: char, c: usize) -> (r: String)
    ensures
        r@ == box_border(left, mid, right, c as nat),
{
    let mut pieces: Vec<String> = Vec::new();
    let mut i: usize = 0;
    while i < 7
        invariant
            i <= 7,
            pieces@.len() == i,
            forall|j: int| 0 <= j < i ==> #[trigger] pieces@[j]@ == repeat_char('─', c as nat),
        decreases 7 - i,
    {
        let mut h = String::new();
        push_repeat(&mut h, '─', c);
        pieces.push(h);
        i = i + 1;
    }
    let mut sep = String::new();
    push_char(&mut sep, mid);
    let joined = join_strings(&pieces, sep.as_str());
    assert(crate::text::string_views(pieces@) =~= Seq::new(7, |i: int| repeat_char('─', c as nat)));
    let mut r = String::new();
    push_char(&mut r, left);
    push_str(&mut r, joined.as_str());
    push_char(&mut r, right);
    assert(sep@ =~= seq![mid]);
    assert(r@ =~= box_border(left, mid, right, c as nat));
    r
}

fn make_box_row(cells: &Vec<String>) -> (r: String)
    ensures
        r@ == box_row(string_views(cells@)),
{
    let joined = join_strings(cells, "│");
    let mut r = String::new();
    push_char(&mut r, '│');
    push_str(&mut r, joined.as_str());
    push_char(&mut r, '│');
    proof {
        reveal_strlit("│");
        assert("│"@ =~= seq!['│']);
    }
    assert(r@ =~= box_row(string_views(cells@)));
    r
}

fn holiday_badge_of(
    holidays: &[HolidayItem],
    month: u32,
    day: u32,
    cell_inner: usize,
) -> (r: Option<String>)
    ensures
        match r {
            None => holiday_badge(holidays@, month, day, cell_inner as nat) is None,
            Some(b) => holiday_badge(holidays@, month, day, cell_inner as nat) == Some(b@),
        },
{
    let mut acc: Option<String> = None;
    let mut i: usize = 0;
    while i < holidays.len()
        invariant
            i <= holidays@.len(),
            match acc {
                None => holiday_badge(holidays@.take(i as int), month, day, cell_inner as nat) is None,
                Some(b) => holiday_badge(holidays@.take(i as int), month, day, cell_inner as nat) == Some(b@),
            },
        decreases holidays.len() - i,
    {
        let h = &holidays[i];
        assert(holidays@.take(i + 1).drop_last() =~= holidays@.take(i as int));
        if h.enabled && h.month == month && h.day == day {
            let b = h.short_badge();
            match acc {
                None => {
                    acc = Some(b.to_owned());
                },
                Some(e) => {
                    let el = char_count(e.as_str());
                    let bl = char_count(b);
                    if el < cell_inner && bl < cell_inner - el {
                        let mut joined = e;
                        push_char(&mut joined, '/');
                        push_str(&mut joined, b);
                        acc = Some(joined);
                    } else {
                        acc = Some(e);
                    }
                },
            }
        }
        i = i + 1;
    }
    assert(holidays@.take(holidays@.len() as int) =~= holidays@);
    acc
}

fn event_badge_of(events: &[CustomCalendarEvent], month: u32, day: u32) -> (r: Option<String>)
    ensures
        match r {
            None => event_day_badge(events@, month, day) is None,
            Some(b) => event_day_badge(events@, month, day) == Some(b@),
        },
{
    let mut acc: Option<String> = None;
    let mut i: usize = 0;
    while i < events.len()
        invariant
            i <= events@.len(),
            match acc {
                None => event_day_badge(events@.take(i as int), month, day) is None,
                Some(b) => event_day_badge(events@.take(i as int), month, day) == Some(b@),
            },
        decreases events.len() - i,
    {
        let e = &events[i];
        assert(events@.take(i + 1).drop_last() =~= events@.take(i as int));
        if e.month == month && e.day == day {
            acc = Some(e.short_badge());
        }
        i = i + 1;
    }
    assert(events@.take(events@.len() as int) =~= events@);
    acc
}

fn day_badge_of(
    holidays: &[HolidayItem],
    events: &[CustomCalendarEvent],
    month: u32,
    day: u32,
    cell_inner: usize,
    show: bool,
) -> (r: String)
    ensures
        r@ == day_badge(holidays@, events@, month, day, cell_inner as nat, show),
{
    if !show {
        return String::new();
    }
    match event_badge_of(events, month, day) {
        Some(b) => b,
        None => match holiday_badge_of(holidays, month, day, cell_inner) {
            Some(b) => b,
            None => String::new(),
        },
    }
}


// ---------------------------------------------------------------------------
// Multi-month layout
// ---------------------------------------------------------------------------

/// Month count clamped to 1..=3.
pub open spec fn clamp_count(count: u32) -> u32 {
    if count < 1 { 1 } else if count > 3 { 3 } else { count }
}

/// The months shown: from `start` on, `clamp_count(count)` of them, stopping after December.
pub open spec fn shown_months(start: u32, count: u32) -> Seq<u32> {
    let n = clamp_count(count) as int;
    let k = if start > 12 { 0 } else if n < 13 - start { n } else { 13 - start };
    Seq::new(k as nat, |i: int| (start + i) as u32)
}

/// Tag in front of a holiday note.
pub open spec fn category_prefix(c: HolidayCategory) -> Seq<char> {
    match c {
        HolidayCategory::American => "[US]"@,
        HolidayCategory::Chinese => "[CN]"@,
        HolidayCategory::Custom => "[Event]"@,
    }
}

/// Footnote for a holiday: "<tag> <Mon> <day>: <name>".
pub open spec fn holiday_note(h: HolidayItem, m: u32) -> Seq<char> {
    category_prefix(h.category) + " "@ + month_short_name(m as int)@ + " "@ + nat_digits(h.day as nat)
        + ": "@ + h.name@
}

/// Footnotes of the enabled holidays of month `m`, in list order.
pub open spec fn holiday_notes(hs: Seq<HolidayItem>, m: u32) -> Seq<Seq<char>>
    decreases hs.len(),
{
    if hs.len() == 0 {
        seq![]
    } else {
        let prev = holiday_notes(hs.drop_last(), m);
        let h = hs.last();
        if h.enabled && h.month == m { prev.push(holiday_note(h, m)) } else { prev }
    }
}

/// Footnote for a custom event: "[Event] <Mon> <day>: <label>".
pub open spec fn event_note(e: CustomCalendarEvent, m: u32) -> Seq<char> {
    "[Event] "@ + month_short_name(m as int)@ + " "@ + nat_digits(e.day as nat) + ": "@ + e.label@
}

/// Footnotes of the custom events of month `m`, in list order.
pub open spec fn event_notes(evs: Seq<CustomCalendarEvent>, m: u32) -> Seq<Seq<char>>
    decreases evs.len(),
{
    if evs.len() == 0 {
        seq![]
    } else {
        let prev = event_notes(evs.drop_last(), m);
        let e = evs.last();
        if e.month == m { prev.push(event_note(e, m)) } else { prev }
    }
}

/// Footnotes of several months, month by month: holidays first, then custom events.
pub open spec fn notes_for(months: Seq<u32>, hs: Seq<HolidayItem>, evs: Seq<CustomCalendarEvent>) -> Seq<Seq<char>>
    decreases months.len(),
{
    if months.len() == 0 {
        seq![]
    } else {
        notes_for(months.drop_last(), hs, evs) + holiday_notes(hs, months.last()) + event_notes(evs, months.last())
    }
}

/// Each line followed by a newline, laid end to end.
pub open spec fn rows_text(rows: Seq<Seq<char>>) -> Seq<char>
    decreases rows.len(),
{
    if rows.len() == 0 { seq![] } else { rows_text(rows.drop_last()) + rows.last() + seq!['\n'] }
}

/// Greatest number of lines among the months.
pub open spec fn max_len(ml: Seq<Seq<Seq<char>>>) -> nat
    decreases ml.len(),
{
    if ml.len() == 0 {
        0
    } else {
        let a = max_len(ml.drop_last());
        if ml.last().len() > a { ml.last().len() } else { a }
    }
}

/// Line `r` of a month's lines, or empty when it has fewer.
pub open spec fn line_or_empty(lines: Seq<Seq<char>>, r: int) -> Seq<char> {
    if 0 <= r < lines.len() { lines[r] } else { seq![] }
}

/// Line `r` of a month as placed in a row of the layout: left-aligned to `w` when `pad`.
pub open spec fn row_part(lines: Seq<Seq<char>>, r: int, pad: bool, w: nat) -> Seq<char> {
    if pad { align_left(line_or_empty(lines, r), w) } else { line_or_empty(lines, r) }
}

/// Row `r` of the boxed layout: the months' lines side by side, three spaces apart.
pub open spec fn boxed_row_text(ml: Seq<Seq<Seq<char>>>, r: int) -> Seq<char> {
    trim_end_seq(join_seqs(Seq::new(ml.len(), |i: int| line_or_empty(ml[i], r)), "   "@))
}

/// Column width of the simple layout.
pub open spec fn simple_col_width(compact: bool) -> nat {
    if compact { 27 } else { 35 }
}

/// Gap between months in the simple layout.
pub open spec fn simple_col_sep(compact: bool) -> Seq<char> {
    if compact { "   "@ } else { "      "@ }
}

/// Row `r` of the simple layout: the months' lines, each left-aligned in its column.
pub open spec fn simple_row_text(ml: Seq<Seq<Seq<char>>>, r: int, compact: bool) -> Seq<char> {
    trim_end_seq(join_seqs(
        Seq::new(ml.len(), |i: int| align_left(line_or_empty(ml[i], r), simple_col_width(compact))),
        simple_col_sep(compact),
    ))
}

/// The month grids laid side by side, in the chosen style.
pub open spec fn multi_month_body(
    year: int,
    start: u32,
    count: u32,
    show: bool,
    style: CalendarStyle,
    hs: Seq<HolidayItem>,
    evs: Seq<CustomCalendarEvent>,
) -> Seq<char> {
    let n = clamp_count(count);
    let months = shown_months(start, count);
    match style {
        CalendarStyle::BoxedGrid => {
            let ml = Seq::new(months.len(), |i: int| boxed_month_lines(year, months[i], n, show, hs, evs));
            rows_text(Seq::new(max_len(ml), |r: int| boxed_row_text(ml, r)))
        },
        CalendarStyle::SimpleGrid => {
            let compact = n >= 3;
            let ml = Seq::new(months.len(), |i: int| simple_grid_lines(year, months[i], compact));
            rows_text(Seq::new(8, |r: int| simple_row_text(ml, r, compact)))
        },
    }
}

/// How many footnotes share a line: 2, 3 or 4 for one, two or three months.
pub open spec fn notes_per_line(n: u32) -> int {
    if n == 1 { 2 } else if n == 2 { 3 } else { 4 }
}

/// The footnote lines: the notes in groups of `cs`, each group joined by "   |   ".
pub open spec fn note_lines(notes: Seq<Seq<char>>, cs: int) -> Seq<Seq<char>> {
    Seq::new(((notes.len() + cs - 1) / cs) as nat, |j: int| {
        let hi = if (j + 1) * cs < notes.len() { (j + 1) * cs } else { notes.len() as int };
        join_seqs(notes.subrange(j * cs, hi), "   |   "@)
    })
}

/// Holiday footer: an empty line, then the footnote lines (nothing when there are no notes
/// or holidays are switched off).
pub open spec fn multi_month_footer(count: u32, show: bool, notes: Seq<Seq<char>>) -> Seq<char> {
    if show && notes.len() > 0 {
        seq!['\n'] + rows_text(note_lines(notes, notes_per_line(clamp_count(count))))
    } else {
        seq![]
    }
}

/// The multi-month calendar text.
pub open spec fn multi_month_text(
    year: int,
    start: u32,
    count: u32,
    show: bool,
    style: CalendarStyle,
    hs: Seq<HolidayItem>,
    evs: Seq<CustomCalendarEvent>,
) -> Seq<char> {
    let notes = if show { notes_for(shown_months(start, count), hs, evs) } else { seq![] };
    trim_end_seq(multi_month_body(year, start, count, show, style, hs, evs) + multi_month_footer(count, show, notes))
}

/// Every shown month can be laid out in weeks.
pub open spec fn multi_month_ok(year: i32, start: u32, count: u32) -> bool {
    forall|i: int| 0 <= i < shown_months(start, count).len() ==> month_layout_ok(year, #[trigger] shown_months(start, count)[i])
}

proof fn lemma_rows_text_push(rows: Seq<Seq<char>>, x: Seq<char>)
    ensures
        rows_text(rows.push(x)) == rows_text(rows) + x + seq!['\n'],
{
    assert(rows.push(x).drop_last() =~= rows);
}

proof fn lemma_join_step(parts: Seq<Seq<char>>, i: int, sep: Seq<char>)
    requires
        0 <= i < parts.len(),
    ensures
        join_seqs(parts.take(i + 1), sep) == if i == 0 { parts[0] } else { join_seqs(parts.take(i), sep) + sep + parts[i] },
{
    assert(parts.take(i + 1).drop_last() =~= parts.take(i));
    if i == 0 {
        assert(parts.take(1)[0] == parts[0]);
    }
}

proof fn lemma_notes_step(months: Seq<u32>, i: int, hs: Seq<HolidayItem>, evs: Seq<CustomCalendarEvent>)
    requires
        0 <= i < months.len(),
    ensures
        notes_for(months.take(i + 1), hs, evs) == notes_for(months.take(i), hs, evs)
            + holiday_notes(hs, months[i]) + event_notes(evs, months[i]),
{
    assert(months.take(i + 1).drop_last() =~= months.take(i));
}

proof fn lemma_max_len_step(ml: Seq<Seq<Seq<char>>>, i: int)
    requires
        0 <= i < ml.len(),
    ensures
        max_len(ml.take(i + 1)) == if ml[i].len() > max_len(ml.take(i)) { ml[i].len() } else { max_len(ml.take(i)) },
{
    assert(ml.take(i + 1).drop_last() =~= ml.take(i));
}

/// Line `r` of every month, laid side by side with `sep` between months (each first
/// left-aligned to `width` when a width is given), trailing white space removed.
fn side_by_side_row(all: &Vec<Vec<String>>, r: usize, sep: &str, pad: bool, width: usize) -> (line: String)
    ensures
        line@ == trim_end_seq(join_seqs(
            Seq::new(all@.len(), |i: int| row_part(string_views(all@[i]@), r as int, pad, width as nat)),
            sep@,
        )),
{
    let mut parts: Vec<String> = Vec::new();
    let mut i: usize = 0;
    while i < all.len()
        invariant
            i <= all@.len(),
            parts@.len() == i,
            forall|j: int| 0 <= j < i ==> #[trigger] parts@[j]@ == row_part(string_views(all@[j]@), r as int, pad, width as nat),
        decreases all.len() - i,
    {
        let m_lines = &all[i];
        let part: &str = if r < m_lines.len() { m_lines[r].as_str() } else { "" };
        proof {
            reveal_strlit("");
            assert(part@ == line_or_empty(string_views(all@[i as int]@), r as int));
        }
        let mut p = String::new();
        if pad {
            push_align_left(&mut p, part, width);
        } else {
            push_str(&mut p, part);
        }
        parts.push(p);
        i = i + 1;
    }
    assert(string_views(parts@) =~= Seq::new(all@.len(), |i: int| row_part(string_views(all@[i]@), r as int, pad, width as nat)));
    let joined = join_strings(&parts, sep);
    trimmed_end(joined.as_str())
}

fn collect_notes(
    start_month: u32,
    count: u32,
    month_count: u32,
    show_holidays: bool,
    holidays: &[HolidayItem],
    custom_events: &[CustomCalendarEvent],
) -> (notes: Vec<String>)
    requires
        count == clamp_count(month_count),
    ensures
        string_views(notes@) == if show_holidays {
            notes_for(shown_months(start_month, month_count), holidays@, custom_events@)
        } else {
            seq![]
        },
{
    let ghost months = shown_months(start_month, month_count);
    let ghost hs = holidays@;
    let ghost evs = custom_events@;
    let mut holiday_notes: Vec<String> = Vec::new();
    let mut offset: u32 = 0;
    while offset < count && start_month + offset <= 12
        invariant
            count == clamp_count(month_count),
            months == shown_months(start_month, month_count),
            hs == holidays@,
            evs == custom_events@,
            offset <= months.len(),
            offset < months.len() ==> start_month + offset <= 12,
            offset == months.len() ==> (offset == count || start_month + offset > 12),
            string_views(holiday_notes@) == if show_holidays { notes_for(months.take(offset as int), hs, evs) } else { seq![] },
        decreases count - offset,
    {
        let m = start_month + offset;
        if show_holidays {
            push_month_notes(&mut holiday_notes, holidays, custom_events, m);
            proof {
                lemma_notes_step(months, offset as int, hs, evs);
            }
        }
        offset = offset + 1;
    }
    assert(months.take(months.len() as int) =~= months);
    holiday_notes
}

fn boxed_body_text(
    year: i32,
    start_month: u32,
    count: u32,
    month_count: u32,
    show_holidays: bool,
    holidays: &[HolidayItem],
    custom_events: &[CustomCalendarEvent],
) -> (output: String)
    requires
        count == clamp_count(month_count),
        multi_month_ok(year, start_month, month_count),
    ensures
        output@ == multi_month_body(year as int, start_month, month_count, show_holidays, CalendarStyle::BoxedGrid, holidays@, custom_events@),
{
    let ghost months = shown_months(start_month, month_count);
    let ghost hs = holidays@;
    let ghost evs = custom_events@;
    let ghost ml = Seq::new(months.len(), |i: int| boxed_month_lines(year as int, months[i], count, show_holidays, hs, evs));
    let mut all_month_lines: Vec<Vec<String>> = Vec::new();
    let mut max_rows: usize = 0;
    let mut o: u32 = 0;
    while o < count && start_month + o <= 12
        invariant
            count == clamp_count(month_count),
            months == shown_months(start_month, month_count),
            multi_month_ok(year, start_month, month_count),
            ml == Seq::new(months.len(), |i: int| boxed_month_lines(year as int, months[i], count, show_holidays, hs, evs)),
            hs == holidays@,
            evs == custom_events@,
            o <= months.len(),
            o < months.len() ==> start_month + o <= 12,
            o == months.len() ==> (o == count || start_month + o > 12),
            all_month_lines@.len() == o,
            forall|i: int| 0 <= i < o ==> string_views(#[trigger] all_month_lines@[i]@) == ml[i],
            max_rows == max_len(ml.take(o as int)),
        decreases count - o,
    {
        let m = start_month + o;
        assert(months[o as int] == m);
        assert(month_layout_ok(year, months[o as int]));
        let lines = CalendarMonth::get_boxed_month_lines(year, m, count, show_holidays, holidays, custom_events);
        proof {
            lemma_max_len_step(ml, o as int);
        }
        if lines.len() > max_rows {
            max_rows = lines.len();
        }
        all_month_lines.push(lines);
        o = o + 1;
    }
    assert(ml.take(months.len() as int) =~= ml);
    let ghost rows = Seq::new(max_len(ml), |r: int| boxed_row_text(ml, r));
    let mut output = String::new();
    let mut r: usize = 0;
    while r < max_rows
        invariant
            r <= max_rows,
            max_rows == max_len(ml),
            rows == Seq::new(max_len(ml), |r: int| boxed_row_text(ml, r)),
            all_month_lines@.len() == ml.len(),
            forall|i: int| 0 <= i < ml.len() ==> string_views(#[trigger] all_month_lines@[i]@) == ml[i],
            output@ == rows_text(rows.take(r as int)),
        decreases max_rows - r,
    {
        let line = side_by_side_row(&all_month_lines, r, "   ", false, 0);
        proof {
            assert(Seq::new(all_month_lines@.len(), |i: int| row_part(string_views(all_month_lines@[i]@), r as int, false, 0))
                =~= Seq::new(ml.len(), |i: int| line_or_empty(ml[i], r as int)));
            lemma_rows_text_push(rows.take(r as int), line@);
            assert(rows.take(r + 1) =~= rows.take(r as int).push(rows[r as int]));
        }
        push_str(&mut output, line.as_str());
        push_char(&mut output, '\n');
        r = r + 1;
    }
    assert(rows.take(max_rows as int) =~= rows);
    output
}

fn simple_body_text(year: i32, start_month: u32, count: u32, month_count: u32) -> (output: String)
    requires
        count == clamp_count(month_count),
        multi_month_ok(year, start_month, month_count),
    ensures
        forall|show: bool, hs: Seq<HolidayItem>, evs: Seq<CustomCalendarEvent>|
            output@ == #[trigger] multi_month_body(year as int, start_month, month_count, show, CalendarStyle::SimpleGrid, hs, evs),
{
    let ghost months = shown_months(start_month, month_count);
    let compact = count >= 3;
    let ghost ml = Seq::new(months.len(), |i: int| simple_grid_lines(year as int, months[i], compact));
    let mut all_month_lines: Vec<Vec<String>> = Vec::new();
    let mut o: u32 = 0;
    while o < count && start_month + o <= 12
        invariant
            count == clamp_count(month_count),
            compact == (count >= 3),
            months == shown_months(start_month, month_count),
            multi_month_ok(year, start_month, month_count),
            ml == Seq::new(months.len(), |i: int| simple_grid_lines(year as int, months[i], compact)),
            o <= months.len(),
            o < months.len() ==> start_month + o <= 12,
            o == months.len() ==> (o == count || start_month + o > 12),
            all_month_lines@.len() == o,
            forall|i: int| 0 <= i < o ==> string_views(#[trigger] all_month_lines@[i]@) == ml[i],
        decreases count - o,
    {
        let m = start_month + o;
        assert(months[o as int] == m);
        assert(month_layout_ok(year, months[o as int]));
        let lines = CalendarMonth::get_simple_month_grid_lines(year, m, compact);
        all_month_lines.push(lines);
        o = o + 1;
    }
    let col_sep: &str = if compact { "   " } else { "      " };
    let col_width: usize = if compact { 27 } else { 35 };
    let ghost rows = Seq::new(8, |r: int| simple_row_text(ml, r, compact));
    let mut output = String::new();
    let mut r: usize = 0;
    while r < 8
        invariant
            r <= 8,
            rows == Seq::new(8, |r: int| simple_row_text(ml, r, compact)),
            col_sep@ == simple_col_sep(compact),
            col_width as nat == simple_col_width(compact),
            all_month_lines@.len() == ml.len(),
            forall|i: int| 0 <= i < ml.len() ==> string_views(#[trigger] all_month_lines@[i]@) == ml[i],
            output@ == rows_text(rows.take(r as int)),
        decreases 8 - r,
    {
        let line = side_by_side_row(&all_month_lines, r, col_sep, true, col_width);
        proof {
            assert(Seq::new(all_month_lines@.len(), |i: int| row_part(string_views(all_month_lines@[i]@), r as int, true, col_width as nat))
                =~= Seq::new(ml.len(), |i: int| align_left(line_or_empty(ml[i], r as int), simple_col_width(compact))));
            lemma_rows_text_push(rows.take(r as int), line@);
            assert(rows.take(r + 1) =~= rows.take(r as int).push(rows[r as int]));
        }
        push_str(&mut output, line.as_str());
        push_char(&mut output, '\n');
        r = r + 1;
    }
    assert(rows.take(8) =~= rows);
    output
}

proof fn lemma_ceil_div(n: int, cs: int, j: int)
    requires
        cs > 0,
        n >= 0,
        j >= 0,
    ensures
        (j * cs < n) == (j < (n + cs - 1) / cs),
        (j * cs < n && n <= (j + 1) * cs) ==> j + 1 == (n + cs - 1) / cs,
{
    let q = (n + cs - 1) / cs;
    let r = (n + cs - 1) % cs;
    vstd::arithmetic::div_mod::lemma_fundamental_div_mod(n + cs - 1, cs);
    vstd::arithmetic::div_mod::lemma_mod_pos_bound(n + cs - 1, cs);
    assert((j * cs < n) == (j < q)) by (nonlinear_arith)
        requires
            n + cs - 1 == cs * q + r,
            0 <= r < cs,
            cs > 0,
            j >= 0,
    ;
    assert((j * cs < n && n <= (j + 1) * cs) ==> j + 1 == q) by (nonlinear_arith)
        requires
            n + cs - 1 == cs * q + r,
            0 <= r < cs,
            cs > 0,
            j >= 0,
    ;
}

fn footer_lines(holiday_notes: &Vec<String>, chunk_size: usize) -> (out: String)
    requires
        2 <= chunk_size <= 4,
    ensures
        out@ == rows_text(note_lines(string_views(holiday_notes@), chunk_size as int)),
{
    let ghost notes = string_views(holiday_notes@);
    let ghost nl = note_lines(notes, chunk_size as int);
    let n = holiday_notes.len();
    let mut output = String::new();
    let mut j: usize = 0;
    let mut start: usize = 0;
    proof {
        lemma_ceil_div(n as int, chunk_size as int, 0);
        assert(nl.len() == (n + chunk_size - 1) / (chunk_size as int));
        assert(nl.take(0) =~= Seq::<Seq<char>>::empty());
    }
    while start < n
        invariant
            n == holiday_notes@.len(),
            notes == string_views(holiday_notes@),
            2 <= chunk_size <= 4,
            nl == note_lines(notes, chunk_size as int),
            start < n ==> start == j * chunk_size,
            start <= n,
            j <= start,
            start < n ==> j < nl.len(),
            start == n ==> j == nl.len(),
            output@ == rows_text(nl.take(j as int)),
        decreases n - start,
    {
        let hi = if n - start > chunk_size { start + chunk_size } else { n };
        let mut line = String::new();
        let mut i = start;
        while i < hi
            invariant
                start <= i <= hi <= n,
                n == holiday_notes@.len(),
                notes == string_views(holiday_notes@),
                line@ == join_seqs(notes.subrange(start as int, i as int), "   |   "@),
            decreases hi - i,
        {
            proof {
                let parts = notes.subrange(start as int, hi as int);
                lemma_join_step(parts, i - start, "   |   "@);
                assert(parts.take(i - start) =~= notes.subrange(start as int, i as int));
                assert(parts.take(i - start + 1) =~= notes.subrange(start as int, i + 1));
            }
            if i > start {
                push_str(&mut line, "   |   ");
            }
            push_str(&mut line, holiday_notes[i].as_str());
            i = i + 1;
        }
        proof {
            assert((j + 1) * chunk_size == start + chunk_size) by (nonlinear_arith)
                requires start == j * chunk_size;
            lemma_ceil_div(n as int, chunk_size as int, j as int);
            lemma_ceil_div(n as int, chunk_size as int, j + 1);
            assert(line@ == nl[j as int]);
            lemma_rows_text_push(nl.take(j as int), line@);
            assert(nl.take(j + 1) =~= nl.take(j as int).push(nl[j as int]));
        }
        push_str(&mut output, line.as_str());
        push_char(&mut output, '\n');
        start = hi;
        j = j + 1;
    }
    assert(nl.take(j as int) =~= nl);
    output
}

fn category_tag(c: HolidayCategory) -> (r: &'static str)
    ensures
        r@ == category_prefix(c),
{
    match c {
        HolidayCategory::American => "[US]",
        HolidayCategory::Chinese => "[CN]",
        HolidayCategory::Custom => "[Event]",
    }
}

fn push_month_notes(notes: &mut Vec<String>, holidays: &[HolidayItem], events: &[CustomCalendarEvent], m: u32)
    ensures
        string_views(final(notes)@) == string_views(old(notes)@) + holiday_notes(holidays@, m) + event_notes(events@, m),
{
    let ghost start = string_views(notes@);
    let mut i: usize = 0;
    while i < holidays.len()
        invariant
            i <= holidays@.len(),
            string_views(notes@) == start + holiday_notes(holidays@.take(i as int), m),
        decreases holidays.len() - i,
    {
        let h = &holidays[i];
        assert(holidays@.take(i + 1).drop_last() =~= holidays@.take(i as int));
        if h.enabled && h.month == m {
            let mut line = String::new();
            push_str(&mut line, category_tag(h.category));
            push_str(&mut line, " ");
            push_str(&mut line, short_month_name(m));
            push_str(&mut line, " ");
            push_nat(&mut line, h.day as u64);
            push_str(&mut line, ": ");
            push_str(&mut line, h.name.as_str());
            assert(line@ =~= holiday_note(*h, m));
            proof {
                lemma_views_push(notes@, line);
            }
            notes.push(line);
            assert(string_views(notes@) =~= start + holiday_notes(holidays@.take(i + 1), m));
        } else {
            assert(string_views(notes@) =~= start + holiday_notes(holidays@.take(i + 1), m));
        }
        i = i + 1;
    }
    assert(holidays@.take(holidays@.len() as int) =~= holidays@);
    let ghost mid = string_views(notes@);
    let mut j: usize = 0;
    while j < events.len()
        invariant
            j <= events@.len(),
            string_views(notes@) == mid + event_notes(events@.take(j as int), m),
        decreases events.len() - j,
    {
        let e = &events[j];
        assert(events@.take(j + 1).drop_last() =~= events@.take(j as int));
        if e.month == m {
            let mut line = String::new();
            push_str(&mut line, "[Event] ");
            push_str(&mut line, short_month_name(m));
            push_str(&mut line, " ");
            push_nat(&mut line, e.day as u64);
            push_str(&mut line, ": ");
            push_str(&mut line, e.label.as_str());
            assert(line@ =~= event_note(*e, m));
            proof {
                lemma_views_push(notes@, line);
            }
            notes.push(line);
            assert(string_views(notes@) =~= mid + event_notes(events@.take(j + 1), m));
        } else {
            assert(string_views(notes@) =~= mid + event_notes(events@.take(j + 1), m));
        }
        j = j + 1;
    }
    assert(events@.take(events@.len() as int) =~= events@);
    assert(string_views(notes@) =~= start + holiday_notes(holidays@, m) + event_notes(events@, m));
}

fn short_month_name(m: u32) -> (r: &'static str)
    ensures
        r == month_short_name(m as int),
{
    CalendarMonth::short_name_for_month(m)
}


// ---------------------------------------------------------------------------
// Default holiday list
// ---------------------------------------------------------------------------

/// What a holiday entry holds: id, name, month, day, category, whether enabled, color.
pub type HolidayView = (Seq<char>, Seq<char>, u32, u32, HolidayCategory, bool, [u8; 4]);

/// The recorded content of a holiday entry.
pub open spec fn holiday_entry(h: HolidayItem) -> HolidayView {
    (h.id@, h.name@, h.month, h.day, h.category, h.enabled, h.color)
}

/// Whether entry `a` comes no later than entry `b` in the year (by month, then day).
pub open spec fn date_le(a: HolidayView, b: HolidayView) -> bool {
    a.2 < b.2 || (a.2 == b.2 && a.3 <= b.3)
}

/// `x` placed after every entry of `s` (a date-sorted list) whose date is not later.
pub open spec fn insert_by_date(s: Seq<HolidayView>, x: HolidayView) -> Seq<HolidayView>
    decreases s.len(),
{
    if s.len() == 0 {
        seq![x]
    } else if date_le(s.last(), x) {
        s.push(x)
    } else {
        insert_by_date(s.drop_last(), x).push(s.last())
    }
}

/// Stable sort by date: entries on the same date keep their relative order.
pub open spec fn sort_by_date(s: Seq<HolidayView>) -> Seq<HolidayView>
    decreases s.len(),
{
    if s.len() == 0 { seq![] } else { insert_by_date(sort_by_date(s.drop_last()), s.last()) }
}

/// The built-in holidays of a year, in the order they are listed before sorting:
/// the American holidays, then the Chinese festivals.
pub open spec fn base_holidays(year: int) -> Seq<HolidayView> {
    american_holidays(year) + chinese_holidays(year)
}

/// The built-in American holidays of a year, in listed order.
pub open spec fn american_holidays(year: int) -> Seq<HolidayView> {
    seq![
        ("us_new_year"@, "New Year's Day"@, 1u32, 1u32, HolidayCategory::American, true, [52u8, 152u8, 219u8, 255u8]),
        ("us_mlk"@, "Martin Luther King Jr. Day"@, 1u32, nth_weekday_day(first_weekday_value(year, 1), month_days(year, 1), 1, 3) as u32, HolidayCategory::American, true, [155u8, 89u8, 182u8, 255u8]),
        ("us_valentines"@, "Valentine's Day"@, 2u32, 14u32, HolidayCategory::American, true, [231u8, 76u8, 60u8, 255u8]),
        ("us_presidents"@, "Presidents' Day"@, 2u32, nth_weekday_day(first_weekday_value(year, 2), month_days(year, 2), 1, 3) as u32, HolidayCategory::American, true, [41u8, 128u8, 185u8, 255u8]),
        ("us_st_patrick"@, "St. Patrick's Day"@, 3u32, 17u32, HolidayCategory::American, true, [46u8, 204u8, 113u8, 255u8]),
        ("us_easter"@, "Easter Sunday"@, easter_date(year).0, easter_date(year).1, HolidayCategory::American, true, [241u8, 196u8, 15u8, 255u8]),
        ("us_earth_day"@, "Earth Day"@, 4u32, 22u32, HolidayCategory::American, true, [39u8, 174u8, 96u8, 255u8]),
        ("us_mothers_day"@, "Mother's Day"@, 5u32, nth_weekday_day(first_weekday_value(year, 5), month_days(year, 5), 0, 2) as u32, HolidayCategory::American, true, [255u8, 105u8, 180u8, 255u8]),
        ("us_memorial"@, "Memorial Day"@, 5u32, last_weekday_day(first_weekday_value(year, 5), month_days(year, 5), 1) as u32, HolidayCategory::American, true, [192u8, 57u8, 43u8, 255u8]),
        ("us_juneteenth"@, "Juneteenth"@, 6u32, 19u32, HolidayCategory::American, true, [230u8, 126u8, 34u8, 255u8]),
        ("us_fathers_day"@, "Father's Day"@, 6u32, nth_weekday_day(first_weekday_value(year, 6), month_days(year, 6), 0, 3) as u32, HolidayCategory::American, true, [52u8, 152u8, 219u8, 255u8]),
        ("us_independence"@, "Independence Day (4th of July)"@, 7u32, 4u32, HolidayCategory::American, true, [231u8, 76u8, 60u8, 255u8]),
        ("us_labor"@, "Labor Day"@, 9u32, nth_weekday_day(first_weekday_value(year, 9), month_days(year, 9), 1, 1) as u32, HolidayCategory::American, true, [41u8, 128u8, 185u8, 255u8]),
        ("us_columbus"@, "Columbus / Indigenous Peoples Day"@, 10u32, nth_weekday_day(first_weekday_value(year, 10), month_days(year, 10), 1, 2) as u32, HolidayCategory::American, true, [142u8, 68u8, 173u8, 255u8]),
        ("us_halloween"@, "Halloween"@, 10u32, 31u32, HolidayCategory::American, true, [230u8, 126u8, 34u8, 255u8]),
        ("us_veterans"@, "Veterans Day"@, 11u32, 11u32, HolidayCategory::American, true, [41u8, 128u8, 185u8, 255u8]),
        ("us_thanksgiving"@, "Thanksgiving Day"@, 11u32, nth_weekday_day(first_weekday_value(year, 11), month_days(year, 11), 4, 4) as u32, HolidayCategory::American, true, [211u8, 84u8, 0u8, 255u8]),
        ("us_christmas_eve"@, "Christmas Eve"@, 12u32, 24u32, HolidayCategory::American, true, [39u8, 174u8, 96u8, 255u8]),
        ("us_christmas"@, "Christmas Day"@, 12u32, 25u32, HolidayCategory::American, true, [192u8, 57u8, 43u8, 255u8]),
        ("us_new_years_eve"@, "New Year's Eve"@, 12u32, 31u32, HolidayCategory::American, true, [241u8, 196u8, 15u8, 255u8]),
    ]
}

/// The built-in Chinese festivals of a year, in listed order.
pub open spec fn chinese_holidays(year: int) -> Seq<HolidayView> {
    seq![
        ("cn_cny"@, "Chinese New Year (Spring Festival)"@, festival_date(year, "cny"@).unwrap().0, festival_date(year, "cny"@).unwrap().1, HolidayCategory::Chinese, true, [230u8, 0u8, 18u8, 255u8]),
        ("cn_lantern"@, "Lantern Festival (Yuanxiao)"@, festival_date(year, "lantern"@).unwrap().0, festival_date(year, "lantern"@).unwrap().1, HolidayCategory::Chinese, true, [255u8, 80u8, 0u8, 255u8]),
        ("cn_qingming"@, "Qingming (Tomb Sweeping)"@, festival_date(year, "qingming"@).unwrap().0, festival_date(year, "qingming"@).unwrap().1, HolidayCategory::Chinese, true, [46u8, 204u8, 113u8, 255u8]),
        ("cn_dragon_boat"@, "Dragon Boat Festival (Duanwu)"@, festival_date(year, "dragon_boat"@).unwrap().0, festival_date(year, "dragon_boat"@).unwrap().1, HolidayCategory::Chinese, true, [26u8, 188u8, 156u8, 255u8]),
        ("cn_qixi"@, "Qixi (Chinese Valentine's)"@, festival_date(year, "qixi"@).unwrap().0, festival_date(year, "qixi"@).unwrap().1, HolidayCategory::Chinese, true, [255u8, 105u8, 180u8, 255u8]),
        ("cn_mid_autumn"@, "Mid-Autumn Moon Festival"@, festival_date(year, "mid_autumn"@).unwrap().0, festival_date(year, "mid_autumn"@).unwrap().1, HolidayCategory::Chinese, true, [241u8, 196u8, 15u8, 255u8]),
        ("cn_double_ninth"@, "Double Ninth (Chongyang)"@, festival_date(year, "double_ninth"@).unwrap().0, festival_date(year, "double_ninth"@).unwrap().1, HolidayCategory::Chinese, true, [175u8, 122u8, 197u8, 255u8]),
        ("cn_dongzhi"@, "Winter Solstice (Dongzhi)"@, festival_date(year, "dongzhi"@).unwrap().0, festival_date(year, "dongzhi"@).unwrap().1, HolidayCategory::Chinese, true, [127u8, 140u8, 141u8, 255u8]),
    ]
}

/// The years for which the built-in holiday list can be computed.
pub open spec fn holiday_year_ok(year: i32) -> bool {
    &&& month_layout_ok(year, 1)
    &&& month_layout_ok(year, 2)
    &&& month_layout_ok(year, 5)
    &&& month_layout_ok(year, 6)
    &&& month_layout_ok(year, 9)
    &&& month_layout_ok(year, 10)
    &&& month_layout_ok(year, 11)
    &&& i32::MIN <= year * 11 <= i32::MAX
    &&& approx_festival_day(year as int) + 14 <= u32::MAX
}

proof fn lemma_insert_by_date_at(s: Seq<HolidayView>, x: HolidayView, p: int)
    requires
        0 <= p <= s.len(),
        forall|i: int| p <= i < s.len() ==> !date_le(#[trigger] s[i], x),
        p > 0 ==> date_le(s[p - 1], x),
    ensures
        insert_by_date(s, x) == s.take(p).push(x) + s.skip(p),
    decreases s.len(),
{
    if s.len() == 0 {
        assert(s.take(p).push(x) + s.skip(p) =~= seq![x]);
    } else if p == s.len() {
        assert(s.take(p).push(x) + s.skip(p) =~= s.push(x));
    } else {
        lemma_insert_by_date_at(s.drop_last(), x, p);
        assert(s.drop_last().take(p).push(x) + s.drop_last().skip(p) + seq![s.last()]
            =~= s.take(p).push(x) + s.skip(p));
    }
}

/// The entries of `s` come in date order.
pub open spec fn date_sorted(s: Seq<HolidayView>) -> bool {
    forall|i: int, j: int| 0 <= i < j < s.len() ==> date_le(#[trigger] s[i], #[trigger] s[j])
}

/// Inserting into a date-sorted list keeps it sorted and adds just the new entry.
proof fn lemma_insert_by_date_sorted(s: Seq<HolidayView>, x: HolidayView)
    requires
        date_sorted(s),
    ensures
        date_sorted(insert_by_date(s, x)),
        insert_by_date(s, x).to_multiset() == s.to_multiset().insert(x),
        forall|i: int| 0 <= i < insert_by_date(s, x).len() ==> (#[trigger] insert_by_date(s, x)[i] == x || s.contains(insert_by_date(s, x)[i])),
        insert_by_date(s, x).len() == s.len() + 1,
    decreases s.len(),
{
    broadcast use vstd::seq_lib::group_to_multiset_ensures;
    let r = insert_by_date(s, x);
    if s.len() == 0 {
        assert(r == seq![x]);
        assert(seq![x] == Seq::<HolidayView>::empty().push(x));
    } else if date_le(s.last(), x) {
        assert(r == s.push(x));
        assert forall|i: int, j: int| 0 <= i < j < r.len() implies date_le(#[trigger] r[i], #[trigger] r[j]) by {
            if j == s.len() {
                if i < s.len() - 1 {
                    assert(date_le(s[i], s[s.len() - 1]));
                }
            }
        }
        assert forall|i: int| 0 <= i < r.len() implies (#[trigger] r[i] == x || s.contains(r[i])) by {
            if i < s.len() {
                assert(r[i] == s[i]);
            }
        }
    } else {
        let d = s.drop_last();
        let l = s.last();
        assert(date_sorted(d)) by {
            assert forall|i: int, j: int| 0 <= i < j < d.len() implies date_le(#[trigger] d[i], #[trigger] d[j]) by {
                assert(d[i] == s[i] && d[j] == s[j]);
            }
        }
        lemma_insert_by_date_sorted(d, x);
        let q = insert_by_date(d, x);
        assert(r == q.push(l));
        assert forall|i: int| 0 <= i < q.len() implies date_le(#[trigger] q[i], l) by {
            if q[i] != x {
                assert(d.contains(q[i]));
                let t = choose|t: int| 0 <= t < d.len() && d[t] == q[i];
                assert(s[t] == d[t]);
                assert(date_le(s[t], s[s.len() - 1]));
            }
        }
        assert forall|i: int, j: int| 0 <= i < j < r.len() implies date_le(#[trigger] r[i], #[trigger] r[j]) by {
            if j == q.len() {
                assert(r[i] == q[i]);
                assert(date_le(q[i], l));
            } else {
                assert(r[i] == q[i] && r[j] == q[j]);
            }
        }
        assert forall|i: int| 0 <= i < r.len() implies (#[trigger] r[i] == x || s.contains(r[i])) by {
            if i < q.len() {
                assert(r[i] == q[i]);
                if q[i] != x {
                    let t = choose|t: int| 0 <= t < d.len() && d[t] == q[i];
                    assert(s[t] == d[t]);
                }
            } else {
                assert(r[i] == s[s.len() - 1]);
            }
        }
        assert(s == d.push(l));
        assert(r.to_multiset() =~= s.to_multiset().insert(x));
    }
}

/// Sorting the holidays by date puts them in date order and keeps every entry, each as
/// often as it was listed.
pub proof fn lemma_sort_by_date(s: Seq<HolidayView>)
    ensures
        date_sorted(sort_by_date(s)),
        sort_by_date(s).to_multiset() == s.to_multiset(),
    decreases s.len(),
{
    broadcast use vstd::seq_lib::group_to_multiset_ensures;
    if s.len() == 0 {
        assert(sort_by_date(s) =~= s);
    } else {
        lemma_sort_by_date(s.drop_last());
        lemma_insert_by_date_sorted(sort_by_date(s.drop_last()), s.last());
        assert(s == s.drop_last().push(s.last()));
    }
}

fn date_le_exec(a: &HolidayItem, b: &HolidayItem) -> (r: bool)
    ensures
        r == date_le(holiday_entry(*a), holiday_entry(*b)),
{
    a.month < b.month || (a.month == b.month && a.day <= b.day)
}

fn sort_holidays_by_date(list: Vec<HolidayItem>) -> (r: Vec<HolidayItem>)
    ensures
        r@.map_values(|h: HolidayItem| holiday_entry(h)) == sort_by_date(
            list@.map_values(|h: HolidayItem| holiday_entry(h)),
        ),
{
    let ghost orig = list@;
    let ghost src = orig.map_values(|h: HolidayItem| holiday_entry(h));
    let mut list = list;
    let total = list.len();
    let mut res: Vec<HolidayItem> = Vec::new();
    let mut k: usize = 0;
    while list.len() > 0
        invariant
            k <= orig.len(),
            orig.len() == total,
            list@ == orig.skip(k as int),
            src == orig.map_values(|h: HolidayItem| holiday_entry(h)),
            res@.map_values(|h: HolidayItem| holiday_entry(h)) == sort_by_date(src.take(k as int)),
        decreases list.len(),
    {
        assert(k < orig.len());
        let x = list.remove(0);
        assert(x == orig[k as int]);
        let ghost before = res@.map_values(|h: HolidayItem| holiday_entry(h));
        let mut p = res.len();
        while p > 0 && !date_le_exec(&res[p - 1], &x)
            invariant
                p <= res@.len(),
                before == res@.map_values(|h: HolidayItem| holiday_entry(h)),
                forall|i: int| p <= i < res@.len() ==> !date_le(#[trigger] before[i], holiday_entry(x)),
            decreases p,
        {
            p = p - 1;
        }
        proof {
            lemma_insert_by_date_at(before, holiday_entry(x), p as int);
            assert(src.take(k + 1).drop_last() =~= src.take(k as int));
            assert(src.take(k + 1).last() == holiday_entry(x));
        }
        res.insert(p, x);
        proof {
            assert(res@.map_values(|h: HolidayItem| holiday_entry(h)) =~= before.take(p as int).push(holiday_entry(x)) + before.skip(p as int));
            assert(orig.skip(k as int).drop_first() =~= orig.skip(k + 1));
        }
        k = k + 1;
    }
    assert(k == orig.len());
    assert(src.take(k as int) =~= src);
    res
}

#[verifier::rlimit(100)]
#[verifier::spinoff_prover]
fn american_list(year: i32) -> (list: Vec<HolidayItem>)
    requires
    holiday_year_ok(year),
    ensures
    list@.map_values(|h: HolidayItem| holiday_entry(h)) == american_holidays(year as int),
{
    let mut list: Vec<HolidayItem> = Vec::new();
    list.push(HolidayItem::new("us_new_year", "New Year's Day", 1, 1, HolidayCategory::American, [52, 152, 219, 255]));
    let dd = CalendarMonth::nth_weekday_of_month(year, 1, 1, 3);
    list.push(HolidayItem::new("us_mlk", "Martin Luther King Jr. Day", 1, dd, HolidayCategory::American, [155, 89, 182, 255]));
    list.push(HolidayItem::new("us_valentines", "Valentine's Day", 2, 14, HolidayCategory::American, [231, 76, 60, 255]));
    let dd = CalendarMonth::nth_weekday_of_month(year, 2, 1, 3);
    list.push(HolidayItem::new("us_presidents", "Presidents' Day", 2, dd, HolidayCategory::American, [41, 128, 185, 255]));
    list.push(HolidayItem::new("us_st_patrick", "St. Patrick's Day", 3, 17, HolidayCategory::American, [46, 204, 113, 255]));
    let (easter_m, easter_d) = CalendarMonth::calculate_easter(year);
    list.push(HolidayItem::new("us_easter", "Easter Sunday", easter_m, easter_d, HolidayCategory::American, [241, 196, 15, 255]));
    list.push(HolidayItem::new("us_earth_day", "Earth Day", 4, 22, HolidayCategory::American, [39, 174, 96, 255]));
    let dd = CalendarMonth::nth_weekday_of_month(year, 5, 0, 2);
    list.push(HolidayItem::new("us_mothers_day", "Mother's Day", 5, dd, HolidayCategory::American, [255, 105, 180, 255]));
    let dd = CalendarMonth::last_weekday_of_month(year, 5, 1);
    list.push(HolidayItem::new("us_memorial", "Memorial Day", 5, dd, HolidayCategory::American, [192, 57, 43, 255]));
    list.push(HolidayItem::new("us_juneteenth", "Juneteenth", 6, 19, HolidayCategory::American, [230, 126, 34, 255]));
    let dd = CalendarMonth::nth_weekday_of_month(year, 6, 0, 3);
    list.push(HolidayItem::new("us_fathers_day", "Father's Day", 6, dd, HolidayCategory::American, [52, 152, 219, 255]));
    list.push(HolidayItem::new("us_independence", "Independence Day (4th of July)", 7, 4, HolidayCategory::American, [231, 76, 60, 255]));
    let dd = CalendarMonth::nth_weekday_of_month(year, 9, 1, 1);
    list.push(HolidayItem::new("us_labor", "Labor Day", 9, dd, HolidayCategory::American, [41, 128, 185, 255]));
    let dd = CalendarMonth::nth_weekday_of_month(year, 10, 1, 2);
    list.push(HolidayItem::new("us_columbus", "Columbus / Indigenous Peoples Day", 10, dd, HolidayCategory::American, [142, 68, 173, 255]));
    list.push(HolidayItem::new("us_halloween", "Halloween", 10, 31, HolidayCategory::American, [230, 126, 34, 255]));
    list.push(HolidayItem::new("us_veterans", "Veterans Day", 11, 11, HolidayCategory::American, [41, 128, 185, 255]));
    let dd = CalendarMonth::nth_weekday_of_month(year, 11, 4, 4);
    list.push(HolidayItem::new("us_thanksgiving", "Thanksgiving Day", 11, dd, HolidayCategory::American, [211, 84, 0, 255]));
    list.push(HolidayItem::new("us_christmas_eve", "Christmas Eve", 12, 24, HolidayCategory::American, [39, 174, 96, 255]));
    list.push(HolidayItem::new("us_christmas", "Christmas Day", 12, 25, HolidayCategory::American, [192, 57, 43, 255]));
    list.push(HolidayItem::new("us_new_years_eve", "New Year's Eve", 12, 31, HolidayCategory::American, [241, 196, 15, 255]));
    assert(list@.map_values(|h: HolidayItem| holiday_entry(h)) =~= american_holidays(year as int));
    list
}

#[verifier::rlimit(100)]
#[verifier::spinoff_prover]
fn chinese_list(year: i32) -> (list: Vec<HolidayItem>)
    requires
    holiday_year_ok(year),
    ensures
    list@.map_values(|h: HolidayItem| holiday_entry(h)) == chinese_holidays(year as int),
{
    proof {
    reveal_strlit("cny");
    reveal_strlit("lantern");
    reveal_strlit("qingming");
    reveal_strlit("dragon_boat");
    reveal_strlit("qixi");
    reveal_strlit("mid_autumn");
    reveal_strlit("double_ninth");
    reveal_strlit("dongzhi");
    }
    let mut list: Vec<HolidayItem> = Vec::new();
    if let Some((m, d)) = CalendarMonth::get_chinese_festival_date(year, "cny") {
        list.push(HolidayItem::new("cn_cny", "Chinese New Year (Spring Festival)", m, d, HolidayCategory::Chinese, [230, 0, 18, 255]));
    }
    if let Some((m, d)) = CalendarMonth::get_chinese_festival_date(year, "lantern") {
        list.push(HolidayItem::new("cn_lantern", "Lantern Festival (Yuanxiao)", m, d, HolidayCategory::Chinese, [255, 80, 0, 255]));
    }
    if let Some((m, d)) = CalendarMonth::get_chinese_festival_date(year, "qingming") {
        list.push(HolidayItem::new("cn_qingming", "Qingming (Tomb Sweeping)", m, d, HolidayCategory::Chinese, [46, 204, 113, 255]));
    }
    if let Some((m, d)) = CalendarMonth::get_chinese_festival_date(year, "dragon_boat") {
        list.push(HolidayItem::new("cn_dragon_boat", "Dragon Boat Festival (Duanwu)", m, d, HolidayCategory::Chinese, [26, 188, 156, 255]));
    }
    if let Some((m, d)) = CalendarMonth::get_chinese_festival_date(year, "qixi") {
        list.push(HolidayItem::new("cn_qixi", "Qixi (Chinese Valentine's)", m, d, HolidayCategory::Chinese, [255, 105, 180, 255]));
    }
    if let Some((m, d)) = CalendarMonth::get_chinese_festival_date(year, "mid_autumn") {
        list.push(HolidayItem::new("cn_mid_autumn", "Mid-Autumn Moon Festival", m, d, HolidayCategory::Chinese, [241, 196, 15, 255]));
    }
    if let Some((m, d)) = CalendarMonth::get_chinese_festival_date(year, "double_ninth") {
        list.push(HolidayItem::new("cn_double_ninth", "Double Ninth (Chongyang)", m, d, HolidayCategory::Chinese, [175, 122, 197, 255]));
    }
    if let Some((m, d)) = CalendarMonth::get_chinese_festival_date(year, "dongzhi") {
        list.push(HolidayItem::new("cn_dongzhi", "Winter Solstice (Dongzhi)", m, d, HolidayCategory::Chinese, [127, 140, 141, 255]));
    }
    assert(list@.map_values(|h: HolidayItem| holiday_entry(h)) =~= chinese_holidays(year as int));
    list
}


// ---------------------------------------------------------------------------
// Laws
// ---------------------------------------------------------------------------

/// From year 1 on, every month 1..=12 can be laid out in weeks.
pub proof fn lemma_month_layout_ok(year: i32, month: u32)
    requires
        year >= 1,
        1 <= month <= 12,
    ensures
        month_layout_ok(year, month),
{
    lemma_first_weekday_range(year, month);
}

/// From year 1 on (and while `year * 11` fits), the built-in holiday list can be computed.
pub proof fn lemma_holiday_year_ok(year: i32)
    requires
        1 <= year <= 195225786,
    ensures
        holiday_year_ok(year),
{
    lemma_month_layout_ok(year, 1);
    lemma_month_layout_ok(year, 2);
    lemma_month_layout_ok(year, 5);
    lemma_month_layout_ok(year, 6);
    lemma_month_layout_ok(year, 9);
    lemma_month_layout_ok(year, 10);
    lemma_month_layout_ok(year, 11);
    lemma_tdiv_bounds(year * 11, 25);
}

/// From year 1 on, any multi-month calendar can be laid out.
pub proof fn lemma_multi_month_ok(year: i32, start: u32, count: u32)
    requires
        year >= 1,
    ensures
        multi_month_ok(year, start, count),
{
    assert forall|i: int| 0 <= i < shown_months(start, count).len() implies month_layout_ok(
        year,
        #[trigger] shown_months(start, count)[i],
    ) by {
        let m = shown_months(start, count)[i];
        if m == 0 {
            lemma_first_weekday_range(year, 0);
            assert(month_layout_ok(year, m));
        } else {
            lemma_month_layout_ok(year, m);
        }
    }
}

/// Weekday (0 is Sunday) of day `d` of a month whose first day has weekday `first_w`.
pub open spec fn weekday_of_day(first_w: int, d: int) -> int {
    (first_w + d - 1) % 7
}

/// When a month has an `n`-th day of weekday `target`, the day found falls on that
/// weekday, lies in the `n`-th week of the month (days `7 * (n - 1) + 1` to `7 * n`),
/// and every day of that weekday is a whole number of weeks away from it, so exactly
/// `n - 1` of them come before it.
pub proof fn lemma_nth_weekday(first_w: int, num_days: int, target: int, n: int)
    requires
        0 <= first_w < 7,
        0 <= target < 7,
        n >= 1,
        1 + (target - first_w + 7) % 7 + 7 * (n - 1) <= num_days,
    ensures
        1 <= nth_weekday_day(first_w, num_days, target, n) <= num_days,
        weekday_of_day(first_w, nth_weekday_day(first_w, num_days, target, n)) == target,
        7 * (n - 1) < nth_weekday_day(first_w, num_days, target, n) <= 7 * n,
        forall|d: int|
            #[trigger] weekday_of_day(first_w, d) == target ==> (nth_weekday_day(first_w, num_days, target, n) - d) % 7
                == 0,
{
    let off = (target - first_w + 7) % 7;
    let r = nth_weekday_day(first_w, num_days, target, n);
    assert(r == 1 + off + 7 * (n - 1));
    let base = if target - first_w + 7 >= 7 { target - first_w } else { target - first_w + 7 };
    assert(off == base);
    let m = if first_w + off == target { n - 1 } else { n };
    assert(first_w + r - 1 == target + 7 * m);
    vstd::arithmetic::div_mod::lemma_fundamental_div_mod_converse(first_w + r - 1, 7, m, target);
    assert forall|d: int| #[trigger] weekday_of_day(first_w, d) == target implies (r - d) % 7 == 0 by {
        let q = (first_w + d - 1) / 7;
        vstd::arithmetic::div_mod::lemma_fundamental_div_mod(first_w + d - 1, 7);
        assert(r - d == 7 * (m - q));
        vstd::arithmetic::div_mod::lemma_fundamental_div_mod_converse(r - d, 7, m - q, 0);
    }
}

/// The last given weekday of a month falls on that weekday, lies in the month, and is
/// the last such day: the month ends less than a week after it.
pub proof fn lemma_last_weekday(year: i32, month: u32, target: int)
    requires
        month_layout_ok(year, month),
        0 <= target < 7,
    ensures
        ({
            let fw = first_weekday_value(year as int, month);
            let nd = month_days(year as int, month as int);
            let r = last_weekday_day(fw, nd, target);
            &&& 1 <= r <= nd < r + 7
            &&& weekday_of_day(fw, r) == target
        }),
{
    let fw = first_weekday_value(year as int, month);
    let nd = month_days(year as int, month as int);
    lemma_first_weekday_range(year, month);
    assert(0 <= fw < 7);
    assert(28 <= nd <= 31);
    let off = (target - fw + 7) % 7;
    let base = if target - fw + 7 >= 7 { target - fw } else { target - fw + 7 };
    vstd::arithmetic::div_mod::lemma_fundamental_div_mod_converse(target - fw + 7, 7, if target - fw + 7 >= 7 { 1int } else { 0int }, base);
    assert(off == base);
    let q = (nd - 1 - off) / 7;
    vstd::arithmetic::div_mod::lemma_fundamental_div_mod(nd - 1 - off, 7);
    vstd::arithmetic::div_mod::lemma_mod_pos_bound(nd - 1 - off, 7);
    let r = last_weekday_day(fw, nd, target);
    assert(r == 1 + off + 7 * q);
    let m = if fw + off == target { q } else { q + 1 };
    assert(fw + r - 1 == target + 7 * m);
    vstd::arithmetic::div_mod::lemma_fundamental_div_mod_converse(fw + r - 1, 7, m, target);
}

/// Whether holiday `h` is an enabled holiday on `day` of `month`.
pub open spec fn holiday_on(h: HolidayItem, month: u32, day: u32) -> bool {
    h.enabled && h.month == month && h.day == day
}

/// A day's holiday badge comes only from the enabled holidays of that month and day:
/// adding a holiday of another month or day, or a disabled one, anywhere in the list
/// leaves the badge as it was; and a day has a badge exactly when such a holiday falls
/// on it.
pub proof fn lemma_holiday_badge_of_day(hs: Seq<HolidayItem>, month: u32, day: u32, c: nat, i: int, h: HolidayItem)
    requires
        0 <= i <= hs.len(),
        !holiday_on(h, month, day),
    ensures
        holiday_badge(hs.insert(i, h), month, day, c) == holiday_badge(hs, month, day, c),
        holiday_badge(hs, month, day, c) is None <==> forall|j: int| 0 <= j < hs.len() ==> !holiday_on(#[trigger] hs[j], month, day),
    decreases hs.len(),
{
    let ins = hs.insert(i, h);
    if hs.len() > 0 {
        if i == hs.len() {
            assert(ins.drop_last() =~= hs);
            assert(ins.last() == h);
            lemma_holiday_badge_of_day(hs.drop_last(), month, day, c, 0, h);
        } else {
            assert(ins.drop_last() =~= hs.drop_last().insert(i, h));
            assert(ins.last() == hs.last());
            lemma_holiday_badge_of_day(hs.drop_last(), month, day, c, i, h);
        }
        let d = hs.drop_last();
        if holiday_badge(hs, month, day, c) is None {
            assert forall|j: int| 0 <= j < hs.len() implies !holiday_on(#[trigger] hs[j], month, day) by {
                if j < hs.len() - 1 {
                    assert(hs[j] == d[j]);
                }
            }
        } else {
            if !holiday_on(hs.last(), month, day) {
                let j0 = choose|j: int| 0 <= j < d.len() && holiday_on(#[trigger] d[j], month, day);
                assert(hs[j0] == d[j0]);
            }
        }
    } else {
        assert(ins =~= seq![h]);
        assert(ins.drop_last() =~= hs);
    }
}

/// Which custom event gives a day its badge: the last one listed for that day.
proof fn lemma_event_day_badge_last(evs: Seq<CustomCalendarEvent>, month: u32, day: u32)
    ensures
        forall|i: int|
            0 <= i < evs.len() && (#[trigger] evs[i]).month == month && evs[i].day == day && (forall|j: int|
                i < j < evs.len() ==> !((#[trigger] evs[j]).month == month && evs[j].day == day))
                ==> event_day_badge(evs, month, day) == Some(event_badge(evs[i].label@)),
        (forall|j: int| 0 <= j < evs.len() ==> !((#[trigger] evs[j]).month == month && evs[j].day == day))
            ==> event_day_badge(evs, month, day) is None,
    decreases evs.len(),
{
    if evs.len() > 0 {
        let d = evs.drop_last();
        let n = evs.len() - 1;
        lemma_event_day_badge_last(d, month, day);
        assert(evs.last() == evs[n]);
        assert forall|i: int|
            0 <= i < evs.len() && (#[trigger] evs[i]).month == month && evs[i].day == day && (forall|j: int|
                i < j < evs.len() ==> !((#[trigger] evs[j]).month == month && evs[j].day == day))
                implies event_day_badge(evs, month, day) == Some(event_badge(evs[i].label@)) by {
            if i < n {
                assert(!(evs[n].month == month && evs[n].day == day));
                assert(d[i] == evs[i]);
                assert forall|j: int| i < j < d.len() implies !((#[trigger] d[j]).month == month && d[j].day == day) by {
                    assert(d[j] == evs[j]);
                }
            }
        }
        if forall|j: int| 0 <= j < evs.len() ==> !((#[trigger] evs[j]).month == month && evs[j].day == day) {
            assert(!(evs[n].month == month && evs[n].day == day));
            assert forall|j: int| 0 <= j < d.len() implies !((#[trigger] d[j]).month == month && d[j].day == day) by {
                assert(d[j] == evs[j]);
            }
        }
    }
}

/// The badge a day shows: nothing while holidays are hidden; otherwise the badge of the
/// last custom event listed for that day, or, when there is none, the day's holiday
/// badge (empty when there is none either).
pub proof fn lemma_day_badge(hs: Seq<HolidayItem>, evs: Seq<CustomCalendarEvent>, month: u32, day: u32, c: nat)
    ensures
        day_badge(hs, evs, month, day, c, false) == Seq::<char>::empty(),
        forall|i: int|
            0 <= i < evs.len() && (#[trigger] evs[i]).month == month && evs[i].day == day && (forall|j: int|
                i < j < evs.len() ==> !((#[trigger] evs[j]).month == month && evs[j].day == day))
                ==> day_badge(hs, evs, month, day, c, true) == event_badge(evs[i].label@),
        (forall|j: int| 0 <= j < evs.len() ==> !((#[trigger] evs[j]).month == month && evs[j].day == day))
            ==> day_badge(hs, evs, month, day, c, true) == match holiday_badge(hs, month, day, c) {
            Some(b) => b,
            None => Seq::<char>::empty(),
        },
{
    lemma_event_day_badge_last(evs, month, day);
}

/// The multi-month calendar text has no trailing white space, reads the month count
/// only as clamped to 1..=3, and, without holidays shown, does not depend on the
/// holiday and event lists.
pub proof fn lemma_multi_month_text_laws(
    year: int,
    start: u32,
    count: u32,
    count2: u32,
    show: bool,
    style: CalendarStyle,
    hs: Seq<HolidayItem>,
    evs: Seq<CustomCalendarEvent>,
    hs2: Seq<HolidayItem>,
    evs2: Seq<CustomCalendarEvent>,
)
    ensures
        trim_end_seq(multi_month_text(year, start, count, show, style, hs, evs)) == multi_month_text(
            year,
            start,
            count,
            show,
            style,
            hs,
            evs,
        ),
        clamp_count(count) == clamp_count(count2) ==> multi_month_text(year, start, count, show, style, hs, evs)
            == multi_month_text(year, start, count2, show, style, hs, evs),
        multi_month_text(year, start, count, false, style, hs, evs) == multi_month_text(
            year,
            start,
            count,
            false,
            style,
            hs2,
            evs2,
        ),
{
    let notes = if show { notes_for(shown_months(start, count), hs, evs) } else { seq![] };
    crate::text::lemma_trim_end_idempotent(
        multi_month_body(year, start, count, show, style, hs, evs) + multi_month_footer(count, show, notes),
    );
    if clamp_count(count) == clamp_count(count2) {
        assert(shown_months(start, count) =~= shown_months(start, count2));
    }
    let months = shown_months(start, count);
    let n = clamp_count(count);
    assert forall|m: u32| true implies #[trigger] boxed_month_lines(year, m, n, false, hs, evs) == boxed_month_lines(
        year,
        m,
        n,
        false,
        hs2,
        evs2,
    ) by {
        let fw = first_weekday_value(year, m);
        let nd = month_days(year, m as int);
        let c = box_inner_width(n);
        assert forall|w: int| true implies #[trigger] boxed_badge_row(fw, nd, w, c, hs, evs, m, false) == boxed_badge_row(
            fw,
            nd,
            w,
            c,
            hs2,
            evs2,
            m,
            false,
        ) by {
            assert(Seq::new(7, |col: int| {
                let d = cell_day(fw, w, col);
                if d < 1 || d > nd { spaces(c) } else { visual_right(day_badge(hs, evs, m, d as u32, c, false), c) }
            }) =~= Seq::new(7, |col: int| {
                let d = cell_day(fw, w, col);
                if d < 1 || d > nd { spaces(c) } else { visual_right(day_badge(hs2, evs2, m, d as u32, c, false), c) }
            }));
        }
        assert(boxed_body(year, m, n, false, hs, evs) =~= boxed_body(year, m, n, false, hs2, evs2));
    }
    let ml = Seq::new(months.len(), |i: int| boxed_month_lines(year, months[i], n, false, hs, evs));
    let ml2 = Seq::new(months.len(), |i: int| boxed_month_lines(year, months[i], n, false, hs2, evs2));
    assert(ml =~= ml2) by {
        assert forall|i: int| 0 <= i < months.len() implies ml[i] == ml2[i] by {
            assert(boxed_month_lines(year, months[i], n, false, hs, evs) == boxed_month_lines(
                year,
                months[i],
                n,
                false,
                hs2,
                evs2,
            ));
        }
    }
    assert(multi_month_body(year, start, count, false, style, hs, evs) == multi_month_body(
        year,
        start,
        count,
        false,
        style,
        hs2,
        evs2,
    ));
}

/// Consecutive months fit together: the first weekday of a month is the first weekday of
/// the month before, advanced by that month's length (for years from 1 on).
pub proof fn lemma_next_month_weekday(year: i32, month: u32)
    requires
        year >= 1,
        1 <= month <= 11,
    ensures
        first_weekday_value(year as int, (month + 1) as u32)
            == (first_weekday_value(year as int, month) + month_days(year as int, month as int)) % 7,
{
    let y = year as int;
    if month == 2 {
        lemma_march_weekday(y);
    } else {
        let yy = if month < 2 { y - 1 } else { y };
        let k = yy % 100;
        let j = yy / 100;
        assert(tmod(yy, 100) == k && tdiv(yy, 100) == j);
        assert(tdiv(k, 4) == k / 4 && tdiv(j, 4) == j / 4);
        let zm = zeller_month(month);
        let zn = zeller_month((month + 1) as u32);
        assert(zn == zm + 1);
        let t1 = (13 * (zm + 1)) / 5;
        let t2 = (13 * (zn + 1)) / 5;
        assert(tdiv(13 * (zm + 1), 5) == t1);
        assert(tdiv(13 * (zn + 1), 5) == t2);
        let big_k = k + k / 4 + j / 4 + 5 * j;
        let a = 1 + t1 + big_k;
        let b = 1 + t2 + big_k;
        assert(zeller_h(y, month) == a % 7);
        assert(zeller_h(y, (month + 1) as u32) == b % 7);
        assert((t2 - t1) % 7 == month_days(y, month as int) % 7) by {
            reveal_with_fuel(month_days, 1);
        }
        lemma_weekday_shift(a, b, t2 - t1, month_days(y, month as int));
    }
}

proof fn lemma_weekday_shift(a: int, b: int, c: int, d: int)
    requires
        a >= 0,
        b >= 0,
        b == a + c,
        c % 7 == d % 7,
    ensures
        tmod(b % 7 + 6, 7) == (tmod(a % 7 + 6, 7) + d) % 7,
{
    assert(tmod(b % 7 + 6, 7) == (b % 7 + 6) % 7);
    assert(tmod(a % 7 + 6, 7) == (a % 7 + 6) % 7);
    assert((b % 7 + 6) % 7 == ((a % 7 + 6) % 7 + d) % 7) by (nonlinear_arith)
        requires
            b == a + c,
            c % 7 == d % 7,
    ;
}

proof fn lemma_leap_by_century(y: int)
    requires
        y >= 1,
    ensures
        y % 100 == 0 ==> (leap_year(y) == ((y / 100) % 4 == 0)),
        y % 100 != 0 ==> (leap_year(y) == ((y % 100) % 4 == 0)),
{
    let j = y / 100;
    let k = y % 100;
    vstd::arithmetic::div_mod::lemma_fundamental_div_mod(y, 100);
    assert(y % 4 == k % 4) by (nonlinear_arith)
        requires y == 100 * j + k, 0 <= k < 100;
    assert(k == 0 ==> (y % 400 == 0) == (j % 4 == 0)) by (nonlinear_arith)
        requires y == 100 * j + k, 0 <= k < 100, j >= 0;
}

proof fn lemma_century_step(y: int)
    requires
        y >= 1,
    ensures
        y % 100 == 0 ==> ((y - 1) % 100 == 99 && y / 100 == (y - 1) / 100 + 1),
        y % 100 != 0 ==> (y % 100 == (y - 1) % 100 + 1 && y / 100 == (y - 1) / 100),
{
}

proof fn lemma_march_weekday(y: int)
    requires
        y >= 1,
    ensures
        first_weekday_value(y, 3) == (first_weekday_value(y, 2) + month_days(y, 2)) % 7,
{
    let p = y - 1;
    let kp = p % 100;
    let jp = p / 100;
    let k = y % 100;
    let j = y / 100;
    assert(tmod(p, 100) == kp && tdiv(p, 100) == jp);
    assert(tmod(y, 100) == k && tdiv(y, 100) == j);
    assert(tdiv(kp, 4) == kp / 4 && tdiv(jp, 4) == jp / 4);
    assert(tdiv(k, 4) == k / 4 && tdiv(j, 4) == j / 4);
    assert(zeller_month(2) == 14 && zeller_month(3) == 3);
    assert(tdiv(195int, 5) == 39);
    assert(tdiv(52int, 5) == 10);
    let a = 1 + 39 + kp + kp / 4 + jp / 4 + 5 * jp;
    let b = 1 + 10 + k + k / 4 + j / 4 + 5 * j;
    let delta: int = if leap_year(y) { 1 } else { 0 };
    let c: int;
    lemma_leap_by_century(y);
    lemma_century_step(y);
    if k == 0 {
        assert(kp == 99 && j == jp + 1);
        assert(leap_year(y) == (j % 4 == 0));
        assert(b == a - 147 + delta);
        c = -147 + delta;
    } else {
        assert(k == kp + 1 && j == jp);
        assert(leap_year(y) == (k % 4 == 0));
        assert(b == a - 28 + delta);
        c = -28 + delta;
    }
    assert(zeller_h(y, 2) == a % 7);
    assert(zeller_h(y, 3) == b % 7);
    assert(month_days(y, 2) == 28 + delta);
    lemma_weekday_shift(a, b, c, 28 + delta);
}

/// The year boundary fits too: January starts on the weekday after December's last day.
#[verifier::spinoff_prover]
pub proof fn lemma_next_year_weekday(year: i32)
    requires
        1 <= year < i32::MAX,
    ensures
        first_weekday_value((year + 1) as int, 1)
            == (first_weekday_value(year as int, 12) + 31) % 7,
{
    lemma_first_weekday_range(year, 12);
    lemma_first_weekday_range((year + 1) as i32, 1);
}

/// A calendar month of a year.
#[derive(Clone, Debug, PartialEq, Eq, Structural)]
pub struct CalendarMonth {
    pub year: i32,
    /// 1..=12
    pub month: u32,
}

impl CalendarMonth {
    /// A month, with the month number clamped to 1..=12.
    pub fn new(year: i32, month: u32) -> (c: CalendarMonth)
        ensures
            c.year == year,
            c.month == if month < 1 { 1 } else if month > 12 { 12 } else { month },
    {
        CalendarMonth { year, month: if month < 1 { 1 } else if month > 12 { 12 } else { month } }
    }

    /// Full English name of this month.
    pub fn month_name(&self) -> (r: &'static str)
        ensures
            r == month_full_name(self.month as int),
    {
        Self::name_for_month(self.month)
    }

    /// Full English month name; numbers outside 1..=12 give "January".
    pub fn name_for_month(m: u32) -> (r: &'static str)
        ensures
            r == month_full_name(m as int),
    {
        match m {
            1 => "January",
            2 => "February",
            3 => "March",
            4 => "April",
            5 => "May",
            6 => "June",
            7 => "July",
            8 => "August",
            9 => "September",
            10 => "October",
            11 => "November",
            12 => "December",
            _ => "January",
        }
    }

    /// Three-letter English month name; numbers outside 1..=12 give "Jan".
    pub fn short_name_for_month(m: u32) -> (r: &'static str)
        ensures
            r == month_short_name(m as int),
    {
        match m {
            1 => "Jan",
            2 => "Feb",
            3 => "Mar",
            4 => "Apr",
            5 => "May",
            6 => "Jun",
            7 => "Jul",
            8 => "Aug",
            9 => "Sep",
            10 => "Oct",
            11 => "Nov",
            12 => "Dec",
            _ => "Jan",
        }
    }

    /// Whether `year` is a Gregorian leap year.
    pub fn is_leap_year(year: i32) -> (b: bool)
        ensures
            b == leap_year(year as int),
    {
        let r4 = rem_t(year, 4);
        let r100 = rem_t(year, 100);
        let r400 = rem_t(year, 400);
        proof {
            lemma_tmod_zero(year as int, 4);
            lemma_tmod_zero(year as int, 100);
            lemma_tmod_zero(year as int, 400);
        }
        (r4 == 0 && r100 != 0) || (r400 == 0)
    }

    /// Days in this month.
    pub fn days_in_month(&self) -> (d: u32)
        ensures
            d == month_days(self.year as int, self.month as int),
    {
        Self::days_in_year_month(self.year, self.month)
    }

    /// Days in a month of a year; months outside 1..=12 count as 30 days.
    pub fn days_in_year_month(year: i32, month: u32) -> (d: u32)
        ensures
            d == month_days(year as int, month as int),
            28 <= d <= 31,
    {
        match month {
            1 | 3 | 5 | 7 | 8 | 10 | 12 => 31,
            4 | 6 | 9 | 11 => 30,
            2 => {
                if Self::is_leap_year(year) {
                    29
                } else {
                    28
                }
            },
            _ => 30,
        }
    }

    /// Weekday (0 = Sunday) of the first day of this month.
    pub fn first_weekday(&self) -> (w: usize)
        requires
            weekday_inputs_ok(self.year, self.month),
        ensures
            w == first_weekday_value(self.year as int, self.month) as usize,
    {
        Self::first_weekday_for(self.year, self.month)
    }

    /// Weekday (0 = Sunday) of the first day of a month, by Zeller's congruence.
    pub fn first_weekday_for(year: i32, month: u32) -> (w: usize)
        requires
            weekday_inputs_ok(year, month),
        ensures
            w == first_weekday_value(year as int, month) as usize,
            first_weekday_value(year as int, month) >= 0 ==> w < 7,
    {
        let y: i32 = if month < 3 { year - 1 } else { year };
        let m: i32 = if month < 3 { (month + 12) as i32 } else { month as i32 };
        assert(m as int == zeller_month(month));
        let k = rem_t(y, 100);
        let j = div_t(y, 100);
        proof {
            lemma_tdiv_bounds(y as int, 100);
            lemma_tdiv_bounds(k as int, 4);
            lemma_tdiv_bounds(j as int, 4);
        }
        let a = div_t(13 * (m + 1), 5);
        proof {
            lemma_tdiv_bounds(13 * (m + 1), 5);
        }
        let kq = div_t(k, 4);
        let jq = div_t(j, 4);
        let h = rem_t(1 + a + k + kq + jq + 5 * j, 7);
        proof {
            lemma_tdiv_bounds(1 + a + k + kq + jq + 5 * j, 7);
        }
        let w = rem_t(h + 6, 7);
        proof {
            lemma_tdiv_bounds(h + 6, 7);
        }
        w as usize
    }

    /// Day of the month of the `n`-th (from 1) given weekday; 1 when there is none.
    pub fn nth_weekday_of_month(year: i32, month: u32, weekday_target: usize, n: usize) -> (d: u32)
        requires
            month_layout_ok(year, month),
        ensures
            d == nth_weekday_day(
                first_weekday_value(year as int, month),
                month_days(year as int, month as int),
                weekday_target as int,
                n as int,
            ),
    {
        let first_w = Self::first_weekday_for(year, month);
        let num_days = Self::days_in_year_month(year, month);
        let ghost off = (weekday_target - first_w + 7) % 7;
        let mut day: u32 = 1;
        let mut count: usize = 0;
        let mut d: u32 = 1;
        while d <= num_days
            invariant
                first_w < 7,
                first_w as int == first_weekday_value(year as int, month),
                num_days == month_days(year as int, month as int),
                28 <= num_days <= 31,
                1 <= d <= num_days + 1,
                day == 1,
                count < n || weekday_target >= 7 || n == 0,
                weekday_target < 7 ==> count as int == matches_before(d as int, off),
                weekday_target >= 7 ==> count == 0,
                weekday_target < 7 ==> off == (weekday_target - first_w + 7) % 7,
            decreases num_days + 1 - d,
        {
            let cur_w = (first_w + (d as usize - 1)) % 7;
            proof {
                if weekday_target < 7 {
                    lemma_match_step(first_w as int, weekday_target as int, d as int);
                }
            }
            if cur_w == weekday_target {
                count = count + 1;
                if count == n {
                    day = d;
                    assert(d == 1 + off + 7 * (n - 1));
                    return day;
                }
            }
            d = d + 1;
        }
        day
    }

    /// Day of the month of the last given weekday; 1 when there is none.
    pub fn last_weekday_of_month(year: i32, month: u32, weekday_target: usize) -> (d: u32)
        requires
            month_layout_ok(year, month),
        ensures
            d == last_weekday_day(
                first_weekday_value(year as int, month),
                month_days(year as int, month as int),
                weekday_target as int,
            ),
    {
        let first_w = Self::first_weekday_for(year, month);
        let num_days = Self::days_in_year_month(year, month);
        let ghost off = (weekday_target - first_w + 7) % 7;
        let mut last_d: u32 = 1;
        let mut d: u32 = 1;
        while d <= num_days
            invariant
                first_w < 7,
                first_w as int == first_weekday_value(year as int, month),
                num_days == month_days(year as int, month as int),
                28 <= num_days <= 31,
                1 <= d <= num_days + 1,
                weekday_target < 7 ==> off == (weekday_target - first_w + 7) % 7,
                last_d as int == if weekday_target < 7 && matches_before(d as int, off) > 0 {
                    1 + off + 7 * (matches_before(d as int, off) - 1)
                } else {
                    1int
                },
            decreases num_days + 1 - d,
        {
            let cur_w = (first_w + (d as usize - 1)) % 7;
            proof {
                if weekday_target < 7 {
                    lemma_match_step(first_w as int, weekday_target as int, d as int);
                }
            }
            if cur_w == weekday_target {
                last_d = d;
            }
            d = d + 1;
        }
        last_d
    }

    /// Date (month, day) of a Chinese festival in a year: the recorded date for
    /// 2024..=2030, an estimate for other years, `None` for an unknown festival id.
    pub fn get_chinese_festival_date(year: i32, festival_id: &str) -> (r: Option<(u32, u32)>)
        requires
            festival_inputs_ok(year, festival_id@),
        ensures
            r == festival_date(year as int, festival_id@),
    {
        let f = festival_index_of(festival_id);
        if f < 0 {
            return None;
        }
        if 2024 <= year && year <= 2030 {
            return Some(recorded_festival(year, f));
        }
        let p = year * 11;
        let approx_day = (rem_t(p, 25) + 1) as u32;
        if f == 0 {
            Some((2, clamp_u32_exec(approx_day, 1, 20)))
        } else if f == 1 {
            Some((2, clamp_u32_exec(approx_day + 14, 1, 28)))
        } else if f == 2 {
            Some((4, 5))
        } else if f == 3 {
            Some((6, clamp_u32_exec(approx_day + 5, 1, 28)))
        } else if f == 4 {
            Some((8, clamp_u32_exec(approx_day + 5, 1, 28)))
        } else if f == 5 {
            Some((9, clamp_u32_exec(approx_day + 10, 1, 28)))
        } else if f == 6 {
            Some((10, clamp_u32_exec(approx_day + 5, 1, 28)))
        } else {
            Some((12, 21))
        }
    }

    /// Lines of the simple month grid (title, weekday header and week rows), padded with
    /// empty lines to 8.
    pub fn get_simple_month_grid_lines(year: i32, month: u32, compact: bool) -> (lines: Vec<String>)
        requires
            month_layout_ok(year, month),
        ensures
            string_views(lines@) == simple_grid_lines(year as int, month, compact),
    {
        let mut lines: Vec<String> = Vec::new();
        let m_name = Self::name_for_month(month);
        let first_w = Self::first_weekday_for(year, month);
        let num_days = Self::days_in_year_month(year, month);
        let ghost fw = first_w as int;
        let ghost nd = num_days as int;
        proof {
            lemma_week_bounds(fw, nd);
        }
        let mut title_text = String::new();
        push_str(&mut title_text, m_name);
        push_char(&mut title_text, ' ');
        push_int(&mut title_text, year as i64);
        assert(title_text@ =~= month_title(year as int, month as int));
        let mut title = String::new();
        if compact {
            push_align_center(&mut title, title_text.as_str(), 27);
            lines.push(title);
            lines.push("Su Mo Tu We Th Fr Sa".to_owned());
        } else {
            push_align_center(&mut title, title_text.as_str(), 35);
            lines.push(title);
            lines.push("Sun  Mon  Tue  Wed  Thu  Fri  Sat".to_owned());
        }
        let ghost body = simple_grid_body(year as int, month, compact);
        let mut row = String::new();
        let lead: usize = if compact { 3 } else { 5 };
        push_repeat(&mut row, ' ', first_w * lead);
        assert(row@ =~= simple_row_upto(fw, 0, 0, compact));
        let mut cur_col: usize = first_w;
        let mut d: u32 = 1;
        while d <= num_days
            invariant
                0 <= fw < 7,
                28 <= nd <= 31,
                fw == first_w as int,
                nd == num_days as int,
                body == simple_grid_body(year as int, month, compact),
                fw == first_weekday_value(year as int, month),
                nd == month_days(year as int, month as int),
                1 <= d <= num_days + 1,
                cur_col == first_w + d - 1,
                string_views(lines@) == body.take(2 + (fw + d - 1) / 7),
                row@ == simple_row_upto(fw, (fw + d - 1) / 7, d - 1, compact),
            decreases num_days + 1 - d,
        {
            let ghost k = (fw + d - 1) / 7;
            push_simple_day_cell(&mut row, d, compact);
            proof {
                lemma_simple_row_step(fw, d as int, compact);
            }
            cur_col = cur_col + 1;
            if cur_col % 7 == 0 {
                let t = trimmed_end(row.as_str());
                proof {
                    lemma_simple_week_close(fw, nd, d as int, compact);
                    lemma_views_push(lines@, t);
                    assert(body[2 + k] == simple_week_row(fw, nd, k, compact));
                    assert(body.take(2 + k).push(body[2 + k]) =~= body.take(2 + k + 1));
                }
                lines.push(t);
                row = String::new();
            }
            d = d + 1;
        }
        let ghost k = (fw + nd) / 7;
        if cur_col % 7 != 0 {
            let t = trimmed_end(row.as_str());
            proof {
                lemma_simple_last_week(fw, nd);
                lemma_views_push(lines@, t);
                assert(body[2 + k] == simple_week_row(fw, nd, k, compact));
                assert(body.take(2 + k).push(body[2 + k]) =~= body.take(2 + k + 1));
            }
            lines.push(t);
        }
        assert(string_views(lines@) =~= body);
        let ghost before = lines@.len();
        while lines.len() < 8
            invariant
                body.len() <= 8,
                string_views(lines@) == pad_lines(body, 8).take(lines@.len() as int),
                lines@.len() >= body.len(),
                lines@.len() <= 8,
            decreases 8 - lines.len(),
        {
            lines.push(String::new());
            assert(string_views(lines@) =~= pad_lines(body, 8).take(lines@.len() as int));
        }
        assert(string_views(lines@) =~= pad_lines(body, 8));
        lines
    }

    /// Lines of the boxed wall-calendar grid of a month: each day in its own box, its
    /// number at the top left and its holiday badge at the bottom right; padded to 17 lines.
    pub fn get_boxed_month_lines(
        year: i32,
        month: u32,
        month_count: u32,
        show_holidays: bool,
        holidays: &[HolidayItem],
        custom_events: &[CustomCalendarEvent],
    ) -> (lines: Vec<String>)
        requires
            month_layout_ok(year, month),
        ensures
            string_views(lines@) == boxed_month_lines(
                year as int,
                month,
                month_count,
                show_holidays,
                holidays@,
                custom_events@,
            ),
    {
        let mut lines: Vec<String> = Vec::new();
        let m_name = Self::name_for_month(month);
        let first_w = Self::first_weekday_for(year, month);
        let num_days = Self::days_in_year_month(year, month);
        let ghost fw = first_w as int;
        let ghost nd = num_days as int;
        proof {
            lemma_week_bounds(fw, nd);
        }
        let cell_inner: usize = match month_count {
            1 => 8,
            2 => 5,
            _ => 4,
        };
        let ghost c = cell_inner as nat;
        assert(c == box_inner_width(month_count));
        let ghost hs = holidays@;
        let ghost evs = custom_events@;
        let ghost body = boxed_body(year as int, month, month_count, show_holidays, hs, evs);
        let top_border = make_border('┌', '┬', '┐', cell_inner);
        let mid_border = make_border('├', '┼', '┤', cell_inner);
        let bot_border = make_border('└', '┴', '┘', cell_inner);
        let mut day_headers: Vec<String> = Vec::new();
        let mut i: usize = 0;
        while i < 7
            invariant
                i <= 7,
                day_headers@.len() == i,
                forall|j: int| 0 <= j < i ==> #[trigger] day_headers@[j]@ == visual_center(
                    weekday_names(month_count)[j],
                    cell_inner as nat,
                ),
            decreases 7 - i,
        {
            let hd = pad_visual_center(weekday_name(month_count, i), cell_inner);
            day_headers.push(hd);
            i = i + 1;
        }
        assert(string_views(day_headers@) =~= Seq::new(7, |i: int| visual_center(weekday_names(month_count)[i], c)));
        let day_header_row = make_box_row(&day_headers);
        let mut title = String::new();
        push_str(&mut title, m_name);
        push_char(&mut title, ' ');
        push_int(&mut title, year as i64);
        assert(title@ =~= month_title(year as int, month as int));
        let top_len = char_count(top_border.as_str());
        lines.push(pad_visual_center(title.as_str(), top_len));
        lines.push(top_border);
        lines.push(day_header_row);
        lines.push(mid_border.clone());
        assert(string_views(lines@) =~= body.take(4));
        let mut cur_d: u32 = 1;
        let mut w: usize = 0;
        while w < 6 && cur_d <= num_days
            invariant
                0 <= fw < 7,
                28 <= nd <= 31,
                fw == first_w as int,
                nd == num_days as int,
                c == cell_inner as nat,
                c == box_inner_width(month_count),
                hs == holidays@,
                evs == custom_events@,
                body == boxed_body(year as int, month, month_count, show_holidays, hs, evs),
                fw == first_weekday_value(year as int, month),
                nd == month_days(year as int, month as int),
                mid_border@ == box_border('├', '┼', '┤', c),
                bot_border@ == box_border('└', '┴', '┘', c),
                w <= 6,
                w <= week_count(fw, nd),
                cur_d as int == clamp_int(cell_day(fw, w as int, 0), 1, nd + 1),
                (cur_d <= num_days) == (w < week_count(fw, nd)),
                string_views(lines@) == body.take(4 + 3 * w),
            decreases 6 - w,
        {
            let mut num_cells: Vec<String> = Vec::new();
            let mut hol_cells: Vec<String> = Vec::new();
            let mut col: usize = 0;
            while col < 7
                invariant
                    0 <= fw < 7,
                    28 <= nd <= 31,
                    fw == first_w as int,
                    nd == num_days as int,
                    c == cell_inner as nat,
                    hs == holidays@,
                    evs == custom_events@,
                    w < 6,
                    col <= 7,
                    cur_d as int == clamp_int(cell_day(fw, w as int, col as int), 1, nd + 1),
                    num_cells@.len() == col,
                    hol_cells@.len() == col,
                    forall|j: int| 0 <= j < col ==> #[trigger] num_cells@[j]@ == number_cell(fw, nd, w as int, j, c),
                    forall|j: int| 0 <= j < col ==> #[trigger] hol_cells@[j]@ == badge_cell(fw, nd, w as int, j, c, hs, evs, month, show_holidays),
                decreases 7 - col,
            {
                if (w == 0 && col < first_w) || cur_d > num_days {
                    let mut a = String::new();
                    push_repeat(&mut a, ' ', cell_inner);
                    let mut b = String::new();
                    push_repeat(&mut b, ' ', cell_inner);
                    num_cells.push(a);
                    hol_cells.push(b);
                } else {
                    let mut digits = String::new();
                    push_nat(&mut digits, cur_d as u64);
                    num_cells.push(pad_visual_left(digits.as_str(), cell_inner));
                    let hol = day_badge_of(holidays, custom_events, month, cur_d, cell_inner, show_holidays);
                    hol_cells.push(pad_visual_right(hol.as_str(), cell_inner));
                    cur_d = cur_d + 1;
                }
                col = col + 1;
            }
            let num_row = make_box_row(&num_cells);
            let hol_row = make_box_row(&hol_cells);
            proof {
                assert(string_views(num_cells@) =~= Seq::new(7, |col: int| number_cell(fw, nd, w as int, col, c)));
                assert(string_views(hol_cells@) =~= Seq::new(7, |col: int| badge_cell(fw, nd, w as int, col, c, hs, evs, month, show_holidays)));
                assert(Seq::new(7, |col: int| number_cell(fw, nd, w as int, col, c)) =~= Seq::new(7, |col: int| {
                    let d = cell_day(fw, w as int, col);
                    if d < 1 || d > nd { spaces(c) } else { visual_left(nat_digits(d as nat), c) }
                }));
                assert(Seq::new(7, |col: int| badge_cell(fw, nd, w as int, col, c, hs, evs, month, show_holidays)) =~= Seq::new(7, |col: int| {
                    let d = cell_day(fw, w as int, col);
                    if d < 1 || d > nd { spaces(c) } else { visual_right(day_badge(hs, evs, month, d as u32, c, show_holidays), c) }
                }));
                assert(num_row@ == body[4 + 3 * w]);
                assert(hol_row@ == body[4 + 3 * w + 1]);
            }
            let border = if cur_d <= num_days { mid_border.clone() } else { bot_border.clone() };
            proof {
                assert(w < week_count(fw, nd));
                assert(4 + 3 * w + 2 < body.len());
                assert(border@ == body[4 + 3 * w + 2]);
                lemma_views_push(lines@, num_row);
                lemma_views_push(lines@.push(num_row), hol_row);
                lemma_views_push(lines@.push(num_row).push(hol_row), border);
                assert(body.take(4 + 3 * w).push(body[4 + 3 * w]).push(body[4 + 3 * w + 1]).push(
                    body[4 + 3 * w + 2],
                ) =~= body.take(4 + 3 * (w + 1)));
            }
            lines.push(num_row);
            lines.push(hol_row);
            lines.push(border);
            w = w + 1;
        }
        assert(w == week_count(fw, nd));
        assert(string_views(lines@) =~= body);
        while lines.len() < 17
            invariant
                body.len() <= 22,
                string_views(lines@) == pad_lines(body, 17).take(lines@.len() as int),
                lines@.len() >= body.len(),
                lines@.len() <= pad_lines(body, 17).len(),
            decreases 17 - lines.len(),
        {
            lines.push(String::new());
            assert(string_views(lines@) =~= pad_lines(body, 17).take(lines@.len() as int));
        }
        assert(string_views(lines@) =~= pad_lines(body, 17));
        lines
    }

    /// A calendar of one to three months (side by side, in the chosen style) with optional
    /// holiday footnotes under it; trailing white space removed.
    #[verifier::spinoff_prover]
    pub fn format_multi_month_string(
        year: i32,
        start_month: u32,
        month_count: u32,
        show_holidays: bool,
        style: CalendarStyle,
        holidays: &[HolidayItem],
        custom_events: &[CustomCalendarEvent],
    ) -> (out: String)
        requires
            multi_month_ok(year, start_month, month_count),
        ensures
            out@ == multi_month_text(year as int, start_month, month_count, show_holidays, style, holidays@, custom_events@),
    {
        let count: u32 = if month_count < 1 { 1 } else if month_count > 3 { 3 } else { month_count };
        let holiday_notes = collect_notes(start_month, count, month_count, show_holidays, holidays, custom_events);
        let ghost notes = string_views(holiday_notes@);
        let ghost body = multi_month_body(year as int, start_month, month_count, show_holidays, style, holidays@, custom_events@);
        let mut output = match style {
            CalendarStyle::BoxedGrid => boxed_body_text(year, start_month, count, month_count, show_holidays, holidays, custom_events),
            CalendarStyle::SimpleGrid => simple_body_text(year, start_month, count, month_count),
        };
        assert(output@ == body);
        if show_holidays && holiday_notes.len() > 0 {
            push_char(&mut output, '\n');
            let chunk_size: usize = if count == 1 { 2 } else if count == 2 { 3 } else { 4 };
            let foot = footer_lines(&holiday_notes, chunk_size);
            push_str(&mut output, foot.as_str());
            assert(output@ =~= body + multi_month_footer(month_count, show_holidays, notes));
        } else {
            assert(output@ =~= body + multi_month_footer(month_count, show_holidays, notes));
        }
        trimmed_end(output.as_str())
    }

    /// The single-month simple grid of this month, without holidays.
    pub fn format_grid_string(&self) -> (out: String)
        requires
            month_layout_ok(self.year, self.month),
        ensures
            out@ == multi_month_text(self.year as int, self.month, 1, false, CalendarStyle::SimpleGrid, seq![], seq![]),
    {
        let no_holidays: Vec<HolidayItem> = Vec::new();
        let no_events: Vec<CustomCalendarEvent> = Vec::new();
        proof {
            assert(shown_months(self.month, 1).len() <= 1);
            assert forall|i: int| 0 <= i < shown_months(self.month, 1).len() implies month_layout_ok(
                self.year,
                #[trigger] shown_months(self.month, 1)[i],
            ) by {
                assert(shown_months(self.month, 1)[i] == self.month);
            }
        }
        let out = Self::format_multi_month_string(
            self.year,
            self.month,
            1,
            false,
            CalendarStyle::SimpleGrid,
            no_holidays.as_slice(),
            no_events.as_slice(),
        );
        assert(no_holidays@ =~= seq![]);
        assert(no_events@ =~= seq![]);
        out
    }

    /// The built-in American holidays and Chinese festivals of a year, sorted by date
    /// (entries on the same date keep their listed order); all enabled.
    pub fn default_holidays_for_year(year: i32) -> (list: Vec<HolidayItem>)
        requires
            holiday_year_ok(year),
        ensures
            list@.map_values(|h: HolidayItem| holiday_entry(h)) == sort_by_date(base_holidays(year as int)),
    {
        let mut list = american_list(year);
        let mut cn = chinese_list(year);
        let ghost a = list@;
        let ghost c = cn@;
        list.append(&mut cn);
        assert(list@ =~= a + c);
        assert(list@.map_values(|h: HolidayItem| holiday_entry(h)) =~= a.map_values(|h: HolidayItem| holiday_entry(h)) + c.map_values(|h: HolidayItem| holiday_entry(h)));
        sort_holidays_by_date(list)
    }

    /// Easter Sunday as (month, day), by the anonymous Gregorian algorithm.
    #[verifier::spinoff_prover]
    #[verifier::rlimit(100)]
    pub fn calculate_easter(year: i32) -> (r: (u32, u32))
        ensures
            r == easter_date(year as int),
    {
        let a = rem_t(year, 19);
        let b = div_t(year, 100);
        let c = rem_t(year, 100);
        proof {
            lemma_tdiv_bounds(year as int, 19);
            lemma_tdiv_bounds(year as int, 100);
        }
        let d = div_t(b, 4);
        let e = rem_t(b, 4);
        let f = div_t(b + 8, 25);
        proof {
            lemma_tdiv_bounds(b as int, 4);
            lemma_tdiv_bounds(b + 8, 25);
        }
        let g = div_t(b - f + 1, 3);
        proof {
            lemma_tdiv_bounds(b - f + 1, 3);
        }
        let h = rem_t(19 * a + b - d - g + 15, 30);
        let i = div_t(c, 4);
        let k = rem_t(c, 4);
        proof {
            lemma_tdiv_bounds(19 * a + b - d - g + 15, 30);
            lemma_tdiv_bounds(c as int, 4);
        }
        let l = rem_t(32 + 2 * e + 2 * i - h - k, 7);
        proof {
            lemma_tdiv_bounds(32 + 2 * e + 2 * i - h - k, 7);
        }
        let m = div_t(a + 11 * h + 22 * l, 451);
        proof {
            lemma_tdiv_bounds(a + 11 * h + 22 * l, 451);
        }
        let month = div_t(h + l - 7 * m + 114, 31);
        let day = rem_t(h + l - 7 * m + 114, 31) + 1;
        (month as u32, day as u32)
    }
}

/// Full English month name (January for numbers outside 1..=12).
pub open spec fn month_full_name(m: int) -> &'static str {
    if m == 2 { "February" }
    else if m == 3 { "March" }
    else if m == 4 { "April" }
    else if m == 5 { "May" }
    else if m == 6 { "June" }
    else if m == 7 { "July" }
    else if m == 8 { "August" }
    else if m == 9 { "September" }
    else if m == 10 { "October" }
    else if m == 11 { "November" }
    else if m == 12 { "December" }
    else { "January" }
}

/// Three-letter English month name (Jan for numbers outside 1..=12).
pub open spec fn month_short_name(m: int) -> &'static str {
    if m == 2 { "Feb" }
    else if m == 3 { "Mar" }
    else if m == 4 { "Apr" }
    else if m == 5 { "May" }
    else if m == 6 { "Jun" }
    else if m == 7 { "Jul" }
    else if m == 8 { "Aug" }
    else if m == 9 { "Sep" }
    else if m == 10 { "Oct" }
    else if m == 11 { "Nov" }
    else if m == 12 { "Dec" }
    else { "Jan" }
}

/// Preset places for a calendar element on a slide.
#[derive(Clone, Copy, Debug, PartialEq, Eq, Structural)]
pub enum CalendarPositionPreset {
    /// Left half column (the default).
    LeftColumn,
    /// Right half column.
    RightColumn,
    /// Bottom half row.
    BottomHalf,
    /// Top half row.
    TopHalf,
    /// Top-left quadrant.
    TopLeft,
    /// Top-right quadrant.
    TopRight,
    /// Bottom-left quadrant.
    BottomLeft,
    /// Bottom-right quadrant.
    BottomRight,
    /// The whole slide.
    FullSlide,
}

impl Default for CalendarPositionPreset {
    fn default() -> (p: CalendarPositionPreset)
        ensures
            p == CalendarPositionPreset::LeftColumn,
    {
        CalendarPositionPreset::LeftColumn
    }
}

impl CalendarPositionPreset {
    /// Every preset, in menu order.
    pub fn all() -> (r: &'static [CalendarPositionPreset])
        ensures
            r@ == seq![CalendarPositionPreset::LeftColumn, CalendarPositionPreset::RightColumn, CalendarPositionPreset::BottomHalf, CalendarPositionPreset::TopHalf, CalendarPositionPreset::TopLeft, CalendarPositionPreset::TopRight, CalendarPositionPreset::BottomLeft, CalendarPositionPreset::BottomRight, CalendarPositionPreset::FullSlide],
    {
        &[
            CalendarPositionPreset::LeftColumn,
            CalendarPositionPreset::RightColumn,
            CalendarPositionPreset::BottomHalf,
            CalendarPositionPreset::TopHalf,
            CalendarPositionPreset::TopLeft,
            CalendarPositionPreset::TopRight,
            CalendarPositionPreset::BottomLeft,
            CalendarPositionPreset::BottomRight,
            CalendarPositionPreset::FullSlide,
        ]
    }

    /// Menu label of the preset.
    pub fn label(&self) -> (r: &'static str)
        ensures
            r == match *self {
                CalendarPositionPreset::LeftColumn => "Left 50% (Default)",
                CalendarPositionPreset::RightColumn => "Right 50%",
                CalendarPositionPreset::BottomHalf => "Bottom 50%",
                CalendarPositionPreset::TopHalf => "Top 50%",
                CalendarPositionPreset::TopLeft => "Top Left",
                CalendarPositionPreset::TopRight => "Top Right",
                CalendarPositionPreset::BottomLeft => "Bottom Left",
                CalendarPositionPreset::BottomRight => "Bottom Right",
                CalendarPositionPreset::FullSlide => "Full Slide",
            },
    {
        match self {
            CalendarPositionPreset::LeftColumn => "Left 50% (Default)",
            CalendarPositionPreset::RightColumn => "Right 50%",
            CalendarPositionPreset::BottomHalf => "Bottom 50%",
            CalendarPositionPreset::TopHalf => "Top 50%",
            CalendarPositionPreset::TopLeft => "Top Left",
            CalendarPositionPreset::TopRight => "Top Right",
            CalendarPositionPreset::BottomLeft => "Bottom Left",
            CalendarPositionPreset::BottomRight => "Bottom Right",
            CalendarPositionPreset::FullSlide => "Full Slide",
        }
    }

    /// Button caption of the preset, with its icon.
    pub fn button_title(&self) -> (r: &'static str)
        ensures
            r == match *self {
                CalendarPositionPreset::LeftColumn => "◧ Left 50% (Default)",
                CalendarPositionPreset::RightColumn => "◨ Right 50%",
                CalendarPositionPreset::BottomHalf => "⬓ Bottom 50%",
                CalendarPositionPreset::TopHalf => "⬒ Top 50%",
                CalendarPositionPreset::TopLeft => "◰ Top Left",
                CalendarPositionPreset::TopRight => "◳ Top Right",
                CalendarPositionPreset::BottomLeft => "◱ Bottom Left",
                CalendarPositionPreset::BottomRight => "◲ Bottom Right",
                CalendarPositionPreset::FullSlide => "⏹ Full Slide",
            },
    {
        match self {
            CalendarPositionPreset::LeftColumn => "◧ Left 50% (Default)",
            CalendarPositionPreset::RightColumn => "◨ Right 50%",
            CalendarPositionPreset::BottomHalf => "⬓ Bottom 50%",
            CalendarPositionPreset::TopHalf => "⬒ Top 50%",
            CalendarPositionPreset::TopLeft => "◰ Top Left",
            CalendarPositionPreset::TopRight => "◳ Top Right",
            CalendarPositionPreset::BottomLeft => "◱ Bottom Left",
            CalendarPositionPreset::BottomRight => "◲ Bottom Right",
            CalendarPositionPreset::FullSlide => "⏹ Full Slide",
        }
    }
}

} // verus!
