//! Clock and date: the texts the widgets show for a local time, and which
//! of them a tick rewrites.

use vstd::prelude::*;

use crate::text::{dec, pad_left, push_dec, push_dec_padded, push_dec_zero_padded, str_eq, zero_pad};

verus! {

/// A local date and time as the clock reads it.
#[derive(Clone, Copy, Debug, PartialEq, Eq, Structural)]
pub struct LocalTime {
    pub year: i32,
    /// 1 to 12.
    pub month: u32,
    /// 1 to 31.
    pub day: u32,
    /// Days since Monday, 0 to 6.
    pub weekday: u32,
    pub hour: u32,
    pub minute: u32,
    /// Up to 60 (a leap second).
    pub second: u32,
}

pub open spec fn long_month(m: u32) -> Seq<char> {
    if m == 1 { "January"@ } else if m == 2 { "February"@ } else if m == 3 { "March"@ }
    else if m == 4 { "April"@ } else if m == 5 { "May"@ } else if m == 6 { "June"@ }
    else if m == 7 { "July"@ } else if m == 8 { "August"@ } else if m == 9 { "September"@ }
    else if m == 10 { "October"@ } else if m == 11 { "November"@ } else { "December"@ }
}

pub open spec fn short_month(m: u32) -> Seq<char> {
    if m == 1 { "Jan"@ } else if m == 2 { "Feb"@ } else if m == 3 { "Mar"@ }
    else if m == 4 { "Apr"@ } else if m == 5 { "May"@ } else if m == 6 { "Jun"@ }
    else if m == 7 { "Jul"@ } else if m == 8 { "Aug"@ } else if m == 9 { "Sep"@ }
    else if m == 10 { "Oct"@ } else if m == 11 { "Nov"@ } else { "Dec"@ }
}

pub open spec fn long_weekday(w: u32) -> Seq<char> {
    if w == 0 { "Monday"@ } else if w == 1 { "Tuesday"@ } else if w == 2 { "Wednesday"@ }
    else if w == 3 { "Thursday"@ } else if w == 4 { "Friday"@ } else if w == 5 { "Saturday"@ }
    else { "Sunday"@ }
}

fn long_month_str(m: u32) -> (r: &'static str)
    ensures
        r@ == long_month(m),
{
    if m == 1 { "January" } else if m == 2 { "February" } else if m == 3 { "March" }
    else if m == 4 { "April" } else if m == 5 { "May" } else if m == 6 { "June" }
    else if m == 7 { "July" } else if m == 8 { "August" } else if m == 9 { "September" }
    else if m == 10 { "October" } else if m == 11 { "November" } else { "December" }
}

fn short_month_str(m: u32) -> (r: &'static str)
    ensures
        r@ == short_month(m),
{
    if m == 1 { "Jan" } else if m == 2 { "Feb" } else if m == 3 { "Mar" }
    else if m == 4 { "Apr" } else if m == 5 { "May" } else if m == 6 { "Jun" }
    else if m == 7 { "Jul" } else if m == 8 { "Aug" } else if m == 9 { "Sep" }
    else if m == 10 { "Oct" } else if m == 11 { "Nov" } else { "Dec" }
}

fn long_weekday_str(w: u32) -> (r: &'static str)
    ensures
        r@ == long_weekday(w),
{
    if w == 0 { "Monday" } else if w == 1 { "Tuesday" } else if w == 2 { "Wednesday" }
    else if w == 3 { "Thursday" } else if w == 4 { "Friday" } else if w == 5 { "Saturday" }
    else { "Sunday" }
}

/// The full month names are the English ones, in calendar order (June
/// for 6), twelve different names; the short name of a month is the first
/// three letters of its full name.
pub proof fn law_month_names(m: u32)
    requires
        1 <= m <= 12,
    ensures
        long_month(m) == seq!["January"@, "February"@, "March"@, "April"@, "May"@, "June"@, "July"@,
            "August"@, "September"@, "October"@, "November"@, "December"@][m - 1],
        short_month(m) == long_month(m).take(3),
        forall|k: u32| 1 <= k <= 12 && k != m ==> long_month(k) != long_month(m),
{
    reveal_strlit("January");
    reveal_strlit("Jan");
    reveal_strlit("February");
    reveal_strlit("Feb");
    reveal_strlit("March");
    reveal_strlit("Mar");
    reveal_strlit("April");
    reveal_strlit("Apr");
    reveal_strlit("May");
    reveal_strlit("May");
    reveal_strlit("June");
    reveal_strlit("Jun");
    reveal_strlit("July");
    reveal_strlit("Jul");
    reveal_strlit("August");
    reveal_strlit("Aug");
    reveal_strlit("September");
    reveal_strlit("Sep");
    reveal_strlit("October");
    reveal_strlit("Oct");
    reveal_strlit("November");
    reveal_strlit("Nov");
    reveal_strlit("December");
    reveal_strlit("Dec");
    assert forall|k: u32| 1 <= k <= 12 && k != m implies long_month(k) != long_month(m) by {
        if long_month(k) == long_month(m) {
            assert(long_month(k)[0] == long_month(m)[0]);
            assert(long_month(k)[1] == long_month(m)[1]);
            assert(long_month(k)[2] == long_month(m)[2]);
        }
    }
}

/// The weekday names are the English ones from Monday (0) to Sunday (6),
/// seven different names.
pub proof fn law_weekday_names(w: u32)
    requires
        w <= 6,
    ensures
        long_weekday(w) == seq!["Monday"@, "Tuesday"@, "Wednesday"@, "Thursday"@, "Friday"@, "Saturday"@,
            "Sunday"@][w as int],
        forall|k: u32| k <= 6 && k != w ==> long_weekday(k) != long_weekday(w),
{
    reveal_strlit("Monday");
    reveal_strlit("Tuesday");
    reveal_strlit("Wednesday");
    reveal_strlit("Thursday");
    reveal_strlit("Friday");
    reveal_strlit("Saturday");
    reveal_strlit("Sunday");
    assert forall|k: u32| k <= 6 && k != w implies long_weekday(k) != long_weekday(w) by {
        if long_weekday(k) == long_weekday(w) {
            assert(long_weekday(k)[0] == long_weekday(w)[0]);
            assert(long_weekday(k)[1] == long_weekday(w)[1]);
        }
    }
}

/// `%Y`: the year zero-padded to four digits; outside 0 to 9999 with its
/// sign in front.
pub open spec fn year_text(y: i32) -> Seq<char> {
    if 0 <= y <= 9999 {
        zero_pad(y as nat, 4)
    } else if y > 9999 {
        seq!['+'] + zero_pad(y as nat, 4)
    } else {
        seq!['-'] + zero_pad((-(y as int)) as nat, 4)
    }
}

fn push_year(s: &mut String, y: i32)
    ensures
        final(s)@ == old(s)@ + year_text(y),
{
    if 0 <= y && y <= 9999 {
        push_dec_zero_padded(s, y as u64, 4);
    } else if y > 9999 {
        let ghost s0 = s@;
        s.append("+");
        push_dec_zero_padded(s, y as u64, 4);
        proof {
            reveal_strlit("+");
        }
        assert(s@ =~= s0 + (seq!['+'] + zero_pad(y as nat, 4)));
    } else {
        let ghost s0 = s@;
        s.append("-");
        let m: u64 = (-(y as i64)) as u64;
        push_dec_zero_padded(s, m, 4);
        proof {
            reveal_strlit("-");
        }
        assert(s@ =~= s0 + (seq!['-'] + zero_pad((-(y as int)) as nat, 4)));
    }
}

/// `%H:%M`.
pub open spec fn time_text(t: LocalTime) -> Seq<char> {
    zero_pad(t.hour as nat, 2) + ":"@ + zero_pad(t.minute as nat, 2)
}

pub fn format_time_at(t: &LocalTime) -> (r: String)
    ensures
        r@ == time_text(*t),
{
    let mut s = String::new();
    push_dec_zero_padded(&mut s, t.hour as u64, 2);
    s.append(":");
    push_dec_zero_padded(&mut s, t.minute as u64, 2);
    s
}

/// `%H:%M:%S`.
pub open spec fn time_full_text(t: LocalTime) -> Seq<char> {
    time_text(t) + ":"@ + zero_pad(t.second as nat, 2)
}

pub fn format_time_full_at(t: &LocalTime) -> (r: String)
    ensures
        r@ == time_full_text(*t),
{
    let mut s = format_time_at(t);
    s.append(":");
    push_dec_zero_padded(&mut s, t.second as u64, 2);
    s
}

/// `%b %-d`, such as `Mar 5`.
pub open spec fn date_short_text(t: LocalTime) -> Seq<char> {
    short_month(t.month) + " "@ + dec(t.day as nat)
}

pub fn format_date_short_at(t: &LocalTime) -> (r: String)
    ensures
        r@ == date_short_text(*t),
{
    let mut s = String::new();
    s.append(short_month_str(t.month));
    s.append(" ");
    push_dec(&mut s, t.day as u64);
    s
}

/// `%A, %B %e, %Y`, such as `Thursday, March  5, 2026`.
pub open spec fn date_full_text(t: LocalTime) -> Seq<char> {
    long_weekday(t.weekday) + ", "@ + long_month(t.month) + " "@ + pad_left(dec(t.day as nat), 2) + ", "@
        + year_text(t.year)
}

pub fn format_date_full_at(t: &LocalTime) -> (r: String)
    ensures
        r@ == date_full_text(*t),
{
    let mut s = String::new();
    s.append(long_weekday_str(t.weekday));
    s.append(", ");
    s.append(long_month_str(t.month));
    s.append(" ");
    push_dec_padded(&mut s, t.day as u64, 2);
    s.append(", ");
    push_year(&mut s, t.year);
    s
}

/// `%m-%d`, the date widget's text.
pub open spec fn month_day_text(t: LocalTime) -> Seq<char> {
    zero_pad(t.month as nat, 2) + "-"@ + zero_pad(t.day as nat, 2)
}

pub fn format_month_day(t: &LocalTime) -> (r: String)
    ensures
        r@ == month_day_text(*t),
{
    let mut s = String::new();
    push_dec_zero_padded(&mut s, t.month as u64, 2);
    s.append("-");
    push_dec_zero_padded(&mut s, t.day as u64, 2);
    s
}

/// What the panel clock shows.
#[derive(Clone, Debug, PartialEq, Eq)]
pub struct ClockView {
    pub time: String,
    pub date: String,
    pub second: u32,
}

/// What a tick rewrites.
#[derive(Clone, Copy, Debug, PartialEq, Eq, Structural)]
pub struct ClockTick {
    /// The second changed: redraw the border's progress.
    pub redraw_border: bool,
    /// The `%H:%M` text changed.
    pub set_time: bool,
    /// The `%b %-d` text changed.
    pub set_date: bool,
}

/// One tick of the panel clock at local time `now`: the view takes the new
/// second and texts, and only what changed is rewritten.
pub fn clock_tick(view: &mut ClockView, now: &LocalTime) -> (r: ClockTick)
    ensures
        r.redraw_border == (now.second != old(view).second),
        r.set_time == (time_text(*now) != old(view).time@),
        r.set_date == (date_short_text(*now) != old(view).date@),
        final(view).second == now.second,
        final(view).time@ == time_text(*now),
        final(view).date@ == date_short_text(*now),
{
    let redraw_border = now.second != view.second;
    view.second = now.second;
    let t = format_time_at(now);
    let d = format_date_short_at(now);
    let set_time = !str_eq(t.as_str(), view.time.as_str());
    let set_date = !str_eq(d.as_str(), view.date.as_str());
    view.time = t;
    view.date = d;
    ClockTick { redraw_border, set_time, set_date }
}

} // verus!
