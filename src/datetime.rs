//! Values of the date and time sensors, whose keys start with `DATE_`.

use crate::template::digit;
use vstd::prelude::*;
use vstd::string::StringExecFns;

verus! {

/// A local date and time, as plain numbers.
pub struct DateTimeParts {
    pub year: i32,
    pub month: u32,
    pub day: u32,
    pub hour: u32,
    pub minute: u32,
    pub second: u32,
}

/// The decimal digits of `n`, without leading zeros.
pub open spec fn decimal(n: nat) -> Seq<char>
    decreases n,
{
    if n < 10 {
        seq![digit(n)]
    } else {
        decimal(n / 10).push(digit(n % 10))
    }
}

/// The decimal digits of `n`, with a leading zero below 10.
pub open spec fn two_digits(n: nat) -> Seq<char> {
    if n < 10 {
        seq!['0', digit(n)]
    } else {
        decimal(n)
    }
}

/// The decimal text of a year, with a minus sign before a negative one.
pub open spec fn year_text(y: int) -> Seq<char> {
    if y < 0 {
        seq!['-'] + decimal((-y) as nat)
    } else {
        decimal(y as nat)
    }
}

/// The value of a date or time sensor at `t`; `None` for any other label.
pub open spec fn date_time_value(label: Seq<char>, t: DateTimeParts) -> Option<Seq<char>> {
    let year = year_text(t.year as int);
    let month = two_digits(t.month as nat);
    let day = two_digits(t.day as nat);
    let hour = two_digits(t.hour as nat);
    let minute = two_digits(t.minute as nat);
    let second = two_digits(t.second as nat);
    if label == "DATE_year"@ {
        Some(year)
    } else if label == "DATE_month"@ {
        Some(month)
    } else if label == "DATE_day"@ {
        Some(day)
    } else if label == "DATE_hour"@ {
        Some(hour)
    } else if label == "DATE_minute"@ {
        Some(minute)
    } else if label == "DATE_second"@ {
        Some(second)
    } else if label == "DATE_m_d_h_m_1"@ {
        Some(month + "月"@ + day + "日  "@ + hour + ":"@ + minute)
    } else if label == "DATE_m_d_h_m_2"@ {
        Some(month + "/"@ + day + "  "@ + hour + ":"@ + minute)
    } else if label == "DATE_m_d_1"@ {
        Some(month + "月"@ + day + "日"@)
    } else if label == "DATE_m_d_2"@ {
        Some(month + "-"@ + day)
    } else if label == "DATE_y_m_d_1"@ {
        Some(year + "年"@ + month + "月"@ + day + "日"@)
    } else if label == "DATE_y_m_d_2"@ {
        Some(year + "-"@ + month + "-"@ + day)
    } else if label == "DATE_y_m_d_3"@ {
        Some(year + "/"@ + month + "/"@ + day)
    } else if label == "DATE_y_m_d_4"@ {
        Some(year + " "@ + month + " "@ + day)
    } else if label == "DATE_h_m_s_1"@ {
        Some(hour + ":"@ + minute + ":"@ + second)
    } else if label == "DATE_h_m_s_2"@ {
        Some(hour + "时"@ + minute + "分"@ + second + "秒"@)
    } else if label == "DATE_h_m_s_3"@ {
        Some(hour + " "@ + minute + " "@ + second)
    } else if label == "DATE_h_m_1"@ {
        Some(hour + "时"@ + minute + "分"@)
    } else if label == "DATE_h_m_2"@ {
        Some(hour + " : "@ + minute)
    } else if label == "DATE_h_m_3"@ {
        Some(hour + ":"@ + minute)
    } else {
        None
    }
}

fn digit_text(d: u32) -> (r: &'static str)
    requires
        d < 10,
    ensures
        r@ == seq![digit(d as nat)],
{
    if d == 0 {
        proof {
            reveal_strlit("0");
        }
        assert("0"@ =~= seq![digit(0)]);
        "0"
    } else if d == 1 {
        proof {
            reveal_strlit("1");
        }
        assert("1"@ =~= seq![digit(1)]);
        "1"
    } else if d == 2 {
        proof {
            reveal_strlit("2");
        }
        assert("2"@ =~= seq![digit(2)]);
        "2"
    } else if d == 3 {
        proof {
            reveal_strlit("3");
        }
        assert("3"@ =~= seq![digit(3)]);
        "3"
    } else if d == 4 {
        proof {
            reveal_strlit("4");
        }
        assert("4"@ =~= seq![digit(4)]);
        "4"
    } else if d == 5 {
        proof {
            reveal_strlit("5");
        }
        assert("5"@ =~= seq![digit(5)]);
        "5"
    } else if d == 6 {
        proof {
            reveal_strlit("6");
        }
        assert("6"@ =~= seq![digit(6)]);
        "6"
    } else if d == 7 {
        proof {
            reveal_strlit("7");
        }
        assert("7"@ =~= seq![digit(7)]);
        "7"
    } else if d == 8 {
        proof {
            reveal_strlit("8");
        }
        assert("8"@ =~= seq![digit(8)]);
        "8"
    } else {
        proof {
            reveal_strlit("9");
        }
        assert("9"@ =~= seq![digit(9)]);
        "9"
    }
}

/// The decimal text of `n`.
pub fn decimal_text(n: u32) -> (r: String)
    ensures
        r@ == decimal(n as nat),
    decreases n,
{
    if n < 10 {
        digit_text(n).to_owned()
    } else {
        let mut r = decimal_text(n / 10);
        r.append(digit_text(n % 10));
        r
    }
}

/// The decimal text of `n`, at least two digits long.
pub fn two_digit_text(n: u32) -> (r: String)
    ensures
        r@ == two_digits(n as nat),
{
    if n < 10 {
        proof {
            reveal_strlit("0");
        }
        let mut r = "0".to_owned();
        r.append(digit_text(n));
        assert(r@ =~= two_digits(n as nat));
        r
    } else {
        decimal_text(n)
    }
}

/// The decimal text of a year.
pub fn year_to_text(y: i32) -> (r: String)
    ensures
        r@ == year_text(y as int),
{
    if y < 0 {
        proof {
            reveal_strlit("-");
        }
        let magnitude = (0 - (y as i64)) as u32;
        let mut r = "-".to_owned();
        r.append(decimal_text(magnitude).as_str());
        r
    } else {
        decimal_text(y as u32)
    }
}

fn same_text(a: &String, b: &str) -> (r: bool)
    ensures
        r == (a@ == b@),
{
    let b = b.to_owned();
    *a == b
}

/// Gives the value of a date or time sensor at `now`: the year, a two-digit
/// month, day, hour, minute or second, or one of the combined formats.
/// Labels of other sensors give `None`.
pub fn get_date_time_value(label: &str, now: &DateTimeParts) -> (r: Option<String>)
    ensures
        opt_text(r) == date_time_value(label@, *now),
{
    let name = label.to_owned();
    let year = year_to_text(now.year);
    let month = two_digit_text(now.month);
    let day = two_digit_text(now.day);
    let hour = two_digit_text(now.hour);
    let minute = two_digit_text(now.minute);
    let second = two_digit_text(now.second);
    if same_text(&name, "DATE_year") {
        Some(year)
    } else if same_text(&name, "DATE_month") {
        Some(month)
    } else if same_text(&name, "DATE_day") {
        Some(day)
    } else if same_text(&name, "DATE_hour") {
        Some(hour)
    } else if same_text(&name, "DATE_minute") {
        Some(minute)
    } else if same_text(&name, "DATE_second") {
        Some(second)
    } else if same_text(&name, "DATE_m_d_h_m_1") {
        let mut r = month.clone();
        r.append("月");
        r.append(day.as_str());
        r.append("日  ");
        r.append(hour.as_str());
        r.append(":");
        r.append(minute.as_str());
        Some(r)
    } else if same_text(&name, "DATE_m_d_h_m_2") {
        let mut r = month.clone();
        r.append("/");
        r.append(day.as_str());
        r.append("  ");
        r.append(hour.as_str());
        r.append(":");
        r.append(minute.as_str());
        Some(r)
    } else if same_text(&name, "DATE_m_d_1") {
        let mut r = month.clone();
        r.append("月");
        r.append(day.as_str());
        r.append("日");
        Some(r)
    } else if same_text(&name, "DATE_m_d_2") {
        let mut r = month.clone();
        r.append("-");
        r.append(day.as_str());
        Some(r)
    } else if same_text(&name, "DATE_y_m_d_1") {
        let mut r = year.clone();
        r.append("年");
        r.append(month.as_str());
        r.append("月");
        r.append(day.as_str());
        r.append("日");
        Some(r)
    } else if same_text(&name, "DATE_y_m_d_2") {
        let mut r = year.clone();
        r.append("-");
        r.append(month.as_str());
        r.append("-");
        r.append(day.as_str());
        Some(r)
    } else if same_text(&name, "DATE_y_m_d_3") {
        let mut r = year.clone();
        r.append("/");
        r.append(month.as_str());
        r.append("/");
        r.append(day.as_str());
        Some(r)
    } else if same_text(&name, "DATE_y_m_d_4") {
        let mut r = year.clone();
        r.append(" ");
        r.append(month.as_str());
        r.append(" ");
        r.append(day.as_str());
        Some(r)
    } else if same_text(&name, "DATE_h_m_s_1") {
        let mut r = hour.clone();
        r.append(":");
        r.append(minute.as_str());
        r.append(":");
        r.append(second.as_str());
        Some(r)
    } else if same_text(&name, "DATE_h_m_s_2") {
        let mut r = hour.clone();
        r.append("时");
        r.append(minute.as_str());
        r.append("分");
        r.append(second.as_str());
        r.append("秒");
        Some(r)
    } else if same_text(&name, "DATE_h_m_s_3") {
        let mut r = hour.clone();
        r.append(" ");
        r.append(minute.as_str());
        r.append(" ");
        r.append(second.as_str());
        Some(r)
    } else if same_text(&name, "DATE_h_m_1") {
        let mut r = hour.clone();
        r.append("时");
        r.append(minute.as_str());
        r.append("分");
        Some(r)
    } else if same_text(&name, "DATE_h_m_2") {
        let mut r = hour.clone();
        r.append(" : ");
        r.append(minute.as_str());
        Some(r)
    } else if same_text(&name, "DATE_h_m_3") {
        let mut r = hour.clone();
        r.append(":");
        r.append(minute.as_str());
        Some(r)
    } else {
        None
    }
}

pub open spec fn opt_text(o: Option<String>) -> Option<Seq<char>> {
    match o {
        Some(s) => Some(s@),
        None => None,
    }
}

} // verus!
