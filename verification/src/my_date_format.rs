use vstd::prelude::*;
use vstd::string::{StrSliceExecFns, StringExecFns};
use crate::error::Error;
use crate::models::{Timestamp, days_in_month};

verus! {

/// The character of a decimal digit.
#[verifier::opaque]
pub open spec fn digit_char(d: int) -> char {
    if d == 0 {
        '0'
    } else if d == 1 {
        '1'
    } else if d == 2 {
        '2'
    } else if d == 3 {
        '3'
    } else if d == 4 {
        '4'
    } else if d == 5 {
        '5'
    } else if d == 6 {
        '6'
    } else if d == 7 {
        '7'
    } else if d == 8 {
        '8'
    } else {
        '9'
    }
}

/// The value of a decimal digit; `None` for any other character.
#[verifier::opaque]
pub open spec fn digit_of(c: char) -> Option<int> {
    if c == '0' {
        Some(0)
    } else if c == '1' {
        Some(1)
    } else if c == '2' {
        Some(2)
    } else if c == '3' {
        Some(3)
    } else if c == '4' {
        Some(4)
    } else if c == '5' {
        Some(5)
    } else if c == '6' {
        Some(6)
    } else if c == '7' {
        Some(7)
    } else if c == '8' {
        Some(8)
    } else if c == '9' {
        Some(9)
    } else {
        None
    }
}

/// The character at position `i` of a timestamp's text.
pub open spec fn timestamp_char(t: Timestamp, i: int) -> char {
    if i == 0 {
        digit_char(t.year as int / 1000)
    } else if i == 1 {
        digit_char(t.year as int / 100 % 10)
    } else if i == 2 {
        digit_char(t.year as int / 10 % 10)
    } else if i == 3 {
        digit_char(t.year as int % 10)
    } else if i == 5 {
        digit_char(t.month as int / 10)
    } else if i == 6 {
        digit_char(t.month as int % 10)
    } else if i == 8 {
        digit_char(t.day as int / 10)
    } else if i == 9 {
        digit_char(t.day as int % 10)
    } else if i == 11 {
        digit_char(t.hour as int / 10)
    } else if i == 12 {
        digit_char(t.hour as int % 10)
    } else if i == 14 {
        digit_char(t.minute as int / 10)
    } else if i == 15 {
        digit_char(t.minute as int % 10)
    } else if i == 17 {
        digit_char(t.second as int / 10)
    } else if i == 18 {
        digit_char(t.second as int % 10)
    } else if i == 4 || i == 7 {
        '-'
    } else if i == 10 {
        ' '
    } else {
        ':'
    }
}

/// The text of a timestamp: `YYYY-MM-DD HH:MM:SS`, 19 characters, each
/// field padded with zeros, hours counted from 00 to 23.
pub open spec fn timestamp_text(t: Timestamp) -> Seq<char> {
    Seq::new(19, |i: int| timestamp_char(t, i))
}

/// The number that the two digits at `i` and `i + 1` write.
pub open spec fn two_at(s: Seq<char>, i: int) -> Option<int> {
    match (digit_of(s[i]), digit_of(s[i + 1])) {
        (Some(a), Some(b)) => Some(10 * a + b),
        _ => None,
    }
}

/// The number that the four digits from `i` on write.
pub open spec fn four_at(s: Seq<char>, i: int) -> Option<int> {
    match (two_at(s, i), two_at(s, i + 2)) {
        (Some(a), Some(b)) => Some(100 * a + b),
        _ => None,
    }
}

/// Whether the text has the length and the separators of the pattern.
pub open spec fn framed(s: Seq<char>) -> bool {
    &&& s.len() == 19
    &&& s[4] == '-'
    &&& s[7] == '-'
    &&& s[10] == ' '
    &&& s[13] == ':'
    &&& s[16] == ':'
}

/// The timestamp that a text writes: the text follows the pattern exactly
/// and names a day of the calendar and a time of the clock.
pub open spec fn timestamp_of(s: Seq<char>) -> Option<Timestamp> {
    if framed(s) {
        match (
            four_at(s, 0),
            two_at(s, 5),
            two_at(s, 8),
            two_at(s, 11),
            two_at(s, 14),
            two_at(s, 17),
        ) {
            (Some(y), Some(mo), Some(d), Some(h), Some(mi), Some(sec)) => {
                let t = Timestamp {
                    year: y as u16,
                    month: mo as u8,
                    day: d as u8,
                    hour: h as u8,
                    minute: mi as u8,
                    second: sec as u8,
                };
                if t.valid() {
                    Some(t)
                } else {
                    None
                }
            },
            _ => None,
        }
    } else {
        None
    }
}

proof fn lemma_digit_read_back(d: int)
    requires
        0 <= d < 10,
    ensures
        digit_of(digit_char(d)) == Some(d),
{
    reveal(digit_char);
    reveal(digit_of);
}

proof fn lemma_digit_written_again(c: char)
    requires
        digit_of(c) is Some,
    ensures
        0 <= digit_of(c)->Some_0 < 10,
        digit_char(digit_of(c)->Some_0) == c,
{
    reveal(digit_char);
    reveal(digit_of);
}

proof fn lemma_two_read_back(s: Seq<char>, i: int, n: int)
    requires
        0 <= n < 100,
        s[i] == digit_char(n / 10),
        s[i + 1] == digit_char(n % 10),
    ensures
        two_at(s, i) == Some(n),
{
    lemma_digit_read_back(n / 10);
    lemma_digit_read_back(n % 10);
}

proof fn lemma_two_written_again(s: Seq<char>, i: int)
    requires
        two_at(s, i) is Some,
    ensures
        0 <= two_at(s, i)->Some_0 < 100,
        digit_char(two_at(s, i)->Some_0 / 10) == s[i],
        digit_char(two_at(s, i)->Some_0 % 10) == s[i + 1],
{
    lemma_digit_written_again(s[i]);
    lemma_digit_written_again(s[i + 1]);
}

proof fn lemma_year_digits(y: int)
    requires
        0 <= y <= 9999,
    ensures
        0 <= y / 100 < 100,
        0 <= y % 100 < 100,
        y / 100 / 10 == y / 1000,
        y / 100 % 10 == y / 100 % 10,
        y % 100 / 10 == y / 10 % 10,
        y % 100 % 10 == y % 10,
        100 * (y / 100) + y % 100 == y,
{
}

proof fn lemma_fields_read_back(t: Timestamp)
    requires
        t.valid(),
    ensures
        framed(timestamp_text(t)),
        four_at(timestamp_text(t), 0) == Some(t.year as int),
        two_at(timestamp_text(t), 5) == Some(t.month as int),
        two_at(timestamp_text(t), 8) == Some(t.day as int),
        two_at(timestamp_text(t), 11) == Some(t.hour as int),
        two_at(timestamp_text(t), 14) == Some(t.minute as int),
        two_at(timestamp_text(t), 17) == Some(t.second as int),
{
    let s = timestamp_text(t);
    let y = t.year as int;
    lemma_year_digits(y);
    lemma_two_read_back(s, 0, y / 100);
    lemma_two_read_back(s, 2, y % 100);
    lemma_two_read_back(s, 5, t.month as int);
    lemma_two_read_back(s, 8, t.day as int);
    lemma_two_read_back(s, 11, t.hour as int);
    lemma_two_read_back(s, 14, t.minute as int);
    lemma_two_read_back(s, 17, t.second as int);
}

/// What is written is read back as the same timestamp.
pub proof fn lemma_text_round_trip(t: Timestamp)
    requires
        t.valid(),
    ensures
        timestamp_of(timestamp_text(t)) == Some(t),
{
    lemma_fields_read_back(t);
}

proof fn lemma_year_from_halves(a: int, b: int)
    requires
        0 <= a < 100,
        0 <= b < 100,
    ensures
        (100 * a + b) / 1000 == a / 10,
        (100 * a + b) / 100 % 10 == a % 10,
        (100 * a + b) / 10 % 10 == b / 10,
        (100 * a + b) % 10 == b % 10,
{
}

/// A text that is read as a timestamp is the one text of that timestamp,
/// and the timestamp is a valid one.
pub proof fn lemma_text_is_canonical(s: Seq<char>)
    requires
        timestamp_of(s) is Some,
    ensures
        timestamp_of(s)->Some_0.valid(),
        timestamp_text(timestamp_of(s)->Some_0) == s,
{
    let t = timestamp_of(s)->Some_0;
    let a = two_at(s, 0)->Some_0;
    let b = two_at(s, 2)->Some_0;
    lemma_two_written_again(s, 0);
    lemma_two_written_again(s, 2);
    lemma_two_written_again(s, 5);
    lemma_two_written_again(s, 8);
    lemma_two_written_again(s, 11);
    lemma_two_written_again(s, 14);
    lemma_two_written_again(s, 17);
    lemma_year_from_halves(a, b);
    assert(t.year as int == 100 * a + b);
    assert forall|i: int| 0 <= i < 19 implies timestamp_char(t, i) == s[i] by {}
    assert(timestamp_text(t) =~= s);
}

fn digit_str(d: u8) -> (r: &'static str)
    requires
        d < 10,
    ensures
        r@ == seq![digit_char(d as int)],
{
    proof {
        reveal(digit_char);
        reveal_strlit("0");
        reveal_strlit("1");
        reveal_strlit("2");
        reveal_strlit("3");
        reveal_strlit("4");
        reveal_strlit("5");
        reveal_strlit("6");
        reveal_strlit("7");
        reveal_strlit("8");
        reveal_strlit("9");
    }
    let r = match d {
        0 => "0",
        1 => "1",
        2 => "2",
        3 => "3",
        4 => "4",
        5 => "5",
        6 => "6",
        7 => "7",
        8 => "8",
        _ => "9",
    };
    assert(r@ =~= seq![digit_char(d as int)]);
    r
}

fn push_two(out: &mut String, n: u8)
    requires
        n < 100,
    ensures
        final(out)@ == old(out)@ + seq![digit_char(n as int / 10), digit_char(n as int % 10)],
{
    out.append(digit_str(n / 10));
    out.append(digit_str(n % 10));
    assert(out@ =~= old(out)@ + seq![digit_char(n as int / 10), digit_char(n as int % 10)]);
}

fn push_mark(out: &mut String, mark: &str)
    ensures
        final(out)@ == old(out)@ + mark@,
{
    out.append(mark);
}

/// Writes a timestamp as `YYYY-MM-DD HH:MM:SS`.
pub fn serialize(date: &Timestamp) -> (r: String)
    requires
        date.valid(),
    ensures
        r@ == timestamp_text(*date),
{
    proof {
        reveal_strlit("-");
        reveal_strlit(" ");
        reveal_strlit(":");
    }
    let ghost text = timestamp_text(*date);
    let ghost y = date.year as int;
    let mut out = String::new();
    let high: u8 = (date.year / 100) as u8;
    let low: u8 = (date.year % 100) as u8;
    assert(high as int / 10 == y / 1000 && high as int % 10 == y / 100 % 10);
    assert(low as int / 10 == y / 10 % 10 && low as int % 10 == y % 10);
    push_two(&mut out, high);
    assert(out@ =~= text.take(2));
    push_two(&mut out, low);
    assert(out@ =~= text.take(4));
    push_mark(&mut out, "-");
    assert(out@ =~= text.take(5));
    push_two(&mut out, date.month);
    assert(out@ =~= text.take(7));
    push_mark(&mut out, "-");
    assert(out@ =~= text.take(8));
    push_two(&mut out, date.day);
    assert(out@ =~= text.take(10));
    push_mark(&mut out, " ");
    assert(out@ =~= text.take(11));
    push_two(&mut out, date.hour);
    assert(out@ =~= text.take(13));
    push_mark(&mut out, ":");
    assert(out@ =~= text.take(14));
    push_two(&mut out, date.minute);
    assert(out@ =~= text.take(16));
    push_mark(&mut out, ":");
    assert(out@ =~= text.take(17));
    push_two(&mut out, date.second);
    assert(out@ =~= text);
    out
}

fn digit_value(c: char) -> (r: Option<u8>)
    ensures
        match r {
            Some(d) => d < 10 && digit_of(c) == Some(d as int),
            None => digit_of(c) is None,
        },
{
    proof {
        reveal(digit_of);
    }
    match c {
        '0' => Some(0),
        '1' => Some(1),
        '2' => Some(2),
        '3' => Some(3),
        '4' => Some(4),
        '5' => Some(5),
        '6' => Some(6),
        '7' => Some(7),
        '8' => Some(8),
        '9' => Some(9),
        _ => None,
    }
}

fn read_two(s: &str, i: usize) -> (r: Option<u8>)
    requires
        i < 18,
        i + 1 < s@.len(),
    ensures
        match r {
            Some(n) => n < 100 && two_at(s@, i as int) == Some(n as int),
            None => two_at(s@, i as int) is None,
        },
{
    match (digit_value(s.get_char(i)), digit_value(s.get_char(i + 1))) {
        (Some(a), Some(b)) => Some(10 * a + b),
        _ => None,
    }
}

fn month_length(year: u16, month: u8) -> (r: u8)
    ensures
        r as int == days_in_month(year as int, month as int),
{
    if month == 2 {
        if year % 4 == 0 && (year % 100 != 0 || year % 400 == 0) {
            29
        } else {
            28
        }
    } else if month == 4 || month == 6 || month == 9 || month == 11 {
        30
    } else if 1 <= month && month <= 12 {
        31
    } else {
        0
    }
}

/// Whether the fields name a day of the calendar and a time of the clock.
pub fn is_valid(t: &Timestamp) -> (r: bool)
    ensures
        r == t.valid(),
{
    t.year <= 9999 && 1 <= t.month && t.month <= 12 && 1 <= t.day && t.day <= month_length(
        t.year,
        t.month,
    ) && t.hour <= 23 && t.minute <= 59 && t.second <= 59
}

fn has_frame(s: &str) -> (r: bool)
    ensures
        r == framed(s@),
{
    s.unicode_len() == 19 && s.get_char(4) == '-' && s.get_char(7) == '-' && s.get_char(10) == ' '
        && s.get_char(13) == ':' && s.get_char(16) == ':'
}

fn read_timestamp(s: &str) -> (r: Option<Timestamp>)
    ensures
        r == timestamp_of(s@),
{
    if !has_frame(s) {
        return None;
    }
    let high = read_two(s, 0);
    let low = read_two(s, 2);
    let month = read_two(s, 5);
    let day = read_two(s, 8);
    let hour = read_two(s, 11);
    let minute = read_two(s, 14);
    let second = read_two(s, 17);
    match (high, low, month, day, hour, minute, second) {
        (Some(yh), Some(yl), Some(mo), Some(d), Some(h), Some(mi), Some(sec)) => {
            let year: u16 = 100 * (yh as u16) + (yl as u16);
            let t = Timestamp { year: year, month: mo, day: d, hour: h, minute: mi, second: sec };
            if is_valid(&t) {
                Some(t)
            } else {
                None
            }
        },
        _ => None,
    }
}

/// Reads a timestamp written as `YYYY-MM-DD HH:MM:SS`; a `ParseError` on any
/// deviation from the pattern, and on a date or a time that does not exist.
pub fn deserialize(s: &str) -> (r: Result<Timestamp, Error>)
    ensures
        match r {
            Ok(t) => timestamp_of(s@) == Some(t),
            Err(e) => timestamp_of(s@) is None && e is ParseError,
        },
{
    match read_timestamp(s) {
        Some(t) => Ok(t),
        None => Err(Error::ParseError("input is no timestamp of the form YYYY-MM-DD HH:MM:SS".to_owned())),
    }
}

} // verus!
