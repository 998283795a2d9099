use vstd::prelude::*;

verus! {

/// A local wall-clock time to the second.
#[derive(Debug, Clone, Copy, PartialEq, Eq)]
pub struct Stamp {
    pub year: i32,
    pub month: u32,
    pub day: u32,
    pub hour: u32,
    pub minute: u32,
    pub second: u32,
}

impl Stamp {
    /// A time whose fields are in range, with a four-digit year.
    pub open spec fn wf(&self) -> bool {
        &&& 0 <= self.year <= 9999
        &&& 1 <= self.month <= 12
        &&& 1 <= self.day <= 31
        &&& self.hour < 24
        &&& self.minute < 60
        &&& self.second < 60
    }
}

/// The decimal digit for `n` below ten.
pub open spec fn digit(n: int) -> char {
    if n == 0 {
        '0'
    } else if n == 1 {
        '1'
    } else if n == 2 {
        '2'
    } else if n == 3 {
        '3'
    } else if n == 4 {
        '4'
    } else if n == 5 {
        '5'
    } else if n == 6 {
        '6'
    } else if n == 7 {
        '7'
    } else if n == 8 {
        '8'
    } else {
        '9'
    }
}

/// `n` below one hundred as two digits.
pub open spec fn two_digits(n: int) -> Seq<char> {
    seq![digit(n / 10), digit(n % 10)]
}

/// The text `YYYYMMDD_HHMMSS` of a time.
pub open spec fn stamp_text(s: Stamp) -> Seq<char> {
    two_digits((s.year as int) / 100) + two_digits((s.year as int) % 100) + two_digits(s.month as int) + two_digits(
        s.day as int,
    ) + seq!['_'] + two_digits(s.hour as int) + two_digits(s.minute as int) + two_digits(
        s.second as int,
    )
}

/// Chronological order of times.
pub open spec fn stamp_before(a: Stamp, b: Stamp) -> bool {
    if a.year != b.year {
        a.year < b.year
    } else if a.month != b.month {
        a.month < b.month
    } else if a.day != b.day {
        a.day < b.day
    } else if a.hour != b.hour {
        a.hour < b.hour
    } else if a.minute != b.minute {
        a.minute < b.minute
    } else {
        a.second < b.second
    }
}

proof fn lemma_two_digits_injective(a: int, b: int)
    requires
        0 <= a < 100,
        0 <= b < 100,
        two_digits(a) == two_digits(b),
    ensures
        a == b,
{
    assert(two_digits(a)[0] == two_digits(b)[0]);
    assert(two_digits(a)[1] == two_digits(b)[1]);
    assert(a == 10 * (a / 10) + a % 10);
    assert(b == 10 * (b / 10) + b % 10);
}

/// Two well-formed times with the same text are the same time.
pub proof fn lemma_stamp_text_injective(a: Stamp, b: Stamp)
    requires
        a.wf(),
        b.wf(),
        stamp_text(a) == stamp_text(b),
    ensures
        a == b,
{
    let ta = stamp_text(a);
    let tb = stamp_text(b);
    assert(ta.len() == 15);
    assert(ta.subrange(0, 2) =~= two_digits((a.year as int) / 100));
    assert(tb.subrange(0, 2) =~= two_digits((b.year as int) / 100));
    assert(ta.subrange(2, 4) =~= two_digits((a.year as int) % 100));
    assert(tb.subrange(2, 4) =~= two_digits((b.year as int) % 100));
    assert(ta.subrange(4, 6) =~= two_digits(a.month as int));
    assert(tb.subrange(4, 6) =~= two_digits(b.month as int));
    assert(ta.subrange(6, 8) =~= two_digits(a.day as int));
    assert(tb.subrange(6, 8) =~= two_digits(b.day as int));
    assert(ta.subrange(9, 11) =~= two_digits(a.hour as int));
    assert(tb.subrange(9, 11) =~= two_digits(b.hour as int));
    assert(ta.subrange(11, 13) =~= two_digits(a.minute as int));
    assert(tb.subrange(11, 13) =~= two_digits(b.minute as int));
    assert(ta.subrange(13, 15) =~= two_digits(a.second as int));
    assert(tb.subrange(13, 15) =~= two_digits(b.second as int));
    lemma_two_digits_injective((a.year as int) / 100, (b.year as int) / 100);
    lemma_two_digits_injective((a.year as int) % 100, (b.year as int) % 100);
    lemma_two_digits_injective(a.month as int, b.month as int);
    lemma_two_digits_injective(a.day as int, b.day as int);
    lemma_two_digits_injective(a.hour as int, b.hour as int);
    lemma_two_digits_injective(a.minute as int, b.minute as int);
    lemma_two_digits_injective(a.second as int, b.second as int);
    assert(a.year == 100 * ((a.year as int) / 100) + (a.year as int) % 100);
    assert(b.year == 100 * ((b.year as int) / 100) + (b.year as int) % 100);
}

/// The one-character text of the digit `n`.
fn digit_text(n: u32) -> (r: &'static str)
    requires
        n < 10,
    ensures
        r@ == seq![digit(n as int)],
{
    proof {
        reveal_strlit("0");
        reveal_strlit("1");
        reveal_strlit("2");
        reveal_strlit("3");
        reveal_strlit("4");
        reveal_strlit("5");
        reveal_strlit("6");
        reveal_strlit("7");
        reveal_strlit("8");
        reveal_strlit("9");
    }
    if n == 0 {
        "0"
    } else if n == 1 {
        "1"
    } else if n == 2 {
        "2"
    } else if n == 3 {
        "3"
    } else if n == 4 {
        "4"
    } else if n == 5 {
        "5"
    } else if n == 6 {
        "6"
    } else if n == 7 {
        "7"
    } else if n == 8 {
        "8"
    } else {
        "9"
    }
}

/// Appends `n` below one hundred as two digits.
fn push_two_digits(out: &mut String, n: u32)
    requires
        n < 100,
    ensures
        final(out)@ == old(out)@ + two_digits(n as int),
{
    out.append(digit_text(n / 10));
    out.append(digit_text(n % 10));
    assert(final(out)@ =~= old(out)@ + two_digits(n as int));
}

impl Stamp {
    /// The text `YYYYMMDD_HHMMSS` of this time.
    pub fn text(&self) -> (r: String)
        requires
            self.wf(),
        ensures
            r@ == stamp_text(*self),
    {
        proof {
            reveal_strlit("_");
        }
        let y = self.year as u32;
        let mut out = String::new();
        push_two_digits(&mut out, y / 100);
        push_two_digits(&mut out, y % 100);
        push_two_digits(&mut out, self.month);
        push_two_digits(&mut out, self.day);
        out.append("_");
        push_two_digits(&mut out, self.hour);
        push_two_digits(&mut out, self.minute);
        push_two_digits(&mut out, self.second);
        assert(out@ =~= stamp_text(*self));
        out
    }
}

/// Relies on chrono's conversion of `std::time::SystemTime::now()` into a
/// `DateTime<Local>`, and on its `Datelike` and `Timelike` accessors: the local
/// time now, month 1 to 12, day 1 to 31, hour 0 to 23, minute and second 0 to
/// 59. The conversion also handles clock readings before 1970. On Unix,
/// chrono's time-zone lookup panics where no local time type can be selected
/// from the zone data.
#[verifier::external_body]
fn local_now() -> (r: Stamp)
    ensures
        1 <= r.month <= 12,
        1 <= r.day <= 31,
        r.hour < 24,
        r.minute < 60,
        r.second < 60,
{
    let now = chrono::DateTime::<chrono::Local>::from(std::time::SystemTime::now());
    Stamp {
        year: chrono::Datelike::year(&now),
        month: chrono::Datelike::month(&now),
        day: chrono::Datelike::day(&now),
        hour: chrono::Timelike::hour(&now),
        minute: chrono::Timelike::minute(&now),
        second: chrono::Timelike::second(&now),
    }
}

/// `s` where its year has four digits, else `None`.
pub fn four_digit_year(s: Stamp) -> (r: Option<Stamp>)
    ensures
        (0 <= s.year <= 9999) ==> r == Some(s),
        !(0 <= s.year <= 9999) ==> r is None,
{
    if 0 <= s.year && s.year <= 9999 {
        Some(s)
    } else {
        None
    }
}

/// The local time now, or `None` where its year has not four digits.
pub fn now_stamp() -> (r: Option<Stamp>)
    ensures
        r is Some ==> r->Some_0.wf(),
{
    four_digit_year(local_now())
}

} // verus!
