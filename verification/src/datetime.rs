//! Calendar timestamps and their text form `YYYY-MM-DD HH:MM:SS`.
use vstd::prelude::*;

verus! {

/// A calendar date and a time of day, without an offset.
#[derive(Clone, Copy, PartialEq, Eq, Structural, Debug)]
pub struct DateTime {
    pub year: i32,
    pub month: u8,
    pub day: u8,
    pub hour: u8,
    pub minute: u8,
    pub second: u8,
    pub nanosecond: u32,
}

/// Gregorian leap years.
pub open spec fn is_leap_year(year: int) -> bool {
    (year % 4 == 0 && year % 100 != 0) || year % 400 == 0
}

/// Number of days in `month` (1-based) of `year`.
pub open spec fn days_in_month(year: int, month: int) -> int {
    if month == 2 {
        if is_leap_year(year) { 29 } else { 28 }
    } else if month == 4 || month == 6 || month == 9 || month == 11 {
        30
    } else {
        31
    }
}

impl DateTime {
    /// The value denotes an existing moment in the supported year range.
    pub open spec fn wf(self) -> bool {
        &&& -9999 <= self.year <= 9999
        &&& 1 <= self.month <= 12
        &&& 1 <= self.day <= days_in_month(self.year as int, self.month as int)
        &&& self.hour < 24
        &&& self.minute < 60
        &&& self.second < 60
        &&& self.nanosecond < 1_000_000_000
    }
}

/// The character of a decimal digit.
pub open spec fn digit_char(d: int) -> char {
    (d + 48) as char
}

pub open spec fn is_digit(c: char) -> bool {
    '0' <= c && c <= '9'
}

pub open spec fn digit_value(c: char) -> int {
    c as int - 48
}

pub open spec fn two_digits(n: int) -> Seq<char> {
    seq![digit_char(n / 10), digit_char(n % 10)]
}

pub open spec fn four_digits(n: int) -> Seq<char> {
    seq![digit_char(n / 1000), digit_char((n / 100) % 10), digit_char((n / 10) % 10), digit_char(n % 10)]
}

/// The year: a minus sign for years before year zero, then four digits.
pub open spec fn year_text(year: int) -> Seq<char> {
    if year < 0 {
        seq!['-'] + four_digits(-year)
    } else {
        four_digits(year)
    }
}

/// The text form of a timestamp (sub-second digits are not written).
pub open spec fn spec_format(d: DateTime) -> Seq<char> {
    year_text(d.year as int) + seq!['-'] + two_digits(d.month as int) + seq!['-']
        + two_digits(d.day as int) + seq![' '] + two_digits(d.hour as int) + seq![':']
        + two_digits(d.minute as int) + seq![':'] + two_digits(d.second as int)
}

/// `n` decimal digits start at position `start` of `s`.
pub open spec fn digits_at(s: Seq<char>, start: int, n: int) -> bool {
    forall|k: int| 0 <= k < n ==> #[trigger] is_digit(s[start + k])
}

/// The number written by the `n` characters at position `start` of `s`.
pub open spec fn number_at(s: Seq<char>, start: int, n: nat) -> int
    decreases n,
{
    if n == 0 {
        0
    } else {
        number_at(s, start, (n - 1) as nat) * 10 + digit_value(s[start + n - 1])
    }
}

/// Length of the optional sign in front of the year.
pub open spec fn sign_len(s: Seq<char>) -> int {
    if s.len() > 0 && (s[0] == '-' || s[0] == '+') { 1 } else { 0 }
}

/// The fixed layout: digits and separators at their places, nothing after.
pub open spec fn has_layout(s: Seq<char>) -> bool {
    let o = sign_len(s);
    &&& s.len() == o + 19
    &&& digits_at(s, o, 4)
    &&& s[o + 4] == '-'
    &&& digits_at(s, o + 5, 2)
    &&& s[o + 7] == '-'
    &&& digits_at(s, o + 8, 2)
    &&& s[o + 10] == ' '
    &&& digits_at(s, o + 11, 2)
    &&& s[o + 13] == ':'
    &&& digits_at(s, o + 14, 2)
    &&& s[o + 16] == ':'
    &&& digits_at(s, o + 17, 2)
}

/// The fields that a text with the right layout writes (sub-second part zero).
pub open spec fn fields_of(s: Seq<char>) -> DateTime {
    let o = sign_len(s);
    let magnitude = number_at(s, o, 4);
    DateTime {
        year: (if o == 1 && s[0] == '-' { -magnitude } else { magnitude }) as i32,
        month: number_at(s, o + 5, 2) as u8,
        day: number_at(s, o + 8, 2) as u8,
        hour: number_at(s, o + 11, 2) as u8,
        minute: number_at(s, o + 14, 2) as u8,
        second: number_at(s, o + 17, 2) as u8,
        nanosecond: 0,
    }
}

/// What reading a text gives: the timestamp it writes, when the layout is
/// right and the fields denote an existing moment.
pub open spec fn spec_parse(s: Seq<char>) -> Option<DateTime> {
    if has_layout(s) && fields_of(s).wf() {
        Some(fields_of(s))
    } else {
        None
    }
}


/// `digit_char` gives a digit, and reading it back gives the number.
pub proof fn lemma_digit(d: int)
    requires
        0 <= d < 10,
    ensures
        is_digit(digit_char(d)),
        digit_value(digit_char(d)) == d,
{
}

proof fn lemma_two_digits_read(s: Seq<char>, start: int, n: int)
    requires
        0 <= n < 100,
        0 <= start,
        start + 2 <= s.len(),
        s[start] == digit_char(n / 10),
        s[start + 1] == digit_char(n % 10),
    ensures
        digits_at(s, start, 2),
        number_at(s, start, 2) == n,
{
    lemma_digit(n / 10);
    lemma_digit(n % 10);
    assert(number_at(s, start, 1) == digit_value(s[start])) by {
        reveal_with_fuel(number_at, 2);
    }
    assert forall|k: int| 0 <= k < 2 implies #[trigger] is_digit(s[start + k]) by {}
}

proof fn lemma_four_digits_read(s: Seq<char>, start: int, n: int)
    requires
        0 <= n < 10000,
        0 <= start,
        start + 4 <= s.len(),
        s[start] == digit_char(n / 1000),
        s[start + 1] == digit_char((n / 100) % 10),
        s[start + 2] == digit_char((n / 10) % 10),
        s[start + 3] == digit_char(n % 10),
    ensures
        digits_at(s, start, 4),
        number_at(s, start, 4) == n,
{
    lemma_digit(n / 1000);
    lemma_digit((n / 100) % 10);
    lemma_digit((n / 10) % 10);
    lemma_digit(n % 10);
    assert(number_at(s, start, 1) == n / 1000) by {
        reveal_with_fuel(number_at, 2);
    }
    assert(number_at(s, start, 2) == n / 100) by {
        reveal_with_fuel(number_at, 2);
    }
    assert(number_at(s, start, 3) == n / 10) by {
        reveal_with_fuel(number_at, 2);
    }
    assert(number_at(s, start, 4) == n) by {
        reveal_with_fuel(number_at, 2);
    }
    assert forall|k: int| 0 <= k < 4 implies #[trigger] is_digit(s[start + k]) by {
    }
}

/// Reading the text form of a timestamp gives the timestamp back, up to
/// the sub-second part, which the text does not carry.
pub proof fn lemma_parse_format(d: DateTime)
    requires
        d.wf(),
    ensures
        spec_parse(spec_format(d)) == Some(DateTime { nanosecond: 0, ..d }),
{
    lemma_format_fields(d);
}

/// The text form of any fields that fit its digits has the right layout and
/// writes those fields (sub-second part zero), whether or not they denote
/// an existing moment.
pub proof fn lemma_format_fields(d: DateTime)
    requires
        -9999 <= d.year <= 9999,
        d.month < 100,
        d.day < 100,
        d.hour < 100,
        d.minute < 100,
        d.second < 100,
    ensures
        has_layout(spec_format(d)),
        fields_of(spec_format(d)) == (DateTime { nanosecond: 0, ..d }),
{
    let s = spec_format(d);
    let y = d.year as int;
    let a = if y < 0 { -y } else { y };
    let o: int = if y < 0 { 1 } else { 0 };
    lemma_digit(a / 1000);
    assert(s.len() == o + 19);
    assert(s[0] == if y < 0 { '-' } else { digit_char(a / 1000) });
    assert(sign_len(s) == o);
    assert(s[o] == digit_char(a / 1000));
    assert(s[o + 1] == digit_char((a / 100) % 10));
    assert(s[o + 2] == digit_char((a / 10) % 10));
    assert(s[o + 3] == digit_char(a % 10));
    lemma_four_digits_read(s, o, a);
    lemma_two_digits_read(s, o + 5, d.month as int);
    lemma_two_digits_read(s, o + 8, d.day as int);
    lemma_two_digits_read(s, o + 11, d.hour as int);
    lemma_two_digits_read(s, o + 14, d.minute as int);
    lemma_two_digits_read(s, o + 17, d.second as int);
    assert(has_layout(s));
    assert(fields_of(s) == DateTime { nanosecond: 0, ..d });
}

/// The months of the Gregorian calendar: January, March, May, July,
/// August, October and December have 31 days, April, June, September and
/// November 30, and February 29 in a leap year and 28 otherwise; a year has
/// 366 days if it is a leap year and 365 otherwise.
pub proof fn law_month_lengths(year: int)
    ensures
        days_in_month(year, 1) == 31,
        days_in_month(year, 2) == (if is_leap_year(year) { 29int } else { 28int }),
        days_in_month(year, 3) == 31,
        days_in_month(year, 4) == 30,
        days_in_month(year, 5) == 31,
        days_in_month(year, 6) == 30,
        days_in_month(year, 7) == 31,
        days_in_month(year, 8) == 31,
        days_in_month(year, 9) == 30,
        days_in_month(year, 10) == 31,
        days_in_month(year, 11) == 30,
        days_in_month(year, 12) == 31,
        days_in_month(year, 1) + days_in_month(year, 2) + days_in_month(year, 3) + days_in_month(
            year,
            4,
        ) + days_in_month(year, 5) + days_in_month(year, 6) + days_in_month(year, 7)
            + days_in_month(year, 8) + days_in_month(year, 9) + days_in_month(year, 10)
            + days_in_month(year, 11) + days_in_month(year, 12) == (if is_leap_year(year) {
            366int
        } else {
            365int
        }),
{
}

/// Leap years: every fourth year, except whole centuries, except every
/// fourth century (so 2024 and 2000 are leap years, 2023 and 1900 are not).
pub proof fn law_leap_years(year: int)
    ensures
        year % 400 == 0 ==> is_leap_year(year),
        year % 100 == 0 && year % 400 != 0 ==> !is_leap_year(year),
        year % 4 == 0 && year % 100 != 0 ==> is_leap_year(year),
        year % 4 != 0 ==> !is_leap_year(year),
{
}

/// Reading accepts the 31st of January, March, May, July, August, October
/// and December, and refuses the 31st of April, June, September and
/// November, of every year of the range and at every time of day.
pub proof fn law_thirty_first_day(d: DateTime)
    requires
        -9999 <= d.year <= 9999,
        d.day == 31,
        d.hour < 24,
        d.minute < 60,
        d.second < 60,
        d.nanosecond == 0,
    ensures
        (d.month == 1 || d.month == 3 || d.month == 5 || d.month == 7 || d.month == 8 || d.month
            == 10 || d.month == 12) ==> spec_parse(spec_format(d)) == Some(d),
        (d.month == 4 || d.month == 6 || d.month == 9 || d.month == 11) ==> spec_parse(
            spec_format(d),
        ) is None,
{
    if d.month < 100 {
        lemma_format_fields(d);
    }
}

/// Reading accepts the 29th of February exactly in leap years.
pub proof fn law_leap_day(d: DateTime)
    requires
        -9999 <= d.year <= 9999,
        d.month == 2,
        d.day == 29,
        d.hour < 24,
        d.minute < 60,
        d.second < 60,
        d.nanosecond == 0,
    ensures
        spec_parse(spec_format(d)) is Some <==> is_leap_year(d.year as int),
{
    lemma_format_fields(d);
}

/// A digit character is the character of its value.
pub proof fn lemma_digit_char_of_value(c: char)
    requires
        is_digit(c),
    ensures
        digit_char(digit_value(c)) == c,
        0 <= digit_value(c) < 10,
{
}

proof fn lemma_two_digits_write(s: Seq<char>, start: int)
    requires
        0 <= start,
        start + 2 <= s.len(),
        digits_at(s, start, 2),
    ensures
        0 <= number_at(s, start, 2) < 100,
        s.subrange(start, start + 2) == two_digits(number_at(s, start, 2)),
{
    assert(is_digit(s[start + 0]));
    assert(is_digit(s[start + 1]));
    lemma_digit_char_of_value(s[start]);
    lemma_digit_char_of_value(s[start + 1]);
    reveal_with_fuel(number_at, 3);
    assert(s.subrange(start, start + 2) =~= two_digits(number_at(s, start, 2)));
}

proof fn lemma_four_digits_write(s: Seq<char>, start: int)
    requires
        0 <= start,
        start + 4 <= s.len(),
        digits_at(s, start, 4),
    ensures
        0 <= number_at(s, start, 4) < 10000,
        s.subrange(start, start + 4) == four_digits(number_at(s, start, 4)),
{
    assert(is_digit(s[start + 0]));
    assert(is_digit(s[start + 1]));
    assert(is_digit(s[start + 2]));
    assert(is_digit(s[start + 3]));
    lemma_digit_char_of_value(s[start]);
    lemma_digit_char_of_value(s[start + 1]);
    lemma_digit_char_of_value(s[start + 2]);
    lemma_digit_char_of_value(s[start + 3]);
    reveal_with_fuel(number_at, 5);
    let n = number_at(s, start, 4);
    let d0 = digit_value(s[start]);
    let d1 = digit_value(s[start + 1]);
    let d2 = digit_value(s[start + 2]);
    let d3 = digit_value(s[start + 3]);
    assert(n == d0 * 1000 + d1 * 100 + d2 * 10 + d3);
    assert(n / 1000 == d0);
    assert((n / 100) % 10 == d1);
    assert((n / 10) % 10 == d2);
    assert(n % 10 == d3);
    assert(s.subrange(start, start + 4) =~= four_digits(n));
}

/// Writing a timestamp that was read gives the text back, for every text
/// in the form that writing produces: no plus sign, and no minus sign
/// before year zero.
pub proof fn lemma_format_parse(s: Seq<char>)
    requires
        spec_parse(s) is Some,
        s[0] != '+',
        !(s[0] == '-' && spec_parse(s)->0.year == 0),
    ensures
        spec_format(spec_parse(s)->0) == s,
{
    let d = spec_parse(s)->0;
    let o = sign_len(s);
    lemma_four_digits_write(s, o);
    lemma_two_digits_write(s, o + 5);
    lemma_two_digits_write(s, o + 8);
    lemma_two_digits_write(s, o + 11);
    lemma_two_digits_write(s, o + 14);
    lemma_two_digits_write(s, o + 17);
    let y = d.year as int;
    let magnitude = number_at(s, o, 4);
    if o == 1 {
        assert(s[0] == '-');
        assert(y == -magnitude);
        assert(year_text(y) =~= s.subrange(0, 5));
    } else {
        assert(y == magnitude);
        assert(year_text(y) =~= s.subrange(0, 4));
    }
    assert(spec_format(d) =~= s);
}

/// `String::push`: appends one character.
#[verifier::external_body]
fn push_char(s: &mut String, c: char)
    ensures
        final(s)@ == old(s)@.push(c),
{
    s.push(c);
}

fn push_digit(s: &mut String, d: u32)
    requires
        d < 10,
    ensures
        final(s)@ == old(s)@.push(digit_char(d as int)),
{
    let b: u8 = 48u8 + (d as u8);
    push_char(s, b as char);
}

fn push_two_digits(s: &mut String, n: u8)
    requires
        n < 100,
    ensures
        final(s)@ == old(s)@ + two_digits(n as int),
{
    push_digit(s, (n / 10) as u32);
    push_digit(s, (n % 10) as u32);
}

fn push_four_digits(s: &mut String, n: u32)
    requires
        n < 10000,
    ensures
        final(s)@ == old(s)@ + four_digits(n as int),
{
    push_digit(s, n / 1000);
    push_digit(s, (n / 100) % 10);
    push_digit(s, (n / 10) % 10);
    push_digit(s, n % 10);
}

/// Writes a timestamp as `YYYY-MM-DD HH:MM:SS` (a minus sign before the year
/// for years before year zero).
pub fn format_datetime(d: &DateTime) -> (s: String)
    requires
        d.wf(),
    ensures
        s@ == spec_format(*d),
{
    let mut s = String::new();
    let magnitude: u32 = if d.year < 0 {
        push_char(&mut s, '-');
        (0 - d.year) as u32
    } else {
        d.year as u32
    };
    push_four_digits(&mut s, magnitude);
    push_char(&mut s, '-');
    push_two_digits(&mut s, d.month);
    push_char(&mut s, '-');
    push_two_digits(&mut s, d.day);
    push_char(&mut s, ' ');
    push_two_digits(&mut s, d.hour);
    push_char(&mut s, ':');
    push_two_digits(&mut s, d.minute);
    push_char(&mut s, ':');
    push_two_digits(&mut s, d.second);
    s
}


/// Whether `year` is a leap year.
pub fn leap_year(year: i32) -> (r: bool)
    ensures
        r == is_leap_year(year as int),
{
    (year % 4 == 0 && year % 100 != 0) || year % 400 == 0
}

/// The number of days of a month (1 to 12) of a year.
pub fn month_length(year: i32, month: u8) -> (r: u8)
    ensures
        r == days_in_month(year as int, month as int),
{
    if month == 2 {
        if leap_year(year) { 29 } else { 28 }
    } else if month == 4 || month == 6 || month == 9 || month == 11 {
        30
    } else {
        31
    }
}

impl DateTime {
    /// Whether the value denotes an existing moment of the supported range.
    pub fn is_valid(&self) -> (r: bool)
        ensures
            r == self.wf(),
    {
        -9999 <= self.year && self.year <= 9999 && 1 <= self.month && self.month <= 12
            && 1 <= self.day && self.day <= month_length(self.year, self.month)
            && self.hour < 24 && self.minute < 60 && self.second < 60
            && self.nanosecond < 1_000_000_000
    }
}

/// Reads `n` decimal digits at position `start`, if they are all digits.
fn read_number(s: &str, start: usize, n: usize) -> (r: Option<u32>)
    requires
        start + n <= s@.len(),
        start + n <= 20,
        n <= 4,
    ensures
        r is Some <==> digits_at(s@, start as int, n as int),
        r matches Some(v) ==> v == number_at(s@, start as int, n as nat) && v < pow10(n as nat),
{
    let mut value: u32 = 0;
    let mut i: usize = 0;
    while i < n
        invariant
            start + n <= s@.len(),
            start + n <= 20,
            n <= 4,
            i <= n,
            digits_at(s@, start as int, i as int),
            value == number_at(s@, start as int, i as nat),
            value < 10000,
            i == 0 ==> value == 0,
            i > 0 ==> value < pow10(i as nat),
        decreases n - i,
    {
        let c = s.get_char(start + i);
        if c < '0' || c > '9' {
            assert(!is_digit(s@[start + i]));
            return None;
        }
        let d: u32 = (c as u32) - 48;
        proof {
            assert(number_at(s@, start as int, (i + 1) as nat) == value * 10 + d);
            lemma_pow10_step(i as nat);
        }
        value = value * 10 + d;
        i = i + 1;
    }
    proof {
        if n == 0 {
            reveal_with_fuel(pow10, 1);
        }
    }
    Some(value)
}

pub open spec fn pow10(n: nat) -> int
    decreases n,
{
    if n == 0 { 1 } else { 10 * pow10((n - 1) as nat) }
}

proof fn lemma_pow10_step(n: nat)
    ensures
        pow10(n + 1) == 10 * pow10(n),
        n <= 3 ==> pow10(n + 1) <= 10000,
{
    reveal_with_fuel(pow10, 5);
}

/// Reads a timestamp written as `YYYY-MM-DD HH:MM:SS`, with an optional sign
/// before the year; the text must end after the seconds and denote an
/// existing moment.
pub fn parse_datetime(s: &str) -> (r: Option<DateTime>)
    ensures
        r == spec_parse(s@),
{
    let len = s.unicode_len();
    let mut o: usize = 0;
    let mut negative = false;
    if len > 0 {
        let c = s.get_char(0);
        if c == '-' || c == '+' {
            o = 1;
            negative = c == '-';
        }
    }
    assert(o == sign_len(s@));
    if len != o + 19 {
        return None;
    }
    proof {
        reveal_with_fuel(pow10, 5);
    }
    let year = read_number(s, o, 4);
    let month = read_number(s, o + 5, 2);
    let day = read_number(s, o + 8, 2);
    let hour = read_number(s, o + 11, 2);
    let minute = read_number(s, o + 14, 2);
    let second = read_number(s, o + 17, 2);
    let layout_ok = s.get_char(o + 4) == '-' && s.get_char(o + 7) == '-'
        && s.get_char(o + 10) == ' ' && s.get_char(o + 13) == ':'
        && s.get_char(o + 16) == ':';
    match (year, month, day, hour, minute, second) {
        (Some(y), Some(mo), Some(d), Some(h), Some(mi), Some(se)) => {
            if !layout_ok {
                return None;
            }
            assert(has_layout(s@));
            let magnitude = y as i32;
            let dt = DateTime {
                year: if negative { 0 - magnitude } else { magnitude },
                month: mo as u8,
                day: d as u8,
                hour: h as u8,
                minute: mi as u8,
                second: se as u8,
                nanosecond: 0,
            };
            assert(dt == fields_of(s@));
            if dt.is_valid() {
                Some(dt)
            } else {
                None
            }
        },
        _ => None,
    }
}


/// `time::OffsetDateTime::now_utc`, taken apart into its calendar fields.
/// The clock decides the value; what is claimed is only that the `time`
/// crate hands out an existing moment of its year range (it keeps every
/// `Date` and `Time` valid, and without its `large-dates` feature the year
/// lies between -9999 and 9999).
#[verifier::external_body]
fn utc_now() -> (r: DateTime)
    ensures
        r.wf(),
{
    let now = time::OffsetDateTime::now_utc();
    DateTime {
        year: now.year(),
        month: u8::from(now.month()),
        day: now.day(),
        hour: now.hour(),
        minute: now.minute(),
        second: now.second(),
        nanosecond: now.nanosecond(),
    }
}

/// The timestamp that a record gets when the request leaves it out: the
/// current UTC time.
pub fn default_datetime() -> (r: DateTime)
    ensures
        r.wf(),
{
    utc_now()
}

} // verus!
