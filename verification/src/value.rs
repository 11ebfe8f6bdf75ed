//! Values, keys and column types, with their orders.
//!
//! Floating point values are held by their IEEE 754 binary64 bits. The order of two
//! floats is decided on those bits; any other floating point operation is answered
//! from outside (see the `facts` module).

use crate::text;
use vstd::prelude::*;
use vstd::std_specs::cmp::PartialEqSpecImpl;
use vstd::string::*;

verus! {

/// The outcome of a comparison.
#[derive(Clone, Copy, Debug, PartialEq, Eq, Structural)]
pub enum Order {
    Less,
    Equal,
    Greater,
}

/// The order of two integers.
pub open spec fn int_order(a: int, b: int) -> Order {
    if a < b {
        Order::Less
    } else if a == b {
        Order::Equal
    } else {
        Order::Greater
    }
}

/// The opposite outcome.
pub open spec fn reversed(o: Order) -> Order {
    match o {
        Order::Less => Order::Greater,
        Order::Equal => Order::Equal,
        Order::Greater => Order::Less,
    }
}

/// The outcome `first`, or `second` where the first comparison ties.
pub open spec fn or_else(first: Order, second: Order) -> Order {
    if first == Order::Equal {
        second
    } else {
        first
    }
}

impl Order {
    /// The opposite outcome.
    pub fn reverse(self) -> (out: Order)
        ensures
            out == reversed(self),
    {
        match self {
            Order::Less => Order::Greater,
            Order::Equal => Order::Equal,
            Order::Greater => Order::Less,
        }
    }
}

/// Compares two integers.
pub fn compare_ints(a: i64, b: i64) -> (out: Order)
    ensures
        out == int_order(a as int, b as int),
{
    if a < b {
        Order::Less
    } else if a == b {
        Order::Equal
    } else {
        Order::Greater
    }
}

// ---------------------------------------------------------------- text and bytes

/// Lexicographic order, by code point, of two texts from position `i` on.
pub open spec fn text_order_from(a: Seq<char>, b: Seq<char>, i: int) -> Order
    decreases a.len() - i,
{
    if i >= a.len() {
        if i >= b.len() {
            Order::Equal
        } else {
            Order::Less
        }
    } else if i >= b.len() {
        Order::Greater
    } else if a[i] == b[i] {
        text_order_from(a, b, i + 1)
    } else {
        int_order(a[i] as int, b[i] as int)
    }
}

/// Lexicographic order of two texts, by code point.
pub open spec fn text_order(a: Seq<char>, b: Seq<char>) -> Order {
    text_order_from(a, b, 0)
}

/// Lexicographic order of two byte strings from position `i` on.
pub open spec fn bytes_order_from(a: Seq<u8>, b: Seq<u8>, i: int) -> Order
    decreases a.len() - i,
{
    if i >= a.len() {
        if i >= b.len() {
            Order::Equal
        } else {
            Order::Less
        }
    } else if i >= b.len() {
        Order::Greater
    } else if a[i] == b[i] {
        bytes_order_from(a, b, i + 1)
    } else {
        int_order(a[i] as int, b[i] as int)
    }
}

/// Lexicographic order of two byte strings.
pub open spec fn bytes_order(a: Seq<u8>, b: Seq<u8>) -> Order {
    bytes_order_from(a, b, 0)
}

/// Compares two texts.
pub fn compare_texts(a: &str, b: &str) -> (out: Order)
    ensures
        out == text_order(a@, b@),
{
    let x = text::chars_of(a);
    let y = text::chars_of(b);
    let mut i: usize = 0;
    while i < x.len() && i < y.len() && x[i] == y[i]
        invariant
            x@ == a@,
            y@ == b@,
            i <= x@.len(),
            i <= y@.len(),
            text_order(a@, b@) == text_order_from(a@, b@, i as int),
        decreases x@.len() - i,
    {
        i = i + 1;
    }
    if i >= x.len() {
        if i >= y.len() {
            Order::Equal
        } else {
            Order::Less
        }
    } else if i >= y.len() {
        Order::Greater
    } else if x[i] < y[i] {
        Order::Less
    } else {
        Order::Greater
    }
}

/// Compares two byte strings.
pub fn compare_bytes(x: &Vec<u8>, y: &Vec<u8>) -> (out: Order)
    ensures
        out == bytes_order(x@, y@),
{
    let mut i: usize = 0;
    while i < x.len() && i < y.len() && x[i] == y[i]
        invariant
            i <= x@.len(),
            i <= y@.len(),
            bytes_order(x@, y@) == bytes_order_from(x@, y@, i as int),
        decreases x@.len() - i,
    {
        i = i + 1;
    }
    if i >= x.len() {
        if i >= y.len() {
            Order::Equal
        } else {
            Order::Less
        }
    } else if i >= y.len() {
        Order::Greater
    } else if x[i] < y[i] {
        Order::Less
    } else {
        Order::Greater
    }
}

// ---------------------------------------------------------------- floats

/// The sign bit of a binary64 value.
pub const SIGN_BIT: u64 = 0x8000_0000_0000_0000;

/// The bits of positive infinity.
pub const INFINITY_BITS: u64 = 0x7FF0_0000_0000_0000;

/// The bits without the sign: the absolute value.
pub open spec fn float_magnitude(bits: u64) -> int {
    if bits >= SIGN_BIT {
        bits - SIGN_BIT
    } else {
        bits as int
    }
}

/// Whether the bits are those of a NaN.
pub open spec fn float_is_nan(bits: u64) -> bool {
    float_magnitude(bits) > INFINITY_BITS
}

/// Whether the bits are those of a zero, of either sign.
pub open spec fn float_is_zero(bits: u64) -> bool {
    float_magnitude(bits) == 0
}

/// An integer that orders floats other than NaN as their values do.
pub open spec fn float_rank(bits: u64) -> int {
    if bits >= SIGN_BIT {
        -float_magnitude(bits)
    } else {
        float_magnitude(bits)
    }
}

/// The order of two floats; none where one of them is a NaN.
pub open spec fn float_order(a: u64, b: u64) -> Option<Order> {
    if float_is_nan(a) || float_is_nan(b) {
        None
    } else {
        Some(int_order(float_rank(a), float_rank(b)))
    }
}

/// The absolute value of a float.
pub fn float_abs(bits: u64) -> (out: u64)
    ensures
        out == float_magnitude(bits),
{
    if bits >= SIGN_BIT {
        bits - SIGN_BIT
    } else {
        bits
    }
}

/// The float with the opposite sign.
pub open spec fn float_negated(bits: u64) -> u64 {
    if bits >= SIGN_BIT {
        (bits - SIGN_BIT) as u64
    } else {
        (bits + SIGN_BIT) as u64
    }
}

/// The float with the opposite sign.
pub fn negate_float(bits: u64) -> (out: u64)
    ensures
        out == float_negated(bits),
{
    if bits >= SIGN_BIT {
        bits - SIGN_BIT
    } else {
        bits + SIGN_BIT
    }
}

/// Whether a float is a NaN.
pub fn is_nan(bits: u64) -> (out: bool)
    ensures
        out == float_is_nan(bits),
{
    float_abs(bits) > INFINITY_BITS
}

/// Whether a float is zero.
pub fn is_zero(bits: u64) -> (out: bool)
    ensures
        out == float_is_zero(bits),
{
    float_abs(bits) == 0
}

/// Compares two floats by value.
pub fn compare_floats(a: u64, b: u64) -> (out: Option<Order>)
    ensures
        out == float_order(a, b),
{
    if is_nan(a) || is_nan(b) {
        return None;
    }
    let x = float_abs(a);
    let y = float_abs(b);
    let less: bool;
    let equal: bool;
    if a >= SIGN_BIT {
        if b >= SIGN_BIT {
            less = x > y;
            equal = x == y;
        } else {
            less = !(x == 0 && y == 0);
            equal = x == 0 && y == 0;
        }
    } else if b >= SIGN_BIT {
        less = false;
        equal = x == 0 && y == 0;
    } else {
        less = x < y;
        equal = x == y;
    }
    if less {
        Some(Order::Less)
    } else if equal {
        Some(Order::Equal)
    } else {
        Some(Order::Greater)
    }
}

// ---------------------------------------------------------------- dates and times

/// The first day number a date can have.
pub const DATE_MIN_DAYS: i32 = -95746129;

/// The last day number a date can have.
pub const DATE_MAX_DAYS: i32 = 95745399;

/// A calendar date, by its day number (the first of January of year 1 is day 1).
#[derive(Clone, Copy, Debug, PartialEq, Eq, Structural)]
pub struct Date {
    days: i32,
}

/// A time of day: seconds since midnight, and nanoseconds, which reach past one second
/// within a leap second.
#[derive(Clone, Copy, Debug, PartialEq, Eq, Structural)]
pub struct Time {
    secs: u32,
    nanos: u32,
}

/// A date and a time of day.
#[derive(Clone, Copy, Debug, PartialEq, Eq, Structural)]
pub struct Timestamp {
    pub date: Date,
    pub time: Time,
}

/// Whether a day number is one a date can have.
pub open spec fn valid_days(days: int) -> bool {
    DATE_MIN_DAYS <= days <= DATE_MAX_DAYS
}

/// Whether seconds and nanoseconds make a time of day.
pub open spec fn valid_time(secs: int, nanos: int) -> bool {
    &&& 0 <= secs < 86400
    &&& 0 <= nanos < 2_000_000_000
    &&& nanos >= 1_000_000_000 ==> secs % 60 == 59
}

impl Date {
    #[verifier::type_invariant]
    spec fn well_formed(self) -> bool {
        valid_days(self.days as int)
    }

    /// The day number.
    pub closed spec fn day(self) -> i32 {
        self.days
    }

    /// The date with a day number.
    pub closed spec fn of(days: i32) -> Date {
        Date { days }
    }

    /// A date is determined by its day number.
    pub broadcast proof fn lemma_of(d: Date)
        ensures
            Date::of(#[trigger] d.day()) == d,
    {
    }

    /// A date has the day number that it is made of.
    pub proof fn lemma_day(days: i32)
        ensures
            Date::of(days).day() == days,
    {
    }

    /// The date of a day number, where there is one.
    pub fn from_days(days: i32) -> (out: Option<Date>)
        ensures
            out is Some <==> valid_days(days as int),
            out matches Some(d) ==> d.day() == days,
    {
        if DATE_MIN_DAYS <= days && days <= DATE_MAX_DAYS {
            Some(Date { days })
        } else {
            None
        }
    }

    /// The first date.
    pub fn min() -> (out: Date)
        ensures
            out == Date::of(DATE_MIN_DAYS),
            out.day() == DATE_MIN_DAYS,
    {
        Date { days: DATE_MIN_DAYS }
    }

    /// The last date.
    pub fn max() -> (out: Date)
        ensures
            out == Date::of(DATE_MAX_DAYS),
            out.day() == DATE_MAX_DAYS,
    {
        Date { days: DATE_MAX_DAYS }
    }

    /// The day number.
    pub fn days(&self) -> (out: i32)
        ensures
            out == self.day(),
            valid_days(out as int),
    {
        proof {
            use_type_invariant(self);
        }
        self.days
    }
}

impl Time {
    #[verifier::type_invariant]
    spec fn well_formed(self) -> bool {
        valid_time(self.secs as int, self.nanos as int)
    }

    /// The seconds since midnight.
    pub closed spec fn second(self) -> u32 {
        self.secs
    }

    /// The nanoseconds within the second.
    pub closed spec fn nano(self) -> u32 {
        self.nanos
    }

    /// The time of day with these seconds and nanoseconds.
    pub closed spec fn of(secs: u32, nanos: u32) -> Time {
        Time { secs, nanos }
    }

    /// A time of day has the seconds and nanoseconds that it is made of.
    pub proof fn lemma_of(secs: u32, nanos: u32)
        ensures
            Time::of(secs, nanos).second() == secs,
            Time::of(secs, nanos).nano() == nanos,
    {
    }

    /// The time of day with these seconds and nanoseconds, where there is one.
    pub fn from_secs_nanos(secs: u32, nanos: u32) -> (out: Option<Time>)
        ensures
            out is Some <==> valid_time(secs as int, nanos as int),
            out matches Some(t) ==> t.second() == secs && t.nano() == nanos,
    {
        if secs < 86400 && nanos < 2_000_000_000 && (nanos < 1_000_000_000 || secs % 60 == 59) {
            Some(Time { secs, nanos })
        } else {
            None
        }
    }

    /// Midnight, the first time of a day.
    pub fn midnight() -> (out: Time)
        ensures
            out == Time::of(0, 0),
            out.second() == 0,
            out.nano() == 0,
    {
        Time { secs: 0, nanos: 0 }
    }

    /// The last time of a day outside a leap second.
    pub fn last_of_day() -> (out: Time)
        ensures
            out == Time::of(86399, 999_999_999),
            out.second() == 86399,
            out.nano() == 999_999_999,
    {
        Time { secs: 86399, nanos: 999_999_999 }
    }

    /// The seconds since midnight.
    pub fn secs(&self) -> (out: u32)
        ensures
            out == self.second(),
            valid_time(out as int, self.nano() as int),
    {
        proof {
            use_type_invariant(self);
        }
        self.secs
    }

    /// The nanoseconds within the second.
    pub fn nanos(&self) -> (out: u32)
        ensures
            out == self.nano(),
            valid_time(self.second() as int, out as int),
    {
        proof {
            use_type_invariant(self);
        }
        self.nanos
    }
}

/// The order of two dates.
pub open spec fn date_order(a: Date, b: Date) -> Order {
    int_order(a.day() as int, b.day() as int)
}

/// The order of two times of day.
pub open spec fn time_order(a: Time, b: Time) -> Order {
    or_else(
        int_order(a.second() as int, b.second() as int),
        int_order(a.nano() as int, b.nano() as int),
    )
}

/// The order of two timestamps.
pub open spec fn timestamp_order(a: Timestamp, b: Timestamp) -> Order {
    or_else(date_order(a.date, b.date), time_order(a.time, b.time))
}

/// Compares two dates.
pub fn compare_dates(a: &Date, b: &Date) -> (out: Order)
    ensures
        out == date_order(*a, *b),
{
    compare_ints(a.days as i64, b.days as i64)
}

/// Compares two times of day.
pub fn compare_times(a: &Time, b: &Time) -> (out: Order)
    ensures
        out == time_order(*a, *b),
{
    match compare_ints(a.secs as i64, b.secs as i64) {
        Order::Equal => compare_ints(a.nanos as i64, b.nanos as i64),
        other => other,
    }
}

/// Compares two timestamps.
pub fn compare_timestamps(a: &Timestamp, b: &Timestamp) -> (out: Order)
    ensures
        out == timestamp_order(*a, *b),
{
    match compare_dates(&a.date, &b.date) {
        Order::Equal => compare_times(&a.time, &b.time),
        other => other,
    }
}

/// What `chrono::NaiveDate` parses a text to: the day number, or the error's message.
pub uninterp spec fn parsed_date(s: Seq<char>) -> Result<i32, Seq<char>>;

/// What `chrono::NaiveTime` parses a text to: seconds and nanoseconds, or the error's
/// message.
pub uninterp spec fn parsed_time(s: Seq<char>) -> Result<(u32, u32), Seq<char>>;

/// What `chrono::NaiveDateTime` parses a text to: day number, seconds and nanoseconds.
pub uninterp spec fn parsed_timestamp(s: Seq<char>) -> Option<(i32, u32, u32)>;

/// What `chrono::NaiveDateTime::parse_from_str` parses a text to under a format.
pub uninterp spec fn formatted_timestamp(s: Seq<char>, format: Seq<char>) -> Option<(i32, u32, u32)>;

/// The text `chrono` displays for the date of a day number.
pub uninterp spec fn date_text(days: i32) -> Seq<char>;

/// The text `chrono` displays for a time of day.
pub uninterp spec fn time_text(secs: u32, nanos: u32) -> Seq<char>;

/// The text `chrono` displays for a timestamp.
pub uninterp spec fn timestamp_text(days: i32, secs: u32, nanos: u32) -> Seq<char>;

/// `chrono::NaiveDate`'s `FromStr`: the day number of the date, which is one that
/// `NaiveDate` can hold, or the error by its message. The outcome is a function of the
/// text alone.
#[verifier::external_body]
fn chrono_parse_date(s: &str) -> (out: Result<i32, String>)
    ensures
        match out {
            Ok(d) => parsed_date(s@) == Ok::<i32, Seq<char>>(d) && valid_days(d as int),
            Err(m) => parsed_date(s@) == Err::<i32, Seq<char>>(m@),
        },
{
    match s.parse::<chrono::NaiveDate>() {
        Ok(d) => Ok(chrono::Datelike::num_days_from_ce(&d)),
        Err(e) => Err(e.to_string()),
    }
}

/// `chrono::NaiveTime`'s `FromStr`: seconds since midnight and nanoseconds, or the
/// error by its message. The outcome is a function of the text alone.
#[verifier::external_body]
fn chrono_parse_time(s: &str) -> (out: Result<(u32, u32), String>)
    ensures
        match out {
            Ok(t) => parsed_time(s@) == Ok::<(u32, u32), Seq<char>>(t) && valid_time(t.0 as int, t.1 as int),
            Err(m) => parsed_time(s@) == Err::<(u32, u32), Seq<char>>(m@),
        },
{
    match s.parse::<chrono::NaiveTime>() {
        Ok(t) => Ok((chrono::Timelike::num_seconds_from_midnight(&t), chrono::Timelike::nanosecond(&t))),
        Err(e) => Err(e.to_string()),
    }
}

/// `chrono::NaiveDateTime`'s `FromStr`: day number, seconds and nanoseconds where the
/// text is a timestamp. The outcome is a function of the text alone.
#[verifier::external_body]
fn chrono_parse_timestamp(s: &str) -> (out: Option<(i32, u32, u32)>)
    ensures
        out == parsed_timestamp(s@),
        out matches Some(t) ==> valid_days(t.0 as int) && valid_time(t.1 as int, t.2 as int),
{
    match s.parse::<chrono::NaiveDateTime>() {
        Ok(t) => Some((
            chrono::Datelike::num_days_from_ce(&t),
            chrono::Timelike::num_seconds_from_midnight(&t),
            chrono::Timelike::nanosecond(&t),
        )),
        Err(_) => None,
    }
}

/// `chrono::NaiveDateTime::parse_from_str`: day number, seconds and nanoseconds where
/// the text follows the format. The outcome is a function of text and format alone.
#[verifier::external_body]
fn chrono_parse_formatted(s: &str, format: &str) -> (out: Option<(i32, u32, u32)>)
    ensures
        out == formatted_timestamp(s@, format@),
        out matches Some(t) ==> valid_days(t.0 as int) && valid_time(t.1 as int, t.2 as int),
{
    match chrono::NaiveDateTime::parse_from_str(s, format) {
        Ok(t) => Some((
            chrono::Datelike::num_days_from_ce(&t),
            chrono::Timelike::num_seconds_from_midnight(&t),
            chrono::Timelike::nanosecond(&t),
        )),
        Err(_) => None,
    }
}

/// `chrono::NaiveDate`'s `Display`, a function of the day number alone.
#[verifier::external_body]
fn chrono_date_text(days: i32) -> (out: String)
    requires
        valid_days(days as int),
    ensures
        out@ == date_text(days),
{
    chrono::NaiveDate::from_num_days_from_ce_opt(days).unwrap().to_string()
}

/// `chrono::NaiveTime`'s `Display`, a function of seconds and nanoseconds alone.
#[verifier::external_body]
fn chrono_time_text(secs: u32, nanos: u32) -> (out: String)
    requires
        valid_time(secs as int, nanos as int),
    ensures
        out@ == time_text(secs, nanos),
{
    chrono::NaiveTime::from_num_seconds_from_midnight_opt(secs, nanos).unwrap().to_string()
}

/// `chrono::NaiveDateTime`'s `Display`, a function of day number, seconds and
/// nanoseconds alone.
#[verifier::external_body]
fn chrono_timestamp_text(days: i32, secs: u32, nanos: u32) -> (out: String)
    requires
        valid_days(days as int),
        valid_time(secs as int, nanos as int),
    ensures
        out@ == timestamp_text(days, secs, nanos),
{
    let date = chrono::NaiveDate::from_num_days_from_ce_opt(days).unwrap();
    let time = chrono::NaiveTime::from_num_seconds_from_midnight_opt(secs, nanos).unwrap();
    date.and_time(time).to_string()
}

impl Date {
    /// The date a text stands for, or the parser's message.
    pub fn parse(s: &str) -> (out: Result<Date, String>)
        ensures
            match out {
                Ok(d) => parsed_date(s@) == Ok::<i32, Seq<char>>(d.day()) && d == Date::of(d.day()),
                Err(m) => parsed_date(s@) == Err::<i32, Seq<char>>(m@),
            },
    {
        match chrono_parse_date(s) {
            Ok(days) => Ok(Date { days }),
            Err(m) => Err(m),
        }
    }

    /// The text of the date.
    pub fn to_text(&self) -> (out: String)
        ensures
            out@ == date_text(self.day()),
    {
        let days = self.days();
        chrono_date_text(days)
    }
}

impl Time {
    /// The time of day a text stands for, or the parser's message.
    pub fn parse(s: &str) -> (out: Result<Time, String>)
        ensures
            match out {
                Ok(t) => parsed_time(s@) == Ok::<(u32, u32), Seq<char>>((t.second(), t.nano())) && t == Time::of(t.second(), t.nano()),
                Err(m) => parsed_time(s@) == Err::<(u32, u32), Seq<char>>(m@),
            },
    {
        match chrono_parse_time(s) {
            Ok((secs, nanos)) => Ok(Time { secs, nanos }),
            Err(m) => Err(m),
        }
    }

    /// The text of the time of day.
    pub fn to_text(&self) -> (out: String)
        ensures
            out@ == time_text(self.second(), self.nano()),
    {
        let secs = self.secs();
        let nanos = self.nanos();
        chrono_time_text(secs, nanos)
    }
}

/// The timestamp with these parts.
pub open spec fn timestamp_of(parts: (i32, u32, u32)) -> Timestamp {
    Timestamp { date: Date::of(parts.0), time: Time::of(parts.1, parts.2) }
}

/// The parts of the timestamp a text stands for: the standard form is tried first, then
/// a space between date and time, without and with a fraction, then a date alone, which
/// means its midnight.
pub open spec fn timestamp_parts(s: Seq<char>) -> Option<(i32, u32, u32)> {
    if parsed_timestamp(s) is Some {
        parsed_timestamp(s)
    } else if formatted_timestamp(s, "%Y-%m-%d %H:%M:%S"@) is Some {
        formatted_timestamp(s, "%Y-%m-%d %H:%M:%S"@)
    } else if formatted_timestamp(s, "%Y-%m-%d %H:%M:%S%.f"@) is Some {
        formatted_timestamp(s, "%Y-%m-%d %H:%M:%S%.f"@)
    } else {
        match parsed_date(s) {
            Ok(days) => Some((days, 0, 0)),
            Err(_) => None,
        }
    }
}

impl Timestamp {
    /// The timestamp a text stands for.
    pub fn parse(s: &str) -> (out: Option<Timestamp>)
        ensures
            out == (match timestamp_parts(s@) {
                Some(parts) => Some(timestamp_of(parts)),
                None => None,
            }),
    {
        let mut parts = chrono_parse_timestamp(s);
        if parts.is_none() {
            parts = chrono_parse_formatted(s, "%Y-%m-%d %H:%M:%S");
        }
        if parts.is_none() {
            parts = chrono_parse_formatted(s, "%Y-%m-%d %H:%M:%S%.f");
        }
        match parts {
            Some((days, secs, nanos)) => Some(
                Timestamp { date: Date { days }, time: Time { secs, nanos } },
            ),
            None => match Date::parse(s) {
                Ok(date) => Some(Timestamp { date, time: Time::midnight() }),
                Err(_) => None,
            },
        }
    }

    /// The text of the timestamp.
    pub fn to_text(&self) -> (out: String)
        ensures
            out@ == timestamp_text(self.date.day(), self.time.second(), self.time.nano()),
    {
        let days = self.date.days();
        let secs = self.time.secs();
        let nanos = self.time.nanos();
        chrono_timestamp_text(days, secs, nanos)
    }
}

// ---------------------------------------------------------------- decimals

/// The first magnitude that the mantissa of a decimal cannot have.
pub const MANTISSA_LIMIT: i128 = 79_228_162_514_264_337_593_543_950_336;

/// The largest scale of a decimal.
pub const MAX_SCALE: u32 = 28;

/// A decimal number: `mantissa / 10^scale`, with a sign that a zero has too. Two decimals are
/// equal where their values are.
#[derive(Clone, Copy, Debug)]
pub struct Decimal {
    mantissa: i128,
    negative: bool,
    scale: u32,
}

/// Whether mantissa and scale make a decimal.
pub open spec fn valid_decimal(mantissa: int, scale: int) -> bool {
    -MANTISSA_LIMIT < mantissa < MANTISSA_LIMIT && 0 <= scale <= MAX_SCALE
}

/// Whether a mantissa, a sign and a scale make a decimal: the sign is that of the mantissa, where
/// that is not zero.
pub open spec fn valid_parts(p: (i128, bool, u32)) -> bool {
    &&& valid_decimal(p.0 as int, p.2 as int)
    &&& p.0 < 0 ==> p.1
    &&& p.0 > 0 ==> !p.1
}

/// Ten to the power `n`.
pub open spec fn pow10(n: nat) -> int
    decreases n,
{
    if n == 0 {
        1
    } else {
        10 * pow10((n - 1) as nat)
    }
}

/// The order by value of two decimals given by their parts.
pub open spec fn parts_order(a: (i128, bool, u32), b: (i128, bool, u32)) -> Order {
    int_order(a.0 * pow10(b.2 as nat), b.0 * pow10(a.2 as nat))
}

/// The order of two decimals by value.
pub open spec fn decimal_order(a: Decimal, b: Decimal) -> Order {
    parts_order(a.parts(), b.parts())
}

impl PartialEq for Decimal {
    fn eq(&self, other: &Decimal) -> (out: bool) {
        match self.compare(other) {
            Order::Equal => true,
            _ => false,
        }
    }
}

impl PartialEqSpecImpl for Decimal {
    open spec fn obeys_eq_spec() -> bool {
        true
    }

    open spec fn eq_spec(&self, other: &Decimal) -> bool {
        decimal_order(*self, *other) == Order::Equal
    }
}

/// The integer part of `mantissa / 10^scale`, rounded toward zero.
pub open spec fn decimal_trunc(mantissa: int, scale: nat) -> int {
    if mantissa < 0 {
        -((-mantissa) / pow10(scale))
    } else {
        mantissa / pow10(scale)
    }
}

/// What `rust_decimal` parses a text to: mantissa, sign and scale, or the error's message.
pub uninterp spec fn parsed_decimal(s: Seq<char>) -> Result<(i128, bool, u32), Seq<char>>;

/// The text `rust_decimal` displays for a mantissa, a sign and a scale.
pub uninterp spec fn decimal_text(d: (i128, bool, u32)) -> Seq<char>;

/// What `Decimal::checked_add` of `rust_decimal` returns.
pub uninterp spec fn decimal_sum(a: (i128, bool, u32), b: (i128, bool, u32)) -> Option<(i128, bool, u32)>;

/// What `Decimal::checked_sub` of `rust_decimal` returns.
pub uninterp spec fn decimal_difference(a: (i128, bool, u32), b: (i128, bool, u32)) -> Option<(i128, bool, u32)>;

/// What `Decimal::checked_mul` of `rust_decimal` returns.
pub uninterp spec fn decimal_product(a: (i128, bool, u32), b: (i128, bool, u32)) -> Option<(i128, bool, u32)>;

/// What `Decimal::checked_div` of `rust_decimal` returns.
pub uninterp spec fn decimal_quotient(a: (i128, bool, u32), b: (i128, bool, u32)) -> Option<(i128, bool, u32)>;

/// `rust_decimal::Decimal`'s `FromStr`, a function of the text alone; the error is given
/// by its message.
#[verifier::external_body]
fn rust_decimal_parse(s: &str) -> (out: Result<(i128, bool, u32), String>)
    ensures
        match out {
            Ok(d) => parsed_decimal(s@) == Ok::<(i128, bool, u32), Seq<char>>(d) && valid_parts(d),
            Err(m) => parsed_decimal(s@) == Err::<(i128, bool, u32), Seq<char>>(m@),
        },
{
    match s.parse::<rust_decimal::Decimal>() {
        Ok(d) => Ok((d.mantissa(), d.is_sign_negative(), d.scale())),
        Err(e) => Err(e.to_string()),
    }
}

/// `rust_decimal::Decimal`'s `Display`, a function of mantissa, sign and scale alone.
#[verifier::external_body]
fn rust_decimal_text(p: (i128, bool, u32)) -> (out: String)
    requires
        valid_parts(p),
    ensures
        out@ == decimal_text(p),
{
    let mut d = rust_decimal::Decimal::from_i128_with_scale(p.0, p.2);
    d.set_sign_negative(p.1);
    d.to_string()
}

/// `rust_decimal::Decimal::checked_add`, a function of the operands alone.
#[verifier::external_body]
fn rust_decimal_add(x: (i128, bool, u32), y: (i128, bool, u32)) -> (out: Option<(i128, bool, u32)>)
    requires
        valid_parts(x),
        valid_parts(y),
    ensures
        out == decimal_sum(x, y),
        out matches Some(d) ==> valid_parts(d),
{
    let mut a = rust_decimal::Decimal::from_i128_with_scale(x.0, x.2);
    let mut b = rust_decimal::Decimal::from_i128_with_scale(y.0, y.2);
    a.set_sign_negative(x.1);
    b.set_sign_negative(y.1);
    a.checked_add(b).map(|d| (d.mantissa(), d.is_sign_negative(), d.scale()))
}

/// `rust_decimal::Decimal::checked_sub`, a function of the operands alone.
#[verifier::external_body]
fn rust_decimal_sub(x: (i128, bool, u32), y: (i128, bool, u32)) -> (out: Option<(i128, bool, u32)>)
    requires
        valid_parts(x),
        valid_parts(y),
    ensures
        out == decimal_difference(x, y),
        out matches Some(d) ==> valid_parts(d),
{
    let mut a = rust_decimal::Decimal::from_i128_with_scale(x.0, x.2);
    let mut b = rust_decimal::Decimal::from_i128_with_scale(y.0, y.2);
    a.set_sign_negative(x.1);
    b.set_sign_negative(y.1);
    a.checked_sub(b).map(|d| (d.mantissa(), d.is_sign_negative(), d.scale()))
}

/// `rust_decimal::Decimal::checked_mul`, a function of the operands alone.
#[verifier::external_body]
fn rust_decimal_mul(x: (i128, bool, u32), y: (i128, bool, u32)) -> (out: Option<(i128, bool, u32)>)
    requires
        valid_parts(x),
        valid_parts(y),
    ensures
        out == decimal_product(x, y),
        out matches Some(d) ==> valid_parts(d),
{
    let mut a = rust_decimal::Decimal::from_i128_with_scale(x.0, x.2);
    let mut b = rust_decimal::Decimal::from_i128_with_scale(y.0, y.2);
    a.set_sign_negative(x.1);
    b.set_sign_negative(y.1);
    a.checked_mul(b).map(|d| (d.mantissa(), d.is_sign_negative(), d.scale()))
}

/// `rust_decimal::Decimal::checked_div`, a function of the operands alone.
#[verifier::external_body]
fn rust_decimal_div(x: (i128, bool, u32), y: (i128, bool, u32)) -> (out: Option<(i128, bool, u32)>)
    requires
        valid_parts(x),
        valid_parts(y),
    ensures
        out == decimal_quotient(x, y),
        out matches Some(d) ==> valid_parts(d),
{
    let mut a = rust_decimal::Decimal::from_i128_with_scale(x.0, x.2);
    let mut b = rust_decimal::Decimal::from_i128_with_scale(y.0, y.2);
    a.set_sign_negative(x.1);
    b.set_sign_negative(y.1);
    a.checked_div(b).map(|d| (d.mantissa(), d.is_sign_negative(), d.scale()))
}

/// The order of `rust_decimal::Decimal`: the order of the two numbers by value.
#[verifier::external_body]
fn rust_decimal_order(x: (i128, bool, u32), y: (i128, bool, u32)) -> (out: Order)
    requires
        valid_parts(x),
        valid_parts(y),
    ensures
        out == parts_order(x, y),
{
    let mut a = rust_decimal::Decimal::from_i128_with_scale(x.0, x.2);
    let mut b = rust_decimal::Decimal::from_i128_with_scale(y.0, y.2);
    a.set_sign_negative(x.1);
    b.set_sign_negative(y.1);
    match a.cmp(&b) {
        std::cmp::Ordering::Less => Order::Less,
        std::cmp::Ordering::Equal => Order::Equal,
        std::cmp::Ordering::Greater => Order::Greater,
    }
}

/// `to_i64` of `rust_decimal::Decimal`: the integer part, where it fits an `i64`.
#[verifier::external_body]
fn rust_decimal_to_int(p: (i128, bool, u32)) -> (out: Option<i64>)
    requires
        valid_parts(p),
    ensures
        match out {
            Some(i) => i == decimal_trunc(p.0 as int, p.2 as nat),
            None => !(i64::MIN <= decimal_trunc(p.0 as int, p.2 as nat) <= i64::MAX),
        },
{
    let mut d = rust_decimal::Decimal::from_i128_with_scale(p.0, p.2);
    d.set_sign_negative(p.1);
    rust_decimal::prelude::ToPrimitive::to_i64(&d)
}

/// The decimal with these parts, where there are any.
pub open spec fn opt_decimal(parts: Option<(i128, bool, u32)>) -> Option<Decimal> {
    match parts {
        Some(p) => Some(Decimal::made(p)),
        None => None,
    }
}

impl Decimal {
    #[verifier::type_invariant]
    spec fn well_formed(self) -> bool {
        valid_parts(self.parts())
    }

    /// Mantissa, sign and scale.
    pub closed spec fn parts(self) -> (i128, bool, u32) {
        (self.mantissa, self.negative, self.scale)
    }

    /// The mantissa.
    pub open spec fn numerator(self) -> i128 {
        self.parts().0
    }

    /// The scale: the digits after the decimal point.
    pub open spec fn digits(self) -> u32 {
        self.parts().2
    }

    /// The decimal with these parts.
    pub closed spec fn made(p: (i128, bool, u32)) -> Decimal {
        Decimal { mantissa: p.0, negative: p.1, scale: p.2 }
    }

    /// The decimal with a mantissa and a scale. A zero has no minus sign.
    pub open spec fn of(mantissa: i128, scale: u32) -> Decimal {
        Decimal::made((mantissa, mantissa < 0, scale))
    }

    /// The parts of a decimal that is made of parts are those.
    pub broadcast proof fn lemma_made(p: (i128, bool, u32))
        ensures
            (#[trigger] Decimal::made(p)).parts() == p,
    {
    }

    /// A decimal is made of its parts.
    pub broadcast proof fn lemma_parts(self)
        ensures
            Decimal::made(#[trigger] self.parts()) == self,
    {
    }

    /// The decimal with this mantissa and scale, where there is one.
    pub fn new(mantissa: i128, scale: u32) -> (out: Option<Decimal>)
        ensures
            out is Some <==> valid_decimal(mantissa as int, scale as int),
            out matches Some(d) ==> d == Decimal::of(mantissa, scale),
    {
        Decimal::signed(mantissa, mantissa < 0, scale)
    }

    /// The decimal with this mantissa, sign and scale, where there is one.
    pub fn signed(mantissa: i128, negative: bool, scale: u32) -> (out: Option<Decimal>)
        ensures
            out is Some <==> valid_parts((mantissa, negative, scale)),
            out matches Some(d) ==> d == Decimal::made((mantissa, negative, scale)),
    {
        if -MANTISSA_LIMIT < mantissa && mantissa < MANTISSA_LIMIT && scale <= MAX_SCALE && (mantissa == 0 || negative
            == (mantissa < 0)) {
            Some(Decimal { mantissa, negative, scale })
        } else {
            None
        }
    }

    /// The decimal of an integer.
    pub fn from_int(i: i64) -> (out: Decimal)
        ensures
            out == Decimal::of(i as i128, 0),
    {
        Decimal { mantissa: i as i128, negative: i < 0, scale: 0 }
    }

    /// The mantissa.
    pub fn mantissa(&self) -> (out: i128)
        ensures
            out == self.numerator(),
    {
        self.mantissa
    }

    /// Whether the number has a minus sign. A zero can have one.
    pub fn is_negative(&self) -> (out: bool)
        ensures
            out == self.parts().1,
    {
        self.negative
    }

    /// The scale.
    pub fn scale(&self) -> (out: u32)
        ensures
            out == self.digits(),
    {
        self.scale
    }

    /// Whether two decimals have the same parts.
    pub fn same(&self, other: &Decimal) -> (out: bool)
        ensures
            out == (*self == *other),
    {
        self.mantissa == other.mantissa && self.negative == other.negative && self.scale == other.scale
    }

    /// Whether the number is zero.
    pub fn is_zero(&self) -> (out: bool)
        ensures
            out == (self.numerator() == 0),
    {
        self.mantissa == 0
    }

    /// The smallest decimal.
    pub fn min() -> (out: Decimal)
        ensures
            out == Decimal::of((1 - MANTISSA_LIMIT) as i128, 0),
    {
        Decimal { mantissa: 1 - MANTISSA_LIMIT, negative: true, scale: 0 }
    }

    /// The largest decimal.
    pub fn max() -> (out: Decimal)
        ensures
            out == Decimal::of((MANTISSA_LIMIT - 1) as i128, 0),
    {
        Decimal { mantissa: MANTISSA_LIMIT - 1, negative: false, scale: 0 }
    }

    /// The decimal a text stands for, or the parser's message.
    pub fn parse(s: &str) -> (out: Result<Decimal, String>)
        ensures
            match out {
                Ok(d) => parsed_decimal(s@) == Ok::<(i128, bool, u32), Seq<char>>(d.parts()) && d == Decimal::made(
                    d.parts(),
                ),
                Err(m) => parsed_decimal(s@) == Err::<(i128, bool, u32), Seq<char>>(m@),
            },
    {
        match rust_decimal_parse(s) {
            Ok((mantissa, negative, scale)) => Ok(Decimal { mantissa, negative, scale }),
            Err(m) => Err(m),
        }
    }

    /// The text of the number.
    pub fn to_text(&self) -> (out: String)
        ensures
            out@ == decimal_text(self.parts()),
    {
        proof {
            use_type_invariant(self);
        }
        rust_decimal_text((self.mantissa, self.negative, self.scale))
    }

    /// The sum, where it can be represented.
    pub fn checked_add(&self, other: &Decimal) -> (out: Option<Decimal>)
        ensures
            out == opt_decimal(decimal_sum(self.parts(), other.parts())),
    {
        proof {
            use_type_invariant(self);
            use_type_invariant(other);
        }
        match rust_decimal_add(
            (self.mantissa, self.negative, self.scale),
            (other.mantissa, other.negative, other.scale),
        ) {
            Some((mantissa, negative, scale)) => Some(Decimal { mantissa, negative, scale }),
            None => None,
        }
    }

    /// The difference, where it can be represented.
    pub fn checked_sub(&self, other: &Decimal) -> (out: Option<Decimal>)
        ensures
            out == opt_decimal(decimal_difference(self.parts(), other.parts())),
    {
        proof {
            use_type_invariant(self);
            use_type_invariant(other);
        }
        match rust_decimal_sub(
            (self.mantissa, self.negative, self.scale),
            (other.mantissa, other.negative, other.scale),
        ) {
            Some((mantissa, negative, scale)) => Some(Decimal { mantissa, negative, scale }),
            None => None,
        }
    }

    /// The product, where it can be represented.
    pub fn checked_mul(&self, other: &Decimal) -> (out: Option<Decimal>)
        ensures
            out == opt_decimal(decimal_product(self.parts(), other.parts())),
    {
        proof {
            use_type_invariant(self);
            use_type_invariant(other);
        }
        match rust_decimal_mul(
            (self.mantissa, self.negative, self.scale),
            (other.mantissa, other.negative, other.scale),
        ) {
            Some((mantissa, negative, scale)) => Some(Decimal { mantissa, negative, scale }),
            None => None,
        }
    }

    /// The quotient, where it can be represented.
    pub fn checked_div(&self, other: &Decimal) -> (out: Option<Decimal>)
        ensures
            out == opt_decimal(decimal_quotient(self.parts(), other.parts())),
    {
        proof {
            use_type_invariant(self);
            use_type_invariant(other);
        }
        match rust_decimal_div(
            (self.mantissa, self.negative, self.scale),
            (other.mantissa, other.negative, other.scale),
        ) {
            Some((mantissa, negative, scale)) => Some(Decimal { mantissa, negative, scale }),
            None => None,
        }
    }

    /// Compares two decimals by value.
    pub fn compare(&self, other: &Decimal) -> (out: Order)
        ensures
            out == decimal_order(*self, *other),
    {
        proof {
            use_type_invariant(self);
            use_type_invariant(other);
        }
        rust_decimal_order(
            (self.mantissa, self.negative, self.scale),
            (other.mantissa, other.negative, other.scale),
        )
    }

    /// The integer part, where it fits.
    pub fn to_int(&self) -> (out: Option<i64>)
        ensures
            match out {
                Some(i) => i == decimal_trunc(self.numerator() as int, self.digits() as nat),
                None => !(i64::MIN <= decimal_trunc(self.numerator() as int, self.digits() as nat) <= i64::MAX),
            },
    {
        proof {
            use_type_invariant(self);
        }
        rust_decimal_to_int((self.mantissa, self.negative, self.scale))
    }
}

// ---------------------------------------------------------------- values

/// The type of a column.
#[derive(Clone, Copy, Debug, PartialEq, Eq, Structural)]
pub enum DataType {
    Int,
    Float,
    String,
    Bytes,
    Bool,
    Null,
    Date,
    Time,
    Timestamp,
    Decimal,
}

/// A value of a row. A float is given by its bits.
#[derive(Debug, PartialEq)]
pub enum DbValue {
    Int(i64),
    Float(u64),
    String(String),
    Bytes(Vec<u8>),
    Bool(bool),
    Null,
    Date(Date),
    Time(Time),
    Timestamp(Timestamp),
    Decimal(Decimal),
}

/// The model of a value.
#[verifier::ext_equal]
pub enum ValueV {
    Int(i64),
    Float(u64),
    String(Seq<char>),
    Bytes(Seq<u8>),
    Bool(bool),
    Null,
    Date(Date),
    Time(Time),
    Timestamp(Timestamp),
    Decimal(Decimal),
}

impl View for DbValue {
    type V = ValueV;

    open spec fn view(&self) -> ValueV {
        match self {
            DbValue::Int(i) => ValueV::Int(*i),
            DbValue::Float(f) => ValueV::Float(*f),
            DbValue::String(s) => ValueV::String(s@),
            DbValue::Bytes(b) => ValueV::Bytes(b@),
            DbValue::Bool(b) => ValueV::Bool(*b),
            DbValue::Null => ValueV::Null,
            DbValue::Date(d) => ValueV::Date(*d),
            DbValue::Time(t) => ValueV::Time(*t),
            DbValue::Timestamp(t) => ValueV::Timestamp(*t),
            DbValue::Decimal(d) => ValueV::Decimal(*d),
        }
    }
}

/// A copy of a byte string.
pub fn copy_bytes(b: &Vec<u8>) -> (out: Vec<u8>)
    ensures
        out@ == b@,
{
    let mut out: Vec<u8> = Vec::new();
    for i in 0..b.len()
        invariant
            out@ == b@.take(i as int),
    {
        out.push(b[i]);
        assert(out@ =~= b@.take(i + 1));
    }
    assert(out@ =~= b@);
    out
}

impl Clone for DbValue {
    fn clone(&self) -> (out: Self)
        ensures
            out@ == self@,
    {
        match self {
            DbValue::Int(i) => DbValue::Int(*i),
            DbValue::Float(f) => DbValue::Float(*f),
            DbValue::String(s) => DbValue::String(s.clone()),
            DbValue::Bytes(b) => DbValue::Bytes(copy_bytes(b)),
            DbValue::Bool(b) => DbValue::Bool(*b),
            DbValue::Null => DbValue::Null,
            DbValue::Date(d) => DbValue::Date(*d),
            DbValue::Time(t) => DbValue::Time(*t),
            DbValue::Timestamp(t) => DbValue::Timestamp(*t),
            DbValue::Decimal(d) => DbValue::Decimal(*d),
        }
    }
}

impl DbValue {
    /// A text value.
    pub fn string(s: &str) -> (out: DbValue)
        ensures
            out@ == ValueV::String(s@),
    {
        DbValue::String(s.to_owned())
    }

    /// A byte string.
    pub fn bytes(b: Vec<u8>) -> (out: DbValue)
        ensures
            out@ == ValueV::Bytes(b@),
    {
        DbValue::Bytes(b)
    }

    /// Whether the value is NULL.
    pub fn is_null(&self) -> (out: bool)
        ensures
            out == (self@ is Null),
    {
        match self {
            DbValue::Null => true,
            _ => false,
        }
    }
}

/// The views of a sequence of values.
pub open spec fn values_view(s: Seq<DbValue>) -> Seq<ValueV> {
    s.map_values(|v: DbValue| v@)
}

/// A copy of a list of values.
pub fn copy_values(s: &Vec<DbValue>) -> (out: Vec<DbValue>)
    ensures
        values_view(out@) == values_view(s@),
{
    let mut out: Vec<DbValue> = Vec::new();
    for i in 0..s.len()
        invariant
            out@.len() == i,
            forall|j: int| 0 <= j < i ==> (#[trigger] out@[j])@ == s@[j]@,
    {
        out.push(s[i].clone());
    }
    assert(values_view(out@) =~= values_view(s@));
    out
}

// ---------------------------------------------------------------- keys

/// A key of a table or an index.
#[derive(Debug, PartialEq)]
pub enum DbKey {
    Int(i64),
    String(String),
    Bool(bool),
    Date(Date),
    Time(Time),
    Timestamp(Timestamp),
    Decimal(Decimal),
    Composite(Vec<DbKey>),
}

/// The model of a key.
#[verifier::ext_equal]
pub enum KeyV {
    Int(i64),
    String(Seq<char>),
    Bool(bool),
    Date(Date),
    Time(Time),
    Timestamp(Timestamp),
    Decimal(Decimal),
    Composite(Seq<KeyV>),
}

impl DbKey {
    /// The model of the key.
    pub open spec fn view(&self) -> KeyV
        decreases self,
    {
        match self {
            DbKey::Int(i) => KeyV::Int(*i),
            DbKey::String(s) => KeyV::String(s@),
            DbKey::Bool(b) => KeyV::Bool(*b),
            DbKey::Date(d) => KeyV::Date(*d),
            DbKey::Time(t) => KeyV::Time(*t),
            DbKey::Timestamp(t) => KeyV::Timestamp(*t),
            DbKey::Decimal(d) => KeyV::Decimal(*d),
            DbKey::Composite(parts) => KeyV::Composite(keys_view(parts@)),
        }
    }

    /// A text key.
    pub fn string(s: &str) -> (out: DbKey)
        ensures
            out@ == KeyV::String(s@),
    {
        DbKey::String(s.to_owned())
    }

    /// A key of several parts.
    pub fn composite(parts: Vec<DbKey>) -> (out: DbKey)
        ensures
            out@ == KeyV::Composite(keys_view(parts@)),
    {
        DbKey::Composite(parts)
    }

    /// Compares two keys.
    pub fn compare(&self, other: &DbKey) -> (out: Order)
        ensures
            out == key_order(self@, other@),
        decreases self,
    {
        match (self, other) {
            (DbKey::Int(a), DbKey::Int(b)) => compare_ints(*a, *b),
            (DbKey::String(a), DbKey::String(b)) => compare_texts(a.as_str(), b.as_str()),
            (DbKey::Bool(a), DbKey::Bool(b)) => {
                let x: i64 = if *a { 1 } else { 0 };
                let y: i64 = if *b { 1 } else { 0 };
                compare_ints(x, y)
            },
            (DbKey::Date(a), DbKey::Date(b)) => compare_dates(a, b),
            (DbKey::Time(a), DbKey::Time(b)) => compare_times(a, b),
            (DbKey::Timestamp(a), DbKey::Timestamp(b)) => compare_timestamps(a, b),
            (DbKey::Decimal(a), DbKey::Decimal(b)) => a.compare(b),
            (DbKey::Composite(a), DbKey::Composite(b)) => compare_key_parts(a, b, 0),
            _ => compare_ints(self.rank(), other.rank()),
        }
    }

    /// Whether two keys compare as equal.
    pub fn same(&self, other: &DbKey) -> (out: bool)
        ensures
            out == (key_order(self@, other@) == Order::Equal),
    {
        match self.compare(other) {
            Order::Equal => true,
            _ => false,
        }
    }

    /// The position of the key's kind among the kinds of keys.
    fn rank(&self) -> (out: i64)
        ensures
            out == key_rank(self@),
    {
        match self {
            DbKey::Int(_) => 0,
            DbKey::String(_) => 1,
            DbKey::Bool(_) => 2,
            DbKey::Date(_) => 3,
            DbKey::Time(_) => 4,
            DbKey::Timestamp(_) => 5,
            DbKey::Decimal(_) => 6,
            DbKey::Composite(_) => 7,
        }
    }
}

/// Compares the parts of two composite keys from position `i` on.
fn compare_key_parts(a: &Vec<DbKey>, b: &Vec<DbKey>, i: usize) -> (out: Order)
    ensures
        out == key_parts_order(keys_view(a@), keys_view(b@), i as int),
    decreases a, a@.len() - i,
{
    if i >= a.len() {
        if i >= b.len() {
            Order::Equal
        } else {
            Order::Less
        }
    } else if i >= b.len() {
        Order::Greater
    } else {
        assert(decreases_to!(a@ => a@[i as int]));
        match a[i].compare(&b[i]) {
            Order::Equal => compare_key_parts(a, b, i + 1),
            other => other,
        }
    }
}

impl Clone for DbKey {
    fn clone(&self) -> (out: Self)
        ensures
            out@ == self@,
        decreases self,
    {
        match self {
            DbKey::Int(i) => DbKey::Int(*i),
            DbKey::String(s) => DbKey::String(s.clone()),
            DbKey::Bool(b) => DbKey::Bool(*b),
            DbKey::Date(d) => DbKey::Date(*d),
            DbKey::Time(t) => DbKey::Time(*t),
            DbKey::Timestamp(t) => DbKey::Timestamp(*t),
            DbKey::Decimal(d) => DbKey::Decimal(*d),
            DbKey::Composite(parts) => {
                let mut out: Vec<DbKey> = Vec::new();
                for i in 0..parts.len()
                    invariant
                        out@.len() == i,
                        forall|j: int| 0 <= j < i ==> (#[trigger] out@[j])@ == parts@[j]@,
                        decreases_to!(self => parts@),
                {
                    out.push(parts[i].clone());
                }
                assert(keys_view(out@) =~= keys_view(parts@));
                DbKey::Composite(out)
            },
        }
    }
}

/// The models of a sequence of keys.
pub open spec fn keys_view(s: Seq<DbKey>) -> Seq<KeyV>
    decreases s,
{
    Seq::new(
        s.len(),
        |i: int|
            if 0 <= i < s.len() {
                s[i].view()
            } else {
                arbitrary()
            },
    )
}

/// The position of a key's kind among the kinds of keys.
pub open spec fn key_rank(k: KeyV) -> int {
    match k {
        KeyV::Int(_) => 0,
        KeyV::String(_) => 1,
        KeyV::Bool(_) => 2,
        KeyV::Date(_) => 3,
        KeyV::Time(_) => 4,
        KeyV::Timestamp(_) => 5,
        KeyV::Decimal(_) => 6,
        KeyV::Composite(_) => 7,
    }
}

/// The order of two keys: by value within a kind, by kind otherwise.
pub open spec fn key_order(a: KeyV, b: KeyV) -> Order
    decreases a,
{
    match (a, b) {
        (KeyV::Int(x), KeyV::Int(y)) => int_order(x as int, y as int),
        (KeyV::String(x), KeyV::String(y)) => text_order(x, y),
        (KeyV::Bool(x), KeyV::Bool(y)) => int_order(bool_int(x), bool_int(y)),
        (KeyV::Date(x), KeyV::Date(y)) => date_order(x, y),
        (KeyV::Time(x), KeyV::Time(y)) => time_order(x, y),
        (KeyV::Timestamp(x), KeyV::Timestamp(y)) => timestamp_order(x, y),
        (KeyV::Decimal(x), KeyV::Decimal(y)) => decimal_order(x, y),
        (KeyV::Composite(x), KeyV::Composite(y)) => key_parts_order(x, y, 0),
        _ => int_order(key_rank(a), key_rank(b)),
    }
}

/// The lexicographic order of the parts of two composite keys from position `i` on.
pub open spec fn key_parts_order(a: Seq<KeyV>, b: Seq<KeyV>, i: int) -> Order
    decreases a, a.len() - i,
{
    if i < 0 || i >= a.len() {
        if i >= b.len() {
            Order::Equal
        } else {
            Order::Less
        }
    } else if i >= b.len() {
        Order::Greater
    } else if key_order(a[i], b[i]) == Order::Equal {
        key_parts_order(a, b, i + 1)
    } else {
        key_order(a[i], b[i])
    }
}

/// False is 0 and true is 1.
pub open spec fn bool_int(b: bool) -> int {
    if b {
        1
    } else {
        0
    }
}

} // verus!
