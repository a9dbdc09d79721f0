//! The closed scalar value model: every value a statement can bind or
//! render, together with its literal SQL-text rendering.

use vstd::prelude::*;

use crate::text::{
    append_hex_bytes, i64_to_string, lemma_dec_nat_parses_back, parse_i64_digits,
    parse_u64_digits, spec_all_digits, spec_dec_int, spec_dec_nat, spec_digit, spec_digit_val,
    spec_hex_bytes, spec_parse_int_text, spec_parse_nat, u64_to_string,
};

verus! {

/// Spec-level model of a calendar date.
pub struct DateModel {
    pub year: int,
    pub month: int,
    pub day: int,
}

/// Spec-level model of a time of day.
pub struct TimeModel {
    pub hour: int,
    pub minute: int,
    pub second: int,
}

/// Spec-level model of a combined date and time.
pub struct DateTimeModel {
    pub date: DateModel,
    pub time: TimeModel,
}

/// A calendar date, held as plain year, month and day numbers.
///
/// The ranges are coarse (they allow, e.g., a day 31 in any month): this
/// layer only renders and binds dates, it does not do calendar arithmetic.
#[derive(Debug, Clone, Copy)]
pub struct Date {
    year: u16,
    month: u8,
    day: u8,
}

impl View for Date {
    type V = DateModel;

    closed spec fn view(&self) -> DateModel {
        DateModel { year: self.year as int, month: self.month as int, day: self.day as int }
    }
}

impl Date {
    /// The ranges every `Date` keeps: a four-digit year and plausible
    /// month and day numbers.
    #[verifier::type_invariant]
    pub closed spec fn wf(self) -> bool {
        self.year <= 9999 && 1 <= self.month <= 12 && 1 <= self.day <= 31
    }

    /// Builds a date, rejecting out-of-range parts.
    pub fn new(year: u16, month: u8, day: u8) -> (r: Option<Date>)
        ensures
            (year <= 9999 && 1 <= month <= 12 && 1 <= day <= 31) <==> r is Some,
            r matches Some(d) ==> d@ == (DateModel {
                year: year as int,
                month: month as int,
                day: day as int,
            }),
    {
        if year <= 9999 && 1 <= month && month <= 12 && 1 <= day && day <= 31 {
            Some(Date { year, month, day })
        } else {
            None
        }
    }

    pub fn year(&self) -> (r: u16)
        ensures
            r as int == self@.year,
    {
        self.year
    }

    pub fn month(&self) -> (r: u8)
        ensures
            r as int == self@.month,
    {
        self.month
    }

    pub fn day(&self) -> (r: u8)
        ensures
            r as int == self@.day,
    {
        self.day
    }
}

/// A time of day, held as plain hour, minute and second numbers.
#[derive(Debug, Clone, Copy)]
pub struct Time {
    hour: u8,
    minute: u8,
    second: u8,
}

impl View for Time {
    type V = TimeModel;

    closed spec fn view(&self) -> TimeModel {
        TimeModel { hour: self.hour as int, minute: self.minute as int, second: self.second as int }
    }
}

impl Time {
    /// The ranges every `Time` keeps.
    #[verifier::type_invariant]
    pub closed spec fn wf(self) -> bool {
        self.hour <= 23 && self.minute <= 59 && self.second <= 59
    }

    /// Builds a time of day, rejecting out-of-range parts.
    pub fn new(hour: u8, minute: u8, second: u8) -> (r: Option<Time>)
        ensures
            (hour <= 23 && minute <= 59 && second <= 59) <==> r is Some,
            r matches Some(t) ==> t@ == (TimeModel {
                hour: hour as int,
                minute: minute as int,
                second: second as int,
            }),
    {
        if hour <= 23 && minute <= 59 && second <= 59 {
            Some(Time { hour, minute, second })
        } else {
            None
        }
    }

    pub fn hour(&self) -> (r: u8)
        ensures
            r as int == self@.hour,
    {
        self.hour
    }

    pub fn minute(&self) -> (r: u8)
        ensures
            r as int == self@.minute,
    {
        self.minute
    }

    pub fn second(&self) -> (r: u8)
        ensures
            r as int == self@.second,
    {
        self.second
    }
}

/// A combined date and time of day.
#[derive(Debug, Clone, Copy)]
pub struct DateTime {
    date: Date,
    time: Time,
}

impl View for DateTime {
    type V = DateTimeModel;

    closed spec fn view(&self) -> DateTimeModel {
        DateTimeModel { date: self.date@, time: self.time@ }
    }
}

impl DateTime {
    /// Combines a date and a time of day.
    pub fn new(date: Date, time: Time) -> (r: DateTime)
        ensures
            r@ == (DateTimeModel { date: date@, time: time@ }),
    {
        DateTime { date, time }
    }

    pub fn date(&self) -> (r: Date)
        ensures
            r@ == self@.date,
    {
        self.date
    }

    pub fn time(&self) -> (r: Time)
        ensures
            r@ == self@.time,
    {
        self.time
    }
}

/// Spec-level model of a scalar value: what a `RepoValue` denotes, with
/// every text field viewed as a character sequence.
pub enum ValueModel {
    Null,
    Int(int),
    UInt(nat),
    Date(DateModel),
    Time(TimeModel),
    DateTime(DateTimeModel),
    Str(Seq<char>),
    OwnedString(Seq<char>),
    Bytes(Seq<u8>),
}

/// A scalar database value: the closed union of everything this layer can
/// bind to or render into a statement.
///
/// Equality is variant-sensitive: `Int(1)` and `UInt(1)` are distinct, as
/// are a borrowed and an owned string of the same characters.
#[derive(Debug)]
pub enum RepoValue {
    Null,
    Int(i64),
    UInt(u64),
    Date(Date),
    Time(Time),
    DateTime(DateTime),
    Str(&'static str),
    OwnedString(String),
    Bytes(Vec<u8>),
}

impl View for RepoValue {
    type V = ValueModel;

    open spec fn view(&self) -> ValueModel {
        match self {
            RepoValue::Null => ValueModel::Null,
            RepoValue::Int(n) => ValueModel::Int(*n as int),
            RepoValue::UInt(n) => ValueModel::UInt(*n as nat),
            RepoValue::Date(d) => ValueModel::Date(d@),
            RepoValue::Time(t) => ValueModel::Time(t@),
            RepoValue::DateTime(dt) => ValueModel::DateTime(dt@),
            RepoValue::Str(s) => ValueModel::Str(s@),
            RepoValue::OwnedString(s) => ValueModel::OwnedString(s@),
            RepoValue::Bytes(b) => ValueModel::Bytes(b@),
        }
    }
}

/// `s` wrapped in single quotes.
pub open spec fn spec_quoted(s: Seq<char>) -> Seq<char> {
    seq!['\''] + s + seq!['\'']
}

/// Two-digit, zero-padded decimal rendering, meaningful for `0 <= n < 100`.
pub open spec fn spec_dec2(n: int) -> Seq<char> {
    seq![spec_digit(n / 10), spec_digit(n % 10)]
}

/// Four-digit, zero-padded decimal rendering, meaningful for
/// `0 <= n < 10000`.
pub open spec fn spec_dec4(n: int) -> Seq<char> {
    seq![spec_digit(n / 1000), spec_digit((n / 100) % 10), spec_digit((n / 10) % 10), spec_digit(
        n % 10,
    )]
}

/// `YYYY-MM-DD` rendering of a date.
pub open spec fn spec_render_date(d: DateModel) -> Seq<char> {
    spec_dec4(d.year) + seq!['-'] + spec_dec2(d.month) + seq!['-'] + spec_dec2(d.day)
}

/// `HH:MM:SS` rendering of a time of day.
pub open spec fn spec_render_time(t: TimeModel) -> Seq<char> {
    spec_dec2(t.hour) + seq![':'] + spec_dec2(t.minute) + seq![':'] + spec_dec2(t.second)
}

/// The literal SQL text a value renders to: `NULL` bare, numbers in
/// decimal, strings and temporal values single-quoted, byte strings as a
/// `0x`-prefixed hex string.
pub open spec fn spec_render_value(v: ValueModel) -> Seq<char> {
    match v {
        ValueModel::Null => seq!['N', 'U', 'L', 'L'],
        ValueModel::Int(n) => spec_dec_int(n),
        ValueModel::UInt(n) => spec_dec_nat(n),
        ValueModel::Date(d) => spec_quoted(spec_render_date(d)),
        ValueModel::Time(t) => spec_quoted(spec_render_time(t)),
        ValueModel::DateTime(dt) => spec_quoted(
            spec_render_date(dt.date) + seq![' '] + spec_render_time(dt.time),
        ),
        ValueModel::Str(s) => spec_quoted(s),
        ValueModel::OwnedString(s) => spec_quoted(s),
        ValueModel::Bytes(b) => seq!['0', 'x'] + spec_hex_bytes(b),
    }
}

/// Appends the two-digit rendering of `n` to `out`.
fn append_dec2(out: &mut String, n: u8)
    requires
        n < 100,
    ensures
        final(out)@ == old(out)@ + spec_dec2(n as int),
{
    let tens = crate::text::digit_str((n / 10) as u64);
    let ones = crate::text::digit_str((n % 10) as u64);
    out.append(tens);
    out.append(ones);
}

/// Appends the four-digit rendering of `n` to `out`.
fn append_dec4(out: &mut String, n: u16)
    requires
        n < 10000,
    ensures
        final(out)@ == old(out)@ + spec_dec4(n as int),
{
    out.append(crate::text::digit_str((n / 1000) as u64));
    out.append(crate::text::digit_str(((n / 100) % 10) as u64));
    out.append(crate::text::digit_str(((n / 10) % 10) as u64));
    out.append(crate::text::digit_str((n % 10) as u64));
}

impl Date {
    /// Appends this date's `YYYY-MM-DD` rendering to `out`.
    fn append_render(&self, out: &mut String)
        ensures
            final(out)@ == old(out)@ + spec_render_date(self@),
    {
        proof {
            use_type_invariant(self);
            reveal_strlit("-");
        }
        append_dec4(out, self.year);
        out.append("-");
        append_dec2(out, self.month);
        out.append("-");
        append_dec2(out, self.day);
        proof {
            assert("-"@ =~= seq!['-']);
            assert(out@ =~= old(out)@ + spec_render_date(self@));
        }
    }
}

impl Time {
    /// Appends this time's `HH:MM:SS` rendering to `out`.
    fn append_render(&self, out: &mut String)
        ensures
            final(out)@ == old(out)@ + spec_render_time(self@),
    {
        proof {
            use_type_invariant(self);
            reveal_strlit(":");
        }
        append_dec2(out, self.hour);
        out.append(":");
        append_dec2(out, self.minute);
        out.append(":");
        append_dec2(out, self.second);
        proof {
            assert(":"@ =~= seq![':']);
            assert(out@ =~= old(out)@ + spec_render_time(self@));
        }
    }
}

impl RepoValue {
    /// Appends this value's literal SQL-text rendering to `out`.
    pub fn append_render(&self, out: &mut String)
        ensures
            final(out)@ == old(out)@ + spec_render_value(self@),
    {
        match self {
            RepoValue::Null => {
                proof {
                    reveal_strlit("NULL");
                    assert("NULL"@ =~= seq!['N', 'U', 'L', 'L']);
                }
                out.append("NULL");
            },
            RepoValue::Int(n) => {
                let s = i64_to_string(*n);
                out.append(s.as_str());
            },
            RepoValue::UInt(n) => {
                let s = u64_to_string(*n);
                out.append(s.as_str());
            },
            RepoValue::Date(d) => {
                append_quote(out);
                d.append_render(out);
                append_quote(out);
                proof {
                    assert(out@ =~= old(out)@ + spec_quoted(spec_render_date(d@)));
                }
            },
            RepoValue::Time(t) => {
                append_quote(out);
                t.append_render(out);
                append_quote(out);
                proof {
                    assert(out@ =~= old(out)@ + spec_quoted(spec_render_time(t@)));
                }
            },
            RepoValue::DateTime(dt) => {
                append_quote(out);
                dt.date.append_render(out);
                proof {
                    reveal_strlit(" ");
                    assert(" "@ =~= seq![' ']);
                }
                out.append(" ");
                dt.time.append_render(out);
                append_quote(out);
                proof {
                    assert(out@ =~= old(out)@ + spec_quoted(
                        spec_render_date(dt@.date) + seq![' '] + spec_render_time(dt@.time),
                    ));
                }
            },
            RepoValue::Str(s) => {
                append_quote(out);
                out.append(s);
                append_quote(out);
                proof {
                    assert(out@ =~= old(out)@ + spec_quoted(s@));
                }
            },
            RepoValue::OwnedString(s) => {
                append_quote(out);
                out.append(s.as_str());
                append_quote(out);
                proof {
                    assert(out@ =~= old(out)@ + spec_quoted(s@));
                }
            },
            RepoValue::Bytes(b) => {
                proof {
                    reveal_strlit("0x");
                    assert("0x"@ =~= seq!['0', 'x']);
                }
                out.append("0x");
                append_hex_bytes(out, b);
                proof {
                    assert(out@ =~= old(out)@ + (seq!['0', 'x'] + spec_hex_bytes(b@)));
                }
            },
        }
    }

    /// This value's literal SQL-text rendering, for debugging and logging.
    pub fn render(&self) -> (s: String)
        ensures
            s@ == spec_render_value(self@),
    {
        let mut out = String::new();
        self.append_render(&mut out);
        proof {
            assert(out@ =~= spec_render_value(self@));
        }
        out
    }

    /// Parses the decimal rendering of a signed integer back into `Int`:
    /// the inverse of rendering an `Int`, for every value that fits.
    pub fn parse_int(s: &str) -> (r: Option<RepoValue>)
        ensures
            spec_parse_int_text(s@) is None ==> r is None,
            spec_parse_int_text(s@) matches Some(v) ==> if i64::MIN <= v <= i64::MAX {
                r matches Some(x) && x@ == ValueModel::Int(v)
            } else {
                r is None
            },
    {
        match parse_i64_digits(s) {
            Some(v) => Some(RepoValue::Int(v)),
            None => None,
        }
    }

    /// Parses the decimal rendering of an unsigned integer back into
    /// `UInt`: the inverse of rendering a `UInt`, for every value that
    /// fits.
    pub fn parse_uint(s: &str) -> (r: Option<RepoValue>)
        ensures
            (s@.len() == 0 || !spec_all_digits(s@)) ==> r is None,
            (s@.len() >= 1 && spec_all_digits(s@) && spec_parse_nat(s@) <= u64::MAX) ==> (
            r matches Some(x) && x@ == ValueModel::UInt(spec_parse_nat(s@) as nat)),
            (s@.len() >= 1 && spec_all_digits(s@) && spec_parse_nat(s@) > u64::MAX) ==> r
                is None,
    {
        match parse_u64_digits(s) {
            Some(v) => Some(RepoValue::UInt(v)),
            None => None,
        }
    }

    /// Wraps an optional value, turning absence into `Null`.
    pub fn from_option(v: Option<RepoValue>) -> (r: RepoValue)
        ensures
            v matches Some(x) ==> r == x,
            v is None ==> r == RepoValue::Null,
    {
        match v {
            Some(x) => x,
            None => RepoValue::Null,
        }
    }
}

/// Appends one single-quote character to `out`.
fn append_quote(out: &mut String)
    ensures
        final(out)@ == old(out)@ + seq!['\''],
{
    proof {
        reveal_strlit("'");
        assert("'"@ =~= seq!['\'']);
    }
    out.append("'");
}

impl Clone for RepoValue {
    /// A clone denotes the same scalar value.
    fn clone(&self) -> (r: Self)
        ensures
            r@ == self@,
    {
        match self {
            RepoValue::Null => RepoValue::Null,
            RepoValue::Int(n) => RepoValue::Int(*n),
            RepoValue::UInt(n) => RepoValue::UInt(*n),
            RepoValue::Date(d) => RepoValue::Date(*d),
            RepoValue::Time(t) => RepoValue::Time(*t),
            RepoValue::DateTime(dt) => RepoValue::DateTime(*dt),
            RepoValue::Str(s) => RepoValue::Str(s),
            RepoValue::OwnedString(s) => RepoValue::OwnedString(s.clone()),
            RepoValue::Bytes(b) => {
                let mut copy: Vec<u8> = Vec::new();
                let mut i: usize = 0;
                while i < b.len()
                    invariant
                        0 <= i <= b@.len(),
                        copy@ == b@.take(i as int),
                    decreases b@.len() - i,
                {
                    copy.push(b[i]);
                    proof {
                        assert(b@.take(i as int + 1) =~= b@.take(i as int).push(b@[i as int]));
                    }
                    i = i + 1;
                }
                proof {
                    assert(b@.take(b@.len() as int) =~= b@);
                }
                RepoValue::Bytes(copy)
            },
        }
    }
}

/// Compares two string slices by their characters.
fn str_eq(a: &str, b: &str) -> (r: bool)
    ensures
        r == (a@ == b@),
{
    let sa = a.to_owned();
    let sb = b.to_owned();
    sa == sb
}

/// Compares two byte strings element by element.
fn bytes_eq(a: &Vec<u8>, b: &Vec<u8>) -> (r: bool)
    ensures
        r == (a@ == b@),
{
    if a.len() != b.len() {
        return false;
    }
    let mut i: usize = 0;
    while i < a.len()
        invariant
            0 <= i <= a@.len(),
            a@.len() == b@.len(),
            forall|j: int| 0 <= j < i ==> a@[j] == b@[j],
        decreases a@.len() - i,
    {
        if a[i] != b[i] {
            return false;
        }
        i = i + 1;
    }
    proof {
        assert(a@ =~= b@);
    }
    true
}

impl PartialEq for Date {
    fn eq(&self, other: &Self) -> (r: bool) {
        self.year == other.year && self.month == other.month && self.day == other.day
    }
}

impl vstd::std_specs::cmp::PartialEqSpecImpl for Date {
    open spec fn obeys_eq_spec() -> bool {
        true
    }

    open spec fn eq_spec(&self, other: &Self) -> bool {
        self@ == other@
    }
}

impl PartialEq for Time {
    fn eq(&self, other: &Self) -> (r: bool) {
        self.hour == other.hour && self.minute == other.minute && self.second == other.second
    }
}

impl vstd::std_specs::cmp::PartialEqSpecImpl for Time {
    open spec fn obeys_eq_spec() -> bool {
        true
    }

    open spec fn eq_spec(&self, other: &Self) -> bool {
        self@ == other@
    }
}

impl PartialEq for DateTime {
    fn eq(&self, other: &Self) -> (r: bool) {
        self.date == other.date && self.time == other.time
    }
}

impl vstd::std_specs::cmp::PartialEqSpecImpl for DateTime {
    open spec fn obeys_eq_spec() -> bool {
        true
    }

    open spec fn eq_spec(&self, other: &Self) -> bool {
        self@ == other@
    }
}

impl PartialEq for RepoValue {
    /// Structural, variant-sensitive equality over the denoted values.
    fn eq(&self, other: &Self) -> (r: bool) {
        match (self, other) {
            (RepoValue::Null, RepoValue::Null) => true,
            (RepoValue::Int(a), RepoValue::Int(b)) => *a == *b,
            (RepoValue::UInt(a), RepoValue::UInt(b)) => *a == *b,
            (RepoValue::Date(a), RepoValue::Date(b)) => *a == *b,
            (RepoValue::Time(a), RepoValue::Time(b)) => *a == *b,
            (RepoValue::DateTime(a), RepoValue::DateTime(b)) => *a == *b,
            (RepoValue::Str(a), RepoValue::Str(b)) => str_eq(a, b),
            (RepoValue::OwnedString(a), RepoValue::OwnedString(b)) => a.eq(b),
            (RepoValue::Bytes(a), RepoValue::Bytes(b)) => bytes_eq(a, b),
            _ => false,
        }
    }
}

impl vstd::std_specs::cmp::PartialEqSpecImpl for RepoValue {
    open spec fn obeys_eq_spec() -> bool {
        true
    }

    open spec fn eq_spec(&self, other: &Self) -> bool {
        self@ == other@
    }
}

impl From<bool> for RepoValue {
    /// `true` is stored as `Int(1)`, `false` as `Int(0)`.
    fn from(v: bool) -> (r: Self) {
        RepoValue::Int(if v { 1 } else { 0 })
    }
}

impl vstd::std_specs::convert::FromSpecImpl<bool> for RepoValue {
    open spec fn obeys_from_spec() -> bool {
        true
    }

    open spec fn from_spec(v: bool) -> Self {
        RepoValue::Int(if v { 1 as i64 } else { 0 as i64 })
    }
}

impl From<i32> for RepoValue {
    fn from(v: i32) -> (r: Self) {
        RepoValue::Int(v as i64)
    }
}

impl vstd::std_specs::convert::FromSpecImpl<i32> for RepoValue {
    open spec fn obeys_from_spec() -> bool {
        true
    }

    open spec fn from_spec(v: i32) -> Self {
        RepoValue::Int(v as i64)
    }
}

impl From<i64> for RepoValue {
    fn from(v: i64) -> (r: Self) {
        RepoValue::Int(v)
    }
}

impl vstd::std_specs::convert::FromSpecImpl<i64> for RepoValue {
    open spec fn obeys_from_spec() -> bool {
        true
    }

    open spec fn from_spec(v: i64) -> Self {
        RepoValue::Int(v)
    }
}

impl From<u8> for RepoValue {
    fn from(v: u8) -> (r: Self) {
        RepoValue::UInt(v as u64)
    }
}

impl vstd::std_specs::convert::FromSpecImpl<u8> for RepoValue {
    open spec fn obeys_from_spec() -> bool {
        true
    }

    open spec fn from_spec(v: u8) -> Self {
        RepoValue::UInt(v as u64)
    }
}

impl From<u16> for RepoValue {
    fn from(v: u16) -> (r: Self) {
        RepoValue::UInt(v as u64)
    }
}

impl vstd::std_specs::convert::FromSpecImpl<u16> for RepoValue {
    open spec fn obeys_from_spec() -> bool {
        true
    }

    open spec fn from_spec(v: u16) -> Self {
        RepoValue::UInt(v as u64)
    }
}

impl From<u32> for RepoValue {
    fn from(v: u32) -> (r: Self) {
        RepoValue::UInt(v as u64)
    }
}

impl vstd::std_specs::convert::FromSpecImpl<u32> for RepoValue {
    open spec fn obeys_from_spec() -> bool {
        true
    }

    open spec fn from_spec(v: u32) -> Self {
        RepoValue::UInt(v as u64)
    }
}

impl From<u64> for RepoValue {
    fn from(v: u64) -> (r: Self) {
        RepoValue::UInt(v)
    }
}

impl vstd::std_specs::convert::FromSpecImpl<u64> for RepoValue {
    open spec fn obeys_from_spec() -> bool {
        true
    }

    open spec fn from_spec(v: u64) -> Self {
        RepoValue::UInt(v)
    }
}

impl From<Date> for RepoValue {
    fn from(v: Date) -> (r: Self) {
        RepoValue::Date(v)
    }
}

impl vstd::std_specs::convert::FromSpecImpl<Date> for RepoValue {
    open spec fn obeys_from_spec() -> bool {
        true
    }

    open spec fn from_spec(v: Date) -> Self {
        RepoValue::Date(v)
    }
}

impl From<Time> for RepoValue {
    fn from(v: Time) -> (r: Self) {
        RepoValue::Time(v)
    }
}

impl vstd::std_specs::convert::FromSpecImpl<Time> for RepoValue {
    open spec fn obeys_from_spec() -> bool {
        true
    }

    open spec fn from_spec(v: Time) -> Self {
        RepoValue::Time(v)
    }
}

impl From<DateTime> for RepoValue {
    fn from(v: DateTime) -> (r: Self) {
        RepoValue::DateTime(v)
    }
}

impl vstd::std_specs::convert::FromSpecImpl<DateTime> for RepoValue {
    open spec fn obeys_from_spec() -> bool {
        true
    }

    open spec fn from_spec(v: DateTime) -> Self {
        RepoValue::DateTime(v)
    }
}

impl From<&'static str> for RepoValue {
    /// A borrowed string is stored as the borrowed-string variant.
    fn from(v: &'static str) -> (r: Self) {
        RepoValue::Str(v)
    }
}

impl vstd::std_specs::convert::FromSpecImpl<&'static str> for RepoValue {
    open spec fn obeys_from_spec() -> bool {
        true
    }

    open spec fn from_spec(v: &'static str) -> Self {
        RepoValue::Str(v)
    }
}

impl From<String> for RepoValue {
    /// An owned string is stored as the owned-string variant.
    fn from(v: String) -> (r: Self) {
        RepoValue::OwnedString(v)
    }
}

impl vstd::std_specs::convert::FromSpecImpl<String> for RepoValue {
    open spec fn obeys_from_spec() -> bool {
        true
    }

    open spec fn from_spec(v: String) -> Self {
        RepoValue::OwnedString(v)
    }
}

impl From<Vec<u8>> for RepoValue {
    fn from(v: Vec<u8>) -> (r: Self) {
        RepoValue::Bytes(v)
    }
}

impl vstd::std_specs::convert::FromSpecImpl<Vec<u8>> for RepoValue {
    open spec fn obeys_from_spec() -> bool {
        true
    }

    open spec fn from_spec(v: Vec<u8>) -> Self {
        RepoValue::Bytes(v)
    }
}

/// Round trip: the rendering of `Int(n)` parses back to exactly `n`.
pub proof fn lemma_int_render_parse_round_trip(n: int)
    requires
        i64::MIN <= n <= i64::MAX,
    ensures
        spec_parse_int_text(spec_render_value(ValueModel::Int(n))) == Some(n),
{
    let s = spec_render_value(ValueModel::Int(n));
    if n >= 0 {
        lemma_dec_nat_parses_back(n as nat);
        assert(s == spec_dec_nat(n as nat));
        assert(spec_digit_val(s[0]) >= 0);
        assert(spec_digit_val('-') < 0);
        assert(s[0] != '-');
    } else {
        assert(s == seq!['-'] + spec_dec_nat((-n) as nat));
        assert(s[0] == '-');
        assert(s.skip(1) =~= spec_dec_nat((-n) as nat));
        lemma_dec_nat_parses_back((-n) as nat);
    }
}

/// Round trip: the rendering of `UInt(n)` is a digit string that parses
/// back to exactly `n`.
pub proof fn lemma_uint_render_parse_round_trip(n: nat)
    requires
        n <= u64::MAX,
    ensures
        spec_render_value(ValueModel::UInt(n)).len() >= 1,
        spec_all_digits(spec_render_value(ValueModel::UInt(n))),
        spec_parse_nat(spec_render_value(ValueModel::UInt(n))) == n,
{
    lemma_dec_nat_parses_back(n);
}

} // verus!
