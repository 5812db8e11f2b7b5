//! Timestamps in INDI format (YYYY-MM-DDTHH:MM:SS with an optional fraction).
use vstd::prelude::*;

use crate::error::{Error, Result};
use crate::strings::{
    all_ascii_digits, append, append_decimal, append_decimal2, decimal_text, decimal_text2,
    is_ascii_digit, lemma_decimal_text_value, owned, push_char, to_chars, from_chars,
};

verus! {

/// What chrono's `NaiveDateTime::parse_from_str(s, "%Y-%m-%dT%H:%M:%S")`
/// gives for a text: the year, month, day, hour, minute and second it reads,
/// or the text of its error.
pub uninterp spec fn calendar_parse(s: Seq<char>) -> core::result::Result<
    (i32, u32, u32, u32, u32, u32),
    Seq<char>,
>;

/// Whether a year of the proleptic Gregorian calendar is a leap year.
pub open spec fn is_leap_year(y: int) -> bool {
    y % 4 == 0 && (y % 100 != 0 || y % 400 == 0)
}

/// The number of days of a month (1 to 12) of a year.
pub open spec fn days_in_month(y: int, m: int) -> int {
    if m == 2 {
        if is_leap_year(y) {
            29
        } else {
            28
        }
    } else if m == 4 || m == 6 || m == 9 || m == 11 {
        30
    } else {
        31
    }
}

/// Whether year, month, day, hour, minute and second name a date and time
/// of the years 0 to 9999 (no leap second).
pub open spec fn valid_fields(f: (i32, u32, u32, u32, u32, u32)) -> bool {
    &&& 0 <= f.0 <= 9999
    &&& 1 <= f.1 <= 12
    &&& 1 <= f.2 <= days_in_month(f.0 as int, f.1 as int)
    &&& f.3 < 24
    &&& f.4 < 60
    &&& f.5 < 60
}

/// The text `YYYY-MM-DDTHH:MM:SS` of calendar fields, every field
/// zero-padded to its width.
pub open spec fn fields_text(f: (i32, u32, u32, u32, u32, u32)) -> Seq<char> {
    pad4(f.0 as nat) + seq!['-'] + decimal_text2(f.1 as nat) + seq!['-'] + decimal_text2(
        f.2 as nat,
    ) + seq!['T'] + decimal_text2(f.3 as nat) + seq![':'] + decimal_text2(f.4 as nat) + seq![':']
        + decimal_text2(f.5 as nat)
}

/// Whether a reading of a text gives exactly the calendar fields the text
/// writes, whenever it writes valid fields as `fields_text` does.
pub open spec fn reads_written_fields(
    text: Seq<char>,
    r: core::result::Result<(i32, u32, u32, u32, u32, u32), String>,
) -> bool {
    forall|f: (i32, u32, u32, u32, u32, u32)|
        valid_fields(f) && #[trigger] fields_text(f) == text ==> (r matches Ok(g) && g == f)
}

/// Calls `chrono::NaiveDateTime::parse_from_str` with the pattern
/// `%Y-%m-%dT%H:%M:%S` and returns the calendar fields it read, or its error
/// text. The contract names the outcome, and states one fact of chrono's
/// parser: a text that writes a valid date and time with a four-digit year
/// and two-digit fields (`%Y` reads up to four unsigned digits, the others
/// up to two) is read as exactly those fields. Chrono's other parsing rules
/// and its error texts are not restated.
#[verifier::external_body]
fn parse_calendar(whole: &str) -> (r: core::result::Result<(i32, u32, u32, u32, u32, u32), String>)
    ensures
        match r {
            Ok(f) => calendar_parse(whole@) == Ok::<(i32, u32, u32, u32, u32, u32), Seq<char>>(f),
            Err(m) => calendar_parse(whole@) == Err::<(i32, u32, u32, u32, u32, u32), Seq<char>>(m@),
        },
        reads_written_fields(whole@, r),
{
    match chrono::NaiveDateTime::parse_from_str(whole, "%Y-%m-%dT%H:%M:%S") {
        Ok(dt) => Ok((
            chrono::Datelike::year(&dt),
            chrono::Datelike::month(&dt),
            chrono::Datelike::day(&dt),
            chrono::Timelike::hour(&dt),
            chrono::Timelike::minute(&dt),
            chrono::Timelike::second(&dt),
        )),
        Err(e) => Err(e.to_string()),
    }
}

/// Represents a timestamp in INDI format (YYYY-MM-DDTHH:MM:SS.S).
/// The decimal places in seconds are optional and kept exactly as given.
#[derive(Debug, Clone, PartialEq, Eq)]
pub struct INDITimestamp {
    year: i32,
    month: u32,
    day: u32,
    hour: u32,
    minute: u32,
    second: u32,
    decimal: Option<String>,
}

/// The text of a year as chrono's `%Y` writes it: four digits, zero-padded,
/// for years 0 to 9999; otherwise a sign and at least four digits.
pub open spec fn year_text(y: i32) -> Seq<char> {
    if 0 <= y && y <= 9999 {
        pad4(y as nat)
    } else if y > 9999 {
        seq!['+'] + decimal_text(y as nat)
    } else {
        seq!['-'] + pad4((-y) as nat)
    }
}

/// The decimal text of a number, zero-padded on the left to four characters.
pub open spec fn pad4(n: nat) -> Seq<char> {
    if n < 10 {
        seq!['0', '0', '0'] + decimal_text(n)
    } else if n < 100 {
        seq!['0', '0'] + decimal_text(n)
    } else if n < 1000 {
        seq!['0'] + decimal_text(n)
    } else {
        decimal_text(n)
    }
}

/// The seconds-resolution part of a timestamp's text.
pub open spec fn calendar_text(t: INDITimestamp) -> Seq<char> {
    year_text(t.year()) + seq!['-'] + decimal_text2(t.month() as nat) + seq!['-'] + decimal_text2(
        t.day() as nat,
    ) + seq!['T'] + decimal_text2(t.hour() as nat) + seq![':'] + decimal_text2(t.minute() as nat)
        + seq![':'] + decimal_text2(t.second() as nat)
}

/// The text of a timestamp: the calendar part and, when present, a dot and
/// the fraction digits.
pub open spec fn timestamp_text(t: INDITimestamp) -> Seq<char> {
    match t.decimal_spec() {
        Some(d) => calendar_text(t) + seq!['.'] + d@,
        None => calendar_text(t),
    }
}

/// Whether a character may appear in a timestamp text: ASCII digits and `.:-T`.
pub open spec fn timestamp_char(c: char) -> bool {
    is_ascii_digit(c) || c == '.' || c == ':' || c == '-' || c == 'T'
}

/// The index of the first `.` in a text, or its length.
pub open spec fn first_dot(s: Seq<char>) -> nat
    decreases s.len(),
{
    if s.len() == 0 {
        0
    } else if s[0] == '.' {
        0
    } else {
        1 + first_dot(s.drop_first())
    }
}

proof fn lemma_first_dot(s: Seq<char>, k: int)
    requires
        0 <= k <= s.len(),
        forall|j: int| 0 <= j < k ==> #[trigger] s[j] != '.',
        k < s.len() ==> s[k] == '.',
    ensures
        first_dot(s) == k,
    decreases k,
{
    if k > 0 {
        assert forall|j: int| 0 <= j < k - 1 implies #[trigger] s.drop_first()[j] != '.' by {
            assert(s.drop_first()[j] == s[j + 1]);
        }
        lemma_first_dot(s.drop_first(), k - 1);
    }
}

/// Whether a text parses as the given timestamp: its characters are
/// allowed, the text after its first `.` (if any) is a non-empty run of
/// digits that the timestamp keeps as its fraction, and chrono reads the
/// text before it as the timestamp's calendar fields.
pub open spec fn parsed_as(s: Seq<char>, t: INDITimestamp) -> bool {
    let k = first_dot(s) as int;
    let frac = s.skip(k + 1);
    &&& forall|i: int| 0 <= i < s.len() ==> timestamp_char(#[trigger] s[i])
    &&& calendar_parse(s.take(k)) == Ok::<(i32, u32, u32, u32, u32, u32), Seq<char>>(
        (t.year(), t.month(), t.day(), t.hour(), t.minute(), t.second()),
    )
    &&& if k < s.len() {
        frac.len() > 0 && all_ascii_digits(frac) && (t.decimal_spec() matches Some(d) && d@ == frac)
    } else {
        t.decimal_spec() is None
    }
}

/// The first `.` of a text, when it has one, is at `first_dot`.
proof fn lemma_first_dot_at(s: Seq<char>)
    ensures
        first_dot(s) <= s.len(),
        first_dot(s) < s.len() ==> s[first_dot(s) as int] == '.',
    decreases s.len(),
{
    if s.len() > 0 && s[0] != '.' {
        lemma_first_dot_at(s.drop_first());
    }
}

/// Printing a parsed timestamp gives back the text it was parsed from,
/// when the calendar part of the text is written the way the timestamp
/// prints it (four-digit year, two-digit fields).
pub proof fn lemma_timestamp_text_roundtrip(s: Seq<char>, t: INDITimestamp)
    requires
        parsed_as(s, t),
        calendar_text(t) == s.take(first_dot(s) as int),
    ensures
        timestamp_text(t) == s,
{
    lemma_first_dot_at(s);
    let k = first_dot(s) as int;
    if k < s.len() {
        assert(s =~= s.take(k) + seq!['.'] + s.skip(k + 1));
    } else {
        assert(s.take(k) =~= s);
    }
}

/// Whether a text is written the way timestamps print: a valid date and
/// time as `YYYY-MM-DDTHH:MM:SS` (years 0 to 9999), then optionally a `.`
/// and one or more ASCII digits.
pub open spec fn canonical_timestamp(s: Seq<char>) -> bool {
    let k = first_dot(s) as int;
    &&& exists|f: (i32, u32, u32, u32, u32, u32)| valid_fields(f) && #[trigger] fields_text(f) == s.take(k)
    &&& k < s.len() ==> s.skip(k + 1).len() > 0 && all_ascii_digits(s.skip(k + 1))
}

/// Whether every character of a text may appear in a timestamp.
pub open spec fn timestamp_chars(s: Seq<char>) -> bool {
    forall|i: int| 0 <= i < s.len() ==> timestamp_char(#[trigger] s[i])
}

proof fn lemma_timestamp_chars_concat(a: Seq<char>, b: Seq<char>)
    requires
        timestamp_chars(a),
        timestamp_chars(b),
    ensures
        timestamp_chars(a + b),
{
    assert forall|i: int| 0 <= i < (a + b).len() implies timestamp_char(#[trigger] (a + b)[i]) by {
        if i < a.len() {
            assert((a + b)[i] == a[i]);
        } else {
            assert((a + b)[i] == b[i - a.len()]);
        }
    }
}

proof fn lemma_digits_timestamp_chars(s: Seq<char>)
    requires
        all_ascii_digits(s),
    ensures
        timestamp_chars(s),
{
    assert forall|i: int| 0 <= i < s.len() implies timestamp_char(#[trigger] s[i]) by {
        assert(is_ascii_digit(s[i]));
    }
}

proof fn lemma_padded_digits(n: nat)
    ensures
        timestamp_chars(pad4(n)),
        timestamp_chars(decimal_text2(n)),
{
    lemma_decimal_text_value(n);
    lemma_digits_timestamp_chars(decimal_text(n));
    lemma_digits_timestamp_chars(seq!['0']);
    lemma_digits_timestamp_chars(seq!['0', '0']);
    lemma_digits_timestamp_chars(seq!['0', '0', '0']);
    lemma_timestamp_chars_concat(seq!['0'], decimal_text(n));
    lemma_timestamp_chars_concat(seq!['0', '0'], decimal_text(n));
    lemma_timestamp_chars_concat(seq!['0', '0', '0'], decimal_text(n));
}

proof fn lemma_fields_text_chars(f: (i32, u32, u32, u32, u32, u32))
    ensures
        timestamp_chars(fields_text(f)),
{
    lemma_padded_digits(f.0 as nat);
    lemma_padded_digits(f.1 as nat);
    lemma_padded_digits(f.2 as nat);
    lemma_padded_digits(f.3 as nat);
    lemma_padded_digits(f.4 as nat);
    lemma_padded_digits(f.5 as nat);
    assert(timestamp_chars(seq!['-']));
    assert(timestamp_chars(seq!['T']));
    assert(timestamp_chars(seq![':']));
    let a = pad4(f.0 as nat) + seq!['-'];
    lemma_timestamp_chars_concat(pad4(f.0 as nat), seq!['-']);
    let b = a + decimal_text2(f.1 as nat);
    lemma_timestamp_chars_concat(a, decimal_text2(f.1 as nat));
    let c = b + seq!['-'];
    lemma_timestamp_chars_concat(b, seq!['-']);
    let d = c + decimal_text2(f.2 as nat);
    lemma_timestamp_chars_concat(c, decimal_text2(f.2 as nat));
    let e = d + seq!['T'];
    lemma_timestamp_chars_concat(d, seq!['T']);
    let g = e + decimal_text2(f.3 as nat);
    lemma_timestamp_chars_concat(e, decimal_text2(f.3 as nat));
    let h = g + seq![':'];
    lemma_timestamp_chars_concat(g, seq![':']);
    let i = h + decimal_text2(f.4 as nat);
    lemma_timestamp_chars_concat(h, decimal_text2(f.4 as nat));
    let j = i + seq![':'];
    lemma_timestamp_chars_concat(i, seq![':']);
    lemma_timestamp_chars_concat(j, decimal_text2(f.5 as nat));
}

/// A text written the way timestamps print holds only timestamp characters.
proof fn lemma_canonical_chars(s: Seq<char>)
    requires
        canonical_timestamp(s),
    ensures
        timestamp_chars(s),
{
    lemma_first_dot_at(s);
    let k = first_dot(s) as int;
    let f = choose|f: (i32, u32, u32, u32, u32, u32)| valid_fields(f) && #[trigger] fields_text(f) == s.take(k);
    lemma_fields_text_chars(f);
    if k < s.len() {
        lemma_digits_timestamp_chars(s.skip(k + 1));
        assert(timestamp_chars(seq!['.']));
        lemma_timestamp_chars_concat(s.take(k), seq!['.']);
        lemma_timestamp_chars_concat(s.take(k) + seq!['.'], s.skip(k + 1));
        assert(s =~= s.take(k) + seq!['.'] + s.skip(k + 1));
    } else {
        assert(s.take(k) =~= s);
    }
}

/// What parsing a text as a timestamp gives (see `INDITimestamp::parse_str`).
pub open spec fn parse_outcome(s: Seq<char>, r: Result<INDITimestamp>) -> bool {
    let k = first_dot(s) as int;
    let whole = s.take(k);
    let frac = s.skip(k + 1);
    if !(forall|i: int| 0 <= i < s.len() ==> timestamp_char(#[trigger] s[i])) {
        r matches Err(Error::Property(m)) && m@ == "Invalid characters in timestamp"@
    } else if k < s.len() && !(frac.len() > 0 && all_ascii_digits(frac)) {
        r matches Err(Error::Property(m)) && m@ == "Invalid decimal part in timestamp"@
    } else {
        match calendar_parse(whole) {
            Ok(f) => r matches Ok(t) && f == (
                t.year(),
                t.month(),
                t.day(),
                t.hour(),
                t.minute(),
                t.second(),
            ) && if k < s.len() {
                t.decimal_spec() matches Some(d) && d@ == frac
            } else {
                t.decimal_spec() is None
            },
            Err(e) => r matches Err(Error::Property(m)) && m@ == "Invalid timestamp format: "@
                + e,
        }
    }
}

impl INDITimestamp {
    /// A timestamp from its calendar fields and optional fraction digits.
    pub fn from_parts(
        year: i32,
        month: u32,
        day: u32,
        hour: u32,
        minute: u32,
        second: u32,
        decimal: Option<String>,
    ) -> (r: Self)
        ensures
            r.year() == year && r.month() == month && r.day() == day && r.hour() == hour
                && r.minute() == minute && r.second() == second && r.decimal_spec() == decimal,
    {
        INDITimestamp { year, month, day, hour, minute, second, decimal }
    }

    /// The year.
    pub closed spec fn year(&self) -> i32 {
        self.year
    }

    /// The month.
    pub closed spec fn month(&self) -> u32 {
        self.month
    }

    /// The day of the month.
    pub closed spec fn day(&self) -> u32 {
        self.day
    }

    /// The hour.
    pub closed spec fn hour(&self) -> u32 {
        self.hour
    }

    /// The minute.
    pub closed spec fn minute(&self) -> u32 {
        self.minute
    }

    /// The second.
    pub closed spec fn second(&self) -> u32 {
        self.second
    }

    /// The fraction digits, if any.
    pub closed spec fn decimal_spec(&self) -> Option<String> {
        self.decimal
    }

    /// The calendar fields: year, month, day, hour, minute, second.
    pub fn fields(&self) -> (r: (i32, u32, u32, u32, u32, u32))
        ensures
            r == (self.year(), self.month(), self.day(), self.hour(), self.minute(), self.second()),
    {
        (self.year, self.month, self.day, self.hour, self.minute, self.second)
    }

    /// The fraction digits, if any.
    pub fn decimal(&self) -> (r: &Option<String>)
        ensures
            *r == self.decimal_spec(),
    {
        &self.decimal
    }

    /// Parses a timestamp: only ASCII digits and `.:-T` are allowed; the text
    /// after the first `.` must be a non-empty run of digits, kept as the
    /// fraction; the text before it is read by chrono with the pattern
    /// `%Y-%m-%dT%H:%M:%S`.
    pub fn parse_str(s: &str) -> (r: Result<Self>)
        ensures
            r matches Ok(t) ==> parsed_as(s@, t),
            parse_outcome(s@, r),
            canonical_timestamp(s@) ==> (r matches Ok(t) && timestamp_text(t) == s@),
    {
        let c = to_chars(s);
        let n = c.len();
        let mut i: usize = 0;
        while i < n
            invariant
                i <= n,
                n == s@.len(),
                c@ == s@,
                forall|j: int| 0 <= j < i ==> timestamp_char(#[trigger] s@[j]),
            decreases n - i,
        {
            let ch = c[i];
            if !(('0' <= ch && ch <= '9') || ch == '.' || ch == ':' || ch == '-' || ch == 'T') {
                proof {
                    reveal_strlit("Invalid characters in timestamp");
                    assert(!timestamp_char(s@[i as int]));
                    if canonical_timestamp(s@) {
                        lemma_canonical_chars(s@);
                    }
                }
                return Err(Error::Property(owned("Invalid characters in timestamp")));
            }
            i = i + 1;
        }
        let mut k: usize = 0;
        while k < n && c[k] != '.'
            invariant
                k <= n,
                n == s@.len(),
                c@ == s@,
                forall|j: int| 0 <= j < k ==> #[trigger] s@[j] != '.',
            decreases n - k,
        {
            k = k + 1;
        }
        proof {
            lemma_first_dot(s@, k as int);
        }
        let whole = from_chars(&c.as_slice()[0..k]);
        assert(whole@ =~= s@.take(k as int));
        let decimal = if k < n {
            let ghost frac = s@.skip(k + 1);
            let mut ok = k + 1 < n;
            let mut j: usize = k + 1;
            while j < n
                invariant
                    k + 1 <= j <= n,
                    n == s@.len(),
                    c@ == s@,
                    frac == s@.skip(k + 1),
                    ok ==> forall|l: int| 0 <= l < j - k - 1 ==> is_ascii_digit(#[trigger] frac[l]),
                    ok ==> frac.len() > 0,
                    !ok ==> !(frac.len() > 0 && all_ascii_digits(frac)),
                decreases n - j,
            {
                if !('0' <= c[j] && c[j] <= '9') {
                    assert(frac[j - k - 1] == s@[j as int]);
                    ok = false;
                }
                j = j + 1;
            }
            if !ok {
                proof {
                    reveal_strlit("Invalid decimal part in timestamp");
                }
                return Err(Error::Property(owned("Invalid decimal part in timestamp")));
            }
            let f = from_chars(&c.as_slice()[k + 1..n]);
            assert(f@ =~= frac);
            Some(f)
        } else {
            None
        };
        let parsed = parse_calendar(whole.as_str());
        proof {
            if canonical_timestamp(s@) {
                let f = choose|f: (i32, u32, u32, u32, u32, u32)|
                    valid_fields(f) && #[trigger] fields_text(f) == s@.take(k as int);
                assert(parsed matches Ok(g) && g == f);
            }
        }
        match parsed {
            Ok((year, month, day, hour, minute, second)) => {
                let t = INDITimestamp { year, month, day, hour, minute, second, decimal };
                proof {
                    if canonical_timestamp(s@) {
                        assert(calendar_text(t) =~= fields_text(
                            (year, month, day, hour, minute, second),
                        ));
                        lemma_timestamp_text_roundtrip(s@, t);
                    }
                }
                Ok(t)
            },
            Err(e) => {
                let mut m = owned("Invalid timestamp format: ");
                append(&mut m, e.as_str());
                Err(Error::Property(m))
            },
        }
    }

    /// The text of this timestamp (see `timestamp_text`).
    pub fn to_string(&self) -> (r: String)
        ensures
            r@ == timestamp_text(*self),
    {
        let mut r = String::new();
        let y = self.year;
        if 0 <= y && y <= 9999 {
            append_pad4(&mut r, y as u64);
        } else if y > 9999 {
            push_char(&mut r, '+');
            append_decimal(&mut r, y as u64);
        } else {
            push_char(&mut r, '-');
            let a: u64 = (0i64 - (y as i64)) as u64;
            append_pad4(&mut r, a);
        }
        let ghost yt = r@;
        assert(yt =~= year_text(self.year));
        push_char(&mut r, '-');
        append_decimal2(&mut r, self.month as u64);
        push_char(&mut r, '-');
        append_decimal2(&mut r, self.day as u64);
        push_char(&mut r, 'T');
        append_decimal2(&mut r, self.hour as u64);
        push_char(&mut r, ':');
        append_decimal2(&mut r, self.minute as u64);
        push_char(&mut r, ':');
        append_decimal2(&mut r, self.second as u64);
        assert(r@ =~= calendar_text(*self));
        match &self.decimal {
            Some(d) => {
                push_char(&mut r, '.');
                append(&mut r, d.as_str());
            },
            None => {},
        }
        r
    }
}

fn append_pad4(s: &mut String, n: u64)
    ensures
        final(s)@ == old(s)@ + pad4(n as nat),
{
    let ghost start = s@;
    if n < 10 {
        push_char(s, '0');
        push_char(s, '0');
        push_char(s, '0');
    } else if n < 100 {
        push_char(s, '0');
        push_char(s, '0');
    } else if n < 1000 {
        push_char(s, '0');
    }
    let ghost lead = s@;
    append_decimal(s, n);
    if n < 10 {
        assert(lead =~= start + seq!['0', '0', '0']);
    } else if n < 100 {
        assert(lead =~= start + seq!['0', '0']);
    } else if n < 1000 {
        assert(lead =~= start + seq!['0']);
    } else {
        assert(lead =~= start);
    }
    assert(s@ =~= start + pad4(n as nat));
}

impl core::str::FromStr for INDITimestamp {
    type Err = Error;

    fn from_str(s: &str) -> (r: Result<Self>)
        ensures
            r matches Ok(t) ==> parsed_as(s@, t),
            parse_outcome(s@, r),
            canonical_timestamp(s@) ==> (r matches Ok(t) && timestamp_text(t) == s@),
    {
        INDITimestamp::parse_str(s)
    }
}

} // verus!
