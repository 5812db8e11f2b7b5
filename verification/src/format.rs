//! Number format specifications of INDI number properties.
//!
//! A format is either a printf-style pattern (such as `%.2f`) or a
//! sexagesimal pattern `%<width>.<precision>m` (such as `%8.3m`).
use vstd::prelude::*;

use crate::error::{Error, Result};
use crate::strings::{
    all_ascii_digits, append, append_decimal, append_decimal2, decimal_text, decimal_text2, digit_value, digits_value, is_ascii_digit,
    lemma_decimal_text_len, lemma_decimal_text_value, lemma_padded_decimal, owned, padded_numeral,
    push_char, to_chars, trim, trimmed,
};

verus! {

/// Number format specification
#[derive(Debug, Clone, PartialEq, Eq)]
pub enum NumberFormat {
    /// Printf-style format (e.g., "%.2f")
    Printf(String),
    /// Sexagesimal format (e.g., "%8.3m" for degrees)
    Sexagesimal {
        /// Total field width
        width: usize,
        /// Fraction precision
        precision: usize,
    },
}

pub open spec fn in_decimal_block_0(c: char) -> bool {
    ('\u{30}' <= c && c <= '\u{39}')
        || ('\u{660}' <= c && c <= '\u{669}')
        || ('\u{6f0}' <= c && c <= '\u{6f9}')
        || ('\u{7c0}' <= c && c <= '\u{7c9}')
        || ('\u{966}' <= c && c <= '\u{96f}')
        || ('\u{9e6}' <= c && c <= '\u{9ef}')
        || ('\u{a66}' <= c && c <= '\u{a6f}')
        || ('\u{ae6}' <= c && c <= '\u{aef}')
}

pub open spec fn in_decimal_block_1(c: char) -> bool {
    ('\u{b66}' <= c && c <= '\u{b6f}')
        || ('\u{be6}' <= c && c <= '\u{bef}')
        || ('\u{c66}' <= c && c <= '\u{c6f}')
        || ('\u{ce6}' <= c && c <= '\u{cef}')
        || ('\u{d66}' <= c && c <= '\u{d6f}')
        || ('\u{de6}' <= c && c <= '\u{def}')
        || ('\u{e50}' <= c && c <= '\u{e59}')
        || ('\u{ed0}' <= c && c <= '\u{ed9}')
}

pub open spec fn in_decimal_block_2(c: char) -> bool {
    ('\u{f20}' <= c && c <= '\u{f29}')
        || ('\u{1040}' <= c && c <= '\u{1049}')
        || ('\u{1090}' <= c && c <= '\u{1099}')
        || ('\u{17e0}' <= c && c <= '\u{17e9}')
        || ('\u{1810}' <= c && c <= '\u{1819}')
        || ('\u{1946}' <= c && c <= '\u{194f}')
        || ('\u{19d0}' <= c && c <= '\u{19d9}')
        || ('\u{1a80}' <= c && c <= '\u{1a89}')
}

pub open spec fn in_decimal_block_3(c: char) -> bool {
    ('\u{1a90}' <= c && c <= '\u{1a99}')
        || ('\u{1b50}' <= c && c <= '\u{1b59}')
        || ('\u{1bb0}' <= c && c <= '\u{1bb9}')
        || ('\u{1c40}' <= c && c <= '\u{1c49}')
        || ('\u{1c50}' <= c && c <= '\u{1c59}')
        || ('\u{a620}' <= c && c <= '\u{a629}')
        || ('\u{a8d0}' <= c && c <= '\u{a8d9}')
        || ('\u{a900}' <= c && c <= '\u{a909}')
}

pub open spec fn in_decimal_block_4(c: char) -> bool {
    ('\u{a9d0}' <= c && c <= '\u{a9d9}')
        || ('\u{a9f0}' <= c && c <= '\u{a9f9}')
        || ('\u{aa50}' <= c && c <= '\u{aa59}')
        || ('\u{abf0}' <= c && c <= '\u{abf9}')
        || ('\u{ff10}' <= c && c <= '\u{ff19}')
        || ('\u{104a0}' <= c && c <= '\u{104a9}')
        || ('\u{10d30}' <= c && c <= '\u{10d39}')
        || ('\u{10d40}' <= c && c <= '\u{10d49}')
}

pub open spec fn in_decimal_block_5(c: char) -> bool {
    ('\u{11066}' <= c && c <= '\u{1106f}')
        || ('\u{110f0}' <= c && c <= '\u{110f9}')
        || ('\u{11136}' <= c && c <= '\u{1113f}')
        || ('\u{111d0}' <= c && c <= '\u{111d9}')
        || ('\u{112f0}' <= c && c <= '\u{112f9}')
        || ('\u{11450}' <= c && c <= '\u{11459}')
        || ('\u{114d0}' <= c && c <= '\u{114d9}')
        || ('\u{11650}' <= c && c <= '\u{11659}')
}

pub open spec fn in_decimal_block_6(c: char) -> bool {
    ('\u{116c0}' <= c && c <= '\u{116c9}')
        || ('\u{116d0}' <= c && c <= '\u{116e3}')
        || ('\u{11730}' <= c && c <= '\u{11739}')
        || ('\u{118e0}' <= c && c <= '\u{118e9}')
        || ('\u{11950}' <= c && c <= '\u{11959}')
        || ('\u{11bf0}' <= c && c <= '\u{11bf9}')
        || ('\u{11c50}' <= c && c <= '\u{11c59}')
        || ('\u{11d50}' <= c && c <= '\u{11d59}')
}

pub open spec fn in_decimal_block_7(c: char) -> bool {
    ('\u{11da0}' <= c && c <= '\u{11da9}')
        || ('\u{11f50}' <= c && c <= '\u{11f59}')
        || ('\u{16130}' <= c && c <= '\u{16139}')
        || ('\u{16a60}' <= c && c <= '\u{16a69}')
        || ('\u{16ac0}' <= c && c <= '\u{16ac9}')
        || ('\u{16b50}' <= c && c <= '\u{16b59}')
        || ('\u{16d70}' <= c && c <= '\u{16d79}')
        || ('\u{1ccf0}' <= c && c <= '\u{1ccf9}')
}

pub open spec fn in_decimal_block_8(c: char) -> bool {
    ('\u{1d7ce}' <= c && c <= '\u{1d7ff}')
        || ('\u{1e140}' <= c && c <= '\u{1e149}')
        || ('\u{1e2f0}' <= c && c <= '\u{1e2f9}')
        || ('\u{1e4f0}' <= c && c <= '\u{1e4f9}')
        || ('\u{1e5f1}' <= c && c <= '\u{1e5fa}')
        || ('\u{1e950}' <= c && c <= '\u{1e959}')
        || ('\u{1fbf0}' <= c && c <= '\u{1fbf9}')
}

fn decimal_block_0(c: char) -> (r: bool)
    ensures
        r == in_decimal_block_0(c),
{
    ('\u{30}' <= c && c <= '\u{39}')
        || ('\u{660}' <= c && c <= '\u{669}')
        || ('\u{6f0}' <= c && c <= '\u{6f9}')
        || ('\u{7c0}' <= c && c <= '\u{7c9}')
        || ('\u{966}' <= c && c <= '\u{96f}')
        || ('\u{9e6}' <= c && c <= '\u{9ef}')
        || ('\u{a66}' <= c && c <= '\u{a6f}')
        || ('\u{ae6}' <= c && c <= '\u{aef}')
}

fn decimal_block_1(c: char) -> (r: bool)
    ensures
        r == in_decimal_block_1(c),
{
    ('\u{b66}' <= c && c <= '\u{b6f}')
        || ('\u{be6}' <= c && c <= '\u{bef}')
        || ('\u{c66}' <= c && c <= '\u{c6f}')
        || ('\u{ce6}' <= c && c <= '\u{cef}')
        || ('\u{d66}' <= c && c <= '\u{d6f}')
        || ('\u{de6}' <= c && c <= '\u{def}')
        || ('\u{e50}' <= c && c <= '\u{e59}')
        || ('\u{ed0}' <= c && c <= '\u{ed9}')
}

fn decimal_block_2(c: char) -> (r: bool)
    ensures
        r == in_decimal_block_2(c),
{
    ('\u{f20}' <= c && c <= '\u{f29}')
        || ('\u{1040}' <= c && c <= '\u{1049}')
        || ('\u{1090}' <= c && c <= '\u{1099}')
        || ('\u{17e0}' <= c && c <= '\u{17e9}')
        || ('\u{1810}' <= c && c <= '\u{1819}')
        || ('\u{1946}' <= c && c <= '\u{194f}')
        || ('\u{19d0}' <= c && c <= '\u{19d9}')
        || ('\u{1a80}' <= c && c <= '\u{1a89}')
}

fn decimal_block_3(c: char) -> (r: bool)
    ensures
        r == in_decimal_block_3(c),
{
    ('\u{1a90}' <= c && c <= '\u{1a99}')
        || ('\u{1b50}' <= c && c <= '\u{1b59}')
        || ('\u{1bb0}' <= c && c <= '\u{1bb9}')
        || ('\u{1c40}' <= c && c <= '\u{1c49}')
        || ('\u{1c50}' <= c && c <= '\u{1c59}')
        || ('\u{a620}' <= c && c <= '\u{a629}')
        || ('\u{a8d0}' <= c && c <= '\u{a8d9}')
        || ('\u{a900}' <= c && c <= '\u{a909}')
}

fn decimal_block_4(c: char) -> (r: bool)
    ensures
        r == in_decimal_block_4(c),
{
    ('\u{a9d0}' <= c && c <= '\u{a9d9}')
        || ('\u{a9f0}' <= c && c <= '\u{a9f9}')
        || ('\u{aa50}' <= c && c <= '\u{aa59}')
        || ('\u{abf0}' <= c && c <= '\u{abf9}')
        || ('\u{ff10}' <= c && c <= '\u{ff19}')
        || ('\u{104a0}' <= c && c <= '\u{104a9}')
        || ('\u{10d30}' <= c && c <= '\u{10d39}')
        || ('\u{10d40}' <= c && c <= '\u{10d49}')
}

fn decimal_block_5(c: char) -> (r: bool)
    ensures
        r == in_decimal_block_5(c),
{
    ('\u{11066}' <= c && c <= '\u{1106f}')
        || ('\u{110f0}' <= c && c <= '\u{110f9}')
        || ('\u{11136}' <= c && c <= '\u{1113f}')
        || ('\u{111d0}' <= c && c <= '\u{111d9}')
        || ('\u{112f0}' <= c && c <= '\u{112f9}')
        || ('\u{11450}' <= c && c <= '\u{11459}')
        || ('\u{114d0}' <= c && c <= '\u{114d9}')
        || ('\u{11650}' <= c && c <= '\u{11659}')
}

fn decimal_block_6(c: char) -> (r: bool)
    ensures
        r == in_decimal_block_6(c),
{
    ('\u{116c0}' <= c && c <= '\u{116c9}')
        || ('\u{116d0}' <= c && c <= '\u{116e3}')
        || ('\u{11730}' <= c && c <= '\u{11739}')
        || ('\u{118e0}' <= c && c <= '\u{118e9}')
        || ('\u{11950}' <= c && c <= '\u{11959}')
        || ('\u{11bf0}' <= c && c <= '\u{11bf9}')
        || ('\u{11c50}' <= c && c <= '\u{11c59}')
        || ('\u{11d50}' <= c && c <= '\u{11d59}')
}

fn decimal_block_7(c: char) -> (r: bool)
    ensures
        r == in_decimal_block_7(c),
{
    ('\u{11da0}' <= c && c <= '\u{11da9}')
        || ('\u{11f50}' <= c && c <= '\u{11f59}')
        || ('\u{16130}' <= c && c <= '\u{16139}')
        || ('\u{16a60}' <= c && c <= '\u{16a69}')
        || ('\u{16ac0}' <= c && c <= '\u{16ac9}')
        || ('\u{16b50}' <= c && c <= '\u{16b59}')
        || ('\u{16d70}' <= c && c <= '\u{16d79}')
        || ('\u{1ccf0}' <= c && c <= '\u{1ccf9}')
}

fn decimal_block_8(c: char) -> (r: bool)
    ensures
        r == in_decimal_block_8(c),
{
    ('\u{1d7ce}' <= c && c <= '\u{1d7ff}')
        || ('\u{1e140}' <= c && c <= '\u{1e149}')
        || ('\u{1e2f0}' <= c && c <= '\u{1e2f9}')
        || ('\u{1e4f0}' <= c && c <= '\u{1e4f9}')
        || ('\u{1e5f1}' <= c && c <= '\u{1e5fa}')
        || ('\u{1e950}' <= c && c <= '\u{1e959}')
        || ('\u{1fbf0}' <= c && c <= '\u{1fbf9}')
}
/// Decimal digits: the characters of Unicode general category Nd
/// (Unicode 16.0), the class that `\d` denotes in a Unicode-aware pattern.
pub open spec fn is_decimal_digit(c: char) -> bool {
    in_decimal_block_0(c)
        || in_decimal_block_1(c)
        || in_decimal_block_2(c)
        || in_decimal_block_3(c)
        || in_decimal_block_4(c)
        || in_decimal_block_5(c)
        || in_decimal_block_6(c)
        || in_decimal_block_7(c)
        || in_decimal_block_8(c)
}

/// Whether a character is a decimal digit (general category Nd).
pub fn decimal_digit(c: char) -> (r: bool)
    ensures
        r == is_decimal_digit(c),
{
    decimal_block_0(c)
        || decimal_block_1(c)
        || decimal_block_2(c)
        || decimal_block_3(c)
        || decimal_block_4(c)
        || decimal_block_5(c)
        || decimal_block_6(c)
        || decimal_block_7(c)
        || decimal_block_8(c)
}

/// Whether every character is a decimal digit.
pub open spec fn all_decimal_digits(s: Seq<char>) -> bool {
    forall|i: int| 0 <= i < s.len() ==> is_decimal_digit(#[trigger] s[i])
}

/// How many times a character occurs.
pub open spec fn count_char(s: Seq<char>, c: char) -> nat
    decreases s.len(),
{
    if s.len() == 0 {
        0
    } else {
        count_char(s.drop_last(), c) + if s.last() == c { 1nat } else { 0nat }
    }
}

/// Whether `s` reads `%`, decimal digits, `.` at index `k`, decimal digits, `m`
/// (the sexagesimal pattern `^%(\d+)\.(\d+)m$`).
pub open spec fn sexagesimal_at(s: Seq<char>, k: int) -> bool {
    &&& s.len() >= 5
    &&& s[0] == '%'
    &&& s.last() == 'm'
    &&& 2 <= k <= s.len() - 3
    &&& s[k] == '.'
    &&& all_decimal_digits(s.subrange(1, k))
    &&& all_decimal_digits(s.subrange(k + 1, s.len() - 1))
}

/// Whether `s` has the sexagesimal shape.
pub open spec fn is_sexagesimal(s: Seq<char>) -> bool {
    exists|k: int| sexagesimal_at(s, k)
}

/// The index of the dot of a sexagesimal pattern.
pub open spec fn sexagesimal_dot(s: Seq<char>) -> int {
    choose|k: int| sexagesimal_at(s, k)
}

/// The width digits of a sexagesimal pattern.
pub open spec fn width_digits(s: Seq<char>) -> Seq<char> {
    s.subrange(1, sexagesimal_dot(s))
}

/// The precision digits of a sexagesimal pattern.
pub open spec fn precision_digits(s: Seq<char>) -> Seq<char> {
    s.subrange(sexagesimal_dot(s) + 1, s.len() - 1)
}

/// Whether digits read as a `usize` (ASCII digits whose value fits).
pub open spec fn usize_digits(d: Seq<char>) -> bool {
    all_ascii_digits(d) && digits_value(d) <= usize::MAX
}

/// The outcome of parsing a format text.
pub enum FormatVerdict {
    /// A sexagesimal format with the given width and precision
    Sexagesimal(usize, usize),
    /// A printf-style format (the text itself)
    Printf,
    /// Sexagesimal shape whose width does not read as a `usize`
    BadWidth,
    /// Sexagesimal shape whose precision does not read as a `usize`
    BadPrecision,
    /// Neither sexagesimal nor a text with exactly one `%`
    BadPrintf,
}

/// What parsing a format text gives.
pub open spec fn format_verdict(s: Seq<char>) -> FormatVerdict {
    if is_sexagesimal(s) {
        if !usize_digits(width_digits(s)) {
            FormatVerdict::BadWidth
        } else if !usize_digits(precision_digits(s)) {
            FormatVerdict::BadPrecision
        } else {
            FormatVerdict::Sexagesimal(
                digits_value(width_digits(s)) as usize,
                digits_value(precision_digits(s)) as usize,
            )
        }
    } else if count_char(s, '%') == 1 {
        FormatVerdict::Printf
    } else {
        FormatVerdict::BadPrintf
    }
}

/// The text a number format is written as.
pub open spec fn format_text(f: NumberFormat) -> Seq<char> {
    match f {
        NumberFormat::Printf(t) => t@,
        NumberFormat::Sexagesimal { width, precision } => seq!['%'] + decimal_text(width as nat)
            + seq!['.'] + decimal_text(precision as nat) + seq!['m'],
    }
}

proof fn lemma_dot_unique(s: Seq<char>, k: int, j: int)
    requires
        sexagesimal_at(s, k),
        sexagesimal_at(s, j),
    ensures
        k == j,
{
    if k < j {
        assert(s.subrange(1, j)[k - 1] == s[k]);
    } else if j < k {
        assert(s.subrange(1, k)[j - 1] == s[j]);
    }
}

proof fn lemma_digits_value_prefix(s: Seq<char>, i: int)
    requires
        0 <= i <= s.len(),
    ensures
        digits_value(s.take(i)) <= digits_value(s),
    decreases s.len() - i,
{
    if i < s.len() {
        lemma_digits_value_prefix(s, i + 1);
        assert(s.take(i + 1).drop_last() =~= s.take(i));
    } else {
        assert(s.take(i) =~= s);
    }
}

/// Reads `c[lo..hi]` as a `usize` numeral of ASCII digits.
fn read_usize(c: &Vec<char>, lo: usize, hi: usize) -> (r: Option<usize>)
    requires
        lo <= hi <= c@.len(),
    ensures
        match r {
            Some(v) => usize_digits(c@.subrange(lo as int, hi as int)) && v == digits_value(
                c@.subrange(lo as int, hi as int),
            ),
            None => !usize_digits(c@.subrange(lo as int, hi as int)),
        },
{
    let ghost d = c@.subrange(lo as int, hi as int);
    let mut v: usize = 0;
    let mut overflow = false;
    let mut i: usize = lo;
    while i < hi
        invariant
            lo <= i <= hi <= c@.len(),
            d == c@.subrange(lo as int, hi as int),
            all_ascii_digits(d.take(i - lo)),
            !overflow ==> v == digits_value(d.take(i - lo)),
            overflow ==> digits_value(d.take(i - lo)) > usize::MAX,
        decreases hi - i,
    {
        let ch = c[i];
        if !('0' <= ch && ch <= '9') {
            proof {
                assert(d[i - lo] == ch);
            }
            return None;
        }
        let ghost t = d.take(i - lo + 1);
        proof {
            assert(t.drop_last() =~= d.take(i - lo));
            assert(t.last() == ch);
            assert forall|j: int| 0 <= j < t.len() implies is_ascii_digit(#[trigger] t[j]) by {
                if j < t.len() - 1 {
                    assert(t[j] == d.take(i - lo)[j]);
                }
            }
        }
        let dv: usize = (ch as u32 - '0' as u32) as usize;
        if !overflow {
            if v > (usize::MAX - dv) / 10 {
                proof {
                    assert(v * 10 + dv > usize::MAX) by (nonlinear_arith)
                        requires
                            v > (usize::MAX - dv) / 10,
                            dv <= 9,
                    ;
                }
                overflow = true;
            } else {
                proof {
                    assert(v * 10 + dv <= usize::MAX) by (nonlinear_arith)
                        requires
                            v <= (usize::MAX - dv) / 10,
                            dv <= 9,
                    ;
                }
                v = v * 10 + dv;
            }
        } else {
            proof {
                assert(digits_value(t) >= digits_value(t.drop_last())) by (nonlinear_arith)
                    requires
                        digits_value(t) == digits_value(t.drop_last()) * 10 + digit_value(t.last()),
                ;
            }
        }
        i = i + 1;
    }
    proof {
        assert(d.take(hi - lo) =~= d);
    }
    if overflow {
        None
    } else {
        Some(v)
    }
}

impl NumberFormat {
    /// Parse a format string into a NumberFormat: the sexagesimal pattern
    /// `%<width>.<precision>m` is recognised first; any other text with
    /// exactly one `%` is a printf-style format.
    pub fn parse(format: &str) -> (r: Result<Self>)
        ensures
            match format_verdict(format@) {
                FormatVerdict::Sexagesimal(w, p) => r matches Ok(NumberFormat::Sexagesimal {
                    width,
                    precision,
                }) && width == w && precision == p,
                FormatVerdict::Printf => r matches Ok(NumberFormat::Printf(t)) && t@ == format@,
                FormatVerdict::BadWidth => r matches Err(Error::Format(m))
                    && m@ == "Invalid width in sexagesimal format"@,
                FormatVerdict::BadPrecision => r matches Err(Error::Format(m))
                    && m@ == "Invalid precision in sexagesimal format"@,
                FormatVerdict::BadPrintf => r matches Err(Error::Format(m))
                    && m@ == "Invalid printf format"@,
            },
    {
        let c = to_chars(format);
        let n = c.len();
        let ghost s = format@;
        // Locate the first dot after the leading character.
        let mut k: usize = 1;
        while k < n && c[k] != '.'
            invariant
                1 <= k,
                n >= 1 ==> k <= n,
                n == s.len(),
                c@ == s,
                forall|j: int| 1 <= j < k ==> s[j] != '.',
            decreases n - k,
        {
            k = k + 1;
        }
        let shape0 = n >= 5 && c[0] == '%' && c[n - 1] == 'm' && k >= 2 && k <= n - 3;
        let mut digits_ok = true;
        if shape0 {
            let mut j: usize = 1;
            while j < n - 1
                invariant
                    1 <= j <= n - 1,
                    n >= 5,
                    n == s.len(),
                    c@ == s,
                    k < n,
                    digits_ok == (forall|i: int| 1 <= i < j && i != k ==> is_decimal_digit(#[trigger] s[i])),
                decreases n - 1 - j,
            {
                if j != k && !decimal_digit(c[j]) {
                    digits_ok = false;
                }
                j = j + 1;
            }
        }
        let shape = shape0 && digits_ok;
        proof {
            if shape {
                assert(sexagesimal_at(s, k as int)) by {
                    assert forall|i: int| 0 <= i < s.subrange(1, k as int).len() implies is_decimal_digit(#[trigger] s.subrange(1, k as int)[i]) by {
                        assert(s.subrange(1, k as int)[i] == s[i + 1]);
                    }
                    assert forall|i: int| 0 <= i < s.subrange(k + 1, s.len() - 1).len() implies is_decimal_digit(#[trigger] s.subrange(k + 1, s.len() - 1)[i]) by {
                        assert(s.subrange(k + 1, s.len() - 1)[i] == s[i + k + 1]);
                    }
                }
                lemma_dot_unique(s, k as int, sexagesimal_dot(s));
            } else if is_sexagesimal(s) {
                let kk = choose|kk: int| sexagesimal_at(s, kk);
                assert forall|j: int| 1 <= j < kk implies s[j] != '.' by {
                    assert(s.subrange(1, kk)[j - 1] == s[j]);
                }
                assert(k == kk);
                assert forall|i: int| 1 <= i < n - 1 && i != k implies is_decimal_digit(#[trigger] s[i]) by {
                    if i < k {
                        assert(s.subrange(1, kk)[i - 1] == s[i]);
                    } else {
                        assert(s.subrange(kk + 1, s.len() - 1)[i - kk - 1] == s[i]);
                    }
                }
                assert(false);
            }
        }
        if shape {
            let width = match read_usize(&c, 1, k) {
                Some(w) => w,
                None => {
                    proof {
                        reveal_strlit("Invalid width in sexagesimal format");
                    }
                    return Err(Error::Format(owned("Invalid width in sexagesimal format")));
                },
            };
            let precision = match read_usize(&c, k + 1, n - 1) {
                Some(p) => p,
                None => {
                    return Err(Error::Format(owned("Invalid precision in sexagesimal format")));
                },
            };
            return Ok(NumberFormat::Sexagesimal { width, precision });
        }
        let mut count: usize = 0;
        let mut i: usize = 0;
        while i < n
            invariant
                i <= n,
                n == s.len(),
                c@ == s,
                count == count_char(s.take(i as int), '%'),
                count <= i,
            decreases n - i,
        {
            proof {
                assert(s.take(i + 1).drop_last() =~= s.take(i as int));
            }
            if c[i] == '%' {
                count = count + 1;
            }
            i = i + 1;
        }
        proof {
            assert(s.take(n as int) =~= s);
        }
        if count != 1 {
            return Err(Error::Format(owned("Invalid printf format")));
        }
        Ok(NumberFormat::Printf(owned(format)))
    }

    /// The text of this format: the printf pattern itself, or
    /// `%<width>.<precision>m`.
    pub fn to_string(&self) -> (r: String)
        ensures
            r@ == format_text(*self),
    {
        match self {
            NumberFormat::Printf(t) => t.clone(),
            NumberFormat::Sexagesimal { width, precision } => {
                let mut r = String::new();
                push_char(&mut r, '%');
                append_decimal(&mut r, *width as u64);
                push_char(&mut r, '.');
                append_decimal(&mut r, *precision as u64);
                push_char(&mut r, 'm');
                assert(r@ =~= seq!['%'] + decimal_text(*width as nat) + seq!['.'] + decimal_text(
                    *precision as nat,
                ) + seq!['m']);
                r
            },
        }
    }
}

/// Writing a sexagesimal format and parsing the text gives the same format.
pub proof fn lemma_sexagesimal_text_roundtrip(width: usize, precision: usize)
    ensures
        format_verdict(format_text(NumberFormat::Sexagesimal { width, precision }))
            == FormatVerdict::Sexagesimal(width, precision),
{
    let s = format_text(NumberFormat::Sexagesimal { width, precision });
    let w = decimal_text(width as nat);
    let p = decimal_text(precision as nat);
    lemma_decimal_text_value(width as nat);
    lemma_decimal_text_value(precision as nat);
    let k: int = 1 + w.len() as int;
    assert(s.subrange(1, k) =~= w);
    assert(s.subrange(k + 1, s.len() - 1) =~= p);
    assert forall|i: int| 0 <= i < w.len() implies is_decimal_digit(#[trigger] w[i]) by {
        assert(is_ascii_digit(w[i]));
    }
    assert forall|i: int| 0 <= i < p.len() implies is_decimal_digit(#[trigger] p[i]) by {
        assert(is_ascii_digit(p[i]));
    }
    assert(s[k] == '.');
    assert(sexagesimal_at(s, k));
    lemma_dot_unique(s, k, sexagesimal_dot(s));
}

/// The numeric part of a sexagesimal text for a precision code, from the
/// integer components of the absolute value: `whole` units, `first` minutes,
/// and `second`, which is tenths of a minute (precision 5), seconds
/// (precision 6), tenths of a second (precision 8) or hundredths of a
/// second (precision 9). `None` for an unsupported precision.
pub open spec fn sexagesimal_numeric(whole: nat, first: nat, second: nat, precision: usize) -> Option<
    Seq<char>,
> {
    let head = decimal_text(whole) + seq![':'] + decimal_text2(first);
    if precision == 3 {
        Some(head)
    } else if precision == 5 {
        Some(head + seq!['.'] + decimal_text(second))
    } else if precision == 6 {
        Some(head + seq![':'] + decimal_text2(second))
    } else if precision == 8 {
        Some(head + seq![':'] + decimal_text2(second / 10) + seq!['.'] + decimal_text(second % 10))
    } else if precision == 9 {
        Some(head + seq![':'] + decimal_text2(second / 100) + seq!['.'] + decimal_text2(second % 100))
    } else {
        None
    }
}

/// The spaces put before a non-negative sexagesimal text: for width 7 the
/// whole part is right-aligned in four places, otherwise in three.
pub open spec fn sexagesimal_padding(whole: nat, width: usize) -> Seq<char> {
    if width == 7 {
        if whole >= 100 {
            seq![' ']
        } else if whole >= 10 {
            seq![' ', ' ']
        } else {
            seq![' ', ' ', ' ']
        }
    } else {
        if whole >= 10 {
            seq![' ']
        } else {
            seq![' ', ' ']
        }
    }
}

/// Whether a text reads back as the components of a sexagesimal number for
/// a precision code: the whole part as a plain numeral, `:` and the minutes
/// zero-padded to two places, then for precision 5 a `.` and the tenths of a
/// minute, for precision 6 a `:` and the seconds zero-padded to two places,
/// for precision 8 the seconds to two places, a `.` and one digit of tenths,
/// and for precision 9 the seconds to two places, a `.` and two digits of
/// hundredths.
pub open spec fn sexagesimal_reading(
    t: Seq<char>,
    whole: nat,
    first: nat,
    second: nat,
    precision: usize,
) -> bool {
    if precision == 3 {
        exists|d: Seq<char>, m: Seq<char>|
            #![trigger padded_numeral(d, whole, 1), padded_numeral(m, first, 2)]
            t == d + seq![':'] + m && padded_numeral(d, whole, 1) && padded_numeral(m, first, 2)
    } else if precision == 5 {
        exists|d: Seq<char>, m: Seq<char>, f: Seq<char>|
            #![trigger padded_numeral(d, whole, 1), padded_numeral(m, first, 2), padded_numeral(f, second, 1)]
            t == d + seq![':'] + m + seq!['.'] + f && padded_numeral(d, whole, 1) && padded_numeral(
                m,
                first,
                2,
            ) && padded_numeral(f, second, 1)
    } else if precision == 6 {
        exists|d: Seq<char>, m: Seq<char>, x: Seq<char>|
            #![trigger padded_numeral(d, whole, 1), padded_numeral(m, first, 2), padded_numeral(x, second, 2)]
            t == d + seq![':'] + m + seq![':'] + x && padded_numeral(d, whole, 1) && padded_numeral(
                m,
                first,
                2,
            ) && padded_numeral(x, second, 2)
    } else if precision == 8 {
        exists|d: Seq<char>, m: Seq<char>, x: Seq<char>, f: Seq<char>|
            #![trigger padded_numeral(d, whole, 1), padded_numeral(m, first, 2), padded_numeral(x, second / 10, 2), padded_numeral(f, second % 10, 1)]
            t == d + seq![':'] + m + seq![':'] + x + seq!['.'] + f && padded_numeral(d, whole, 1)
                && padded_numeral(m, first, 2) && padded_numeral(x, second / 10, 2)
                && padded_numeral(f, second % 10, 1)
    } else if precision == 9 {
        exists|d: Seq<char>, m: Seq<char>, x: Seq<char>, f: Seq<char>|
            #![trigger padded_numeral(d, whole, 1), padded_numeral(m, first, 2), padded_numeral(x, second / 100, 2), padded_numeral(f, second % 100, 2)]
            t == d + seq![':'] + m + seq![':'] + x + seq!['.'] + f && padded_numeral(d, whole, 1)
                && padded_numeral(m, first, 2) && padded_numeral(x, second / 100, 2)
                && padded_numeral(f, second % 100, 2)
    } else {
        false
    }
}

/// A sexagesimal text exists exactly for the precision codes 3, 5, 6, 8 and
/// 9, and it reads back as the components it was laid out from, every
/// padded field holding its value with zeros on the left.
pub proof fn lemma_sexagesimal_reads_back(whole: nat, first: nat, second: nat, precision: usize)
    ensures
        sexagesimal_numeric(whole, first, second, precision) is Some <==> (precision == 3
            || precision == 5 || precision == 6 || precision == 8 || precision == 9),
        sexagesimal_numeric(whole, first, second, precision) matches Some(t)
            ==> sexagesimal_reading(t, whole, first, second, precision),
{
    lemma_padded_decimal(whole);
    lemma_padded_decimal(first);
    lemma_padded_decimal(second);
    lemma_padded_decimal(second / 10);
    lemma_padded_decimal(second % 10);
    lemma_padded_decimal(second / 100);
    lemma_padded_decimal(second % 100);
    let d = decimal_text(whole);
    let m = decimal_text2(first);
    if precision == 3 {
        assert(padded_numeral(d, whole, 1) && padded_numeral(m, first, 2));
    } else if precision == 5 {
        let f = decimal_text(second);
        assert(padded_numeral(d, whole, 1) && padded_numeral(m, first, 2) && padded_numeral(
            f,
            second,
            1,
        ));
    } else if precision == 6 {
        let x = decimal_text2(second);
        assert(padded_numeral(d, whole, 1) && padded_numeral(m, first, 2) && padded_numeral(
            x,
            second,
            2,
        ));
    } else if precision == 8 {
        let x = decimal_text2(second / 10);
        let f = decimal_text(second % 10);
        assert(padded_numeral(d, whole, 1) && padded_numeral(m, first, 2) && padded_numeral(
            x,
            second / 10,
            2,
        ) && padded_numeral(f, second % 10, 1));
    } else if precision == 9 {
        let x = decimal_text2(second / 100);
        let f = decimal_text2(second % 100);
        assert(padded_numeral(d, whole, 1) && padded_numeral(m, first, 2) && padded_numeral(
            x,
            second / 100,
            2,
        ) && padded_numeral(f, second % 100, 2));
    }
}

/// The padding before a non-negative sexagesimal text is one or more spaces
/// that right-align the whole part: in four places for width 7 (whole parts
/// below 1000), in three otherwise (whole parts below 100).
pub proof fn lemma_sexagesimal_padding(whole: nat, width: usize)
    ensures
        sexagesimal_padding(whole, width).len() >= 1,
        forall|i: int|
            0 <= i < sexagesimal_padding(whole, width).len() ==> #[trigger] sexagesimal_padding(
                whole,
                width,
            )[i] == ' ',
        width == 7 && whole < 1000 ==> sexagesimal_padding(whole, width).len() + decimal_text(
            whole,
        ).len() == 4,
        width != 7 && whole < 100 ==> sexagesimal_padding(whole, width).len() + decimal_text(
            whole,
        ).len() == 3,
{
    lemma_decimal_text_len(whole);
}

/// Lays out a sexagesimal number from its sign and integer components (see
/// `sexagesimal_numeric`): negative numbers get a leading `-`, others the
/// padding of `sexagesimal_padding`.
pub fn layout_sexagesimal(
    negative: bool,
    whole: u64,
    first: u64,
    second: u64,
    width: usize,
    precision: usize,
) -> (r: Result<String>)
    ensures
        match sexagesimal_numeric(whole as nat, first as nat, second as nat, precision) {
            None => r matches Err(Error::Format(m)) && m@ == "Invalid sexagesimal precision"@,
            Some(t) => r matches Ok(x) && x@ == if negative {
                seq!['-'] + t
            } else {
                sexagesimal_padding(whole as nat, width) + t
            },
        },
{
    if !(precision == 3 || precision == 5 || precision == 6 || precision == 8 || precision == 9) {
        return Err(Error::Format(owned("Invalid sexagesimal precision")));
    }
    let mut t = String::new();
    append_decimal(&mut t, whole);
    push_char(&mut t, ':');
    append_decimal2(&mut t, first);
    let ghost head = t@;
    assert(head =~= decimal_text(whole as nat) + seq![':'] + decimal_text2(first as nat));
    if precision == 5 {
        push_char(&mut t, '.');
        append_decimal(&mut t, second);
        assert(t@ =~= head + seq!['.'] + decimal_text(second as nat));
    } else if precision == 6 {
        push_char(&mut t, ':');
        append_decimal2(&mut t, second);
        assert(t@ =~= head + seq![':'] + decimal_text2(second as nat));
    } else if precision == 8 {
        push_char(&mut t, ':');
        append_decimal2(&mut t, second / 10);
        push_char(&mut t, '.');
        append_decimal(&mut t, second % 10);
        assert(t@ =~= head + seq![':'] + decimal_text2(second as nat / 10) + seq!['.'] + decimal_text(
            second as nat % 10,
        ));
    } else if precision == 9 {
        push_char(&mut t, ':');
        append_decimal2(&mut t, second / 100);
        push_char(&mut t, '.');
        append_decimal2(&mut t, second % 100);
        assert(t@ =~= head + seq![':'] + decimal_text2(second as nat / 100) + seq!['.']
            + decimal_text2(second as nat % 100));
    }
    let mut r = String::new();
    if negative {
        push_char(&mut r, '-');
    } else if width == 7 {
        if whole >= 100 {
            push_char(&mut r, ' ');
        } else if whole >= 10 {
            push_char(&mut r, ' ');
            push_char(&mut r, ' ');
        } else {
            push_char(&mut r, ' ');
            push_char(&mut r, ' ');
            push_char(&mut r, ' ');
        }
    } else {
        if whole >= 10 {
            push_char(&mut r, ' ');
        } else {
            push_char(&mut r, ' ');
            push_char(&mut r, ' ');
        }
    }
    let ghost lead = r@;
    append(&mut r, t.as_str());
    proof {
        reveal_strlit("Invalid sexagesimal precision");
        if negative {
            assert(lead =~= seq!['-']);
        } else {
            assert(lead =~= sexagesimal_padding(whole as nat, width));
        }
    }
    Ok(r)
}


/// The characters that separate the parts of a sexagesimal number text.
pub open spec fn number_separator(c: char) -> bool {
    c == ':' || c == ';' || c == ' '
}

/// The characters a number text holds after its sign: decimal digits, dots
/// and separators.
pub open spec fn number_body_char(c: char) -> bool {
    is_decimal_digit(c) || c == '.' || number_separator(c)
}

/// A text without its leading sign, if it has one.
pub open spec fn unsigned_part(t: Seq<char>) -> Seq<char> {
    if t.len() > 0 && (t[0] == '+' || t[0] == '-') {
        t.drop_first()
    } else {
        t
    }
}

/// Whether a text is a number text, as the pattern
/// `^\s*[-+]?\d*\.?\d*(?:[:; ]\d*\.?\d*)*\s*$` accepts: once trimmed of
/// White_Space and of an optional sign, it holds only decimal digits, dots
/// and separators, with at most one dot between two separators.
pub open spec fn is_number_text(s: Seq<char>) -> bool {
    let body = unsigned_part(trim(s));
    &&& forall|i: int| 0 <= i < body.len() ==> number_body_char(#[trigger] body[i])
    &&& forall|i: int, j: int|
        0 <= i < j < body.len() && #[trigger] body[i] == '.' && #[trigger] body[j] == '.'
            ==> exists|k: int| i < k < j && number_separator(#[trigger] body[k])
}

/// The parts of a text between separators, in order (an empty text has one
/// empty part).
pub open spec fn number_parts(t: Seq<char>) -> Seq<Seq<char>>
    decreases t.len(),
{
    if t.len() == 0 {
        seq![Seq::<char>::empty()]
    } else {
        let ps = number_parts(t.drop_last());
        if number_separator(t.last()) {
            ps.push(Seq::<char>::empty())
        } else {
            ps.update(ps.len() - 1, ps.last().push(t.last()))
        }
    }
}

proof fn lemma_number_parts_len(t: Seq<char>)
    ensures
        number_parts(t).len() >= 1,
    decreases t.len(),
{
    if t.len() > 0 {
        lemma_number_parts_len(t.drop_last());
    }
}

/// Whether a text is a number text (see `is_number_text`).
pub fn number_text(s: &str) -> (r: bool)
    ensures
        r == is_number_text(s@),
{
    let c = to_chars(s);
    assert(c@.subrange(0, c@.len() as int) =~= s@);
    let t = trimmed(&c, 0, c.len());
    let tc = to_chars(t.as_str());
    let start: usize = if tc.len() > 0 && (tc[0] == '+' || tc[0] == '-') { 1 } else { 0 };
    let body = &tc.as_slice()[start..tc.len()];
    let ghost b = unsigned_part(trim(s@));
    assert(body@ =~= b);
    let mut last_dot: Option<usize> = None;
    let mut i: usize = 0;
    while i < body.len()
        invariant
            body@ == b,
            b == unsigned_part(trim(s@)),
            i <= b.len(),
            forall|k: int| 0 <= k < i ==> number_body_char(#[trigger] b[k]),
            forall|x: int, y: int|
                0 <= x < y < i && #[trigger] b[x] == '.' && #[trigger] b[y] == '.' ==> exists|k: int|
                    x < k < y && number_separator(#[trigger] b[k]),
            match last_dot {
                Some(d) => d < i && b[d as int] == '.' && forall|k: int|
                    d < k < i ==> !number_separator(#[trigger] b[k]),
                None => forall|d: int|
                    0 <= d < i && #[trigger] b[d] == '.' ==> exists|k: int|
                        d < k < i && number_separator(#[trigger] b[k]),
            },
        decreases b.len() - i,
    {
        let ch = body[i];
        if !(decimal_digit(ch) || ch == '.' || ch == ':' || ch == ';' || ch == ' ') {
            assert(!number_body_char(b[i as int]));
            return false;
        }
        if ch == '.' {
            match last_dot {
                Some(d) => {
                    assert(b[d as int] == '.' && b[i as int] == '.');
                    assert(!(exists|k: int| d < k < i && number_separator(#[trigger] b[k])));
                    return false;
                },
                None => {
                    last_dot = Some(i);
                },
            }
        } else if ch == ':' || ch == ';' || ch == ' ' {
            proof {
                assert forall|d: int| 0 <= d < i + 1 && #[trigger] b[d] == '.' implies exists|k: int|
                    d < k < i + 1 && number_separator(#[trigger] b[k]) by {
                    assert(number_separator(b[i as int]));
                }
            }
            last_dot = None;
        }
        i = i + 1;
    }
    true
}

/// The parts of a number text between separators, once trimmed of
/// White_Space (what splitting the trimmed text at `:`, `;` and ` ` gives).
pub fn number_text_parts(s: &str) -> (r: Vec<String>)
    ensures
        r@.len() == number_parts(trim(s@)).len(),
        forall|i: int| 0 <= i < r@.len() ==> #[trigger] r@[i]@ == number_parts(trim(s@))[i],
{
    let c = to_chars(s);
    assert(c@.subrange(0, c@.len() as int) =~= s@);
    let t = trimmed(&c, 0, c.len());
    let tc = to_chars(t.as_str());
    let ghost text = trim(s@);
    let mut parts: Vec<String> = Vec::new();
    let mut current = String::new();
    let mut i: usize = 0;
    while i < tc.len()
        invariant
            tc@ == text,
            i <= text.len(),
            parts@.len() + 1 == number_parts(text.take(i as int)).len(),
            forall|k: int| 0 <= k < parts@.len() ==> #[trigger] parts@[k]@ == number_parts(text.take(i as int))[k],
            current@ == number_parts(text.take(i as int)).last(),
        decreases text.len() - i,
    {
        proof {
            assert(text.take(i + 1).drop_last() =~= text.take(i as int));
            lemma_number_parts_len(text.take(i as int));
        }
        let ch = tc[i];
        if ch == ':' || ch == ';' || ch == ' ' {
            let done = current;
            parts.push(done);
            current = String::new();
        } else {
            push_char(&mut current, ch);
        }
        i = i + 1;
    }
    assert(text.take(text.len() as int) =~= text);
    parts.push(current);
    parts
}

} // verus!
