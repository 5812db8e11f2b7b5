//! Character-level helpers shared by the parsers and formatters.
use vstd::prelude::*;
use vstd::string::*;

verus! {

/// Appends one character to a `String` (std's `String::push`).
#[verifier::external_body]
pub(crate) fn push_char(s: &mut String, c: char)
    ensures
        final(s)@ == old(s)@.push(c),
{
    s.push(c);
}

/// The characters of a string slice, in order.
pub fn to_chars(s: &str) -> (v: Vec<char>)
    ensures
        v@ == s@,
{
    let n = s.unicode_len();
    let mut v: Vec<char> = Vec::new();
    let mut i: usize = 0;
    while i < n
        invariant
            n == s@.len(),
            i <= n,
            v@ == s@.subrange(0, i as int),
        decreases n - i,
    {
        let c = s.get_char(i);
        v.push(c);
        i = i + 1;
    }
    v
}

/// A `String` holding exactly the given characters.
pub fn from_chars(v: &[char]) -> (s: String)
    ensures
        s@ == v@,
{
    let mut s = String::new();
    let mut i: usize = 0;
    while i < v.len()
        invariant
            i <= v@.len(),
            s@ == v@.subrange(0, i as int),
        decreases v.len() - i,
    {
        push_char(&mut s, v[i]);
        i = i + 1;
    }
    s
}

/// An owned copy of a string slice.
pub fn owned(s: &str) -> (r: String)
    ensures
        r@ == s@,
{
    String::from_str(s)
}

/// Appends a string slice to a `String`.
pub fn append(s: &mut String, t: &str)
    ensures
        final(s)@ == old(s)@ + t@,
{
    s.append(t);
}

/// Whether two character sequences are equal.
pub fn chars_eq(a: &[char], b: &[char]) -> (r: bool)
    ensures
        r == (a@ == b@),
{
    if a.len() != b.len() {
        return false;
    }
    let mut i: usize = 0;
    while i < a.len()
        invariant
            a@.len() == b@.len(),
            i <= a@.len(),
            forall|j: int| 0 <= j < i ==> a@[j] == b@[j],
        decreases a.len() - i,
    {
        if a[i] != b[i] {
            return false;
        }
        i = i + 1;
    }
    assert(a@ =~= b@);
    true
}

/// Whether two string slices hold the same characters.
pub fn str_eq(a: &str, b: &str) -> (r: bool)
    ensures
        r == (a@ == b@),
{
    let va = to_chars(a);
    let vb = to_chars(b);
    chars_eq(va.as_slice(), vb.as_slice())
}

/// The ASCII digit character for a digit value below ten.
pub open spec fn digit_char(d: nat) -> char {
    if d == 0 {
        '0'
    } else if d == 1 {
        '1'
    } else if d == 2 {
        '2'
    } else if d == 3 {
        '3'
    } else if d == 4 {
        '4'
    } else if d == 5 {
        '5'
    } else if d == 6 {
        '6'
    } else if d == 7 {
        '7'
    } else if d == 8 {
        '8'
    } else {
        '9'
    }
}

/// Whether a character is one of the ASCII digits '0'..='9'.
pub open spec fn is_ascii_digit(c: char) -> bool {
    '0' <= c && c <= '9'
}

/// The value of an ASCII digit character.
pub open spec fn digit_value(c: char) -> nat {
    (c as u32 - '0' as u32) as nat
}

/// The decimal text of a natural number, without sign or leading zeros.
pub open spec fn decimal_text(n: nat) -> Seq<char>
    decreases n,
{
    if n < 10 {
        seq![digit_char(n)]
    } else {
        decimal_text(n / 10).push(digit_char(n % 10))
    }
}

/// The decimal text of a number, zero-padded on the left to two characters.
pub open spec fn decimal_text2(n: nat) -> Seq<char> {
    if n < 10 {
        seq!['0'] + decimal_text(n)
    } else {
        decimal_text(n)
    }
}

/// Whether every character is an ASCII digit.
pub open spec fn all_ascii_digits(s: Seq<char>) -> bool {
    forall|i: int| 0 <= i < s.len() ==> is_ascii_digit(#[trigger] s[i])
}

/// The value of a sequence of ASCII digits, read as a decimal numeral.
pub open spec fn digits_value(s: Seq<char>) -> nat
    decreases s.len(),
{
    if s.len() == 0 {
        0
    } else {
        digits_value(s.drop_last()) * 10 + digit_value(s.last())
    }
}

proof fn lemma_digit_char(d: nat)
    requires
        d < 10,
    ensures
        is_ascii_digit(digit_char(d)),
        digit_value(digit_char(d)) == d,
{
}

/// The decimal text of a number consists of ASCII digits whose value is
/// that number.
pub proof fn lemma_decimal_text_value(n: nat)
    ensures
        decimal_text(n).len() > 0,
        all_ascii_digits(decimal_text(n)),
        digits_value(decimal_text(n)) == n,
    decreases n,
{
    if n < 10 {
        lemma_digit_char(n);
        let t = decimal_text(n);
        assert(t.drop_last() =~= Seq::<char>::empty());
        assert(digits_value(t) == digits_value(t.drop_last()) * 10 + digit_value(t.last()));
    } else {
        lemma_decimal_text_value(n / 10);
        lemma_digit_char(n % 10);
        let t = decimal_text(n);
        assert(t.drop_last() =~= decimal_text(n / 10));
        assert(n == (n / 10) * 10 + n % 10) by (nonlinear_arith);
        assert(digits_value(t) == digits_value(t.drop_last()) * 10 + digit_value(t.last()));
        assert(t.last() == digit_char(n % 10));
        assert forall|i: int| 0 <= i < t.len() implies is_ascii_digit(#[trigger] t[i]) by {
            if i < t.len() - 1 {
                assert(t[i] == decimal_text(n / 10)[i]);
            }
        }
    }
}

/// Whether `s` is the decimal numeral of `v` zero-padded on the left to `w`
/// characters: ASCII digits reading as `v`, at least `w` of them, and no
/// leading zero beyond the padding.
pub open spec fn padded_numeral(s: Seq<char>, v: nat, w: nat) -> bool {
    &&& all_ascii_digits(s)
    &&& digits_value(s) == v
    &&& s.len() >= w
    &&& s.len() > w ==> s[0] != '0'
}

/// The number of characters of a decimal numeral by the size of the number.
pub proof fn lemma_decimal_text_len(n: nat)
    ensures
        n < 10 <==> decimal_text(n).len() == 1,
        10 <= n < 100 ==> decimal_text(n).len() == 2,
        100 <= n < 1000 ==> decimal_text(n).len() == 3,
        n >= 10 ==> decimal_text(n).len() >= 2,
        n >= 100 ==> decimal_text(n).len() >= 3,
        n >= 1000 ==> decimal_text(n).len() >= 4,
        n >= 1 ==> decimal_text(n)[0] != '0',
    decreases n,
{
    if n >= 10 {
        lemma_decimal_text_len(n / 10);
        assert(decimal_text(n)[0] == decimal_text(n / 10)[0]);
    }
}

proof fn lemma_zero_prefix_value(s: Seq<char>)
    ensures
        digits_value(seq!['0'] + s) == digits_value(s),
    decreases s.len(),
{
    let z = seq!['0'] + s;
    if s.len() == 0 {
        assert(z.drop_last() =~= Seq::<char>::empty());
        assert(digit_value(z.last()) == 0);
        assert(digits_value(z) == digits_value(z.drop_last()) * 10 + digit_value(z.last()));
    } else {
        lemma_zero_prefix_value(s.drop_last());
        assert(z.drop_last() =~= seq!['0'] + s.drop_last());
        assert(z.last() == s.last());
        assert(digits_value(z) == digits_value(z.drop_last()) * 10 + digit_value(z.last()));
        assert(digits_value(s) == digits_value(s.drop_last()) * 10 + digit_value(s.last()));
    }
}

/// The decimal numeral of a number is that number unpadded, and its
/// two-character form is that number zero-padded to two characters.
pub proof fn lemma_padded_decimal(n: nat)
    ensures
        padded_numeral(decimal_text(n), n, 1),
        padded_numeral(decimal_text2(n), n, 2),
{
    lemma_decimal_text_value(n);
    lemma_decimal_text_len(n);
    if n < 10 {
        let t = seq!['0'] + decimal_text(n);
        lemma_zero_prefix_value(decimal_text(n));
        assert forall|i: int| 0 <= i < t.len() implies is_ascii_digit(#[trigger] t[i]) by {
            if i > 0 {
                assert(t[i] == decimal_text(n)[i - 1]);
            }
        }
    }
}

/// The ASCII digit character for a digit value below ten.
pub fn digit(d: u64) -> (c: char)
    requires
        d < 10,
    ensures
        c == digit_char(d as nat),
{
    if d == 0 {
        '0'
    } else if d == 1 {
        '1'
    } else if d == 2 {
        '2'
    } else if d == 3 {
        '3'
    } else if d == 4 {
        '4'
    } else if d == 5 {
        '5'
    } else if d == 6 {
        '6'
    } else if d == 7 {
        '7'
    } else if d == 8 {
        '8'
    } else {
        '9'
    }
}

/// The decimal digits of a number.
pub fn decimal_chars(n: u64) -> (r: Vec<char>)
    ensures
        r@ == decimal_text(n as nat),
    decreases n,
{
    if n < 10 {
        let mut r = Vec::new();
        r.push(digit(n));
        assert(r@ =~= seq![digit_char(n as nat)]);
        r
    } else {
        let mut r = decimal_chars(n / 10);
        r.push(digit(n % 10));
        r
    }
}

/// Appends the decimal text of a number.
pub fn append_decimal(s: &mut String, n: u64)
    ensures
        final(s)@ == old(s)@ + decimal_text(n as nat),
{
    let ds = decimal_chars(n);
    let mut i: usize = 0;
    let ghost start = s@;
    while i < ds.len()
        invariant
            i <= ds@.len(),
            ds@ == decimal_text(n as nat),
            s@ == start + ds@.subrange(0, i as int),
        decreases ds.len() - i,
    {
        push_char(s, ds[i]);
        assert(start + ds@.subrange(0, i + 1) =~= (start + ds@.subrange(0, i as int)).push(ds@[i as int]));
        i = i + 1;
    }
    assert(ds@.subrange(0, ds@.len() as int) =~= ds@);
}

/// Appends the decimal text of a number, zero-padded to two characters.
pub fn append_decimal2(s: &mut String, n: u64)
    ensures
        final(s)@ == old(s)@ + decimal_text2(n as nat),
{
    let ghost start = s@;
    if n < 10 {
        push_char(s, '0');
        append_decimal(s, n);
        assert(s@ =~= start + (seq!['0'] + decimal_text(n as nat)));
    } else {
        append_decimal(s, n);
    }
}

/// Unicode White_Space characters: the characters `char::is_whitespace`
/// and `str::trim` treat as whitespace.
pub open spec fn is_white_space(c: char) -> bool {
    ||| ('\u{9}' <= c && c <= '\u{d}')
    ||| c == ' '
    ||| c == '\u{85}'
    ||| c == '\u{a0}'
    ||| c == '\u{1680}'
    ||| ('\u{2000}' <= c && c <= '\u{200a}')
    ||| c == '\u{2028}'
    ||| c == '\u{2029}'
    ||| c == '\u{202f}'
    ||| c == '\u{205f}'
    ||| c == '\u{3000}'
}

/// Whether a character is Unicode White_Space.
pub fn white_space(c: char) -> (r: bool)
    ensures
        r == is_white_space(c),
{
    ('\u{9}' <= c && c <= '\u{d}') || c == ' ' || c == '\u{85}' || c == '\u{a0}' || c == '\u{1680}'
        || ('\u{2000}' <= c && c <= '\u{200a}') || c == '\u{2028}' || c == '\u{2029}' || c
        == '\u{202f}' || c == '\u{205f}' || c == '\u{3000}'
}

/// The number of leading White_Space characters.
pub open spec fn leading_space(s: Seq<char>) -> nat
    decreases s.len(),
{
    if s.len() > 0 && is_white_space(s[0]) {
        1 + leading_space(s.drop_first())
    } else {
        0
    }
}

/// The number of trailing White_Space characters.
pub open spec fn trailing_space(s: Seq<char>) -> nat
    decreases s.len(),
{
    if s.len() > 0 && is_white_space(s.last()) {
        1 + trailing_space(s.drop_last())
    } else {
        0
    }
}

/// A text without its leading White_Space.
pub open spec fn trim_start(s: Seq<char>) -> Seq<char> {
    s.skip(leading_space(s) as int)
}

/// A text without leading and trailing White_Space (what `str::trim` gives).
pub open spec fn trim(s: Seq<char>) -> Seq<char> {
    let t = trim_start(s);
    t.take(t.len() - trailing_space(t))
}

proof fn lemma_leading_space_len(s: Seq<char>)
    ensures
        leading_space(s) <= s.len(),
    decreases s.len(),
{
    if s.len() > 0 && is_white_space(s[0]) {
        lemma_leading_space_len(s.drop_first());
    }
}

proof fn lemma_trailing_space_len(s: Seq<char>)
    ensures
        trailing_space(s) <= s.len(),
    decreases s.len(),
{
    if s.len() > 0 && is_white_space(s.last()) {
        lemma_trailing_space_len(s.drop_last());
    }
}

proof fn lemma_leading_space_concat(s: Seq<char>, t: Seq<char>)
    requires
        leading_space(s) < s.len(),
    ensures
        leading_space(s + t) == leading_space(s),
    decreases s.len(),
{
    if is_white_space(s[0]) {
        assert((s + t).drop_first() =~= s.drop_first() + t);
        lemma_leading_space_concat(s.drop_first(), t);
    }
}

proof fn lemma_trailing_space_concat(u: Seq<char>, t: Seq<char>)
    ensures
        trailing_space(u + t) <= t.len() + trailing_space(u),
    decreases t.len(),
{
    if t.len() == 0 {
        assert(u + t =~= u);
    } else if is_white_space(t.last()) {
        assert((u + t).drop_last() =~= u + t.drop_last());
        lemma_trailing_space_concat(u, t.drop_last());
    }
}

/// When a text has something left after trimming, what is left is the
/// start of what is left of the text with anything appended to it.
pub proof fn lemma_trim_prefix(s: Seq<char>, t: Seq<char>)
    requires
        trim(s).len() > 0,
    ensures
        trim(s).len() <= trim(s + t).len(),
        trim(s + t).take(trim(s).len() as int) == trim(s),
{
    lemma_leading_space_len(s);
    let l = leading_space(s) as int;
    assert(l < s.len()) by {
        if l == s.len() {
            assert(trim_start(s).len() == 0);
        }
    }
    lemma_leading_space_concat(s, t);
    let u = s.skip(l);
    assert(trim_start(s) == u);
    assert(trim_start(s + t) =~= u + t);
    lemma_trailing_space_len(u);
    lemma_trailing_space_concat(u, t);
    lemma_trailing_space_len(u + t);
    let m = u.len() - trailing_space(u);
    assert(trim(s) == u.take(m));
    assert(trim(s + t) == (u + t).take((u + t).len() - trailing_space(u + t)));
    assert(trim(s + t).take(m) =~= u.take(m));
}

/// Trimming never lengthens a text.
pub proof fn lemma_trim_len(s: Seq<char>)
    ensures
        trim(s).len() <= s.len(),
{
    lemma_leading_space_len(s);
    lemma_trailing_space_len(trim_start(s));
}

proof fn lemma_leading_space(s: Seq<char>, i: int)
    requires
        0 <= i <= s.len(),
        forall|j: int| 0 <= j < i ==> is_white_space(#[trigger] s[j]),
        i < s.len() ==> !is_white_space(s[i]),
    ensures
        leading_space(s) == i,
    decreases i,
{
    if i > 0 {
        assert forall|j: int| 0 <= j < i - 1 implies is_white_space(#[trigger] s.drop_first()[j]) by {
            assert(s.drop_first()[j] == s[j + 1]);
        }
        lemma_leading_space(s.drop_first(), i - 1);
    }
}

proof fn lemma_trailing_space(s: Seq<char>, i: int)
    requires
        0 <= i <= s.len(),
        forall|j: int| s.len() - i <= j < s.len() ==> is_white_space(#[trigger] s[j]),
        i < s.len() ==> !is_white_space(s[s.len() - i - 1]),
    ensures
        trailing_space(s) == i,
    decreases i,
{
    if i > 0 {
        assert forall|j: int| s.drop_last().len() - (i - 1) <= j < s.drop_last().len() implies is_white_space(#[trigger] s.drop_last()[j]) by {
            assert(s.drop_last()[j] == s[j]);
        }
        lemma_trailing_space(s.drop_last(), i - 1);
    }
}

/// `c[lo..hi]` without leading and trailing White_Space, as a `String`.
pub fn trimmed(c: &Vec<char>, lo: usize, hi: usize) -> (r: String)
    requires
        lo <= hi <= c@.len(),
    ensures
        r@ == trim(c@.subrange(lo as int, hi as int)),
{
    let ghost s = c@.subrange(lo as int, hi as int);
    let mut a = lo;
    while a < hi && white_space(c[a])
        invariant
            lo <= a <= hi <= c@.len(),
            s == c@.subrange(lo as int, hi as int),
            forall|j: int| 0 <= j < a - lo ==> is_white_space(#[trigger] s[j]),
        decreases hi - a,
    {
        a = a + 1;
    }
    proof {
        lemma_leading_space(s, a - lo);
    }
    let ghost t = trim_start(s);
    assert(t =~= c@.subrange(a as int, hi as int));
    let mut b = hi;
    while b > a && white_space(c[b - 1])
        invariant
            lo <= a <= b <= hi <= c@.len(),
            t == c@.subrange(a as int, hi as int),
            forall|j: int| t.len() - (hi - b) <= j < t.len() ==> is_white_space(#[trigger] t[j]),
        decreases b - a,
    {
        b = b - 1;
    }
    proof {
        lemma_trailing_space(t, (hi - b) as int);
        assert(t.take(t.len() - trailing_space(t)) =~= c@.subrange(a as int, b as int));
    }
    from_chars(&c.as_slice()[a..b])
}

/// Whether `p` occurs in `s` at index `i`.
pub open spec fn occurs_at(s: Seq<char>, p: Seq<char>, i: int) -> bool {
    0 <= i && i + p.len() <= s.len() && s.subrange(i, i + p.len()) == p
}

/// The index of the first occurrence of `p` in `s` (what `str::find` gives,
/// counted in characters).
#[verifier::opaque]
pub open spec fn find(s: Seq<char>, p: Seq<char>) -> Option<int> {
    if exists|i: int| occurs_at(s, p, i) {
        Some(choose|i: int| occurs_at(s, p, i) && forall|j: int| 0 <= j < i ==> !occurs_at(s, p, j))
    } else {
        None
    }
}

/// The first occurrence is the occurrence with none before it.
pub proof fn lemma_find_first(s: Seq<char>, p: Seq<char>, i: int)
    requires
        occurs_at(s, p, i),
        forall|j: int| 0 <= j < i ==> !occurs_at(s, p, j),
    ensures
        find(s, p) == Some(i),
{
    reveal(find);
    let k = choose|k: int| occurs_at(s, p, k) && forall|j: int| 0 <= j < k ==> !occurs_at(s, p, j);
    assert(occurs_at(s, p, k) && forall|j: int| 0 <= j < k ==> !occurs_at(s, p, j));
    if k < i {
    } else if i < k {
    }
}

/// Whether `p` occurs in `s` at index `i`.
fn matches_at(s: &Vec<char>, p: &Vec<char>, i: usize) -> (r: bool)
    ensures
        r == occurs_at(s@, p@, i as int),
{
    if i > s.len() || p.len() > s.len() - i {
        return false;
    }
    let mut j: usize = 0;
    while j < p.len()
        invariant
            j <= p@.len(),
            i <= s@.len(),
            p@.len() <= s@.len() - i,
            forall|k: int| 0 <= k < j ==> s@[i + k] == p@[k],
        decreases p.len() - j,
    {
        let n = s.len();
        assert(i + j < n);
        if s[i + j] != p[j] {
            assert(s@.subrange(i as int, i + p@.len())[j as int] == s@[i + j]);
            return false;
        }
        j = j + 1;
    }
    assert(s@.subrange(i as int, i + p@.len()) =~= p@);
    true
}

/// The index of the first occurrence of `p` in `s` at or after `from`,
/// relative to `from`.
pub fn find_from(s: &Vec<char>, p: &Vec<char>, from: usize) -> (r: Option<usize>)
    requires
        from <= s@.len(),
    ensures
        match find(s@.skip(from as int), p@) {
            Some(i) => r == Some(i as usize),
            None => r is None,
        },
        r matches Some(i) ==> from + i + p.len() <= s.len() && find(s@.skip(from as int), p@) == Some(i as int),
{
    let ghost t = s@.skip(from as int);
    let mut i: usize = from;
    while i < s.len()
        invariant
            from <= i <= s@.len(),
            t == s@.skip(from as int),
            forall|j: int| 0 <= j < i - from ==> !occurs_at(t, p@, j),
        decreases s.len() - i,
    {
        let m = matches_at(s, p, i);
        proof {
            let k = (i - from) as int;
            if m {
                assert(t.subrange(k, k + p@.len()) =~= s@.subrange(i as int, i + p@.len()));
            } else if occurs_at(t, p@, k) {
                assert(t.subrange(k, k + p@.len()) =~= s@.subrange(i as int, i + p@.len()));
            }
        }
        if m {
            proof {
                lemma_find_first(t, p@, (i - from) as int);
            }
            return Some(i - from);
        }
        i = i + 1;
    }
    let m = matches_at(s, p, i);
    proof {
        let k = (i - from) as int;
        if m {
            assert(t.subrange(k, k + p@.len()) =~= s@.subrange(i as int, i + p@.len()));
            lemma_find_first(t, p@, k);
        } else if occurs_at(t, p@, k) {
            assert(t.subrange(k, k + p@.len()) =~= s@.subrange(i as int, i + p@.len()));
        }
    }
    if m {
        return Some(i - from);
    }
    proof {
        reveal(find);
        assert forall|k: int| !occurs_at(t, p@, k) by {
            if 0 <= k && k < i - from {
            }
        }
    }
    None
}

/// ASCII lower-casing of one character.
pub open spec fn ascii_lower(c: char) -> char {
    if 'A' <= c && c <= 'Z' {
        ((c as u32) + 32) as char
    } else {
        c
    }
}

/// Whether `s` equals the lower-case ASCII word `w` ignoring ASCII case.
pub open spec fn eq_ignore_ascii_case(s: Seq<char>, w: Seq<char>) -> bool {
    s.len() == w.len() && forall|i: int| 0 <= i < s.len() ==> ascii_lower(#[trigger] s[i]) == w[i]
}

/// The index of the first exponent marker (`e` or `E`), or the length.
pub open spec fn exponent_mark(t: Seq<char>) -> nat
    decreases t.len(),
{
    if t.len() == 0 {
        0
    } else if t[0] == 'e' || t[0] == 'E' {
        0
    } else {
        1 + exponent_mark(t.drop_first())
    }
}

/// A mantissa: ASCII digits with at most one `.` and at least one digit.
pub open spec fn mantissa_text(m: Seq<char>) -> bool {
    &&& forall|i: int| 0 <= i < m.len() ==> (is_ascii_digit(#[trigger] m[i]) || m[i] == '.')
    &&& forall|i: int, j: int| 0 <= i < j < m.len() && #[trigger] m[i] == '.' ==> #[trigger] m[j] != '.'
    &&& exists|i: int| 0 <= i < m.len() && is_ascii_digit(#[trigger] m[i])
}

/// An exponent: an optional sign and at least one ASCII digit.
pub open spec fn exponent_text(x: Seq<char>) -> bool {
    let y = if x.len() > 0 && (x[0] == '+' || x[0] == '-') {
        x.drop_first()
    } else {
        x
    };
    y.len() > 0 && all_ascii_digits(y)
}

/// The texts `str::parse::<f64>` accepts, per the grammar std documents:
/// an optional sign, then `inf`, `infinity` or `nan` (ignoring ASCII case),
/// or a mantissa with an optional exponent.
pub open spec fn is_float_text(s: Seq<char>) -> bool {
    let t = if s.len() > 0 && (s[0] == '+' || s[0] == '-') {
        s.drop_first()
    } else {
        s
    };
    let k = exponent_mark(t) as int;
    ||| eq_ignore_ascii_case(t, seq!['i', 'n', 'f'])
    ||| eq_ignore_ascii_case(t, seq!['i', 'n', 'f', 'i', 'n', 'i', 't', 'y'])
    ||| eq_ignore_ascii_case(t, seq!['n', 'a', 'n'])
    ||| (mantissa_text(t.take(k)) && (k == t.len() || exponent_text(t.skip(k + 1))))
}

/// A number text without a sign stays a number text with a `-` or `+` in
/// front of it: negative numbers read as numbers.
pub proof fn lemma_signed_float_text(s: Seq<char>, sign: char)
    requires
        is_float_text(s),
        s.len() > 0 && s[0] != '+' && s[0] != '-',
        sign == '-' || sign == '+',
    ensures
        is_float_text(seq![sign] + s),
{
    assert((seq![sign] + s).drop_first() =~= s);
}

fn same_ignoring_case(c: char, w: char) -> (r: bool)
    ensures
        r == (ascii_lower(c) == w),
{
    if 'A' <= c && c <= 'Z' {
        (c as u32) + 32 == (w as u32)
    } else {
        c == w
    }
}

fn word_ignore_case(t: &[char], w: &[char]) -> (r: bool)
    ensures
        r == eq_ignore_ascii_case(t@, w@),
{
    if t.len() != w.len() {
        return false;
    }
    let mut i: usize = 0;
    while i < t.len()
        invariant
            t@.len() == w@.len(),
            i <= t@.len(),
            forall|j: int| 0 <= j < i ==> ascii_lower(#[trigger] t@[j]) == w@[j],
        decreases t.len() - i,
    {
        if !same_ignoring_case(t[i], w[i]) {
            return false;
        }
        i = i + 1;
    }
    true
}

proof fn lemma_exponent_mark(t: Seq<char>, k: int)
    requires
        0 <= k <= t.len(),
        forall|j: int| 0 <= j < k ==> #[trigger] t[j] != 'e' && t[j] != 'E',
        k < t.len() ==> (t[k] == 'e' || t[k] == 'E'),
    ensures
        exponent_mark(t) == k,
    decreases k,
{
    if k > 0 {
        assert forall|j: int| 0 <= j < k - 1 implies #[trigger] t.drop_first()[j] != 'e' && t.drop_first()[j] != 'E' by {
            assert(t.drop_first()[j] == t[j + 1]);
        }
        lemma_exponent_mark(t.drop_first(), k - 1);
    }
}

fn mantissa_ok(m: &[char]) -> (r: bool)
    ensures
        r == mantissa_text(m@),
{
    let mut dots: usize = 0;
    let mut digits = false;
    let mut i: usize = 0;
    while i < m.len()
        invariant
            i <= m@.len(),
            dots <= 1,
            forall|j: int| 0 <= j < i ==> (is_ascii_digit(#[trigger] m@[j]) || m@[j] == '.'),
            dots == 0 ==> forall|j: int| 0 <= j < i ==> #[trigger] m@[j] != '.',
            dots == 1 ==> exists|j: int| 0 <= j < i && #[trigger] m@[j] == '.' && forall|l: int|
                0 <= l < i && l != j ==> m@[l] != '.',
            digits == exists|j: int| 0 <= j < i && is_ascii_digit(#[trigger] m@[j]),
        decreases m.len() - i,
    {
        let c = m[i];
        if c == '.' {
            if dots == 1 {
                proof {
                    let j = choose|j: int| 0 <= j < i && #[trigger] m@[j] == '.' && forall|l: int|
                        0 <= l < i && l != j ==> m@[l] != '.';
                    assert(m@[j] == '.' && m@[i as int] == '.');
                }
                return false;
            }
            dots = 1;
            proof {
                assert(m@[i as int] == '.');
            }
        } else if '0' <= c && c <= '9' {
            digits = true;
            proof {
                assert(is_ascii_digit(m@[i as int]));
            }
        } else {
            return false;
        }
        i = i + 1;
    }
    proof {
        if dots == 1 {
            let j = choose|j: int| 0 <= j < i && #[trigger] m@[j] == '.' && forall|l: int|
                0 <= l < i && l != j ==> m@[l] != '.';
            assert forall|a: int, b: int| 0 <= a < b < m@.len() && #[trigger] m@[a] == '.' implies #[trigger] m@[b] != '.' by {
                if m@[b] == '.' {
                    assert(a == j || b == j);
                }
            }
        }
    }
    digits
}

fn exponent_ok(x: &[char]) -> (r: bool)
    ensures
        r == exponent_text(x@),
{
    let start: usize = if x.len() > 0 && (x[0] == '+' || x[0] == '-') { 1 } else { 0 };
    let ghost y = x@.skip(start as int);
    assert(start == 1 ==> y =~= x@.drop_first());
    assert(start == 0 ==> y =~= x@);
    if start >= x.len() {
        return false;
    }
    let mut i: usize = start;
    while i < x.len()
        invariant
            start <= i <= x@.len(),
            y == x@.skip(start as int),
            exponent_text(x@) == (y.len() > 0 && all_ascii_digits(y)),
            forall|j: int| 0 <= j < i - start ==> is_ascii_digit(#[trigger] y[j]),
        decreases x.len() - i,
    {
        if !('0' <= x[i] && x[i] <= '9') {
            assert(y[i - start] == x@[i as int]);
            assert(!is_ascii_digit(y[i - start]));
            return false;
        }
        assert(y[i - start] == x@[i as int]);
        i = i + 1;
    }
    true
}

/// Whether `str::parse::<f64>` accepts the text (see `is_float_text`).
pub fn float_text(s: &[char]) -> (r: bool)
    ensures
        r == is_float_text(s@),
{
    let start: usize = if s.len() > 0 && (s[0] == '+' || s[0] == '-') { 1 } else { 0 };
    let t = &s[start..s.len()];
    assert(start == 1 ==> t@ =~= s@.drop_first());
    assert(start == 0 ==> t@ =~= s@);
    proof {
        reveal_strlit("inf");
        reveal_strlit("infinity");
        reveal_strlit("nan");
    }
    let inf = to_chars("inf");
    let infinity = to_chars("infinity");
    let nan = to_chars("nan");
    if word_ignore_case(t, inf.as_slice()) || word_ignore_case(t, infinity.as_slice())
        || word_ignore_case(t, nan.as_slice()) {
        return true;
    }
    let mut k: usize = 0;
    while k < t.len() && t[k] != 'e' && t[k] != 'E'
        invariant
            k <= t@.len(),
            forall|j: int| 0 <= j < k ==> #[trigger] t@[j] != 'e' && t@[j] != 'E',
        decreases t.len() - k,
    {
        k = k + 1;
    }
    proof {
        lemma_exponent_mark(t@, k as int);
    }
    let m = mantissa_ok(&t[0..k]);
    assert(t@.subrange(0, k as int) =~= t@.take(k as int));
    if !m {
        return false;
    }
    if k == t.len() {
        return true;
    }
    let e = exponent_ok(&t[k + 1..t.len()]);
    assert(t@.subrange(k + 1, t@.len() as int) =~= t@.skip(k + 1));
    e
}

/// Appends the characters of a string slice to a character vector.
pub fn extend_chars(v: &mut Vec<char>, s: &str)
    ensures
        final(v)@ == old(v)@ + s@,
{
    let c = to_chars(s);
    let ghost start = v@;
    let mut i: usize = 0;
    while i < c.len()
        invariant
            i <= c@.len(),
            c@ == s@,
            v@ == start + c@.subrange(0, i as int),
        decreases c.len() - i,
    {
        v.push(c[i]);
        assert(start + c@.subrange(0, i + 1) =~= (start + c@.subrange(0, i as int)).push(c@[i as int]));
        i = i + 1;
    }
    assert(c@.subrange(0, c@.len() as int) =~= c@);
}

} // verus!
