//! Character-level helpers on strings, each specified over `Seq<char>`.
use vstd::prelude::*;
use vstd::string::*;

verus! {

/// `String::push` appends one character.
pub assume_specification[ std::string::String::push ](s: &mut std::string::String, ch: char)
    ensures
        final(s)@ == old(s)@.push(ch),
;

/// The text that `{:?}` writes for a string: the string in double quotes,
/// with quotes, backslashes and characters that are not printable escaped.
pub uninterp spec fn debug_quoted(s: Seq<char>) -> Seq<char>;

/// `<str as Debug>::fmt`, through `format!("{:?}")`. What it writes depends
/// on the string alone and is named `debug_quoted`; which characters count
/// as printable rests on std's Unicode tables and is not stated.
#[verifier::external_body]
pub(crate) fn quote_debug(s: &str) -> (r: String)
    ensures
        r@ == debug_quoted(s@),
{
    format!("{:?}", s)
}

/// The characters of a string slice, in order.
pub fn chars_of(s: &str) -> (v: Vec<char>)
    ensures
        v@ == s@,
{
    let mut v: Vec<char> = Vec::new();
    for c in it: s.chars()
        invariant
            v@ == it.seq().take(it.index() as int),
            it.seq() == s@,
    {
        v.push(c);
    }
    v
}

/// Appends every character of `v` to `out`.
pub fn push_chars(out: &mut String, v: &Vec<char>)
    ensures
        final(out)@ == old(out)@ + v@,
{
    let ghost start = out@;
    for i in 0..v.len()
        invariant
            out@ == start + v@.take(i as int),
    {
        out.push(v[i]);
        assert(v@.take(i + 1) == v@.take(i as int).push(v@[i as int]));
    }
    assert(v@.take(v.len() as int) == v@);
}

/// A string holding exactly the characters of `v`.
pub fn from_chars(v: &Vec<char>) -> (s: String)
    ensures
        s@ == v@,
{
    let mut s = String::new();
    push_chars(&mut s, v);
    s
}

/// Whether two character sequences are equal.
pub fn chars_equal(a: &Vec<char>, b: &Vec<char>) -> (r: bool)
    ensures
        r == (a@ == b@),
{
    if a.len() != b.len() {
        return false;
    }
    for i in 0..a.len()
        invariant
            a.len() == b.len(),
            forall|j: int| 0 <= j < i ==> a@[j] == b@[j],
    {
        if a[i] != b[i] {
            return false;
        }
    }
    assert(a@ =~= b@);
    true
}

/// Whether two string slices hold the same characters.
pub fn str_equal(a: &str, b: &str) -> (r: bool)
    ensures
        r == (a@ == b@),
{
    let va = chars_of(a);
    let vb = chars_of(b);
    chars_equal(&va, &vb)
}

/// Unicode's `White_Space` property, the set that `char::is_whitespace` tests.
pub open spec fn is_space(c: char) -> bool {
    ||| '\u{9}' <= c <= '\u{d}'
    ||| c == ' '
    ||| c == '\u{85}'
    ||| c == '\u{a0}'
    ||| c == '\u{1680}'
    ||| '\u{2000}' <= c <= '\u{200a}'
    ||| c == '\u{2028}'
    ||| c == '\u{2029}'
    ||| c == '\u{202f}'
    ||| c == '\u{205f}'
    ||| c == '\u{3000}'
}

/// Whether `c` is a Unicode white-space character.
pub fn is_whitespace(c: char) -> (r: bool)
    ensures
        r == is_space(c),
{
    ('\u{9}' <= c && c <= '\u{d}') || c == ' ' || c == '\u{85}' || c == '\u{a0}' || c
        == '\u{1680}' || ('\u{2000}' <= c && c <= '\u{200a}') || c == '\u{2028}' || c
        == '\u{2029}' || c == '\u{202f}' || c == '\u{205f}' || c == '\u{3000}'
}

/// Number of white-space characters at the start of `s`.
pub open spec fn leading_space(s: Seq<char>) -> nat
    decreases s.len(),
{
    if s.len() > 0 && is_space(s[0]) {
        1 + leading_space(s.drop_first())
    } else {
        0
    }
}

/// Number of white-space characters at the end of `s`.
pub open spec fn trailing_space(s: Seq<char>) -> nat
    decreases s.len(),
{
    if s.len() > 0 && is_space(s.last()) {
        1 + trailing_space(s.drop_last())
    } else {
        0
    }
}

/// `s` without leading white space, as `str::trim_start` gives it.
pub open spec fn trim_start(s: Seq<char>) -> Seq<char> {
    s.skip(leading_space(s) as int)
}

/// `s` without trailing white space, as `str::trim_end` gives it.
pub open spec fn trim_end(s: Seq<char>) -> Seq<char> {
    s.take(s.len() - trailing_space(s))
}

/// `s` without leading and trailing white space, as `str::trim` gives it.
pub open spec fn trim(s: Seq<char>) -> Seq<char> {
    trim_end(trim_start(s))
}

/// Whether `s` holds nothing but white space.
pub open spec fn is_blank(s: Seq<char>) -> bool {
    trim(s).len() == 0
}

proof fn lemma_leading_space_bound(s: Seq<char>)
    ensures
        leading_space(s) <= s.len(),
    decreases s.len(),
{
    if s.len() > 0 && is_space(s[0]) {
        lemma_leading_space_bound(s.drop_first());
    }
}

proof fn lemma_trailing_space_bound(s: Seq<char>)
    ensures
        trailing_space(s) <= s.len(),
    decreases s.len(),
{
    if s.len() > 0 && is_space(s.last()) {
        lemma_trailing_space_bound(s.drop_last());
    }
}

proof fn lemma_leading_space_at(s: Seq<char>, i: int)
    requires
        0 <= i <= s.len(),
        forall|j: int| 0 <= j < i ==> is_space(s[j]),
        i == s.len() || !is_space(s[i]),
    ensures
        leading_space(s) == i,
    decreases i,
{
    if i > 0 {
        let t = s.drop_first();
        assert forall|j: int| 0 <= j < i - 1 implies is_space(t[j]) by {
            assert(t[j] == s[j + 1]);
        }
        if i - 1 < t.len() {
            assert(t[i - 1] == s[i]);
        }
        lemma_leading_space_at(t, i - 1);
    }
}

proof fn lemma_trailing_space_at(s: Seq<char>, k: int)
    requires
        0 <= k <= s.len(),
        forall|j: int| s.len() - k <= j < s.len() ==> is_space(s[j]),
        k == s.len() || !is_space(s[s.len() - k - 1]),
    ensures
        trailing_space(s) == k,
    decreases k,
{
    if k > 0 {
        let t = s.drop_last();
        assert forall|j: int| t.len() - (k - 1) <= j < t.len() implies is_space(t[j]) by {
            assert(t[j] == s[j]);
        }
        if k - 1 < t.len() {
            assert(t[t.len() - (k - 1) - 1] == s[s.len() - k - 1]);
        }
        lemma_trailing_space_at(t, k - 1);
    }
}

/// The bounds `(start, end)` such that `v[start..end]` is `v` trimmed.
pub fn trim_bounds(v: &Vec<char>) -> (r: (usize, usize))
    ensures
        r.0 <= r.1 <= v.len(),
        v@.subrange(r.0 as int, r.1 as int) == trim(v@),
{
    let n = v.len();
    let mut i: usize = 0;
    while i < n && is_whitespace(v[i])
        invariant
            i <= n == v.len(),
            forall|j: int| 0 <= j < i ==> is_space(v@[j]),
        decreases n - i,
    {
        i = i + 1;
    }
    proof {
        lemma_leading_space_at(v@, i as int);
    }
    let ghost s = v@.skip(i as int);
    let mut k: usize = 0;
    while k < n - i && is_whitespace(v[n - 1 - k])
        invariant
            i <= n == v.len(),
            k <= n - i,
            s == v@.skip(i as int),
            forall|j: int| s.len() - k <= j < s.len() ==> is_space(s[j]),
        decreases n - i - k,
    {
        assert(s[s.len() - k - 1] == v@[n - 1 - k]);
        k = k + 1;
    }
    proof {
        if k < n - i {
            assert(s[s.len() - k - 1] == v@[n - 1 - k]);
        }
        lemma_trailing_space_at(s, k as int);
        assert(v@.subrange(i as int, (n - k) as int) =~= s.take(s.len() - k));
    }
    (i, n - k)
}

/// `s` with surrounding white space removed (`str::trim`).
pub fn trim_str(s: &str) -> (r: &str)
    ensures
        r@ == trim(s@),
{
    let v = chars_of(s);
    let (a, b) = trim_bounds(&v);
    s.substring_char(a, b)
}

/// Whether `s` is empty once surrounding white space is removed.
pub fn is_blank_str(s: &str) -> (r: bool)
    ensures
        r == is_blank(s@),
{
    let v = chars_of(s);
    let (a, b) = trim_bounds(&v);
    a == b
}

/// `s` with every leading copy of `p` removed (`str::trim_start_matches`).
pub open spec fn strip_all(s: Seq<char>, p: Seq<char>) -> Seq<char>
    decreases s.len(),
{
    if p.len() > 0 && p.len() <= s.len() && s.take(p.len() as int) == p {
        strip_all(s.skip(p.len() as int), p)
    } else {
        s
    }
}

/// Whether `p` occurs in `v` at position `i`.
pub fn matches_at(v: &Vec<char>, i: usize, p: &Vec<char>) -> (r: bool)
    requires
        i <= v.len(),
    ensures
        r == (p.len() <= v.len() - i && v@.skip(i as int).take(p.len() as int) == p@),
{
    if p.len() > v.len() - i {
        return false;
    }
    let ghost w = v@.skip(i as int).take(p.len() as int);
    for j in 0..p.len()
        invariant
            i + p.len() <= v.len(),
            w == v@.skip(i as int).take(p.len() as int),
            forall|k: int| 0 <= k < j ==> w[k] == p@[k],
    {
        if v[i + j] != p[j] {
            assert(w[j as int] == v@[i + j]);
            return false;
        }
        assert(w[j as int] == v@[i + j]);
    }
    assert(w =~= p@);
    true
}

/// Moves `start` past every copy of `p` found there; the characters from the
/// returned position on are `strip_all` of those from `start` on.
pub fn skip_all(v: &Vec<char>, start: usize, p: &Vec<char>) -> (r: usize)
    requires
        start <= v.len(),
    ensures
        start <= r <= v.len(),
        v@.skip(r as int) == strip_all(v@.skip(start as int), p@),
{
    if p.len() == 0 {
        return start;
    }
    let mut i = start;
    while matches_at(v, i, p)
        invariant
            start <= i <= v.len(),
            p.len() > 0,
            strip_all(v@.skip(start as int), p@) == strip_all(v@.skip(i as int), p@),
        decreases v.len() - i,
    {
        let ghost t = v@.skip(i as int);
        assert(t.skip(p.len() as int) =~= v@.skip(i + p.len()));
        i = i + p.len();
    }
    i
}

/// ASCII case folding of one character, as a code point.
pub open spec fn ascii_fold(c: char) -> u32 {
    if 'A' <= c <= 'Z' {
        (c as u32 + 32) as u32
    } else {
        c as u32
    }
}

/// Equality up to ASCII case (`str::eq_ignore_ascii_case`).
pub open spec fn eq_ignore_ascii_case(a: Seq<char>, b: Seq<char>) -> bool {
    &&& a.len() == b.len()
    &&& forall|i: int| 0 <= i < a.len() ==> ascii_fold(#[trigger] a[i]) == ascii_fold(b[i])
}

fn fold_char(c: char) -> (r: u32)
    ensures
        r == ascii_fold(c),
{
    if 'A' <= c && c <= 'Z' {
        c as u32 + 32
    } else {
        c as u32
    }
}

/// Whether `a` and `b` are equal up to ASCII case.
pub fn str_eq_ignore_ascii_case(a: &str, b: &str) -> (r: bool)
    ensures
        r == eq_ignore_ascii_case(a@, b@),
{
    let va = chars_of(a);
    let vb = chars_of(b);
    if va.len() != vb.len() {
        return false;
    }
    for i in 0..va.len()
        invariant
            va.len() == vb.len(),
            va@ == a@,
            vb@ == b@,
            forall|j: int| 0 <= j < i ==> ascii_fold(#[trigger] va@[j]) == ascii_fold(vb@[j]),
    {
        if fold_char(va[i]) != fold_char(vb[i]) {
            return false;
        }
    }
    true
}

/// The ASCII digit for `d`.
pub open spec fn digit_char(d: nat) -> char {
    (48 + d) as char
}

/// The value of a decimal digit character.
pub open spec fn digit_value(c: char) -> nat {
    (c as u32 - 48) as nat
}

/// Whether `c` is one of `0`..`9`.
pub open spec fn is_digit(c: char) -> bool {
    '0' <= c <= '9'
}

/// Decimal digits of `n`, most significant first, without leading zeros.
pub open spec fn decimal(n: nat) -> Seq<char>
    decreases n,
{
    if n < 10 {
        seq![digit_char(n)]
    } else {
        decimal(n / 10).push(digit_char(n % 10))
    }
}

fn digit_of(d: u64) -> (c: char)
    requires
        d < 10,
    ensures
        c == digit_char(d as nat),
{
    let b: u8 = 48 + d as u8;
    b as char
}

/// Appends the decimal form of `n` to `out` (as `format!("{n}")` writes it).
pub fn push_decimal(out: &mut String, n: u64)
    ensures
        final(out)@ == old(out)@ + decimal(n as nat),
    decreases n,
{
    if n >= 10 {
        push_decimal(out, n / 10);
    }
    out.push(digit_of(n % 10));
}

/// Whether every character of `s` is a decimal digit.
pub open spec fn all_digits(s: Seq<char>) -> bool {
    forall|i: int| 0 <= i < s.len() ==> is_digit(#[trigger] s[i])
}

/// The number that the decimal digits `s` denote.
pub open spec fn digits_value(s: Seq<char>) -> nat
    decreases s.len(),
{
    if s.len() == 0 {
        0
    } else {
        digits_value(s.drop_last()) * 10 + digit_value(s.last())
    }
}

/// What Rust's `FromStr` for an integer type whose values are `lo..=hi` gives
/// for `s`: an optional sign (`-` only for a signed type), then at least one
/// decimal digit, and a value in range; `None` where it returns an error.
pub open spec fn parse_integer(s: Seq<char>, signed: bool, lo: int, hi: int) -> Option<int> {
    let has_sign = s.len() > 0 && (s[0] == '+' || (signed && s[0] == '-'));
    let negative = has_sign && s[0] == '-';
    let body = if has_sign { s.drop_first() } else { s };
    if body.len() == 0 || !all_digits(body) {
        None
    } else {
        let v = if negative { -(digits_value(body) as int) } else { digits_value(body) as int };
        if lo <= v <= hi { Some(v) } else { None }
    }
}

proof fn lemma_digits_value_prefix(s: Seq<char>, i: int, j: int)
    requires
        0 <= i <= j <= s.len(),
    ensures
        digits_value(s.take(i)) <= digits_value(s.take(j)),
    decreases j - i,
{
    if i < j {
        lemma_digits_value_prefix(s, i, j - 1);
        assert(s.take(j).drop_last() == s.take(j - 1));
    }
}

/// The value of the digits of `v` from `from` on, if there is at least one,
/// all are digits and the value is at most `cap`.
fn parse_magnitude(v: &Vec<char>, from: usize, cap: u64) -> (r: Option<u64>)
    requires
        from <= v.len(),
    ensures
        ({
            let body = v@.skip(from as int);
            match r {
                Some(m) => body.len() > 0 && all_digits(body) && digits_value(body) == m && m
                    <= cap,
                None => !(body.len() > 0 && all_digits(body) && digits_value(body) <= cap),
            }
        }),
{
    let ghost body = v@.skip(from as int);
    if from == v.len() {
        return None;
    }
    let mut acc: u64 = 0;
    let mut i: usize = from;
    while i < v.len()
        invariant
            from <= i <= v.len(),
            body == v@.skip(from as int),
            acc <= cap,
            all_digits(body.take(i - from)),
            digits_value(body.take(i - from)) == acc,
        decreases v.len() - i,
    {
        let c = v[i];
        assert(body[i - from] == c);
        if !('0' <= c && c <= '9') {
            return None;
        }
        let d: u64 = (c as u32 - 48) as u64;
        let next: u128 = (acc as u128) * 10 + d as u128;
        assert(body.take(i + 1 - from).drop_last() == body.take(i - from));
        assert(all_digits(body.take(i + 1 - from)));
        if next > cap as u128 {
            proof {
                assert(body.take(body.len() as int) == body);
                lemma_digits_value_prefix(body, i + 1 - from, body.len() as int);
                assert(v@.skip(1) == v@.drop_first());
                assert(v@.skip(0) == v@);
            }
            return None;
        }
        acc = next as u64;
        i = i + 1;
    }
    assert(body.take(i - from) == body);
    Some(acc)
}

/// Sign and magnitude of an integer literal: accepts what `parse_integer`
/// accepts for a type whose positive values go up to `cap_pos` and whose
/// negative values go down to `-cap_neg` (no `-` when `signed` is false).
pub(crate) fn parse_sign_magnitude(s: &str, signed: bool, cap_pos: u64, cap_neg: u64) -> (r: Option<
    (bool, u64),
>)
    requires
        !signed ==> cap_neg == 0,
    ensures
        match r {
            Some((neg, m)) => {
                &&& neg ==> m <= cap_neg && parse_integer(s@, signed, -cap_neg, cap_pos as int)
                    == Some(-(m as int))
                &&& !neg ==> m <= cap_pos && parse_integer(s@, signed, -cap_neg, cap_pos as int)
                    == Some(m as int)
            },
            None => parse_integer(s@, signed, -cap_neg, cap_pos as int) is None,
        },
{
    let v = chars_of(s);
    let has_sign = v.len() > 0 && (v[0] == '+' || (signed && v[0] == '-'));
    let negative = has_sign && v[0] == '-';
    let from: usize = if has_sign { 1 } else { 0 };
    assert(v@.skip(1) == v@.drop_first());
    assert(v@.skip(0) == v@);
    let cap = if negative { cap_neg } else { cap_pos };
    match parse_magnitude(&v, from, cap) {
        Some(m) => Some((negative, m)),
        None => {
            proof {
                let body = v@.skip(from as int);
                if body.len() > 0 && all_digits(body) {
                    assert(digits_value(body) > cap);
                }
            }
            None
        },
    }
}

/// `s.parse::<i64>()`, with `None` for an error.
pub fn parse_i64(s: &str) -> (r: Option<i64>)
    ensures
        match r {
            Some(x) => parse_integer(s@, true, i64::MIN as int, i64::MAX as int) == Some(x as int),
            None => parse_integer(s@, true, i64::MIN as int, i64::MAX as int) is None,
        },
{
    match parse_sign_magnitude(s, true, 9223372036854775807, 9223372036854775808) {
        Some((neg, m)) => {
            if neg {
                if m == 9223372036854775808 {
                    Some(i64::MIN)
                } else {
                    Some(-(m as i64))
                }
            } else {
                Some(m as i64)
            }
        },
        None => None,
    }
}

/// Decimal form of a signed integer, with `-` before a negative one (as
/// `i64::to_string` writes it).
pub open spec fn signed_decimal(n: int) -> Seq<char> {
    if n < 0 {
        seq!['-'] + decimal((-n) as nat)
    } else {
        decimal(n as nat)
    }
}

/// The decimal form of `n` (`n.to_string()`).
pub fn i64_to_string(n: i64) -> (r: String)
    ensures
        r@ == signed_decimal(n as int),
{
    let mut out = String::new();
    if n < 0 {
        out.push('-');
        let m: u64 = if n == i64::MIN {
            9223372036854775808
        } else {
            (-n) as u64
        };
        push_decimal(&mut out, m);
    } else {
        push_decimal(&mut out, n as u64);
    }
    out
}

/// `s.parse::<usize>()`, with `None` for an error.
pub fn parse_usize(s: &str) -> (r: Option<usize>)
    ensures
        match r {
            Some(x) => parse_integer(s@, false, 0, usize::MAX as int) == Some(x as int),
            None => parse_integer(s@, false, 0, usize::MAX as int) is None,
        },
{
    match parse_sign_magnitude(s, false, usize::MAX as u64, 0) {
        Some((neg, m)) => {
            if neg {
                Some(0)
            } else {
                Some(m as usize)
            }
        },
        None => None,
    }
}

/// Why a string is not an integer, as `core::num::IntErrorKind` tells it.
#[derive(Debug, Clone, Copy, PartialEq, Eq, Structural)]
pub enum IntErrorKind {
    Empty,
    InvalidDigit,
    PosOverflow,
    NegOverflow,
}

/// The message of an `IntErrorKind`, as `ParseIntError` displays it.
pub open spec fn int_error_text(e: IntErrorKind) -> Seq<char> {
    match e {
        IntErrorKind::Empty => "cannot parse integer from empty string"@,
        IntErrorKind::InvalidDigit => "invalid digit found in string"@,
        IntErrorKind::PosOverflow => "number too large to fit in target type"@,
        IntErrorKind::NegOverflow => "number too small to fit in target type"@,
    }
}

impl IntErrorKind {
    /// The message that reports this error.
    pub fn message(&self) -> (r: String)
        ensures
            r@ == int_error_text(*self),
    {
        match self {
            IntErrorKind::Empty => String::from_str("cannot parse integer from empty string"),
            IntErrorKind::InvalidDigit => String::from_str("invalid digit found in string"),
            IntErrorKind::PosOverflow => String::from_str("number too large to fit in target type"),
            IntErrorKind::NegOverflow => String::from_str("number too small to fit in target type"),
        }
    }
}

/// The number of decimal digits at the start of `s`.
pub open spec fn leading_digits(s: Seq<char>) -> nat
    decreases s.len(),
{
    if s.len() > 0 && is_digit(s[0]) {
        1 + leading_digits(s.drop_first())
    } else {
        0
    }
}

proof fn lemma_leading_digits_at(s: Seq<char>, i: int)
    requires
        0 <= i <= s.len(),
        forall|j: int| 0 <= j < i ==> is_digit(s[j]),
    ensures
        leading_digits(s) >= i,
        (i == s.len() || !is_digit(s[i])) ==> leading_digits(s) == i,
        leading_digits(s) <= s.len(),
    decreases s.len(),
{
    if s.len() > 0 && is_digit(s[0]) {
        let t = s.drop_first();
        let i2 = if i > 0 { i - 1 } else { 0 };
        assert forall|j: int| 0 <= j < i2 implies is_digit(t[j]) by {
            assert(t[j] == s[j + 1]);
        }
        if i > 0 && i - 1 < t.len() {
            assert(t[i - 1] == s[i]);
        }
        lemma_leading_digits_at(t, i2);
    }
}

/// The error that parsing `s` as an integer type whose values are
/// `-cap_neg..=cap_pos` gives (with `-` a sign only when `signed`): nothing to
/// parse; a sign with nothing after it or a character that is not a digit; or
/// a magnitude beyond the range, reached before any such character.
pub open spec fn int_error(s: Seq<char>, signed: bool, cap_pos: nat, cap_neg: nat) -> Option<
    IntErrorKind,
> {
    if s.len() == 0 {
        Some(IntErrorKind::Empty)
    } else {
        let has_sign = s[0] == '+' || (signed && s[0] == '-');
        let negative = has_sign && s[0] == '-';
        let body = if has_sign { s.drop_first() } else { s };
        let k = leading_digits(body);
        let cap = if negative { cap_neg } else { cap_pos };
        if body.len() == 0 {
            Some(IntErrorKind::InvalidDigit)
        } else if digits_value(body.take(k as int)) > cap {
            Some(if negative { IntErrorKind::NegOverflow } else { IntErrorKind::PosOverflow })
        } else if k < body.len() {
            Some(IntErrorKind::InvalidDigit)
        } else {
            None
        }
    }
}

/// The error that parsing `s` as an unsigned integer of at most `cap` gives.
pub open spec fn unsigned_error(s: Seq<char>, cap: nat) -> Option<IntErrorKind> {
    int_error(s, false, cap, 0)
}

/// Sign and magnitude of `s` read as an integer of `-cap_neg..=cap_pos`,
/// or the kind of error that `FromStr` reports for it.
fn parse_checked(s: &str, signed: bool, cap_pos: u64, cap_neg: u64) -> (r: Result<
    (bool, u64),
    IntErrorKind,
>)
    requires
        !signed ==> cap_neg == 0,
    ensures
        match r {
            Ok((neg, m)) => {
                &&& parse_integer(s@, signed, -cap_neg, cap_pos as int) == Some(
                    if neg { -(m as int) } else { m as int },
                )
                &&& int_error(s@, signed, cap_pos as nat, cap_neg as nat) is None
                &&& neg ==> m <= cap_neg
                &&& !neg ==> m <= cap_pos
            },
            Err(e) => parse_integer(s@, signed, -cap_neg, cap_pos as int) is None && int_error(
                s@,
                signed,
                cap_pos as nat,
                cap_neg as nat,
            ) == Some(e),
        },
{
    let v = chars_of(s);
    if v.len() == 0 {
        return Err(IntErrorKind::Empty);
    }
    let has_sign = v[0] == '+' || (signed && v[0] == '-');
    let negative = has_sign && v[0] == '-';
    let from: usize = if has_sign { 1 } else { 0 };
    let ghost body = v@.skip(from as int);
    assert(v@.skip(1) == v@.drop_first());
    assert(v@.skip(0) == v@);
    if from == v.len() {
        return Err(IntErrorKind::InvalidDigit);
    }
    let cap: u64 = if negative { cap_neg } else { cap_pos };
    let mut acc: u64 = 0;
    let mut i: usize = from;
    while i < v.len()
        invariant
            from <= i <= v.len(),
            from < v.len(),
            v@ == s@,
            has_sign == (v@[0] == '+' || (signed && v@[0] == '-')),
            negative == (has_sign && v@[0] == '-'),
            from == (if has_sign { 1usize } else { 0usize }),
            body == v@.skip(from as int),
            cap == (if negative { cap_neg } else { cap_pos }),
            acc <= cap,
            forall|j: int| 0 <= j < i - from ==> is_digit(#[trigger] body[j]),
            digits_value(body.take(i - from)) == acc,
        decreases v.len() - i,
    {
        let c = v[i];
        assert(body[i - from] == c);
        if !('0' <= c && c <= '9') {
            proof {
                lemma_leading_digits_at(body, i - from);
                assert(v@.skip(1) == v@.drop_first());
                assert(v@.skip(0) == v@);
                assert(!is_digit(body[i - from]));
                assert(!all_digits(body));
            }
            return Err(IntErrorKind::InvalidDigit);
        }
        let d: u64 = (c as u32 - 48) as u64;
        let next: u128 = (acc as u128) * 10 + d as u128;
        assert(body.take(i + 1 - from).drop_last() == body.take(i - from));
        if next > cap as u128 {
            proof {
                lemma_leading_digits_at(body, i + 1 - from);
                let k = leading_digits(body);
                lemma_digits_value_prefix(body, i + 1 - from, k as int);
                lemma_digits_value_prefix(body, i + 1 - from, body.len() as int);
                assert(v@.skip(1) == v@.drop_first());
                assert(v@.skip(0) == v@);
                assert(body.take(body.len() as int) == body);
            }
            return Err(if negative { IntErrorKind::NegOverflow } else { IntErrorKind::PosOverflow });
        }
        acc = next as u64;
        i = i + 1;
    }
    proof {
        lemma_leading_digits_at(body, body.len() as int);
        assert(body.take(body.len() as int) == body);
    }
    Ok((negative, acc))
}

/// `s.parse::<u32>()`, with the kind of error where it fails.
pub fn parse_u32_checked(s: &str) -> (r: Result<u32, IntErrorKind>)
    ensures
        match r {
            Ok(x) => parse_integer(s@, false, 0, u32::MAX as int) == Some(x as int)
                && unsigned_error(s@, u32::MAX as nat) is None,
            Err(e) => parse_integer(s@, false, 0, u32::MAX as int) is None && unsigned_error(
                s@,
                u32::MAX as nat,
            ) == Some(e),
        },
{
    match parse_checked(s, false, 4294967295, 0) {
        Ok((neg, m)) => {
            if neg {
                Ok(0)
            } else {
                Ok(m as u32)
            }
        },
        Err(e) => Err(e),
    }
}

/// `s.parse::<i32>()`, with the kind of error where it fails.
pub fn parse_i32_checked(s: &str) -> (r: Result<i32, IntErrorKind>)
    ensures
        match r {
            Ok(x) => parse_integer(s@, true, i32::MIN as int, i32::MAX as int) == Some(x as int)
                && int_error(s@, true, i32::MAX as nat, 2147483648) is None,
            Err(e) => parse_integer(s@, true, i32::MIN as int, i32::MAX as int) is None
                && int_error(s@, true, i32::MAX as nat, 2147483648) == Some(e),
        },
{
    match parse_checked(s, true, 2147483647, 2147483648) {
        Ok((neg, m)) => {
            if neg {
                Ok((0 - (m as i64)) as i32)
            } else {
                Ok(m as i32)
            }
        },
        Err(e) => Err(e),
    }
}

} // verus!
