use vstd::prelude::*;
use vstd::string::*;

use crate::error::IntErrorKind;

verus! {

/// The characters of `s`, in order.
pub fn chars_of(s: &str) -> (res: Vec<char>)
    ensures
        res@ == s@,
{
    let n = s.unicode_len();
    let mut out: Vec<char> = Vec::new();
    let mut i: usize = 0;
    while i < n
        invariant
            n == s@.len(),
            i <= n,
            out@ == s@.take(i as int),
        decreases n - i,
    {
        let c = s.get_char(i);
        out.push(c);
        i = i + 1;
        assert(out@ =~= s@.take(i as int));
    }
    assert(out@ =~= s@);
    out
}

/// Whether `cs` holds exactly the characters of `lit`.
pub fn chars_eq_str(cs: &Vec<char>, lit: &str) -> (res: bool)
    ensures
        res == (cs@ == lit@),
{
    let n = lit.unicode_len();
    if cs.len() != n {
        return false;
    }
    let mut i: usize = 0;
    while i < n
        invariant
            n == lit@.len(),
            n == cs@.len(),
            i <= n,
            cs@.take(i as int) == lit@.take(i as int),
        decreases n - i,
    {
        if cs[i] != lit.get_char(i) {
            return false;
        }
        i = i + 1;
        assert(cs@.take(i as int) =~= cs@.take(i - 1).push(cs@[i - 1]));
        assert(lit@.take(i as int) =~= lit@.take(i - 1).push(lit@[i - 1]));
    }
    assert(cs@ =~= cs@.take(n as int));
    assert(lit@ =~= lit@.take(n as int));
    true
}

/// Whether every character of `s` is an ASCII decimal digit.
pub open spec fn all_digits(s: Seq<char>) -> bool {
    forall|i: int| 0 <= i < s.len() ==> is_digit(#[trigger] s[i])
}

/// Whether `cs` ends with the characters of `lit`.
pub fn ends_with_str(cs: &Vec<char>, lit: &str) -> (res: bool)
    ensures
        res == (lit@.len() <= cs@.len() && cs@.skip(cs@.len() - lit@.len()) == lit@),
{
    let n = cs.len();
    let m = lit.unicode_len();
    if m > n {
        return false;
    }
    let start = n - m;
    let mut i: usize = 0;
    while i < m
        invariant
            n == cs@.len(),
            m == lit@.len(),
            start == n - m,
            i <= m,
            forall|j: int| 0 <= j < i ==> cs@[start + j] == lit@[j],
        decreases m - i,
    {
        if cs[start + i] != lit.get_char(i) {
            assert(cs@.skip(start as int)[i as int] != lit@[i as int]);
            return false;
        }
        i = i + 1;
    }
    assert(cs@.skip(start as int) =~= lit@);
    true
}

/// Whether the first `k` characters of `cs` are all ASCII decimal digits.
pub fn digits_prefix(cs: &Vec<char>, k: usize) -> (res: bool)
    requires
        k <= cs@.len(),
    ensures
        res == all_digits(cs@.take(k as int)),
{
    let mut i: usize = 0;
    while i < k
        invariant
            k <= cs@.len(),
            i <= k,
            all_digits(cs@.take(i as int)),
        decreases k - i,
    {
        let c = cs[i];
        if !('0' <= c && c <= '9') {
            assert(!is_digit(cs@.take(k as int)[i as int]));
            return false;
        }
        i = i + 1;
        assert forall|j: int| 0 <= j < i implies is_digit(#[trigger] cs@.take(i as int)[j]) by {
            if j < i - 1 {
                assert(cs@.take(i as int)[j] == cs@.take(i - 1)[j]);
            }
        }
    }
    assert(cs@.take(k as int) =~= cs@.take(i as int));
    true
}

/// The characters of `cs` from `a` up to `b`.
pub fn sub_chars(cs: &Vec<char>, a: usize, b: usize) -> (res: Vec<char>)
    requires
        a <= b <= cs@.len(),
    ensures
        res@ == cs@.subrange(a as int, b as int),
{
    let mut out: Vec<char> = Vec::new();
    let mut i: usize = a;
    while i < b
        invariant
            a <= i <= b,
            b <= cs@.len(),
            out@ == cs@.subrange(a as int, i as int),
        decreases b - i,
    {
        out.push(cs[i]);
        i = i + 1;
        assert(out@ =~= cs@.subrange(a as int, i as int));
    }
    out
}

/// Whether `c` has the Unicode `White_Space` property, as `char::is_whitespace` says.
pub open spec fn is_whitespace(c: char) -> bool {
    ('\u{9}' <= c && c <= '\u{d}') || c == ' ' || c == '\u{85}' || c == '\u{a0}' || c == '\u{1680}'
        || ('\u{2000}' <= c && c <= '\u{200a}') || c == '\u{2028}' || c == '\u{2029}' || c == '\u{202f}'
        || c == '\u{205f}' || c == '\u{3000}'
}

/// `s` without its leading whitespace.
pub open spec fn trim_start_spec(s: Seq<char>) -> Seq<char>
    decreases s.len(),
{
    if s.len() > 0 && is_whitespace(s[0]) {
        trim_start_spec(s.drop_first())
    } else {
        s
    }
}

/// `s` without its trailing whitespace.
pub open spec fn trim_end_spec(s: Seq<char>) -> Seq<char>
    decreases s.len(),
{
    if s.len() > 0 && is_whitespace(s.last()) {
        trim_end_spec(s.drop_last())
    } else {
        s
    }
}

/// `s` without its leading and trailing whitespace, as `str::trim` gives it.
pub open spec fn trim_spec(s: Seq<char>) -> Seq<char> {
    trim_end_spec(trim_start_spec(s))
}

fn is_whitespace_exec(c: char) -> (res: bool)
    ensures
        res == is_whitespace(c),
{
    ('\u{9}' <= c && c <= '\u{d}') || c == ' ' || c == '\u{85}' || c == '\u{a0}' || c == '\u{1680}'
        || ('\u{2000}' <= c && c <= '\u{200a}') || c == '\u{2028}' || c == '\u{2029}' || c == '\u{202f}'
        || c == '\u{205f}' || c == '\u{3000}'
}

/// `s` without its leading and trailing whitespace.
pub fn trim_str<'a>(s: &'a str) -> (res: &'a str)
    ensures
        res@ == trim_spec(s@),
{
    let cs = chars_of(s);
    let n = cs.len();
    let mut a: usize = 0;
    assert(cs@.subrange(0, n as int) =~= cs@);
    while a < n && is_whitespace_exec(cs[a])
        invariant
            n == cs@.len(),
            a <= n,
            trim_start_spec(cs@.subrange(a as int, n as int)) == trim_start_spec(cs@),
        decreases n - a,
    {
        assert(cs@.subrange(a as int, n as int).drop_first() =~= cs@.subrange(a + 1, n as int));
        a = a + 1;
    }
    let mut b: usize = n;
    while b > a && is_whitespace_exec(cs[b - 1])
        invariant
            n == cs@.len(),
            a <= b <= n,
            trim_start_spec(cs@) == cs@.subrange(a as int, n as int),
            trim_end_spec(cs@.subrange(a as int, b as int)) == trim_spec(cs@),
        decreases b - a,
    {
        assert(cs@.subrange(a as int, b as int).drop_last() =~= cs@.subrange(a as int, b - 1));
        b = b - 1;
    }
    s.substring_char(a, b)
}

/// The character of the decimal digit `d`.
pub open spec fn digit_char(d: int) -> char {
    (d + '0' as int) as char
}

/// The decimal writing of `n`, without leading zeros.
pub open spec fn decimal_spec(n: nat) -> Seq<char>
    decreases n,
{
    if n < 10 {
        seq![digit_char(n as int)]
    } else {
        decimal_spec(n / 10).push(digit_char((n % 10) as int))
    }
}

/// Whether `c` is one of the ASCII decimal digits.
pub open spec fn is_digit(c: char) -> bool {
    '0' <= c && c <= '9'
}

/// The value of the decimal digit `c`.
pub open spec fn digit_value(c: char) -> int {
    c as int - '0' as int
}

/// Reads the magnitude written by `ds`, from the left, as the standard
/// library's integer parser does: each character must be a decimal digit;
/// the value read so far is multiplied by ten (failing with `over` above
/// `limit`), then the digit's value is added (failing with `over` above
/// `limit`).
pub open spec fn scan_magnitude(ds: Seq<char>, limit: nat, over: IntErrorKind) -> Result<nat, IntErrorKind>
    decreases ds.len(),
{
    if ds.len() == 0 {
        Ok(0)
    } else {
        match scan_magnitude(ds.drop_last(), limit, over) {
            Err(k) => Err(k),
            Ok(v) => if !is_digit(ds.last()) {
                Err(IntErrorKind::InvalidDigit)
            } else if v * 10 > limit {
                Err(over)
            } else if v * 10 + digit_value(ds.last()) > limit {
                Err(over)
            } else {
                Ok((v * 10 + digit_value(ds.last())) as nat)
            },
        }
    }
}

/// The integer that `s` writes in decimal, within `min ..= max`, as the
/// standard library's `from_str` for integer types reads it: an optional
/// sign (`-` only where `min` is negative), then one or more digits.
pub open spec fn parse_int_spec(s: Seq<char>, min: int, max: int) -> Result<int, IntErrorKind> {
    if s.len() == 0 {
        Err(IntErrorKind::Empty)
    } else if (s[0] == '+' || s[0] == '-') && s.len() == 1 {
        Err(IntErrorKind::InvalidDigit)
    } else if s[0] == '+' {
        match scan_magnitude(s.drop_first(), max as nat, IntErrorKind::PosOverflow) {
            Ok(v) => Ok(v as int),
            Err(k) => Err(k),
        }
    } else if s[0] == '-' && min < 0 {
        match scan_magnitude(s.drop_first(), (-min) as nat, IntErrorKind::NegOverflow) {
            Ok(v) => Ok(-v),
            Err(k) => Err(k),
        }
    } else {
        match scan_magnitude(s, max as nat, IntErrorKind::PosOverflow) {
            Ok(v) => Ok(v as int),
            Err(k) => Err(k),
        }
    }
}

proof fn lemma_scan_bounded(ds: Seq<char>, limit: nat, over: IntErrorKind)
    ensures
        scan_magnitude(ds, limit, over) matches Ok(v) ==> v <= limit,
    decreases ds.len(),
{
    if ds.len() > 0 {
        lemma_scan_bounded(ds.drop_last(), limit, over);
    }
}

/// What `parse_int_spec` reads lies within its bounds.
pub proof fn lemma_parse_int_bounded(s: Seq<char>, min: int, max: int)
    requires
        min <= 0 <= max,
    ensures
        parse_int_spec(s, min, max) matches Ok(v) ==> min <= v <= max,
{
    if s.len() > 0 {
        lemma_scan_bounded(s.drop_first(), max as nat, IntErrorKind::PosOverflow);
        lemma_scan_bounded(s.drop_first(), (-min) as nat, IntErrorKind::NegOverflow);
        lemma_scan_bounded(s, max as nat, IntErrorKind::PosOverflow);
    }
}

/// Reads the magnitude written by `cs[start..]`; see `scan_magnitude`.
fn scan_magnitude_exec(cs: &Vec<char>, start: usize, limit: u64, over: IntErrorKind) -> (res: Result<u64, IntErrorKind>)
    requires
        start <= cs@.len(),
    ensures
        match scan_magnitude(cs@.skip(start as int), limit as nat, over) {
            Ok(v) => res == Ok::<u64, IntErrorKind>(v as u64),
            Err(k) => res == Err::<u64, IntErrorKind>(k),
        },
{
    let n = cs.len();
    let mut v: u64 = 0;
    let mut i: usize = start;
    assert(cs@.skip(start as int).take(0) =~= Seq::<char>::empty());
    while i < n
        invariant
            n == cs@.len(),
            start <= i <= n,
            scan_magnitude(cs@.skip(start as int).take(i - start), limit as nat, over) == Ok::<nat, IntErrorKind>(v as nat),
        decreases n - i,
    {
        let ghost ds = cs@.skip(start as int).take(i + 1 - start);
        assert(ds.drop_last() =~= cs@.skip(start as int).take(i - start));
        assert(ds.last() == cs@[i as int]);
        proof {
            lemma_scan_bounded(ds.drop_last(), limit as nat, over);
        }
        let c = cs[i];
        if !('0' <= c && c <= '9') {
            proof { lemma_prefix_error(cs@.skip(start as int), i + 1 - start, limit as nat, over); }
            return Err(IntErrorKind::InvalidDigit);
        }
        if v > limit / 10 {
            proof { lemma_prefix_error(cs@.skip(start as int), i + 1 - start, limit as nat, over); }
            return Err(over);
        }
        let tens: u64 = v * 10;
        let d: u64 = ((c as u32) - ('0' as u32)) as u64;
        if d > limit - tens {
            proof { lemma_prefix_error(cs@.skip(start as int), i + 1 - start, limit as nat, over); }
            return Err(over);
        }
        v = tens + d;
        i = i + 1;
    }
    assert(cs@.skip(start as int).take(n - start) =~= cs@.skip(start as int));
    Ok(v)
}

/// An error on a prefix is the error of the whole.
proof fn lemma_prefix_error(ds: Seq<char>, k: int, limit: nat, over: IntErrorKind)
    requires
        0 < k <= ds.len(),
        scan_magnitude(ds.take(k), limit, over) is Err,
    ensures
        scan_magnitude(ds, limit, over) == scan_magnitude(ds.take(k), limit, over),
    decreases ds.len() - k,
{
    if k < ds.len() {
        assert(ds.take(k + 1).drop_last() =~= ds.take(k));
        lemma_prefix_error(ds, k + 1, limit, over);
    } else {
        assert(ds.take(k) =~= ds);
    }
}

/// Reads an integer within `min ..= max` from `cs`; see `parse_int_spec`.
pub fn parse_int_chars(cs: &Vec<char>, min: i128, max: i128) -> (res: Result<i128, IntErrorKind>)
    requires
        -0x1_0000_0000_0000_0000 < min <= 0,
        0 <= max < 0x1_0000_0000_0000_0000,
    ensures
        match parse_int_spec(cs@, min as int, max as int) {
            Ok(v) => res == Ok::<i128, IntErrorKind>(v as i128),
            Err(k) => res == Err::<i128, IntErrorKind>(k),
        },
{
    let n = cs.len();
    if n == 0 {
        return Err(IntErrorKind::Empty);
    }
    let first = cs[0];
    if (first == '+' || first == '-') && n == 1 {
        return Err(IntErrorKind::InvalidDigit);
    }
    assert(cs@.skip(0) =~= cs@);
    assert(cs@.skip(1) =~= cs@.drop_first());
    if first == '+' {
        match scan_magnitude_exec(cs, 1, max as u64, IntErrorKind::PosOverflow) {
            Ok(v) => Ok(v as i128),
            Err(k) => Err(k),
        }
    } else if first == '-' && min < 0 {
        match scan_magnitude_exec(cs, 1, (-min) as u64, IntErrorKind::NegOverflow) {
            Ok(v) => Ok(-(v as i128)),
            Err(k) => Err(k),
        }
    } else {
        match scan_magnitude_exec(cs, 0, max as u64, IntErrorKind::PosOverflow) {
            Ok(v) => Ok(v as i128),
            Err(k) => Err(k),
        }
    }
}

} // verus!
