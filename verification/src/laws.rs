use vstd::prelude::*;

use crate::actix::{
    Backlog, KeepAlive, MaxConnectionRate, MaxConnections, NumWorkers, Timeout, amount_with_suffix,
    count_setting_spec, positive_count_spec,
};
use crate::actix::{Address, AddressView, Mode};
use crate::address::{address_at, digits_end, elements_at, find_quote, skip_ws};
use crate::error::{AtErrorView, IntErrorKind};
use crate::parse::{int_value_spec, Parse};
use crate::text::{
    all_digits, decimal_spec, digit_char, digit_value, is_digit, parse_int_spec, scan_magnitude,
};

verus! {

proof fn lemma_digit_char(d: int)
    requires
        0 <= d < 10,
    ensures
        is_digit(digit_char(d)),
        digit_value(digit_char(d)) == d,
{
}

/// The decimal writing of `n` is one or more digits.
pub proof fn lemma_decimal_digits(n: nat)
    ensures
        decimal_spec(n).len() >= 1,
        all_digits(decimal_spec(n)),
    decreases n,
{
    lemma_digit_char((n % 10) as int);
    if n >= 10 {
        lemma_decimal_digits(n / 10);
        let s = decimal_spec(n);
        assert forall|i: int| 0 <= i < s.len() implies is_digit(#[trigger] s[i]) by {
            if i < s.len() - 1 {
                assert(s[i] == decimal_spec(n / 10)[i]);
            }
        }
    }
}

/// Reading the decimal writing of `n` gives back `n`, where `n` is within the limit.
pub proof fn lemma_scan_decimal(n: nat, limit: nat, over: crate::error::IntErrorKind)
    requires
        n <= limit,
    ensures
        scan_magnitude(decimal_spec(n), limit, over) == Ok::<nat, crate::error::IntErrorKind>(n),
    decreases n,
{
    let s = decimal_spec(n);
    lemma_digit_char((n % 10) as int);
    if n < 10 {
        assert(s.drop_last() =~= Seq::<char>::empty());
        assert(s.last() == digit_char(n as int));
        assert(scan_magnitude(s.drop_last(), limit, over) == Ok::<nat, crate::error::IntErrorKind>(0));
    } else {
        lemma_scan_decimal(n / 10, limit, over);
        assert(s.drop_last() =~= decimal_spec(n / 10));
        assert(s.last() == digit_char((n % 10) as int));
        assert((n / 10) * 10 + n % 10 == n);
    }
}

/// The decimal writing of an integer within `min ..= max` reads back as that integer.
pub proof fn lemma_parse_decimal(n: nat, min: int, max: int)
    requires
        min <= 0,
        n <= max,
    ensures
        parse_int_spec(decimal_spec(n), min, max) == Ok::<int, crate::error::IntErrorKind>(n as int),
        int_value_spec(decimal_spec(n), min, max) == Some(n as int),
{
    lemma_decimal_digits(n);
    lemma_scan_decimal(n, max as nat, crate::error::IntErrorKind::PosOverflow);
    assert(is_digit(decimal_spec(n)[0]));
}

/// The decimal writing of a positive count that fits in a `usize` is read
/// by every count setting as that count.
pub proof fn lemma_counts_read_decimal(n: nat)
    requires
        0 < n <= usize::MAX,
    ensures
        NumWorkers::parse_spec(decimal_spec(n)) == Some(NumWorkers::Manual(n as usize)),
        Backlog::parse_spec(decimal_spec(n)) == Some(Backlog::Manual(n as usize)),
        MaxConnections::parse_spec(decimal_spec(n)) == Some(MaxConnections::Manual(n as usize)),
        MaxConnectionRate::parse_spec(decimal_spec(n)) == Some(MaxConnectionRate::Manual(n as usize)),
{
    lemma_parse_decimal(n, 0, usize::MAX as int);
    lemma_decimal_digits(n);
    reveal_strlit("default");
    assert(decimal_spec(n) != "default"@) by {
        assert(is_digit(decimal_spec(n)[0]));
    }
    assert(positive_count_spec(decimal_spec(n)) == Some(n as usize));
    assert(count_setting_spec(decimal_spec(n)) == Some(Some(n as usize)));
}

/// `N` followed by `suffix` reads as `N`, for the decimal writing of any
/// `N` that fits in a `usize`.
proof fn lemma_amount_decimal(n: nat, suffix: Seq<char>)
    requires
        n <= usize::MAX,
    ensures
        amount_with_suffix(decimal_spec(n) + suffix, suffix) == Some(n as usize),
{
    let d = decimal_spec(n);
    let text = d + suffix;
    lemma_parse_decimal(n, 0, usize::MAX as int);
    lemma_decimal_digits(n);
    assert(text.skip(d.len() as int) =~= suffix);
    assert(text.take(d.len() as int) =~= d);
}

/// `N seconds`, with `N` the decimal writing of a positive count, is the
/// keep-alive of `N` seconds.
pub proof fn lemma_keep_alive_reads_seconds(n: nat)
    requires
        0 < n <= usize::MAX,
    ensures
        KeepAlive::parse_spec(decimal_spec(n) + " seconds"@) == Some(KeepAlive::Seconds(n as usize)),
{
    let text = decimal_spec(n) + " seconds"@;
    lemma_amount_decimal(n, " seconds"@);
    lemma_decimal_digits(n);
    reveal_strlit("default");
    reveal_strlit("disabled");
    reveal_strlit("os");
    assert(is_digit(text[0]));
    assert(text != "default"@ && text != "disabled"@ && text != "os"@);
}

/// `N milliseconds` and `N seconds`, with `N` the decimal writing of a positive
/// count that fits in a `usize`, are the timeouts of `N` milliseconds and of `N`
/// seconds.
pub proof fn lemma_timeout_reads_units(n: nat)
    requires
        0 < n <= usize::MAX,
    ensures
        Timeout::parse_spec(decimal_spec(n) + " milliseconds"@) == Some(Timeout::Milliseconds(n as usize)),
        Timeout::parse_spec(decimal_spec(n) + " seconds"@) == Some(Timeout::Seconds(n as usize)),
{
    let ms = decimal_spec(n) + " milliseconds"@;
    let secs = decimal_spec(n) + " seconds"@;
    lemma_amount_decimal(n, " milliseconds"@);
    lemma_amount_decimal(n, " seconds"@);
    lemma_decimal_digits(n);
    reveal_strlit("default");
    reveal_strlit(" seconds");
    reveal_strlit(" milliseconds");
    assert(is_digit(ms[0]));
    assert(is_digit(secs[0]));
    assert(ms != "default"@);
    assert(secs != "default"@);
    let k = secs.len() - 13;
    if 13 < secs.len() {
        assert(secs.skip(k)[5] == ' ');
        assert(secs.skip(k) != " milliseconds"@);
    }
    assert(amount_with_suffix(secs, " milliseconds"@) is None);
}

pub(crate) proof fn lemma_find_quote_at(s: Seq<char>, i: int, k: int)
    requires
        0 <= i <= k < s.len(),
        s[k] == '"',
        forall|j: int| i <= j < k ==> s[j] != '"',
    ensures
        find_quote(s, i) == k,
    decreases k - i,
{
    if i < k {
        lemma_find_quote_at(s, i + 1, k);
    }
}

pub(crate) proof fn lemma_digits_end_at(s: Seq<char>, i: int, k: int)
    requires
        0 <= i <= k < s.len(),
        !is_digit(s[k]),
        forall|j: int| i <= j < k ==> is_digit(s[j]),
    ensures
        digits_end(s, i) == k,
    decreases k - i,
{
    if i < k {
        lemma_digits_end_at(s, i + 1, k);
    }
}

/// The text `["host",port]` that writes an address.
pub open spec fn address_text(host: Seq<char>, port: u16) -> Seq<char> {
    seq!['[', '"'] + host + seq!['"', ','] + decimal_spec(port as nat) + seq![']']
}

/// Whether `host` can be written between double quotes: it is not empty
/// and holds no double quote.
pub open spec fn writable_host(host: Seq<char>) -> bool {
    host.len() > 0 && forall|i: int| 0 <= i < host.len() ==> host[i] != '"'
}

/// An address written as `["host",port]` anywhere in a text is read there,
/// up to just after its closing bracket.
proof fn lemma_address_at_within(pre: Seq<char>, host: Seq<char>, port: u16, post: Seq<char>)
    requires
        writable_host(host),
    ensures
        address_at(pre + address_text(host, port) + post, pre.len() as int)
            == Some((AddressView { host, port }, (pre.len() + address_text(host, port).len()) as int)),
{
    let d = decimal_spec(port as nat);
    let a = address_text(host, port);
    let t = pre + a + post;
    let o: int = pre.len() as int;
    let q: int = o + 2 + host.len() as int;
    let e: int = q + 2 + d.len();
    lemma_decimal_digits(port as nat);
    lemma_parse_decimal(port as nat, 0, u16::MAX as int);
    assert(a.len() == e + 1 - o);
    assert forall|j: int| 0 <= j < a.len() implies t[o + j] == a[j] by {}
    assert(t[o] == '[' && t[o + 1] == '"' && t[q] == '"' && t[q + 1] == ',' && t[e] == ']') by {
        assert(a[0] == '[' && a[1] == '"');
        assert(a[q - o] == '"' && a[q + 1 - o] == ',' && a[e - o] == ']');
    }
    assert forall|j: int| 0 <= j < host.len() implies t[o + 2 + j] == host[j] by {
        assert(t[o + 2 + j] == a[2 + j]);
    }
    assert forall|j: int| 0 <= j < d.len() implies t[q + 2 + j] == d[j] by {
        assert(t[q + 2 + j] == a[q + 2 + j - o]);
    }
    assert(t.subrange(o + 2, q) =~= host);
    assert(t.subrange(q + 2, e) =~= d);
    assert(is_digit(d[0]));
    assert(skip_ws(t, o + 1) == o + 1);
    assert forall|j: int| o + 2 <= j < q implies t[j] != '"' by {
        assert(t[j] == host[j - o - 2]);
    }
    lemma_find_quote_at(t, o + 2, q);
    assert(skip_ws(t, q + 1) == q + 1);
    assert(t[q + 2] == d[0]);
    assert(skip_ws(t, q + 2) == q + 2);
    assert forall|j: int| q + 2 <= j < e implies is_digit(t[j]) by {
        assert(t[j] == d[j - q - 2]);
    }
    lemma_digits_end_at(t, q + 2, e);
    assert(skip_ws(t, e) == e);
}

/// An address written as `["host",port]`, with a host that can be written
/// between double quotes, reads back as that address.
pub proof fn lemma_address_reads_back(host: Seq<char>, port: u16)
    requires
        writable_host(host),
    ensures
        Address::parse_spec(address_text(host, port)) == Some(AddressView { host, port }),
{
    let t = address_text(host, port);
    lemma_address_at_within(Seq::empty(), host, port, Seq::empty());
    assert(Seq::<char>::empty() + t + Seq::<char>::empty() =~= t);
    assert(skip_ws(t, 0) == 0);
    assert(skip_ws(t, t.len() as int) == t.len());
}

/// The addresses of `xs` written one after the other, separated by commas,
/// and followed by the closing bracket of their list.
pub open spec fn elements_text(xs: Seq<AddressView>) -> Seq<char>
    decreases xs.len(),
{
    if xs.len() <= 1 {
        if xs.len() == 0 {
            seq![']']
        } else {
            address_text(xs[0].host, xs[0].port) + seq![']']
        }
    } else {
        address_text(xs[0].host, xs[0].port) + seq![','] + elements_text(xs.drop_first())
    }
}

/// The list of the addresses `xs`, written as in the default template
/// without whitespace: `[["host",port],["host",port]]`.
pub open spec fn address_list_text(xs: Seq<AddressView>) -> Seq<char> {
    seq!['['] + elements_text(xs)
}

proof fn lemma_elements_at_within(pre: Seq<char>, xs: Seq<AddressView>, post: Seq<char>)
    requires
        xs.len() > 0,
        forall|i: int| 0 <= i < xs.len() ==> writable_host(#[trigger] xs[i].host),
    ensures
        elements_at(pre + elements_text(xs) + post, pre.len() as int)
            == Some((xs, (pre.len() + elements_text(xs).len()) as int)),
    decreases xs.len(),
{
    let x = xs[0];
    let a = address_text(x.host, x.port);
    let t = pre + elements_text(xs) + post;
    let o: int = pre.len() as int;
    let c: int = o + a.len();
    assert(writable_host(xs[0].host));
    if xs.len() == 1 {
        assert(t =~= pre + a + (seq![']'] + post));
        lemma_address_at_within(pre, x.host, x.port, seq![']'] + post);
        assert(t[c] == ']');
        assert(skip_ws(t, c) == c);
        assert(xs =~= seq![x]);
    } else {
        let rest = xs.drop_first();
        let pre2 = pre + a + seq![','];
        assert(t =~= pre + a + (seq![','] + elements_text(rest) + post));
        lemma_address_at_within(pre, x.host, x.port, seq![','] + elements_text(rest) + post);
        assert(t[c] == ',');
        assert(skip_ws(t, c) == c);
        assert forall|i: int| 0 <= i < rest.len() implies writable_host(#[trigger] rest[i].host) by {
            assert(rest[i] == xs[i + 1]);
        }
        assert(t =~= pre2 + elements_text(rest) + post);
        lemma_elements_at_within(pre2, rest, post);
        let first = elements_text(rest)[0];
        assert(elements_text(rest)[0] == '[') by {
            let y = rest[0];
            if rest.len() <= 1 {
                assert(elements_text(rest) == address_text(y.host, y.port) + seq![']']);
            } else {
                assert(elements_text(rest) == address_text(y.host, y.port) + seq![','] + elements_text(rest.drop_first()));
            }
        }
        assert(t[c + 1] == '[');
        assert(skip_ws(t, c + 1) == c + 1);
        assert(seq![x] + rest =~= xs);
    }
}

/// A list of addresses written as `[["host",port],...]`, each with a host
/// that can be written between double quotes, reads back as those addresses.
pub proof fn lemma_address_list_reads_back(xs: Seq<AddressView>)
    requires
        forall|i: int| 0 <= i < xs.len() ==> writable_host(#[trigger] xs[i].host),
    ensures
        Vec::<Address>::parse_spec(address_list_text(xs)) == Some(xs),
{
    let t = address_list_text(xs);
    assert(skip_ws(t, 0) == 0);
    if xs.len() == 0 {
        assert(t =~= seq!['[', ']']);
        assert(skip_ws(t, 1) == 1);
        assert(skip_ws(t, 2) == 2);
        assert(xs =~= Seq::empty());
    } else {
        lemma_elements_at_within(seq!['['], xs, Seq::empty());
        assert(seq!['['] + elements_text(xs) + Seq::<char>::empty() =~= t);
        let y = xs[0];
        assert(writable_host(xs[0].host));
        assert(elements_text(xs)[0] == '[') by {
            if xs.len() <= 1 {
                assert(elements_text(xs) == address_text(y.host, y.port) + seq![']']);
            } else {
                assert(elements_text(xs) == address_text(y.host, y.port) + seq![','] + elements_text(xs.drop_first()));
            }
        }
        assert(t[1] == '[');
        assert(skip_ws(t, 1) == 1);
        assert(skip_ws(t, t.len() as int) == t.len());
    }
}


/// Reading the decimal writing of `n` past `limit` overflows.
proof fn lemma_scan_decimal_over(n: nat, limit: nat, over: IntErrorKind)
    requires
        n > limit,
    ensures
        scan_magnitude(decimal_spec(n), limit, over) == Err::<nat, IntErrorKind>(over),
    decreases n,
{
    let s = decimal_spec(n);
    lemma_digit_char((n % 10) as int);
    if n < 10 {
        assert(s.drop_last() =~= Seq::<char>::empty());
        assert(scan_magnitude(s.drop_last(), limit, over) == Ok::<nat, IntErrorKind>(0));
    } else {
        assert(s.drop_last() =~= decimal_spec(n / 10));
        assert(s.last() == digit_char((n % 10) as int));
        assert((n / 10) * 10 + n % 10 == n);
        if n / 10 > limit {
            lemma_scan_decimal_over(n / 10, limit, over);
        } else {
            lemma_scan_decimal(n / 10, limit, over);
        }
    }
}

/// What an integer read within `min ..= max` gives for the decimal writing
/// of `n`, alone or after a sign.
proof fn lemma_int_texts(n: nat, min: int, max: int)
    requires
        min <= 0 <= max,
    ensures
        n <= max ==> parse_int_spec(decimal_spec(n), min, max) == Ok::<int, IntErrorKind>(n as int),
        n <= max ==> parse_int_spec(seq!['+'] + decimal_spec(n), min, max) == Ok::<int, IntErrorKind>(n as int),
        n > max ==> parse_int_spec(decimal_spec(n), min, max) == Err::<int, IntErrorKind>(IntErrorKind::PosOverflow),
        min < 0 && n <= -min ==> parse_int_spec(seq!['-'] + decimal_spec(n), min, max) == Ok::<int, IntErrorKind>(-n),
        min < 0 && n > -min ==> parse_int_spec(seq!['-'] + decimal_spec(n), min, max)
            == Err::<int, IntErrorKind>(IntErrorKind::NegOverflow),
        min == 0 ==> parse_int_spec(seq!['-'] + decimal_spec(n), min, max)
            == Err::<int, IntErrorKind>(IntErrorKind::InvalidDigit),
{
    let d = decimal_spec(n);
    lemma_decimal_digits(n);
    assert(is_digit(d[0]));
    let plus = seq!['+'] + d;
    let minus = seq!['-'] + d;
    assert(plus.drop_first() =~= d);
    assert(minus.drop_first() =~= d);
    assert(plus[0] == '+' && plus.len() > 1);
    assert(minus[0] == '-' && minus.len() > 1);
    if n <= max {
        lemma_scan_decimal(n, max as nat, IntErrorKind::PosOverflow);
    } else {
        lemma_scan_decimal_over(n, max as nat, IntErrorKind::PosOverflow);
    }
    if min < 0 {
        if n <= -min {
            lemma_scan_decimal(n, (-min) as nat, IntErrorKind::NegOverflow);
        } else {
            lemma_scan_decimal_over(n, (-min) as nat, IntErrorKind::NegOverflow);
        }
    } else {
        lemma_scan_leading_non_digit(minus, max as nat, IntErrorKind::PosOverflow);
    }
}

/// A text whose first character is no digit, followed only by digits, reads
/// as an invalid digit.
proof fn lemma_scan_leading_non_digit(s: Seq<char>, limit: nat, over: IntErrorKind)
    requires
        s.len() >= 1,
        !is_digit(s[0]),
    ensures
        scan_magnitude(s, limit, over) == Err::<nat, IntErrorKind>(IntErrorKind::InvalidDigit),
    decreases s.len(),
{
    if s.len() == 1 {
        assert(s.drop_last() =~= Seq::<char>::empty());
        assert(s.last() == s[0]);
    } else {
        assert(s.drop_last()[0] == s[0]);
        lemma_scan_leading_non_digit(s.drop_last(), limit, over);
    }
}

/// Every integer type reads the decimal writing of any of its values, with
/// or without a `+` (and after a `-` for a negative value), as that value,
/// and refuses the writing of a value past its range as an overflow, as the
/// standard library's integer parsing does; an unsigned type refuses a `-`.
pub proof fn lemma_integers_read_their_decimal_writing(n: nat)
    ensures
        n <= u8::MAX ==> <u8 as Parse>::parse_spec(decimal_spec(n)) == Some(n as u8),
        n <= u8::MAX ==> <u8 as Parse>::parse_spec(seq!['+'] + decimal_spec(n)) == Some(n as u8),
        n > u8::MAX ==> <u8 as Parse>::parse_spec(decimal_spec(n)) is None,
        n > u8::MAX ==> <u8 as Parse>::parse_error_spec(decimal_spec(n)) == AtErrorView::ParseIntError(IntErrorKind::PosOverflow),
        <u8 as Parse>::parse_spec(seq!['-'] + decimal_spec(n)) is None,
        <u8 as Parse>::parse_error_spec(seq!['-'] + decimal_spec(n)) == AtErrorView::ParseIntError(IntErrorKind::InvalidDigit),
        n <= u16::MAX ==> <u16 as Parse>::parse_spec(decimal_spec(n)) == Some(n as u16),
        n <= u16::MAX ==> <u16 as Parse>::parse_spec(seq!['+'] + decimal_spec(n)) == Some(n as u16),
        n > u16::MAX ==> <u16 as Parse>::parse_spec(decimal_spec(n)) is None,
        n > u16::MAX ==> <u16 as Parse>::parse_error_spec(decimal_spec(n)) == AtErrorView::ParseIntError(IntErrorKind::PosOverflow),
        <u16 as Parse>::parse_spec(seq!['-'] + decimal_spec(n)) is None,
        <u16 as Parse>::parse_error_spec(seq!['-'] + decimal_spec(n)) == AtErrorView::ParseIntError(IntErrorKind::InvalidDigit),
        n <= u32::MAX ==> <u32 as Parse>::parse_spec(decimal_spec(n)) == Some(n as u32),
        n <= u32::MAX ==> <u32 as Parse>::parse_spec(seq!['+'] + decimal_spec(n)) == Some(n as u32),
        n > u32::MAX ==> <u32 as Parse>::parse_spec(decimal_spec(n)) is None,
        n > u32::MAX ==> <u32 as Parse>::parse_error_spec(decimal_spec(n)) == AtErrorView::ParseIntError(IntErrorKind::PosOverflow),
        <u32 as Parse>::parse_spec(seq!['-'] + decimal_spec(n)) is None,
        <u32 as Parse>::parse_error_spec(seq!['-'] + decimal_spec(n)) == AtErrorView::ParseIntError(IntErrorKind::InvalidDigit),
        n <= u64::MAX ==> <u64 as Parse>::parse_spec(decimal_spec(n)) == Some(n as u64),
        n <= u64::MAX ==> <u64 as Parse>::parse_spec(seq!['+'] + decimal_spec(n)) == Some(n as u64),
        n > u64::MAX ==> <u64 as Parse>::parse_spec(decimal_spec(n)) is None,
        n > u64::MAX ==> <u64 as Parse>::parse_error_spec(decimal_spec(n)) == AtErrorView::ParseIntError(IntErrorKind::PosOverflow),
        <u64 as Parse>::parse_spec(seq!['-'] + decimal_spec(n)) is None,
        <u64 as Parse>::parse_error_spec(seq!['-'] + decimal_spec(n)) == AtErrorView::ParseIntError(IntErrorKind::InvalidDigit),
        n <= usize::MAX ==> <usize as Parse>::parse_spec(decimal_spec(n)) == Some(n as usize),
        n <= usize::MAX ==> <usize as Parse>::parse_spec(seq!['+'] + decimal_spec(n)) == Some(n as usize),
        n > usize::MAX ==> <usize as Parse>::parse_spec(decimal_spec(n)) is None,
        n > usize::MAX ==> <usize as Parse>::parse_error_spec(decimal_spec(n)) == AtErrorView::ParseIntError(IntErrorKind::PosOverflow),
        <usize as Parse>::parse_spec(seq!['-'] + decimal_spec(n)) is None,
        <usize as Parse>::parse_error_spec(seq!['-'] + decimal_spec(n)) == AtErrorView::ParseIntError(IntErrorKind::InvalidDigit),
        n <= i8::MAX ==> <i8 as Parse>::parse_spec(decimal_spec(n)) == Some(n as i8),
        n <= i8::MAX ==> <i8 as Parse>::parse_spec(seq!['+'] + decimal_spec(n)) == Some(n as i8),
        n > i8::MAX ==> <i8 as Parse>::parse_spec(decimal_spec(n)) is None,
        n > i8::MAX ==> <i8 as Parse>::parse_error_spec(decimal_spec(n)) == AtErrorView::ParseIntError(IntErrorKind::PosOverflow),
        n <= -(i8::MIN as int) ==> <i8 as Parse>::parse_spec(seq!['-'] + decimal_spec(n)) == Some((-n) as i8),
        n > -(i8::MIN as int) ==> <i8 as Parse>::parse_spec(seq!['-'] + decimal_spec(n)) is None,
        n > -(i8::MIN as int) ==> <i8 as Parse>::parse_error_spec(seq!['-'] + decimal_spec(n)) == AtErrorView::ParseIntError(IntErrorKind::NegOverflow),
        n <= i16::MAX ==> <i16 as Parse>::parse_spec(decimal_spec(n)) == Some(n as i16),
        n <= i16::MAX ==> <i16 as Parse>::parse_spec(seq!['+'] + decimal_spec(n)) == Some(n as i16),
        n > i16::MAX ==> <i16 as Parse>::parse_spec(decimal_spec(n)) is None,
        n > i16::MAX ==> <i16 as Parse>::parse_error_spec(decimal_spec(n)) == AtErrorView::ParseIntError(IntErrorKind::PosOverflow),
        n <= -(i16::MIN as int) ==> <i16 as Parse>::parse_spec(seq!['-'] + decimal_spec(n)) == Some((-n) as i16),
        n > -(i16::MIN as int) ==> <i16 as Parse>::parse_spec(seq!['-'] + decimal_spec(n)) is None,
        n > -(i16::MIN as int) ==> <i16 as Parse>::parse_error_spec(seq!['-'] + decimal_spec(n)) == AtErrorView::ParseIntError(IntErrorKind::NegOverflow),
        n <= i32::MAX ==> <i32 as Parse>::parse_spec(decimal_spec(n)) == Some(n as i32),
        n <= i32::MAX ==> <i32 as Parse>::parse_spec(seq!['+'] + decimal_spec(n)) == Some(n as i32),
        n > i32::MAX ==> <i32 as Parse>::parse_spec(decimal_spec(n)) is None,
        n > i32::MAX ==> <i32 as Parse>::parse_error_spec(decimal_spec(n)) == AtErrorView::ParseIntError(IntErrorKind::PosOverflow),
        n <= -(i32::MIN as int) ==> <i32 as Parse>::parse_spec(seq!['-'] + decimal_spec(n)) == Some((-n) as i32),
        n > -(i32::MIN as int) ==> <i32 as Parse>::parse_spec(seq!['-'] + decimal_spec(n)) is None,
        n > -(i32::MIN as int) ==> <i32 as Parse>::parse_error_spec(seq!['-'] + decimal_spec(n)) == AtErrorView::ParseIntError(IntErrorKind::NegOverflow),
        n <= i64::MAX ==> <i64 as Parse>::parse_spec(decimal_spec(n)) == Some(n as i64),
        n <= i64::MAX ==> <i64 as Parse>::parse_spec(seq!['+'] + decimal_spec(n)) == Some(n as i64),
        n > i64::MAX ==> <i64 as Parse>::parse_spec(decimal_spec(n)) is None,
        n > i64::MAX ==> <i64 as Parse>::parse_error_spec(decimal_spec(n)) == AtErrorView::ParseIntError(IntErrorKind::PosOverflow),
        n <= -(i64::MIN as int) ==> <i64 as Parse>::parse_spec(seq!['-'] + decimal_spec(n)) == Some((-n) as i64),
        n > -(i64::MIN as int) ==> <i64 as Parse>::parse_spec(seq!['-'] + decimal_spec(n)) is None,
        n > -(i64::MIN as int) ==> <i64 as Parse>::parse_error_spec(seq!['-'] + decimal_spec(n)) == AtErrorView::ParseIntError(IntErrorKind::NegOverflow),
        n <= isize::MAX ==> <isize as Parse>::parse_spec(decimal_spec(n)) == Some(n as isize),
        n <= isize::MAX ==> <isize as Parse>::parse_spec(seq!['+'] + decimal_spec(n)) == Some(n as isize),
        n > isize::MAX ==> <isize as Parse>::parse_spec(decimal_spec(n)) is None,
        n > isize::MAX ==> <isize as Parse>::parse_error_spec(decimal_spec(n)) == AtErrorView::ParseIntError(IntErrorKind::PosOverflow),
        n <= -(isize::MIN as int) ==> <isize as Parse>::parse_spec(seq!['-'] + decimal_spec(n)) == Some((-n) as isize),
        n > -(isize::MIN as int) ==> <isize as Parse>::parse_spec(seq!['-'] + decimal_spec(n)) is None,
        n > -(isize::MIN as int) ==> <isize as Parse>::parse_error_spec(seq!['-'] + decimal_spec(n)) == AtErrorView::ParseIntError(IntErrorKind::NegOverflow),
{
    lemma_int_texts(n, 0, u8::MAX as int);
    lemma_int_texts(n, 0, u16::MAX as int);
    lemma_int_texts(n, 0, u32::MAX as int);
    lemma_int_texts(n, 0, u64::MAX as int);
    lemma_int_texts(n, 0, usize::MAX as int);
    lemma_int_texts(n, i8::MIN as int, i8::MAX as int);
    lemma_int_texts(n, i16::MIN as int, i16::MAX as int);
    lemma_int_texts(n, i32::MIN as int, i32::MAX as int);
    lemma_int_texts(n, i64::MIN as int, i64::MAX as int);
    lemma_int_texts(n, isize::MIN as int, isize::MAX as int);
}



/// The named values of the settings are read exactly from their names:
/// `development` and `production` for the mode, `true` and `false` for a
/// boolean, `default` for every count, keep-alive and timeout, `disabled`
/// and `os` for the keep-alive; and every amount that a setting reads is
/// positive.
pub proof fn lemma_setting_names_and_amounts(t: Seq<char>)
    ensures
        Mode::parse_spec(t) == Some(Mode::Development) <==> t == "development"@,
        Mode::parse_spec(t) == Some(Mode::Production) <==> t == "production"@,
        <bool as Parse>::parse_spec(t) == Some(true) <==> t == "true"@,
        <bool as Parse>::parse_spec(t) == Some(false) <==> t == "false"@,
        NumWorkers::parse_spec(t) == Some(NumWorkers::Default) <==> t == "default"@,
        Backlog::parse_spec(t) == Some(Backlog::Default) <==> t == "default"@,
        MaxConnections::parse_spec(t) == Some(MaxConnections::Default) <==> t == "default"@,
        MaxConnectionRate::parse_spec(t) == Some(MaxConnectionRate::Default) <==> t == "default"@,
        KeepAlive::parse_spec(t) == Some(KeepAlive::Default) <==> t == "default"@,
        KeepAlive::parse_spec(t) == Some(KeepAlive::Disabled) <==> t == "disabled"@,
        KeepAlive::parse_spec(t) == Some(KeepAlive::Os) <==> t == "os"@,
        Timeout::parse_spec(t) == Some(Timeout::Default) <==> t == "default"@,
        NumWorkers::parse_spec(t) matches Some(NumWorkers::Manual(n)) ==> n > 0,
        Backlog::parse_spec(t) matches Some(Backlog::Manual(n)) ==> n > 0,
        MaxConnections::parse_spec(t) matches Some(MaxConnections::Manual(n)) ==> n > 0,
        MaxConnectionRate::parse_spec(t) matches Some(MaxConnectionRate::Manual(n)) ==> n > 0,
        KeepAlive::parse_spec(t) matches Some(KeepAlive::Seconds(n)) ==> n > 0,
        Timeout::parse_spec(t) matches Some(Timeout::Milliseconds(n)) ==> n > 0,
        Timeout::parse_spec(t) matches Some(Timeout::Seconds(n)) ==> n > 0,
{
    reveal_strlit("development");
    reveal_strlit("production");
    reveal_strlit("default");
    reveal_strlit("disabled");
    reveal_strlit("os");
    reveal_strlit("true");
    reveal_strlit("false");
}

} // verus!
