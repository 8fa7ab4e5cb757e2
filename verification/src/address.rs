use vstd::prelude::*;
use vstd::string::*;

use crate::actix::{Address, AddressView};
use crate::error::{AtError, AtErrorView, AtResult};
use crate::parse::{int_value_spec, Parse};
use crate::text::{chars_of, is_digit, parse_int_chars, sub_chars};

verus! {

/// Whether `c` is whitespace between the parts of an address list.
pub open spec fn is_ws(c: char) -> bool {
    c == ' ' || c == '\t' || c == '\n' || c == '\r'
}

/// Whether `s` holds `c` at position `i`.
pub open spec fn at(s: Seq<char>, i: int, c: char) -> bool {
    0 <= i < s.len() && s[i] == c
}

/// The first position at or after `i` that does not hold whitespace.
pub open spec fn skip_ws(s: Seq<char>, i: int) -> int
    decreases s.len() - i,
{
    if 0 <= i < s.len() && is_ws(s[i]) {
        skip_ws(s, i + 1)
    } else {
        i
    }
}

/// The first position at or after `i` that holds a double quote, or the end.
pub open spec fn find_quote(s: Seq<char>, i: int) -> int
    decreases s.len() - i,
{
    if 0 <= i < s.len() && s[i] != '"' {
        find_quote(s, i + 1)
    } else {
        i
    }
}

/// The first position at or after `i` that does not hold a decimal digit.
pub open spec fn digits_end(s: Seq<char>, i: int) -> int
    decreases s.len() - i,
{
    if 0 <= i < s.len() && is_digit(s[i]) {
        digits_end(s, i + 1)
    } else {
        i
    }
}

pub proof fn lemma_skip_ws(s: Seq<char>, i: int)
    requires
        0 <= i <= s.len(),
    ensures
        i <= skip_ws(s, i) <= s.len(),
    decreases s.len() - i,
{
    if i < s.len() && is_ws(s[i]) {
        lemma_skip_ws(s, i + 1);
    }
}

pub proof fn lemma_find_quote(s: Seq<char>, i: int)
    requires
        0 <= i <= s.len(),
    ensures
        i <= find_quote(s, i) <= s.len(),
        find_quote(s, i) < s.len() ==> s[find_quote(s, i)] == '"',
        forall|j: int| i <= j < find_quote(s, i) ==> s[j] != '"',
    decreases s.len() - i,
{
    if i < s.len() && s[i] != '"' {
        lemma_find_quote(s, i + 1);
    }
}

pub proof fn lemma_digits_end(s: Seq<char>, i: int)
    requires
        0 <= i <= s.len(),
    ensures
        i <= digits_end(s, i) <= s.len(),
    decreases s.len() - i,
{
    if i < s.len() && is_digit(s[i]) {
        lemma_digits_end(s, i + 1);
    }
}

/// The address written at position `i` of `s`, as `["host", port]` with
/// optional whitespace inside the brackets and around the comma, and the
/// position just after it. The host is one or more characters other than a
/// double quote; the port is one or more decimal digits that fit in a `u16`.
pub open spec fn address_at(s: Seq<char>, i: int) -> Option<(AddressView, int)> {
    let j = skip_ws(s, i + 1);
    let k = find_quote(s, j + 1);
    let m = skip_ws(s, k + 1);
    let p = skip_ws(s, m + 1);
    let q = digits_end(s, p);
    let r = skip_ws(s, q);
    if at(s, i, '[') && at(s, j, '"') && k < s.len() && j + 1 < k && at(s, m, ',') && p < q && at(s, r, ']') {
        match int_value_spec(s.subrange(p, q), 0, u16::MAX as int) {
            Some(port) => Some((AddressView { host: s.subrange(j + 1, k), port: port as u16 }, r + 1)),
            None => None,
        }
    } else {
        None
    }
}

pub proof fn lemma_address_at(s: Seq<char>, i: int)
    ensures
        address_at(s, i) matches Some((_, c)) ==> 0 <= i < c <= s.len(),
{
    if at(s, i, '[') {
        let j = skip_ws(s, i + 1);
        lemma_skip_ws(s, i + 1);
        if at(s, j, '"') {
            let k = find_quote(s, j + 1);
            lemma_find_quote(s, j + 1);
            if k < s.len() {
                let m = skip_ws(s, k + 1);
                lemma_skip_ws(s, k + 1);
                if at(s, m, ',') {
                    let p = skip_ws(s, m + 1);
                    lemma_skip_ws(s, m + 1);
                    lemma_digits_end(s, p);
                    lemma_skip_ws(s, digits_end(s, p));
                }
            }
        }
    }
}

/// The non-empty, comma-separated addresses written from position `i` of `s`
/// up to and including the closing bracket of the list (a comma may follow
/// the last address), and the position just after that bracket.
pub open spec fn elements_at(s: Seq<char>, i: int) -> Option<(Seq<AddressView>, int)>
    decreases s.len() - i,
{
    match address_at(s, i) {
        None => None,
        Some((a, c)) => {
            let d = skip_ws(s, c);
            if at(s, d, ']') {
                Some((seq![a], d + 1))
            } else if at(s, d, ',') {
                let e = skip_ws(s, d + 1);
                if at(s, e, ']') {
                    Some((seq![a], e + 1))
                } else {
                    proof {
                        lemma_address_at(s, i);
                        lemma_skip_ws(s, c);
                        lemma_skip_ws(s, d + 1);
                    }
                    match elements_at(s, e) {
                        Some((rest, f)) => Some((seq![a] + rest, f)),
                        None => None,
                    }
                }
            } else {
                None
            }
        }
    }
}

/// The addresses that `s` writes as a list: `[` and `]` around zero or more
/// addresses separated by commas, with optional whitespace around every part.
pub open spec fn address_list_spec(s: Seq<char>) -> Option<Seq<AddressView>> {
    let a = skip_ws(s, 0);
    let b = skip_ws(s, a + 1);
    if !at(s, a, '[') {
        None
    } else if at(s, b, ']') {
        if skip_ws(s, b + 1) == s.len() {
            Some(Seq::empty())
        } else {
            None
        }
    } else {
        match elements_at(s, b) {
            Some((xs, f)) => if skip_ws(s, f) == s.len() {
                Some(xs)
            } else {
                None
            },
            None => None,
        }
    }
}

/// The single address that `s` writes, with optional whitespace around it.
pub open spec fn address_spec(s: Seq<char>) -> Option<AddressView> {
    match address_at(s, skip_ws(s, 0)) {
        Some((a, c)) => if skip_ws(s, c) == s.len() {
            Some(a)
        } else {
            None
        },
        None => None,
    }
}

fn skip_ws_exec(cs: &Vec<char>, i: usize) -> (res: usize)
    requires
        i <= cs@.len(),
    ensures
        res == skip_ws(cs@, i as int),
        i <= res <= cs@.len(),
{
    let mut j = i;
    while j < cs.len() && (cs[j] == ' ' || cs[j] == '\t' || cs[j] == '\n' || cs[j] == '\r')
        invariant
            i <= j <= cs@.len(),
            skip_ws(cs@, j as int) == skip_ws(cs@, i as int),
        decreases cs@.len() - j,
    {
        j = j + 1;
    }
    j
}

fn find_quote_exec(cs: &Vec<char>, i: usize) -> (res: usize)
    requires
        i <= cs@.len(),
    ensures
        res == find_quote(cs@, i as int),
        i <= res <= cs@.len(),
{
    let mut j = i;
    while j < cs.len() && cs[j] != '"'
        invariant
            i <= j <= cs@.len(),
            find_quote(cs@, j as int) == find_quote(cs@, i as int),
        decreases cs@.len() - j,
    {
        j = j + 1;
    }
    j
}

fn digits_end_exec(cs: &Vec<char>, i: usize) -> (res: usize)
    requires
        i <= cs@.len(),
    ensures
        res == digits_end(cs@, i as int),
        i <= res <= cs@.len(),
{
    let mut j = i;
    while j < cs.len() && '0' <= cs[j] && cs[j] <= '9'
        invariant
            i <= j <= cs@.len(),
            digits_end(cs@, j as int) == digits_end(cs@, i as int),
        decreases cs@.len() - j,
    {
        j = j + 1;
    }
    j
}

fn char_at(cs: &Vec<char>, i: usize, c: char) -> (res: bool)
    ensures
        res == at(cs@, i as int, c),
        cs@.len() <= usize::MAX,
{
    i < cs.len() && cs[i] == c
}

/// Reads the address at position `i`; see `address_at`.
fn address_at_exec(string: &str, cs: &Vec<char>, i: usize) -> (res: Option<(Address, usize)>)
    requires
        cs@ == string@,
        i <= cs@.len(),
    ensures
        match address_at(cs@, i as int) {
            Some((a, c)) => res matches Some((x, d)) && x.deep_view() == a && d == c,
            None => res is None,
        },
{
    if !char_at(cs, i, '[') {
        return None;
    }
    let j = skip_ws_exec(cs, i + 1);
    if !char_at(cs, j, '"') {
        return None;
    }
    let k = find_quote_exec(cs, j + 1);
    if !(k < cs.len() && j + 1 < k) {
        return None;
    }
    let m = skip_ws_exec(cs, k + 1);
    if !char_at(cs, m, ',') {
        return None;
    }
    let p = skip_ws_exec(cs, m + 1);
    let q = digits_end_exec(cs, p);
    if !(p < q) {
        return None;
    }
    let r = skip_ws_exec(cs, q);
    if !char_at(cs, r, ']') {
        return None;
    }
    let ds = sub_chars(cs, p, q);
    proof {
        crate::text::lemma_parse_int_bounded(ds@, 0, u16::MAX as int);
    }
    match parse_int_chars(&ds, 0, 0xffff) {
        Ok(port) => {
            let host = string.substring_char(j + 1, k).to_owned();
            Some((Address { host, port: port as u16 }, r + 1))
        },
        Err(_) => None,
    }
}

/// Reads the addresses from position `i`; see `elements_at`.
fn elements_at_exec(string: &str, cs: &Vec<char>, i: usize) -> (res: Option<(Vec<Address>, usize)>)
    requires
        cs@ == string@,
        i <= cs@.len(),
    ensures
        match elements_at(cs@, i as int) {
            Some((xs, f)) => res matches Some((v, g)) && v.deep_view() == xs && g == f,
            None => res is None,
        },
        res matches Some((_, g)) ==> g <= cs@.len(),
    decreases cs@.len() - i,
{
    proof {
        lemma_address_at(cs@, i as int);
    }
    let (a, c) = match address_at_exec(string, cs, i) {
        Some(found) => found,
        None => return None,
    };
    let d = skip_ws_exec(cs, c);
    if char_at(cs, d, ']') {
        let mut v: Vec<Address> = Vec::new();
        v.push(a);
        assert(v.deep_view() =~= seq![a.deep_view()]);
        return Some((v, d + 1));
    }
    if !char_at(cs, d, ',') {
        return None;
    }
    let e = skip_ws_exec(cs, d + 1);
    if char_at(cs, e, ']') {
        let mut v: Vec<Address> = Vec::new();
        v.push(a);
        assert(v.deep_view() =~= seq![a.deep_view()]);
        return Some((v, e + 1));
    }
    match elements_at_exec(string, cs, e) {
        Some((rest, f)) => {
            let ghost rest_view = rest.deep_view();
            let mut v = rest;
            let ghost av = a.deep_view();
            v.insert(0, a);
            assert(v.deep_view() =~= seq![av] + rest_view);
            Some((v, f))
        },
        None => None,
    }
}

impl Parse for Vec<Address> {
    open spec fn parse_spec(text: Seq<char>) -> Option<Seq<AddressView>> {
        address_list_spec(text)
    }

    open spec fn parse_error_spec(text: Seq<char>) -> AtErrorView {
        AtErrorView::ParseAddressError(text)
    }

    fn parse(string: &str) -> (res: AtResult<Vec<Address>>) {
        let cs = chars_of(string);
        let a = skip_ws_exec(&cs, 0);
        if !char_at(&cs, a, '[') {
            return Err(AtError::ParseAddressError(string.to_owned()));
        }
        let b = skip_ws_exec(&cs, a + 1);
        if char_at(&cs, b, ']') {
            if skip_ws_exec(&cs, b + 1) == cs.len() {
                let v: Vec<Address> = Vec::new();
                assert(v.deep_view() =~= Seq::<AddressView>::empty());
                return Ok(v);
            } else {
                return Err(AtError::ParseAddressError(string.to_owned()));
            }
        }
        match elements_at_exec(string, &cs, b) {
            Some((v, f)) => {
                if skip_ws_exec(&cs, f) == cs.len() {
                    Ok(v)
                } else {
                    Err(AtError::ParseAddressError(string.to_owned()))
                }
            },
            None => Err(AtError::ParseAddressError(string.to_owned())),
        }
    }
}

impl Parse for Address {
    open spec fn parse_spec(text: Seq<char>) -> Option<AddressView> {
        address_spec(text)
    }

    open spec fn parse_error_spec(text: Seq<char>) -> AtErrorView {
        AtErrorView::ParseAddressError(text)
    }

    fn parse(string: &str) -> (res: AtResult<Address>) {
        let cs = chars_of(string);
        let a = skip_ws_exec(&cs, 0);
        match address_at_exec(string, &cs, a) {
            Some((x, c)) => {
                if skip_ws_exec(&cs, c) == cs.len() {
                    Ok(x)
                } else {
                    Err(AtError::ParseAddressError(string.to_owned()))
                }
            },
            None => Err(AtError::ParseAddressError(string.to_owned())),
        }
    }
}

} // verus!
