//! Address lists with whitespace around and between their parts.

use vstd::prelude::*;

use crate::actix::{Address, AddressView};
use crate::address::{address_at, digits_end, elements_at, find_quote, is_ws, skip_ws};
use crate::laws::{
    lemma_decimal_digits, lemma_digits_end_at, lemma_find_quote_at, lemma_parse_decimal,
    writable_host,
};
use crate::parse::Parse;
use crate::text::{all_digits, decimal_spec, is_digit};

verus! {

/// Whether `w` is whitespace only: spaces, tabs, line feeds and carriage returns.
pub open spec fn blank(w: Seq<char>) -> bool {
    forall|i: int| 0 <= i < w.len() ==> (#[trigger] w[i] == ' ' || w[i] == '\t' || w[i] == '\n' || w[i] == '\r')
}

/// The text `["host",port]` with the whitespace `w` before and after each of
/// its inner parts: `[ w "host" w , w port w ]`.
pub open spec fn spaced_address_text(host: Seq<char>, port: u16, w: Seq<char>) -> Seq<char> {
    seq!['['] + w + seq!['"'] + host + seq!['"'] + w + seq![','] + w + decimal_spec(port as nat) + w + seq![']']
}

/// The addresses of `xs` written with `spaced_address_text`, separated by
/// commas with `w` around each, and followed by `w` and the closing bracket
/// of their list.
pub open spec fn spaced_elements_text(xs: Seq<AddressView>, w: Seq<char>) -> Seq<char>
    decreases xs.len(),
{
    if xs.len() <= 1 {
        if xs.len() == 0 {
            seq![']']
        } else {
            spaced_address_text(xs[0].host, xs[0].port, w) + w + seq![']']
        }
    } else {
        spaced_address_text(xs[0].host, xs[0].port, w) + w + seq![','] + w + spaced_elements_text(xs.drop_first(), w)
    }
}

/// The list of the addresses `xs` with the whitespace `w` around and between
/// all of its parts, such as a list spread over several indented lines.
pub open spec fn spaced_list_text(xs: Seq<AddressView>, w: Seq<char>) -> Seq<char> {
    w + seq!['['] + w + spaced_elements_text(xs, w) + w
}

proof fn lemma_skip_ws_at(s: Seq<char>, i: int, k: int)
    requires
        0 <= i <= k <= s.len(),
        forall|j: int| i <= j < k ==> is_ws(#[trigger] s[j]),
        k == s.len() || !is_ws(s[k]),
    ensures
        skip_ws(s, i) == k,
    decreases k - i,
{
    if i < k {
        lemma_skip_ws_at(s, i + 1, k);
    }
}

/// Whitespace between `u` and a text that does not start with whitespace is
/// skipped up to that text.
proof fn lemma_skip_blank(u: Seq<char>, w: Seq<char>, v: Seq<char>)
    requires
        blank(w),
        v.len() == 0 || !is_ws(v[0]),
    ensures
        skip_ws(u + w + v, u.len() as int) == u.len() + w.len(),
{
    let t = u + w + v;
    assert forall|j: int| u.len() <= j < u.len() + w.len() implies is_ws(#[trigger] t[j]) by {
        assert(t[j] == w[j - u.len()]);
    }
    if v.len() > 0 {
        assert(t[(u.len() + w.len()) as int] == v[0]);
    }
    lemma_skip_ws_at(t, u.len() as int, (u.len() + w.len()) as int);
}

proof fn lemma_find_quote_after(u: Seq<char>, h: Seq<char>, v: Seq<char>)
    requires
        forall|i: int| 0 <= i < h.len() ==> h[i] != '"',
        v.len() > 0,
        v[0] == '"',
    ensures
        find_quote(u + h + v, u.len() as int) == u.len() + h.len(),
{
    let t = u + h + v;
    assert forall|j: int| u.len() <= j < u.len() + h.len() implies t[j] != '"' by {
        assert(t[j] == h[j - u.len()]);
    }
    assert(t[(u.len() + h.len()) as int] == v[0]);
    lemma_find_quote_at(t, u.len() as int, (u.len() + h.len()) as int);
}

proof fn lemma_digits_end_after(u: Seq<char>, d: Seq<char>, v: Seq<char>)
    requires
        all_digits(d),
        v.len() > 0,
        !is_digit(v[0]),
    ensures
        digits_end(u + d + v, u.len() as int) == u.len() + d.len(),
{
    let t = u + d + v;
    assert forall|j: int| u.len() <= j < u.len() + d.len() implies is_digit(t[j]) by {
        assert(t[j] == d[j - u.len()]);
    }
    assert(t[(u.len() + d.len()) as int] == v[0]);
    lemma_digits_end_at(t, u.len() as int, (u.len() + d.len()) as int);
}

/// The text of an address with whitespace, split at each of its whitespace
/// runs, at its host and at its port.
#[verifier::spinoff_prover]
proof fn lemma_spaced_address_split_0(pre: Seq<char>, host: Seq<char>, d: Seq<char>, w: Seq<char>, post: Seq<char>)
    ensures
        pre + (seq!['['] + w + seq!['"'] + host + seq!['"'] + w + seq![','] + w + d + w + seq![']']) + post == (pre + seq!['[']) + w + (seq!['"'] + host + seq!['"'] + w + seq![','] + w + d + w + seq![']'] + post),
{
    assert(pre + (seq!['['] + w + seq!['"'] + host + seq!['"'] + w + seq![','] + w + d + w + seq![']']) + post =~= (pre + seq!['[']) + w + (seq!['"'] + host + seq!['"'] + w + seq![','] + w + d + w + seq![']'] + post));
}

#[verifier::spinoff_prover]
proof fn lemma_spaced_address_split_1(pre: Seq<char>, host: Seq<char>, d: Seq<char>, w: Seq<char>, post: Seq<char>)
    ensures
        pre + (seq!['['] + w + seq!['"'] + host + seq!['"'] + w + seq![','] + w + d + w + seq![']']) + post == (pre + seq!['['] + w + seq!['"']) + host + (seq!['"'] + w + seq![','] + w + d + w + seq![']'] + post),
{
    assert(pre + (seq!['['] + w + seq!['"'] + host + seq!['"'] + w + seq![','] + w + d + w + seq![']']) + post =~= (pre + seq!['['] + w + seq!['"']) + host + (seq!['"'] + w + seq![','] + w + d + w + seq![']'] + post));
}

#[verifier::spinoff_prover]
proof fn lemma_spaced_address_split_2(pre: Seq<char>, host: Seq<char>, d: Seq<char>, w: Seq<char>, post: Seq<char>)
    ensures
        pre + (seq!['['] + w + seq!['"'] + host + seq!['"'] + w + seq![','] + w + d + w + seq![']']) + post == (pre + seq!['['] + w + seq!['"'] + host + seq!['"']) + w + (seq![','] + w + d + w + seq![']'] + post),
{
    assert(pre + (seq!['['] + w + seq!['"'] + host + seq!['"'] + w + seq![','] + w + d + w + seq![']']) + post =~= (pre + seq!['['] + w + seq!['"'] + host + seq!['"']) + w + (seq![','] + w + d + w + seq![']'] + post));
}

#[verifier::spinoff_prover]
proof fn lemma_spaced_address_split_3(pre: Seq<char>, host: Seq<char>, d: Seq<char>, w: Seq<char>, post: Seq<char>)
    ensures
        pre + (seq!['['] + w + seq!['"'] + host + seq!['"'] + w + seq![','] + w + d + w + seq![']']) + post == (pre + seq!['['] + w + seq!['"'] + host + seq!['"'] + w + seq![',']) + w + (d + w + seq![']'] + post),
{
    assert(pre + (seq!['['] + w + seq!['"'] + host + seq!['"'] + w + seq![','] + w + d + w + seq![']']) + post =~= (pre + seq!['['] + w + seq!['"'] + host + seq!['"'] + w + seq![',']) + w + (d + w + seq![']'] + post));
}

#[verifier::spinoff_prover]
proof fn lemma_spaced_address_split_4(pre: Seq<char>, host: Seq<char>, d: Seq<char>, w: Seq<char>, post: Seq<char>)
    ensures
        pre + (seq!['['] + w + seq!['"'] + host + seq!['"'] + w + seq![','] + w + d + w + seq![']']) + post == (pre + seq!['['] + w + seq!['"'] + host + seq!['"'] + w + seq![','] + w) + d + (w + seq![']'] + post),
{
    assert(pre + (seq!['['] + w + seq!['"'] + host + seq!['"'] + w + seq![','] + w + d + w + seq![']']) + post =~= (pre + seq!['['] + w + seq!['"'] + host + seq!['"'] + w + seq![','] + w) + d + (w + seq![']'] + post));
}

#[verifier::spinoff_prover]
proof fn lemma_spaced_address_split_5(pre: Seq<char>, host: Seq<char>, d: Seq<char>, w: Seq<char>, post: Seq<char>)
    ensures
        pre + (seq!['['] + w + seq!['"'] + host + seq!['"'] + w + seq![','] + w + d + w + seq![']']) + post == (pre + seq!['['] + w + seq!['"'] + host + seq!['"'] + w + seq![','] + w + d) + w + (seq![']'] + post),
{
    assert(pre + (seq!['['] + w + seq!['"'] + host + seq!['"'] + w + seq![','] + w + d + w + seq![']']) + post =~= (pre + seq!['['] + w + seq!['"'] + host + seq!['"'] + w + seq![','] + w + d) + w + (seq![']'] + post));
}

proof fn lemma_spaced_address_parts(pre: Seq<char>, host: Seq<char>, d: Seq<char>, w: Seq<char>, post: Seq<char>)
    ensures
        ({
            let t = pre + (seq!['['] + w + seq!['"'] + host + seq!['"'] + w + seq![','] + w + d + w + seq![']']) + post;
            &&& t == (pre + seq!['[']) + w + (seq!['"'] + host + seq!['"'] + w + seq![','] + w + d + w + seq![']'] + post)
            &&& t == (pre + seq!['['] + w + seq!['"']) + host + (seq!['"'] + w + seq![','] + w + d + w + seq![']'] + post)
            &&& t == (pre + seq!['['] + w + seq!['"'] + host + seq!['"']) + w + (seq![','] + w + d + w + seq![']'] + post)
            &&& t == (pre + seq!['['] + w + seq!['"'] + host + seq!['"'] + w + seq![',']) + w + (d + w + seq![']'] + post)
            &&& t == (pre + seq!['['] + w + seq!['"'] + host + seq!['"'] + w + seq![','] + w) + d + (w + seq![']'] + post)
            &&& t == (pre + seq!['['] + w + seq!['"'] + host + seq!['"'] + w + seq![','] + w + d) + w + (seq![']'] + post)
        }),
{
    lemma_spaced_address_split_0(pre, host, d, w, post);
    lemma_spaced_address_split_1(pre, host, d, w, post);
    lemma_spaced_address_split_2(pre, host, d, w, post);
    lemma_spaced_address_split_3(pre, host, d, w, post);
    lemma_spaced_address_split_4(pre, host, d, w, post);
    lemma_spaced_address_split_5(pre, host, d, w, post);
}

/// An address written with whitespace inside it is read where it stands, up
/// to just after its closing bracket.
#[verifier::spinoff_prover]
#[verifier::rlimit(60)]
proof fn lemma_spaced_address_at(pre: Seq<char>, host: Seq<char>, port: u16, w: Seq<char>, post: Seq<char>)
    requires
        writable_host(host),
        blank(w),
    ensures
        address_at(pre + spaced_address_text(host, port, w) + post, pre.len() as int)
            == Some((AddressView { host, port }, (pre.len() + spaced_address_text(host, port, w).len()) as int)),
{
    let d = decimal_spec(port as nat);
    lemma_decimal_digits(port as nat);
    lemma_parse_decimal(port as nat, 0, u16::MAX as int);
    assert(is_digit(d[0]));
    let a = spaced_address_text(host, port, w);
    let t = pre + a + post;
    let o = pre.len() as int;
    let l = w.len() as int;
    let hl = host.len() as int;
    lemma_spaced_address_parts(pre, host, d, w, post);
    let r1 = seq!['"'] + host + seq!['"'] + w + seq![','] + w + d + w + seq![']'] + post;
    lemma_skip_blank(pre + seq!['['], w, r1);
    let j = o + 1 + l;
    assert(t[j] == '"') by { assert(t[j] == r1[0]); }
    let r2 = seq!['"'] + w + seq![','] + w + d + w + seq![']'] + post;
    lemma_find_quote_after(pre + seq!['['] + w + seq!['"'], host, r2);
    let k = j + 1 + hl;
    assert(t.subrange(j + 1, k) =~= host) by {
        assert forall|i: int| 0 <= i < hl implies t[j + 1 + i] == host[i] by {}
    }
    let r3 = seq![','] + w + d + w + seq![']'] + post;
    lemma_skip_blank(pre + seq!['['] + w + seq!['"'] + host + seq!['"'], w, r3);
    let m = k + 1 + l;
    assert(t[m] == ',') by { assert(t[m] == r3[0]); }
    let r4 = d + w + seq![']'] + post;
    assert(r4[0] == d[0]);
    lemma_skip_blank(pre + seq!['['] + w + seq!['"'] + host + seq!['"'] + w + seq![','], w, r4);
    let p = m + 1 + l;
    let r5 = w + seq![']'] + post;
    if l > 0 {
        assert(r5[0] == w[0]);
    } else {
        assert(r5[0] == ']');
    }
    lemma_digits_end_after(pre + seq!['['] + w + seq!['"'] + host + seq!['"'] + w + seq![','] + w, d, r5);
    let q = p + d.len();
    assert(t.subrange(p, q) =~= d) by {
        assert forall|i: int| 0 <= i < d.len() implies t[p + i] == d[i] by {}
    }
    let r6 = seq![']'] + post;
    lemma_skip_blank(pre + seq!['['] + w + seq!['"'] + host + seq!['"'] + w + seq![','] + w + d, w, r6);
    let r = q + l;
    assert(t[r] == ']') by { assert(t[r] == r6[0]); }
    assert(r + 1 == o + a.len());
}

proof fn lemma_spaced_elements_start(xs: Seq<AddressView>, w: Seq<char>)
    requires
        xs.len() > 0,
    ensures
        spaced_elements_text(xs, w).len() > 0,
        spaced_elements_text(xs, w)[0] == '[',
{
    let y = xs[0];
    let a = spaced_address_text(y.host, y.port, w);
    assert(a[0] == '[');
    if xs.len() <= 1 {
        assert(spaced_elements_text(xs, w) == a + w + seq![']']);
    } else {
        assert(spaced_elements_text(xs, w) == a + w + seq![','] + w + spaced_elements_text(xs.drop_first(), w));
    }
}

/// Addresses written with whitespace, and separated by commas with whitespace
/// around them, are read where they stand, up to just after the closing
/// bracket of their list.
#[verifier::spinoff_prover]
#[verifier::rlimit(50)]
proof fn lemma_spaced_elements_at(pre: Seq<char>, xs: Seq<AddressView>, w: Seq<char>, post: Seq<char>)
    requires
        xs.len() > 0,
        forall|i: int| 0 <= i < xs.len() ==> writable_host(#[trigger] xs[i].host),
        blank(w),
    ensures
        elements_at(pre + spaced_elements_text(xs, w) + post, pre.len() as int)
            == Some((xs, (pre.len() + spaced_elements_text(xs, w).len()) as int)),
    decreases xs.len(),
{
    let x = xs[0];
    assert(writable_host(xs[0].host));
    let a = spaced_address_text(x.host, x.port, w);
    let e = spaced_elements_text(xs, w);
    let t = pre + e + post;
    let o = pre.len() as int;
    let c = o + a.len();
    let l = w.len() as int;
    if xs.len() == 1 {
        let r = seq![']'] + post;
        assert(t =~= pre + a + (w + r));
        lemma_spaced_address_at(pre, x.host, x.port, w, w + r);
        assert(t =~= (pre + a) + w + r);
        lemma_skip_blank(pre + a, w, r);
        assert(t[c + l] == ']') by { assert(t[c + l] == r[0]); }
        assert(xs =~= seq![x]);
    } else {
        let rest = xs.drop_first();
        let er = spaced_elements_text(rest, w);
        lemma_spaced_elements_start(rest, w);
        let r = seq![','] + w + er + post;
        assert(t =~= pre + a + (w + r));
        lemma_spaced_address_at(pre, x.host, x.port, w, w + r);
        assert(t =~= (pre + a) + w + r);
        lemma_skip_blank(pre + a, w, r);
        assert(t[c + l] == ',') by { assert(t[c + l] == r[0]); }
        let pre2 = pre + a + w + seq![','] + w;
        let r2 = er + post;
        assert(t =~= (pre + a + w + seq![',']) + w + r2);
        assert(r2[0] == '[');
        lemma_skip_blank(pre + a + w + seq![','], w, r2);
        assert(t[c + l + 1 + l] == '[') by { assert(t[c + l + 1 + l] == r2[0]); }
        assert forall|i: int| 0 <= i < rest.len() implies writable_host(#[trigger] rest[i].host) by {
            assert(rest[i] == xs[i + 1]);
        }
        assert(t =~= pre2 + er + post);
        lemma_spaced_elements_at(pre2, rest, w, post);
        assert(seq![x] + rest =~= xs);
    }
}

/// A list of addresses reads the same with any whitespace (spaces, tabs,
/// line feeds, carriage returns) around and between its parts, as a list
/// spread over indented lines does: it reads as its addresses.
pub proof fn lemma_spaced_list_reads_back(xs: Seq<AddressView>, w: Seq<char>)
    requires
        forall|i: int| 0 <= i < xs.len() ==> writable_host(#[trigger] xs[i].host),
        blank(w),
    ensures
        Vec::<Address>::parse_spec(spaced_list_text(xs, w)) == Some(xs),
{
    let e = spaced_elements_text(xs, w);
    let t = spaced_list_text(xs, w);
    let l = w.len() as int;
    let r0 = seq!['['] + w + e + w;
    assert(t =~= Seq::<char>::empty() + w + r0);
    lemma_skip_blank(Seq::empty(), w, r0);
    assert(t[l] == '[') by { assert(t[l] == r0[0]); }
    let r1 = e + w;
    assert(t =~= seq_prefix(w) + w + r1);
    if xs.len() == 0 {
        assert(e == seq![']']);
        lemma_skip_blank(seq_prefix(w), w, r1);
        assert(t[2 * l + 1] == ']') by { assert(t[2 * l + 1] == r1[0]); }
        assert(t =~= (seq_prefix(w) + w + seq![']']) + w + Seq::<char>::empty());
        lemma_skip_blank(seq_prefix(w) + w + seq![']'], w, Seq::empty());
        assert(xs =~= Seq::<AddressView>::empty());
    } else {
        lemma_spaced_elements_start(xs, w);
        lemma_skip_blank(seq_prefix(w), w, r1);
        assert(t[2 * l + 1] == '[') by { assert(t[2 * l + 1] == r1[0]); }
        assert(t =~= (seq_prefix(w) + w) + e + w);
        lemma_spaced_elements_at(seq_prefix(w) + w, xs, w, w);
        assert(t =~= (seq_prefix(w) + w + e) + w + Seq::<char>::empty());
        lemma_skip_blank(seq_prefix(w) + w + e, w, Seq::empty());
    }
}

/// The whitespace `w` and the opening bracket of a list.
spec fn seq_prefix(w: Seq<char>) -> Seq<char> {
    w + seq!['[']
}

/// A single address reads the same with any whitespace around and inside it.
pub proof fn lemma_spaced_address_reads_back(host: Seq<char>, port: u16, w: Seq<char>)
    requires
        writable_host(host),
        blank(w),
    ensures
        Address::parse_spec(w + spaced_address_text(host, port, w) + w) == Some(AddressView { host, port }),
{
    let a = spaced_address_text(host, port, w);
    let t = w + a + w;
    assert(a[0] == '[');
    assert(t =~= Seq::<char>::empty() + w + (a + w));
    lemma_skip_blank(Seq::empty(), w, a + w);
    lemma_spaced_address_at(w, host, port, w, w);
    assert(t =~= (w + a) + w + Seq::<char>::empty());
    lemma_skip_blank(w + a, w, Seq::empty());
}

} // verus!
