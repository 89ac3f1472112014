//! Small string utilities: moving between `&str`/`String` and `Vec<char>`,
//! character-exact string comparison, and decimal rendering of integers.

use vstd::prelude::*;
use vstd::string::StringExecFns;

verus! {

/// Relies on `String: FromIterator<char>`: collecting chars yields a
/// string whose chars are exactly those collected.
#[verifier::external_body]
pub(crate) fn chars_to_string(v: &Vec<char>) -> (s: String)
    ensures
        s@ == v@,
{
    v.iter().collect()
}

/// Relies on `str::chars`: a string's chars are its view, in order.
#[verifier::external_body]
pub(crate) fn str_chars(s: &str) -> (v: Vec<char>)
    ensures
        v@ == s@,
{
    s.chars().collect()
}

/// Character-exact equality of two strings.
pub fn str_eq(a: &str, b: &str) -> (r: bool)
    ensures
        r == (a@ == b@),
{
    let va = str_chars(a);
    let vb = str_chars(b);
    if va.len() != vb.len() {
        assert(a@.len() != b@.len());
        return false;
    }
    let n = va.len();
    let mut i: usize = 0;
    while i < n
        invariant
            n == va.len() == vb.len(),
            va@ == a@,
            vb@ == b@,
            0 <= i <= n,
            forall|j: int| 0 <= j < i ==> va@[j] == vb@[j],
        decreases n - i,
    {
        if va[i] != vb[i] {
            return false;
        }
        i = i + 1;
    }
    assert(a@ =~= b@);
    true
}

/// The character for one decimal digit.
pub open spec fn digit_char(d: int) -> char
    recommends
        0 <= d <= 9,
{
    ((d + 48) as u8) as char
}

/// The decimal digits of `n`, most significant first; empty for zero.
pub open spec fn dec_digits(n: nat) -> Seq<char>
    decreases n,
{
    if n == 0 {
        Seq::empty()
    } else {
        dec_digits(n / 10).push(digit_char(n as int % 10))
    }
}

/// The usual decimal rendering of a non-negative integer.
pub open spec fn dec_str_nat(n: nat) -> Seq<char> {
    if n == 0 {
        seq!['0']
    } else {
        dec_digits(n)
    }
}

/// The usual decimal rendering of an integer, `-` first when negative.
pub open spec fn dec_str_int(n: int) -> Seq<char> {
    if n < 0 {
        seq!['-'] + dec_str_nat((-n) as nat)
    } else {
        dec_str_nat(n as nat)
    }
}

fn digit_char_exec(d: u8) -> (c: char)
    requires
        d <= 9,
    ensures
        c == digit_char(d as int),
{
    (d + 48) as char
}

fn push_dec_digits(n: u64, out: &mut Vec<char>)
    ensures
        final(out)@ == old(out)@ + dec_digits(n as nat),
    decreases n,
{
    if n == 0 {
        assert(final(out)@ =~= old(out)@ + dec_digits(0));
    } else {
        push_dec_digits(n / 10, out);
        out.push(digit_char_exec((n % 10) as u8));
        assert(final(out)@ =~= old(out)@ + dec_digits(n as nat));
    }
}

/// Render an integer in decimal, as its usual text form.
pub fn i64_to_string(n: i64) -> (s: String)
    ensures
        s@ == dec_str_int(n as int),
{
    let mut v: Vec<char> = Vec::new();
    if n < 0 {
        v.push('-');
        let mag_wide: i128 = -(n as i128);
        let mag: u64 = mag_wide as u64;
        assert(mag > 0);
        push_dec_digits(mag, &mut v);
        assert(v@ =~= dec_str_int(n as int));
    } else if n == 0 {
        v.push('0');
        assert(v@ =~= dec_str_int(0));
    } else {
        push_dec_digits(n as u64, &mut v);
        assert(v@ =~= dec_str_int(n as int));
    }
    chars_to_string(&v)
}

/// The address of the history index endpoint.
pub open spec fn index_url_text() -> Seq<char> {
    "https://deepstatemap.live/api/history/public"@
}

/// The address of one snapshot's endpoint: the fixed template with the
/// snapshot's timestamp substituted in.
pub open spec fn snapshot_url_text(ts: int) -> Seq<char> {
    "https://deepstatemap.live/api/history/"@ + dec_str_int(ts) + "/areas"@
}

pub fn index_url() -> (s: String)
    ensures
        s@ == index_url_text(),
{
    "https://deepstatemap.live/api/history/public".to_owned()
}

pub fn snapshot_url(ts: i64) -> (s: String)
    ensures
        s@ == snapshot_url_text(ts as int),
{
    let mut s = "https://deepstatemap.live/api/history/".to_owned();
    let num = i64_to_string(ts);
    s.append(num.as_str());
    s.append("/areas");
    s
}

} // verus!
