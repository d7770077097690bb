//! Text helpers: prefix tests, user-name validation and the short
//! `YYMMDD-hh:mm` time stamp used to name sessions.

use crate::clock::{local_now, DateFields};
use vstd::std_specs::cmp::PartialEqSpec;
use vstd::prelude::*;

verus! {

/// `String::push`: appends one character at the end.
#[verifier::external_body]
pub fn push_char(s: &mut String, c: char)
    ensures
        final(s)@ == old(s)@.push(c),
{
    s.push(c);
}

/// The characters of `s`, in order.
pub fn chars_of(s: &str) -> (r: Vec<char>)
    ensures
        r@ == s@,
{
    let mut r: Vec<char> = Vec::new();
    for c in it: s.chars()
        invariant
            it.seq() == s@,
            r@ == it.seq().take(it.index() as int),
    {
        assert(it.seq().take(it.index() + 1) =~= r@.push(c));
        r.push(c);
    }
    assert(r@ =~= s@);
    r
}

/// `p` is a prefix of `v`, element by element under `T`'s `==`.
pub open spec fn starts_with_by_eq<T: PartialEq>(v: Seq<T>, p: Seq<T>) -> bool {
    &&& p.len() <= v.len()
    &&& forall|i: int| 0 <= i < p.len() ==> #[trigger] v[i].eq_spec(&p[i])
}

/// Whether `vec` starts with `p`: every position of `p` holds an element equal
/// to the one at the same position of `vec` (so `p` can be no longer than `vec`).
/// What `==` means is `T`'s own business; where `T` follows its equality
/// specification, the result is exactly the prefix relation.
pub fn is_start_with<T: Eq>(vec: &Vec<T>, p: &Vec<T>) -> (r: bool)
    ensures
        T::obeys_eq_spec() ==> (r == starts_with_by_eq(vec@, p@)),
        p@.len() > vec@.len() ==> !r,
{
    let mut i: usize = 0;
    while i < p.len()
        invariant
            i <= p@.len(),
            T::obeys_eq_spec() ==> forall|j: int| 0 <= j < i ==> #[trigger] vec@[j].eq_spec(&p@[j]),
            i <= vec@.len(),
        decreases p@.len() - i,
    {
        if i >= vec.len() {
            return false;
        }
        if !(vec[i] == p[i]) {
            return false;
        }
        i = i + 1;
    }
    true
}

/// A character allowed in a user name: a lower-case ASCII letter or a digit.
pub open spec fn is_username_char(c: char) -> bool {
    ('a' <= c && c <= 'z') || ('0' <= c && c <= '9')
}

/// Whether every character of `username` is a lower-case ASCII letter or an
/// ASCII digit (the empty name passes).
pub fn is_legal_username(username: &str) -> (r: bool)
    ensures
        r == (forall|i: int| 0 <= i < username@.len() ==> #[trigger] is_username_char(username@[i])),
{
    let cs = chars_of(username);
    let mut i: usize = 0;
    while i < cs.len()
        invariant
            cs@ == username@,
            i <= cs@.len(),
            forall|j: int| 0 <= j < i ==> #[trigger] is_username_char(username@[j]),
        decreases cs@.len() - i,
    {
        let c = cs[i];
        if !(('a' <= c && c <= 'z') || ('0' <= c && c <= '9')) {
            assert(!is_username_char(username@[i as int]));
            return false;
        }
        i = i + 1;
    }
    true
}

/// The character of the decimal digit `d`.
pub open spec fn digit_char(d: int) -> char {
    (('0' as int) + d) as char
}

/// The decimal digits of `n`, most significant first, without leading zeros.
pub open spec fn decimal(n: nat) -> Seq<char>
    decreases n,
{
    if n < 10 {
        seq![digit_char(n as int)]
    } else {
        decimal(n / 10).push(digit_char((n % 10) as int))
    }
}

/// `n` in decimal, with a leading `-` when negative.
pub open spec fn signed_decimal(n: int) -> Seq<char> {
    if n < 0 {
        seq!['-'] + decimal((-n) as nat)
    } else {
        decimal(n as nat)
    }
}

/// What `format!("{:02}", n)` writes: a single digit gets a leading zero,
/// everything else (including negatives) is written in full.
pub open spec fn pad2(n: int) -> Seq<char> {
    if 0 <= n < 10 {
        seq!['0', digit_char(n)]
    } else {
        signed_decimal(n)
    }
}

/// The remainder of Rust's `%` on integers: it takes the sign of `a`.
pub open spec fn trunc_rem(a: int, b: int) -> int {
    if a >= 0 {
        a % b
    } else {
        -((-a) % b)
    }
}

/// The `YYMMDD-hh:mm` stamp of a date: the year modulo 2000 (as Rust's `%`
/// computes it), month, day, hour and minute, each written with `{:02}`.
pub open spec fn time_text(t: DateFields) -> Seq<char> {
    pad2(trunc_rem(t.year as int, 2000)) + pad2(t.month as int) + pad2(t.day as int) + seq!['-']
        + pad2(t.hour as int) + seq![':'] + pad2(t.minute as int)
}

fn digit(d: u64) -> (c: char)
    requires
        d < 10,
    ensures
        c == digit_char(d as int),
{
    match d {
        0 => '0',
        1 => '1',
        2 => '2',
        3 => '3',
        4 => '4',
        5 => '5',
        6 => '6',
        7 => '7',
        8 => '8',
        _ => '9',
    }
}

fn push_decimal(s: &mut String, n: u64)
    ensures
        final(s)@ == old(s)@ + decimal(n as nat),
    decreases n,
{
    if n >= 10 {
        push_decimal(s, n / 10);
    }
    push_char(s, digit(n % 10));
    proof {
        if n >= 10 {
            assert(decimal(n as nat) == decimal((n / 10) as nat).push(digit_char((n % 10) as int)));
        }
    }
    assert(s@ =~= old(s)@ + decimal(n as nat));
}

fn push_pad2(s: &mut String, n: i64)
    ensures
        final(s)@ == old(s)@ + pad2(n as int),
{
    if 0 <= n && n < 10 {
        push_char(s, '0');
        push_char(s, digit(n as u64));
        assert(s@ =~= old(s)@ + pad2(n as int));
    } else if n < 0 {
        push_char(s, '-');
        let m: u64 = if n == i64::MIN { (i64::MAX as u64) + 1 } else { (-n) as u64 };
        push_decimal(s, m);
        assert(s@ =~= old(s)@ + pad2(n as int));
    } else {
        push_decimal(s, n as u64);
    }
}

/// Formats a date as `YYMMDD-hh:mm`, e.g. 2025-03-07 09:05 as `250307-09:05`.
pub fn time_to_string(time: &DateFields) -> (r: String)
    ensures
        r@ == time_text(*time),
{
    let y: i64 = time.year as i64;
    let yy: i64 = if y >= 0 { y % 2000 } else { -((-y) % 2000) };
    let mut s = String::new();
    push_pad2(&mut s, yy);
    push_pad2(&mut s, time.month as i64);
    push_pad2(&mut s, time.day as i64);
    push_char(&mut s, '-');
    push_pad2(&mut s, time.hour as i64);
    push_char(&mut s, ':');
    push_pad2(&mut s, time.minute as i64);
    assert(s@ =~= time_text(*time));
    s
}

/// The current local time as `YYMMDD-hh:mm`, the default name of a new session.
pub fn now() -> (r: String)
    ensures
        exists|t: DateFields| t.in_calendar_range() && r@ == time_text(t),
{
    let t = local_now();
    time_to_string(&t)
}

} // verus!
