//! The cache validator of a file: its modification time, masked and written
//! in decimal.

use vstd::prelude::*;
use vstd::string::*;

verus! {

/// The constant that a modification time is masked with.
pub const MASK: u64 = 0xd3f4_0305_c9f8_e911;

/// The number of nanoseconds in a second.
pub const NANOS_PER_SECOND: u64 = 1_000_000_000;

/// The character of the decimal digit `d`.
pub open spec fn digit(d: nat) -> char
    recommends
        d < 10,
{
    if d == 0 {
        '0'
    } else if d == 1 {
        '1'
    } else if d == 2 {
        '2'
    } else if d == 3 {
        '3'
    } else if d == 4 {
        '4'
    } else if d == 5 {
        '5'
    } else if d == 6 {
        '6'
    } else if d == 7 {
        '7'
    } else if d == 8 {
        '8'
    } else {
        '9'
    }
}

/// `n` in decimal: most significant digit first, no sign, no leading zero
/// (zero itself is `0`).
pub open spec fn decimal(n: nat) -> Seq<char>
    decreases n,
{
    if n < 10 {
        seq![digit(n)]
    } else {
        decimal(n / 10).push(digit(n % 10))
    }
}

/// The validator of a file whose modification time, or what stands in for
/// it, is `seed`.
pub open spec fn etag_of(seed: u64) -> Seq<char> {
    decimal((seed ^ MASK) as nat)
}

/// What the validator is computed from: the modification time in seconds
/// where it could be read, else the clock's nanoseconds `nanos`.
pub open spec fn seed_of(modified: Option<u64>, nanos: u64) -> u64 {
    match modified {
        Some(seconds) => seconds,
        None => nanos,
    }
}

/// A number is written with at least one digit, and with more than one from
/// ten on.
pub proof fn lemma_decimal_len(n: nat)
    ensures
        decimal(n).len() >= 1,
        n >= 10 ==> decimal(n).len() >= 2,
    decreases n,
{
    if n >= 10 {
        lemma_decimal_len(n / 10);
    }
}

/// Different numbers are written differently.
pub proof fn lemma_decimal_distinguishes(a: nat, b: nat)
    ensures
        decimal(a) == decimal(b) <==> a == b,
    decreases a,
{
    lemma_decimal_len(a);
    lemma_decimal_len(b);
    if decimal(a) == decimal(b) {
        if a < 10 && b < 10 {
            assert(decimal(a)[0] == decimal(b)[0]);
        } else if a >= 10 && b >= 10 {
            let front = decimal(a / 10);
            let back = decimal(b / 10);
            assert(front.push(digit(a % 10)).drop_last() == front);
            assert(back.push(digit(b % 10)).drop_last() == back);
            assert(front.push(digit(a % 10)).last() == digit(a % 10));
            assert(back.push(digit(b % 10)).last() == digit(b % 10));
            lemma_decimal_distinguishes(a / 10, b / 10);
            assert(a % 10 == b % 10);
        }
    }
}

/// One validator per modification time: two times have the same validator
/// only if they are the same time.
pub proof fn law_etag_distinguishes(one: u64, other: u64)
    ensures
        etag_of(one) == etag_of(other) <==> one == other,
{
    lemma_decimal_distinguishes((one ^ MASK) as nat, (other ^ MASK) as nat);
    assert((one ^ 0xd3f4_0305_c9f8_e911u64) == (other ^ 0xd3f4_0305_c9f8_e911u64) ==> one
        == other) by (bit_vector);
}

/// The one-character text of the decimal digit `d`.
fn digit_text(d: u64) -> (text: &'static str)
    requires
        d < 10,
    ensures
        text@ == seq![digit(d as nat)],
{
    proof {
        reveal_strlit("0");
        reveal_strlit("1");
        reveal_strlit("2");
        reveal_strlit("3");
        reveal_strlit("4");
        reveal_strlit("5");
        reveal_strlit("6");
        reveal_strlit("7");
        reveal_strlit("8");
        reveal_strlit("9");
    }
    let text = if d == 0 {
        "0"
    } else if d == 1 {
        "1"
    } else if d == 2 {
        "2"
    } else if d == 3 {
        "3"
    } else if d == 4 {
        "4"
    } else if d == 5 {
        "5"
    } else if d == 6 {
        "6"
    } else if d == 7 {
        "7"
    } else if d == 8 {
        "8"
    } else {
        "9"
    };
    assert(text@ =~= seq![digit(d as nat)]);
    text
}

/// Appends `n` in decimal to `out`.
fn push_decimal(out: &mut String, n: u64)
    ensures
        final(out)@ == old(out)@ + decimal(n as nat),
    decreases n,
{
    if n >= 10 {
        push_decimal(out, n / 10);
    }
    out.append(digit_text(n % 10));
}

/// Writes `n` in decimal.
pub fn decimal_text(n: u64) -> (text: String)
    ensures
        text@ == decimal(n as nat),
{
    let mut text = String::new();
    push_decimal(&mut text, n);
    text
}

/// Computes the validator for `seed`.
pub fn validator(seed: u64) -> (etag: String)
    ensures
        etag@ == etag_of(seed),
{
    decimal_text(seed ^ MASK)
}

/// Reads the wall clock with `time::now` and returns the nanoseconds that
/// have passed since the last full second. Which value comes back depends on
/// the moment of the call; the contract states the one thing that holds of
/// all of them, the range that the crate documents for `Tm::tm_nsec`.
#[verifier::external_body]
pub(crate) fn clock_nanos() -> (nanos: u64)
    ensures
        nanos < NANOS_PER_SECOND,
{
    time::now().tm_nsec as u64
}

} // verus!
