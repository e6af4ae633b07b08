//! Content fingerprinting.
//!
//! A room's fingerprint is the decimal rendering of a 128-bit digest of the
//! bytes gathered from its file tree. Equality of two fingerprints is the
//! sole change-detection signal.

use vstd::prelude::*;

verus! {

/// The 128-bit digest that the Meow hasher assigns to a byte sequence.
/// The digest depends on the bytes alone.
pub uninterp spec fn meow_of(bytes: Seq<u8>) -> u128;

/// Relies on meowhash's `MeowHasher::hash`, which digests the bytes with the
/// library's fixed default seed: the result is a function of the bytes alone.
/// `as_u128` compresses the 128-byte state into one `u128`, again from the
/// state alone.
#[verifier::external_body]
fn meow_u128(bytes: &[u8]) -> (r: u128)
    ensures
        r == meow_of(bytes@),
{
    meowhash::MeowHasher::hash(bytes).as_u128()
}

/// The character for one decimal digit.
pub open spec fn digit_char(d: int) -> char {
    if d == 0 {
        '0'
    } else if d == 1 {
        '1'
    } else if d == 2 {
        '2'
    } else if d == 3 {
        '3'
    } else if d == 4 {
        '4'
    } else if d == 5 {
        '5'
    } else if d == 6 {
        '6'
    } else if d == 7 {
        '7'
    } else if d == 8 {
        '8'
    } else {
        '9'
    }
}

/// The decimal rendering of a natural number, most significant digit first,
/// with no leading zeros (a single `'0'` for zero).
pub open spec fn dec_of(n: nat) -> Seq<char>
    decreases n,
{
    if n < 10 {
        seq![digit_char(n as int)]
    } else {
        dec_of(n / 10).push(digit_char((n % 10) as int))
    }
}

/// The fingerprint recorded for a byte sequence: the decimal rendering of its
/// 128-bit digest.
pub open spec fn fingerprint_of(bytes: Seq<u8>) -> Seq<char> {
    dec_of(meow_of(bytes) as nat)
}

/// The one-character string for a decimal digit.
fn digit_str(d: u128) -> (r: &'static str)
    requires
        d < 10,
    ensures
        r@ =~= seq![digit_char(d as int)],
{
    proof {
        reveal_strlit("0");
        reveal_strlit("1");
        reveal_strlit("2");
        reveal_strlit("3");
        reveal_strlit("4");
        reveal_strlit("5");
        reveal_strlit("6");
        reveal_strlit("7");
        reveal_strlit("8");
        reveal_strlit("9");
    }
    if d == 0 {
        "0"
    } else if d == 1 {
        "1"
    } else if d == 2 {
        "2"
    } else if d == 3 {
        "3"
    } else if d == 4 {
        "4"
    } else if d == 5 {
        "5"
    } else if d == 6 {
        "6"
    } else if d == 7 {
        "7"
    } else if d == 8 {
        "8"
    } else {
        "9"
    }
}

/// Appends the decimal rendering of `n` to `out`.
fn push_decimal(n: u128, out: &mut String)
    ensures
        final(out)@ == old(out)@ + dec_of(n as nat),
    decreases n,
{
    if n >= 10 {
        assert(n / 10 < n) by (nonlinear_arith)
            requires
                n >= 10,
        ;
        push_decimal(n / 10, out);
    }
    let d: u128 = n % 10;
    out.append(digit_str(d));
    proof {
        assert(out@ =~= old(out)@ + dec_of(n as nat));
    }
}

/// The decimal rendering of a 128-bit value as an owned string.
pub fn decimal_string(n: u128) -> (r: String)
    ensures
        r@ == dec_of(n as nat),
{
    let mut out = String::new();
    push_decimal(n, &mut out);
    proof {
        assert(out@ =~= dec_of(n as nat));
    }
    out
}

/// The fingerprint of a byte sequence, ready to be compared with a cache
/// entry or written to one.
pub fn hash_bytes(content: &[u8]) -> (r: String)
    ensures
        r@ == fingerprint_of(content@),
{
    decimal_string(meow_u128(content))
}

/// Fingerprinting is a pure function of the content: two byte sequences with
/// the same bytes always carry the same fingerprint.
pub proof fn lemma_fingerprint_deterministic(a: Seq<u8>, b: Seq<u8>)
    requires
        a == b,
    ensures
        fingerprint_of(a) == fingerprint_of(b),
{
}

/// A decimal rendering has at least one digit, and at least two for a
/// number of two digits.
proof fn lemma_dec_of_len(n: nat)
    ensures
        dec_of(n).len() >= 1,
        n >= 10 ==> dec_of(n).len() >= 2,
    decreases n,
{
    if n >= 10 {
        assert(n / 10 < n) by (nonlinear_arith)
            requires
                n >= 10,
        ;
        lemma_dec_of_len(n / 10);
    }
}

/// The decimal rendering loses nothing: two numbers with the same rendering
/// are the same number.
proof fn lemma_dec_of_injective(a: nat, b: nat)
    requires
        dec_of(a) == dec_of(b),
    ensures
        a == b,
    decreases a,
{
    lemma_dec_of_len(a);
    lemma_dec_of_len(b);
    if a < 10 && b < 10 {
        assert(dec_of(a)[0] == digit_char(a as int));
        assert(dec_of(b)[0] == digit_char(b as int));
    } else if a >= 10 && b >= 10 {
        assert(a / 10 < a) by (nonlinear_arith)
            requires
                a >= 10,
        ;
        assert(dec_of(a).last() == digit_char((a % 10) as int));
        assert(dec_of(b).last() == digit_char((b % 10) as int));
        assert(dec_of(a).drop_last() =~= dec_of(a / 10));
        assert(dec_of(b).drop_last() =~= dec_of(b / 10));
        lemma_dec_of_injective(a / 10, b / 10);
        assert(a == 10 * (a / 10) + a % 10) by (nonlinear_arith);
        assert(b == 10 * (b / 10) + b % 10) by (nonlinear_arith);
    } else {
        assert(false);
    }
}

/// Equal fingerprints mean equal digests: the cache encoding never masks a
/// change that the digest sees.
pub proof fn lemma_fingerprint_injective(a: Seq<u8>, b: Seq<u8>)
    requires
        fingerprint_of(a) == fingerprint_of(b),
    ensures
        meow_of(a) == meow_of(b),
{
    lemma_dec_of_injective(meow_of(a) as nat, meow_of(b) as nat);
}

} // verus!
