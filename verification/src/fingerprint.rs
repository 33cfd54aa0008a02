//! The fingerprint of a configuration's text.
//!
//! The fingerprint is the 64-bit FNV-1a hash of the text's UTF-8 bytes. It is
//! there to notice a change, not to keep anything secret: it depends on the
//! bytes alone, so that the same text gives the same fingerprint in every
//! process and on every machine.

use vstd::prelude::*;
use vstd::string::StringExecFns;
use vstd::utf8::{encode_utf8, is_ascii_chars, is_ascii_chars_encode_utf8};

verus! {

/// Where FNV-1a starts.
pub const FNV_OFFSET_BASIS: u64 = 0xcbf2_9ce4_8422_2325;

/// What FNV-1a multiplies by.
pub const FNV_PRIME: u64 = 0x0000_0100_0000_01b3;

/// One step of FNV-1a: fold the byte in, then multiply.
pub open spec fn mix(state: u64, byte: u8) -> u64 {
    (state ^ (byte as u64)).wrapping_mul(FNV_PRIME)
}

/// The FNV-1a hash of the bytes.
pub open spec fn fnv1a(bytes: Seq<u8>) -> u64
    decreases bytes.len(),
{
    if bytes.len() == 0 {
        FNV_OFFSET_BASIS
    } else {
        mix(fnv1a(bytes.drop_last()), bytes.last())
    }
}

/// The fingerprint of a text.
pub open spec fn fingerprint_of(text: Seq<char>) -> u64 {
    fnv1a(encode_utf8(text))
}

/// The digit `d` as a character.
pub open spec fn digit_char(d: nat) -> char {
    if d == 0 {
        '0'
    } else if d == 1 {
        '1'
    } else if d == 2 {
        '2'
    } else if d == 3 {
        '3'
    } else if d == 4 {
        '4'
    } else if d == 5 {
        '5'
    } else if d == 6 {
        '6'
    } else if d == 7 {
        '7'
    } else if d == 8 {
        '8'
    } else {
        '9'
    }
}

/// The number in decimal digits, without leading zeros.
pub open spec fn decimal_text(n: nat) -> Seq<char>
    decreases n,
{
    if n < 10 {
        seq![digit_char(n)]
    } else {
        decimal_text(n / 10).push(digit_char(n % 10))
    }
}

/// The inverse of the FNV prime among the 64-bit numbers: their product
/// leaves the remainder 1.
pub const FNV_PRIME_INVERSE: u64 = 0xce96_5057_aff6_957b;

/// Multiplying by the FNV prime can be undone, so it loses nothing.
pub proof fn lemma_prime_has_inverse(x: u64)
    ensures
        x.wrapping_mul(FNV_PRIME).wrapping_mul(FNV_PRIME_INVERSE) == x,
{
    let m: int = 0x1_0000_0000_0000_0000;
    let p: int = 0x0000_0100_0000_01b3;
    let q: int = 0xce96_5057_aff6_957b;
    let k: int = 887285111055;
    assert(p * q == m * k + 1);
    // Multiplied by the prime and then by its inverse, `x` has grown by a
    // multiple of `m`, which the remainder drops.
    vstd::arithmetic::div_mod::lemma_mul_mod_noop_left(x * p, q, m);
    assert(x * p * q == m * (x * k) + x);
    vstd::arithmetic::div_mod::lemma_mod_multiples_vanish(x * k, x as int, m);
}

/// Two steps that end in one state folded to one value before they
/// multiplied.
pub proof fn lemma_mix_keeps_apart(first: u64, byte: u8, second: u64, other: u8)
    requires
        mix(first, byte) == mix(second, other),
    ensures
        first ^ (byte as u64) == second ^ (other as u64),
{
    lemma_prime_has_inverse(first ^ (byte as u64));
    lemma_prime_has_inverse(second ^ (other as u64));
}

/// Bytes that differ in exactly one place have different hashes.
pub proof fn lemma_one_byte_changes_hash(first: Seq<u8>, second: Seq<u8>, at: int)
    requires
        first.len() == second.len(),
        0 <= at < first.len(),
        first[at] != second[at],
        forall|k: int| 0 <= k < first.len() && k != at ==> first[k] == second[k],
    ensures
        fnv1a(first) != fnv1a(second),
    decreases first.len(),
{
    let before = fnv1a(first.drop_last());
    let other = fnv1a(second.drop_last());
    let x = first.last() as u64;
    let y = second.last() as u64;
    if fnv1a(first) == fnv1a(second) {
        lemma_mix_keeps_apart(before, first.last(), other, second.last());
        if at == first.len() - 1 {
            assert(first.drop_last() =~= second.drop_last());
            assert((before ^ x) == (before ^ y) ==> x == y) by (bit_vector);
        } else {
            lemma_one_byte_changes_hash(first.drop_last(), second.drop_last(), at);
            assert((before ^ x) == (other ^ x) ==> before == other) by (bit_vector);
        }
    }
}

/// Texts of ASCII characters that differ in exactly one character have
/// different fingerprints.
pub proof fn lemma_one_character_changes_fingerprint(first: Seq<char>, second: Seq<char>, at: int)
    requires
        is_ascii_chars(first),
        is_ascii_chars(second),
        first.len() == second.len(),
        0 <= at < first.len(),
        first[at] != second[at],
        forall|k: int| 0 <= k < first.len() && k != at ==> first[k] == second[k],
    ensures
        fingerprint_of(first) != fingerprint_of(second),
{
    is_ascii_chars_encode_utf8(first);
    is_ascii_chars_encode_utf8(second);
    lemma_one_byte_changes_hash(encode_utf8(first), encode_utf8(second), at);
}

/// Different numbers are written differently.
pub proof fn lemma_decimal_text_tells_apart(first: nat, second: nat)
    requires
        decimal_text(first) == decimal_text(second),
    ensures
        first == second,
    decreases first,
{
    let a = decimal_text(first);
    let b = decimal_text(second);
    if first >= 10 && second >= 10 {
        // The last digits agree, and so does what is written before them.
        assert(a.drop_last() =~= decimal_text(first / 10));
        assert(b.drop_last() =~= decimal_text(second / 10));
        assert(a.last() == digit_char(first % 10));
        assert(b.last() == digit_char(second % 10));
        lemma_decimal_text_tells_apart(first / 10, second / 10);
    } else {
        // A number below ten is written with one digit, no other is.
        assert(a.len() == b.len());
        assert(a[0] == b[0]);
        if first >= 10 {
            assert(decimal_text(first / 10).len() >= 1);
        } else if second >= 10 {
            assert(decimal_text(second / 10).len() >= 1);
        }
    }
}

/// Computes the fingerprint of a text.
pub fn fingerprint(text: &str) -> (hash: u64)
    ensures
        hash == fingerprint_of(text@),
{
    let bytes: &[u8] = text.as_bytes();
    let mut hash: u64 = FNV_OFFSET_BASIS;
    let mut i: usize = 0;
    while i < bytes.len()
        invariant
            i <= bytes@.len(),
            hash == fnv1a(bytes@.take(i as int)),
        decreases bytes@.len() - i,
    {
        proof {
            assert(bytes@.take(i + 1).drop_last() =~= bytes@.take(i as int));
        }
        hash = (hash ^ (bytes[i] as u64)).wrapping_mul(FNV_PRIME);
        i = i + 1;
    }
    proof {
        assert(bytes@.take(i as int) =~= bytes@);
    }
    hash
}

fn digit_str(d: u64) -> (digit: &'static str)
    requires
        d < 10,
    ensures
        digit@ == seq![digit_char(d as nat)],
{
    proof {
        reveal_strlit("0");
        reveal_strlit("1");
        reveal_strlit("2");
        reveal_strlit("3");
        reveal_strlit("4");
        reveal_strlit("5");
        reveal_strlit("6");
        reveal_strlit("7");
        reveal_strlit("8");
        reveal_strlit("9");
    }
    let digit = if d == 0 {
        "0"
    } else if d == 1 {
        "1"
    } else if d == 2 {
        "2"
    } else if d == 3 {
        "3"
    } else if d == 4 {
        "4"
    } else if d == 5 {
        "5"
    } else if d == 6 {
        "6"
    } else if d == 7 {
        "7"
    } else if d == 8 {
        "8"
    } else {
        "9"
    };
    digit
}

/// Writes a number in decimal digits.
pub fn decimal(n: u64) -> (text: String)
    ensures
        text@ == decimal_text(n as nat),
    decreases n,
{
    if n < 10 {
        digit_str(n).to_owned()
    } else {
        let mut text = decimal(n / 10);
        text.append(digit_str(n % 10));
        text
    }
}

} // verus!
