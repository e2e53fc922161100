//! Session identifiers: 128-bit ULIDs and their 26-character Crockford
//! base32 text, as the `ulid` crate encodes and decodes them.

use vstd::prelude::*;
use vstd::utf8::is_ascii_chars;

verus! {

/// The Crockford base32 alphabet the `ulid` crate encodes with.
pub open spec fn crockford_char(d: nat) -> char {
    if d < 10 {
        ((48 + d) as u8) as char
    } else {
        seq!['A', 'B', 'C', 'D', 'E', 'F', 'G', 'H', 'J', 'K', 'M', 'N', 'P', 'Q', 'R', 'S', 'T', 'V', 'W', 'X', 'Y', 'Z'][d - 10]
    }
}

/// The value of one Crockford base32 character as the `ulid` decoder reads
/// it (upper or lower case letters; `I`, `L`, `O`, `U` are not digits), or
/// `None` for any other character.
pub open spec fn crockford_value(c: char) -> Option<nat> {
    if '0' <= c <= '9' {
        Some(((c as u32) - 48) as nat)
    } else {
        let u = if 'a' <= c <= 'z' {
            ((c as u32) - 32) as u32
        } else {
            c as u32
        };
        if 0x41 <= u <= 0x48 {
            Some((u - 0x41 + 10) as nat)
        } else if u == 0x4A || u == 0x4B {
            Some((u - 0x4A + 18) as nat)
        } else if u == 0x4D || u == 0x4E {
            Some((u - 0x4D + 20) as nat)
        } else if 0x50 <= u <= 0x54 {
            Some((u - 0x50 + 22) as nat)
        } else if 0x56 <= u <= 0x5A {
            Some((u - 0x56 + 27) as nat)
        } else {
            None
        }
    }
}

/// `2^128`.
pub open spec fn two_128() -> nat {
    (u128::MAX as nat) + 1
}

/// The 26-character text of a ULID: character `i` is the base32 digit
/// `(v / 32^(25 - i)) % 32`.
pub open spec fn ulid_text(v: u128) -> Seq<char> {
    Seq::new(26, |i: int| crockford_char(((v as nat) / pow32((25 - i) as nat)) % 32))
}

/// `32^k`.
pub open spec fn pow32(k: nat) -> nat
    decreases k,
{
    if k == 0 {
        1
    } else {
        32 * pow32((k - 1) as nat)
    }
}

/// Every character is a Crockford digit.
pub open spec fn all_crockford(s: Seq<char>) -> bool {
    forall|i: int| 0 <= i < s.len() ==> (#[trigger] crockford_value(s[i])) is Some
}

/// The decoder's accumulator: each digit is shifted in from the right and
/// bits above 128 are lost.
pub open spec fn crockford_fold(s: Seq<char>) -> nat
    decreases s.len(),
{
    if s.len() == 0 {
        0
    } else {
        (crockford_fold(s.drop_last()) * 32 + crockford_value(s.last()).unwrap()) % two_128()
    }
}

/// What `Ulid::from_string` yields: a value for exactly 26 Crockford digits,
/// `None` for anything else.
pub open spec fn ulid_decode(s: Seq<char>) -> Option<u128> {
    if s.len() == 26 && all_crockford(s) {
        Some(crockford_fold(s) as u128)
    } else {
        None
    }
}

/// `Ulid(v).to_string()`: the 26-character Crockford base32 text of `v`.
#[verifier::external_body]
pub(crate) fn ulid_to_string(v: u128) -> (r: String)
    ensures
        r@ == ulid_text(v),
{
    ulid::Ulid(v).to_string()
}

/// `query.parse::<Ulid>()`: the decoded value, or `None` on a length or
/// character error.
#[verifier::external_body]
pub(crate) fn ulid_parse(query: &str) -> (r: Option<u128>)
    ensures
        r == ulid_decode(query@),
{
    match query.parse::<ulid::Ulid>() {
        Ok(u) => Some(u.0),
        Err(_) => None,
    }
}

/// Each base32 digit's character reads back as that digit.
pub proof fn lemma_crockford_digit(d: nat)
    requires
        d < 32,
    ensures
        crockford_value(crockford_char(d)) == Some(d),
{
    if d < 10 {
        assert((((48 + d) as u8) as char) as u32 == 48 + d);
    } else {
        let s = seq!['A', 'B', 'C', 'D', 'E', 'F', 'G', 'H', 'J', 'K', 'M', 'N', 'P', 'Q', 'R', 'S', 'T', 'V', 'W', 'X', 'Y', 'Z'];
        assert(crockford_char(d) == s[d - 10]);
        if d == 10 { assert(s[0] == 'A'); }
        else if d == 11 { assert(s[1] == 'B'); }
        else if d == 12 { assert(s[2] == 'C'); }
        else if d == 13 { assert(s[3] == 'D'); }
        else if d == 14 { assert(s[4] == 'E'); }
        else if d == 15 { assert(s[5] == 'F'); }
        else if d == 16 { assert(s[6] == 'G'); }
        else if d == 17 { assert(s[7] == 'H'); }
        else if d == 18 { assert(s[8] == 'J'); }
        else if d == 19 { assert(s[9] == 'K'); }
        else if d == 20 { assert(s[10] == 'M'); }
        else if d == 21 { assert(s[11] == 'N'); }
        else if d == 22 { assert(s[12] == 'P'); }
        else if d == 23 { assert(s[13] == 'Q'); }
        else if d == 24 { assert(s[14] == 'R'); }
        else if d == 25 { assert(s[15] == 'S'); }
        else if d == 26 { assert(s[16] == 'T'); }
        else if d == 27 { assert(s[17] == 'V'); }
        else if d == 28 { assert(s[18] == 'W'); }
        else if d == 29 { assert(s[19] == 'X'); }
        else if d == 30 { assert(s[20] == 'Y'); }
        else { assert(s[21] == 'Z'); }
    }
}

proof fn lemma_pow32_pos(k: nat)
    ensures
        pow32(k) >= 1,
    decreases k,
{
    if k > 0 {
        lemma_pow32_pos((k - 1) as nat);
    }
}

proof fn lemma_pow32_26()
    ensures
        pow32(26) > u128::MAX,
{
    reveal_with_fuel(pow32, 27);
}

proof fn lemma_fold_prefix(v: u128, k: nat)
    requires
        k <= 26,
    ensures
        crockford_fold(ulid_text(v).take(k as int)) == (v as nat) / pow32((26 - k) as nat),
    decreases k,
{
    let t = ulid_text(v);
    if k == 0 {
        assert(t.take(0) =~= Seq::<char>::empty());
        lemma_pow32_26();
        assert((v as nat) / pow32(26) == 0) by (nonlinear_arith)
            requires
                pow32(26) > v,
                v >= 0,
        ;
    } else {
        let j = (k - 1) as nat;
        lemma_fold_prefix(v, j);
        assert(t.take(k as int).drop_last() =~= t.take(j as int));
        assert(t.take(k as int).last() == t[j as int]);
        let p = pow32((25 - j) as nat);
        lemma_pow32_pos((25 - j) as nat);
        let a = (v as nat) / p;
        let d = a % 32;
        assert(t[j as int] == crockford_char(d));
        lemma_crockford_digit(d);
        assert(pow32((26 - j) as nat) == 32 * p);
        vstd::arithmetic::div_mod::lemma_div_denominator(v as int, p as int, 32);
        assert((v as nat) / pow32((26 - j) as nat) == a / 32) by {
            assert(p * 32 == 32 * p) by (nonlinear_arith);
        }
        vstd::arithmetic::div_mod::lemma_fundamental_div_mod(a as int, 32);
        assert(a <= v) by (nonlinear_arith)
            requires
                a == (v as nat) / p,
                p >= 1,
        ;
        assert((a / 32) * 32 + d == a) by (nonlinear_arith)
            requires
                a == 32 * (a / 32) + a % 32,
                d == a % 32,
        ;
        assert(a < two_128());
        assert(crockford_fold(t.take(k as int)) == ((a / 32) * 32 + d) % two_128());
    }
}

/// Decoding the text of a ULID gives the ULID back.
pub proof fn lemma_ulid_round_trip(v: u128)
    ensures
        ulid_decode(ulid_text(v)) == Some(v),
        ulid_text(v).len() == 26,
        is_ascii_chars(ulid_text(v)),
{
    let t = ulid_text(v);
    assert forall|i: int| 0 <= i < t.len() implies (#[trigger] crockford_value(t[i])) is Some by {
        let d = ((v as nat) / pow32((25 - i) as nat)) % 32;
        lemma_crockford_digit(d);
    }
    assert forall|i: int| 0 <= i < t.len() implies '\0' <= #[trigger] t[i] <= '\u{7f}' by {
        let d = ((v as nat) / pow32((25 - i) as nat)) % 32;
        lemma_crockford_digit(d);
    }
    lemma_fold_prefix(v, 26);
    assert(t.take(26) =~= t);
    assert(pow32(0) == 1);
    assert((v as nat) / 1 == v as nat) by (nonlinear_arith);
    assert(crockford_fold(t) == v as nat);
    assert(all_crockford(t));
}

} // verus!
