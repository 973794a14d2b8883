//! Deterministic identifier derivation.
//!
//! Identifiers are 22-character base-58 strings. `derive_id` hashes the
//! input string to a 128-bit value and renders it in base 58, so that
//! membership and relation identifiers are stable functions of their
//! `(space, subject, predicate, object)` tuples. Address-keyed
//! identifiers first normalize the address with [`checksum_address`],
//! which makes them invariant under the case of the input address.

use vstd::prelude::*;

verus! {

/// Multiplier of the 128-bit multiply-and-fold hash.
pub const HASH_PRIME: u128 = 0x0000000001000000000000000000013B;

/// Initial state of the 128-bit multiply-and-fold hash.
pub const HASH_OFFSET: u128 = 0x6c62272e07bb014262b821756295c58d;

/// One step of the hash: absorb one character, then diffuse.
/// All arithmetic is modulo 2^128.
pub open spec fn hash_step(h: int, c: char) -> int {
    (((h + c as int) % 0x1_0000_0000_0000_0000_0000_0000_0000_0000int) * HASH_PRIME as int)
        % 0x1_0000_0000_0000_0000_0000_0000_0000_0000int
}

/// Hash of the first `i` characters of `s`.
pub open spec fn hash_prefix(s: Seq<char>, i: int) -> int
    decreases i,
{
    if i <= 0 {
        HASH_OFFSET as int
    } else {
        hash_step(hash_prefix(s, i - 1), s[i - 1])
    }
}

/// 128-bit hash of a whole character sequence.
pub open spec fn hash_chars(s: Seq<char>) -> int {
    hash_prefix(s, s.len() as int)
}

/// 58 to the power `k`.
pub open spec fn pow58(k: nat) -> int
    decreases k,
{
    if k == 0 {
        1
    } else {
        58 * pow58((k - 1) as nat)
    }
}

/// ASCII code of the base-58 digit `d`: the alphabet is
/// `123456789ABCDEFGHJKLMNPQRSTUVWXYZabcdefghijkmnopqrstuvwxyz`.
pub open spec fn base58_byte(d: int) -> u8 {
    if d < 9 {
        (49 + d) as u8  // '1' ..= '9'
    } else if d < 17 {
        (65 + (d - 9)) as u8  // 'A' ..= 'H'
    } else if d < 22 {
        (74 + (d - 17)) as u8  // 'J' ..= 'N'
    } else if d < 33 {
        (80 + (d - 22)) as u8  // 'P' ..= 'Z'
    } else if d < 44 {
        (97 + (d - 33)) as u8  // 'a' ..= 'k'
    } else {
        (109 + (d - 44)) as u8  // 'm' ..= 'z'
    }
}

/// Base-58 digit of `n` at position `i` of a 22-digit rendering,
/// most significant digit first.
pub open spec fn base58_digit(n: int, i: int) -> int {
    (n / pow58((21 - i) as nat)) % 58
}

/// The 22-character base-58 rendering of `n`.
pub open spec fn base58_chars(n: int) -> Seq<char> {
    Seq::new(22, |i: int| base58_byte(base58_digit(n, i)) as char)
}

/// The identifier derived from a string: the base-58 rendering of its
/// 128-bit hash. Deterministic by construction.
pub open spec fn derived_id(s: Seq<char>) -> Seq<char> {
    base58_chars(hash_chars(s))
}

/// Every character of a derived identifier is a base-58 character.
pub proof fn lemma_derived_id_chars(s: Seq<char>, i: int)
    requires
        0 <= i < 22,
    ensures
        crate::is_base58_char(derived_id(s)[i]),
{
    let n = hash_chars(s);
    let d = base58_digit(n, i);
    assert(0 <= d < 58) by {
        lemma_pow58_pos((21 - i) as nat);
    }
    assert(derived_id(s)[i] == base58_byte(d) as char);
}

/// Lower-case image of an ASCII character; other characters unchanged.
pub open spec fn to_lower_char(c: char) -> char {
    if 'A' <= c && c <= 'Z' {
        ((c as u8) + 32) as char
    } else {
        c
    }
}

/// The normal form of an address: ASCII letters lower-cased.
pub open spec fn checksummed(s: Seq<char>) -> Seq<char> {
    Seq::new(s.len(), |i: int| to_lower_char(s[i]))
}

/// The normal form of an address as produced by
/// [`checksum_address`]: lower-cased where the address is ASCII,
/// unchanged otherwise.
pub open spec fn normal_address(s: Seq<char>) -> Seq<char> {
    if vstd::utf8::is_ascii_chars(s) {
        checksummed(s)
    } else {
        s
    }
}

/// Normalization is idempotent.
pub proof fn lemma_normal_idempotent(s: Seq<char>)
    ensures
        normal_address(normal_address(s)) == normal_address(s),
{
    if vstd::utf8::is_ascii_chars(s) {
        assert(vstd::utf8::is_ascii_chars(checksummed(s))) by {
            assert forall|i: int|
                0 <= i < checksummed(s).len() implies '\0' <= #[trigger] checksummed(s)[i]
                <= '\u{7f}' by {
                assert(checksummed(s)[i] == to_lower_char(s[i]));
            }
        }
        lemma_checksummed_idempotent(s);
    }
}

/// Relies on `String::from_utf8`: a vector of bytes below 128 is valid
/// UTF-8 and decodes to the string of exactly those characters.
#[verifier::external_body]
pub(crate) fn string_from_ascii(bytes: Vec<u8>) -> (r: String)
    requires
        forall|i: int| 0 <= i < bytes@.len() ==> bytes@[i] < 128,
    ensures
        r@ == bytes@.map_values(|b: u8| b as char),
{
    String::from_utf8(bytes).unwrap_or_default()
}

/// Character-wise string equality.
pub fn str_eq(a: &str, b: &str) -> (r: bool)
    ensures
        r == (a@ == b@),
{
    let na = a.unicode_len();
    let nb = b.unicode_len();
    if na != nb {
        proof {
            assert(a@ != b@) by {
                assert(a@.len() != b@.len());
            }
        }
        return false;
    }
    let mut i: usize = 0;
    while i < na
        invariant
            na == a@.len(),
            na == b@.len(),
            0 <= i <= na,
            forall|t: int| 0 <= t < i ==> a@[t] == b@[t],
        decreases na - i,
    {
        if a.get_char(i) != b.get_char(i) {
            proof {
                assert(a@[i as int] != b@[i as int]);
            }
            return false;
        }
        i = i + 1;
    }
    proof {
        assert(a@ =~= b@);
    }
    true
}

/// Lexicographic order on character sequences: `a` comes strictly
/// before `b`.
pub open spec fn lex_lt(a: Seq<char>, b: Seq<char>) -> bool
    decreases a.len(),
{
    if b.len() == 0 {
        false
    } else if a.len() == 0 {
        true
    } else if a[0] != b[0] {
        a[0] < b[0]
    } else {
        lex_lt(a.skip(1), b.skip(1))
    }
}

/// Dropping a common prefix does not change the lexicographic order.
proof fn lemma_lex_lt_skip(a: Seq<char>, b: Seq<char>, i: int)
    requires
        0 <= i <= a.len(),
        i <= b.len(),
        forall|t: int| 0 <= t < i ==> a[t] == b[t],
    ensures
        lex_lt(a, b) == lex_lt(a.skip(i), b.skip(i)),
    decreases i,
{
    if i > 0 {
        assert(a[0] == b[0]);
        assert(lex_lt(a, b) == lex_lt(a.skip(1), b.skip(1)));
        assert(a.skip(1).skip(i - 1) =~= a.skip(i));
        assert(b.skip(1).skip(i - 1) =~= b.skip(i));
        assert forall|t: int| 0 <= t < i - 1 implies a.skip(1)[t] == b.skip(1)[t] by {
            assert(a.skip(1)[t] == a[t + 1]);
            assert(b.skip(1)[t] == b[t + 1]);
        }
        lemma_lex_lt_skip(a.skip(1), b.skip(1), i - 1);
    } else {
        assert(a.skip(0) =~= a);
        assert(b.skip(0) =~= b);
    }
}

/// Character-wise lexicographic comparison.
pub fn str_lt(a: &str, b: &str) -> (r: bool)
    ensures
        r == lex_lt(a@, b@),
{
    let na = a.unicode_len();
    let nb = b.unicode_len();
    let n = if na < nb {
        na
    } else {
        nb
    };
    let mut i: usize = 0;
    while i < n
        invariant
            na == a@.len(),
            nb == b@.len(),
            n == if na < nb {
                na
            } else {
                nb
            },
            0 <= i <= n,
            forall|t: int| 0 <= t < i ==> a@[t] == b@[t],
        decreases n - i,
    {
        let ca = a.get_char(i);
        let cb = b.get_char(i);
        if ca != cb {
            proof {
                lemma_lex_lt_skip(a@, b@, i as int);
                assert(a@.skip(i as int)[0] == a@[i as int]);
                assert(b@.skip(i as int)[0] == b@[i as int]);
            }
            return ca < cb;
        }
        i = i + 1;
    }
    proof {
        lemma_lex_lt_skip(a@, b@, n as int);
        if na < nb {
            assert(a@.skip(n as int).len() == 0);
            assert(b@.skip(n as int).len() > 0);
        } else {
            assert(b@.skip(n as int).len() == 0);
        }
    }
    na < nb
}

/// Exec rendering of [`base58_byte`].
fn base58_byte_exec(d: u8) -> (r: u8)
    requires
        d < 58,
    ensures
        r == base58_byte(d as int),
        r < 128,
{
    if d < 9 {
        49 + d
    } else if d < 17 {
        65 + (d - 9)
    } else if d < 22 {
        74 + (d - 17)
    } else if d < 33 {
        80 + (d - 22)
    } else if d < 44 {
        97 + (d - 33)
    } else {
        109 + (d - 44)
    }
}

/// Derive a stable identifier from a unique string: 22 base-58
/// characters of the input's 128-bit hash.
pub fn derive_id(s: &str) -> (r: String)
    ensures
        r@ == derived_id(s@),
        r@.len() == 22,
{
    let n = s.unicode_len();
    let mut h: u128 = HASH_OFFSET;
    let mut i: usize = 0;
    while i < n
        invariant
            n == s@.len(),
            0 <= i <= n,
            h == hash_prefix(s@, i as int),
        decreases n - i,
    {
        let c = s.get_char(i);
        h = h.wrapping_add(c as u128).wrapping_mul(HASH_PRIME);
        i = i + 1;
    }
    assert(h == hash_chars(s@));
    base58_render(h)
}

/// Render `n` as 22 base-58 digits, most significant first.
fn base58_render(n: u128) -> (r: String)
    ensures
        r@ == base58_chars(n as int),
        r@.len() == 22,
{
    let ghost n0 = n as int;
    let mut h = n;
    let mut digits: Vec<u8> = Vec::new();
    let mut k: usize = 0;
    while k < 22
        invariant
            0 <= k <= 22,
            h == n0 / pow58(k as nat),
            n0 == n as int,
            0 <= n0,
            digits@.len() == k,
            forall|j: int|
                0 <= j < k ==> digits@[j] == base58_byte(base58_digit(n0, 21 - j)) && digits@[j]
                    < 128,
        decreases 22 - k,
    {
        let d = (h % 58) as u8;
        proof {
            assert(pow58(k as nat) > 0) by {
                lemma_pow58_pos(k as nat);
            }
            assert((n0 / pow58(k as nat)) % 58 == base58_digit(n0, 21 - k));
            vstd::arithmetic::div_mod::lemma_div_denominator(n0, pow58(k as nat), 58);
            assert(pow58((k + 1) as nat) == pow58(k as nat) * 58) by {
                lemma_pow58_unfold((k + 1) as nat);
            }
        }
        digits.push(base58_byte_exec(d));
        h = h / 58;
        k = k + 1;
    }
    // The digits were produced least significant first; reverse them.
    let mut bytes: Vec<u8> = Vec::new();
    let mut j: usize = 0;
    while j < 22
        invariant
            0 <= j <= 22,
            digits@.len() == 22,
            forall|t: int|
                0 <= t < 22 ==> digits@[t] == base58_byte(base58_digit(n0, 21 - t)) && digits@[t]
                    < 128,
            bytes@.len() == j,
            forall|t: int| 0 <= t < j ==> bytes@[t] == digits@[21 - t],
        decreases 22 - j,
    {
        bytes.push(digits[21 - j]);
        j = j + 1;
    }
    proof {
        assert forall|t: int| 0 <= t < 22 implies bytes@[t] < 128 by {
            assert(bytes@[t] == digits@[21 - t]);
        }
    }
    let r = string_from_ascii(bytes);
    proof {
        assert forall|t: int| 0 <= t < 22 implies r@[t] == base58_chars(n0)[t] by {
            assert(r@[t] == bytes@[t] as char);
            assert(bytes@[t] == digits@[21 - t]);
            assert(digits@[21 - t] == base58_byte(base58_digit(n0, t)));
        }
        assert(r@ =~= base58_chars(n0));
    }
    r
}

proof fn lemma_pow58_pos(k: nat)
    ensures
        pow58(k) > 0,
    decreases k,
{
    if k > 0 {
        lemma_pow58_pos((k - 1) as nat);
    }
}

proof fn lemma_pow58_unfold(k: nat)
    requires
        k > 0,
    ensures
        pow58(k) == pow58((k - 1) as nat) * 58,
{
    assert(pow58(k) == 58 * pow58((k - 1) as nat));
}

/// Normalize an address for use in identifier derivation: ASCII
/// letters are lower-cased, so that two spellings of the same address
/// map to the same identifier. A string with characters outside ASCII
/// is returned unchanged.
pub fn checksum_address(address: &str) -> (r: String)
    ensures
        r@ == normal_address(address@),
{
    if !address.is_ascii() {
        return address.to_owned();
    }
    proof {
        broadcast use vstd::string::is_ascii_spec_bytes;

    }
    let bytes = address.as_bytes_vec();
    let mut out: Vec<u8> = Vec::new();
    let n = bytes.len();
    let mut i: usize = 0;
    while i < n
        invariant
            n == bytes@.len(),
            bytes@ == Seq::new(address@.len(), |t: int| address@[t] as u8),
            address.is_ascii(),
            0 <= i <= n,
            out@.len() == i,
            forall|t: int|
                0 <= t < i ==> out@[t] == to_lower_char(address@[t]) as u8 && out@[t] < 128,
        decreases n - i,
    {
        let b = bytes[i];
        proof {
            assert(address@[i as int] as u8 == b);
            assert('\0' <= address@[i as int] <= '\u{7f}');
        }
        let lb = if 65 <= b && b <= 90 {
            b + 32
        } else {
            b
        };
        proof {
            let c = address@[i as int];
            assert(lb == to_lower_char(c) as u8);
        }
        out.push(lb);
        i = i + 1;
    }
    let r = string_from_ascii(out);
    proof {
        assert forall|t: int| 0 <= t < r@.len() implies r@[t] == checksummed(address@)[t] by {
            assert(out@[t] == to_lower_char(address@[t]) as u8);
        }
        assert(r@ =~= checksummed(address@));
    }
    r
}

/// Normalizing twice changes nothing: lower-casing is idempotent.
pub proof fn lemma_checksummed_idempotent(s: Seq<char>)
    ensures
        checksummed(checksummed(s)) == checksummed(s),
{
    assert forall|i: int| 0 <= i < s.len() implies checksummed(checksummed(s))[i] == checksummed(
        s,
    )[i] by {
        assert(to_lower_char(to_lower_char(s[i])) == to_lower_char(s[i]));
    }
    assert(checksummed(checksummed(s)) =~= checksummed(s));
}

/// Identifier derivation is invariant under the case of an address:
/// two addresses equal up to ASCII case have the same normal form,
/// hence derive the same identifier.
pub proof fn lemma_id_case_invariant(a: Seq<char>, b: Seq<char>)
    requires
        a.len() == b.len(),
        forall|i: int| 0 <= i < a.len() ==> to_lower_char(a[i]) == to_lower_char(b[i]),
    ensures
        checksummed(a) == checksummed(b),
        derived_id(checksummed(a)) == derived_id(checksummed(b)),
{
    assert(checksummed(a) =~= checksummed(b));
}

} // verus!
