//! Hexadecimal digits, and the correspondence between byte sequences and
//! their hex encodings, at nibble (half-byte) precision.

use vstd::prelude::*;

verus! {

/// `c` is a decimal digit or a lowercase hex letter.
pub open spec fn is_lower_hex_digit(c: char) -> bool {
    ('0' as int <= c as int && c as int <= '9' as int) || ('a' as int <= c as int && c as int
        <= 'f' as int)
}

/// `c` is a hex digit, lowercase or uppercase.
pub open spec fn is_hex_digit(c: char) -> bool {
    is_lower_hex_digit(c) || ('A' as int <= c as int && c as int <= 'F' as int)
}

/// The numeric value of a hex digit, case-insensitive.
pub open spec fn hex_digit_value(c: char) -> u8
    recommends
        is_hex_digit(c),
{
    if '0' as int <= c as int && c as int <= '9' as int {
        (c as int - '0' as int) as u8
    } else if 'a' as int <= c as int && c as int <= 'f' as int {
        (c as int - 'a' as int + 10) as u8
    } else if 'A' as int <= c as int && c as int <= 'F' as int {
        (c as int - 'A' as int + 10) as u8
    } else {
        0
    }
}

/// The lowercase hex digit for a nibble value.
pub open spec fn hex_digit_of_nibble(v: u8) -> char
    recommends
        v < 16,
{
    if v == 0 {
        '0'
    } else if v == 1 {
        '1'
    } else if v == 2 {
        '2'
    } else if v == 3 {
        '3'
    } else if v == 4 {
        '4'
    } else if v == 5 {
        '5'
    } else if v == 6 {
        '6'
    } else if v == 7 {
        '7'
    } else if v == 8 {
        '8'
    } else if v == 9 {
        '9'
    } else if v == 10 {
        'a'
    } else if v == 11 {
        'b'
    } else if v == 12 {
        'c'
    } else if v == 13 {
        'd'
    } else if v == 14 {
        'e'
    } else {
        'f'
    }
}

/// Every character of `s` is a hex digit and there is at least one.
pub open spec fn valid_hex_chars(s: Seq<char>) -> bool {
    s.len() > 0 && (forall|i: int| 0 <= i < s.len() ==> is_hex_digit(#[trigger] s[i]))
}

/// The high (most significant) nibble of a byte.
pub open spec fn high_nibble(b: u8) -> u8 {
    b / 16
}

/// The low (least significant) nibble of a byte.
pub open spec fn low_nibble(b: u8) -> u8 {
    b % 16
}

/// The nibbles of a byte sequence, high nibble of each byte first, as they
/// appear in its hex encoding.
pub open spec fn nibbles_of_bytes(bs: Seq<u8>) -> Seq<u8> {
    Seq::new(
        2 * bs.len(),
        |i: int|
            if i % 2 == 0 {
                high_nibble(bs[i / 2])
            } else {
                low_nibble(bs[i / 2])
            },
    )
}

/// The nibble values named by a sequence of hex digits.
pub open spec fn nibbles_of_hex(s: Seq<char>) -> Seq<u8>
    recommends
        forall|i: int| 0 <= i < s.len() ==> is_hex_digit(#[trigger] s[i]),
{
    s.map_values(|c: char| hex_digit_value(c))
}

/// The lowercase hex encoding of a byte sequence.
pub open spec fn hex_of_bytes(bs: Seq<u8>) -> Seq<char> {
    nibbles_of_bytes(bs).map_values(|v: u8| hex_digit_of_nibble(v))
}

/// The bytes named by an even-length sequence of hex digits.
pub open spec fn bytes_of_hex(s: Seq<char>) -> Seq<u8>
    recommends
        s.len() % 2 == 0,
        forall|i: int| 0 <= i < s.len() ==> is_hex_digit(#[trigger] s[i]),
{
    Seq::new(
        s.len() / 2,
        |i: int| (16 * hex_digit_value(s[2 * i]) + hex_digit_value(s[2 * i + 1])) as u8,
    )
}

/// Nibble values are below 16 and reassemble into their byte.
pub proof fn lemma_nibble_range(b: u8)
    ensures
        high_nibble(b) < 16,
        low_nibble(b) < 16,
        b == 16 * high_nibble(b) + low_nibble(b),
{
    assert(b / 16 < 16 && b % 16 < 16 && b == 16 * (b / 16) + b % 16) by (bit_vector);
}

/// Decoding hex digits to bytes preserves the nibble values.
pub proof fn lemma_nibbles_of_decoded(s: Seq<char>)
    requires
        s.len() % 2 == 0,
        forall|i: int| 0 <= i < s.len() ==> is_hex_digit(#[trigger] s[i]),
    ensures
        nibbles_of_bytes(bytes_of_hex(s)) == nibbles_of_hex(s),
{
    let bs = bytes_of_hex(s);
    assert forall|i: int| 0 <= i < s.len() implies nibbles_of_bytes(bs)[i] == nibbles_of_hex(s)[i] by {
        let h = hex_digit_value(s[2 * (i / 2)]);
        let l = hex_digit_value(s[2 * (i / 2) + 1]);
        assert(h < 16 && l < 16);
        let b = (16 * h + l) as u8;
        assert(b / 16 == h && b % 16 == l) by (bit_vector)
            requires
                h < 16,
                l < 16,
                b == (16 * h + l) as u8,
        ;
        if i % 2 == 0 {
            assert(2 * (i / 2) == i);
        } else {
            assert(2 * (i / 2) + 1 == i);
        }
    }
    assert(nibbles_of_bytes(bs) =~= nibbles_of_hex(s));
}

/// Lowercase hex digits and nibble values correspond one to one.
pub proof fn lemma_hex_digit_roundtrip(c: char, v: u8)
    ensures
        is_lower_hex_digit(c) ==> hex_digit_of_nibble(hex_digit_value(c)) == c,
        v < 16 ==> hex_digit_value(hex_digit_of_nibble(v)) == v && is_lower_hex_digit(
            hex_digit_of_nibble(v),
        ),
{
}

/// Return `true` if string slice reference indicates a string with an odd number of characters.
pub fn has_odd_character_count(string_ref: &str) -> (odd: bool)
    ensures
        odd == (string_ref@.len() % 2 == 1),
{
    string_ref.unicode_len() % 2 == 1
}

/// Convert a char to what hex number it represents.
pub fn to_byte(c: char) -> (v: u8)
    requires
        is_lower_hex_digit(c),
    ensures
        v == hex_digit_value(c),
        v < 16,
{
    hex_digit_to_value(c)
}

/// The numeric value of a hex digit of either case.
pub fn hex_digit_to_value(c: char) -> (v: u8)
    requires
        is_hex_digit(c),
    ensures
        v == hex_digit_value(c),
        v < 16,
{
    let code = c as u32;
    if 48 <= code && code <= 57 {
        (code - 48) as u8
    } else if 97 <= code && code <= 102 {
        (code - 97 + 10) as u8
    } else {
        (code - 65 + 10) as u8
    }
}

/// Decide whether `c` is a hex digit of either case.
pub fn is_hex_digit_char(c: char) -> (r: bool)
    ensures
        r == is_hex_digit(c),
{
    let code = c as u32;
    (48 <= code && code <= 57) || (97 <= code && code <= 102) || (65 <= code && code <= 70)
}

/// Decide whether `s` is a nonempty string of hex digits.
pub fn is_hex_string(s: &str) -> (valid: bool)
    ensures
        valid == valid_hex_chars(s@),
{
    let n = s.unicode_len();
    if n == 0 {
        return false;
    }
    let mut i: usize = 0;
    while i < n
        invariant
            0 <= i <= n,
            n == s@.len(),
            forall|j: int| 0 <= j < i ==> is_hex_digit(#[trigger] s@[j]),
        decreases n - i,
    {
        if !is_hex_digit_char(s.get_char(i)) {
            return false;
        }
        i = i + 1;
    }
    true
}

/// Relies on `hex::decode`: each pair of hex digits (either case) becomes one
/// byte, high nibble first; it succeeds exactly on even-length hex input.
#[verifier::external_body]
pub(crate) fn hex_decode_pairs(s: &str) -> (r: Vec<u8>)
    requires
        s@.len() % 2 == 0,
        forall|i: int| 0 <= i < s@.len() ==> is_hex_digit(#[trigger] s@[i]),
    ensures
        r@ == bytes_of_hex(s@),
{
    hex::decode(s).unwrap()
}

/// Relies on `hex::encode`: two lowercase hex digits per byte, in order.
#[verifier::external_body]
pub(crate) fn hex_encode_bytes(b: &Vec<u8>) -> (r: String)
    ensures
        r@ == hex_of_bytes(b@),
{
    hex::encode(b)
}

} // verus!
