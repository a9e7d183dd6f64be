//! Compilation of a requested hex prefix/suffix into a byte-plus-nibble
//! matcher, and the match test run against every candidate address.
//!
//! An affix with an even number of hex digits constrains whole bytes only.
//! An odd one also constrains a single nibble at the boundary: the high
//! nibble of the byte after the whole-byte region for a prefix, the low
//! nibble of the byte before it for a suffix.

use vstd::prelude::*;

use crate::hexbytes::{
    bytes_of_hex, has_odd_character_count, hex_decode_pairs, hex_digit_of_nibble,
    hex_digit_to_value, hex_digit_value, hex_of_bytes, high_nibble, is_hex_string,
    is_lower_hex_digit, lemma_hex_digit_roundtrip, lemma_nibble_range, lemma_nibbles_of_decoded,
    low_nibble, nibbles_of_bytes, nibbles_of_hex, valid_hex_chars,
};

verus! {

/// One side of an affix specification: the whole bytes to match exactly and,
/// for an odd-length affix, the boundary nibble value.
pub struct AffixPattern {
    pub bytes: Vec<u8>,
    pub nibble: Option<u8>,
}

/// The compiled prefix/suffix specification shared by all search workers.
pub struct AffixSpec {
    pub prefix: Option<AffixPattern>,
    pub suffix: Option<AffixPattern>,
}

/// Rejection of an invalid affix request, detected before any search begins.
#[derive(Clone, Copy, Debug, PartialEq, Eq, Structural)]
pub enum AffixError {
    /// The requested prefix is empty or holds a character that is no hex digit.
    InvalidPrefix,
    /// The requested suffix is empty or holds a character that is no hex digit.
    InvalidSuffix,
}

/// The boundary nibble as a (possibly empty) nibble sequence.
pub open spec fn opt_nibble_seq(n: Option<u8>) -> Seq<u8> {
    match n {
        None => Seq::empty(),
        Some(v) => seq![v],
    }
}

impl AffixPattern {
    /// A stored nibble is a nibble value.
    pub open spec fn wf(self) -> bool {
        match self.nibble {
            Some(n) => n < 16,
            None => true,
        }
    }

    /// The nibble sequence this pattern constrains at the front of an address.
    pub open spec fn prefix_nibbles(self) -> Seq<u8> {
        nibbles_of_bytes(self.bytes@) + opt_nibble_seq(self.nibble)
    }

    /// The nibble sequence this pattern constrains at the back of an address.
    pub open spec fn suffix_nibbles(self) -> Seq<u8> {
        opt_nibble_seq(self.nibble) + nibbles_of_bytes(self.bytes@)
    }
}

/// The first `p.len()` nibbles of `addr` are exactly `p`.
pub open spec fn nibble_prefix_matches(p: Seq<u8>, addr: Seq<u8>) -> bool {
    let an = nibbles_of_bytes(addr);
    p.len() <= an.len() && an.take(p.len() as int) == p
}

/// The last `s.len()` nibbles of `addr` are exactly `s`.
pub open spec fn nibble_suffix_matches(s: Seq<u8>, addr: Seq<u8>) -> bool {
    let an = nibbles_of_bytes(addr);
    s.len() <= an.len() && an.skip(an.len() - s.len()) == s
}

impl AffixSpec {
    pub open spec fn wf(self) -> bool {
        &&& match self.prefix {
            Some(p) => p.wf(),
            None => true,
        }
        &&& match self.suffix {
            Some(s) => s.wf(),
            None => true,
        }
    }

    /// All nibbles the specification constrains at the front of an address.
    pub open spec fn prefix_nibbles(self) -> Seq<u8> {
        match self.prefix {
            None => Seq::empty(),
            Some(p) => p.prefix_nibbles(),
        }
    }

    /// All nibbles the specification constrains at the back of an address.
    pub open spec fn suffix_nibbles(self) -> Seq<u8> {
        match self.suffix {
            None => Seq::empty(),
            Some(s) => s.suffix_nibbles(),
        }
    }

    /// An address satisfies the specification when its nibbles start with the
    /// requested prefix nibbles and end with the requested suffix nibbles.
    pub open spec fn spec_accepts(self, addr: Seq<u8>) -> bool {
        nibble_prefix_matches(self.prefix_nibbles(), addr) && nibble_suffix_matches(
            self.suffix_nibbles(),
            addr,
        )
    }
}

/// An absent affix is always satisfied; a present one must be a nonempty hex
/// string.
pub open spec fn affix_ok(o: Option<&str>) -> bool {
    match o {
        None => true,
        Some(s) => valid_hex_chars(s@),
    }
}

/// Hex digits are ASCII characters.
proof fn lemma_hex_chars_ascii(s: Seq<char>)
    requires
        forall|i: int| 0 <= i < s.len() ==> crate::hexbytes::is_hex_digit(#[trigger] s[i]),
    ensures
        vstd::utf8::is_ascii_chars(s),
{
    assert forall|i: int| 0 <= i < s.len() implies '\0' <= #[trigger] s[i] <= '\u{7f}' by {
        assert(crate::hexbytes::is_hex_digit(s[i]));
        assert(s[i] as int <= 'f' as int);
    }
}

/// Compile one side of the affix specification.  For a prefix the boundary
/// digit of an odd-length affix is its last character; for a suffix it is the
/// first.
fn compile_pattern(s: &str, is_prefix: bool) -> (p: AffixPattern)
    requires
        valid_hex_chars(s@),
    ensures
        p.wf(),
        is_prefix ==> p.prefix_nibbles() == nibbles_of_hex(s@),
        !is_prefix ==> p.suffix_nibbles() == nibbles_of_hex(s@),
{
    proof {
        lemma_hex_chars_ascii(s@);
    }
    let n = s.unicode_len();
    if has_odd_character_count(s) {
        let (whole, boundary_idx): (&str, usize) = if is_prefix {
            (s.substring_ascii(0, n - 1), n - 1)
        } else {
            (s.substring_ascii(1, n), 0)
        };
        let c = s.get_char(boundary_idx);
        let v = hex_digit_to_value(c);
        let bytes = hex_decode_pairs(whole);
        let p = AffixPattern { bytes, nibble: Some(v) };
        proof {
            lemma_nibbles_of_decoded(whole@);
            if is_prefix {
                assert(whole@ == s@.subrange(0, n - 1));
                assert(p.prefix_nibbles() =~= nibbles_of_hex(s@)) by {
                    assert forall|i: int| 0 <= i < n implies p.prefix_nibbles()[i]
                        == hex_digit_value(s@[i]) by {
                        if i < n - 1 {
                            assert(nibbles_of_hex(whole@)[i] == hex_digit_value(whole@[i]));
                        }
                    }
                }
            } else {
                assert(whole@ == s@.subrange(1, n as int));
                assert(p.suffix_nibbles() =~= nibbles_of_hex(s@)) by {
                    assert forall|i: int| 0 <= i < n implies p.suffix_nibbles()[i]
                        == hex_digit_value(s@[i]) by {
                        if i >= 1 {
                            assert(nibbles_of_hex(whole@)[i - 1] == hex_digit_value(whole@[i - 1]));
                            assert(whole@[i - 1] == s@[i]);
                        }
                    }
                }
            }
        }
        p
    } else {
        let bytes = hex_decode_pairs(s);
        let p = AffixPattern { bytes, nibble: None };
        proof {
            lemma_nibbles_of_decoded(s@);
            assert(p.prefix_nibbles() =~= nibbles_of_hex(s@));
            assert(p.suffix_nibbles() =~= nibbles_of_hex(s@));
        }
        p
    }
}

impl AffixSpec {
    /// Validate the requested affixes and compile them into a matcher.
    /// Either case of hex digit is accepted; a digit's value, not its case,
    /// is what the matcher constrains.
    pub fn parse(prefix: Option<&str>, suffix: Option<&str>) -> (r: Result<AffixSpec, AffixError>)
        ensures
            r is Ok <==> affix_ok(prefix) && affix_ok(suffix),
            r matches Ok(a) ==> {
                &&& a.wf()
                &&& match prefix {
                    None => a.prefix is None,
                    Some(s) => a.prefix is Some && a.prefix_nibbles() == nibbles_of_hex(s@),
                }
                &&& match suffix {
                    None => a.suffix is None,
                    Some(s) => a.suffix is Some && a.suffix_nibbles() == nibbles_of_hex(s@),
                }
            },
            r matches Err(e) ==> {
                &&& (e == AffixError::InvalidPrefix <==> !affix_ok(prefix))
                &&& (e == AffixError::InvalidSuffix <==> affix_ok(prefix) && !affix_ok(suffix))
            },
    {
        let compiled_prefix = match prefix {
            None => None,
            Some(s) => {
                if !is_hex_string(s) {
                    return Err(AffixError::InvalidPrefix);
                }
                Some(compile_pattern(s, true))
            },
        };
        let compiled_suffix = match suffix {
            None => None,
            Some(s) => {
                if !is_hex_string(s) {
                    return Err(AffixError::InvalidSuffix);
                }
                Some(compile_pattern(s, false))
            },
        };
        Ok(AffixSpec { prefix: compiled_prefix, suffix: compiled_suffix })
    }

    /// Test a candidate address against the compiled specification.
    pub fn accepts(&self, addr: &Vec<u8>) -> (m: bool)
        requires
            self.wf(),
        ensures
            m == self.spec_accepts(addr@),
    {
        let prefix_ok = match &self.prefix {
            None => {
                proof {
                    assert(nibble_prefix_matches(self.prefix_nibbles(), addr@)) by {
                        assert(nibbles_of_bytes(addr@).take(0) =~= Seq::<u8>::empty());
                    }
                }
                true
            },
            Some(p) => check_prefix(p, addr),
        };
        if !prefix_ok {
            return false;
        }
        let suffix_ok = match &self.suffix {
            None => {
                proof {
                    let an = nibbles_of_bytes(addr@);
                    assert(nibble_suffix_matches(self.suffix_nibbles(), addr@)) by {
                        assert(an.skip(an.len() as int) =~= Seq::<u8>::empty());
                    }
                }
                true
            },
            Some(s) => check_suffix(s, addr),
        };
        suffix_ok
    }
}

/// Compare the whole-byte region of a prefix pattern, then its boundary
/// nibble against the high nibble of the following byte.
fn check_prefix(p: &AffixPattern, addr: &Vec<u8>) -> (m: bool)
    requires
        p.wf(),
    ensures
        m == nibble_prefix_matches(p.prefix_nibbles(), addr@),
{
    let ghost pn = p.prefix_nibbles();
    let ghost an = nibbles_of_bytes(addr@);
    let k = p.bytes.len();
    if k > addr.len() {
        return false;
    }
    let mut i: usize = 0;
    while i < k
        invariant
            p.wf(),
            0 <= i <= k <= addr@.len(),
            k == p.bytes@.len(),
            forall|j: int| 0 <= j < i ==> p.bytes@[j] == addr@[j],
        decreases k - i,
    {
        if p.bytes[i] != addr[i] {
            proof {
                lemma_prefix_mismatch(p, addr@, i as int);
            }
            return false;
        }
        i = i + 1;
    }
    match p.nibble {
        None => {
            proof {
                assert(an.take(pn.len() as int) =~= pn);
            }
            true
        },
        Some(v) => {
            if k == addr.len() {
                proof {
                    assert(pn.len() == 2 * k + 1);
                }
                return false;
            }
            let b = addr[k];
            let hi = b >> 4;
            proof {
                assert(b >> 4 == b / 16) by (bit_vector);
                assert(an[2 * k] == high_nibble(addr@[k as int]));
                if hi == v {
                    assert(an.take(pn.len() as int) =~= pn);
                } else {
                    assert(an.take(pn.len() as int)[2 * k] != pn[2 * k]);
                }
            }
            hi == v
        },
    }
}

/// A byte mismatch inside the whole-byte region refutes the nibble prefix.
proof fn lemma_prefix_mismatch(p: &AffixPattern, addr: Seq<u8>, i: int)
    requires
        p.wf(),
        0 <= i < p.bytes@.len() <= addr.len(),
        p.bytes@[i] != addr[i],
    ensures
        !nibble_prefix_matches(p.prefix_nibbles(), addr),
{
    let pn = p.prefix_nibbles();
    let an = nibbles_of_bytes(addr);
    if pn.len() <= an.len() && an.take(pn.len() as int) == pn {
        assert(an.take(pn.len() as int)[2 * i] == pn[2 * i]);
        assert(an.take(pn.len() as int)[2 * i + 1] == pn[2 * i + 1]);
        assert(high_nibble(addr[i]) == high_nibble(p.bytes@[i]));
        assert(low_nibble(addr[i]) == low_nibble(p.bytes@[i]));
        lemma_nibble_range(addr[i]);
        lemma_nibble_range(p.bytes@[i]);
    }
}

/// Compare the whole-byte region of a suffix pattern at the end of the
/// address, then its boundary nibble against the low nibble of the byte
/// just before that region.
fn check_suffix(p: &AffixPattern, addr: &Vec<u8>) -> (m: bool)
    requires
        p.wf(),
    ensures
        m == nibble_suffix_matches(p.suffix_nibbles(), addr@),
{
    let ghost sn = p.suffix_nibbles();
    let ghost an = nibbles_of_bytes(addr@);
    let k = p.bytes.len();
    if k > addr.len() {
        return false;
    }
    let d = addr.len() - k;
    let mut i: usize = 0;
    while i < k
        invariant
            p.wf(),
            0 <= i <= k <= addr@.len(),
            addr@.len() <= usize::MAX,
            k == p.bytes@.len(),
            d == addr@.len() - k,
            forall|j: int| 0 <= j < i ==> p.bytes@[j] == addr@[d + j],
        decreases k - i,
    {
        if p.bytes[i] != addr[d + i] {
            proof {
                lemma_suffix_mismatch(p, addr@, i as int);
            }
            return false;
        }
        i = i + 1;
    }
    match p.nibble {
        None => {
            proof {
                assert(an.skip(an.len() - sn.len()) =~= sn);
            }
            true
        },
        Some(v) => {
            if k == addr.len() {
                proof {
                    assert(sn.len() == 2 * k + 1);
                }
                return false;
            }
            let b = addr[d - 1];
            let lo = b & 0x0f;
            proof {
                assert(b & 0x0f == b % 16) by (bit_vector);
                assert(an[2 * (d - 1) + 1] == low_nibble(addr@[d - 1]));
                assert(an.len() - sn.len() == 2 * (d - 1) + 1);
                if lo == v {
                    assert(an.skip(an.len() - sn.len()) =~= sn);
                } else {
                    assert(an.skip(an.len() - sn.len())[0] != sn[0]);
                }
            }
            lo == v
        },
    }
}

/// A byte mismatch inside the whole-byte region refutes the nibble suffix.
proof fn lemma_suffix_mismatch(p: &AffixPattern, addr: Seq<u8>, i: int)
    requires
        p.wf(),
        0 <= i < p.bytes@.len() <= addr.len(),
        p.bytes@[i] != addr[addr.len() - p.bytes@.len() + i],
    ensures
        !nibble_suffix_matches(p.suffix_nibbles(), addr),
{
    let sn = p.suffix_nibbles();
    let an = nibbles_of_bytes(addr);
    let k = p.bytes@.len();
    let off = match p.nibble {
        Some(_) => 1int,
        None => 0int,
    };
    let d = addr.len() - k;
    if sn.len() <= an.len() && an.skip(an.len() - sn.len()) == sn {
        assert(an.skip(an.len() - sn.len())[off + 2 * i] == sn[off + 2 * i]);
        assert(an.skip(an.len() - sn.len())[off + 2 * i + 1] == sn[off + 2 * i + 1]);
        assert(high_nibble(addr[d + i]) == high_nibble(p.bytes@[i]));
        assert(low_nibble(addr[d + i]) == low_nibble(p.bytes@[i]));
        lemma_nibble_range(addr[d + i]);
        lemma_nibble_range(p.bytes@[i]);
    }
}

/// Every nibble of an address is a nibble value.
proof fn lemma_nibbles_bounded(bs: Seq<u8>)
    ensures
        forall|i: int| 0 <= i < nibbles_of_bytes(bs).len() ==> #[trigger] nibbles_of_bytes(bs)[i]
            < 16,
{
    assert forall|i: int|
        0 <= i < nibbles_of_bytes(bs).len() implies #[trigger] nibbles_of_bytes(bs)[i] < 16 by {
        lemma_nibble_range(bs[i / 2]);
    }
}

/// A compiled prefix accepts exactly the addresses whose lowercase hex
/// encoding starts with the requested lowercase hex prefix.
pub proof fn lemma_prefix_matches_iff_hex_prefix(p: Seq<u8>, addr: Seq<u8>, s: Seq<char>)
    requires
        forall|i: int| 0 <= i < s.len() ==> is_lower_hex_digit(#[trigger] s[i]),
        p == nibbles_of_hex(s),
    ensures
        nibble_prefix_matches(p, addr) <==> (s.len() <= hex_of_bytes(addr).len() && hex_of_bytes(
            addr,
        ).take(s.len() as int) == s),
{
    let an = nibbles_of_bytes(addr);
    let hx = hex_of_bytes(addr);
    let n = s.len() as int;
    lemma_nibbles_bounded(addr);
    if p.len() <= an.len() {
        if an.take(n) == p {
            assert forall|i: int| 0 <= i < n implies hx.take(n)[i] == s[i] by {
                assert(an.take(n)[i] == p[i]);
                assert(hx[i] == hex_digit_of_nibble(an[i]));
                lemma_hex_digit_roundtrip(s[i], an[i]);
            }
            assert(hx.take(n) =~= s);
        } else if hx.take(n) == s {
            assert forall|i: int| 0 <= i < n implies an.take(n)[i] == p[i] by {
                assert(hx.take(n)[i] == s[i]);
                assert(hx[i] == hex_digit_of_nibble(an[i]));
                lemma_hex_digit_roundtrip(s[i], an[i]);
                assert(hex_digit_value(hex_digit_of_nibble(an[i])) == an[i]);
            }
            assert(an.take(n) =~= p);
        }
    }
}

/// A compiled specification accepts exactly the addresses whose lowercase
/// hex encoding starts with the requested prefix and ends with the requested
/// suffix (an absent affix is the empty digit sequence).
pub proof fn lemma_accepts_iff_hex_affixes(a: AffixSpec, addr: Seq<u8>, p: Seq<char>, s: Seq<char>)
    requires
        forall|i: int| 0 <= i < p.len() ==> is_lower_hex_digit(#[trigger] p[i]),
        forall|i: int| 0 <= i < s.len() ==> is_lower_hex_digit(#[trigger] s[i]),
        a.prefix_nibbles() == nibbles_of_hex(p),
        a.suffix_nibbles() == nibbles_of_hex(s),
    ensures
        a.spec_accepts(addr) <==> {
            let hx = hex_of_bytes(addr);
            &&& p.len() <= hx.len()
            &&& hx.take(p.len() as int) == p
            &&& s.len() <= hx.len()
            &&& hx.skip(hx.len() - s.len()) == s
        },
{
    lemma_prefix_matches_iff_hex_prefix(a.prefix_nibbles(), addr, p);
    lemma_suffix_matches_iff_hex_suffix(a.suffix_nibbles(), addr, s);
}

/// A compiled suffix accepts exactly the addresses whose lowercase hex
/// encoding ends with the requested lowercase hex suffix.
pub proof fn lemma_suffix_matches_iff_hex_suffix(p: Seq<u8>, addr: Seq<u8>, s: Seq<char>)
    requires
        forall|i: int| 0 <= i < s.len() ==> is_lower_hex_digit(#[trigger] s[i]),
        p == nibbles_of_hex(s),
    ensures
        nibble_suffix_matches(p, addr) <==> (s.len() <= hex_of_bytes(addr).len() && hex_of_bytes(
            addr,
        ).skip(hex_of_bytes(addr).len() - s.len()) == s),
{
    let an = nibbles_of_bytes(addr);
    let hx = hex_of_bytes(addr);
    let n = s.len() as int;
    let d = an.len() - n;
    lemma_nibbles_bounded(addr);
    if p.len() <= an.len() {
        if an.skip(d) == p {
            assert forall|i: int| 0 <= i < n implies hx.skip(d)[i] == s[i] by {
                assert(an.skip(d)[i] == p[i]);
                assert(hx[d + i] == hex_digit_of_nibble(an[d + i]));
                lemma_hex_digit_roundtrip(s[i], an[d + i]);
            }
            assert(hx.skip(d) =~= s);
        } else if hx.skip(d) == s {
            assert forall|i: int| 0 <= i < n implies an.skip(d)[i] == p[i] by {
                assert(hx.skip(d)[i] == s[i]);
                assert(hx[d + i] == hex_digit_of_nibble(an[d + i]));
                lemma_hex_digit_roundtrip(s[i], an[d + i]);
                assert(hex_digit_value(hex_digit_of_nibble(an[d + i])) == an[d + i]);
            }
            assert(an.skip(d) =~= p);
        }
    }
}

} // verus!
