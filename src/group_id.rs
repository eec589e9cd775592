use sha3::{Digest, Sha3_256};
use vstd::prelude::*;
use vstd::string::StrSliceExecFns;

use crate::error::Error;

verus! {

/// Width in bytes of a group identifier.
pub const GROUP_LENGTH: usize = 32;

/// A 32-byte routing identifier that names a group.
#[derive(Clone, Copy, Debug, Default, PartialEq, Eq, PartialOrd, Ord, Hash)]
pub struct GroupId(pub [u8; 32]);

/// A 64-byte event identifier.
#[derive(Clone, Copy, Debug)]
pub struct EventId(pub [u8; 64]);

impl View for GroupId {
    type V = Seq<u8>;

    open spec fn view(&self) -> Seq<u8> {
        self.0@
    }
}

/// The SHA3-256 digest of the UTF-8 encoding of `s`.
pub uninterp spec fn sha3_256_of(s: Seq<char>) -> Seq<u8>;

/// Lowercase hexadecimal digit for a nibble.
pub open spec fn hex_char(n: u8) -> char {
    if n < 10 {
        ((n + 48) as u8) as char
    } else {
        ((n + 87) as u8) as char
    }
}

pub open spec fn is_hex_digit(c: char) -> bool {
    ('0' <= c && c <= '9') || ('a' <= c && c <= 'f') || ('A' <= c && c <= 'F')
}

pub open spec fn is_lower_hex_digit(c: char) -> bool {
    ('0' <= c && c <= '9') || ('a' <= c && c <= 'f')
}

/// Numeric value of a hexadecimal digit.
pub open spec fn hex_value(c: char) -> u8 {
    if '0' <= c && c <= '9' {
        (c as u32 - 48) as u8
    } else if 'a' <= c && c <= 'f' {
        (c as u32 - 87) as u8
    } else {
        (c as u32 - 55) as u8
    }
}

/// Lowercase hexadecimal text of a byte sequence, two digits per byte, high nibble first.
pub open spec fn hex_of(b: Seq<u8>) -> Seq<char> {
    Seq::new(
        (2 * b.len()) as nat,
        |i: int|
            if i % 2 == 0 {
                hex_char(b[i / 2] / 16)
            } else {
                hex_char(b[i / 2] % 16)
            },
    )
}

/// Text that names a group identifier: exactly 64 hexadecimal digits.
pub open spec fn is_hex_id(s: Seq<char>) -> bool {
    s.len() == 64 && forall|i: int| 0 <= i < 64 ==> is_hex_digit(#[trigger] s[i])
}

/// The 32 bytes that 64 hexadecimal digits denote.
pub open spec fn parse_hex(s: Seq<char>) -> Seq<u8> {
    Seq::new(32, |i: int| (hex_value(s[2 * i]) * 16 + hex_value(s[2 * i + 1])) as u8)
}

/// The short form of a group identifier: `0x`, the first four digits, `...`, the last five.
pub open spec fn short_form(b: Seq<u8>) -> Seq<char> {
    seq!['0', 'x'] + hex_of(b).subrange(0, 4) + seq!['.', '.', '.'] + hex_of(b).subrange(59, 64)
}

/// Parsing lowercase hexadecimal text and printing the result gives the text back.
pub proof fn lemma_hex_round_trip(s: Seq<char>)
    requires
        s.len() == 64,
        forall|i: int| 0 <= i < 64 ==> is_lower_hex_digit(#[trigger] s[i]),
    ensures
        is_hex_id(s),
        hex_of(parse_hex(s)) == s,
{
    let b = parse_hex(s);
    assert forall|j: int| 0 <= j < 64 implies #[trigger] hex_of(b)[j] == s[j] by {
        let i = j / 2;
        let h = hex_value(s[2 * i]);
        let l = hex_value(s[2 * i + 1]);
        assert(is_lower_hex_digit(s[2 * i]) && is_lower_hex_digit(s[2 * i + 1]));
        assert(h < 16 && l < 16);
        assert(b[i] == h * 16 + l);
        assert((h * 16 + l) / 16 == h && (h * 16 + l) % 16 == l) by (nonlinear_arith)
            requires
                h < 16,
                l < 16,
        ;
    }
    assert(hex_of(b) =~= s);
}

/// Printing an identifier and parsing the text gives the identifier back.
pub proof fn lemma_bytes_round_trip(b: Seq<u8>)
    requires
        b.len() == 32,
    ensures
        is_hex_id(hex_of(b)),
        parse_hex(hex_of(b)) == b,
{
    let s = hex_of(b);
    assert forall|i: int| 0 <= i < 32 implies #[trigger] parse_hex(s)[i] == b[i] by {
        assert((2 * i) / 2 == i && (2 * i + 1) / 2 == i);
        assert((2 * i) % 2 == 0 && (2 * i + 1) % 2 == 1);
        let x = b[i];
        assert(x / 16 < 16 && x % 16 < 16);
        assert((x / 16) * 16 + x % 16 == x);
    }
    assert(parse_hex(s) =~= b);
}

/// Deriving an identifier from a symbol is deterministic: equal symbols give equal identifiers.
pub proof fn lemma_symbol_deterministic(a: Seq<char>, b: Seq<char>, x: GroupId, y: GroupId)
    requires
        a == b,
        x@ == sha3_256_of(a),
        y@ == sha3_256_of(b),
    ensures
        x@ == y@,
{
}

/// Relies on String::push: the character is appended at the end.
#[verifier::external_body]
pub(crate) fn push_char(s: &mut String, c: char)
    ensures
        final(s)@ == old(s)@.push(c),
{
    s.push(c);
}

/// Relies on sha3's Sha3_256 (Digest::digest): the digest of the bytes of `s`, 32 bytes.
#[verifier::external_body]
fn sha3_256(s: &str) -> (r: [u8; 32])
    ensures
        r@ == sha3_256_of(s@),
{
    let mut out = [0u8; 32];
    out.copy_from_slice(&Sha3_256::digest(s.as_bytes())[..]);
    out
}

fn nibble_char(n: u8) -> (c: char)
    requires
        n < 16,
    ensures
        c == hex_char(n),
{
    if n < 10 {
        (n + 48) as char
    } else {
        (n + 87) as char
    }
}

fn digit_value(c: char) -> (r: Option<u8>)
    ensures
        r is Some <==> is_hex_digit(c),
        r matches Some(v) ==> v == hex_value(c) && v < 16,
{
    if '0' <= c && c <= '9' {
        Some((c as u32 - 48) as u8)
    } else if 'a' <= c && c <= 'f' {
        Some((c as u32 - 87) as u8)
    } else if 'A' <= c && c <= 'F' {
        Some((c as u32 - 55) as u8)
    } else {
        None
    }
}

impl GroupId {
    /// Byte-exact equality.
    pub fn equals(&self, other: &GroupId) -> (r: bool)
        ensures
            r == (self@ == other@),
    {
        let mut i: usize = 0;
        while i < 32
            invariant
                i <= 32,
                forall|j: int| 0 <= j < i ==> self@[j] == other@[j],
            decreases 32 - i,
        {
            if self.0[i] != other.0[i] {
                return false;
            }
            i = i + 1;
        }
        assert(self@ =~= other@);
        true
    }

    /// Derives an identifier from a symbol by hashing it with SHA3-256.
    pub fn from_symbol(s: &str) -> (r: GroupId)
        ensures
            r@ == sha3_256_of(s@),
    {
        GroupId(sha3_256(s))
    }

    /// The lowercase hexadecimal text of the identifier: 64 digits.
    pub fn to_hex(&self) -> (r: String)
        ensures
            r@ == hex_of(self@),
    {
        let mut hex = String::new();
        let mut i: usize = 0;
        while i < 32
            invariant
                i <= 32,
                hex@.len() == 2 * i,
                forall|j: int| 0 <= j < 2 * i ==> hex@[j] == #[trigger] hex_of(self@)[j],
            decreases 32 - i,
        {
            let b = self.0[i];
            let ghost prev = hex@;
            push_char(&mut hex, nibble_char(b / 16));
            push_char(&mut hex, nibble_char(b % 16));
            assert forall|j: int| 0 <= j < 2 * (i + 1) implies hex@[j] == #[trigger] hex_of(self@)[j] by {
                if j >= 2 * i {
                    assert((2 * i) / 2 == i && (2 * i + 1) / 2 == i);
                    assert((2 * i) % 2 == 0 && (2 * i + 1) % 2 == 1);
                } else {
                    assert(hex@[j] == prev[j]);
                }
            }
            i = i + 1;
        }
        assert(hex@ =~= hex_of(self@));
        hex
    }

    /// Parses 64 hexadecimal digits (either case) into an identifier.
    pub fn from_hex(s: &str) -> (r: Result<GroupId, Error>)
        ensures
            r is Ok <==> is_hex_id(s@),
            r matches Ok(g) ==> g@ == parse_hex(s@),
            r matches Err(e) ==> e == Error::Hex,
    {
        if s.unicode_len() != 64 {
            return Err(Error::Hex);
        }
        let mut value = [0u8; 32];
        let mut i: usize = 0;
        while i < 32
            invariant
                i <= 32,
                s@.len() == 64,
                forall|j: int| 0 <= j < 2 * i ==> is_hex_digit(#[trigger] s@[j]),
                forall|j: int| 0 <= j < i ==> value@[j] == #[trigger] parse_hex(s@)[j],
            decreases 32 - i,
        {
            let hi = digit_value(s.get_char(2 * i));
            let lo = digit_value(s.get_char(2 * i + 1));
            match (hi, lo) {
                (Some(h), Some(l)) => {
                    value[i] = h * 16 + l;
                },
                _ => {
                    return Err(Error::Hex);
                },
            }
            i = i + 1;
        }
        assert(value@ =~= parse_hex(s@));
        Ok(GroupId(value))
    }

    /// A short display form: `0x`, the first two bytes, `...`, and the last two and a half bytes.
    pub fn short_show(&self) -> (r: String)
        ensures
            r@ == short_form(self@),
    {
        let hex = self.to_hex();
        let h = hex.as_str();
        let mut out = String::new();
        push_char(&mut out, '0');
        push_char(&mut out, 'x');
        let mut i: usize = 0;
        while i < 4
            invariant
                i <= 4,
                h@ == hex_of(self@),
                out@ == seq!['0', 'x'] + hex_of(self@).subrange(0, i as int),
            decreases 4 - i,
        {
            push_char(&mut out, h.get_char(i));
            assert(hex_of(self@).subrange(0, i + 1) =~= hex_of(self@).subrange(0, i as int).push(
                hex_of(self@)[i as int],
            ));
            i = i + 1;
        }
        push_char(&mut out, '.');
        push_char(&mut out, '.');
        push_char(&mut out, '.');
        let ghost head = out@;
        assert(head =~= seq!['0', 'x'] + hex_of(self@).subrange(0, 4) + seq!['.', '.', '.']);
        let mut k: usize = 59;
        while k < 64
            invariant
                59 <= k <= 64,
                h@ == hex_of(self@),
                out@ == head + hex_of(self@).subrange(59, k as int),
            decreases 64 - k,
        {
            push_char(&mut out, h.get_char(k));
            assert(hex_of(self@).subrange(59, k + 1) =~= hex_of(self@).subrange(59, k as int).push(
                hex_of(self@)[k as int],
            ));
            k = k + 1;
        }
        out
    }
}

} // verus!
