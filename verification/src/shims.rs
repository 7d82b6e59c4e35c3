//! Hex and Base58 decoding and the account address of protocol
//! configuration.
use vstd::prelude::*;
use crate::wire::{valid_utf8, encode_utf8, str_from_utf8, StringSliceAdditionalSpecFns};

verus! {

/// The most variants a Move enum may have.
pub const VARIANT_COUNT_MAX: u64 = 127;

/// Limits raised only under test harnesses, none of which runs this code.
pub fn in_integration_test() -> (b: bool)
    ensures
        !b,
{
    false
}

/// The value of a hex digit, either case.
pub open spec fn nibble(c: u8) -> Option<u8> {
    if 48 <= c <= 57 {
        Some((c - 48) as u8)
    } else if 97 <= c <= 102 {
        Some((c - 87) as u8)
    } else if 65 <= c <= 70 {
        Some((c - 55) as u8)
    } else {
        None
    }
}

/// The digits after an optional `0x`.
pub open spec fn strip_0x(b: Seq<u8>) -> Seq<u8> {
    if b.len() >= 2 && b[0] == 48 && b[1] == 120 {
        b.subrange(2, b.len() as int)
    } else {
        b
    }
}

pub open spec fn all_hex(h: Seq<u8>) -> bool {
    forall|i: int| 0 <= i < h.len() ==> #[trigger] nibble(h[i]) is Some
}

/// The bytes that pairs of hex digits spell, high digit first.
pub open spec fn hex_bytes(h: Seq<u8>) -> Seq<u8> {
    Seq::new(
        (h.len() / 2) as nat,
        |i: int| (nibble(h[2 * i])->0 * 16 + nibble(h[2 * i + 1])->0) as u8,
    )
}

/// Hex decoding of `b`: an optional `0x`, then an even number of digits.
pub open spec fn hex_decoded(b: Seq<u8>) -> Result<Seq<u8>, Seq<char>> {
    let h = strip_0x(b);
    if h.len() % 2 != 0 {
        Err("odd-length hex"@)
    } else if !all_hex(h) {
        Err("invalid hex digit"@)
    } else {
        Ok(hex_bytes(h))
    }
}

fn hex_nibble(c: u8) -> (n: Option<u8>)
    ensures
        n == nibble(c),
{
    if 48u8 <= c && c <= 57u8 {
        Some(c - 48u8)
    } else if 97u8 <= c && c <= 102u8 {
        Some(c - 97u8 + 10)
    } else if 65u8 <= c && c <= 70u8 {
        Some(c - 65u8 + 10)
    } else {
        None
    }
}

/// Decodes hex digits after an optional `0x`.
fn hex_decode_bytes(b: &[u8]) -> (res: Result<Vec<u8>, String>)
    ensures
        match hex_decoded(b@) {
            Ok(v) => res matches Ok(out) && out@ == v,
            Err(e) => res matches Err(s) && s@ == e,
        },
{
    proof {
        reveal_strlit("odd-length hex");
        reveal_strlit("invalid hex digit");
    }
    let start: usize = if b.len() >= 2 && b[0] == 48u8 && b[1] == 120u8 { 2 } else { 0 };
    let ghost h = strip_0x(b@);
    assert(h =~= b@.subrange(start as int, b@.len() as int));
    let len = b.len();
    let n = len - start;
    if n % 2 != 0 {
        return Err("odd-length hex".to_owned());
    }
    let mut out: Vec<u8> = Vec::new();
    let mut i: usize = 0;
    while i < n / 2
        invariant
            n == h.len(),
            h == strip_0x(b@),
            len == b@.len(),
            n % 2 == 0,
            h =~= b@.subrange(start as int, b@.len() as int),
            start + n == b@.len(),
            i <= n / 2,
            out@.len() == i,
            forall|j: int| 0 <= j < 2 * i ==> #[trigger] nibble(h[j]) is Some,
            forall|j: int| 0 <= j < i ==> out@[j] == #[trigger] hex_bytes(h)[j],
        decreases n / 2 - i,
    {
        assert(2 * i + 1 < n) by (nonlinear_arith)
            requires
                i < n / 2,
                n % 2 == 0,
        ;
        assert(h[2 * i] == b@[start + 2 * i]);
        assert(h[2 * i + 1] == b@[start + 2 * i + 1]);
        let hi = hex_nibble(b[start + 2 * i]);
        let lo = hex_nibble(b[start + 2 * i + 1]);
        match (hi, lo) {
            (Some(hi), Some(lo)) => {
                let v = (hi << 4u8) | lo;
                assert(v == hi * 16 + lo) by (bit_vector)
                    requires
                        v == (hi << 4u8) | lo,
                        hi < 16,
                        lo < 16,
                ;
                out.push(v);
            },
            _ => {
                proof {
                    assert(!all_hex(h)) by {
                        if nibble(h[2 * i]) is None {
                            assert(!(nibble(h[2 * i]) is Some));
                        } else {
                            assert(!(nibble(h[2 * i + 1]) is Some));
                        }
                    }
                    assert(hex_decoded(b@) == Err::<Seq<u8>, Seq<char>>("invalid hex digit"@));
                }
                return Err("invalid hex digit".to_owned());
            },
        }
        i = i + 1;
    }
    assert(out@ =~= hex_bytes(h));
    Ok(out)
}

/// Decodes hex digits after an optional `0x`.
pub fn hex_decode(s: &str) -> (res: Result<Vec<u8>, String>)
    ensures
        match hex_decoded(s.spec_bytes()) {
            Ok(v) => res matches Ok(out) && out@ == v,
            Err(e) => res matches Err(m) && m@ == e,
        },
{
    hex_decode_bytes(s.as_bytes())
}

/// Hex encoding: accepts an optional `0x` prefix.
pub struct Hex;

impl Hex {
    pub fn decode(s: &str) -> (res: Result<Vec<u8>, String>)
        ensures
            match hex_decoded(s.spec_bytes()) {
                Ok(v) => res matches Ok(out) && out@ == v,
                Err(e) => res matches Err(m) && m@ == e,
            },
    {
        hex_decode(s)
    }
}

/// What `bs58` decodes a string to with the Bitcoin alphabet, or the
/// text of its error.
pub uninterp spec fn base58_decoded(s: Seq<u8>) -> Result<Seq<u8>, Seq<char>>;

/// `bs58::decode(s).into_vec()`, its error as text. The contract claims
/// that the outcome is a function of the string's bytes.
#[verifier::external_body]
fn bs58_decode(s: &str) -> (res: Result<Vec<u8>, String>)
    ensures
        match res {
            Ok(v) => base58_decoded(s.spec_bytes()) == Ok::<Seq<u8>, Seq<char>>(v@),
            Err(e) => base58_decoded(s.spec_bytes()) == Err::<Seq<u8>, Seq<char>>(e@),
        },
{
    bs58::decode(s).into_vec().map_err(|e| e.to_string())
}

/// Base58 with the Bitcoin alphabet.
pub struct Base58;

impl Base58 {
    pub fn decode(s: &str) -> (res: Result<Vec<u8>, String>)
        ensures
            match res {
                Ok(v) => base58_decoded(s.spec_bytes()) == Ok::<Seq<u8>, Seq<char>>(v@),
                Err(e) => base58_decoded(s.spec_bytes()) == Err::<Seq<u8>, Seq<char>>(e@),
            },
    {
        bs58_decode(s)
    }
}

/// The lowercase hex digit of `n`.
pub open spec fn hex_digit(n: int) -> u8 {
    if n < 10 {
        (48 + n) as u8
    } else {
        (87 + n) as u8
    }
}

/// Two lowercase hex digits a byte, high first.
pub open spec fn to_hex_bytes(b: Seq<u8>) -> Seq<u8> {
    Seq::new(
        2 * b.len(),
        |i: int| if i % 2 == 0 {
            hex_digit((b[i / 2] / 16) as int)
        } else {
            hex_digit((b[i / 2] % 16) as int)
        },
    )
}

/// What the address writer writes is lowercase hex that decodes back to
/// the bytes written: a digit value below 10 is written as `'0'` plus it,
/// and one of 10 or more as `'a'` plus its excess over 10, high digit of
/// each byte first.
pub proof fn lemma_to_hex_decodes(b: Seq<u8>)
    ensures
        to_hex_bytes(b).len() == 2 * b.len(),
        forall|i: int|
            0 <= i < to_hex_bytes(b).len() ==> {
                let n = if i % 2 == 0 { b[i / 2] / 16 } else { b[i / 2] % 16 };
                &&& n < 10 ==> #[trigger] to_hex_bytes(b)[i] == 48 + n
                &&& n >= 10 ==> to_hex_bytes(b)[i] == 97 + (n - 10)
            },
        hex_decoded(to_hex_bytes(b)) == Ok::<Seq<u8>, Seq<char>>(b),
{
    let h = to_hex_bytes(b);
    assert forall|i: int| 0 <= i < h.len() implies {
        let n = if i % 2 == 0 { b[i / 2] / 16 } else { b[i / 2] % 16 };
        &&& n < 10 ==> #[trigger] h[i] == 48 + n
        &&& n >= 10 ==> h[i] == 97 + (n - 10)
    } by {}
    assert forall|i: int| 0 <= i < h.len() implies #[trigger] nibble(h[i]) == Some(
        if i % 2 == 0 { (b[i / 2] / 16) as u8 } else { (b[i / 2] % 16) as u8 },
    ) by {}
    if h.len() >= 2 {
        assert(nibble(h[1]) is Some);
        assert(h[1] != 120);
    }
    assert(strip_0x(h) == h);
    assert(all_hex(h));
    assert(hex_bytes(h) =~= b) by {
        assert forall|i: int| 0 <= i < b.len() implies #[trigger] hex_bytes(h)[i] == b[i] by {
            assert(nibble(h[2 * i]) == Some((b[i] / 16) as u8));
            assert(nibble(h[2 * i + 1]) == Some((b[i] % 16) as u8));
            assert((2 * i) / 2 == i && (2 * i + 1) / 2 == i);
        }
    }
}

/// A hex digit's value: `'0'` to `'9'` are 0 to 9, and `'a'` to `'f'`
/// and `'A'` to `'F'` alike are 10 to 15; no other byte is a digit.
pub proof fn lemma_hex_digit_values(k: u8, c: u8)
    ensures
        k < 10 ==> nibble((48 + k) as u8) == Some(k),
        10 <= k < 16 ==> nibble((97 + (k - 10)) as u8) == Some(k) && nibble((65 + (k - 10)) as u8) == Some(k),
        !(48 <= c <= 57 || 97 <= c <= 102 || 65 <= c <= 70) ==> nibble(c) is None,
{
}

/// Bytes below 128 are valid UTF-8, a character each.
pub proof fn lemma_ascii_utf8(b: Seq<u8>)
    requires
        forall|i: int| 0 <= i < b.len() ==> #[trigger] b[i] < 128,
    ensures
        valid_utf8(b),
    decreases b.len(),
{
    if b.len() > 0 {
        let rest = b.subrange(1, b.len() as int);
        assert forall|i: int| 0 <= i < rest.len() implies #[trigger] rest[i] < 128 by {
            assert(rest[i] == b[i + 1]);
        }
        lemma_ascii_utf8(rest);
        assert(vstd::utf8::pop_first_scalar(b) =~= rest);
    }
}

/// An account address, as far as protocol configuration uses it: ordering
/// and hex parsing.
#[derive(Clone, Copy, PartialEq, Eq, PartialOrd, Ord, Hash, Debug)]
pub struct AccountAddress(pub [u8; 32]);

impl AccountAddress {
    pub const LENGTH: usize = 32;

    /// The address that `hex` decodes to, when it is 32 bytes.
    fn from_hex_bytes(hex: &[u8]) -> (res: Result<AccountAddress, String>)
        ensures
            match hex_decoded(hex@) {
                Ok(v) => if v.len() == 32 {
                    res matches Ok(a) && a.0@ == v
                } else {
                    res matches Err(m) && m@ == "not 32 bytes"@
                },
                Err(e) => res matches Err(m) && m@ == e,
            },
    {
        let bytes = hex_decode_bytes(hex)?;
        if bytes.len() != 32 {
            return Err("not 32 bytes".to_owned());
        }
        let a = AccountAddress(crate::bytes::array_at::<32>(bytes.as_slice(), 0));
        assert(a.0@ =~= bytes@);
        Ok(a)
    }

    fn from_hex(hex: &str) -> (res: Result<AccountAddress, String>)
        ensures
            match hex_decoded(hex.spec_bytes()) {
                Ok(v) => if v.len() == 32 {
                    res matches Ok(a) && a.0@ == v
                } else {
                    res matches Err(m) && m@ == "not 32 bytes"@
                },
                Err(e) => res matches Err(m) && m@ == e,
            },
    {
        AccountAddress::from_hex_bytes(hex.as_bytes())
    }

    /// A `0x`-prefixed hex literal, left-padded with zeros when short.
    pub fn from_hex_literal(literal: &str) -> (res: Result<AccountAddress, String>)
        ensures
            ({
                let b = literal.spec_bytes();
                if !(b.len() >= 2 && b[0] == 48 && b[1] == 120) {
                    res matches Err(m) && m@ == "missing 0x"@
                } else if b.len() - 2 > 64 {
                    res matches Err(m) && m@ == "address too long"@
                } else {
                    let padded = Seq::new((66 - b.len()) as nat, |i: int| 48u8) + b.subrange(2, b.len() as int);
                    match hex_decoded(padded) {
                        Ok(v) => if v.len() == 32 {
                            res matches Ok(a) && a.0@ == v
                        } else {
                            res matches Err(m) && m@ == "not 32 bytes"@
                        },
                        Err(e) => res matches Err(m) && m@ == e,
                    }
                }
            }),
    {
        let b = literal.as_bytes();
        if !(b.len() >= 2 && b[0] == 48u8 && b[1] == 120u8) {
            return Err("missing 0x".to_owned());
        }
        let n = b.len() - 2;
        if n > 64 {
            return Err("address too long".to_owned());
        }
        let mut padded: Vec<u8> = Vec::new();
        let mut i: usize = 0;
        while i < 64 - n
            invariant
                n <= 64,
                i <= 64 - n,
                padded@ == Seq::new(i as nat, |j: int| 48u8),
            decreases 64 - n - i,
        {
            padded.push(48u8);
            assert(padded@ =~= Seq::new((i + 1) as nat, |j: int| 48u8));
            i = i + 1;
        }
        let mut k: usize = 2;
        while k < b.len()
            invariant
                2 <= k <= b@.len(),
                padded@ == Seq::new((64 - n) as nat, |j: int| 48u8) + b@.subrange(2, k as int),
            decreases b@.len() - k,
        {
            padded.push(b[k]);
            assert(b@.subrange(2, k + 1) =~= b@.subrange(2, k as int).push(b@[k as int]));
            k = k + 1;
        }
        AccountAddress::from_hex_bytes(padded.as_slice())
    }

    /// The address as 64 lowercase hex digits.
    pub fn to_hex(&self) -> (s: String)
        ensures
            encode_utf8(s@) == to_hex_bytes(self.0@),
            hex_decoded(encode_utf8(s@)) == Ok::<Seq<u8>, Seq<char>>(self.0@),
    {
        proof {
            lemma_to_hex_decodes(self.0@);
        }
        let mut out: Vec<u8> = Vec::new();
        let mut i: usize = 0;
        while i < 32
            invariant
                i <= 32,
                out@.len() == 2 * i,
                forall|j: int| 0 <= j < 2 * i ==> out@[j] == #[trigger] to_hex_bytes(self.0@)[j],
                forall|j: int| 0 <= j < 2 * i ==> #[trigger] out@[j] < 128,
            decreases 32 - i,
        {
            let b = self.0[i];
            let hi = b / 16;
            let lo = b % 16;
            out.push(if hi < 10 { 48u8 + hi } else { 97u8 + hi - 10 });
            out.push(if lo < 10 { 48u8 + lo } else { 97u8 + lo - 10 });
            i = i + 1;
        }
        assert(out@ =~= to_hex_bytes(self.0@));
        proof {
            lemma_ascii_utf8(out@);
        }
        match str_from_utf8(out.as_slice()) {
            Some(t) => t.to_owned(),
            None => {
                assert(false);
                String::new()
            },
        }
    }
}

} // verus!
