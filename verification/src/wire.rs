//! The BCS encoding of the primitive values, as spec functions, and the
//! one call into the standard library that decides UTF-8.
use vstd::prelude::*;
pub use vstd::utf8::{valid_utf8, encode_utf8};
pub use vstd::string::StringSliceAdditionalSpecFns;
use crate::error::ParseError;
use crate::reader::{MAX_SEQUENCE_LENGTH, Reader, St, Rec, span, done, sp_length, sp_seq_len, sp_bytes, sp_bool, sp_str, sp_opt_of, sp_byte_vec, lemma_sub_cat};

verus! {

broadcast use Reader::lemma_st_nonneg;

pub open spec fn enc_u16(v: u16) -> Seq<u8> {
    seq![v as u8, (v >> 8u16) as u8]
}

pub open spec fn enc_u32(v: u32) -> Seq<u8> {
    seq![v as u8, (v >> 8u32) as u8, (v >> 16u32) as u8, (v >> 24u32) as u8]
}

pub open spec fn enc_u64(v: u64) -> Seq<u8> {
    seq![
        v as u8,
        (v >> 8u64) as u8,
        (v >> 16u64) as u8,
        (v >> 24u64) as u8,
        (v >> 32u64) as u8,
        (v >> 40u64) as u8,
        (v >> 48u64) as u8,
        (v >> 56u64) as u8,
    ]
}

pub open spec fn enc_bool(v: bool) -> Seq<u8> {
    seq![if v { 1u8 } else { 0u8 }]
}

pub open spec fn enc_option_u64(v: Option<u64>) -> Seq<u8> {
    match v {
        Some(x) => seq![1u8] + enc_u64(x),
        None => seq![0u8],
    }
}

/// Unsigned LEB128: seven bits a byte, low first, the high bit set on
/// every byte but the last.
pub open spec fn enc_uleb(v: u32) -> Seq<u8>
    decreases v,
{
    if v < 128 {
        seq![v as u8]
    } else {
        seq![(v % 128 + 128) as u8] + enc_uleb((v / 128) as u32)
    }
}

/// A length-prefixed byte string.
pub open spec fn enc_bytes(b: Seq<u8>) -> Seq<u8> {
    enc_uleb(b.len() as u32) + b
}

pub open spec fn enc_string(t: String) -> Seq<u8> {
    enc_bytes(encode_utf8(t@))
}

/// `std::str::from_utf8`: the bytes as a string slice when they are valid
/// UTF-8, which is what its documentation promises, and nothing otherwise.
#[verifier::external_body]
pub fn str_from_utf8(b: &[u8]) -> (res: Option<&str>)
    ensures
        res is Some <==> valid_utf8(b@),
        res matches Some(t) ==> t.spec_bytes() == b@,
{
    std::str::from_utf8(b).ok()
}

/// A type with a canonical BCS encoding and a parser for it.
///
/// `rec` recognizes an encoding: from the bytes and the cursor state it
/// gives the state after the value, or the first error. `enc` is the
/// encoding of a value. A parse succeeds exactly when `rec` does, and then
/// the value's encoding is the bytes it consumed.
pub trait Wire: Sized {
    spec fn rec(s: Seq<u8>, st: St) -> Rec;

    spec fn enc(self) -> Seq<u8>;

    /// What a parsed value has beyond its encoding; nothing unless a type
    /// says more.
    open spec fn well_formed(self) -> bool {
        true
    }

    fn parse(r: &mut Reader) -> (res: Result<Self, ParseError>)
        ensures
            final(r).data() == old(r).data(),
            done(old(r).st(), Self::rec(old(r).data(), old(r).st()), res, final(r).st()),
            res matches Ok(v) ==> v.enc() == span(old(r).data(), old(r).st(), final(r).st()),
            res matches Ok(v) ==> v.well_formed(),
    ;
}

impl Wire for u8 {
    open spec fn rec(s: Seq<u8>, st: St) -> Rec {
        sp_bytes(s, st, 1)
    }

    open spec fn enc(self) -> Seq<u8> {
        seq![self]
    }

    fn parse(r: &mut Reader) -> (res: Result<u8, ParseError>) {
        r.u8()
    }
}

impl Wire for u16 {
    open spec fn rec(s: Seq<u8>, st: St) -> Rec {
        sp_bytes(s, st, 2)
    }

    open spec fn enc(self) -> Seq<u8> {
        enc_u16(self)
    }

    fn parse(r: &mut Reader) -> (res: Result<u16, ParseError>) {
        r.u16()
    }
}

impl Wire for u32 {
    open spec fn rec(s: Seq<u8>, st: St) -> Rec {
        sp_bytes(s, st, 4)
    }

    open spec fn enc(self) -> Seq<u8> {
        enc_u32(self)
    }

    fn parse(r: &mut Reader) -> (res: Result<u32, ParseError>) {
        r.u32()
    }
}

impl Wire for u64 {
    open spec fn rec(s: Seq<u8>, st: St) -> Rec {
        sp_bytes(s, st, 8)
    }

    open spec fn enc(self) -> Seq<u8> {
        enc_u64(self)
    }

    fn parse(r: &mut Reader) -> (res: Result<u64, ParseError>) {
        r.u64()
    }
}

impl Wire for bool {
    open spec fn rec(s: Seq<u8>, st: St) -> Rec {
        match sp_bool(s, st) {
            Ok((_, st1)) => Ok(st1),
            Err(e) => Err(e),
        }
    }

    open spec fn enc(self) -> Seq<u8> {
        enc_bool(self)
    }

    fn parse(r: &mut Reader) -> (res: Result<bool, ParseError>) {
        r.bool()
    }
}

impl Wire for String {
    open spec fn rec(s: Seq<u8>, st: St) -> Rec {
        sp_str(s, st)
    }

    open spec fn enc(self) -> Seq<u8> {
        enc_string(self)
    }

    /// Its UTF-8 encoding is within the reader's length limit.
    open spec fn well_formed(self) -> bool {
        encode_utf8(self@).len() <= MAX_SEQUENCE_LENGTH
    }

    fn parse(r: &mut Reader) -> (res: Result<String, ParseError>) {
        r.string()
    }
}

impl<T: Wire> Wire for Option<T> {
    open spec fn rec(s: Seq<u8>, st: St) -> Rec {
        sp_opt_of::<T>(s, st)
    }

    open spec fn enc(self) -> Seq<u8> {
        enc_option(self)
    }

    open spec fn well_formed(self) -> bool {
        self matches Some(x) ==> x.well_formed()
    }

    fn parse(r: &mut Reader) -> (res: Result<Option<T>, ParseError>) {
        parse_option::<T>(r)
    }
}

/// A byte string: a length, then the bytes.
impl Wire for Vec<u8> {
    open spec fn rec(s: Seq<u8>, st: St) -> Rec {
        sp_byte_vec(s, st)
    }

    open spec fn enc(self) -> Seq<u8> {
        enc_bytes(self@)
    }

    /// Its length is within the reader's length limit.
    open spec fn well_formed(self) -> bool {
        self@.len() <= MAX_SEQUENCE_LENGTH
    }

    fn parse(r: &mut Reader) -> (res: Result<Vec<u8>, ParseError>) {
        r.byte_vec_owned()
    }
}

/// A sequence of byte strings, each at least its length byte.
impl Wire for Vec<Vec<u8>> {
    open spec fn rec(s: Seq<u8>, st: St) -> Rec {
        sp_seq::<Vec<u8>>(s, st, 1)
    }

    open spec fn enc(self) -> Seq<u8> {
        enc_seq(self@)
    }

    fn parse(r: &mut Reader) -> (res: Result<Vec<Vec<u8>>, ParseError>) {
        parse_seq::<Vec<u8>>(r, 1)
    }
}

/// A pair is its two values one after the other.
impl<A: Wire, B: Wire> Wire for (A, B) {
    open spec fn rec(s: Seq<u8>, st: St) -> Rec {
        match A::rec(s, st) {
            Ok(st1) => B::rec(s, st1),
            Err(e) => Err(e),
        }
    }

    open spec fn enc(self) -> Seq<u8> {
        self.0.enc() + self.1.enc()
    }

    open spec fn well_formed(self) -> bool {
        self.0.well_formed() && self.1.well_formed()
    }

    fn parse(r: &mut Reader) -> (res: Result<(A, B), ParseError>) {
        let ghost s = r.data();
        let ghost st0 = r.st();
        let a = A::parse(r)?;
        let ghost st1 = r.st();
        let b = B::parse(r)?;
        r.check();
        proof {
            lemma_sub_cat(s, st0.pos, st1.pos, r.st().pos);
        }
        Ok((a, b))
    }
}

/// A parse of `T` that took the reader from `r0` to `r1`: it agrees with
/// `T`'s recognizer, and what it returns encodes to the bytes it read.
pub open spec fn parsed<T: Wire>(r0: Reader, r1: Reader, res: Result<T, ParseError>) -> bool {
    &&& r1.data() == r0.data()
    &&& done(r0.st(), T::rec(r0.data(), r0.st()), res, r1.st())
    &&& res matches Ok(v) ==> v.enc() == span(r0.data(), r0.st(), r1.st())
    &&& res matches Ok(v) ==> v.well_formed()
}

/// `n` values of `T`, one after another.
pub open spec fn sp_rep<T: Wire>(s: Seq<u8>, st: St, n: nat) -> Rec
    decreases n,
{
    if n == 0 {
        Ok(st)
    } else {
        match sp_rep::<T>(s, st, (n - 1) as nat) {
            Ok(st1) => T::rec(s, st1),
            Err(e) => Err(e),
        }
    }
}

/// A length-prefixed sequence of `T`, each taking at least `min` bytes.
pub open spec fn sp_seq<T: Wire>(s: Seq<u8>, st: St, min: int) -> Rec {
    match sp_seq_len(s, st, min) {
        Ok((n, st1)) => sp_rep::<T>(s, st1, n as nat),
        Err(e) => Err(e),
    }
}

/// A length-prefixed sequence of `size`-byte records of `T`, whose total
/// size is checked against the input before any record is.
pub open spec fn sp_records<T: Wire>(s: Seq<u8>, st: St, size: int) -> Rec {
    match sp_length(s, st) {
        Ok((n, st1)) => if n * size > s.len() - st1.pos {
            Err(ParseError::UnexpectedEof)
        } else {
            sp_rep::<T>(s, st1, n as nat)
        },
        Err(e) => Err(e),
    }
}

/// The concatenated encodings of the values.
pub open spec fn enc_all<T: Wire>(v: Seq<T>) -> Seq<u8>
    decreases v.len(),
{
    if v.len() == 0 {
        Seq::empty()
    } else {
        enc_all(v.drop_last()) + v.last().enc()
    }
}

/// A length-prefixed sequence.
pub open spec fn enc_seq<T: Wire>(v: Seq<T>) -> Seq<u8> {
    enc_uleb(v.len() as u32) + enc_all(v)
}

pub open spec fn enc_option<T: Wire>(v: Option<T>) -> Seq<u8> {
    match v {
        Some(x) => seq![1u8] + x.enc(),
        None => seq![0u8],
    }
}

pub proof fn lemma_rep_err<T: Wire>(s: Seq<u8>, st: St, i: nat, n: nat, e: ParseError)
    requires
        i <= n,
        sp_rep::<T>(s, st, i) == Err::<St, ParseError>(e),
    ensures
        sp_rep::<T>(s, st, n) == Err::<St, ParseError>(e),
    decreases n - i,
{
    if i < n {
        lemma_rep_err::<T>(s, st, i, (n - 1) as nat, e);
    }
}

pub proof fn lemma_enc_all_push<T: Wire>(v: Seq<T>, x: T)
    ensures
        enc_all(v.push(x)) == enc_all(v) + x.enc(),
{
    assert(v.push(x).drop_last() =~= v);
}

/// `n` values of `T` from the reader, in order.
pub fn parse_rep<T: Wire>(r: &mut Reader, n: usize) -> (res: Result<Vec<T>, ParseError>)
    ensures
        final(r).data() == old(r).data(),
        done(old(r).st(), sp_rep::<T>(old(r).data(), old(r).st(), n as nat), res, final(r).st()),
        res matches Ok(v) ==> v@.len() == n && enc_all(v@) == span(
            old(r).data(),
            old(r).st(),
            final(r).st(),
        ),
        res matches Ok(v) ==> forall|i: int| 0 <= i < v@.len() ==> (#[trigger] v@[i]).well_formed(),
{
    let ghost s = r.data();
    let ghost st1 = r.st();
    r.check();
    let mut out: Vec<T> = Vec::new();
    let mut i: usize = 0;
    assert(enc_all(out@) =~= s.subrange(st1.pos, st1.pos));
    while i < n
        invariant
            r.data() == s,
            s == old(r).data(),
            st1 == old(r).st(),
            i <= n,
            sp_rep::<T>(s, st1, i as nat) == Ok::<St, ParseError>(r.st()),
            r.st().depth == st1.depth,
            0 <= st1.pos <= r.st().pos <= s.len(),
            out@.len() == i,
            enc_all(out@) == s.subrange(st1.pos, r.st().pos),
            forall|j: int| 0 <= j < out@.len() ==> (#[trigger] out@[j]).well_formed(),
        decreases n - i,
    {
        let ghost cur = r.st();
        match T::parse(r) {
            Ok(x) => {
                r.check();
                proof {
                    lemma_enc_all_push(out@, x);
                    lemma_sub_cat(s, st1.pos, cur.pos, r.st().pos);
                }
                out.push(x);
                i = i + 1;
            },
            Err(e) => {
                proof {
                    lemma_rep_err::<T>(s, st1, (i + 1) as nat, n as nat, e);
                }
                return Err(e);
            },
        }
    }
    Ok(out)
}

/// A length-prefixed sequence of `T`, each taking at least `min` bytes.
pub fn parse_seq<T: Wire>(r: &mut Reader, min: usize) -> (res: Result<Vec<T>, ParseError>)
    requires
        min > 0,
    ensures
        final(r).data() == old(r).data(),
        done(old(r).st(), sp_seq::<T>(old(r).data(), old(r).st(), min as int), res, final(r).st()),
        res matches Ok(v) ==> enc_seq(v@) == span(old(r).data(), old(r).st(), final(r).st())
            && v@.len() <= crate::reader::MAX_SEQUENCE_LENGTH,
        res matches Ok(v) ==> forall|i: int| 0 <= i < v@.len() ==> (#[trigger] v@[i]).well_formed(),
{
    let ghost s = r.data();
    let ghost st0 = r.st();
    let n = r.seq_len(min)?;
    let ghost st1 = r.st();
    let v = parse_rep::<T>(r, n)?;
    r.check();
    proof {
        lemma_sub_cat(s, st0.pos, st1.pos, r.st().pos);
    }
    Ok(v)
}

/// A length-prefixed sequence of `size`-byte records of `T`.
pub fn parse_records<T: Wire>(r: &mut Reader, size: usize) -> (res: Result<Vec<T>, ParseError>)
    ensures
        final(r).data() == old(r).data(),
        done(old(r).st(), sp_records::<T>(old(r).data(), old(r).st(), size as int), res, final(r).st()),
        res matches Ok(v) ==> enc_seq(v@) == span(old(r).data(), old(r).st(), final(r).st()),
        res matches Ok(v) ==> v@.len() <= MAX_SEQUENCE_LENGTH,
{
    let ghost s = r.data();
    let ghost st0 = r.st();
    let n = r.length()?;
    let ghost st1 = r.st();
    r.check();
    match n.checked_mul(size) {
        Some(total) => {
            if total > r.remaining() {
                return Err(ParseError::UnexpectedEof);
            }
        },
        None => {
            return Err(ParseError::UnexpectedEof);
        },
    }
    let v = parse_rep::<T>(r, n)?;
    r.check();
    proof {
        lemma_sub_cat(s, st0.pos, st1.pos, r.st().pos);
    }
    Ok(v)
}

/// An optional `T`.
pub fn parse_option<T: Wire>(r: &mut Reader) -> (res: Result<Option<T>, ParseError>)
    ensures
        final(r).data() == old(r).data(),
        done(old(r).st(), sp_opt_of::<T>(old(r).data(), old(r).st()), res, final(r).st()),
        res matches Ok(v) ==> enc_option(v) == span(old(r).data(), old(r).st(), final(r).st()),
        res matches Ok(Some(x)) ==> x.well_formed(),
{
    let ghost s = r.data();
    let ghost st0 = r.st();
    if r.option()? {
        let ghost st1 = r.st();
        let v = T::parse(r)?;
        r.check();
        proof {
            lemma_sub_cat(s, st0.pos, st1.pos, r.st().pos);
        }
        Ok(Some(v))
    } else {
        Ok(None)
    }
}

} // verus!
