//! Fixed-layout leaf types: addresses, ids, digests, object references.
use vstd::prelude::*;
use crate::error::ParseError;
use crate::reader::{Reader, St, Rec, then, span, done, sp_bytes, lemma_sub_cat};
use crate::wire::{Wire, enc_u64, enc_u32, StringSliceAdditionalSpecFns};

verus! {

broadcast use Reader::lemma_st_nonneg;

/// A Move `AccountAddress`.
#[derive(Clone, Copy, PartialEq, Eq, Debug)]
pub struct AccountAddress(pub [u8; 32]);

#[derive(Clone, Copy, PartialEq, Eq, Debug)]
pub struct SuiAddress(pub [u8; 32]);

#[derive(Clone, Copy, PartialEq, Eq, Debug)]
pub struct ObjectId(pub [u8; 32]);

/// An object version.
pub type SequenceNumber = u64;

impl AccountAddress {
    pub const LENGTH: usize = 32;

}

impl Wire for AccountAddress {
    open spec fn rec(s: Seq<u8>, st: St) -> Rec {
        sp_bytes(s, st, 32)
    }

    open spec fn enc(self) -> Seq<u8> {
        self.0@
    }

    fn parse(r: &mut Reader) -> (res: Result<AccountAddress, ParseError>) {
        Ok(AccountAddress(r.array::<32>()?))
    }
}

impl AccountAddress {
    pub fn parse(r: &mut Reader) -> (res: Result<AccountAddress, ParseError>)
        ensures
            crate::wire::parsed(*old(r), *final(r), res),
    {
        <AccountAddress as Wire>::parse(r)
    }
}

impl SuiAddress {
    pub const LENGTH: usize = 32;

}

impl Wire for SuiAddress {
    open spec fn rec(s: Seq<u8>, st: St) -> Rec {
        sp_bytes(s, st, 32)
    }

    open spec fn enc(self) -> Seq<u8> {
        self.0@
    }

    fn parse(r: &mut Reader) -> (res: Result<SuiAddress, ParseError>) {
        Ok(SuiAddress(r.array::<32>()?))
    }
}

impl SuiAddress {
    pub fn parse(r: &mut Reader) -> (res: Result<SuiAddress, ParseError>)
        ensures
            crate::wire::parsed(*old(r), *final(r), res),
    {
        <SuiAddress as Wire>::parse(r)
    }
}

impl ObjectId {
    pub const LENGTH: usize = 32;

    /// The id whose last two bytes are the big-endian `n`, as for system
    /// objects.
    pub fn from_u16(n: u16) -> (id: ObjectId)
        ensures
            id.0@ == Seq::new(30, |i: int| 0u8) + seq![(n / 256) as u8, (n % 256) as u8],
    {
        let mut bytes = [0u8; 32];
        bytes[30] = (n / 256) as u8;
        bytes[31] = (n % 256) as u8;
        let id = ObjectId(bytes);
        assert(id.0@ =~= Seq::new(30, |i: int| 0u8) + seq![(n / 256) as u8, (n % 256) as u8]);
        id
    }
}

impl Wire for ObjectId {
    open spec fn rec(s: Seq<u8>, st: St) -> Rec {
        sp_bytes(s, st, 32)
    }

    open spec fn enc(self) -> Seq<u8> {
        self.0@
    }

    fn parse(r: &mut Reader) -> (res: Result<ObjectId, ParseError>) {
        Ok(ObjectId(r.array::<32>()?))
    }
}

impl ObjectId {
    pub fn parse(r: &mut Reader) -> (res: Result<ObjectId, ParseError>)
        ensures
            crate::wire::parsed(*old(r), *final(r), res),
    {
        <ObjectId as Wire>::parse(r)
    }
}

/// A length-prefixed sequence of ids.
impl Wire for Vec<ObjectId> {
    open spec fn rec(s: Seq<u8>, st: St) -> Rec {
        crate::wire::sp_records::<ObjectId>(s, st, 32)
    }

    open spec fn enc(self) -> Seq<u8> {
        crate::wire::enc_seq(self@)
    }

    fn parse(r: &mut Reader) -> (res: Result<Vec<ObjectId>, ParseError>) {
        crate::wire::parse_records::<ObjectId>(r, 32)
    }
}

/// A little-endian `u64` with its wire bytes.
#[derive(Clone, Copy, PartialEq, Eq, Debug)]
pub struct U64Le(pub [u8; 8]);

impl U64Le {
    pub open spec fn value(self) -> u64 {
        (self.0[0] as u64) | ((self.0[1] as u64) << 8u64) | ((self.0[2] as u64) << 16u64) | ((
        self.0[3] as u64) << 24u64) | ((self.0[4] as u64) << 32u64) | ((self.0[5] as u64)
            << 40u64) | ((self.0[6] as u64) << 48u64) | ((self.0[7] as u64) << 56u64)
    }

    pub fn new(v: u64) -> (r: U64Le)
        ensures
            r.0@ == enc_u64(v),
            r.value() == v,
    {
        let b0 = v as u8;
        let b1 = (v >> 8u64) as u8;
        let b2 = (v >> 16u64) as u8;
        let b3 = (v >> 24u64) as u8;
        let b4 = (v >> 32u64) as u8;
        let b5 = (v >> 40u64) as u8;
        let b6 = (v >> 48u64) as u8;
        let b7 = (v >> 56u64) as u8;
        let r = U64Le([b0, b1, b2, b3, b4, b5, b6, b7]);
        assert(r.0@ =~= enc_u64(v));
        assert((b0 as u64) | ((b1 as u64) << 8u64) | ((b2 as u64) << 16u64) | ((b3 as u64)
            << 24u64) | ((b4 as u64) << 32u64) | ((b5 as u64) << 40u64) | ((b6 as u64) << 48u64)
            | ((b7 as u64) << 56u64) == v) by (bit_vector)
            requires
                b0 == v as u8,
                b1 == (v >> 8u64) as u8,
                b2 == (v >> 16u64) as u8,
                b3 == (v >> 24u64) as u8,
                b4 == (v >> 32u64) as u8,
                b5 == (v >> 40u64) as u8,
                b6 == (v >> 48u64) as u8,
                b7 == (v >> 56u64) as u8,
        ;
        r
    }

    pub fn get(self) -> (v: u64)
        ensures
            v == self.value(),
    {
        (self.0[0] as u64) | ((self.0[1] as u64) << 8u64) | ((self.0[2] as u64) << 16u64) | ((
        self.0[3] as u64) << 24u64) | ((self.0[4] as u64) << 32u64) | ((self.0[5] as u64)
            << 40u64) | ((self.0[6] as u64) << 48u64) | ((self.0[7] as u64) << 56u64)
    }
}

/// The bytes of a little-endian `u64` are the encoding of its value.
pub proof fn lemma_u64le_bytes(x: U64Le)
    ensures
        x.0@ == enc_u64(x.value()),
{
    let v = x.value();
    let (b0, b1, b2, b3, b4, b5, b6, b7) = (x.0[0], x.0[1], x.0[2], x.0[3], x.0[4], x.0[5], x.0[6], x.0[7]);
    assert(v as u8 == b0 && (v >> 8u64) as u8 == b1 && (v >> 16u64) as u8 == b2 && (v >> 24u64) as u8
        == b3 && (v >> 32u64) as u8 == b4 && (v >> 40u64) as u8 == b5 && (v >> 48u64) as u8 == b6
        && (v >> 56u64) as u8 == b7) by (bit_vector)
        requires
            v == (b0 as u64) | ((b1 as u64) << 8u64) | ((b2 as u64) << 16u64) | ((b3 as u64) << 24u64)
                | ((b4 as u64) << 32u64) | ((b5 as u64) << 40u64) | ((b6 as u64) << 48u64) | ((b7 as u64)
                << 56u64),
    ;
    assert(x.0@ =~= enc_u64(v));
}

/// A little-endian `u32` with its wire bytes.
#[derive(Clone, Copy, PartialEq, Eq, Debug)]
pub struct U32Le(pub [u8; 4]);

impl U32Le {
    pub open spec fn value(self) -> u32 {
        (self.0[0] as u32) | ((self.0[1] as u32) << 8u32) | ((self.0[2] as u32) << 16u32) | ((
        self.0[3] as u32) << 24u32)
    }

    pub fn new(v: u32) -> (r: U32Le)
        ensures
            r.0@ == enc_u32(v),
            r.value() == v,
    {
        let b0 = v as u8;
        let b1 = (v >> 8u32) as u8;
        let b2 = (v >> 16u32) as u8;
        let b3 = (v >> 24u32) as u8;
        let r = U32Le([b0, b1, b2, b3]);
        assert(r.0@ =~= enc_u32(v));
        assert((b0 as u32) | ((b1 as u32) << 8u32) | ((b2 as u32) << 16u32) | ((b3 as u32)
            << 24u32) == v) by (bit_vector)
            requires
                b0 == v as u8,
                b1 == (v >> 8u32) as u8,
                b2 == (v >> 16u32) as u8,
                b3 == (v >> 24u32) as u8,
        ;
        r
    }

    pub fn get(self) -> (v: u32)
        ensures
            v == self.value(),
    {
        (self.0[0] as u32) | ((self.0[1] as u32) << 8u32) | ((self.0[2] as u32) << 16u32) | ((
        self.0[3] as u32) << 24u32)
    }
}

impl Wire for U32Le {
    open spec fn rec(s: Seq<u8>, st: St) -> Rec {
        sp_bytes(s, st, 4)
    }

    open spec fn enc(self) -> Seq<u8> {
        self.0@
    }

    fn parse(r: &mut Reader) -> (res: Result<U32Le, ParseError>) {
        Ok(U32Le(r.array::<4>()?))
    }
}

/// The error for a length byte that is not the one a fixed-size byte
/// string must have.
pub open spec fn wrong_length(ty: &'static str, expected: u32, actual: u8) -> ParseError {
    ParseError::WrongLength { ty, expected, actual: actual as u32 }
}

/// The length byte at `p` must be `expected`.
pub open spec fn sp_len_byte(s: Seq<u8>, p: int, ty: &'static str, expected: u8, st: St) -> Rec {
    if s[p] != expected {
        Err(wrong_length(ty, expected as u32, s[p]))
    } else {
        Ok(st)
    }
}

/// `AuthorityPublicKeyBytes` as it sits on the wire: a length byte, always
/// 96, then a compressed BLS12-381 G2 point that is not checked here.
#[derive(Clone, Copy, PartialEq, Eq, Debug)]
pub struct AuthorityName {
    pub bytes: [u8; 96],
}

pub type AuthorityPublicKeyBytes = AuthorityName;

impl AuthorityName {
    pub fn new(bytes: [u8; 96]) -> (a: AuthorityName)
        ensures
            a.bytes == bytes,
    {
        AuthorityName { bytes }
    }

}

impl Wire for AuthorityName {
    open spec fn rec(s: Seq<u8>, st: St) -> Rec {
        then(
            sp_bytes(s, st, 97),
            |st1: St| sp_len_byte(s, st.pos, "AuthorityPublicKeyBytes", 96, st1),
        )
    }

    open spec fn enc(self) -> Seq<u8> {
        seq![96u8] + self.bytes@
    }

    fn parse(r: &mut Reader) -> (res: Result<AuthorityName, ParseError>) {
        let ghost s = r.data();
        let ghost st0 = r.st();
        let len = r.u8()?;
        let bytes = r.array::<96>()?;
        if len != 96 {
            return Err(
                ParseError::WrongLength {
                    ty: "AuthorityPublicKeyBytes",
                    expected: 96,
                    actual: len as u32,
                },
            );
        }
        r.check();
        proof {
            lemma_sub_cat(s, st0.pos, st0.pos + 1, r.st().pos);
        }
        Ok(AuthorityName { bytes })
    }
}

/// A 32-byte digest as it sits on the wire: a length byte, always 32,
/// then the bytes.
#[derive(Clone, Copy, PartialEq, Eq, Debug)]
pub struct Digest {
    pub bytes: [u8; 32],
}

pub type ObjectDigest = Digest;

pub type TransactionDigest = Digest;

pub type TransactionEffectsDigest = Digest;

pub type TransactionEventsDigest = Digest;

pub type EffectsAuxDataDigest = Digest;

pub type CheckpointDigest = Digest;

pub type CheckpointContentsDigest = Digest;

pub type CheckpointArtifactsDigest = Digest;

pub type ConsensusCommitDigest = Digest;

pub type AdditionalConsensusStateDigest = Digest;

pub type ChainIdentifier = Digest;

/// Blake2b with a 32-byte output, as a function of its input.
pub uninterp spec fn blake2b256(data: Seq<u8>) -> Seq<u8>;

/// `blake2::Blake2b<U32>` over `data` in one call. The contract claims
/// only that the 32 bytes are a function of the input: what that function
/// is, the `blake2` crate computes.
#[verifier::external_body]
fn blake2b256_of(data: &[u8]) -> (out: [u8; 32])
    ensures
        out@ == blake2b256(data@),
{
    <blake2::Blake2b<blake2::digest::consts::U32> as blake2::Digest>::digest(data).into()
}

/// What Sui hashes for a value of the type `name`: the name,
/// `::`, then the value's BCS bytes.
pub open spec fn hashed_bytes(name: Seq<u8>, bcs: Seq<u8>) -> Seq<u8> {
    name + seq![58u8, 58u8] + bcs
}

impl Digest {
    pub const LENGTH: usize = 32;

    /// Sui's digest of a hashed type: Blake2b-256 over the type's
    /// serde name, `::`, and its BCS bytes.
    pub fn of(name: &str, bcs_bytes: &[u8]) -> (d: Digest)
        ensures
            d.bytes@ == blake2b256(hashed_bytes(name.spec_bytes(), bcs_bytes@)),
    {
        let mut data: Vec<u8> = Vec::new();
        crate::bytes::extend(&mut data, name.as_bytes());
        data.push(58u8);
        data.push(58u8);
        crate::bytes::extend(&mut data, bcs_bytes);
        assert(data@ =~= hashed_bytes(name.spec_bytes(), bcs_bytes@));
        Digest { bytes: blake2b256_of(data.as_slice()) }
    }

    pub fn new(bytes: [u8; 32]) -> (d: Digest)
        ensures
            d.bytes == bytes,
    {
        Digest { bytes }
    }

    /// The digest of all zero bytes.
    pub fn zero() -> (d: Digest)
        ensures
            d.bytes@ == Seq::new(32, |i: int| 0u8),
    {
        let d = Digest { bytes: [0u8; 32] };
        assert(d.bytes@ =~= Seq::new(32, |i: int| 0u8));
        d
    }

}

impl Wire for Digest {
    open spec fn rec(s: Seq<u8>, st: St) -> Rec {
        then(sp_bytes(s, st, 33), |st1: St| sp_len_byte(s, st.pos, "Digest", 32, st1))
    }

    open spec fn enc(self) -> Seq<u8> {
        seq![32u8] + self.bytes@
    }

    fn parse(r: &mut Reader) -> (res: Result<Digest, ParseError>) {
        let ghost s = r.data();
        let ghost st0 = r.st();
        let len = r.u8()?;
        let bytes = r.array::<32>()?;
        if len != 32 {
            // A length of 128 or more is a multi-byte uleb128 and also wrong.
            return Err(ParseError::WrongLength { ty: "Digest", expected: 32, actual: len as u32 });
        }
        r.check();
        proof {
            lemma_sub_cat(s, st0.pos, st0.pos + 1, r.st().pos);
        }
        Ok(Digest { bytes })
    }
}

impl Digest {
    pub fn parse(r: &mut Reader) -> (res: Result<Digest, ParseError>)
        ensures
            crate::wire::parsed(*old(r), *final(r), res),
    {
        <Digest as Wire>::parse(r)
    }
}

/// `(ObjectID, SequenceNumber, ObjectDigest)`.
#[derive(Clone, Copy, PartialEq, Eq, Debug)]
pub struct ObjectRef {
    pub id: ObjectId,
    pub version: U64Le,
    pub digest: ObjectDigest,
}

impl ObjectRef {

    pub fn parse_vec(r: &mut Reader) -> (res: Result<Vec<ObjectRef>, ParseError>)
        ensures
            final(r).data() == old(r).data(),
            done(
                old(r).st(),
                crate::wire::sp_records::<ObjectRef>(old(r).data(), old(r).st(), 73),
                res,
                final(r).st(),
            ),
            res matches Ok(v) ==> crate::wire::enc_seq(v@) == span(
                old(r).data(),
                old(r).st(),
                final(r).st(),
            ),
            res matches Ok(v) ==> v@.len() <= crate::reader::MAX_SEQUENCE_LENGTH,
    {
        crate::wire::parse_records::<ObjectRef>(r, 73)
    }
}

impl Wire for ObjectRef {
    open spec fn rec(s: Seq<u8>, st: St) -> Rec {
        then(sp_bytes(s, st, 73), |st1: St| sp_len_byte(s, st.pos + 40, "Digest", 32, st1))
    }

    open spec fn enc(self) -> Seq<u8> {
        self.id.0@ + self.version.0@ + self.digest.enc()
    }

    fn parse(r: &mut Reader) -> (res: Result<ObjectRef, ParseError>) {
        let b = r.bytes(73)?;
        let len = b[40];
        if len != 32 {
            return Err(ParseError::WrongLength { ty: "Digest", expected: 32, actual: len as u32 });
        }
        let o = ObjectRef {
            id: ObjectId(crate::bytes::array_at::<32>(b, 0)),
            version: U64Le(crate::bytes::array_at::<8>(b, 32)),
            digest: Digest { bytes: crate::bytes::array_at::<32>(b, 41) },
        };
        assert(o.enc() =~= b@);
        Ok(o)
    }
}

impl ObjectRef {
    pub fn parse(r: &mut Reader) -> (res: Result<ObjectRef, ParseError>)
        ensures
            crate::wire::parsed(*old(r), *final(r), res),
    {
        <ObjectRef as Wire>::parse(r)
    }
}

/// A length-prefixed sequence of object keys.
impl Wire for Vec<ObjectKey> {
    open spec fn rec(s: Seq<u8>, st: St) -> Rec {
        crate::wire::sp_records::<ObjectKey>(s, st, 40)
    }

    open spec fn enc(self) -> Seq<u8> {
        crate::wire::enc_seq(self@)
    }

    fn parse(r: &mut Reader) -> (res: Result<Vec<ObjectKey>, ParseError>) {
        crate::wire::parse_records::<ObjectKey>(r, 40)
    }
}

/// `(ObjectID, SequenceNumber)`.
#[derive(Clone, Copy, PartialEq, Eq, Debug)]
pub struct ObjectKey {
    pub id: ObjectId,
    pub version: U64Le,
}

impl Wire for ObjectKey {
    open spec fn rec(s: Seq<u8>, st: St) -> Rec {
        sp_bytes(s, st, 40)
    }

    open spec fn enc(self) -> Seq<u8> {
        self.id.0@ + self.version.0@
    }

    fn parse(r: &mut Reader) -> (res: Result<ObjectKey, ParseError>) {
        let b = r.bytes(40)?;
        let k = ObjectKey {
            id: ObjectId(crate::bytes::array_at::<32>(b, 0)),
            version: U64Le(crate::bytes::array_at::<8>(b, 32)),
        };
        assert(k.enc() =~= b@);
        Ok(k)
    }
}

} // verus!
