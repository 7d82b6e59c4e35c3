//! The structure inside a multisig `GenericSignature`. Message parsing keeps
//! signatures as opaque bytes; validation parses them with these when it
//! needs to. Nothing here checks keys, weights, thresholds or bitmaps.
use vstd::prelude::*;
use crate::error::ParseError;
use crate::execution_status::{rec2, unknown};
use crate::reader::{Reader, St, Rec, then, sp_uleb, sp_bytes, lemma_span_join};
use crate::wire::{Wire, enc_uleb, enc_seq, sp_seq, parse_seq};

verus! {

broadcast use {Reader::lemma_st_nonneg, lemma_span_join};

/// The first byte of a `GenericSignature`.
#[derive(Clone, Copy, PartialEq, Eq, Structural, Debug)]
pub enum SignatureScheme {
    Ed25519,
    Secp256k1,
    Secp256r1,
    MultiSig,
    Bls12381,
    ZkLogin,
    Passkey,
}

/// The flag byte of each scheme.
pub open spec fn scheme_flag(s: SignatureScheme) -> u8 {
    match s {
        SignatureScheme::Ed25519 => 0,
        SignatureScheme::Secp256k1 => 1,
        SignatureScheme::Secp256r1 => 2,
        SignatureScheme::MultiSig => 3,
        SignatureScheme::Bls12381 => 4,
        SignatureScheme::ZkLogin => 5,
        SignatureScheme::Passkey => 6,
    }
}

/// Sui's flag bytes: Ed25519 0, Secp256k1 1, Secp256r1 2, MultiSig 3,
/// BLS12-381 4, zkLogin 5, passkey 6. No two schemes share a flag, so
/// `from_flag` of a scheme's `flag` is that scheme.
pub proof fn lemma_scheme_flags(a: SignatureScheme, b: SignatureScheme)
    ensures
        scheme_flag(SignatureScheme::Ed25519) == 0u8,
        scheme_flag(SignatureScheme::Secp256k1) == 1u8,
        scheme_flag(SignatureScheme::Secp256r1) == 2u8,
        scheme_flag(SignatureScheme::MultiSig) == 3u8,
        scheme_flag(SignatureScheme::Bls12381) == 4u8,
        scheme_flag(SignatureScheme::ZkLogin) == 5u8,
        scheme_flag(SignatureScheme::Passkey) == 6u8,
        scheme_flag(a) <= 6,
        scheme_flag(a) == scheme_flag(b) ==> a == b,
{
}

impl SignatureScheme {
    pub fn from_flag(flag: u8) -> (s: Option<SignatureScheme>)
        ensures
            s is Some <==> flag <= 6,
            s matches Some(k) ==> scheme_flag(k) == flag,
            flag == 0 ==> s == Some(SignatureScheme::Ed25519),
            flag == 1 ==> s == Some(SignatureScheme::Secp256k1),
            flag == 2 ==> s == Some(SignatureScheme::Secp256r1),
            flag == 3 ==> s == Some(SignatureScheme::MultiSig),
            flag == 4 ==> s == Some(SignatureScheme::Bls12381),
            flag == 5 ==> s == Some(SignatureScheme::ZkLogin),
            flag == 6 ==> s == Some(SignatureScheme::Passkey),
    {
        match flag {
            0 => Some(SignatureScheme::Ed25519),
            1 => Some(SignatureScheme::Secp256k1),
            2 => Some(SignatureScheme::Secp256r1),
            3 => Some(SignatureScheme::MultiSig),
            4 => Some(SignatureScheme::Bls12381),
            5 => Some(SignatureScheme::ZkLogin),
            6 => Some(SignatureScheme::Passkey),
            _ => None,
        }
    }

    /// The scheme's flag byte.
    pub fn flag(self) -> (f: u8)
        ensures
            f == scheme_flag(self),
    {
        match self {
            SignatureScheme::Ed25519 => 0,
            SignatureScheme::Secp256k1 => 1,
            SignatureScheme::Secp256r1 => 2,
            SignatureScheme::MultiSig => 3,
            SignatureScheme::Bls12381 => 4,
            SignatureScheme::ZkLogin => 5,
            SignatureScheme::Passkey => 6,
        }
    }
}

/// The checked-in format snapshot lacks `Passkey` here and in `PublicKey`:
/// Sui traces these enums from sample values that have none.
#[derive(Clone, PartialEq, Eq, Debug)]
pub enum CompressedSignature {
    Ed25519([u8; 64]),
    Secp256k1([u8; 64]),
    Secp256r1([u8; 64]),
    ZkLogin(Vec<u8>),
    Passkey(Vec<u8>),
}

impl CompressedSignature {
    /// `ZkLogin` of no bytes.
    pub const MIN_WIRE_SIZE: usize = 2;
}

impl Wire for CompressedSignature {
    open spec fn rec(s: Seq<u8>, st: St) -> Rec {
        match sp_uleb(s, st) {
            Ok((tag, st1)) => if tag <= 2 {
                sp_bytes(s, st1, 64)
            } else if tag <= 4 {
                Vec::<u8>::rec(s, st1)
            } else {
                Err(unknown("CompressedSignature", tag))
            },
            Err(e) => Err(e),
        }
    }

    open spec fn enc(self) -> Seq<u8> {
        match self {
            CompressedSignature::Ed25519(b) => enc_uleb(0) + b@,
            CompressedSignature::Secp256k1(b) => enc_uleb(1) + b@,
            CompressedSignature::Secp256r1(b) => enc_uleb(2) + b@,
            CompressedSignature::ZkLogin(b) => enc_uleb(3) + b.enc(),
            CompressedSignature::Passkey(b) => enc_uleb(4) + b.enc(),
        }
    }

    fn parse(r: &mut Reader) -> (res: Result<CompressedSignature, ParseError>) {
        let v = match r.variant()? {
            0 => CompressedSignature::Ed25519(r.array::<64>()?),
            1 => CompressedSignature::Secp256k1(r.array::<64>()?),
            2 => CompressedSignature::Secp256r1(r.array::<64>()?),
            3 => CompressedSignature::ZkLogin(r.byte_vec_owned()?),
            4 => CompressedSignature::Passkey(r.byte_vec_owned()?),
            tag => {
                return Err(ParseError::UnknownVariant { ty: "CompressedSignature", tag });
            },
        };
        r.check();
        Ok(v)
    }
}

impl CompressedSignature {
    pub fn parse(r: &mut Reader) -> (res: Result<CompressedSignature, ParseError>)
        ensures
            crate::wire::parsed(*old(r), *final(r), res),
    {
        <CompressedSignature as Wire>::parse(r)
    }
}

#[derive(Clone, PartialEq, Eq, Debug)]
pub enum PublicKey {
    Ed25519([u8; 32]),
    Secp256k1([u8; 33]),
    Secp256r1([u8; 33]),
    ZkLogin(Vec<u8>),
    Passkey([u8; 33]),
}

impl Wire for PublicKey {
    open spec fn rec(s: Seq<u8>, st: St) -> Rec {
        match sp_uleb(s, st) {
            Ok((tag, st1)) => if tag == 0 {
                sp_bytes(s, st1, 32)
            } else if tag == 1 || tag == 2 || tag == 4 {
                sp_bytes(s, st1, 33)
            } else if tag == 3 {
                Vec::<u8>::rec(s, st1)
            } else {
                Err(unknown("PublicKey", tag))
            },
            Err(e) => Err(e),
        }
    }

    open spec fn enc(self) -> Seq<u8> {
        match self {
            PublicKey::Ed25519(b) => enc_uleb(0) + b@,
            PublicKey::Secp256k1(b) => enc_uleb(1) + b@,
            PublicKey::Secp256r1(b) => enc_uleb(2) + b@,
            PublicKey::ZkLogin(b) => enc_uleb(3) + b.enc(),
            PublicKey::Passkey(b) => enc_uleb(4) + b@,
        }
    }

    fn parse(r: &mut Reader) -> (res: Result<PublicKey, ParseError>) {
        let v = match r.variant()? {
            0 => PublicKey::Ed25519(r.array::<32>()?),
            1 => PublicKey::Secp256k1(r.array::<33>()?),
            2 => PublicKey::Secp256r1(r.array::<33>()?),
            3 => PublicKey::ZkLogin(r.byte_vec_owned()?),
            4 => PublicKey::Passkey(r.array::<33>()?),
            tag => {
                return Err(ParseError::UnknownVariant { ty: "PublicKey", tag });
            },
        };
        r.check();
        Ok(v)
    }
}

impl PublicKey {
    pub fn parse(r: &mut Reader) -> (res: Result<PublicKey, ParseError>)
        ensures
            crate::wire::parsed(*old(r), *final(r), res),
    {
        <PublicKey as Wire>::parse(r)
    }
}

#[derive(Clone, PartialEq, Eq, Debug)]
pub struct MultiSigPublicKey {
    /// Each key with its weight.
    pub pk_map: Vec<(PublicKey, u8)>,
    pub threshold: u16,
}

impl Wire for MultiSigPublicKey {
    /// Each entry at least a `ZkLogin` key of no bytes, and a weight.
    open spec fn rec(s: Seq<u8>, st: St) -> Rec {
        then(sp_seq::<(PublicKey, u8)>(s, st, 3), |st1: St| u16::rec(s, st1))
    }

    open spec fn enc(self) -> Seq<u8> {
        enc_seq(self.pk_map@) + self.threshold.enc()
    }

    fn parse(r: &mut Reader) -> (res: Result<MultiSigPublicKey, ParseError>) {
        let pk_map = parse_seq::<(PublicKey, u8)>(r, 3)?;
        let threshold = r.u16()?;
        r.check();
        Ok(MultiSigPublicKey { pk_map, threshold })
    }
}

impl MultiSigPublicKey {
    pub fn parse(r: &mut Reader) -> (res: Result<MultiSigPublicKey, ParseError>)
        ensures
            crate::wire::parsed(*old(r), *final(r), res),
    {
        <MultiSigPublicKey as Wire>::parse(r)
    }
}

/// What follows the scheme flag of a multisig `GenericSignature`.
#[derive(Clone, PartialEq, Eq, Debug)]
pub struct MultiSig {
    pub sigs: Vec<CompressedSignature>,
    /// Bit `i` is set if the key at `pk_map[i]` signed.
    pub bitmap: u16,
    pub multisig_pk: MultiSigPublicKey,
}

impl Wire for MultiSig {
    open spec fn rec(s: Seq<u8>, st: St) -> Rec {
        then(
            sp_seq::<CompressedSignature>(s, st, 2),
            |st1: St| rec2::<u16, MultiSigPublicKey>(s, st1),
        )
    }

    open spec fn enc(self) -> Seq<u8> {
        enc_seq(self.sigs@) + self.bitmap.enc() + self.multisig_pk.enc()
    }

    fn parse(r: &mut Reader) -> (res: Result<MultiSig, ParseError>) {
        let sigs = parse_seq::<CompressedSignature>(r, CompressedSignature::MIN_WIRE_SIZE)?;
        let bitmap = r.u16()?;
        let multisig_pk = MultiSigPublicKey::parse(r)?;
        r.check();
        Ok(MultiSig { sigs, bitmap, multisig_pk })
    }
}

impl MultiSig {
    pub fn parse(r: &mut Reader) -> (res: Result<MultiSig, ParseError>)
        ensures
            crate::wire::parsed(*old(r), *final(r), res),
    {
        <MultiSig as Wire>::parse(r)
    }
}

} // verus!
