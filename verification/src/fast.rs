//! Writing BCS: the mirror of `Reader`. Each method appends exactly the
//! encoding of its value, the same `enc` that every parser's result
//! satisfies.
use vstd::prelude::*;
use crate::base::{AccountAddress, Digest, SuiAddress, blake2b256, hashed_bytes};
use crate::execution_status::{
    CommandArgumentError, ExecutionErrorKind, ExecutionStatus, MoveLocation, PackageUpgradeError,
};
use crate::object::{Owner, PartyMember};
use crate::type_tag::{StructTag, TypeTag, enc_tt, enc_st, enc_tt_list, legal_tt, legal_st, legal_tt_list};
use crate::wire::{
    Wire, enc_uleb, enc_u16, enc_u32, enc_u64, enc_bool, enc_bytes, enc_string, enc_all,
    enc_option_u64, encode_utf8, StringSliceAdditionalSpecFns,
};

verus! {

/// A byte string or sequence length that a uleb128 of `u32` can hold.
pub open spec fn fits(n: int) -> bool {
    n <= u32::MAX
}

pub open spec fn fits_str(t: String) -> bool {
    fits(encode_utf8(t@).len() as int)
}

pub open spec fn fits_tt(t: TypeTag) -> bool
    decreases t,
{
    match t {
        TypeTag::Vector(inner) => fits_tt(*inner),
        TypeTag::Struct(st) => fits_st(*st),
        _ => true,
    }
}

pub open spec fn fits_st(t: StructTag) -> bool
    decreases t,
{
    &&& fits_str(t.module)
    &&& fits_str(t.name)
    &&& fits(t.type_params@.len() as int)
    &&& fits_tt_list(t.type_params@)
}

pub open spec fn fits_tt_list(v: Seq<TypeTag>) -> bool
    decreases v,
{
    if v.len() == 0 {
        true
    } else {
        fits_tt_list(v.subrange(0, v.len() - 1)) && fits_tt(v[v.len() - 1])
    }
}

/// A type tag the reader accepts is one the writer can write: every tag a
/// parse gives back, written out with `Writer::type_tag`, gives back the
/// bytes it was parsed from.
pub proof fn lemma_legal_tag_fits(t: TypeTag)
    requires
        legal_tt(t),
    ensures
        fits_tt(t),
    decreases t,
{
    match t {
        TypeTag::Vector(inner) => lemma_legal_tag_fits(*inner),
        TypeTag::Struct(s) => lemma_legal_struct_fits(*s),
        _ => {},
    }
}

pub proof fn lemma_legal_struct_fits(t: StructTag)
    requires
        legal_st(t),
    ensures
        fits_st(t),
    decreases t,
{
    lemma_legal_tags_fit(t.type_params@);
}

pub proof fn lemma_legal_tags_fit(v: Seq<TypeTag>)
    requires
        legal_tt_list(v),
    ensures
        fits_tt_list(v),
    decreases v,
{
    if v.len() > 0 {
        lemma_legal_tags_fit(v.subrange(0, v.len() - 1));
        lemma_legal_tag_fits(v[v.len() - 1]);
    }
}

pub open spec fn fits_location(l: MoveLocation) -> bool {
    &&& fits_str(l.module.name)
    &&& (l.function_name matches Some(n) ==> fits_str(n))
}

pub open spec fn fits_error(e: ExecutionErrorKind) -> bool {
    match e {
        ExecutionErrorKind::MovePrimitiveRuntimeError(Some(l)) => fits_location(l),
        ExecutionErrorKind::MoveAbort(l, _) => fits_location(l),
        ExecutionErrorKind::PackageUpgradeError {
            upgrade_error: PackageUpgradeError::DigestDoesNotMatch { digest },
        } => fits(digest@.len() as int),
        ExecutionErrorKind::ExecutionCancelledDueToSharedObjectCongestion { congested_objects } =>
            fits(congested_objects@.len() as int),
        ExecutionErrorKind::AddressDeniedForCoin { coin_type, .. } => fits_str(coin_type),
        ExecutionErrorKind::CoinTypeGlobalPause { coin_type } => fits_str(coin_type),
        _ => true,
    }
}

pub open spec fn fits_status(s: ExecutionStatus) -> bool {
    s matches ExecutionStatus::Failure { error, .. } ==> fits_error(error)
}

pub open spec fn fits_owner(o: Owner) -> bool {
    o matches Owner::Party(p) ==> fits(p.members@.len() as int)
}

/// A finished message: its BCS bytes, and its digest.
#[derive(Clone, Debug)]
pub struct Built {
    pub bytes: Vec<u8>,
    pub digest: Digest,
}

/// Writes BCS into a growing buffer.
pub struct Writer {
    out: Vec<u8>,
}

impl Writer {
    /// The bytes written so far.
    pub closed spec fn written(&self) -> Seq<u8> {
        self.out@
    }

    /// An empty writer; `capacity` is a hint for the bytes to come.
    pub fn new_in(capacity: usize) -> (w: Writer)
        ensures
            w.written() == Seq::<u8>::empty(),
    {
        Writer { out: Vec::with_capacity(capacity) }
    }

    pub fn len(&self) -> (n: usize)
        ensures
            n == self.written().len(),
    {
        self.out.len()
    }

    pub fn is_empty(&self) -> (b: bool)
        ensures
            b == (self.written().len() == 0),
    {
        self.out.len() == 0
    }

    /// The bytes written, and the digest of `name`, `::`, and them.
    pub fn finish(self, name: &str) -> (b: Built)
        ensures
            b.bytes@ == self.written(),
            b.digest.bytes@ == blake2b256(hashed_bytes(name.spec_bytes(), self.written())),
    {
        let digest = Digest::of(name, self.out.as_slice());
        Built { bytes: self.out, digest }
    }

    /// The bytes written, for types that have no digest.
    pub fn finish_bytes(self) -> (b: Vec<u8>)
        ensures
            b@ == self.written(),
    {
        self.out
    }

    pub fn u8(&mut self, v: u8)
        ensures
            final(self).written() == old(self).written() + seq![v],
    {
        self.out.push(v);
    }

    pub fn u16(&mut self, v: u16)
        ensures
            final(self).written() == old(self).written() + enc_u16(v),
    {
        self.out.push(v as u8);
        self.out.push((v >> 8u16) as u8);
        assert(self.out@ =~= old(self).out@ + enc_u16(v));
    }

    pub fn u32(&mut self, v: u32)
        ensures
            final(self).written() == old(self).written() + enc_u32(v),
    {
        self.out.push(v as u8);
        self.out.push((v >> 8u32) as u8);
        self.out.push((v >> 16u32) as u8);
        self.out.push((v >> 24u32) as u8);
        assert(self.out@ =~= old(self).out@ + enc_u32(v));
    }

    pub fn u64(&mut self, v: u64)
        ensures
            final(self).written() == old(self).written() + enc_u64(v),
    {
        self.out.push(v as u8);
        self.out.push((v >> 8u64) as u8);
        self.out.push((v >> 16u64) as u8);
        self.out.push((v >> 24u64) as u8);
        self.out.push((v >> 32u64) as u8);
        self.out.push((v >> 40u64) as u8);
        self.out.push((v >> 48u64) as u8);
        self.out.push((v >> 56u64) as u8);
        assert(self.out@ =~= old(self).out@ + enc_u64(v));
    }

    pub fn bool(&mut self, v: bool)
        ensures
            final(self).written() == old(self).written() + enc_bool(v),
    {
        self.out.push(if v { 1u8 } else { 0u8 });
        assert(self.out@ =~= old(self).out@ + enc_bool(v));
    }

    pub fn uleb128(&mut self, v: u32)
        ensures
            final(self).written() == old(self).written() + enc_uleb(v),
    {
        let mut v = v;
        let ghost v0 = v;
        let ghost base = self.out@;
        while v >= 0x80
            invariant
                base == old(self).out@,
                base.len() <= self.out@.len(),
                self.out@.subrange(base.len() as int, self.out@.len() as int) + enc_uleb(v)
                    == enc_uleb(v0),
                self.out@.subrange(0, base.len() as int) == base,
            decreases v,
        {
            let b = ((v & 0x7f) as u8) | 0x80u8;
            assert(b == (v % 128 + 128) as u8 && v >> 7u32 == v / 128) by (bit_vector)
                requires
                    b == ((v & 0x7f) as u8) | 0x80u8,
                    v >= 0x80,
            ;
            let ghost before = self.out@;
            self.out.push(b);
            proof {
                assert(self.out@.subrange(base.len() as int, self.out@.len() as int) =~= before.subrange(
                    base.len() as int,
                    before.len() as int,
                ).push(b));
                assert(self.out@.subrange(0, base.len() as int) =~= before.subrange(0, base.len() as int));
            }
            v = v >> 7u32;
        }
        self.out.push(v as u8);
        proof {
            assert(self.out@ =~= base + enc_uleb(v0));
        }
    }

    /// A sequence length or a variant index.
    pub fn len_prefix(&mut self, n: usize)
        requires
            fits(n as int),
        ensures
            final(self).written() == old(self).written() + enc_uleb(n as u32),
    {
        self.uleb128(n as u32);
    }

    /// Bytes without a length, for fixed-size fields.
    pub fn raw(&mut self, bytes: &[u8])
        ensures
            final(self).written() == old(self).written() + bytes@,
    {
        crate::bytes::extend(&mut self.out, bytes);
    }

    /// A length-prefixed byte string.
    pub fn bytes(&mut self, bytes: &[u8])
        requires
            fits(bytes@.len() as int),
        ensures
            final(self).written() == old(self).written() + enc_bytes(bytes@),
    {
        self.len_prefix(bytes.len());
        crate::bytes::extend(&mut self.out, bytes);
    }

    pub fn str(&mut self, s: &str)
        requires
            fits(s.spec_bytes().len() as int),
        ensures
            final(self).written() == old(self).written() + enc_bytes(s.spec_bytes()),
    {
        self.bytes(s.as_bytes());
    }

    /// An owned string, as `str` writes it.
    pub fn string(&mut self, s: &String)
        requires
            fits_str(*s),
        ensures
            final(self).written() == old(self).written() + enc_string(*s),
    {
        self.str(s.as_str());
    }

    pub fn option_u64(&mut self, v: Option<u64>)
        ensures
            final(self).written() == old(self).written() + enc_option_u64(v),
    {
        match v {
            Some(x) => {
                self.u8(1);
                self.u64(x);
            },
            None => self.u8(0),
        }
    }

    /// A digest: its length byte and its bytes, as it sits on the wire.
    pub fn digest(&mut self, d: &Digest)
        ensures
            final(self).written() == old(self).written() + d.enc(),
    {
        self.u8(32);
        self.raw(d.bytes.as_slice());
    }

    pub fn option_digest(&mut self, d: Option<&Digest>)
        ensures
            final(self).written() == old(self).written() + match d {
                Some(x) => seq![1u8] + x.enc(),
                None => seq![0u8],
            },
    {
        match d {
            Some(x) => {
                self.u8(1);
                self.digest(x);
            },
            None => self.u8(0),
        }
    }

    pub fn address(&mut self, a: &SuiAddress)
        ensures
            final(self).written() == old(self).written() + a.enc(),
    {
        self.raw(a.0.as_slice());
    }

    pub fn account(&mut self, a: &AccountAddress)
        ensures
            final(self).written() == old(self).written() + a.enc(),
    {
        self.raw(a.0.as_slice());
    }

    pub fn owner(&mut self, owner: &Owner)
        requires
            fits_owner(*owner),
        ensures
            final(self).written() == old(self).written() + owner.enc(),
    {
        match owner {
            Owner::AddressOwner(a) => {
                self.u8(0);
                self.address(a);
            },
            Owner::ObjectOwner(a) => {
                self.u8(1);
                self.address(a);
            },
            Owner::Shared { initial_shared_version } => {
                self.u8(2);
                self.u64(*initial_shared_version);
            },
            Owner::Immutable => self.u8(3),
            Owner::ConsensusAddressOwner { start_version, owner } => {
                self.u8(4);
                self.u64(*start_version);
                self.address(owner);
            },
            Owner::Party(party) => {
                self.u8(5);
                self.u64(party.start_version);
                self.u64(party.default_permissions);
                self.len_prefix(party.members.len());
                self.members(&party.members);
            },
        }
        assert(self.written() =~= old(self).written() + owner.enc());
    }

    fn members(&mut self, members: &Vec<PartyMember>)
        ensures
            final(self).written() == old(self).written() + enc_all(members@),
    {
        let mut i: usize = 0;
        while i < members.len()
            invariant
                i <= members@.len(),
                self.written() == old(self).written() + enc_all(members@.subrange(0, i as int)),
            decreases members@.len() - i,
        {
            let m = &members[i];
            self.address(&m.address);
            self.raw(m.permissions.0.as_slice());
            proof {
                let sub = members@.subrange(0, i + 1);
                assert(sub.drop_last() =~= members@.subrange(0, i as int));
                assert(self.written() =~= old(self).written() + enc_all(sub));
            }
            i = i + 1;
        }
        assert(members@.subrange(0, i as int) =~= members@);
    }

    pub fn type_tag(&mut self, tag: &TypeTag)
        requires
            fits_tt(*tag),
        ensures
            final(self).written() == old(self).written() + enc_tt(*tag),
        decreases tag,
    {
        match tag {
            TypeTag::Bool => self.u8(0),
            TypeTag::U8 => self.u8(1),
            TypeTag::U64 => self.u8(2),
            TypeTag::U128 => self.u8(3),
            TypeTag::Address => self.u8(4),
            TypeTag::Signer => self.u8(5),
            TypeTag::Vector(inner) => {
                self.u8(6);
                self.type_tag(inner);
            },
            TypeTag::Struct(s) => {
                self.u8(7);
                self.struct_tag(s);
            },
            TypeTag::U16 => self.u8(8),
            TypeTag::U32 => self.u8(9),
            TypeTag::U256 => self.u8(10),
        }
        assert(self.written() =~= old(self).written() + enc_tt(*tag));
    }

    pub fn struct_tag(&mut self, s: &StructTag)
        requires
            fits_st(*s),
        ensures
            final(self).written() == old(self).written() + enc_st(*s),
        decreases s,
    {
        self.account(&s.address);
        self.string(&s.module);
        self.string(&s.name);
        self.len_prefix(s.type_params.len());
        let ghost base = self.written();
        let mut i: usize = 0;
        assert(enc_tt_list(s.type_params@.subrange(0, 0)) =~= Seq::<u8>::empty());
        while i < s.type_params.len()
            invariant
                i <= s.type_params@.len(),
                fits_tt_list(s.type_params@),
                self.written() == base + enc_tt_list(s.type_params@.subrange(0, i as int)),
            decreases s.type_params@.len() - i,
        {
            proof {
                lemma_fits_tt_list(s.type_params@, i as int);
            }
            self.type_tag(&s.type_params[i]);
            proof {
                let sub = s.type_params@.subrange(0, i + 1);
                assert(sub.subrange(0, sub.len() - 1) =~= s.type_params@.subrange(0, i as int));
                assert(self.written() =~= base + enc_tt_list(sub));
            }
            i = i + 1;
        }
        assert(s.type_params@.subrange(0, i as int) =~= s.type_params@);
        assert(self.written() =~= old(self).written() + enc_st(*s));
    }

    pub fn move_location(&mut self, l: &MoveLocation)
        requires
            fits_location(*l),
        ensures
            final(self).written() == old(self).written() + l.enc(),
    {
        self.account(&l.module.address);
        self.string(&l.module.name);
        self.u16(l.function);
        self.u16(l.instruction);
        match &l.function_name {
            Some(name) => {
                self.u8(1);
                self.string(name);
            },
            None => self.u8(0),
        }
        assert(self.written() =~= old(self).written() + l.enc());
    }

    pub fn execution_status(&mut self, status: &ExecutionStatus)
        requires
            fits_status(*status),
        ensures
            final(self).written() == old(self).written() + status.enc(),
    {
        match status {
            ExecutionStatus::Success => self.u8(0),
            ExecutionStatus::Failure { error, command } => {
                self.u8(1);
                self.execution_error(error);
                self.option_u64(*command);
            },
        }
        assert(self.written() =~= old(self).written() + status.enc());
    }

    fn two_u64(&mut self, tag: u8, a: u64, b: u64)
        requires
            tag < 128,
        ensures
            final(self).written() == old(self).written() + enc_uleb(tag as u32) + a.enc() + b.enc(),
    {
        self.u8(tag);
        self.u64(a);
        self.u64(b);
        assert(self.written() =~= old(self).written() + enc_uleb(tag as u32) + a.enc() + b.enc());
    }

    // One arm per variant of a 42-variant enum.
    #[verifier::rlimit(60)]
    pub fn execution_error(&mut self, error: &ExecutionErrorKind)
        requires
            fits_error(*error),
        ensures
            final(self).written() == old(self).written() + error.enc(),
    {
        match error {
            ExecutionErrorKind::InsufficientGas => self.u8(0),
            ExecutionErrorKind::InvalidGasObject => self.u8(1),
            ExecutionErrorKind::InvariantViolation => self.u8(2),
            ExecutionErrorKind::FeatureNotYetSupported => self.u8(3),
            ExecutionErrorKind::MoveObjectTooBig { object_size, max_object_size } => {
                self.two_u64(4, *object_size, *max_object_size);
            },
            ExecutionErrorKind::MovePackageTooBig { object_size, max_object_size } => {
                self.two_u64(5, *object_size, *max_object_size);
            },
            ExecutionErrorKind::CircularObjectOwnership { object } => {
                self.u8(6);
                self.raw(object.0.as_slice());
            },
            ExecutionErrorKind::InsufficientCoinBalance => self.u8(7),
            ExecutionErrorKind::CoinBalanceOverflow => self.u8(8),
            ExecutionErrorKind::PublishErrorNonZeroAddress => self.u8(9),
            ExecutionErrorKind::SuiMoveVerificationError => self.u8(10),
            ExecutionErrorKind::MovePrimitiveRuntimeError(location) => {
                self.u8(11);
                match location {
                    Some(l) => {
                        self.u8(1);
                        self.move_location(l);
                    },
                    None => self.u8(0),
                }
            },
            ExecutionErrorKind::MoveAbort(location, code) => {
                self.u8(12);
                self.move_location(location);
                self.u64(*code);
            },
            ExecutionErrorKind::VMVerificationOrDeserializationError => self.u8(13),
            ExecutionErrorKind::VMInvariantViolation => self.u8(14),
            ExecutionErrorKind::FunctionNotFound => self.u8(15),
            ExecutionErrorKind::ArityMismatch => self.u8(16),
            ExecutionErrorKind::TypeArityMismatch => self.u8(17),
            ExecutionErrorKind::NonEntryFunctionInvoked => self.u8(18),
            ExecutionErrorKind::CommandArgumentError { arg_idx, kind } => {
                self.u8(19);
                self.u16(*arg_idx);
                self.command_argument_error(*kind);
            },
            ExecutionErrorKind::TypeArgumentError { argument_idx, kind } => {
                self.u8(20);
                self.u16(*argument_idx);
                match kind {
                    crate::execution_status::TypeArgumentError::TypeNotFound => self.u8(0),
                    crate::execution_status::TypeArgumentError::ConstraintNotSatisfied => self.u8(1),
                }
            },
            ExecutionErrorKind::UnusedValueWithoutDrop { result_idx, secondary_idx } => {
                self.u8(21);
                self.u16(*result_idx);
                self.u16(*secondary_idx);
            },
            ExecutionErrorKind::InvalidPublicFunctionReturnType { idx } => {
                self.u8(22);
                self.u16(*idx);
            },
            ExecutionErrorKind::InvalidTransferObject => self.u8(23),
            ExecutionErrorKind::EffectsTooLarge { current_size, max_size } => {
                self.two_u64(24, *current_size, *max_size);
            },
            ExecutionErrorKind::PublishUpgradeMissingDependency => self.u8(25),
            ExecutionErrorKind::PublishUpgradeDependencyDowngrade => self.u8(26),
            ExecutionErrorKind::PackageUpgradeError { upgrade_error } => {
                self.u8(27);
                self.package_upgrade_error(upgrade_error);
            },
            ExecutionErrorKind::WrittenObjectsTooLarge { current_size, max_size } => {
                self.two_u64(28, *current_size, *max_size);
            },
            ExecutionErrorKind::CertificateDenied => self.u8(29),
            ExecutionErrorKind::SuiMoveVerificationTimedout => self.u8(30),
            ExecutionErrorKind::SharedObjectOperationNotAllowed => self.u8(31),
            ExecutionErrorKind::InputObjectDeleted => self.u8(32),
            ExecutionErrorKind::ExecutionCancelledDueToSharedObjectCongestion {
                congested_objects,
            } => {
                self.u8(33);
                self.len_prefix(congested_objects.len());
                self.ids(congested_objects);
            },
            ExecutionErrorKind::AddressDeniedForCoin { address, coin_type } => {
                self.u8(34);
                self.address(address);
                self.string(coin_type);
            },
            ExecutionErrorKind::CoinTypeGlobalPause { coin_type } => {
                self.u8(35);
                self.string(coin_type);
            },
            ExecutionErrorKind::ExecutionCancelledDueToRandomnessUnavailable => self.u8(36),
            ExecutionErrorKind::MoveVectorElemTooBig { value_size, max_scaled_size } => {
                self.two_u64(37, *value_size, *max_scaled_size);
            },
            ExecutionErrorKind::MoveRawValueTooBig { value_size, max_scaled_size } => {
                self.two_u64(38, *value_size, *max_scaled_size);
            },
            ExecutionErrorKind::InvalidLinkage => self.u8(39),
            ExecutionErrorKind::InsufficientFundsForWithdraw => self.u8(40),
            ExecutionErrorKind::NonExclusiveWriteInputObjectModified { id } => {
                self.u8(41);
                self.raw(id.0.as_slice());
            },
        }
        assert(self.written() =~= old(self).written() + error.enc());
    }

    fn ids(&mut self, ids: &Vec<crate::base::ObjectId>)
        ensures
            final(self).written() == old(self).written() + enc_all(ids@),
    {
        let mut i: usize = 0;
        while i < ids.len()
            invariant
                i <= ids@.len(),
                self.written() == old(self).written() + enc_all(ids@.subrange(0, i as int)),
            decreases ids@.len() - i,
        {
            self.raw(ids[i].0.as_slice());
            proof {
                let sub = ids@.subrange(0, i + 1);
                assert(sub.drop_last() =~= ids@.subrange(0, i as int));
                assert(self.written() =~= old(self).written() + enc_all(sub));
            }
            i = i + 1;
        }
        assert(ids@.subrange(0, i as int) =~= ids@);
    }

    pub fn command_argument_error(&mut self, kind: CommandArgumentError)
        ensures
            final(self).written() == old(self).written() + kind.enc(),
    {
        match kind {
            CommandArgumentError::TypeMismatch => self.u8(0),
            CommandArgumentError::InvalidBCSBytes => self.u8(1),
            CommandArgumentError::InvalidUsageOfPureArg => self.u8(2),
            CommandArgumentError::InvalidArgumentToPrivateEntryFunction => self.u8(3),
            CommandArgumentError::IndexOutOfBounds { idx } => {
                self.u8(4);
                self.u16(idx);
            },
            CommandArgumentError::SecondaryIndexOutOfBounds { result_idx, secondary_idx } => {
                self.u8(5);
                self.u16(result_idx);
                self.u16(secondary_idx);
            },
            CommandArgumentError::InvalidResultArity { result_idx } => {
                self.u8(6);
                self.u16(result_idx);
            },
            CommandArgumentError::InvalidGasCoinUsage => self.u8(7),
            CommandArgumentError::InvalidValueUsage => self.u8(8),
            CommandArgumentError::InvalidObjectByValue => self.u8(9),
            CommandArgumentError::InvalidObjectByMutRef => self.u8(10),
            CommandArgumentError::SharedObjectOperationNotAllowed => self.u8(11),
            CommandArgumentError::InvalidArgumentArity => self.u8(12),
            CommandArgumentError::InvalidTransferObject => self.u8(13),
            CommandArgumentError::InvalidMakeMoveVecNonObjectArgument => self.u8(14),
            CommandArgumentError::ArgumentWithoutValue => self.u8(15),
            CommandArgumentError::CannotMoveBorrowedValue => self.u8(16),
            CommandArgumentError::CannotWriteToExtendedReference => self.u8(17),
            CommandArgumentError::InvalidReferenceArgument => self.u8(18),
            CommandArgumentError::InvalidTxContext => self.u8(19),
        }
        assert(self.written() =~= old(self).written() + kind.enc());
    }

    pub fn package_upgrade_error(&mut self, error: &PackageUpgradeError)
        requires
            error matches PackageUpgradeError::DigestDoesNotMatch { digest } ==> fits(digest@.len() as int),
        ensures
            final(self).written() == old(self).written() + error.enc(),
    {
        match error {
            PackageUpgradeError::UnableToFetchPackage { package_id } => {
                self.u8(0);
                self.raw(package_id.0.as_slice());
            },
            PackageUpgradeError::NotAPackage { object_id } => {
                self.u8(1);
                self.raw(object_id.0.as_slice());
            },
            PackageUpgradeError::IncompatibleUpgrade => self.u8(2),
            PackageUpgradeError::DigestDoesNotMatch { digest } => {
                self.u8(3);
                self.bytes(digest.as_slice());
            },
            PackageUpgradeError::UnknownUpgradePolicy { policy } => {
                self.u8(4);
                self.u8(*policy);
            },
            PackageUpgradeError::PackageIDDoesNotMatch { package_id, ticket_id } => {
                self.u8(5);
                self.raw(package_id.0.as_slice());
                self.raw(ticket_id.0.as_slice());
            },
        }
        assert(self.written() =~= old(self).written() + error.enc());
    }
}

pub proof fn lemma_fits_tt_list(v: Seq<TypeTag>, i: int)
    requires
        fits_tt_list(v),
        0 <= i < v.len(),
    ensures
        fits_tt(v[i]),
    decreases v.len(),
{
    if i < v.len() - 1 {
        lemma_fits_tt_list(v.subrange(0, v.len() - 1), i);
    }
}

} // verus!
