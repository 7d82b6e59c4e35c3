//! Every well-formed execution status, change and set of effects is
//! accepted whole: the counterpart, for effects, of `accept`.
use vstd::prelude::*;
use crate::accept::{
    lemma_read_tag, lemma_reads_u64, lemma_reads_digest, lemma_reads_option_digest,
    lemma_reads_fixed32_id, lemma_reads_address, lemma_reads_string, lemma_reads_bytes,
    lemma_reads_owner, legal_owner, need_owner, lemma_need_tt_pos,
};
use crate::base::{Digest, ObjectId, ObjectKey, ObjectRef, SuiAddress};
use crate::effects::{
    AccumulatorOperation, AccumulatorValue, AccumulatorWriteV1, EventCommitment, GasCostSummary,
    IdOperation, ObjectChange, ObjectIn, ObjectOut, TransactionEffects, TransactionEffectsV1,
    TransactionEffectsV2, UnchangedConsensusKind, VersionedEffects, rec3, rec4, rec_v1_head,
    rec_v2_head, rec_v2_tail, enc_v1_head, enc_v1_tail, enc_v2_head, enc_v2_tail, sp_digests,
};
use crate::error::ParseError;
use crate::execution_status::{
    CommandArgumentError, ExecutionErrorKind, ExecutionStatus, ModuleId, MoveLocation,
    PackageUpgradeError, TypeArgumentError, rec2,
};
use crate::message::{exact_rec, start};
use crate::reader::{St, adv, nested, then, sp_uleb, MAX_SEQUENCE_LENGTH, MAX_CONTAINER_DEPTH};
use crate::readback::{
    at, ok_past, room, reads, lemma_at_split, lemma_at_index, lemma_at_whole, lemma_read_opt,
    lemma_read_records, lemma_read_seq, lemma_read_rec2, lemma_read_rec3, lemma_read_rec4,
    lemma_reads_more_room,
};
use crate::type_tag::{TypeTag, legal_tt, need_tt, lemma_read_tt, enc_tt};
use crate::wire::{Wire, enc_uleb, enc_seq, encode_utf8, sp_records, sp_seq};

verus! {

/// A variant index alone.
pub proof fn lemma_read_tag_only(tag: u32, s: Seq<u8>, st: St)
    requires
        at(s, st, enc_uleb(tag)),
    ensures
        sp_uleb(s, st) == Ok::<(u32, St), ParseError>((tag, adv(st, enc_uleb(tag).len() as int))),
{
    assert(enc_uleb(tag) =~= enc_uleb(tag) + Seq::<u8>::empty());
    lemma_read_tag(tag, Seq::empty(), s, st);
}

/// A variant index and one value after it.
pub proof fn lemma_read_tagged<T: Wire>(tag: u32, v: T, need: int, s: Seq<u8>, st: St)
    requires
        at(s, st, enc_uleb(tag) + v.enc()),
        reads(v, need),
        room(st, need),
    ensures
        sp_uleb(s, st) == Ok::<(u32, St), ParseError>((tag, adv(st, enc_uleb(tag).len() as int))),
        ok_past(T::rec(s, adv(st, enc_uleb(tag).len() as int)), adv(st, enc_uleb(tag).len() as int), v.enc().len() as int),
{
    lemma_read_tag(tag, v.enc(), s, st);
}

/// A variant index and two values after it.
pub proof fn lemma_read_tagged2<A: Wire, B: Wire>(tag: u32, a: A, b: B, need: int, s: Seq<u8>, st: St)
    requires
        at(s, st, enc_uleb(tag) + a.enc() + b.enc()),
        reads(a, need),
        reads(b, need),
        room(st, need),
    ensures
        sp_uleb(s, st) == Ok::<(u32, St), ParseError>((tag, adv(st, enc_uleb(tag).len() as int))),
        ok_past(rec2::<A, B>(s, adv(st, enc_uleb(tag).len() as int)), adv(st, enc_uleb(tag).len() as int), (a.enc() + b.enc()).len() as int),
{
    assert(enc_uleb(tag) + a.enc() + b.enc() =~= enc_uleb(tag) + (a.enc() + b.enc()));
    lemma_read_tag(tag, a.enc() + b.enc(), s, st);
    lemma_read_rec2(a, b, need, s, adv(st, enc_uleb(tag).len() as int));
}

pub proof fn lemma_reads_u16(v: u16)
    ensures
        reads(v, 0),
{
}

pub proof fn lemma_reads_option<T: Wire>(o: Option<T>, need: int)
    requires
        o matches Some(x) ==> reads(x, need),
    ensures
        reads(o, need),
{
    assert forall|s: Seq<u8>, st: St| at(s, st, o.enc()) && room(st, need) implies ok_past(
        Option::<T>::rec(s, st),
        st,
        o.enc().len() as int,
    ) by {
        lemma_read_opt(o, need, s, st);
    }
}

// ---------------------------------------------------------------------
// Execution status.

pub proof fn lemma_reads_command_argument_error(e: CommandArgumentError)
    ensures
        reads(e, 0),
{
    assert forall|s: Seq<u8>, st: St| at(s, st, e.enc()) && room(st, 0) implies ok_past(
        CommandArgumentError::rec(s, st),
        st,
        e.enc().len() as int,
    ) by {
        match e {
            CommandArgumentError::IndexOutOfBounds { idx } => lemma_read_tagged(4, idx, 0, s, st),
            CommandArgumentError::SecondaryIndexOutOfBounds { result_idx, secondary_idx } => {
                lemma_read_tagged2(5, result_idx, secondary_idx, 0, s, st)
            },
            CommandArgumentError::InvalidResultArity { result_idx } => lemma_read_tagged(6, result_idx, 0, s, st),
            CommandArgumentError::TypeMismatch => lemma_read_tag_only(0, s, st),
            CommandArgumentError::InvalidBCSBytes => lemma_read_tag_only(1, s, st),
            CommandArgumentError::InvalidUsageOfPureArg => lemma_read_tag_only(2, s, st),
            CommandArgumentError::InvalidArgumentToPrivateEntryFunction => lemma_read_tag_only(3, s, st),
            CommandArgumentError::InvalidGasCoinUsage => lemma_read_tag_only(7, s, st),
            CommandArgumentError::InvalidValueUsage => lemma_read_tag_only(8, s, st),
            CommandArgumentError::InvalidObjectByValue => lemma_read_tag_only(9, s, st),
            CommandArgumentError::InvalidObjectByMutRef => lemma_read_tag_only(10, s, st),
            CommandArgumentError::SharedObjectOperationNotAllowed => lemma_read_tag_only(11, s, st),
            CommandArgumentError::InvalidArgumentArity => lemma_read_tag_only(12, s, st),
            CommandArgumentError::InvalidTransferObject => lemma_read_tag_only(13, s, st),
            CommandArgumentError::InvalidMakeMoveVecNonObjectArgument => lemma_read_tag_only(14, s, st),
            CommandArgumentError::ArgumentWithoutValue => lemma_read_tag_only(15, s, st),
            CommandArgumentError::CannotMoveBorrowedValue => lemma_read_tag_only(16, s, st),
            CommandArgumentError::CannotWriteToExtendedReference => lemma_read_tag_only(17, s, st),
            CommandArgumentError::InvalidReferenceArgument => lemma_read_tag_only(18, s, st),
            CommandArgumentError::InvalidTxContext => lemma_read_tag_only(19, s, st),
        }
    }
}

pub proof fn lemma_reads_type_argument_error(e: TypeArgumentError)
    ensures
        reads(e, 0),
{
    assert forall|s: Seq<u8>, st: St| at(s, st, e.enc()) && room(st, 0) implies ok_past(
        TypeArgumentError::rec(s, st),
        st,
        e.enc().len() as int,
    ) by {
        match e {
            TypeArgumentError::TypeNotFound => lemma_read_tag_only(0, s, st),
            TypeArgumentError::ConstraintNotSatisfied => lemma_read_tag_only(1, s, st),
        }
    }
}

pub open spec fn legal_upgrade_error(e: PackageUpgradeError) -> bool {
    e matches PackageUpgradeError::DigestDoesNotMatch { digest } ==> digest@.len() <= MAX_SEQUENCE_LENGTH
}

pub proof fn lemma_reads_upgrade_error(e: PackageUpgradeError)
    requires
        legal_upgrade_error(e),
    ensures
        reads(e, 0),
{
    assert forall|s: Seq<u8>, st: St| at(s, st, e.enc()) && room(st, 0) implies ok_past(
        PackageUpgradeError::rec(s, st),
        st,
        e.enc().len() as int,
    ) by {
        match e {
            PackageUpgradeError::UnableToFetchPackage { package_id } => {
                lemma_reads_fixed32_id(package_id);
                lemma_read_tagged(0, package_id, 0, s, st);
            },
            PackageUpgradeError::NotAPackage { object_id } => {
                lemma_reads_fixed32_id(object_id);
                lemma_read_tagged(1, object_id, 0, s, st);
            },
            PackageUpgradeError::IncompatibleUpgrade => lemma_read_tag_only(2, s, st),
            PackageUpgradeError::DigestDoesNotMatch { digest } => {
                lemma_reads_bytes(digest);
                lemma_read_tagged(3, digest, 0, s, st);
            },
            PackageUpgradeError::UnknownUpgradePolicy { policy } => {
                lemma_read_tagged(4, policy, 0, s, st);
            },
            PackageUpgradeError::PackageIDDoesNotMatch { package_id, ticket_id } => {
                lemma_reads_fixed32_id(package_id);
                lemma_reads_fixed32_id(ticket_id);
                lemma_read_tagged2(5, package_id, ticket_id, 0, s, st);
            },
        }
    }
}

pub open spec fn legal_location(l: MoveLocation) -> bool {
    &&& encode_utf8(l.module.name@).len() <= MAX_SEQUENCE_LENGTH
    &&& (l.function_name matches Some(n) ==> encode_utf8(n@).len() <= MAX_SEQUENCE_LENGTH)
}

pub proof fn lemma_reads_location(l: MoveLocation)
    requires
        legal_location(l),
    ensures
        reads(l, 0),
{
    lemma_reads_string(l.module.name);
    if let Some(n) = l.function_name {
        lemma_reads_string(n);
    }
    lemma_reads_option(l.function_name, 0);
    assert forall|s: Seq<u8>, st: St| at(s, st, l.enc()) && room(st, 0) implies ok_past(
        MoveLocation::rec(s, st),
        st,
        l.enc().len() as int,
    ) by {
        let a = l.module.enc();
        let b = l.function.enc() + l.instruction.enc();
        let c = l.function_name.enc();
        assert(l.enc() =~= a + (b + c));
        lemma_at_split(s, st, a, b + c);
        lemma_read_rec2(l.module.address, l.module.name, 0, s, st);
        let st1 = ModuleId::rec(s, st)->Ok_0;
        assert(at(s, st1, b + c));
        lemma_at_split(s, st1, b, c);
        lemma_read_rec2(l.function, l.instruction, 0, s, st1);
        let st2 = rec2::<u16, u16>(s, st1)->Ok_0;
        assert(at(s, st2, c));
    }
}

pub open spec fn legal_error(e: ExecutionErrorKind) -> bool {
    match e {
        ExecutionErrorKind::MovePrimitiveRuntimeError(loc) => loc matches Some(l) ==> legal_location(l),
        ExecutionErrorKind::MoveAbort(loc, _) => legal_location(loc),
        ExecutionErrorKind::PackageUpgradeError { upgrade_error } => legal_upgrade_error(upgrade_error),
        ExecutionErrorKind::ExecutionCancelledDueToSharedObjectCongestion { congested_objects } => {
            congested_objects@.len() <= MAX_SEQUENCE_LENGTH
        },
        ExecutionErrorKind::AddressDeniedForCoin { coin_type, .. } => encode_utf8(coin_type@).len()
            <= MAX_SEQUENCE_LENGTH,
        ExecutionErrorKind::CoinTypeGlobalPause { coin_type } => encode_utf8(coin_type@).len()
            <= MAX_SEQUENCE_LENGTH,
        _ => true,
    }
}

/// The variant index of an error kind.
pub open spec fn error_tag(e: ExecutionErrorKind) -> u32 {
    match e {
        ExecutionErrorKind::InsufficientGas => 0,
        ExecutionErrorKind::InvalidGasObject => 1,
        ExecutionErrorKind::InvariantViolation => 2,
        ExecutionErrorKind::FeatureNotYetSupported => 3,
        ExecutionErrorKind::MoveObjectTooBig { .. } => 4,
        ExecutionErrorKind::MovePackageTooBig { .. } => 5,
        ExecutionErrorKind::CircularObjectOwnership { .. } => 6,
        ExecutionErrorKind::InsufficientCoinBalance => 7,
        ExecutionErrorKind::CoinBalanceOverflow => 8,
        ExecutionErrorKind::PublishErrorNonZeroAddress => 9,
        ExecutionErrorKind::SuiMoveVerificationError => 10,
        ExecutionErrorKind::MovePrimitiveRuntimeError(_) => 11,
        ExecutionErrorKind::MoveAbort(_, _) => 12,
        ExecutionErrorKind::VMVerificationOrDeserializationError => 13,
        ExecutionErrorKind::VMInvariantViolation => 14,
        ExecutionErrorKind::FunctionNotFound => 15,
        ExecutionErrorKind::ArityMismatch => 16,
        ExecutionErrorKind::TypeArityMismatch => 17,
        ExecutionErrorKind::NonEntryFunctionInvoked => 18,
        ExecutionErrorKind::CommandArgumentError { .. } => 19,
        ExecutionErrorKind::TypeArgumentError { .. } => 20,
        ExecutionErrorKind::UnusedValueWithoutDrop { .. } => 21,
        ExecutionErrorKind::InvalidPublicFunctionReturnType { .. } => 22,
        ExecutionErrorKind::InvalidTransferObject => 23,
        ExecutionErrorKind::EffectsTooLarge { .. } => 24,
        ExecutionErrorKind::PublishUpgradeMissingDependency => 25,
        ExecutionErrorKind::PublishUpgradeDependencyDowngrade => 26,
        ExecutionErrorKind::PackageUpgradeError { .. } => 27,
        ExecutionErrorKind::WrittenObjectsTooLarge { .. } => 28,
        ExecutionErrorKind::CertificateDenied => 29,
        ExecutionErrorKind::SuiMoveVerificationTimedout => 30,
        ExecutionErrorKind::SharedObjectOperationNotAllowed => 31,
        ExecutionErrorKind::InputObjectDeleted => 32,
        ExecutionErrorKind::ExecutionCancelledDueToSharedObjectCongestion { .. } => 33,
        ExecutionErrorKind::AddressDeniedForCoin { .. } => 34,
        ExecutionErrorKind::CoinTypeGlobalPause { .. } => 35,
        ExecutionErrorKind::ExecutionCancelledDueToRandomnessUnavailable => 36,
        ExecutionErrorKind::MoveVectorElemTooBig { .. } => 37,
        ExecutionErrorKind::MoveRawValueTooBig { .. } => 38,
        ExecutionErrorKind::InvalidLinkage => 39,
        ExecutionErrorKind::InsufficientFundsForWithdraw => 40,
        ExecutionErrorKind::NonExclusiveWriteInputObjectModified { .. } => 41,
    }
}

/// The error kinds that are two numbers.
#[verifier::spinoff_prover]
proof fn lemma_read_error_numbers(e: ExecutionErrorKind, s: Seq<u8>, st: St)
    requires
        at(s, st, e.enc()),
        room(st, 0),
        e is MoveObjectTooBig || e is MovePackageTooBig || e is EffectsTooLarge
            || e is WrittenObjectsTooLarge || e is MoveVectorElemTooBig || e is MoveRawValueTooBig,
    ensures
        ok_past(ExecutionErrorKind::rec(s, st), st, e.enc().len() as int),
{
    match e {
        ExecutionErrorKind::MoveObjectTooBig { object_size: a, max_object_size: b } => {
            lemma_reads_u64(a);
            lemma_reads_u64(b);
            lemma_read_tagged2(4, a, b, 0, s, st);
        },
        ExecutionErrorKind::MovePackageTooBig { object_size: a, max_object_size: b } => {
            lemma_reads_u64(a);
            lemma_reads_u64(b);
            lemma_read_tagged2(5, a, b, 0, s, st);
        },
        ExecutionErrorKind::EffectsTooLarge { current_size: a, max_size: b } => {
            lemma_reads_u64(a);
            lemma_reads_u64(b);
            lemma_read_tagged2(24, a, b, 0, s, st);
        },
        ExecutionErrorKind::WrittenObjectsTooLarge { current_size: a, max_size: b } => {
            lemma_reads_u64(a);
            lemma_reads_u64(b);
            lemma_read_tagged2(28, a, b, 0, s, st);
        },
        ExecutionErrorKind::MoveVectorElemTooBig { value_size: a, max_scaled_size: b } => {
            lemma_reads_u64(a);
            lemma_reads_u64(b);
            lemma_read_tagged2(37, a, b, 0, s, st);
        },
        ExecutionErrorKind::MoveRawValueTooBig { value_size: a, max_scaled_size: b } => {
            lemma_reads_u64(a);
            lemma_reads_u64(b);
            lemma_read_tagged2(38, a, b, 0, s, st);
        },
        _ => {},
    }
}

/// The error kinds that locate a failure in Move code.
#[verifier::spinoff_prover]
proof fn lemma_read_error_code(e: ExecutionErrorKind, s: Seq<u8>, st: St)
    requires
        legal_error(e),
        at(s, st, e.enc()),
        room(st, 0),
        e is MovePrimitiveRuntimeError || e is MoveAbort,
    ensures
        ok_past(ExecutionErrorKind::rec(s, st), st, e.enc().len() as int),
{
    match e {
        ExecutionErrorKind::MovePrimitiveRuntimeError(loc) => {
            if let Some(l) = loc {
                lemma_reads_location(l);
            }
            lemma_reads_option(loc, 0);
            lemma_read_tagged(11, loc, 0, s, st);
        },
        ExecutionErrorKind::MoveAbort(loc, code) => {
            lemma_reads_location(loc);
            lemma_reads_u64(code);
            lemma_read_tagged2(12, loc, code, 0, s, st);
        },
        _ => {},
    }
}

/// The error kinds about a command's arguments and results.
#[verifier::spinoff_prover]
proof fn lemma_read_error_arguments(e: ExecutionErrorKind, s: Seq<u8>, st: St)
    requires
        at(s, st, e.enc()),
        room(st, 0),
        e is CommandArgumentError || e is TypeArgumentError || e is UnusedValueWithoutDrop
            || e is InvalidPublicFunctionReturnType,
    ensures
        ok_past(ExecutionErrorKind::rec(s, st), st, e.enc().len() as int),
{
    match e {
        ExecutionErrorKind::CommandArgumentError { arg_idx, kind } => {
            lemma_reads_command_argument_error(kind);
            lemma_reads_u16(arg_idx);
            lemma_read_tagged2(19, arg_idx, kind, 0, s, st);
        },
        ExecutionErrorKind::TypeArgumentError { argument_idx, kind } => {
            lemma_reads_type_argument_error(kind);
            lemma_reads_u16(argument_idx);
            lemma_read_tagged2(20, argument_idx, kind, 0, s, st);
        },
        ExecutionErrorKind::UnusedValueWithoutDrop { result_idx, secondary_idx } => {
            lemma_reads_u16(result_idx);
            lemma_reads_u16(secondary_idx);
            lemma_read_tagged2(21, result_idx, secondary_idx, 0, s, st);
        },
        ExecutionErrorKind::InvalidPublicFunctionReturnType { idx } => {
            lemma_reads_u16(idx);
            lemma_read_tagged(22, idx, 0, s, st);
        },
        _ => {},
    }
}

/// The error kinds that carry ids, addresses, names or an upgrade error.
#[verifier::spinoff_prover]
proof fn lemma_read_error_objects(e: ExecutionErrorKind, s: Seq<u8>, st: St)
    requires
        legal_error(e),
        at(s, st, e.enc()),
        room(st, 0),
        e is CircularObjectOwnership || e is NonExclusiveWriteInputObjectModified
            || e is PackageUpgradeError || e is ExecutionCancelledDueToSharedObjectCongestion
            || e is AddressDeniedForCoin || e is CoinTypeGlobalPause,
    ensures
        ok_past(ExecutionErrorKind::rec(s, st), st, e.enc().len() as int),
{
    match e {
        ExecutionErrorKind::CircularObjectOwnership { object } => {
            lemma_reads_fixed32_id(object);
            lemma_read_tagged(6, object, 0, s, st);
        },
        ExecutionErrorKind::NonExclusiveWriteInputObjectModified { id } => {
            lemma_reads_fixed32_id(id);
            lemma_read_tagged(41, id, 0, s, st);
        },
        ExecutionErrorKind::PackageUpgradeError { upgrade_error } => {
            lemma_reads_upgrade_error(upgrade_error);
            lemma_read_tagged(27, upgrade_error, 0, s, st);
        },
        ExecutionErrorKind::ExecutionCancelledDueToSharedObjectCongestion { congested_objects } => {
            let v = congested_objects@;
            assert forall|i: int| 0 <= i < v.len() implies #[trigger] reads(v[i], 0) by {
                lemma_reads_fixed32_id(v[i]);
            }
            lemma_read_tag(33, enc_seq(v), s, st);
            lemma_read_records(v, 32, 0, s, adv(st, 1));
        },
        ExecutionErrorKind::AddressDeniedForCoin { address, coin_type } => {
            lemma_reads_address(address);
            lemma_reads_string(coin_type);
            lemma_read_tagged2(34, address, coin_type, 0, s, st);
        },
        ExecutionErrorKind::CoinTypeGlobalPause { coin_type } => {
            lemma_reads_string(coin_type);
            lemma_read_tagged(35, coin_type, 0, s, st);
        },
        _ => {},
    }
}

/// The error kinds with nothing after their variant index.
#[verifier::spinoff_prover]
proof fn lemma_read_error_unit(e: ExecutionErrorKind, s: Seq<u8>, st: St)
    requires
        at(s, st, e.enc()),
        room(st, 0),
    ensures
        (e is InsufficientGas || e is InvalidGasObject || e is InvariantViolation
            || e is FeatureNotYetSupported || e is InsufficientCoinBalance || e is CoinBalanceOverflow
            || e is PublishErrorNonZeroAddress || e is SuiMoveVerificationError
            || e is VMVerificationOrDeserializationError || e is VMInvariantViolation
            || e is FunctionNotFound || e is ArityMismatch || e is TypeArityMismatch
            || e is NonEntryFunctionInvoked || e is InvalidTransferObject
            || e is PublishUpgradeMissingDependency || e is PublishUpgradeDependencyDowngrade
            || e is CertificateDenied || e is SuiMoveVerificationTimedout
            || e is SharedObjectOperationNotAllowed || e is InputObjectDeleted
            || e is ExecutionCancelledDueToRandomnessUnavailable || e is InvalidLinkage
            || e is InsufficientFundsForWithdraw)
            ==> ok_past(ExecutionErrorKind::rec(s, st), st, e.enc().len() as int),
{
    match e {
        ExecutionErrorKind::InsufficientGas => lemma_read_tag_only(0, s, st),
        ExecutionErrorKind::InvalidGasObject => lemma_read_tag_only(1, s, st),
        ExecutionErrorKind::InvariantViolation => lemma_read_tag_only(2, s, st),
        ExecutionErrorKind::FeatureNotYetSupported => lemma_read_tag_only(3, s, st),
        ExecutionErrorKind::InsufficientCoinBalance => lemma_read_tag_only(7, s, st),
        ExecutionErrorKind::CoinBalanceOverflow => lemma_read_tag_only(8, s, st),
        ExecutionErrorKind::PublishErrorNonZeroAddress => lemma_read_tag_only(9, s, st),
        ExecutionErrorKind::SuiMoveVerificationError => lemma_read_tag_only(10, s, st),
        ExecutionErrorKind::VMVerificationOrDeserializationError => lemma_read_tag_only(13, s, st),
        ExecutionErrorKind::VMInvariantViolation => lemma_read_tag_only(14, s, st),
        ExecutionErrorKind::FunctionNotFound => lemma_read_tag_only(15, s, st),
        ExecutionErrorKind::ArityMismatch => lemma_read_tag_only(16, s, st),
        ExecutionErrorKind::TypeArityMismatch => lemma_read_tag_only(17, s, st),
        ExecutionErrorKind::NonEntryFunctionInvoked => lemma_read_tag_only(18, s, st),
        ExecutionErrorKind::InvalidTransferObject => lemma_read_tag_only(23, s, st),
        ExecutionErrorKind::PublishUpgradeMissingDependency => lemma_read_tag_only(25, s, st),
        ExecutionErrorKind::PublishUpgradeDependencyDowngrade => lemma_read_tag_only(26, s, st),
        ExecutionErrorKind::CertificateDenied => lemma_read_tag_only(29, s, st),
        ExecutionErrorKind::SuiMoveVerificationTimedout => lemma_read_tag_only(30, s, st),
        ExecutionErrorKind::SharedObjectOperationNotAllowed => lemma_read_tag_only(31, s, st),
        ExecutionErrorKind::InputObjectDeleted => lemma_read_tag_only(32, s, st),
        ExecutionErrorKind::ExecutionCancelledDueToRandomnessUnavailable => lemma_read_tag_only(36, s, st),
        ExecutionErrorKind::InvalidLinkage => lemma_read_tag_only(39, s, st),
        ExecutionErrorKind::InsufficientFundsForWithdraw => lemma_read_tag_only(40, s, st),
        _ => {},
    }
}

pub proof fn lemma_reads_error(e: ExecutionErrorKind)
    requires
        legal_error(e),
    ensures
        reads(e, 0),
{
    assert forall|s: Seq<u8>, st: St| at(s, st, e.enc()) && room(st, 0) implies ok_past(
        ExecutionErrorKind::rec(s, st),
        st,
        e.enc().len() as int,
    ) by {
        if e is MoveObjectTooBig || e is MovePackageTooBig || e is EffectsTooLarge
            || e is WrittenObjectsTooLarge || e is MoveVectorElemTooBig || e is MoveRawValueTooBig {
            lemma_read_error_numbers(e, s, st);
        } else if e is MovePrimitiveRuntimeError || e is MoveAbort {
            lemma_read_error_code(e, s, st);
        } else if e is CommandArgumentError || e is TypeArgumentError || e is UnusedValueWithoutDrop
            || e is InvalidPublicFunctionReturnType {
            lemma_read_error_arguments(e, s, st);
        } else if e is CircularObjectOwnership || e is NonExclusiveWriteInputObjectModified
            || e is PackageUpgradeError || e is ExecutionCancelledDueToSharedObjectCongestion
            || e is AddressDeniedForCoin || e is CoinTypeGlobalPause {
            lemma_read_error_objects(e, s, st);
        } else {
            lemma_read_error_unit(e, s, st);
        }
    }
}

pub open spec fn legal_status(x: ExecutionStatus) -> bool {
    x matches ExecutionStatus::Failure { error, .. } ==> legal_error(error)
}

pub proof fn lemma_reads_status(x: ExecutionStatus)
    requires
        legal_status(x),
    ensures
        reads(x, 0),
{
    assert forall|s: Seq<u8>, st: St| at(s, st, x.enc()) && room(st, 0) implies ok_past(
        ExecutionStatus::rec(s, st),
        st,
        x.enc().len() as int,
    ) by {
        match x {
            ExecutionStatus::Success => lemma_read_tag_only(0, s, st),
            ExecutionStatus::Failure { error, command } => {
                lemma_reads_error(error);
                if let Some(c) = command {
                    lemma_reads_u64(c);
                }
                lemma_reads_option(command, 0);
                lemma_read_tagged2(1, error, command, 0, s, st);
            },
        }
    }
}

// ---------------------------------------------------------------------
// Changes.

pub proof fn lemma_reads_gas(g: GasCostSummary)
    ensures
        reads(g, 0),
{
}

pub proof fn lemma_reads_object_key(k: ObjectKey)
    ensures
        reads(k, 0),
        k.enc().len() == 40,
{
}

pub proof fn lemma_reads_object_ref(r: ObjectRef)
    ensures
        reads(r, 0),
        r.enc().len() == 73,
{
    assert forall|s: Seq<u8>, st: St| at(s, st, r.enc()) && room(st, 0) implies ok_past(
        ObjectRef::rec(s, st),
        st,
        r.enc().len() as int,
    ) by {
        lemma_at_index(s, st, r.enc(), 40);
    }
}

pub proof fn lemma_reads_event_commitment(c: EventCommitment)
    ensures
        reads(c, 0),
        c.enc().len() == 41,
{
    assert forall|s: Seq<u8>, st: St| at(s, st, c.enc()) && room(st, 0) implies ok_past(
        EventCommitment::rec(s, st),
        st,
        c.enc().len() as int,
    ) by {
        lemma_at_index(s, st, c.enc(), 8);
    }
}

/// An owned reference: the reference, then its owner.
pub proof fn lemma_reads_owned_ref(p: (ObjectRef, crate::object::Owner))
    requires
        legal_owner(p.1),
    ensures
        reads(p, 2),
        p.enc().len() >= 74,
{
    lemma_reads_object_ref(p.0);
    lemma_reads_owner(p.1);
    lemma_reads_more_room(p.0, 0, 2);
    lemma_reads_more_room(p.1, need_owner(p.1), 2);
    crate::wire_size::lemma_owner_min_wire_size(p.1);
    assert forall|s: Seq<u8>, st: St| at(s, st, p.enc()) && room(st, 2) implies ok_past(
        <(ObjectRef, crate::object::Owner)>::rec(s, st),
        st,
        p.enc().len() as int,
    ) by {
        lemma_read_rec2(p.0, p.1, 2, s, st);
    }
}

pub open spec fn legal_in(i: ObjectIn) -> bool {
    i matches ObjectIn::Exist { owner, .. } ==> legal_owner(owner)
}

pub proof fn lemma_reads_in(i: ObjectIn)
    requires
        legal_in(i),
    ensures
        reads(i, 2),
{
    assert forall|s: Seq<u8>, st: St| at(s, st, i.enc()) && room(st, 2) implies ok_past(
        ObjectIn::rec(s, st),
        st,
        i.enc().len() as int,
    ) by {
        match i {
            ObjectIn::NotExist => lemma_read_tag_only(0, s, st),
            ObjectIn::Exist { version, digest, owner } => {
                lemma_reads_u64(version);
                lemma_reads_digest(digest);
                lemma_reads_owner(owner);
                lemma_reads_more_room(version, 0, 2);
                lemma_reads_more_room(digest, 0, 2);
                lemma_reads_more_room(owner, need_owner(owner), 2);
                assert(i.enc() =~= enc_uleb(1) + (version.enc() + digest.enc() + owner.enc()));
                lemma_read_tag(1, version.enc() + digest.enc() + owner.enc(), s, st);
                lemma_read_rec3(version, digest, owner, 2, s, adv(st, 1));
            },
        }
    }
}

pub proof fn lemma_reads_accumulator_value(v: AccumulatorValue)
    requires
        v matches AccumulatorValue::EventDigest(c) ==> c@.len() <= MAX_SEQUENCE_LENGTH,
    ensures
        reads(v, 0),
{
    assert forall|s: Seq<u8>, st: St| at(s, st, v.enc()) && room(st, 0) implies ok_past(
        AccumulatorValue::rec(s, st),
        st,
        v.enc().len() as int,
    ) by {
        match v {
            AccumulatorValue::Integer(x) => {
                lemma_reads_u64(x);
                lemma_read_tagged(0, x, 0, s, st);
            },
            AccumulatorValue::IntegerTuple(a, b) => {
                lemma_reads_u64(a);
                lemma_reads_u64(b);
                lemma_read_tagged2(1, a, b, 0, s, st);
            },
            AccumulatorValue::EventDigest(c) => {
                let w = c@;
                assert forall|k: int| 0 <= k < w.len() implies #[trigger] reads(w[k], 0) by {
                    lemma_reads_event_commitment(w[k]);
                }
                assert forall|k: int| 0 <= k < w.len() implies (#[trigger] w[k].enc()).len() == 41 by {
                    lemma_reads_event_commitment(w[k]);
                }
                lemma_read_tag(2, enc_seq(w), s, st);
                lemma_read_records(w, 41, 0, s, adv(st, 1));
            },
        }
    }
}

pub open spec fn legal_accumulator(a: AccumulatorWriteV1) -> bool {
    &&& legal_tt(a.ty)
    &&& (a.value matches AccumulatorValue::EventDigest(c) ==> c@.len() <= MAX_SEQUENCE_LENGTH)
}

/// The write's container, the address's, and the type's levels.
pub open spec fn need_accumulator(a: AccumulatorWriteV1) -> int {
    2 + need_tt(a.ty)
}

/// The inside of the address container of a write.
proof fn lemma_read_accumulator_address(a: AccumulatorWriteV1, s: Seq<u8>, st2: St)
    requires
        legal_accumulator(a),
        at(s, st2, a.address.enc() + enc_tt(a.ty)),
        room(st2, need_tt(a.ty)),
    ensures
        ok_past(rec2::<SuiAddress, TypeTag>(s, st2), st2, (a.address.enc() + enc_tt(a.ty)).len() as int),
{
    lemma_at_split(s, st2, a.address.enc(), enc_tt(a.ty));
    lemma_read_tt(a.ty, s, adv(st2, 32));
}

#[verifier::spinoff_prover]
#[verifier::rlimit(40)]
pub proof fn lemma_reads_accumulator(a: AccumulatorWriteV1)
    requires
        legal_accumulator(a),
    ensures
        reads(a, need_accumulator(a)),
{
    lemma_need_tt_pos(a.ty);
    lemma_reads_accumulator_value(a.value);
    assert(reads(a.operation, 0)) by {
        assert forall|s: Seq<u8>, st: St| at(s, st, a.operation.enc()) && room(st, 0) implies ok_past(
            AccumulatorOperation::rec(s, st),
            st,
            a.operation.enc().len() as int,
        ) by {
            match a.operation {
                AccumulatorOperation::Merge => lemma_read_tag_only(0, s, st),
                AccumulatorOperation::Split => lemma_read_tag_only(1, s, st),
            }
        }
    }
    assert forall|s: Seq<u8>, st: St| at(s, st, a.enc()) && room(st, need_accumulator(a)) implies ok_past(
        AccumulatorWriteV1::rec(s, st),
        st,
        a.enc().len() as int,
    ) by {
        let x = a.address.enc() + enc_tt(a.ty);
        let y = a.operation.enc() + a.value.enc();
        assert(a.enc() =~= x + y);
        let st1 = St { depth: st.depth + 1, ..st };
        let st2 = St { depth: st.depth + 2, ..st };
        assert(at(s, st2, x + y));
        lemma_at_split(s, st2, x, y);
        lemma_read_accumulator_address(a, s, st2);
        let st3 = nested(st1, |st2: St| rec2::<SuiAddress, TypeTag>(s, st2))->Ok_0;
        assert(at(s, st3, y) && room(st3, 0));
        lemma_read_rec2(a.operation, a.value, 0, s, st3);
    }
}

pub open spec fn legal_out(o: ObjectOut) -> bool {
    match o {
        ObjectOut::ObjectWrite(_, owner) => legal_owner(owner),
        ObjectOut::AccumulatorWriteV1(w) => legal_accumulator(w),
        _ => true,
    }
}

/// Its own level, and those of what it holds.
pub open spec fn need_out(o: ObjectOut) -> int {
    1 + match o {
        ObjectOut::ObjectWrite(_, owner) => need_owner(owner),
        ObjectOut::AccumulatorWriteV1(w) => need_accumulator(w),
        _ => 0,
    }
}

pub proof fn lemma_reads_out(o: ObjectOut)
    requires
        legal_out(o),
    ensures
        reads(o, need_out(o)),
        need_out(o) >= 1,
{
    if let ObjectOut::AccumulatorWriteV1(w) = o {
        lemma_need_tt_pos(w.ty);
    }
    assert forall|s: Seq<u8>, st: St| at(s, st, o.enc()) && room(st, need_out(o)) implies ok_past(
        ObjectOut::rec(s, st),
        st,
        o.enc().len() as int,
    ) by {
        let st1 = St { depth: st.depth + 1, ..st };
        assert(at(s, st1, o.enc()));
        match o {
            ObjectOut::NotExist => lemma_read_tag_only(0, s, st1),
            ObjectOut::ObjectWrite(d, owner) => {
                lemma_reads_digest(d);
                lemma_reads_owner(owner);
                lemma_reads_more_room(d, 0, need_owner(owner));
                lemma_read_tagged2(1, d, owner, need_owner(owner), s, st1);
            },
            ObjectOut::PackageWrite(v, d) => {
                lemma_reads_u64(v);
                lemma_reads_digest(d);
                lemma_read_tagged2(2, v, d, 0, s, st1);
            },
            ObjectOut::AccumulatorWriteV1(w) => {
                lemma_reads_accumulator(w);
                lemma_read_tagged(3, w, need_accumulator(w), s, st1);
            },
        }
    }
}

pub proof fn lemma_reads_id_operation(op: IdOperation)
    ensures
        reads(op, 0),
{
    assert forall|s: Seq<u8>, st: St| at(s, st, op.enc()) && room(st, 0) implies ok_past(
        IdOperation::rec(s, st),
        st,
        op.enc().len() as int,
    ) by {
        match op {
            IdOperation::NoChange => lemma_read_tag_only(0, s, st),
            IdOperation::Created => lemma_read_tag_only(1, s, st),
            IdOperation::Deleted => lemma_read_tag_only(2, s, st),
        }
    }
}

pub open spec fn legal_change(c: ObjectChange) -> bool {
    legal_in(c.input_state) && legal_out(c.output_state)
}

/// The level around the three states, and the deepest of them.
pub open spec fn need_change(c: ObjectChange) -> int {
    1 + if need_out(c.output_state) > 2 {
        need_out(c.output_state)
    } else {
        2
    }
}

pub proof fn lemma_reads_change(c: ObjectChange)
    requires
        legal_change(c),
    ensures
        reads(c, need_change(c)),
{
    let k = need_change(c) - 1;
    lemma_reads_fixed32_id(c.id);
    lemma_reads_in(c.input_state);
    lemma_reads_out(c.output_state);
    lemma_reads_id_operation(c.id_operation);
    lemma_reads_more_room(c.input_state, 2, k);
    lemma_reads_more_room(c.output_state, need_out(c.output_state), k);
    lemma_reads_more_room(c.id_operation, 0, k);
    assert forall|s: Seq<u8>, st: St| at(s, st, c.enc()) && room(st, need_change(c)) implies ok_past(
        ObjectChange::rec(s, st),
        st,
        c.enc().len() as int,
    ) by {
        let x = c.input_state.enc() + c.output_state.enc() + c.id_operation.enc();
        assert(c.enc() =~= c.id.enc() + x);
        lemma_at_split(s, st, c.id.enc(), x);
        let st1 = ObjectId::rec(s, st)->Ok_0;
        let st2 = St { depth: st1.depth + 1, ..st1 };
        assert(at(s, st2, x));
        lemma_read_rec3(c.input_state, c.output_state, c.id_operation, k, s, st2);
    }
}

pub proof fn lemma_reads_unchanged(p: (ObjectId, UnchangedConsensusKind))
    ensures
        reads(p, 0),
        p.enc().len() >= 33,
{
    lemma_reads_fixed32_id(p.0);
    assert(reads(p.1, 0)) by {
        assert forall|s: Seq<u8>, st: St| at(s, st, p.1.enc()) && room(st, 0) implies ok_past(
            UnchangedConsensusKind::rec(s, st),
            st,
            p.1.enc().len() as int,
        ) by {
            match p.1 {
                UnchangedConsensusKind::ReadOnlyRoot(v, d) => {
                    lemma_reads_u64(v);
                    lemma_reads_digest(d);
                    lemma_read_tagged2(0, v, d, 0, s, st);
                },
                UnchangedConsensusKind::MutateConsensusStreamEnded(v) => {
                    lemma_reads_u64(v);
                    lemma_read_tagged(1, v, 0, s, st);
                },
                UnchangedConsensusKind::ReadConsensusStreamEnded(v) => {
                    lemma_reads_u64(v);
                    lemma_read_tagged(2, v, 0, s, st);
                },
                UnchangedConsensusKind::Cancelled(v) => {
                    lemma_reads_u64(v);
                    lemma_read_tagged(3, v, 0, s, st);
                },
                UnchangedConsensusKind::PerEpochConfig => lemma_read_tag_only(4, s, st),
            }
        }
    }
    assert(p.1.enc().len() >= 1) by {
        reveal_with_fuel(enc_uleb, 1);
    }
    assert forall|s: Seq<u8>, st: St| at(s, st, p.enc()) && room(st, 0) implies ok_past(
        <(ObjectId, UnchangedConsensusKind)>::rec(s, st),
        st,
        p.enc().len() as int,
    ) by {
        lemma_read_rec2(p.0, p.1, 0, s, st);
    }
}

// ---------------------------------------------------------------------
// Effects.

pub proof fn lemma_reads_u32(v: u32)
    ensures
        reads(v, 0),
{
}

/// Length-prefixed digests, each with its length byte.
proof fn lemma_read_digests(d: Seq<Digest>, s: Seq<u8>, st: St)
    requires
        d.len() <= MAX_SEQUENCE_LENGTH,
        at(s, st, enc_seq(d)),
        room(st, 0),
    ensures
        ok_past(sp_digests(s, st), st, enc_seq(d).len() as int),
{
    assert forall|i: int| 0 <= i < d.len() implies #[trigger] reads(d[i], 0) by {
        lemma_reads_digest(d[i]);
    }
    assert forall|i: int| 0 <= i < d.len() implies (#[trigger] d[i].enc()).len() == 33 by {}
    lemma_read_records(d, 33, 0, s, st);
}

pub open spec fn legal_v2(e: TransactionEffectsV2) -> bool {
    &&& legal_status(e.status)
    &&& e.dependencies@.len() <= MAX_SEQUENCE_LENGTH
    &&& e.changed_objects@.len() <= MAX_SEQUENCE_LENGTH
    &&& e.unchanged_consensus_objects@.len() <= MAX_SEQUENCE_LENGTH
    &&& forall|i: int| 0 <= i < e.changed_objects@.len() ==> legal_change(#[trigger] e.changed_objects@[i])
}

#[verifier::spinoff_prover]
#[verifier::rlimit(40)]
proof fn lemma_read_v2_head(e: TransactionEffectsV2, s: Seq<u8>, st: St)
    requires
        legal_v2(e),
        at(s, st, enc_v2_head(e)),
        room(st, 0),
    ensures
        ok_past(rec_v2_head(s, st), st, enc_v2_head(e).len() as int),
{
    let a = e.status.enc() + e.executed_epoch.enc() + e.gas_used.enc() + e.transaction_digest.enc();
    let b = e.gas_object_index.enc() + e.events_digest.enc();
    let c = enc_seq(e.dependencies@);
    let d = e.lamport_version.enc();
    assert(enc_v2_head(e) =~= a + (b + (c + d)));
    lemma_at_split(s, st, a, b + (c + d));
    assert(ok_past(rec4::<ExecutionStatus, u64, GasCostSummary, Digest>(s, st), st, a.len() as int)) by {
        lemma_reads_status(e.status);
        lemma_reads_u64(e.executed_epoch);
        lemma_reads_gas(e.gas_used);
        lemma_reads_digest(e.transaction_digest);
        lemma_read_rec4(e.status, e.executed_epoch, e.gas_used, e.transaction_digest, 0, s, st);
    }
    let st1 = rec4::<ExecutionStatus, u64, GasCostSummary, Digest>(s, st)->Ok_0;
    lemma_at_split(s, st1, b, c + d);
    assert(ok_past(rec2::<Option<u32>, Option<Digest>>(s, st1), st1, b.len() as int)) by {
        if let Some(x) = e.gas_object_index {
            lemma_reads_u32(x);
        }
        lemma_reads_option(e.gas_object_index, 0);
        lemma_reads_option_digest(e.events_digest);
        lemma_read_rec2(e.gas_object_index, e.events_digest, 0, s, st1);
    }
    let st2 = rec2::<Option<u32>, Option<Digest>>(s, st1)->Ok_0;
    lemma_at_split(s, st2, c, d);
    lemma_read_digests(e.dependencies@, s, st2);
    let st3 = sp_digests(s, st2)->Ok_0;
    lemma_reads_u64(e.lamport_version);
    assert(at(s, st3, d) && room(st3, 0));
}

#[verifier::spinoff_prover]
#[verifier::rlimit(40)]
proof fn lemma_read_v2_tail(e: TransactionEffectsV2, k: int, s: Seq<u8>, st: St)
    requires
        legal_v2(e),
        k >= 2,
        forall|i: int| 0 <= i < e.changed_objects@.len() ==> need_change(#[trigger] e.changed_objects@[i]) <= k,
        at(s, st, enc_v2_tail(e)),
        room(st, k),
    ensures
        ok_past(rec_v2_tail(s, st), st, enc_v2_tail(e).len() as int),
{
    let c = e.changed_objects@;
    let u = e.unchanged_consensus_objects@;
    assert forall|i: int| 0 <= i < c.len() implies #[trigger] reads(c[i], k) by {
        lemma_reads_change(c[i]);
        lemma_reads_more_room(c[i], need_change(c[i]), k);
    }
    assert forall|i: int| 0 <= i < c.len() implies (#[trigger] c[i].enc()).len() >= 35 by {
        crate::wire_size::lemma_object_change_min_wire_size(c[i]);
    }
    assert forall|i: int| 0 <= i < u.len() implies #[trigger] reads(u[i], k) by {
        lemma_reads_unchanged(u[i]);
        lemma_reads_more_room(u[i], 0, k);
    }
    assert forall|i: int| 0 <= i < u.len() implies (#[trigger] u[i].enc()).len() >= 33 by {
        lemma_reads_unchanged(u[i]);
    }
    let x = enc_seq(c);
    let y = enc_seq(u);
    let z = e.aux_data_digest.enc();
    assert(enc_v2_tail(e) =~= x + (y + z));
    lemma_at_split(s, st, x, y + z);
    lemma_read_seq(c, 35, k, s, st);
    let st1 = sp_seq::<ObjectChange>(s, st, 35)->Ok_0;
    lemma_at_split(s, st1, y, z);
    lemma_read_seq(u, 33, k, s, st1);
    let st2 = sp_seq::<(ObjectId, UnchangedConsensusKind)>(s, st1, 33)->Ok_0;
    lemma_reads_option_digest(e.aux_data_digest);
    assert(at(s, st2, z) && room(st2, 0));
}

/// A V2 body needs its own level and `k` more for its changes.
pub proof fn lemma_reads_v2(e: TransactionEffectsV2, k: int)
    requires
        legal_v2(e),
        k >= 2,
        forall|i: int| 0 <= i < e.changed_objects@.len() ==> need_change(#[trigger] e.changed_objects@[i]) <= k,
    ensures
        reads(e, k + 1),
{
    assert forall|s: Seq<u8>, st: St| at(s, st, e.enc()) && room(st, k + 1) implies ok_past(
        TransactionEffectsV2::rec(s, st),
        st,
        e.enc().len() as int,
    ) by {
        let st1 = St { depth: st.depth + 1, ..st };
        assert(at(s, st1, e.enc()));
        lemma_at_split(s, st1, enc_v2_head(e), enc_v2_tail(e));
        lemma_read_v2_head(e, s, st1);
        let st2 = rec_v2_head(s, st1)->Ok_0;
        lemma_read_v2_tail(e, k, s, st2);
    }
}

pub open spec fn legal_owned_refs(v: Seq<(ObjectRef, crate::object::Owner)>) -> bool {
    &&& v.len() <= MAX_SEQUENCE_LENGTH
    &&& forall|i: int| 0 <= i < v.len() ==> legal_owner((#[trigger] v[i]).1)
}

pub open spec fn legal_v1(e: TransactionEffectsV1) -> bool {
    &&& legal_status(e.status)
    &&& e.modified_at_versions@.len() <= MAX_SEQUENCE_LENGTH
    &&& e.shared_objects@.len() <= MAX_SEQUENCE_LENGTH
    &&& legal_owned_refs(e.created@)
    &&& legal_owned_refs(e.mutated@)
    &&& legal_owned_refs(e.unwrapped@)
    &&& e.deleted@.len() <= MAX_SEQUENCE_LENGTH
    &&& e.unwrapped_then_deleted@.len() <= MAX_SEQUENCE_LENGTH
    &&& e.wrapped@.len() <= MAX_SEQUENCE_LENGTH
    &&& legal_owner(e.gas_object.1)
    &&& e.dependencies@.len() <= MAX_SEQUENCE_LENGTH
}

proof fn lemma_read_refs(v: Seq<ObjectRef>, s: Seq<u8>, st: St)
    requires
        v.len() <= MAX_SEQUENCE_LENGTH,
        at(s, st, enc_seq(v)),
        room(st, 0),
    ensures
        ok_past(sp_records::<ObjectRef>(s, st, 73), st, enc_seq(v).len() as int),
{
    assert forall|i: int| 0 <= i < v.len() implies #[trigger] reads(v[i], 0) by {
        lemma_reads_object_ref(v[i]);
    }
    assert forall|i: int| 0 <= i < v.len() implies (#[trigger] v[i].enc()).len() == 73 by {
        lemma_reads_object_ref(v[i]);
    }
    lemma_read_records(v, 73, 0, s, st);
}

proof fn lemma_read_owned_refs(v: Seq<(ObjectRef, crate::object::Owner)>, s: Seq<u8>, st: St)
    requires
        legal_owned_refs(v),
        at(s, st, enc_seq(v)),
        room(st, 2),
    ensures
        ok_past(sp_seq::<(ObjectRef, crate::object::Owner)>(s, st, 74), st, enc_seq(v).len() as int),
{
    assert forall|i: int| 0 <= i < v.len() implies #[trigger] reads(v[i], 2) by {
        lemma_reads_owned_ref(v[i]);
    }
    assert forall|i: int| 0 <= i < v.len() implies (#[trigger] v[i].enc()).len() >= 74 by {
        lemma_reads_owned_ref(v[i]);
    }
    lemma_read_seq(v, 74, 2, s, st);
}

#[verifier::spinoff_prover]
#[verifier::rlimit(40)]
proof fn lemma_read_v1_head(e: TransactionEffectsV1, s: Seq<u8>, st: St)
    requires
        legal_v1(e),
        at(s, st, enc_v1_head(e)),
        room(st, 0),
    ensures
        ok_past(rec_v1_head(s, st), st, enc_v1_head(e).len() as int),
{
    let a = e.status.enc() + e.executed_epoch.enc() + e.gas_used.enc();
    let b = enc_seq(e.modified_at_versions@);
    let c = enc_seq(e.shared_objects@);
    let d = e.transaction_digest.enc();
    assert(enc_v1_head(e) =~= a + (b + (c + d)));
    lemma_at_split(s, st, a, b + (c + d));
    assert(ok_past(rec3::<ExecutionStatus, u64, GasCostSummary>(s, st), st, a.len() as int)) by {
        lemma_reads_status(e.status);
        lemma_reads_u64(e.executed_epoch);
        lemma_reads_gas(e.gas_used);
        lemma_read_rec3(e.status, e.executed_epoch, e.gas_used, 0, s, st);
    }
    let st1 = rec3::<ExecutionStatus, u64, GasCostSummary>(s, st)->Ok_0;
    lemma_at_split(s, st1, b, c + d);
    assert(ok_past(sp_records::<ObjectKey>(s, st1, 40), st1, b.len() as int)) by {
        let v = e.modified_at_versions@;
        assert forall|i: int| 0 <= i < v.len() implies #[trigger] reads(v[i], 0) by {
            lemma_reads_object_key(v[i]);
        }
        assert forall|i: int| 0 <= i < v.len() implies (#[trigger] v[i].enc()).len() == 40 by {
            lemma_reads_object_key(v[i]);
        }
        lemma_read_records(v, 40, 0, s, st1);
    }
    let st2 = sp_records::<ObjectKey>(s, st1, 40)->Ok_0;
    lemma_at_split(s, st2, c, d);
    lemma_read_refs(e.shared_objects@, s, st2);
    let st3 = sp_records::<ObjectRef>(s, st2, 73)->Ok_0;
    lemma_reads_digest(e.transaction_digest);
    assert(at(s, st3, d) && room(st3, 0));
}

/// The three runs of owned references at the start of the tail.
#[verifier::spinoff_prover]
#[verifier::rlimit(40)]
proof fn lemma_read_v1_owned(e: TransactionEffectsV1, s: Seq<u8>, st: St) -> (st3: St)
    requires
        legal_v1(e),
        at(s, st, enc_seq(e.created@) + enc_seq(e.mutated@) + enc_seq(e.unwrapped@)),
        room(st, 2),
    ensures
        st3.pos == st.pos + (enc_seq(e.created@) + enc_seq(e.mutated@) + enc_seq(e.unwrapped@)).len(),
        st3.depth == st.depth,
        sp_seq::<(ObjectRef, crate::object::Owner)>(s, st, 74) matches Ok(st1)
            && sp_seq::<(ObjectRef, crate::object::Owner)>(s, st1, 74) matches Ok(st2)
            && sp_seq::<(ObjectRef, crate::object::Owner)>(s, st2, 74) == Ok::<St, ParseError>(st3),
{
    let x = enc_seq(e.created@);
    let y = enc_seq(e.mutated@);
    let z = enc_seq(e.unwrapped@);
    assert(x + y + z =~= x + (y + z));
    lemma_at_split(s, st, x, y + z);
    lemma_read_owned_refs(e.created@, s, st);
    let st1 = sp_seq::<(ObjectRef, crate::object::Owner)>(s, st, 74)->Ok_0;
    lemma_at_split(s, st1, y, z);
    lemma_read_owned_refs(e.mutated@, s, st1);
    let st2 = sp_seq::<(ObjectRef, crate::object::Owner)>(s, st1, 74)->Ok_0;
    lemma_read_owned_refs(e.unwrapped@, s, st2);
    sp_seq::<(ObjectRef, crate::object::Owner)>(s, st2, 74)->Ok_0
}

/// The three runs of plain references, the gas object, the events digest
/// and the dependencies.
#[verifier::spinoff_prover]
#[verifier::rlimit(40)]
proof fn lemma_read_v1_rest(e: TransactionEffectsV1, s: Seq<u8>, st3: St)
    requires
        legal_v1(e),
        at(s, st3, enc_seq(e.deleted@) + enc_seq(e.unwrapped_then_deleted@) + enc_seq(e.wrapped@)
            + e.gas_object.enc() + e.events_digest.enc() + enc_seq(e.dependencies@)),
        room(st3, 2),
    ensures
        ok_past(
            then(
                sp_records::<ObjectRef>(s, st3, 73),
                |st4: St|
                    then(
                        sp_records::<ObjectRef>(s, st4, 73),
                        |st5: St|
                            then(
                                sp_records::<ObjectRef>(s, st5, 73),
                                |st6: St|
                                    then(
                                        rec2::<(ObjectRef, crate::object::Owner), Option<Digest>>(s, st6),
                                        |st7: St| sp_digests(s, st7),
                                    ),
                            ),
                    ),
            ),
            st3,
            (enc_seq(e.deleted@) + enc_seq(e.unwrapped_then_deleted@) + enc_seq(e.wrapped@)
                + e.gas_object.enc() + e.events_digest.enc() + enc_seq(e.dependencies@)).len() as int,
        ),
{
    let a = enc_seq(e.deleted@);
    let b = enc_seq(e.unwrapped_then_deleted@);
    let c = enc_seq(e.wrapped@);
    let g = e.gas_object.enc() + e.events_digest.enc();
    let d = enc_seq(e.dependencies@);
    assert(a + b + c + e.gas_object.enc() + e.events_digest.enc() + d =~= a + (b + (c + (g + d))));
    lemma_at_split(s, st3, a, b + (c + (g + d)));
    lemma_read_refs(e.deleted@, s, st3);
    let st4 = sp_records::<ObjectRef>(s, st3, 73)->Ok_0;
    lemma_at_split(s, st4, b, c + (g + d));
    lemma_read_refs(e.unwrapped_then_deleted@, s, st4);
    let st5 = sp_records::<ObjectRef>(s, st4, 73)->Ok_0;
    lemma_at_split(s, st5, c, g + d);
    lemma_read_refs(e.wrapped@, s, st5);
    let st6 = sp_records::<ObjectRef>(s, st5, 73)->Ok_0;
    lemma_at_split(s, st6, g, d);
    assert(ok_past(rec2::<(ObjectRef, crate::object::Owner), Option<Digest>>(s, st6), st6, g.len() as int)) by {
        lemma_reads_owned_ref(e.gas_object);
        lemma_reads_option_digest(e.events_digest);
        lemma_reads_more_room(e.events_digest, 0, 2);
        lemma_read_rec2(e.gas_object, e.events_digest, 2, s, st6);
    }
    let st7 = rec2::<(ObjectRef, crate::object::Owner), Option<Digest>>(s, st6)->Ok_0;
    lemma_read_digests(e.dependencies@, s, st7);
}

/// A V1 body needs its own level and an owner's two.
pub proof fn lemma_reads_v1(e: TransactionEffectsV1)
    requires
        legal_v1(e),
    ensures
        reads(e, 3),
{
    assert forall|s: Seq<u8>, st: St| at(s, st, e.enc()) && room(st, 3) implies ok_past(
        TransactionEffectsV1::rec(s, st),
        st,
        e.enc().len() as int,
    ) by {
        let st1 = St { depth: st.depth + 1, ..st };
        assert(at(s, st1, e.enc()));
        lemma_at_split(s, st1, enc_v1_head(e), enc_v1_tail(e));
        lemma_read_v1_head(e, s, st1);
        let st2 = rec_v1_head(s, st1)->Ok_0;
        let o = enc_seq(e.created@) + enc_seq(e.mutated@) + enc_seq(e.unwrapped@);
        let r = enc_seq(e.deleted@) + enc_seq(e.unwrapped_then_deleted@) + enc_seq(e.wrapped@)
            + e.gas_object.enc() + e.events_digest.enc() + enc_seq(e.dependencies@);
        assert(enc_v1_tail(e) =~= o + r);
        lemma_at_split(s, st2, o, r);
        let st3 = lemma_read_v1_owned(e, s, st2);
        lemma_read_v1_rest(e, s, st3);
    }
}

pub open spec fn legal_effects(v: VersionedEffects) -> bool {
    match v {
        VersionedEffects::V1(x) => legal_v1(x),
        VersionedEffects::V2(x) => legal_v2(x),
    }
}

/// The effects read back within `k` levels: their own, the version's, and
/// the deepest change's below them.
pub open spec fn fits_effects(v: VersionedEffects, k: int) -> bool {
    &&& k >= 4
    &&& (v matches VersionedEffects::V2(x) ==> forall|i: int|
        0 <= i < x.changed_objects@.len() ==> need_change(#[trigger] x.changed_objects@[i]) <= k - 2)
}

pub proof fn lemma_reads_effects(e: TransactionEffects, k: int)
    requires
        legal_effects(e.version),
        fits_effects(e.version, k),
    ensures
        reads(e, k),
{
    assert forall|s: Seq<u8>, st: St| at(s, st, e.enc()) && room(st, k) implies ok_past(
        TransactionEffects::rec(s, st),
        st,
        e.enc().len() as int,
    ) by {
        let st1 = St { depth: st.depth + 1, ..st };
        assert(at(s, st1, e.enc()));
        match e.version {
            VersionedEffects::V1(x) => {
                lemma_reads_v1(x);
                lemma_read_tagged(0, x, 3, s, st1);
            },
            VersionedEffects::V2(x) => {
                lemma_reads_v2(x, k - 2);
                lemma_read_tagged(1, x, k - 1, s, st1);
            },
        }
    }
}

/// Well-formed effects, written out, read back whole: every sequence
/// within the reader's length limit, every owner's party too, every failure
/// one the reader knows, and the type tags of accumulator writes nested no
/// deeper than the reader's depth limit leaves room for.
pub proof fn lemma_effects_are_accepted(e: TransactionEffects)
    requires
        legal_effects(e.version),
        fits_effects(e.version, MAX_CONTAINER_DEPTH as int),
    ensures
        exact_rec::<TransactionEffects>(e.enc()) == Ok::<(), ParseError>(()),
{
    lemma_reads_effects(e, MAX_CONTAINER_DEPTH as int);
    lemma_at_whole(e.enc());
    assert(at(e.enc(), start(), e.enc()) && room(start(), MAX_CONTAINER_DEPTH as int));
}

} // verus!
