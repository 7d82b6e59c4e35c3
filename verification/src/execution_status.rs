//! How a transaction's execution ended, and why it failed.
use vstd::prelude::*;
use crate::base::{AccountAddress, ObjectId, SuiAddress};
use crate::error::ParseError;
use crate::reader::{Reader, St, Rec, then, sp_uleb, span, done, lemma_span_join};
use crate::wire::{Wire, enc_uleb, enc_seq, enc_bytes, sp_records, parse_records};
use crate::reader::sp_byte_vec;
use crate::accept_effects::{legal_error, legal_location, legal_upgrade_error, legal_status};

verus! {

broadcast use {Reader::lemma_st_nonneg, lemma_span_join};

/// Two values of `A` and `B`, one after the other.
pub open spec fn rec2<A: Wire, B: Wire>(s: Seq<u8>, st: St) -> Rec {
    then(A::rec(s, st), |st1: St| B::rec(s, st1))
}

/// The error for a variant index that the type does not have.
pub open spec fn unknown(ty: &'static str, tag: u32) -> ParseError {
    ParseError::UnknownVariant { ty, tag }
}

#[derive(Clone, PartialEq, Eq, Debug)]
pub enum ExecutionStatus {
    Success,
    Failure { error: ExecutionErrorKind, command: Option<u64> },
}

impl Wire for ExecutionStatus {
    open spec fn rec(s: Seq<u8>, st: St) -> Rec {
        match sp_uleb(s, st) {
            Ok((tag, st1)) => if tag == 0 {
                Ok(st1)
            } else if tag == 1 {
                rec2::<ExecutionErrorKind, Option<u64>>(s, st1)
            } else {
                Err(unknown("ExecutionStatus", tag))
            },
            Err(e) => Err(e),
        }
    }

    open spec fn enc(self) -> Seq<u8> {
        match self {
            ExecutionStatus::Success => enc_uleb(0),
            ExecutionStatus::Failure { error, command } => enc_uleb(1) + error.enc() + command.enc(),
        }
    }

    /// A failure's error kind well-formed.
    open spec fn well_formed(self) -> bool {
        legal_status(self)
    }

    fn parse(r: &mut Reader) -> (res: Result<ExecutionStatus, ParseError>) {
        match r.variant()? {
            0 => Ok(ExecutionStatus::Success),
            1 => {
                let error = ExecutionErrorKind::parse(r)?;
                let command = Option::<u64>::parse(r)?;
                r.check();
                Ok(ExecutionStatus::Failure { error, command })
            },
            tag => Err(ParseError::UnknownVariant { ty: "ExecutionStatus", tag }),
        }
    }
}

impl ExecutionStatus {
    pub fn parse(r: &mut Reader) -> (res: Result<ExecutionStatus, ParseError>)
        ensures
            crate::wire::parsed(*old(r), *final(r), res),
    {
        <ExecutionStatus as Wire>::parse(r)
    }
}

/// The module name is not checked against the Move identifier grammar.
#[derive(Clone, PartialEq, Eq, Debug)]
pub struct ModuleId {
    pub address: AccountAddress,
    pub name: String,
}

impl Wire for ModuleId {
    open spec fn rec(s: Seq<u8>, st: St) -> Rec {
        rec2::<AccountAddress, String>(s, st)
    }

    open spec fn enc(self) -> Seq<u8> {
        self.address.enc() + self.name.enc()
    }

    open spec fn well_formed(self) -> bool {
        self.name.well_formed()
    }

    fn parse(r: &mut Reader) -> (res: Result<ModuleId, ParseError>) {
        let address = AccountAddress::parse(r)?;
        let name = String::parse(r)?;
        r.check();
        Ok(ModuleId { address, name })
    }
}

#[derive(Clone, PartialEq, Eq, Debug)]
pub struct MoveLocation {
    pub module: ModuleId,
    pub function: u16,
    pub instruction: u16,
    pub function_name: Option<String>,
}

impl Wire for MoveLocation {
    open spec fn rec(s: Seq<u8>, st: St) -> Rec {
        then(
            ModuleId::rec(s, st),
            |st1: St|
                then(
                    rec2::<u16, u16>(s, st1),
                    |st2: St| Option::<String>::rec(s, st2),
                ),
        )
    }

    open spec fn enc(self) -> Seq<u8> {
        self.module.enc() + self.function.enc() + self.instruction.enc() + self.function_name.enc()
    }

    open spec fn well_formed(self) -> bool {
        legal_location(self)
    }

    fn parse(r: &mut Reader) -> (res: Result<MoveLocation, ParseError>) {
        let module = ModuleId::parse(r)?;
        let function = r.u16()?;
        let instruction = r.u16()?;
        let function_name = Option::<String>::parse(r)?;
        r.check();
        Ok(MoveLocation { module, function, instruction, function_name })
    }
}

impl MoveLocation {
    pub fn parse(r: &mut Reader) -> (res: Result<MoveLocation, ParseError>)
        ensures
            crate::wire::parsed(*old(r), *final(r), res),
    {
        <MoveLocation as Wire>::parse(r)
    }
}

#[derive(Clone, PartialEq, Eq, Debug)]
pub enum ExecutionErrorKind {
    InsufficientGas,
    InvalidGasObject,
    InvariantViolation,
    FeatureNotYetSupported,
    MoveObjectTooBig { object_size: u64, max_object_size: u64 },
    MovePackageTooBig { object_size: u64, max_object_size: u64 },
    CircularObjectOwnership { object: ObjectId },
    InsufficientCoinBalance,
    CoinBalanceOverflow,
    PublishErrorNonZeroAddress,
    SuiMoveVerificationError,
    MovePrimitiveRuntimeError(Option<MoveLocation>),
    MoveAbort(MoveLocation, u64),
    VMVerificationOrDeserializationError,
    VMInvariantViolation,
    FunctionNotFound,
    ArityMismatch,
    TypeArityMismatch,
    NonEntryFunctionInvoked,
    CommandArgumentError { arg_idx: u16, kind: CommandArgumentError },
    TypeArgumentError { argument_idx: u16, kind: TypeArgumentError },
    UnusedValueWithoutDrop { result_idx: u16, secondary_idx: u16 },
    InvalidPublicFunctionReturnType { idx: u16 },
    InvalidTransferObject,
    EffectsTooLarge { current_size: u64, max_size: u64 },
    PublishUpgradeMissingDependency,
    PublishUpgradeDependencyDowngrade,
    PackageUpgradeError { upgrade_error: PackageUpgradeError },
    WrittenObjectsTooLarge { current_size: u64, max_size: u64 },
    CertificateDenied,
    SuiMoveVerificationTimedout,
    SharedObjectOperationNotAllowed,
    InputObjectDeleted,
    ExecutionCancelledDueToSharedObjectCongestion { congested_objects: Vec<ObjectId> },
    AddressDeniedForCoin { address: SuiAddress, coin_type: String },
    CoinTypeGlobalPause { coin_type: String },
    ExecutionCancelledDueToRandomnessUnavailable,
    MoveVectorElemTooBig { value_size: u64, max_scaled_size: u64 },
    MoveRawValueTooBig { value_size: u64, max_scaled_size: u64 },
    InvalidLinkage,
    InsufficientFundsForWithdraw,
    NonExclusiveWriteInputObjectModified { id: ObjectId },
}

/// The fields that follow each variant index of `ExecutionErrorKind`.
pub open spec fn rec_error_fields(s: Seq<u8>, st: St, tag: u32) -> Rec {
    if tag == 4 || tag == 5 || tag == 24 || tag == 28 || tag == 37 || tag == 38 {
        rec2::<u64, u64>(s, st)
    } else if tag == 6 || tag == 41 {
        ObjectId::rec(s, st)
    } else if tag == 11 {
        Option::<MoveLocation>::rec(s, st)
    } else if tag == 12 {
        rec2::<MoveLocation, u64>(s, st)
    } else if tag == 19 {
        rec2::<u16, CommandArgumentError>(s, st)
    } else if tag == 20 {
        rec2::<u16, TypeArgumentError>(s, st)
    } else if tag == 21 {
        rec2::<u16, u16>(s, st)
    } else if tag == 22 {
        u16::rec(s, st)
    } else if tag == 27 {
        PackageUpgradeError::rec(s, st)
    } else if tag == 33 {
        sp_records::<ObjectId>(s, st, 32)
    } else if tag == 34 {
        rec2::<SuiAddress, String>(s, st)
    } else if tag == 35 {
        String::rec(s, st)
    } else if tag <= 41 {
        Ok(st)
    } else {
        Err(unknown("ExecutionErrorKind", tag))
    }
}

impl Wire for ExecutionErrorKind {
    open spec fn rec(s: Seq<u8>, st: St) -> Rec {
        match sp_uleb(s, st) {
            Ok((tag, st1)) => rec_error_fields(s, st1, tag),
            Err(e) => Err(e),
        }
    }

    open spec fn enc(self) -> Seq<u8> {
        match self {
            ExecutionErrorKind::InsufficientGas => enc_uleb(0),
            ExecutionErrorKind::InvalidGasObject => enc_uleb(1),
            ExecutionErrorKind::InvariantViolation => enc_uleb(2),
            ExecutionErrorKind::FeatureNotYetSupported => enc_uleb(3),
            ExecutionErrorKind::MoveObjectTooBig { object_size, max_object_size } => enc_uleb(4)
                + object_size.enc() + max_object_size.enc(),
            ExecutionErrorKind::MovePackageTooBig { object_size, max_object_size } => enc_uleb(5)
                + object_size.enc() + max_object_size.enc(),
            ExecutionErrorKind::CircularObjectOwnership { object } => enc_uleb(6) + object.enc(),
            ExecutionErrorKind::InsufficientCoinBalance => enc_uleb(7),
            ExecutionErrorKind::CoinBalanceOverflow => enc_uleb(8),
            ExecutionErrorKind::PublishErrorNonZeroAddress => enc_uleb(9),
            ExecutionErrorKind::SuiMoveVerificationError => enc_uleb(10),
            ExecutionErrorKind::MovePrimitiveRuntimeError(loc) => enc_uleb(11) + loc.enc(),
            ExecutionErrorKind::MoveAbort(loc, code) => enc_uleb(12) + loc.enc() + code.enc(),
            ExecutionErrorKind::VMVerificationOrDeserializationError => enc_uleb(13),
            ExecutionErrorKind::VMInvariantViolation => enc_uleb(14),
            ExecutionErrorKind::FunctionNotFound => enc_uleb(15),
            ExecutionErrorKind::ArityMismatch => enc_uleb(16),
            ExecutionErrorKind::TypeArityMismatch => enc_uleb(17),
            ExecutionErrorKind::NonEntryFunctionInvoked => enc_uleb(18),
            ExecutionErrorKind::CommandArgumentError { arg_idx, kind } => enc_uleb(19)
                + arg_idx.enc() + kind.enc(),
            ExecutionErrorKind::TypeArgumentError { argument_idx, kind } => enc_uleb(20)
                + argument_idx.enc() + kind.enc(),
            ExecutionErrorKind::UnusedValueWithoutDrop { result_idx, secondary_idx } => enc_uleb(
                21,
            ) + result_idx.enc() + secondary_idx.enc(),
            ExecutionErrorKind::InvalidPublicFunctionReturnType { idx } => enc_uleb(22) + idx.enc(),
            ExecutionErrorKind::InvalidTransferObject => enc_uleb(23),
            ExecutionErrorKind::EffectsTooLarge { current_size, max_size } => enc_uleb(24)
                + current_size.enc() + max_size.enc(),
            ExecutionErrorKind::PublishUpgradeMissingDependency => enc_uleb(25),
            ExecutionErrorKind::PublishUpgradeDependencyDowngrade => enc_uleb(26),
            ExecutionErrorKind::PackageUpgradeError { upgrade_error } => enc_uleb(27)
                + upgrade_error.enc(),
            ExecutionErrorKind::WrittenObjectsTooLarge { current_size, max_size } => enc_uleb(28)
                + current_size.enc() + max_size.enc(),
            ExecutionErrorKind::CertificateDenied => enc_uleb(29),
            ExecutionErrorKind::SuiMoveVerificationTimedout => enc_uleb(30),
            ExecutionErrorKind::SharedObjectOperationNotAllowed => enc_uleb(31),
            ExecutionErrorKind::InputObjectDeleted => enc_uleb(32),
            ExecutionErrorKind::ExecutionCancelledDueToSharedObjectCongestion {
                congested_objects,
            } => enc_uleb(33) + enc_seq(congested_objects@),
            ExecutionErrorKind::AddressDeniedForCoin { address, coin_type } => enc_uleb(34)
                + address.enc() + coin_type.enc(),
            ExecutionErrorKind::CoinTypeGlobalPause { coin_type } => enc_uleb(35) + coin_type.enc(),
            ExecutionErrorKind::ExecutionCancelledDueToRandomnessUnavailable => enc_uleb(36),
            ExecutionErrorKind::MoveVectorElemTooBig { value_size, max_scaled_size } => enc_uleb(
                37,
            ) + value_size.enc() + max_scaled_size.enc(),
            ExecutionErrorKind::MoveRawValueTooBig { value_size, max_scaled_size } => enc_uleb(38)
                + value_size.enc() + max_scaled_size.enc(),
            ExecutionErrorKind::InvalidLinkage => enc_uleb(39),
            ExecutionErrorKind::InsufficientFundsForWithdraw => enc_uleb(40),
            ExecutionErrorKind::NonExclusiveWriteInputObjectModified { id } => enc_uleb(41)
                + id.enc(),
        }
    }

    open spec fn well_formed(self) -> bool {
        legal_error(self)
    }

    #[verifier::rlimit(60)]
    fn parse(r: &mut Reader) -> (res: Result<ExecutionErrorKind, ParseError>) {
        let tag = r.variant()?;
        let v = match tag {
            0 => ExecutionErrorKind::InsufficientGas,
            1 => ExecutionErrorKind::InvalidGasObject,
            2 => ExecutionErrorKind::InvariantViolation,
            3 => ExecutionErrorKind::FeatureNotYetSupported,
            11 | 27 | 33 | 34 | 35 => parse_error_with_text(r, tag)?,
            12 => parse_move_abort(r)?,
            4 | 5 | 24 | 28 | 37 | 38 => {
                let a = r.u64()?;
                let b = r.u64()?;
                match tag {
                    4 => ExecutionErrorKind::MoveObjectTooBig { object_size: a, max_object_size: b },
                    5 => ExecutionErrorKind::MovePackageTooBig { object_size: a, max_object_size: b },
                    24 => ExecutionErrorKind::EffectsTooLarge { current_size: a, max_size: b },
                    28 => ExecutionErrorKind::WrittenObjectsTooLarge { current_size: a, max_size: b },
                    37 => ExecutionErrorKind::MoveVectorElemTooBig { value_size: a, max_scaled_size: b },
                    _ => ExecutionErrorKind::MoveRawValueTooBig { value_size: a, max_scaled_size: b },
                }
            },
            6 => ExecutionErrorKind::CircularObjectOwnership { object: ObjectId::parse(r)? },
            7 => ExecutionErrorKind::InsufficientCoinBalance,
            8 => ExecutionErrorKind::CoinBalanceOverflow,
            9 => ExecutionErrorKind::PublishErrorNonZeroAddress,
            10 => ExecutionErrorKind::SuiMoveVerificationError,
            13 => ExecutionErrorKind::VMVerificationOrDeserializationError,
            14 => ExecutionErrorKind::VMInvariantViolation,
            15 => ExecutionErrorKind::FunctionNotFound,
            16 => ExecutionErrorKind::ArityMismatch,
            17 => ExecutionErrorKind::TypeArityMismatch,
            18 => ExecutionErrorKind::NonEntryFunctionInvoked,
            19 => {
                let arg_idx = r.u16()?;
                let kind = CommandArgumentError::parse(r)?;
                ExecutionErrorKind::CommandArgumentError { arg_idx, kind }
            },
            20 => {
                let argument_idx = r.u16()?;
                let kind = TypeArgumentError::parse(r)?;
                ExecutionErrorKind::TypeArgumentError { argument_idx, kind }
            },
            21 => {
                let result_idx = r.u16()?;
                let secondary_idx = r.u16()?;
                ExecutionErrorKind::UnusedValueWithoutDrop { result_idx, secondary_idx }
            },
            22 => ExecutionErrorKind::InvalidPublicFunctionReturnType { idx: r.u16()? },
            23 => ExecutionErrorKind::InvalidTransferObject,
            25 => ExecutionErrorKind::PublishUpgradeMissingDependency,
            26 => ExecutionErrorKind::PublishUpgradeDependencyDowngrade,
            29 => ExecutionErrorKind::CertificateDenied,
            30 => ExecutionErrorKind::SuiMoveVerificationTimedout,
            31 => ExecutionErrorKind::SharedObjectOperationNotAllowed,
            32 => ExecutionErrorKind::InputObjectDeleted,
            36 => ExecutionErrorKind::ExecutionCancelledDueToRandomnessUnavailable,
            39 => ExecutionErrorKind::InvalidLinkage,
            40 => ExecutionErrorKind::InsufficientFundsForWithdraw,
            41 => ExecutionErrorKind::NonExclusiveWriteInputObjectModified { id: ObjectId::parse(r)? },
            _ => {
                return Err(ParseError::UnknownVariant { ty: "ExecutionErrorKind", tag });
            },
        };
        r.check();
        Ok(v)
    }
}

/// The fields of a `MoveAbort`, after its variant index.
#[verifier::spinoff_prover]
fn parse_move_abort(r: &mut Reader) -> (res: Result<ExecutionErrorKind, ParseError>)
    ensures
        final(r).data() == old(r).data(),
        done(old(r).st(), rec_error_fields(old(r).data(), old(r).st(), 12), res, final(r).st()),
        res matches Ok(v) ==> v.enc() == enc_uleb(12) + span(old(r).data(), old(r).st(), final(r).st()),
        res matches Ok(v) ==> legal_error(v),
{
    let ghost s = r.data();
    let ghost st0 = r.st();
    let loc = MoveLocation::parse(r)?;
    let ghost st1 = r.st();
    assert(MoveLocation::rec(s, st0) == Ok::<St, ParseError>(st1));
    let code = r.u64()?;
    r.check();
    let v = ExecutionErrorKind::MoveAbort(loc, code);
    assert(legal_location(loc));
    assert(v.enc() == enc_uleb(12) + (span(s, st0, st1) + span(s, st1, r.st())));
    Ok(v)
}

/// The fields of the error kinds that hold a location, a digest, a list of
/// objects or a coin type, after their variant index `tag`.
#[verifier::spinoff_prover]
#[verifier::rlimit(100)]
fn parse_error_with_text(r: &mut Reader, tag: u32) -> (res: Result<ExecutionErrorKind, ParseError>)
    requires
        tag == 11 || tag == 27 || tag == 33 || tag == 34 || tag == 35,
    ensures
        final(r).data() == old(r).data(),
        done(old(r).st(), rec_error_fields(old(r).data(), old(r).st(), tag), res, final(r).st()),
        res matches Ok(v) ==> v.enc() == enc_uleb(tag) + span(old(r).data(), old(r).st(), final(r).st()),
        res matches Ok(v) ==> legal_error(v),
{
    let ghost s = r.data();
    let ghost st0 = r.st();
    if tag == 11 {
        assert(rec_error_fields(s, st0, tag) == Option::<MoveLocation>::rec(s, st0));
        let loc = Option::<MoveLocation>::parse(r)?;
        r.check();
        Ok(ExecutionErrorKind::MovePrimitiveRuntimeError(loc))
    } else if tag == 27 {
        assert(rec_error_fields(s, st0, tag) == PackageUpgradeError::rec(s, st0));
        let upgrade_error = PackageUpgradeError::parse(r)?;
        r.check();
        Ok(ExecutionErrorKind::PackageUpgradeError { upgrade_error })
    } else if tag == 33 {
        assert(rec_error_fields(s, st0, tag) == sp_records::<ObjectId>(s, st0, 32));
        let congested_objects = parse_records::<ObjectId>(r, 32)?;
        r.check();
        Ok(ExecutionErrorKind::ExecutionCancelledDueToSharedObjectCongestion { congested_objects })
    } else if tag == 34 {
        assert(rec_error_fields(s, st0, tag) == rec2::<SuiAddress, String>(s, st0));
        let address = SuiAddress::parse(r)?;
        let coin_type = String::parse(r)?;
        r.check();
        Ok(ExecutionErrorKind::AddressDeniedForCoin { address, coin_type })
    } else {
        assert(rec_error_fields(s, st0, tag) == String::rec(s, st0));
        let coin_type = String::parse(r)?;
        r.check();
        Ok(ExecutionErrorKind::CoinTypeGlobalPause { coin_type })
    }
}

impl ExecutionErrorKind {
    pub fn parse(r: &mut Reader) -> (res: Result<ExecutionErrorKind, ParseError>)
        ensures
            crate::wire::parsed(*old(r), *final(r), res),
    {
        <ExecutionErrorKind as Wire>::parse(r)
    }
}

#[derive(Clone, Copy, PartialEq, Eq, Debug)]
pub enum CommandArgumentError {
    TypeMismatch,
    InvalidBCSBytes,
    InvalidUsageOfPureArg,
    InvalidArgumentToPrivateEntryFunction,
    IndexOutOfBounds { idx: u16 },
    SecondaryIndexOutOfBounds { result_idx: u16, secondary_idx: u16 },
    InvalidResultArity { result_idx: u16 },
    InvalidGasCoinUsage,
    InvalidValueUsage,
    InvalidObjectByValue,
    InvalidObjectByMutRef,
    SharedObjectOperationNotAllowed,
    InvalidArgumentArity,
    InvalidTransferObject,
    InvalidMakeMoveVecNonObjectArgument,
    ArgumentWithoutValue,
    CannotMoveBorrowedValue,
    CannotWriteToExtendedReference,
    InvalidReferenceArgument,
    InvalidTxContext,
}

impl Wire for CommandArgumentError {
    open spec fn rec(s: Seq<u8>, st: St) -> Rec {
        match sp_uleb(s, st) {
            Ok((tag, st1)) => if tag == 4 || tag == 6 {
                u16::rec(s, st1)
            } else if tag == 5 {
                rec2::<u16, u16>(s, st1)
            } else if tag <= 19 {
                Ok(st1)
            } else {
                Err(unknown("CommandArgumentError", tag))
            },
            Err(e) => Err(e),
        }
    }

    open spec fn enc(self) -> Seq<u8> {
        match self {
            CommandArgumentError::TypeMismatch => enc_uleb(0),
            CommandArgumentError::InvalidBCSBytes => enc_uleb(1),
            CommandArgumentError::InvalidUsageOfPureArg => enc_uleb(2),
            CommandArgumentError::InvalidArgumentToPrivateEntryFunction => enc_uleb(3),
            CommandArgumentError::IndexOutOfBounds { idx } => enc_uleb(4) + idx.enc(),
            CommandArgumentError::SecondaryIndexOutOfBounds { result_idx, secondary_idx } =>
                enc_uleb(5) + result_idx.enc() + secondary_idx.enc(),
            CommandArgumentError::InvalidResultArity { result_idx } => enc_uleb(6)
                + result_idx.enc(),
            CommandArgumentError::InvalidGasCoinUsage => enc_uleb(7),
            CommandArgumentError::InvalidValueUsage => enc_uleb(8),
            CommandArgumentError::InvalidObjectByValue => enc_uleb(9),
            CommandArgumentError::InvalidObjectByMutRef => enc_uleb(10),
            CommandArgumentError::SharedObjectOperationNotAllowed => enc_uleb(11),
            CommandArgumentError::InvalidArgumentArity => enc_uleb(12),
            CommandArgumentError::InvalidTransferObject => enc_uleb(13),
            CommandArgumentError::InvalidMakeMoveVecNonObjectArgument => enc_uleb(14),
            CommandArgumentError::ArgumentWithoutValue => enc_uleb(15),
            CommandArgumentError::CannotMoveBorrowedValue => enc_uleb(16),
            CommandArgumentError::CannotWriteToExtendedReference => enc_uleb(17),
            CommandArgumentError::InvalidReferenceArgument => enc_uleb(18),
            CommandArgumentError::InvalidTxContext => enc_uleb(19),
        }
    }

    fn parse(r: &mut Reader) -> (res: Result<CommandArgumentError, ParseError>) {
        let v = match r.variant()? {
            0 => CommandArgumentError::TypeMismatch,
            1 => CommandArgumentError::InvalidBCSBytes,
            2 => CommandArgumentError::InvalidUsageOfPureArg,
            3 => CommandArgumentError::InvalidArgumentToPrivateEntryFunction,
            4 => CommandArgumentError::IndexOutOfBounds { idx: r.u16()? },
            5 => {
                let result_idx = r.u16()?;
                let secondary_idx = r.u16()?;
                CommandArgumentError::SecondaryIndexOutOfBounds { result_idx, secondary_idx }
            },
            6 => CommandArgumentError::InvalidResultArity { result_idx: r.u16()? },
            7 => CommandArgumentError::InvalidGasCoinUsage,
            8 => CommandArgumentError::InvalidValueUsage,
            9 => CommandArgumentError::InvalidObjectByValue,
            10 => CommandArgumentError::InvalidObjectByMutRef,
            11 => CommandArgumentError::SharedObjectOperationNotAllowed,
            12 => CommandArgumentError::InvalidArgumentArity,
            13 => CommandArgumentError::InvalidTransferObject,
            14 => CommandArgumentError::InvalidMakeMoveVecNonObjectArgument,
            15 => CommandArgumentError::ArgumentWithoutValue,
            16 => CommandArgumentError::CannotMoveBorrowedValue,
            17 => CommandArgumentError::CannotWriteToExtendedReference,
            18 => CommandArgumentError::InvalidReferenceArgument,
            19 => CommandArgumentError::InvalidTxContext,
            tag => {
                return Err(ParseError::UnknownVariant { ty: "CommandArgumentError", tag });
            },
        };
        r.check();
        Ok(v)
    }
}

impl CommandArgumentError {
    pub fn parse(r: &mut Reader) -> (res: Result<CommandArgumentError, ParseError>)
        ensures
            crate::wire::parsed(*old(r), *final(r), res),
    {
        <CommandArgumentError as Wire>::parse(r)
    }
}

#[derive(Clone, Copy, PartialEq, Eq, Debug)]
pub enum TypeArgumentError {
    TypeNotFound,
    ConstraintNotSatisfied,
}

impl Wire for TypeArgumentError {
    open spec fn rec(s: Seq<u8>, st: St) -> Rec {
        match sp_uleb(s, st) {
            Ok((tag, st1)) => if tag <= 1 {
                Ok(st1)
            } else {
                Err(unknown("TypeArgumentError", tag))
            },
            Err(e) => Err(e),
        }
    }

    open spec fn enc(self) -> Seq<u8> {
        match self {
            TypeArgumentError::TypeNotFound => enc_uleb(0),
            TypeArgumentError::ConstraintNotSatisfied => enc_uleb(1),
        }
    }

    fn parse(r: &mut Reader) -> (res: Result<TypeArgumentError, ParseError>) {
        match r.variant()? {
            0 => Ok(TypeArgumentError::TypeNotFound),
            1 => Ok(TypeArgumentError::ConstraintNotSatisfied),
            tag => Err(ParseError::UnknownVariant { ty: "TypeArgumentError", tag }),
        }
    }
}

impl TypeArgumentError {
    pub fn parse(r: &mut Reader) -> (res: Result<TypeArgumentError, ParseError>)
        ensures
            crate::wire::parsed(*old(r), *final(r), res),
    {
        <TypeArgumentError as Wire>::parse(r)
    }
}

#[derive(Clone, PartialEq, Eq, Debug)]
pub enum PackageUpgradeError {
    UnableToFetchPackage { package_id: ObjectId },
    NotAPackage { object_id: ObjectId },
    IncompatibleUpgrade,
    DigestDoesNotMatch { digest: Vec<u8> },
    UnknownUpgradePolicy { policy: u8 },
    PackageIDDoesNotMatch { package_id: ObjectId, ticket_id: ObjectId },
}

impl Wire for PackageUpgradeError {
    open spec fn rec(s: Seq<u8>, st: St) -> Rec {
        match sp_uleb(s, st) {
            Ok((tag, st1)) => if tag == 0 || tag == 1 {
                ObjectId::rec(s, st1)
            } else if tag == 2 {
                Ok(st1)
            } else if tag == 3 {
                sp_byte_vec(s, st1)
            } else if tag == 4 {
                u8::rec(s, st1)
            } else if tag == 5 {
                rec2::<ObjectId, ObjectId>(s, st1)
            } else {
                Err(unknown("PackageUpgradeError", tag))
            },
            Err(e) => Err(e),
        }
    }

    open spec fn enc(self) -> Seq<u8> {
        match self {
            PackageUpgradeError::UnableToFetchPackage { package_id } => enc_uleb(0)
                + package_id.enc(),
            PackageUpgradeError::NotAPackage { object_id } => enc_uleb(1) + object_id.enc(),
            PackageUpgradeError::IncompatibleUpgrade => enc_uleb(2),
            PackageUpgradeError::DigestDoesNotMatch { digest } => enc_uleb(3) + enc_bytes(digest@),
            PackageUpgradeError::UnknownUpgradePolicy { policy } => enc_uleb(4) + policy.enc(),
            PackageUpgradeError::PackageIDDoesNotMatch { package_id, ticket_id } => enc_uleb(5)
                + package_id.enc() + ticket_id.enc(),
        }
    }

    open spec fn well_formed(self) -> bool {
        legal_upgrade_error(self)
    }

    fn parse(r: &mut Reader) -> (res: Result<PackageUpgradeError, ParseError>) {
        let v = match r.variant()? {
            0 => PackageUpgradeError::UnableToFetchPackage { package_id: ObjectId::parse(r)? },
            1 => PackageUpgradeError::NotAPackage { object_id: ObjectId::parse(r)? },
            2 => PackageUpgradeError::IncompatibleUpgrade,
            3 => PackageUpgradeError::DigestDoesNotMatch { digest: r.byte_vec_owned()? },
            4 => PackageUpgradeError::UnknownUpgradePolicy { policy: r.u8()? },
            5 => {
                let package_id = ObjectId::parse(r)?;
                let ticket_id = ObjectId::parse(r)?;
                PackageUpgradeError::PackageIDDoesNotMatch { package_id, ticket_id }
            },
            tag => {
                return Err(ParseError::UnknownVariant { ty: "PackageUpgradeError", tag });
            },
        };
        r.check();
        Ok(v)
    }
}

impl PackageUpgradeError {
    pub fn parse(r: &mut Reader) -> (res: Result<PackageUpgradeError, ParseError>)
        ensures
            crate::wire::parsed(*old(r), *final(r), res),
    {
        <PackageUpgradeError as Wire>::parse(r)
    }
}

} // verus!
