//! Values that reach every variant of events and checkpoint contents,
//! written by the library's own builders and writer, parsed back, and
//! compared with what was built.

use anchovy::base::{
    AccountAddress, AuthorityName, Digest, ObjectId, ObjectKey, ObjectRef, SuiAddress, U32Le, U64Le,
};
use anchovy::builders::{ContentsBuilder, EffectsBuilder, EndOfEpoch, EventsBuilder, SummaryBuilder};
use anchovy::checkpoint::{
    CheckpointData, FullCheckpointContents, CertifiedCheckpointSummary, CheckpointCommitment, CheckpointCommitmentKind, CheckpointSummary,
    CommitteeMember, CheckpointContents, CheckpointTransactionContents, ExecutionDigests, SignatureList,
    VersionedCheckpointContents,
};
use anchovy::effects::{
    AccumulatorOperation, AccumulatorValue, AccumulatorWriteV1, ChangeKind, Event, EventCommitment,
    GasCostSummary, IdOperation, ObjectIn, ObjectOut, TransactionEffects, TransactionEvents,
    UnchangedConsensusKind, VersionedEffects,
};
use anchovy::execution_status::{
    CommandArgumentError, ExecutionErrorKind, ExecutionStatus, ModuleId, MoveLocation,
    PackageUpgradeError, TypeArgumentError,
};
use anchovy::object::{
    Data, GenesisObject, Linkage, MoveObject, MoveObjectType, MovePackage, Object, Owner, Party,
    PartyMember, TypeOrigin,
};
use anchovy::system_transaction::{
    ActiveJwk, AuthenticatorStateUpdate, AuthorityObservation, ChangeEpoch, ConsensusCommitPrologue,
    ConsensusCommitPrologueV2, ConsensusCommitPrologueV3, ConsensusCommitPrologueV4,
    ConsensusDeterminedVersionAssignments, ConsensusObjectVersion, EndOfEpochTransactionKind,
    ExecutionTimeObservationKey, Jwk, JwkId, RandomnessStateUpdate, StoredExecutionTimeObservations,
    SystemPackage,
};
use anchovy::tx_index::{
    sui_authenticator_state_object_id, sui_bridge_object_id, sui_clock_object_id,
    sui_randomness_state_object_id, sui_system_state_object_id, TransactionIndex,
};
use anchovy::fast::Writer;
use anchovy::error::ParseError;
use anchovy::message::Message;
use anchovy::transaction::{
    AllowedProposers, Argument, CallArg, Command, FundsWithdrawalArg, GasData, GenericSignature,
    ObjectArg, ProgrammableMoveCall, ProgrammableTransaction, Reservation, SenderSignedData,
    SharedObjectArg, SharedObjectMutability, TransactionData, TransactionExpiration, TransactionKind,
    ValidDuring, WithdrawFrom, WithdrawalTypeArg,
};
use anchovy::type_tag::{StructTag, TypeTag};
use anchovy::wire::Wire;

fn parse<T: Wire>(bytes: Vec<u8>) -> Message<T> {
    match Message::<T>::parse(bytes) {
        Ok(m) => m,
        Err((e, _)) => panic!("{:?}", e),
    }
}

fn bytes32(n: u8) -> [u8; 32] {
    let mut bytes = [0; 32];
    bytes[31] = n;
    bytes
}

fn id(n: u8) -> ObjectId {
    ObjectId(bytes32(n))
}

fn address(n: u8) -> SuiAddress {
    SuiAddress(bytes32(n))
}

fn digest(n: u8) -> Digest {
    Digest::new([n; 32])
}

fn struct_tag(n: u8, type_params: Vec<TypeTag>) -> StructTag {
    StructTag {
        address: AccountAddress(bytes32(n)),
        module: "m".to_string(),
        name: "S".to_string(),
        type_params,
    }
}

/// Every `TypeTag` variant, nested three deep, naming packages 0x30 and 0x31.
fn nested_tag() -> TypeTag {
    let inner = TypeTag::Struct(Box::new(struct_tag(0x31, vec![])));
    let params = vec![
        TypeTag::Bool,
        TypeTag::U8,
        TypeTag::U16,
        TypeTag::U32,
        TypeTag::U64,
        TypeTag::U128,
        TypeTag::U256,
        TypeTag::Address,
        TypeTag::Signer,
        TypeTag::Vector(Box::new(inner)),
    ];
    TypeTag::Vector(Box::new(TypeTag::Struct(Box::new(struct_tag(0x30, params)))))
}

fn signatures() -> Vec<GenericSignature> {
    vec![GenericSignature(vec![0; 97]), GenericSignature(vec![])]
}

fn event(contents: Vec<u8>) -> Event {
    Event {
        package_id: id(0x20),
        transaction_module: "m".to_string(),
        sender: address(1),
        type_: struct_tag(0x30, vec![nested_tag()]),
        contents,
    }
}

#[test]
fn transaction_events() {
    let mut builder = EventsBuilder::new_in(2);
    builder.push(event(vec![1, 2, 3]));
    builder.push(event(vec![]));
    let built = builder.finish();
    let message = parse::<TransactionEvents>(built.bytes.clone());
    let view = message.get();
    assert_eq!(view.data, vec![event(vec![1, 2, 3]), event(vec![])]);
    assert_eq!(view.digest(), Digest::of("TransactionEvents", &view.bytes));
    assert_eq!(view.digest(), built.digest);
    assert_eq!(view.data.len(), 2);
}

fn digests() -> ExecutionDigests {
    ExecutionDigests { transaction: digest(0xa0), effects: digest(0xa1) }
}

/// The contents' bytes, and what they hold.
fn contents(v2: bool) -> (Vec<u8>, VersionedCheckpointContents) {
    let [first, second]: [GenericSignature; 2] = signatures().try_into().unwrap();
    if v2 {
        let mut builder = ContentsBuilder::new_in(2);
        builder.push(
            digest(0xa0),
            digest(0xa1),
            vec![(first.0.clone(), Some(4)), (second.0.clone(), None)],
        );
        builder.push(digest(0xa0), digest(0xa1), vec![]);
        let expected = VersionedCheckpointContents::V2(vec![
            CheckpointTransactionContents {
                digest: digests(),
                user_signatures: vec![(first, Some(4)), (second, None)],
            },
            CheckpointTransactionContents { digest: digests(), user_signatures: vec![] },
        ]);
        (builder.finish().bytes, expected)
    } else {
        let mut w = Writer::new_in(0);
        w.u8(0);
        w.len_prefix(2);
        for _ in 0..2 {
            w.digest(&digest(0xa0));
            w.digest(&digest(0xa1));
        }
        w.len_prefix(2);
        w.len_prefix(2);
        w.bytes(&first.0);
        w.bytes(&second.0);
        w.len_prefix(0);
        let expected = VersionedCheckpointContents::V1 {
            transactions: vec![digests(), digests()],
            user_signatures: vec![SignatureList(signatures()), SignatureList(vec![])],
        };
        (w.finish_bytes(), expected)
    }
}

#[test]
fn checkpoint_contents() {
    for v2 in [true, false] {
        let (bytes, expected) = contents(v2);
        let message = parse::<CheckpointContents>(bytes);
        let view = message.get();
        assert_eq!(view.version, expected);
        assert_eq!(view.digest(), Digest::of("CheckpointContents", &view.bytes));
    }
}

fn object_ref(n: u8) -> ObjectRef {
    ObjectRef { id: id(n), version: U64Le::new(u64::from(n)), digest: digest(n) }
}

/// An address balance reservation: the digest ends in twenty `0xac` bytes.
fn reservation_ref(n: u8) -> ObjectRef {
    let mut bytes = [0xac; 32];
    bytes[..12].copy_from_slice(&[n; 12]);
    ObjectRef { id: id(n), version: U64Le::new(0), digest: Digest::new(bytes) }
}

fn write_ref(w: &mut Writer, r: &ObjectRef) {
    w.raw(&r.id.0);
    w.raw(&r.version.0);
    w.digest(&r.digest);
}

/// A signed consensus commit prologue, version 4, without a sub-DAG index,
/// one transaction cancelled on two objects, and its signatures: everything
/// after the count of transactions.
fn signed_prologue_body() -> Vec<u8> {
    let mut w = Writer::new_in(0);
    w.raw(&[0, 0, 0]);
    w.u8(0);
    w.u8(9);
    w.u64(1);
    w.u64(2);
    w.u8(0);
    w.u64(3);
    w.digest(&digest(0x72));
    w.u8(0);
    w.len_prefix(1);
    w.digest(&digest(0x70));
    w.len_prefix(2);
    for _ in 0..2 {
        w.raw(&bytes32(1));
        w.u64(2);
    }
    w.digest(&digest(0x73));
    w.raw(&bytes32(0x63));
    w.len_prefix(2);
    write_ref(&mut w, &object_ref(0x60));
    write_ref(&mut w, &reservation_ref(0x61));
    w.raw(&bytes32(0x62));
    w.u64(1000);
    w.u64(5_000_000);
    w.u8(0);
    w.len_prefix(2);
    for s in signatures() {
        w.bytes(&s.0);
    }
    w.finish_bytes()
}

#[test]
fn sender_signed_data_must_hold_one_transaction() {
    let body = signed_prologue_body();
    let mut one = vec![1];
    one.extend_from_slice(&body);
    assert!(Message::<SenderSignedData>::parse(one).is_ok());
    let mut two = vec![2];
    two.extend_from_slice(&body);
    two.extend_from_slice(&body);
    for bytes in [vec![0], two] {
        let Err((e, _)) = Message::<SenderSignedData>::parse(bytes) else {
            panic!("accepted")
        };
        assert_eq!(e, ParseError::NotOneTransaction);
    }
}

fn gas_summary() -> GasCostSummary {
    GasCostSummary {
        computation_cost: 1,
        storage_cost: 2,
        storage_rebate: 3,
        non_refundable_storage_fee: 4,
    }
}

fn commitments() -> Vec<CheckpointCommitment> {
    vec![
        CheckpointCommitment { kind: CheckpointCommitmentKind::EcmhLiveObjectSetDigest, digest: digest(0x90) },
        CheckpointCommitment { kind: CheckpointCommitmentKind::CheckpointArtifactsDigest, digest: digest(0x91) },
    ]
}

fn authority(n: u8) -> AuthorityName {
    AuthorityName::new([n; 96])
}

/// A summary with every optional field present, or with none.
fn summary(full: bool) -> Vec<u8> {
    let mut builder = SummaryBuilder::new_in(5, 100, 1000, digest(0x92), gas_summary(), 7);
    if full {
        builder.previous_digest = Some(digest(0x93));
        builder.checkpoint_commitments = commitments();
        builder.end_of_epoch_data = Some(EndOfEpoch {
            next_epoch_committee: vec![(authority(0x77), 10), (authority(0x78), 20)],
            next_epoch_protocol_version: 71,
            epoch_commitments: commitments(),
        });
        builder.version_specific_data = vec![1, 2];
    }
    builder.finish().bytes
}

#[test]
fn checkpoint_summaries() {
    for full in [true, false] {
        let bytes = summary(full);
        let message = parse::<CheckpointSummary>(bytes.clone());
        let view = message.get();
        assert_eq!(view.digest, Digest::of("CheckpointSummary", &view.bytes));
        assert_eq!(view.end_of_epoch_data.is_some(), full);
        assert_eq!(view.previous_digest.is_some(), full);
        assert_eq!(
            (view.epoch, view.sequence_number, view.network_total_transactions, view.timestamp_ms),
            (5, 100, 1000, 7)
        );
        assert_eq!(view.content_digest, digest(0x92));
        assert_eq!(view.epoch_rolling_gas_cost_summary, gas_summary());
        if full {
            assert_eq!(view.previous_digest, Some(digest(0x93)));
            assert_eq!(view.checkpoint_commitments, commitments());
            let Some(end) = &view.end_of_epoch_data else {
                panic!("no end of epoch data")
            };
            assert_eq!(
                end.next_epoch_committee,
                vec![
                    CommitteeMember { authority: authority(0x77), stake: U64Le::new(10) },
                    CommitteeMember { authority: authority(0x78), stake: U64Le::new(20) },
                ]
            );
            assert_eq!(end.next_epoch_protocol_version, 71);
            assert_eq!(end.epoch_commitments, commitments());
            assert_eq!(view.version_specific_data, vec![1, 2]);
        } else {
            assert!(view.checkpoint_commitments.is_empty() && view.version_specific_data.is_empty());
        }

        let mut w = Writer::new_in(0);
        w.u64(5);
        w.raw(&[0x55; 48]);
        w.bytes(&[1, 2, 3]);
        let mut certified = bytes;
        certified.extend(w.finish_bytes());
        let message = parse::<CertifiedCheckpointSummary>(certified);
        let view = message.get();
        assert_eq!(view.data.digest, Digest::of("CheckpointSummary", &view.data.bytes));
        assert_eq!(view.auth_signature.epoch, 5);
        assert_eq!(view.auth_signature.signature, [0x55; 48]);
        assert_eq!(view.auth_signature.signers_map, vec![1, 2, 3]);
    }
}

fn owners() -> Vec<Owner> {
    vec![
        Owner::AddressOwner(address(1)),
        Owner::ObjectOwner(address(2)),
        Owner::Shared { initial_shared_version: 3 },
        Owner::Immutable,
        Owner::ConsensusAddressOwner { start_version: 4, owner: address(4) },
        Owner::Party(Party {
            start_version: 5,
            default_permissions: 1,
            members: vec![
                PartyMember { address: address(5), permissions: U64Le::new(7) },
                PartyMember { address: address(6), permissions: U64Le::new(3) },
            ],
        }),
    ]
}

fn write_refs(w: &mut Writer, ns: &[u8]) {
    w.len_prefix(ns.len());
    for n in ns {
        write_ref(w, &object_ref(*n));
    }
}

/// A V1 effects, failed for gas, with one entry in each list, the owners
/// taken in turn.
fn effects_v1() -> Vec<u8> {
    let owners = owners();
    let mut w = Writer::new_in(0);
    w.u8(0);
    w.execution_status(&ExecutionStatus::Failure { error: ExecutionErrorKind::InsufficientGas, command: None });
    w.u64(3);
    for cost in [1, 2, 3, 4] {
        w.u64(cost);
    }
    w.len_prefix(1);
    w.raw(&bytes32(1));
    w.u64(2);
    write_refs(&mut w, &[3]);
    w.digest(&digest(4));
    let mut owner = 0;
    for ns in [&[5u8, 6][..], &[7], &[8]] {
        w.len_prefix(ns.len());
        for n in ns {
            write_ref(&mut w, &object_ref(*n));
            w.owner(&owners[owner]);
            owner += 1;
        }
    }
    write_refs(&mut w, &[9]);
    write_refs(&mut w, &[10]);
    write_refs(&mut w, &[11]);
    write_ref(&mut w, &object_ref(12));
    w.owner(&owners[owner]);
    w.option_digest(Some(&digest(13)));
    w.len_prefix(1);
    w.digest(&digest(14));
    w.finish_bytes()
}

fn accumulator(operation: AccumulatorOperation, value: AccumulatorValue) -> ObjectOut {
    ObjectOut::AccumulatorWriteV1(AccumulatorWriteV1 { address: address(0x40), ty: nested_tag(), operation, value })
}

/// The outputs, in wire order.
fn output(n: usize) -> ObjectOut {
    match n {
        0 => ObjectOut::NotExist,
        1 => ObjectOut::ObjectWrite(digest(2), Owner::Immutable),
        2 => ObjectOut::PackageWrite(3, digest(3)),
        3 => accumulator(AccumulatorOperation::Merge, AccumulatorValue::Integer(1)),
        4 => accumulator(AccumulatorOperation::Split, AccumulatorValue::IntegerTuple(1, 2)),
        _ => accumulator(
            AccumulatorOperation::Merge,
            AccumulatorValue::EventDigest(vec![
                EventCommitment { index: U64Le::new(0), digest: digest(5) },
                EventCommitment { index: U64Le::new(1), digest: digest(6) },
            ]),
        ),
    }
}

fn input(n: usize) -> ObjectIn {
    match n {
        0 => ObjectIn::NotExist,
        _ => ObjectIn::Exist { version: 1, digest: digest(1), owner: Owner::AddressOwner(address(1)) },
    }
}

/// Every `(ObjectIn, ObjectOut, IdOperation)` combination with the class
/// it falls in, then an accumulator write of each operation and value, as
/// (input, output, operation) indices.
fn every_change() -> Vec<(usize, usize, IdOperation, ChangeKind)> {
    vec![
        (0, 0, IdOperation::NoChange, ChangeKind::Unclassified),
        (0, 0, IdOperation::Created, ChangeKind::Transient),
        (0, 0, IdOperation::Deleted, ChangeKind::UnwrappedThenDeleted),
        (0, 1, IdOperation::NoChange, ChangeKind::Unwrapped),
        (0, 1, IdOperation::Created, ChangeKind::Created),
        (0, 1, IdOperation::Deleted, ChangeKind::Unclassified),
        (0, 2, IdOperation::NoChange, ChangeKind::Unclassified),
        (0, 2, IdOperation::Created, ChangeKind::Created),
        (0, 2, IdOperation::Deleted, ChangeKind::Unclassified),
        (1, 0, IdOperation::NoChange, ChangeKind::Wrapped),
        (1, 0, IdOperation::Created, ChangeKind::Unclassified),
        (1, 0, IdOperation::Deleted, ChangeKind::Deleted),
        (1, 1, IdOperation::NoChange, ChangeKind::Mutated),
        (1, 1, IdOperation::Created, ChangeKind::Mutated),
        (1, 1, IdOperation::Deleted, ChangeKind::Mutated),
        (1, 2, IdOperation::NoChange, ChangeKind::Mutated),
        (1, 2, IdOperation::Created, ChangeKind::Mutated),
        (1, 2, IdOperation::Deleted, ChangeKind::Mutated),
        (1, 3, IdOperation::NoChange, ChangeKind::AccumulatorWrite),
        (0, 4, IdOperation::Created, ChangeKind::AccumulatorWrite),
        (0, 5, IdOperation::Deleted, ChangeKind::AccumulatorWrite),
    ]
}

/// V2 effects with every change and every unchanged kind; the optional
/// fields present or not.
fn effects_v2(status: ExecutionStatus, some: bool) -> (Vec<u8>, Vec<ChangeKind>) {
    let mut builder = EffectsBuilder::new_in(status, 9, gas_summary(), digest(0x75), 99);
    let mut kinds = Vec::new();
    for (i, (input_index, output_index, operation, kind)) in every_change().into_iter().enumerate() {
        builder.change(id(i as u8), input(input_index), output(output_index), operation);
        if some && i == 3 {
            builder.gas_object_is_last();
        }
        kinds.push(kind);
    }
    if some {
        builder.events_digest(Some(digest(0x76)));
        builder.aux_data_digest(Some(digest(0x85)));
    }
    builder.dependency(digest(0x77));
    builder.unchanged(id(0x80), UnchangedConsensusKind::ReadOnlyRoot(1, digest(1)));
    builder.unchanged(id(0x81), UnchangedConsensusKind::MutateConsensusStreamEnded(2));
    builder.unchanged(id(0x82), UnchangedConsensusKind::ReadConsensusStreamEnded(3));
    builder.unchanged(id(0x83), UnchangedConsensusKind::Cancelled(4));
    builder.unchanged(id(0x84), UnchangedConsensusKind::PerEpochConfig);
    (builder.finish().bytes, kinds)
}

#[test]
fn effects() {
    let message = parse::<TransactionEffects>(effects_v1());
    let view = message.get();
    assert_eq!(view.digest, Digest::of("TransactionEffects", &view.bytes));
    assert!(matches!(view.version, VersionedEffects::V1(_)));

    for some in [true, false] {
        let (built, kinds) = effects_v2(ExecutionStatus::Success, some);
        let message = parse::<TransactionEffects>(built);
        let view = message.get();
        assert_eq!(view.digest, Digest::of("TransactionEffects", &view.bytes));
        let VersionedEffects::V2(v2) = &view.version else {
            panic!("not V2")
        };
        let found: Vec<ChangeKind> = v2.changed_objects.iter().map(|c| c.kind()).collect();
        assert_eq!(found, kinds);
        assert_eq!(v2.changes(ChangeKind::Mutated).len(), 6);
        assert_eq!(v2.changes(ChangeKind::AccumulatorWrite).len(), 3);
        assert_eq!(v2.gas_object_index.is_some(), some);
        assert_eq!(v2.events_digest.is_some(), some);
        assert_eq!(v2.aux_data_digest.is_some(), some);
    }
}

fn location(named: bool) -> MoveLocation {
    MoveLocation {
        module: ModuleId { address: AccountAddress(bytes32(0x20)), name: "m".to_string() },
        function: 1,
        instruction: 2,
        function_name: if named { Some("f".to_string()) } else { None },
    }
}

/// Variants 0 to 20, in order.
fn early_errors() -> Vec<ExecutionErrorKind> {
    vec![
        ExecutionErrorKind::InsufficientGas,
        ExecutionErrorKind::InvalidGasObject,
        ExecutionErrorKind::InvariantViolation,
        ExecutionErrorKind::FeatureNotYetSupported,
        ExecutionErrorKind::MoveObjectTooBig { object_size: 1, max_object_size: 2 },
        ExecutionErrorKind::MovePackageTooBig { object_size: 1, max_object_size: 2 },
        ExecutionErrorKind::CircularObjectOwnership { object: id(1) },
        ExecutionErrorKind::InsufficientCoinBalance,
        ExecutionErrorKind::CoinBalanceOverflow,
        ExecutionErrorKind::PublishErrorNonZeroAddress,
        ExecutionErrorKind::SuiMoveVerificationError,
        ExecutionErrorKind::MovePrimitiveRuntimeError(None),
        ExecutionErrorKind::MovePrimitiveRuntimeError(Some(location(false))),
        ExecutionErrorKind::MoveAbort(location(true), 7),
        ExecutionErrorKind::VMVerificationOrDeserializationError,
        ExecutionErrorKind::VMInvariantViolation,
        ExecutionErrorKind::FunctionNotFound,
        ExecutionErrorKind::ArityMismatch,
        ExecutionErrorKind::TypeArityMismatch,
        ExecutionErrorKind::NonEntryFunctionInvoked,
    ]
}

fn every_argument_error() -> Vec<CommandArgumentError> {
    vec![
        CommandArgumentError::TypeMismatch,
        CommandArgumentError::InvalidBCSBytes,
        CommandArgumentError::InvalidUsageOfPureArg,
        CommandArgumentError::InvalidArgumentToPrivateEntryFunction,
        CommandArgumentError::IndexOutOfBounds { idx: 1 },
        CommandArgumentError::SecondaryIndexOutOfBounds { result_idx: 1, secondary_idx: 2 },
        CommandArgumentError::InvalidResultArity { result_idx: 1 },
        CommandArgumentError::InvalidGasCoinUsage,
        CommandArgumentError::InvalidValueUsage,
        CommandArgumentError::InvalidObjectByValue,
        CommandArgumentError::InvalidObjectByMutRef,
        CommandArgumentError::SharedObjectOperationNotAllowed,
        CommandArgumentError::InvalidArgumentArity,
        CommandArgumentError::InvalidTransferObject,
        CommandArgumentError::InvalidMakeMoveVecNonObjectArgument,
        CommandArgumentError::ArgumentWithoutValue,
        CommandArgumentError::CannotMoveBorrowedValue,
        CommandArgumentError::CannotWriteToExtendedReference,
        CommandArgumentError::InvalidReferenceArgument,
        CommandArgumentError::InvalidTxContext,
    ]
}

fn every_upgrade_error() -> Vec<PackageUpgradeError> {
    vec![
        PackageUpgradeError::UnableToFetchPackage { package_id: id(1) },
        PackageUpgradeError::NotAPackage { object_id: id(1) },
        PackageUpgradeError::IncompatibleUpgrade,
        PackageUpgradeError::DigestDoesNotMatch { digest: vec![1, 2] },
        PackageUpgradeError::UnknownUpgradePolicy { policy: 3 },
        PackageUpgradeError::PackageIDDoesNotMatch { package_id: id(1), ticket_id: id(2) },
    ]
}

/// Variants 21 to 41, in order, with 19, 20 and 27 in every shape.
fn late_errors() -> Vec<ExecutionErrorKind> {
    let mut errors = vec![
        ExecutionErrorKind::UnusedValueWithoutDrop { result_idx: 1, secondary_idx: 2 },
        ExecutionErrorKind::InvalidPublicFunctionReturnType { idx: 1 },
        ExecutionErrorKind::InvalidTransferObject,
        ExecutionErrorKind::EffectsTooLarge { current_size: 1, max_size: 2 },
        ExecutionErrorKind::PublishUpgradeMissingDependency,
        ExecutionErrorKind::PublishUpgradeDependencyDowngrade,
        ExecutionErrorKind::WrittenObjectsTooLarge { current_size: 1, max_size: 2 },
        ExecutionErrorKind::CertificateDenied,
        ExecutionErrorKind::SuiMoveVerificationTimedout,
        ExecutionErrorKind::SharedObjectOperationNotAllowed,
        ExecutionErrorKind::InputObjectDeleted,
        ExecutionErrorKind::ExecutionCancelledDueToSharedObjectCongestion { congested_objects: vec![id(1), id(2)] },
        ExecutionErrorKind::AddressDeniedForCoin { address: address(1), coin_type: "0x2::sui::SUI".to_string() },
        ExecutionErrorKind::CoinTypeGlobalPause { coin_type: "0x2::sui::SUI".to_string() },
        ExecutionErrorKind::ExecutionCancelledDueToRandomnessUnavailable,
        ExecutionErrorKind::MoveVectorElemTooBig { value_size: 1, max_scaled_size: 2 },
        ExecutionErrorKind::MoveRawValueTooBig { value_size: 1, max_scaled_size: 2 },
        ExecutionErrorKind::InvalidLinkage,
        ExecutionErrorKind::InsufficientFundsForWithdraw,
        ExecutionErrorKind::NonExclusiveWriteInputObjectModified { id: id(1) },
    ];
    errors.extend(every_argument_error().into_iter().map(|kind| ExecutionErrorKind::CommandArgumentError { arg_idx: 1, kind }));
    for kind in [TypeArgumentError::TypeNotFound, TypeArgumentError::ConstraintNotSatisfied] {
        errors.push(ExecutionErrorKind::TypeArgumentError { argument_idx: 2, kind });
    }
    errors.extend(every_upgrade_error().into_iter().map(|upgrade_error| ExecutionErrorKind::PackageUpgradeError { upgrade_error }));
    errors
}

fn every_error() -> Vec<ExecutionErrorKind> {
    let mut errors = early_errors();
    errors.extend(late_errors());
    errors
}

/// All the error kinds, with every argument, type argument and upgrade
/// error and both `command` states.
#[test]
fn execution_statuses() {
    let errors = every_error();
    assert_eq!(errors.len(), 39 + 1 + 20 + 2 + 6);
    for (i, error) in errors.into_iter().enumerate() {
        let command = if i % 2 == 0 { Some(i as u64) } else { None };
        let status = ExecutionStatus::Failure { error: error.clone(), command };
        let (built, _) = effects_v2(status, false);
        let message = parse::<TransactionEffects>(built);
        let VersionedEffects::V2(v2) = &message.get().version else {
            panic!("not V2")
        };
        assert_eq!(v2.status, ExecutionStatus::Failure { error, command });
    }
}

// Objects.

/// A Move object of each type, then a package.
fn every_data() -> Vec<Data> {
    let types = vec![
        MoveObjectType::Other(struct_tag(0x30, vec![])),
        MoveObjectType::GasCoin,
        MoveObjectType::StakedSui,
        MoveObjectType::Coin(nested_tag()),
        MoveObjectType::SuiBalanceAccumulatorField,
        MoveObjectType::BalanceAccumulatorField(TypeTag::U8),
    ];
    let mut data: Vec<Data> = types
        .into_iter()
        .enumerate()
        .map(|(i, type_)| {
            Data::Move(MoveObject { type_, has_public_transfer: i % 2 == 0, version: i as u64, contents: vec![7; i] })
        })
        .collect();
    data.push(Data::Package(MovePackage {
        id: id(0x50),
        version: 2,
        module_map: vec![("a".to_string(), vec![1]), ("b".to_string(), vec![])],
        type_origin_table: vec![TypeOrigin {
            module_name: "a".to_string(),
            datatype_name: "T".to_string(),
            package: id(0x50),
        }],
        linkage_table: vec![
            Linkage { original_id: id(1), upgraded_id: id(2), upgraded_version: U64Le::new(2) },
            Linkage { original_id: id(3), upgraded_id: id(4), upgraded_version: U64Le::new(4) },
        ],
    }));
    data
}

/// Each kind of data with an owner, the owners cycled.
fn owned_data() -> Vec<(Data, Owner)> {
    let owners = owners();
    every_data().into_iter().enumerate().map(|(i, data)| (data, owners[i % owners.len()].clone())).collect()
}

fn write_object_type(w: &mut Writer, t: &MoveObjectType) {
    match t {
        MoveObjectType::Other(s) => {
            w.u8(0);
            w.struct_tag(s);
        },
        MoveObjectType::GasCoin => w.u8(1),
        MoveObjectType::StakedSui => w.u8(2),
        MoveObjectType::Coin(x) => {
            w.u8(3);
            w.type_tag(x);
        },
        MoveObjectType::SuiBalanceAccumulatorField => w.u8(4),
        MoveObjectType::BalanceAccumulatorField(x) => {
            w.u8(5);
            w.type_tag(x);
        },
    }
}

fn write_data(w: &mut Writer, data: &Data) {
    match data {
        Data::Move(o) => {
            w.u8(0);
            write_object_type(w, &o.type_);
            w.bool(o.has_public_transfer);
            w.u64(o.version);
            w.bytes(&o.contents);
        },
        Data::Package(p) => {
            w.u8(1);
            w.raw(&p.id.0);
            w.u64(p.version);
            w.len_prefix(p.module_map.len());
            for (name, code) in &p.module_map {
                w.string(name);
                w.bytes(code);
            }
            w.len_prefix(p.type_origin_table.len());
            for o in &p.type_origin_table {
                w.string(&o.module_name);
                w.string(&o.datatype_name);
                w.raw(&o.package.0);
            }
            w.len_prefix(p.linkage_table.len());
            for l in &p.linkage_table {
                w.raw(&l.original_id.0);
                w.raw(&l.upgraded_id.0);
                w.raw(&l.upgraded_version.0);
            }
        },
    }
}

#[test]
fn every_object() {
    for (data, owner) in owned_data() {
        let mut w = Writer::new_in(0);
        write_data(&mut w, &data);
        w.owner(&owner);
        w.digest(&digest(0x51));
        w.u64(100);
        let bytes = w.finish_bytes();
        let message = parse::<Object>(bytes.clone());
        let view = message.get();
        assert_eq!(view.bytes, bytes);
        assert_eq!(view.data, data);
        assert_eq!(view.owner, owner);
        assert_eq!((view.previous_transaction, view.storage_rebate), (digest(0x51), 100));
    }
}

// System transactions.

fn change_epoch() -> ChangeEpoch {
    ChangeEpoch {
        epoch: 7,
        protocol_version: 70,
        storage_charge: 1,
        computation_charge: 2,
        storage_rebate: 3,
        non_refundable_storage_fee: 4,
        epoch_start_timestamp_ms: 5,
        system_packages: vec![
            SystemPackage { version: 8, modules: vec![vec![1, 2, 3]], dependencies: vec![id(1), id(2)] },
            SystemPackage { version: 9, modules: vec![], dependencies: vec![] },
        ],
    }
}

fn assignments(v2: bool) -> ConsensusDeterminedVersionAssignments {
    let key = ObjectKey { id: id(1), version: U64Le::new(2) };
    if v2 {
        ConsensusDeterminedVersionAssignments::CancelledTransactionsV2(vec![
            (
                digest(0x70),
                vec![ConsensusObjectVersion { id: id(1), start_version: U64Le::new(2), version: U64Le::new(3) }],
            ),
            (digest(0x70), vec![]),
        ])
    } else {
        ConsensusDeterminedVersionAssignments::CancelledTransactions(vec![(digest(0x70), vec![key, key])])
    }
}

fn prologue_v4(sub_dag_index: Option<u64>, v2: bool) -> TransactionKind {
    TransactionKind::ConsensusCommitPrologueV4(ConsensusCommitPrologueV4 {
        epoch: 1,
        round: 2,
        sub_dag_index,
        commit_timestamp_ms: 3,
        consensus_commit_digest: digest(0x72),
        consensus_determined_version_assignments: assignments(v2),
        additional_state_digest: digest(0x73),
    })
}

fn authenticator_update() -> TransactionKind {
    TransactionKind::AuthenticatorStateUpdate(AuthenticatorStateUpdate {
        epoch: 1,
        round: 2,
        new_active_jwks: vec![ActiveJwk {
            jwk_id: JwkId { iss: "iss".to_string(), kid: "kid".to_string() },
            jwk: Jwk {
                kty: "RSA".to_string(),
                e: "AQAB".to_string(),
                n: "n".to_string(),
                alg: "RS256".to_string(),
            },
            epoch: 3,
        }],
        authenticator_obj_initial_shared_version: 21,
    })
}

fn observations() -> StoredExecutionTimeObservations {
    let observation = |n: u8, secs: u64, nanos: u32| AuthorityObservation {
        authority: authority(n),
        secs: U64Le::new(secs),
        nanos: U32Le::new(nanos),
    };
    StoredExecutionTimeObservations(vec![
        (
            ExecutionTimeObservationKey::MoveEntryPoint {
                package: id(0x20),
                module: "m".to_string(),
                function: "f".to_string(),
                type_arguments: vec![nested_tag()],
            },
            vec![observation(1, 1, 2)],
        ),
        (ExecutionTimeObservationKey::TransferObjects, vec![]),
        (ExecutionTimeObservationKey::SplitCoins, vec![observation(2, 0, 0)]),
        (ExecutionTimeObservationKey::MergeCoins, vec![]),
        (ExecutionTimeObservationKey::Publish, vec![]),
        (ExecutionTimeObservationKey::MakeMoveVec, vec![]),
        (ExecutionTimeObservationKey::Upgrade, vec![]),
    ])
}

fn end_of_epoch_kinds() -> Vec<EndOfEpochTransactionKind> {
    vec![
        EndOfEpochTransactionKind::ChangeEpoch(change_epoch()),
        EndOfEpochTransactionKind::AuthenticatorStateCreate,
        EndOfEpochTransactionKind::AuthenticatorStateExpire {
            min_epoch: 3,
            authenticator_obj_initial_shared_version: 11,
        },
        EndOfEpochTransactionKind::RandomnessStateCreate,
        EndOfEpochTransactionKind::DenyListStateCreate,
        EndOfEpochTransactionKind::BridgeStateCreate(digest(0x71)),
        EndOfEpochTransactionKind::BridgeCommitteeInit(12),
        EndOfEpochTransactionKind::StoreExecutionTimeObservations(observations()),
        EndOfEpochTransactionKind::AccumulatorRootCreate,
        EndOfEpochTransactionKind::CoinRegistryCreate,
        EndOfEpochTransactionKind::DisplayRegistryCreate,
        EndOfEpochTransactionKind::AddressAliasStateCreate,
        EndOfEpochTransactionKind::WriteAccumulatorStorageCost { storage_cost: 13 },
        EndOfEpochTransactionKind::ForwardingAddressRegistryCreate,
    ]
}

fn mutable(id: ObjectId, version: u64) -> SharedObjectArg {
    SharedObjectArg::new(id, version, SharedObjectMutability::Mutable)
}

/// Every system kind with the shared inputs its index must name.
fn system_kinds() -> Vec<(TransactionKind, Vec<SharedObjectArg>)> {
    let system = mutable(sui_system_state_object_id(), 1);
    let clock = vec![mutable(sui_clock_object_id(), 1)];
    let genesis = owned_data().into_iter().map(|(data, owner)| GenesisObject { data, owner }).collect();
    vec![
        (TransactionKind::ChangeEpoch(change_epoch()), vec![system]),
        (TransactionKind::Genesis(genesis), vec![]),
        (
            TransactionKind::ConsensusCommitPrologue(ConsensusCommitPrologue { epoch: 1, round: 2, commit_timestamp_ms: 3 }),
            clock.clone(),
        ),
        (authenticator_update(), vec![mutable(sui_authenticator_state_object_id(), 21)]),
        (
            TransactionKind::EndOfEpochTransaction(end_of_epoch_kinds()),
            vec![
                system,
                mutable(sui_authenticator_state_object_id(), 11),
                mutable(sui_bridge_object_id(), 12),
                system,
                system,
                system,
            ],
        ),
        (
            TransactionKind::RandomnessStateUpdate(RandomnessStateUpdate {
                epoch: 1,
                randomness_round: 2,
                random_bytes: vec![9; 48],
                randomness_obj_initial_shared_version: 22,
            }),
            vec![mutable(sui_randomness_state_object_id(), 22)],
        ),
        (
            TransactionKind::ConsensusCommitPrologueV2(ConsensusCommitPrologueV2 {
                epoch: 1,
                round: 2,
                commit_timestamp_ms: 3,
                consensus_commit_digest: digest(0x72),
            }),
            clock.clone(),
        ),
        (
            TransactionKind::ConsensusCommitPrologueV3(ConsensusCommitPrologueV3 {
                epoch: 1,
                round: 2,
                sub_dag_index: Some(4),
                commit_timestamp_ms: 3,
                consensus_commit_digest: digest(0x72),
                consensus_determined_version_assignments: assignments(false),
            }),
            clock.clone(),
        ),
        (prologue_v4(None, true), clock.clone()),
        (prologue_v4(Some(5), false), clock),
    ]
}

#[test]
fn system_transactions() {
    let gas = payment();
    for (kind, shared) in system_kinds() {
        let index = TransactionIndex::build(&kind, &gas);
        assert_eq!(index.shared_inputs, shared, "{:?}", kind);
        assert!(index.owned_inputs.is_empty() && index.packages.is_empty());
        assert!(index.receiving.is_empty() && index.move_calls.is_empty());
        assert!(index.funds_withdrawals.is_empty());
        assert_eq!(index.coin_reservations, vec![reservation_ref(0x61)]);
    }
}

// Programmable transactions.

fn move_call(package: u8, type_arguments: Vec<TypeTag>) -> Command {
    Command::MoveCall(ProgrammableMoveCall {
        package: id(package),
        module: "m".into(),
        function: "f".into(),
        type_arguments,
        arguments: vec![Argument::GasCoin, Argument::Input(1), Argument::Result(0), Argument::NestedResult(0, 1)],
    })
}

fn shared_with(n: u8, mutability: SharedObjectMutability) -> SharedObjectArg {
    SharedObjectArg::new(id(n), u64::from(n), mutability)
}

fn withdrawal(withdraw_from: WithdrawFrom) -> CallArg {
    CallArg::FundsWithdrawal(FundsWithdrawalArg {
        reservation: Reservation::MaxAmountU64(9),
        type_arg: WithdrawalTypeArg::Balance(nested_tag()),
        withdraw_from,
    })
}

/// Every input and command variant. Packages named: 0x20 to 0x22 by calls
/// and the upgrade, 0x30 and 0x31 by type arguments, 0x40 and 0x41 as
/// dependencies, 0x20 twice.
fn programmable() -> ProgrammableTransaction {
    let modules = vec![vec![0xa1, 0xa2], vec![]];
    ProgrammableTransaction {
        inputs: vec![
            CallArg::Pure(vec![1, 2, 3]),
            CallArg::Object(ObjectArg::ImmOrOwnedObject(object_ref(0x10))),
            CallArg::Object(ObjectArg::ImmOrOwnedObject(reservation_ref(0x11))),
            CallArg::Object(ObjectArg::SharedObject(shared_with(0x12, SharedObjectMutability::Immutable))),
            CallArg::Object(ObjectArg::SharedObject(shared_with(0x13, SharedObjectMutability::Mutable))),
            CallArg::Object(ObjectArg::SharedObject(shared_with(0x14, SharedObjectMutability::NonExclusiveWrite))),
            CallArg::Object(ObjectArg::Receiving(object_ref(0x15))),
            withdrawal(WithdrawFrom::Sender),
            withdrawal(WithdrawFrom::Sponsor),
            withdrawal(WithdrawFrom::SenderAllowance { funder: address(0x16), allowance: id(0x17) }),
        ],
        commands: vec![
            move_call(0x20, vec![nested_tag(), TypeTag::U64]),
            Command::TransferObjects(vec![Argument::Input(1), Argument::Result(0)], Argument::Input(0)),
            Command::SplitCoins(Argument::GasCoin, vec![Argument::Input(0), Argument::Input(0)]),
            Command::MergeCoins(Argument::Input(1), vec![Argument::NestedResult(2, 0)]),
            Command::Publish(modules.clone(), vec![id(0x40), id(0x20)]),
            Command::MakeMoveVec(Some(nested_tag()), vec![Argument::Result(4)]),
            Command::MakeMoveVec(None, vec![]),
            Command::Upgrade(modules, vec![id(0x41)], id(0x21), Argument::Result(3)),
            move_call(0x22, vec![]),
        ],
    }
}

fn payment() -> GasData {
    GasData { payment: vec![object_ref(0x60), reservation_ref(0x61)], owner: address(0x62), price: 1000, budget: 5_000_000 }
}

fn check_programmable_index(index: &TransactionIndex, user: bool) {
    assert_eq!(
        index.shared_inputs,
        vec![
            shared_with(0x12, SharedObjectMutability::Immutable),
            shared_with(0x13, SharedObjectMutability::Mutable),
            shared_with(0x14, SharedObjectMutability::NonExclusiveWrite),
        ]
    );
    assert_eq!(index.packages, [0x20, 0x21, 0x22, 0x30, 0x31, 0x40, 0x41].map(id).to_vec());
    let owned = object_ref(0x10);
    if user {
        assert_eq!(index.owned_inputs, vec![owned, object_ref(0x60)]);
        assert_eq!(index.receiving, vec![object_ref(0x15)]);
        assert_eq!(index.move_calls, vec![0, 8]);
        assert_eq!(index.funds_withdrawals.len(), 3);
        assert_eq!(index.coin_reservations, vec![reservation_ref(0x11), reservation_ref(0x61)]);
    } else {
        assert_eq!(index.owned_inputs, vec![owned]);
        assert!(index.receiving.is_empty() && index.move_calls.is_empty());
        assert!(index.funds_withdrawals.is_empty());
        // A reservation in the gas payment is indexed for every kind.
        assert_eq!(index.coin_reservations, vec![reservation_ref(0x61)]);
    }
}

#[test]
fn programmable_transactions() {
    for user in [true, false] {
        let kind = if user {
            TransactionKind::ProgrammableTransaction(programmable())
        } else {
            TransactionKind::ProgrammableSystemTransaction(programmable())
        };
        let index = TransactionIndex::build(&kind, &payment());
        check_programmable_index(&index, user);
    }
}

// Writing transactions.

fn write_argument(w: &mut Writer, a: &Argument) {
    match a {
        Argument::GasCoin => w.u8(0),
        Argument::Input(i) => {
            w.u8(1);
            w.u16(*i);
        },
        Argument::Result(i) => {
            w.u8(2);
            w.u16(*i);
        },
        Argument::NestedResult(i, j) => {
            w.u8(3);
            w.u16(*i);
            w.u16(*j);
        },
    }
}

fn write_arguments(w: &mut Writer, v: &[Argument]) {
    w.len_prefix(v.len());
    for a in v {
        write_argument(w, a);
    }
}

fn write_modules(w: &mut Writer, modules: &[Vec<u8>]) {
    w.len_prefix(modules.len());
    for m in modules {
        w.bytes(m);
    }
}

fn write_ids(w: &mut Writer, ids: &[ObjectId]) {
    w.len_prefix(ids.len());
    for i in ids {
        w.raw(&i.0);
    }
}

fn write_call_arg(w: &mut Writer, c: &CallArg) {
    match c {
        CallArg::Pure(b) => {
            w.u8(0);
            w.bytes(b);
        },
        CallArg::Object(o) => {
            w.u8(1);
            match o {
                ObjectArg::ImmOrOwnedObject(r) => {
                    w.u8(0);
                    write_ref(w, r);
                },
                ObjectArg::SharedObject(s) => {
                    w.u8(1);
                    w.raw(&s.id.0);
                    w.raw(&s.initial_shared_version.0);
                    w.u8(match s.mutability() {
                        SharedObjectMutability::Immutable => 0,
                        SharedObjectMutability::Mutable => 1,
                        SharedObjectMutability::NonExclusiveWrite => 2,
                    });
                },
                ObjectArg::Receiving(r) => {
                    w.u8(2);
                    write_ref(w, r);
                },
            }
        },
        CallArg::FundsWithdrawal(f) => {
            w.u8(2);
            let Reservation::MaxAmountU64(amount) = f.reservation;
            w.u8(0);
            w.u64(amount);
            let WithdrawalTypeArg::Balance(ty) = &f.type_arg;
            w.u8(0);
            w.type_tag(ty);
            match f.withdraw_from {
                WithdrawFrom::Sender => w.u8(0),
                WithdrawFrom::Sponsor => w.u8(1),
                WithdrawFrom::SenderAllowance { funder, allowance } => {
                    w.u8(2);
                    w.address(&funder);
                    w.raw(&allowance.0);
                },
            }
        },
    }
}

fn write_command(w: &mut Writer, c: &Command) {
    match c {
        Command::MoveCall(m) => {
            w.u8(0);
            w.raw(&m.package.0);
            w.string(&m.module);
            w.string(&m.function);
            w.len_prefix(m.type_arguments.len());
            for ty in &m.type_arguments {
                w.type_tag(ty);
            }
            write_arguments(w, &m.arguments);
        },
        Command::TransferObjects(objs, to) => {
            w.u8(1);
            write_arguments(w, objs);
            write_argument(w, to);
        },
        Command::SplitCoins(c, amounts) => {
            w.u8(2);
            write_argument(w, c);
            write_arguments(w, amounts);
        },
        Command::MergeCoins(c, coins) => {
            w.u8(3);
            write_argument(w, c);
            write_arguments(w, coins);
        },
        Command::Publish(m, d) => {
            w.u8(4);
            write_modules(w, m);
            write_ids(w, d);
        },
        Command::MakeMoveVec(ty, a) => {
            w.u8(5);
            match ty {
                Some(x) => {
                    w.u8(1);
                    w.type_tag(x);
                },
                None => w.u8(0),
            }
            write_arguments(w, a);
        },
        Command::Upgrade(m, d, p, a) => {
            w.u8(6);
            write_modules(w, m);
            write_ids(w, d);
            w.raw(&p.0);
            write_argument(w, a);
        },
    }
}

fn write_programmable(w: &mut Writer, pt: &ProgrammableTransaction) {
    w.len_prefix(pt.inputs.len());
    for c in &pt.inputs {
        write_call_arg(w, c);
    }
    w.len_prefix(pt.commands.len());
    for c in &pt.commands {
        write_command(w, c);
    }
}

fn write_genesis_object(w: &mut Writer, g: &GenesisObject) {
    w.u8(0);
    write_data(w, &g.data);
    w.owner(&g.owner);
}

/// Writes the kinds these tests sign: user transactions and genesis.
fn write_kind(w: &mut Writer, kind: &TransactionKind) {
    match kind {
        TransactionKind::ProgrammableTransaction(pt) => {
            w.u8(0);
            write_programmable(w, pt);
        },
        TransactionKind::ChangeEpoch(c) => {
            w.u8(1);
            for v in [
                c.epoch,
                c.protocol_version,
                c.storage_charge,
                c.computation_charge,
                c.storage_rebate,
                c.non_refundable_storage_fee,
                c.epoch_start_timestamp_ms,
            ] {
                w.u64(v);
            }
            w.len_prefix(c.system_packages.len());
            for p in &c.system_packages {
                w.u64(p.version);
                write_modules(w, &p.modules);
                write_ids(w, &p.dependencies);
            }
        },
        TransactionKind::Genesis(objects) => {
            w.u8(2);
            w.len_prefix(objects.len());
            for g in objects {
                write_genesis_object(w, g);
            }
        },
        _ => panic!("not written here"),
    }
}

fn chain() -> Digest {
    digest(0x74)
}

fn expiration(n: usize) -> TransactionExpiration {
    match n {
        0 => TransactionExpiration::NoExpiration,
        1 => TransactionExpiration::Epoch(7),
        2 => TransactionExpiration::ValidDuring(ValidDuring {
            min_epoch: Some(1),
            max_epoch: None,
            min_timestamp: None,
            max_timestamp: Some(2),
            chain: chain(),
            nonce: 3,
        }),
        _ => TransactionExpiration::Validity(
            ValidDuring {
                min_epoch: None,
                max_epoch: Some(4),
                min_timestamp: Some(5),
                max_timestamp: None,
                chain: chain(),
                nonce: 6,
            },
            if n == 3 {
                Some(AllowedProposers { epoch: 8, proposers: vec![U32Le::new(0), U32Le::new(3), U32Le::new(9)] })
            } else {
                None
            },
        ),
    }
}

fn write_valid_during(w: &mut Writer, v: &ValidDuring) {
    w.option_u64(v.min_epoch);
    w.option_u64(v.max_epoch);
    w.option_u64(v.min_timestamp);
    w.option_u64(v.max_timestamp);
    w.digest(&v.chain);
    w.u32(v.nonce);
}

fn write_expiration(w: &mut Writer, e: &TransactionExpiration) {
    match e {
        TransactionExpiration::NoExpiration => w.u8(0),
        TransactionExpiration::Epoch(x) => {
            w.u8(1);
            w.u64(*x);
        },
        TransactionExpiration::ValidDuring(v) => {
            w.u8(2);
            write_valid_during(w, v);
        },
        TransactionExpiration::Validity(v, p) => {
            w.u8(3);
            write_valid_during(w, v);
            match p {
                Some(p) => {
                    w.u8(1);
                    w.u64(p.epoch);
                    w.len_prefix(p.proposers.len());
                    for x in &p.proposers {
                        w.raw(&x.0);
                    }
                },
                None => w.u8(0),
            }
        },
    }
}

/// A transaction of `kind` from 0x63, paid by 0x60 and a reservation, with
/// the `n`th expiration, and its bytes.
fn write_transaction(w: &mut Writer, kind: &TransactionKind, n: usize) {
    let gas = payment();
    w.u8(0);
    write_kind(w, kind);
    w.address(&address(0x63));
    w.len_prefix(gas.payment.len());
    for r in &gas.payment {
        write_ref(w, r);
    }
    w.address(&gas.owner);
    w.u64(gas.price);
    w.u64(gas.budget);
    write_expiration(w, &expiration(n));
}

/// A signed transaction: one transaction, the zero intent, two signatures.
fn signed(kind: &TransactionKind, n: usize) -> Vec<u8> {
    let mut w = Writer::new_in(0);
    w.u8(1);
    w.raw(&[0, 0, 0]);
    write_transaction(&mut w, kind, n);
    w.len_prefix(2);
    for s in signatures() {
        w.bytes(&s.0);
    }
    w.finish_bytes()
}

fn check_signed(data: &SenderSignedData, kind: &TransactionKind, n: usize) {
    assert_eq!(*data.digest(), Digest::of("TransactionData", &data.data.bytes));
    assert_eq!(data.data.kind, *kind);
    assert_eq!(data.data.expiration, expiration(n));
    assert_eq!(data.tx_signatures, signatures());
}

/// Every expiration, on a signed transaction.
#[test]
fn expirations_and_sender_signed_data() {
    let kind = TransactionKind::ProgrammableTransaction(programmable());
    for n in 0..5 {
        let message = parse::<SenderSignedData>(signed(&kind, n));
        let data = message.get();
        check_signed(data, &kind, n);
        assert_eq!(data.tx_signatures.len(), 2);
    }
    // The envelope adds no bytes, so it parses as the data it wraps.
    let kind = TransactionKind::ChangeEpoch(change_epoch());
    let message = parse::<SenderSignedData>(signed(&kind, 1));
    check_signed(message.get(), &kind, 1);
}

fn genesis_objects() -> Vec<GenesisObject> {
    owned_data().into_iter().map(|(data, owner)| GenesisObject { data, owner }).collect()
}

fn objects() -> Vec<(Data, Owner)> {
    owned_data()
}

fn write_objects(w: &mut Writer, objects: &[(Data, Owner)]) {
    w.len_prefix(objects.len());
    for (data, owner) in objects {
        write_data(w, data);
        w.owner(owner);
        w.digest(&digest(0x51));
        w.u64(100);
    }
}

/// A user transaction with V2 effects, then a genesis with V1 effects: each
/// signed transaction's bytes and its effects' bytes.
fn executed() -> [(Vec<u8>, Vec<u8>); 2] {
    let user = TransactionKind::ProgrammableTransaction(programmable());
    let genesis = TransactionKind::Genesis(genesis_objects());
    [(signed(&user, 3), effects_v2(ExecutionStatus::Success, true).0), (signed(&genesis, 0), effects_v1())]
}

fn check_executed(transaction: &SenderSignedData, effects: &TransactionEffects) {
    assert_eq!(*transaction.digest(), Digest::of("TransactionData", &transaction.data.bytes));
    assert_eq!(effects.digest, Digest::of("TransactionEffects", &effects.bytes));
}

#[test]
fn full_checkpoint_contents() {
    let mut w = Writer::new_in(0);
    w.len_prefix(2);
    for (transaction, effects) in executed() {
        w.raw(&transaction);
        w.raw(&effects);
    }
    w.len_prefix(2);
    w.len_prefix(2);
    for s in signatures() {
        w.bytes(&s.0);
    }
    w.len_prefix(0);
    let message = parse::<FullCheckpointContents>(w.finish_bytes());
    let view = message.get();
    assert_eq!(view.transactions.len(), 2);
    for t in &view.transactions {
        check_executed(&t.transaction, &t.effects);
    }
    assert_eq!(view.user_signatures, vec![SignatureList(signatures()), SignatureList(vec![])]);
}

#[test]
fn checkpoint_data() {
    let [(user, user_effects), (genesis, genesis_effects)] = executed();
    let mut events = EventsBuilder::new_in(2);
    events.push(event(vec![1, 2, 3]));
    events.push(event(vec![]));
    let mut w = Writer::new_in(0);
    w.raw(&summary(true));
    w.u64(5);
    w.raw(&[0x55; 48]);
    w.bytes(&[1, 2, 3]);
    w.raw(&contents(true).0);
    w.len_prefix(2);
    w.raw(&user);
    w.raw(&user_effects);
    w.u8(1);
    w.raw(&events.finish().bytes);
    write_objects(&mut w, &objects());
    w.len_prefix(0);
    w.raw(&genesis);
    w.raw(&genesis_effects);
    w.u8(0);
    w.len_prefix(0);
    write_objects(&mut w, &objects());
    let message = parse::<CheckpointData>(w.finish_bytes());
    let view = message.get();
    let summary = &view.checkpoint_summary.data;
    assert_eq!(summary.digest, Digest::of("CheckpointSummary", &summary.bytes));
    let contents = &view.checkpoint_contents;
    assert_eq!(contents.digest(), Digest::of("CheckpointContents", &contents.bytes));
    assert_eq!(view.transactions.len(), 2);
    for t in &view.transactions {
        check_executed(&t.transaction, &t.effects);
        if let Some(events) = &t.events {
            assert_eq!(events.digest(), Digest::of("TransactionEvents", &events.bytes));
            assert_eq!(events.data.len(), 2);
        }
        for object in t.input_objects.iter().chain(t.output_objects.iter()) {
            assert_eq!(object.previous_transaction, digest(0x51));
        }
    }
    assert_eq!(view.transactions[0].input_objects.len(), 7);
    assert_eq!(view.transactions[1].output_objects.len(), 7);
    let data = &view.transactions[0].transaction.data;
    check_programmable_index(&TransactionIndex::build(&data.kind, &data.gas_data), true);
}
