//! What the writer writes, the parsers read back as the same value, and
//! nothing short of a whole encoding parses.

use anchovy::base::{AccountAddress, Digest, ObjectId, SuiAddress, U64Le};
use anchovy::object::{Owner, Party, PartyMember};
use anchovy::builders::EventsBuilder;
use anchovy::effects::{Event, TransactionEffects, TransactionEvents, VersionedEffects};
use anchovy::type_tag::{StructTag, TypeTag};
use anchovy::error::ParseError;
use anchovy::execution_status::{
    CommandArgumentError, ExecutionErrorKind, ModuleId, MoveLocation, PackageUpgradeError,
    TypeArgumentError,
};
use anchovy::fast::Writer;
use anchovy::grpc::{ObjectInfoRequest, ObjectInfoRequestKind};
use anchovy::reader::Reader;

fn location(name: Option<&str>) -> MoveLocation {
    MoveLocation {
        module: ModuleId { address: AccountAddress([7; 32]), name: "coin".to_string() },
        function: 3,
        instruction: 258,
        function_name: name.map(|n| n.to_string()),
    }
}

fn errors() -> Vec<ExecutionErrorKind> {
    vec![
        ExecutionErrorKind::InsufficientGas,
        ExecutionErrorKind::MoveObjectTooBig { object_size: 300, max_object_size: 256 },
        ExecutionErrorKind::CircularObjectOwnership { object: ObjectId([1; 32]) },
        ExecutionErrorKind::MovePrimitiveRuntimeError(None),
        ExecutionErrorKind::MovePrimitiveRuntimeError(Some(location(None))),
        ExecutionErrorKind::MoveAbort(location(Some("split")), 0x1_0000_0001),
        ExecutionErrorKind::CommandArgumentError {
            arg_idx: 2,
            kind: CommandArgumentError::SecondaryIndexOutOfBounds { result_idx: 1, secondary_idx: 513 },
        },
        ExecutionErrorKind::TypeArgumentError { argument_idx: 0, kind: TypeArgumentError::ConstraintNotSatisfied },
        ExecutionErrorKind::PackageUpgradeError {
            upgrade_error: PackageUpgradeError::DigestDoesNotMatch { digest: vec![9, 8, 7] },
        },
        ExecutionErrorKind::PackageUpgradeError {
            upgrade_error: PackageUpgradeError::PackageIDDoesNotMatch {
                package_id: ObjectId([2; 32]),
                ticket_id: ObjectId([3; 32]),
            },
        },
        ExecutionErrorKind::ExecutionCancelledDueToSharedObjectCongestion {
            congested_objects: vec![ObjectId([4; 32]), ObjectId([5; 32])],
        },
        ExecutionErrorKind::AddressDeniedForCoin {
            address: SuiAddress([6; 32]),
            coin_type: "0x2::sui::SUI".to_string(),
        },
        ExecutionErrorKind::CoinTypeGlobalPause { coin_type: "0x2::coin::ÉTÉ".to_string() },
        ExecutionErrorKind::NonExclusiveWriteInputObjectModified { id: ObjectId([8; 32]) },
    ]
}

#[test]
fn execution_errors_read_back() {
    for e in errors() {
        let mut w = Writer::new_in(0);
        w.execution_error(&e);
        let bytes = w.finish_bytes();
        let mut r = Reader::new(&bytes);
        assert_eq!(ExecutionErrorKind::parse(&mut r), Ok(e.clone()), "{e:?}");
        assert_eq!(r.remaining(), 0);
    }
}

#[test]
fn execution_error_tags_past_the_last_are_refused() {
    for tag in [42u8, 43, 127] {
        let bytes = [tag, 0, 0, 0];
        let mut r = Reader::new(&bytes);
        assert_eq!(
            ExecutionErrorKind::parse(&mut r),
            Err(ParseError::UnknownVariant { ty: "ExecutionErrorKind", tag: tag as u32 })
        );
    }
    let bytes = [0x80u8, 0x01];
    let mut r = Reader::new(&bytes);
    assert_eq!(
        ExecutionErrorKind::parse(&mut r),
        Err(ParseError::UnknownVariant { ty: "ExecutionErrorKind", tag: 128 })
    );
}

#[test]
fn object_info_request_prefixes_do_not_parse() {
    let requests = [
        ObjectInfoRequest {
            object_id: ObjectId([0xab; 32]),
            generate_layout: true,
            request_kind: ObjectInfoRequestKind::LatestObjectInfo,
        },
        ObjectInfoRequest {
            object_id: ObjectId([0xcd; 32]),
            generate_layout: false,
            request_kind: ObjectInfoRequestKind::PastObjectInfoDebug(42),
        },
    ];
    for q in requests {
        let mut w = Writer::new_in(0);
        q.write(&mut w);
        let bytes = w.finish_bytes();
        assert_eq!(ObjectInfoRequest::parse(&bytes), Ok(q));
        for k in 0..bytes.len() {
            assert_eq!(ObjectInfoRequest::parse(&bytes[..k]), Err(ParseError::UnexpectedEof), "prefix {k}");
        }
    }
}

fn event(module: &str, contents: Vec<u8>) -> Event {
    let inner = StructTag {
        address: AccountAddress([2; 32]),
        module: "sui".to_string(),
        name: "SUI".to_string(),
        type_params: vec![],
    };
    Event {
        package_id: ObjectId([9; 32]),
        transaction_module: module.to_string(),
        sender: SuiAddress([1; 32]),
        type_: StructTag {
            address: AccountAddress([2; 32]),
            module: "coin".to_string(),
            name: "CoinEvent".to_string(),
            type_params: vec![TypeTag::Vector(Box::new(TypeTag::Struct(Box::new(inner)))), TypeTag::U64],
        },
        contents,
    }
}

#[test]
fn events_parsed_in_place_and_alone_agree() {
    let mut builder = EventsBuilder::new_in(2);
    builder.push(event("pay", vec![1, 2, 3]));
    builder.push(event("", vec![]));
    let built = builder.finish();
    // The events inside a larger buffer, as a checkpoint holds them.
    let mut buffer = vec![0xee, 0xff];
    buffer.extend_from_slice(&built.bytes);
    buffer.extend_from_slice(&[7, 7, 7]);
    let mut r = Reader::new(&buffer);
    r.bytes(2).unwrap();
    let in_place = TransactionEvents::parse(&mut r).unwrap();
    assert_eq!(r.remaining(), 3);
    assert_eq!(in_place.bytes, built.bytes);
    let mut alone = Reader::new(&in_place.bytes);
    let again = TransactionEvents::parse(&mut alone).unwrap();
    assert_eq!(alone.remaining(), 0);
    assert_eq!(again, in_place);
    assert_eq!(again.data, vec![event("pay", vec![1, 2, 3]), event("", vec![])]);
}

#[test]
fn owners_read_back() {
    let owners = vec![
        Owner::AddressOwner(SuiAddress([1; 32])),
        Owner::ObjectOwner(SuiAddress([2; 32])),
        Owner::Shared { initial_shared_version: 5 },
        Owner::Immutable,
        Owner::ConsensusAddressOwner { start_version: 6, owner: SuiAddress([3; 32]) },
        Owner::Party(Party {
            start_version: 7,
            default_permissions: 15,
            members: vec![PartyMember { address: SuiAddress([4; 32]), permissions: U64Le(3u64.to_le_bytes()) }],
        }),
    ];
    for (tag, o) in owners.into_iter().enumerate() {
        let mut w = Writer::new_in(0);
        w.owner(&o);
        let bytes = w.finish_bytes();
        assert_eq!(bytes[0] as usize, tag);
        let mut r = Reader::new(&bytes);
        assert_eq!(Owner::parse(&mut r), Ok(o));
        assert_eq!(r.remaining(), 0);
    }
    let mut w = Writer::new_in(0);
    w.owner(&Owner::Immutable);
    assert_eq!(w.finish_bytes(), vec![3]);
}

#[test]
fn empty_events_builder_writes_a_zero_count() {
    let built = EventsBuilder::new_in(0).finish();
    assert_eq!(built.bytes, vec![0]);
    let mut r = Reader::new(&built.bytes);
    let events = TransactionEvents::parse(&mut r).unwrap();
    assert!(events.data.is_empty());
    assert_eq!(events.digest(), built.digest);
}

#[test]
fn type_tags_read_back() {
    let tag = TypeTag::Vector(Box::new(TypeTag::Struct(Box::new(StructTag {
        address: AccountAddress([2; 32]),
        module: "coin".to_string(),
        name: "Coin".to_string(),
        type_params: vec![TypeTag::U256, TypeTag::Signer],
    }))));
    let mut w = Writer::new_in(0);
    w.type_tag(&tag);
    let bytes = w.finish_bytes();
    assert_eq!(bytes[0], 6);
    assert_eq!(bytes[1], 7);
    let mut r = Reader::new(&bytes);
    assert_eq!(TypeTag::parse(&mut r), Ok(tag));
    assert_eq!(r.remaining(), 0);
}

fn v2_effects() -> Vec<u8> {
    let mut v = vec![1, 1, 0]; // V2, a failure with an error kind of index 0
    v.push(1); // its command: present
    v.extend_from_slice(&3u64.to_le_bytes());
    v.extend_from_slice(&9u64.to_le_bytes()); // epoch
    for cost in [1u64, 2, 3, 4] {
        v.extend_from_slice(&cost.to_le_bytes());
    }
    v.push(32);
    v.extend_from_slice(&[5; 32]); // transaction digest
    v.extend_from_slice(&[1, 0, 0, 0, 0]); // gas object index 0
    v.push(0); // no events digest
    v.push(1);
    v.push(32);
    v.extend_from_slice(&[6; 32]); // one dependency
    v.extend_from_slice(&10u64.to_le_bytes()); // lamport version
    v.push(1); // one change
    v.extend_from_slice(&[7; 32]);
    v.push(0); // input: did not exist
    v.push(1); // output: an object write
    v.push(32);
    v.extend_from_slice(&[8; 32]);
    v.push(3); // immutable
    v.push(1); // created
    v.push(0); // no unchanged objects
    v.push(0); // no auxiliary data
    v
}

fn v1_effects() -> Vec<u8> {
    let mut v = vec![0, 0]; // V1, success
    v.extend_from_slice(&9u64.to_le_bytes());
    v.extend_from_slice(&[0; 32]); // gas
    v.extend_from_slice(&[0, 0]); // modified, shared
    v.push(32);
    v.extend_from_slice(&[5; 32]);
    v.extend_from_slice(&[0, 0, 0, 0, 0, 0]); // the six lists
    v.extend_from_slice(&[7; 32]);
    v.extend_from_slice(&1u64.to_le_bytes());
    v.push(32);
    v.extend_from_slice(&[8; 32]);
    v.push(0);
    v.extend_from_slice(&[9; 32]); // the gas object, owned by an address
    v.push(0); // no events digest
    v.push(0); // no dependencies
    v
}

#[test]
fn effects_parsed_in_place_and_alone_agree() {
    for (tag, wire) in [(1u8, v2_effects()), (0u8, v1_effects())] {
        let mut buffer = vec![0xee];
        buffer.extend_from_slice(&wire);
        buffer.extend_from_slice(&[1, 2]);
        let mut r = Reader::new(&buffer);
        r.bytes(1).unwrap();
        let in_place = TransactionEffects::parse(&mut r).unwrap();
        assert_eq!(r.remaining(), 2);
        assert_eq!(in_place.bytes, wire);
        assert_eq!(in_place.digest, Digest::of("TransactionEffects", &wire));
        assert_eq!(in_place.bytes[0], tag);
        assert_eq!(matches!(in_place.version, VersionedEffects::V1(_)), tag == 0);
        let mut alone = Reader::new(&in_place.bytes);
        let again = TransactionEffects::parse(&mut alone).unwrap();
        assert_eq!(alone.remaining(), 0);
        assert_eq!(again, in_place);
    }
    let mut bad = v2_effects();
    bad[0] = 2;
    let mut r = Reader::new(&bad);
    assert_eq!(
        TransactionEffects::parse(&mut r),
        Err(ParseError::UnknownVariant { ty: "TransactionEffects", tag: 2 })
    );
}
