use anchovy::base::{Digest, ObjectId, ObjectRef, SuiAddress, U64Le};
use anchovy::system_transaction::ConsensusCommitPrologue;
use anchovy::transaction::{
    Argument, CallArg, Command, GasData, ObjectArg, ProgrammableMoveCall, ProgrammableTransaction,
    SharedObjectArg, SharedObjectMutability, TransactionKind,
};
use anchovy::tx_index::{sui_clock_object_id, TransactionIndex};
use anchovy::type_tag::{StructTag, TypeTag};
use anchovy::base::AccountAddress;

fn id(n: u8) -> ObjectId {
    let mut b = [0; 32];
    b[31] = n;
    ObjectId(b)
}

fn object_ref(n: u8) -> ObjectRef {
    ObjectRef { id: id(n), version: U64Le::new(u64::from(n)), digest: Digest::new([n; 32]) }
}

/// An address balance reservation: the digest ends in twenty `0xac` bytes.
fn reservation_ref(n: u8) -> ObjectRef {
    let mut bytes = [0xac; 32];
    bytes[..12].copy_from_slice(&[n; 12]);
    ObjectRef { id: id(n), version: U64Le::new(0), digest: Digest::new(bytes) }
}

fn shared(n: u8) -> SharedObjectArg {
    SharedObjectArg::new(id(n), u64::from(n), SharedObjectMutability::Mutable)
}

fn call(package: u8, type_arguments: Vec<TypeTag>) -> Command {
    Command::MoveCall(ProgrammableMoveCall {
        package: id(package),
        module: "m".into(),
        function: "f".into(),
        type_arguments,
        arguments: vec![Argument::Input(0)],
    })
}

fn struct_of(n: u8, type_params: Vec<TypeTag>) -> TypeTag {
    let mut address = [0; 32];
    address[31] = n;
    TypeTag::Struct(Box::new(StructTag {
        address: AccountAddress(address),
        module: "m".into(),
        name: "S".into(),
        type_params,
    }))
}

fn gas(payment: Vec<ObjectRef>) -> GasData {
    GasData { payment, owner: SuiAddress([0; 32]), price: 1, budget: 2 }
}

#[test]
fn programmable_inputs_are_sorted_into_the_index() {
    let pt = ProgrammableTransaction {
        inputs: vec![
            CallArg::Pure(vec![1]),
            CallArg::Object(ObjectArg::ImmOrOwnedObject(object_ref(1))),
            CallArg::Object(ObjectArg::SharedObject(shared(2))),
            CallArg::Object(ObjectArg::Receiving(object_ref(3))),
            CallArg::Object(ObjectArg::ImmOrOwnedObject(reservation_ref(4))),
            CallArg::Object(ObjectArg::SharedObject(shared(2))),
        ],
        commands: vec![
            call(0x22, vec![TypeTag::Vector(Box::new(struct_of(0x21, vec![struct_of(0x23, vec![])])))]),
            Command::TransferObjects(vec![Argument::Input(1)], Argument::Input(0)),
            call(0x21, vec![]),
        ],
    };
    let kind = TransactionKind::ProgrammableTransaction(pt);
    let idx = TransactionIndex::build(&kind, &gas(vec![object_ref(5), reservation_ref(6)]));
    assert_eq!(idx.shared_inputs, vec![shared(2), shared(2)]);
    assert_eq!(idx.owned_inputs, vec![object_ref(1), object_ref(5)]);
    assert_eq!(idx.coin_reservations, vec![reservation_ref(4), reservation_ref(6)]);
    assert_eq!(idx.receiving, vec![object_ref(3)]);
    assert_eq!(idx.move_calls, vec![0, 2]);
    assert_eq!(idx.packages, vec![id(0x21), id(0x22), id(0x23)]);
    assert!(idx.funds_withdrawals.is_empty());
}

#[test]
fn system_transactions_name_the_objects_they_write() {
    let kind = TransactionKind::ConsensusCommitPrologue(ConsensusCommitPrologue {
        epoch: 1,
        round: 2,
        commit_timestamp_ms: 3,
    });
    let idx = TransactionIndex::build(&kind, &gas(vec![object_ref(5)]));
    assert_eq!(
        idx.shared_inputs,
        vec![SharedObjectArg::new(sui_clock_object_id(), 1, SharedObjectMutability::Mutable)]
    );
    assert!(idx.owned_inputs.is_empty());
    assert!(idx.packages.is_empty());
    assert!(idx.move_calls.is_empty());
}

#[test]
fn coin_reservations_are_recognised_by_their_digest() {
    assert!(reservation_ref(1).is_coin_reservation());
    assert!(!object_ref(1).is_coin_reservation());
    let mut almost = reservation_ref(1);
    almost.digest.bytes[31] = 0;
    assert!(!almost.is_coin_reservation());
}
