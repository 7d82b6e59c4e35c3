//! Each `MIN_WIRE_SIZE` is the length of the smallest value of its type,
//! written out byte by byte here, which its parser also accepts.

use anchovy::checkpoint::CheckpointTransaction;
use anchovy::effects::{ObjectChange, TransactionEffects};
use anchovy::message::Message;
use anchovy::object::{GenesisObject, Object, Owner};
use anchovy::signature::CompressedSignature;
use anchovy::system_transaction::EndOfEpochTransactionKind;
use anchovy::transaction::{Argument, CallArg, Command, GenericSignature, SenderSignedData};
use anchovy::type_tag::TypeTag;
use anchovy::wire::Wire;

/// The length of `bytes`, which must parse whole as a `T`.
fn parsed_wire_len<T: Wire>(bytes: Vec<u8>) -> usize {
    let len = bytes.len();
    if let Err((e, _)) = Message::<T>::parse(bytes) {
        panic!("{:?}", e);
    }
    len
}

/// A Move gas coin with no contents: `Data::Move`, the `GasCoin` type, no
/// public transfer, version zero, no bytes.
fn smallest_move_object() -> Vec<u8> {
    let mut v = vec![0, 1, 0];
    v.extend_from_slice(&[0; 8]);
    v.push(0);
    v
}

/// The gas coin, immutable, after the zero digest, with no rebate.
fn smallest_object() -> Vec<u8> {
    let mut v = smallest_move_object();
    v.push(3);
    v.push(32);
    v.extend_from_slice(&[0; 32]);
    v.extend_from_slice(&[0; 8]);
    v
}

/// One transaction: an empty end-of-epoch transaction from and paid by the
/// zero address, at price and budget zero, that does not expire, unsigned.
fn smallest_sender_signed_data() -> Vec<u8> {
    let mut v = vec![1, 0, 0, 0, 0, 5, 0];
    v.extend_from_slice(&[0; 32]);
    v.push(0);
    v.extend_from_slice(&[0; 32]);
    v.extend_from_slice(&[0; 16]);
    v.push(0);
    v.push(0);
    v
}

/// A successful V2 with nothing optional and every sequence empty.
fn smallest_effects() -> Vec<u8> {
    let mut v = vec![1, 0];
    v.extend_from_slice(&[0; 8]);
    v.extend_from_slice(&[0; 32]);
    v.push(32);
    v.extend_from_slice(&[0; 32]);
    v.extend_from_slice(&[0, 0, 0]);
    v.extend_from_slice(&[0; 8]);
    v.extend_from_slice(&[0, 0, 0]);
    v
}

#[test]
fn type_tag() {
    let len = parsed_wire_len::<TypeTag>(vec![0]);
    assert_eq!(len, TypeTag::MIN_WIRE_SIZE);
}

#[test]
fn argument() {
    let len = parsed_wire_len::<Argument>(vec![0]);
    assert_eq!(len, Argument::MIN_WIRE_SIZE);
}

#[test]
fn call_arg() {
    let len = parsed_wire_len::<CallArg>(vec![0, 0]);
    assert_eq!(len, CallArg::MIN_WIRE_SIZE);
}

#[test]
fn command() {
    let len = parsed_wire_len::<Command>(vec![5, 0, 0]);
    assert_eq!(len, Command::MIN_WIRE_SIZE);
}

#[test]
fn generic_signature() {
    let len = parsed_wire_len::<GenericSignature>(vec![0]);
    assert_eq!(len, GenericSignature::MIN_WIRE_SIZE);
}

#[test]
fn compressed_signature() {
    let len = parsed_wire_len::<CompressedSignature>(vec![3, 0]);
    assert_eq!(len, CompressedSignature::MIN_WIRE_SIZE);
}

#[test]
fn sender_signed_data() {
    let len = parsed_wire_len::<SenderSignedData>(smallest_sender_signed_data());
    assert_eq!(len, SenderSignedData::MIN_WIRE_SIZE);
}

#[test]
fn end_of_epoch_transaction_kind() {
    let len = parsed_wire_len::<EndOfEpochTransactionKind>(vec![1]);
    assert_eq!(len, EndOfEpochTransactionKind::MIN_WIRE_SIZE);
}

#[test]
fn owner() {
    let len = parsed_wire_len::<Owner>(vec![3]);
    assert_eq!(len, Owner::MIN_WIRE_SIZE);
}

#[test]
fn object() {
    let len = parsed_wire_len::<Object>(smallest_object());
    assert_eq!(len, Object::MIN_WIRE_SIZE);
}

#[test]
fn genesis_object() {
    let mut v = vec![0];
    v.extend(smallest_move_object());
    v.push(3);
    let len = parsed_wire_len::<GenesisObject>(v);
    assert_eq!(len, GenesisObject::MIN_WIRE_SIZE);
}

#[test]
fn object_change() {
    let mut v = vec![0; 32];
    v.extend_from_slice(&[0, 0, 0]);
    let len = parsed_wire_len::<ObjectChange>(v);
    assert_eq!(len, ObjectChange::MIN_WIRE_SIZE);
}

#[test]
fn transaction_effects() {
    let len = parsed_wire_len::<TransactionEffects>(smallest_effects());
    assert_eq!(len, TransactionEffects::MIN_WIRE_SIZE);
}

#[test]
fn checkpoint_transaction() {
    let mut v = smallest_sender_signed_data();
    v.extend(smallest_effects());
    v.extend_from_slice(&[0, 0, 0]);
    let len = parsed_wire_len::<CheckpointTransaction>(v);
    assert_eq!(len, CheckpointTransaction::MIN_WIRE_SIZE);
}
