//! The smallest encodings. A parser refuses a sequence that claims more
//! elements than the rest of the input could hold at `MIN_WIRE_SIZE`
//! bytes each, so each `MIN_WIRE_SIZE` must be a lower bound: no value of
//! the type encodes in fewer bytes.
use vstd::prelude::*;
use crate::checkpoint::CheckpointTransaction;
use crate::effects::{
    Event, ObjectChange, TransactionEffects, VersionedEffects, enc_v1_head, enc_v1_tail,
    enc_v2_head, enc_v2_tail,
};
use crate::execution_status::ExecutionStatus;
use crate::object::{Data, GenesisObject, Object, Owner};
use crate::signature::CompressedSignature;
use crate::system_transaction::EndOfEpochTransactionKind;
use crate::transaction::{
    Argument, CallArg, Command, GenericSignature, SenderSignedData, TransactionData,
    TransactionKind,
};
use crate::type_tag::{StructTag, TypeTag, enc_st, enc_tt};
use crate::wire::{Wire, enc_uleb, enc_bytes, enc_seq, enc_option, enc_string};

verus! {

pub proof fn lemma_uleb_nonempty(v: u32)
    ensures
        enc_uleb(v).len() >= 1,
{
}

pub proof fn lemma_seq_nonempty<T: Wire>(v: Seq<T>)
    ensures
        enc_seq(v).len() >= 1,
{
    lemma_uleb_nonempty(v.len() as u32);
}

pub proof fn lemma_bytes_nonempty(b: Seq<u8>)
    ensures
        enc_bytes(b).len() >= 1,
{
    lemma_uleb_nonempty(b.len() as u32);
}

pub proof fn lemma_option_nonempty<T: Wire>(o: Option<T>)
    ensures
        enc_option(o).len() >= 1,
{
}

pub proof fn lemma_string_nonempty(t: String)
    ensures
        enc_string(t).len() >= 1,
{
    lemma_bytes_nonempty(vstd::utf8::encode_utf8(t@));
}

pub proof fn lemma_type_tag_min_wire_size(t: TypeTag)
    ensures
        enc_tt(t).len() >= TypeTag::MIN_WIRE_SIZE,
{
    reveal_with_fuel(enc_uleb, 1);
}

/// An address and three lengths.
pub proof fn lemma_struct_tag_size(t: StructTag)
    ensures
        enc_st(t).len() >= 35,
{
    lemma_string_nonempty(t.module);
    lemma_string_nonempty(t.name);
    lemma_uleb_nonempty(t.type_params@.len() as u32);
}

pub proof fn lemma_owner_min_wire_size(o: Owner)
    ensures
        o.enc().len() >= Owner::MIN_WIRE_SIZE,
{
    reveal_with_fuel(enc_uleb, 1);
}

pub proof fn lemma_argument_min_wire_size(a: Argument)
    ensures
        a.enc().len() >= Argument::MIN_WIRE_SIZE,
{
    reveal_with_fuel(enc_uleb, 1);
}

pub proof fn lemma_generic_signature_min_wire_size(g: GenericSignature)
    ensures
        g.enc().len() >= GenericSignature::MIN_WIRE_SIZE,
{
    lemma_bytes_nonempty(g.0@);
}

pub proof fn lemma_end_of_epoch_kind_min_wire_size(k: EndOfEpochTransactionKind)
    ensures
        k.enc().len() >= EndOfEpochTransactionKind::MIN_WIRE_SIZE,
{
    reveal_with_fuel(enc_uleb, 1);
}

pub proof fn lemma_compressed_signature_min_wire_size(c: CompressedSignature)
    ensures
        c.enc().len() >= CompressedSignature::MIN_WIRE_SIZE,
{
    reveal_with_fuel(enc_uleb, 1);
    match c {
        CompressedSignature::ZkLogin(b) => lemma_bytes_nonempty(b@),
        CompressedSignature::Passkey(b) => lemma_bytes_nonempty(b@),
        _ => {},
    }
}

pub proof fn lemma_call_arg_min_wire_size(c: CallArg)
    ensures
        c.enc().len() >= CallArg::MIN_WIRE_SIZE,
{
    reveal_with_fuel(enc_uleb, 1);
    match c {
        CallArg::Pure(b) => lemma_bytes_nonempty(b@),
        CallArg::Object(o) => {
            assert(o.enc().len() >= 1) by {
                reveal_with_fuel(enc_uleb, 1);
            }
        },
        CallArg::FundsWithdrawal(w) => {
            assert(w.enc().len() >= 1) by {
                reveal_with_fuel(enc_uleb, 1);
            }
        },
    }
}

pub proof fn lemma_command_min_wire_size(c: Command)
    ensures
        c.enc().len() >= Command::MIN_WIRE_SIZE,
{
    reveal_with_fuel(enc_uleb, 1);
    match c {
        Command::MoveCall(m) => {
            lemma_string_nonempty(m.module);
            lemma_string_nonempty(m.function);
        },
        Command::TransferObjects(objs, to) => {
            lemma_seq_nonempty(objs@);
            lemma_argument_min_wire_size(to);
        },
        Command::SplitCoins(a, amounts) => {
            lemma_argument_min_wire_size(a);
            lemma_seq_nonempty(amounts@);
        },
        Command::MergeCoins(a, coins) => {
            lemma_argument_min_wire_size(a);
            lemma_seq_nonempty(coins@);
        },
        Command::Publish(m, d) => {
            lemma_seq_nonempty(m@);
            lemma_seq_nonempty(d@);
        },
        Command::MakeMoveVec(t, a) => {
            lemma_seq_nonempty(a@);
        },
        Command::Upgrade(m, d, p, t) => {
            lemma_seq_nonempty(m@);
            lemma_seq_nonempty(d@);
        },
    }
}

/// A Move object is at least a type, a flag, a version and a length; a
/// package far more.
pub proof fn lemma_data_size(d: Data)
    ensures
        d.enc().len() >= 12,
{
    reveal_with_fuel(enc_uleb, 1);
    match d {
        Data::Move(o) => {
            assert(o.type_.enc().len() >= 1);
            lemma_bytes_nonempty(o.contents@);
        },
        Data::Package(p) => {
            lemma_uleb_nonempty(p.module_map@.len() as u32);
        },
    }
}

pub proof fn lemma_object_min_wire_size(o: Object)
    ensures
        o.enc().len() >= Object::MIN_WIRE_SIZE,
{
    lemma_data_size(o.data);
    lemma_owner_min_wire_size(o.owner);
}

pub proof fn lemma_genesis_object_min_wire_size(o: GenesisObject)
    ensures
        o.enc().len() >= GenesisObject::MIN_WIRE_SIZE,
{
    lemma_uleb_nonempty(0);
    lemma_data_size(o.data);
    lemma_owner_min_wire_size(o.owner);
}

pub proof fn lemma_object_change_min_wire_size(c: ObjectChange)
    ensures
        c.enc().len() >= ObjectChange::MIN_WIRE_SIZE,
{
    reveal_with_fuel(enc_uleb, 1);
    assert(c.input_state.enc().len() >= 1);
    assert(c.output_state.enc().len() >= 1);
    assert(c.id_operation.enc().len() >= 1);
}

pub proof fn lemma_event_min_wire_size(e: Event)
    ensures
        e.enc().len() >= Event::MIN_WIRE_SIZE,
{
    lemma_string_nonempty(e.transaction_module);
    lemma_struct_tag_size(e.type_);
    lemma_bytes_nonempty(e.contents@);
}

pub proof fn lemma_status_nonempty(s: ExecutionStatus)
    ensures
        s.enc().len() >= 1,
{
    reveal_with_fuel(enc_uleb, 1);
}

pub proof fn lemma_transaction_effects_min_wire_size(e: TransactionEffects)
    ensures
        e.enc().len() >= TransactionEffects::MIN_WIRE_SIZE,
{
    reveal_with_fuel(enc_uleb, 1);
    match e.version {
        VersionedEffects::V1(v) => {
            lemma_status_nonempty(v.status);
            lemma_seq_nonempty(v.modified_at_versions@);
            lemma_seq_nonempty(v.shared_objects@);
            lemma_seq_nonempty(v.created@);
            lemma_seq_nonempty(v.mutated@);
            lemma_seq_nonempty(v.unwrapped@);
            lemma_seq_nonempty(v.deleted@);
            lemma_seq_nonempty(v.unwrapped_then_deleted@);
            lemma_seq_nonempty(v.wrapped@);
            lemma_seq_nonempty(v.dependencies@);
            assert(enc_v1_head(v).len() >= 1 + 8 + 32 + 1 + 1 + 33);
            assert(v.gas_object.enc().len() >= 73) by {
                lemma_owner_min_wire_size(v.gas_object.1);
            }
            assert(enc_v1_tail(v).len() >= 73);
        },
        VersionedEffects::V2(v) => {
            lemma_status_nonempty(v.status);
            lemma_seq_nonempty(v.dependencies@);
            lemma_seq_nonempty(v.changed_objects@);
            lemma_seq_nonempty(v.unchanged_consensus_objects@);
            assert(enc_v2_head(v).len() >= 1 + 8 + 32 + 33 + 1 + 1 + 1 + 8);
            assert(enc_v2_tail(v).len() >= 3);
        },
    }
}

/// Every kind is a tag and at least one more byte.
pub proof fn lemma_kind_size(k: TransactionKind)
    ensures
        k.enc().len() >= 2,
{
    reveal_with_fuel(enc_uleb, 1);
    match k {
        TransactionKind::ProgrammableTransaction(p) => lemma_seq_nonempty(p.inputs@),
        TransactionKind::Genesis(g) => lemma_seq_nonempty(g@),
        TransactionKind::EndOfEpochTransaction(v) => lemma_seq_nonempty(v@),
        TransactionKind::ProgrammableSystemTransaction(p) => lemma_seq_nonempty(p.inputs@),
        _ => {},
    }
}

pub proof fn lemma_transaction_data_size(d: TransactionData)
    ensures
        d.enc().len() >= 1 + 2 + 32 + (1 + 32 + 8 + 8) + 1,
{
    lemma_uleb_nonempty(0);
    lemma_kind_size(d.kind);
    lemma_seq_nonempty(d.gas_data.payment@);
    assert(d.expiration.enc().len() >= 1) by {
        reveal_with_fuel(enc_uleb, 1);
    }
}

pub proof fn lemma_sender_signed_data_min_wire_size(d: SenderSignedData)
    ensures
        d.enc().len() >= SenderSignedData::MIN_WIRE_SIZE,
{
    lemma_uleb_nonempty(1);
    lemma_transaction_data_size(d.data);
    lemma_seq_nonempty(d.tx_signatures@);
}

pub proof fn lemma_checkpoint_transaction_min_wire_size(t: CheckpointTransaction)
    ensures
        t.enc().len() >= CheckpointTransaction::MIN_WIRE_SIZE,
{
    lemma_sender_signed_data_min_wire_size(t.transaction);
    lemma_transaction_effects_min_wire_size(t.effects);
    lemma_seq_nonempty(t.input_objects@);
    lemma_seq_nonempty(t.output_objects@);
}

} // verus!
