//! User transactions: their kinds, commands, gas and expiration, and the
//! signed envelope around them.
use vstd::prelude::*;
use crate::base::{Digest, ObjectId, ObjectRef, SequenceNumber, SuiAddress, U32Le, U64Le, blake2b256, hashed_bytes};
use crate::error::ParseError;
use crate::execution_status::{rec2, unknown};
use crate::effects::{rec3, rec4};
use crate::object::GenesisObject;
use crate::reader::{
    Reader, St, Rec, then, span, nested, sp_uleb, sp_bytes, sp_length, leave, lemma_span_join,
};
use crate::system_transaction::{
    AuthenticatorStateUpdate, ChangeEpoch, ConsensusCommitPrologue, ConsensusCommitPrologueV2,
    ConsensusCommitPrologueV3, ConsensusCommitPrologueV4, EndOfEpochTransactionKind,
    RandomnessStateUpdate,
};
use crate::tx_index::{TransactionIndex, index_ok, kind_bounded};
use crate::type_tag::{TypeTag, enc_tt_list};
use crate::wire::{
    Wire, enc_uleb, enc_seq, sp_records, sp_seq, parse_seq, StringSliceAdditionalSpecFns,
};

verus! {

broadcast use {Reader::lemma_st_nonneg, lemma_span_join};

#[derive(Clone, Copy, PartialEq, Eq, Structural, Debug)]
pub enum Argument {
    GasCoin,
    Input(u16),
    Result(u16),
    NestedResult(u16, u16),
}

impl Argument {
    pub const MIN_WIRE_SIZE: usize = 1;

    pub fn parse_vec(r: &mut Reader) -> (res: Result<Vec<Argument>, ParseError>)
        ensures
            final(r).data() == old(r).data(),
            crate::reader::done(old(r).st(), sp_seq::<Argument>(old(r).data(), old(r).st(), 1), res, final(r).st()),
            res matches Ok(v) ==> enc_seq(v@) == span(old(r).data(), old(r).st(), final(r).st()),
    {
        parse_seq::<Argument>(r, Argument::MIN_WIRE_SIZE)
    }
}

impl Wire for Argument {
    open spec fn rec(s: Seq<u8>, st: St) -> Rec {
        match sp_uleb(s, st) {
            Ok((tag, st1)) => if tag == 0 {
                Ok(st1)
            } else if tag == 1 || tag == 2 {
                u16::rec(s, st1)
            } else if tag == 3 {
                rec2::<u16, u16>(s, st1)
            } else {
                Err(unknown("Argument", tag))
            },
            Err(e) => Err(e),
        }
    }

    open spec fn enc(self) -> Seq<u8> {
        match self {
            Argument::GasCoin => enc_uleb(0),
            Argument::Input(i) => enc_uleb(1) + i.enc(),
            Argument::Result(i) => enc_uleb(2) + i.enc(),
            Argument::NestedResult(i, j) => enc_uleb(3) + i.enc() + j.enc(),
        }
    }

    fn parse(r: &mut Reader) -> (res: Result<Argument, ParseError>) {
        let v = match r.variant()? {
            0 => Argument::GasCoin,
            1 => Argument::Input(r.u16()?),
            2 => Argument::Result(r.u16()?),
            3 => {
                let i = r.u16()?;
                let j = r.u16()?;
                Argument::NestedResult(i, j)
            },
            tag => {
                return Err(ParseError::UnknownVariant { ty: "Argument", tag });
            },
        };
        r.check();
        Ok(v)
    }
}

impl Argument {
    pub fn parse(r: &mut Reader) -> (res: Result<Argument, ParseError>)
        ensures
            crate::wire::parsed(*old(r), *final(r), res),
    {
        <Argument as Wire>::parse(r)
    }
}

#[derive(Clone, Copy, PartialEq, Eq, Structural, Debug)]
pub enum SharedObjectMutability {
    Immutable,
    Mutable,
    NonExclusiveWrite,
}

/// The variant index of a mutability.
pub open spec fn mutability_tag(m: SharedObjectMutability) -> u8 {
    match m {
        SharedObjectMutability::Immutable => 0,
        SharedObjectMutability::Mutable => 1,
        SharedObjectMutability::NonExclusiveWrite => 2,
    }
}

/// `ObjectArg::SharedObject` as it sits on the wire: an id, a version and a
/// one-byte mutability.
#[derive(Clone, Copy, PartialEq, Eq, Debug)]
pub struct SharedObjectArg {
    pub id: ObjectId,
    pub initial_shared_version: U64Le,
    pub mutability: SharedObjectMutability,
}

impl SharedObjectArg {
    pub fn new(id: ObjectId, initial_shared_version: SequenceNumber, mutability: SharedObjectMutability) -> (a: SharedObjectArg)
        ensures
            a.id == id,
            a.initial_shared_version.value() == initial_shared_version,
            a.initial_shared_version.0@ == crate::wire::enc_u64(initial_shared_version),
            a.mutability == mutability,
    {
        SharedObjectArg { id, initial_shared_version: U64Le::new(initial_shared_version), mutability }
    }

    pub fn mutability(&self) -> (m: SharedObjectMutability)
        ensures
            m == self.mutability,
    {
        self.mutability
    }
}

impl Wire for SharedObjectArg {
    /// A variant index of 0x80 and up would take more than one byte, which
    /// no variant has.
    open spec fn rec(s: Seq<u8>, st: St) -> Rec {
        match sp_bytes(s, st, 41) {
            Ok(st1) => if s[st.pos + 40] > 2 {
                Err(unknown("SharedObjectMutability", s[st.pos + 40] as u32))
            } else {
                Ok(st1)
            },
            Err(e) => Err(e),
        }
    }

    open spec fn enc(self) -> Seq<u8> {
        self.id.0@ + self.initial_shared_version.0@ + seq![mutability_tag(self.mutability)]
    }

    fn parse(r: &mut Reader) -> (res: Result<SharedObjectArg, ParseError>) {
        let b = r.bytes(41)?;
        let m = b[40];
        let mutability = if m == 0 {
            SharedObjectMutability::Immutable
        } else if m == 1 {
            SharedObjectMutability::Mutable
        } else if m == 2 {
            SharedObjectMutability::NonExclusiveWrite
        } else {
            return Err(ParseError::UnknownVariant { ty: "SharedObjectMutability", tag: m as u32 });
        };
        let a = SharedObjectArg {
            id: ObjectId(crate::bytes::array_at::<32>(b, 0)),
            initial_shared_version: U64Le(crate::bytes::array_at::<8>(b, 32)),
            mutability,
        };
        assert(a.enc() =~= b@);
        Ok(a)
    }
}

impl SharedObjectArg {
    pub fn parse(r: &mut Reader) -> (res: Result<SharedObjectArg, ParseError>)
        ensures
            crate::wire::parsed(*old(r), *final(r), res),
    {
        <SharedObjectArg as Wire>::parse(r)
    }
}

#[derive(Clone, Copy, PartialEq, Eq, Debug)]
pub enum ObjectArg {
    ImmOrOwnedObject(ObjectRef),
    SharedObject(SharedObjectArg),
    Receiving(ObjectRef),
}

impl Wire for ObjectArg {
    open spec fn rec(s: Seq<u8>, st: St) -> Rec {
        match sp_uleb(s, st) {
            Ok((tag, st1)) => if tag == 0 || tag == 2 {
                ObjectRef::rec(s, st1)
            } else if tag == 1 {
                SharedObjectArg::rec(s, st1)
            } else {
                Err(unknown("ObjectArg", tag))
            },
            Err(e) => Err(e),
        }
    }

    open spec fn enc(self) -> Seq<u8> {
        match self {
            ObjectArg::ImmOrOwnedObject(o) => enc_uleb(0) + o.enc(),
            ObjectArg::SharedObject(a) => enc_uleb(1) + a.enc(),
            ObjectArg::Receiving(o) => enc_uleb(2) + o.enc(),
        }
    }

    fn parse(r: &mut Reader) -> (res: Result<ObjectArg, ParseError>) {
        match r.variant()? {
            0 => Ok(ObjectArg::ImmOrOwnedObject(ObjectRef::parse(r)?)),
            1 => Ok(ObjectArg::SharedObject(SharedObjectArg::parse(r)?)),
            2 => Ok(ObjectArg::Receiving(ObjectRef::parse(r)?)),
            tag => Err(ParseError::UnknownVariant { ty: "ObjectArg", tag }),
        }
    }
}

impl ObjectArg {
    pub fn parse(r: &mut Reader) -> (res: Result<ObjectArg, ParseError>)
        ensures
            crate::wire::parsed(*old(r), *final(r), res),
    {
        <ObjectArg as Wire>::parse(r)
    }
}

#[derive(Clone, Copy, PartialEq, Eq, Debug)]
pub enum Reservation {
    MaxAmountU64(u64),
}

#[derive(PartialEq, Eq, Debug)]
pub enum WithdrawalTypeArg {
    Balance(TypeTag),
}

#[derive(Clone, Copy, PartialEq, Eq, Debug)]
pub enum WithdrawFrom {
    Sender,
    Sponsor,
    SenderAllowance { funder: SuiAddress, allowance: ObjectId },
}

#[derive(PartialEq, Eq, Debug)]
pub struct FundsWithdrawalArg {
    pub reservation: Reservation,
    pub type_arg: WithdrawalTypeArg,
    pub withdraw_from: WithdrawFrom,
}

/// An enum counted as a container, whose variant must be `0` and whose
/// fields `inner` recognizes.
pub open spec fn rec_only_variant(s: Seq<u8>, st: St, ty: &'static str, inner: spec_fn(St) -> Rec) -> Rec {
    nested(
        st,
        |st1: St|
            match sp_uleb(s, st1) {
                Ok((tag, st2)) => if tag == 0 {
                    inner(st2)
                } else {
                    Err(unknown(ty, tag))
                },
                Err(e) => Err(e),
            },
    )
}

/// `WithdrawFrom`, counted as a container.
pub open spec fn rec_withdraw_from(s: Seq<u8>, st: St) -> Rec {
    nested(
        st,
        |st1: St|
            match sp_uleb(s, st1) {
                Ok((tag, st2)) => if tag <= 1 {
                    Ok(st2)
                } else if tag == 2 {
                    rec2::<SuiAddress, ObjectId>(s, st2)
                } else {
                    Err(unknown("WithdrawFrom", tag))
                },
                Err(e) => Err(e),
            },
    )
}

pub open spec fn enc_withdraw_from(w: WithdrawFrom) -> Seq<u8> {
    match w {
        WithdrawFrom::Sender => enc_uleb(0),
        WithdrawFrom::Sponsor => enc_uleb(1),
        WithdrawFrom::SenderAllowance { funder, allowance } => enc_uleb(2) + funder.enc()
            + allowance.enc(),
    }
}

fn parse_reservation(r: &mut Reader) -> (res: Result<Reservation, ParseError>)
    ensures
        final(r).data() == old(r).data(),
        crate::reader::done(
            old(r).st(),
            rec_only_variant(old(r).data(), old(r).st(), "Reservation", |st: St| u64::rec(old(r).data(), st)),
            res,
            final(r).st(),
        ),
        res matches Ok(Reservation::MaxAmountU64(v)) ==> enc_uleb(0) + v.enc() == span(old(r).data(), old(r).st(), final(r).st()),
{
    r.enter()?;
    let tag = r.variant()?;
    if tag != 0 {
        return Err(ParseError::UnknownVariant { ty: "Reservation", tag });
    }
    let v = r.u64()?;
    r.check();
    r.leave();
    Ok(Reservation::MaxAmountU64(v))
}

fn parse_withdrawal_type(r: &mut Reader) -> (res: Result<WithdrawalTypeArg, ParseError>)
    ensures
        final(r).data() == old(r).data(),
        crate::reader::done(
            old(r).st(),
            rec_only_variant(old(r).data(), old(r).st(), "WithdrawalTypeArg", |st: St| TypeTag::rec(old(r).data(), st)),
            res,
            final(r).st(),
        ),
        res matches Ok(WithdrawalTypeArg::Balance(t)) ==> enc_uleb(0) + t.enc() == span(old(r).data(), old(r).st(), final(r).st()),
{
    r.enter()?;
    let tag = r.variant()?;
    if tag != 0 {
        return Err(ParseError::UnknownVariant { ty: "WithdrawalTypeArg", tag });
    }
    let t = TypeTag::parse(r)?;
    r.check();
    r.leave();
    Ok(WithdrawalTypeArg::Balance(t))
}

fn parse_withdraw_from(r: &mut Reader) -> (res: Result<WithdrawFrom, ParseError>)
    ensures
        final(r).data() == old(r).data(),
        crate::reader::done(old(r).st(), rec_withdraw_from(old(r).data(), old(r).st()), res, final(r).st()),
        res matches Ok(w) ==> enc_withdraw_from(w) == span(old(r).data(), old(r).st(), final(r).st()),
{
    r.enter()?;
    let w = match r.variant()? {
        0 => WithdrawFrom::Sender,
        1 => WithdrawFrom::Sponsor,
        2 => {
            let funder = SuiAddress::parse(r)?;
            let allowance = ObjectId::parse(r)?;
            WithdrawFrom::SenderAllowance { funder, allowance }
        },
        tag => {
            return Err(ParseError::UnknownVariant { ty: "WithdrawFrom", tag });
        },
    };
    r.check();
    r.leave();
    Ok(w)
}

impl Wire for FundsWithdrawalArg {
    open spec fn rec(s: Seq<u8>, st: St) -> Rec {
        nested(
            st,
            |st1: St|
                then(
                    rec_only_variant(s, st1, "Reservation", |st2: St| u64::rec(s, st2)),
                    |st3: St|
                        then(
                            rec_only_variant(s, st3, "WithdrawalTypeArg", |st4: St| TypeTag::rec(s, st4)),
                            |st5: St| rec_withdraw_from(s, st5),
                        ),
                ),
        )
    }

    open spec fn enc(self) -> Seq<u8> {
        (match self.reservation {
            Reservation::MaxAmountU64(v) => enc_uleb(0) + v.enc(),
        }) + (match self.type_arg {
            WithdrawalTypeArg::Balance(t) => enc_uleb(0) + t.enc(),
        }) + enc_withdraw_from(self.withdraw_from)
    }

    fn parse(r: &mut Reader) -> (res: Result<FundsWithdrawalArg, ParseError>) {
        r.enter()?;
        let reservation = parse_reservation(r)?;
        let type_arg = parse_withdrawal_type(r)?;
        let withdraw_from = parse_withdraw_from(r)?;
        r.check();
        r.leave();
        Ok(FundsWithdrawalArg { reservation, type_arg, withdraw_from })
    }
}

impl FundsWithdrawalArg {
    pub fn parse(r: &mut Reader) -> (res: Result<FundsWithdrawalArg, ParseError>)
        ensures
            crate::wire::parsed(*old(r), *final(r), res),
    {
        <FundsWithdrawalArg as Wire>::parse(r)
    }
}

#[derive(PartialEq, Eq, Debug)]
pub enum CallArg {
    Pure(Vec<u8>),
    Object(ObjectArg),
    FundsWithdrawal(FundsWithdrawalArg),
}

impl CallArg {
    /// `Pure` of no bytes.
    pub const MIN_WIRE_SIZE: usize = 2;
}

impl Wire for CallArg {
    open spec fn rec(s: Seq<u8>, st: St) -> Rec {
        nested(
            st,
            |st1: St|
                match sp_uleb(s, st1) {
                    Ok((tag, st2)) => if tag == 0 {
                        Vec::<u8>::rec(s, st2)
                    } else if tag == 1 {
                        ObjectArg::rec(s, st2)
                    } else if tag == 2 {
                        FundsWithdrawalArg::rec(s, st2)
                    } else {
                        Err(unknown("CallArg", tag))
                    },
                    Err(e) => Err(e),
                },
        )
    }

    open spec fn enc(self) -> Seq<u8> {
        match self {
            CallArg::Pure(b) => enc_uleb(0) + b.enc(),
            CallArg::Object(o) => enc_uleb(1) + o.enc(),
            CallArg::FundsWithdrawal(w) => enc_uleb(2) + w.enc(),
        }
    }

    fn parse(r: &mut Reader) -> (res: Result<CallArg, ParseError>) {
        r.enter()?;
        let arg = match r.variant()? {
            0 => CallArg::Pure(r.byte_vec_owned()?),
            1 => CallArg::Object(ObjectArg::parse(r)?),
            2 => CallArg::FundsWithdrawal(FundsWithdrawalArg::parse(r)?),
            tag => {
                return Err(ParseError::UnknownVariant { ty: "CallArg", tag });
            },
        };
        r.check();
        r.leave();
        Ok(arg)
    }
}

impl CallArg {
    pub fn parse(r: &mut Reader) -> (res: Result<CallArg, ParseError>)
        ensures
            crate::wire::parsed(*old(r), *final(r), res),
    {
        <CallArg as Wire>::parse(r)
    }
}

/// Module and function are not checked against the Move identifier grammar.
#[derive(PartialEq, Eq, Debug)]
pub struct ProgrammableMoveCall {
    pub package: ObjectId,
    pub module: String,
    pub function: String,
    pub type_arguments: Vec<TypeTag>,
    pub arguments: Vec<Argument>,
}

impl Wire for ProgrammableMoveCall {
    open spec fn rec(s: Seq<u8>, st: St) -> Rec {
        nested(
            st,
            |st1: St|
                then(
                    crate::system_transaction::rec_entry_point(s, st1),
                    |st2: St| sp_seq::<Argument>(s, st2, 1),
                ),
        )
    }

    open spec fn enc(self) -> Seq<u8> {
        self.package.enc() + self.module.enc() + self.function.enc() + enc_uleb(
            self.type_arguments@.len() as u32,
        ) + enc_tt_list(self.type_arguments@) + enc_seq(self.arguments@)
    }

    fn parse(r: &mut Reader) -> (res: Result<ProgrammableMoveCall, ParseError>) {
        let ghost s = r.data();
        r.enter()?;
        let ghost st1 = r.st();
        let (package, module, function, type_arguments) =
            crate::system_transaction::parse_entry_point(r)?;
        let ghost st2 = r.st();
        let arguments = Argument::parse_vec(r)?;
        r.check();
        let ghost st3 = r.st();
        let c = ProgrammableMoveCall { package, module, function, type_arguments, arguments };
        proof {
            assert(span(s, st1, st3) == span(s, st1, st2) + span(s, st2, st3));
        }
        r.leave();
        Ok(c)
    }
}

impl ProgrammableMoveCall {
    pub fn parse(r: &mut Reader) -> (res: Result<ProgrammableMoveCall, ParseError>)
        ensures
            crate::wire::parsed(*old(r), *final(r), res),
    {
        <ProgrammableMoveCall as Wire>::parse(r)
    }
}

#[derive(PartialEq, Eq, Debug)]
pub enum Command {
    MoveCall(ProgrammableMoveCall),
    TransferObjects(Vec<Argument>, Argument),
    SplitCoins(Argument, Vec<Argument>),
    MergeCoins(Argument, Vec<Argument>),
    /// Modules, then dependencies.
    Publish(Vec<Vec<u8>>, Vec<ObjectId>),
    MakeMoveVec(Option<TypeTag>, Vec<Argument>),
    /// Modules, dependencies, the package being upgraded, the upgrade ticket.
    Upgrade(Vec<Vec<u8>>, Vec<ObjectId>, ObjectId, Argument),
}

impl Command {
    /// `MakeMoveVec(None, [])`.
    pub const MIN_WIRE_SIZE: usize = 3;
}

/// The fields after each variant index of `Command`.
pub open spec fn rec_command_fields(s: Seq<u8>, st: St, tag: u32) -> Rec {
    if tag == 0 {
        ProgrammableMoveCall::rec(s, st)
    } else if tag == 1 {
        then(sp_seq::<Argument>(s, st, 1), |st1: St| Argument::rec(s, st1))
    } else if tag == 2 || tag == 3 {
        then(Argument::rec(s, st), |st1: St| sp_seq::<Argument>(s, st1, 1))
    } else if tag == 4 {
        rec2::<Vec<Vec<u8>>, Vec<ObjectId>>(s, st)
    } else if tag == 5 {
        then(Option::<TypeTag>::rec(s, st), |st1: St| sp_seq::<Argument>(s, st1, 1))
    } else if tag == 6 {
        rec4::<Vec<Vec<u8>>, Vec<ObjectId>, ObjectId, Argument>(s, st)
    } else {
        Err(unknown("Command", tag))
    }
}

impl Wire for Command {
    open spec fn rec(s: Seq<u8>, st: St) -> Rec {
        nested(
            st,
            |st1: St|
                match sp_uleb(s, st1) {
                    Ok((tag, st2)) => rec_command_fields(s, st2, tag),
                    Err(e) => Err(e),
                },
        )
    }

    open spec fn enc(self) -> Seq<u8> {
        match self {
            Command::MoveCall(c) => enc_uleb(0) + c.enc(),
            Command::TransferObjects(objs, to) => enc_uleb(1) + enc_seq(objs@) + to.enc(),
            Command::SplitCoins(c, amounts) => enc_uleb(2) + c.enc() + enc_seq(amounts@),
            Command::MergeCoins(c, coins) => enc_uleb(3) + c.enc() + enc_seq(coins@),
            Command::Publish(m, d) => enc_uleb(4) + m.enc() + d.enc(),
            Command::MakeMoveVec(t, a) => enc_uleb(5) + t.enc() + enc_seq(a@),
            Command::Upgrade(m, d, p, t) => enc_uleb(6) + m.enc() + d.enc() + p.enc() + t.enc(),
        }
    }

    #[verifier::spinoff_prover]
    #[verifier::rlimit(40)]
    fn parse(r: &mut Reader) -> (res: Result<Command, ParseError>) {
        let ghost s = r.data();
        r.enter()?;
        let ghost st1 = r.st();
        let tag = r.variant()?;
        let ghost st2 = r.st();
        let command = match tag {
            0 => Command::MoveCall(ProgrammableMoveCall::parse(r)?),
            1 => {
                let objs = Argument::parse_vec(r)?;
                let to = Argument::parse(r)?;
                Command::TransferObjects(objs, to)
            },
            2 => {
                let c = Argument::parse(r)?;
                let a = Argument::parse_vec(r)?;
                Command::SplitCoins(c, a)
            },
            3 => {
                let c = Argument::parse(r)?;
                let a = Argument::parse_vec(r)?;
                Command::MergeCoins(c, a)
            },
            4 => {
                let m = Vec::<Vec<u8>>::parse(r)?;
                let d = Vec::<ObjectId>::parse(r)?;
                Command::Publish(m, d)
            },
            5 => {
                let t = Option::<TypeTag>::parse(r)?;
                let a = Argument::parse_vec(r)?;
                Command::MakeMoveVec(t, a)
            },
            6 => {
                let m = Vec::<Vec<u8>>::parse(r)?;
                let d = Vec::<ObjectId>::parse(r)?;
                let p = ObjectId::parse(r)?;
                let t = Argument::parse(r)?;
                Command::Upgrade(m, d, p, t)
            },
            _ => {
                return Err(ParseError::UnknownVariant { ty: "Command", tag });
            },
        };
        r.check();
        let ghost st3 = r.st();
        proof {
            assert(span(s, st1, st3) == span(s, st1, st2) + span(s, st2, st3));
        }
        r.leave();
        Ok(command)
    }
}

impl Command {
    pub fn parse(r: &mut Reader) -> (res: Result<Command, ParseError>)
        ensures
            crate::wire::parsed(*old(r), *final(r), res),
    {
        <Command as Wire>::parse(r)
    }
}

#[derive(PartialEq, Eq, Debug)]
pub struct ProgrammableTransaction {
    pub inputs: Vec<CallArg>,
    pub commands: Vec<Command>,
}

impl Wire for ProgrammableTransaction {
    open spec fn rec(s: Seq<u8>, st: St) -> Rec {
        nested(
            st,
            |st1: St| then(sp_seq::<CallArg>(s, st1, 2), |st2: St| sp_seq::<Command>(s, st2, 3)),
        )
    }

    open spec fn enc(self) -> Seq<u8> {
        enc_seq(self.inputs@) + enc_seq(self.commands@)
    }

    fn parse(r: &mut Reader) -> (res: Result<ProgrammableTransaction, ParseError>)
        ensures
            res matches Ok(p) ==> p.inputs@.len() <= crate::reader::MAX_SEQUENCE_LENGTH
                && p.commands@.len() <= crate::reader::MAX_SEQUENCE_LENGTH,
    {
        r.enter()?;
        let inputs = parse_seq::<CallArg>(r, CallArg::MIN_WIRE_SIZE)?;
        let commands = parse_seq::<Command>(r, Command::MIN_WIRE_SIZE)?;
        r.check();
        r.leave();
        Ok(ProgrammableTransaction { inputs, commands })
    }
}

#[derive(PartialEq, Eq, Debug)]
pub enum TransactionKind {
    ProgrammableTransaction(ProgrammableTransaction),
    ChangeEpoch(ChangeEpoch),
    Genesis(Vec<GenesisObject>),
    ConsensusCommitPrologue(ConsensusCommitPrologue),
    AuthenticatorStateUpdate(AuthenticatorStateUpdate),
    EndOfEpochTransaction(Vec<EndOfEpochTransactionKind>),
    RandomnessStateUpdate(RandomnessStateUpdate),
    ConsensusCommitPrologueV2(ConsensusCommitPrologueV2),
    ConsensusCommitPrologueV3(ConsensusCommitPrologueV3),
    ConsensusCommitPrologueV4(ConsensusCommitPrologueV4),
    ProgrammableSystemTransaction(ProgrammableTransaction),
}

/// The fields after each variant index of `TransactionKind`. The genesis
/// objects sit in a container of their own.
pub open spec fn rec_kind_fields(s: Seq<u8>, st: St, tag: u32) -> Rec {
    if tag == 0 || tag == 10 {
        ProgrammableTransaction::rec(s, st)
    } else if tag == 1 {
        ChangeEpoch::rec(s, st)
    } else if tag == 2 {
        nested(st, |st1: St| sp_seq::<GenesisObject>(s, st1, 14))
    } else if tag == 3 {
        ConsensusCommitPrologue::rec(s, st)
    } else if tag == 4 {
        AuthenticatorStateUpdate::rec(s, st)
    } else if tag == 5 {
        sp_seq::<EndOfEpochTransactionKind>(s, st, 1)
    } else if tag == 6 {
        RandomnessStateUpdate::rec(s, st)
    } else if tag == 7 {
        ConsensusCommitPrologueV2::rec(s, st)
    } else if tag == 8 {
        ConsensusCommitPrologueV3::rec(s, st)
    } else if tag == 9 {
        ConsensusCommitPrologueV4::rec(s, st)
    } else {
        Err(unknown("TransactionKind", tag))
    }
}

fn parse_genesis(r: &mut Reader) -> (res: Result<Vec<GenesisObject>, ParseError>)
    ensures
        final(r).data() == old(r).data(),
        crate::reader::done(
            old(r).st(),
            nested(old(r).st(), |st1: St| sp_seq::<GenesisObject>(old(r).data(), st1, 14)),
            res,
            final(r).st(),
        ),
        res matches Ok(v) ==> enc_seq(v@) == span(old(r).data(), old(r).st(), final(r).st()),
{
    r.enter()?;
    let v = parse_seq::<GenesisObject>(r, GenesisObject::MIN_WIRE_SIZE)?;
    r.check();
    r.leave();
    Ok(v)
}

/// The kinds of variant index 0 to 4.
#[verifier::spinoff_prover]
fn parse_kind_low(r: &mut Reader, tag: u32) -> (res: Result<TransactionKind, ParseError>)
    requires
        tag <= 4,
    ensures
        final(r).data() == old(r).data(),
        crate::reader::done(old(r).st(), rec_kind_fields(old(r).data(), old(r).st(), tag), res, final(r).st()),
        res matches Ok(k) ==> k.enc() == enc_uleb(tag) + span(old(r).data(), old(r).st(), final(r).st())
            && kind_bounded(k),
{
    let kind = match tag {
        0 => TransactionKind::ProgrammableTransaction(ProgrammableTransaction::parse(r)?),
        1 => TransactionKind::ChangeEpoch(ChangeEpoch::parse(r)?),
        2 => TransactionKind::Genesis(parse_genesis(r)?),
        3 => TransactionKind::ConsensusCommitPrologue(ConsensusCommitPrologue::parse(r)?),
        _ => TransactionKind::AuthenticatorStateUpdate(AuthenticatorStateUpdate::parse(r)?),
    };
    Ok(kind)
}

/// The kinds of variant index 5 and up.
#[verifier::spinoff_prover]
#[verifier::rlimit(100)]
fn parse_kind_high(r: &mut Reader, tag: u32) -> (res: Result<TransactionKind, ParseError>)
    requires
        tag > 4,
    ensures
        final(r).data() == old(r).data(),
        crate::reader::done(old(r).st(), rec_kind_fields(old(r).data(), old(r).st(), tag), res, final(r).st()),
        res matches Ok(k) ==> k.enc() == enc_uleb(tag) + span(old(r).data(), old(r).st(), final(r).st())
            && kind_bounded(k),
{
    let kind = match tag {
        5 => TransactionKind::EndOfEpochTransaction(
            parse_seq::<EndOfEpochTransactionKind>(r, EndOfEpochTransactionKind::MIN_WIRE_SIZE)?,
        ),
        6 => TransactionKind::RandomnessStateUpdate(RandomnessStateUpdate::parse(r)?),
        7 => TransactionKind::ConsensusCommitPrologueV2(ConsensusCommitPrologueV2::parse(r)?),
        8 => TransactionKind::ConsensusCommitPrologueV3(ConsensusCommitPrologueV3::parse(r)?),
        9 => TransactionKind::ConsensusCommitPrologueV4(ConsensusCommitPrologueV4::parse(r)?),
        10 => TransactionKind::ProgrammableSystemTransaction(ProgrammableTransaction::parse(r)?),
        _ => {
            return Err(ParseError::UnknownVariant { ty: "TransactionKind", tag });
        },
    };
    Ok(kind)
}

impl Wire for TransactionKind {
    open spec fn rec(s: Seq<u8>, st: St) -> Rec {
        nested(
            st,
            |st1: St|
                match sp_uleb(s, st1) {
                    Ok((tag, st2)) => rec_kind_fields(s, st2, tag),
                    Err(e) => Err(e),
                },
        )
    }

    open spec fn enc(self) -> Seq<u8> {
        match self {
            TransactionKind::ProgrammableTransaction(p) => enc_uleb(0) + p.enc(),
            TransactionKind::ChangeEpoch(c) => enc_uleb(1) + c.enc(),
            TransactionKind::Genesis(g) => enc_uleb(2) + enc_seq(g@),
            TransactionKind::ConsensusCommitPrologue(c) => enc_uleb(3) + c.enc(),
            TransactionKind::AuthenticatorStateUpdate(u) => enc_uleb(4) + u.enc(),
            TransactionKind::EndOfEpochTransaction(k) => enc_uleb(5) + enc_seq(k@),
            TransactionKind::RandomnessStateUpdate(u) => enc_uleb(6) + u.enc(),
            TransactionKind::ConsensusCommitPrologueV2(c) => enc_uleb(7) + c.enc(),
            TransactionKind::ConsensusCommitPrologueV3(c) => enc_uleb(8) + c.enc(),
            TransactionKind::ConsensusCommitPrologueV4(c) => enc_uleb(9) + c.enc(),
            TransactionKind::ProgrammableSystemTransaction(p) => enc_uleb(10) + p.enc(),
        }
    }

    fn parse(r: &mut Reader) -> (res: Result<TransactionKind, ParseError>)
        ensures
            res matches Ok(k) ==> kind_bounded(k),
    {
        let ghost s = r.data();
        r.enter()?;
        let ghost st1 = r.st();
        let tag = r.variant()?;
        let ghost st2 = r.st();
        let kind = if tag <= 4 {
            parse_kind_low(r, tag)?
        } else {
            parse_kind_high(r, tag)?
        };
        r.check();
        let ghost st3 = r.st();
        proof {
            assert(span(s, st1, st3) == span(s, st1, st2) + span(s, st2, st3));
        }
        r.leave();
        Ok(kind)
    }
}

#[derive(Clone, PartialEq, Eq, Debug)]
pub struct GasData {
    pub payment: Vec<ObjectRef>,
    pub owner: SuiAddress,
    pub price: u64,
    pub budget: u64,
}

impl Wire for GasData {
    open spec fn rec(s: Seq<u8>, st: St) -> Rec {
        nested(
            st,
            |st1: St| then(sp_records::<ObjectRef>(s, st1, 73), |st2: St| rec3::<SuiAddress, u64, u64>(s, st2)),
        )
    }

    open spec fn enc(self) -> Seq<u8> {
        enc_seq(self.payment@) + self.owner.enc() + self.price.enc() + self.budget.enc()
    }

    fn parse(r: &mut Reader) -> (res: Result<GasData, ParseError>) {
        r.enter()?;
        let payment = ObjectRef::parse_vec(r)?;
        let owner = SuiAddress::parse(r)?;
        let price = r.u64()?;
        let budget = r.u64()?;
        r.check();
        r.leave();
        Ok(GasData { payment, owner, price, budget })
    }
}

impl GasData {
    pub fn parse(r: &mut Reader) -> (res: Result<GasData, ParseError>)
        ensures
            crate::wire::parsed(*old(r), *final(r), res),
    {
        <GasData as Wire>::parse(r)
    }
}

#[derive(Clone, Copy, PartialEq, Eq, Debug)]
pub struct ValidDuring {
    pub min_epoch: Option<u64>,
    pub max_epoch: Option<u64>,
    pub min_timestamp: Option<u64>,
    pub max_timestamp: Option<u64>,
    pub chain: Digest,
    pub nonce: u32,
}

#[derive(Clone, PartialEq, Eq, Debug)]
pub struct AllowedProposers {
    pub epoch: u64,
    pub proposers: Vec<U32Le>,
}

#[derive(Clone, PartialEq, Eq, Debug)]
pub enum TransactionExpiration {
    NoExpiration,
    Epoch(u64),
    ValidDuring(ValidDuring),
    /// `ValidDuring` plus who may propose the transaction.
    Validity(ValidDuring, Option<AllowedProposers>),
}

impl Wire for ValidDuring {
    /// The fields only; the enclosing variant is the container.
    open spec fn rec(s: Seq<u8>, st: St) -> Rec {
        then(
            rec4::<Option<u64>, Option<u64>, Option<u64>, Option<u64>>(s, st),
            |st1: St| rec2::<Digest, u32>(s, st1),
        )
    }

    open spec fn enc(self) -> Seq<u8> {
        self.min_epoch.enc() + self.max_epoch.enc() + self.min_timestamp.enc()
            + self.max_timestamp.enc() + self.chain.enc() + self.nonce.enc()
    }

    fn parse(r: &mut Reader) -> (res: Result<ValidDuring, ParseError>) {
        ValidDuring::parse_fields(r)
    }
}

impl ValidDuring {
    // The fields only; the caller accounts for the enclosing variant.
    fn parse_fields(r: &mut Reader) -> (res: Result<ValidDuring, ParseError>)
        ensures
            final(r).data() == old(r).data(),
            crate::reader::done(old(r).st(), ValidDuring::rec(old(r).data(), old(r).st()), res, final(r).st()),
            res matches Ok(v) ==> v.enc() == span(old(r).data(), old(r).st(), final(r).st()),
    {
        let min_epoch = r.option_u64()?;
        let max_epoch = r.option_u64()?;
        let min_timestamp = r.option_u64()?;
        let max_timestamp = r.option_u64()?;
        let chain = Digest::parse(r)?;
        let nonce = r.u32()?;
        r.check();
        Ok(ValidDuring { min_epoch, max_epoch, min_timestamp, max_timestamp, chain, nonce })
    }
}

impl Wire for AllowedProposers {
    open spec fn rec(s: Seq<u8>, st: St) -> Rec {
        nested(st, |st1: St| then(u64::rec(s, st1), |st2: St| sp_records::<U32Le>(s, st2, 4)))
    }

    open spec fn enc(self) -> Seq<u8> {
        self.epoch.enc() + enc_seq(self.proposers@)
    }

    fn parse(r: &mut Reader) -> (res: Result<AllowedProposers, ParseError>) {
        r.enter()?;
        let epoch = r.u64()?;
        let proposers = crate::wire::parse_records::<U32Le>(r, 4)?;
        r.check();
        r.leave();
        Ok(AllowedProposers { epoch, proposers })
    }
}

impl Wire for TransactionExpiration {
    open spec fn rec(s: Seq<u8>, st: St) -> Rec {
        nested(
            st,
            |st1: St|
                match sp_uleb(s, st1) {
                    Ok((tag, st2)) => if tag == 0 {
                        Ok(st2)
                    } else if tag == 1 {
                        u64::rec(s, st2)
                    } else if tag == 2 {
                        ValidDuring::rec(s, st2)
                    } else if tag == 3 {
                        rec2::<ValidDuring, Option<AllowedProposers>>(s, st2)
                    } else {
                        Err(unknown("TransactionExpiration", tag))
                    },
                    Err(e) => Err(e),
                },
        )
    }

    open spec fn enc(self) -> Seq<u8> {
        match self {
            TransactionExpiration::NoExpiration => enc_uleb(0),
            TransactionExpiration::Epoch(e) => enc_uleb(1) + e.enc(),
            TransactionExpiration::ValidDuring(v) => enc_uleb(2) + v.enc(),
            TransactionExpiration::Validity(v, p) => enc_uleb(3) + v.enc() + p.enc(),
        }
    }

    fn parse(r: &mut Reader) -> (res: Result<TransactionExpiration, ParseError>) {
        r.enter()?;
        let e = match r.variant()? {
            0 => TransactionExpiration::NoExpiration,
            1 => TransactionExpiration::Epoch(r.u64()?),
            2 => TransactionExpiration::ValidDuring(ValidDuring::parse_fields(r)?),
            3 => {
                let window = ValidDuring::parse_fields(r)?;
                let allowed = Option::<AllowedProposers>::parse(r)?;
                TransactionExpiration::Validity(window, allowed)
            },
            tag => {
                return Err(ParseError::UnknownVariant { ty: "TransactionExpiration", tag });
            },
        };
        r.check();
        r.leave();
        Ok(e)
    }
}

impl TransactionExpiration {
    pub fn parse(r: &mut Reader) -> (res: Result<TransactionExpiration, ParseError>)
        ensures
            crate::wire::parsed(*old(r), *final(r), res),
    {
        <TransactionExpiration as Wire>::parse(r)
    }
}

/// `TransactionData::V1`, the only version.
#[derive(PartialEq, Eq, Debug)]
pub struct TransactionData {
    /// The exact encoding, which is what gets hashed and signed.
    pub bytes: Vec<u8>,
    /// Computed once, from `bytes`, while parsing.
    pub digest: Digest,
    pub kind: TransactionKind,
    pub sender: SuiAddress,
    pub gas_data: GasData,
    pub expiration: TransactionExpiration,
    /// Derived from the fields above while parsing.
    pub index: TransactionIndex,
}

impl TransactionData {
    /// What the parser derives: the bytes are the encoding, the digest is
    /// that of the bytes, and the index is that of the kind and gas.
    pub open spec fn derived(self) -> bool {
        &&& self.bytes@ == self.enc()
        &&& self.digest.bytes@ == blake2b256(hashed_bytes("TransactionData".spec_bytes(), self.bytes@))
        &&& index_ok(self.index, self.kind, self.gas_data)
        &&& kind_bounded(self.kind)
    }

    /// The `MoveCall` commands of a user transaction, with their positions.
    pub fn move_calls(&self) -> (out: Vec<(usize, &ProgrammableMoveCall)>)
        requires
            index_ok(self.index, self.kind, self.gas_data),
            kind_bounded(self.kind),
        ensures
            out@.len() == self.index.move_calls@.len(),
            forall|k: int| 0 <= k < out@.len() ==> {
                &&& #[trigger] out@[k].0 == self.index.move_calls@[k]
                &&& self.kind matches TransactionKind::ProgrammableTransaction(pt)
                &&& pt.commands@[out@[k].0 as int] == Command::MoveCall(*out@[k].1)
            },
    {
        let mut out: Vec<(usize, &ProgrammableMoveCall)> = Vec::new();
        match &self.kind {
            TransactionKind::ProgrammableTransaction(pt) => {
                let mut k: usize = 0;
                proof {
                    crate::tx_index::lemma_move_calls(pt.commands@, pt.commands@.len() as int);
                }
                while k < self.index.move_calls.len()
                    invariant
                        self.kind == TransactionKind::ProgrammableTransaction(*pt),
                        index_ok(self.index, self.kind, self.gas_data),
                        k <= self.index.move_calls@.len(),
                        out@.len() == k,
                        forall|j: int| 0 <= j < self.index.move_calls@.len() ==> {
                            &&& #[trigger] self.index.move_calls@[j] < pt.commands@.len()
                            &&& pt.commands@[self.index.move_calls@[j] as int] is MoveCall
                        },
                        forall|j: int| 0 <= j < k ==> {
                            &&& #[trigger] out@[j].0 == self.index.move_calls@[j]
                            &&& pt.commands@[out@[j].0 as int] == Command::MoveCall(*out@[j].1)
                        },
                    decreases self.index.move_calls@.len() - k,
                {
                    let i = self.index.move_calls[k] as usize;
                    match &pt.commands[i] {
                        Command::MoveCall(call) => {
                            out.push((i, call));
                        },
                        _ => {},
                    }
                    k = k + 1;
                }
            },
            _ => {
                proof {
                    assert(self.index.move_calls@.len() == 0);
                }
            },
        }
        out
    }
}

/// The one version's fields, in a container of their own.
pub open spec fn rec_tx_body(s: Seq<u8>, st: St) -> Rec {
    nested(
        st,
        |st1: St|
            then(
                rec2::<TransactionKind, SuiAddress>(s, st1),
                |st2: St| rec2::<GasData, TransactionExpiration>(s, st2),
            ),
    )
}

/// The version, then the one version's fields.
pub open spec fn rec_tx_data(s: Seq<u8>, st: St) -> Rec {
    nested(
        st,
        |st1: St|
            match sp_uleb(s, st1) {
                Ok((tag, st2)) => if tag == 0 {
                    rec_tx_body(s, st2)
                } else {
                    Err(unknown("TransactionData", tag))
                },
                Err(e) => Err(e),
            },
    )
}

fn parse_tx_body(r: &mut Reader) -> (res: Result<
    (TransactionKind, SuiAddress, GasData, TransactionExpiration),
    ParseError,
>)
    ensures
        final(r).data() == old(r).data(),
        crate::reader::done(old(r).st(), rec_tx_body(old(r).data(), old(r).st()), res, final(r).st()),
        res matches Ok((k, a, g, e)) ==> k.enc() + a.enc() + g.enc() + e.enc() == span(
            old(r).data(),
            old(r).st(),
            final(r).st(),
        ) && kind_bounded(k),
{
    r.enter()?;
    let kind = TransactionKind::parse(r)?;
    let sender = SuiAddress::parse(r)?;
    let gas_data = GasData::parse(r)?;
    let expiration = TransactionExpiration::parse(r)?;
    r.check();
    r.leave();
    Ok((kind, sender, gas_data, expiration))
}

impl Wire for TransactionData {
    open spec fn rec(s: Seq<u8>, st: St) -> Rec {
        rec_tx_data(s, st)
    }

    open spec fn enc(self) -> Seq<u8> {
        enc_uleb(0) + self.kind.enc() + self.sender.enc() + self.gas_data.enc() + self.expiration.enc()
    }

    fn parse(r: &mut Reader) -> (res: Result<TransactionData, ParseError>)
        ensures
            res matches Ok(v) ==> v.derived(),
    {
        let ghost s = r.data();
        let ghost st0 = r.st();
        let start = r.pos();
        r.enter()?;
        let tag = r.variant()?;
        if tag != 0 {
            return Err(ParseError::UnknownVariant { ty: "TransactionData", tag });
        }
        let ghost st2 = r.st();
        let (kind, sender, gas_data, expiration) = parse_tx_body(r)?;
        r.check();
        r.leave();
        let ghost st3 = r.st();
        proof {
            assert(span(s, st0, st3) == span(s, st0, st2) + span(s, st2, st3));
        }
        let index = TransactionIndex::build(&kind, &gas_data);
        let bytes = vstd::slice::slice_to_vec(r.span(start));
        let digest = Digest::of("TransactionData", bytes.as_slice());
        Ok(TransactionData { bytes, digest, kind, sender, gas_data, expiration, index })
    }
}

impl TransactionData {
    pub fn parse(r: &mut Reader) -> (res: Result<TransactionData, ParseError>)
        ensures
            crate::wire::parsed(*old(r), *final(r), res),
            res matches Ok(v) ==> v.derived(),
    {
        <TransactionData as Wire>::parse(r)
    }
}

/// Scope, version and app id. The values are not checked here.
#[derive(Clone, Copy, PartialEq, Eq, Structural, Debug)]
pub struct Intent {
    pub scope: u8,
    pub version: u8,
    pub app_id: u8,
}

impl Wire for Intent {
    open spec fn rec(s: Seq<u8>, st: St) -> Rec {
        sp_bytes(s, st, 3)
    }

    open spec fn enc(self) -> Seq<u8> {
        seq![self.scope, self.version, self.app_id]
    }

    fn parse(r: &mut Reader) -> (res: Result<Intent, ParseError>) {
        let scope = r.u8()?;
        let version = r.u8()?;
        let app_id = r.u8()?;
        r.check();
        Ok(Intent { scope, version, app_id })
    }
}

/// A signature of any scheme: a flag byte, then a scheme-specific encoding.
/// Nothing about the contents is checked here, not even that there is a flag.
#[derive(Clone, PartialEq, Eq, Debug)]
pub struct GenericSignature(pub Vec<u8>);

impl GenericSignature {
    pub const MIN_WIRE_SIZE: usize = 1;

    pub fn parse_vec(r: &mut Reader) -> (res: Result<Vec<GenericSignature>, ParseError>)
        ensures
            final(r).data() == old(r).data(),
            crate::reader::done(old(r).st(), sp_seq::<GenericSignature>(old(r).data(), old(r).st(), 1), res, final(r).st()),
            res matches Ok(v) ==> enc_seq(v@) == span(old(r).data(), old(r).st(), final(r).st()),
    {
        parse_seq::<GenericSignature>(r, GenericSignature::MIN_WIRE_SIZE)
    }
}

impl Wire for GenericSignature {
    open spec fn rec(s: Seq<u8>, st: St) -> Rec {
        Vec::<u8>::rec(s, st)
    }

    open spec fn enc(self) -> Seq<u8> {
        self.0.enc()
    }

    fn parse(r: &mut Reader) -> (res: Result<GenericSignature, ParseError>) {
        Ok(GenericSignature(r.byte_vec_owned()?))
    }
}

/// The one `SenderSignedTransaction` a `SenderSignedData` holds.
#[derive(PartialEq, Eq, Debug)]
pub struct SenderSignedData {
    /// The exact encoding, as it is stored and sent.
    pub bytes: Vec<u8>,
    pub intent: Intent,
    pub data: TransactionData,
    pub tx_signatures: Vec<GenericSignature>,
}

/// The transaction in a container inside the signed one, then the
/// signatures.
pub open spec fn rec_signed_body(s: Seq<u8>, st: St) -> Rec {
    nested(
        st,
        |st3: St|
            then(
                nested(st3, |st4: St| rec2::<Intent, TransactionData>(s, st4)),
                |st5: St| sp_seq::<GenericSignature>(s, st5, 1),
            ),
    )
}

fn parse_signed_body(r: &mut Reader) -> (res: Result<(Intent, TransactionData, Vec<GenericSignature>), ParseError>)
    ensures
        final(r).data() == old(r).data(),
        crate::reader::done(old(r).st(), rec_signed_body(old(r).data(), old(r).st()), res, final(r).st()),
        res matches Ok((i, d, g)) ==> i.enc() + d.enc() + enc_seq(g@) == span(
            old(r).data(),
            old(r).st(),
            final(r).st(),
        ) && d.derived(),
{
    let ghost s = r.data();
    r.enter()?;
    let ghost st1 = r.st();
    r.enter()?;
    let intent = Intent::parse(r)?;
    let data = TransactionData::parse(r)?;
    r.check();
    r.leave();
    let ghost st2 = r.st();
    let tx_signatures = GenericSignature::parse_vec(r)?;
    r.check();
    let ghost st3 = r.st();
    proof {
        assert(span(s, st1, st3) == span(s, st1, st2) + span(s, st2, st3));
    }
    r.leave();
    Ok((intent, data, tx_signatures))
}

/// A length that must be one, then the transaction and its signatures.
pub open spec fn rec_sender_signed(s: Seq<u8>, st: St) -> Rec {
    nested(
        st,
        |st1: St|
            match sp_length(s, st1) {
                Ok((n, st2)) => if n != 1 {
                    Err(ParseError::NotOneTransaction)
                } else {
                    rec_signed_body(s, st2)
                },
                Err(e) => Err(e),
            },
    )
}

impl SenderSignedData {
    /// A length, an intent, a `TransactionData` (a version, an empty
    /// `EndOfEpochTransaction`, a sender, gas data with no payment, no
    /// expiration) and a length.
    pub const MIN_WIRE_SIZE: usize = 1 + 3 + (1 + 2 + 32 + (1 + 32 + 8 + 8) + 1) + 1;

    /// The transaction digest: that of the `TransactionData`.
    pub fn digest(&self) -> (d: &Digest)
        ensures
            *d == self.data.digest,
    {
        &self.data.digest
    }

    /// `Envelope<SenderSignedData, EmptySignInfo>`, Sui's
    /// `Transaction`; `EmptySignInfo` is a struct of no bytes.
    pub fn parse_envelope(r: &mut Reader) -> (res: Result<SenderSignedData, ParseError>)
        ensures
            final(r).data() == old(r).data(),
            crate::reader::done(
                old(r).st(),
                nested(old(r).st(), |st1: St| rec_sender_signed(old(r).data(), st1)),
                res,
                final(r).st(),
            ),
            res matches Ok(v) ==> v.enc() == span(old(r).data(), old(r).st(), final(r).st()) && v.derived(),
    {
        r.enter()?;
        let data = SenderSignedData::parse(r)?;
        r.check();
        r.leave();
        Ok(data)
    }

    pub open spec fn derived(self) -> bool {
        &&& self.bytes@ == self.enc()
        &&& self.data.derived()
    }
}

impl Wire for SenderSignedData {
    open spec fn rec(s: Seq<u8>, st: St) -> Rec {
        rec_sender_signed(s, st)
    }

    open spec fn enc(self) -> Seq<u8> {
        enc_uleb(1) + self.intent.enc() + self.data.enc() + enc_seq(self.tx_signatures@)
    }

    #[verifier::spinoff_prover]
    #[verifier::rlimit(60)]
    fn parse(r: &mut Reader) -> (res: Result<SenderSignedData, ParseError>)
        ensures
            res matches Ok(v) ==> v.derived(),
    {
        let ghost s = r.data();
        let ghost st0 = r.st();
        let start = r.pos();
        r.enter()?;
        let n = r.length()?;
        if n != 1 {
            return Err(ParseError::NotOneTransaction);
        }
        let ghost st2 = r.st();
        let (intent, data, tx_signatures) = parse_signed_body(r)?;
        r.check();
        r.leave();
        let ghost st3 = r.st();
        proof {
            assert(span(s, st0, st3) == span(s, st0, st2) + span(s, st2, st3));
        }
        let bytes = vstd::slice::slice_to_vec(r.span(start));
        Ok(SenderSignedData { bytes, intent, data, tx_signatures })
    }
}

impl SenderSignedData {
    pub fn parse(r: &mut Reader) -> (res: Result<SenderSignedData, ParseError>)
        ensures
            crate::wire::parsed(*old(r), *final(r), res),
            res matches Ok(v) ==> v.derived(),
    {
        <SenderSignedData as Wire>::parse(r)
    }
}

} // verus!
