//! Transaction effects and events.
use vstd::prelude::*;
use crate::base::{Digest, ObjectDigest, ObjectId, ObjectKey, ObjectRef, SequenceNumber, SuiAddress, U64Le, blake2b256, hashed_bytes};
use crate::error::ParseError;
use crate::execution_status::{ExecutionStatus, rec2, unknown};
use crate::object::Owner;
use crate::reader::{
    Reader, St, Rec, then, span, nested, sp_uleb, sp_bytes, sp_byte_vec, lemma_span_join,
    MAX_SEQUENCE_LENGTH,
};
use crate::base::sp_len_byte;
use crate::type_tag::{StructTag, TypeTag};
use crate::wire::{Wire, enc_uleb, enc_seq, enc_bytes, sp_records, sp_seq, parse_records, parse_seq, StringSliceAdditionalSpecFns};

verus! {

broadcast use {Reader::lemma_st_nonneg, lemma_span_join};

/// Three values one after the other.
pub open spec fn rec3<A: Wire, B: Wire, C: Wire>(s: Seq<u8>, st: St) -> Rec {
    then(rec2::<A, B>(s, st), |st1: St| C::rec(s, st1))
}

/// Four values one after the other.
pub open spec fn rec4<A: Wire, B: Wire, C: Wire, D: Wire>(s: Seq<u8>, st: St) -> Rec {
    then(rec2::<A, B>(s, st), |st1: St| rec2::<C, D>(s, st1))
}

#[derive(Clone, Copy, PartialEq, Eq, Debug)]
pub struct GasCostSummary {
    pub computation_cost: u64,
    pub storage_cost: u64,
    pub storage_rebate: u64,
    pub non_refundable_storage_fee: u64,
}

impl Wire for GasCostSummary {
    open spec fn rec(s: Seq<u8>, st: St) -> Rec {
        sp_bytes(s, st, 32)
    }

    open spec fn enc(self) -> Seq<u8> {
        self.computation_cost.enc() + self.storage_cost.enc() + self.storage_rebate.enc()
            + self.non_refundable_storage_fee.enc()
    }

    fn parse(r: &mut Reader) -> (res: Result<GasCostSummary, ParseError>) {
        let computation_cost = r.u64()?;
        let storage_cost = r.u64()?;
        let storage_rebate = r.u64()?;
        let non_refundable_storage_fee = r.u64()?;
        r.check();
        Ok(GasCostSummary { computation_cost, storage_cost, storage_rebate, non_refundable_storage_fee })
    }
}

impl GasCostSummary {
    pub fn parse(r: &mut Reader) -> (res: Result<GasCostSummary, ParseError>)
        ensures
            crate::wire::parsed(*old(r), *final(r), res),
    {
        <GasCostSummary as Wire>::parse(r)
    }
}

/// A length-prefixed sequence of digests, each with its length byte.
pub open spec fn sp_digests(s: Seq<u8>, st: St) -> Rec {
    sp_records::<Digest>(s, st, 33)
}

pub fn parse_digests(r: &mut Reader) -> (res: Result<Vec<Digest>, ParseError>)
    ensures
        final(r).data() == old(r).data(),
        crate::reader::done(old(r).st(), sp_digests(old(r).data(), old(r).st()), res, final(r).st()),
        res matches Ok(v) ==> enc_seq(v@) == span(old(r).data(), old(r).st(), final(r).st()),
        res matches Ok(v) ==> v@.len() <= MAX_SEQUENCE_LENGTH,
{
    parse_records::<Digest>(r, 33)
}

/// `Vec<(ObjectRef, Owner)>`: an entry is a reference and an owner's tag.
pub fn parse_owned_refs(r: &mut Reader) -> (res: Result<Vec<(ObjectRef, Owner)>, ParseError>)
    ensures
        final(r).data() == old(r).data(),
        crate::reader::done(
            old(r).st(),
            sp_seq::<(ObjectRef, Owner)>(old(r).data(), old(r).st(), 74),
            res,
            final(r).st(),
        ),
        res matches Ok(v) ==> enc_seq(v@) == span(old(r).data(), old(r).st(), final(r).st()),
        res matches Ok(v) ==> crate::accept_effects::legal_owned_refs(v@),
{
    parse_seq::<(ObjectRef, Owner)>(r, 73 + Owner::MIN_WIRE_SIZE)
}

#[derive(PartialEq, Eq, Debug)]
pub struct TransactionEffectsV1 {
    pub status: ExecutionStatus,
    pub executed_epoch: u64,
    pub gas_used: GasCostSummary,
    pub modified_at_versions: Vec<ObjectKey>,
    pub shared_objects: Vec<ObjectRef>,
    pub transaction_digest: Digest,
    pub created: Vec<(ObjectRef, Owner)>,
    pub mutated: Vec<(ObjectRef, Owner)>,
    pub unwrapped: Vec<(ObjectRef, Owner)>,
    pub deleted: Vec<ObjectRef>,
    pub unwrapped_then_deleted: Vec<ObjectRef>,
    pub wrapped: Vec<ObjectRef>,
    pub gas_object: (ObjectRef, Owner),
    pub events_digest: Option<Digest>,
    pub dependencies: Vec<Digest>,
}

/// The fields of V1 up to its transaction digest.
pub open spec fn rec_v1_head(s: Seq<u8>, st: St) -> Rec {
    then(
        rec3::<ExecutionStatus, u64, GasCostSummary>(s, st),
        |st1: St|
            then(
                sp_records::<ObjectKey>(s, st1, 40),
                |st2: St| then(sp_records::<ObjectRef>(s, st2, 73), |st3: St| Digest::rec(s, st3)),
            ),
    )
}

/// The fields of V1 after its transaction digest.
pub open spec fn rec_v1_tail(s: Seq<u8>, st: St) -> Rec {
    then(
        sp_seq::<(ObjectRef, Owner)>(s, st, 74),
        |st1: St|
            then(
                sp_seq::<(ObjectRef, Owner)>(s, st1, 74),
                |st2: St|
                    then(
                        sp_seq::<(ObjectRef, Owner)>(s, st2, 74),
                        |st3: St|
                            then(
                                sp_records::<ObjectRef>(s, st3, 73),
                                |st4: St|
                                    then(
                                        sp_records::<ObjectRef>(s, st4, 73),
                                        |st5: St|
                                            then(
                                                sp_records::<ObjectRef>(s, st5, 73),
                                                |st6: St|
                                                    then(
                                                        rec2::<(ObjectRef, Owner), Option<Digest>>(
                                                            s,
                                                            st6,
                                                        ),
                                                        |st7: St| sp_digests(s, st7),
                                                    ),
                                            ),
                                    ),
                            ),
                    ),
            ),
    )
}

pub open spec fn enc_v1_head(e: TransactionEffectsV1) -> Seq<u8> {
    e.status.enc() + e.executed_epoch.enc() + e.gas_used.enc() + enc_seq(e.modified_at_versions@)
        + enc_seq(e.shared_objects@) + e.transaction_digest.enc()
}

pub open spec fn enc_v1_tail(e: TransactionEffectsV1) -> Seq<u8> {
    enc_seq(e.created@) + enc_seq(e.mutated@) + enc_seq(e.unwrapped@) + enc_seq(e.deleted@)
        + enc_seq(e.unwrapped_then_deleted@) + enc_seq(e.wrapped@) + e.gas_object.enc()
        + e.events_digest.enc() + enc_seq(e.dependencies@)
}

fn parse_v1_head(r: &mut Reader) -> (res: Result<
    (ExecutionStatus, u64, GasCostSummary, Vec<ObjectKey>, Vec<ObjectRef>, Digest),
    ParseError,
>)
    ensures
        final(r).data() == old(r).data(),
        crate::reader::done(old(r).st(), rec_v1_head(old(r).data(), old(r).st()), res, final(r).st()),
        res matches Ok((a, b, c, d, e, f)) ==> a.enc() + b.enc() + c.enc() + enc_seq(d@) + enc_seq(
            e@,
        ) + f.enc() == span(old(r).data(), old(r).st(), final(r).st()),
    res matches Ok((a, b, c, d, e, f)) ==> crate::accept_effects::legal_status(a) && d@.len()
            <= MAX_SEQUENCE_LENGTH && e@.len() <= MAX_SEQUENCE_LENGTH,
{
    let status = ExecutionStatus::parse(r)?;
    let executed_epoch = r.u64()?;
    let gas_used = GasCostSummary::parse(r)?;
    let modified_at_versions = parse_records::<ObjectKey>(r, 40)?;
    let shared_objects = ObjectRef::parse_vec(r)?;
    let transaction_digest = Digest::parse(r)?;
    r.check();
    Ok((status, executed_epoch, gas_used, modified_at_versions, shared_objects, transaction_digest))
}

impl Wire for TransactionEffectsV1 {
    open spec fn rec(s: Seq<u8>, st: St) -> Rec {
        nested(st, |st1: St| then(rec_v1_head(s, st1), |st2: St| rec_v1_tail(s, st2)))
    }

    open spec fn enc(self) -> Seq<u8> {
        enc_v1_head(self) + enc_v1_tail(self)
    }

    /// Its lists within the reader's length limit, its owners and status well-formed.
    open spec fn well_formed(self) -> bool {
        crate::accept_effects::legal_v1(self)
    }

    #[verifier::rlimit(40)]
    fn parse(r: &mut Reader) -> (res: Result<TransactionEffectsV1, ParseError>) {
        let ghost s = r.data();
        r.enter()?;
        let ghost st1 = r.st();
        let (status, executed_epoch, gas_used, modified_at_versions, shared_objects, transaction_digest) =
            parse_v1_head(r)?;
        let ghost st2 = r.st();
        let created = parse_owned_refs(r)?;
        let mutated = parse_owned_refs(r)?;
        let unwrapped = parse_owned_refs(r)?;
        let deleted = ObjectRef::parse_vec(r)?;
        let unwrapped_then_deleted = ObjectRef::parse_vec(r)?;
        let wrapped = ObjectRef::parse_vec(r)?;
        let gas_object = <(ObjectRef, Owner)>::parse(r)?;
        let events_digest = Option::<Digest>::parse(r)?;
        let dependencies = parse_digests(r)?;
        r.check();
        let ghost st3 = r.st();
        let e = TransactionEffectsV1 {
            status,
            executed_epoch,
            gas_used,
            modified_at_versions,
            shared_objects,
            transaction_digest,
            created,
            mutated,
            unwrapped,
            deleted,
            unwrapped_then_deleted,
            wrapped,
            gas_object,
            events_digest,
            dependencies,
        };
        proof {
            assert(enc_v1_head(e) == span(s, st1, st2));
            assert(enc_v1_tail(e) == span(s, st2, st3));
            assert(crate::accept_effects::legal_v1(e));
        }
        r.leave();
        Ok(e)
    }
}

impl TransactionEffectsV1 {
    pub fn parse(r: &mut Reader) -> (res: Result<TransactionEffectsV1, ParseError>)
        ensures
            crate::wire::parsed(*old(r), *final(r), res),
    {
        <TransactionEffectsV1 as Wire>::parse(r)
    }
}

#[derive(Clone, PartialEq, Eq, Debug)]
pub enum ObjectIn {
    NotExist,
    Exist { version: SequenceNumber, digest: ObjectDigest, owner: Owner },
}

impl Wire for ObjectIn {
    /// Counted as a container by the change around it.
    open spec fn rec(s: Seq<u8>, st: St) -> Rec {
        match sp_uleb(s, st) {
            Ok((tag, st1)) => if tag == 0 {
                Ok(st1)
            } else if tag == 1 {
                rec3::<u64, Digest, Owner>(s, st1)
            } else {
                Err(unknown("ObjectIn", tag))
            },
            Err(e) => Err(e),
        }
    }

    open spec fn enc(self) -> Seq<u8> {
        match self {
            ObjectIn::NotExist => enc_uleb(0),
            ObjectIn::Exist { version, digest, owner } => enc_uleb(1) + version.enc()
                + digest.enc() + owner.enc(),
        }
    }

    open spec fn well_formed(self) -> bool {
        crate::accept_effects::legal_in(self)
    }

    fn parse(r: &mut Reader) -> (res: Result<ObjectIn, ParseError>) {
        let v = match r.variant()? {
            0 => ObjectIn::NotExist,
            1 => {
                let version = r.u64()?;
                let digest = Digest::parse(r)?;
                let owner = Owner::parse(r)?;
                ObjectIn::Exist { version, digest, owner }
            },
            tag => {
                return Err(ParseError::UnknownVariant { ty: "ObjectIn", tag });
            },
        };
        r.check();
        Ok(v)
    }
}

#[derive(Clone, Copy, PartialEq, Eq, Structural, Debug)]
pub enum AccumulatorOperation {
    Merge,
    Split,
}

impl Wire for AccumulatorOperation {
    open spec fn rec(s: Seq<u8>, st: St) -> Rec {
        match sp_uleb(s, st) {
            Ok((tag, st1)) => if tag <= 1 {
                Ok(st1)
            } else {
                Err(unknown("AccumulatorOperation", tag))
            },
            Err(e) => Err(e),
        }
    }

    open spec fn enc(self) -> Seq<u8> {
        match self {
            AccumulatorOperation::Merge => enc_uleb(0),
            AccumulatorOperation::Split => enc_uleb(1),
        }
    }

    fn parse(r: &mut Reader) -> (res: Result<AccumulatorOperation, ParseError>) {
        match r.variant()? {
            0 => Ok(AccumulatorOperation::Merge),
            1 => Ok(AccumulatorOperation::Split),
            tag => Err(ParseError::UnknownVariant { ty: "AccumulatorOperation", tag }),
        }
    }
}

/// One `AccumulatorValue::EventDigest` entry.
#[derive(Clone, Copy, PartialEq, Eq, Debug)]
pub struct EventCommitment {
    pub index: U64Le,
    pub digest: Digest,
}

impl Wire for EventCommitment {
    open spec fn rec(s: Seq<u8>, st: St) -> Rec {
        then(sp_bytes(s, st, 41), |st1: St| sp_len_byte(s, st.pos + 8, "Digest", 32, st1))
    }

    open spec fn enc(self) -> Seq<u8> {
        self.index.0@ + self.digest.enc()
    }

    fn parse(r: &mut Reader) -> (res: Result<EventCommitment, ParseError>) {
        let b = r.bytes(41)?;
        let len = b[8];
        if len != 32 {
            return Err(ParseError::WrongLength { ty: "Digest", expected: 32, actual: len as u32 });
        }
        let c = EventCommitment {
            index: U64Le(crate::bytes::array_at::<8>(b, 0)),
            digest: Digest { bytes: crate::bytes::array_at::<32>(b, 9) },
        };
        assert(c.enc() =~= b@);
        Ok(c)
    }
}

#[derive(Clone, PartialEq, Eq, Debug)]
pub enum AccumulatorValue {
    Integer(u64),
    IntegerTuple(u64, u64),
    /// Not checked to be non-empty here.
    EventDigest(Vec<EventCommitment>),
}

impl Wire for AccumulatorValue {
    open spec fn rec(s: Seq<u8>, st: St) -> Rec {
        match sp_uleb(s, st) {
            Ok((tag, st1)) => if tag == 0 {
                u64::rec(s, st1)
            } else if tag == 1 {
                rec2::<u64, u64>(s, st1)
            } else if tag == 2 {
                sp_records::<EventCommitment>(s, st1, 41)
            } else {
                Err(unknown("AccumulatorValue", tag))
            },
            Err(e) => Err(e),
        }
    }

    open spec fn enc(self) -> Seq<u8> {
        match self {
            AccumulatorValue::Integer(v) => enc_uleb(0) + v.enc(),
            AccumulatorValue::IntegerTuple(a, b) => enc_uleb(1) + a.enc() + b.enc(),
            AccumulatorValue::EventDigest(c) => enc_uleb(2) + enc_seq(c@),
        }
    }

    open spec fn well_formed(self) -> bool {
        self matches AccumulatorValue::EventDigest(c) ==> c@.len() <= MAX_SEQUENCE_LENGTH
    }

    fn parse(r: &mut Reader) -> (res: Result<AccumulatorValue, ParseError>) {
        let v = match r.variant()? {
            0 => AccumulatorValue::Integer(r.u64()?),
            1 => {
                let a = r.u64()?;
                let b = r.u64()?;
                AccumulatorValue::IntegerTuple(a, b)
            },
            2 => AccumulatorValue::EventDigest(parse_records::<EventCommitment>(r, 41)?),
            tag => {
                return Err(ParseError::UnknownVariant { ty: "AccumulatorValue", tag });
            },
        };
        r.check();
        Ok(v)
    }
}

#[derive(PartialEq, Eq, Debug)]
pub struct AccumulatorWriteV1 {
    pub address: SuiAddress,
    pub ty: TypeTag,
    pub operation: AccumulatorOperation,
    pub value: AccumulatorValue,
}

impl Wire for AccumulatorWriteV1 {
    /// The write, and inside it the `AccumulatorAddress`, are containers.
    open spec fn rec(s: Seq<u8>, st: St) -> Rec {
        nested(
            st,
            |st1: St|
                then(
                    nested(st1, |st2: St| rec2::<SuiAddress, TypeTag>(s, st2)),
                    |st3: St| rec2::<AccumulatorOperation, AccumulatorValue>(s, st3),
                ),
        )
    }

    open spec fn enc(self) -> Seq<u8> {
        self.address.enc() + self.ty.enc() + self.operation.enc() + self.value.enc()
    }

    open spec fn well_formed(self) -> bool {
        crate::accept_effects::legal_accumulator(self)
    }

    #[verifier::spinoff_prover]
    fn parse(r: &mut Reader) -> (res: Result<AccumulatorWriteV1, ParseError>) {
        let ghost s = r.data();
        r.enter()?;
        let ghost st1 = r.st();
        r.enter()?;
        let address = SuiAddress::parse(r)?;
        let ty = TypeTag::parse(r)?;
        r.check();
        r.leave();
        let ghost st2 = r.st();
        let operation = AccumulatorOperation::parse(r)?;
        let value = AccumulatorValue::parse(r)?;
        r.check();
        let ghost st3 = r.st();
        let w = AccumulatorWriteV1 { address, ty, operation, value };
        proof {
            assert(address.enc() + ty.enc() == span(s, st1, st2));
            assert(operation.enc() + value.enc() == span(s, st2, st3));
            assert(w.enc() == span(s, st1, st3));
        }
        r.leave();
        Ok(w)
    }
}

impl AccumulatorWriteV1 {
    pub fn parse(r: &mut Reader) -> (res: Result<AccumulatorWriteV1, ParseError>)
        ensures
            crate::wire::parsed(*old(r), *final(r), res),
    {
        <AccumulatorWriteV1 as Wire>::parse(r)
    }
}

#[derive(PartialEq, Eq, Debug)]
pub enum ObjectOut {
    NotExist,
    ObjectWrite(ObjectDigest, Owner),
    PackageWrite(SequenceNumber, ObjectDigest),
    AccumulatorWriteV1(AccumulatorWriteV1),
}

impl Wire for ObjectOut {
    /// Counted as a container of its own.
    open spec fn rec(s: Seq<u8>, st: St) -> Rec {
        nested(
            st,
            |st1: St|
                match sp_uleb(s, st1) {
                    Ok((tag, st2)) => if tag == 0 {
                        Ok(st2)
                    } else if tag == 1 {
                        rec2::<Digest, Owner>(s, st2)
                    } else if tag == 2 {
                        rec2::<u64, Digest>(s, st2)
                    } else if tag == 3 {
                        AccumulatorWriteV1::rec(s, st2)
                    } else {
                        Err(unknown("ObjectOut", tag))
                    },
                    Err(e) => Err(e),
                },
        )
    }

    open spec fn enc(self) -> Seq<u8> {
        match self {
            ObjectOut::NotExist => enc_uleb(0),
            ObjectOut::ObjectWrite(d, o) => enc_uleb(1) + d.enc() + o.enc(),
            ObjectOut::PackageWrite(v, d) => enc_uleb(2) + v.enc() + d.enc(),
            ObjectOut::AccumulatorWriteV1(w) => enc_uleb(3) + w.enc(),
        }
    }

    open spec fn well_formed(self) -> bool {
        crate::accept_effects::legal_out(self)
    }

    fn parse(r: &mut Reader) -> (res: Result<ObjectOut, ParseError>) {
        r.enter()?;
        let v = match r.variant()? {
            0 => ObjectOut::NotExist,
            1 => {
                let d = Digest::parse(r)?;
                let o = Owner::parse(r)?;
                ObjectOut::ObjectWrite(d, o)
            },
            2 => {
                let v = r.u64()?;
                let d = Digest::parse(r)?;
                ObjectOut::PackageWrite(v, d)
            },
            3 => ObjectOut::AccumulatorWriteV1(AccumulatorWriteV1::parse(r)?),
            tag => {
                return Err(ParseError::UnknownVariant { ty: "ObjectOut", tag });
            },
        };
        r.check();
        r.leave();
        Ok(v)
    }
}

#[derive(Clone, Copy, PartialEq, Eq, Structural, Debug)]
pub enum IdOperation {
    NoChange,
    Created,
    Deleted,
}

impl Wire for IdOperation {
    open spec fn rec(s: Seq<u8>, st: St) -> Rec {
        match sp_uleb(s, st) {
            Ok((tag, st1)) => if tag <= 2 {
                Ok(st1)
            } else {
                Err(unknown("IDOperation", tag))
            },
            Err(e) => Err(e),
        }
    }

    open spec fn enc(self) -> Seq<u8> {
        match self {
            IdOperation::NoChange => enc_uleb(0),
            IdOperation::Created => enc_uleb(1),
            IdOperation::Deleted => enc_uleb(2),
        }
    }

    fn parse(r: &mut Reader) -> (res: Result<IdOperation, ParseError>) {
        match r.variant()? {
            0 => Ok(IdOperation::NoChange),
            1 => Ok(IdOperation::Created),
            2 => Ok(IdOperation::Deleted),
            tag => Err(ParseError::UnknownVariant { ty: "IDOperation", tag }),
        }
    }
}

/// What happened to an object, as Sui's `created()`, `mutated()`
/// and the rest each work out from the three fields of a change. A change
/// is in at most one class.
#[derive(Clone, Copy, PartialEq, Eq, Structural, Debug)]
pub enum ChangeKind {
    Created,
    Mutated,
    Unwrapped,
    Deleted,
    UnwrappedThenDeleted,
    Wrapped,
    AccumulatorWrite,
    /// Created and then wrapped or deleted by the same transaction. The
    /// reference lists these under none of its accessors.
    Transient,
    /// A combination Sui puts in no class, such as a package
    /// written to an id that neither existed nor was created.
    Unclassified,
}

/// The class of a change: whether the object existed before, what was
/// written, and what happened to its id.
pub open spec fn change_kind(existed: bool, output: ObjectOut, op: IdOperation) -> ChangeKind {
    match output {
        ObjectOut::AccumulatorWriteV1(_) => ChangeKind::AccumulatorWrite,
        ObjectOut::ObjectWrite(..) | ObjectOut::PackageWrite(..) => if existed {
            ChangeKind::Mutated
        } else if op == IdOperation::Created {
            ChangeKind::Created
        } else if output is ObjectWrite && op == IdOperation::NoChange {
            ChangeKind::Unwrapped
        } else {
            ChangeKind::Unclassified
        },
        ObjectOut::NotExist => match (existed, op) {
            (true, IdOperation::Deleted) => ChangeKind::Deleted,
            (false, IdOperation::Deleted) => ChangeKind::UnwrappedThenDeleted,
            (true, IdOperation::NoChange) => ChangeKind::Wrapped,
            (false, IdOperation::Created) => ChangeKind::Transient,
            _ => ChangeKind::Unclassified,
        },
    }
}

impl ChangeKind {
    pub fn of(input: &ObjectIn, output: &ObjectOut, id_operation: IdOperation) -> (k: ChangeKind)
        ensures
            k == change_kind(*input is Exist, *output, id_operation),
    {
        let existed = match input {
            ObjectIn::Exist { .. } => true,
            ObjectIn::NotExist => false,
        };
        match output {
            ObjectOut::AccumulatorWriteV1(_) => ChangeKind::AccumulatorWrite,
            ObjectOut::ObjectWrite(..) | ObjectOut::PackageWrite(..) => {
                let is_write = match output {
                    ObjectOut::ObjectWrite(..) => true,
                    _ => false,
                };
                if existed {
                    ChangeKind::Mutated
                } else {
                    match id_operation {
                        IdOperation::Created => ChangeKind::Created,
                        IdOperation::NoChange => if is_write {
                            ChangeKind::Unwrapped
                        } else {
                            ChangeKind::Unclassified
                        },
                        IdOperation::Deleted => ChangeKind::Unclassified,
                    }
                }
            },
            ObjectOut::NotExist => match (existed, id_operation) {
                (true, IdOperation::Deleted) => ChangeKind::Deleted,
                (false, IdOperation::Deleted) => ChangeKind::UnwrappedThenDeleted,
                (true, IdOperation::NoChange) => ChangeKind::Wrapped,
                (false, IdOperation::Created) => ChangeKind::Transient,
                _ => ChangeKind::Unclassified,
            },
        }
    }
}

/// A `changed_objects` entry: the id, then `EffectsObjectChange`.
#[derive(PartialEq, Eq, Debug)]
pub struct ObjectChange {
    pub id: ObjectId,
    pub input_state: ObjectIn,
    pub output_state: ObjectOut,
    pub id_operation: IdOperation,
}

impl ObjectChange {
    /// An id and three unit variants.
    pub const MIN_WIRE_SIZE: usize = 35;

    pub open spec fn spec_kind(self) -> ChangeKind {
        change_kind(self.input_state is Exist, self.output_state, self.id_operation)
    }

    /// The class of this change, worked out from its three fields.
    pub fn kind(&self) -> (k: ChangeKind)
        ensures
            k == self.spec_kind(),
    {
        ChangeKind::of(&self.input_state, &self.output_state, self.id_operation)
    }
}

impl Wire for ObjectChange {
    open spec fn rec(s: Seq<u8>, st: St) -> Rec {
        then(
            ObjectId::rec(s, st),
            |st1: St|
                nested(
                    st1,
                    |st2: St| rec3::<ObjectIn, ObjectOut, IdOperation>(s, st2),
                ),
        )
    }

    open spec fn enc(self) -> Seq<u8> {
        self.id.enc() + self.input_state.enc() + self.output_state.enc() + self.id_operation.enc()
    }

    open spec fn well_formed(self) -> bool {
        crate::accept_effects::legal_change(self)
    }

    #[verifier::rlimit(40)]
    fn parse(r: &mut Reader) -> (res: Result<ObjectChange, ParseError>) {
        let ghost s = r.data();
        let ghost st0 = r.st();
        let id = ObjectId::parse(r)?;
        let ghost st1 = r.st();
        r.enter()?;
        let ghost st2 = r.st();
        let input_state = ObjectIn::parse(r)?;
        let ghost st3 = r.st();
        let output_state = ObjectOut::parse(r)?;
        let ghost st4 = r.st();
        let id_operation = IdOperation::parse(r)?;
        r.check();
        let ghost st5 = r.st();
        let c = ObjectChange { id, input_state, output_state, id_operation };
        proof {
            let ie = input_state.enc();
            let oe = output_state.enc();
            let de = id_operation.enc();
            assert(ie == span(s, st2, st3));
            assert(oe == span(s, st3, st4));
            assert(de == span(s, st4, st5));
            assert(c.enc() == id.enc() + ie + oe + de);
            assert(span(s, st0, st5) == span(s, st0, st1) + span(s, st1, st5));
            assert(span(s, st1, st5) == span(s, st1, st3) + span(s, st3, st5));
        }
        r.leave();
        Ok(c)
    }
}

impl ObjectChange {
    pub fn parse(r: &mut Reader) -> (res: Result<ObjectChange, ParseError>)
        ensures
            crate::wire::parsed(*old(r), *final(r), res),
    {
        <ObjectChange as Wire>::parse(r)
    }
}

#[derive(Clone, Copy, PartialEq, Eq, Debug)]
pub enum UnchangedConsensusKind {
    ReadOnlyRoot(SequenceNumber, ObjectDigest),
    MutateConsensusStreamEnded(SequenceNumber),
    ReadConsensusStreamEnded(SequenceNumber),
    Cancelled(SequenceNumber),
    PerEpochConfig,
}

impl Wire for UnchangedConsensusKind {
    open spec fn rec(s: Seq<u8>, st: St) -> Rec {
        match sp_uleb(s, st) {
            Ok((tag, st1)) => if tag == 0 {
                rec2::<u64, Digest>(s, st1)
            } else if tag <= 3 {
                u64::rec(s, st1)
            } else if tag == 4 {
                Ok(st1)
            } else {
                Err(unknown("UnchangedConsensusKind", tag))
            },
            Err(e) => Err(e),
        }
    }

    open spec fn enc(self) -> Seq<u8> {
        match self {
            UnchangedConsensusKind::ReadOnlyRoot(v, d) => enc_uleb(0) + v.enc() + d.enc(),
            UnchangedConsensusKind::MutateConsensusStreamEnded(v) => enc_uleb(1) + v.enc(),
            UnchangedConsensusKind::ReadConsensusStreamEnded(v) => enc_uleb(2) + v.enc(),
            UnchangedConsensusKind::Cancelled(v) => enc_uleb(3) + v.enc(),
            UnchangedConsensusKind::PerEpochConfig => enc_uleb(4),
        }
    }

    fn parse(r: &mut Reader) -> (res: Result<UnchangedConsensusKind, ParseError>) {
        let v = match r.variant()? {
            0 => {
                let v = r.u64()?;
                let d = Digest::parse(r)?;
                UnchangedConsensusKind::ReadOnlyRoot(v, d)
            },
            1 => UnchangedConsensusKind::MutateConsensusStreamEnded(r.u64()?),
            2 => UnchangedConsensusKind::ReadConsensusStreamEnded(r.u64()?),
            3 => UnchangedConsensusKind::Cancelled(r.u64()?),
            4 => UnchangedConsensusKind::PerEpochConfig,
            tag => {
                return Err(ParseError::UnknownVariant { ty: "UnchangedConsensusKind", tag });
            },
        };
        r.check();
        Ok(v)
    }
}

impl UnchangedConsensusKind {
    pub fn parse(r: &mut Reader) -> (res: Result<UnchangedConsensusKind, ParseError>)
        ensures
            crate::wire::parsed(*old(r), *final(r), res),
    {
        <UnchangedConsensusKind as Wire>::parse(r)
    }
}

#[derive(PartialEq, Eq, Debug)]
pub struct TransactionEffectsV2 {
    pub status: ExecutionStatus,
    pub executed_epoch: u64,
    pub gas_used: GasCostSummary,
    pub transaction_digest: Digest,
    /// An index into `changed_objects`, not checked to be in bounds here.
    pub gas_object_index: Option<u32>,
    pub events_digest: Option<Digest>,
    pub dependencies: Vec<Digest>,
    pub lamport_version: SequenceNumber,
    pub changed_objects: Vec<ObjectChange>,
    pub unchanged_consensus_objects: Vec<(ObjectId, UnchangedConsensusKind)>,
    pub aux_data_digest: Option<Digest>,
}

/// The fields of V2 up to its lamport version.
pub open spec fn rec_v2_head(s: Seq<u8>, st: St) -> Rec {
    then(
        rec4::<ExecutionStatus, u64, GasCostSummary, Digest>(s, st),
        |st1: St|
            then(
                rec2::<Option<u32>, Option<Digest>>(s, st1),
                |st2: St| then(sp_digests(s, st2), |st3: St| u64::rec(s, st3)),
            ),
    )
}

/// The fields of V2 after its lamport version.
pub open spec fn rec_v2_tail(s: Seq<u8>, st: St) -> Rec {
    then(
        sp_seq::<ObjectChange>(s, st, 35),
        |st1: St|
            then(
                sp_seq::<(ObjectId, UnchangedConsensusKind)>(s, st1, 33),
                |st2: St| Option::<Digest>::rec(s, st2),
            ),
    )
}

pub open spec fn enc_v2_head(e: TransactionEffectsV2) -> Seq<u8> {
    e.status.enc() + e.executed_epoch.enc() + e.gas_used.enc() + e.transaction_digest.enc()
        + e.gas_object_index.enc() + e.events_digest.enc() + enc_seq(e.dependencies@)
        + e.lamport_version.enc()
}

pub open spec fn enc_v2_tail(e: TransactionEffectsV2) -> Seq<u8> {
    enc_seq(e.changed_objects@) + enc_seq(e.unchanged_consensus_objects@) + e.aux_data_digest.enc()
}

impl TransactionEffectsV2 {
    /// The changes of one class, in stored order.
    pub fn changes(&self, kind: ChangeKind) -> (out: Vec<&ObjectChange>)
        ensures
            out@.map_values(|c: &ObjectChange| *c) == self.changed_objects@.filter(
                |c: ObjectChange| c.spec_kind() == kind,
            ),
    {
        let mut out: Vec<&ObjectChange> = Vec::new();
        let mut i: usize = 0;
        while i < self.changed_objects.len()
            invariant
                i <= self.changed_objects@.len(),
                out@.map_values(|c: &ObjectChange| *c) == self.changed_objects@.subrange(
                    0,
                    i as int,
                ).filter(|c: ObjectChange| c.spec_kind() == kind),
            decreases self.changed_objects@.len() - i,
        {
            let c = &self.changed_objects[i];
            proof {
                let f = |c: ObjectChange| c.spec_kind() == kind;
                let sub = self.changed_objects@.subrange(0, i as int);
                assert(self.changed_objects@.subrange(0, i + 1) =~= sub.push(*c));
                reveal(Seq::filter);
                assert(sub.push(*c).drop_last() =~= sub);
            }
            if c.kind() == kind {
                out.push(c);
            }
            proof {
                assert(out@.map_values(|c: &ObjectChange| *c) =~= self.changed_objects@.subrange(
                    0,
                    i + 1,
                ).filter(|c: ObjectChange| c.spec_kind() == kind));
            }
            i = i + 1;
        }
        proof {
            assert(self.changed_objects@.subrange(0, i as int) =~= self.changed_objects@);
        }
        out
    }
}

/// How many of `v` fall in class `k`.
pub open spec fn class_count(v: Seq<ObjectChange>, k: ChangeKind) -> nat {
    v.filter(|c: ObjectChange| c.spec_kind() == k).len()
}

/// The counts of the nine classes added up.
pub open spec fn class_total(v: Seq<ObjectChange>) -> nat {
    class_count(v, ChangeKind::Created) + class_count(v, ChangeKind::Mutated) + class_count(
        v,
        ChangeKind::Unwrapped,
    ) + class_count(v, ChangeKind::Deleted) + class_count(v, ChangeKind::UnwrappedThenDeleted)
        + class_count(v, ChangeKind::Wrapped) + class_count(v, ChangeKind::AccumulatorWrite)
        + class_count(v, ChangeKind::Transient) + class_count(v, ChangeKind::Unclassified)
}

/// One more change adds one to its own class and nothing to the others.
proof fn lemma_class_count_push(v: Seq<ObjectChange>, c: ObjectChange, k: ChangeKind)
    ensures
        class_count(v.push(c), k) == class_count(v, k) + if c.spec_kind() == k { 1nat } else { 0nat },
{
    reveal(Seq::filter);
    assert(v.push(c).drop_last() =~= v);
}

/// Every change is in exactly one of the nine classes: `changes` of the
/// nine kinds together hold as many changes as there are.
pub proof fn lemma_classes_partition(v: Seq<ObjectChange>)
    ensures
        class_total(v) == v.len(),
    decreases v.len(),
{
    if v.len() == 0 {
        reveal(Seq::filter);
    } else {
        let w = v.drop_last();
        let c = v.last();
        lemma_classes_partition(w);
        assert(w.push(c) =~= v);
        lemma_class_count_push(w, c, ChangeKind::Created);
        lemma_class_count_push(w, c, ChangeKind::Mutated);
        lemma_class_count_push(w, c, ChangeKind::Unwrapped);
        lemma_class_count_push(w, c, ChangeKind::Deleted);
        lemma_class_count_push(w, c, ChangeKind::UnwrappedThenDeleted);
        lemma_class_count_push(w, c, ChangeKind::Wrapped);
        lemma_class_count_push(w, c, ChangeKind::AccumulatorWrite);
        lemma_class_count_push(w, c, ChangeKind::Transient);
        lemma_class_count_push(w, c, ChangeKind::Unclassified);
    }
}

fn parse_v2_head(r: &mut Reader) -> (res: Result<
    (ExecutionStatus, u64, GasCostSummary, Digest, Option<u32>, Option<Digest>, Vec<Digest>, u64),
    ParseError,
>)
    ensures
        final(r).data() == old(r).data(),
        crate::reader::done(old(r).st(), rec_v2_head(old(r).data(), old(r).st()), res, final(r).st()),
        res matches Ok((a, b, c, d, e, f, g, h)) ==> a.enc() + b.enc() + c.enc() + d.enc() + e.enc()
            + f.enc() + enc_seq(g@) + h.enc() == span(old(r).data(), old(r).st(), final(r).st()),
    res matches Ok((a, b, c, d, e, f, g, h)) ==> crate::accept_effects::legal_status(a) && g@.len()
            <= MAX_SEQUENCE_LENGTH,
{
    let status = ExecutionStatus::parse(r)?;
    let executed_epoch = r.u64()?;
    let gas_used = GasCostSummary::parse(r)?;
    let transaction_digest = Digest::parse(r)?;
    let gas_object_index = Option::<u32>::parse(r)?;
    let events_digest = Option::<Digest>::parse(r)?;
    let dependencies = parse_digests(r)?;
    let lamport_version = r.u64()?;
    r.check();
    Ok(
        (
            status,
            executed_epoch,
            gas_used,
            transaction_digest,
            gas_object_index,
            events_digest,
            dependencies,
            lamport_version,
        ),
    )
}

impl Wire for TransactionEffectsV2 {
    open spec fn rec(s: Seq<u8>, st: St) -> Rec {
        nested(st, |st1: St| then(rec_v2_head(s, st1), |st2: St| rec_v2_tail(s, st2)))
    }

    open spec fn enc(self) -> Seq<u8> {
        enc_v2_head(self) + enc_v2_tail(self)
    }

    /// Its lists within the reader's length limit, its changes and status well-formed.
    open spec fn well_formed(self) -> bool {
        crate::accept_effects::legal_v2(self)
    }

    #[verifier::rlimit(40)]
    fn parse(r: &mut Reader) -> (res: Result<TransactionEffectsV2, ParseError>) {
        let ghost s = r.data();
        r.enter()?;
        let ghost st1 = r.st();
        let (
            status,
            executed_epoch,
            gas_used,
            transaction_digest,
            gas_object_index,
            events_digest,
            dependencies,
            lamport_version,
        ) = parse_v2_head(r)?;
        let ghost st2 = r.st();
        let changed_objects = parse_seq::<ObjectChange>(r, ObjectChange::MIN_WIRE_SIZE)?;
        let unchanged_consensus_objects = parse_seq::<(ObjectId, UnchangedConsensusKind)>(r, 33)?;
        let aux_data_digest = Option::<Digest>::parse(r)?;
        r.check();
        let ghost st3 = r.st();
        let e = TransactionEffectsV2 {
            status,
            executed_epoch,
            gas_used,
            transaction_digest,
            gas_object_index,
            events_digest,
            dependencies,
            lamport_version,
            changed_objects,
            unchanged_consensus_objects,
            aux_data_digest,
        };
        proof {
            assert(enc_v2_head(e) == span(s, st1, st2));
            assert(enc_v2_tail(e) == span(s, st2, st3));
            assert(crate::accept_effects::legal_v2(e));
        }
        r.leave();
        Ok(e)
    }
}

impl TransactionEffectsV2 {
    pub fn parse(r: &mut Reader) -> (res: Result<TransactionEffectsV2, ParseError>)
        ensures
            crate::wire::parsed(*old(r), *final(r), res),
    {
        <TransactionEffectsV2 as Wire>::parse(r)
    }
}

#[derive(PartialEq, Eq, Debug)]
pub enum VersionedEffects {
    V1(TransactionEffectsV1),
    V2(TransactionEffectsV2),
}

#[derive(PartialEq, Eq, Debug)]
pub struct TransactionEffects {
    /// The exact encoding, which is what gets hashed.
    pub bytes: Vec<u8>,
    /// Computed once, from `bytes`, while parsing.
    pub digest: Digest,
    pub version: VersionedEffects,
}

impl TransactionEffects {
    /// A successful V2 with nothing optional and every sequence empty.
    pub const MIN_WIRE_SIZE: usize = 1 + 1 + 8 + 32 + 33 + 1 + 1 + 1 + 8 + 1 + 1 + 1;

    /// What the parser derives: the bytes are the encoding and the digest is
    /// that of the bytes.
    pub open spec fn derived(self) -> bool {
        &&& self.bytes@ == self.enc()
        &&& self.digest.bytes@ == blake2b256(hashed_bytes("TransactionEffects".spec_bytes(), self.bytes@))
    }
}

impl Wire for TransactionEffects {
    open spec fn rec(s: Seq<u8>, st: St) -> Rec {
        nested(
            st,
            |st1: St|
                match sp_uleb(s, st1) {
                    Ok((tag, st2)) => if tag == 0 {
                        TransactionEffectsV1::rec(s, st2)
                    } else if tag == 1 {
                        TransactionEffectsV2::rec(s, st2)
                    } else {
                        Err(unknown("TransactionEffects", tag))
                    },
                    Err(e) => Err(e),
                },
        )
    }

    open spec fn enc(self) -> Seq<u8> {
        match self.version {
            VersionedEffects::V1(v) => enc_uleb(0) + v.enc(),
            VersionedEffects::V2(v) => enc_uleb(1) + v.enc(),
        }
    }

    /// Its version well-formed, its bytes its encoding and its digest theirs.
    open spec fn well_formed(self) -> bool {
        crate::accept_effects::legal_effects(self.version) && self.derived()
    }

    fn parse(r: &mut Reader) -> (res: Result<TransactionEffects, ParseError>)
        ensures
            res matches Ok(v) ==> v.derived(),
    {
        let start = r.pos();
        r.enter()?;
        let version = match r.variant()? {
            0 => VersionedEffects::V1(TransactionEffectsV1::parse(r)?),
            1 => VersionedEffects::V2(TransactionEffectsV2::parse(r)?),
            tag => {
                return Err(ParseError::UnknownVariant { ty: "TransactionEffects", tag });
            },
        };
        r.check();
        r.leave();
        let bytes = vstd::slice::slice_to_vec(r.span(start));
        let digest = Digest::of("TransactionEffects", bytes.as_slice());
        Ok(TransactionEffects { bytes, digest, version })
    }
}

impl TransactionEffects {
    pub fn parse(r: &mut Reader) -> (res: Result<TransactionEffects, ParseError>)
        ensures
            crate::wire::parsed(*old(r), *final(r), res),
            res matches Ok(v) ==> v.derived(),
    {
        <TransactionEffects as Wire>::parse(r)
    }
}

/// The module name is not checked against the Move identifier grammar.
#[derive(PartialEq, Eq, Debug)]
pub struct Event {
    pub package_id: ObjectId,
    pub transaction_module: String,
    pub sender: SuiAddress,
    pub type_: StructTag,
    pub contents: Vec<u8>,
}

impl Event {
    /// Two ids, a struct tag of an address and three lengths, and two more
    /// lengths.
    pub const MIN_WIRE_SIZE: usize = 101;
}

impl Wire for Event {
    open spec fn rec(s: Seq<u8>, st: St) -> Rec {
        nested(
            st,
            |st1: St|
                then(
                    rec3::<ObjectId, String, SuiAddress>(s, st1),
                    |st2: St| then(StructTag::rec(s, st2), |st3: St| sp_byte_vec(s, st3)),
                ),
        )
    }

    open spec fn enc(self) -> Seq<u8> {
        self.package_id.enc() + self.transaction_module.enc() + self.sender.enc()
            + self.type_.enc() + enc_bytes(self.contents@)
    }

    /// Its strings, type and contents within the reader's limits.
    open spec fn well_formed(self) -> bool {
        crate::accept::legal_event(self)
    }

    fn parse(r: &mut Reader) -> (res: Result<Event, ParseError>) {
        r.enter()?;
        let package_id = ObjectId::parse(r)?;
        let transaction_module = r.string()?;
        let sender = SuiAddress::parse(r)?;
        let type_ = StructTag::parse(r)?;
        let contents = r.byte_vec_owned()?;
        r.check();
        r.leave();
        Ok(Event { package_id, transaction_module, sender, type_, contents })
    }
}

#[derive(PartialEq, Eq, Debug)]
pub struct TransactionEvents {
    /// The exact encoding, which is what gets hashed.
    pub bytes: Vec<u8>,
    pub data: Vec<Event>,
}

impl TransactionEvents {
    /// Hashed on demand: Sui does not treat events as a message.
    pub fn digest(&self) -> (d: Digest)
        ensures
            d.bytes@ == blake2b256(hashed_bytes("TransactionEvents".spec_bytes(), self.bytes@)),
    {
        Digest::of("TransactionEvents", self.bytes.as_slice())
    }
}

impl Wire for TransactionEvents {
    open spec fn rec(s: Seq<u8>, st: St) -> Rec {
        nested(st, |st1: St| sp_seq::<Event>(s, st1, 101))
    }

    open spec fn enc(self) -> Seq<u8> {
        enc_seq(self.data@)
    }

    /// As many events as the reader's limit allows, each well-formed, and
    /// `bytes` exactly their encoding.
    open spec fn well_formed(self) -> bool {
        crate::accept_checkpoint::legal_events(self) && self.bytes@ == self.enc()
    }

    fn parse(r: &mut Reader) -> (res: Result<TransactionEvents, ParseError>)
        ensures
            res matches Ok(v) ==> v.bytes@ == v.enc(),
    {
        let start = r.pos();
        r.enter()?;
        let data = parse_seq::<Event>(r, Event::MIN_WIRE_SIZE)?;
        r.check();
        r.leave();
        let bytes = vstd::slice::slice_to_vec(r.span(start));
        Ok(TransactionEvents { bytes, data })
    }
}

impl TransactionEvents {
    pub fn parse(r: &mut Reader) -> (res: Result<TransactionEvents, ParseError>)
        ensures
            crate::wire::parsed(*old(r), *final(r), res),
            res matches Ok(v) ==> v.bytes@ == v.enc(),
    {
        <TransactionEvents as Wire>::parse(r)
    }
}

} // verus!
