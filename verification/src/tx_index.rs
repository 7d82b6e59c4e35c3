//! What a transaction touches, gathered once while it is parsed so that
//! every later reader gets a list instead of walking the commands.
//!
//! Where Sui reports an error (the same object named twice),
//! this index keeps both entries and leaves the rejection to validation.
use vstd::prelude::*;
use crate::base::{ObjectId, ObjectRef};
use crate::order::{lex_lt, array_lt, lemma_lex_total};
use crate::system_transaction::EndOfEpochTransactionKind;
use crate::transaction::{
    CallArg, Command, GasData, ObjectArg, ProgrammableTransaction, SharedObjectArg,
    SharedObjectMutability, TransactionKind,
};
use crate::type_tag::{TypeTag, StructTag};
use crate::wire::enc_u64;

verus! {

/// The bytes of the id of system object `n`: zeros, then `n` big-endian.
pub open spec fn sys_id_bytes(n: u16) -> Seq<u8> {
    Seq::new(30, |i: int| 0u8) + seq![(n / 256) as u8, (n % 256) as u8]
}

pub fn sui_system_state_object_id() -> (id: ObjectId)
    ensures
        id.0@ == sys_id_bytes(5),
{
    ObjectId::from_u16(5)
}

pub fn sui_clock_object_id() -> (id: ObjectId)
    ensures
        id.0@ == sys_id_bytes(6),
{
    ObjectId::from_u16(6)
}

pub fn sui_authenticator_state_object_id() -> (id: ObjectId)
    ensures
        id.0@ == sys_id_bytes(7),
{
    ObjectId::from_u16(7)
}

pub fn sui_randomness_state_object_id() -> (id: ObjectId)
    ensures
        id.0@ == sys_id_bytes(8),
{
    ObjectId::from_u16(8)
}

pub fn sui_bridge_object_id() -> (id: ObjectId)
    ensures
        id.0@ == sys_id_bytes(9),
{
    ObjectId::from_u16(9)
}

/// System object `n` at `version`, taken mutably.
pub open spec fn is_sys_shared(a: SharedObjectArg, n: u16, version: u64) -> bool {
    &&& a.id.0@ == sys_id_bytes(n)
    &&& a.initial_shared_version.0@ == enc_u64(version)
    &&& a.mutability == SharedObjectMutability::Mutable
}

/// The shared-object input of system object `n` at `version`.
pub open spec fn sys_shared(n: u16, version: u64) -> SharedObjectArg {
    choose|a: SharedObjectArg| is_sys_shared(a, n, version)
}

proof fn lemma_sys_shared(a: SharedObjectArg, n: u16, version: u64)
    requires
        is_sys_shared(a, n, version),
    ensures
        a == sys_shared(n, version),
{
    let b = sys_shared(n, version);
    assert(is_sys_shared(b, n, version));
    assert(a.id.0 =~= b.id.0);
    assert(a.initial_shared_version.0 =~= b.initial_shared_version.0);
}

fn sys_shared_arg(n: u16, version: u64) -> (a: SharedObjectArg)
    ensures
        a == sys_shared(n, version),
{
    let a = SharedObjectArg::new(ObjectId::from_u16(n), version, SharedObjectMutability::Mutable);
    proof {
        assert(a.id.0@ =~= sys_id_bytes(n));
        lemma_sys_shared(a, n, version);
    }
    a
}

/// An address balance reservation rather than an object: the digest's
/// last twenty bytes are all `0xac`.
pub open spec fn is_reservation(o: ObjectRef) -> bool {
    forall|k: int| 12 <= k < 32 ==> o.digest.bytes[k] == 0xac
}

impl ObjectRef {
    /// Whether this names an address balance reservation rather than an
    /// object: the digest's last twenty bytes are all `0xac`.
    pub fn is_coin_reservation(&self) -> (b: bool)
        ensures
            b == is_reservation(*self),
    {
        let mut k: usize = 12;
        while k < 32
            invariant
                12 <= k <= 32,
                forall|j: int| 12 <= j < k ==> self.digest.bytes[j] == 0xac,
            decreases 32 - k,
        {
            if self.digest.bytes[k] != 0xac {
                return false;
            }
            k = k + 1;
        }
        true
    }
}

// ---------------------------------------------------------------------
// What each list holds, by the inputs, commands and gas it is made from.

pub open spec fn inputs_shared(v: Seq<CallArg>) -> Seq<SharedObjectArg>
    decreases v.len(),
{
    if v.len() == 0 {
        Seq::empty()
    } else {
        inputs_shared(v.drop_last()) + match v.last() {
            CallArg::Object(ObjectArg::SharedObject(a)) => seq![a],
            _ => Seq::empty(),
        }
    }
}

/// Owned and immutable inputs that are objects; with `reserved`, those
/// that are coin reservations instead.
pub open spec fn inputs_owned(v: Seq<CallArg>, reserved: bool) -> Seq<ObjectRef>
    decreases v.len(),
{
    if v.len() == 0 {
        Seq::empty()
    } else {
        inputs_owned(v.drop_last(), reserved) + match v.last() {
            CallArg::Object(ObjectArg::ImmOrOwnedObject(o)) => if is_reservation(o) == reserved {
                seq![o]
            } else {
                Seq::empty()
            },
            _ => Seq::empty(),
        }
    }
}

pub open spec fn inputs_receiving(v: Seq<CallArg>) -> Seq<ObjectRef>
    decreases v.len(),
{
    if v.len() == 0 {
        Seq::empty()
    } else {
        inputs_receiving(v.drop_last()) + match v.last() {
            CallArg::Object(ObjectArg::Receiving(o)) => seq![o],
            _ => Seq::empty(),
        }
    }
}

/// The positions of the funds withdrawals among the inputs.
pub open spec fn inputs_funds(v: Seq<CallArg>) -> Seq<u32>
    decreases v.len(),
{
    if v.len() == 0 {
        Seq::empty()
    } else {
        inputs_funds(v.drop_last()) + if v.last() is FundsWithdrawal {
            seq![#[verifier::truncate] ((v.len() - 1) as u32)]
        } else {
            Seq::empty()
        }
    }
}

/// The gas payment objects; with `reserved`, its coin reservations.
pub open spec fn payment_part(v: Seq<ObjectRef>, reserved: bool) -> Seq<ObjectRef>
    decreases v.len(),
{
    if v.len() == 0 {
        Seq::empty()
    } else {
        payment_part(v.drop_last(), reserved) + if is_reservation(v.last()) == reserved {
            seq![v.last()]
        } else {
            Seq::empty()
        }
    }
}

/// The positions of the `MoveCall`s among the commands.
pub open spec fn move_call_positions(v: Seq<Command>) -> Seq<u32>
    decreases v.len(),
{
    if v.len() == 0 {
        Seq::empty()
    } else {
        move_call_positions(v.drop_last()) + if v.last() is MoveCall {
            seq![#[verifier::truncate] ((v.len() - 1) as u32)]
        } else {
            Seq::empty()
        }
    }
}

/// The packages a type names: each struct's address, at any depth.
pub open spec fn type_packages(t: TypeTag) -> Seq<ObjectId>
    decreases t,
{
    match t {
        TypeTag::Vector(inner) => type_packages(*inner),
        TypeTag::Struct(st) => struct_packages(*st),
        _ => Seq::empty(),
    }
}

pub open spec fn struct_packages(st: StructTag) -> Seq<ObjectId>
    decreases st,
{
    seq![ObjectId(st.address.0)] + types_packages(st.type_params@)
}

pub open spec fn types_packages(v: Seq<TypeTag>) -> Seq<ObjectId>
    decreases v,
{
    if v.len() == 0 {
        Seq::empty()
    } else {
        types_packages(v.subrange(0, v.len() - 1)) + type_packages(v[v.len() - 1])
    }
}

/// The packages a command calls into, names in a type argument, or
/// depends on.
pub open spec fn command_packages(c: Command) -> Seq<ObjectId> {
    match c {
        Command::MoveCall(call) => seq![call.package] + types_packages(call.type_arguments@),
        Command::Publish(_, deps) => deps@,
        Command::MakeMoveVec(Some(t), _) => type_packages(t),
        Command::Upgrade(_, deps, package, _) => deps@.push(package),
        _ => Seq::empty(),
    }
}

pub open spec fn commands_packages(v: Seq<Command>) -> Seq<ObjectId>
    decreases v.len(),
{
    if v.len() == 0 {
        Seq::empty()
    } else {
        commands_packages(v.drop_last()) + command_packages(v.last())
    }
}

/// The system objects an end-of-epoch transaction writes.
pub open spec fn end_of_epoch_shared(k: EndOfEpochTransactionKind) -> Seq<SharedObjectArg> {
    match k {
        EndOfEpochTransactionKind::ChangeEpoch(_)
        | EndOfEpochTransactionKind::StoreExecutionTimeObservations(_)
        | EndOfEpochTransactionKind::WriteAccumulatorStorageCost { .. } => seq![sys_shared(5, 1)],
        EndOfEpochTransactionKind::AuthenticatorStateExpire {
            authenticator_obj_initial_shared_version,
            ..
        } => seq![sys_shared(7, authenticator_obj_initial_shared_version)],
        EndOfEpochTransactionKind::BridgeCommitteeInit(v) => seq![sys_shared(9, v), sys_shared(5, 1)],
        _ => Seq::empty(),
    }
}

/// How many shared objects an end-of-epoch transaction reserves before
/// they are written: one for those that write one system object, two for
/// the bridge committee's initialisation, none for the rest.
pub open spec fn end_of_epoch_count(k: EndOfEpochTransactionKind) -> nat {
    match k {
        EndOfEpochTransactionKind::ChangeEpoch(_)
        | EndOfEpochTransactionKind::AuthenticatorStateExpire { .. }
        | EndOfEpochTransactionKind::StoreExecutionTimeObservations(_)
        | EndOfEpochTransactionKind::WriteAccumulatorStorageCost { .. } => 1,
        EndOfEpochTransactionKind::BridgeCommitteeInit(_) => 2,
        _ => 0,
    }
}

/// What is written for an end-of-epoch transaction fills what was reserved
/// for it: the system state (object 0x5 at version 1) for a change of
/// epoch, stored execution-time observations or the accumulator storage
/// cost; the authenticator state (0x7) at its version for its expiry; the
/// bridge (0x9) at its version, then the system state, for the bridge
/// committee; nothing for the rest.
pub proof fn lemma_end_of_epoch_count(k: EndOfEpochTransactionKind)
    ensures
        end_of_epoch_shared(k).len() == end_of_epoch_count(k),
{
}

pub open spec fn end_of_epoch_all_shared(v: Seq<EndOfEpochTransactionKind>) -> Seq<SharedObjectArg>
    decreases v.len(),
{
    if v.len() == 0 {
        Seq::empty()
    } else {
        end_of_epoch_all_shared(v.drop_last()) + end_of_epoch_shared(v.last())
    }
}

/// The shared objects of a kind: its shared inputs, or the system objects
/// it writes.
pub open spec fn kind_shared(kind: TransactionKind) -> Seq<SharedObjectArg> {
    match kind {
        TransactionKind::ProgrammableTransaction(pt) => inputs_shared(pt.inputs@),
        TransactionKind::ProgrammableSystemTransaction(pt) => inputs_shared(pt.inputs@),
        TransactionKind::ChangeEpoch(_) => seq![sys_shared(5, 1)],
        TransactionKind::ConsensusCommitPrologue(_)
        | TransactionKind::ConsensusCommitPrologueV2(_)
        | TransactionKind::ConsensusCommitPrologueV3(_)
        | TransactionKind::ConsensusCommitPrologueV4(_) => seq![sys_shared(6, 1)],
        TransactionKind::AuthenticatorStateUpdate(u) => seq![
            sys_shared(7, u.authenticator_obj_initial_shared_version),
        ],
        TransactionKind::RandomnessStateUpdate(u) => seq![
            sys_shared(8, u.randomness_obj_initial_shared_version),
        ],
        TransactionKind::EndOfEpochTransaction(ks) => end_of_epoch_all_shared(ks@),
        TransactionKind::Genesis(_) => Seq::empty(),
    }
}

/// The programmable transaction of a kind, user or system.
pub open spec fn pt_of(kind: TransactionKind) -> Option<ProgrammableTransaction> {
    match kind {
        TransactionKind::ProgrammableTransaction(pt) => Some(pt),
        TransactionKind::ProgrammableSystemTransaction(pt) => Some(pt),
        _ => None,
    }
}

/// A programmable transaction's lists fit the sequence length limit.
pub open spec fn kind_bounded(kind: TransactionKind) -> bool {
    match pt_of(kind) {
        Some(pt) => pt.inputs@.len() <= crate::reader::MAX_SEQUENCE_LENGTH
            && pt.commands@.len() <= crate::reader::MAX_SEQUENCE_LENGTH,
        None => true,
    }
}

/// Strictly increasing ids, hence no repeats.
pub open spec fn sorted_ids(v: Seq<ObjectId>) -> bool {
    forall|i: int| 0 < i < v.len() ==> lex_lt(v[i - 1].0@, #[trigger] v[i].0@)
}

#[derive(PartialEq, Eq, Debug)]
pub struct TransactionIndex {
    /// Every shared object input in input order, repeats included. System
    /// transactions name the system objects they write.
    pub shared_inputs: Vec<SharedObjectArg>,
    /// Owned and immutable object inputs in input order, then the gas
    /// payment of a user transaction. Coin reservations are left out.
    pub owned_inputs: Vec<ObjectRef>,
    /// Every package a command calls into, names in a type argument, or
    /// depends on, in increasing order without repeats.
    pub packages: Vec<ObjectId>,
    /// The next three are empty unless the kind is `ProgrammableTransaction`.
    pub receiving: Vec<ObjectRef>,
    /// Indices into `commands` of the `MoveCall`s.
    pub move_calls: Vec<u32>,
    /// Indices into `inputs` of the funds withdrawals.
    pub funds_withdrawals: Vec<u32>,
    /// Coin reservations among the inputs of a user transaction, then
    /// among the gas payment, whatever the kind.
    pub coin_reservations: Vec<ObjectRef>,
}

/// The index of a transaction of `kind` paying with `gas`.
pub open spec fn index_ok(idx: TransactionIndex, kind: TransactionKind, gas: GasData) -> bool {
    let user = kind is ProgrammableTransaction;
    &&& idx.shared_inputs@ == kind_shared(kind)
    &&& idx.owned_inputs@ == (match pt_of(kind) {
        Some(pt) => inputs_owned(pt.inputs@, false),
        None => Seq::empty(),
    }) + if user {
        payment_part(gas.payment@, false)
    } else {
        Seq::empty()
    }
    &&& idx.coin_reservations@ == (match kind {
        TransactionKind::ProgrammableTransaction(pt) => inputs_owned(pt.inputs@, true),
        _ => Seq::empty(),
    }) + payment_part(gas.payment@, true)
    &&& idx.receiving@ == (match kind {
        TransactionKind::ProgrammableTransaction(pt) => inputs_receiving(pt.inputs@),
        _ => Seq::empty(),
    })
    &&& idx.move_calls@ == (match kind {
        TransactionKind::ProgrammableTransaction(pt) => move_call_positions(pt.commands@),
        _ => Seq::empty(),
    })
    &&& idx.funds_withdrawals@ == (match kind {
        TransactionKind::ProgrammableTransaction(pt) => inputs_funds(pt.inputs@),
        _ => Seq::empty(),
    })
    &&& sorted_ids(idx.packages@)
    &&& idx.packages@.to_set() == (match pt_of(kind) {
        Some(pt) => commands_packages(pt.commands@).to_set(),
        None => Set::empty(),
    })
}

// ---------------------------------------------------------------------
// Order on ids.

/// Inserts `x` into a strictly increasing list unless it is there already.
fn insert_sorted(v: &mut Vec<ObjectId>, x: ObjectId)
    requires
        sorted_ids(old(v)@),
    ensures
        sorted_ids(final(v)@),
        final(v)@.to_set() == old(v)@.to_set().insert(x),
{
    let mut i: usize = 0;
    while i < v.len() && array_lt(&v[i].0, &x.0)
        invariant
            i <= v@.len(),
            sorted_ids(v@),
            v@ == old(v)@,
            forall|j: int| 0 <= j < i ==> lex_lt(#[trigger] v@[j].0@, x.0@),
        decreases v@.len() - i,
    {
        i = i + 1;
    }
    if i < v.len() && !array_lt(&x.0, &v[i].0) {
        proof {
            lemma_lex_total(v@[i as int].0@, x.0@);
            assert(v@[i as int].0 =~= x.0);
            assert(v@[i as int] == x);
            assert(v@.to_set().insert(x) =~= v@.to_set());
        }
        return;
    }
    proof {
        if i < v@.len() {
            lemma_lex_total(v@[i as int].0@, x.0@);
        }
    }
    let ghost old_v = v@;
    assert(i > 0 ==> lex_lt(old_v[i - 1].0@, x.0@));
    assert(i < old_v.len() ==> lex_lt(x.0@, old_v[i as int].0@));
    assert(forall|k: int| 0 < k < old_v.len() ==> lex_lt(old_v[k - 1].0@, #[trigger] old_v[k].0@));
    v.insert(i, x);
    proof {
        assert(v@ =~= old_v.subrange(0, i as int).push(x) + old_v.subrange(i as int, old_v.len() as int));
        assert forall|k: int| 0 < k < v@.len() implies lex_lt(v@[k - 1].0@, #[trigger] v@[k].0@) by {
            if k < i {
                assert(v@[k - 1] == old_v[k - 1] && v@[k] == old_v[k]);
            } else if k == i {
                assert(v@[k - 1] == old_v[k - 1]);
                assert(v@[k] == x);
            } else if k == i + 1 {
                assert(v@[k - 1] == x);
                assert(v@[k] == old_v[k - 1]);
            } else {
                assert(v@[k - 1] == old_v[k - 2] && v@[k] == old_v[k - 1]);
            }
        }
        assert forall|y: ObjectId| v@.to_set().contains(y) <==> old_v.to_set().insert(x).contains(y) by {
            if v@.to_set().contains(y) {
                let k = choose|k: int| 0 <= k < v@.len() && v@[k] == y;
                if k < i {
                    assert(old_v[k] == y);
                } else if k > i {
                    assert(old_v[k - 1] == y);
                }
            }
            if old_v.to_set().contains(y) && y != x {
                let k = choose|k: int| 0 <= k < old_v.len() && old_v[k] == y;
                if k < i {
                    assert(v@[k] == y);
                } else {
                    assert(v@[k + 1] == y);
                }
            }
            if y == x {
                assert(v@[i as int] == x);
            }
        }
        assert(v@.to_set() =~= old_v.to_set().insert(x));
    }
}

/// The ids in increasing order, each once.
pub fn sort_dedup(v: &Vec<ObjectId>) -> (out: Vec<ObjectId>)
    ensures
        sorted_ids(out@),
        out@.to_set() == v@.to_set(),
{
    let mut out: Vec<ObjectId> = Vec::new();
    let mut i: usize = 0;
    assert(out@.to_set() =~= v@.subrange(0, 0).to_set());
    while i < v.len()
        invariant
            i <= v@.len(),
            sorted_ids(out@),
            out@.to_set() == v@.subrange(0, i as int).to_set(),
        decreases v@.len() - i,
    {
        insert_sorted(&mut out, v[i]);
        proof {
            assert(v@.subrange(0, i + 1) =~= v@.subrange(0, i as int).push(v@[i as int]));
            v@.subrange(0, i as int).lemma_push_to_set_commute(v@[i as int]);
        }
        i = i + 1;
    }
    assert(v@.subrange(0, i as int) =~= v@);
    out
}

// ---------------------------------------------------------------------
// Gathering.

fn push_type_packages(t: &TypeTag, packages: &mut Vec<ObjectId>)
    ensures
        final(packages)@ == old(packages)@ + type_packages(*t),
    decreases t,
{
    match t {
        TypeTag::Vector(inner) => push_type_packages(inner, packages),
        TypeTag::Struct(st) => push_struct_packages(st, packages),
        _ => {},
    }
}

fn push_struct_packages(st: &StructTag, packages: &mut Vec<ObjectId>)
    ensures
        final(packages)@ == old(packages)@ + struct_packages(*st),
    decreases st,
{
    packages.push(ObjectId(st.address.0));
    let mut i: usize = 0;
    let ghost base = packages@;
    assert(types_packages(st.type_params@.subrange(0, 0)) =~= Seq::empty());
    while i < st.type_params.len()
        invariant
            i <= st.type_params@.len(),
            packages@ == base + types_packages(st.type_params@.subrange(0, i as int)),
        decreases st.type_params@.len() - i,
    {
        push_type_packages(&st.type_params[i], packages);
        proof {
            let sub = st.type_params@.subrange(0, i + 1);
            assert(sub.subrange(0, sub.len() - 1) =~= st.type_params@.subrange(0, i as int));
        }
        i = i + 1;
    }
    proof {
        assert(st.type_params@.subrange(0, i as int) =~= st.type_params@);
    }
}

fn push_command_packages(c: &Command, packages: &mut Vec<ObjectId>)
    ensures
        final(packages)@ == old(packages)@ + command_packages(*c),
{
    match c {
        Command::MoveCall(call) => {
            packages.push(call.package);
            let ghost base = packages@;
            let mut i: usize = 0;
            assert(types_packages(call.type_arguments@.subrange(0, 0)) =~= Seq::empty());
            while i < call.type_arguments.len()
                invariant
                    i <= call.type_arguments@.len(),
                    packages@ == base + types_packages(call.type_arguments@.subrange(0, i as int)),
                decreases call.type_arguments@.len() - i,
            {
                push_type_packages(&call.type_arguments[i], packages);
                proof {
                    let sub = call.type_arguments@.subrange(0, i + 1);
                    assert(sub.subrange(0, sub.len() - 1) =~= call.type_arguments@.subrange(0, i as int));
                }
                i = i + 1;
            }
            proof {
                assert(call.type_arguments@.subrange(0, i as int) =~= call.type_arguments@);
                assert(packages@ =~= old(packages)@ + command_packages(*c));
            }
        },
        Command::Publish(_, deps) => {
            crate::tx_index::extend_ids(packages, deps);
        },
        Command::MakeMoveVec(Some(t), _) => push_type_packages(t, packages),
        Command::Upgrade(_, deps, package, _) => {
            extend_ids(packages, deps);
            packages.push(*package);
            assert(packages@ =~= old(packages)@ + command_packages(*c));
        },
        _ => {
            assert(packages@ =~= old(packages)@ + command_packages(*c));
        },
    }
}

fn extend_ids(packages: &mut Vec<ObjectId>, ids: &Vec<ObjectId>)
    ensures
        final(packages)@ == old(packages)@ + ids@,
{
    let mut i: usize = 0;
    while i < ids.len()
        invariant
            i <= ids@.len(),
            packages@ == old(packages)@ + ids@.subrange(0, i as int),
        decreases ids@.len() - i,
    {
        packages.push(ids[i]);
        assert(ids@.subrange(0, i + 1) =~= ids@.subrange(0, i as int).push(ids@[i as int]));
        i = i + 1;
    }
    assert(ids@.subrange(0, i as int) =~= ids@);
}

fn push_end_of_epoch(kind: &EndOfEpochTransactionKind, shared: &mut Vec<SharedObjectArg>)
    ensures
        final(shared)@ == old(shared)@ + end_of_epoch_shared(*kind),
{
    match kind {
        EndOfEpochTransactionKind::ChangeEpoch(_)
        | EndOfEpochTransactionKind::StoreExecutionTimeObservations(_)
        | EndOfEpochTransactionKind::WriteAccumulatorStorageCost { .. } => {
            shared.push(sys_shared_arg(5, 1));
        },
        EndOfEpochTransactionKind::AuthenticatorStateExpire {
            authenticator_obj_initial_shared_version,
            ..
        } => {
            shared.push(sys_shared_arg(7, *authenticator_obj_initial_shared_version));
        },
        EndOfEpochTransactionKind::BridgeCommitteeInit(version) => {
            shared.push(sys_shared_arg(9, *version));
            shared.push(sys_shared_arg(5, 1));
        },
        _ => {},
    }
    assert(shared@ =~= old(shared)@ + end_of_epoch_shared(*kind));
}

/// The lists an input contributes to, in input order.
struct InputLists {
    shared: Vec<SharedObjectArg>,
    owned: Vec<ObjectRef>,
    reserved: Vec<ObjectRef>,
    receiving: Vec<ObjectRef>,
    funds: Vec<u32>,
}

fn gather_inputs(inputs: &Vec<CallArg>) -> (l: InputLists)
    ensures
        l.shared@ == inputs_shared(inputs@),
        l.owned@ == inputs_owned(inputs@, false),
        l.reserved@ == inputs_owned(inputs@, true),
        l.receiving@ == inputs_receiving(inputs@),
        l.funds@ == inputs_funds(inputs@),
{
    let mut l = InputLists {
        shared: Vec::new(),
        owned: Vec::new(),
        reserved: Vec::new(),
        receiving: Vec::new(),
        funds: Vec::new(),
    };
    let mut i: usize = 0;
    while i < inputs.len()
        invariant
            i <= inputs@.len(),
            l.shared@ == inputs_shared(inputs@.subrange(0, i as int)),
            l.owned@ == inputs_owned(inputs@.subrange(0, i as int), false),
            l.reserved@ == inputs_owned(inputs@.subrange(0, i as int), true),
            l.receiving@ == inputs_receiving(inputs@.subrange(0, i as int)),
            l.funds@ == inputs_funds(inputs@.subrange(0, i as int)),
        decreases inputs@.len() - i,
    {
        let ghost sub = inputs@.subrange(0, i + 1);
        proof {
            assert(sub.drop_last() =~= inputs@.subrange(0, i as int));
        }
        match &inputs[i] {
            CallArg::Pure(_) => {},
            CallArg::Object(ObjectArg::ImmOrOwnedObject(o)) => {
                if o.is_coin_reservation() {
                    l.reserved.push(*o);
                } else {
                    l.owned.push(*o);
                }
            },
            CallArg::Object(ObjectArg::SharedObject(a)) => l.shared.push(*a),
            CallArg::Object(ObjectArg::Receiving(o)) => l.receiving.push(*o),
            CallArg::FundsWithdrawal(_) => l.funds.push(#[verifier::truncate] (i as u32)),
        }
        proof {
            assert(l.shared@ =~= inputs_shared(sub));
            assert(l.owned@ =~= inputs_owned(sub, false));
            assert(l.reserved@ =~= inputs_owned(sub, true));
            assert(l.receiving@ =~= inputs_receiving(sub));
            assert(l.funds@ =~= inputs_funds(sub));
        }
        i = i + 1;
    }
    proof {
        assert(inputs@.subrange(0, i as int) =~= inputs@);
    }
    l
}

fn gather_payment(payment: &Vec<ObjectRef>, owned: &mut Vec<ObjectRef>, reserved: &mut Vec<ObjectRef>)
    ensures
        final(owned)@ == old(owned)@ + payment_part(payment@, false),
        final(reserved)@ == old(reserved)@ + payment_part(payment@, true),
{
    let mut i: usize = 0;
    while i < payment.len()
        invariant
            i <= payment@.len(),
            owned@ == old(owned)@ + payment_part(payment@.subrange(0, i as int), false),
            reserved@ == old(reserved)@ + payment_part(payment@.subrange(0, i as int), true),
        decreases payment@.len() - i,
    {
        let ghost sub = payment@.subrange(0, i + 1);
        proof {
            assert(sub.drop_last() =~= payment@.subrange(0, i as int));
        }
        let o = payment[i];
        if o.is_coin_reservation() {
            reserved.push(o);
        } else {
            owned.push(o);
        }
        proof {
            assert(owned@ =~= old(owned)@ + payment_part(sub, false));
            assert(reserved@ =~= old(reserved)@ + payment_part(sub, true));
        }
        i = i + 1;
    }
    proof {
        assert(payment@.subrange(0, i as int) =~= payment@);
    }
}

fn gather_commands(commands: &Vec<Command>, packages: &mut Vec<ObjectId>) -> (calls: Vec<u32>)
    ensures
        final(packages)@ == old(packages)@ + commands_packages(commands@),
        calls@ == move_call_positions(commands@),
{
    let mut calls: Vec<u32> = Vec::new();
    let mut i: usize = 0;
    while i < commands.len()
        invariant
            i <= commands@.len(),
            packages@ == old(packages)@ + commands_packages(commands@.subrange(0, i as int)),
            calls@ == move_call_positions(commands@.subrange(0, i as int)),
        decreases commands@.len() - i,
    {
        let ghost sub = commands@.subrange(0, i + 1);
        proof {
            assert(sub.drop_last() =~= commands@.subrange(0, i as int));
        }
        let c = &commands[i];
        push_command_packages(c, packages);
        match c {
            Command::MoveCall(_) => calls.push(#[verifier::truncate] (i as u32)),
            _ => {},
        }
        proof {
            assert(packages@ =~= old(packages)@ + commands_packages(sub));
            assert(calls@ =~= move_call_positions(sub));
        }
        i = i + 1;
    }
    proof {
        assert(commands@.subrange(0, i as int) =~= commands@);
    }
    calls
}

fn gather_end_of_epoch(kinds: &Vec<EndOfEpochTransactionKind>) -> (shared: Vec<SharedObjectArg>)
    ensures
        shared@ == end_of_epoch_all_shared(kinds@),
{
    let mut shared: Vec<SharedObjectArg> = Vec::new();
    let mut i: usize = 0;
    while i < kinds.len()
        invariant
            i <= kinds@.len(),
            shared@ == end_of_epoch_all_shared(kinds@.subrange(0, i as int)),
        decreases kinds@.len() - i,
    {
        let ghost sub = kinds@.subrange(0, i + 1);
        proof {
            assert(sub.drop_last() =~= kinds@.subrange(0, i as int));
        }
        push_end_of_epoch(&kinds[i], &mut shared);
        i = i + 1;
    }
    proof {
        assert(kinds@.subrange(0, i as int) =~= kinds@);
    }
    shared
}

/// Every entry of the positions is a `MoveCall` in range.
pub proof fn lemma_move_calls(v: Seq<Command>, n: int)
    requires
        n == v.len(),
        v.len() <= u32::MAX,
    ensures
        forall|j: int| 0 <= j < move_call_positions(v).len() ==> {
            &&& #[trigger] move_call_positions(v)[j] < v.len()
            &&& v[move_call_positions(v)[j] as int] is MoveCall
        },
    decreases v.len(),
{
    if v.len() > 0 {
        lemma_move_calls(v.drop_last(), n - 1);
        assert forall|j: int| 0 <= j < move_call_positions(v).len() implies {
            &&& #[trigger] move_call_positions(v)[j] < v.len()
            &&& v[move_call_positions(v)[j] as int] is MoveCall
        } by {
            let p = move_call_positions(v.drop_last());
            if j < p.len() {
                assert(move_call_positions(v)[j] == p[j]);
                assert(v.drop_last()[p[j] as int] == v[p[j] as int]);
            }
        }
    }
}

/// Positions into `v`, in increasing order, that name exactly the funds
/// withdrawals among its elements.
proof fn lemma_inputs_funds(v: Seq<CallArg>)
    requires
        v.len() <= u32::MAX,
    ensures
        forall|k: int| 0 <= k < inputs_funds(v).len() ==> {
            &&& #[trigger] inputs_funds(v)[k] < v.len()
            &&& v[inputs_funds(v)[k] as int] is FundsWithdrawal
        },
        forall|k: int, l: int|
            0 <= k < l < inputs_funds(v).len() ==> #[trigger] inputs_funds(v)[k] < #[trigger] inputs_funds(v)[l],
        forall|i: int|
            0 <= i < v.len() && (#[trigger] v[i]) is FundsWithdrawal ==> exists|k: int|
                0 <= k < inputs_funds(v).len() && inputs_funds(v)[k] == i,
    decreases v.len(),
{
    if v.len() > 0 {
        let w = v.drop_last();
        let p = inputs_funds(w);
        let n = v.len() - 1;
        lemma_inputs_funds(w);
        let q = inputs_funds(v);
        assert(q == p + if v.last() is FundsWithdrawal { seq![n as u32] } else { Seq::<u32>::empty() });
        assert forall|k: int| 0 <= k < q.len() implies {
            &&& #[trigger] q[k] < v.len()
            &&& v[q[k] as int] is FundsWithdrawal
        } by {
            if k < p.len() {
                assert(q[k] == p[k]);
                assert(w[p[k] as int] == v[p[k] as int]);
            }
        }
        assert forall|k: int, l: int| 0 <= k < l < q.len() implies #[trigger] q[k] < #[trigger] q[l] by {
            if l < p.len() {
                assert(q[k] == p[k] && q[l] == p[l]);
            } else {
                assert(q[k] == p[k]);
                assert(p[k] < w.len());
            }
        }
        assert forall|i: int| 0 <= i < v.len() && (#[trigger] v[i]) is FundsWithdrawal implies exists|k: int|
            0 <= k < q.len() && q[k] == i by {
            if i < n {
                assert(w[i] == v[i]);
                let k = choose|k: int| 0 <= k < p.len() && p[k] == i;
                assert(q[k] == p[k]);
            } else {
                assert(q[p.len() as int] == n);
            }
        }
    }
}

/// Positions into `v`, in increasing order, that name exactly the Move
/// calls among its commands.
proof fn lemma_move_call_positions(v: Seq<Command>)
    requires
        v.len() <= u32::MAX,
    ensures
        forall|k: int| 0 <= k < move_call_positions(v).len() ==> {
            &&& #[trigger] move_call_positions(v)[k] < v.len()
            &&& v[move_call_positions(v)[k] as int] is MoveCall
        },
        forall|k: int, l: int|
            0 <= k < l < move_call_positions(v).len() ==> #[trigger] move_call_positions(v)[k]
                < #[trigger] move_call_positions(v)[l],
        forall|i: int|
            0 <= i < v.len() && (#[trigger] v[i]) is MoveCall ==> exists|k: int|
                0 <= k < move_call_positions(v).len() && move_call_positions(v)[k] == i,
    decreases v.len(),
{
    if v.len() > 0 {
        let w = v.drop_last();
        let p = move_call_positions(w);
        let n = v.len() - 1;
        lemma_move_call_positions(w);
        let q = move_call_positions(v);
        assert(q == p + if v.last() is MoveCall { seq![n as u32] } else { Seq::<u32>::empty() });
        assert forall|k: int| 0 <= k < q.len() implies {
            &&& #[trigger] q[k] < v.len()
            &&& v[q[k] as int] is MoveCall
        } by {
            if k < p.len() {
                assert(q[k] == p[k]);
                assert(w[p[k] as int] == v[p[k] as int]);
            }
        }
        assert forall|k: int, l: int| 0 <= k < l < q.len() implies #[trigger] q[k] < #[trigger] q[l] by {
            if l < p.len() {
                assert(q[k] == p[k] && q[l] == p[l]);
            } else {
                assert(q[k] == p[k]);
                assert(p[k] < w.len());
            }
        }
        assert forall|i: int| 0 <= i < v.len() && (#[trigger] v[i]) is MoveCall implies exists|k: int|
            0 <= k < q.len() && q[k] == i by {
            if i < n {
                assert(w[i] == v[i]);
                let k = choose|k: int| 0 <= k < p.len() && p[k] == i;
                assert(q[k] == p[k]);
            } else {
                assert(q[p.len() as int] == n);
            }
        }
    }
}

/// The funds withdrawals of a user transaction's index name its inputs:
/// each entry is the position of an input that is a funds withdrawal, the
/// entries increase, and every such input is named.
pub proof fn lemma_index_funds_withdrawals(idx: TransactionIndex, kind: TransactionKind, gas: GasData)
    requires
        index_ok(idx, kind, gas),
        kind_bounded(kind),
        kind is ProgrammableTransaction,
    ensures
        forall|k: int| 0 <= k < idx.funds_withdrawals@.len() ==> {
            &&& #[trigger] idx.funds_withdrawals@[k] < (kind->ProgrammableTransaction_0).inputs@.len()
            &&& (kind->ProgrammableTransaction_0).inputs@[idx.funds_withdrawals@[k] as int] is FundsWithdrawal
        },
        forall|k: int, l: int|
            0 <= k < l < idx.funds_withdrawals@.len() ==> #[trigger] idx.funds_withdrawals@[k]
                < #[trigger] idx.funds_withdrawals@[l],
        forall|i: int|
            0 <= i < (kind->ProgrammableTransaction_0).inputs@.len() && (#[trigger] (
            kind->ProgrammableTransaction_0).inputs@[i]) is FundsWithdrawal ==> exists|k: int|
                0 <= k < idx.funds_withdrawals@.len() && idx.funds_withdrawals@[k] == i,
{
    lemma_inputs_funds((kind->ProgrammableTransaction_0).inputs@);
}

/// The Move calls of a user transaction's index name its commands: each
/// entry is the position of a `MoveCall`, the entries increase, and every
/// Move call is named.
pub proof fn lemma_index_move_calls(idx: TransactionIndex, kind: TransactionKind, gas: GasData)
    requires
        index_ok(idx, kind, gas),
        kind_bounded(kind),
        kind is ProgrammableTransaction,
    ensures
        forall|k: int| 0 <= k < idx.move_calls@.len() ==> {
            &&& #[trigger] idx.move_calls@[k] < (kind->ProgrammableTransaction_0).commands@.len()
            &&& (kind->ProgrammableTransaction_0).commands@[idx.move_calls@[k] as int] is MoveCall
        },
        forall|k: int, l: int|
            0 <= k < l < idx.move_calls@.len() ==> #[trigger] idx.move_calls@[k]
                < #[trigger] idx.move_calls@[l],
        forall|i: int|
            0 <= i < (kind->ProgrammableTransaction_0).commands@.len() && (#[trigger] (
            kind->ProgrammableTransaction_0).commands@[i]) is MoveCall ==> exists|k: int|
                0 <= k < idx.move_calls@.len() && idx.move_calls@[k] == i,
{
    lemma_move_call_positions((kind->ProgrammableTransaction_0).commands@);
}

/// The shared object an input names, if it names one.
pub open spec fn shared_of(a: CallArg) -> Option<SharedObjectArg> {
    match a {
        CallArg::Object(ObjectArg::SharedObject(x)) => Some(x),
        _ => None,
    }
}

/// The object an input receives, if it receives one.
pub open spec fn receiving_of(a: CallArg) -> Option<ObjectRef> {
    match a {
        CallArg::Object(ObjectArg::Receiving(o)) => Some(o),
        _ => None,
    }
}

/// The owned or immutable object an input names, if it names one that is
/// (with `reserved`) or is not (without) a coin reservation.
pub open spec fn owned_of(a: CallArg, reserved: bool) -> Option<ObjectRef> {
    match a {
        CallArg::Object(ObjectArg::ImmOrOwnedObject(o)) => if is_reservation(o) == reserved {
            Some(o)
        } else {
            None
        },
        _ => None,
    }
}

/// A payment object, if it is (with `reserved`) or is not a coin
/// reservation.
pub open spec fn payment_of(o: ObjectRef, reserved: bool) -> Option<ObjectRef> {
    if is_reservation(o) == reserved {
        Some(o)
    } else {
        None
    }
}

proof fn lemma_lists_filter(v: Seq<CallArg>, reserved: bool)
    ensures
        inputs_shared(v) == v.filter_map(|a: CallArg| shared_of(a)),
        inputs_receiving(v) == v.filter_map(|a: CallArg| receiving_of(a)),
        inputs_owned(v, reserved) == v.filter_map(|a: CallArg| owned_of(a, reserved)),
    decreases v.len(),
{
    if v.len() > 0 {
        lemma_lists_filter(v.drop_last(), reserved);
    }
}

proof fn lemma_payment_filter(v: Seq<ObjectRef>, reserved: bool)
    ensures
        payment_part(v, reserved) == v.filter_map(|o: ObjectRef| payment_of(o, reserved)),
    decreases v.len(),
{
    if v.len() > 0 {
        lemma_payment_filter(v.drop_last(), reserved);
    }
}

/// The object lists of a user transaction's index, each in input order:
/// the shared inputs, the received objects, the owned and immutable inputs
/// that are not coin reservations followed by the gas payment objects that
/// are not, and the inputs that are coin reservations followed by the
/// payment's reservations.
pub proof fn lemma_index_object_lists(idx: TransactionIndex, kind: TransactionKind, gas: GasData)
    requires
        index_ok(idx, kind, gas),
        kind is ProgrammableTransaction,
    ensures
        idx.shared_inputs@ == (kind->ProgrammableTransaction_0).inputs@.filter_map(
            |a: CallArg| shared_of(a),
        ),
        idx.receiving@ == (kind->ProgrammableTransaction_0).inputs@.filter_map(
            |a: CallArg| receiving_of(a),
        ),
        idx.owned_inputs@ == (kind->ProgrammableTransaction_0).inputs@.filter_map(
            |a: CallArg| owned_of(a, false),
        ) + gas.payment@.filter_map(|o: ObjectRef| payment_of(o, false)),
        idx.coin_reservations@ == (kind->ProgrammableTransaction_0).inputs@.filter_map(
            |a: CallArg| owned_of(a, true),
        ) + gas.payment@.filter_map(|o: ObjectRef| payment_of(o, true)),
{
    let v = (kind->ProgrammableTransaction_0).inputs@;
    lemma_lists_filter(v, false);
    lemma_lists_filter(v, true);
    lemma_payment_filter(gas.payment@, false);
    lemma_payment_filter(gas.payment@, true);
}

proof fn lemma_commands_packages_hold(v: Seq<Command>, i: int, x: ObjectId)
    requires
        0 <= i < v.len(),
        command_packages(v[i]).contains(x),
    ensures
        commands_packages(v).contains(x),
    decreases v.len(),
{
    let w = v.drop_last();
    if i < v.len() - 1 {
        assert(w[i] == v[i]);
        lemma_commands_packages_hold(w, i, x);
        let j = choose|j: int| 0 <= j < commands_packages(w).len() && commands_packages(w)[j] == x;
        assert(commands_packages(v)[j] == x);
    } else {
        let j = choose|j: int| 0 <= j < command_packages(v[i]).len() && command_packages(v[i])[j] == x;
        assert(commands_packages(v)[commands_packages(w).len() + j] == x);
    }
}

proof fn lemma_types_packages_hold(v: Seq<TypeTag>, i: int, x: ObjectId)
    requires
        0 <= i < v.len(),
        type_packages(v[i]).contains(x),
    ensures
        types_packages(v).contains(x),
    decreases v.len(),
{
    let w = v.subrange(0, v.len() - 1);
    if i < v.len() - 1 {
        assert(w[i] == v[i]);
        lemma_types_packages_hold(w, i, x);
        let j = choose|j: int| 0 <= j < types_packages(w).len() && types_packages(w)[j] == x;
        assert(types_packages(v)[j] == x);
    } else {
        let j = choose|j: int| 0 <= j < type_packages(v[i]).len() && type_packages(v[i])[j] == x;
        assert(types_packages(v)[types_packages(w).len() + j] == x);
    }
}

/// Every package a programmable transaction names at the top of a command
/// is in its index: the package of each Move call, the address of each
/// struct among a call's type arguments, each dependency of a publish or
/// upgrade, and the package an upgrade replaces.
pub proof fn lemma_index_packages(idx: TransactionIndex, kind: TransactionKind, gas: GasData, i: int)
    requires
        index_ok(idx, kind, gas),
        pt_of(kind) is Some,
        0 <= i < (pt_of(kind)->0).commands@.len(),
    ensures
        ((pt_of(kind)->0).commands@[i] matches Command::MoveCall(call) ==> {
            &&& idx.packages@.contains(call.package)
            &&& forall|j: int|
                0 <= j < call.type_arguments@.len() && #[trigger] call.type_arguments@[j] is Struct
                    ==> idx.packages@.contains(
                    ObjectId((call.type_arguments@[j]->Struct_0).address.0),
                )
        }),
        ((pt_of(kind)->0).commands@[i] matches Command::Publish(_, deps) ==> forall|j: int|
            0 <= j < deps@.len() ==> idx.packages@.contains(#[trigger] deps@[j])),
        ((pt_of(kind)->0).commands@[i] matches Command::Upgrade(_, deps, package, _) ==> {
            &&& idx.packages@.contains(package)
            &&& forall|j: int| 0 <= j < deps@.len() ==> idx.packages@.contains(#[trigger] deps@[j])
        }),
{
    let v = (pt_of(kind)->0).commands@;
    let c = v[i];
    assert forall|x: ObjectId| command_packages(c).contains(x) implies idx.packages@.contains(x) by {
        lemma_commands_packages_hold(v, i, x);
        assert(commands_packages(v).to_set().contains(x));
        assert(idx.packages@.to_set().contains(x));
    }
    match c {
        Command::MoveCall(call) => {
            assert(command_packages(c)[0] == call.package);
            assert(command_packages(c).contains(call.package));
            assert forall|j: int|
                0 <= j < call.type_arguments@.len() && #[trigger] call.type_arguments@[j] is Struct implies idx.packages@.contains(
                ObjectId((call.type_arguments@[j]->Struct_0).address.0),
            ) by {
                let t = call.type_arguments@[j];
                let st = *(t->Struct_0);
                let x = ObjectId(st.address.0);
                assert(type_packages(t) == struct_packages(st));
                assert(struct_packages(st)[0] == x);
                assert(type_packages(t).contains(x));
                lemma_types_packages_hold(call.type_arguments@, j, x);
                let k = choose|k: int| 0 <= k < types_packages(call.type_arguments@).len()
                    && types_packages(call.type_arguments@)[k] == x;
                assert(command_packages(c) == seq![call.package] + types_packages(call.type_arguments@));
                assert(command_packages(c)[1 + k] == x);
                assert(command_packages(c).contains(x));
            }
        },
        Command::Publish(_, deps) => {
            assert forall|j: int| 0 <= j < deps@.len() implies idx.packages@.contains(#[trigger] deps@[j]) by {
                assert(command_packages(c)[j] == deps@[j]);
                assert(command_packages(c).contains(deps@[j]));
            }
        },
        Command::Upgrade(_, deps, package, _) => {
            assert(command_packages(c)[deps@.len() as int] == package);
            assert(command_packages(c).contains(package));
            assert forall|j: int| 0 <= j < deps@.len() implies idx.packages@.contains(#[trigger] deps@[j]) by {
                assert(command_packages(c)[j] == deps@[j]);
                assert(command_packages(c).contains(deps@[j]));
            }
        },
        _ => {},
    }
}

impl TransactionIndex {
    /// The index of a transaction of `kind` paying with `gas_data`. Only a
    /// user transaction pays gas with objects, has receiving objects, calls
    /// or withdrawals, or counts the reservations among its inputs.
    pub fn build(kind: &TransactionKind, gas_data: &GasData) -> (idx: TransactionIndex)
        ensures
            index_ok(idx, *kind, *gas_data),
    {
        let user = match kind {
            TransactionKind::ProgrammableTransaction(_) => true,
            _ => false,
        };
        let mut idx = TransactionIndex {
            shared_inputs: Vec::new(),
            owned_inputs: Vec::new(),
            packages: Vec::new(),
            receiving: Vec::new(),
            move_calls: Vec::new(),
            funds_withdrawals: Vec::new(),
            coin_reservations: Vec::new(),
        };
        match kind {
            TransactionKind::ProgrammableTransaction(pt)
            | TransactionKind::ProgrammableSystemTransaction(pt) => {
                let l = gather_inputs(&pt.inputs);
                idx.shared_inputs = l.shared;
                idx.owned_inputs = l.owned;
                let mut packages: Vec<ObjectId> = Vec::new();
                let calls = gather_commands(&pt.commands, &mut packages);
                idx.packages = sort_dedup(&packages);
                if user {
                    idx.coin_reservations = l.reserved;
                    idx.receiving = l.receiving;
                    idx.funds_withdrawals = l.funds;
                    idx.move_calls = calls;
                }
            },
            TransactionKind::ChangeEpoch(_) => {
                idx.shared_inputs.push(sys_shared_arg(5, 1));
            },
            TransactionKind::Genesis(_) => {},
            TransactionKind::ConsensusCommitPrologue(_)
            | TransactionKind::ConsensusCommitPrologueV2(_)
            | TransactionKind::ConsensusCommitPrologueV3(_)
            | TransactionKind::ConsensusCommitPrologueV4(_) => {
                idx.shared_inputs.push(sys_shared_arg(6, 1));
            },
            TransactionKind::AuthenticatorStateUpdate(u) => {
                idx.shared_inputs.push(sys_shared_arg(7, u.authenticator_obj_initial_shared_version));
            },
            TransactionKind::RandomnessStateUpdate(u) => {
                idx.shared_inputs.push(sys_shared_arg(8, u.randomness_obj_initial_shared_version));
            },
            TransactionKind::EndOfEpochTransaction(kinds) => {
                idx.shared_inputs = gather_end_of_epoch(kinds);
            },
        }
        if user {
            gather_payment(&gas_data.payment, &mut idx.owned_inputs, &mut idx.coin_reservations);
        } else {
            // The objects paid are no inputs of a system transaction; its
            // reservations are still indexed.
            let mut paid: Vec<ObjectRef> = Vec::new();
            gather_payment(&gas_data.payment, &mut paid, &mut idx.coin_reservations);
        }
        proof {
            assert(idx.shared_inputs@ =~= kind_shared(*kind));
            if pt_of(*kind) is None {
                assert(idx.packages@.to_set() =~= Set::empty());
            }
        }
        idx
    }
}

} // verus!
