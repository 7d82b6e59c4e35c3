//! Every well-formed transaction is accepted whole: the counterpart, for
//! transactions and the system transactions inside them, of `accept`.
use vstd::prelude::*;
use crate::accept::{
    lemma_read_tag, lemma_reads_u64, lemma_reads_digest, lemma_reads_fixed32_id,
    lemma_reads_address, lemma_reads_string, lemma_reads_bytes, lemma_reads_genesis_object,
    legal_data, need_data, legal_owner, need_owner,
};
use crate::accept_effects::{
    lemma_read_tag_only, lemma_read_tagged, lemma_read_tagged2, lemma_reads_option,
    lemma_reads_object_key, lemma_reads_object_ref, lemma_reads_u16, lemma_reads_u32,
};
use crate::base::{Digest, ObjectId, ObjectKey, ObjectRef, SuiAddress};
use crate::error::ParseError;
use crate::execution_status::rec2;
use crate::effects::{rec3, rec4};
use crate::message::{exact_rec, start};
use crate::object::GenesisObject;
use crate::reader::{St, adv, nested, then, MAX_SEQUENCE_LENGTH, MAX_CONTAINER_DEPTH};
use crate::readback::{
    at, ok_past, room, reads, lemma_at_split, lemma_at_index, lemma_at_whole, lemma_read_length,
    lemma_read_records, lemma_read_seq, lemma_read_rec2, lemma_read_rec3, lemma_read_rec4,
    lemma_reads_more_room,
};
use crate::transaction::{
    Argument, CallArg, Command, FundsWithdrawalArg, ObjectArg, ProgrammableMoveCall,
    ProgrammableTransaction, Reservation, TransactionKind, GasData, ValidDuring,
    AllowedProposers, TransactionExpiration, TransactionData, Intent, GenericSignature,
    SenderSignedData, rec_signed_body, SharedObjectArg, WithdrawFrom, WithdrawalTypeArg,
    rec_withdraw_from, enc_withdraw_from,
};
use crate::system_transaction::{
    ActiveJwk, AuthenticatorStateUpdate, AuthorityObservation, ChangeEpoch, ConsensusCommitPrologue,
    ConsensusCommitPrologueV2, ConsensusCommitPrologueV3, ConsensusCommitPrologueV4,
    ConsensusDeterminedVersionAssignments, ConsensusObjectVersion, EndOfEpochTransactionKind,
    ExecutionTimeObservationKey, RandomnessStateUpdate, StoredExecutionTimeObservations,
    SystemPackage, rec_entry_point, rec_prologue_common,
};
use crate::type_tag::{
    TypeTag, enc_tt, tags_tt, legal_tt, legal_tt_list, need_tt, need_tt_list, rec_tt_vec, enc_tt_list,
    lemma_read_tt, lemma_read_tt_list,
};
use crate::wire::{Wire, enc_uleb, enc_seq, encode_utf8, sp_records, sp_seq};
use crate::wire_size::{lemma_bytes_nonempty, lemma_string_nonempty, lemma_uleb_nonempty};

verus! {

// ---------------------------------------------------------------------
// Pieces shared by several kinds.

pub proof fn lemma_reads_ids(v: Vec<ObjectId>)
    requires
        v@.len() <= MAX_SEQUENCE_LENGTH,
    ensures
        reads(v, 0),
{
    let w = v@;
    assert forall|i: int| 0 <= i < w.len() implies #[trigger] reads(w[i], 0) by {
        lemma_reads_fixed32_id(w[i]);
    }
    assert forall|i: int| 0 <= i < w.len() implies (#[trigger] w[i].enc()).len() == 32 by {}
    assert forall|s: Seq<u8>, st: St| at(s, st, v.enc()) && room(st, 0) implies ok_past(
        Vec::<ObjectId>::rec(s, st),
        st,
        v.enc().len() as int,
    ) by {
        lemma_read_records(w, 32, 0, s, st);
    }
}

pub open spec fn legal_modules(v: Vec<Vec<u8>>) -> bool {
    &&& v@.len() <= MAX_SEQUENCE_LENGTH
    &&& forall|i: int| 0 <= i < v@.len() ==> (#[trigger] v@[i])@.len() <= MAX_SEQUENCE_LENGTH
}

pub proof fn lemma_reads_modules(v: Vec<Vec<u8>>)
    requires
        legal_modules(v),
    ensures
        reads(v, 0),
        v.enc().len() >= 1,
{
    let w = v@;
    lemma_uleb_nonempty(w.len() as u32);
    assert forall|i: int| 0 <= i < w.len() implies #[trigger] reads(w[i], 0) by {
        lemma_reads_bytes(w[i]);
    }
    assert forall|i: int| 0 <= i < w.len() implies (#[trigger] w[i].enc()).len() >= 1 by {
        lemma_bytes_nonempty(w[i]@);
    }
    assert forall|s: Seq<u8>, st: St| at(s, st, v.enc()) && room(st, 0) implies ok_past(
        Vec::<Vec<u8>>::rec(s, st),
        st,
        v.enc().len() as int,
    ) by {
        lemma_read_seq(w, 1, 0, s, st);
    }
}

pub proof fn lemma_need_tt_list_nonneg(v: Seq<TypeTag>)
    ensures
        need_tt_list(v) >= 0,
    decreases v.len(),
{
    if v.len() > 0 {
        lemma_need_tt_list_nonneg(v.subrange(0, v.len() - 1));
    }
}

/// A length-prefixed list of type tags, read from its length on.
pub proof fn lemma_read_tt_vec(v: Seq<TypeTag>, s: Seq<u8>, st: St)
    requires
        legal_tt_list(v),
        v.len() <= MAX_SEQUENCE_LENGTH,
        at(s, st, enc_uleb(v.len() as u32) + enc_tt_list(v)),
        room(st, need_tt_list(v)),
    ensures
        ok_past(rec_tt_vec(s, st), st, (enc_uleb(v.len() as u32) + enc_tt_list(v)).len() as int),
        need_tt_list(v) >= 0,
{
    let n = v.len() as u32;
    lemma_need_tt_list_nonneg(v);
    lemma_at_split(s, st, enc_uleb(n), enc_tt_list(v));
    lemma_read_length(n, s, st);
    let st1 = adv(st, enc_uleb(n).len() as int);
    lemma_read_tt_list(v, s, st1);
    assert(St { depth: st.depth, ..st1 } == st1);
}

/// A package, module and function name, then type arguments.
pub open spec fn legal_entry_point(module: String, function: String, t: Seq<TypeTag>) -> bool {
    &&& encode_utf8(module@).len() <= MAX_SEQUENCE_LENGTH
    &&& encode_utf8(function@).len() <= MAX_SEQUENCE_LENGTH
    &&& t.len() <= MAX_SEQUENCE_LENGTH
    &&& legal_tt_list(t)
}

pub proof fn lemma_read_entry_point(
    package: ObjectId,
    module: String,
    function: String,
    t: Seq<TypeTag>,
    s: Seq<u8>,
    st: St,
)
    requires
        legal_entry_point(module, function, t),
        at(s, st, package.enc() + module.enc() + function.enc() + enc_uleb(t.len() as u32) + enc_tt_list(t)),
        room(st, need_tt_list(t)),
    ensures
        ok_past(
            rec_entry_point(s, st),
            st,
            (package.enc() + module.enc() + function.enc() + enc_uleb(t.len() as u32) + enc_tt_list(t)).len() as int,
        ),
{
    let a = package.enc() + module.enc() + function.enc();
    let b = enc_uleb(t.len() as u32) + enc_tt_list(t);
    assert(package.enc() + module.enc() + function.enc() + enc_uleb(t.len() as u32) + enc_tt_list(t) =~= a + b);
    lemma_at_split(s, st, a, b);
    lemma_need_tt_list_nonneg(t);
    lemma_reads_fixed32_id(package);
    lemma_reads_string(module);
    lemma_reads_string(function);
    lemma_read_rec3(package, module, function, 0, s, st);
    let st1 = rec3::<ObjectId, String, String>(s, st)->Ok_0;
    lemma_read_tt_vec(t, s, st1);
}

// ---------------------------------------------------------------------
// System transactions.

pub open spec fn legal_package(p: SystemPackage) -> bool {
    legal_modules(p.modules) && p.dependencies@.len() <= MAX_SEQUENCE_LENGTH
}

pub proof fn lemma_reads_system_package(p: SystemPackage)
    requires
        legal_package(p),
    ensures
        reads(p, 0),
        p.enc().len() >= 10,
{
    lemma_reads_u64(p.version);
    lemma_reads_modules(p.modules);
    lemma_reads_ids(p.dependencies);
    lemma_uleb_nonempty(p.dependencies@.len() as u32);
    assert forall|s: Seq<u8>, st: St| at(s, st, p.enc()) && room(st, 0) implies ok_past(
        SystemPackage::rec(s, st),
        st,
        p.enc().len() as int,
    ) by {
        lemma_read_rec3(p.version, p.modules, p.dependencies, 0, s, st);
    }
}

pub open spec fn legal_change_epoch(c: ChangeEpoch) -> bool {
    &&& c.system_packages@.len() <= MAX_SEQUENCE_LENGTH
    &&& forall|i: int| 0 <= i < c.system_packages@.len() ==> legal_package(#[trigger] c.system_packages@[i])
}

pub proof fn lemma_reads_change_epoch(c: ChangeEpoch)
    requires
        legal_change_epoch(c),
    ensures
        reads(c, 1),
{
    let p = c.system_packages@;
    assert forall|i: int| 0 <= i < p.len() implies #[trigger] reads(p[i], 0) by {
        lemma_reads_system_package(p[i]);
    }
    assert forall|i: int| 0 <= i < p.len() implies (#[trigger] p[i].enc()).len() >= 10 by {
        lemma_reads_system_package(p[i]);
    }
    assert forall|s: Seq<u8>, st: St| at(s, st, c.enc()) && room(st, 1) implies ok_past(
        ChangeEpoch::rec(s, st),
        st,
        c.enc().len() as int,
    ) by {
        let st1 = St { depth: st.depth + 1, ..st };
        let a = c.epoch.enc() + c.protocol_version.enc() + c.storage_charge.enc()
            + c.computation_charge.enc() + c.storage_rebate.enc() + c.non_refundable_storage_fee.enc()
            + c.epoch_start_timestamp_ms.enc();
        assert(c.enc() =~= a + enc_seq(p));
        assert(at(s, st1, c.enc()));
        lemma_at_split(s, st1, a, enc_seq(p));
        lemma_read_seq(p, 10, 0, s, adv(st1, 56));
    }
}

pub proof fn lemma_reads_prologue(c: ConsensusCommitPrologue)
    ensures
        reads(c, 0),
{
}

pub proof fn lemma_reads_prologue_v2(c: ConsensusCommitPrologueV2)
    ensures
        reads(c, 0),
{
    assert forall|s: Seq<u8>, st: St| at(s, st, c.enc()) && room(st, 0) implies ok_past(
        ConsensusCommitPrologueV2::rec(s, st),
        st,
        c.enc().len() as int,
    ) by {
        let a = c.epoch.enc() + c.round.enc() + c.commit_timestamp_ms.enc();
        lemma_at_split(s, st, a, c.consensus_commit_digest.enc());
        lemma_reads_digest(c.consensus_commit_digest);
        assert(at(s, adv(st, 24), c.consensus_commit_digest.enc()) && room(adv(st, 24), 0));
    }
}

pub proof fn lemma_reads_version_list(v: Vec<ConsensusObjectVersion>)
    requires
        v@.len() <= MAX_SEQUENCE_LENGTH,
    ensures
        reads(v, 0),
{
    let w = v@;
    assert forall|i: int| 0 <= i < w.len() implies #[trigger] reads(w[i], 0) by {}
    assert forall|i: int| 0 <= i < w.len() implies (#[trigger] w[i].enc()).len() == 48 by {}
    assert forall|s: Seq<u8>, st: St| at(s, st, v.enc()) && room(st, 0) implies ok_past(
        Vec::<ConsensusObjectVersion>::rec(s, st),
        st,
        v.enc().len() as int,
    ) by {
        lemma_read_records(w, 48, 0, s, st);
    }
}

pub proof fn lemma_reads_key_list(v: Vec<ObjectKey>)
    requires
        v@.len() <= MAX_SEQUENCE_LENGTH,
    ensures
        reads(v, 0),
{
    let w = v@;
    assert forall|i: int| 0 <= i < w.len() implies #[trigger] reads(w[i], 0) by {
        lemma_reads_object_key(w[i]);
    }
    assert forall|i: int| 0 <= i < w.len() implies (#[trigger] w[i].enc()).len() == 40 by {
        lemma_reads_object_key(w[i]);
    }
    assert forall|s: Seq<u8>, st: St| at(s, st, v.enc()) && room(st, 0) implies ok_past(
        Vec::<ObjectKey>::rec(s, st),
        st,
        v.enc().len() as int,
    ) by {
        lemma_read_records(w, 40, 0, s, st);
    }
}

pub open spec fn legal_assignments(a: ConsensusDeterminedVersionAssignments) -> bool {
    match a {
        ConsensusDeterminedVersionAssignments::CancelledTransactions(v) => {
            &&& v@.len() <= MAX_SEQUENCE_LENGTH
            &&& forall|i: int| 0 <= i < v@.len() ==> (#[trigger] v@[i]).1@.len() <= MAX_SEQUENCE_LENGTH
        },
        ConsensusDeterminedVersionAssignments::CancelledTransactionsV2(v) => {
            &&& v@.len() <= MAX_SEQUENCE_LENGTH
            &&& forall|i: int| 0 <= i < v@.len() ==> (#[trigger] v@[i]).1@.len() <= MAX_SEQUENCE_LENGTH
        },
    }
}

pub proof fn lemma_reads_assignments(a: ConsensusDeterminedVersionAssignments)
    requires
        legal_assignments(a),
    ensures
        reads(a, 1),
{
    assert forall|s: Seq<u8>, st: St| at(s, st, a.enc()) && room(st, 1) implies ok_past(
        ConsensusDeterminedVersionAssignments::rec(s, st),
        st,
        a.enc().len() as int,
    ) by {
        let st1 = St { depth: st.depth + 1, ..st };
        assert(at(s, st1, a.enc()));
        match a {
            ConsensusDeterminedVersionAssignments::CancelledTransactions(v) => {
                let w = v@;
                assert forall|i: int| 0 <= i < w.len() implies #[trigger] reads(w[i], 0) by {
                    lemma_reads_digest(w[i].0);
                    lemma_reads_key_list(w[i].1);
                    assert forall|s2: Seq<u8>, st2: St| at(s2, st2, w[i].enc()) && room(st2, 0) implies ok_past(
                        <(Digest, Vec<ObjectKey>)>::rec(s2, st2),
                        st2,
                        w[i].enc().len() as int,
                    ) by {
                        lemma_read_rec2(w[i].0, w[i].1, 0, s2, st2);
                    }
                }
                assert forall|i: int| 0 <= i < w.len() implies (#[trigger] w[i].enc()).len() >= 34 by {
                    lemma_uleb_nonempty(w[i].1@.len() as u32);
                }
                lemma_read_tag(0, enc_seq(w), s, st1);
                lemma_read_seq(w, 34, 0, s, adv(st1, 1));
            },
            ConsensusDeterminedVersionAssignments::CancelledTransactionsV2(v) => {
                let w = v@;
                assert forall|i: int| 0 <= i < w.len() implies #[trigger] reads(w[i], 0) by {
                    lemma_reads_digest(w[i].0);
                    lemma_reads_version_list(w[i].1);
                    assert forall|s2: Seq<u8>, st2: St| at(s2, st2, w[i].enc()) && room(st2, 0) implies ok_past(
                        <(Digest, Vec<ConsensusObjectVersion>)>::rec(s2, st2),
                        st2,
                        w[i].enc().len() as int,
                    ) by {
                        lemma_read_rec2(w[i].0, w[i].1, 0, s2, st2);
                    }
                }
                assert forall|i: int| 0 <= i < w.len() implies (#[trigger] w[i].enc()).len() >= 34 by {
                    lemma_uleb_nonempty(w[i].1@.len() as u32);
                }
                lemma_read_tag(1, enc_seq(w), s, st1);
                lemma_read_seq(w, 34, 0, s, adv(st1, 1));
            },
        }
    }
}

/// The fields the third and fourth prologues share.
proof fn lemma_read_prologue_common(
    epoch: u64,
    round: u64,
    sub_dag_index: Option<u64>,
    commit_timestamp_ms: u64,
    digest: Digest,
    a: ConsensusDeterminedVersionAssignments,
    s: Seq<u8>,
    st: St,
)
    requires
        legal_assignments(a),
        at(s, st, epoch.enc() + round.enc() + sub_dag_index.enc() + commit_timestamp_ms.enc() + digest.enc() + a.enc()),
        room(st, 1),
    ensures
        ok_past(
            rec_prologue_common(s, st),
            st,
            (epoch.enc() + round.enc() + sub_dag_index.enc() + commit_timestamp_ms.enc() + digest.enc() + a.enc()).len() as int,
        ),
{
    let x = epoch.enc() + round.enc() + sub_dag_index.enc() + commit_timestamp_ms.enc();
    let y = digest.enc() + a.enc();
    assert(epoch.enc() + round.enc() + sub_dag_index.enc() + commit_timestamp_ms.enc() + digest.enc() + a.enc() =~= x + y);
    lemma_at_split(s, st, x, y);
    lemma_reads_u64(epoch);
    lemma_reads_u64(round);
    if let Some(i) = sub_dag_index {
        lemma_reads_u64(i);
    }
    lemma_reads_option(sub_dag_index, 0);
    lemma_reads_u64(commit_timestamp_ms);
    lemma_read_rec4(epoch, round, sub_dag_index, commit_timestamp_ms, 0, s, st);
    let st1 = rec4::<u64, u64, Option<u64>, u64>(s, st)->Ok_0;
    lemma_reads_digest(digest);
    lemma_reads_more_room(digest, 0, 1);
    lemma_reads_assignments(a);
    lemma_read_rec2(digest, a, 1, s, st1);
}

pub proof fn lemma_reads_prologue_v3(c: ConsensusCommitPrologueV3)
    requires
        legal_assignments(c.consensus_determined_version_assignments),
    ensures
        reads(c, 2),
{
    assert forall|s: Seq<u8>, st: St| at(s, st, c.enc()) && room(st, 2) implies ok_past(
        ConsensusCommitPrologueV3::rec(s, st),
        st,
        c.enc().len() as int,
    ) by {
        let st1 = St { depth: st.depth + 1, ..st };
        assert(at(s, st1, c.enc()));
        lemma_read_prologue_common(
            c.epoch,
            c.round,
            c.sub_dag_index,
            c.commit_timestamp_ms,
            c.consensus_commit_digest,
            c.consensus_determined_version_assignments,
            s,
            st1,
        );
    }
}

pub proof fn lemma_reads_prologue_v4(c: ConsensusCommitPrologueV4)
    requires
        legal_assignments(c.consensus_determined_version_assignments),
    ensures
        reads(c, 2),
{
    assert forall|s: Seq<u8>, st: St| at(s, st, c.enc()) && room(st, 2) implies ok_past(
        ConsensusCommitPrologueV4::rec(s, st),
        st,
        c.enc().len() as int,
    ) by {
        let st1 = St { depth: st.depth + 1, ..st };
        let x = c.epoch.enc() + c.round.enc() + c.sub_dag_index.enc() + c.commit_timestamp_ms.enc()
            + c.consensus_commit_digest.enc() + c.consensus_determined_version_assignments.enc();
        assert(c.enc() =~= x + c.additional_state_digest.enc());
        assert(at(s, st1, c.enc()));
        lemma_at_split(s, st1, x, c.additional_state_digest.enc());
        lemma_read_prologue_common(
            c.epoch,
            c.round,
            c.sub_dag_index,
            c.commit_timestamp_ms,
            c.consensus_commit_digest,
            c.consensus_determined_version_assignments,
            s,
            st1,
        );
        let st2 = rec_prologue_common(s, st1)->Ok_0;
        lemma_reads_digest(c.additional_state_digest);
        assert(at(s, st2, c.additional_state_digest.enc()) && room(st2, 0));
    }
}

pub open spec fn legal_jwk(j: ActiveJwk) -> bool {
    &&& encode_utf8(j.jwk_id.iss@).len() <= MAX_SEQUENCE_LENGTH
    &&& encode_utf8(j.jwk_id.kid@).len() <= MAX_SEQUENCE_LENGTH
    &&& encode_utf8(j.jwk.kty@).len() <= MAX_SEQUENCE_LENGTH
    &&& encode_utf8(j.jwk.e@).len() <= MAX_SEQUENCE_LENGTH
    &&& encode_utf8(j.jwk.n@).len() <= MAX_SEQUENCE_LENGTH
    &&& encode_utf8(j.jwk.alg@).len() <= MAX_SEQUENCE_LENGTH
}

/// The first three strings of a key.
proof fn lemma_read_jwk_head(j: ActiveJwk, s: Seq<u8>, st: St)
    requires
        legal_jwk(j),
        at(s, st, j.jwk_id.iss.enc() + j.jwk_id.kid.enc() + j.jwk.kty.enc()),
        room(st, 0),
    ensures
        ok_past(
            rec3::<String, String, String>(s, st),
            st,
            (j.jwk_id.iss.enc() + j.jwk_id.kid.enc() + j.jwk.kty.enc()).len() as int,
        ),
{
    lemma_reads_string(j.jwk_id.iss);
    lemma_reads_string(j.jwk_id.kid);
    lemma_reads_string(j.jwk.kty);
    lemma_read_rec3(j.jwk_id.iss, j.jwk_id.kid, j.jwk.kty, 0, s, st);
}

/// The last three strings of a key and its epoch.
proof fn lemma_read_jwk_tail(j: ActiveJwk, s: Seq<u8>, st: St)
    requires
        legal_jwk(j),
        at(s, st, j.jwk.e.enc() + j.jwk.n.enc() + j.jwk.alg.enc() + j.epoch.enc()),
        room(st, 0),
    ensures
        ok_past(
            rec4::<String, String, String, u64>(s, st),
            st,
            (j.jwk.e.enc() + j.jwk.n.enc() + j.jwk.alg.enc() + j.epoch.enc()).len() as int,
        ),
{
    lemma_reads_string(j.jwk.e);
    lemma_reads_string(j.jwk.n);
    lemma_reads_string(j.jwk.alg);
    lemma_reads_u64(j.epoch);
    lemma_read_rec4(j.jwk.e, j.jwk.n, j.jwk.alg, j.epoch, 0, s, st);
}

proof fn lemma_jwk_size(j: ActiveJwk)
    ensures
        j.enc().len() >= 14,
{
    lemma_string_nonempty(j.jwk_id.iss);
    lemma_string_nonempty(j.jwk_id.kid);
    lemma_string_nonempty(j.jwk.kty);
    lemma_string_nonempty(j.jwk.e);
    lemma_string_nonempty(j.jwk.n);
    lemma_string_nonempty(j.jwk.alg);
}

#[verifier::spinoff_prover]
pub proof fn lemma_reads_jwk(j: ActiveJwk)
    requires
        legal_jwk(j),
    ensures
        reads(j, 0),
        j.enc().len() >= 14,
{
    lemma_jwk_size(j);
    assert forall|s: Seq<u8>, st: St| at(s, st, j.enc()) && room(st, 0) implies ok_past(
        ActiveJwk::rec(s, st),
        st,
        j.enc().len() as int,
    ) by {
        let x = j.jwk_id.iss.enc() + j.jwk_id.kid.enc() + j.jwk.kty.enc();
        let y = j.jwk.e.enc() + j.jwk.n.enc() + j.jwk.alg.enc() + j.epoch.enc();
        assert(j.enc() =~= x + y);
        lemma_at_split(s, st, x, y);
        lemma_read_jwk_head(j, s, st);
        let st1 = rec3::<String, String, String>(s, st)->Ok_0;
        lemma_read_jwk_tail(j, s, st1);
    }
}

pub open spec fn legal_state_update(u: AuthenticatorStateUpdate) -> bool {
    &&& u.new_active_jwks@.len() <= MAX_SEQUENCE_LENGTH
    &&& forall|i: int| 0 <= i < u.new_active_jwks@.len() ==> legal_jwk(#[trigger] u.new_active_jwks@[i])
}

#[verifier::spinoff_prover]
pub proof fn lemma_reads_state_update(u: AuthenticatorStateUpdate)
    requires
        legal_state_update(u),
    ensures
        reads(u, 1),
{
    let w = u.new_active_jwks@;
    assert forall|i: int| 0 <= i < w.len() implies #[trigger] reads(w[i], 0) by {
        lemma_reads_jwk(w[i]);
    }
    assert forall|i: int| 0 <= i < w.len() implies (#[trigger] w[i].enc()).len() >= 14 by {
        lemma_reads_jwk(w[i]);
    }
    lemma_reads_u64(u.epoch);
    lemma_reads_u64(u.round);
    lemma_reads_u64(u.authenticator_obj_initial_shared_version);
    assert forall|s: Seq<u8>, st: St| at(s, st, u.enc()) && room(st, 1) implies ok_past(
        AuthenticatorStateUpdate::rec(s, st),
        st,
        u.enc().len() as int,
    ) by {
        let st1 = St { depth: st.depth + 1, ..st };
        let x = u.epoch.enc() + u.round.enc();
        let y = enc_seq(w);
        let z = u.authenticator_obj_initial_shared_version.enc();
        assert(u.enc() =~= x + (y + z));
        assert(at(s, st1, u.enc()));
        lemma_at_split(s, st1, x, y + z);
        lemma_read_rec2(u.epoch, u.round, 0, s, st1);
        let st2 = rec2::<u64, u64>(s, st1)->Ok_0;
        lemma_at_split(s, st2, y, z);
        lemma_read_seq(w, 14, 0, s, st2);
        let st3 = sp_seq::<ActiveJwk>(s, st2, 14)->Ok_0;
        assert(at(s, st3, z) && room(st3, 0));
    }
}

pub proof fn lemma_reads_randomness(u: RandomnessStateUpdate)
    requires
        u.random_bytes@.len() <= MAX_SEQUENCE_LENGTH,
    ensures
        reads(u, 0),
{
    lemma_reads_u64(u.epoch);
    lemma_reads_u64(u.randomness_round);
    lemma_reads_bytes(u.random_bytes);
    lemma_reads_u64(u.randomness_obj_initial_shared_version);
    assert forall|s: Seq<u8>, st: St| at(s, st, u.enc()) && room(st, 0) implies ok_past(
        RandomnessStateUpdate::rec(s, st),
        st,
        u.enc().len() as int,
    ) by {
        lemma_read_rec4(u.epoch, u.randomness_round, u.random_bytes, u.randomness_obj_initial_shared_version, 0, s, st);
    }
}

pub open spec fn legal_key(k: ExecutionTimeObservationKey) -> bool {
    k matches ExecutionTimeObservationKey::MoveEntryPoint { module, function, type_arguments, .. }
        ==> legal_entry_point(module, function, type_arguments@)
}

/// Its own level, and those of the entry point's type arguments.
pub open spec fn need_key(k: ExecutionTimeObservationKey) -> int {
    1 + match k {
        ExecutionTimeObservationKey::MoveEntryPoint { type_arguments, .. } => need_tt_list(type_arguments@),
        _ => 0,
    }
}

#[verifier::spinoff_prover]
pub proof fn lemma_reads_key(k: ExecutionTimeObservationKey)
    requires
        legal_key(k),
    ensures
        reads(k, need_key(k)),
        need_key(k) >= 1,
{
    if let ExecutionTimeObservationKey::MoveEntryPoint { type_arguments, .. } = k {
        lemma_need_tt_list_nonneg(type_arguments@);
    }
    assert forall|s: Seq<u8>, st: St| at(s, st, k.enc()) && room(st, need_key(k)) implies ok_past(
        ExecutionTimeObservationKey::rec(s, st),
        st,
        k.enc().len() as int,
    ) by {
        let st1 = St { depth: st.depth + 1, ..st };
        assert(at(s, st1, k.enc()));
        match k {
            ExecutionTimeObservationKey::MoveEntryPoint { package, module, function, type_arguments } => {
                let t = type_arguments@;
                let rest = package.enc() + module.enc() + function.enc() + enc_uleb(t.len() as u32) + enc_tt_list(t);
                assert(k.enc() =~= enc_uleb(0) + rest);
                lemma_read_tag(0, rest, s, st1);
                lemma_read_entry_point(package, module, function, t, s, adv(st1, 1));
            },
            ExecutionTimeObservationKey::TransferObjects => lemma_read_tag_only(1, s, st1),
            ExecutionTimeObservationKey::SplitCoins => lemma_read_tag_only(2, s, st1),
            ExecutionTimeObservationKey::MergeCoins => lemma_read_tag_only(3, s, st1),
            ExecutionTimeObservationKey::Publish => lemma_read_tag_only(4, s, st1),
            ExecutionTimeObservationKey::MakeMoveVec => lemma_read_tag_only(5, s, st1),
            ExecutionTimeObservationKey::Upgrade => lemma_read_tag_only(6, s, st1),
        }
    }
}

pub proof fn lemma_reads_observation(o: AuthorityObservation)
    ensures
        reads(o, 0),
        o.enc().len() == 109,
{
    assert forall|s: Seq<u8>, st: St| at(s, st, o.enc()) && room(st, 0) implies ok_past(
        AuthorityObservation::rec(s, st),
        st,
        o.enc().len() as int,
    ) by {
        lemma_at_index(s, st, o.enc(), 0);
    }
}

pub proof fn lemma_reads_observations(v: Vec<AuthorityObservation>)
    requires
        v@.len() <= MAX_SEQUENCE_LENGTH,
    ensures
        reads(v, 0),
{
    let w = v@;
    assert forall|i: int| 0 <= i < w.len() implies #[trigger] reads(w[i], 0) by {
        lemma_reads_observation(w[i]);
    }
    assert forall|i: int| 0 <= i < w.len() implies (#[trigger] w[i].enc()).len() == 109 by {
        lemma_reads_observation(w[i]);
    }
    assert forall|s: Seq<u8>, st: St| at(s, st, v.enc()) && room(st, 0) implies ok_past(
        Vec::<AuthorityObservation>::rec(s, st),
        st,
        v.enc().len() as int,
    ) by {
        lemma_read_records(w, 109, 0, s, st);
    }
}

pub open spec fn legal_stored(o: StoredExecutionTimeObservations) -> bool {
    &&& o.0@.len() <= MAX_SEQUENCE_LENGTH
    &&& forall|i: int| 0 <= i < o.0@.len() ==> legal_key((#[trigger] o.0@[i]).0) && o.0@[i].1@.len() <= MAX_SEQUENCE_LENGTH
}

/// The observations read back within `k` levels.
pub open spec fn fits_stored(o: StoredExecutionTimeObservations, k: int) -> bool {
    &&& k >= 1
    &&& forall|i: int| 0 <= i < o.0@.len() ==> need_key((#[trigger] o.0@[i]).0) <= k - 1
}

pub proof fn lemma_reads_observation_entry(e: (ExecutionTimeObservationKey, Vec<AuthorityObservation>))
    requires
        legal_key(e.0),
        e.1@.len() <= MAX_SEQUENCE_LENGTH,
    ensures
        reads(e, need_key(e.0)),
        e.enc().len() >= 2,
{
    lemma_reads_key(e.0);
    lemma_reads_observations(e.1);
    lemma_reads_more_room(e.1, 0, need_key(e.0));
    crate::wire_size::lemma_seq_nonempty(e.1@);
    assert(e.0.enc().len() >= 1) by {
        reveal_with_fuel(enc_uleb, 1);
    }
    assert forall|s: Seq<u8>, st: St| at(s, st, e.enc()) && room(st, need_key(e.0)) implies ok_past(
        <(ExecutionTimeObservationKey, Vec<AuthorityObservation>)>::rec(s, st),
        st,
        e.enc().len() as int,
    ) by {
        lemma_read_rec2(e.0, e.1, need_key(e.0), s, st);
    }
}

pub proof fn lemma_reads_stored(o: StoredExecutionTimeObservations, k: int)
    requires
        legal_stored(o),
        fits_stored(o, k),
    ensures
        reads(o, k),
{
    let w = o.0@;
    assert forall|i: int| 0 <= i < w.len() implies #[trigger] reads(w[i], k - 1) by {
        lemma_reads_observation_entry(w[i]);
        lemma_reads_more_room(w[i], need_key(w[i].0), k - 1);
    }
    assert forall|i: int| 0 <= i < w.len() implies (#[trigger] w[i].enc()).len() >= 2 by {
        lemma_reads_observation_entry(w[i]);
    }
    assert forall|s: Seq<u8>, st: St| at(s, st, o.enc()) && room(st, k) implies ok_past(
        StoredExecutionTimeObservations::rec(s, st),
        st,
        o.enc().len() as int,
    ) by {
        let st1 = St { depth: st.depth + 1, ..st };
        assert(at(s, st1, o.enc()));
        lemma_read_tag(0, enc_seq(w), s, st1);
        lemma_read_seq(w, 2, k - 1, s, adv(st1, 1));
    }
}

pub open spec fn legal_end_of_epoch_kind(x: EndOfEpochTransactionKind) -> bool {
    match x {
        EndOfEpochTransactionKind::ChangeEpoch(c) => legal_change_epoch(c),
        EndOfEpochTransactionKind::StoreExecutionTimeObservations(o) => legal_stored(o),
        _ => true,
    }
}

/// The kind reads back within `k` levels.
pub open spec fn fits_end_of_epoch_kind(x: EndOfEpochTransactionKind, k: int) -> bool {
    &&& k >= 1
    &&& match x {
        EndOfEpochTransactionKind::ChangeEpoch(_) => k >= 2,
        EndOfEpochTransactionKind::StoreExecutionTimeObservations(o) => fits_stored(o, k - 1),
        _ => true,
    }
}

#[verifier::spinoff_prover]
#[verifier::rlimit(40)]
pub proof fn lemma_reads_end_of_epoch_kind(x: EndOfEpochTransactionKind, k: int)
    requires
        legal_end_of_epoch_kind(x),
        fits_end_of_epoch_kind(x, k),
    ensures
        reads(x, k),
{
    assert forall|s: Seq<u8>, st: St| at(s, st, x.enc()) && room(st, k) implies ok_past(
        EndOfEpochTransactionKind::rec(s, st),
        st,
        x.enc().len() as int,
    ) by {
        let st1 = St { depth: st.depth + 1, ..st };
        assert(at(s, st1, x.enc()));
        match x {
            EndOfEpochTransactionKind::ChangeEpoch(c) => {
                lemma_reads_change_epoch(c);
                lemma_read_tagged(0, c, 1, s, st1);
            },
            EndOfEpochTransactionKind::AuthenticatorStateCreate => lemma_read_tag_only(1, s, st1),
            EndOfEpochTransactionKind::AuthenticatorStateExpire {
                min_epoch,
                authenticator_obj_initial_shared_version,
            } => {
                lemma_reads_u64(min_epoch);
                lemma_reads_u64(authenticator_obj_initial_shared_version);
                lemma_read_tagged2(2, min_epoch, authenticator_obj_initial_shared_version, 0, s, st1);
            },
            EndOfEpochTransactionKind::RandomnessStateCreate => lemma_read_tag_only(3, s, st1),
            EndOfEpochTransactionKind::DenyListStateCreate => lemma_read_tag_only(4, s, st1),
            EndOfEpochTransactionKind::BridgeStateCreate(d) => {
                lemma_reads_digest(d);
                lemma_read_tagged(5, d, 0, s, st1);
            },
            EndOfEpochTransactionKind::BridgeCommitteeInit(v) => {
                lemma_reads_u64(v);
                lemma_read_tagged(6, v, 0, s, st1);
            },
            EndOfEpochTransactionKind::StoreExecutionTimeObservations(o) => {
                lemma_reads_stored(o, k - 1);
                lemma_read_tagged(7, o, k - 1, s, st1);
            },
            EndOfEpochTransactionKind::AccumulatorRootCreate => lemma_read_tag_only(8, s, st1),
            EndOfEpochTransactionKind::CoinRegistryCreate => lemma_read_tag_only(9, s, st1),
            EndOfEpochTransactionKind::DisplayRegistryCreate => lemma_read_tag_only(10, s, st1),
            EndOfEpochTransactionKind::AddressAliasStateCreate => lemma_read_tag_only(11, s, st1),
            EndOfEpochTransactionKind::WriteAccumulatorStorageCost { storage_cost } => {
                lemma_reads_u64(storage_cost);
                lemma_read_tagged(12, storage_cost, 0, s, st1);
            },
            EndOfEpochTransactionKind::ForwardingAddressRegistryCreate => lemma_read_tag_only(13, s, st1),
        }
    }
}

// ---------------------------------------------------------------------
// Programmable transactions.

pub proof fn lemma_reads_argument(a: Argument)
    ensures
        reads(a, 0),
        a.enc().len() >= 1,
{
    crate::wire_size::lemma_argument_min_wire_size(a);
    assert forall|s: Seq<u8>, st: St| at(s, st, a.enc()) && room(st, 0) implies ok_past(
        Argument::rec(s, st),
        st,
        a.enc().len() as int,
    ) by {
        match a {
            Argument::GasCoin => lemma_read_tag_only(0, s, st),
            Argument::Input(i) => {
                lemma_reads_u16(i);
                lemma_read_tagged(1, i, 0, s, st);
            },
            Argument::Result(i) => {
                lemma_reads_u16(i);
                lemma_read_tagged(2, i, 0, s, st);
            },
            Argument::NestedResult(i, j) => {
                lemma_reads_u16(i);
                lemma_reads_u16(j);
                lemma_read_tagged2(3, i, j, 0, s, st);
            },
        }
    }
}

/// A length-prefixed run of arguments.
pub proof fn lemma_read_arguments(v: Seq<Argument>, need: int, s: Seq<u8>, st: St)
    requires
        v.len() <= MAX_SEQUENCE_LENGTH,
        need >= 0,
        at(s, st, enc_seq(v)),
        room(st, need),
    ensures
        ok_past(sp_seq::<Argument>(s, st, 1), st, enc_seq(v).len() as int),
{
    assert forall|i: int| 0 <= i < v.len() implies #[trigger] reads(v[i], need) by {
        lemma_reads_argument(v[i]);
        lemma_reads_more_room(v[i], 0, need);
    }
    assert forall|i: int| 0 <= i < v.len() implies (#[trigger] v[i].enc()).len() >= 1 by {
        lemma_reads_argument(v[i]);
    }
    lemma_read_seq(v, 1, need, s, st);
}

pub proof fn lemma_reads_object_arg(o: ObjectArg)
    ensures
        reads(o, 0),
{
    assert forall|s: Seq<u8>, st: St| at(s, st, o.enc()) && room(st, 0) implies ok_past(
        ObjectArg::rec(s, st),
        st,
        o.enc().len() as int,
    ) by {
        match o {
            ObjectArg::ImmOrOwnedObject(r) => {
                lemma_reads_object_ref(r);
                lemma_read_tagged(0, r, 0, s, st);
            },
            ObjectArg::SharedObject(a) => {
                assert(reads(a, 0)) by {
                    assert forall|s2: Seq<u8>, st2: St| at(s2, st2, a.enc()) && room(st2, 0) implies ok_past(
                        SharedObjectArg::rec(s2, st2),
                        st2,
                        a.enc().len() as int,
                    ) by {
                        lemma_at_index(s2, st2, a.enc(), 40);
                    }
                }
                lemma_read_tagged(1, a, 0, s, st);
            },
            ObjectArg::Receiving(r) => {
                lemma_reads_object_ref(r);
                lemma_read_tagged(2, r, 0, s, st);
            },
        }
    }
}

/// Where a withdrawal draws from, counted as a container.
proof fn lemma_read_withdraw_from(w: WithdrawFrom, s: Seq<u8>, st: St)
    requires
        at(s, st, enc_withdraw_from(w)),
        room(st, 1),
    ensures
        ok_past(rec_withdraw_from(s, st), st, enc_withdraw_from(w).len() as int),
{
    let st1 = St { depth: st.depth + 1, ..st };
    assert(at(s, st1, enc_withdraw_from(w)));
    match w {
        WithdrawFrom::Sender => lemma_read_tag_only(0, s, st1),
        WithdrawFrom::Sponsor => lemma_read_tag_only(1, s, st1),
        WithdrawFrom::SenderAllowance { funder, allowance } => {
            lemma_reads_address(funder);
            lemma_reads_fixed32_id(allowance);
            lemma_read_tagged2(2, funder, allowance, 0, s, st1);
        },
    }
}

/// The type a withdrawal names.
pub open spec fn withdrawal_type(w: FundsWithdrawalArg) -> TypeTag {
    match w.type_arg {
        WithdrawalTypeArg::Balance(t) => t,
    }
}

/// Its own level, the type argument's, and the type's.
pub open spec fn need_withdrawal(w: FundsWithdrawalArg) -> int {
    2 + need_tt(withdrawal_type(w))
}

#[verifier::spinoff_prover]
#[verifier::rlimit(60)]
pub proof fn lemma_reads_withdrawal(w: FundsWithdrawalArg)
    requires
        legal_tt(withdrawal_type(w)),
    ensures
        reads(w, need_withdrawal(w)),
        need_withdrawal(w) >= 3,
{
    let t = withdrawal_type(w);
    crate::accept::lemma_need_tt_pos(t);
    let v = match w.reservation {
        Reservation::MaxAmountU64(v) => v,
    };
    lemma_reads_u64(v);
    assert forall|s: Seq<u8>, st: St| at(s, st, w.enc()) && room(st, need_withdrawal(w)) implies ok_past(
        FundsWithdrawalArg::rec(s, st),
        st,
        w.enc().len() as int,
    ) by {
        let r = enc_uleb(0) + v.enc();
        let ta = enc_uleb(0) + enc_tt(t);
        let wf = enc_withdraw_from(w.withdraw_from);
        assert(w.enc() =~= r + (ta + wf));
        let st1 = St { depth: st.depth + 1, ..st };
        assert(at(s, st1, w.enc()));
        lemma_at_split(s, st1, r, ta + wf);
        let st2 = St { depth: st1.depth + 1, ..st1 };
        assert(at(s, st2, r));
        lemma_read_tagged(0, v, 0, s, st2);
        let st3 = adv(st1, r.len() as int);
        assert(at(s, st3, ta + wf));
        lemma_at_split(s, st3, ta, wf);
        let st4 = St { depth: st3.depth + 1, ..st3 };
        assert(at(s, st4, ta));
        lemma_read_tag(0, enc_tt(t), s, st4);
        lemma_read_tt(t, s, adv(st4, 1));
        let st5 = St { pos: st3.pos + ta.len(), depth: st3.depth, tags: st3.tags + tags_tt(t) };
        assert(at(s, st5, wf));
        lemma_read_withdraw_from(w.withdraw_from, s, st5);
    }
}

pub open spec fn legal_call_arg(c: CallArg) -> bool {
    match c {
        CallArg::Pure(b) => b@.len() <= MAX_SEQUENCE_LENGTH,
        CallArg::Object(_) => true,
        CallArg::FundsWithdrawal(w) => legal_tt(withdrawal_type(w)),
    }
}

pub open spec fn need_call_arg(c: CallArg) -> int {
    1 + match c {
        CallArg::FundsWithdrawal(w) => need_withdrawal(w),
        _ => 0,
    }
}

pub proof fn lemma_reads_call_arg(c: CallArg)
    requires
        legal_call_arg(c),
    ensures
        reads(c, need_call_arg(c)),
        need_call_arg(c) >= 1,
        c.enc().len() >= 2,
{
    crate::wire_size::lemma_call_arg_min_wire_size(c);
    if let CallArg::FundsWithdrawal(w) = c {
        lemma_reads_withdrawal(w);
    }
    assert forall|s: Seq<u8>, st: St| at(s, st, c.enc()) && room(st, need_call_arg(c)) implies ok_past(
        CallArg::rec(s, st),
        st,
        c.enc().len() as int,
    ) by {
        let st1 = St { depth: st.depth + 1, ..st };
        assert(at(s, st1, c.enc()));
        match c {
            CallArg::Pure(b) => {
                lemma_reads_bytes(b);
                lemma_read_tagged(0, b, 0, s, st1);
            },
            CallArg::Object(o) => {
                lemma_reads_object_arg(o);
                lemma_read_tagged(1, o, 0, s, st1);
            },
            CallArg::FundsWithdrawal(w) => {
                lemma_read_tagged(2, w, need_withdrawal(w), s, st1);
            },
        }
    }
}

pub open spec fn legal_move_call(m: ProgrammableMoveCall) -> bool {
    legal_entry_point(m.module, m.function, m.type_arguments@) && m.arguments@.len() <= MAX_SEQUENCE_LENGTH
}

pub open spec fn need_move_call(m: ProgrammableMoveCall) -> int {
    1 + need_tt_list(m.type_arguments@)
}

pub proof fn lemma_reads_move_call(m: ProgrammableMoveCall)
    requires
        legal_move_call(m),
    ensures
        reads(m, need_move_call(m)),
        need_move_call(m) >= 1,
{
    let t = m.type_arguments@;
    lemma_need_tt_list_nonneg(t);
    assert forall|s: Seq<u8>, st: St| at(s, st, m.enc()) && room(st, need_move_call(m)) implies ok_past(
        ProgrammableMoveCall::rec(s, st),
        st,
        m.enc().len() as int,
    ) by {
        let st1 = St { depth: st.depth + 1, ..st };
        let x = m.package.enc() + m.module.enc() + m.function.enc() + enc_uleb(t.len() as u32) + enc_tt_list(t);
        assert(m.enc() =~= x + enc_seq(m.arguments@));
        assert(at(s, st1, m.enc()));
        lemma_at_split(s, st1, x, enc_seq(m.arguments@));
        lemma_read_entry_point(m.package, m.module, m.function, t, s, st1);
        let st2 = rec_entry_point(s, st1)->Ok_0;
        lemma_read_arguments(m.arguments@, 0, s, st2);
    }
}

pub proof fn lemma_reads_type_tag(t: TypeTag)
    requires
        legal_tt(t),
    ensures
        reads(t, need_tt(t)),
        need_tt(t) >= 1,
{
    crate::accept::lemma_need_tt_pos(t);
    assert forall|s: Seq<u8>, st: St| at(s, st, t.enc()) && room(st, need_tt(t)) implies ok_past(
        TypeTag::rec(s, st),
        st,
        t.enc().len() as int,
    ) by {
        lemma_read_tt(t, s, st);
    }
}

pub open spec fn legal_command(c: Command) -> bool {
    match c {
        Command::MoveCall(m) => legal_move_call(m),
        Command::TransferObjects(objs, _) => objs@.len() <= MAX_SEQUENCE_LENGTH,
        Command::SplitCoins(_, a) => a@.len() <= MAX_SEQUENCE_LENGTH,
        Command::MergeCoins(_, a) => a@.len() <= MAX_SEQUENCE_LENGTH,
        Command::Publish(m, d) => legal_modules(m) && d@.len() <= MAX_SEQUENCE_LENGTH,
        Command::MakeMoveVec(t, a) => (t matches Some(x) ==> legal_tt(x)) && a@.len() <= MAX_SEQUENCE_LENGTH,
        Command::Upgrade(m, d, _, _) => legal_modules(m) && d@.len() <= MAX_SEQUENCE_LENGTH,
    }
}

/// Levels an optional element type takes.
pub open spec fn need_element_type(t: Option<TypeTag>) -> int {
    match t {
        Some(x) => need_tt(x),
        None => 0,
    }
}

pub open spec fn need_command(c: Command) -> int {
    1 + match c {
        Command::MoveCall(m) => need_move_call(m),
        Command::MakeMoveVec(t, _) => need_element_type(t),
        _ => 0,
    }
}

/// A run of arguments and one more argument, in either order.
proof fn lemma_read_arguments_and_one(v: Seq<Argument>, a: Argument, first: bool, s: Seq<u8>, st: St)
    requires
        v.len() <= MAX_SEQUENCE_LENGTH,
        at(s, st, if first { enc_seq(v) + a.enc() } else { a.enc() + enc_seq(v) }),
        room(st, 0),
    ensures
        first ==> ok_past(
            then(sp_seq::<Argument>(s, st, 1), |st1: St| Argument::rec(s, st1)),
            st,
            (enc_seq(v) + a.enc()).len() as int,
        ),
        !first ==> ok_past(
            then(Argument::rec(s, st), |st1: St| sp_seq::<Argument>(s, st1, 1)),
            st,
            (a.enc() + enc_seq(v)).len() as int,
        ),
{
    lemma_reads_argument(a);
    if first {
        lemma_at_split(s, st, enc_seq(v), a.enc());
        lemma_read_arguments(v, 0, s, st);
        let st1 = sp_seq::<Argument>(s, st, 1)->Ok_0;
        assert(at(s, st1, a.enc()) && room(st1, 0));
    } else {
        lemma_at_split(s, st, a.enc(), enc_seq(v));
        let st1 = Argument::rec(s, st)->Ok_0;
        lemma_read_arguments(v, 0, s, st1);
    }
}

/// An optional element type, then the elements.
proof fn lemma_read_make_move_vec(t: Option<TypeTag>, a: Seq<Argument>, s: Seq<u8>, st: St)
    requires
        t matches Some(x) ==> legal_tt(x),
        a.len() <= MAX_SEQUENCE_LENGTH,
        at(s, st, t.enc() + enc_seq(a)),
        room(st, need_element_type(t)),
    ensures
        ok_past(
            then(Option::<TypeTag>::rec(s, st), |st1: St| sp_seq::<Argument>(s, st1, 1)),
            st,
            (t.enc() + enc_seq(a)).len() as int,
        ),
{
    let n = need_element_type(t);
    if let Some(x) = t {
        lemma_reads_type_tag(x);
    }
    lemma_reads_option(t, n);
    lemma_at_split(s, st, t.enc(), enc_seq(a));
    let st1 = Option::<TypeTag>::rec(s, st)->Ok_0;
    lemma_read_arguments(a, 0, s, st1);
}

#[verifier::spinoff_prover]
#[verifier::rlimit(60)]
pub proof fn lemma_reads_command(c: Command)
    requires
        legal_command(c),
    ensures
        reads(c, need_command(c)),
        need_command(c) >= 1,
        c.enc().len() >= 3,
{
    crate::wire_size::lemma_command_min_wire_size(c);
    match c {
        Command::MoveCall(m) => lemma_reads_move_call(m),
        Command::MakeMoveVec(Some(x), _) => crate::accept::lemma_need_tt_pos(x),
        _ => {},
    }
    assert forall|s: Seq<u8>, st: St| at(s, st, c.enc()) && room(st, need_command(c)) implies ok_past(
        Command::rec(s, st),
        st,
        c.enc().len() as int,
    ) by {
        let st1 = St { depth: st.depth + 1, ..st };
        assert(at(s, st1, c.enc()));
        match c {
            Command::MoveCall(m) => {
                lemma_read_tagged(0, m, need_move_call(m), s, st1);
            },
            Command::TransferObjects(objs, to) => {
                assert(c.enc() =~= enc_uleb(1) + (enc_seq(objs@) + to.enc()));
                lemma_read_tag(1, enc_seq(objs@) + to.enc(), s, st1);
                lemma_read_arguments_and_one(objs@, to, true, s, adv(st1, 1));
            },
            Command::SplitCoins(a, amounts) => {
                assert(c.enc() =~= enc_uleb(2) + (a.enc() + enc_seq(amounts@)));
                lemma_read_tag(2, a.enc() + enc_seq(amounts@), s, st1);
                lemma_read_arguments_and_one(amounts@, a, false, s, adv(st1, 1));
            },
            Command::MergeCoins(a, coins) => {
                assert(c.enc() =~= enc_uleb(3) + (a.enc() + enc_seq(coins@)));
                lemma_read_tag(3, a.enc() + enc_seq(coins@), s, st1);
                lemma_read_arguments_and_one(coins@, a, false, s, adv(st1, 1));
            },
            Command::Publish(m, d) => {
                lemma_reads_modules(m);
                lemma_reads_ids(d);
                lemma_read_tagged2(4, m, d, 0, s, st1);
            },
            Command::MakeMoveVec(t, a) => {
                assert(c.enc() =~= enc_uleb(5) + (t.enc() + enc_seq(a@)));
                lemma_read_tag(5, t.enc() + enc_seq(a@), s, st1);
                lemma_read_make_move_vec(t, a@, s, adv(st1, 1));
            },
            Command::Upgrade(m, d, p, a) => {
                lemma_reads_modules(m);
                lemma_reads_ids(d);
                lemma_reads_fixed32_id(p);
                lemma_reads_argument(a);
                assert(c.enc() =~= enc_uleb(6) + (m.enc() + d.enc() + p.enc() + a.enc()));
                lemma_read_tag(6, m.enc() + d.enc() + p.enc() + a.enc(), s, st1);
                lemma_read_rec4(m, d, p, a, 0, s, adv(st1, 1));
            },
        }
    }
}

pub open spec fn legal_programmable(p: ProgrammableTransaction) -> bool {
    &&& p.inputs@.len() <= MAX_SEQUENCE_LENGTH
    &&& p.commands@.len() <= MAX_SEQUENCE_LENGTH
    &&& forall|i: int| 0 <= i < p.inputs@.len() ==> legal_call_arg(#[trigger] p.inputs@[i])
    &&& forall|i: int| 0 <= i < p.commands@.len() ==> legal_command(#[trigger] p.commands@[i])
}

/// The transaction reads back within `k` levels.
pub open spec fn fits_programmable(p: ProgrammableTransaction, k: int) -> bool {
    &&& k >= 1
    &&& forall|i: int| 0 <= i < p.inputs@.len() ==> need_call_arg(#[trigger] p.inputs@[i]) <= k - 1
    &&& forall|i: int| 0 <= i < p.commands@.len() ==> need_command(#[trigger] p.commands@[i]) <= k - 1
}

#[verifier::spinoff_prover]
#[verifier::rlimit(40)]
pub proof fn lemma_reads_programmable(p: ProgrammableTransaction, k: int)
    requires
        legal_programmable(p),
        fits_programmable(p, k),
    ensures
        reads(p, k),
{
    let a = p.inputs@;
    let c = p.commands@;
    assert forall|i: int| 0 <= i < a.len() implies #[trigger] reads(a[i], k - 1) by {
        lemma_reads_call_arg(a[i]);
        lemma_reads_more_room(a[i], need_call_arg(a[i]), k - 1);
    }
    assert forall|i: int| 0 <= i < a.len() implies (#[trigger] a[i].enc()).len() >= 2 by {
        lemma_reads_call_arg(a[i]);
    }
    assert forall|i: int| 0 <= i < c.len() implies #[trigger] reads(c[i], k - 1) by {
        lemma_reads_command(c[i]);
        lemma_reads_more_room(c[i], need_command(c[i]), k - 1);
    }
    assert forall|i: int| 0 <= i < c.len() implies (#[trigger] c[i].enc()).len() >= 3 by {
        lemma_reads_command(c[i]);
    }
    assert forall|s: Seq<u8>, st: St| at(s, st, p.enc()) && room(st, k) implies ok_past(
        ProgrammableTransaction::rec(s, st),
        st,
        p.enc().len() as int,
    ) by {
        let st1 = St { depth: st.depth + 1, ..st };
        assert(at(s, st1, p.enc()));
        lemma_at_split(s, st1, enc_seq(a), enc_seq(c));
        lemma_read_seq(a, 2, k - 1, s, st1);
        let st2 = sp_seq::<CallArg>(s, st1, 2)->Ok_0;
        lemma_read_seq(c, 3, k - 1, s, st2);
    }
}

pub open spec fn need_genesis(g: GenesisObject) -> int {
    1 + if need_data(g.data) > need_owner(g.owner) {
        need_data(g.data)
    } else {
        need_owner(g.owner)
    }
}

pub open spec fn legal_kind(t: TransactionKind) -> bool {
    match t {
        TransactionKind::ProgrammableTransaction(p) => legal_programmable(p),
        TransactionKind::ChangeEpoch(c) => legal_change_epoch(c),
        TransactionKind::Genesis(g) => {
            &&& g@.len() <= MAX_SEQUENCE_LENGTH
            &&& forall|i: int| 0 <= i < g@.len() ==> legal_data((#[trigger] g@[i]).data) && legal_owner(g@[i].owner)
        },
        TransactionKind::AuthenticatorStateUpdate(u) => legal_state_update(u),
        TransactionKind::EndOfEpochTransaction(v) => {
            &&& v@.len() <= MAX_SEQUENCE_LENGTH
            &&& forall|i: int| 0 <= i < v@.len() ==> legal_end_of_epoch_kind(#[trigger] v@[i])
        },
        TransactionKind::RandomnessStateUpdate(u) => u.random_bytes@.len() <= MAX_SEQUENCE_LENGTH,
        TransactionKind::ConsensusCommitPrologueV3(c) => legal_assignments(c.consensus_determined_version_assignments),
        TransactionKind::ConsensusCommitPrologueV4(c) => legal_assignments(c.consensus_determined_version_assignments),
        TransactionKind::ProgrammableSystemTransaction(p) => legal_programmable(p),
        _ => true,
    }
}

/// The kind reads back within `k` levels.
pub open spec fn fits_kind(t: TransactionKind, k: int) -> bool {
    &&& k >= 1
    &&& match t {
        TransactionKind::ProgrammableTransaction(p) => fits_programmable(p, k - 1),
        TransactionKind::ChangeEpoch(_) => k >= 2,
        TransactionKind::Genesis(g) => {
            &&& k >= 2
            &&& forall|i: int| 0 <= i < g@.len() ==> need_genesis(#[trigger] g@[i]) <= k - 2
        },
        TransactionKind::AuthenticatorStateUpdate(_) => k >= 2,
        TransactionKind::EndOfEpochTransaction(v) => {
            forall|i: int| 0 <= i < v@.len() ==> fits_end_of_epoch_kind(#[trigger] v@[i], k - 1)
        },
        TransactionKind::ConsensusCommitPrologueV3(_) => k >= 3,
        TransactionKind::ConsensusCommitPrologueV4(_) => k >= 3,
        TransactionKind::ProgrammableSystemTransaction(p) => fits_programmable(p, k - 1),
        _ => true,
    }
}

/// Genesis objects, inside a container of their own.
proof fn lemma_read_genesis(g: Seq<GenesisObject>, k: int, s: Seq<u8>, st: St)
    requires
        g.len() <= MAX_SEQUENCE_LENGTH,
        forall|i: int| 0 <= i < g.len() ==> legal_data((#[trigger] g[i]).data) && legal_owner(g[i].owner),
        forall|i: int| 0 <= i < g.len() ==> need_genesis(#[trigger] g[i]) <= k - 1,
        k >= 1,
        at(s, st, enc_seq(g)),
        room(st, k),
    ensures
        ok_past(nested(st, |st1: St| sp_seq::<GenesisObject>(s, st1, 14)), st, enc_seq(g).len() as int),
{
    assert forall|i: int| 0 <= i < g.len() implies #[trigger] reads(g[i], k - 1) by {
        lemma_reads_genesis_object(g[i]);
        lemma_reads_more_room(g[i], need_genesis(g[i]), k - 1);
    }
    assert forall|i: int| 0 <= i < g.len() implies (#[trigger] g[i].enc()).len() >= 14 by {
        crate::wire_size::lemma_genesis_object_min_wire_size(g[i]);
    }
    let st1 = St { depth: st.depth + 1, ..st };
    lemma_read_seq(g, 14, k - 1, s, st1);
}

/// End-of-epoch kinds, one after the other.
proof fn lemma_read_end_of_epoch_kinds(v: Seq<EndOfEpochTransactionKind>, k: int, s: Seq<u8>, st: St)
    requires
        v.len() <= MAX_SEQUENCE_LENGTH,
        forall|i: int| 0 <= i < v.len() ==> legal_end_of_epoch_kind(#[trigger] v[i]),
        forall|i: int| 0 <= i < v.len() ==> fits_end_of_epoch_kind(#[trigger] v[i], k),
        k >= 0,
        at(s, st, enc_seq(v)),
        room(st, k),
    ensures
        ok_past(sp_seq::<EndOfEpochTransactionKind>(s, st, 1), st, enc_seq(v).len() as int),
{
    assert forall|i: int| 0 <= i < v.len() implies #[trigger] reads(v[i], k) by {
        lemma_reads_end_of_epoch_kind(v[i], k);
    }
    assert forall|i: int| 0 <= i < v.len() implies (#[trigger] v[i].enc()).len() >= 1 by {
        crate::wire_size::lemma_end_of_epoch_kind_min_wire_size(v[i]);
    }
    lemma_read_seq(v, 1, k, s, st);
}

#[verifier::spinoff_prover]
#[verifier::rlimit(60)]
pub proof fn lemma_reads_kind(t: TransactionKind, k: int)
    requires
        legal_kind(t),
        fits_kind(t, k),
    ensures
        reads(t, k),
{
    assert forall|s: Seq<u8>, st: St| at(s, st, t.enc()) && room(st, k) implies ok_past(
        TransactionKind::rec(s, st),
        st,
        t.enc().len() as int,
    ) by {
        let st1 = St { depth: st.depth + 1, ..st };
        assert(at(s, st1, t.enc()));
        match t {
            TransactionKind::ProgrammableTransaction(p) => {
                lemma_reads_programmable(p, k - 1);
                lemma_read_tagged(0, p, k - 1, s, st1);
            },
            TransactionKind::ChangeEpoch(c) => {
                lemma_reads_change_epoch(c);
                lemma_read_tagged(1, c, 1, s, st1);
            },
            TransactionKind::Genesis(g) => {
                lemma_read_tag(2, enc_seq(g@), s, st1);
                lemma_read_genesis(g@, k - 1, s, adv(st1, 1));
            },
            TransactionKind::ConsensusCommitPrologue(c) => {
                lemma_reads_prologue(c);
                lemma_read_tagged(3, c, 0, s, st1);
            },
            TransactionKind::AuthenticatorStateUpdate(u) => {
                lemma_reads_state_update(u);
                lemma_read_tagged(4, u, 1, s, st1);
            },
            TransactionKind::EndOfEpochTransaction(v) => {
                lemma_read_tag(5, enc_seq(v@), s, st1);
                lemma_read_end_of_epoch_kinds(v@, k - 1, s, adv(st1, 1));
            },
            TransactionKind::RandomnessStateUpdate(u) => {
                lemma_reads_randomness(u);
                lemma_read_tagged(6, u, 0, s, st1);
            },
            TransactionKind::ConsensusCommitPrologueV2(c) => {
                lemma_reads_prologue_v2(c);
                lemma_read_tagged(7, c, 0, s, st1);
            },
            TransactionKind::ConsensusCommitPrologueV3(c) => {
                lemma_reads_prologue_v3(c);
                lemma_read_tagged(8, c, 2, s, st1);
            },
            TransactionKind::ConsensusCommitPrologueV4(c) => {
                lemma_reads_prologue_v4(c);
                lemma_read_tagged(9, c, 2, s, st1);
            },
            TransactionKind::ProgrammableSystemTransaction(p) => {
                lemma_reads_programmable(p, k - 1);
                lemma_read_tagged(10, p, k - 1, s, st1);
            },
        }
    }
}

pub proof fn lemma_reads_gas_data(g: GasData)
    requires
        g.payment@.len() <= MAX_SEQUENCE_LENGTH,
    ensures
        reads(g, 1),
{
    let p = g.payment@;
    assert forall|i: int| 0 <= i < p.len() implies #[trigger] reads(p[i], 0) by {
        lemma_reads_object_ref(p[i]);
    }
    assert forall|i: int| 0 <= i < p.len() implies (#[trigger] p[i].enc()).len() == 73 by {
        lemma_reads_object_ref(p[i]);
    }
    lemma_reads_address(g.owner);
    lemma_reads_u64(g.price);
    lemma_reads_u64(g.budget);
    assert forall|s: Seq<u8>, st: St| at(s, st, g.enc()) && room(st, 1) implies ok_past(
        GasData::rec(s, st),
        st,
        g.enc().len() as int,
    ) by {
        let st1 = St { depth: st.depth + 1, ..st };
        let x = g.owner.enc() + g.price.enc() + g.budget.enc();
        assert(g.enc() =~= enc_seq(p) + x);
        assert(at(s, st1, g.enc()));
        lemma_at_split(s, st1, enc_seq(p), x);
        lemma_read_records(p, 73, 0, s, st1);
        let st2 = sp_records::<ObjectRef>(s, st1, 73)->Ok_0;
        lemma_read_rec3(g.owner, g.price, g.budget, 0, s, st2);
    }
}

pub proof fn lemma_reads_valid_during(v: ValidDuring)
    ensures
        reads(v, 0),
{
    if let Some(x) = v.min_epoch {
        lemma_reads_u64(x);
    }
    if let Some(x) = v.max_epoch {
        lemma_reads_u64(x);
    }
    if let Some(x) = v.min_timestamp {
        lemma_reads_u64(x);
    }
    if let Some(x) = v.max_timestamp {
        lemma_reads_u64(x);
    }
    lemma_reads_option(v.min_epoch, 0);
    lemma_reads_option(v.max_epoch, 0);
    lemma_reads_option(v.min_timestamp, 0);
    lemma_reads_option(v.max_timestamp, 0);
    lemma_reads_digest(v.chain);
    lemma_reads_u32(v.nonce);
    assert forall|s: Seq<u8>, st: St| at(s, st, v.enc()) && room(st, 0) implies ok_past(
        ValidDuring::rec(s, st),
        st,
        v.enc().len() as int,
    ) by {
        let x = v.min_epoch.enc() + v.max_epoch.enc() + v.min_timestamp.enc() + v.max_timestamp.enc();
        let y = v.chain.enc() + v.nonce.enc();
        assert(v.enc() =~= x + y);
        lemma_at_split(s, st, x, y);
        lemma_read_rec4(v.min_epoch, v.max_epoch, v.min_timestamp, v.max_timestamp, 0, s, st);
        let st1 = rec4::<Option<u64>, Option<u64>, Option<u64>, Option<u64>>(s, st)->Ok_0;
        lemma_read_rec2(v.chain, v.nonce, 0, s, st1);
    }
}

pub proof fn lemma_reads_proposers(p: AllowedProposers)
    requires
        p.proposers@.len() <= MAX_SEQUENCE_LENGTH,
    ensures
        reads(p, 1),
{
    let w = p.proposers@;
    assert forall|i: int| 0 <= i < w.len() implies #[trigger] reads(w[i], 0) by {}
    assert forall|i: int| 0 <= i < w.len() implies (#[trigger] w[i].enc()).len() == 4 by {}
    assert forall|s: Seq<u8>, st: St| at(s, st, p.enc()) && room(st, 1) implies ok_past(
        AllowedProposers::rec(s, st),
        st,
        p.enc().len() as int,
    ) by {
        let st1 = St { depth: st.depth + 1, ..st };
        assert(at(s, st1, p.enc()));
        lemma_at_split(s, st1, p.epoch.enc(), enc_seq(w));
        lemma_read_records(w, 4, 0, s, adv(st1, 8));
    }
}

pub open spec fn legal_expiration(e: TransactionExpiration) -> bool {
    e matches TransactionExpiration::Validity(_, Some(p)) ==> p.proposers@.len() <= MAX_SEQUENCE_LENGTH
}

pub proof fn lemma_reads_expiration(e: TransactionExpiration)
    requires
        legal_expiration(e),
    ensures
        reads(e, 2),
{
    assert forall|s: Seq<u8>, st: St| at(s, st, e.enc()) && room(st, 2) implies ok_past(
        TransactionExpiration::rec(s, st),
        st,
        e.enc().len() as int,
    ) by {
        let st1 = St { depth: st.depth + 1, ..st };
        assert(at(s, st1, e.enc()));
        match e {
            TransactionExpiration::NoExpiration => lemma_read_tag_only(0, s, st1),
            TransactionExpiration::Epoch(x) => {
                lemma_reads_u64(x);
                lemma_read_tagged(1, x, 0, s, st1);
            },
            TransactionExpiration::ValidDuring(v) => {
                lemma_reads_valid_during(v);
                lemma_read_tagged(2, v, 0, s, st1);
            },
            TransactionExpiration::Validity(v, p) => {
                lemma_reads_valid_during(v);
                lemma_reads_more_room(v, 0, 1);
                if let Some(x) = p {
                    lemma_reads_proposers(x);
                }
                lemma_reads_option(p, 1);
                lemma_read_tagged2(3, v, p, 1, s, st1);
            },
        }
    }
}

pub open spec fn legal_tx_data(d: TransactionData) -> bool {
    &&& legal_kind(d.kind)
    &&& d.gas_data.payment@.len() <= MAX_SEQUENCE_LENGTH
    &&& legal_expiration(d.expiration)
}

/// The transaction reads back within `k` levels: its own two, and the
/// kind's or the expiration's below them.
pub open spec fn fits_tx_data(d: TransactionData, k: int) -> bool {
    &&& k >= 4
    &&& fits_kind(d.kind, k - 2)
}

#[verifier::spinoff_prover]
#[verifier::rlimit(40)]
pub proof fn lemma_reads_tx_data(d: TransactionData, k: int)
    requires
        legal_tx_data(d),
        fits_tx_data(d, k),
    ensures
        reads(d, k),
{
    let n = k - 2;
    lemma_reads_kind(d.kind, n);
    lemma_reads_address(d.sender);
    lemma_reads_more_room(d.sender, 0, n);
    lemma_reads_gas_data(d.gas_data);
    lemma_reads_more_room(d.gas_data, 1, n);
    lemma_reads_expiration(d.expiration);
    lemma_reads_more_room(d.expiration, 2, n);
    assert forall|s: Seq<u8>, st: St| at(s, st, d.enc()) && room(st, k) implies ok_past(
        TransactionData::rec(s, st),
        st,
        d.enc().len() as int,
    ) by {
        let st1 = St { depth: st.depth + 1, ..st };
        let x = d.kind.enc() + d.sender.enc();
        let y = d.gas_data.enc() + d.expiration.enc();
        assert(d.enc() =~= enc_uleb(0) + (x + y));
        assert(at(s, st1, d.enc()));
        lemma_read_tag(0, x + y, s, st1);
        let st2 = adv(st1, 1);
        let st3 = St { depth: st2.depth + 1, ..st2 };
        assert(at(s, st3, x + y));
        lemma_at_split(s, st3, x, y);
        lemma_read_rec2(d.kind, d.sender, n, s, st3);
        let st4 = rec2::<TransactionKind, SuiAddress>(s, st3)->Ok_0;
        lemma_read_rec2(d.gas_data, d.expiration, n, s, st4);
    }
}

pub proof fn lemma_reads_signature_bytes(g: GenericSignature)
    requires
        g.0@.len() <= MAX_SEQUENCE_LENGTH,
    ensures
        reads(g, 0),
        g.enc().len() >= 1,
{
    lemma_reads_bytes(g.0);
    lemma_bytes_nonempty(g.0@);
}

pub open spec fn legal_signed(x: SenderSignedData) -> bool {
    &&& legal_tx_data(x.data)
    &&& x.tx_signatures@.len() <= MAX_SEQUENCE_LENGTH
    &&& forall|i: int| 0 <= i < x.tx_signatures@.len() ==> (#[trigger] x.tx_signatures@[i]).0@.len() <= MAX_SEQUENCE_LENGTH
}

pub proof fn lemma_reads_intent(i: Intent, need: int)
    requires
        need >= 0,
    ensures
        reads(i, need),
{
}

/// The signed transaction read from a cursor.
#[verifier::spinoff_prover]
#[verifier::rlimit(40)]
proof fn lemma_read_signed(x: SenderSignedData, k: int, s: Seq<u8>, st: St)
    requires
        reads(x.data, k - 3),
        reads(x.intent, k - 3),
        k >= 3,
        x.tx_signatures@.len() <= MAX_SEQUENCE_LENGTH,
        forall|i: int| 0 <= i < x.tx_signatures@.len() ==> #[trigger] reads(x.tx_signatures@[i], 0),
        forall|i: int| 0 <= i < x.tx_signatures@.len() ==> (#[trigger] x.tx_signatures@[i].enc()).len() >= 1,
        at(s, st, x.enc()),
        room(st, k),
    ensures
        ok_past(SenderSignedData::rec(s, st), st, x.enc().len() as int),
{
    let g = x.tx_signatures@;
    let st1 = St { depth: st.depth + 1, ..st };
    let y = x.intent.enc() + x.data.enc();
    assert(x.enc() =~= enc_uleb(1) + (y + enc_seq(g)));
    assert(at(s, st1, x.enc()));
    lemma_at_split(s, st1, enc_uleb(1), y + enc_seq(g));
    lemma_read_length(1, s, st1);
    let st2 = adv(st1, 1);
    let st3 = St { depth: st2.depth + 1, ..st2 };
    assert(at(s, st3, y + enc_seq(g)));
    lemma_at_split(s, st3, y, enc_seq(g));
    let st4 = St { depth: st3.depth + 1, ..st3 };
    assert(at(s, st4, y));
    lemma_read_rec2(x.intent, x.data, k - 3, s, st4);
    let st6 = rec2::<Intent, TransactionData>(s, st4)->Ok_0;
    let st5 = St { depth: st6.depth - 1, ..st6 };
    assert(at(s, st5, enc_seq(g)) && room(st5, 0));
    lemma_read_seq(g, 1, 0, s, st5);
    assert(ok_past(rec_signed_body(s, st2), st2, (y + enc_seq(g)).len() as int));
}

/// The signed transaction reads back within `k` levels: its own three, and
/// the transaction's below them.
pub proof fn lemma_reads_signed(x: SenderSignedData, k: int)
    requires
        legal_signed(x),
        fits_tx_data(x.data, k - 3),
    ensures
        reads(x, k),
{
    let g = x.tx_signatures@;
    assert forall|i: int| 0 <= i < g.len() implies #[trigger] reads(g[i], 0) by {
        lemma_reads_signature_bytes(g[i]);
    }
    assert forall|i: int| 0 <= i < g.len() implies (#[trigger] g[i].enc()).len() >= 1 by {
        lemma_reads_signature_bytes(g[i]);
    }
    lemma_reads_tx_data(x.data, k - 3);
    lemma_reads_intent(x.intent, k - 3);
    assert forall|s: Seq<u8>, st: St| at(s, st, x.enc()) && room(st, k) implies ok_past(
        SenderSignedData::rec(s, st),
        st,
        x.enc().len() as int,
    ) by {
        lemma_read_signed(x, k, s, st);
    }
}

/// Every well-formed transaction, written out, is read back whole: every
/// sequence, string and byte string within the reader's length limit, and
/// its type tags and nested kinds within the reader's depth limit.
pub proof fn lemma_transaction_data_is_accepted(d: TransactionData)
    requires
        legal_tx_data(d),
        fits_tx_data(d, MAX_CONTAINER_DEPTH as int),
    ensures
        exact_rec::<TransactionData>(d.enc()) == Ok::<(), ParseError>(()),
{
    lemma_reads_tx_data(d, MAX_CONTAINER_DEPTH as int);
    lemma_at_whole(d.enc());
    assert(at(d.enc(), start(), d.enc()) && room(start(), MAX_CONTAINER_DEPTH as int));
}

/// The same for a signed transaction: one transaction in its containers,
/// then signatures within the reader's length limit.
pub proof fn lemma_sender_signed_data_is_accepted(x: SenderSignedData)
    requires
        legal_signed(x),
        fits_tx_data(x.data, MAX_CONTAINER_DEPTH - 3),
    ensures
        exact_rec::<SenderSignedData>(x.enc()) == Ok::<(), ParseError>(()),
{
    lemma_reads_signed(x, MAX_CONTAINER_DEPTH as int);
    lemma_at_whole(x.enc());
    assert(at(x.enc(), start(), x.enc()) && room(start(), MAX_CONTAINER_DEPTH as int));
}

} // verus!
