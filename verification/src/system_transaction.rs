//! The transaction kinds that validators create themselves.
use vstd::prelude::*;
use crate::base::{AuthorityName, Digest, ObjectId, ObjectKey, SequenceNumber, U32Le, U64Le, sp_len_byte};
use crate::error::ParseError;
use crate::execution_status::{rec2, unknown};
use crate::effects::{rec3, rec4};
use crate::reader::{Reader, St, Rec, then, span, nested, sp_uleb, sp_bytes, lemma_span_join};
use crate::type_tag::{TypeTag, rec_tt_vec, enc_tt_list};
use crate::wire::{Wire, enc_uleb, enc_seq, sp_records, sp_seq, parse_records, parse_seq};

verus! {

broadcast use {Reader::lemma_st_nonneg, lemma_span_join};

#[derive(Clone, PartialEq, Eq, Debug)]
pub struct SystemPackage {
    pub version: SequenceNumber,
    pub modules: Vec<Vec<u8>>,
    pub dependencies: Vec<ObjectId>,
}

impl Wire for SystemPackage {
    open spec fn rec(s: Seq<u8>, st: St) -> Rec {
        rec3::<u64, Vec<Vec<u8>>, Vec<ObjectId>>(s, st)
    }

    open spec fn enc(self) -> Seq<u8> {
        self.version.enc() + self.modules.enc() + self.dependencies.enc()
    }

    fn parse(r: &mut Reader) -> (res: Result<SystemPackage, ParseError>) {
        let version = r.u64()?;
        let modules = Vec::<Vec<u8>>::parse(r)?;
        let dependencies = Vec::<ObjectId>::parse(r)?;
        r.check();
        Ok(SystemPackage { version, modules, dependencies })
    }
}

#[derive(Clone, PartialEq, Eq, Debug)]
pub struct ChangeEpoch {
    pub epoch: u64,
    pub protocol_version: u64,
    pub storage_charge: u64,
    pub computation_charge: u64,
    pub storage_rebate: u64,
    pub non_refundable_storage_fee: u64,
    pub epoch_start_timestamp_ms: u64,
    pub system_packages: Vec<SystemPackage>,
}

impl Wire for ChangeEpoch {
    /// Seven `u64`s, then the packages, each a version and two lengths.
    open spec fn rec(s: Seq<u8>, st: St) -> Rec {
        nested(st, |st1: St| then(sp_bytes(s, st1, 56), |st2: St| sp_seq::<SystemPackage>(s, st2, 10)))
    }

    open spec fn enc(self) -> Seq<u8> {
        self.epoch.enc() + self.protocol_version.enc() + self.storage_charge.enc()
            + self.computation_charge.enc() + self.storage_rebate.enc()
            + self.non_refundable_storage_fee.enc() + self.epoch_start_timestamp_ms.enc()
            + enc_seq(self.system_packages@)
    }

    fn parse(r: &mut Reader) -> (res: Result<ChangeEpoch, ParseError>) {
        r.enter()?;
        let epoch = r.u64()?;
        let protocol_version = r.u64()?;
        let storage_charge = r.u64()?;
        let computation_charge = r.u64()?;
        let storage_rebate = r.u64()?;
        let non_refundable_storage_fee = r.u64()?;
        let epoch_start_timestamp_ms = r.u64()?;
        let system_packages = parse_seq::<SystemPackage>(r, 10)?;
        r.check();
        r.leave();
        Ok(
            ChangeEpoch {
                epoch,
                protocol_version,
                storage_charge,
                computation_charge,
                storage_rebate,
                non_refundable_storage_fee,
                epoch_start_timestamp_ms,
                system_packages,
            },
        )
    }
}

impl ChangeEpoch {
    pub fn parse(r: &mut Reader) -> (res: Result<ChangeEpoch, ParseError>)
        ensures
            crate::wire::parsed(*old(r), *final(r), res),
    {
        <ChangeEpoch as Wire>::parse(r)
    }
}

#[derive(Clone, Copy, PartialEq, Eq, Debug)]
pub struct ConsensusCommitPrologue {
    pub epoch: u64,
    pub round: u64,
    pub commit_timestamp_ms: u64,
}

impl Wire for ConsensusCommitPrologue {
    open spec fn rec(s: Seq<u8>, st: St) -> Rec {
        sp_bytes(s, st, 24)
    }

    open spec fn enc(self) -> Seq<u8> {
        self.epoch.enc() + self.round.enc() + self.commit_timestamp_ms.enc()
    }

    fn parse(r: &mut Reader) -> (res: Result<ConsensusCommitPrologue, ParseError>) {
        let epoch = r.u64()?;
        let round = r.u64()?;
        let commit_timestamp_ms = r.u64()?;
        r.check();
        Ok(ConsensusCommitPrologue { epoch, round, commit_timestamp_ms })
    }
}

impl ConsensusCommitPrologue {
    pub fn parse(r: &mut Reader) -> (res: Result<ConsensusCommitPrologue, ParseError>)
        ensures
            crate::wire::parsed(*old(r), *final(r), res),
    {
        <ConsensusCommitPrologue as Wire>::parse(r)
    }
}

#[derive(Clone, Copy, PartialEq, Eq, Debug)]
pub struct ConsensusCommitPrologueV2 {
    pub epoch: u64,
    pub round: u64,
    pub commit_timestamp_ms: u64,
    pub consensus_commit_digest: Digest,
}

impl Wire for ConsensusCommitPrologueV2 {
    open spec fn rec(s: Seq<u8>, st: St) -> Rec {
        then(sp_bytes(s, st, 24), |st1: St| Digest::rec(s, st1))
    }

    open spec fn enc(self) -> Seq<u8> {
        self.epoch.enc() + self.round.enc() + self.commit_timestamp_ms.enc()
            + self.consensus_commit_digest.enc()
    }

    fn parse(r: &mut Reader) -> (res: Result<ConsensusCommitPrologueV2, ParseError>) {
        let epoch = r.u64()?;
        let round = r.u64()?;
        let commit_timestamp_ms = r.u64()?;
        let consensus_commit_digest = Digest::parse(r)?;
        r.check();
        Ok(ConsensusCommitPrologueV2 { epoch, round, commit_timestamp_ms, consensus_commit_digest })
    }
}

impl ConsensusCommitPrologueV2 {
    pub fn parse(r: &mut Reader) -> (res: Result<ConsensusCommitPrologueV2, ParseError>)
        ensures
            crate::wire::parsed(*old(r), *final(r), res),
    {
        <ConsensusCommitPrologueV2 as Wire>::parse(r)
    }
}

/// An object of a cancelled transaction and the version assigned to it.
/// `start_version` tells apart the successive consensus streams of one id.
#[derive(Clone, Copy, PartialEq, Eq, Debug)]
pub struct ConsensusObjectVersion {
    pub id: ObjectId,
    pub start_version: U64Le,
    pub version: U64Le,
}

impl Wire for ConsensusObjectVersion {
    open spec fn rec(s: Seq<u8>, st: St) -> Rec {
        sp_bytes(s, st, 48)
    }

    open spec fn enc(self) -> Seq<u8> {
        self.id.0@ + self.start_version.0@ + self.version.0@
    }

    fn parse(r: &mut Reader) -> (res: Result<ConsensusObjectVersion, ParseError>) {
        let b = r.bytes(48)?;
        let v = ConsensusObjectVersion {
            id: ObjectId(crate::bytes::array_at::<32>(b, 0)),
            start_version: U64Le(crate::bytes::array_at::<8>(b, 32)),
            version: U64Le(crate::bytes::array_at::<8>(b, 40)),
        };
        assert(v.enc() =~= b@);
        Ok(v)
    }
}

impl Wire for Vec<ConsensusObjectVersion> {
    open spec fn rec(s: Seq<u8>, st: St) -> Rec {
        sp_records::<ConsensusObjectVersion>(s, st, 48)
    }

    open spec fn enc(self) -> Seq<u8> {
        enc_seq(self@)
    }

    fn parse(r: &mut Reader) -> (res: Result<Vec<ConsensusObjectVersion>, ParseError>) {
        parse_records::<ConsensusObjectVersion>(r, 48)
    }
}

#[derive(Clone, PartialEq, Eq, Debug)]
pub enum ConsensusDeterminedVersionAssignments {
    CancelledTransactions(Vec<(Digest, Vec<ObjectKey>)>),
    CancelledTransactionsV2(Vec<(Digest, Vec<ConsensusObjectVersion>)>),
}

impl Wire for ConsensusDeterminedVersionAssignments {
    /// Each entry at least a digest and a length.
    open spec fn rec(s: Seq<u8>, st: St) -> Rec {
        nested(
            st,
            |st1: St|
                match sp_uleb(s, st1) {
                    Ok((tag, st2)) => if tag == 0 {
                        sp_seq::<(Digest, Vec<ObjectKey>)>(s, st2, 34)
                    } else if tag == 1 {
                        sp_seq::<(Digest, Vec<ConsensusObjectVersion>)>(s, st2, 34)
                    } else {
                        Err(unknown("ConsensusDeterminedVersionAssignments", tag))
                    },
                    Err(e) => Err(e),
                },
        )
    }

    open spec fn enc(self) -> Seq<u8> {
        match self {
            ConsensusDeterminedVersionAssignments::CancelledTransactions(v) => enc_uleb(0)
                + enc_seq(v@),
            ConsensusDeterminedVersionAssignments::CancelledTransactionsV2(v) => enc_uleb(1)
                + enc_seq(v@),
        }
    }

    fn parse(r: &mut Reader) -> (res: Result<ConsensusDeterminedVersionAssignments, ParseError>) {
        r.enter()?;
        let v = match r.variant()? {
            0 => ConsensusDeterminedVersionAssignments::CancelledTransactions(
                parse_seq::<(Digest, Vec<ObjectKey>)>(r, 34)?,
            ),
            1 => ConsensusDeterminedVersionAssignments::CancelledTransactionsV2(
                parse_seq::<(Digest, Vec<ConsensusObjectVersion>)>(r, 34)?,
            ),
            tag => {
                return Err(
                    ParseError::UnknownVariant { ty: "ConsensusDeterminedVersionAssignments", tag },
                );
            },
        };
        r.check();
        r.leave();
        Ok(v)
    }
}

impl ConsensusDeterminedVersionAssignments {
    pub fn parse(r: &mut Reader) -> (res: Result<ConsensusDeterminedVersionAssignments, ParseError>)
        ensures
            crate::wire::parsed(*old(r), *final(r), res),
    {
        <ConsensusDeterminedVersionAssignments as Wire>::parse(r)
    }
}

#[derive(Clone, PartialEq, Eq, Debug)]
pub struct ConsensusCommitPrologueV3 {
    pub epoch: u64,
    pub round: u64,
    pub sub_dag_index: Option<u64>,
    pub commit_timestamp_ms: u64,
    pub consensus_commit_digest: Digest,
    pub consensus_determined_version_assignments: ConsensusDeterminedVersionAssignments,
}

/// The fields the third and fourth prologues share.
pub open spec fn rec_prologue_common(s: Seq<u8>, st: St) -> Rec {
    then(
        rec4::<u64, u64, Option<u64>, u64>(s, st),
        |st1: St| rec2::<Digest, ConsensusDeterminedVersionAssignments>(s, st1),
    )
}

fn parse_prologue_common(r: &mut Reader) -> (res: Result<
    (u64, u64, Option<u64>, u64, Digest, ConsensusDeterminedVersionAssignments),
    ParseError,
>)
    ensures
        final(r).data() == old(r).data(),
        crate::reader::done(
            old(r).st(),
            rec_prologue_common(old(r).data(), old(r).st()),
            res,
            final(r).st(),
        ),
        res matches Ok((a, b, c, d, e, f)) ==> a.enc() + b.enc() + c.enc() + d.enc() + e.enc()
            + f.enc() == span(old(r).data(), old(r).st(), final(r).st()),
{
    let epoch = r.u64()?;
    let round = r.u64()?;
    let sub_dag_index = Option::<u64>::parse(r)?;
    let commit_timestamp_ms = r.u64()?;
    let consensus_commit_digest = Digest::parse(r)?;
    let assignments = ConsensusDeterminedVersionAssignments::parse(r)?;
    r.check();
    Ok((epoch, round, sub_dag_index, commit_timestamp_ms, consensus_commit_digest, assignments))
}

impl Wire for ConsensusCommitPrologueV3 {
    open spec fn rec(s: Seq<u8>, st: St) -> Rec {
        nested(st, |st1: St| rec_prologue_common(s, st1))
    }

    open spec fn enc(self) -> Seq<u8> {
        self.epoch.enc() + self.round.enc() + self.sub_dag_index.enc()
            + self.commit_timestamp_ms.enc() + self.consensus_commit_digest.enc()
            + self.consensus_determined_version_assignments.enc()
    }

    fn parse(r: &mut Reader) -> (res: Result<ConsensusCommitPrologueV3, ParseError>) {
        r.enter()?;
        let (epoch, round, sub_dag_index, commit_timestamp_ms, consensus_commit_digest, a) =
            parse_prologue_common(r)?;
        r.check();
        r.leave();
        Ok(
            ConsensusCommitPrologueV3 {
                epoch,
                round,
                sub_dag_index,
                commit_timestamp_ms,
                consensus_commit_digest,
                consensus_determined_version_assignments: a,
            },
        )
    }
}

impl ConsensusCommitPrologueV3 {
    pub fn parse(r: &mut Reader) -> (res: Result<ConsensusCommitPrologueV3, ParseError>)
        ensures
            crate::wire::parsed(*old(r), *final(r), res),
    {
        <ConsensusCommitPrologueV3 as Wire>::parse(r)
    }
}

#[derive(Clone, PartialEq, Eq, Debug)]
pub struct ConsensusCommitPrologueV4 {
    pub epoch: u64,
    pub round: u64,
    pub sub_dag_index: Option<u64>,
    pub commit_timestamp_ms: u64,
    pub consensus_commit_digest: Digest,
    pub consensus_determined_version_assignments: ConsensusDeterminedVersionAssignments,
    pub additional_state_digest: Digest,
}

impl Wire for ConsensusCommitPrologueV4 {
    open spec fn rec(s: Seq<u8>, st: St) -> Rec {
        nested(st, |st1: St| then(rec_prologue_common(s, st1), |st2: St| Digest::rec(s, st2)))
    }

    open spec fn enc(self) -> Seq<u8> {
        self.epoch.enc() + self.round.enc() + self.sub_dag_index.enc()
            + self.commit_timestamp_ms.enc() + self.consensus_commit_digest.enc()
            + self.consensus_determined_version_assignments.enc()
            + self.additional_state_digest.enc()
    }

    fn parse(r: &mut Reader) -> (res: Result<ConsensusCommitPrologueV4, ParseError>) {
        r.enter()?;
        let (epoch, round, sub_dag_index, commit_timestamp_ms, consensus_commit_digest, a) =
            parse_prologue_common(r)?;
        let additional_state_digest = Digest::parse(r)?;
        r.check();
        r.leave();
        Ok(
            ConsensusCommitPrologueV4 {
                epoch,
                round,
                sub_dag_index,
                commit_timestamp_ms,
                consensus_commit_digest,
                consensus_determined_version_assignments: a,
                additional_state_digest,
            },
        )
    }
}

impl ConsensusCommitPrologueV4 {
    pub fn parse(r: &mut Reader) -> (res: Result<ConsensusCommitPrologueV4, ParseError>)
        ensures
            crate::wire::parsed(*old(r), *final(r), res),
    {
        <ConsensusCommitPrologueV4 as Wire>::parse(r)
    }
}

#[derive(Clone, PartialEq, Eq, Debug)]
pub struct JwkId {
    pub iss: String,
    pub kid: String,
}

#[derive(Clone, PartialEq, Eq, Debug)]
pub struct Jwk {
    pub kty: String,
    pub e: String,
    pub n: String,
    pub alg: String,
}

#[derive(Clone, PartialEq, Eq, Debug)]
pub struct ActiveJwk {
    pub jwk_id: JwkId,
    pub jwk: Jwk,
    pub epoch: u64,
}

impl Wire for ActiveJwk {
    open spec fn rec(s: Seq<u8>, st: St) -> Rec {
        then(
            rec3::<String, String, String>(s, st),
            |st1: St| rec4::<String, String, String, u64>(s, st1),
        )
    }

    open spec fn enc(self) -> Seq<u8> {
        self.jwk_id.iss.enc() + self.jwk_id.kid.enc() + self.jwk.kty.enc() + self.jwk.e.enc()
            + self.jwk.n.enc() + self.jwk.alg.enc() + self.epoch.enc()
    }

    fn parse(r: &mut Reader) -> (res: Result<ActiveJwk, ParseError>) {
        let iss = r.string()?;
        let kid = r.string()?;
        let kty = r.string()?;
        let e = r.string()?;
        let n = r.string()?;
        let alg = r.string()?;
        let epoch = r.u64()?;
        r.check();
        Ok(ActiveJwk { jwk_id: JwkId { iss, kid }, jwk: Jwk { kty, e, n, alg }, epoch })
    }
}

#[derive(Clone, PartialEq, Eq, Debug)]
pub struct AuthenticatorStateUpdate {
    pub epoch: u64,
    pub round: u64,
    pub new_active_jwks: Vec<ActiveJwk>,
    pub authenticator_obj_initial_shared_version: SequenceNumber,
}

impl Wire for AuthenticatorStateUpdate {
    /// Each key at least six lengths and an epoch.
    open spec fn rec(s: Seq<u8>, st: St) -> Rec {
        nested(
            st,
            |st1: St|
                then(
                    rec2::<u64, u64>(s, st1),
                    |st2: St| then(sp_seq::<ActiveJwk>(s, st2, 14), |st3: St| u64::rec(s, st3)),
                ),
        )
    }

    open spec fn enc(self) -> Seq<u8> {
        self.epoch.enc() + self.round.enc() + enc_seq(self.new_active_jwks@)
            + self.authenticator_obj_initial_shared_version.enc()
    }

    fn parse(r: &mut Reader) -> (res: Result<AuthenticatorStateUpdate, ParseError>) {
        r.enter()?;
        let epoch = r.u64()?;
        let round = r.u64()?;
        let new_active_jwks = parse_seq::<ActiveJwk>(r, 14)?;
        let authenticator_obj_initial_shared_version = r.u64()?;
        r.check();
        r.leave();
        Ok(
            AuthenticatorStateUpdate {
                epoch,
                round,
                new_active_jwks,
                authenticator_obj_initial_shared_version,
            },
        )
    }
}

impl AuthenticatorStateUpdate {
    pub fn parse(r: &mut Reader) -> (res: Result<AuthenticatorStateUpdate, ParseError>)
        ensures
            crate::wire::parsed(*old(r), *final(r), res),
    {
        <AuthenticatorStateUpdate as Wire>::parse(r)
    }
}

#[derive(Clone, PartialEq, Eq, Debug)]
pub struct RandomnessStateUpdate {
    pub epoch: u64,
    pub randomness_round: u64,
    pub random_bytes: Vec<u8>,
    pub randomness_obj_initial_shared_version: SequenceNumber,
}

impl Wire for RandomnessStateUpdate {
    open spec fn rec(s: Seq<u8>, st: St) -> Rec {
        rec4::<u64, u64, Vec<u8>, u64>(s, st)
    }

    open spec fn enc(self) -> Seq<u8> {
        self.epoch.enc() + self.randomness_round.enc() + self.random_bytes.enc()
            + self.randomness_obj_initial_shared_version.enc()
    }

    fn parse(r: &mut Reader) -> (res: Result<RandomnessStateUpdate, ParseError>) {
        let epoch = r.u64()?;
        let randomness_round = r.u64()?;
        let random_bytes = r.byte_vec_owned()?;
        let randomness_obj_initial_shared_version = r.u64()?;
        r.check();
        Ok(
            RandomnessStateUpdate {
                epoch,
                randomness_round,
                random_bytes,
                randomness_obj_initial_shared_version,
            },
        )
    }
}

impl RandomnessStateUpdate {
    pub fn parse(r: &mut Reader) -> (res: Result<RandomnessStateUpdate, ParseError>)
        ensures
            crate::wire::parsed(*old(r), *final(r), res),
    {
        <RandomnessStateUpdate as Wire>::parse(r)
    }
}

#[derive(PartialEq, Eq, Debug)]
pub enum ExecutionTimeObservationKey {
    MoveEntryPoint {
        package: ObjectId,
        module: String,
        function: String,
        type_arguments: Vec<TypeTag>,
    },
    TransferObjects,
    SplitCoins,
    MergeCoins,
    Publish,
    MakeMoveVec,
    Upgrade,
}

/// A package, a module and a function, then type arguments.
pub open spec fn rec_entry_point(s: Seq<u8>, st: St) -> Rec {
    then(rec3::<ObjectId, String, String>(s, st), |st1: St| rec_tt_vec(s, st1))
}

pub fn parse_entry_point(r: &mut Reader) -> (res: Result<(ObjectId, String, String, Vec<TypeTag>), ParseError>)
    ensures
        final(r).data() == old(r).data(),
        crate::reader::done(old(r).st(), rec_entry_point(old(r).data(), old(r).st()), res, final(r).st()),
        res matches Ok((p, m, f, t)) ==> p.enc() + m.enc() + f.enc() + enc_uleb(t@.len() as u32)
            + enc_tt_list(t@) == span(old(r).data(), old(r).st(), final(r).st()),
{
    let ghost s = r.data();
    let ghost st0 = r.st();
    let package = ObjectId::parse(r)?;
    let module = r.string()?;
    let function = r.string()?;
    let ghost st1 = r.st();
    let type_arguments = TypeTag::parse_vec(r)?;
    r.check();
    proof {
        assert(span(s, st0, r.st()) == span(s, st0, st1) + span(s, st1, r.st()));
    }
    Ok((package, module, function, type_arguments))
}

impl Wire for ExecutionTimeObservationKey {
    open spec fn rec(s: Seq<u8>, st: St) -> Rec {
        nested(
            st,
            |st1: St|
                match sp_uleb(s, st1) {
                    Ok((tag, st2)) => if tag == 0 {
                        rec_entry_point(s, st2)
                    } else if tag <= 6 {
                        Ok(st2)
                    } else {
                        Err(unknown("ExecutionTimeObservationKey", tag))
                    },
                    Err(e) => Err(e),
                },
        )
    }

    open spec fn enc(self) -> Seq<u8> {
        match self {
            ExecutionTimeObservationKey::MoveEntryPoint {
                package,
                module,
                function,
                type_arguments,
            } => enc_uleb(0) + package.enc() + module.enc() + function.enc() + enc_uleb(
                type_arguments@.len() as u32,
            ) + enc_tt_list(type_arguments@),
            ExecutionTimeObservationKey::TransferObjects => enc_uleb(1),
            ExecutionTimeObservationKey::SplitCoins => enc_uleb(2),
            ExecutionTimeObservationKey::MergeCoins => enc_uleb(3),
            ExecutionTimeObservationKey::Publish => enc_uleb(4),
            ExecutionTimeObservationKey::MakeMoveVec => enc_uleb(5),
            ExecutionTimeObservationKey::Upgrade => enc_uleb(6),
        }
    }

    #[verifier::spinoff_prover]
    #[verifier::rlimit(40)]
    fn parse(r: &mut Reader) -> (res: Result<ExecutionTimeObservationKey, ParseError>) {
        let ghost s = r.data();
        r.enter()?;
        let ghost st1 = r.st();
        let tag = r.variant()?;
        let ghost st2 = r.st();
        let key = if tag == 0 {
            let (package, module, function, type_arguments) = parse_entry_point(r)?;
            ExecutionTimeObservationKey::MoveEntryPoint { package, module, function, type_arguments }
        } else if tag == 1 {
            ExecutionTimeObservationKey::TransferObjects
        } else if tag == 2 {
            ExecutionTimeObservationKey::SplitCoins
        } else if tag == 3 {
            ExecutionTimeObservationKey::MergeCoins
        } else if tag == 4 {
            ExecutionTimeObservationKey::Publish
        } else if tag == 5 {
            ExecutionTimeObservationKey::MakeMoveVec
        } else if tag == 6 {
            ExecutionTimeObservationKey::Upgrade
        } else {
            return Err(ParseError::UnknownVariant { ty: "ExecutionTimeObservationKey", tag });
        };
        r.check();
        let ghost st3 = r.st();
        proof {
            assert(span(s, st1, st3) == span(s, st1, st2) + span(s, st2, st3));
            assert(key.enc() == span(s, st1, st3));
        }
        r.leave();
        Ok(key)
    }
}

impl ExecutionTimeObservationKey {
    pub fn parse(r: &mut Reader) -> (res: Result<ExecutionTimeObservationKey, ParseError>)
        ensures
            crate::wire::parsed(*old(r), *final(r), res),
    {
        <ExecutionTimeObservationKey as Wire>::parse(r)
    }
}

/// One authority's measurement: its name and a `Duration`. Whether the
/// duration is representable is not checked here.
#[derive(Clone, Copy, PartialEq, Eq, Debug)]
pub struct AuthorityObservation {
    pub authority: AuthorityName,
    pub secs: U64Le,
    pub nanos: U32Le,
}

impl Wire for AuthorityObservation {
    open spec fn rec(s: Seq<u8>, st: St) -> Rec {
        then(
            sp_bytes(s, st, 109),
            |st1: St| sp_len_byte(s, st.pos, "AuthorityPublicKeyBytes", 96, st1),
        )
    }

    open spec fn enc(self) -> Seq<u8> {
        self.authority.enc() + self.secs.0@ + self.nanos.0@
    }

    fn parse(r: &mut Reader) -> (res: Result<AuthorityObservation, ParseError>) {
        let b = r.bytes(109)?;
        let len = b[0];
        if len != 96 {
            return Err(
                ParseError::WrongLength {
                    ty: "AuthorityPublicKeyBytes",
                    expected: 96,
                    actual: len as u32,
                },
            );
        }
        let o = AuthorityObservation {
            authority: AuthorityName { bytes: crate::bytes::array_at::<96>(b, 1) },
            secs: U64Le(crate::bytes::array_at::<8>(b, 97)),
            nanos: U32Le(crate::bytes::array_at::<4>(b, 105)),
        };
        assert(o.enc() =~= b@);
        Ok(o)
    }
}

impl Wire for Vec<AuthorityObservation> {
    open spec fn rec(s: Seq<u8>, st: St) -> Rec {
        sp_records::<AuthorityObservation>(s, st, 109)
    }

    open spec fn enc(self) -> Seq<u8> {
        enc_seq(self@)
    }

    fn parse(r: &mut Reader) -> (res: Result<Vec<AuthorityObservation>, ParseError>) {
        parse_records::<AuthorityObservation>(r, 109)
    }
}

/// `StoredExecutionTimeObservations::V1`, the only version.
#[derive(PartialEq, Eq, Debug)]
pub struct StoredExecutionTimeObservations(
    pub Vec<(ExecutionTimeObservationKey, Vec<AuthorityObservation>)>,
);

impl Wire for StoredExecutionTimeObservations {
    /// Each entry at least a unit key and a length.
    open spec fn rec(s: Seq<u8>, st: St) -> Rec {
        nested(
            st,
            |st1: St|
                match sp_uleb(s, st1) {
                    Ok((tag, st2)) => if tag == 0 {
                        sp_seq::<(ExecutionTimeObservationKey, Vec<AuthorityObservation>)>(
                            s,
                            st2,
                            2,
                        )
                    } else {
                        Err(unknown("StoredExecutionTimeObservations", tag))
                    },
                    Err(e) => Err(e),
                },
        )
    }

    open spec fn enc(self) -> Seq<u8> {
        enc_uleb(0) + enc_seq(self.0@)
    }

    fn parse(r: &mut Reader) -> (res: Result<StoredExecutionTimeObservations, ParseError>) {
        r.enter()?;
        let tag = r.variant()?;
        if tag != 0 {
            return Err(ParseError::UnknownVariant { ty: "StoredExecutionTimeObservations", tag });
        }
        let v = parse_seq::<(ExecutionTimeObservationKey, Vec<AuthorityObservation>)>(r, 2)?;
        r.check();
        r.leave();
        Ok(StoredExecutionTimeObservations(v))
    }
}

impl StoredExecutionTimeObservations {
    pub fn parse(r: &mut Reader) -> (res: Result<StoredExecutionTimeObservations, ParseError>)
        ensures
            crate::wire::parsed(*old(r), *final(r), res),
    {
        <StoredExecutionTimeObservations as Wire>::parse(r)
    }
}

#[derive(PartialEq, Eq, Debug)]
pub enum EndOfEpochTransactionKind {
    ChangeEpoch(ChangeEpoch),
    AuthenticatorStateCreate,
    AuthenticatorStateExpire { min_epoch: u64, authenticator_obj_initial_shared_version: SequenceNumber },
    RandomnessStateCreate,
    DenyListStateCreate,
    BridgeStateCreate(Digest),
    BridgeCommitteeInit(SequenceNumber),
    StoreExecutionTimeObservations(StoredExecutionTimeObservations),
    AccumulatorRootCreate,
    CoinRegistryCreate,
    DisplayRegistryCreate,
    AddressAliasStateCreate,
    WriteAccumulatorStorageCost { storage_cost: u64 },
    ForwardingAddressRegistryCreate,
}

impl EndOfEpochTransactionKind {
    pub const MIN_WIRE_SIZE: usize = 1;
}

/// The fields after each variant index of `EndOfEpochTransactionKind`.
pub open spec fn rec_end_of_epoch_fields(s: Seq<u8>, st: St, tag: u32) -> Rec {
    if tag == 0 {
        ChangeEpoch::rec(s, st)
    } else if tag == 2 {
        rec2::<u64, u64>(s, st)
    } else if tag == 5 {
        Digest::rec(s, st)
    } else if tag == 6 || tag == 12 {
        u64::rec(s, st)
    } else if tag == 7 {
        StoredExecutionTimeObservations::rec(s, st)
    } else if tag <= 13 {
        Ok(st)
    } else {
        Err(unknown("EndOfEpochTransactionKind", tag))
    }
}

impl Wire for EndOfEpochTransactionKind {
    open spec fn rec(s: Seq<u8>, st: St) -> Rec {
        nested(
            st,
            |st1: St|
                match sp_uleb(s, st1) {
                    Ok((tag, st2)) => rec_end_of_epoch_fields(s, st2, tag),
                    Err(e) => Err(e),
                },
        )
    }

    open spec fn enc(self) -> Seq<u8> {
        match self {
            EndOfEpochTransactionKind::ChangeEpoch(c) => enc_uleb(0) + c.enc(),
            EndOfEpochTransactionKind::AuthenticatorStateCreate => enc_uleb(1),
            EndOfEpochTransactionKind::AuthenticatorStateExpire {
                min_epoch,
                authenticator_obj_initial_shared_version,
            } => enc_uleb(2) + min_epoch.enc() + authenticator_obj_initial_shared_version.enc(),
            EndOfEpochTransactionKind::RandomnessStateCreate => enc_uleb(3),
            EndOfEpochTransactionKind::DenyListStateCreate => enc_uleb(4),
            EndOfEpochTransactionKind::BridgeStateCreate(d) => enc_uleb(5) + d.enc(),
            EndOfEpochTransactionKind::BridgeCommitteeInit(v) => enc_uleb(6) + v.enc(),
            EndOfEpochTransactionKind::StoreExecutionTimeObservations(o) => enc_uleb(7) + o.enc(),
            EndOfEpochTransactionKind::AccumulatorRootCreate => enc_uleb(8),
            EndOfEpochTransactionKind::CoinRegistryCreate => enc_uleb(9),
            EndOfEpochTransactionKind::DisplayRegistryCreate => enc_uleb(10),
            EndOfEpochTransactionKind::AddressAliasStateCreate => enc_uleb(11),
            EndOfEpochTransactionKind::WriteAccumulatorStorageCost { storage_cost } => enc_uleb(12)
                + storage_cost.enc(),
            EndOfEpochTransactionKind::ForwardingAddressRegistryCreate => enc_uleb(13),
        }
    }

    fn parse(r: &mut Reader) -> (res: Result<EndOfEpochTransactionKind, ParseError>) {
        r.enter()?;
        let kind = match r.variant()? {
            0 => EndOfEpochTransactionKind::ChangeEpoch(ChangeEpoch::parse(r)?),
            1 => EndOfEpochTransactionKind::AuthenticatorStateCreate,
            2 => {
                let min_epoch = r.u64()?;
                let authenticator_obj_initial_shared_version = r.u64()?;
                EndOfEpochTransactionKind::AuthenticatorStateExpire {
                    min_epoch,
                    authenticator_obj_initial_shared_version,
                }
            },
            3 => EndOfEpochTransactionKind::RandomnessStateCreate,
            4 => EndOfEpochTransactionKind::DenyListStateCreate,
            5 => EndOfEpochTransactionKind::BridgeStateCreate(Digest::parse(r)?),
            6 => EndOfEpochTransactionKind::BridgeCommitteeInit(r.u64()?),
            7 => EndOfEpochTransactionKind::StoreExecutionTimeObservations(
                StoredExecutionTimeObservations::parse(r)?,
            ),
            8 => EndOfEpochTransactionKind::AccumulatorRootCreate,
            9 => EndOfEpochTransactionKind::CoinRegistryCreate,
            10 => EndOfEpochTransactionKind::DisplayRegistryCreate,
            11 => EndOfEpochTransactionKind::AddressAliasStateCreate,
            12 => EndOfEpochTransactionKind::WriteAccumulatorStorageCost { storage_cost: r.u64()? },
            13 => EndOfEpochTransactionKind::ForwardingAddressRegistryCreate,
            tag => {
                return Err(ParseError::UnknownVariant { ty: "EndOfEpochTransactionKind", tag });
            },
        };
        r.check();
        r.leave();
        Ok(kind)
    }
}

impl EndOfEpochTransactionKind {
    pub fn parse(r: &mut Reader) -> (res: Result<EndOfEpochTransactionKind, ParseError>)
        ensures
            crate::wire::parsed(*old(r), *final(r), res),
    {
        <EndOfEpochTransactionKind as Wire>::parse(r)
    }
}

} // verus!
