//! Checkpoints: summaries, their certificates, and contents.
use vstd::prelude::*;
use crate::base::{AuthorityName, Digest, U64Le, sp_len_byte, blake2b256, hashed_bytes};
use crate::effects::{GasCostSummary, TransactionEffects, TransactionEvents, rec3};
use crate::error::ParseError;
use crate::execution_status::{rec2, unknown};
use crate::object::Object;
use crate::reader::{Reader, St, Rec, then, span, nested, sp_uleb, sp_bytes, lemma_span_join, MAX_SEQUENCE_LENGTH};
use crate::transaction::{GenericSignature, SenderSignedData, rec_sender_signed};
use crate::wire::{Wire, enc_uleb, enc_seq, sp_records, sp_seq, parse_records, parse_seq, StringSliceAdditionalSpecFns};

verus! {

broadcast use {Reader::lemma_st_nonneg, lemma_span_join};

#[derive(Clone, Copy, PartialEq, Eq, Structural, Debug)]
pub enum CheckpointCommitmentKind {
    EcmhLiveObjectSetDigest,
    CheckpointArtifactsDigest,
}

/// `CheckpointCommitment`: both variants are a variant index and a digest.
#[derive(Clone, Copy, PartialEq, Eq, Debug)]
pub struct CheckpointCommitment {
    pub kind: CheckpointCommitmentKind,
    pub digest: Digest,
}

impl CheckpointCommitment {
    pub fn kind(&self) -> (k: CheckpointCommitmentKind)
        ensures
            k == self.kind,
    {
        self.kind
    }

    /// A length-prefixed sequence of commitments.
    pub fn parse_vec(r: &mut Reader) -> (res: Result<Vec<CheckpointCommitment>, ParseError>)
        ensures
            final(r).data() == old(r).data(),
            crate::reader::done(
                old(r).st(),
                sp_records::<CheckpointCommitment>(old(r).data(), old(r).st(), 34),
                res,
                final(r).st(),
            ),
            res matches Ok(v) ==> enc_seq(v@) == span(old(r).data(), old(r).st(), final(r).st()),
            res matches Ok(v) ==> v@.len() <= MAX_SEQUENCE_LENGTH,
    {
        parse_records::<CheckpointCommitment>(r, 34)
    }
}

impl Wire for CheckpointCommitment {
    open spec fn rec(s: Seq<u8>, st: St) -> Rec {
        match sp_bytes(s, st, 34) {
            Ok(st1) => if s[st.pos] > 1 {
                Err(unknown("CheckpointCommitment", s[st.pos] as u32))
            } else {
                sp_len_byte(s, st.pos + 1, "Digest", 32, st1)
            },
            Err(e) => Err(e),
        }
    }

    open spec fn enc(self) -> Seq<u8> {
        seq![
            match self.kind {
                CheckpointCommitmentKind::EcmhLiveObjectSetDigest => 0u8,
                CheckpointCommitmentKind::CheckpointArtifactsDigest => 1u8,
            },
        ] + self.digest.enc()
    }

    fn parse(r: &mut Reader) -> (res: Result<CheckpointCommitment, ParseError>) {
        let b = r.bytes(34)?;
        let k = b[0];
        if k > 1 {
            return Err(ParseError::UnknownVariant { ty: "CheckpointCommitment", tag: k as u32 });
        }
        let len = b[1];
        if len != 32 {
            return Err(ParseError::WrongLength { ty: "Digest", expected: 32, actual: len as u32 });
        }
        let kind = if k == 0 {
            CheckpointCommitmentKind::EcmhLiveObjectSetDigest
        } else {
            CheckpointCommitmentKind::CheckpointArtifactsDigest
        };
        let c = CheckpointCommitment {
            kind,
            digest: Digest { bytes: crate::bytes::array_at::<32>(b, 2) },
        };
        assert(c.enc() =~= b@);
        Ok(c)
    }
}

/// A `nextEpochCommittee` entry.
#[derive(Clone, Copy, PartialEq, Eq, Debug)]
pub struct CommitteeMember {
    pub authority: AuthorityName,
    pub stake: U64Le,
}

impl Wire for CommitteeMember {
    open spec fn rec(s: Seq<u8>, st: St) -> Rec {
        then(sp_bytes(s, st, 105), |st1: St| sp_len_byte(s, st.pos, "AuthorityPublicKeyBytes", 96, st1))
    }

    open spec fn enc(self) -> Seq<u8> {
        self.authority.enc() + self.stake.0@
    }

    fn parse(r: &mut Reader) -> (res: Result<CommitteeMember, ParseError>) {
        let b = r.bytes(105)?;
        let len = b[0];
        if len != 96 {
            return Err(
                ParseError::WrongLength { ty: "AuthorityPublicKeyBytes", expected: 96, actual: len as u32 },
            );
        }
        let m = CommitteeMember {
            authority: AuthorityName { bytes: crate::bytes::array_at::<96>(b, 1) },
            stake: U64Le(crate::bytes::array_at::<8>(b, 97)),
        };
        assert(m.enc() =~= b@);
        Ok(m)
    }
}

#[derive(Clone, PartialEq, Eq, Debug)]
pub struct EndOfEpochData {
    pub next_epoch_committee: Vec<CommitteeMember>,
    pub next_epoch_protocol_version: u64,
    pub epoch_commitments: Vec<CheckpointCommitment>,
}

impl Wire for EndOfEpochData {
    open spec fn rec(s: Seq<u8>, st: St) -> Rec {
        then(
            sp_records::<CommitteeMember>(s, st, 105),
            |st1: St| then(u64::rec(s, st1), |st2: St| sp_records::<CheckpointCommitment>(s, st2, 34)),
        )
    }

    open spec fn enc(self) -> Seq<u8> {
        enc_seq(self.next_epoch_committee@) + self.next_epoch_protocol_version.enc() + enc_seq(
            self.epoch_commitments@,
        )
    }

    /// Both lists within the reader's length limit.
    open spec fn well_formed(self) -> bool {
        crate::accept::legal_end_of_epoch(self)
    }

    fn parse(r: &mut Reader) -> (res: Result<EndOfEpochData, ParseError>) {
        let next_epoch_committee = parse_records::<CommitteeMember>(r, 105)?;
        let next_epoch_protocol_version = r.u64()?;
        let epoch_commitments = CheckpointCommitment::parse_vec(r)?;
        r.check();
        Ok(EndOfEpochData { next_epoch_committee, next_epoch_protocol_version, epoch_commitments })
    }
}

#[derive(Clone, PartialEq, Eq, Debug)]
pub struct CheckpointSummary {
    /// The exact encoding, which is what gets hashed and signed.
    pub bytes: Vec<u8>,
    /// Computed once, from `bytes`, while parsing.
    pub digest: Digest,
    pub epoch: u64,
    pub sequence_number: u64,
    pub network_total_transactions: u64,
    pub content_digest: Digest,
    pub previous_digest: Option<Digest>,
    pub epoch_rolling_gas_cost_summary: GasCostSummary,
    pub timestamp_ms: u64,
    pub checkpoint_commitments: Vec<CheckpointCommitment>,
    pub end_of_epoch_data: Option<EndOfEpochData>,
    pub version_specific_data: Vec<u8>,
}

impl CheckpointSummary {
    /// What the parser derives: the bytes are the encoding and the digest is
    /// that of the bytes.
    pub open spec fn derived(self) -> bool {
        &&& self.bytes@ == self.enc()
        &&& self.digest.bytes@ == blake2b256(hashed_bytes("CheckpointSummary".spec_bytes(), self.bytes@))
    }
}

/// The summary's fields up to its gas cost summary.
pub open spec fn rec_summary_head(s: Seq<u8>, st: St) -> Rec {
    then(
        sp_bytes(s, st, 24),
        |st1: St| rec3::<Digest, Option<Digest>, GasCostSummary>(s, st1),
    )
}

/// The summary's fields after its gas cost summary.
pub open spec fn rec_summary_tail(s: Seq<u8>, st: St) -> Rec {
    then(
        u64::rec(s, st),
        |st1: St|
            then(
                sp_records::<CheckpointCommitment>(s, st1, 34),
                |st2: St| rec2::<Option<EndOfEpochData>, Vec<u8>>(s, st2),
            ),
    )
}

fn parse_summary_head(r: &mut Reader) -> (res: Result<(u64, u64, u64, Digest, Option<Digest>, GasCostSummary), ParseError>)
    ensures
        final(r).data() == old(r).data(),
        crate::reader::done(old(r).st(), rec_summary_head(old(r).data(), old(r).st()), res, final(r).st()),
        res matches Ok((a, b, c, d, e, f)) ==> a.enc() + b.enc() + c.enc() + d.enc() + e.enc()
            + f.enc() == span(old(r).data(), old(r).st(), final(r).st()),
{
    let epoch = r.u64()?;
    let sequence_number = r.u64()?;
    let network_total_transactions = r.u64()?;
    let content_digest = Digest::parse(r)?;
    let previous_digest = Option::<Digest>::parse(r)?;
    let gas = GasCostSummary::parse(r)?;
    r.check();
    Ok((epoch, sequence_number, network_total_transactions, content_digest, previous_digest, gas))
}

fn parse_summary_tail(r: &mut Reader) -> (res: Result<(u64, Vec<CheckpointCommitment>, Option<EndOfEpochData>, Vec<u8>), ParseError>)
    ensures
        final(r).data() == old(r).data(),
        crate::reader::done(old(r).st(), rec_summary_tail(old(r).data(), old(r).st()), res, final(r).st()),
        res matches Ok((a, b, c, d)) ==> a.enc() + enc_seq(b@) + c.enc() + d.enc() == span(
            old(r).data(),
            old(r).st(),
            final(r).st(),
        ),
        res matches Ok((a, b, c, d)) ==> b@.len() <= MAX_SEQUENCE_LENGTH && c.well_formed()
            && d@.len() <= MAX_SEQUENCE_LENGTH,
{
    let timestamp_ms = r.u64()?;
    let checkpoint_commitments = CheckpointCommitment::parse_vec(r)?;
    let end_of_epoch_data = Option::<EndOfEpochData>::parse(r)?;
    let version_specific_data = r.byte_vec_owned()?;
    r.check();
    Ok((timestamp_ms, checkpoint_commitments, end_of_epoch_data, version_specific_data))
}

impl Wire for CheckpointSummary {
    open spec fn rec(s: Seq<u8>, st: St) -> Rec {
        then(rec_summary_head(s, st), |st1: St| rec_summary_tail(s, st1))
    }

    open spec fn enc(self) -> Seq<u8> {
        self.epoch.enc() + self.sequence_number.enc() + self.network_total_transactions.enc()
            + self.content_digest.enc() + self.previous_digest.enc()
            + self.epoch_rolling_gas_cost_summary.enc() + self.timestamp_ms.enc() + enc_seq(
            self.checkpoint_commitments@,
        ) + self.end_of_epoch_data.enc() + self.version_specific_data.enc()
    }

    /// Its lists within the reader's length limit.
    open spec fn well_formed(self) -> bool {
        crate::accept::legal_summary(self)
    }

    #[verifier::spinoff_prover]
    #[verifier::rlimit(60)]
    fn parse(r: &mut Reader) -> (res: Result<CheckpointSummary, ParseError>)
        ensures
            res matches Ok(v) ==> v.derived(),
    {
        let ghost s = r.data();
        let ghost st0 = r.st();
        let start = r.pos();
        let (epoch, sequence_number, network_total_transactions, content_digest, previous_digest, gas) =
            parse_summary_head(r)?;
        let ghost st1 = r.st();
        let (timestamp_ms, checkpoint_commitments, end_of_epoch_data, version_specific_data) =
            parse_summary_tail(r)?;
        r.check();
        let ghost st2 = r.st();
        let bytes = vstd::slice::slice_to_vec(r.span(start));
        let digest = Digest::of("CheckpointSummary", bytes.as_slice());
        let v = CheckpointSummary {
            bytes,
            digest,
            epoch,
            sequence_number,
            network_total_transactions,
            content_digest,
            previous_digest,
            epoch_rolling_gas_cost_summary: gas,
            timestamp_ms,
            checkpoint_commitments,
            end_of_epoch_data,
            version_specific_data,
        };
        proof {
            assert(span(s, st0, st2) == span(s, st0, st1) + span(s, st1, st2));
        }
        Ok(v)
    }
}

impl CheckpointSummary {
    pub fn parse(r: &mut Reader) -> (res: Result<CheckpointSummary, ParseError>)
        ensures
            crate::wire::parsed(*old(r), *final(r), res),
            res matches Ok(v) ==> v.derived(),
    {
        <CheckpointSummary as Wire>::parse(r)
    }
}

/// The aggregate BLS signature is not checked to be a curve point, and the
/// signers bitmap is not decoded.
#[derive(Clone, PartialEq, Eq, Debug)]
pub struct AuthorityQuorumSignInfo {
    pub epoch: u64,
    pub signature: [u8; 48],
    /// A serialized roaring bitmap of committee indices.
    pub signers_map: Vec<u8>,
}

impl Wire for AuthorityQuorumSignInfo {
    open spec fn rec(s: Seq<u8>, st: St) -> Rec {
        then(sp_bytes(s, st, 56), |st1: St| Vec::<u8>::rec(s, st1))
    }

    open spec fn enc(self) -> Seq<u8> {
        self.epoch.enc() + self.signature@ + self.signers_map.enc()
    }

    fn parse(r: &mut Reader) -> (res: Result<AuthorityQuorumSignInfo, ParseError>) {
        let epoch = r.u64()?;
        let signature = r.array::<48>()?;
        let signers_map = r.byte_vec_owned()?;
        r.check();
        Ok(AuthorityQuorumSignInfo { epoch, signature, signers_map })
    }
}

/// `Envelope<CheckpointSummary, AuthorityQuorumSignInfo>`.
#[derive(Clone, PartialEq, Eq, Debug)]
pub struct CertifiedCheckpointSummary {
    /// The exact encoding, as it is stored and sent.
    pub bytes: Vec<u8>,
    pub data: CheckpointSummary,
    pub auth_signature: AuthorityQuorumSignInfo,
}

impl CertifiedCheckpointSummary {
    pub open spec fn derived(self) -> bool {
        &&& self.bytes@ == self.enc()
        &&& self.data.derived()
    }
}

impl Wire for CertifiedCheckpointSummary {
    open spec fn rec(s: Seq<u8>, st: St) -> Rec {
        rec2::<CheckpointSummary, AuthorityQuorumSignInfo>(s, st)
    }

    open spec fn enc(self) -> Seq<u8> {
        self.data.enc() + self.auth_signature.enc()
    }

    fn parse(r: &mut Reader) -> (res: Result<CertifiedCheckpointSummary, ParseError>)
        ensures
            res matches Ok(v) ==> v.derived(),
    {
        let start = r.pos();
        let data = CheckpointSummary::parse(r)?;
        let auth_signature = AuthorityQuorumSignInfo::parse(r)?;
        r.check();
        let bytes = vstd::slice::slice_to_vec(r.span(start));
        Ok(CertifiedCheckpointSummary { bytes, data, auth_signature })
    }
}

impl CertifiedCheckpointSummary {
    pub fn parse(r: &mut Reader) -> (res: Result<CertifiedCheckpointSummary, ParseError>)
        ensures
            crate::wire::parsed(*old(r), *final(r), res),
            res matches Ok(v) ==> v.derived(),
    {
        <CertifiedCheckpointSummary as Wire>::parse(r)
    }
}

#[derive(Clone, Copy, PartialEq, Eq, Debug)]
pub struct ExecutionDigests {
    pub transaction: Digest,
    pub effects: Digest,
}

impl Wire for ExecutionDigests {
    /// All 66 bytes, then the two length bytes in order.
    open spec fn rec(s: Seq<u8>, st: St) -> Rec {
        match sp_bytes(s, st, 66) {
            Ok(st1) => match sp_len_byte(s, st.pos, "Digest", 32, st1) {
                Ok(_) => sp_len_byte(s, st.pos + 33, "Digest", 32, st1),
                Err(e) => Err(e),
            },
            Err(e) => Err(e),
        }
    }

    open spec fn enc(self) -> Seq<u8> {
        self.transaction.enc() + self.effects.enc()
    }

    fn parse(r: &mut Reader) -> (res: Result<ExecutionDigests, ParseError>) {
        let b = r.bytes(66)?;
        let l0 = b[0];
        if l0 != 32 {
            return Err(ParseError::WrongLength { ty: "Digest", expected: 32, actual: l0 as u32 });
        }
        let l1 = b[33];
        if l1 != 32 {
            return Err(ParseError::WrongLength { ty: "Digest", expected: 32, actual: l1 as u32 });
        }
        let d = ExecutionDigests {
            transaction: Digest { bytes: crate::bytes::array_at::<32>(b, 1) },
            effects: Digest { bytes: crate::bytes::array_at::<32>(b, 34) },
        };
        assert(d.enc() =~= b@);
        Ok(d)
    }
}

/// `Vec<Vec<GenericSignature>>`.
#[derive(Clone, PartialEq, Eq, Debug)]
pub struct SignatureList(pub Vec<GenericSignature>);

impl Wire for SignatureList {
    open spec fn rec(s: Seq<u8>, st: St) -> Rec {
        sp_seq::<GenericSignature>(s, st, 1)
    }

    open spec fn enc(self) -> Seq<u8> {
        enc_seq(self.0@)
    }

    fn parse(r: &mut Reader) -> (res: Result<SignatureList, ParseError>) {
        Ok(SignatureList(GenericSignature::parse_vec(r)?))
    }
}

/// `Vec<Vec<GenericSignature>>`.
pub fn parse_signature_lists(r: &mut Reader) -> (res: Result<Vec<SignatureList>, ParseError>)
    ensures
        final(r).data() == old(r).data(),
        crate::reader::done(old(r).st(), sp_seq::<SignatureList>(old(r).data(), old(r).st(), 1), res, final(r).st()),
        res matches Ok(v) ==> enc_seq(v@) == span(old(r).data(), old(r).st(), final(r).st()),
{
    parse_seq::<SignatureList>(r, 1)
}

/// A `CheckpointContentsV2` entry. Each signature comes with the version of
/// the address alias object it was checked against, if any.
#[derive(Clone, PartialEq, Eq, Debug)]
pub struct CheckpointTransactionContents {
    pub digest: ExecutionDigests,
    pub user_signatures: Vec<(GenericSignature, Option<u64>)>,
}

impl Wire for CheckpointTransactionContents {
    /// Each signature at least its length and an option tag.
    open spec fn rec(s: Seq<u8>, st: St) -> Rec {
        then(
            ExecutionDigests::rec(s, st),
            |st1: St| sp_seq::<(GenericSignature, Option<u64>)>(s, st1, 2),
        )
    }

    open spec fn enc(self) -> Seq<u8> {
        self.digest.enc() + enc_seq(self.user_signatures@)
    }

    fn parse(r: &mut Reader) -> (res: Result<CheckpointTransactionContents, ParseError>) {
        let digest = ExecutionDigests::parse(r)?;
        let user_signatures = parse_seq::<(GenericSignature, Option<u64>)>(r, 2)?;
        r.check();
        Ok(CheckpointTransactionContents { digest, user_signatures })
    }
}

#[derive(Clone, PartialEq, Eq, Debug)]
pub enum VersionedCheckpointContents {
    /// `user_signatures` is not checked to be as long as `transactions`.
    V1 { transactions: Vec<ExecutionDigests>, user_signatures: Vec<SignatureList> },
    V2(Vec<CheckpointTransactionContents>),
}

#[derive(Clone, PartialEq, Eq, Debug)]
pub struct CheckpointContents {
    /// The exact encoding, which is what gets hashed.
    pub bytes: Vec<u8>,
    pub version: VersionedCheckpointContents,
}

impl CheckpointContents {
    /// Hashed on demand: Sui does not treat the contents as a
    /// message, only the summary that commits to them.
    pub fn digest(&self) -> (d: Digest)
        ensures
            d.bytes@ == blake2b256(hashed_bytes("CheckpointContents".spec_bytes(), self.bytes@)),
    {
        Digest::of("CheckpointContents", self.bytes.as_slice())
    }
}

impl Wire for CheckpointContents {
    open spec fn rec(s: Seq<u8>, st: St) -> Rec {
        match sp_uleb(s, st) {
            Ok((tag, st1)) => if tag == 0 {
                then(sp_records::<ExecutionDigests>(s, st1, 66), |st2: St| sp_seq::<SignatureList>(s, st2, 1))
            } else if tag == 1 {
                sp_seq::<CheckpointTransactionContents>(s, st1, 67)
            } else {
                Err(unknown("CheckpointContents", tag))
            },
            Err(e) => Err(e),
        }
    }

    open spec fn enc(self) -> Seq<u8> {
        match self.version {
            VersionedCheckpointContents::V1 { transactions, user_signatures } => enc_uleb(0)
                + enc_seq(transactions@) + enc_seq(user_signatures@),
            VersionedCheckpointContents::V2(t) => enc_uleb(1) + enc_seq(t@),
        }
    }

    fn parse(r: &mut Reader) -> (res: Result<CheckpointContents, ParseError>)
        ensures
            res matches Ok(v) ==> v.bytes@ == v.enc(),
    {
        let start = r.pos();
        let version = match r.variant()? {
            0 => {
                let transactions = parse_records::<ExecutionDigests>(r, 66)?;
                let user_signatures = parse_signature_lists(r)?;
                VersionedCheckpointContents::V1 { transactions, user_signatures }
            },
            1 => VersionedCheckpointContents::V2(
                parse_seq::<CheckpointTransactionContents>(r, 67)?,
            ),
            tag => {
                return Err(ParseError::UnknownVariant { ty: "CheckpointContents", tag });
            },
        };
        r.check();
        let bytes = vstd::slice::slice_to_vec(r.span(start));
        Ok(CheckpointContents { bytes, version })
    }
}

impl CheckpointContents {
    pub fn parse(r: &mut Reader) -> (res: Result<CheckpointContents, ParseError>)
        ensures
            crate::wire::parsed(*old(r), *final(r), res),
            res matches Ok(v) ==> v.bytes@ == v.enc(),
    {
        <CheckpointContents as Wire>::parse(r)
    }
}

#[derive(PartialEq, Eq, Debug)]
pub struct ExecutionData {
    pub transaction: SenderSignedData,
    pub effects: TransactionEffects,
}

impl Wire for ExecutionData {
    open spec fn rec(s: Seq<u8>, st: St) -> Rec {
        nested(
            st,
            |st1: St|
                then(
                    nested(st1, |st2: St| rec_sender_signed(s, st2)),
                    |st3: St| TransactionEffects::rec(s, st3),
                ),
        )
    }

    open spec fn enc(self) -> Seq<u8> {
        self.transaction.enc() + self.effects.enc()
    }

    fn parse(r: &mut Reader) -> (res: Result<ExecutionData, ParseError>) {
        r.enter()?;
        let transaction = SenderSignedData::parse_envelope(r)?;
        let effects = TransactionEffects::parse(r)?;
        r.check();
        r.leave();
        Ok(ExecutionData { transaction, effects })
    }
}

#[derive(PartialEq, Eq, Debug)]
pub struct FullCheckpointContents {
    pub transactions: Vec<ExecutionData>,
    /// Not checked to be as long as `transactions`.
    pub user_signatures: Vec<SignatureList>,
}

impl Wire for FullCheckpointContents {
    open spec fn rec(s: Seq<u8>, st: St) -> Rec {
        nested(
            st,
            |st1: St| then(sp_seq::<ExecutionData>(s, st1, (SenderSignedData::MIN_WIRE_SIZE + TransactionEffects::MIN_WIRE_SIZE) as int), |st2: St| sp_seq::<SignatureList>(s, st2, 1)),
        )
    }

    open spec fn enc(self) -> Seq<u8> {
        enc_seq(self.transactions@) + enc_seq(self.user_signatures@)
    }

    fn parse(r: &mut Reader) -> (res: Result<FullCheckpointContents, ParseError>) {
        r.enter()?;
        let transactions = parse_seq::<ExecutionData>(r, SenderSignedData::MIN_WIRE_SIZE + TransactionEffects::MIN_WIRE_SIZE)?;
        let user_signatures = parse_signature_lists(r)?;
        r.check();
        r.leave();
        Ok(FullCheckpointContents { transactions, user_signatures })
    }
}

impl FullCheckpointContents {
    pub fn parse(r: &mut Reader) -> (res: Result<FullCheckpointContents, ParseError>)
        ensures
            crate::wire::parsed(*old(r), *final(r), res),
    {
        <FullCheckpointContents as Wire>::parse(r)
    }
}

#[derive(PartialEq, Eq, Debug)]
pub struct CheckpointTransaction {
    pub transaction: SenderSignedData,
    pub effects: TransactionEffects,
    pub events: Option<TransactionEvents>,
    pub input_objects: Vec<Object>,
    pub output_objects: Vec<Object>,
}

impl CheckpointTransaction {
    /// A transaction, its effects, an option tag and two lengths.
    pub const MIN_WIRE_SIZE: usize = SenderSignedData::MIN_WIRE_SIZE + TransactionEffects::MIN_WIRE_SIZE + 3;
}

impl Wire for CheckpointTransaction {
    open spec fn rec(s: Seq<u8>, st: St) -> Rec {
        nested(
            st,
            |st1: St|
                then(
                    nested(st1, |st2: St| rec_sender_signed(s, st2)),
                    |st3: St|
                        then(
                            rec2::<TransactionEffects, Option<TransactionEvents>>(s, st3),
                            |st4: St| then(sp_seq::<Object>(s, st4, 54), |st5: St| sp_seq::<Object>(s, st5, 54)),
                        ),
                ),
        )
    }

    open spec fn enc(self) -> Seq<u8> {
        self.transaction.enc() + self.effects.enc() + self.events.enc() + enc_seq(self.input_objects@)
            + enc_seq(self.output_objects@)
    }

    /// Its events, where it has them, well-formed.
    open spec fn well_formed(self) -> bool {
        self.events.well_formed()
    }

    #[verifier::rlimit(40)]
    fn parse(r: &mut Reader) -> (res: Result<CheckpointTransaction, ParseError>) {
        let ghost s = r.data();
        r.enter()?;
        let ghost st1 = r.st();
        let transaction = SenderSignedData::parse_envelope(r)?;
        let ghost st2 = r.st();
        let effects = TransactionEffects::parse(r)?;
        let events = Option::<TransactionEvents>::parse(r)?;
        let ghost st3 = r.st();
        let input_objects = Object::parse_vec(r)?;
        let output_objects = Object::parse_vec(r)?;
        r.check();
        let ghost st4 = r.st();
        proof {
            assert(span(s, st1, st4) == span(s, st1, st2) + span(s, st2, st3) + span(s, st3, st4));
        }
        r.leave();
        Ok(CheckpointTransaction { transaction, effects, events, input_objects, output_objects })
    }
}

impl CheckpointTransaction {
    pub fn parse(r: &mut Reader) -> (res: Result<CheckpointTransaction, ParseError>)
        ensures
            crate::wire::parsed(*old(r), *final(r), res),
    {
        <CheckpointTransaction as Wire>::parse(r)
    }
}

#[derive(PartialEq, Eq, Debug)]
pub struct CheckpointData {
    pub checkpoint_summary: CertifiedCheckpointSummary,
    pub checkpoint_contents: CheckpointContents,
    pub transactions: Vec<CheckpointTransaction>,
}

impl Wire for CheckpointData {
    open spec fn rec(s: Seq<u8>, st: St) -> Rec {
        nested(
            st,
            |st1: St|
                then(
                    rec2::<CertifiedCheckpointSummary, CheckpointContents>(s, st1),
                    |st2: St| sp_seq::<CheckpointTransaction>(s, st2, CheckpointTransaction::MIN_WIRE_SIZE as int),
                ),
        )
    }

    open spec fn enc(self) -> Seq<u8> {
        self.checkpoint_summary.enc() + self.checkpoint_contents.enc() + enc_seq(self.transactions@)
    }

    /// Each of its transactions well-formed.
    open spec fn well_formed(self) -> bool {
        forall|i: int| 0 <= i < self.transactions@.len() ==> (#[trigger] self.transactions@[i]).well_formed()
    }

    fn parse(r: &mut Reader) -> (res: Result<CheckpointData, ParseError>) {
        r.enter()?;
        let checkpoint_summary = CertifiedCheckpointSummary::parse(r)?;
        let checkpoint_contents = CheckpointContents::parse(r)?;
        let transactions = parse_seq::<CheckpointTransaction>(r, CheckpointTransaction::MIN_WIRE_SIZE)?;
        r.check();
        r.leave();
        Ok(CheckpointData { checkpoint_summary, checkpoint_contents, transactions })
    }
}

impl CheckpointData {
    pub fn parse(r: &mut Reader) -> (res: Result<CheckpointData, ParseError>)
        ensures
            crate::wire::parsed(*old(r), *final(r), res),
    {
        <CheckpointData as Wire>::parse(r)
    }
}

} // verus!
