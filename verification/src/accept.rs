//! Nothing more than canonical encoding is asked of a message: the
//! encoding of every value whose lengths are within the reader's limits is
//! accepted whole. (`Message::parse` then gives back a value with that
//! same encoding.)
use vstd::prelude::*;
use crate::base::{Digest};
use crate::checkpoint::{
    AuthorityQuorumSignInfo, CertifiedCheckpointSummary, CheckpointCommitment, CheckpointContents,
    CheckpointSummary, CheckpointTransactionContents, CommitteeMember, EndOfEpochData,
    ExecutionDigests, SignatureList, VersionedCheckpointContents, rec_summary_head,
    rec_summary_tail,
};
use crate::transaction::GenericSignature;
use crate::signature::{CompressedSignature, MultiSig, MultiSigPublicKey, PublicKey};
use crate::reader::{lemma_uleb_roundtrip};
use crate::effects::{Event, TransactionEvents};
use crate::base::{ObjectId, SuiAddress};
use crate::object::{Owner, Party, PartyMember, MoveObjectType, MoveObject, TypeOrigin, Linkage, MovePackage, Data, Object, GenesisObject, rec_modules, rec_module_map, rec_links, rec_linkage, enc_modules};
use crate::order::{lex_lt, lemma_lex_empty};
use crate::readback::lemma_read_string;
use crate::wire::{enc_string, encode_utf8};
use crate::reader::{sp_str, sp_byte_vec, span, then};
use crate::execution_status::rec2;
use crate::type_tag::{StructTag, TypeTag, legal_st, legal_tt, need_st, need_tt, lemma_read_st, lemma_read_tt};

use crate::error::ParseError;
use crate::message::{exact_rec, start};
use crate::readback::{
    at, ok_past, room, reads, lemma_at_split, lemma_at_index, lemma_at_whole, lemma_read_digest,
    lemma_read_u64, lemma_read_opt, lemma_read_records, lemma_read_length, lemma_read_seq,
};
use crate::reader::sp_uleb;
use crate::wire::{sp_seq, sp_records};
use crate::reader::{St, adv, MAX_SEQUENCE_LENGTH, MAX_CONTAINER_DEPTH};
use crate::wire::{Wire, enc_seq, enc_uleb};

verus! {

pub proof fn lemma_reads_u64(v: u64)
    ensures
        reads(v, 0),
{
    assert forall|s: Seq<u8>, st: St| at(s, st, v.enc()) && room(st, 0) implies ok_past(
        u64::rec(s, st),
        st,
        v.enc().len() as int,
    ) by {
        lemma_read_u64(v, s, st);
    }
}

pub proof fn lemma_reads_digest(v: Digest)
    ensures
        reads(v, 0),
{
    assert forall|s: Seq<u8>, st: St| at(s, st, v.enc()) && room(st, 0) implies ok_past(
        Digest::rec(s, st),
        st,
        v.enc().len() as int,
    ) by {
        lemma_read_digest(v, s, st);
    }
}

pub proof fn lemma_reads_option_digest(v: Option<Digest>)
    ensures
        reads(v, 0),
{
    if let Some(d) = v {
        lemma_reads_digest(d);
    }
    assert forall|s: Seq<u8>, st: St| at(s, st, v.enc()) && room(st, 0) implies ok_past(
        Option::<Digest>::rec(s, st),
        st,
        v.enc().len() as int,
    ) by {
        lemma_read_opt(v, 0, s, st);
    }
}

pub proof fn lemma_reads_bytes(v: Vec<u8>)
    requires
        v@.len() <= MAX_SEQUENCE_LENGTH,
    ensures
        reads(v, 0),
{
    assert forall|s: Seq<u8>, st: St| at(s, st, v.enc()) && room(st, 0) implies ok_past(
        Vec::<u8>::rec(s, st),
        st,
        v.enc().len() as int,
    ) by {
        let n = v@.len() as u32;
        lemma_at_split(s, st, enc_uleb(n), v@);
        lemma_read_length(n, s, st);
    }
}

pub proof fn lemma_reads_commitment(v: CheckpointCommitment)
    ensures
        reads(v, 0),
        v.enc().len() == 34,
{
    assert forall|s: Seq<u8>, st: St| at(s, st, v.enc()) && room(st, 0) implies ok_past(
        CheckpointCommitment::rec(s, st),
        st,
        v.enc().len() as int,
    ) by {
        lemma_at_index(s, st, v.enc(), 0);
        lemma_at_index(s, st, v.enc(), 1);
    }
}

pub proof fn lemma_reads_committee_member(v: CommitteeMember)
    ensures
        reads(v, 0),
        v.enc().len() == 105,
{
    assert forall|s: Seq<u8>, st: St| at(s, st, v.enc()) && room(st, 0) implies ok_past(
        CommitteeMember::rec(s, st),
        st,
        v.enc().len() as int,
    ) by {
        lemma_at_index(s, st, v.enc(), 0);
    }
}

/// Lists of commitments within the reader's length limit.
pub open spec fn legal_commitments(v: Seq<CheckpointCommitment>) -> bool {
    v.len() <= MAX_SEQUENCE_LENGTH
}

pub proof fn lemma_read_commitments(v: Seq<CheckpointCommitment>, s: Seq<u8>, st: St)
    requires
        legal_commitments(v),
        at(s, st, enc_seq(v)),
        room(st, 0),
    ensures
        ok_past(
            crate::wire::sp_records::<CheckpointCommitment>(s, st, 34),
            st,
            enc_seq(v).len() as int,
        ),
{
    assert forall|i: int| 0 <= i < v.len() implies #[trigger] reads(v[i], 0) && v[i].enc().len() == 34 by {
        lemma_reads_commitment(v[i]);
    }
    assert forall|i: int| 0 <= i < v.len() implies (#[trigger] v[i].enc()).len() == 34 by {
        lemma_reads_commitment(v[i]);
    }
    lemma_read_records(v, 34, 0, s, st);
}

pub open spec fn legal_end_of_epoch(v: EndOfEpochData) -> bool {
    &&& v.next_epoch_committee@.len() <= MAX_SEQUENCE_LENGTH
    &&& legal_commitments(v.epoch_commitments@)
}

pub proof fn lemma_reads_end_of_epoch(v: EndOfEpochData)
    requires
        legal_end_of_epoch(v),
    ensures
        reads(v, 0),
{
    let c = v.next_epoch_committee@;
    assert forall|i: int| 0 <= i < c.len() implies #[trigger] reads(c[i], 0) by {
        lemma_reads_committee_member(c[i]);
    }
    assert forall|i: int| 0 <= i < c.len() implies (#[trigger] c[i].enc()).len() == 105 by {
        lemma_reads_committee_member(c[i]);
    }
    assert forall|s: Seq<u8>, st: St| at(s, st, v.enc()) && room(st, 0) implies ok_past(
        EndOfEpochData::rec(s, st),
        st,
        v.enc().len() as int,
    ) by {
        let a = enc_seq(c);
        let b = v.next_epoch_protocol_version.enc();
        let d = enc_seq(v.epoch_commitments@);
        assert(v.enc() == a + (b + d));
        lemma_at_split(s, st, a, b + d);
        lemma_read_records(c, 105, 0, s, st);
        let st1 = crate::wire::sp_records::<CommitteeMember>(s, st, 105)->Ok_0;
        lemma_at_split(s, st1, b, d);
        lemma_read_u64(v.next_epoch_protocol_version, s, st1);
        lemma_read_commitments(v.epoch_commitments@, s, adv(st1, 8));
    }
}

pub proof fn lemma_reads_option_end_of_epoch(v: Option<EndOfEpochData>)
    requires
        v matches Some(d) ==> legal_end_of_epoch(d),
    ensures
        reads(v, 0),
{
    if let Some(d) = v {
        lemma_reads_end_of_epoch(d);
    }
    assert forall|s: Seq<u8>, st: St| at(s, st, v.enc()) && room(st, 0) implies ok_past(
        Option::<EndOfEpochData>::rec(s, st),
        st,
        v.enc().len() as int,
    ) by {
        lemma_read_opt(v, 0, s, st);
    }
}

/// A summary whose lists are within the reader's limits.
pub open spec fn legal_summary(v: CheckpointSummary) -> bool {
    &&& legal_commitments(v.checkpoint_commitments@)
    &&& (v.end_of_epoch_data matches Some(d) ==> legal_end_of_epoch(d))
    &&& v.version_specific_data@.len() <= MAX_SEQUENCE_LENGTH
}

/// The fields before the gas cost summary's end.
pub open spec fn summary_head(v: CheckpointSummary) -> Seq<u8> {
    v.epoch.enc() + v.sequence_number.enc() + v.network_total_transactions.enc()
        + v.content_digest.enc() + v.previous_digest.enc() + v.epoch_rolling_gas_cost_summary.enc()
}

/// The fields after it.
pub open spec fn summary_tail(v: CheckpointSummary) -> Seq<u8> {
    v.timestamp_ms.enc() + enc_seq(v.checkpoint_commitments@) + v.end_of_epoch_data.enc()
        + v.version_specific_data.enc()
}

proof fn lemma_read_summary_head(v: CheckpointSummary, s: Seq<u8>, st: St)
    requires
        at(s, st, summary_head(v)),
        room(st, 0),
    ensures
        ok_past(rec_summary_head(s, st), st, summary_head(v).len() as int),
{
    lemma_reads_option_digest(v.previous_digest);
    let h = v.epoch.enc() + v.sequence_number.enc() + v.network_total_transactions.enc();
    let d = v.content_digest.enc();
    let p = v.previous_digest.enc();
    let g = v.epoch_rolling_gas_cost_summary.enc();
    assert(summary_head(v) =~= h + (d + (p + g)));
    lemma_at_split(s, st, h, d + (p + g));
    let s1 = adv(st, 24);
    lemma_at_split(s, s1, d, p + g);
    lemma_read_digest(v.content_digest, s, s1);
    let s2 = adv(s1, 33);
    lemma_at_split(s, s2, p, g);
    assert(ok_past(Option::<Digest>::rec(s, s2), s2, p.len() as int));
    let s3 = Option::<Digest>::rec(s, s2)->Ok_0;
    assert(at(s, s3, g));
}

proof fn lemma_read_summary_tail(v: CheckpointSummary, s: Seq<u8>, st: St)
    requires
        legal_summary(v),
        at(s, st, summary_tail(v)),
        room(st, 0),
    ensures
        ok_past(rec_summary_tail(s, st), st, summary_tail(v).len() as int),
{
    lemma_reads_option_end_of_epoch(v.end_of_epoch_data);
    lemma_reads_bytes(v.version_specific_data);
    let t = v.timestamp_ms.enc();
    let c = enc_seq(v.checkpoint_commitments@);
    let e = v.end_of_epoch_data.enc();
    let x = v.version_specific_data.enc();
    assert(summary_tail(v) =~= t + (c + (e + x)));
    lemma_at_split(s, st, t, c + (e + x));
    lemma_read_u64(v.timestamp_ms, s, st);
    let s5 = adv(st, 8);
    lemma_at_split(s, s5, c, e + x);
    lemma_read_commitments(v.checkpoint_commitments@, s, s5);
    let s6 = crate::wire::sp_records::<CheckpointCommitment>(s, s5, 34)->Ok_0;
    lemma_at_split(s, s6, e, x);
    assert(ok_past(Option::<EndOfEpochData>::rec(s, s6), s6, e.len() as int));
    let s7 = Option::<EndOfEpochData>::rec(s, s6)->Ok_0;
    assert(at(s, s7, x));
    assert(ok_past(Vec::<u8>::rec(s, s7), s7, x.len() as int));
}

pub proof fn lemma_reads_summary(v: CheckpointSummary)
    requires
        legal_summary(v),
    ensures
        reads(v, 0),
{
    assert forall|s: Seq<u8>, st: St| at(s, st, v.enc()) && room(st, 0) implies ok_past(
        CheckpointSummary::rec(s, st),
        st,
        v.enc().len() as int,
    ) by {
        assert(v.enc() =~= summary_head(v) + summary_tail(v));
        lemma_at_split(s, st, summary_head(v), summary_tail(v));
        lemma_read_summary_head(v, s, st);
        let s1 = rec_summary_head(s, st)->Ok_0;
        assert(at(s, s1, summary_tail(v)));
        lemma_read_summary_tail(v, s, s1);
    }
}

pub proof fn lemma_reads_sign_info(v: AuthorityQuorumSignInfo)
    requires
        v.signers_map@.len() <= MAX_SEQUENCE_LENGTH,
    ensures
        reads(v, 0),
{
    lemma_reads_bytes(v.signers_map);
    assert forall|s: Seq<u8>, st: St| at(s, st, v.enc()) && room(st, 0) implies ok_past(
        AuthorityQuorumSignInfo::rec(s, st),
        st,
        v.enc().len() as int,
    ) by {
        let a = v.epoch.enc() + v.signature@;
        assert(v.enc() == a + v.signers_map.enc());
        lemma_at_split(s, st, a, v.signers_map.enc());
    }
}

/// Every summary and every certified summary whose lists are within the
/// reader's limits is accepted whole.
pub proof fn lemma_checkpoint_summaries_are_accepted(v: CheckpointSummary, c: CertifiedCheckpointSummary)
    ensures
        legal_summary(v) ==> exact_rec::<CheckpointSummary>(v.enc()) == Ok::<(), ParseError>(()),
        legal_summary(c.data) && c.auth_signature.signers_map@.len() <= MAX_SEQUENCE_LENGTH
            ==> exact_rec::<CertifiedCheckpointSummary>(c.enc()) == Ok::<(), ParseError>(()),
{
    if legal_summary(v) {
        lemma_reads_summary(v);
        lemma_at_whole(v.enc());
        assert(at(v.enc(), start(), v.enc()) && room(start(), 0));
    }
    if legal_summary(c.data) && c.auth_signature.signers_map@.len() <= MAX_SEQUENCE_LENGTH {
        lemma_reads_summary(c.data);
        lemma_reads_sign_info(c.auth_signature);
        let e = c.enc();
        lemma_at_whole(e);
        lemma_at_split(e, start(), c.data.enc(), c.auth_signature.enc());
        assert(at(e, start(), c.data.enc()) && room(start(), 0));
        let s1 = CheckpointSummary::rec(e, start())->Ok_0;
        assert(at(e, s1, c.auth_signature.enc()) && room(s1, 0));
        assert(ok_past(AuthorityQuorumSignInfo::rec(e, s1), s1, c.auth_signature.enc().len() as int));
    }
}

// ---------------------------------------------------------------------
// Checkpoint contents.

pub proof fn lemma_reads_execution_digests(v: ExecutionDigests)
    ensures
        reads(v, 0),
        v.enc().len() == 66,
{
    assert forall|s: Seq<u8>, st: St| at(s, st, v.enc()) && room(st, 0) implies ok_past(
        ExecutionDigests::rec(s, st),
        st,
        v.enc().len() as int,
    ) by {
        lemma_at_index(s, st, v.enc(), 0);
        lemma_at_index(s, st, v.enc(), 33);
    }
}

pub open spec fn legal_signature(g: GenericSignature) -> bool {
    g.0@.len() <= MAX_SEQUENCE_LENGTH
}

pub proof fn lemma_reads_signature(g: GenericSignature)
    requires
        legal_signature(g),
    ensures
        reads(g, 0),
        g.enc().len() >= 1,
{
    lemma_reads_bytes(g.0);
    crate::wire_size::lemma_bytes_nonempty(g.0@);
    assert forall|s: Seq<u8>, st: St| at(s, st, g.enc()) && room(st, 0) implies ok_past(
        GenericSignature::rec(s, st),
        st,
        g.enc().len() as int,
    ) by {
        assert(ok_past(Vec::<u8>::rec(s, st), st, g.0.enc().len() as int));
    }
}

pub open spec fn legal_signature_list(l: SignatureList) -> bool {
    &&& l.0@.len() <= MAX_SEQUENCE_LENGTH
    &&& forall|i: int| 0 <= i < l.0@.len() ==> legal_signature(#[trigger] l.0@[i])
}

pub proof fn lemma_reads_signature_list(l: SignatureList)
    requires
        legal_signature_list(l),
    ensures
        reads(l, 0),
        l.enc().len() >= 1,
{
    let v = l.0@;
    assert forall|i: int| 0 <= i < v.len() implies #[trigger] reads(v[i], 0) by {
        lemma_reads_signature(v[i]);
    }
    assert forall|i: int| 0 <= i < v.len() implies (#[trigger] v[i].enc()).len() >= 1 by {
        lemma_reads_signature(v[i]);
    }
    crate::wire_size::lemma_seq_nonempty(v);
    assert forall|s: Seq<u8>, st: St| at(s, st, l.enc()) && room(st, 0) implies ok_past(
        SignatureList::rec(s, st),
        st,
        l.enc().len() as int,
    ) by {
        lemma_read_seq(v, 1, 0, s, st);
    }
}

pub proof fn lemma_reads_signed_version(p: (GenericSignature, Option<u64>))
    requires
        legal_signature(p.0),
    ensures
        reads(p, 0),
        p.enc().len() >= 2,
{
    lemma_reads_signature(p.0);
    if let Some(x) = p.1 {
        lemma_reads_u64(x);
    }
    crate::wire_size::lemma_option_nonempty(p.1);
    assert forall|s: Seq<u8>, st: St| at(s, st, p.enc()) && room(st, 0) implies ok_past(
        <(GenericSignature, Option<u64>)>::rec(s, st),
        st,
        p.enc().len() as int,
    ) by {
        lemma_at_split(s, st, p.0.enc(), p.1.enc());
        let s1 = GenericSignature::rec(s, st)->Ok_0;
        assert(at(s, s1, p.1.enc()));
        lemma_read_opt(p.1, 0, s, s1);
    }
}

pub open spec fn legal_transaction_contents(c: CheckpointTransactionContents) -> bool {
    &&& c.user_signatures@.len() <= MAX_SEQUENCE_LENGTH
    &&& forall|i: int| 0 <= i < c.user_signatures@.len() ==> legal_signature(
        (#[trigger] c.user_signatures@[i]).0,
    )
}

pub proof fn lemma_reads_transaction_contents(c: CheckpointTransactionContents)
    requires
        legal_transaction_contents(c),
    ensures
        reads(c, 0),
        c.enc().len() >= 67,
{
    let v = c.user_signatures@;
    assert forall|i: int| 0 <= i < v.len() implies #[trigger] reads(v[i], 0) by {
        lemma_reads_signed_version(v[i]);
    }
    assert forall|i: int| 0 <= i < v.len() implies (#[trigger] v[i].enc()).len() >= 2 by {
        lemma_reads_signed_version(v[i]);
    }
    lemma_reads_execution_digests(c.digest);
    crate::wire_size::lemma_seq_nonempty(v);
    assert forall|s: Seq<u8>, st: St| at(s, st, c.enc()) && room(st, 0) implies ok_past(
        CheckpointTransactionContents::rec(s, st),
        st,
        c.enc().len() as int,
    ) by {
        lemma_at_split(s, st, c.digest.enc(), enc_seq(v));
        let s1 = ExecutionDigests::rec(s, st)->Ok_0;
        assert(at(s, s1, enc_seq(v)));
        lemma_read_seq(v, 2, 0, s, s1);
    }
}

pub open spec fn legal_contents(c: CheckpointContents) -> bool {
    match c.version {
        VersionedCheckpointContents::V1 { transactions, user_signatures } => {
            &&& transactions@.len() <= MAX_SEQUENCE_LENGTH
            &&& user_signatures@.len() <= MAX_SEQUENCE_LENGTH
            &&& forall|i: int| 0 <= i < user_signatures@.len() ==> legal_signature_list(
                #[trigger] user_signatures@[i],
            )
        },
        VersionedCheckpointContents::V2(t) => {
            &&& t@.len() <= MAX_SEQUENCE_LENGTH
            &&& forall|i: int| 0 <= i < t@.len() ==> legal_transaction_contents(#[trigger] t@[i])
        },
    }
}

pub proof fn lemma_reads_contents(c: CheckpointContents)
    requires
        legal_contents(c),
    ensures
        reads(c, 0),
{
    assert forall|s: Seq<u8>, st: St| at(s, st, c.enc()) && room(st, 0) implies ok_past(
        CheckpointContents::rec(s, st),
        st,
        c.enc().len() as int,
    ) by {
        lemma_at_index(s, st, c.enc(), 0);
        match c.version {
            VersionedCheckpointContents::V1 { transactions, user_signatures } => {
                let t = transactions@;
                let u = user_signatures@;
                assert forall|i: int| 0 <= i < t.len() implies #[trigger] reads(t[i], 0) by {
                    lemma_reads_execution_digests(t[i]);
                }
                assert forall|i: int| 0 <= i < t.len() implies (#[trigger] t[i].enc()).len() == 66 by {
                    lemma_reads_execution_digests(t[i]);
                }
                assert forall|i: int| 0 <= i < u.len() implies #[trigger] reads(u[i], 0) by {
                    lemma_reads_signature_list(u[i]);
                }
                assert forall|i: int| 0 <= i < u.len() implies (#[trigger] u[i].enc()).len() >= 1 by {
                    lemma_reads_signature_list(u[i]);
                }
                assert(c.enc() == seq![0u8] + (enc_seq(t) + enc_seq(u)));
                lemma_at_split(s, st, seq![0u8], enc_seq(t) + enc_seq(u));
                let s1 = adv(st, 1);
                assert(sp_uleb(s, st) == Ok::<(u32, St), ParseError>((0u32, s1)));
                lemma_at_split(s, s1, enc_seq(t), enc_seq(u));
                lemma_read_records(t, 66, 0, s, s1);
                let s2 = sp_records::<ExecutionDigests>(s, s1, 66)->Ok_0;
                assert(at(s, s2, enc_seq(u)));
                lemma_read_seq(u, 1, 0, s, s2);
            },
            VersionedCheckpointContents::V2(t) => {
                let v = t@;
                assert forall|i: int| 0 <= i < v.len() implies #[trigger] reads(v[i], 0) by {
                    lemma_reads_transaction_contents(v[i]);
                }
                assert forall|i: int| 0 <= i < v.len() implies (#[trigger] v[i].enc()).len() >= 67 by {
                    lemma_reads_transaction_contents(v[i]);
                }
                assert(c.enc() == seq![1u8] + enc_seq(v));
                lemma_at_split(s, st, seq![1u8], enc_seq(v));
                let s1 = adv(st, 1);
                assert(sp_uleb(s, st) == Ok::<(u32, St), ParseError>((1u32, s1)));
                lemma_read_seq(v, 67, 0, s, s1);
            },
        }
    }
}

/// The contents of every checkpoint whose lists are within the reader's
/// limits are accepted whole.
pub proof fn lemma_checkpoint_contents_are_accepted(c: CheckpointContents)
    requires
        legal_contents(c),
    ensures
        exact_rec::<CheckpointContents>(c.enc()) == Ok::<(), ParseError>(()),
{
    lemma_reads_contents(c);
    lemma_at_whole(c.enc());
    assert(at(c.enc(), start(), c.enc()) && room(start(), 0));
}

// ---------------------------------------------------------------------
// Multisig.

/// A variant index and what follows it: the index reads back and leaves the
/// cursor at the rest.
pub proof fn lemma_read_tag(tag: u32, rest: Seq<u8>, s: Seq<u8>, st: St)
    requires
        at(s, st, enc_uleb(tag) + rest),
    ensures
        sp_uleb(s, st) == Ok::<(u32, St), ParseError>((tag, adv(st, enc_uleb(tag).len() as int))),
        at(s, adv(st, enc_uleb(tag).len() as int), rest),
{
    lemma_at_split(s, st, enc_uleb(tag), rest);
    lemma_uleb_roundtrip(tag, s, st);
}

pub open spec fn legal_compressed(c: CompressedSignature) -> bool {
    match c {
        CompressedSignature::ZkLogin(b) => b@.len() <= MAX_SEQUENCE_LENGTH,
        CompressedSignature::Passkey(b) => b@.len() <= MAX_SEQUENCE_LENGTH,
        _ => true,
    }
}

pub proof fn lemma_reads_compressed(c: CompressedSignature)
    requires
        legal_compressed(c),
    ensures
        reads(c, 0),
{
    crate::wire_size::lemma_compressed_signature_min_wire_size(c);
    assert forall|s: Seq<u8>, st: St| at(s, st, c.enc()) && room(st, 0) implies ok_past(
        CompressedSignature::rec(s, st),
        st,
        c.enc().len() as int,
    ) by {
        match c {
            CompressedSignature::Ed25519(b) => lemma_read_tag(0, b@, s, st),
            CompressedSignature::Secp256k1(b) => lemma_read_tag(1, b@, s, st),
            CompressedSignature::Secp256r1(b) => lemma_read_tag(2, b@, s, st),
            CompressedSignature::ZkLogin(b) => {
                lemma_read_tag(3, b.enc(), s, st);
                lemma_reads_bytes(b);
                assert(ok_past(Vec::<u8>::rec(s, adv(st, 1)), adv(st, 1), b.enc().len() as int));
            },
            CompressedSignature::Passkey(b) => {
                lemma_read_tag(4, b.enc(), s, st);
                lemma_reads_bytes(b);
                assert(ok_past(Vec::<u8>::rec(s, adv(st, 1)), adv(st, 1), b.enc().len() as int));
            },
        }
    }
}

pub open spec fn legal_public_key(k: PublicKey) -> bool {
    k matches PublicKey::ZkLogin(b) ==> b@.len() <= MAX_SEQUENCE_LENGTH
}

pub proof fn lemma_reads_weighted_key(p: (PublicKey, u8))
    requires
        legal_public_key(p.0),
    ensures
        reads(p, 0),
        p.enc().len() >= 3,
{
    let k = p.0;
    assert(k.enc().len() >= 2) by {
        reveal_with_fuel(enc_uleb, 1);
        if let PublicKey::ZkLogin(b) = k {
            crate::wire_size::lemma_bytes_nonempty(b@);
        }
    }
    assert forall|s: Seq<u8>, st: St| at(s, st, p.enc()) && room(st, 0) implies ok_past(
        <(PublicKey, u8)>::rec(s, st),
        st,
        p.enc().len() as int,
    ) by {
        lemma_at_split(s, st, k.enc(), p.1.enc());
        match k {
            PublicKey::Ed25519(b) => lemma_read_tag(0, b@, s, st),
            PublicKey::Secp256k1(b) => lemma_read_tag(1, b@, s, st),
            PublicKey::Secp256r1(b) => lemma_read_tag(2, b@, s, st),
            PublicKey::ZkLogin(b) => {
                lemma_read_tag(3, b.enc(), s, st);
                lemma_reads_bytes(b);
                assert(ok_past(Vec::<u8>::rec(s, adv(st, 1)), adv(st, 1), b.enc().len() as int));
            },
            PublicKey::Passkey(b) => lemma_read_tag(4, b@, s, st),
        }
        let s1 = PublicKey::rec(s, st)->Ok_0;
        assert(at(s, s1, p.1.enc()));
    }
}

pub open spec fn legal_multisig_pk(m: MultiSigPublicKey) -> bool {
    &&& m.pk_map@.len() <= MAX_SEQUENCE_LENGTH
    &&& forall|i: int| 0 <= i < m.pk_map@.len() ==> legal_public_key((#[trigger] m.pk_map@[i]).0)
}

pub proof fn lemma_reads_multisig_pk(m: MultiSigPublicKey)
    requires
        legal_multisig_pk(m),
    ensures
        reads(m, 0),
{
    let v = m.pk_map@;
    assert forall|i: int| 0 <= i < v.len() implies #[trigger] reads(v[i], 0) by {
        lemma_reads_weighted_key(v[i]);
    }
    assert forall|i: int| 0 <= i < v.len() implies (#[trigger] v[i].enc()).len() >= 3 by {
        lemma_reads_weighted_key(v[i]);
    }
    assert forall|s: Seq<u8>, st: St| at(s, st, m.enc()) && room(st, 0) implies ok_past(
        MultiSigPublicKey::rec(s, st),
        st,
        m.enc().len() as int,
    ) by {
        lemma_at_split(s, st, enc_seq(v), m.threshold.enc());
        lemma_read_seq(v, 3, 0, s, st);
        let s1 = sp_seq::<(PublicKey, u8)>(s, st, 3)->Ok_0;
        assert(at(s, s1, m.threshold.enc()));
    }
}

pub open spec fn legal_multisig(m: MultiSig) -> bool {
    &&& m.sigs@.len() <= MAX_SEQUENCE_LENGTH
    &&& forall|i: int| 0 <= i < m.sigs@.len() ==> legal_compressed(#[trigger] m.sigs@[i])
    &&& legal_multisig_pk(m.multisig_pk)
}

pub proof fn lemma_reads_multisig(m: MultiSig)
    requires
        legal_multisig(m),
    ensures
        reads(m, 0),
{
    let v = m.sigs@;
    assert forall|i: int| 0 <= i < v.len() implies #[trigger] reads(v[i], 0) by {
        lemma_reads_compressed(v[i]);
    }
    assert forall|i: int| 0 <= i < v.len() implies (#[trigger] v[i].enc()).len() >= 2 by {
        crate::wire_size::lemma_compressed_signature_min_wire_size(v[i]);
    }
    lemma_reads_multisig_pk(m.multisig_pk);
    assert forall|s: Seq<u8>, st: St| at(s, st, m.enc()) && room(st, 0) implies ok_past(
        MultiSig::rec(s, st),
        st,
        m.enc().len() as int,
    ) by {
        let a = enc_seq(v);
        let b = m.bitmap.enc();
        let c = m.multisig_pk.enc();
        assert(m.enc() == a + (b + c));
        lemma_at_split(s, st, a, b + c);
        lemma_read_seq(v, 2, 0, s, st);
        let s1 = sp_seq::<CompressedSignature>(s, st, 2)->Ok_0;
        lemma_at_split(s, s1, b, c);
        let s2 = u16::rec(s, s1)->Ok_0;
        assert(at(s, s2, c));
    }
}

/// Every multisig and multisig key whose lists are within the reader's
/// limits is accepted whole.
pub proof fn lemma_multisigs_are_accepted(m: MultiSig, k: MultiSigPublicKey)
    ensures
        legal_multisig(m) ==> exact_rec::<MultiSig>(m.enc()) == Ok::<(), ParseError>(()),
        legal_multisig_pk(k) ==> exact_rec::<MultiSigPublicKey>(k.enc()) == Ok::<(), ParseError>(()),
{
    if legal_multisig(m) {
        lemma_reads_multisig(m);
        lemma_at_whole(m.enc());
        assert(at(m.enc(), start(), m.enc()) && room(start(), 0));
    }
    if legal_multisig_pk(k) {
        lemma_reads_multisig_pk(k);
        lemma_at_whole(k.enc());
        assert(at(k.enc(), start(), k.enc()) && room(start(), 0));
    }
}

// ---------------------------------------------------------------------
// Objects.

pub proof fn lemma_reads_party_member(m: PartyMember)
    ensures
        reads(m, 0),
        m.enc().len() == 40,
{
}

pub open spec fn legal_owner(o: Owner) -> bool {
    o matches Owner::Party(p) ==> p.members@.len() <= MAX_SEQUENCE_LENGTH
}

/// Levels an owner takes: its own container, and the party's.
pub open spec fn need_owner(o: Owner) -> int {
    if o is Party {
        2
    } else {
        1
    }
}

pub proof fn lemma_reads_owner(o: Owner)
    requires
        legal_owner(o),
    ensures
        reads(o, need_owner(o)),
{
    assert forall|s: Seq<u8>, st: St| at(s, st, o.enc()) && room(st, need_owner(o)) implies ok_past(
        Owner::rec(s, st),
        st,
        o.enc().len() as int,
    ) by {
        let st1 = St { depth: st.depth + 1, ..st };
        assert(at(s, st1, o.enc()));
        match o {
            Owner::AddressOwner(a) => lemma_read_tag(0, a.enc(), s, st1),
            Owner::ObjectOwner(a) => lemma_read_tag(1, a.enc(), s, st1),
            Owner::Shared { initial_shared_version } => lemma_read_tag(2, initial_shared_version.enc(), s, st1),
            Owner::Immutable => {
                assert(o.enc() == enc_uleb(3) + Seq::<u8>::empty());
                lemma_read_tag(3, Seq::empty(), s, st1);
            },
            Owner::ConsensusAddressOwner { start_version, owner } => {
                assert(o.enc() == enc_uleb(4) + (start_version.enc() + owner.enc()));
                lemma_read_tag(4, start_version.enc() + owner.enc(), s, st1);
                lemma_at_split(s, adv(st1, 1), start_version.enc(), owner.enc());
            },
            Owner::Party(p) => {
                let m = p.members@;
                let rest = p.start_version.enc() + (p.default_permissions.enc() + enc_seq(m));
                assert(o.enc() == enc_uleb(5) + rest);
                lemma_read_tag(5, rest, s, st1);
                let s2 = adv(st1, 1);
                lemma_at_split(s, s2, p.start_version.enc(), p.default_permissions.enc() + enc_seq(m));
                let s3 = adv(s2, 8);
                let s4 = St { depth: s3.depth + 1, ..s3 };
                assert(at(s, s4, p.default_permissions.enc() + enc_seq(m)));
                lemma_at_split(s, s4, p.default_permissions.enc(), enc_seq(m));
                assert forall|i: int| 0 <= i < m.len() implies #[trigger] reads(m[i], 0) by {
                    lemma_reads_party_member(m[i]);
                }
                assert forall|i: int| 0 <= i < m.len() implies (#[trigger] m[i].enc()).len() == 40 by {
                    lemma_reads_party_member(m[i]);
                }
                lemma_read_records(m, 40, 0, s, adv(s4, 8));
            },
        }
    }
}

/// The owner round trip. Every owner a parse gives back is well-formed, and
/// `Writer::owner` can write it; what it writes starts with the variant
/// index and reads back whole, as the same owner: the reader accepts it,
/// and every owner with that encoding is the one written.
pub proof fn lemma_owner_reads_back(o: Owner, o2: Owner)
    requires
        o.well_formed(),
    ensures
        crate::fast::fits_owner(o),
        o.enc()[0] == crate::readback::owner_tag(o),
        exact_rec::<Owner>(o.enc()) == Ok::<(), ParseError>(()),
        o2.enc() == o.enc() ==> crate::readback::same_owner(o, o2),
{
    crate::readback::lemma_owner_first(o);
    lemma_reads_owner(o);
    lemma_at_whole(o.enc());
    assert(at(o.enc(), start(), o.enc()) && room(start(), need_owner(o)));
    if o2.enc() == o.enc() {
        crate::readback::lemma_owner_injective(o, o2);
    }
}

pub open spec fn legal_object_type(t: MoveObjectType) -> bool {
    match t {
        MoveObjectType::Other(x) => legal_st(x),
        MoveObjectType::Coin(x) => legal_tt(x),
        MoveObjectType::BalanceAccumulatorField(x) => legal_tt(x),
        _ => true,
    }
}

/// Two levels of its own, and those of the type inside.
pub open spec fn need_object_type(t: MoveObjectType) -> int {
    2 + match t {
        MoveObjectType::Other(x) => need_st(x),
        MoveObjectType::Coin(x) => need_tt(x),
        MoveObjectType::BalanceAccumulatorField(x) => need_tt(x),
        _ => 0,
    }
}

pub proof fn lemma_need_st_pos(t: StructTag)
    ensures
        need_st(t) >= 2,
{
}

#[verifier::spinoff_prover]
#[verifier::rlimit(40)]
pub proof fn lemma_reads_object_type(t: MoveObjectType)
    requires
        legal_object_type(t),
    ensures
        reads(t, need_object_type(t)),
        need_object_type(t) >= 2,
{
    match t {
        MoveObjectType::Other(x) => lemma_need_st_pos(x),
        MoveObjectType::Coin(x) => lemma_need_tt_pos(x),
        MoveObjectType::BalanceAccumulatorField(x) => lemma_need_tt_pos(x),
        _ => {},
    }
    assert forall|s: Seq<u8>, st: St| at(s, st, t.enc()) && room(st, need_object_type(t)) implies ok_past(
        MoveObjectType::rec(s, st),
        st,
        t.enc().len() as int,
    ) by {
        let st2 = St { depth: st.depth + 2, ..st };
        assert(at(s, st2, t.enc()));
        match t {
            MoveObjectType::Other(x) => {
                lemma_read_tag(0, crate::type_tag::enc_st(x), s, st2);
                lemma_read_st(x, s, adv(st2, 1));
            },
            MoveObjectType::GasCoin => {
                assert(t.enc() == enc_uleb(1) + Seq::<u8>::empty());
                lemma_read_tag(1, Seq::empty(), s, st2);
            },
            MoveObjectType::StakedSui => {
                assert(t.enc() == enc_uleb(2) + Seq::<u8>::empty());
                lemma_read_tag(2, Seq::empty(), s, st2);
            },
            MoveObjectType::Coin(x) => {
                lemma_read_tag(3, crate::type_tag::enc_tt(x), s, st2);
                lemma_read_tt(x, s, adv(st2, 1));
            },
            MoveObjectType::SuiBalanceAccumulatorField => {
                assert(t.enc() == enc_uleb(4) + Seq::<u8>::empty());
                lemma_read_tag(4, Seq::empty(), s, st2);
            },
            MoveObjectType::BalanceAccumulatorField(x) => {
                lemma_read_tag(5, crate::type_tag::enc_tt(x), s, st2);
                lemma_read_tt(x, s, adv(st2, 1));
            },
        }
    }
}

pub proof fn lemma_need_tt_pos(t: TypeTag)
    ensures
        need_tt(t) >= 1,
    decreases t,
{
    match t {
        TypeTag::Vector(inner) => lemma_need_tt_pos(*inner),
        TypeTag::Struct(x) => lemma_need_st_pos(*x),
        _ => {},
    }
}

pub open spec fn legal_move_object(o: MoveObject) -> bool {
    legal_object_type(o.type_) && o.contents@.len() <= MAX_SEQUENCE_LENGTH
}

#[verifier::spinoff_prover]
#[verifier::rlimit(100)]
pub proof fn lemma_reads_move_object(o: MoveObject)
    requires
        legal_move_object(o),
    ensures
        reads(o, 1 + need_object_type(o.type_)),
{
    let need = 1 + need_object_type(o.type_);
    lemma_reads_object_type(o.type_);
    lemma_reads_bytes(o.contents);
    assert forall|s: Seq<u8>, st: St| at(s, st, o.enc()) && room(st, need) implies ok_past(
        MoveObject::rec(s, st),
        st,
        o.enc().len() as int,
    ) by {
        lemma_read_move_object_inner(o, s, St { depth: st.depth + 1, ..st });
    }
}

/// The fields of a Move object, inside its container.
#[verifier::spinoff_prover]
#[verifier::rlimit(100)]
proof fn lemma_read_move_object_inner(o: MoveObject, s: Seq<u8>, st1: St)
    requires
        at(s, st1, o.enc()),
        room(st1, need_object_type(o.type_)),
        reads(o.type_, need_object_type(o.type_)),
        reads(o.contents, 0),
    ensures
        ok_past(
            then(
                MoveObjectType::rec(s, st1),
                |st2: St| then(rec2::<bool, u64>(s, st2), |st3: St| sp_byte_vec(s, st3)),
            ),
            st1,
            o.enc().len() as int,
        ),
{
    let a = o.type_.enc();
    let b = o.has_public_transfer.enc() + o.version.enc();
    let c = crate::wire::enc_bytes(o.contents@);
    assert(o.enc() =~= a + (b + c));
    lemma_at_split(s, st1, a, b + c);
    let st2 = MoveObjectType::rec(s, st1)->Ok_0;
    assert(b + c =~= o.has_public_transfer.enc() + o.version.enc() + c);
    lemma_read_move_object_tail(o, s, st2);
}

pub open spec fn legal_type_origin(t: TypeOrigin) -> bool {
    &&& encode_utf8(t.module_name@).len() <= MAX_SEQUENCE_LENGTH
    &&& encode_utf8(t.datatype_name@).len() <= MAX_SEQUENCE_LENGTH
}

pub proof fn lemma_reads_type_origin(t: TypeOrigin)
    requires
        legal_type_origin(t),
    ensures
        reads(t, 1),
        t.enc().len() >= 34,
{
    crate::wire_size::lemma_string_nonempty(t.module_name);
    crate::wire_size::lemma_string_nonempty(t.datatype_name);
    assert forall|s: Seq<u8>, st: St| at(s, st, t.enc()) && room(st, 1) implies ok_past(
        TypeOrigin::rec(s, st),
        st,
        t.enc().len() as int,
    ) by {
        let st1 = St { depth: st.depth + 1, ..st };
        let a = enc_string(t.module_name);
        let b = enc_string(t.datatype_name);
        assert(t.enc() == a + (b + t.package.enc()));
        assert(at(s, st1, t.enc()));
        lemma_at_split(s, st1, a, b + t.package.enc());
        lemma_read_string(t.module_name, s, st1);
        let st2 = adv(st1, a.len() as int);
        lemma_at_split(s, st2, b, t.package.enc());
        lemma_read_string(t.datatype_name, s, st2);
    }
}

/// Module names strictly increasing by their serialized bytes, and every
/// name and module within the reader's length limit.
pub open spec fn legal_modules(m: Seq<(String, Vec<u8>)>) -> bool {
    &&& forall|i: int| 0 <= i < m.len() ==> encode_utf8((#[trigger] m[i]).0@).len() <= MAX_SEQUENCE_LENGTH
    &&& forall|i: int| 0 <= i < m.len() ==> (#[trigger] m[i]).1@.len() <= MAX_SEQUENCE_LENGTH
    &&& forall|i: int| 0 < i < m.len() ==> lex_lt(enc_string(m[i - 1].0), enc_string(#[trigger] m[i].0))
}

/// One module map entry after the key `prev`.
#[verifier::spinoff_prover]
#[verifier::rlimit(40)]
pub proof fn lemma_read_module_entry(prev: Seq<u8>, name: String, code: Vec<u8>, s: Seq<u8>, st1: St)
    requires
        encode_utf8(name@).len() <= MAX_SEQUENCE_LENGTH,
        code@.len() <= MAX_SEQUENCE_LENGTH,
        lex_lt(prev, enc_string(name)),
        at(s, st1, enc_string(name) + crate::wire::enc_bytes(code@)),
        room(st1, 0),
    ensures
        (match sp_str(s, st1) {
            Err(e) => Err(e),
            Ok(st2) => if !lex_lt(prev, span(s, st1, st2)) {
                Err(ParseError::NonCanonicalMap)
            } else {
                match sp_byte_vec(s, st2) {
                    Ok(st3) => Ok((span(s, st1, st2), st3)),
                    Err(e) => Err(e),
                }
            },
        }) == Ok::<(Seq<u8>, St), ParseError>((
            enc_string(name),
            adv(st1, (enc_string(name) + crate::wire::enc_bytes(code@)).len() as int),
        )),
{
    let a = enc_string(name);
    let b = crate::wire::enc_bytes(code@);
    lemma_at_split(s, st1, a, b);
    lemma_read_string(name, s, st1);
    let st2 = adv(st1, a.len() as int);
    assert(span(s, st1, st2) == a);
    lemma_reads_bytes(code);
    assert(ok_past(Vec::<u8>::rec(s, st2), st2, b.len() as int));
}

#[verifier::spinoff_prover]
#[verifier::rlimit(40)]
pub proof fn lemma_read_modules(m: Seq<(String, Vec<u8>)>, s: Seq<u8>, st: St)
    requires
        legal_modules(m),
        at(s, st, enc_modules(m)),
        room(st, 0),
    ensures
        rec_modules(s, st, m.len()) == Ok::<(Seq<u8>, St), ParseError>((
            if m.len() == 0 { Seq::empty() } else { enc_string(m.last().0) },
            adv(st, enc_modules(m).len() as int),
        )),
        enc_modules(m).len() >= 2 * m.len(),
    decreases m.len(),
{
    if m.len() > 0 {
        let pre = m.drop_last();
        lemma_legal_modules_prefix(m);
        let last = m.last();
        let a = enc_string(last.0);
        let b = crate::wire::enc_bytes(last.1@);
        assert(enc_modules(m) =~= enc_modules(pre) + (a + b));
        lemma_at_split(s, st, enc_modules(pre), a + b);
        lemma_read_modules(pre, s, st);
        let st1 = adv(st, enc_modules(pre).len() as int);
        let prev = if pre.len() == 0 { Seq::<u8>::empty() } else { enc_string(pre.last().0) };
        crate::wire_size::lemma_string_nonempty(last.0);
        crate::wire_size::lemma_bytes_nonempty(last.1@);
        if pre.len() == 0 {
            lemma_lex_empty(a);
        }
        lemma_read_module_entry(prev, last.0, last.1, s, st1);
        assert(pre.len() == (m.len() - 1) as nat);
    }
}

pub proof fn lemma_legal_modules_prefix(m: Seq<(String, Vec<u8>)>)
    requires
        legal_modules(m),
        m.len() > 0,
    ensures
        legal_modules(m.drop_last()),
        encode_utf8(m.last().0@).len() <= MAX_SEQUENCE_LENGTH,
        m.last().1@.len() <= MAX_SEQUENCE_LENGTH,
        m.len() > 1 ==> lex_lt(enc_string(m.drop_last().last().0), enc_string(m.last().0)),
{
    let pre = m.drop_last();
    assert forall|i: int| 0 <= i < pre.len() implies encode_utf8((#[trigger] pre[i]).0@).len() <= MAX_SEQUENCE_LENGTH by {
        assert(pre[i] == m[i]);
    }
    assert forall|i: int| 0 <= i < pre.len() implies (#[trigger] pre[i]).1@.len() <= MAX_SEQUENCE_LENGTH by {
        assert(pre[i] == m[i]);
    }
    assert forall|i: int| 0 < i < pre.len() implies lex_lt(enc_string(pre[i - 1].0), enc_string(#[trigger] pre[i].0)) by {
        assert(pre[i] == m[i] && pre[i - 1] == m[i - 1]);
    }
    assert(encode_utf8(m[m.len() - 1].0@).len() <= MAX_SEQUENCE_LENGTH);
    assert(m[m.len() - 1].1@.len() <= MAX_SEQUENCE_LENGTH);
    if m.len() > 1 {
        assert(lex_lt(enc_string(m[m.len() - 2].0), enc_string(m[m.len() - 1].0)));
    }
}

/// Original ids strictly increasing.
pub open spec fn legal_links(l: Seq<Linkage>) -> bool {
    forall|i: int| 0 < i < l.len() ==> lex_lt(l[i - 1].original_id.0@, (#[trigger] l[i]).original_id.0@)
}

pub proof fn lemma_read_links(l: Seq<Linkage>, s: Seq<u8>, st: St)
    requires
        legal_links(l),
        at(s, st, crate::wire::enc_all(l)),
    ensures
        rec_links(s, st, l.len()) == Ok::<(Seq<u8>, St), ParseError>((
            if l.len() == 0 { Seq::empty() } else { l.last().original_id.0@ },
            adv(st, (72 * l.len()) as int),
        )),
        crate::wire::enc_all(l).len() == 72 * l.len(),
    decreases l.len(),
{
    if l.len() > 0 {
        let pre = l.drop_last();
        assert(legal_links(pre)) by {
            assert forall|i: int| 0 < i < pre.len() implies lex_lt(pre[i - 1].original_id.0@, (#[trigger] pre[i]).original_id.0@) by {
                assert(pre[i] == l[i] && pre[i - 1] == l[i - 1]);
            }
        }
        let last = l.last();
        lemma_at_split(s, st, crate::wire::enc_all(pre), last.enc());
        lemma_read_links(pre, s, st);
        let st1 = adv(st, (72 * pre.len()) as int);
        assert(s.subrange(st1.pos, st1.pos + 32) =~= last.original_id.0@) by {
            assert forall|k: int| 0 <= k < 32 implies s.subrange(st1.pos, st1.pos + 32)[k] == last.original_id.0@[k] by {
                lemma_at_index(s, st1, last.enc(), k);
            }
        }
        if pre.len() == 0 {
            lemma_lex_empty(last.original_id.0@);
        } else {
            assert(lex_lt(l[l.len() - 2].original_id.0@, l[l.len() - 1].original_id.0@));
            assert(pre.last() == l[l.len() - 2]);
        }
        assert(pre.len() == (l.len() - 1) as nat);
    }
}

pub open spec fn legal_package(p: MovePackage) -> bool {
    &&& p.module_map@.len() <= MAX_SEQUENCE_LENGTH
    &&& legal_modules(p.module_map@)
    &&& p.type_origin_table@.len() <= MAX_SEQUENCE_LENGTH
    &&& forall|i: int| 0 <= i < p.type_origin_table@.len() ==> legal_type_origin(#[trigger] p.type_origin_table@[i])
    &&& p.linkage_table@.len() <= MAX_SEQUENCE_LENGTH
    &&& legal_links(p.linkage_table@)
}

pub proof fn lemma_read_module_map(m: Seq<(String, Vec<u8>)>, s: Seq<u8>, st: St)
    requires
        m.len() <= MAX_SEQUENCE_LENGTH,
        legal_modules(m),
        at(s, st, enc_uleb(m.len() as u32) + enc_modules(m)),
        room(st, 0),
    ensures
        rec_module_map(s, st) == Ok::<St, ParseError>(
            adv(st, (enc_uleb(m.len() as u32) + enc_modules(m)).len() as int),
        ),
{
    let n = m.len() as u32;
    lemma_at_split(s, st, enc_uleb(n), enc_modules(m));
    lemma_read_length(n, s, st);
    let sm = adv(st, enc_uleb(n).len() as int);
    lemma_read_modules(m, s, sm);
    assert(n <= (s.len() - sm.pos) / 2);
}

pub proof fn lemma_read_linkage(l: Seq<Linkage>, s: Seq<u8>, st: St)
    requires
        l.len() <= MAX_SEQUENCE_LENGTH,
        legal_links(l),
        at(s, st, enc_seq(l)),
    ensures
        rec_linkage(s, st) == Ok::<St, ParseError>(adv(st, enc_seq(l).len() as int)),
{
    let k = l.len() as u32;
    lemma_at_split(s, st, enc_uleb(k), crate::wire::enc_all(l));
    lemma_read_length(k, s, st);
    let sl = adv(st, enc_uleb(k).len() as int);
    lemma_read_links(l, s, sl);
}

/// The fields of a package, inside its container.
#[verifier::spinoff_prover]
#[verifier::rlimit(40)]
proof fn lemma_read_package_inner(p: MovePackage, s: Seq<u8>, st1: St)
    requires
        legal_package(p),
        at(s, st1, p.enc()),
        room(st1, 1),
    ensures
        ok_past(
            then(
                rec2::<crate::base::ObjectId, u64>(s, st1),
                |st2: St|
                    then(
                        rec_module_map(s, st2),
                        |st3: St|
                            then(
                                sp_seq::<TypeOrigin>(s, st3, 34),
                                |st4: St| rec_linkage(s, st4),
                            ),
                    ),
            ),
            st1,
            p.enc().len() as int,
        ),
{
    let m = p.module_map@;
    let t = p.type_origin_table@;
    let l = p.linkage_table@;
    assert forall|i: int| 0 <= i < t.len() implies #[trigger] reads(t[i], 1) by {
        lemma_reads_type_origin(t[i]);
    }
    assert forall|i: int| 0 <= i < t.len() implies (#[trigger] t[i].enc()).len() >= 34 by {
        lemma_reads_type_origin(t[i]);
    }
    let n = m.len() as u32;
    let a = p.id.enc() + p.version.enc();
    let b = enc_uleb(n) + enc_modules(m);
    let c = enc_seq(t);
    let d = enc_seq(l);
    assert(p.enc() =~= a + (b + (c + d)));
    lemma_at_split(s, st1, a, b + (c + d));
    let st2 = adv(st1, 40);
    lemma_at_split(s, st2, b, c + d);
    lemma_read_module_map(m, s, st2);
    let st3 = adv(st2, b.len() as int);
    lemma_at_split(s, st3, c, d);
    crate::readback::lemma_read_seq(t, 34, 1, s, st3);
    let st4 = sp_seq::<TypeOrigin>(s, st3, 34)->Ok_0;
    assert(at(s, st4, d));
    lemma_read_linkage(l, s, st4);
}

pub proof fn lemma_reads_package(p: MovePackage)
    requires
        legal_package(p),
    ensures
        reads(p, 2),
{
    assert forall|s: Seq<u8>, st: St| at(s, st, p.enc()) && room(st, 2) implies ok_past(
        MovePackage::rec(s, st),
        st,
        p.enc().len() as int,
    ) by {
        lemma_read_package_inner(p, s, St { depth: st.depth + 1, ..st });
    }
}

/// The flag, version and contents of a Move object.
proof fn lemma_read_move_object_tail(o: MoveObject, s: Seq<u8>, st2: St)
    requires
        at(s, st2, o.has_public_transfer.enc() + o.version.enc() + crate::wire::enc_bytes(o.contents@)),
        room(st2, 0),
        reads(o.contents, 0),
    ensures
        ok_past(
            then(rec2::<bool, u64>(s, st2), |st3: St| sp_byte_vec(s, st3)),
            st2,
            (o.has_public_transfer.enc() + o.version.enc() + crate::wire::enc_bytes(o.contents@)).len() as int,
        ),
{
    let b = o.has_public_transfer.enc() + o.version.enc();
    let c = crate::wire::enc_bytes(o.contents@);
    lemma_at_split(s, st2, b, c);
    lemma_at_split(s, st2, o.has_public_transfer.enc(), o.version.enc());
    crate::readback::lemma_read_bool(o.has_public_transfer, s, st2);
    let st3 = adv(st2, 9);
    assert(ok_past(Vec::<u8>::rec(s, st3), st3, c.len() as int));
}

pub open spec fn legal_data(d: Data) -> bool {
    match d {
        Data::Move(o) => legal_move_object(o),
        Data::Package(p) => legal_package(p),
    }
}

/// Levels the data takes: its own container and those of what it holds.
pub open spec fn need_data(d: Data) -> int {
    1 + match d {
        Data::Move(o) => 1 + need_object_type(o.type_),
        Data::Package(_) => 2,
    }
}

pub proof fn lemma_reads_data(d: Data)
    requires
        legal_data(d),
    ensures
        reads(d, need_data(d)),
        need_data(d) >= 3,
{
    match d {
        Data::Move(o) => {
            lemma_reads_move_object(o);
            lemma_reads_object_type(o.type_);
        },
        Data::Package(p) => lemma_reads_package(p),
    }
    assert forall|s: Seq<u8>, st: St| at(s, st, d.enc()) && room(st, need_data(d)) implies ok_past(
        Data::rec(s, st),
        st,
        d.enc().len() as int,
    ) by {
        let st1 = St { depth: st.depth + 1, ..st };
        assert(at(s, st1, d.enc()));
        match d {
            Data::Move(o) => {
                lemma_read_tag(0, o.enc(), s, st1);
                assert(ok_past(MoveObject::rec(s, adv(st1, 1)), adv(st1, 1), o.enc().len() as int));
            },
            Data::Package(p) => {
                lemma_read_tag(1, p.enc(), s, st1);
                assert(ok_past(MovePackage::rec(s, adv(st1, 1)), adv(st1, 1), p.enc().len() as int));
            },
        }
    }
}

pub open spec fn legal_object(o: Object) -> bool {
    legal_data(o.data) && legal_owner(o.owner)
}

pub open spec fn need_object(o: Object) -> int {
    1 + if need_data(o.data) > need_owner(o.owner) {
        need_data(o.data)
    } else {
        need_owner(o.owner)
    }
}

/// The data and owner, one after the other, inside a container.
proof fn lemma_read_data_owner(d: Data, w: Owner, s: Seq<u8>, st1: St, need: int)
    requires
        reads(d, need),
        reads(w, need),
        at(s, st1, d.enc() + w.enc()),
        room(st1, need),
    ensures
        ok_past(rec2::<Data, Owner>(s, st1), st1, (d.enc() + w.enc()).len() as int),
{
    lemma_at_split(s, st1, d.enc(), w.enc());
    let st2 = Data::rec(s, st1)->Ok_0;
    assert(at(s, st2, w.enc()) && room(st2, need));
}

pub proof fn lemma_reads_object(o: Object)
    requires
        legal_object(o),
    ensures
        reads(o, need_object(o)),
{
    let need = need_object(o) - 1;
    lemma_reads_data(o.data);
    lemma_reads_owner(o.owner);
    assert(reads(o.data, need));
    assert(reads(o.owner, need));
    assert forall|s: Seq<u8>, st: St| at(s, st, o.enc()) && room(st, need_object(o)) implies ok_past(
        Object::rec(s, st),
        st,
        o.enc().len() as int,
    ) by {
        lemma_read_object_inner(o, s, St { depth: st.depth + 1, ..st }, need);
    }
}

/// The fields of an object, inside its container.
proof fn lemma_read_object_inner(o: Object, s: Seq<u8>, st1: St, need: int)
    requires
        reads(o.data, need),
        reads(o.owner, need),
        at(s, st1, o.enc()),
        room(st1, need),
        need >= 0,
    ensures
        ok_past(
            crate::effects::rec4::<Data, Owner, crate::base::Digest, u64>(s, st1),
            st1,
            o.enc().len() as int,
        ),
{
    lemma_reads_digest(o.previous_transaction);
    lemma_reads_u64(o.storage_rebate);
    crate::readback::lemma_reads_more_room(o.previous_transaction, 0, need);
    crate::readback::lemma_reads_more_room(o.storage_rebate, 0, need);
    crate::readback::lemma_read_rec4(o.data, o.owner, o.previous_transaction, o.storage_rebate, need, s, st1);
}

pub proof fn lemma_reads_genesis_object(g: GenesisObject)
    requires
        legal_data(g.data),
        legal_owner(g.owner),
    ensures
        reads(g, 1 + if need_data(g.data) > need_owner(g.owner) { need_data(g.data) } else { need_owner(g.owner) }),
{
    let need = if need_data(g.data) > need_owner(g.owner) { need_data(g.data) } else { need_owner(g.owner) };
    lemma_reads_data(g.data);
    lemma_reads_owner(g.owner);
    assert(reads(g.data, need));
    assert(reads(g.owner, need));
    assert forall|s: Seq<u8>, st: St| at(s, st, g.enc()) && room(st, 1 + need) implies ok_past(
        GenesisObject::rec(s, st),
        st,
        g.enc().len() as int,
    ) by {
        let st1 = St { depth: st.depth + 1, ..st };
        let a = g.data.enc() + g.owner.enc();
        assert(g.enc() =~= enc_uleb(0) + a);
        assert(at(s, st1, g.enc()));
        lemma_read_tag(0, a, s, st1);
        lemma_read_data_owner(g.data, g.owner, s, adv(st1, 1), need);
    }
}

/// Every object whose lists are within the reader's limits, whose package
/// maps are in order, and whose type nests within the container depth
/// limit is accepted whole; so is every such genesis object.
pub proof fn lemma_objects_are_accepted(o: Object, g: GenesisObject)
    ensures
        legal_object(o) && need_object(o) <= MAX_CONTAINER_DEPTH
            ==> exact_rec::<Object>(o.enc()) == Ok::<(), ParseError>(()),
        legal_data(g.data) && legal_owner(g.owner) && 1 + need_data(g.data) <= MAX_CONTAINER_DEPTH
            ==> exact_rec::<GenesisObject>(g.enc()) == Ok::<(), ParseError>(()),
{
    if legal_object(o) && need_object(o) <= MAX_CONTAINER_DEPTH {
        lemma_reads_object(o);
        lemma_at_whole(o.enc());
        assert(at(o.enc(), start(), o.enc()) && room(start(), need_object(o)));
    }
    if legal_data(g.data) && legal_owner(g.owner) && 1 + need_data(g.data) <= MAX_CONTAINER_DEPTH {
        lemma_reads_genesis_object(g);
        lemma_reads_data(g.data);
        lemma_at_whole(g.enc());
        let need = 1 + if need_data(g.data) > need_owner(g.owner) { need_data(g.data) } else { need_owner(g.owner) };
        assert(at(g.enc(), start(), g.enc()) && room(start(), need));
    }
}

// ---------------------------------------------------------------------
// Events.

pub proof fn lemma_reads_fixed32_id(v: ObjectId)
    ensures
        reads(v, 0),
{
}

pub proof fn lemma_reads_address(v: SuiAddress)
    ensures
        reads(v, 0),
{
}

pub proof fn lemma_reads_string(t: String)
    requires
        encode_utf8(t@).len() <= MAX_SEQUENCE_LENGTH,
    ensures
        reads(t, 0),
{
    assert forall|s: Seq<u8>, st: St| at(s, st, t.enc()) && room(st, 0) implies ok_past(
        String::rec(s, st),
        st,
        t.enc().len() as int,
    ) by {
        lemma_read_string(t, s, st);
    }
}

pub open spec fn legal_event(e: Event) -> bool {
    &&& encode_utf8(e.transaction_module@).len() <= MAX_SEQUENCE_LENGTH
    &&& legal_st(e.type_)
    &&& e.contents@.len() <= MAX_SEQUENCE_LENGTH
}

/// The fields of an event, inside its container.
proof fn lemma_read_event_inner(e: Event, s: Seq<u8>, st1: St)
    requires
        legal_event(e),
        at(s, st1, e.enc()),
        room(st1, need_st(e.type_)),
    ensures
        ok_past(
            then(
                crate::effects::rec3::<ObjectId, String, SuiAddress>(s, st1),
                |st2: St| then(StructTag::rec(s, st2), |st3: St| sp_byte_vec(s, st3)),
            ),
            st1,
            e.enc().len() as int,
        ),
{
    let need = need_st(e.type_);
    lemma_need_st_pos(e.type_);
    lemma_reads_fixed32_id(e.package_id);
    lemma_reads_string(e.transaction_module);
    lemma_reads_address(e.sender);
    crate::readback::lemma_reads_more_room(e.package_id, 0, need);
    crate::readback::lemma_reads_more_room(e.transaction_module, 0, need);
    crate::readback::lemma_reads_more_room(e.sender, 0, need);
    let a = e.package_id.enc() + e.transaction_module.enc() + e.sender.enc();
    let b = crate::type_tag::enc_st(e.type_);
    let c = crate::wire::enc_bytes(e.contents@);
    assert(e.enc() =~= a + (b + c));
    lemma_at_split(s, st1, a, b + c);
    crate::readback::lemma_read_rec3(e.package_id, e.transaction_module, e.sender, need, s, st1);
    let st2 = crate::effects::rec3::<ObjectId, String, SuiAddress>(s, st1)->Ok_0;
    assert(at(s, st2, b + c));
    lemma_at_split(s, st2, b, c);
    lemma_read_st(e.type_, s, st2);
    let st3 = StructTag::rec(s, st2)->Ok_0;
    assert(at(s, st3, c));
    lemma_reads_bytes(e.contents);
    assert(ok_past(Vec::<u8>::rec(s, st3), st3, c.len() as int));
}

pub proof fn lemma_reads_event(e: Event)
    requires
        legal_event(e),
    ensures
        reads(e, 1 + need_st(e.type_)),
{
    assert forall|s: Seq<u8>, st: St| at(s, st, e.enc()) && room(st, 1 + need_st(e.type_)) implies ok_past(
        Event::rec(s, st),
        st,
        e.enc().len() as int,
    ) by {
        lemma_need_st_pos(e.type_);
        lemma_read_event_inner(e, s, St { depth: st.depth + 1, ..st });
    }
}

/// Every list of events within the reader's limits, each naming a type
/// that nests within the container depth limit, is accepted whole.
pub proof fn lemma_events_are_accepted(v: TransactionEvents)
    requires
        v.data@.len() <= MAX_SEQUENCE_LENGTH,
        forall|i: int| 0 <= i < v.data@.len() ==> legal_event(#[trigger] v.data@[i]),
        forall|i: int| 0 <= i < v.data@.len() ==> 2 + need_st((#[trigger] v.data@[i]).type_) <= MAX_CONTAINER_DEPTH,
    ensures
        exact_rec::<TransactionEvents>(v.enc()) == Ok::<(), ParseError>(()),
{
    let d = v.data@;
    let k = MAX_CONTAINER_DEPTH - 1;
    assert forall|i: int| 0 <= i < d.len() implies #[trigger] reads(d[i], k) by {
        lemma_reads_event(d[i]);
        crate::readback::lemma_reads_more_room(d[i], 1 + need_st(d[i].type_), k);
    }
    assert forall|i: int| 0 <= i < d.len() implies (#[trigger] d[i].enc()).len() >= 101 by {
        crate::wire_size::lemma_event_min_wire_size(d[i]);
    }
    let e = v.enc();
    lemma_at_whole(e);
    let st1 = St { pos: 0, depth: 1, tags: 0 };
    assert(at(e, st1, enc_seq(d)));
    crate::readback::lemma_read_seq(d, 101, k, e, st1);
}

} // verus!
