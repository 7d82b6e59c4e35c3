//! Builders for the messages a validator produces: effects, events,
//! checkpoint contents and summaries. Each gathers its parts, writes the
//! BCS once, and hashes what it wrote. The bytes each writes are the
//! encoding the parsers of this crate read.
use vstd::prelude::*;
use crate::base::{AuthorityName, Digest, ObjectId, blake2b256, hashed_bytes};
use crate::checkpoint::{CheckpointCommitment, CheckpointCommitmentKind, CheckpointSummary, EndOfEpochData};
use crate::effects::{
    AccumulatorOperation, AccumulatorValue, Event, GasCostSummary, IdOperation, ObjectChange,
    ObjectIn, ObjectOut, UnchangedConsensusKind, TransactionEffects, TransactionEffectsV2,
    VersionedEffects, enc_v2_head, enc_v2_tail,
};
use crate::execution_status::ExecutionStatus;
use crate::effects::TransactionEvents;
use crate::fast::{Built, Writer, fits, fits_owner, fits_status, fits_str, fits_tt, fits_st};
use crate::order::{lex_lt, array_lt, lemma_lex_total, lemma_lex_irreflexive, lemma_lex_trans};
use crate::wire::{Wire, enc_uleb, enc_seq, enc_all, enc_bytes, StringSliceAdditionalSpecFns};

verus! {

/// Strictly increasing digests, hence no repeats.
pub open spec fn sorted_digests(v: Seq<Digest>) -> bool {
    forall|i: int| 0 < i < v.len() ==> lex_lt(v[i - 1].bytes@, #[trigger] v[i].bytes@)
}

/// Inserts `x` into a strictly increasing list unless it is there already.
fn insert_sorted_digest(v: &mut Vec<Digest>, x: Digest)
    requires
        sorted_digests(old(v)@),
    ensures
        sorted_digests(final(v)@),
        final(v)@.to_set() == old(v)@.to_set().insert(x),
{
    let mut i: usize = 0;
    while i < v.len() && array_lt(&v[i].bytes, &x.bytes)
        invariant
            i <= v@.len(),
            sorted_digests(v@),
            v@ == old(v)@,
            forall|j: int| 0 <= j < i ==> lex_lt(#[trigger] v@[j].bytes@, x.bytes@),
        decreases v@.len() - i,
    {
        i = i + 1;
    }
    if i < v.len() && !array_lt(&x.bytes, &v[i].bytes) {
        proof {
            lemma_lex_total(v@[i as int].bytes@, x.bytes@);
            assert(v@[i as int].bytes =~= x.bytes);
            assert(v@[i as int] == x);
            assert(v@.to_set().insert(x) =~= v@.to_set());
        }
        return;
    }
    proof {
        if i < v@.len() {
            lemma_lex_total(v@[i as int].bytes@, x.bytes@);
        }
    }
    let ghost old_v = v@;
    assert(i > 0 ==> lex_lt(old_v[i - 1].bytes@, x.bytes@));
    assert(i < old_v.len() ==> lex_lt(x.bytes@, old_v[i as int].bytes@));
    assert(forall|k: int| 0 < k < old_v.len() ==> lex_lt(old_v[k - 1].bytes@, #[trigger] old_v[k].bytes@));
    v.insert(i, x);
    proof {
        assert(v@ =~= old_v.subrange(0, i as int).push(x) + old_v.subrange(i as int, old_v.len() as int));
        assert forall|k: int| 0 < k < v@.len() implies lex_lt(v@[k - 1].bytes@, #[trigger] v@[k].bytes@) by {
            if k < i {
                assert(v@[k - 1] == old_v[k - 1] && v@[k] == old_v[k]);
            } else if k == i {
                assert(v@[k - 1] == old_v[k - 1]);
                assert(v@[k] == x);
            } else if k == i + 1 {
                assert(v@[k - 1] == x);
                assert(v@[k] == old_v[k - 1]);
            } else {
                assert(v@[k - 1] == old_v[k - 2] && v@[k] == old_v[k - 1]);
            }
        }
        assert forall|y: Digest| v@.to_set().contains(y) <==> old_v.to_set().insert(x).contains(y) by {
            if v@.to_set().contains(y) {
                let k = choose|k: int| 0 <= k < v@.len() && v@[k] == y;
                if k < i {
                    assert(old_v[k] == y);
                } else if k > i {
                    assert(old_v[k - 1] == y);
                }
            }
            if old_v.to_set().contains(y) && y != x {
                let k = choose|k: int| 0 <= k < old_v.len() && old_v[k] == y;
                if k < i {
                    assert(v@[k] == y);
                } else {
                    assert(v@[k + 1] == y);
                }
            }
            if y == x {
                assert(v@[i as int] == x);
            }
        }
        assert(v@.to_set() =~= old_v.to_set().insert(x));
    }
}

/// The digests in increasing order, each once.
pub fn sort_dedup_digests(v: &Vec<Digest>) -> (out: Vec<Digest>)
    ensures
        sorted_digests(out@),
        out@.to_set() == v@.to_set(),
{
    let mut out: Vec<Digest> = Vec::new();
    let mut i: usize = 0;
    assert(out@.to_set() =~= v@.subrange(0, 0).to_set());
    while i < v.len()
        invariant
            i <= v@.len(),
            sorted_digests(out@),
            out@.to_set() == v@.subrange(0, i as int).to_set(),
        decreases v@.len() - i,
    {
        insert_sorted_digest(&mut out, v[i]);
        proof {
            assert(v@.subrange(0, i + 1) =~= v@.subrange(0, i as int).push(v@[i as int]));
            v@.subrange(0, i as int).lemma_push_to_set_commute(v@[i as int]);
        }
        i = i + 1;
    }
    assert(v@.subrange(0, i as int) =~= v@);
    out
}

pub open spec fn fits_object_in(i: ObjectIn) -> bool {
    i matches ObjectIn::Exist { owner, .. } ==> fits_owner(owner)
}

pub open spec fn fits_object_out(o: ObjectOut) -> bool {
    match o {
        ObjectOut::ObjectWrite(_, owner) => fits_owner(owner),
        ObjectOut::AccumulatorWriteV1(w) => fits_tt(w.ty) && (w.value matches AccumulatorValue::EventDigest(c) ==> fits(c@.len() as int)),
        _ => true,
    }
}

pub open spec fn fits_change(c: ObjectChange) -> bool {
    fits_object_in(c.input_state) && fits_object_out(c.output_state)
}

fn object_in(w: &mut Writer, input: &ObjectIn)
    requires
        fits_object_in(*input),
    ensures
        final(w).written() == old(w).written() + input.enc(),
{
    match input {
        ObjectIn::NotExist => w.u8(0),
        ObjectIn::Exist { version, digest, owner } => {
            w.u8(1);
            w.u64(*version);
            w.digest(digest);
            w.owner(owner);
        },
    }
    assert(w.written() =~= old(w).written() + input.enc());
}

fn commitments_of_events(w: &mut Writer, c: &Vec<crate::effects::EventCommitment>)
    ensures
        final(w).written() == old(w).written() + enc_all(c@),
{
    let mut i: usize = 0;
    while i < c.len()
        invariant
            i <= c@.len(),
            w.written() == old(w).written() + enc_all(c@.subrange(0, i as int)),
        decreases c@.len() - i,
    {
        w.raw(c[i].index.0.as_slice());
        w.digest(&c[i].digest);
        proof {
            let sub = c@.subrange(0, i + 1);
            assert(sub.drop_last() =~= c@.subrange(0, i as int));
            assert(w.written() =~= old(w).written() + enc_all(sub));
        }
        i = i + 1;
    }
    assert(c@.subrange(0, i as int) =~= c@);
}

fn object_out(w: &mut Writer, output: &ObjectOut)
    requires
        fits_object_out(*output),
    ensures
        final(w).written() == old(w).written() + output.enc(),
{
    match output {
        ObjectOut::NotExist => w.u8(0),
        ObjectOut::ObjectWrite(digest, owner) => {
            w.u8(1);
            w.digest(digest);
            w.owner(owner);
        },
        ObjectOut::PackageWrite(version, digest) => {
            w.u8(2);
            w.u64(*version);
            w.digest(digest);
        },
        ObjectOut::AccumulatorWriteV1(write) => {
            w.u8(3);
            w.address(&write.address);
            w.type_tag(&write.ty);
            match write.operation {
                AccumulatorOperation::Merge => w.u8(0),
                AccumulatorOperation::Split => w.u8(1),
            }
            match &write.value {
                AccumulatorValue::Integer(v) => {
                    w.u8(0);
                    w.u64(*v);
                },
                AccumulatorValue::IntegerTuple(a, b) => {
                    w.u8(1);
                    w.u64(*a);
                    w.u64(*b);
                },
                AccumulatorValue::EventDigest(commitments) => {
                    w.u8(2);
                    w.len_prefix(commitments.len());
                    commitments_of_events(w, commitments);
                },
            }
        },
    }
    assert(w.written() =~= old(w).written() + output.enc());
}

fn unchanged_kind(w: &mut Writer, kind: &UnchangedConsensusKind)
    ensures
        final(w).written() == old(w).written() + kind.enc(),
{
    match kind {
        UnchangedConsensusKind::ReadOnlyRoot(version, digest) => {
            w.u8(0);
            w.u64(*version);
            w.digest(digest);
        },
        UnchangedConsensusKind::MutateConsensusStreamEnded(v) => {
            w.u8(1);
            w.u64(*v);
        },
        UnchangedConsensusKind::ReadConsensusStreamEnded(v) => {
            w.u8(2);
            w.u64(*v);
        },
        UnchangedConsensusKind::Cancelled(v) => {
            w.u8(3);
            w.u64(*v);
        },
        UnchangedConsensusKind::PerEpochConfig => w.u8(4),
    }
    assert(w.written() =~= old(w).written() + kind.enc());
}

fn change(w: &mut Writer, c: &ObjectChange)
    requires
        fits_change(*c),
    ensures
        final(w).written() == old(w).written() + c.enc(),
{
    w.raw(c.id.0.as_slice());
    object_in(w, &c.input_state);
    object_out(w, &c.output_state);
    match c.id_operation {
        IdOperation::NoChange => w.u8(0),
        IdOperation::Created => w.u8(1),
        IdOperation::Deleted => w.u8(2),
    }
    assert(w.written() =~= old(w).written() + c.enc());
}

/// Builds `TransactionEffects::V2`.
///
/// Changed objects must be given in increasing id order, which is how the
/// reference emits them; dependencies may come in any order and are sorted
/// and deduplicated at `finish`, as Sui's `BTreeSet` does.
pub struct EffectsBuilder {
    pub status: ExecutionStatus,
    pub executed_epoch: u64,
    pub gas_used: GasCostSummary,
    pub transaction_digest: Digest,
    pub lamport_version: u64,
    pub events_digest: Option<Digest>,
    pub aux_data_digest: Option<Digest>,
    pub dependencies: Vec<Digest>,
    pub changed: Vec<ObjectChange>,
    pub gas_object_index: Option<u32>,
    pub unchanged: Vec<(ObjectId, UnchangedConsensusKind)>,
    /// A running estimate of the encoded size.
    pub bytes: usize,
}

/// The effects a builder writes, with its dependencies in the order given.
pub open spec fn effects_v2_bytes(b: EffectsBuilder, deps: Seq<Digest>) -> Seq<u8> {
    enc_uleb(1) + b.status.enc() + b.executed_epoch.enc() + b.gas_used.enc()
        + b.transaction_digest.enc() + b.gas_object_index.enc() + b.events_digest.enc()
        + enc_seq(deps) + b.lamport_version.enc() + enc_seq(b.changed@) + enc_seq(b.unchanged@)
        + b.aux_data_digest.enc()
}

/// In a strictly increasing list, every digest comes before every later one.
proof fn lemma_sorted_before(v: Seq<Digest>, i: int, j: int)
    requires
        sorted_digests(v),
        0 <= i < j < v.len(),
    ensures
        lex_lt(v[i].bytes@, v[j].bytes@),
    decreases j - i,
{
    if j > i + 1 {
        lemma_sorted_before(v, i, j - 1);
        lemma_lex_trans(v[i].bytes@, v[j - 1].bytes@, v[j].bytes@);
    }
}

/// Two strictly increasing lists of the same digests are the same list.
proof fn lemma_sorted_same_set(a: Seq<Digest>, b: Seq<Digest>)
    requires
        sorted_digests(a),
        sorted_digests(b),
        a.to_set() == b.to_set(),
    ensures
        a == b,
    decreases a.len() + b.len(),
{
    if a.len() == 0 || b.len() == 0 {
        if a.len() > 0 {
            assert(a.to_set().contains(a[0]));
        }
        if b.len() > 0 {
            assert(b.to_set().contains(b[0]));
        }
        assert(a =~= b);
    } else {
        let x = a.last();
        let y = b.last();
        assert(a.to_set().contains(x) && b.to_set().contains(y));
        let i = choose|i: int| 0 <= i < b.len() && b[i] == x;
        let j = choose|j: int| 0 <= j < a.len() && a[j] == y;
        if i < b.len() - 1 {
            lemma_sorted_before(b, i, b.len() - 1);
        }
        if j < a.len() - 1 {
            lemma_sorted_before(a, j, a.len() - 1);
        }
        if x != y {
            lemma_lex_total(x.bytes@, y.bytes@);
            if x.bytes@ == y.bytes@ {
                crate::readback::lemma_array_eq(x.bytes, y.bytes);
            }
            if i == b.len() - 1 {
                assert(false);
            }
            if j == a.len() - 1 {
                assert(false);
            }
            lemma_lex_trans(x.bytes@, y.bytes@, x.bytes@);
            lemma_lex_irreflexive(x.bytes@);
        }
        let a2 = a.drop_last();
        let b2 = b.drop_last();
        assert forall|k: int| 0 <= k < a2.len() implies lex_lt(#[trigger] a2[k].bytes@, x.bytes@) by {
            lemma_sorted_before(a, k, a.len() - 1);
        }
        assert forall|k: int| 0 <= k < b2.len() implies lex_lt(#[trigger] b2[k].bytes@, x.bytes@) by {
            lemma_sorted_before(b, k, b.len() - 1);
        }
        assert(a2.to_set() =~= b2.to_set()) by {
            assert forall|z: Digest| a2.to_set().contains(z) implies b2.to_set().contains(z) by {
                let k = choose|k: int| 0 <= k < a2.len() && a2[k] == z;
                assert(a.to_set().contains(z));
                let m = choose|m: int| 0 <= m < b.len() && b[m] == z;
                if m == b.len() - 1 {
                    lemma_lex_irreflexive(x.bytes@);
                }
                assert(b2[m] == z);
            }
            assert forall|z: Digest| b2.to_set().contains(z) implies a2.to_set().contains(z) by {
                let k = choose|k: int| 0 <= k < b2.len() && b2[k] == z;
                assert(b.to_set().contains(z));
                let m = choose|m: int| 0 <= m < a.len() && a[m] == z;
                if m == a.len() - 1 {
                    lemma_lex_irreflexive(x.bytes@);
                }
                assert(a2[m] == z);
            }
        }
        lemma_sorted_same_set(a2, b2);
        assert(a =~= a2.push(x));
        assert(b =~= b2.push(y));
    }
}

/// A builder holding the fields of version 2 effects, its dependencies the
/// same digests in any order and any number of times.
pub open spec fn fills_effects(b: EffectsBuilder, e: TransactionEffectsV2) -> bool {
    &&& b.status == e.status
    &&& b.executed_epoch == e.executed_epoch
    &&& b.gas_used == e.gas_used
    &&& b.transaction_digest == e.transaction_digest
    &&& b.lamport_version == e.lamport_version
    &&& b.events_digest == e.events_digest
    &&& b.aux_data_digest == e.aux_data_digest
    &&& b.gas_object_index == e.gas_object_index
    &&& b.changed@ == e.changed_objects@
    &&& b.unchanged@ == e.unchanged_consensus_objects@
    &&& b.dependencies@.to_set() == e.dependencies@.to_set()
}

/// A builder filled from parsed effects writes those effects back, when
/// their dependencies were sorted and each named once, as the builder
/// writes them: what `finish` writes is the bytes they were parsed from,
/// and so its digest is theirs.
#[verifier::spinoff_prover]
#[verifier::rlimit(40)]
pub proof fn lemma_effects_rebuild(b: EffectsBuilder, e: TransactionEffects, d: Seq<Digest>)
    requires
        e.version matches VersionedEffects::V2(v) && fills_effects(b, v) && sorted_digests(v.dependencies@),
        sorted_digests(d),
        d.to_set() == b.dependencies@.to_set(),
    ensures
        effects_v2_bytes(b, d) == e.enc(),
        e.derived() ==> effects_v2_bytes(b, d) == e.bytes@ && e.digest.bytes@ == blake2b256(
            hashed_bytes("TransactionEffects".spec_bytes(), effects_v2_bytes(b, d)),
        ),
{
    let v = e.version->V2_0;
    lemma_sorted_same_set(d, v.dependencies@);
    let head = enc_v2_head(v);
    let tail = enc_v2_tail(v);
    assert(e.enc() == enc_uleb(1) + (head + tail));
    let front = enc_uleb(1) + b.status.enc() + b.executed_epoch.enc() + b.gas_used.enc()
        + b.transaction_digest.enc() + b.gas_object_index.enc() + b.events_digest.enc() + enc_seq(d)
        + b.lamport_version.enc();
    assert(front =~= enc_uleb(1) + head);
    assert(effects_v2_bytes(b, d) == front + enc_seq(b.changed@) + enc_seq(b.unchanged@) + b.aux_data_digest.enc());
    assert(effects_v2_bytes(b, d) =~= front + tail);
}

fn write_digests(w: &mut Writer, v: &Vec<Digest>)
    ensures
        final(w).written() == old(w).written() + enc_all(v@),
{
    let mut i: usize = 0;
    while i < v.len()
        invariant
            i <= v@.len(),
            w.written() == old(w).written() + enc_all(v@.subrange(0, i as int)),
        decreases v@.len() - i,
    {
        w.digest(&v[i]);
        proof {
            let sub = v@.subrange(0, i + 1);
            assert(sub.drop_last() =~= v@.subrange(0, i as int));
        }
        i = i + 1;
    }
    assert(v@.subrange(0, i as int) =~= v@);
}

fn gas_cost(w: &mut Writer, g: &GasCostSummary)
    ensures
        final(w).written() == old(w).written() + g.enc(),
{
    w.u64(g.computation_cost);
    w.u64(g.storage_cost);
    w.u64(g.storage_rebate);
    w.u64(g.non_refundable_storage_fee);
    assert(w.written() =~= old(w).written() + g.enc());
}

fn option_u32(w: &mut Writer, v: Option<u32>)
    ensures
        final(w).written() == old(w).written() + v.enc(),
{
    match v {
        Some(i) => {
            w.u8(1);
            w.u32(i);
        },
        None => w.u8(0),
    }
    assert(w.written() =~= old(w).written() + v.enc());
}

fn write_changes(w: &mut Writer, changed: &Vec<ObjectChange>)
    requires
        fits(changed@.len() as int),
        forall|i: int| 0 <= i < changed@.len() ==> fits_change(#[trigger] changed@[i]),
    ensures
        final(w).written() == old(w).written() + enc_seq(changed@),
{
    w.len_prefix(changed.len());
    let ghost base = w.written();
    let mut i: usize = 0;
    while i < changed.len()
        invariant
            i <= changed@.len(),
            forall|j: int| 0 <= j < changed@.len() ==> fits_change(#[trigger] changed@[j]),
            w.written() == base + enc_all(changed@.subrange(0, i as int)),
        decreases changed@.len() - i,
    {
        change(w, &changed[i]);
        proof {
            let sub = changed@.subrange(0, i + 1);
            assert(sub.drop_last() =~= changed@.subrange(0, i as int));
        }
        i = i + 1;
    }
    assert(changed@.subrange(0, i as int) =~= changed@);
}

fn write_unchanged(w: &mut Writer, unchanged: &Vec<(ObjectId, UnchangedConsensusKind)>)
    requires
        fits(unchanged@.len() as int),
    ensures
        final(w).written() == old(w).written() + enc_seq(unchanged@),
{
    w.len_prefix(unchanged.len());
    let ghost base = w.written();
    let mut k: usize = 0;
    while k < unchanged.len()
        invariant
            k <= unchanged@.len(),
            w.written() == base + enc_all(unchanged@.subrange(0, k as int)),
        decreases unchanged@.len() - k,
    {
        let (id, kind) = &unchanged[k];
        w.raw(id.0.as_slice());
        unchanged_kind(w, kind);
        proof {
            let sub = unchanged@.subrange(0, k + 1);
            assert(sub.drop_last() =~= unchanged@.subrange(0, k as int));
        }
        k = k + 1;
    }
    assert(unchanged@.subrange(0, k as int) =~= unchanged@);
}

impl EffectsBuilder {
    pub fn new_in(
        status: ExecutionStatus,
        executed_epoch: u64,
        gas_used: GasCostSummary,
        transaction_digest: Digest,
        lamport_version: u64,
    ) -> (b: EffectsBuilder)
        ensures
            b.status == status,
            b.executed_epoch == executed_epoch,
            b.gas_used == gas_used,
            b.transaction_digest == transaction_digest,
            b.lamport_version == lamport_version,
            b.events_digest is None,
            b.aux_data_digest is None,
            b.dependencies@ == Seq::<Digest>::empty(),
            b.changed@ == Seq::<ObjectChange>::empty(),
            b.gas_object_index is None,
            b.unchanged@ == Seq::<(ObjectId, UnchangedConsensusKind)>::empty(),
    {
        EffectsBuilder {
            status,
            executed_epoch,
            gas_used,
            transaction_digest,
            lamport_version,
            events_digest: None,
            aux_data_digest: None,
            dependencies: Vec::with_capacity(8),
            changed: Vec::with_capacity(8),
            gas_object_index: None,
            unchanged: Vec::with_capacity(4),
            bytes: 128,
        }
    }

    pub fn events_digest(&mut self, digest: Option<Digest>)
        ensures
            *final(self) == (EffectsBuilder { events_digest: digest, ..*old(self) }),
    {
        self.events_digest = digest;
    }

    pub fn aux_data_digest(&mut self, digest: Option<Digest>)
        ensures
            *final(self) == (EffectsBuilder { aux_data_digest: digest, ..*old(self) }),
    {
        self.aux_data_digest = digest;
    }

    pub fn dependency(&mut self, digest: Digest)
        ensures
            final(self).dependencies@ == old(self).dependencies@.push(digest),
            final(self).changed@ == old(self).changed@,
            final(self).unchanged@ == old(self).unchanged@,
            final(self).gas_object_index == old(self).gas_object_index,
    {
        self.dependencies.push(digest);
        self.bytes = self.bytes.saturating_add(33);
    }

    /// The next changed object; `id` must exceed the previous one's.
    pub fn change(&mut self, id: ObjectId, input: ObjectIn, output: ObjectOut, operation: IdOperation)
        requires
            old(self).changed@.len() > 0 ==> lex_lt(old(self).changed@.last().id.0@, id.0@),
        ensures
            final(self).changed@ == old(self).changed@.push(
                ObjectChange { id, input_state: input, output_state: output, id_operation: operation },
            ),
            final(self).dependencies@ == old(self).dependencies@,
            final(self).unchanged@ == old(self).unchanged@,
            final(self).gas_object_index == old(self).gas_object_index,
    {
        self.bytes = self.bytes.saturating_add(32 + 1 + 42 + 1 + 34 + 1);
        self.changed.push(ObjectChange { id, input_state: input, output_state: output, id_operation: operation });
    }

    /// Marks the change pushed last as the gas object.
    pub fn gas_object_is_last(&mut self)
        requires
            0 < old(self).changed@.len() <= u32::MAX,
        ensures
            final(self).gas_object_index == Some((old(self).changed@.len() - 1) as u32),
            final(self).changed@ == old(self).changed@,
            final(self).dependencies@ == old(self).dependencies@,
            final(self).unchanged@ == old(self).unchanged@,
    {
        self.gas_object_index = Some(self.changed.len() as u32 - 1);
    }

    pub fn unchanged(&mut self, id: ObjectId, kind: UnchangedConsensusKind)
        ensures
            final(self).unchanged@ == old(self).unchanged@.push((id, kind)),
            final(self).changed@ == old(self).changed@,
            final(self).dependencies@ == old(self).dependencies@,
            final(self).gas_object_index == old(self).gas_object_index,
    {
        self.unchanged.push((id, kind));
        self.bytes = self.bytes.saturating_add(32 + 1 + 8 + 33);
    }

    /// Writes the effects, dependencies sorted and each once, and their
    /// digest.
    #[verifier::spinoff_prover]
    #[verifier::rlimit(60)]
    pub fn finish(self) -> (b: Built)
        requires
            fits_status(self.status),
            fits(self.dependencies@.len() as int),
            fits(self.changed@.len() as int),
            fits(self.unchanged@.len() as int),
            forall|i: int| 0 <= i < self.changed@.len() ==> fits_change(#[trigger] self.changed@[i]),
        ensures
            exists|d: Seq<Digest>| {
                &&& sorted_digests(d)
                &&& d.to_set() == self.dependencies@.to_set()
                &&& b.bytes@ == effects_v2_bytes(self, d)
            },
            b.digest.bytes@ == blake2b256(hashed_bytes("TransactionEffects".spec_bytes(), b.bytes@)),
    {
        let deps = sort_dedup_digests(&self.dependencies);
        proof {
            lemma_sorted_len(deps@, self.dependencies@);
        }
        let mut w = Writer::new_in(self.bytes);
        w.u8(1);
        w.execution_status(&self.status);
        w.u64(self.executed_epoch);
        gas_cost(&mut w, &self.gas_used);
        w.digest(&self.transaction_digest);
        option_u32(&mut w, self.gas_object_index);
        w.option_digest(self.events_digest.as_ref());
        let ghost mid = w.written();
        w.len_prefix(deps.len());
        write_digests(&mut w, &deps);
        w.u64(self.lamport_version);
        write_changes(&mut w, &self.changed);
        write_unchanged(&mut w, &self.unchanged);
        w.option_digest(self.aux_data_digest.as_ref());
        proof {
            assert(w.written() =~= effects_v2_bytes(self, deps@));
        }
        w.finish("TransactionEffects")
    }
}

/// A sorted copy without repeats is no longer than the original.
proof fn lemma_sorted_len(d: Seq<Digest>, v: Seq<Digest>)
    requires
        sorted_digests(d),
        d.to_set() == v.to_set(),
    ensures
        d.len() <= v.len(),
{
    lemma_sorted_no_dup(d);
    d.unique_seq_to_set();
    v.lemma_cardinality_of_set();
}

proof fn lemma_sorted_no_dup(d: Seq<Digest>)
    requires
        sorted_digests(d),
    ensures
        d.no_duplicates(),
{
    assert forall|i: int, j: int| 0 <= i < j < d.len() implies d[i] != d[j] by {
        lemma_sorted_pair(d, i, j);
        if d[i] == d[j] {
            lemma_lex_irreflexive(d[i].bytes@);
        }
    }
}

/// Adjacent order extends to any two positions.
proof fn lemma_sorted_pair(d: Seq<Digest>, i: int, j: int)
    requires
        sorted_digests(d),
        0 <= i < j < d.len(),
    ensures
        lex_lt(d[i].bytes@, d[j].bytes@),
    decreases j - i,
{
    if j > i + 1 {
        lemma_sorted_pair(d, i, j - 1);
        lemma_lex_trans(d[i].bytes@, d[j - 1].bytes@, d[j].bytes@);
    }
}

pub open spec fn fits_event(e: Event) -> bool {
    fits_str(e.transaction_module) && fits_st(e.type_) && fits(e.contents@.len() as int)
}

fn event(w: &mut Writer, e: &Event)
    requires
        fits_event(*e),
    ensures
        final(w).written() == old(w).written() + e.enc(),
{
    w.raw(e.package_id.0.as_slice());
    w.string(&e.transaction_module);
    w.address(&e.sender);
    w.struct_tag(&e.type_);
    w.bytes(e.contents.as_slice());
    assert(w.written() =~= old(w).written() + e.enc());
}

/// A builder holding the events of a parsed list, in order, writes that
/// list back: `finish` may be called on it, and it gives the bytes the
/// list was parsed from, and so the digest the list gives. A builder with no
/// events writes the count 0 alone.
pub proof fn lemma_events_rebuild(b: EventsBuilder, ev: TransactionEvents)
    requires
        b.events@ == ev.data@,
        ev.well_formed(),
    ensures
        fits(b.events@.len() as int),
        forall|i: int| 0 <= i < b.events@.len() ==> fits_event(#[trigger] b.events@[i]),
        enc_seq(b.events@) == ev.enc(),
        ev.bytes@ == ev.enc() ==> enc_seq(b.events@) == ev.bytes@,
        b.events@.len() == 0 ==> enc_seq(b.events@) == seq![0u8],
{
    assert forall|i: int| 0 <= i < b.events@.len() implies fits_event(#[trigger] b.events@[i]) by {
        assert(crate::accept::legal_event(ev.data@[i]));
        crate::fast::lemma_legal_struct_fits(b.events@[i].type_);
    }
    if b.events@.len() == 0 {
        reveal_with_fuel(enc_uleb, 1);
        assert(enc_all(b.events@) == Seq::<u8>::empty());
        assert(enc_seq(b.events@) =~= seq![0u8]);
    }
}

/// Builds `TransactionEvents`: all the events with their count.
pub struct EventsBuilder {
    pub events: Vec<Event>,
    pub bytes: usize,
}

impl EventsBuilder {
    pub fn new_in(expected: usize) -> (b: EventsBuilder)
        ensures
            b.events@ == Seq::<Event>::empty(),
    {
        EventsBuilder { events: Vec::with_capacity(expected), bytes: 1 }
    }

    pub fn push(&mut self, event: Event)
        ensures
            final(self).events@ == old(self).events@.push(event),
    {
        // An id, a name, a sender, a type and the contents, roughly.
        let estimate = (32usize + 1 + 32 + 64 + 5).saturating_add(event.transaction_module.as_str().len()).saturating_add(
            event.contents.len(),
        );
        self.bytes = self.bytes.saturating_add(estimate);
        self.events.push(event);
    }

    pub fn len(&self) -> (n: usize)
        ensures
            n == self.events@.len(),
    {
        self.events.len()
    }

    pub fn is_empty(&self) -> (b: bool)
        ensures
            b == (self.events@.len() == 0),
    {
        self.events.len() == 0
    }

    /// The events with their count, and their digest.
    pub fn finish(self) -> (b: Built)
        requires
            fits(self.events@.len() as int),
            forall|i: int| 0 <= i < self.events@.len() ==> fits_event(#[trigger] self.events@[i]),
        ensures
            b.bytes@ == enc_seq(self.events@),
            b.digest.bytes@ == blake2b256(hashed_bytes("TransactionEvents".spec_bytes(), b.bytes@)),
    {
        let mut w = Writer::new_in(self.bytes);
        w.len_prefix(self.events.len());
        let ghost base = w.written();
        let mut i: usize = 0;
        while i < self.events.len()
            invariant
                i <= self.events@.len(),
                forall|j: int| 0 <= j < self.events@.len() ==> fits_event(#[trigger] self.events@[j]),
                w.written() == base + enc_all(self.events@.subrange(0, i as int)),
            decreases self.events@.len() - i,
        {
            event(&mut w, &self.events[i]);
            proof {
                let sub = self.events@.subrange(0, i + 1);
                assert(sub.drop_last() =~= self.events@.subrange(0, i as int));
            }
            i = i + 1;
        }
        assert(self.events@.subrange(0, i as int) =~= self.events@);
        w.finish("TransactionEvents")
    }
}

/// A signature over a transaction and the alias version it was checked
/// against, as `CheckpointContents::V2` records them.
pub type UserSignature = (Vec<u8>, Option<u64>);

/// One entry of the contents: the digests and the signatures.
pub open spec fn contents_entry(t: (Digest, Digest, Vec<UserSignature>)) -> Seq<u8> {
    t.0.enc() + t.1.enc() + enc_seq(t.2@)
}

pub open spec fn contents_entries(v: Seq<(Digest, Digest, Vec<UserSignature>)>) -> Seq<u8>
    decreases v.len(),
{
    if v.len() == 0 {
        Seq::empty()
    } else {
        contents_entries(v.drop_last()) + contents_entry(v.last())
    }
}

pub open spec fn fits_signatures(v: Seq<UserSignature>) -> bool {
    fits(v.len() as int) && forall|i: int| 0 <= i < v.len() ==> fits(#[trigger] v[i].0@.len() as int)
}

fn signatures(w: &mut Writer, v: &Vec<UserSignature>)
    requires
        fits_signatures(v@),
    ensures
        final(w).written() == old(w).written() + enc_seq(v@),
{
    w.len_prefix(v.len());
    let ghost base = w.written();
    let mut i: usize = 0;
    while i < v.len()
        invariant
            i <= v@.len(),
            fits_signatures(v@),
            w.written() == base + enc_all(v@.subrange(0, i as int)),
        decreases v@.len() - i,
    {
        let (signature, alias_version) = &v[i];
        w.bytes(signature.as_slice());
        w.option_u64(*alias_version);
        proof {
            let sub = v@.subrange(0, i + 1);
            assert(sub.drop_last() =~= v@.subrange(0, i as int));
            assert(w.written() =~= base + enc_all(sub));
        }
        i = i + 1;
    }
    assert(v@.subrange(0, i as int) =~= v@);
}

/// Builds `CheckpointContents::V2`: one entry per transaction, in order.
pub struct ContentsBuilder {
    pub transactions: Vec<(Digest, Digest, Vec<UserSignature>)>,
    pub bytes: usize,
}

impl ContentsBuilder {
    pub fn new_in(expected: usize) -> (b: ContentsBuilder)
        ensures
            b.transactions@ == Seq::<(Digest, Digest, Vec<UserSignature>)>::empty(),
    {
        ContentsBuilder { transactions: Vec::with_capacity(expected), bytes: 2 }
    }

    pub fn push(&mut self, transaction: Digest, effects: Digest, signatures: Vec<UserSignature>)
        ensures
            final(self).transactions@ == old(self).transactions@.push((transaction, effects, signatures)),
    {
        let mut estimate: usize = 66 + 1;
        let mut i: usize = 0;
        while i < signatures.len()
            invariant
                i <= signatures@.len(),
            decreases signatures@.len() - i,
        {
            estimate = estimate.saturating_add(2 + 9).saturating_add(signatures[i].0.len());
            i = i + 1;
        }
        self.bytes = self.bytes.saturating_add(estimate);
        self.transactions.push((transaction, effects, signatures));
    }

    pub fn len(&self) -> (n: usize)
        ensures
            n == self.transactions@.len(),
    {
        self.transactions.len()
    }

    pub fn is_empty(&self) -> (b: bool)
        ensures
            b == (self.transactions@.len() == 0),
    {
        self.transactions.len() == 0
    }

    /// The contents, version 2, and their digest.
    pub fn finish(self) -> (b: Built)
        requires
            fits(self.transactions@.len() as int),
            forall|i: int| 0 <= i < self.transactions@.len() ==> fits_signatures(#[trigger] self.transactions@[i].2@),
        ensures
            b.bytes@ == enc_uleb(1) + enc_uleb(self.transactions@.len() as u32) + contents_entries(self.transactions@),
            b.digest.bytes@ == blake2b256(hashed_bytes("CheckpointContents".spec_bytes(), b.bytes@)),
    {
        let mut w = Writer::new_in(self.bytes);
        w.u8(1);
        w.len_prefix(self.transactions.len());
        let ghost base = w.written();
        let mut i: usize = 0;
        while i < self.transactions.len()
            invariant
                i <= self.transactions@.len(),
                forall|j: int| 0 <= j < self.transactions@.len() ==> fits_signatures(#[trigger] self.transactions@[j].2@),
                w.written() == base + contents_entries(self.transactions@.subrange(0, i as int)),
            decreases self.transactions@.len() - i,
        {
            let (transaction, effects, sigs) = &self.transactions[i];
            w.digest(transaction);
            w.digest(effects);
            signatures(&mut w, sigs);
            proof {
                let sub = self.transactions@.subrange(0, i + 1);
                assert(sub.drop_last() =~= self.transactions@.subrange(0, i as int));
                assert(w.written() =~= base + contents_entries(sub));
            }
            i = i + 1;
        }
        assert(self.transactions@.subrange(0, i as int) =~= self.transactions@);
        assert(w.written() =~= enc_uleb(1) + enc_uleb(self.transactions@.len() as u32) + contents_entries(self.transactions@));
        w.finish("CheckpointContents")
    }
}

/// The end-of-epoch part of a summary: the next committee with stakes, the
/// next protocol version, and the epoch's commitments.
pub struct EndOfEpoch {
    pub next_epoch_committee: Vec<(AuthorityName, u64)>,
    pub next_epoch_protocol_version: u64,
    pub epoch_commitments: Vec<CheckpointCommitment>,
}

pub open spec fn end_of_epoch_bytes(e: Option<EndOfEpoch>) -> Seq<u8> {
    match e {
        Some(e) => seq![1u8] + enc_seq(e.next_epoch_committee@) + e.next_epoch_protocol_version.enc()
            + enc_seq(e.epoch_commitments@),
        None => seq![0u8],
    }
}

/// Builds a `CheckpointSummary`. Every field is required up front; the
/// optional ones default to absent.
pub struct SummaryBuilder {
    pub epoch: u64,
    pub sequence_number: u64,
    pub network_total_transactions: u64,
    pub content_digest: Digest,
    pub previous_digest: Option<Digest>,
    pub epoch_rolling_gas_cost_summary: GasCostSummary,
    pub timestamp_ms: u64,
    pub checkpoint_commitments: Vec<CheckpointCommitment>,
    pub end_of_epoch_data: Option<EndOfEpoch>,
    pub version_specific_data: Vec<u8>,
}

/// The summary a builder writes.
pub open spec fn summary_bytes(b: SummaryBuilder) -> Seq<u8> {
    b.epoch.enc() + b.sequence_number.enc() + b.network_total_transactions.enc()
        + b.content_digest.enc() + b.previous_digest.enc() + b.epoch_rolling_gas_cost_summary.enc()
        + b.timestamp_ms.enc() + enc_seq(b.checkpoint_commitments@) + end_of_epoch_bytes(b.end_of_epoch_data)
        + enc_bytes(b.version_specific_data@)
}

/// End-of-epoch data as a builder holds it: the same committee, each stake
/// as a number, the same protocol version and commitments.
pub open spec fn fills_end_of_epoch(e: EndOfEpoch, d: EndOfEpochData) -> bool {
    &&& e.next_epoch_committee@.len() == d.next_epoch_committee@.len()
    &&& forall|i: int|
        0 <= i < e.next_epoch_committee@.len() ==> (#[trigger] e.next_epoch_committee@[i]).0
            == d.next_epoch_committee@[i].authority && e.next_epoch_committee@[i].1
            == d.next_epoch_committee@[i].stake.value()
    &&& e.next_epoch_protocol_version == d.next_epoch_protocol_version
    &&& e.epoch_commitments@ == d.epoch_commitments@
}

/// A builder holding the fields of a summary.
pub open spec fn fills_summary(b: SummaryBuilder, s: CheckpointSummary) -> bool {
    &&& b.epoch == s.epoch
    &&& b.sequence_number == s.sequence_number
    &&& b.network_total_transactions == s.network_total_transactions
    &&& b.content_digest == s.content_digest
    &&& b.previous_digest == s.previous_digest
    &&& b.epoch_rolling_gas_cost_summary == s.epoch_rolling_gas_cost_summary
    &&& b.timestamp_ms == s.timestamp_ms
    &&& b.checkpoint_commitments@ == s.checkpoint_commitments@
    &&& b.version_specific_data@ == s.version_specific_data@
    &&& match b.end_of_epoch_data {
        Some(e) => s.end_of_epoch_data matches Some(d) && fills_end_of_epoch(e, d),
        None => s.end_of_epoch_data is None,
    }
}

/// A builder filled from a summary writes that summary back: the bytes it
/// was parsed from, and so the digest the parser gave it. Every summary a
/// parse gives back is well-formed, so `finish` may be called on such a
/// builder.
pub proof fn lemma_summary_rebuilds(b: SummaryBuilder, s: CheckpointSummary)
    requires
        fills_summary(b, s),
        s.well_formed(),
    ensures
        fits(b.checkpoint_commitments@.len() as int),
        fits(b.version_specific_data@.len() as int),
        b.end_of_epoch_data matches Some(e) ==> fits(e.next_epoch_committee@.len() as int) && fits(
            e.epoch_commitments@.len() as int,
        ),
        summary_bytes(b) == s.enc(),
        s.derived() ==> summary_bytes(b) == s.bytes@ && s.digest.bytes@ == blake2b256(
            hashed_bytes("CheckpointSummary".spec_bytes(), summary_bytes(b)),
        ),
{
    if let Some(e) = b.end_of_epoch_data {
        let d = s.end_of_epoch_data->0;
        let v = e.next_epoch_committee@;
        let w = d.next_epoch_committee@;
        assert forall|i: int| 0 <= i < v.len() implies (#[trigger] v[i]).enc() == w[i].enc() by {
            crate::base::lemma_u64le_bytes(w[i].stake);
        }
        crate::readback::lemma_enc_all_same(v, w);
        assert(end_of_epoch_bytes(b.end_of_epoch_data) == s.end_of_epoch_data.enc());
    }
    assert(summary_bytes(b) =~= s.enc());
}

fn commitments(w: &mut Writer, v: &Vec<CheckpointCommitment>)
    requires
        fits(v@.len() as int),
    ensures
        final(w).written() == old(w).written() + enc_seq(v@),
{
    w.len_prefix(v.len());
    let ghost base = w.written();
    let mut i: usize = 0;
    while i < v.len()
        invariant
            i <= v@.len(),
            w.written() == base + enc_all(v@.subrange(0, i as int)),
        decreases v@.len() - i,
    {
        match v[i].kind {
            CheckpointCommitmentKind::EcmhLiveObjectSetDigest => w.u8(0),
            CheckpointCommitmentKind::CheckpointArtifactsDigest => w.u8(1),
        }
        w.digest(&v[i].digest);
        proof {
            let sub = v@.subrange(0, i + 1);
            assert(sub.drop_last() =~= v@.subrange(0, i as int));
            assert(w.written() =~= base + enc_all(sub));
        }
        i = i + 1;
    }
    assert(v@.subrange(0, i as int) =~= v@);
}

fn committee(w: &mut Writer, v: &Vec<(AuthorityName, u64)>)
    requires
        fits(v@.len() as int),
    ensures
        final(w).written() == old(w).written() + enc_seq(v@),
{
    w.len_prefix(v.len());
    let ghost base = w.written();
    let mut i: usize = 0;
    while i < v.len()
        invariant
            i <= v@.len(),
            w.written() == base + enc_all(v@.subrange(0, i as int)),
        decreases v@.len() - i,
    {
        let (authority, stake) = &v[i];
        w.bytes(authority.bytes.as_slice());
        w.u64(*stake);
        proof {
            let sub = v@.subrange(0, i + 1);
            assert(sub.drop_last() =~= v@.subrange(0, i as int));
            assert(w.written() =~= base + enc_all(sub));
        }
        i = i + 1;
    }
    assert(v@.subrange(0, i as int) =~= v@);
}

impl SummaryBuilder {
    pub fn new_in(
        epoch: u64,
        sequence_number: u64,
        network_total_transactions: u64,
        content_digest: Digest,
        epoch_rolling_gas_cost_summary: GasCostSummary,
        timestamp_ms: u64,
    ) -> (b: SummaryBuilder)
        ensures
            b.epoch == epoch,
            b.sequence_number == sequence_number,
            b.network_total_transactions == network_total_transactions,
            b.content_digest == content_digest,
            b.previous_digest is None,
            b.epoch_rolling_gas_cost_summary == epoch_rolling_gas_cost_summary,
            b.timestamp_ms == timestamp_ms,
            b.checkpoint_commitments@ == Seq::<CheckpointCommitment>::empty(),
            b.end_of_epoch_data is None,
            b.version_specific_data@ == Seq::<u8>::empty(),
    {
        SummaryBuilder {
            epoch,
            sequence_number,
            network_total_transactions,
            content_digest,
            previous_digest: None,
            epoch_rolling_gas_cost_summary,
            timestamp_ms,
            checkpoint_commitments: Vec::new(),
            end_of_epoch_data: None,
            version_specific_data: Vec::new(),
        }
    }

    /// The summary and its digest.
    #[verifier::spinoff_prover]
    pub fn finish(self) -> (b: Built)
        requires
            fits(self.checkpoint_commitments@.len() as int),
            fits(self.version_specific_data@.len() as int),
            self.end_of_epoch_data matches Some(e) ==> fits(e.next_epoch_committee@.len() as int)
                && fits(e.epoch_commitments@.len() as int),
        ensures
            b.bytes@ == summary_bytes(self),
            b.digest.bytes@ == blake2b256(hashed_bytes("CheckpointSummary".spec_bytes(), b.bytes@)),
    {
        let mut w = Writer::new_in(128);
        w.u64(self.epoch);
        w.u64(self.sequence_number);
        w.u64(self.network_total_transactions);
        w.digest(&self.content_digest);
        w.option_digest(self.previous_digest.as_ref());
        gas_cost(&mut w, &self.epoch_rolling_gas_cost_summary);
        w.u64(self.timestamp_ms);
        commitments(&mut w, &self.checkpoint_commitments);
        match &self.end_of_epoch_data {
            Some(e) => {
                w.u8(1);
                committee(&mut w, &e.next_epoch_committee);
                w.u64(e.next_epoch_protocol_version);
                commitments(&mut w, &e.epoch_commitments);
            },
            None => w.u8(0),
        }
        w.bytes(self.version_specific_data.as_slice());
        assert(w.written() =~= summary_bytes(self));
        w.finish("CheckpointSummary")
    }
}

impl CheckpointCommitment {
    /// The pair the builders take.
    pub fn parts(&self) -> (p: (CheckpointCommitmentKind, Digest))
        ensures
            p == (self.kind, self.digest),
    {
        (self.kind, self.digest)
    }
}

} // verus!
