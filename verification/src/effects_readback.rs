//! No other set of effects has the encoding of a given one, so effects
//! parsed from their bytes alone are the effects those bytes came from.
//! Strings and vectors are compared by their views.
use vstd::prelude::*;
use crate::accept::{lemma_reads_digest, lemma_reads_owner};
use crate::accept_effects::{
    legal_status, legal_out, legal_accumulator, legal_change, legal_owned_refs, legal_v1, legal_v2,
    lemma_reads_status, lemma_reads_owned_ref, lemma_reads_unchanged,
    lemma_reads_accumulator_value, lemma_reads_in, lemma_reads_object_ref,
    lemma_reads_object_key, lemma_reads_event_commitment, lemma_reads_u32, lemma_reads_option,
};
use crate::base::{Digest, ObjectId, ObjectKey, ObjectRef};
use crate::effects::{
    AccumulatorOperation, AccumulatorValue, AccumulatorWriteV1, EventCommitment, GasCostSummary,
    IdOperation, ObjectChange, ObjectIn, ObjectOut, TransactionEffects, TransactionEffectsV1,
    TransactionEffectsV2, UnchangedConsensusKind, VersionedEffects, enc_v1_head, enc_v1_tail,
    enc_v2_head, enc_v2_tail,
};
use crate::error_readback::{lemma_error_injective, same_error};
use crate::execution_status::ExecutionStatus;
use crate::message::start;
use crate::object::Owner;
use crate::reader::{MAX_CONTAINER_DEPTH, MAX_SEQUENCE_LENGTH};
use crate::readback::{
    reads, at, room, ok_past, lemma_cat_cancel, lemma_array_eq, lemma_u64_injective,
    lemma_option_u64_injective, lemma_owner_injective, same_owner,
};
use crate::tag_readback::{lemma_enc_all_front, lemma_uleb_prefix, lemma_tt_injective, same_tt};
use crate::type_tag::enc_tt;
use crate::wire::{Wire, enc_uleb, enc_u32, enc_seq, enc_all};

verus! {

// ---------------------------------------------------------------------
// Reading back whatever follows.

/// Of two values that read back within `k` levels, neither encoding is a
/// proper prefix of the other.
pub proof fn lemma_prefix_free_within<T: Wire>(a: T, b: T, x: Seq<u8>, y: Seq<u8>, k: int)
    requires
        reads(a, k),
        reads(b, k),
        0 <= k <= MAX_CONTAINER_DEPTH,
        a.enc() + x == b.enc() + y,
    ensures
        a.enc() == b.enc(),
        x == y,
{
    let s = a.enc() + x;
    let st = start();
    assert(s.subrange(0, a.enc().len() as int) =~= a.enc());
    assert((b.enc() + y).subrange(0, b.enc().len() as int) =~= b.enc());
    assert(at(s, st, a.enc()));
    assert(at(s, st, b.enc()));
    assert(room(st, k));
    let r = T::rec(s, st);
    assert(ok_past(r, st, a.enc().len() as int));
    assert(ok_past(r, st, b.enc().len() as int));
    lemma_cat_cancel(a.enc(), x, b.enc(), y);
}

/// Neither encoding is a proper prefix of the other.
pub open spec fn prefix_unique<T: Wire>(a: T, b: T) -> bool {
    forall|x: Seq<u8>, y: Seq<u8>|
        #![trigger a.enc() + x, b.enc() + y]
        a.enc() + x == b.enc() + y ==> a.enc() == b.enc() && x == y
}

pub proof fn lemma_unique_within<T: Wire>(a: T, b: T, k: int)
    requires
        reads(a, k),
        reads(b, k),
        0 <= k <= MAX_CONTAINER_DEPTH,
    ensures
        prefix_unique(a, b),
{
    assert forall|x: Seq<u8>, y: Seq<u8>| a.enc() + x == b.enc() + y implies a.enc() == b.enc() && x
        == y by {
        lemma_prefix_free_within(a, b, x, y, k);
    }
}

/// Runs of values, pairwise prefix-unique, are read back value by value.
pub proof fn lemma_runs_eq<T: Wire>(v: Seq<T>, w: Seq<T>, x: Seq<u8>, y: Seq<u8>)
    requires
        v.len() == w.len(),
        forall|i: int| 0 <= i < v.len() ==> prefix_unique(#[trigger] v[i], w[i]),
        enc_all(v) + x == enc_all(w) + y,
    ensures
        forall|i: int| 0 <= i < v.len() ==> (#[trigger] v[i]).enc() == w[i].enc(),
        x == y,
    decreases v.len(),
{
    if v.len() == 0 {
        assert(x =~= enc_all(v) + x);
        assert(y =~= enc_all(w) + y);
    } else {
        let v1 = v.subrange(1, v.len() as int);
        let w1 = w.subrange(1, w.len() as int);
        lemma_enc_all_front(v);
        lemma_enc_all_front(w);
        assert(enc_all(v) + x =~= v[0].enc() + (enc_all(v1) + x));
        assert(enc_all(w) + y =~= w[0].enc() + (enc_all(w1) + y));
        assert(prefix_unique(v[0], w[0]));
        assert(v[0].enc() + (enc_all(v1) + x) == w[0].enc() + (enc_all(w1) + y));
        assert forall|i: int| 0 <= i < v1.len() implies prefix_unique(#[trigger] v1[i], w1[i]) by {
            assert(v1[i] == v[i + 1] && w1[i] == w[i + 1]);
        }
        lemma_runs_eq(v1, w1, x, y);
        assert forall|i: int| 0 <= i < v.len() implies (#[trigger] v[i]).enc() == w[i].enc() by {
            if i > 0 {
                assert(v1[i - 1] == v[i] && w1[i - 1] == w[i]);
            }
        }
    }
}

/// A length-prefixed run of pairwise prefix-unique values, within the
/// length limit, is read back value by value.
pub proof fn lemma_seq_eq<T: Wire>(v: Seq<T>, w: Seq<T>, x: Seq<u8>, y: Seq<u8>)
    requires
        v.len() <= MAX_SEQUENCE_LENGTH,
        w.len() <= MAX_SEQUENCE_LENGTH,
        forall|i: int| 0 <= i < v.len() && i < w.len() ==> prefix_unique(#[trigger] v[i], w[i]),
        enc_seq(v) + x == enc_seq(w) + y,
    ensures
        v.len() == w.len(),
        forall|i: int| 0 <= i < v.len() ==> (#[trigger] v[i]).enc() == w[i].enc(),
        x == y,
{
    assert(enc_seq(v) + x =~= enc_uleb(v.len() as u32) + (enc_all(v) + x));
    assert(enc_seq(w) + y =~= enc_uleb(w.len() as u32) + (enc_all(w) + y));
    lemma_uleb_prefix(v.len() as u32, w.len() as u32, enc_all(v) + x, enc_all(w) + y);
    lemma_runs_eq(v, w, x, y);
}

// ---------------------------------------------------------------------
// Fixed-size values.

pub proof fn lemma_u32_injective(a: u32, b: u32)
    requires
        enc_u32(a) == enc_u32(b),
    ensures
        a == b,
{
    assert(enc_u32(a)[0] == enc_u32(b)[0]);
    assert(enc_u32(a)[1] == enc_u32(b)[1]);
    assert(enc_u32(a)[2] == enc_u32(b)[2]);
    assert(enc_u32(a)[3] == enc_u32(b)[3]);
    assert(a == b) by (bit_vector)
        requires
            a as u8 == b as u8,
            (a >> 8u32) as u8 == (b >> 8u32) as u8,
            (a >> 16u32) as u8 == (b >> 16u32) as u8,
            (a >> 24u32) as u8 == (b >> 24u32) as u8,
    ;
}

pub proof fn lemma_digest_injective(a: Digest, b: Digest)
    requires
        a.enc() == b.enc(),
    ensures
        a == b,
{
    lemma_cat_cancel(seq![32u8], a.bytes@, seq![32u8], b.bytes@);
    lemma_array_eq(a.bytes, b.bytes);
}

pub proof fn lemma_object_ref_injective(a: ObjectRef, b: ObjectRef)
    requires
        a.enc() == b.enc(),
    ensures
        a == b,
{
    assert(a.enc() =~= a.id.0@ + (a.version.0@ + a.digest.enc()));
    assert(b.enc() =~= b.id.0@ + (b.version.0@ + b.digest.enc()));
    lemma_cat_cancel(a.id.0@, a.version.0@ + a.digest.enc(), b.id.0@, b.version.0@ + b.digest.enc());
    lemma_cat_cancel(a.version.0@, a.digest.enc(), b.version.0@, b.digest.enc());
    lemma_array_eq(a.id.0, b.id.0);
    lemma_array_eq(a.version.0, b.version.0);
    lemma_digest_injective(a.digest, b.digest);
}

pub proof fn lemma_object_key_injective(a: ObjectKey, b: ObjectKey)
    requires
        a.enc() == b.enc(),
    ensures
        a == b,
{
    lemma_cat_cancel(a.id.0@, a.version.0@, b.id.0@, b.version.0@);
    lemma_array_eq(a.id.0, b.id.0);
    lemma_array_eq(a.version.0, b.version.0);
}

pub proof fn lemma_gas_injective(a: GasCostSummary, b: GasCostSummary)
    requires
        a.enc() == b.enc(),
    ensures
        a == b,
{
    let (p, q, r, u) = (a.computation_cost.enc(), a.storage_cost.enc(), a.storage_rebate.enc(), a.non_refundable_storage_fee.enc());
    let (p2, q2, r2, u2) = (b.computation_cost.enc(), b.storage_cost.enc(), b.storage_rebate.enc(), b.non_refundable_storage_fee.enc());
    assert(a.enc() =~= p + (q + (r + u)));
    assert(b.enc() =~= p2 + (q2 + (r2 + u2)));
    lemma_cat_cancel(p, q + (r + u), p2, q2 + (r2 + u2));
    lemma_cat_cancel(q, r + u, q2, r2 + u2);
    lemma_cat_cancel(r, u, r2, u2);
    lemma_u64_injective(a.computation_cost, b.computation_cost);
    lemma_u64_injective(a.storage_cost, b.storage_cost);
    lemma_u64_injective(a.storage_rebate, b.storage_rebate);
    lemma_u64_injective(a.non_refundable_storage_fee, b.non_refundable_storage_fee);
}

pub proof fn lemma_option_u32_injective(a: Option<u32>, b: Option<u32>)
    requires
        a.enc() == b.enc(),
    ensures
        a == b,
{
    assert(a.enc()[0] == b.enc()[0]);
    match (a, b) {
        (Some(p), Some(q)) => {
            lemma_cat_cancel(seq![1u8], p.enc(), seq![1u8], q.enc());
            lemma_u32_injective(p, q);
        },
        (Some(p), None) => {
            assert(a.enc()[0] == 1u8);
        },
        (None, Some(q)) => {
            assert(b.enc()[0] == 1u8);
        },
        (None, None) => {},
    }
}

pub proof fn lemma_option_digest_injective(a: Option<Digest>, b: Option<Digest>)
    requires
        a.enc() == b.enc(),
    ensures
        a == b,
{
    assert(a.enc()[0] == b.enc()[0]);
    match (a, b) {
        (Some(p), Some(q)) => {
            lemma_cat_cancel(seq![1u8], p.enc(), seq![1u8], q.enc());
            lemma_digest_injective(p, q);
        },
        (Some(p), None) => {
            assert(a.enc()[0] == 1u8);
        },
        (None, Some(q)) => {
            assert(b.enc()[0] == 1u8);
        },
        (None, None) => {},
    }
}

pub proof fn lemma_unchanged_injective(a: (ObjectId, UnchangedConsensusKind), b: (ObjectId, UnchangedConsensusKind))
    requires
        a.enc() == b.enc(),
    ensures
        a == b,
{
    lemma_cat_cancel(a.0.enc(), a.1.enc(), b.0.enc(), b.1.enc());
    lemma_array_eq(a.0.0, b.0.0);
    let (k, l) = (a.1, b.1);
    reveal_with_fuel(enc_uleb, 1);
    assert(k.enc()[0] == l.enc()[0]);
    match (k, l) {
        (UnchangedConsensusKind::ReadOnlyRoot(p, d), UnchangedConsensusKind::ReadOnlyRoot(q, e)) => {
            assert(k.enc() =~= enc_uleb(0) + (p.enc() + d.enc()));
            assert(l.enc() =~= enc_uleb(0) + (q.enc() + e.enc()));
            lemma_cat_cancel(enc_uleb(0), p.enc() + d.enc(), enc_uleb(0), q.enc() + e.enc());
            lemma_cat_cancel(p.enc(), d.enc(), q.enc(), e.enc());
            lemma_u64_injective(p, q);
            lemma_digest_injective(d, e);
        },
        (
            UnchangedConsensusKind::MutateConsensusStreamEnded(p),
            UnchangedConsensusKind::MutateConsensusStreamEnded(q),
        ) => {
            lemma_cat_cancel(enc_uleb(1), p.enc(), enc_uleb(1), q.enc());
            lemma_u64_injective(p, q);
        },
        (
            UnchangedConsensusKind::ReadConsensusStreamEnded(p),
            UnchangedConsensusKind::ReadConsensusStreamEnded(q),
        ) => {
            lemma_cat_cancel(enc_uleb(2), p.enc(), enc_uleb(2), q.enc());
            lemma_u64_injective(p, q);
        },
        (UnchangedConsensusKind::Cancelled(p), UnchangedConsensusKind::Cancelled(q)) => {
            lemma_cat_cancel(enc_uleb(3), p.enc(), enc_uleb(3), q.enc());
            lemma_u64_injective(p, q);
        },
        _ => {
            assert(unchanged_tag(k) == k.enc()[0]) by {
                lemma_unchanged_first(k);
            }
            assert(unchanged_tag(l) == l.enc()[0]) by {
                lemma_unchanged_first(l);
            }
        },
    }
}

pub open spec fn unchanged_tag(k: UnchangedConsensusKind) -> u8 {
    match k {
        UnchangedConsensusKind::ReadOnlyRoot(..) => 0,
        UnchangedConsensusKind::MutateConsensusStreamEnded(_) => 1,
        UnchangedConsensusKind::ReadConsensusStreamEnded(_) => 2,
        UnchangedConsensusKind::Cancelled(_) => 3,
        UnchangedConsensusKind::PerEpochConfig => 4,
    }
}

proof fn lemma_unchanged_first(k: UnchangedConsensusKind)
    ensures
        k.enc()[0] == unchanged_tag(k),
{
    reveal_with_fuel(enc_uleb, 1);
    match k {
        UnchangedConsensusKind::ReadOnlyRoot(p, d) => {
            assert((enc_uleb(0) + p.enc() + d.enc())[0] == enc_uleb(0)[0]);
        },
        UnchangedConsensusKind::MutateConsensusStreamEnded(p) => {
            assert((enc_uleb(1) + p.enc())[0] == enc_uleb(1)[0]);
        },
        UnchangedConsensusKind::ReadConsensusStreamEnded(p) => {
            assert((enc_uleb(2) + p.enc())[0] == enc_uleb(2)[0]);
        },
        UnchangedConsensusKind::Cancelled(p) => {
            assert((enc_uleb(3) + p.enc())[0] == enc_uleb(3)[0]);
        },
        UnchangedConsensusKind::PerEpochConfig => {},
    }
}

// ---------------------------------------------------------------------
// Values that hold owners, error kinds, types and lists.

/// Two statuses compared by value, a failure's error kind as `same_error`.
pub open spec fn same_status(a: ExecutionStatus, b: ExecutionStatus) -> bool {
    match (a, b) {
        (
            ExecutionStatus::Failure { error: e, command: c },
            ExecutionStatus::Failure { error: f, command: d },
        ) => same_error(e, f) && c == d,
        _ => a == b,
    }
}

pub proof fn lemma_status_injective(a: ExecutionStatus, b: ExecutionStatus)
    requires
        legal_status(a),
        legal_status(b),
        a.enc() == b.enc(),
    ensures
        same_status(a, b),
{
    reveal_with_fuel(enc_uleb, 1);
    match (a, b) {
        (
            ExecutionStatus::Failure { error: e, command: c },
            ExecutionStatus::Failure { error: f, command: d },
        ) => {
            assert(a.enc() =~= enc_uleb(1) + (e.enc() + c.enc()));
            assert(b.enc() =~= enc_uleb(1) + (f.enc() + d.enc()));
            lemma_cat_cancel(enc_uleb(1), e.enc() + c.enc(), enc_uleb(1), f.enc() + d.enc());
            crate::accept_effects::lemma_reads_error(e);
            crate::accept_effects::lemma_reads_error(f);
            lemma_prefix_free_within(e, f, c.enc(), d.enc(), 0);
            lemma_error_injective(e, f);
            assert(c.enc() + Seq::<u8>::empty() == d.enc() + Seq::<u8>::empty());
            lemma_option_u64_injective(c, d, Seq::empty(), Seq::empty());
        },
        (ExecutionStatus::Failure { error: e, command: c }, ExecutionStatus::Success) => {
            assert((enc_uleb(1) + e.enc() + c.enc())[0] == enc_uleb(1)[0]);
        },
        (ExecutionStatus::Success, ExecutionStatus::Failure { error: f, command: d }) => {
            assert((enc_uleb(1) + f.enc() + d.enc())[0] == enc_uleb(1)[0]);
        },
        _ => {},
    }
}

pub open spec fn same_owned(a: (ObjectRef, Owner), b: (ObjectRef, Owner)) -> bool {
    a.0 == b.0 && same_owner(a.1, b.1)
}

pub proof fn lemma_owned_injective(a: (ObjectRef, Owner), b: (ObjectRef, Owner))
    requires
        a.enc() == b.enc(),
    ensures
        same_owned(a, b),
{
    lemma_reads_object_ref(a.0);
    lemma_reads_object_ref(b.0);
    lemma_cat_cancel(a.0.enc(), a.1.enc(), b.0.enc(), b.1.enc());
    lemma_object_ref_injective(a.0, b.0);
    lemma_owner_injective(a.1, b.1);
}

pub open spec fn same_in(a: ObjectIn, b: ObjectIn) -> bool {
    match (a, b) {
        (
            ObjectIn::Exist { version: v, digest: d, owner: o },
            ObjectIn::Exist { version: v2, digest: d2, owner: o2 },
        ) => v == v2 && d == d2 && same_owner(o, o2),
        _ => a == b,
    }
}

pub proof fn lemma_in_injective(a: ObjectIn, b: ObjectIn)
    requires
        a.enc() == b.enc(),
    ensures
        same_in(a, b),
{
    reveal_with_fuel(enc_uleb, 1);
    match (a, b) {
        (
            ObjectIn::Exist { version: v, digest: d, owner: o },
            ObjectIn::Exist { version: v2, digest: d2, owner: o2 },
        ) => {
            assert(a.enc() =~= enc_uleb(1) + (v.enc() + (d.enc() + o.enc())));
            assert(b.enc() =~= enc_uleb(1) + (v2.enc() + (d2.enc() + o2.enc())));
            lemma_cat_cancel(enc_uleb(1), v.enc() + (d.enc() + o.enc()), enc_uleb(1), v2.enc() + (d2.enc() + o2.enc()));
            lemma_cat_cancel(v.enc(), d.enc() + o.enc(), v2.enc(), d2.enc() + o2.enc());
            lemma_cat_cancel(d.enc(), o.enc(), d2.enc(), o2.enc());
            lemma_u64_injective(v, v2);
            lemma_digest_injective(d, d2);
            lemma_owner_injective(o, o2);
        },
        (ObjectIn::Exist { version: v, digest: d, owner: o }, ObjectIn::NotExist) => {
            assert((enc_uleb(1) + v.enc() + d.enc() + o.enc())[0] == enc_uleb(1)[0]);
        },
        (ObjectIn::NotExist, ObjectIn::Exist { version: v, digest: d, owner: o }) => {
            assert((enc_uleb(1) + v.enc() + d.enc() + o.enc())[0] == enc_uleb(1)[0]);
        },
        _ => {},
    }
}

pub proof fn lemma_event_commitment_injective(a: EventCommitment, b: EventCommitment)
    requires
        a.enc() == b.enc(),
    ensures
        a == b,
{
    lemma_cat_cancel(a.index.0@, a.digest.enc(), b.index.0@, b.digest.enc());
    lemma_array_eq(a.index.0, b.index.0);
    lemma_digest_injective(a.digest, b.digest);
}

pub open spec fn same_value(a: AccumulatorValue, b: AccumulatorValue) -> bool {
    match (a, b) {
        (AccumulatorValue::EventDigest(c), AccumulatorValue::EventDigest(d)) => c@ == d@,
        _ => a == b,
    }
}

pub proof fn lemma_value_injective(a: AccumulatorValue, b: AccumulatorValue)
    requires
        a.well_formed(),
        b.well_formed(),
        a.enc() == b.enc(),
    ensures
        same_value(a, b),
{
    reveal_with_fuel(enc_uleb, 1);
    match (a, b) {
        (AccumulatorValue::Integer(p), AccumulatorValue::Integer(q)) => {
            lemma_cat_cancel(enc_uleb(0), p.enc(), enc_uleb(0), q.enc());
            lemma_u64_injective(p, q);
        },
        (AccumulatorValue::IntegerTuple(p, r), AccumulatorValue::IntegerTuple(q, u)) => {
            assert(a.enc() =~= enc_uleb(1) + (p.enc() + r.enc()));
            assert(b.enc() =~= enc_uleb(1) + (q.enc() + u.enc()));
            lemma_cat_cancel(enc_uleb(1), p.enc() + r.enc(), enc_uleb(1), q.enc() + u.enc());
            lemma_cat_cancel(p.enc(), r.enc(), q.enc(), u.enc());
            lemma_u64_injective(p, q);
            lemma_u64_injective(r, u);
        },
        (AccumulatorValue::EventDigest(c), AccumulatorValue::EventDigest(d)) => {
            lemma_cat_cancel(enc_uleb(2), enc_seq(c@), enc_uleb(2), enc_seq(d@));
            let v = c@;
            let w = d@;
            assert forall|i: int| 0 <= i < v.len() && i < w.len() implies prefix_unique(#[trigger] v[i], w[i]) by {
                lemma_reads_event_commitment(v[i]);
                lemma_reads_event_commitment(w[i]);
                lemma_unique_within(v[i], w[i], 0);
            }
            assert(enc_seq(v) + Seq::<u8>::empty() == enc_seq(w) + Seq::<u8>::empty());
            lemma_seq_eq(v, w, Seq::empty(), Seq::empty());
            assert forall|i: int| 0 <= i < v.len() implies v[i] == w[i] by {
                lemma_event_commitment_injective(v[i], w[i]);
            }
            assert(v =~= w);
        },
        (AccumulatorValue::Integer(p), _) => {
            assert((enc_uleb(0) + p.enc())[0] == enc_uleb(0)[0]);
            lemma_value_first(b);
        },
        (AccumulatorValue::IntegerTuple(p, r), _) => {
            assert((enc_uleb(1) + p.enc() + r.enc())[0] == enc_uleb(1)[0]);
            lemma_value_first(b);
        },
        (AccumulatorValue::EventDigest(c), _) => {
            assert((enc_uleb(2) + enc_seq(c@))[0] == enc_uleb(2)[0]);
            lemma_value_first(b);
        },
    }
}

pub open spec fn value_tag(v: AccumulatorValue) -> u8 {
    match v {
        AccumulatorValue::Integer(_) => 0,
        AccumulatorValue::IntegerTuple(..) => 1,
        AccumulatorValue::EventDigest(_) => 2,
    }
}

proof fn lemma_value_first(v: AccumulatorValue)
    ensures
        v.enc()[0] == value_tag(v),
{
    reveal_with_fuel(enc_uleb, 1);
    match v {
        AccumulatorValue::Integer(p) => assert((enc_uleb(0) + p.enc())[0] == enc_uleb(0)[0]),
        AccumulatorValue::IntegerTuple(p, r) => assert((enc_uleb(1) + p.enc() + r.enc())[0] == enc_uleb(1)[0]),
        AccumulatorValue::EventDigest(c) => assert((enc_uleb(2) + enc_seq(c@))[0] == enc_uleb(2)[0]),
    }
}

proof fn lemma_assoc5(a: Seq<u8>, b: Seq<u8>, c: Seq<u8>, d: Seq<u8>, e: Seq<u8>)
    ensures
        a + b + c + d + e == a + (b + (c + (d + e))),
{
    assert(a + b + c + d + e =~= a + (b + (c + (d + e))));
}

/// A one-byte variant index with nothing after it, followed by anything:
/// the same index and the same rest.
proof fn lemma_tag_byte(t: u32, u: u32, x: Seq<u8>, y: Seq<u8>)
    requires
        t < 128,
        u < 128,
        enc_uleb(t) + x == enc_uleb(u) + y,
    ensures
        t == u,
        x == y,
{
    reveal_with_fuel(enc_uleb, 1);
    assert((enc_uleb(t) + x)[0] == t as u8);
    assert((enc_uleb(u) + y)[0] == u as u8);
    lemma_cat_cancel(enc_uleb(t), x, enc_uleb(u), y);
}

pub open spec fn operation_tag(o: AccumulatorOperation) -> u32 {
    match o {
        AccumulatorOperation::Merge => 0,
        AccumulatorOperation::Split => 1,
    }
}

pub open spec fn id_operation_tag(o: IdOperation) -> u32 {
    match o {
        IdOperation::NoChange => 0,
        IdOperation::Created => 1,
        IdOperation::Deleted => 2,
    }
}

pub open spec fn same_accumulator(a: AccumulatorWriteV1, b: AccumulatorWriteV1) -> bool {
    &&& a.address == b.address
    &&& same_tt(a.ty, b.ty)
    &&& a.operation == b.operation
    &&& same_value(a.value, b.value)
}

/// An accumulator write's encoding, whatever follows it, is read back as
/// that write and that rest.
#[verifier::spinoff_prover]
pub proof fn lemma_accumulator_prefix(a: AccumulatorWriteV1, b: AccumulatorWriteV1, x: Seq<u8>, y: Seq<u8>)
    requires
        legal_accumulator(a),
        legal_accumulator(b),
        a.enc() + x == b.enc() + y,
    ensures
        same_accumulator(a, b),
        a.enc() == b.enc(),
        x == y,
{
    let (oa, ob) = (a.operation.enc(), b.operation.enc());
    let (va, vb) = (a.value.enc(), b.value.enc());
    assert(oa == enc_uleb(operation_tag(a.operation)));
    assert(ob == enc_uleb(operation_tag(b.operation)));
    assert(a.enc() + x =~= a.address.0@ + (enc_tt(a.ty) + (oa + (va + x))));
    assert(b.enc() + y =~= b.address.0@ + (enc_tt(b.ty) + (ob + (vb + y))));
    lemma_cat_cancel(a.address.0@, enc_tt(a.ty) + (oa + (va + x)), b.address.0@, enc_tt(b.ty) + (ob + (vb + y)));
    lemma_array_eq(a.address.0, b.address.0);
    lemma_tt_injective(a.ty, b.ty, oa + (va + x), ob + (vb + y));
    lemma_tag_byte(operation_tag(a.operation), operation_tag(b.operation), va + x, vb + y);
    lemma_reads_accumulator_value(a.value);
    lemma_reads_accumulator_value(b.value);
    lemma_prefix_free_within(a.value, b.value, x, y, 0);
    lemma_value_injective(a.value, b.value);
    crate::tag_readback::lemma_cancel_right(a.enc(), b.enc(), x);
}

pub open spec fn same_out(a: ObjectOut, b: ObjectOut) -> bool {
    match (a, b) {
        (ObjectOut::ObjectWrite(d, o), ObjectOut::ObjectWrite(d2, o2)) => d == d2 && same_owner(o, o2),
        (ObjectOut::AccumulatorWriteV1(w), ObjectOut::AccumulatorWriteV1(w2)) => same_accumulator(w, w2),
        _ => a == b,
    }
}

pub open spec fn out_tag(o: ObjectOut) -> u32 {
    match o {
        ObjectOut::NotExist => 0,
        ObjectOut::ObjectWrite(..) => 1,
        ObjectOut::PackageWrite(..) => 2,
        ObjectOut::AccumulatorWriteV1(_) => 3,
    }
}

/// What follows an output state's variant index.
pub open spec fn out_body(o: ObjectOut) -> Seq<u8> {
    match o {
        ObjectOut::NotExist => Seq::empty(),
        ObjectOut::ObjectWrite(d, owner) => d.enc() + owner.enc(),
        ObjectOut::PackageWrite(v, d) => v.enc() + d.enc(),
        ObjectOut::AccumulatorWriteV1(w) => w.enc(),
    }
}

/// An output state's encoding, whatever follows it, is read back as that
/// state and that rest.
#[verifier::spinoff_prover]
pub proof fn lemma_out_prefix(a: ObjectOut, b: ObjectOut, x: Seq<u8>, y: Seq<u8>)
    requires
        legal_out(a),
        legal_out(b),
        a.enc() + x == b.enc() + y,
    ensures
        same_out(a, b),
        a.enc() == b.enc(),
        x == y,
{
    assert(a.enc() =~= enc_uleb(out_tag(a)) + out_body(a));
    assert(b.enc() =~= enc_uleb(out_tag(b)) + out_body(b));
    assert(a.enc() + x =~= enc_uleb(out_tag(a)) + (out_body(a) + x));
    assert(b.enc() + y =~= enc_uleb(out_tag(b)) + (out_body(b) + y));
    lemma_tag_byte(out_tag(a), out_tag(b), out_body(a) + x, out_body(b) + y);
    match (a, b) {
        (ObjectOut::NotExist, ObjectOut::NotExist) => {
            assert(x =~= out_body(a) + x);
            assert(y =~= out_body(b) + y);
        },
        (ObjectOut::ObjectWrite(d, o), ObjectOut::ObjectWrite(d2, o2)) => {
            assert(out_body(a) + x =~= d.enc() + (o.enc() + x));
            assert(out_body(b) + y =~= d2.enc() + (o2.enc() + y));
            lemma_cat_cancel(d.enc(), o.enc() + x, d2.enc(), o2.enc() + y);
            lemma_digest_injective(d, d2);
            lemma_reads_owner(o);
            lemma_reads_owner(o2);
            crate::readback::lemma_reads_more_room(o, crate::accept::need_owner(o), 2);
            crate::readback::lemma_reads_more_room(o2, crate::accept::need_owner(o2), 2);
            lemma_prefix_free_within(o, o2, x, y, 2);
            lemma_owner_injective(o, o2);
        },
        (ObjectOut::PackageWrite(v, d), ObjectOut::PackageWrite(v2, d2)) => {
            assert(out_body(a) + x =~= v.enc() + (d.enc() + x));
            assert(out_body(b) + y =~= v2.enc() + (d2.enc() + y));
            lemma_cat_cancel(v.enc(), d.enc() + x, v2.enc(), d2.enc() + y);
            lemma_cat_cancel(d.enc(), x, d2.enc(), y);
            lemma_u64_injective(v, v2);
            lemma_digest_injective(d, d2);
        },
        (ObjectOut::AccumulatorWriteV1(w), ObjectOut::AccumulatorWriteV1(w2)) => {
            lemma_accumulator_prefix(w, w2, x, y);
        },
        _ => {},
    }
    crate::tag_readback::lemma_cancel_right(a.enc(), b.enc(), x);
}

pub open spec fn same_change(a: ObjectChange, b: ObjectChange) -> bool {
    &&& a.id == b.id
    &&& same_in(a.input_state, b.input_state)
    &&& same_out(a.output_state, b.output_state)
    &&& a.id_operation == b.id_operation
}

/// A change's encoding, whatever follows it, is read back as that change
/// and that rest.
#[verifier::spinoff_prover]
pub proof fn lemma_change_prefix(a: ObjectChange, b: ObjectChange, x: Seq<u8>, y: Seq<u8>)
    requires
        legal_change(a),
        legal_change(b),
        a.enc() + x == b.enc() + y,
    ensures
        same_change(a, b),
        a.enc() == b.enc(),
        x == y,
{
    let (ia, ib) = (a.input_state.enc(), b.input_state.enc());
    let (oa, ob) = (a.output_state.enc(), b.output_state.enc());
    let (da, db) = (a.id_operation.enc(), b.id_operation.enc());
    assert(da == enc_uleb(id_operation_tag(a.id_operation)));
    assert(db == enc_uleb(id_operation_tag(b.id_operation)));
    assert(a.enc() == a.id.0@ + ia + oa + da);
    assert(b.enc() == b.id.0@ + ib + ob + db);
    lemma_assoc5(a.id.0@, ia, oa, da, x);
    lemma_assoc5(b.id.0@, ib, ob, db, y);
    lemma_cat_cancel(a.id.0@, ia + (oa + (da + x)), b.id.0@, ib + (ob + (db + y)));
    lemma_array_eq(a.id.0, b.id.0);
    lemma_reads_in(a.input_state);
    lemma_reads_in(b.input_state);
    lemma_prefix_free_within(a.input_state, b.input_state, oa + (da + x), ob + (db + y), 2);
    lemma_in_injective(a.input_state, b.input_state);
    lemma_out_prefix(a.output_state, b.output_state, da + x, db + y);
    lemma_tag_byte(id_operation_tag(a.id_operation), id_operation_tag(b.id_operation), x, y);
    crate::tag_readback::lemma_cancel_right(a.enc(), b.enc(), x);
}

// ---------------------------------------------------------------------
// Lists.

pub proof fn lemma_digests_eq(v: Seq<Digest>, w: Seq<Digest>, x: Seq<u8>, y: Seq<u8>)
    requires
        v.len() <= MAX_SEQUENCE_LENGTH,
        w.len() <= MAX_SEQUENCE_LENGTH,
        enc_seq(v) + x == enc_seq(w) + y,
    ensures
        v == w,
        x == y,
{
    assert forall|i: int| 0 <= i < v.len() && i < w.len() implies prefix_unique(#[trigger] v[i], w[i]) by {
        lemma_reads_digest(v[i]);
        lemma_reads_digest(w[i]);
        lemma_unique_within(v[i], w[i], 0);
    }
    lemma_seq_eq(v, w, x, y);
    assert forall|i: int| 0 <= i < v.len() implies v[i] == w[i] by {
        lemma_digest_injective(v[i], w[i]);
    }
    assert(v =~= w);
}

pub proof fn lemma_refs_eq(v: Seq<ObjectRef>, w: Seq<ObjectRef>, x: Seq<u8>, y: Seq<u8>)
    requires
        v.len() <= MAX_SEQUENCE_LENGTH,
        w.len() <= MAX_SEQUENCE_LENGTH,
        enc_seq(v) + x == enc_seq(w) + y,
    ensures
        v == w,
        x == y,
{
    assert forall|i: int| 0 <= i < v.len() && i < w.len() implies prefix_unique(#[trigger] v[i], w[i]) by {
        lemma_reads_object_ref(v[i]);
        lemma_reads_object_ref(w[i]);
        lemma_unique_within(v[i], w[i], 0);
    }
    lemma_seq_eq(v, w, x, y);
    assert forall|i: int| 0 <= i < v.len() implies v[i] == w[i] by {
        lemma_object_ref_injective(v[i], w[i]);
    }
    assert(v =~= w);
}

pub proof fn lemma_keys_eq(v: Seq<ObjectKey>, w: Seq<ObjectKey>, x: Seq<u8>, y: Seq<u8>)
    requires
        v.len() <= MAX_SEQUENCE_LENGTH,
        w.len() <= MAX_SEQUENCE_LENGTH,
        enc_seq(v) + x == enc_seq(w) + y,
    ensures
        v == w,
        x == y,
{
    assert forall|i: int| 0 <= i < v.len() && i < w.len() implies prefix_unique(#[trigger] v[i], w[i]) by {
        lemma_reads_object_key(v[i]);
        lemma_reads_object_key(w[i]);
        lemma_unique_within(v[i], w[i], 0);
    }
    lemma_seq_eq(v, w, x, y);
    assert forall|i: int| 0 <= i < v.len() implies v[i] == w[i] by {
        lemma_object_key_injective(v[i], w[i]);
    }
    assert(v =~= w);
}

pub open spec fn same_owned_list(v: Seq<(ObjectRef, Owner)>, w: Seq<(ObjectRef, Owner)>) -> bool {
    v.len() == w.len() && forall|i: int| 0 <= i < v.len() ==> same_owned(#[trigger] v[i], w[i])
}

pub proof fn lemma_owned_list_eq(v: Seq<(ObjectRef, Owner)>, w: Seq<(ObjectRef, Owner)>, x: Seq<u8>, y: Seq<u8>)
    requires
        legal_owned_refs(v),
        legal_owned_refs(w),
        enc_seq(v) + x == enc_seq(w) + y,
    ensures
        same_owned_list(v, w),
        x == y,
{
    assert forall|i: int| 0 <= i < v.len() && i < w.len() implies prefix_unique(#[trigger] v[i], w[i]) by {
        lemma_reads_owned_ref(v[i]);
        lemma_reads_owned_ref(w[i]);
        lemma_unique_within(v[i], w[i], 2);
    }
    lemma_seq_eq(v, w, x, y);
    assert forall|i: int| 0 <= i < v.len() implies same_owned(#[trigger] v[i], w[i]) by {
        lemma_owned_injective(v[i], w[i]);
    }
}

pub open spec fn same_changes(v: Seq<ObjectChange>, w: Seq<ObjectChange>) -> bool {
    v.len() == w.len() && forall|i: int| 0 <= i < v.len() ==> same_change(#[trigger] v[i], w[i])
}

pub proof fn lemma_changes_eq(v: Seq<ObjectChange>, w: Seq<ObjectChange>, x: Seq<u8>, y: Seq<u8>)
    requires
        v.len() <= MAX_SEQUENCE_LENGTH,
        w.len() <= MAX_SEQUENCE_LENGTH,
        forall|i: int| 0 <= i < v.len() ==> legal_change(#[trigger] v[i]),
        forall|i: int| 0 <= i < w.len() ==> legal_change(#[trigger] w[i]),
        enc_seq(v) + x == enc_seq(w) + y,
    ensures
        same_changes(v, w),
        x == y,
{
    assert forall|i: int| 0 <= i < v.len() && i < w.len() implies prefix_unique(#[trigger] v[i], w[i]) by {
        assert(legal_change(v[i]) && legal_change(w[i]));
        assert forall|p: Seq<u8>, q: Seq<u8>| v[i].enc() + p == w[i].enc() + q implies v[i].enc()
            == w[i].enc() && p == q by {
            lemma_change_prefix(v[i], w[i], p, q);
        }
    }
    lemma_seq_eq(v, w, x, y);
    assert forall|i: int| 0 <= i < v.len() implies same_change(#[trigger] v[i], w[i]) by {
        assert(legal_change(v[i]) && legal_change(w[i]));
        assert(v[i].enc() + Seq::<u8>::empty() == w[i].enc() + Seq::<u8>::empty());
        lemma_change_prefix(v[i], w[i], Seq::empty(), Seq::empty());
    }
}

pub proof fn lemma_unchanged_list_eq(
    v: Seq<(ObjectId, UnchangedConsensusKind)>,
    w: Seq<(ObjectId, UnchangedConsensusKind)>,
    x: Seq<u8>,
    y: Seq<u8>,
)
    requires
        v.len() <= MAX_SEQUENCE_LENGTH,
        w.len() <= MAX_SEQUENCE_LENGTH,
        enc_seq(v) + x == enc_seq(w) + y,
    ensures
        v == w,
        x == y,
{
    assert forall|i: int| 0 <= i < v.len() && i < w.len() implies prefix_unique(#[trigger] v[i], w[i]) by {
        lemma_reads_unchanged(v[i]);
        lemma_reads_unchanged(w[i]);
        lemma_unique_within(v[i], w[i], 0);
    }
    lemma_seq_eq(v, w, x, y);
    assert forall|i: int| 0 <= i < v.len() implies v[i] == w[i] by {
        lemma_unchanged_injective(v[i], w[i]);
    }
    assert(v =~= w);
}

// ---------------------------------------------------------------------
// Fields one after another.

proof fn lemma_assoc9(
    a: Seq<u8>,
    b: Seq<u8>,
    c: Seq<u8>,
    d: Seq<u8>,
    e: Seq<u8>,
    f: Seq<u8>,
    g: Seq<u8>,
    h: Seq<u8>,
    x: Seq<u8>,
)
    ensures
        a + b + c + d + e + f + g + h + x == a + (b + (c + (d + (e + (f + (g + (h + x))))))),
{
    assert(a + b + c + d + e + f + g + h + x =~= a + (b + (c + (d + (e + (f + (g + (h + x))))))));
}

proof fn lemma_assoc7(a: Seq<u8>, b: Seq<u8>, c: Seq<u8>, d: Seq<u8>, e: Seq<u8>, f: Seq<u8>, x: Seq<u8>)
    ensures
        a + b + c + d + e + f + x == a + (b + (c + (d + (e + (f + x))))),
{
    assert(a + b + c + d + e + f + x =~= a + (b + (c + (d + (e + (f + x))))));
}

proof fn lemma_assoc10(
    a: Seq<u8>,
    b: Seq<u8>,
    c: Seq<u8>,
    d: Seq<u8>,
    e: Seq<u8>,
    f: Seq<u8>,
    g: Seq<u8>,
    h: Seq<u8>,
    i: Seq<u8>,
    x: Seq<u8>,
)
    ensures
        a + b + c + d + e + f + g + h + i + x == a + (b + (c + (d + (e + (f + (g + (h + (i + x)))))))),
{
    assert(a + b + c + d + e + f + g + h + i + x =~= a + (b + (c + (d + (e + (f + (g + (h + (i
        + x)))))))));
}

proof fn lemma_status_step(a: ExecutionStatus, b: ExecutionStatus, x: Seq<u8>, y: Seq<u8>)
    requires
        legal_status(a),
        legal_status(b),
        a.enc() + x == b.enc() + y,
    ensures
        same_status(a, b),
        x == y,
{
    lemma_reads_status(a);
    lemma_reads_status(b);
    lemma_prefix_free_within(a, b, x, y, 0);
    lemma_status_injective(a, b);
}

proof fn lemma_u64_step(a: u64, b: u64, x: Seq<u8>, y: Seq<u8>)
    requires
        a.enc() + x == b.enc() + y,
    ensures
        a == b,
        x == y,
{
    lemma_cat_cancel(a.enc(), x, b.enc(), y);
    lemma_u64_injective(a, b);
}

proof fn lemma_gas_step(a: GasCostSummary, b: GasCostSummary, x: Seq<u8>, y: Seq<u8>)
    requires
        a.enc() + x == b.enc() + y,
    ensures
        a == b,
        x == y,
{
    lemma_cat_cancel(a.enc(), x, b.enc(), y);
    lemma_gas_injective(a, b);
}

proof fn lemma_digest_step(a: Digest, b: Digest, x: Seq<u8>, y: Seq<u8>)
    requires
        a.enc() + x == b.enc() + y,
    ensures
        a == b,
        x == y,
{
    lemma_cat_cancel(a.enc(), x, b.enc(), y);
    lemma_digest_injective(a, b);
}

proof fn lemma_option_u32_step(a: Option<u32>, b: Option<u32>, x: Seq<u8>, y: Seq<u8>)
    requires
        a.enc() + x == b.enc() + y,
    ensures
        a == b,
        x == y,
{
    if let Some(p) = a {
        lemma_reads_u32(p);
    }
    if let Some(q) = b {
        lemma_reads_u32(q);
    }
    lemma_reads_option(a, 0);
    lemma_reads_option(b, 0);
    lemma_prefix_free_within(a, b, x, y, 0);
    lemma_option_u32_injective(a, b);
}

proof fn lemma_option_digest_step(a: Option<Digest>, b: Option<Digest>, x: Seq<u8>, y: Seq<u8>)
    requires
        a.enc() + x == b.enc() + y,
    ensures
        a == b,
        x == y,
{
    if let Some(p) = a {
        lemma_reads_digest(p);
    }
    if let Some(q) = b {
        lemma_reads_digest(q);
    }
    lemma_reads_option(a, 0);
    lemma_reads_option(b, 0);
    lemma_prefix_free_within(a, b, x, y, 0);
    lemma_option_digest_injective(a, b);
}

// ---------------------------------------------------------------------
// Effects.

pub open spec fn same_v2(a: TransactionEffectsV2, b: TransactionEffectsV2) -> bool {
    &&& same_status(a.status, b.status)
    &&& a.executed_epoch == b.executed_epoch
    &&& a.gas_used == b.gas_used
    &&& a.transaction_digest == b.transaction_digest
    &&& a.gas_object_index == b.gas_object_index
    &&& a.events_digest == b.events_digest
    &&& a.dependencies@ == b.dependencies@
    &&& a.lamport_version == b.lamport_version
    &&& same_changes(a.changed_objects@, b.changed_objects@)
    &&& a.unchanged_consensus_objects@ == b.unchanged_consensus_objects@
    &&& a.aux_data_digest == b.aux_data_digest
}

#[verifier::spinoff_prover]
proof fn lemma_v2_head(a: TransactionEffectsV2, b: TransactionEffectsV2, x: Seq<u8>, y: Seq<u8>)
    requires
        legal_v2(a),
        legal_v2(b),
        enc_v2_head(a) + x == enc_v2_head(b) + y,
    ensures
        same_status(a.status, b.status),
        a.executed_epoch == b.executed_epoch,
        a.gas_used == b.gas_used,
        a.transaction_digest == b.transaction_digest,
        a.gas_object_index == b.gas_object_index,
        a.events_digest == b.events_digest,
        a.dependencies@ == b.dependencies@,
        a.lamport_version == b.lamport_version,
        x == y,
{
    let (s1, e1, g1, t1, o1, v1, d1, l1) = (a.status.enc(), a.executed_epoch.enc(), a.gas_used.enc(),
        a.transaction_digest.enc(), a.gas_object_index.enc(), a.events_digest.enc(), enc_seq(a.dependencies@),
        a.lamport_version.enc());
    let (s2, e2, g2, t2, o2, v2, d2, l2) = (b.status.enc(), b.executed_epoch.enc(), b.gas_used.enc(),
        b.transaction_digest.enc(), b.gas_object_index.enc(), b.events_digest.enc(), enc_seq(b.dependencies@),
        b.lamport_version.enc());
    lemma_assoc9(s1, e1, g1, t1, o1, v1, d1, l1, x);
    lemma_assoc9(s2, e2, g2, t2, o2, v2, d2, l2, y);
    lemma_status_step(a.status, b.status, e1 + (g1 + (t1 + (o1 + (v1 + (d1 + (l1 + x)))))), e2 + (g2 + (t2 + (o2 + (v2 + (d2 + (l2 + y)))))));
    lemma_u64_step(a.executed_epoch, b.executed_epoch, g1 + (t1 + (o1 + (v1 + (d1 + (l1 + x))))), g2 + (t2 + (o2 + (v2 + (d2 + (l2 + y))))));
    lemma_gas_step(a.gas_used, b.gas_used, t1 + (o1 + (v1 + (d1 + (l1 + x)))), t2 + (o2 + (v2 + (d2 + (l2 + y)))));
    lemma_digest_step(a.transaction_digest, b.transaction_digest, o1 + (v1 + (d1 + (l1 + x))), o2 + (v2 + (d2 + (l2 + y))));
    lemma_option_u32_step(a.gas_object_index, b.gas_object_index, v1 + (d1 + (l1 + x)), v2 + (d2 + (l2 + y)));
    lemma_option_digest_step(a.events_digest, b.events_digest, d1 + (l1 + x), d2 + (l2 + y));
    lemma_digests_eq(a.dependencies@, b.dependencies@, l1 + x, l2 + y);
    lemma_u64_step(a.lamport_version, b.lamport_version, x, y);
}

#[verifier::spinoff_prover]
proof fn lemma_v2_tail(a: TransactionEffectsV2, b: TransactionEffectsV2)
    requires
        legal_v2(a),
        legal_v2(b),
        enc_v2_tail(a) == enc_v2_tail(b),
    ensures
        same_changes(a.changed_objects@, b.changed_objects@),
        a.unchanged_consensus_objects@ == b.unchanged_consensus_objects@,
        a.aux_data_digest == b.aux_data_digest,
{
    let (c1, u1, x1) = (enc_seq(a.changed_objects@), enc_seq(a.unchanged_consensus_objects@), a.aux_data_digest.enc());
    let (c2, u2, x2) = (enc_seq(b.changed_objects@), enc_seq(b.unchanged_consensus_objects@), b.aux_data_digest.enc());
    assert(enc_v2_tail(a) =~= c1 + (u1 + x1));
    assert(enc_v2_tail(b) =~= c2 + (u2 + x2));
    lemma_changes_eq(a.changed_objects@, b.changed_objects@, u1 + x1, u2 + x2);
    lemma_unchanged_list_eq(a.unchanged_consensus_objects@, b.unchanged_consensus_objects@, x1, x2);
    lemma_option_digest_injective(a.aux_data_digest, b.aux_data_digest);
}

/// V2 effects with the same encoding are the same effects.
pub proof fn lemma_v2_injective(a: TransactionEffectsV2, b: TransactionEffectsV2)
    requires
        legal_v2(a),
        legal_v2(b),
        a.enc() == b.enc(),
    ensures
        same_v2(a, b),
{
    lemma_v2_head(a, b, enc_v2_tail(a), enc_v2_tail(b));
    lemma_v2_tail(a, b);
}

pub open spec fn same_v1(a: TransactionEffectsV1, b: TransactionEffectsV1) -> bool {
    &&& same_status(a.status, b.status)
    &&& a.executed_epoch == b.executed_epoch
    &&& a.gas_used == b.gas_used
    &&& a.modified_at_versions@ == b.modified_at_versions@
    &&& a.shared_objects@ == b.shared_objects@
    &&& a.transaction_digest == b.transaction_digest
    &&& same_owned_list(a.created@, b.created@)
    &&& same_owned_list(a.mutated@, b.mutated@)
    &&& same_owned_list(a.unwrapped@, b.unwrapped@)
    &&& a.deleted@ == b.deleted@
    &&& a.unwrapped_then_deleted@ == b.unwrapped_then_deleted@
    &&& a.wrapped@ == b.wrapped@
    &&& same_owned(a.gas_object, b.gas_object)
    &&& a.events_digest == b.events_digest
    &&& a.dependencies@ == b.dependencies@
}

#[verifier::spinoff_prover]
proof fn lemma_v1_head(a: TransactionEffectsV1, b: TransactionEffectsV1, x: Seq<u8>, y: Seq<u8>)
    requires
        legal_v1(a),
        legal_v1(b),
        enc_v1_head(a) + x == enc_v1_head(b) + y,
    ensures
        same_status(a.status, b.status),
        a.executed_epoch == b.executed_epoch,
        a.gas_used == b.gas_used,
        a.modified_at_versions@ == b.modified_at_versions@,
        a.shared_objects@ == b.shared_objects@,
        a.transaction_digest == b.transaction_digest,
        x == y,
{
    let (s1, e1, g1, m1, h1, t1) = (a.status.enc(), a.executed_epoch.enc(), a.gas_used.enc(),
        enc_seq(a.modified_at_versions@), enc_seq(a.shared_objects@), a.transaction_digest.enc());
    let (s2, e2, g2, m2, h2, t2) = (b.status.enc(), b.executed_epoch.enc(), b.gas_used.enc(),
        enc_seq(b.modified_at_versions@), enc_seq(b.shared_objects@), b.transaction_digest.enc());
    lemma_assoc7(s1, e1, g1, m1, h1, t1, x);
    lemma_assoc7(s2, e2, g2, m2, h2, t2, y);
    lemma_status_step(a.status, b.status, e1 + (g1 + (m1 + (h1 + (t1 + x)))), e2 + (g2 + (m2 + (h2 + (t2 + y)))));
    lemma_u64_step(a.executed_epoch, b.executed_epoch, g1 + (m1 + (h1 + (t1 + x))), g2 + (m2 + (h2 + (t2 + y))));
    lemma_gas_step(a.gas_used, b.gas_used, m1 + (h1 + (t1 + x)), m2 + (h2 + (t2 + y)));
    lemma_keys_eq(a.modified_at_versions@, b.modified_at_versions@, h1 + (t1 + x), h2 + (t2 + y));
    lemma_refs_eq(a.shared_objects@, b.shared_objects@, t1 + x, t2 + y);
    lemma_digest_step(a.transaction_digest, b.transaction_digest, x, y);
}

#[verifier::spinoff_prover]
#[verifier::rlimit(40)]
proof fn lemma_v1_tail(a: TransactionEffectsV1, b: TransactionEffectsV1)
    requires
        legal_v1(a),
        legal_v1(b),
        enc_v1_tail(a) == enc_v1_tail(b),
    ensures
        same_owned_list(a.created@, b.created@),
        same_owned_list(a.mutated@, b.mutated@),
        same_owned_list(a.unwrapped@, b.unwrapped@),
        a.deleted@ == b.deleted@,
        a.unwrapped_then_deleted@ == b.unwrapped_then_deleted@,
        a.wrapped@ == b.wrapped@,
        same_owned(a.gas_object, b.gas_object),
        a.events_digest == b.events_digest,
        a.dependencies@ == b.dependencies@,
{
    let (c1, m1, u1, d1, w1, r1, g1, v1, p1) = (enc_seq(a.created@), enc_seq(a.mutated@), enc_seq(
        a.unwrapped@), enc_seq(a.deleted@), enc_seq(a.unwrapped_then_deleted@), enc_seq(a.wrapped@),
        a.gas_object.enc(), a.events_digest.enc(), enc_seq(a.dependencies@));
    let (c2, m2, u2, d2, w2, r2, g2, v2, p2) = (enc_seq(b.created@), enc_seq(b.mutated@), enc_seq(
        b.unwrapped@), enc_seq(b.deleted@), enc_seq(b.unwrapped_then_deleted@), enc_seq(b.wrapped@),
        b.gas_object.enc(), b.events_digest.enc(), enc_seq(b.dependencies@));
    let e = Seq::<u8>::empty();
    lemma_assoc10(c1, m1, u1, d1, w1, r1, g1, v1, p1, e);
    lemma_assoc10(c2, m2, u2, d2, w2, r2, g2, v2, p2, e);
    assert(enc_v1_tail(a) + e =~= enc_v1_tail(a));
    assert(enc_v1_tail(b) + e =~= enc_v1_tail(b));
    lemma_owned_list_eq(a.created@, b.created@, m1 + (u1 + (d1 + (w1 + (r1 + (g1 + (v1 + (p1 + e))))))), m2 + (u2 + (d2 + (w2 + (r2 + (g2 + (v2 + (p2 + e))))))));
    lemma_owned_list_eq(a.mutated@, b.mutated@, u1 + (d1 + (w1 + (r1 + (g1 + (v1 + (p1 + e)))))), u2 + (d2 + (w2 + (r2 + (g2 + (v2 + (p2 + e)))))));
    lemma_owned_list_eq(a.unwrapped@, b.unwrapped@, d1 + (w1 + (r1 + (g1 + (v1 + (p1 + e))))), d2 + (w2 + (r2 + (g2 + (v2 + (p2 + e))))));
    lemma_refs_eq(a.deleted@, b.deleted@, w1 + (r1 + (g1 + (v1 + (p1 + e)))), w2 + (r2 + (g2 + (v2 + (p2 + e)))));
    lemma_refs_eq(a.unwrapped_then_deleted@, b.unwrapped_then_deleted@, r1 + (g1 + (v1 + (p1 + e))), r2 + (g2 + (v2 + (p2 + e))));
    lemma_refs_eq(a.wrapped@, b.wrapped@, g1 + (v1 + (p1 + e)), g2 + (v2 + (p2 + e)));
    lemma_reads_owned_ref(a.gas_object);
    lemma_reads_owned_ref(b.gas_object);
    lemma_prefix_free_within(a.gas_object, b.gas_object, v1 + (p1 + e), v2 + (p2 + e), 2);
    lemma_owned_injective(a.gas_object, b.gas_object);
    lemma_option_digest_step(a.events_digest, b.events_digest, p1 + e, p2 + e);
    lemma_digests_eq(a.dependencies@, b.dependencies@, e, e);
}

/// V1 effects with the same encoding are the same effects.
pub proof fn lemma_v1_injective(a: TransactionEffectsV1, b: TransactionEffectsV1)
    requires
        legal_v1(a),
        legal_v1(b),
        a.enc() == b.enc(),
    ensures
        same_v1(a, b),
{
    lemma_v1_head(a, b, enc_v1_tail(a), enc_v1_tail(b));
    lemma_v1_tail(a, b);
}

pub open spec fn same_versioned(a: VersionedEffects, b: VersionedEffects) -> bool {
    match (a, b) {
        (VersionedEffects::V1(p), VersionedEffects::V1(q)) => same_v1(p, q),
        (VersionedEffects::V2(p), VersionedEffects::V2(q)) => same_v2(p, q),
        _ => false,
    }
}

/// The effects round trip. Two well-formed effects (parses give back
/// well-formed ones: their bytes are their encoding and their digest is
/// that of the bytes) with the same bytes have the same version and the
/// same digest, so effects parsed anywhere and parsed again alone from
/// their bytes are the same effects. The version is V1 where the first
/// byte is 0 and V2 where it is 1.
pub proof fn lemma_effects_read_back(a: TransactionEffects, b: TransactionEffects)
    requires
        a.well_formed(),
        b.well_formed(),
        a.bytes@ == b.bytes@,
    ensures
        same_versioned(a.version, b.version),
        a.digest == b.digest,
        a.bytes@[0] == (if a.version is V1 { 0u8 } else { 1u8 }),
{
    lemma_array_eq(a.digest.bytes, b.digest.bytes);
    reveal_with_fuel(enc_uleb, 1);
    match (a.version, b.version) {
        (VersionedEffects::V1(p), VersionedEffects::V1(q)) => {
            lemma_cat_cancel(enc_uleb(0), p.enc(), enc_uleb(0), q.enc());
            lemma_v1_injective(p, q);
        },
        (VersionedEffects::V2(p), VersionedEffects::V2(q)) => {
            lemma_cat_cancel(enc_uleb(1), p.enc(), enc_uleb(1), q.enc());
            lemma_v2_injective(p, q);
        },
        (VersionedEffects::V1(p), VersionedEffects::V2(q)) => {
            assert((enc_uleb(0) + p.enc())[0] == enc_uleb(0)[0]);
            assert((enc_uleb(1) + q.enc())[0] == enc_uleb(1)[0]);
        },
        (VersionedEffects::V2(p), VersionedEffects::V1(q)) => {
            assert((enc_uleb(1) + p.enc())[0] == enc_uleb(1)[0]);
            assert((enc_uleb(0) + q.enc())[0] == enc_uleb(0)[0]);
        },
    }
    match a.version {
        VersionedEffects::V1(p) => assert((enc_uleb(0) + p.enc())[0] == enc_uleb(0)[0]),
        VersionedEffects::V2(p) => assert((enc_uleb(1) + p.enc())[0] == enc_uleb(1)[0]),
    }
}

}
