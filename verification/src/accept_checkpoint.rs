//! Every well-formed checkpoint with its transactions is accepted whole:
//! the counterpart, for what checkpoints carry, of `accept`.
use vstd::prelude::*;
use crate::accept::{
    lemma_reads_summary, lemma_reads_sign_info, lemma_reads_contents, lemma_reads_signature_list,
    lemma_reads_object, lemma_reads_event, legal_summary, legal_contents, legal_signature_list,
    legal_object, need_object, legal_event,
};
use crate::accept_effects::{legal_effects, fits_effects, lemma_reads_effects, lemma_reads_option};
use crate::accept_tx::{legal_signed, fits_tx_data, lemma_reads_signed};
use crate::checkpoint::{
    CertifiedCheckpointSummary, CheckpointContents, CheckpointData, CheckpointTransaction,
    ExecutionData, FullCheckpointContents,
};
use crate::effects::{TransactionEffects, TransactionEvents};
use crate::error::ParseError;
use crate::execution_status::rec2;
use crate::message::{exact_rec};
use crate::object::Object;
use crate::reader::{St, then, MAX_SEQUENCE_LENGTH, MAX_CONTAINER_DEPTH};
use crate::readback::{
    at, ok_past, room, reads, lemma_at_split, lemma_at_whole, lemma_read_seq, lemma_read_rec2,
    lemma_reads_more_room,
};
use crate::transaction::SenderSignedData;
use crate::type_tag::need_st;
use crate::wire::{Wire, enc_seq, sp_seq};

verus! {

pub proof fn lemma_reads_certified(c: CertifiedCheckpointSummary)
    requires
        legal_summary(c.data),
        c.auth_signature.signers_map@.len() <= MAX_SEQUENCE_LENGTH,
    ensures
        reads(c, 0),
{
    lemma_reads_summary(c.data);
    lemma_reads_sign_info(c.auth_signature);
    assert forall|s: Seq<u8>, st: St| at(s, st, c.enc()) && room(st, 0) implies ok_past(
        CertifiedCheckpointSummary::rec(s, st),
        st,
        c.enc().len() as int,
    ) by {
        lemma_read_rec2(c.data, c.auth_signature, 0, s, st);
    }
}

pub open spec fn legal_events(v: TransactionEvents) -> bool {
    &&& v.data@.len() <= MAX_SEQUENCE_LENGTH
    &&& forall|i: int| 0 <= i < v.data@.len() ==> legal_event(#[trigger] v.data@[i])
}

/// The events read back within `k` levels: their own, and each event's.
pub open spec fn fits_events(v: TransactionEvents, k: int) -> bool {
    &&& k >= 1
    &&& forall|i: int| 0 <= i < v.data@.len() ==> 1 + need_st((#[trigger] v.data@[i]).type_) <= k - 1
}

pub proof fn lemma_reads_events(v: TransactionEvents, k: int)
    requires
        legal_events(v),
        fits_events(v, k),
    ensures
        reads(v, k),
{
    let d = v.data@;
    assert forall|i: int| 0 <= i < d.len() implies #[trigger] reads(d[i], k - 1) by {
        lemma_reads_event(d[i]);
        lemma_reads_more_room(d[i], 1 + need_st(d[i].type_), k - 1);
    }
    assert forall|i: int| 0 <= i < d.len() implies (#[trigger] d[i].enc()).len() >= 101 by {
        crate::wire_size::lemma_event_min_wire_size(d[i]);
    }
    assert forall|s: Seq<u8>, st: St| at(s, st, v.enc()) && room(st, k) implies ok_past(
        TransactionEvents::rec(s, st),
        st,
        v.enc().len() as int,
    ) by {
        let st1 = St { depth: st.depth + 1, ..st };
        lemma_read_seq(d, 101, k - 1, s, st1);
    }
}

pub open spec fn legal_objects(v: Seq<Object>) -> bool {
    &&& v.len() <= MAX_SEQUENCE_LENGTH
    &&& forall|i: int| 0 <= i < v.len() ==> legal_object(#[trigger] v[i])
}

pub open spec fn fits_objects(v: Seq<Object>, k: int) -> bool {
    forall|i: int| 0 <= i < v.len() ==> need_object(#[trigger] v[i]) <= k
}

/// A length-prefixed run of objects.
proof fn lemma_read_objects(v: Seq<Object>, k: int, s: Seq<u8>, st: St)
    requires
        legal_objects(v),
        fits_objects(v, k),
        k >= 0,
        at(s, st, enc_seq(v)),
        room(st, k),
    ensures
        ok_past(sp_seq::<Object>(s, st, 54), st, enc_seq(v).len() as int),
{
    assert forall|i: int| 0 <= i < v.len() implies #[trigger] reads(v[i], k) by {
        lemma_reads_object(v[i]);
        lemma_reads_more_room(v[i], need_object(v[i]), k);
    }
    assert forall|i: int| 0 <= i < v.len() implies (#[trigger] v[i].enc()).len() >= 54 by {
        crate::wire_size::lemma_object_min_wire_size(v[i]);
    }
    lemma_read_seq(v, 54, k, s, st);
}

pub open spec fn legal_checkpoint_tx(t: CheckpointTransaction) -> bool {
    &&& legal_signed(t.transaction)
    &&& legal_effects(t.effects.version)
    &&& (t.events matches Some(ev) ==> legal_events(ev))
    &&& legal_objects(t.input_objects@)
    &&& legal_objects(t.output_objects@)
}

/// The transaction reads back within `k` levels: its own, the signed
/// transaction's two around it, and what each part needs below.
pub open spec fn fits_checkpoint_tx(t: CheckpointTransaction, k: int) -> bool {
    &&& k >= 1
    &&& fits_tx_data(t.transaction.data, k - 5)
    &&& fits_effects(t.effects.version, k - 1)
    &&& (t.events matches Some(ev) ==> fits_events(ev, k - 1))
    &&& fits_objects(t.input_objects@, k - 1)
    &&& fits_objects(t.output_objects@, k - 1)
}

/// The effects, the events and the objects after the signed transaction.
#[verifier::spinoff_prover]
#[verifier::rlimit(40)]
proof fn lemma_read_checkpoint_tx_rest(t: CheckpointTransaction, k: int, s: Seq<u8>, st3: St)
    requires
        legal_checkpoint_tx(t),
        fits_checkpoint_tx(t, k),
        at(s, st3, t.effects.enc() + t.events.enc() + enc_seq(t.input_objects@) + enc_seq(t.output_objects@)),
        room(st3, k - 1),
    ensures
        ok_past(
            then(
                rec2::<TransactionEffects, Option<TransactionEvents>>(s, st3),
                |st4: St| then(sp_seq::<Object>(s, st4, 54), |st5: St| sp_seq::<Object>(s, st5, 54)),
            ),
            st3,
            (t.effects.enc() + t.events.enc() + enc_seq(t.input_objects@) + enc_seq(t.output_objects@)).len() as int,
        ),
{
    let x = t.effects.enc() + t.events.enc();
    let a = enc_seq(t.input_objects@);
    let b = enc_seq(t.output_objects@);
    assert(t.effects.enc() + t.events.enc() + a + b =~= x + (a + b));
    lemma_at_split(s, st3, x, a + b);
    lemma_reads_effects(t.effects, k - 1);
    if let Some(ev) = t.events {
        lemma_reads_events(ev, k - 1);
    }
    lemma_reads_option(t.events, k - 1);
    lemma_read_rec2(t.effects, t.events, k - 1, s, st3);
    let st4 = rec2::<TransactionEffects, Option<TransactionEvents>>(s, st3)->Ok_0;
    lemma_at_split(s, st4, a, b);
    lemma_read_objects(t.input_objects@, k - 1, s, st4);
    let st5 = sp_seq::<Object>(s, st4, 54)->Ok_0;
    lemma_read_objects(t.output_objects@, k - 1, s, st5);
}

#[verifier::spinoff_prover]
#[verifier::rlimit(40)]
pub proof fn lemma_reads_checkpoint_tx(t: CheckpointTransaction, k: int)
    requires
        legal_checkpoint_tx(t),
        fits_checkpoint_tx(t, k),
    ensures
        reads(t, k),
        t.enc().len() >= CheckpointTransaction::MIN_WIRE_SIZE,
{
    crate::wire_size::lemma_checkpoint_transaction_min_wire_size(t);
    lemma_reads_signed(t.transaction, k - 2);
    assert forall|s: Seq<u8>, st: St| at(s, st, t.enc()) && room(st, k) implies ok_past(
        CheckpointTransaction::rec(s, st),
        st,
        t.enc().len() as int,
    ) by {
        let st1 = St { depth: st.depth + 1, ..st };
        let y = t.effects.enc() + t.events.enc() + enc_seq(t.input_objects@) + enc_seq(t.output_objects@);
        assert(t.enc() =~= t.transaction.enc() + y);
        assert(at(s, st1, t.enc()));
        lemma_at_split(s, st1, t.transaction.enc(), y);
        let st2 = St { depth: st1.depth + 1, ..st1 };
        assert(at(s, st2, t.transaction.enc()) && room(st2, k - 2));
        let st6 = SenderSignedData::rec(s, st2)->Ok_0;
        let st3 = St { depth: st6.depth - 1, ..st6 };
        lemma_read_checkpoint_tx_rest(t, k, s, st3);
    }
}

pub open spec fn legal_checkpoint_data(d: CheckpointData) -> bool {
    &&& legal_summary(d.checkpoint_summary.data)
    &&& d.checkpoint_summary.auth_signature.signers_map@.len() <= MAX_SEQUENCE_LENGTH
    &&& legal_contents(d.checkpoint_contents)
    &&& d.transactions@.len() <= MAX_SEQUENCE_LENGTH
    &&& forall|i: int| 0 <= i < d.transactions@.len() ==> legal_checkpoint_tx(#[trigger] d.transactions@[i])
}

/// The transactions of a checkpoint, one after the other.
#[verifier::spinoff_prover]
proof fn lemma_read_checkpoint_txs(v: Seq<CheckpointTransaction>, k: int, s: Seq<u8>, st: St)
    requires
        v.len() <= MAX_SEQUENCE_LENGTH,
        forall|i: int| 0 <= i < v.len() ==> legal_checkpoint_tx(#[trigger] v[i]),
        forall|i: int| 0 <= i < v.len() ==> fits_checkpoint_tx(#[trigger] v[i], k),
        k >= 0,
        at(s, st, enc_seq(v)),
        room(st, k),
    ensures
        ok_past(sp_seq::<CheckpointTransaction>(s, st, CheckpointTransaction::MIN_WIRE_SIZE as int), st, enc_seq(v).len() as int),
{
    assert forall|i: int| 0 <= i < v.len() implies #[trigger] reads(v[i], k) by {
        lemma_reads_checkpoint_tx(v[i], k);
    }
    assert forall|i: int| 0 <= i < v.len() implies (#[trigger] v[i].enc()).len() >= CheckpointTransaction::MIN_WIRE_SIZE by {
        lemma_reads_checkpoint_tx(v[i], k);
    }
    lemma_read_seq(v, CheckpointTransaction::MIN_WIRE_SIZE as int, k, s, st);
}

/// Every well-formed checkpoint with its transactions, written out, is read
/// back whole: every sequence, string and byte string within the reader's
/// length limit, and every transaction, effect, event and object nested
/// within the reader's depth limit below the two containers around it.
#[verifier::spinoff_prover]
pub proof fn lemma_checkpoint_data_is_accepted(d: CheckpointData)
    requires
        legal_checkpoint_data(d),
        forall|i: int| 0 <= i < d.transactions@.len() ==> fits_checkpoint_tx(#[trigger] d.transactions@[i], MAX_CONTAINER_DEPTH - 1),
    ensures
        exact_rec::<CheckpointData>(d.enc()) == Ok::<(), ParseError>(()),
{
    let v = d.transactions@;
    lemma_reads_certified(d.checkpoint_summary);
    lemma_reads_contents(d.checkpoint_contents);
    let e = d.enc();
    lemma_at_whole(e);
    let st1 = St { pos: 0, depth: 1, tags: 0 };
    let x = d.checkpoint_summary.enc() + d.checkpoint_contents.enc();
    assert(e =~= x + enc_seq(v));
    assert(at(e, st1, e));
    lemma_at_split(e, st1, x, enc_seq(v));
    lemma_read_rec2(d.checkpoint_summary, d.checkpoint_contents, 0, e, st1);
    let st2 = rec2::<CertifiedCheckpointSummary, CheckpointContents>(e, st1)->Ok_0;
    lemma_read_checkpoint_txs(v, MAX_CONTAINER_DEPTH - 1, e, st2);
}

pub open spec fn legal_execution_data(x: ExecutionData) -> bool {
    legal_signed(x.transaction) && legal_effects(x.effects.version)
}

/// The pair reads back within `k` levels: its own, the signed
/// transaction's two around it, and what each part needs below.
pub open spec fn fits_execution_data(x: ExecutionData, k: int) -> bool {
    &&& k >= 1
    &&& fits_tx_data(x.transaction.data, k - 5)
    &&& fits_effects(x.effects.version, k - 1)
}

#[verifier::spinoff_prover]
#[verifier::rlimit(40)]
pub proof fn lemma_reads_execution_data(x: ExecutionData, k: int)
    requires
        legal_execution_data(x),
        fits_execution_data(x, k),
    ensures
        reads(x, k),
        x.enc().len() >= SenderSignedData::MIN_WIRE_SIZE + TransactionEffects::MIN_WIRE_SIZE,
{
    crate::wire_size::lemma_sender_signed_data_min_wire_size(x.transaction);
    crate::wire_size::lemma_transaction_effects_min_wire_size(x.effects);
    lemma_reads_signed(x.transaction, k - 2);
    lemma_reads_effects(x.effects, k - 1);
    assert forall|s: Seq<u8>, st: St| at(s, st, x.enc()) && room(st, k) implies ok_past(
        ExecutionData::rec(s, st),
        st,
        x.enc().len() as int,
    ) by {
        let st1 = St { depth: st.depth + 1, ..st };
        assert(at(s, st1, x.enc()));
        lemma_at_split(s, st1, x.transaction.enc(), x.effects.enc());
        let st2 = St { depth: st1.depth + 1, ..st1 };
        assert(at(s, st2, x.transaction.enc()) && room(st2, k - 2));
        let st6 = SenderSignedData::rec(s, st2)->Ok_0;
        let st3 = St { depth: st6.depth - 1, ..st6 };
        assert(at(s, st3, x.effects.enc()) && room(st3, k - 1));
    }
}

pub open spec fn legal_full_contents(c: FullCheckpointContents) -> bool {
    &&& c.transactions@.len() <= MAX_SEQUENCE_LENGTH
    &&& forall|i: int| 0 <= i < c.transactions@.len() ==> legal_execution_data(#[trigger] c.transactions@[i])
    &&& c.user_signatures@.len() <= MAX_SEQUENCE_LENGTH
    &&& forall|i: int| 0 <= i < c.user_signatures@.len() ==> legal_signature_list(#[trigger] c.user_signatures@[i])
}

/// Every well-formed run of transactions with their effects and signatures,
/// written out, is read back whole, under the same limits.
#[verifier::spinoff_prover]
#[verifier::rlimit(40)]
pub proof fn lemma_full_contents_are_accepted(c: FullCheckpointContents)
    requires
        legal_full_contents(c),
        forall|i: int| 0 <= i < c.transactions@.len() ==> fits_execution_data(#[trigger] c.transactions@[i], MAX_CONTAINER_DEPTH - 1),
    ensures
        exact_rec::<FullCheckpointContents>(c.enc()) == Ok::<(), ParseError>(()),
{
    let k = MAX_CONTAINER_DEPTH - 1;
    let v = c.transactions@;
    let u = c.user_signatures@;
    let min = (SenderSignedData::MIN_WIRE_SIZE + TransactionEffects::MIN_WIRE_SIZE) as int;
    assert forall|i: int| 0 <= i < v.len() implies #[trigger] reads(v[i], k) by {
        lemma_reads_execution_data(v[i], k);
    }
    assert forall|i: int| 0 <= i < v.len() implies (#[trigger] v[i].enc()).len() >= min by {
        lemma_reads_execution_data(v[i], k);
    }
    assert forall|i: int| 0 <= i < u.len() implies #[trigger] reads(u[i], 0) by {
        lemma_reads_signature_list(u[i]);
    }
    assert forall|i: int| 0 <= i < u.len() implies (#[trigger] u[i].enc()).len() >= 1 by {
        lemma_reads_signature_list(u[i]);
    }
    let e = c.enc();
    lemma_at_whole(e);
    let st1 = St { pos: 0, depth: 1, tags: 0 };
    assert(at(e, st1, e));
    lemma_at_split(e, st1, enc_seq(v), enc_seq(u));
    lemma_read_seq(v, min, k, e, st1);
    let st2 = sp_seq::<ExecutionData>(e, st1, min)->Ok_0;
    lemma_read_seq(u, 1, 0, e, st2);
}

} // verus!
