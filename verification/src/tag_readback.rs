//! No other type tag, and no other event, has the encoding of a given one:
//! an encoding followed by anything is read back as that value and that
//! rest. Strings and vectors are compared by their views.
use vstd::prelude::*;
use crate::accept::lemma_reads_string;
use crate::error_readback::{lemma_prefix_free, lemma_string_injective};
use crate::message::{exact_rec, start};
use crate::error::ParseError;
use crate::fast::{fits_tt, lemma_legal_tag_fits};
use crate::readback::lemma_at_whole;
use crate::reader::{sp_uleb, lemma_uleb_roundtrip, MAX_SEQUENCE_LENGTH, MAX_CONTAINER_DEPTH};
use crate::readback::{lemma_cat_cancel, lemma_array_eq};
use crate::type_tag::{
    TypeTag, StructTag, enc_tt, enc_st, enc_tt_list, legal_tt, legal_st, legal_tt_list, need_tt,
    lemma_read_tt,
};
use crate::wire::{Wire, enc_uleb, enc_string, enc_bytes, enc_all};
use crate::effects::{Event, TransactionEvents};
use crate::checkpoint::CheckpointData;
use crate::accept::legal_event;

verus! {

/// A variable-length number is read back whatever follows it.
pub proof fn lemma_uleb_prefix(n: u32, m: u32, x: Seq<u8>, y: Seq<u8>)
    requires
        enc_uleb(n) + x == enc_uleb(m) + y,
    ensures
        n == m,
        x == y,
{
    let s = enc_uleb(n) + x;
    reveal_with_fuel(enc_uleb, 1);
    assert(s.subrange(0, enc_uleb(n).len() as int) =~= enc_uleb(n));
    assert((enc_uleb(m) + y).subrange(0, enc_uleb(m).len() as int) =~= enc_uleb(m));
    lemma_uleb_roundtrip(n, s, start());
    lemma_uleb_roundtrip(m, s, start());
    lemma_cat_cancel(enc_uleb(n), x, enc_uleb(m), y);
}

/// Where what follows is the same, so is what went before.
pub proof fn lemma_cancel_right(a: Seq<u8>, b: Seq<u8>, x: Seq<u8>)
    requires
        a + x == b + x,
    ensures
        a == b,
{
    assert((a + x).len() == a.len() + x.len());
    assert((b + x).len() == b.len() + x.len());
    assert((a + x).len() == (b + x).len());
    lemma_cat_cancel(a, x, b, x);
}

proof fn lemma_assoc6(a: Seq<u8>, b: Seq<u8>, c: Seq<u8>, d: Seq<u8>, e: Seq<u8>, f: Seq<u8>)
    ensures
        a + b + c + d + e + f == a + (b + (c + (d + (e + f)))),
{
    assert(a + b + c + d + e + f =~= a + (b + (c + (d + (e + f)))));
}

pub open spec fn tt_tag(t: TypeTag) -> u32 {
    match t {
        TypeTag::Bool => 0,
        TypeTag::U8 => 1,
        TypeTag::U64 => 2,
        TypeTag::U128 => 3,
        TypeTag::Address => 4,
        TypeTag::Signer => 5,
        TypeTag::Vector(_) => 6,
        TypeTag::Struct(_) => 7,
        TypeTag::U16 => 8,
        TypeTag::U32 => 9,
        TypeTag::U256 => 10,
    }
}

/// What follows a tag's variant index.
pub open spec fn tt_body(t: TypeTag) -> Seq<u8> {
    match t {
        TypeTag::Vector(p) => enc_tt(*p),
        TypeTag::Struct(p) => enc_st(*p),
        _ => Seq::empty(),
    }
}

proof fn lemma_tt_split(t: TypeTag)
    ensures
        enc_tt(t) == enc_uleb(tt_tag(t)) + tt_body(t),
{
    assert(enc_tt(t) =~= enc_uleb(tt_tag(t)) + tt_body(t));
}

/// Type tags compared by value, names by their text.
pub open spec fn same_tt(a: TypeTag, b: TypeTag) -> bool
    decreases a,
{
    match a {
        TypeTag::Vector(p) => match b {
            TypeTag::Vector(q) => same_tt(*p, *q),
            _ => false,
        },
        TypeTag::Struct(p) => match b {
            TypeTag::Struct(q) => same_st(*p, *q),
            _ => false,
        },
        _ => a == b,
    }
}

pub open spec fn same_st(a: StructTag, b: StructTag) -> bool
    decreases a,
{
    &&& a.address == b.address
    &&& a.module@ == b.module@
    &&& a.name@ == b.name@
    &&& same_tt_list(a.type_params@, b.type_params@)
}

pub open spec fn same_tt_list(v: Seq<TypeTag>, w: Seq<TypeTag>) -> bool
    decreases v,
{
    if v.len() == 0 {
        w.len() == 0
    } else {
        &&& w.len() > 0
        &&& same_tt(v[0], w[0])
        &&& same_tt_list(v.subrange(1, v.len() as int), w.subrange(1, w.len() as int))
    }
}

/// A list of tags is its first tag, then the rest.
pub proof fn lemma_tt_list_front(v: Seq<TypeTag>)
    requires
        v.len() > 0,
    ensures
        enc_tt_list(v) == enc_tt(v[0]) + enc_tt_list(v.subrange(1, v.len() as int)),
        legal_tt_list(v) ==> legal_tt(v[0]) && legal_tt_list(v.subrange(1, v.len() as int)),
    decreases v.len(),
{
    let n = v.len() as int;
    let d = v.subrange(1, n);
    if n == 1 {
        assert(v.subrange(0, 0) =~= Seq::<TypeTag>::empty());
        assert(d =~= Seq::<TypeTag>::empty());
        assert(enc_tt_list(v.subrange(0, 0)) == Seq::<u8>::empty());
        assert(enc_tt_list(d) == Seq::<u8>::empty());
        assert(enc_tt_list(v) == enc_tt_list(v.subrange(0, 0)) + enc_tt(v[0]));
        assert(enc_tt_list(v) =~= enc_tt(v[0]) + enc_tt_list(d));
    } else {
        let p = v.subrange(0, n - 1);
        lemma_tt_list_front(p);
        assert(p[0] == v[0]);
        assert(d.subrange(0, d.len() - 1) =~= p.subrange(1, p.len() as int));
        assert(d[d.len() - 1] == v[n - 1]);
        assert(enc_tt_list(d) == enc_tt_list(d.subrange(0, d.len() - 1)) + enc_tt(d[d.len() - 1]));
        assert(enc_tt_list(v) == enc_tt_list(p) + enc_tt(v[n - 1]));
        assert(enc_tt_list(v) =~= enc_tt(v[0]) + enc_tt_list(d));
    }
}

/// A type tag's encoding, whatever follows it, is read back as that tag
/// and that rest.
pub proof fn lemma_tt_injective(a: TypeTag, b: TypeTag, x: Seq<u8>, y: Seq<u8>)
    requires
        legal_tt(a),
        legal_tt(b),
        enc_tt(a) + x == enc_tt(b) + y,
    ensures
        same_tt(a, b),
        enc_tt(a) == enc_tt(b),
        x == y,
    decreases a,
{
    lemma_tt_split(a);
    lemma_tt_split(b);
    assert(enc_tt(a) + x =~= enc_uleb(tt_tag(a)) + (tt_body(a) + x));
    assert(enc_tt(b) + y =~= enc_uleb(tt_tag(b)) + (tt_body(b) + y));
    lemma_uleb_prefix(tt_tag(a), tt_tag(b), tt_body(a) + x, tt_body(b) + y);
    match a {
        TypeTag::Vector(p) => {
            if let TypeTag::Vector(q) = b {
                lemma_tt_injective(*p, *q, x, y);
            }
        },
        TypeTag::Struct(p) => {
            if let TypeTag::Struct(q) = b {
                lemma_st_injective(*p, *q, x, y);
            }
        },
        _ => {
            assert(x =~= tt_body(a) + x);
            assert(y =~= tt_body(b) + y);
        },
    }
    lemma_cancel_right(enc_tt(a), enc_tt(b), x);
}

/// A struct tag's encoding, whatever follows it, is read back as that tag
/// and that rest.
#[verifier::spinoff_prover]
pub proof fn lemma_st_injective(a: StructTag, b: StructTag, x: Seq<u8>, y: Seq<u8>)
    requires
        legal_st(a),
        legal_st(b),
        enc_st(a) + x == enc_st(b) + y,
    ensures
        same_st(a, b),
        enc_st(a) == enc_st(b),
        x == y,
    decreases a,
{
    let la = enc_tt_list(a.type_params@);
    let lb = enc_tt_list(b.type_params@);
    let ua = enc_uleb(a.type_params@.len() as u32);
    let ub = enc_uleb(b.type_params@.len() as u32);
    let ta = enc_string(a.name) + (ua + (la + x));
    let tb = enc_string(b.name) + (ub + (lb + y));
    assert(enc_st(a) == a.address.0@ + enc_string(a.module) + enc_string(a.name) + ua + la);
    assert(enc_st(b) == b.address.0@ + enc_string(b.module) + enc_string(b.name) + ub + lb);
    lemma_assoc6(a.address.0@, enc_string(a.module), enc_string(a.name), ua, la, x);
    lemma_assoc6(b.address.0@, enc_string(b.module), enc_string(b.name), ub, lb, y);
    lemma_cat_cancel(a.address.0@, a.module.enc() + ta, b.address.0@, b.module.enc() + tb);
    lemma_array_eq(a.address.0, b.address.0);
    lemma_reads_string(a.module);
    lemma_reads_string(b.module);
    lemma_prefix_free(a.module, b.module, ta, tb);
    lemma_string_injective(a.module, b.module);
    lemma_reads_string(a.name);
    lemma_reads_string(b.name);
    lemma_prefix_free(a.name, b.name, ua + (la + x), ub + (lb + y));
    lemma_string_injective(a.name, b.name);
    lemma_uleb_prefix(a.type_params@.len() as u32, b.type_params@.len() as u32, la + x, lb + y);
    lemma_tt_list_injective(a.type_params@, b.type_params@, x, y);
    lemma_cancel_right(enc_st(a), enc_st(b), x);
}

/// Lists of tags of one length, whatever follows them, are read back as
/// those tags and that rest.
pub proof fn lemma_tt_list_injective(v: Seq<TypeTag>, w: Seq<TypeTag>, x: Seq<u8>, y: Seq<u8>)
    requires
        v.len() == w.len(),
        legal_tt_list(v),
        legal_tt_list(w),
        enc_tt_list(v) + x == enc_tt_list(w) + y,
    ensures
        same_tt_list(v, w),
        enc_tt_list(v) == enc_tt_list(w),
        x == y,
    decreases v,
{
    if v.len() == 0 {
        assert(x =~= enc_tt_list(v) + x);
        assert(y =~= enc_tt_list(w) + y);
    } else {
        let v1 = v.subrange(1, v.len() as int);
        let w1 = w.subrange(1, w.len() as int);
        lemma_tt_list_front(v);
        lemma_tt_list_front(w);
        assert(enc_tt_list(v) + x =~= enc_tt(v[0]) + (enc_tt_list(v1) + x));
        assert(enc_tt_list(w) + y =~= enc_tt(w[0]) + (enc_tt_list(w1) + y));
        lemma_tt_injective(v[0], w[0], enc_tt_list(v1) + x, enc_tt_list(w1) + y);
        lemma_tt_list_injective(v1, w1, x, y);
    }
    lemma_cancel_right(enc_tt_list(v), enc_tt_list(w), x);
}

/// A run of values is its first value, then the rest.
pub proof fn lemma_enc_all_front<T: Wire>(v: Seq<T>)
    requires
        v.len() > 0,
    ensures
        enc_all(v) == v[0].enc() + enc_all(v.subrange(1, v.len() as int)),
    decreases v.len(),
{
    let n = v.len() as int;
    let d = v.subrange(1, n);
    if n == 1 {
        assert(v.drop_last() =~= Seq::<T>::empty());
        assert(d =~= Seq::<T>::empty());
        assert(enc_all(v.drop_last()) == Seq::<u8>::empty());
        assert(enc_all(d) == Seq::<u8>::empty());
        assert(enc_all(v) =~= v[0].enc() + enc_all(d));
    } else {
        let p = v.drop_last();
        lemma_enc_all_front(p);
        assert(p[0] == v[0]);
        assert(d.drop_last() =~= p.subrange(1, p.len() as int));
        assert(d.last() == v.last());
        assert(enc_all(d) == enc_all(d.drop_last()) + d.last().enc());
        assert(enc_all(v) == enc_all(p) + v.last().enc());
        assert(enc_all(v) =~= v[0].enc() + enc_all(d));
    }
}

/// Two events compared by value, strings and contents by their views.
pub open spec fn same_event(a: Event, b: Event) -> bool {
    &&& a.package_id == b.package_id
    &&& a.transaction_module@ == b.transaction_module@
    &&& a.sender == b.sender
    &&& same_st(a.type_, b.type_)
    &&& a.contents@ == b.contents@
}

pub open spec fn same_events(v: Seq<Event>, w: Seq<Event>) -> bool {
    &&& v.len() == w.len()
    &&& forall|i: int| 0 <= i < v.len() ==> same_event(#[trigger] v[i], w[i])
}

/// An event's encoding, whatever follows it, is read back as that event
/// and that rest.
#[verifier::spinoff_prover]
pub proof fn lemma_event_injective(a: Event, b: Event, x: Seq<u8>, y: Seq<u8>)
    requires
        legal_event(a),
        legal_event(b),
        a.enc() + x == b.enc() + y,
    ensures
        same_event(a, b),
        a.enc() == b.enc(),
        x == y,
{
    let ca = enc_bytes(a.contents@);
    let cb = enc_bytes(b.contents@);
    let ta = enc_st(a.type_);
    let tb = enc_st(b.type_);
    let ma = a.transaction_module.enc();
    let mb = b.transaction_module.enc();
    assert(a.enc() == a.package_id.0@ + ma + a.sender.0@ + ta + ca);
    assert(b.enc() == b.package_id.0@ + mb + b.sender.0@ + tb + cb);
    lemma_assoc6(a.package_id.0@, ma, a.sender.0@, ta, ca, x);
    lemma_assoc6(b.package_id.0@, mb, b.sender.0@, tb, cb, y);
    lemma_cat_cancel(a.package_id.0@, ma + (a.sender.0@ + (ta + (ca + x))), b.package_id.0@, mb + (
    b.sender.0@ + (tb + (cb + y))));
    lemma_array_eq(a.package_id.0, b.package_id.0);
    lemma_reads_string(a.transaction_module);
    lemma_reads_string(b.transaction_module);
    lemma_prefix_free(a.transaction_module, b.transaction_module, a.sender.0@ + (ta + (ca + x)), b.sender.0@ + (tb + (cb + y)));
    lemma_string_injective(a.transaction_module, b.transaction_module);
    lemma_cat_cancel(a.sender.0@, ta + (ca + x), b.sender.0@, tb + (cb + y));
    lemma_array_eq(a.sender.0, b.sender.0);
    lemma_st_injective(a.type_, b.type_, ca + x, cb + y);
    let n = a.contents@.len() as u32;
    let m = b.contents@.len() as u32;
    assert(ca + x =~= enc_uleb(n) + (a.contents@ + x));
    assert(cb + y =~= enc_uleb(m) + (b.contents@ + y));
    lemma_uleb_prefix(n, m, a.contents@ + x, b.contents@ + y);
    lemma_cat_cancel(a.contents@, x, b.contents@, y);
    lemma_cancel_right(a.enc(), b.enc(), x);
}

/// Runs of events of one length, whatever follows them, are read back as
/// those events and that rest.
#[verifier::spinoff_prover]
#[verifier::rlimit(40)]
pub proof fn lemma_events_injective(v: Seq<Event>, w: Seq<Event>, x: Seq<u8>, y: Seq<u8>)
    requires
        v.len() == w.len(),
        forall|i: int| 0 <= i < v.len() ==> legal_event(#[trigger] v[i]),
        forall|i: int| 0 <= i < w.len() ==> legal_event(#[trigger] w[i]),
        enc_all(v) + x == enc_all(w) + y,
    ensures
        same_events(v, w),
        x == y,
    decreases v.len(),
{
    if v.len() == 0 {
        assert(x =~= enc_all(v) + x);
        assert(y =~= enc_all(w) + y);
    } else {
        let v1 = v.subrange(1, v.len() as int);
        let w1 = w.subrange(1, w.len() as int);
        lemma_enc_all_front(v);
        lemma_enc_all_front(w);
        assert(enc_all(v) + x =~= v[0].enc() + (enc_all(v1) + x));
        assert(enc_all(w) + y =~= w[0].enc() + (enc_all(w1) + y));
        assert(legal_event(v[0]) && legal_event(w[0]));
        lemma_event_injective(v[0], w[0], enc_all(v1) + x, enc_all(w1) + y);
        assert forall|i: int| 0 <= i < v1.len() implies legal_event(#[trigger] v1[i]) by {
            assert(v1[i] == v[i + 1]);
        }
        assert forall|i: int| 0 <= i < w1.len() implies legal_event(#[trigger] w1[i]) by {
            assert(w1[i] == w[i + 1]);
        }
        lemma_events_injective(v1, w1, x, y);
        assert forall|i: int| 0 <= i < v.len() implies same_event(#[trigger] v[i], w[i]) by {
            if i > 0 {
                assert(v1[i - 1] == v[i] && w1[i - 1] == w[i]);
            }
        }
    }
}

/// Events read back from their bytes: two well-formed lists of events
/// (parses give back well-formed ones) with the same bytes hold the same
/// events.
pub proof fn lemma_events_read_back(a: TransactionEvents, b: TransactionEvents)
    requires
        a.well_formed(),
        b.well_formed(),
        a.bytes@ == b.bytes@,
    ensures
        same_events(a.data@, b.data@),
{
    let v = a.data@;
    let w = b.data@;
    lemma_uleb_prefix(v.len() as u32, w.len() as u32, enc_all(v), enc_all(w));
    assert(enc_all(v) + Seq::<u8>::empty() =~= enc_all(w) + Seq::<u8>::empty());
    lemma_events_injective(v, w, Seq::empty(), Seq::empty());
}

/// Events parsed inside a checkpoint, and parsed again alone from their
/// bytes, are the same events.
pub proof fn lemma_checkpoint_events_read_back(c: CheckpointData, i: int, alone: TransactionEvents)
    requires
        c.well_formed(),
        0 <= i < c.transactions@.len(),
        c.transactions@[i].events is Some,
        alone.well_formed(),
        alone.bytes@ == (c.transactions@[i].events->0).bytes@,
    ensures
        same_events((c.transactions@[i].events->0).data@, alone.data@),
{
    assert(c.transactions@[i].well_formed());
    lemma_events_read_back(c.transactions@[i].events->0, alone);
}

/// The type-tag round trip. Every tag a parse gives back is well-formed,
/// and `Writer::type_tag` can write it; what it writes starts with the
/// variant index, the parser takes all of it wherever the tag's nesting
/// fits the depth limit, and every well-formed tag with that encoding is
/// the same tag.
pub proof fn lemma_type_tag_round_trip(t: TypeTag, t2: TypeTag)
    requires
        t.well_formed(),
    ensures
        fits_tt(t),
        enc_tt(t)[0] == tt_tag(t) as u8,
        need_tt(t) <= MAX_CONTAINER_DEPTH ==> exact_rec::<TypeTag>(enc_tt(t)) == Ok::<(), ParseError>(()),
        t2.well_formed() && enc_tt(t2) == enc_tt(t) ==> same_tt(t2, t),
{
    lemma_legal_tag_fits(t);
    lemma_tt_split(t);
    reveal_with_fuel(enc_uleb, 1);
    assert((enc_uleb(tt_tag(t)) + tt_body(t))[0] == enc_uleb(tt_tag(t))[0]);
    lemma_at_whole(enc_tt(t));
    lemma_read_tt(t, enc_tt(t), start());
    if t2.well_formed() && enc_tt(t2) == enc_tt(t) {
        assert(enc_tt(t2) + Seq::<u8>::empty() == enc_tt(t) + Seq::<u8>::empty());
        lemma_tt_injective(t2, t, Seq::empty(), Seq::empty());
    }
}

}
