//! Reading back what was written: where a value's encoding stands at the
//! cursor, the value's recognizer accepts it and stops right after it, and
//! no other value has the same encoding.
use vstd::prelude::*;
use crate::base::{Digest, ObjectId};
use crate::object::{Owner, PartyMember};
use crate::error::ParseError;
use crate::reader::{
    St, Rec, adv, sp_bytes, sp_byte_vec, sp_option, sp_opt_of, sp_length, sp_seq_len, sp_str, span,
    lemma_uleb_roundtrip, MAX_SEQUENCE_LENGTH, MAX_CONTAINER_DEPTH,
};
use crate::effects::{rec3, rec4};
use crate::execution_status::rec2;
use crate::wire::{
    Wire, enc_u64, enc_uleb, enc_bytes, enc_string, encode_utf8, enc_all, enc_seq, sp_rep, sp_seq,
    sp_records,
};

verus! {

/// `e` stands in `s` at the cursor `st`.
pub open spec fn at(s: Seq<u8>, st: St, e: Seq<u8>) -> bool {
    &&& 0 <= st.pos
    &&& st.pos + e.len() <= s.len()
    &&& s.subrange(st.pos, st.pos + e.len()) == e
}

/// The byte at offset `i` of what stands at the cursor.
pub proof fn lemma_at_index(s: Seq<u8>, st: St, e: Seq<u8>, i: int)
    requires
        at(s, st, e),
        0 <= i < e.len(),
    ensures
        s[st.pos + i] == e[i],
{
    assert(s.subrange(st.pos, st.pos + e.len())[i] == s[st.pos + i]);
}

/// What stands at the cursor is what its two halves stand at, one after
/// the other.
pub proof fn lemma_at_split(s: Seq<u8>, st: St, a: Seq<u8>, b: Seq<u8>)
    requires
        at(s, st, a + b),
    ensures
        at(s, st, a),
        at(s, adv(st, a.len() as int), b),
{
    let p = st.pos;
    let ab = s.subrange(p, p + a.len() + b.len());
    assert(ab == a + b);
    assert(s.subrange(p, p + a.len()) =~= ab.subrange(0, a.len() as int));
    assert((a + b).subrange(0, a.len() as int) =~= a);
    assert(s.subrange(p + a.len(), p + a.len() + b.len()) =~= ab.subrange(
        a.len() as int,
        ab.len() as int,
    ));
    assert((a + b).subrange(a.len() as int, (a + b).len() as int) =~= b);
}

/// A whole buffer stands at its start.
pub proof fn lemma_at_whole(e: Seq<u8>)
    ensures
        at(e, St { pos: 0, depth: 0, tags: 0 }, e),
{
    assert(e.subrange(0, e.len() as int) =~= e);
}

pub proof fn lemma_read_u64(v: u64, s: Seq<u8>, st: St)
    requires
        at(s, st, v.enc()),
    ensures
        u64::rec(s, st) == Ok::<St, ParseError>(adv(st, 8)),
        v.enc().len() == 8,
{
}

pub proof fn lemma_read_bool(v: bool, s: Seq<u8>, st: St)
    requires
        at(s, st, v.enc()),
    ensures
        bool::rec(s, st) == Ok::<St, ParseError>(adv(st, 1)),
        v.enc().len() == 1,
{
    lemma_at_index(s, st, v.enc(), 0);
}

pub proof fn lemma_read_option_u64(v: Option<u64>, s: Seq<u8>, st: St)
    requires
        at(s, st, v.enc()),
    ensures
        Option::<u64>::rec(s, st) == Ok::<St, ParseError>(adv(st, v.enc().len() as int)),
        v.enc().len() == if v is Some { 9int } else { 1int },
{
    lemma_at_index(s, st, v.enc(), 0);
    match v {
        Some(x) => {
            lemma_at_split(s, st, seq![1u8], x.enc());
            assert(sp_option(s, st) == Ok::<(bool, St), ParseError>((true, adv(st, 1))));
        },
        None => {},
    }
}

pub proof fn lemma_read_object_id(v: ObjectId, s: Seq<u8>, st: St)
    requires
        at(s, st, v.enc()),
    ensures
        ObjectId::rec(s, st) == Ok::<St, ParseError>(adv(st, 32)),
        v.enc().len() == 32,
{
}

pub proof fn lemma_read_digest(v: Digest, s: Seq<u8>, st: St)
    requires
        at(s, st, v.enc()),
    ensures
        Digest::rec(s, st) == Ok::<St, ParseError>(adv(st, 33)),
        v.enc().len() == 33,
{
    lemma_at_index(s, st, v.enc(), 0);
}

/// Little-endian encoding loses nothing.
pub proof fn lemma_u64_injective(a: u64, b: u64)
    requires
        enc_u64(a) == enc_u64(b),
    ensures
        a == b,
{
    assert(enc_u64(a)[0] == enc_u64(b)[0]);
    assert(enc_u64(a)[1] == enc_u64(b)[1]);
    assert(enc_u64(a)[2] == enc_u64(b)[2]);
    assert(enc_u64(a)[3] == enc_u64(b)[3]);
    assert(enc_u64(a)[4] == enc_u64(b)[4]);
    assert(enc_u64(a)[5] == enc_u64(b)[5]);
    assert(enc_u64(a)[6] == enc_u64(b)[6]);
    assert(enc_u64(a)[7] == enc_u64(b)[7]);
    assert(a == b) by (bit_vector)
        requires
            a as u8 == b as u8,
            (a >> 8u64) as u8 == (b >> 8u64) as u8,
            (a >> 16u64) as u8 == (b >> 16u64) as u8,
            (a >> 24u64) as u8 == (b >> 24u64) as u8,
            (a >> 32u64) as u8 == (b >> 32u64) as u8,
            (a >> 40u64) as u8 == (b >> 40u64) as u8,
            (a >> 48u64) as u8 == (b >> 48u64) as u8,
            (a >> 56u64) as u8 == (b >> 56u64) as u8,
    ;
}

/// Two encodings that agree on a prefix of a known length agree on the
/// parts before and after it.
pub proof fn lemma_cat_cancel(a: Seq<u8>, b: Seq<u8>, c: Seq<u8>, d: Seq<u8>)
    requires
        a + b == c + d,
        a.len() == c.len(),
    ensures
        a == c,
        b == d,
{
    assert(a =~= (a + b).subrange(0, a.len() as int));
    assert(c =~= (c + d).subrange(0, c.len() as int));
    assert(b =~= (a + b).subrange(a.len() as int, (a + b).len() as int));
    assert(d =~= (c + d).subrange(c.len() as int, (c + d).len() as int));
}

pub proof fn lemma_option_u64_injective(a: Option<u64>, b: Option<u64>, x: Seq<u8>, y: Seq<u8>)
    requires
        a.enc() + x == b.enc() + y,
    ensures
        a == b,
        x == y,
{
    let l = a.enc() + x;
    let r = b.enc() + y;
    assert(l[0] == r[0]);
    match (a, b) {
        (Some(p), Some(q)) => {
            assert(l =~= seq![1u8] + (p.enc() + x));
            assert(r =~= seq![1u8] + (q.enc() + y));
            lemma_cat_cancel(seq![1u8], p.enc() + x, seq![1u8], q.enc() + y);
            lemma_cat_cancel(p.enc(), x, q.enc(), y);
            lemma_u64_injective(p, q);
        },
        (None, None) => {
            lemma_cat_cancel(a.enc(), x, b.enc(), y);
        },
        (Some(p), None) => {
            assert(l[0] == 1u8);
            assert(r[0] == 0u8);
        },
        (None, Some(q)) => {
            assert(l[0] == 0u8);
            assert(r[0] == 1u8);
        },
    }
}

pub proof fn lemma_bool_injective(a: bool, b: bool, x: Seq<u8>, y: Seq<u8>)
    requires
        a.enc() + x == b.enc() + y,
    ensures
        a == b,
        x == y,
{
    lemma_cat_cancel(a.enc(), x, b.enc(), y);
    assert(a.enc()[0] == b.enc()[0]);
}

/// Equal views make equal arrays.
pub proof fn lemma_array_eq<const N: usize>(a: [u8; N], b: [u8; N])
    requires
        a@ == b@,
    ensures
        a == b,
{
    assert forall|i: int| 0 <= i < N implies a[i] == b[i] by {
        assert(a@[i] == b@[i]);
    }
    assert(a =~= b);
}

/// A length that the reader accepts reads back.
pub proof fn lemma_read_length(n: u32, s: Seq<u8>, st: St)
    requires
        n <= MAX_SEQUENCE_LENGTH,
        at(s, st, enc_uleb(n)),
    ensures
        sp_length(s, st) == Ok::<(u32, St), ParseError>((n, adv(st, enc_uleb(n).len() as int))),
{
    lemma_uleb_roundtrip(n, s, st);
}

/// What `Writer::bytes` writes reads back: a reader over it accepts all of
/// it, and the only byte string with that encoding is the one written.
pub proof fn lemma_bytes_read_back(b: Seq<u8>, x: Seq<u8>)
    requires
        b.len() <= MAX_SEQUENCE_LENGTH,
    ensures
        sp_byte_vec(enc_bytes(b), St { pos: 0, depth: 0, tags: 0 }) == Ok::<St, ParseError>(
            St { pos: enc_bytes(b).len() as int, depth: 0, tags: 0 },
        ),
        enc_bytes(x) == enc_bytes(b) ==> x == b,
{
    let e = enc_bytes(b);
    let st = St { pos: 0, depth: 0, tags: 0 };
    let n = b.len() as u32;
    lemma_at_whole(e);
    lemma_at_split(e, st, enc_uleb(n), b);
    lemma_read_length(n, e, st);
    if enc_bytes(x) == e {
        let m = x.len() as u32;
        lemma_at_split(e, st, enc_uleb(m), x);
        lemma_uleb_roundtrip(m, e, st);
        lemma_uleb_roundtrip(n, e, st);
        assert(x =~= e.subrange(enc_uleb(n).len() as int, e.len() as int));
        assert(b =~= e.subrange(enc_uleb(n).len() as int, e.len() as int));
    }
}

/// A string whose UTF-8 encoding the reader's length limit admits reads
/// back.
pub proof fn lemma_read_string(t: String, s: Seq<u8>, st: St)
    requires
        encode_utf8(t@).len() <= MAX_SEQUENCE_LENGTH,
        at(s, st, enc_string(t)),
    ensures
        sp_str(s, st) == Ok::<St, ParseError>(adv(st, enc_string(t).len() as int)),
{
    let b = encode_utf8(t@);
    let n = b.len() as u32;
    assert(enc_string(t) == enc_uleb(n) + b);
    lemma_at_split(s, st, enc_uleb(n), b);
    lemma_read_length(n, s, st);
    let st1 = adv(st, enc_uleb(n).len() as int);
    assert(sp_bytes(s, st1, n as int) == Ok::<St, ParseError>(adv(st1, b.len() as int)));
    assert(span(s, st1, adv(st1, b.len() as int)) == b);
    vstd::utf8::encode_utf8_valid_utf8(t@);
}

// ---------------------------------------------------------------------
// Values that read back at any position.

/// A recognizer's outcome that takes exactly `n` bytes from `st` and
/// leaves the depth as it was. (Struct tags read on the way are counted in
/// the state too; that count is left open.)
pub open spec fn ok_past(res: Rec, st: St, n: int) -> bool {
    res matches Ok(st2) && st2.pos == st.pos + n && st2.depth == st.depth
}

/// There is room for `need` more container levels below `st`.
pub open spec fn room(st: St, need: int) -> bool {
    0 <= st.depth && st.depth + need <= MAX_CONTAINER_DEPTH
}

/// `v` reads back wherever its encoding stands, with `need` container
/// levels to spare.
pub open spec fn reads<T: Wire>(v: T, need: int) -> bool {
    forall|s: Seq<u8>, st: St|
        #![trigger T::rec(s, st)]
        at(s, st, v.enc()) && room(st, need) ==> ok_past(T::rec(s, st), st, v.enc().len() as int)
}

/// Every element reads back.
pub open spec fn all_read<T: Wire>(v: Seq<T>, need: int) -> bool {
    forall|i: int| 0 <= i < v.len() ==> #[trigger] reads(v[i], need)
}

/// A run of values one after the other reads back.
pub proof fn lemma_read_rep<T: Wire>(v: Seq<T>, need: int, s: Seq<u8>, st: St)
    requires
        all_read(v, need),
        at(s, st, enc_all(v)),
        room(st, need),
    ensures
        ok_past(sp_rep::<T>(s, st, v.len()), st, enc_all(v).len() as int),
    decreases v.len(),
{
    if v.len() > 0 {
        let pre = v.drop_last();
        assert(all_read(pre, need)) by {
            assert forall|i: int| 0 <= i < pre.len() implies #[trigger] reads(pre[i], need) by {
                assert(pre[i] == v[i]);
                assert(reads(v[i], need));
            }
        }
        lemma_at_split(s, st, enc_all(pre), v.last().enc());
        lemma_read_rep(pre, need, s, st);
        assert(reads(v[v.len() - 1], need));
        let st1 = sp_rep::<T>(s, st, pre.len())->Ok_0;
        assert(pre.len() == (v.len() - 1) as nat);
        assert(T::rec(s, st1) == sp_rep::<T>(s, st, v.len()));
    }
}

/// The encodings of a run are at least as long as its values each are.
pub proof fn lemma_enc_all_len<T: Wire>(v: Seq<T>, min: int)
    requires
        forall|i: int| 0 <= i < v.len() ==> (#[trigger] v[i].enc()).len() >= min,
        min >= 0,
    ensures
        enc_all(v).len() >= v.len() * min,
    decreases v.len(),
{
    if v.len() > 0 {
        let pre = v.drop_last();
        assert forall|i: int| 0 <= i < pre.len() implies (#[trigger] pre[i].enc()).len() >= min by {
            assert(pre[i] == v[i]);
        }
        lemma_enc_all_len(pre, min);
        assert(v[v.len() - 1].enc().len() >= min);
        assert(v.len() * min == pre.len() * min + min) by (nonlinear_arith)
            requires v.len() == pre.len() + 1;
    }
}

/// A length-prefixed sequence reads back when each element does, takes
/// at least the `min` bytes the reader assumes, and there are no more than
/// the reader's limit.
pub proof fn lemma_read_seq<T: Wire>(v: Seq<T>, min: int, need: int, s: Seq<u8>, st: St)
    requires
        all_read(v, need),
        forall|i: int| 0 <= i < v.len() ==> (#[trigger] v[i].enc()).len() >= min,
        min > 0,
        v.len() <= MAX_SEQUENCE_LENGTH,
        at(s, st, enc_seq(v)),
        room(st, need),
    ensures
        ok_past(sp_seq::<T>(s, st, min), st, enc_seq(v).len() as int),
{
    let n = v.len() as u32;
    lemma_at_split(s, st, enc_uleb(n), enc_all(v));
    lemma_read_length(n, s, st);
    let st1 = adv(st, enc_uleb(n).len() as int);
    lemma_enc_all_len(v, min);
    assert(n <= (s.len() - st1.pos) / min) by (nonlinear_arith)
        requires
            s.len() - st1.pos >= enc_all(v).len(),
            enc_all(v).len() >= v.len() * min,
            n == v.len(),
            min > 0,
    ;
    assert(sp_seq_len(s, st, min) == Ok::<(u32, St), ParseError>((n, st1)));
    lemma_read_rep(v, need, s, st1);
}

/// A length-prefixed run of fixed-size records reads back.
pub proof fn lemma_read_records<T: Wire>(v: Seq<T>, size: int, need: int, s: Seq<u8>, st: St)
    requires
        all_read(v, need),
        forall|i: int| 0 <= i < v.len() ==> (#[trigger] v[i].enc()).len() == size,
        size >= 0,
        v.len() <= MAX_SEQUENCE_LENGTH,
        at(s, st, enc_seq(v)),
        room(st, need),
    ensures
        ok_past(sp_records::<T>(s, st, size), st, enc_seq(v).len() as int),
{
    let n = v.len() as u32;
    lemma_at_split(s, st, enc_uleb(n), enc_all(v));
    lemma_read_length(n, s, st);
    let st1 = adv(st, enc_uleb(n).len() as int);
    lemma_enc_all_len(v, size);
    assert(n * size <= s.len() - st1.pos);
    lemma_read_rep(v, need, s, st1);
}

/// An optional value reads back when the value inside does.
pub proof fn lemma_read_opt<T: Wire>(o: Option<T>, need: int, s: Seq<u8>, st: St)
    requires
        o matches Some(x) ==> reads(x, need),
        at(s, st, o.enc()),
        room(st, need),
    ensures
        ok_past(sp_opt_of::<T>(s, st), st, o.enc().len() as int),
{
    lemma_at_index(s, st, o.enc(), 0);
    match o {
        Some(x) => {
            lemma_at_split(s, st, seq![1u8], x.enc());
            assert(sp_option(s, st) == Ok::<(bool, St), ParseError>((true, adv(st, 1))));
            assert(reads(x, need));
            assert(T::rec(s, adv(st, 1)) == sp_opt_of::<T>(s, st));
        },
        None => {},
    }
}

/// Less room is enough for a value that needs less.
pub proof fn lemma_reads_more_room<T: Wire>(v: T, need: int, more: int)
    requires
        reads(v, need),
        need <= more,
    ensures
        reads(v, more),
{
}

/// Two values one after the other read back.
pub proof fn lemma_read_rec2<A: Wire, B: Wire>(a: A, b: B, need: int, s: Seq<u8>, st: St)
    requires
        reads(a, need),
        reads(b, need),
        at(s, st, a.enc() + b.enc()),
        room(st, need),
    ensures
        ok_past(rec2::<A, B>(s, st), st, (a.enc() + b.enc()).len() as int),
{
    lemma_at_split(s, st, a.enc(), b.enc());
    let st1 = A::rec(s, st)->Ok_0;
    assert(at(s, st1, b.enc()) && room(st1, need));
}

/// Four values one after the other read back.
pub proof fn lemma_read_rec4<A: Wire, B: Wire, C: Wire, D: Wire>(
    a: A,
    b: B,
    c: C,
    d: D,
    need: int,
    s: Seq<u8>,
    st: St,
)
    requires
        reads(a, need),
        reads(b, need),
        reads(c, need),
        reads(d, need),
        at(s, st, a.enc() + b.enc() + c.enc() + d.enc()),
        room(st, need),
    ensures
        ok_past(rec4::<A, B, C, D>(s, st), st, (a.enc() + b.enc() + c.enc() + d.enc()).len() as int),
{
    let x = a.enc() + b.enc();
    let y = c.enc() + d.enc();
    assert(a.enc() + b.enc() + c.enc() + d.enc() =~= x + y);
    lemma_at_split(s, st, x, y);
    lemma_read_rec2(a, b, need, s, st);
    let st1 = rec2::<A, B>(s, st)->Ok_0;
    assert(at(s, st1, y) && room(st1, need));
    lemma_read_rec2(c, d, need, s, st1);
}

/// Three values one after the other read back.
pub proof fn lemma_read_rec3<A: Wire, B: Wire, C: Wire>(a: A, b: B, c: C, need: int, s: Seq<u8>, st: St)
    requires
        reads(a, need),
        reads(b, need),
        reads(c, need),
        at(s, st, a.enc() + b.enc() + c.enc()),
        room(st, need),
    ensures
        ok_past(rec3::<A, B, C>(s, st), st, (a.enc() + b.enc() + c.enc()).len() as int),
{
    lemma_at_split(s, st, a.enc() + b.enc(), c.enc());
    lemma_read_rec2(a, b, need, s, st);
    let st1 = rec2::<A, B>(s, st)->Ok_0;
    assert(at(s, st1, c.enc()) && room(st1, need));
}

// ---------------------------------------------------------------------
// No other value has the same encoding.

/// Values with the same encodings, pairwise, encode the same one after the
/// other, whatever their types.
pub proof fn lemma_enc_all_same<A: Wire, B: Wire>(v: Seq<A>, w: Seq<B>)
    requires
        v.len() == w.len(),
        forall|i: int| 0 <= i < v.len() ==> (#[trigger] v[i]).enc() == w[i].enc(),
    ensures
        enc_all(v) == enc_all(w),
    decreases v.len(),
{
    if v.len() > 0 {
        let a = v.drop_last();
        let c = w.drop_last();
        assert forall|i: int| 0 <= i < a.len() implies (#[trigger] a[i]).enc() == c[i].enc() by {
            assert(a[i] == v[i] && c[i] == w[i]);
        }
        lemma_enc_all_same(a, c);
        assert(v.last().enc() == w.last().enc());
    }
}

/// Records of one size take that size times their number.
pub proof fn lemma_enc_all_size<T: Wire>(v: Seq<T>, k: int)
    requires
        forall|i: int| 0 <= i < v.len() ==> (#[trigger] v[i].enc()).len() == k,
    ensures
        enc_all(v).len() == k * v.len(),
    decreases v.len(),
{
    if v.len() > 0 {
        let pre = v.drop_last();
        assert forall|i: int| 0 <= i < pre.len() implies (#[trigger] pre[i].enc()).len() == k by {
            assert(pre[i] == v[i]);
        }
        lemma_enc_all_size(pre, k);
        assert(v[v.len() - 1].enc().len() == k);
        assert(k * v.len() == k * pre.len() + k) by (nonlinear_arith)
            requires v.len() == pre.len() + 1;
    }
}

/// Records of one size with the same encoding, one after the other, are as
/// many, and have the same encodings pairwise.
pub proof fn lemma_records_eq<T: Wire>(v: Seq<T>, w: Seq<T>, k: int)
    requires
        forall|i: int| 0 <= i < v.len() ==> (#[trigger] v[i].enc()).len() == k,
        forall|i: int| 0 <= i < w.len() ==> (#[trigger] w[i].enc()).len() == k,
        k > 0,
        enc_all(v) == enc_all(w),
    ensures
        v.len() == w.len(),
        forall|i: int| 0 <= i < v.len() ==> (#[trigger] v[i]).enc() == w[i].enc(),
    decreases v.len(),
{
    lemma_enc_all_size(v, k);
    lemma_enc_all_size(w, k);
    assert(v.len() == w.len()) by (nonlinear_arith)
        requires
            k * v.len() == k * w.len(),
            k > 0,
    ;
    if v.len() > 0 {
        let a = v.drop_last();
        let c = w.drop_last();
        assert forall|i: int| 0 <= i < a.len() implies (#[trigger] a[i].enc()).len() == k by {
            assert(a[i] == v[i]);
        }
        assert forall|i: int| 0 <= i < c.len() implies (#[trigger] c[i].enc()).len() == k by {
            assert(c[i] == w[i]);
        }
        lemma_enc_all_size(a, k);
        lemma_enc_all_size(c, k);
        assert(v[v.len() - 1].enc().len() == k && w[w.len() - 1].enc().len() == k);
        lemma_cat_cancel(enc_all(a), v.last().enc(), enc_all(c), w.last().enc());
        lemma_records_eq(a, c, k);
        assert forall|i: int| 0 <= i < v.len() implies (#[trigger] v[i]).enc() == w[i].enc() by {
            if i < a.len() {
                assert(a[i] == v[i] && c[i] == w[i]);
            }
        }
    }
}

/// Two sequences with the same encoding have the same count and the same
/// encoded elements.
pub proof fn lemma_seq_prefix_eq<T: Wire>(v: Seq<T>, w: Seq<T>)
    requires
        enc_seq(v) == enc_seq(w),
    ensures
        v.len() as u32 == w.len() as u32,
        enc_all(v) == enc_all(w),
{
    let s = enc_seq(v);
    let st = St { pos: 0, depth: 0, tags: 0 };
    let n = v.len() as u32;
    let m = w.len() as u32;
    lemma_at_whole(s);
    lemma_at_split(s, st, enc_uleb(n), enc_all(v));
    lemma_at_split(s, st, enc_uleb(m), enc_all(w));
    lemma_uleb_roundtrip(n, s, st);
    lemma_uleb_roundtrip(m, s, st);
    lemma_cat_cancel(enc_uleb(n), enc_all(v), enc_uleb(m), enc_all(w));
}

/// Owners compared by value: a party's members by their sequence.
pub open spec fn same_owner(a: Owner, b: Owner) -> bool {
    match (a, b) {
        (Owner::Party(p), Owner::Party(q)) => {
            &&& p.start_version == q.start_version
            &&& p.default_permissions == q.default_permissions
            &&& p.members@ == q.members@
        },
        _ => a == b,
    }
}

pub open spec fn owner_tag(o: Owner) -> u8 {
    match o {
        Owner::AddressOwner(_) => 0,
        Owner::ObjectOwner(_) => 1,
        Owner::Shared { .. } => 2,
        Owner::Immutable => 3,
        Owner::ConsensusAddressOwner { .. } => 4,
        Owner::Party(_) => 5,
    }
}

/// An owner's encoding starts with its variant index.
pub proof fn lemma_owner_first(o: Owner)
    ensures
        o.enc()[0] == owner_tag(o),
{
    lemma_owner_split(o);
}

/// An owner's encoding: its variant index, then its fields.
proof fn lemma_owner_split(o: Owner)
    ensures
        o.enc() == seq![owner_tag(o)] + o.enc().subrange(1, o.enc().len() as int),
        o.enc().len() >= 1,
{
    reveal_with_fuel(enc_uleb, 1);
    assert(o.enc() =~= seq![owner_tag(o)] + o.enc().subrange(1, o.enc().len() as int));
}

proof fn lemma_member_injective(a: PartyMember, b: PartyMember)
    requires
        a.enc() == b.enc(),
    ensures
        a == b,
{
    lemma_cat_cancel(a.address.0@, a.permissions.0@, b.address.0@, b.permissions.0@);
    lemma_array_eq(a.address.0, b.address.0);
    lemma_array_eq(a.permissions.0, b.permissions.0);
}

/// Party members with the same encoding are the same members.
proof fn lemma_members_injective(v: Seq<PartyMember>, w: Seq<PartyMember>)
    requires
        enc_seq(v) == enc_seq(w),
    ensures
        v == w,
{
    lemma_seq_prefix_eq(v, w);
    assert forall|i: int| 0 <= i < v.len() implies (#[trigger] v[i].enc()).len() == 40 by {}
    assert forall|i: int| 0 <= i < w.len() implies (#[trigger] w[i].enc()).len() == 40 by {}
    lemma_records_eq(v, w, 40);
    assert forall|i: int| 0 <= i < v.len() implies v[i] == w[i] by {
        lemma_member_injective(v[i], w[i]);
    }
    assert(v =~= w);
}

/// What `Writer::owner` writes reads back as the same owner: no other
/// owner has its encoding.
pub proof fn lemma_owner_injective(a: Owner, b: Owner)
    requires
        a.enc() == b.enc(),
    ensures
        same_owner(a, b),
{
    lemma_owner_split(a);
    lemma_owner_split(b);
    let x = a.enc().subrange(1, a.enc().len() as int);
    let y = b.enc().subrange(1, b.enc().len() as int);
    lemma_cat_cancel(seq![owner_tag(a)], x, seq![owner_tag(b)], y);
    assert(owner_tag(a) == seq![owner_tag(a)][0]);
    reveal_with_fuel(enc_uleb, 1);
    match (a, b) {
        (Owner::AddressOwner(p), Owner::AddressOwner(q)) => {
            assert(x =~= p.0@ && y =~= q.0@);
            lemma_array_eq(p.0, q.0);
        },
        (Owner::ObjectOwner(p), Owner::ObjectOwner(q)) => {
            assert(x =~= p.0@ && y =~= q.0@);
            lemma_array_eq(p.0, q.0);
        },
        (Owner::Shared { initial_shared_version: p }, Owner::Shared { initial_shared_version: q }) => {
            assert(x =~= enc_u64(p) && y =~= enc_u64(q));
            lemma_u64_injective(p, q);
        },
        (
            Owner::ConsensusAddressOwner { start_version: p, owner: u },
            Owner::ConsensusAddressOwner { start_version: q, owner: z },
        ) => {
            assert(x =~= enc_u64(p) + u.0@ && y =~= enc_u64(q) + z.0@);
            lemma_cat_cancel(enc_u64(p), u.0@, enc_u64(q), z.0@);
            lemma_u64_injective(p, q);
            lemma_array_eq(u.0, z.0);
        },
        (Owner::Party(p), Owner::Party(q)) => {
            assert(x =~= enc_u64(p.start_version) + (enc_u64(p.default_permissions) + enc_seq(p.members@)));
            assert(y =~= enc_u64(q.start_version) + (enc_u64(q.default_permissions) + enc_seq(q.members@)));
            lemma_cat_cancel(
                enc_u64(p.start_version),
                enc_u64(p.default_permissions) + enc_seq(p.members@),
                enc_u64(q.start_version),
                enc_u64(q.default_permissions) + enc_seq(q.members@),
            );
            lemma_cat_cancel(
                enc_u64(p.default_permissions),
                enc_seq(p.members@),
                enc_u64(q.default_permissions),
                enc_seq(q.members@),
            );
            lemma_u64_injective(p.start_version, q.start_version);
            lemma_u64_injective(p.default_permissions, q.default_permissions);
            lemma_members_injective(p.members@, q.members@);
        },
        _ => {},
    }
}

} // verus!
