//! A cursor over BCS bytes. Accepts exactly the encoding-level rules of BCS:
//! minimal uleb128, bounded lengths and depth, strict tags.
//!
//! Every reading method is specified twice over: by a recognizer (a spec
//! function from the bytes and the cursor state to the next state or the
//! error), and by the encoding of the value it returns, which equals the
//! bytes it consumed.
use vstd::prelude::*;
use crate::error::ParseError;
use crate::wire::{Wire, enc_u16, enc_u32, enc_u64, enc_bool, enc_option_u64, enc_uleb, enc_bytes, enc_string, encode_utf8, valid_utf8, StringSliceAdditionalSpecFns};

verus! {

pub const MAX_SEQUENCE_LENGTH: usize = 2147483647;

pub const MAX_CONTAINER_DEPTH: u32 = 500;

/// The state of a cursor: where it is, how deep in containers, and how many
/// struct tags it has read.
pub struct St {
    pub pos: int,
    pub depth: int,
    pub tags: int,
}

/// What a recognizer reaches: the next state, or the first error.
pub type Rec = Result<St, ParseError>;

/// A recognizer step that also yields a plain value.
pub type PR<T> = Result<(T, St), ParseError>;

pub open spec fn adv(st: St, n: int) -> St {
    St { pos: st.pos + n, ..st }
}

/// Sequential composition of recognizers.
pub open spec fn then(r: Rec, f: spec_fn(St) -> Rec) -> Rec {
    match r {
        Ok(st) => f(st),
        Err(e) => Err(e),
    }
}

/// Composition after a step that yields a value.
pub open spec fn then_v<T>(r: PR<T>, f: spec_fn(T, St) -> Rec) -> Rec {
    match r {
        Ok((v, st)) => f(v, st),
        Err(e) => Err(e),
    }
}

/// The bytes between two states.
pub open spec fn span(d: Seq<u8>, a: St, b: St) -> Seq<u8> {
    d.subrange(a.pos, b.pos)
}

/// A composite parser's result agrees with its recognizer: success
/// exactly when the recognizer succeeds, ending where it ends at the same
/// depth, and otherwise the recognizer's error.
pub open spec fn done<T>(st0: St, rec: Rec, res: Result<T, ParseError>, fin: St) -> bool {
    match rec {
        Ok(st) => res is Ok && fin == st && st.depth == st0.depth && st0.pos <= st.pos,
        Err(e) => res == Err::<T, ParseError>(e),
    }
}

/// A primitive's result agrees with its value-yielding recognizer.
pub open spec fn got<T>(sp: PR<T>, res: Result<T, ParseError>, fin: St) -> bool {
    match sp {
        Ok((v, st)) => res == Ok::<T, ParseError>(v) && fin == st,
        Err(e) => res == Err::<T, ParseError>(e),
    }
}

// ---------------------------------------------------------------------
// Recognizers of the primitives.

pub open spec fn sp_bytes(s: Seq<u8>, st: St, n: int) -> Rec {
    if n <= s.len() - st.pos {
        Ok(adv(st, n))
    } else {
        Err(ParseError::UnexpectedEof)
    }
}

pub open spec fn sp_u8(s: Seq<u8>, st: St) -> PR<u8> {
    if st.pos < s.len() {
        Ok((s[st.pos], adv(st, 1)))
    } else {
        Err(ParseError::UnexpectedEof)
    }
}

/// A byte that must be 0 or 1, with the error for any other value.
pub open spec fn sp_flag(s: Seq<u8>, st: St, err: ParseError) -> PR<bool> {
    match sp_u8(s, st) {
        Ok((b, st1)) => if b == 0 {
            Ok((false, st1))
        } else if b == 1 {
            Ok((true, st1))
        } else {
            Err(err)
        },
        Err(e) => Err(e),
    }
}

pub open spec fn sp_bool(s: Seq<u8>, st: St) -> PR<bool> {
    sp_flag(s, st, ParseError::InvalidBool)
}

pub open spec fn sp_option(s: Seq<u8>, st: St) -> PR<bool> {
    sp_flag(s, st, ParseError::InvalidOptionTag)
}

pub open spec fn sp_option_u64(s: Seq<u8>, st: St) -> Rec {
    then_v(sp_option(s, st), |some: bool, st1: St| if some { sp_bytes(s, st1, 8) } else { Ok(st1) })
}

/// The end of a uleb128 whose last byte is `b` at `p`, with value `v`.
pub open spec fn uleb_end(b: u8, v: int, p: int, st: St) -> PR<u32> {
    if b == 0 {
        Err(ParseError::NonCanonicalUleb128)
    } else if v > u32::MAX {
        Err(ParseError::Uleb128Overflow)
    } else {
        Ok((v as u32, St { pos: p + 1, ..st }))
    }
}

/// At most five bytes, the last without its high bit, the last not zero
/// unless it is the only one, and the value within `u32`.
pub open spec fn sp_uleb(s: Seq<u8>, st: St) -> PR<u32> {
    let p = st.pos;
    if p < 0 || p >= s.len() {
        Err(ParseError::UnexpectedEof)
    } else if s[p] < 128 {
        Ok((s[p] as u32, adv(st, 1)))
    } else {
        let v0 = s[p] - 128;
        if p + 1 >= s.len() {
            Err(ParseError::UnexpectedEof)
        } else {
            let b1 = s[p + 1];
            let v1 = v0 + (b1 % 128) * 128;
            if b1 < 128 {
                uleb_end(b1, v1, p + 1, st)
            } else if p + 2 >= s.len() {
                Err(ParseError::UnexpectedEof)
            } else {
                let b2 = s[p + 2];
                let v2 = v1 + (b2 % 128) * 16384;
                if b2 < 128 {
                    uleb_end(b2, v2, p + 2, st)
                } else if p + 3 >= s.len() {
                    Err(ParseError::UnexpectedEof)
                } else {
                    let b3 = s[p + 3];
                    let v3 = v2 + (b3 % 128) * 2097152;
                    if b3 < 128 {
                        uleb_end(b3, v3, p + 3, st)
                    } else if p + 4 >= s.len() {
                        Err(ParseError::UnexpectedEof)
                    } else {
                        let b4 = s[p + 4];
                        let v4 = v3 + (b4 % 128) * 268435456;
                        if b4 < 128 {
                            uleb_end(b4, v4, p + 4, st)
                        } else {
                            Err(ParseError::Uleb128Overflow)
                        }
                    }
                }
            }
        }
    }
}

pub open spec fn sp_length(s: Seq<u8>, st: St) -> PR<u32> {
    match sp_uleb(s, st) {
        Ok((n, st1)) => if n > MAX_SEQUENCE_LENGTH {
            Err(ParseError::SequenceTooLong)
        } else {
            Ok((n, st1))
        },
        Err(e) => Err(e),
    }
}

/// A length that the rest of the input can hold at `min` bytes an element.
pub open spec fn sp_seq_len(s: Seq<u8>, st: St, min: int) -> PR<u32> {
    match sp_length(s, st) {
        Ok((n, st1)) => if n > (s.len() - st1.pos) / min {
            Err(ParseError::UnexpectedEof)
        } else {
            Ok((n, st1))
        },
        Err(e) => Err(e),
    }
}

pub open spec fn sp_byte_vec(s: Seq<u8>, st: St) -> Rec {
    then_v(sp_length(s, st), |n: u32, st1: St| sp_bytes(s, st1, n as int))
}

pub open spec fn sp_str(s: Seq<u8>, st: St) -> Rec {
    then_v(
        sp_length(s, st),
        |n: u32, st1: St|
            match sp_bytes(s, st1, n as int) {
                Ok(st2) => if valid_utf8(span(s, st1, st2)) {
                    Ok(st2)
                } else {
                    Err(ParseError::InvalidUtf8)
                },
                Err(e) => Err(e),
            },
    )
}

pub open spec fn sp_enter(st: St) -> Rec {
    if st.depth >= MAX_CONTAINER_DEPTH {
        Err(ParseError::ContainerDepthExceeded)
    } else {
        Ok(St { depth: st.depth + 1, ..st })
    }
}

pub open spec fn leave(st: St) -> St {
    St { depth: st.depth - 1, ..st }
}

/// A container counted toward the depth limit around `inner`.
pub open spec fn nested(st: St, inner: spec_fn(St) -> Rec) -> Rec {
    then(sp_enter(st), |st1: St| then(inner(st1), |st2: St| Ok(leave(st2))))
}

/// An optional value of `T`: a tag, then the value when present.
pub open spec fn sp_opt_of<T: Wire>(s: Seq<u8>, st: St) -> Rec {
    match sp_option(s, st) {
        Ok((some, st1)) => if some {
            T::rec(s, st1)
        } else {
            Ok(st1)
        },
        Err(e) => Err(e),
    }
}

/// Room for `n` records of `size` bytes at `st`.
pub open spec fn sp_records_n(n: usize, size: usize, s: Seq<u8>, st: St) -> Rec {
    if n * size > s.len() - st.pos {
        Err(ParseError::UnexpectedEof)
    } else {
        Ok(st)
    }
}

// ---------------------------------------------------------------------
// Facts about the recognizers.

pub proof fn lemma_sub_cat(s: Seq<u8>, a: int, b: int, c: int)
    requires
        0 <= a <= b <= c <= s.len(),
    ensures
        s.subrange(a, c) == s.subrange(a, b) + s.subrange(b, c),
{
    assert(s.subrange(a, c) =~= s.subrange(a, b) + s.subrange(b, c));
}

/// Adjacent spans join.
pub broadcast proof fn lemma_span_join(s: Seq<u8>, a: St, b: St, c: St)
    requires
        0 <= a.pos <= b.pos <= c.pos <= s.len(),
    ensures
        #[trigger] (span(s, a, b) + span(s, b, c)) == span(s, a, c),
{
    lemma_sub_cat(s, a.pos, b.pos, c.pos);
}

/// The encoding read by `sp_uleb` is the canonical one.
#[verifier::spinoff_prover]
#[verifier::rlimit(40)]
pub proof fn lemma_uleb_canonical(s: Seq<u8>, st: St)
    requires
        sp_uleb(s, st) is Ok,
    ensures
        ({
            let (v, st1) = sp_uleb(s, st)->Ok_0;
            &&& st1.pos > st.pos
            &&& st1.depth == st.depth
            &&& st1.tags == st.tags
            &&& st1.pos <= s.len()
            &&& span(s, st, st1) == enc_uleb(v)
        }),
{
    let p = st.pos;
    let (v, st1) = sp_uleb(s, st)->Ok_0;
    reveal_with_fuel(enc_uleb, 6);
    if s[p] < 128 {
        assert(span(s, st, st1) =~= seq![s[p]]);
    } else {
        let b0 = s[p];
        let b1 = s[p + 1];
        let d0 = b0 - 128;
        if b1 < 128 {
            assert(span(s, st, st1) =~= seq![b0, b1]);
            assert(v == d0 + b1 * 128);
            assert(v % 128 == d0 && v / 128 == b1) by (nonlinear_arith)
                requires v == d0 + b1 * 128, 0 <= d0 < 128, 0 <= b1 < 128;
        } else {
            let b2 = s[p + 2];
            let d1 = b1 - 128;
            if b2 < 128 {
                assert(span(s, st, st1) =~= seq![b0, b1, b2]);
                let w = d1 + b2 * 128;
                assert(v == d0 + w * 128);
                assert(v % 128 == d0 && v / 128 == w) by (nonlinear_arith)
                    requires v == d0 + w * 128, 0 <= d0 < 128, 0 <= w;
                assert(w % 128 == d1 && w / 128 == b2) by (nonlinear_arith)
                    requires w == d1 + b2 * 128, 0 <= d1 < 128, 0 <= b2 < 128;
            } else {
                let b3 = s[p + 3];
                let d2 = b2 - 128;
                if b3 < 128 {
                    assert(span(s, st, st1) =~= seq![b0, b1, b2, b3]);
                    let x = d2 + b3 * 128;
                    let w = d1 + x * 128;
                    assert(v == d0 + w * 128);
                    assert(v % 128 == d0 && v / 128 == w) by (nonlinear_arith)
                        requires v == d0 + w * 128, 0 <= d0 < 128, 0 <= w;
                    assert(w % 128 == d1 && w / 128 == x) by (nonlinear_arith)
                        requires w == d1 + x * 128, 0 <= d1 < 128, 0 <= x;
                    assert(x % 128 == d2 && x / 128 == b3) by (nonlinear_arith)
                        requires x == d2 + b3 * 128, 0 <= d2 < 128, 0 <= b3 < 128;
                } else {
                    let b4 = s[p + 4];
                    let d3 = b3 - 128;
                    assert(span(s, st, st1) =~= seq![b0, b1, b2, b3, b4]);
                    let y = d3 + b4 * 128;
                    let x = d2 + y * 128;
                    let w = d1 + x * 128;
                    assert(v == d0 + w * 128);
                    assert(v % 128 == d0 && v / 128 == w) by (nonlinear_arith)
                        requires v == d0 + w * 128, 0 <= d0 < 128, 0 <= w;
                    assert(w % 128 == d1 && w / 128 == x) by (nonlinear_arith)
                        requires w == d1 + x * 128, 0 <= d1 < 128, 0 <= x;
                    assert(x % 128 == d2 && x / 128 == y) by (nonlinear_arith)
                        requires x == d2 + y * 128, 0 <= d2 < 128, 0 <= y;
                    assert(y % 128 == d3 && y / 128 == b4) by (nonlinear_arith)
                        requires y == d3 + b4 * 128, 0 <= d3 < 128, 0 <= b4 < 128;
                }
            }
        }
    }
}

/// Reading a uleb128 gives back the value it encodes: at a position where
/// `enc_uleb(v)` stands, `sp_uleb` yields `v` and moves past the encoding.
/// With `lemma_uleb_canonical`, each `u32` has exactly one accepted
/// encoding.
#[verifier::spinoff_prover]
#[verifier::rlimit(60)]
pub proof fn lemma_uleb_roundtrip(v: u32, s: Seq<u8>, st: St)
    requires
        0 <= st.pos,
        st.pos + enc_uleb(v).len() <= s.len(),
        s.subrange(st.pos, st.pos + enc_uleb(v).len()) == enc_uleb(v),
    ensures
        sp_uleb(s, st) == Ok::<(u32, St), ParseError>((v, adv(st, enc_uleb(v).len() as int))),
        1 <= enc_uleb(v).len() <= 5,
{
    let p = st.pos;
    let e = enc_uleb(v);
    reveal_with_fuel(enc_uleb, 6);
    assert(forall|i: int| 0 <= i < e.len() ==> s[p + i] == #[trigger] e[i]) by {
        assert forall|i: int| 0 <= i < e.len() implies s[p + i] == #[trigger] e[i] by {
            assert(s.subrange(p, p + e.len())[i] == s[p + i]);
        }
    }
    let v1 = v / 128;
    let v2 = v1 / 128;
    let v3 = v2 / 128;
    let v4 = v3 / 128;
    assert(v == v % 128 + v1 * 128);
    assert(v1 == v1 % 128 + v2 * 128);
    assert(v2 == v2 % 128 + v3 * 128);
    assert(v3 == v3 % 128 + v4 * 128);
    assert(v4 < 16) by {
        assert(v < 0x1_0000_0000);
    }
    if v < 128 {
        assert(e =~= seq![v as u8]);
        assert(s[p + 0] == e[0]);
    } else {
        let t1 = enc_uleb(v1 as u32);
        assert(e == seq![(v % 128 + 128) as u8] + t1);
        assert(s[p + 0] == e[0] && e[0] == v % 128 + 128);
        if v1 < 128 {
            assert(t1 =~= seq![v1 as u8]);
            assert(s[p + 1] == e[1]);
            assert(e[1] == v1);
        } else {
            let t2 = enc_uleb(v2 as u32);
            assert(t1 == seq![(v1 % 128 + 128) as u8] + t2);
            assert(s[p + 1] == e[1] && e[1] == v1 % 128 + 128);
            if v2 < 128 {
                assert(t2 =~= seq![v2 as u8]);
                assert(s[p + 2] == e[2] && e[2] == v2);
            } else {
                let t3 = enc_uleb(v3 as u32);
                assert(t2 == seq![(v2 % 128 + 128) as u8] + t3);
                assert(s[p + 2] == e[2] && e[2] == v2 % 128 + 128);
                if v3 < 128 {
                    assert(t3 =~= seq![v3 as u8]);
                    assert(s[p + 3] == e[3] && e[3] == v3);
                } else {
                    let t4 = enc_uleb(v4 as u32);
                    assert(t3 == seq![(v3 % 128 + 128) as u8] + t4);
                    assert(t4 =~= seq![v4 as u8]);
                    assert(s[p + 3] == e[3] && e[3] == v3 % 128 + 128);
                    assert(s[p + 4] == e[4] && e[4] == v4);
                }
            }
        }
    }
}

// ---------------------------------------------------------------------

pub struct Reader<'a> {
    buf: &'a [u8],
    pos: usize,
    depth: u32,
    struct_tags: usize,
}

impl<'a> Reader<'a> {
    #[verifier::type_invariant]
    spec fn inv(self) -> bool {
        &&& self.pos <= self.buf@.len()
        &&& self.buf@.len() <= usize::MAX
        &&& self.depth <= MAX_CONTAINER_DEPTH
        &&& self.struct_tags <= self.pos
    }

    /// The bytes being read.
    pub closed spec fn data(&self) -> Seq<u8> {
        self.buf@
    }

    /// The cursor state.
    pub closed spec fn st(&self) -> St {
        St { pos: self.pos as int, depth: self.depth as int, tags: self.struct_tags as int }
    }

    /// Cursor positions and counts are never negative.
    pub broadcast proof fn lemma_st_nonneg(r: &Reader<'a>)
        ensures
            #[trigger] r.st().pos >= 0 && r.st().depth >= 0 && r.st().tags >= 0,
    {
    }

    /// What every reader state satisfies.
    pub open spec fn wf(&self) -> bool {
        &&& 0 <= self.st().pos <= self.data().len() <= usize::MAX
        &&& 0 <= self.st().depth <= MAX_CONTAINER_DEPTH
        &&& 0 <= self.st().tags <= self.st().pos
    }

    /// Brings the reader's invariant into the proof context.
    pub fn check(&self)
        ensures
            self.wf(),
    {
        proof {
            use_type_invariant(self);
        }
    }

    pub fn new(buf: &'a [u8]) -> (r: Self)
        ensures
            r.data() == buf@,
            r.st() == (St { pos: 0, depth: 0, tags: 0 }),
    {
        let _len = buf.len();
        Reader { buf, pos: 0, depth: 0, struct_tags: 0 }
    }

    pub fn pos(&self) -> (p: usize)
        ensures
            p == self.st().pos,
    {
        self.pos
    }

    pub fn remaining(&self) -> (n: usize)
        ensures
            n == self.data().len() - self.st().pos,
    {
        proof {
            use_type_invariant(self);
        }
        self.buf.len() - self.pos
    }

    /// The bytes consumed since `start`, a value earlier returned by `pos`.
    pub fn span(&self, start: usize) -> (out: &'a [u8])
        requires
            start <= self.st().pos,
        ensures
            out@ == self.data().subrange(start as int, self.st().pos),
    {
        proof {
            use_type_invariant(self);
        }
        vstd::slice::slice_subrange(self.buf, start, self.pos)
    }

    pub fn finish(&self) -> (res: Result<(), ParseError>)
        ensures
            res is Ok <==> self.st().pos == self.data().len(),
            res is Err ==> res == Err::<(), ParseError>(ParseError::TrailingBytes),
    {
        if self.pos == self.buf.len() {
            Ok(())
        } else {
            Err(ParseError::TrailingBytes)
        }
    }

    /// Counts a struct, newtype struct, tuple struct or enum toward the
    /// depth limit; tuples, sequences, maps and options are free.
    pub fn enter(&mut self) -> (res: Result<(), ParseError>)
        ensures
            final(self).data() == old(self).data(),
            match sp_enter(old(self).st()) {
                Ok(st) => res is Ok && final(self).st() == st,
                Err(e) => res == Err::<(), ParseError>(e),
            },
    {
        proof {
            use_type_invariant(&*self);
        }
        if self.depth >= MAX_CONTAINER_DEPTH {
            return Err(ParseError::ContainerDepthExceeded);
        }
        self.depth = self.depth + 1;
        Ok(())
    }

    pub fn leave(&mut self)
        requires
            old(self).st().depth > 0,
        ensures
            final(self).data() == old(self).data(),
            final(self).st() == leave(old(self).st()),
    {
        proof {
            use_type_invariant(&*self);
        }
        self.depth = self.depth - 1;
    }

    /// How many struct tags have been read.
    pub fn struct_tags(&self) -> (n: usize)
        ensures
            n == self.st().tags,
    {
        self.struct_tags
    }

    pub(crate) fn count_struct_tag(&mut self)
        requires
            old(self).st().tags < old(self).st().pos,
        ensures
            final(self).data() == old(self).data(),
            final(self).st() == (St { tags: old(self).st().tags + 1, ..old(self).st() }),
    {
        proof {
            use_type_invariant(&*self);
        }
        self.struct_tags = self.struct_tags + 1;
    }

    pub fn bytes(&mut self, n: usize) -> (res: Result<&'a [u8], ParseError>)
        ensures
            final(self).data() == old(self).data(),
            done(old(self).st(), sp_bytes(old(self).data(), old(self).st(), n as int), res, final(self).st()),
            res matches Ok(b) ==> b@ == span(old(self).data(), old(self).st(), final(self).st()),
            res is Err ==> *final(self) == *old(self),
    {
        proof {
            use_type_invariant(&*self);
        }
        if n > self.buf.len() - self.pos {
            return Err(ParseError::UnexpectedEof);
        }
        let out = vstd::slice::slice_subrange(self.buf, self.pos, self.pos + n);
        self.pos = self.pos + n;
        Ok(out)
    }

    /// `N` bytes as an array.
    pub fn array<const N: usize>(&mut self) -> (res: Result<[u8; N], ParseError>)
        ensures
            final(self).data() == old(self).data(),
            done(old(self).st(), sp_bytes(old(self).data(), old(self).st(), N as int), res, final(self).st()),
            res matches Ok(b) ==> b@ == span(old(self).data(), old(self).st(), final(self).st()),
            res is Err ==> *final(self) == *old(self),
    {
        let b = self.bytes(N)?;
        let mut out = [0u8; N];
        let mut i: usize = 0;
        while i < N
            invariant
                b@.len() == N,
                0 <= i <= N,
                out@.len() == N,
                forall|j: int| 0 <= j < i ==> out@[j] == b@[j],
            decreases N - i,
        {
            out[i] = b[i];
            i = i + 1;
        }
        assert(out@ =~= b@);
        Ok(out)
    }

    pub fn u8(&mut self) -> (res: Result<u8, ParseError>)
        ensures
            final(self).data() == old(self).data(),
            got(sp_u8(old(self).data(), old(self).st()), res, final(self).st()),
            res matches Ok(v) ==> seq![v] == span(old(self).data(), old(self).st(), final(self).st()),
            res is Err ==> *final(self) == *old(self),
    {
        proof {
            use_type_invariant(&*self);
        }
        if self.pos < self.buf.len() {
            let b = self.buf[self.pos];
            self.pos = self.pos + 1;
            proof {
                assert(span(old(self).data(), old(self).st(), self.st()) =~= seq![b]);
            }
            Ok(b)
        } else {
            Err(ParseError::UnexpectedEof)
        }
    }

    pub fn u16(&mut self) -> (res: Result<u16, ParseError>)
        ensures
            final(self).data() == old(self).data(),
            done(old(self).st(), sp_bytes(old(self).data(), old(self).st(), 2), res, final(self).st()),
            res matches Ok(v) ==> enc_u16(v) == span(old(self).data(), old(self).st(), final(self).st()),
            res is Err ==> *final(self) == *old(self),
    {
        let b = self.bytes(2)?;
        let b0 = b[0];
        let b1 = b[1];
        let v: u16 = (b0 as u16) | ((b1 as u16) << 8u16);
        assert(v as u8 == b0 && (v >> 8u16) as u8 == b1) by (bit_vector)
            requires
                v == (b0 as u16) | ((b1 as u16) << 8u16),
        ;
        assert(enc_u16(v) =~= b@);
        Ok(v)
    }

    pub fn u32(&mut self) -> (res: Result<u32, ParseError>)
        ensures
            final(self).data() == old(self).data(),
            done(old(self).st(), sp_bytes(old(self).data(), old(self).st(), 4), res, final(self).st()),
            res matches Ok(v) ==> enc_u32(v) == span(old(self).data(), old(self).st(), final(self).st()),
            res is Err ==> *final(self) == *old(self),
    {
        let b = self.bytes(4)?;
        let b0 = b[0];
        let b1 = b[1];
        let b2 = b[2];
        let b3 = b[3];
        let v: u32 = (b0 as u32) | ((b1 as u32) << 8u32) | ((b2 as u32) << 16u32) | ((b3 as u32)
            << 24u32);
        assert(v as u8 == b0 && (v >> 8u32) as u8 == b1 && (v >> 16u32) as u8 == b2 && (v
            >> 24u32) as u8 == b3) by (bit_vector)
            requires
                v == (b0 as u32) | ((b1 as u32) << 8u32) | ((b2 as u32) << 16u32) | ((b3 as u32)
                    << 24u32),
        ;
        assert(enc_u32(v) =~= b@);
        Ok(v)
    }

    pub fn u64(&mut self) -> (res: Result<u64, ParseError>)
        ensures
            final(self).data() == old(self).data(),
            done(old(self).st(), sp_bytes(old(self).data(), old(self).st(), 8), res, final(self).st()),
            res matches Ok(v) ==> enc_u64(v) == span(old(self).data(), old(self).st(), final(self).st()),
            res is Err ==> *final(self) == *old(self),
    {
        let b = self.bytes(8)?;
        let b0 = b[0];
        let b1 = b[1];
        let b2 = b[2];
        let b3 = b[3];
        let b4 = b[4];
        let b5 = b[5];
        let b6 = b[6];
        let b7 = b[7];
        let v: u64 = (b0 as u64) | ((b1 as u64) << 8u64) | ((b2 as u64) << 16u64) | ((b3 as u64)
            << 24u64) | ((b4 as u64) << 32u64) | ((b5 as u64) << 40u64) | ((b6 as u64) << 48u64)
            | ((b7 as u64) << 56u64);
        assert(v as u8 == b0 && (v >> 8u64) as u8 == b1 && (v >> 16u64) as u8 == b2 && (v
            >> 24u64) as u8 == b3 && (v >> 32u64) as u8 == b4 && (v >> 40u64) as u8 == b5 && (v
            >> 48u64) as u8 == b6 && (v >> 56u64) as u8 == b7) by (bit_vector)
            requires
                v == (b0 as u64) | ((b1 as u64) << 8u64) | ((b2 as u64) << 16u64) | ((b3 as u64)
                    << 24u64) | ((b4 as u64) << 32u64) | ((b5 as u64) << 40u64) | ((b6 as u64)
                    << 48u64) | ((b7 as u64) << 56u64),
        ;
        assert(enc_u64(v) =~= b@);
        Ok(v)
    }

    pub fn bool(&mut self) -> (res: Result<bool, ParseError>)
        ensures
            final(self).data() == old(self).data(),
            got(sp_bool(old(self).data(), old(self).st()), res, final(self).st()),
            res matches Ok(v) ==> enc_bool(v) == span(old(self).data(), old(self).st(), final(self).st()),
    {
        match self.u8()? {
            0 => Ok(false),
            1 => Ok(true),
            _ => Err(ParseError::InvalidBool),
        }
    }

    /// Whether an `Option` is `Some`.
    pub fn option(&mut self) -> (res: Result<bool, ParseError>)
        ensures
            final(self).data() == old(self).data(),
            got(sp_option(old(self).data(), old(self).st()), res, final(self).st()),
            res matches Ok(v) ==> enc_bool(v) == span(old(self).data(), old(self).st(), final(self).st()),
    {
        match self.u8()? {
            0 => Ok(false),
            1 => Ok(true),
            _ => Err(ParseError::InvalidOptionTag),
        }
    }

    pub fn option_u64(&mut self) -> (res: Result<Option<u64>, ParseError>)
        ensures
            final(self).data() == old(self).data(),
            done(old(self).st(), sp_option_u64(old(self).data(), old(self).st()), res, final(self).st()),
            res matches Ok(v) ==> enc_option_u64(v) == span(old(self).data(), old(self).st(), final(self).st()),
    {
        let ghost s = self.data();
        let ghost st0 = self.st();
        if self.option()? {
            let ghost st1 = self.st();
            let v = self.u64()?;
            proof {
                lemma_sub_cat(s, st0.pos, st1.pos, self.st().pos);
            }
            Ok(Some(v))
        } else {
            Ok(None)
        }
    }

    pub fn uleb128(&mut self) -> (res: Result<u32, ParseError>)
        ensures
            final(self).data() == old(self).data(),
            got(sp_uleb(old(self).data(), old(self).st()), res, final(self).st()),
            res matches Ok(v) ==> enc_uleb(v) == span(old(self).data(), old(self).st(), final(self).st()),
    {
        proof {
            use_type_invariant(&*self);
        }
        let ghost s = self.data();
        let ghost st0 = self.st();
        let first = self.u8()?;
        if first < 0x80 {
            proof {
                reveal_with_fuel(enc_uleb, 2);
            }
            return Ok(first as u32);
        }
        let res = self.uleb128_multibyte(first);
        proof {
            if res is Ok {
                lemma_uleb_canonical(s, st0);
            }
        }
        res
    }

    fn uleb128_multibyte(&mut self, first: u8) -> (res: Result<u32, ParseError>)
        requires
            first >= 128,
            old(self).st().pos >= 1,
            old(self).data()[old(self).st().pos - 1] == first,
        ensures
            final(self).data() == old(self).data(),
            got(sp_uleb(old(self).data(), adv(old(self).st(), -1)), res, final(self).st()),
    {
        let v0: u64 = (first - 128) as u64;
        let b1 = self.u8()?;
        let v1: u64 = v0 + ((b1 % 128) as u64) * 128;
        if b1 < 128 {
            if b1 == 0 {
                return Err(ParseError::NonCanonicalUleb128);
            }
            if v1 > 0xffff_ffff {
                return Err(ParseError::Uleb128Overflow);
            }
            return Ok(v1 as u32);
        }
        let b2 = self.u8()?;
        let v2: u64 = v1 + ((b2 % 128) as u64) * 16384;
        if b2 < 128 {
            if b2 == 0 {
                return Err(ParseError::NonCanonicalUleb128);
            }
            if v2 > 0xffff_ffff {
                return Err(ParseError::Uleb128Overflow);
            }
            return Ok(v2 as u32);
        }
        let b3 = self.u8()?;
        let v3: u64 = v2 + ((b3 % 128) as u64) * 2097152;
        if b3 < 128 {
            if b3 == 0 {
                return Err(ParseError::NonCanonicalUleb128);
            }
            if v3 > 0xffff_ffff {
                return Err(ParseError::Uleb128Overflow);
            }
            return Ok(v3 as u32);
        }
        let b4 = self.u8()?;
        let v4: u64 = v3 + ((b4 % 128) as u64) * 268435456;
        if b4 < 128 {
            if b4 == 0 {
                return Err(ParseError::NonCanonicalUleb128);
            }
            if v4 > 0xffff_ffff {
                return Err(ParseError::Uleb128Overflow);
            }
            return Ok(v4 as u32);
        }
        Err(ParseError::Uleb128Overflow)
    }

    /// An enum variant index.
    pub fn variant(&mut self) -> (res: Result<u32, ParseError>)
        ensures
            final(self).data() == old(self).data(),
            got(sp_uleb(old(self).data(), old(self).st()), res, final(self).st()),
            res matches Ok(v) ==> enc_uleb(v) == span(old(self).data(), old(self).st(), final(self).st()),
    {
        self.uleb128()
    }

    /// A sequence or map length.
    pub fn length(&mut self) -> (res: Result<usize, ParseError>)
        ensures
            final(self).data() == old(self).data(),
            match sp_length(old(self).data(), old(self).st()) {
                Ok((n, st)) => res == Ok::<usize, ParseError>(n as usize) && final(self).st() == st,
                Err(e) => res == Err::<usize, ParseError>(e),
            },
            res matches Ok(n) ==> n <= MAX_SEQUENCE_LENGTH && enc_uleb(n as u32) == span(
                old(self).data(),
                old(self).st(),
                final(self).st(),
            ),
    {
        let len = self.uleb128()? as usize;
        if len > MAX_SEQUENCE_LENGTH {
            return Err(ParseError::SequenceTooLong);
        }
        Ok(len)
    }

    /// A sequence length, for elements that occupy at least `min_wire_size`
    /// bytes each. Rejecting a length the input cannot hold bounds the work
    /// and the memory a parse can be made to spend.
    pub fn seq_len(&mut self, min_wire_size: usize) -> (res: Result<usize, ParseError>)
        requires
            min_wire_size > 0,
        ensures
            final(self).data() == old(self).data(),
            match sp_seq_len(old(self).data(), old(self).st(), min_wire_size as int) {
                Ok((n, st)) => res == Ok::<usize, ParseError>(n as usize) && final(self).st() == st,
                Err(e) => res == Err::<usize, ParseError>(e),
            },
            res matches Ok(n) ==> n <= MAX_SEQUENCE_LENGTH && enc_uleb(n as u32) == span(
                old(self).data(),
                old(self).st(),
                final(self).st(),
            ),
    {
        let len = self.length()?;
        if len > self.remaining() / min_wire_size {
            return Err(ParseError::UnexpectedEof);
        }
        Ok(len)
    }

    /// A length-prefixed byte string.
    pub fn byte_vec(&mut self) -> (res: Result<&'a [u8], ParseError>)
        ensures
            final(self).data() == old(self).data(),
            done(old(self).st(), sp_byte_vec(old(self).data(), old(self).st()), res, final(self).st()),
            res matches Ok(b) ==> enc_bytes(b@) == span(old(self).data(), old(self).st(), final(self).st()),
            res matches Ok(b) ==> b@.len() <= MAX_SEQUENCE_LENGTH,
    {
        let ghost s = self.data();
        let ghost st0 = self.st();
        let len = self.length()?;
        let ghost st1 = self.st();
        let b = self.bytes(len)?;
        proof {
            lemma_sub_cat(s, st0.pos, st1.pos, self.st().pos);
        }
        Ok(b)
    }

    /// A length-prefixed byte string that must be UTF-8.
    pub fn str(&mut self) -> (res: Result<&'a str, ParseError>)
        ensures
            final(self).data() == old(self).data(),
            done(old(self).st(), sp_str(old(self).data(), old(self).st()), res, final(self).st()),
            res matches Ok(t) ==> enc_bytes(t.spec_bytes()) == span(
                old(self).data(),
                old(self).st(),
                final(self).st(),
            ),
            res matches Ok(t) ==> t.spec_bytes().len() <= MAX_SEQUENCE_LENGTH,
    {
        let ghost s = self.data();
        let ghost st0 = self.st();
        let len = self.length()?;
        let ghost st1 = self.st();
        let b = self.bytes(len)?;
        proof {
            lemma_sub_cat(s, st0.pos, st1.pos, self.st().pos);
        }
        match crate::wire::str_from_utf8(b) {
            Some(t) => Ok(t),
            None => Err(ParseError::InvalidUtf8),
        }
    }

    /// A length-prefixed UTF-8 string, owned.
    pub fn string(&mut self) -> (res: Result<String, ParseError>)
        ensures
            final(self).data() == old(self).data(),
            done(old(self).st(), sp_str(old(self).data(), old(self).st()), res, final(self).st()),
            res matches Ok(t) ==> enc_string(t) == span(old(self).data(), old(self).st(), final(self).st()),
            res matches Ok(t) ==> encode_utf8(t@).len() <= MAX_SEQUENCE_LENGTH,
    {
        let t = self.str()?;
        Ok(t.to_owned())
    }

    /// `n` consecutive `size`-byte records of `T`, checked in order once all
    /// their bytes are known to be there.
    pub fn records<T: Wire>(&mut self, n: usize, size: usize) -> (res: Result<Vec<T>, ParseError>)
        ensures
            final(self).data() == old(self).data(),
            match sp_records_n(n, size, old(self).data(), old(self).st()) {
                Ok(st) => done(st, crate::wire::sp_rep::<T>(old(self).data(), st, n as nat), res, final(self).st())
                    && st.depth == old(self).st().depth,
                Err(e) => res == Err::<Vec<T>, ParseError>(e),
            },
            res matches Ok(v) ==> crate::wire::enc_all(v@) == span(old(self).data(), old(self).st(), final(self).st()),
    {
        self.check();
        match n.checked_mul(size) {
            Some(total) => {
                if total > self.remaining() {
                    return Err(ParseError::UnexpectedEof);
                }
            },
            None => {
                return Err(ParseError::UnexpectedEof);
            },
        }
        crate::wire::parse_rep::<T>(self, n)
    }

    /// One `size`-byte record of `T`.
    pub fn record<T: Wire>(&mut self) -> (res: Result<T, ParseError>)
        ensures
            crate::wire::parsed(*old(self), *final(self), res),
    {
        T::parse(self)
    }

    /// A length-prefixed sequence of `size`-byte records of `T`.
    pub fn record_vec<T: Wire>(&mut self, size: usize) -> (res: Result<Vec<T>, ParseError>)
        ensures
            final(self).data() == old(self).data(),
            done(old(self).st(), crate::wire::sp_records::<T>(old(self).data(), old(self).st(), size as int), res, final(self).st()),
            res matches Ok(v) ==> crate::wire::enc_seq(v@) == span(old(self).data(), old(self).st(), final(self).st()),
    {
        crate::wire::parse_records::<T>(self, size)
    }

    /// A length-prefixed byte string, owned.
    pub fn byte_vec_owned(&mut self) -> (res: Result<Vec<u8>, ParseError>)
        ensures
            final(self).data() == old(self).data(),
            done(old(self).st(), sp_byte_vec(old(self).data(), old(self).st()), res, final(self).st()),
            res matches Ok(b) ==> enc_bytes(b@) == span(old(self).data(), old(self).st(), final(self).st()),
            res matches Ok(b) ==> b@.len() <= MAX_SEQUENCE_LENGTH,
    {
        let b = self.byte_vec()?;
        Ok(vstd::slice::slice_to_vec(b))
    }
}

} // verus!
