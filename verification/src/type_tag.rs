//! Move type tags. The only recursive wire type: its nesting is bounded by
//! the container depth limit.
use vstd::prelude::*;
use crate::base::AccountAddress;
use crate::error::ParseError;
use crate::reader::{
    Reader, St, Rec, span, done, sp_uleb, sp_bytes, sp_str, sp_seq_len, leave, lemma_span_join,
    adv, lemma_uleb_roundtrip, MAX_CONTAINER_DEPTH, MAX_SEQUENCE_LENGTH,
};
use crate::readback::{at, lemma_at_split, lemma_at_whole, lemma_read_string};
use crate::message::{exact_rec, start};
use crate::wire::{Wire, enc_uleb, enc_string, encode_utf8};
use crate::execution_status::unknown;

verus! {

broadcast use {Reader::lemma_st_nonneg, lemma_span_join};

#[derive(PartialEq, Eq, Debug)]
pub enum TypeTag {
    Bool,
    U8,
    U64,
    U128,
    Address,
    Signer,
    Vector(Box<TypeTag>),
    Struct(Box<StructTag>),
    U16,
    U32,
    U256,
}

/// Module and name are not checked against the Move identifier grammar here.
#[derive(PartialEq, Eq, Debug)]
pub struct StructTag {
    pub address: AccountAddress,
    pub module: String,
    pub name: String,
    pub type_params: Vec<TypeTag>,
}

/// On the wire `TypeInput` and `StructInput` are `TypeTag` and `StructTag`.
pub type TypeInput = TypeTag;

pub type StructInput = StructTag;

// ---------------------------------------------------------------------
// The grammar. Each tag and each struct tag is a container; so is the
// address inside a struct tag, the one leaf that nesting can push past the
// limit. The depth each nested call starts at is written out, so that the
// recursion visibly descends.

/// A type tag at `st`.
pub open spec fn rec_tt(s: Seq<u8>, st: St) -> Rec
    decreases MAX_CONTAINER_DEPTH - st.depth, 0int, 0nat,
{
    if st.depth >= MAX_CONTAINER_DEPTH {
        Err(ParseError::ContainerDepthExceeded)
    } else {
        let d = st.depth + 1;
        match sp_uleb(s, St { depth: d, ..st }) {
            Err(e) => Err(e),
            Ok((tag, st1)) => {
                let inner = if tag == 6 {
                    rec_tt(s, St { depth: d, ..st1 })
                } else if tag == 7 {
                    rec_st(s, St { depth: d, ..st1 })
                } else if tag <= 10 {
                    Ok(st1)
                } else {
                    Err(unknown("TypeTag", tag))
                };
                match inner {
                    Ok(st2) => Ok(leave(st2)),
                    Err(e) => Err(e),
                }
            },
        }
    }
}

/// The address, module and name of a struct tag whose container was
/// entered at `st`. The tag count goes up once the address is read.
pub open spec fn rec_st_head(s: Seq<u8>, st: St) -> Rec {
    if st.depth >= MAX_CONTAINER_DEPTH {
        Err(ParseError::ContainerDepthExceeded)
    } else {
        match sp_bytes(s, St { depth: st.depth + 1, ..st }, 32) {
            Err(e) => Err(e),
            Ok(st1) => match sp_str(s, St { depth: st.depth, tags: st1.tags + 1, ..st1 }) {
                Err(e) => Err(e),
                Ok(st2) => sp_str(s, st2),
            },
        }
    }
}

/// A struct tag at `st`.
pub open spec fn rec_st(s: Seq<u8>, st: St) -> Rec
    decreases MAX_CONTAINER_DEPTH - st.depth, 0int, 0nat,
{
    if st.depth >= MAX_CONTAINER_DEPTH {
        Err(ParseError::ContainerDepthExceeded)
    } else {
        let d = st.depth + 1;
        match rec_st_head(s, St { depth: d, ..st }) {
            Err(e) => Err(e),
            Ok(st1) => match sp_seq_len(s, st1, 1) {
                Err(e) => Err(e),
                Ok((n, st2)) => match rec_tt_list(s, St { depth: d, ..st2 }, n as nat) {
                    Ok(st3) => Ok(leave(st3)),
                    Err(e) => Err(e),
                },
            },
        }
    }
}

/// `n` type tags in a row, at the depth of `st`.
pub open spec fn rec_tt_list(s: Seq<u8>, st: St, n: nat) -> Rec
    decreases MAX_CONTAINER_DEPTH - st.depth, 1int, n,
{
    if n == 0 {
        Ok(st)
    } else {
        match rec_tt_list(s, st, (n - 1) as nat) {
            Ok(st1) => rec_tt(s, St { depth: st.depth, ..st1 }),
            Err(e) => Err(e),
        }
    }
}

/// A length-prefixed sequence of type tags.
pub open spec fn rec_tt_vec(s: Seq<u8>, st: St) -> Rec {
    match sp_seq_len(s, st, 1) {
        Ok((n, st1)) => rec_tt_list(s, St { depth: st.depth, ..st1 }, n as nat),
        Err(e) => Err(e),
    }
}

pub open spec fn enc_tt(t: TypeTag) -> Seq<u8>
    decreases t,
{
    match t {
        TypeTag::Bool => enc_uleb(0),
        TypeTag::U8 => enc_uleb(1),
        TypeTag::U64 => enc_uleb(2),
        TypeTag::U128 => enc_uleb(3),
        TypeTag::Address => enc_uleb(4),
        TypeTag::Signer => enc_uleb(5),
        TypeTag::Vector(inner) => enc_uleb(6) + enc_tt(*inner),
        TypeTag::Struct(st) => enc_uleb(7) + enc_st(*st),
        TypeTag::U16 => enc_uleb(8),
        TypeTag::U32 => enc_uleb(9),
        TypeTag::U256 => enc_uleb(10),
    }
}

pub open spec fn enc_st(t: StructTag) -> Seq<u8>
    decreases t,
{
    t.address.0@ + enc_string(t.module) + enc_string(t.name) + enc_uleb(
        t.type_params@.len() as u32,
    ) + enc_tt_list(t.type_params@)
}

pub open spec fn enc_tt_list(v: Seq<TypeTag>) -> Seq<u8>
    decreases v,
{
    if v.len() == 0 {
        Seq::empty()
    } else {
        enc_tt_list(v.subrange(0, v.len() - 1)) + enc_tt(v[v.len() - 1])
    }
}

// ---------------------------------------------------------------------

impl TypeTag {
    pub const MIN_WIRE_SIZE: usize = 1;

    /// A length-prefixed sequence of type tags.
    pub fn parse_vec(r: &mut Reader) -> (res: Result<Vec<TypeTag>, ParseError>)
        ensures
            final(r).data() == old(r).data(),
            done(old(r).st(), rec_tt_vec(old(r).data(), old(r).st()), res, final(r).st()),
            res matches Ok(v) ==> enc_uleb(v@.len() as u32) + enc_tt_list(v@) == span(
                old(r).data(),
                old(r).st(),
                final(r).st(),
            ),
    {
        parse_type_tags(r)
    }
}

pub fn parse_type_tag(r: &mut Reader) -> (res: Result<TypeTag, ParseError>)
    ensures
        final(r).data() == old(r).data(),
        done(old(r).st(), rec_tt(old(r).data(), old(r).st()), res, final(r).st()),
        res matches Ok(v) ==> enc_tt(v) == span(old(r).data(), old(r).st(), final(r).st()),
        res matches Ok(v) ==> legal_tt(v),
    decreases MAX_CONTAINER_DEPTH - old(r).st().depth, 0int, 0nat,
{
    r.enter()?;
    let tag = r.variant()?;
    let t = match tag {
        0 => TypeTag::Bool,
        1 => TypeTag::U8,
        2 => TypeTag::U64,
        3 => TypeTag::U128,
        4 => TypeTag::Address,
        5 => TypeTag::Signer,
        6 => TypeTag::Vector(Box::new(parse_type_tag(r)?)),
        7 => TypeTag::Struct(Box::new(parse_struct_tag(r)?)),
        8 => TypeTag::U16,
        9 => TypeTag::U32,
        10 => TypeTag::U256,
        _ => {
            return Err(ParseError::UnknownVariant { ty: "TypeTag", tag });
        },
    };
    r.check();
    r.leave();
    Ok(t)
}

pub fn parse_struct_tag(r: &mut Reader) -> (res: Result<StructTag, ParseError>)
    ensures
        final(r).data() == old(r).data(),
        done(old(r).st(), rec_st(old(r).data(), old(r).st()), res, final(r).st()),
        res matches Ok(v) ==> enc_st(v) == span(old(r).data(), old(r).st(), final(r).st()),
        res matches Ok(v) ==> legal_st(v),
    decreases MAX_CONTAINER_DEPTH - old(r).st().depth, 0int, 0nat,
{
    let ghost s = r.data();
    let ghost st0 = r.st();
    r.enter()?;
    let ghost st1 = r.st();
    let (address, module, name) = parse_struct_head(r)?;
    let ghost st2 = r.st();
    let type_params = parse_type_tags(r)?;
    r.check();
    let ghost st3 = r.st();
    proof {
        assert(st1 == St { depth: st0.depth + 1, ..st0 });
        assert(rec_st_head(s, st1) == Ok::<St, ParseError>(st2));
        assert(rec_tt_vec(s, st2) == Ok::<St, ParseError>(st3));
        assert(rec_st(s, st0) == Ok::<St, ParseError>(leave(st3)));
        assert(span(s, st1, st3) == span(s, st1, st2) + span(s, st2, st3));
    }
    r.leave();
    let t = StructTag { address, module, name, type_params };
    assert(enc_st(t) == span(s, st0, r.st()));
    Ok(t)
}

#[verifier::spinoff_prover]
#[verifier::rlimit(40)]
fn parse_struct_head(r: &mut Reader) -> (res: Result<(AccountAddress, String, String), ParseError>)
    ensures
        final(r).data() == old(r).data(),
        done(old(r).st(), rec_st_head(old(r).data(), old(r).st()), res, final(r).st()),
        res matches Ok((a, m, n)) ==> a.0@ + enc_string(m) + enc_string(n) == span(
            old(r).data(),
            old(r).st(),
            final(r).st(),
        ),
        res matches Ok((a, m, n)) ==> encode_utf8(m@).len() <= MAX_SEQUENCE_LENGTH && encode_utf8(
            n@,
        ).len() <= MAX_SEQUENCE_LENGTH,
{
    r.check();
    // The address is the one leaf container that type nesting can push
    // past the depth limit, so it is the one leaf that is counted.
    r.enter()?;
    let address = AccountAddress::parse(r)?;
    r.leave();
    r.count_struct_tag();
    let module = r.string()?;
    let name = r.string()?;
    r.check();
    Ok((address, module, name))
}

pub fn parse_type_tags(r: &mut Reader) -> (res: Result<Vec<TypeTag>, ParseError>)
    ensures
        final(r).data() == old(r).data(),
        done(old(r).st(), rec_tt_vec(old(r).data(), old(r).st()), res, final(r).st()),
        res matches Ok(v) ==> enc_uleb(v@.len() as u32) + enc_tt_list(v@) == span(
            old(r).data(),
            old(r).st(),
            final(r).st(),
        ),
        res matches Ok(v) ==> v@.len() <= MAX_SEQUENCE_LENGTH && legal_tt_list(v@),
    decreases MAX_CONTAINER_DEPTH - old(r).st().depth, 1int, 0nat,
{
    let ghost s = r.data();
    let ghost st0 = r.st();
    let n = r.seq_len(TypeTag::MIN_WIRE_SIZE)?;
    r.check();
    let ghost st1 = r.st();
    let mut out: Vec<TypeTag> = Vec::new();
    let mut i: usize = 0;
    assert(enc_tt_list(out@) =~= span(s, st1, st1));
    while i < n
        invariant
            r.data() == s,
            s == old(r).data(),
            st0 == old(r).st(),
            st1.depth == st0.depth,
            sp_seq_len(s, st0, 1) == Ok::<(u32, St), ParseError>((n as u32, st1)),
            n <= crate::reader::MAX_SEQUENCE_LENGTH,
            i <= n,
            rec_tt_list(s, st1, i as nat) == Ok::<St, ParseError>(r.st()),
            r.st().depth == st0.depth,
            0 <= st0.pos <= st1.pos <= r.st().pos <= s.len(),
            out@.len() == i,
            enc_tt_list(out@) == span(s, st1, r.st()),
            enc_uleb(n as u32) == span(s, st0, st1),
            legal_tt_list(out@),
        decreases n - i,
    {
        let ghost cur = r.st();
        match parse_type_tag(r) {
            Ok(t) => {
                r.check();
                proof {
                    assert(out@.push(t).subrange(0, out@.len() as int) =~= out@);
                }
                out.push(t);
                i = i + 1;
            },
            Err(e) => {
                proof {
                    lemma_tt_list_err(s, st1, (i + 1) as nat, n as nat, e);
                    assert(St { depth: st0.depth, ..st1 } == st1);
                }
                return Err(e);
            },
        }
    }
    Ok(out)
}

pub proof fn lemma_tt_list_err(s: Seq<u8>, st: St, i: nat, n: nat, e: ParseError)
    requires
        i <= n,
        rec_tt_list(s, st, i) == Err::<St, ParseError>(e),
    ensures
        rec_tt_list(s, st, n) == Err::<St, ParseError>(e),
    decreases n - i,
{
    if i < n {
        lemma_tt_list_err(s, st, i, (n - 1) as nat, e);
    }
}

impl Wire for TypeTag {
    /// Its strings and lists within the reader's length limit.
    open spec fn well_formed(self) -> bool {
        legal_tt(self)
    }

    open spec fn rec(s: Seq<u8>, st: St) -> Rec {
        rec_tt(s, st)
    }

    open spec fn enc(self) -> Seq<u8> {
        enc_tt(self)
    }

    fn parse(r: &mut Reader) -> (res: Result<TypeTag, ParseError>) {
        parse_type_tag(r)
    }
}

impl TypeTag {
    pub fn parse(r: &mut Reader) -> (res: Result<TypeTag, ParseError>)
        ensures
            crate::wire::parsed(*old(r), *final(r), res),
    {
        <TypeTag as Wire>::parse(r)
    }
}

impl Wire for StructTag {
    /// Its strings and lists within the reader's length limit.
    open spec fn well_formed(self) -> bool {
        legal_st(self)
    }

    open spec fn rec(s: Seq<u8>, st: St) -> Rec {
        rec_st(s, st)
    }

    open spec fn enc(self) -> Seq<u8> {
        enc_st(self)
    }

    fn parse(r: &mut Reader) -> (res: Result<StructTag, ParseError>) {
        parse_struct_tag(r)
    }
}

impl StructTag {
    pub fn parse(r: &mut Reader) -> (res: Result<StructTag, ParseError>)
        ensures
            crate::wire::parsed(*old(r), *final(r), res),
    {
        <StructTag as Wire>::parse(r)
    }
}

// ---------------------------------------------------------------------
// Reading a tag back from its encoding. How deep a tag nests decides
// whether the reader takes it; nothing else in a well-formed encoding can
// make it refuse.

/// The container levels a tag occupies below the one it starts at.
pub open spec fn need_tt(t: TypeTag) -> int
    decreases t,
{
    match t {
        TypeTag::Vector(inner) => 1 + need_tt(*inner),
        TypeTag::Struct(st) => 1 + need_st(*st),
        _ => 1,
    }
}

/// A struct tag is one level, and its address one more; its parameters sit
/// one level down.
pub open spec fn need_st(t: StructTag) -> int
    decreases t,
{
    let m = 1 + need_tt_list(t.type_params@);
    if m > 2 {
        m
    } else {
        2
    }
}

/// The deepest of a list of tags.
pub open spec fn need_tt_list(v: Seq<TypeTag>) -> int
    decreases v,
{
    if v.len() == 0 {
        0
    } else {
        let a = need_tt_list(v.subrange(0, v.len() - 1));
        let b = need_tt(v[v.len() - 1]);
        if a > b {
            a
        } else {
            b
        }
    }
}

/// The struct tags a tag holds, itself included.
pub open spec fn tags_tt(t: TypeTag) -> int
    decreases t,
{
    match t {
        TypeTag::Vector(inner) => tags_tt(*inner),
        TypeTag::Struct(st) => tags_st(*st),
        _ => 0,
    }
}

pub open spec fn tags_st(t: StructTag) -> int
    decreases t,
{
    1 + tags_tt_list(t.type_params@)
}

pub open spec fn tags_tt_list(v: Seq<TypeTag>) -> int
    decreases v,
{
    if v.len() == 0 {
        0
    } else {
        tags_tt_list(v.subrange(0, v.len() - 1)) + tags_tt(v[v.len() - 1])
    }
}

/// Every string and parameter list of the tag is within the reader's
/// sequence length limit.
pub open spec fn legal_tt(t: TypeTag) -> bool
    decreases t,
{
    match t {
        TypeTag::Vector(inner) => legal_tt(*inner),
        TypeTag::Struct(st) => legal_st(*st),
        _ => true,
    }
}

pub open spec fn legal_st(t: StructTag) -> bool
    decreases t,
{
    &&& encode_utf8(t.module@).len() <= MAX_SEQUENCE_LENGTH
    &&& encode_utf8(t.name@).len() <= MAX_SEQUENCE_LENGTH
    &&& t.type_params@.len() <= MAX_SEQUENCE_LENGTH
    &&& legal_tt_list(t.type_params@)
}

pub open spec fn legal_tt_list(v: Seq<TypeTag>) -> bool
    decreases v,
{
    if v.len() == 0 {
        true
    } else {
        legal_tt_list(v.subrange(0, v.len() - 1)) && legal_tt(v[v.len() - 1])
    }
}

/// Where reading `need` levels from `st` ends: past `len` bytes with
/// `tags` more struct tags, or refused for depth.
pub open spec fn read_to(st: St, need: int, len: int, tags: int) -> Rec {
    if st.depth + need <= MAX_CONTAINER_DEPTH {
        Ok(St { pos: st.pos + len, depth: st.depth, tags: st.tags + tags })
    } else {
        Err(ParseError::ContainerDepthExceeded)
    }
}

pub proof fn lemma_read_tt(t: TypeTag, s: Seq<u8>, st: St)
    requires
        legal_tt(t),
        at(s, st, enc_tt(t)),
        0 <= st.depth,
    ensures
        rec_tt(s, st) == read_to(st, need_tt(t), enc_tt(t).len() as int, tags_tt(t)),
        enc_tt(t).len() >= 1,
        need_tt(t) >= 1,
    decreases t,
{
    let d = st.depth + 1;
    let tag: u32 = match t {
        TypeTag::Bool => 0,
        TypeTag::U8 => 1,
        TypeTag::U64 => 2,
        TypeTag::U128 => 3,
        TypeTag::Address => 4,
        TypeTag::Signer => 5,
        TypeTag::Vector(_) => 6,
        TypeTag::Struct(_) => 7,
        TypeTag::U16 => 8,
        TypeTag::U32 => 9,
        TypeTag::U256 => 10,
    };
    let rest = match t {
        TypeTag::Vector(inner) => enc_tt(*inner),
        TypeTag::Struct(x) => enc_st(*x),
        _ => Seq::<u8>::empty(),
    };
    assert(enc_tt(t) =~= enc_uleb(tag) + rest);
    reveal_with_fuel(enc_uleb, 2);
    assert(enc_uleb(tag) == seq![tag as u8]);
    let st0 = St { depth: d, ..st };
    lemma_at_split(s, st, enc_uleb(tag), rest);
    lemma_uleb_roundtrip(tag, s, st0);
    let st1 = adv(st0, 1);
    match t {
        TypeTag::Vector(inner) => {
            lemma_read_tt(*inner, s, St { depth: d, ..st1 });
        },
        TypeTag::Struct(x) => {
            lemma_read_st(*x, s, St { depth: d, ..st1 });
        },
        _ => {},
    }
}

/// The head of a struct tag and the count of its parameters read back;
/// `sh` is the state after the struct tag's own container is entered.
#[verifier::spinoff_prover]
#[verifier::rlimit(60)]
pub proof fn lemma_read_st_head(t: StructTag, s: Seq<u8>, sh: St) -> (sp: St)
    requires
        legal_st(t),
        at(s, sh, enc_st(t)),
        0 <= sh.depth < MAX_CONTAINER_DEPTH,
    ensures
        sp.depth == sh.depth,
        sp.tags == sh.tags + 1,
        sp.pos + enc_tt_list(t.type_params@).len() == sh.pos + enc_st(t).len(),
        at(s, sp, enc_tt_list(t.type_params@)),
        rec_st_head(s, sh) matches Ok(sl) && sp_seq_len(s, sl, 1) == Ok::<(u32, St), ParseError>(
            (t.type_params@.len() as u32, sp),
        ),
{
    let v = t.type_params@;
    let n = v.len() as u32;
    let a = t.address.0@;
    let m = enc_string(t.module);
    let nm = enc_string(t.name);
    let l = enc_uleb(n);
    let ps = enc_tt_list(v);
    assert(enc_st(t) =~= a + (m + (nm + (l + ps))));
    let sm = St { pos: sh.pos + 32, depth: sh.depth, tags: sh.tags + 1 };
    let sn = adv(sm, m.len() as int);
    let sl = adv(sn, nm.len() as int);
    let sp = adv(sl, l.len() as int);
    lemma_at_split(s, sh, a, m + (nm + (l + ps)));
    lemma_at_split(s, sm, m, nm + (l + ps));
    lemma_at_split(s, sn, nm, l + ps);
    lemma_at_split(s, sl, l, ps);
    let sa = St { depth: sh.depth + 1, ..sh };
    assert(sp_bytes(s, sa, 32) == Ok::<St, ParseError>(adv(sa, 32)));
    lemma_read_string(t.module, s, sm);
    lemma_read_string(t.name, s, sn);
    assert(rec_st_head(s, sh) == Ok::<St, ParseError>(sl));
    lemma_uleb_roundtrip(n, s, sl);
    lemma_tt_list_len(v);
    assert(sp_seq_len(s, sl, 1) == Ok::<(u32, St), ParseError>((n, sp)));
    sp
}

pub proof fn lemma_tt_list_len(v: Seq<TypeTag>)
    ensures
        enc_tt_list(v).len() >= v.len(),
    decreases v.len(),
{
    if v.len() > 0 {
        lemma_tt_list_len(v.subrange(0, v.len() - 1));
        reveal_with_fuel(enc_uleb, 2);
        assert(enc_tt(v[v.len() - 1]).len() >= 1);
    }
}

#[verifier::spinoff_prover]
#[verifier::rlimit(100)]
pub proof fn lemma_read_st(t: StructTag, s: Seq<u8>, st: St)
    requires
        legal_st(t),
        at(s, st, enc_st(t)),
        0 <= st.depth,
    ensures
        rec_st(s, st) == read_to(st, need_st(t), enc_st(t).len() as int, tags_st(t)),
    decreases t,
{
    let d = st.depth + 1;
    let sh = St { depth: d, ..st };
    assert(need_st(t) >= 2);
    if st.depth >= MAX_CONTAINER_DEPTH {
        assert(rec_st(s, st) == Err::<St, ParseError>(ParseError::ContainerDepthExceeded));
    } else if d >= MAX_CONTAINER_DEPTH {
        assert(rec_st_head(s, sh) == Err::<St, ParseError>(ParseError::ContainerDepthExceeded));
    } else {
        let sp = lemma_read_st_head(t, s, sh);
        lemma_read_tt_list(t.type_params@, s, sp);
        let n = t.type_params@.len();
        assert(St { depth: d, ..sp } == sp);
        assert(rec_st(s, st) == match rec_tt_list(s, sp, n) {
            Ok(st3) => Ok::<St, ParseError>(leave(st3)),
            Err(e) => Err(e),
        });
    }
}

pub proof fn lemma_read_tt_list(v: Seq<TypeTag>, s: Seq<u8>, st: St)
    requires
        legal_tt_list(v),
        at(s, st, enc_tt_list(v)),
        0 <= st.depth <= MAX_CONTAINER_DEPTH,
    ensures
        rec_tt_list(s, st, v.len()) == read_to(st, need_tt_list(v), enc_tt_list(v).len() as int, tags_tt_list(v)),
        enc_tt_list(v).len() >= v.len(),
        need_tt_list(v) >= 0,
    decreases v,
{
    if v.len() > 0 {
        let pre = v.subrange(0, v.len() - 1);
        let last = v[v.len() - 1];
        lemma_at_split(s, st, enc_tt_list(pre), enc_tt(last));
        lemma_read_tt_list(pre, s, st);
        let st1 = St { pos: st.pos + enc_tt_list(pre).len(), depth: st.depth, tags: st.tags + tags_tt_list(pre) };
        lemma_read_tt(last, s, st1);
        assert(pre.len() == (v.len() - 1) as nat);
        let r1 = rec_tt_list(s, st, pre.len());
        assert(rec_tt_list(s, st, v.len()) == match r1 {
            Ok(x) => rec_tt(s, St { depth: st.depth, ..x }),
            Err(e) => Err(e),
        });
        if st.depth + need_tt_list(pre) <= MAX_CONTAINER_DEPTH {
            assert(r1 == Ok::<St, ParseError>(st1));
            assert(St { depth: st.depth, ..st1 } == st1);
        }
        assert(enc_tt_list(v) == enc_tt_list(pre) + enc_tt(last));
    }
}

/// A type tag reads back from its encoding, when its strings and lists are
/// within the reader's length limits: the encoding is accepted whole
/// exactly when the tag nests within the container depth limit, and is
/// otherwise refused for depth.
pub proof fn lemma_type_tag_reads_back(t: TypeTag)
    requires
        legal_tt(t),
    ensures
        exact_rec::<TypeTag>(enc_tt(t)) == if need_tt(t) <= MAX_CONTAINER_DEPTH {
            Ok::<(), ParseError>(())
        } else {
            Err(ParseError::ContainerDepthExceeded)
        },
{
    lemma_at_whole(enc_tt(t));
    lemma_read_tt(t, enc_tt(t), start());
}

} // verus!
