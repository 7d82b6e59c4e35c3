//! The requests of the validator gRPC API that travel as BCS. They are
//! small and fixed-shape, so they are parsed into plain values.
use vstd::prelude::*;
use crate::base::{Digest, ObjectId};
use crate::error::ParseError;
use crate::execution_status::{rec2, unknown};
use crate::effects::rec3;
use crate::fast::Writer;
use crate::message::{exact_rec, parse_exact, start};
use crate::readback::{
    lemma_at_whole, lemma_at_split, lemma_at_index, lemma_read_u64, lemma_read_bool,
    lemma_read_option_u64, lemma_read_object_id, lemma_read_digest, lemma_cat_cancel,
    lemma_u64_injective, lemma_bool_injective, lemma_option_u64_injective, lemma_array_eq,
};
use crate::reader::{Reader, St, Rec, then, sp_uleb, adv, lemma_span_join};
use crate::wire::{Wire};

verus! {

broadcast use {Reader::lemma_st_nonneg, lemma_span_join};

#[derive(Clone, Copy, PartialEq, Eq, Structural, Debug)]
pub enum ObjectInfoRequestKind {
    LatestObjectInfo,
    PastObjectInfoDebug(u64),
}

#[derive(Clone, Copy, PartialEq, Eq, Debug)]
pub struct ObjectInfoRequest {
    pub object_id: ObjectId,
    pub generate_layout: bool,
    pub request_kind: ObjectInfoRequestKind,
}

impl Wire for ObjectInfoRequest {
    /// The id, `LayoutGenerationOption` (`Generate` is variant 0), then the
    /// kind.
    open spec fn rec(s: Seq<u8>, st: St) -> Rec {
        then(
            ObjectId::rec(s, st),
            |st1: St|
                match sp_uleb(s, st1) {
                    Ok((tag, st2)) => if tag > 1 {
                        Err(unknown("LayoutGenerationOption", tag))
                    } else {
                        match sp_uleb(s, st2) {
                            Ok((kind, st3)) => if kind == 0 {
                                Ok(st3)
                            } else if kind == 1 {
                                u64::rec(s, st3)
                            } else {
                                Err(unknown("ObjectInfoRequestKind", kind))
                            },
                            Err(e) => Err(e),
                        }
                    },
                    Err(e) => Err(e),
                },
        )
    }

    open spec fn enc(self) -> Seq<u8> {
        self.object_id.enc() + seq![if self.generate_layout { 0u8 } else { 1u8 }] + match self.request_kind {
            ObjectInfoRequestKind::LatestObjectInfo => seq![0u8],
            ObjectInfoRequestKind::PastObjectInfoDebug(v) => seq![1u8] + v.enc(),
        }
    }

    fn parse(r: &mut Reader) -> (res: Result<ObjectInfoRequest, ParseError>) {
        let object_id = ObjectId::parse(r)?;
        let generate_layout = match r.variant()? {
            0 => true,
            1 => false,
            tag => {
                return Err(ParseError::UnknownVariant { ty: "LayoutGenerationOption", tag });
            },
        };
        let request_kind = match r.variant()? {
            0 => ObjectInfoRequestKind::LatestObjectInfo,
            1 => ObjectInfoRequestKind::PastObjectInfoDebug(r.u64()?),
            tag => {
                return Err(ParseError::UnknownVariant { ty: "ObjectInfoRequestKind", tag });
            },
        };
        r.check();
        Ok(ObjectInfoRequest { object_id, generate_layout, request_kind })
    }
}

impl ObjectInfoRequest {
    pub fn parse(buf: &[u8]) -> (res: Result<ObjectInfoRequest, ParseError>)
        ensures
            match exact_rec::<ObjectInfoRequest>(buf@) {
                Ok(()) => res matches Ok(v) && v.enc() == buf@,
                Err(e) => res == Err::<ObjectInfoRequest, ParseError>(e),
            },
    {
        parse_exact::<ObjectInfoRequest>(buf)
    }

    pub fn write(&self, w: &mut Writer)
        ensures
            final(w).written() == old(w).written() + self.enc(),
    {
        w.raw(self.object_id.0.as_slice());
        w.u8(if self.generate_layout { 0u8 } else { 1u8 });
        match self.request_kind {
            ObjectInfoRequestKind::LatestObjectInfo => w.u8(0),
            ObjectInfoRequestKind::PastObjectInfoDebug(version) => {
                w.u8(1);
                w.u64(version);
            },
        }
        assert(w.written() =~= old(w).written() + self.enc());
    }
}

#[derive(Clone, Copy, PartialEq, Eq, Debug)]
pub struct TransactionInfoRequest {
    pub transaction_digest: Digest,
}

impl Wire for TransactionInfoRequest {
    open spec fn rec(s: Seq<u8>, st: St) -> Rec {
        Digest::rec(s, st)
    }

    open spec fn enc(self) -> Seq<u8> {
        self.transaction_digest.enc()
    }

    fn parse(r: &mut Reader) -> (res: Result<TransactionInfoRequest, ParseError>) {
        Ok(TransactionInfoRequest { transaction_digest: Digest::parse(r)? })
    }
}

impl TransactionInfoRequest {
    pub fn parse(buf: &[u8]) -> (res: Result<TransactionInfoRequest, ParseError>)
        ensures
            match exact_rec::<TransactionInfoRequest>(buf@) {
                Ok(()) => res matches Ok(v) && v.enc() == buf@,
                Err(e) => res == Err::<TransactionInfoRequest, ParseError>(e),
            },
    {
        parse_exact::<TransactionInfoRequest>(buf)
    }

    pub fn write(&self, w: &mut Writer)
        ensures
            final(w).written() == old(w).written() + self.enc(),
    {
        w.digest(&self.transaction_digest);
    }
}

#[derive(Clone, Copy, PartialEq, Eq, Debug)]
pub struct CheckpointRequest {
    /// The latest checkpoint when absent.
    pub sequence_number: Option<u64>,
    pub request_content: bool,
}

impl Wire for CheckpointRequest {
    open spec fn rec(s: Seq<u8>, st: St) -> Rec {
        rec2::<Option<u64>, bool>(s, st)
    }

    open spec fn enc(self) -> Seq<u8> {
        self.sequence_number.enc() + self.request_content.enc()
    }

    fn parse(r: &mut Reader) -> (res: Result<CheckpointRequest, ParseError>) {
        let sequence_number = Option::<u64>::parse(r)?;
        let request_content = r.bool()?;
        r.check();
        Ok(CheckpointRequest { sequence_number, request_content })
    }
}

impl CheckpointRequest {
    pub fn parse(buf: &[u8]) -> (res: Result<CheckpointRequest, ParseError>)
        ensures
            match exact_rec::<CheckpointRequest>(buf@) {
                Ok(()) => res matches Ok(v) && v.enc() == buf@,
                Err(e) => res == Err::<CheckpointRequest, ParseError>(e),
            },
    {
        parse_exact::<CheckpointRequest>(buf)
    }

    pub fn write(&self, w: &mut Writer)
        ensures
            final(w).written() == old(w).written() + self.enc(),
    {
        w.option_u64(self.sequence_number);
        w.bool(self.request_content);
        assert(w.written() =~= old(w).written() + self.enc());
    }
}

#[derive(Clone, Copy, PartialEq, Eq, Debug)]
pub struct CheckpointRequestV2 {
    /// The latest checkpoint when absent.
    pub sequence_number: Option<u64>,
    pub request_content: bool,
    /// The certified checkpoint if true, else the locally built one.
    pub certified: bool,
}

impl Wire for CheckpointRequestV2 {
    open spec fn rec(s: Seq<u8>, st: St) -> Rec {
        rec3::<Option<u64>, bool, bool>(s, st)
    }

    open spec fn enc(self) -> Seq<u8> {
        self.sequence_number.enc() + self.request_content.enc() + self.certified.enc()
    }

    fn parse(r: &mut Reader) -> (res: Result<CheckpointRequestV2, ParseError>) {
        let sequence_number = Option::<u64>::parse(r)?;
        let request_content = r.bool()?;
        let certified = r.bool()?;
        r.check();
        Ok(CheckpointRequestV2 { sequence_number, request_content, certified })
    }
}

impl CheckpointRequestV2 {
    pub fn parse(buf: &[u8]) -> (res: Result<CheckpointRequestV2, ParseError>)
        ensures
            match exact_rec::<CheckpointRequestV2>(buf@) {
                Ok(()) => res matches Ok(v) && v.enc() == buf@,
                Err(e) => res == Err::<CheckpointRequestV2, ParseError>(e),
            },
    {
        parse_exact::<CheckpointRequestV2>(buf)
    }

    pub fn write(&self, w: &mut Writer)
        ensures
            final(w).written() == old(w).written() + self.enc(),
    {
        w.option_u64(self.sequence_number);
        w.bool(self.request_content);
        w.bool(self.certified);
        assert(w.written() =~= old(w).written() + self.enc());
    }
}

/// Carries a single ignored bool in Sui's definition, so that it is not empty.
#[derive(Clone, Copy, PartialEq, Eq, Debug)]
pub struct SystemStateRequest {
    pub unused: bool,
}

impl Wire for SystemStateRequest {
    open spec fn rec(s: Seq<u8>, st: St) -> Rec {
        bool::rec(s, st)
    }

    open spec fn enc(self) -> Seq<u8> {
        self.unused.enc()
    }

    fn parse(r: &mut Reader) -> (res: Result<SystemStateRequest, ParseError>) {
        Ok(SystemStateRequest { unused: r.bool()? })
    }
}

impl SystemStateRequest {
    pub fn parse(buf: &[u8]) -> (res: Result<SystemStateRequest, ParseError>)
        ensures
            match exact_rec::<SystemStateRequest>(buf@) {
                Ok(()) => res matches Ok(v) && v.enc() == buf@,
                Err(e) => res == Err::<SystemStateRequest, ParseError>(e),
            },
    {
        parse_exact::<SystemStateRequest>(buf)
    }

    pub fn write(&self, w: &mut Writer)
        ensures
            final(w).written() == old(w).written() + self.enc(),
    {
        w.bool(self.unused);
    }
}

// ---------------------------------------------------------------------
// Each request reads back from its encoding: the encoding is accepted
// whole, and no other request has it, so `parse` of what `write` wrote is
// the request that was written.

/// An `ObjectInfoRequest` reads back from its encoding.
pub proof fn lemma_object_info_request_reads_back(v: ObjectInfoRequest, w: ObjectInfoRequest)
    ensures
        exact_rec::<ObjectInfoRequest>(v.enc()) == Ok::<(), ParseError>(()),
        w.enc() == v.enc() ==> w == v,
{
    let e = v.enc();
    let s0 = start();
    let layout = seq![if v.generate_layout { 0u8 } else { 1u8 }];
    let kind = match v.request_kind {
        ObjectInfoRequestKind::LatestObjectInfo => seq![0u8],
        ObjectInfoRequestKind::PastObjectInfoDebug(x) => seq![1u8] + x.enc(),
    };
    assert(e == v.object_id.enc() + (layout + kind));
    lemma_at_whole(e);
    lemma_at_split(e, s0, v.object_id.enc(), layout + kind);
    lemma_read_object_id(v.object_id, e, s0);
    let s1 = adv(s0, 32);
    lemma_at_split(e, s1, layout, kind);
    lemma_at_index(e, s1, layout, 0);
    let s2 = adv(s1, 1);
    assert(sp_uleb(e, s1) == Ok::<(u32, St), ParseError>((layout[0] as u32, s2)));
    lemma_at_index(e, s2, kind, 0);
    match v.request_kind {
        ObjectInfoRequestKind::LatestObjectInfo => {
            assert(sp_uleb(e, s2) == Ok::<(u32, St), ParseError>((0u32, adv(s2, 1))));
        },
        ObjectInfoRequestKind::PastObjectInfoDebug(x) => {
            assert(sp_uleb(e, s2) == Ok::<(u32, St), ParseError>((1u32, adv(s2, 1))));
            lemma_at_split(e, s2, seq![1u8], x.enc());
            lemma_read_u64(x, e, adv(s2, 1));
        },
    }
    if w.enc() == v.enc() {
        let wl = seq![if w.generate_layout { 0u8 } else { 1u8 }];
        let wk = match w.request_kind {
            ObjectInfoRequestKind::LatestObjectInfo => seq![0u8],
            ObjectInfoRequestKind::PastObjectInfoDebug(x) => seq![1u8] + x.enc(),
        };
        assert(w.enc() == w.object_id.enc() + (wl + wk));
        lemma_cat_cancel(w.object_id.enc(), wl + wk, v.object_id.enc(), layout + kind);
        lemma_array_eq(w.object_id.0, v.object_id.0);
        lemma_cat_cancel(wl, wk, layout, kind);
        assert(wl[0] == layout[0]);
        assert(wk[0] == kind[0]);
        match (w.request_kind, v.request_kind) {
            (
                ObjectInfoRequestKind::PastObjectInfoDebug(x),
                ObjectInfoRequestKind::PastObjectInfoDebug(y),
            ) => {
                lemma_cat_cancel(seq![1u8], x.enc(), seq![1u8], y.enc());
                lemma_u64_injective(x, y);
            },
            _ => {},
        }
    }
}

/// No proper prefix of an `ObjectInfoRequest`'s encoding parses: every
/// one of them runs out of input.
pub proof fn lemma_object_info_request_prefix_fails(v: ObjectInfoRequest, k: int)
    requires
        0 <= k < v.enc().len(),
    ensures
        exact_rec::<ObjectInfoRequest>(v.enc().take(k)) == Err::<(), ParseError>(ParseError::UnexpectedEof),
{
    let e = v.enc();
    let p = e.take(k);
    let s0 = start();
    let layout = seq![if v.generate_layout { 0u8 } else { 1u8 }];
    let kind = match v.request_kind {
        ObjectInfoRequestKind::LatestObjectInfo => seq![0u8],
        ObjectInfoRequestKind::PastObjectInfoDebug(x) => seq![1u8] + x.enc(),
    };
    assert(v.object_id.enc().len() == 32);
    assert(e == v.object_id.enc() + layout + kind);
    assert(e[32] == layout[0]);
    assert(e[33] == kind[0]);
    if k >= 33 {
        assert(p[32] == e[32]);
        assert(sp_uleb(p, adv(s0, 32)) == Ok::<(u32, St), ParseError>((layout[0] as u32, adv(s0, 33))));
    }
    if k >= 34 {
        assert(p[33] == e[33]);
        assert(sp_uleb(p, adv(s0, 33)) == Ok::<(u32, St), ParseError>((kind[0] as u32, adv(s0, 34))));
        match v.request_kind {
            ObjectInfoRequestKind::LatestObjectInfo => {
                assert(e.len() == 34);
            },
            ObjectInfoRequestKind::PastObjectInfoDebug(x) => {
                assert(x.enc().len() == 8);
                assert(e.len() == 42);
            },
        }
    }
}

/// The object-info request round trip: what `write` writes for `q` is
/// its encoding, with the layout option as variant 0 (`Generate`) or 1;
/// the parser takes all of it, no other request has it, and every proper
/// prefix of it runs out of input.
pub proof fn lemma_object_info_request_round_trip(q: ObjectInfoRequest, q2: ObjectInfoRequest)
    ensures
        q.enc()[32] == (if q.generate_layout { 0u8 } else { 1u8 }),
        exact_rec::<ObjectInfoRequest>(q.enc()) == Ok::<(), ParseError>(()),
        q2.enc() == q.enc() ==> q2 == q,
        forall|k: int|
            0 <= k < q.enc().len() ==> #[trigger] exact_rec::<ObjectInfoRequest>(q.enc().take(k))
                == Err::<(), ParseError>(ParseError::UnexpectedEof),
{
    lemma_object_info_request_reads_back(q, q2);
    assert forall|k: int| 0 <= k < q.enc().len() implies #[trigger] exact_rec::<ObjectInfoRequest>(
        q.enc().take(k),
    ) == Err::<(), ParseError>(ParseError::UnexpectedEof) by {
        lemma_object_info_request_prefix_fails(q, k);
    }
    let layout = seq![if q.generate_layout { 0u8 } else { 1u8 }];
    let kind = match q.request_kind {
        ObjectInfoRequestKind::LatestObjectInfo => seq![0u8],
        ObjectInfoRequestKind::PastObjectInfoDebug(x) => seq![1u8] + x.enc(),
    };
    assert(q.enc() == q.object_id.enc() + layout + kind);
    assert(q.enc()[32] == layout[0]);
}

/// A `TransactionInfoRequest` reads back from its encoding.
pub proof fn lemma_transaction_info_request_reads_back(v: TransactionInfoRequest, w: TransactionInfoRequest)
    ensures
        exact_rec::<TransactionInfoRequest>(v.enc()) == Ok::<(), ParseError>(()),
        w.enc() == v.enc() ==> w == v,
{
    lemma_at_whole(v.enc());
    lemma_read_digest(v.transaction_digest, v.enc(), start());
    if w.enc() == v.enc() {
        lemma_cat_cancel(seq![32u8], w.transaction_digest.bytes@, seq![32u8], v.transaction_digest.bytes@);
        lemma_array_eq(w.transaction_digest.bytes, v.transaction_digest.bytes);
    }
}

/// A `CheckpointRequest` reads back from its encoding.
pub proof fn lemma_checkpoint_request_reads_back(v: CheckpointRequest, w: CheckpointRequest)
    ensures
        exact_rec::<CheckpointRequest>(v.enc()) == Ok::<(), ParseError>(()),
        w.enc() == v.enc() ==> w == v,
{
    let e = v.enc();
    let s0 = start();
    lemma_at_whole(e);
    lemma_at_split(e, s0, v.sequence_number.enc(), v.request_content.enc());
    lemma_read_option_u64(v.sequence_number, e, s0);
    lemma_read_bool(v.request_content, e, adv(s0, v.sequence_number.enc().len() as int));
    if w.enc() == v.enc() {
        lemma_option_u64_injective(
            w.sequence_number,
            v.sequence_number,
            w.request_content.enc(),
            v.request_content.enc(),
        );
        assert(w.request_content.enc() + Seq::<u8>::empty() =~= v.request_content.enc() + Seq::<u8>::empty());
        lemma_bool_injective(w.request_content, v.request_content, Seq::empty(), Seq::empty());
    }
}

/// A `CheckpointRequestV2` reads back from its encoding.
pub proof fn lemma_checkpoint_request_v2_reads_back(v: CheckpointRequestV2, w: CheckpointRequestV2)
    ensures
        exact_rec::<CheckpointRequestV2>(v.enc()) == Ok::<(), ParseError>(()),
        w.enc() == v.enc() ==> w == v,
{
    let e = v.enc();
    let s0 = start();
    let a = v.sequence_number.enc();
    let b = v.request_content.enc();
    let c = v.certified.enc();
    assert(e == a + (b + c));
    lemma_at_whole(e);
    lemma_at_split(e, s0, a, b + c);
    lemma_read_option_u64(v.sequence_number, e, s0);
    let s1 = adv(s0, a.len() as int);
    lemma_at_split(e, s1, b, c);
    lemma_read_bool(v.request_content, e, s1);
    lemma_read_bool(v.certified, e, adv(s1, 1));
    if w.enc() == v.enc() {
        let wb = w.request_content.enc();
        let wc = w.certified.enc();
        assert(w.enc() == w.sequence_number.enc() + (wb + wc));
        lemma_option_u64_injective(w.sequence_number, v.sequence_number, wb + wc, b + c);
        lemma_bool_injective(w.request_content, v.request_content, wc, c);
        assert(wc + Seq::<u8>::empty() =~= c + Seq::<u8>::empty());
        lemma_bool_injective(w.certified, v.certified, Seq::empty(), Seq::empty());
    }
}

/// A `SystemStateRequest` reads back from its encoding.
pub proof fn lemma_system_state_request_reads_back(v: SystemStateRequest, w: SystemStateRequest)
    ensures
        exact_rec::<SystemStateRequest>(v.enc()) == Ok::<(), ParseError>(()),
        w.enc() == v.enc() ==> w == v,
{
    lemma_at_whole(v.enc());
    lemma_read_bool(v.unused, v.enc(), start());
    if w.enc() == v.enc() {
        assert(w.enc() + Seq::<u8>::empty() =~= v.enc() + Seq::<u8>::empty());
        lemma_bool_injective(w.unused, v.unused, Seq::empty(), Seq::empty());
    }
}

} // verus!
