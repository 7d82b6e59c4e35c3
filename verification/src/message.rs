//! A parsed message together with the bytes it was parsed from.
use vstd::prelude::*;
use crate::base::Digest;
use crate::error::ParseError;
use crate::reader::{Reader, St, span};
use crate::transaction::{SenderSignedData, TransactionData};
use crate::wire::Wire;
use crate::readback::lemma_array_eq;
use crate::order::{lex_lt, array_lt, lemma_lex_total, lemma_lex_irreflexive, lemma_lex_trans};
use std::cmp::Ordering;

verus! {

/// Where every parse of a whole buffer starts.
pub open spec fn start() -> St {
    St { pos: 0, depth: 0, tags: 0 }
}

/// The outcome of parsing all of `s` as one `T`: the recognizer's error,
/// or trailing bytes when it stops short of the end.
pub open spec fn exact_rec<T: Wire>(s: Seq<u8>) -> Result<(), ParseError> {
    match T::rec(s, start()) {
        Ok(st) => if st.pos == s.len() {
            Ok(())
        } else {
            Err(ParseError::TrailingBytes)
        },
        Err(e) => Err(e),
    }
}

/// Parses a whole buffer as `T`, rejecting trailing bytes.
pub fn parse_exact<T: Wire>(buf: &[u8]) -> (res: Result<T, ParseError>)
    ensures
        match exact_rec::<T>(buf@) {
            Ok(()) => res matches Ok(v) && v.enc() == buf@ && v.well_formed(),
            Err(e) => res == Err::<T, ParseError>(e),
        },
{
    let mut r = Reader::new(buf);
    let v = T::parse(&mut r)?;
    r.check();
    r.finish()?;
    proof {
        assert(span(buf@, start(), r.st()) =~= buf@);
    }
    Ok(v)
}

/// The bytes of one message as read off the wire.
pub struct WireBuf(Vec<u8>);

impl WireBuf {
    pub closed spec fn view(&self) -> Seq<u8> {
        self.0@
    }

    pub fn from_vec(v: Vec<u8>) -> (w: WireBuf)
        ensures
            w.view() == v@,
    {
        WireBuf(v)
    }

    pub fn as_slice(&self) -> (b: &[u8])
        ensures
            b@ == self.view(),
    {
        self.0.as_slice()
    }

    pub fn into_vec(self) -> (v: Vec<u8>)
        ensures
            v@ == self.view(),
    {
        self.0
    }
}

/// A parsed `T` and the bytes it was parsed from.
pub struct Message<T: Wire> {
    view: T,
    wire: Vec<u8>,
}

impl<T: Wire> Message<T> {
    /// The parsed value.
    pub closed spec fn value(&self) -> T {
        self.view
    }

    /// The bytes it was parsed from.
    pub closed spec fn wire(&self) -> Seq<u8> {
        self.wire@
    }

    /// Parses `wire` as exactly one `T`. On failure the buffer is handed
    /// back with the error.
    pub fn parse(wire: Vec<u8>) -> (res: Result<Message<T>, (ParseError, Vec<u8>)>)
        ensures
            match exact_rec::<T>(wire@) {
                Ok(()) => res matches Ok(m) && m.wire() == wire@ && m.value().enc() == wire@
                    && m.value().well_formed(),
                Err(e) => res matches Err((e2, w)) && e2 == e && w@ == wire@,
            },
    {
        match parse_exact::<T>(wire.as_slice()) {
            Ok(view) => Ok(Message { view, wire }),
            Err(e) => Err((e, wire)),
        }
    }

    /// The same as `parse`: values are owned here, so there is no arena
    /// whose size a second pass would have to check.
    pub fn parse_exact(wire: Vec<u8>) -> (res: Result<Message<T>, (ParseError, Vec<u8>)>)
        ensures
            match exact_rec::<T>(wire@) {
                Ok(()) => res matches Ok(m) && m.wire() == wire@ && m.value().enc() == wire@
                    && m.value().well_formed(),
                Err(e) => res matches Err((e2, w)) && e2 == e && w@ == wire@,
            },
    {
        Message::<T>::parse(wire)
    }

    pub fn get(&self) -> (v: &T)
        ensures
            *v == self.value(),
    {
        &self.view
    }

    pub fn wire_bytes(&self) -> (b: &[u8])
        ensures
            b@ == self.wire(),
    {
        self.wire.as_slice()
    }
}

/// A message type Sui identifies by a digest of its bytes.
pub trait Digested {
    fn digest(&self) -> &Digest;
}

impl Digested for TransactionData {
    /// The digest computed from the bytes while parsing.
    fn digest(&self) -> (d: &Digest)
        ensures
            *d == self.digest,
    {
        &self.digest
    }
}

impl Digested for SenderSignedData {
    /// The transaction digest: that of the `TransactionData`.
    fn digest(&self) -> (d: &Digest)
        ensures
            *d == self.data.digest,
    {
        &self.data.digest
    }
}

impl Message<TransactionData> {
    /// The transaction digest.
    pub fn digest(&self) -> (d: &Digest)
        ensures
            *d == self.value().digest,
    {
        &self.view.digest
    }
}

impl Message<SenderSignedData> {
    /// The transaction digest: that of the `TransactionData`.
    pub fn digest(&self) -> (d: &Digest)
        ensures
            *d == self.value().data.digest,
    {
        &self.view.data.digest
    }
}

/// Whether two digests are the same bytes.
pub fn same_digest(a: &Digest, b: &Digest) -> (r: bool)
    ensures
        r == (*a == *b),
{
    let mut i: usize = 0;
    while i < 32
        invariant
            i <= 32,
            forall|j: int| 0 <= j < i ==> a.bytes@[j] == b.bytes@[j],
        decreases 32 - i,
    {
        if a.bytes[i] != b.bytes[i] {
            return false;
        }
        i = i + 1;
    }
    proof {
        assert(a.bytes@ =~= b.bytes@);
        lemma_array_eq(a.bytes, b.bytes);
    }
    true
}

// Two digested messages are equal when their digests are.

impl PartialEq for Message<TransactionData> {
    fn eq(&self, other: &Self) -> (r: bool) {
        same_digest(self.digest(), other.digest())
    }
}

impl vstd::std_specs::cmp::PartialEqSpecImpl for Message<TransactionData> {
    open spec fn obeys_eq_spec() -> bool {
        true
    }

    open spec fn eq_spec(&self, other: &Self) -> bool {
        self.value().digest == other.value().digest
    }
}

impl Eq for Message<TransactionData> {
}

impl PartialEq for Message<SenderSignedData> {
    fn eq(&self, other: &Self) -> (r: bool) {
        same_digest(self.digest(), other.digest())
    }
}

impl vstd::std_specs::cmp::PartialEqSpecImpl for Message<SenderSignedData> {
    open spec fn obeys_eq_spec() -> bool {
        true
    }

    open spec fn eq_spec(&self, other: &Self) -> bool {
        self.value().data.digest == other.value().data.digest
    }
}

impl Eq for Message<SenderSignedData> {
}

/// The order of two digests: that of their bytes.
pub open spec fn digest_order(a: Digest, b: Digest) -> Ordering {
    if a == b {
        Ordering::Equal
    } else if lex_lt(a.bytes@, b.bytes@) {
        Ordering::Less
    } else {
        Ordering::Greater
    }
}

/// Compares two digests by their bytes.
pub fn compare_digests(a: &Digest, b: &Digest) -> (o: Ordering)
    ensures
        o == digest_order(*a, *b),
{
    if same_digest(a, b) {
        Ordering::Equal
    } else if array_lt(&a.bytes, &b.bytes) {
        Ordering::Less
    } else {
        Ordering::Greater
    }
}

// Digested messages are ordered by their digests.

impl PartialOrd for Message<TransactionData> {
    fn partial_cmp(&self, other: &Self) -> (o: Option<Ordering>) {
        Some(compare_digests(self.digest(), other.digest()))
    }
}

impl vstd::std_specs::cmp::PartialOrdSpecImpl for Message<TransactionData> {
    open spec fn obeys_partial_cmp_spec() -> bool {
        true
    }

    open spec fn partial_cmp_spec(&self, other: &Self) -> Option<Ordering> {
        Some(digest_order(self.value().digest, other.value().digest))
    }
}

impl PartialOrd for Message<SenderSignedData> {
    fn partial_cmp(&self, other: &Self) -> (o: Option<Ordering>) {
        Some(compare_digests(self.digest(), other.digest()))
    }
}

impl vstd::std_specs::cmp::PartialOrdSpecImpl for Message<SenderSignedData> {
    open spec fn obeys_partial_cmp_spec() -> bool {
        true
    }

    open spec fn partial_cmp_spec(&self, other: &Self) -> Option<Ordering> {
        Some(digest_order(self.value().data.digest, other.value().data.digest))
    }
}

/// Digests are totally ordered by their bytes: equal exactly when the
/// same, each pair ordered one way round, and the order transitive. So the
/// order of digested messages agrees with their equality.
pub proof fn lemma_digest_order(a: Digest, b: Digest, c: Digest)
    ensures
        (digest_order(a, b) == Ordering::Equal) == (a == b),
        (digest_order(a, b) == Ordering::Less) == (digest_order(b, a) == Ordering::Greater),
        digest_order(a, b) == Ordering::Less && digest_order(b, c) == Ordering::Less
            ==> digest_order(a, c) == Ordering::Less,
{
    lemma_lex_total(a.bytes@, b.bytes@);
    lemma_lex_total(b.bytes@, c.bytes@);
    lemma_lex_total(a.bytes@, c.bytes@);
    if a.bytes@ == b.bytes@ {
        lemma_array_eq(a.bytes, b.bytes);
    }
    if b.bytes@ == c.bytes@ {
        lemma_array_eq(b.bytes, c.bytes);
    }
    if a.bytes@ == c.bytes@ {
        lemma_array_eq(a.bytes, c.bytes);
    }
    if lex_lt(a.bytes@, b.bytes@) && lex_lt(b.bytes@, a.bytes@) {
        lemma_lex_trans(a.bytes@, b.bytes@, a.bytes@);
        lemma_lex_irreflexive(a.bytes@);
    }
    if lex_lt(a.bytes@, b.bytes@) && lex_lt(b.bytes@, c.bytes@) {
        lemma_lex_trans(a.bytes@, b.bytes@, c.bytes@);
        if a == c {
            lemma_lex_trans(a.bytes@, b.bytes@, a.bytes@);
            lemma_lex_irreflexive(a.bytes@);
        }
    }
}

} // verus!
