//! Objects: owners, Move objects and packages.
use vstd::prelude::*;
use crate::base::{ObjectId, SequenceNumber, SuiAddress, TransactionDigest, U64Le, Digest};
use crate::error::ParseError;
use crate::order::{lex_lt, bytes_lt, array_lt, lemma_lex_empty};
use crate::reader::{
    Reader, St, Rec, PR, then, span, done, nested, sp_uleb, sp_bytes, sp_str, sp_byte_vec,
    sp_seq_len, sp_length, lemma_span_join,
};
use crate::wire::{Wire, enc_uleb, enc_seq, enc_bytes, enc_string, sp_records, sp_seq, parse_records, parse_seq};
use crate::execution_status::{rec2, unknown};
use crate::effects::rec4;
use crate::type_tag::{StructTag, TypeTag};

verus! {

broadcast use {Reader::lemma_st_nonneg, lemma_span_join};

#[derive(Clone, PartialEq, Eq, Debug)]
pub enum Owner {
    AddressOwner(SuiAddress),
    ObjectOwner(SuiAddress),
    Shared { initial_shared_version: SequenceNumber },
    Immutable,
    ConsensusAddressOwner { start_version: SequenceNumber, owner: SuiAddress },
    Party(Party),
}

/// Permission bits, member order and duplicates are not checked here.
#[derive(Clone, PartialEq, Eq, Debug)]
pub struct Party {
    pub start_version: SequenceNumber,
    pub default_permissions: u64,
    pub members: Vec<PartyMember>,
}

#[derive(Clone, Copy, PartialEq, Eq, Debug)]
pub struct PartyMember {
    pub address: SuiAddress,
    pub permissions: U64Le,
}

impl Wire for PartyMember {
    open spec fn rec(s: Seq<u8>, st: St) -> Rec {
        sp_bytes(s, st, 40)
    }

    open spec fn enc(self) -> Seq<u8> {
        self.address.0@ + self.permissions.0@
    }

    fn parse(r: &mut Reader) -> (res: Result<PartyMember, ParseError>) {
        let b = r.bytes(40)?;
        let m = PartyMember {
            address: SuiAddress(crate::bytes::array_at::<32>(b, 0)),
            permissions: U64Le(crate::bytes::array_at::<8>(b, 32)),
        };
        assert(m.enc() =~= b@);
        Ok(m)
    }
}

/// The fields after each variant index of `Owner`.
pub open spec fn rec_owner_fields(s: Seq<u8>, st: St, tag: u32) -> Rec {
    if tag == 0 || tag == 1 {
        SuiAddress::rec(s, st)
    } else if tag == 2 {
        u64::rec(s, st)
    } else if tag == 3 {
        Ok(st)
    } else if tag == 4 {
        rec2::<u64, SuiAddress>(s, st)
    } else if tag == 5 {
        then(
            u64::rec(s, st),
            |st1: St|
                nested(
                    st1,
                    |st2: St| then(u64::rec(s, st2), |st3: St| sp_records::<PartyMember>(s, st3, 40)),
                ),
        )
    } else {
        Err(unknown("Owner", tag))
    }
}

impl Owner {
    pub const MIN_WIRE_SIZE: usize = 1;
}

impl Wire for Owner {
    open spec fn rec(s: Seq<u8>, st: St) -> Rec {
        nested(
            st,
            |st1: St|
                match sp_uleb(s, st1) {
                    Ok((tag, st2)) => rec_owner_fields(s, st2, tag),
                    Err(e) => Err(e),
                },
        )
    }

    open spec fn enc(self) -> Seq<u8> {
        match self {
            Owner::AddressOwner(a) => enc_uleb(0) + a.enc(),
            Owner::ObjectOwner(a) => enc_uleb(1) + a.enc(),
            Owner::Shared { initial_shared_version } => enc_uleb(2)
                + initial_shared_version.enc(),
            Owner::Immutable => enc_uleb(3),
            Owner::ConsensusAddressOwner { start_version, owner } => enc_uleb(4)
                + start_version.enc() + owner.enc(),
            Owner::Party(p) => enc_uleb(5) + p.start_version.enc() + p.default_permissions.enc()
                + enc_seq(p.members@),
        }
    }

    /// A party's members within the reader's length limit.
    open spec fn well_formed(self) -> bool {
        crate::accept::legal_owner(self)
    }

    fn parse(r: &mut Reader) -> (res: Result<Owner, ParseError>) {
        r.enter()?;
        let owner = match r.variant()? {
            0 => Owner::AddressOwner(SuiAddress::parse(r)?),
            1 => Owner::ObjectOwner(SuiAddress::parse(r)?),
            2 => Owner::Shared { initial_shared_version: r.u64()? },
            3 => Owner::Immutable,
            4 => {
                let start_version = r.u64()?;
                let owner = SuiAddress::parse(r)?;
                Owner::ConsensusAddressOwner { start_version, owner }
            },
            5 => {
                let start_version = r.u64()?;
                r.enter()?;
                let default_permissions = r.u64()?;
                let members = parse_records::<PartyMember>(r, 40)?;
                r.check();
                r.leave();
                Owner::Party(Party { start_version, default_permissions, members })
            },
            tag => {
                return Err(ParseError::UnknownVariant { ty: "Owner", tag });
            },
        };
        r.check();
        r.leave();
        Ok(owner)
    }
}

impl Owner {
    pub fn parse(r: &mut Reader) -> (res: Result<Owner, ParseError>)
        ensures
            crate::wire::parsed(*old(r), *final(r), res),
    {
        <Owner as Wire>::parse(r)
    }
}

#[derive(PartialEq, Eq, Debug)]
pub enum MoveObjectType {
    Other(StructTag),
    GasCoin,
    StakedSui,
    Coin(TypeTag),
    SuiBalanceAccumulatorField,
    BalanceAccumulatorField(TypeTag),
}

impl Wire for MoveObjectType {
    /// A newtype struct around an enum: two containers.
    open spec fn rec(s: Seq<u8>, st: St) -> Rec {
        nested(
            st,
            |st1: St|
                nested(
                    st1,
                    |st2: St|
                        match sp_uleb(s, st2) {
                            Ok((tag, st3)) => if tag == 0 {
                                StructTag::rec(s, st3)
                            } else if tag == 3 || tag == 5 {
                                TypeTag::rec(s, st3)
                            } else if tag <= 5 {
                                Ok(st3)
                            } else {
                                Err(unknown("MoveObjectType", tag))
                            },
                            Err(e) => Err(e),
                        },
                ),
        )
    }

    open spec fn enc(self) -> Seq<u8> {
        match self {
            MoveObjectType::Other(t) => enc_uleb(0) + t.enc(),
            MoveObjectType::GasCoin => enc_uleb(1),
            MoveObjectType::StakedSui => enc_uleb(2),
            MoveObjectType::Coin(t) => enc_uleb(3) + t.enc(),
            MoveObjectType::SuiBalanceAccumulatorField => enc_uleb(4),
            MoveObjectType::BalanceAccumulatorField(t) => enc_uleb(5) + t.enc(),
        }
    }

    fn parse(r: &mut Reader) -> (res: Result<MoveObjectType, ParseError>) {
        r.enter()?;
        r.enter()?;
        let ty = match r.variant()? {
            0 => MoveObjectType::Other(StructTag::parse(r)?),
            1 => MoveObjectType::GasCoin,
            2 => MoveObjectType::StakedSui,
            3 => MoveObjectType::Coin(TypeTag::parse(r)?),
            4 => MoveObjectType::SuiBalanceAccumulatorField,
            5 => MoveObjectType::BalanceAccumulatorField(TypeTag::parse(r)?),
            tag => {
                return Err(ParseError::UnknownVariant { ty: "MoveObjectType", tag });
            },
        };
        r.check();
        r.leave();
        r.leave();
        Ok(ty)
    }
}

impl MoveObjectType {
    pub fn parse(r: &mut Reader) -> (res: Result<MoveObjectType, ParseError>)
        ensures
            crate::wire::parsed(*old(r), *final(r), res),
    {
        <MoveObjectType as Wire>::parse(r)
    }
}

#[derive(PartialEq, Eq, Debug)]
pub struct MoveObject {
    pub type_: MoveObjectType,
    pub has_public_transfer: bool,
    pub version: SequenceNumber,
    pub contents: Vec<u8>,
}

impl Wire for MoveObject {
    open spec fn rec(s: Seq<u8>, st: St) -> Rec {
        nested(
            st,
            |st1: St|
                then(
                    MoveObjectType::rec(s, st1),
                    |st2: St| then(rec2::<bool, u64>(s, st2), |st3: St| sp_byte_vec(s, st3)),
                ),
        )
    }

    open spec fn enc(self) -> Seq<u8> {
        self.type_.enc() + self.has_public_transfer.enc() + self.version.enc() + enc_bytes(
            self.contents@,
        )
    }

    fn parse(r: &mut Reader) -> (res: Result<MoveObject, ParseError>) {
        r.enter()?;
        let type_ = MoveObjectType::parse(r)?;
        let has_public_transfer = r.bool()?;
        let version = r.u64()?;
        let contents = r.byte_vec_owned()?;
        r.check();
        r.leave();
        Ok(MoveObject { type_, has_public_transfer, version, contents })
    }
}

impl MoveObject {
    pub fn parse(r: &mut Reader) -> (res: Result<MoveObject, ParseError>)
        ensures
            crate::wire::parsed(*old(r), *final(r), res),
    {
        <MoveObject as Wire>::parse(r)
    }
}

#[derive(Clone, PartialEq, Eq, Debug)]
pub struct TypeOrigin {
    pub module_name: String,
    pub datatype_name: String,
    pub package: ObjectId,
}

impl Wire for TypeOrigin {
    open spec fn rec(s: Seq<u8>, st: St) -> Rec {
        nested(
            st,
            |st1: St| then(rec2::<String, String>(s, st1), |st2: St| ObjectId::rec(s, st2)),
        )
    }

    open spec fn enc(self) -> Seq<u8> {
        self.module_name.enc() + self.datatype_name.enc() + self.package.enc()
    }

    fn parse(r: &mut Reader) -> (res: Result<TypeOrigin, ParseError>) {
        r.enter()?;
        let module_name = r.string()?;
        let datatype_name = r.string()?;
        let package = ObjectId::parse(r)?;
        r.check();
        r.leave();
        Ok(TypeOrigin { module_name, datatype_name, package })
    }
}

/// One `linkage_table` entry: the key, then `UpgradeInfo`.
#[derive(Clone, Copy, PartialEq, Eq, Debug)]
pub struct Linkage {
    pub original_id: ObjectId,
    pub upgraded_id: ObjectId,
    pub upgraded_version: U64Le,
}

impl Wire for Linkage {
    open spec fn rec(s: Seq<u8>, st: St) -> Rec {
        sp_bytes(s, st, 72)
    }

    open spec fn enc(self) -> Seq<u8> {
        self.original_id.0@ + self.upgraded_id.0@ + self.upgraded_version.0@
    }

    fn parse(r: &mut Reader) -> (res: Result<Linkage, ParseError>) {
        let b = r.bytes(72)?;
        let l = Linkage {
            original_id: ObjectId(crate::bytes::array_at::<32>(b, 0)),
            upgraded_id: ObjectId(crate::bytes::array_at::<32>(b, 32)),
            upgraded_version: U64Le(crate::bytes::array_at::<8>(b, 64)),
        };
        assert(l.enc() =~= b@);
        Ok(l)
    }
}

/// `n` module map entries, each key strictly after the one before it by
/// its serialized bytes. Gives the last key read.
pub open spec fn rec_modules(s: Seq<u8>, st: St, n: nat) -> PR<Seq<u8>>
    decreases n,
{
    if n == 0 {
        Ok((Seq::empty(), st))
    } else {
        match rec_modules(s, st, (n - 1) as nat) {
            Err(e) => Err(e),
            Ok((prev, st1)) => match sp_str(s, st1) {
                Err(e) => Err(e),
                Ok(st2) => if !lex_lt(prev, span(s, st1, st2)) {
                    Err(ParseError::NonCanonicalMap)
                } else {
                    match sp_byte_vec(s, st2) {
                        Ok(st3) => Ok((span(s, st1, st2), st3)),
                        Err(e) => Err(e),
                    }
                },
            },
        }
    }
}

/// The module map: a length, then the entries.
pub open spec fn rec_module_map(s: Seq<u8>, st: St) -> Rec {
    match sp_seq_len(s, st, 2) {
        Ok((n, st1)) => match rec_modules(s, st1, n as nat) {
            Ok((_, st2)) => Ok(st2),
            Err(e) => Err(e),
        },
        Err(e) => Err(e),
    }
}

pub open spec fn enc_modules(v: Seq<(String, Vec<u8>)>) -> Seq<u8>
    decreases v.len(),
{
    if v.len() == 0 {
        Seq::empty()
    } else {
        enc_modules(v.drop_last()) + enc_string(v.last().0) + enc_bytes(v.last().1@)
    }
}

/// `n` linkage entries, each original id strictly after the one before.
pub open spec fn rec_links(s: Seq<u8>, st: St, n: nat) -> PR<Seq<u8>>
    decreases n,
{
    if n == 0 {
        Ok((Seq::empty(), st))
    } else {
        match rec_links(s, st, (n - 1) as nat) {
            Err(e) => Err(e),
            Ok((prev, st1)) => match sp_bytes(s, st1, 72) {
                Err(e) => Err(e),
                Ok(st2) => if lex_lt(prev, s.subrange(st1.pos, st1.pos + 32)) {
                    Ok((s.subrange(st1.pos, st1.pos + 32), st2))
                } else {
                    Err(ParseError::NonCanonicalMap)
                },
            },
        }
    }
}

/// The linkage table: a length, all its bytes present, then the order.
pub open spec fn rec_linkage(s: Seq<u8>, st: St) -> Rec {
    match sp_length(s, st) {
        Ok((n, st1)) => if n * 72 > s.len() - st1.pos {
            Err(ParseError::UnexpectedEof)
        } else {
            match rec_links(s, st1, n as nat) {
                Ok((_, st2)) => Ok(st2),
                Err(e) => Err(e),
            }
        },
        Err(e) => Err(e),
    }
}

#[derive(Clone, PartialEq, Eq, Debug)]
pub struct MovePackage {
    pub id: ObjectId,
    pub version: SequenceNumber,
    /// Module name to bytecode, in increasing order of serialized name.
    pub module_map: Vec<(String, Vec<u8>)>,
    pub type_origin_table: Vec<TypeOrigin>,
    /// In increasing order of `original_id`.
    pub linkage_table: Vec<Linkage>,
}

/// Each entry is at least two length bytes.
fn parse_module_map(r: &mut Reader) -> (res: Result<Vec<(String, Vec<u8>)>, ParseError>)
    ensures
        final(r).data() == old(r).data(),
        done(old(r).st(), rec_module_map(old(r).data(), old(r).st()), res, final(r).st()),
        res matches Ok(v) ==> enc_uleb(v@.len() as u32) + enc_modules(v@) == span(
            old(r).data(),
            old(r).st(),
            final(r).st(),
        ),
{
    let ghost s = r.data();
    let ghost st0 = r.st();
    let n = r.seq_len(2)?;
    r.check();
    let ghost st1 = r.st();
    let mut out: Vec<(String, Vec<u8>)> = Vec::new();
    let mut prev: Option<&[u8]> = None;
    let mut i: usize = 0;
    assert(enc_modules(out@) =~= span(s, st1, st1));
    while i < n
        invariant
            r.data() == s,
            s == old(r).data(),
            st0 == old(r).st(),
            sp_seq_len(s, st0, 2) == Ok::<(u32, St), ParseError>((n as u32, st1)),
            n <= crate::reader::MAX_SEQUENCE_LENGTH,
            i <= n,
            rec_modules(s, st1, i as nat) == Ok::<(Seq<u8>, St), ParseError>(
                (
                    match prev {
                        Some(p) => p@,
                        None => Seq::empty(),
                    },
                    r.st(),
                ),
            ),
            i == 0 <==> prev is None,
            r.st().depth == st0.depth,
            0 <= st0.pos <= st1.pos <= r.st().pos <= s.len(),
            out@.len() == i,
            enc_modules(out@) == span(s, st1, r.st()),
            enc_uleb(n as u32) == span(s, st0, st1),
        decreases n - i,
    {
        let ghost cur = r.st();
        let key_start = r.pos();
        let name = match r.string() {
            Ok(name) => name,
            Err(e) => {
                proof {
                    lemma_modules_err(s, st1, (i + 1) as nat, n as nat, e);
                }
                return Err(e);
            },
        };
        let key = r.span(key_start);
        let ghost mid = r.st();
        proof {
            if prev is None {
                lemma_lex_empty(key@);
            }
        }
        let ordered = match prev {
            Some(p) => bytes_lt(p, key),
            None => true,
        };
        if !ordered {
            proof {
                lemma_modules_err(s, st1, (i + 1) as nat, n as nat, ParseError::NonCanonicalMap);
            }
            return Err(ParseError::NonCanonicalMap);
        }
        prev = Some(key);
        let code = match r.byte_vec_owned() {
            Ok(code) => code,
            Err(e) => {
                proof {
                    lemma_modules_err(s, st1, (i + 1) as nat, n as nat, e);
                }
                return Err(e);
            },
        };
        r.check();
        proof {
            assert(out@.push((name, code)).drop_last() =~= out@);
        }
        out.push((name, code));
        i = i + 1;
    }
    Ok(out)
}

pub proof fn lemma_modules_err(s: Seq<u8>, st: St, i: nat, n: nat, e: ParseError)
    requires
        i <= n,
        rec_modules(s, st, i) == Err::<(Seq<u8>, St), ParseError>(e),
    ensures
        rec_modules(s, st, n) == Err::<(Seq<u8>, St), ParseError>(e),
    decreases n - i,
{
    if i < n {
        lemma_modules_err(s, st, i, (n - 1) as nat, e);
    }
}

pub proof fn lemma_links_err(s: Seq<u8>, st: St, i: nat, n: nat, e: ParseError)
    requires
        i <= n,
        rec_links(s, st, i) == Err::<(Seq<u8>, St), ParseError>(e),
    ensures
        rec_links(s, st, n) == Err::<(Seq<u8>, St), ParseError>(e),
    decreases n - i,
{
    if i < n {
        lemma_links_err(s, st, i, (n - 1) as nat, e);
    }
}

/// The linkage table, whose original ids must strictly increase.
fn parse_linkage(r: &mut Reader) -> (res: Result<Vec<Linkage>, ParseError>)
    ensures
        final(r).data() == old(r).data(),
        done(old(r).st(), rec_linkage(old(r).data(), old(r).st()), res, final(r).st()),
        res matches Ok(v) ==> enc_seq(v@) == span(old(r).data(), old(r).st(), final(r).st()),
{
    let ghost s = r.data();
    let ghost st0 = r.st();
    let n = r.length()?;
    r.check();
    let ghost st1 = r.st();
    match n.checked_mul(72) {
        Some(total) => {
            if total > r.remaining() {
                return Err(ParseError::UnexpectedEof);
            }
        },
        None => {
            return Err(ParseError::UnexpectedEof);
        },
    }
    let mut out: Vec<Linkage> = Vec::new();
    let mut i: usize = 0;
    assert(crate::wire::enc_all(out@) =~= span(s, st1, st1));
    while i < n
        invariant
            r.data() == s,
            s == old(r).data(),
            st0 == old(r).st(),
            crate::reader::sp_length(s, st0) == Ok::<(u32, St), ParseError>((n as u32, st1)),
            n <= crate::reader::MAX_SEQUENCE_LENGTH,
            n * 72 <= s.len() - st1.pos,
            i <= n,
            rec_links(s, st1, i as nat) == Ok::<(Seq<u8>, St), ParseError>(
                (
                    if i == 0 {
                        Seq::empty()
                    } else {
                        out@[i - 1].original_id.0@
                    },
                    r.st(),
                ),
            ),
            r.st().pos == st1.pos + 72 * i,
            r.st().depth == st0.depth,
            0 <= st0.pos <= st1.pos <= r.st().pos <= s.len(),
            out@.len() == i,
            crate::wire::enc_all(out@) == span(s, st1, r.st()),
            enc_uleb(n as u32) == span(s, st0, st1),
        decreases n - i,
    {
        let ghost cur = r.st();
        let l = Linkage::parse(r)?;
        r.check();
        proof {
            assert(l.original_id.0@ =~= s.subrange(cur.pos, cur.pos + 32));
            if i == 0 {
                lemma_lex_empty(l.original_id.0@);
            }
        }
        if i > 0 {
            if !array_lt(&out[i - 1].original_id.0, &l.original_id.0) {
                proof {
                    lemma_links_err(s, st1, (i + 1) as nat, n as nat, ParseError::NonCanonicalMap);
                }
                return Err(ParseError::NonCanonicalMap);
            }
        }
        proof {
            crate::wire::lemma_enc_all_push(out@, l);
        }
        out.push(l);
        i = i + 1;
    }
    Ok(out)
}

impl Wire for MovePackage {
    open spec fn rec(s: Seq<u8>, st: St) -> Rec {
        nested(
            st,
            |st1: St|
                then(
                    rec2::<ObjectId, u64>(s, st1),
                    |st2: St|
                        then(
                            rec_module_map(s, st2),
                            |st3: St|
                                then(
                                    sp_seq::<TypeOrigin>(s, st3, 34),
                                    |st4: St| rec_linkage(s, st4),
                                ),
                        ),
                ),
        )
    }

    open spec fn enc(self) -> Seq<u8> {
        self.id.enc() + self.version.enc() + enc_uleb(self.module_map@.len() as u32) + enc_modules(
            self.module_map@,
        ) + enc_seq(self.type_origin_table@) + enc_seq(self.linkage_table@)
    }

    #[verifier::rlimit(40)]
    fn parse(r: &mut Reader) -> (res: Result<MovePackage, ParseError>) {
        let ghost s = r.data();
        let ghost st0 = r.st();
        r.enter()?;
        let ghost st1 = r.st();
        let id = ObjectId::parse(r)?;
        let version = r.u64()?;
        let ghost st2 = r.st();
        let module_map = parse_module_map(r)?;
        let ghost st3 = r.st();
        let type_origin_table = parse_seq::<TypeOrigin>(r, 2 + ObjectId::LENGTH)?;
        let ghost st4 = r.st();
        let linkage_table = parse_linkage(r)?;
        r.check();
        let ghost st5 = r.st();
        proof {
            assert(rec2::<ObjectId, u64>(s, st1) == Ok::<St, ParseError>(st2));
            assert(span(s, st1, st5) == span(s, st1, st2) + span(s, st2, st3) + span(s, st3, st4)
                + span(s, st4, st5));
        }
        r.leave();
        Ok(MovePackage { id, version, module_map, type_origin_table, linkage_table })
    }
}

impl MovePackage {
    pub fn parse(r: &mut Reader) -> (res: Result<MovePackage, ParseError>)
        ensures
            crate::wire::parsed(*old(r), *final(r), res),
    {
        <MovePackage as Wire>::parse(r)
    }
}

#[derive(PartialEq, Eq, Debug)]
pub enum Data {
    Move(MoveObject),
    Package(MovePackage),
}

impl Wire for Data {
    open spec fn rec(s: Seq<u8>, st: St) -> Rec {
        nested(
            st,
            |st1: St|
                match sp_uleb(s, st1) {
                    Ok((tag, st2)) => if tag == 0 {
                        MoveObject::rec(s, st2)
                    } else if tag == 1 {
                        MovePackage::rec(s, st2)
                    } else {
                        Err(unknown("Data", tag))
                    },
                    Err(e) => Err(e),
                },
        )
    }

    open spec fn enc(self) -> Seq<u8> {
        match self {
            Data::Move(o) => enc_uleb(0) + o.enc(),
            Data::Package(p) => enc_uleb(1) + p.enc(),
        }
    }

    fn parse(r: &mut Reader) -> (res: Result<Data, ParseError>) {
        r.enter()?;
        let data = match r.variant()? {
            0 => Data::Move(MoveObject::parse(r)?),
            1 => Data::Package(MovePackage::parse(r)?),
            tag => {
                return Err(ParseError::UnknownVariant { ty: "Data", tag });
            },
        };
        r.check();
        r.leave();
        Ok(data)
    }
}

impl Data {
    pub fn parse(r: &mut Reader) -> (res: Result<Data, ParseError>)
        ensures
            crate::wire::parsed(*old(r), *final(r), res),
    {
        <Data as Wire>::parse(r)
    }
}

#[derive(PartialEq, Eq, Debug)]
pub struct Object {
    /// The exact encoding, which is what gets hashed.
    pub bytes: Vec<u8>,
    pub data: Data,
    pub owner: Owner,
    pub previous_transaction: TransactionDigest,
    pub storage_rebate: u64,
}

impl Object {
    /// A `GasCoin` `MoveObject` with empty contents, an `Immutable` owner, a
    /// digest and a rebate.
    pub const MIN_WIRE_SIZE: usize = 54;

    pub fn parse_vec(r: &mut Reader) -> (res: Result<Vec<Object>, ParseError>)
        ensures
            final(r).data() == old(r).data(),
            done(
                old(r).st(),
                sp_seq::<Object>(old(r).data(), old(r).st(), Object::MIN_WIRE_SIZE as int),
                res,
                final(r).st(),
            ),
            res matches Ok(v) ==> enc_seq(v@) == span(old(r).data(), old(r).st(), final(r).st()),
    {
        parse_seq::<Object>(r, Object::MIN_WIRE_SIZE)
    }
}

impl Wire for Object {
    open spec fn rec(s: Seq<u8>, st: St) -> Rec {
        nested(st, |st1: St| rec4::<Data, Owner, Digest, u64>(s, st1))
    }

    open spec fn enc(self) -> Seq<u8> {
        self.data.enc() + self.owner.enc() + self.previous_transaction.enc()
            + self.storage_rebate.enc()
    }

    fn parse(r: &mut Reader) -> (res: Result<Object, ParseError>)
        ensures
            res matches Ok(v) ==> v.bytes@ == v.enc(),
    {
        let start = r.pos();
        r.enter()?;
        let data = Data::parse(r)?;
        let owner = Owner::parse(r)?;
        let previous_transaction = Digest::parse(r)?;
        let storage_rebate = r.u64()?;
        r.check();
        r.leave();
        let bytes = vstd::slice::slice_to_vec(r.span(start));
        Ok(Object { bytes, data, owner, previous_transaction, storage_rebate })
    }
}

impl Object {
    pub fn parse(r: &mut Reader) -> (res: Result<Object, ParseError>)
        ensures
            crate::wire::parsed(*old(r), *final(r), res),
            res matches Ok(v) ==> v.bytes@ == v.enc(),
    {
        <Object as Wire>::parse(r)
    }
}

/// `GenesisObject::RawObject`, the only variant.
#[derive(PartialEq, Eq, Debug)]
pub struct GenesisObject {
    pub data: Data,
    pub owner: Owner,
}

impl GenesisObject {
    pub const MIN_WIRE_SIZE: usize = 14;
}

impl Wire for GenesisObject {
    open spec fn rec(s: Seq<u8>, st: St) -> Rec {
        nested(
            st,
            |st1: St|
                match sp_uleb(s, st1) {
                    Ok((tag, st2)) => if tag == 0 {
                        rec2::<Data, Owner>(s, st2)
                    } else {
                        Err(unknown("GenesisObject", tag))
                    },
                    Err(e) => Err(e),
                },
        )
    }

    open spec fn enc(self) -> Seq<u8> {
        enc_uleb(0) + self.data.enc() + self.owner.enc()
    }

    fn parse(r: &mut Reader) -> (res: Result<GenesisObject, ParseError>) {
        r.enter()?;
        let object = match r.variant()? {
            0 => {
                let data = Data::parse(r)?;
                let owner = Owner::parse(r)?;
                GenesisObject { data, owner }
            },
            tag => {
                return Err(ParseError::UnknownVariant { ty: "GenesisObject", tag });
            },
        };
        r.check();
        r.leave();
        Ok(object)
    }
}

impl GenesisObject {
    pub fn parse(r: &mut Reader) -> (res: Result<GenesisObject, ParseError>)
        ensures
            crate::wire::parsed(*old(r), *final(r), res),
    {
        <GenesisObject as Wire>::parse(r)
    }
}

} // verus!
