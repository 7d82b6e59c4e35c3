//! An execution error reads back as the error that was written: its
//! recognizer accepts the encoding whole, and no other error has that
//! encoding. Strings and vectors inside an error are compared by their
//! views.
use vstd::prelude::*;
use crate::accept::lemma_reads_string;
use crate::accept_effects::{
    legal_error, legal_location, legal_upgrade_error, error_tag, lemma_reads_error,
};
use crate::base::ObjectId;
use crate::error::ParseError;
use crate::execution_status::{
    CommandArgumentError, ExecutionErrorKind, MoveLocation, PackageUpgradeError, TypeArgumentError,
    unknown,
};
use crate::message::{exact_rec, start};
use crate::reader::{St, sp_uleb, MAX_SEQUENCE_LENGTH};
use crate::readback::{
    reads, at, room, ok_past, lemma_at_whole, lemma_cat_cancel, lemma_array_eq, lemma_u64_injective,
    lemma_bytes_read_back, lemma_seq_prefix_eq, lemma_records_eq,
};
use crate::wire::{Wire, enc_uleb, enc_u16, enc_seq, encode_utf8};
use crate::fast::fits_error;

verus! {

/// Of two values that read back, neither encoding is a proper prefix of
/// the other: where one encoding followed by `x` is the other followed by
/// `y`, the encodings are the same, and so is what follows them.
pub proof fn lemma_prefix_free<T: Wire>(a: T, b: T, x: Seq<u8>, y: Seq<u8>)
    requires
        reads(a, 0),
        reads(b, 0),
        a.enc() + x == b.enc() + y,
    ensures
        a.enc() == b.enc(),
        x == y,
{
    let s = a.enc() + x;
    let st = start();
    assert(s.subrange(0, a.enc().len() as int) =~= a.enc());
    assert((b.enc() + y).subrange(0, b.enc().len() as int) =~= b.enc());
    assert(at(s, st, a.enc()));
    assert(at(s, st, b.enc()));
    assert(room(st, 0));
    let r = T::rec(s, st);
    assert(ok_past(r, st, a.enc().len() as int));
    assert(ok_past(r, st, b.enc().len() as int));
    lemma_cat_cancel(a.enc(), x, b.enc(), y);
}

/// A one-byte variant index and what follows it: two such encodings agree
/// only where the indices agree and what follows them does.
proof fn lemma_tagged(t: u32, x: Seq<u8>, u: u32, y: Seq<u8>)
    requires
        t < 128,
        u < 128,
        enc_uleb(t) + x == enc_uleb(u) + y,
    ensures
        t == u,
        x == y,
{
    reveal_with_fuel(enc_uleb, 1);
    assert((enc_uleb(t) + x)[0] == t as u8);
    assert((enc_uleb(u) + y)[0] == u as u8);
    lemma_cat_cancel(enc_uleb(t), x, enc_uleb(u), y);
}

pub proof fn lemma_u16_injective(a: u16, b: u16)
    requires
        enc_u16(a) == enc_u16(b),
    ensures
        a == b,
{
    assert(enc_u16(a)[0] == enc_u16(b)[0]);
    assert(enc_u16(a)[1] == enc_u16(b)[1]);
    assert(a == b) by (bit_vector)
        requires
            a as u8 == b as u8,
            (a >> 8u16) as u8 == (b >> 8u16) as u8,
    ;
}

/// Strings with the same encoding are the same text.
pub proof fn lemma_string_injective(a: String, b: String)
    requires
        encode_utf8(a@).len() <= MAX_SEQUENCE_LENGTH,
        a.enc() == b.enc(),
    ensures
        a@ == b@,
{
    lemma_bytes_read_back(encode_utf8(a@), encode_utf8(b@));
    vstd::utf8::encode_utf8_decode_utf8(a@);
    vstd::utf8::encode_utf8_decode_utf8(b@);
}

/// Two optional names compared by their text.
pub open spec fn same_name(a: Option<String>, b: Option<String>) -> bool {
    match (a, b) {
        (Some(x), Some(y)) => x@ == y@,
        (None, None) => true,
        _ => false,
    }
}

/// Two locations compared by value, names by their text.
pub open spec fn same_location(a: MoveLocation, b: MoveLocation) -> bool {
    &&& a.module.address == b.module.address
    &&& a.module.name@ == b.module.name@
    &&& a.function == b.function
    &&& a.instruction == b.instruction
    &&& same_name(a.function_name, b.function_name)
}

/// Two upgrade errors compared by value, a digest by its bytes.
pub open spec fn same_upgrade_error(a: PackageUpgradeError, b: PackageUpgradeError) -> bool {
    match (a, b) {
        (
            PackageUpgradeError::DigestDoesNotMatch { digest: x },
            PackageUpgradeError::DigestDoesNotMatch { digest: y },
        ) => x@ == y@,
        _ => a == b,
    }
}

/// Two error kinds compared by value: strings by their text, vectors by
/// their elements.
pub open spec fn same_error(a: ExecutionErrorKind, b: ExecutionErrorKind) -> bool {
    match (a, b) {
        (
            ExecutionErrorKind::MovePrimitiveRuntimeError(Some(p)),
            ExecutionErrorKind::MovePrimitiveRuntimeError(Some(q)),
        ) => same_location(p, q),
        (ExecutionErrorKind::MoveAbort(p, c), ExecutionErrorKind::MoveAbort(q, d)) => same_location(p, q)
            && c == d,
        (
            ExecutionErrorKind::PackageUpgradeError { upgrade_error: p },
            ExecutionErrorKind::PackageUpgradeError { upgrade_error: q },
        ) => same_upgrade_error(p, q),
        (
            ExecutionErrorKind::ExecutionCancelledDueToSharedObjectCongestion { congested_objects: p },
            ExecutionErrorKind::ExecutionCancelledDueToSharedObjectCongestion { congested_objects: q },
        ) => p@ == q@,
        (
            ExecutionErrorKind::AddressDeniedForCoin { address: p, coin_type: t },
            ExecutionErrorKind::AddressDeniedForCoin { address: q, coin_type: u },
        ) => p == q && t@ == u@,
        (
            ExecutionErrorKind::CoinTypeGlobalPause { coin_type: t },
            ExecutionErrorKind::CoinTypeGlobalPause { coin_type: u },
        ) => t@ == u@,
        _ => a == b,
    }
}

/// Optional names with the same encoding, followed by the same bytes, are
/// the same names.
proof fn lemma_name_injective(a: Option<String>, b: Option<String>)
    requires
        a matches Some(n) ==> encode_utf8(n@).len() <= MAX_SEQUENCE_LENGTH,
        a.enc() == b.enc(),
    ensures
        same_name(a, b),
{
    assert(a.enc()[0] == b.enc()[0]);
    match (a, b) {
        (Some(x), Some(y)) => {
            lemma_cat_cancel(seq![1u8], x.enc(), seq![1u8], y.enc());
            lemma_string_injective(x, y);
        },
        (Some(x), None) => {
            assert(a.enc()[0] == 1u8);
        },
        (None, Some(y)) => {
            assert(b.enc()[0] == 1u8);
        },
        (None, None) => {},
    }
}

/// Locations with the same encoding are the same location.
pub proof fn lemma_location_injective(a: MoveLocation, b: MoveLocation)
    requires
        legal_location(a),
        legal_location(b),
        a.enc() == b.enc(),
    ensures
        same_location(a, b),
{
    let ra = a.function.enc() + a.instruction.enc() + a.function_name.enc();
    let rb = b.function.enc() + b.instruction.enc() + b.function_name.enc();
    assert(a.enc() =~= a.module.address.enc() + (a.module.name.enc() + ra));
    assert(b.enc() =~= b.module.address.enc() + (b.module.name.enc() + rb));
    lemma_cat_cancel(a.module.address.enc(), a.module.name.enc() + ra, b.module.address.enc(), b.module.name.enc() + rb);
    lemma_array_eq(a.module.address.0, b.module.address.0);
    lemma_reads_string(a.module.name);
    lemma_reads_string(b.module.name);
    lemma_prefix_free(a.module.name, b.module.name, ra, rb);
    lemma_string_injective(a.module.name, b.module.name);
    assert(ra =~= a.function.enc() + (a.instruction.enc() + a.function_name.enc()));
    assert(rb =~= b.function.enc() + (b.instruction.enc() + b.function_name.enc()));
    lemma_cat_cancel(
        a.function.enc(),
        a.instruction.enc() + a.function_name.enc(),
        b.function.enc(),
        b.instruction.enc() + b.function_name.enc(),
    );
    lemma_cat_cancel(a.instruction.enc(), a.function_name.enc(), b.instruction.enc(), b.function_name.enc());
    lemma_u16_injective(a.function, b.function);
    lemma_u16_injective(a.instruction, b.instruction);
    lemma_name_injective(a.function_name, b.function_name);
}

/// The variant index of an upgrade error.
pub open spec fn upgrade_tag(e: PackageUpgradeError) -> u8 {
    match e {
        PackageUpgradeError::UnableToFetchPackage { .. } => 0,
        PackageUpgradeError::NotAPackage { .. } => 1,
        PackageUpgradeError::IncompatibleUpgrade => 2,
        PackageUpgradeError::DigestDoesNotMatch { .. } => 3,
        PackageUpgradeError::UnknownUpgradePolicy { .. } => 4,
        PackageUpgradeError::PackageIDDoesNotMatch { .. } => 5,
    }
}

proof fn lemma_upgrade_first(e: PackageUpgradeError)
    ensures
        e.enc().len() >= 1,
        e.enc()[0] == upgrade_tag(e),
{
    reveal_with_fuel(enc_uleb, 1);
    match e {
        PackageUpgradeError::UnableToFetchPackage { package_id } => {
            assert((enc_uleb(0) + package_id.enc())[0] == enc_uleb(0)[0]);
        },
        PackageUpgradeError::NotAPackage { object_id } => {
            assert((enc_uleb(1) + object_id.enc())[0] == enc_uleb(1)[0]);
        },
        PackageUpgradeError::IncompatibleUpgrade => {},
        PackageUpgradeError::DigestDoesNotMatch { digest } => {
            assert((enc_uleb(3) + digest.enc())[0] == enc_uleb(3)[0]);
        },
        PackageUpgradeError::UnknownUpgradePolicy { policy } => {
            assert((enc_uleb(4) + policy.enc())[0] == enc_uleb(4)[0]);
        },
        PackageUpgradeError::PackageIDDoesNotMatch { package_id, ticket_id } => {
            assert((enc_uleb(5) + package_id.enc() + ticket_id.enc())[0] == enc_uleb(5)[0]);
        },
    }
}

/// Upgrade errors with the same encoding are the same error.
pub proof fn lemma_upgrade_error_injective(a: PackageUpgradeError, b: PackageUpgradeError)
    requires
        legal_upgrade_error(a),
        a.enc() == b.enc(),
    ensures
        same_upgrade_error(a, b),
{
    reveal_with_fuel(enc_uleb, 1);
    lemma_upgrade_first(a);
    lemma_upgrade_first(b);
    assert(upgrade_tag(a) == upgrade_tag(b));
    match (a, b) {
        (
            PackageUpgradeError::UnableToFetchPackage { package_id: p },
            PackageUpgradeError::UnableToFetchPackage { package_id: q },
        ) => {
            lemma_cat_cancel(enc_uleb(0), p.enc(), enc_uleb(0), q.enc());
            lemma_array_eq(p.0, q.0);
        },
        (
            PackageUpgradeError::NotAPackage { object_id: p },
            PackageUpgradeError::NotAPackage { object_id: q },
        ) => {
            lemma_cat_cancel(enc_uleb(1), p.enc(), enc_uleb(1), q.enc());
            lemma_array_eq(p.0, q.0);
        },
        (
            PackageUpgradeError::DigestDoesNotMatch { digest: p },
            PackageUpgradeError::DigestDoesNotMatch { digest: q },
        ) => {
            lemma_cat_cancel(enc_uleb(3), p.enc(), enc_uleb(3), q.enc());
            lemma_bytes_read_back(p@, q@);
        },
        (
            PackageUpgradeError::UnknownUpgradePolicy { policy: p },
            PackageUpgradeError::UnknownUpgradePolicy { policy: q },
        ) => {
            lemma_cat_cancel(enc_uleb(4), p.enc(), enc_uleb(4), q.enc());
            assert(p.enc()[0] == q.enc()[0]);
        },
        (
            PackageUpgradeError::PackageIDDoesNotMatch { package_id: p, ticket_id: t },
            PackageUpgradeError::PackageIDDoesNotMatch { package_id: q, ticket_id: u },
        ) => {
            assert(a.enc() =~= enc_uleb(5) + (p.enc() + t.enc()));
            assert(b.enc() =~= enc_uleb(5) + (q.enc() + u.enc()));
            lemma_cat_cancel(enc_uleb(5), p.enc() + t.enc(), enc_uleb(5), q.enc() + u.enc());
            lemma_cat_cancel(p.enc(), t.enc(), q.enc(), u.enc());
            lemma_array_eq(p.0, q.0);
            lemma_array_eq(t.0, u.0);
        },
        _ => {},
    }
}

/// What follows a one-byte variant index starts right after it.
proof fn lemma_head(t: u32, x: Seq<u8>)
    requires
        t < 128,
    ensures
        (enc_uleb(t) + x).len() >= 1,
        (enc_uleb(t) + x)[0] == t as u8,
{
    reveal_with_fuel(enc_uleb, 1);
}

/// The variant index of a command argument error.
pub open spec fn command_tag(e: CommandArgumentError) -> u8 {
    match e {
        CommandArgumentError::TypeMismatch => 0,
        CommandArgumentError::InvalidBCSBytes => 1,
        CommandArgumentError::InvalidUsageOfPureArg => 2,
        CommandArgumentError::InvalidArgumentToPrivateEntryFunction => 3,
        CommandArgumentError::IndexOutOfBounds { .. } => 4,
        CommandArgumentError::SecondaryIndexOutOfBounds { .. } => 5,
        CommandArgumentError::InvalidResultArity { .. } => 6,
        CommandArgumentError::InvalidGasCoinUsage => 7,
        CommandArgumentError::InvalidValueUsage => 8,
        CommandArgumentError::InvalidObjectByValue => 9,
        CommandArgumentError::InvalidObjectByMutRef => 10,
        CommandArgumentError::SharedObjectOperationNotAllowed => 11,
        CommandArgumentError::InvalidArgumentArity => 12,
        CommandArgumentError::InvalidTransferObject => 13,
        CommandArgumentError::InvalidMakeMoveVecNonObjectArgument => 14,
        CommandArgumentError::ArgumentWithoutValue => 15,
        CommandArgumentError::CannotMoveBorrowedValue => 16,
        CommandArgumentError::CannotWriteToExtendedReference => 17,
        CommandArgumentError::InvalidReferenceArgument => 18,
        CommandArgumentError::InvalidTxContext => 19,
    }
}

proof fn lemma_command_first(e: CommandArgumentError)
    ensures
        e.enc().len() >= 1,
        e.enc()[0] == command_tag(e),
{
    reveal_with_fuel(enc_uleb, 1);
    match e {
        CommandArgumentError::IndexOutOfBounds { idx } => lemma_head(4, idx.enc()),
        CommandArgumentError::SecondaryIndexOutOfBounds { result_idx, secondary_idx } => {
            lemma_head(5, result_idx.enc());
            assert((enc_uleb(5) + result_idx.enc() + secondary_idx.enc())[0] == (enc_uleb(5)
                + result_idx.enc())[0]);
        },
        CommandArgumentError::InvalidResultArity { result_idx } => lemma_head(6, result_idx.enc()),
        _ => {},
    }
}

/// Command argument errors with the same encoding are the same error.
pub proof fn lemma_command_error_injective(a: CommandArgumentError, b: CommandArgumentError)
    requires
        a.enc() == b.enc(),
    ensures
        a == b,
{
    lemma_command_first(a);
    lemma_command_first(b);
    match (a, b) {
        (
            CommandArgumentError::IndexOutOfBounds { idx: p },
            CommandArgumentError::IndexOutOfBounds { idx: q },
        ) => {
            lemma_cat_cancel(enc_uleb(4), p.enc(), enc_uleb(4), q.enc());
            lemma_u16_injective(p, q);
        },
        (
            CommandArgumentError::SecondaryIndexOutOfBounds { result_idx: p, secondary_idx: t },
            CommandArgumentError::SecondaryIndexOutOfBounds { result_idx: q, secondary_idx: u },
        ) => {
            assert(a.enc() =~= enc_uleb(5) + (p.enc() + t.enc()));
            assert(b.enc() =~= enc_uleb(5) + (q.enc() + u.enc()));
            lemma_cat_cancel(enc_uleb(5), p.enc() + t.enc(), enc_uleb(5), q.enc() + u.enc());
            lemma_cat_cancel(p.enc(), t.enc(), q.enc(), u.enc());
            lemma_u16_injective(p, q);
            lemma_u16_injective(t, u);
        },
        (
            CommandArgumentError::InvalidResultArity { result_idx: p },
            CommandArgumentError::InvalidResultArity { result_idx: q },
        ) => {
            lemma_cat_cancel(enc_uleb(6), p.enc(), enc_uleb(6), q.enc());
            lemma_u16_injective(p, q);
        },
        _ => {
            assert(command_tag(a) == command_tag(b));
        },
    }
}

/// Type argument errors with the same encoding are the same error.
pub proof fn lemma_type_argument_error_injective(a: TypeArgumentError, b: TypeArgumentError)
    requires
        a.enc() == b.enc(),
    ensures
        a == b,
{
    reveal_with_fuel(enc_uleb, 1);
    assert(a.enc()[0] == b.enc()[0]);
    match (a, b) {
        (TypeArgumentError::TypeNotFound, TypeArgumentError::ConstraintNotSatisfied) => {
            assert(a.enc()[0] == 0u8 && b.enc()[0] == 1u8);
        },
        (TypeArgumentError::ConstraintNotSatisfied, TypeArgumentError::TypeNotFound) => {
            assert(a.enc()[0] == 1u8 && b.enc()[0] == 0u8);
        },
        _ => {},
    }
}

/// An error kind's encoding starts with its variant index, in one byte.
proof fn lemma_error_first(e: ExecutionErrorKind)
    ensures
        e.enc().len() >= 1,
        e.enc()[0] == error_tag(e) as u8,
        error_tag(e) < 42,
{
    reveal_with_fuel(enc_uleb, 1);
    match e {
        ExecutionErrorKind::MoveObjectTooBig { object_size: p, max_object_size: q } => {
            assert(e.enc() =~= enc_uleb(4) + (p.enc() + q.enc()));
            lemma_head(4, p.enc() + q.enc());
        },
        ExecutionErrorKind::MovePackageTooBig { object_size: p, max_object_size: q } => {
            assert(e.enc() =~= enc_uleb(5) + (p.enc() + q.enc()));
            lemma_head(5, p.enc() + q.enc());
        },
        ExecutionErrorKind::EffectsTooLarge { current_size: p, max_size: q } => {
            assert(e.enc() =~= enc_uleb(24) + (p.enc() + q.enc()));
            lemma_head(24, p.enc() + q.enc());
        },
        ExecutionErrorKind::WrittenObjectsTooLarge { current_size: p, max_size: q } => {
            assert(e.enc() =~= enc_uleb(28) + (p.enc() + q.enc()));
            lemma_head(28, p.enc() + q.enc());
        },
        ExecutionErrorKind::MoveVectorElemTooBig { value_size: p, max_scaled_size: q } => {
            assert(e.enc() =~= enc_uleb(37) + (p.enc() + q.enc()));
            lemma_head(37, p.enc() + q.enc());
        },
        ExecutionErrorKind::MoveRawValueTooBig { value_size: p, max_scaled_size: q } => {
            assert(e.enc() =~= enc_uleb(38) + (p.enc() + q.enc()));
            lemma_head(38, p.enc() + q.enc());
        },
        ExecutionErrorKind::CircularObjectOwnership { object } => lemma_head(6, object.enc()),
        ExecutionErrorKind::NonExclusiveWriteInputObjectModified { id } => lemma_head(41, id.enc()),
        ExecutionErrorKind::MovePrimitiveRuntimeError(loc) => lemma_head(11, loc.enc()),
        ExecutionErrorKind::MoveAbort(loc, code) => {
            assert(e.enc() =~= enc_uleb(12) + (loc.enc() + code.enc()));
            lemma_head(12, loc.enc() + code.enc());
        },
        ExecutionErrorKind::CommandArgumentError { arg_idx, kind } => {
            assert(e.enc() =~= enc_uleb(19) + (arg_idx.enc() + kind.enc()));
            lemma_head(19, arg_idx.enc() + kind.enc());
        },
        ExecutionErrorKind::TypeArgumentError { argument_idx, kind } => {
            assert(e.enc() =~= enc_uleb(20) + (argument_idx.enc() + kind.enc()));
            lemma_head(20, argument_idx.enc() + kind.enc());
        },
        ExecutionErrorKind::UnusedValueWithoutDrop { result_idx, secondary_idx } => {
            assert(e.enc() =~= enc_uleb(21) + (result_idx.enc() + secondary_idx.enc()));
            lemma_head(21, result_idx.enc() + secondary_idx.enc());
        },
        ExecutionErrorKind::InvalidPublicFunctionReturnType { idx } => lemma_head(22, idx.enc()),
        ExecutionErrorKind::PackageUpgradeError { upgrade_error } => lemma_head(27, upgrade_error.enc()),
        ExecutionErrorKind::ExecutionCancelledDueToSharedObjectCongestion { congested_objects } => {
            lemma_head(33, enc_seq(congested_objects@));
        },
        ExecutionErrorKind::AddressDeniedForCoin { address, coin_type } => {
            assert(e.enc() =~= enc_uleb(34) + (address.enc() + coin_type.enc()));
            lemma_head(34, address.enc() + coin_type.enc());
        },
        ExecutionErrorKind::CoinTypeGlobalPause { coin_type } => lemma_head(35, coin_type.enc()),
        _ => {},
    }
}

/// Two numbers after a variant index.
proof fn lemma_u64_pair(t: u32, p: u64, q: u64, r: u64, u: u64)
    requires
        enc_uleb(t) + p.enc() + q.enc() == enc_uleb(t) + r.enc() + u.enc(),
    ensures
        p == r,
        q == u,
{
    assert(enc_uleb(t) + p.enc() + q.enc() =~= enc_uleb(t) + (p.enc() + q.enc()));
    assert(enc_uleb(t) + r.enc() + u.enc() =~= enc_uleb(t) + (r.enc() + u.enc()));
    lemma_cat_cancel(enc_uleb(t), p.enc() + q.enc(), enc_uleb(t), r.enc() + u.enc());
    lemma_cat_cancel(p.enc(), q.enc(), r.enc(), u.enc());
    lemma_u64_injective(p, r);
    lemma_u64_injective(q, u);
}

/// Two small numbers after a variant index.
proof fn lemma_u16_pair(t: u32, p: u16, q: u16, r: u16, u: u16)
    requires
        enc_uleb(t) + p.enc() + q.enc() == enc_uleb(t) + r.enc() + u.enc(),
    ensures
        p == r,
        q == u,
{
    assert(enc_uleb(t) + p.enc() + q.enc() =~= enc_uleb(t) + (p.enc() + q.enc()));
    assert(enc_uleb(t) + r.enc() + u.enc() =~= enc_uleb(t) + (r.enc() + u.enc()));
    lemma_cat_cancel(enc_uleb(t), p.enc() + q.enc(), enc_uleb(t), r.enc() + u.enc());
    lemma_cat_cancel(p.enc(), q.enc(), r.enc(), u.enc());
    lemma_u16_injective(p, r);
    lemma_u16_injective(q, u);
}

/// Object ids with the same encoding, as a sequence, are the same ids.
proof fn lemma_objects_injective(v: Seq<ObjectId>, w: Seq<ObjectId>)
    requires
        enc_seq(v) == enc_seq(w),
    ensures
        v == w,
{
    lemma_seq_prefix_eq(v, w);
    assert forall|i: int| 0 <= i < v.len() implies (#[trigger] v[i].enc()).len() == 32 by {}
    assert forall|i: int| 0 <= i < w.len() implies (#[trigger] w[i].enc()).len() == 32 by {}
    lemma_records_eq(v, w, 32);
    assert forall|i: int| 0 <= i < v.len() implies v[i] == w[i] by {
        lemma_array_eq(v[i].0, w[i].0);
    }
    assert(v =~= w);
}

/// Optional locations with the same encoding are both absent, or the same
/// location.
proof fn lemma_option_location_injective(a: Option<MoveLocation>, b: Option<MoveLocation>)
    requires
        a matches Some(l) ==> legal_location(l),
        b matches Some(l) ==> legal_location(l),
        a.enc() == b.enc(),
    ensures
        match (a, b) {
            (Some(p), Some(q)) => same_location(p, q),
            (None, None) => true,
            _ => false,
        },
{
    assert(a.enc()[0] == b.enc()[0]);
    match (a, b) {
        (Some(p), Some(q)) => {
            lemma_cat_cancel(seq![1u8], p.enc(), seq![1u8], q.enc());
            lemma_location_injective(p, q);
        },
        (Some(p), None) => {
            assert(a.enc()[0] == 1u8);
        },
        (None, Some(q)) => {
            assert(b.enc()[0] == 1u8);
        },
        (None, None) => {},
    }
}

/// What `Writer::execution_error` writes reads back as the same error: no
/// other error kind has its encoding.
#[verifier::rlimit(50)]
pub proof fn lemma_error_injective(a: ExecutionErrorKind, b: ExecutionErrorKind)
    requires
        legal_error(a),
        legal_error(b),
        a.enc() == b.enc(),
    ensures
        same_error(a, b),
{
    lemma_error_first(a);
    lemma_error_first(b);
    assert(error_tag(a) == error_tag(b));
    match (a, b) {
        (ExecutionErrorKind::MoveObjectTooBig { object_size: p, max_object_size: q }, ExecutionErrorKind::MoveObjectTooBig { object_size: r, max_object_size: u }) => {
            lemma_u64_pair(4, p, q, r, u);
        },
        (ExecutionErrorKind::MovePackageTooBig { object_size: p, max_object_size: q }, ExecutionErrorKind::MovePackageTooBig { object_size: r, max_object_size: u }) => {
            lemma_u64_pair(5, p, q, r, u);
        },
        (ExecutionErrorKind::EffectsTooLarge { current_size: p, max_size: q }, ExecutionErrorKind::EffectsTooLarge { current_size: r, max_size: u }) => {
            lemma_u64_pair(24, p, q, r, u);
        },
        (ExecutionErrorKind::WrittenObjectsTooLarge { current_size: p, max_size: q }, ExecutionErrorKind::WrittenObjectsTooLarge { current_size: r, max_size: u }) => {
            lemma_u64_pair(28, p, q, r, u);
        },
        (ExecutionErrorKind::MoveVectorElemTooBig { value_size: p, max_scaled_size: q }, ExecutionErrorKind::MoveVectorElemTooBig { value_size: r, max_scaled_size: u }) => {
            lemma_u64_pair(37, p, q, r, u);
        },
        (ExecutionErrorKind::MoveRawValueTooBig { value_size: p, max_scaled_size: q }, ExecutionErrorKind::MoveRawValueTooBig { value_size: r, max_scaled_size: u }) => {
            lemma_u64_pair(38, p, q, r, u);
        },
        (ExecutionErrorKind::CircularObjectOwnership { object: p }, ExecutionErrorKind::CircularObjectOwnership { object: q }) => {
            lemma_cat_cancel(enc_uleb(6), p.enc(), enc_uleb(6), q.enc());
            lemma_array_eq(p.0, q.0);
        },
        (
            ExecutionErrorKind::NonExclusiveWriteInputObjectModified { id: p },
            ExecutionErrorKind::NonExclusiveWriteInputObjectModified { id: q },
        ) => {
            lemma_cat_cancel(enc_uleb(41), p.enc(), enc_uleb(41), q.enc());
            lemma_array_eq(p.0, q.0);
        },
        (ExecutionErrorKind::MovePrimitiveRuntimeError(p), ExecutionErrorKind::MovePrimitiveRuntimeError(q)) => {
            lemma_cat_cancel(enc_uleb(11), p.enc(), enc_uleb(11), q.enc());
            lemma_option_location_injective(p, q);
        },
        (ExecutionErrorKind::MoveAbort(p, c), ExecutionErrorKind::MoveAbort(q, d)) => {
            assert(a.enc() =~= enc_uleb(12) + (p.enc() + c.enc()));
            assert(b.enc() =~= enc_uleb(12) + (q.enc() + d.enc()));
            lemma_cat_cancel(enc_uleb(12), p.enc() + c.enc(), enc_uleb(12), q.enc() + d.enc());
            crate::accept_effects::lemma_reads_location(p);
            crate::accept_effects::lemma_reads_location(q);
            lemma_prefix_free(p, q, c.enc(), d.enc());
            lemma_location_injective(p, q);
            lemma_u64_injective(c, d);
        },
        (
            ExecutionErrorKind::CommandArgumentError { arg_idx: p, kind: k },
            ExecutionErrorKind::CommandArgumentError { arg_idx: q, kind: l },
        ) => {
            assert(a.enc() =~= enc_uleb(19) + (p.enc() + k.enc()));
            assert(b.enc() =~= enc_uleb(19) + (q.enc() + l.enc()));
            lemma_cat_cancel(enc_uleb(19), p.enc() + k.enc(), enc_uleb(19), q.enc() + l.enc());
            lemma_cat_cancel(p.enc(), k.enc(), q.enc(), l.enc());
            lemma_u16_injective(p, q);
            lemma_command_error_injective(k, l);
        },
        (
            ExecutionErrorKind::TypeArgumentError { argument_idx: p, kind: k },
            ExecutionErrorKind::TypeArgumentError { argument_idx: q, kind: l },
        ) => {
            assert(a.enc() =~= enc_uleb(20) + (p.enc() + k.enc()));
            assert(b.enc() =~= enc_uleb(20) + (q.enc() + l.enc()));
            lemma_cat_cancel(enc_uleb(20), p.enc() + k.enc(), enc_uleb(20), q.enc() + l.enc());
            lemma_cat_cancel(p.enc(), k.enc(), q.enc(), l.enc());
            lemma_u16_injective(p, q);
            lemma_type_argument_error_injective(k, l);
        },
        (
            ExecutionErrorKind::UnusedValueWithoutDrop { result_idx: p, secondary_idx: q },
            ExecutionErrorKind::UnusedValueWithoutDrop { result_idx: r, secondary_idx: u },
        ) => {
            lemma_u16_pair(21, p, q, r, u);
        },
        (
            ExecutionErrorKind::InvalidPublicFunctionReturnType { idx: p },
            ExecutionErrorKind::InvalidPublicFunctionReturnType { idx: q },
        ) => {
            lemma_cat_cancel(enc_uleb(22), p.enc(), enc_uleb(22), q.enc());
            lemma_u16_injective(p, q);
        },
        (
            ExecutionErrorKind::PackageUpgradeError { upgrade_error: p },
            ExecutionErrorKind::PackageUpgradeError { upgrade_error: q },
        ) => {
            lemma_cat_cancel(enc_uleb(27), p.enc(), enc_uleb(27), q.enc());
            lemma_upgrade_error_injective(p, q);
        },
        (
            ExecutionErrorKind::ExecutionCancelledDueToSharedObjectCongestion { congested_objects: p },
            ExecutionErrorKind::ExecutionCancelledDueToSharedObjectCongestion { congested_objects: q },
        ) => {
            lemma_cat_cancel(enc_uleb(33), enc_seq(p@), enc_uleb(33), enc_seq(q@));
            lemma_objects_injective(p@, q@);
        },
        (
            ExecutionErrorKind::AddressDeniedForCoin { address: p, coin_type: t },
            ExecutionErrorKind::AddressDeniedForCoin { address: q, coin_type: u },
        ) => {
            assert(a.enc() =~= enc_uleb(34) + (p.enc() + t.enc()));
            assert(b.enc() =~= enc_uleb(34) + (q.enc() + u.enc()));
            lemma_cat_cancel(enc_uleb(34), p.enc() + t.enc(), enc_uleb(34), q.enc() + u.enc());
            lemma_cat_cancel(p.enc(), t.enc(), q.enc(), u.enc());
            lemma_array_eq(p.0, q.0);
            lemma_string_injective(t, u);
        },
        (ExecutionErrorKind::CoinTypeGlobalPause { coin_type: t }, ExecutionErrorKind::CoinTypeGlobalPause { coin_type: u }) => {
            lemma_cat_cancel(enc_uleb(35), t.enc(), enc_uleb(35), u.enc());
            lemma_string_injective(t, u);
        },
        _ => {},
    }
}

/// An error kind the reader accepts is one the writer can write.
pub proof fn lemma_legal_error_fits(e: ExecutionErrorKind)
    requires
        legal_error(e),
    ensures
        fits_error(e),
{
}

/// What `Writer::execution_error` writes reads back as the error that was
/// written: the recognizer takes the whole encoding, and the only
/// well-formed error kind with that encoding (parses give back well-formed
/// values) is that error, its strings and vectors compared by their views.
/// A variant index past the last one is refused by name.
pub proof fn lemma_error_reads_back(e: ExecutionErrorKind, e2: ExecutionErrorKind)
    requires
        e.well_formed(),
    ensures
        fits_error(e),
        exact_rec::<ExecutionErrorKind>(e.enc()) == Ok::<(), ParseError>(()),
        e2.well_formed() && e2.enc() == e.enc() ==> same_error(e2, e),
        forall|s: Seq<u8>, st: St|
            #![trigger ExecutionErrorKind::rec(s, st)]
            sp_uleb(s, st) matches Ok((t, _)) ==> (t >= 42 ==> ExecutionErrorKind::rec(s, st)
                == Err::<St, ParseError>(unknown("ExecutionErrorKind", t))),
{
    lemma_reads_error(e);
    let s = e.enc();
    lemma_at_whole(s);
    assert(room(start(), 0));
    assert(ok_past(ExecutionErrorKind::rec(s, start()), start(), s.len() as int));
    if e2.well_formed() && e2.enc() == e.enc() {
        lemma_error_injective(e2, e);
    }
}

}
