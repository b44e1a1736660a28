//! Shard identities.

use candid::Principal;
use vstd::prelude::*;

verus! {

/// `candid::Principal`, kept opaque: of a value only its bytes are spoken of,
/// through [`principal_bytes`].
#[verifier::external_type_specification]
#[verifier::external_body]
pub struct ExPrincipal(Principal);

/// The identity of a shard.
pub type ShardId = Principal;

/// The significant bytes of a principal, as `Principal::as_slice` hands them
/// out: between 0 and 29 bytes, without the zero padding.
pub uninterp spec fn principal_bytes(id: Principal) -> Seq<u8>;

/// Whether two identities name the same shard.
pub open spec fn same_shard_spec(a: ShardId, b: ShardId) -> bool {
    principal_bytes(a) == principal_bytes(b)
}

/// Compares two identities with `Principal`'s own `==`.
///
/// Trusted: the comparison that `Principal` derives looks at the length and
/// at the whole backing array, whose bytes past the length are always zero,
/// so it holds exactly when the significant bytes agree.
#[verifier::external_body]
pub(crate) fn principal_eq(a: &Principal, b: &Principal) -> (same: bool)
    ensures
        same == (principal_bytes(*a) == principal_bytes(*b)),
{
    a == b
}

/// Whether `a` and `b` name the same shard.
#[verifier::when_used_as_spec(same_shard_spec)]
pub fn same_shard(a: ShardId, b: ShardId) -> (same: bool)
    ensures
        same == same_shard_spec(a, b),
{
    principal_eq(&a, &b)
}

} // verus!
