//! Calls into the Substrate crates. What these functions promise is not
//! proved here: each doc comment says what is taken from the outside function.

use vstd::prelude::*;
use crate::arithmetic::{fixed_div, fixed_mul, part_ceil, part_floor, part_reciprocal};
use crate::arithmetic::{is_root, PERBILL, PERMILL};
use frame_support::StorageHasher;
use sp_runtime::traits::{AccountIdConversion, CheckedDiv, CheckedMul, IntegerSquareRoot};
use sp_runtime::{FixedPointNumber, PerThing};

verus! {

/// `sp_runtime::DispatchError`, with which the currency ledger refuses a call.
/// The library only hands such a value on.
#[verifier::external_type_specification]
#[verifier::external_body]
pub struct ExDispatchError(sp_runtime::DispatchError);

/// `CheckedMul::checked_mul` of `sp_runtime::FixedU128`, on inner values.
///
/// Taken from it: the product of two numbers with eighteen decimals is rounded
/// down to the next representable number, and there is none exactly where it
/// does not fit.
#[verifier::external_body]
pub(crate) fn fixed_checked_mul(a: u128, b: u128) -> (r: Option<u128>)
    ensures
        r == fixed_mul(a, b),
{
    sp_runtime::FixedU128::from_inner(a)
        .checked_mul(&sp_runtime::FixedU128::from_inner(b))
        .map(|r| r.into_inner())
}

/// `CheckedDiv::checked_div` of `sp_runtime::FixedU128`, on inner values.
///
/// Taken from it: the quotient of two numbers with eighteen decimals is rounded
/// down to the next representable number, and there is none exactly where the
/// divisor is zero or the quotient does not fit.
#[verifier::external_body]
pub(crate) fn fixed_checked_div(a: u128, b: u128) -> (r: Option<u128>)
    ensures
        r == fixed_div(a, b),
{
    sp_runtime::FixedU128::from_inner(a)
        .checked_div(&sp_runtime::FixedU128::from_inner(b))
        .map(|r| r.into_inner())
}

/// `FixedPointNumber::checked_mul_int` of `sp_runtime::FixedU128` with a `u128`.
///
/// Taken from it: an integer times a number with eighteen decimals is rounded
/// down to an integer, and there is none exactly where it does not fit. On
/// inner values that is the formula of the product of two such numbers.
#[verifier::external_body]
pub(crate) fn fixed_checked_mul_int(a: u128, n: u128) -> (r: Option<u128>)
    ensures
        r == fixed_mul(a, n),
{
    sp_runtime::FixedU128::from_inner(a).checked_mul_int(n)
}

/// `PerThing::mul_floor` of `sp_runtime::Permill` with a `u128`.
///
/// Taken from it: the part of `n`, rounded down. Parts over a million are a
/// million, as `Permill::from_parts` has it.
#[verifier::external_body]
pub(crate) fn permill_mul_floor(parts: u32, n: u128) -> (r: u128)
    ensures
        r == part_floor(parts, PERMILL, n),
{
    sp_runtime::Permill::from_parts(parts).mul_floor(n)
}

/// `PerThing::mul_ceil` of `sp_runtime::Permill` with a `u128`.
///
/// Taken from it: the part of `n`, rounded up. Parts over a million are a
/// million, as `Permill::from_parts` has it.
#[verifier::external_body]
pub(crate) fn permill_mul_ceil(parts: u32, n: u128) -> (r: u128)
    ensures
        r == part_ceil(parts, PERMILL, n),
{
    sp_runtime::Permill::from_parts(parts).mul_ceil(n)
}

/// `PerThing::mul_floor` of `sp_runtime::Perbill` with a `u128`.
///
/// Taken from it: the part of `n`, rounded down. Parts over a billion are a
/// billion, as `Perbill::from_parts` has it.
#[verifier::external_body]
pub(crate) fn perbill_mul_floor(parts: u32, n: u128) -> (r: u128)
    ensures
        r == part_floor(parts, PERBILL, n),
{
    sp_runtime::Perbill::from_parts(parts).mul_floor(n)
}

/// `PerThing::saturating_reciprocal_mul` of `sp_runtime::Perbill` with a `u128`.
///
/// Taken from it: `n` divided by the part, rounded to the nearest integer and up
/// where two are equally near; the largest `u128` where that does not fit. Parts
/// over a billion are a billion. It divides by the parts, so zero is left out.
#[verifier::external_body]
pub(crate) fn perbill_saturating_reciprocal_mul(parts: u32, n: u128) -> (r: u128)
    requires
        parts > 0,
    ensures
        r == part_reciprocal(parts, PERBILL, n),
{
    sp_runtime::Perbill::from_parts(parts).saturating_reciprocal_mul(n)
}

/// `IntegerSquareRoot::integer_sqrt` of a `u128`, from `sp_runtime::traits`.
///
/// Taken from it: the largest integer whose square is at most `n`.
#[verifier::external_body]
pub(crate) fn integer_sqrt(n: u128) -> (r: u128)
    ensures
        is_root(r as int, n as int),
{
    IntegerSquareRoot::integer_sqrt(&n)
}

/// The Blake2 digest of `data` with 256 bits.
pub uninterp spec fn blake2_256_digest(data: Seq<u8>) -> Seq<u8>;

/// `StorageHasher::hash` of `frame_support::Blake2_256`.
///
/// Taken from it: the digest depends on the bytes alone.
#[verifier::external_body]
pub(crate) fn blake2_256(data: &[u8]) -> (digest: [u8; 32])
    ensures
        digest@ == blake2_256_digest(data@),
{
    frame_support::Blake2_256::hash(data)
}

/// The bytes of the account that a pallet identifier stands for: the letters
/// `modl`, the identifier, and zeros up to thirty-two bytes.
pub open spec fn pallet_account_bytes(id: Seq<u8>) -> Seq<u8> {
    seq![0x6du8, 0x6fu8, 0x64u8, 0x6cu8] + id + Seq::new(20, |i: int| 0u8)
}

/// `AccountIdConversion::into_account_truncating` of `frame_support::PalletId`,
/// for accounts of thirty-two bytes.
///
/// Taken from it: the account's bytes are the type's tag, the identifier and zeros.
#[verifier::external_body]
pub(crate) fn pallet_account(id: [u8; 8]) -> (account: [u8; 32])
    ensures
        account@ == pallet_account_bytes(id@),
{
    frame_support::PalletId(id).into_account_truncating()
}

} // verus!
