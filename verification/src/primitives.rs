//! Readers of single integers: little-endian integers of fixed width and
//! bounded ULEB128 integers.

use vstd::prelude::*;
use crate::cursor::{
    decodes, le16, le2, le4, le8, lemma_uleb128_length, malformed_error, spec_read_exact,
    spec_read_uleb128, CursorView, Decoded, VersionedCursor,
};
use crate::errors::{malformed, Message, PartialVMError, StatusCode};
use crate::file_format::U256;

verus! {

/// Whether `after` is `before` with items appended.
pub open spec fn spec_extends<T>(before: Seq<T>, after: Seq<T>) -> bool {
    &&& before.len() <= after.len()
    &&& forall|i: int| 0 <= i < before.len() ==> #[trigger] after[i] == before[i]
}

/// The result of a list: `x`, of length `n`, before what `tail` gives.
pub open spec fn cons_result<T>(x: T, n: nat, tail: Decoded<Seq<T>>) -> Decoded<Seq<T>> {
    match tail {
        Ok((rest, m)) => Ok((seq![x] + rest, n + m)),
        Err(e) => Err(e),
    }
}

/// The result of a list: `items`, of length `n`, before what `tail` gives.
pub open spec fn prepend<T>(items: Seq<T>, n: nat, tail: Decoded<Seq<T>>) -> Decoded<Seq<T>> {
    match tail {
        Ok((rest, m)) => Ok((items + rest, n + m)),
        Err(e) => Err(e),
    }
}

/// Moving the first item of the tail to the end of the items read so far.
pub proof fn lemma_prepend_step<T>(items: Seq<T>, k: nat, x: T, n: nat, tail: Decoded<Seq<T>>)
    ensures
        prepend(items, k, cons_result(x, n, tail)) == prepend(items.push(x), k + n, tail),
{
    match tail {
        Ok((rest, m)) => {
            assert(items + (seq![x] + rest) =~= items.push(x) + rest);
        },
        Err(e) => {},
    }
}

/// Nothing read so far, or nothing left to read.
pub proof fn lemma_prepend_empty<T>(items: Seq<T>, k: nat, tail: Decoded<Seq<T>>)
    ensures
        prepend(Seq::<T>::empty(), 0, tail) == tail,
        prepend(items, k, Ok((Seq::<T>::empty(), 0nat))) == Ok::<(Seq<T>, nat), PartialVMError>(
            (items, k),
        ),
{
    match tail {
        Ok((rest, m)) => {
            assert(Seq::<T>::empty() + rest =~= rest);
        },
        Err(e) => {},
    }
    assert(items + Seq::<T>::empty() =~= items);
}

/// A fixed number of bytes read as one little-endian integer, or the error
/// `status` where fewer bytes are left.
#[verifier::opaque]
pub open spec fn spec_read_le(c: CursorView, width: nat, status: StatusCode) -> Decoded<nat> {
    match spec_read_exact(c, width) {
        None => Err(PartialVMError::spec_new(status)),
        Some(s) => Ok(
            (
                if width == 2 {
                    le2(s, 0)
                } else if width == 4 {
                    le4(s, 0)
                } else if width == 8 {
                    le8(s, 0)
                } else {
                    le16(s, 0)
                },
                width,
            ),
        ),
    }
}

/// Two bytes read as one little-endian integer.
pub open spec fn spec_read_u16(c: CursorView) -> Decoded<u16> {
    match spec_read_le(c, 2, StatusCode::BadU16) {
        Err(e) => Err(e),
        Ok((x, n)) => Ok((x as u16, n)),
    }
}

/// Four bytes read as one little-endian integer.
pub open spec fn spec_read_u32(c: CursorView) -> Decoded<u32> {
    match spec_read_le(c, 4, StatusCode::BadU32) {
        Err(e) => Err(e),
        Ok((x, n)) => Ok((x as u32, n)),
    }
}

/// Eight bytes read as one little-endian integer.
pub open spec fn spec_read_u64(c: CursorView) -> Decoded<u64> {
    match spec_read_le(c, 8, StatusCode::BadU64) {
        Err(e) => Err(e),
        Ok((x, n)) => Ok((x as u64, n)),
    }
}

/// Sixteen bytes read as one little-endian integer.
pub open spec fn spec_read_u128(c: CursorView) -> Decoded<u128> {
    match spec_read_le(c, 16, StatusCode::BadU128) {
        Err(e) => Err(e),
        Ok((x, n)) => Ok((x as u128, n)),
    }
}

/// Thirty-two bytes read as one little-endian integer, in two halves.
#[verifier::opaque]
pub open spec fn spec_read_u256(c: CursorView) -> Decoded<U256> {
    match spec_read_exact(c, 32) {
        None => Err(PartialVMError::spec_new(StatusCode::BadU256)),
        Some(s) => Ok((U256 { low: le16(s, 0) as u128, high: le16(s, 16) as u128 }, 32)),
    }
}

impl DeepView for U256 {
    type V = U256;

    open spec fn deep_view(&self) -> U256 {
        *self
    }
}

fn u16_from_le(b: &Vec<u8>, k: usize) -> (x: u16)
    requires
        k + 2 <= b.len(),
    ensures
        x == le2(b@, k as int),
{
    b[k] as u16 + 0x100 * (b[k + 1] as u16)
}

fn u32_from_le(b: &Vec<u8>, k: usize) -> (x: u32)
    requires
        k + 4 <= b.len(),
    ensures
        x == le4(b@, k as int),
{
    u16_from_le(b, k) as u32 + 0x1_0000 * (u16_from_le(b, k + 2) as u32)
}

fn u64_from_le(b: &Vec<u8>, k: usize) -> (x: u64)
    requires
        k + 8 <= b.len(),
    ensures
        x == le8(b@, k as int),
{
    u32_from_le(b, k) as u64 + 0x1_0000_0000 * (u32_from_le(b, k + 4) as u64)
}

fn u128_from_le(b: &Vec<u8>, k: usize) -> (x: u128)
    requires
        k + 16 <= b.len(),
    ensures
        x == le16(b@, k as int),
{
    u64_from_le(b, k) as u128 + 0x1_0000_0000_0000_0000 * (u64_from_le(b, k + 8) as u128)
}

/// Reads what [`spec_read_u16`] describes and leaves the reader behind it.
pub fn read_u16_internal(cursor: &mut VersionedCursor) -> (r: Result<u16, PartialVMError>)
    ensures
        decodes(old(cursor)@, final(cursor)@, r, spec_read_u16(old(cursor)@)),
{
    reveal(spec_read_le);
    match cursor.read_exact(2) {
        Some(bytes) => Ok(u16_from_le(&bytes, 0)),
        None => Err(PartialVMError::new(StatusCode::BadU16)),
    }
}

/// Reads what [`spec_read_u32`] describes and leaves the reader behind it.
pub fn read_u32_internal(cursor: &mut VersionedCursor) -> (r: Result<u32, PartialVMError>)
    ensures
        decodes(old(cursor)@, final(cursor)@, r, spec_read_u32(old(cursor)@)),
{
    reveal(spec_read_le);
    match cursor.read_exact(4) {
        Some(bytes) => Ok(u32_from_le(&bytes, 0)),
        None => Err(PartialVMError::new(StatusCode::BadU32)),
    }
}

/// Reads what [`spec_read_u64`] describes and leaves the reader behind it.
pub fn read_u64_internal(cursor: &mut VersionedCursor) -> (r: Result<u64, PartialVMError>)
    ensures
        decodes(old(cursor)@, final(cursor)@, r, spec_read_u64(old(cursor)@)),
{
    reveal(spec_read_le);
    match cursor.read_exact(8) {
        Some(bytes) => Ok(u64_from_le(&bytes, 0)),
        None => Err(PartialVMError::new(StatusCode::BadU64)),
    }
}

/// Reads what [`spec_read_u128`] describes and leaves the reader behind it.
pub fn read_u128_internal(cursor: &mut VersionedCursor) -> (r: Result<u128, PartialVMError>)
    ensures
        decodes(old(cursor)@, final(cursor)@, r, spec_read_u128(old(cursor)@)),
{
    reveal(spec_read_le);
    match cursor.read_exact(16) {
        Some(bytes) => Ok(u128_from_le(&bytes, 0)),
        None => Err(PartialVMError::new(StatusCode::BadU128)),
    }
}

/// Reads what [`spec_read_u256`] describes and leaves the reader behind it.
pub fn read_u256_internal(cursor: &mut VersionedCursor) -> (r: Result<U256, PartialVMError>)
    ensures
        decodes(old(cursor)@, final(cursor)@, r, spec_read_u256(old(cursor)@)),
{
    reveal(spec_read_u256);
    match cursor.read_exact(32) {
        Some(bytes) => Ok(U256 { low: u128_from_le(&bytes, 0), high: u128_from_le(&bytes, 16) }),
        None => Err(PartialVMError::new(StatusCode::BadU256)),
    }
}

/// A ULEB128 integer that must not exceed `max`.
pub open spec fn spec_read_uleb(c: CursorView, max: u64) -> Decoded<u64> {
    match spec_read_uleb128(c) {
        None => Err(malformed(Message::BadUleb)),
        Some((x, n)) => if x > max {
            Err(malformed(Message::UlebGreaterThanMax))
        } else {
            Ok((x, n))
        },
    }
}

/// A bounded integer occupies between one and ten bytes, all of them
/// present, and does not exceed its bound.
pub proof fn lemma_read_uleb(c: CursorView, max: u64)
    ensures
        spec_read_uleb(c, max) matches Ok((x, n)) ==> 1 <= n <= 10 && x <= max && 0 <= c.position
            && c.position + n <= c.bytes.len(),
{
    if 0 <= c.position {
        lemma_uleb128_length(c, 0, 0);
    }
}

/// Reads what [`spec_read_uleb`] describes and leaves the reader behind it.
pub fn read_uleb_internal(cursor: &mut VersionedCursor, max: u64) -> (r: Result<
    u64,
    PartialVMError,
>)
    ensures
        decodes(old(cursor)@, final(cursor)@, r, spec_read_uleb(old(cursor)@, max)),
        r matches Ok(x) ==> x <= max && old(cursor)@.position < final(cursor)@.position,
        0 <= old(cursor)@.position,
{
    match cursor.read_uleb128_as_u64() {
        None => Err(malformed_error(Message::BadUleb)),
        Some(x) => {
            proof {
                lemma_read_uleb(old(cursor)@, max);
            }
            if x > max {
                Err(malformed_error(Message::UlebGreaterThanMax))
            } else {
                Ok(x)
            }
        },
    }
}

} // verus!
