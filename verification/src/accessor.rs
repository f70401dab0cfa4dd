//! Typed reads of storage cells.

use crate::codec::{parse_u32, parse_u64, take_u32, take_u64};
use crate::error::ErrorKind;
use crate::hashing::{physical_key, storage_key, Hasher};
use crate::snapshot::Snapshot;
use vstd::prelude::*;

verus! {

/// A value with a stored shape: what its bytes look like and how they are
/// read. Bytes behind the value are not looked at.
pub trait Decodable: Sized + View {
    /// The value that `bytes` start with, or `None` where they have another
    /// shape.
    spec fn decoded(bytes: Seq<u8>) -> Option<Self::V>;

    /// Reads the value that `bytes` start with.
    fn decode(bytes: &[u8]) -> (r: Option<Self>)
        ensures
            match r {
                Some(v) => Self::decoded(bytes@) == Some(v@),
                None => Self::decoded(bytes@) is None,
            },
    ;
}

impl Decodable for u32 {
    open spec fn decoded(bytes: Seq<u8>) -> Option<u32> {
        match parse_u32(bytes) {
            Some((v, _)) => Some(v),
            None => None,
        }
    }

    fn decode(bytes: &[u8]) -> (r: Option<u32>) {
        match take_u32(bytes) {
            Some((v, _)) => Some(v),
            None => None,
        }
    }
}

impl Decodable for u64 {
    open spec fn decoded(bytes: Seq<u8>) -> Option<u64> {
        match parse_u64(bytes) {
            Some((v, _)) => Some(v),
            None => None,
        }
    }

    fn decode(bytes: &[u8]) -> (r: Option<u64>) {
        match take_u64(bytes) {
            Some((v, _)) => Some(v),
            None => None,
        }
    }
}

/// What a typed read finds in a cell.
pub enum Cell<V> {
    /// Nothing is stored under the key.
    Absent,
    /// Bytes are stored, and they do not have the shape of the value.
    Malformed,
    /// The stored value.
    Present(V),
}

/// The value of a cell that holds one.
pub open spec fn present<V>(cell: Cell<V>) -> Option<V> {
    match cell {
        Cell::Present(v) => Some(v),
        _ => None,
    }
}

/// What reading the cell with key `key`, hashed with `hasher`, finds in
/// `cells` for a value of type `T`.
pub open spec fn cell_of<T: Decodable>(
    cells: Map<Seq<u8>, Seq<u8>>,
    key: Seq<u8>,
    hasher: Hasher,
) -> Cell<T::V> {
    let stored_under = physical_key(key, hasher);
    if !cells.contains_key(stored_under) {
        Cell::Absent
    } else {
        match T::decoded(cells[stored_under]) {
            Some(v) => Cell::Present(v),
            None => Cell::Malformed,
        }
    }
}

/// Whether a typed read gave what the cell holds: `Ok(None)` for an absent
/// cell, the value for a present one, `DecodeErr` for a malformed one.
pub open spec fn read_matches<T: View>(r: Result<Option<T>, ErrorKind>, cell: Cell<T::V>) -> bool {
    match r {
        Ok(None) => cell is Absent,
        Ok(Some(v)) => cell == Cell::Present(v@),
        Err(ErrorKind::DecodeErr) => cell is Malformed,
        Err(_) => false,
    }
}

/// Reads the cell with key `key` from `state` as a value of type `T`.
///
/// The key is hashed with `hasher`, which has to be the scheme that the cell
/// was declared with. An absent cell is `Ok(None)`; stored bytes of another
/// shape are `DecodeErr`.
pub fn pickout<T: Decodable>(state: &Snapshot, key: &[u8], hasher: Hasher) -> (r: Result<
    Option<T>,
    ErrorKind,
>)
    ensures
        read_matches(r, cell_of::<T>(state@, key@, hasher)),
{
    let stored_under = storage_key(key, hasher);
    match state.raw_get(stored_under.as_slice()) {
        None => Ok(None),
        Some(bytes) => match T::decode(bytes.as_slice()) {
            Some(v) => Ok(Some(v)),
            None => Err(ErrorKind::DecodeErr),
        },
    }
}

} // verus!
