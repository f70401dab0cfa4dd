//! Queries on staking.

use crate::accessor::{cell_of, pickout, Cell};
use crate::error::ErrorKind;
use crate::hashing::Hasher;
use crate::keys::{cell_key, key, key_for, BONDING_DURATION, LAST_RENOMINATION_OF};
use crate::snapshot::Snapshot;
use vstd::prelude::*;

verus! {

/// What the cell of the last renomination of `who` holds in `cells`.
pub open spec fn last_renomination_cell(cells: Map<Seq<u8>, Seq<u8>>, who: Seq<u8>) -> Cell<u64> {
    cell_of::<u64>(cells, cell_key(LAST_RENOMINATION_OF, who), Hasher::BLAKE2256)
}

/// What the cell of the bonding duration holds in `cells`.
pub open spec fn bonding_duration_cell(cells: Map<Seq<u8>, Seq<u8>>) -> Cell<u64> {
    cell_of::<u64>(cells, cell_key(BONDING_DURATION, Seq::empty()), Hasher::TWOX128)
}

/// The block from which the account `who` may renominate again: the block of
/// its last renomination plus the bonding duration.
///
/// `Ok(None)` where the account never renominated or no bonding duration is
/// stored; `DecodeErr` where a cell that is read cannot be read. The bonding
/// duration is read only for an account that has renominated.
pub fn next_renominate(state: &Snapshot, who: &[u8]) -> (r: Result<Option<u128>, ErrorKind>)
    ensures
        match r {
            Ok(Some(block)) => {
                &&& last_renomination_cell(state@, who@) is Present
                &&& bonding_duration_cell(state@) is Present
                &&& block == last_renomination_cell(state@, who@)->Present_0
                    + bonding_duration_cell(state@)->Present_0
            },
            Ok(None) => last_renomination_cell(state@, who@) is Absent || (
            last_renomination_cell(state@, who@) is Present && bonding_duration_cell(state@)
                is Absent),
            Err(ErrorKind::DecodeErr) => last_renomination_cell(state@, who@) is Malformed || (
            last_renomination_cell(state@, who@) is Present && bonding_duration_cell(state@)
                is Malformed),
            Err(_) => false,
        },
{
    let last_key = key_for(LAST_RENOMINATION_OF, who);
    let last = match pickout::<u64>(state, last_key.as_slice(), Hasher::BLAKE2256) {
        Ok(Some(last)) => last,
        Ok(None) => {
            return Ok(None);
        },
        Err(e) => {
            return Err(e);
        },
    };
    let duration_key = key(BONDING_DURATION);
    match pickout::<u64>(state, duration_key.as_slice(), Hasher::TWOX128) {
        Ok(Some(duration)) => Ok(Some(last as u128 + duration as u128)),
        Ok(None) => Ok(None),
        Err(e) => Err(e),
    }
}

} // verus!
