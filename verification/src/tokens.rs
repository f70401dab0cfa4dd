//! Queries on the deposit weight that an account has in an asset.

use crate::accessor::{cell_of, pickout, Cell, Decodable};
use crate::codec::{byte_string_bytes, encode_byte_string, parse_u64, take_u64};
use crate::error::ErrorKind;
use crate::hashing::Hasher;
use crate::keys::{cell_key, key_for, DEPOSIT_RECORDS};
use crate::snapshot::Snapshot;
use vstd::prelude::*;

verus! {

/// The deposit weight of an account in an asset and the block it was last
/// brought up to date.
#[derive(Debug, Clone, Copy, PartialEq, Eq, Structural)]
pub struct DepositVoteWeight {
    /// The weight at the last update.
    pub last_deposit_weight: u64,
    /// Block of the last update.
    pub last_deposit_weight_update: u64,
}

impl View for DepositVoteWeight {
    type V = DepositVoteWeight;

    open spec fn view(&self) -> DepositVoteWeight {
        *self
    }
}

impl Decodable for DepositVoteWeight {
    /// Stored as the weight, then the block.
    open spec fn decoded(bytes: Seq<u8>) -> Option<DepositVoteWeight> {
        let weight = parse_u64(bytes);
        let update = parse_u64(weight.unwrap().1);
        if weight is Some && update is Some {
            Some(
                DepositVoteWeight {
                    last_deposit_weight: weight.unwrap().0,
                    last_deposit_weight_update: update.unwrap().0,
                },
            )
        } else {
            None
        }
    }

    fn decode(bytes: &[u8]) -> (r: Option<DepositVoteWeight>) {
        let (last_deposit_weight, rest) = match take_u64(bytes) {
            Some(x) => x,
            None => return None,
        };
        let (last_deposit_weight_update, _) = match take_u64(rest) {
            Some(x) => x,
            None => return None,
        };
        Some(DepositVoteWeight { last_deposit_weight, last_deposit_weight_update })
    }
}

/// The record of an account for one asset that is nominated through
/// deposits: what all versions of the record share, and the deposit weight.
#[derive(Debug, Clone, PartialEq, Eq)]
pub struct PseduNominationRecord<C> {
    /// What all versions of the record share.
    pub common: C,
    /// The deposit weight at its last update; zero where none is stored.
    pub last_total_deposit_weight: u64,
    /// Block of the last update; zero where none is stored.
    pub last_total_deposit_weight_update: u64,
}

/// The later form of the record, whose weight has 128 bits.
#[derive(Debug, Clone, PartialEq, Eq)]
pub struct PseduNominationRecordV1<C> {
    /// What all versions of the record share.
    pub common: C,
    /// The deposit weight at its last update, where one is stored.
    pub last_total_deposit_weight: Option<u128>,
    /// Block of the last update; zero where none is stored.
    pub last_total_deposit_weight_update: u64,
}

/// What the cell of the deposit weight of `who` in `token` holds in `cells`.
pub open spec fn deposit_record_cell(
    cells: Map<Seq<u8>, Seq<u8>>,
    who: Seq<u8>,
    token: Seq<u8>,
) -> Cell<DepositVoteWeight> {
    cell_of::<DepositVoteWeight>(
        cells,
        cell_key(DEPOSIT_RECORDS, who + byte_string_bytes(token)),
        Hasher::BLAKE2256,
    )
}

/// The record of the account `who` for the asset `token`, with the deposit
/// weight that `state` stores for the two and `common` for the rest. A
/// weight that cannot be read is `DecodeErr`.
pub fn psedu_nomination_record<C>(state: &Snapshot, who: &[u8], token: &[u8], common: C) -> (r:
    Result<PseduNominationRecord<C>, ErrorKind>)
    requires
        token@.len() <= u32::MAX,
    ensures
        match r {
            Ok(record) => record.common == common && match deposit_record_cell(
                state@,
                who@,
                token@,
            ) {
                Cell::Present(weight) => record.last_total_deposit_weight
                    == weight.last_deposit_weight && record.last_total_deposit_weight_update
                    == weight.last_deposit_weight_update,
                Cell::Absent => record.last_total_deposit_weight == 0
                    && record.last_total_deposit_weight_update == 0,
                Cell::Malformed => false,
            },
            Err(ErrorKind::DecodeErr) => deposit_record_cell(state@, who@, token@) is Malformed,
            Err(_) => false,
        },
{
    let mut param: Vec<u8> = Vec::new();
    param.extend_from_slice(who);
    let mut name = encode_byte_string(token);
    param.append(&mut name);
    assert(param@ =~= who@ + byte_string_bytes(token@));
    let cell = key_for(DEPOSIT_RECORDS, param.as_slice());
    match pickout::<DepositVoteWeight>(state, cell.as_slice(), Hasher::BLAKE2256) {
        Ok(Some(weight)) => Ok(
            PseduNominationRecord {
                common,
                last_total_deposit_weight: weight.last_deposit_weight,
                last_total_deposit_weight_update: weight.last_deposit_weight_update,
            },
        ),
        Ok(None) => Ok(
            PseduNominationRecord {
                common,
                last_total_deposit_weight: 0,
                last_total_deposit_weight_update: 0,
            },
        ),
        Err(e) => Err(e),
    }
}

/// The later form of the record of an account for an asset, from what all
/// versions share and the weight with its block, where one was found.
pub fn psedu_nomination_record_v1<C>(common: C, vote_weight: Option<(u128, u64)>) -> (r:
    PseduNominationRecordV1<C>)
    ensures
        r.common == common,
        match vote_weight {
            Some((weight, update)) => r.last_total_deposit_weight == Some(weight)
                && r.last_total_deposit_weight_update == update,
            None => r.last_total_deposit_weight is None && r.last_total_deposit_weight_update
                == 0,
        },
{
    match vote_weight {
        Some((weight, update)) => PseduNominationRecordV1 {
            common,
            last_total_deposit_weight: Some(weight),
            last_total_deposit_weight_update: update,
        },
        None => PseduNominationRecordV1 {
            common,
            last_total_deposit_weight: None,
            last_total_deposit_weight_update: 0,
        },
    }
}

} // verus!
