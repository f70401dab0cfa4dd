//! The keys of the storage cells that the queries read.
//!
//! The key of a cell is the name it was declared under, followed by the
//! bytes of its parameter where it has one.

use crate::codec::{le_bytes, u32_le_bytes, u64_le_bytes};
use vstd::prelude::*;
use vstd::string::StringSliceAdditionalSpecFns;

verus! {

/// Number of trading pairs; no parameter.
pub const TRADING_PAIR_COUNT: &'static str = "XSpot TradingPairCount";

/// A trading pair, by its index.
pub const TRADING_PAIR_OF: &'static str = "XSpot TradingPairOf";

/// Latest and average price of a trading pair, by its index.
pub const TRADING_PAIR_INFO_OF: &'static str = "XSpot TradingPairInfoOf";

/// Best resting prices of a trading pair, by its index.
pub const HANDICAP_OF: &'static str = "XSpot HandicapOf";

/// Number of orders of an account, by the account.
pub const ORDER_COUNT_OF: &'static str = "XSpot OrderCountOf";

/// An order, by its account and its number.
pub const ORDER_INFO_OF: &'static str = "XSpot OrderInfoOf";

/// The orders resting at a price, by trading pair and price.
pub const QUOTATIONS_OF: &'static str = "XSpot QuotationsOf";

/// Block of the last renomination of an account, by the account.
pub const LAST_RENOMINATION_OF: &'static str = "XStaking LastRenominationOf";

/// Number of blocks that a renomination is locked for; no parameter.
pub const BONDING_DURATION: &'static str = "XStaking BondingDuration";

/// Smallest Bitcoin deposit that is credited; no parameter.
pub const BTC_MIN_DEPOSIT: &'static str = "XBridgeOfBTC BtcMinDeposit";

/// The withdrawal that the trustees of the Bitcoin bridge are signing; no
/// parameter.
pub const CURRENT_WITHDRAWAL_PROPOSAL: &'static str = "XBridgeOfBTC CurrentWithdrawalProposal";

/// The account of the team; no parameter.
pub const TEAM_ACCOUNT: &'static str = "XAccounts TeamAccount";

/// The account of the council; no parameter.
pub const COUNCIL_ACCOUNT: &'static str = "XAccounts CouncilAccount";

/// The multi-signature account of the trustees of a chain, by the chain.
pub const TRUSTEE_MULTI_SIG_ADDR: &'static str = "XBridgeFeatures TrusteeMultiSigAddr";

/// The Bitcoin addresses bound to an account, by the account.
pub const BITCOIN_BINDING: &'static str = "XBridgeFeatures BitcoinCrossChainBinding";

/// The Ethereum addresses bound to an account, by the account.
pub const ETHEREUM_BINDING: &'static str = "XBridgeFeatures EthereumCrossChainBinding";

/// The balances of an asset over all accounts, by the name of the asset.
pub const TOTAL_ASSET_BALANCE: &'static str = "XAssets TotalAssetBalance";

/// What may be done with an asset, by the name of the asset.
pub const ASSET_LIMIT_PROPS: &'static str = "XAssets AssetLimitProps";

/// The deposit weight of an account in an asset, by account and asset.
pub const DEPOSIT_RECORDS: &'static str = "XTokens DepositRecords";

/// The key of the cell declared as `name` with the parameter bytes `param`.
pub open spec fn cell_key(name: &str, param: Seq<u8>) -> Seq<u8> {
    name.spec_bytes() + param
}

/// The parameter bytes of a pair of a 32-bit and a 64-bit number.
pub open spec fn pair_param(first: u32, second: u64) -> Seq<u8> {
    le_bytes(first as nat, 4) + le_bytes(second as nat, 8)
}

/// The parameter bytes of an account and a 64-bit number.
pub open spec fn account_param(who: Seq<u8>, number: u64) -> Seq<u8> {
    who + le_bytes(number as nat, 8)
}

/// The key of a cell without a parameter.
pub fn key(name: &str) -> (r: Vec<u8>)
    ensures
        r@ == cell_key(name, Seq::empty()),
{
    let mut out: Vec<u8> = Vec::new();
    out.extend_from_slice(name.as_bytes());
    assert(out@ =~= cell_key(name, Seq::empty()));
    out
}

/// The key of a cell from its name and the bytes of its parameter.
pub fn key_for(name: &str, param: &[u8]) -> (r: Vec<u8>)
    ensures
        r@ == cell_key(name, param@),
{
    let mut out: Vec<u8> = Vec::new();
    out.extend_from_slice(name.as_bytes());
    out.extend_from_slice(param);
    assert(out@ =~= cell_key(name, param@));
    out
}

/// The key of a cell whose parameter is a 32-bit number.
pub fn key_for_u32(name: &str, index: u32) -> (r: Vec<u8>)
    ensures
        r@ == cell_key(name, le_bytes(index as nat, 4)),
{
    let param = u32_le_bytes(index);
    key_for(name, param.as_slice())
}

/// The key of a cell whose parameter is a pair of a 32-bit and a 64-bit
/// number.
pub fn key_for_pair(name: &str, first: u32, second: u64) -> (r: Vec<u8>)
    ensures
        r@ == cell_key(name, pair_param(first, second)),
{
    let mut param = u32_le_bytes(first);
    let mut high = u64_le_bytes(second);
    param.append(&mut high);
    key_for(name, param.as_slice())
}

/// The key of a cell whose parameter is an account and a 64-bit number.
pub fn key_for_account(name: &str, who: &[u8], number: u64) -> (r: Vec<u8>)
    ensures
        r@ == cell_key(name, account_param(who@, number)),
{
    let mut param: Vec<u8> = Vec::new();
    param.extend_from_slice(who);
    let mut high = u64_le_bytes(number);
    param.append(&mut high);
    assert(param@ =~= account_param(who@, number));
    key_for(name, param.as_slice())
}

} // verus!
