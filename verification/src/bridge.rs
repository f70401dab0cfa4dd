//! Queries on the bridges to other chains.

use crate::accessor::{cell_of, pickout, present, Cell, Decodable};
use crate::account::AccountId;
use crate::codec::{chunk_views, parse_chunks, take_chunks};
use crate::error::ErrorKind;
use crate::hashing::{physical_key, storage_key, Hasher};
use crate::keys::{
    cell_key, key, key_for, BITCOIN_BINDING, BTC_MIN_DEPOSIT, COUNCIL_ACCOUNT,
    CURRENT_WITHDRAWAL_PROPOSAL, ETHEREUM_BINDING, TEAM_ACCOUNT, TRUSTEE_MULTI_SIG_ADDR,
};
use crate::snapshot::{bytes_equal, Snapshot};
use vstd::prelude::*;
use vstd::string::StringSliceAdditionalSpecFns;

verus! {

/// A chain that assets live on.
#[derive(Debug, Clone, Copy, PartialEq, Eq, Structural)]
pub enum Chain {
    ChainX,
    Bitcoin,
    Ethereum,
}

/// The byte that a chain is stored as.
pub open spec fn chain_tag(chain: Chain) -> u8 {
    match chain {
        Chain::ChainX => 0,
        Chain::Bitcoin => 1,
        Chain::Ethereum => 2,
    }
}

impl Chain {
    /// The byte that the chain is stored as.
    pub fn tag(&self) -> (t: u8)
        ensures
            t == chain_tag(*self),
    {
        match self {
            Chain::ChainX => 0,
            Chain::Bitcoin => 1,
            Chain::Ethereum => 2,
        }
    }
}

/// Name of the asset of the Bitcoin bridge.
pub const BTC_TOKEN: &'static str = "BTC";

/// The smallest Bitcoin deposit where none is stored.
pub const DEFAULT_BTC_MIN_DEPOSIT: u64 = 100000;

/// The smallest deposit of an asset that is credited.
#[derive(Debug, Clone, Copy, PartialEq, Eq, Structural)]
pub struct DepositLimit {
    /// The smallest deposit.
    pub minimal_deposit: u64,
}

/// What the cell of the smallest Bitcoin deposit holds in `cells`.
pub open spec fn btc_min_deposit_cell(cells: Map<Seq<u8>, Seq<u8>>) -> Cell<u64> {
    cell_of::<u64>(cells, cell_key(BTC_MIN_DEPOSIT, Seq::empty()), Hasher::TWOX128)
}

/// The smallest deposit of the asset `token`.
///
/// Only the asset of the Bitcoin bridge has one: the stored value, or
/// `DEFAULT_BTC_MIN_DEPOSIT` where none is stored. A name that is no valid
/// asset name, which the caller says by `token_valid`, and any other asset
/// give `Ok(None)`.
pub fn deposit_limit(state: &Snapshot, token: &[u8], token_valid: bool) -> (r: Result<
    Option<DepositLimit>,
    ErrorKind,
>)
    ensures
        match r {
            Ok(None) => !token_valid || token@ != BTC_TOKEN.spec_bytes(),
            Ok(Some(limit)) => {
                &&& token_valid
                &&& token@ == BTC_TOKEN.spec_bytes()
                &&& match btc_min_deposit_cell(state@) {
                    Cell::Present(stored) => limit.minimal_deposit == stored,
                    Cell::Absent => limit.minimal_deposit == DEFAULT_BTC_MIN_DEPOSIT,
                    Cell::Malformed => false,
                }
            },
            Err(ErrorKind::DecodeErr) => token_valid && token@ == BTC_TOKEN.spec_bytes()
                && btc_min_deposit_cell(state@) is Malformed,
            Err(_) => false,
        },
{
    if !token_valid {
        return Ok(None);
    }
    if !bytes_equal(token, BTC_TOKEN.as_bytes()) {
        return Ok(None);
    }
    let limit_key = key(BTC_MIN_DEPOSIT);
    match pickout::<u64>(state, limit_key.as_slice(), Hasher::TWOX128) {
        Ok(Some(stored)) => Ok(Some(DepositLimit { minimal_deposit: stored })),
        Ok(None) => Ok(Some(DepositLimit { minimal_deposit: DEFAULT_BTC_MIN_DEPOSIT })),
        Err(e) => Err(e),
    }
}

/// Number of bytes of the hash of an address.
pub const ADDRESS_HASH_LEN: usize = 20;

/// What a Bitcoin address pays to.
#[derive(Debug, Clone, Copy, PartialEq, Eq, Structural)]
pub enum AddressKind {
    /// The hash of a public key.
    P2PKH,
    /// The hash of a script.
    P2SH,
}

/// The Bitcoin network of an address.
#[derive(Debug, Clone, Copy, PartialEq, Eq, Structural)]
pub enum Network {
    Mainnet,
    Testnet,
}

/// An address on another chain that is bound to an account.
#[derive(Debug, Clone, PartialEq, Eq)]
pub enum BoundAddress {
    /// A Bitcoin address: what it pays to, its network and its hash.
    Bitcoin { kind: AddressKind, network: Network, hash: Vec<u8> },
    /// An Ethereum address: its hash.
    Ethereum { hash: Vec<u8> },
}

/// A bound address, as plain values.
pub enum BoundAddressView {
    Bitcoin { kind: AddressKind, network: Network, hash: Seq<u8> },
    Ethereum { hash: Seq<u8> },
}

impl View for BoundAddress {
    type V = BoundAddressView;

    open spec fn view(&self) -> BoundAddressView {
        match self {
            BoundAddress::Bitcoin { kind, network, hash } => BoundAddressView::Bitcoin {
                kind: *kind,
                network: *network,
                hash: hash@,
            },
            BoundAddress::Ethereum { hash } => BoundAddressView::Ethereum { hash: hash@ },
        }
    }
}

/// The plain values of a list of bound addresses.
pub open spec fn address_views(addresses: Seq<BoundAddress>) -> Seq<BoundAddressView> {
    Seq::new(addresses.len(), |i: int| addresses[i]@)
}

/// Whether the record `chunk` is a stored Bitcoin address: a byte for what
/// it pays to, a byte for the network, then the hash.
pub open spec fn is_bitcoin_record(chunk: Seq<u8>) -> bool {
    chunk.len() == 2 + ADDRESS_HASH_LEN && chunk[0] <= 1 && chunk[1] <= 1
}

/// The Bitcoin address that the record `chunk` holds.
pub open spec fn bitcoin_address_of(chunk: Seq<u8>) -> BoundAddressView {
    BoundAddressView::Bitcoin {
        kind: if chunk[0] == 0 {
            AddressKind::P2PKH
        } else {
            AddressKind::P2SH
        },
        network: if chunk[1] == 0 {
            Network::Mainnet
        } else {
            Network::Testnet
        },
        hash: chunk.skip(2),
    }
}

/// The Bitcoin addresses bound to one account.
#[derive(Debug, Clone, PartialEq, Eq)]
pub struct BitcoinAddressList {
    /// The addresses, each a `BoundAddress::Bitcoin`.
    pub addresses: Vec<BoundAddress>,
}

impl View for BitcoinAddressList {
    type V = Seq<BoundAddressView>;

    open spec fn view(&self) -> Seq<BoundAddressView> {
        address_views(self.addresses@)
    }
}

impl Decodable for BitcoinAddressList {
    /// Stored as a compact count, then one record for each address.
    open spec fn decoded(bytes: Seq<u8>) -> Option<Seq<BoundAddressView>> {
        match parse_chunks(bytes, (2 + ADDRESS_HASH_LEN) as nat) {
            Some((chunks, _)) => if forall|i: int|
                0 <= i < chunks.len() ==> is_bitcoin_record(#[trigger] chunks[i]) {
                Some(Seq::new(chunks.len(), |i: int| bitcoin_address_of(chunks[i])))
            } else {
                None
            },
            None => None,
        }
    }

    #[verifier::loop_isolation(false)]
    fn decode(bytes: &[u8]) -> (r: Option<BitcoinAddressList>) {
        let (chunks, _) = match take_chunks(bytes, 22) {
            Some(x) => x,
            None => return None,
        };
        let ghost records = chunk_views(chunks@);
        let mut addresses: Vec<BoundAddress> = Vec::new();
        let mut i: usize = 0;
        while i < chunks.len()
            invariant
                i <= chunks.len(),
                records == chunk_views(chunks@),
                forall|j: int| 0 <= j < records.len() ==> (#[trigger] records[j]).len() == 22,
                addresses@.len() == i,
                forall|j: int| 0 <= j < i ==> is_bitcoin_record(#[trigger] records[j]),
                forall|j: int|
                    0 <= j < i ==> (#[trigger] addresses@[j])@ == bitcoin_address_of(records[j]),
            decreases chunks.len() - i,
        {
            let chunk = &chunks[i];
            assert(chunk@ == records[i as int]);
            if chunk[0] > 1 || chunk[1] > 1 {
                assert(!is_bitcoin_record(records[i as int]));
                return None;
            }
            let kind = if chunk[0] == 0 {
                AddressKind::P2PKH
            } else {
                AddressKind::P2SH
            };
            let network = if chunk[1] == 0 {
                Network::Mainnet
            } else {
                Network::Testnet
            };
            let mut hash: Vec<u8> = Vec::new();
            hash.extend_from_slice(vstd::slice::slice_subrange(chunk.as_slice(), 2, 22));
            assert(hash@ =~= chunk@.skip(2));
            addresses.push(BoundAddress::Bitcoin { kind, network, hash });
            i = i + 1;
        }
        let list = BitcoinAddressList { addresses };
        assert(list@ =~= Seq::new(records.len(), |i: int| bitcoin_address_of(records[i])));
        Some(list)
    }
}

/// The Ethereum addresses bound to one account.
#[derive(Debug, Clone, PartialEq, Eq)]
pub struct EthereumAddressList {
    /// The addresses, each a `BoundAddress::Ethereum`.
    pub addresses: Vec<BoundAddress>,
}

impl View for EthereumAddressList {
    type V = Seq<BoundAddressView>;

    open spec fn view(&self) -> Seq<BoundAddressView> {
        address_views(self.addresses@)
    }
}

impl Decodable for EthereumAddressList {
    /// Stored as a compact count, then the hash of each address.
    open spec fn decoded(bytes: Seq<u8>) -> Option<Seq<BoundAddressView>> {
        match parse_chunks(bytes, ADDRESS_HASH_LEN as nat) {
            Some((chunks, _)) => Some(
                Seq::new(chunks.len(), |i: int| BoundAddressView::Ethereum { hash: chunks[i] }),
            ),
            None => None,
        }
    }

    fn decode(bytes: &[u8]) -> (r: Option<EthereumAddressList>) {
        let (chunks, _) = match take_chunks(bytes, 20) {
            Some(x) => x,
            None => return None,
        };
        let ghost records = chunk_views(chunks@);
        let mut addresses: Vec<BoundAddress> = Vec::new();
        let mut i: usize = 0;
        while i < chunks.len()
            invariant
                i <= chunks.len(),
                records == chunk_views(chunks@),
                addresses@.len() == i,
                forall|j: int|
                    0 <= j < i ==> (#[trigger] addresses@[j])@ == (BoundAddressView::Ethereum {
                        hash: records[j],
                    }),
            decreases chunks.len() - i,
        {
            let hash = chunks[i].clone();
            assert(hash@ =~= records[i as int]);
            addresses.push(BoundAddress::Ethereum { hash });
            i = i + 1;
        }
        let list = EthereumAddressList { addresses };
        assert(list@ =~= Seq::new(
            records.len(),
            |i: int| BoundAddressView::Ethereum { hash: records[i] },
        ));
        Some(list)
    }
}

/// What the cell of the addresses of `who` on `chain` holds in `cells`.
/// Only Bitcoin and Ethereum addresses can be bound.
pub open spec fn binding_cell(cells: Map<Seq<u8>, Seq<u8>>, who: Seq<u8>, chain: Chain) -> Cell<
    Seq<BoundAddressView>,
> {
    match chain {
        Chain::Bitcoin => cell_of::<BitcoinAddressList>(
            cells,
            cell_key(BITCOIN_BINDING, who),
            Hasher::BLAKE2256,
        ),
        Chain::Ethereum => cell_of::<EthereumAddressList>(
            cells,
            cell_key(ETHEREUM_BINDING, who),
            Hasher::BLAKE2256,
        ),
        Chain::ChainX => Cell::Absent,
    }
}

/// The addresses on `chain` that are bound to the account `who`, in the
/// order they are stored in; none where nothing is stored.
///
/// A chain other than Bitcoin and Ethereum is rejected with
/// `UnsupportedChainErr`, whatever the snapshot holds; a cell that cannot be
/// read is `DecodeErr`.
pub fn address(state: &Snapshot, who: &[u8], chain: Chain) -> (r: Result<
    Option<Vec<BoundAddress>>,
    ErrorKind,
>)
    ensures
        match r {
            Ok(Some(addresses)) => chain != Chain::ChainX && match binding_cell(
                state@,
                who@,
                chain,
            ) {
                Cell::Present(stored) => address_views(addresses@) == stored,
                Cell::Absent => addresses@.len() == 0,
                Cell::Malformed => false,
            },
            Ok(None) => false,
            Err(ErrorKind::UnsupportedChainErr) => chain == Chain::ChainX,
            Err(ErrorKind::DecodeErr) => chain != Chain::ChainX && binding_cell(
                state@,
                who@,
                chain,
            ) is Malformed,
            Err(_) => false,
        },
        chain == Chain::ChainX ==> r matches Err(ErrorKind::UnsupportedChainErr),
{
    match chain {
        Chain::Bitcoin => {
            let cell = key_for(BITCOIN_BINDING, who);
            match pickout::<BitcoinAddressList>(state, cell.as_slice(), Hasher::BLAKE2256) {
                Ok(Some(list)) => Ok(Some(list.addresses)),
                Ok(None) => Ok(Some(Vec::new())),
                Err(e) => Err(e),
            }
        },
        Chain::Ethereum => {
            let cell = key_for(ETHEREUM_BINDING, who);
            match pickout::<EthereumAddressList>(state, cell.as_slice(), Hasher::BLAKE2256) {
                Ok(Some(list)) => Ok(Some(list.addresses)),
                Ok(None) => Ok(Some(Vec::new())),
                Err(e) => Err(e),
            }
        },
        Chain::ChainX => Err(ErrorKind::UnsupportedChainErr),
    }
}

/// The key that the withdrawal proposal of the Bitcoin bridge is stored
/// under.
pub open spec fn withdrawal_proposal_key() -> Seq<u8> {
    physical_key(cell_key(CURRENT_WITHDRAWAL_PROPOSAL, Seq::empty()), Hasher::TWOX128)
}

/// The stored bytes of the withdrawal that the trustees of `chain` are
/// signing. Only the Bitcoin bridge has one; for another chain, and where
/// none is stored, the result is `None`. The bytes hold a Bitcoin
/// transaction and are handed out as they are stored.
pub fn withdraw_tx_bytes(state: &Snapshot, chain: Chain) -> (r: Option<Vec<u8>>)
    ensures
        match r {
            Some(bytes) => chain == Chain::Bitcoin && state@.contains_key(
                withdrawal_proposal_key(),
            ) && state@[withdrawal_proposal_key()] == bytes@,
            None => chain != Chain::Bitcoin || !state@.contains_key(withdrawal_proposal_key()),
        },
{
    match chain {
        Chain::Bitcoin => {
            let cell = key(CURRENT_WITHDRAWAL_PROPOSAL);
            let stored_under = storage_key(cell.as_slice(), Hasher::TWOX128);
            state.raw_get(stored_under.as_slice())
        },
        _ => None,
    }
}

/// The accounts with a standing of their own.
#[derive(Debug, Clone, PartialEq, Eq)]
pub struct ParticularAccounts {
    /// The account of the team, where one is stored.
    pub team_account: Option<AccountId>,
    /// The account of the council, where one is stored.
    pub council_account: Option<AccountId>,
    /// The multi-signature account of the trustees of each chain that has
    /// one, in the order of the chains.
    pub trustees_account: Vec<(Chain, AccountId)>,
}

/// What the cell of the trustees' account of `chain` holds in `cells`.
pub open spec fn trustee_cell(cells: Map<Seq<u8>, Seq<u8>>, chain: Chain) -> Cell<Seq<u8>> {
    cell_of::<AccountId>(
        cells,
        cell_key(TRUSTEE_MULTI_SIG_ADDR, seq![chain_tag(chain)]),
        Hasher::BLAKE2256,
    )
}

/// What the cell of the team's account holds in `cells`.
pub open spec fn team_cell(cells: Map<Seq<u8>, Seq<u8>>) -> Cell<Seq<u8>> {
    cell_of::<AccountId>(cells, cell_key(TEAM_ACCOUNT, Seq::empty()), Hasher::TWOX128)
}

/// What the cell of the council's account holds in `cells`.
pub open spec fn council_cell(cells: Map<Seq<u8>, Seq<u8>>) -> Cell<Seq<u8>> {
    cell_of::<AccountId>(cells, cell_key(COUNCIL_ACCOUNT, Seq::empty()), Hasher::TWOX128)
}

/// The chains in their order.
pub open spec fn all_chains() -> Seq<Chain> {
    seq![Chain::ChainX, Chain::Bitcoin, Chain::Ethereum]
}

/// The trustees' accounts among the first `n` chains, each with its chain.
pub open spec fn trustees_of(cells: Map<Seq<u8>, Seq<u8>>, n: nat) -> Seq<(Chain, Seq<u8>)>
    decreases n,
{
    if n == 0 || n > 3 {
        Seq::empty()
    } else {
        let chain = all_chains()[n - 1];
        match trustee_cell(cells, chain) {
            Cell::Present(account) => trustees_of(cells, (n - 1) as nat).push((chain, account)),
            _ => trustees_of(cells, (n - 1) as nat),
        }
    }
}

/// The plain values of a list of chains with their accounts.
pub open spec fn trustee_views(accounts: Seq<(Chain, AccountId)>) -> Seq<(Chain, Seq<u8>)> {
    Seq::new(accounts.len(), |i: int| (accounts[i].0, accounts[i].1@))
}

/// The plain value of an account that may be missing.
pub open spec fn account_view(account: Option<AccountId>) -> Option<Seq<u8>> {
    match account {
        Some(id) => Some(id@),
        None => None,
    }
}

/// Whether every cell that the listing of the particular accounts reads can
/// be read.
pub open spec fn particular_accounts_readable(cells: Map<Seq<u8>, Seq<u8>>) -> bool {
    &&& !(team_cell(cells) is Malformed)
    &&& !(council_cell(cells) is Malformed)
    &&& !(trustee_cell(cells, Chain::ChainX) is Malformed)
    &&& !(trustee_cell(cells, Chain::Bitcoin) is Malformed)
    &&& !(trustee_cell(cells, Chain::Ethereum) is Malformed)
}

/// The account of the team, the account of the council and the trustees'
/// account of each chain, as far as they are stored. A cell that cannot be
/// read ends the query with `DecodeErr`.
pub fn particular_accounts(state: &Snapshot) -> (r: Result<ParticularAccounts, ErrorKind>)
    ensures
        match r {
            Ok(accounts) => {
                &&& particular_accounts_readable(state@)
                &&& account_view(accounts.team_account) == present(team_cell(state@))
                &&& account_view(accounts.council_account) == present(council_cell(state@))
                &&& trustee_views(accounts.trustees_account@) == trustees_of(state@, 3)
            },
            Err(ErrorKind::DecodeErr) => !particular_accounts_readable(state@),
            Err(_) => false,
        },
{
    let team_key = key(TEAM_ACCOUNT);
    let team_account = match pickout::<AccountId>(state, team_key.as_slice(), Hasher::TWOX128) {
        Ok(found) => found,
        Err(e) => {
            return Err(e);
        },
    };
    let council_key = key(COUNCIL_ACCOUNT);
    let council_account = match pickout::<AccountId>(
        state,
        council_key.as_slice(),
        Hasher::TWOX128,
    ) {
        Ok(found) => found,
        Err(e) => {
            return Err(e);
        },
    };
    let chains = [Chain::ChainX, Chain::Bitcoin, Chain::Ethereum];
    let mut trustees_account: Vec<(Chain, AccountId)> = Vec::new();
    let mut i: usize = 0;
    assert(trustee_views(trustees_account@) =~= trustees_of(state@, 0));
    while i < 3
        invariant
            i <= 3,
            chains@ == all_chains(),
            trustee_views(trustees_account@) == trustees_of(state@, i as nat),
            forall|j: int| 0 <= j < i ==> !(trustee_cell(state@, #[trigger] all_chains()[j])
                is Malformed),
        decreases 3 - i,
    {
        let chain = chains[i];
        let mut param: Vec<u8> = Vec::new();
        param.push(chain.tag());
        assert(param@ =~= seq![chain_tag(chain)]);
        let trustee_key = key_for(TRUSTEE_MULTI_SIG_ADDR, param.as_slice());
        let ghost before = trustees_account@;
        match pickout::<AccountId>(state, trustee_key.as_slice(), Hasher::BLAKE2256) {
            Ok(Some(account)) => {
                trustees_account.push((chain, account));
                assert(trustee_views(trustees_account@) =~= trustee_views(before).push(
                    (chain, account@),
                ));
            },
            Ok(None) => {},
            Err(e) => {
                assert(trustee_cell(state@, all_chains()[i as int]) is Malformed);
                return Err(e);
            },
        }
        i = i + 1;
    }
    assert(all_chains()[0] == Chain::ChainX && all_chains()[1] == Chain::Bitcoin
        && all_chains()[2] == Chain::Ethereum);
    Ok(ParticularAccounts { team_account, council_account, trustees_account })
}

} // verus!
