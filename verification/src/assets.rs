//! Queries on assets: balances by kind and what may be done with an asset.

use crate::accessor::{cell_of, pickout, Cell, Decodable};
use crate::bridge::Chain;
use crate::codec::{
    byte_string_bytes, chunk_views, encode_byte_string, le_nat, parse_chunks, take_chunks, take_u64,
};
use crate::error::ErrorKind;
use crate::hashing::Hasher;
use crate::keys::{cell_key, key_for, ASSET_LIMIT_PROPS, TOTAL_ASSET_BALANCE};
use crate::page::{
    into_pagedata, lemma_page_items_views, page_count, page_index_out_of_range, page_items,
    pages_fit, views, PageData,
};
use crate::snapshot::Snapshot;
use vstd::prelude::*;

verus! {

/// Number of kinds of balance.
pub const ASSET_TYPE_COUNT: u8 = 8;

/// Number of things that may be allowed for an asset.
pub const ASSET_LIMIT_COUNT: u8 = 6;

/// The kinds of balance that an account holds of an asset. A kind is stored
/// as its rank in this list.
#[derive(Debug, Clone, Copy, PartialEq, Eq, Structural)]
pub enum AssetType {
    Free,
    ReservedStaking,
    ReservedStakingRevocation,
    ReservedWithdrawal,
    ReservedDexSpot,
    ReservedDexFuture,
    ReservedCurrency,
    ReservedXRC20,
}

/// What may be allowed for an asset. A limit is stored as its rank in this
/// list.
#[derive(Debug, Clone, Copy, PartialEq, Eq, Structural)]
pub enum AssetLimit {
    CanMove,
    CanTransfer,
    CanDeposit,
    CanWithdraw,
    CanDestroyWithdrawal,
    CanDestroyFree,
}

/// The rank of a kind of balance: its place in the list of the kinds.
pub open spec fn asset_type_rank(kind: AssetType) -> u8 {
    match kind {
        AssetType::Free => 0,
        AssetType::ReservedStaking => 1,
        AssetType::ReservedStakingRevocation => 2,
        AssetType::ReservedWithdrawal => 3,
        AssetType::ReservedDexSpot => 4,
        AssetType::ReservedDexFuture => 5,
        AssetType::ReservedCurrency => 6,
        AssetType::ReservedXRC20 => 7,
    }
}

/// The rank of a limit: its place in the list of the limits.
pub open spec fn asset_limit_rank(limit: AssetLimit) -> u8 {
    match limit {
        AssetLimit::CanMove => 0,
        AssetLimit::CanTransfer => 1,
        AssetLimit::CanDeposit => 2,
        AssetLimit::CanWithdraw => 3,
        AssetLimit::CanDestroyWithdrawal => 4,
        AssetLimit::CanDestroyFree => 5,
    }
}

impl AssetType {
    /// The rank of the kind.
    pub fn rank(&self) -> (r: u8)
        ensures
            r == asset_type_rank(*self),
            r < ASSET_TYPE_COUNT,
    {
        match self {
            AssetType::Free => 0,
            AssetType::ReservedStaking => 1,
            AssetType::ReservedStakingRevocation => 2,
            AssetType::ReservedWithdrawal => 3,
            AssetType::ReservedDexSpot => 4,
            AssetType::ReservedDexFuture => 5,
            AssetType::ReservedCurrency => 6,
            AssetType::ReservedXRC20 => 7,
        }
    }
}

impl AssetLimit {
    /// The rank of the limit.
    pub fn rank(&self) -> (r: u8)
        ensures
            r == asset_limit_rank(*self),
            r < ASSET_LIMIT_COUNT,
    {
        match self {
            AssetLimit::CanMove => 0,
            AssetLimit::CanTransfer => 1,
            AssetLimit::CanDeposit => 2,
            AssetLimit::CanWithdraw => 3,
            AssetLimit::CanDestroyWithdrawal => 4,
            AssetLimit::CanDestroyFree => 5,
        }
    }
}

/// The value that `entries` give to `rank`: that of the last entry for the
/// rank, or `default` where there is none.
pub open spec fn last_value<V>(entries: Seq<(u8, V)>, rank: u8, default: V) -> V
    decreases entries.len(),
{
    if entries.len() == 0 {
        default
    } else if entries.last().0 == rank {
        entries.last().1
    } else {
        last_value(entries.drop_last(), rank, default)
    }
}

/// A value for each of the ranks `0..count`: what `entries` give to the
/// rank, or `default`.
pub open spec fn filled<V>(entries: Seq<(u8, V)>, count: nat, default: V) -> Seq<V> {
    Seq::new(count, |rank: int| last_value(entries, rank as u8, default))
}

/// Lists a value for each of the ranks `0..count`, taking it from `entries`
/// where they name the rank and `default` where they do not. An entry for a
/// rank at or above `count` is passed over.
pub fn fill_defaults<V: Copy>(entries: &Vec<(u8, V)>, count: u8, default: V) -> (out: Vec<V>)
    ensures
        out@ == filled(entries@, count as nat, default),
{
    let mut out: Vec<V> = Vec::new();
    let mut k: u8 = 0;
    while k < count
        invariant
            k <= count,
            out@.len() == k,
            forall|j: int| 0 <= j < k ==> out@[j] == default,
        decreases count - k,
    {
        out.push(default);
        k = k + 1;
    }
    assert(out@ =~= filled(entries@.take(0), count as nat, default));
    let mut i: usize = 0;
    while i < entries.len()
        invariant
            i <= entries.len(),
            out@.len() == count,
            out@ == filled(entries@.take(i as int), count as nat, default),
        decreases entries.len() - i,
    {
        let (rank, value) = entries[i];
        let ghost before = out@;
        assert(entries@.take(i + 1).drop_last() =~= entries@.take(i as int));
        if rank < count {
            out.set(rank as usize, value);
        }
        assert(out@ =~= filled(entries@.take(i + 1), count as nat, default));
        i = i + 1;
    }
    assert(entries@.take(entries@.len() as int) =~= entries@);
    out
}

/// The balances of one asset, kind by kind.
#[derive(Debug, Clone, PartialEq, Eq)]
pub struct AssetInfo {
    /// Name of the asset.
    pub name: Vec<u8>,
    /// The balance of each kind, in the order of the ranks of `AssetType`.
    pub details: Vec<u64>,
}

/// The balances of one asset, as plain values.
pub struct AssetInfoView {
    pub name: Seq<u8>,
    pub details: Seq<u64>,
}

impl View for AssetInfo {
    type V = AssetInfoView;

    open spec fn view(&self) -> AssetInfoView {
        AssetInfoView { name: self.name@, details: self.details@ }
    }
}

/// What a listing shows of the asset `name` with the balances `balances`:
/// every kind of balance, with zero for a kind that is not given.
pub open spec fn asset_info_of(name: Seq<u8>, balances: Seq<(u8, u64)>) -> AssetInfoView {
    AssetInfoView { name, details: filled(balances, ASSET_TYPE_COUNT as nat, 0u64) }
}

/// What a listing shows of each of the assets in `assets`.
pub open spec fn asset_infos_of(assets: Seq<(Vec<u8>, Vec<(u8, u64)>)>) -> Seq<AssetInfoView> {
    Seq::new(assets.len(), |i: int| asset_info_of(assets[i].0@, assets[i].1@))
}

/// One page of the balances of an account: for each asset, given by its name
/// and the balances that the account holds of it, every kind of balance.
/// Errors are those of [`into_pagedata`].
pub fn assets_of(assets: Vec<(Vec<u8>, Vec<(u8, u64)>)>, page_index: u32, page_size: u32) -> (r:
    Result<Option<PageData<AssetInfo>>, ErrorKind>)
    requires
        pages_fit(assets@.len(), page_size as nat),
    ensures
        match r {
            Ok(Some(page)) => {
                &&& page_size > 0
                &&& !page_index_out_of_range(assets@.len(), page_index as nat, page_size as nat)
                &&& page.page_total == page_count(assets@.len(), page_size as nat)
                &&& page.page_index == page_index
                &&& page.page_size == page_size
                &&& views(page.data@) == page_items(
                    asset_infos_of(assets@),
                    page_index as nat,
                    page_size as nat,
                )
            },
            Ok(None) => false,
            Err(ErrorKind::PageSizeErr) => page_size == 0,
            Err(ErrorKind::PageIndexErr) => page_size > 0 && page_index_out_of_range(
                assets@.len(),
                page_index as nat,
                page_size as nat,
            ),
            Err(_) => false,
        },
{
    let mut infos: Vec<AssetInfo> = Vec::new();
    for asset in it: assets
        invariant
            it.seq() == assets@,
            infos@.len() == it.index(),
            forall|j: int|
                0 <= j < it.index() ==> (#[trigger] infos@[j])@ == asset_info_of(
                    assets@[j].0@,
                    assets@[j].1@,
                ),
    {
        let (name, balances) = asset;
        let details = fill_defaults(&balances, ASSET_TYPE_COUNT, 0u64);
        infos.push(AssetInfo { name, details });
    }
    proof {
        assert(views(infos@) =~= asset_infos_of(assets@));
        lemma_page_items_views(infos@, page_index as nat, page_size as nat);
    }
    into_pagedata(infos, page_index, page_size)
}

/// The balances that are stored for an asset: kinds, by their ranks, with
/// their balances.
#[derive(Debug, Clone, PartialEq, Eq)]
pub struct BalanceMap {
    /// The entries in stored order.
    pub entries: Vec<(u8, u64)>,
}

impl View for BalanceMap {
    type V = Seq<(u8, u64)>;

    open spec fn view(&self) -> Seq<(u8, u64)> {
        self.entries@
    }
}

impl Decodable for BalanceMap {
    /// Stored as a compact count, then for each entry the rank of the kind
    /// in one byte and the balance in eight.
    open spec fn decoded(bytes: Seq<u8>) -> Option<Seq<(u8, u64)>> {
        match parse_chunks(bytes, 9) {
            Some((chunks, _)) => if forall|i: int|
                0 <= i < chunks.len() ==> (#[trigger] chunks[i])[0] < ASSET_TYPE_COUNT {
                Some(
                    Seq::new(
                        chunks.len(),
                        |i: int| (chunks[i][0], le_nat(chunks[i].skip(1)) as u64),
                    ),
                )
            } else {
                None
            },
            None => None,
        }
    }

    #[verifier::loop_isolation(false)]
    fn decode(bytes: &[u8]) -> (r: Option<BalanceMap>) {
        let (chunks, _) = match take_chunks(bytes, 9) {
            Some(x) => x,
            None => return None,
        };
        let ghost records = chunk_views(chunks@);
        let mut entries: Vec<(u8, u64)> = Vec::new();
        let mut i: usize = 0;
        while i < chunks.len()
            invariant
                i <= chunks.len(),
                entries@.len() == i,
                forall|j: int| 0 <= j < i ==> (#[trigger] records[j])[0] < ASSET_TYPE_COUNT,
                forall|j: int|
                    0 <= j < i ==> #[trigger] entries@[j] == (
                        records[j][0],
                        le_nat(records[j].skip(1)) as u64,
                    ),
            decreases chunks.len() - i,
        {
            let chunk = &chunks[i];
            assert(chunk@ == records[i as int]);
            assert(chunk@.len() == 9);
            let rank = chunk[0];
            if rank >= ASSET_TYPE_COUNT {
                return None;
            }
            let (balance, _) = match take_u64(vstd::slice::slice_subrange(chunk.as_slice(), 1, 9)) {
                Some(x) => x,
                None => return None,
            };
            assert(chunk@.subrange(1, 9).take(8) =~= chunk@.skip(1));
            entries.push((rank, balance));
            i = i + 1;
        }
        let map = BalanceMap { entries };
        assert(map@ =~= Seq::new(
            records.len(),
            |i: int| (records[i][0], le_nat(records[i].skip(1)) as u64),
        ));
        Some(map)
    }
}

/// The limits that are stored for an asset: limits, by their ranks, each
/// allowed or not.
#[derive(Debug, Clone, PartialEq, Eq)]
pub struct LimitMap {
    /// The entries in stored order.
    pub entries: Vec<(u8, bool)>,
}

impl View for LimitMap {
    type V = Seq<(u8, bool)>;

    open spec fn view(&self) -> Seq<(u8, bool)> {
        self.entries@
    }
}

impl Decodable for LimitMap {
    /// Stored as a compact count, then for each entry the rank of the limit
    /// in one byte and a flag in one.
    open spec fn decoded(bytes: Seq<u8>) -> Option<Seq<(u8, bool)>> {
        match parse_chunks(bytes, 2) {
            Some((chunks, _)) => if forall|i: int|
                0 <= i < chunks.len() ==> (#[trigger] chunks[i])[0] < ASSET_LIMIT_COUNT
                    && chunks[i][1] <= 1 {
                Some(Seq::new(chunks.len(), |i: int| (chunks[i][0], chunks[i][1] == 1)))
            } else {
                None
            },
            None => None,
        }
    }

    #[verifier::loop_isolation(false)]
    fn decode(bytes: &[u8]) -> (r: Option<LimitMap>) {
        let (chunks, _) = match take_chunks(bytes, 2) {
            Some(x) => x,
            None => return None,
        };
        let ghost records = chunk_views(chunks@);
        let mut entries: Vec<(u8, bool)> = Vec::new();
        let mut i: usize = 0;
        while i < chunks.len()
            invariant
                i <= chunks.len(),
                entries@.len() == i,
                forall|j: int|
                    0 <= j < i ==> (#[trigger] records[j])[0] < ASSET_LIMIT_COUNT && records[j][1]
                        <= 1,
                forall|j: int|
                    0 <= j < i ==> #[trigger] entries@[j] == (records[j][0], records[j][1] == 1),
            decreases chunks.len() - i,
        {
            let chunk = &chunks[i];
            assert(chunk@ == records[i as int]);
            assert(chunk@.len() == 2);
            if chunk[0] >= ASSET_LIMIT_COUNT || chunk[1] > 1 {
                return None;
            }
            entries.push((chunk[0], chunk[1] == 1));
            i = i + 1;
        }
        let map = LimitMap { entries };
        assert(map@ =~= Seq::new(records.len(), |i: int| (records[i][0], records[i][1] == 1)));
        Some(map)
    }
}

/// An asset as it is registered.
#[derive(Debug, Clone, PartialEq, Eq)]
pub struct Asset {
    /// The short name of the asset, which its cells are stored under.
    pub token: Vec<u8>,
    /// The full name of the asset.
    pub token_name: Vec<u8>,
    /// The chain that the asset lives on.
    pub chain: Chain,
    /// Number of decimals of an amount.
    pub precision: u16,
    /// A description.
    pub desc: Vec<u8>,
}

/// What a listing shows of one registered asset.
#[derive(Debug, Clone, PartialEq, Eq)]
pub struct TotalAssetInfo {
    /// The short name of the asset.
    pub name: Vec<u8>,
    /// The full name of the asset.
    pub token_name: Vec<u8>,
    /// The chain that the asset lives on.
    pub chain: Chain,
    /// Number of decimals of an amount.
    pub precision: u16,
    /// A description.
    pub desc: Vec<u8>,
    /// Whether the asset is in use.
    pub online: bool,
    /// The balance of each kind over all accounts, in the order of the ranks
    /// of `AssetType`.
    pub details: Vec<u64>,
    /// Whether each limit is allowed, in the order of the ranks of
    /// `AssetLimit`.
    pub limit_props: Vec<bool>,
}

/// What a listing shows of a registered asset, as plain values.
pub struct TotalAssetInfoView {
    pub name: Seq<u8>,
    pub token_name: Seq<u8>,
    pub chain: Chain,
    pub precision: u16,
    pub desc: Seq<u8>,
    pub online: bool,
    pub details: Seq<u64>,
    pub limit_props: Seq<bool>,
}

impl View for TotalAssetInfo {
    type V = TotalAssetInfoView;

    open spec fn view(&self) -> TotalAssetInfoView {
        TotalAssetInfoView {
            name: self.name@,
            token_name: self.token_name@,
            chain: self.chain,
            precision: self.precision,
            desc: self.desc@,
            online: self.online,
            details: self.details@,
            limit_props: self.limit_props@,
        }
    }
}

/// What the cell of the balances of the asset `token` holds in `cells`.
pub open spec fn total_balance_cell(cells: Map<Seq<u8>, Seq<u8>>, token: Seq<u8>) -> Cell<
    Seq<(u8, u64)>,
> {
    cell_of::<BalanceMap>(
        cells,
        cell_key(TOTAL_ASSET_BALANCE, byte_string_bytes(token)),
        Hasher::BLAKE2256,
    )
}

/// What the cell of the limits of the asset `token` holds in `cells`.
pub open spec fn limit_props_cell(cells: Map<Seq<u8>, Seq<u8>>, token: Seq<u8>) -> Cell<
    Seq<(u8, bool)>,
> {
    cell_of::<LimitMap>(
        cells,
        cell_key(ASSET_LIMIT_PROPS, byte_string_bytes(token)),
        Hasher::BLAKE2256,
    )
}

/// The entries of a cell that holds a list, and none for a cell that holds
/// nothing.
pub open spec fn entries_of<V>(cell: Cell<Seq<V>>) -> Seq<V> {
    match cell {
        Cell::Present(entries) => entries,
        _ => Seq::empty(),
    }
}

/// Whether the two cells of the asset `token` can be read.
pub open spec fn asset_readable(cells: Map<Seq<u8>, Seq<u8>>, token: Seq<u8>) -> bool {
    !(total_balance_cell(cells, token) is Malformed) && !(limit_props_cell(cells, token)
        is Malformed)
}

/// What a listing shows of `asset`: every kind of balance, zero where none
/// is stored, and every limit, allowed where none is stored.
pub open spec fn total_asset_info_of(cells: Map<Seq<u8>, Seq<u8>>, asset: Asset, valid: bool)
    -> TotalAssetInfoView {
    TotalAssetInfoView {
        name: asset.token@,
        token_name: asset.token_name@,
        chain: asset.chain,
        precision: asset.precision,
        desc: asset.desc@,
        online: valid,
        details: filled(
            entries_of(total_balance_cell(cells, asset.token@)),
            ASSET_TYPE_COUNT as nat,
            0u64,
        ),
        limit_props: filled(
            entries_of(limit_props_cell(cells, asset.token@)),
            ASSET_LIMIT_COUNT as nat,
            true,
        ),
    }
}

/// What a listing shows of each asset in `all`.
pub open spec fn total_asset_infos_of(cells: Map<Seq<u8>, Seq<u8>>, all: Seq<(Asset, bool)>) -> Seq<
    TotalAssetInfoView,
> {
    Seq::new(all.len(), |i: int| total_asset_info_of(cells, all[i].0, all[i].1))
}

/// Whether the cells of every asset in `all` can be read.
pub open spec fn assets_readable(cells: Map<Seq<u8>, Seq<u8>>, all: Seq<(Asset, bool)>) -> bool {
    forall|i: int| 0 <= i < all.len() ==> asset_readable(cells, (#[trigger] all[i]).0.token@)
}

/// One page of the registered assets `all`, each given with whether it is
/// in use, with the balances and the limits that `state` stores for it.
///
/// A cell that cannot be read ends the query with `DecodeErr`, before the
/// page is looked at. The other errors are those of [`into_pagedata`].
#[verifier::loop_isolation(false)]
pub fn assets(state: &Snapshot, all: Vec<(Asset, bool)>, page_index: u32, page_size: u32) -> (r:
    Result<Option<PageData<TotalAssetInfo>>, ErrorKind>)
    requires
        pages_fit(all@.len(), page_size as nat),
        forall|i: int| 0 <= i < all@.len() ==> (#[trigger] all@[i]).0.token@.len() <= u32::MAX,
    ensures
        match r {
            Ok(Some(page)) => {
                &&& assets_readable(state@, all@)
                &&& page_size > 0
                &&& !page_index_out_of_range(all@.len(), page_index as nat, page_size as nat)
                &&& page.page_total == page_count(all@.len(), page_size as nat)
                &&& page.page_index == page_index
                &&& page.page_size == page_size
                &&& views(page.data@) == page_items(
                    total_asset_infos_of(state@, all@),
                    page_index as nat,
                    page_size as nat,
                )
            },
            Ok(None) => false,
            Err(ErrorKind::DecodeErr) => !assets_readable(state@, all@),
            Err(ErrorKind::PageSizeErr) => assets_readable(state@, all@) && page_size == 0,
            Err(ErrorKind::PageIndexErr) => assets_readable(state@, all@) && page_size > 0
                && page_index_out_of_range(all@.len(), page_index as nat, page_size as nat),
            Err(_) => false,
        },
{
    let mut infos: Vec<TotalAssetInfo> = Vec::new();
    for entry in it: all
        invariant
            it.seq() == all@,
            infos@.len() == it.index(),
            forall|j: int| 0 <= j < it.index() ==> asset_readable(state@, (#[trigger] all@[j]).0.token@),
            forall|j: int|
                0 <= j < it.index() ==> (#[trigger] infos@[j])@ == total_asset_info_of(
                    state@,
                    all@[j].0,
                    all@[j].1,
                ),
    {
        let (asset, valid) = entry;
        assert(asset == all@[it.index() as int].0);
        let param = encode_byte_string(asset.token.as_slice());
        let balance_key = key_for(TOTAL_ASSET_BALANCE, param.as_slice());
        let balances = match pickout::<BalanceMap>(
            state,
            balance_key.as_slice(),
            Hasher::BLAKE2256,
        ) {
            Ok(Some(map)) => map.entries,
            Ok(None) => Vec::new(),
            Err(e) => {
                assert(!asset_readable(state@, all@[it.index() as int].0.token@));
                return Err(e);
            },
        };
        let limit_key = key_for(ASSET_LIMIT_PROPS, param.as_slice());
        let limits = match pickout::<LimitMap>(state, limit_key.as_slice(), Hasher::BLAKE2256) {
            Ok(Some(map)) => map.entries,
            Ok(None) => Vec::new(),
            Err(e) => {
                assert(!asset_readable(state@, all@[it.index() as int].0.token@));
                return Err(e);
            },
        };
        let details = fill_defaults(&balances, ASSET_TYPE_COUNT, 0u64);
        let limit_props = fill_defaults(&limits, ASSET_LIMIT_COUNT, true);
        infos.push(
            TotalAssetInfo {
                name: asset.token,
                token_name: asset.token_name,
                chain: asset.chain,
                precision: asset.precision,
                desc: asset.desc,
                online: valid,
                details,
                limit_props,
            },
        );
    }
    proof {
        assert(views(infos@) =~= total_asset_infos_of(state@, all@));
        lemma_page_items_views(infos@, page_index as nat, page_size as nat);
    }
    into_pagedata(infos, page_index, page_size)
}

/// Largest number of bytes of an address or of a memo.
pub const MAX_ADDR_LEN: usize = 256;

/// What can be said of an address of an asset before the runtime is asked:
/// `Some(false)` where the name of the asset is no valid name, or the
/// address or the memo is longer than `MAX_ADDR_LEN`; `None` where the
/// runtime decides.
pub fn verify_addr_precheck(token_valid: bool, addr_len: usize, memo_len: usize) -> (r: Option<
    bool,
>)
    ensures
        r == (if !token_valid || addr_len > MAX_ADDR_LEN || memo_len > MAX_ADDR_LEN {
            Some(false)
        } else {
            None
        }),
{
    if !token_valid {
        return Some(false);
    }
    if addr_len > MAX_ADDR_LEN || memo_len > MAX_ADDR_LEN {
        return Some(false);
    }
    None
}

/// Whether an address is valid, from what the runtime said: the call has to
/// have gone through and the runtime has to have accepted the address.
pub fn verify_addr_verdict(call_succeeded: bool, accepted: bool) -> (valid: bool)
    ensures
        valid == (call_succeeded && accepted),
{
    call_succeeded && accepted
}

} // verus!
