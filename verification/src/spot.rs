//! Queries on the spot market of a snapshot.

use crate::accessor::{cell_of, pickout, present, Cell};
use crate::codec::le_bytes;
use crate::depth::{
    buy_upper, depth_ladders, depth_of, ladder, ladder_bounds, lemma_ladder_unreadable,
    maximum_bid, minimum_offer, piece_in_range, LevelSource, OrderFill, PriceBand, PriceLevel,
};
use crate::error::ErrorKind;
use crate::hashing::Hasher;
use crate::keys::{
    account_param, cell_key, key, key_for, key_for_account, key_for_pair, key_for_u32, pair_param,
    HANDICAP_OF, ORDER_COUNT_OF, ORDER_INFO_OF, QUOTATIONS_OF, TRADING_PAIR_COUNT,
    TRADING_PAIR_INFO_OF, TRADING_PAIR_OF,
};
use crate::page::{
    collect_materialized, into_pagedata, lemma_materialized_views, lemma_page_items_views,
    lemma_materialized_of_gaps, lemma_materialized_pages, lemma_page_count_bounded, materialized,
    option_views, page_count,
    page_index_out_of_range, page_items, pages_fit, views, PageData,
};
use crate::records::{
    lemma_pow10_bounds, pow10, HandicapInfo, OrderIdList, OrderInfo, OrderInfoView, PriceInfo,
    TradingPair, TradingPairView, FLUCTUATION_TICKS,
};
use crate::snapshot::Snapshot;
use vstd::prelude::*;

verus! {

/// What the cell of the order named `id` holds in `cells`.
pub open spec fn order_cell(cells: Map<Seq<u8>, Seq<u8>>, id: (Seq<u8>, u64)) -> Cell<
    OrderInfoView,
> {
    cell_of::<OrderInfo>(
        cells,
        cell_key(ORDER_INFO_OF, account_param(id.0, id.1)),
        Hasher::BLAKE2256,
    )
}

/// What an order asked for and what it was given.
pub open spec fn fill_of(order: OrderInfoView) -> OrderFill {
    OrderFill { amount: order.amount, already_filled: order.already_filled }
}

/// The fills of the orders named in `ids`. A name without a stored order
/// and a stored order that cannot be read both make the list unreadable.
pub open spec fn fills_of(cells: Map<Seq<u8>, Seq<u8>>, ids: Seq<(Seq<u8>, u64)>) -> Cell<
    Seq<OrderFill>,
> {
    if forall|i: int| 0 <= i < ids.len() ==> (#[trigger] order_cell(cells, ids[i])) is Present {
        Cell::Present(Seq::new(ids.len(), |i: int| fill_of(order_cell(cells, ids[i])->Present_0)))
    } else {
        Cell::Malformed
    }
}

/// What rests at `price` in the book of the pair `pair_index`.
pub open spec fn quotations_cell(cells: Map<Seq<u8>, Seq<u8>>, pair_index: u32, price: u64) -> Cell<
    Seq<OrderFill>,
> {
    match cell_of::<OrderIdList>(
        cells,
        cell_key(QUOTATIONS_OF, pair_param(pair_index, price)),
        Hasher::BLAKE2256,
    ) {
        Cell::Absent => Cell::Absent,
        Cell::Malformed => Cell::Malformed,
        Cell::Present(ids) => fills_of(cells, ids),
    }
}

/// The order book of one trading pair as a snapshot stores it.
pub struct SnapshotBook<'a> {
    /// The snapshot.
    pub state: &'a Snapshot,
    /// Index of the trading pair.
    pub pair_index: u32,
}

impl<'a> LevelSource for SnapshotBook<'a> {
    open spec fn level(&self, price: u64) -> Cell<Seq<OrderFill>> {
        quotations_cell(self.state@, self.pair_index, price)
    }

    fn orders_at(&self, price: u64) -> (r: Result<Option<Vec<OrderFill>>, ErrorKind>) {
        let key = key_for_pair(QUOTATIONS_OF, self.pair_index, price);
        let list = match pickout::<OrderIdList>(self.state, key.as_slice(), Hasher::BLAKE2256) {
            Ok(Some(list)) => list,
            Ok(None) => {
                return Ok(None);
            },
            Err(e) => {
                return Err(e);
            },
        };
        let mut fills: Vec<OrderFill> = Vec::new();
        let mut i: usize = 0;
        while i < list.ids.len()
            invariant
                i <= list.ids.len(),
                list@.len() == list.ids@.len(),
                cell_of::<OrderIdList>(
                    self.state@,
                    cell_key(QUOTATIONS_OF, pair_param(self.pair_index, price)),
                    Hasher::BLAKE2256,
                ) == Cell::Present(list@),
                fills@.len() == i,
                forall|j: int|
                    0 <= j < i ==> (#[trigger] order_cell(self.state@, list@[j])) is Present,
                forall|j: int|
                    0 <= j < i ==> #[trigger] fills@[j] == fill_of(
                        order_cell(self.state@, list@[j])->Present_0,
                    ),
            decreases list.ids.len() - i,
        {
            let id = &list.ids[i];
            assert(list@[i as int] == (id.who@, id.index));
            let key = key_for_account(ORDER_INFO_OF, id.who.as_slice(), id.index);
            match pickout::<OrderInfo>(self.state, key.as_slice(), Hasher::BLAKE2256) {
                Ok(Some(order)) => {
                    fills.push(
                        OrderFill { amount: order.amount, already_filled: order.already_filled },
                    );
                },
                Ok(None) => {
                    assert(!(order_cell(self.state@, list@[i as int]) is Present));
                    return Err(ErrorKind::DecodeErr);
                },
                Err(e) => {
                    assert(!(order_cell(self.state@, list@[i as int]) is Present));
                    return Err(e);
                },
            }
            i = i + 1;
        }
        assert(fills@ =~= Seq::new(
            list@.len(),
            |i: int| fill_of(order_cell(self.state@, list@[i])->Present_0),
        ));
        Ok(Some(fills))
    }
}

/// The depth of one trading pair.
#[derive(Debug, Clone, PartialEq, Eq)]
pub struct QuotationsList {
    /// Index of the trading pair.
    pub id: u32,
    /// The depth that was asked for.
    pub piece: u32,
    /// The asks, from the lowest price upwards.
    pub sell: Vec<PriceLevel>,
    /// The bids, from the lowest price upwards.
    pub buy: Vec<PriceLevel>,
}

/// The tick of a trading pair and the band that its ladders cover.
pub open spec fn band_of(pair: TradingPairView) -> PriceBand {
    PriceBand {
        tick: pow10(pair.tick_precision as nat) as u64,
        fluctuation: (FLUCTUATION_TICKS * pow10(pair.tick_precision as nat)) as u64,
    }
}

/// The band of a trading pair for a given fluctuation, and its own band
/// where none is given.
pub open spec fn band_within(pair: TradingPairView, fluctuation: Option<u64>) -> PriceBand {
    match fluctuation {
        Some(width) => PriceBand { tick: band_of(pair).tick, fluctuation: width },
        None => band_of(pair),
    }
}

/// What the cell of the trading pair `pair_index` holds in `cells`.
pub open spec fn pair_cell(cells: Map<Seq<u8>, Seq<u8>>, pair_index: u32) -> Cell<TradingPairView> {
    cell_of::<TradingPair>(
        cells,
        cell_key(TRADING_PAIR_OF, le_bytes(pair_index as nat, 4)),
        Hasher::BLAKE2256,
    )
}

/// What the cell of the best prices of the pair `pair_index` holds in `cells`.
pub open spec fn handicap_cell(cells: Map<Seq<u8>, Seq<u8>>, pair_index: u32) -> Cell<
    HandicapInfo,
> {
    cell_of::<HandicapInfo>(
        cells,
        cell_key(HANDICAP_OF, le_bytes(pair_index as nat, 4)),
        Hasher::BLAKE2256,
    )
}

/// How a depth query ends.
pub enum QuotationsOutcome {
    /// The depth is outside `1..=10`.
    PieceOutOfRange,
    /// No trading pair is stored under the index.
    UnknownPair,
    /// A cell that the query reads cannot be read.
    Unreadable,
    /// The two ladders: the asks, then the bids.
    Ladders(Seq<PriceLevel>, Seq<PriceLevel>),
}

/// How the depth query for the pair `pair_index` ends on `state`. The depth
/// is checked first, then the pair is read, then its best prices; a pair
/// without stored best prices has two empty ladders.
pub open spec fn quotations_outcome_within(
    state: &Snapshot,
    pair_index: u32,
    piece: u32,
    fluctuation: Option<u64>,
) -> QuotationsOutcome {
    if !piece_in_range(piece) {
        QuotationsOutcome::PieceOutOfRange
    } else {
        match pair_cell(state@, pair_index) {
            Cell::Absent => QuotationsOutcome::UnknownPair,
            Cell::Malformed => QuotationsOutcome::Unreadable,
            Cell::Present(pair) => match handicap_cell(state@, pair_index) {
                Cell::Absent => QuotationsOutcome::Ladders(Seq::empty(), Seq::empty()),
                Cell::Malformed => QuotationsOutcome::Unreadable,
                Cell::Present(handicap) => match depth_of(
                    &(SnapshotBook { state, pair_index }),
                    handicap,
                    band_within(pair, fluctuation),
                    piece,
                ) {
                    Some((sell, buy)) => QuotationsOutcome::Ladders(sell, buy),
                    None => QuotationsOutcome::Unreadable,
                },
            },
        }
    }
}

/// How the depth query for the pair `pair_index` ends on `state` where the
/// ladders cover the pair's own band, a hundred ticks.
pub open spec fn quotations_outcome(state: &Snapshot, pair_index: u32, piece: u32)
    -> QuotationsOutcome {
    quotations_outcome_within(state, pair_index, piece, None)
}

/// The depths 1 and 10 can be asked for; the depths 0 and 11 cannot,
/// whatever the snapshot holds.
pub proof fn lemma_piece_bounds_are_inclusive(state: &Snapshot, pair_index: u32)
    ensures
        quotations_outcome(state, pair_index, 0) is PieceOutOfRange,
        quotations_outcome(state, pair_index, 11) is PieceOutOfRange,
        !(quotations_outcome(state, pair_index, 1) is PieceOutOfRange),
        !(quotations_outcome(state, pair_index, 10) is PieceOutOfRange),
{
}

/// A depth query for a depth from 1 to 10 on a stored pair gives its two
/// ladders wherever the pair, its best prices and the orders of every price
/// can be read.
pub proof fn lemma_quotations_accepted(
    state: &Snapshot,
    pair_index: u32,
    piece: u32,
    fluctuation: Option<u64>,
)
    requires
        1 <= piece <= 10,
        pair_cell(state@, pair_index) is Present,
        !(handicap_cell(state@, pair_index) is Malformed),
        forall|price: u64| !(#[trigger] quotations_cell(state@, pair_index, price) is Malformed),
    ensures
        quotations_outcome_within(state, pair_index, piece, fluctuation) is Ladders,
{
    if handicap_cell(state@, pair_index) is Present {
        let pair = pair_cell(state@, pair_index)->Present_0;
        let handicap = handicap_cell(state@, pair_index)->Present_0;
        let band = band_within(pair, fluctuation);
        let book = SnapshotBook { state, pair_index };
        lemma_pow10_bounds(pair.tick_precision as nat);
        assert(band.tick > 0);
        assert forall|price: u64| !(#[trigger] book.level(price) is Malformed) by {
            assert(!(quotations_cell(state@, pair_index, price) is Malformed));
        }
        lemma_ladder_unreadable(
            &book,
            handicap.lowest_offer as int,
            maximum_bid(handicap, band),
            band.tick as int,
        );
        let sell = ladder(
            &book,
            handicap.lowest_offer as int,
            maximum_bid(handicap, band),
            band.tick as int,
        );
        assert(sell is Some);
        lemma_ladder_unreadable(
            &book,
            minimum_offer(handicap, band),
            buy_upper(handicap, band, sell.unwrap().len(), piece),
            band.tick as int,
        );
    }
}

/// The depth query with the width of the band as given, or the pair's own
/// where none is given.
fn quotations_by(state: &Snapshot, pair_index: u32, piece: u32, fluctuation: Option<u64>) -> (r:
    Result<Option<QuotationsList>, ErrorKind>)
    ensures
        match r {
            Ok(Some(list)) => list.id == pair_index && list.piece == piece
                && quotations_outcome_within(state, pair_index, piece, fluctuation)
                == QuotationsOutcome::Ladders(list.sell@, list.buy@),
            Ok(None) => false,
            Err(ErrorKind::QuotationsPieceErr) => quotations_outcome_within(
                state,
                pair_index,
                piece,
                fluctuation,
            ) is PieceOutOfRange,
            Err(ErrorKind::TradingPairIndexErr) => quotations_outcome_within(
                state,
                pair_index,
                piece,
                fluctuation,
            ) is UnknownPair,
            Err(ErrorKind::DecodeErr) => quotations_outcome_within(
                state,
                pair_index,
                piece,
                fluctuation,
            ) is Unreadable,
            Err(_) => false,
        },
        piece < 1 || piece > 10 ==> r matches Err(ErrorKind::QuotationsPieceErr),
        1 <= piece <= 10 ==> !(r matches Err(ErrorKind::QuotationsPieceErr)),
        1 <= piece <= 10 && pair_cell(state@, pair_index) is Absent ==> r matches Err(
            ErrorKind::TradingPairIndexErr,
        ),
{
    if piece < 1 || piece > 10 {
        return Err(ErrorKind::QuotationsPieceErr);
    }
    let pair_key = key_for_u32(TRADING_PAIR_OF, pair_index);
    let pair = match pickout::<TradingPair>(state, pair_key.as_slice(), Hasher::BLAKE2256) {
        Ok(Some(pair)) => pair,
        Ok(None) => {
            return Err(ErrorKind::TradingPairIndexErr);
        },
        Err(e) => {
            return Err(e);
        },
    };
    let handicap_key = key_for_u32(HANDICAP_OF, pair_index);
    let handicap = match pickout::<HandicapInfo>(
        state,
        handicap_key.as_slice(),
        Hasher::BLAKE2256,
    ) {
        Ok(Some(handicap)) => handicap,
        Ok(None) => {
            return Ok(
                Some(QuotationsList { id: pair_index, piece, sell: Vec::new(), buy: Vec::new() }),
            );
        },
        Err(e) => {
            return Err(e);
        },
    };
    proof {
        lemma_pow10_bounds(pair.tick_precision as nat);
    }
    let band = PriceBand {
        tick: pair.tick(),
        fluctuation: match fluctuation {
            Some(width) => width,
            None => pair.fluctuation(),
        },
    };
    assert(band == band_within(pair@, fluctuation));
    let book = SnapshotBook { state, pair_index };
    match depth_ladders(&book, handicap, band, piece) {
        Ok(depth) => Ok(
            Some(QuotationsList { id: pair_index, piece, sell: depth.sell, buy: depth.buy }),
        ),
        Err(e) => Err(e),
    }
}

/// The depth of the trading pair `pair_index`: its asks and its bids near
/// the best prices, each level with the open volume of its orders. The
/// ladders cover the pair's own band, a hundred ticks from the best price.
///
/// A `piece` outside `1..=10` is `QuotationsPieceErr`, an unknown pair
/// `TradingPairIndexErr`, a cell that cannot be read `DecodeErr`.
pub fn quotations(state: &Snapshot, pair_index: u32, piece: u32) -> (r: Result<
    Option<QuotationsList>,
    ErrorKind,
>)
    ensures
        match r {
            Ok(Some(list)) => list.id == pair_index && list.piece == piece
                && quotations_outcome_within(state, pair_index, piece, None)
                == QuotationsOutcome::Ladders(list.sell@, list.buy@),
            Ok(None) => false,
            Err(ErrorKind::QuotationsPieceErr) => quotations_outcome_within(
                state,
                pair_index,
                piece,
                None,
            ) is PieceOutOfRange,
            Err(ErrorKind::TradingPairIndexErr) => quotations_outcome_within(
                state,
                pair_index,
                piece,
                None,
            ) is UnknownPair,
            Err(ErrorKind::DecodeErr) => quotations_outcome_within(
                state,
                pair_index,
                piece,
                None,
            ) is Unreadable,
            Err(_) => false,
        },
        piece < 1 || piece > 10 ==> r matches Err(ErrorKind::QuotationsPieceErr),
        1 <= piece <= 10 ==> !(r matches Err(ErrorKind::QuotationsPieceErr)),
        1 <= piece <= 10 && pair_cell(state@, pair_index) is Absent ==> r matches Err(
            ErrorKind::TradingPairIndexErr,
        ),
{
    quotations_by(state, pair_index, piece, None)
}

/// The depth of the trading pair `pair_index` where the ladders reach
/// `fluctuation` from the best price of their side. Errors are those of
/// [`quotations`].
pub fn quotations_within(state: &Snapshot, pair_index: u32, piece: u32, fluctuation: u64) -> (r:
    Result<Option<QuotationsList>, ErrorKind>)
    ensures
        match r {
            Ok(Some(list)) => list.id == pair_index && list.piece == piece
                && quotations_outcome_within(state, pair_index, piece, Some(fluctuation))
                == QuotationsOutcome::Ladders(list.sell@, list.buy@),
            Ok(None) => false,
            Err(ErrorKind::QuotationsPieceErr) => quotations_outcome_within(
                state,
                pair_index,
                piece,
                Some(fluctuation),
            ) is PieceOutOfRange,
            Err(ErrorKind::TradingPairIndexErr) => quotations_outcome_within(
                state,
                pair_index,
                piece,
                Some(fluctuation),
            ) is UnknownPair,
            Err(ErrorKind::DecodeErr) => quotations_outcome_within(
                state,
                pair_index,
                piece,
                Some(fluctuation),
            ) is Unreadable,
            Err(_) => false,
        },
        piece < 1 || piece > 10 ==> r matches Err(ErrorKind::QuotationsPieceErr),
        1 <= piece <= 10 ==> !(r matches Err(ErrorKind::QuotationsPieceErr)),
        1 <= piece <= 10 && pair_cell(state@, pair_index) is Absent ==> r matches Err(
            ErrorKind::TradingPairIndexErr,
        ),
{
    quotations_by(state, pair_index, piece, Some(fluctuation))
}

/// Largest page size of the order history.
pub const MAX_PAGE_SIZE: u32 = 100;

/// What the cell of the number of orders of `who` holds in `cells`.
pub open spec fn order_count_cell(cells: Map<Seq<u8>, Seq<u8>>, who: Seq<u8>) -> Cell<u64> {
    cell_of::<u64>(cells, cell_key(ORDER_COUNT_OF, who), Hasher::BLAKE2256)
}

/// The cell that the scan of the `count` orders of `who` reads at its step
/// `k`: the scan goes from the latest order back to the first.
pub open spec fn order_scan_cell(
    cells: Map<Seq<u8>, Seq<u8>>,
    who: Seq<u8>,
    count: u64,
    k: int,
) -> Cell<OrderInfoView> {
    order_cell(cells, (who, (count - 1 - k) as u64))
}

/// What the scan of the `count` orders of `who` finds, step by step: an
/// order, or nothing where none is stored under the number.
pub open spec fn order_scan(cells: Map<Seq<u8>, Seq<u8>>, who: Seq<u8>, count: u64) -> Seq<
    Option<OrderInfoView>,
> {
    Seq::new(count as nat, |k: int| present(order_scan_cell(cells, who, count, k)))
}

/// Whether every stored order among the `count` orders of `who` can be read.
pub open spec fn order_scan_readable(cells: Map<Seq<u8>, Seq<u8>>, who: Seq<u8>, count: u64)
    -> bool {
    forall|k: int| 0 <= k < count ==> !(#[trigger] order_scan_cell(cells, who, count, k)
        is Malformed)
}

/// The orders that the scan of the `count` orders of `who` finds, the
/// latest first.
pub open spec fn found_orders(cells: Map<Seq<u8>, Seq<u8>>, who: Seq<u8>, count: u64) -> Seq<
    OrderInfoView,
> {
    materialized(order_scan(cells, who, count))
}

/// How a query for a page of the order history ends.
pub enum OrdersOutcome {
    /// The page size is zero or above `MAX_PAGE_SIZE`.
    PageSizeOutOfRange,
    /// A cell that the query reads cannot be read.
    Unreadable,
    /// The orders that were found fill more pages than a page count can
    /// hold.
    TooMany,
    /// The page index is at or beyond the page count while orders exist.
    PageIndexOutOfRange,
    /// The page count and the orders of the page, latest first.
    Page { page_total: nat, items: Seq<OrderInfoView> },
}

/// How the query for page `page_index` of the orders of `who` ends on
/// `cells`. Orders are counted as they are found: a number without a stored
/// order takes no place on any page, however many numbers the stored count
/// spans. An account without a stored count, or without a stored order, has
/// an empty page whatever the page index.
pub open spec fn orders_outcome(
    cells: Map<Seq<u8>, Seq<u8>>,
    who: Seq<u8>,
    page_index: u32,
    page_size: u32,
) -> OrdersOutcome {
    if page_size < 1 || page_size > MAX_PAGE_SIZE {
        OrdersOutcome::PageSizeOutOfRange
    } else {
        match order_count_cell(cells, who) {
            Cell::Malformed => OrdersOutcome::Unreadable,
            Cell::Absent => OrdersOutcome::Page { page_total: 0, items: Seq::empty() },
            Cell::Present(count) => {
                let found = found_orders(cells, who, count);
                if !order_scan_readable(cells, who, count) {
                    OrdersOutcome::Unreadable
                } else if !pages_fit(found.len(), page_size as nat) {
                    OrdersOutcome::TooMany
                } else if page_index_out_of_range(
                    found.len(),
                    page_index as nat,
                    page_size as nat,
                ) {
                    OrdersOutcome::PageIndexOutOfRange
                } else {
                    OrdersOutcome::Page {
                        page_total: page_count(found.len(), page_size as nat),
                        items: page_items(found, page_index as nat, page_size as nat),
                    }
                }
            },
        }
    }
}

/// The orders of an account never fill more pages than the numbers that
/// its stored count spans would.
pub proof fn lemma_found_orders_pages(
    cells: Map<Seq<u8>, Seq<u8>>,
    who: Seq<u8>,
    count: u64,
    page_size: nat,
)
    requires
        page_size > 0,
    ensures
        found_orders(cells, who, count).len() <= count,
        page_count(found_orders(cells, who, count).len(), page_size) <= page_count(
            count as nat,
            page_size,
        ),
{
    lemma_materialized_pages(order_scan(cells, who, count), page_size);
}

/// An account without a stored count, or with a count under which no order
/// is stored, has an empty page with no pages, whatever the page index.
pub proof fn lemma_orders_of_account_without_orders(
    cells: Map<Seq<u8>, Seq<u8>>,
    who: Seq<u8>,
    page_index: u32,
    page_size: u32,
)
    requires
        1 <= page_size <= MAX_PAGE_SIZE,
        order_count_cell(cells, who) is Absent || (order_count_cell(cells, who) is Present
            && forall|k: int|
            0 <= k < order_count_cell(cells, who)->Present_0 ==> (#[trigger] order_scan_cell(
                cells,
                who,
                order_count_cell(cells, who)->Present_0,
                k,
            )) is Absent),
    ensures
        orders_outcome(cells, who, page_index, page_size) == (OrdersOutcome::Page {
            page_total: 0,
            items: Seq::empty(),
        }),
{
    if order_count_cell(cells, who) is Present {
        let count = order_count_cell(cells, who)->Present_0;
        let scan = order_scan(cells, who, count);
        assert forall|k: int| 0 <= k < scan.len() implies (#[trigger] scan[k]) is None by {
            assert(order_scan_cell(cells, who, count, k) is Absent);
        }
        lemma_materialized_of_gaps(scan);
        let found = found_orders(cells, who, count);
        lemma_page_count_bounded(0, page_size as nat);
        assert forall|k: int| 0 <= k < count implies !(#[trigger] order_scan_cell(
            cells,
            who,
            count,
            k,
        ) is Malformed) by {
            assert(order_scan_cell(cells, who, count, k) is Absent);
        }
        assert(page_items(found, page_index as nat, page_size as nat) =~= Seq::empty());
    }
}

/// Scans the `count` orders of `who` from the latest back to the first and
/// keeps those that are stored. A stored order that cannot be read is
/// `DecodeErr`.
pub fn scan_orders(state: &Snapshot, who: &[u8], count: u64) -> (r: Result<
    Vec<OrderInfo>,
    ErrorKind,
>)
    ensures
        match r {
            Ok(found) => order_scan_readable(state@, who@, count) && views(found@)
                == found_orders(state@, who@, count),
            Err(ErrorKind::DecodeErr) => !order_scan_readable(state@, who@, count),
            Err(_) => false,
        },
{
    let ghost scan = order_scan(state@, who@, count);
    let mut found: Vec<OrderInfo> = Vec::new();
    let mut i: u64 = count;
    assert(views(found@) =~= materialized(scan.take(0)));
    while i > 0
        invariant
            i <= count,
            scan == order_scan(state@, who@, count),
            forall|k: int|
                0 <= k < count - i ==> !(#[trigger] order_scan_cell(state@, who@, count, k)
                    is Malformed),
            views(found@) == materialized(scan.take(count - i)),
        decreases i,
    {
        let ghost k = count - i;
        let ghost before = found@;
        i = i - 1;
        assert(count - 1 - k == i);
        assert(scan.take(k + 1).drop_last() =~= scan.take(k));
        assert(scan.take(k + 1).last() == present(order_scan_cell(state@, who@, count, k)));
        let order_key = key_for_account(ORDER_INFO_OF, who, i);
        match pickout::<OrderInfo>(state, order_key.as_slice(), Hasher::BLAKE2256) {
            Ok(Some(order)) => {
                found.push(order);
                assert(views(found@) =~= views(before).push(order@));
            },
            Ok(None) => {},
            Err(e) => {
                assert(order_scan_cell(state@, who@, count, k) is Malformed);
                return Err(e);
            },
        }
    }
    assert(scan.take(count as int) =~= scan);
    Ok(found)
}

/// One page of the orders of the account `who`, the latest order first.
///
/// A page size of zero or above `MAX_PAGE_SIZE` is `PageSizeErr`, a page
/// index beyond the pages `PageIndexErr`, a cell that cannot be read
/// `DecodeErr`. Where the orders that were found fill more pages than a page
/// count can hold, the result is `Ok(None)`.
pub fn orders(state: &Snapshot, who: &[u8], page_index: u32, page_size: u32) -> (r: Result<
    Option<PageData<OrderInfo>>,
    ErrorKind,
>)
    ensures
        match r {
            Ok(Some(page)) => page.page_index == page_index && page.page_size == page_size
                && orders_outcome(state@, who@, page_index, page_size) == (OrdersOutcome::Page {
                page_total: page.page_total as nat,
                items: views(page.data@),
            }),
            Ok(None) => orders_outcome(state@, who@, page_index, page_size) is TooMany,
            Err(ErrorKind::PageSizeErr) => orders_outcome(state@, who@, page_index, page_size)
                is PageSizeOutOfRange,
            Err(ErrorKind::PageIndexErr) => orders_outcome(state@, who@, page_index, page_size)
                is PageIndexOutOfRange,
            Err(ErrorKind::DecodeErr) => orders_outcome(state@, who@, page_index, page_size)
                is Unreadable,
            Err(_) => false,
        },
{
    if page_size > MAX_PAGE_SIZE || page_size < 1 {
        return Err(ErrorKind::PageSizeErr);
    }
    let count_key = key_for(ORDER_COUNT_OF, who);
    let count = match pickout::<u64>(state, count_key.as_slice(), Hasher::BLAKE2256) {
        Ok(Some(count)) => count,
        Ok(None) => {
            let data: Vec<OrderInfo> = Vec::new();
            assert(views(data@) =~= Seq::<OrderInfoView>::empty());
            return Ok(Some(PageData { page_total: 0, page_index, page_size, data }));
        },
        Err(e) => {
            return Err(e);
        },
    };
    let found = match scan_orders(state, who, count) {
        Ok(found) => found,
        Err(e) => {
            return Err(e);
        },
    };
    assert(views(found@).len() == found@.len());
    let pages: u128 = (found.len() as u128 + (page_size as u128 - 1)) / (page_size as u128);
    if pages > u32::MAX as u128 {
        return Ok(None);
    }
    proof {
        lemma_page_items_views(found@, page_index as nat, page_size as nat);
    }
    into_pagedata(found, page_index, page_size)
}

/// What a listing shows of one trading pair.
#[derive(Debug, Clone, PartialEq, Eq)]
pub struct PairInfo {
    /// Index of the pair.
    pub id: u32,
    /// Name of the asset that is traded.
    pub assets: Vec<u8>,
    /// Name of the asset that prices are quoted in.
    pub currency: Vec<u8>,
    /// Number of decimals of a price.
    pub precision: u32,
    /// The tick is ten to this power.
    pub unit_precision: u32,
    /// Whether the pair is open for trading.
    pub online: bool,
    /// Price of the latest trade.
    pub last_price: u64,
    /// Average price over the recent trades.
    pub aver_price: u64,
    /// Block at which the prices were last written.
    pub update_height: u64,
    /// The highest bid.
    pub buy_one: u64,
    /// The lowest offer.
    pub sell_one: u64,
    /// The highest price that a bid may name.
    pub maximum_bid: u128,
    /// The lowest price that an offer may name.
    pub minimum_offer: u64,
}

/// What a listing shows of a trading pair, as plain values.
pub struct PairInfoView {
    pub id: u32,
    pub assets: Seq<u8>,
    pub currency: Seq<u8>,
    pub precision: u32,
    pub unit_precision: u32,
    pub online: bool,
    pub last_price: u64,
    pub aver_price: u64,
    pub update_height: u64,
    pub buy_one: u64,
    pub sell_one: u64,
    pub maximum_bid: u128,
    pub minimum_offer: u64,
}

impl View for PairInfo {
    type V = PairInfoView;

    open spec fn view(&self) -> PairInfoView {
        PairInfoView {
            id: self.id,
            assets: self.assets@,
            currency: self.currency@,
            precision: self.precision,
            unit_precision: self.unit_precision,
            online: self.online,
            last_price: self.last_price,
            aver_price: self.aver_price,
            update_height: self.update_height,
            buy_one: self.buy_one,
            sell_one: self.sell_one,
            maximum_bid: self.maximum_bid,
            minimum_offer: self.minimum_offer,
        }
    }
}

/// What a listing shows of `pair`, given its prices and its best prices
/// where they are stored. Without stored prices the prices are zero;
/// without stored best prices the best prices and the bounds are zero.
pub open spec fn pair_info_of(
    pair: TradingPairView,
    price: Option<PriceInfo>,
    handicap: Option<HandicapInfo>,
) -> PairInfoView {
    PairInfoView {
        id: pair.index,
        assets: pair.base,
        currency: pair.quote,
        precision: pair.pip_precision,
        unit_precision: pair.tick_precision,
        online: pair.online,
        last_price: match price {
            Some(p) => p.last_price,
            None => 0,
        },
        aver_price: match price {
            Some(p) => p.aver_price,
            None => 0,
        },
        update_height: match price {
            Some(p) => p.update_height,
            None => 0,
        },
        buy_one: match handicap {
            Some(h) => h.highest_bid,
            None => 0,
        },
        sell_one: match handicap {
            Some(h) => h.lowest_offer,
            None => 0,
        },
        maximum_bid: match handicap {
            Some(h) => maximum_bid(h, band_of(pair)) as u128,
            None => 0,
        },
        minimum_offer: match handicap {
            Some(h) => minimum_offer(h, band_of(pair)) as u64,
            None => 0,
        },
    }
}

/// Puts together what a listing shows of `pair`.
pub fn pair_info(pair: TradingPair, price: Option<PriceInfo>, handicap: Option<HandicapInfo>) -> (r:
    PairInfo)
    requires
        pair.wf(),
    ensures
        r@ == pair_info_of(pair@, price, handicap),
{
    proof {
        lemma_pow10_bounds(pair.tick_precision as nat);
    }
    let band = PriceBand { tick: pair.tick(), fluctuation: pair.fluctuation() };
    assert(band == band_of(pair@));
    let (last_price, aver_price, update_height) = match price {
        Some(p) => (p.last_price, p.aver_price, p.update_height),
        None => (0, 0, 0),
    };
    let (buy_one, sell_one, maximum_bid, minimum_offer) = match handicap {
        Some(h) => {
            let (upper, lower) = ladder_bounds(h, band);
            (h.highest_bid, h.lowest_offer, upper, lower)
        },
        None => (0, 0, 0, 0),
    };
    PairInfo {
        id: pair.index,
        assets: pair.base,
        currency: pair.quote,
        precision: pair.pip_precision,
        unit_precision: pair.tick_precision,
        online: pair.online,
        last_price,
        aver_price,
        update_height,
        buy_one,
        sell_one,
        maximum_bid,
        minimum_offer,
    }
}

/// What the cell of the number of trading pairs holds in `cells`.
pub open spec fn pair_count_cell(cells: Map<Seq<u8>, Seq<u8>>) -> Cell<u32> {
    cell_of::<u32>(cells, cell_key(TRADING_PAIR_COUNT, Seq::empty()), Hasher::TWOX128)
}

/// What the cell of the prices of the pair `pair_index` holds in `cells`.
pub open spec fn price_cell(cells: Map<Seq<u8>, Seq<u8>>, pair_index: u32) -> Cell<PriceInfo> {
    cell_of::<PriceInfo>(
        cells,
        cell_key(TRADING_PAIR_INFO_OF, le_bytes(pair_index as nat, 4)),
        Hasher::BLAKE2256,
    )
}

/// What a listing finds for the pair `pair_index`: nothing where no pair is
/// stored, an unreadable entry where the pair, its prices or its best prices
/// cannot be read, else what it shows of the pair.
pub open spec fn pair_info_cell(cells: Map<Seq<u8>, Seq<u8>>, pair_index: u32) -> Cell<
    PairInfoView,
> {
    match pair_cell(cells, pair_index) {
        Cell::Absent => Cell::Absent,
        Cell::Malformed => Cell::Malformed,
        Cell::Present(pair) => if price_cell(cells, pair_index) is Malformed || handicap_cell(
            cells,
            pair_index,
        ) is Malformed {
            Cell::Malformed
        } else {
            Cell::Present(
                pair_info_of(
                    pair,
                    present(price_cell(cells, pair_index)),
                    present(handicap_cell(cells, pair_index)),
                ),
            )
        },
    }
}

/// What a listing finds for the pairs `0..count`, index by index.
pub open spec fn pair_scan(cells: Map<Seq<u8>, Seq<u8>>, count: u32) -> Seq<Option<PairInfoView>> {
    Seq::new(count as nat, |i: int| present(pair_info_cell(cells, i as u32)))
}

/// Whether a listing can read what is stored for each of the pairs
/// `0..count`.
pub open spec fn pair_scan_readable(cells: Map<Seq<u8>, Seq<u8>>, count: u32) -> bool {
    forall|i: int| 0 <= i < count ==> !(#[trigger] pair_info_cell(cells, i as u32) is Malformed)
}

/// The number of trading pairs that `cells` declare: the stored count, or
/// none where no count is stored.
pub open spec fn pair_count(cells: Map<Seq<u8>, Seq<u8>>) -> u32 {
    match pair_count_cell(cells) {
        Cell::Present(count) => count,
        _ => 0,
    }
}

/// Lists the trading pairs in the order of their indices, each with its
/// prices and the bounds that follow from its best prices. An index below
/// the count without a stored pair is passed over; a cell that cannot be
/// read ends the query with `DecodeErr`.
#[verifier::loop_isolation(false)]
pub fn trading_pairs(state: &Snapshot) -> (r: Result<Option<Vec<PairInfo>>, ErrorKind>)
    ensures
        match r {
            Ok(Some(pairs)) => {
                &&& !(pair_count_cell(state@) is Malformed)
                &&& pair_scan_readable(state@, pair_count(state@))
                &&& views(pairs@) == materialized(pair_scan(state@, pair_count(state@)))
            },
            Ok(None) => false,
            Err(ErrorKind::DecodeErr) => pair_count_cell(state@) is Malformed
                || !pair_scan_readable(state@, pair_count(state@)),
            Err(_) => false,
        },
{
    let count_key = key(TRADING_PAIR_COUNT);
    let count = match pickout::<u32>(state, count_key.as_slice(), Hasher::TWOX128) {
        Ok(Some(count)) => count,
        Ok(None) => 0,
        Err(e) => {
            return Err(e);
        },
    };
    let mut scan: Vec<Option<PairInfo>> = Vec::new();
    let mut i: u32 = 0;
    while i < count
        invariant
            i <= count,
            scan@.len() == i,
            forall|k: int|
                0 <= k < i ==> !(#[trigger] pair_info_cell(state@, k as u32) is Malformed),
            forall|k: int|
                0 <= k < i ==> #[trigger] option_views(scan@)[k] == present(
                    pair_info_cell(state@, k as u32),
                ),
        decreases count - i,
    {
        let ghost before = scan@;
        let pair_key = key_for_u32(TRADING_PAIR_OF, i);
        let found = match pickout::<TradingPair>(state, pair_key.as_slice(), Hasher::BLAKE2256) {
            Ok(found) => found,
            Err(e) => {
                assert(pair_info_cell(state@, (i as int) as u32) is Malformed);
                return Err(e);
            },
        };
        match found {
            None => {
                scan.push(None);
            },
            Some(pair) => {
                let price_key = key_for_u32(TRADING_PAIR_INFO_OF, i);
                let price = match pickout::<PriceInfo>(
                    state,
                    price_key.as_slice(),
                    Hasher::BLAKE2256,
                ) {
                    Ok(price) => price,
                    Err(e) => {
                        assert(pair_info_cell(state@, (i as int) as u32) is Malformed);
                        return Err(e);
                    },
                };
                let handicap_key = key_for_u32(HANDICAP_OF, i);
                let handicap = match pickout::<HandicapInfo>(
                    state,
                    handicap_key.as_slice(),
                    Hasher::BLAKE2256,
                ) {
                    Ok(handicap) => handicap,
                    Err(e) => {
                        assert(pair_info_cell(state@, (i as int) as u32) is Malformed);
                        return Err(e);
                    },
                };
                scan.push(Some(pair_info(pair, price, handicap)));
            },
        }
        assert forall|k: int| 0 <= k < i + 1 implies #[trigger] option_views(scan@)[k] == present(
            pair_info_cell(state@, k as u32),
        ) by {
            if k < i {
                assert(option_views(scan@)[k] == option_views(before)[k]);
            }
        }
        i = i + 1;
    }
    proof {
        assert(option_views(scan@) =~= pair_scan(state@, count));
        lemma_materialized_views(scan@);
    }
    Ok(Some(collect_materialized(scan)))
}

} // verus!
