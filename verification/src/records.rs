//! The records of the spot market as they are stored, and how their bytes
//! are read.

use crate::accessor::Decodable;
use crate::codec::{
    le_nat, parse_bool, parse_byte_string, parse_compact_u32, parse_fixed, parse_tag, parse_u32,
    parse_u64, parse_u64_list, scale_compact_u32, take_bool, take_byte_string, take_fixed,
    take_tag, take_u32, take_u64, take_u64_list,
};
use vstd::prelude::*;
use vstd::slice::slice_subrange;

verus! {

/// Number of bytes of an account identifier.
pub const ACCOUNT_ID_LEN: usize = 32;

/// Largest tick precision of a stored trading pair: the price band of a
/// pair, a hundred ticks, still fits the price type.
pub const MAX_TICK_PRECISION: u32 = 17;

/// Number of ticks that a price may lie away from the best price of its side.
pub const FLUCTUATION_TICKS: u64 = 100;

/// The best resting prices of a trading pair. Zero on a side means that no
/// order rests there.
#[derive(Debug, Clone, Copy, PartialEq, Eq, Structural)]
pub struct HandicapInfo {
    /// The highest price that a buyer offers.
    pub highest_bid: u64,
    /// The lowest price that a seller asks.
    pub lowest_offer: u64,
}

impl View for HandicapInfo {
    type V = HandicapInfo;

    open spec fn view(&self) -> HandicapInfo {
        *self
    }
}

impl Decodable for HandicapInfo {
    /// Stored as the highest bid, then the lowest offer.
    open spec fn decoded(bytes: Seq<u8>) -> Option<HandicapInfo> {
        let bid = parse_u64(bytes);
        let offer = parse_u64(bid.unwrap().1);
        if bid is Some && offer is Some {
            Some(HandicapInfo { highest_bid: bid.unwrap().0, lowest_offer: offer.unwrap().0 })
        } else {
            None
        }
    }

    fn decode(bytes: &[u8]) -> (r: Option<HandicapInfo>) {
        let (highest_bid, rest) = match take_u64(bytes) {
            Some(x) => x,
            None => return None,
        };
        let (lowest_offer, _) = match take_u64(rest) {
            Some(x) => x,
            None => return None,
        };
        Some(HandicapInfo { highest_bid, lowest_offer })
    }
}

/// The latest price, the average price and the block of their last update.
#[derive(Debug, Clone, Copy, PartialEq, Eq, Structural)]
pub struct PriceInfo {
    /// Price of the latest trade.
    pub last_price: u64,
    /// Average price over the recent trades.
    pub aver_price: u64,
    /// Block at which the two were last written.
    pub update_height: u64,
}

impl View for PriceInfo {
    type V = PriceInfo;

    open spec fn view(&self) -> PriceInfo {
        *self
    }
}

impl Decodable for PriceInfo {
    /// Stored as the latest price, the average price, the block number.
    open spec fn decoded(bytes: Seq<u8>) -> Option<PriceInfo> {
        let last = parse_u64(bytes);
        let aver = parse_u64(last.unwrap().1);
        let height = parse_u64(aver.unwrap().1);
        if last is Some && aver is Some && height is Some {
            Some(
                PriceInfo {
                    last_price: last.unwrap().0,
                    aver_price: aver.unwrap().0,
                    update_height: height.unwrap().0,
                },
            )
        } else {
            None
        }
    }

    fn decode(bytes: &[u8]) -> (r: Option<PriceInfo>) {
        let (last_price, rest) = match take_u64(bytes) {
            Some(x) => x,
            None => return None,
        };
        let (aver_price, rest) = match take_u64(rest) {
            Some(x) => x,
            None => return None,
        };
        let (update_height, _) = match take_u64(rest) {
            Some(x) => x,
            None => return None,
        };
        Some(PriceInfo { last_price, aver_price, update_height })
    }
}

/// A trading pair: two assets and the precision that prices are quoted in.
#[derive(Debug, Clone, PartialEq, Eq)]
pub struct TradingPair {
    /// Index of the pair.
    pub index: u32,
    /// Name of the asset that is traded.
    pub base: Vec<u8>,
    /// Name of the asset that prices are quoted in.
    pub quote: Vec<u8>,
    /// Number of decimals of a price.
    pub pip_precision: u32,
    /// The tick, the smallest step of a price, is ten to this power.
    pub tick_precision: u32,
    /// Whether the pair is open for trading.
    pub online: bool,
}

/// What a trading pair holds, as plain values.
pub struct TradingPairView {
    pub index: u32,
    pub base: Seq<u8>,
    pub quote: Seq<u8>,
    pub pip_precision: u32,
    pub tick_precision: u32,
    pub online: bool,
}

impl View for TradingPair {
    type V = TradingPairView;

    open spec fn view(&self) -> TradingPairView {
        TradingPairView {
            index: self.index,
            base: self.base@,
            quote: self.quote@,
            pip_precision: self.pip_precision,
            tick_precision: self.tick_precision,
            online: self.online,
        }
    }
}

/// Ten to the power of `n`.
pub open spec fn pow10(n: nat) -> nat
    decreases n,
{
    if n == 0 {
        1
    } else {
        10 * pow10((n - 1) as nat)
    }
}

/// Powers of ten grow with the exponent, and a hundred times the largest
/// tick fits 64 bits.
pub proof fn lemma_pow10_bounds(n: nat)
    requires
        n <= MAX_TICK_PRECISION,
    ensures
        1 <= pow10(n) <= 100_000_000_000_000_000,
    decreases n,
{
    reveal_with_fuel(pow10, 19);
}

impl Decodable for TradingPair {
    /// Stored as the index, the two asset names as byte strings, the two
    /// precisions and the trading flag. A tick precision above
    /// `MAX_TICK_PRECISION` is no trading pair.
    open spec fn decoded(bytes: Seq<u8>) -> Option<TradingPairView> {
        let index = parse_u32(bytes);
        let base = parse_byte_string(index.unwrap().1);
        let quote = parse_byte_string(base.unwrap().1);
        let pip = parse_u32(quote.unwrap().1);
        let tick = parse_u32(pip.unwrap().1);
        let online = parse_bool(tick.unwrap().1);
        if index is Some && base is Some && quote is Some && pip is Some && tick is Some
            && online is Some && tick.unwrap().0 <= MAX_TICK_PRECISION {
            Some(
                TradingPairView {
                    index: index.unwrap().0,
                    base: base.unwrap().0,
                    quote: quote.unwrap().0,
                    pip_precision: pip.unwrap().0,
                    tick_precision: tick.unwrap().0,
                    online: online.unwrap().0,
                },
            )
        } else {
            None
        }
    }

    fn decode(bytes: &[u8]) -> (r: Option<TradingPair>) {
        let (index, rest) = match take_u32(bytes) {
            Some(x) => x,
            None => return None,
        };
        let (base, rest) = match take_byte_string(rest) {
            Some(x) => x,
            None => return None,
        };
        let (quote, rest) = match take_byte_string(rest) {
            Some(x) => x,
            None => return None,
        };
        let (pip_precision, rest) = match take_u32(rest) {
            Some(x) => x,
            None => return None,
        };
        let (tick_precision, rest) = match take_u32(rest) {
            Some(x) => x,
            None => return None,
        };
        let (online, _) = match take_bool(rest) {
            Some(x) => x,
            None => return None,
        };
        if tick_precision > MAX_TICK_PRECISION {
            return None;
        }
        Some(TradingPair { index, base, quote, pip_precision, tick_precision, online })
    }
}

impl TradingPair {
    /// Whether the tick precision is one that a stored pair can have.
    pub open spec fn wf(&self) -> bool {
        self.tick_precision <= MAX_TICK_PRECISION
    }

    /// The smallest step of a price: ten to the power of the tick precision.
    pub fn tick(&self) -> (t: u64)
        requires
            self.wf(),
        ensures
            t == pow10(self.tick_precision as nat),
            t >= 1,
    {
        let mut t: u64 = 1;
        let mut i: u32 = 0;
        while i < self.tick_precision
            invariant
                i <= self.tick_precision <= MAX_TICK_PRECISION,
                t == pow10(i as nat),
            decreases self.tick_precision - i,
        {
            proof {
                lemma_pow10_bounds(i as nat);
            }
            t = t * 10;
            i = i + 1;
        }
        proof {
            lemma_pow10_bounds(self.tick_precision as nat);
        }
        t
    }

    /// How far a price may lie from the best price of its side: a hundred
    /// ticks.
    pub fn fluctuation(&self) -> (f: u64)
        requires
            self.wf(),
        ensures
            f == FLUCTUATION_TICKS * pow10(self.tick_precision as nat),
    {
        proof {
            lemma_pow10_bounds(self.tick_precision as nat);
        }
        FLUCTUATION_TICKS * self.tick()
    }
}

/// The name of one order: the account that placed it and its number among
/// the orders of that account.
#[derive(Debug, Clone, PartialEq, Eq)]
pub struct OrderId {
    /// The account, `ACCOUNT_ID_LEN` bytes.
    pub who: Vec<u8>,
    /// Number of the order among those of the account.
    pub index: u64,
}

impl View for OrderId {
    type V = (Seq<u8>, u64);

    open spec fn view(&self) -> (Seq<u8>, u64) {
        (self.who@, self.index)
    }
}

/// The orders that rest at one price of one trading pair.
#[derive(Debug, Clone, PartialEq, Eq)]
pub struct OrderIdList {
    /// The names of the orders, oldest first.
    pub ids: Vec<OrderId>,
}

/// The names that a list of order names holds, as plain values.
pub open spec fn order_ids_view(ids: Seq<OrderId>) -> Seq<(Seq<u8>, u64)> {
    Seq::new(ids.len(), |i: int| ids[i]@)
}

impl View for OrderIdList {
    type V = Seq<(Seq<u8>, u64)>;

    open spec fn view(&self) -> Seq<(Seq<u8>, u64)> {
        order_ids_view(self.ids@)
    }
}

/// Number of bytes of a stored order name.
pub open spec fn order_id_width() -> nat {
    (ACCOUNT_ID_LEN + 8) as nat
}

/// The `i`-th order name in `bytes`, which hold names one after the other.
pub open spec fn order_id_at(bytes: Seq<u8>, i: int) -> (Seq<u8>, u64) {
    (
        bytes.subrange(i * order_id_width(), i * order_id_width() + ACCOUNT_ID_LEN),
        le_nat(
            bytes.subrange(i * order_id_width() + ACCOUNT_ID_LEN, (i + 1) * order_id_width()),
        ) as u64,
    )
}

impl Decodable for OrderIdList {
    /// Stored as a compact count, then for each order the account and the
    /// number of the order.
    open spec fn decoded(bytes: Seq<u8>) -> Option<Seq<(Seq<u8>, u64)>> {
        match parse_compact_u32(bytes) {
            Some((count, rest)) => if rest.len() >= count * order_id_width() {
                Some(Seq::new(count as nat, |i: int| order_id_at(rest, i)))
            } else {
                None
            },
            None => None,
        }
    }

    fn decode(bytes: &[u8]) -> (r: Option<OrderIdList>) {
        let (count, rest) = match scale_compact_u32(bytes) {
            Some(x) => x,
            None => return None,
        };
        let width: u64 = (ACCOUNT_ID_LEN + 8) as u64;
        if (rest.len() as u64) < count as u64 * width {
            return None;
        }
        let mut ids: Vec<OrderId> = Vec::new();
        let mut i: u32 = 0;
        while i < count
            invariant
                i <= count,
                width == order_id_width(),
                rest@.len() >= count * order_id_width(),
                rest@.len() <= usize::MAX,
                ids@.len() == i,
                forall|j: int| 0 <= j < i ==> (#[trigger] ids@[j])@ == order_id_at(rest@, j),
            decreases count - i,
        {
            assert(width == 40);
            assert(i * width + width <= count * width) by (nonlinear_arith)
                requires
                    i < count,
                    width == 40,
            ;
            let from: usize = (i as u64 * width) as usize;
            assert(from + 40 <= rest@.len());
            let chunk = slice_subrange(rest, from, from + ACCOUNT_ID_LEN + 8);
            let (who, tail) = match take_fixed(chunk, ACCOUNT_ID_LEN) {
                Some(x) => x,
                None => return None,
            };
            let (index, _) = match take_u64(tail) {
                Some(x) => x,
                None => return None,
            };
            proof {
                let w = order_id_width() as int;
                assert((i + 1) * w == i * w + w) by (nonlinear_arith);
                assert(chunk@.take(ACCOUNT_ID_LEN as int) =~= rest@.subrange(
                    i * w,
                    i * w + ACCOUNT_ID_LEN,
                ));
                assert(chunk@.skip(ACCOUNT_ID_LEN as int).take(8) =~= rest@.subrange(
                    i * w + ACCOUNT_ID_LEN,
                    (i + 1) * w,
                ));
            }
            ids.push(OrderId { who, index });
            i = i + 1;
        }
        let list = OrderIdList { ids };
        assert(list@ =~= Seq::new(count as nat, |i: int| order_id_at(rest@, i)));
        Some(list)
    }
}

/// The side of an order.
#[derive(Debug, Clone, Copy, PartialEq, Eq, Structural)]
pub enum OrderDirection {
    Buy,
    Sell,
}

/// How an order is priced.
#[derive(Debug, Clone, Copy, PartialEq, Eq, Structural)]
pub enum OrderType {
    Limit,
    Market,
}

/// How far an order has been filled.
#[derive(Debug, Clone, Copy, PartialEq, Eq, Structural)]
pub enum OrderStatus {
    ZeroFill,
    ParitialFill,
    Filled,
    ParitialFillAndCanceled,
    Canceled,
}

/// The side that the tag `tag` stands for.
pub open spec fn direction_of(tag: u8) -> OrderDirection {
    if tag == 0 {
        OrderDirection::Buy
    } else {
        OrderDirection::Sell
    }
}

/// The pricing that the tag `tag` stands for.
pub open spec fn order_type_of(tag: u8) -> OrderType {
    if tag == 0 {
        OrderType::Limit
    } else {
        OrderType::Market
    }
}

/// The status that the tag `tag` stands for.
pub open spec fn status_of(tag: u8) -> OrderStatus {
    if tag == 0 {
        OrderStatus::ZeroFill
    } else if tag == 1 {
        OrderStatus::ParitialFill
    } else if tag == 2 {
        OrderStatus::Filled
    } else if tag == 3 {
        OrderStatus::ParitialFillAndCanceled
    } else {
        OrderStatus::Canceled
    }
}

/// An order as it is stored.
#[derive(Debug, Clone, PartialEq, Eq)]
pub struct OrderInfo {
    /// The account that placed the order, `ACCOUNT_ID_LEN` bytes.
    pub submitter: Vec<u8>,
    /// Index of the trading pair.
    pub pair_index: u32,
    /// The side of the order.
    pub direction: OrderDirection,
    /// The amount that was ordered.
    pub amount: u64,
    /// The price that was set.
    pub price: u64,
    /// Number of the order among those of its account.
    pub index: u64,
    /// How the order is priced.
    pub class: OrderType,
    /// Block at which the order was placed.
    pub created_at: u64,
    /// How far the order has been filled.
    pub status: OrderStatus,
    /// What is still reserved for the order.
    pub remaining: u64,
    /// Numbers of the fills that the order took part in.
    pub executed_indices: Vec<u64>,
    /// The amount that has been filled.
    pub already_filled: u64,
    /// Block at which the order last changed.
    pub last_update_at: u64,
}

/// What an order holds, as plain values.
pub struct OrderInfoView {
    pub submitter: Seq<u8>,
    pub pair_index: u32,
    pub direction: OrderDirection,
    pub amount: u64,
    pub price: u64,
    pub index: u64,
    pub class: OrderType,
    pub created_at: u64,
    pub status: OrderStatus,
    pub remaining: u64,
    pub executed_indices: Seq<u64>,
    pub already_filled: u64,
    pub last_update_at: u64,
}

impl View for OrderInfo {
    type V = OrderInfoView;

    open spec fn view(&self) -> OrderInfoView {
        OrderInfoView {
            submitter: self.submitter@,
            pair_index: self.pair_index,
            direction: self.direction,
            amount: self.amount,
            price: self.price,
            index: self.index,
            class: self.class,
            created_at: self.created_at,
            status: self.status,
            remaining: self.remaining,
            executed_indices: self.executed_indices@,
            already_filled: self.already_filled,
            last_update_at: self.last_update_at,
        }
    }
}

impl Decodable for OrderInfo {
    /// Stored field by field in the order of the record: the account, the
    /// pair, the side as a tag, amount, price and number, the pricing as a
    /// tag, the block of creation, the status as a tag, the reserve, the
    /// list of fills, the filled amount and the block of the last change.
    open spec fn decoded(bytes: Seq<u8>) -> Option<OrderInfoView> {
        let submitter = parse_fixed(bytes, ACCOUNT_ID_LEN as nat);
        let pair_index = parse_u32(submitter.unwrap().1);
        let direction = parse_tag(pair_index.unwrap().1, 2);
        let amount = parse_u64(direction.unwrap().1);
        let price = parse_u64(amount.unwrap().1);
        let index = parse_u64(price.unwrap().1);
        let class = parse_tag(index.unwrap().1, 2);
        let created_at = parse_u64(class.unwrap().1);
        let status = parse_tag(created_at.unwrap().1, 5);
        let remaining = parse_u64(status.unwrap().1);
        let executed = parse_u64_list(remaining.unwrap().1);
        let already_filled = parse_u64(executed.unwrap().1);
        let last_update_at = parse_u64(already_filled.unwrap().1);
        if submitter is Some && pair_index is Some && direction is Some && amount is Some
            && price is Some && index is Some && class is Some && created_at is Some
            && status is Some && remaining is Some && executed is Some && already_filled is Some
            && last_update_at is Some {
            Some(
                OrderInfoView {
                    submitter: submitter.unwrap().0,
                    pair_index: pair_index.unwrap().0,
                    direction: direction_of(direction.unwrap().0),
                    amount: amount.unwrap().0,
                    price: price.unwrap().0,
                    index: index.unwrap().0,
                    class: order_type_of(class.unwrap().0),
                    created_at: created_at.unwrap().0,
                    status: status_of(status.unwrap().0),
                    remaining: remaining.unwrap().0,
                    executed_indices: executed.unwrap().0,
                    already_filled: already_filled.unwrap().0,
                    last_update_at: last_update_at.unwrap().0,
                },
            )
        } else {
            None
        }
    }

    fn decode(bytes: &[u8]) -> (r: Option<OrderInfo>) {
        let (submitter, rest) = match take_fixed(bytes, ACCOUNT_ID_LEN) {
            Some(x) => x,
            None => return None,
        };
        let (pair_index, rest) = match take_u32(rest) {
            Some(x) => x,
            None => return None,
        };
        let (direction_tag, rest) = match take_tag(rest, 2) {
            Some(x) => x,
            None => return None,
        };
        let (amount, rest) = match take_u64(rest) {
            Some(x) => x,
            None => return None,
        };
        let (price, rest) = match take_u64(rest) {
            Some(x) => x,
            None => return None,
        };
        let (index, rest) = match take_u64(rest) {
            Some(x) => x,
            None => return None,
        };
        let (class_tag, rest) = match take_tag(rest, 2) {
            Some(x) => x,
            None => return None,
        };
        let (created_at, rest) = match take_u64(rest) {
            Some(x) => x,
            None => return None,
        };
        let (status_tag, rest) = match take_tag(rest, 5) {
            Some(x) => x,
            None => return None,
        };
        let (remaining, rest) = match take_u64(rest) {
            Some(x) => x,
            None => return None,
        };
        let (executed_indices, rest) = match take_u64_list(rest) {
            Some(x) => x,
            None => return None,
        };
        let (already_filled, rest) = match take_u64(rest) {
            Some(x) => x,
            None => return None,
        };
        let (last_update_at, _) = match take_u64(rest) {
            Some(x) => x,
            None => return None,
        };
        let direction = if direction_tag == 0 {
            OrderDirection::Buy
        } else {
            OrderDirection::Sell
        };
        let class = if class_tag == 0 {
            OrderType::Limit
        } else {
            OrderType::Market
        };
        let status = if status_tag == 0 {
            OrderStatus::ZeroFill
        } else if status_tag == 1 {
            OrderStatus::ParitialFill
        } else if status_tag == 2 {
            OrderStatus::Filled
        } else if status_tag == 3 {
            OrderStatus::ParitialFillAndCanceled
        } else {
            OrderStatus::Canceled
        };
        Some(
            OrderInfo {
                submitter,
                pair_index,
                direction,
                amount,
                price,
                index,
                class,
                created_at,
                status,
                remaining,
                executed_indices,
                already_filled,
                last_update_at,
            },
        )
    }
}

} // verus!
