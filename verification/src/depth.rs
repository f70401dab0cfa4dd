//! The depth of an order book: for each side, the prices near the best
//! price at which orders rest, each with the volume that is still open.

use crate::accessor::{read_matches, Cell};
use crate::error::ErrorKind;
use crate::records::HandicapInfo;
use vstd::arithmetic::div_mod::{
    lemma_fundamental_div_mod, lemma_mod_add_multiples_vanish, lemma_mod_sub_multiples_vanish,
};
use vstd::prelude::*;

verus! {

/// What an order asked for and what it has been given so far.
#[derive(Debug, Clone, Copy, PartialEq, Eq, Structural)]
pub struct OrderFill {
    /// The amount that was ordered.
    pub amount: u64,
    /// The amount that has been filled.
    pub already_filled: u64,
}

/// One rung of a ladder: a price and the open volume of the orders that
/// rest at exactly that price.
#[derive(Debug, Clone, Copy, PartialEq, Eq, Structural)]
pub struct PriceLevel {
    /// The price.
    pub price: u64,
    /// Sum of the open volume of the orders at the price.
    pub volume: u128,
}

/// The step of a price and the width of the band that a ladder covers.
#[derive(Debug, Clone, Copy, PartialEq, Eq, Structural)]
pub struct PriceBand {
    /// The smallest step between two prices; never zero.
    pub tick: u64,
    /// How far a ladder reaches from the best price of its side.
    pub fluctuation: u64,
}

/// The two ladders of a trading pair, each from the lowest price upwards.
#[derive(Debug, Clone, PartialEq, Eq)]
pub struct Depth {
    /// The asks.
    pub sell: Vec<PriceLevel>,
    /// The bids.
    pub buy: Vec<PriceLevel>,
}

/// Where the orders that rest at a price are looked up.
pub trait LevelSource {
    /// What is found at `price`: nothing, an unreadable entry, or the orders
    /// that rest there.
    spec fn level(&self, price: u64) -> Cell<Seq<OrderFill>>;

    /// Looks up the orders that rest at `price`.
    fn orders_at(&self, price: u64) -> (r: Result<Option<Vec<OrderFill>>, ErrorKind>)
        ensures
            read_matches(r, self.level(price)),
    ;
}

/// The open volume of one order: what was ordered less what was filled, and
/// nothing where more was filled than ordered.
pub open spec fn unfilled(fill: OrderFill) -> nat {
    if fill.amount >= fill.already_filled {
        (fill.amount - fill.already_filled) as nat
    } else {
        0
    }
}

/// The open volume of a list of orders.
pub open spec fn unfilled_sum(fills: Seq<OrderFill>) -> nat
    decreases fills.len(),
{
    if fills.len() == 0 {
        0
    } else {
        unfilled_sum(fills.drop_last()) + unfilled(fills.last())
    }
}

/// The open volume of `n` orders is at most `n` times the largest amount.
pub proof fn lemma_unfilled_sum_bound(fills: Seq<OrderFill>)
    ensures
        unfilled_sum(fills) <= fills.len() * u64::MAX,
    decreases fills.len(),
{
    if fills.len() > 0 {
        lemma_unfilled_sum_bound(fills.drop_last());
        assert((fills.len() - 1) * u64::MAX + u64::MAX == fills.len() * u64::MAX)
            by (nonlinear_arith);
    }
}

/// Adds up the open volume of the orders in `fills`.
pub fn sum_of_quotations(fills: &Vec<OrderFill>) -> (total: u128)
    ensures
        total == unfilled_sum(fills@),
{
    let mut total: u128 = 0;
    let mut i: usize = 0;
    while i < fills.len()
        invariant
            i <= fills.len(),
            total == unfilled_sum(fills@.take(i as int)),
        decreases fills.len() - i,
    {
        proof {
            assert(fills@.take(i + 1).drop_last() =~= fills@.take(i as int));
            lemma_unfilled_sum_bound(fills@.take(i + 1));
            assert((i + 1) * u64::MAX <= usize::MAX * u64::MAX) by (nonlinear_arith)
                requires
                    i + 1 <= usize::MAX,
            ;
        }
        let fill = fills[i];
        let open: u64 = if fill.amount >= fill.already_filled {
            fill.amount - fill.already_filled
        } else {
            0
        };
        total = total + open as u128;
        i = i + 1;
    }
    assert(fills@.take(fills@.len() as int) =~= fills@);
    total
}

/// The upper end of the sell ladder: nothing where no ask rests, else the
/// lowest ask plus the fluctuation.
pub open spec fn maximum_bid(handicap: HandicapInfo, band: PriceBand) -> int {
    if handicap.lowest_offer == 0 {
        0
    } else {
        handicap.lowest_offer + band.fluctuation
    }
}

/// The lower end of the buy ladder: the highest bid less the fluctuation
/// where the bid is above the fluctuation, else one tick.
pub open spec fn minimum_offer(handicap: HandicapInfo, band: PriceBand) -> int {
    if handicap.highest_bid > band.fluctuation {
        handicap.highest_bid - band.fluctuation
    } else {
        band.tick as int
    }
}

/// Computes the upper end of the sell ladder and the lower end of the buy
/// ladder.
pub fn ladder_bounds(handicap: HandicapInfo, band: PriceBand) -> (r: (u128, u64))
    ensures
        r.0 == maximum_bid(handicap, band),
        r.1 == minimum_offer(handicap, band),
{
    let upper: u128 = if handicap.lowest_offer == 0 {
        0
    } else {
        handicap.lowest_offer as u128 + band.fluctuation as u128
    };
    let lower: u64 = if handicap.highest_bid > band.fluctuation {
        handicap.highest_bid - band.fluctuation
    } else {
        band.tick
    };
    (upper, lower)
}

/// The levels that a walk from `from` up to `to` in steps of `tick` emits:
/// one for each price on the way at which at least one order rests, with the
/// open volume of the orders there. `None` where an entry on the way cannot
/// be read.
pub open spec fn ladder<S: LevelSource>(source: &S, from: int, to: int, tick: int) -> Option<
    Seq<PriceLevel>,
>
    decreases
        (if from <= to {
            to - from + 1
        } else {
            0
        }),
{
    if tick <= 0 || from < 0 || from > to || from > u64::MAX {
        Some(Seq::empty())
    } else {
        match source.level(from as u64) {
            Cell::Malformed => None,
            Cell::Absent => ladder(source, from + tick, to, tick),
            Cell::Present(fills) => match ladder(source, from + tick, to, tick) {
                None => None,
                Some(rest) => if fills.len() == 0 {
                    Some(rest)
                } else {
                    Some(
                        seq![
                            PriceLevel { price: from as u64, volume: unfilled_sum(fills) as u128 },
                        ] + rest,
                    )
                },
            },
        }
    }
}

/// Whether `level` is what a walk from `from` up to `to` in steps of `tick`
/// emits at one of its prices: the price lies on a step of the walk, at
/// least one order rests there, and the volume is the open volume of the
/// orders there.
pub open spec fn on_ladder<S: LevelSource>(
    source: &S,
    from: int,
    to: int,
    tick: int,
    level: PriceLevel,
) -> bool {
    &&& from <= level.price <= to
    &&& (level.price - from) % tick == 0
    &&& source.level(level.price) is Present
    &&& source.level(level.price)->Present_0.len() > 0
    &&& level.volume == unfilled_sum(source.level(level.price)->Present_0) as u128
}

/// Every level of a ladder lies on a step of its walk and holds the open
/// volume of the orders that rest at its price, and the prices of a ladder
/// rise from level to level.
pub proof fn lemma_ladder_levels<S: LevelSource>(source: &S, from: int, to: int, tick: int)
    requires
        tick > 0,
        ladder(source, from, to, tick) is Some,
    ensures
        forall|i: int|
            0 <= i < ladder(source, from, to, tick).unwrap().len() ==> on_ladder(
                source,
                from,
                to,
                tick,
                #[trigger] ladder(source, from, to, tick).unwrap()[i],
            ),
        forall|i: int, j: int|
            0 <= i < j < ladder(source, from, to, tick).unwrap().len() ==> ladder(
                source,
                from,
                to,
                tick,
            ).unwrap()[i].price < ladder(source, from, to, tick).unwrap()[j].price,
    decreases
        (if from <= to {
            to - from + 1
        } else {
            0
        }),
{
    if from < 0 || from > to || from > u64::MAX {
    } else {
        let levels = ladder(source, from, to, tick).unwrap();
        let rest = ladder(source, from + tick, to, tick).unwrap();
        lemma_ladder_levels(source, from + tick, to, tick);
        assert forall|i: int| 0 <= i < rest.len() implies on_ladder(
            source,
            from,
            to,
            tick,
            #[trigger] rest[i],
        ) && rest[i].price > from by {
            assert(on_ladder(source, from + tick, to, tick, rest[i]));
            let p = rest[i].price as int;
            assert((p - from) % tick == 0) by (nonlinear_arith)
                requires
                    (p - (from + tick)) % tick == 0,
                    tick > 0,
            ;
        }
        match source.level(from as u64) {
            Cell::Present(fills) => {
                if fills.len() > 0 {
                    assert(levels =~= seq![levels[0]] + rest);
                    assert((from - from) % tick == 0) by (nonlinear_arith)
                        requires
                            tick > 0,
                    ;
                    assert forall|i: int| 0 <= i < levels.len() implies on_ladder(
                        source,
                        from,
                        to,
                        tick,
                        #[trigger] levels[i],
                    ) by {
                        if i > 0 {
                            assert(levels[i] == rest[i - 1]);
                        }
                    }
                    assert forall|i: int, j: int| 0 <= i < j < levels.len() implies levels[i].price
                        < levels[j].price by {
                        assert(levels[j] == rest[j - 1]);
                        if i > 0 {
                            assert(levels[i] == rest[i - 1]);
                        }
                    }
                }
            },
            _ => {},
        }
    }
}

/// Whether the walk from `from` up to `to` in steps of `tick` comes by
/// `price`.
pub open spec fn on_walk(from: int, to: int, tick: int, price: int) -> bool {
    from <= price <= to && price <= u64::MAX && (price - from) % tick == 0
}

/// A price behind the first of a walk is a price of the walk that starts
/// one step later, and the other way round.
pub proof fn lemma_walk_step(from: int, to: int, tick: int, price: int)
    requires
        tick > 0,
    ensures
        on_walk(from, to, tick, from) <==> from <= to && from <= u64::MAX,
        on_walk(from, to, tick, price) && price != from ==> on_walk(from + tick, to, tick, price),
        on_walk(from + tick, to, tick, price) ==> on_walk(from, to, tick, price) && price != from,
{
    lemma_mod_sub_multiples_vanish(price - from, tick);
    lemma_mod_add_multiples_vanish(price - (from + tick), tick);
    assert(-tick + (price - from) == price - (from + tick));
    assert(tick + (price - (from + tick)) == price - from);
    assert(0int % tick == 0) by {
        vstd::arithmetic::div_mod::lemma_small_mod(0, tick as nat);
    }
    if on_walk(from, to, tick, price) && price != from {
        let d = price - from;
        lemma_fundamental_div_mod(d, tick);
        assert(d == tick * (d / tick));
        assert(d / tick >= 1) by (nonlinear_arith)
            requires
                d == tick * (d / tick),
                d > 0,
                tick > 0,
        ;
        assert(d >= tick) by (nonlinear_arith)
            requires
                d == tick * (d / tick),
                d / tick >= 1,
                tick > 0,
        ;
    }
}

/// A ladder leaves out no price of its walk at which orders rest.
pub proof fn lemma_ladder_complete<S: LevelSource>(
    source: &S,
    from: int,
    to: int,
    tick: int,
    price: u64,
)
    requires
        tick > 0,
        from >= 0,
        ladder(source, from, to, tick) is Some,
        on_walk(from, to, tick, price as int),
        source.level(price) is Present,
        source.level(price)->Present_0.len() > 0,
    ensures
        exists|i: int|
            0 <= i < ladder(source, from, to, tick).unwrap().len() && (#[trigger] ladder(
                source,
                from,
                to,
                tick,
            ).unwrap()[i]).price == price,
    decreases
        (if from <= to {
            to - from + 1
        } else {
            0
        }),
{
    let levels = ladder(source, from, to, tick).unwrap();
    let rest = ladder(source, from + tick, to, tick).unwrap();
    if price == from {
        assert(levels[0].price == price);
    } else {
        lemma_walk_step(from, to, tick, price as int);
        lemma_ladder_complete(source, from + tick, to, tick, price);
        let i = choose|i: int| 0 <= i < rest.len() && (#[trigger] rest[i]).price == price;
        match source.level(from as u64) {
            Cell::Present(fills) => {
                if fills.len() > 0 {
                    assert(levels =~= seq![levels[0]] + rest);
                    assert(levels[i + 1] == rest[i]);
                } else {
                    assert(levels[i] == rest[i]);
                }
            },
            _ => {
                assert(levels[i] == rest[i]);
            },
        }
    }
}

/// A ladder cannot be built exactly where its walk comes by a price whose
/// entry cannot be read.
pub proof fn lemma_ladder_unreadable<S: LevelSource>(source: &S, from: int, to: int, tick: int)
    requires
        tick > 0,
        from >= 0,
    ensures
        ladder(source, from, to, tick) is None <==> exists|price: u64|
            on_walk(from, to, tick, price as int) && #[trigger] source.level(price) is Malformed,
    decreases
        (if from <= to {
            to - from + 1
        } else {
            0
        }),
{
    if from > to || from > u64::MAX {
    } else {
        lemma_ladder_unreadable(source, from + tick, to, tick);
        lemma_walk_step(from, to, tick, from);
        assert forall|price: u64| on_walk(from + tick, to, tick, price as int) implies on_walk(
            from,
            to,
            tick,
            price as int,
        ) by {
            lemma_walk_step(from, to, tick, price as int);
        }
        assert forall|price: u64|
            on_walk(from, to, tick, price as int) && price != from implies on_walk(
            from + tick,
            to,
            tick,
            price as int,
        ) by {
            lemma_walk_step(from, to, tick, price as int);
        }
        if ladder(source, from, to, tick) is None {
            if source.level(from as u64) is Malformed {
                assert(on_walk(from, to, tick, (from as u64) as int));
            } else {
                let price = choose|price: u64|
                    on_walk(from + tick, to, tick, price as int) && #[trigger] source.level(price)
                        is Malformed;
                assert(on_walk(from, to, tick, price as int));
            }
        }
        if exists|price: u64|
            on_walk(from, to, tick, price as int) && #[trigger] source.level(price) is Malformed {
            let price = choose|price: u64|
                on_walk(from, to, tick, price as int) && #[trigger] source.level(price)
                    is Malformed;
            if price != from {
                assert(on_walk(from + tick, to, tick, price as int));
            }
        }
    }
}

/// The levels `head` followed by those of `tail`, where `tail` has any.
pub open spec fn continued(head: Seq<PriceLevel>, tail: Option<Seq<PriceLevel>>) -> Option<
    Seq<PriceLevel>,
> {
    match tail {
        Some(rest) => Some(head + rest),
        None => None,
    }
}

/// Walks the prices from `from` up to `to` in steps of `tick` and collects a
/// level for each price at which orders rest.
pub fn walk_levels<S: LevelSource>(source: &S, from: u64, to: u128, tick: u64) -> (r: Result<
    Vec<PriceLevel>,
    ErrorKind,
>)
    requires
        tick > 0,
    ensures
        match r {
            Ok(levels) => ladder(source, from as int, to as int, tick as int) == Some(levels@),
            Err(ErrorKind::DecodeErr) => ladder(source, from as int, to as int, tick as int)
                is None,
            Err(_) => false,
        },
{
    let mut out: Vec<PriceLevel> = Vec::new();
    let mut price: u128 = from as u128;
    assert(Seq::<PriceLevel>::empty() + ladder(
        source,
        from as int,
        to as int,
        tick as int,
    ).unwrap() =~= ladder(source, from as int, to as int, tick as int).unwrap());
    while price <= to && price <= u64::MAX as u128
        invariant
            tick > 0,
            from <= price <= u64::MAX + tick,
            ladder(source, from as int, to as int, tick as int) == continued(
                out@,
                ladder(source, price as int, to as int, tick as int),
            ),
        decreases
            (if price <= u64::MAX {
                u64::MAX + 1 - price
            } else {
                0
            }),
    {
        let ghost before = out@;
        let ghost rest = ladder(source, price + tick, to as int, tick as int);
        match source.orders_at(price as u64) {
            Err(e) => {
                return Err(e);
            },
            Ok(None) => {},
            Ok(Some(fills)) => {
                if fills.len() > 0 {
                    proof {
                        lemma_unfilled_sum_bound(fills@);
                        assert(fills@.len() * u64::MAX <= usize::MAX * u64::MAX)
                            by (nonlinear_arith)
                            requires
                                fills@.len() <= usize::MAX,
                        ;
                    }
                    let level = PriceLevel { price: price as u64, volume: sum_of_quotations(&fills) };
                    out.push(level);
                    proof {
                        if rest is Some {
                            assert(before.push(level) + rest.unwrap() =~= before + (seq![level]
                                + rest.unwrap()));
                        }
                    }
                }
            },
        }
        price = price + tick as u128;
    }
    proof {
        assert(ladder(source, price as int, to as int, tick as int) == Some(
            Seq::<PriceLevel>::empty(),
        ));
        assert(out@ + Seq::<PriceLevel>::empty() =~= out@);
    }
    Ok(out)
}

/// The upper end of the buy walk. Once the sell ladder holds exactly `piece`
/// levels the buy walk ends after its first price; else it goes up to the
/// highest bid.
pub open spec fn buy_upper(handicap: HandicapInfo, band: PriceBand, sold: nat, piece: u32) -> int {
    if sold == piece && minimum_offer(handicap, band) <= handicap.highest_bid {
        minimum_offer(handicap, band)
    } else {
        handicap.highest_bid as int
    }
}

/// The two ladders of a book: the asks from the lowest offer up to the
/// maximum bid, then the bids from the minimum offer up to where the buy
/// walk ends. `None` where an entry on the way cannot be read.
pub open spec fn depth_of<S: LevelSource>(
    source: &S,
    handicap: HandicapInfo,
    band: PriceBand,
    piece: u32,
) -> Option<(Seq<PriceLevel>, Seq<PriceLevel>)> {
    match ladder(
        source,
        handicap.lowest_offer as int,
        maximum_bid(handicap, band),
        band.tick as int,
    ) {
        None => None,
        Some(sell) => match ladder(
            source,
            minimum_offer(handicap, band),
            buy_upper(handicap, band, sell.len(), piece),
            band.tick as int,
        ) {
            None => None,
            Some(buy) => Some((sell, buy)),
        },
    }
}

/// Whether a depth is one that can be asked for: from 1 to 10.
pub open spec fn piece_in_range(piece: u32) -> bool {
    1 <= piece <= 10
}

/// Builds the two ladders of a book.
///
/// A `piece` outside `1..=10` is rejected with `QuotationsPieceErr`. The sell
/// ladder walks from the lowest offer to the maximum bid; the walk of a side
/// ends early only once the other side holds exactly `piece` levels, which
/// for the sell ladder, walked first, never happens. An entry that cannot be
/// read ends the query with `DecodeErr`.
pub fn depth_ladders<S: LevelSource>(
    source: &S,
    handicap: HandicapInfo,
    band: PriceBand,
    piece: u32,
) -> (r: Result<Depth, ErrorKind>)
    requires
        band.tick > 0,
    ensures
        match r {
            Ok(depth) => piece_in_range(piece) && depth_of(source, handicap, band, piece) == Some(
                (depth.sell@, depth.buy@),
            ),
            Err(ErrorKind::QuotationsPieceErr) => !piece_in_range(piece),
            Err(ErrorKind::DecodeErr) => piece_in_range(piece) && depth_of(
                source,
                handicap,
                band,
                piece,
            ) is None,
            Err(_) => false,
        },
        piece < 1 || piece > 10 ==> r matches Err(ErrorKind::QuotationsPieceErr),
        1 <= piece <= 10 ==> !(r matches Err(ErrorKind::QuotationsPieceErr)),
{
    if piece < 1 || piece > 10 {
        return Err(ErrorKind::QuotationsPieceErr);
    }
    let (upper, lower) = ladder_bounds(handicap, band);
    let sell = match walk_levels(source, handicap.lowest_offer, upper, band.tick) {
        Ok(levels) => levels,
        Err(e) => {
            return Err(e);
        },
    };
    let buy_to: u64 = if sell.len() == piece as usize && lower <= handicap.highest_bid {
        lower
    } else {
        handicap.highest_bid
    };
    let buy = match walk_levels(source, lower, buy_to as u128, band.tick) {
        Ok(levels) => levels,
        Err(e) => {
            return Err(e);
        },
    };
    Ok(Depth { sell, buy })
}

} // verus!
