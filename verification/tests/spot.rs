use chainx_rpc::depth::PriceLevel;
use chainx_rpc::error::ErrorKind;
use chainx_rpc::hashing::{storage_key, Hasher};
use chainx_rpc::keys::{
    key, key_for, key_for_account, key_for_pair, key_for_u32, HANDICAP_OF, ORDER_COUNT_OF,
    ORDER_INFO_OF, QUOTATIONS_OF, TRADING_PAIR_COUNT, TRADING_PAIR_INFO_OF, TRADING_PAIR_OF,
};
use chainx_rpc::page::PageData;
use chainx_rpc::records::{OrderDirection, OrderInfo, OrderStatus, OrderType};
use chainx_rpc::snapshot::Snapshot;
use chainx_rpc::spot::{
    orders, pair_info, quotations, quotations_within, scan_orders, trading_pairs, PairInfo,
    QuotationsList,
};
use parity_codec::Encode;

const ALICE: [u8; 32] = [1; 32];
const BOB: [u8; 32] = [2; 32];

fn put(state: &mut Snapshot, cell: Vec<u8>, hasher: Hasher, value: Vec<u8>) {
    state.insert(storage_key(&cell, hasher), value);
}

fn put_pair(state: &mut Snapshot, index: u32, tick_precision: u32) {
    let value = (index, (b"PCX".to_vec(), b"BTC".to_vec()), 9u32, tick_precision, true).encode();
    put(state, key_for_u32(TRADING_PAIR_OF, index), Hasher::BLAKE2256, value);
}

fn put_handicap(state: &mut Snapshot, index: u32, highest_bid: u64, lowest_offer: u64) {
    let value = (highest_bid, lowest_offer).encode();
    put(state, key_for_u32(HANDICAP_OF, index), Hasher::BLAKE2256, value);
}

fn order_bytes(who: [u8; 32], index: u64, price: u64, amount: u64, already_filled: u64) -> Vec<u8> {
    (
        (who, 0u32, [0u8], amount, price, index, [0u8], 10u64),
        [1u8],
        amount - already_filled,
        vec![index],
        already_filled,
        11u64,
    )
        .encode()
}

fn put_order(state: &mut Snapshot, who: [u8; 32], index: u64, price: u64, amount: u64, filled: u64) {
    let value = order_bytes(who, index, price, amount, filled);
    put(state, key_for_account(ORDER_INFO_OF, &who, index), Hasher::BLAKE2256, value);
}

fn put_level(state: &mut Snapshot, pair: u32, price: u64, ids: Vec<([u8; 32], u64)>) {
    put(state, key_for_pair(QUOTATIONS_OF, pair, price), Hasher::BLAKE2256, ids.encode());
}

fn stored_order(who: [u8; 32], index: u64, price: u64, amount: u64, filled: u64) -> OrderInfo {
    OrderInfo {
        submitter: who.to_vec(),
        pair_index: 0,
        direction: OrderDirection::Buy,
        amount,
        price,
        index,
        class: OrderType::Limit,
        created_at: 10,
        status: OrderStatus::ParitialFill,
        remaining: amount - filled,
        executed_indices: vec![index],
        already_filled: filled,
        last_update_at: 11,
    }
}

#[test]
fn quotations_checks_the_piece_first() {
    let state = Snapshot::new();
    assert_eq!(quotations(&state, 0, 0), Err(ErrorKind::QuotationsPieceErr));
    assert_eq!(quotations(&state, 0, 11), Err(ErrorKind::QuotationsPieceErr));
    let mut with_pair = Snapshot::new();
    put_pair(&mut with_pair, 0, 0);
    assert_eq!(quotations(&with_pair, 0, 0), Err(ErrorKind::QuotationsPieceErr));
    assert_eq!(quotations(&with_pair, 0, 11), Err(ErrorKind::QuotationsPieceErr));
    assert!(quotations(&with_pair, 0, 1).is_ok());
    assert!(quotations(&with_pair, 0, 10).is_ok());
}

#[test]
fn quotations_of_an_unknown_pair() {
    let mut state = Snapshot::new();
    assert_eq!(quotations(&state, 0, 1), Err(ErrorKind::TradingPairIndexErr));
    put_pair(&mut state, 0, 0);
    assert_eq!(quotations(&state, 1, 1), Err(ErrorKind::TradingPairIndexErr));
    assert_eq!(quotations(&state, u32::MAX, 10), Err(ErrorKind::TradingPairIndexErr));
}

#[test]
fn quotations_without_best_prices_are_empty() {
    let mut state = Snapshot::new();
    put_pair(&mut state, 4, 0);
    assert_eq!(
        quotations(&state, 4, 3),
        Ok(Some(QuotationsList { id: 4, piece: 3, sell: vec![], buy: vec![] }))
    );
}

#[test]
fn quotations_of_one_bid() {
    let mut state = Snapshot::new();
    put_pair(&mut state, 0, 0);
    put_handicap(&mut state, 0, 100, 0);
    put_level(&mut state, 0, 100, vec![(ALICE, 0)]);
    put_order(&mut state, ALICE, 0, 100, 7, 0);
    assert_eq!(
        quotations(&state, 0, 1),
        Ok(Some(QuotationsList {
            id: 0,
            piece: 1,
            sell: vec![],
            buy: vec![PriceLevel { price: 100, volume: 7 }],
        }))
    );
}

#[test]
fn quotations_within_a_given_band() {
    let mut state = Snapshot::new();
    put_pair(&mut state, 0, 0);
    put_handicap(&mut state, 0, 100, 0);
    put_level(&mut state, 0, 100, vec![(ALICE, 0)]);
    put_order(&mut state, ALICE, 0, 100, 7, 0);
    put_level(&mut state, 0, 90, vec![(BOB, 3)]);
    put_order(&mut state, BOB, 3, 90, 2, 0);
    assert_eq!(
        quotations_within(&state, 0, 1, 5),
        Ok(Some(QuotationsList {
            id: 0,
            piece: 1,
            sell: vec![],
            buy: vec![PriceLevel { price: 100, volume: 7 }],
        }))
    );
    // the pair's own band, a hundred ticks, reaches down to the price 90
    assert_eq!(
        quotations(&state, 0, 1).unwrap().unwrap().buy,
        vec![PriceLevel { price: 90, volume: 2 }, PriceLevel { price: 100, volume: 7 }]
    );
    assert_eq!(quotations_within(&state, 0, 0, 5), Err(ErrorKind::QuotationsPieceErr));
    assert_eq!(quotations_within(&state, 0, 11, 5), Err(ErrorKind::QuotationsPieceErr));
    assert_eq!(quotations_within(&state, 1, 1, 5), Err(ErrorKind::TradingPairIndexErr));
}

#[test]
fn quotations_add_up_the_orders_of_a_price() {
    let mut state = Snapshot::new();
    put_pair(&mut state, 0, 1);
    put_handicap(&mut state, 0, 2000, 2010);
    put_level(&mut state, 0, 2000, vec![(ALICE, 0), (BOB, 5)]);
    put_order(&mut state, ALICE, 0, 2000, 10, 7);
    put_order(&mut state, BOB, 5, 2000, 4, 0);
    put_level(&mut state, 0, 1990, vec![(BOB, 6)]);
    put_order(&mut state, BOB, 6, 1990, 50, 1);
    // not on a step of the tick from the lower end of the band
    put_level(&mut state, 0, 1995, vec![(BOB, 7)]);
    put_order(&mut state, BOB, 7, 1995, 9, 0);
    put_level(&mut state, 0, 2010, vec![(ALICE, 1)]);
    put_order(&mut state, ALICE, 1, 2010, 8, 3);
    put_level(&mut state, 0, 3020, vec![(ALICE, 2)]);
    put_order(&mut state, ALICE, 2, 3020, 1, 0);
    let list = quotations(&state, 0, 5).unwrap().unwrap();
    assert_eq!(list.sell, vec![PriceLevel { price: 2010, volume: 5 }]);
    assert_eq!(
        list.buy,
        vec![PriceLevel { price: 1990, volume: 49 }, PriceLevel { price: 2000, volume: 7 }]
    );
}

#[test]
fn quotations_with_an_unreadable_cell() {
    let mut state = Snapshot::new();
    put_pair(&mut state, 0, 0);
    put_handicap(&mut state, 0, 100, 0);
    put_level(&mut state, 0, 100, vec![(ALICE, 0)]);
    // the level names an order that is not stored
    assert_eq!(quotations(&state, 0, 1), Err(ErrorKind::DecodeErr));
    put(&mut state, key_for_account(ORDER_INFO_OF, &ALICE, 0), Hasher::BLAKE2256, vec![1, 2, 3]);
    assert_eq!(quotations(&state, 0, 1), Err(ErrorKind::DecodeErr));
    put_order(&mut state, ALICE, 0, 100, 7, 0);
    assert!(quotations(&state, 0, 1).is_ok());
    put(&mut state, key_for_pair(QUOTATIONS_OF, 0, 99), Hasher::BLAKE2256, vec![4]);
    assert_eq!(quotations(&state, 0, 1), Err(ErrorKind::DecodeErr));
    let mut bad_pair = Snapshot::new();
    put(&mut bad_pair, key_for_u32(TRADING_PAIR_OF, 0), Hasher::BLAKE2256, vec![0; 5]);
    assert_eq!(quotations(&bad_pair, 0, 1), Err(ErrorKind::DecodeErr));
    let mut bad_handicap = Snapshot::new();
    put_pair(&mut bad_handicap, 0, 0);
    put(&mut bad_handicap, key_for_u32(HANDICAP_OF, 0), Hasher::BLAKE2256, vec![0; 9]);
    assert_eq!(quotations(&bad_handicap, 0, 1), Err(ErrorKind::DecodeErr));
}

#[test]
fn orders_checks_the_page_size() {
    let state = Snapshot::new();
    assert_eq!(orders(&state, &ALICE, 0, 0), Err(ErrorKind::PageSizeErr));
    assert_eq!(orders(&state, &ALICE, 0, 101), Err(ErrorKind::PageSizeErr));
    assert_eq!(
        orders(&state, &ALICE, 3, 100),
        Ok(Some(PageData { page_total: 0, page_index: 3, page_size: 100, data: vec![] }))
    );
}

#[test]
fn orders_come_latest_first_and_gaps_are_passed_over() {
    let mut state = Snapshot::new();
    put(&mut state, key_for(ORDER_COUNT_OF, &ALICE), Hasher::BLAKE2256, 6u64.encode());
    for index in [0u64, 1, 3, 5] {
        put_order(&mut state, ALICE, index, 100 + index, 10, 1);
    }
    put_order(&mut state, BOB, 2, 100, 10, 1);
    put_order(&mut state, ALICE, 6, 100, 10, 1);
    let first = orders(&state, &ALICE, 0, 3).unwrap().unwrap();
    assert_eq!(first.page_total, 2);
    assert_eq!(
        first.data,
        vec![
            stored_order(ALICE, 5, 105, 10, 1),
            stored_order(ALICE, 3, 103, 10, 1),
            stored_order(ALICE, 1, 101, 10, 1),
        ]
    );
    let second = orders(&state, &ALICE, 1, 3).unwrap().unwrap();
    assert_eq!(second.page_total, 2);
    assert_eq!(second.data, vec![stored_order(ALICE, 0, 100, 10, 1)]);
    assert_eq!(orders(&state, &ALICE, 2, 3), Err(ErrorKind::PageIndexErr));
    // six numbers would fill three pages of two; the four orders fill two
    assert_eq!(orders(&state, &ALICE, 0, 2).unwrap().unwrap().page_total, 2);
    assert_eq!(orders(&state, &ALICE, 2, 2), Err(ErrorKind::PageIndexErr));
}

#[test]
fn orders_with_an_unreadable_cell() {
    let mut state = Snapshot::new();
    put(&mut state, key_for(ORDER_COUNT_OF, &ALICE), Hasher::BLAKE2256, vec![1, 0, 0]);
    assert_eq!(orders(&state, &ALICE, 0, 10), Err(ErrorKind::DecodeErr));
    put(&mut state, key_for(ORDER_COUNT_OF, &ALICE), Hasher::BLAKE2256, 2u64.encode());
    put(&mut state, key_for_account(ORDER_INFO_OF, &ALICE, 0), Hasher::BLAKE2256, vec![9; 40]);
    assert_eq!(orders(&state, &ALICE, 0, 10), Err(ErrorKind::DecodeErr));
    // an unreadable order ends the query before the page index is looked at
    assert_eq!(orders(&state, &ALICE, 7, 10), Err(ErrorKind::DecodeErr));
}

#[test]
fn account_without_stored_orders_gets_an_empty_page() {
    let mut state = Snapshot::new();
    put(&mut state, key_for(ORDER_COUNT_OF, &ALICE), Hasher::BLAKE2256, 3000u64.encode());
    put_order(&mut state, BOB, 1, 100, 10, 1);
    for page_index in [0u32, 1, 29, 30, u32::MAX] {
        assert_eq!(
            orders(&state, &ALICE, page_index, 100),
            Ok(Some(PageData { page_total: 0, page_index, page_size: 100, data: vec![] }))
        );
    }
    assert_eq!(
        orders(&state, &[9; 32], 5, 1),
        Ok(Some(PageData { page_total: 0, page_index: 5, page_size: 1, data: vec![] }))
    );
}

#[test]
fn orders_are_counted_as_found_not_as_numbered() {
    let mut state = Snapshot::new();
    put(&mut state, key_for(ORDER_COUNT_OF, &ALICE), Hasher::BLAKE2256, 2500u64.encode());
    for index in [7u64, 1200, 2499] {
        put_order(&mut state, ALICE, index, 100, 10, 1);
    }
    // beyond the stored count: never scanned
    put_order(&mut state, ALICE, 2500, 100, 10, 1);
    let first = orders(&state, &ALICE, 0, 2).unwrap().unwrap();
    assert_eq!(first.page_total, 2);
    assert_eq!(
        first.data,
        vec![stored_order(ALICE, 2499, 100, 10, 1), stored_order(ALICE, 1200, 100, 10, 1)]
    );
    let second = orders(&state, &ALICE, 1, 2).unwrap().unwrap();
    assert_eq!(second.data, vec![stored_order(ALICE, 7, 100, 10, 1)]);
    assert_eq!(orders(&state, &ALICE, 2, 2), Err(ErrorKind::PageIndexErr));
    assert_eq!(scan_orders(&state, &ALICE, 2500).unwrap().len(), 3);
    assert_eq!(scan_orders(&state, &ALICE, 2501).unwrap().len(), 4);
    assert_eq!(scan_orders(&state, &ALICE, 0), Ok(vec![]));
}

#[test]
fn pair_info_without_prices() {
    let pair = chainx_rpc::records::TradingPair {
        index: 2,
        base: b"PCX".to_vec(),
        quote: b"BTC".to_vec(),
        pip_precision: 9,
        tick_precision: 2,
        online: false,
    };
    assert_eq!(
        pair_info(pair, None, None),
        PairInfo {
            id: 2,
            assets: b"PCX".to_vec(),
            currency: b"BTC".to_vec(),
            precision: 9,
            unit_precision: 2,
            online: false,
            last_price: 0,
            aver_price: 0,
            update_height: 0,
            buy_one: 0,
            sell_one: 0,
            maximum_bid: 0,
            minimum_offer: 0,
        }
    );
}

#[test]
fn trading_pairs_lists_what_is_stored() {
    let mut state = Snapshot::new();
    assert_eq!(trading_pairs(&state), Ok(Some(vec![])));
    put(&mut state, key(TRADING_PAIR_COUNT), Hasher::TWOX128, 3u32.encode());
    put_pair(&mut state, 0, 2);
    put_pair(&mut state, 2, 0);
    put_pair(&mut state, 3, 0);
    put(
        &mut state,
        key_for_u32(TRADING_PAIR_INFO_OF, 0),
        Hasher::BLAKE2256,
        (123_400u64, 123_000u64, 55u64).encode(),
    );
    put_handicap(&mut state, 0, 120_000, 123_400);
    put_handicap(&mut state, 2, 7, 0);
    let pairs = trading_pairs(&state).unwrap().unwrap();
    assert_eq!(pairs.len(), 2);
    assert_eq!(
        pairs[0],
        PairInfo {
            id: 0,
            assets: b"PCX".to_vec(),
            currency: b"BTC".to_vec(),
            precision: 9,
            unit_precision: 2,
            online: true,
            last_price: 123_400,
            aver_price: 123_000,
            update_height: 55,
            buy_one: 120_000,
            sell_one: 123_400,
            maximum_bid: 133_400,
            minimum_offer: 110_000,
        }
    );
    assert_eq!(pairs[1].id, 2);
    assert_eq!(pairs[1].last_price, 0);
    assert_eq!(pairs[1].buy_one, 7);
    assert_eq!(pairs[1].maximum_bid, 0);
    assert_eq!(pairs[1].minimum_offer, 1);
}

#[test]
fn trading_pairs_with_an_unreadable_cell() {
    let mut state = Snapshot::new();
    put(&mut state, key(TRADING_PAIR_COUNT), Hasher::TWOX128, vec![1]);
    assert_eq!(trading_pairs(&state), Err(ErrorKind::DecodeErr));
    put(&mut state, key(TRADING_PAIR_COUNT), Hasher::TWOX128, 1u32.encode());
    put_pair(&mut state, 0, 0);
    put(&mut state, key_for_u32(HANDICAP_OF, 0), Hasher::BLAKE2256, vec![1]);
    assert_eq!(trading_pairs(&state), Err(ErrorKind::DecodeErr));
}
