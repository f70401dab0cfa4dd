use chainx_rpc::accessor::Decodable;
use chainx_rpc::codec::{
    take_bool, take_byte_string, take_fixed, take_tag, take_u32, take_u64, take_u64_list,
    u32_le_bytes, u64_le_bytes,
};
use chainx_rpc::records::{
    HandicapInfo, OrderDirection, OrderId, OrderIdList, OrderInfo, OrderStatus, OrderType,
    PriceInfo, TradingPair,
};
use parity_codec::{Compact, Encode};

#[test]
fn u32_is_read_least_significant_byte_first() {
    assert_eq!(take_u32(&[7, 0, 0, 0, 9]), Some((7, &[9u8][..])));
    assert_eq!(take_u32(&[0x78, 0x56, 0x34, 0x12]), Some((0x1234_5678, &[][..])));
    assert_eq!(take_u32(&[1, 2, 3]), None);
    assert_eq!(take_u32(&[]), None);
}

#[test]
fn u64_is_read_least_significant_byte_first() {
    let bytes = [0xef, 0xcd, 0xab, 0x89, 0x67, 0x45, 0x23, 0x01, 0xff];
    assert_eq!(take_u64(&bytes), Some((0x0123_4567_89ab_cdef, &[0xffu8][..])));
    assert_eq!(take_u64(&bytes[..7]), None);
}

#[test]
fn integers_are_spelt_least_significant_byte_first() {
    assert_eq!(u32_le_bytes(0x1234_5678), vec![0x78, 0x56, 0x34, 0x12]);
    assert_eq!(u64_le_bytes(1), vec![1, 0, 0, 0, 0, 0, 0, 0]);
    assert_eq!(u64_le_bytes(u64::MAX), vec![0xff; 8]);
    for x in [0u64, 255, 256, 0x0123_4567_89ab_cdef] {
        assert_eq!(u64_le_bytes(x), x.encode());
        assert_eq!(take_u64(&u64_le_bytes(x)), Some((x, &[][..])));
    }
    for x in [0u32, 255, 256, u32::MAX] {
        assert_eq!(u32_le_bytes(x), x.encode());
    }
}

#[test]
fn byte_string_has_a_compact_length() {
    // one-byte length
    assert_eq!(take_byte_string(&[8, 0x50, 0x43, 0xaa]), Some((vec![0x50, 0x43], &[0xaau8][..])));
    assert_eq!(take_byte_string(&[0]), Some((vec![], &[][..])));
    assert_eq!(take_byte_string(&[8, 0x50]), None);
    assert_eq!(take_byte_string(&[]), None);
    // two-byte length: 64 is spelt 0x0101
    let mut long = vec![0x01, 0x01];
    long.extend(vec![5u8; 64]);
    long.push(6);
    assert_eq!(take_byte_string(&long), Some((vec![5u8; 64], &[6u8][..])));
    assert_eq!(take_byte_string(&[0x01]), None);
    // four-byte length: 16384 is spelt 02 00 01 00
    let mut longer = vec![0x02, 0x00, 0x01, 0x00];
    longer.extend(vec![9u8; 16384]);
    assert_eq!(take_byte_string(&longer), Some((vec![9u8; 16384], &[][..])));
    // marker byte and four bytes of length
    assert_eq!(take_byte_string(&[3, 2, 0, 0, 0, 7, 8, 9]), Some((vec![7, 8], &[9u8][..])));
    assert_eq!(take_byte_string(&[3, 2, 0, 0]), None);
    // a marker that asks for more than 32 bits
    assert_eq!(take_byte_string(&[7, 2, 0, 0, 0, 0, 7, 8, 9]), None);
}

#[test]
fn byte_string_reads_what_the_codec_writes() {
    for len in [0usize, 1, 63, 64, 65, 16383, 16384, 70000] {
        let value: Vec<u8> = (0..len).map(|i| (i % 251) as u8).collect();
        let mut bytes = value.encode();
        bytes.extend([1, 2, 3]);
        assert_eq!(take_byte_string(&bytes), Some((value, &[1u8, 2, 3][..])));
    }
}

#[test]
fn list_of_u64_has_a_compact_count() {
    let bytes = vec![3u64, 1 << 40, u64::MAX].encode();
    assert_eq!(bytes[0], 12);
    assert_eq!(take_u64_list(&bytes), Some((vec![3, 1 << 40, u64::MAX], &[][..])));
    assert_eq!(take_u64_list(&bytes[..bytes.len() - 1]), None);
    assert_eq!(take_u64_list(&[0, 9]), Some((vec![], &[9u8][..])));
    let many: Vec<u64> = (0..100).collect();
    assert_eq!(Compact(100u32).encode(), vec![0x91, 0x01]);
    assert_eq!(take_u64_list(&many.encode()), Some((many, &[][..])));
}

#[test]
fn flag_and_tag_take_one_byte() {
    assert_eq!(take_bool(&[0, 5]), Some((false, &[5u8][..])));
    assert_eq!(take_bool(&[1]), Some((true, &[][..])));
    assert_eq!(take_bool(&[2]), None);
    assert_eq!(take_bool(&[]), None);
    assert_eq!(take_tag(&[4, 5], 5), Some((4, &[5u8][..])));
    assert_eq!(take_tag(&[5], 5), None);
    assert_eq!(take_tag(&[], 5), None);
    assert_eq!(take_fixed(&[1, 2, 3], 2), Some((vec![1, 2], &[3u8][..])));
    assert_eq!(take_fixed(&[1, 2, 3], 4), None);
}

#[test]
fn integers_decode_and_ignore_what_follows() {
    assert_eq!(u32::decode(&[1, 1, 0, 0, 0xff]), Some(257));
    assert_eq!(u32::decode(&[1, 1, 0]), None);
    assert_eq!(u64::decode(&[0, 0, 0, 0, 1, 0, 0, 0]), Some(1 << 32));
    assert_eq!(u64::decode(&[0; 7]), None);
}

#[test]
fn handicap_is_bid_then_offer() {
    let bytes = (100u64, 120u64).encode();
    assert_eq!(
        HandicapInfo::decode(&bytes),
        Some(HandicapInfo { highest_bid: 100, lowest_offer: 120 })
    );
    assert_eq!(HandicapInfo::decode(&bytes[..15]), None);
}

#[test]
fn price_info_is_three_numbers() {
    let bytes = (5u64, 6u64, 7u64).encode();
    assert_eq!(
        PriceInfo::decode(&bytes),
        Some(PriceInfo { last_price: 5, aver_price: 6, update_height: 7 })
    );
    assert_eq!(PriceInfo::decode(&bytes[..23]), None);
}

#[test]
fn trading_pair_is_read_field_by_field() {
    let bytes = (3u32, (b"PCX".to_vec(), b"BTC".to_vec()), 9u32, 2u32, true).encode();
    let pair = TradingPair::decode(&bytes).unwrap();
    assert_eq!(
        pair,
        TradingPair {
            index: 3,
            base: b"PCX".to_vec(),
            quote: b"BTC".to_vec(),
            pip_precision: 9,
            tick_precision: 2,
            online: true,
        }
    );
    assert_eq!(pair.tick(), 100);
    assert_eq!(pair.fluctuation(), 10_000);
    assert_eq!(TradingPair::decode(&bytes[..bytes.len() - 1]), None);
    let mut bad_flag = bytes.clone();
    *bad_flag.last_mut().unwrap() = 2;
    assert_eq!(TradingPair::decode(&bad_flag), None);
}

#[test]
fn trading_pair_precision_is_bounded() {
    let at_limit = (0u32, (b"A".to_vec(), b"B".to_vec()), 0u32, 17u32, false).encode();
    let pair = TradingPair::decode(&at_limit).unwrap();
    assert_eq!(pair.tick(), 100_000_000_000_000_000);
    assert_eq!(pair.fluctuation(), 10_000_000_000_000_000_000);
    let beyond = (0u32, (b"A".to_vec(), b"B".to_vec()), 0u32, 18u32, false).encode();
    assert_eq!(TradingPair::decode(&beyond), None);
    let unit = (0u32, (b"A".to_vec(), b"B".to_vec()), 0u32, 0u32, false).encode();
    assert_eq!(TradingPair::decode(&unit).unwrap().tick(), 1);
}

#[test]
fn order_names_are_account_and_number() {
    let ids = vec![([1u8; 32], 5u64), ([2u8; 32], 1 << 33)];
    let bytes = ids.encode();
    assert_eq!(bytes.len(), 1 + 2 * 40);
    assert_eq!(
        OrderIdList::decode(&bytes),
        Some(OrderIdList {
            ids: vec![
                OrderId { who: vec![1; 32], index: 5 },
                OrderId { who: vec![2; 32], index: 1 << 33 },
            ],
        })
    );
    assert_eq!(OrderIdList::decode(&bytes[..bytes.len() - 1]), None);
    assert_eq!(OrderIdList::decode(&[0]), Some(OrderIdList { ids: vec![] }));
    assert_eq!(OrderIdList::decode(&[]), None);
}

#[test]
fn order_is_read_field_by_field() {
    let bytes = (
        ([7u8; 32], 2u32, [1u8], 1000u64, 250u64, 4u64, [0u8], 77u64),
        [3u8],
        10u64,
        vec![8u64, 9],
        600u64,
        99u64,
    )
        .encode();
    assert_eq!(
        OrderInfo::decode(&bytes),
        Some(OrderInfo {
            submitter: vec![7; 32],
            pair_index: 2,
            direction: OrderDirection::Sell,
            amount: 1000,
            price: 250,
            index: 4,
            class: OrderType::Limit,
            created_at: 77,
            status: OrderStatus::ParitialFillAndCanceled,
            remaining: 10,
            executed_indices: vec![8, 9],
            already_filled: 600,
            last_update_at: 99,
        })
    );
    assert_eq!(OrderInfo::decode(&bytes[..bytes.len() - 1]), None);
    let mut bad_status = bytes.clone();
    bad_status[32 + 4 + 1 + 8 + 8 + 8 + 1 + 8] = 5;
    assert_eq!(OrderInfo::decode(&bad_status), None);
    let mut bad_side = bytes.clone();
    bad_side[32 + 4] = 2;
    assert_eq!(OrderInfo::decode(&bad_side), None);
}
