use chainx_rpc::account::AccountId;
use chainx_rpc::assets::{
    assets, assets_of, fill_defaults, verify_addr_precheck, verify_addr_verdict, Asset, AssetInfo,
    AssetLimit, AssetType, TotalAssetInfo,
};
use chainx_rpc::bridge::{
    address, deposit_limit, particular_accounts, withdraw_tx_bytes, AddressKind, BoundAddress,
    Chain, DepositLimit, Network, ParticularAccounts,
};
use chainx_rpc::codec::encode_byte_string;
use chainx_rpc::error::ErrorKind;
use chainx_rpc::fee::call_params_bytes;
use chainx_rpc::hashing::{storage_key, Hasher};
use chainx_rpc::keys::{key, key_for};
use chainx_rpc::page::{into_pagedata_of_listed, PageData};
use chainx_rpc::gather::{collect_records, deprecated_unless};
use chainx_rpc::snapshot::Snapshot;
use chainx_rpc::staking::next_renominate;
use chainx_rpc::tokens::{
    psedu_nomination_record, psedu_nomination_record_v1, PseduNominationRecord,
    PseduNominationRecordV1,
};
use parity_codec::Encode;

const ALICE: [u8; 32] = [1; 32];

fn put(state: &mut Snapshot, cell: Vec<u8>, hasher: Hasher, value: Vec<u8>) {
    state.insert(storage_key(&cell, hasher), value);
}

#[test]
fn byte_string_is_spelt_as_the_codec_spells_it() {
    for len in [0usize, 1, 63, 64, 16383, 16384, 70000] {
        let value = vec![7u8; len];
        assert_eq!(encode_byte_string(&value), value.encode());
    }
    assert_eq!(encode_byte_string(b"BTC"), vec![12, b'B', b'T', b'C']);
}

#[test]
fn renomination_is_last_block_plus_duration() {
    let mut state = Snapshot::new();
    assert_eq!(next_renominate(&state, &ALICE), Ok(None));
    put(&mut state, key_for("XStaking LastRenominationOf", &ALICE), Hasher::BLAKE2256, 500u64.encode());
    assert_eq!(next_renominate(&state, &ALICE), Ok(None));
    put(&mut state, key("XStaking BondingDuration"), Hasher::TWOX128, 150u64.encode());
    assert_eq!(next_renominate(&state, &ALICE), Ok(Some(650)));
    assert_eq!(next_renominate(&state, &[2; 32]), Ok(None));
    put(&mut state, key("XStaking BondingDuration"), Hasher::TWOX128, u64::MAX.encode());
    assert_eq!(next_renominate(&state, &ALICE), Ok(Some(u64::MAX as u128 + 500)));
    put(&mut state, key("XStaking BondingDuration"), Hasher::TWOX128, vec![1]);
    assert_eq!(next_renominate(&state, &ALICE), Err(ErrorKind::DecodeErr));
}

#[test]
fn deposit_limit_is_for_bitcoin_only() {
    let mut state = Snapshot::new();
    assert_eq!(deposit_limit(&state, b"BTC", false), Ok(None));
    assert_eq!(deposit_limit(&state, b"PCX", true), Ok(None));
    assert_eq!(deposit_limit(&state, b"BT", true), Ok(None));
    assert_eq!(
        deposit_limit(&state, b"BTC", true),
        Ok(Some(DepositLimit { minimal_deposit: 100000 }))
    );
    put(&mut state, key("XBridgeOfBTC BtcMinDeposit"), Hasher::TWOX128, 2500u64.encode());
    assert_eq!(
        deposit_limit(&state, b"BTC", true),
        Ok(Some(DepositLimit { minimal_deposit: 2500 }))
    );
    put(&mut state, key("XBridgeOfBTC BtcMinDeposit"), Hasher::TWOX128, vec![1, 2]);
    assert_eq!(deposit_limit(&state, b"BTC", true), Err(ErrorKind::DecodeErr));
}

#[test]
fn bound_addresses_by_chain() {
    let mut state = Snapshot::new();
    assert_eq!(address(&state, &ALICE, Chain::Bitcoin), Ok(Some(vec![])));
    assert_eq!(address(&state, &ALICE, Chain::Ethereum), Ok(Some(vec![])));
    assert_eq!(address(&state, &ALICE, Chain::ChainX), Err(ErrorKind::UnsupportedChainErr));
    let bitcoin = vec![([0u8], [1u8], [5u8; 20]), ([1u8], [0u8], [6u8; 20])];
    put(
        &mut state,
        key_for("XBridgeFeatures BitcoinCrossChainBinding", &ALICE),
        Hasher::BLAKE2256,
        bitcoin.encode(),
    );
    assert_eq!(
        address(&state, &ALICE, Chain::Bitcoin),
        Ok(Some(vec![
            BoundAddress::Bitcoin {
                kind: AddressKind::P2PKH,
                network: Network::Testnet,
                hash: vec![5; 20],
            },
            BoundAddress::Bitcoin {
                kind: AddressKind::P2SH,
                network: Network::Mainnet,
                hash: vec![6; 20],
            },
        ]))
    );
    put(
        &mut state,
        key_for("XBridgeFeatures EthereumCrossChainBinding", &ALICE),
        Hasher::BLAKE2256,
        vec![[9u8; 20]].encode(),
    );
    assert_eq!(
        address(&state, &ALICE, Chain::Ethereum),
        Ok(Some(vec![BoundAddress::Ethereum { hash: vec![9; 20] }]))
    );
    put(
        &mut state,
        key_for("XBridgeFeatures BitcoinCrossChainBinding", &ALICE),
        Hasher::BLAKE2256,
        vec![([2u8], [0u8], [5u8; 20])].encode(),
    );
    assert_eq!(address(&state, &ALICE, Chain::Bitcoin), Err(ErrorKind::DecodeErr));
    put(
        &mut state,
        key_for("XBridgeFeatures EthereumCrossChainBinding", &ALICE),
        Hasher::BLAKE2256,
        vec![4, 1, 2, 3],
    );
    assert_eq!(address(&state, &ALICE, Chain::Ethereum), Err(ErrorKind::DecodeErr));
}

#[test]
fn unsupported_chain_is_refused_whatever_is_stored() {
    let mut state = Snapshot::new();
    put(
        &mut state,
        key_for("XBridgeFeatures BitcoinCrossChainBinding", &ALICE),
        Hasher::BLAKE2256,
        vec![([0u8], [1u8], [5u8; 20])].encode(),
    );
    let refused = address(&state, &ALICE, Chain::ChainX);
    assert_eq!(refused, Err(ErrorKind::UnsupportedChainErr));
    assert_ne!(refused, Ok(Some(vec![])));
    assert_ne!(refused, Err(ErrorKind::RuntimeErr(b"not support for this chain".to_vec())));
}

#[test]
fn withdrawal_proposal_is_of_the_bitcoin_bridge() {
    let mut state = Snapshot::new();
    assert_eq!(withdraw_tx_bytes(&state, Chain::Bitcoin), None);
    put(
        &mut state,
        key("XBridgeOfBTC CurrentWithdrawalProposal"),
        Hasher::TWOX128,
        vec![1, 2, 3],
    );
    assert_eq!(withdraw_tx_bytes(&state, Chain::Bitcoin), Some(vec![1, 2, 3]));
    assert_eq!(withdraw_tx_bytes(&state, Chain::Ethereum), None);
    assert_eq!(withdraw_tx_bytes(&state, Chain::ChainX), None);
}

#[test]
fn failed_lookup_of_a_list_is_passed_on() {
    let failed: Result<Option<Vec<u8>>, ErrorKind> = Err(ErrorKind::RuntimeErr(vec![7]));
    assert_eq!(into_pagedata_of_listed(failed.clone(), 0, 2), Err(ErrorKind::RuntimeErr(vec![7])));
    assert_eq!(into_pagedata_of_listed(failed, 0, 0), Err(ErrorKind::RuntimeErr(vec![7])));
    assert_eq!(
        into_pagedata_of_listed(Ok(None::<Vec<u8>>), 4, 2),
        Ok(Some(PageData { page_total: 0, page_index: 4, page_size: 2, data: vec![] }))
    );
    assert_eq!(
        into_pagedata_of_listed(Ok(Some(vec![1u8, 2, 3])), 1, 2),
        Ok(Some(PageData { page_total: 2, page_index: 1, page_size: 2, data: vec![3] }))
    );
    assert_eq!(into_pagedata_of_listed(Ok(Some(vec![1u8])), 1, 2), Err(ErrorKind::PageIndexErr));
    assert_eq!(into_pagedata_of_listed(Ok(Some(vec![1u8])), 0, 0), Err(ErrorKind::PageSizeErr));
}

#[test]
fn particular_accounts_as_far_as_stored() {
    let mut state = Snapshot::new();
    assert_eq!(
        particular_accounts(&state),
        Ok(ParticularAccounts { team_account: None, council_account: None, trustees_account: vec![] })
    );
    put(&mut state, key("XAccounts TeamAccount"), Hasher::TWOX128, vec![3; 32]);
    put(&mut state, key("XBridgeFeatures TrusteeMultiSigAddr\u{1}"), Hasher::BLAKE2256, vec![4; 32]);
    put(
        &mut state,
        key_for("XBridgeFeatures TrusteeMultiSigAddr", &[2]),
        Hasher::BLAKE2256,
        vec![5; 32],
    );
    assert_eq!(
        particular_accounts(&state),
        Ok(ParticularAccounts {
            team_account: Some(AccountId { bytes: vec![3; 32] }),
            council_account: None,
            trustees_account: vec![
                (Chain::Bitcoin, AccountId { bytes: vec![4; 32] }),
                (Chain::Ethereum, AccountId { bytes: vec![5; 32] }),
            ],
        })
    );
    put(&mut state, key("XAccounts CouncilAccount"), Hasher::TWOX128, vec![3; 31]);
    assert_eq!(particular_accounts(&state), Err(ErrorKind::DecodeErr));
}

#[test]
fn call_parameters_are_hexadecimal_behind_a_prefix() {
    assert_eq!(call_params_bytes("0x00ff10"), Ok(vec![0x00, 0xff, 0x10]));
    assert_eq!(call_params_bytes("0xAbCd"), Ok(vec![0xab, 0xcd]));
    assert_eq!(call_params_bytes("0x"), Ok(vec![]));
    assert_eq!(call_params_bytes("00ff10"), Err(ErrorKind::BinanryStartErr));
    assert_eq!(call_params_bytes(""), Err(ErrorKind::BinanryStartErr));
    assert_eq!(call_params_bytes("0"), Err(ErrorKind::BinanryStartErr));
    assert_eq!(call_params_bytes("0X00"), Err(ErrorKind::BinanryStartErr));
    assert_eq!(call_params_bytes("0x0"), Err(ErrorKind::HexDecodeErr));
    assert_eq!(call_params_bytes("0x0g"), Err(ErrorKind::HexDecodeErr));
    assert_eq!(call_params_bytes("0x\u{e9}"), Err(ErrorKind::HexDecodeErr));
    assert_eq!(call_params_bytes("0x 0a\t0B\r\n"), Ok(vec![0x0a, 0x0b]));
    assert_eq!(call_params_bytes("0x0 a"), Ok(vec![0x0a]));
    assert_eq!(call_params_bytes("0x0a 0"), Err(ErrorKind::HexDecodeErr));
    assert_eq!(call_params_bytes("0x0x"), Err(ErrorKind::HexDecodeErr));
}

#[test]
fn address_is_refused_before_the_runtime_is_asked() {
    assert_eq!(verify_addr_precheck(false, 10, 10), Some(false));
    assert_eq!(verify_addr_precheck(true, 257, 10), Some(false));
    assert_eq!(verify_addr_precheck(true, 10, 257), Some(false));
    assert_eq!(verify_addr_precheck(true, 256, 256), None);
    assert_eq!(verify_addr_precheck(true, 0, 0), None);
    assert!(verify_addr_verdict(true, true));
    assert!(!verify_addr_verdict(true, false));
    assert!(!verify_addr_verdict(false, true));
}

#[test]
fn every_rank_gets_a_value() {
    assert_eq!(fill_defaults(&vec![], 3, 0u64), vec![0, 0, 0]);
    assert_eq!(fill_defaults(&vec![(1, 5u64), (0, 2), (1, 9), (7, 4)], 3, 0), vec![2, 9, 0]);
    assert_eq!(fill_defaults(&vec![(1, false)], 2, true), vec![true, false]);
    assert_eq!(fill_defaults(&vec![(1, 5u64)], 0, 0), Vec::<u64>::new());
    assert_eq!(AssetType::Free.rank(), 0);
    assert_eq!(AssetType::ReservedXRC20.rank(), 7);
    assert_eq!(AssetLimit::CanMove.rank(), 0);
    assert_eq!(AssetLimit::CanDestroyFree.rank(), 5);
}

#[test]
fn balances_of_an_account_by_page() {
    let held = vec![
        (b"PCX".to_vec(), vec![(0u8, 100u64), (1, 50)]),
        (b"BTC".to_vec(), vec![(3, 7)]),
        (b"SDOT".to_vec(), vec![]),
    ];
    let page = assets_of(held.clone(), 0, 2).unwrap().unwrap();
    assert_eq!(
        page,
        PageData {
            page_total: 2,
            page_index: 0,
            page_size: 2,
            data: vec![
                AssetInfo { name: b"PCX".to_vec(), details: vec![100, 50, 0, 0, 0, 0, 0, 0] },
                AssetInfo { name: b"BTC".to_vec(), details: vec![0, 0, 0, 7, 0, 0, 0, 0] },
            ],
        }
    );
    let last = assets_of(held.clone(), 1, 2).unwrap().unwrap();
    assert_eq!(last.data, vec![AssetInfo { name: b"SDOT".to_vec(), details: vec![0; 8] }]);
    assert_eq!(assets_of(held.clone(), 2, 2), Err(ErrorKind::PageIndexErr));
    assert_eq!(assets_of(held, 0, 0), Err(ErrorKind::PageSizeErr));
}

fn registered(token: &[u8]) -> Asset {
    Asset {
        token: token.to_vec(),
        token_name: b"name".to_vec(),
        chain: Chain::Bitcoin,
        precision: 8,
        desc: b"desc".to_vec(),
    }
}

#[test]
fn registered_assets_with_balances_and_limits() {
    let mut state = Snapshot::new();
    let all = vec![(registered(b"BTC"), true), (registered(b"PCX"), false)];
    put(
        &mut state,
        key_for("XAssets TotalAssetBalance", &b"BTC".to_vec().encode()),
        Hasher::BLAKE2256,
        vec![([0u8], 1000u64), ([4u8], 30u64)].encode(),
    );
    put(
        &mut state,
        key_for("XAssets AssetLimitProps", &b"BTC".to_vec().encode()),
        Hasher::BLAKE2256,
        vec![([3u8], false), ([1u8], true)].encode(),
    );
    let page = assets(&state, all.clone(), 0, 5).unwrap().unwrap();
    assert_eq!(page.page_total, 1);
    assert_eq!(
        page.data,
        vec![
            TotalAssetInfo {
                name: b"BTC".to_vec(),
                token_name: b"name".to_vec(),
                chain: Chain::Bitcoin,
                precision: 8,
                desc: b"desc".to_vec(),
                online: true,
                details: vec![1000, 0, 0, 0, 30, 0, 0, 0],
                limit_props: vec![true, true, true, false, true, true],
            },
            TotalAssetInfo {
                name: b"PCX".to_vec(),
                token_name: b"name".to_vec(),
                chain: Chain::Bitcoin,
                precision: 8,
                desc: b"desc".to_vec(),
                online: false,
                details: vec![0; 8],
                limit_props: vec![true; 6],
            },
        ]
    );
    assert_eq!(assets(&state, all.clone(), 1, 5), Err(ErrorKind::PageIndexErr));
    assert_eq!(assets(&state, all.clone(), 0, 0), Err(ErrorKind::PageSizeErr));
    put(
        &mut state,
        key_for("XAssets AssetLimitProps", &b"PCX".to_vec().encode()),
        Hasher::BLAKE2256,
        vec![([6u8], false)].encode(),
    );
    assert_eq!(assets(&state, all.clone(), 0, 5), Err(ErrorKind::DecodeErr));
    assert_eq!(assets(&state, all, 0, 0), Err(ErrorKind::DecodeErr));
}

#[test]
fn first_failed_lookup_decides() {
    assert_eq!(collect_records::<u8>(vec![]), Ok(vec![]));
    assert_eq!(collect_records(vec![Ok(Some(1u8)), Ok(None), Ok(Some(3))]), Ok(vec![1, 3]));
    assert_eq!(
        collect_records(vec![
            Ok(Some(1u8)),
            Err(ErrorKind::DecodeErr),
            Ok(Some(3)),
            Err(ErrorKind::PageSizeErr),
        ]),
        Err(ErrorKind::DecodeErr)
    );
}

#[test]
fn legacy_form_or_deprecated() {
    assert_eq!(deprecated_unless::<u8, ()>(Ok(4), "chainx_getIntentions"), Ok(Some(4)));
    assert_eq!(
        deprecated_unless::<u8, u8>(Err(1), "chainx_getIntentions"),
        Err(ErrorKind::DeprecatedV0Err("chainx_getIntentions".to_string()))
    );
}

#[test]
fn deposit_weight_of_an_account() {
    let mut state = Snapshot::new();
    assert_eq!(
        psedu_nomination_record(&state, &ALICE, b"BTC", 'c'),
        Ok(PseduNominationRecord {
            common: 'c',
            last_total_deposit_weight: 0,
            last_total_deposit_weight_update: 0,
        })
    );
    put(
        &mut state,
        key_for("XTokens DepositRecords", &(ALICE, b"BTC".to_vec()).encode()),
        Hasher::BLAKE2256,
        (77u64, 12u64).encode(),
    );
    assert_eq!(
        psedu_nomination_record(&state, &ALICE, b"BTC", 'c'),
        Ok(PseduNominationRecord {
            common: 'c',
            last_total_deposit_weight: 77,
            last_total_deposit_weight_update: 12,
        })
    );
    put(
        &mut state,
        key_for("XTokens DepositRecords", &(ALICE, b"BTC".to_vec()).encode()),
        Hasher::BLAKE2256,
        vec![0; 15],
    );
    assert_eq!(psedu_nomination_record(&state, &ALICE, b"BTC", 'c'), Err(ErrorKind::DecodeErr));
    assert_eq!(
        psedu_nomination_record_v1('c', Some((1u128 << 100, 9))),
        PseduNominationRecordV1 {
            common: 'c',
            last_total_deposit_weight: Some(1 << 100),
            last_total_deposit_weight_update: 9,
        }
    );
    assert_eq!(
        psedu_nomination_record_v1('c', None),
        PseduNominationRecordV1 {
            common: 'c',
            last_total_deposit_weight: None,
            last_total_deposit_weight_update: 0,
        }
    );
}
