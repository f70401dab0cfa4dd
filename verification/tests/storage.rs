use chainx_rpc::accessor::pickout;
use chainx_rpc::error::ErrorKind;
use chainx_rpc::hashing::{blake2_256, storage_key, twox_128, Hasher};
use chainx_rpc::keys::{key, key_for, key_for_account, key_for_pair, key_for_u32};
use chainx_rpc::records::HandicapInfo;
use chainx_rpc::snapshot::Snapshot;

fn unhex(text: &str) -> Vec<u8> {
    (0..text.len() / 2).map(|i| u8::from_str_radix(&text[2 * i..2 * i + 2], 16).unwrap()).collect()
}

#[test]
fn twox_128_of_known_inputs() {
    assert_eq!(twox_128(b""), unhex("99e9d85137db46ef4bbea33613baafd5"));
    assert_eq!(twox_128(b"Hello world!"), unhex("b27dfd7f223f177f2a13647b533599af"));
    assert_eq!(twox_128(b"Sudo Key"), unhex("50a63a871aced22e88ee6466fe5aa5d9"));
}

#[test]
fn blake2_256_of_known_inputs() {
    assert_eq!(
        blake2_256(b""),
        unhex("0e5751c026e543b2e8ab2eb06099daa1d1e5df47778f7787faab45cdf12fe3a8")
    );
    assert_eq!(
        blake2_256(b"abc"),
        unhex("bddd813c634239723171ef3fee98579b94964e3bb1cb3e427262c8c068d52319")
    );
}

#[test]
fn storage_key_goes_by_the_scheme() {
    let name = b"XSpot TradingPairCount";
    assert_eq!(storage_key(name, Hasher::TWOX128), twox_128(name));
    assert_eq!(storage_key(name, Hasher::BLAKE2256), blake2_256(name));
    assert_eq!(storage_key(name, Hasher::TWOX128).len(), 16);
    assert_eq!(storage_key(name, Hasher::BLAKE2256).len(), 32);
    assert_ne!(twox_128(name), name.to_vec());
    assert_ne!(blake2_256(name), name.to_vec());
}

#[test]
fn keys_are_name_then_parameter() {
    assert_eq!(key("Ab"), b"Ab".to_vec());
    assert_eq!(key_for("Ab", &[1, 2]), vec![b'A', b'b', 1, 2]);
    assert_eq!(key_for_u32("Ab", 0x0102), vec![b'A', b'b', 2, 1, 0, 0]);
    assert_eq!(
        key_for_pair("Ab", 1, 0x0a0b),
        vec![b'A', b'b', 1, 0, 0, 0, 0x0b, 0x0a, 0, 0, 0, 0, 0, 0]
    );
    assert_eq!(
        key_for_account("Ab", &[9, 9], 3),
        vec![b'A', b'b', 9, 9, 3, 0, 0, 0, 0, 0, 0, 0]
    );
}

#[test]
fn snapshot_gives_back_what_was_stored() {
    let mut state = Snapshot::new();
    assert_eq!(state.raw_get(&[1, 2]), None);
    state.insert(vec![1, 2], vec![10]);
    state.insert(vec![1, 3], vec![20]);
    assert_eq!(state.raw_get(&[1, 2]), Some(vec![10]));
    assert_eq!(state.raw_get(&[1, 3]), Some(vec![20]));
    assert_eq!(state.raw_get(&[1]), None);
    state.insert(vec![1, 2], vec![30]);
    assert_eq!(state.raw_get(&[1, 2]), Some(vec![30]));
}

#[test]
fn absent_cell_reads_as_none() {
    let state = Snapshot::new();
    assert_eq!(pickout::<u32>(&state, b"XSpot TradingPairCount", Hasher::TWOX128), Ok(None));
    assert_eq!(pickout::<u64>(&state, b"anything", Hasher::BLAKE2256), Ok(None));
    assert_eq!(pickout::<HandicapInfo>(&state, b"XSpot HandicapOf", Hasher::BLAKE2256), Ok(None));
}

#[test]
fn present_cell_reads_as_its_value() {
    let mut state = Snapshot::new();
    state.insert(twox_128(b"XSpot TradingPairCount"), vec![2, 0, 0, 0]);
    state.insert(blake2_256(b"Some Number"), vec![0, 1, 0, 0, 0, 0, 0, 0]);
    assert_eq!(pickout::<u32>(&state, b"XSpot TradingPairCount", Hasher::TWOX128), Ok(Some(2)));
    assert_eq!(pickout::<u64>(&state, b"Some Number", Hasher::BLAKE2256), Ok(Some(256)));
}

#[test]
fn malformed_cell_is_a_decode_error() {
    let mut state = Snapshot::new();
    state.insert(twox_128(b"XSpot TradingPairCount"), vec![2, 0, 0]);
    let read = pickout::<u32>(&state, b"XSpot TradingPairCount", Hasher::TWOX128);
    assert_eq!(read, Err(ErrorKind::DecodeErr));
    assert_ne!(read, Ok(None));
    state.insert(blake2_256(b"XSpot HandicapOf"), vec![0; 15]);
    assert_eq!(
        pickout::<HandicapInfo>(&state, b"XSpot HandicapOf", Hasher::BLAKE2256),
        Err(ErrorKind::DecodeErr)
    );
}

#[test]
fn wrong_scheme_finds_nothing() {
    let mut state = Snapshot::new();
    state.insert(twox_128(b"XSpot TradingPairCount"), vec![2, 0, 0, 0]);
    assert_eq!(pickout::<u32>(&state, b"XSpot TradingPairCount", Hasher::BLAKE2256), Ok(None));
}
