use margin_engine::data::{AccountId, Cache, Control, OracleEntry, Position};
use margin_engine::keys::{array_to_le_bytes, array_to_pubkey, get_oo_keys, is_right_remainder};
use margin_engine::data::{get_oracle, get_oracle_index};

fn oracle_cache() -> Cache {
    Cache {
        marks: vec![],
        funding_cache: vec![],
        borrow_cache: vec![],
        oracles: vec![
            OracleEntry { symbol: 5, price: 111 },
            OracleEntry { symbol: 9, price: 222 },
        ],
    }
}

#[test]
fn words_serialize_little_endian() {
    let bytes = array_to_le_bytes(&[0x0102030405060708, 0x1122334455667788, 0, u64::MAX]);
    assert_eq!(&bytes[0..8], &[8, 7, 6, 5, 4, 3, 2, 1]);
    assert_eq!(
        &bytes[8..16],
        &[0x88, 0x77, 0x66, 0x55, 0x44, 0x33, 0x22, 0x11]
    );
    assert_eq!(&bytes[16..24], &[0; 8]);
    assert_eq!(&bytes[24..32], &[0xff; 8]);
}

#[test]
fn pubkey_holds_the_words() {
    let id = array_to_pubkey(&[3, 1, 4, 1]);
    assert_eq!(id.words, [3, 1, 4, 1]);
    assert!(!id.is_empty());
    assert!(AccountId::empty().is_empty());
}

#[test]
fn oo_keys_are_extracted_in_order() {
    let agg = vec![
        Position {
            key: AccountId { words: [1, 2, 3, 4] },
            pos_size: 0,
            native_pc_total: 0,
            realized_pnl: 0,
            coin_on_bids: 0,
            coin_on_asks: 0,
            funding_index: 0,
        },
        Position {
            key: AccountId::empty(),
            pos_size: 0,
            native_pc_total: 0,
            realized_pnl: 0,
            coin_on_bids: 0,
            coin_on_asks: 0,
            funding_index: 0,
        },
    ];
    let keys = get_oo_keys(&agg);
    assert_eq!(keys.len(), 2);
    assert_eq!(keys[0].words, [1, 2, 3, 4]);
    assert!(keys[1].is_empty());
    // The control struct carries the same aggregate.
    let control = Control { open_orders_agg: agg };
    assert_eq!(control.open_orders_agg.len(), 2);
}

#[test]
fn shard_membership_by_byte_sum() {
    // A single 1-byte: the wrapped residue sum is 1.
    let key = AccountId { words: [1, 0, 0, 0] };
    assert!(is_right_remainder(&key, 7, 1));
    assert!(!is_right_remainder(&key, 7, 2));
    // Modulo one, every key lands in the only shard.
    assert!(is_right_remainder(&key, 1, 0));
}

#[test]
fn oracle_lookup_is_by_exact_symbol() {
    let cache = oracle_cache();
    assert_eq!(get_oracle_index(&cache, 9), Some(1));
    assert_eq!(get_oracle(&cache, 9).map(|e| e.price), Some(222));
    assert_eq!(get_oracle(&cache, 5).map(|e| e.price), Some(111));
    assert!(get_oracle(&cache, 6).is_none());
    // The nil symbol never matches, even if an entry carried it.
    assert!(get_oracle(&cache, 0).is_none());
}
