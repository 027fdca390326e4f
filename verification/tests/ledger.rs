use terra_zil::api::Api;
use terra_zil::api::HexApi;
use terra_zil::api::RejectApi;
use terra_zil::contract::handle;
use terra_zil::contract::init;
use terra_zil::contract::query;
use terra_zil::error::Error;
use terra_zil::msg::Coin;
use terra_zil::msg::ConfigResponse;
use terra_zil::msg::Env;
use terra_zil::msg::HandleMsg;
use terra_zil::msg::InitMsg;
use terra_zil::msg::LogValue;
use terra_zil::msg::MessageInfo;
use terra_zil::msg::QueryMsg;
use terra_zil::state::config_get;
use terra_zil::state::config_key_vec;
use terra_zil::state::config_set;
use terra_zil::state::lock_map_get;
use terra_zil::state::lock_map_set;
use terra_zil::state::total_amount_get;
use terra_zil::state::total_amount_increase;
use terra_zil::state::total_amount_key_vec;
use terra_zil::state::Config;
use terra_zil::store::MemStore;
use terra_zil::store::Store;

fn env_with_funds(sender: &[u8], funds: Vec<Coin>) -> Env {
    Env { message: MessageInfo { sender: sender.to_vec(), sent_funds: funds } }
}

fn ukrw(amount: u128) -> Coin {
    Coin { denom: "ukrw".to_string(), amount }
}

#[test]
fn total_amount() {
    let mut store = MemStore::new();
    let old_amount = total_amount_get(&store);
    assert_eq!(old_amount, 0u128);
    total_amount_increase(&mut store, 100).unwrap();
    let new_amount = total_amount_get(&store);
    assert_eq!(new_amount, 100u128);
}

#[test]
fn lock_map() {
    let mut store = MemStore::new();
    let address: Vec<u8> = vec![7u8, 7u8, 7u8];
    assert_eq!(lock_map_get(&store, &address), 0u128);
    lock_map_set(&mut store, &address, 42).unwrap();
    assert_eq!(lock_map_get(&store, &address), 42u128);
}

#[test]
fn init_then_query() {
    let mut store = MemStore::new();
    let env = env_with_funds(&[0xde, 0xad], vec![]);
    let resp = init(&mut store, env, InitMsg { name: "X".to_string() }).unwrap();
    assert_eq!(resp.log.len(), 0);
    let out = query(&store, &HexApi, QueryMsg::Config {}).unwrap();
    assert_eq!(out, ConfigResponse { name: "X".to_string(), owner: "dead".to_string() });
}

#[test]
fn init_overwrites_config() {
    let mut store = MemStore::new();
    init(&mut store, env_with_funds(&[1], vec![]), InitMsg { name: "first".to_string() })
        .unwrap();
    init(&mut store, env_with_funds(&[2], vec![]), InitMsg { name: "second".to_string() })
        .unwrap();
    let out = query(&store, &HexApi, QueryMsg::Config {}).unwrap();
    assert_eq!(out.name, "second");
    assert_eq!(out.owner, "02");
}

#[test]
fn query_before_init() {
    let store = MemStore::new();
    let r = query(&store, &HexApi, QueryMsg::Config {});
    assert_eq!(r, Err(Error::NotInitialized));
}

#[test]
fn query_identity_format_error() {
    let mut store = MemStore::new();
    init(&mut store, env_with_funds(&[9], vec![]), InitMsg { name: "n".to_string() }).unwrap();
    let r = query(&store, &RejectApi, QueryMsg::Config {});
    assert_eq!(r, Err(Error::IdentityFormatError));
}

#[test]
fn lock_accumulates() {
    let mut store = MemStore::new();
    let sender: Vec<u8> = vec![9u8];

    let r1 = handle(&mut store, env_with_funds(&sender, vec![ukrw(100)]), HandleMsg::Lock {})
        .unwrap();
    assert_eq!(r1.log[0].key, "action");
    assert_eq!(r1.log[0].value, LogValue::Text("lock".to_string()));
    assert_eq!(r1.log[1].key, "address");
    assert_eq!(r1.log[1].value, LogValue::Address(sender.clone()));
    assert_eq!(r1.log[2].key, "amount");
    assert_eq!(r1.log[2].value, LogValue::Amount(100));
    assert_eq!(r1.data, None);

    handle(&mut store, env_with_funds(&sender, vec![ukrw(50)]), HandleMsg::Lock {}).unwrap();

    assert_eq!(total_amount_get(&store), 150u128);
    assert_eq!(lock_map_get(&store, &sender), 150u128);
}

#[test]
fn lock_rejects_wrong_denomination() {
    let mut store = MemStore::new();
    let sender: Vec<u8> = vec![9u8];
    handle(&mut store, env_with_funds(&sender, vec![ukrw(100)]), HandleMsg::Lock {}).unwrap();

    let bad = Coin { denom: "uusd".to_string(), amount: 25 };
    let r = handle(&mut store, env_with_funds(&sender, vec![bad]), HandleMsg::Lock {});
    assert_eq!(r, Err(Error::InvalidFunds));
    assert_eq!(total_amount_get(&store), 100u128);
    assert_eq!(lock_map_get(&store, &sender), 100u128);
}

#[test]
fn lock_rejects_multi_fund() {
    let mut store = MemStore::new();
    let sender: Vec<u8> = vec![9u8];

    let none = handle(&mut store, env_with_funds(&sender, vec![]), HandleMsg::Lock {});
    assert_eq!(none, Err(Error::InvalidFunds));

    let two = handle(
        &mut store,
        env_with_funds(&sender, vec![ukrw(10), ukrw(20)]),
        HandleMsg::Lock {},
    );
    assert_eq!(two, Err(Error::InvalidFunds));

    assert_eq!(total_amount_get(&store), 0u128);
    assert_eq!(lock_map_get(&store, &sender), 0u128);
}

#[test]
fn unlock_is_noop() {
    let mut store = MemStore::new();
    let sender: Vec<u8> = vec![3u8, 4u8];
    handle(&mut store, env_with_funds(&sender, vec![ukrw(100)]), HandleMsg::Lock {}).unwrap();

    let r = handle(&mut store, env_with_funds(&sender, vec![]), HandleMsg::Unlock {
        amount: 40,
    })
        .unwrap();
    assert_eq!(r.log.len(), 2);
    assert_eq!(r.log[0].key, "action");
    assert_eq!(r.log[0].value, LogValue::Text("unlock".to_string()));
    assert_eq!(r.log[1].key, "amount");
    assert_eq!(r.log[1].value, LogValue::Amount(40));
    assert_eq!(r.data, None);

    assert_eq!(total_amount_get(&store), 100u128);
    assert_eq!(lock_map_get(&store, &sender), 100u128);

    // an unlock larger than anything ever locked also succeeds and changes nothing
    let big = handle(&mut store, env_with_funds(&sender, vec![]), HandleMsg::Unlock {
        amount: u128::MAX,
    })
        .unwrap();
    assert_eq!(big.log.len(), 2);
    assert_eq!(total_amount_get(&store), 100u128);
    assert_eq!(lock_map_get(&store, &sender), 100u128);
}

#[test]
fn default_zero_for_unknown_address() {
    let mut store = MemStore::new();
    let sender: Vec<u8> = vec![1u8];
    handle(&mut store, env_with_funds(&sender, vec![ukrw(77)]), HandleMsg::Lock {}).unwrap();

    let never_locked: Vec<u8> = vec![2u8];
    assert_eq!(lock_map_get(&store, &never_locked), 0u128);
}

#[test]
fn idempotent_get() {
    let mut store = MemStore::new();
    let sender: Vec<u8> = vec![5u8];
    init(&mut store, env_with_funds(&sender, vec![]), InitMsg { name: "label".to_string() })
        .unwrap();
    handle(&mut store, env_with_funds(&sender, vec![ukrw(11)]), HandleMsg::Lock {}).unwrap();

    assert_eq!(total_amount_get(&store), total_amount_get(&store));
    assert_eq!(lock_map_get(&store, &sender), lock_map_get(&store, &sender));
    let first = config_get(&store).unwrap();
    let second = config_get(&store).unwrap();
    assert_eq!(first, second);
    let q1 = query(&store, &HexApi, QueryMsg::Config {}).unwrap();
    let q2 = query(&store, &HexApi, QueryMsg::Config {}).unwrap();
    assert_eq!(q1, q2);
}

#[test]
fn config_round_trip_keeps_unicode_name() {
    let mut store = MemStore::new();
    let config = Config { name: "zéro ✓ ledger".to_string(), owner: vec![0u8, 255u8, 7u8] };
    config_set(&mut store, &config).unwrap();
    let back = config_get(&store).unwrap();
    assert_eq!(back, config);
}

#[test]
fn corrupt_records_surface_as_defaults_or_errors() {
    let mut store = MemStore::new();
    // a configuration record that does not decode is a storage failure
    store.set(&config_key_vec(), &[1u8, 2u8, 3u8]).unwrap();
    assert_eq!(config_get(&store), Err(Error::StorageError));
    // an amount record that does not decode reads as the default zero
    store.set(&total_amount_key_vec(), &[1u8, 2u8, 3u8]).unwrap();
    assert_eq!(total_amount_get(&store), 0u128);
}

#[test]
fn hex_api_formats_addresses() {
    let r = HexApi.human_address(&vec![0x00, 0x1f, 0xa0]).unwrap();
    assert_eq!(r, "001fa0");
    let empty = HexApi.human_address(&vec![]).unwrap();
    assert_eq!(empty, "");
}

#[test]
fn amount_codec_round_trip_and_layout() {
    let bytes = terra_zil::codec::encode_amount(0x0102);
    // sixteen little-endian bytes
    assert_eq!(bytes.len(), 16);
    assert_eq!(bytes[0], 0x02);
    assert_eq!(bytes[1], 0x01);
    assert!(bytes[2..].iter().all(|b| *b == 0));
    assert_eq!(terra_zil::codec::decode_amount(&bytes), Some(0x0102));
    // a value of the wrong width does not decode
    assert_eq!(terra_zil::codec::decode_amount(&bytes[..15]), None);
}

#[test]
fn funds_stay_balanced() {
    let mut store = MemStore::new();
    let first: Vec<u8> = vec![1u8];
    let second: Vec<u8> = vec![2u8];
    handle(&mut store, env_with_funds(&first, vec![ukrw(30)]), HandleMsg::Lock {}).unwrap();
    handle(&mut store, env_with_funds(&second, vec![ukrw(12)]), HandleMsg::Lock {}).unwrap();
    let sum = lock_map_get(&store, &first) + lock_map_get(&store, &second);
    assert_eq!(total_amount_get(&store), sum);
    assert_eq!(sum, 42u128);
}
